//! A store over evmap's eventually consistent map. Each write replaces the
//! key's values and is published to readers at once.
use vstd::prelude::*;
use vstd::multiset::Multiset;
use crate::storage::StorageError;

verus! {

/// evmap's read and write handles over one map of strings.
#[verifier::external_body]
pub struct EvHandles {
    read: evmap::ReadHandle<String, String>,
    write: evmap::WriteHandle<String, String>,
}

/// A bag of values for each key.
pub type ValueBags = Map<Seq<char>, Multiset<Seq<char>>>;

/// The bag of values of each key, as readers see it.
pub uninterp spec fn published(h: EvHandles) -> ValueBags;

/// The bag of values of each key, as the next refresh will publish it.
pub uninterp spec fn staged(h: EvHandles) -> ValueBags;

/// Relies on evmap::new: a new map holds no key, for readers or for the writer.
#[verifier::external_body]
fn ev_new() -> (r: EvHandles)
    ensures
        published(r) == ValueBags::empty(),
        staged(r) == ValueBags::empty(),
{
    let (read, write) = evmap::new();
    EvHandles { read, write }
}

/// Relies on WriteHandle::clear: stages an empty bag for `k`, creating it if
/// absent; readers see nothing of it before a refresh.
#[verifier::external_body]
fn ev_clear(h: &mut EvHandles, k: String)
    ensures
        published(*final(h)) == published(*old(h)),
        staged(*final(h)) == staged(*old(h)).insert(k@, Multiset::<Seq<char>>::empty()),
{
    h.write.clear(k);
}

/// Relies on WriteHandle::insert: stages `v` into the bag of `k`, creating
/// the bag if absent; readers see nothing of it before a refresh.
#[verifier::external_body]
fn ev_insert(h: &mut EvHandles, k: String, v: String)
    ensures
        published(*final(h)) == published(*old(h)),
        staged(*final(h)) == staged(*old(h)).insert(
            k@,
            if staged(*old(h)).contains_key(k@) {
                staged(*old(h))[k@]
            } else {
                Multiset::<Seq<char>>::empty()
            }.insert(v@),
        ),
{
    h.write.insert(k, v);
}

/// Relies on WriteHandle::refresh: readers then see every staged change.
#[verifier::external_body]
fn ev_refresh(h: &mut EvHandles)
    ensures
        published(*final(h)) == staged(*old(h)),
        staged(*final(h)) == staged(*old(h)),
{
    h.write.refresh();
}

/// Relies on ReadHandle::get_one: one value of the published bag of `k`;
/// none when the key has no bag or an empty one.
#[verifier::external_body]
fn ev_get_one(h: &EvHandles, k: &String) -> (r: Option<String>)
    ensures
        r is Some ==> published(*h).contains_key(k@) && published(*h)[k@].contains(r.unwrap()@),
        r is None ==> !published(*h).contains_key(k@) || published(*h)[k@].len() == 0,
{
    h.read.get_one(k).map(|v| String::clone(&v))
}

/// A store over evmap whose every key holds at most one value.
pub struct InMemoryDatabase {
    handles: EvHandles,
}

impl InMemoryDatabase {
    /// Everything staged is published, and each bag holds exactly one value.
    pub closed spec fn wf(&self) -> bool {
        &&& staged(self.handles) == published(self.handles)
        &&& forall|k: Seq<char>| #[trigger] published(self.handles).contains_key(k) ==> exists|v: Seq<char>|
            published(self.handles)[k] == Multiset::<Seq<char>>::empty().insert(v)
    }

    /// The store as a map from keys to values.
    pub closed spec fn view(&self) -> Map<Seq<char>, Seq<char>> {
        Map::new(
            |k: Seq<char>| published(self.handles).contains_key(k),
            |k: Seq<char>| choose|v: Seq<char>| published(self.handles)[k] == Multiset::<Seq<char>>::empty().insert(v),
        )
    }

    /// An empty store.
    pub fn new() -> (r: InMemoryDatabase)
        ensures
            r.wf(),
            r.view() == Map::<Seq<char>, Seq<char>>::empty(),
    {
        let r = InMemoryDatabase { handles: ev_new() };
        assert(r.view() =~= Map::<Seq<char>, Seq<char>>::empty());
        r
    }

    /// Sets `pos` to `value`, replacing what it held, and publishes the change.
    pub fn set(&mut self, pos: String, value: String) -> (r: Result<(), StorageError>)
        requires
            old(self).wf(),
        ensures
            final(self).wf(),
            r is Ok,
            final(self).view() == old(self).view().insert(pos@, value@),
    {
        let ghost k = pos@;
        let ghost v = value@;
        ev_clear(&mut self.handles, pos.clone());
        ev_insert(&mut self.handles, pos, value);
        ev_refresh(&mut self.handles);
        proof {
            let single = Multiset::<Seq<char>>::empty().insert(v);
            assert(Multiset::<Seq<char>>::empty().insert(v) == single);
            assert(published(self.handles) == published(old(self).handles).insert(k, single));
            assert forall|q: Seq<char>| #[trigger] published(self.handles).contains_key(q) implies exists|w: Seq<char>|
                published(self.handles)[q] == Multiset::<Seq<char>>::empty().insert(w) by {
                if q == k {
                    assert(published(self.handles)[q] == Multiset::<Seq<char>>::empty().insert(v));
                }
            }
            assert forall|q: Seq<char>| #[trigger] self.view().contains_key(q) implies self.view()[q] == old(self).view().insert(k, v)[q] by {
                if q == k {
                    let w = choose|w: Seq<char>| published(self.handles)[q] == Multiset::<Seq<char>>::empty().insert(w);
                    assert(Multiset::<Seq<char>>::empty().insert(w).count(w) > 0);
                    assert(single.count(w) > 0);
                }
            }
            assert(self.view() =~= old(self).view().insert(k, v));
        }
        Ok(())
    }

    /// The value of `pos`.
    pub fn get(&self, pos: String) -> (r: Result<String, StorageError>)
        requires
            self.wf(),
        ensures
            r is Ok <==> self.view().contains_key(pos@),
            r is Ok ==> r.unwrap()@ == self.view()[pos@],
            r is Err ==> r == Err::<String, StorageError>(StorageError::GetError),
    {
        match ev_get_one(&self.handles, &pos) {
            Some(value) => {
                proof {
                    let k = pos@;
                    let w = choose|w: Seq<char>| published(self.handles)[k] == Multiset::<Seq<char>>::empty().insert(w);
                    assert(published(self.handles)[k].count(value@) > 0);
                }
                Ok(value)
            },
            None => {
                proof {
                    let k = pos@;
                    if published(self.handles).contains_key(k) {
                        let w = choose|w: Seq<char>| published(self.handles)[k] == Multiset::<Seq<char>>::empty().insert(w);
                        assert(published(self.handles)[k].len() == 1);
                    }
                }
                Err(StorageError::GetError)
            },
        }
    }
}

} // verus!
