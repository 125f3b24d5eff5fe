//! A key/value store that serves reads from a cache filled lazily from its
//! backing table, and writes through the cache to the table.
use vstd::prelude::*;
use vstd::string::StringSliceAdditionalSpecFns;
use vstd::utf8::encode_utf8;

verus! {

/// Why a storage operation failed.
#[derive(Clone, Copy, Debug, PartialEq, Eq, Structural)]
pub enum StorageError {
    /// The key has no value.
    GetError,
}

/// The value of `k` among `entries`, whose keys are distinct.
pub open spec fn entry_value(entries: Seq<(String, String)>, k: Seq<char>) -> Option<Seq<char>> {
    if exists|i: int| 0 <= i < entries.len() && (#[trigger] entries[i]).0@ == k {
        let i = choose|i: int| 0 <= i < entries.len() && (#[trigger] entries[i]).0@ == k;
        Some(entries[i].1@)
    } else {
        None
    }
}

/// The entries as a map from keys to values.
pub open spec fn entries_view(entries: Seq<(String, String)>) -> Map<Seq<char>, Seq<char>> {
    Map::new(
        |k: Seq<char>| entry_value(entries, k) is Some,
        |k: Seq<char>| entry_value(entries, k).unwrap(),
    )
}

proof fn lemma_view_insert(before: Seq<(String, String)>, after: Seq<(String, String)>, k: Seq<char>, v: Seq<char>)
    requires
        entry_value(after, k) == Some(v),
        forall|q: Seq<char>| q != k ==> #[trigger] entry_value(after, q) == entry_value(before, q),
    ensures
        entries_view(after) == entries_view(before).insert(k, v),
{
    assert(entries_view(after) =~= entries_view(before).insert(k, v));
}

/// Keys, compared by their characters, occur once.
pub open spec fn keys_distinct(entries: Seq<(String, String)>) -> bool {
    forall|i: int, j: int|
        0 <= i < entries.len() && 0 <= j < entries.len() && i != j ==> (#[trigger] entries[i]).0@
            != (#[trigger] entries[j]).0@
}

/// A map from strings to strings.
#[derive(Debug)]
pub struct Table {
    pub entries: Vec<(String, String)>,
}

proof fn lemma_entry_at(entries: Seq<(String, String)>, i: int)
    requires
        keys_distinct(entries),
        0 <= i < entries.len(),
    ensures
        entry_value(entries, entries[i].0@) == Some(entries[i].1@),
{
    let k = entries[i].0@;
    assert(exists|j: int| 0 <= j < entries.len() && (#[trigger] entries[j]).0@ == k);
    let j = choose|j: int| 0 <= j < entries.len() && (#[trigger] entries[j]).0@ == k;
    assert(i == j);
}

impl Table {
    pub open spec fn wf(&self) -> bool {
        keys_distinct(self.entries@)
    }

    /// The table as a map from keys to values.
    pub open spec fn view(&self) -> Map<Seq<char>, Seq<char>> {
        entries_view(self.entries@)
    }

    /// An empty table.
    pub fn new() -> (r: Table)
        ensures
            r.wf(),
            r.view() == Map::<Seq<char>, Seq<char>>::empty(),
    {
        let r = Table { entries: Vec::new() };
        assert(r.view() =~= Map::<Seq<char>, Seq<char>>::empty());
        r
    }

    fn position(&self, key: &String) -> (r: Option<usize>)
        requires
            self.wf(),
        ensures
            r is None ==> !self.view().contains_key(key@),
            r is Some ==> r.unwrap() < self.entries@.len() && self.entries@[r.unwrap() as int].0@ == key@,
    {
        let mut i: usize = 0;
        while i < self.entries.len()
            invariant
                i <= self.entries@.len(),
                forall|k: int| 0 <= k < i ==> (#[trigger] self.entries@[k]).0@ != key@,
            decreases self.entries@.len() - i,
        {
            if self.entries[i].0 == *key {
                return Some(i);
            }
            i = i + 1;
        }
        None
    }

    /// The value of `key`, if it has one.
    pub fn get(&self, key: &String) -> (r: Option<String>)
        requires
            self.wf(),
        ensures
            r is Some <==> self.view().contains_key(key@),
            r is Some ==> r.unwrap()@ == self.view()[key@],
    {
        match self.position(key) {
            Some(i) => {
                proof {
                    lemma_entry_at(self.entries@, i as int);
                }
                Some(self.entries[i].1.clone())
            },
            None => None,
        }
    }

    /// Sets `key` to `value`, replacing any earlier value.
    pub fn insert(&mut self, key: String, value: String)
        requires
            old(self).wf(),
        ensures
            final(self).wf(),
            final(self).view() == old(self).view().insert(key@, value@),
    {
        let ghost k = key@;
        let ghost v = value@;
        match self.position(&key) {
            Some(i) => {
                self.entries.set(i, (key, value));
                proof {
                    assert(keys_distinct(self.entries@));
                    lemma_entry_at(self.entries@, i as int);
                    assert forall|q: Seq<char>| q != k implies #[trigger] entry_value(self.entries@, q)
                        == entry_value(old(self).entries@, q) by {
                        if entry_value(old(self).entries@, q) is Some {
                            let j = choose|j: int| 0 <= j < old(self).entries@.len() && (#[trigger] old(self).entries@[j]).0@ == q;
                            lemma_entry_at(old(self).entries@, j);
                            lemma_entry_at(self.entries@, j);
                        }
                        if entry_value(self.entries@, q) is Some {
                            let j = choose|j: int| 0 <= j < self.entries@.len() && (#[trigger] self.entries@[j]).0@ == q;
                            assert(old(self).entries@[j] == self.entries@[j]);
                        }
                    }
                    lemma_view_insert(old(self).entries@, self.entries@, k, v);
                }
            },
            None => {
                self.entries.push((key, value));
                proof {
                    let n = old(self).entries@.len();
                    assert(self.entries@[n as int].0@ == k);
                    assert forall|a: int, b: int|
                        0 <= a < self.entries@.len() && 0 <= b < self.entries@.len() && a != b implies (#[trigger] self.entries@[a]).0@
                            != (#[trigger] self.entries@[b]).0@ by {
                        if a == n {
                            assert(old(self).entries@[b] == self.entries@[b]);
                            if self.entries@[b].0@ == k {
                                lemma_entry_at(old(self).entries@, b);
                            }
                        }
                        if b == n {
                            assert(old(self).entries@[a] == self.entries@[a]);
                            if self.entries@[a].0@ == k {
                                lemma_entry_at(old(self).entries@, a);
                            }
                        }
                    }
                    lemma_entry_at(self.entries@, n as int);
                    assert forall|q: Seq<char>| q != k implies #[trigger] entry_value(self.entries@, q)
                        == entry_value(old(self).entries@, q) by {
                        if entry_value(old(self).entries@, q) is Some {
                            let j = choose|j: int| 0 <= j < old(self).entries@.len() && (#[trigger] old(self).entries@[j]).0@ == q;
                            lemma_entry_at(old(self).entries@, j);
                            assert(old(self).entries@[j] == self.entries@[j]);
                            lemma_entry_at(self.entries@, j);
                        }
                        if entry_value(self.entries@, q) is Some {
                            let j = choose|j: int| 0 <= j < self.entries@.len() && (#[trigger] self.entries@[j]).0@ == q;
                            assert(old(self).entries@[j] == self.entries@[j]);
                        }
                    }
                    lemma_view_insert(old(self).entries@, self.entries@, k, v);
                }
            },
        }
    }

    /// Removes every entry.
    pub fn clear(&mut self)
        ensures
            final(self).wf(),
            final(self).view() == Map::<Seq<char>, Seq<char>>::empty(),
    {
        self.entries = Vec::new();
        assert(self.view() =~= Map::<Seq<char>, Seq<char>>::empty());
    }

    /// The number of entries.
    pub fn len(&self) -> (r: usize)
        ensures
            r == self.entries@.len(),
    {
        self.entries.len()
    }
}


proof fn lemma_prefix_step(e: Seq<(String, String)>, i: int)
    requires
        keys_distinct(e),
        0 <= i < e.len(),
    ensures
        entries_view(e.subrange(0, i + 1)) == entries_view(e.subrange(0, i)).insert(e[i].0@, e[i].1@),
{
    let a = e.subrange(0, i);
    let b = e.subrange(0, i + 1);
    assert(keys_distinct(a)) by {
        assert forall|x: int, y: int| 0 <= x < a.len() && 0 <= y < a.len() && x != y implies (#[trigger] a[x]).0@
            != (#[trigger] a[y]).0@ by {
            assert(a[x] == e[x] && a[y] == e[y]);
        }
    }
    assert(keys_distinct(b)) by {
        assert forall|x: int, y: int| 0 <= x < b.len() && 0 <= y < b.len() && x != y implies (#[trigger] b[x]).0@
            != (#[trigger] b[y]).0@ by {
            assert(b[x] == e[x] && b[y] == e[y]);
        }
    }
    assert(b[i] == e[i]);
    lemma_entry_at(b, i);
    let k = e[i].0@;
    assert forall|q: Seq<char>| q != k implies #[trigger] entry_value(b, q) == entry_value(a, q) by {
        if entry_value(a, q) is Some {
            let j = choose|j: int| 0 <= j < a.len() && (#[trigger] a[j]).0@ == q;
            assert(a[j] == b[j]);
            lemma_entry_at(a, j);
            lemma_entry_at(b, j);
        }
        if entry_value(b, q) is Some {
            let j = choose|j: int| 0 <= j < b.len() && (#[trigger] b[j]).0@ == q;
            assert(a[j] == b[j]);
        }
    }
    lemma_view_insert(a, b, k, e[i].1@);
}

/// The length in bytes of the value of entry `j`, as `str::len` gives it.
pub open spec fn value_len(e: Seq<(String, String)>, j: int) -> nat {
    (encode_utf8(e[j].1@).len() as usize) as nat
}

/// How many of the first `n` entries hold a value of `len` bytes.
pub open spec fn count_len(e: Seq<(String, String)>, n: int, len: nat) -> nat
    decreases n,
{
    if n <= 0 {
        0
    } else {
        count_len(e, n - 1, len) + if value_len(e, n - 1) == len { 1nat } else { 0nat }
    }
}

/// `d` lists, by increasing length, each value length among the first `n`
/// entries with the number of entries that have it.
pub open spec fn is_distribution(e: Seq<(String, String)>, n: int, d: Seq<(usize, usize)>) -> bool {
    &&& forall|a: int, b: int| 0 <= a < b < d.len() ==> (#[trigger] d[a]).0 < (#[trigger] d[b]).0
    &&& forall|k: int| 0 <= k < d.len() ==> (#[trigger] d[k]).1 == count_len(e, n, d[k].0 as nat) && d[k].1 > 0
    &&& forall|j: int| #![trigger value_len(e, j)] 0 <= j < n ==> exists|k: int| 0 <= k < d.len() && (#[trigger] d[k]).0 == value_len(e, j)
}

proof fn lemma_count_len_bounded(e: Seq<(String, String)>, n: int, len: nat)
    requires
        0 <= n,
    ensures
        count_len(e, n, len) <= n,
    decreases n,
{
    if n > 0 {
        lemma_count_len_bounded(e, n - 1, len);
    }
}

proof fn lemma_count_len_witness(e: Seq<(String, String)>, n: int, len: nat)
    requires
        count_len(e, n, len) > 0,
    ensures
        exists|j: int| 0 <= j < n && value_len(e, j) == len,
    decreases n,
{
    if n > 0 && value_len(e, n - 1) != len {
        lemma_count_len_witness(e, n - 1, len);
    }
}

fn distribution_of(entries: &Vec<(String, String)>) -> (r: Vec<(usize, usize)>)
    ensures
        is_distribution(entries@, entries@.len() as int, r@),
{
    let ghost e = entries@;
    let mut d: Vec<(usize, usize)> = Vec::new();
    let mut i: usize = 0;
    while i < entries.len()
        invariant
            e == entries@,
            i <= e.len(),
            is_distribution(e, i as int, d@),
        decreases e.len() - i,
    {
        let value: &str = entries[i].1.as_str();
        let len = value.len();
        assert(value@ == e[i as int].1@);
        assert(len == value.spec_bytes().len() as usize);
        assert(len == value_len(e, i as int));
        let mut p: usize = 0;
        while p < d.len() && d[p].0 < len
            invariant
                p <= d@.len(),
                forall|k: int| 0 <= k < p ==> (#[trigger] d@[k]).0 < len,
            decreases d@.len() - p,
        {
            p = p + 1;
        }
        let ghost before = d@;
        proof {
            assert forall|x: nat| #[trigger] count_len(e, i + 1, x) == count_len(e, i as int, x) + if x == len as nat { 1nat } else { 0nat } by {}
        }
        if p < d.len() && d[p].0 == len {
            proof {
                lemma_count_len_bounded(e, i as int, len as nat);
            }
            let c = d[p].1;
            d.set(p, (len, c + 1));
            proof {
                assert forall|k: int| 0 <= k < d@.len() implies (#[trigger] d@[k]).1 == count_len(e, i + 1, d@[k].0 as nat) && d@[k].1 > 0 by {
                    if k != p {
                        assert(before[k] == d@[k]);
                        if k < p {
                            assert(before[k].0 < before[p as int].0);
                        } else {
                            assert(before[p as int].0 < before[k].0);
                        }
                    }
                }
                assert forall|a: int, b: int| 0 <= a < b < d@.len() implies (#[trigger] d@[a]).0 < (#[trigger] d@[b]).0 by {
                    assert(before[a].0 < before[b].0);
                }
                assert forall|j: int| #![trigger value_len(e, j)] 0 <= j < i + 1 implies exists|k: int| 0 <= k < d@.len() && (#[trigger] d@[k]).0 == value_len(e, j) by {
                    if j < i {
                        let k = choose|k: int| 0 <= k < before.len() && (#[trigger] before[k]).0 == value_len(e, j);
                        assert(d@[k].0 == before[k].0);
                    } else {
                        assert(d@[p as int].0 == value_len(e, j));
                    }
                }
            }
        } else {
            proof {
                if count_len(e, i as int, len as nat) > 0 {
                    lemma_count_len_witness(e, i as int, len as nat);
                    let j = choose|j: int| 0 <= j < i && value_len(e, j) == len as nat;
                    let k = choose|k: int| 0 <= k < before.len() && (#[trigger] before[k]).0 == value_len(e, j);
                    if k < p {
                    } else {
                        assert(before[p as int].0 <= before[k].0) by {
                            if k > p {
                                assert(before[p as int].0 < before[k].0);
                            }
                        }
                    }
                }
            }
            d.insert(p, (len, 1));
            proof {
                assert forall|a: int, b: int| 0 <= a < b < d@.len() implies (#[trigger] d@[a]).0 < (#[trigger] d@[b]).0 by {
                    if a < p && b == p {
                    } else if a < p && b > p {
                        assert(d@[b] == before[b - 1]);
                        if b - 1 > a {
                            assert(before[a].0 < before[b - 1].0);
                        }
                    } else if a == p {
                        assert(d@[b] == before[b - 1]);
                        if b - 1 > p {
                            assert(before[p as int].0 < before[b - 1].0);
                        }
                    } else if a > p {
                        assert(d@[a] == before[a - 1] && d@[b] == before[b - 1]);
                        assert(before[a - 1].0 < before[b - 1].0);
                    } else {
                        assert(before[a].0 < before[b].0);
                    }
                }
                assert forall|k: int| 0 <= k < d@.len() implies (#[trigger] d@[k]).1 == count_len(e, i + 1, d@[k].0 as nat) && d@[k].1 > 0 by {
                    if k < p {
                        assert(d@[k] == before[k]);
                    } else if k > p {
                        assert(d@[k] == before[k - 1]);
                        if k - 1 > p {
                            assert(before[p as int].0 < before[k - 1].0);
                        }
                    }
                }
                assert forall|j: int| #![trigger value_len(e, j)] 0 <= j < i + 1 implies exists|k: int| 0 <= k < d@.len() && (#[trigger] d@[k]).0 == value_len(e, j) by {
                    if j < i {
                        let k = choose|k: int| 0 <= k < before.len() && (#[trigger] before[k]).0 == value_len(e, j);
                        if k < p {
                            assert(d@[k] == before[k]);
                        } else {
                            assert(d@[k + 1] == before[k]);
                        }
                    } else {
                        assert(d@[p as int].0 == value_len(e, j));
                    }
                }
            }
        }
        i = i + 1;
    }
    d
}

/// `x` plus one, held at the largest value.
pub open spec fn bump(x: u64) -> u64 {
    if x < u64::MAX { (x + 1) as u64 } else { x }
}

fn bumped(x: u64) -> (r: u64)
    ensures
        r == bump(x),
{
    if x < u64::MAX { x + 1 } else { x }
}

/// How often the store was used since the counters were last cleared.
#[derive(Clone, Copy, Debug, PartialEq, Eq, Structural)]
pub struct CacheStats {
    pub calls_to_cache_set: u64,
    pub calls_to_cache_get: u64,
    pub calls_to_db_get: u64,
}

/// A store whose writes go through the cache to the backing table, and whose
/// reads are served from the cache, falling back to the backing table and
/// caching what it finds there.
#[derive(Debug)]
pub struct InMemoryDbWithCache {
    pub db: Table,
    pub cache: Table,
    pub stats: CacheStats,
}

impl InMemoryDbWithCache {
    pub open spec fn wf(&self) -> bool {
        self.db.wf() && self.cache.wf()
    }

    /// What a read sees: cached values over the backing table.
    pub open spec fn contents(&self) -> Map<Seq<char>, Seq<char>> {
        self.db.view().union_prefer_right(self.cache.view())
    }

    /// An empty store with its counters at zero.
    pub fn new() -> (r: InMemoryDbWithCache)
        ensures
            r.wf(),
            r.db.view() == Map::<Seq<char>, Seq<char>>::empty(),
            r.cache.view() == Map::<Seq<char>, Seq<char>>::empty(),
            r.stats == (CacheStats { calls_to_cache_set: 0, calls_to_cache_get: 0, calls_to_db_get: 0 }),
    {
        InMemoryDbWithCache {
            db: Table::new(),
            cache: Table::new(),
            stats: CacheStats { calls_to_cache_set: 0, calls_to_cache_get: 0, calls_to_db_get: 0 },
        }
    }

    /// Flushes the cache into the backing table, empties the cache and sets
    /// the counters to zero. What a read sees is unchanged.
    pub fn clear_stats(&mut self)
        requires
            old(self).wf(),
        ensures
            final(self).wf(),
            final(self).db.view() == old(self).db.view().union_prefer_right(old(self).cache.view()),
            final(self).cache.view() == Map::<Seq<char>, Seq<char>>::empty(),
            final(self).contents() == old(self).contents(),
            final(self).stats == (CacheStats { calls_to_cache_set: 0, calls_to_cache_get: 0, calls_to_db_get: 0 }),
    {
        let ghost e = self.cache.entries@;
        let mut i: usize = 0;
        proof {
            assert(e.subrange(0, 0) =~= Seq::<(String, String)>::empty());
            assert(entries_view(e.subrange(0, 0)) =~= Map::<Seq<char>, Seq<char>>::empty());
            assert(self.db.view().union_prefer_right(Map::<Seq<char>, Seq<char>>::empty()) =~= self.db.view());
        }
        while i < self.cache.entries.len()
            invariant
                self.db.wf(),
                self.cache.wf(),
                self.cache.entries@ == e,
                i <= e.len(),
                self.db.view() == old(self).db.view().union_prefer_right(entries_view(e.subrange(0, i as int))),
            decreases e.len() - i,
        {
            let key = self.cache.entries[i].0.clone();
            let value = self.cache.entries[i].1.clone();
            let ghost before = self.db.view();
            self.db.insert(key, value);
            proof {
                lemma_prefix_step(e, i as int);
                assert(self.db.view() =~= old(self).db.view().union_prefer_right(entries_view(e.subrange(0, i + 1))));
            }
            i = i + 1;
        }
        proof {
            assert(e.subrange(0, e.len() as int) =~= e);
        }
        self.cache.clear();
        self.stats = CacheStats { calls_to_cache_set: 0, calls_to_cache_get: 0, calls_to_db_get: 0 };
        assert(self.contents() =~= old(self).contents());
    }

    /// Writes `value` under `pos` into the cache and the backing table.
    pub fn set(&mut self, pos: String, value: String) -> (r: Result<(), StorageError>)
        requires
            old(self).wf(),
        ensures
            final(self).wf(),
            r is Ok,
            final(self).cache.view() == old(self).cache.view().insert(pos@, value@),
            final(self).db.view() == old(self).db.view().insert(pos@, value@),
            final(self).contents() == old(self).contents().insert(pos@, value@),
            final(self).stats == (CacheStats { calls_to_cache_set: bump(old(self).stats.calls_to_cache_set), ..old(self).stats }),
    {
        self.stats.calls_to_cache_set = bumped(self.stats.calls_to_cache_set);
        let ghost k = pos@;
        let ghost v = value@;
        self.db.insert(pos.clone(), value.clone());
        self.cache.insert(pos, value);
        assert(self.contents() =~= old(self).contents().insert(k, v));
        Ok(())
    }

    /// Reads the value under `pos`: from the cache if it holds one, else from
    /// the backing table, caching the value found there.
    pub fn get(&mut self, pos: String) -> (r: Result<String, StorageError>)
        requires
            old(self).wf(),
        ensures
            final(self).wf(),
            r is Ok <==> old(self).contents().contains_key(pos@),
            r is Ok ==> r.unwrap()@ == old(self).contents()[pos@],
            r is Err ==> r == Err::<String, StorageError>(StorageError::GetError),
            final(self).db.view() == old(self).db.view(),
            old(self).cache.view().contains_key(pos@) ==> final(self).cache.view() == old(self).cache.view(),
            !old(self).cache.view().contains_key(pos@) && r is Ok ==> final(self).cache.view()
                == old(self).cache.view().insert(pos@, r.unwrap()@),
            r is Err ==> final(self).cache.view() == old(self).cache.view(),
            final(self).contents() == old(self).contents(),
            final(self).stats.calls_to_cache_set == old(self).stats.calls_to_cache_set,
            final(self).stats.calls_to_cache_get == bump(old(self).stats.calls_to_cache_get),
            final(self).stats.calls_to_db_get == if old(self).cache.view().contains_key(pos@) {
                old(self).stats.calls_to_db_get
            } else {
                bump(old(self).stats.calls_to_db_get)
            },
    {
        self.stats.calls_to_cache_get = bumped(self.stats.calls_to_cache_get);
        match self.cache.get(&pos) {
            Some(value) => Ok(value),
            None => {
                self.stats.calls_to_db_get = bumped(self.stats.calls_to_db_get);
                match self.db.get(&pos) {
                    Some(value) => {
                        let ghost k = pos@;
                        let ghost v = value@;
                        let out = value.clone();
                        self.cache.insert(pos, value);
                        assert(self.contents() =~= old(self).contents());
                        Ok(out)
                    },
                    None => Err(StorageError::GetError),
                }
            },
        }
    }

    /// How many cached values there are of each length in bytes, by
    /// increasing length.
    pub fn length_distribution(&self) -> (r: Vec<(usize, usize)>)
        ensures
            is_distribution(self.cache.entries@, self.cache.entries@.len() as int, r@),
    {
        distribution_of(&self.cache.entries)
    }

    /// The counters.
    pub fn stats(&self) -> (r: CacheStats)
        ensures
            r == self.stats,
    {
        self.stats
    }
}

} // verus!
