//! Per-round accumulators: the replies a leader has collected from a fixed
//! membership snapshot, the shares it has delivered during a resharing, and
//! the rule that decides when a round is over.
use vstd::prelude::*;
use crate::messages::NodeId;

verus! {

/// No identity occurs twice in `s`.
pub open spec fn distinct(s: Seq<NodeId>) -> bool {
    forall|i: int, j: int| 0 <= i < s.len() && 0 <= j < s.len() && i != j ==> s[i] != s[j]
}

/// How many entries of `s` equal `v`.
pub open spec fn count_of(s: Seq<Option<bool>>, v: Option<bool>) -> nat
    decreases s.len(),
{
    if s.len() == 0 {
        0
    } else {
        count_of(s.drop_last(), v) + if s.last() == v { 1nat } else { 0nat }
    }
}

/// The replies after `from` answered `v`: its slot is overwritten, every
/// other slot is kept, and a sender outside the snapshot changes nothing.
pub open spec fn recorded(
    members: Seq<NodeId>,
    votes: Seq<Option<bool>>,
    from: NodeId,
    v: bool,
) -> Seq<Option<bool>> {
    Seq::new(votes.len(), |i: int| if members[i] == from { Some(v) } else { votes[i] })
}

/// How a round stands.
#[derive(Clone, Copy, Debug, PartialEq, Eq, Structural)]
pub enum RoundOutcome {
    /// Neither reached nor lost yet.
    Pending,
    /// The threshold of affirmative replies was reached.
    Reached,
    /// The deadline passed, or too few replies are outstanding to reach the threshold.
    NotReached,
}

/// Time since `start`; a clock reading before the start counts as no time.
pub open spec fn elapsed(start: u64, now: u64) -> nat {
    if now >= start { (now - start) as nat } else { 0 }
}

/// The outcome of a round with `yes` affirmative and `open` outstanding
/// replies, `waited` time units after it began.
pub open spec fn outcome_of(yes: nat, open: nat, threshold: nat, waited: nat, timeout: nat) -> RoundOutcome {
    if yes >= threshold {
        RoundOutcome::Reached
    } else if yes + open < threshold || waited > timeout {
        RoundOutcome::NotReached
    } else {
        RoundOutcome::Pending
    }
}

/// The replies of one round, one slot per member of the snapshot taken when
/// the round began: `None` while outstanding, `Some(verdict)` once received.
#[derive(Clone, Debug)]
pub struct Tally {
    pub members: Vec<NodeId>,
    pub votes: Vec<Option<bool>>,
}

impl Tally {
    pub open spec fn wf(&self) -> bool {
        &&& self.members@.len() == self.votes@.len()
        &&& distinct(self.members@)
    }

    pub open spec fn yes(&self) -> nat {
        count_of(self.votes@, Some(true))
    }

    pub open spec fn open(&self) -> nat {
        count_of(self.votes@, None)
    }

    /// A tally with every member of `members` outstanding.
    pub fn new(members: &Vec<NodeId>) -> (r: Tally)
        requires
            distinct(members@),
        ensures
            r.wf(),
            r.members@ == members@,
            r.votes@ == Seq::new(members@.len(), |i: int| None::<bool>),
    {
        let mut votes: Vec<Option<bool>> = Vec::new();
        let mut i: usize = 0;
        while i < members.len()
            invariant
                i <= members@.len(),
                votes@ == Seq::new(i as nat, |k: int| None::<bool>),
            decreases members@.len() - i,
        {
            votes.push(None);
            i = i + 1;
            assert(votes@ =~= Seq::new(i as nat, |k: int| None::<bool>));
        }
        let m = members.clone();
        assert(m@ =~= members@);
        Tally { members: m, votes }
    }

    /// Records the verdict `v` of `from`, replacing any earlier one. Returns
    /// whether `from` belongs to the snapshot.
    pub fn record(&mut self, from: NodeId, v: bool) -> (r: bool)
        requires
            old(self).wf(),
        ensures
            final(self).wf(),
            final(self).members@ == old(self).members@,
            final(self).votes@ == recorded(old(self).members@, old(self).votes@, from, v),
            r == old(self).members@.contains(from),
    {
        let mut i: usize = 0;
        while i < self.members.len()
            invariant
                self.wf(),
                i <= self.members@.len(),
                self.members@ == old(self).members@,
                forall|k: int| 0 <= k < i ==> self.members@[k] != from,
                self.votes@ == old(self).votes@,
            decreases self.members@.len() - i,
        {
            if self.members[i] == from {
                self.votes.set(i, Some(v));
                proof {
                    assert(self.votes@ =~= recorded(old(self).members@, old(self).votes@, from, v));
                }
                return true;
            }
            i = i + 1;
        }
        assert(self.votes@ =~= recorded(old(self).members@, old(self).votes@, from, v));
        assert(!self.members@.contains(from));
        false
    }

    /// The number of affirmative replies.
    pub fn yes_count(&self) -> (r: usize)
        ensures
            r == self.yes(),
    {
        count_exec(&self.votes, Some(true))
    }

    /// The number of outstanding replies.
    pub fn open_count(&self) -> (r: usize)
        ensures
            r == self.open(),
    {
        count_exec(&self.votes, None)
    }

    /// How the round stands under `threshold` and `timeout`, at time `now`
    /// for a round that began at `start`.
    pub fn outcome(&self, threshold: usize, start: u64, now: u64, timeout: u64) -> (r: RoundOutcome)
        ensures
            r == outcome_of(self.yes(), self.open(), threshold as nat, elapsed(start, now), timeout as nat),
    {
        let yes = self.yes_count();
        let open = self.open_count();
        let waited: u64 = if now >= start { now - start } else { 0 };
        if yes >= threshold {
            RoundOutcome::Reached
        } else if open < threshold - yes || waited > timeout {
            RoundOutcome::NotReached
        } else {
            RoundOutcome::Pending
        }
    }
}

proof fn lemma_count_bounded(s: Seq<Option<bool>>, v: Option<bool>)
    ensures
        count_of(s, v) <= s.len(),
    decreases s.len(),
{
    if s.len() > 0 {
        lemma_count_bounded(s.drop_last(), v);
    }
}

fn count_exec(votes: &Vec<Option<bool>>, v: Option<bool>) -> (r: usize)
    ensures
        r == count_of(votes@, v),
{
    let mut n: usize = 0;
    let mut i: usize = 0;
    while i < votes.len()
        invariant
            i <= votes@.len(),
            n == count_of(votes@.subrange(0, i as int), v),
        decreases votes@.len() - i,
    {
        proof {
            assert(votes@.subrange(0, i + 1).drop_last() =~= votes@.subrange(0, i as int));
            lemma_count_bounded(votes@.subrange(0, i as int), v);
        }
        if votes[i] == v {
            n = n + 1;
        }
        i = i + 1;
    }
    assert(votes@.subrange(0, votes@.len() as int) =~= votes@);
    n
}

/// Every slot of `s` holds a share.
pub open spec fn all_delivered(s: Seq<Option<Vec<u8>>>) -> bool {
    forall|i: int| 0 <= i < s.len() ==> (#[trigger] s[i]).is_some()
}

/// The slots of `book` once `share` went to `to`: its slot is overwritten and
/// every other slot is kept.
pub open spec fn delivered(book: ShareBook, to: NodeId, share: Vec<u8>) -> Seq<Option<Vec<u8>>> {
    Seq::new(book.shares@.len(), |i: int| if book.recipients@[i] == to { Some(share) } else { book.shares@[i] })
}

/// The shares delivered so far in a resharing, one slot per intended recipient.
#[derive(Clone, Debug)]
pub struct ShareBook {
    pub recipients: Vec<NodeId>,
    pub shares: Vec<Option<Vec<u8>>>,
}

impl ShareBook {
    pub open spec fn wf(&self) -> bool {
        &&& self.recipients@.len() == self.shares@.len()
        &&& distinct(self.recipients@)
    }

    /// Every intended recipient has been served.
    pub open spec fn complete(&self) -> bool {
        all_delivered(self.shares@)
    }

    /// A book for `recipients` with nothing delivered.
    pub fn new(recipients: Vec<NodeId>) -> (r: ShareBook)
        requires
            distinct(recipients@),
        ensures
            r.wf(),
            r.recipients@ == recipients@,
            forall|i: int| 0 <= i < r.shares@.len() ==> (#[trigger] r.shares@[i]).is_none(),
    {
        let mut shares: Vec<Option<Vec<u8>>> = Vec::new();
        let mut i: usize = 0;
        while i < recipients.len()
            invariant
                i <= recipients@.len(),
                shares@.len() == i,
                forall|k: int| 0 <= k < i ==> (#[trigger] shares@[k]).is_none(),
            decreases recipients@.len() - i,
        {
            shares.push(None);
            i = i + 1;
        }
        ShareBook { recipients, shares }
    }

    /// Records the share delivered to `to`, replacing an earlier one. Returns
    /// whether `to` is an intended recipient.
    pub fn deliver(&mut self, to: NodeId, share: Vec<u8>) -> (r: bool)
        requires
            old(self).wf(),
        ensures
            final(self).wf(),
            final(self).recipients@ == old(self).recipients@,
            r == old(self).recipients@.contains(to),
            final(self).shares@ == delivered(*old(self), to, share),
    {
        let mut i: usize = 0;
        while i < self.recipients.len()
            invariant
                self.wf(),
                i <= self.recipients@.len(),
                self.recipients@ == old(self).recipients@,
                self.shares@ == old(self).shares@,
                forall|k: int| 0 <= k < i ==> self.recipients@[k] != to,
            decreases self.recipients@.len() - i,
        {
            if self.recipients[i] == to {
                self.shares.set(i, Some(share));
                proof {
                    assert(self.shares@ =~= delivered(*old(self), to, share));
                }
                return true;
            }
            i = i + 1;
        }
        assert(self.shares@ =~= delivered(*old(self), to, share));
        false
    }

    /// Whether `to` is an intended recipient.
    pub fn has_recipient(&self, to: NodeId) -> (r: bool)
        ensures
            r == self.recipients@.contains(to),
    {
        let mut i: usize = 0;
        while i < self.recipients.len()
            invariant
                i <= self.recipients@.len(),
                forall|k: int| 0 <= k < i ==> self.recipients@[k] != to,
            decreases self.recipients@.len() - i,
        {
            if self.recipients[i] == to {
                return true;
            }
            i = i + 1;
        }
        false
    }

    /// The share delivered to `to`, if any.
    pub fn share_of(&self, to: NodeId) -> (r: Option<Vec<u8>>)
        requires
            self.wf(),
        ensures
            r is None <==> (forall|i: int| 0 <= i < self.shares@.len() && self.recipients@[i] == to
                ==> (#[trigger] self.shares@[i]) is None),
            forall|i: int| 0 <= i < self.shares@.len() && self.recipients@[i] == to && r is Some
                ==> (#[trigger] self.shares@[i]) is Some && self.shares@[i].unwrap()@ == r.unwrap()@,
    {
        let mut i: usize = 0;
        while i < self.recipients.len()
            invariant
                self.wf(),
                i <= self.recipients@.len(),
                forall|k: int| 0 <= k < i ==> self.recipients@[k] != to,
            decreases self.recipients@.len() - i,
        {
            if self.recipients[i] == to {
                match &self.shares[i] {
                    Some(s) => {
                        let c = s.clone();
                        assert(c@ =~= s@);
                        return Some(c);
                    },
                    None => {
                        return None;
                    },
                }
            }
            i = i + 1;
        }
        None
    }

    /// Whether every intended recipient has been served.
    pub fn is_complete(&self) -> (r: bool)
        ensures
            r == self.complete(),
    {
        let mut i: usize = 0;
        while i < self.shares.len()
            invariant
                i <= self.shares@.len(),
                forall|k: int| 0 <= k < i ==> (#[trigger] self.shares@[k]).is_some(),
            decreases self.shares@.len() - i,
        {
            if self.shares[i].is_none() {
                return false;
            }
            i = i + 1;
        }
        true
    }
}


/// Recording a reply never grows the accumulator past the snapshot taken at
/// the start of the round: a sender's reply fills its own slot, replacing an
/// earlier one, so neither the slots nor the affirmative replies outnumber
/// the members.
pub proof fn lemma_record_within_snapshot(members: Seq<NodeId>, votes: Seq<Option<bool>>, from: NodeId, v: bool)
    requires
        votes.len() == members.len(),
    ensures
        recorded(members, votes, from, v).len() == members.len(),
        count_of(recorded(members, votes, from, v), Some(true)) <= members.len(),
        count_of(recorded(members, votes, from, v), None) <= members.len(),
        forall|i: int| 0 <= i < members.len() && members[i] == from ==> #[trigger] recorded(members, votes, from, v)[i] == Some(v),
{
    lemma_count_bounded(recorded(members, votes, from, v), Some(true));
    lemma_count_bounded(recorded(members, votes, from, v), None);
}

/// Recording the same reply a second time changes nothing, so the round's
/// outcome is the same as after recording it once.
pub proof fn lemma_record_idempotent(
    members: Seq<NodeId>,
    votes: Seq<Option<bool>>,
    from: NodeId,
    v: bool,
    threshold: nat,
    waited: nat,
    timeout: nat,
)
    requires
        votes.len() == members.len(),
    ensures
        recorded(members, recorded(members, votes, from, v), from, v) == recorded(members, votes, from, v),
        ({
            let once = recorded(members, votes, from, v);
            let twice = recorded(members, once, from, v);
            outcome_of(count_of(twice, Some(true)), count_of(twice, None), threshold, waited, timeout)
                == outcome_of(count_of(once, Some(true)), count_of(once, None), threshold, waited, timeout)
        }),
{
    assert(recorded(members, recorded(members, votes, from, v), from, v) =~= recorded(members, votes, from, v));
}

/// A round concludes as soon as it can: it succeeds once the affirmative
/// replies reach the threshold, and otherwise fails once its deadline has
/// passed or the outstanding replies can no longer make up the difference,
/// whether or not the deadline has passed.
pub proof fn lemma_round_conclusion(yes: nat, open: nat, threshold: nat, waited: nat, timeout: nat)
    ensures
        yes >= threshold ==> outcome_of(yes, open, threshold, waited, timeout) == RoundOutcome::Reached,
        yes < threshold && waited > timeout ==> outcome_of(yes, open, threshold, waited, timeout)
            == RoundOutcome::NotReached,
        yes + open < threshold ==> outcome_of(yes, open, threshold, waited, timeout) == RoundOutcome::NotReached,
        yes < threshold && yes + open >= threshold && waited <= timeout ==> outcome_of(
            yes,
            open,
            threshold,
            waited,
            timeout,
        ) == RoundOutcome::Pending,
{
}

/// The slots of `s` that hold `v`.
pub open spec fn slots_with(s: Seq<Option<bool>>, v: Option<bool>) -> Set<int> {
    Set::new(|i: int| 0 <= i < s.len() && s[i] == v)
}

proof fn lemma_count_is_slots(s: Seq<Option<bool>>, v: Option<bool>)
    ensures
        slots_with(s, v).finite(),
        count_of(s, v) == slots_with(s, v).len(),
    decreases s.len(),
{
    if s.len() == 0 {
        assert(slots_with(s, v) =~= Set::<int>::empty());
    } else {
        let t = s.drop_last();
        let n = s.len() - 1;
        lemma_count_is_slots(t, v);
        if s.last() == v {
            assert(slots_with(s, v) =~= slots_with(t, v).insert(n));
            assert(!slots_with(t, v).contains(n));
        } else {
            assert(slots_with(s, v) =~= slots_with(t, v));
        }
    }
}

/// A round in which some `threshold` members each have an affirmative reply
/// on record has succeeded, whenever it is evaluated. A round whose
/// affirmative replies on record are fewer than `threshold` has failed once
/// its deadline has passed.
pub proof fn lemma_quorum_by_replies(
    votes: Seq<Option<bool>>,
    affirming: Set<int>,
    threshold: nat,
    waited: nat,
    timeout: nat,
)
    requires
        affirming.finite(),
        forall|i: int| #[trigger] affirming.contains(i) ==> 0 <= i < votes.len() && votes[i] == Some(true),
    ensures
        affirming.len() >= threshold ==> outcome_of(count_of(votes, Some(true)), count_of(votes, None), threshold, waited, timeout)
            == RoundOutcome::Reached,
        affirming == slots_with(votes, Some(true)) && affirming.len() < threshold && waited > timeout ==> outcome_of(
            count_of(votes, Some(true)),
            count_of(votes, None),
            threshold,
            waited,
            timeout,
        ) == RoundOutcome::NotReached,
{
    lemma_count_is_slots(votes, Some(true));
    assert(affirming.subset_of(slots_with(votes, Some(true))));
    vstd::set_lib::lemma_len_subset(affirming, slots_with(votes, Some(true)));
}

} // verus!
