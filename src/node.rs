//! The protocol posture of one quorum member and its transitions. Every
//! operation starts from `Ready` and returns to it when the round concludes.
//! The host feeds in messages and clock readings and carries out the actions
//! that the returned events call for.
use vstd::prelude::*;
use crate::messages::{AddNodeInit, NodeId, QuorumError, RemoveNodeInit, VerifyRequest};
use crate::round::{count_of, distinct, elapsed, outcome_of, recorded, RoundOutcome, ShareBook, Tally};

verus! {

/// A leader's verification round.
#[derive(Clone, Debug)]
pub struct VerificationRound {
    pub start: u64,
    pub request: VerifyRequest,
    pub tally: Tally,
}

/// A leader collecting votes on an admission.
#[derive(Clone, Debug)]
pub struct AdditionVote {
    pub start: u64,
    pub request: AddNodeInit,
    pub tally: Tally,
}

/// A leader collecting votes on an eviction.
#[derive(Clone, Debug)]
pub struct RemovalVote {
    pub start: u64,
    pub request: RemoveNodeInit,
    pub tally: Tally,
}

/// A leader distributing new shares after a membership change was approved;
/// `subject` is the member being admitted or evicted.
#[derive(Clone, Debug)]
pub struct Resharing {
    pub start: u64,
    pub subject: NodeId,
    pub book: ShareBook,
}

/// The rounds a leader goes through.
#[derive(Clone, Debug)]
pub enum LeaderState {
    ProcessingVerification(VerificationRound),
    ProcessingAddition(AdditionVote),
    AddingMember(Resharing),
    ProcessingRemoval(RemovalVote),
    RemovingMember(Resharing),
}

/// The steps a worker goes through.
#[derive(Clone, Debug)]
pub enum WorkerState {
    /// Checking a proof for `leader`.
    Verifying(NodeId, VerifyRequest),
    /// The local admission test gave its verdict; the vote is not yet sent.
    TestingAddMember(NodeId, AddNodeInit, bool),
    /// Voted on an admission at the given time; holds the new share once it
    /// arrives, until the leader commits the change.
    WaitingOnMemberAddResult(AddNodeInit, u64, Option<Vec<u8>>),
    /// The local eviction test gave its verdict; the vote is not yet sent.
    TestingRemoveMember(NodeId, RemoveNodeInit, bool),
    /// Voted on an eviction at the given time; holds the new share once it
    /// arrives, until the leader commits the change.
    WaitingOnMemberRemoveResult(RemoveNodeInit, u64, Option<Vec<u8>>),
}

/// The whole protocol posture of a member: idle, leading one round, or
/// following one.
#[derive(Clone, Debug)]
pub enum NodeStatus {
    Ready,
    Leading(LeaderState),
    Following(WorkerState),
}

/// What the host is to do after a transition.
#[derive(Clone, Copy, Debug, PartialEq, Eq, Structural)]
pub enum RoundEvent {
    /// The input does not belong to the current round; nothing changed.
    Ignored,
    /// The round goes on.
    Pending,
    /// The membership change was approved: compute and send new shares to
    /// the recipients of the leader's share book, and report each
    /// acknowledgment; once the resharing succeeds, tell the recipients to
    /// commit.
    Reshare,
    /// The round concluded successfully; the node is ready again.
    Succeeded,
    /// The round concluded without success; the node is ready again.
    Failed(QuorumError),
}

/// The event that concludes, or continues, a round with outcome `o`.
pub open spec fn event_of(o: RoundOutcome) -> RoundEvent {
    match o {
        RoundOutcome::Reached => RoundEvent::Succeeded,
        RoundOutcome::NotReached => RoundEvent::Failed(QuorumError::QuorumNotReached),
        RoundOutcome::Pending => RoundEvent::Pending,
    }
}

/// The round's outcome once `from` has answered `v`.
pub open spec fn outcome_after(t: Tally, from: NodeId, v: bool, threshold: usize, start: u64, now: u64, timeout: u64) -> RoundOutcome {
    let votes = recorded(t.members@, t.votes@, from, v);
    outcome_of(count_of(votes, Some(true)), count_of(votes, None), threshold as nat, elapsed(start, now), timeout as nat)
}

/// `t` has every member of `members` outstanding.
pub open spec fn fresh_tally(t: Tally, members: Seq<NodeId>) -> bool {
    &&& t.wf()
    &&& t.members@ == members
    &&& t.votes@ == Seq::new(members.len(), |i: int| None::<bool>)
}

/// The membership once `x` is admitted.
pub open spec fn admitted(members: Seq<NodeId>, x: NodeId) -> Seq<NodeId> {
    if members.contains(x) { members } else { members.push(x) }
}

/// `r` is the membership once `x` is evicted from `members`.
pub open spec fn evicted(members: Seq<NodeId>, x: NodeId, r: Seq<NodeId>) -> bool {
    &&& distinct(r)
    &&& forall|m: NodeId| r.contains(m) <==> (members.contains(m) && m != x)
}

/// The verification round the node leads, if any.
pub open spec fn verification_of(s: NodeStatus) -> Option<VerificationRound> {
    match s {
        NodeStatus::Leading(LeaderState::ProcessingVerification(r)) => Some(r),
        _ => None,
    }
}

/// The admission vote the node leads, if any.
pub open spec fn addition_of(s: NodeStatus) -> Option<AdditionVote> {
    match s {
        NodeStatus::Leading(LeaderState::ProcessingAddition(r)) => Some(r),
        _ => None,
    }
}

/// The eviction vote the node leads, if any.
pub open spec fn removal_of(s: NodeStatus) -> Option<RemovalVote> {
    match s {
        NodeStatus::Leading(LeaderState::ProcessingRemoval(r)) => Some(r),
        _ => None,
    }
}

/// The resharing under way, after an admission or an eviction.
pub open spec fn resharing_of(s: NodeStatus) -> Option<Resharing> {
    match s {
        NodeStatus::Leading(LeaderState::AddingMember(r)) => Some(r),
        NodeStatus::Leading(LeaderState::RemovingMember(r)) => Some(r),
        _ => None,
    }
}

/// Every accumulator the status holds is well formed.
pub open spec fn status_wf(s: NodeStatus) -> bool {
    &&& verification_of(s) is Some ==> verification_of(s).unwrap().tally.wf()
    &&& addition_of(s) is Some ==> addition_of(s).unwrap().tally.wf()
    &&& removal_of(s) is Some ==> removal_of(s).unwrap().tally.wf()
    &&& resharing_of(s) is Some ==> resharing_of(s).unwrap().book.wf()
}

/// One member of the quorum: its identity, the current membership, the
/// round parameters, its key share and its status.
#[derive(Clone, Debug)]
pub struct QuorumNode {
    pub id: NodeId,
    pub members: Vec<NodeId>,
    pub threshold: usize,
    pub timeout: u64,
    pub share: Vec<u8>,
    pub status: NodeStatus,
}

/// `a` and `b` differ in their status at most.
pub open spec fn same_setting(a: QuorumNode, b: QuorumNode) -> bool {
    &&& a.id == b.id
    &&& a.members == b.members
    &&& a.threshold == b.threshold
    &&& a.timeout == b.timeout
    &&& a.share == b.share
}

fn copy_ids(b: &Vec<NodeId>) -> (r: Vec<NodeId>)
    ensures
        r@ == b@,
{
    let r = b.clone();
    assert(r@ =~= b@);
    r
}

/// The membership `members` with `x` admitted.
pub fn with_member(members: &Vec<NodeId>, x: NodeId) -> (r: Vec<NodeId>)
    requires
        distinct(members@),
    ensures
        r@ == admitted(members@, x),
        distinct(r@),
{
    let mut r = copy_ids(members);
    let mut i: usize = 0;
    while i < members.len()
        invariant
            i <= members@.len(),
            r@ == members@,
            distinct(members@),
            forall|k: int| 0 <= k < i ==> members@[k] != x,
        decreases members@.len() - i,
    {
        if members[i] == x {
            return r;
        }
        i = i + 1;
    }
    assert(!members@.contains(x));
    r.push(x);
    r
}

/// The membership `members` with `x` evicted.
pub fn without_member(members: &Vec<NodeId>, x: NodeId) -> (r: Vec<NodeId>)
    requires
        distinct(members@),
    ensures
        evicted(members@, x, r@),
{
    let mut r: Vec<NodeId> = Vec::new();
    let mut i: usize = 0;
    while i < members.len()
        invariant
            i <= members@.len(),
            distinct(members@),
            distinct(r@),
            forall|m: NodeId| #![trigger r@.contains(m)]
                r@.contains(m) <==> (m != x && exists|k: int| 0 <= k < i && members@[k] == m),
        decreases members@.len() - i,
    {
        let m = members[i];
        let ghost old_r = r@;
        if m != x {
            r.push(m);
            proof {
                assert(r@.last() == m);
                assert forall|n: NodeId| r@.contains(n) <==> (old_r.contains(n) || n == m) by {
                    if r@.contains(n) {
                        let k = choose|k: int| 0 <= k < r@.len() && r@[k] == n;
                        if k < old_r.len() {
                            assert(old_r[k] == n);
                        }
                    }
                    if old_r.contains(n) {
                        let k = choose|k: int| 0 <= k < old_r.len() && old_r[k] == n;
                        assert(r@[k] == n);
                    }
                    if n == m {
                        assert(r@[old_r.len() as int] == n);
                    }
                }
                assert forall|a: int, b: int| 0 <= a < r@.len() && 0 <= b < r@.len() && a != b implies r@[a] != r@[b] by {
                    if a == old_r.len() && b < old_r.len() {
                        assert(old_r.contains(r@[b]));
                    }
                    if b == old_r.len() && a < old_r.len() {
                        assert(old_r.contains(r@[a]));
                    }
                }
            }
        }
        proof {
            assert forall|n: NodeId| #![trigger r@.contains(n)]
                r@.contains(n) <==> (n != x && exists|k: int| 0 <= k < i + 1 && members@[k] == n) by {
                if n != x && exists|k: int| 0 <= k < i + 1 && members@[k] == n {
                    let k = choose|k: int| 0 <= k < i + 1 && members@[k] == n;
                    if k < i {
                        assert(old_r.contains(n));
                    } else {
                        assert(n == m);
                    }
                }
                if r@.contains(n) {
                    if old_r.contains(n) {
                        let k = choose|k: int| 0 <= k < i && members@[k] == n;
                        assert(0 <= k < i + 1 && members@[k] == n);
                    } else {
                        assert(n == m);
                        assert(members@[i as int] == n);
                    }
                }
            }
        }
        i = i + 1;
    }
    proof {
        assert forall|n: NodeId| #![trigger r@.contains(n)]
            r@.contains(n) <==> (members@.contains(n) && n != x) by {
            if members@.contains(n) {
                let k = choose|k: int| 0 <= k < members@.len() && members@[k] == n;
            }
        }
    }
    r
}

} // verus!
