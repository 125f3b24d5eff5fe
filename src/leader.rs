//! The leader's side of the rounds, and the transitions common to both roles.
use vstd::prelude::*;
use crate::messages::{AddNodeInit, AddNodeTestResult, NodeId, QuorumError, RemoveNodeInit, RemoveNodeTestResult, VerifyRequest, VerifyResponse};
use crate::node::{
    addition_of, admitted, evicted, event_of, fresh_tally, outcome_after, removal_of,
    resharing_of, same_setting, status_wf, verification_of, with_member, without_member,
    AdditionVote, LeaderState, NodeStatus, QuorumNode, RemovalVote, Resharing, RoundEvent,
    VerificationRound, WorkerState,
};
use crate::round::{all_delivered, delivered, distinct, elapsed, recorded, RoundOutcome, ShareBook, Tally};

verus! {

/// The start of the timed round or wait that `s` is in, if any.
pub open spec fn round_start(s: NodeStatus) -> Option<u64> {
    match s {
        NodeStatus::Leading(LeaderState::ProcessingVerification(r)) => Some(r.start),
        NodeStatus::Leading(LeaderState::ProcessingAddition(r)) => Some(r.start),
        NodeStatus::Leading(LeaderState::ProcessingRemoval(r)) => Some(r.start),
        NodeStatus::Leading(LeaderState::AddingMember(r)) => Some(r.start),
        NodeStatus::Leading(LeaderState::RemovingMember(r)) => Some(r.start),
        NodeStatus::Following(WorkerState::WaitingOnMemberAddResult(_, since, _)) => Some(since),
        NodeStatus::Following(WorkerState::WaitingOnMemberRemoveResult(_, since, _)) => Some(since),
        _ => None,
    }
}

/// The failure that a deadline passing in `s` reports: an incomplete
/// resharing, or a quorum that was not reached.
pub open spec fn timeout_error(s: NodeStatus) -> QuorumError {
    if resharing_of(s) is Some {
        QuorumError::ReshardingIncomplete
    } else {
        QuorumError::QuorumNotReached
    }
}

/// The node is resharing after an admission.
pub open spec fn is_adding(s: NodeStatus) -> bool {
    s matches NodeStatus::Leading(LeaderState::AddingMember(_))
}

/// The node is resharing after an eviction.
pub open spec fn is_removing(s: NodeStatus) -> bool {
    s matches NodeStatus::Leading(LeaderState::RemovingMember(_))
}

/// A resharing that has just begun at `now` for `subject`, towards `recipients`.
pub open spec fn fresh_resharing(r: Resharing, now: u64, subject: NodeId, recipients: Seq<NodeId>) -> bool {
    &&& r.start == now
    &&& r.subject == subject
    &&& r.book.wf()
    &&& r.book.recipients@ == recipients
    &&& forall|i: int| 0 <= i < r.book.shares@.len() ==> (#[trigger] r.book.shares@[i]) is None
}

/// `t` is `before` once `from` answered `v`.
pub open spec fn tally_after(t: Tally, before: Tally, from: NodeId, v: bool) -> bool {
    &&& t.wf()
    &&& t.members@ == before.members@
    &&& t.votes@ == recorded(before.members@, before.votes@, from, v)
}

impl QuorumNode {
    pub open spec fn wf(&self) -> bool {
        distinct(self.members@) && status_wf(self.status)
    }

    /// A ready member of the quorum `members`.
    pub fn new(id: NodeId, members: Vec<NodeId>, threshold: usize, timeout: u64, share: Vec<u8>) -> (r: QuorumNode)
        requires
            distinct(members@),
        ensures
            r.wf(),
            r.id == id,
            r.members == members,
            r.threshold == threshold,
            r.timeout == timeout,
            r.share == share,
            r.status is Ready,
    {
        QuorumNode { id, members, threshold, timeout, share, status: NodeStatus::Ready }
    }

    /// Whether no round is under way on this node.
    pub fn is_ready(&self) -> (r: bool)
        ensures
            r == self.status is Ready,
    {
        match self.status {
            NodeStatus::Ready => true,
            _ => false,
        }
    }

    pub(crate) fn take_status(&mut self) -> (r: NodeStatus)
        ensures
            r == old(self).status,
            final(self).status is Ready,
            same_setting(*final(self), *old(self)),
    {
        let mut s = NodeStatus::Ready;
        core::mem::swap(&mut self.status, &mut s);
        s
    }

    /// Checks the deadline of the current round or wait at time `now`. Once it
    /// has passed the round is abandoned: the node becomes ready, and its
    /// membership and share stay as they were; a share received but not
    /// committed is dropped.
    pub fn tick(&mut self, now: u64) -> (r: RoundEvent)
        requires
            old(self).wf(),
        ensures
            final(self).wf(),
            same_setting(*final(self), *old(self)),
            round_start(old(self).status) is None ==> r == RoundEvent::Ignored && *final(self)
                == *old(self),
            round_start(old(self).status) is Some && elapsed(round_start(old(self).status).unwrap(), now)
                > old(self).timeout ==> r == RoundEvent::Failed(timeout_error(old(self).status))
                && final(self).status is Ready,
            round_start(old(self).status) is Some && elapsed(round_start(old(self).status).unwrap(), now)
                <= old(self).timeout ==> r == RoundEvent::Pending && *final(self) == *old(self),
    {
        let (start, err) = match &self.status {
            NodeStatus::Leading(LeaderState::ProcessingVerification(r)) => (r.start, QuorumError::QuorumNotReached),
            NodeStatus::Leading(LeaderState::ProcessingAddition(r)) => (r.start, QuorumError::QuorumNotReached),
            NodeStatus::Leading(LeaderState::ProcessingRemoval(r)) => (r.start, QuorumError::QuorumNotReached),
            NodeStatus::Leading(LeaderState::AddingMember(r)) => (r.start, QuorumError::ReshardingIncomplete),
            NodeStatus::Leading(LeaderState::RemovingMember(r)) => (r.start, QuorumError::ReshardingIncomplete),
            NodeStatus::Following(WorkerState::WaitingOnMemberAddResult(_, since, _)) => (*since, QuorumError::QuorumNotReached),
            NodeStatus::Following(WorkerState::WaitingOnMemberRemoveResult(_, since, _)) => (*since, QuorumError::QuorumNotReached),
            _ => {
                return RoundEvent::Ignored;
            },
        };
        let waited: u64 = if now >= start { now - start } else { 0 };
        if waited > self.timeout {
            self.status = NodeStatus::Ready;
            RoundEvent::Failed(err)
        } else {
            RoundEvent::Pending
        }
    }

    /// Begins a verification round as leader at time `now`, with every
    /// current member outstanding. A node that is not ready refuses and
    /// keeps its round.
    pub fn start_verification(&mut self, request: VerifyRequest, now: u64) -> (r: Result<(), QuorumError>)
        requires
            old(self).wf(),
        ensures
            final(self).wf(),
            same_setting(*final(self), *old(self)),
            old(self).status is Ready ==> r is Ok && verification_of(final(self).status) is Some && ({
                let round = verification_of(final(self).status).unwrap();
                &&& round.start == now
                &&& round.request == request
                &&& fresh_tally(round.tally, old(self).members@)
            }),
            !(old(self).status is Ready) ==> r == Err::<(), QuorumError>(QuorumError::InvalidStateTransition)
                && *final(self) == *old(self),
    {
        if !self.is_ready() {
            return Err(QuorumError::InvalidStateTransition);
        }
        let tally = Tally::new(&self.members);
        self.status = NodeStatus::Leading(LeaderState::ProcessingVerification(VerificationRound { start: now, request, tally }));
        Ok(())
    }

    /// Takes the response of `from` at time `now`. It replaces any earlier
    /// response of the same sender. The round succeeds once the threshold of
    /// affirmative responses is reached, and fails once the deadline has
    /// passed or too few responses are outstanding; either way the node is
    /// then ready. Outside a verification round the response is dropped.
    pub fn on_verify_response(&mut self, from: NodeId, response: &VerifyResponse, now: u64) -> (r: RoundEvent)
        requires
            old(self).wf(),
        ensures
            final(self).wf(),
            same_setting(*final(self), *old(self)),
            verification_of(old(self).status) is None ==> r == RoundEvent::Ignored && *final(self) == *old(self),
            verification_of(old(self).status) is Some ==> ({
                let round = verification_of(old(self).status).unwrap();
                let o = outcome_after(round.tally, from, response.is_affirmative(), old(self).threshold, round.start, now, old(self).timeout);
                &&& r == event_of(o)
                &&& o != RoundOutcome::Pending ==> final(self).status is Ready
                &&& o == RoundOutcome::Pending ==> verification_of(final(self).status) is Some && ({
                    let next = verification_of(final(self).status).unwrap();
                    &&& next.start == round.start
                    &&& next.request == round.request
                    &&& tally_after(next.tally, round.tally, from, response.is_affirmative())
                })
            }),
    {
        let status = self.take_status();
        match status {
            NodeStatus::Leading(LeaderState::ProcessingVerification(mut round)) => {
                round.tally.record(from, response.affirmative());
                match round.tally.outcome(self.threshold, round.start, now, self.timeout) {
                    RoundOutcome::Pending => {
                        self.status = NodeStatus::Leading(LeaderState::ProcessingVerification(round));
                        RoundEvent::Pending
                    },
                    RoundOutcome::Reached => RoundEvent::Succeeded,
                    RoundOutcome::NotReached => RoundEvent::Failed(QuorumError::QuorumNotReached),
                }
            },
            other => {
                self.status = other;
                RoundEvent::Ignored
            },
        }
    }
}


impl QuorumNode {
    /// Begins a vote on admitting `request.candidate` at time `now`, with
    /// every current member outstanding. A node that is not ready refuses
    /// and keeps its round.
    pub fn start_addition(&mut self, request: AddNodeInit, now: u64) -> (r: Result<(), QuorumError>)
        requires
            old(self).wf(),
        ensures
            final(self).wf(),
            same_setting(*final(self), *old(self)),
            old(self).status is Ready ==> r is Ok && addition_of(final(self).status) is Some && ({
                let round = addition_of(final(self).status).unwrap();
                &&& round.start == now
                &&& round.request == request
                &&& fresh_tally(round.tally, old(self).members@)
            }),
            !(old(self).status is Ready) ==> r == Err::<(), QuorumError>(QuorumError::InvalidStateTransition)
                && *final(self) == *old(self),
    {
        if !self.is_ready() {
            return Err(QuorumError::InvalidStateTransition);
        }
        let tally = Tally::new(&self.members);
        self.status = NodeStatus::Leading(LeaderState::ProcessingAddition(AdditionVote { start: now, request, tally }));
        Ok(())
    }

    /// Takes the admission vote of `from` at time `now`, replacing any earlier
    /// vote of the same sender. Once the threshold of approvals is reached the
    /// leader turns to resharing towards the current members and the
    /// candidate; once the deadline has passed or too few votes are
    /// outstanding the round fails and no share is touched.
    pub fn on_add_vote(&mut self, from: NodeId, vote: AddNodeTestResult, now: u64) -> (r: RoundEvent)
        requires
            old(self).wf(),
        ensures
            final(self).wf(),
            same_setting(*final(self), *old(self)),
            addition_of(old(self).status) is None ==> r == RoundEvent::Ignored && *final(self) == *old(self),
            addition_of(old(self).status) is Some ==> ({
                let round = addition_of(old(self).status).unwrap();
                let o = outcome_after(round.tally, from, vote.approved, old(self).threshold, round.start, now, old(self).timeout);
                &&& o == RoundOutcome::Reached ==> r == RoundEvent::Reshare
                    && is_adding(final(self).status)
                    && fresh_resharing(resharing_of(final(self).status).unwrap(), now,
                        round.request.candidate, admitted(old(self).members@, round.request.candidate))
                &&& o == RoundOutcome::NotReached ==> r == RoundEvent::Failed(QuorumError::QuorumNotReached)
                    && final(self).status is Ready
                &&& o == RoundOutcome::Pending ==> r == RoundEvent::Pending && addition_of(final(self).status) is Some && ({
                    let next = addition_of(final(self).status).unwrap();
                    &&& next.start == round.start
                    &&& next.request == round.request
                    &&& tally_after(next.tally, round.tally, from, vote.approved)
                })
            }),
    {
        let status = self.take_status();
        match status {
            NodeStatus::Leading(LeaderState::ProcessingAddition(mut round)) => {
                round.tally.record(from, vote.approved);
                match round.tally.outcome(self.threshold, round.start, now, self.timeout) {
                    RoundOutcome::Pending => {
                        self.status = NodeStatus::Leading(LeaderState::ProcessingAddition(round));
                        RoundEvent::Pending
                    },
                    RoundOutcome::Reached => {
                        let candidate = round.request.candidate;
                        let book = ShareBook::new(with_member(&self.members, candidate));
                        self.status = NodeStatus::Leading(LeaderState::AddingMember(Resharing { start: now, subject: candidate, book }));
                        RoundEvent::Reshare
                    },
                    RoundOutcome::NotReached => RoundEvent::Failed(QuorumError::QuorumNotReached),
                }
            },
            other => {
                self.status = other;
                RoundEvent::Ignored
            },
        }
    }

    /// Begins a vote on evicting `request.target` at time `now`, with every
    /// current member outstanding. A node that is not ready refuses and
    /// keeps its round.
    pub fn start_removal(&mut self, request: RemoveNodeInit, now: u64) -> (r: Result<(), QuorumError>)
        requires
            old(self).wf(),
        ensures
            final(self).wf(),
            same_setting(*final(self), *old(self)),
            old(self).status is Ready ==> r is Ok && removal_of(final(self).status) is Some && ({
                let round = removal_of(final(self).status).unwrap();
                &&& round.start == now
                &&& round.request == request
                &&& fresh_tally(round.tally, old(self).members@)
            }),
            !(old(self).status is Ready) ==> r == Err::<(), QuorumError>(QuorumError::InvalidStateTransition)
                && *final(self) == *old(self),
    {
        if !self.is_ready() {
            return Err(QuorumError::InvalidStateTransition);
        }
        let tally = Tally::new(&self.members);
        self.status = NodeStatus::Leading(LeaderState::ProcessingRemoval(RemovalVote { start: now, request, tally }));
        Ok(())
    }

    /// Takes the eviction vote of `from` at time `now`, replacing any earlier
    /// vote of the same sender. Once the threshold of approvals is reached the
    /// leader turns to resharing towards the members other than the target;
    /// once the deadline has passed or too few votes are outstanding the
    /// round fails and no share is touched.
    pub fn on_remove_vote(&mut self, from: NodeId, vote: RemoveNodeTestResult, now: u64) -> (r: RoundEvent)
        requires
            old(self).wf(),
        ensures
            final(self).wf(),
            same_setting(*final(self), *old(self)),
            removal_of(old(self).status) is None ==> r == RoundEvent::Ignored && *final(self) == *old(self),
            removal_of(old(self).status) is Some ==> ({
                let round = removal_of(old(self).status).unwrap();
                let o = outcome_after(round.tally, from, vote.approved, old(self).threshold, round.start, now, old(self).timeout);
                &&& o == RoundOutcome::Reached ==> r == RoundEvent::Reshare
                    && is_removing(final(self).status)
                    && ({
                        let rs = resharing_of(final(self).status).unwrap();
                        &&& fresh_resharing(rs, now, round.request.target, rs.book.recipients@)
                        &&& evicted(old(self).members@, round.request.target, rs.book.recipients@)
                    })
                &&& o == RoundOutcome::NotReached ==> r == RoundEvent::Failed(QuorumError::QuorumNotReached)
                    && final(self).status is Ready
                &&& o == RoundOutcome::Pending ==> r == RoundEvent::Pending && removal_of(final(self).status) is Some && ({
                    let next = removal_of(final(self).status).unwrap();
                    &&& next.start == round.start
                    &&& next.request == round.request
                    &&& tally_after(next.tally, round.tally, from, vote.approved)
                })
            }),
    {
        let status = self.take_status();
        match status {
            NodeStatus::Leading(LeaderState::ProcessingRemoval(mut round)) => {
                round.tally.record(from, vote.approved);
                match round.tally.outcome(self.threshold, round.start, now, self.timeout) {
                    RoundOutcome::Pending => {
                        self.status = NodeStatus::Leading(LeaderState::ProcessingRemoval(round));
                        RoundEvent::Pending
                    },
                    RoundOutcome::Reached => {
                        let target = round.request.target;
                        let book = ShareBook::new(without_member(&self.members, target));
                        self.status = NodeStatus::Leading(LeaderState::RemovingMember(Resharing { start: now, subject: target, book }));
                        RoundEvent::Reshare
                    },
                    RoundOutcome::NotReached => RoundEvent::Failed(QuorumError::QuorumNotReached),
                }
            },
            other => {
                self.status = other;
                RoundEvent::Ignored
            },
        }
    }

    /// Records at time `now` that `to` acknowledged its new share `share`. When
    /// every recipient holds one, the change takes effect: the membership
    /// becomes the recipients, the leader installs its own new share, and the
    /// node is ready. Past the deadline the resharing is abandoned instead,
    /// leaving membership and share as they were.
    pub fn deliver_share(&mut self, to: NodeId, share: Vec<u8>, now: u64) -> (r: RoundEvent)
        requires
            old(self).wf(),
        ensures
            final(self).wf(),
            final(self).id == old(self).id,
            final(self).threshold == old(self).threshold,
            final(self).timeout == old(self).timeout,
            resharing_of(old(self).status) is None ==> r == RoundEvent::Ignored && *final(self) == *old(self),
            resharing_of(old(self).status) is Some ==> ({
                let rs = resharing_of(old(self).status).unwrap();
                let shares = delivered(rs.book, to, share);
                if elapsed(rs.start, now) > old(self).timeout {
                    &&& r == RoundEvent::Failed(QuorumError::ReshardingIncomplete)
                    &&& final(self).status is Ready
                    &&& same_setting(*final(self), *old(self))
                } else if !rs.book.recipients@.contains(to) {
                    r == RoundEvent::Ignored && *final(self) == *old(self)
                } else if all_delivered(shares) {
                    &&& r == RoundEvent::Succeeded
                    &&& final(self).status is Ready
                    &&& final(self).members@ == rs.book.recipients@
                    &&& forall|i: int| 0 <= i < shares.len() && rs.book.recipients@[i] == old(self).id
                        ==> final(self).share@ == (#[trigger] shares[i]).unwrap()@
                    &&& !rs.book.recipients@.contains(old(self).id) ==> final(self).share == old(self).share
                } else {
                    &&& r == RoundEvent::Pending
                    &&& same_setting(*final(self), *old(self))
                    &&& is_adding(final(self).status) == is_adding(old(self).status)
                    &&& resharing_of(final(self).status) is Some
                    &&& resharing_of(final(self).status).unwrap().start == rs.start
                    &&& resharing_of(final(self).status).unwrap().subject == rs.subject
                    &&& resharing_of(final(self).status).unwrap().book.recipients@ == rs.book.recipients@
                    &&& resharing_of(final(self).status).unwrap().book.shares@ == shares
                }
            }),
    {
        let adding = match &self.status {
            NodeStatus::Leading(LeaderState::AddingMember(_)) => true,
            NodeStatus::Leading(LeaderState::RemovingMember(_)) => false,
            _ => {
                return RoundEvent::Ignored;
            },
        };
        let status = self.take_status();
        let mut rs = match status {
            NodeStatus::Leading(LeaderState::AddingMember(rs)) => rs,
            NodeStatus::Leading(LeaderState::RemovingMember(rs)) => rs,
            other => {
                self.status = other;
                return RoundEvent::Ignored;
            },
        };
        let waited: u64 = if now >= rs.start { now - rs.start } else { 0 };
        if waited > self.timeout {
            return RoundEvent::Failed(QuorumError::ReshardingIncomplete);
        }
        if !rs.book.has_recipient(to) {
            self.status = if adding {
                NodeStatus::Leading(LeaderState::AddingMember(rs))
            } else {
                NodeStatus::Leading(LeaderState::RemovingMember(rs))
            };
            return RoundEvent::Ignored;
        }
        rs.book.deliver(to, share);
        if rs.book.is_complete() {
            if let Some(own) = rs.book.share_of(self.id) {
                self.share = own;
            }
            self.members = rs.book.recipients;
            RoundEvent::Succeeded
        } else {
            self.status = if adding {
                NodeStatus::Leading(LeaderState::AddingMember(rs))
            } else {
                NodeStatus::Leading(LeaderState::RemovingMember(rs))
            };
            RoundEvent::Pending
        }
    }
}

} // verus!
