//! The worker's side of the rounds.
use vstd::prelude::*;
use crate::messages::{copy_bytes, AddNodeInit, AddNodeTestResult, NodeId, QuorumError, RemoveNodeInit, RemoveNodeTestResult, VerifyRequest, VerifyResponse};
use crate::node::{admitted, evicted, same_setting, with_member, without_member, NodeStatus, QuorumNode, WorkerState};

verus! {

/// The verification a worker is carrying out, with its leader.
pub open spec fn verifying_of(s: NodeStatus) -> Option<(NodeId, VerifyRequest)> {
    match s {
        NodeStatus::Following(WorkerState::Verifying(l, req)) => Some((l, req)),
        _ => None,
    }
}

impl QuorumNode {
    /// Follows `leader` in verifying `request`. A node that is not ready
    /// refuses and keeps its round.
    pub fn begin_verification(&mut self, leader: NodeId, request: VerifyRequest) -> (r: Result<(), QuorumError>)
        requires
            old(self).wf(),
        ensures
            final(self).wf(),
            same_setting(*final(self), *old(self)),
            old(self).status is Ready ==> r is Ok && final(self).status == NodeStatus::Following(
                WorkerState::Verifying(leader, request),
            ),
            !(old(self).status is Ready) ==> r == Err::<(), QuorumError>(QuorumError::InvalidStateTransition)
                && *final(self) == *old(self),
    {
        if !self.is_ready() {
            return Err(QuorumError::InvalidStateTransition);
        }
        self.status = NodeStatus::Following(WorkerState::Verifying(leader, request));
        Ok(())
    }

    /// Concludes the verification under way with the directory's verdict on
    /// its proof, and returns the reply: the new hash with this node's share
    /// when the proof is valid, an empty response otherwise. The node is
    /// then ready. Outside a verification it returns `None` and changes
    /// nothing.
    pub fn finish_verification(&mut self, proof_valid: bool) -> (r: Option<VerifyResponse>)
        requires
            old(self).wf(),
        ensures
            final(self).wf(),
            same_setting(*final(self), *old(self)),
            verifying_of(old(self).status) is None ==> r is None && *final(self) == *old(self),
            verifying_of(old(self).status) is Some ==> ({
                let req = verifying_of(old(self).status).unwrap().1;
                &&& final(self).status is Ready
                &&& r is Some
                &&& r.unwrap().wf()
                &&& proof_valid ==> r.unwrap().verified_hash is Some
                    && r.unwrap().verified_hash.unwrap()@ == req.new_hash@
                    && r.unwrap().shard.unwrap()@ == old(self).share@
                &&& !proof_valid ==> r.unwrap().verified_hash is None
            }),
    {
        let status = self.take_status();
        match status {
            NodeStatus::Following(WorkerState::Verifying(_, request)) => {
                if proof_valid {
                    Some(VerifyResponse::verified(copy_bytes(&request.new_hash), copy_bytes(&self.share)))
                } else {
                    Some(VerifyResponse::failed())
                }
            },
            other => {
                self.status = other;
                None
            },
        }
    }

    /// Follows `leader` in a vote on admitting `request.candidate`, where
    /// `verdict` is the outcome of the local admission test. A node that is
    /// not ready refuses and keeps its round.
    pub fn on_add_request(&mut self, leader: NodeId, request: AddNodeInit, verdict: bool) -> (r: Result<(), QuorumError>)
        requires
            old(self).wf(),
        ensures
            final(self).wf(),
            same_setting(*final(self), *old(self)),
            old(self).status is Ready ==> r is Ok && final(self).status == NodeStatus::Following(
                WorkerState::TestingAddMember(leader, request, verdict),
            ),
            !(old(self).status is Ready) ==> r == Err::<(), QuorumError>(QuorumError::InvalidStateTransition)
                && *final(self) == *old(self),
    {
        if !self.is_ready() {
            return Err(QuorumError::InvalidStateTransition);
        }
        self.status = NodeStatus::Following(WorkerState::TestingAddMember(leader, request, verdict));
        Ok(())
    }

    /// Hands out the admission vote at time `now` and starts waiting for the
    /// leader's new share. Outside an admission test it returns `None` and
    /// changes nothing.
    pub fn send_add_vote(&mut self, now: u64) -> (r: Option<AddNodeTestResult>)
        requires
            old(self).wf(),
        ensures
            final(self).wf(),
            same_setting(*final(self), *old(self)),
            match old(self).status {
                NodeStatus::Following(WorkerState::TestingAddMember(_, request, verdict)) => {
                    &&& r == Some(AddNodeTestResult { approved: verdict })
                    &&& final(self).status == NodeStatus::Following(WorkerState::WaitingOnMemberAddResult(request, now, None))
                },
                _ => r is None && *final(self) == *old(self),
            },
    {
        let status = self.take_status();
        match status {
            NodeStatus::Following(WorkerState::TestingAddMember(_, request, verdict)) => {
                self.status = NodeStatus::Following(WorkerState::WaitingOnMemberAddResult(request, now, None));
                Some(AddNodeTestResult { approved: verdict })
            },
            other => {
                self.status = other;
                None
            },
        }
    }

    /// Follows `leader` in a vote on evicting `request.target`, where
    /// `verdict` is the outcome of the local eviction test. A node that is
    /// not ready refuses and keeps its round.
    pub fn on_remove_request(&mut self, leader: NodeId, request: RemoveNodeInit, verdict: bool) -> (r: Result<(), QuorumError>)
        requires
            old(self).wf(),
        ensures
            final(self).wf(),
            same_setting(*final(self), *old(self)),
            old(self).status is Ready ==> r is Ok && final(self).status == NodeStatus::Following(
                WorkerState::TestingRemoveMember(leader, request, verdict),
            ),
            !(old(self).status is Ready) ==> r == Err::<(), QuorumError>(QuorumError::InvalidStateTransition)
                && *final(self) == *old(self),
    {
        if !self.is_ready() {
            return Err(QuorumError::InvalidStateTransition);
        }
        self.status = NodeStatus::Following(WorkerState::TestingRemoveMember(leader, request, verdict));
        Ok(())
    }

    /// Hands out the eviction vote at time `now` and starts waiting for the
    /// leader's new share. Outside an eviction test it returns `None` and
    /// changes nothing.
    pub fn send_remove_vote(&mut self, now: u64) -> (r: Option<RemoveNodeTestResult>)
        requires
            old(self).wf(),
        ensures
            final(self).wf(),
            same_setting(*final(self), *old(self)),
            match old(self).status {
                NodeStatus::Following(WorkerState::TestingRemoveMember(_, request, verdict)) => {
                    &&& r == Some(RemoveNodeTestResult { approved: verdict })
                    &&& final(self).status == NodeStatus::Following(WorkerState::WaitingOnMemberRemoveResult(request, now, None))
                },
                _ => r is None && *final(self) == *old(self),
            },
    {
        let status = self.take_status();
        match status {
            NodeStatus::Following(WorkerState::TestingRemoveMember(_, request, verdict)) => {
                self.status = NodeStatus::Following(WorkerState::WaitingOnMemberRemoveResult(request, now, None));
                Some(RemoveNodeTestResult { approved: verdict })
            },
            other => {
                self.status = other;
                None
            },
        }
    }

    /// Holds the new share sent for the membership change under way,
    /// replacing one received before; it takes effect only on commit.
    /// Returns whether the node was waiting for one; if not, nothing changes.
    pub fn stage_share(&mut self, share: Vec<u8>) -> (r: bool)
        requires
            old(self).wf(),
        ensures
            final(self).wf(),
            same_setting(*final(self), *old(self)),
            match old(self).status {
                NodeStatus::Following(WorkerState::WaitingOnMemberAddResult(request, since, _)) => r
                    && final(self).status == NodeStatus::Following(
                    WorkerState::WaitingOnMemberAddResult(request, since, Some(share)),
                ),
                NodeStatus::Following(WorkerState::WaitingOnMemberRemoveResult(request, since, _)) => r
                    && final(self).status == NodeStatus::Following(
                    WorkerState::WaitingOnMemberRemoveResult(request, since, Some(share)),
                ),
                _ => !r && *final(self) == *old(self),
            },
    {
        let status = self.take_status();
        match status {
            NodeStatus::Following(WorkerState::WaitingOnMemberAddResult(request, since, _)) => {
                self.status = NodeStatus::Following(WorkerState::WaitingOnMemberAddResult(request, since, Some(share)));
                true
            },
            NodeStatus::Following(WorkerState::WaitingOnMemberRemoveResult(request, since, _)) => {
                self.status = NodeStatus::Following(WorkerState::WaitingOnMemberRemoveResult(request, since, Some(share)));
                true
            },
            other => {
                self.status = other;
                false
            },
        }
    }

    /// Commits the membership change under way once the leader has served
    /// every recipient: the held share replaces the old one, the change is
    /// applied to the membership, and the node is ready. Returns whether a
    /// share was held; if not, nothing changes.
    pub fn commit_share(&mut self) -> (r: bool)
        requires
            old(self).wf(),
        ensures
            final(self).wf(),
            final(self).id == old(self).id,
            final(self).threshold == old(self).threshold,
            final(self).timeout == old(self).timeout,
            match old(self).status {
                NodeStatus::Following(WorkerState::WaitingOnMemberAddResult(request, _, Some(share))) => {
                    &&& r
                    &&& final(self).status is Ready
                    &&& final(self).share == share
                    &&& final(self).members@ == admitted(old(self).members@, request.candidate)
                },
                NodeStatus::Following(WorkerState::WaitingOnMemberRemoveResult(request, _, Some(share))) => {
                    &&& r
                    &&& final(self).status is Ready
                    &&& final(self).share == share
                    &&& evicted(old(self).members@, request.target, final(self).members@)
                },
                _ => !r && *final(self) == *old(self),
            },
    {
        let status = self.take_status();
        match status {
            NodeStatus::Following(WorkerState::WaitingOnMemberAddResult(request, _, Some(share))) => {
                self.members = with_member(&self.members, request.candidate);
                self.share = share;
                true
            },
            NodeStatus::Following(WorkerState::WaitingOnMemberRemoveResult(request, _, Some(share))) => {
                self.members = without_member(&self.members, request.target);
                self.share = share;
                true
            },
            other => {
                self.status = other;
                false
            },
        }
    }
}

} // verus!
