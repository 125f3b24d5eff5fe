use akd_quorum::messages::{
    AddNodeInit, AppendOnlyProof, NodeLabel, QuorumError, RemoveNodeInit, TreeNode, VerifyRequest,
    VerifyResponse,
};
use akd_quorum::node::{LeaderState, NodeStatus, QuorumNode, RoundEvent, WorkerState};
use akd_quorum::round::{RoundOutcome, ShareBook, Tally};

const THRESHOLD: usize = 3;
const TIMEOUT: u64 = 100;

fn proof_p() -> AppendOnlyProof {
    AppendOnlyProof {
        inserted: vec![TreeNode { label: NodeLabel { len: 3, val: 5 }, hash: vec![7u8; 32] }],
        unchanged: vec![TreeNode { label: NodeLabel { len: 1, val: 0 }, hash: vec![8u8; 32] }],
    }
}

fn request() -> VerifyRequest {
    VerifyRequest { epoch: 10, previous_hash: vec![0u8; 32], new_hash: vec![1u8; 32], proof: proof_p() }
}

fn quorum() -> Vec<QuorumNode> {
    (1..=5u64).map(|id| QuorumNode::new(id, vec![1, 2, 3, 4, 5], THRESHOLD, TIMEOUT, vec![id as u8])).collect()
}

fn worker_reply(node: &mut QuorumNode, valid: bool) -> VerifyResponse {
    node.begin_verification(1, request()).unwrap();
    assert!(matches!(node.status, NodeStatus::Following(WorkerState::Verifying(1, _))));
    let r = node.finish_verification(valid).unwrap();
    assert!(node.is_ready());
    r
}

#[test]
fn verification_reaches_quorum() {
    let mut nodes = quorum();
    let mut leader = nodes.remove(0);
    leader.start_verification(request(), 0).unwrap();
    let empty4 = worker_reply(&mut nodes[2], false);
    let empty5 = worker_reply(&mut nodes[3], false);
    assert_eq!(leader.on_verify_response(4, &empty4, 1), RoundEvent::Pending);
    assert_eq!(leader.on_verify_response(5, &empty5, 2), RoundEvent::Pending);
    let own = VerifyResponse::verified(vec![1u8; 32], leader.share.clone());
    assert_eq!(leader.on_verify_response(1, &own, 3), RoundEvent::Pending);
    let ok2 = worker_reply(&mut nodes[0], true);
    assert_eq!(ok2.verified_hash, Some(vec![1u8; 32]));
    assert_eq!(ok2.shard, Some(vec![2u8]));
    assert_eq!(leader.on_verify_response(2, &ok2, 4), RoundEvent::Pending);
    let ok3 = worker_reply(&mut nodes[1], true);
    assert_eq!(leader.on_verify_response(3, &ok3, 5), RoundEvent::Succeeded);
    assert!(leader.is_ready());
    assert!(nodes.iter().all(|n| n.is_ready()));
}

#[test]
fn verification_times_out() {
    let mut nodes = quorum();
    let mut leader = nodes.remove(0);
    leader.start_verification(request(), 0).unwrap();
    let ok2 = worker_reply(&mut nodes[0], true);
    let ok3 = worker_reply(&mut nodes[1], true);
    assert_eq!(leader.on_verify_response(2, &ok2, 10), RoundEvent::Pending);
    assert_eq!(leader.on_verify_response(3, &ok3, 20), RoundEvent::Pending);
    assert_eq!(leader.tick(TIMEOUT), RoundEvent::Pending);
    assert_eq!(leader.tick(TIMEOUT + 1), RoundEvent::Failed(QuorumError::QuorumNotReached));
    assert!(leader.is_ready());
    assert!(nodes.iter().all(|n| n.is_ready()));
    let late = worker_reply(&mut nodes[2], true);
    assert_eq!(leader.on_verify_response(4, &late, TIMEOUT + 2), RoundEvent::Ignored);
    assert!(leader.is_ready());
}

#[test]
fn verification_fails_when_threshold_unreachable() {
    let mut leader = quorum().remove(0);
    leader.start_verification(request(), 0).unwrap();
    let empty = VerifyResponse::failed();
    assert_eq!(leader.on_verify_response(2, &empty, 1), RoundEvent::Pending);
    assert_eq!(leader.on_verify_response(3, &empty, 2), RoundEvent::Pending);
    assert_eq!(leader.on_verify_response(4, &empty, 3), RoundEvent::Failed(QuorumError::QuorumNotReached));
    assert!(leader.is_ready());
}

#[test]
fn duplicate_response_counts_once() {
    let mut leader = quorum().remove(0);
    leader.start_verification(request(), 0).unwrap();
    let ok = VerifyResponse::verified(vec![1u8; 32], vec![9]);
    assert_eq!(leader.on_verify_response(2, &ok, 1), RoundEvent::Pending);
    assert_eq!(leader.on_verify_response(2, &ok, 2), RoundEvent::Pending);
    assert_eq!(leader.on_verify_response(3, &ok, 3), RoundEvent::Pending);
    match &leader.status {
        NodeStatus::Leading(LeaderState::ProcessingVerification(round)) => {
            assert_eq!(round.tally.yes_count(), 2);
            assert_eq!(round.tally.votes.len(), 5);
        }
        _ => panic!("round ended early"),
    }
    assert_eq!(leader.on_verify_response(4, &ok, 4), RoundEvent::Succeeded);
}

#[test]
fn second_initiation_is_refused() {
    let mut leader = quorum().remove(0);
    leader.start_verification(request(), 5).unwrap();
    let ok = VerifyResponse::verified(vec![1u8; 32], vec![9]);
    leader.on_verify_response(2, &ok, 6);
    assert_eq!(leader.start_verification(request(), 7), Err(QuorumError::InvalidStateTransition));
    assert_eq!(leader.start_addition(AddNodeInit { candidate: 6 }, 7), Err(QuorumError::InvalidStateTransition));
    assert_eq!(leader.start_removal(RemoveNodeInit { target: 5 }, 7), Err(QuorumError::InvalidStateTransition));
    assert_eq!(leader.begin_verification(2, request()), Err(QuorumError::InvalidStateTransition));
    assert_eq!(leader.on_add_request(2, AddNodeInit { candidate: 6 }, true), Err(QuorumError::InvalidStateTransition));
    match &leader.status {
        NodeStatus::Leading(LeaderState::ProcessingVerification(round)) => {
            assert_eq!(round.start, 5);
            assert_eq!(round.tally.yes_count(), 1);
        }
        _ => panic!("round was replaced"),
    }
    let mut worker = quorum().remove(1);
    worker.begin_verification(1, request()).unwrap();
    assert_eq!(worker.start_verification(request(), 0), Err(QuorumError::InvalidStateTransition));
    assert!(matches!(worker.status, NodeStatus::Following(WorkerState::Verifying(1, _))));
}

#[test]
fn addition_reshares_to_all_members() {
    let mut nodes = quorum();
    let mut leader = nodes.remove(0);
    let req = AddNodeInit { candidate: 6 };
    leader.start_addition(req, 0).unwrap();
    let mut event = RoundEvent::Pending;
    for (i, w) in nodes.iter_mut().enumerate() {
        w.on_add_request(1, req, true).unwrap();
        let vote = w.send_add_vote(1).unwrap();
        assert!(vote.approved);
        assert!(matches!(w.status, NodeStatus::Following(WorkerState::WaitingOnMemberAddResult(_, 1, None))));
        if event == RoundEvent::Pending {
            event = leader.on_add_vote(i as u64 + 2, vote, 2);
        }
    }
    assert_eq!(event, RoundEvent::Reshare);
    let recipients = match &leader.status {
        NodeStatus::Leading(LeaderState::AddingMember(rs)) => rs.book.recipients.clone(),
        _ => panic!("not resharing"),
    };
    assert_eq!(recipients, vec![1, 2, 3, 4, 5, 6]);
    for id in 1..=5u64 {
        assert_eq!(leader.deliver_share(id, vec![100 + id as u8], 3), RoundEvent::Pending);
    }
    assert_eq!(leader.deliver_share(6, vec![106], 4), RoundEvent::Succeeded);
    assert!(leader.is_ready());
    assert_eq!(leader.members, vec![1, 2, 3, 4, 5, 6]);
    assert_eq!(leader.share, vec![101]);
    for w in nodes.iter_mut() {
        let before = w.share.clone();
        assert!(!w.commit_share());
        assert!(w.stage_share(vec![100 + w.id as u8]));
        assert_eq!(w.share, before);
        assert!(w.commit_share());
        assert_ne!(w.share, before);
        assert!(w.is_ready());
        assert_eq!(w.members, vec![1, 2, 3, 4, 5, 6]);
    }
    let newcomer = QuorumNode::new(6, leader.members.clone(), THRESHOLD, TIMEOUT, vec![106]);
    assert!(newcomer.is_ready());
    assert_eq!(newcomer.share, vec![106]);
}

#[test]
fn removal_reshares_to_remaining_members() {
    let mut nodes = quorum();
    let mut leader = nodes.remove(0);
    let req = RemoveNodeInit { target: 5 };
    leader.start_removal(req, 0).unwrap();
    let mut event = RoundEvent::Pending;
    for (i, w) in nodes.iter_mut().take(3).enumerate() {
        w.on_remove_request(1, req, true).unwrap();
        let vote = w.send_remove_vote(1).unwrap();
        event = leader.on_remove_vote(i as u64 + 2, vote, 2);
    }
    assert_eq!(event, RoundEvent::Reshare);
    let recipients = match &leader.status {
        NodeStatus::Leading(LeaderState::RemovingMember(rs)) => rs.book.recipients.clone(),
        _ => panic!("not resharing"),
    };
    assert_eq!(recipients, vec![1, 2, 3, 4]);
    assert_eq!(leader.deliver_share(5, vec![105], 3), RoundEvent::Ignored);
    for id in 1..=3u64 {
        assert_eq!(leader.deliver_share(id, vec![100 + id as u8], 3), RoundEvent::Pending);
    }
    assert_eq!(leader.deliver_share(4, vec![104], 3), RoundEvent::Succeeded);
    assert_eq!(leader.members, vec![1, 2, 3, 4]);
    for w in nodes.iter_mut().take(3) {
        assert!(w.stage_share(vec![100 + w.id as u8]));
        assert!(w.commit_share());
        assert_eq!(w.share, vec![100 + w.id as u8]);
        assert_eq!(w.members, vec![1, 2, 3, 4]);
    }
    let evicted = &mut nodes[3];
    assert_eq!(evicted.share, vec![5]);
    leader.start_verification(request(), 10).unwrap();
    match &leader.status {
        NodeStatus::Leading(LeaderState::ProcessingVerification(round)) => {
            assert_eq!(round.tally.members, vec![1, 2, 3, 4]);
        }
        _ => panic!("no round"),
    }
}

#[test]
fn rejected_addition_touches_no_share() {
    let mut leader = quorum().remove(0);
    leader.start_addition(AddNodeInit { candidate: 6 }, 0).unwrap();
    let no = akd_quorum::messages::AddNodeTestResult { approved: false };
    assert_eq!(leader.on_add_vote(2, no, 1), RoundEvent::Pending);
    assert_eq!(leader.on_add_vote(3, no, 1), RoundEvent::Pending);
    assert_eq!(leader.on_add_vote(4, no, 1), RoundEvent::Failed(QuorumError::QuorumNotReached));
    assert!(leader.is_ready());
    assert_eq!(leader.members, vec![1, 2, 3, 4, 5]);
    assert_eq!(leader.share, vec![1]);
}

#[test]
fn resharing_past_deadline_is_abandoned() {
    let mut leader = quorum().remove(0);
    let req = AddNodeInit { candidate: 6 };
    leader.start_addition(req, 0).unwrap();
    let yes = akd_quorum::messages::AddNodeTestResult { approved: true };
    leader.on_add_vote(1, yes, 1);
    leader.on_add_vote(2, yes, 1);
    assert_eq!(leader.on_add_vote(3, yes, 10), RoundEvent::Reshare);
    assert_eq!(leader.deliver_share(1, vec![101], 20), RoundEvent::Pending);
    assert_eq!(leader.deliver_share(2, vec![102], 10 + TIMEOUT + 1), RoundEvent::Failed(QuorumError::ReshardingIncomplete));
    assert!(leader.is_ready());
    assert_eq!(leader.members, vec![1, 2, 3, 4, 5]);
    assert_eq!(leader.share, vec![1]);
}

#[test]
fn waiting_worker_times_out() {
    let mut w = quorum().remove(1);
    w.on_remove_request(1, RemoveNodeInit { target: 5 }, true).unwrap();
    w.send_remove_vote(50).unwrap();
    assert_eq!(w.tick(50 + TIMEOUT), RoundEvent::Pending);
    assert!(w.stage_share(vec![9]));
    assert_eq!(w.tick(51 + TIMEOUT), RoundEvent::Failed(QuorumError::QuorumNotReached));
    assert!(w.is_ready());
    assert_eq!(w.share, vec![2]);
    assert_eq!(w.members, vec![1, 2, 3, 4, 5]);
    assert!(!w.stage_share(vec![9]));
    assert!(!w.commit_share());
    assert_eq!(w.share, vec![2]);
}

#[test]
fn tally_ignores_outsiders() {
    let mut t = Tally::new(&vec![1, 2, 3]);
    assert!(!t.record(9, true));
    assert_eq!(t.votes, vec![None, None, None]);
    assert!(t.record(2, true));
    assert!(t.record(2, false));
    assert_eq!(t.votes, vec![None, Some(false), None]);
    assert_eq!(t.open_count(), 2);
    assert_eq!(t.yes_count(), 0);
    assert_eq!(t.outcome(2, 0, 5, 10), RoundOutcome::Pending);
    assert_eq!(t.outcome(0, 0, 5, 10), RoundOutcome::Reached);
    assert_eq!(t.outcome(3, 0, 5, 10), RoundOutcome::NotReached);
    assert_eq!(t.outcome(2, 0, 11, 10), RoundOutcome::NotReached);
    assert_eq!(t.outcome(2, 20, 5, 10), RoundOutcome::Pending);
}

#[test]
fn share_book_completion() {
    let mut b = ShareBook::new(vec![4, 7]);
    assert!(!b.is_complete());
    assert!(!b.deliver(5, vec![1]));
    assert!(b.deliver(7, vec![2]));
    assert_eq!(b.share_of(7), Some(vec![2]));
    assert_eq!(b.share_of(4), None);
    assert!(!b.is_complete());
    assert!(b.deliver(4, vec![3]));
    assert!(b.is_complete());
}
