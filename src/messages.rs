//! The values exchanged between quorum members.
use vstd::prelude::*;

verus! {

/// Identity of a quorum member.
pub type NodeId = u64;

/// The label of a tree node: `len` significant bits of `val`.
#[derive(Clone, Copy, Debug, PartialEq, Eq, Structural)]
pub struct NodeLabel {
    pub len: u32,
    pub val: u64,
}

/// One node of the authenticated structure, as a proof references it.
/// `hash` holds the digest in its byte form.
#[derive(Clone, Debug)]
pub struct TreeNode {
    pub label: NodeLabel,
    pub hash: Vec<u8>,
}

/// Evidence that the directory changed by insertion alone.
#[derive(Clone, Debug)]
pub struct AppendOnlyProof {
    pub inserted: Vec<TreeNode>,
    pub unchanged: Vec<TreeNode>,
}

/// A leader's request to verify one epoch transition.
#[derive(Clone, Debug)]
pub struct VerifyRequest {
    pub epoch: u64,
    pub new_hash: Vec<u8>,
    pub previous_hash: Vec<u8>,
    pub proof: AppendOnlyProof,
}

/// A worker's answer to a `VerifyRequest`: both fields are present (the proof
/// verified) or both are absent (it did not).
#[derive(Clone, Debug)]
pub struct VerifyResponse {
    pub verified_hash: Option<Vec<u8>>,
    pub shard: Option<Vec<u8>>,
}

/// A request to admit `candidate` to the quorum.
#[derive(Clone, Copy, Debug, PartialEq, Eq, Structural)]
pub struct AddNodeInit {
    pub candidate: NodeId,
}

/// A request to evict `target` from the quorum.
#[derive(Clone, Copy, Debug, PartialEq, Eq, Structural)]
pub struct RemoveNodeInit {
    pub target: NodeId,
}

/// A worker's verdict on an admission.
#[derive(Clone, Copy, Debug, PartialEq, Eq, Structural)]
pub struct AddNodeTestResult {
    pub approved: bool,
}

/// A worker's verdict on an eviction.
#[derive(Clone, Copy, Debug, PartialEq, Eq, Structural)]
pub struct RemoveNodeTestResult {
    pub approved: bool,
}

/// A field that the protocol requires and a wire message may lack.
#[derive(Clone, Copy, Debug, PartialEq, Eq, Structural)]
pub enum WireField {
    LabelLen,
    LabelVal,
    NodeLabel,
    NodeHash,
    Epoch,
    NewHash,
    PreviousHash,
    Proof,
    VerifiedHash,
}

/// The ways an operation of the quorum can fail.
#[derive(Clone, Copy, Debug, PartialEq, Eq, Structural)]
pub enum QuorumError {
    /// A wire message lacks a required field.
    Serialization(WireField),
    /// A digest on the wire does not have the digest's size.
    MalformedDigest(WireField),
    /// The proof did not validate.
    VerificationFailure,
    /// A round timed out or can no longer reach its threshold.
    QuorumNotReached,
    /// An operation was requested while the node was not ready.
    InvalidStateTransition,
    /// A membership change reached distribution but not every recipient
    /// confirmed its new share.
    ReshardingIncomplete,
}

/// A copy of a byte string.
pub fn copy_bytes(b: &Vec<u8>) -> (r: Vec<u8>)
    ensures
        r@ == b@,
{
    let r = b.clone();
    assert(r@ =~= b@);
    r
}

impl VerifyResponse {
    /// Both fields present, or both absent.
    pub open spec fn wf(&self) -> bool {
        self.verified_hash.is_some() == self.shard.is_some()
    }

    /// Whether this response attests a hash.
    pub open spec fn is_affirmative(&self) -> bool {
        self.verified_hash.is_some()
    }

    /// The response of a worker whose verification succeeded.
    pub fn verified(hash: Vec<u8>, shard: Vec<u8>) -> (r: VerifyResponse)
        ensures
            r.wf(),
            r.verified_hash == Some(hash),
            r.shard == Some(shard),
    {
        VerifyResponse { verified_hash: Some(hash), shard: Some(shard) }
    }

    /// The response of a worker whose verification failed.
    pub fn failed() -> (r: VerifyResponse)
        ensures
            r.wf(),
            r.verified_hash.is_none(),
            r.shard.is_none(),
    {
        VerifyResponse { verified_hash: None, shard: None }
    }

    /// Whether this response attests a hash.
    pub fn affirmative(&self) -> (r: bool)
        ensures
            r == self.is_affirmative(),
    {
        self.verified_hash.is_some()
    }
}

} // verus!
