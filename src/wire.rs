//! The interchange form of the messages. Every field is optional on the wire;
//! decoding checks that the fields the protocol requires are present.
use vstd::prelude::*;
use crate::messages::{
    copy_bytes, AppendOnlyProof, NodeLabel, QuorumError, TreeNode, VerifyRequest, VerifyResponse, WireField,
};

verus! {

/// A node label as sent.
#[derive(Clone, Copy, Debug, PartialEq, Eq, Structural)]
pub struct WireNodeLabel {
    pub len: Option<u32>,
    pub val: Option<u64>,
}

/// A tree node as sent.
#[derive(Clone, Debug)]
pub struct WireNode {
    pub label: Option<WireNodeLabel>,
    pub hash: Option<Vec<u8>>,
}

/// An append-only proof as sent.
#[derive(Clone, Debug)]
pub struct WireAppendOnlyProof {
    pub inserted: Vec<WireNode>,
    pub unchanged: Vec<WireNode>,
}

/// A verification request as sent.
#[derive(Clone, Debug)]
pub struct WireVerifyRequest {
    pub epoch: Option<u64>,
    pub new_hash: Option<Vec<u8>>,
    pub previous_hash: Option<Vec<u8>>,
    pub proof: Option<WireAppendOnlyProof>,
}

/// A verification response as sent.
#[derive(Clone, Debug)]
pub struct WireVerifyResponse {
    pub verified_hash: Option<Vec<u8>>,
    pub encrypted_quorum_key_shard: Option<Vec<u8>>,
}

/// The size of a digest in bytes.
pub const DIGEST_LEN: usize = 32;

/// Relies on akd's hash::try_parse_digest: it accepts exactly 32 bytes and
/// returns them as they are.
#[verifier::external_body]
fn parse_digest(b: &Vec<u8>) -> (r: Option<Vec<u8>>)
    ensures
        r is Some <==> b@.len() == DIGEST_LEN,
        r is Some ==> r.unwrap()@ == b@,
{
    akd::hash::try_parse_digest(b).ok().map(|d| d.to_vec())
}

/// Reads a digest sent in `field`.
fn decode_digest(b: &Vec<u8>, field: WireField) -> (r: Result<Vec<u8>, QuorumError>)
    ensures
        b@.len() == DIGEST_LEN ==> r is Ok && r.unwrap()@ == b@,
        b@.len() != DIGEST_LEN ==> r == Err::<Vec<u8>, QuorumError>(QuorumError::MalformedDigest(field)),
{
    match parse_digest(b) {
        Some(d) => Ok(d),
        None => Err(QuorumError::MalformedDigest(field)),
    }
}

/// The first required field that a wire label lacks.
pub open spec fn label_error(w: WireNodeLabel) -> Option<WireField> {
    if w.len.is_none() {
        Some(WireField::LabelLen)
    } else if w.val.is_none() {
        Some(WireField::LabelVal)
    } else {
        None
    }
}

/// Why a wire node does not decode: its label and hash must be present, then
/// the label's own fields, then the hash must have a digest's size.
pub open spec fn node_error(w: WireNode) -> Option<QuorumError> {
    if w.label.is_none() {
        Some(QuorumError::Serialization(WireField::NodeLabel))
    } else if w.hash.is_none() {
        Some(QuorumError::Serialization(WireField::NodeHash))
    } else if label_error(w.label.unwrap()).is_some() {
        Some(QuorumError::Serialization(label_error(w.label.unwrap()).unwrap()))
    } else if w.hash.unwrap()@.len() != DIGEST_LEN {
        Some(QuorumError::MalformedDigest(WireField::NodeHash))
    } else {
        None
    }
}

/// Why the first node of `s[i..]` that does not decode fails, if one does not.
pub open spec fn nodes_error_from(s: Seq<WireNode>, i: int) -> Option<QuorumError>
    decreases s.len() - i,
{
    if i < 0 || i >= s.len() {
        None
    } else if node_error(s[i]).is_some() {
        node_error(s[i])
    } else {
        nodes_error_from(s, i + 1)
    }
}

/// Why a proof does not decode: inserted nodes come before unchanged ones.
pub open spec fn proof_error(w: WireAppendOnlyProof) -> Option<QuorumError> {
    if nodes_error_from(w.inserted@, 0).is_some() {
        nodes_error_from(w.inserted@, 0)
    } else {
        nodes_error_from(w.unchanged@, 0)
    }
}

/// Every node of `s` carries a digest of the digest's size.
pub open spec fn nodes_digests_ok(s: Seq<TreeNode>) -> bool {
    forall|i: int| 0 <= i < s.len() ==> (#[trigger] s[i]).hash@.len() == DIGEST_LEN
}

/// Every node of `p` carries a digest of the digest's size.
pub open spec fn proof_digests_ok(p: AppendOnlyProof) -> bool {
    nodes_digests_ok(p.inserted@) && nodes_digests_ok(p.unchanged@)
}

/// Every digest of `r` has the digest's size.
pub open spec fn request_digests_ok(r: VerifyRequest) -> bool {
    &&& r.new_hash@.len() == DIGEST_LEN
    &&& r.previous_hash@.len() == DIGEST_LEN
    &&& proof_digests_ok(r.proof)
}

/// `n` is the decoding of the complete wire node `w`.
pub open spec fn node_decodes_to(w: WireNode, n: TreeNode) -> bool {
    &&& w.label == Some(WireNodeLabel { len: Some(n.label.len), val: Some(n.label.val) })
    &&& w.hash.is_some()
    &&& w.hash.unwrap()@ == n.hash@
}

/// Each wire node of `w` decodes to the node at the same place in `n`.
pub open spec fn nodes_decode_to(w: Seq<WireNode>, n: Seq<TreeNode>) -> bool {
    &&& w.len() == n.len()
    &&& forall|i: int| 0 <= i < w.len() ==> #[trigger] node_decodes_to(w[i], n[i])
}

/// `p` is the decoding of the complete wire proof `w`.
pub open spec fn proof_decodes_to(w: WireAppendOnlyProof, p: AppendOnlyProof) -> bool {
    nodes_decode_to(w.inserted@, p.inserted@) && nodes_decode_to(w.unchanged@, p.unchanged@)
}

/// Why a wire request does not decode: epoch, hashes and proof must be
/// present, then the proof must decode, then each hash must have a digest's
/// size.
pub open spec fn request_error(w: WireVerifyRequest) -> Option<QuorumError> {
    if w.epoch.is_none() {
        Some(QuorumError::Serialization(WireField::Epoch))
    } else if w.new_hash.is_none() {
        Some(QuorumError::Serialization(WireField::NewHash))
    } else if w.previous_hash.is_none() {
        Some(QuorumError::Serialization(WireField::PreviousHash))
    } else if w.proof.is_none() {
        Some(QuorumError::Serialization(WireField::Proof))
    } else if proof_error(w.proof.unwrap()).is_some() {
        proof_error(w.proof.unwrap())
    } else if w.new_hash.unwrap()@.len() != DIGEST_LEN {
        Some(QuorumError::MalformedDigest(WireField::NewHash))
    } else if w.previous_hash.unwrap()@.len() != DIGEST_LEN {
        Some(QuorumError::MalformedDigest(WireField::PreviousHash))
    } else {
        None
    }
}

/// `r` is the decoding of the complete wire request `w`.
pub open spec fn request_decodes_to(w: WireVerifyRequest, r: VerifyRequest) -> bool {
    &&& w.epoch == Some(r.epoch)
    &&& w.new_hash.is_some() && w.new_hash.unwrap()@ == r.new_hash@
    &&& w.previous_hash.is_some() && w.previous_hash.unwrap()@ == r.previous_hash@
    &&& w.proof.is_some() && proof_decodes_to(w.proof.unwrap(), r.proof)
}

/// Reads a label, naming the first missing field.
pub fn decode_node_label(w: &WireNodeLabel) -> (r: Result<NodeLabel, QuorumError>)
    ensures
        label_error(*w).is_some() ==> r == Err::<NodeLabel, QuorumError>(
            QuorumError::Serialization(label_error(*w).unwrap()),
        ),
        label_error(*w).is_none() ==> r == Ok::<NodeLabel, QuorumError>(
            NodeLabel { len: w.len.unwrap(), val: w.val.unwrap() },
        ),
{
    match (w.len, w.val) {
        (None, _) => Err(QuorumError::Serialization(WireField::LabelLen)),
        (Some(_), None) => Err(QuorumError::Serialization(WireField::LabelVal)),
        (Some(len), Some(val)) => Ok(NodeLabel { len, val }),
    }
}

/// Writes a label with both of its fields.
pub fn encode_node_label(l: NodeLabel) -> (r: WireNodeLabel)
    ensures
        r == (WireNodeLabel { len: Some(l.len), val: Some(l.val) }),
{
    WireNodeLabel { len: Some(l.len), val: Some(l.val) }
}

/// Reads a tree node, naming the first missing field.
pub fn decode_node(w: &WireNode) -> (r: Result<TreeNode, QuorumError>)
    ensures
        node_error(*w).is_some() ==> r == Err::<TreeNode, QuorumError>(node_error(*w).unwrap()),
        node_error(*w).is_none() ==> r is Ok && node_decodes_to(*w, r->Ok_0),
{
    let label = match &w.label {
        None => { return Err(QuorumError::Serialization(WireField::NodeLabel)); },
        Some(l) => l,
    };
    let hash = match &w.hash {
        None => { return Err(QuorumError::Serialization(WireField::NodeHash)); },
        Some(h) => h,
    };
    let label = decode_node_label(label)?;
    let hash = decode_digest(hash, WireField::NodeHash)?;
    Ok(TreeNode { label, hash })
}

/// Writes a tree node with all of its fields.
pub fn encode_node(n: &TreeNode) -> (r: WireNode)
    ensures
        node_decodes_to(r, *n),
        node_error(r).is_none() <==> n.hash@.len() == DIGEST_LEN,
{
    WireNode { label: Some(encode_node_label(n.label)), hash: Some(copy_bytes(&n.hash)) }
}

fn decode_nodes(w: &Vec<WireNode>) -> (r: Result<Vec<TreeNode>, QuorumError>)
    ensures
        nodes_error_from(w@, 0).is_some() ==> r == Err::<Vec<TreeNode>, QuorumError>(
            nodes_error_from(w@, 0).unwrap(),
        ),
        nodes_error_from(w@, 0).is_none() ==> r is Ok && nodes_decode_to(w@, r->Ok_0@),
{
    let mut out: Vec<TreeNode> = Vec::new();
    let mut i: usize = 0;
    while i < w.len()
        invariant
            0 <= i <= w@.len(),
            nodes_error_from(w@, 0) == nodes_error_from(w@, i as int),
            out@.len() == i,
            forall|j: int| 0 <= j < i ==> #[trigger] node_decodes_to(w@[j], out@[j]),
        decreases w@.len() - i,
    {
        let n = decode_node(&w[i])?;
        out.push(n);
        i = i + 1;
    }
    Ok(out)
}

fn encode_nodes(n: &Vec<TreeNode>) -> (r: Vec<WireNode>)
    ensures
        nodes_decode_to(r@, n@),
        nodes_error_from(r@, 0).is_none() <==> nodes_digests_ok(n@),
{
    let mut out: Vec<WireNode> = Vec::new();
    let mut i: usize = 0;
    while i < n.len()
        invariant
            0 <= i <= n@.len(),
            out@.len() == i,
            forall|j: int| 0 <= j < i ==> #[trigger] node_decodes_to(out@[j], n@[j]),
            forall|j: int| 0 <= j < i ==> (#[trigger] node_error(out@[j])).is_none() == (n@[j].hash@.len() == DIGEST_LEN),
        decreases n@.len() - i,
    {
        out.push(encode_node(&n[i]));
        i = i + 1;
    }
    proof {
        if nodes_digests_ok(n@) {
            lemma_no_error_from(out@, 0);
        }
        if nodes_error_from(out@, 0).is_none() {
            lemma_error_free_from(out@, 0);
            assert forall|j: int| 0 <= j < n@.len() implies (#[trigger] n@[j]).hash@.len() == DIGEST_LEN by {
                assert(node_error(out@[j]).is_none());
            }
        }
    }
    out
}

proof fn lemma_error_free_from(s: Seq<WireNode>, i: int)
    requires
        0 <= i,
        nodes_error_from(s, i).is_none(),
    ensures
        forall|j: int| i <= j < s.len() ==> (#[trigger] node_error(s[j])).is_none(),
    decreases s.len() - i,
{
    if i < s.len() {
        lemma_error_free_from(s, i + 1);
    }
}

proof fn lemma_no_error_from(s: Seq<WireNode>, i: int)
    requires
        0 <= i,
        forall|j: int| 0 <= j < s.len() ==> (#[trigger] node_error(s[j])).is_none(),
    ensures
        nodes_error_from(s, i).is_none(),
    decreases s.len() - i,
{
    if i < s.len() {
        lemma_no_error_from(s, i + 1);
    }
}

/// Reads an append-only proof; the first incomplete node, inserted ones
/// first, names the error.
pub fn decode_append_only_proof(w: &WireAppendOnlyProof) -> (r: Result<
    AppendOnlyProof,
    QuorumError,
>)
    ensures
        proof_error(*w).is_some() ==> r == Err::<AppendOnlyProof, QuorumError>(proof_error(*w).unwrap()),
        proof_error(*w).is_none() ==> r is Ok && proof_decodes_to(*w, r->Ok_0),
{
    let inserted = decode_nodes(&w.inserted)?;
    let unchanged = decode_nodes(&w.unchanged)?;
    Ok(AppendOnlyProof { inserted, unchanged })
}

/// Writes an append-only proof, keeping the order of both node sequences.
pub fn encode_append_only_proof(p: &AppendOnlyProof) -> (r: WireAppendOnlyProof)
    ensures
        proof_decodes_to(r, *p),
        proof_error(r).is_none() <==> proof_digests_ok(*p),
{
    WireAppendOnlyProof { inserted: encode_nodes(&p.inserted), unchanged: encode_nodes(&p.unchanged) }
}

/// Reads a verification request. Epoch, both hashes and the proof are
/// required; the first one missing names the error.
pub fn decode_verify_request(w: &WireVerifyRequest) -> (r: Result<VerifyRequest, QuorumError>)
    ensures
        request_error(*w).is_some() ==> r == Err::<VerifyRequest, QuorumError>(request_error(*w).unwrap()),
        request_error(*w).is_none() ==> r is Ok && request_decodes_to(*w, r->Ok_0),
{
    let epoch = match w.epoch {
        None => { return Err(QuorumError::Serialization(WireField::Epoch)); },
        Some(e) => e,
    };
    let new_hash = match &w.new_hash {
        None => { return Err(QuorumError::Serialization(WireField::NewHash)); },
        Some(h) => h,
    };
    let previous_hash = match &w.previous_hash {
        None => { return Err(QuorumError::Serialization(WireField::PreviousHash)); },
        Some(h) => h,
    };
    let sent = &w.proof;
    let wire_proof = match sent {
        None => { return Err(QuorumError::Serialization(WireField::Proof)); },
        Some(p) => p,
    };
    let decoded = decode_append_only_proof(wire_proof)?;
    let new_hash = decode_digest(new_hash, WireField::NewHash)?;
    let previous_hash = decode_digest(previous_hash, WireField::PreviousHash)?;
    Ok(VerifyRequest { epoch, new_hash, previous_hash, proof: decoded })
}

/// Writes a verification request with all of its fields.
pub fn encode_verify_request(req: &VerifyRequest) -> (r: WireVerifyRequest)
    ensures
        request_decodes_to(r, *req),
        request_error(r).is_none() <==> request_digests_ok(*req),
{
    WireVerifyRequest {
        epoch: Some(req.epoch),
        new_hash: Some(copy_bytes(&req.new_hash)),
        previous_hash: Some(copy_bytes(&req.previous_hash)),
        proof: Some(encode_append_only_proof(&req.proof)),
    }
}

/// Reads a verification response. Only when both the hash and the shard are
/// present is it affirmative, and then the hash must have a digest's size;
/// any other combination reads as a failed verification, with both fields
/// absent.
pub fn decode_verify_response(w: &WireVerifyResponse) -> (r: Result<VerifyResponse, QuorumError>)
    ensures
        r is Ok ==> r.unwrap().wf(),
        (w.verified_hash.is_some() && w.encrypted_quorum_key_shard.is_some()) ==> if w.verified_hash.unwrap()@.len()
            == DIGEST_LEN {
            &&& r is Ok
            &&& r.unwrap().verified_hash.is_some()
            &&& r.unwrap().verified_hash.unwrap()@ == w.verified_hash.unwrap()@
            &&& r.unwrap().shard.is_some()
            &&& r.unwrap().shard.unwrap()@ == w.encrypted_quorum_key_shard.unwrap()@
        } else {
            r == Err::<VerifyResponse, QuorumError>(QuorumError::MalformedDigest(WireField::VerifiedHash))
        },
        !(w.verified_hash.is_some() && w.encrypted_quorum_key_shard.is_some()) ==> (r is Ok
            && r.unwrap().verified_hash.is_none() && r.unwrap().shard.is_none()),
{
    match (&w.verified_hash, &w.encrypted_quorum_key_shard) {
        (Some(h), Some(s)) => {
            let hash = decode_digest(h, WireField::VerifiedHash)?;
            Ok(VerifyResponse::verified(hash, copy_bytes(s)))
        },
        _ => Ok(VerifyResponse::failed()),
    }
}

/// Writes a verification response: an affirmative one with both fields, any
/// other with neither.
pub fn encode_verify_response(resp: &VerifyResponse) -> (r: WireVerifyResponse)
    ensures
        (resp.verified_hash.is_some() && resp.shard.is_some()) ==> {
            &&& r.verified_hash.is_some() && r.verified_hash.unwrap()@
                == resp.verified_hash.unwrap()@
            &&& r.encrypted_quorum_key_shard.is_some() && r.encrypted_quorum_key_shard.unwrap()@
                == resp.shard.unwrap()@
        },
        !(resp.verified_hash.is_some() && resp.shard.is_some()) ==> (r.verified_hash.is_none()
            && r.encrypted_quorum_key_shard.is_none()),
{
    match (&resp.verified_hash, &resp.shard) {
        (Some(h), Some(s)) => WireVerifyResponse {
            verified_hash: Some(copy_bytes(h)),
            encrypted_quorum_key_shard: Some(copy_bytes(s)),
        },
        _ => WireVerifyResponse { verified_hash: None, encrypted_quorum_key_shard: None },
    }
}

} // verus!
