use akd_quorum::messages::{AppendOnlyProof, NodeLabel, QuorumError, TreeNode, VerifyRequest, VerifyResponse, WireField};
use akd_quorum::wire::{
    decode_append_only_proof, decode_node, decode_node_label, decode_verify_request,
    decode_verify_response, encode_append_only_proof, encode_node, encode_verify_request,
    encode_verify_response, WireAppendOnlyProof, WireNode, WireNodeLabel, WireVerifyRequest,
    WireVerifyResponse,
};

fn wire_node(len: Option<u32>, val: Option<u64>, hash: Option<Vec<u8>>) -> WireNode {
    WireNode { label: Some(WireNodeLabel { len, val }), hash }
}

#[test]
fn response_needs_both_fields() {
    let cases = [
        (None, None),
        (Some(vec![1u8; 32]), None),
        (None, Some(vec![2u8])),
    ];
    for (h, s) in cases {
        let r = decode_verify_response(&WireVerifyResponse { verified_hash: h, encrypted_quorum_key_shard: s }).unwrap();
        assert_eq!(r.verified_hash, None);
        assert_eq!(r.shard, None);
        assert!(!r.affirmative());
    }
    let r = decode_verify_response(&WireVerifyResponse {
        verified_hash: Some(vec![1u8; 32]),
        encrypted_quorum_key_shard: Some(vec![2u8, 3]),
    })
    .unwrap();
    assert_eq!(r.verified_hash, Some(vec![1u8; 32]));
    assert_eq!(r.shard, Some(vec![2u8, 3]));
}

#[test]
fn response_hash_must_be_a_digest() {
    let r = decode_verify_response(&WireVerifyResponse {
        verified_hash: Some(vec![1u8; 20]),
        encrypted_quorum_key_shard: Some(vec![2u8]),
    });
    assert!(matches!(r, Err(QuorumError::MalformedDigest(WireField::VerifiedHash))));
}

#[test]
fn response_encoding() {
    let w = encode_verify_response(&VerifyResponse::verified(vec![4u8], vec![5u8]));
    assert_eq!(w.verified_hash, Some(vec![4u8]));
    assert_eq!(w.encrypted_quorum_key_shard, Some(vec![5u8]));
    let partial = VerifyResponse { verified_hash: Some(vec![4u8]), shard: None };
    let w = encode_verify_response(&partial);
    assert_eq!(w.verified_hash, None);
    assert_eq!(w.encrypted_quorum_key_shard, None);
}

#[test]
fn label_fields_required() {
    let err = |f| Err(QuorumError::Serialization(f));
    assert_eq!(decode_node_label(&WireNodeLabel { len: None, val: Some(1) }), err(WireField::LabelLen));
    assert_eq!(decode_node_label(&WireNodeLabel { len: None, val: None }), err(WireField::LabelLen));
    assert_eq!(decode_node_label(&WireNodeLabel { len: Some(2), val: None }), err(WireField::LabelVal));
    assert_eq!(decode_node_label(&WireNodeLabel { len: Some(2), val: Some(9) }), Ok(NodeLabel { len: 2, val: 9 }));
}

#[test]
fn node_fields_required() {
    let missing = |w: &WireNode| match decode_node(w) {
        Err(QuorumError::Serialization(f)) => Some(f),
        _ => None,
    };
    assert_eq!(missing(&WireNode { label: None, hash: None }), Some(WireField::NodeLabel));
    assert_eq!(missing(&wire_node(None, Some(1), None)), Some(WireField::NodeHash));
    assert_eq!(missing(&wire_node(None, Some(1), Some(vec![1]))), Some(WireField::LabelLen));
    assert!(matches!(
        decode_node(&wire_node(Some(4), Some(12), Some(vec![6u8; 31]))),
        Err(QuorumError::MalformedDigest(WireField::NodeHash))
    ));
    let n = decode_node(&wire_node(Some(4), Some(12), Some(vec![6u8; 32]))).unwrap();
    assert_eq!(n.label, NodeLabel { len: 4, val: 12 });
    assert_eq!(n.hash, vec![6u8; 32]);
}

#[test]
fn proof_reports_first_incomplete_node() {
    let good = wire_node(Some(1), Some(1), Some(vec![1u8; 32]));
    let w = WireAppendOnlyProof {
        inserted: vec![good.clone(), wire_node(Some(1), None, Some(vec![1]))],
        unchanged: vec![WireNode { label: None, hash: None }],
    };
    assert!(matches!(decode_append_only_proof(&w), Err(QuorumError::Serialization(WireField::LabelVal))));
    let w = WireAppendOnlyProof { inserted: vec![good.clone()], unchanged: vec![good.clone(), wire_node(Some(1), Some(1), None)] };
    assert!(matches!(decode_append_only_proof(&w), Err(QuorumError::Serialization(WireField::NodeHash))));
    let w = WireAppendOnlyProof { inserted: vec![], unchanged: vec![good] };
    let p = decode_append_only_proof(&w).unwrap();
    assert_eq!(p.inserted.len(), 0);
    assert_eq!(p.unchanged.len(), 1);
}

fn sample_request() -> VerifyRequest {
    VerifyRequest {
        epoch: 10,
        new_hash: vec![1u8; 32],
        previous_hash: vec![0u8; 32],
        proof: AppendOnlyProof {
            inserted: vec![
                TreeNode { label: NodeLabel { len: 2, val: 3 }, hash: vec![3u8; 32] },
                TreeNode { label: NodeLabel { len: 5, val: 17 }, hash: vec![4u8; 32] },
            ],
            unchanged: vec![TreeNode { label: NodeLabel { len: 0, val: 0 }, hash: vec![9u8; 32] }],
        },
    }
}

#[test]
fn request_round_trip() {
    let req = sample_request();
    let w = encode_verify_request(&req);
    assert_eq!(w.epoch, Some(10));
    let back = decode_verify_request(&w).unwrap();
    assert_eq!(back.epoch, 10);
    assert_eq!(back.new_hash, req.new_hash);
    assert_eq!(back.previous_hash, req.previous_hash);
    assert_eq!(back.proof.inserted.len(), 2);
    assert_eq!(back.proof.inserted[1].label, NodeLabel { len: 5, val: 17 });
    assert_eq!(back.proof.inserted[1].hash, vec![4u8; 32]);
    assert_eq!(back.proof.unchanged[0].hash, vec![9u8; 32]);
    let wn = encode_node(&req.proof.unchanged[0]);
    assert_eq!(wn.label, Some(WireNodeLabel { len: Some(0), val: Some(0) }));
    let wp = encode_append_only_proof(&req.proof);
    assert_eq!(wp.inserted.len(), 2);
}

#[test]
fn request_fields_required() {
    let full = encode_verify_request(&sample_request());
    let missing = |w: &WireVerifyRequest| match decode_verify_request(w) {
        Err(QuorumError::Serialization(f)) => Some(f),
        _ => None,
    };
    let mut w = full.clone();
    w.epoch = None;
    w.new_hash = None;
    assert_eq!(missing(&w), Some(WireField::Epoch));
    let mut w = full.clone();
    w.new_hash = None;
    assert_eq!(missing(&w), Some(WireField::NewHash));
    let mut w = full.clone();
    w.previous_hash = None;
    assert_eq!(missing(&w), Some(WireField::PreviousHash));
    let mut w = full.clone();
    w.new_hash = Some(vec![1u8; 33]);
    assert!(matches!(decode_verify_request(&w), Err(QuorumError::MalformedDigest(WireField::NewHash))));
    let mut w = full.clone();
    w.previous_hash = Some(vec![]);
    assert!(matches!(decode_verify_request(&w), Err(QuorumError::MalformedDigest(WireField::PreviousHash))));
    let mut w = full.clone();
    w.new_hash = Some(vec![1u8; 33]);
    w.proof.as_mut().unwrap().unchanged[0].label = None;
    assert_eq!(missing(&w), Some(WireField::NodeLabel));
    let mut w = full.clone();
    w.proof = None;
    assert_eq!(missing(&w), Some(WireField::Proof));
    w.new_hash = Some(vec![1u8; 3]);
    assert_eq!(missing(&w), Some(WireField::Proof));
    let mut w = full.clone();
    w.proof = Some(WireAppendOnlyProof { inserted: vec![], unchanged: vec![] });
    let r = decode_verify_request(&w).unwrap();
    assert_eq!(r.proof.inserted.len() + r.proof.unchanged.len(), 0);
}
