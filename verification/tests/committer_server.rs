use randcast_node::address::{address_to_string, Address};
use randcast_node::bls::{BLSCore, MockBLSCore};
use randcast_node::committer::{commit_partial_signature, MockCommitterClient};
use randcast_node::errors::NodeError;
use randcast_node::group::{Group, Member};
use randcast_node::sig_cache::InMemorySignatureResultCache;
use randcast_node::types::TaskType;

fn addr(byte: u8) -> Address {
    Address::new(vec![byte; 20]).unwrap()
}

fn member(byte: u8, index: u32, public_key: &[u8]) -> Member {
    Member {
        id_address: addr(byte),
        index,
        rpc_endpoint: format!("127.0.0.1:50{}", index),
        partial_public_key: public_key.to_vec(),
    }
}

/// A DKG-complete group of three where, as the mock backend has it,
/// every share and partial public key equals the group public key.
fn group_of_three(committers: Vec<Address>) -> Group {
    let pk = b"group-public-key".to_vec();
    Group {
        index: 0,
        epoch: 1,
        size: 3,
        threshold: 3,
        state: true,
        public_key: pk.clone(),
        members: vec![member(1, 0, &pk), member(2, 1, &pk), member(3, 2, &pk)],
        committers,
        share: Some(pk),
    }
}

fn honest_request(sender: u8, group: &Group, task_index: u64) -> randcast_node::committer::CommitPartialSignatureRequest {
    let bls = MockBLSCore {};
    let message = vec![0xde, 0xad, 0xbe, 0xef];
    let partial = bls.partial_sign(group.share.as_ref().unwrap(), &message);
    let client = MockCommitterClient::new(addr(sender), "127.0.0.1:5000".to_string());
    client.commit_partial_signature_request(10, TaskType::Randomness, message, task_index, partial)
}

#[test]
fn server_accepts_honest_partial() {
    let bls = MockBLSCore {};
    let group = group_of_three(vec![addr(1)]);
    let mut cache = InMemorySignatureResultCache::new();
    let req = honest_request(2, &group, 7);
    let reply = commit_partial_signature(&bls, &addr(1), &group, &mut cache, &req).unwrap();
    assert!(reply.result);
    assert!(cache.contains(7));
}

#[test]
fn server_rejects_non_committer_receiver() {
    // the receiving node is not a designated committer: rejected, no cache mutation
    let bls = MockBLSCore {};
    let group = group_of_three(vec![addr(1)]);
    let mut cache = InMemorySignatureResultCache::new();
    let req = honest_request(2, &group, 7);
    let e = commit_partial_signature(&bls, &addr(2), &group, &mut cache, &req).unwrap_err();
    assert_eq!(e, NodeError::NotCommitter);
    assert!(!cache.contains(7));
}

#[test]
fn server_rejects_incomplete_group() {
    let bls = MockBLSCore {};
    let mut group = group_of_three(vec![addr(1)]);
    group.state = false;
    let mut cache = InMemorySignatureResultCache::new();
    let req = honest_request(2, &group, 7);
    let e = commit_partial_signature(&bls, &addr(1), &group, &mut cache, &req).unwrap_err();
    assert_eq!(e, NodeError::GroupNotReady);
    assert!(!cache.contains(7));
}

#[test]
fn server_rejects_unknown_member() {
    let bls = MockBLSCore {};
    let group = group_of_three(vec![addr(1)]);
    let mut cache = InMemorySignatureResultCache::new();
    // sender 9 is no group member
    let req = honest_request(9, &group, 7);
    let e = commit_partial_signature(&bls, &addr(1), &group, &mut cache, &req).unwrap_err();
    assert_eq!(e, NodeError::MemberNotExisted);
    assert!(!cache.contains(7));
}

#[test]
fn server_rejects_unreadable_sender() {
    let bls = MockBLSCore {};
    let group = group_of_three(vec![addr(1)]);
    let mut cache = InMemorySignatureResultCache::new();
    let mut req = honest_request(2, &group, 7);
    req.id_address = "not an address".to_string();
    let e = commit_partial_signature(&bls, &addr(1), &group, &mut cache, &req).unwrap_err();
    assert_eq!(e, NodeError::InvalidAddress);
    assert!(!cache.contains(7));
}

#[test]
fn server_rejects_malformed_partial() {
    let bls = MockBLSCore {};
    let group = group_of_three(vec![addr(1)]);
    let mut cache = InMemorySignatureResultCache::new();
    let mut req = honest_request(2, &group, 7);
    req.partial_signature = vec![0xff; 3];
    let e = commit_partial_signature(&bls, &addr(1), &group, &mut cache, &req).unwrap_err();
    assert_eq!(e, NodeError::PartialSignatureVerifyFailed);
    // the entry was located before the check; it exists but holds nothing
    assert!(cache.contains(7));
    assert_eq!(cache.get_ready_to_commit_signatures().len(), 0);
}

#[test]
fn duplicate_submission_replies_true_and_changes_nothing() {
    let bls = MockBLSCore {};
    let group = group_of_three(vec![addr(1)]);
    let mut cache = InMemorySignatureResultCache::new();
    let req = honest_request(2, &group, 7);
    assert!(commit_partial_signature(&bls, &addr(1), &group, &mut cache, &req).unwrap().result);
    // same member again: reply still true, cache size unchanged
    let reply = commit_partial_signature(&bls, &addr(1), &group, &mut cache, &req).unwrap();
    assert!(reply.result);
    for sender in [1u8, 3] {
        let other = honest_request(sender, &group, 7);
        commit_partial_signature(&bls, &addr(1), &group, &mut cache, &other).unwrap();
    }
    let ready = cache.get_ready_to_commit_signatures();
    assert_eq!(ready.len(), 1);
    assert_eq!(ready[0].partials_count(), 3);
}

#[test]
fn partials_stay_within_group_bounds() {
    // every key in the cache is a member, and the count never exceeds the size
    let bls = MockBLSCore {};
    let group = group_of_three(vec![addr(1)]);
    let mut cache = InMemorySignatureResultCache::new();
    for sender in [1u8, 2, 3, 1, 2, 3] {
        let req = honest_request(sender, &group, 7);
        assert!(commit_partial_signature(&bls, &addr(1), &group, &mut cache, &req).unwrap().result);
    }
    let ready = cache.get_ready_to_commit_signatures();
    assert_eq!(ready.len(), 1);
    assert_eq!(ready[0].partials_count(), 3);
    assert!(ready[0].partials_count() <= group.size);
    for (sender, _) in ready[0].partial_signatures.iter() {
        let text = address_to_string(sender);
        assert!(group.members.iter().any(|m| address_to_string(&m.id_address) == text));
    }
}

#[test]
fn client_request_carries_canonical_fields() {
    let client = MockCommitterClient::new(addr(5), "peer:5001".to_string());
    let req = client.commit_partial_signature_request(
        3,
        TaskType::Randomness,
        vec![1, 2, 3],
        42,
        vec![9, 9],
    );
    assert_eq!(req.id_address, format!("0x{}", "05".repeat(20)));
    assert_eq!(req.chain_id, 3);
    assert_eq!(req.signature_index, 42);
    assert_eq!(req.task_type, 0);
    assert_eq!(req.message, vec![1, 2, 3]);
    assert_eq!(req.partial_signature, vec![9, 9]);
    assert_eq!(client.get_committer_endpoint(), "peer:5001");
}
