use dabdub_contracts::reconciliation::{MerkleProofNode, ReconciliationContract, ReconciliationError};
use soroban_sdk::{Bytes, Env};

const ADMIN: u64 = 1;

fn setup_env() -> (Env, ReconciliationContract, u64) {
    let env = Env::default();
    (env, ReconciliationContract::new(ADMIN), ADMIN)
}

fn make_id(seed: u8) -> [u8; 32] {
    [seed; 32]
}

fn hash_leaf(env: &Env, payment_id: &[u8; 32]) -> [u8; 32] {
    env.crypto().sha256(&Bytes::from_slice(env, payment_id)).to_array()
}

fn hash_pair(env: &Env, left: &[u8; 32], right: &[u8; 32]) -> [u8; 32] {
    let mut combined = [0u8; 64];
    combined[..32].copy_from_slice(left);
    combined[32..].copy_from_slice(right);
    env.crypto().sha256(&Bytes::from_slice(env, &combined)).to_array()
}

/// Builds a two-leaf tree and returns `(root, proof_for_a)`.
fn two_leaf_tree(env: &Env, a: &[u8; 32], b: &[u8; 32]) -> ([u8; 32], Vec<MerkleProofNode>) {
    let leaf_a = hash_leaf(env, a);
    let leaf_b = hash_leaf(env, b);
    let root = hash_pair(env, &leaf_a, &leaf_b);
    let proof = vec![MerkleProofNode { sibling: leaf_b, is_left: false }];
    (root, proof)
}

#[test]
fn test_admin_can_submit_merkle_root_and_store_batch() {
    let (env, mut client, admin) = setup_env();
    let payment_a = make_id(1);
    let payment_b = make_id(2);
    let root = hash_pair(&env, &hash_leaf(&env, &payment_a), &hash_leaf(&env, &payment_b));

    client.submit_merkle_root(admin, root, 1_710_000_000, 50).unwrap();
    let batch = client.get_current_batch().unwrap();

    assert_eq!(batch.merkle_root, root);
    assert_eq!(batch.submitted_ledger, 50);
    assert_eq!(batch.submitted_at, 1_710_000_000);
}

#[test]
fn test_verify_settlement_valid_proof_returns_no_mismatch() {
    let (env, mut client, admin) = setup_env();
    let payment_a = make_id(10);
    let payment_b = make_id(20);
    let leaf_a = hash_leaf(&env, &payment_a);
    let leaf_b = hash_leaf(&env, &payment_b);
    let root = hash_pair(&env, &leaf_a, &leaf_b);
    client.submit_merkle_root(admin, root, 0, 0).unwrap();

    let proof = vec![MerkleProofNode { sibling: leaf_b, is_left: false }];
    let mismatch = client.verify_settlement(&env, &payment_a, &proof).unwrap();
    assert!(!mismatch);
}

#[test]
fn test_verify_settlement_invalid_proof_returns_mismatch() {
    let (env, mut client, admin) = setup_env();
    let payment_a = make_id(11);
    let payment_b = make_id(22);
    let wrong = make_id(99);
    let leaf_a = hash_leaf(&env, &payment_a);
    let leaf_b = hash_leaf(&env, &payment_b);
    let wrong_leaf = hash_leaf(&env, &wrong);
    let root = hash_pair(&env, &leaf_a, &leaf_b);
    client.submit_merkle_root(admin, root, 0, 0).unwrap();

    let invalid_proof = vec![MerkleProofNode { sibling: wrong_leaf, is_left: false }];
    let mismatch = client.verify_settlement(&env, &payment_a, &invalid_proof).unwrap();
    assert!(mismatch);
}

#[test]
#[should_panic(expected = "Not admin")]
fn test_non_admin_cannot_submit_merkle_root() {
    let (_env, mut client, _admin) = setup_env();
    let random = 77;
    let root = make_id(42);
    if let Err(e) = client.submit_merkle_root(random, root, 0, 0) {
        panic!("{}", e.message());
    }
}

#[test]
fn test_submit_emits_reconciliation_submitted_event() {
    let (_env, mut client, admin) = setup_env();
    let root = make_id(7);
    let batch_id = client.submit_merkle_root(admin, root, 1_720_000_000, 77).unwrap();

    let topic = ReconciliationContract::submitted_event_topic();
    assert_eq!(topic, ("RECONCILIATION", "submitted"));

    let payload = client.submitted_event(batch_id).unwrap();
    assert_eq!(payload.merkle_root, root);
    assert_eq!(payload.submitted_ledger, 77);
    assert_eq!(payload.submitted_at, 1_720_000_000);
    // The ID is what an indexer needs to ask for this root again later.
    assert_eq!(payload.batch_id, 0);
}

#[test]
fn test_submit_returns_incrementing_batch_ids() {
    let (_env, mut client, admin) = setup_env();
    assert_eq!(client.batch_count(), 0);
    assert_eq!(client.submit_merkle_root(admin, make_id(1), 0, 0).unwrap(), 0);
    assert_eq!(client.submit_merkle_root(admin, make_id(2), 0, 0).unwrap(), 1);
    assert_eq!(client.submit_merkle_root(admin, make_id(3), 0, 0).unwrap(), 2);
    assert_eq!(client.batch_count(), 3);
}

#[test]
fn test_every_submitted_batch_is_retained() {
    let (_env, mut client, admin) = setup_env();
    let first = make_id(1);
    let second = make_id(2);
    client.submit_merkle_root(admin, first, 0, 0).unwrap();
    client.submit_merkle_root(admin, second, 0, 0).unwrap();

    assert_eq!(client.get_batch(0).unwrap().merkle_root, first);
    assert_eq!(client.get_batch(1).unwrap().merkle_root, second);
}

#[test]
fn test_old_proof_still_verifies_after_a_newer_batch_lands() {
    let (env, mut client, admin) = setup_env();
    let payment_a = make_id(10);
    let payment_b = make_id(20);
    let (root, proof) = two_leaf_tree(&env, &payment_a, &payment_b);

    let batch_id = client.submit_merkle_root(admin, root, 0, 0).unwrap();
    client.submit_merkle_root(admin, make_id(99), 0, 0).unwrap();

    assert!(client.verify_settlement_proof(&env, batch_id, &payment_a, &proof).unwrap());
    assert!(client.verify_settlement(&env, &payment_a, &proof).unwrap());
}

#[test]
fn test_verify_settlement_proof_returns_true_for_a_valid_proof() {
    let (env, mut client, admin) = setup_env();
    let payment_a = make_id(30);
    let payment_b = make_id(40);
    let (root, proof) = two_leaf_tree(&env, &payment_a, &payment_b);
    let batch_id = client.submit_merkle_root(admin, root, 0, 0).unwrap();

    assert!(client.verify_settlement_proof(&env, batch_id, &payment_a, &proof).unwrap());
}

#[test]
fn test_verify_settlement_proof_returns_false_for_an_invalid_proof() {
    let (env, mut client, admin) = setup_env();
    let payment_a = make_id(31);
    let payment_b = make_id(41);
    let (root, _) = two_leaf_tree(&env, &payment_a, &payment_b);
    let batch_id = client.submit_merkle_root(admin, root, 0, 0).unwrap();

    let bogus = vec![MerkleProofNode { sibling: hash_leaf(&env, &make_id(99)), is_left: false }];
    assert!(!client.verify_settlement_proof(&env, batch_id, &payment_a, &bogus).unwrap());
}

#[test]
#[should_panic(expected = "No reconciliation batch with that ID")]
fn test_verify_settlement_proof_panics_for_an_unknown_batch() {
    let (env, mut client, admin) = setup_env();
    let payment_a = make_id(50);
    let payment_b = make_id(60);
    let (root, proof) = two_leaf_tree(&env, &payment_a, &payment_b);
    client.submit_merkle_root(admin, root, 0, 0).unwrap();

    if let Err(e) = client.verify_settlement_proof(&env, 7, &payment_a, &proof) {
        panic!("{}", e.message());
    }
}

#[test]
fn test_get_latest_stored_batch_reports_the_newest_id() {
    let (_env, mut client, admin) = setup_env();
    assert!(client.get_latest_stored_batch().is_none());

    client.submit_merkle_root(admin, make_id(1), 0, 0).unwrap();
    let newest = make_id(2);
    client.submit_merkle_root(admin, newest, 0, 0).unwrap();

    let stored = client.get_latest_stored_batch().unwrap();
    assert_eq!(stored.batch_id, 1);
    assert_eq!(stored.batch.merkle_root, newest);
}

#[test]
fn test_get_batch_returns_none_for_an_unknown_id() {
    let (_env, client, _admin) = setup_env();
    assert!(client.get_batch(0).is_none());
}

#[test]
fn test_current_batch_still_tracks_the_latest_submission() {
    let (_env, mut client, admin) = setup_env();
    client.submit_merkle_root(admin, make_id(1), 0, 0).unwrap();
    let newest = make_id(2);
    client.submit_merkle_root(admin, newest, 0, 0).unwrap();
    assert_eq!(client.get_current_batch().unwrap().merkle_root, newest);
}

#[test]
fn test_hashes_match_the_host() {
    let (env, _client, _admin) = setup_env();
    let a = make_id(3);
    let b = make_id(4);
    assert_eq!(ReconciliationContract::hash_leaf(&env, &a), hash_leaf(&env, &a));
    assert_ne!(ReconciliationContract::hash_leaf(&env, &a), a);
    assert_eq!(ReconciliationContract::hash_pair(&env, &a, &b), hash_pair(&env, &a, &b));
    assert_ne!(ReconciliationContract::hash_pair(&env, &a, &b), hash_pair(&env, &b, &a));
}

#[test]
fn test_compute_root_walks_left_and_right_siblings() {
    let (env, _client, _admin) = setup_env();
    let p = make_id(5);
    let s1 = make_id(6);
    let s2 = make_id(7);
    let proof = vec![
        MerkleProofNode { sibling: s1, is_left: true },
        MerkleProofNode { sibling: s2, is_left: false },
    ];
    let level1 = hash_pair(&env, &s1, &hash_leaf(&env, &p));
    let expected = hash_pair(&env, &level1, &s2);
    assert_eq!(ReconciliationContract::compute_root(&env, &p, &proof), expected);
    assert_eq!(ReconciliationContract::compute_root(&env, &p, &vec![]), hash_leaf(&env, &p));
}

#[test]
fn test_root_comparisons_and_errors() {
    let (env, mut client, admin) = setup_env();
    let p = make_id(8);
    assert_eq!(client.verify_settlement(&env, &p, &vec![]), Err(ReconciliationError::NoBatchSubmitted));
    assert_eq!(client.root_differs_from_current(&make_id(1)), Err(ReconciliationError::NoBatchSubmitted));
    let leaf = hash_leaf(&env, &p);
    client.submit_merkle_root(admin, leaf, 0, 0).unwrap();
    assert_eq!(client.root_matches_batch(0, &leaf), Ok(true));
    assert_eq!(client.root_matches_batch(0, &make_id(1)), Ok(false));
    assert_eq!(client.root_matches_batch(1, &leaf), Err(ReconciliationError::UnknownBatch));
    assert_eq!(client.root_differs_from_current(&leaf), Ok(false));
    assert_eq!(client.verify_settlement_proof(&env, 0, &p, &vec![]), Ok(true));
    assert_eq!(client.submit_merkle_root(2, leaf, 0, 0), Err(ReconciliationError::NotAdmin));
    assert_eq!(client.batch_count(), 1);
}
