//! Settlement reconciliation: the admin submits the Merkle root of each
//! reconciliation cycle; every batch is kept under its own ID, so a proof
//! that a payment was included verifies against the batch it was made for,
//! however many batches land after it.

use vstd::prelude::*;
use std::collections::HashMap;
use crate::account::AccountId;
use crate::host::{sha256, sha256_digest, concat_bytes, digests_equal};

verus! {

broadcast use vstd::std_specs::hash::group_hash_axioms;

/// One step of a Merkle proof: the sibling digest, and whether it stands
/// on the left of the running digest.
#[derive(Clone, Copy, Debug)]
pub struct MerkleProofNode {
    pub sibling: [u8; 32],
    pub is_left: bool,
}

/// A submitted reconciliation batch.
#[derive(Clone, Copy, Debug)]
pub struct ReconciliationBatch {
    pub merkle_root: [u8; 32],
    pub submitted_at: u64,
    pub submitted_ledger: u32,
}

/// A batch together with the ID it is stored under.
#[derive(Clone, Copy, Debug)]
pub struct StoredBatch {
    pub batch_id: u32,
    pub batch: ReconciliationBatch,
}

/// The event announcing a submitted batch, with the ID an indexer needs to
/// ask for its root later.
#[derive(Clone, Copy, Debug)]
pub struct ReconciliationSubmittedEvent {
    pub merkle_root: [u8; 32],
    pub submitted_at: u64,
    pub submitted_ledger: u32,
    pub batch_id: u32,
}

/// Why a request to the reconciliation contract was refused.
#[derive(Clone, Copy, Debug, PartialEq, Eq, Structural)]
pub enum ReconciliationError {
    /// The caller is not the contract's admin.
    NotAdmin,
    /// No batch is stored under the ID asked for.
    UnknownBatch,
    /// No batch has been submitted yet.
    NoBatchSubmitted,
}

impl ReconciliationError {
    pub open spec fn spec_message(self) -> Seq<char> {
        match self {
            ReconciliationError::NotAdmin => "Not admin"@,
            ReconciliationError::UnknownBatch => "No reconciliation batch with that ID"@,
            ReconciliationError::NoBatchSubmitted => "No reconciliation batch submitted"@,
        }
    }

    /// The text the contract fails with for this refusal.
    pub fn message(&self) -> (r: &'static str)
        ensures
            r@ == self.spec_message(),
    {
        match self {
            ReconciliationError::NotAdmin => {
                proof { reveal_strlit("Not admin"); }
                "Not admin"
            },
            ReconciliationError::UnknownBatch => {
                proof { reveal_strlit("No reconciliation batch with that ID"); }
                "No reconciliation batch with that ID"
            },
            ReconciliationError::NoBatchSubmitted => {
                proof { reveal_strlit("No reconciliation batch submitted"); }
                "No reconciliation batch submitted"
            },
        }
    }
}

/// Digest of the leaf for payment `payment_id`.
pub open spec fn leaf_digest(payment_id: Seq<u8>) -> Seq<u8> {
    sha256_digest(payment_id)
}

/// Digest of an inner node with children `left` and `right`.
pub open spec fn pair_digest(left: Seq<u8>, right: Seq<u8>) -> Seq<u8> {
    sha256_digest(left + right)
}

/// The root reached by walking `proof` up from the leaf of `payment_id`.
pub open spec fn proof_root(payment_id: Seq<u8>, proof: Seq<MerkleProofNode>) -> Seq<u8>
    decreases proof.len(),
{
    if proof.len() == 0 {
        leaf_digest(payment_id)
    } else {
        let below = proof_root(payment_id, proof.drop_last());
        let node = proof.last();
        if node.is_left {
            pair_digest(node.sibling@, below)
        } else {
            pair_digest(below, node.sibling@)
        }
    }
}

/// Abstract state of the reconciliation contract: the admin, and the
/// batches submitted so far, the `i`-th stored under ID `i`.
pub struct ReconciliationState {
    pub admin: AccountId,
    pub batches: Seq<ReconciliationBatch>,
}

impl ReconciliationState {
    /// The batch stored under `batch_id`, if any.
    pub open spec fn batch(self, batch_id: u32) -> Option<ReconciliationBatch> {
        if batch_id < self.batches.len() { Some(self.batches[batch_id as int]) } else { None }
    }

    /// The most recently submitted batch, if any.
    pub open spec fn current(self) -> Option<ReconciliationBatch> {
        if self.batches.len() > 0 { Some(self.batches.last()) } else { None }
    }

    /// Outcome of verifying `proof` for `payment_id` against batch
    /// `batch_id`: whether the proof reaches that batch's root.
    pub open spec fn spec_verify_proof(self, batch_id: u32, payment_id: Seq<u8>, proof: Seq<MerkleProofNode>) -> Result<bool, ReconciliationError> {
        match self.batch(batch_id) {
            None => Err(ReconciliationError::UnknownBatch),
            Some(b) => Ok(proof_root(payment_id, proof) == b.merkle_root@),
        }
    }

    /// Outcome of the older check against the latest batch, which reports a
    /// mismatch: `true` when the proof does not reach the latest root.
    pub open spec fn spec_verify_settlement(self, payment_id: Seq<u8>, proof: Seq<MerkleProofNode>) -> Result<bool, ReconciliationError> {
        match self.current() {
            None => Err(ReconciliationError::NoBatchSubmitted),
            Some(b) => Ok(proof_root(payment_id, proof) != b.merkle_root@),
        }
    }
}

/// Outcome of `submit_merkle_root`: the ID the batch takes and the new
/// state.
pub open spec fn spec_submit(s: ReconciliationState, caller: AccountId, merkle_root: [u8; 32], submitted_at: u64, submitted_ledger: u32) -> Result<(u32, ReconciliationState), ReconciliationError> {
    if caller != s.admin {
        Err(ReconciliationError::NotAdmin)
    } else {
        Ok((s.batches.len() as u32, ReconciliationState {
            admin: s.admin,
            batches: s.batches.push(ReconciliationBatch { merkle_root, submitted_at, submitted_ledger }),
        }))
    }
}

/// The reconciliation contract's state.
pub struct ReconciliationContract {
    admin: AccountId,
    batches: HashMap<u32, ReconciliationBatch>,
    next_batch_id: u32,
    current: Option<ReconciliationBatch>,
    history: Ghost<Seq<ReconciliationBatch>>,
}

impl View for ReconciliationContract {
    type V = ReconciliationState;

    closed spec fn view(&self) -> ReconciliationState {
        ReconciliationState { admin: self.admin, batches: self.history@ }
    }
}

impl ReconciliationContract {
    /// The stored batches, the batch count and the latest-batch pointer all
    /// agree with the submission history.
    pub closed spec fn wf(&self) -> bool {
        &&& self.history@.len() == self.next_batch_id
        &&& forall|id: u32| #[trigger] self.batches@.contains_key(id) <==> id < self.next_batch_id
        &&& forall|id: u32| id < self.next_batch_id ==> #[trigger] self.batches@[id] == self.history@[id as int]
        &&& self.current == self@.current()
    }

    /// A contract administered by `admin`, with no batch yet.
    pub fn new(admin: AccountId) -> (c: Self)
        ensures
            c.wf(),
            c@.admin == admin,
            c@.batches == Seq::<ReconciliationBatch>::empty(),
    {
        ReconciliationContract {
            admin,
            batches: HashMap::new(),
            next_batch_id: 0,
            current: None,
            history: Ghost(Seq::empty()),
        }
    }

    /// The contract's admin.
    pub fn admin(&self) -> (r: AccountId)
        ensures
            r == self@.admin,
    {
        self.admin
    }

    /// Records a new batch with root `merkle_root`, submitted at time
    /// `submitted_at` in ledger `submitted_ledger`, and returns the ID it is
    /// stored under. Admin only.
    pub fn submit_merkle_root(&mut self, caller: AccountId, merkle_root: [u8; 32], submitted_at: u64, submitted_ledger: u32) -> (r: Result<u32, ReconciliationError>)
        requires
            old(self).wf(),
            caller == old(self)@.admin ==> old(self)@.batches.len() < u32::MAX,
        ensures
            final(self).wf(),
            match spec_submit(old(self)@, caller, merkle_root, submitted_at, submitted_ledger) {
                Ok((id, s)) => r == Ok::<u32, ReconciliationError>(id) && final(self)@ == s,
                Err(e) => r == Err::<u32, ReconciliationError>(e) && final(self)@ == old(self)@,
            },
    {
        if caller != self.admin {
            return Err(ReconciliationError::NotAdmin);
        }
        let batch = ReconciliationBatch { merkle_root, submitted_at, submitted_ledger };
        let batch_id = self.next_batch_id;
        self.batches.insert(batch_id, batch);
        self.current = Some(batch);
        self.next_batch_id = batch_id + 1;
        self.history = Ghost(self.history@.push(batch));
        proof {
            assert forall|id: u32| id < self.next_batch_id implies #[trigger] self.batches@[id] == self.history@[id as int] by {
                if id < batch_id {
                    assert(old(self).batches@[id] == old(self).history@[id as int]);
                }
            }
        }
        Ok(batch_id)
    }

    /// The topic the submission event is published under.
    pub fn submitted_event_topic() -> (r: (&'static str, &'static str))
        ensures
            r.0@ == "RECONCILIATION"@,
            r.1@ == "submitted"@,
    {
        proof {
            reveal_strlit("RECONCILIATION");
            reveal_strlit("submitted");
        }
        ("RECONCILIATION", "submitted")
    }

    /// The event announcing the submission of batch `batch_id`, if stored.
    pub fn submitted_event(&self, batch_id: u32) -> (r: Option<ReconciliationSubmittedEvent>)
        requires
            self.wf(),
        ensures
            r == (match self@.batch(batch_id) {
                None => None,
                Some(b) => Some(ReconciliationSubmittedEvent {
                    merkle_root: b.merkle_root,
                    submitted_at: b.submitted_at,
                    submitted_ledger: b.submitted_ledger,
                    batch_id,
                }),
            }),
    {
        match self.batches.get(&batch_id) {
            None => None,
            Some(b) => Some(ReconciliationSubmittedEvent {
                merkle_root: b.merkle_root,
                submitted_at: b.submitted_at,
                submitted_ledger: b.submitted_ledger,
                batch_id,
            }),
        }
    }

    /// Digest of the leaf for payment `payment_id`.
    pub fn hash_leaf(env: &soroban_sdk::Env, payment_id: &[u8; 32]) -> (r: [u8; 32])
        ensures
            r@ == leaf_digest(payment_id@),
    {
        sha256(env, payment_id)
    }

    /// Digest of an inner node with children `left` and `right`.
    pub fn hash_pair(env: &soroban_sdk::Env, left: &[u8; 32], right: &[u8; 32]) -> (r: [u8; 32])
        ensures
            r@ == pair_digest(left@, right@),
    {
        let combined = concat_bytes(left, right);
        sha256(env, combined.as_slice())
    }

    /// Walks `proof` up from the leaf of `payment_id` and returns the root
    /// it reaches.
    pub fn compute_root(env: &soroban_sdk::Env, payment_id: &[u8; 32], proof: &Vec<MerkleProofNode>) -> (r: [u8; 32])
        ensures
            r@ == proof_root(payment_id@, proof@),
    {
        let mut current = Self::hash_leaf(env, payment_id);
        let mut i: usize = 0;
        while i < proof.len()
            invariant
                0 <= i <= proof@.len(),
                current@ == proof_root(payment_id@, proof@.subrange(0, i as int)),
            decreases proof@.len() - i,
        {
            let node = proof[i];
            assert(proof@.subrange(0, i + 1).drop_last() =~= proof@.subrange(0, i as int));
            current = if node.is_left {
                Self::hash_pair(env, &node.sibling, &current)
            } else {
                Self::hash_pair(env, &current, &node.sibling)
            };
            i = i + 1;
        }
        assert(proof@.subrange(0, proof@.len() as int) =~= proof@);
        current
    }

    /// Whether `root` is the root of batch `batch_id`.
    pub fn root_matches_batch(&self, batch_id: u32, root: &[u8; 32]) -> (r: Result<bool, ReconciliationError>)
        requires
            self.wf(),
        ensures
            r == (match self@.batch(batch_id) {
                None => Err(ReconciliationError::UnknownBatch),
                Some(b) => Ok(root@ == b.merkle_root@),
            }),
    {
        match self.batches.get(&batch_id) {
            None => Err(ReconciliationError::UnknownBatch),
            Some(b) => Ok(digests_equal(root, &b.merkle_root)),
        }
    }

    /// Whether `root` differs from the root of the latest batch.
    pub fn root_differs_from_current(&self, root: &[u8; 32]) -> (r: Result<bool, ReconciliationError>)
        requires
            self.wf(),
        ensures
            r == (match self@.current() {
                None => Err(ReconciliationError::NoBatchSubmitted),
                Some(b) => Ok(root@ != b.merkle_root@),
            }),
    {
        match &self.current {
            None => Err(ReconciliationError::NoBatchSubmitted),
            Some(b) => Ok(!digests_equal(root, &b.merkle_root)),
        }
    }

    /// Verifies `proof` for `payment_id` against batch `batch_id`: `true`
    /// when the proof reaches that batch's root. Refused when no batch is
    /// stored under `batch_id`.
    pub fn verify_settlement_proof(&self, env: &soroban_sdk::Env, batch_id: u32, payment_id: &[u8; 32], proof: &Vec<MerkleProofNode>) -> (r: Result<bool, ReconciliationError>)
        requires
            self.wf(),
        ensures
            r == self@.spec_verify_proof(batch_id, payment_id@, proof@),
    {
        if !self.batches.contains_key(&batch_id) {
            return Err(ReconciliationError::UnknownBatch);
        }
        let root = Self::compute_root(env, payment_id, proof);
        self.root_matches_batch(batch_id, &root)
    }

    /// The older check against the latest batch only, reporting a mismatch:
    /// `true` when the proof does NOT reach the latest root. Refused when no
    /// batch has been submitted.
    pub fn verify_settlement(&self, env: &soroban_sdk::Env, payment_id: &[u8; 32], proof: &Vec<MerkleProofNode>) -> (r: Result<bool, ReconciliationError>)
        requires
            self.wf(),
        ensures
            r == self@.spec_verify_settlement(payment_id@, proof@),
    {
        if self.current.is_none() {
            return Err(ReconciliationError::NoBatchSubmitted);
        }
        let root = Self::compute_root(env, payment_id, proof);
        self.root_differs_from_current(&root)
    }

    /// The latest batch, if any.
    pub fn get_current_batch(&self) -> (r: Option<ReconciliationBatch>)
        requires
            self.wf(),
        ensures
            r == self@.current(),
    {
        self.current
    }

    /// The batch stored under `batch_id`, if any.
    pub fn get_batch(&self, batch_id: u32) -> (r: Option<ReconciliationBatch>)
        requires
            self.wf(),
        ensures
            r == self@.batch(batch_id),
    {
        match self.batches.get(&batch_id) {
            Some(b) => Some(*b),
            None => None,
        }
    }

    /// The latest batch together with its ID, if any batch was submitted.
    pub fn get_latest_stored_batch(&self) -> (r: Option<StoredBatch>)
        requires
            self.wf(),
        ensures
            self@.batches.len() == 0 ==> r.is_none(),
            self@.batches.len() > 0 ==> r == Some(StoredBatch {
                batch_id: (self@.batches.len() - 1) as u32,
                batch: self@.batches.last(),
            }),
    {
        if self.next_batch_id == 0 {
            return None;
        }
        let batch_id = self.next_batch_id - 1;
        match self.batches.get(&batch_id) {
            Some(b) => Some(StoredBatch { batch_id, batch: *b }),
            None => None,
        }
    }

    /// Number of batches submitted so far; the valid IDs are `0..count`.
    pub fn batch_count(&self) -> (r: u32)
        requires
            self.wf(),
        ensures
            r == self@.batches.len(),
    {
        self.next_batch_id
    }
}

/// Each submission takes the next ID, counting from zero, and keeps every
/// earlier batch under its ID, so a proof checked against an earlier batch
/// gives the same answer after any number of later submissions.
pub proof fn lemma_history_is_kept(s: ReconciliationState, merkle_root: [u8; 32], submitted_at: u64, submitted_ledger: u32, batch_id: u32, payment_id: Seq<u8>, proof: Seq<MerkleProofNode>)
    requires
        batch_id < s.batches.len(),
        s.batches.len() < u32::MAX,
    ensures
        spec_submit(s, s.admin, merkle_root, submitted_at, submitted_ledger) matches Ok((id, t)) && {
            &&& id == s.batches.len()
            &&& t.batches.len() == s.batches.len() + 1
            &&& t.batch(batch_id) == s.batch(batch_id)
            &&& t.spec_verify_proof(batch_id, payment_id, proof) == s.spec_verify_proof(batch_id, payment_id, proof)
        },
{
}

/// The newest submission becomes the current batch and is stored under the
/// ID returned.
pub proof fn lemma_current_is_latest(s: ReconciliationState, merkle_root: [u8; 32], submitted_at: u64, submitted_ledger: u32)
    requires
        s.batches.len() < u32::MAX,
    ensures
        spec_submit(s, s.admin, merkle_root, submitted_at, submitted_ledger) matches Ok((id, t)) && {
            &&& t.current() == t.batch(id)
            &&& t.current() == Some(ReconciliationBatch { merkle_root, submitted_at, submitted_ledger })
        },
{
}

/// The older check is the batch-addressed one, inverted, against the latest
/// batch.
pub proof fn lemma_legacy_check_is_inverted(s: ReconciliationState, payment_id: Seq<u8>, proof: Seq<MerkleProofNode>)
    requires
        0 < s.batches.len() <= u32::MAX,
    ensures
        ({
            let latest = (s.batches.len() - 1) as u32;
            s.spec_verify_settlement(payment_id, proof) matches Ok(mismatch)
                && s.spec_verify_proof(latest, payment_id, proof) == Ok::<bool, ReconciliationError>(!mismatch)
        }),
{
}

/// In a tree of two leaves, the proof for the first leaf (its sibling leaf
/// on the right) reaches the root built from the two leaves.
pub proof fn lemma_two_leaf_proof(a: Seq<u8>, sibling: MerkleProofNode)
    requires
        !sibling.is_left,
    ensures
        proof_root(a, seq![sibling]) == pair_digest(leaf_digest(a), sibling.sibling@),
{
    assert(seq![sibling].drop_last() =~= Seq::<MerkleProofNode>::empty());
    assert(proof_root(a, Seq::<MerkleProofNode>::empty()) == leaf_digest(a));
}

/// How a proof is walked: an empty proof gives the leaf's digest, and each
/// further node hashes its sibling on the left of the running digest when
/// `is_left`, on the right otherwise, at every level.
pub proof fn lemma_proof_root_steps(payment_id: Seq<u8>, proof: Seq<MerkleProofNode>, node: MerkleProofNode)
    ensures
        proof_root(payment_id, Seq::<MerkleProofNode>::empty()) == sha256_digest(payment_id),
        proof_root(payment_id, proof.push(node)) == (if node.is_left {
            sha256_digest(node.sibling@ + proof_root(payment_id, proof))
        } else {
            sha256_digest(proof_root(payment_id, proof) + node.sibling@)
        }),
{
    assert(proof.push(node).drop_last() =~= proof);
}

/// A proof of two levels for the third leaf of a four-leaf tree reaches
/// the tree's root.
pub proof fn lemma_four_leaf_proof(p2: Seq<u8>, l3: [u8; 32], h01: [u8; 32])
    ensures
        proof_root(p2, seq![MerkleProofNode { sibling: l3, is_left: false }, MerkleProofNode { sibling: h01, is_left: true }])
            == sha256_digest(h01@ + sha256_digest(sha256_digest(p2) + l3@)),
{
    let n0 = MerkleProofNode { sibling: l3, is_left: false };
    let n1 = MerkleProofNode { sibling: h01, is_left: true };
    lemma_proof_root_steps(p2, Seq::<MerkleProofNode>::empty(), n0);
    assert(Seq::<MerkleProofNode>::empty().push(n0) =~= seq![n0]);
    lemma_proof_root_steps(p2, seq![n0], n1);
    assert(seq![n0].push(n1) =~= seq![n0, n1]);
}

/// A proof checked against a submitted batch verifies exactly when the
/// root it reaches is the root submitted.
pub proof fn lemma_verify_against_submitted(s: ReconciliationState, merkle_root: [u8; 32], submitted_at: u64, submitted_ledger: u32, payment_id: Seq<u8>, proof: Seq<MerkleProofNode>)
    requires
        s.batches.len() < u32::MAX,
    ensures
        spec_submit(s, s.admin, merkle_root, submitted_at, submitted_ledger) matches Ok((id, t))
            && t.spec_verify_proof(id, payment_id, proof) == Ok::<bool, ReconciliationError>(proof_root(payment_id, proof) == merkle_root@)
            && t.spec_verify_settlement(payment_id, proof) == Ok::<bool, ReconciliationError>(proof_root(payment_id, proof) != merkle_root@),
{
}
/// What is refused: a submission by anyone but the admin; a proof against
/// an ID that no submission took; the older check before any submission.
pub proof fn lemma_refusals(s: ReconciliationState, caller: AccountId, merkle_root: [u8; 32], submitted_at: u64, submitted_ledger: u32, batch_id: u32, payment_id: Seq<u8>, proof: Seq<MerkleProofNode>)
    ensures
        caller != s.admin ==> spec_submit(s, caller, merkle_root, submitted_at, submitted_ledger)
            == Err::<(u32, ReconciliationState), ReconciliationError>(ReconciliationError::NotAdmin),
        batch_id >= s.batches.len() ==> s.spec_verify_proof(batch_id, payment_id, proof)
            == Err::<bool, ReconciliationError>(ReconciliationError::UnknownBatch),
        batch_id < s.batches.len() ==> s.spec_verify_proof(batch_id, payment_id, proof) is Ok,
        s.batches.len() == 0 ==> s.spec_verify_settlement(payment_id, proof)
            == Err::<bool, ReconciliationError>(ReconciliationError::NoBatchSubmitted),
{
}
} // verus!
