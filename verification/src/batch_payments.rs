//! Batched payment creation: a merchant creates up to 20 payments at once;
//! every item is validated against the configured amount limits before any
//! payment is recorded, and each payment gets a 32-byte ID that commits to
//! the merchant, a per-contract counter and the payment's contents.

use vstd::prelude::*;
use crate::account::AccountId;
use crate::host::{sha256, sha256_digest, string_to_xdr, string_xdr, concat_bytes, digests_equal};

verus! {

/// Largest number of payments in one batch.
pub const MAX_BATCH_SIZE: u32 = 20;

/// One payment requested in a batch.
#[derive(Clone, Debug)]
pub struct PaymentInput {
    /// Amount in stroops.
    pub amount: i128,
    /// The memo's bytes; must not be empty.
    pub memo: Vec<u8>,
    /// Optional customer account.
    pub customer: Option<AccountId>,
}

/// The stored record of a created payment. The merchant is held as the
/// host's XDR encoding of its address, the very bytes the ID commits to.
#[derive(Clone, Debug)]
pub struct PaymentRecord {
    pub id: [u8; 32],
    pub amount: i128,
    pub memo: Vec<u8>,
    pub merchant: Vec<u8>,
}

/// A created payment as the contracts speak of it.
pub struct PaymentView {
    pub id: Seq<u8>,
    pub amount: i128,
    pub memo: Seq<u8>,
    pub merchant: Seq<u8>,
}

impl View for PaymentRecord {
    type V = PaymentView;

    open spec fn view(&self) -> PaymentView {
        PaymentView { id: self.id@, amount: self.amount, memo: self.memo@, merchant: self.merchant@ }
    }
}

impl PaymentRecord {
    /// A copy of the record.
    pub fn duplicate(&self) -> (r: PaymentRecord)
        ensures
            r@ == self@,
    {
        PaymentRecord { id: self.id, amount: self.amount, memo: copy_bytes(&self.memo), merchant: copy_bytes(&self.merchant) }
    }
}

/// A copy of `b`.
fn copy_bytes(b: &Vec<u8>) -> (r: Vec<u8>)
    ensures
        r@ == b@,
{
    concat_bytes(b.as_slice(), &[])
}

/// The contract's configuration, fixed by `init` and updated by
/// `set_limits`.
#[derive(Clone, Copy, Debug, PartialEq, Eq, Structural)]
pub struct BatchConfig {
    pub admin: AccountId,
    pub min_amount: i128,
    pub max_amount: i128,
}

/// Why a request to the batch contract was refused.
#[derive(Clone, Copy, Debug, PartialEq, Eq, Structural)]
pub enum BatchError {
    AlreadyInitialized,
    MinAmountNotPositive,
    MinAboveMax,
    NotInitialized,
    EmptyBatch,
    BatchTooLarge,
    AmountOutsideLimits,
    /// The payment at `index` has an empty memo.
    EmptyMemo { index: u32 },
    /// A derived payment ID equals one already recorded.
    IdCollision,
}

impl BatchError {
    /// The text the contract fails with, except that for `EmptyMemo` it is
    /// the part after "payment at index {index}: ".
    pub open spec fn spec_message(self) -> Seq<char> {
        match self {
            BatchError::AlreadyInitialized => "contract already initialized"@,
            BatchError::MinAmountNotPositive => "min amount must be > 0"@,
            BatchError::MinAboveMax => "min amount must be <= max amount"@,
            BatchError::NotInitialized => "contract not initialized"@,
            BatchError::EmptyBatch => "batch must contain at least one payment"@,
            BatchError::BatchTooLarge => "batch exceeds maximum of 20 payments"@,
            BatchError::AmountOutsideLimits => "payment amount outside configured limits"@,
            BatchError::EmptyMemo { .. } => "memo must not be empty"@,
            BatchError::IdCollision => "payment id collision detected"@,
        }
    }

    /// The text the contract fails with; for `EmptyMemo` the part after
    /// "payment at index {index}: ".
    pub fn message(&self) -> (r: &'static str)
        ensures
            r@ == self.spec_message(),
    {
        match self {
            BatchError::AlreadyInitialized => {
                proof { reveal_strlit("contract already initialized"); }
                "contract already initialized"
            },
            BatchError::MinAmountNotPositive => {
                proof { reveal_strlit("min amount must be > 0"); }
                "min amount must be > 0"
            },
            BatchError::MinAboveMax => {
                proof { reveal_strlit("min amount must be <= max amount"); }
                "min amount must be <= max amount"
            },
            BatchError::NotInitialized => {
                proof { reveal_strlit("contract not initialized"); }
                "contract not initialized"
            },
            BatchError::EmptyBatch => {
                proof { reveal_strlit("batch must contain at least one payment"); }
                "batch must contain at least one payment"
            },
            BatchError::BatchTooLarge => {
                proof { reveal_strlit("batch exceeds maximum of 20 payments"); }
                "batch exceeds maximum of 20 payments"
            },
            BatchError::AmountOutsideLimits => {
                proof { reveal_strlit("payment amount outside configured limits"); }
                "payment amount outside configured limits"
            },
            BatchError::EmptyMemo { .. } => {
                proof { reveal_strlit("memo must not be empty"); }
                "memo must not be empty"
            },
            BatchError::IdCollision => {
                proof { reveal_strlit("payment id collision detected"); }
                "payment id collision detected"
            },
        }
    }
}

/// Big-endian bytes of `x`.
pub open spec fn be_bytes_u64(x: u64) -> Seq<u8> {
    seq![
        (x >> 56u64) as u8, (x >> 48u64) as u8, (x >> 40u64) as u8, (x >> 32u64) as u8,
        (x >> 24u64) as u8, (x >> 16u64) as u8, (x >> 8u64) as u8, x as u8,
    ]
}

/// Big-endian bytes of `x` (its two's-complement form).
pub open spec fn be_bytes_i128(x: i128) -> Seq<u8> {
    let u = x as u128;
    seq![
        (u >> 120u128) as u8, (u >> 112u128) as u8, (u >> 104u128) as u8, (u >> 96u128) as u8,
        (u >> 88u128) as u8, (u >> 80u128) as u8, (u >> 72u128) as u8, (u >> 64u128) as u8,
        (u >> 56u128) as u8, (u >> 48u128) as u8, (u >> 40u128) as u8, (u >> 32u128) as u8,
        (u >> 24u128) as u8, (u >> 16u128) as u8, (u >> 8u128) as u8, u as u8,
    ]
}

/// The bytes a payment ID is the SHA-256 digest of: the merchant's XDR
/// encoding, the counter, the amount, and the memo's XDR encoding.
pub open spec fn payment_preimage(merchant_xdr: Seq<u8>, counter: u64, amount: i128, memo: Seq<u8>) -> Seq<u8> {
    merchant_xdr + be_bytes_u64(counter) + be_bytes_i128(amount) + string_xdr(memo)
}

/// The ID of a payment.
pub open spec fn spec_payment_id(merchant_xdr: Seq<u8>, counter: u64, amount: i128, memo: Seq<u8>) -> Seq<u8> {
    sha256_digest(payment_preimage(merchant_xdr, counter, amount, memo))
}

/// The IDs the payments `ps` of a batch get, made by the merchant whose
/// XDR encoding is `merchant_xdr`, when the counter stands at `counter`.
pub open spec fn batch_ids(merchant_xdr: Seq<u8>, counter: u64, ps: Seq<PaymentInput>) -> Seq<Seq<u8>> {
    Seq::new(ps.len(), |i: int| spec_payment_id(merchant_xdr, (counter + i) as u64, ps[i].amount, ps[i].memo@))
}

/// The byte sequences of 32-byte digests.
pub open spec fn digests_of(ids: Seq<[u8; 32]>) -> Seq<Seq<u8>> {
    ids.map_values(|a: [u8; 32]| a@)
}

/// Why the payment at `index` is invalid under the limits, if it is.
pub open spec fn item_error(p: PaymentInput, index: int, min_amount: i128, max_amount: i128) -> Option<BatchError> {
    if p.amount < min_amount || p.amount > max_amount {
        Some(BatchError::AmountOutsideLimits)
    } else if p.memo@.len() == 0 {
        Some(BatchError::EmptyMemo { index: index as u32 })
    } else {
        None
    }
}

/// The first error among the payments from index `i` on, in order.
pub open spec fn first_error_from(ps: Seq<PaymentInput>, min_amount: i128, max_amount: i128, i: int) -> Option<BatchError>
    decreases ps.len() - i,
{
    if i < 0 || i >= ps.len() {
        None
    } else {
        match item_error(ps[i], i, min_amount, max_amount) {
            Some(e) => Some(e),
            None => first_error_from(ps, min_amount, max_amount, i + 1),
        }
    }
}

/// Every memo of `ps` fits a host string.
pub open spec fn memos_fit(ps: Seq<PaymentInput>) -> bool {
    forall|i: int| 0 <= i < ps.len() ==> #[trigger] ps[i].memo@.len() <= u32::MAX
}

/// Abstract state of the batch contract.
pub struct BatchState {
    pub config: Option<BatchConfig>,
    /// Next counter value to mix into a payment ID.
    pub counter: u64,
    /// Every created payment, in creation order.
    pub payments: Seq<PaymentView>,
}

impl BatchState {
    /// The limits are sane; the counter equals the number of payments
    /// created; the payment created `k`-th has the ID derived from its
    /// merchant, counter value `k`, its amount and its memo; and no two
    /// recorded payments share an ID.
    pub open spec fn wf(self) -> bool {
        &&& self.config matches Some(c) ==> 0 < c.min_amount <= c.max_amount
        &&& self.counter == self.payments.len()
        &&& forall|k: int| 0 <= k < self.payments.len() ==> #[trigger] self.payments[k].id == spec_payment_id(
            self.payments[k].merchant,
            k as u64,
            self.payments[k].amount,
            self.payments[k].memo,
        )
        &&& forall|i: int, j: int| 0 <= i < self.payments.len() && 0 <= j < self.payments.len() && i != j
            ==> #[trigger] self.payments[i].id != #[trigger] self.payments[j].id
    }

    /// Whether a payment with ID `id` is recorded.
    pub open spec fn has_payment(self, id: Seq<u8>) -> bool {
        exists|k: int| 0 <= k < self.payments.len() && #[trigger] self.payments[k].id == id
    }

    /// Outcome of validating a batch before any ID is derived.
    pub open spec fn spec_validate(self, ps: Seq<PaymentInput>) -> Result<(), BatchError> {
        match self.config {
            None => Err(BatchError::NotInitialized),
            Some(c) => if ps.len() == 0 {
                Err(BatchError::EmptyBatch)
            } else if ps.len() > MAX_BATCH_SIZE {
                Err(BatchError::BatchTooLarge)
            } else {
                match first_error_from(ps, c.min_amount, c.max_amount, 0) {
                    Some(e) => Err(e),
                    None => Ok(()),
                }
            },
        }
    }

    /// Whether IDs `ids` are all distinct and none is recorded yet.
    pub open spec fn fresh_ids(self, ids: Seq<Seq<u8>>) -> bool {
        &&& forall|i: int, j: int| 0 <= i < j < ids.len() ==> #[trigger] ids[i] != #[trigger] ids[j]
        &&& forall|i: int| 0 <= i < ids.len() ==> !self.has_payment(#[trigger] ids[i])
    }

    /// The state after recording payments `ps` of the merchant encoded as
    /// `merchant_xdr` under `ids`.
    pub open spec fn with_payments(self, merchant_xdr: Seq<u8>, ps: Seq<PaymentInput>, ids: Seq<Seq<u8>>) -> BatchState {
        BatchState {
            config: self.config,
            counter: (self.counter + ps.len()) as u64,
            payments: self.payments + Seq::new(ps.len(), |i: int| PaymentView {
                id: ids[i],
                amount: ps[i].amount,
                memo: ps[i].memo@,
                merchant: merchant_xdr,
            }),
        }
    }

    /// Outcome of `create_batch`: the IDs created and the new state.
    pub open spec fn spec_create_batch(self, merchant_xdr: Seq<u8>, ps: Seq<PaymentInput>) -> Result<(Seq<Seq<u8>>, BatchState), BatchError> {
        match self.spec_validate(ps) {
            Err(e) => Err(e),
            Ok(_) => {
                let ids = batch_ids(merchant_xdr, self.counter, ps);
                if self.fresh_ids(ids) {
                    Ok((ids, self.with_payments(merchant_xdr, ps, ids)))
                } else {
                    Err(BatchError::IdCollision)
                }
            },
        }
    }

    /// The configured limits, once initialized.
    pub open spec fn limits(self) -> Option<(i128, i128)> {
        match self.config {
            None => None,
            Some(c) => Some((c.min_amount, c.max_amount)),
        }
    }
}

/// Outcome of the checks `init` makes before storing anything.
pub open spec fn spec_init_check(s: BatchState, min_amount: i128, max_amount: i128) -> Result<(), BatchError> {
    if s.config.is_some() {
        Err(BatchError::AlreadyInitialized)
    } else if min_amount <= 0 {
        Err(BatchError::MinAmountNotPositive)
    } else if min_amount > max_amount {
        Err(BatchError::MinAboveMax)
    } else {
        Ok(())
    }
}

/// Outcome of `init`.
pub open spec fn spec_init(s: BatchState, admin: AccountId, min_amount: i128, max_amount: i128) -> Result<BatchState, BatchError> {
    match spec_init_check(s, min_amount, max_amount) {
        Err(e) => Err(e),
        Ok(_) => Ok(BatchState { config: Some(BatchConfig { admin, min_amount, max_amount }), ..s }),
    }
}

/// Outcome of `set_limits`.
pub open spec fn spec_set_limits(s: BatchState, min_amount: i128, max_amount: i128) -> Result<BatchState, BatchError> {
    if min_amount <= 0 {
        Err(BatchError::MinAmountNotPositive)
    } else if min_amount > max_amount {
        Err(BatchError::MinAboveMax)
    } else {
        match s.config {
            None => Err(BatchError::NotInitialized),
            Some(c) => Ok(BatchState { config: Some(BatchConfig { min_amount, max_amount, ..c }), ..s }),
        }
    }
}

/// The batch contract's state.
pub struct BatchPaymentContract {
    config: Option<BatchConfig>,
    counter: u64,
    payments: Vec<PaymentRecord>,
}

impl View for BatchPaymentContract {
    type V = BatchState;

    closed spec fn view(&self) -> BatchState {
        BatchState {
            config: self.config,
            counter: self.counter,
            payments: self.payments@.map_values(|r: PaymentRecord| r@),
        }
    }
}

/// Big-endian bytes of `x`.
pub fn u64_to_be_bytes(x: u64) -> (r: Vec<u8>)
    ensures
        r@ == be_bytes_u64(x),
{
    let mut v: Vec<u8> = Vec::new();
    v.push((x >> 56u64) as u8);
    v.push((x >> 48u64) as u8);
    v.push((x >> 40u64) as u8);
    v.push((x >> 32u64) as u8);
    v.push((x >> 24u64) as u8);
    v.push((x >> 16u64) as u8);
    v.push((x >> 8u64) as u8);
    v.push(x as u8);
    assert(v@ =~= be_bytes_u64(x));
    v
}

/// Big-endian bytes of `x` (its two's-complement form).
pub fn i128_to_be_bytes(x: i128) -> (r: Vec<u8>)
    ensures
        r@ == be_bytes_i128(x),
{
    let u = x as u128;
    let mut v: Vec<u8> = Vec::new();
    v.push((u >> 120u128) as u8);
    v.push((u >> 112u128) as u8);
    v.push((u >> 104u128) as u8);
    v.push((u >> 96u128) as u8);
    v.push((u >> 88u128) as u8);
    v.push((u >> 80u128) as u8);
    v.push((u >> 72u128) as u8);
    v.push((u >> 64u128) as u8);
    v.push((u >> 56u128) as u8);
    v.push((u >> 48u128) as u8);
    v.push((u >> 40u128) as u8);
    v.push((u >> 32u128) as u8);
    v.push((u >> 24u128) as u8);
    v.push((u >> 16u128) as u8);
    v.push((u >> 8u128) as u8);
    v.push(u as u8);
    assert(v@ =~= be_bytes_i128(x));
    v
}

/// The ID of a payment of `amount` with memo `memo`, made by the merchant
/// whose XDR encoding is `merchant_xdr`, at counter value `counter`.
pub fn payment_id(env: &soroban_sdk::Env, merchant_xdr: &[u8], counter: u64, amount: i128, memo: &[u8]) -> (r: [u8; 32])
    requires
        memo@.len() <= u32::MAX,
    ensures
        r@ == spec_payment_id(merchant_xdr@, counter, amount, memo@),
{
    let c = u64_to_be_bytes(counter);
    let a = i128_to_be_bytes(amount);
    let m = string_to_xdr(env, memo);
    let p1 = concat_bytes(merchant_xdr, c.as_slice());
    let p2 = concat_bytes(p1.as_slice(), a.as_slice());
    let p3 = concat_bytes(p2.as_slice(), m.as_slice());
    assert(p3@ =~= payment_preimage(merchant_xdr@, counter, amount, memo@));
    sha256(env, p3.as_slice())
}

/// Recording a fresh batch under its derived IDs keeps the state well
/// formed.
pub proof fn lemma_with_payments_keeps_wf(s: BatchState, merchant_xdr: Seq<u8>, ps: Seq<PaymentInput>, ids: Seq<Seq<u8>>)
    requires
        s.wf(),
        ids == batch_ids(merchant_xdr, s.counter, ps),
        s.fresh_ids(ids),
        s.counter + ps.len() <= u64::MAX,
    ensures
        s.with_payments(merchant_xdr, ps, ids).wf(),
{
    let t = s.with_payments(merchant_xdr, ps, ids);
    let base = s.payments.len();
    assert forall|k: int| 0 <= k < t.payments.len() implies #[trigger] t.payments[k].id == spec_payment_id(
        t.payments[k].merchant,
        k as u64,
        t.payments[k].amount,
        t.payments[k].memo,
    ) by {
        if k < base {
            assert(t.payments[k] == s.payments[k]);
        } else {
            assert(ids[k - base] == spec_payment_id(merchant_xdr, (s.counter + (k - base)) as u64, ps[k - base].amount, ps[k - base].memo@));
        }
    }
    assert forall|a: int, b: int| 0 <= a < t.payments.len() && 0 <= b < t.payments.len() && a != b
        implies #[trigger] t.payments[a].id != #[trigger] t.payments[b].id by {
        if a < base && b < base {
            assert(t.payments[a] == s.payments[a]);
            assert(t.payments[b] == s.payments[b]);
        } else if a < base {
            assert(t.payments[b].id == ids[b - base]);
            assert(t.payments[a] == s.payments[a]);
            assert(!s.has_payment(ids[b - base]));
        } else if b < base {
            assert(t.payments[a].id == ids[a - base]);
            assert(t.payments[b] == s.payments[b]);
            assert(!s.has_payment(ids[a - base]));
        } else {
            assert(t.payments[a].id == ids[a - base]);
            assert(t.payments[b].id == ids[b - base]);
            if a < b {
                assert(ids[a - base] != ids[b - base]);
            } else {
                assert(ids[b - base] != ids[a - base]);
            }
        }
    }
}

impl BatchPaymentContract {
    /// A contract not yet initialized, with no payment recorded.
    pub fn new() -> (c: Self)
        ensures
            c@.config.is_none(),
            c@.counter == 0,
            c@.payments == Seq::<PaymentView>::empty(),
            c@.wf(),
    {
        let c = BatchPaymentContract { config: None, counter: 0, payments: Vec::new() };
        assert(c@.payments =~= Seq::<PaymentView>::empty());
        c
    }

    /// The checks `init` makes before it stores anything.
    pub fn check_init(&self, min_amount: i128, max_amount: i128) -> (r: Result<(), BatchError>)
        ensures
            r == spec_init_check(self@, min_amount, max_amount),
    {
        if self.config.is_some() {
            return Err(BatchError::AlreadyInitialized);
        }
        if min_amount <= 0 {
            return Err(BatchError::MinAmountNotPositive);
        }
        if min_amount > max_amount {
            return Err(BatchError::MinAboveMax);
        }
        Ok(())
    }

    /// One-time setup of the admin and the amount limits.
    pub fn init(&mut self, admin: AccountId, min_amount: i128, max_amount: i128) -> (r: Result<(), BatchError>)
        requires
            old(self)@.wf(),
        ensures
            final(self)@.wf(),
            match spec_init(old(self)@, admin, min_amount, max_amount) {
                Ok(s) => r is Ok && final(self)@ == s,
                Err(e) => r == Err::<(), BatchError>(e) && final(self)@ == old(self)@,
            },
    {
        self.check_init(min_amount, max_amount)?;
        self.config = Some(BatchConfig { admin, min_amount, max_amount });
        Ok(())
    }

    /// The checks `set_limits` makes on its arguments.
    pub fn check_limits(min_amount: i128, max_amount: i128) -> (r: Result<(), BatchError>)
        ensures
            r == (if min_amount <= 0 {
                Err(BatchError::MinAmountNotPositive)
            } else if min_amount > max_amount {
                Err(BatchError::MinAboveMax)
            } else {
                Ok(())
            }),
    {
        if min_amount <= 0 {
            return Err(BatchError::MinAmountNotPositive);
        }
        if min_amount > max_amount {
            return Err(BatchError::MinAboveMax);
        }
        Ok(())
    }

    /// The admin, once initialized.
    pub fn admin(&self) -> (r: Result<AccountId, BatchError>)
        ensures
            r == (match self@.config {
                None => Err(BatchError::NotInitialized),
                Some(c) => Ok(c.admin),
            }),
    {
        match self.config {
            None => Err(BatchError::NotInitialized),
            Some(c) => Ok(c.admin),
        }
    }

    /// Replaces the amount limits.
    pub fn set_limits(&mut self, min_amount: i128, max_amount: i128) -> (r: Result<(), BatchError>)
        requires
            old(self)@.wf(),
        ensures
            final(self)@.wf(),
            match spec_set_limits(old(self)@, min_amount, max_amount) {
                Ok(s) => r is Ok && final(self)@ == s,
                Err(e) => r == Err::<(), BatchError>(e) && final(self)@ == old(self)@,
            },
    {
        Self::check_limits(min_amount, max_amount)?;
        match self.config {
            None => Err(BatchError::NotInitialized),
            Some(c) => {
                self.config = Some(BatchConfig { admin: c.admin, min_amount, max_amount });
                Ok(())
            },
        }
    }

    /// The counter value the next payment ID will use.
    pub fn payment_counter(&self) -> (r: u64)
        ensures
            r == self@.counter,
    {
        self.counter
    }

    /// The configured minimum and maximum payment amounts.
    pub fn get_limits(&self) -> (r: Result<(i128, i128), BatchError>)
        ensures
            r == (match self@.limits() {
                None => Err(BatchError::NotInitialized),
                Some(l) => Ok(l),
            }),
    {
        match self.config {
            None => Err(BatchError::NotInitialized),
            Some(c) => Ok((c.min_amount, c.max_amount)),
        }
    }

    /// The largest number of payments in one batch.
    pub fn max_batch_size() -> (r: u32)
        ensures
            r == MAX_BATCH_SIZE,
    {
        MAX_BATCH_SIZE
    }

    /// Checks a batch before any ID is derived: the contract is initialized,
    /// the batch holds 1 to 20 payments, and, in order, each amount is
    /// within the limits and each memo is non-empty.
    pub fn validate_batch(&self, payments: &Vec<PaymentInput>) -> (r: Result<(), BatchError>)
        ensures
            r == self@.spec_validate(payments@),
    {
        let (min_amount, max_amount) = match self.config {
            None => return Err(BatchError::NotInitialized),
            Some(c) => (c.min_amount, c.max_amount),
        };
        let count = payments.len();
        if count == 0 {
            return Err(BatchError::EmptyBatch);
        }
        if count > 20 {
            return Err(BatchError::BatchTooLarge);
        }
        let mut i: usize = 0;
        while i < count
            invariant
                count == payments@.len(),
                0 < count <= 20,
                0 <= i <= count,
                self@.config matches Some(c) && c.min_amount == min_amount && c.max_amount == max_amount,
                first_error_from(payments@, min_amount, max_amount, 0)
                    == first_error_from(payments@, min_amount, max_amount, i as int),
            decreases count - i,
        {
            let item = &payments[i];
            if item.amount < min_amount || item.amount > max_amount {
                assert(item_error(payments@[i as int], i as int, min_amount, max_amount)
                    == Some(BatchError::AmountOutsideLimits));
                assert(first_error_from(payments@, min_amount, max_amount, i as int)
                    == Some(BatchError::AmountOutsideLimits));
                return Err(BatchError::AmountOutsideLimits);
            }
            if item.memo.len() == 0 {
                assert(item_error(payments@[i as int], i as int, min_amount, max_amount)
                    == Some(BatchError::EmptyMemo { index: i as u32 }));
                assert(first_error_from(payments@, min_amount, max_amount, i as int)
                    == Some(BatchError::EmptyMemo { index: i as u32 }));
                return Err(BatchError::EmptyMemo { index: i as u32 });
            }
            assert(item_error(payments@[i as int], i as int, min_amount, max_amount) is None);
            i = i + 1;
        }
        Ok(())
    }

    /// Whether a payment with ID `id` is recorded.
    fn has_id(&self, id: &[u8; 32]) -> (r: bool)
        ensures
            r == self@.has_payment(id@),
    {
        let mut k: usize = 0;
        while k < self.payments.len()
            invariant
                0 <= k <= self.payments@.len(),
                forall|j: int| 0 <= j < k ==> self@.payments[j].id != id@,
            decreases self.payments@.len() - k,
        {
            if digests_equal(&self.payments[k].id, id) {
                assert(self@.payments[k as int].id == id@);
                return true;
            }
            k = k + 1;
        }
        false
    }

    /// Records payments `payments` of the merchant encoded as
    /// `merchant_xdr` under `ids`, their derived IDs, and advances the
    /// counter by their number; refused, changing nothing, when two of the
    /// IDs are equal or one is already recorded.
    pub fn record_batch(&mut self, merchant_xdr: &[u8], payments: &Vec<PaymentInput>, ids: &Vec<[u8; 32]>) -> (r: Result<(), BatchError>)
        requires
            old(self)@.wf(),
            digests_of(ids@) == batch_ids(merchant_xdr@, old(self)@.counter, payments@),
            old(self)@.counter + payments@.len() <= u64::MAX,
        ensures
            final(self)@.wf(),
            old(self)@.fresh_ids(digests_of(ids@)) ==> r is Ok
                && final(self)@ == old(self)@.with_payments(merchant_xdr@, payments@, digests_of(ids@)),
            !old(self)@.fresh_ids(digests_of(ids@)) ==> r == Err::<(), BatchError>(BatchError::IdCollision)
                && final(self)@ == old(self)@,
    {
        let n = ids.len();
        assert(digests_of(ids@).len() == n);
        let mut i: usize = 0;
        while i < n
            invariant
                n == ids@.len(),
                0 <= i <= n,
                old(self)@.wf(),
                self@ == old(self)@,
                digests_of(ids@).len() == n,
                forall|a: int| 0 <= a < n ==> #[trigger] digests_of(ids@)[a] == ids@[a]@,
                forall|a: int, b: int| 0 <= a < b < i ==> #[trigger] ids@[a]@ != #[trigger] ids@[b]@,
                forall|a: int| 0 <= a < i ==> !self@.has_payment(#[trigger] ids@[a]@),
            decreases n - i,
        {
            if self.has_id(&ids[i]) {
                assert(self@.has_payment(digests_of(ids@)[i as int]));
                return Err(BatchError::IdCollision);
            }
            let mut j: usize = 0;
            while j < i
                invariant
                    n == ids@.len(),
                    0 <= j <= i < n,
                    old(self)@.wf(),
                    self@ == old(self)@,
                    digests_of(ids@).len() == n,
                    forall|a: int| 0 <= a < n ==> #[trigger] digests_of(ids@)[a] == ids@[a]@,
                    forall|a: int| 0 <= a < j ==> ids@[a]@ != ids@[i as int]@,
                decreases i - j,
            {
                if digests_equal(&ids[j], &ids[i]) {
                    assert(digests_of(ids@)[j as int] == digests_of(ids@)[i as int]);
                    return Err(BatchError::IdCollision);
                }
                j = j + 1;
            }
            i = i + 1;
        }
        let ghost old_view = self@;
        let ghost ds = digests_of(ids@);
        assert(old_view.fresh_ids(ds));
        let mut k: usize = 0;
        while k < n
            invariant
                n == ids@.len(),
                n == payments@.len(),
                0 <= k <= n,
                ds.len() == n,
                forall|a: int| 0 <= a < n ==> #[trigger] ds[a] == ids@[a]@,
                self.config == old_view.config,
                self.counter == old_view.counter,
                self@.payments == old_view.payments + Seq::new(k as nat, |x: int| PaymentView {
                    id: ds[x],
                    amount: payments@[x].amount,
                    memo: payments@[x].memo@,
                    merchant: merchant_xdr@,
                }),
            decreases n - k,
        {
            let item = &payments[k];
            let record = PaymentRecord {
                id: ids[k],
                amount: item.amount,
                memo: copy_bytes(&item.memo),
                merchant: concat_bytes(merchant_xdr, &[]),
            };
            let ghost before = self.payments@;
            let ghost prev_view = self@.payments;
            assert(record@ == (PaymentView {
                id: ds[k as int],
                amount: payments@[k as int].amount,
                memo: payments@[k as int].memo@,
                merchant: merchant_xdr@,
            }));
            self.payments.push(record);
            assert(self.payments@ == before.push(record));
            assert(self@.payments =~= prev_view.push(record@));
            assert(self@.payments =~= old_view.payments + Seq::new((k + 1) as nat, |x: int| PaymentView {
                id: ds[x],
                amount: payments@[x].amount,
                memo: payments@[x].memo@,
                merchant: merchant_xdr@,
            }));
            k = k + 1;
        }
        self.counter = self.counter + n as u64;
        proof {
            assert(self@.payments =~= old_view.with_payments(merchant_xdr@, payments@, ds).payments);
            lemma_with_payments_keeps_wf(old_view, merchant_xdr@, payments@, ds);
        }
        Ok(())
    }

    /// Creates the payments of a batch for the merchant whose XDR encoding
    /// is `merchant_xdr`, all at once or not at all, and returns their IDs
    /// in order. The batch is validated first; the payment at position `i`
    /// then gets the ID derived from the merchant, counter value
    /// `counter + i`, its amount and its memo.
    pub fn create_batch(&mut self, env: &soroban_sdk::Env, merchant_xdr: &[u8], payments: &Vec<PaymentInput>) -> (r: Result<Vec<[u8; 32]>, BatchError>)
        requires
            old(self)@.wf(),
            memos_fit(payments@),
            payments@.len() <= MAX_BATCH_SIZE ==> old(self)@.counter + payments@.len() <= u64::MAX,
        ensures
            final(self)@.wf(),
            match old(self)@.spec_create_batch(merchant_xdr@, payments@) {
                Ok((ids, t)) => r matches Ok(v) && digests_of(v@) == ids && final(self)@ == t,
                Err(e) => r == Err::<Vec<[u8; 32]>, BatchError>(e) && final(self)@ == old(self)@,
            },
    {
        self.validate_batch(payments)?;
        let count = payments.len();
        let mut ids: Vec<[u8; 32]> = Vec::new();
        let mut i: usize = 0;
        while i < count
            invariant
                count == payments@.len(),
                count <= 20,
                0 <= i <= count,
                memos_fit(payments@),
                self@.counter + count <= u64::MAX,
                ids@.len() == i,
                forall|j: int| 0 <= j < i ==> #[trigger] ids@[j]@ == spec_payment_id(
                    merchant_xdr@,
                    (self@.counter + j) as u64,
                    payments@[j].amount,
                    payments@[j].memo@,
                ),
            decreases count - i,
        {
            let item = &payments[i];
            assert(payments@[i as int].memo@.len() <= u32::MAX);
            let id = payment_id(env, merchant_xdr, self.counter + i as u64, item.amount, item.memo.as_slice());
            ids.push(id);
            i = i + 1;
        }
        assert(digests_of(ids@) =~= batch_ids(merchant_xdr@, self@.counter, payments@));
        self.record_batch(merchant_xdr, payments, &ids)?;
        Ok(ids)
    }

    /// The record of the payment with ID `id`, if one was created.
    pub fn get_payment(&self, id: &[u8; 32]) -> (r: Option<PaymentRecord>)
        requires
            self@.wf(),
        ensures
            !self@.has_payment(id@) ==> r.is_none(),
            forall|k: int| 0 <= k < self@.payments.len() && #[trigger] self@.payments[k].id == id@
                ==> (r matches Some(rec) && rec@ == self@.payments[k]),
    {
        let mut k: usize = 0;
        while k < self.payments.len()
            invariant
                0 <= k <= self.payments@.len(),
                self@.wf(),
                forall|j: int| 0 <= j < k ==> self@.payments[j].id != id@,
            decreases self.payments@.len() - k,
        {
            if digests_equal(&self.payments[k].id, id) {
                assert(self@.payments[k as int].id == id@);
                return Some(self.payments[k].duplicate());
            }
            k = k + 1;
        }
        None
    }
}

/// A created batch reads back: each of its payments is found under the ID
/// returned for it, with the amount, memo and merchant it was created with.
pub proof fn lemma_created_payments_read_back(s: BatchState, merchant_xdr: Seq<u8>, ps: Seq<PaymentInput>, i: int)
    requires
        0 <= i < ps.len(),
        s.spec_create_batch(merchant_xdr, ps) is Ok,
    ensures
        s.spec_create_batch(merchant_xdr, ps) matches Ok((ids, t)) && {
            let k = s.payments.len() + i;
            &&& t.payments[k] == (PaymentView { id: ids[i], amount: ps[i].amount, memo: ps[i].memo@, merchant: merchant_xdr })
            &&& t.has_payment(ids[i])
        },
{
    let ids = batch_ids(merchant_xdr, s.counter, ps);
    let t = s.with_payments(merchant_xdr, ps, ids);
    let k = s.payments.len() + i;
    assert(t.payments[k].id == ids[i]);
}

/// Creating a batch never forgets an earlier payment.
pub proof fn lemma_earlier_payments_kept(s: BatchState, merchant_xdr: Seq<u8>, ps: Seq<PaymentInput>, id: Seq<u8>)
    requires
        s.has_payment(id),
        s.spec_create_batch(merchant_xdr, ps) is Ok,
    ensures
        s.spec_create_batch(merchant_xdr, ps) matches Ok((_, t)) && t.has_payment(id),
{
    let t = s.with_payments(merchant_xdr, ps, batch_ids(merchant_xdr, s.counter, ps));
    let k = choose|k: int| 0 <= k < s.payments.len() && #[trigger] s.payments[k].id == id;
    assert(t.payments[k] == s.payments[k]);
}

/// A batch that passes validation has 1 to 20 payments, each with an
/// amount within the configured limits and a non-empty memo.
pub proof fn lemma_valid_batch_items(s: BatchState, ps: Seq<PaymentInput>, i: int)
    requires
        s.spec_validate(ps) is Ok,
        0 <= i < ps.len(),
    ensures
        1 <= ps.len() <= MAX_BATCH_SIZE,
        s.config matches Some(c) && c.min_amount <= ps[i].amount <= c.max_amount,
        ps[i].memo@.len() > 0,
{
    let c = s.config->Some_0;
    lemma_first_error_none(ps, c.min_amount, c.max_amount, 0, i);
}

proof fn lemma_first_error_none(ps: Seq<PaymentInput>, min_amount: i128, max_amount: i128, from: int, i: int)
    requires
        0 <= from <= i < ps.len(),
        first_error_from(ps, min_amount, max_amount, from) is None,
    ensures
        item_error(ps[i], i, min_amount, max_amount) is None,
    decreases i - from,
{
    if from < i {
        lemma_first_error_none(ps, min_amount, max_amount, from + 1, i);
    }
}

/// Payment IDs never collide unless two different counter values derive
/// the same ID (a SHA-256 collision): from a well-formed state, a batch
/// that passes validation gets fresh IDs, so its creation succeeds.
pub proof fn lemma_no_collision_without_hash_collision(s: BatchState, merchant_xdr: Seq<u8>, ps: Seq<PaymentInput>)
    requires
        s.wf(),
        s.spec_validate(ps) is Ok,
        s.counter + ps.len() <= u64::MAX,
        forall|m1: Seq<u8>, c1: u64, a1: i128, n1: Seq<u8>, m2: Seq<u8>, c2: u64, a2: i128, n2: Seq<u8>|
            #[trigger] spec_payment_id(m1, c1, a1, n1) == #[trigger] spec_payment_id(m2, c2, a2, n2) ==> c1 == c2,
    ensures
        s.fresh_ids(batch_ids(merchant_xdr, s.counter, ps)),
        s.spec_create_batch(merchant_xdr, ps) is Ok,
{
    let ids = batch_ids(merchant_xdr, s.counter, ps);
    assert forall|i: int, j: int| 0 <= i < j < ids.len() implies #[trigger] ids[i] != #[trigger] ids[j] by {
        let ci = (s.counter + i) as u64;
        let cj = (s.counter + j) as u64;
        assert(ids[i] == spec_payment_id(merchant_xdr, ci, ps[i].amount, ps[i].memo@));
        assert(ids[j] == spec_payment_id(merchant_xdr, cj, ps[j].amount, ps[j].memo@));
        assert(ci != cj);
    }
    assert forall|i: int| 0 <= i < ids.len() implies !s.has_payment(#[trigger] ids[i]) by {
        let ci = (s.counter + i) as u64;
        assert(ids[i] == spec_payment_id(merchant_xdr, ci, ps[i].amount, ps[i].memo@));
        if s.has_payment(ids[i]) {
            let k = choose|k: int| 0 <= k < s.payments.len() && #[trigger] s.payments[k].id == ids[i];
            let p = s.payments[k];
            assert(p.id == spec_payment_id(p.merchant, k as u64, p.amount, p.memo));
            assert(k as u64 != ci);
        }
    }
}

proof fn lemma_first_error_at(ps: Seq<PaymentInput>, min_amount: i128, max_amount: i128, from: int, i: int)
    requires
        0 <= from <= i <= ps.len(),
        forall|j: int| from <= j < i ==> #[trigger] item_error(ps[j], j, min_amount, max_amount) is None,
    ensures
        i == ps.len() ==> first_error_from(ps, min_amount, max_amount, from) is None,
        i < ps.len() && item_error(ps[i], i, min_amount, max_amount) is Some
            ==> first_error_from(ps, min_amount, max_amount, from) == item_error(ps[i], i, min_amount, max_amount),
    decreases i - from,
{
    if from < i {
        lemma_first_error_at(ps, min_amount, max_amount, from + 1, i);
    }
}

/// Validation, exactly: it is refused before initialization, for an empty
/// batch and for one of more than `MAX_BATCH_SIZE` payments; otherwise it
/// succeeds exactly when every payment has an amount within the limits and
/// a non-empty memo, and is refused for the first payment that has not:
/// `AmountOutsideLimits` when its amount is outside the limits, else
/// `EmptyMemo` with that payment's index.
pub proof fn lemma_validation_exact(s: BatchState, ps: Seq<PaymentInput>, i: int)
    ensures
        s.config is None ==> s.spec_validate(ps) == Err::<(), BatchError>(BatchError::NotInitialized),
        s.config is Some && ps.len() == 0 ==> s.spec_validate(ps) == Err::<(), BatchError>(BatchError::EmptyBatch),
        s.config is Some && ps.len() > MAX_BATCH_SIZE ==> s.spec_validate(ps)
            == Err::<(), BatchError>(BatchError::BatchTooLarge),
        s.config matches Some(c) ==> (1 <= ps.len() <= MAX_BATCH_SIZE ==> {
            &&& s.spec_validate(ps) is Ok <==> forall|j: int| 0 <= j < ps.len()
                ==> c.min_amount <= #[trigger] ps[j].amount <= c.max_amount && ps[j].memo@.len() > 0
            &&& 0 <= i < ps.len()
                && (forall|j: int| 0 <= j < i ==> c.min_amount <= #[trigger] ps[j].amount <= c.max_amount
                    && ps[j].memo@.len() > 0)
                && !(c.min_amount <= ps[i].amount <= c.max_amount && ps[i].memo@.len() > 0)
                ==> s.spec_validate(ps) == Err::<(), BatchError>(if c.min_amount <= ps[i].amount <= c.max_amount {
                    BatchError::EmptyMemo { index: i as u32 }
                } else {
                    BatchError::AmountOutsideLimits
                })
        }),
{
    if let Some(c) = s.config {
        if 1 <= ps.len() <= MAX_BATCH_SIZE {
            if forall|j: int| 0 <= j < ps.len() ==> c.min_amount <= #[trigger] ps[j].amount <= c.max_amount
                && ps[j].memo@.len() > 0 {
                assert forall|j: int| 0 <= j < ps.len() implies #[trigger] item_error(ps[j], j, c.min_amount, c.max_amount) is None by {
                    assert(c.min_amount <= ps[j].amount <= c.max_amount && ps[j].memo@.len() > 0);
                }
                lemma_first_error_at(ps, c.min_amount, c.max_amount, 0, ps.len() as int);
            }
            if s.spec_validate(ps) is Ok {
                assert forall|j: int| 0 <= j < ps.len() implies c.min_amount <= #[trigger] ps[j].amount <= c.max_amount
                    && ps[j].memo@.len() > 0 by {
                    lemma_valid_batch_items(s, ps, j);
                }
            }
            if 0 <= i < ps.len() && (forall|j: int| 0 <= j < i ==> c.min_amount <= #[trigger] ps[j].amount <= c.max_amount
                && ps[j].memo@.len() > 0) {
                assert forall|j: int| 0 <= j < i implies #[trigger] item_error(ps[j], j, c.min_amount, c.max_amount) is None by {
                    assert(c.min_amount <= ps[j].amount <= c.max_amount && ps[j].memo@.len() > 0);
                }
                lemma_first_error_at(ps, c.min_amount, c.max_amount, 0, i);
            }
        }
    }
}

/// A request to the batch contract.
pub enum BatchOp {
    Init { admin: AccountId, min_amount: i128, max_amount: i128 },
    SetLimits { min_amount: i128, max_amount: i128 },
    CreateBatch { merchant_xdr: Seq<u8>, payments: Seq<PaymentInput> },
}

/// The state after request `op`; a refused request changes nothing.
pub open spec fn spec_step(s: BatchState, op: BatchOp) -> BatchState {
    match op {
        BatchOp::Init { admin, min_amount, max_amount } => match spec_init(s, admin, min_amount, max_amount) {
            Ok(t) => t,
            Err(_) => s,
        },
        BatchOp::SetLimits { min_amount, max_amount } => match spec_set_limits(s, min_amount, max_amount) {
            Ok(t) => t,
            Err(_) => s,
        },
        BatchOp::CreateBatch { merchant_xdr, payments } => match s.spec_create_batch(merchant_xdr, payments) {
            Ok((_, t)) => t,
            Err(_) => s,
        },
    }
}

/// The state after the requests `ops`, in order.
pub open spec fn spec_run(s: BatchState, ops: Seq<BatchOp>) -> BatchState
    decreases ops.len(),
{
    if ops.len() == 0 { s } else { spec_step(spec_run(s, ops.drop_last()), ops.last()) }
}

/// Request `op` made in state `s` stays within the counter's range.
pub open spec fn step_fits(s: BatchState, op: BatchOp) -> bool {
    match op {
        BatchOp::CreateBatch { payments, .. } => payments.len() <= MAX_BATCH_SIZE ==> s.counter + payments.len() <= u64::MAX,
        _ => true,
    }
}

/// The limits request `op` made in state `s` sets, if it is a limits
/// request that succeeds.
pub open spec fn sets_limits(s: BatchState, op: BatchOp) -> Option<(i128, i128)> {
    match op {
        BatchOp::Init { admin, min_amount, max_amount } =>
            if spec_init(s, admin, min_amount, max_amount) is Ok { Some((min_amount, max_amount)) } else { None },
        BatchOp::SetLimits { min_amount, max_amount } =>
            if spec_set_limits(s, min_amount, max_amount) is Ok { Some((min_amount, max_amount)) } else { None },
        _ => None,
    }
}

/// One request keeps the state well formed.
pub proof fn lemma_step_keeps_wf(s: BatchState, op: BatchOp)
    requires
        s.wf(),
        step_fits(s, op),
    ensures
        spec_step(s, op).wf(),
{
    match op {
        BatchOp::CreateBatch { merchant_xdr, payments } => {
            if s.spec_validate(payments) is Ok {
                lemma_valid_batch_items(s, payments, 0);
                let ids = batch_ids(merchant_xdr, s.counter, payments);
                if s.fresh_ids(ids) {
                    lemma_with_payments_keeps_wf(s, merchant_xdr, payments, ids);
                }
            }
        },
        _ => {},
    }
}

/// Over any history of requests the state stays well formed: the counter
/// equals the number of payments created, each payment's ID is the one
/// derived from its own counter value, and no two payments share an ID.
pub proof fn lemma_history_keeps_wf(s: BatchState, ops: Seq<BatchOp>)
    requires
        s.wf(),
        forall|k: int| 0 <= k < ops.len() ==> step_fits(#[trigger] spec_run(s, ops.take(k)), ops[k]),
    ensures
        spec_run(s, ops).wf(),
    decreases ops.len(),
{
    if ops.len() > 0 {
        let prev = ops.drop_last();
        assert forall|k: int| 0 <= k < prev.len() implies step_fits(#[trigger] spec_run(s, prev.take(k)), prev[k]) by {
            assert(prev.take(k) =~= ops.take(k));
            assert(step_fits(spec_run(s, ops.take(k)), ops[k]));
        }
        lemma_history_keeps_wf(s, prev);
        assert(ops.take(ops.len() - 1) =~= prev);
        assert(step_fits(spec_run(s, ops.take(ops.len() - 1)), ops[ops.len() - 1]));
        lemma_step_keeps_wf(spec_run(s, prev), ops.last());
    }
}

/// One request changes the limits only when it is a limits request that
/// succeeds, and then to its arguments.
pub proof fn lemma_step_limits(s: BatchState, op: BatchOp)
    ensures
        spec_step(s, op).limits() == match sets_limits(s, op) {
            Some(l) => Some(l),
            None => s.limits(),
        },
{
}

/// `get_limits` returns the limits last set: if request `k` of `ops` set
/// them to `l` and no later request set them, they are `l` after all of
/// `ops`.
pub proof fn lemma_limits_are_last_set(s: BatchState, ops: Seq<BatchOp>, k: int, l: (i128, i128))
    requires
        0 <= k < ops.len(),
        sets_limits(spec_run(s, ops.take(k)), ops[k]) == Some(l),
        forall|j: int| k < j < ops.len() ==> sets_limits(#[trigger] spec_run(s, ops.take(j)), ops[j]) is None,
    ensures
        spec_run(s, ops).limits() == Some(l),
    decreases ops.len(),
{
    let prev = ops.drop_last();
    assert(ops.take(ops.len() - 1) =~= prev);
    lemma_step_limits(spec_run(s, prev), ops.last());
    if k < ops.len() - 1 {
        assert forall|j: int| k < j < prev.len() implies sets_limits(#[trigger] spec_run(s, prev.take(j)), prev[j]) is None by {
            assert(prev.take(j) =~= ops.take(j));
            assert(sets_limits(spec_run(s, ops.take(j)), ops[j]) is None);
        }
        assert(prev.take(k) =~= ops.take(k));
        lemma_limits_are_last_set(s, prev, k, l);
        assert(sets_limits(spec_run(s, ops.take(ops.len() - 1)), ops[ops.len() - 1]) is None);
    }
}

/// Until an `init` succeeds there are no limits, and `get_limits` refuses.
pub proof fn lemma_no_limits_before_init(s: BatchState, ops: Seq<BatchOp>)
    requires
        s.config.is_none(),
        forall|j: int| 0 <= j < ops.len() ==> !(#[trigger] ops[j] is Init),
    ensures
        spec_run(s, ops).config.is_none(),
    decreases ops.len(),
{
    if ops.len() > 0 {
        lemma_no_limits_before_init(s, ops.drop_last());
        assert(!(ops[ops.len() - 1] is Init));
    }
}

} // verus!
