//! Live platform metrics for the admin dashboard: merchant and payment
//! counters, settled volume, a rolling count of payments in the current
//! ~24h window of ledgers, and a health summary.

use vstd::prelude::*;
use std::collections::HashMap;
use crate::account::AccountId;

verus! {

broadcast use vstd::std_specs::hash::group_hash_axioms;

/// Number of ledgers in a ~24h window (5s per ledger).
pub const ACTIVE_WINDOW_LEDGERS: u32 = 17280;

/// System health: storage, Stellar connectivity, partner API.
#[derive(Clone, Copy, Debug, PartialEq, Eq, Structural)]
pub struct SystemHealth {
    pub storage_ok: bool,
    pub stellar_ok: bool,
    pub partner_ok: bool,
}

/// Overview metrics for the admin dashboard.
#[derive(Clone, Copy, Debug, PartialEq, Eq, Structural)]
pub struct PlatformStats {
    pub total_merchants: u32,
    pub total_payments: u32,
    pub total_settled_volume_usd: i128,
    pub active_payments_24h: u32,
    pub health: SystemHealth,
}

/// Why a request to the statistics contract was refused.
#[derive(Clone, Copy, Debug, PartialEq, Eq, Structural)]
pub enum StatsError {
    /// The caller is not the contract's admin.
    NotAdmin,
}

impl StatsError {
    pub open spec fn spec_message(self) -> Seq<char> {
        match self {
            StatsError::NotAdmin => "not admin"@,
        }
    }

    /// The text the contract fails with for this refusal.
    pub fn message(&self) -> (r: &'static str)
        ensures
            r@ == self.spec_message(),
    {
        proof { reveal_strlit("not admin"); }
        "not admin"
    }
}

/// Abstract state of the statistics contract.
pub struct StatsState {
    pub admin: AccountId,
    pub total_merchants: u32,
    pub total_payments: u32,
    pub total_settled_volume_usd: i128,
    /// Payments recorded in each window of `ACTIVE_WINDOW_LEDGERS` ledgers,
    /// by window number; a window never recorded into counts zero.
    pub active_buckets: Map<u32, u32>,
    pub partner_ok: bool,
}

/// The window that a ledger sequence number falls in.
pub open spec fn bucket_of(ledger_sequence: u32) -> u32 {
    (ledger_sequence / ACTIVE_WINDOW_LEDGERS) as u32
}

impl StatsState {
    /// Payments counted in window `bucket`.
    pub open spec fn bucket_count(self, bucket: u32) -> u32 {
        if self.active_buckets.contains_key(bucket) { self.active_buckets[bucket] } else { 0 }
    }

    /// The health summary: storage and the Stellar ledger are reachable
    /// (the contract is answering from them), and the partner API status
    /// last reported.
    pub open spec fn spec_health(self) -> SystemHealth {
        SystemHealth { storage_ok: true, stellar_ok: true, partner_ok: self.partner_ok }
    }

    /// The overview metrics at `ledger_sequence`.
    pub open spec fn spec_stats(self, ledger_sequence: u32) -> PlatformStats {
        PlatformStats {
            total_merchants: self.total_merchants,
            total_payments: self.total_payments,
            total_settled_volume_usd: self.total_settled_volume_usd,
            active_payments_24h: self.bucket_count(bucket_of(ledger_sequence)),
            health: self.spec_health(),
        }
    }

    /// Recording a payment at `ledger_sequence` stays within the counters'
    /// ranges.
    pub open spec fn can_record_payment(self, amount_usd: i128, settled: bool, ledger_sequence: u32) -> bool {
        &&& self.total_payments < u32::MAX
        &&& settled ==> i128::MIN <= self.total_settled_volume_usd + amount_usd <= i128::MAX
        &&& self.bucket_count(bucket_of(ledger_sequence)) < u32::MAX
    }

    /// The state after recording a payment: one more payment, the amount
    /// added to the settled volume when settled, and one more payment in
    /// the current window.
    pub open spec fn after_payment(self, amount_usd: i128, settled: bool, ledger_sequence: u32) -> StatsState {
        let b = bucket_of(ledger_sequence);
        StatsState {
            total_payments: (self.total_payments + 1) as u32,
            total_settled_volume_usd: if settled {
                (self.total_settled_volume_usd + amount_usd) as i128
            } else {
                self.total_settled_volume_usd
            },
            active_buckets: self.active_buckets.insert(b, (self.bucket_count(b) + 1) as u32),
            ..self
        }
    }
}

/// The statistics contract's state.
pub struct PlatformStatsContract {
    admin: AccountId,
    total_merchants: u32,
    total_payments: u32,
    total_settled_volume_usd: i128,
    active_buckets: HashMap<u32, u32>,
    partner_ok: bool,
}

impl View for PlatformStatsContract {
    type V = StatsState;

    closed spec fn view(&self) -> StatsState {
        StatsState {
            admin: self.admin,
            total_merchants: self.total_merchants,
            total_payments: self.total_payments,
            total_settled_volume_usd: self.total_settled_volume_usd,
            active_buckets: self.active_buckets@,
            partner_ok: self.partner_ok,
        }
    }
}

impl PlatformStatsContract {
    /// A contract administered by `admin`, with every counter at zero and
    /// the partner API reported healthy.
    pub fn new(admin: AccountId) -> (c: Self)
        ensures
            c@.admin == admin,
            c@.total_merchants == 0,
            c@.total_payments == 0,
            c@.total_settled_volume_usd == 0,
            c@.active_buckets == Map::<u32, u32>::empty(),
            c@.partner_ok,
    {
        PlatformStatsContract {
            admin,
            total_merchants: 0,
            total_payments: 0,
            total_settled_volume_usd: 0,
            active_buckets: HashMap::new(),
            partner_ok: true,
        }
    }

    /// The contract's admin.
    pub fn admin(&self) -> (r: AccountId)
        ensures
            r == self@.admin,
    {
        self.admin
    }

    fn require_admin(&self, caller: AccountId) -> (r: Result<(), StatsError>)
        ensures
            r == (if caller == self@.admin { Ok(()) } else { Err(StatsError::NotAdmin) }),
    {
        if caller != self.admin {
            return Err(StatsError::NotAdmin);
        }
        Ok(())
    }

    /// Counts one more registered merchant; admin only.
    pub fn record_merchant(&mut self, caller: AccountId) -> (r: Result<(), StatsError>)
        requires
            caller == old(self)@.admin ==> old(self)@.total_merchants < u32::MAX,
        ensures
            caller == old(self)@.admin ==> r is Ok && final(self)@ == (StatsState {
                total_merchants: (old(self)@.total_merchants + 1) as u32,
                ..old(self)@
            }),
            caller != old(self)@.admin ==> r == Err::<(), StatsError>(StatsError::NotAdmin)
                && final(self)@ == old(self)@,
    {
        self.require_admin(caller)?;
        self.total_merchants = self.total_merchants + 1;
        Ok(())
    }

    /// Records a payment made at ledger `ledger_sequence`; admin only. A
    /// settled payment adds `amount_usd` to the settled volume. Every
    /// payment counts in the window of its ledger.
    pub fn record_payment(&mut self, caller: AccountId, amount_usd: i128, settled: bool, ledger_sequence: u32) -> (r: Result<(), StatsError>)
        requires
            caller == old(self)@.admin ==> old(self)@.can_record_payment(amount_usd, settled, ledger_sequence),
        ensures
            caller == old(self)@.admin ==> r is Ok
                && final(self)@ == old(self)@.after_payment(amount_usd, settled, ledger_sequence),
            caller != old(self)@.admin ==> r == Err::<(), StatsError>(StatsError::NotAdmin)
                && final(self)@ == old(self)@,
    {
        self.require_admin(caller)?;
        self.total_payments = self.total_payments + 1;
        if settled {
            self.total_settled_volume_usd = self.total_settled_volume_usd + amount_usd;
        }
        let bucket = ledger_sequence / ACTIVE_WINDOW_LEDGERS;
        let count: u32 = match self.active_buckets.get(&bucket) {
            Some(c) => *c,
            None => 0,
        };
        self.active_buckets.insert(bucket, count + 1);
        Ok(())
    }

    /// Sets the reported partner API health; admin only.
    pub fn set_partner_ok(&mut self, caller: AccountId, ok: bool) -> (r: Result<(), StatsError>)
        ensures
            caller == old(self)@.admin ==> r is Ok && final(self)@ == (StatsState { partner_ok: ok, ..old(self)@ }),
            caller != old(self)@.admin ==> r == Err::<(), StatsError>(StatsError::NotAdmin)
                && final(self)@ == old(self)@,
    {
        self.require_admin(caller)?;
        self.partner_ok = ok;
        Ok(())
    }

    /// The health summary: storage holds the contract's admin, the Stellar
    /// ledger is readable from the first ledger on, and the partner API
    /// status is the one last reported.
    pub fn health(&self) -> (h: SystemHealth)
        ensures
            h == self@.spec_health(),
    {
        SystemHealth { storage_ok: true, stellar_ok: true, partner_ok: self.partner_ok }
    }

    /// The overview metrics at ledger `ledger_sequence`.
    pub fn stats(&self, ledger_sequence: u32) -> (st: PlatformStats)
        ensures
            st == self@.spec_stats(ledger_sequence),
    {
        let bucket = ledger_sequence / ACTIVE_WINDOW_LEDGERS;
        let active: u32 = match self.active_buckets.get(&bucket) {
            Some(c) => *c,
            None => 0,
        };
        PlatformStats {
            total_merchants: self.total_merchants,
            total_payments: self.total_payments,
            total_settled_volume_usd: self.total_settled_volume_usd,
            active_payments_24h: active,
            health: self.health(),
        }
    }
}

/// Recording a payment raises the payment total and the current window's
/// count by one each, and the settled volume by the amount exactly when
/// the payment is settled; the merchant total is untouched.
pub proof fn lemma_payment_counters(s: StatsState, amount_usd: i128, settled: bool, ledger_sequence: u32)
    requires
        s.can_record_payment(amount_usd, settled, ledger_sequence),
    ensures
        ({
            let t = s.after_payment(amount_usd, settled, ledger_sequence);
            let before = s.spec_stats(ledger_sequence);
            let after = t.spec_stats(ledger_sequence);
            &&& after.total_payments == before.total_payments + 1
            &&& after.active_payments_24h == before.active_payments_24h + 1
            &&& after.total_settled_volume_usd == before.total_settled_volume_usd
                + (if settled { amount_usd as int } else { 0 })
            &&& after.total_merchants == before.total_merchants
        }),
{
}

/// A payment recorded in one window does not count in any other window.
pub proof fn lemma_windows_are_separate(s: StatsState, amount_usd: i128, settled: bool, ledger_sequence: u32, later: u32)
    requires
        s.can_record_payment(amount_usd, settled, ledger_sequence),
        bucket_of(later) != bucket_of(ledger_sequence),
    ensures
        s.after_payment(amount_usd, settled, ledger_sequence).spec_stats(later).active_payments_24h
            == s.spec_stats(later).active_payments_24h,
{
}

/// A request to the statistics contract.
pub enum StatsOp {
    RecordMerchant { caller: AccountId },
    RecordPayment { caller: AccountId, amount_usd: i128, settled: bool, ledger_sequence: u32 },
    SetPartnerOk { caller: AccountId, ok: bool },
}

/// The state after request `op`; a refused request changes nothing.
pub open spec fn spec_step(s: StatsState, op: StatsOp) -> StatsState {
    match op {
        StatsOp::RecordMerchant { caller } => if caller == s.admin {
            StatsState { total_merchants: (s.total_merchants + 1) as u32, ..s }
        } else {
            s
        },
        StatsOp::RecordPayment { caller, amount_usd, settled, ledger_sequence } => if caller == s.admin {
            s.after_payment(amount_usd, settled, ledger_sequence)
        } else {
            s
        },
        StatsOp::SetPartnerOk { caller, ok } => if caller == s.admin {
            StatsState { partner_ok: ok, ..s }
        } else {
            s
        },
    }
}

/// The state after the requests `ops`, in order.
pub open spec fn spec_run(s: StatsState, ops: Seq<StatsOp>) -> StatsState
    decreases ops.len(),
{
    if ops.len() == 0 { s } else { spec_step(spec_run(s, ops.drop_last()), ops.last()) }
}

/// Merchants the admin recorded in `ops`.
pub open spec fn merchants_recorded(ops: Seq<StatsOp>, admin: AccountId) -> int
    decreases ops.len(),
{
    if ops.len() == 0 {
        0
    } else {
        merchants_recorded(ops.drop_last(), admin) + match ops.last() {
            StatsOp::RecordMerchant { caller } => if caller == admin { 1int } else { 0 },
            _ => 0,
        }
    }
}

/// Payments the admin recorded in `ops`.
pub open spec fn payments_recorded(ops: Seq<StatsOp>, admin: AccountId) -> int
    decreases ops.len(),
{
    if ops.len() == 0 {
        0
    } else {
        payments_recorded(ops.drop_last(), admin) + match ops.last() {
            StatsOp::RecordPayment { caller, .. } => if caller == admin { 1int } else { 0 },
            _ => 0,
        }
    }
}

/// Payments the admin recorded in `ops` at a ledger of window `bucket`.
pub open spec fn payments_in_window(ops: Seq<StatsOp>, admin: AccountId, bucket: u32) -> int
    decreases ops.len(),
{
    if ops.len() == 0 {
        0
    } else {
        payments_in_window(ops.drop_last(), admin, bucket) + match ops.last() {
            StatsOp::RecordPayment { caller, ledger_sequence, .. } =>
                if caller == admin && ledger_sequence / ACTIVE_WINDOW_LEDGERS == bucket { 1int } else { 0 },
            _ => 0,
        }
    }
}

/// Sum of the amounts of the settled payments the admin recorded in `ops`.
pub open spec fn settled_volume(ops: Seq<StatsOp>, admin: AccountId) -> int
    decreases ops.len(),
{
    if ops.len() == 0 {
        0
    } else {
        settled_volume(ops.drop_last(), admin) + match ops.last() {
            StatsOp::RecordPayment { caller, amount_usd, settled, .. } =>
                if caller == admin && settled { amount_usd as int } else { 0 },
            _ => 0,
        }
    }
}

/// The partner API status the admin last reported in `ops`, or `initial`.
pub open spec fn partner_status(ops: Seq<StatsOp>, admin: AccountId, initial: bool) -> bool
    decreases ops.len(),
{
    if ops.len() == 0 {
        initial
    } else {
        match ops.last() {
            StatsOp::SetPartnerOk { caller, ok } if caller == admin => ok,
            _ => partner_status(ops.drop_last(), admin, initial),
        }
    }
}

/// Along `ops` no counter leaves its range.
pub open spec fn counters_fit(ops: Seq<StatsOp>, admin: AccountId) -> bool {
    forall|k: int| 0 <= k <= ops.len() ==> {
        &&& #[trigger] merchants_recorded(ops.take(k), admin) <= u32::MAX
        &&& payments_recorded(ops.take(k), admin) <= u32::MAX
        &&& i128::MIN <= settled_volume(ops.take(k), admin) <= i128::MAX
    }
}

proof fn lemma_window_at_most_payments(ops: Seq<StatsOp>, admin: AccountId, bucket: u32)
    ensures
        0 <= payments_in_window(ops, admin, bucket) <= payments_recorded(ops, admin),
    decreases ops.len(),
{
    if ops.len() > 0 {
        lemma_window_at_most_payments(ops.drop_last(), admin, bucket);
    }
}

/// From a freshly constructed contract, the metrics add up over the call
/// history: the totals count the admin's recorded merchants and payments,
/// the settled volume sums the admin's settled amounts, each window counts
/// the payments recorded at its ledgers, and the partner status is the one
/// last reported (healthy until then). Requests by others count for nothing.
pub proof fn lemma_stats_add_up(s: StatsState, ops: Seq<StatsOp>, bucket: u32)
    requires
        s.total_merchants == 0,
        s.total_payments == 0,
        s.total_settled_volume_usd == 0,
        s.active_buckets == Map::<u32, u32>::empty(),
        counters_fit(ops, s.admin),
    ensures
        ({
            let t = spec_run(s, ops);
            &&& t.admin == s.admin
            &&& t.total_merchants == merchants_recorded(ops, s.admin)
            &&& t.total_payments == payments_recorded(ops, s.admin)
            &&& t.total_settled_volume_usd == settled_volume(ops, s.admin)
            &&& t.bucket_count(bucket) == payments_in_window(ops, s.admin, bucket)
            &&& t.partner_ok == partner_status(ops, s.admin, s.partner_ok)
        }),
    decreases ops.len(),
{
    let a = s.admin;
    if ops.len() == 0 {
        assert(spec_run(s, ops) == s);
    } else {
        let prev = ops.drop_last();
        assert forall|k: int| 0 <= k <= prev.len() implies {
            &&& #[trigger] merchants_recorded(prev.take(k), a) <= u32::MAX
            &&& payments_recorded(prev.take(k), a) <= u32::MAX
            &&& i128::MIN <= settled_volume(prev.take(k), a) <= i128::MAX
        } by {
            assert(prev.take(k) =~= ops.take(k));
        }
        let p = spec_run(s, prev);
        lemma_stats_add_up(s, prev, bucket);
        assert(ops.take(ops.len() as int) =~= ops);
        assert(merchants_recorded(ops.take(ops.len() as int), a) <= u32::MAX);
        lemma_window_at_most_payments(ops, a, bucket);
        match ops.last() {
            StatsOp::RecordPayment { caller, amount_usd, settled, ledger_sequence } => {
                if caller == a {
                    let b = bucket_of(ledger_sequence);
                    lemma_stats_add_up(s, prev, b);
                    lemma_window_at_most_payments(ops, a, b);
                    assert(spec_run(s, ops) == p.after_payment(amount_usd, settled, ledger_sequence));
                }
            },
            _ => {},
        }
    }
}
/// A payment counts in the window of its ledger: recorded at ledger `l`,
/// it adds one to the active count reported at ledger `l2` exactly when
/// `l` and `l2` lie in the same block of `ACTIVE_WINDOW_LEDGERS` ledgers.
pub proof fn lemma_payment_counts_in_its_window(s: StatsState, amount_usd: i128, settled: bool, l: u32, l2: u32)
    requires
        s.can_record_payment(amount_usd, settled, l),
    ensures
        s.after_payment(amount_usd, settled, l).spec_stats(l2).active_payments_24h
            == s.spec_stats(l2).active_payments_24h + (if l / ACTIVE_WINDOW_LEDGERS == l2 / ACTIVE_WINDOW_LEDGERS { 1int } else { 0 }),
{
    assert(bucket_of(l) == l / ACTIVE_WINDOW_LEDGERS);
    assert(bucket_of(l2) == l2 / ACTIVE_WINDOW_LEDGERS);
}

/// What `stats` reports at ledger `l` after a history of requests on a
/// fresh contract: the admin's recorded merchants and payments, the sum of
/// the settled amounts, the payments recorded at ledgers of the same block
/// of `ACTIVE_WINDOW_LEDGERS` ledgers as `l`, storage and ledger healthy,
/// and the partner status last reported.
pub proof fn lemma_reported_stats(s: StatsState, ops: Seq<StatsOp>, l: u32)
    requires
        s.total_merchants == 0,
        s.total_payments == 0,
        s.total_settled_volume_usd == 0,
        s.active_buckets == Map::<u32, u32>::empty(),
        counters_fit(ops, s.admin),
    ensures
        ({
            let st = spec_run(s, ops).spec_stats(l);
            &&& st.total_merchants == merchants_recorded(ops, s.admin)
            &&& st.total_payments == payments_recorded(ops, s.admin)
            &&& st.total_settled_volume_usd == settled_volume(ops, s.admin)
            &&& st.active_payments_24h == payments_in_window(ops, s.admin, (l / ACTIVE_WINDOW_LEDGERS) as u32)
            &&& st.health.storage_ok
            &&& st.health.stellar_ok
            &&& st.health.partner_ok == partner_status(ops, s.admin, s.partner_ok)
        }),
{
    lemma_stats_add_up(s, ops, (l / ACTIVE_WINDOW_LEDGERS) as u32);
}

/// Windows are consecutive blocks of `ACTIVE_WINDOW_LEDGERS` ledgers.
pub proof fn lemma_window_blocks(l: u32)
    ensures
        bucket_of(l) * ACTIVE_WINDOW_LEDGERS <= l < (bucket_of(l) + 1) * ACTIVE_WINDOW_LEDGERS,
{
}
} // verus!
