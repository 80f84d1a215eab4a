//! Merchant registry: the admin registers merchants and moves them through
//! their lifecycle (Active, Suspended, Terminated), sets their KYC status and
//! negotiated fee; anyone may query them, one by one or a page at a time in
//! registration order.

use vstd::prelude::*;
use std::collections::HashMap;
use crate::account::AccountId;
use crate::host::concat_bytes;

verus! {

broadcast use vstd::std_specs::hash::group_hash_axioms;

/// Default fee rate applied to newly registered merchants: 150 bps (1.5%).
pub const DEFAULT_FEE_BPS: u32 = 150;

/// Upper bound on the fee rate an admin can set for a merchant: 1000 bps (10%).
pub const MAX_FEE_BPS: u32 = 1000;

/// Lifecycle states for a registered merchant.
#[derive(Clone, Copy, Debug, PartialEq, Eq, Structural)]
pub enum MerchantStatus {
    Active,
    Suspended,
    Terminated,
}

/// A registered merchant.
#[derive(Clone, Debug)]
pub struct MerchantRecord {
    pub merchant: AccountId,
    pub name: Vec<u8>,
    pub status: MerchantStatus,
    pub kyc_verified: bool,
    /// Negotiated fee rate, in basis points.
    pub fee_bps: u32,
}

/// A registered merchant as the contracts speak of it.
pub struct MerchantView {
    pub merchant: AccountId,
    pub name: Seq<u8>,
    pub status: MerchantStatus,
    pub kyc_verified: bool,
    pub fee_bps: u32,
}

impl View for MerchantRecord {
    type V = MerchantView;

    open spec fn view(&self) -> MerchantView {
        MerchantView {
            merchant: self.merchant,
            name: self.name@,
            status: self.status,
            kyc_verified: self.kyc_verified,
            fee_bps: self.fee_bps,
        }
    }
}

impl MerchantRecord {
    /// A copy of the record.
    pub fn duplicate(&self) -> (r: MerchantRecord)
        ensures
            r@ == self@,
    {
        MerchantRecord {
            merchant: self.merchant,
            name: concat_bytes(self.name.as_slice(), &[]),
            status: self.status,
            kyc_verified: self.kyc_verified,
            fee_bps: self.fee_bps,
        }
    }
}

/// Why a request to the registry was refused.
#[derive(Clone, Copy, Debug, PartialEq, Eq, Structural)]
pub enum RegistryError {
    NotAdmin,
    AlreadyRegistered,
    MerchantNotFound,
    AlreadySuspended,
    MerchantTerminated,
    AlreadyActive,
    CannotReactivateTerminated,
    AlreadyTerminated,
    FeeAboveMaximum,
    ZeroPageSize,
}

impl RegistryError {
    pub open spec fn spec_message(self) -> Seq<char> {
        match self {
            RegistryError::NotAdmin => "Not admin"@,
            RegistryError::AlreadyRegistered => "Merchant already registered"@,
            RegistryError::MerchantNotFound => "Merchant not found"@,
            RegistryError::AlreadySuspended => "Merchant already suspended"@,
            RegistryError::MerchantTerminated => "Merchant is terminated"@,
            RegistryError::AlreadyActive => "Merchant already active"@,
            RegistryError::CannotReactivateTerminated => "Cannot reactivate terminated merchant"@,
            RegistryError::AlreadyTerminated => "Merchant already terminated"@,
            RegistryError::FeeAboveMaximum => "fee_bps exceeds maximum of 1000"@,
            RegistryError::ZeroPageSize => "page size must be > 0"@,
        }
    }

    /// The text the contract fails with for this refusal.
    pub fn message(&self) -> (r: &'static str)
        ensures
            r@ == self.spec_message(),
    {
        match self {
            RegistryError::NotAdmin => {
                proof { reveal_strlit("Not admin"); }
                "Not admin"
            },
            RegistryError::AlreadyRegistered => {
                proof { reveal_strlit("Merchant already registered"); }
                "Merchant already registered"
            },
            RegistryError::MerchantNotFound => {
                proof { reveal_strlit("Merchant not found"); }
                "Merchant not found"
            },
            RegistryError::AlreadySuspended => {
                proof { reveal_strlit("Merchant already suspended"); }
                "Merchant already suspended"
            },
            RegistryError::MerchantTerminated => {
                proof { reveal_strlit("Merchant is terminated"); }
                "Merchant is terminated"
            },
            RegistryError::AlreadyActive => {
                proof { reveal_strlit("Merchant already active"); }
                "Merchant already active"
            },
            RegistryError::CannotReactivateTerminated => {
                proof { reveal_strlit("Cannot reactivate terminated merchant"); }
                "Cannot reactivate terminated merchant"
            },
            RegistryError::AlreadyTerminated => {
                proof { reveal_strlit("Merchant already terminated"); }
                "Merchant already terminated"
            },
            RegistryError::FeeAboveMaximum => {
                proof { reveal_strlit("fee_bps exceeds maximum of 1000"); }
                "fee_bps exceeds maximum of 1000"
            },
            RegistryError::ZeroPageSize => {
                proof { reveal_strlit("page size must be > 0"); }
                "page size must be > 0"
            },
        }
    }
}

/// Abstract state of the registry: its admin, the record of each
/// registered merchant, and the merchants in registration order.
pub struct RegistryState {
    pub admin: AccountId,
    pub merchants: Map<AccountId, MerchantView>,
    pub order: Seq<AccountId>,
}

impl RegistryState {
    /// The listing holds each registered merchant exactly once, each record
    /// is stored under its own merchant, and no fee exceeds the maximum.
    pub open spec fn wf(self) -> bool {
        &&& self.order.no_duplicates()
        &&& forall|a: AccountId| #[trigger] self.merchants.contains_key(a) <==> self.order.contains(a)
        &&& forall|a: AccountId| #[trigger] self.merchants.contains_key(a) ==> {
            &&& self.merchants[a].merchant == a
            &&& self.merchants[a].fee_bps <= MAX_FEE_BPS
        }
    }

    /// The state with `record` stored for `merchant`, an already registered
    /// merchant.
    pub open spec fn with_record(self, merchant: AccountId, record: MerchantView) -> RegistryState {
        RegistryState { merchants: self.merchants.insert(merchant, record), ..self }
    }

    /// Whether `merchant` is registered and Active.
    pub open spec fn is_active(self, merchant: AccountId) -> bool {
        self.merchants.contains_key(merchant) && self.merchants[merchant].status == MerchantStatus::Active
    }

    /// Whether `merchant` is registered and KYC verified.
    pub open spec fn is_kyc_verified(self, merchant: AccountId) -> bool {
        self.merchants.contains_key(merchant) && self.merchants[merchant].kyc_verified
    }

    /// Whether `merchant` is registered, Active and KYC verified.
    pub open spec fn is_approved(self, merchant: AccountId) -> bool {
        self.is_active(merchant) && self.merchants[merchant].kyc_verified
    }
}

/// The record a newly registered merchant gets.
pub open spec fn new_record(merchant: AccountId, name: Seq<u8>) -> MerchantView {
    MerchantView { merchant, name, status: MerchantStatus::Active, kyc_verified: false, fee_bps: DEFAULT_FEE_BPS }
}

/// Outcome of `register_merchant`.
pub open spec fn spec_register(s: RegistryState, caller: AccountId, merchant: AccountId, name: Seq<u8>) -> Result<RegistryState, RegistryError> {
    if caller != s.admin {
        Err(RegistryError::NotAdmin)
    } else if s.merchants.contains_key(merchant) {
        Err(RegistryError::AlreadyRegistered)
    } else {
        Ok(RegistryState {
            admin: s.admin,
            merchants: s.merchants.insert(merchant, new_record(merchant, name)),
            order: s.order.push(merchant),
        })
    }
}

/// Outcome of `update_merchant`: the name changes.
pub open spec fn spec_update(s: RegistryState, caller: AccountId, merchant: AccountId, name: Seq<u8>) -> Result<RegistryState, RegistryError> {
    if caller != s.admin {
        Err(RegistryError::NotAdmin)
    } else if !s.merchants.contains_key(merchant) {
        Err(RegistryError::MerchantNotFound)
    } else {
        Ok(s.with_record(merchant, MerchantView { name, ..s.merchants[merchant] }))
    }
}

/// Outcome of `suspend_merchant`: an Active merchant becomes Suspended.
pub open spec fn spec_suspend(s: RegistryState, caller: AccountId, merchant: AccountId) -> Result<RegistryState, RegistryError> {
    if caller != s.admin {
        Err(RegistryError::NotAdmin)
    } else if !s.merchants.contains_key(merchant) {
        Err(RegistryError::MerchantNotFound)
    } else if s.merchants[merchant].status == MerchantStatus::Suspended {
        Err(RegistryError::AlreadySuspended)
    } else if s.merchants[merchant].status == MerchantStatus::Terminated {
        Err(RegistryError::MerchantTerminated)
    } else {
        Ok(s.with_record(merchant, MerchantView { status: MerchantStatus::Suspended, ..s.merchants[merchant] }))
    }
}

/// Outcome of `reactivate_merchant`: a Suspended merchant becomes Active.
pub open spec fn spec_reactivate(s: RegistryState, caller: AccountId, merchant: AccountId) -> Result<RegistryState, RegistryError> {
    if caller != s.admin {
        Err(RegistryError::NotAdmin)
    } else if !s.merchants.contains_key(merchant) {
        Err(RegistryError::MerchantNotFound)
    } else if s.merchants[merchant].status == MerchantStatus::Active {
        Err(RegistryError::AlreadyActive)
    } else if s.merchants[merchant].status == MerchantStatus::Terminated {
        Err(RegistryError::CannotReactivateTerminated)
    } else {
        Ok(s.with_record(merchant, MerchantView { status: MerchantStatus::Active, ..s.merchants[merchant] }))
    }
}

/// Outcome of `terminate_merchant`: a merchant not yet terminated becomes
/// Terminated.
pub open spec fn spec_terminate(s: RegistryState, caller: AccountId, merchant: AccountId) -> Result<RegistryState, RegistryError> {
    if caller != s.admin {
        Err(RegistryError::NotAdmin)
    } else if !s.merchants.contains_key(merchant) {
        Err(RegistryError::MerchantNotFound)
    } else if s.merchants[merchant].status == MerchantStatus::Terminated {
        Err(RegistryError::AlreadyTerminated)
    } else {
        Ok(s.with_record(merchant, MerchantView { status: MerchantStatus::Terminated, ..s.merchants[merchant] }))
    }
}

/// Outcome of `set_kyc_status`.
pub open spec fn spec_set_kyc(s: RegistryState, caller: AccountId, merchant: AccountId, verified: bool) -> Result<RegistryState, RegistryError> {
    if caller != s.admin {
        Err(RegistryError::NotAdmin)
    } else if !s.merchants.contains_key(merchant) {
        Err(RegistryError::MerchantNotFound)
    } else {
        Ok(s.with_record(merchant, MerchantView { kyc_verified: verified, ..s.merchants[merchant] }))
    }
}

/// Outcome of `update_fee_tier`.
pub open spec fn spec_update_fee(s: RegistryState, caller: AccountId, merchant: AccountId, fee_bps: u32) -> Result<RegistryState, RegistryError> {
    if caller != s.admin {
        Err(RegistryError::NotAdmin)
    } else if fee_bps > MAX_FEE_BPS {
        Err(RegistryError::FeeAboveMaximum)
    } else if !s.merchants.contains_key(merchant) {
        Err(RegistryError::MerchantNotFound)
    } else {
        Ok(s.with_record(merchant, MerchantView { fee_bps, ..s.merchants[merchant] }))
    }
}

/// Outcome of `transfer_admin`.
pub open spec fn spec_transfer_admin(s: RegistryState, caller: AccountId, new_admin: AccountId) -> Result<RegistryState, RegistryError> {
    if caller != s.admin {
        Err(RegistryError::NotAdmin)
    } else {
        Ok(RegistryState { admin: new_admin, ..s })
    }
}

/// Every state-changing request the registry accepts.
pub enum RegistryOp {
    Register { merchant: AccountId, name: Seq<u8> },
    Update { merchant: AccountId, name: Seq<u8> },
    Suspend { merchant: AccountId },
    Reactivate { merchant: AccountId },
    Terminate { merchant: AccountId },
    SetKyc { merchant: AccountId, verified: bool },
    UpdateFee { merchant: AccountId, fee_bps: u32 },
    TransferAdmin { new_admin: AccountId },
}

/// Outcome of request `op` made by `caller`.
pub open spec fn spec_apply(s: RegistryState, caller: AccountId, op: RegistryOp) -> Result<RegistryState, RegistryError> {
    match op {
        RegistryOp::Register { merchant, name } => spec_register(s, caller, merchant, name),
        RegistryOp::Update { merchant, name } => spec_update(s, caller, merchant, name),
        RegistryOp::Suspend { merchant } => spec_suspend(s, caller, merchant),
        RegistryOp::Reactivate { merchant } => spec_reactivate(s, caller, merchant),
        RegistryOp::Terminate { merchant } => spec_terminate(s, caller, merchant),
        RegistryOp::SetKyc { merchant, verified } => spec_set_kyc(s, caller, merchant, verified),
        RegistryOp::UpdateFee { merchant, fee_bps } => spec_update_fee(s, caller, merchant, fee_bps),
        RegistryOp::TransferAdmin { new_admin } => spec_transfer_admin(s, caller, new_admin),
    }
}

/// First index of page `page` of `page_size` entries in a listing of `len`.
pub open spec fn page_start(len: int, page: int, page_size: int) -> int {
    if page * page_size < len { page * page_size } else { len }
}

/// One past the last index of page `page` of `page_size` entries.
pub open spec fn page_end(len: int, page: int, page_size: int) -> int {
    let start = page_start(len, page, page_size);
    if start + page_size < len { start + page_size } else { len }
}

/// The registry's state.
pub struct MerchantRegistryContract {
    admin: AccountId,
    merchants: HashMap<AccountId, MerchantRecord>,
    order: Vec<AccountId>,
}

impl View for MerchantRegistryContract {
    type V = RegistryState;

    closed spec fn view(&self) -> RegistryState {
        RegistryState {
            admin: self.admin,
            merchants: self.merchants@.map_values(|r: MerchantRecord| r@),
            order: self.order@,
        }
    }
}

impl MerchantRegistryContract {
    /// An empty registry administered by `admin`.
    pub fn new(admin: AccountId) -> (c: Self)
        ensures
            c@.admin == admin,
            c@.merchants == Map::<AccountId, MerchantView>::empty(),
            c@.order == Seq::<AccountId>::empty(),
            c@.wf(),
    {
        let c = MerchantRegistryContract { admin, merchants: HashMap::new(), order: Vec::new() };
        assert(c@.order =~= Seq::<AccountId>::empty());
        assert(c@.merchants =~= Map::<AccountId, MerchantView>::empty());
        c
    }

    fn require_admin(&self, caller: AccountId) -> (r: Result<(), RegistryError>)
        ensures
            r == (if caller == self@.admin { Ok(()) } else { Err(RegistryError::NotAdmin) }),
    {
        if caller != self.admin {
            return Err(RegistryError::NotAdmin);
        }
        Ok(())
    }

    /// Registers `merchant` under `name`: Active, not KYC verified, at the
    /// default fee, and last in the listing. Admin only.
    pub fn register_merchant(&mut self, caller: AccountId, merchant: AccountId, name: Vec<u8>) -> (r: Result<(), RegistryError>)
        requires
            old(self)@.wf(),
        ensures
            final(self)@.wf(),
            match spec_register(old(self)@, caller, merchant, name@) {
                Ok(s) => r is Ok && final(self)@ == s,
                Err(e) => r == Err::<(), RegistryError>(e) && final(self)@ == old(self)@,
            },
    {
        self.require_admin(caller)?;
        if self.merchants.contains_key(&merchant) {
            return Err(RegistryError::AlreadyRegistered);
        }
        let ghost s0 = self@;
        let record = MerchantRecord {
            merchant,
            name,
            status: MerchantStatus::Active,
            kyc_verified: false,
            fee_bps: DEFAULT_FEE_BPS,
        };
        let ghost rv = record@;
        self.merchants.insert(merchant, record);
        self.order.push(merchant);
        proof {
            assert(self@.merchants =~= s0.merchants.insert(merchant, rv));
            assert(self@.order.last() == merchant);
            assert forall|a: AccountId| s0.order.contains(a) implies self@.order.contains(a) by {
                let k = choose|k: int| 0 <= k < s0.order.len() && s0.order[k] == a;
                assert(self@.order[k] == a);
            }
            assert forall|a: AccountId| self@.order.contains(a) implies a == merchant || s0.order.contains(a) by {
                let k = choose|k: int| 0 <= k < self@.order.len() && self@.order[k] == a;
                if k < s0.order.len() {
                    assert(s0.order[k] == a);
                }
            }
        }
        Ok(())
    }

    /// Stores `record` for `merchant`, which is registered.
    fn put(&mut self, merchant: AccountId, record: MerchantRecord)
        requires
            old(self)@.merchants.contains_key(merchant),
        ensures
            final(self)@ == old(self)@.with_record(merchant, record@),
    {
        let ghost rv = record@;
        self.merchants.insert(merchant, record);
        assert(self@.merchants =~= old(self)@.merchants.insert(merchant, rv));
    }

    fn lookup(&self, merchant: AccountId) -> (r: Result<MerchantRecord, RegistryError>)
        ensures
            self@.merchants.contains_key(merchant) ==> (r matches Ok(rec) && rec@ == self@.merchants[merchant]),
            !self@.merchants.contains_key(merchant) ==> r == Err::<MerchantRecord, RegistryError>(RegistryError::MerchantNotFound),
    {
        match self.merchants.get(&merchant) {
            Some(record) => Ok(record.duplicate()),
            None => Err(RegistryError::MerchantNotFound),
        }
    }

    /// Renames a registered merchant. Admin only.
    pub fn update_merchant(&mut self, caller: AccountId, merchant: AccountId, name: Vec<u8>) -> (r: Result<(), RegistryError>)
        requires
            old(self)@.wf(),
        ensures
            final(self)@.wf(),
            match spec_update(old(self)@, caller, merchant, name@) {
                Ok(s) => r is Ok && final(self)@ == s,
                Err(e) => r == Err::<(), RegistryError>(e) && final(self)@ == old(self)@,
            },
    {
        self.require_admin(caller)?;
        let mut record = self.lookup(merchant)?;
        record.name = name;
        self.put(merchant, record);
        Ok(())
    }

    /// Suspends an Active merchant. Admin only.
    pub fn suspend_merchant(&mut self, caller: AccountId, merchant: AccountId) -> (r: Result<(), RegistryError>)
        requires
            old(self)@.wf(),
        ensures
            final(self)@.wf(),
            match spec_suspend(old(self)@, caller, merchant) {
                Ok(s) => r is Ok && final(self)@ == s,
                Err(e) => r == Err::<(), RegistryError>(e) && final(self)@ == old(self)@,
            },
    {
        self.require_admin(caller)?;
        let mut record = self.lookup(merchant)?;
        if record.status == MerchantStatus::Suspended {
            return Err(RegistryError::AlreadySuspended);
        }
        if record.status == MerchantStatus::Terminated {
            return Err(RegistryError::MerchantTerminated);
        }
        record.status = MerchantStatus::Suspended;
        self.put(merchant, record);
        Ok(())
    }

    /// Reactivates a Suspended merchant. Admin only.
    pub fn reactivate_merchant(&mut self, caller: AccountId, merchant: AccountId) -> (r: Result<(), RegistryError>)
        requires
            old(self)@.wf(),
        ensures
            final(self)@.wf(),
            match spec_reactivate(old(self)@, caller, merchant) {
                Ok(s) => r is Ok && final(self)@ == s,
                Err(e) => r == Err::<(), RegistryError>(e) && final(self)@ == old(self)@,
            },
    {
        self.require_admin(caller)?;
        let mut record = self.lookup(merchant)?;
        if record.status == MerchantStatus::Active {
            return Err(RegistryError::AlreadyActive);
        }
        if record.status == MerchantStatus::Terminated {
            return Err(RegistryError::CannotReactivateTerminated);
        }
        record.status = MerchantStatus::Active;
        self.put(merchant, record);
        Ok(())
    }

    /// Permanently terminates a merchant. Admin only.
    pub fn terminate_merchant(&mut self, caller: AccountId, merchant: AccountId) -> (r: Result<(), RegistryError>)
        requires
            old(self)@.wf(),
        ensures
            final(self)@.wf(),
            match spec_terminate(old(self)@, caller, merchant) {
                Ok(s) => r is Ok && final(self)@ == s,
                Err(e) => r == Err::<(), RegistryError>(e) && final(self)@ == old(self)@,
            },
    {
        self.require_admin(caller)?;
        let mut record = self.lookup(merchant)?;
        if record.status == MerchantStatus::Terminated {
            return Err(RegistryError::AlreadyTerminated);
        }
        record.status = MerchantStatus::Terminated;
        self.put(merchant, record);
        Ok(())
    }

    /// Sets the KYC verification status of a merchant. Admin only.
    pub fn set_kyc_status(&mut self, caller: AccountId, merchant: AccountId, verified: bool) -> (r: Result<(), RegistryError>)
        requires
            old(self)@.wf(),
        ensures
            final(self)@.wf(),
            match spec_set_kyc(old(self)@, caller, merchant, verified) {
                Ok(s) => r is Ok && final(self)@ == s,
                Err(e) => r == Err::<(), RegistryError>(e) && final(self)@ == old(self)@,
            },
    {
        self.require_admin(caller)?;
        let mut record = self.lookup(merchant)?;
        record.kyc_verified = verified;
        self.put(merchant, record);
        Ok(())
    }

    /// Sets a merchant's fee rate, at most `MAX_FEE_BPS`. Admin only.
    pub fn update_fee_tier(&mut self, caller: AccountId, merchant: AccountId, fee_bps: u32) -> (r: Result<(), RegistryError>)
        requires
            old(self)@.wf(),
        ensures
            final(self)@.wf(),
            match spec_update_fee(old(self)@, caller, merchant, fee_bps) {
                Ok(s) => r is Ok && final(self)@ == s,
                Err(e) => r == Err::<(), RegistryError>(e) && final(self)@ == old(self)@,
            },
    {
        self.require_admin(caller)?;
        if fee_bps > MAX_FEE_BPS {
            return Err(RegistryError::FeeAboveMaximum);
        }
        let mut record = self.lookup(merchant)?;
        record.fee_bps = fee_bps;
        self.put(merchant, record);
        Ok(())
    }

    /// The record of a registered merchant.
    pub fn get_merchant(&self, merchant: AccountId) -> (r: Result<MerchantRecord, RegistryError>)
        ensures
            self@.merchants.contains_key(merchant) ==> (r matches Ok(rec) && rec@ == self@.merchants[merchant]),
            !self@.merchants.contains_key(merchant) ==> r == Err::<MerchantRecord, RegistryError>(RegistryError::MerchantNotFound),
    {
        self.lookup(merchant)
    }

    /// Page `page` of the registered merchants, `page_size` at a time, in
    /// registration order; past the end the page is empty.
    pub fn merchants(&self, page: u32, page_size: u32) -> (r: Result<Vec<MerchantRecord>, RegistryError>)
        requires
            self@.wf(),
        ensures
            page_size == 0 ==> r == Err::<Vec<MerchantRecord>, RegistryError>(RegistryError::ZeroPageSize),
            page_size > 0 ==> (r matches Ok(v) && {
                let start = page_start(self@.order.len() as int, page as int, page_size as int);
                let end = page_end(self@.order.len() as int, page as int, page_size as int);
                &&& v@.len() == end - start
                &&& forall|i: int| 0 <= i < v@.len() ==> #[trigger] v@[i]@ == self@.merchants[self@.order[start + i]]
            }),
    {
        if page_size == 0 {
            return Err(RegistryError::ZeroPageSize);
        }
        let len: u64 = self.order.len() as u64;
        let ghost n = self@.order.len() as int;
        assert(page as int * page_size as int <= u32::MAX as int * u32::MAX as int) by (nonlinear_arith)
            requires page as int <= u32::MAX as int, page_size as int <= u32::MAX as int;
        let product: u64 = page as u64 * page_size as u64;
        let start: u64 = if product < len { product } else { len };
        let end: u64 = if start + (page_size as u64) < len { start + page_size as u64 } else { len };
        assert(start == page_start(n, page as int, page_size as int));
        assert(end == page_end(n, page as int, page_size as int));
        let start: usize = start as usize;
        let end: usize = end as usize;
        let mut out: Vec<MerchantRecord> = Vec::new();
        let mut i: usize = start;
        while i < end
            invariant
                start <= i <= end <= self@.order.len(),
                start == page_start(n, page as int, page_size as int),
                self@.wf(),
                out@.len() == i - start,
                forall|j: int| 0 <= j < out@.len() ==> #[trigger] out@[j]@ == self@.merchants[self@.order[start + j]],
            decreases end - i,
        {
            let addr = self.order[i];
            assert(self@.order.contains(addr)) by {
                assert(self@.order[i as int] == addr);
            }
            assert(self@.merchants.contains_key(addr));
            assert(self.merchants@.contains_key(addr));
            let record = match self.merchants.get(&addr) {
                Some(rec) => rec.duplicate(),
                None => {
                    assert(false);
                    return Err(RegistryError::MerchantNotFound);
                },
            };
            let ghost prev = out@;
            out.push(record);
            assert forall|j: int| 0 <= j < out@.len() implies #[trigger] out@[j]@ == self@.merchants[self@.order[start + j]] by {
                if j < prev.len() {
                    assert(out@[j] == prev[j]);
                } else {
                    assert(start + j == i);
                }
            }
            i = i + 1;
        }
        Ok(out)
    }

    /// Whether `merchant` is registered and Active.
    pub fn is_merchant_active(&self, merchant: AccountId) -> (r: bool)
        ensures
            r == self@.is_active(merchant),
    {
        match self.merchants.get(&merchant) {
            Some(record) => record.status == MerchantStatus::Active,
            None => false,
        }
    }

    /// Whether `merchant` is registered, Active and KYC verified, as a
    /// deposit to the merchant requires.
    pub fn is_approved(&self, merchant: AccountId) -> (r: bool)
        ensures
            r == self@.is_approved(merchant),
    {
        match self.merchants.get(&merchant) {
            Some(record) => record.status == MerchantStatus::Active && record.kyc_verified,
            None => false,
        }
    }

    /// Whether `merchant` is registered and KYC verified.
    pub fn is_kyc_verified(&self, merchant: AccountId) -> (r: bool)
        ensures
            r == self@.is_kyc_verified(merchant),
    {
        match self.merchants.get(&merchant) {
            Some(record) => record.kyc_verified,
            None => false,
        }
    }

    /// The fee rate of a registered merchant, in basis points.
    pub fn get_fee_tier(&self, merchant: AccountId) -> (r: Result<u32, RegistryError>)
        ensures
            self@.merchants.contains_key(merchant) ==> r == Ok::<u32, RegistryError>(self@.merchants[merchant].fee_bps),
            !self@.merchants.contains_key(merchant) ==> r == Err::<u32, RegistryError>(RegistryError::MerchantNotFound),
    {
        match self.merchants.get(&merchant) {
            Some(record) => Ok(record.fee_bps),
            None => Err(RegistryError::MerchantNotFound),
        }
    }

    /// The current admin.
    pub fn get_admin(&self) -> (r: AccountId)
        ensures
            r == self@.admin,
    {
        self.admin
    }

    /// Hands the admin role to `new_admin`. Admin only.
    pub fn transfer_admin(&mut self, caller: AccountId, new_admin: AccountId) -> (r: Result<AccountId, RegistryError>)
        requires
            old(self)@.wf(),
        ensures
            final(self)@.wf(),
            match spec_transfer_admin(old(self)@, caller, new_admin) {
                Ok(s) => r == Ok::<AccountId, RegistryError>(old(self)@.admin) && final(self)@ == s,
                Err(e) => r == Err::<AccountId, RegistryError>(e) && final(self)@ == old(self)@,
            },
    {
        self.require_admin(caller)?;
        let old_admin = self.admin;
        self.admin = new_admin;
        Ok(old_admin)
    }
}

/// Termination is irreversible: whatever request is made, a terminated
/// merchant stays registered and terminated.
pub proof fn lemma_termination_is_permanent(s: RegistryState, caller: AccountId, op: RegistryOp, merchant: AccountId)
    requires
        s.merchants.contains_key(merchant),
        s.merchants[merchant].status == MerchantStatus::Terminated,
    ensures
        spec_apply(s, caller, op) matches Ok(t) ==> t.merchants.contains_key(merchant)
            && t.merchants[merchant].status == MerchantStatus::Terminated,
{
}

/// A terminated merchant can be neither suspended nor reactivated, even by
/// the admin.
pub proof fn lemma_terminated_cannot_resume(s: RegistryState, merchant: AccountId)
    requires
        s.merchants.contains_key(merchant),
        s.merchants[merchant].status == MerchantStatus::Terminated,
    ensures
        spec_suspend(s, s.admin, merchant) == Err::<RegistryState, RegistryError>(RegistryError::MerchantTerminated),
        spec_reactivate(s, s.admin, merchant) == Err::<RegistryState, RegistryError>(RegistryError::CannotReactivateTerminated),
{
}

/// A request by anyone but the admin is refused and changes nothing.
pub proof fn lemma_only_admin_mutates(s: RegistryState, caller: AccountId, op: RegistryOp)
    requires
        caller != s.admin,
    ensures
        spec_apply(s, caller, op) == Err::<RegistryState, RegistryError>(RegistryError::NotAdmin),
{
}

/// Every accepted request keeps the registry well formed: the listing and
/// the records agree, and no fee exceeds the maximum.
pub proof fn lemma_requests_keep_wf(s: RegistryState, caller: AccountId, op: RegistryOp)
    requires
        s.wf(),
    ensures
        spec_apply(s, caller, op) matches Ok(t) ==> t.wf(),
{
    match op {
        RegistryOp::Register { merchant, name } => {
            if let Ok(t) = spec_register(s, caller, merchant, name) {
                assert(t.order.last() == merchant);
                assert forall|a: AccountId| s.order.contains(a) implies t.order.contains(a) by {
                    let k = choose|k: int| 0 <= k < s.order.len() && s.order[k] == a;
                    assert(t.order[k] == a);
                }
                assert forall|a: AccountId| t.order.contains(a) implies a == merchant || s.order.contains(a) by {
                    let k = choose|k: int| 0 <= k < t.order.len() && t.order[k] == a;
                    if k < s.order.len() {
                        assert(s.order[k] == a);
                    }
                }
            }
        },
        _ => {},
    }
}

/// A newly registered merchant reads back Active, not KYC verified, at the
/// default fee, and is not yet approved.
pub proof fn lemma_registration_defaults(s: RegistryState, merchant: AccountId, name: Seq<u8>)
    requires
        !s.merchants.contains_key(merchant),
    ensures
        spec_register(s, s.admin, merchant, name) matches Ok(t) && {
            &&& t.merchants[merchant] == new_record(merchant, name)
            &&& t.is_active(merchant)
            &&& !t.is_approved(merchant)
            &&& t.merchants[merchant].fee_bps == DEFAULT_FEE_BPS
        },
{
}

/// A suspended merchant is no longer approved, so deposits to it are
/// turned away until it is reactivated.
pub proof fn lemma_suspension_revokes_approval(s: RegistryState, caller: AccountId, merchant: AccountId)
    requires
        spec_suspend(s, caller, merchant) is Ok,
    ensures
        spec_suspend(s, caller, merchant) matches Ok(t) && !t.is_approved(merchant) && !t.is_active(merchant),
{
}

/// Approval is exactly: Active and KYC verified.
pub proof fn lemma_approval(s: RegistryState, merchant: AccountId)
    ensures
        s.is_approved(merchant) <==> s.is_active(merchant) && s.is_kyc_verified(merchant),
{
}

/// Paging covers the listing exactly once: with `page_size` entries per
/// page, the entry at index `i` is on page `i / page_size`, at position
/// `i % page_size`, and on no other page.
pub proof fn lemma_each_entry_on_one_page(len: int, page_size: int, i: int, page: int)
    requires
        0 <= i < len,
        0 < page_size,
        0 <= page,
    ensures
        page == i / page_size ==> page_start(len, page, page_size) + i % page_size == i
            && i < page_end(len, page, page_size),
        page != i / page_size ==> !(page_start(len, page, page_size) <= i < page_end(len, page, page_size)),
{
    let p = i / page_size;
    assert(i == p * page_size + i % page_size && 0 <= i % page_size < page_size) by {
        vstd::arithmetic::div_mod::lemma_fundamental_div_mod(i, page_size);
    }
    assert(p >= 0) by {
        vstd::arithmetic::div_mod::lemma_div_pos_is_pos(i, page_size);
    }
    if page < p {
        assert(page * page_size + page_size <= p * page_size) by (nonlinear_arith)
            requires page < p, 0 < page_size;
    } else if page > p {
        assert((p + 1) * page_size <= page * page_size) by (nonlinear_arith)
            requires page > p, 0 < page_size;
        assert((p + 1) * page_size == p * page_size + page_size) by (nonlinear_arith);
    }
}

/// The state after request `op` by `caller`; a refused request changes
/// nothing.
pub open spec fn spec_step(s: RegistryState, caller: AccountId, op: RegistryOp) -> RegistryState {
    match spec_apply(s, caller, op) {
        Ok(t) => t,
        Err(_) => s,
    }
}

/// The state after the requests `ops` (each with its caller), in order.
pub open spec fn spec_run(s: RegistryState, ops: Seq<(AccountId, RegistryOp)>) -> RegistryState
    decreases ops.len(),
{
    if ops.len() == 0 {
        s
    } else {
        let (caller, op) = ops.last();
        spec_step(spec_run(s, ops.drop_last()), caller, op)
    }
}

/// Whether request `op` by `caller`, made in state `s`, sets the fee of
/// `merchant`, and to what.
pub open spec fn sets_fee(s: RegistryState, caller: AccountId, op: RegistryOp, merchant: AccountId) -> Option<u32> {
    if spec_apply(s, caller, op) is Ok {
        match op {
            RegistryOp::Register { merchant: m, .. } => if m == merchant { Some(DEFAULT_FEE_BPS) } else { None },
            RegistryOp::UpdateFee { merchant: m, fee_bps } => if m == merchant { Some(fee_bps) } else { None },
            _ => None,
        }
    } else {
        None
    }
}

/// One request: a registered merchant stays registered, and its fee
/// changes only when the request sets it.
pub proof fn lemma_step_fee(s: RegistryState, caller: AccountId, op: RegistryOp, merchant: AccountId)
    ensures
        ({
            let t = spec_step(s, caller, op);
            &&& s.merchants.contains_key(merchant) ==> t.merchants.contains_key(merchant)
            &&& match sets_fee(s, caller, op, merchant) {
                Some(f) => t.merchants.contains_key(merchant) && t.merchants[merchant].fee_bps == f,
                None => s.merchants.contains_key(merchant)
                    ==> t.merchants[merchant].fee_bps == s.merchants[merchant].fee_bps,
            }
        }),
{
}

/// A merchant's fee reads back as last set: if request `k` of `ops` set it
/// to `f` (registration sets the default) and no later request set it,
/// then after all of `ops` the merchant is registered at fee `f`, which
/// `get_fee_tier` returns.
pub proof fn lemma_fee_is_last_set(s: RegistryState, ops: Seq<(AccountId, RegistryOp)>, merchant: AccountId, k: int, f: u32)
    requires
        0 <= k < ops.len(),
        sets_fee(spec_run(s, ops.take(k)), ops[k].0, ops[k].1, merchant) == Some(f),
        forall|j: int| k < j < ops.len() ==> sets_fee(spec_run(s, ops.take(j)), ops[j].0, ops[j].1, merchant) is None,
    ensures
        spec_run(s, ops).merchants.contains_key(merchant),
        spec_run(s, ops).merchants[merchant].fee_bps == f,
    decreases ops.len(),
{
    let prev = ops.drop_last();
    assert(ops.take(ops.len() - 1) =~= prev);
    if k == ops.len() - 1 {
        lemma_step_fee(spec_run(s, prev), ops.last().0, ops.last().1, merchant);
    } else {
        assert forall|j: int| k < j < prev.len() implies
            sets_fee(spec_run(s, prev.take(j)), prev[j].0, prev[j].1, merchant) is None by {
            assert(prev.take(j) =~= ops.take(j));
        }
        assert(prev.take(k) =~= ops.take(k));
        lemma_fee_is_last_set(s, prev, merchant, k, f);
        lemma_step_fee(spec_run(s, prev), ops.last().0, ops.last().1, merchant);
    }
}
/// The activity queries in terms of the record: a merchant is active
/// exactly when it is registered with status Active, KYC verified exactly
/// when registered with the flag set, and approved exactly when both.
pub proof fn lemma_queries_read_the_record(s: RegistryState, m: AccountId)
    ensures
        s.is_active(m) <==> (s.merchants.contains_key(m) && s.merchants[m].status == MerchantStatus::Active),
        s.is_kyc_verified(m) <==> (s.merchants.contains_key(m) && s.merchants[m].kyc_verified),
        s.is_approved(m) <==> (s.merchants.contains_key(m) && s.merchants[m].status == MerchantStatus::Active
            && s.merchants[m].kyc_verified),
        s.merchants.contains_key(m) && s.merchants[m].status != MerchantStatus::Active ==> !s.is_active(m)
            && !s.is_approved(m),
{
}

/// How the lifecycle requests move the answers of the queries: a merchant
/// just registered is active and not yet KYC verified; a suspended or
/// terminated merchant is neither active nor approved; a reactivated one is
/// active again, approved exactly when KYC verified.
pub proof fn lemma_lifecycle_answers(s: RegistryState, caller: AccountId, m: AccountId, name: Seq<u8>)
    ensures
        spec_register(s, caller, m, name) matches Ok(t) ==> t.is_active(m) && !t.is_kyc_verified(m)
            && !t.is_approved(m),
        spec_suspend(s, caller, m) matches Ok(t) ==> !t.is_active(m) && !t.is_approved(m)
            && t.merchants[m].status == MerchantStatus::Suspended,
        spec_terminate(s, caller, m) matches Ok(t) ==> !t.is_active(m) && !t.is_approved(m)
            && t.merchants[m].status == MerchantStatus::Terminated,
        spec_reactivate(s, caller, m) matches Ok(t) ==> t.is_active(m)
            && (t.is_approved(m) <==> s.merchants[m].kyc_verified),
{
}

/// Setting the KYC status makes it read back as set, whatever it was
/// before: granting then revoking leaves the merchant unverified and not
/// approved. Nothing else of the record, and no other merchant, changes.
pub proof fn lemma_kyc_is_as_set(s: RegistryState, caller: AccountId, m: AccountId, verified: bool, other: AccountId)
    ensures
        spec_set_kyc(s, caller, m, verified) matches Ok(t) ==> {
            &&& t.is_kyc_verified(m) == verified
            &&& t.merchants[m].kyc_verified == verified
            &&& !verified ==> !t.is_approved(m)
            &&& t.merchants[m].status == s.merchants[m].status
            &&& t.merchants[m].fee_bps == s.merchants[m].fee_bps
            &&& t.merchants[m].name == s.merchants[m].name
            &&& (other != m ==> t.merchants.contains_key(other) == s.merchants.contains_key(other)
                && t.merchants[other] == s.merchants[other])
        },
{
}

/// Granting then revoking KYC leaves the merchant not verified.
pub proof fn lemma_kyc_revoke_after_grant(s: RegistryState, m: AccountId)
    requires
        s.merchants.contains_key(m),
    ensures
        spec_set_kyc(s, s.admin, m, true) matches Ok(t) && (spec_set_kyc(t, t.admin, m, false) matches Ok(u)
            && !u.is_kyc_verified(m) && !u.is_approved(m)),
{
}

/// Setting a fee makes it read back as set; nothing else of the record
/// changes.
pub proof fn lemma_fee_is_as_set(s: RegistryState, caller: AccountId, m: AccountId, fee_bps: u32)
    ensures
        spec_update_fee(s, caller, m, fee_bps) matches Ok(t) ==> {
            &&& t.merchants[m].fee_bps == fee_bps
            &&& fee_bps <= MAX_FEE_BPS
            &&& t.merchants[m].status == s.merchants[m].status
            &&& t.merchants[m].kyc_verified == s.merchants[m].kyc_verified
        },
{
}
/// The lifecycle for the admin: suspending succeeds exactly on a registered
/// Active merchant, reactivating exactly on a Suspended one, terminating
/// exactly on one not yet Terminated; each sets the status it names and
/// leaves the rest of the record, the other merchants and the listing as
/// they were. Registering succeeds exactly for a merchant not yet
/// registered, which goes last in the listing.
pub proof fn lemma_lifecycle_transitions(s: RegistryState, m: AccountId, name: Seq<u8>)
    ensures
        spec_suspend(s, s.admin, m) is Ok <==> s.is_active(m),
        spec_reactivate(s, s.admin, m) is Ok <==> (s.merchants.contains_key(m)
            && s.merchants[m].status == MerchantStatus::Suspended),
        spec_terminate(s, s.admin, m) is Ok <==> (s.merchants.contains_key(m)
            && s.merchants[m].status != MerchantStatus::Terminated),
        spec_register(s, s.admin, m, name) is Ok <==> !s.merchants.contains_key(m),
        spec_suspend(s, s.admin, m) matches Ok(t) ==> t.merchants[m] == (MerchantView {
            status: MerchantStatus::Suspended, ..s.merchants[m] }) && t.merchants.remove(m) == s.merchants.remove(m)
            && t.order == s.order && t.admin == s.admin,
        spec_reactivate(s, s.admin, m) matches Ok(t) ==> t.merchants[m] == (MerchantView {
            status: MerchantStatus::Active, ..s.merchants[m] }) && t.merchants.remove(m) == s.merchants.remove(m)
            && t.order == s.order && t.admin == s.admin,
        spec_terminate(s, s.admin, m) matches Ok(t) ==> t.merchants[m] == (MerchantView {
            status: MerchantStatus::Terminated, ..s.merchants[m] }) && t.merchants.remove(m) == s.merchants.remove(m)
            && t.order == s.order && t.admin == s.admin,
        spec_update(s, s.admin, m, name) matches Ok(t) ==> t.merchants[m] == (MerchantView { name, ..s.merchants[m] })
            && t.merchants.remove(m) == s.merchants.remove(m) && t.order == s.order,
        spec_register(s, s.admin, m, name) matches Ok(t) ==> t.order == s.order.push(m)
            && t.merchants.remove(m) == s.merchants.remove(m) && t.merchants[m].name == name
            && t.merchants[m].merchant == m,
        !s.merchants.contains_key(m) ==> spec_suspend(s, s.admin, m) == Err::<RegistryState, RegistryError>(RegistryError::MerchantNotFound)
            && spec_reactivate(s, s.admin, m) == Err::<RegistryState, RegistryError>(RegistryError::MerchantNotFound)
            && spec_terminate(s, s.admin, m) == Err::<RegistryState, RegistryError>(RegistryError::MerchantNotFound)
            && spec_set_kyc(s, s.admin, m, true) == Err::<RegistryState, RegistryError>(RegistryError::MerchantNotFound)
            && spec_update(s, s.admin, m, name) == Err::<RegistryState, RegistryError>(RegistryError::MerchantNotFound),
{
    if let Ok(t) = spec_suspend(s, s.admin, m) {
        assert(t.merchants.remove(m) =~= s.merchants.remove(m));
    }
    if let Ok(t) = spec_reactivate(s, s.admin, m) {
        assert(t.merchants.remove(m) =~= s.merchants.remove(m));
    }
    if let Ok(t) = spec_terminate(s, s.admin, m) {
        assert(t.merchants.remove(m) =~= s.merchants.remove(m));
    }
    if let Ok(t) = spec_update(s, s.admin, m, name) {
        assert(t.merchants.remove(m) =~= s.merchants.remove(m));
    }
    if let Ok(t) = spec_register(s, s.admin, m, name) {
        assert(t.merchants.remove(m) =~= s.merchants.remove(m));
    }
}
} // verus!
