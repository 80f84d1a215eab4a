//! Role-based access control: accounts hold one of four ranked roles, a
//! SuperAdmin grants and revokes them, and sensitive tasks demand a minimum
//! rank.

use vstd::prelude::*;
use std::collections::HashMap;
use crate::account::AccountId;

verus! {

broadcast use vstd::std_specs::hash::group_hash_axioms;

/// The four roles, from least to most privileged.
#[derive(Clone, Copy, Debug, PartialEq, Eq, Structural)]
pub enum Role {
    ReadOnly,
    ComplianceAdmin,
    OperationsAdmin,
    SuperAdmin,
}

/// Why a request to the access-control contract was refused.
#[derive(Clone, Copy, Debug, PartialEq, Eq, Structural)]
pub enum RbacError {
    /// The account named has no role.
    RoleNotAssigned,
    /// The caller's role ranks below the one the operation needs.
    InsufficientRole,
    /// A SuperAdmin tried to revoke its own role.
    CannotRevokeOwnRole,
    /// Revoking would leave no listed account holding SuperAdmin.
    CannotRevokeLastSuperAdmin,
}

impl RbacError {
    pub open spec fn spec_message(self) -> Seq<char> {
        match self {
            RbacError::RoleNotAssigned => "role not assigned"@,
            RbacError::InsufficientRole => "insufficient role"@,
            RbacError::CannotRevokeOwnRole => "cannot revoke your own role"@,
            RbacError::CannotRevokeLastSuperAdmin => "cannot revoke the last SuperAdmin"@,
        }
    }

    /// The text the contract fails with for this refusal.
    pub fn message(&self) -> (r: &'static str)
        ensures
            r@ == self.spec_message(),
    {
        match self {
            RbacError::RoleNotAssigned => {
                proof { reveal_strlit("role not assigned"); }
                "role not assigned"
            },
            RbacError::InsufficientRole => {
                proof { reveal_strlit("insufficient role"); }
                "insufficient role"
            },
            RbacError::CannotRevokeOwnRole => {
                proof { reveal_strlit("cannot revoke your own role"); }
                "cannot revoke your own role"
            },
            RbacError::CannotRevokeLastSuperAdmin => {
                proof { reveal_strlit("cannot revoke the last SuperAdmin"); }
                "cannot revoke the last SuperAdmin"
            },
        }
    }
}

/// Rank of a role: a caller passes a check for role `r` when its own role
/// ranks at least as high.
pub open spec fn rank(role: Role) -> int {
    match role {
        Role::ReadOnly => 1,
        Role::ComplianceAdmin => 2,
        Role::OperationsAdmin => 3,
        Role::SuperAdmin => 4,
    }
}

/// Abstract state of the access-control contract: the role of each account,
/// and the accounts ever listed as SuperAdmins, in the order they became so.
pub struct RbacState {
    pub roles: Map<AccountId, Role>,
    pub super_admins: Seq<AccountId>,
}

/// Outcome of checking that `caller` holds at least `minimum`.
pub open spec fn spec_require_role(s: RbacState, caller: AccountId, minimum: Role) -> Result<(), RbacError> {
    if !s.roles.contains_key(caller) {
        Err(RbacError::RoleNotAssigned)
    } else if rank(s.roles[caller]) < rank(minimum) {
        Err(RbacError::InsufficientRole)
    } else {
        Ok(())
    }
}

/// Number of listed SuperAdmins, other than `account`, that still hold
/// the SuperAdmin role.
pub open spec fn remaining_super_admins(roles: Map<AccountId, Role>, listed: Seq<AccountId>, account: AccountId) -> nat
    decreases listed.len(),
{
    if listed.len() == 0 {
        0
    } else {
        let a = listed.last();
        let rest = remaining_super_admins(roles, listed.drop_last(), account);
        if a != account && roles.contains_key(a) && roles[a] == Role::SuperAdmin {
            rest + 1
        } else {
            rest
        }
    }
}

/// Outcome of `grant_role`: the new state, or why it was refused.
pub open spec fn spec_grant_role(s: RbacState, caller: AccountId, account: AccountId, role: Role) -> Result<RbacState, RbacError> {
    match spec_require_role(s, caller, Role::SuperAdmin) {
        Err(e) => Err(e),
        Ok(_) => Ok(RbacState {
            roles: s.roles.insert(account, role),
            super_admins: if role == Role::SuperAdmin && !s.super_admins.contains(account) {
                s.super_admins.push(account)
            } else {
                s.super_admins
            },
        }),
    }
}

/// Outcome of `revoke_role`: the new state, or why it was refused.
pub open spec fn spec_revoke_role(s: RbacState, caller: AccountId, account: AccountId) -> Result<RbacState, RbacError> {
    match spec_require_role(s, caller, Role::SuperAdmin) {
        Err(e) => Err(e),
        Ok(_) => if account == caller {
            Err(RbacError::CannotRevokeOwnRole)
        } else if !s.roles.contains_key(account) {
            Err(RbacError::RoleNotAssigned)
        } else if s.roles[account] == Role::SuperAdmin
            && remaining_super_admins(s.roles, s.super_admins, account) == 0 {
            Err(RbacError::CannotRevokeLastSuperAdmin)
        } else {
            Ok(RbacState { roles: s.roles.remove(account), super_admins: s.super_admins })
        },
    }
}

/// The access-control contract's state.
pub struct RbacAccessContract {
    roles: HashMap<AccountId, Role>,
    super_admins: Vec<AccountId>,
}

impl View for RbacAccessContract {
    type V = RbacState;

    closed spec fn view(&self) -> RbacState {
        RbacState { roles: self.roles@, super_admins: self.super_admins@ }
    }
}

impl RbacState {
    /// Well-formedness: the listed list has no repeats and every account
    /// holding SuperAdmin is listed.
    pub open spec fn wf(self) -> bool {
        &&& self.super_admins.no_duplicates()
        &&& forall|a: AccountId| #[trigger] self.roles.contains_key(a) && self.roles[a] == Role::SuperAdmin
            ==> self.super_admins.contains(a)
    }
}

impl RbacAccessContract {
    /// Numeric rank of a role (ReadOnly 1 up to SuperAdmin 4).
    pub fn role_rank(role: Role) -> (r: u32)
        ensures
            r == rank(role),
    {
        match role {
            Role::ReadOnly => 1,
            Role::ComplianceAdmin => 2,
            Role::OperationsAdmin => 3,
            Role::SuperAdmin => 4,
        }
    }

    /// A new contract whose only role holder is `super_admin`, as SuperAdmin.
    pub fn new(super_admin: AccountId) -> (c: Self)
        ensures
            c@.roles == Map::<AccountId, Role>::empty().insert(super_admin, Role::SuperAdmin),
            c@.super_admins == seq![super_admin],
            c@.wf(),
    {
        let mut roles: HashMap<AccountId, Role> = HashMap::new();
        roles.insert(super_admin, Role::SuperAdmin);
        let mut super_admins: Vec<AccountId> = Vec::new();
        super_admins.push(super_admin);
        let c = RbacAccessContract { roles, super_admins };
        assert(c@.super_admins =~= seq![super_admin]);
        assert(c@.super_admins[0] == super_admin);
        assert(c@.super_admins.contains(super_admin));
        c
    }

    /// The role held by `account`, if any.
    pub fn get_role(&self, account: AccountId) -> (r: Option<Role>)
        ensures
            r == (if self@.roles.contains_key(account) { Some(self@.roles[account]) } else { None::<Role> }),
    {
        match self.roles.get(&account) {
            Some(role) => Some(*role),
            None => None,
        }
    }

    /// Checks that `caller` holds at least the role `minimum`.
    pub fn require_role(&self, caller: AccountId, minimum: Role) -> (r: Result<(), RbacError>)
        ensures
            r == spec_require_role(self@, caller, minimum),
    {
        match self.roles.get(&caller) {
            None => Err(RbacError::RoleNotAssigned),
            Some(role) => {
                if Self::role_rank(*role) < Self::role_rank(minimum) {
                    Err(RbacError::InsufficientRole)
                } else {
                    Ok(())
                }
            },
        }
    }

    fn is_tracked(&self, account: AccountId) -> (r: bool)
        ensures
            r == self@.super_admins.contains(account),
    {
        let mut i: usize = 0;
        while i < self.super_admins.len()
            invariant
                0 <= i <= self.super_admins@.len(),
                forall|j: int| 0 <= j < i ==> self.super_admins@[j] != account,
            decreases self.super_admins@.len() - i,
        {
            if self.super_admins[i] == account {
                return true;
            }
            i = i + 1;
        }
        false
    }

    /// Gives `account` the role `role`; callable by a SuperAdmin only.
    /// A new SuperAdmin is added to the listed list unless already there.
    pub fn grant_role(&mut self, caller: AccountId, account: AccountId, role: Role) -> (r: Result<(), RbacError>)
        requires
            old(self)@.wf(),
        ensures
            final(self)@.wf(),
            match spec_grant_role(old(self)@, caller, account, role) {
                Ok(s) => r is Ok && final(self)@ == s,
                Err(e) => r == Err::<(), RbacError>(e) && final(self)@ == old(self)@,
            },
    {
        match self.require_role(caller, Role::SuperAdmin) {
            Err(e) => return Err(e),
            Ok(()) => {},
        }
        let ghost s0 = self@;
        self.roles.insert(account, role);
        if role == Role::SuperAdmin {
            if !self.is_tracked(account) {
                self.super_admins.push(account);
                assert(self@.super_admins.last() == account);
                assert forall|a: AccountId| s0.super_admins.contains(a) implies self@.super_admins.contains(a) by {
                    let k = choose|k: int| 0 <= k < s0.super_admins.len() && s0.super_admins[k] == a;
                    assert(self@.super_admins[k] == a);
                }
            }
        }
        assert(self@.super_admins.contains(account) || role != Role::SuperAdmin);
        Ok(())
    }

    /// Counts the listed SuperAdmins other than `account` that still hold
    /// the SuperAdmin role.
    fn count_remaining_super_admins(&self, account: AccountId) -> (n: usize)
        ensures
            n == remaining_super_admins(self@.roles, self@.super_admins, account),
    {
        let mut n: usize = 0;
        let mut i: usize = 0;
        while i < self.super_admins.len()
            invariant
                0 <= i <= self.super_admins@.len(),
                n == remaining_super_admins(self@.roles, self@.super_admins.take(i as int), account),
                n <= i,
            decreases self.super_admins@.len() - i,
        {
            let a = self.super_admins[i];
            assert(self@.super_admins.take(i + 1).drop_last() =~= self@.super_admins.take(i as int));
            match self.roles.get(&a) {
                Some(role) => {
                    if a != account && *role == Role::SuperAdmin {
                        n = n + 1;
                    }
                },
                None => {},
            }
            i = i + 1;
        }
        assert(self@.super_admins.take(i as int) =~= self@.super_admins);
        n
    }

    /// Removes the role of `account`; callable by a SuperAdmin only. A
    /// SuperAdmin cannot revoke itself, and the last listed SuperAdmin
    /// cannot be revoked.
    pub fn revoke_role(&mut self, caller: AccountId, account: AccountId) -> (r: Result<(), RbacError>)
        requires
            old(self)@.wf(),
        ensures
            final(self)@.wf(),
            match spec_revoke_role(old(self)@, caller, account) {
                Ok(s) => r is Ok && final(self)@ == s,
                Err(e) => r == Err::<(), RbacError>(e) && final(self)@ == old(self)@,
            },
    {
        match self.require_role(caller, Role::SuperAdmin) {
            Err(e) => return Err(e),
            Ok(()) => {},
        }
        if account == caller {
            return Err(RbacError::CannotRevokeOwnRole);
        }
        let role = match self.roles.get(&account) {
            None => return Err(RbacError::RoleNotAssigned),
            Some(role) => *role,
        };
        if role == Role::SuperAdmin {
            if self.count_remaining_super_admins(account) == 0 {
                return Err(RbacError::CannotRevokeLastSuperAdmin);
            }
        }
        self.roles.remove(&account);
        Ok(())
    }

    /// A task that needs at least OperationsAdmin.
    pub fn execute_operations_task(&self, caller: AccountId) -> (r: Result<(), RbacError>)
        ensures
            r == spec_require_role(self@, caller, Role::OperationsAdmin),
    {
        self.require_role(caller, Role::OperationsAdmin)
    }

    /// A task that needs at least ComplianceAdmin.
    pub fn execute_compliance_task(&self, caller: AccountId) -> (r: Result<(), RbacError>)
        ensures
            r == spec_require_role(self@, caller, Role::ComplianceAdmin),
    {
        self.require_role(caller, Role::ComplianceAdmin)
    }

    /// A task that needs at least ReadOnly, that is, any role.
    pub fn execute_read_task(&self, caller: AccountId) -> (r: Result<(), RbacError>)
        ensures
            r == spec_require_role(self@, caller, Role::ReadOnly),
    {
        self.require_role(caller, Role::ReadOnly)
    }
}

/// A listed account other than `account` that holds SuperAdmin is counted
/// among the remaining SuperAdmins.
proof fn lemma_listed_super_admin_counts(roles: Map<AccountId, Role>, listed: Seq<AccountId>, account: AccountId, x: AccountId)
    requires
        listed.contains(x),
        x != account,
        roles.contains_key(x),
        roles[x] == Role::SuperAdmin,
    ensures
        remaining_super_admins(roles, listed, account) >= 1,
    decreases listed.len(),
{
    if listed.last() != x {
        let k = choose|k: int| 0 <= k < listed.len() && listed[k] == x;
        assert(listed.drop_last()[k] == x);
        lemma_listed_super_admin_counts(roles, listed.drop_last(), account, x);
    }
}

/// Checks are ordered by rank: a caller that passes the check for a role
/// passes the check for every lower-ranked role.
pub proof fn lemma_role_hierarchy(s: RbacState, caller: AccountId, high: Role, low: Role)
    requires
        spec_require_role(s, caller, high) is Ok,
        rank(low) <= rank(high),
    ensures
        spec_require_role(s, caller, low) is Ok,
{
}

/// A granted role reads back as granted.
pub proof fn lemma_grant_reads_back(s: RbacState, caller: AccountId, account: AccountId, role: Role)
    requires
        spec_require_role(s, caller, Role::SuperAdmin) is Ok,
    ensures
        spec_grant_role(s, caller, account, role) matches Ok(t) && t.roles.contains_key(account)
            && t.roles[account] == role,
{
}

/// Revoking never removes the last SuperAdmin: after a revoke succeeds, the
/// SuperAdmin that made it still holds the role.
pub proof fn lemma_revoke_keeps_a_super_admin(s: RbacState, caller: AccountId, account: AccountId)
    requires
        spec_revoke_role(s, caller, account) is Ok,
    ensures
        spec_revoke_role(s, caller, account) matches Ok(t) && t.roles.contains_key(caller)
            && t.roles[caller] == Role::SuperAdmin
            && !t.roles.contains_key(account),
{
}

/// In a well-formed state the caller of a revoke is itself a listed
/// SuperAdmin other than the account revoked, so the last-SuperAdmin
/// refusal never comes.
pub proof fn lemma_last_super_admin_refusal_unreachable(s: RbacState, caller: AccountId, account: AccountId)
    requires
        s.wf(),
    ensures
        spec_revoke_role(s, caller, account) != Err::<RbacState, RbacError>(RbacError::CannotRevokeLastSuperAdmin),
{
    if spec_require_role(s, caller, Role::SuperAdmin) is Ok && account != caller {
        assert(s.roles.contains_key(caller) && s.roles[caller] == Role::SuperAdmin);
        lemma_listed_super_admin_counts(s.roles, s.super_admins, account, caller);
    }
}

/// The roles rank strictly from ReadOnly up to SuperAdmin.
pub proof fn lemma_rank_order()
    ensures
        rank(Role::ReadOnly) < rank(Role::ComplianceAdmin),
        rank(Role::ComplianceAdmin) < rank(Role::OperationsAdmin),
        rank(Role::OperationsAdmin) < rank(Role::SuperAdmin),
        rank(Role::ReadOnly) >= 1,
{
}

/// A role check passes exactly when the caller holds a role ranked at
/// least as high as the minimum; in particular a caller always passes the
/// check for its own role, and a caller without a role never passes.
pub proof fn lemma_require_role_meaning(s: RbacState, caller: AccountId, minimum: Role)
    ensures
        spec_require_role(s, caller, minimum) is Ok <==> (s.roles.contains_key(caller)
            && rank(s.roles[caller]) >= rank(minimum)),
        s.roles.contains_key(caller) ==> spec_require_role(s, caller, s.roles[caller]) is Ok,
        !s.roles.contains_key(caller) ==> spec_require_role(s, caller, minimum)
            == Err::<(), RbacError>(RbacError::RoleNotAssigned),
        s.roles.contains_key(caller) && rank(s.roles[caller]) < rank(minimum)
            ==> spec_require_role(s, caller, minimum) == Err::<(), RbacError>(RbacError::InsufficientRole),
{
}

/// Which roles pass each task: operations tasks accept OperationsAdmin and
/// SuperAdmin; compliance tasks also ComplianceAdmin; read tasks any role.
pub proof fn lemma_task_access(s: RbacState, caller: AccountId)
    requires
        s.roles.contains_key(caller),
    ensures
        spec_require_role(s, caller, Role::OperationsAdmin) is Ok <==> (s.roles[caller] == Role::OperationsAdmin
            || s.roles[caller] == Role::SuperAdmin),
        spec_require_role(s, caller, Role::ComplianceAdmin) is Ok <==> s.roles[caller] != Role::ReadOnly,
        spec_require_role(s, caller, Role::ReadOnly) is Ok,
        spec_require_role(s, caller, Role::SuperAdmin) is Ok <==> s.roles[caller] == Role::SuperAdmin,
{
}

/// An account granted a role passes exactly the checks for that role and
/// those below it.
pub proof fn lemma_granted_role_passes(s: RbacState, caller: AccountId, account: AccountId, role: Role, minimum: Role)
    requires
        spec_grant_role(s, caller, account, role) is Ok,
    ensures
        spec_grant_role(s, caller, account, role) matches Ok(t)
            && (spec_require_role(t, account, minimum) is Ok <==> rank(role) >= rank(minimum)),
        spec_grant_role(s, caller, account, role) matches Ok(t) && spec_require_role(t, account, role) is Ok,
{
}
/// When grants and revokes go through, and what they do: a grant succeeds
/// exactly for a SuperAdmin caller and sets the account's role, leaving
/// every other account's role as it was; in a well-formed state a revoke
/// succeeds exactly for a SuperAdmin caller naming another account that
/// holds a role, and removes that role alone. The caller's own role can
/// never be revoked.
pub proof fn lemma_grant_revoke_outcomes(s: RbacState, caller: AccountId, account: AccountId, role: Role)
    requires
        s.wf(),
    ensures
        spec_grant_role(s, caller, account, role) is Ok <==> (s.roles.contains_key(caller)
            && s.roles[caller] == Role::SuperAdmin),
        spec_grant_role(s, caller, account, role) matches Ok(t) ==> t.roles == s.roles.insert(account, role),
        spec_revoke_role(s, caller, account) is Ok <==> (s.roles.contains_key(caller)
            && s.roles[caller] == Role::SuperAdmin && account != caller && s.roles.contains_key(account)),
        spec_revoke_role(s, caller, account) matches Ok(t) ==> t.roles == s.roles.remove(account),
        s.roles.contains_key(caller) && s.roles[caller] == Role::SuperAdmin ==> spec_revoke_role(s, caller, caller)
            == Err::<RbacState, RbacError>(RbacError::CannotRevokeOwnRole),
{
    lemma_last_super_admin_refusal_unreachable(s, caller, account);
}
} // verus!
