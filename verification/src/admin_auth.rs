//! Separate credential store for admin accounts. A single SuperAdmin,
//! fixed at construction, adds and revokes admins; `authorize` accepts only
//! active admins of the store, so no merchant account passes it.

use vstd::prelude::*;
use std::collections::HashMap;
use crate::account::AccountId;

verus! {

broadcast use vstd::std_specs::hash::group_hash_axioms;

/// Admin roles.
#[derive(Clone, Copy, Debug, PartialEq, Eq, Structural)]
pub enum AdminRole {
    Admin,
    SuperAdmin,
}

/// An admin account in the store.
#[derive(Clone, Copy, Debug, PartialEq, Eq, Structural)]
pub struct AdminUser {
    pub admin: AccountId,
    pub role: AdminRole,
    pub active: bool,
}

/// Why a request to the admin store was refused.
#[derive(Clone, Copy, Debug, PartialEq, Eq, Structural)]
pub enum AdminAuthError {
    /// The caller is not the store's SuperAdmin.
    NotSuperAdmin,
    /// The account to revoke is not in the store.
    AdminNotFound,
    /// The caller is not an active admin of the store.
    UnauthorizedAdmin,
}

impl AdminAuthError {
    pub open spec fn spec_message(self) -> Seq<char> {
        match self {
            AdminAuthError::NotSuperAdmin => "not super admin"@,
            AdminAuthError::AdminNotFound => "admin not found"@,
            AdminAuthError::UnauthorizedAdmin => "unauthorized admin"@,
        }
    }

    /// The text the contract fails with for this refusal.
    pub fn message(&self) -> (r: &'static str)
        ensures
            r@ == self.spec_message(),
    {
        match self {
            AdminAuthError::NotSuperAdmin => {
                proof { reveal_strlit("not super admin"); }
                "not super admin"
            },
            AdminAuthError::AdminNotFound => {
                proof { reveal_strlit("admin not found"); }
                "admin not found"
            },
            AdminAuthError::UnauthorizedAdmin => {
                proof { reveal_strlit("unauthorized admin"); }
                "unauthorized admin"
            },
        }
    }
}

/// Abstract state of the admin store.
pub struct AdminAuthState {
    pub super_admin: AccountId,
    pub admins: Map<AccountId, AdminUser>,
}

impl AdminAuthState {
    /// Each record is stored under its own account.
    pub open spec fn wf(self) -> bool {
        forall|a: AccountId| #[trigger] self.admins.contains_key(a) ==> self.admins[a].admin == a
    }

    /// `account` is an active admin of the store.
    pub open spec fn is_admin(self, account: AccountId) -> bool {
        self.admins.contains_key(account) && self.admins[account].active
    }
}

/// Outcome of `add_admin`: the new state, or why it was refused.
pub open spec fn spec_add_admin(s: AdminAuthState, caller: AccountId, admin: AccountId, role: AdminRole) -> Result<AdminAuthState, AdminAuthError> {
    if caller != s.super_admin {
        Err(AdminAuthError::NotSuperAdmin)
    } else {
        Ok(AdminAuthState {
            super_admin: s.super_admin,
            admins: s.admins.insert(admin, AdminUser { admin, role, active: true }),
        })
    }
}

/// Outcome of `revoke_admin`: the new state, or why it was refused.
pub open spec fn spec_revoke_admin(s: AdminAuthState, caller: AccountId, admin: AccountId) -> Result<AdminAuthState, AdminAuthError> {
    if caller != s.super_admin {
        Err(AdminAuthError::NotSuperAdmin)
    } else if !s.admins.contains_key(admin) {
        Err(AdminAuthError::AdminNotFound)
    } else {
        Ok(AdminAuthState { super_admin: s.super_admin, admins: s.admins.remove(admin) })
    }
}

/// The admin store's state.
pub struct AdminAuthContract {
    super_admin: AccountId,
    admins: HashMap<AccountId, AdminUser>,
}

impl View for AdminAuthContract {
    type V = AdminAuthState;

    closed spec fn view(&self) -> AdminAuthState {
        AdminAuthState { super_admin: self.super_admin, admins: self.admins@ }
    }
}

impl AdminAuthContract {
    /// A store whose SuperAdmin is `super_admin`, holding that account as
    /// an active SuperAdmin.
    pub fn new(super_admin: AccountId) -> (c: Self)
        ensures
            c@.super_admin == super_admin,
            c@.admins == Map::<AccountId, AdminUser>::empty().insert(
                super_admin,
                AdminUser { admin: super_admin, role: AdminRole::SuperAdmin, active: true },
            ),
            c@.wf(),
    {
        let mut admins: HashMap<AccountId, AdminUser> = HashMap::new();
        admins.insert(super_admin, AdminUser { admin: super_admin, role: AdminRole::SuperAdmin, active: true });
        AdminAuthContract { super_admin, admins }
    }

    /// Adds (or overwrites) the active admin record of `admin`; the
    /// SuperAdmin only.
    pub fn add_admin(&mut self, caller: AccountId, admin: AccountId, role: AdminRole) -> (r: Result<(), AdminAuthError>)
        requires
            old(self)@.wf(),
        ensures
            final(self)@.wf(),
            match spec_add_admin(old(self)@, caller, admin, role) {
                Ok(s) => r is Ok && final(self)@ == s,
                Err(e) => r == Err::<(), AdminAuthError>(e) && final(self)@ == old(self)@,
            },
    {
        if caller != self.super_admin {
            return Err(AdminAuthError::NotSuperAdmin);
        }
        self.admins.insert(admin, AdminUser { admin, role, active: true });
        Ok(())
    }

    /// Removes the record of `admin`; the SuperAdmin only, and the record
    /// must exist.
    pub fn revoke_admin(&mut self, caller: AccountId, admin: AccountId) -> (r: Result<(), AdminAuthError>)
        requires
            old(self)@.wf(),
        ensures
            final(self)@.wf(),
            match spec_revoke_admin(old(self)@, caller, admin) {
                Ok(s) => r is Ok && final(self)@ == s,
                Err(e) => r == Err::<(), AdminAuthError>(e) && final(self)@ == old(self)@,
            },
    {
        if caller != self.super_admin {
            return Err(AdminAuthError::NotSuperAdmin);
        }
        if !self.admins.contains_key(&admin) {
            return Err(AdminAuthError::AdminNotFound);
        }
        self.admins.remove(&admin);
        Ok(())
    }

    /// The record of `admin`, if the store holds one.
    pub fn get_admin(&self, admin: AccountId) -> (r: Option<AdminUser>)
        ensures
            r == (if self@.admins.contains_key(admin) { Some(self@.admins[admin]) } else { None::<AdminUser> }),
    {
        match self.admins.get(&admin) {
            Some(user) => Some(*user),
            None => None,
        }
    }

    /// Whether `admin` is an active admin of the store.
    pub fn is_admin(&self, admin: AccountId) -> (r: bool)
        ensures
            r == self@.is_admin(admin),
    {
        match self.admins.get(&admin) {
            Some(user) => user.active,
            None => false,
        }
    }

    /// Check for admin-only operations: succeeds exactly for active admins.
    pub fn authorize(&self, caller: AccountId) -> (r: Result<(), AdminAuthError>)
        ensures
            r == (if self@.is_admin(caller) { Ok(()) } else { Err(AdminAuthError::UnauthorizedAdmin) }),
    {
        if !self.is_admin(caller) {
            return Err(AdminAuthError::UnauthorizedAdmin);
        }
        Ok(())
    }
}

/// Adding an admin makes it an active admin with the role given, whose
/// record reads back as written, and `authorize` then accepts it.
pub proof fn lemma_add_then_authorized(s: AdminAuthState, admin: AccountId, role: AdminRole)
    ensures
        spec_add_admin(s, s.super_admin, admin, role) matches Ok(t) && {
            &&& t.is_admin(admin)
            &&& t.admins[admin] == (AdminUser { admin, role, active: true })
        },
{
}

/// Revoking an admin that was added leaves it no longer an admin, and
/// every other account's record as it was.
pub proof fn lemma_revoke_undoes_add(s: AdminAuthState, admin: AccountId, role: AdminRole)
    ensures
        spec_add_admin(s, s.super_admin, admin, role) matches Ok(t) && {
            &&& spec_revoke_admin(t, s.super_admin, admin) matches Ok(u) && {
                &&& !u.is_admin(admin)
                &&& u.admins == s.admins.remove(admin)
            }
        },
{
    let t = spec_add_admin(s, s.super_admin, admin, role)->Ok_0;
    let u = spec_revoke_admin(t, s.super_admin, admin)->Ok_0;
    assert(u.admins =~= s.admins.remove(admin));
}

/// Only the SuperAdmin changes the store: any other caller is refused.
pub proof fn lemma_only_super_admin_mutates(s: AdminAuthState, caller: AccountId, admin: AccountId, role: AdminRole)
    requires
        caller != s.super_admin,
    ensures
        spec_add_admin(s, caller, admin, role) == Err::<AdminAuthState, AdminAuthError>(AdminAuthError::NotSuperAdmin),
        spec_revoke_admin(s, caller, admin) == Err::<AdminAuthState, AdminAuthError>(AdminAuthError::NotSuperAdmin),
{
}

/// The store's answers in terms of its records: an account is an admin
/// exactly when it has a record marked active, and the check for
/// admin-only operations passes exactly for such accounts.
pub proof fn lemma_admin_answers(s: AdminAuthState, a: AccountId)
    ensures
        s.is_admin(a) <==> (s.admins.contains_key(a) && s.admins[a].active),
        !s.admins.contains_key(a) ==> !s.is_admin(a),
        s.admins.contains_key(a) && !s.admins[a].active ==> !s.is_admin(a),
{
}

/// Adding or revoking an admin touches that account's record alone; a
/// revoke is refused for an account without a record, and accepted from
/// the SuperAdmin for one with a record, which it removes.
pub proof fn lemma_changes_are_local(s: AdminAuthState, admin: AccountId, role: AdminRole, other: AccountId)
    requires
        other != admin,
    ensures
        spec_add_admin(s, s.super_admin, admin, role) matches Ok(t) && {
            &&& t.admins.contains_key(other) == s.admins.contains_key(other)
            &&& t.admins[other] == s.admins[other]
            &&& t.super_admin == s.super_admin
        },
        !s.admins.contains_key(admin) ==> spec_revoke_admin(s, s.super_admin, admin)
            == Err::<AdminAuthState, AdminAuthError>(AdminAuthError::AdminNotFound),
        s.admins.contains_key(admin) ==> (spec_revoke_admin(s, s.super_admin, admin) matches Ok(u) && {
            &&& !u.admins.contains_key(admin)
            &&& !u.is_admin(admin)
            &&& u.admins.contains_key(other) == s.admins.contains_key(other)
            &&& u.admins[other] == s.admins[other]
            &&& u.super_admin == s.super_admin
        }),
{
}

} // verus!
