use dabdub_contracts::rbac_access::{RbacAccessContract, RbacError, Role};

const ROOT: u64 = 1;

#[test]
fn test_role_rank_order() {
    assert_eq!(RbacAccessContract::role_rank(Role::ReadOnly), 1);
    assert_eq!(RbacAccessContract::role_rank(Role::ComplianceAdmin), 2);
    assert_eq!(RbacAccessContract::role_rank(Role::OperationsAdmin), 3);
    assert_eq!(RbacAccessContract::role_rank(Role::SuperAdmin), 4);
}

#[test]
fn test_constructor_grants_super_admin() {
    let c = RbacAccessContract::new(ROOT);
    assert_eq!(c.get_role(ROOT), Some(Role::SuperAdmin));
    assert_eq!(c.get_role(2), None);
}

#[test]
fn test_grant_then_get_role() {
    let mut c = RbacAccessContract::new(ROOT);
    c.grant_role(ROOT, 2, Role::ComplianceAdmin).unwrap();
    assert_eq!(c.get_role(2), Some(Role::ComplianceAdmin));
    c.grant_role(ROOT, 2, Role::ReadOnly).unwrap();
    assert_eq!(c.get_role(2), Some(Role::ReadOnly));
}

#[test]
fn test_only_super_admin_grants() {
    let mut c = RbacAccessContract::new(ROOT);
    assert_eq!(c.grant_role(5, 6, Role::ReadOnly), Err(RbacError::RoleNotAssigned));
    c.grant_role(ROOT, 2, Role::OperationsAdmin).unwrap();
    assert_eq!(c.grant_role(2, 6, Role::ReadOnly), Err(RbacError::InsufficientRole));
    assert_eq!(c.get_role(6), None);
}

#[test]
fn test_tasks_require_minimum_rank() {
    let mut c = RbacAccessContract::new(ROOT);
    c.grant_role(ROOT, 2, Role::ComplianceAdmin).unwrap();
    c.grant_role(ROOT, 3, Role::ReadOnly).unwrap();
    assert_eq!(c.execute_operations_task(2), Err(RbacError::InsufficientRole));
    assert_eq!(c.execute_compliance_task(2), Ok(()));
    assert_eq!(c.execute_read_task(2), Ok(()));
    assert_eq!(c.execute_compliance_task(3), Err(RbacError::InsufficientRole));
    assert_eq!(c.execute_read_task(3), Ok(()));
    assert_eq!(c.execute_read_task(4), Err(RbacError::RoleNotAssigned));
    assert_eq!(c.execute_operations_task(ROOT), Ok(()));
}

#[test]
fn test_revoke_role_removes_it() {
    let mut c = RbacAccessContract::new(ROOT);
    c.grant_role(ROOT, 2, Role::OperationsAdmin).unwrap();
    c.revoke_role(ROOT, 2).unwrap();
    assert_eq!(c.get_role(2), None);
    assert_eq!(c.revoke_role(ROOT, 2), Err(RbacError::RoleNotAssigned));
}

#[test]
fn test_cannot_revoke_own_role() {
    let mut c = RbacAccessContract::new(ROOT);
    assert_eq!(c.revoke_role(ROOT, ROOT), Err(RbacError::CannotRevokeOwnRole));
    assert_eq!(c.get_role(ROOT), Some(Role::SuperAdmin));
}

#[test]
fn test_super_admin_can_revoke_another_super_admin() {
    let mut c = RbacAccessContract::new(ROOT);
    c.grant_role(ROOT, 2, Role::SuperAdmin).unwrap();
    c.revoke_role(2, ROOT).unwrap();
    assert_eq!(c.get_role(ROOT), None);
    assert_eq!(c.get_role(2), Some(Role::SuperAdmin));
    assert_eq!(c.revoke_role(ROOT, 2), Err(RbacError::RoleNotAssigned));
}

#[test]
fn test_regranted_super_admin_still_counts() {
    let mut c = RbacAccessContract::new(ROOT);
    c.grant_role(ROOT, 2, Role::SuperAdmin).unwrap();
    c.grant_role(ROOT, 2, Role::ReadOnly).unwrap();
    c.grant_role(ROOT, 2, Role::SuperAdmin).unwrap();
    c.revoke_role(ROOT, 2).unwrap();
    assert_eq!(c.get_role(2), None);
}

#[test]
fn test_rbac_error_messages() {
    assert_eq!(RbacError::RoleNotAssigned.message(), "role not assigned");
    assert_eq!(RbacError::InsufficientRole.message(), "insufficient role");
    assert_eq!(RbacError::CannotRevokeOwnRole.message(), "cannot revoke your own role");
    assert_eq!(RbacError::CannotRevokeLastSuperAdmin.message(), "cannot revoke the last SuperAdmin");
}
