use dabdub_contracts::admin_auth::{AdminAuthContract, AdminAuthError, AdminRole};

const SUPER_ADMIN: u64 = 1;

fn setup() -> (AdminAuthContract, u64) {
    (AdminAuthContract::new(SUPER_ADMIN), SUPER_ADMIN)
}

#[test]
fn test_constructor_bootstraps_super_admin() {
    let (client, super_admin) = setup();
    let user = client.get_admin(super_admin).unwrap();
    assert_eq!(user.role, AdminRole::SuperAdmin);
    assert!(user.active);
    assert!(client.is_admin(super_admin));
}

#[test]
fn test_is_admin_false_for_non_admin() {
    let (client, _super_admin) = setup();
    let stranger = 42;
    assert!(!client.is_admin(stranger));
}

#[test]
fn test_add_admin_grants_role() {
    let (mut client, super_admin) = setup();
    let admin = 2;
    client.add_admin(super_admin, admin, AdminRole::Admin).unwrap();
    assert!(client.is_admin(admin));
    let user = client.get_admin(admin).unwrap();
    assert_eq!(user.role, AdminRole::Admin);
}

#[test]
fn test_authorize_allows_admin() {
    let (mut client, super_admin) = setup();
    let admin = 2;
    client.add_admin(super_admin, admin, AdminRole::Admin).unwrap();
    client.authorize(admin).unwrap();
}

#[test]
#[should_panic(expected = "unauthorized admin")]
fn test_authorize_rejects_merchant_address() {
    let (client, _super_admin) = setup();
    let merchant = 7;
    if let Err(e) = client.authorize(merchant) {
        panic!("{}", e.message());
    }
}

#[test]
#[should_panic(expected = "not super admin")]
fn test_add_admin_requires_super_admin() {
    let (mut client, super_admin) = setup();
    let admin = 2;
    let attacker = 3;
    client.add_admin(super_admin, admin, AdminRole::Admin).unwrap();
    if let Err(e) = client.add_admin(attacker, admin, AdminRole::Admin) {
        panic!("{}", e.message());
    }
}

#[test]
fn test_revoke_admin() {
    let (mut client, super_admin) = setup();
    let admin = 2;
    client.add_admin(super_admin, admin, AdminRole::Admin).unwrap();
    assert!(client.is_admin(admin));
    client.revoke_admin(super_admin, admin).unwrap();
    assert!(!client.is_admin(admin));
}

#[test]
#[should_panic(expected = "admin not found")]
fn test_revoke_unknown_admin_panics() {
    let (mut client, super_admin) = setup();
    let stranger = 9;
    if let Err(e) = client.revoke_admin(super_admin, stranger) {
        panic!("{}", e.message());
    }
}

#[test]
fn test_refused_requests_leave_store_unchanged() {
    let (mut client, super_admin) = setup();
    assert_eq!(client.add_admin(5, 6, AdminRole::Admin), Err(AdminAuthError::NotSuperAdmin));
    assert!(!client.is_admin(6));
    assert_eq!(client.revoke_admin(5, super_admin), Err(AdminAuthError::NotSuperAdmin));
    assert!(client.is_admin(super_admin));
    assert_eq!(client.revoke_admin(super_admin, 6), Err(AdminAuthError::AdminNotFound));
}

#[test]
fn test_authorize_follows_add_and_revoke() {
    let (mut client, super_admin) = setup();
    let admin = 4;
    assert_eq!(client.authorize(admin), Err(AdminAuthError::UnauthorizedAdmin));
    client.add_admin(super_admin, admin, AdminRole::SuperAdmin).unwrap();
    assert_eq!(client.authorize(admin), Ok(()));
    // The stored SuperAdmin role does not make the account the store's SuperAdmin.
    assert_eq!(client.add_admin(admin, 8, AdminRole::Admin), Err(AdminAuthError::NotSuperAdmin));
    client.revoke_admin(super_admin, admin).unwrap();
    assert_eq!(client.authorize(admin), Err(AdminAuthError::UnauthorizedAdmin));
    assert!(client.get_admin(admin).is_none());
}

#[test]
fn test_add_admin_overwrites_record() {
    let (mut client, super_admin) = setup();
    client.add_admin(super_admin, super_admin, AdminRole::Admin).unwrap();
    assert_eq!(client.get_admin(super_admin).unwrap().role, AdminRole::Admin);
    // Still the store's SuperAdmin.
    client.add_admin(super_admin, 3, AdminRole::Admin).unwrap();
    assert!(client.is_admin(3));
}

#[test]
fn test_admin_error_messages() {
    assert_eq!(AdminAuthError::NotSuperAdmin.message(), "not super admin");
    assert_eq!(AdminAuthError::AdminNotFound.message(), "admin not found");
    assert_eq!(AdminAuthError::UnauthorizedAdmin.message(), "unauthorized admin");
}
