use dabdub_contracts::merchant_registry::{
    MerchantRegistryContract, MerchantStatus, RegistryError, DEFAULT_FEE_BPS, MAX_FEE_BPS,
};

const ADMIN: u64 = 1;

fn setup() -> MerchantRegistryContract {
    MerchantRegistryContract::new(ADMIN)
}

#[test]
fn test_register_merchant_defaults() {
    let mut c = setup();
    c.register_merchant(ADMIN, 10, b"Acme".to_vec()).unwrap();
    let r = c.get_merchant(10).unwrap();
    assert_eq!(r.merchant, 10);
    assert_eq!(r.name, b"Acme".to_vec());
    assert_eq!(r.status, MerchantStatus::Active);
    assert!(!r.kyc_verified);
    assert_eq!(r.fee_bps, DEFAULT_FEE_BPS);
    assert_eq!(c.get_fee_tier(10), Ok(150));
    assert!(c.is_merchant_active(10));
    assert!(!c.is_approved(10));
}

#[test]
fn test_register_twice_and_by_non_admin() {
    let mut c = setup();
    c.register_merchant(ADMIN, 10, b"Acme".to_vec()).unwrap();
    assert_eq!(c.register_merchant(ADMIN, 10, b"Other".to_vec()).unwrap_err(), RegistryError::AlreadyRegistered);
    assert_eq!(c.register_merchant(2, 11, b"X".to_vec()).unwrap_err(), RegistryError::NotAdmin);
    assert_eq!(c.get_merchant(10).unwrap().name, b"Acme".to_vec());
    assert_eq!(c.get_merchant(11).unwrap_err(), RegistryError::MerchantNotFound);
}

#[test]
fn test_lifecycle_transitions() {
    let mut c = setup();
    c.register_merchant(ADMIN, 10, b"Acme".to_vec()).unwrap();
    assert_eq!(c.reactivate_merchant(ADMIN, 10), Err(RegistryError::AlreadyActive));
    c.suspend_merchant(ADMIN, 10).unwrap();
    assert!(!c.is_merchant_active(10));
    assert_eq!(c.suspend_merchant(ADMIN, 10), Err(RegistryError::AlreadySuspended));
    c.reactivate_merchant(ADMIN, 10).unwrap();
    assert!(c.is_merchant_active(10));
    c.terminate_merchant(ADMIN, 10).unwrap();
    assert_eq!(c.get_merchant(10).unwrap().status, MerchantStatus::Terminated);
    assert_eq!(c.suspend_merchant(ADMIN, 10), Err(RegistryError::MerchantTerminated));
    assert_eq!(c.reactivate_merchant(ADMIN, 10), Err(RegistryError::CannotReactivateTerminated));
    assert_eq!(c.terminate_merchant(ADMIN, 10), Err(RegistryError::AlreadyTerminated));
    assert_eq!(c.suspend_merchant(ADMIN, 99), Err(RegistryError::MerchantNotFound));
}

#[test]
fn test_kyc_and_approval() {
    let mut c = setup();
    assert!(!c.is_approved(10));
    assert!(!c.is_kyc_verified(10));
    c.register_merchant(ADMIN, 10, b"Acme".to_vec()).unwrap();
    c.set_kyc_status(ADMIN, 10, true).unwrap();
    assert!(c.is_kyc_verified(10));
    assert!(c.is_approved(10));
    c.suspend_merchant(ADMIN, 10).unwrap();
    assert!(c.is_kyc_verified(10));
    assert!(!c.is_approved(10));
}

#[test]
fn test_fee_tier_updates() {
    let mut c = setup();
    c.register_merchant(ADMIN, 10, b"Acme".to_vec()).unwrap();
    c.update_fee_tier(ADMIN, 10, MAX_FEE_BPS).unwrap();
    assert_eq!(c.get_fee_tier(10), Ok(1000));
    assert_eq!(c.update_fee_tier(ADMIN, 10, 1001), Err(RegistryError::FeeAboveMaximum));
    assert_eq!(c.update_fee_tier(ADMIN, 99, 1001), Err(RegistryError::FeeAboveMaximum));
    assert_eq!(c.update_fee_tier(ADMIN, 99, 10), Err(RegistryError::MerchantNotFound));
    assert_eq!(c.update_fee_tier(5, 10, 10), Err(RegistryError::NotAdmin));
    assert_eq!(c.get_fee_tier(10), Ok(1000));
    assert_eq!(c.get_fee_tier(99), Err(RegistryError::MerchantNotFound));
}

#[test]
fn test_update_merchant_name() {
    let mut c = setup();
    c.register_merchant(ADMIN, 10, b"Acme".to_vec()).unwrap();
    c.update_merchant(ADMIN, 10, b"Acme Ltd".to_vec()).unwrap();
    assert_eq!(c.get_merchant(10).unwrap().name, b"Acme Ltd".to_vec());
    assert_eq!(c.update_merchant(ADMIN, 11, b"X".to_vec()), Err(RegistryError::MerchantNotFound));
}

#[test]
fn test_paginated_listing() {
    let mut c = setup();
    for m in 0..5u64 {
        c.register_merchant(ADMIN, 100 + m, format!("m{}", m).into_bytes()).unwrap();
    }
    let p0 = c.merchants(0, 2).unwrap();
    let p1 = c.merchants(1, 2).unwrap();
    let p2 = c.merchants(2, 2).unwrap();
    let p3 = c.merchants(3, 2).unwrap();
    assert_eq!(p0.iter().map(|r| r.merchant).collect::<Vec<_>>(), vec![100, 101]);
    assert_eq!(p1.iter().map(|r| r.merchant).collect::<Vec<_>>(), vec![102, 103]);
    assert_eq!(p2.iter().map(|r| r.merchant).collect::<Vec<_>>(), vec![104]);
    assert!(p3.is_empty());
    assert_eq!(c.merchants(0, 0).unwrap_err(), RegistryError::ZeroPageSize);
    assert_eq!(c.merchants(u32::MAX, u32::MAX).unwrap().len(), 0);
    assert_eq!(c.merchants(0, 10).unwrap().len(), 5);
}

#[test]
fn test_transfer_admin() {
    let mut c = setup();
    assert_eq!(c.get_admin(), ADMIN);
    assert_eq!(c.transfer_admin(2, 3), Err(RegistryError::NotAdmin));
    assert_eq!(c.transfer_admin(ADMIN, 2), Ok(ADMIN));
    assert_eq!(c.get_admin(), 2);
    assert_eq!(c.register_merchant(ADMIN, 10, b"A".to_vec()), Err(RegistryError::NotAdmin));
    c.register_merchant(2, 10, b"A".to_vec()).unwrap();
}

#[test]
fn test_registry_error_messages() {
    assert_eq!(RegistryError::NotAdmin.message(), "Not admin");
    assert_eq!(RegistryError::MerchantNotFound.message(), "Merchant not found");
    assert_eq!(RegistryError::FeeAboveMaximum.message(), "fee_bps exceeds maximum of 1000");
    assert_eq!(RegistryError::CannotReactivateTerminated.message(), "Cannot reactivate terminated merchant");
    assert_eq!(RegistryError::ZeroPageSize.message(), "page size must be > 0");
}
