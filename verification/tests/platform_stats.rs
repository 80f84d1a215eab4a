use dabdub_contracts::platform_stats::{PlatformStatsContract, StatsError, ACTIVE_WINDOW_LEDGERS};

const ADMIN: u64 = 1;
const LEDGER: u32 = 0;

fn setup() -> (PlatformStatsContract, u64) {
    (PlatformStatsContract::new(ADMIN), ADMIN)
}

#[test]
fn test_initial_stats_are_zero() {
    let (client, _admin) = setup();
    let stats = client.stats(LEDGER);
    assert_eq!(stats.total_merchants, 0);
    assert_eq!(stats.total_payments, 0);
    assert_eq!(stats.total_settled_volume_usd, 0);
    assert_eq!(stats.active_payments_24h, 0);
    assert!(stats.health.storage_ok);
    assert!(stats.health.stellar_ok);
    assert!(stats.health.partner_ok);
}

#[test]
fn test_record_merchant_and_payment() {
    let (mut client, admin) = setup();
    client.record_merchant(admin).unwrap();
    client.record_payment(admin, 10_000_000i128, true, LEDGER).unwrap();
    client.record_payment(admin, 5_000_000i128, true, LEDGER).unwrap();
    client.record_payment(admin, 7_000_000i128, false, LEDGER).unwrap();

    let stats = client.stats(LEDGER);
    assert_eq!(stats.total_merchants, 1);
    assert_eq!(stats.total_payments, 3);
    assert_eq!(stats.total_settled_volume_usd, 15_000_000);
    assert_eq!(stats.active_payments_24h, 3);
}

#[test]
#[should_panic(expected = "not admin")]
fn test_record_merchant_requires_admin() {
    let (mut client, _admin) = setup();
    let attacker = 2;
    if let Err(e) = client.record_merchant(attacker) {
        panic!("{}", e.message());
    }
}

#[test]
#[should_panic(expected = "not admin")]
fn test_record_payment_requires_admin() {
    let (mut client, _admin) = setup();
    let attacker = 2;
    if let Err(e) = client.record_payment(attacker, 100i128, true, LEDGER) {
        panic!("{}", e.message());
    }
}

#[test]
fn test_partner_health_status_toggle() {
    let (mut client, admin) = setup();
    assert!(client.stats(LEDGER).health.partner_ok);
    client.set_partner_ok(admin, false).unwrap();
    assert!(!client.stats(LEDGER).health.partner_ok);
}

#[test]
fn test_active_payments_count_per_window() {
    let (mut client, admin) = setup();
    client.record_payment(admin, 1, true, 100).unwrap();
    client.record_payment(admin, 1, true, ACTIVE_WINDOW_LEDGERS - 1).unwrap();
    client.record_payment(admin, 1, true, ACTIVE_WINDOW_LEDGERS).unwrap();
    assert_eq!(client.stats(5).active_payments_24h, 2);
    assert_eq!(client.stats(ACTIVE_WINDOW_LEDGERS + 3).active_payments_24h, 1);
    assert_eq!(client.stats(3 * ACTIVE_WINDOW_LEDGERS).active_payments_24h, 0);
    assert_eq!(client.stats(5).total_payments, 3);
}

#[test]
fn test_negative_settled_amount_and_refusals() {
    let (mut client, admin) = setup();
    client.record_payment(admin, -250, true, LEDGER).unwrap();
    assert_eq!(client.stats(LEDGER).total_settled_volume_usd, -250);
    assert_eq!(client.set_partner_ok(9, false), Err(StatsError::NotAdmin));
    assert!(client.stats(LEDGER).health.partner_ok);
    assert_eq!(StatsError::NotAdmin.message(), "not admin");
}
