use dabdub_contracts::batch_payments::{
    i128_to_be_bytes, payment_id, u64_to_be_bytes, BatchError, BatchPaymentContract, PaymentInput,
};
use soroban_sdk::testutils::Address as _;
use soroban_sdk::xdr::ToXdr;
use soroban_sdk::{Address, Bytes, Env};

const ADMIN: u64 = 1;

fn input(amount: i128, memo: &str) -> PaymentInput {
    PaymentInput { amount, memo: memo.as_bytes().to_vec(), customer: None }
}

fn xdr_of(env: &Env, merchant: &Address) -> Vec<u8> {
    merchant.clone().to_xdr(env).iter().collect()
}

fn expected_id(env: &Env, merchant: &Address, counter: u64, amount: i128, memo: &str) -> [u8; 32] {
    let mut preimage = Bytes::new(env);
    preimage.append(&merchant.clone().to_xdr(env));
    preimage.extend_from_array(&counter.to_be_bytes());
    preimage.extend_from_array(&amount.to_be_bytes());
    preimage.append(&soroban_sdk::String::from_str(env, memo).to_xdr(env));
    env.crypto().sha256(&preimage).to_array()
}

fn setup() -> (Env, BatchPaymentContract) {
    let env = Env::default();
    let mut c = BatchPaymentContract::new();
    c.init(ADMIN, 10, 1_000).unwrap();
    (env, c)
}

#[test]
fn test_init_checks() {
    let mut c = BatchPaymentContract::new();
    assert_eq!(c.get_limits(), Err(BatchError::NotInitialized));
    assert_eq!(c.admin(), Err(BatchError::NotInitialized));
    assert_eq!(c.init(ADMIN, 0, 10), Err(BatchError::MinAmountNotPositive));
    assert_eq!(c.init(ADMIN, 11, 10), Err(BatchError::MinAboveMax));
    c.init(ADMIN, 5, 10).unwrap();
    assert_eq!(c.get_limits(), Ok((5, 10)));
    assert_eq!(c.admin(), Ok(ADMIN));
    assert_eq!(c.init(ADMIN, 5, 10), Err(BatchError::AlreadyInitialized));
}

#[test]
fn test_set_limits() {
    let mut c = BatchPaymentContract::new();
    assert_eq!(c.set_limits(-1, 10), Err(BatchError::MinAmountNotPositive));
    assert_eq!(c.set_limits(1, 10), Err(BatchError::NotInitialized));
    c.init(ADMIN, 5, 10).unwrap();
    assert_eq!(c.set_limits(20, 10), Err(BatchError::MinAboveMax));
    c.set_limits(20, 20).unwrap();
    assert_eq!(c.get_limits(), Ok((20, 20)));
    assert_eq!(BatchPaymentContract::max_batch_size(), 20);
}

#[test]
fn test_create_batch_ids_and_records() {
    let (env, mut c) = setup();
    let merchant = Address::generate(&env);
    let mx = xdr_of(&env, &merchant);
    let batch = vec![input(10, "first"), input(1_000, "second")];
    let ids = c.create_batch(&env, &mx, &batch).unwrap();
    assert_eq!(ids.len(), 2);
    assert_eq!(ids[0], expected_id(&env, &merchant, 0, 10, "first"));
    assert_eq!(ids[1], expected_id(&env, &merchant, 1, 1_000, "second"));
    let rec = c.get_payment(&ids[1]).unwrap();
    assert_eq!(rec.amount, 1_000);
    assert_eq!(rec.memo, b"second".to_vec());
    assert_eq!(rec.merchant, mx);
    assert_eq!(rec.id, ids[1]);

    // The counter carries over to the next batch.
    let more = c.create_batch(&env, &mx, &vec![input(10, "first")]).unwrap();
    assert_eq!(more[0], expected_id(&env, &merchant, 2, 10, "first"));
    assert_ne!(more[0], ids[0]);
    assert!(c.get_payment(&ids[0]).is_some());
    assert!(c.get_payment(&[0u8; 32]).is_none());
}

#[test]
fn test_create_batch_validation_is_all_or_nothing() {
    let (env, mut c) = setup();
    let merchant = Address::generate(&env);
    let mx = xdr_of(&env, &merchant);
    assert_eq!(c.create_batch(&env, &mx, &vec![]).unwrap_err(), BatchError::EmptyBatch);
    let too_many: Vec<PaymentInput> = (0..21).map(|_| input(10, "m")).collect();
    assert_eq!(c.create_batch(&env, &mx, &too_many).unwrap_err(), BatchError::BatchTooLarge);
    let low = vec![input(10, "ok"), input(9, "low")];
    assert_eq!(c.create_batch(&env, &mx, &low).unwrap_err(), BatchError::AmountOutsideLimits);
    let high = vec![input(1_001, "")];
    assert_eq!(c.create_batch(&env, &mx, &high).unwrap_err(), BatchError::AmountOutsideLimits);
    let memo = vec![input(10, "ok"), input(10, "ok"), input(10, "")];
    assert_eq!(c.create_batch(&env, &mx, &memo).unwrap_err(), BatchError::EmptyMemo { index: 2 });
    // Nothing was recorded: the next ID still uses counter 0.
    let ids = c.create_batch(&env, &mx, &vec![input(10, "ok")]).unwrap();
    assert_eq!(ids[0], expected_id(&env, &merchant, 0, 10, "ok"));
    let full: Vec<PaymentInput> = (0..20).map(|_| input(10, "m")).collect();
    assert_eq!(c.create_batch(&env, &mx, &full).unwrap().len(), 20);
}

#[test]
fn test_create_batch_requires_init() {
    let env = Env::default();
    let mut c = BatchPaymentContract::new();
    assert_eq!(c.create_batch(&env, &[1, 2], &vec![input(10, "m")]).unwrap_err(), BatchError::NotInitialized);
}

#[test]
fn test_payment_id_commits_to_the_xdr_of_its_parts() {
    let env = Env::default();
    let merchant = vec![9u8; 5];
    let memo = b"hello";
    let mut preimage = merchant.clone();
    preimage.extend_from_slice(&7u64.to_be_bytes());
    preimage.extend_from_slice(&(-3i128).to_be_bytes());
    // A string value: tag 14, length, bytes, zero padding to four.
    preimage.extend_from_slice(&[0, 0, 0, 14, 0, 0, 0, 5]);
    preimage.extend_from_slice(memo);
    preimage.extend_from_slice(&[0, 0, 0]);
    let expected = env.crypto().sha256(&Bytes::from_slice(&env, &preimage)).to_array();
    assert_eq!(payment_id(&env, &merchant, 7, -3, memo), expected);
}

#[test]
fn test_memo_need_not_be_utf8() {
    let (env, mut c) = setup();
    let memo = vec![0xffu8, 0xfe];
    let batch = vec![PaymentInput { amount: 10, memo: memo.clone(), customer: Some(3) }];
    let ids = c.create_batch(&env, &[1, 2, 3], &batch).unwrap();
    assert_eq!(c.get_payment(&ids[0]).unwrap().memo, memo);
    assert_eq!(c.payment_counter(), 1);
}

#[test]
fn test_big_endian_encoding() {
    assert_eq!(u64_to_be_bytes(0x0102_0304_0506_0708), 0x0102_0304_0506_0708u64.to_be_bytes().to_vec());
    assert_eq!(i128_to_be_bytes(-2), (-2i128).to_be_bytes().to_vec());
    assert_eq!(i128_to_be_bytes(1_000), 1_000i128.to_be_bytes().to_vec());
}

#[test]
fn test_batch_error_messages() {
    assert_eq!(BatchError::BatchTooLarge.message(), "batch exceeds maximum of 20 payments");
    assert_eq!(BatchError::EmptyMemo { index: 3 }.message(), "memo must not be empty");
    assert_eq!(BatchError::IdCollision.message(), "payment id collision detected");
}
