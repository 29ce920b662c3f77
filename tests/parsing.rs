use block_bid_watcher::address::Address;
use block_bid_watcher::poll::{parse_bids, RawBidTrace, RecordError};
use block_bid_watcher::round::PollError;
use block_bid_watcher::types::ValidationError;
use block_bid_watcher::uint::U256;

#[test]
fn decimal_parse_small_values() {
    assert_eq!(U256::from_dec_str("0"), Some(U256::zero()));
    assert_eq!(U256::from_dec_str("12345"), Some(U256::from_u64(12345)));
    assert_eq!(U256::from_dec_str("007"), Some(U256::from_u64(7)));
}

#[test]
fn decimal_parse_rejects_bad_text() {
    assert_eq!(U256::from_dec_str(""), None);
    assert_eq!(U256::from_dec_str("12a"), None);
    assert_eq!(U256::from_dec_str("-1"), None);
    assert_eq!(U256::from_dec_str(" 1"), None);
}

#[test]
fn decimal_parse_crosses_limbs() {
    // 2^64 and 2^128 + 1
    assert_eq!(
        U256::from_dec_str("18446744073709551616"),
        Some(U256 { l0: 0, l1: 1, l2: 0, l3: 0 })
    );
    assert_eq!(
        U256::from_dec_str("340282366920938463463374607431768211457"),
        Some(U256 { l0: 1, l1: 0, l2: 1, l3: 0 })
    );
    assert_eq!(
        U256::from_u128(340282366920938463463374607431768211455),
        U256 { l0: u64::MAX, l1: u64::MAX, l2: 0, l3: 0 }
    );
}

#[test]
fn decimal_parse_largest_and_overflow() {
    let max = "115792089237316195423570985008687907853269984665640564039457584007913129639935";
    assert_eq!(
        U256::from_dec_str(max),
        Some(U256 { l0: u64::MAX, l1: u64::MAX, l2: u64::MAX, l3: u64::MAX })
    );
    let over = "115792089237316195423570985008687907853269984665640564039457584007913129639936";
    assert_eq!(U256::from_dec_str(over), None);
    assert_eq!(U256::from_dec_str("1000000000000000000000000000000000000000000000000000000000000000000000000000000"), None);
}

#[test]
fn multiply_by_ten_and_add() {
    assert_eq!(U256::from_u64(12).mul10_add(3), Some(U256::from_u64(123)));
    let max = U256 { l0: u64::MAX, l1: u64::MAX, l2: u64::MAX, l3: u64::MAX };
    assert_eq!(max.mul10_add(0), None);
}

#[test]
fn comparison_orders_numerically() {
    let small = U256 { l0: u64::MAX, l1: 0, l2: 0, l3: 0 };
    let big = U256 { l0: 0, l1: 0, l2: 0, l3: 1 };
    assert!(small.lt(&big));
    assert!(!big.lt(&small));
    assert!(small.le(&small));
    assert!(small.eq(&small));
    assert!(!small.eq(&big));
    assert!(U256::zero().is_zero());
    assert!(!big.is_zero());
}

#[test]
fn address_parse_forms() {
    let a = Address::parse("0x00000000000000000000000000000000000000fF").unwrap();
    let mut expected = vec![0u8; 20];
    expected[19] = 255;
    assert_eq!(a.as_bytes(), &expected);
    let b = Address::parse("00000000000000000000000000000000000000ff").unwrap();
    assert!(a.eq(&b));
    assert!(Address::parse("0x1234").is_none());
    assert!(Address::parse("0xgg00000000000000000000000000000000000000").is_none());
    assert!(Address::from_bytes(vec![1u8; 19]).is_none());
    assert!(Address::from_bytes(vec![1u8; 20]).is_some());
}

fn raw(slot: &str, gas_limit: &str, gas_used: &str, value: &str) -> RawBidTrace {
    RawBidTrace {
        slot: slot.to_string(),
        parent_hash: "0xparent".to_string(),
        block_hash: "0xblock".to_string(),
        builder_pubkey: "0xbuilder".to_string(),
        proposer_pubkey: "0xproposer".to_string(),
        proposer_fee_recipient: "0x1111111111111111111111111111111111111111".to_string(),
        gas_limit: gas_limit.to_string(),
        gas_used: gas_used.to_string(),
        value: value.to_string(),
        block_number: "100".to_string(),
        num_tx: "3".to_string(),
        timestamp: "1".to_string(),
        timestamp_ms: "1000".to_string(),
        additional_info: Some("info".to_string()),
    }
}

#[test]
fn raw_record_errors() {
    assert_eq!(raw("x", "1", "1", "1").to_bid_trace().unwrap_err(), RecordError::Malformed);
    assert_eq!(
        raw("0", "1", "1", "1").to_bid_trace().unwrap_err(),
        RecordError::Invalid(ValidationError::SlotZero)
    );
    assert_eq!(
        raw("1", "10", "11", "1").to_bid_trace().unwrap_err(),
        RecordError::Invalid(ValidationError::GasUsedExceedsLimit)
    );
    let mut bad_addr = raw("1", "1", "1", "1");
    bad_addr.proposer_fee_recipient = "invalid_address".to_string();
    assert_eq!(bad_addr.to_bid_trace().unwrap_err(), RecordError::Malformed);
}

#[test]
fn raw_record_fields() {
    let b = raw("7", "30000000", "2000", "900").to_bid_trace().unwrap();
    assert_eq!(b.slot, U256::from_u64(7));
    assert_eq!(b.value, U256::from_u64(900));
    assert_eq!(b.gas_used, U256::from_u64(2000));
    assert_eq!(b.additional_info, Some("info".to_string()));
    assert_eq!(b.proposer_fee_recipient.as_bytes(), &vec![0x11u8; 20]);
}

#[test]
fn parse_bids_drops_invalid_entries() {
    let raws = vec![raw("0", "1", "1", "5"), raw("1", "1", "1", "6"), raw("2", "1", "1", "8")];
    let bids = parse_bids(&raws).unwrap();
    assert_eq!(bids.len(), 2);
    assert_eq!(bids[0].value, U256::from_u64(6));
    assert_eq!(bids[1].value, U256::from_u64(8));
}

#[test]
fn parse_bids_failures() {
    assert_eq!(parse_bids(&vec![]).unwrap_err(), PollError::NoBids);
    assert_eq!(parse_bids(&vec![raw("0", "1", "1", "5")]).unwrap_err(), PollError::NoBids);
    assert_eq!(
        parse_bids(&vec![raw("1", "1", "1", "5"), raw("1", "1", "1", "five")]).unwrap_err(),
        PollError::Malformed
    );
}
