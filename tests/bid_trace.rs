use block_bid_watcher::address::Address;
use std::cmp::Ordering;
use block_bid_watcher::poll::RawBidTrace;
use block_bid_watcher::types::{BidTrace, ValidationError};
use block_bid_watcher::uint::U256;

fn raw(slot: &str, gas_limit: &str, gas_used: &str, value: &str, timestamp_ms: &str) -> RawBidTrace {
    RawBidTrace {
        slot: slot.to_string(),
        parent_hash: "0xparenthash".to_string(),
        block_hash: "0xblockhash".to_string(),
        builder_pubkey: "0xbuilderpubkey".to_string(),
        proposer_pubkey: "0xproposerpubkey".to_string(),
        proposer_fee_recipient: "0x0000000000000000000000000000000000000000".to_string(),
        gas_limit: gas_limit.to_string(),
        gas_used: gas_used.to_string(),
        value: value.to_string(),
        block_number: "12345".to_string(),
        num_tx: "10".to_string(),
        timestamp: "1609459200".to_string(),
        timestamp_ms: timestamp_ms.to_string(),
        additional_info: None,
    }
}

fn sample(timestamp_ms: u64) -> BidTrace {
    BidTrace::new(
        U256::from_u64(12345),
        "0xparenthash".to_string(),
        "0xblockhash".to_string(),
        "0xbuilderpubkey".to_string(),
        "0xproposerpubkey".to_string(),
        Address::parse("0x0000000000000000000000000000000000000000").unwrap(),
        U256::from_u64(1000000),
        U256::from_u64(500000),
        U256::from_u64(1000000000000000000),
        U256::from_u64(12345),
        U256::from_u64(10),
        U256::from_u64(1609459200),
        U256::from_u64(timestamp_ms),
        None,
    )
    .unwrap()
}

fn same(a: &BidTrace, b: &BidTrace) -> bool {
    a.slot == b.slot
        && a.parent_hash == b.parent_hash
        && a.block_hash == b.block_hash
        && a.builder_pubkey == b.builder_pubkey
        && a.proposer_pubkey == b.proposer_pubkey
        && a.proposer_fee_recipient.eq(&b.proposer_fee_recipient)
        && a.gas_limit == b.gas_limit
        && a.gas_used == b.gas_used
        && a.value == b.value
        && a.block_number == b.block_number
        && a.num_tx == b.num_tx
        && a.timestamp == b.timestamp
        && a.timestamp_ms == b.timestamp_ms
        && a.additional_info == b.additional_info
}

#[test]
fn test_bid_trace_serialization() {
    let bid_trace = sample(0);
    let decoded = raw("12345", "1000000", "500000", "1000000000000000000", "0")
        .to_bid_trace()
        .unwrap();
    assert!(same(&bid_trace, &decoded));
}

#[test]
fn test_bid_trace_serialization_with_timestamp_ms() {
    let bid_trace = sample(1609459200123);
    let decoded = raw("12345", "1000000", "500000", "1000000000000000000", "1609459200123")
        .to_bid_trace()
        .unwrap();
    assert!(same(&bid_trace, &decoded));
}

#[test]
fn test_bid_trace_default_values() {
    let bid_trace = BidTrace {
        slot: U256::zero(),
        parent_hash: String::new(),
        block_hash: String::new(),
        builder_pubkey: String::new(),
        proposer_pubkey: String::new(),
        proposer_fee_recipient: Address::zero(),
        gas_limit: U256::zero(),
        gas_used: U256::zero(),
        value: U256::zero(),
        block_number: U256::zero(),
        num_tx: U256::zero(),
        timestamp: U256::zero(),
        timestamp_ms: U256::zero(),
        additional_info: None,
    };

    assert_eq!(bid_trace.slot, U256::zero());
    assert_eq!(bid_trace.parent_hash, "");
    assert_eq!(bid_trace.block_hash, "");
    assert_eq!(bid_trace.builder_pubkey, "");
    assert_eq!(bid_trace.proposer_pubkey, "");
    assert!(bid_trace.proposer_fee_recipient.eq(&Address::zero()));
    assert_eq!(bid_trace.gas_limit, U256::zero());
    assert_eq!(bid_trace.gas_used, U256::zero());
    assert_eq!(bid_trace.value, U256::zero());
    assert_eq!(bid_trace.block_number, U256::zero());
    assert_eq!(bid_trace.num_tx, U256::zero());
    assert_eq!(bid_trace.timestamp, U256::zero());
    assert_eq!(bid_trace.timestamp_ms, U256::zero());
}

#[test]
fn test_bid_trace_invalid_address() {
    let result = Address::parse("invalid_address");
    assert!(result.is_none());
}

fn build(slot: u64, gas_limit: u64, gas_used: u64) -> Result<BidTrace, ValidationError> {
    BidTrace::new(
        U256::from_u64(slot),
        "p".to_string(),
        "b".to_string(),
        "builder".to_string(),
        "proposer".to_string(),
        Address::zero(),
        U256::from_u64(gas_limit),
        U256::from_u64(gas_used),
        U256::from_u64(7),
        U256::from_u64(1),
        U256::from_u64(1),
        U256::from_u64(1),
        U256::from_u64(1),
        None,
    )
}

#[test]
fn construction_accepts_valid_fields() {
    assert!(build(1, 1, 1).is_ok());
    assert!(build(5, 30000000, 0).is_ok());
}

#[test]
fn construction_rejects_each_invariant() {
    assert_eq!(build(0, 10, 5).unwrap_err(), ValidationError::SlotZero);
    assert_eq!(build(1, 0, 0).unwrap_err(), ValidationError::GasLimitZero);
    assert_eq!(build(1, 10, 11).unwrap_err(), ValidationError::GasUsedExceedsLimit);
    assert_eq!(build(0, 0, 5).unwrap_err(), ValidationError::SlotZero);
}

fn with(value: u64, builder: &str, slot: u64) -> BidTrace {
    BidTrace::new(
        U256::from_u64(slot),
        format!("parent{}", slot),
        "b".to_string(),
        builder.to_string(),
        "proposer".to_string(),
        Address::zero(),
        U256::from_u64(100),
        U256::from_u64(50),
        U256::from_u64(value),
        U256::from_u64(slot),
        U256::from_u64(slot),
        U256::from_u64(slot),
        U256::from_u64(slot),
        None,
    )
    .unwrap()
}

#[test]
fn ordering_is_by_value_alone() {
    let low = with(10, "zzz", 9);
    let high = with(20, "aaa", 1);
    assert_eq!(low.cmp(&high), Ordering::Less);
    assert_eq!(high.cmp(&low), Ordering::Greater);
    assert_eq!(low.cmp(&with(10, "other", 3)), Ordering::Equal);
}

#[test]
fn equivalence_ignores_other_fields() {
    let a = with(10, "builder", 1);
    let b = with(10, "builder", 2);
    let c = with(10, "another", 1);
    let d = with(11, "builder", 1);
    assert!(a.is_equivalent(&b));
    assert!(!a.is_equivalent(&c));
    assert!(!a.is_equivalent(&d));
    assert_eq!(a.dedup_key(), b.dedup_key());
    assert_ne!(a.dedup_key(), c.dedup_key());
}

#[test]
fn duplicate_keeps_content() {
    let a = with(42, "builder", 3);
    assert!(same(&a, &a.duplicate()));
}
