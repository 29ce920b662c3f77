use block_bid_watcher::address::Address;
use block_bid_watcher::types::{BidResponse, BidTrace};
use block_bid_watcher::uint::U256;

fn sample(value: u64, builder: &str) -> BidTrace {
    let mut recipient = vec![0u8; 20];
    recipient[0] = 0xab;
    recipient[19] = 0x01;
    BidTrace::new(
        U256::from_u64(12345),
        "0xparenthash".to_string(),
        "0xblockhash".to_string(),
        builder.to_string(),
        "0xproposerpubkey".to_string(),
        Address::from_bytes(recipient).unwrap(),
        U256::from_u64(1000000),
        U256::from_u64(500000),
        U256::from_u64(value),
        U256::from_u64(100),
        U256::from_u64(10),
        U256::from_u64(1609459200),
        U256::from_u64(1609459200123),
        Some("extra".to_string()),
    )
    .unwrap()
}

#[test]
fn decimal_rendering() {
    assert_eq!(U256::zero().to_dec_string(), "0");
    assert_eq!(U256::from_u64(9).to_dec_string(), "9");
    assert_eq!(U256::from_u64(10).to_dec_string(), "10");
    assert_eq!(U256::from_u64(1000000000000000000).to_dec_string(), "1000000000000000000");
    let max = U256 { l0: u64::MAX, l1: u64::MAX, l2: u64::MAX, l3: u64::MAX };
    assert_eq!(
        max.to_dec_string(),
        "115792089237316195423570985008687907853269984665640564039457584007913129639935"
    );
    let text = "340282366920938463463374607431768211457";
    assert_eq!(U256::from_dec_str(text).unwrap().to_dec_string(), text);
}

#[test]
fn divide_by_ten() {
    let (q, r) = U256::from_u64(1234).divmod10();
    assert_eq!(q, U256::from_u64(123));
    assert_eq!(r, 4);
    let (q, r) = U256 { l0: 0, l1: 1, l2: 0, l3: 0 }.divmod10();
    assert_eq!(q, U256::from_u64(1844674407370955161));
    assert_eq!(r, 6);
}

#[test]
fn address_rendering() {
    let a = Address::parse("0xAB00000000000000000000000000000000000001").unwrap();
    assert_eq!(a.to_hex_string(), "0xab00000000000000000000000000000000000001");
    assert_eq!(Address::zero().to_hex_string(), "0x0000000000000000000000000000000000000000");
}

#[test]
fn bid_trace_rendering() {
    let b = sample(1000000000000000000, "0xbuilderpubkey");
    assert_eq!(
        b.to_string(),
        "BidTrace { slot: 12345, parent_hash: 0xparenthash, block_hash: 0xblockhash, \
         builder_pubkey: 0xbuilderpubkey, proposer_pubkey: 0xproposerpubkey, \
         proposer_fee_recipient: 0xab00000000000000000000000000000000000001, gas_limit: 1000000, \
         gas_used: 500000, value: 1000000000000000000, block_number: 100, num_tx: 10, \
         timestamp: 1609459200 }"
    );
}

#[test]
fn bid_response_rendering_and_best() {
    let response = BidResponse {
        relay_url: "https://relay.example".to_string(),
        bid_traces: vec![sample(5, "a"), sample(9, "b"), sample(9, "c")],
    };
    assert_eq!(response.best().unwrap().builder_pubkey, "b");
    let text = response.to_string();
    let lines: Vec<&str> = text.lines().collect();
    assert_eq!(lines.len(), 3);
    assert_eq!(
        lines[1],
        "BidTrace { relay_url: https://relay.example, block_number: 100, builder_pubkey: b, \
         value: 9, num_tx: 10, timestamp_ms: 1609459200123 }"
    );
    assert!(text.ends_with("}\n"));
    let empty = BidResponse { relay_url: "x".to_string(), bid_traces: vec![] };
    assert!(empty.best().is_none());
    assert_eq!(empty.to_string(), "");
}
