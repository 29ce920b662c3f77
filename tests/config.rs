use block_bid_watcher::config::{get_relay_url, Config, RelayId, FLASHBOTS_RELAY_URL, TITAN_RELAY_URL};

#[test]
fn relay_url_by_name_any_case() {
    assert_eq!(get_relay_url("titan"), TITAN_RELAY_URL);
    assert_eq!(get_relay_url("FlashBots"), FLASHBOTS_RELAY_URL);
    assert_eq!(get_relay_url("ULTRASOUND"), "https://relay.ultrasound.money");
    assert_eq!(get_relay_url("aestus"), "https://mainnet.aestus.live");
}

#[test]
fn relay_names_are_validated() {
    assert_eq!(RelayId::from_name("Agnostic"), Some(RelayId::Agnostic));
    assert_eq!(RelayId::from_name("bloXroute"), Some(RelayId::Bloxroute));
    assert_eq!(RelayId::from_name("unknown"), None);
    assert_eq!(RelayId::from_name("titan "), None);
    assert_eq!(RelayId::from_name(""), None);
}

fn config() -> Config {
    let mut c = Config::default();
    c.rpc.ultrasound_rpc_url = "u".to_string();
    c.rpc.agnostic_rpc_url = "a".to_string();
    c.rpc.flashbots_rpc_url = "f".to_string();
    c.rpc.bloxroute_rpc_url = "b".to_string();
    c.rpc.aestus_rpc_url = "e".to_string();
    c.rpc.titan_rpc_url = "t".to_string();
    c.publickey.titan_public_keys = vec!["k1".to_string(), "k2".to_string()];
    c.publickey.aestus_public_keys = vec!["only".to_string()];
    c
}

#[test]
fn rpc_url_by_name() {
    let c = config();
    assert_eq!(c.rpc_url("Titan"), "t");
    assert_eq!(c.rpc_url("bloxroute"), "b");
}

#[test]
fn rpc_urls_lists_every_relay() {
    let urls = config().rpc_urls();
    let expected: Vec<(String, String)> = vec![
        ("ultrasound".to_string(), "u".to_string()),
        ("agnostic".to_string(), "a".to_string()),
        ("flashbots".to_string(), "f".to_string()),
        ("bloxroute".to_string(), "b".to_string()),
        ("aestus".to_string(), "e".to_string()),
        ("titan".to_string(), "t".to_string()),
    ];
    assert_eq!(urls, expected);
}

#[test]
fn public_key_is_a_configured_key() {
    let c = config();
    assert_eq!(c.public_key("aestus"), "only");
    for _ in 0..20 {
        let k = c.public_key("TITAN");
        assert!(k == "k1" || k == "k2");
    }
}
