use cfddns::config::{cargo_name, replace_underscores, Config, ZoneConfig};
use cfddns::ip::Ipv6Policy;

#[test]
fn package_name_is_hyphenated() {
    assert_eq!(cargo_name(), "cfddns");
}

#[test]
fn underscores_become_hyphens() {
    assert_eq!(replace_underscores("a_b_c"), "a-b-c");
    assert_eq!(replace_underscores("nounderscore"), "nounderscore");
    assert_eq!(replace_underscores(""), "");
    assert_eq!(replace_underscores("_"), "-");
}

#[test]
fn configuration_carries_policy_and_zones() {
    let config = Config {
        api_token: String::from("token"),
        ipv6: Ipv6Policy { prefer_eui64: true, prefer_outgoing: false },
        zones: vec![ZoneConfig {
            name: String::from("example.com"),
            records: vec![String::from("home"), String::from("@")],
        }],
    };
    assert!(config.ipv6.prefer_eui64);
    assert!(!config.ipv6.prefer_outgoing);
    assert_eq!(config.zones.len(), 1);
    assert_eq!(config.zones[0].records.len(), 2);
}
