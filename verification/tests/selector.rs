use cfddns::ip::{
    be64_value, eui48_to_modified_eui64, extract_ip, select, InterfaceAddress, IpAddress,
    Ipv4Address, Ipv6Address, Ipv6Policy,
};

fn addr(hi: u64, lo: u64) -> Ipv6Address {
    Ipv6Address { hi, lo }
}

fn global(a: Ipv6Address) -> InterfaceAddress {
    InterfaceAddress { address: a, global: true }
}

const PREFIX: u64 = 0x2a00_1450_4001_0800;

fn policy(prefer_eui64: bool, prefer_outgoing: bool) -> Ipv6Policy {
    Ipv6Policy { prefer_eui64, prefer_outgoing }
}

#[test]
fn single_candidate_wins_regardless_of_policy() {
    let outgoing = addr(PREFIX, 0x1);
    let candidate = addr(PREFIX, 0x2);
    let locals = vec![global(candidate)];
    for &e in &[false, true] {
        for &o in &[false, true] {
            let mac = [0x02, 0x11, 0x22, 0x33, 0x44, 0x55];
            let r = select(outgoing, &locals, policy(e, o), Some(&mac));
            assert_eq!(r, Some(candidate));
        }
    }
}

#[test]
fn eui64_priority_beats_outgoing_preference() {
    let mac = [0x02, 0x11, 0x22, 0x33, 0x44, 0x55];
    let eui = eui48_to_modified_eui64(&mac).unwrap();
    let suffix = be64_value(&eui);
    let outgoing = addr(PREFIX, 0xdead_beef);
    let c1 = addr(PREFIX, 0x1111);
    let c2 = addr(PREFIX, suffix);
    let locals = vec![global(c1), global(c2)];
    let r = select(outgoing, &locals, policy(true, true), Some(&mac));
    assert_eq!(r, Some(c2));
}

#[test]
fn outgoing_preference_returns_outgoing_itself() {
    let outgoing = addr(PREFIX, 0xdead_beef);
    let c1 = addr(PREFIX, 0x1111);
    let c2 = addr(PREFIX, 0x2222);
    let locals = vec![global(c1), global(c2)];
    let r = select(outgoing, &locals, policy(false, true), None);
    assert_eq!(r, Some(outgoing));
}

#[test]
fn fallback_prefers_candidate_other_than_outgoing() {
    let outgoing = addr(PREFIX, 0xdead_beef);
    let c2 = addr(PREFIX, 0x2222);
    let locals = vec![global(outgoing), global(c2)];
    let r = select(outgoing, &locals, policy(false, false), None);
    assert_eq!(r, Some(c2));
}

#[test]
fn fallback_is_absent_when_every_candidate_equals_outgoing() {
    let outgoing = addr(PREFIX, 0xdead_beef);
    let locals = vec![global(outgoing), global(outgoing)];
    let r = select(outgoing, &locals, policy(false, false), None);
    assert_eq!(r, None);
}

#[test]
fn no_candidate_on_prefix_is_absent() {
    let outgoing = addr(PREFIX, 0x1);
    let other_prefix = addr(0x2001_0db9_0000_0000, 0x2);
    let locals = vec![global(other_prefix)];
    assert_eq!(select(outgoing, &locals, policy(false, true), None), None);
    assert_eq!(select(outgoing, &locals, policy(true, true), None), None);
    let empty: Vec<InterfaceAddress> = Vec::new();
    assert_eq!(select(outgoing, &empty, policy(false, false), None), None);
}

#[test]
fn non_global_addresses_are_no_candidates() {
    let outgoing = addr(PREFIX, 0x1);
    let c1 = addr(PREFIX, 0x2);
    let c2 = addr(PREFIX, 0x3);
    let locals = vec![
        InterfaceAddress { address: c1, global: false },
        InterfaceAddress { address: c2, global: true },
    ];
    // only c2 remains: the single-candidate rule applies
    let r = select(outgoing, &locals, policy(false, true), None);
    assert_eq!(r, Some(c2));
}

#[test]
fn eui64_derivation_from_known_mac() {
    let mac = [0x02, 0x11, 0x22, 0x33, 0x44, 0x55];
    let eui = eui48_to_modified_eui64(&mac).unwrap();
    assert_eq!(eui, [0x00, 0x11, 0x22, 0xff, 0xfe, 0x33, 0x44, 0x55]);
    // the universal/local bit of the first octet is flipped
    assert_eq!(eui[0], mac[0] ^ 0x02);
    let mac2 = [0x00, 0xaa, 0xbb, 0xcc, 0xdd, 0xee];
    let eui2 = eui48_to_modified_eui64(&mac2).unwrap();
    assert_eq!(eui2, [0x02, 0xaa, 0xbb, 0xff, 0xfe, 0xcc, 0xdd, 0xee]);
}

#[test]
fn mac_unavailable_degrades_to_next_rule() {
    let outgoing = addr(PREFIX, 0xdead_beef);
    let c1 = addr(PREFIX, 0x1111);
    let c2 = addr(PREFIX, 0x2222);
    let locals = vec![global(c1), global(c2)];
    // prefer_eui64 set but no MAC to derive from: outgoing preference applies
    assert_eq!(select(outgoing, &locals, policy(true, true), None), Some(outgoing));
    // and without outgoing preference, the fallback applies
    assert_eq!(select(outgoing, &locals, policy(true, false), None), Some(c1));
}

#[test]
fn eui64_without_match_degrades_to_next_rule() {
    let mac = [0x02, 0x11, 0x22, 0x33, 0x44, 0x55];
    let outgoing = addr(PREFIX, 0xdead_beef);
    let c1 = addr(PREFIX, 0x1111);
    let c2 = addr(PREFIX, 0x2222);
    let locals = vec![global(c1), global(c2)];
    assert_eq!(select(outgoing, &locals, policy(true, true), Some(&mac)), Some(outgoing));
    assert_eq!(select(outgoing, &locals, policy(true, false), Some(&mac)), Some(c1));
}

#[test]
fn global_classification() {
    // an ordinary global unicast address
    assert!(addr(0x2a00_1450_4001_0800, 0x1).is_global());
    assert!(addr(0x2600_0000_0000_0000, 0x1).is_global());
    // unspecified and loopback
    assert!(!addr(0, 0).is_global());
    assert!(!addr(0, 1).is_global());
    // link-local fe80::/10
    assert!(!addr(0xfe80_0000_0000_0000, 0x1).is_global());
    // unique-local fc00::/7
    assert!(!addr(0xfc00_0000_0000_0000, 0x1).is_global());
    assert!(!addr(0xfd12_3456_0000_0000, 0x1).is_global());
    // documentation 2001:db8::/32 and 3fff::/20
    assert!(!addr(0x2001_0db8_0000_0000, 0x1).is_global());
    assert!(!addr(0x3fff_0000_0000_0000, 0x1).is_global());
    // benchmarking 2001:2::/48 sits in the protocol-assignments block
    assert!(!addr(0x2001_0002_0000_0000, 0x1).is_global());
    // the port-control anycast exception inside that block is global
    assert!(addr(0x2001_0001_0000_0000, 0x1).is_global());
    // 6to4
    assert!(!addr(0x2002_0000_0000_0000, 0x1).is_global());
    // IPv4-mapped
    assert!(!addr(0, 0x0000_ffff_c633_6409).is_global());
}

#[test]
fn interface_address_classification() {
    let good = addr(0x2a00_1450_4001_0800, 0x1);
    let bad = addr(0xfe80_0000_0000_0000, 0x1);
    assert!(InterfaceAddress::classify(good).global);
    assert!(!InterfaceAddress::classify(bad).global);
    assert_eq!(InterfaceAddress::classify(good).address, good);
}

#[test]
fn address_construction() {
    let v4 = Ipv4Address::from_octets(203, 0, 113, 9);
    assert_eq!(v4.bits, 0xcb00_7109);
    let o: [u8; 16] = [
        0x2a, 0x00, 0x14, 0x50, 0x40, 0x01, 0x08, 0x00, 0x00, 0x00, 0x00, 0x00, 0x00, 0x00, 0x20,
        0x0e,
    ];
    let v6 = Ipv6Address::from_octets(&o);
    assert_eq!(v6.hi, 0x2a00_1450_4001_0800);
    assert_eq!(v6.lo, 0x0000_0000_0000_200e);
    assert_eq!(v6.prefix(), v6.hi);
    assert_eq!(v6.suffix(), v6.lo);
    assert_eq!(
        be64_value(&[0x00, 0x11, 0x22, 0xff, 0xfe, 0x33, 0x44, 0x55]),
        0x0011_22ff_fe33_4455
    );
    let _ = IpAddress::V4(v4);
}

#[test]
fn extract_ip_from_trace_body() {
    let body = "fl=123abc\nh=cloudflare.com\nip=203.0.113.9\nts=1700000000.000\n";
    assert_eq!(extract_ip(body), Some(String::from("203.0.113.9")));
}

#[test]
fn extract_ip_missing_key() {
    assert_eq!(extract_ip("fl=1\nh=x\n"), None);
    assert_eq!(extract_ip(""), None);
    assert_eq!(extract_ip("no separators here\n"), None);
    // the key must be exactly `ip`
    assert_eq!(extract_ip("ipx=1.2.3.4\n"), None);
    assert_eq!(extract_ip("i=1.2.3.4\n"), None);
}

#[test]
fn extract_ip_edge_shapes() {
    // no trailing newline
    assert_eq!(extract_ip("ip=2001:db8::1"), Some(String::from("2001:db8::1")));
    // empty value
    assert_eq!(extract_ip("ip=\n"), Some(String::from("")));
    // the last occurrence wins
    assert_eq!(extract_ip("ip=1.1.1.1\nip=2.2.2.2\n"), Some(String::from("2.2.2.2")));
    // the value may itself contain `=`
    assert_eq!(extract_ip("ip=a=b\n"), Some(String::from("a=b")));
}

#[test]
fn extract_ip_handles_crlf_line_endings() {
    assert_eq!(
        extract_ip("fl=1\r\nip=203.0.113.9\r\nts=2\r\n"),
        Some(String::from("203.0.113.9"))
    );
    // a carriage return not followed by a newline is ordinary text
    assert_eq!(extract_ip("ip=a\r"), Some(String::from("a\r")));
}
