use sipguard::addr::Ipv4Address;
use sipguard::firewall::{matches_blocked_line, matches_numeric_line, scan_blocked};

fn addr() -> Ipv4Address {
    Ipv4Address::new([198, 51, 100, 23])
}

#[test]
fn dotted_rendering_is_exact() {
    assert_eq!(addr().dotted(), "198.51.100.23");
    assert_eq!(Ipv4Address::new([0, 0, 0, 0]).dotted(), "0.0.0.0");
    assert_eq!(Ipv4Address::new([255, 9, 90, 200]).dotted(), "255.9.90.200");
}

#[test]
fn address_keys_distinguish_addresses() {
    assert_ne!(Ipv4Address::new([1, 2, 3, 4]).key(), Ipv4Address::new([4, 3, 2, 1]).key());
    assert_eq!(Ipv4Address::new([0, 0, 0, 1]).key(), 1);
    assert_eq!(Ipv4Address::new([1, 0, 0, 0]).key(), 0x0100_0000);
}

#[test]
fn line_with_dpt_token_matches() {
    let line = "DROP       udp  --  198.51.100.23        0.0.0.0/0            udp dpt:5060";
    assert!(matches_blocked_line(line, &addr(), Some(5060)));
    assert!(matches_numeric_line(line, &addr(), Some(5060)));
}

#[test]
fn line_with_service_alias_matches_only_the_tolerant_check() {
    let line = "DROP       udp  --  198.51.100.23        0.0.0.0/0            udp dpt:sip";
    assert!(matches_blocked_line(line, &addr(), Some(5060)));
    assert!(!matches_numeric_line(line, &addr(), Some(5060)));
}

#[test]
fn alias_is_reserved_for_the_sip_default_port() {
    let line = "DROP       udp  --  198.51.100.23        0.0.0.0/0            udp dpt:sip";
    assert!(!matches_blocked_line(line, &addr(), Some(9999)));
}

#[test]
fn line_without_drop_or_address_does_not_match() {
    assert!(!matches_blocked_line("ACCEPT udp -- 198.51.100.23 dpt:5060", &addr(), Some(5060)));
    assert!(!matches_blocked_line("DROP udp -- 10.0.0.1 dpt:5060", &addr(), Some(5060)));
}

#[test]
fn scan_finds_a_match_anywhere_in_the_listing() {
    let lines = vec![
        "ACCEPT all -- 0.0.0.0/0 0.0.0.0/0".to_string(),
        "DROP udp -- 198.51.100.23 0.0.0.0/0 udp dpt:5060".to_string(),
    ];
    assert!(scan_blocked(&lines, &addr(), Some(5060)));
    assert!(!scan_blocked(&lines, &Ipv4Address::new([9, 9, 9, 9]), Some(5060)));
}

#[test]
fn port_scope_none_needs_only_address_and_action() {
    let line = "DROP all -- 198.51.100.23 0.0.0.0/0";
    assert!(matches_blocked_line(line, &addr(), None));
    assert!(!matches_blocked_line(line, &addr(), Some(5060)));
}
