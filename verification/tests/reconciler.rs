use sipguard::addr::Ipv4Address;
use sipguard::firewall::{FirewallPort, IptablesManager};
use sipguard::mem_port::MemoryFirewall;

fn manager_with_port(port: Option<u16>) -> IptablesManager<MemoryFirewall> {
    IptablesManager::new_with_port(MemoryFirewall::new(), None, port)
}

fn addr(a: u8, b: u8, c: u8, d: u8) -> Ipv4Address {
    Ipv4Address::new([a, b, c, d])
}

#[test]
fn block_then_is_blocked_reports_true() {
    let mut m = manager_with_port(Some(5060));
    let x = addr(198, 51, 100, 23);
    assert!(!m.is_blocked(&x));
    m.block_ip(&x).expect("block should succeed");
    assert!(m.is_blocked(&x));
}

#[test]
fn unblock_then_is_blocked_reports_false() {
    let mut m = manager_with_port(Some(5060));
    let x = addr(198, 51, 100, 23);
    m.block_ip(&x).expect("block should succeed");
    assert!(m.is_blocked(&x));
    m.unblock_ip(&x).expect("unblock should succeed");
    assert!(!m.is_blocked(&x));
}

#[test]
fn second_block_is_a_noop() {
    let mut m = manager_with_port(Some(5060));
    let x = addr(198, 51, 100, 23);
    m.block_ip(&x).expect("first block");
    m.block_ip(&x).expect("second block");
    // had the second call appended another rule, one unblock would
    // leave the address still blocked
    m.unblock_ip(&x).expect("unblock");
    assert!(!m.is_blocked(&x));
}

#[test]
fn unblock_without_a_rule_is_a_noop_success() {
    let mut m = manager_with_port(Some(5060));
    let x = addr(203, 0, 113, 99);
    assert!(m.unblock_ip(&x).is_ok());
    assert!(!m.is_blocked(&x));
}

#[test]
fn round_trip_without_port_scope() {
    let mut m = manager_with_port(None);
    let x = addr(192, 0, 2, 44);
    m.block_ip(&x).expect("block");
    assert!(m.is_blocked(&x));
    m.unblock_ip(&x).expect("unblock");
    assert!(!m.is_blocked(&x));
}

#[test]
fn blocking_one_address_leaves_others_alone() {
    let mut m = manager_with_port(Some(5060));
    let x = addr(198, 51, 100, 23);
    let y = addr(198, 51, 100, 24);
    m.block_ip(&x).expect("block");
    assert!(m.is_blocked(&x));
    assert!(!m.is_blocked(&y));
}

#[test]
fn table_append_is_visible_in_the_listing() {
    let mut fw = MemoryFirewall::new();
    assert_eq!(fw.rule_count(), 0);
    fw.append_rule("INPUT", &addr(198, 51, 100, 23), Some(5060)).expect("append");
    assert_eq!(fw.rule_count(), 1);
    let lines = fw.list_rules("INPUT").expect("list");
    assert_eq!(lines.len(), 1);
    assert!(lines[0].contains("198.51.100.23"));
    assert!(lines[0].contains("DROP"));
    assert!(lines[0].contains("dpt:5060"));
}

#[test]
fn table_check_rule_sees_appended_rule() {
    let mut fw = MemoryFirewall::new();
    let x = addr(198, 51, 100, 23);
    assert!(!fw.check_rule("INPUT", &x, Some(5060)));
    fw.append_rule("INPUT", &x, Some(5060)).expect("append");
    assert!(fw.check_rule("INPUT", &x, Some(5060)));
}

#[test]
fn table_delete_by_invalid_position_fails() {
    let mut fw = MemoryFirewall::new();
    assert!(fw.delete_rule_number("INPUT", 0).is_err());
    assert!(fw.delete_rule_number("INPUT", 5).is_err());
}

#[test]
fn table_delete_by_spec_without_match_fails() {
    let mut fw = MemoryFirewall::new();
    assert!(fw.delete_rule_spec("INPUT", &addr(1, 2, 3, 4), None).is_err());
}
