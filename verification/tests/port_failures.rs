use sipguard::addr::Ipv4Address;
use sipguard::firewall::{FirewallPort, IptablesManager};

/// A control port whose tool invocations all fail; the exact check
/// answers as configured.
struct FailingPort {
    check_answer: bool,
}

impl FirewallPort for FailingPort {
    fn check_rule(&self, _chain: &str, _ip: &Ipv4Address, _port: Option<u16>) -> bool {
        self.check_answer
    }

    fn append_rule(
        &mut self,
        _chain: &str,
        _ip: &Ipv4Address,
        _port: Option<u16>,
    ) -> Result<(), String> {
        Err("tool failure".to_string())
    }

    fn list_rules(&self, _chain: &str) -> Result<Vec<String>, String> {
        Err("tool failure".to_string())
    }

    fn delete_rule_number(&mut self, _chain: &str, _n: usize) -> Result<(), String> {
        Err("tool failure".to_string())
    }

    fn delete_rule_spec(
        &mut self,
        _chain: &str,
        _ip: &Ipv4Address,
        _port: Option<u16>,
    ) -> Result<(), String> {
        Err("tool failure".to_string())
    }
}

fn addr() -> Ipv4Address {
    Ipv4Address::new([198, 51, 100, 23])
}

#[test]
fn failed_listing_reports_not_blocked() {
    let m = IptablesManager::new_with_port(FailingPort { check_answer: false }, None, Some(5060));
    assert!(!m.is_blocked(&addr()));
}

#[test]
fn failed_append_surfaces_the_diagnostics() {
    let mut m =
        IptablesManager::new_with_port(FailingPort { check_answer: false }, None, Some(5060));
    let err = m.block_ip(&addr()).expect_err("append cannot succeed");
    assert!(err.contains("tool failure"));
}

#[test]
fn unblock_fails_only_when_both_paths_fail() {
    let mut m =
        IptablesManager::new_with_port(FailingPort { check_answer: true }, None, Some(5060));
    let err = m.unblock_ip(&addr()).expect_err("no deletion path can succeed");
    assert!(err.contains("tool failure"));
}

/// A port whose listing always fails but whose specification-based
/// deletion works.
struct ListlessPort {
    has_rule: bool,
}

impl FirewallPort for ListlessPort {
    fn check_rule(&self, _chain: &str, _ip: &Ipv4Address, _port: Option<u16>) -> bool {
        self.has_rule
    }

    fn append_rule(
        &mut self,
        _chain: &str,
        _ip: &Ipv4Address,
        _port: Option<u16>,
    ) -> Result<(), String> {
        self.has_rule = true;
        Ok(())
    }

    fn list_rules(&self, _chain: &str) -> Result<Vec<String>, String> {
        Err("tool failure".to_string())
    }

    fn delete_rule_number(&mut self, _chain: &str, _n: usize) -> Result<(), String> {
        Err("tool failure".to_string())
    }

    fn delete_rule_spec(
        &mut self,
        _chain: &str,
        _ip: &Ipv4Address,
        _port: Option<u16>,
    ) -> Result<(), String> {
        if self.has_rule {
            self.has_rule = false;
            Ok(())
        } else {
            Err("no matching rule".to_string())
        }
    }
}

#[test]
fn unblock_falls_back_to_the_specification_when_the_listing_fails() {
    let mut m = IptablesManager::new_with_port(ListlessPort { has_rule: true }, None, Some(5060));
    assert!(m.is_blocked(&addr()));
    assert!(m.unblock_ip(&addr()).is_ok());
    assert!(!m.is_blocked(&addr()));
}

#[test]
fn unblock_stays_a_noop_when_nothing_reports_blocked() {
    let mut m =
        IptablesManager::new_with_port(FailingPort { check_answer: false }, None, Some(5060));
    assert!(m.unblock_ip(&addr()).is_ok());
}
