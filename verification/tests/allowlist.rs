use sipguard::whitelist::Whitelist;

#[test]
fn pattern_allows_longer_user_agent_case_insensitively() {
    let wl = Whitelist::new(vec!["microsip".to_string()]);
    assert!(wl.is_allowed("MicroSIP/3.20"));
}

#[test]
fn pattern_allows_exact_match() {
    let wl = Whitelist::new(vec!["microsip".to_string()]);
    assert!(wl.is_allowed("microsip"));
}

#[test]
fn unrelated_user_agent_is_denied() {
    let wl = Whitelist::new(vec!["microsip".to_string()]);
    assert!(!wl.is_allowed("hostile-scanner/1.0"));
}

#[test]
fn user_agent_inside_a_longer_pattern_is_allowed() {
    let wl = Whitelist::new(vec!["my telephone app".to_string()]);
    assert!(wl.is_allowed("Telephone"));
}

#[test]
fn empty_list_denies_everything() {
    let wl = Whitelist::new(Vec::new());
    assert!(!wl.is_allowed("freeswitch"));
    assert!(!wl.is_allowed(""));
}

#[test]
fn default_list_holds_the_builtin_patterns() {
    let wl = Whitelist::default();
    let patterns: Vec<String> = wl.get_patterns().clone();
    assert_eq!(patterns, vec!["freeswitch", "microsip", "telephone", "jssip"]);
    assert!(wl.is_allowed("FreeSWITCH-mod_sofia/1.10"));
    assert!(wl.is_allowed("jsSIP 3.0"));
    assert!(!wl.is_allowed("warvox"));
}

#[test]
fn added_pattern_takes_effect() {
    let mut wl = Whitelist::new(vec!["microsip".to_string()]);
    assert!(!wl.is_allowed("Zoiper r2"));
    wl.add_pattern("zoiper".to_string());
    assert!(wl.is_allowed("Zoiper r2"));
}
