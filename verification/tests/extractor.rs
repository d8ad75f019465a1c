use sipguard::addr::Ipv4Address;
use sipguard::sip::{SipMethod, SipParser};

fn ip() -> Ipv4Address {
    Ipv4Address::new([203, 0, 113, 5])
}

#[test]
fn register_with_user_agent_is_extracted() {
    let parser = SipParser::new();
    let payload = b"REGISTER sip:example.com SIP/2.0\r\nUser-Agent: FooPhone/1.0\r\n\r\n";
    let req = parser.parse_udp_packet(payload, ip()).expect("should parse");
    assert_eq!(req.method, SipMethod::Register);
    assert_eq!(req.user_agent, "FooPhone/1.0");
    assert_eq!(req.source_ip, ip());
}

#[test]
fn options_is_recognized_but_not_actionable() {
    let parser = SipParser::new();
    let payload = b"OPTIONS sip:example.com SIP/2.0\r\n";
    assert!(parser.parse_udp_packet(payload, ip()).is_none());
}

#[test]
fn non_sip_text_yields_nothing() {
    let parser = SipParser::new();
    assert!(parser.parse_udp_packet(b"not sip data", ip()).is_none());
}

#[test]
fn binary_payload_yields_nothing() {
    let parser = SipParser::new();
    // opens like a request but is not well-formed text
    let payload = b"REGISTER \xff\xfe\x00";
    assert!(parser.parse_udp_packet(payload, ip()).is_none());
}

#[test]
fn invite_without_user_agent_defaults_to_unknown() {
    let parser = SipParser::new();
    let payload = b"INVITE sip:bob@example.com SIP/2.0\r\nVia: SIP/2.0/UDP host\r\n\r\n";
    let req = parser.parse_udp_packet(payload, ip()).expect("should parse");
    assert_eq!(req.method, SipMethod::Invite);
    assert_eq!(req.user_agent, "Unknown");
}

#[test]
fn header_name_matches_case_insensitively_and_value_is_trimmed() {
    let parser = SipParser::new();
    let payload = b"REGISTER sip:x SIP/2.0\r\nuser-AGENT:   Softy/2  \r\n\r\n";
    let req = parser.parse_udp_packet(payload, ip()).expect("should parse");
    assert_eq!(req.user_agent, "Softy/2");
}

#[test]
fn header_value_is_trimmed_of_unicode_white_space() {
    let parser = SipParser::new();
    let payload = "REGISTER sip:x SIP/2.0\r\nUser-Agent: \u{a0}Softy/3\u{a0} \r\n\r\n";
    let req = parser.parse_udp_packet(payload.as_bytes(), ip()).expect("should parse");
    assert_eq!(req.user_agent, "Softy/3");
}

#[test]
fn method_must_open_the_message() {
    let parser = SipParser::new();
    let payload = b" REGISTER sip:x SIP/2.0\r\n";
    assert!(parser.parse_udp_packet(payload, ip()).is_none());
}

#[test]
fn source_address_comes_from_the_caller_not_the_payload() {
    let parser = SipParser::new();
    let payload = b"REGISTER sip:10.9.9.9 SIP/2.0\r\nUser-Agent: X\r\n\r\n";
    let req = parser.parse_udp_packet(payload, ip()).expect("should parse");
    assert_eq!(req.source_ip, ip());
}
