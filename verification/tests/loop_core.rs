use sipguard::dispatch::{CaptureEvent, Dispatcher, StepOutcome};
use sipguard::firewall::IptablesManager;
use sipguard::mem_port::MemoryFirewall;
use sipguard::recent::RecentMap;
use sipguard::sip::SipParser;
use sipguard::whitelist::Whitelist;

fn frame(src: [u8; 4], payload: &[u8]) -> Vec<u8> {
    let mut f = vec![0u8; 14];
    f[12] = 0x08;
    f[13] = 0x00;
    let mut ip = vec![0u8; 20];
    ip[0] = 0x45;
    ip[12] = src[0];
    ip[13] = src[1];
    ip[14] = src[2];
    ip[15] = src[3];
    f.extend_from_slice(&ip);
    f.extend_from_slice(&[0u8; 8]);
    f.extend_from_slice(payload);
    f
}

fn dispatcher() -> Dispatcher<MemoryFirewall> {
    let manager = IptablesManager::new_with_port(MemoryFirewall::new(), None, Some(5060));
    let whitelist = Whitelist::new(vec!["microsip".to_string()]);
    Dispatcher::new(manager, whitelist, SipParser::new())
}

#[test]
fn denied_request_is_blocked_then_already_blocked() {
    let mut d = dispatcher();
    let src = [198u8, 51, 100, 23];
    let payload = b"REGISTER sip:x SIP/2.0\r\nUser-Agent: hostile-scanner/1.0\r\n\r\n";
    let first = d.step(CaptureEvent::Frame(frame(src, payload)), 10);
    assert!(matches!(first, StepOutcome::Blocked(_, Ok(()), true)));
    let second = d.step(CaptureEvent::Frame(frame(src, payload)), 11);
    assert!(matches!(second, StepOutcome::AlreadyBlocked(_)));
}

#[test]
fn allowed_request_unblocks_a_blocked_address() {
    let mut d = dispatcher();
    let src = [198u8, 51, 100, 23];
    let denied = b"REGISTER sip:x SIP/2.0\r\nUser-Agent: warvox\r\n\r\n";
    let allowed = b"REGISTER sip:x SIP/2.0\r\nUser-Agent: MicroSIP/3.20\r\n\r\n";
    let first = d.step(CaptureEvent::Frame(frame(src, denied)), 10);
    assert!(matches!(first, StepOutcome::Blocked(_, Ok(()), true)));
    let second = d.step(CaptureEvent::Frame(frame(src, allowed)), 11);
    assert!(matches!(second, StepOutcome::Unblocked(_, Ok(()))));
    let third = d.step(CaptureEvent::Frame(frame(src, allowed)), 12);
    assert!(matches!(third, StepOutcome::AllowedNoAction(_)));
}

#[test]
fn non_sip_frames_are_not_applicable() {
    let mut d = dispatcher();
    let src = [198u8, 51, 100, 23];
    let out = d.step(CaptureEvent::Frame(frame(src, b"nothing here")), 10);
    assert!(matches!(out, StepOutcome::NotApplicable));
    let out = d.step(CaptureEvent::Frame(vec![0u8; 4]), 11);
    assert!(matches!(out, StepOutcome::NotApplicable));
}

#[test]
fn idle_and_fault_events_pass_through() {
    let mut d = dispatcher();
    assert!(matches!(d.step(CaptureEvent::Idle, 5), StepOutcome::IdleTick(false)));
    assert!(matches!(d.step(CaptureEvent::Fault, 6), StepOutcome::FaultPause));
}

#[test]
fn unmanaged_method_is_not_acted_on() {
    let mut d = dispatcher();
    let src = [198u8, 51, 100, 23];
    let payload = b"OPTIONS sip:x SIP/2.0\r\nUser-Agent: warvox\r\n\r\n";
    let out = d.step(CaptureEvent::Frame(frame(src, payload)), 10);
    assert!(matches!(out, StepOutcome::NotApplicable));
}

#[test]
fn stale_entries_leave_on_sweep_and_fresh_ones_survive() {
    let mut m = RecentMap::new();
    m.note(7, 100);
    m.note(8, 3000);
    assert_eq!(m.len(), 2);
    m.sweep(4000, 3600);
    assert_eq!(m.get(7), None);
    assert_eq!(m.get(8), Some(3000));
    assert_eq!(m.len(), 1);
}

#[test]
fn noting_a_key_again_updates_its_stamp() {
    let mut m = RecentMap::new();
    m.note(7, 100);
    m.note(7, 200);
    assert_eq!(m.len(), 1);
    assert_eq!(m.get(7), Some(200));
}
