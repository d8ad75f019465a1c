//! The dispatch core: one step of the monitoring loop, from a capture
//! event to the enforcement action taken. The surrounding process owns
//! the packet source and the clock and performs the waiting; every
//! decision — decode, recognize, match, block or unblock, bookkeeping,
//! periodic cleanup — stands here.

use vstd::prelude::*;
use crate::addr::Ipv4Address;
use crate::firewall::{blocked_in, line_matches_blocked, FirewallPort, IptablesManager};
use crate::frame::{decode_frame, decode_spec};
use crate::recent::{fresh_at, RecentMap};
use crate::sip::{extract_spec, SipMethod, SipParser, SipRequest};
use crate::whitelist::{allowed_spec, Whitelist};

verus! {

/// Entries older than this many seconds leave the bookkeeping record.
pub const RETENTION_SECS: u64 = 3600;

/// The bookkeeping record is swept every this many loop iterations.
pub const SWEEP_INTERVAL: u64 = 1000;

/// Idle waiting is reported once every this many timeouts.
pub const IDLE_REPORT_INTERVAL: u64 = 1000;

/// What the packet source produced for one iteration.
pub enum CaptureEvent {
    /// One raw captured frame.
    Frame(Vec<u8>),
    /// A poll timeout or an unusable packet: a normal non-event.
    Idle,
    /// A capture-layer error: the loop should pause briefly, then retry.
    Fault,
}

/// What one step did, for the surrounding process to log and act on.
pub enum StepOutcome {
    /// Nothing actionable: a non-SIP frame, a timeout already counted,
    /// or an unmanaged SIP method.
    NotApplicable,
    /// The request was allowed and its address is not blocked.
    AllowedNoAction(SipRequest),
    /// The request was allowed but its address showed as blocked: the
    /// unblock result is carried along.
    Unblocked(SipRequest, Result<(), String>),
    /// The request was denied but its address already showed as blocked.
    AlreadyBlocked(SipRequest),
    /// The request was denied and a block was attempted: the block
    /// result, and whether a follow-up check confirmed the rule.
    Blocked(SipRequest, Result<(), String>, bool),
    /// An idle tick; true once every `IDLE_REPORT_INTERVAL` timeouts.
    IdleTick(bool),
    /// A capture fault: pause before retrying.
    FaultPause,
}

/// The request a step acted on, if any.
pub open spec fn outcome_request(r: StepOutcome) -> Option<SipRequest> {
    match r {
        StepOutcome::AllowedNoAction(q) => Some(q),
        StepOutcome::Unblocked(q, _) => Some(q),
        StepOutcome::AlreadyBlocked(q) => Some(q),
        StepOutcome::Blocked(q, _, _) => Some(q),
        _ => None,
    }
}

/// What a raw frame carries once decoded and recognized: the
/// network-layer source address, the method, and the User-Agent.
pub open spec fn request_of(data: Seq<u8>) -> Option<(Ipv4Address, SipMethod, Seq<char>)> {
    match decode_spec(data) {
        None => None,
        Some((ip, payload)) => match extract_spec(payload) {
            None => None,
            Some((m, ua)) => Some((ip, m, ua)),
        },
    }
}

/// What enforcing one recognized request must look like: the outcome
/// carries the request; an allowed request leaves the chain alone or
/// removes one rule matching its address; a denied one leaves the chain
/// alone or appends one rule matching its address.
pub open spec fn enforcement_ok(
    pre_rules: Seq<Seq<char>>,
    scope: Option<u16>,
    patterns: Seq<Seq<char>>,
    post_rules: Seq<Seq<char>>,
    ip: Ipv4Address,
    m: SipMethod,
    ua: Seq<char>,
    r: StepOutcome,
) -> bool {
    let allowed = allowed_spec(patterns, ua);
    &&& outcome_request(r) is Some
    &&& outcome_request(r)->Some_0.source_ip == ip
    &&& outcome_request(r)->Some_0.method == m
    &&& outcome_request(r)->Some_0.user_agent@ == ua
    &&& (allowed ==> (r is AllowedNoAction || r is Unblocked))
    &&& (!allowed ==> (r is AlreadyBlocked || r is Blocked))
    &&& (allowed ==> (post_rules == pre_rules || (exists|i: int|
        0 <= i < pre_rules.len() && #[trigger] line_matches_blocked(pre_rules[i], ip, scope)
            && post_rules == pre_rules.remove(i))))
    &&& (!allowed ==> (post_rules == pre_rules || (exists|l: Seq<char>|
        #[trigger] line_matches_blocked(l, ip, scope) && post_rules == pre_rules.push(l))))
    &&& (r is AlreadyBlocked ==> blocked_in(pre_rules, ip, scope))
    &&& (r is Unblocked ==> blocked_in(pre_rules, ip, scope))
    &&& (r matches StepOutcome::Blocked(_, res, _) ==> (res is Ok ==> blocked_in(
        post_rules,
        ip,
        scope,
    )))
    &&& (r matches StepOutcome::Blocked(_, _, true) ==> blocked_in(post_rules, ip, scope))
}

/// The dispatch state: the reconciler, the allow-list, the parser, the
/// bookkeeping record and the two maintenance counters.
pub struct Dispatcher<P: FirewallPort> {
    manager: IptablesManager<P>,
    whitelist: Whitelist,
    parser: SipParser,
    recent: RecentMap,
    loop_count: u64,
    idle_count: u64,
}

impl<P: FirewallPort> Dispatcher<P> {
    pub closed spec fn wf(&self) -> bool {
        self.recent.wf() && self.loop_count < SWEEP_INTERVAL && self.idle_count
            < IDLE_REPORT_INTERVAL
    }

    /// The managed chain's listed rules.
    pub closed spec fn rules(&self) -> Seq<Seq<char>> {
        self.manager.rules()
    }

    /// The configured port scope.
    pub closed spec fn scope(&self) -> Option<u16> {
        self.manager.scope()
    }

    /// The configured allow-list patterns.
    pub closed spec fn patterns(&self) -> Seq<Seq<char>> {
        self.whitelist.patterns_spec()
    }

    /// The bookkeeping entries.
    pub closed spec fn recent_entries(&self) -> Seq<(u32, u64)> {
        self.recent.entries_spec()
    }

    /// The bookkeeping record holds `key` stamped `t`.
    pub closed spec fn recent_has(&self, key: u32, t: u64) -> bool {
        self.recent.has_entry(key, t)
    }

    pub fn new(manager: IptablesManager<P>, whitelist: Whitelist, parser: SipParser) -> (r: Self)
        ensures
            r.wf(),
            r.rules() == manager.rules(),
            r.scope() == manager.scope(),
            r.patterns() == whitelist.patterns_spec(),
            r.recent_entries() == Seq::<(u32, u64)>::empty(),
    {
        Dispatcher {
            manager,
            whitelist,
            parser,
            recent: RecentMap::new(),
            loop_count: 0,
            idle_count: 0,
        }
    }

    /// One iteration of the monitoring loop: classify the event, enforce
    /// the allow-list decision through the reconciler, record the
    /// address, and run the periodic cleanup. An allowed request never
    /// adds a rule; a denied one never removes one; frames that decode
    /// to nothing actionable leave the chain untouched.
    #[verifier::rlimit(60)]
    pub fn step(&mut self, event: CaptureEvent, now: u64) -> (r: StepOutcome)
        requires
            old(self).wf(),
        ensures
            final(self).wf(),
            final(self).scope() == old(self).scope(),
            final(self).patterns() == old(self).patterns(),
            match event {
                CaptureEvent::Idle => final(self).rules() == old(self).rules() && r is IdleTick,
                CaptureEvent::Fault => final(self).rules() == old(self).rules() && r is FaultPause,
                CaptureEvent::Frame(data) => match request_of(data@) {
                    None => final(self).rules() == old(self).rules() && r is NotApplicable,
                    Some((ip, m, ua)) => final(self).recent_has(ip.key_spec() as u32, now)
                        && enforcement_ok(
                        old(self).rules(),
                        old(self).scope(),
                        old(self).patterns(),
                        final(self).rules(),
                        ip,
                        m,
                        ua,
                        r,
                    ),
                },
            },
    {
        let ghost ev = event;
        let outcome = match event {
            CaptureEvent::Frame(data) => self.handle_frame(data, now),
            CaptureEvent::Idle => {
                self.idle_count = self.idle_count + 1;
                let report = self.idle_count == IDLE_REPORT_INTERVAL;
                if report {
                    self.idle_count = 0;
                }
                StepOutcome::IdleTick(report)
            },
            CaptureEvent::Fault => StepOutcome::FaultPause,
        };
        self.loop_count = self.loop_count + 1;
        if self.loop_count == SWEEP_INTERVAL {
            self.loop_count = 0;
            let ghost noted = self.recent;
            self.recent.sweep(now, RETENTION_SECS);
            proof {
                // an entry stamped just now is fresh, so the sweep keeps it
                if let CaptureEvent::Frame(data) = ev {
                    if let Some((ip, m, ua)) = request_of(data@) {
                        assert(fresh_at(now, now, RETENTION_SECS));
                        assert(noted.has_entry(ip.key_spec() as u32, now));
                        assert(self.recent.has_entry(ip.key_spec() as u32, now));
                    }
                }
            }
        }
        outcome
    }

    /// The frame half of one step: decode, recognize, decide, enforce,
    /// record.
    #[verifier::spinoff_prover]
    #[verifier::rlimit(60)]
    fn handle_frame(&mut self, data: Vec<u8>, now: u64) -> (r: StepOutcome)
        requires
            old(self).recent.wf(),
        ensures
            final(self).recent.wf(),
            final(self).loop_count == old(self).loop_count,
            final(self).idle_count == old(self).idle_count,
            final(self).scope() == old(self).scope(),
            final(self).patterns() == old(self).patterns(),
            match request_of(data@) {
                None => final(self).rules() == old(self).rules() && r is NotApplicable
                    && final(self).recent_entries() == old(self).recent_entries(),
                Some((ip, m, ua)) => final(self).recent_has(ip.key_spec() as u32, now)
                    && enforcement_ok(
                    old(self).rules(),
                    old(self).scope(),
                    old(self).patterns(),
                    final(self).rules(),
                    ip,
                    m,
                    ua,
                    r,
                ),
            },
    {
        match decode_frame(data.as_slice()) {
            None => StepOutcome::NotApplicable,
            Some((ip, payload)) => {
                match self.parser.parse_udp_packet(payload.as_slice(), ip) {
                    None => StepOutcome::NotApplicable,
                    Some(req) => self.enforce(req, now),
                }
            },
        }
    }

    /// Enforces the allow-list decision for one recognized request and
    /// records its address.
    fn enforce(&mut self, req: SipRequest, now: u64) -> (r: StepOutcome)
        requires
            old(self).recent.wf(),
        ensures
            final(self).recent.wf(),
            final(self).loop_count == old(self).loop_count,
            final(self).idle_count == old(self).idle_count,
            final(self).scope() == old(self).scope(),
            final(self).patterns() == old(self).patterns(),
            outcome_request(r) == Some(req),
            final(self).recent_has(req.source_ip.key_spec() as u32, now),
            enforcement_ok(
                old(self).rules(),
                old(self).scope(),
                old(self).patterns(),
                final(self).rules(),
                req.source_ip,
                req.method,
                req.user_agent@,
                r,
            ),
    {
        let key = req.source_ip.key();
        let allowed = self.whitelist.is_allowed(req.user_agent.as_str());
        let out = if allowed {
            if self.manager.is_blocked(&req.source_ip) {
                let source = req.source_ip;
                let res = self.manager.unblock_ip(&source);
                StepOutcome::Unblocked(req, res)
            } else {
                StepOutcome::AllowedNoAction(req)
            }
        } else {
            if !self.manager.is_blocked(&req.source_ip) {
                let source = req.source_ip;
                let res = self.manager.block_ip(&source);
                let confirmed = match &res {
                    Ok(_) => self.manager.is_blocked(&source),
                    Err(_) => false,
                };
                StepOutcome::Blocked(req, res, confirmed)
            } else {
                StepOutcome::AlreadyBlocked(req)
            }
        };
        self.recent.note(key, now);
        out
    }
}

} // verus!
