//! Firewall rule reconciliation. The chain of DROP rules is external,
//! eventually-consistent state reached through a small control port
//! (`FirewallPort`): check one rule, append one rule, list the chain,
//! delete by position, delete by specification. The reconciler keeps the
//! desired policy — blocked or not blocked — idempotently: every
//! mutation re-verifies against a fresh query instead of trusting prior
//! state, and a tolerant textual scan of the listed rules backs up the
//! exact check.

use vstd::prelude::*;
use vstd::string::StringExecFns;
use crate::addr::Ipv4Address;
use crate::text::{contains_sub, dec_chars, dec_str, is_substring, lemma_substring_at};

verus! {

pub open spec fn drop_tok() -> Seq<char> {
    seq!['D', 'R', 'O', 'P']
}

/// The destination-port token of a listed rule, digits included.
pub open spec fn dpt_tok(port: u16) -> Seq<char> {
    seq!['d', 'p', 't', ':'] + dec_chars(port as int)
}

pub open spec fn sip_alias_tok() -> Seq<char> {
    seq!['s', 'i', 'p']
}

pub open spec fn dpt_sip_tok() -> Seq<char> {
    seq!['d', 'p', 't', ':', 's', 'i', 'p']
}

pub open spec fn default_chain() -> Seq<char> {
    seq!['I', 'N', 'P', 'U', 'T']
}

/// The tolerant check: a listed rule line counts as blocking `ip` when
/// it shows the dotted address and the DROP action, and — under a port
/// scope — references the port by `dpt:` token, by bare number, or by
/// the well-known service alias when the scope is the SIP default.
pub open spec fn line_matches_blocked(l: Seq<char>, ip: Ipv4Address, port: Option<u16>) -> bool {
    is_substring(ip.dotted_spec(), l) && is_substring(drop_tok(), l) && match port {
        None => true,
        Some(p) => is_substring(dpt_tok(p), l) || is_substring(dec_chars(p as int), l) || (p
            == 5060 && (is_substring(dpt_sip_tok(), l) || is_substring(sip_alias_tok(), l))),
    }
}

/// The stricter scan used when hunting a rule to delete by position:
/// the port must appear by its bare decimal digits.
pub open spec fn line_matches_numeric(l: Seq<char>, ip: Ipv4Address, port: Option<u16>) -> bool {
    is_substring(ip.dotted_spec(), l) && is_substring(drop_tok(), l) && match port {
        None => true,
        Some(p) => is_substring(dec_chars(p as int), l),
    }
}

/// Some listed rule blocks `ip` under the tolerant check.
pub open spec fn blocked_in(rules: Seq<Seq<char>>, ip: Ipv4Address, port: Option<u16>) -> bool {
    exists|i: int| 0 <= i < rules.len() && #[trigger] line_matches_blocked(rules[i], ip, port)
}

proof fn lemma_numeric_implies_blocked(l: Seq<char>, ip: Ipv4Address, port: Option<u16>)
    requires
        line_matches_numeric(l, ip, port),
    ensures
        line_matches_blocked(l, ip, port),
{
}

/// The firewall control surface: one instance manages one chain of
/// rules, named on each call. Its view `rules()` is the chain's listed
/// rule lines, in order, without the position column. An implementation
/// stands between the reconciler and the external firewall tool; the
/// in-memory table `MemoryFirewall` implements it inside the library.
pub trait FirewallPort: Sized {
    /// The listed text of each rule in the chain, in order. An
    /// implementation outside the library, which Verus never reads,
    /// leaves this view at its default.
    open spec fn rules(&self) -> Seq<Seq<char>> {
        Seq::empty()
    }

    /// Whether the port's answers are exact: the check reports
    /// precisely the scanned state, appending and listing always
    /// succeed, and deletions succeed exactly on valid targets. The
    /// in-memory table is reliable; an implementation outside the
    /// library leaves this false, so nothing is promised of the real
    /// tool beyond the unconditional clauses.
    open spec fn reliable(&self) -> bool {
        false
    }

    /// Exact existence check for the rule (source `ip`, optional UDP
    /// destination port, DROP). A positive answer is truthful; a
    /// negative one may be inconclusive.
    fn check_rule(&self, chain: &str, ip: &Ipv4Address, port: Option<u16>) -> (r: bool)
        ensures
            r ==> blocked_in(self.rules(), *ip, port),
            self.reliable() ==> r == blocked_in(self.rules(), *ip, port),
    ;

    /// Appends the rule (source `ip`, optional UDP destination port,
    /// DROP) at the end of the chain. On success the chain gains one
    /// line showing that address, action and port scope.
    fn append_rule(&mut self, chain: &str, ip: &Ipv4Address, port: Option<u16>) -> (r: Result<
        (),
        String,
    >)
        ensures
            r is Ok ==> exists|l: Seq<char>|
                #[trigger] line_matches_blocked(l, *ip, port)
                    && final(self).rules() == old(self).rules().push(l),
            r is Err ==> final(self).rules() == old(self).rules(),
            final(self).reliable() == old(self).reliable(),
            old(self).reliable() ==> r is Ok,
    ;

    /// Lists the chain's rules, one line per rule, in chain order,
    /// without the position column.
    fn list_rules(&self, chain: &str) -> (r: Result<Vec<String>, String>)
        ensures
            r is Ok ==> r->Ok_0.deep_view() == self.rules(),
            self.reliable() ==> r is Ok,
    ;

    /// Deletes the rule at 1-based position `n`. Success implies the
    /// position was valid and exactly that rule left the chain.
    fn delete_rule_number(&mut self, chain: &str, n: usize) -> (r: Result<(), String>)
        ensures
            r is Ok ==> 1 <= n <= old(self).rules().len()
                && final(self).rules() == old(self).rules().remove(n - 1),
            r is Err ==> final(self).rules() == old(self).rules(),
            final(self).reliable() == old(self).reliable(),
            old(self).reliable() ==> (r is Ok <==> 1 <= n <= old(self).rules().len()),
    ;

    /// Deletes one rule matching the specification (source `ip`,
    /// optional UDP destination port, DROP). Success implies one such
    /// rule left the chain.
    fn delete_rule_spec(&mut self, chain: &str, ip: &Ipv4Address, port: Option<u16>) -> (r: Result<
        (),
        String,
    >)
        ensures
            r is Ok ==> exists|i: int|
                0 <= i < old(self).rules().len() && #[trigger] line_matches_blocked(
                    old(self).rules()[i],
                    *ip,
                    port,
                ) && final(self).rules() == old(self).rules().remove(i),
            r is Err ==> final(self).rules() == old(self).rules(),
            final(self).reliable() == old(self).reliable(),
            old(self).reliable() ==> (r is Ok <==> blocked_in(old(self).rules(), *ip, port)),
    ;
}

/// At most one listed line blocks the address: the data-model
/// invariant the reconciler maintains for each (address, port scope).
pub open spec fn at_most_one_match(rules: Seq<Seq<char>>, ip: Ipv4Address, port: Option<u16>) -> bool {
    forall|i: int, j: int|
        0 <= i < j < rules.len() ==> !(#[trigger] line_matches_blocked(rules[i], ip, port)
            && #[trigger] line_matches_blocked(rules[j], ip, port))
}

/// Removing a rule keeps the at-most-one invariant.
proof fn lemma_remove_keeps_sole(rules: Seq<Seq<char>>, i: int, ip: Ipv4Address, port: Option<u16>)
    requires
        at_most_one_match(rules, ip, port),
        0 <= i < rules.len(),
    ensures
        at_most_one_match(rules.remove(i), ip, port),
{
    let r = rules.remove(i);
    assert forall|a: int, b: int| 0 <= a < b < r.len() implies !(#[trigger] line_matches_blocked(
        r[a],
        ip,
        port,
    ) && #[trigger] line_matches_blocked(r[b], ip, port)) by {
        if b < i {
            assert(r[a] == rules[a] && r[b] == rules[b]);
        } else if a < i {
            assert(r[a] == rules[a] && r[b] == rules[b + 1]);
        } else {
            assert(r[a] == rules[a + 1] && r[b] == rules[b + 1]);
        }
    }
}

/// Appending a rule to a chain where the address is not yet blocked
/// keeps the at-most-one invariant.
proof fn lemma_push_keeps_sole(rules: Seq<Seq<char>>, l: Seq<char>, ip: Ipv4Address, port: Option<
    u16,
>)
    requires
        at_most_one_match(rules, ip, port),
        !blocked_in(rules, ip, port),
    ensures
        at_most_one_match(rules.push(l), ip, port),
{
    let r = rules.push(l);
    assert forall|a: int, b: int| 0 <= a < b < r.len() implies !(#[trigger] line_matches_blocked(
        r[a],
        ip,
        port,
    ) && #[trigger] line_matches_blocked(r[b], ip, port)) by {
        if b < rules.len() {
            assert(r[a] == rules[a] && r[b] == rules[b]);
        } else {
            assert(r[a] == rules[a]);
            assert(!line_matches_blocked(rules[a], ip, port));
        }
    }
}

/// Under the at-most-one invariant, a matching line is the only one.
proof fn lemma_sole_match(rules: Seq<Seq<char>>, i: int, ip: Ipv4Address, port: Option<u16>)
    requires
        at_most_one_match(rules, ip, port),
        0 <= i < rules.len(),
        line_matches_blocked(rules[i], ip, port),
    ensures
        forall|j: int|
            0 <= j < rules.len() && j != i ==> !#[trigger] line_matches_blocked(rules[j], ip, port),
{
    assert forall|j: int| 0 <= j < rules.len() && j != i implies !line_matches_blocked(
        rules[j],
        ip,
        port,
    ) by {
        if j < i {
            assert(!(line_matches_blocked(rules[j], ip, port) && line_matches_blocked(
                rules[i],
                ip,
                port,
            )));
        } else {
            assert(!(line_matches_blocked(rules[i], ip, port) && line_matches_blocked(
                rules[j],
                ip,
                port,
            )));
        }
    }
}

/// Whether one listed rule line blocks `ip` under the tolerant check.
pub fn matches_blocked_line(line: &str, ip: &Ipv4Address, port: Option<u16>) -> (r: bool)
    ensures
        r == line_matches_blocked(line@, *ip, port),
{
    let dotted = ip.dotted();
    if !contains_sub(line, dotted.as_str()) {
        return false;
    }
    proof {
        reveal_strlit("DROP");
        assert("DROP"@ =~= drop_tok());
    }
    if !contains_sub(line, "DROP") {
        return false;
    }
    match port {
        None => true,
        Some(p) => {
            let digits = dec_str(p);
            let mut dpt = String::from_str("dpt:");
            dpt.append(digits.as_str());
            proof {
                reveal_strlit("dpt:");
                assert(dpt@ =~= dpt_tok(p));
            }
            if contains_sub(line, dpt.as_str()) {
                return true;
            }
            if contains_sub(line, digits.as_str()) {
                return true;
            }
            if p == 5060 {
                proof {
                    reveal_strlit("dpt:sip");
                    assert("dpt:sip"@ =~= dpt_sip_tok());
                    reveal_strlit("sip");
                    assert("sip"@ =~= sip_alias_tok());
                }
                contains_sub(line, "dpt:sip") || contains_sub(line, "sip")
            } else {
                false
            }
        },
    }
}

/// Whether one listed rule line matches `ip` under the stricter scan.
pub fn matches_numeric_line(line: &str, ip: &Ipv4Address, port: Option<u16>) -> (r: bool)
    ensures
        r == line_matches_numeric(line@, *ip, port),
{
    let dotted = ip.dotted();
    if !contains_sub(line, dotted.as_str()) {
        return false;
    }
    proof {
        reveal_strlit("DROP");
        assert("DROP"@ =~= drop_tok());
    }
    if !contains_sub(line, "DROP") {
        return false;
    }
    match port {
        None => true,
        Some(p) => {
            let digits = dec_str(p);
            contains_sub(line, digits.as_str())
        },
    }
}

/// Scans listed rule lines for one blocking `ip`: exact over the
/// listing handed in, whatever the listing query returned.
pub fn scan_blocked(lines: &Vec<String>, ip: &Ipv4Address, port: Option<u16>) -> (r: bool)
    ensures
        r == blocked_in(lines.deep_view(), *ip, port),
{
    let mut i: usize = 0;
    while i < lines.len()
        invariant
            i <= lines@.len(),
            forall|k: int|
                0 <= k < i ==> !#[trigger] line_matches_blocked(lines.deep_view()[k], *ip, port),
        decreases lines@.len() - i,
    {
        if matches_blocked_line(lines[i].as_str(), ip, port) {
            proof {
                assert(line_matches_blocked(lines.deep_view()[i as int], *ip, port));
            }
            return true;
        }
        i += 1;
    }
    false
}

/// The reconciler: enforces block/unblock decisions on one chain
/// through a firewall control port, idempotently.
pub struct IptablesManager<P: FirewallPort> {
    port: P,
    chain_name: String,
    block_port: Option<u16>,
}

impl<P: FirewallPort> IptablesManager<P> {
    /// The managed chain's listed rules.
    pub closed spec fn rules(&self) -> Seq<Seq<char>> {
        self.port.rules()
    }

    /// The configured port scope of every rule this manager writes.
    pub closed spec fn scope(&self) -> Option<u16> {
        self.block_port
    }

    /// The managed chain's name.
    pub closed spec fn chain_spec(&self) -> Seq<char> {
        self.chain_name@
    }

    /// Whether the underlying port answers exactly.
    pub closed spec fn reliable(&self) -> bool {
        self.port.reliable()
    }

    pub fn new(port: P, chain_name: Option<String>) -> (r: Self)
        ensures
            r.rules() == port.rules(),
            r.scope() is None,
            match chain_name {
                Some(c) => r.chain_spec() == c@,
                None => r.chain_spec() == default_chain(),
            },
    {
        Self::new_with_port(port, chain_name, None)
    }

    pub fn new_with_port(port: P, chain_name: Option<String>, block_port: Option<u16>) -> (r: Self)
        ensures
            r.rules() == port.rules(),
            r.scope() == block_port,
            match chain_name {
                Some(c) => r.chain_spec() == c@,
                None => r.chain_spec() == default_chain(),
            },
    {
        let chain = match chain_name {
            Some(c) => c,
            None => {
                let c = String::from_str("INPUT");
                proof {
                    reveal_strlit("INPUT");
                    assert(c@ =~= default_chain());
                }
                c
            },
        };
        IptablesManager { port, chain_name: chain, block_port }
    }

    /// Two-tier blocked check: the exact rule query first; if that is
    /// negative or inconclusive, the tolerant scan over the listed
    /// rules. A positive answer always reflects a listed rule; a
    /// negative one may also mean the listing could not be read.
    pub fn is_blocked(&self, ip: &Ipv4Address) -> (r: bool)
        ensures
            r ==> blocked_in(self.rules(), *ip, self.scope()),
            self.reliable() ==> r == blocked_in(self.rules(), *ip, self.scope()),
    {
        if self.port.check_rule(self.chain_name.as_str(), ip, self.block_port) {
            return true;
        }
        match self.port.list_rules(self.chain_name.as_str()) {
            Ok(lines) => scan_blocked(&lines, ip, self.block_port),
            Err(_) => false,
        }
    }

    /// Idempotent block: a no-op when the address already shows as
    /// blocked, otherwise one appended DROP rule. On success the chain
    /// holds a rule blocking the address; on failure it is unchanged.
    /// Over a reliable port the call succeeds, and an already blocked
    /// address makes it a strict no-op.
    pub fn block_ip(&mut self, ip: &Ipv4Address) -> (r: Result<(), String>)
        ensures
            final(self).scope() == old(self).scope(),
            final(self).chain_spec() == old(self).chain_spec(),
            final(self).reliable() == old(self).reliable(),
            r is Ok ==> blocked_in(final(self).rules(), *ip, old(self).scope()),
            r is Err ==> final(self).rules() == old(self).rules(),
            final(self).rules() == old(self).rules() || (exists|l: Seq<char>|
                #[trigger] line_matches_blocked(l, *ip, old(self).scope()) && final(self).rules()
                    == old(self).rules().push(l)),
            old(self).reliable() ==> r is Ok,
            old(self).reliable() && blocked_in(old(self).rules(), *ip, old(self).scope())
                ==> final(self).rules() == old(self).rules(),
            old(self).reliable() && at_most_one_match(old(self).rules(), *ip, old(self).scope())
                ==> at_most_one_match(final(self).rules(), *ip, old(self).scope()),
    {
        let was_blocked = self.is_blocked(ip);
        if was_blocked {
            return Ok(());
        }
        match self.port.append_rule(self.chain_name.as_str(), ip, self.block_port) {
            Ok(()) => {
                proof {
                    let l = choose|l: Seq<char>|
                        #[trigger] line_matches_blocked(l, *ip, old(self).scope()) && self.rules()
                            == old(self).rules().push(l);
                    assert(self.rules()[old(self).rules().len() as int] == l);
                    if old(self).reliable() && at_most_one_match(
                        old(self).rules(),
                        *ip,
                        old(self).scope(),
                    ) {
                        lemma_push_keeps_sole(old(self).rules(), l, *ip, old(self).scope());
                    }
                }
                Ok(())
            },
            Err(e) => Err(e),
        }
    }

    /// Idempotent unblock: a no-op success when the address does not
    /// show as blocked. Otherwise the listed rules are scanned and the
    /// first line matching address, action and port scope is deleted by
    /// its position; if the listing cannot be read, no listed line
    /// matches, or every positional deletion fails, one deletion by
    /// rule specification is tried, so an error means both paths
    /// failed. On success at most one matching rule left the chain; on
    /// failure the chain is unchanged.
    /// Over a reliable port whose chain holds at most one matching
    /// rule, the call succeeds and the address no longer shows as
    /// blocked afterwards: the unblocking half of the round trip.
    pub fn unblock_ip(&mut self, ip: &Ipv4Address) -> (r: Result<(), String>)
        ensures
            final(self).scope() == old(self).scope(),
            final(self).chain_spec() == old(self).chain_spec(),
            final(self).reliable() == old(self).reliable(),
            !blocked_in(old(self).rules(), *ip, old(self).scope()) ==> r is Ok
                && final(self).rules() == old(self).rules(),
            r is Err ==> final(self).rules() == old(self).rules(),
            r is Ok ==> final(self).rules() == old(self).rules() || (exists|i: int|
                0 <= i < old(self).rules().len() && #[trigger] line_matches_blocked(
                    old(self).rules()[i],
                    *ip,
                    old(self).scope(),
                ) && final(self).rules() == old(self).rules().remove(i)),
            old(self).reliable() && at_most_one_match(old(self).rules(), *ip, old(self).scope())
                ==> r is Ok && !blocked_in(final(self).rules(), *ip, old(self).scope()),
            at_most_one_match(old(self).rules(), *ip, old(self).scope()) ==> at_most_one_match(
                final(self).rules(),
                *ip,
                old(self).scope(),
            ),
    {
        if !self.is_blocked(ip) {
            return Ok(());
        }
        match self.port.list_rules(self.chain_name.as_str()) {
            Ok(lines) => {
                let mut i: usize = 0;
                while i < lines.len()
                    invariant
                        i <= lines@.len(),
                        lines.deep_view() == old(self).rules(),
                        self.rules() == old(self).rules(),
                        self.scope() == old(self).scope(),
                        self.chain_spec() == old(self).chain_spec(),
                        self.reliable() == old(self).reliable(),
                    decreases lines@.len() - i,
                {
                    if matches_numeric_line(lines[i].as_str(), ip, self.block_port) {
                        match self.port.delete_rule_number(self.chain_name.as_str(), i + 1) {
                            Ok(()) => {
                                proof {
                                    lemma_numeric_implies_blocked(
                                        old(self).rules()[i as int],
                                        *ip,
                                        old(self).scope(),
                                    );
                                    if at_most_one_match(
                                        old(self).rules(),
                                        *ip,
                                        old(self).scope(),
                                    ) {
                                        lemma_sole_match(old(self).rules(), i as int, *ip, old(self).scope());
                                        lemma_unblock_round_trip(
                                            old(self).rules(),
                                            i as int,
                                            *ip,
                                            old(self).scope(),
                                        );
                                        lemma_remove_keeps_sole(
                                            old(self).rules(),
                                            i as int,
                                            *ip,
                                            old(self).scope(),
                                        );
                                    }
                                }
                                return Ok(());
                            },
                            Err(_) => {
                                // the position was listed but could not
                                // be deleted; keep scanning, then fall
                                // back to deletion by specification
                            },
                        }
                    }
                    i += 1;
                }
            },
            Err(_) => {
                // the listing could not be read; the deletion by
                // specification below is still attempted
            },
        }
        match self.port.delete_rule_spec(self.chain_name.as_str(), ip, self.block_port) {
            Ok(()) => {
                proof {
                    if at_most_one_match(old(self).rules(), *ip, old(self).scope()) {
                        let k = choose|k: int|
                            0 <= k < old(self).rules().len() && #[trigger] line_matches_blocked(
                                old(self).rules()[k],
                                *ip,
                                old(self).scope(),
                            ) && self.rules() == old(self).rules().remove(k);
                        lemma_sole_match(old(self).rules(), k, *ip, old(self).scope());
                        lemma_unblock_round_trip(old(self).rules(), k, *ip, old(self).scope());
                        lemma_remove_keeps_sole(old(self).rules(), k, *ip, old(self).scope());
                    }
                }
                Ok(())
            },
            Err(e) => Err(e),
        }
    }
}

/// Once a rule blocking the address stands in the chain, a block
/// transition — leaving the chain alone or appending another matching
/// line — keeps the address blocked: repeated block calls converge and
/// have at most one effect.
pub proof fn lemma_block_converges(
    pre: Seq<Seq<char>>,
    post: Seq<Seq<char>>,
    l: Seq<char>,
    ip: Ipv4Address,
    port: Option<u16>,
)
    requires
        blocked_in(pre, ip, port),
        post == pre || (line_matches_blocked(l, ip, port) && post == pre.push(l)),
    ensures
        blocked_in(post, ip, port),
{
    let i = choose|i: int| 0 <= i < pre.len() && #[trigger] line_matches_blocked(pre[i], ip, port);
    if post != pre {
        assert(post[i] == pre[i]);
        assert(line_matches_blocked(post[i], ip, port));
    }
}

/// Round trip, blocking half: after a rule blocking the address is
/// appended, the chain scans as blocked.
pub proof fn lemma_block_round_trip(
    pre: Seq<Seq<char>>,
    l: Seq<char>,
    ip: Ipv4Address,
    port: Option<u16>,
)
    requires
        line_matches_blocked(l, ip, port),
    ensures
        blocked_in(pre.push(l), ip, port),
{
    assert(pre.push(l)[pre.len() as int] == l);
    assert(line_matches_blocked(pre.push(l)[pre.len() as int], ip, port));
}

/// Round trip, unblocking half: removing the only line that blocks the
/// address leaves a chain in which it no longer scans as blocked. (A
/// chain holding two equivalent DROP rules for one address does not
/// satisfy this; the reconciler's data model keeps at most one.)
pub proof fn lemma_unblock_round_trip(
    pre: Seq<Seq<char>>,
    i: int,
    ip: Ipv4Address,
    port: Option<u16>,
)
    requires
        0 <= i < pre.len(),
        forall|j: int|
            0 <= j < pre.len() && j != i ==> !#[trigger] line_matches_blocked(pre[j], ip, port),
    ensures
        !blocked_in(pre.remove(i), ip, port),
{
    let post = pre.remove(i);
    assert forall|k: int| 0 <= k < post.len() implies !line_matches_blocked(
        post[k],
        ip,
        port,
    ) by {
        if k < i {
            assert(post[k] == pre[k]);
        } else {
            assert(post[k] == pre[k + 1]);
        }
    }
}

} // verus!
