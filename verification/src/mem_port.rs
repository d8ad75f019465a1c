//! An in-memory rule table implementing the firewall control port: the
//! chain is a vector of listed rule lines shaped like the external
//! tool's output. It backs the reconciler in tests, where a real,
//! privileged firewall is unavailable.

use vstd::prelude::*;
use vstd::string::StringExecFns;
use crate::addr::Ipv4Address;
use crate::firewall::{
    blocked_in,
    dpt_tok,
    drop_tok,
    line_matches_blocked,
    matches_blocked_line,
    scan_blocked,
    FirewallPort,
};
use crate::text::{dec_str, lemma_substring_at};

verus! {

/// An in-memory firewall chain: the listed rule lines, in order.
pub struct MemoryFirewall {
    lines: Vec<String>,
}

impl MemoryFirewall {
    pub fn new() -> (r: Self)
        ensures
            r.rules() == Seq::<Seq<char>>::empty(),
    {
        let r = MemoryFirewall { lines: Vec::new() };
        proof {
            assert(r.lines.deep_view() =~= Seq::<Seq<char>>::empty());
        }
        r
    }

    /// How many rules the chain holds.
    pub fn rule_count(&self) -> (n: usize)
        ensures
            n == self.rules().len(),
    {
        self.lines.len()
    }
}

impl FirewallPort for MemoryFirewall {
    closed spec fn rules(&self) -> Seq<Seq<char>> {
        self.lines.deep_view()
    }

    open spec fn reliable(&self) -> bool {
        true
    }

    fn check_rule(&self, _chain: &str, ip: &Ipv4Address, port: Option<u16>) -> (r: bool)
        ensures
            r == blocked_in(self.rules(), *ip, port),
    {
        scan_blocked(&self.lines, ip, port)
    }

    fn append_rule(&mut self, _chain: &str, ip: &Ipv4Address, port: Option<u16>) -> (r: Result<
        (),
        String,
    >)
        ensures
            r is Ok,
    {
        let dotted = ip.dotted();
        let mut line = match port {
            None => String::from_str("DROP all -- "),
            Some(_) => String::from_str("DROP udp -- "),
        };
        line.append(dotted.as_str());
        proof {
            reveal_strlit("DROP all -- ");
            reveal_strlit("DROP udp -- ");
        }
        if let Some(p) = port {
            line.append(" udp dpt:");
            let digits = dec_str(p);
            line.append(digits.as_str());
            proof {
                reveal_strlit(" udp dpt:");
                let dlen = ip.dotted_spec().len() as int;
                assert(line@.subrange(0, 4) =~= drop_tok());
                lemma_substring_at(drop_tok(), line@, 0);
                assert(line@.subrange(12, 12 + dlen) =~= ip.dotted_spec());
                lemma_substring_at(ip.dotted_spec(), line@, 12);
                let dp = 12 + dlen + 5;
                assert(line@.subrange(dp, dp + dpt_tok(p).len() as int) =~= dpt_tok(p));
                lemma_substring_at(dpt_tok(p), line@, dp);
                assert(line_matches_blocked(line@, *ip, port));
            }
        } else {
            proof {
                let dlen = ip.dotted_spec().len() as int;
                assert(line@.subrange(0, 4) =~= drop_tok());
                lemma_substring_at(drop_tok(), line@, 0);
                assert(line@.subrange(12, 12 + dlen) =~= ip.dotted_spec());
                lemma_substring_at(ip.dotted_spec(), line@, 12);
                assert(line_matches_blocked(line@, *ip, port));
            }
        }
        let ghost l = line@;
        let ghost before = self.lines.deep_view();
        self.lines.push(line);
        proof {
            assert(self.lines.deep_view() =~= before.push(l));
        }
        Ok(())
    }

    fn list_rules(&self, _chain: &str) -> (r: Result<Vec<String>, String>)
        ensures
            r is Ok,
    {
        let mut out: Vec<String> = Vec::new();
        let mut i: usize = 0;
        while i < self.lines.len()
            invariant
                i <= self.lines@.len(),
                out@.len() == i,
                forall|k: int| 0 <= k < i ==> out.deep_view()[k] == self.lines.deep_view()[k],
            decreases self.lines@.len() - i,
        {
            let c = self.lines[i].clone();
            let ghost cv = c@;
            let ghost prev = out.deep_view();
            out.push(c);
            proof {
                assert(out.deep_view() =~= prev.push(cv));
            }
            i += 1;
        }
        proof {
            assert(out.deep_view() =~= self.lines.deep_view());
        }
        Ok(out)
    }

    fn delete_rule_number(&mut self, _chain: &str, n: usize) -> (r: Result<(), String>)
        ensures
            r is Ok <==> 1 <= n <= old(self).rules().len(),
    {
        if 1 <= n && n <= self.lines.len() {
            let ghost before = self.lines.deep_view();
            let _removed = self.lines.remove(n - 1);
            proof {
                assert(self.lines.deep_view() =~= before.remove(n - 1));
            }
            Ok(())
        } else {
            Err(String::from_str("no rule at that position"))
        }
    }

    fn delete_rule_spec(&mut self, _chain: &str, ip: &Ipv4Address, port: Option<u16>) -> (r: Result<
        (),
        String,
    >)
        ensures
            r is Ok <==> blocked_in(old(self).rules(), *ip, port),
    {
        let mut i: usize = 0;
        while i < self.lines.len()
            invariant
                i <= self.lines@.len(),
                self.lines == old(self).lines,
                forall|k: int|
                    0 <= k < i ==> !#[trigger] line_matches_blocked(
                        self.lines.deep_view()[k],
                        *ip,
                        port,
                    ),
            decreases self.lines@.len() - i,
        {
            if matches_blocked_line(self.lines[i].as_str(), ip, port) {
                let ghost before = self.lines.deep_view();
                let _removed = self.lines.remove(i);
                proof {
                    assert(before == old(self).rules());
                    assert(self.lines.deep_view() =~= before.remove(i as int));
                    assert(line_matches_blocked(old(self).rules()[i as int], *ip, port));
                    assert(self.rules() == old(self).rules().remove(i as int));
                }
                return Ok(());
            }
            i += 1;
        }
        Err(String::from_str("no matching rule"))
    }
}

} // verus!
