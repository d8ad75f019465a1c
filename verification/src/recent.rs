//! Bookkeeping of recently processed source addresses: address key to
//! the timestamp (in seconds) it was last seen, with unique keys and a
//! periodic retention sweep. The record is telemetry only: block and
//! unblock decisions are re-derived from firewall state each time.

use vstd::prelude::*;

verus! {

/// The pair `(key, t)` stands somewhere in `s`.
pub open spec fn seq_has(s: Seq<(u32, u64)>, key: u32, t: u64) -> bool {
    exists|i: int| 0 <= i < s.len() && #[trigger] s[i] == (key, t)
}

/// Some entry of `s` carries `key`.
pub open spec fn seq_has_key(s: Seq<(u32, u64)>, key: u32) -> bool {
    exists|i: int| 0 <= i < s.len() && (#[trigger] s[i]).0 == key
}

/// No two entries of `s` share a key.
pub open spec fn keys_unique(s: Seq<(u32, u64)>) -> bool {
    forall|i: int, j: int|
        0 <= i < j < s.len() ==> (#[trigger] s[i]).0 != (#[trigger] s[j]).0
}

/// Whether an entry stamped `t` is still fresh at `now` under the
/// retention window: a stamp in the future counts as fresh.
pub open spec fn fresh_at(t: u64, now: u64, retention: u64) -> bool {
    t > now || now - t < retention
}

proof fn lemma_remove_has(s: Seq<(u32, u64)>, idx: int, key: u32, t: u64)
    requires
        0 <= idx < s.len(),
    ensures
        seq_has(s.remove(idx), key, t) <==> exists|j: int|
            0 <= j < s.len() && j != idx && #[trigger] s[j] == (key, t),
{
    let r = s.remove(idx);
    if seq_has(r, key, t) {
        let j = choose|j: int| 0 <= j < r.len() && #[trigger] r[j] == (key, t);
        if j < idx {
            assert(s[j] == (key, t));
        } else {
            assert(s[j + 1] == (key, t));
        }
    }
    if exists|j: int| 0 <= j < s.len() && j != idx && #[trigger] s[j] == (key, t) {
        let j = choose|j: int| 0 <= j < s.len() && j != idx && #[trigger] s[j] == (key, t);
        if j < idx {
            assert(r[j] == (key, t));
        } else {
            assert(r[j - 1] == (key, t));
        }
    }
}

proof fn lemma_remove_unique(s: Seq<(u32, u64)>, idx: int)
    requires
        0 <= idx < s.len(),
        keys_unique(s),
    ensures
        keys_unique(s.remove(idx)),
{
    let r = s.remove(idx);
    assert forall|i: int, j: int| 0 <= i < j < r.len() implies (#[trigger] r[i]).0 != (
    #[trigger] r[j]).0 by {
        if j < idx {
            assert(r[i] == s[i] && r[j] == s[j]);
        } else if i < idx {
            assert(r[i] == s[i] && r[j] == s[j + 1]);
        } else {
            assert(r[i] == s[i + 1] && r[j] == s[j + 1]);
        }
    }
}

/// The record of recently processed addresses.
pub struct RecentMap {
    entries: Vec<(u32, u64)>,
}

impl RecentMap {
    /// The entries, in insertion order.
    pub closed spec fn entries_spec(&self) -> Seq<(u32, u64)> {
        self.entries@
    }

    /// Keys are unique.
    pub open spec fn wf(&self) -> bool {
        keys_unique(self.entries_spec())
    }

    /// The record holds `key` stamped `t`.
    pub open spec fn has_entry(&self, key: u32, t: u64) -> bool {
        seq_has(self.entries_spec(), key, t)
    }

    /// The record holds `key` under some stamp.
    pub open spec fn has_key(&self, key: u32) -> bool {
        seq_has_key(self.entries_spec(), key)
    }

    /// The stamp recorded for `key`, if any.
    pub fn get(&self, key: u32) -> (r: Option<u64>)
        ensures
            match r {
                Some(t) => self.has_entry(key, t),
                None => !self.has_key(key),
            },
    {
        let n = self.entries.len();
        let mut i: usize = 0;
        while i < n
            invariant
                i <= n,
                n == self.entries@.len(),
                forall|k: int| 0 <= k < i ==> (#[trigger] self.entries@[k]).0 != key,
            decreases n - i,
        {
            let e = self.entries[i];
            if e.0 == key {
                return Some(e.1);
            }
            i += 1;
        }
        None
    }

    pub fn new() -> (r: Self)
        ensures
            r.wf(),
            r.entries_spec() == Seq::<(u32, u64)>::empty(),
    {
        let r = RecentMap { entries: Vec::new() };
        proof {
            assert(r.entries@ =~= Seq::<(u32, u64)>::empty());
        }
        r
    }

    /// How many addresses the record holds.
    pub fn len(&self) -> (n: usize)
        ensures
            n == self.entries_spec().len(),
    {
        self.entries.len()
    }

    /// Records that `key` was processed at `t`, replacing any earlier
    /// stamp of the same key and touching no other entry.
    pub fn note(&mut self, key: u32, t: u64)
        requires
            old(self).wf(),
        ensures
            final(self).wf(),
            final(self).has_entry(key, t),
            forall|k2: u32, t2: u64|
                k2 != key ==> (final(self).has_entry(k2, t2) <==> old(self).has_entry(k2, t2)),
            forall|t2: u64| #[trigger] final(self).has_entry(key, t2) ==> t2 == t,
    {
        let ghost before = self.entries@;
        let n = self.entries.len();
        let mut idx: usize = n;
        let mut i: usize = 0;
        while i < n
            invariant
                i <= n,
                n == self.entries@.len(),
                self.entries@ == before,
                idx == n || (idx < i && before[idx as int].0 == key),
                idx == n ==> forall|k: int| 0 <= k < i ==> (#[trigger] before[k]).0 != key,
            decreases n - i,
        {
            if idx == n && self.entries[i].0 == key {
                idx = i;
            }
            i += 1;
        }
        let ghost mid: Seq<(u32, u64)>;
        if idx < n {
            let _removed = self.entries.remove(idx);
            proof {
                mid = before.remove(idx as int);
                lemma_remove_unique(before, idx as int);
            }
        } else {
            proof {
                mid = before;
            }
        }
        self.entries.push((key, t));
        proof {
            let fin = self.entries@;
            assert(fin == mid.push((key, t)));
            // no entry of `mid` carries `key`
            assert forall|k: int| 0 <= k < mid.len() implies (#[trigger] mid[k]).0 != key by {
                if idx < n {
                    if k < idx {
                        assert(mid[k] == before[k]);
                        assert(before[k].0 != before[idx as int].0);
                    } else {
                        assert(mid[k] == before[k + 1]);
                        assert(before[idx as int].0 != before[k + 1].0);
                    }
                }
            }
            // uniqueness of the result
            assert forall|a: int, b: int| 0 <= a < b < fin.len() implies (#[trigger] fin[a]).0 != (
            #[trigger] fin[b]).0 by {
                if b < mid.len() {
                    assert(fin[a] == mid[a] && fin[b] == mid[b]);
                } else {
                    assert(fin[a] == mid[a] && fin[b] == (key, t));
                }
            }
            // the new entry stands at the end
            assert(fin[mid.len() as int] == (key, t));
            // other keys are untouched
            assert forall|k2: u32, t2: u64| k2 != key implies (seq_has(fin, k2, t2) <==> seq_has(
                before,
                k2,
                t2,
            )) by {
                if seq_has(fin, k2, t2) {
                    let j = choose|j: int| 0 <= j < fin.len() && #[trigger] fin[j] == (k2, t2);
                    assert(j < mid.len());
                    assert(mid[j] == (k2, t2));
                    if idx < n {
                        lemma_remove_has(before, idx as int, k2, t2);
                    }
                }
                if seq_has(before, k2, t2) {
                    let j = choose|j: int|
                        0 <= j < before.len() && #[trigger] before[j] == (k2, t2);
                    if idx < n {
                        lemma_remove_has(before, idx as int, k2, t2);
                        let m = choose|m: int|
                            0 <= m < before.len() && m != idx && #[trigger] before[m] == (k2, t2);
                        if m < idx {
                            assert(mid[m] == (k2, t2));
                            assert(fin[m] == (k2, t2));
                        } else {
                            assert(mid[m - 1] == (k2, t2));
                            assert(fin[m - 1] == (k2, t2));
                        }
                    } else {
                        assert(fin[j] == (k2, t2));
                    }
                }
            }
            // only the fresh stamp is recorded for `key`
            assert forall|t2: u64| #[trigger] seq_has(fin, key, t2) implies t2 == t by {
                let j = choose|j: int| 0 <= j < fin.len() && #[trigger] fin[j] == (key, t2);
                if j < mid.len() {
                    assert(mid[j].0 != key);
                    assert(false);
                }
            }
        }
    }

    /// Drops every entry whose stamp is stale at `now` under
    /// `retention`; fresh entries survive with their stamps.
    pub fn sweep(&mut self, now: u64, retention: u64)
        requires
            old(self).wf(),
        ensures
            final(self).wf(),
            forall|k: u32, t: u64|
                #![trigger final(self).has_entry(k, t)]
                #![trigger old(self).has_entry(k, t)]
                final(self).has_entry(k, t) <==> (old(self).has_entry(k, t) && fresh_at(
                    t,
                    now,
                    retention,
                )),
    {
        let ghost before = self.entries@;
        let n = self.entries.len();
        let mut kept: Vec<(u32, u64)> = Vec::new();
        let mut i: usize = 0;
        while i < n
            invariant
                i <= n,
                n == self.entries@.len(),
                self.entries@ == before,
                forall|a: int|
                    0 <= a < kept@.len() ==> exists|j: int|
                        0 <= j < i && #[trigger] kept@[a] == before[j],
                keys_unique(before) ==> keys_unique(kept@),
                forall|k: u32, t: u64|
                    #![trigger seq_has(kept@, k, t)]
                    #![trigger seq_has(before.take(i as int), k, t)]
                    seq_has(kept@, k, t) <==> (seq_has(before.take(i as int), k, t)
                        && fresh_at(t, now, retention)),
            decreases n - i,
        {
            let e = self.entries[i];
            let keep = e.1 > now || now - e.1 < retention;
            let ghost prev = kept@;
            if keep {
                kept.push(e);
            }
            proof {
                let tk = before.take(i as int);
                let tk1 = before.take(i + 1 as int);
                assert(tk1 == tk.push(before[i as int]));
                if keep {
                    // the pushed element keeps uniqueness: it stems from
                    // index i, every earlier element from indices below i
                    if keys_unique(before) {
                        assert forall|a: int, b: int|
                            0 <= a < b < kept@.len() implies (#[trigger] kept@[a]).0 != (
                        #[trigger] kept@[b]).0 by {
                            if b == kept@.len() - 1 {
                                let j = choose|j: int|
                                    0 <= j < i && #[trigger] prev[a] == before[j];
                                assert(kept@[a] == before[j]);
                                assert(before[j].0 != before[i as int].0);
                            } else {
                                assert(kept@[a] == prev[a] && kept@[b] == prev[b]);
                            }
                        }
                    }
                    assert(kept@[prev.len() as int] == before[i as int]);
                    assert forall|k: u32, t: u64| #[trigger] seq_has(kept@, k, t) implies (seq_has(
                        tk1,
                        k,
                        t,
                    ) && fresh_at(t, now, retention)) by {
                        let a = choose|a: int| 0 <= a < kept@.len() && #[trigger] kept@[a] == (k, t);
                        if a < prev.len() {
                            assert(prev[a] == (k, t));
                            assert(seq_has(prev, k, t));
                            let j = choose|j: int| 0 <= j < tk.len() && #[trigger] tk[j] == (k, t);
                            assert(tk1[j] == (k, t));
                        } else {
                            assert(kept@[a] == before[i as int]);
                            assert(tk1[i as int] == (k, t));
                        }
                    }
                    assert forall|k: u32, t: u64|
                        seq_has(tk1, k, t) && fresh_at(t, now, retention) implies #[trigger] seq_has(
                        kept@,
                        k,
                        t,
                    ) by {
                        let j = choose|j: int| 0 <= j < tk1.len() && #[trigger] tk1[j] == (k, t);
                        if j < i {
                            assert(tk[j] == (k, t));
                            assert(seq_has(tk, k, t));
                            assert(seq_has(prev, k, t));
                            let a = choose|a: int|
                                0 <= a < prev.len() && #[trigger] prev[a] == (k, t);
                            assert(kept@[a] == (k, t));
                        } else {
                            assert(kept@[prev.len() as int] == (k, t));
                        }
                    }
                } else {
                    assert forall|k: u32, t: u64|
                        seq_has(tk1, k, t) && fresh_at(t, now, retention) implies #[trigger] seq_has(
                        kept@,
                        k,
                        t,
                    ) by {
                        let j = choose|j: int| 0 <= j < tk1.len() && #[trigger] tk1[j] == (k, t);
                        if j < i {
                            assert(tk[j] == (k, t));
                            assert(seq_has(tk, k, t));
                        } else {
                            assert((k, t) == before[i as int]);
                            assert(!fresh_at(t, now, retention));
                        }
                    }
                    assert forall|k: u32, t: u64| #[trigger] seq_has(kept@, k, t) implies (seq_has(
                        tk1,
                        k,
                        t,
                    ) && fresh_at(t, now, retention)) by {
                        let j = choose|j: int| 0 <= j < tk.len() && #[trigger] tk[j] == (k, t);
                        assert(tk1[j] == (k, t));
                    }
                }
            }
            i += 1;
        }
        self.entries = kept;
        proof {
            assert(before.take(n as int) =~= before);
        }
    }
}

} // verus!
