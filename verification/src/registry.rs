//! Address-keyed tables and the session records they hold: the operator's
//! registry of live agents, and the per-session table of proxy listeners.
//!
//! Both tables are association lists with unique keys, viewed as a `Map`
//! from socket address to value; every operation states its effect as a
//! transition of that map.

use vstd::prelude::*;
use crate::addr::SocketAddress;

verus! {

/// Whether `k` occurs among the keys of the entry sequence.
pub open spec fn spec_has_key<V>(s: Seq<(SocketAddress, V)>, k: SocketAddress) -> bool {
    exists|i: int| 0 <= i < s.len() && (#[trigger] s[i]).0 == k
}

/// Whether every key occurs at most once.
pub open spec fn spec_unique_keys<V>(s: Seq<(SocketAddress, V)>) -> bool {
    forall|i: int, j: int| 0 <= i < j < s.len() ==> (#[trigger] s[i]).0 != (#[trigger] s[j]).0
}

/// The finite map an entry sequence denotes; on duplicate keys the later
/// entry wins, matching insertion order.
pub open spec fn spec_assoc_map<V>(s: Seq<(SocketAddress, V)>) -> Map<SocketAddress, V>
    decreases s.len(),
{
    if s.len() == 0 {
        Map::empty()
    } else {
        spec_assoc_map(s.drop_last()).insert(s.last().0, s.last().1)
    }
}

/// A key is in the denoted map exactly when it is among the entries.
pub proof fn lemma_assoc_map_keys<V>(s: Seq<(SocketAddress, V)>, k: SocketAddress)
    ensures
        spec_assoc_map(s).contains_key(k) == spec_has_key(s, k),
    decreases s.len(),
{
    if s.len() > 0 {
        let s0 = s.drop_last();
        lemma_assoc_map_keys(s0, k);
        assert(spec_has_key(s, k) == (s.last().0 == k || spec_has_key(s0, k))) by {
            if spec_has_key(s0, k) {
                let i = choose|i: int| 0 <= i < s0.len() && (#[trigger] s0[i]).0 == k;
                assert(s[i].0 == k);
            }
            if s.last().0 == k {
                assert(s[s.len() - 1].0 == k);
            }
            if spec_has_key(s, k) {
                let i = choose|i: int| 0 <= i < s.len() && (#[trigger] s[i]).0 == k;
                if i < s.len() - 1 {
                    assert(s0[i].0 == k);
                }
            }
        }
    }
}

/// With unique keys, the entry holding a key decides its mapped value.
pub proof fn lemma_assoc_map_value<V>(s: Seq<(SocketAddress, V)>, i: int)
    requires
        spec_unique_keys(s),
        0 <= i < s.len(),
    ensures
        spec_assoc_map(s).contains_key(s[i].0),
        spec_assoc_map(s)[s[i].0] == s[i].1,
    decreases s.len(),
{
    lemma_assoc_map_keys(s, s[i].0);
    if i < s.len() - 1 {
        let s0 = s.drop_last();
        assert(s0[i] == s[i]);
        lemma_assoc_map_value(s0, i);
        assert(s.last().0 != s[i].0);
    }
}

/// A table of values keyed by socket address: the operator registry (values
/// are shared session records) and the per-session proxy table (values are
/// pending disconnect signals) are both of this shape.
pub struct AddrMap<V> {
    pub entries: Vec<(SocketAddress, V)>,
}

impl<V> AddrMap<V> {
    /// The finite map this table holds.
    pub open spec fn view(&self) -> Map<SocketAddress, V> {
        spec_assoc_map(self.entries@)
    }

    /// Internal invariant: no key occurs twice.
    pub open spec fn wf(&self) -> bool {
        spec_unique_keys(self.entries@)
    }

    /// An empty table.
    pub fn new() -> (r: Self)
        ensures
            r.wf(),
            r.entries@.len() == 0,
            r.view() == Map::<SocketAddress, V>::empty(),
    {
        AddrMap { entries: Vec::new() }
    }

    /// How many keys the table holds.
    pub fn len(&self) -> (r: usize)
        ensures
            r == self.entries@.len(),
    {
        self.entries.len()
    }

    /// The position of `k` among the entries, if it is there.
    fn position(&self, k: SocketAddress) -> (r: Option<usize>)
        ensures
            match r {
                Some(i) => i < self.entries@.len() && self.entries@[i as int].0 == k,
                None => !spec_has_key(self.entries@, k),
            },
    {
        let n = self.entries.len();
        let mut i: usize = 0;
        while i < n
            invariant
                n == self.entries@.len(),
                i <= n,
                forall|j: int| 0 <= j < i ==> (#[trigger] self.entries@[j]).0 != k,
            decreases n - i,
        {
            if self.entries[i].0 == k {
                return Some(i);
            }
            i += 1;
        }
        None
    }

    /// Whether the table holds `k`.
    pub fn contains(&self, k: SocketAddress) -> (r: bool)
        ensures
            r == self.view().contains_key(k),
    {
        proof {
            lemma_assoc_map_keys(self.entries@, k);
        }
        match self.position(k) {
            Some(_) => true,
            None => false,
        }
    }

    /// The value stored under `k`, if any.
    pub fn get(&self, k: SocketAddress) -> (r: Option<&V>)
        requires
            self.wf(),
        ensures
            match r {
                Some(v) => self.view().contains_key(k) && *v == self.view()[k],
                None => !self.view().contains_key(k),
            },
    {
        proof {
            lemma_assoc_map_keys(self.entries@, k);
        }
        match self.position(k) {
            Some(i) => {
                proof {
                    lemma_assoc_map_value(self.entries@, i as int);
                }
                Some(&self.entries[i].1)
            },
            None => None,
        }
    }

    /// Store `v` under `k`, replacing and returning what was there. The
    /// last writer wins; a key never gains a second entry.
    pub fn upsert(&mut self, k: SocketAddress, v: V) -> (prev: Option<V>)
        requires
            old(self).wf(),
        ensures
            final(self).wf(),
            final(self).view() == old(self).view().insert(k, v),
            final(self).entries@.len() == old(self).entries@.len() + (if old(self).view().contains_key(k) { 0int } else { 1int }),
            match prev {
                Some(p) => old(self).view().contains_key(k) && p == old(self).view()[k],
                None => !old(self).view().contains_key(k),
            },
    {
        proof {
            lemma_assoc_map_keys(self.entries@, k);
        }
        match self.position(k) {
            Some(i) => {
                proof {
                    lemma_assoc_map_value(self.entries@, i as int);
                }
                let ghost before = self.entries@;
                let old_entry = self.entries.remove(i);
                self.entries.insert(i, (k, v));
                proof {
                    assert(self.entries@ =~= before.update(i as int, (k, v)));
                    lemma_update_entry(before, i as int, v);
                }
                Some(old_entry.1)
            },
            None => {
                let ghost before = self.entries@;
                self.entries.push((k, v));
                proof {
                    assert(self.entries@.drop_last() =~= before);
                    assert(spec_unique_keys(self.entries@)) by {
                        assert(forall|j: int|
                            0 <= j < before.len() ==> (#[trigger] before[j]).0 != k);
                        assert(forall|j: int|
                            0 <= j < self.entries@.len() - 1 ==> self.entries@[j] == before[j]);
                    }
                }
                None
            },
        }
    }

    /// Remove `k`, returning its value if it was there.
    pub fn remove(&mut self, k: SocketAddress) -> (prev: Option<V>)
        requires
            old(self).wf(),
        ensures
            final(self).wf(),
            final(self).view() == old(self).view().remove(k),
            match prev {
                Some(p) => old(self).view().contains_key(k) && p == old(self).view()[k]
                    && final(self).entries@.len() + 1 == old(self).entries@.len(),
                None => !old(self).view().contains_key(k) && final(self).entries@ == old(self).entries@,
            },
    {
        proof {
            lemma_assoc_map_keys(self.entries@, k);
        }
        match self.position(k) {
            Some(i) => {
                proof {
                    lemma_assoc_map_value(self.entries@, i as int);
                }
                let ghost before = self.entries@;
                let e = self.entries.remove(i);
                proof {
                    lemma_remove_entry(before, i as int);
                }
                Some(e.1)
            },
            None => {
                proof {
                    assert(old(self).view() =~= old(self).view().remove(k));
                }
                None
            },
        }
    }

    /// Every key in the table, in entry order, without repetition.
    pub fn keys(&self) -> (r: Vec<SocketAddress>)
        requires
            self.wf(),
        ensures
            r@.len() == self.entries@.len(),
            forall|i: int| 0 <= i < r@.len() ==> #[trigger] r@[i] == self.entries@[i].0,
            r@.no_duplicates(),
            forall|i: int| 0 <= i < r@.len() ==> self.view().contains_key(#[trigger] r@[i]),
    {
        let n = self.entries.len();
        let mut out: Vec<SocketAddress> = Vec::new();
        let mut i: usize = 0;
        while i < n
            invariant
                n == self.entries@.len(),
                i <= n,
                out@.len() == i,
                forall|j: int| 0 <= j < i ==> #[trigger] out@[j] == self.entries@[j].0,
            decreases n - i,
        {
            out.push(self.entries[i].0);
            i += 1;
        }
        proof {
            assert(forall|i: int, j: int|
                0 <= i < j < out@.len() ==> out@[i] != out@[j]) by {
                assert(spec_unique_keys(self.entries@));
            }
            assert forall|i: int| 0 <= i < out@.len() implies self.view().contains_key(
                #[trigger] out@[i],
            ) by {
                lemma_assoc_map_keys(self.entries@, out@[i]);
                assert(self.entries@[i].0 == out@[i]);
            }
        }
        out
    }

    /// Take every entry out, leaving the table empty. Session teardown
    /// drains the proxy table through this.
    pub fn drain(&mut self) -> (r: Vec<(SocketAddress, V)>)
        requires
            old(self).wf(),
        ensures
            final(self).wf(),
            final(self).entries@.len() == 0,
            final(self).view() == Map::<SocketAddress, V>::empty(),
            r@ == old(self).entries@,
    {
        let ghost orig = self.entries@;
        let mut out: Vec<(SocketAddress, V)> = Vec::new();
        while self.entries.len() > 0
            invariant
                out@ + self.entries@ == orig,
                spec_unique_keys(self.entries@),
            decreases self.entries@.len(),
        {
            let e = self.entries.remove(0);
            out.push(e);
            proof {
                assert(out@ + self.entries@ =~= orig);
            }
        }
        proof {
            assert(out@ + self.entries@ =~= out@);
        }
        out
    }
}

/// Updating the entry that holds a key re-points the key in the denoted
/// map and keeps the keys unique.
proof fn lemma_update_entry<V>(s: Seq<(SocketAddress, V)>, i: int, v: V)
    requires
        spec_unique_keys(s),
        0 <= i < s.len(),
    ensures
        spec_unique_keys(s.update(i, (s[i].0, v))),
        spec_assoc_map(s.update(i, (s[i].0, v))) == spec_assoc_map(s).insert(s[i].0, v),
    decreases s.len(),
{
    let k = s[i].0;
    let t = s.update(i, (k, v));
    assert(spec_unique_keys(t)) by {
        assert(forall|j: int| 0 <= j < s.len() ==> (#[trigger] t[j]).0 == s[j].0);
    }
    if i == s.len() - 1 {
        assert(t.drop_last() =~= s.drop_last());
        assert(t.last() == (k, v));
    } else {
        let s0 = s.drop_last();
        let t0 = t.drop_last();
        assert(t0 =~= s0.update(i, (k, v)));
        assert(s0[i] == s[i]);
        assert(forall|a: int, b: int|
            0 <= a < b < s0.len() ==> (#[trigger] s0[a]).0 != (#[trigger] s0[b]).0);
        lemma_update_entry(s0, i, v);
        assert(t.last() == s.last());
        assert(s.last().0 != k);
        assert(spec_assoc_map(t) == spec_assoc_map(s0).insert(k, v).insert(s.last().0, s.last().1));
        assert(spec_assoc_map(s0).insert(k, v).insert(s.last().0, s.last().1) =~= spec_assoc_map(
            s0,
        ).insert(s.last().0, s.last().1).insert(k, v));
    }
}

/// Removing the entry that holds a key removes the key from the denoted
/// map and keeps the keys unique.
proof fn lemma_remove_entry<V>(s: Seq<(SocketAddress, V)>, i: int)
    requires
        spec_unique_keys(s),
        0 <= i < s.len(),
    ensures
        spec_unique_keys(s.remove(i)),
        spec_assoc_map(s.remove(i)) == spec_assoc_map(s).remove(s[i].0),
    decreases s.len(),
{
    let k = s[i].0;
    let t = s.remove(i);
    assert(spec_unique_keys(t)) by {
        assert(forall|j: int|
            0 <= j < t.len() ==> #[trigger] t[j] == (if j < i {
                s[j]
            } else {
                s[j + 1]
            }));
    }
    if i == s.len() - 1 {
        assert(t =~= s.drop_last());
        assert(spec_assoc_map(s) == spec_assoc_map(t).insert(k, s[i].1));
        assert(!spec_assoc_map(t).contains_key(k)) by {
            lemma_assoc_map_keys(t, k);
            if spec_has_key(t, k) {
                let j = choose|j: int| 0 <= j < t.len() && (#[trigger] t[j]).0 == k;
                assert(s[j].0 == k);
            }
        }
        assert(spec_assoc_map(t) =~= spec_assoc_map(t).insert(k, s[i].1).remove(k));
    } else {
        let s0 = s.drop_last();
        let t0 = t.drop_last();
        assert(t0 =~= s0.remove(i));
        assert(s0[i] == s[i]);
        lemma_remove_entry(s0, i);
        assert(t.last() == s.last());
        assert(s.last().0 != k);
        assert(spec_assoc_map(t) == spec_assoc_map(s0).remove(k).insert(s.last().0, s.last().1));
        assert(spec_assoc_map(s0).remove(k).insert(s.last().0, s.last().1) =~= spec_assoc_map(
            s0,
        ).insert(s.last().0, s.last().1).remove(k));
    }
}


impl<V> AddrMap<(u64, V)> {
    /// Teardown's removal for tables whose values carry a creation stamp:
    /// the entry under `k` leaves only while it still bears the given
    /// stamp. A session that was replaced under its address
    /// (last-writer-wins) thus cannot delete its replacement's entry.
    pub fn remove_stamped(&mut self, k: SocketAddress, stamp: u64) -> (prev: Option<(u64, V)>)
        requires
            old(self).wf(),
        ensures
            final(self).wf(),
            (old(self).view().contains_key(k) && old(self).view()[k].0 == stamp) ==> (final(self).view() == old(self).view().remove(k) && (prev matches Some(p) && p == old(self).view()[k])),
            !(old(self).view().contains_key(k) && old(self).view()[k].0 == stamp) ==> (final(self).view() == old(self).view() && prev is None && final(self).entries@ == old(self).entries@),
    {
        proof {
            lemma_assoc_map_keys(self.entries@, k);
        }
        match self.position(k) {
            Some(i) => {
                proof {
                    lemma_assoc_map_value(self.entries@, i as int);
                }
                if self.entries[i].1.0 == stamp {
                    let ghost before = self.entries@;
                    let e = self.entries.remove(i);
                    proof {
                        lemma_remove_entry(before, i as int);
                    }
                    Some(e.1)
                } else {
                    None
                }
            },
            None => None,
        }
    }
}

} // verus!
