//! The connection registry: a map from caller-chosen identifier to a live
//! adapter handle. The registry owns only lifecycle — it never inspects an
//! adapter — so it is generic in what it stores. Concurrent access (the
//! reader-writer lock around it) stands outside the library; these
//! operations give the sequential semantics every caller observes.

use vstd::prelude::*;
use vstd::map::*;

verus! {

#[derive(Debug, Clone)]
struct RegistryEntry<T> {
    id: String,
    adapter: T,
}

/// The registry's model: later entries override earlier ones, though a
/// well-formed registry never holds one identifier twice.
spec fn entries_map<T>(s: Seq<RegistryEntry<T>>) -> Map<Seq<char>, T>
    decreases s.len(),
{
    if s.len() == 0 {
        Map::empty()
    } else {
        entries_map(s.drop_last()).insert(s.last().id@, s.last().adapter)
    }
}

proof fn lemma_entries_map_dom<T>(s: Seq<RegistryEntry<T>>, k: Seq<char>)
    ensures
        entries_map(s).dom().contains(k) <==> exists|i: int|
            0 <= i < s.len() && (#[trigger] s[i]).id@ == k,
    decreases s.len(),
{
    if s.len() > 0 {
        lemma_entries_map_dom(s.drop_last(), k);
        if s.last().id@ == k {
            assert(s[s.len() - 1].id@ == k);
        } else if entries_map(s).dom().contains(k) {
            let i = choose|i: int| 0 <= i < s.len() - 1 && (#[trigger] s.drop_last()[i]).id@ == k;
            assert(s[i].id@ == k);
        } else if exists|i: int| 0 <= i < s.len() && (#[trigger] s[i]).id@ == k {
            let i = choose|i: int| 0 <= i < s.len() && (#[trigger] s[i]).id@ == k;
            assert(s.drop_last()[i].id@ == k);
        }
    }
}

proof fn lemma_entries_map_lookup<T>(s: Seq<RegistryEntry<T>>, i: int)
    requires
        0 <= i < s.len(),
        forall|a: int, b: int|
            0 <= a < b < s.len() ==> (#[trigger] s[a]).id@ != (#[trigger] s[b]).id@,
    ensures
        entries_map(s).dom().contains(s[i].id@),
        entries_map(s)[s[i].id@] == s[i].adapter,
    decreases s.len(),
{
    if i == s.len() - 1 {
    } else {
        assert(s[i].id@ != s[s.len() - 1].id@);
        assert(s.drop_last()[i] == s[i]);
        lemma_entries_map_lookup(s.drop_last(), i);
    }
}

proof fn lemma_entries_map_finite<T>(s: Seq<RegistryEntry<T>>)
    ensures
        entries_map(s).dom().finite(),
    decreases s.len(),
{
    if s.len() > 0 {
        lemma_entries_map_finite(s.drop_last());
    }
}

proof fn lemma_entries_map_remove<T>(s: Seq<RegistryEntry<T>>, p: int)
    requires
        0 <= p < s.len(),
        forall|a: int, b: int|
            0 <= a < b < s.len() ==> (#[trigger] s[a]).id@ != (#[trigger] s[b]).id@,
    ensures
        entries_map(s.remove(p)) == entries_map(s).remove(s[p].id@),
    decreases s.len(),
{
    let id = s[p].id@;
    if p == s.len() - 1 {
        assert(s.remove(p) =~= s.drop_last());
        assert forall|i: int| 0 <= i < s.drop_last().len() implies (#[trigger] s.drop_last()[i]).id@
            != id by {
            assert(s.drop_last()[i] == s[i]);
        }
        lemma_entries_map_dom(s.drop_last(), id);
        assert(entries_map(s.drop_last()) =~= entries_map(s.drop_last()).insert(
            id,
            s[p].adapter,
        ).remove(id));
    } else {
        assert(s.remove(p).drop_last() =~= s.drop_last().remove(p));
        assert(s.remove(p).last() == s.last());
        assert forall|a: int, b: int|
            0 <= a < b < s.drop_last().len() implies (#[trigger] s.drop_last()[a]).id@ != (
        #[trigger] s.drop_last()[b]).id@ by {
            assert(s.drop_last()[a] == s[a] && s.drop_last()[b] == s[b]);
        }
        lemma_entries_map_remove(s.drop_last(), p);
        assert(s.drop_last()[p] == s[p]);
        assert(s.last().id@ != id);
        assert(entries_map(s.remove(p)) =~= entries_map(s).remove(id)) by {
            assert(entries_map(s.remove(p)) == entries_map(s.drop_last()).remove(id).insert(
                s.last().id@,
                s.last().adapter,
            ));
        }
    }
}

/// The connection registry. `T` is the shared adapter handle the
/// surrounding application stores under each identifier.
pub struct ConnectionRegistry<T> {
    entries: Vec<RegistryEntry<T>>,
}

impl<T> ConnectionRegistry<T> {
    /// The registered adapters, keyed by identifier.
    pub closed spec fn contents(&self) -> Map<Seq<char>, T> {
        entries_map(self.entries@)
    }

    /// Each identifier is registered at most once.
    pub closed spec fn wf(&self) -> bool {
        forall|a: int, b: int|
            0 <= a < b < self.entries@.len() ==> (#[trigger] self.entries@[a]).id@ != (
            #[trigger] self.entries@[b]).id@
    }

    /// An empty registry.
    pub fn new() -> (r: Self)
        ensures
            r.wf(),
            r.contents() == Map::<Seq<char>, T>::empty(),
    {
        ConnectionRegistry { entries: Vec::new() }
    }

    /// The registry's domain is finite (so identifier counts make sense).
    pub proof fn lemma_contents_finite(&self)
        ensures
            self.contents().dom().finite(),
    {
        lemma_entries_map_finite(self.entries@);
    }

    fn position(&self, id: &str) -> (r: Option<usize>)
        ensures
            match r {
                Some(p) => p < self.entries@.len() && self.entries@[p as int].id@ == id@,
                None => forall|j: int|
                    0 <= j < self.entries@.len() ==> (#[trigger] self.entries@[j]).id@ != id@,
            },
    {
        let n = self.entries.len();
        let mut i: usize = 0;
        while i < n
            invariant
                n == self.entries@.len(),
                i <= n,
                forall|j: int| 0 <= j < i ==> (#[trigger] self.entries@[j]).id@ != id@,
            decreases n - i,
        {
            let c = crate::text::str_chars(self.entries[i].id.as_str());
            if crate::text::chars_eq_str(c.as_slice(), id) {
                return Some(i);
            }
            i = i + 1;
        }
        None
    }

    /// Registers an adapter under an identifier, unconditionally replacing
    /// any prior entry. The replaced adapter, if any, is handed back so the
    /// caller can decide whether to release it first.
    pub fn connect(&mut self, id: String, adapter: T) -> (prior: Option<T>)
        requires
            old(self).wf(),
        ensures
            final(self).wf(),
            final(self).contents() == old(self).contents().insert(id@, adapter),
            match prior {
                Some(a) => old(self).contents().dom().contains(id@) && a == old(
                    self,
                ).contents()[id@],
                None => !old(self).contents().dom().contains(id@),
            },
    {
        let prior = self.disconnect(id.as_str());
        let ghost mid = self.entries@;
        self.entries.push(RegistryEntry { id, adapter });
        proof {
            assert forall|a: int, b: int|
                0 <= a < b < self.entries@.len() implies (#[trigger] self.entries@[a]).id@ != (
            #[trigger] self.entries@[b]).id@ by {
                if b < mid.len() {
                    assert(self.entries@[a] == mid[a] && self.entries@[b] == mid[b]);
                } else {
                    assert(self.entries@[a] == mid[a]);
                    lemma_entries_map_dom(mid, self.entries@[b].id@);
                    if mid[a].id@ == self.entries@[b].id@ {
                        assert(entries_map(mid).dom().contains(mid[a].id@));
                    }
                }
            }
            assert(self.entries@.drop_last() =~= mid);
            assert(final(self).contents() =~= old(self).contents().insert(
                self.entries@.last().id@,
                self.entries@.last().adapter,
            ));
        }
        prior
    }

    /// Looks an adapter up without removing it.
    pub fn get(&self, id: &str) -> (r: Option<&T>)
        requires
            self.wf(),
        ensures
            match r {
                Some(a) => self.contents().dom().contains(id@) && *a == self.contents()[id@],
                None => !self.contents().dom().contains(id@),
            },
    {
        match self.position(id) {
            Some(p) => {
                proof {
                    lemma_entries_map_lookup(self.entries@, p as int);
                }
                Some(&self.entries[p].adapter)
            },
            None => {
                proof {
                    lemma_entries_map_dom(self.entries@, id@);
                }
                None
            },
        }
    }

    /// Removes an identifier's entry and hands the adapter back; a missing
    /// entry is a no-op, never an error.
    pub fn disconnect(&mut self, id: &str) -> (r: Option<T>)
        requires
            old(self).wf(),
        ensures
            final(self).wf(),
            final(self).contents() == old(self).contents().remove(id@),
            match r {
                Some(a) => old(self).contents().dom().contains(id@) && a == old(
                    self,
                ).contents()[id@],
                None => !old(self).contents().dom().contains(id@),
            },
    {
        match self.position(id) {
            Some(p) => {
                let ghost pre = self.entries@;
                let e = self.entries.remove(p);
                proof {
                    lemma_entries_map_lookup(pre, p as int);
                    lemma_entries_map_remove(pre, p as int);
                    assert forall|a: int, b: int|
                        0 <= a < b < self.entries@.len() implies (#[trigger] self.entries@[a]).id@
                        != (#[trigger] self.entries@[b]).id@ by {
                        let a0 = if a < p { a } else { a + 1 };
                        let b0 = if b < p { b } else { b + 1 };
                        assert(self.entries@[a] == pre[a0] && self.entries@[b] == pre[b0]);
                    }
                }
                Some(e.adapter)
            },
            None => {
                proof {
                    lemma_entries_map_dom(self.entries@, id@);
                    assert(final(self).contents() =~= old(self).contents().remove(id@));
                }
                None
            },
        }
    }

    /// A point-in-time snapshot of the registered identifiers: one for each
    /// entry, no identifier twice.
    pub fn active_ids(&self) -> (r: Vec<String>)
        requires
            self.wf(),
        ensures
            r@.len() == self.contents().dom().len(),
            forall|i: int| 0 <= i < r@.len() ==> self.contents().dom().contains((#[trigger] r@[i])@),
            forall|k: Seq<char>|
                self.contents().dom().contains(k) ==> exists|i: int|
                    0 <= i < r@.len() && (#[trigger] r@[i])@ == k,
            forall|i: int, j: int| 0 <= i < j < r@.len() ==> (#[trigger] r@[i])@ != (#[trigger] r@[j])@,
    {
        let n = self.entries.len();
        let mut r: Vec<String> = Vec::new();
        let mut i: usize = 0;
        while i < n
            invariant
                n == self.entries@.len(),
                self.wf(),
                i <= n,
                r@.len() == i,
                forall|j: int| 0 <= j < i ==> (#[trigger] r@[j])@ == self.entries@[j].id@,
            decreases n - i,
        {
            r.push(self.entries[i].id.clone());
            i = i + 1;
        }
        proof {
            assert forall|i2: int| 0 <= i2 < r@.len() implies self.contents().dom().contains(
                (#[trigger] r@[i2])@,
            ) by {
                lemma_entries_map_lookup(self.entries@, i2);
            }
            assert forall|k: Seq<char>| self.contents().dom().contains(k) implies exists|i2: int|
                0 <= i2 < r@.len() && (#[trigger] r@[i2])@ == k by {
                lemma_entries_map_dom(self.entries@, k);
                let w = choose|w: int|
                    0 <= w < self.entries@.len() && (#[trigger] self.entries@[w]).id@ == k;
                assert(r@[w]@ == k);
            }
            lemma_ids_count(self.entries@);
        }
        r
    }
}

proof fn lemma_ids_count<T>(s: Seq<RegistryEntry<T>>)
    requires
        forall|a: int, b: int|
            0 <= a < b < s.len() ==> (#[trigger] s[a]).id@ != (#[trigger] s[b]).id@,
    ensures
        entries_map(s).dom().finite(),
        entries_map(s).dom().len() == s.len(),
    decreases s.len(),
{
    if s.len() > 0 {
        let prior = s.drop_last();
        assert forall|a: int, b: int|
            0 <= a < b < prior.len() implies (#[trigger] prior[a]).id@ != (
        #[trigger] prior[b]).id@ by {
            assert(prior[a] == s[a] && prior[b] == s[b]);
        }
        lemma_ids_count(prior);
        assert forall|j: int| 0 <= j < prior.len() implies (#[trigger] prior[j]).id@ != s.last().id@
            by {
            assert(prior[j] == s[j]);
        }
        lemma_entries_map_dom(prior, s.last().id@);
        assert(!entries_map(prior).dom().contains(s.last().id@));
        assert(entries_map(s).dom() =~= entries_map(prior).dom().insert(s.last().id@));
    } else {
        assert(entries_map(s).dom() =~= Set::<Seq<char>>::empty());
    }
}

/// Disconnecting an identifier twice leaves the registry exactly as
/// disconnecting it once does, and a never-connected identifier's
/// disconnect changes nothing.
pub proof fn lemma_disconnect_idempotent<T>(m: Map<Seq<char>, T>, id: Seq<char>)
    ensures
        m.remove(id).remove(id) == m.remove(id),
        !m.dom().contains(id) ==> m.remove(id) == m,
{
    assert(m.remove(id).remove(id) =~= m.remove(id));
    if !m.dom().contains(id) {
        assert(m.remove(id) =~= m);
    }
}

/// Re-connecting an already-registered identifier replaces the entry: a
/// lookup after the replacement yields the new adapter, whatever was stored
/// before.
pub proof fn lemma_reconnect_replaces<T>(m: Map<Seq<char>, T>, id: Seq<char>, adapter: T)
    ensures
        m.insert(id, adapter).dom().contains(id),
        m.insert(id, adapter)[id] == adapter,
        forall|k: Seq<char>| k != id && m.dom().contains(k) ==> m.insert(id, adapter)[k] == m[k],
{
}

/// Connecting distinct fresh identifiers grows the set of active
/// identifiers by exactly one each: after N such connects the registry
/// holds exactly N more entries.
pub proof fn lemma_fresh_connect_counts<T>(m: Map<Seq<char>, T>, id: Seq<char>, adapter: T)
    requires
        m.dom().finite(),
        !m.dom().contains(id),
    ensures
        m.insert(id, adapter).dom().finite(),
        m.insert(id, adapter).dom().len() == m.dom().len() + 1,
{
    assert(m.insert(id, adapter).dom() =~= m.dom().insert(id));
}

} // verus!
