//! DMX universe management.
use vstd::prelude::*;

use std::collections::hash_map::Entry;
use std::collections::HashMap;

use crate::dmx::{all_zero, DmxUniverse};

verus! {

broadcast use vstd::std_specs::hash::group_hash_axioms;

/// A map of universe number → universe, creating universes on demand.
#[derive(Debug, Clone)]
pub struct UniverseManager {
    universes: HashMap<u16, DmxUniverse>,
}

impl Default for UniverseManager {
    fn default() -> (m: UniverseManager)
        ensures
            m.wf(),
            m.spec_map() == Map::<u16, DmxUniverse>::empty(),
    {
        UniverseManager::new()
    }
}

impl UniverseManager {
    /// The manager holds finitely many universes.
    pub closed spec fn wf(&self) -> bool {
        self.universes@.dom().finite()
    }

    /// The managed universes by number.
    pub closed spec fn spec_map(&self) -> Map<u16, DmxUniverse> {
        self.universes@
    }

    /// An empty manager.
    pub fn new() -> (m: UniverseManager)
        ensures
            m.wf(),
            m.spec_map() == Map::<u16, DmxUniverse>::empty(),
    {
        UniverseManager { universes: HashMap::new() }
    }

    /// Returns the universe, creating an all-black one if absent.
    pub fn get_or_create(&mut self, universe: u16) -> (r: &mut DmxUniverse)
        requires
            old(self).wf(),
        ensures
            final(self).wf(),
            old(self).spec_map().contains_key(universe) ==> *r == old(self).spec_map()[universe],
            !old(self).spec_map().contains_key(universe) ==> r.universe == universe && all_zero(r.channels@),
            final(self).spec_map() == old(self).spec_map().insert(universe, *final(r)),
    {
        let fresh = DmxUniverse::new(universe);
        self.universes.entry(universe).or_insert(fresh)
    }

    /// Borrowed access without creating.
    pub fn get(&self, universe: u16) -> (r: Option<&DmxUniverse>)
        requires
            self.wf(),
        ensures
            r is Some <==> self.spec_map().contains_key(universe),
            r matches Some(u) ==> *u == self.spec_map()[universe],
    {
        self.universes.get(&universe)
    }

    /// Mutable access without creating.
    pub fn get_mut(&mut self, universe: u16) -> (r: Option<&mut DmxUniverse>)
        requires
            old(self).wf(),
        ensures
            final(self).wf(),
            r is Some <==> old(self).spec_map().contains_key(universe),
            r is None ==> final(self).spec_map() == old(self).spec_map(),
            r matches Some(u) ==> *u == old(self).spec_map()[universe]
                && final(self).spec_map() == old(self).spec_map().insert(universe, *final(u)),
    {
        match self.universes.entry(universe) {
            Entry::Occupied(o) => Some(o.into_mut()),
            Entry::Vacant(_) => {
                proof {
                    assert(old(self).spec_map().remove(universe) =~= old(self).spec_map());
                }
                None
            },
        }
    }

    /// Replaces or inserts a universe, under its own number.
    pub fn insert(&mut self, universe: DmxUniverse)
        requires
            old(self).wf(),
        ensures
            final(self).wf(),
            final(self).spec_map() == old(self).spec_map().insert(universe.universe, universe),
    {
        let key = universe.universe;
        self.universes.insert(key, universe);
    }

    /// Merges an incoming universe's slot data into the manager (e.g. when
    /// receiving from the network): the universe under the same number takes
    /// the incoming channel values, and is created first if absent.
    pub fn merge(&mut self, incoming: &DmxUniverse)
        requires
            old(self).wf(),
        ensures
            final(self).wf(),
            final(self).spec_map() == old(self).spec_map().insert(
                incoming.universe,
                DmxUniverse {
                    universe: if old(self).spec_map().contains_key(incoming.universe) {
                        old(self).spec_map()[incoming.universe].universe
                    } else {
                        incoming.universe
                    },
                    channels: incoming.channels,
                },
            ),
    {
        let u = self.get_or_create(incoming.universe);
        u.channels = incoming.channels;
    }

    /// Number of managed universes.
    pub fn len(&self) -> (n: usize)
        requires
            self.wf(),
        ensures
            n == self.spec_map().len(),
    {
        self.universes.len()
    }

    /// Whether no universes are managed.
    pub fn is_empty(&self) -> (b: bool)
        requires
            self.wf(),
        ensures
            b <==> self.spec_map().len() == 0,
    {
        self.universes.is_empty()
    }

    /// The universe numbers in the map, each once, in the order the map
    /// hands them out.
    fn keys(&self) -> (ks: Vec<u16>)
        requires
            self.wf(),
        ensures
            ks@.no_duplicates(),
            ks@.to_set() == self.spec_map().dom(),
            ks@.len() == self.spec_map().len(),
    {
        let ghost all = vstd::std_specs::iter::IteratorSpec::remaining(&vstd::std_specs::hash::spec_keys_iter(&self.universes)).unref();
        let mut ks: Vec<u16> = Vec::new();
        for k in it: self.universes.keys()
            invariant
                it.seq().unref() == all,
                ks@ == all.take(it.index() as int),
            ensures
                ks@ == all,
        {
            ks.push(*k);
            proof {
                assert(ks@ =~= all.take(it.index() + 1));
            }
        }
        ks
    }

    /// The managed universes ordered by their own universe numbers: the
    /// map's universes, each once, sorted by the `universe` field (stably,
    /// so universes that carry the same number keep the map's order).
    pub fn iter(&self) -> (r: Vec<&DmxUniverse>)
        requires
            self.wf(),
        ensures
            r@.len() == self.spec_map().len(),
            exists|ks: Seq<u16>|
                #[trigger] lists_keys(ks, self.spec_map()) && ks.len() == r@.len() && forall|i: int|
                    0 <= i < r@.len() ==> *r@[i] == self.spec_map()[ks[i]],
            forall|i: int, j: int| 0 <= i < j < r@.len() ==> r@[i].universe <= r@[j].universe,
    {
        let ks = self.keys();
        let ghost m = self.spec_map();
        let mut out: Vec<&DmxUniverse> = Vec::new();
        let ghost mut gks: Seq<u16> = Seq::empty();
        let mut i: usize = 0;
        while i < ks.len()
            invariant
                m == self.spec_map(),
                ks@.to_set() == m.dom(),
                i <= ks@.len(),
                out@.len() == gks.len(),
                gks.len() == i,
                forall|x: u16| #[trigger] gks.contains(x) <==> ks@.take(i as int).contains(x),
                forall|j: int| 0 <= j < gks.len() ==> *out@[j] == m[gks[j]],
                forall|a: int, b: int| 0 <= a < b < out@.len() ==> out@[a].universe <= out@[b].universe,
            decreases ks@.len() - i,
        {
            let k = ks[i];
            proof {
                assert(ks@.to_set().contains(k));
            }
            let u = match self.universes.get(&k) {
                Some(u) => u,
                None => {
                    proof {
                        assert(false);
                    }
                    return out;
                },
            };
            proof {
                assert(m.contains_key(k) && m[k] == *u);
            }
            let uu = u.universe;
            let mut p: usize = 0;
            while p < out.len() && out[p].universe <= uu
                invariant
                    p <= out@.len(),
                    forall|j: int| 0 <= j < p ==> out@[j].universe <= uu,
                decreases out@.len() - p,
            {
                p += 1;
            }
            let ghost before = out@;
            proof {
                assert forall|j: int| p <= j < before.len() implies before[j].universe > uu by {
                    if j > p {
                        assert(before[p as int].universe <= before[j].universe);
                    }
                }
            }
            out.insert(p, u);
            proof {
                let g0 = gks;
                gks = gks.insert(p as int, k);
                assert(ks@.take(i + 1) =~= ks@.take(i as int).push(k));
                assert forall|x: u16| #[trigger] gks.contains(x) <==> ks@.take(i + 1).contains(x) by {
                    lemma_insert_contains(g0, p as int, k, x);
                    lemma_insert_contains(ks@.take(i as int), i as int, k, x);
                    assert(ks@.take(i as int).insert(i as int, k) =~= ks@.take(i as int).push(k));
                }
                assert forall|j: int| 0 <= j < gks.len() implies *out@[j] == m[gks[j]] by {
                    if j > p {
                        assert(gks[j] == g0[j - 1] && out@[j] == before[j - 1]);
                    } else if j < p {
                        assert(gks[j] == g0[j] && out@[j] == before[j]);
                    } else {
                        assert(gks[j] == k && out@[j] == u);
                    }
                }
                assert forall|a: int, b: int| 0 <= a < b < out@.len() implies out@[a].universe <= out@[b].universe by {
                    if a < p && b == p {
                    } else if a == p {
                        assert(out@[b] == before[b - 1]);
                    } else if b > p && a < p {
                        assert(out@[b] == before[b - 1]);
                        assert(out@[a] == before[a]);
                    } else if b > p && a > p {
                        assert(out@[b] == before[b - 1]);
                        assert(out@[a] == before[a - 1]);
                    } else {
                        assert(out@[b] == before[b]);
                        assert(out@[a] == before[a]);
                    }
                }
            }
            i += 1;
        }
        proof {
            assert(ks@.take(ks@.len() as int) =~= ks@);
            assert(gks.to_set() =~= m.dom()) by {
                assert forall|x: u16| gks.to_set().contains(x) <==> m.dom().contains(x) by {
                    assert(ks@.to_set().contains(x) == ks@.contains(x));
                }
            }
            gks.lemma_no_dup_set_cardinality();
            assert(lists_keys(gks, m));
        }
        out
    }
}

/// `ks` lists each key of `m` exactly once.
pub open spec fn lists_keys(ks: Seq<u16>, m: Map<u16, DmxUniverse>) -> bool {
    ks.no_duplicates() && ks.to_set() == m.dom()
}

/// What an inserted sequence contains: what it held, and the new item.
proof fn lemma_insert_contains(s: Seq<u16>, p: int, k: u16, x: u16)
    requires
        0 <= p <= s.len(),
    ensures
        s.insert(p, k).contains(x) <==> (s.contains(x) || x == k),
{
    let t = s.insert(p, k);
    if t.contains(x) {
        let j = choose|j: int| 0 <= j < t.len() && t[j] == x;
        if j < p {
            assert(s[j] == x);
        } else if j > p {
            assert(s[j - 1] == x);
        }
    }
    if s.contains(x) {
        let j = choose|j: int| 0 <= j < s.len() && s[j] == x;
        if j < p {
            assert(t[j] == x);
        } else {
            assert(t[j + 1] == x);
        }
    }
    if x == k {
        assert(t[p] == x);
    }
}

} // verus!
