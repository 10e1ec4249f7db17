//! Message routing: match OSC address patterns to handlers.
//!
//! Routes are evaluated in registration order; a message is delivered to
//! every matching route (OSC semantics allow multiple matches).
use vstd::prelude::*;

use crate::address::{spec_matches, OscAddressMatcher};
use vstd::string::StringSliceAdditionalSpecFns;

verus! {

/// Routes registered by pattern, each with its handler, in registration
/// order.
pub struct OscRouter<H> {
    routes: Vec<(OscAddressMatcher, H)>,
}

/// Whether two strings are equal.
fn same_text(a: &str, b: &str) -> (r: bool)
    ensures
        r == (a@ == b@),
{
    let x = crate::text::chars_of(a);
    let y = crate::text::chars_of(b);
    if x.len() != y.len() {
        return false;
    }
    let mut i: usize = 0;
    while i < x.len()
        invariant
            x@ == a@,
            y@ == b@,
            x@.len() == y@.len(),
            i <= x@.len(),
            forall|k: int| 0 <= k < i ==> x@[k] == y@[k],
        decreases x@.len() - i,
    {
        if x[i] != y[i] {
            return false;
        }
        i += 1;
    }
    proof {
        assert(x@ =~= y@);
    }
    true
}

/// The routes as pattern and handler pairs, in registration order.
pub open spec fn route_view<H>(rs: Seq<(OscAddressMatcher, H)>) -> Seq<(Seq<char>, H)> {
    rs.map_values(|r: (OscAddressMatcher, H)| (r.0.spec_pattern(), r.1))
}

/// The routes whose pattern is not `p`, in their order.
pub open spec fn without_pattern<H>(rs: Seq<(Seq<char>, H)>, p: Seq<char>) -> Seq<(Seq<char>, H)> {
    rs.filter(|r: (Seq<char>, H)| r.0 != p)
}

impl<H> OscRouter<H> {
    /// The registered routes: each pattern with its handler, in
    /// registration order.
    pub closed spec fn spec_routes(&self) -> Seq<(Seq<char>, H)> {
        route_view(self.routes@)
    }

    /// The registered patterns, in registration order.
    pub open spec fn spec_patterns(&self) -> Seq<Seq<char>> {
        self.spec_routes().map_values(|r: (Seq<char>, H)| r.0)
    }

    /// An empty router.
    pub fn new() -> (r: OscRouter<H>)
        ensures
            r.spec_routes() == Seq::<(Seq<char>, H)>::empty(),
    {
        let r = OscRouter { routes: Vec::new() };
        proof {
            assert(r.spec_routes() =~= Seq::<(Seq<char>, H)>::empty());
        }
        r
    }

    /// Whether no routes are registered.
    pub fn is_empty(&self) -> (b: bool)
        ensures
            b == (self.spec_routes().len() == 0),
    {
        self.routes.len() == 0
    }

    /// The number of routes.
    pub fn len(&self) -> (n: usize)
        ensures
            n == self.spec_routes().len(),
    {
        self.routes.len()
    }

    /// Removes the route for `pattern`. Returns whether one existed.
    pub fn remove_route(&mut self, pattern: &str) -> (removed: bool)
        ensures
            final(self).spec_routes() == without_pattern(old(self).spec_routes(), pattern@),
            removed == old(self).spec_patterns().contains(pattern@),
    {
        let ghost old_rs = self.spec_routes();
        let ghost pat = pattern@;
        let mut rest: Vec<(OscAddressMatcher, H)> = Vec::new();
        std::mem::swap(&mut rest, &mut self.routes);
        let mut kept: Vec<(OscAddressMatcher, H)> = Vec::new();
        let mut removed = false;
        let ghost mut n: int = 0;
        proof {
            assert(old_rs.take(0) =~= Seq::<(Seq<char>, H)>::empty());
            assert(old_rs.skip(0) =~= old_rs);
            assert(route_view(kept@) =~= Seq::<(Seq<char>, H)>::empty());
            reveal(Seq::filter);
            assert(without_pattern(old_rs.take(0), pat) =~= Seq::<(Seq<char>, H)>::empty());
        }
        while rest.len() > 0
            invariant
                0 <= n <= old_rs.len(),
                pat == pattern@,
                route_view(rest@) == old_rs.skip(n),
                route_view(kept@) == without_pattern(old_rs.take(n), pat),
                removed == (exists|w: int| 0 <= w < n && (#[trigger] old_rs[w]).0 == pat),
            decreases rest@.len(),
        {
            let ghost before_rest = rest@;
            let ghost before_kept = kept@;
            let route = rest.remove(0);
            proof {
                assert(before_rest.len() > 0);
                assert(old_rs.skip(n).len() == route_view(before_rest).len());
                assert(n < old_rs.len());
                assert(route_view(before_rest)[0] == old_rs.skip(n)[0]);
                assert(old_rs.skip(n)[0] == old_rs[n]);
                assert(route_view(before_rest)[0] == (route.0.spec_pattern(), route.1));
                assert(rest@ == before_rest.remove(0));
                assert forall|j: int| 0 <= j < rest@.len() implies #[trigger] route_view(rest@)[j] == old_rs.skip(n + 1)[j] by {
                    assert(rest@[j] == before_rest[j + 1]);
                    assert(route_view(before_rest)[j + 1] == old_rs.skip(n)[j + 1]);
                }
                assert(route_view(rest@) =~= old_rs.skip(n + 1));
                assert(old_rs.take(n + 1).drop_last() =~= old_rs.take(n));
                assert(old_rs.take(n + 1).last() == old_rs[n]);
            }
            let same = same_text(route.0.pattern(), pattern);
            if same {
                removed = true;
            } else {
                kept.push(route);
            }
            proof {
                reveal(Seq::filter);
                let t = old_rs.take(n + 1);
                let f = |r: (Seq<char>, H)| r.0 != pat;
                assert(t.filter(f) == (if f(t.last()) {
                    t.drop_last().filter(f).push(t.last())
                } else {
                    t.drop_last().filter(f)
                }));
                if !same {
                    assert(route_view(kept@) =~= route_view(before_kept).push(old_rs[n]));
                }
                if same {
                    assert(old_rs[n].0 == pat);
                }
                if exists|w: int| 0 <= w < n + 1 && (#[trigger] old_rs[w]).0 == pat {
                    let w = choose|w: int| 0 <= w < n + 1 && (#[trigger] old_rs[w]).0 == pat;
                    if w < n {
                        assert(exists|w: int| 0 <= w < n && (#[trigger] old_rs[w]).0 == pat);
                    }
                }
                n = n + 1;
            }
        }
        proof {
            assert(old_rs.skip(n).len() == 0);
            assert(old_rs.take(n) =~= old_rs);
            let ps = old_rs.map_values(|r: (Seq<char>, H)| r.0);
            if removed {
                let w = choose|w: int| 0 <= w < n && (#[trigger] old_rs[w]).0 == pat;
                assert(ps[w] == pat);
            }
            if ps.contains(pat) {
                let w = choose|w: int| 0 <= w < ps.len() && ps[w] == pat;
                assert(old_rs[w].0 == pat);
            }
        }
        self.routes = kept;
        removed
    }

    /// Registers a handler for `pattern`, replacing any existing route with
    /// the same pattern; the route goes last.
    pub fn add_route(&mut self, pattern: &str, handler: H)
        ensures
            final(self).spec_routes() == without_pattern(old(self).spec_routes(), pattern@).push((pattern@, handler)),
    {
        self.remove_route(pattern);
        let ghost before = self.routes@;
        self.routes.push((OscAddressMatcher::new(pattern), handler));
        proof {
            assert(route_view(self.routes@) =~= route_view(before).push((pattern@, handler)));
        }
    }

    /// The registered patterns, in registration order.
    pub fn patterns(&self) -> (v: Vec<&str>)
        ensures
            v@.len() == self.spec_routes().len(),
            forall|i: int| 0 <= i < v@.len() ==> #[trigger] v@[i]@ == self.spec_routes()[i].0,
    {
        let mut v: Vec<&str> = Vec::new();
        let mut i: usize = 0;
        while i < self.routes.len()
            invariant
                i <= self.routes@.len(),
                v@.len() == i,
                forall|j: int| 0 <= j < i ==> #[trigger] v@[j]@ == self.spec_routes()[j].0,
            decreases self.routes@.len() - i,
        {
            v.push(self.routes[i].0.pattern());
            i += 1;
        }
        v
    }

    /// The positions of the routes whose pattern matches `address`, in
    /// registration order.
    pub fn matching_routes(&self, address: &str) -> (v: Vec<usize>)
        ensures
            forall|j: int| 0 <= j < v@.len() ==> #[trigger] v@[j] < self.spec_routes().len(),
            forall|j: int, k: int| 0 <= j < k < v@.len() ==> v@[j] < v@[k],
            forall|i: int|
                0 <= i < self.spec_routes().len() ==> (v@.contains(i as usize) <==> spec_matches(
                    vstd::utf8::encode_utf8((#[trigger] self.spec_routes()[i]).0),
                    address.spec_bytes(),
                )),
    {
        let mut v: Vec<usize> = Vec::new();
        let mut i: usize = 0;
        while i < self.routes.len()
            invariant
                i <= self.routes@.len(),
                forall|j: int| 0 <= j < v@.len() ==> #[trigger] v@[j] < i,
                forall|j: int, k: int| 0 <= j < k < v@.len() ==> v@[j] < v@[k],
                forall|q: int|
                    0 <= q < i ==> (v@.contains(q as usize) <==> spec_matches(
                        vstd::utf8::encode_utf8((#[trigger] self.spec_routes()[q]).0),
                        address.spec_bytes(),
                    )),
            decreases self.routes@.len() - i,
        {
            let ghost before = v@;
            if self.routes[i].0.matches(address) {
                v.push(i);
                proof {
                    assert(v@[v@.len() - 1] == i);
                    assert forall|q: int| 0 <= q < i + 1 implies (v@.contains(q as usize) <==> spec_matches(
                        vstd::utf8::encode_utf8((#[trigger] self.spec_routes()[q]).0),
                        address.spec_bytes(),
                    )) by {
                        if v@.contains(q as usize) && q < i {
                            let w = choose|w: int| 0 <= w < v@.len() && v@[w] == q as usize;
                            if w < before.len() {
                                assert(before[w] == q as usize);
                            }
                        }
                        if q < i && before.contains(q as usize) {
                            let w = choose|w: int| 0 <= w < before.len() && before[w] == q as usize;
                            assert(v@[w] == q as usize);
                        }
                    }
                }
            } else {
                proof {
                    assert(!v@.contains(i));
                }
            }
            i += 1;
        }
        v
    }

    /// The handler of route `index`.
    pub fn handler_mut(&mut self, index: usize) -> (h: &mut H)
        requires
            index < old(self).spec_routes().len(),
        ensures
            *h == old(self).spec_routes()[index as int].1,
            final(self).spec_routes() == old(self).spec_routes().update(
                index as int,
                (old(self).spec_routes()[index as int].0, *final(h)),
            ),
    {
        let ghost before = self.routes@;
        let entry = &mut self.routes[index];
        let h = &mut entry.1;
        proof {
            assert(route_view(before.update(index as int, (before[index as int].0, *final(h)))) =~= route_view(
                before,
            ).update(index as int, (route_view(before)[index as int].0, *final(h))));
        }
        h
    }
}

} // verus!
