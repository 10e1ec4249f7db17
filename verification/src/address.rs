//! OSC address pattern matching.
//!
//! Implements the OSC 1.0 pattern characters (`?`, `*`, `[...]` with `!`
//! negation and `a-z` ranges, `{a,b}` alternation) plus the OSC 1.1 `//`
//! recursive-any-parts wildcard.
//!
//! Matching spends one unit of a step budget on every (re)entry into the
//! matcher; once the budget is spent, the attempt in progress fails. The
//! spec functions below define that budgeted semantics exactly: each
//! returns whether the rest of the pattern matches, and the budget left.
use vstd::prelude::*;
use vstd::string::StringSliceAdditionalSpecFns;

verus! {

/// Patterns longer than this never match.
pub const MAX_PATTERN_LEN: usize = 1024;

/// Total match-step budget per `matches()` call.
pub const MAX_MATCH_STEPS: u32 = 10_000;

/// The smaller of a budget left and the budget before.
pub open spec fn clamp(left: nat, before: nat) -> nat {
    if left <= before {
        left
    } else {
        before
    }
}

/// Matching `p[pi..]` against `a[ai..]` with budget `b`: one step is spent
/// on entry, and an empty budget fails.
pub open spec fn spec_match_parts(p: Seq<u8>, pi: int, a: Seq<u8>, ai: int, b: nat) -> (bool, nat)
    decreases b, 0int, 0int,
{
    if b == 0 {
        (false, 0)
    } else {
        spec_match_run(p, pi, a, ai, (b - 1) as nat)
    }
}

/// The literal run from `p[pi]` on: `?`, `[...]` and plain characters
/// consume one address byte each; `*`, `//` and `{` hand over to their
/// own matchers; the end of the pattern matches the end of the address.
pub open spec fn spec_match_run(p: Seq<u8>, pi: int, a: Seq<u8>, ai: int, b: nat) -> (bool, nat)
    decreases b, 3int, p.len() - pi,
{
    if pi < 0 || pi >= p.len() {
        (ai == a.len(), b)
    } else {
        let pc = p[pi];
        if pc == 0x3F {
            // '?'
            if ai < 0 || ai >= a.len() || a[ai] == 0x2F {
                (false, b)
            } else {
                spec_match_run(p, pi + 1, a, ai + 1, b)
            }
        } else if pc == 0x2A {
            // '*'
            spec_match_star(p, pi + 1, a, ai, ai, b)
        } else if pc == 0x2F && pi + 1 < p.len() && p[pi + 1] == 0x2F {
            // '//'
            spec_match_slashes(p, pi + 2, a, ai, b)
        } else if pc == 0x5B {
            // '['
            if ai < 0 || ai >= a.len() {
                (false, b)
            } else {
                match spec_char_class(p, pi, a[ai]) {
                    Some(next) => {
                        if pi < next <= p.len() {
                            spec_match_run(p, next, a, ai + 1, b)
                        } else {
                            (false, b)
                        }
                    },
                    None => (false, b),
                }
            }
        } else if pc == 0x7B {
            // '{'
            spec_match_alternation(p, pi, a, ai, b)
        } else {
            if ai < 0 || ai >= a.len() || a[ai] != pc {
                (false, b)
            } else {
                spec_match_run(p, pi + 1, a, ai + 1, b)
            }
        }
    }
}

/// `*` at the end of the run: tries the rest of the pattern from address
/// positions `k, k + 1, ...` in turn, stopping before the part's end is
/// crossed (a `*` never matches a `/`).
pub open spec fn spec_match_star(p: Seq<u8>, pi: int, a: Seq<u8>, ai: int, k: int, b: nat) -> (
    bool,
    nat,
)
    decreases b, 2int, a.len() + 1 - k,
{
    if k < ai || k > a.len() || (k > ai && a[k - 1] == 0x2F) {
        (false, b)
    } else {
        let (r, left) = spec_match_parts(p, pi, a, k, b);
        if r {
            (true, left)
        } else {
            spec_match_star(p, pi, a, ai, k + 1, clamp(left, b))
        }
    }
}

/// `//`: tries the rest of the pattern from the current position, then
/// from the end of the address, then from each position just after a `/`.
pub open spec fn spec_match_slashes(p: Seq<u8>, pi: int, a: Seq<u8>, ai: int, b: nat) -> (bool, nat)
    decreases b, 2int, a.len() + 2,
{
    let (r1, b1) = spec_match_parts(p, pi, a, ai, b);
    if r1 {
        (true, b1)
    } else {
        let (r2, b2) = spec_match_parts(p, pi, a, a.len() as int, clamp(b1, b));
        if r2 {
            (true, b2)
        } else {
            spec_match_after_slashes(p, pi, a, ai + 1, clamp(b2, b))
        }
    }
}

/// The part starts of `//`: the rest of the pattern from each position
/// `k < a.len()` that follows a `/`, in turn.
pub open spec fn spec_match_after_slashes(p: Seq<u8>, pi: int, a: Seq<u8>, k: int, b: nat) -> (
    bool,
    nat,
)
    decreases b, 1int, a.len() - k,
{
    if k >= a.len() || k < 1 {
        (false, b)
    } else if a[k - 1] == 0x2F {
        let (r, left) = spec_match_parts(p, pi, a, k, b);
        if r {
            (true, left)
        } else {
            spec_match_after_slashes(p, pi, a, k + 1, clamp(left, b))
        }
    } else {
        spec_match_after_slashes(p, pi, a, k + 1, b)
    }
}

/// The class `[...]` at `p[pi]` against `ch`: the index just past its `]`
/// when `ch` matches it, `None` when it does not or the class is
/// unterminated.
pub open spec fn spec_char_class(p: Seq<u8>, pi: int, ch: u8) -> Option<int> {
    let negated = pi + 1 < p.len() && p[pi + 1] == 0x21;
    let first = if negated {
        pi + 2
    } else {
        pi + 1
    };
    spec_class_scan(p, pi, negated, first, false, ch)
}

/// Scans a class from `p[i]` on, `matched` telling whether `ch` has
/// matched an earlier member.
pub open spec fn spec_class_scan(p: Seq<u8>, pi: int, negated: bool, i: int, matched: bool, ch: u8) -> Option<int>
    decreases p.len() - i,
{
    if i < 0 || i >= p.len() {
        None
    } else if p[i] == 0x5D {
        // ']'
        if matched != negated {
            Some(i + 1)
        } else {
            None
        }
    } else if p[i] == 0x2D && i + 1 < p.len() && p[i + 1] != 0x5D && i > pi + 1 + (if negated {
        1int
    } else {
        0int
    }) {
        // a range 'x-y', after at least one member
        let m = matched || (p[i - 1] <= ch && ch <= p[i + 1]);
        spec_class_scan(p, pi, negated, i + 2, m, ch)
    } else {
        spec_class_scan(p, pi, negated, i + 1, matched || p[i] == ch, ch)
    }
}

/// Scans the items of an alternation from `p[i]` on, the current item
/// starting at `start` and the items before it in `acc`: the (start, end)
/// spans of all items and the index of the closing `}`, or `None` when
/// the alternation is unterminated.
pub open spec fn spec_alt_scan(p: Seq<u8>, start: int, i: int, acc: Seq<(int, int)>) -> Option<(Seq<(int, int)>, int)>
    decreases p.len() - i,
{
    if i < 0 || i >= p.len() {
        None
    } else if p[i] == 0x7D {
        Some((acc.push((start, i)), i))
    } else if p[i] == 0x2C {
        spec_alt_scan(p, i + 1, i + 1, acc.push((start, i)))
    } else {
        spec_alt_scan(p, start, i + 1, acc)
    }
}

/// Whether `a[ai..]` begins with `p[s..e]`.
pub open spec fn starts_with_at(a: Seq<u8>, ai: int, p: Seq<u8>, s: int, e: int) -> bool {
    0 <= ai && 0 <= s <= e <= p.len() && ai + (e - s) <= a.len() && a.subrange(ai, ai + (e - s))
        == p.subrange(s, e)
}

/// `{...}` at `p[pi]`: each alternative in turn that the address continues
/// with is tried with the rest of the pattern after `}`; an unterminated
/// alternation fails.
pub open spec fn spec_match_alternation(p: Seq<u8>, pi: int, a: Seq<u8>, ai: int, b: nat) -> (bool, nat)
    decreases b, 2int, 0int,
{
    match spec_alt_scan(p, pi + 1, pi + 1, Seq::empty()) {
        None => (false, b),
        Some((alts, close)) => spec_try_alternatives(p, alts, 0, close + 1, a, ai, b),
    }
}

/// Tries the alternatives `alts[j..]` in turn.
pub open spec fn spec_try_alternatives(
    p: Seq<u8>,
    alts: Seq<(int, int)>,
    j: int,
    after: int,
    a: Seq<u8>,
    ai: int,
    b: nat,
) -> (bool, nat)
    decreases b, 1int, alts.len() - j,
{
    if j < 0 || j >= alts.len() {
        (false, b)
    } else {
        let (s, e) = alts[j];
        if starts_with_at(a, ai, p, s, e) {
            let (r, left) = spec_match_parts(p, after, a, ai + (e - s), b);
            if r {
                (true, left)
            } else {
                spec_try_alternatives(p, alts, j + 1, after, a, ai, clamp(left, b))
            }
        } else {
            spec_try_alternatives(p, alts, j + 1, after, a, ai, b)
        }
    }
}

/// Whether `pattern` matches `address`: patterns over 1024 bytes never
/// do; otherwise the budgeted match with 10000 steps decides.
pub open spec fn spec_matches(pattern: Seq<u8>, address: Seq<u8>) -> bool {
    pattern.len() <= 1024 && spec_match_parts(pattern, 0, address, 0, 10000).0
}

/// Matching is bounded: a pattern longer than 1024 bytes matches no
/// address.
pub proof fn lemma_long_pattern_never_matches(pattern: Seq<u8>, address: Seq<u8>)
    requires
        pattern.len() > 1024,
    ensures
        !spec_matches(pattern, address),
{
}

/// A range `[x-y]` holds both its ends and everything between: the
/// one-class pattern `/[x-y]` matches the one-character address `/c`
/// exactly when `x <= c <= y` (for a range that is not negated and whose
/// ends are not `]`; when `x > y` the range is empty and only the
/// character `x` before the `-` matches).
pub proof fn lemma_range_class_matches(x: u8, y: u8, c: u8)
    requires
        x != 0x21,
        x != 0x5D,
        y != 0x5D,
    ensures
        spec_matches(seq![0x2Fu8, 0x5Bu8, x, 0x2Du8, y, 0x5Du8], seq![0x2Fu8, c]) <==> (c == x || (x <= c
            && c <= y)),
        x <= y ==> (spec_matches(seq![0x2Fu8, 0x5Bu8, x, 0x2Du8, y, 0x5Du8], seq![0x2Fu8, c]) <==> (x <= c
            && c <= y)),
{
    let p = seq![0x2Fu8, 0x5Bu8, x, 0x2Du8, y, 0x5Du8];
    let a = seq![0x2Fu8, c];
    let m = x == c || (x <= c && c <= y);
    assert(spec_class_scan(p, 1, false, 5, m, c) == (if m {
        Some(6int)
    } else {
        None
    }));
    assert(spec_class_scan(p, 1, false, 3, x == c, c) == spec_class_scan(p, 1, false, 5, m, c));
    assert(spec_class_scan(p, 1, false, 2, false, c) == spec_class_scan(p, 1, false, 3, x == c, c));
    assert(spec_char_class(p, 1, c) == spec_class_scan(p, 1, false, 2, false, c));
    assert(spec_match_run(p, 6, a, 2, 9999) == (true, 9999nat));
    assert(spec_match_run(p, 1, a, 1, 9999).0 == m);
    assert(spec_match_run(p, 0, a, 0, 9999).0 == m);
    assert(spec_match_parts(p, 0, a, 0, 10000).0 == m);
    assert(p.len() == 6);
}

/// A negated range `[!x-y]` holds exactly the characters that `[x-y]`
/// does not: `/[!x-y]` matches `/c` exactly when `c` is neither `x` nor
/// between `x` and `y` (for ends that are not `]`).
pub proof fn lemma_negated_class_matches(x: u8, y: u8, c: u8)
    requires
        x != 0x5D,
        y != 0x5D,
    ensures
        spec_matches(seq![0x2Fu8, 0x5Bu8, 0x21u8, x, 0x2Du8, y, 0x5Du8], seq![0x2Fu8, c]) <==> !(c == x || (x
            <= c && c <= y)),
{
    let p = seq![0x2Fu8, 0x5Bu8, 0x21u8, x, 0x2Du8, y, 0x5Du8];
    let a = seq![0x2Fu8, c];
    let m = x == c || (x <= c && c <= y);
    assert(spec_class_scan(p, 1, true, 6, m, c) == (if !m {
        Some(7int)
    } else {
        None
    }));
    assert(spec_class_scan(p, 1, true, 4, x == c, c) == spec_class_scan(p, 1, true, 6, m, c));
    assert(spec_class_scan(p, 1, true, 3, false, c) == spec_class_scan(p, 1, true, 4, x == c, c));
    assert(spec_char_class(p, 1, c) == spec_class_scan(p, 1, true, 3, false, c));
    assert(spec_match_run(p, 7, a, 2, 9999) == (true, 9999nat));
    assert(spec_match_run(p, 1, a, 1, 9999).0 == !m);
    assert(spec_match_run(p, 0, a, 0, 9999).0 == !m);
    assert(spec_match_parts(p, 0, a, 0, 10000).0 == !m);
    assert(p.len() == 7);
}

/// A pattern without wildcard characters: no `?`, `*`, `[`, `{` and no
/// `//`.
pub open spec fn is_literal_pattern(p: Seq<u8>) -> bool {
    forall|i: int|
        0 <= i < p.len() ==> #[trigger] p[i] != 0x3F && p[i] != 0x2A && p[i] != 0x5B && p[i] != 0x7B && !(
        p[i] == 0x2F && i + 1 < p.len() && p[i + 1] == 0x2F)
}

/// A literal run matches exactly the identical rest of the address, and
/// spends nothing.
pub proof fn lemma_literal_run(p: Seq<u8>, pi: int, a: Seq<u8>, ai: int, b: nat)
    requires
        is_literal_pattern(p),
        0 <= pi <= p.len(),
        0 <= ai <= a.len(),
    ensures
        spec_match_run(p, pi, a, ai, b) == (p.subrange(pi, p.len() as int) == a.subrange(ai, a.len() as int), b),
    decreases p.len() - pi,
{
    if pi < p.len() {
        assert(p[pi] != 0x3F && p[pi] != 0x2A && p[pi] != 0x5B && p[pi] != 0x7B);
        assert(!(p[pi] == 0x2F && pi + 1 < p.len() && p[pi + 1] == 0x2F));
        if ai < a.len() && a[ai] == p[pi] {
            lemma_literal_run(p, pi + 1, a, ai + 1, b);
            let ps = p.subrange(pi, p.len() as int);
            let qs = a.subrange(ai, a.len() as int);
            let pt = p.subrange(pi + 1, p.len() as int);
            let qt = a.subrange(ai + 1, a.len() as int);
            if pt == qt {
                assert(pt.len() == qt.len());
                assert(ps.len() == pt.len() + 1);
                assert(qs.len() == qt.len() + 1);
                assert forall|j: int| 0 <= j < ps.len() implies ps[j] == qs[j] by {
                    if j > 0 {
                        assert(ps[j] == pt[j - 1]);
                        assert(qs[j] == qt[j - 1]);
                    }
                }
                assert(ps =~= qs);
            }
            if ps == qs {
                assert(pt =~= ps.subrange(1, ps.len() as int));
                assert(qt =~= qs.subrange(1, qs.len() as int));
            }
        } else if ai < a.len() {
            assert(p.subrange(pi, p.len() as int)[0] != a.subrange(ai, a.len() as int)[0]);
        } else {
            assert(a.subrange(ai, a.len() as int).len() == 0);
        }
    } else {
        assert(p.subrange(pi, p.len() as int).len() == 0);
        if ai < a.len() {
            assert(a.subrange(ai, a.len() as int).len() != 0);
        } else {
            assert(a.subrange(ai, a.len() as int) =~= p.subrange(pi, p.len() as int));
        }
    }
}

/// A pattern without wildcards (and within the length limit) matches an
/// address exactly when the two are the same.
pub proof fn lemma_literal_pattern_matches(p: Seq<u8>, a: Seq<u8>)
    requires
        is_literal_pattern(p),
        p.len() <= 1024,
    ensures
        spec_matches(p, a) <==> p == a,
{
    lemma_literal_run(p, 0, a, 0, 9999);
    assert(p.subrange(0, p.len() as int) =~= p);
    assert(a.subrange(0, a.len() as int) =~= a);
}

/// A compiled OSC address pattern (e.g. `/track/*/volume`).
#[derive(Debug, Clone, PartialEq, Eq, Hash)]
pub struct OscAddressMatcher {
    pattern: String,
}

impl OscAddressMatcher {
    /// The pattern's characters.
    pub closed spec fn spec_pattern(&self) -> Seq<char> {
        self.pattern@
    }

    /// Creates a matcher for the given pattern.
    pub fn new(pattern: &str) -> (m: OscAddressMatcher)
        ensures
            m.spec_pattern() == pattern@,
    {
        OscAddressMatcher { pattern: pattern.to_string() }
    }

    /// The pattern this matcher holds.
    pub fn pattern(&self) -> (s: &str)
        ensures
            s@ == self.spec_pattern(),
    {
        self.pattern.as_str()
    }

    /// Checks whether `address` matches the pattern.
    ///
    /// Matching is bounded: patterns longer than 1024 bytes never match,
    /// and backtracking is cut off after a fixed step budget (bounded-false
    /// on hostile inputs, never a hang).
    pub fn matches(&self, address: &str) -> (r: bool)
        ensures
            r == spec_matches(vstd::utf8::encode_utf8(self.spec_pattern()), address.spec_bytes()),
    {
        let p = self.pattern.as_str().as_bytes();
        if p.len() > MAX_PATTERN_LEN {
            return false;
        }
        let mut budget: u32 = MAX_MATCH_STEPS;
        let a = address.as_bytes();
        match_parts(p, 0, a, 0, &mut budget)
    }
}

/// Matches `pattern[pi..]` against `address[ai..]`, spending from
/// `budget` on every step (byte-wise; all OSC pattern characters are ASCII).
fn match_parts(pattern: &[u8], pi: usize, address: &[u8], ai: usize, budget: &mut u32) -> (r: bool)
    requires
        ai <= address@.len(),
    ensures
        *final(budget) <= *old(budget),
        (r, *final(budget) as nat) == spec_match_parts(pattern@, pi as int, address@, ai as int, *old(budget) as nat),
    decreases *old(budget), 0int, 0int,
{
    if *budget == 0 {
        return false;  // budget exhausted: treat as no-match
    }
    *budget -= 1;
    match_run(pattern, pi, address, ai, budget)
}

/// The literal run of the matcher; see [`spec_match_run`].
fn match_run(pattern: &[u8], pi: usize, address: &[u8], ai: usize, budget: &mut u32) -> (r: bool)
    requires
        ai <= address@.len(),
    ensures
        *final(budget) <= *old(budget),
        (r, *final(budget) as nat) == spec_match_run(pattern@, pi as int, address@, ai as int, *old(budget) as nat),
    decreases *old(budget), 3int, pattern@.len() - pi,
{
    if pi >= pattern.len() {
        return ai == address.len();
    }
    let pc = pattern[pi];
    if pc == 0x3F {
        if ai >= address.len() || address[ai] == 0x2F {
            false
        } else {
            match_run(pattern, pi + 1, address, ai + 1, budget)
        }
    } else if pc == 0x2A {
        match_star(pattern, pi + 1, address, ai, budget)
    } else if pc == 0x2F && pi + 1 < pattern.len() && pattern[pi + 1] == 0x2F {
        match_slashes(pattern, pi + 2, address, ai, budget)
    } else if pc == 0x5B {
        if ai >= address.len() {
            return false;
        }
        match match_char_class(pattern, pi, address[ai]) {
            Some(next_pi) => {
                if pi < next_pi && next_pi <= pattern.len() {
                    match_run(pattern, next_pi, address, ai + 1, budget)
                } else {
                    false
                }
            },
            None => false,
        }
    } else if pc == 0x7B {
        match_alternation(pattern, pi, address, ai, budget)
    } else {
        if ai >= address.len() || address[ai] != pc {
            false
        } else {
            match_run(pattern, pi + 1, address, ai + 1, budget)
        }
    }
}

/// `*`: tries the rest of the pattern from each address position of the
/// current part.
fn match_star(pattern: &[u8], pi: usize, address: &[u8], ai: usize, budget: &mut u32) -> (r: bool)
    requires
        ai <= address@.len(),
    ensures
        *final(budget) <= *old(budget),
        (r, *final(budget) as nat) == spec_match_star(
            pattern@,
            pi as int,
            address@,
            ai as int,
            ai as int,
            *old(budget) as nat,
        ),
    decreases *old(budget), 2int, 0int,
{
    let ghost b0 = *budget as nat;
    let mut k: usize = ai;
    loop
        invariant
            ai <= k <= address@.len(),
            *budget as nat <= b0,
            b0 == *old(budget) as nat,
            spec_match_star(pattern@, pi as int, address@, ai as int, ai as int, b0) == spec_match_star(
                pattern@,
                pi as int,
                address@,
                ai as int,
                k as int,
                *budget as nat,
            ),
        decreases address@.len() - k,
    {
        if k > ai && address[k - 1] == 0x2F {
            return false;
        }
        let ghost before = *budget as nat;
        if match_parts(pattern, pi, address, k, budget) {
            return true;
        }
        proof {
            assert(clamp(*budget as nat, before) == *budget as nat);
            assert(k == address@.len() ==> spec_match_star(pattern@, pi as int, address@, ai as int, k + 1, *budget as nat) == (false, *budget as nat));
        }
        if k == address.len() {
            return false;
        }
        k += 1;
    }
}

/// `//`: tries the rest of the pattern from the current position, the end
/// of the address, and each part start after a `/`.
fn match_slashes(pattern: &[u8], pi: usize, address: &[u8], ai: usize, budget: &mut u32) -> (r: bool)
    requires
        ai <= address@.len(),
    ensures
        *final(budget) <= *old(budget),
        (r, *final(budget) as nat) == spec_match_slashes(
            pattern@,
            pi as int,
            address@,
            ai as int,
            *old(budget) as nat,
        ),
    decreases *old(budget), 2int, address@.len() + 2,
{
    let ghost b0 = *budget as nat;
    if match_parts(pattern, pi, address, ai, budget) {
        return true;
    }
    let ghost b1 = *budget as nat;
    if match_parts(pattern, pi, address, address.len(), budget) {
        return true;
    }
    if ai >= address.len() {
        return false;
    }
    let mut k: usize = ai + 1;
    while k < address.len()
        invariant
            ai + 1 <= k <= address@.len(),
            *budget as nat <= b0,
            b0 == *old(budget) as nat,
            spec_match_slashes(pattern@, pi as int, address@, ai as int, b0) == spec_match_after_slashes(
                pattern@,
                pi as int,
                address@,
                k as int,
                *budget as nat,
            ),
        decreases address@.len() - k,
    {
        if address[k - 1] == 0x2F {
            let ghost before = *budget as nat;
            if match_parts(pattern, pi, address, k, budget) {
                return true;
            }
        }
        k += 1;
    }
    false
}

/// Matches a `[...]` class at `pattern[pi]` against `ch`. On success returns
/// the pattern index just past the closing `]`.
fn match_char_class(pattern: &[u8], pi: usize, ch: u8) -> (r: Option<usize>)
    requires
        pi < pattern@.len(),
    ensures
        r matches Some(n) ==> spec_char_class(pattern@, pi as int, ch) == Some(n as int),
        r is None ==> spec_char_class(pattern@, pi as int, ch) is None,
{
    let len = pattern.len();
    let mut i: usize = pi + 1;
    let negated = i < pattern.len() && pattern[i] == 0x21;
    if negated {
        i += 1;
    }
    let ghost first = i as int;
    let mut matched = false;
    while i < pattern.len()
        invariant
            pi < pattern@.len(),
            pi + 1 <= i,
            negated == (pi + 1 < pattern@.len() && pattern@[pi + 1] == 0x21),
            spec_char_class(pattern@, pi as int, ch) == spec_class_scan(
                pattern@,
                pi as int,
                negated,
                i as int,
                matched,
                ch,
            ),
        decreases pattern@.len() - i,
    {
        let c = pattern[i];
        let extra: usize = if negated {
            1
        } else {
            0
        };
        if c == 0x5D {
            if matched != negated {
                return Some(i + 1);
            } else {
                return None;
            }
        } else if c == 0x2D && i + 1 < pattern.len() && pattern[i + 1] != 0x5D && i > pi + 1 + extra {
            let start = pattern[i - 1];
            let end = pattern[i + 1];
            if start <= ch && ch <= end {
                matched = true;
            }
            i += 2;
        } else {
            if c == ch {
                matched = true;
            }
            i += 1;
        }
    }
    None  // unterminated class
}

/// Attempts a `{a,b,c}` alternation at `pattern[pi]`.
fn match_alternation(pattern: &[u8], pi: usize, address: &[u8], ai: usize, budget: &mut u32) -> (r: bool)
    requires
        ai <= address@.len(),
        pi < pattern@.len(),
    ensures
        *final(budget) <= *old(budget),
        (r, *final(budget) as nat) == spec_match_alternation(
            pattern@,
            pi as int,
            address@,
            ai as int,
            *old(budget) as nat,
        ),
    decreases *old(budget), 2int, 0int,
{
    let ghost b0 = *budget as nat;
    let len = pattern.len();
    let mut alternatives: Vec<(usize, usize)> = Vec::new();
    let mut start: usize = pi + 1;
    let mut i: usize = pi + 1;
    proof {
        assert(alternatives@.map_values(|x: (usize, usize)| (x.0 as int, x.1 as int)) =~= Seq::<(int, int)>::empty());
    }
    while i < pattern.len() && pattern[i] != 0x7D
        invariant
            pi + 1 <= start <= i,
            i <= pattern@.len(),
            spec_alt_scan(pattern@, pi + 1, pi + 1, Seq::empty()) == spec_alt_scan(
                pattern@,
                start as int,
                i as int,
                alternatives@.map_values(|x: (usize, usize)| (x.0 as int, x.1 as int)),
            ),
            forall|q: int| 0 <= q < alternatives@.len() ==> #[trigger] alternatives@[q].0 <= alternatives@[q].1
                < i,
        decreases pattern@.len() - i,
    {
        let ghost top = alternatives@;
        let ghost old_i = i;
        if pattern[i] == 0x2C {
            let ghost prev = alternatives@;
            alternatives.push((start, i));
            proof {
                assert(alternatives@.map_values(|x: (usize, usize)| (x.0 as int, x.1 as int)) =~= prev.map_values(
                    |x: (usize, usize)| (x.0 as int, x.1 as int),
                ).push((start as int, i as int)));
            }
            start = i + 1;
        }
        i += 1;
        proof {
            assert forall|q: int| 0 <= q < alternatives@.len() implies #[trigger] alternatives@[q].0
                <= alternatives@[q].1 < i by {
                if q < top.len() {
                    assert(alternatives@[q] == top[q]);
                    assert(top[q].0 <= top[q].1 < old_i);
                }
            }
        }
    }
    if i >= pattern.len() {
        return false;  // unterminated alternation
    }
    let ghost prev = alternatives@;
    alternatives.push((start, i));
    let after_class = i + 1;
    let ghost alts = alternatives@.map_values(|x: (usize, usize)| (x.0 as int, x.1 as int));
    proof {
        assert(alts =~= prev.map_values(|x: (usize, usize)| (x.0 as int, x.1 as int)).push((start as int, i as int)));
    }
    let mut j: usize = 0;
    while j < alternatives.len()
        invariant
            j <= alternatives@.len(),
            after_class == i + 1,
            i < pattern@.len(),
            alts == alternatives@.map_values(|x: (usize, usize)| (x.0 as int, x.1 as int)),
            forall|q: int| 0 <= q < alternatives@.len() ==> #[trigger] alternatives@[q].0 <= alternatives@[q].1
                <= i,
            *budget as nat <= b0,
            b0 == *old(budget) as nat,
            spec_match_alternation(pattern@, pi as int, address@, ai as int, b0) == spec_try_alternatives(
                pattern@,
                alts,
                j as int,
                after_class as int,
                address@,
                ai as int,
                *budget as nat,
            ),
            ai <= address@.len(),
        decreases alternatives@.len() - j,
    {
        let (s, e) = alternatives[j];
        let n = e - s;
        if n <= address.len() - ai && crate::wire::bytes_match_at(address, ai, slice_part(pattern, s, e)) {
            let ghost before = *budget as nat;
            if match_parts(pattern, after_class, address, ai + n, budget) {
                return true;
            }
        }
        j += 1;
    }
    false
}

fn slice_part(pattern: &[u8], s: usize, e: usize) -> (r: &[u8])
    requires
        s <= e <= pattern@.len(),
    ensures
        r@ == pattern@.subrange(s as int, e as int),
{
    vstd::slice::slice_subrange(pattern, s, e)
}

} // verus!
