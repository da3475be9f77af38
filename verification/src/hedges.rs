//! Hedges: intensity modifiers applied to a membership degree.
//!
//! A hedge raises a degree to a fixed exponent: `very` squares, `extremely`
//! cubes, `somewhat` takes the square root and `slightly` the cube root.
//! Hedges chain: each one owns an optional inner hedge, applied first (but
//! only to positive degrees). In fixed point the powers are floor-rounded and
//! the roots are integer roots of the rescaled degree; `isqrt_spec` and
//! `icbrt_spec` state their exact values.

use vstd::prelude::*;

verus! {

use vstd::arithmetic::div_mod::{
    lemma_div_is_ordered,
    lemma_div_multiples_vanish,
    lemma_div_pos_is_pos,
    lemma_fundamental_div_mod,
};
use crate::{FuzzyError, SCALE};

/// The four canonical hedges, by exponent: 2, 3, 1/2 and 1/3.
#[derive(Debug, Clone, Copy, PartialEq, Eq, Structural)]
pub enum HedgeKind {
    Very,
    Extremely,
    Somewhat,
    Slightly,
}

/// A hedge and the chain of hedges it wraps; the outermost hedge is applied
/// last.
#[derive(Debug)]
pub struct Hedge {
    pub hedge: Option<Box<Hedge>>,
    pub kind: HedgeKind,
}

impl Clone for Hedge {
    /// A deep copy of the whole chain.
    fn clone(&self) -> (r: Self)
        ensures
            r == *self,
        decreases *self,
    {
        let hedge = match &self.hedge {
            Some(b) => Some(Box::new((**b).clone())),
            None => None,
        };
        Hedge { hedge, kind: self.kind }
    }
}

/// The integer square root: the greatest `r` with `r * r <= n`.
pub open spec fn isqrt_spec(n: int) -> int
    decreases n,
{
    if n <= 0 {
        0
    } else {
        let r = isqrt_spec(n - 1);
        if (r + 1) * (r + 1) <= n {
            r + 1
        } else {
            r
        }
    }
}

/// The integer cube root: the greatest `r` with `r * r * r <= n`.
pub open spec fn icbrt_spec(n: int) -> int
    decreases n,
{
    if n <= 0 {
        0
    } else {
        let r = icbrt_spec(n - 1);
        if (r + 1) * (r + 1) * (r + 1) <= n {
            r + 1
        } else {
            r
        }
    }
}

/// `isqrt_spec(n)` is the floor of the real square root.
pub proof fn lemma_isqrt_bounds(n: int)
    requires
        n >= 0,
    ensures
        isqrt_spec(n) >= 0,
        isqrt_spec(n) * isqrt_spec(n) <= n,
        n < (isqrt_spec(n) + 1) * (isqrt_spec(n) + 1),
    decreases n,
{
    if n > 0 {
        lemma_isqrt_bounds(n - 1);
        let r = isqrt_spec(n - 1);
        if (r + 1) * (r + 1) <= n {
            assert(n < (r + 2) * (r + 2)) by (nonlinear_arith)
                requires
                    n - 1 < (r + 1) * (r + 1),
                    r >= 0,
            ;
        }
    }
}

/// Any `r` with `r*r <= n < (r+1)*(r+1)` is `isqrt_spec(n)`.
pub proof fn lemma_isqrt_unique(n: int, r: int)
    requires
        n >= 0,
        r >= 0,
        r * r <= n,
        n < (r + 1) * (r + 1),
    ensures
        r == isqrt_spec(n),
{
    lemma_isqrt_bounds(n);
    let s = isqrt_spec(n);
    assert(!(r < s) && !(s < r)) by (nonlinear_arith)
        requires
            r >= 0,
            s >= 0,
            r * r <= n,
            n < (r + 1) * (r + 1),
            s * s <= n,
            n < (s + 1) * (s + 1),
    ;
}

/// `icbrt_spec(n)` is the floor of the real cube root.
pub proof fn lemma_icbrt_bounds(n: int)
    requires
        n >= 0,
    ensures
        icbrt_spec(n) >= 0,
        icbrt_spec(n) * icbrt_spec(n) * icbrt_spec(n) <= n,
        n < (icbrt_spec(n) + 1) * (icbrt_spec(n) + 1) * (icbrt_spec(n) + 1),
    decreases n,
{
    if n > 0 {
        lemma_icbrt_bounds(n - 1);
        let r = icbrt_spec(n - 1);
        if (r + 1) * (r + 1) * (r + 1) <= n {
            assert(n < (r + 2) * (r + 2) * (r + 2)) by (nonlinear_arith)
                requires
                    n - 1 < (r + 1) * (r + 1) * (r + 1),
                    r >= 0,
            ;
        }
    }
}

/// Any `r` with `r^3 <= n < (r+1)^3` is `icbrt_spec(n)`.
pub proof fn lemma_icbrt_unique(n: int, r: int)
    requires
        n >= 0,
        r >= 0,
        r * r * r <= n,
        n < (r + 1) * (r + 1) * (r + 1),
    ensures
        r == icbrt_spec(n),
{
    lemma_icbrt_bounds(n);
    let s = icbrt_spec(n);
    assert(!(r < s) && !(s < r)) by (nonlinear_arith)
        requires
            r >= 0,
            s >= 0,
            r * r * r <= n,
            n < (r + 1) * (r + 1) * (r + 1),
            s * s * s <= n,
            n < (s + 1) * (s + 1) * (s + 1),
    ;
}

/// One hedge exponent applied to a degree `y` in `[0, SCALE]`.
pub open spec fn pow_val(k: HedgeKind, y: int) -> int {
    match k {
        HedgeKind::Very => y * y / (SCALE as int),
        HedgeKind::Extremely => y * y * y / ((SCALE as int) * (SCALE as int)),
        HedgeKind::Somewhat => isqrt_spec(y * SCALE),
        HedgeKind::Slightly => icbrt_spec(y * SCALE * SCALE),
    }
}

/// A whole hedge chain applied to a degree `x`: the inner chain first (only
/// when `x` is positive), then this hedge's own exponent.
pub open spec fn hedge_val(h: Hedge, x: int) -> int
    decreases h,
{
    match h.hedge {
        Some(inner) => if x > 0 {
            pow_val(h.kind, hedge_val(*inner, x))
        } else {
            pow_val(h.kind, x)
        },
        None => pow_val(h.kind, x),
    }
}

/// A hedge exponent keeps a degree inside `[0, SCALE]`.
pub proof fn lemma_pow_val_bounds(k: HedgeKind, y: int)
    requires
        0 <= y <= SCALE,
    ensures
        0 <= pow_val(k, y) <= SCALE,
{
    let s = SCALE as int;
    match k {
        HedgeKind::Very => {
            assert(0 <= y * y <= s * s) by (nonlinear_arith)
                requires
                    0 <= y <= s,
            ;
            lemma_div_pos_is_pos(y * y, s);
            lemma_div_is_ordered(y * y, s * s, s);
            lemma_div_multiples_vanish(s, s);
        },
        HedgeKind::Extremely => {
            assert(0 <= y * y * y <= s * (s * s)) by (nonlinear_arith)
                requires
                    0 <= y <= s,
            ;
            lemma_div_pos_is_pos(y * y * y, s * s);
            lemma_div_is_ordered(y * y * y, s * (s * s), s * s);
            lemma_div_multiples_vanish(s, s * s);
        },
        HedgeKind::Somewhat => {
            lemma_isqrt_bounds(y * s);
            let r = isqrt_spec(y * s);
            assert(y * s <= s * s) by (nonlinear_arith)
                requires
                    0 <= y <= s,
            ;
            assert(r <= s) by (nonlinear_arith)
                requires
                    r >= 0,
                    s >= 0,
                    r * r <= s * s,
            ;
        },
        HedgeKind::Slightly => {
            lemma_icbrt_bounds(y * s * s);
            let r = icbrt_spec(y * s * s);
            assert(y * s * s <= s * (s * s)) by (nonlinear_arith)
                requires
                    0 <= y <= s,
            ;
            assert(r <= s) by (nonlinear_arith)
                requires
                    r >= 0,
                    s >= 0,
                    r * r * r <= s * (s * s),
            ;
        },
    }
}


/// The hedge names the rule language recognizes, in canonical order.
pub fn types() -> (r: Vec<&'static str>)
    ensures
        r@.len() == 4,
        r@[0]@ == "very"@,
        r@[1]@ == "extremely"@,
        r@[2]@ == "somewhat"@,
        r@[3]@ == "slightly"@,
{
    let mut v: Vec<&'static str> = Vec::new();
    v.push("very");
    v.push("extremely");
    v.push("somewhat");
    v.push("slightly");
    v
}

/// Apply a hedge chain to a degree.
pub fn compute(hedge: &Hedge, x: u64) -> (r: u64)
    requires
        x <= SCALE,
    ensures
        r == hedge_val(*hedge, x as int),
        r <= SCALE,
{
    hedge.compute(x)
}

/// A hedge chain keeps a degree inside `[0, SCALE]`.
pub proof fn lemma_hedge_val_bounds(h: Hedge, x: int)
    requires
        0 <= x <= SCALE,
    ensures
        0 <= hedge_val(h, x) <= SCALE,
    decreases h,
{
    match h.hedge {
        Some(inner) => {
            if x > 0 {
                lemma_hedge_val_bounds(*inner, x);
                lemma_pow_val_bounds(h.kind, hedge_val(*inner, x));
            } else {
                lemma_pow_val_bounds(h.kind, x);
            }
        },
        None => {
            lemma_pow_val_bounds(h.kind, x);
        },
    }
}

/// The names the rule language accepts for hedges.
pub open spec fn is_hedge_name(n: Seq<char>) -> bool {
    n == "very"@ || n == "extremely"@ || n == "somewhat"@ || n == "slightly"@
}

/// The hedge a recognized name denotes, tested in the same order as the
/// executable code.
pub open spec fn hedge_kind_of(n: Seq<char>) -> HedgeKind {
    if n == "very"@ {
        HedgeKind::Very
    } else if n == "extremely"@ {
        HedgeKind::Extremely
    } else if n == "somewhat"@ {
        HedgeKind::Somewhat
    } else {
        HedgeKind::Slightly
    }
}

/// Every name of the list is a recognized hedge name.
pub open spec fn hedge_names_ok(names: Seq<String>) -> bool {
    forall|i: int| 0 <= i < names.len() ==> is_hedge_name((#[trigger] names[i])@)
}

/// The chain a list of hedge names builds: each name wraps the chain of the
/// names before it, so the last name is the outermost hedge.
pub open spec fn chain_of(names: Seq<String>) -> Option<Box<Hedge>>
    decreases names.len(),
{
    if names.len() == 0 {
        None
    } else {
        Some(
            Box::new(
                Hedge { hedge: chain_of(names.drop_last()), kind: hedge_kind_of(names.last()@) },
            ),
        )
    }
}

/// Build the hedge chain a list of names describes, outermost last.
///
/// Returns `FuzzyError::UnknownIdentifier` exactly when some name is not a
/// recognized hedge name.
pub fn build_chain(names: &Vec<String>) -> (r: Result<Option<Box<Hedge>>, FuzzyError>)
    ensures
        (r is Ok) == hedge_names_ok(names@),
        r matches Ok(c) ==> c == chain_of(names@),
        r matches Err(e) ==> e == FuzzyError::UnknownIdentifier,
{
    let mut cur: Option<Box<Hedge>> = None;
    let mut i: usize = 0;
    proof {
        assert(names@.take(0) =~= Seq::<String>::empty());
    }
    while i < names.len()
        invariant
            0 <= i <= names@.len(),
            forall|j: int| 0 <= j < i ==> is_hedge_name((#[trigger] names@[j])@),
            cur == chain_of(names@.take(i as int)),
        decreases names@.len() - i,
    {
        let h = match Hedge::new(names[i].as_str(), cur) {
            Ok(h) => h,
            Err(e) => {
                return Err(e);
            },
        };
        proof {
            assert(names@.take(i as int + 1).drop_last() =~= names@.take(i as int));
            assert(names@.take(i as int + 1).last() == names@[i as int]);
        }
        cur = Some(Box::new(h));
        i += 1;
    }
    proof {
        assert(names@.take(names@.len() as int) =~= names@);
    }
    Ok(cur)
}

impl Hedge {
    /// Build the hedge named `name`, wrapping the chain `hedge`.
    ///
    /// Returns `FuzzyError::UnknownIdentifier` for a name outside the fixed
    /// set `very`, `extremely`, `somewhat`, `slightly`.
    pub fn new(name: &str, hedge: Option<Box<Hedge>>) -> (r: Result<Hedge, FuzzyError>)
        ensures
            (r is Ok) == is_hedge_name(name@),
            r matches Ok(h) ==> h.kind == hedge_kind_of(name@) && h.hedge == hedge,
            r matches Err(e) ==> e == FuzzyError::UnknownIdentifier,
    {
        let n = name.to_owned();
        if n == "very".to_owned() {
            Ok(Hedge::init_very(hedge))
        } else if n == "extremely".to_owned() {
            Ok(Hedge::init_extremely(hedge))
        } else if n == "somewhat".to_owned() {
            Ok(Hedge::init_somewhat(hedge))
        } else if n == "slightly".to_owned() {
            Ok(Hedge::init_slightly(hedge))
        } else {
            Err(FuzzyError::UnknownIdentifier)
        }
    }

    fn init(hedge: Option<Box<Hedge>>, kind: HedgeKind) -> (r: Hedge)
        ensures
            r.kind == kind,
            r.hedge == hedge,
    {
        Hedge { hedge, kind }
    }

    fn init_very(hedge: Option<Box<Hedge>>) -> (r: Hedge)
        ensures
            r.kind == HedgeKind::Very,
            r.hedge == hedge,
    {
        Hedge::init(hedge, HedgeKind::Very)
    }

    /// The cubing hedge.
    pub fn init_extremely(hedge: Option<Box<Hedge>>) -> (r: Hedge)
        ensures
            r.kind == HedgeKind::Extremely,
            r.hedge == hedge,
    {
        Hedge::init(hedge, HedgeKind::Extremely)
    }

    /// The square-root hedge.
    pub fn init_somewhat(hedge: Option<Box<Hedge>>) -> (r: Hedge)
        ensures
            r.kind == HedgeKind::Somewhat,
            r.hedge == hedge,
    {
        Hedge::init(hedge, HedgeKind::Somewhat)
    }

    /// The cube-root hedge.
    pub fn init_slightly(hedge: Option<Box<Hedge>>) -> (r: Hedge)
        ensures
            r.kind == HedgeKind::Slightly,
            r.hedge == hedge,
    {
        Hedge::init(hedge, HedgeKind::Slightly)
    }

    /// Apply this hedge chain to the degree `x`.
    pub fn compute(&self, x: u64) -> (r: u64)
        requires
            x <= SCALE,
        ensures
            r == hedge_val(*self, x as int),
            r <= SCALE,
        decreases *self,
    {
        let mut y = x;
        if let Some(ref hedge) = self.hedge {
            if x > 0 {
                y = hedge.compute(x);
            }
        }
        pow_apply(self.kind, y)
    }
}

/// One hedge exponent, executably.
fn pow_apply(k: HedgeKind, y: u64) -> (r: u64)
    requires
        y <= SCALE,
    ensures
        r == pow_val(k, y as int),
        r <= SCALE,
{
    proof {
        lemma_pow_val_bounds(k, y as int);
    }
    match k {
        HedgeKind::Very => {
            proof {
                assert(y * y <= SCALE * SCALE) by (nonlinear_arith)
                    requires
                        0 <= y <= SCALE,
                ;
            }
            y * y / SCALE
        },
        HedgeKind::Extremely => {
            proof {
                assert(y * y <= SCALE * SCALE && y * y * y <= SCALE * SCALE * SCALE)
                    by (nonlinear_arith)
                    requires
                        0 <= y <= SCALE,
                ;
            }
            y * y * y / (SCALE * SCALE)
        },
        HedgeKind::Somewhat => isqrt(y * SCALE),
        HedgeKind::Slightly => icbrt(y * SCALE * SCALE),
    }
}

/// The integer square root of `n`, by binary search.
fn isqrt(n: u64) -> (r: u64)
    requires
        n <= SCALE * SCALE,
    ensures
        r == isqrt_spec(n as int),
        r <= SCALE,
{
    let mut lo: u64 = 0;
    let mut hi: u64 = SCALE + 1;
    while lo + 1 < hi
        invariant
            lo < hi <= SCALE + 1,
            lo * lo <= n,
            n < hi * hi,
        decreases hi - lo,
    {
        let mid = lo + (hi - lo) / 2;
        proof {
            assert(mid * mid <= SCALE * SCALE) by (nonlinear_arith)
                requires
                    0 <= mid <= SCALE,
            ;
        }
        if mid * mid <= n {
            lo = mid;
        } else {
            hi = mid;
        }
    }
    proof {
        lemma_isqrt_unique(n as int, lo as int);
    }
    lo
}

/// The integer cube root of `n`, by binary search.
fn icbrt(n: u64) -> (r: u64)
    requires
        n <= SCALE * SCALE * SCALE,
    ensures
        r == icbrt_spec(n as int),
        r <= SCALE,
{
    let mut lo: u64 = 0;
    let mut hi: u64 = SCALE + 1;
    while lo + 1 < hi
        invariant
            lo < hi <= SCALE + 1,
            lo * lo * lo <= n,
            n < hi * hi * hi,
        decreases hi - lo,
    {
        let mid = lo + (hi - lo) / 2;
        proof {
            assert(mid * mid <= SCALE * SCALE && mid * mid * mid <= SCALE * SCALE * SCALE)
                by (nonlinear_arith)
                requires
                    0 <= mid <= SCALE,
            ;
        }
        if mid * mid * mid <= n {
            lo = mid;
        } else {
            hi = mid;
        }
    }
    proof {
        lemma_icbrt_unique(n as int, lo as int);
    }
    lo
}

/// `very` squares: in fixed point, `very(x)` is exactly `x * x / SCALE`.
pub proof fn lemma_very_squares(h: Hedge, x: int)
    requires
        h.kind == HedgeKind::Very,
        h.hedge is None,
        0 <= x <= SCALE,
    ensures
        hedge_val(h, x) == x * x / (SCALE as int),
        SCALE * hedge_val(h, x) <= x * x < SCALE * (hedge_val(h, x) + 1),
{
    let s = SCALE as int;
    lemma_fundamental_div_mod(x * x, s);
    assert(0 <= x * x) by (nonlinear_arith)
        requires
            0 <= x,
    ;
    vstd::arithmetic::div_mod::lemma_mod_bound(x * x, s);
    assert(s * (x * x / s) <= x * x < s * (x * x / s + 1)) by (nonlinear_arith)
        requires
            x * x == s * (x * x / s) + (x * x) % s,
            0 <= (x * x) % s < s,
    ;
}

/// Applying `very` twice yields the fourth power, up to fixed-point rounding:
/// the result never exceeds `x^4 / SCALE^3` and falls short of it by less
/// than three units.
pub proof fn lemma_very_twice_fourth_power(outer: Hedge, inner: Hedge, x: int)
    requires
        outer.kind == HedgeKind::Very,
        (outer.hedge matches Some(b) && *b == inner),
        inner.kind == HedgeKind::Very,
        inner.hedge is None,
        0 <= x <= SCALE,
    ensures
        SCALE * SCALE * SCALE * hedge_val(outer, x) <= x * x * x * x,
        x * x * x * x < SCALE * SCALE * SCALE * (hedge_val(outer, x) + 3),
{
    let s = SCALE as int;
    if x == 0 {
        assert(hedge_val(outer, 0) == pow_val(HedgeKind::Very, 0));
        assert(0int * 0int / s == 0) by (nonlinear_arith)
            requires
                s > 0,
        ;
    } else {
        let v1 = x * x / s;
        let r1 = (x * x) % s;
        let v2 = v1 * v1 / s;
        let r2 = (v1 * v1) % s;
        assert(hedge_val(inner, x) == v1);
        assert(hedge_val(outer, x) == pow_val(HedgeKind::Very, v1));
        assert(hedge_val(outer, x) == v2);
        lemma_fundamental_div_mod(x * x, s);
        vstd::arithmetic::div_mod::lemma_mod_bound(x * x, s);
        lemma_pow_val_bounds(HedgeKind::Very, x);
        lemma_fundamental_div_mod(v1 * v1, s);
        vstd::arithmetic::div_mod::lemma_mod_bound(v1 * v1, s);
        assert(x * x * x * x == (s * v1 + r1) * (s * v1 + r1)) by (nonlinear_arith)
            requires
                x * x == s * v1 + r1,
        ;
        assert((s * v1 + r1) * (s * v1 + r1) == s * s * (v1 * v1) + 2 * s * v1 * r1 + r1 * r1)
            by (nonlinear_arith);
        assert(s * s * (v1 * v1) == s * s * s * v2 + s * s * r2) by (nonlinear_arith)
            requires
                v1 * v1 == s * v2 + r2,
        ;
        assert(x * x * x * x == s * s * s * v2 + s * s * r2 + 2 * s * v1 * r1 + r1 * r1);
        assert(s * s * r2 + 2 * s * v1 * r1 + r1 * r1 < 3 * (s * s * s)) by (nonlinear_arith)
            requires
                0 <= r1 < s,
                0 <= r2 < s,
                0 <= v1 <= s,
                s > 0,
        ;
        assert(0 <= s * s * r2 + 2 * s * v1 * r1 + r1 * r1) by (nonlinear_arith)
            requires
                0 <= r1,
                0 <= r2,
                0 <= v1,
                s > 0,
        ;
        assert(x * x * x * x < s * s * s * (v2 + 3)) by (nonlinear_arith)
            requires
                x * x * x * x == s * s * s * v2 + s * s * r2 + 2 * s * v1 * r1 + r1 * r1,
                s * s * r2 + 2 * s * v1 * r1 + r1 * r1 < 3 * (s * s * s),
        ;
    }
}

/// Every hedge chain preserves a zero degree: `hedge_val(h, 0) == 0`.
pub proof fn lemma_hedge_chain_zero(h: Hedge)
    ensures
        hedge_val(h, 0) == 0,
{
    let s = SCALE as int;
    assert(0int * 0int / s == 0) by (nonlinear_arith)
        requires
            s > 0,
    ;
    assert(0int * 0int * 0int / (s * s) == 0) by (nonlinear_arith)
        requires
            s > 0,
    ;
    assert(isqrt_spec(0int * s) == 0);
    assert(icbrt_spec(0int * s * s) == 0);
}

} // verus!
