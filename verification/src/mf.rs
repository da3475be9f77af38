//! Membership-function shapes: Triangle, Trapezoid, Up and Down.
//!
//! Each shape maps a fixed-point coordinate to a degree in `[0, SCALE]`.
//! The spec functions `tri_val`, `trap_val`, `up_val` and `down_val` state the
//! exact value of every computation; division is floor division, and the
//! executable code never divides a negative numerator.

use vstd::prelude::*;

verus! {

use vstd::arithmetic::div_mod::{lemma_div_is_ordered, lemma_div_multiples_vanish};
use vstd::math::{max, min};
use crate::{COORD_MAX, FuzzyError, SCALE};

/// One of the four membership-function shapes.
#[derive(Debug)]
pub enum MfType {
    Triangle(Triangle),
    Trapezoid(Trapezoid),
    Up(Up),
    Down(Down),
}

/// `max(0, min((x-a)/(b-a), (c-x)/(c-a)))`, in fixed point.
pub open spec fn tri_val(a: int, b: int, c: int, x: int) -> int {
    let g1 = (x - a) * SCALE / (b - a);
    let g2 = (c - x) * SCALE / (c - a);
    max(0, min(g1, g2))
}

/// `clamp(min((x-a)/(b-a), (d-x)/(d-c)), 0, 1)`, in fixed point.
pub open spec fn trap_val(a: int, b: int, c: int, d: int, x: int) -> int {
    let g1 = (x - a) * SCALE / (b - a);
    let g2 = (d - x) * SCALE / (d - c);
    max(0, min(min(g1, g2), SCALE as int))
}

/// 0 below `a`, 1 above `b`, a linear ramp between.
pub open spec fn up_val(a: int, b: int, x: int) -> int {
    if x < a {
        0
    } else if x > b {
        SCALE as int
    } else {
        (x - a) * SCALE / (b - a)
    }
}

/// The pointwise complement of the Up ramp.
pub open spec fn down_val(a: int, b: int, x: int) -> int {
    SCALE - up_val(a, b, x)
}

/// Shape parameters admitted for a Triangle: both denominators positive and
/// every coordinate inside the fixed-point range.
pub open spec fn tri_params_ok(a: int, b: int, c: int) -> bool {
    &&& -COORD_MAX <= a
    &&& a < b <= COORD_MAX
    &&& a < c <= COORD_MAX
}

/// Shape parameters admitted for a Trapezoid.
pub open spec fn trap_params_ok(a: int, b: int, c: int, d: int) -> bool {
    &&& -COORD_MAX <= a
    &&& a < b <= COORD_MAX
    &&& -COORD_MAX <= c
    &&& c < d <= COORD_MAX
}

/// Shape parameters admitted for an Up or Down ramp.
pub open spec fn ramp_params_ok(a: int, b: int) -> bool {
    &&& -COORD_MAX <= a
    &&& a < b <= COORD_MAX
}

impl MfType {
    /// Well-formedness of the carried shape parameters.
    pub open spec fn wf(&self) -> bool {
        match *self {
            MfType::Triangle(ref t) => tri_params_ok(t.a as int, t.b as int, t.c as int),
            MfType::Trapezoid(ref t) => trap_params_ok(
                t.a as int,
                t.b as int,
                t.c as int,
                t.d as int,
            ),
            MfType::Up(ref u) => ramp_params_ok(u.a as int, u.b as int),
            MfType::Down(ref d) => ramp_params_ok(d.a as int, d.b as int),
        }
    }

    /// The degree this shape assigns to the coordinate `x`.
    pub open spec fn spec_compute(&self, x: int) -> int {
        match *self {
            MfType::Triangle(ref t) => tri_val(t.a as int, t.b as int, t.c as int, x),
            MfType::Trapezoid(ref t) => trap_val(t.a as int, t.b as int, t.c as int, t.d as int, x),
            MfType::Up(ref u) => up_val(u.a as int, u.b as int, x),
            MfType::Down(ref d) => down_val(d.a as int, d.b as int, x),
        }
    }

    /// The shape's term name.
    pub open spec fn spec_name(&self) -> Seq<char> {
        match *self {
            MfType::Triangle(ref t) => t.name@,
            MfType::Trapezoid(ref t) => t.name@,
            MfType::Up(ref u) => u.name@,
            MfType::Down(ref d) => d.name@,
        }
    }

    /// Evaluate the shape at the fixed-point coordinate `x`.
    pub fn compute(&self, x: i64) -> (r: u64)
        requires
            self.wf(),
            -COORD_MAX <= x <= COORD_MAX,
        ensures
            r == self.spec_compute(x as int),
            r <= SCALE,
    {
        match *self {
            MfType::Triangle(ref value) => value.compute(x),
            MfType::Trapezoid(ref value) => value.compute(x),
            MfType::Up(ref value) => value.compute(x),
            MfType::Down(ref value) => value.compute(x),
        }
    }

    /// The term name, as the callers registered it.
    pub fn name(&self) -> (r: &str)
        ensures
            r@ == self.spec_name(),
    {
        match *self {
            MfType::Triangle(ref value) => value.name(),
            MfType::Trapezoid(ref value) => value.name(),
            MfType::Up(ref value) => value.name(),
            MfType::Down(ref value) => value.name(),
        }
    }
}

/// A triangular shape rising from `a` toward `b` and falling back at `c`.
#[derive(Debug)]
pub struct Triangle {
    pub name: String,
    pub a: i64,
    pub b: i64,
    pub c: i64,
}

impl Triangle {
    /// Build a Triangle from exactly three parameters `[a, b, c]`.
    ///
    /// Returns `FuzzyError::Configuration` when the parameter count is wrong
    /// or the parameters would divide by zero or leave the coordinate range.
    pub fn new(name: &str, init: Vec<i64>) -> (r: Result<MfType, FuzzyError>)
        ensures
            (r is Ok) == (init@.len() == 3 && tri_params_ok(
                init@[0] as int,
                init@[1] as int,
                init@[2] as int,
            )),
            r matches Ok(m) ==> m matches MfType::Triangle(t) && t.name@ == name@ && t.a
                == init@[0] && t.b == init@[1] && t.c == init@[2],
            r matches Err(e) ==> e == FuzzyError::Configuration,
    {
        if init.len() != 3 {
            return Err(FuzzyError::Configuration);
        }
        let a = init[0];
        let b = init[1];
        let c = init[2];
        if !(-COORD_MAX <= a && a < b && b <= COORD_MAX && a < c && c <= COORD_MAX) {
            return Err(FuzzyError::Configuration);
        }
        Ok(MfType::Triangle(Triangle { name: name.to_owned(), a, b, c }))
    }

    fn compute(&self, x: i64) -> (r: u64)
        requires
            tri_params_ok(self.a as int, self.b as int, self.c as int),
            -COORD_MAX <= x <= COORD_MAX,
        ensures
            r == tri_val(self.a as int, self.b as int, self.c as int, x as int),
            r <= SCALE,
    {
        let a = self.a;
        let b = self.b;
        let c = self.c;
        if x <= a || x >= c {
            proof {
                lemma_grade_sign(a as int, b as int, x as int);
                lemma_grade_fall_sign(a as int, c as int, x as int);
            }
            0
        } else {
            let g1: u64 = ((x - a) as u64) * SCALE / ((b - a) as u64);
            let g2: u64 = ((c - x) as u64) * SCALE / ((c - a) as u64);
            proof {
                lemma_grade_fall_below_unit(a as int, c as int, x as int);
            }
            if g1 < g2 {
                g1
            } else {
                g2
            }
        }
    }

    fn name(&self) -> (r: &str)
        ensures
            r@ == self.name@,
    {
        self.name.as_str()
    }
}

/// A flat-topped shape: a ramp up over `[a, b]`, a plateau, a ramp down over
/// `[c, d]`.
#[derive(Debug)]
pub struct Trapezoid {
    pub name: String,
    pub a: i64,
    pub b: i64,
    pub c: i64,
    pub d: i64,
}

impl Trapezoid {
    /// Build a Trapezoid from exactly four parameters `[a, b, c, d]`.
    ///
    /// Returns `FuzzyError::Configuration` when the parameter count is wrong
    /// or the parameters would divide by zero or leave the coordinate range.
    pub fn new(name: &str, init: Vec<i64>) -> (r: Result<MfType, FuzzyError>)
        ensures
            (r is Ok) == (init@.len() == 4 && trap_params_ok(
                init@[0] as int,
                init@[1] as int,
                init@[2] as int,
                init@[3] as int,
            )),
            r matches Ok(m) ==> m matches MfType::Trapezoid(t) && t.name@ == name@ && t.a
                == init@[0] && t.b == init@[1] && t.c == init@[2] && t.d == init@[3],
            r matches Err(e) ==> e == FuzzyError::Configuration,
    {
        if init.len() != 4 {
            return Err(FuzzyError::Configuration);
        }
        let a = init[0];
        let b = init[1];
        let c = init[2];
        let d = init[3];
        if !(-COORD_MAX <= a && a < b && b <= COORD_MAX && -COORD_MAX <= c && c < d && d
            <= COORD_MAX) {
            return Err(FuzzyError::Configuration);
        }
        Ok(MfType::Trapezoid(Trapezoid { name: name.to_owned(), a, b, c, d }))
    }

    fn compute(&self, x: i64) -> (r: u64)
        requires
            trap_params_ok(self.a as int, self.b as int, self.c as int, self.d as int),
            -COORD_MAX <= x <= COORD_MAX,
        ensures
            r == trap_val(self.a as int, self.b as int, self.c as int, self.d as int, x as int),
            r <= SCALE,
    {
        let a = self.a;
        let b = self.b;
        let c = self.c;
        let d = self.d;
        if x <= a || x >= d {
            proof {
                lemma_grade_sign(a as int, b as int, x as int);
                lemma_grade_fall_sign(c as int, d as int, x as int);
            }
            0
        } else {
            let g1: u64 = ((x - a) as u64) * SCALE / ((b - a) as u64);
            let g2: u64 = ((d - x) as u64) * SCALE / ((d - c) as u64);
            let m = if g1 < g2 {
                g1
            } else {
                g2
            };
            if m > SCALE {
                SCALE
            } else {
                m
            }
        }
    }

    fn name(&self) -> (r: &str)
        ensures
            r@ == self.name@,
    {
        self.name.as_str()
    }
}

/// A rising ramp: 0 up to `a`, 1 from `b` on.
#[derive(Debug)]
pub struct Up {
    pub name: String,
    pub a: i64,
    pub b: i64,
}

impl Up {
    /// Build an Up ramp from exactly two parameters `[a, b]`.
    ///
    /// Returns `FuzzyError::Configuration` when the parameter count is wrong
    /// or the parameters would divide by zero or leave the coordinate range.
    pub fn new(name: &str, init: Vec<i64>) -> (r: Result<MfType, FuzzyError>)
        ensures
            (r is Ok) == (init@.len() == 2 && ramp_params_ok(init@[0] as int, init@[1] as int)),
            r matches Ok(m) ==> m matches MfType::Up(u) && u.name@ == name@ && u.a == init@[0]
                && u.b == init@[1],
            r matches Err(e) ==> e == FuzzyError::Configuration,
    {
        if init.len() != 2 {
            return Err(FuzzyError::Configuration);
        }
        let a = init[0];
        let b = init[1];
        if !(-COORD_MAX <= a && a < b && b <= COORD_MAX) {
            return Err(FuzzyError::Configuration);
        }
        Ok(MfType::Up(Up { name: name.to_owned(), a, b }))
    }

    fn compute(&self, x: i64) -> (r: u64)
        requires
            ramp_params_ok(self.a as int, self.b as int),
            -COORD_MAX <= x <= COORD_MAX,
        ensures
            r == up_val(self.a as int, self.b as int, x as int),
            r <= SCALE,
    {
        ramp_compute(self.a, self.b, x)
    }

    fn name(&self) -> (r: &str)
        ensures
            r@ == self.name@,
    {
        self.name.as_str()
    }
}

/// A falling ramp: 1 up to `a`, 0 from `b` on.
#[derive(Debug)]
pub struct Down {
    pub name: String,
    pub a: i64,
    pub b: i64,
}

impl Down {
    /// Build a Down ramp from exactly two parameters `[a, b]`.
    ///
    /// Returns `FuzzyError::Configuration` when the parameter count is wrong
    /// or the parameters would divide by zero or leave the coordinate range.
    pub fn new(name: &str, init: Vec<i64>) -> (r: Result<MfType, FuzzyError>)
        ensures
            (r is Ok) == (init@.len() == 2 && ramp_params_ok(init@[0] as int, init@[1] as int)),
            r matches Ok(m) ==> m matches MfType::Down(d) && d.name@ == name@ && d.a == init@[0]
                && d.b == init@[1],
            r matches Err(e) ==> e == FuzzyError::Configuration,
    {
        if init.len() != 2 {
            return Err(FuzzyError::Configuration);
        }
        let a = init[0];
        let b = init[1];
        if !(-COORD_MAX <= a && a < b && b <= COORD_MAX) {
            return Err(FuzzyError::Configuration);
        }
        Ok(MfType::Down(Down { name: name.to_owned(), a, b }))
    }

    fn compute(&self, x: i64) -> (r: u64)
        requires
            ramp_params_ok(self.a as int, self.b as int),
            -COORD_MAX <= x <= COORD_MAX,
        ensures
            r == down_val(self.a as int, self.b as int, x as int),
            r <= SCALE,
    {
        SCALE - ramp_compute(self.a, self.b, x)
    }

    fn name(&self) -> (r: &str)
        ensures
            r@ == self.name@,
    {
        self.name.as_str()
    }
}

/// Shared executable body of the Up ramp; Down subtracts it from `SCALE`.
fn ramp_compute(a: i64, b: i64, x: i64) -> (r: u64)
    requires
        ramp_params_ok(a as int, b as int),
        -COORD_MAX <= x <= COORD_MAX,
    ensures
        r == up_val(a as int, b as int, x as int),
        r <= SCALE,
{
    if x < a {
        0
    } else if x > b {
        SCALE
    } else {
        proof {
            lemma_grade_below_unit(a as int, b as int, x as int);
        }
        ((x - a) as u64) * SCALE / ((b - a) as u64)
    }
}

impl Clone for Triangle {
    /// A field-for-field copy.
    fn clone(&self) -> (r: Self)
        ensures
            r == *self,
    {
        Triangle { name: self.name.clone(), a: self.a, b: self.b, c: self.c }
    }
}

impl Clone for Trapezoid {
    /// A field-for-field copy.
    fn clone(&self) -> (r: Self)
        ensures
            r == *self,
    {
        Trapezoid { name: self.name.clone(), a: self.a, b: self.b, c: self.c, d: self.d }
    }
}

impl Clone for Up {
    /// A field-for-field copy.
    fn clone(&self) -> (r: Self)
        ensures
            r == *self,
    {
        Up { name: self.name.clone(), a: self.a, b: self.b }
    }
}

impl Clone for Down {
    /// A field-for-field copy.
    fn clone(&self) -> (r: Self)
        ensures
            r == *self,
    {
        Down { name: self.name.clone(), a: self.a, b: self.b }
    }
}

impl Clone for MfType {
    /// A copy of the carried shape.
    fn clone(&self) -> (r: Self)
        ensures
            r == *self,
    {
        match *self {
            MfType::Triangle(ref t) => MfType::Triangle(t.clone()),
            MfType::Trapezoid(ref t) => MfType::Trapezoid(t.clone()),
            MfType::Up(ref u) => MfType::Up(u.clone()),
            MfType::Down(ref d) => MfType::Down(d.clone()),
        }
    }
}

/// First membership function of the list whose name is `name`.
pub open spec fn find_mf(vars: Seq<MfType>, name: Seq<char>) -> Option<MfType>
    decreases vars.len(),
{
    if vars.len() == 0 {
        None
    } else if vars[0].spec_name() == name {
        Some(vars[0])
    } else {
        find_mf(vars.drop_first(), name)
    }
}

/// A found membership function inherits well-formedness from its list.
pub proof fn lemma_find_mf_wf(vars: Seq<MfType>, name: Seq<char>)
    requires
        forall|i: int| 0 <= i < vars.len() ==> (#[trigger] vars[i]).wf(),
    ensures
        find_mf(vars, name) matches Some(m) ==> m.wf(),
    decreases vars.len(),
{
    if vars.len() > 0 && vars[0].spec_name() != name {
        assert(forall|i: int|
            0 <= i < vars.drop_first().len() ==> #[trigger] vars.drop_first()[i] == vars[i + 1]);
        lemma_find_mf_wf(vars.drop_first(), name);
    }
}

/// A well-formed shape's degree lies in `[0, SCALE]` on the whole
/// coordinate range.
pub proof fn lemma_mf_val_bounds(m: MfType, x: int)
    requires
        m.wf(),
        -COORD_MAX <= x <= COORD_MAX,
    ensures
        0 <= m.spec_compute(x) <= SCALE,
{
    match m {
        MfType::Triangle(t) => {
            let a = t.a as int;
            let b = t.b as int;
            let c = t.c as int;
            if x <= a {
                lemma_grade_sign(a, b, x);
            } else {
                lemma_grade_fall_below_unit(a, c, x);
            }
        },
        MfType::Trapezoid(_) => {},
        MfType::Up(u) => {
            lemma_up_val_bounds(u.a as int, u.b as int, x);
        },
        MfType::Down(d) => {
            lemma_up_val_bounds(d.a as int, d.b as int, x);
        },
    }
}

/// An Up ramp's degree lies in `[0, SCALE]`.
proof fn lemma_up_val_bounds(a: int, b: int, x: int)
    requires
        a < b,
    ensures
        0 <= up_val(a, b, x) <= SCALE,
{
    if a <= x <= b {
        vstd::arithmetic::div_mod::lemma_div_pos_is_pos((x - a) * SCALE, b - a);
        lemma_grade_below_unit(a, b, x);
        assert((x - a) * SCALE >= 0) by (nonlinear_arith)
            requires
                x >= a,
                SCALE > 0,
        ;
    }
}

/// A rising grade `(x-a)*SCALE/(b-a)` is nonpositive when `x <= a`.
proof fn lemma_grade_sign(a: int, b: int, x: int)
    requires
        a < b,
    ensures
        x <= a ==> (x - a) * SCALE / (b - a) <= 0,
{
    if x <= a {
        assert((x - a) * SCALE <= 0) by (nonlinear_arith)
            requires
                x <= a,
        ;
        lemma_div_is_ordered((x - a) * SCALE, 0, b - a);
    }
}

/// A falling grade `(c-x)*SCALE/(c-a)` is nonpositive when `x >= c`.
proof fn lemma_grade_fall_sign(a: int, c: int, x: int)
    requires
        a < c,
    ensures
        x >= c ==> (c - x) * SCALE / (c - a) <= 0,
{
    if x >= c {
        assert((c - x) * SCALE <= 0) by (nonlinear_arith)
            requires
                x >= c,
        ;
        lemma_div_is_ordered((c - x) * SCALE, 0, c - a);
    }
}

/// A rising grade stays at or below `SCALE` while `x <= b`.
proof fn lemma_grade_below_unit(a: int, b: int, x: int)
    requires
        a < b,
        x <= b,
    ensures
        (x - a) * SCALE / (b - a) <= SCALE,
{
    assert((x - a) * SCALE <= (b - a) * SCALE) by (nonlinear_arith)
        requires
            x <= b,
            SCALE > 0,
    ;
    lemma_div_is_ordered((x - a) * SCALE, (b - a) * SCALE, b - a);
    lemma_div_multiples_vanish(SCALE as int, b - a);
}

/// A falling grade stays at or below `SCALE` while `x >= a`.
proof fn lemma_grade_fall_below_unit(a: int, c: int, x: int)
    requires
        a < c,
        x >= a,
    ensures
        (c - x) * SCALE / (c - a) <= SCALE,
{
    assert((c - x) * SCALE <= (c - a) * SCALE) by (nonlinear_arith)
        requires
            x >= a,
            SCALE > 0,
    ;
    lemma_div_is_ordered((c - x) * SCALE, (c - a) * SCALE, c - a);
    lemma_div_multiples_vanish(SCALE as int, c - a);
}

/// An Up ramp is 0 at and below `a`, the full degree at and above `b`, and
/// monotonically non-decreasing everywhere.
pub proof fn lemma_up_shape(a: int, b: int, x1: int, x2: int)
    requires
        a < b,
        x1 <= x2,
    ensures
        up_val(a, b, a) == 0,
        up_val(a, b, b) == SCALE,
        x1 <= a ==> up_val(a, b, x1) == 0,
        x1 >= b ==> up_val(a, b, x1) == SCALE,
        up_val(a, b, x1) <= up_val(a, b, x2),
{
    vstd::arithmetic::div_mod::lemma_div_of0(b - a);
    assert((a - a) * SCALE == 0);
    lemma_div_multiples_vanish(SCALE as int, b - a);
    lemma_up_val_bounds(a, b, x1);
    lemma_up_val_bounds(a, b, x2);
    if a <= x1 && x2 <= b {
        assert((x1 - a) * SCALE <= (x2 - a) * SCALE) by (nonlinear_arith)
            requires
                x1 <= x2,
                SCALE > 0,
        ;
        lemma_div_is_ordered((x1 - a) * SCALE, (x2 - a) * SCALE, b - a);
    }
}

/// A Down ramp is the pointwise complement of the Up ramp on the same
/// parameters, at every coordinate.
pub proof fn lemma_down_complement(a: int, b: int, x: int)
    ensures
        down_val(a, b, x) == SCALE - up_val(a, b, x),
{
}

/// A Triangle is 0 at both feet and never negative anywhere.
pub proof fn lemma_triangle_feet(a: int, b: int, c: int, x: int)
    requires
        a < b,
        a < c,
    ensures
        tri_val(a, b, c, a) == 0,
        tri_val(a, b, c, c) == 0,
        tri_val(a, b, c, x) >= 0,
{
    vstd::arithmetic::div_mod::lemma_div_of0(b - a);
    vstd::arithmetic::div_mod::lemma_div_of0(c - a);
    assert((a - a) * SCALE == 0);
    assert((c - c) * SCALE == 0);
    assert((c - a) * SCALE >= 0) by (nonlinear_arith)
        requires
            a < c,
            SCALE > 0,
    ;
    vstd::arithmetic::div_mod::lemma_div_pos_is_pos((c - a) * SCALE, b - a);
}

/// A Triangle is unimodal on its support: on any three ordered coordinates
/// the middle degree is at least the smaller of the outer two, so the shape
/// rises to one peak and falls.
pub proof fn lemma_triangle_unimodal(a: int, b: int, c: int, x1: int, x2: int, x3: int)
    requires
        a < b,
        a < c,
        x1 <= x2 <= x3,
    ensures
        tri_val(a, b, c, x2) >= min(tri_val(a, b, c, x1), tri_val(a, b, c, x3)),
{
    assert((x1 - a) * SCALE <= (x2 - a) * SCALE) by (nonlinear_arith)
        requires
            x1 <= x2,
            SCALE > 0,
    ;
    lemma_div_is_ordered((x1 - a) * SCALE, (x2 - a) * SCALE, b - a);
    assert((c - x3) * SCALE <= (c - x2) * SCALE) by (nonlinear_arith)
        requires
            x2 <= x3,
            SCALE > 0,
    ;
    lemma_div_is_ordered((c - x3) * SCALE, (c - x2) * SCALE, c - a);
}

} // verus!

