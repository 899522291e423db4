//! Fixed-point scalars and the tolerant comparisons built on them.
use vstd::prelude::*;

verus! {

/// A scalar in fixed point: the value `v` stands for `v / SCALE`.
pub type Scalar = i64;

/// A dimensionless tolerance in fixed point: the value `r` stands for `r / RATIO_SCALE`.
pub type Ratio = u64;

/// Units of a `Scalar` per whole unit: a scalar counts millionths.
pub const SCALE: i64 = 1_000_000;

/// Units of a `Ratio` per whole: a ratio counts parts per 10^12.
pub const RATIO_SCALE: i64 = 1_000_000_000_000;

/// Relative tolerance used when none is given: 1e-9.
pub const DEFAULT_REL_TOL: u64 = 1_000;

/// Absolute tolerance used when none is given: 1e-6.
pub const DEFAULT_ABS_TOL: i64 = 1;

pub open spec fn abs_int(v: int) -> int {
    if v < 0 { -v } else { v }
}

pub open spec fn max_int(a: int, b: int) -> int {
    if a >= b { a } else { b }
}

/// `|a - b| <= max(rel * max(|a|, |b|), abs)`, with `a`, `b`, `abs` in scalar
/// units and `rel` in ratio units, cleared of denominators.
pub open spec fn close_with(a: int, b: int, rel: int, abs: int) -> bool {
    abs_int(a - b) * RATIO_SCALE <= max_int(rel * max_int(abs_int(a), abs_int(b)), abs * RATIO_SCALE)
}

/// Tolerant equality under the default tolerances.
pub open spec fn close(a: int, b: int) -> bool {
    close_with(a, b, DEFAULT_REL_TOL as int, DEFAULT_ABS_TOL as int)
}

/// `a` is close to `b` or below it.
pub open spec fn le_tol(a: int, b: int) -> bool {
    close(a, b) || a < b
}

/// `a` is above `b` and not close to it.
pub open spec fn gt_tol(a: int, b: int) -> bool {
    !close(a, b) && a > b
}

/// Tolerant equality with zero of a product of two scalars, which counts
/// units of 10^-12: the default tolerances, with the absolute one carried
/// over to those units.
pub open spec fn product_close_to_zero(v: int) -> bool {
    close_with(v, 0, DEFAULT_REL_TOL as int, DEFAULT_ABS_TOL * SCALE)
}

/// The larger of two scalars.
pub fn float_max(first: Scalar, second: Scalar) -> (r: Scalar)
    ensures
        r == max_int(first as int, second as int),
{
    if first >= second {
        first
    } else {
        second
    }
}

/// Tolerant equality with optional relative and absolute tolerances; an
/// omitted one takes its default.
pub fn is_close_ex(first: Scalar, second: Scalar, rel_tol: Option<Ratio>, abs_tol: Option<Scalar>) -> (r: bool)
    ensures
        r == close_with(
            first as int,
            second as int,
            (match rel_tol { Some(t) => t, None => DEFAULT_REL_TOL }) as int,
            (match abs_tol { Some(t) => t, None => DEFAULT_ABS_TOL }) as int,
        ),
{
    let rel: u64 = match rel_tol {
        Some(t) => t,
        None => DEFAULT_REL_TOL,
    };
    let abs: i64 = match abs_tol {
        Some(t) => t,
        None => DEFAULT_ABS_TOL,
    };
    let diff: i128 = first as i128 - second as i128;
    let diff_mag: i128 = if diff < 0 { -diff } else { diff };
    let first_mag: i128 = if first < 0 { -(first as i128) } else { first as i128 };
    let second_mag: i128 = if second < 0 { -(second as i128) } else { second as i128 };
    let larger: i128 = if first_mag >= second_mag { first_mag } else { second_mag };
    assert(0 <= rel as int * larger <= 0xffff_ffff_ffff_ffff * 0x8000_0000_0000_0000) by (nonlinear_arith)
        requires 0 <= rel <= 0xffff_ffff_ffff_ffff, 0 <= larger <= 0x8000_0000_0000_0000;
    let rel_term: i128 = rel as i128 * larger;
    assert(-0x8000_0000_0000_0000 * RATIO_SCALE <= abs as int * RATIO_SCALE <= 0x7fff_ffff_ffff_ffff * RATIO_SCALE) by (nonlinear_arith)
        requires -0x8000_0000_0000_0000 <= abs <= 0x7fff_ffff_ffff_ffff;
    let abs_term: i128 = abs as i128 * (RATIO_SCALE as i128);
    let lhs: i128 = diff_mag * (RATIO_SCALE as i128);
    lhs <= rel_term || lhs <= abs_term
}

/// Tolerant equality under the default tolerances.
pub fn is_close(first: Scalar, second: Scalar) -> (r: bool)
    ensures
        r == close(first as int, second as int),
{
    is_close_ex(first, second, None, None)
}

/// Whether a product of two scalars, in units of 10^-12, is close to zero
/// under the default tolerances.
pub fn is_product_close_to_zero(v: i128) -> (r: bool)
    ensures
        r == product_close_to_zero(v as int),
{
    let tol: i128 = DEFAULT_ABS_TOL as i128 * SCALE as i128;
    proof {
        assert(DEFAULT_ABS_TOL * SCALE == 1_000_000);
        let m = abs_int(v as int);
        // Away from zero the relative part is below the value itself, so
        // only the absolute tolerance can hold it.
        assert(m * RATIO_SCALE <= max_int(DEFAULT_REL_TOL * m, tol * RATIO_SCALE) <==> m <= tol)
            by (nonlinear_arith)
            requires
                m >= 0,
                tol == 1_000_000,
                DEFAULT_REL_TOL == 1000,
                RATIO_SCALE == 1_000_000_000_000,
        ;
    }
    -tol <= v && v <= tol
}

/// `first` is close to `second` or below it.
pub fn float_le(first: Scalar, second: Scalar) -> (r: bool)
    ensures
        r == le_tol(first as int, second as int),
{
    is_close(first, second) || first < second
}

/// `first` is above `second` and not close to it.
pub fn float_gt(first: Scalar, second: Scalar) -> (r: bool)
    ensures
        r == gt_tol(first as int, second as int),
{
    !is_close(first, second) && first > second
}

/// A value is close to itself, whatever the tolerances.
pub proof fn lemma_close_reflexive(a: int, rel: int, abs: int)
    requires
        rel >= 0,
    ensures
        close_with(a, a, rel, abs),
{
    assert(rel * max_int(abs_int(a), abs_int(a)) >= 0) by (nonlinear_arith)
        requires rel >= 0, max_int(abs_int(a), abs_int(a)) >= 0;
}

/// Widening either tolerance never turns a close pair into a distant one.
pub proof fn lemma_close_monotonic(a: int, b: int, rel1: int, abs1: int, rel2: int, abs2: int)
    requires
        rel1 <= rel2,
        abs1 <= abs2,
        close_with(a, b, rel1, abs1),
    ensures
        close_with(a, b, rel2, abs2),
{
    let m = max_int(abs_int(a), abs_int(b));
    assert(rel1 * m <= rel2 * m) by (nonlinear_arith)
        requires rel1 <= rel2, m >= 0;
}

/// A location, or the displacement between two locations.
#[derive(Debug, Clone, Copy)]
pub struct Point {
    pub x: Scalar,
    pub y: Scalar,
}

/// A directed segment from `start` to `end`.
#[derive(Debug, Clone, Copy)]
pub struct Line {
    pub start: Point,
    pub end: Point,
}

/// Bound on a coordinate of a location, so that the difference of two
/// locations is a representable vector: 2^62 - 1 millionths.
pub const COORD_LIMIT: i64 = 0x3fff_ffff_ffff_ffff;

impl Point {
    /// Both coordinates lie within `[-limit, limit]`.
    pub open spec fn within(self, limit: int) -> bool {
        -limit <= self.x <= limit && -limit <= self.y <= limit
    }

    /// A location whose differences with other locations stay representable.
    pub open spec fn is_location(self) -> bool {
        self.within(COORD_LIMIT as int)
    }

    /// Tolerant equality of two points, coordinate by coordinate.
    pub open spec fn close_to(self, other: Point) -> bool {
        close(self.x as int, other.x as int) && close(self.y as int, other.y as int)
    }
}

impl PartialEq for Point {
    fn eq(&self, other: &Point) -> (r: bool)
        ensures
            r == self.close_to(*other),
    {
        is_close_ex(self.x, other.x, None, None) && is_close_ex(self.y, other.y, None, None)
    }
}

impl vstd::std_specs::cmp::PartialEqSpecImpl for Point {
    open spec fn obeys_eq_spec() -> bool {
        true
    }

    open spec fn eq_spec(&self, other: &Point) -> bool {
        self.close_to(*other)
    }
}

} // verus!
