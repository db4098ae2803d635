//! Exact fixed-point model of the RGB to YIQ colour transform and of the
//! weighted perceptual distance between two YIQ colours.
//!
//! A component is an integer count of units of 10^-8: the transform's
//! coefficients have eight decimal places, so a component computed from an
//! 8-bit RGB triplet is exact. The weights of the distance have four decimal
//! places, so a squared distance is an integer count of units of 10^-20.
use vstd::prelude::*;

verus! {

/// Coefficients of the transform, in units of 10^-8.
pub const Y_R: i64 = 29889531;
pub const Y_G: i64 = 58662247;
pub const Y_B: i64 = 11448223;
pub const I_R: i64 = 59597799;
pub const I_G: i64 = -27417160;
pub const I_B: i64 = -32180189;
pub const Q_R: i64 = 21147019;
pub const Q_G: i64 = -52261711;
pub const Q_B: i64 = 31114694;

/// Weights of the distance, in units of 10^-4.
pub const WEIGHT_Y: u128 = 5053;
pub const WEIGHT_I: u128 = 2990;
pub const WEIGHT_Q: u128 = 1957;

/// Largest magnitude of a component for which the distance is computed
/// without overflow (2^52 units, far beyond what any RGB triplet yields).
pub const COMPONENT_LIMIT: i64 = 4503599627370496;

/// A colour in YIQ space; each component counts units of 10^-8.
#[derive(Clone, Copy, Debug, PartialEq, Eq, Structural)]
pub struct Yiq {
    /// Luminance.
    pub y: i64,
    /// In-phase chrominance.
    pub i: i64,
    /// Quadrature chrominance.
    pub q: i64,
}

/// Luminance of an RGB triplet, in units of 10^-8.
pub open spec fn luma(r: int, g: int, b: int) -> int {
    Y_R * r + Y_G * g + Y_B * b
}

/// In-phase chrominance of an RGB triplet, in units of 10^-8.
pub open spec fn in_phase(r: int, g: int, b: int) -> int {
    I_R * r + I_G * g + I_B * b
}

/// Quadrature chrominance of an RGB triplet, in units of 10^-8.
pub open spec fn quadrature(r: int, g: int, b: int) -> int {
    Q_R * r + Q_G * g + Q_B * b
}

/// `x` squared.
pub open spec fn square(x: int) -> int {
    x * x
}

/// Weighted squared distance from `a` to `b`, in units of 10^-20.
pub open spec fn weighted_distance(a: Yiq, b: Yiq) -> int {
    WEIGHT_Y * square(b.y - a.y) + WEIGHT_I * square(b.i - a.i) + WEIGHT_Q * square(b.q - a.q)
}

impl Yiq {
    /// Every component lies within `COMPONENT_LIMIT` of zero.
    pub open spec fn in_range(self) -> bool {
        -COMPONENT_LIMIT <= self.y <= COMPONENT_LIMIT
        && -COMPONENT_LIMIT <= self.i <= COMPONENT_LIMIT
        && -COMPONENT_LIMIT <= self.q <= COMPONENT_LIMIT
    }

    /// Applies the transform to an 8-bit RGB triplet `[red, green, blue]`.
    pub fn from_rgb(rgb: &[u8; 3]) -> (c: Yiq)
        ensures
            c.y == luma(rgb[0] as int, rgb[1] as int, rgb[2] as int),
            c.i == in_phase(rgb[0] as int, rgb[1] as int, rgb[2] as int),
            c.q == quadrature(rgb[0] as int, rgb[1] as int, rgb[2] as int),
            c.in_range(),
    {
        let r: i64 = rgb[0] as i64;
        let g: i64 = rgb[1] as i64;
        let b: i64 = rgb[2] as i64;
        Yiq {
            y: Y_R * r + Y_G * g + Y_B * b,
            i: I_R * r + I_G * g + I_B * b,
            q: Q_R * r + Q_G * g + Q_B * b,
        }
    }

    /// Weighted squared distance to `other`, in units of 10^-20.
    pub fn squared_distance(&self, other: &Yiq) -> (d: u128)
        requires
            self.in_range(),
            other.in_range(),
        ensures
            d == weighted_distance(*self, *other),
            d == 0 <==> *self == *other,
    {
        let dy: u128 = abs_difference(self.y, other.y);
        let di: u128 = abs_difference(self.i, other.i);
        let dq: u128 = abs_difference(self.q, other.q);
        proof {
            lemma_square_of_difference(self.y as int, other.y as int, dy as int);
            lemma_square_of_difference(self.i as int, other.i as int, di as int);
            lemma_square_of_difference(self.q as int, other.q as int, dq as int);
            lemma_distance_zero_iff_equal(*self, *other);
        }
        WEIGHT_Y * (dy * dy) + WEIGHT_I * (di * di) + WEIGHT_Q * (dq * dq)
    }

    /// Perceptual distance to `other`: the square root, rounded down, of
    /// the weighted squared distance, in units of 10^-10.
    pub fn square_root_distance(&self, other: &Yiq) -> (r: u128)
        requires
            self.in_range(),
            other.in_range(),
        ensures
            is_floor_sqrt(r as int, weighted_distance(*self, *other)),
            r == 0 <==> *self == *other,
    {
        let d: u128 = self.squared_distance(other);
        let r: u128 = floor_sqrt(d);
        proof {
            lemma_floor_sqrt_zero(r as int, d as int);
        }
        r
    }
}

/// `r` is the square root of `d`, rounded down.
pub open spec fn is_floor_sqrt(r: int, d: int) -> bool {
    0 <= r && r * r <= d < (r + 1) * (r + 1)
}

/// Square root of `d`, rounded down, found by bisection.
fn floor_sqrt(d: u128) -> (r: u128)
    ensures
        is_floor_sqrt(r as int, d as int),
{
    let mut lo: u128 = 0;
    let mut hi: u128 = 0x1_0000_0000_0000_0000;
    assert(hi * hi == 0x1_0000_0000_0000_0000_0000_0000_0000_0000int) by (nonlinear_arith)
        requires
            hi == 0x1_0000_0000_0000_0000int,
    ;
    while hi - lo > 1
        invariant
            lo < hi <= 0x1_0000_0000_0000_0000int,
            lo * lo <= d < hi * hi,
        decreases hi - lo,
    {
        let mid: u128 = lo + (hi - lo) / 2;
        assert(mid * mid < 0x1_0000_0000_0000_0000_0000_0000_0000_0000int) by (nonlinear_arith)
            requires
                mid < 0x1_0000_0000_0000_0000int,
        ;
        if mid * mid <= d {
            lo = mid;
        } else {
            hi = mid;
        }
    }
    lo
}

/// The rounded-down root is zero exactly when its square is.
proof fn lemma_floor_sqrt_zero(r: int, d: int)
    requires
        is_floor_sqrt(r, d),
    ensures
        r == 0 <==> d == 0,
{
    if r > 0 {
        assert(r * r >= 1) by (nonlinear_arith)
            requires
                r > 0,
        ;
    }
}

/// Distance between two components within `COMPONENT_LIMIT` of zero.
fn abs_difference(a: i64, b: i64) -> (d: u128)
    requires
        -COMPONENT_LIMIT <= a <= COMPONENT_LIMIT,
        -COMPONENT_LIMIT <= b <= COMPONENT_LIMIT,
    ensures
        d == if a <= b { b - a } else { a - b },
{
    let wa: i128 = a as i128;
    let wb: i128 = b as i128;
    if wb >= wa {
        (wb - wa) as u128
    } else {
        (wa - wb) as u128
    }
}

proof fn lemma_square_of_difference(a: int, b: int, d: int)
    requires
        -COMPONENT_LIMIT <= a <= COMPONENT_LIMIT,
        -COMPONENT_LIMIT <= b <= COMPONENT_LIMIT,
        d == if a <= b { b - a } else { a - b },
    ensures
        d * d == square(b - a),
        0 <= d * d <= 0x400_0000_0000_0000_0000_0000_0000int,
{
    assert(0 <= d <= 0x20_0000_0000_0000int);
    assert(d * d == (b - a) * (b - a)) by (nonlinear_arith)
        requires
            d == if a <= b { b - a } else { a - b },
    ;
    assert(0 <= d * d <= 0x400_0000_0000_0000_0000_0000_0000int) by (nonlinear_arith)
        requires
            0 <= d <= 0x20_0000_0000_0000int,
    ;
}

/// A colour is at distance zero from itself, and so is the square root of
/// that distance.
pub proof fn lemma_distance_to_self(v: Yiq)
    ensures
        weighted_distance(v, v) == 0,
        forall|r: int| #[trigger] is_floor_sqrt(r, weighted_distance(v, v)) ==> r == 0,
{
    assert forall|r: int| #[trigger] is_floor_sqrt(r, weighted_distance(v, v)) implies r == 0 by {
        lemma_floor_sqrt_zero(r, weighted_distance(v, v));
    }
}

/// The distance from `a` to `b` equals the distance from `b` to `a`.
pub proof fn lemma_distance_symmetric(a: Yiq, b: Yiq)
    ensures
        weighted_distance(a, b) == weighted_distance(b, a),
{
    assert(square(b.y - a.y) == square(a.y - b.y)) by (nonlinear_arith);
    assert(square(b.i - a.i) == square(a.i - b.i)) by (nonlinear_arith);
    assert(square(b.q - a.q) == square(a.q - b.q)) by (nonlinear_arith);
}

/// The distance is never negative.
pub proof fn lemma_distance_nonnegative(a: Yiq, b: Yiq)
    ensures
        weighted_distance(a, b) >= 0,
{
    lemma_square_positive(b.y - a.y);
    lemma_square_positive(b.i - a.i);
    lemma_square_positive(b.q - a.q);
}

/// The distance is zero exactly when the two colours are equal.
pub proof fn lemma_distance_zero_iff_equal(a: Yiq, b: Yiq)
    ensures
        weighted_distance(a, b) == 0 <==> a == b,
{
    lemma_square_positive(b.y - a.y);
    lemma_square_positive(b.i - a.i);
    lemma_square_positive(b.q - a.q);
}

proof fn lemma_square_positive(x: int)
    ensures
        square(x) >= 0,
        x != 0 ==> square(x) > 0,
{
    assert(x * x >= 0) by (nonlinear_arith);
    assert(x != 0 ==> x * x > 0) by (nonlinear_arith);
}

} // verus!
