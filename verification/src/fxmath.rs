//! Fixed-point scalar and vector arithmetic.
//!
//! A world quantity is an `i64` counting steps of `1 / FX_ONE` units.
//! Every stored component is kept inside `[-FX_BOUND, FX_BOUND]`; the
//! saturating operations below preserve that range, so accumulating
//! impulses can never overflow.

use vstd::prelude::*;
use vstd::arithmetic::div_mod::{lemma_div_is_ordered, lemma_div_multiples_vanish};

verus! {

/// Number of fixed-point steps per world unit.
pub const FX_ONE: i64 = 1000;

/// Largest magnitude a stored world quantity may take, in fixed-point steps.
pub const FX_BOUND: i64 = 1_000_000_000;

/// Largest magnitude a timestamp or duration may take, in fixed-point seconds.
pub const FX_TIME_BOUND: i64 = 1_000_000_000_000;

/// A quantity that may be stored as a timestamp or duration.
pub open spec fn fx_time_in_bounds(t: int) -> bool {
    -FX_TIME_BOUND <= t <= FX_TIME_BOUND
}

/// A quantity that may be stored as a world coordinate, velocity or impulse.
pub open spec fn fx_in_bounds(x: int) -> bool {
    -FX_BOUND <= x <= FX_BOUND
}

/// Magnitude of a mathematical integer.
pub open spec fn spec_abs(x: int) -> int {
    if x < 0 { -x } else { x }
}

/// The result of clamping `x` into `[lo, hi]`.
pub open spec fn spec_clamp(x: int, lo: int, hi: int) -> int
    recommends lo <= hi,
{
    if x < lo { lo } else if x > hi { hi } else { x }
}

/// The result of saturating `x` into the stored world range.
pub open spec fn spec_sat(x: int) -> int {
    spec_clamp(x, -FX_BOUND as int, FX_BOUND as int)
}

/// Product of two fixed-point quantities, truncated toward zero,
/// as Rust's own integer division would round it.
pub open spec fn spec_fx_mul(a: int, b: int) -> int {
    let mag = (spec_abs(a) * spec_abs(b)) / (FX_ONE as int);
    if (a < 0) != (b < 0) { -mag } else { mag }
}

/// `a * b / d`, truncated toward zero.
pub open spec fn spec_mul_div(a: int, b: int, d: int) -> int
    recommends d > 0,
{
    let mag = (spec_abs(a) * spec_abs(b)) / d;
    if (a < 0) != (b < 0) { -mag } else { mag }
}

/// Clamp `x` into `[lo, hi]`, as the directional-control speed limit does.
pub fn clamp_i64(x: i64, lo: i64, hi: i64) -> (r: i64)
    requires
        lo <= hi,
    ensures
        r == spec_clamp(x as int, lo as int, hi as int),
{
    if x < lo {
        lo
    } else if x > hi {
        hi
    } else {
        x
    }
}

/// Saturate an arbitrary value into the stored world range.
pub fn sat_i64(x: i64) -> (r: i64)
    ensures
        r == spec_sat(x as int),
        fx_in_bounds(r as int),
{
    clamp_i64(x, -FX_BOUND, FX_BOUND)
}

/// Sum of two quantities, saturated back into the stored world range.
/// The inputs may exceed the range — a velocity plus a large scaled
/// impulse, say — as long as their sum fits the machine word.
pub fn sat_add(a: i64, b: i64) -> (r: i64)
    requires
        spec_abs(a as int) <= 4_000_000_000_000_000_000,
        spec_abs(b as int) <= 4_000_000_000_000_000_000,
    ensures
        r == spec_sat(a + b),
        fx_in_bounds(r as int),
{
    sat_i64(a + b)
}

/// Magnitude of an in-range quantity, as an unsigned value.
fn abs_u64(x: i64) -> (r: u64)
    requires
        -0x7fff_ffff_ffff_ffff <= x,
    ensures
        r == spec_abs(x as int),
{
    if x < 0 {
        (-x) as u64
    } else {
        x as u64
    }
}

/// Fixed-point product `a * b / FX_ONE`, truncated toward zero.
pub fn fx_mul(a: i64, b: i64) -> (r: i64)
    requires
        spec_abs(a as int) <= 2 * FX_BOUND,
        spec_abs(b as int) <= 2 * FX_BOUND,
    ensures
        r == spec_fx_mul(a as int, b as int),
        spec_abs(r as int) <= spec_abs(a as int) * spec_abs(b as int) / (FX_ONE as int),
        spec_abs(r as int) <= 4_000_000_000_000_000_000,
{
    mul_div(a, b, FX_ONE)
}

/// `a * b / d` truncated toward zero, computed on magnitudes so that the
/// rounding direction matches Rust's signed division.
pub fn mul_div(a: i64, b: i64, d: i64) -> (r: i64)
    requires
        d > 0,
        spec_abs(a as int) <= 2 * FX_BOUND,
        spec_abs(b as int) <= 2 * FX_BOUND,
    ensures
        r == spec_mul_div(a as int, b as int, d as int),
        spec_abs(r as int) <= spec_abs(a as int) * spec_abs(b as int) / (d as int),
        spec_abs(r as int) <= 4_000_000_000_000_000_000,
{
    let ma = abs_u64(a);
    let mb = abs_u64(b);
    proof {
        assert(ma as int * mb as int <= 4_000_000_000_000_000_000) by (nonlinear_arith)
            requires
                0 <= ma as int <= 2_000_000_000,
                0 <= mb as int <= 2_000_000_000,
        ;
    }
    let prod: u64 = ma * mb;
    let mag: u64 = prod / (d as u64);
    proof {
        assert(mag as int <= prod as int) by (nonlinear_arith)
            requires
                mag as int == prod as int / (d as int),
                d as int >= 1,
                prod as int >= 0,
        ;
    }
    let neg = (a < 0) != (b < 0);
    if neg {
        -(mag as i64)
    } else {
        mag as i64
    }
}

/// `r` is the integer square root of `n`: the largest `r` with `r * r <= n`.
pub open spec fn is_isqrt(n: int, r: int) -> bool {
    &&& r >= 0
    &&& r * r <= n
    &&& (r + 1) * (r + 1) > n
}

/// The integer square root of `n`.
pub open spec fn spec_isqrt(n: int) -> int {
    choose|r: int| is_isqrt(n, r)
}

/// Any root in the sense of `is_isqrt` is the one `spec_isqrt` denotes.
pub proof fn lemma_isqrt_agrees(n: int, r: int)
    requires
        is_isqrt(n, r),
    ensures
        spec_isqrt(n) == r,
{
    assert(exists|q: int| is_isqrt(n, q)) by {
        assert(is_isqrt(n, r));
    }
    let r2 = spec_isqrt(n);
    assert(is_isqrt(n, r2));
    if r < r2 {
        assert((r + 1) * (r + 1) <= r2 * r2) by (nonlinear_arith)
            requires 0 <= r + 1 <= r2,
        ;
    }
    if r2 < r {
        assert((r2 + 1) * (r2 + 1) <= r * r) by (nonlinear_arith)
            requires 0 <= r2 + 1 <= r,
        ;
    }
}

/// A component is never longer than the whole vector: `c * c <= n` bounds
/// `|c|` by the integer square root of `n`; scaling `c` by `f / r` then
/// never exceeds `f` in magnitude.
pub proof fn lemma_unit_scale_bound(c: int, n: int, r: int, f: int)
    requires
        c * c <= n,
        is_isqrt(n, r),
        r >= 1,
        0 <= f,
    ensures
        spec_abs(c) <= r,
        spec_abs(c) * f / r <= f,
{
    let a = spec_abs(c);
    assert(a * a == c * c) by (nonlinear_arith)
        requires a == c || a == -c,
    ;
    if a > r {
        assert((r + 1) * (r + 1) <= a * a) by (nonlinear_arith)
            requires 0 <= r + 1 <= a,
        ;
    }
    assert(a * f <= r * f) by (nonlinear_arith)
        requires 0 <= a <= r, 0 <= f,
    ;
    lemma_div_is_ordered(a * f, r * f, r);
    lemma_div_multiples_vanish(f, r);
    assert((r * f) / r == f);
}

/// Remainder of `a / d`, rounded toward zero as Rust's `%` rounds it.
pub open spec fn spec_rem_trunc(a: int, d: int) -> int
    recommends d > 0,
{
    if a < 0 { -((-a) % d) } else { a % d }
}

/// `a % d`, computed on magnitudes so that the result follows the sign of
/// `a`, as Rust's remainder does.
pub fn rem_trunc(a: i64, d: i64) -> (r: i64)
    requires
        d > 0,
        spec_abs(a as int) <= 4_000_000_000_000_000_000,
    ensures
        r == spec_rem_trunc(a as int, d as int),
        spec_abs(r as int) < d,
{
    if a < 0 {
        -((-a) % d)
    } else {
        a % d
    }
}

/// A 2D fixed-point vector: a planar position, velocity or impulse.
#[derive(PartialEq, Eq, Structural, Clone, Copy, Debug)]
pub struct FxVec2 {
    pub x: i64,
    pub y: i64,
}

/// A 3D fixed-point vector: a spatial position, Euler rotation or scale.
#[derive(PartialEq, Eq, Structural, Clone, Copy, Debug)]
pub struct FxVec3 {
    pub x: i64,
    pub y: i64,
    pub z: i64,
}

/// Both components are stored world quantities.
pub open spec fn fx2_in_bounds(v: FxVec2) -> bool {
    fx_in_bounds(v.x as int) && fx_in_bounds(v.y as int)
}

/// All three components are stored world quantities.
pub open spec fn fx3_in_bounds(v: FxVec3) -> bool {
    fx_in_bounds(v.x as int) && fx_in_bounds(v.y as int) && fx_in_bounds(v.z as int)
}

impl FxVec2 {
    /// The origin.
    pub fn zero() -> (r: FxVec2)
        ensures
            r == (FxVec2 { x: 0, y: 0 }),
    {
        FxVec2 { x: 0, y: 0 }
    }
}

impl FxVec3 {
    /// The origin, as a specification value.
    pub open spec fn spec_zero() -> FxVec3 {
        FxVec3 { x: 0, y: 0, z: 0 }
    }

    /// The neutral scale, as a specification value.
    pub open spec fn spec_one() -> FxVec3 {
        FxVec3 { x: FX_ONE, y: FX_ONE, z: FX_ONE }
    }

    /// The origin.
    pub fn zero() -> (r: FxVec3)
        ensures
            r == FxVec3::spec_zero(),
    {
        FxVec3 { x: 0, y: 0, z: 0 }
    }

    /// One world unit along every axis, the neutral scale.
    pub fn one() -> (r: FxVec3)
        ensures
            r == FxVec3::spec_one(),
    {
        FxVec3 { x: FX_ONE, y: FX_ONE, z: FX_ONE }
    }
}

/// Integer square root by bisection.
pub fn isqrt(n: u64) -> (r: u64)
    requires
        n < 8_900_000_000_000_000_000u64,
    ensures
        is_isqrt(n as int, r as int),
        r == spec_isqrt(n as int),
{
    let mut lo: u64 = 0;
    let mut hi: u64 = 3_000_000_000;
    proof {
        assert(3_000_000_000u64 * 3_000_000_000u64 > n) by (nonlinear_arith)
            requires n < 8_900_000_000_000_000_000u64,
        ;
    }
    while hi - lo > 1
        invariant
            lo < hi,
            hi <= 3_000_000_000,
            lo * lo <= n,
            hi * hi > n,
        decreases hi - lo,
    {
        let mid = lo + (hi - lo) / 2;
        proof {
            assert(mid * mid <= 3_000_000_000u64 * 3_000_000_000u64) by (nonlinear_arith)
                requires mid <= 3_000_000_000u64,
            ;
        }
        if mid * mid <= n {
            lo = mid;
        } else {
            hi = mid;
        }
    }
    proof {
        assert((lo + 1) * (lo + 1) > n);
        lemma_isqrt_agrees(n as int, lo as int);
    }
    lo
}

} // verus!
