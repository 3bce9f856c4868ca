//! Fixed-point quantities: every length, speed, time and factor is an integer
//! count of thousandths of its unit.

use vstd::arithmetic::div_mod::{lemma_fundamental_div_mod, lemma_mod_pos_bound};
use vstd::prelude::*;

verus! {

/// Number of fixed-point steps in one unit.
pub const SCALE: i64 = 1000;

/// Largest magnitude of a component that `normalize` accepts.
pub const DIRECTION_BOUND: i64 = 0x1_0000_0000;

/// A vector on the horizontal plane, each component in thousandths.
#[derive(Clone, Copy, Debug, PartialEq, Eq, Structural)]
pub struct FixedVec2 {
    pub x: i64,
    pub y: i64,
}

/// A vector in space (y points up), each component in thousandths.
#[derive(Clone, Copy, Debug, PartialEq, Eq, Structural)]
pub struct FixedVec3 {
    pub x: i64,
    pub y: i64,
    pub z: i64,
}

/// Division that rounds toward zero, as integer division does in Rust.
pub open spec fn trunc_div(a: int, d: int) -> int {
    if a >= 0 {
        a / d
    } else {
        -((-a) / d)
    }
}

/// `r` is the square root of `q`, rounded down.
pub open spec fn is_floor_sqrt(r: int, q: int) -> bool {
    0 <= r && r * r <= q && q < (r + 1) * (r + 1)
}

/// The square root of `q`, rounded down.
pub open spec fn floor_sqrt(q: int) -> int {
    choose|r: int| is_floor_sqrt(r, q)
}

/// Absolute value.
pub open spec fn magnitude(a: int) -> int {
    if a >= 0 {
        a
    } else {
        -a
    }
}

/// Squared length of a planar vector.
pub open spec fn len2(v: FixedVec2) -> int {
    v.x * v.x + v.y * v.y
}

/// One component `c` of a nonzero planar vector of squared length `q`, scaled
/// to unit length: `c / sqrt(q)` in thousandths, rounded toward zero. The
/// square root is taken of the vector scaled up by `SCALE`, for precision.
pub open spec fn norm_component(c: int, q: int) -> int {
    trunc_div(c * SCALE * SCALE, floor_sqrt(SCALE * SCALE * q))
}

proof fn lemma_square_monotone(a: int, b: int)
    requires
        0 <= a <= b,
    ensures
        0 <= a * a <= b * b,
{
    assert(0 <= a * a <= b * b) by (nonlinear_arith)
        requires
            0 <= a <= b,
    ;
}

proof fn lemma_square_bound(a: int, b: int)
    requires
        -b <= a <= b,
    ensures
        0 <= a * a <= b * b,
{
    assert(0 <= a * a <= b * b) by (nonlinear_arith)
        requires
            -b <= a <= b,
    ;
}

/// Every non-negative integer has a floor square root.
proof fn lemma_floor_sqrt_exists(q: int)
    requires
        q >= 0,
    ensures
        is_floor_sqrt(floor_sqrt(q), q),
    decreases q,
{
    if q == 0 {
        assert(is_floor_sqrt(0, q));
    } else {
        lemma_floor_sqrt_exists(q - 1);
        let p = floor_sqrt(q - 1);
        if (p + 1) * (p + 1) <= q {
            assert((p + 1) * (p + 1) == q);
            assert(q < (p + 2) * (p + 2)) by (nonlinear_arith)
                requires
                    (p + 1) * (p + 1) == q,
                    p >= 0,
            ;
            assert(is_floor_sqrt(p + 1, q));
        } else {
            assert(is_floor_sqrt(p, q));
        }
    }
}

/// The floor square root is unique.
proof fn lemma_floor_sqrt_unique(r: int, q: int)
    requires
        is_floor_sqrt(r, q),
    ensures
        floor_sqrt(q) == r,
{
    let s = floor_sqrt(q);
    assert(is_floor_sqrt(s, q));
    if s < r {
        lemma_square_monotone(s + 1, r);
    } else if r < s {
        lemma_square_monotone(r + 1, s);
    }
}

/// The floor square root of a value at least `k * k` is at least `k`.
proof fn lemma_floor_sqrt_at_least(r: int, q: int, k: int)
    requires
        is_floor_sqrt(r, q),
        0 <= k,
        k * k <= q,
    ensures
        k <= r,
{
    if r < k {
        lemma_square_monotone(r + 1, k);
    }
}

/// Truncating division of `a` by a positive `d` has magnitude `|a| / d`.
pub proof fn lemma_trunc_div_abs(a: int, d: int)
    requires
        d > 0,
    ensures
        (if trunc_div(a, d) >= 0 { trunc_div(a, d) } else { -trunc_div(a, d) }) == (if a >= 0 {
            a
        } else {
            -a
        }) / d,
        (a >= 0) == (trunc_div(a, d) >= 0) || trunc_div(a, d) == 0,
{
    let m = if a >= 0 { a } else { -a };
    lemma_fundamental_div_mod(m, d);
    lemma_mod_pos_bound(m, d);
    assert(m / d >= 0) by (nonlinear_arith)
        requires
            m >= 0,
            d > 0,
            m == d * (m / d) + (m % d),
            0 <= m % d < d,
    ;
}

/// Magnitude of a truncating quotient, bounded by the dividend: for `d >= 1`,
/// `|trunc_div(a, d)| <= |a|`.
pub(crate) proof fn lemma_trunc_div_shrinks(a: int, d: int)
    requires
        d >= 1,
    ensures
        -(if a >= 0 { a } else { -a }) <= trunc_div(a, d) <= (if a >= 0 { a } else { -a }),
{
    let m = if a >= 0 { a } else { -a };
    lemma_trunc_div_abs(a, d);
    lemma_fundamental_div_mod(m, d);
    lemma_mod_pos_bound(m, d);
    assert(m / d <= m) by (nonlinear_arith)
        requires
            m >= 0,
            d >= 1,
            m == d * (m / d) + (m % d),
            0 <= m % d < d,
    ;
}

/// A planar vector scaled to unit length; the zero vector stays zero.
pub open spec fn normalized(v: FixedVec2) -> FixedVec2 {
    if v.x == 0 && v.y == 0 {
        v
    } else {
        FixedVec2 {
            x: norm_component(v.x as int, len2(v)) as i64,
            y: norm_component(v.y as int, len2(v)) as i64,
        }
    }
}

/// A nonzero vector scaled by `normalize` has unit length up to the rounding
/// of each component: its length is below `SCALE + 1`, and rounding each
/// component's magnitude up by one step would make it longer than `SCALE`.
pub proof fn lemma_normalize_unit(v: FixedVec2)
    requires
        !(v.x == 0 && v.y == 0),
    ensures
        ({
            let nx = norm_component(v.x as int, len2(v));
            let ny = norm_component(v.y as int, len2(v));
            &&& -SCALE <= nx <= SCALE
            &&& -SCALE <= ny <= SCALE
            &&& nx * nx + ny * ny < (SCALE + 1) * (SCALE + 1)
            &&& (magnitude(nx) + 1) * (magnitude(nx) + 1) + (magnitude(ny) + 1) * (magnitude(ny)
                + 1) > SCALE * SCALE
        }),
{
    let a = magnitude(v.x as int) * 1000;
    let b = magnitude(v.y as int) * 1000;
    let q = 1000 * 1000 * len2(v);
    assert(q == a * a + b * b) by (nonlinear_arith)
        requires
            q == 1000 * 1000 * (v.x * v.x + v.y * v.y),
            a == magnitude(v.x as int) * 1000,
            b == magnitude(v.y as int) * 1000,
    ;
    assert(len2(v) >= 1) by (nonlinear_arith)
        requires
            !(v.x == 0 && v.y == 0),
    ;
    assert(q >= 1000 * 1000) by (nonlinear_arith)
        requires
            q == 1000 * 1000 * len2(v),
            len2(v) >= 1,
    ;
    lemma_floor_sqrt_exists(q);
    let r = floor_sqrt(q);
    lemma_floor_sqrt_at_least(r, q, 1000);
    let nx = norm_component(v.x as int, len2(v));
    let ny = norm_component(v.y as int, len2(v));
    lemma_trunc_div_abs(v.x * 1000 * 1000, r);
    lemma_trunc_div_abs(v.y * 1000 * 1000, r);
    let x = magnitude(nx);
    let y = magnitude(ny);
    assert(x == (a * 1000) / r);
    assert(y == (b * 1000) / r);
    lemma_fundamental_div_mod(a * 1000, r);
    lemma_mod_pos_bound(a * 1000, r);
    lemma_fundamental_div_mod(b * 1000, r);
    lemma_mod_pos_bound(b * 1000, r);
    assert(x * r <= a * 1000 < (x + 1) * r) by (nonlinear_arith)
        requires
            a * 1000 == r * x + (a * 1000) % r,
            0 <= (a * 1000) % r < r,
    ;
    assert(y * r <= b * 1000 < (y + 1) * r) by (nonlinear_arith)
        requires
            b * 1000 == r * y + (b * 1000) % r,
            0 <= (b * 1000) % r < r,
    ;
    assert((x * x + y * y) * (r * r) <= q * 1000000) by (nonlinear_arith)
        requires
            x >= 0,
            y >= 0,
            r >= 0,
            x * r <= a * 1000,
            y * r <= b * 1000,
            q == a * a + b * b,
    ;
    assert((x * x + y * y) < 1001 * 1001) by (nonlinear_arith)
        requires
            (x * x + y * y) * (r * r) <= q * 1000000,
            q < (r + 1) * (r + 1),
            r >= 1000,
    ;
    assert(((x + 1) * (x + 1) + (y + 1) * (y + 1)) * (r * r) > q * 1000000) by (nonlinear_arith)
        requires
            x >= 0,
            y >= 0,
            a >= 0,
            b >= 0,
            a * 1000 < (x + 1) * r,
            b * 1000 < (y + 1) * r,
            q == a * a + b * b,
    ;
    assert((x + 1) * (x + 1) + (y + 1) * (y + 1) > 1000000) by (nonlinear_arith)
        requires
            ((x + 1) * (x + 1) + (y + 1) * (y + 1)) * (r * r) > q * 1000000,
            r * r <= q,
            r >= 1000,
    ;
    assert(x <= 1000 && y <= 1000) by (nonlinear_arith)
        requires
            x >= 0,
            y >= 0,
            x * x + y * y < 1001 * 1001,
    ;
    assert(nx * nx == x * x) by (nonlinear_arith)
        requires
            x == magnitude(nx),
    ;
    assert(ny * ny == y * y) by (nonlinear_arith)
        requires
            y == magnitude(ny),
    ;
}

/// Divides `a` by a positive `d`, rounding toward zero.
pub fn div_toward_zero(a: i128, d: i128) -> (r: i128)
    requires
        d > 0,
        a > i128::MIN,
    ensures
        r == trunc_div(a as int, d as int),
{
    if a >= 0 {
        a / d
    } else {
        let m: i128 = -a;
        proof {
            lemma_trunc_div_shrinks(a as int, d as int);
        }
        -(m / d)
    }
}

/// The square root of `q`, rounded down.
pub fn isqrt(q: u128) -> (r: u128)
    requires
        q < 0x10_0000_0000_0000_0000_0000_0000,
    ensures
        is_floor_sqrt(r as int, q as int),
{
    let mut lo: u128 = 0;
    let mut hi: u128 = 0x4_0000_0000_0000;
    assert(hi * hi == 0x10_0000_0000_0000_0000_0000_0000);
    while hi - lo > 1
        invariant
            lo < hi <= 0x4_0000_0000_0000,
            lo * lo <= q,
            q < hi * hi,
        decreases hi - lo,
    {
        let mid: u128 = lo + (hi - lo) / 2;
        assert(mid * mid <= 0x10_0000_0000_0000_0000_0000_0000) by {
            lemma_square_monotone(mid as int, 0x4_0000_0000_0000int);
        }
        if mid * mid <= q {
            lo = mid;
        } else {
            hi = mid;
        }
    }
    lo
}

/// Scales a planar vector to unit length (`SCALE` thousandths); the zero
/// vector stays zero.
pub fn normalize(v: FixedVec2) -> (n: FixedVec2)
    requires
        -DIRECTION_BOUND <= v.x <= DIRECTION_BOUND,
        -DIRECTION_BOUND <= v.y <= DIRECTION_BOUND,
    ensures
        n == normalized(v),
{
    if v.x == 0 && v.y == 0 {
        return v;
    }
    let mx: i128 = v.x as i128 * 1000;
    let my: i128 = v.y as i128 * 1000;
    proof {
        lemma_square_bound(mx as int, 0x1_0000_0000int * 1000);
        lemma_square_bound(my as int, 0x1_0000_0000int * 1000);
    }
    let q: u128 = (mx * mx + my * my) as u128;
    assert(q as int == SCALE * SCALE * len2(v)) by (nonlinear_arith)
        requires
            mx == v.x * 1000,
            my == v.y * 1000,
            q == mx * mx + my * my,
    ;
    assert(len2(v) >= 1) by (nonlinear_arith)
        requires
            !(v.x == 0 && v.y == 0),
    ;
    assert(q >= 1) by (nonlinear_arith)
        requires
            q == 1000 * 1000 * len2(v),
            len2(v) >= 1,
    ;
    let r: u128 = isqrt(q);
    proof {
        lemma_floor_sqrt_unique(r as int, q as int);
        lemma_floor_sqrt_at_least(r as int, q as int, 1);
        if r >= 0x4_0000_0000_0000 {
            lemma_square_monotone(0x4_0000_0000_0000int, r as int);
        }
        lemma_trunc_div_shrinks(mx * 1000, r as int);
        lemma_trunc_div_shrinks(my * 1000, r as int);
    }
    let d: i128 = r as i128;
    let nx: i128 = div_toward_zero(mx * 1000, d);
    let ny: i128 = div_toward_zero(my * 1000, d);
    FixedVec2 { x: nx as i64, y: ny as i64 }
}

} // verus!
