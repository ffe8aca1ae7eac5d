//! Fixed-point scale, field limits and the integer square root.

use vstd::prelude::*;

verus! {

/// One whole unit (a pixel, a second, a radian) in fixed-point steps.
pub const ONE: i64 = 1_000_000;

/// Largest magnitude of a coordinate in the simulation field: a million pixels.
pub const FIELD_LIMIT: i64 = 1_000_000_000_000;

/// Whether `v` is a coordinate inside the simulation field.
pub open spec fn in_limit(v: int) -> bool {
    -FIELD_LIMIT <= v <= FIELD_LIMIT
}

/// The absolute value of an integer.
pub open spec fn magnitude(v: int) -> int {
    if v < 0 {
        -v
    } else {
        v
    }
}

/// The quotient of `n` by a positive `d`, rounded toward zero.
pub open spec fn div_toward_zero(n: int, d: int) -> int {
    if n >= 0 {
        n / d
    } else {
        -((-n) / d)
    }
}

/// The quotient of a `n` that is not negative by a positive `d`, rounded to
/// the nearest whole number, and up from the middle.
pub open spec fn div_nearest(n: int, d: int) -> int {
    (2 * n + d) / (2 * d)
}

/// The product of two fixed-point numbers, rounded toward zero.
pub open spec fn mul_fixed(a: int, b: int) -> int {
    div_toward_zero(a * b, 1_000_000)
}

/// A point of the plane whose coordinates both lie inside the field.
pub open spec fn in_field(p: (i64, i64)) -> bool {
    in_limit(p.0 as int) && in_limit(p.1 as int)
}

/// A point with its coordinates as mathematical integers.
pub open spec fn point(p: (i64, i64)) -> (int, int) {
    (p.0 as int, p.1 as int)
}

/// The sum of the squared coordinate differences of two points.
pub open spec fn squared_distance(a: (int, int), b: (int, int)) -> nat {
    ((a.0 - b.0) * (a.0 - b.0) + (a.1 - b.1) * (a.1 - b.1)) as nat
}

/// The distance between two points, rounded up to the next fixed-point step:
/// the least `d` with `d * d` no less than the squared distance.
pub open spec fn distance_between(a: (int, int), b: (int, int)) -> int {
    ceil_sqrt(squared_distance(a, b)) as int
}

/// Whether `r` is the largest number whose square does not exceed `n`.
pub open spec fn is_floor_sqrt(n: nat, r: nat) -> bool {
    r * r <= n < (r + 1) * (r + 1)
}

/// The largest `r` with `r * r <= n`.
pub open spec fn floor_sqrt(n: nat) -> nat {
    choose|r: nat| is_floor_sqrt(n, r)
}

/// The least `r` with `r * r >= n`.
pub open spec fn ceil_sqrt(n: nat) -> nat {
    let r = floor_sqrt(n);
    if r * r == n {
        r
    } else {
        r + 1
    }
}

/// The floor square root of `n` brackets `n`.
pub proof fn lemma_floor_sqrt_brackets(n: nat)
    ensures
        is_floor_sqrt(n, floor_sqrt(n)),
    decreases n,
{
    if n == 0 {
        assert(0nat * 0nat <= 0 < (0nat + 1) * (0nat + 1)) by (nonlinear_arith);
        assert(is_floor_sqrt(0, 0));
    } else {
        lemma_floor_sqrt_brackets((n - 1) as nat);
        let r = floor_sqrt((n - 1) as nat);
        if (r + 1) * (r + 1) <= n {
            assert(is_floor_sqrt(n, r + 1)) by (nonlinear_arith)
                requires
                    r * r <= n - 1 < (r + 1) * (r + 1),
                    (r + 1) * (r + 1) <= n,
            ;
        } else {
            assert(is_floor_sqrt(n, r));
        }
    }
}

/// The distance between two points is no less than the true distance, exceeds
/// it by less than one step, and is zero only between a point and itself.
pub proof fn lemma_distance_bounds(a: (int, int), b: (int, int))
    ensures
        distance_between(a, b) * distance_between(a, b) >= squared_distance(a, b),
        distance_between(a, b) > 0 ==> (distance_between(a, b) - 1) * (distance_between(a, b) - 1)
            < squared_distance(a, b),
        magnitude(a.0 - b.0) <= distance_between(a, b),
        magnitude(a.1 - b.1) <= distance_between(a, b),
        distance_between(a, b) == 0 <==> a == b,
{
    let n = squared_distance(a, b);
    let r = floor_sqrt(n);
    let d = distance_between(a, b);
    let (dx, dy) = (magnitude(a.0 - b.0), magnitude(a.1 - b.1));
    lemma_floor_sqrt_brackets(n);
    assert(dx * dx == (a.0 - b.0) * (a.0 - b.0) && dy * dy == (a.1 - b.1) * (a.1 - b.1))
        by (nonlinear_arith)
        requires
            dx == magnitude(a.0 - b.0),
            dy == magnitude(a.1 - b.1),
    ;
    assert(0 <= dx * dx && 0 <= dy * dy) by (nonlinear_arith);
    assert(n == dx * dx + dy * dy);
    assert(d * d >= n && (d > 0 ==> (d - 1) * (d - 1) < n)) by (nonlinear_arith)
        requires
            r * r <= n < (r + 1) * (r + 1),
            d == r || d == r + 1,
            d == r <==> r * r == n,
    ;
    assert(dx <= d && dy <= d && (d == 0 <==> (dx == 0 && dy == 0))) by (nonlinear_arith)
        requires
            d * d >= dx * dx + dy * dy,
            d > 0 ==> (d - 1) * (d - 1) < dx * dx + dy * dy,
            0 <= dx,
            0 <= dy,
            0 <= d,
    ;
}

/// A root candidate that brackets `n` is the floor square root of `n`.
pub proof fn lemma_floor_sqrt_unique(n: nat, r: nat)
    requires
        is_floor_sqrt(n, r),
    ensures
        floor_sqrt(n) == r,
{
    let c = floor_sqrt(n);
    assert(is_floor_sqrt(n, c));
    assert(c == r) by (nonlinear_arith)
        requires
            c * c <= n < (c + 1) * (c + 1),
            r * r <= n < (r + 1) * (r + 1),
    ;
}

/// The product of any two 64-bit fixed-point numbers stays far inside the range
/// of a 128-bit integer.
pub proof fn lemma_mul_fixed_range(a: i64, b: i64)
    ensures
        -100_000_000_000_000_000_000_000_000_000_000 <= mul_fixed(a as int, b as int)
            <= 100_000_000_000_000_000_000_000_000_000_000,
{
    let (x, y) = (magnitude(a as int), magnitude(b as int));
    assert(0 <= x * y <= 0x8000_0000_0000_0000 * 0x8000_0000_0000_0000) by (nonlinear_arith)
        requires
            0 <= x <= 0x8000_0000_0000_0000,
            0 <= y <= 0x8000_0000_0000_0000,
    ;
    assert(a * b == x * y || a * b == -(x * y)) by (nonlinear_arith)
        requires
            x == magnitude(a as int),
            y == magnitude(b as int),
    ;
}

/// Whether both coordinates of `p` lie inside the field.
pub fn is_in_field(p: (i64, i64)) -> (r: bool)
    ensures
        r == in_field(p),
{
    -FIELD_LIMIT <= p.0 && p.0 <= FIELD_LIMIT && -FIELD_LIMIT <= p.1 && p.1 <= FIELD_LIMIT
}

/// The magnitude of `v` as an unsigned number.
pub fn abs_u64(v: i64) -> (r: u64)
    ensures
        r == magnitude(v as int),
{
    if v >= 0 {
        v as u64
    } else if v == i64::MIN {
        0x8000_0000_0000_0000u64
    } else {
        (-v) as u64
    }
}

/// The product of two fixed-point numbers, rounded toward zero, in a type wide
/// enough for any two factors.
pub fn fixed_product(a: i64, b: i64) -> (r: i128)
    ensures
        r == mul_fixed(a as int, b as int),
        -100_000_000_000_000_000_000_000_000_000_000 <= r
            <= 100_000_000_000_000_000_000_000_000_000_000,
{
    let x: u128 = abs_u64(a) as u128;
    let y: u128 = abs_u64(b) as u128;
    assert(0 <= x * y <= 0x8000_0000_0000_0000 * 0x8000_0000_0000_0000) by (nonlinear_arith)
        requires
            0 <= x <= 0x8000_0000_0000_0000,
            0 <= y <= 0x8000_0000_0000_0000,
    ;
    let q: u128 = x * y / 1_000_000;
    proof {
        let (ai, bi) = (a as int, b as int);
        assert((ai >= 0) == (bi >= 0) ==> ai * bi == x * y) by (nonlinear_arith)
            requires
                x == magnitude(ai),
                y == magnitude(bi),
        ;
        assert((ai >= 0) != (bi >= 0) ==> -(ai * bi) == x * y) by (nonlinear_arith)
            requires
                x == magnitude(ai),
                y == magnitude(bi),
        ;
    }
    if (a >= 0) == (b >= 0) {
        q as i128
    } else {
        -(q as i128)
    }
}

/// Integer square root, rounded down.
pub fn isqrt(n: u128) -> (r: u64)
    ensures
        r == floor_sqrt(n as nat),
        is_floor_sqrt(n as nat, r as nat),
{
    let mut lo: u128 = 0;
    let mut hi: u128 = 0x1_0000_0000_0000_0000;
    assert(hi * hi > n) by (nonlinear_arith)
        requires
            hi == 0x1_0000_0000_0000_0000,
            n <= u128::MAX,
    ;
    while hi - lo > 1
        invariant
            lo < hi <= 0x1_0000_0000_0000_0000,
            lo * lo <= n < hi * hi,
        decreases hi - lo,
    {
        let mid: u128 = lo + (hi - lo) / 2;
        assert(mid * mid <= u128::MAX) by (nonlinear_arith)
            requires
                0 <= mid < 0x1_0000_0000_0000_0000,
        ;
        if mid * mid <= n {
            lo = mid;
        } else {
            hi = mid;
        }
    }
    proof {
        lemma_floor_sqrt_unique(n as nat, lo as nat);
    }
    lo as u64
}

/// The distance between two points of the field, rounded up.
pub fn distance(a: (i64, i64), b: (i64, i64)) -> (d: u64)
    requires
        in_field(a),
        in_field(b),
    ensures
        d == distance_between(point(a), point(b)),
        magnitude(a.0 - b.0) <= d,
        magnitude(a.1 - b.1) <= d,
        d == 0 <==> a == b,
        d <= 3_000_000_000_001,
{
    let dx: u128 = abs_u64(a.0 - b.0) as u128;
    let dy: u128 = abs_u64(a.1 - b.1) as u128;
    assert(dx * dx <= 2_000_000_000_000 * 2_000_000_000_000) by (nonlinear_arith)
        requires
            0 <= dx <= 2_000_000_000_000,
    ;
    assert(dy * dy <= 2_000_000_000_000 * 2_000_000_000_000) by (nonlinear_arith)
        requires
            0 <= dy <= 2_000_000_000_000,
    ;
    assert(dx * dx == (a.0 - b.0) * (a.0 - b.0)) by (nonlinear_arith)
        requires
            dx == magnitude(a.0 - b.0),
    ;
    assert(dy * dy == (a.1 - b.1) * (a.1 - b.1)) by (nonlinear_arith)
        requires
            dy == magnitude(a.1 - b.1),
    ;
    let squared: u128 = dx * dx + dy * dy;
    let root: u64 = isqrt(squared);
    assert(root <= 3_000_000_000_000) by (nonlinear_arith)
        requires
            root * root <= squared,
            squared <= 8_000_000_000_000_000_000_000_000,
            0 <= root,
    ;
    proof {
        lemma_distance_bounds(point(a), point(b));
    }
    if (root as u128) * (root as u128) == squared {
        root
    } else {
        root + 1
    }
}

} // verus!
