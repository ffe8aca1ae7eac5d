//! Fixed-point sine and cosine of angles in millionths of a radian.
//!
//! Angles are reduced and the series are summed in a finer unit, a millionth
//! of a millionth, so that whole turns and rounding cost next to nothing. On
//! the first eighth of a turn the sine is its Taylor polynomial of degree
//! nine; on the second it is the cosine polynomial of degree ten of the
//! complementary arc; the rest follows by symmetry. The fine results are
//! within a few thousandths of a millionth of the true values for angles of
//! up to a thousand radians, and the results in millionths are the nearest
//! ones.

use vstd::prelude::*;
use crate::fixed::ONE;

verus! {

/// Half a turn, rounded down.
pub const PI: i64 = 3_141_592;

/// A quarter of a turn, rounded down.
pub const HALF_PI: i64 = 1_570_796;

/// One whole unit in the fine steps that the series are summed in.
pub const FINE_ONE: i64 = 1_000_000_000_000;

/// A full turn in fine steps.
pub const FINE_TAU: i64 = 6_283_185_307_180;

/// Half a turn in fine steps.
pub const FINE_PI: i64 = 3_141_592_653_590;

/// A quarter of a turn in fine steps.
pub const FINE_HALF_PI: i64 = 1_570_796_326_795;

/// An eighth of a turn in fine steps.
pub const FINE_QUARTER_PI: i64 = 785_398_163_397;

/// The sine of an arc of up to an eighth of a turn, in fine steps:
/// `x - x^3/3! + x^5/5! - x^7/7! + x^9/9!`, by Horner's rule.
#[verifier::opaque]
pub open spec fn sine_series(x: int) -> int {
    let z = x * x / 1_000_000_000_000;
    let t4 = 1_000_000_000_000 - z / 72;
    let t3 = 1_000_000_000_000 - z * t4 / 42_000_000_000_000;
    let t2 = 1_000_000_000_000 - z * t3 / 20_000_000_000_000;
    let t1 = 1_000_000_000_000 - z * t2 / 6_000_000_000_000;
    x * t1 / 1_000_000_000_000
}

/// The cosine of an arc of up to an eighth of a turn, in fine steps:
/// `1 - x^2/2! + x^4/4! - x^6/6! + x^8/8! - x^10/10!`, by Horner's rule.
#[verifier::opaque]
pub open spec fn cosine_series(x: int) -> int {
    let z = x * x / 1_000_000_000_000;
    let c5 = 1_000_000_000_000 - z / 90;
    let c4 = 1_000_000_000_000 - z * c5 / 56_000_000_000_000;
    let c3 = 1_000_000_000_000 - z * c4 / 30_000_000_000_000;
    let c2 = 1_000_000_000_000 - z * c3 / 12_000_000_000_000;
    1_000_000_000_000 - z * c2 / 2_000_000_000_000
}

/// The sine of an arc of up to a quarter of a turn, in fine steps.
pub open spec fn sine_arc(x: int) -> int {
    if x <= FINE_QUARTER_PI {
        sine_series(x)
    } else {
        cosine_series(FINE_HALF_PI - x)
    }
}

/// The sine of any angle given in fine steps, in fine steps.
pub open spec fn sine_at(p: int) -> int {
    let m = p % (FINE_TAU as int);
    if m <= FINE_HALF_PI {
        sine_arc(m)
    } else if m <= FINE_PI {
        sine_arc(FINE_PI - m)
    } else if m <= FINE_PI + FINE_HALF_PI {
        -sine_arc(m - FINE_PI)
    } else {
        -sine_arc(FINE_TAU - m)
    }
}

/// The sine of an angle in millionths of a radian, in fine steps.
pub open spec fn sine_fine(a: int) -> int {
    sine_at(a * 1_000_000)
}

/// The cosine of an angle in millionths of a radian, in fine steps: the sine
/// a quarter turn ahead.
pub open spec fn cosine_fine(a: int) -> int {
    sine_at(a * 1_000_000 + FINE_HALF_PI)
}

/// A value in fine steps as the nearest value in millionths.
pub open spec fn to_millionths(fine: int) -> int {
    if fine >= 0 {
        (fine + 500_000) / 1_000_000
    } else {
        -((-fine + 500_000) / 1_000_000)
    }
}

/// The sine of an angle, both in millionths.
pub open spec fn sine(a: int) -> int {
    to_millionths(sine_fine(a))
}

/// The cosine of an angle, both in millionths.
pub open spec fn cosine(a: int) -> int {
    to_millionths(cosine_fine(a))
}

/// The sine polynomial of an arc of up to an eighth of a turn lies between
/// zero and one.
pub proof fn lemma_sine_series_bounded(x: int)
    requires
        0 <= x <= FINE_QUARTER_PI,
    ensures
        0 <= sine_series(x) <= FINE_ONE,
{
    reveal(sine_series);
    let z = x * x / 1_000_000_000_000;
    assert(0 <= x * x <= 785_398_163_397 * 785_398_163_397) by (nonlinear_arith)
        requires
            0 <= x <= 785_398_163_397,
    ;
    assert(0 <= z <= 620_000_000_000);
    let t4 = 1_000_000_000_000 - z / 72;
    assert(0 <= z * t4 <= 620_000_000_000 * 1_000_000_000_000) by (nonlinear_arith)
        requires
            0 <= z <= 620_000_000_000,
            0 <= t4 <= 1_000_000_000_000,
    ;
    let t3 = 1_000_000_000_000 - z * t4 / 42_000_000_000_000;
    assert(0 <= z * t3 <= 620_000_000_000 * 1_000_000_000_000) by (nonlinear_arith)
        requires
            0 <= z <= 620_000_000_000,
            0 <= t3 <= 1_000_000_000_000,
    ;
    let t2 = 1_000_000_000_000 - z * t3 / 20_000_000_000_000;
    assert(0 <= z * t2 <= 620_000_000_000 * 1_000_000_000_000) by (nonlinear_arith)
        requires
            0 <= z <= 620_000_000_000,
            0 <= t2 <= 1_000_000_000_000,
    ;
    let t1 = 1_000_000_000_000 - z * t2 / 6_000_000_000_000;
    assert(0 <= x * t1 <= 785_398_163_397 * 1_000_000_000_000) by (nonlinear_arith)
        requires
            0 <= x <= 785_398_163_397,
            0 <= t1 <= 1_000_000_000_000,
    ;
}

/// The cosine polynomial of an arc of up to an eighth of a turn lies between
/// zero and one.
pub proof fn lemma_cosine_series_bounded(x: int)
    requires
        0 <= x <= FINE_QUARTER_PI,
    ensures
        0 <= cosine_series(x) <= FINE_ONE,
{
    reveal(cosine_series);
    let z = x * x / 1_000_000_000_000;
    assert(0 <= x * x <= 785_398_163_397 * 785_398_163_397) by (nonlinear_arith)
        requires
            0 <= x <= 785_398_163_397,
    ;
    assert(0 <= z <= 620_000_000_000);
    let c5 = 1_000_000_000_000 - z / 90;
    assert(0 <= z * c5 <= 620_000_000_000 * 1_000_000_000_000) by (nonlinear_arith)
        requires
            0 <= z <= 620_000_000_000,
            0 <= c5 <= 1_000_000_000_000,
    ;
    let c4 = 1_000_000_000_000 - z * c5 / 56_000_000_000_000;
    assert(0 <= z * c4 <= 620_000_000_000 * 1_000_000_000_000) by (nonlinear_arith)
        requires
            0 <= z <= 620_000_000_000,
            0 <= c4 <= 1_000_000_000_000,
    ;
    let c3 = 1_000_000_000_000 - z * c4 / 30_000_000_000_000;
    assert(0 <= z * c3 <= 620_000_000_000 * 1_000_000_000_000) by (nonlinear_arith)
        requires
            0 <= z <= 620_000_000_000,
            0 <= c3 <= 1_000_000_000_000,
    ;
    let c2 = 1_000_000_000_000 - z * c3 / 12_000_000_000_000;
    assert(0 <= z * c2 <= 620_000_000_000 * 1_000_000_000_000) by (nonlinear_arith)
        requires
            0 <= z <= 620_000_000_000,
            0 <= c2 <= 1_000_000_000_000,
    ;
}

/// The sine of an arc of up to a quarter of a turn lies between zero and one.
pub proof fn lemma_sine_arc_bounded(x: int)
    requires
        0 <= x <= FINE_HALF_PI,
    ensures
        0 <= sine_arc(x) <= FINE_ONE,
{
    if x <= FINE_QUARTER_PI {
        lemma_sine_series_bounded(x);
    } else {
        lemma_cosine_series_bounded(FINE_HALF_PI - x);
    }
}

/// The sine of every angle lies between minus one and one.
pub proof fn lemma_sine_at_bounded(p: int)
    ensures
        -FINE_ONE <= sine_at(p) <= FINE_ONE,
{
    let m = p % (FINE_TAU as int);
    if m <= FINE_HALF_PI {
        lemma_sine_arc_bounded(m);
    } else if m <= FINE_PI {
        lemma_sine_arc_bounded(FINE_PI - m);
    } else if m <= FINE_PI + FINE_HALF_PI {
        lemma_sine_arc_bounded(m - FINE_PI);
    } else {
        lemma_sine_arc_bounded(FINE_TAU - m);
    }
}

/// Sine and cosine of every angle lie between minus one and one, in fine
/// steps and in millionths.
pub proof fn lemma_trig_bounded(a: int)
    ensures
        -FINE_ONE <= sine_fine(a) <= FINE_ONE,
        -FINE_ONE <= cosine_fine(a) <= FINE_ONE,
        -ONE <= sine(a) <= ONE,
        -ONE <= cosine(a) <= ONE,
{
    lemma_sine_at_bounded(a * 1_000_000);
    lemma_sine_at_bounded(a * 1_000_000 + FINE_HALF_PI);
}

fn sine_series_of(x: u64) -> (r: i64)
    requires
        x <= FINE_QUARTER_PI,
    ensures
        r == sine_series(x as int),
        0 <= r <= FINE_ONE,
{
    proof {
        reveal(sine_series);
    }
    let one: u128 = 1_000_000_000_000;
    let x: u128 = x as u128;
    assert(0 <= x * x <= 785_398_163_397 * 785_398_163_397) by (nonlinear_arith)
        requires
            0 <= x <= 785_398_163_397,
    ;
    let z: u128 = x * x / 1_000_000_000_000;
    let t4: u128 = one - z / 72;
    assert(0 <= z * t4 <= 620_000_000_000 * 1_000_000_000_000) by (nonlinear_arith)
        requires
            0 <= z <= 620_000_000_000,
            0 <= t4 <= 1_000_000_000_000,
    ;
    let t3: u128 = one - z * t4 / 42_000_000_000_000;
    assert(0 <= z * t3 <= 620_000_000_000 * 1_000_000_000_000) by (nonlinear_arith)
        requires
            0 <= z <= 620_000_000_000,
            0 <= t3 <= 1_000_000_000_000,
    ;
    let t2: u128 = one - z * t3 / 20_000_000_000_000;
    assert(0 <= z * t2 <= 620_000_000_000 * 1_000_000_000_000) by (nonlinear_arith)
        requires
            0 <= z <= 620_000_000_000,
            0 <= t2 <= 1_000_000_000_000,
    ;
    let t1: u128 = one - z * t2 / 6_000_000_000_000;
    assert(0 <= x * t1 <= 785_398_163_397 * 1_000_000_000_000) by (nonlinear_arith)
        requires
            0 <= x <= 785_398_163_397,
            0 <= t1 <= 1_000_000_000_000,
    ;
    (x * t1 / 1_000_000_000_000) as i64
}

fn cosine_series_of(x: u64) -> (r: i64)
    requires
        x <= FINE_QUARTER_PI,
    ensures
        r == cosine_series(x as int),
        0 <= r <= FINE_ONE,
{
    proof {
        reveal(cosine_series);
    }
    let one: u128 = 1_000_000_000_000;
    let x: u128 = x as u128;
    assert(0 <= x * x <= 785_398_163_397 * 785_398_163_397) by (nonlinear_arith)
        requires
            0 <= x <= 785_398_163_397,
    ;
    let z: u128 = x * x / 1_000_000_000_000;
    let c5: u128 = one - z / 90;
    assert(0 <= z * c5 <= 620_000_000_000 * 1_000_000_000_000) by (nonlinear_arith)
        requires
            0 <= z <= 620_000_000_000,
            0 <= c5 <= 1_000_000_000_000,
    ;
    let c4: u128 = one - z * c5 / 56_000_000_000_000;
    assert(0 <= z * c4 <= 620_000_000_000 * 1_000_000_000_000) by (nonlinear_arith)
        requires
            0 <= z <= 620_000_000_000,
            0 <= c4 <= 1_000_000_000_000,
    ;
    let c3: u128 = one - z * c4 / 30_000_000_000_000;
    assert(0 <= z * c3 <= 620_000_000_000 * 1_000_000_000_000) by (nonlinear_arith)
        requires
            0 <= z <= 620_000_000_000,
            0 <= c3 <= 1_000_000_000_000,
    ;
    let c2: u128 = one - z * c3 / 12_000_000_000_000;
    assert(0 <= z * c2 <= 620_000_000_000 * 1_000_000_000_000) by (nonlinear_arith)
        requires
            0 <= z <= 620_000_000_000,
            0 <= c2 <= 1_000_000_000_000,
    ;
    (one - z * c2 / 2_000_000_000_000) as i64
}

fn sine_arc_of(x: u64) -> (r: i64)
    requires
        x <= FINE_HALF_PI,
    ensures
        r == sine_arc(x as int),
        0 <= r <= FINE_ONE,
{
    if x <= FINE_QUARTER_PI as u64 {
        sine_series_of(x)
    } else {
        cosine_series_of(FINE_HALF_PI as u64 - x)
    }
}

/// The sine of an angle given in fine steps.
fn sine_of(p: i128) -> (r: i64)
    requires
        -10_000_000_000_000_000_000_000_000 <= p <= 10_000_000_000_000_000_000_000_000,
    ensures
        r == sine_at(p as int),
        -FINE_ONE <= r <= FINE_ONE,
{
    let turn: u128 = FINE_TAU as u128;
    let m: u64 = if p >= 0 {
        ((p as u128) % turn) as u64
    } else {
        let back: u128 = ((-p) as u128) % turn;
        if back == 0 {
            0
        } else {
            (turn - back) as u64
        }
    };
    assert(m == (p as int) % (FINE_TAU as int));
    if m <= FINE_HALF_PI as u64 {
        sine_arc_of(m)
    } else if m <= FINE_PI as u64 {
        sine_arc_of(FINE_PI as u64 - m)
    } else if m <= (FINE_PI + FINE_HALF_PI) as u64 {
        -sine_arc_of(m - FINE_PI as u64)
    } else {
        -sine_arc_of(FINE_TAU as u64 - m)
    }
}

fn rounded(fine: i64) -> (r: i64)
    requires
        -FINE_ONE <= fine <= FINE_ONE,
    ensures
        r == to_millionths(fine as int),
        -ONE <= r <= ONE,
{
    if fine >= 0 {
        (fine + 500_000) / 1_000_000
    } else {
        -((-fine + 500_000) / 1_000_000)
    }
}

/// The sine of `a`, in fine steps.
pub fn sin_fine(a: i64) -> (r: i64)
    ensures
        r == sine_fine(a as int),
        -FINE_ONE <= r <= FINE_ONE,
{
    sine_of(a as i128 * 1_000_000)
}

/// The cosine of `a`, in fine steps.
pub fn cos_fine(a: i64) -> (r: i64)
    ensures
        r == cosine_fine(a as int),
        -FINE_ONE <= r <= FINE_ONE,
{
    sine_of(a as i128 * 1_000_000 + FINE_HALF_PI as i128)
}

/// The sine of `a`, in millionths.
pub fn sin(a: i64) -> (r: i64)
    ensures
        r == sine(a as int),
        -ONE <= r <= ONE,
{
    rounded(sin_fine(a))
}

/// The cosine of `a`, in millionths.
pub fn cos(a: i64) -> (r: i64)
    ensures
        r == cosine(a as int),
        -ONE <= r <= ONE,
{
    rounded(cos_fine(a))
}

} // verus!
