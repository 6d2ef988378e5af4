//! Fixed-point rotations: `exp(2*pi*i * a / TURN)` for an angle given as a
//! whole number of turn units.
//!
//! A full turn is `TURN` angle units, so an angle is exactly periodic by
//! construction: only `a % TURN` matters.  Cosine and sine are evaluated on
//! the first quarter turn by a fixed-point polynomial (a truncated Taylor
//! series in Horner form) and extended to the full turn by quadrant
//! symmetry, which makes the four cardinal directions exact.

use vstd::prelude::*;
use vstd::arithmetic::div_mod::{lemma_mod_multiples_vanish, lemma_mul_mod_noop_right};

use crate::complex::Complex;

verus! {

/// Angle units in one full turn.  Equal to `complex::SCALE`, so that a time
/// parameter `t` in `[0, 1)` maps to whole angle units at the same scale.
pub const TURN: u64 = 65536;

/// Angle units in a quarter turn.
pub const QUARTER: u64 = 16384;

/// `2 * pi * SCALE`, rounded to the nearest integer: radians per turn in
/// fixed point.
pub const RADIANS_PER_TURN: u64 = 411775;

/// Clamps a fixed-point value into `[0, SCALE]`, absorbing the last unit or
/// two of polynomial truncation error at the interval ends.
pub open spec fn clamp_unit(v: int) -> int {
    if v < 0 {
        0
    } else if v > 65536 {
        65536
    } else {
        v
    }
}

/// Fixed-point cosine of `r` angle units, `0 <= r < QUARTER`, at scale
/// `SCALE`: the Taylor polynomial
/// `1 - x^2/2 * (1 - x^2/12 * (1 - x^2/30 * (1 - x^2/56)))` evaluated in
/// integer arithmetic on `x = r` converted to radians.
pub open spec fn cos_q_spec(r: int) -> int {
    let x: int = r * 411775 / 65536;
    let x2: int = x * x / 65536;
    let h1: int = 65536 - x2 / 56;
    let h2: int = 65536 - x2 * h1 / 65536 / 30;
    let h3: int = 65536 - x2 * h2 / 65536 / 12;
    clamp_unit(65536 - x2 * h3 / 65536 / 2)
}

/// Fixed-point sine of `r` angle units, `0 <= r < QUARTER`, at scale
/// `SCALE`: the Taylor polynomial
/// `x * (1 - x^2/6 * (1 - x^2/20 * (1 - x^2/42)))` in integer arithmetic.
pub open spec fn sin_q_spec(r: int) -> int {
    let x: int = r * 411775 / 65536;
    let x2: int = x * x / 65536;
    let s1: int = 65536 - x2 / 42;
    let s2: int = 65536 - x2 * s1 / 65536 / 20;
    let s3: int = 65536 - x2 * s2 / 65536 / 6;
    clamp_unit(x * s3 / 65536)
}

/// First-quadrant cosine.
pub fn cos_q(r: u64) -> (c: i64)
    requires
        r < QUARTER,
    ensures
        c == cos_q_spec(r as int),
        0 <= c <= 65536,
{
    let x: u64 = (r * 411775) / 65536;
    assert(x <= 102937);
    assert(x * x <= 102937 * 102937) by (nonlinear_arith)
        requires
            x <= 102937,
    ;
    let x2: u64 = (x * x) / 65536;
    assert(x2 <= 161683);
    let h1: u64 = 65536 - x2 / 56;
    assert(x2 * h1 <= 161683 * 65536) by (nonlinear_arith)
        requires
            x2 <= 161683 && h1 <= 65536,
    ;
    let h2: u64 = 65536 - (x2 * h1 / 65536) / 30;
    assert(x2 * h2 <= 161683 * 65536) by (nonlinear_arith)
        requires
            x2 <= 161683 && h2 <= 65536,
    ;
    let h3: u64 = 65536 - (x2 * h2 / 65536) / 12;
    assert(x2 * h3 <= 161683 * 65536) by (nonlinear_arith)
        requires
            x2 <= 161683 && h3 <= 65536,
    ;
    let d: u64 = (x2 * h3 / 65536) / 2;
    assert(d <= 80842);
    let c: i64 = 65536 - (d as i64);
    if c < 0 {
        0
    } else {
        c
    }
}

/// First-quadrant sine.
pub fn sin_q(r: u64) -> (s: i64)
    requires
        r < QUARTER,
    ensures
        s == sin_q_spec(r as int),
        0 <= s <= 65536,
{
    let x: u64 = (r * 411775) / 65536;
    assert(x <= 102937);
    assert(x * x <= 102937 * 102937) by (nonlinear_arith)
        requires
            x <= 102937,
    ;
    let x2: u64 = (x * x) / 65536;
    assert(x2 <= 161683);
    let s1: u64 = 65536 - x2 / 42;
    assert(x2 * s1 <= 161683 * 65536) by (nonlinear_arith)
        requires
            x2 <= 161683 && s1 <= 65536,
    ;
    let s2: u64 = 65536 - (x2 * s1 / 65536) / 20;
    assert(x2 * s2 <= 161683 * 65536) by (nonlinear_arith)
        requires
            x2 <= 161683 && s2 <= 65536,
    ;
    let s3: u64 = 65536 - (x2 * s2 / 65536) / 6;
    assert(x * s3 <= 102937 * 65536) by (nonlinear_arith)
        requires
            x <= 102937 && s3 <= 65536,
    ;
    let v: u64 = (x * s3) / 65536;
    assert(v <= 102937);
    if v > 65536 {
        65536
    } else {
        v as i64
    }
}

/// The unit rotation `exp(2*pi*i * a / TURN)` at scale `SCALE`, for any
/// angle `a` in turn units: reduce modulo a turn, split into quadrant and
/// first-quadrant remainder, and assemble by symmetry.
pub open spec fn rot_spec(a: int) -> (int, int) {
    let m: int = a % 65536;
    let q: int = m / 16384;
    let r: int = m % 16384;
    if q == 0 {
        (cos_q_spec(r), sin_q_spec(r))
    } else if q == 1 {
        (-sin_q_spec(r), cos_q_spec(r))
    } else if q == 2 {
        (-cos_q_spec(r), -sin_q_spec(r))
    } else {
        (sin_q_spec(r), -cos_q_spec(r))
    }
}

/// A rotation depends on its angle only modulo one turn.
pub proof fn lemma_rot_congruent(a: int, b: int)
    requires
        a % 65536 == b % 65536,
    ensures
        rot_spec(a) == rot_spec(b),
{
}

/// Computes the unit rotation for angle `a`.
pub fn unit_rot(a: u64) -> (rot: Complex)
    ensures
        rot@ == rot_spec(a as int),
        rot.bounded_by(65536),
{
    let m: u64 = a % 65536;
    let q: u64 = m / 16384;
    let r: u64 = m % 16384;
    let c: i64 = cos_q(r);
    let s: i64 = sin_q(r);
    if q == 0 {
        Complex { re: c, im: s }
    } else if q == 1 {
        Complex { re: -s, im: c }
    } else if q == 2 {
        Complex { re: -c, im: -s }
    } else {
        Complex { re: s, im: -c }
    }
}

/// At angle zero the rotation is exactly one: the polynomial has no error
/// term there, so the zero-frequency (DC) contribution never rotates.
pub proof fn lemma_rot_zero()
    ensures
        rot_spec(0) == (65536int, 0int),
{
    assert(cos_q_spec(0) == 65536) by (nonlinear_arith);
    assert(sin_q_spec(0) == 0) by (nonlinear_arith);
}

/// The rotation contributed by a frequency `k` at time `t` (both in turn
/// units): `exp(2*pi*i * k * t / TURN)`.  A negative frequency rotates the
/// other way, which is the complex conjugate of the positive one.
pub open spec fn freq_rot_spec(k: int, t: int) -> (int, int) {
    if k >= 0 {
        rot_spec(k * t)
    } else {
        let p: (int, int) = rot_spec(-k * t);
        (p.0, -p.1)
    }
}

/// Computes the frequency rotation for frequency `mag` (negated when `neg`
/// is set) at time `t`.
pub fn freq_rot(mag: u64, neg: bool, t: u64) -> (rot: Complex)
    requires
        mag < 65536,
    ensures
        rot@ == freq_rot_spec(if neg { -(mag as int) } else { mag as int }, t as int),
        rot.bounded_by(65536),
{
    let tm: u64 = t % 65536;
    assert(mag * tm < 65536 * 65536) by (nonlinear_arith)
        requires
            mag < 65536 && tm < 65536,
    ;
    let m: u64 = (mag * tm) % 65536;
    let base = unit_rot(m);
    proof {
        lemma_mul_mod_noop_right(mag as int, t as int, 65536);
        assert(m == (mag as int * t as int) % 65536);
        assert(m % 65536 == m);
        lemma_rot_congruent(m as int, mag as int * t as int);
        assert(base@ == rot_spec(mag as int * t as int));
        if mag == 0 {
            assert(mag as int * t as int == 0);
            lemma_rot_zero();
        }
    }
    if neg {
        Complex { re: base.re, im: -base.im }
    } else {
        base
    }
}

/// Advancing the time by one full period (`TURN` units) leaves every
/// frequency rotation unchanged.
pub proof fn lemma_freq_rot_periodic(k: int, t: int)
    ensures
        freq_rot_spec(k, t + 65536) == freq_rot_spec(k, t),
{
    if k >= 0 {
        assert(k * (t + 65536) == 65536 * k + k * t) by (nonlinear_arith);
        lemma_mod_multiples_vanish(k, k * t, 65536);
        lemma_rot_congruent(k * (t + 65536), k * t);
    } else {
        let p: int = -k;
        assert(p * (t + 65536) == 65536 * p + p * t) by (nonlinear_arith);
        lemma_mod_multiples_vanish(p, p * t, 65536);
        lemma_rot_congruent(p * (t + 65536), p * t);
    }
}

} // verus!
