//! Coefficient engine: brute-force rectangle-rule quadrature of the Fourier
//! integrals.
//!
//! The periodic function arrives as its samples at the left edges of `A`
//! equal subintervals of one period (`A` = the number of samples, the
//! quadrature resolution).  For each frequency `k` in `[-N, N]` the engine
//! sums `sample[j] * exp(-2*pi*i * k * j / A)` over all samples and divides
//! by `A`, storing the result at index `N + k`.

use vstd::prelude::*;
use vstd::arithmetic::div_mod::{
    lemma_div_denominator, lemma_div_is_ordered, lemma_div_multiples_vanish,
    lemma_div_nonincreasing, lemma_div_pos_is_pos,
};

use crate::complex::{
    cadd_model, complex_add, complex_mul, lemma_cmul_by_one, Complex, COEFF_BOUND, SAMPLE_BOUND,
    SAMPLE_TERM_BOUND,
};
use crate::series::{wf_coeffs, MAX_ORDER};
use crate::trig::{freq_rot, freq_rot_spec, lemma_rot_zero};

verus! {

/// Largest admitted quadrature resolution (number of samples): keeps a full
/// quadrature sum inside `i64`.
pub const MAX_SAMPLES: usize = 65536;

/// A well-formed sample sequence: non-empty, within the resolution cap, and
/// every sample within `SAMPLE_BOUND`.
pub open spec fn wf_samples(s: Seq<Complex>) -> bool {
    &&& 1 <= s.len() <= MAX_SAMPLES
    &&& forall|i: int| 0 <= i < s.len() ==> s[i].bounded_by(SAMPLE_BOUND as int)
}

/// The time, in turn units, of sample `j` out of `a`: the left edge of the
/// `j`-th of `a` equal subintervals of one period.
pub open spec fn sample_angle(j: int, a: int) -> int {
    j * 65536 / a
}

/// One rectangle-rule integrand value for frequency `k`:
/// `sample[j] * exp(-2*pi*i * k * t_j)`.
pub open spec fn integrand(s: Seq<Complex>, k: int, j: int) -> (int, int) {
    crate::complex::cmul_model(s[j]@, freq_rot_spec(-k, sample_angle(j, s.len() as int)))
}

/// Sum of the first `j` integrand values for frequency `k`.
pub open spec fn integrand_sum(s: Seq<Complex>, k: int, j: int) -> (int, int)
    decreases j,
{
    if j <= 0 {
        (0int, 0int)
    } else {
        cadd_model(integrand_sum(s, k, j - 1), integrand(s, k, j - 1))
    }
}

/// Signed division truncating toward zero (the rounding the engine uses
/// when rescaling a quadrature sum).
pub open spec fn sdiv_model(x: int, d: int) -> int {
    if x >= 0 {
        x / d
    } else {
        -((-x) / d)
    }
}

/// The Fourier coefficient of frequency `k`: the full quadrature sum (at
/// scale `SCALE * SCALE`) divided by `len * SCALE`, i.e. the mean of the
/// integrand samples brought back to scale `SCALE`.
pub open spec fn coeff_model(s: Seq<Complex>, k: int) -> (int, int) {
    let total = integrand_sum(s, k, s.len() as int);
    (sdiv_model(total.0, s.len() as int * 65536), sdiv_model(total.1, s.len() as int * 65536))
}

/// Truncating signed division.
pub fn sdiv(x: i64, d: u64) -> (q: i64)
    requires
        1 <= d,
        x > i64::MIN,
    ensures
        q == sdiv_model(x as int, d as int),
{
    if x >= 0 {
        let ax: u64 = x as u64;
        let q: u64 = ax / d;
        proof {
            lemma_div_nonincreasing(ax as int, d as int);
            lemma_div_pos_is_pos(ax as int, d as int);
        }
        q as i64
    } else {
        let ax: u64 = (-x) as u64;
        let q: u64 = ax / d;
        proof {
            lemma_div_nonincreasing(ax as int, d as int);
            lemma_div_pos_is_pos(ax as int, d as int);
        }
        -(q as i64)
    }
}

/// Truncating division keeps a quotient bound: `|x| <= b * d` gives
/// `|x / d| <= b`.
proof fn lemma_sdiv_bound(x: int, d: int, b: int)
    requires
        1 <= d,
        0 <= b,
        -(b * d) <= x <= b * d,
    ensures
        -b <= sdiv_model(x, d) <= b,
{
    assert(b * d == d * b) by (nonlinear_arith);
    lemma_div_multiples_vanish(b, d);
    if x >= 0 {
        lemma_div_is_ordered(x, b * d, d);
        lemma_div_pos_is_pos(x, d);
    } else {
        lemma_div_is_ordered(-x, b * d, d);
        lemma_div_pos_is_pos(-x, d);
    }
}

/// Computes the `2*n + 1` Fourier coefficients of frequencies `[-n, n]`
/// from the curve's samples, by rectangle-rule quadrature at resolution
/// `samples.len()`.
pub fn compute_coefficients(samples: &Vec<Complex>, n: usize) -> (coeffs: Vec<Complex>)
    requires
        wf_samples(samples@),
        n <= MAX_ORDER,
    ensures
        coeffs@.len() == 2 * n + 1,
        forall|i: int| 0 <= i < coeffs@.len() ==> coeffs@[i]@ == coeff_model(samples@, i - n),
        wf_coeffs(coeffs@),
{
    let a: usize = samples.len();
    let divisor: u64 = (a as u64) * 65536;
    let count: usize = 2 * n + 1;
    let mut coeffs: Vec<Complex> = Vec::new();
    let mut i: usize = 0;
    while i < count
        invariant
            wf_samples(samples@),
            a == samples@.len(),
            divisor == a * 65536,
            count == 2 * n + 1,
            n <= MAX_ORDER,
            0 <= i <= count,
            coeffs@.len() == i,
            forall|idx: int| 0 <= idx < i ==> coeffs@[idx]@ == coeff_model(samples@, idx - n),
            forall|idx: int| 0 <= idx < i ==> coeffs@[idx].bounded_by(COEFF_BOUND as int),
        decreases count - i,
    {
        // The integrand rotates with frequency `-k`, `k = i - n`.
        let mag: u64 = if i < n {
            (n - i) as u64
        } else {
            (i - n) as u64
        };
        let mut total = Complex::zero();
        let mut j: usize = 0;
        while j < a
            invariant
                wf_samples(samples@),
                a == samples@.len(),
                n <= MAX_ORDER,
                i <= 2 * n,
                mag == if i < n { n - i } else { i - n },
                0 <= j <= a,
                total@ == integrand_sum(samples@, i - n, j as int),
                total.bounded_by(j as int * SAMPLE_TERM_BOUND as int),
            decreases a - j,
        {
            let tu: u64 = ((j as u64) * 65536) / (a as u64);
            let rot = freq_rot(mag, i >= n, tu);
            let term = complex_mul(samples[j], rot);
            proof {
                assert(tu == sample_angle(j as int, a as int));
                assert(term@ == integrand(samples@, i - n, j as int));
            }
            total = complex_add(total, term);
            j = j + 1;
        }
        let re: i64 = sdiv(total.re, divisor);
        let im: i64 = sdiv(total.im, divisor);
        proof {
            assert(a as int * SAMPLE_TERM_BOUND as int == 67108864 * (divisor as int))
                by (nonlinear_arith)
                requires
                    divisor == a as int * 65536,
            ;
            lemma_sdiv_bound(total.re as int, divisor as int, 67108864);
            lemma_sdiv_bound(total.im as int, divisor as int, 67108864);
        }
        coeffs.push(Complex { re, im });
        i = i + 1;
    }
    coeffs
}

/// Plain sum of the first `j` samples.
pub open spec fn sample_sum(s: Seq<Complex>, j: int) -> (int, int)
    decreases j,
{
    if j <= 0 {
        (0int, 0int)
    } else {
        cadd_model(sample_sum(s, j - 1), s[j - 1]@)
    }
}

/// At frequency zero the rotation is exactly one, so the quadrature sum is
/// the plain sample sum, rescaled.
proof fn lemma_integrand_sum_dc(s: Seq<Complex>, j: int)
    requires
        j <= s.len(),
    ensures
        integrand_sum(s, 0, j) == (sample_sum(s, j).0 * 65536, sample_sum(s, j).1 * 65536),
    decreases j,
{
    if j > 0 {
        lemma_integrand_sum_dc(s, j - 1);
        let angle: int = sample_angle(j - 1, s.len() as int);
        assert(0int * angle == 0);
        lemma_rot_zero();
        lemma_cmul_by_one(s[j - 1]@, freq_rot_spec(0, angle));
    }
}

/// Rescaling numerator and denominator by `SCALE` does not change a
/// truncating division.
proof fn lemma_sdiv_rescale(x: int, a: int)
    requires
        1 <= a,
    ensures
        sdiv_model(x * 65536, a * 65536) == sdiv_model(x, a),
{
    if x >= 0 {
        lemma_div_denominator(x * 65536, 65536, a);
        lemma_div_multiples_vanish(x, 65536);
        assert(x * 65536 == 65536 * x);
        assert(65536 * a == a * 65536);
        assert(x * 65536 / (65536 * a) == x * 65536 / (a * 65536));
    } else {
        lemma_div_denominator(-(x * 65536), 65536, a);
        lemma_div_multiples_vanish(-x, 65536);
        assert(-(x * 65536) == (-x) * 65536 && (-x) * 65536 == 65536 * (-x));
        assert(65536 * a == a * 65536);
        assert(x * 65536 < 0);
    }
}

/// The DC (frequency-zero) coefficient is exactly the rectangle-rule mean
/// of the samples: their plain sum divided by their count, truncated toward
/// zero.
pub proof fn lemma_dc_is_sample_mean(s: Seq<Complex>)
    requires
        1 <= s.len(),
    ensures
        coeff_model(s, 0) == (
            sdiv_model(sample_sum(s, s.len() as int).0, s.len() as int),
            sdiv_model(sample_sum(s, s.len() as int).1, s.len() as int),
        ),
{
    lemma_integrand_sum_dc(s, s.len() as int);
    lemma_sdiv_rescale(sample_sum(s, s.len() as int).0, s.len() as int);
    lemma_sdiv_rescale(sample_sum(s, s.len() as int).1, s.len() as int);
}

} // verus!
