//! Series reconstruction: evaluating a truncated Fourier series at one time
//! value, and sampling the whole reconstructed curve.
//!
//! A coefficient set is an odd-length sequence of `2*N + 1` complex values:
//! index `N + k` holds the coefficient of frequency `k`, for `k` in
//! `[-N, N]`.  Coefficients are at scale `SCALE` and rotations are at scale
//! `SCALE`, so every evaluated point is at scale `SCALE * SCALE`.

use vstd::prelude::*;

use crate::complex::{
    cadd_model, cmul_model, complex_add, complex_mul, lemma_cmul_by_one, lemma_cmul_zero, Complex,
    COEFF_BOUND, TERM_BOUND,
};
use crate::trig::{freq_rot, freq_rot_spec, lemma_freq_rot_periodic, lemma_rot_zero};

verus! {

/// Largest admitted coefficient-set length: keeps a full series sum inside
/// `i64`.
pub const MAX_LEN: usize = 16383;

/// Largest admitted truncation order, `(MAX_LEN - 1) / 2`.
pub const MAX_ORDER: usize = 8191;

/// The truncation order recovered from a coefficient-set length.
pub open spec fn order_of(len: int) -> int {
    (len - 1) / 2
}

/// The length is odd (hence at least one) and within `MAX_LEN`.
pub open spec fn len_ok(s: Seq<Complex>) -> bool {
    s.len() % 2 == 1 && s.len() <= MAX_LEN
}

/// Every coefficient is within `COEFF_BOUND`.
pub open spec fn bounds_ok(s: Seq<Complex>) -> bool {
    forall|i: int| 0 <= i < s.len() ==> s[i].bounded_by(COEFF_BOUND as int)
}

/// A well-formed coefficient set.
pub open spec fn wf_coeffs(s: Seq<Complex>) -> bool {
    len_ok(s) && bounds_ok(s)
}

/// The contribution of frequency `k` at time `t`: the coefficient stored at
/// index `N + k`, rotated by `exp(2*pi*i * k * t / TURN)`.
pub open spec fn term_model(s: Seq<Complex>, t: int, k: int) -> (int, int) {
    cmul_model(s[order_of(s.len() as int) + k]@, freq_rot_spec(k, t))
}

/// Sum of the contributions of the frequencies in `[lo, hi)`.
pub open spec fn series_sum(s: Seq<Complex>, t: int, lo: int, hi: int) -> (int, int)
    decreases hi - lo,
{
    if lo >= hi {
        (0int, 0int)
    } else {
        cadd_model(term_model(s, t, lo), series_sum(s, t, lo + 1, hi))
    }
}

/// The truncated Fourier series evaluated at time `t`: the sum over every
/// frequency in `[-N, N]`.
pub open spec fn eval_model(s: Seq<Complex>, t: int) -> (int, int) {
    series_sum(s, t, -order_of(s.len() as int), order_of(s.len() as int) + 1)
}

/// Peeling the last term off a frequency-range sum.
pub proof fn lemma_series_sum_snoc(s: Seq<Complex>, t: int, lo: int, hi: int)
    requires
        lo <= hi,
    ensures
        series_sum(s, t, lo, hi + 1) == cadd_model(series_sum(s, t, lo, hi), term_model(s, t, hi)),
    decreases hi - lo,
{
    if lo < hi {
        lemma_series_sum_snoc(s, t, lo + 1, hi);
    } else {
        assert(series_sum(s, t, hi + 1, hi + 1) == (0int, 0int));
        assert(series_sum(s, t, lo, hi) == (0int, 0int));
    }
}

/// A frequency-range sum is unchanged when the time advances by one full
/// period.
pub proof fn lemma_series_sum_periodic(s: Seq<Complex>, t: int, lo: int, hi: int)
    ensures
        series_sum(s, t + 65536, lo, hi) == series_sum(s, t, lo, hi),
    decreases hi - lo,
{
    if lo < hi {
        lemma_freq_rot_periodic(lo, t);
        lemma_series_sum_periodic(s, t, lo + 1, hi);
    }
}

/// The reconstruction is periodic: evaluating one full period (`TURN` time
/// units) later gives exactly the same point, for every coefficient set.
pub proof fn lemma_evaluate_periodic(s: Seq<Complex>, t: int)
    ensures
        eval_model(s, t + 65536) == eval_model(s, t),
{
    lemma_series_sum_periodic(s, t, -order_of(s.len() as int), order_of(s.len() as int) + 1);
}

/// Two coefficient sets whose contributions agree on a frequency range have
/// the same sum over it.
proof fn lemma_series_sum_congruent(s1: Seq<Complex>, s2: Seq<Complex>, t: int, lo: int, hi: int)
    requires
        forall|k: int| lo <= k < hi ==> term_model(s1, t, k) == term_model(s2, t, k),
    ensures
        series_sum(s1, t, lo, hi) == series_sum(s2, t, lo, hi),
    decreases hi - lo,
{
    if lo < hi {
        lemma_series_sum_congruent(s1, s2, t, lo + 1, hi);
    }
}

/// Raising the truncation order while the new highest-frequency pair's
/// coefficients are zero leaves the reconstruction unchanged, exactly:
/// frequencies beyond a band-limited function's band add nothing.
pub proof fn lemma_zero_extension_preserves_evaluate(s: Seq<Complex>, ext: Seq<Complex>, t: int)
    requires
        s.len() % 2 == 1,
        ext.len() == s.len() + 2,
        ext[0]@ == (0int, 0int),
        ext[ext.len() - 1]@ == (0int, 0int),
        forall|i: int| 0 <= i < s.len() ==> ext[i + 1] == s[i],
    ensures
        eval_model(ext, t) == eval_model(s, t),
{
    let n: int = order_of(s.len() as int);
    assert(order_of(ext.len() as int) == n + 1);
    assert forall|k: int| -n <= k < n + 1 implies term_model(ext, t, k) == term_model(
        s,
        t,
        k,
    ) by {
        assert(ext[(n + k) + 1] == s[n + k]);
    }
    lemma_series_sum_congruent(ext, s, t, -n, n + 1);
    lemma_cmul_zero(freq_rot_spec(-(n + 1), t));
    lemma_cmul_zero(freq_rot_spec(n + 1, t));
    assert(term_model(ext, t, -(n + 1)) == (0int, 0int));
    assert(term_model(ext, t, n + 1) == (0int, 0int));
    assert(series_sum(ext, t, -(n + 1), n + 2) == cadd_model(
        term_model(ext, t, -(n + 1)),
        series_sum(ext, t, -n, n + 2),
    ));
    lemma_series_sum_snoc(ext, t, -n, n + 1);
}

/// A coefficient set of length one (truncation order zero) reconstructs the
/// same constant point at every time: its single DC coefficient, scaled.
pub proof fn lemma_constant_series(s: Seq<Complex>, t: int)
    requires
        s.len() == 1,
    ensures
        eval_model(s, t) == (s[0].re * 65536, s[0].im * 65536),
{
    assert(0int * t == 0);
    lemma_rot_zero();
    lemma_cmul_by_one(s[0]@, freq_rot_spec(0, t));
    assert(order_of(s.len() as int) == 0);
    assert(series_sum(s, t, 1, 1) == (0int, 0int));
    assert(series_sum(s, t, 0, 1) == cadd_model(term_model(s, t, 0), series_sum(s, t, 1, 1)));
}

/// Evaluates the truncated Fourier series at time `t` (in turn units of
/// `1 / TURN`): the exact sum of all `2*N + 1` frequency contributions, at
/// scale `SCALE * SCALE`.
pub fn evaluate(coeffs: &Vec<Complex>, t: u64) -> (p: Complex)
    requires
        wf_coeffs(coeffs@),
    ensures
        p@ == eval_model(coeffs@, t as int),
        p.bounded_by(coeffs@.len() * TERM_BOUND as int),
{
    let len: usize = coeffs.len();
    let n: usize = (len - 1) / 2;
    let mut acc = Complex::zero();
    let mut i: usize = 0;
    while i < len
        invariant
            wf_coeffs(coeffs@),
            len == coeffs@.len(),
            n == order_of(len as int),
            len == 2 * n + 1,
            0 <= i <= len,
            n <= MAX_ORDER,
            acc@ == series_sum(coeffs@, t as int, -(n as int), i - n),
            acc.bounded_by(i as int * TERM_BOUND as int),
        decreases len - i,
    {
        let neg: bool = i < n;
        let mag: u64 = if neg {
            (n - i) as u64
        } else {
            (i - n) as u64
        };
        let rot = freq_rot(mag, neg, t);
        let term = complex_mul(coeffs[i], rot);
        proof {
            assert(term@ == term_model(coeffs@, t as int, i - n));
            lemma_series_sum_snoc(coeffs@, t as int, -(n as int), i - n);
        }
        acc = complex_add(acc, term);
        i = i + 1;
    }
    acc
}

/// The time, in turn units, of sample `i` of `resolution + 1` evenly spaced
/// samples of one period.
pub open spec fn sample_time(i: int, resolution: int) -> int {
    i * 65536 / resolution
}

/// Samples the reconstructed curve at `resolution + 1` evenly spaced times
/// over one full period, first and last sample one period apart.  The caps
/// only keep `resolution * TURN` within `u64` and `resolution + 1` within
/// `usize`.
pub fn sample_curve(coeffs: &Vec<Complex>, resolution: usize) -> (pts: Vec<Complex>)
    requires
        wf_coeffs(coeffs@),
        1 <= resolution <= 281474976710655,
        resolution < usize::MAX,
    ensures
        pts@.len() == resolution + 1,
        forall|i: int|
            0 <= i < pts@.len() ==> pts@[i]@ == eval_model(
                coeffs@,
                sample_time(i, resolution as int),
            ),
{
    let mut pts: Vec<Complex> = Vec::new();
    let mut i: usize = 0;
    while i <= resolution
        invariant
            wf_coeffs(coeffs@),
            1 <= resolution <= 281474976710655,
            resolution < usize::MAX,
            0 <= i <= resolution + 1,
            pts@.len() == i,
            forall|j: int|
                0 <= j < i ==> pts@[j]@ == eval_model(coeffs@, sample_time(j, resolution as int)),
        decreases resolution + 1 - i,
    {
        let tu: u64 = ((i as u64) * 65536) / (resolution as u64);
        let p = evaluate(coeffs, tu);
        pts.push(p);
        i = i + 1;
    }
    pts
}

/// Why a coefficient set was rejected.
#[derive(Clone, Copy, PartialEq, Eq, Structural, Debug)]
pub enum CoeffsError {
    /// Empty, of even length, or longer than `MAX_LEN`: no truncation order
    /// fits it.
    BadLength,
    /// Some coefficient exceeds `COEFF_BOUND` in magnitude.
    Oversized,
}

/// Checks that a coefficient set is well formed, reporting exactly why not.
pub fn validate_coeffs(coeffs: &Vec<Complex>) -> (r: Result<(), CoeffsError>)
    ensures
        r is Ok <==> wf_coeffs(coeffs@),
        !len_ok(coeffs@) ==> r == Result::<(), CoeffsError>::Err(CoeffsError::BadLength),
        len_ok(coeffs@) && !bounds_ok(coeffs@) ==> r == Result::<(), CoeffsError>::Err(
            CoeffsError::Oversized,
        ),
{
    let len: usize = coeffs.len();
    if len % 2 == 0 || len > MAX_LEN {
        return Err(CoeffsError::BadLength);
    }
    let mut i: usize = 0;
    while i < len
        invariant
            len == coeffs@.len(),
            len_ok(coeffs@),
            0 <= i <= len,
            forall|j: int| 0 <= j < i ==> coeffs@[j].bounded_by(COEFF_BOUND as int),
        decreases len - i,
    {
        let c = coeffs[i];
        if c.re > COEFF_BOUND || c.re < -COEFF_BOUND || c.im > COEFF_BOUND || c.im
            < -COEFF_BOUND {
            return Err(CoeffsError::Oversized);
        }
        i = i + 1;
    }
    Ok(())
}

/// [`evaluate`], with the misuse of an ill-formed coefficient set surfaced
/// as an error instead of excluded by precondition.
pub fn try_evaluate(coeffs: &Vec<Complex>, t: u64) -> (r: Result<Complex, CoeffsError>)
    ensures
        r is Ok <==> wf_coeffs(coeffs@),
        r matches Ok(p) ==> p@ == eval_model(coeffs@, t as int),
        !len_ok(coeffs@) ==> r == Result::<Complex, CoeffsError>::Err(CoeffsError::BadLength),
        len_ok(coeffs@) && !bounds_ok(coeffs@) ==> r == Result::<Complex, CoeffsError>::Err(
            CoeffsError::Oversized,
        ),
{
    match validate_coeffs(coeffs) {
        Ok(_) => Ok(evaluate(coeffs, t)),
        Err(e) => Err(e),
    }
}

} // verus!

