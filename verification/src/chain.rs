//! Epicycle chain builder: turns a coefficient set and a time value into the
//! polyline of rotating-vector endpoints, origin first, whose final tip is
//! exactly the series evaluation at that time.
//!
//! The chain starts at the origin, appends the DC term, then for each
//! frequency pair `k = 1..N` appends the positive-frequency tip and the
//! negative-frequency tip, lower frequencies nearer the root.

use vstd::prelude::*;

use crate::complex::{cadd_model, complex_add, complex_mul, Complex, TERM_BOUND};
use crate::series::{
    bounds_ok, eval_model, len_ok, lemma_series_sum_snoc, order_of, series_sum, term_model,
    validate_coeffs, wf_coeffs, CoeffsError,
};
use crate::trig::freq_rot;

verus! {

/// Sum of the DC contribution and of the frequency pairs `1..=j` at time
/// `t`: the tip reached after drawing the arrows of the first `j` pairs.
pub open spec fn sym_sum(s: Seq<Complex>, t: int, j: int) -> (int, int)
    decreases j,
{
    if j <= 0 {
        term_model(s, t, 0)
    } else {
        cadd_model(
            cadd_model(sym_sum(s, t, j - 1), term_model(s, t, j)),
            term_model(s, t, -j),
        )
    }
}

/// The point at index `p` of the epicycle chain: the origin, then the tip
/// after the DC arrow, then alternately the tips after the positive- and
/// negative-frequency arrow of each pair.
pub open spec fn chain_point(s: Seq<Complex>, t: int, p: int) -> (int, int) {
    if p == 0 {
        (0int, 0int)
    } else if p % 2 == 1 {
        sym_sum(s, t, (p - 1) / 2)
    } else {
        cadd_model(sym_sum(s, t, (p - 2) / 2), term_model(s, t, p / 2))
    }
}

/// Interleaving the frequency pairs outward from the DC term regroups, but
/// does not change, the plain sum over the frequency range `[-j, j]`.
pub proof fn lemma_sym_sum_matches_series(s: Seq<Complex>, t: int, j: int)
    requires
        0 <= j,
    ensures
        sym_sum(s, t, j) == series_sum(s, t, -j, j + 1),
    decreases j,
{
    if j == 0 {
        assert(series_sum(s, t, 1, 1) == (0int, 0int));
        assert(series_sum(s, t, 0, 1) == cadd_model(term_model(s, t, 0), series_sum(s, t, 1, 1)));
    } else {
        lemma_sym_sum_matches_series(s, t, j - 1);
        lemma_series_sum_snoc(s, t, -j + 1, j);
        assert(series_sum(s, t, -j, j + 1) == cadd_model(
            term_model(s, t, -j),
            series_sum(s, t, -j + 1, j + 1),
        ));
    }
}

/// The chain's final point (index `2N + 1`) equals the series evaluation,
/// exactly, for every odd-length coefficient set and every time.
pub proof fn lemma_chain_closes_on_evaluate(s: Seq<Complex>, t: int)
    requires
        s.len() % 2 == 1,
    ensures
        chain_point(s, t, s.len() as int) == eval_model(s, t),
{
    lemma_sym_sum_matches_series(s, t, order_of(s.len() as int));
}

/// Builds the epicycle chain for time `t`: `2N + 2` points, origin first,
/// whose consecutive pairs are the arrows to draw and whose final point is
/// exactly the series evaluation at `t`.
pub fn build_chain(coeffs: &Vec<Complex>, t: u64) -> (chain: Vec<Complex>)
    requires
        wf_coeffs(coeffs@),
    ensures
        chain@.len() == coeffs@.len() + 1,
        chain@.len() == 2 * order_of(coeffs@.len() as int) + 2,
        forall|p: int| 0 <= p < chain@.len() ==> chain@[p]@ == chain_point(coeffs@, t as int, p),
        chain@[chain@.len() - 1]@ == eval_model(coeffs@, t as int),
{
    let len: usize = coeffs.len();
    let n: usize = (len - 1) / 2;
    let mut chain: Vec<Complex> = Vec::new();
    chain.push(Complex::zero());
    let rot0 = freq_rot(0, false, t);
    let dc = complex_mul(coeffs[n], rot0);
    chain.push(dc);
    let mut tip: Complex = dc;
    let mut k: usize = 1;
    proof {
        assert(sym_sum(coeffs@, t as int, 0) == term_model(coeffs@, t as int, 0));
    }
    while k <= n
        invariant
            wf_coeffs(coeffs@),
            len == coeffs@.len(),
            n == order_of(len as int),
            len == 2 * n + 1,
            1 <= k <= n + 1,
            chain@.len() == 2 * k,
            forall|p: int| 0 <= p < chain@.len() ==> chain@[p]@ == chain_point(coeffs@, t as int, p),
            tip@ == sym_sum(coeffs@, t as int, k - 1),
            tip.bounded_by((2 * k - 1) * TERM_BOUND as int),
        decreases n + 1 - k,
    {
        let v1 = complex_mul(coeffs[n + k], freq_rot(k as u64, false, t));
        let tip1 = complex_add(tip, v1);
        let v2 = complex_mul(coeffs[n - k], freq_rot(k as u64, true, t));
        let tip2 = complex_add(tip1, v2);
        chain.push(tip1);
        chain.push(tip2);
        proof {
            assert(v1@ == term_model(coeffs@, t as int, k as int));
            assert(v2@ == term_model(coeffs@, t as int, -(k as int)));
            assert(sym_sum(coeffs@, t as int, k as int) == cadd_model(
                cadd_model(sym_sum(coeffs@, t as int, k - 1), term_model(coeffs@, t as int, k as int)),
                term_model(coeffs@, t as int, -(k as int)),
            ));
        }
        tip = tip2;
        k = k + 1;
    }
    proof {
        lemma_chain_closes_on_evaluate(coeffs@, t as int);
    }
    chain
}

/// [`build_chain`], with the misuse of an ill-formed coefficient set
/// surfaced as an error instead of excluded by precondition.
pub fn try_build_chain(coeffs: &Vec<Complex>, t: u64) -> (r: Result<Vec<Complex>, CoeffsError>)
    ensures
        r is Ok <==> wf_coeffs(coeffs@),
        r matches Ok(chain) ==> {
            &&& chain@.len() == coeffs@.len() + 1
            &&& forall|p: int|
                0 <= p < chain@.len() ==> chain@[p]@ == chain_point(coeffs@, t as int, p)
            &&& chain@[chain@.len() - 1]@ == eval_model(coeffs@, t as int)
        },
        !len_ok(coeffs@) ==> r == Result::<Vec<Complex>, CoeffsError>::Err(CoeffsError::BadLength),
        len_ok(coeffs@) && !bounds_ok(coeffs@) ==> r == Result::<Vec<Complex>, CoeffsError>::Err(
            CoeffsError::Oversized,
        ),
{
    match validate_coeffs(coeffs) {
        Ok(_) => Ok(build_chain(coeffs, t)),
        Err(e) => Err(e),
    }
}

} // verus!
