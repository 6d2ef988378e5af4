//! Animation session: the single piece of state a host render loop threads
//! through frames.
//!
//! The session owns the curve's samples, the current truncation order and
//! its coefficient set, the trace of reconstructed tips drawn so far, and
//! the current time.  The trace is only meaningful for one coefficient set
//! over one period, so it is cleared whenever the time wraps past a period
//! or the truncation order changes.

use vstd::prelude::*;

use crate::chain::{build_chain, chain_point};
use crate::complex::Complex;
use crate::engine::{coeff_model, compute_coefficients, wf_samples};
use crate::series::{eval_model, evaluate, wf_coeffs, MAX_ORDER};

verus! {

/// One animation run: a sampled periodic curve, its current truncated
/// coefficient set, the growing trace, and the animation clock.
pub struct Animator {
    /// The curve's samples, fixed for the run.
    pub samples: Vec<Complex>,
    /// Current truncation order `N`.
    pub order: usize,
    /// Coefficient set of the samples at the current order.
    pub coeffs: Vec<Complex>,
    /// Reconstructed tip positions of the frames since the last reset.
    pub trace: Vec<Complex>,
    /// Animation time in turn units, always within one period.
    pub time: u64,
}

impl Animator {
    /// The session invariant: the stored coefficient set is exactly the one
    /// the engine computes from the stored samples at the stored order, and
    /// the clock is within one period.
    pub open spec fn wf(self) -> bool {
        &&& wf_samples(self.samples@)
        &&& self.order <= MAX_ORDER
        &&& self.coeffs@.len() == 2 * self.order + 1
        &&& forall|i: int|
            0 <= i < self.coeffs@.len() ==> self.coeffs@[i]@ == coeff_model(
                self.samples@,
                i - self.order,
            )
        &&& wf_coeffs(self.coeffs@)
        &&& self.time < 65536
    }

    /// Starts a run: computes the initial coefficient set, with an empty
    /// trace and the clock at zero.
    pub fn new(samples: Vec<Complex>, order: usize) -> (a: Animator)
        requires
            wf_samples(samples@),
            order <= MAX_ORDER,
        ensures
            a.wf(),
            a.samples@ == samples@,
            a.order == order,
            a.trace@.len() == 0,
            a.time == 0,
    {
        let coeffs = compute_coefficients(&samples, order);
        Animator { samples, order, coeffs, trace: Vec::new(), time: 0 }
    }

    /// Changes the truncation order: recomputes the coefficient set from
    /// scratch (never incrementally) and clears the trace, which is only
    /// meaningful for a fixed coefficient set.
    pub fn set_order(&mut self, order: usize)
        requires
            old(self).wf(),
            order <= MAX_ORDER,
        ensures
            final(self).wf(),
            final(self).samples@ == old(self).samples@,
            final(self).order == order,
            final(self).coeffs@.len() == 2 * order + 1,
            final(self).trace@.len() == 0,
            final(self).time == old(self).time,
    {
        self.coeffs = compute_coefficients(&self.samples, order);
        self.order = order;
        self.trace = Vec::new();
    }

    /// Advances the clock by `dt` turn units; past the end of the period
    /// the clock wraps to zero and the trace is cleared.
    pub fn advance(&mut self, dt: u64)
        requires
            old(self).wf(),
            dt <= 65536,
        ensures
            final(self).wf(),
            final(self).samples@ == old(self).samples@,
            final(self).order == old(self).order,
            final(self).coeffs@ == old(self).coeffs@,
            old(self).time + dt < 65536 ==> final(self).time == old(self).time + dt
                && final(self).trace@ == old(self).trace@,
            old(self).time + dt >= 65536 ==> final(self).time == 0 && final(self).trace@.len()
                == 0,
    {
        let advanced: u64 = self.time + dt;
        if advanced >= 65536 {
            self.time = 0;
            self.trace = Vec::new();
        } else {
            self.time = advanced;
        }
    }

    /// Renders one frame: appends the reconstructed tip at the current time
    /// to the trace and returns the epicycle chain for the same time.
    pub fn frame(&mut self) -> (chain: Vec<Complex>)
        requires
            old(self).wf(),
        ensures
            final(self).wf(),
            final(self).samples@ == old(self).samples@,
            final(self).order == old(self).order,
            final(self).coeffs@ == old(self).coeffs@,
            final(self).time == old(self).time,
            final(self).trace@.len() == old(self).trace@.len() + 1,
            forall|i: int|
                0 <= i < old(self).trace@.len() ==> final(self).trace@[i] == old(self).trace@[i],
            final(self).trace@.last()@ == eval_model(old(self).coeffs@, old(self).time as int),
            chain@.len() == old(self).coeffs@.len() + 1,
            forall|p: int|
                0 <= p < chain@.len() ==> chain@[p]@ == chain_point(
                    old(self).coeffs@,
                    old(self).time as int,
                    p,
                ),
            chain@[chain@.len() - 1]@ == eval_model(old(self).coeffs@, old(self).time as int),
    {
        let tip = evaluate(&self.coeffs, self.time);
        self.trace.push(tip);
        build_chain(&self.coeffs, self.time)
    }
}

} // verus!
