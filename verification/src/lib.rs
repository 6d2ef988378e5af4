//! Approximation of closed planar curves by truncated complex Fourier series,
//! and reconstruction of the approximation as a chain of rotating vectors
//! ("epicycles") whose tip traces the curve.
//!
//! All arithmetic is exact fixed-point integer arithmetic: a point of the
//! plane is a [`complex::Complex`] whose components are scaled by
//! [`complex::SCALE`], and an angle is a fraction of a full turn in units of
//! `1 / trig::TURN`.

pub mod animator;
pub mod chain;
pub mod complex;
pub mod engine;
pub mod series;
pub mod trig;
