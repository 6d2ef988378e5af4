use epicycles::chain::{build_chain, try_build_chain};
use epicycles::complex::{Complex, COEFF_BOUND, SCALE};
use epicycles::engine::compute_coefficients;
use epicycles::series::{evaluate, sample_curve, try_evaluate, validate_coeffs, CoeffsError};
use epicycles::trig::unit_rot;

const TAU: f64 = 2.0 * std::f64::consts::PI;

/// A real value to fixed point at `SCALE`.
fn fx(v: f64) -> i64 {
    (v * SCALE as f64).round() as i64
}

fn c(re: f64, im: f64) -> Complex {
    Complex { re: fx(re), im: fx(im) }
}

#[test]
fn cardinal_rotations_are_exact() {
    assert_eq!(unit_rot(0), Complex { re: 65536, im: 0 });
    assert_eq!(unit_rot(16384), Complex { re: 0, im: 65536 });
    assert_eq!(unit_rot(32768), Complex { re: -65536, im: 0 });
    assert_eq!(unit_rot(49152), Complex { re: 0, im: -65536 });
    // One full turn later: identical, exactly.
    assert_eq!(unit_rot(65536), unit_rot(0));
    assert_eq!(unit_rot(16384 + 65536), unit_rot(16384));
}

#[test]
fn mid_quadrant_rotation_is_accurate() {
    // 1/8 turn: cos = sin = sqrt(2)/2.
    let r = unit_rot(8192);
    let expect = (0.5f64).sqrt() * SCALE as f64;
    assert!((r.re as f64 - expect).abs() < 32.0, "re {} vs {}", r.re, expect);
    assert!((r.im as f64 - expect).abs() < 32.0, "im {} vs {}", r.im, expect);
}

#[test]
fn rotation_accuracy_over_whole_turn() {
    for a in (0..65536u64).step_by(977) {
        let r = unit_rot(a);
        let rad = TAU * a as f64 / 65536.0;
        assert!((r.re as f64 / SCALE as f64 - rad.cos()).abs() < 2e-3);
        assert!((r.im as f64 / SCALE as f64 - rad.sin()).abs() < 2e-3);
    }
}

#[test]
fn chain_end_equals_evaluate_exactly() {
    // An arbitrary well-formed coefficient set, N = 2.
    let coeffs = vec![c(0.25, -1.0), c(-0.5, 0.125), c(2.0, 3.0), c(0.0, -0.75), c(1.5, 0.5)];
    for &t in &[0u64, 1, 1000, 16384, 32768, 50000, 65535, 70000] {
        let chain = build_chain(&coeffs, t);
        let direct = evaluate(&coeffs, t);
        assert_eq!(*chain.last().unwrap(), direct, "t = {t}");
    }
}

#[test]
fn chain_length_is_two_n_plus_two() {
    for n in [0usize, 1, 2, 5, 8] {
        let coeffs: Vec<Complex> = (0..2 * n + 1).map(|i| c(0.1 * i as f64, -0.2)).collect();
        for &t in &[0u64, 12345, 65535] {
            let chain = build_chain(&coeffs, t);
            assert_eq!(chain.len(), 2 * n + 2);
        }
    }
}

#[test]
fn evaluate_is_periodic_exactly() {
    let coeffs = vec![c(-0.5, 0.125), c(2.0, 3.0), c(0.0, -0.75)];
    for &t in &[0u64, 7, 9999, 16384, 65535] {
        assert_eq!(evaluate(&coeffs, t), evaluate(&coeffs, t + 65536), "t = {t}");
    }
}

#[test]
fn zero_extension_leaves_evaluate_unchanged() {
    // Raising N with exactly-zero new coefficients: same reconstruction.
    let coeffs = vec![c(-0.5, 0.125), c(2.0, 3.0), c(0.0, -0.75)];
    let mut extended = vec![c(0.0, 0.0)];
    extended.extend(coeffs.iter().copied());
    extended.push(c(0.0, 0.0));
    for &t in &[0u64, 77, 16384, 40000, 65535] {
        assert_eq!(evaluate(&extended, t), evaluate(&coeffs, t), "t = {t}");
    }
}

#[test]
fn sample_curve_closes_on_itself() {
    let coeffs = vec![c(0.5, 0.5), c(1.0, -1.0), c(-0.25, 0.0)];
    let pts = sample_curve(&coeffs, 64);
    assert_eq!(pts.len(), 65);
    // The last sample sits one full period after the first: same point.
    assert_eq!(pts[0], pts[64]);
    assert_eq!(pts[0], evaluate(&coeffs, 0));
    assert_eq!(pts[16], evaluate(&coeffs, 16384));
}

#[test]
fn empty_coefficient_set_is_rejected() {
    let empty: Vec<Complex> = vec![];
    assert_eq!(validate_coeffs(&empty), Err(CoeffsError::BadLength));
    assert_eq!(try_evaluate(&empty, 0), Err(CoeffsError::BadLength));
    assert!(matches!(try_build_chain(&empty, 0), Err(CoeffsError::BadLength)));
}

#[test]
fn even_or_oversized_length_is_rejected() {
    let even = vec![c(1.0, 0.0), c(0.0, 1.0)];
    assert_eq!(validate_coeffs(&even), Err(CoeffsError::BadLength));
    let too_long: Vec<Complex> = (0..16385).map(|_| c(0.0, 0.0)).collect();
    assert_eq!(validate_coeffs(&too_long), Err(CoeffsError::BadLength));
}

#[test]
fn oversized_coefficient_is_rejected() {
    let big = vec![c(0.0, 0.0), Complex { re: COEFF_BOUND + 1, im: 0 }, c(0.0, 0.0)];
    assert_eq!(validate_coeffs(&big), Err(CoeffsError::Oversized));
    assert_eq!(try_evaluate(&big, 3), Err(CoeffsError::Oversized));
    assert!(matches!(try_build_chain(&big, 3), Err(CoeffsError::Oversized)));
}

#[test]
fn valid_coefficients_are_accepted() {
    let coeffs = vec![c(0.5, 0.5), c(1.0, -1.0), c(-0.25, 0.0)];
    assert_eq!(validate_coeffs(&coeffs), Ok(()));
    assert_eq!(try_evaluate(&coeffs, 11), Ok(evaluate(&coeffs, 11)));
    let chain = try_build_chain(&coeffs, 11).unwrap();
    assert_eq!(chain, build_chain(&coeffs, 11));
}

#[test]
fn dc_coefficient_is_exact_sample_mean() {
    // Truncating division of the componentwise sample sums by the count.
    let samples = vec![c(2.5, -1.0), c(0.25, 3.0), c(-4.0, 0.5)];
    let coeffs = compute_coefficients(&samples, 0);
    assert_eq!(coeffs.len(), 1);
    let sum_re: i64 = samples.iter().map(|s| s.re).sum();
    let sum_im: i64 = samples.iter().map(|s| s.im).sum();
    assert_eq!(coeffs[0].re, sum_re / 3);
    assert_eq!(coeffs[0].im, sum_im / 3);
}

#[test]
fn dc_approximates_function_average() {
    // f(t) = (1 + cos(2 pi t), sin(2 pi t)) has average (1, 0).
    let a = 1000usize;
    let samples: Vec<Complex> = (0..a)
        .map(|j| {
            let t = j as f64 / a as f64;
            c(1.0 + (TAU * t).cos(), (TAU * t).sin())
        })
        .collect();
    let coeffs = compute_coefficients(&samples, 0);
    assert_eq!(coeffs.len(), 1);
    let re = coeffs[0].re as f64 / SCALE as f64;
    let im = coeffs[0].im as f64 / SCALE as f64;
    assert!((re - 1.0).abs() < 0.01, "re = {re}");
    assert!(im.abs() < 0.01, "im = {im}");
}
