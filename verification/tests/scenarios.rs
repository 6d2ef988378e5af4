use epicycles::animator::Animator;
use epicycles::complex::{Complex, SCALE};
use epicycles::engine::compute_coefficients;
use epicycles::series::evaluate;

const TAU: f64 = 2.0 * std::f64::consts::PI;

fn fx(v: f64) -> i64 {
    (v * SCALE as f64).round() as i64
}

fn c(re: f64, im: f64) -> Complex {
    Complex { re: fx(re), im: fx(im) }
}

fn to_unit(p: &Complex) -> (f64, f64) {
    let s2 = SCALE as f64 * SCALE as f64;
    (p.re as f64 / s2, p.im as f64 / s2)
}

/// Samples of `exp(2*pi*i*f*t)` at the left edges of `a` subintervals.
fn harmonic_samples(f: f64, a: usize) -> Vec<Complex> {
    (0..a)
        .map(|j| {
            let t = j as f64 / a as f64;
            c((TAU * f * t).cos(), (TAU * f * t).sin())
        })
        .collect()
}

/// Heart-shaped closed curve, scaled down to unit size.
fn heart_samples(a: usize) -> Vec<Complex> {
    (0..a)
        .map(|j| {
            let t = TAU * j as f64 / a as f64;
            let x = 16.0 * t.sin().powi(3);
            let y = 13.0 * t.cos() - 5.0 * (2.0 * t).cos() - 2.0 * (3.0 * t).cos()
                - (4.0 * t).cos();
            c(x / 17.0, y / 17.0)
        })
        .collect()
}

#[test]
fn unit_circle_coefficients() {
    // f(t) = exp(2*pi*i*t), N = 1: only the +1 frequency carries weight.
    let samples = harmonic_samples(1.0, 1000);
    let coeffs = compute_coefficients(&samples, 1);
    assert_eq!(coeffs.len(), 3);
    let unit = SCALE as f64;
    assert!((coeffs[0].re as f64 / unit).abs() < 0.01, "c[-1] = {:?}", coeffs[0]);
    assert!((coeffs[0].im as f64 / unit).abs() < 0.01);
    assert!((coeffs[1].re as f64 / unit).abs() < 0.01, "c[0] = {:?}", coeffs[1]);
    assert!((coeffs[1].im as f64 / unit).abs() < 0.01);
    assert!((coeffs[2].re as f64 / unit - 1.0).abs() < 0.01, "c[1] = {:?}", coeffs[2]);
    assert!((coeffs[2].im as f64 / unit).abs() < 0.01);

    // evaluate(coeffs, 0) is about (1, 0); a quarter period on, about (0, 1).
    let (x0, y0) = to_unit(&evaluate(&coeffs, 0));
    assert!((x0 - 1.0).abs() < 0.02 && y0.abs() < 0.02, "({x0}, {y0})");
    let (xq, yq) = to_unit(&evaluate(&coeffs, 16384));
    assert!(xq.abs() < 0.02 && (yq - 1.0).abs() < 0.02, "({xq}, {yq})");
}

#[test]
fn order_zero_reconstruction_is_the_constant_average() {
    let samples = heart_samples(500);
    let coeffs = compute_coefficients(&samples, 0);
    assert_eq!(coeffs.len(), 1);
    // The reconstruction is the same point at every time, exactly: the DC
    // coefficient rescaled.
    let expect = Complex { re: coeffs[0].re * 65536, im: coeffs[0].im * 65536 };
    for &t in &[0u64, 123, 16384, 40000, 65535] {
        assert_eq!(evaluate(&coeffs, t), expect);
    }
}

#[test]
fn raising_the_order_past_the_band_changes_nothing_much() {
    // A single pure harmonic of frequency 1 is fully captured at N = 1:
    // higher orders add coefficients that are nearly zero.
    let samples = harmonic_samples(1.0, 1000);
    let low = compute_coefficients(&samples, 1);
    let high = compute_coefficients(&samples, 5);
    let unit = SCALE as f64;
    for (k, co) in high.iter().enumerate() {
        if k != 6 {
            assert!((co.re as f64 / unit).abs() < 0.01, "k = {k}");
            assert!((co.im as f64 / unit).abs() < 0.01, "k = {k}");
        }
    }
    for &t in &[0u64, 5000, 16384, 60000] {
        let (xl, yl) = to_unit(&evaluate(&low, t));
        let (xh, yh) = to_unit(&evaluate(&high, t));
        assert!((xl - xh).abs() < 0.05 && (yl - yh).abs() < 0.05, "t = {t}");
    }
}

#[test]
fn truncating_below_the_band_degenerates() {
    // N = 0 misses the harmonic entirely: the reconstruction collapses to
    // (about) the origin, the harmonic's average.
    let samples = harmonic_samples(1.0, 1000);
    let none = compute_coefficients(&samples, 0);
    for &t in &[0u64, 16384, 32768] {
        let (x, y) = to_unit(&evaluate(&none, t));
        assert!(x.abs() < 0.02 && y.abs() < 0.02, "t = {t}: ({x}, {y})");
    }
}

#[test]
fn order_change_clears_trace_and_resizes_chain() {
    let samples = heart_samples(400);
    let mut anim = Animator::new(samples, 2);
    assert_eq!(anim.coeffs.len(), 5);
    let chain = anim.frame();
    assert_eq!(chain.len(), 6);
    anim.advance(100);
    anim.frame();
    anim.advance(100);
    anim.frame();
    assert_eq!(anim.trace.len(), 3);

    // Mid-animation truncation-order change: trace emptied, next chain uses
    // the newly sized coefficient set.
    anim.set_order(3);
    assert_eq!(anim.trace.len(), 0);
    assert_eq!(anim.coeffs.len(), 7);
    let chain = anim.frame();
    assert_eq!(chain.len(), 8);
}

#[test]
fn period_wrap_clears_trace_and_resets_clock() {
    let samples = heart_samples(400);
    let mut anim = Animator::new(samples, 1);
    anim.frame();
    anim.frame();
    assert_eq!(anim.trace.len(), 2);
    anim.advance(60000);
    assert_eq!(anim.time, 60000);
    assert_eq!(anim.trace.len(), 2);
    anim.advance(10000);
    assert_eq!(anim.time, 0);
    assert_eq!(anim.trace.len(), 0);
}

#[test]
fn frame_tip_extends_trace_with_the_evaluation() {
    let samples = harmonic_samples(1.0, 300);
    let mut anim = Animator::new(samples, 1);
    anim.advance(16384);
    let chain = anim.frame();
    let direct = evaluate(&anim.coeffs, 16384);
    assert_eq!(*chain.last().unwrap(), direct);
    assert_eq!(anim.trace.len(), 1);
    assert_eq!(anim.trace[0], direct);
}
