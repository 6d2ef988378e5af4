//! Fixed-point complex numbers: the plane points, curve samples and Fourier
//! coefficients of this library.

use vstd::prelude::*;

verus! {

/// Fixed-point scale: a component of value `v` represents the real number
/// `v / SCALE`.
pub const SCALE: i64 = 65536;

/// Largest magnitude (absolute value of either component) a Fourier
/// coefficient may have.  Keeps every term of a series sum inside `i64`.
pub const COEFF_BOUND: i64 = 2147483648;

/// Largest magnitude a curve sample handed to the coefficient engine may
/// have (512 in real units: ample for the curves this library animates).
pub const SAMPLE_BOUND: i64 = 33554432;

/// Bound on one term `coefficient * rotation` of a series sum:
/// `2 * COEFF_BOUND * SCALE`.
pub const TERM_BOUND: i64 = 281474976710656;

/// Bound on one term `sample * rotation` of a quadrature sum:
/// `2 * SAMPLE_BOUND * SCALE`.
pub const SAMPLE_TERM_BOUND: i64 = 4398046511104;

/// A point of the plane as a complex number (`re` = x, `im` = y), in
/// fixed-point representation at scale [`SCALE`].
#[derive(Clone, Copy, PartialEq, Eq, Structural, Debug)]
pub struct Complex {
    pub re: i64,
    pub im: i64,
}

impl View for Complex {
    type V = (int, int);

    open spec fn view(&self) -> (int, int) {
        (self.re as int, self.im as int)
    }
}

impl Complex {
    /// Both components lie in `[-b, b]`.
    pub open spec fn bounded_by(self, b: int) -> bool {
        &&& -b <= self.re <= b
        &&& -b <= self.im <= b
    }

    /// The origin of the plane.
    pub fn zero() -> (r: Complex)
        ensures
            r@ == (0int, 0int),
    {
        Complex { re: 0, im: 0 }
    }
}

/// Componentwise sum of two complex values.
pub open spec fn cadd_model(a: (int, int), b: (int, int)) -> (int, int) {
    (a.0 + b.0, a.1 + b.1)
}

/// Product of two complex values `(a.0 + i a.1) * (b.0 + i b.1)`, without
/// any rescaling: multiplying a value at scale `SCALE` by a rotation at
/// scale `SCALE` yields a value at scale `SCALE * SCALE`.
pub open spec fn cmul_model(a: (int, int), b: (int, int)) -> (int, int) {
    (a.0 * b.0 - a.1 * b.1, a.0 * b.1 + a.1 * b.0)
}

/// `|x * y| <= bx * by` when `|x| <= bx` and `|y| <= by`.
proof fn lemma_mul_magnitude(x: int, bx: int, y: int, yb: int) by (nonlinear_arith)
    requires
        -bx <= x <= bx,
        -yb <= y <= yb,
        0 <= bx,
        0 <= yb,
    ensures
        -(bx * yb) <= x * y <= bx * yb,
{
}

/// Multiplying by the exact unit rotation `(SCALE, 0)` only rescales the
/// value by `SCALE`.
pub proof fn lemma_cmul_by_one(a: (int, int), r: (int, int))
    requires
        r == (65536int, 0int),
    ensures
        cmul_model(a, r) == (a.0 * 65536, a.1 * 65536),
{
    assert(a.0 * r.0 == a.0 * 65536 && a.1 * r.1 == 0 && a.0 * r.1 == 0 && a.1 * r.0 == a.1
        * 65536) by (nonlinear_arith)
        requires
            r.0 == 65536 && r.1 == 0,
    ;
}

/// A zero value stays zero under any rotation.
pub proof fn lemma_cmul_zero(r: (int, int))
    ensures
        cmul_model((0int, 0int), r) == (0int, 0int),
{
    assert(0int * r.0 == 0 && 0int * r.1 == 0) by (nonlinear_arith);
}

/// Exact complex addition.
pub fn complex_add(a: Complex, b: Complex) -> (r: Complex)
    requires
        i64::MIN <= a.re + b.re <= i64::MAX,
        i64::MIN <= a.im + b.im <= i64::MAX,
    ensures
        r@ == cadd_model(a@, b@),
{
    Complex { re: a.re + b.re, im: a.im + b.im }
}

/// Exact complex multiplication of a bounded value by a rotation whose
/// components lie within `SCALE`.
pub fn complex_mul(a: Complex, b: Complex) -> (r: Complex)
    requires
        a.bounded_by(COEFF_BOUND as int),
        b.bounded_by(SCALE as int),
    ensures
        r@ == cmul_model(a@, b@),
        r.bounded_by(TERM_BOUND as int),
        a.bounded_by(SAMPLE_BOUND as int) ==> r.bounded_by(SAMPLE_TERM_BOUND as int),
{
    proof {
        lemma_mul_magnitude(a.re as int, COEFF_BOUND as int, b.re as int, SCALE as int);
        lemma_mul_magnitude(a.im as int, COEFF_BOUND as int, b.im as int, SCALE as int);
        lemma_mul_magnitude(a.re as int, COEFF_BOUND as int, b.im as int, SCALE as int);
        lemma_mul_magnitude(a.im as int, COEFF_BOUND as int, b.re as int, SCALE as int);
        if a.bounded_by(SAMPLE_BOUND as int) {
            lemma_mul_magnitude(a.re as int, SAMPLE_BOUND as int, b.re as int, SCALE as int);
            lemma_mul_magnitude(a.im as int, SAMPLE_BOUND as int, b.im as int, SCALE as int);
            lemma_mul_magnitude(a.re as int, SAMPLE_BOUND as int, b.im as int, SCALE as int);
            lemma_mul_magnitude(a.im as int, SAMPLE_BOUND as int, b.re as int, SCALE as int);
        }
    }
    Complex { re: a.re * b.re - a.im * b.im, im: a.re * b.im + a.im * b.re }
}

} // verus!
