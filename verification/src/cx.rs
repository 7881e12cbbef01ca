//! Fixed-point complex samples and their exact arithmetic model.

use vstd::arithmetic::div_mod::{
    lemma_div_is_ordered, lemma_div_is_ordered_by_denominator, lemma_fundamental_div_mod,
    lemma_fundamental_div_mod_converse_div,
};
use vstd::prelude::*;

verus! {

/// Scale of the fixed-point twiddle factors: a unit-magnitude component is
/// stored as an integer in `[-TW_SCALE, TW_SCALE]` (Q14 fixed point).
pub const TW_SCALE: i32 = 16384;

/// A complex sample: 32-bit real part and 32-bit imaginary part.
#[derive(Clone, Copy, PartialEq, Eq, Structural, Debug)]
pub struct Complex32 {
    /// Real part.
    pub re: i32,
    /// Imaginary part.
    pub im: i32,
}

/// The mathematical value of a complex sample: a pair of unbounded integers.
pub ghost struct Cx {
    /// Real part.
    pub re: int,
    /// Imaginary part.
    pub im: int,
}

impl View for Complex32 {
    type V = Cx;

    open spec fn view(&self) -> Cx {
        Cx { re: self.re as int, im: self.im as int }
    }
}

impl Complex32 {
    /// Build a sample from its two parts.
    pub fn new(re: i32, im: i32) -> (r: Complex32)
        ensures
            r.re == re,
            r.im == im,
    {
        Complex32 { re, im }
    }
}

/// Complex addition, componentwise and exact.
pub open spec fn cx_add(a: Cx, b: Cx) -> Cx {
    Cx { re: a.re + b.re, im: a.im + b.im }
}

/// Complex subtraction, componentwise and exact.
pub open spec fn cx_sub(a: Cx, b: Cx) -> Cx {
    Cx { re: a.re - b.re, im: a.im - b.im }
}

/// Product of a Q14 twiddle factor `t` and a sample `v`: the exact complex
/// product, rescaled by a flooring division by the twiddle scale.
pub open spec fn cx_mul(t: Cx, v: Cx) -> Cx {
    Cx {
        re: (t.re * v.re - t.im * v.im) / 16384,
        im: (t.re * v.im + t.im * v.re) / 16384,
    }
}

/// The mathematical values of a buffer of samples.
pub open spec fn vals(s: Seq<Complex32>) -> Seq<Cx> {
    s.map_values(|c: Complex32| c@)
}

/// Both components of `c` have magnitude at most `b`.
pub open spec fn cx_bounded(c: Cx, b: int) -> bool {
    -b <= c.re <= b && -b <= c.im <= b
}

/// Every component of every sample in `s` has magnitude at most `b`.
pub open spec fn fits(s: Seq<Cx>, b: int) -> bool {
    forall|i: int| 0 <= i < s.len() ==> cx_bounded(#[trigger] s[i], b)
}

/// Flooring division of `x` by a positive divisor `d`, agreeing with the
/// mathematical (Euclidean) quotient also for negative `x`.
pub(crate) fn div_floor(x: i64, d: i64) -> (r: i64)
    requires
        0 < d <= 0x10000,
        x > i64::MIN,
    ensures
        r == x as int / d as int,
{
    let du = d as u64;
    if x >= 0 {
        let q = (x as u64) / du;
        proof {
            lemma_div_is_ordered_by_denominator(x as int, 1, d as int);
        }
        q as i64
    } else {
        let m = (-x) as u64;
        let q = (m + du - 1) / du;
        proof {
            let mi = m as int;
            let di = d as int;
            let a = mi / di;
            let rr = mi % di;
            lemma_fundamental_div_mod(mi, di);
            vstd::arithmetic::div_mod::lemma_div_nonincreasing(mi, di);
            assert(a >= 0) by {
                vstd::arithmetic::div_mod::lemma_div_pos_is_pos(mi, di);
            }
            if di >= 2 {
                assert(di * a >= 2 * a) by (nonlinear_arith)
                    requires
                        di >= 2,
                        a >= 0,
                ;
            }
            if rr == 0 {
                // m is a multiple of d: the rounded-up quotient is exactly a,
                // and x / d == -a.
                assert((mi + di - 1) / di == a) by {
                    lemma_fundamental_div_mod_converse_div(mi + di - 1, di, a, di - 1);
                }
                assert(x as int == (-a) * di + 0) by {
                    assert((-a) * di == -(di * a)) by (nonlinear_arith);
                }
                assert(x as int / di == -a) by {
                    lemma_fundamental_div_mod_converse_div(x as int, di, -a, 0);
                }
            } else {
                // m == d * a + rr with 0 < rr < d: rounding up gives a + 1,
                // and x / d == -(a + 1).
                assert(mi + di - 1 == (a + 1) * di + (rr - 1)) by {
                    assert((a + 1) * di == di * a + di) by (nonlinear_arith);
                }
                assert((mi + di - 1) / di == a + 1) by {
                    lemma_fundamental_div_mod_converse_div(mi + di - 1, di, a + 1, rr - 1);
                }
                assert(x as int == (-(a + 1)) * di + (di - rr)) by {
                    assert((-(a + 1)) * di == -(di * a) - di) by (nonlinear_arith);
                }
                assert(x as int / di == -(a + 1)) by {
                    lemma_fundamental_div_mod_converse_div(x as int, di, -(a + 1), di - rr);
                }
            }
        }
        -(q as i64)
    }
}

/// Exact componentwise bound on a Q14 twiddle product: if the twiddle's
/// components have magnitude at most `TW_SCALE` and the sample's at most `b`,
/// the product's components have magnitude at most `2 * b`.
pub proof fn lemma_cx_mul_bound(t: Cx, v: Cx, b: int)
    requires
        0 <= b,
        -16384 <= t.re <= 16384,
        -16384 <= t.im <= 16384,
        -b <= v.re <= b,
        -b <= v.im <= b,
    ensures
        -2 * b <= cx_mul(t, v).re <= 2 * b,
        -2 * b <= cx_mul(t, v).im <= 2 * b,
{
    lemma_abs_prod_bound(t.re, v.re, b);
    lemma_abs_prod_bound(t.im, v.im, b);
    lemma_abs_prod_bound(t.re, v.im, b);
    lemma_abs_prod_bound(t.im, v.re, b);
    lemma_div_range(t.re * v.re - t.im * v.im, 2 * b);
    lemma_div_range(t.re * v.im + t.im * v.re, 2 * b);
}

/// `|p * q| <= 16384 * b` when `|p| <= 16384` and `|q| <= b`.
pub(crate) proof fn lemma_abs_prod_bound(p: int, q: int, b: int)
    requires
        0 <= b,
        -16384 <= p <= 16384,
        -b <= q <= b,
    ensures
        -16384 * b <= p * q <= 16384 * b,
{
    assert(-16384 * b <= p * q <= 16384 * b) by (nonlinear_arith)
        requires
            0 <= b,
            -16384 <= p <= 16384,
            -b <= q <= b,
    ;
}

/// Dividing a value in `[-16384 * c, 16384 * c]` by the twiddle scale lands
/// in `[-c, c]`.
pub(crate) proof fn lemma_div_range(x: int, c: int)
    requires
        0 <= c,
        -16384 * c <= x <= 16384 * c,
    ensures
        -c <= x / 16384 <= c,
{
    assert((16384 * c) / 16384 == c) by {
        lemma_fundamental_div_mod_converse_div(16384 * c, 16384, c, 0);
    }
    assert((-16384 * c) / 16384 == -c) by {
        lemma_fundamental_div_mod_converse_div(-16384 * c, 16384, -c, 0);
    }
    lemma_div_is_ordered(-16384 * c, x, 16384);
    lemma_div_is_ordered(x, 16384 * c, 16384);
}

/// Componentwise sum of two samples.
pub fn add(a: Complex32, b: Complex32) -> (r: Complex32)
    requires
        i32::MIN <= a.re + b.re <= i32::MAX,
        i32::MIN <= a.im + b.im <= i32::MAX,
    ensures
        r@ == cx_add(a@, b@),
{
    Complex32 { re: a.re + b.re, im: a.im + b.im }
}

/// Componentwise difference of two samples.
pub fn sub(a: Complex32, b: Complex32) -> (r: Complex32)
    requires
        i32::MIN <= a.re - b.re <= i32::MAX,
        i32::MIN <= a.im - b.im <= i32::MAX,
    ensures
        r@ == cx_sub(a@, b@),
{
    Complex32 { re: a.re - b.re, im: a.im - b.im }
}

/// Q14 twiddle product of `t` and `v`, exactly as `cx_mul` models it.
pub fn mul(t: Complex32, v: Complex32) -> (r: Complex32)
    requires
        -TW_SCALE <= t.re <= TW_SCALE,
        -TW_SCALE <= t.im <= TW_SCALE,
        -0x3FFF_FFFF <= v.re <= 0x3FFF_FFFF,
        -0x3FFF_FFFF <= v.im <= 0x3FFF_FFFF,
    ensures
        r@ == cx_mul(t@, v@),
{
    let tr = t.re as i64;
    let ti = t.im as i64;
    let vr = v.re as i64;
    let vi = v.im as i64;
    proof {
        lemma_abs_prod_bound(tr as int, vr as int, 0x3FFF_FFFF);
        lemma_abs_prod_bound(ti as int, vi as int, 0x3FFF_FFFF);
        lemma_abs_prod_bound(tr as int, vi as int, 0x3FFF_FFFF);
        lemma_abs_prod_bound(ti as int, vr as int, 0x3FFF_FFFF);
    }
    let nre = tr * vr - ti * vi;
    let nim = tr * vi + ti * vr;
    proof {
        lemma_div_range(nre as int, 2 * 0x3FFF_FFFFint);
        lemma_div_range(nim as int, 2 * 0x3FFF_FFFFint);
    }
    let re = div_floor(nre, TW_SCALE as i64);
    let im = div_floor(nim, TW_SCALE as i64);
    Complex32 { re: re as i32, im: im as i32 }
}

} // verus!
