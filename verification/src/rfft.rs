//! The real transform engine: an `n`-point real-input FFT computed as an
//! `n/2`-point complex FFT of sample pairs, recombined into the non-redundant
//! half of the real spectrum.

use crate::cfft::{cfft_engine, cfft_spec, pow3};
use crate::cx::{
    cx_bounded, div_floor, fits, lemma_abs_prod_bound, lemma_div_range, vals, Complex32, Cx,
};
use crate::tables::FftTables;
use vstd::arithmetic::div_mod::{lemma_div_is_ordered, lemma_fundamental_div_mod_converse_div};
use vstd::arithmetic::power2::{lemma2_to64, lemma_pow2_adds, pow2};
use vstd::prelude::*;

verus! {

/// The mathematical values of a buffer of real samples.
pub open spec fn rvals(s: Seq<i32>) -> Seq<int> {
    s.map_values(|v: i32| v as int)
}

/// Every real sample in `s` has magnitude at most `b`.
pub open spec fn rfits(s: Seq<int>, b: int) -> bool {
    forall|i: int| 0 <= i < s.len() ==> -b <= #[trigger] s[i] <= b
}

/// Pack a real buffer into complex samples: pair `(s[2i], s[2i + 1])` becomes
/// complex sample `i`.
pub open spec fn pack_spec(s: Seq<int>) -> Seq<Cx> {
    Seq::new(s.len() / 2, |i: int| Cx { re: s[2 * i], im: s[2 * i + 1] })
}

/// Q14 twiddle-component product: exact product rescaled by a flooring
/// division by the twiddle scale.
pub open spec fn mq(t: int, v: int) -> int {
    (t * v) / 16384
}

/// Half of the componentwise sum of two bins, rounded toward minus infinity.
pub open spec fn half_sum(a: Cx, b: Cx) -> Cx {
    Cx { re: (a.re + b.re) / 2, im: (a.im + b.im) / 2 }
}

/// Half of the componentwise difference of two bins, rounded toward minus
/// infinity.
pub open spec fn half_diff(a: Cx, b: Cx) -> Cx {
    Cx { re: (a.re - b.re) / 2, im: (a.im - b.im) / 2 }
}

/// Recombined bin `k` (the lower index of a conjugate pair): `zk` and `zmk`
/// are half-transform bins `k` and `m - k`, `t` the size-`n` twiddle factor
/// for index `k`.
pub open spec fn rec_pair_lo(zk: Cx, zmk: Cx, t: Cx) -> Cx {
    let s = half_sum(zk, zmk);
    let d = half_diff(zk, zmk);
    Cx {
        re: s.re + mq(t.re, s.im) + mq(t.im, d.re),
        im: d.im + mq(t.im, s.im) - mq(t.re, d.re),
    }
}

/// Recombined bin `m - k` (the upper index of a conjugate pair), from the
/// same ingredients as `rec_pair_lo`.
pub open spec fn rec_pair_hi(zk: Cx, zmk: Cx, t: Cx) -> Cx {
    let s = half_sum(zk, zmk);
    let d = half_diff(zk, zmk);
    Cx {
        re: s.re - mq(t.re, s.im) - mq(t.im, d.re),
        im: -d.im + mq(t.im, s.im) - mq(t.re, d.re),
    }
}

/// The recombination phase: from the `m`-point half transform `z`, build the
/// `m` non-redundant bins of the `2m`-point real spectrum. Bin 0 packs DC and
/// Nyquist; bin `m/2` pairs with itself, so its formula collapses to
/// conjugation; the rest come in twiddle-weighted sum/difference pairs. `stride` maps a size-`2m` twiddle
/// index into the master table.
pub open spec fn rec_out(z: Seq<Cx>, tw: Seq<Cx>, stride: nat) -> Seq<Cx> {
    let m = z.len() as int;
    Seq::new(
        z.len(),
        |k: int|
            if k == 0 {
                Cx { re: z[0].re + z[0].im, im: 0 }
            } else if 2 * k < m {
                rec_pair_lo(z[k], z[m - k], tw[k * stride as int])
            } else if 2 * k == m {
                // The midpoint bin pairs with itself: the sum half is the
                // bin and the difference half is zero, so the pair formula
                // collapses to conjugation.
                Cx { re: z[k].re, im: -z[k].im }
            } else {
                rec_pair_hi(z[m - k], z[k], tw[(m - k) * stride as int])
            },
    )
}

/// The complete real transform of a buffer of length `n == 2^log2n`: pack,
/// half-size complex transform, recombination.
pub open spec fn rfft_spec(s: Seq<int>, tw: Seq<Cx>, log2n: nat) -> Seq<Cx> {
    rec_out(
        cfft_spec(pack_spec(s), tw, (log2n - 1) as nat),
        tw,
        pow2((12 - log2n) as nat),
    )
}

/// `|mq(t, v)| <= b` when `|t| <= 16384` and `|v| <= b`.
pub proof fn lemma_mq_bound(t: int, v: int, b: int)
    requires
        0 <= b,
        -16384 <= t <= 16384,
        -b <= v <= b,
    ensures
        -b <= mq(t, v) <= b,
{
    lemma_abs_prod_bound(t, v, b);
    lemma_div_range(t * v, b);
}

/// Dividing a value in `[-2c, 2c]` by two lands in `[-c, c]`.
proof fn lemma_half_range(x: int, c: int)
    requires
        0 <= c,
        -2 * c <= x <= 2 * c,
    ensures
        -c <= x / 2 <= c,
{
    assert((2 * c) / 2 == c) by {
        lemma_fundamental_div_mod_converse_div(2 * c, 2, c, 0);
    }
    assert((-2 * c) / 2 == -c) by {
        lemma_fundamental_div_mod_converse_div(-2 * c, 2, -c, 0);
    }
    lemma_div_is_ordered(-2 * c, x, 2);
    lemma_div_is_ordered(x, 2 * c, 2);
}

/// Floor of half the sum of two samples.
fn avg2(p: i32, q: i32) -> (r: i32)
    ensures
        r as int == (p + q) / 2,
{
    let s = p as i64 + q as i64;
    proof {
        lemma_half_range(s as int, 0x8000_0000);
    }
    let h = div_floor(s, 2);
    h as i32
}

/// Floor of half the difference of two samples.
fn dif2(p: i32, q: i32) -> (r: i32)
    ensures
        r as int == (p - q) / 2,
{
    let s = p as i64 - q as i64;
    proof {
        lemma_half_range(s as int, 0x8000_0000);
    }
    let h = div_floor(s, 2);
    h as i32
}

/// Q14 product of a twiddle component and a sample component.
fn mul_q14(tc: i32, v: i32) -> (r: i32)
    requires
        -16384 <= tc <= 16384,
        v > i32::MIN,
    ensures
        r as int == mq(tc as int, v as int),
{
    proof {
        lemma_abs_prod_bound(tc as int, v as int, 0x7FFF_FFFF);
        lemma_div_range(tc as int * v as int, 0x7FFF_FFFF);
    }
    let p = (tc as i64) * (v as i64);
    let r64 = div_floor(p, 16384);
    r64 as i32
}

/// Pack a real buffer into a complex buffer of half the length by pairing
/// consecutive samples. An explicit copy: the complex view owns its storage.
pub(crate) fn pack_complex(x: &Vec<i32>) -> (z: Vec<Complex32>)
    requires
        x@.len() % 2 == 0,
    ensures
        z@.len() == x@.len() / 2,
        vals(z@) == pack_spec(rvals(x@)),
{
    let n = x.len();
    let m = n / 2;
    let mut z: Vec<Complex32> = Vec::new();
    for i in 0..m
        invariant
            n == x@.len(),
            m == n / 2,
            z@.len() == i,
            forall|j: int|
                0 <= j < i ==> (#[trigger] z@[j])@ == (Cx {
                    re: x@[2 * j] as int,
                    im: x@[2 * j + 1] as int,
                }),
    {
        let c = Complex32::new(x[2 * i], x[2 * i + 1]);
        z.push(c);
    }
    proof {
        assert(vals(z@) =~= pack_spec(rvals(x@)));
    }
    z
}

/// In-place recombination of the half-size transform `z` into the `m`
/// non-redundant real-spectrum bins, exactly as `rec_out` models it.
#[verifier::loop_isolation(false)]
#[verifier::rlimit(100)]
pub(crate) fn recombine(z: &mut Vec<Complex32>, t: &FftTables, stride: usize, Ghost(g): Ghost<int>)
    requires
        t.wf(),
        old(z)@.len() >= 1,
        old(z)@.len() == 1 || old(z)@.len() % 2 == 0,
        stride * old(z)@.len() == 2048,
        g >= 0,
        3 * g <= 0x7FFF_FFFF,
        fits(vals(old(z)@), g),
    ensures
        final(z)@.len() == old(z)@.len(),
        vals(final(z)@) == rec_out(vals(old(z)@), t.tw(), stride as nat),
        fits(vals(final(z)@), 3 * g),
{
    let m = z.len();
    let ghost z0 = vals(old(z)@);
    let ghost twv = t.tw();
    let ghost mi = m as int;
    proof {
        assert(cx_bounded(z0[0], g));
    }
    let dc = z[0];
    z[0] = Complex32::new(dc.re + dc.im, 0);
    let u = m / 2;
    let top = if u > 1 {
        u
    } else {
        1
    };
    for k in 1..top
        invariant
            top == (if m / 2 > 1 {
                m / 2
            } else {
                1usize
            }),
            z@.len() == m,
            1 <= k,
            u > 1 ==> k <= u,
            forall|i: int|
                0 <= i < mi ==> (#[trigger] z@[i])@ == (if i == 0 {
                    Cx { re: z0[0].re + z0[0].im, im: 0 }
                } else if 1 <= i < k {
                    rec_pair_lo(z0[i], z0[mi - i], twv[i * stride as int])
                } else if mi - k < i < mi {
                    rec_pair_hi(z0[mi - i], z0[i], twv[(mi - i) * stride as int])
                } else {
                    z0[i]
                }),
    {
        proof {
            assert(k < u);
            assert(2 * k < mi);
            assert(k * stride < 1024 && (mi - k) * stride as int > k * stride) by (nonlinear_arith)
                requires
                    1 <= k,
                    2 * k < mi,
                    stride * mi == 2048,
                    stride >= 1,
                ;
            assert(cx_bounded(z0[k as int], g));
            assert(cx_bounded(z0[mi - k], g));
            assert(cx_bounded(twv[k as int * stride as int], 16384));
        }
        let a = z[k];
        let b = z[m - k];
        let tww = t.twiddle_at(k * stride);
        let s_re = avg2(a.re, b.re);
        let s_im = avg2(a.im, b.im);
        let d_re = dif2(a.re, b.re);
        let d_im = dif2(a.im, b.im);
        proof {
            let sv = half_sum(z0[k as int], z0[mi - k]);
            let dv = half_diff(z0[k as int], z0[mi - k]);
            lemma_half_range(z0[k as int].re + z0[mi - k].re, g);
            lemma_half_range(z0[k as int].im + z0[mi - k].im, g);
            lemma_half_range(z0[k as int].re - z0[mi - k].re, g);
            lemma_half_range(z0[k as int].im - z0[mi - k].im, g);
            lemma_mq_bound(twv[k as int * stride as int].re, sv.im, g);
            lemma_mq_bound(twv[k as int * stride as int].im, sv.im, g);
            lemma_mq_bound(twv[k as int * stride as int].im, dv.re, g);
            lemma_mq_bound(twv[k as int * stride as int].re, dv.re, g);
        }
        let p_rs = mul_q14(tww.re, s_im);
        let p_is = mul_q14(tww.im, s_im);
        let p_id = mul_q14(tww.im, d_re);
        let p_rd = mul_q14(tww.re, d_re);
        let lo = Complex32::new(s_re + p_rs + p_id, d_im + p_is - p_rd);
        let hi = Complex32::new(s_re - p_rs - p_id, -d_im + p_is - p_rd);
        z[k] = lo;
        z[m - k] = hi;
    }
    if m >= 2 {
        proof {
            assert(cx_bounded(z0[u as int], g));
        }
        let zm = z[u];
        z[u] = Complex32::new(zm.re, -zm.im);
    }
    proof {
        let r = rec_out(z0, twv, stride as nat);
        assert forall|i: int| 0 <= i < mi implies (#[trigger] vals(z@)[i]) == r[i] by {
            assert(vals(z@)[i] == z@[i]@);
            if 1 <= i && 2 * i < mi {
                assert(z@[i]@ == rec_pair_lo(z0[i], z0[mi - i], twv[i * stride as int]));
            } else if 2 * i > mi && i < mi {
                assert(z@[i]@ == rec_pair_hi(z0[mi - i], z0[i], twv[(mi - i) * stride as int]));
            }
        }
        assert(vals(z@) =~= r);
        assert forall|i: int| 0 <= i < mi implies cx_bounded(#[trigger] vals(z@)[i], 3 * g) by {
            if 1 <= i && 2 * i < mi {
                lemma_half_range(z0[i].re + z0[mi - i].re, g);
                lemma_half_range(z0[i].im + z0[mi - i].im, g);
                lemma_half_range(z0[i].re - z0[mi - i].re, g);
                lemma_half_range(z0[i].im - z0[mi - i].im, g);
                let sv = half_sum(z0[i], z0[mi - i]);
                let dv = half_diff(z0[i], z0[mi - i]);
                let tc = twv[i * stride as int];
                assert(0 <= (i * stride as int) && (i * stride as int) < 2048) by (nonlinear_arith)
                    requires
                        1 <= i,
                        2 * i < mi,
                        stride as int * mi == 2048,
                        stride >= 1,
                ;
                assert(cx_bounded(tc, 16384));
                lemma_mq_bound(tc.re, sv.im, g);
                lemma_mq_bound(tc.im, sv.im, g);
                lemma_mq_bound(tc.im, dv.re, g);
                lemma_mq_bound(tc.re, dv.re, g);
            } else if 2 * i > mi && i < mi {
                lemma_half_range(z0[mi - i].re + z0[i].re, g);
                lemma_half_range(z0[mi - i].im + z0[i].im, g);
                lemma_half_range(z0[mi - i].re - z0[i].re, g);
                lemma_half_range(z0[mi - i].im - z0[i].im, g);
                let sv = half_sum(z0[mi - i], z0[i]);
                let dv = half_diff(z0[mi - i], z0[i]);
                let tc = twv[(mi - i) * stride as int];
                assert(0 <= ((mi - i) * stride as int) && ((mi - i) * stride as int) < 2048)
                    by (nonlinear_arith)
                    requires
                        2 * i > mi,
                        i < mi,
                        stride as int * mi == 2048,
                        stride >= 1,
                ;
                assert(cx_bounded(tc, 16384));
                lemma_mq_bound(tc.re, sv.im, g);
                lemma_mq_bound(tc.im, sv.im, g);
                lemma_mq_bound(tc.im, dv.re, g);
                lemma_mq_bound(tc.re, dv.re, g);
            }
        }
        assert(fits(vals(z@), 3 * g));
    }
}

/// The complete real transform: pack into complex pairs, run the half-size
/// complex engine in place, recombine into the non-redundant half spectrum.
#[verifier::loop_isolation(false)]
pub(crate) fn rfft_engine(
    t: &FftTables,
    x: &Vec<i32>,
    log2n: usize,
    Ghost(b): Ghost<int>,
) -> (out: Vec<Complex32>)
    requires
        t.wf(),
        1 <= log2n <= 12,
        x@.len() == pow2(log2n as nat),
        b >= 0,
        rfits(rvals(x@), b),
        pow3(log2n as nat) * b <= 0x7FFF_FFFF,
    ensures
        out@.len() == pow2((log2n - 1) as nat),
        vals(out@) == rfft_spec(rvals(x@), t.tw(), log2n as nat),
        fits(vals(out@), pow3(log2n as nat) * b),
{
    proof {
        vstd::arithmetic::power2::lemma_pow2_unfold(log2n as nat);
        vstd::arithmetic::power2::lemma_pow2_pos((log2n - 1) as nat);
        assert(x@.len() % 2 == 0);
    }
    let mut z = pack_complex(x);
    let ghost packed = vals(z@);
    proof {
        assert forall|i: int| 0 <= i < packed.len() implies cx_bounded(#[trigger] packed[i], b) by {
            assert(packed[i] == pack_spec(rvals(x@))[i]);
            assert(rvals(x@)[2 * i] == x@[2 * i] as int);
            assert(rvals(x@)[2 * i + 1] == x@[2 * i + 1] as int);
            assert(-b <= rvals(x@)[2 * i] <= b);
            assert(-b <= rvals(x@)[2 * i + 1] <= b);
        }
        assert(fits(packed, b));
    }
    let ghost khalf = (log2n - 1) as nat;
    let ghost g = pow3(khalf) * b;
    proof {
        crate::cfft::lemma_pow3_pos(khalf);
        assert(3 * g == pow3(log2n as nat) * b && g >= 0 && g <= pow3(log2n as nat) * b)
            by (nonlinear_arith)
            requires
                pow3(log2n as nat) == 3 * pow3(khalf),
                g == pow3(khalf) * b,
                b >= 0,
                pow3(khalf) >= 1,
        ;
    }
    if log2n >= 2 {
        cfft_engine(t, &mut z, log2n - 1, Ghost(b));
    } else {
        proof {
            assert(pow2(1) == 2 && pow2(0) == 1) by {
                lemma2_to64();
            }
            assert(packed.len() == 1);
            assert(crate::cfft::reorder_spec(packed, 0) =~= packed) by {
                assert(crate::bits::rev_bits(0, 0) == 0);
            }
            assert(crate::cfft::fft_rec_spec(packed, t.tw(), pow2(12)) == packed);
            assert(vals(z@) == cfft_spec(packed, t.tw(), 0));
            assert(pow3(0) == 1);
        }
    }
    let stride = crate::tables::pow2_exec(12 - log2n);
    proof {
        lemma_pow2_adds((12 - log2n) as nat, (log2n - 1) as nat);
        assert(pow2(11) == 2048) by {
            lemma2_to64();
        }
        assert(z@.len() == 1 || z@.len() % 2 == 0) by {
            if log2n >= 2 {
                vstd::arithmetic::power2::lemma_pow2_unfold((log2n - 1) as nat);
            }
        }
        assert(fits(vals(z@), g));
    }
    recombine(&mut z, t, stride, Ghost(g));
    proof {
        assert(vals(z@) == rfft_spec(rvals(x@), t.tw(), log2n as nat));
    }
    z
}

} // verus!
