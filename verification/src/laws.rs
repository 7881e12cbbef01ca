//! Laws of the transform engines, stated and proved against the engine
//! models: the bit-reversal tables are involutions, bin 0 of a transform is
//! the input sum, the two- and four-point transforms equal the exact DFT and
//! are exactly linear, and the real and complex engines agree on bin 0 of
//! every size and on every bin of the four-point transform.

use crate::bits::{lemma_rev_bits_involution, lemma_rev_bits_range, lemma_rev_bits_top, rev_bits};
use crate::cfft::{cfft_spec, fft_rec_spec, reorder_spec};
use crate::cx::{cx_add, cx_mul, cx_sub, Cx};
use crate::rfft::{pack_spec, rfft_spec};
use crate::tables::FftTables;
use vstd::arithmetic::div_mod::lemma_fundamental_div_mod_converse_div;
use vstd::arithmetic::power2::{lemma2_to64, lemma_pow2_pos, lemma_pow2_unfold, pow2};
use vstd::prelude::*;

verus! {

/// Componentwise sum of a buffer of complex values.
pub open spec fn cx_sum(s: Seq<Cx>) -> Cx
    decreases s.len(),
{
    if s.len() == 0 {
        Cx { re: 0, im: 0 }
    } else {
        cx_add(cx_sum(s.drop_last()), s.last())
    }
}

/// Sum of a buffer of real samples.
pub open spec fn rsum(s: Seq<int>) -> int
    decreases s.len(),
{
    if s.len() == 0 {
        0
    } else {
        rsum(s.drop_last()) + s.last()
    }
}

/// Bit-reversal table involution: applying a bit-reversal table twice gives
/// the index back, for every supported size and every index.
pub proof fn lemma_bitrev_table_involution(t: FftTables, k: int, i: int)
    requires
        t.wf(),
        0 <= k < 13,
        0 <= i < t.bitrev@[k]@.len(),
    ensures
        t.bitrev@[k]@[t.bitrev@[k]@[i] as int] as int == i,
{
    lemma_rev_bits_range(i as nat, k as nat);
    lemma_rev_bits_involution(i as nat, k as nat);
}

/// Multiplying by the exactly representable unit twiddle `(TW_SCALE, 0)` is
/// the identity.
pub proof fn lemma_cx_mul_one(v: Cx)
    ensures
        cx_mul(Cx { re: 16384, im: 0 }, v) == v,
{
    assert(16384 * v.re - 0 * v.im == 16384 * v.re) by (nonlinear_arith);
    assert(16384 * v.im + 0 * v.re == 16384 * v.im) by (nonlinear_arith);
    assert((16384 * v.re) / 16384 == v.re) by {
        lemma_fundamental_div_mod_converse_div(16384 * v.re, 16384, v.re, 0);
    }
    assert((16384 * v.im) / 16384 == v.im) by {
        lemma_fundamental_div_mod_converse_div(16384 * v.im, 16384, v.im, 0);
    }
}

/// The sum of a buffer splits at any point.
proof fn lemma_cx_sum_split(s: Seq<Cx>, m: int)
    requires
        0 <= m <= s.len(),
    ensures
        cx_sum(s) == cx_add(cx_sum(s.subrange(0, m)), cx_sum(s.subrange(m, s.len() as int))),
    decreases s.len() - m,
{
    let n = s.len() as int;
    if m == n {
        assert(s.subrange(0, m) =~= s);
        assert(s.subrange(m, n).len() == 0);
    } else {
        lemma_cx_sum_split(s.drop_last(), m);
        assert(s.drop_last().subrange(0, m) =~= s.subrange(0, m));
        assert(s.drop_last().subrange(m, n - 1) =~= s.subrange(m, n).drop_last());
        assert(s.subrange(m, n).last() == s.last());
        assert(s.subrange(m, n).len() > 0);
    }
}

/// Bin 0 of the butterfly phase is the sum of the buffer, because the
/// twiddle factor at index 0 is exactly one at every stage.
proof fn lemma_fft_rec_dc(s: Seq<Cx>, tw: Seq<Cx>, stride: nat, k: nat)
    requires
        s.len() == pow2(k),
        tw.len() >= 1,
        tw[0] == (Cx { re: 16384, im: 0 }),
    ensures
        fft_rec_spec(s, tw, stride)[0] == cx_sum(s),
    decreases k,
{
    lemma_pow2_pos(k);
    if k == 0 {
        assert(pow2(0) == 1) by {
            lemma2_to64();
        }
        assert(s.drop_last().len() == 0);
        assert(cx_sum(s.drop_last()) == (Cx { re: 0, im: 0 }));
        assert(cx_sum(s) == s[0]);
    } else {
        lemma_pow2_unfold(k);
        let n = s.len() as int;
        let m = n / 2;
        let slo = s.subrange(0, m);
        let shi = s.subrange(m, n);
        assert(slo.len() == pow2((k - 1) as nat));
        assert(shi.len() == pow2((k - 1) as nat));
        lemma_fft_rec_dc(slo, tw, 2 * stride, (k - 1) as nat);
        lemma_fft_rec_dc(shi, tw, 2 * stride, (k - 1) as nat);
        let lo = fft_rec_spec(slo, tw, 2 * stride);
        let hi = fft_rec_spec(shi, tw, 2 * stride);
        assert(0 * stride as int == 0) by (nonlinear_arith);
        assert(fft_rec_spec(s, tw, stride)[0] == cx_add(lo[0], cx_mul(tw[0], hi[0])));
        lemma_cx_mul_one(hi[0]);
        lemma_cx_sum_split(s, m);
    }
}

/// The even-indexed elements of a buffer.
spec fn evens(s: Seq<Cx>) -> Seq<Cx> {
    Seq::new(s.len() / 2, |j: int| s[2 * j])
}

/// The odd-indexed elements of a buffer.
spec fn odds(s: Seq<Cx>) -> Seq<Cx> {
    Seq::new(s.len() / 2, |j: int| s[2 * j + 1])
}

/// The sums of the even- and odd-indexed elements add up to the whole sum.
proof fn lemma_cx_sum_even_odd(s: Seq<Cx>)
    requires
        s.len() % 2 == 0,
    ensures
        cx_add(cx_sum(evens(s)), cx_sum(odds(s))) == cx_sum(s),
    decreases s.len(),
{
    if s.len() == 0 {
        assert(evens(s).len() == 0);
        assert(odds(s).len() == 0);
    } else {
        let n = s.len() as int;
        let t = s.subrange(0, n - 2);
        lemma_cx_sum_even_odd(t);
        assert(evens(t) =~= evens(s).drop_last());
        assert(odds(t) =~= odds(s).drop_last());
        assert(evens(s).last() == s[n - 2]);
        assert(odds(s).last() == s[n - 1]);
        lemma_cx_sum_split(s, n - 2);
        let hi2 = s.subrange(n - 2, n);
        assert(hi2.drop_last() =~= s.subrange(n - 2, n - 1));
        assert(hi2.drop_last().drop_last().len() == 0);
        assert(cx_sum(hi2.drop_last().drop_last()) == (Cx { re: 0, im: 0 }));
        assert(cx_sum(hi2.drop_last()) == cx_add(Cx { re: 0, im: 0 }, s[n - 2]));
        assert(cx_sum(hi2) == cx_add(cx_add(Cx { re: 0, im: 0 }, s[n - 2]), s[n - 1]));
        assert(evens(s).len() > 0 && odds(s).len() > 0);
    }
}

/// The bit-reversal reorder of a buffer is the reorders of its even- and
/// odd-indexed halves, concatenated.
proof fn lemma_reorder_split(s: Seq<Cx>, b: nat)
    requires
        b >= 1,
        s.len() == pow2(b),
    ensures
        reorder_spec(s, b) =~= reorder_spec(evens(s), (b - 1) as nat) + reorder_spec(
            odds(s),
            (b - 1) as nat,
        ),
{
    lemma_pow2_unfold(b);
    let n = s.len() as int;
    let h = n / 2;
    assert forall|i: int| 0 <= i < n implies reorder_spec(s, b)[i] == (reorder_spec(
        evens(s),
        (b - 1) as nat,
    ) + reorder_spec(odds(s), (b - 1) as nat))[i] by {
        lemma_rev_bits_range(i as nat, b);
        if i < h {
            lemma_rev_bits_range(i as nat, (b - 1) as nat);
            lemma_rev_bits_top(0, i as nat, (b - 1) as nat);
            assert(0 * pow2((b - 1) as nat) == 0) by (nonlinear_arith);
            assert(rev_bits(i as nat, b) == 2 * rev_bits(i as nat, (b - 1) as nat));
        } else {
            let y = (i - h) as nat;
            lemma_rev_bits_range(y, (b - 1) as nat);
            lemma_rev_bits_top(1, y, (b - 1) as nat);
            assert(1 * pow2((b - 1) as nat) == pow2((b - 1) as nat)) by (nonlinear_arith);
            assert(rev_bits(i as nat, b) == 2 * rev_bits(y, (b - 1) as nat) + 1);
        }
    }
}

/// The bit-reversal reorder permutes the buffer, so it keeps the sum.
proof fn lemma_reorder_sum(s: Seq<Cx>, b: nat)
    requires
        s.len() == pow2(b),
    ensures
        cx_sum(reorder_spec(s, b)) == cx_sum(s),
    decreases b,
{
    lemma_pow2_pos(b);
    if b == 0 {
        assert(pow2(0) == 1) by {
            lemma2_to64();
        }
        assert(rev_bits(0, 0) == 0);
        assert(reorder_spec(s, b) =~= s);
    } else {
        lemma_pow2_unfold(b);
        let ev = evens(s);
        let od = odds(s);
        assert(ev.len() == pow2((b - 1) as nat));
        assert(od.len() == pow2((b - 1) as nat));
        lemma_reorder_split(s, b);
        let re = reorder_spec(ev, (b - 1) as nat);
        let ro = reorder_spec(od, (b - 1) as nat);
        lemma_cx_sum_split(re + ro, re.len() as int);
        assert((re + ro).subrange(0, re.len() as int) =~= re);
        assert((re + ro).subrange(re.len() as int, (re + ro).len() as int) =~= ro);
        lemma_reorder_sum(ev, (b - 1) as nat);
        lemma_reorder_sum(od, (b - 1) as nat);
        lemma_cx_sum_even_odd(s);
    }
}

/// DC law: bin 0 of the complex transform is the componentwise sum of the
/// input buffer, exactly. In particular, for a purely real input, bin 0 is
/// the arithmetic sum of the samples' real parts with a zero imaginary part
/// (see `lemma_cfft_dc_real`).
pub proof fn lemma_cfft_dc(s: Seq<Cx>, tw: Seq<Cx>, k: nat)
    requires
        s.len() == pow2(k),
        k <= 12,
        tw.len() >= 1,
        tw[0] == (Cx { re: 16384, im: 0 }),
    ensures
        cfft_spec(s, tw, k)[0] == cx_sum(s),
{
    let r = reorder_spec(s, k);
    lemma_reorder_sum(s, k);
    lemma_fft_rec_dc(r, tw, pow2((12 - k) as nat), k);
}

/// A purely real buffer sums to a purely real value.
pub proof fn lemma_cx_sum_real(s: Seq<Cx>)
    requires
        forall|i: int| 0 <= i < s.len() ==> (#[trigger] s[i]).im == 0,
    ensures
        cx_sum(s).im == 0,
    decreases s.len(),
{
    if s.len() > 0 {
        lemma_cx_sum_real(s.drop_last());
    }
}

/// DC identity for real inputs: if every sample of the complex buffer has a
/// zero imaginary part, bin 0 of the transform is the arithmetic sum of the
/// real parts, with a zero imaginary part.
pub proof fn lemma_cfft_dc_real(s: Seq<Cx>, tw: Seq<Cx>, k: nat)
    requires
        s.len() == pow2(k),
        k <= 12,
        tw.len() >= 1,
        tw[0] == (Cx { re: 16384, im: 0 }),
        forall|i: int| 0 <= i < s.len() ==> (#[trigger] s[i]).im == 0,
    ensures
        cfft_spec(s, tw, k)[0].im == 0,
        cfft_spec(s, tw, k)[0].re == cx_sum(s).re,
{
    lemma_cfft_dc(s, tw, k);
    lemma_cx_sum_real(s);
}

/// A buffer of one sample is transformed to itself.
pub proof fn lemma_cfft1_identity(s: Seq<Cx>, tw: Seq<Cx>)
    requires
        s.len() == 1,
    ensures
        cfft_spec(s, tw, 0) == s,
{
    assert(rev_bits(0, 0) == 0);
    assert(reorder_spec(s, 0) =~= s);
}

/// Closed form of the two-point transform: `(x0 + x1, x0 - x1)`, exactly,
/// because its only twiddle factor is exactly one.
pub proof fn lemma_cfft2_closed_form(s: Seq<Cx>, tw: Seq<Cx>)
    requires
        s.len() == 2,
        tw.len() >= 1,
        tw[0] == (Cx { re: 16384, im: 0 }),
    ensures
        cfft_spec(s, tw, 1).len() == 2,
        cfft_spec(s, tw, 1)[0] == cx_add(s[0], s[1]),
        cfft_spec(s, tw, 1)[1] == cx_sub(s[0], s[1]),
{
    assert(pow2(0) == 1 && pow2(1) == 2) by {
        lemma2_to64();
    }
    assert(rev_bits(0nat, 0nat) == 0);
    assert(rev_bits(0nat, 1nat) == (0nat % 2) * pow2(0) + rev_bits(0nat, 0nat));
    assert(rev_bits(1nat, 1nat) == (1nat % 2) * pow2(0) + rev_bits(0nat, 0nat));
    assert((0nat % 2) * pow2(0) == 0 && (1nat % 2) * pow2(0) == 1) by (nonlinear_arith)
        requires
            pow2(0) == 1,
    ;
    let r = reorder_spec(s, 1);
    assert(r =~= s);
    let lo = fft_rec_spec(s.subrange(0, 1), tw, 2 * pow2(11));
    let hi = fft_rec_spec(s.subrange(1, 2), tw, 2 * pow2(11));
    assert(lo == s.subrange(0, 1));
    assert(hi == s.subrange(1, 2));
    let st = pow2(11) as int;
    assert(0 * st == 0) by (nonlinear_arith);
    assert(cfft_spec(s, tw, 1)[0] == cx_add(lo[0], cx_mul(tw[0], hi[0])));
    assert(cfft_spec(s, tw, 1)[1] == cx_sub(lo[0], cx_mul(tw[0], hi[0])));
    lemma_cx_mul_one(s[1]);
}

/// Scaling of a complex value by an integer, exact.
pub open spec fn cx_scale(a: int, v: Cx) -> Cx {
    Cx { re: a * v.re, im: a * v.im }
}

/// Exact linearity of the two-point transform: transforming
/// `a * x + b * y` gives `a * transform(x) + b * transform(y)`, with no
/// rounding, because the two-point butterfly uses no scaled twiddle product.
/// (Larger sizes rescale each twiddle product with a flooring division, so
/// their linearity holds only up to rounding and is checked by tests.)
pub proof fn lemma_cfft2_linear(a: int, b: int, x: Seq<Cx>, y: Seq<Cx>, tw: Seq<Cx>)
    requires
        x.len() == 2,
        y.len() == 2,
        tw.len() >= 1,
        tw[0] == (Cx { re: 16384, im: 0 }),
    ensures
        ({
            let combo = Seq::new(2, |i: int| cx_add(cx_scale(a, x[i]), cx_scale(b, y[i])));
            forall|i: int|
                0 <= i < 2 ==> #[trigger] cfft_spec(combo, tw, 1)[i] == cx_add(
                    cx_scale(a, cfft_spec(x, tw, 1)[i]),
                    cx_scale(b, cfft_spec(y, tw, 1)[i]),
                )
        }),
{
    let combo = Seq::new(2, |i: int| cx_add(cx_scale(a, x[i]), cx_scale(b, y[i])));
    lemma_cfft2_closed_form(x, tw);
    lemma_cfft2_closed_form(y, tw);
    lemma_cfft2_closed_form(combo, tw);
    broadcast use vstd::arithmetic::mul::lemma_mul_is_distributive_add;
    broadcast use vstd::arithmetic::mul::lemma_mul_is_distributive_sub;

}

/// A real buffer embedded as complex samples with zero imaginary parts.
pub open spec fn embed_real(s: Seq<int>) -> Seq<Cx> {
    Seq::new(s.len(), |i: int| Cx { re: s[i], im: 0 })
}

/// The componentwise sum of the packed buffer carries the whole real sum:
/// real parts collect the even-indexed samples, imaginary parts the odd ones.
proof fn lemma_pack_sum(s: Seq<int>)
    requires
        s.len() % 2 == 0,
    ensures
        cx_sum(pack_spec(s)).re + cx_sum(pack_spec(s)).im == rsum(s),
    decreases s.len(),
{
    if s.len() > 0 {
        let n = s.len() as int;
        let t = s.subrange(0, n - 2);
        lemma_pack_sum(t);
        assert(pack_spec(t) =~= pack_spec(s).drop_last());
        assert(pack_spec(s).last() == (Cx { re: s[n - 2], im: s[n - 1] }));
        assert(s.drop_last() =~= s.subrange(0, n - 1));
        assert(s.subrange(0, n - 1).drop_last() =~= t);
        assert(rsum(s) == rsum(s.subrange(0, n - 1)) + s[n - 1]);
        assert(rsum(s.subrange(0, n - 1)) == rsum(t) + s[n - 2]);
        assert(pack_spec(s).len() > 0);
    }
}

/// The sum of an embedded real buffer is the real sum.
proof fn lemma_embed_sum(s: Seq<int>)
    ensures
        cx_sum(embed_real(s)) == (Cx { re: rsum(s), im: 0 }),
    decreases s.len(),
{
    if s.len() == 0 {
        assert(embed_real(s).len() == 0);
    } else {
        let n = s.len() as int;
        lemma_embed_sum(s.drop_last());
        assert(embed_real(s.drop_last()) =~= embed_real(s).drop_last());
        assert(embed_real(s).last() == (Cx { re: s[n - 1], im: 0 }));
        assert(embed_real(s).len() > 0);
    }
}

/// The real and complex engines agree on bin 0: for a real signal, both the
/// real transform and the complex transform of the signal embedded with zero
/// imaginary parts produce the arithmetic sum of the samples at bin 0, with
/// a zero imaginary part.
pub proof fn lemma_dc_agreement(s: Seq<int>, tw: Seq<Cx>, k: nat)
    requires
        s.len() == pow2(k),
        1 <= k <= 12,
        tw.len() >= 1,
        tw[0] == (Cx { re: 16384, im: 0 }),
    ensures
        rfft_spec(s, tw, k)[0] == (Cx { re: rsum(s), im: 0 }),
        cfft_spec(embed_real(s), tw, k)[0] == (Cx { re: rsum(s), im: 0 }),
{
    lemma_pow2_unfold(k);
    let packed = pack_spec(s);
    assert(packed.len() == pow2((k - 1) as nat));
    let z = cfft_spec(packed, tw, (k - 1) as nat);
    lemma_cfft_dc(packed, tw, (k - 1) as nat);
    crate::cfft::lemma_fft_rec_len(
        reorder_spec(packed, (k - 1) as nat),
        tw,
        pow2((12 - (k - 1)) as nat),
    );
    assert(z.len() == packed.len());
    lemma_pow2_pos((k - 1) as nat);
    assert(z.len() >= 1);
    lemma_pack_sum(s);
    assert(rfft_spec(s, tw, k)[0] == (Cx { re: z[0].re + z[0].im, im: 0 }));
    lemma_embed_sum(s);
    lemma_cfft_dc(embed_real(s), tw, k);
}

/// Rotation by a quarter turn clockwise: multiplication by `-i`.
pub open spec fn cx_rot90(v: Cx) -> Cx {
    Cx { re: v.im, im: -v.re }
}

/// Multiplying by the exactly representable quarter-turn twiddle
/// `(0, -TW_SCALE)` is exactly the rotation by minus ninety degrees.
pub proof fn lemma_cx_mul_quarter(v: Cx)
    ensures
        cx_mul(Cx { re: 0, im: -16384 }, v) == cx_rot90(v),
{
    assert(0 * v.re - (-16384) * v.im == 16384 * v.im) by (nonlinear_arith);
    assert(0 * v.im + (-16384) * v.re == 16384 * (-v.re)) by (nonlinear_arith);
    assert((16384 * v.im) / 16384 == v.im) by {
        lemma_fundamental_div_mod_converse_div(16384 * v.im, 16384, v.im, 0);
    }
    assert((16384 * (-v.re)) / 16384 == -v.re) by {
        lemma_fundamental_div_mod_converse_div(16384 * (-v.re), 16384, -v.re, 0);
    }
}

/// Closed form of the four-point transform: the exact four-point DFT,
/// because both of its twiddle factors (one and minus i) are exactly
/// representable in Q14.
pub proof fn lemma_cfft4_closed_form(s: Seq<Cx>, tw: Seq<Cx>)
    requires
        s.len() == 4,
        tw.len() >= 1025,
        tw[0] == (Cx { re: 16384, im: 0 }),
        tw[1024] == (Cx { re: 0, im: -16384 }),
    ensures
        cfft_spec(s, tw, 2).len() == 4,
        cfft_spec(s, tw, 2)[0] == cx_add(cx_add(s[0], s[2]), cx_add(s[1], s[3])),
        cfft_spec(s, tw, 2)[1] == cx_add(cx_sub(s[0], s[2]), cx_rot90(cx_sub(s[1], s[3]))),
        cfft_spec(s, tw, 2)[2] == cx_sub(cx_add(s[0], s[2]), cx_add(s[1], s[3])),
        cfft_spec(s, tw, 2)[3] == cx_sub(cx_sub(s[0], s[2]), cx_rot90(cx_sub(s[1], s[3]))),
{
    assert(pow2(0) == 1 && pow2(1) == 2 && pow2(2) == 4 && pow2(10) == 1024) by {
        lemma2_to64();
    }
    // the two-bit reversals: 0, 2, 1, 3
    assert(rev_bits(0nat, 0nat) == 0);
    assert(rev_bits(0nat, 1nat) == (0nat % 2) * pow2(0) + rev_bits(0nat, 0nat));
    assert(rev_bits(1nat, 1nat) == (1nat % 2) * pow2(0) + rev_bits(0nat, 0nat));
    assert((0nat % 2) * pow2(0) == 0 && (1nat % 2) * pow2(0) == 1) by (nonlinear_arith)
        requires
            pow2(0) == 1,
    ;
    assert(rev_bits(0nat, 2nat) == (0nat % 2) * pow2(1) + rev_bits(0nat, 1nat));
    assert(rev_bits(1nat, 2nat) == (1nat % 2) * pow2(1) + rev_bits(0nat, 1nat));
    assert(rev_bits(2nat, 2nat) == (2nat % 2) * pow2(1) + rev_bits(1nat, 1nat));
    assert(rev_bits(3nat, 2nat) == (3nat % 2) * pow2(1) + rev_bits(1nat, 1nat));
    assert((0nat % 2) * pow2(1) == 0 && (1nat % 2) * pow2(1) == 2 && (2nat % 2) * pow2(1) == 0
        && (3nat % 2) * pow2(1) == 2) by (nonlinear_arith)
        requires
            pow2(1) == 2,
    ;
    let r = reorder_spec(s, 2);
    assert(r =~= seq![s[0], s[2], s[1], s[3]]);
    // the two half transforms, each a two-point butterfly with twiddle one
    let st = pow2(10);
    let lo = fft_rec_spec(r.subrange(0, 2), tw, 2 * st);
    let hi = fft_rec_spec(r.subrange(2, 4), tw, 2 * st);
    assert(r.subrange(0, 2).subrange(0, 1) =~= seq![s[0]]);
    assert(r.subrange(0, 2).subrange(1, 2) =~= seq![s[2]]);
    assert(r.subrange(2, 4).subrange(0, 1) =~= seq![s[1]]);
    assert(r.subrange(2, 4).subrange(1, 2) =~= seq![s[3]]);
    assert(fft_rec_spec(r.subrange(0, 2).subrange(0, 1), tw, 2 * (2 * st)) == r.subrange(
        0,
        2,
    ).subrange(0, 1));
    assert(fft_rec_spec(r.subrange(0, 2).subrange(1, 2), tw, 2 * (2 * st)) == r.subrange(
        0,
        2,
    ).subrange(1, 2));
    assert(fft_rec_spec(r.subrange(2, 4).subrange(0, 1), tw, 2 * (2 * st)) == r.subrange(
        2,
        4,
    ).subrange(0, 1));
    assert(fft_rec_spec(r.subrange(2, 4).subrange(1, 2), tw, 2 * (2 * st)) == r.subrange(
        2,
        4,
    ).subrange(1, 2));
    assert(0 * ((2 * st) as int) == 0) by (nonlinear_arith);
    lemma_cx_mul_one(s[2]);
    lemma_cx_mul_one(s[3]);
    assert(lo =~= seq![cx_add(s[0], s[2]), cx_sub(s[0], s[2])]);
    assert(hi =~= seq![cx_add(s[1], s[3]), cx_sub(s[1], s[3])]);
    // the final combination with twiddles one and minus i
    assert(0 * st as int == 0 && 1 * st as int == 1024) by (nonlinear_arith)
        requires
            st == 1024,
    ;
    lemma_cx_mul_one(hi[0]);
    lemma_cx_mul_quarter(hi[1]);
    assert(cfft_spec(s, tw, 2) == fft_rec_spec(r, tw, st as nat));
    assert(fft_rec_spec(r, tw, st as nat)[0] == cx_add(lo[0], cx_mul(tw[0], hi[0])));
    assert(fft_rec_spec(r, tw, st as nat)[1] == cx_add(lo[1], cx_mul(tw[1024], hi[1])));
    assert(fft_rec_spec(r, tw, st as nat)[2] == cx_sub(lo[0], cx_mul(tw[0], hi[0])));
    assert(fft_rec_spec(r, tw, st as nat)[3] == cx_sub(lo[1], cx_mul(tw[1024], hi[1])));
}

/// Exact linearity of the four-point transform, like the two-point one: all
/// of its twiddle products are exact, so no rounding occurs anywhere.
pub proof fn lemma_cfft4_linear(a: int, b: int, x: Seq<Cx>, y: Seq<Cx>, tw: Seq<Cx>)
    requires
        x.len() == 4,
        y.len() == 4,
        tw.len() >= 1025,
        tw[0] == (Cx { re: 16384, im: 0 }),
        tw[1024] == (Cx { re: 0, im: -16384 }),
    ensures
        ({
            let combo = Seq::new(4, |i: int| cx_add(cx_scale(a, x[i]), cx_scale(b, y[i])));
            forall|i: int|
                0 <= i < 4 ==> #[trigger] cfft_spec(combo, tw, 2)[i] == cx_add(
                    cx_scale(a, cfft_spec(x, tw, 2)[i]),
                    cx_scale(b, cfft_spec(y, tw, 2)[i]),
                )
        }),
{
    let combo = Seq::new(4, |i: int| cx_add(cx_scale(a, x[i]), cx_scale(b, y[i])));
    lemma_cfft4_closed_form(x, tw);
    lemma_cfft4_closed_form(y, tw);
    lemma_cfft4_closed_form(combo, tw);
    assert(((a * x[0].re + b * y[0].re) + (a * x[2].re + b * y[2].re)) + ((a * x[1].re + b * y[1].re) + (a * x[3].re + b * y[3].re)) == a * ((x[0].re + x[2].re) + (x[1].re + x[3].re)) + b * ((y[0].re + y[2].re) + (y[1].re + y[3].re))) by (nonlinear_arith);
    assert(((a * x[0].im + b * y[0].im) + (a * x[2].im + b * y[2].im)) + ((a * x[1].im + b * y[1].im) + (a * x[3].im + b * y[3].im)) == a * ((x[0].im + x[2].im) + (x[1].im + x[3].im)) + b * ((y[0].im + y[2].im) + (y[1].im + y[3].im))) by (nonlinear_arith);
    assert(((a * x[0].re + b * y[0].re) - (a * x[2].re + b * y[2].re)) + ((a * x[1].im + b * y[1].im) - (a * x[3].im + b * y[3].im)) == a * ((x[0].re - x[2].re) + (x[1].im - x[3].im)) + b * ((y[0].re - y[2].re) + (y[1].im - y[3].im))) by (nonlinear_arith);
    assert(((a * x[0].im + b * y[0].im) - (a * x[2].im + b * y[2].im)) + (-((a * x[1].re + b * y[1].re) - (a * x[3].re + b * y[3].re))) == a * ((x[0].im - x[2].im) + (-(x[1].re - x[3].re))) + b * ((y[0].im - y[2].im) + (-(y[1].re - y[3].re)))) by (nonlinear_arith);
    assert(((a * x[0].re + b * y[0].re) + (a * x[2].re + b * y[2].re)) - ((a * x[1].re + b * y[1].re) + (a * x[3].re + b * y[3].re)) == a * ((x[0].re + x[2].re) - (x[1].re + x[3].re)) + b * ((y[0].re + y[2].re) - (y[1].re + y[3].re))) by (nonlinear_arith);
    assert(((a * x[0].im + b * y[0].im) + (a * x[2].im + b * y[2].im)) - ((a * x[1].im + b * y[1].im) + (a * x[3].im + b * y[3].im)) == a * ((x[0].im + x[2].im) - (x[1].im + x[3].im)) + b * ((y[0].im + y[2].im) - (y[1].im + y[3].im))) by (nonlinear_arith);
    assert(((a * x[0].re + b * y[0].re) - (a * x[2].re + b * y[2].re)) - ((a * x[1].im + b * y[1].im) - (a * x[3].im + b * y[3].im)) == a * ((x[0].re - x[2].re) - (x[1].im - x[3].im)) + b * ((y[0].re - y[2].re) - (y[1].im - y[3].im))) by (nonlinear_arith);
    assert(((a * x[0].im + b * y[0].im) - (a * x[2].im + b * y[2].im)) - (-((a * x[1].re + b * y[1].re) - (a * x[3].re + b * y[3].re))) == a * ((x[0].im - x[2].im) - (-(x[1].re - x[3].re))) + b * ((y[0].im - y[2].im) - (-(y[1].re - y[3].re)))) by (nonlinear_arith);
}


/// For four real samples the whole pipeline is exact, so the real engine
/// agrees with the complex engine on the signal embedded with zero imaginary
/// parts over every one of its output bins, exactly. (For larger sizes the
/// twiddle rescaling rounds, and the agreement is within tolerance; tests
/// check it.)
pub proof fn lemma_rfft4_matches_cfft4(s: Seq<int>, tw: Seq<Cx>)
    requires
        s.len() == 4,
        tw.len() >= 1025,
        tw[0] == (Cx { re: 16384, im: 0 }),
        tw[1024] == (Cx { re: 0, im: -16384 }),
    ensures
        forall|i: int|
            0 <= i < 2 ==> #[trigger] rfft_spec(s, tw, 2)[i] == cfft_spec(embed_real(s), tw, 2)[i],
{
    let packed = pack_spec(s);
    assert(packed.len() == 2);
    assert(packed[0] == (Cx { re: s[0], im: s[1] }));
    assert(packed[1] == (Cx { re: s[2], im: s[3] }));
    lemma_cfft2_closed_form(packed, tw);
    let z = cfft_spec(packed, tw, 1);
    assert(z[0] == cx_add(packed[0], packed[1]));
    assert(z[1] == cx_sub(packed[0], packed[1]));
    let r = rfft_spec(s, tw, 2);
    assert(r[0] == (Cx { re: z[0].re + z[0].im, im: 0 }));
    assert(r[1] == (Cx { re: z[1].re, im: -z[1].im }));
    let e = embed_real(s);
    lemma_cfft4_closed_form(e, tw);
    assert(cfft_spec(e, tw, 2)[0] == cx_add(cx_add(e[0], e[2]), cx_add(e[1], e[3])));
    assert(cfft_spec(e, tw, 2)[1] == cx_add(cx_sub(e[0], e[2]), cx_rot90(cx_sub(e[1], e[3]))));
}

} // verus!
