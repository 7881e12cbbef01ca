//! The complex transform engine: an in-place radix-2 decimation-in-time FFT,
//! modelled exactly by a recursive specification.

use crate::bits::{lemma_rev_bits_involution, lemma_rev_bits_range, rev_bits};
use crate::cx::{cx_add, cx_bounded, cx_mul, cx_sub, fits, lemma_cx_mul_bound, vals, Complex32, Cx};
use crate::tables::FftTables;
use vstd::arithmetic::power2::{lemma2_to64, lemma_pow2_adds, lemma_pow2_unfold, pow2};
use vstd::prelude::*;

verus! {

/// `3^k`: the worst-case per-stage growth factor of the butterfly
/// combination, used to bound intermediate sample magnitudes.
pub open spec fn pow3(k: nat) -> nat
    decreases k,
{
    if k == 0 {
        1
    } else {
        3 * pow3((k - 1) as nat)
    }
}

/// `3^k` is positive.
pub proof fn lemma_pow3_pos(k: nat)
    ensures
        pow3(k) >= 1,
    decreases k,
{
    if k > 0 {
        lemma_pow3_pos((k - 1) as nat);
    }
}

/// Concrete values of `pow3` for every supported stage count.
pub proof fn lemma_pow3_values()
    ensures
        pow3(0) == 1,
        pow3(1) == 3,
        pow3(2) == 9,
        pow3(3) == 27,
        pow3(4) == 81,
        pow3(5) == 243,
        pow3(6) == 729,
        pow3(7) == 2187,
        pow3(8) == 6561,
        pow3(9) == 19683,
        pow3(10) == 59049,
        pow3(11) == 177147,
        pow3(12) == 531441,
{
    assert(pow3(0) == 1);
    assert(pow3(1) == 3);
    assert(pow3(2) == 9);
    assert(pow3(3) == 27);
    assert(pow3(4) == 81);
    assert(pow3(5) == 243);
    assert(pow3(6) == 729);
    assert(pow3(7) == 2187);
    assert(pow3(8) == 6561);
    assert(pow3(9) == 19683);
    assert(pow3(10) == 59049);
    assert(pow3(11) == 177147);
    assert(pow3(12) == 531441);
}

/// The reorder phase: element `i` of the result is element `rev_bits(i, b)`
/// of `s`, where `s` has length `2^b`.
pub open spec fn reorder_spec(s: Seq<Cx>, b: nat) -> Seq<Cx> {
    Seq::new(s.len(), |i: int| s[rev_bits(i as nat, b) as int])
}

/// The butterfly combination phase on a bit-reversed buffer: the two halves
/// are transformed recursively, then merged pairwise with the twiddle factors
/// `tw[k * stride]`. A buffer of fewer than two samples is returned as is.
pub open spec fn fft_rec_spec(s: Seq<Cx>, tw: Seq<Cx>, stride: nat) -> Seq<Cx>
    decreases s.len(),
{
    if s.len() < 2 {
        s
    } else {
        let m = s.len() as int / 2;
        let lo = fft_rec_spec(s.subrange(0, m), tw, 2 * stride);
        let hi = fft_rec_spec(s.subrange(m, s.len() as int), tw, 2 * stride);
        Seq::new(
            s.len(),
            |i: int|
                if i < m {
                    cx_add(lo[i], cx_mul(tw[i * stride as int], hi[i]))
                } else {
                    cx_sub(lo[i - m], cx_mul(tw[(i - m) * stride as int], hi[i - m]))
                },
        )
    }
}

/// The complete complex transform of a buffer of length `2^log2n`:
/// bit-reversal reorder followed by the butterfly combination, with twiddle
/// stride `2^(12 - log2n)` into the 2048-entry master table.
pub open spec fn cfft_spec(s: Seq<Cx>, tw: Seq<Cx>, log2n: nat) -> Seq<Cx> {
    fft_rec_spec(reorder_spec(s, log2n), tw, pow2((12 - log2n) as nat))
}

/// The butterfly phase keeps its length.
pub proof fn lemma_fft_rec_len(s: Seq<Cx>, tw: Seq<Cx>, stride: nat)
    ensures
        fft_rec_spec(s, tw, stride).len() == s.len(),
    decreases s.len(),
{
}

/// Magnitude growth of the butterfly phase: each of the `k` stages at most
/// triples the largest component magnitude, so a buffer of length `2^k` that
/// fits in `b` is transformed into one that fits in `3^k * b`.
pub proof fn lemma_fft_rec_fits(s: Seq<Cx>, tw: Seq<Cx>, stride: nat, b: int, k: nat)
    requires
        s.len() == pow2(k),
        fits(s, b),
        b >= 0,
        fits(tw, 16384),
        stride >= 1,
        s.len() * stride <= 2 * tw.len(),
    ensures
        fits(fft_rec_spec(s, tw, stride), pow3(k) * b),
    decreases k,
{
    vstd::arithmetic::power2::lemma_pow2_pos(k);
    if k == 0 {
        assert(pow2(0) == 1) by {
            lemma2_to64();
        }
        assert(pow3(0) == 1);
        assert(pow3(k) * b == b) by (nonlinear_arith)
            requires
                pow3(k) == 1,
        ;
    } else {
        lemma_pow2_unfold(k);
        let n = s.len() as int;
        let m = n / 2;
        assert(m == pow2((k - 1) as nat));
        let slo = s.subrange(0, m);
        let shi = s.subrange(m, n);
        assert(fits(slo, b) && fits(shi, b));
        assert(m * (2 * stride) == n * stride) by (nonlinear_arith)
            requires
                n == 2 * m,
        ;
        lemma_fft_rec_fits(slo, tw, 2 * stride, b, (k - 1) as nat);
        lemma_fft_rec_fits(shi, tw, 2 * stride, b, (k - 1) as nat);
        let bh = pow3((k - 1) as nat) * b;
        lemma_pow3_pos((k - 1) as nat);
        assert(bh >= 0) by (nonlinear_arith)
            requires
                b >= 0,
                pow3((k - 1) as nat) >= 1,
                bh == pow3((k - 1) as nat) * b,
        ;
        let lo = fft_rec_spec(slo, tw, 2 * stride);
        let hi = fft_rec_spec(shi, tw, 2 * stride);
        lemma_fft_rec_len(slo, tw, 2 * stride);
        lemma_fft_rec_len(shi, tw, 2 * stride);
        let r = fft_rec_spec(s, tw, stride);
        assert(pow3(k) * b == 3 * bh) by (nonlinear_arith)
            requires
                pow3(k) == 3 * pow3((k - 1) as nat),
                bh == pow3((k - 1) as nat) * b,
        ;
        assert forall|i: int| 0 <= i < r.len() implies cx_bounded(#[trigger] r[i], pow3(k) * b) by {
            let j = if i < m {
                i
            } else {
                i - m
            };
            assert(0 <= j < m);
            let ti = j * stride as int;
            assert(0 <= ti && ti < tw.len()) by (nonlinear_arith)
                requires
                    ti == j * stride as int,
                    0 <= j < m,
                    stride >= 1,
                    m * (2 * stride) == n * stride,
                    n * stride <= 2 * tw.len(),
            ;
            lemma_cx_mul_bound(tw[ti], hi[j], bh);
        }
    }
}

/// In-place bit-reversal reorder of `x` against a bit-reversal table for its
/// size: each index pair `(i, rev_bits(i, b))` is swapped exactly once, at
/// the step where the smaller of the two comes up.
pub(crate) fn bit_reverse_reorder(x: &mut Vec<Complex32>, tbl: &Vec<u16>, Ghost(b): Ghost<nat>)
    requires
        old(x)@.len() == pow2(b),
        tbl@.len() == pow2(b),
        b <= 12,
        forall|i: int| 0 <= i < tbl@.len() ==> (#[trigger] tbl@[i]) as nat == rev_bits(i as nat, b),
    ensures
        final(x)@.len() == old(x)@.len(),
        vals(final(x)@) == reorder_spec(vals(old(x)@), b),
{
    let n = x.len();
    proof {
        assert forall|k: int| 0 <= k < n implies #[trigger] rev_bits(k as nat, b) < pow2(b)
            && rev_bits(rev_bits(k as nat, b), b) == k as nat by {
            lemma_rev_bits_range(k as nat, b);
            lemma_rev_bits_involution(k as nat, b);
        }
    }
    for i in 0..n
        invariant
            x@.len() == n,
            n == pow2(b),
            tbl@.len() == pow2(b),
            forall|t: int|
                0 <= t < tbl@.len() ==> (#[trigger] tbl@[t]) as nat == rev_bits(t as nat, b),
            forall|k: int|
                0 <= k < n ==> #[trigger] rev_bits(k as nat, b) < pow2(b) && rev_bits(
                    rev_bits(k as nat, b),
                    b,
                ) == k as nat,
            forall|k: int|
                0 <= k < n ==> #[trigger] x@[k] == if k < i || rev_bits(k as nat, b) < i as nat {
                    old(x)@[rev_bits(k as nat, b) as int]
                } else {
                    old(x)@[k]
                },
    {
        let j = tbl[i] as usize;
        if j > i {
            let xi = x[i];
            let xj = x[j];
            x[i] = xj;
            x[j] = xi;
            proof {
                assert(rev_bits(j as nat, b) == i as nat);
            }
        } else {
            proof {
                assert(rev_bits(j as nat, b) == i as nat);
                if j == i {
                    assert(x@[i as int] == old(x)@[rev_bits(i as nat, b) as int]);
                }
            }
        }
    }
    proof {
        assert(vals(x@) =~= reorder_spec(vals(old(x)@), b));
    }
}

/// In-place butterfly combination of the window `x[base .. base + n]`:
/// the two half windows are transformed recursively, then merged pairwise
/// with the twiddle factors `tw[j * stride]`. Exactly `fft_rec_spec` on the
/// window; everything outside the window is untouched.
#[verifier::loop_isolation(false)]
#[verifier::rlimit(100)]
pub(crate) fn fft_rec(
    x: &mut Vec<Complex32>,
    base: usize,
    n: usize,
    stride: usize,
    tw: &Vec<Complex32>,
    Ghost(b): Ghost<int>,
    Ghost(k): Ghost<nat>,
)
    requires
        base + n <= old(x)@.len(),
        n == pow2(k),
        tw@.len() == 2048,
        fits(vals(tw@), 16384),
        stride >= 1,
        n >= 2 ==> n * stride == 4096,
        b >= 0,
        fits(vals(old(x)@).subrange(base as int, (base + n) as int), b),
        pow3(k) * b <= 0x7FFF_FFFF,
    ensures
        final(x)@.len() == old(x)@.len(),
        forall|i: int|
            0 <= i < old(x)@.len() && !(base <= i < base + n) ==> #[trigger] final(x)@[i] == old(
                x,
            )@[i],
        vals(final(x)@).subrange(base as int, (base + n) as int) == fft_rec_spec(
            vals(old(x)@).subrange(base as int, (base + n) as int),
            vals(tw@),
            stride as nat,
        ),
    decreases n,
{
    let xlen = x.len();
    proof {
        vstd::arithmetic::power2::lemma_pow2_pos(k);
    }
    if n < 2 {
        proof {
            assert(vals(x@).subrange(base as int, (base + n) as int) =~= fft_rec_spec(
                vals(old(x)@).subrange(base as int, (base + n) as int),
                vals(tw@),
                stride as nat,
            ));
        }
        return ;
    }
    let m = n / 2;
    let ghost win0 = vals(old(x)@).subrange(base as int, (base + n) as int);
    let ghost twv = vals(tw@);
    proof {
        assert(k >= 1) by {
            if k == 0 {
                lemma2_to64();
            }
        }
        lemma_pow2_unfold(k);
        assert(m == pow2((k - 1) as nat));
        assert(stride <= 2048) by (nonlinear_arith)
            requires
                n >= 2,
                stride >= 1,
                n * stride == 4096,
        ;
        assert(m >= 2 ==> m * (2 * stride) == 4096) by (nonlinear_arith)
            requires
                n == 2 * m,
                n * stride == 4096,
        ;
        assert(pow3((k - 1) as nat) * b <= 0x7FFF_FFFF) by (nonlinear_arith)
            requires
                pow3(k) == 3 * pow3((k - 1) as nat),
                pow3(k) * b <= 0x7FFF_FFFF,
                b >= 0,
        ;
        assert(fits(win0.subrange(0, m as int), b));
        assert(win0.subrange(0, m as int) =~= vals(old(x)@).subrange(
            base as int,
            (base + m) as int,
        ));
        assert(fits(vals(old(x)@).subrange(base as int, (base + m) as int), b));
    }
    fft_rec(x, base, m, stride * 2, tw, Ghost(b), Ghost((k - 1) as nat));
    let ghost x1 = x@;
    let ghost aspec = fft_rec_spec(win0.subrange(0, m as int), twv, (2 * stride) as nat);
    proof {
        assert(vals(x1).subrange(base as int, (base + m) as int) == aspec);
        assert(vals(x1).subrange((base + m) as int, (base + n) as int) =~= vals(
            old(x)@,
        ).subrange((base + m) as int, (base + n) as int));
        assert(win0.subrange(m as int, n as int) =~= vals(x1).subrange(
            (base + m) as int,
            (base + n) as int,
        ));
        assert(fits(vals(x1).subrange((base + m) as int, (base + n) as int), b));
    }
    fft_rec(x, base + m, m, stride * 2, tw, Ghost(b), Ghost((k - 1) as nat));
    let ghost x2 = x@;
    let ghost bspec = fft_rec_spec(win0.subrange(m as int, n as int), twv, (2 * stride) as nat);
    let ghost bh = pow3((k - 1) as nat) * b;
    proof {
        lemma_fft_rec_len(win0.subrange(0, m as int), twv, (2 * stride) as nat);
        lemma_fft_rec_len(win0.subrange(m as int, n as int), twv, (2 * stride) as nat);
        assert(vals(x2).subrange((base + m) as int, (base + n) as int) == bspec);
        // the first half is untouched by the second recursive call
        assert(vals(x2).subrange(base as int, (base + m) as int) =~= vals(x1).subrange(
            base as int,
            (base + m) as int,
        ));
        assert(m * (2 * stride) <= 2 * twv.len()) by (nonlinear_arith)
            requires
                n == 2 * m,
                n * stride == 4096,
                twv.len() == 2048,
        ;
        lemma_fft_rec_fits(win0.subrange(0, m as int), twv, (2 * stride) as nat, b, (k - 1) as nat);
        lemma_fft_rec_fits(win0.subrange(m as int, n as int), twv, (2 * stride) as nat, b, (k - 1) as nat);
        lemma_pow3_pos((k - 1) as nat);
        assert(bh >= 0 && 3 * bh == pow3(k) * b) by (nonlinear_arith)
            requires
                pow3(k) == 3 * pow3((k - 1) as nat),
                bh == pow3((k - 1) as nat) * b,
                b >= 0,
                pow3((k - 1) as nat) >= 1,
        ;
        assert(m * stride == 2048) by (nonlinear_arith)
            requires
                n == 2 * m,
                n * stride == 4096,
        ;
    }
    for j in 0..m
        invariant
            x@.len() == old(x)@.len(),
            base + n <= x@.len(),
            n == 2 * m,
            m * stride == 2048,
            tw@.len() == 2048,
            twv == vals(tw@),
            fits(twv, 16384),
            aspec.len() == m,
            bspec.len() == m,
            fits(aspec, bh),
            fits(bspec, bh),
            0 <= bh,
            3 * bh <= 0x7FFF_FFFF,
            forall|i: int|
                0 <= i < x@.len() && !(base <= i < base + n) ==> #[trigger] x@[i] == old(x)@[i],
            forall|i: int|
                base <= i < base + m ==> (#[trigger] x@[i])@ == (if i - base < j {
                    cx_add(
                        aspec[i - base],
                        cx_mul(twv[(i - base) * stride as int], bspec[i - base]),
                    )
                } else {
                    aspec[i - base]
                }),
            forall|i: int|
                base + m <= i < base + n ==> (#[trigger] x@[i])@ == (if i - base - m < j {
                    cx_sub(
                        aspec[i - base - m],
                        cx_mul(twv[(i - base - m) * stride as int], bspec[i - base - m]),
                    )
                } else {
                    bspec[i - base - m]
                }),
    {
        proof {
            assert(j * stride < 2048 && (j * stride) * 1 <= j * stride) by (nonlinear_arith)
                requires
                    0 <= j < m,
                    m * stride == 2048,
                    stride >= 1,
            ;
        }
        let f = x[base + j];
        let s = x[base + m + j];
        let t = tw[j * stride];
        proof {
            assert(f@ == aspec[j as int]);
            assert(s@ == bspec[j as int]);
            assert(t@ == twv[(j * stride) as int]);
            assert(cx_bounded(aspec[j as int], bh));
            assert(cx_bounded(bspec[j as int], bh));
            assert(cx_bounded(twv[(j * stride) as int], 16384));
            lemma_cx_mul_bound(t@, s@, bh);
        }
        let p = crate::cx::mul(t, s);
        let lo = crate::cx::add(f, p);
        let hi = crate::cx::sub(f, p);
        x[base + j] = lo;
        x[base + m + j] = hi;
    }
    proof {
        let winf = vals(x@).subrange(base as int, (base + n) as int);
        let target = fft_rec_spec(win0, twv, stride as nat);
        assert(win0.len() == n);
        assert(target == Seq::new(
            win0.len(),
            |i: int|
                if i < m {
                    cx_add(aspec[i], cx_mul(twv[i * stride as int], bspec[i]))
                } else {
                    cx_sub(aspec[i - m], cx_mul(twv[(i - m) * stride as int], bspec[i - m]))
                },
        ));
        assert(winf =~= target);
    }
}

/// A supported transform size: a power of two between 2 and 4096.
pub open spec fn supported_len(n: nat) -> bool {
    ||| n == 2
    ||| n == 4
    ||| n == 8
    ||| n == 16
    ||| n == 32
    ||| n == 64
    ||| n == 128
    ||| n == 256
    ||| n == 512
    ||| n == 1024
    ||| n == 2048
    ||| n == 4096
}

/// `log2` of a supported size.
pub open spec fn log2_of(n: nat) -> nat {
    if n == 2 {
        1
    } else if n == 4 {
        2
    } else if n == 8 {
        3
    } else if n == 16 {
        4
    } else if n == 32 {
        5
    } else if n == 64 {
        6
    } else if n == 128 {
        7
    } else if n == 256 {
        8
    } else if n == 512 {
        9
    } else if n == 1024 {
        10
    } else if n == 2048 {
        11
    } else {
        12
    }
}

/// The largest input component magnitude for which every intermediate value
/// of a transform of size `n` provably fits in 32 bits: `3^log2(n)` times the
/// limit stays below `i32::MAX`.
pub open spec fn spec_sample_limit(n: nat) -> int {
    if n == 2 {
        715000000
    } else if n == 4 {
        238000000
    } else if n == 8 {
        79000000
    } else if n == 16 {
        26000000
    } else if n == 32 {
        8800000
    } else if n == 64 {
        2900000
    } else if n == 128 {
        980000
    } else if n == 256 {
        327000
    } else if n == 512 {
        109000
    } else if n == 1024 {
        36000
    } else if n == 2048 {
        12000
    } else if n == 4096 {
        4000
    } else {
        0
    }
}

/// The complete in-place complex transform of `x`, a buffer of length
/// `2^log2n`: bit-reversal reorder, then the butterfly combination.
#[verifier::loop_isolation(false)]
pub(crate) fn cfft_engine(
    t: &FftTables,
    x: &mut Vec<Complex32>,
    log2n: usize,
    Ghost(b): Ghost<int>,
)
    requires
        t.wf(),
        1 <= log2n <= 12,
        old(x)@.len() == pow2(log2n as nat),
        b >= 0,
        fits(vals(old(x)@), b),
        pow3(log2n as nat) * b <= 0x7FFF_FFFF,
    ensures
        final(x)@.len() == old(x)@.len(),
        vals(final(x)@) == cfft_spec(vals(old(x)@), t.tw(), log2n as nat),
        fits(vals(final(x)@), pow3(log2n as nat) * b),
{
    let tbl = t.bitrev_table(log2n);
    bit_reverse_reorder(x, tbl, Ghost(log2n as nat));
    let ghost reordered = vals(x@);
    proof {
        assert forall|i: int| 0 <= i < reordered.len() implies cx_bounded(
            #[trigger] reordered[i],
            b,
        ) by {
            lemma_rev_bits_range(i as nat, log2n as nat);
            assert(reordered[i] == vals(old(x)@)[rev_bits(i as nat, log2n as nat) as int]);
        }
        assert(fits(reordered, b));
    }
    let stride = crate::tables::pow2_exec(12 - log2n);
    let n = x.len();
    proof {
        vstd::arithmetic::power2::lemma_pow2_pos((12 - log2n) as nat);
        lemma_pow2_adds(log2n as nat, (12 - log2n) as nat);
        assert(pow2(12) == 4096) by {
            lemma2_to64();
        }
        assert(n * stride == 4096);
        assert(vals(x@).subrange(0, n as int) =~= vals(x@));
        assert(fits(vals(x@).subrange(0, n as int), b));
    }
    fft_rec(x, 0, n, stride, &t.twiddle, Ghost(b), Ghost(log2n as nat));
    proof {
        assert(vals(x@).subrange(0, n as int) =~= vals(x@));
        assert(vals(x@) == fft_rec_spec(reordered, vals(t.twiddle@), stride as nat));
        assert(reordered == reorder_spec(vals(old(x)@), log2n as nat));
        lemma_fft_rec_fits(reordered, vals(t.twiddle@), stride as nat, b, log2n as nat);
    }
}

} // verus!
