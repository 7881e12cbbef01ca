//! Bit-reversal permutation arithmetic: the index map that the reorder phase
//! of a decimation-in-time FFT applies, and its involution property.

use vstd::arithmetic::power2::{lemma_pow2_pos, lemma_pow2_unfold, pow2};
use vstd::prelude::*;

verus! {

/// The `b`-bit reversal of `i`: the low `b` bits of `i`, reversed.
pub open spec fn rev_bits(i: nat, b: nat) -> nat
    decreases b,
{
    if b == 0 {
        0
    } else {
        (i % 2) * pow2((b - 1) as nat) + rev_bits(i / 2, (b - 1) as nat)
    }
}

/// A `b`-bit reversal is a `b`-bit value.
pub proof fn lemma_rev_bits_range(i: nat, b: nat)
    ensures
        rev_bits(i, b) < pow2(b),
    decreases b,
{
    lemma_pow2_pos(b);
    if b > 0 {
        lemma_rev_bits_range(i / 2, (b - 1) as nat);
        lemma_pow2_unfold(b);
        let p = pow2((b - 1) as nat);
        assert((i % 2) * p <= 1 * p) by {
            vstd::arithmetic::mul::lemma_mul_inequality((i % 2) as int, 1, p as int);
        }
    }
}

/// Reversing `b + 1` bits of a value whose top bit is `t` and whose low `b`
/// bits form `y` moves `t` to the bottom: the result is `2 * rev_bits(y, b) + t`.
pub proof fn lemma_rev_bits_top(t: nat, y: nat, b: nat)
    requires
        t <= 1,
        y < pow2(b),
    ensures
        rev_bits(t * pow2(b) + y, (b + 1) as nat) == 2 * rev_bits(y, b) + t,
    decreases b,
{
    if b == 0 {
        assert(pow2(0) == 1) by {
            vstd::arithmetic::power2::lemma2_to64();
        }
        assert(y == 0);
        assert(rev_bits(t, 1) == (t % 2) * pow2(0) + rev_bits(t / 2, 0));
        assert(t % 2 == t && t / 2 == 0);
    } else {
        let x = t * pow2(b) + y;
        lemma_pow2_unfold(b);
        let p = pow2((b - 1) as nat);
        assert(t * pow2(b) == 2 * (t * p)) by (nonlinear_arith)
            requires
                pow2(b) == 2 * p,
        ;
        assert(x == (t * p + y / 2) * 2 + (y % 2)) by {
            assert((t * p + y / 2) * 2 == 2 * (t * p) + 2 * (y / 2)) by (nonlinear_arith);
        }
        assert(x / 2 == t * p + y / 2 && x % 2 == y % 2) by {
            vstd::arithmetic::div_mod::lemma_fundamental_div_mod_converse_div(
                x as int,
                2,
                (t * p + y / 2) as int,
                (y % 2) as int,
            );
            vstd::arithmetic::div_mod::lemma_fundamental_div_mod_converse_mod(
                x as int,
                2,
                (t * p + y / 2) as int,
                (y % 2) as int,
            );
        }
        lemma_rev_bits_top(t, y / 2, (b - 1) as nat);
        assert(rev_bits(x, (b + 1) as nat) == (y % 2) * pow2(b) + rev_bits(
            t * p + y / 2,
            b,
        ));
        assert((y % 2) * pow2(b) == 2 * ((y % 2) * p)) by (nonlinear_arith)
            requires
                pow2(b) == 2 * p,
        ;
        assert(rev_bits(y, b) == (y % 2) * p + rev_bits(y / 2, (b - 1) as nat));
    }
}

/// Bit reversal is an involution: reversing a `b`-bit value twice gives the
/// value back.
pub proof fn lemma_rev_bits_involution(i: nat, b: nat)
    requires
        i < pow2(b),
    ensures
        rev_bits(rev_bits(i, b), b) == i,
    decreases b,
{
    if b == 0 {
        assert(pow2(0) == 1) by {
            vstd::arithmetic::power2::lemma2_to64();
        }
    } else {
        lemma_pow2_unfold(b);
        let t = i % 2;
        let r = rev_bits(i / 2, (b - 1) as nat);
        lemma_rev_bits_range(i / 2, (b - 1) as nat);
        assert(rev_bits(i, b) == t * pow2((b - 1) as nat) + r);
        lemma_rev_bits_top(t, r, (b - 1) as nat);
        lemma_rev_bits_involution(i / 2, (b - 1) as nat);
    }
}

/// Compute the `b`-bit reversal of `i`.
pub(crate) fn rev_index(i: usize, b: usize) -> (r: usize)
    requires
        b <= 16,
        i < pow2(b as nat),
    ensures
        r == rev_bits(i as nat, b as nat),
        r < pow2(b as nat),
{
    let mut v = i;
    let mut r: usize = 0;
    proof {
        lemma_rev_bits_range(i as nat, b as nat);
        vstd::arithmetic::power2::lemma2_to64();
    }
    for j in 0..b
        invariant
            r < pow2(j as nat),
            j <= b <= 16,
            rev_bits(i as nat, b as nat) == r * pow2((b - j) as nat) + rev_bits(
                v as nat,
                (b - j) as nat,
            ),
            rev_bits(i as nat, b as nat) < pow2(b as nat),
    {
        proof {
            lemma_pow2_unfold((b - j) as nat);
            lemma_pow2_unfold((j + 1) as nat);
            let p = pow2((b - j - 1) as nat);
            assert((2 * r + v as nat % 2) * p == r * (2 * p) + (v as nat % 2) * p)
                by (nonlinear_arith);
            assert(rev_bits(v as nat, (b - j) as nat) == (v as nat % 2) * p + rev_bits(
                v as nat / 2,
                (b - j - 1) as nat,
            ));
            assert(r * 2 + 1 < pow2((j + 1) as nat));
            assert(pow2((j + 1) as nat) <= pow2(16)) by {
                if j + 1 < 16 {
                    vstd::arithmetic::power2::lemma_pow2_strictly_increases(
                        (j + 1) as nat,
                        16,
                    );
                }
            }
            assert(pow2(16) == 0x10000) by {
                vstd::arithmetic::power2::lemma2_to64();
            }
        }
        r = r * 2 + (v % 2);
        v = v / 2;
    }
    proof {
        vstd::arithmetic::power2::lemma2_to64();
    }
    r
}

} // verus!
