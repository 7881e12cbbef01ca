//! FFT entry points for complex input buffers, one per supported size, and a
//! validating dispatcher over all of them.

use crate::cfft::{cfft_engine, cfft_spec, log2_of, spec_sample_limit, supported_len};
use crate::cx::{cx_bounded, fits, vals, Complex32};
use crate::tables::FftTables;
use vstd::arithmetic::power2::lemma2_to64;
use vstd::prelude::*;

verus! {

/// Why a transform request was rejected before touching the buffer.
#[derive(Clone, Copy, Debug, PartialEq, Eq, Structural)]
pub enum FftError {
    /// The buffer length is not a supported power of two.
    UnsupportedLength,
    /// A sample component exceeds the magnitude limit for this size, so
    /// intermediate values could not be guaranteed to fit in 32 bits.
    SampleOutOfRange,
}

/// Check that every sample component of `x` has magnitude at most `limit`.
fn check_samples(x: &Vec<Complex32>, limit: i32) -> (ok: bool)
    requires
        limit >= 0,
    ensures
        ok <==> fits(vals(x@), limit as int),
{
    let n = x.len();
    let neg = -limit;
    for i in 0..n
        invariant
            n == x@.len(),
            neg == -limit,
            limit >= 0,
            forall|j: int| 0 <= j < i ==> cx_bounded(#[trigger] vals(x@)[j], limit as int),
    {
        let c = x[i];
        if c.re > limit || c.re < neg || c.im > limit || c.im < neg {
            proof {
                assert(vals(x@)[i as int] == c@);
                assert(!cx_bounded(vals(x@)[i as int], limit as int));
            }
            return false;
        }
        proof {
            assert(vals(x@)[i as int] == c@);
        }
    }
    true
}

/// In-place complex FFT of any supported size: checks the buffer length and
/// the per-size sample magnitude limit, and only then transforms. A rejected
/// buffer is returned unchanged, with the reason.
pub fn cfft(t: &FftTables, x: &mut Vec<Complex32>) -> (r: Result<(), FftError>)
    requires
        t.wf(),
    ensures
        r is Ok <==> supported_len(old(x)@.len()) && fits(
            vals(old(x)@),
            spec_sample_limit(old(x)@.len()),
        ),
        r is Ok ==> final(x)@.len() == old(x)@.len() && vals(final(x)@) == cfft_spec(
            vals(old(x)@),
            t.tw(),
            log2_of(old(x)@.len()),
        ),
        r is Err ==> final(x)@ == old(x)@,
        r == Err::<(), FftError>(FftError::UnsupportedLength) <==> !supported_len(
            old(x)@.len(),
        ),
        r == Err::<(), FftError>(FftError::SampleOutOfRange) <==> supported_len(old(x)@.len())
            && !fits(vals(old(x)@), spec_sample_limit(old(x)@.len())),
{
    let n = x.len();
    let (log2n, limit): (usize, i32) = match n {
        2 => (1, 715000000),
        4 => (2, 238000000),
        8 => (3, 79000000),
        16 => (4, 26000000),
        32 => (5, 8800000),
        64 => (6, 2900000),
        128 => (7, 980000),
        256 => (8, 327000),
        512 => (9, 109000),
        1024 => (10, 36000),
        2048 => (11, 12000),
        4096 => (12, 4000),
        _ => {
            return Err(FftError::UnsupportedLength);
        },
    };
    if !check_samples(x, limit) {
        return Err(FftError::SampleOutOfRange);
    }
    proof {
        lemma2_to64();
        crate::cfft::lemma_pow3_values();
    }
    cfft_engine(t, x, log2n, Ghost(limit as int));
    Ok(())
}

/// Perform an in-place 2-point complex FFT.
///
/// The buffer must hold exactly 2 samples, each component at most
/// 715000000 in magnitude; the output is exactly the engine's model
/// `cfft_spec` of the input, and its components stay within 2145000000.
pub fn cfft_2(t: &FftTables, x: &mut Vec<Complex32>)
    requires
        t.wf(),
        old(x)@.len() == 2,
        fits(vals(old(x)@), 715000000),
    ensures
        final(x)@.len() == 2,
        vals(final(x)@) == cfft_spec(vals(old(x)@), t.tw(), 1),
        fits(vals(final(x)@), 2145000000),
{
    proof {
        lemma2_to64();
        crate::cfft::lemma_pow3_values();
    }
    cfft_engine(t, x, 1, Ghost(715000000));
}

/// Perform an in-place 4-point complex FFT.
///
/// The buffer must hold exactly 4 samples, each component at most
/// 238000000 in magnitude; the output is exactly the engine's model
/// `cfft_spec` of the input, and its components stay within 2142000000.
pub fn cfft_4(t: &FftTables, x: &mut Vec<Complex32>)
    requires
        t.wf(),
        old(x)@.len() == 4,
        fits(vals(old(x)@), 238000000),
    ensures
        final(x)@.len() == 4,
        vals(final(x)@) == cfft_spec(vals(old(x)@), t.tw(), 2),
        fits(vals(final(x)@), 2142000000),
{
    proof {
        lemma2_to64();
        crate::cfft::lemma_pow3_values();
    }
    cfft_engine(t, x, 2, Ghost(238000000));
}

/// Perform an in-place 8-point complex FFT.
///
/// The buffer must hold exactly 8 samples, each component at most
/// 79000000 in magnitude; the output is exactly the engine's model
/// `cfft_spec` of the input, and its components stay within 2133000000.
pub fn cfft_8(t: &FftTables, x: &mut Vec<Complex32>)
    requires
        t.wf(),
        old(x)@.len() == 8,
        fits(vals(old(x)@), 79000000),
    ensures
        final(x)@.len() == 8,
        vals(final(x)@) == cfft_spec(vals(old(x)@), t.tw(), 3),
        fits(vals(final(x)@), 2133000000),
{
    proof {
        lemma2_to64();
        crate::cfft::lemma_pow3_values();
    }
    cfft_engine(t, x, 3, Ghost(79000000));
}

/// Perform an in-place 16-point complex FFT.
///
/// The buffer must hold exactly 16 samples, each component at most
/// 26000000 in magnitude; the output is exactly the engine's model
/// `cfft_spec` of the input, and its components stay within 2106000000.
pub fn cfft_16(t: &FftTables, x: &mut Vec<Complex32>)
    requires
        t.wf(),
        old(x)@.len() == 16,
        fits(vals(old(x)@), 26000000),
    ensures
        final(x)@.len() == 16,
        vals(final(x)@) == cfft_spec(vals(old(x)@), t.tw(), 4),
        fits(vals(final(x)@), 2106000000),
{
    proof {
        lemma2_to64();
        crate::cfft::lemma_pow3_values();
    }
    cfft_engine(t, x, 4, Ghost(26000000));
}

/// Perform an in-place 32-point complex FFT.
///
/// The buffer must hold exactly 32 samples, each component at most
/// 8800000 in magnitude; the output is exactly the engine's model
/// `cfft_spec` of the input, and its components stay within 2138400000.
pub fn cfft_32(t: &FftTables, x: &mut Vec<Complex32>)
    requires
        t.wf(),
        old(x)@.len() == 32,
        fits(vals(old(x)@), 8800000),
    ensures
        final(x)@.len() == 32,
        vals(final(x)@) == cfft_spec(vals(old(x)@), t.tw(), 5),
        fits(vals(final(x)@), 2138400000),
{
    proof {
        lemma2_to64();
        crate::cfft::lemma_pow3_values();
    }
    cfft_engine(t, x, 5, Ghost(8800000));
}

/// Perform an in-place 64-point complex FFT.
///
/// The buffer must hold exactly 64 samples, each component at most
/// 2900000 in magnitude; the output is exactly the engine's model
/// `cfft_spec` of the input, and its components stay within 2114100000.
pub fn cfft_64(t: &FftTables, x: &mut Vec<Complex32>)
    requires
        t.wf(),
        old(x)@.len() == 64,
        fits(vals(old(x)@), 2900000),
    ensures
        final(x)@.len() == 64,
        vals(final(x)@) == cfft_spec(vals(old(x)@), t.tw(), 6),
        fits(vals(final(x)@), 2114100000),
{
    proof {
        lemma2_to64();
        crate::cfft::lemma_pow3_values();
    }
    cfft_engine(t, x, 6, Ghost(2900000));
}

/// Perform an in-place 128-point complex FFT.
///
/// The buffer must hold exactly 128 samples, each component at most
/// 980000 in magnitude; the output is exactly the engine's model
/// `cfft_spec` of the input, and its components stay within 2143260000.
pub fn cfft_128(t: &FftTables, x: &mut Vec<Complex32>)
    requires
        t.wf(),
        old(x)@.len() == 128,
        fits(vals(old(x)@), 980000),
    ensures
        final(x)@.len() == 128,
        vals(final(x)@) == cfft_spec(vals(old(x)@), t.tw(), 7),
        fits(vals(final(x)@), 2143260000),
{
    proof {
        lemma2_to64();
        crate::cfft::lemma_pow3_values();
    }
    cfft_engine(t, x, 7, Ghost(980000));
}

/// Perform an in-place 256-point complex FFT.
///
/// The buffer must hold exactly 256 samples, each component at most
/// 327000 in magnitude; the output is exactly the engine's model
/// `cfft_spec` of the input, and its components stay within 2145447000.
pub fn cfft_256(t: &FftTables, x: &mut Vec<Complex32>)
    requires
        t.wf(),
        old(x)@.len() == 256,
        fits(vals(old(x)@), 327000),
    ensures
        final(x)@.len() == 256,
        vals(final(x)@) == cfft_spec(vals(old(x)@), t.tw(), 8),
        fits(vals(final(x)@), 2145447000),
{
    proof {
        lemma2_to64();
        crate::cfft::lemma_pow3_values();
    }
    cfft_engine(t, x, 8, Ghost(327000));
}

/// Perform an in-place 512-point complex FFT.
///
/// The buffer must hold exactly 512 samples, each component at most
/// 109000 in magnitude; the output is exactly the engine's model
/// `cfft_spec` of the input, and its components stay within 2145447000.
pub fn cfft_512(t: &FftTables, x: &mut Vec<Complex32>)
    requires
        t.wf(),
        old(x)@.len() == 512,
        fits(vals(old(x)@), 109000),
    ensures
        final(x)@.len() == 512,
        vals(final(x)@) == cfft_spec(vals(old(x)@), t.tw(), 9),
        fits(vals(final(x)@), 2145447000),
{
    proof {
        lemma2_to64();
        crate::cfft::lemma_pow3_values();
    }
    cfft_engine(t, x, 9, Ghost(109000));
}

/// Perform an in-place 1024-point complex FFT.
///
/// The buffer must hold exactly 1024 samples, each component at most
/// 36000 in magnitude; the output is exactly the engine's model
/// `cfft_spec` of the input, and its components stay within 2125764000.
pub fn cfft_1024(t: &FftTables, x: &mut Vec<Complex32>)
    requires
        t.wf(),
        old(x)@.len() == 1024,
        fits(vals(old(x)@), 36000),
    ensures
        final(x)@.len() == 1024,
        vals(final(x)@) == cfft_spec(vals(old(x)@), t.tw(), 10),
        fits(vals(final(x)@), 2125764000),
{
    proof {
        lemma2_to64();
        crate::cfft::lemma_pow3_values();
    }
    cfft_engine(t, x, 10, Ghost(36000));
}

/// Perform an in-place 2048-point complex FFT.
///
/// The buffer must hold exactly 2048 samples, each component at most
/// 12000 in magnitude; the output is exactly the engine's model
/// `cfft_spec` of the input, and its components stay within 2125764000.
pub fn cfft_2048(t: &FftTables, x: &mut Vec<Complex32>)
    requires
        t.wf(),
        old(x)@.len() == 2048,
        fits(vals(old(x)@), 12000),
    ensures
        final(x)@.len() == 2048,
        vals(final(x)@) == cfft_spec(vals(old(x)@), t.tw(), 11),
        fits(vals(final(x)@), 2125764000),
{
    proof {
        lemma2_to64();
        crate::cfft::lemma_pow3_values();
    }
    cfft_engine(t, x, 11, Ghost(12000));
}

/// Perform an in-place 4096-point complex FFT.
///
/// The buffer must hold exactly 4096 samples, each component at most
/// 4000 in magnitude; the output is exactly the engine's model
/// `cfft_spec` of the input, and its components stay within 2125764000.
pub fn cfft_4096(t: &FftTables, x: &mut Vec<Complex32>)
    requires
        t.wf(),
        old(x)@.len() == 4096,
        fits(vals(old(x)@), 4000),
    ensures
        final(x)@.len() == 4096,
        vals(final(x)@) == cfft_spec(vals(old(x)@), t.tw(), 12),
        fits(vals(final(x)@), 2125764000),
{
    proof {
        lemma2_to64();
        crate::cfft::lemma_pow3_values();
    }
    cfft_engine(t, x, 12, Ghost(4000));
}

} // verus!
