//! FFT entry points for real input buffers, one per supported size, and a
//! validating dispatcher over all of them.
//!
//! An `n`-point real FFT returns the `n/2` non-redundant spectrum bins (DC
//! through just below Nyquist); the conjugate-symmetric upper half is never
//! materialized.

use crate::cfft::{log2_of, spec_sample_limit, supported_len};
use crate::complex::FftError;
use crate::cx::{fits, vals, Complex32};
use crate::rfft::{rfft_engine, rfft_spec, rfits, rvals};
use crate::tables::FftTables;
use vstd::arithmetic::power2::lemma2_to64;
use vstd::prelude::*;

verus! {

/// Check that every real sample of `x` has magnitude at most `limit`.
fn check_real_samples(x: &Vec<i32>, limit: i32) -> (ok: bool)
    requires
        limit >= 0,
    ensures
        ok <==> rfits(rvals(x@), limit as int),
{
    let n = x.len();
    let neg = -limit;
    for i in 0..n
        invariant
            n == x@.len(),
            neg == -limit,
            limit >= 0,
            forall|j: int| 0 <= j < i ==> -limit <= #[trigger] rvals(x@)[j] <= limit,
    {
        let v = x[i];
        if v > limit || v < neg {
            proof {
                assert(rvals(x@)[i as int] == v as int);
            }
            return false;
        }
        proof {
            assert(rvals(x@)[i as int] == v as int);
        }
    }
    true
}

/// Real-input FFT of any supported size: checks the buffer length and the
/// per-size sample magnitude limit, and only then transforms, returning the
/// `n/2` non-redundant spectrum bins. A rejected buffer yields the reason.
pub fn rfft(t: &FftTables, x: &Vec<i32>) -> (r: Result<Vec<Complex32>, FftError>)
    requires
        t.wf(),
    ensures
        r is Ok <==> supported_len(x@.len()) && rfits(rvals(x@), spec_sample_limit(x@.len())),
        r is Ok ==> (r->Ok_0)@.len() == x@.len() / 2 && vals((r->Ok_0)@) == rfft_spec(
            rvals(x@),
            t.tw(),
            log2_of(x@.len()),
        ),
        r == Err::<Vec<Complex32>, FftError>(FftError::UnsupportedLength) <==> !supported_len(
            x@.len(),
        ),
        r == Err::<Vec<Complex32>, FftError>(FftError::SampleOutOfRange) <==> supported_len(
            x@.len(),
        ) && !rfits(rvals(x@), spec_sample_limit(x@.len())),
{
    let n = x.len();
    let (log2n, limit): (usize, i32) = match n {
        2 => (1, 715000000),
        4 => (2, 238000000),
        8 => (3, 79000000),
        16 => (4, 26000000),
        32 => (5, 8800000),
        64 => (6, 2900000),
        128 => (7, 980000),
        256 => (8, 327000),
        512 => (9, 109000),
        1024 => (10, 36000),
        2048 => (11, 12000),
        4096 => (12, 4000),
        _ => {
            return Err(FftError::UnsupportedLength);
        },
    };
    if !check_real_samples(x, limit) {
        return Err(FftError::SampleOutOfRange);
    }
    proof {
        lemma2_to64();
        crate::cfft::lemma_pow3_values();
    }
    let out = rfft_engine(t, x, log2n, Ghost(limit as int));
    Ok(out)
}

/// Perform a 2-point real FFT, returning the 1 non-redundant bins.
///
/// The buffer must hold exactly 2 samples, each at most 715000000 in
/// magnitude; the output is exactly the engine's model `rfft_spec` of the
/// input, and its components stay within 2145000000.
pub fn rfft_2(t: &FftTables, x: &Vec<i32>) -> (out: Vec<Complex32>)
    requires
        t.wf(),
        x@.len() == 2,
        rfits(rvals(x@), 715000000),
    ensures
        out@.len() == 1,
        vals(out@) == rfft_spec(rvals(x@), t.tw(), 1),
        fits(vals(out@), 2145000000),
{
    proof {
        lemma2_to64();
        crate::cfft::lemma_pow3_values();
    }
    rfft_engine(t, x, 1, Ghost(715000000))
}

/// Perform a 4-point real FFT, returning the 2 non-redundant bins.
///
/// The buffer must hold exactly 4 samples, each at most 238000000 in
/// magnitude; the output is exactly the engine's model `rfft_spec` of the
/// input, and its components stay within 2142000000.
pub fn rfft_4(t: &FftTables, x: &Vec<i32>) -> (out: Vec<Complex32>)
    requires
        t.wf(),
        x@.len() == 4,
        rfits(rvals(x@), 238000000),
    ensures
        out@.len() == 2,
        vals(out@) == rfft_spec(rvals(x@), t.tw(), 2),
        fits(vals(out@), 2142000000),
{
    proof {
        lemma2_to64();
        crate::cfft::lemma_pow3_values();
    }
    rfft_engine(t, x, 2, Ghost(238000000))
}

/// Perform a 8-point real FFT, returning the 4 non-redundant bins.
///
/// The buffer must hold exactly 8 samples, each at most 79000000 in
/// magnitude; the output is exactly the engine's model `rfft_spec` of the
/// input, and its components stay within 2133000000.
pub fn rfft_8(t: &FftTables, x: &Vec<i32>) -> (out: Vec<Complex32>)
    requires
        t.wf(),
        x@.len() == 8,
        rfits(rvals(x@), 79000000),
    ensures
        out@.len() == 4,
        vals(out@) == rfft_spec(rvals(x@), t.tw(), 3),
        fits(vals(out@), 2133000000),
{
    proof {
        lemma2_to64();
        crate::cfft::lemma_pow3_values();
    }
    rfft_engine(t, x, 3, Ghost(79000000))
}

/// Perform a 16-point real FFT, returning the 8 non-redundant bins.
///
/// The buffer must hold exactly 16 samples, each at most 26000000 in
/// magnitude; the output is exactly the engine's model `rfft_spec` of the
/// input, and its components stay within 2106000000.
pub fn rfft_16(t: &FftTables, x: &Vec<i32>) -> (out: Vec<Complex32>)
    requires
        t.wf(),
        x@.len() == 16,
        rfits(rvals(x@), 26000000),
    ensures
        out@.len() == 8,
        vals(out@) == rfft_spec(rvals(x@), t.tw(), 4),
        fits(vals(out@), 2106000000),
{
    proof {
        lemma2_to64();
        crate::cfft::lemma_pow3_values();
    }
    rfft_engine(t, x, 4, Ghost(26000000))
}

/// Perform a 32-point real FFT, returning the 16 non-redundant bins.
///
/// The buffer must hold exactly 32 samples, each at most 8800000 in
/// magnitude; the output is exactly the engine's model `rfft_spec` of the
/// input, and its components stay within 2138400000.
pub fn rfft_32(t: &FftTables, x: &Vec<i32>) -> (out: Vec<Complex32>)
    requires
        t.wf(),
        x@.len() == 32,
        rfits(rvals(x@), 8800000),
    ensures
        out@.len() == 16,
        vals(out@) == rfft_spec(rvals(x@), t.tw(), 5),
        fits(vals(out@), 2138400000),
{
    proof {
        lemma2_to64();
        crate::cfft::lemma_pow3_values();
    }
    rfft_engine(t, x, 5, Ghost(8800000))
}

/// Perform a 64-point real FFT, returning the 32 non-redundant bins.
///
/// The buffer must hold exactly 64 samples, each at most 2900000 in
/// magnitude; the output is exactly the engine's model `rfft_spec` of the
/// input, and its components stay within 2114100000.
pub fn rfft_64(t: &FftTables, x: &Vec<i32>) -> (out: Vec<Complex32>)
    requires
        t.wf(),
        x@.len() == 64,
        rfits(rvals(x@), 2900000),
    ensures
        out@.len() == 32,
        vals(out@) == rfft_spec(rvals(x@), t.tw(), 6),
        fits(vals(out@), 2114100000),
{
    proof {
        lemma2_to64();
        crate::cfft::lemma_pow3_values();
    }
    rfft_engine(t, x, 6, Ghost(2900000))
}

/// Perform a 128-point real FFT, returning the 64 non-redundant bins.
///
/// The buffer must hold exactly 128 samples, each at most 980000 in
/// magnitude; the output is exactly the engine's model `rfft_spec` of the
/// input, and its components stay within 2143260000.
pub fn rfft_128(t: &FftTables, x: &Vec<i32>) -> (out: Vec<Complex32>)
    requires
        t.wf(),
        x@.len() == 128,
        rfits(rvals(x@), 980000),
    ensures
        out@.len() == 64,
        vals(out@) == rfft_spec(rvals(x@), t.tw(), 7),
        fits(vals(out@), 2143260000),
{
    proof {
        lemma2_to64();
        crate::cfft::lemma_pow3_values();
    }
    rfft_engine(t, x, 7, Ghost(980000))
}

/// Perform a 256-point real FFT, returning the 128 non-redundant bins.
///
/// The buffer must hold exactly 256 samples, each at most 327000 in
/// magnitude; the output is exactly the engine's model `rfft_spec` of the
/// input, and its components stay within 2145447000.
pub fn rfft_256(t: &FftTables, x: &Vec<i32>) -> (out: Vec<Complex32>)
    requires
        t.wf(),
        x@.len() == 256,
        rfits(rvals(x@), 327000),
    ensures
        out@.len() == 128,
        vals(out@) == rfft_spec(rvals(x@), t.tw(), 8),
        fits(vals(out@), 2145447000),
{
    proof {
        lemma2_to64();
        crate::cfft::lemma_pow3_values();
    }
    rfft_engine(t, x, 8, Ghost(327000))
}

/// Perform a 512-point real FFT, returning the 256 non-redundant bins.
///
/// The buffer must hold exactly 512 samples, each at most 109000 in
/// magnitude; the output is exactly the engine's model `rfft_spec` of the
/// input, and its components stay within 2145447000.
pub fn rfft_512(t: &FftTables, x: &Vec<i32>) -> (out: Vec<Complex32>)
    requires
        t.wf(),
        x@.len() == 512,
        rfits(rvals(x@), 109000),
    ensures
        out@.len() == 256,
        vals(out@) == rfft_spec(rvals(x@), t.tw(), 9),
        fits(vals(out@), 2145447000),
{
    proof {
        lemma2_to64();
        crate::cfft::lemma_pow3_values();
    }
    rfft_engine(t, x, 9, Ghost(109000))
}

/// Perform a 1024-point real FFT, returning the 512 non-redundant bins.
///
/// The buffer must hold exactly 1024 samples, each at most 36000 in
/// magnitude; the output is exactly the engine's model `rfft_spec` of the
/// input, and its components stay within 2125764000.
pub fn rfft_1024(t: &FftTables, x: &Vec<i32>) -> (out: Vec<Complex32>)
    requires
        t.wf(),
        x@.len() == 1024,
        rfits(rvals(x@), 36000),
    ensures
        out@.len() == 512,
        vals(out@) == rfft_spec(rvals(x@), t.tw(), 10),
        fits(vals(out@), 2125764000),
{
    proof {
        lemma2_to64();
        crate::cfft::lemma_pow3_values();
    }
    rfft_engine(t, x, 10, Ghost(36000))
}

/// Perform a 2048-point real FFT, returning the 1024 non-redundant bins.
///
/// The buffer must hold exactly 2048 samples, each at most 12000 in
/// magnitude; the output is exactly the engine's model `rfft_spec` of the
/// input, and its components stay within 2125764000.
pub fn rfft_2048(t: &FftTables, x: &Vec<i32>) -> (out: Vec<Complex32>)
    requires
        t.wf(),
        x@.len() == 2048,
        rfits(rvals(x@), 12000),
    ensures
        out@.len() == 1024,
        vals(out@) == rfft_spec(rvals(x@), t.tw(), 11),
        fits(vals(out@), 2125764000),
{
    proof {
        lemma2_to64();
        crate::cfft::lemma_pow3_values();
    }
    rfft_engine(t, x, 11, Ghost(12000))
}

/// Perform a 4096-point real FFT, returning the 2048 non-redundant bins.
///
/// The buffer must hold exactly 4096 samples, each at most 4000 in
/// magnitude; the output is exactly the engine's model `rfft_spec` of the
/// input, and its components stay within 2125764000.
pub fn rfft_4096(t: &FftTables, x: &Vec<i32>) -> (out: Vec<Complex32>)
    requires
        t.wf(),
        x@.len() == 4096,
        rfits(rvals(x@), 4000),
    ensures
        out@.len() == 2048,
        vals(out@) == rfft_spec(rvals(x@), t.tw(), 12),
        fits(vals(out@), 2125764000),
{
    proof {
        lemma2_to64();
        crate::cfft::lemma_pow3_values();
    }
    rfft_engine(t, x, 12, Ghost(4000))
}

} // verus!
