//! In-place radix-2 decimation-in-time fast Fourier transforms of fixed
//! power-of-two sizes (2 through 4096) over fixed-point complex samples.
//!
//! Samples are 32-bit integers (`re`, `im`); twiddle factors are
//! unit-magnitude complex values stored in Q14 fixed point (scale `1 << 14`).
//! Every transform is specified exactly: the output buffer equals a
//! mathematical model of the radix-2 algorithm (bit-reversal reorder followed
//! by recursive butterfly combination), and all intermediate arithmetic is
//! proved free of overflow for inputs within each entry point's stated
//! magnitude bound.
//!
//! Two engine families are provided, each with one entry point per supported
//! size and a validating dispatcher over all of them: a complex FFT over `n`
//! complex samples ([`complex`]) and a real-input FFT over `n` real samples
//! ([`real_fft`]) that packs sample pairs into `n / 2` complex samples, runs
//! the half-size complex engine, and recombines the bins into the
//! non-redundant half spectrum. The immutable bit-reversal and twiddle tables
//! that drive both engines are built once by [`FftTables::new`].
//!
//! The [`laws`] module states and proves the engines' laws: the bit-reversal
//! tables are involutions, bin 0 of a transform is the exact input sum, the
//! two- and four-point transforms equal the exact DFT (their twiddle factors
//! are exactly representable) and are exactly linear, and the real and
//! complex engines agree exactly on bin 0.

mod bits;
mod cfft;
mod cx;
mod rfft;
mod tables;

pub mod complex;
pub mod laws;
pub mod real_fft;

pub use cfft::{cfft_spec, log2_of, pow3, spec_sample_limit, supported_len};
pub use complex::FftError;
pub use cx::{cx_add, cx_mul, cx_sub, fits, vals, Complex32, Cx, TW_SCALE};
pub use rfft::{pack_spec, rec_out, rfft_spec, rfits, rvals};
pub use tables::FftTables;
