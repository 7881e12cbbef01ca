//! Real-engine tests: agreement with the complex engine on real signals, the
//! known sine-wave spectrum, and the validating dispatcher.

use microfft::complex::FftError;
use microfft::real_fft::rfft;
use microfft::{Complex32, FftTables};

/// A deterministic real test signal with samples in [-1000, 1000].
fn real_signal(n: usize) -> Vec<i32> {
    (0..n).map(|i| ((i * 67 + 5) % 2001) as i32 - 1000).collect()
}

/// Transform `x` with the real engine and with the complex engine (embedded
/// with zero imaginary parts) and compare the first `n / 2` bins.
fn check_rfft_against_cfft(n: usize) {
    let t = FftTables::new();
    let x = real_signal(n);
    let spectrum = match n {
        2 => microfft::real_fft::rfft_2(&t, &x),
        4 => microfft::real_fft::rfft_4(&t, &x),
        8 => microfft::real_fft::rfft_8(&t, &x),
        16 => microfft::real_fft::rfft_16(&t, &x),
        32 => microfft::real_fft::rfft_32(&t, &x),
        64 => microfft::real_fft::rfft_64(&t, &x),
        128 => microfft::real_fft::rfft_128(&t, &x),
        256 => microfft::real_fft::rfft_256(&t, &x),
        512 => microfft::real_fft::rfft_512(&t, &x),
        1024 => microfft::real_fft::rfft_1024(&t, &x),
        2048 => microfft::real_fft::rfft_2048(&t, &x),
        4096 => microfft::real_fft::rfft_4096(&t, &x),
        _ => panic!("unsupported test size"),
    };
    assert_eq!(spectrum.len(), n / 2);
    // The dispatcher routes to the same engine and must agree exactly.
    assert_eq!(rfft(&t, &x).unwrap(), spectrum);

    let mut embedded: Vec<Complex32> = x.iter().map(|&v| Complex32 { re: v, im: 0 }).collect();
    microfft::complex::cfft(&t, &mut embedded).unwrap();

    let maxmag = embedded
        .iter()
        .map(|c| (c.re as f64).abs().max((c.im as f64).abs()))
        .fold(0.0f64, f64::max);
    for k in 0..n / 2 {
        for (got, want) in [
            (spectrum[k].re as f64, embedded[k].re as f64),
            (spectrum[k].im as f64, embedded[k].im as f64),
        ] {
            let tol = 0.02 * want.abs() + 0.002 * maxmag + 16.0;
            assert!(
                (got - want).abs() <= tol,
                "size {} bin {}: got {}, want {}",
                n,
                k,
                got,
                want
            );
        }
    }
    // Bin 0 is the arithmetic sum of the samples in both engines, exactly.
    let sum: i32 = x.iter().sum();
    assert_eq!(spectrum[0].re, sum);
    assert_eq!(spectrum[0].im, 0);
    assert_eq!(embedded[0].re, sum);
    assert_eq!(embedded[0].im, 0);
}

#[test]
fn rfft_2() {
    check_rfft_against_cfft(2);
}

#[test]
fn rfft_4() {
    check_rfft_against_cfft(4);
}

#[test]
fn rfft_8() {
    check_rfft_against_cfft(8);
}

#[test]
fn rfft_16() {
    check_rfft_against_cfft(16);
}

#[test]
fn rfft_32() {
    check_rfft_against_cfft(32);
}

#[test]
fn rfft_64() {
    check_rfft_against_cfft(64);
}

#[test]
fn rfft_128() {
    check_rfft_against_cfft(128);
}

#[test]
fn rfft_256() {
    check_rfft_against_cfft(256);
}

#[test]
fn rfft_512() {
    check_rfft_against_cfft(512);
}

#[test]
fn rfft_1024() {
    check_rfft_against_cfft(1024);
}

#[test]
fn rfft_2048() {
    check_rfft_against_cfft(2048);
}

#[test]
fn rfft_4096() {
    check_rfft_against_cfft(4096);
}

#[test]
fn sine_wave_spectrum_spikes_at_its_frequency() {
    // 16 samples of a sine wave at frequency 3, amplitude 8192 in fixed
    // point. The magnitude spectrum must be zero everywhere except bin 3,
    // where the amplitude-relative magnitude is 8 (that is, n / 2).
    let t = FftTables::new();
    let amp = 8192.0f64;
    let x: Vec<i32> = (0..16)
        .map(|i| {
            let v = (2.0 * std::f64::consts::PI * 3.0 * (i as f64) / 16.0).sin();
            (v * amp).round() as i32
        })
        .collect();
    let spectrum = microfft::real_fft::rfft_16(&t, &x);
    let amplitudes: Vec<u32> = spectrum
        .iter()
        .map(|c| {
            let norm = ((c.re as f64).powi(2) + (c.im as f64).powi(2)).sqrt();
            (norm / amp).round() as u32
        })
        .collect();
    assert_eq!(&amplitudes, &[0, 0, 0, 8, 0, 0, 0, 0]);
}

#[test]
fn real_dispatcher_rejects_unsupported_length() {
    let t = FftTables::new();
    let x = vec![1i32; 6];
    assert_eq!(rfft(&t, &x), Err(FftError::UnsupportedLength));
}

#[test]
fn real_dispatcher_rejects_sample_out_of_range() {
    let t = FftTables::new();
    let mut x = vec![0i32; 16];
    x[3] = -26_000_001;
    assert_eq!(rfft(&t, &x), Err(FftError::SampleOutOfRange));
}

#[test]
fn real_dispatcher_matches_fixed_size_entry_point() {
    let t = FftTables::new();
    let x = real_signal(32);
    let via_dispatch = rfft(&t, &x).unwrap();
    let via_entry = microfft::real_fft::rfft_32(&t, &x);
    assert_eq!(via_dispatch, via_entry);
}

#[test]
fn two_point_real_transform_is_the_sample_sum() {
    let t = FftTables::new();
    let x = vec![21i32, -9i32];
    let spectrum = microfft::real_fft::rfft_2(&t, &x);
    assert_eq!(spectrum.len(), 1);
    assert_eq!(spectrum[0], Complex32 { re: 12, im: 0 });
}

#[test]
fn four_point_real_transform_matches_complex_exactly() {
    let t = FftTables::new();
    let x = vec![14i32, -6, 3, 21];
    let spectrum = microfft::real_fft::rfft_4(&t, &x);
    let mut embedded: Vec<Complex32> = x.iter().map(|&v| Complex32 { re: v, im: 0 }).collect();
    microfft::complex::cfft_4(&t, &mut embedded);
    assert_eq!(spectrum.len(), 2);
    assert_eq!(spectrum[0], embedded[0]);
    assert_eq!(spectrum[1], embedded[1]);
}
