//! Complex-engine tests: agreement with a naive reference DFT, DC identity,
//! linearity, boundary sizes, and the validating dispatcher.

use microfft::complex::{cfft, FftError};
use microfft::{Complex32, FftTables};

/// Naive O(n^2) reference DFT (forward, unscaled, negative exponent sign),
/// computed in double precision from the integer samples.
fn reference_dft(input: &[Complex32]) -> Vec<(f64, f64)> {
    let n = input.len();
    let mut out = Vec::with_capacity(n);
    for k in 0..n {
        let mut re = 0.0f64;
        let mut im = 0.0f64;
        for (i, c) in input.iter().enumerate() {
            let angle = -2.0 * std::f64::consts::PI * (k as f64) * (i as f64) / (n as f64);
            let (s, c0) = angle.sin_cos();
            re += c.re as f64 * c0 - c.im as f64 * s;
            im += c.re as f64 * s + c.im as f64 * c0;
        }
        out.push((re, im));
    }
    out
}

/// A deterministic test signal with components in [-1000, 1000].
fn test_signal(n: usize) -> Vec<Complex32> {
    (0..n)
        .map(|i| Complex32 {
            re: ((i * 37 + 11) % 2001) as i32 - 1000,
            im: ((i * 53 + 7) % 2001) as i32 - 1000,
        })
        .collect()
}

fn assert_close(result: &[Complex32], expected: &[(f64, f64)]) {
    assert_eq!(result.len(), expected.len());
    let maxmag = expected
        .iter()
        .map(|&(re, im)| re.abs().max(im.abs()))
        .fold(0.0f64, f64::max);
    for (k, (r, &(ere, eim))) in result.iter().zip(expected.iter()).enumerate() {
        for (got, want) in [(r.re as f64, ere), (r.im as f64, eim)] {
            let tol = 0.02 * want.abs() + 0.002 * maxmag + 16.0;
            assert!(
                (got - want).abs() <= tol,
                "bin {}: got {}, want {}, tol {}",
                k,
                got,
                want,
                tol
            );
        }
    }
}

fn check_cfft_against_reference(n: usize) {
    let t = FftTables::new();
    let mut buf = test_signal(n);
    let expected = reference_dft(&buf);
    match n {
        2 => microfft::complex::cfft_2(&t, &mut buf),
        4 => microfft::complex::cfft_4(&t, &mut buf),
        8 => microfft::complex::cfft_8(&t, &mut buf),
        16 => microfft::complex::cfft_16(&t, &mut buf),
        32 => microfft::complex::cfft_32(&t, &mut buf),
        64 => microfft::complex::cfft_64(&t, &mut buf),
        128 => microfft::complex::cfft_128(&t, &mut buf),
        256 => microfft::complex::cfft_256(&t, &mut buf),
        512 => microfft::complex::cfft_512(&t, &mut buf),
        1024 => microfft::complex::cfft_1024(&t, &mut buf),
        2048 => microfft::complex::cfft_2048(&t, &mut buf),
        4096 => microfft::complex::cfft_4096(&t, &mut buf),
        _ => panic!("unsupported test size"),
    }
    assert_close(&buf, &expected);
    // The dispatcher routes to the same engine and must agree exactly.
    let mut again = test_signal(n);
    cfft(&t, &mut again).unwrap();
    assert_eq!(again, buf);
}

#[test]
fn cfft_2() {
    check_cfft_against_reference(2);
}

#[test]
fn cfft_4() {
    check_cfft_against_reference(4);
}

#[test]
fn cfft_8() {
    check_cfft_against_reference(8);
}

#[test]
fn cfft_16() {
    check_cfft_against_reference(16);
}

#[test]
fn cfft_32() {
    check_cfft_against_reference(32);
}

#[test]
fn cfft_64() {
    check_cfft_against_reference(64);
}

#[test]
fn cfft_128() {
    check_cfft_against_reference(128);
}

#[test]
fn cfft_256() {
    check_cfft_against_reference(256);
}

#[test]
fn cfft_512() {
    check_cfft_against_reference(512);
}

#[test]
fn cfft_1024() {
    check_cfft_against_reference(1024);
}

#[test]
fn cfft_2048() {
    check_cfft_against_reference(2048);
}

#[test]
fn cfft_4096() {
    check_cfft_against_reference(4096);
}

#[test]
fn dc_bin_is_exact_sum_for_real_input() {
    let t = FftTables::new();
    let mut buf: Vec<Complex32> = (0..16)
        .map(|i| Complex32 {
            re: (i as i32) * 311 - 2000,
            im: 0,
        })
        .collect();
    let sum: i32 = buf.iter().map(|c| c.re).sum();
    microfft::complex::cfft_16(&t, &mut buf);
    assert_eq!(buf[0].re, sum);
    assert_eq!(buf[0].im, 0);
}

#[test]
fn two_point_transform_is_sum_and_difference() {
    let t = FftTables::new();
    let mut buf = vec![Complex32 { re: 3, im: 4 }, Complex32 { re: 10, im: -2 }];
    microfft::complex::cfft_2(&t, &mut buf);
    assert_eq!(buf[0], Complex32 { re: 13, im: 2 });
    assert_eq!(buf[1], Complex32 { re: -7, im: 6 });
}

#[test]
fn two_point_transform_is_exactly_linear() {
    let t = FftTables::new();
    let x = [Complex32 { re: 7, im: -3 }, Complex32 { re: -12, im: 5 }];
    let y = [Complex32 { re: 2, im: 9 }, Complex32 { re: 4, im: -1 }];
    let (a, b) = (3i32, -2i32);
    let mut combo: Vec<Complex32> = (0..2)
        .map(|i| Complex32 {
            re: a * x[i].re + b * y[i].re,
            im: a * x[i].im + b * y[i].im,
        })
        .collect();
    let mut xv = x.to_vec();
    let mut yv = y.to_vec();
    microfft::complex::cfft_2(&t, &mut combo);
    microfft::complex::cfft_2(&t, &mut xv);
    microfft::complex::cfft_2(&t, &mut yv);
    for i in 0..2 {
        assert_eq!(combo[i].re, a * xv[i].re + b * yv[i].re);
        assert_eq!(combo[i].im, a * xv[i].im + b * yv[i].im);
    }
}

#[test]
fn linearity_holds_within_tolerance() {
    let t = FftTables::new();
    let n = 64;
    let x = test_signal(n);
    let y: Vec<Complex32> = (0..n)
        .map(|i| Complex32 {
            re: ((i * 29 + 3) % 1601) as i32 - 800,
            im: ((i * 41 + 13) % 1601) as i32 - 800,
        })
        .collect();
    let (a, b) = (3i64, -2i64);
    let mut combo: Vec<Complex32> = (0..n)
        .map(|i| Complex32 {
            re: (a * x[i].re as i64 + b * y[i].re as i64) as i32,
            im: (a * x[i].im as i64 + b * y[i].im as i64) as i32,
        })
        .collect();
    let mut xv = x.clone();
    let mut yv = y.clone();
    cfft(&t, &mut combo).unwrap();
    cfft(&t, &mut xv).unwrap();
    cfft(&t, &mut yv).unwrap();
    for i in 0..n {
        let want_re = (a * xv[i].re as i64 + b * yv[i].re as i64) as f64;
        let want_im = (a * xv[i].im as i64 + b * yv[i].im as i64) as f64;
        for (got, want) in [(combo[i].re as f64, want_re), (combo[i].im as f64, want_im)] {
            let tol = 0.02 * want.abs() + 500.0;
            assert!(
                (got - want).abs() <= tol,
                "bin {}: got {}, want {}",
                i,
                got,
                want
            );
        }
    }
}

#[test]
fn dispatcher_rejects_unsupported_length() {
    let t = FftTables::new();
    let mut buf = vec![Complex32 { re: 1, im: 2 }; 3];
    let before = buf.clone();
    assert_eq!(cfft(&t, &mut buf), Err(FftError::UnsupportedLength));
    assert_eq!(buf, before);
}

#[test]
fn dispatcher_rejects_empty_buffer() {
    let t = FftTables::new();
    let mut buf: Vec<Complex32> = Vec::new();
    assert_eq!(cfft(&t, &mut buf), Err(FftError::UnsupportedLength));
}

#[test]
fn dispatcher_rejects_sample_out_of_range() {
    let t = FftTables::new();
    let mut buf = vec![Complex32 { re: 0, im: 0 }; 8];
    buf[5].im = 79_000_001;
    let before = buf.clone();
    assert_eq!(cfft(&t, &mut buf), Err(FftError::SampleOutOfRange));
    assert_eq!(buf, before);
}

#[test]
fn dispatcher_matches_fixed_size_entry_point() {
    let t = FftTables::new();
    let mut via_dispatch = test_signal(8);
    let mut via_entry = via_dispatch.clone();
    assert_eq!(cfft(&t, &mut via_dispatch), Ok(()));
    microfft::complex::cfft_8(&t, &mut via_entry);
    assert_eq!(via_dispatch, via_entry);
}

#[test]
fn four_point_transform_is_the_exact_dft() {
    let t = FftTables::new();
    let s = [
        Complex32 { re: 5, im: 1 },
        Complex32 { re: -3, im: 7 },
        Complex32 { re: 2, im: -4 },
        Complex32 { re: 9, im: 6 },
    ];
    let mut buf = s.to_vec();
    microfft::complex::cfft_4(&t, &mut buf);
    // X_k = sum_n s_n * e^(-2*pi*i*k*n/4), computed by hand over the
    // Gaussian integers.
    let rot = |c: Complex32| Complex32 { re: c.im, im: -c.re };
    let add = |a: Complex32, b: Complex32| Complex32 { re: a.re + b.re, im: a.im + b.im };
    let sub = |a: Complex32, b: Complex32| Complex32 { re: a.re - b.re, im: a.im - b.im };
    assert_eq!(buf[0], add(add(s[0], s[2]), add(s[1], s[3])));
    assert_eq!(buf[1], add(sub(s[0], s[2]), rot(sub(s[1], s[3]))));
    assert_eq!(buf[2], sub(add(s[0], s[2]), add(s[1], s[3])));
    assert_eq!(buf[3], sub(sub(s[0], s[2]), rot(sub(s[1], s[3]))));
}

#[test]
fn four_point_transform_is_exactly_linear() {
    let t = FftTables::new();
    let x = [
        Complex32 { re: 17, im: -3 },
        Complex32 { re: -8, im: 11 },
        Complex32 { re: 4, im: 2 },
        Complex32 { re: -1, im: -9 },
    ];
    let y = [
        Complex32 { re: 6, im: 13 },
        Complex32 { re: 0, im: -5 },
        Complex32 { re: -7, im: 1 },
        Complex32 { re: 12, im: 8 },
    ];
    let (a, b) = (5i32, -4i32);
    let mut combo: Vec<Complex32> = (0..4)
        .map(|i| Complex32 {
            re: a * x[i].re + b * y[i].re,
            im: a * x[i].im + b * y[i].im,
        })
        .collect();
    let mut xv = x.to_vec();
    let mut yv = y.to_vec();
    microfft::complex::cfft_4(&t, &mut combo);
    microfft::complex::cfft_4(&t, &mut xv);
    microfft::complex::cfft_4(&t, &mut yv);
    for i in 0..4 {
        assert_eq!(combo[i].re, a * xv[i].re + b * yv[i].re);
        assert_eq!(combo[i].im, a * xv[i].im + b * yv[i].im);
    }
}
