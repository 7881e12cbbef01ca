//! Table-provider tests: the bit-reversal tables are involutions and the
//! exactly representable twiddle factors have their exact values.

use microfft::{Complex32, FftTables};

#[test]
fn bit_reversal_tables_are_involutions() {
    let t = FftTables::new();
    for log2n in 0..13 {
        let table = t.bitrev_table(log2n);
        assert_eq!(table.len(), 1usize << log2n);
        for i in 0..table.len() {
            let j = table[i] as usize;
            assert!(j < table.len());
            assert_eq!(table[j] as usize, i, "size 2^{} index {}", log2n, i);
        }
    }
}

#[test]
fn bit_reversal_of_size_eight() {
    let t = FftTables::new();
    let table = t.bitrev_table(3);
    let entries: Vec<u16> = table.clone();
    assert_eq!(&entries, &[0, 4, 2, 6, 1, 5, 3, 7]);
}

#[test]
fn cardinal_twiddle_factors_are_exact() {
    let t = FftTables::new();
    assert_eq!(t.twiddle_at(0), Complex32 { re: 16384, im: 0 });
    assert_eq!(t.twiddle_at(1024), Complex32 { re: 0, im: -16384 });
}

#[test]
fn quarter_turn_twiddle_factor_is_on_the_diagonal() {
    let t = FftTables::new();
    // Index 512 of the 4096-point master table is the 45-degree twiddle:
    // both components are sin(pi / 4) in Q14, the imaginary one negated.
    let c = t.twiddle_at(512);
    assert_eq!(c.re, 11585);
    assert_eq!(c.im, -11585);
}

#[test]
fn twiddle_factors_have_unit_magnitude() {
    let t = FftTables::new();
    for k in 0..2048 {
        let c = t.twiddle_at(k);
        let norm = ((c.re as f64).powi(2) + (c.im as f64).powi(2)).sqrt();
        assert!(
            (norm - 16384.0).abs() <= 2.0,
            "twiddle {} has norm {}",
            k,
            norm
        );
    }
}
