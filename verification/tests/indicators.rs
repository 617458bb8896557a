//! Tests of the technical indicators: exact values on small series, the
//! alignment and length rules, the degenerate inputs, and the range and
//! ordering properties on concrete data.

use fractal::portfolio::indicators::{bollinger_bands, ema, macd, rsi, sma};

#[test]
fn sma_of_one_to_ten_with_window_three() {
    let prices: Vec<i64> = vec![1, 2, 3, 4, 5, 6, 7, 8, 9, 10];
    let r = sma(&prices, 3);
    assert_eq!(r, vec![2, 3, 4, 5, 6, 7, 8, 9]);
}

#[test]
fn sma_with_window_one_is_the_signal() {
    let prices: Vec<i64> = vec![7, -3, 0, 42, 42, 5];
    assert_eq!(sma(&prices, 1), prices);
}

#[test]
fn sma_output_length() {
    let prices: Vec<i64> = vec![5, 1, 4, 1, 5, 9, 2, 6];
    for period in 1..=8usize {
        assert_eq!(sma(&prices, period).len(), prices.len() - period + 1);
    }
}

#[test]
fn sma_rounds_toward_negative_infinity() {
    assert_eq!(sma(&[1, 2], 2), vec![1]);
    assert_eq!(sma(&[-1, -2], 2), vec![-2]);
}

#[test]
fn sma_degenerate_inputs() {
    assert_eq!(sma(&[], 5), Vec::<i64>::new());
    assert_eq!(sma(&[1, 2, 3], 0), Vec::<i64>::new());
    assert_eq!(sma(&[1, 2, 3], 4), Vec::<i64>::new());
}

#[test]
fn ema_exact_values() {
    // seed = (2 + 4) / 2 = 3; then (2*6 + 3) / 3 = 5; then (2*8 + 5) / 3 = 7
    assert_eq!(ema(&[2, 4, 6, 8], 2), vec![3, 5, 7]);
}

#[test]
fn ema_seed_equals_sma_of_first_window() {
    let prices: Vec<i64> = vec![13, 8, 21, 3, 34, 5];
    for period in 1..=prices.len() {
        let e = ema(&prices, period);
        let s = sma(&prices[0..period], period);
        assert_eq!(e[0], s[0]);
    }
}

#[test]
fn ema_degenerate_inputs() {
    assert_eq!(ema(&[1, 2, 3], 0), Vec::<i64>::new());
    assert_eq!(ema(&[], 3), Vec::<i64>::new());
    assert_eq!(ema(&[1, 2], 3), Vec::<i64>::new());
}

#[test]
fn rsi_exact_values() {
    // deltas: +100, -50, +150; seed: gain 50, loss 25 -> 100*50/75 = 66
    // then gain (50 + 150)/2 = 100, loss (25 + 0)/2 = 12 -> 100*100/112 = 89
    assert_eq!(rsi(&[100, 200, 150, 300], 2), vec![66, 89]);
}

#[test]
fn rsi_length_and_range() {
    let prices: Vec<i64> = vec![44, 47, 45, 50, 49, 52, 41, 60, 58, 44];
    for period in 1..prices.len() {
        let r = rsi(&prices, period);
        assert_eq!(r.len(), prices.len() - period);
        for v in r {
            assert!(0 <= v && v <= 100);
        }
    }
}

#[test]
fn rsi_on_monotone_series() {
    let rising: Vec<i64> = (0..20).map(|k| 100 + 7 * k).collect();
    for v in rsi(&rising, 5) {
        assert_eq!(v, 100);
    }
    let falling: Vec<i64> = (0..20).map(|k| 100 - 7 * k).collect();
    for v in rsi(&falling, 5) {
        assert_eq!(v, 0);
    }
}

#[test]
fn rsi_degenerate_inputs() {
    assert_eq!(rsi(&[1, 2, 3], 0), Vec::<i64>::new());
    assert_eq!(rsi(&[1, 2, 3], 3), Vec::<i64>::new());
    assert_eq!(rsi(&[], 2), Vec::<i64>::new());
}

#[test]
fn macd_exact_values() {
    // fast EMA (period 2) of [10,20,40,80] is [15,31,63];
    // slow EMA (period 3) is [23,51];
    // the MACD line aligns the fast EMA one step forward: [8, 12];
    // its signal EMA (period 2) is [10]; histogram: 12 - 10 = 2.
    let r = macd(&[10, 20, 40, 80], 2, 3, 2);
    assert_eq!(r.macd_line, vec![8, 12]);
    assert_eq!(r.signal_line, vec![10]);
    assert_eq!(r.histogram, vec![2]);
}

#[test]
fn macd_alignment_invariant() {
    let prices: Vec<i64> = (0..40).map(|k| 1000 + 37 * k % 211).collect();
    let signal_period = 4usize;
    let r = macd(&prices, 5, 9, signal_period);
    assert_eq!(
        r.histogram.len(),
        r.signal_line.len().min(r.macd_line.len() - (signal_period - 1))
    );
    for k in 0..r.histogram.len() {
        assert_eq!(r.histogram[k], r.macd_line[k + signal_period - 1] - r.signal_line[k]);
    }
}

#[test]
fn macd_degenerate_inputs() {
    let prices: Vec<i64> = vec![1, 2, 3, 4, 5];
    for (f, s, g) in [(3usize, 3usize, 2usize), (4, 2, 2), (0, 3, 2), (2, 0, 2), (2, 3, 0)] {
        let r = macd(&prices, f, s, g);
        assert!(r.macd_line.is_empty());
        assert!(r.signal_line.is_empty());
        assert!(r.histogram.is_empty());
    }
    let r = macd(&[], 2, 3, 2);
    assert!(r.macd_line.is_empty() && r.signal_line.is_empty() && r.histogram.is_empty());
}

#[test]
fn bollinger_exact_values() {
    // window [10,20,30]: mean 20, squared deviations 200, variance 66,
    // rounded standard deviation 8, doubled band width 16
    let r = bollinger_bands(&[10, 20, 30], 3, 2);
    assert_eq!(r.middle_band, vec![20]);
    assert_eq!(r.upper_band, vec![36]);
    assert_eq!(r.lower_band, vec![4]);
}

#[test]
fn bollinger_constant_series() {
    let r = bollinger_bands(&[5, 5, 5, 5, 5, 5], 3, 2);
    assert_eq!(r.middle_band, vec![5, 5, 5, 5]);
    assert_eq!(r.upper_band, vec![5, 5, 5, 5]);
    assert_eq!(r.lower_band, vec![5, 5, 5, 5]);
}

#[test]
fn bollinger_band_ordering() {
    let prices: Vec<i64> = vec![1000, 4000, 2000, 8000, 3000, 9000, 500, 7000];
    let r = bollinger_bands(&prices, 4, 2);
    assert_eq!(r.upper_band.len(), r.middle_band.len());
    assert_eq!(r.lower_band.len(), r.middle_band.len());
    for k in 0..r.middle_band.len() {
        // the windows all vary, so the bands are strictly apart
        assert!(r.upper_band[k] > r.middle_band[k]);
        assert!(r.middle_band[k] > r.lower_band[k]);
    }
}

#[test]
fn bollinger_degenerate_inputs() {
    let r = bollinger_bands(&[], 3, 2);
    assert!(r.upper_band.is_empty() && r.middle_band.is_empty() && r.lower_band.is_empty());
    let r = bollinger_bands(&[1, 2], 0, 2);
    assert!(r.upper_band.is_empty() && r.middle_band.is_empty() && r.lower_band.is_empty());
    let r = bollinger_bands(&[1, 2], 3, 2);
    assert!(r.upper_band.is_empty() && r.middle_band.is_empty() && r.lower_band.is_empty());
}
