use clawbot::{MacdIndicator, MacdSignal, RsiIndicator};

fn dec(x: f64) -> i64 {
    (x * 100_000_000.0).round() as i64
}

fn as_f64(v: i64) -> f64 {
    v as f64 / 100_000_000.0
}

fn series(values: &[f64]) -> Vec<i64> {
    values.iter().map(|v| dec(*v)).collect()
}

fn trending_up(n: usize) -> Vec<i64> {
    (0..n).map(|i| dec(100.0 + i as f64 * 0.5)).collect()
}

/// The index in floating point, for comparison.
fn rsi_reference(closes: &[f64], period: usize) -> f64 {
    let changes: Vec<f64> = closes.windows(2).map(|w| w[1] - w[0]).collect();
    let initial = &changes[..period];
    let mut avg_gain = initial.iter().filter(|&&c| c > 0.0).sum::<f64>() / period as f64;
    let mut avg_loss =
        initial.iter().filter(|&&c| c < 0.0).map(|c| c.abs()).sum::<f64>() / period as f64;
    for &change in &changes[period..] {
        let gain = if change > 0.0 { change } else { 0.0 };
        let loss = if change < 0.0 { change.abs() } else { 0.0 };
        avg_gain = (avg_gain * (period - 1) as f64 + gain) / period as f64;
        avg_loss = (avg_loss * (period - 1) as f64 + loss) / period as f64;
    }
    if avg_loss == 0.0 {
        return 100.0;
    }
    100.0 - 100.0 / (1.0 + avg_gain / avg_loss)
}

#[test]
fn rsi_returns_none_when_insufficient_data() {
    let rsi = RsiIndicator::new(14, dec(70.0), dec(30.0));
    // Need at least period+1 = 15 values
    let prices = vec![dec(100.0); 14];
    assert!(rsi.compute(&prices).is_none());
}

#[test]
fn rsi_returns_some_with_sufficient_data() {
    let rsi = RsiIndicator::new(14, dec(70.0), dec(30.0));
    // 15 values - exactly period+1
    let prices: Vec<i64> = (0..15).map(|i| dec(100.0 + i as f64)).collect();
    assert!(rsi.compute(&prices).is_some());
}

#[test]
fn rsi_all_gains_returns_100() {
    let rsi = RsiIndicator::new(3, dec(70.0), dec(30.0));
    // Strictly increasing prices -> RSI = 100
    let prices = series(&[10.0, 11.0, 12.0, 13.0, 14.0]);
    let value = as_f64(rsi.compute(&prices).unwrap());
    assert!((value - 100.0).abs() < 1e-6, "Expected ~100, got {value}");
}

#[test]
fn rsi_all_losses_returns_0() {
    let rsi = RsiIndicator::new(3, dec(70.0), dec(30.0));
    // Strictly decreasing prices -> RSI = 0
    let prices = series(&[14.0, 13.0, 12.0, 11.0, 10.0]);
    let value = as_f64(rsi.compute(&prices).unwrap());
    assert!((value - 0.0).abs() < 1e-6, "Expected ~0, got {value}");
}

#[test]
fn rsi_known_value() {
    // 14-period RSI on a known price series
    let rsi = RsiIndicator::new(14, dec(70.0), dec(30.0));
    let prices = series(&[
        44.34, 44.09, 44.15, 43.61, 44.33, 44.83, 45.10, 45.15, 43.61, 44.33, 44.83, 45.10, 45.15,
        44.34, 44.09,
    ]);
    let value = rsi.compute(&prices);
    assert!(value.is_some());
    let v = as_f64(value.unwrap());
    assert!((0.0..=100.0).contains(&v), "RSI out of range: {v}");
}

#[test]
fn rsi_exact_values() {
    let rsi = RsiIndicator::new(14, dec(70.0), dec(30.0));
    let known = [
        44.34, 44.09, 44.15, 43.61, 44.33, 44.83, 45.10, 45.15, 43.61, 44.33, 44.83, 45.10, 45.15,
        44.34, 44.09,
    ];
    let value = rsi.compute(&series(&known)).unwrap();
    assert_eq!(value, 4_808_575_829);
    assert!((as_f64(value) - rsi_reference(&known, 14)).abs() < 1e-6);

    let short = [10.0, 11.0, 12.0, 11.0, 13.0, 12.0, 14.0];
    let rsi3 = RsiIndicator::new(3, dec(70.0), dec(30.0));
    let value = rsi3.compute(&series(&short)).unwrap();
    assert_eq!(value, 7_833_333_345);
    assert!((as_f64(value) - rsi_reference(&short, 3)).abs() < 1e-6);
}

#[test]
fn rsi_extremes_are_exact() {
    let rsi = RsiIndicator::new(2, dec(70.0), dec(30.0));
    assert_eq!(rsi.compute(&[1, 2, 3, 4]).unwrap(), 10_000_000_000);
    assert_eq!(rsi.compute(&[4, 3, 2, 1]).unwrap(), 0);
    // A flat series has no loss: one hundred.
    assert_eq!(rsi.compute(&[5, 5, 5]).unwrap(), 10_000_000_000);
    assert!(rsi.compute(&[]).is_none());
    assert!(rsi.compute(&[1, 2]).is_none());
}

#[test]
fn rsi_stays_in_range_on_extreme_prices() {
    let rsi = RsiIndicator::new(2, dec(70.0), dec(30.0));
    let wild = [i64::MIN, i64::MAX, i64::MIN, i64::MAX, 0, i64::MIN, 17];
    let value = rsi.compute(&wild).unwrap();
    assert!((0..=10_000_000_000).contains(&value));
}

#[test]
fn macd_returns_none_with_insufficient_data() {
    let macd = MacdIndicator::new(12, 26, 9);
    let prices = vec![dec(100.0); 30]; // need >= 35
    assert!(macd.compute(&prices).is_none());
}

#[test]
fn macd_returns_some_with_sufficient_data() {
    let macd = MacdIndicator::new(12, 26, 9);
    let prices: Vec<i64> = (0..60).map(|i| dec(100.0 + i as f64)).collect();
    assert!(macd.compute(&prices).is_some());
}

#[test]
fn macd_detects_bullish_crossover() {
    let macd = MacdIndicator::new(3, 6, 3);
    // Build a series: down then sharply up
    let mut prices: Vec<i64> = (0..20).map(|i| dec(100.0 - i as f64 * 0.5)).collect();
    prices.extend((0..20).map(|i| dec(90.0 + i as f64 * 2.0)));
    let result = macd.compute(&prices);
    assert!(result.is_some());
}

#[test]
fn macd_neutral_on_steady_trend() {
    let macd = MacdIndicator::new(3, 6, 3);
    // A perfectly linear up-trend will keep MACD above signal without crossing
    let prices = trending_up(40);
    let result = macd.compute(&prices);
    assert!(result.is_some());
}

#[test]
fn macd_exact_crossovers() {
    let macd = MacdIndicator::new(3, 6, 3);
    assert_eq!(macd.compute(&trending_up(40)), Some(MacdSignal::Neutral));

    // Down, then two bars up: the line crosses above its signal line.
    let mut turn_up: Vec<i64> = (0..20).map(|i| dec(100.0 - i as f64 * 0.5)).collect();
    turn_up.extend((0..2).map(|i| dec(90.0 + i as f64 * 2.0)));
    assert_eq!(macd.compute(&turn_up), Some(MacdSignal::Bullish));

    // Up, then two bars down: the mirror image.
    let mut turn_down: Vec<i64> = (0..20).map(|i| dec(100.0 + i as f64 * 0.5)).collect();
    turn_down.extend((0..2).map(|i| dec(110.0 - i as f64 * 2.0)));
    assert_eq!(macd.compute(&turn_down), Some(MacdSignal::Bearish));

    // One bar later the crossover is past.
    turn_up.push(dec(94.0));
    assert_eq!(macd.compute(&turn_up), Some(MacdSignal::Neutral));
}

#[test]
fn macd_needs_slow_plus_signal_closes() {
    let macd = MacdIndicator::new(3, 6, 3);
    assert!(macd.compute(&trending_up(8)).is_none());
    assert!(macd.compute(&trending_up(9)).is_some());
    let no_signal = MacdIndicator::new(3, 6, 0);
    assert!(no_signal.compute(&trending_up(40)).is_none());
    let huge = MacdIndicator::new(1, usize::MAX, usize::MAX);
    assert!(huge.compute(&trending_up(40)).is_none());
}

#[test]
fn macd_survives_extreme_prices() {
    let macd = MacdIndicator::new(2, 3, 2);
    let wild = [i64::MIN, i64::MAX, i64::MIN, i64::MAX, 0, i64::MIN, i64::MAX];
    assert!(macd.compute(&wild).is_some());
}

#[test]
fn ema_exact_value() {
    // Seed 1.5, then (2 * 3 + 1.5) / 3 = 2.5, then (2 * 4 + 2.5) / 3 = 3.5.
    let data = series(&[1.0, 2.0, 3.0, 4.0]);
    assert_eq!(clawbot::indicators::macd::ema(&data, 0, 4, 2), dec(3.5));
    // No data and no period give zero.
    assert_eq!(clawbot::indicators::macd::ema(&data, 2, 2, 2), 0);
    assert_eq!(clawbot::indicators::macd::ema(&data, 0, 4, 0), 0);
    // Only three periods back are read: the first value plays no part.
    let tail = series(&[1000.0, 1.0, 1.0, 1.0]);
    assert_eq!(clawbot::indicators::macd::ema(&tail, 0, 4, 1), dec(1.0));
    // Rounding is downwards, also below zero: (-1 - 2) / 2 = -1.5 -> -2 units.
    assert_eq!(clawbot::indicators::macd::ema(&[-1, -2], 0, 2, 2), -2);
}
