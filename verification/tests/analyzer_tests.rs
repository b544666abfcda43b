use wavemaker::analyzer::{
    amdf_lt, estimate_period, find_peaks, AmdfValue, Analyzer, Minimum,
};
use wavemaker::errors::AudioError;

fn series_of(values: &[u64]) -> Vec<AmdfValue> {
    // A series of integer magnitudes: each value over a window of one.
    values.iter().map(|&v| AmdfValue { sum: v, window: 1 }).collect()
}

#[test]
fn amdf_lt_compares_exact_rationals() {
    // 1/3 < 2/5 and never the other way round.
    let a = AmdfValue { sum: 1, window: 3 };
    let b = AmdfValue { sum: 2, window: 5 };
    assert!(amdf_lt(&a, &b));
    assert!(!amdf_lt(&b, &a));
    // 1/2 and 2/4 are the same magnitude.
    let c = AmdfValue { sum: 1, window: 2 };
    let d = AmdfValue { sum: 2, window: 4 };
    assert!(!amdf_lt(&c, &d));
    assert!(!amdf_lt(&d, &c));
}

#[test]
fn amdf_zero_lag_is_zero() {
    let analyzer = Analyzer { data: vec![3, -5, 7, 11] };
    let series = analyzer.amdf();
    assert_eq!(series.len(), 3);
    assert_eq!(series[0].sum, 0);
    assert_eq!(series[0].window, 4);
}

#[test]
fn amdf_windows_shrink_with_lag() {
    let analyzer = Analyzer { data: vec![1, 2, 3, 4, 5] };
    let series = analyzer.amdf();
    assert_eq!(series.len(), 4);
    for (k, entry) in series.iter().enumerate() {
        assert_eq!(entry.window, 5 - k);
    }
    // Lag 1 over [1..5]: |1-2|+|2-3|+|3-4|+|4-5| = 4 over a window of 4.
    assert_eq!(series[1].sum, 4);
    assert_eq!(series[1].window, 4);
}

#[test]
fn alternating_buffer_has_period_two() {
    // samples [0,10,0,10,0,10,0,10]: AMDF(2) is the minimum of the series
    // (exactly 0), AMDF(1) and AMDF(3) are higher; the period is 2.
    let analyzer = Analyzer { data: vec![0, 10, 0, 10, 0, 10, 0, 10] };
    let series = analyzer.amdf();
    assert_eq!(series.len(), 7);
    assert_eq!(series[2].sum, 0);
    assert!(amdf_lt(&series[2], &series[1]));
    assert!(amdf_lt(&series[2], &series[3]));
    // AMDF(1) = 70/7, AMDF(3) = 50/5.
    assert_eq!((series[1].sum, series[1].window), (70, 7));
    assert_eq!((series[3].sum, series[3].window), (50, 5));
    let minima = find_peaks(series);
    assert_eq!(estimate_period(&minima), Ok(2));
    let freq = analyzer.calc_freq(44100).unwrap();
    assert_eq!(freq, 22_050_000);
}

#[test]
fn find_peaks_keeps_off_the_boundaries() {
    // The dip to 1 at the fourth lag sits within the last two indices and is
    // excluded; only the dip at lag 1 qualifies.
    let series = series_of(&[3, 2, 3, 1, 3]);
    let minima = find_peaks(series);
    assert_eq!(minima.len(), 1);
    assert_eq!(minima[0].position, 1);
    assert_eq!(minima[0].value, AmdfValue { sum: 2, window: 1 });
    for m in &minima {
        assert!(m.position != 0);
        assert!(m.position + 3 <= 5);
    }
}

#[test]
fn strictly_increasing_series_has_no_minima() {
    let minima = find_peaks(series_of(&[1, 2, 3, 4, 5, 6]));
    assert!(minima.is_empty());
    assert_eq!(estimate_period(&minima), Err(AudioError::NoPeriodFound));
}

#[test]
fn strictly_decreasing_series_has_no_minima() {
    let minima = find_peaks(series_of(&[6, 5, 4, 3, 2, 1]));
    assert!(minima.is_empty());
    assert_eq!(estimate_period(&minima), Err(AudioError::NoPeriodFound));
}

#[test]
fn constant_series_has_no_minima() {
    let minima = find_peaks(series_of(&[4, 4, 4, 4, 4, 4]));
    assert!(minima.is_empty());
    assert_eq!(estimate_period(&minima), Err(AudioError::NoPeriodFound));
}

#[test]
fn flat_dip_is_no_minimum() {
    // The dip must be strict on both sides; a flat floor yields nothing.
    let minima = find_peaks(series_of(&[3, 2, 2, 3, 4, 5]));
    assert!(minima.is_empty());
}

#[test]
fn estimate_period_returns_first_minimum() {
    let minima = vec![
        Minimum { position: 3, value: AmdfValue { sum: 1, window: 2 } },
        Minimum { position: 7, value: AmdfValue { sum: 1, window: 3 } },
    ];
    assert_eq!(estimate_period(&minima), Ok(3));
}

#[test]
fn constant_signal_has_no_period() {
    let analyzer = Analyzer { data: vec![5; 32] };
    assert_eq!(analyzer.calc_freq(8000), Err(AudioError::NoPeriodFound));
}

#[test]
fn sine_wave_period_and_frequency() {
    // A 200 Hz sine at 8000 Hz: 40 samples per cycle, 20 cycles.
    let rate = 8000u32;
    let freq = 200.0f64;
    let mut data: Vec<i16> = Vec::new();
    for i in 0..800 {
        let phase = 2.0 * std::f64::consts::PI * freq * (i as f64) / (rate as f64);
        data.push((32767.0 * 0.8 * phase.sin()) as i16);
    }
    let analyzer = Analyzer { data };
    let series = analyzer.amdf();
    let minima = find_peaks(series);
    let period = estimate_period(&minima).unwrap() as f64;
    // Within one sample of rate / frequency.
    assert!((period - 40.0).abs() <= 1.0);
    // The derived frequency lies within 5% of the true one.
    let estimated_hz = analyzer.calc_freq(rate).unwrap() as f64 / 1000.0;
    assert!((estimated_hz - 200.0).abs() / 200.0 <= 0.05);
}
