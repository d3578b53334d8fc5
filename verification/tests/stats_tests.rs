use spotday::series::PriceSeries;
use spotday::series::Sample;
use spotday::series::series_from_parts;
use spotday::stats::StatsSummary;
use spotday::stats::summarize;

fn series_of(prices: &[i64]) -> PriceSeries {
    let samples = prices
        .iter()
        .enumerate()
        .map(|(i, &p)| Sample { instant: 1_700_000_000 + (i as i64) * 3600, price: p })
        .collect();
    PriceSeries { samples, unit: "EUR / MWh".to_string() }
}

#[test]
fn empty_series_yields_zero_sentinel() {
    let summary = summarize(&series_of(&[]));
    assert_eq!(summary, StatsSummary { mean: 0, min: 0, max: 0, count: 0 });
}

#[test]
fn mean_lies_between_extremes() {
    let summary = summarize(&series_of(&[10_000, 20_000, 30_000, 40_000]));
    assert_eq!(summary.count, 4);
    assert_eq!(summary.min, 10_000);
    assert_eq!(summary.max, 40_000);
    assert_eq!(summary.mean, 25_000);
    assert!(summary.min <= summary.mean && summary.mean <= summary.max);
}

#[test]
fn negative_prices_are_ordinary_values() {
    let summary = summarize(&series_of(&[-5_000, 15_000, -25_000]));
    assert_eq!(summary.min, -25_000);
    assert_eq!(summary.max, 15_000);
    assert_eq!(summary.mean, -5_000);
}

#[test]
fn mean_rounds_toward_negative_infinity() {
    let summary = summarize(&series_of(&[-3, -4]));
    assert_eq!(summary.mean, -4);
    assert!(summary.min <= summary.mean && summary.mean <= summary.max);
    let positive = summarize(&series_of(&[3, 4]));
    assert_eq!(positive.mean, 3);
}

#[test]
fn single_sample_summary() {
    let summary = summarize(&series_of(&[-7]));
    assert_eq!(summary, StatsSummary { mean: -7, min: -7, max: -7, count: 1 });
}

#[test]
fn pairs_aligned_arrays_into_samples() {
    let instants = vec![100, 200, 300];
    let prices = vec![1, 2, 3];
    let series = series_from_parts(&instants, &prices, "ct/kWh");
    assert_eq!(series.unit, "ct/kWh");
    assert_eq!(series.samples.len(), 3);
    assert_eq!(series.samples[1], Sample { instant: 200, price: 2 });
}

#[test]
fn unpaired_tail_entries_are_not_kept() {
    let instants = vec![100, 200, 300, 400];
    let prices = vec![7, 8];
    let series = series_from_parts(&instants, &prices, "EUR / MWh");
    assert_eq!(series.samples.len(), 2);
    assert_eq!(series.samples[0], Sample { instant: 100, price: 7 });
    assert_eq!(series.samples[1], Sample { instant: 200, price: 8 });
}
