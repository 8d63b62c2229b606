use opentelemetry::aggregation::{Count, Distribution, Histogram, LastValue, Max, Min, MinMaxSumCount, Points, Quantile, Sum};
use opentelemetry::aggregator::{range_test, Aggregator};
use opentelemetry::aggregators::{array, histogram, last_value, min_max_sum_count, sum};
use opentelemetry::context::Context;
use opentelemetry::descriptor::{Descriptor, InstrumentKind};
use opentelemetry::error::MetricsError;
use opentelemetry::number::{Number, NumberKind};

fn descriptor(instrument_kind: InstrumentKind, number_kind: NumberKind) -> Descriptor {
    Descriptor::new("name".to_string(), "library".to_string(), instrument_kind, number_kind)
}

fn float(value: f64) -> Number {
    Number::from(value.to_bits())
}

fn as_float(number: Number) -> f64 {
    f64::from_bits(number.to_u64())
}

fn now() -> Context {
    Context::at(0)
}

#[test]
fn a_sum_reports_the_total_of_the_period() {
    let desc = descriptor(InstrumentKind::UpDownCounter, NumberKind::U64);
    let mut agg = sum();
    for n in [1u64, 2, 3, 36] {
        agg.update_with_context(&now(), &Number::from(n), &desc).unwrap();
    }
    assert_eq!(agg.sum().unwrap().to_u64(), 0);
    agg.checkpoint(&desc);
    assert_eq!(agg.sum().unwrap().to_u64(), 42);
}

#[test]
fn a_sum_of_floats_adds_in_order() {
    let desc = descriptor(InstrumentKind::Counter, NumberKind::F64);
    let mut agg = sum();
    let mut want = 0.0f64;
    for v in [0.1, 0.2, 0.3, 1e16, 1.0, -1e16] {
        agg.update_with_context(&now(), &float(v), &desc).unwrap();
        want += v;
    }
    agg.checkpoint(&desc);
    assert_eq!(as_float(agg.sum().unwrap()), want);
}

#[test]
fn a_checkpoint_starts_a_new_period() {
    let desc = descriptor(InstrumentKind::Counter, NumberKind::F64);
    let mut agg = sum();
    agg.update_with_context(&now(), &float(5.0), &desc).unwrap();
    agg.checkpoint(&desc);
    assert_eq!(as_float(agg.sum().unwrap()), 5.0);
    assert_eq!(agg.current.to_u64(), 0);
    agg.update_with_context(&now(), &float(2.0), &desc).unwrap();
    agg.checkpoint(&desc);
    assert_eq!(as_float(agg.sum().unwrap()), 2.0);
    agg.checkpoint(&desc);
    assert_eq!(as_float(agg.sum().unwrap()), 0.0);
}

#[test]
fn sums_merge_by_adding_their_checkpoints() {
    let desc = descriptor(InstrumentKind::UpDownCounter, NumberKind::U64);
    let mut one = sum();
    let mut other = sum();
    one.update_with_context(&now(), &Number::from(3u64), &desc).unwrap();
    other.update_with_context(&now(), &Number::from(4u64), &desc).unwrap();
    one.checkpoint(&desc);
    other.checkpoint(&desc);
    one.merge(&other, &desc).unwrap();
    assert_eq!(one.sum().unwrap().to_u64(), 7);
    assert_eq!(other.sum().unwrap().to_u64(), 4);
}

#[test]
fn the_range_check_refuses_nan_and_negative_values() {
    let counter = descriptor(InstrumentKind::Counter, NumberKind::F64);
    assert!(range_test(&float(5.0), &counter).is_ok());
    assert!(range_test(&float(0.0), &counter).is_ok());
    assert!(matches!(range_test(&float(-1.0), &counter), Err(MetricsError::NegativeInput)));
    assert!(matches!(range_test(&float(f64::NAN), &counter), Err(MetricsError::NaNInput)));
    assert!(matches!(range_test(&float(-f64::NAN), &counter), Err(MetricsError::NaNInput)));
    let observer = descriptor(InstrumentKind::SumObserver, NumberKind::F64);
    assert!(matches!(range_test(&float(-0.5), &observer), Err(MetricsError::NegativeInput)));
    for kind in [
        InstrumentKind::UpDownCounter,
        InstrumentKind::ValueRecorder,
        InstrumentKind::ValueObserver,
        InstrumentKind::UpDownSumObserver,
    ] {
        let desc = descriptor(kind, NumberKind::F64);
        assert!(range_test(&float(-1.0), &desc).is_ok());
        assert!(matches!(range_test(&float(f64::NAN), &desc), Err(MetricsError::NaNInput)));
    }
}

#[test]
fn the_range_check_of_integers() {
    let recorder = descriptor(InstrumentKind::ValueRecorder, NumberKind::U64);
    assert!(range_test(&Number::from(f64::NAN.to_bits()), &recorder).is_ok());
    assert!(range_test(&Number::from(5u64), &recorder).is_ok());
    let counter = descriptor(InstrumentKind::Counter, NumberKind::U64);
    assert!(matches!(range_test(&Number::from(5u64), &counter), Err(MetricsError::NegativeInput)));
}

#[test]
fn count_sum_least_and_greatest_of_integers() {
    let desc = descriptor(InstrumentKind::ValueRecorder, NumberKind::U64);
    let mut agg = min_max_sum_count(&desc);
    assert_eq!(agg.count().unwrap(), 0);
    assert_eq!(agg.min().unwrap().to_u64(), 0);
    for n in [7u64, 3, 9, 3, 5] {
        agg.update_with_context(&now(), &Number::from(n), &desc).unwrap();
    }
    agg.checkpoint(&desc);
    assert_eq!(agg.count().unwrap(), 5);
    assert_eq!(agg.sum().unwrap().to_u64(), 27);
    assert_eq!(agg.min().unwrap().to_u64(), 3);
    assert_eq!(agg.max().unwrap().to_u64(), 9);
}

#[test]
fn count_sum_least_and_greatest_of_floats() {
    let desc = descriptor(InstrumentKind::ValueRecorder, NumberKind::F64);
    let mut agg = min_max_sum_count(&desc);
    for v in [1.5, -2.5, 4.0, 0.0] {
        agg.update_with_context(&now(), &float(v), &desc).unwrap();
    }
    agg.checkpoint(&desc);
    assert_eq!(agg.count().unwrap(), 4);
    assert_eq!(as_float(agg.sum().unwrap()), 3.0);
    assert_eq!(as_float(agg.min().unwrap()), -2.5);
    assert_eq!(as_float(agg.max().unwrap()), 4.0);
}

#[test]
fn a_period_without_measurements_starts_from_the_extremes() {
    let desc = descriptor(InstrumentKind::ValueRecorder, NumberKind::F64);
    let mut agg = min_max_sum_count(&desc);
    agg.checkpoint(&desc);
    assert_eq!(agg.count().unwrap(), 0);
    assert_eq!(as_float(agg.min().unwrap()), f64::MAX);
    assert_eq!(as_float(agg.max().unwrap()), f64::MIN);
    let desc = descriptor(InstrumentKind::ValueRecorder, NumberKind::U64);
    let mut agg = min_max_sum_count(&desc);
    agg.checkpoint(&desc);
    assert_eq!(agg.min().unwrap().to_u64(), u64::MAX);
    assert_eq!(agg.max().unwrap().to_u64(), 0);
}

#[test]
fn merging_two_summaries_is_as_one_aggregator_for_all() {
    let desc = descriptor(InstrumentKind::ValueRecorder, NumberKind::U64);
    let first = [4u64, 8, 15];
    let second = [16u64, 23, 42, 1];
    let mut one = min_max_sum_count(&desc);
    let mut other = min_max_sum_count(&desc);
    let mut all = min_max_sum_count(&desc);
    for n in first {
        one.update_with_context(&now(), &Number::from(n), &desc).unwrap();
        all.update_with_context(&now(), &Number::from(n), &desc).unwrap();
    }
    for n in second {
        other.update_with_context(&now(), &Number::from(n), &desc).unwrap();
        all.update_with_context(&now(), &Number::from(n), &desc).unwrap();
    }
    one.checkpoint(&desc);
    other.checkpoint(&desc);
    all.checkpoint(&desc);
    one.merge(&other, &desc).unwrap();
    assert_eq!(one.count().unwrap(), 7);
    assert_eq!(one.sum().unwrap().to_u64(), 109);
    assert_eq!(one.min().unwrap().to_u64(), 1);
    assert_eq!(one.max().unwrap().to_u64(), 42);
    assert_eq!(one.checkpoint, all.checkpoint);
}

#[test]
fn merging_into_an_aggregator_without_checkpoint_takes_the_other() {
    let desc = descriptor(InstrumentKind::ValueRecorder, NumberKind::U64);
    let mut fresh = min_max_sum_count(&desc);
    let mut other = min_max_sum_count(&desc);
    other.update_with_context(&now(), &Number::from(6u64), &desc).unwrap();
    other.checkpoint(&desc);
    fresh.merge(&other, &desc).unwrap();
    assert_eq!(fresh.count().unwrap(), 1);
    assert_eq!(fresh.min().unwrap().to_u64(), 6);
    let mut third = min_max_sum_count(&desc);
    third.merge(&min_max_sum_count(&desc), &desc).unwrap();
    assert!(third.checkpoint.is_none());
    other.merge(&min_max_sum_count(&desc), &desc).unwrap();
    assert_eq!(other.count().unwrap(), 1);
}

#[test]
fn quantiles_of_an_array() {
    let desc = descriptor(InstrumentKind::ValueRecorder, NumberKind::F64);
    let mut agg = array();
    for v in [5.0, 1.0, 4.0, 2.0, 3.0] {
        agg.update_with_context(&now(), &float(v), &desc).unwrap();
    }
    agg.checkpoint(&desc);
    assert_eq!(as_float(agg.quantile(0.0f64.to_bits()).unwrap()), 1.0);
    assert_eq!(as_float(agg.quantile((-0.0f64).to_bits()).unwrap()), 1.0);
    assert_eq!(as_float(agg.quantile(1.0f64.to_bits()).unwrap()), 5.0);
    assert_eq!(as_float(agg.quantile(0.5f64.to_bits()).unwrap()), 3.0);
    assert_eq!(as_float(agg.quantile(0.25f64.to_bits()).unwrap()), 2.0);
    assert_eq!(as_float(agg.quantile(0.3f64.to_bits()).unwrap()), 3.0);
    assert_eq!(as_float(agg.quantile(0.9f64.to_bits()).unwrap()), 5.0);
    assert_eq!(as_float(agg.quantile((1.0f64 - f64::EPSILON / 2.0).to_bits()).unwrap()), 5.0);
    assert_eq!(as_float(agg.min().unwrap()), 1.0);
    assert_eq!(as_float(agg.max().unwrap()), 5.0);
    assert_eq!(as_float(agg.sum().unwrap()), 15.0);
    assert_eq!(agg.count().unwrap(), 5);
    let points: Vec<f64> = agg.points().unwrap().into_iter().map(as_float).collect();
    assert_eq!(points, vec![1.0, 2.0, 3.0, 4.0, 5.0]);
}

#[test]
fn a_quantile_with_a_rounded_position() {
    let desc = descriptor(InstrumentKind::ValueRecorder, NumberKind::U64);
    let mut agg = array();
    for n in 0..11u64 {
        agg.update_with_context(&now(), &Number::from(10 - n), &desc).unwrap();
    }
    agg.checkpoint(&desc);
    for (q, want) in [(0.1f64, 1u64), (0.2, 2), (0.35, 4), (0.7, 7), (0.99, 10)] {
        let position = (10.0f64 * q).ceil() as u64;
        assert_eq!(position, want);
        assert_eq!(agg.quantile(q.to_bits()).unwrap().to_u64(), want, "{q}");
    }
}

#[test]
fn quantiles_out_of_range_are_refused() {
    let desc = descriptor(InstrumentKind::ValueRecorder, NumberKind::F64);
    let mut agg = array();
    agg.update_with_context(&now(), &float(1.0), &desc).unwrap();
    agg.update_with_context(&now(), &float(2.0), &desc).unwrap();
    agg.checkpoint(&desc);
    for q in [-0.1f64, 1.1, -1.0, 2.0, f64::INFINITY, f64::NEG_INFINITY, f64::NAN, 1.0 + f64::EPSILON] {
        assert!(matches!(agg.quantile(q.to_bits()), Err(MetricsError::InvalidQuantile)), "{q}");
    }
}

#[test]
fn an_array_without_measurements_has_no_quantiles() {
    let desc = descriptor(InstrumentKind::ValueRecorder, NumberKind::F64);
    let mut agg = array();
    for q in [0.0f64, 0.5, 1.0, -1.0, 2.0] {
        assert!(matches!(agg.quantile(q.to_bits()), Err(MetricsError::NoDataCollected)), "{q}");
    }
    agg.update_with_context(&now(), &float(1.0), &desc).unwrap();
    assert!(matches!(agg.min(), Err(MetricsError::NoDataCollected)));
    assert!(matches!(agg.max(), Err(MetricsError::NoDataCollected)));
    agg.checkpoint(&desc);
    assert_eq!(as_float(agg.quantile(0.7f64.to_bits()).unwrap()), 1.0);
    agg.checkpoint(&desc);
    assert!(matches!(agg.min(), Err(MetricsError::NoDataCollected)));
    assert_eq!(agg.count().unwrap(), 0);
}

#[test]
fn floats_are_sorted_in_their_numeric_order() {
    let desc = descriptor(InstrumentKind::ValueRecorder, NumberKind::F64);
    let mut agg = array();
    let values = [3.5, -1.0, f64::INFINITY, 0.0, -0.0, f64::NEG_INFINITY, 1e-310, -7.25, 2.0];
    for v in values {
        agg.update_with_context(&now(), &float(v), &desc).unwrap();
    }
    agg.checkpoint(&desc);
    let mut want = values.to_vec();
    want.sort_by(|a, b| a.total_cmp(b));
    let got: Vec<u64> = agg.points().unwrap().into_iter().map(|n| n.to_u64()).collect();
    let want: Vec<u64> = want.into_iter().map(f64::to_bits).collect();
    assert_eq!(got, want);
}

#[test]
fn arrays_merge_by_sorting_the_measurements_of_both() {
    let desc = descriptor(InstrumentKind::ValueRecorder, NumberKind::U64);
    let mut one = array();
    let mut other = array();
    for n in [9u64, 1, 5] {
        one.update_with_context(&now(), &Number::from(n), &desc).unwrap();
    }
    for n in [4u64, 8] {
        other.update_with_context(&now(), &Number::from(n), &desc).unwrap();
    }
    one.checkpoint(&desc);
    other.checkpoint(&desc);
    one.merge(&other, &desc).unwrap();
    let got: Vec<u64> = one.points().unwrap().into_iter().map(|n| n.to_u64()).collect();
    assert_eq!(got, vec![1, 4, 5, 8, 9]);
    assert_eq!(one.sum().unwrap().to_u64(), 27);
    assert_eq!(one.count().unwrap(), 5);
    assert_eq!(other.count().unwrap(), 2);
}

#[test]
fn a_histogram_counts_in_buckets() {
    let desc = descriptor(InstrumentKind::ValueRecorder, NumberKind::F64);
    let mut agg = histogram(&desc, &[10.0f64.to_bits(), 20.0f64.to_bits()]);
    for v in [5.0, 10.0, 15.0, 25.0] {
        agg.update_with_context(&now(), &float(v), &desc).unwrap();
    }
    agg.checkpoint(&desc);
    let buckets = agg.histogram().unwrap();
    assert_eq!(buckets.counts(), &vec![1, 2, 1]);
    assert_eq!(buckets.boundaries(), &vec![10.0f64.to_bits(), 20.0f64.to_bits()]);
    assert_eq!(as_float(agg.sum().unwrap()), 55.0);
    assert_eq!(agg.count().unwrap(), 4);
}

#[test]
fn a_histogram_of_integers_counts_in_buckets() {
    let desc = descriptor(InstrumentKind::ValueRecorder, NumberKind::U64);
    let mut agg = histogram(&desc, &[20.0f64.to_bits(), 10.0f64.to_bits()]);
    for n in [5u64, 10, 15, 25] {
        agg.update_with_context(&now(), &Number::from(n), &desc).unwrap();
    }
    agg.checkpoint(&desc);
    let buckets = agg.histogram().unwrap();
    assert_eq!(buckets.counts(), &vec![1, 2, 1]);
    assert_eq!(buckets.boundaries(), &vec![10.0f64.to_bits(), 20.0f64.to_bits()]);
    assert_eq!(agg.sum().unwrap().to_u64(), 55);
    assert_eq!(agg.count().unwrap(), 4);
}

#[test]
fn a_histogram_without_boundaries_has_one_bucket() {
    let desc = descriptor(InstrumentKind::ValueRecorder, NumberKind::F64);
    let mut agg = histogram(&desc, &[]);
    agg.update_with_context(&now(), &float(1.0), &desc).unwrap();
    agg.update_with_context(&now(), &float(f64::NAN), &desc).unwrap();
    agg.checkpoint(&desc);
    assert_eq!(agg.histogram().unwrap().counts(), &vec![2]);
    agg.checkpoint(&desc);
    assert_eq!(agg.histogram().unwrap().counts(), &vec![0]);
    assert_eq!(agg.count().unwrap(), 0);
}

#[test]
fn histograms_merge_bucket_by_bucket() {
    let desc = descriptor(InstrumentKind::ValueRecorder, NumberKind::F64);
    let boundaries = [0.0f64.to_bits(), 100.0f64.to_bits()];
    let mut one = histogram(&desc, &boundaries);
    let mut other = histogram(&desc, &boundaries);
    for v in [-5.0, 50.0, 500.0] {
        one.update_with_context(&now(), &float(v), &desc).unwrap();
    }
    for v in [1.0, 2.0, -3.0] {
        other.update_with_context(&now(), &float(v), &desc).unwrap();
    }
    one.checkpoint(&desc);
    other.checkpoint(&desc);
    one.merge(&other, &desc).unwrap();
    assert_eq!(one.histogram().unwrap().counts(), &vec![2, 3, 1]);
    assert_eq!(one.count().unwrap(), 6);
    assert_eq!(as_float(one.sum().unwrap()), 545.0);
}

#[test]
fn histograms_with_different_boundaries_are_not_merged() {
    let desc = descriptor(InstrumentKind::ValueRecorder, NumberKind::F64);
    let mut one = histogram(&desc, &[1.0f64.to_bits()]);
    let mut other = histogram(&desc, &[2.0f64.to_bits()]);
    one.update_with_context(&now(), &float(0.0), &desc).unwrap();
    other.update_with_context(&now(), &float(0.0), &desc).unwrap();
    one.checkpoint(&desc);
    other.checkpoint(&desc);
    assert!(matches!(one.merge(&other, &desc), Err(MetricsError::InconsistentMergeError(_))));
    assert_eq!(one.count().unwrap(), 1);
}

#[test]
fn the_last_value_is_the_one_recorded_last() {
    let desc = descriptor(InstrumentKind::ValueObserver, NumberKind::F64);
    let mut agg = last_value();
    assert!(matches!(agg.last_value(), Err(MetricsError::NoDataCollected)));
    agg.update_with_context(&Context::at(10), &float(1.0), &desc).unwrap();
    agg.update_with_context(&Context::at(20), &float(2.0), &desc).unwrap();
    assert!(matches!(agg.last_value(), Err(MetricsError::NoDataCollected)));
    agg.checkpoint(&desc);
    let (value, time) = agg.last_value().unwrap();
    assert_eq!(as_float(value), 2.0);
    assert_eq!(time, 20);
    agg.checkpoint(&desc);
    assert!(matches!(agg.last_value(), Err(MetricsError::NoDataCollected)));
}

#[test]
fn merging_last_values_keeps_the_later_one_in_either_order() {
    let desc = descriptor(InstrumentKind::ValueObserver, NumberKind::F64);
    let mut a = last_value();
    let mut b = last_value();
    a.update_with_context(&Context::at(100), &float(1.0), &desc).unwrap();
    b.update_with_context(&Context::at(200), &float(2.0), &desc).unwrap();
    a.checkpoint(&desc);
    b.checkpoint(&desc);
    let mut a_then_b = a;
    a_then_b.merge(&b, &desc).unwrap();
    let mut b_then_a = b;
    b_then_a.merge(&a, &desc).unwrap();
    let (value, time) = a_then_b.last_value().unwrap();
    assert_eq!((as_float(value), time), (2.0, 200));
    assert_eq!(a_then_b.checkpoint, b_then_a.checkpoint);
}

#[test]
fn of_last_values_of_one_time_each_keeps_its_own() {
    let desc = descriptor(InstrumentKind::ValueObserver, NumberKind::F64);
    let mut a = last_value();
    let mut b = last_value();
    a.update_with_context(&Context::at(7), &float(1.0), &desc).unwrap();
    b.update_with_context(&Context::at(7), &float(2.0), &desc).unwrap();
    a.checkpoint(&desc);
    b.checkpoint(&desc);
    let mut merged = a;
    merged.merge(&b, &desc).unwrap();
    assert_eq!(as_float(merged.last_value().unwrap().0), 1.0);
    let mut empty = last_value();
    empty.merge(&b, &desc).unwrap();
    assert_eq!(as_float(empty.last_value().unwrap().0), 2.0);
    let mut kept = b;
    kept.merge(&last_value(), &desc).unwrap();
    assert_eq!(as_float(kept.last_value().unwrap().0), 2.0);
}

#[test]
fn aggregators_of_different_variants_are_not_merged() {
    let desc = descriptor(InstrumentKind::ValueRecorder, NumberKind::U64);
    let mut total = Aggregator::Sum(sum());
    total.update_with_context(&now(), &Number::from(3u64), &desc).unwrap();
    total.checkpoint(&desc);
    let other = Aggregator::Array(array());
    assert!(matches!(total.merge(&other, &desc), Err(MetricsError::InconsistentMergeError(_))));
    match &total {
        Aggregator::Sum(s) => assert_eq!(s.sum().unwrap().to_u64(), 3),
        _ => panic!("the variant changed"),
    }
    let mut again = Aggregator::Sum(sum());
    again.merge(&total, &desc).unwrap();
    match &again {
        Aggregator::Sum(s) => assert_eq!(s.sum().unwrap().to_u64(), 3),
        _ => panic!("the variant changed"),
    }
    let copy = total.clone();
    assert!(matches!(copy, Aggregator::Sum(_)));
}

fn total_of<A: Sum>(aggregator: &A) -> u64 {
    aggregator.sum().unwrap().to_u64()
}

fn spread_of<A: MinMaxSumCount>(aggregator: &A) -> (u64, u64, u64) {
    (
        Min::min(aggregator).unwrap().to_u64(),
        Max::max(aggregator).unwrap().to_u64(),
        Count::count(aggregator).unwrap(),
    )
}

fn median_of<A: Distribution>(aggregator: &A) -> u64 {
    Quantile::quantile(aggregator, 0.5f64.to_bits()).unwrap().to_u64()
}

#[test]
fn aggregates_are_read_by_trait() {
    let desc = descriptor(InstrumentKind::ValueRecorder, NumberKind::U64);
    let mut total = sum();
    let mut spread = min_max_sum_count(&desc);
    let mut all = array();
    let mut buckets = histogram(&desc, &[4.0f64.to_bits()]);
    let mut last = last_value();
    for n in [2u64, 4, 9] {
        total.update_with_context(&now(), &Number::from(n), &desc).unwrap();
        spread.update_with_context(&now(), &Number::from(n), &desc).unwrap();
        all.update_with_context(&now(), &Number::from(n), &desc).unwrap();
        buckets.update_with_context(&now(), &Number::from(n), &desc).unwrap();
        last.update_with_context(&Context::at(n), &Number::from(n), &desc).unwrap();
    }
    total.checkpoint(&desc);
    spread.checkpoint(&desc);
    all.checkpoint(&desc);
    buckets.checkpoint(&desc);
    last.checkpoint(&desc);
    assert_eq!(total_of(&total), 15);
    assert_eq!(total_of(&spread), 15);
    assert_eq!(total_of(&all), 15);
    assert_eq!(total_of(&buckets), 15);
    assert_eq!(spread_of(&spread), (2, 9, 3));
    assert_eq!(spread_of(&all), (2, 9, 3));
    assert_eq!(median_of(&all), 4);
    assert_eq!(Points::points(&all).unwrap().len(), 3);
    assert_eq!(Histogram::histogram(&buckets).unwrap().counts(), &vec![1, 2]);
    assert_eq!(Count::count(&buckets).unwrap(), 3);
    assert_eq!(LastValue::last_value(&last).unwrap().1, 9);
}

#[test]
fn a_sample_goes_to_the_first_bucket_whose_boundary_is_above_it() {
    let desc = descriptor(InstrumentKind::ValueRecorder, NumberKind::F64);
    let agg = histogram(&desc, &[20.0f64.to_bits(), (-5.0f64).to_bits(), 10.0f64.to_bits()]);
    for (sample, want) in [
        (f64::NEG_INFINITY, 0usize),
        (-5.1, 0),
        (-5.0, 1),
        (-0.0, 1),
        (9.999, 1),
        (10.0, 2),
        (19.0, 2),
        (20.0, 3),
        (f64::INFINITY, 3),
        (f64::NAN, 3),
    ] {
        assert_eq!(agg.bucket(sample.to_bits()), want, "{sample}");
    }
}

#[test]
fn points_are_kept_sorted_and_compared() {
    let kind = NumberKind::U64;
    let mut points = opentelemetry::aggregators::array::Points::default();
    assert_eq!(points.len(), 0);
    for n in [3u64, 1, 2, 1] {
        points.push(Number::from(n));
    }
    assert_eq!(points.len(), 4);
    assert_eq!(points.get(0).to_u64(), 3);
    points.sort(&kind);
    let sorted: Vec<u64> = (0..points.len()).map(|i| points.get(i).to_u64()).collect();
    assert_eq!(sorted, vec![1, 1, 2, 3]);
    assert_eq!(points.total(&kind).to_u64(), 7);
    let mut other = opentelemetry::aggregators::array::Points::default();
    other.push(Number::from(0u64));
    other.push(Number::from(9u64));
    assert!(!points.same_as(&other));
    assert!(points.same_as(&points.clone()));
    points.combine(&kind, &other);
    let sorted: Vec<u64> = (0..points.len()).map(|i| points.get(i).to_u64()).collect();
    assert_eq!(sorted, vec![0, 1, 1, 2, 3, 9]);
    assert_eq!(points.at_position(5).unwrap().to_u64(), 9);
    assert!(matches!(points.at_position(6), Err(MetricsError::InvalidQuantile)));
    assert_eq!(points.quantile(0.5f64.to_bits()).unwrap().to_u64(), 2);
    let mut same_length = opentelemetry::aggregators::array::Points::default();
    for n in [0u64, 1, 1, 2, 3, 8] {
        same_length.push(Number::from(n));
    }
    assert!(!points.same_as(&same_length));
}

#[test]
fn a_large_array_is_sorted() {
    let desc = descriptor(InstrumentKind::ValueRecorder, NumberKind::U64);
    let mut agg = array();
    let mut state = 12345u64;
    let mut want = Vec::new();
    for _ in 0..500 {
        state = state.wrapping_mul(6364136223846793005).wrapping_add(1442695040888963407);
        let value = state >> 40;
        want.push(value);
        agg.update_with_context(&now(), &Number::from(value), &desc).unwrap();
    }
    agg.checkpoint(&desc);
    want.sort();
    let got: Vec<u64> = agg.points().unwrap().into_iter().map(|n| n.to_u64()).collect();
    assert_eq!(got, want);
    assert_eq!(agg.min().unwrap().to_u64(), want[0]);
    assert_eq!(agg.max().unwrap().to_u64(), want[499]);
    let position = (499.0f64 * 0.75).ceil() as usize;
    assert_eq!(agg.quantile(0.75f64.to_bits()).unwrap().to_u64(), want[position]);
}
