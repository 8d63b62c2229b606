use opentelemetry::accumulator::{accumulator, Accumulator, Measurement, Observation, SyncInstrument};
use opentelemetry::aggregation::{Count, LastValue, Max, Min, Sum};
use opentelemetry::aggregator::Aggregator;
use opentelemetry::aggregators::{array, sum};
use opentelemetry::context::Context;
use opentelemetry::descriptor::{Descriptor, InstrumentKind};
use opentelemetry::error::MetricsError;
use opentelemetry::export::{record, Record, Resource};
use opentelemetry::identity::{IdentityMap, MapKey};
use opentelemetry::integrator::{simple, SimpleIntegrator};
use opentelemetry::labels::{KeyValue, LabelSet, Value};
use opentelemetry::number::{Number, NumberKind};
use opentelemetry::selector::{AggregationSelector, Selector};
use opentelemetry::table::Table;

fn descriptor(name: &str, instrument_kind: InstrumentKind, number_kind: NumberKind) -> Descriptor {
    Descriptor::new(name.to_string(), "library".to_string(), instrument_kind, number_kind)
}

fn kv(key: &str, value: i64) -> KeyValue {
    KeyValue::new(key.to_string(), Value::I64(value))
}

fn float(value: f64) -> Number {
    Number::from(value.to_bits())
}

fn as_float(number: Number) -> f64 {
    f64::from_bits(number.to_u64())
}

fn meter_for(integrator: &SimpleIntegrator<Selector>) -> Accumulator<Selector> {
    accumulator(integrator).build()
}

fn sum_at<S: AggregationSelector>(integrator: &SimpleIntegrator<S>, at: usize) -> Number {
    match integrator.record_at(at).aggregator {
        Aggregator::Sum(s) => s.sum().unwrap(),
        other => panic!("not a sum: {other:?}"),
    }
}

#[test]
fn a_table_finds_what_was_put_in() {
    let mut table: Table<&str> = Table::new();
    assert_eq!(table.len(), 0);
    assert_eq!(table.position(7), None);
    table.push(7, "seven");
    table.push(9, "nine");
    table.push(1, "one");
    assert_eq!(table.len(), 3);
    assert_eq!(table.position(7), Some(0));
    assert_eq!(table.position(9), Some(1));
    assert_eq!(table.position(1), Some(2));
    assert_eq!(table.position(2), None);
    assert_eq!(table.key_at(1), 9);
    assert_eq!(*table.value(2), "one");
    *table.value_mut(1) = "neun";
    assert_eq!(table.replace(0, "sieben"), "seven");
    assert_eq!(*table.value(0), "sieben");
    assert_eq!(*table.value(1), "neun");
}

#[test]
fn a_table_moves_its_last_entry_into_a_gap() {
    let mut table: Table<u8> = Table::new();
    for (key, value) in [(10u64, 0u8), (20, 1), (30, 2), (40, 3)] {
        table.push(key, value);
    }
    assert_eq!(table.swap_remove(1), 1);
    assert_eq!(table.len(), 3);
    assert_eq!(table.position(20), None);
    assert_eq!(table.position(40), Some(1));
    assert_eq!(table.position(10), Some(0));
    assert_eq!(table.position(30), Some(2));
    assert_eq!(table.swap_remove(2), 2);
    assert_eq!(table.position(30), None);
    assert_eq!(table.swap_remove(0), 0);
    assert_eq!(table.position(40), Some(0));
    assert_eq!(table.swap_remove(0), 3);
    assert_eq!(table.len(), 0);
    table.push(20, 9);
    assert_eq!(table.position(20), Some(0));
    table.clear();
    assert_eq!(table.position(20), None);
    assert_eq!(table.len(), 0);
}

fn key(a: u64, b: u64) -> MapKey {
    MapKey { descriptor_hash: a, ordered_hash: b }
}

#[test]
fn an_identity_map_finds_what_was_put_in() {
    let mut map: IdentityMap<&str> = IdentityMap::new();
    assert_eq!(map.len(), 0);
    assert_eq!(map.position(key(1, 2)), None);
    map.push(key(1, 2), "a");
    map.push(key(2, 1), "b");
    map.push(key(1, 3), "c");
    assert_eq!(map.position(key(1, 2)), Some(0));
    assert_eq!(map.position(key(2, 1)), Some(1));
    assert_eq!(map.position(key(1, 3)), Some(2));
    assert_eq!(map.position(key(3, 1)), None);
    assert_eq!(map.key_at(2), key(1, 3));
    assert_eq!(*map.value(1), "b");
    *map.value_mut(1) = "B";
    assert_eq!(*map.value(1), "B");
}

#[test]
fn an_identity_map_moves_its_last_entry_into_a_gap() {
    let mut map: IdentityMap<u8> = IdentityMap::new();
    for n in 0..5u8 {
        map.push(key(n as u64, 0), n);
    }
    assert_eq!(map.swap_remove(1), 1);
    assert_eq!(map.position(key(1, 0)), None);
    assert_eq!(map.position(key(4, 0)), Some(1));
    assert_eq!(map.position(key(3, 0)), Some(3));
    assert_eq!(map.swap_remove(3), 3);
    assert_eq!(map.position(key(3, 0)), None);
    assert_eq!(map.len(), 3);
    map.push(key(1, 0), 7);
    assert_eq!(map.position(key(1, 0)), Some(3));
    assert_eq!(*map.value(3), 7);
}

#[test]
fn the_selectors_choose_by_instrument_kind() {
    let recorder = descriptor("r", InstrumentKind::ValueRecorder, NumberKind::F64);
    let observer = descriptor("o", InstrumentKind::ValueObserver, NumberKind::F64);
    let adding = [
        InstrumentKind::Counter,
        InstrumentKind::UpDownCounter,
        InstrumentKind::SumObserver,
        InstrumentKind::UpDownSumObserver,
    ];
    for selector in [Selector::Inexpensive, Selector::Exact, Selector::Histogram(vec![1.0f64.to_bits()])] {
        for kind in adding {
            let desc = descriptor("c", kind, NumberKind::F64);
            assert!(matches!(selector.aggregator_for(&desc), Some(Aggregator::Sum(_))));
        }
    }
    for desc in [&recorder, &observer] {
        assert!(matches!(Selector::Inexpensive.aggregator_for(desc), Some(Aggregator::MinMaxSumCount(_))));
        assert!(matches!(Selector::Exact.aggregator_for(desc), Some(Aggregator::Array(_))));
        assert!(matches!(
            Selector::Histogram(vec![2.0f64.to_bits(), 1.0f64.to_bits()]).aggregator_for(desc),
            Some(Aggregator::Histogram(_))
        ));
    }
}

fn checkpointed_sum(desc: &Descriptor, value: u64) -> Aggregator {
    let mut agg = Aggregator::Sum(sum());
    agg.update_with_context(&Context::at(0), &Number::from(value), desc).unwrap();
    agg.checkpoint(desc);
    agg
}

#[test]
fn the_integrator_merges_records_of_one_identity() {
    let desc = descriptor("requests", InstrumentKind::UpDownCounter, NumberKind::U64);
    let labels = LabelSet::from(&[kv("a", 1)]);
    let other_labels = LabelSet::from(&[kv("a", 2)]);
    let resource = Resource::default();
    let mut integrator = simple(Selector::Inexpensive, false);
    let first = checkpointed_sum(&desc, 3);
    let second = checkpointed_sum(&desc, 4);
    let third = checkpointed_sum(&desc, 10);
    integrator.process(record(&desc, &labels, &resource, &first)).unwrap();
    assert_eq!(integrator.len(), 1);
    integrator.process(record(&desc, &labels, &resource, &second)).unwrap();
    assert_eq!(integrator.len(), 1);
    integrator.process(Record::new(&desc, &other_labels, &resource, &third)).unwrap();
    assert_eq!(integrator.len(), 2);
    assert_eq!(sum_at(&integrator, 0).to_u64(), 7);
    assert_eq!(sum_at(&integrator, 1).to_u64(), 10);
    let exported = integrator.record_at(1);
    assert_eq!(exported.descriptor().name(), "requests");
    assert_eq!(exported.labels().iter()[0].key, "a");
    assert!(exported.resource().attributes().is_empty());
    assert!(matches!(exported.aggregator(), Aggregator::Sum(_)));
}

#[test]
fn an_integrator_that_is_not_stateful_forgets_after_the_pass() {
    let desc = descriptor("requests", InstrumentKind::UpDownCounter, NumberKind::U64);
    let labels = LabelSet::default();
    let resource = Resource::default();
    let mut integrator = simple(Selector::Inexpensive, false);
    integrator.process(record(&desc, &labels, &resource, &checkpointed_sum(&desc, 3))).unwrap();
    integrator.finished_collection();
    assert_eq!(integrator.len(), 0);
    integrator.process(record(&desc, &labels, &resource, &checkpointed_sum(&desc, 4))).unwrap();
    assert_eq!(sum_at(&integrator, 0).to_u64(), 4);
}

#[test]
fn a_stateful_integrator_adds_up_from_pass_to_pass() {
    let desc = descriptor("requests", InstrumentKind::UpDownCounter, NumberKind::U64);
    let labels = LabelSet::default();
    let resource = Resource::new(&[kv("host", 1)]);
    let mut integrator = simple(Selector::Inexpensive, true);
    integrator.process(record(&desc, &labels, &resource, &checkpointed_sum(&desc, 3))).unwrap();
    integrator.finished_collection();
    assert_eq!(integrator.len(), 1);
    integrator.process(record(&desc, &labels, &resource, &checkpointed_sum(&desc, 4))).unwrap();
    integrator.finished_collection();
    assert_eq!(sum_at(&integrator, 0).to_u64(), 7);
    assert_eq!(integrator.record_at(0).resource.attributes().len(), 1);
}

#[test]
fn the_integrator_refuses_a_record_of_another_shape() {
    let desc = descriptor("requests", InstrumentKind::UpDownCounter, NumberKind::U64);
    let labels = LabelSet::default();
    let resource = Resource::default();
    let odd = Aggregator::Array(array());
    let mut stateful = simple(Selector::Inexpensive, true);
    let refused = stateful.process(record(&desc, &labels, &resource, &odd));
    assert!(matches!(refused, Err(MetricsError::InconsistentMergeError(_))));
    assert_eq!(stateful.len(), 0);
    let mut plain = simple(Selector::Inexpensive, false);
    plain.process(record(&desc, &labels, &resource, &checkpointed_sum(&desc, 3))).unwrap();
    let refused = plain.process(record(&desc, &labels, &resource, &odd));
    assert!(matches!(refused, Err(MetricsError::InconsistentMergeError(_))));
    assert_eq!(plain.len(), 1);
    assert_eq!(sum_at(&plain, 0).to_u64(), 3);
}

#[test]
fn labels_in_any_order_lead_to_one_record() {
    let integrator = simple(Selector::Inexpensive, false);
    let mut meter = meter_for(&integrator);
    let instrument = meter
        .new_sync_instrument(descriptor("requests", InstrumentKind::UpDownCounter, NumberKind::U64))
        .unwrap();
    let one = instrument.acquire_handle(&mut meter, &[kv("a", 1), kv("b", 2)]);
    let other = instrument.acquire_handle(&mut meter, &[kv("b", 2), kv("a", 1)]);
    assert_eq!(one, other);
    assert_eq!(meter.len(), 1);
    let third = instrument.acquire_handle(&mut meter, &[kv("a", 1), kv("b", 3)]);
    assert_ne!(one, third);
    assert_eq!(meter.len(), 2);
    let cx = Context::at(0);
    instrument.record_one_with_context(&mut meter, &cx, Number::from(1u64), &[kv("a", 1), kv("b", 2)]).unwrap();
    instrument.record_one_with_context(&mut meter, &cx, Number::from(1u64), &[kv("b", 2), kv("a", 1)]).unwrap();
    assert_eq!(meter.len(), 2);
    assert_eq!(meter.get(one).unwrap().update_count.to_u64(), 2);
    assert_eq!(meter.get(third).unwrap().update_count.to_u64(), 0);
}

#[test]
fn another_instrument_has_records_of_its_own() {
    let integrator = simple(Selector::Inexpensive, false);
    let mut meter = meter_for(&integrator);
    let one = SyncInstrument { descriptor: descriptor("a", InstrumentKind::UpDownCounter, NumberKind::U64) };
    let other = SyncInstrument { descriptor: descriptor("b", InstrumentKind::UpDownCounter, NumberKind::U64) };
    let first = one.acquire_handle(&mut meter, &[kv("k", 1)]);
    let second = other.acquire_handle(&mut meter, &[kv("k", 1)]);
    assert_ne!(first, second);
    assert_eq!(first.ordered_hash, second.ordered_hash);
    assert_eq!(meter.len(), 2);
}

#[test]
fn a_refused_measurement_changes_nothing() {
    let mut integrator = simple(Selector::Inexpensive, false);
    let mut meter = meter_for(&integrator);
    let counter = meter
        .new_sync_instrument(descriptor("requests", InstrumentKind::Counter, NumberKind::F64))
        .unwrap();
    let cx = Context::at(0);
    counter.record_one_with_context(&mut meter, &cx, float(5.0), &[]).unwrap();
    let refused = counter.record_one_with_context(&mut meter, &cx, float(-1.0), &[]);
    assert!(matches!(refused, Err(MetricsError::NegativeInput)));
    let refused = counter.record_one_with_context(&mut meter, &cx, float(f64::NAN), &[]);
    assert!(matches!(refused, Err(MetricsError::NaNInput)));
    let key = counter.acquire_handle(&mut meter, &[]);
    assert_eq!(meter.get(key).unwrap().update_count.to_u64(), 1);
    let (checkpointed, errors) = meter.collect(&mut integrator);
    assert_eq!(checkpointed, 1);
    assert!(errors.is_empty());
    assert_eq!(as_float(sum_at(&integrator, 0)), 5.0);
}

#[test]
fn a_pass_collects_what_changed_and_drops_what_did_not() {
    let mut integrator = simple(Selector::Inexpensive, false);
    let mut meter = meter_for(&integrator);
    let instrument = meter
        .new_sync_instrument(descriptor("requests", InstrumentKind::UpDownCounter, NumberKind::U64))
        .unwrap();
    let cx = Context::at(0);
    for (label, value) in [(1, 10u64), (2, 20), (3, 30)] {
        instrument.record_one_with_context(&mut meter, &cx, Number::from(value), &[kv("k", label)]).unwrap();
    }
    assert_eq!(meter.current_epoch(), 0);
    let (checkpointed, errors) = meter.collect(&mut integrator);
    assert_eq!((checkpointed, errors.len()), (3, 0));
    assert_eq!(meter.current_epoch(), 1);
    assert_eq!(meter.len(), 3);
    assert_eq!(integrator.len(), 3);
    let mut sums: Vec<u64> = (0..3).map(|i| sum_at(&integrator, i).to_u64()).collect();
    sums.sort();
    assert_eq!(sums, vec![10, 20, 30]);
    integrator.finished_collection();
    instrument.record_one_with_context(&mut meter, &cx, Number::from(5u64), &[kv("k", 2)]).unwrap();
    let (checkpointed, _) = meter.collect(&mut integrator);
    assert_eq!(checkpointed, 1);
    assert_eq!(meter.len(), 1);
    assert_eq!(integrator.len(), 1);
    assert_eq!(sum_at(&integrator, 0).to_u64(), 5);
    assert_eq!(integrator.record_at(0).labels.iter()[0].key, "k");
    integrator.finished_collection();
    let (checkpointed, _) = meter.collect(&mut integrator);
    assert_eq!(checkpointed, 0);
    assert_eq!(meter.len(), 0);
    assert_eq!(meter.current_epoch(), 3);
}

#[test]
fn a_bound_instrument_keeps_its_record() {
    let mut integrator = simple(Selector::Inexpensive, false);
    let mut meter = meter_for(&integrator);
    let instrument = meter
        .new_sync_instrument(descriptor("requests", InstrumentKind::UpDownCounter, NumberKind::U64))
        .unwrap();
    let bound = instrument.bind(&mut meter, &[kv("k", 1)]);
    let key = bound.key;
    assert_eq!(meter.get(key).unwrap().handles, 1);
    meter.collect(&mut integrator);
    meter.collect(&mut integrator);
    assert_eq!(meter.len(), 1);
    bound.record_one_with_context(&mut meter, &Context::at(0), Number::from(2u64)).unwrap();
    let (checkpointed, _) = meter.collect(&mut integrator);
    assert_eq!(checkpointed, 1);
    bound.unbind(&mut meter);
    assert_eq!(meter.get(key).unwrap().handles, 0);
    meter.collect(&mut integrator);
    assert_eq!(meter.len(), 0);
    assert!(meter.get(key).is_none());
}

#[test]
fn a_batch_records_each_measurement_on_its_instrument() {
    let mut integrator = simple(Selector::Inexpensive, false);
    let mut meter = meter_for(&integrator);
    let counter = descriptor("count", InstrumentKind::Counter, NumberKind::F64);
    let gauge = descriptor("size", InstrumentKind::ValueRecorder, NumberKind::F64);
    let batch = vec![
        Measurement { number: float(1.0), instrument: SyncInstrument { descriptor: counter.clone() } },
        Measurement { number: float(-1.0), instrument: SyncInstrument { descriptor: counter.clone() } },
        Measurement { number: float(-7.0), instrument: SyncInstrument { descriptor: gauge.clone() } },
        Measurement { number: float(2.0), instrument: SyncInstrument { descriptor: counter.clone() } },
    ];
    let errors = meter.record_batch_with_context(&Context::at(0), &[kv("k", 1)], batch);
    assert_eq!(errors.len(), 1);
    assert!(matches!(errors[0], MetricsError::NegativeInput));
    assert_eq!(meter.len(), 2);
    let (checkpointed, _) = meter.collect(&mut integrator);
    assert_eq!(checkpointed, 2);
    for at in 0..2 {
        let exported = integrator.record_at(at);
        match exported.aggregator {
            Aggregator::Sum(s) => assert_eq!(as_float(s.sum().unwrap()), 3.0),
            Aggregator::MinMaxSumCount(m) => {
                assert_eq!(as_float(m.min().unwrap()), -7.0);
                assert_eq!(as_float(m.max().unwrap()), -7.0);
                assert_eq!(m.count().unwrap(), 1);
            }
            other => panic!("unexpected {other:?}"),
        }
    }
}

#[test]
fn three_callers_one_counter() {
    let mut integrator = simple(Selector::Inexpensive, true);
    let mut meter = accumulator(&integrator).with_push(false).with_resource(Resource::default()).build();
    let counter = meter
        .new_sync_instrument(descriptor("requests", InstrumentKind::Counter, NumberKind::F64))
        .unwrap();
    let labels = [kv("route", 1), kv("method", 2)];
    for _caller in 0..3 {
        counter.record_one_with_context(&mut meter, &Context::at(0), float(1.0), &labels).unwrap();
    }
    let (checkpointed, errors) = meter.collect(&mut integrator);
    assert_eq!((checkpointed, errors.len()), (1, 0));
    assert_eq!(integrator.len(), 1);
    assert_eq!(as_float(sum_at(&integrator, 0)), 3.0);
    integrator.finished_collection();
    let (checkpointed, errors) = meter.collect(&mut integrator);
    assert_eq!((checkpointed, errors.len()), (0, 0));
    assert_eq!(integrator.len(), 1);
    assert_eq!(as_float(sum_at(&integrator, 0)), 3.0);
    integrator.finished_collection();
    assert_eq!(integrator.len(), 1);
}

fn last_value_selector_result(integrator: &SimpleIntegrator<Selector>, at: usize) -> (f64, f64, u64) {
    match integrator.record_at(at).aggregator {
        Aggregator::MinMaxSumCount(m) => {
            (as_float(m.min().unwrap()), as_float(m.max().unwrap()), m.count().unwrap())
        }
        other => panic!("unexpected {other:?}"),
    }
}

#[test]
fn of_several_observations_in_a_pass_the_last_counts() {
    let mut integrator = simple(Selector::Inexpensive, false);
    let mut meter = meter_for(&integrator);
    let observer = meter
        .new_async_instrument(descriptor("load", InstrumentKind::ValueObserver, NumberKind::F64))
        .unwrap();
    assert_eq!(observer, 0);
    let cx = Context::at(0);
    let errors = meter.collect_async(
        &cx,
        &[kv("cpu", 0)],
        &[Observation::new(float(1.0), observer), Observation::new(float(2.0), observer)],
    );
    assert!(errors.is_empty());
    let errors = meter.collect_async(&cx, &[kv("cpu", 1)], &[Observation::new(float(9.0), observer)]);
    assert!(errors.is_empty());
    let (checkpointed, errors) = meter.collect(&mut integrator);
    assert_eq!((checkpointed, errors.len()), (2, 0));
    assert_eq!(integrator.len(), 2);
    assert_eq!(last_value_selector_result(&integrator, 0), (2.0, 2.0, 1));
    assert_eq!(last_value_selector_result(&integrator, 1), (9.0, 9.0, 1));
}

#[test]
fn a_label_set_is_dropped_in_the_second_pass_that_does_not_observe_it() {
    let mut integrator = simple(Selector::Inexpensive, false);
    let mut meter = meter_for(&integrator);
    let observer = meter
        .new_async_instrument(descriptor("load", InstrumentKind::ValueObserver, NumberKind::F64))
        .unwrap();
    let cx = Context::at(0);
    meter.collect_async(&cx, &[kv("cpu", 0)], &[Observation::new(float(1.0), observer)]);
    meter.collect_async(&cx, &[kv("cpu", 1)], &[Observation::new(float(2.0), observer)]);
    assert_eq!(meter.async_instrument(observer).unwrap().len(), 2);
    let (checkpointed, _) = meter.collect(&mut integrator);
    assert_eq!(checkpointed, 2);
    assert_eq!(meter.async_instrument(observer).unwrap().len(), 2);
    integrator.finished_collection();
    meter.collect_async(&cx, &[kv("cpu", 1)], &[Observation::new(float(3.0), observer)]);
    let (checkpointed, _) = meter.collect(&mut integrator);
    assert_eq!(checkpointed, 1);
    assert_eq!(integrator.len(), 1);
    assert_eq!(last_value_selector_result(&integrator, 0), (3.0, 3.0, 1));
    assert_eq!(meter.async_instrument(observer).unwrap().len(), 2);
    integrator.finished_collection();
    let (checkpointed, _) = meter.collect(&mut integrator);
    assert_eq!(checkpointed, 0);
    assert_eq!(integrator.len(), 0);
    let left = meter.async_instrument(observer).unwrap();
    assert_eq!(left.len(), 1);
    assert_eq!(left.recorder_at(0).observed_epoch, 1);
    assert_eq!(left.recorder_at(0).labels.iter()[0].key, "cpu");
    let (checkpointed, _) = meter.collect(&mut integrator);
    assert_eq!(checkpointed, 0);
    assert_eq!(meter.async_instrument(observer).unwrap().len(), 0);
    assert!(meter.async_instrument(observer + 1).is_none());
    assert_eq!(meter.async_instrument(observer).unwrap().descriptor().name(), "load");
}

#[test]
fn a_label_set_that_skips_one_pass_keeps_its_recorder() {
    let mut integrator = simple(Selector::Inexpensive, false);
    let mut meter = meter_for(&integrator);
    let observer = meter
        .new_async_instrument(descriptor("load", InstrumentKind::ValueObserver, NumberKind::F64))
        .unwrap();
    let cx = Context::at(0);
    meter.collect_async(&cx, &[kv("cpu", 0)], &[Observation::new(float(1.0), observer)]);
    meter.collect(&mut integrator);
    integrator.finished_collection();
    meter.collect(&mut integrator);
    assert_eq!(meter.async_instrument(observer).unwrap().len(), 1);
    assert_eq!(meter.current_epoch(), 2);
    meter.collect_async(&cx, &[kv("cpu", 0)], &[Observation::new(float(5.0), observer)]);
    assert_eq!(meter.async_instrument(observer).unwrap().len(), 1);
    assert_eq!(meter.async_instrument(observer).unwrap().recorder_at(0).observed_epoch, 2);
    let (checkpointed, _) = meter.collect(&mut integrator);
    assert_eq!(checkpointed, 1);
    assert_eq!(last_value_selector_result(&integrator, 0), (5.0, 5.0, 1));
}

#[test]
fn a_refused_observation_changes_nothing() {
    let mut integrator = simple(Selector::Inexpensive, false);
    let mut meter = meter_for(&integrator);
    let observer = meter
        .new_async_instrument(descriptor("total", InstrumentKind::SumObserver, NumberKind::F64))
        .unwrap();
    let errors = meter.collect_async(
        &Context::at(0),
        &[],
        &[
            Observation::new(float(-1.0), observer),
            Observation::new(float(f64::NAN), observer),
            Observation::new(float(1.0), observer + 1),
        ],
    );
    assert_eq!(errors.len(), 2);
    assert!(matches!(errors[0], MetricsError::NegativeInput));
    assert!(matches!(errors[1], MetricsError::NaNInput));
    let (checkpointed, _) = meter.collect(&mut integrator);
    assert_eq!(checkpointed, 0);
    meter.collect_async(&Context::at(0), &[], &[Observation::new(float(4.0), observer)]);
    let (checkpointed, _) = meter.collect(&mut integrator);
    assert_eq!(checkpointed, 1);
    assert_eq!(as_float(sum_at(&integrator, 0)), 4.0);
}

#[test]
fn observers_are_collected_before_recorders() {
    let mut integrator = simple(Selector::Exact, false);
    let mut meter = meter_for(&integrator);
    let recorder = meter
        .new_sync_instrument(descriptor("size", InstrumentKind::ValueRecorder, NumberKind::U64))
        .unwrap();
    let observer = meter
        .new_async_instrument(descriptor("load", InstrumentKind::ValueObserver, NumberKind::U64))
        .unwrap();
    recorder.record_one_with_context(&mut meter, &Context::at(1), Number::from(5u64), &[]).unwrap();
    meter.collect_async(&Context::at(2), &[], &[Observation::new(Number::from(6u64), observer)]);
    let (checkpointed, _) = meter.collect(&mut integrator);
    assert_eq!(checkpointed, 2);
    assert_eq!(integrator.record_at(0).descriptor.name(), "load");
    assert_eq!(integrator.record_at(1).descriptor.name(), "size");
    match integrator.record_at(1).aggregator {
        Aggregator::Array(a) => assert_eq!(a.count().unwrap(), 1),
        other => panic!("unexpected {other:?}"),
    }
}

#[test]
fn last_values_travel_through_the_integrator() {
    let desc = descriptor("gauge", InstrumentKind::ValueObserver, NumberKind::F64);
    let labels = LabelSet::default();
    let resource = Resource::default();
    let mut integrator = simple(Selector::Inexpensive, false);
    let mut early = Aggregator::LastValue(opentelemetry::aggregators::last_value());
    let mut late = Aggregator::LastValue(opentelemetry::aggregators::last_value());
    early.update_with_context(&Context::at(1), &float(1.0), &desc).unwrap();
    late.update_with_context(&Context::at(2), &float(2.0), &desc).unwrap();
    early.checkpoint(&desc);
    late.checkpoint(&desc);
    integrator.process(record(&desc, &labels, &resource, &late)).unwrap();
    integrator.process(record(&desc, &labels, &resource, &early)).unwrap();
    match integrator.record_at(0).aggregator {
        Aggregator::LastValue(l) => {
            let (value, time) = l.last_value().unwrap();
            assert_eq!((as_float(value), time), (2.0, 2));
        }
        other => panic!("unexpected {other:?}"),
    }
}

#[test]
fn every_record_is_shown_up_to_the_first_failure() {
    let desc = descriptor("requests", InstrumentKind::UpDownCounter, NumberKind::U64);
    let resource = Resource::default();
    let mut integrator = simple(Selector::Inexpensive, false);
    for label in 0..4 {
        let labels = LabelSet::from(&[kv("k", label)]);
        integrator.process(record(&desc, &labels, &resource, &checkpointed_sum(&desc, label as u64))).unwrap();
    }
    let seen = std::cell::RefCell::new(Vec::new());
    let all = integrator.try_for_each(&|shown: &Record| {
        seen.borrow_mut().push(match shown.aggregator {
            Aggregator::Sum(s) => s.sum().unwrap().to_u64(),
            _ => u64::MAX,
        });
        Ok(())
    });
    assert!(all.is_ok());
    assert_eq!(*seen.borrow(), vec![0, 1, 2, 3]);
    seen.borrow_mut().clear();
    let stopped = integrator.try_for_each(&|shown: &Record| {
        let value = match shown.aggregator {
            Aggregator::Sum(s) => s.sum().unwrap().to_u64(),
            _ => u64::MAX,
        };
        seen.borrow_mut().push(value);
        if value == 2 {
            Err(MetricsError::Other("two".to_string()))
        } else {
            Ok(())
        }
    });
    assert!(matches!(stopped, Err(MetricsError::Other(_))));
    assert_eq!(*seen.borrow(), vec![0, 1, 2]);
}

struct CountersOnly;

impl AggregationSelector for CountersOnly {
    fn selection(&self, _descriptor: Descriptor) -> Option<opentelemetry::aggregator::AggregatorView> {
        unreachable!("read by the verifier alone")
    }

    fn aggregator_for(&self, descriptor: &Descriptor) -> Option<Aggregator> {
        match descriptor.instrument_kind() {
            InstrumentKind::Counter => Some(Aggregator::Sum(sum())),
            _ => None,
        }
    }
}

#[test]
fn an_instrument_without_aggregator_is_switched_off() {
    let mut integrator = simple(CountersOnly, true);
    let mut meter = accumulator(&integrator).build();
    let counter = meter
        .new_sync_instrument(descriptor("requests", InstrumentKind::Counter, NumberKind::F64))
        .unwrap();
    let recorder = meter
        .new_sync_instrument(descriptor("size", InstrumentKind::ValueRecorder, NumberKind::F64))
        .unwrap();
    let cx = Context::at(0);
    counter.record_one_with_context(&mut meter, &cx, float(1.0), &[]).unwrap();
    recorder.record_one_with_context(&mut meter, &cx, float(1.0), &[]).unwrap();
    let refused = recorder.record_one_with_context(&mut meter, &cx, float(f64::NAN), &[]);
    assert!(matches!(refused, Err(MetricsError::NaNInput)));
    assert_eq!(meter.len(), 2);
    let key = recorder.acquire_handle(&mut meter, &[]);
    assert!(meter.get(key).unwrap().recorder.is_none());
    assert_eq!(meter.get(key).unwrap().update_count.to_u64(), 0);
    let (checkpointed, errors) = meter.collect(&mut integrator);
    assert_eq!((checkpointed, errors.len()), (1, 0));
    assert_eq!(integrator.len(), 1);
    assert_eq!(meter.len(), 1);
    assert_eq!(as_float(sum_at(&integrator, 0)), 1.0);
}

#[test]
fn a_stateful_integrator_without_aggregator_of_its_own_keeps_the_record_s() {
    let desc = descriptor("size", InstrumentKind::ValueRecorder, NumberKind::U64);
    let labels = LabelSet::default();
    let resource = Resource::default();
    let mut integrator = simple(CountersOnly, true);
    integrator.process(record(&desc, &labels, &resource, &checkpointed_sum(&desc, 3))).unwrap();
    integrator.process(record(&desc, &labels, &resource, &checkpointed_sum(&desc, 4))).unwrap();
    assert_eq!(integrator.len(), 1);
    assert_eq!(sum_at(&integrator, 0).to_u64(), 7);
    assert!(matches!(integrator.aggregation_selector().aggregator_for(&desc), None));
}

#[test]
fn a_recorder_is_checkpointed_and_handed_over() {
    let desc = descriptor("requests", InstrumentKind::UpDownCounter, NumberKind::U64);
    let labels = LabelSet::from(&[kv("a", 1)]);
    let resource = Resource::default();
    let mut integrator = simple(Selector::Inexpensive, false);
    let mut recorder = Some(Aggregator::Sum(sum()));
    recorder.as_mut().unwrap().update_with_context(&Context::at(0), &Number::from(8u64), &desc).unwrap();
    let (checkpointed, refused) =
        opentelemetry::accumulator::checkpoint(&desc, &mut recorder, &labels, &resource, &mut integrator);
    assert_eq!(checkpointed, 1);
    assert!(refused.is_none());
    assert_eq!(sum_at(&integrator, 0).to_u64(), 8);
    match recorder.as_ref().unwrap() {
        Aggregator::Sum(s) => {
            assert_eq!(s.current.to_u64(), 0);
            assert_eq!(s.checkpoint.to_u64(), 8);
        }
        other => panic!("unexpected {other:?}"),
    }
    let mut off: Option<Aggregator> = None;
    let (checkpointed, refused) =
        opentelemetry::accumulator::checkpoint(&desc, &mut off, &labels, &resource, &mut integrator);
    assert_eq!(checkpointed, 0);
    assert!(refused.is_none());
    assert_eq!(integrator.len(), 1);
    let mut odd = Some(Aggregator::Array(array()));
    let (checkpointed, refused) =
        opentelemetry::accumulator::checkpoint(&desc, &mut odd, &labels, &resource, &mut integrator);
    assert_eq!(checkpointed, 1);
    assert!(matches!(refused, Some(MetricsError::InconsistentMergeError(_))));
    assert_eq!(sum_at(&integrator, 0).to_u64(), 8);
}
