use opentelemetry::aggregation::Sum;
use opentelemetry::accumulator::accumulator;
use opentelemetry::aggregator::Aggregator;
use opentelemetry::context::Context;
use opentelemetry::controllers::pull::DEFAULT_CACHE_DURATION;
use opentelemetry::controllers::{pull, PushAction, PushControllerWorker, PushMessage};
use opentelemetry::descriptor::{Descriptor, InstrumentKind};
use opentelemetry::error::MetricsError;
use opentelemetry::export::Resource;
use opentelemetry::instruments::{ValueObserverBuilder, ValueRecorderBuilder};
use opentelemetry::integrator::simple;
use opentelemetry::labels::{KeyValue, Value};
use opentelemetry::number::{Number, NumberKind};
use opentelemetry::selector::Selector;

fn counter() -> Descriptor {
    Descriptor::new(
        "requests".to_string(),
        "library".to_string(),
        InstrumentKind::UpDownCounter,
        NumberKind::U64,
    )
}

fn kv(key: &str, value: i64) -> KeyValue {
    KeyValue::new(key.to_string(), Value::I64(value))
}

#[test]
fn a_pull_controller_collects_when_the_cache_is_old() {
    let mut controller = pull(Selector::Inexpensive).with_cache_period(100).build(&Context::at(1_000));
    let instrument = controller.provider().new_sync_instrument(counter()).unwrap();
    instrument
        .record_one_with_context(controller.provider(), &Context::at(1_001), Number::from(1u64), &[])
        .unwrap();
    controller.collect(&Context::at(1_050));
    assert_eq!(controller.len(), 0);
    controller.collect(&Context::at(1_100));
    assert_eq!(controller.len(), 0);
    controller.collect(&Context::at(1_101));
    assert_eq!(controller.len(), 1);
    match controller.record_at(0).aggregator {
        Aggregator::Sum(s) => assert_eq!(s.sum().unwrap().to_u64(), 1),
        other => panic!("unexpected {other:?}"),
    }
    instrument
        .record_one_with_context(controller.provider(), &Context::at(1_102), Number::from(1u64), &[])
        .unwrap();
    controller.collect(&Context::at(1_201));
    match controller.record_at(0).aggregator {
        Aggregator::Sum(s) => assert_eq!(s.sum().unwrap().to_u64(), 1),
        other => panic!("unexpected {other:?}"),
    }
    controller.collect(&Context::at(1_202));
    match controller.record_at(0).aggregator {
        Aggregator::Sum(s) => assert_eq!(s.sum().unwrap().to_u64(), 2),
        other => panic!("unexpected {other:?}"),
    }
}

#[test]
fn a_clock_set_back_makes_a_pass_due() {
    let mut controller = pull(Selector::Inexpensive).build(&Context::at(DEFAULT_CACHE_DURATION * 5));
    let instrument = controller.provider().new_sync_instrument(counter()).unwrap();
    instrument
        .record_one_with_context(controller.provider(), &Context::at(0), Number::from(1u64), &[])
        .unwrap();
    controller.collect(&Context::at(DEFAULT_CACHE_DURATION * 6));
    assert_eq!(controller.len(), 0);
    controller.collect(&Context::at(DEFAULT_CACHE_DURATION * 4));
    assert_eq!(controller.len(), 1);
}

#[test]
fn the_default_cache_period_is_ten_seconds() {
    assert_eq!(DEFAULT_CACHE_DURATION, 10_000_000_000);
    let mut controller = pull(Selector::Inexpensive)
        .with_stateful(true)
        .with_resource(Resource::new(&[kv("host", 1)]))
        .build(&Context::at(0));
    let instrument = controller.provider().new_sync_instrument(counter()).unwrap();
    instrument
        .record_one_with_context(controller.provider(), &Context::at(0), Number::from(1u64), &[])
        .unwrap();
    controller.collect(&Context::at(DEFAULT_CACHE_DURATION));
    assert_eq!(controller.len(), 0);
    controller.collect(&Context::at(DEFAULT_CACHE_DURATION + 1));
    assert_eq!(controller.len(), 1);
    assert_eq!(controller.record_at(0).resource.attributes().len(), 1);
}

#[test]
fn a_cache_period_of_zero_switches_the_cache_off() {
    let mut controller = pull(Selector::Inexpensive).with_cache_period(0).build(&Context::at(5));
    let instrument = controller.provider().new_sync_instrument(counter()).unwrap();
    instrument
        .record_one_with_context(controller.provider(), &Context::at(5), Number::from(1u64), &[])
        .unwrap();
    controller.collect(&Context::at(5));
    assert_eq!(controller.len(), 0);
    controller.collect(&Context::at(6));
    assert_eq!(controller.len(), 1);
}

fn worker(stateful: bool) -> PushControllerWorker<Selector> {
    let integrator = simple(Selector::Inexpensive, stateful);
    let meter = accumulator(&integrator).with_push(true).build();
    PushControllerWorker::new(meter, integrator)
}

#[test]
fn a_worker_exports_on_each_tick_and_once_more_at_the_end() {
    let mut worker = worker(false);
    assert_eq!(worker.poll(Some(PushMessage::Tick)), PushAction::Export);
    assert_eq!(worker.poll(Some(PushMessage::Tick)), PushAction::Export);
    assert_eq!(worker.poll(Some(PushMessage::Shutdown)), PushAction::ExportAndStop);
    assert_eq!(worker.poll(Some(PushMessage::Tick)), PushAction::Nothing);
    assert_eq!(worker.poll(Some(PushMessage::Shutdown)), PushAction::Nothing);
    assert_eq!(worker.poll(None), PushAction::Nothing);
}

#[test]
fn the_end_of_the_messages_ends_the_worker() {
    let mut worker = worker(false);
    assert_eq!(worker.poll(None), PushAction::ExportAndStop);
    assert_eq!(worker.poll(Some(PushMessage::Tick)), PushAction::Nothing);
}

#[test]
fn a_tick_collects_and_a_good_export_finishes_the_pass() {
    let mut worker = worker(false);
    let instrument = worker.provider().new_sync_instrument(counter()).unwrap();
    instrument
        .record_one_with_context(worker.provider(), &Context::at(0), Number::from(4u64), &[kv("a", 1)])
        .unwrap();
    assert!(worker.on_tick().is_empty());
    assert_eq!(worker.len(), 1);
    match worker.record_at(0).aggregator {
        Aggregator::Sum(s) => assert_eq!(s.sum().unwrap().to_u64(), 4),
        other => panic!("unexpected {other:?}"),
    }
    assert!(worker.exported(Ok(())).is_none());
    assert_eq!(worker.len(), 0);
}

#[test]
fn a_failed_export_leaves_the_batch() {
    let mut worker = worker(false);
    let instrument = worker.provider().new_sync_instrument(counter()).unwrap();
    instrument
        .record_one_with_context(worker.provider(), &Context::at(0), Number::from(4u64), &[])
        .unwrap();
    worker.on_tick();
    let handed_back = worker.exported(Err(MetricsError::IO("pipe".to_string())));
    assert!(matches!(handed_back, Some(MetricsError::IO(_))));
    assert_eq!(worker.len(), 1);
    let mut stateful = self::worker(true);
    let instrument = stateful.provider().new_sync_instrument(counter()).unwrap();
    instrument
        .record_one_with_context(stateful.provider(), &Context::at(0), Number::from(4u64), &[])
        .unwrap();
    stateful.on_tick();
    stateful.exported(Ok(()));
    assert_eq!(stateful.len(), 1);
}

#[test]
fn value_recorders_and_observers() {
    let mut integrator = simple(Selector::Exact, false);
    let mut meter = accumulator(&integrator).build();
    let recorder = ValueRecorderBuilder::new("size".to_string(), "library".to_string(), NumberKind::U64)
        .with_description("the size".to_string())
        .init(&meter);
    let observer = ValueObserverBuilder::new("load".to_string(), "library".to_string(), NumberKind::U64)
        .with_description("the load".to_string())
        .init(&mut meter);
    assert_eq!(observer.instrument, 0);
    let labels = [kv("a", 1)];
    recorder.record(&mut meter, &Context::at(0), Number::from(3u64), &labels).unwrap();
    let bound = recorder.bind(&mut meter, &labels);
    bound.record(&mut meter, 1, Number::from(1u64)).unwrap();
    bound.record_with_context(&mut meter, &Context::at(2), Number::from(2u64)).unwrap();
    let batch = vec![recorder.measurement(Number::from(7u64))];
    assert!(meter.record_batch_with_context(&Context::at(3), &labels, batch).is_empty());
    meter.collect_async(&Context::at(4), &labels, &[observer.observation(Number::from(11u64))]);
    let (checkpointed, _) = meter.collect(&mut integrator);
    assert_eq!(checkpointed, 2);
    let observed = integrator.record_at(0);
    assert_eq!(observed.descriptor.name(), "load");
    assert_eq!(observed.descriptor.description().unwrap(), "the load");
    assert_eq!(*observed.descriptor.instrument_kind(), InstrumentKind::ValueObserver);
    let recorded = integrator.record_at(1);
    assert_eq!(recorded.descriptor.description().unwrap(), "the size");
    match recorded.aggregator {
        Aggregator::Array(a) => {
            let points: Vec<u64> = opentelemetry::aggregation::Points::points(a)
                .unwrap()
                .into_iter()
                .map(|n| n.to_u64())
                .collect();
            assert_eq!(points, vec![1, 2, 3, 7]);
        }
        other => panic!("unexpected {other:?}"),
    }
    bound.unbind(&mut meter);
    integrator.finished_collection();
    meter.collect(&mut integrator);
    assert_eq!(meter.len(), 0);
}
