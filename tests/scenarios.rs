use hotmic::{
    Aggregator, Configuration, MessageFrame, Sample, Sink, SinkError, Snapshot, TypedMeasurement,
};
use std::sync::atomic::AtomicU64;
use std::sync::Arc;
use std::time::Duration;

const SECOND: u64 = 1_000_000_000;

fn setup() -> (Aggregator, Sink, crossbeam_channel::Receiver<MessageFrame>) {
    let agg = Configuration::new().aggregator().unwrap();
    let (tx, rx) = crossbeam_channel::bounded(1024);
    let sink = Sink::new_root(tx, agg.clock().clone(), Arc::new(AtomicU64::new(1)));
    (agg, sink, rx)
}

fn drain(agg: &mut Aggregator, rx: &crossbeam_channel::Receiver<MessageFrame>, now: u64) {
    while let Ok(frame) = rx.try_recv() {
        agg.process_msg_frame(frame, now);
    }
}

fn histogram_count(snapshot: Snapshot, name: &str, timing: bool) -> Option<u64> {
    for m in snapshot.into_vec() {
        match m {
            TypedMeasurement::TimingHistogram(n, h) if timing && n == name => return Some(h.count()),
            TypedMeasurement::ValueHistogram(n, h) if !timing && n == name => return Some(h.count()),
            _ => {},
        }
    }
    None
}

#[test]
fn simple_counter() {
    let (mut agg, sink, rx) = setup();
    sink.update_count("ok".to_string(), 5);
    sink.update_count("ok".to_string(), -2);
    sink.update_count("ok".to_string(), 1);
    drain(&mut agg, &rx, 0);
    let snapshot = agg.get_snapshot();
    assert_eq!(snapshot.into_vec(), vec![TypedMeasurement::Counter("ok".to_string(), 4)]);
}

#[test]
fn gauge_last_write_wins() {
    let (mut agg, sink, rx) = setup();
    sink.update_gauge("q".to_string(), 100);
    sink.update_gauge("q".to_string(), 7);
    drain(&mut agg, &rx, 0);
    assert_eq!(agg.get_snapshot().into_vec(), vec![TypedMeasurement::Gauge("q".to_string(), 7)]);
}

#[test]
fn scoped_naming() {
    let (mut agg, root, rx) = setup();
    let a = root.scoped("listener").unwrap().scoped("a").unwrap();
    assert_eq!(a.scope(), "listener.a");
    a.update_count("messages".to_string(), 3);
    let clone = a.clone();
    clone.increment("messages".to_string());
    root.decrement("messages".to_string());
    drain(&mut agg, &rx, 0);
    let simple = agg.get_snapshot().into_simple();
    assert_eq!(simple.count("listener.a.messages"), Some(4));
    assert_eq!(simple.count("messages"), Some(-1));
    assert_eq!(simple.count("a.messages"), None);
}

#[test]
fn scoped_sinks_get_fresh_ids() {
    let (_agg, root, _rx) = setup();
    let a = root.scoped("x").unwrap();
    let b = root.scoped("x").unwrap();
    assert_eq!(root.scope_id(), 0);
    assert!(a.scope_id() != 0 && b.scope_id() != 0 && a.scope_id() != b.scope_id());
}

#[test]
fn unregistered_scope_is_left_out() {
    let (mut agg, _sink, _rx) = setup();
    agg.process_msg_frame(MessageFrame::Data(Sample::Count((42, "n".to_string()), 1)), 0);
    assert_eq!(agg.get_snapshot().len(), 0);
    agg.process_msg_frame(MessageFrame::RegisterScope(42, "s".to_string()), 0);
    agg.process_msg_frame(MessageFrame::RegisterScope(42, "other".to_string()), 0);
    let simple = agg.get_snapshot().into_simple();
    assert_eq!(simple.count("s.n"), Some(1));
    assert_eq!(simple.count("other.n"), None);
}

#[test]
fn timing_with_count() {
    let (mut agg, sink, rx) = setup();
    let clock = sink.clock().clone();
    let start = clock.raw();
    while clock.delta_as_nanos(start, clock.raw()) < 10_000_000 {}
    let end = clock.raw();
    sink.update_timing_with_count("q".to_string(), start, end, 42);
    drain(&mut agg, &rx, 0);
    let values = agg.get_snapshot().into_vec();
    assert_eq!(values[0], TypedMeasurement::Counter("q".to_string(), 42));
    match &values[1] {
        TypedMeasurement::TimingHistogram(name, summary) => {
            assert_eq!(name, "q");
            assert_eq!(summary.count(), 1);
            let p50 = summary.histogram().hdr.value_at_percentile(50.0);
            assert!((9_000_000..=12_000_000).contains(&p50), "p50 was {}", p50);
        },
        other => panic!("expected a timing histogram, got {:?}", other),
    }
}

#[test]
fn timing_with_equal_readings_is_zero() {
    let (mut agg, sink, rx) = setup();
    sink.update_timing("t".to_string(), 500, 500);
    drain(&mut agg, &rx, 0);
    let values = agg.get_snapshot().into_vec();
    assert_eq!(values[0], TypedMeasurement::Counter("t".to_string(), 1));
    match &values[1] {
        TypedMeasurement::TimingHistogram(_, summary) => {
            assert_eq!(summary.sum(), 0);
            assert_eq!(summary.histogram().hdr.max(), 0);
        },
        other => panic!("expected a timing histogram, got {:?}", other),
    }
}

#[test]
fn timing_across_counter_rollover_is_small() {
    let (mut agg, sink, rx) = setup();
    sink.update_timing("t".to_string(), u64::MAX - 9, 10);
    drain(&mut agg, &rx, 0);
    let values = agg.get_snapshot().into_vec();
    match &values[1] {
        TypedMeasurement::TimingHistogram(_, summary) => {
            assert_eq!(summary.count(), 1);
            assert!(summary.sum() < 1_000, "sum was {}", summary.sum());
        },
        other => panic!("expected a timing histogram, got {:?}", other),
    }
}

#[test]
fn rolloff() {
    let config = Configuration::new().histogram(Duration::from_secs(5), Duration::from_secs(1));
    let mut agg = config.aggregator().unwrap();
    let (tx, rx) = crossbeam_channel::bounded(16);
    let sink = Sink::new_root(tx, agg.clock().clone(), Arc::new(AtomicU64::new(1)));
    sink.update_value("v".to_string(), 1);
    sink.update_value("v".to_string(), 2);
    drain(&mut agg, &rx, 0);
    agg.upkeep(SECOND);
    agg.upkeep(2 * SECOND);
    assert_eq!(histogram_count(agg.get_snapshot(), "v", false), Some(2));
    for t in 3..=6 {
        agg.upkeep(t * SECOND);
    }
    assert_eq!(histogram_count(agg.get_snapshot(), "v", false), Some(0));
}

#[test]
fn empty_suffix_is_refused() {
    let (_agg, root, rx) = setup();
    assert_eq!(root.scoped("").err(), Some(SinkError::InvalidScope));
    assert!(rx.try_recv().is_err());
}

#[test]
fn fresh_aggregator_has_empty_snapshot() {
    let (agg, _sink, _rx) = setup();
    assert_eq!(agg.get_snapshot().len(), 0);
}

#[test]
fn zero_granularity_has_no_aggregator() {
    let config = Configuration::new().histogram_nanos(SECOND, 0);
    assert!(config.aggregator().is_none());
}

#[test]
fn configuration_defaults() {
    let config = Configuration::new();
    assert_eq!(config.capacity, 1024);
    assert_eq!(config.batch_size, 64);
    assert_eq!(config.histogram_window, 10 * SECOND);
    assert_eq!(config.histogram_granularity, SECOND);
    let labels: Vec<&str> = config.percentiles.iter().map(|p| p.label()).collect();
    assert_eq!(labels, vec!["min", "p50", "p95", "p99", "p999", "max"]);
    let config = config.capacity(8).batch_size(2).percentiles(&[-5, 25_000_000]);
    assert_eq!(config.capacity, 8);
    assert_eq!(config.batch_size, 2);
    let labels: Vec<&str> = config.percentiles.iter().map(|p| p.label()).collect();
    assert_eq!(labels, vec!["min", "p25"]);
}

#[test]
fn scoped_sink_registers_its_scope_first() {
    let (_agg, root, rx) = setup();
    let a = root.scoped("listener").unwrap();
    match rx.try_recv() {
        Ok(MessageFrame::RegisterScope(id, scope)) => {
            assert_eq!(id, a.scope_id());
            assert_eq!(scope, "listener");
        },
        _ => panic!("expected a scope registration"),
    }
    match a.registration() {
        MessageFrame::RegisterScope(id, scope) => {
            assert_eq!(id, a.scope_id());
            assert_eq!(scope, "listener");
        },
        _ => panic!("expected a scope registration"),
    }
    let b = a.clone();
    assert_eq!(b.scope(), "listener");
    assert_eq!(b.scope_id(), a.scope_id());
    assert!(rx.try_recv().is_err());
}

#[test]
fn snapshot_sections_come_in_order() {
    let (mut agg, sink, rx) = setup();
    sink.update_value("v".to_string(), 3);
    sink.update_gauge("g".to_string(), 2);
    sink.update_timing("t".to_string(), 0, 0);
    sink.update_count("c".to_string(), 1);
    drain(&mut agg, &rx, 0);
    let kinds: Vec<&str> = agg
        .get_snapshot()
        .into_vec()
        .iter()
        .map(|m| match m {
            TypedMeasurement::Counter(..) => "counter",
            TypedMeasurement::Gauge(..) => "gauge",
            TypedMeasurement::TimingHistogram(..) => "timing",
            TypedMeasurement::ValueHistogram(..) => "value",
        })
        .collect();
    assert_eq!(kinds, vec!["counter", "counter", "gauge", "timing", "value"]);
}
