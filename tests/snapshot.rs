use hotmic::{Snapshot, TypedMeasurement, WindowedHistogram};

#[test]
fn test_snapshot_simple_set_and_get() {
    let key = "ok".to_owned();
    let mut snapshot = Snapshot::default();
    snapshot.set_count(key.clone(), 1);
    snapshot.set_gauge(key.clone(), 42);

    let values = snapshot.into_vec();

    assert_eq!(values[0], TypedMeasurement::Counter("ok".to_owned(), 1));
    assert_eq!(values[1], TypedMeasurement::Gauge("ok".to_owned(), 42));
}

#[test]
fn snapshot_keeps_timing_and_value_distributions() {
    let mut wh = WindowedHistogram::new(10_000_000_000, 1_000_000_000, 0);
    wh.update(500_000);
    wh.update(750_000);
    wh.update(1_000_000);
    wh.update(1_250_000);

    let mut snapshot = Snapshot::default();
    snapshot.set_timing_histogram("ok".to_owned(), wh.snapshot());
    snapshot.set_value_histogram("ok".to_owned(), wh.snapshot());
    let values = snapshot.into_vec();
    match &values[0] {
        TypedMeasurement::TimingHistogram(key, summary) => {
            assert_eq!(key, "ok");
            assert_eq!(summary.count(), 4);
            let p50 = summary.histogram().hdr.value_at_percentile(50.0);
            assert!((749_000..=751_000).contains(&p50));
        },
        other => panic!("expected timing histogram value! actual: {:?}", other),
    }
    match &values[1] {
        TypedMeasurement::ValueHistogram(key, summary) => {
            assert_eq!(key, "ok");
            assert_eq!(summary.count(), 4);
        },
        other => panic!("expected value histogram value! actual: {:?}", other),
    }
}

#[test]
fn simple_snapshot_last_entry_wins() {
    let mut snapshot = Snapshot::default();
    snapshot.set_count("a".to_owned(), 1);
    snapshot.set_gauge("a".to_owned(), 5);
    snapshot.set_count("a".to_owned(), 2);
    let simple = snapshot.into_simple();
    assert_eq!(simple.count("a"), Some(2));
    assert_eq!(simple.gauge("a"), Some(5));
    assert_eq!(simple.count("b"), None);
    assert_eq!(simple.gauge("b"), None);
}
