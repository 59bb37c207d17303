use hotmic::{Counter, Gauge, Histogram, WindowedHistogram};

const SECOND: u64 = 1_000_000_000;

fn key(name: &str) -> (u64, String) {
    (0, name.to_string())
}

#[test]
fn test_counter_simple_update() {
    let mut counter = Counter::new();

    let key = key("foo");
    counter.update(key.clone(), 42);

    let values = counter.values();
    assert_eq!(values.len(), 1);
    assert_eq!(values[0].1, 42);
}

#[test]
fn test_gauge_simple_update() {
    let mut gauge = Gauge::new();

    let key = key("foo");
    gauge.update(key, 42);

    let values = gauge.values();
    assert_eq!(values.len(), 1);
    assert_eq!(values[0].1, 42);
}

#[test]
fn test_histogram_simple_update() {
    let mut histogram = Histogram::new(5 * SECOND, SECOND);

    let key = key("foo");
    histogram.update(key, 1245, 0);

    let values = histogram.values();
    assert_eq!(values.len(), 1);

    let hdr = &values[0].1;
    assert_eq!(hdr.histogram().hdr.len(), 1);
    assert_eq!(hdr.histogram().hdr.max(), 1245);
    assert_eq!(hdr.sum(), 1245);
}

#[test]
fn test_histogram_complex_update() {
    let mut histogram = Histogram::new(5 * SECOND, SECOND);

    let key = key("foo");
    histogram.update(key.clone(), 1245, 0);
    histogram.update(key.clone(), 213, 0);
    histogram.update(key.clone(), 1022, 0);
    histogram.update(key, 1248, 0);

    let values = histogram.values();
    assert_eq!(values.len(), 1);

    let hdr = &values[0].1;
    assert_eq!(hdr.histogram().hdr.len(), 4);
    assert_eq!(hdr.histogram().hdr.max(), 1248);
    assert_eq!(hdr.sum(), 3728);
}

#[test]
fn test_windowed_histogram_rollover() {
    let mut wh = WindowedHistogram::new(5 * SECOND, SECOND, 0);
    let now = 0;

    let snapshot = wh.snapshot();
    assert_eq!(snapshot.count(), 0);

    wh.update(1);
    wh.update(2);
    let snapshot = wh.snapshot();
    assert_eq!(snapshot.count(), 2);

    // Roll forward 3 seconds, should still have everything.
    let now = now + SECOND;
    wh.upkeep(now);
    let snapshot = wh.snapshot();
    assert_eq!(snapshot.count(), 2);

    let now = now + SECOND;
    wh.upkeep(now);
    let snapshot = wh.snapshot();
    assert_eq!(snapshot.count(), 2);

    let now = now + SECOND;
    wh.upkeep(now);
    let snapshot = wh.snapshot();
    assert_eq!(snapshot.count(), 2);

    // Pump in some new values.
    wh.update(3);
    wh.update(4);
    wh.update(5);

    let snapshot = wh.snapshot();
    assert_eq!(snapshot.count(), 5);

    // Roll forward 3 seconds, and make sure the first two values are gone.  There is one
    // bucket more than the window needs, so that there is always a clear bucket to write into.
    let now = now + SECOND;
    wh.upkeep(now);
    let snapshot = wh.snapshot();
    assert_eq!(snapshot.count(), 5);

    let now = now + SECOND;
    wh.upkeep(now);
    let snapshot = wh.snapshot();
    assert_eq!(snapshot.count(), 5);

    let now = now + SECOND;
    wh.upkeep(now);
    let snapshot = wh.snapshot();
    assert_eq!(snapshot.count(), 3);
}

#[test]
fn counter_accumulates_signed_deltas_per_key() {
    let mut counter = Counter::new();
    counter.update(key("ok"), 5);
    counter.update(key("ok"), -2);
    counter.update(key("ok"), 1);
    counter.update((7, "ok".to_string()), 10);

    let mut values = counter.values();
    values.sort();
    assert_eq!(values, vec![(key("ok"), 4), ((7, "ok".to_string()), 10)]);
}

#[test]
fn counter_wraps_on_overflow() {
    let mut counter = Counter::new();
    counter.update(key("big"), i64::MAX);
    counter.update(key("big"), 1);
    assert_eq!(counter.values()[0].1, i64::MIN);
}

#[test]
fn gauge_keeps_last_write() {
    let mut gauge = Gauge::new();
    gauge.update(key("q"), 100);
    gauge.update(key("q"), 7);
    let values = gauge.values();
    assert_eq!(values, vec![(key("q"), 7)]);
}

#[test]
fn repeated_upkeep_within_granularity_does_not_advance() {
    let mut wh = WindowedHistogram::new(2 * SECOND, SECOND, 0);
    wh.update(9);
    // Three buckets: advancing three times would clear the value.
    for _ in 0..10 {
        wh.upkeep(SECOND);
    }
    wh.upkeep(SECOND + SECOND / 2);
    assert_eq!(wh.snapshot().count(), 1);
}

#[test]
fn repeated_value_gives_equal_min_and_max() {
    let mut wh = WindowedHistogram::new(5 * SECOND, SECOND, 0);
    for _ in 0..5 {
        wh.update(7);
    }
    let snapshot = wh.snapshot();
    assert_eq!(snapshot.count(), 5);
    assert_eq!(snapshot.histogram().hdr.min(), 7);
    assert_eq!(snapshot.histogram().hdr.max(), 7);
    assert_eq!(snapshot.sum(), 35);
}

#[test]
fn recording_largest_value_saturates() {
    let mut wh = WindowedHistogram::new(5 * SECOND, SECOND, 0);
    wh.update(u64::MAX);
    let snapshot = wh.snapshot();
    assert_eq!(snapshot.count(), 1);
    assert!(snapshot.histogram().hdr.max() >= u64::MAX / 2);
    assert_eq!(snapshot.sum(), u64::MAX);
}

#[test]
fn full_rotation_empties_window() {
    let mut wh = WindowedHistogram::new(3 * SECOND, SECOND, 0);
    wh.update(1);
    wh.update(2);
    for step in 1..=3 {
        wh.upkeep(step * SECOND);
        assert_eq!(wh.snapshot().count(), 2);
    }
    wh.upkeep(4 * SECOND);
    assert_eq!(wh.snapshot().count(), 0);
}
