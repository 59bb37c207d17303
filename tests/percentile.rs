use hotmic::percentile::{PERCENTILE_MAX, PERCENTILE_SCALE};
use hotmic::Percentile;

/// A percentile given in whole and millionth parts of a percent.
fn pct(whole: i64, millionths: i64) -> i64 {
    whole * PERCENTILE_SCALE as i64 + millionths
}

#[test]
fn test_percentiles() {
    let min_p = Percentile::from_scaled(pct(0, 0));
    assert_eq!(min_p.label(), "min");

    let max_p = Percentile::from_scaled(pct(100, 0));
    assert_eq!(max_p.label(), "max");

    let clamped_min_p = Percentile::from_scaled(pct(-20, 0));
    assert_eq!(clamped_min_p.label(), "min");
    assert_eq!(clamped_min_p.percentile(), 0);

    let clamped_max_p = Percentile::from_scaled(pct(1442, 0));
    assert_eq!(clamped_max_p.label(), "max");
    assert_eq!(clamped_max_p.percentile(), pct(100, 0) as u64);

    let p99_p = Percentile::from_scaled(pct(99, 0));
    assert_eq!(p99_p.label(), "p99");

    let p999_p = Percentile::from_scaled(pct(99, 900_000));
    assert_eq!(p999_p.label(), "p999");

    let p9999_p = Percentile::from_scaled(pct(99, 990_000));
    assert_eq!(p9999_p.label(), "p9999");
}

#[test]
fn labels_drop_the_decimal_point() {
    assert_eq!(Percentile::from_scaled(pct(50, 0)).label(), "p50");
    assert_eq!(Percentile::from_scaled(pct(0, 500_000)).label(), "p05");
    assert_eq!(Percentile::from_scaled(pct(12, 345_000)).label(), "p12345");
    assert_eq!(Percentile::from_scaled(pct(99, 999_999)).label(), "p99999999");
    assert_eq!(Percentile::from_scaled(pct(5, 50_000)).label(), "p505");
    assert_eq!(Percentile::from_scaled(1).label(), "p0000001");
}

#[test]
fn quantile_is_percentile_over_one_hundred() {
    let p = Percentile::from_scaled(pct(95, 0));
    // 0.95 in units of one hundred-millionth.
    assert_eq!(p.as_quantile(), 95_000_000);
    assert_eq!(Percentile::from_scaled(i64::MIN).as_quantile(), 0);
    assert_eq!(Percentile::from_scaled(i64::MAX).as_quantile(), PERCENTILE_MAX);
}
