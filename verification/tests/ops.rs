use rust_learn::rust28_ops::{health_status, liveness, Health, Metrics};
use std::time::Duration;

#[test]
fn liveness_does_not_depend_on_dependencies() {
    assert_eq!(liveness(), Health::Live);
    assert_eq!(liveness().status_code(), 200);
    assert!(!liveness().is_ready(), "存活不等于就绪");
}

#[test]
fn readiness_requires_every_dependency() {
    assert_eq!(health_status(true, true), Health::Ready);
    assert_eq!(health_status(true, true).status_code(), 200);
    assert!(health_status(true, true).is_ready());

    assert_eq!(health_status(true, false), Health::Degraded);
    assert_eq!(health_status(false, true), Health::Degraded);
    assert_eq!(health_status(false, false).status_code(), 503);
    assert!(!health_status(true, false).is_ready());
}

#[test]
fn metrics_count_requests_and_errors() {
    let mut metrics = Metrics::default();
    metrics.record(true, Duration::from_millis(10));
    metrics.record(false, Duration::from_millis(20));

    assert_eq!(metrics.requests(), 2);
    assert_eq!(metrics.errors(), 1);
}

#[test]
fn empty_metrics_do_not_divide_by_zero() {
    let metrics = Metrics::default();
    assert_eq!(metrics.percentile_ms(95), None);
    assert_eq!(metrics.requests(), 0);
    assert_eq!(metrics.errors(), 0);
}

#[test]
fn percentile_uses_the_nearest_rank() {
    let mut metrics = Metrics::default();
    for millis in [10_u64, 20, 30, 40, 50, 60, 70, 80, 90, 100] {
        metrics.record(true, Duration::from_millis(millis));
    }
    assert_eq!(metrics.percentile_ms(50), Some(50));
    assert_eq!(metrics.percentile_ms(95), Some(100));
    assert_eq!(metrics.percentile_ms(100), Some(100));
    assert_eq!(metrics.percentile_ms(1), Some(10));
    assert_eq!(metrics.percentile_ms(0), Some(10), "越界输入被夹到 1");
}

#[test]
fn percentile_ignores_recording_order() {
    let mut metrics = Metrics::default();
    for millis in [500_u64, 10, 40, 20, 30] {
        metrics.record(millis != 500, Duration::from_millis(millis));
    }
    assert_eq!(metrics.percentile_ms(95), Some(500));
    assert_eq!(metrics.percentile_ms(40), Some(20));
    assert_eq!(metrics.percentile_ms(200), Some(500));
    assert_eq!(metrics.errors(), 1);
}

#[test]
fn percentile_grows_with_the_percent() {
    let mut metrics = Metrics::default();
    for millis in [7_u64, 3, 9, 1] {
        metrics.record_millis(true, millis);
    }
    let mut last = 0;
    for percent in 0..=100u8 {
        let p = metrics.percentile_ms(percent).unwrap();
        assert!(p >= last);
        last = p;
    }
}
