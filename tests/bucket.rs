use dipstick::bucket::AtomicBucket;
use dipstick::name::{Kind, Name};

fn lines(batch: Vec<Vec<u8>>) -> Vec<String> {
    batch.into_iter().map(|b| String::from_utf8(b).unwrap()).collect()
}

#[test]
fn counter_writes_are_all_counted() {
    let mut bucket = AtomicBucket::new().add_prefix("app");
    let hits = Name::from_str("hits");
    for _ in 0..1000 {
        bucket.write(&hits, Kind::Counter, 1);
    }
    assert_eq!(lines(bucket.flush()), vec!["app.hits 1000\n".to_string()]);
}

#[test]
fn flush_resets_sums_and_skips_idle_names() {
    let mut bucket = AtomicBucket::new();
    let hits = Name::from_str("hits");
    bucket.write(&hits, Kind::Counter, 2);
    bucket.write(&hits, Kind::Counter, 3);
    assert_eq!(lines(bucket.flush()), vec!["hits 5\n".to_string()]);
    assert!(bucket.flush().is_empty());
    bucket.write(&hits, Kind::Counter, 4);
    assert_eq!(lines(bucket.flush()), vec!["hits 4\n".to_string()]);
}

#[test]
fn gauge_reports_last_value() {
    let mut bucket = AtomicBucket::new();
    let level = Name::from_str("level");
    bucket.write(&level, Kind::Gauge, 9);
    bucket.write(&level, Kind::Gauge, 4);
    assert_eq!(lines(bucket.flush()), vec!["level 4\n".to_string()]);
}

#[test]
fn timer_and_marker_report_sums() {
    let mut bucket = AtomicBucket::new();
    let t = Name::from_str("t");
    let m = Name::from_str("m");
    bucket.write(&t, Kind::Timer, 10);
    bucket.write(&m, Kind::Marker, 1);
    bucket.write(&t, Kind::Timer, 15);
    bucket.write(&m, Kind::Marker, 1);
    assert_eq!(lines(bucket.flush()), vec!["t 25\n".to_string(), "m 2\n".to_string()]);
}

#[test]
fn same_name_different_kind_are_separate() {
    let mut bucket = AtomicBucket::new();
    let n = Name::from_str("n");
    bucket.write(&n, Kind::Counter, 1);
    bucket.write(&n, Kind::Gauge, 7);
    assert_eq!(lines(bucket.flush()), vec!["n 1\n".to_string(), "n 7\n".to_string()]);
}

#[test]
fn sums_saturate() {
    let mut bucket = AtomicBucket::new();
    let n = Name::from_str("n");
    bucket.write(&n, Kind::Counter, u64::MAX);
    bucket.write(&n, Kind::Counter, 5);
    assert_eq!(lines(bucket.flush()), vec!["n 18446744073709551615\n".to_string()]);
}

#[test]
fn empty_bucket_flushes_nothing() {
    let mut bucket = AtomicBucket::new();
    assert!(bucket.flush().is_empty());
}
