use dipstick::cache::MetricCache;
use dipstick::logging::Log;
use dipstick::name::{Kind, Name};

fn lines(batch: Vec<Vec<u8>>) -> Vec<String> {
    batch.into_iter().map(|b| String::from_utf8(b).unwrap()).collect()
}

#[test]
fn test_to_log() {
    let mut c = Log::output().open_scope();
    let m = c.new_metric(&Name::from_str("test"), Kind::Marker);
    m.write(&mut c, 33);
}

#[test]
fn unbuffered_write_is_handed_out_at_once() {
    let mut c = Log::output().open_scope();
    let m = c.new_metric(&Name::from_str("test"), Kind::Marker);
    let out = m.write(&mut c, 33);
    assert_eq!(out, Some(b"test 33\n".to_vec()));
    assert!(c.flush().is_empty());
}

#[test]
fn buffered_write_waits_for_flush() {
    let mut c = Log::output().with_buffering(true).open_scope();
    let m = c.counter("hits");
    assert_eq!(m.write(&mut c, 7), None);
    assert_eq!(m.write(&mut c, 8), None);
    assert_eq!(lines(c.flush()), vec!["hits 7\n".to_string(), "hits 8\n".to_string()]);
    assert!(c.flush().is_empty());
}

#[test]
fn routing_is_fixed_when_the_metric_is_built() {
    let c = Log::output().open_scope();
    let direct = c.counter("a");
    let mut c = c.with_buffering(true);
    let held = c.counter("b");
    assert_eq!(direct.write(&mut c, 1), Some(b"a 1\n".to_vec()));
    assert_eq!(held.write(&mut c, 2), None);
    assert_eq!(lines(c.close()), vec!["b 2\n".to_string()]);
}

#[test]
fn prefixes_compose_in_order() {
    let base = Log::output();
    let mut a = base.with_prefix("x").with_prefix("y").open_scope();
    let mut b = base.with_buffering(true).with_prefix("x").with_prefix("y").with_buffering(false).open_scope();
    let leaf = Name::from_str("leaf");
    let ma = a.new_metric(&leaf, Kind::Gauge);
    let mb = b.new_metric(&leaf, Kind::Gauge);
    assert_eq!(ma.write(&mut a, 5), Some(b"x.y.leaf 5\n".to_vec()));
    assert_eq!(mb.write(&mut b, 5), Some(b"x.y.leaf 5\n".to_vec()));
}

#[test]
fn scope_prefix_adds_to_output_prefix() {
    let mut s = Log::output().with_prefix("app").open_scope().with_prefix("db");
    let m = s.new_metric(&Name::from_str("query").with_segment("time"), Kind::Timer);
    assert_eq!(m.write(&mut s, 0), Some(b"app.db.query.time 0\n".to_vec()));
}

#[test]
fn largest_value_is_rendered_in_full() {
    let mut s = Log::output().open_scope();
    let m = s.counter("big");
    assert_eq!(m.count(&mut s, u64::MAX), Some(b"big 18446744073709551615\n".to_vec()));
}

#[test]
fn empty_name_renders_value_only() {
    let mut s = Log::output().open_scope();
    let m = s.new_metric(&Name::empty(), Kind::Counter);
    assert_eq!(m.write(&mut s, 10), Some(b" 10\n".to_vec()));
}

#[test]
fn cached_buffered_scenario() {
    let output = Log::output().with_buffering(true);
    let mut scope = output.open_scope().with_prefix("cache");
    let mut cache = MetricCache::new(5);
    let counter = cache.new_metric(&scope, &Name::from_str("blorf"), Kind::Counter);
    let marker = cache.new_metric(&scope, &Name::from_str("burg"), Kind::Marker);
    assert_eq!(counter.count(&mut scope, 1134), None);
    assert_eq!(marker.mark(&mut scope), None);
    let batch = lines(scope.flush());
    assert_eq!(batch, vec!["cache.blorf 1134\n".to_string(), "cache.burg 1\n".to_string()]);
}

#[test]
fn cache_hit_routes_like_the_first_handle() {
    let mut scope = Log::output().open_scope().with_prefix("p");
    let mut cache = MetricCache::new(2);
    let first = cache.new_metric(&scope, &Name::from_str("n"), Kind::Counter);
    let second = cache.new_metric(&scope, &Name::from_str("n"), Kind::Counter);
    assert_eq!(cache.len(), 1);
    assert_eq!(first.write(&mut scope, 3), second.write(&mut scope, 3));
    assert_eq!(second.write(&mut scope, 3), Some(b"p.n 3\n".to_vec()));
}

#[test]
fn cache_evicts_least_recently_used() {
    let scope = Log::output().open_scope();
    let mut cache = MetricCache::new(2);
    let a = Name::from_str("a");
    let b = Name::from_str("b");
    let c = Name::from_str("c");
    cache.new_metric(&scope, &a, Kind::Counter);
    cache.new_metric(&scope, &b, Kind::Counter);
    cache.new_metric(&scope, &a, Kind::Counter);
    cache.new_metric(&scope, &c, Kind::Counter);
    assert_eq!(cache.len(), 2);
    assert!(cache.holds(&a, Kind::Counter, false));
    assert!(!cache.holds(&b, Kind::Counter, false));
    assert!(cache.holds(&c, Kind::Counter, false));
}

#[test]
fn cache_tells_kinds_apart() {
    let scope = Log::output().open_scope();
    let mut cache = MetricCache::new(3);
    let a = Name::from_str("a");
    cache.new_metric(&scope, &a, Kind::Counter);
    cache.new_metric(&scope, &a, Kind::Gauge);
    assert_eq!(cache.len(), 2);
    assert!(!cache.holds(&a, Kind::Timer, false));
}

#[test]
fn cache_of_capacity_zero_holds_nothing() {
    let mut scope = Log::output().open_scope();
    let mut cache = MetricCache::new(0);
    let m = cache.new_metric(&scope, &Name::from_str("z"), Kind::Marker);
    assert_eq!(cache.len(), 0);
    assert_eq!(m.mark(&mut scope), Some(b"z 1\n".to_vec()));
}

#[test]
fn cache_after_capacity_plus_one_names() {
    let scope = Log::output().open_scope();
    let mut cache = MetricCache::new(3);
    let names = ["n0", "n1", "n2", "n3"];
    for n in names.iter() {
        cache.new_metric(&scope, &Name::from_str(n), Kind::Counter);
    }
    assert!(!cache.holds(&Name::from_str("n0"), Kind::Counter, false));
    assert!(cache.holds(&Name::from_str("n3"), Kind::Counter, false));
}

#[test]
fn observer_reports_at_each_flush() {
    let mut scope = Log::output().open_scope().with_prefix("process");
    let uptime = scope.observe("uptime");
    scope.on_flush(&uptime);
    let first = lines(scope.flush_observed(&vec![1000]));
    let second = lines(scope.flush_observed(&vec![2001]));
    assert_eq!(first, vec!["process.uptime 1000\n".to_string()]);
    assert_eq!(second, vec!["process.uptime 2001\n".to_string()]);
}

#[test]
fn observed_values_follow_pending_lines() {
    let mut scope = Log::output().with_buffering(true).open_scope();
    let threads = scope.observe("threads");
    scope.on_flush(&threads);
    let m = scope.counter("c");
    m.count(&mut scope, 4);
    let batch = lines(scope.flush_observed(&vec![2]));
    assert_eq!(batch, vec!["c 4\n".to_string(), "threads 2\n".to_string()]);
}

#[test]
fn observer_report_on_its_own_cadence() {
    let mut scope = Log::output().open_scope();
    let obs = scope.observe("threads");
    assert_eq!(obs.report(&mut scope, 2), Some(b"threads 2\n".to_vec()));
    let mut buffered = Log::output().with_buffering(true).open_scope();
    let held = buffered.observe("threads");
    assert_eq!(held.report(&mut buffered, 3), None);
    assert_eq!(lines(buffered.flush()), vec!["threads 3\n".to_string()]);
}
