use dipstick::schedule::ScheduleFlushHandle;

#[test]
fn first_flush_after_one_period() {
    let mut s = ScheduleFlushHandle::new(1000, 100);
    assert_eq!(s.wait_from(1000), Some(100));
    assert!(!s.on_tick(1000));
    assert!(!s.on_tick(1099));
    assert!(s.on_tick(1100));
    assert!(!s.on_tick(1150));
    assert!(s.on_tick(1200));
}

#[test]
fn late_tick_skips_missed_periods() {
    let mut s = ScheduleFlushHandle::new(0, 100);
    assert!(s.on_tick(450));
    assert_eq!(s.next_due, 550);
    assert_eq!(s.wait_from(500), Some(50));
    assert_eq!(s.wait_from(600), Some(0));
}

#[test]
fn no_flush_after_cancel() {
    let mut s = ScheduleFlushHandle::new(0, 10);
    assert!(s.on_tick(10));
    s.cancel();
    assert!(s.is_cancelled());
    for t in [20u64, 30, 1000, u64::MAX] {
        assert!(!s.on_tick(t));
    }
    assert_eq!(s.wait_from(20), None);
    let before = s;
    s.cancel();
    assert_eq!(s, before);
}

#[test]
fn due_time_saturates() {
    let mut s = ScheduleFlushHandle::new(u64::MAX - 5, 10);
    assert_eq!(s.next_due, u64::MAX);
    assert!(s.on_tick(u64::MAX));
    assert!(s.on_tick(u64::MAX));
}
