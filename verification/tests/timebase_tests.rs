use ntp_time_api::sync::SyncResult;
use ntp_time_api::timebase::TimeBase;

fn test_sync_result(epoch_ms: i64, instant: u64) -> SyncResult {
    SyncResult {
        epoch_ms,
        server: "test:123".to_string(),
        rtt: 10,
        instant,
    }
}

#[test]
fn test_timebase_before_sync() {
    let mut tb = TimeBase::new(true);
    assert!(!tb.has_synced());
    assert!(tb.now_ms(0).is_none());
}

#[test]
fn test_timebase_after_sync() {
    let mut tb = TimeBase::new(true);
    let sync_result = test_sync_result(1000000, 5_000_000_000);

    tb.update(&sync_result);

    assert!(tb.has_synced());
    let now = tb.now_ms(5_000_000_000);
    assert!(now.is_some());
    // Should be close to base time (within a few ms)
    let diff = (now.unwrap() - 1000000).abs();
    assert!(diff < 100);
}

#[test]
fn test_monotonic_progression() {
    let mut tb = TimeBase::new(true);
    let sync_result = test_sync_result(1000000, 1_000_000_000);

    tb.update(&sync_result);

    let t1 = tb.now_ms(1_000_000_000).unwrap();
    // five milliseconds later
    let t2 = tb.now_ms(1_005_000_000).unwrap();

    // Time should always increase
    assert!(t2 > t1);
}

#[test]
fn test_monotonic_clamping() {
    let mut tb = TimeBase::new(true);
    let sync_result = test_sync_result(1000000, 1_000_000_000);

    tb.update(&sync_result);

    let t1 = tb.now_ms(1_000_000_000).unwrap();

    // Manually set last_served to a higher value (simulating time jump back)
    tb.last_served_ms = t1 + 1000;

    let t2 = tb.now_ms(1_000_000_000).unwrap();

    // Should be clamped to last_served + 1
    assert!(t2 > t1 + 1000);
    assert_eq!(t2, t1 + 1001);
}

#[test]
fn test_no_monotonic_clamping() {
    let mut tb = TimeBase::new(false);
    let sync_result = test_sync_result(1000000, 1_000_000_000);

    tb.update(&sync_result);

    let t1 = tb.now_ms(1_000_000_000).unwrap();
    let t2 = tb.now_ms(1_005_000_000).unwrap();

    // Should still progress (based on the monotonic instants)
    assert!(t2 > t1);
}

#[test]
fn timebase_reads_never_decrease() {
    // Even if the read instants go backwards, served values strictly
    // increase in monotonic mode.
    let mut tb = TimeBase::new(true);
    tb.update(&test_sync_result(500_000, 10_000_000_000));
    let a = tb.now_ms(12_000_000_000).unwrap();
    let b = tb.now_ms(11_000_000_000).unwrap(); // clock stepped back
    let c = tb.now_ms(10_000_000_000).unwrap(); // and back again
    assert!(a < b && b < c);
}

#[test]
fn timebase_read_tracks_sync() {
    // Right after an update, a read differs from the accepted epoch by
    // exactly the whole milliseconds elapsed since the capture.
    let mut tb = TimeBase::new(true);
    tb.update(&test_sync_result(1_700_000_000_000, 2_000_000_000));
    let t = tb.now_ms(2_000_000_000 + 7_000_000).unwrap(); // 7 ms later
    assert_eq!(t, 1_700_000_000_007);
}

#[test]
fn timebase_synced_forever() {
    let mut tb = TimeBase::new(true);
    assert!(tb.now_ms(0).is_none());
    tb.update(&test_sync_result(1, 0));
    for i in 0..50u64 {
        assert!(tb.now_ms(i * 1_000_000).is_some());
    }
    // a later sync does not clear the flag either
    tb.update(&test_sync_result(2, 1_000_000_000));
    assert!(tb.now_ms(2_000_000_000).is_some());
}
