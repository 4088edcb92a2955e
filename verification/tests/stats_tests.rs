use ntp_time_api::stats::ServerStats;

#[test]
fn test_server_stats_lifecycle() {
    let mut stats = ServerStats::new("time.google.com:123".to_string());
    let max_failures: u32 = 10;

    // Initially no success
    assert!(stats.is_healthy()); // Not disabled yet
    assert!(!stats.is_available()); // But not available (no success yet)

    // Record success
    let was_disabled = stats.record_success(50, 1);
    assert!(!was_disabled); // Was not disabled before
    assert!(stats.is_healthy());
    assert!(stats.is_available());
    assert_eq!(stats.consecutive_failures, 0);
    assert_eq!(stats.total_queries, 1);

    // Record a few failures
    stats.record_failure(max_failures, 2);
    stats.record_failure(max_failures, 3);
    assert!(stats.is_healthy()); // Still healthy with 2 failures
    assert_eq!(stats.consecutive_failures, 2);
    assert!(!stats.disabled);

    // Many failures (reach threshold)
    for _ in 0..8 {
        stats.record_failure(max_failures, 4);
    }
    assert!(!stats.is_healthy()); // Now disabled
    assert!(stats.disabled);
    assert_eq!(stats.consecutive_failures, 10);

    // Success re-enables the server
    let was_disabled = stats.record_success(60, 5);
    assert!(was_disabled); // Was disabled before success
    assert!(stats.is_healthy());
    assert!(!stats.disabled);
    assert_eq!(stats.consecutive_failures, 0);
}

#[test]
fn stats_flag_tracks_streak() {
    // At every observation point, disabled holds exactly when the streak
    // has reached the threshold.
    let mut stats = ServerStats::new("s:123".to_string());
    let threshold: u32 = 3;
    for step in 0..5u32 {
        assert_eq!(stats.disabled, stats.consecutive_failures >= threshold);
        stats.record_failure(threshold, step as u64);
    }
    assert!(stats.disabled);
    stats.record_success(7, 99);
    assert_eq!(stats.disabled, stats.consecutive_failures >= threshold);
    assert!(!stats.disabled);
}

#[test]
fn stats_rtt_score_only_when_healthy() {
    let mut stats = ServerStats::new("s:123".to_string());
    assert_eq!(stats.rtt_score(), None);
    stats.record_success(42, 1);
    assert_eq!(stats.rtt_score(), Some(42));
    stats.disabled = true;
    assert_eq!(stats.rtt_score(), None);
}
