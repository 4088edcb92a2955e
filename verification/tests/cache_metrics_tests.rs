use ntp_time_api::performance::{LockFreeMetrics, TimeCache};

#[test]
fn test_time_cache_update() {
    let mut cache = TimeCache::new("done".to_string(), "done (cached)".to_string());

    assert!(!cache.is_initialized());

    cache.update(1234567890000, false);

    assert!(cache.is_initialized());
    assert_eq!(cache.get_epoch(), 1234567890000);

    let json = cache.get_json(false);
    assert!(json.contains("1234567890000"));
    assert!(json.contains("done"));
}

#[test]
fn test_lock_free_metrics() {
    let mut metrics = LockFreeMetrics::new();

    metrics.record_success(100);
    metrics.record_success(200);
    metrics.record_success(300);

    assert_eq!(metrics.total_requests, 3);
    assert_eq!(metrics.success_requests, 3);
    assert_eq!(
        metrics.total_latency_us as f64 / metrics.success_requests as f64,
        200.0
    );
    assert_eq!(metrics.min_latency_us(), 100);
    assert_eq!(metrics.max_latency_us(), 300);

    metrics.record_error();
    // 1 error out of 4 requests
    assert_eq!(
        metrics.error_requests as f64 / metrics.total_requests as f64,
        0.25
    );
}

#[test]
fn test_cache_hit_rate() {
    let mut metrics = LockFreeMetrics::new();

    metrics.record_success(100);
    metrics.record_cache_hit();

    metrics.record_success(100);
    metrics.record_cache_hit();

    metrics.record_success(100);
    // No cache hit for this one

    assert_eq!(
        metrics.cache_hits as f64 / metrics.total_requests as f64,
        2.0 / 3.0
    );
}

#[test]
fn cache_bodies_parse_as_json() {
    // Both served bodies parse as JSON objects carrying data, message and
    // a numeric status of 200.
    let mut cache = TimeCache::new("ok".to_string(), "ok (stale)".to_string());
    cache.update(1_700_000_000_123, false);
    for stale in [false, true] {
        let body = cache.get_json(stale);
        let v: serde_json::Value = serde_json::from_str(body).unwrap();
        assert_eq!(v["data"].as_i64(), Some(1_700_000_000_123));
        assert!(v["message"].is_string());
        assert_eq!(v["status"].as_i64(), Some(200));
    }
    let fresh: serde_json::Value = serde_json::from_str(cache.get_json(false)).unwrap();
    let stale: serde_json::Value = serde_json::from_str(cache.get_json(true)).unwrap();
    assert_eq!(fresh["message"].as_str(), Some("ok"));
    assert_eq!(stale["message"].as_str(), Some("ok (stale)"));
}

#[test]
fn cache_update_deterministic() {
    // Two consecutive updates with the same epoch produce byte-identical
    // bodies, on this cache and on another with the same messages.
    let mut a = TimeCache::new("m1".to_string(), "m2".to_string());
    let mut b = TimeCache::new("m1".to_string(), "m2".to_string());
    a.update(42_000, false);
    let first_fresh = a.get_json(false).clone();
    let first_stale = a.get_json(true).clone();
    a.update(42_000, false);
    assert_eq!(a.get_json(false), &first_fresh);
    assert_eq!(a.get_json(true), &first_stale);
    b.update(42_000, true);
    assert_eq!(b.get_json(false), &first_fresh);
    assert_eq!(b.get_json(true), &first_stale);
}

#[test]
fn cache_negative_epoch_renders_sign() {
    let mut cache = TimeCache::new("ok".to_string(), "ok".to_string());
    cache.update(-5, false);
    assert!(cache.get_json(false).contains("\"data\":-5"));
}

#[test]
fn metrics_min_defaults_to_zero() {
    let metrics = LockFreeMetrics::new();
    assert_eq!(metrics.min_latency_us(), 0);
    assert_eq!(metrics.max_latency_us(), 0);
}
