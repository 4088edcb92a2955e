use ntp_time_api::config::{Config, NtpConfig, SelectionStrategy};
use ntp_time_api::errors::{AppError, ProbeError, SyncError};
use ntp_time_api::handlers::{healthz_response, readyz_response, startupz_response, time_response};
use ntp_time_api::performance::{LockFreeMetrics, TimeCache};
use ntp_time_api::state::AppState;
use ntp_time_api::stream::{max_updates, tick_message, welcome_message};
use ntp_time_api::sync::{compute_probe_result, NtpSyncer, ProbeOutcome, SyncResult};
use ntp_time_api::timebase::TimeBase;

fn test_state() -> AppState {
    let config = Config::default();
    let time_cache = TimeCache::new(
        config.messages.ok.clone(),
        config.messages.ok_cache.clone(),
    );
    let perf_metrics = LockFreeMetrics::new();
    let timebase = TimeBase::new(true);
    AppState::new(config, timebase, time_cache, perf_metrics)
}

fn test_ntp_config() -> NtpConfig {
    NtpConfig {
        servers: vec!["time.google.com:123".to_string()],
        timeout_secs: 2,
        sync_interval_secs: 30,
        probe_min_interval_secs: 10,
        probe_max_interval_secs: 20,
        max_staleness_secs: 120,
        require_sync: true,
        selection_strategy: SelectionStrategy::RttMin,
        sample_servers_per_sync: 3,
        max_offset_skew_ms: 1000,
        monotonic_output: true,
        offset_bias_ms: 0,
        asymmetry_bias_ms: 0,
        max_consecutive_failures: 10,
    }
}

fn probe(server: &str, epoch_ms: i64, rtt: u64, offset_ms: i64) -> ProbeOutcome {
    ProbeOutcome {
        server: server.to_string(),
        outcome: compute_probe_result(server.to_string(), offset_ms, epoch_ms - offset_ms, rtt, 0),
    }
}

#[test]
fn test_healthz() {
    let (status, body) = healthz_response();
    assert_eq!(status, 200);
    let v: serde_json::Value = serde_json::from_str(&body).unwrap();
    assert_eq!(v["status"].as_str(), Some("ok"));
}

#[test]
fn test_time_before_sync() {
    let mut state = test_state();
    let (status, body) = time_response(&mut state, 0, 1_700_000_000_000);
    assert_eq!(status, 503);
    let v: serde_json::Value = serde_json::from_str(&body).unwrap();
    assert_eq!(v["status"].as_i64(), Some(503));
    assert_eq!(v["data"].as_i64(), Some(0));
    assert!(v["error"].is_string());
    assert!(v["message"].is_string());
}

#[test]
fn test_readyz_before_sync() {
    let state = test_state();
    let (status, _) = readyz_response(&state);
    assert_eq!(status, 503);
}

#[test]
fn readyz_flips_after_first_sync() {
    // 503 before the first sync with require_sync, 200 afterwards.
    let mut state = test_state();
    let (status, body) = readyz_response(&state);
    assert_eq!(status, 503);
    assert!(body.contains("not_yet_synced"));
    let (status, body) = startupz_response(&state);
    assert_eq!(status, 503);
    assert!(body.contains("startup_in_progress"));

    let sr = SyncResult {
        epoch_ms: 1_700_000_000_000,
        server: "s:123".to_string(),
        rtt: 10,
        instant: 1_000_000_000,
    };
    state.apply_sync(&sr, 1_000_000_000);

    let (status, body) = readyz_response(&state);
    assert_eq!(status, 200);
    assert!(body.contains("ready"));
    let (status, _) = startupz_response(&state);
    assert_eq!(status, 200);

    // require_sync off: ready even without a sync
    let mut fresh = test_state();
    fresh.config.ntp.require_sync = false;
    let (status, _) = readyz_response(&fresh);
    assert_eq!(status, 200);
}

#[test]
fn time_without_sync_falls_back_to_wall_clock() {
    // With require_sync off and no sync yet, the handler serves the wall
    // clock it is given, with status 200 and a positive data field.
    let mut state = test_state();
    state.config.ntp.require_sync = false;
    let wall = 1_700_000_000_500;
    let (status, body) = time_response(&mut state, 0, wall);
    assert_eq!(status, 200);
    let v: serde_json::Value = serde_json::from_str(&body).unwrap();
    assert_eq!(v["data"].as_i64(), Some(wall));
    assert!(v["data"].as_i64().unwrap() > 0);
    assert_eq!(v["status"].as_i64(), Some(200));
}

#[test]
fn time_keeps_serving_through_sync_failures() {
    // After one good sync, failed rounds never take /time away; the body
    // flips to the stale message once staleness passes the bound, and the
    // clock keeps advancing.
    let mut state = test_state();
    state.config.messages.ok = "fresh-msg".to_string();
    state.config.messages.ok_cache = "cache-msg".to_string();
    state.time_cache = TimeCache::new("fresh-msg".to_string(), "cache-msg".to_string());

    let sr = SyncResult {
        epoch_ms: 1_700_000_000_000,
        server: "s:123".to_string(),
        rtt: 10,
        instant: 1_000_000_000,
    };
    state.apply_sync(&sr, 1_000_000_000);

    for _ in 0..5 {
        state.record_sync_failure();
    }
    assert_eq!(state.get_consecutive_failures(), 5);

    // one second after the sync: fresh
    let (status, body) = time_response(&mut state, 2_000_000_000, 0);
    assert_eq!(status, 200);
    assert!(body.contains("fresh-msg"));

    // 121 seconds after the sync: beyond max_staleness_secs = 120, stale
    let (status, body) = time_response(&mut state, 122_000_000_000, 0);
    assert_eq!(status, 200);
    assert!(body.contains("cache-msg"));

    // the clock itself keeps advancing monotonically
    let t1 = state.timebase.now_ms(123_000_000_000).unwrap();
    let t2 = state.timebase.now_ms(124_000_000_000).unwrap();
    assert!(t2 > t1);
}

#[test]
fn test_ntp_syncer_creation() {
    let config = test_ntp_config();
    let syncer = NtpSyncer::new(config);

    let stats = syncer.get_stats();
    // Should have stats for all configured servers
    assert!(!stats.is_empty());
}

#[test]
fn syncer_round_selects_and_records() {
    let mut config = test_ntp_config();
    config.servers = vec![
        "server1:123".to_string(),
        "server2:123".to_string(),
        "server3:123".to_string(),
    ];
    let mut syncer = NtpSyncer::new(config);

    let outcomes = vec![
        probe("server1:123", 1_000_000, 30, 100),
        probe("server2:123", 1_000_050, 20, 150),
        ProbeOutcome {
            server: "server3:123".to_string(),
            outcome: Err(ProbeError::Timeout),
        },
    ];
    let result = syncer.apply_probe_outcomes(&outcomes, 7).unwrap();
    // offsets 100 and 150: lower median 100, server1 wins at distance zero
    assert_eq!(result.server, "server1:123");
    assert_eq!(result.epoch_ms, 1_000_000);

    let stats = syncer.get_stats();
    assert_eq!(stats[0].total_queries, 1);
    assert_eq!(stats[0].total_failures, 0);
    assert_eq!(stats[2].total_failures, 1);
    assert_eq!(stats[2].consecutive_failures, 1);
}

#[test]
fn syncer_applies_offset_bias() {
    let mut config = test_ntp_config();
    config.offset_bias_ms = 25;
    let mut syncer = NtpSyncer::new(config);
    let outcomes = vec![probe("time.google.com:123", 5_000_000, 10, 0)];
    let result = syncer.apply_probe_outcomes(&outcomes, 1).unwrap();
    assert_eq!(result.epoch_ms, 5_000_025);
}

#[test]
fn syncer_all_failed() {
    let mut syncer = NtpSyncer::new(test_ntp_config());
    let outcomes = vec![ProbeOutcome {
        server: "time.google.com:123".to_string(),
        outcome: Err(ProbeError::NetworkError("unreachable".to_string())),
    }];
    let r = syncer.apply_probe_outcomes(&outcomes, 1);
    assert_eq!(r, Err(SyncError::AllServersFailed));
}

#[test]
fn probe_result_assembly() {
    let r = compute_probe_result("s:123".to_string(), 250, 1_000_000, 40, 9).unwrap();
    assert_eq!(r.epoch_ms, 1_000_250);
    assert_eq!(r.offset_ms, 250);
    assert_eq!(r.rtt, 40);
    assert_eq!(r.instant, 9);

    // shifting below the epoch is rejected
    let r = compute_probe_result("s:123".to_string(), -2_000_000, 1_000_000, 40, 9);
    assert_eq!(r, Err(ProbeError::ClockUnderflow));
    // and so is overflowing the epoch range
    let r = compute_probe_result("s:123".to_string(), i64::MAX, i64::MAX, 40, 9);
    assert_eq!(r, Err(ProbeError::ClockUnderflow));
}

#[test]
fn app_error_status_codes() {
    assert_eq!(AppError::NotSynced.status_code(), 503);
    assert_eq!(AppError::NtpError("boom".to_string()).status_code(), 500);
    assert_eq!(AppError::Internal("x".to_string()).status_code(), 500);
    assert_eq!(AppError::Timeout.status_code(), 408);
    assert_eq!(
        AppError::NtpError("boom".to_string()).message(),
        "NTP sync failed: boom"
    );

    let (code, body) = AppError::NotSynced.response_parts();
    assert_eq!(code, 503);
    let v: serde_json::Value = serde_json::from_str(&body).unwrap();
    assert_eq!(v["status"].as_i64(), Some(503));
    assert_eq!(v["data"].as_i64(), Some(0));
    assert_eq!(v["message"].as_str(), Some("error"));
    assert_eq!(v["error"].as_str(), Some("NTP sync not yet completed"));
}

#[test]
fn stream_welcome_and_limits() {
    let w = welcome_message("hello", 1000, 3600);
    let v: serde_json::Value = serde_json::from_str(&w).unwrap();
    assert_eq!(v["type"].as_str(), Some("welcome"));
    assert_eq!(v["message"].as_str(), Some("hello"));
    assert_eq!(v["update_interval_ms"].as_u64(), Some(1000));
    assert_eq!(v["max_duration_secs"].as_u64(), Some(3600));

    assert_eq!(max_updates(3600, 1000), 3600);
    assert_eq!(max_updates(10, 250), 40);
}

#[test]
fn stream_tick_and_error_frames() {
    let mut state = test_state();

    // before any sync: an error frame
    let frame = tick_message(&mut state, 0, 3);
    let v: serde_json::Value = serde_json::from_str(&frame).unwrap();
    assert_eq!(v["type"].as_str(), Some("error"));
    assert_eq!(v["sequence"].as_u64(), Some(3));

    // after a sync: a tick frame carrying the reading and its rendering
    let sr = SyncResult {
        epoch_ms: 1234567890000,
        server: "s:123".to_string(),
        rtt: 10,
        instant: 1_000_000_000,
    };
    state.apply_sync(&sr, 1_000_000_000);
    let frame = tick_message(&mut state, 1_000_000_000, 4);
    let v: serde_json::Value = serde_json::from_str(&frame).unwrap();
    assert_eq!(v["type"].as_str(), Some("tick"));
    assert_eq!(v["sequence"].as_u64(), Some(4));
    assert_eq!(v["is_stale"].as_bool(), Some(false));
    assert_eq!(v["staleness_secs"].as_u64(), Some(0));
    let epoch = v["epoch_ms"].as_i64().unwrap();
    assert!(epoch >= 1234567890000 && epoch < 1234567890010);
    assert_eq!(
        v["iso8601"].as_str(),
        Some(ntp_time_api::iso8601::format_epoch_ms_to_iso8601(epoch).as_str())
    );
}
