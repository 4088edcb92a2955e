use ntp_time_api::selection::{NtpResult, ServerSelector};
use ntp_time_api::stats::ServerStats;

fn sample(server: &str, epoch_ms: i64, rtt: u64, offset_ms: i64) -> NtpResult {
    NtpResult {
        server: server.to_string(),
        epoch_ms,
        rtt,
        offset_ms,
        instant: 0,
    }
}

#[test]
fn test_select_servers_for_query() {
    let mut stats = vec![
        ServerStats::new("server1:123".to_string()),
        ServerStats::new("server2:123".to_string()),
        ServerStats::new("server3:123".to_string()),
    ];

    // Server 2 has best RTT
    stats[1].record_success(10, 0);
    // Server 1 has worse RTT
    stats[0].record_success(50, 0);
    // Server 3 has no success yet

    let selected = ServerSelector::select_servers_for_query(&stats, 2);
    assert_eq!(selected.len(), 2);
    // Server 2 should be first (best RTT)
    assert_eq!(selected[0], "server2:123");

    // Test disabled server filtering
    stats[1].disabled = true; // Disable the best server
    let selected = ServerSelector::select_servers_for_query(&stats, 2);
    assert_eq!(selected.len(), 2);
    // Server 2 should not be in the list now
    assert!(!selected.contains(&"server2:123".to_string()));
}

#[test]
fn test_select_best_result_single() {
    let results = vec![sample("server1:123", 1000000, 50, 100)];

    let best = ServerSelector::select_best_result(results, 1000);
    assert!(best.is_some());
    assert_eq!(best.unwrap().server, "server1:123");
}

#[test]
fn test_select_best_result_outlier_filtering() {
    let results = vec![
        sample("server1:123", 1000000, 30, 100),
        sample("server2:123", 1000050, 20, 150),
        // Outlier
        sample("server3:123", 2000000, 10, 10000),
    ];

    // With strict skew threshold, server3 should be filtered out
    // Median offset = 150, so server1 (offset=100) and server2 (offset=150) are inliers
    // Should pick server2 because it's closer to median (offset_dist=0 vs 50)
    let best = ServerSelector::select_best_result(results, 500);
    assert!(best.is_some());
    let result = best.unwrap();
    assert_eq!(result.server, "server2:123");
}

#[test]
fn test_select_best_result_accuracy_first() {
    let results = vec![
        // Lower RTT, further from median (95)
        sample("server1:123", 1000000, 20, 50),
        // Higher RTT, closest to median
        sample("server2:123", 1000100, 100, 95),
        // Further from median
        sample("server3:123", 1000150, 50, 150),
    ];

    let best = ServerSelector::select_best_result(results, 1000);
    assert!(best.is_some());
    // Median of [50, 95, 150] = 95
    // Should pick server2 (offset=95, closest to median) despite higher RTT
    assert_eq!(best.unwrap().server, "server2:123");
}

#[test]
fn test_select_best_result_rtt_tiebreaker() {
    let results = vec![
        sample("server1:123", 1000000, 50, 100),
        // Lower RTT, same distance from median
        sample("server2:123", 1000100, 20, 100),
    ];

    let best = ServerSelector::select_best_result(results, 1000);
    assert!(best.is_some());
    // When accuracy is equal, RTT is used as tiebreaker
    assert_eq!(best.unwrap().server, "server2:123");
}

#[test]
fn selector_inlier_within_skew() {
    // With at least one inlier, the selected offset stays within the skew
    // of the median: offsets (100, 150, 10000), median 150, skew 500.
    let results = vec![
        sample("a:123", 1, 30, 100),
        sample("b:123", 2, 20, 150),
        sample("c:123", 3, 10, 10000),
    ];
    let best = ServerSelector::select_best_result(results, 500).unwrap();
    assert!((best.offset_ms - 150).abs() <= 500);
}

#[test]
fn selector_all_outlier_fallback() {
    // Offsets (0, 5000, 10000), skew 500: the median sample itself is an
    // inlier at distance zero, so it wins.
    let results = vec![
        sample("a:123", 1, 30, 0),
        sample("b:123", 2, 20, 5000),
        sample("c:123", 3, 10, 10000),
    ];
    let best = ServerSelector::select_best_result(results, 500).unwrap();
    assert_eq!(best.server, "b:123");

    // A negative skew leaves no inlier at all: the batch falls back to the
    // sample with the smallest round trip.
    let results = vec![
        sample("a:123", 1, 30, 0),
        sample("b:123", 2, 20, 5000),
        sample("c:123", 3, 10, 10000),
    ];
    let best = ServerSelector::select_best_result(results, -1).unwrap();
    assert_eq!(best.server, "c:123");
}

#[test]
fn selector_address_tiebreaker() {
    // Same distance to the median and the same round trip: the
    // lexicographically smaller address wins.
    let results = vec![
        sample("zeta:123", 1, 20, 100),
        sample("alpha:123", 2, 20, 100),
    ];
    let best = ServerSelector::select_best_result(results, 1000).unwrap();
    assert_eq!(best.server, "alpha:123");
}

#[test]
fn selector_empty_batch() {
    let best = ServerSelector::select_best_result(Vec::new(), 1000);
    assert!(best.is_none());
}
