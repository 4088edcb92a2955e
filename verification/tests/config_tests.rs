use ntp_time_api::config::{normalize_server, Config, SelectionStrategy};
use ntp_time_api::errors::ConfigError;

#[test]
fn test_default_config() {
    let config = Config::default();
    assert!(!config.ntp.servers.is_empty());
    assert_eq!(config.ntp.selection_strategy, SelectionStrategy::RttMin);
    assert!(config.ntp.monotonic_output);
}

#[test]
fn test_config_validation() {
    let mut config = Config::default();

    // Empty servers should fail
    config.ntp.servers.clear();
    assert!(config.validate().is_err());

    // Restore servers
    config.ntp.servers = vec!["time.google.com:123".to_string()];
    assert!(config.validate().is_ok());

    // Invalid probe intervals
    config.ntp.probe_min_interval_secs = 100;
    config.ntp.probe_max_interval_secs = 10;
    assert!(config.validate().is_err());
}

#[test]
fn test_utf8_messages() {
    // UTF-8 message strings carry through untouched.
    let mut config = Config::default();
    config.messages.ok = "انجام شد".to_string();
    config.messages.error = "خطا".to_string();

    assert_eq!(config.messages.ok, "انجام شد");
    assert_eq!(config.messages.error, "خطا");
}

#[test]
fn config_validation_error_variants() {
    let mut config = Config::default();
    config.ntp.servers.clear();
    assert_eq!(config.validate(), Err(ConfigError::EmptyServers));

    let mut config = Config::default();
    config.ntp.sync_interval_secs = 0;
    assert_eq!(config.validate(), Err(ConfigError::SyncIntervalTooSmall));

    let mut config = Config::default();
    config.ntp.timeout_secs = 0;
    assert_eq!(config.validate(), Err(ConfigError::TimeoutTooSmall));

    let mut config = Config::default();
    config.ntp.sample_servers_per_sync = 0;
    assert_eq!(config.validate(), Err(ConfigError::SampleCountTooSmall));

    let mut config = Config::default();
    config.ntp.probe_min_interval_secs = 21;
    config.ntp.probe_max_interval_secs = 20;
    assert_eq!(config.validate(), Err(ConfigError::ProbeIntervalInverted));
}

#[test]
fn normalize_server_appends_default_port() {
    assert_eq!(normalize_server("pool.ntp.org"), "pool.ntp.org:123");
    assert_eq!(normalize_server("time.google.com:123"), "time.google.com:123");
    assert_eq!(normalize_server("10.0.0.1:4460"), "10.0.0.1:4460");
}
