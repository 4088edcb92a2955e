use crate::errors::ConfigError;
use vstd::prelude::*;

verus! {

/// How the sync round picks among configured servers.
#[derive(Debug, Clone, Copy, PartialEq, Eq)]
pub enum SelectionStrategy {
    RttMin,
}

#[derive(Debug, Clone, Copy, PartialEq, Eq)]
pub enum LogFormat {
    Json,
    Pretty,
}

/// Listener settings. The address is kept as text; the process boundary
/// parses and binds it.
#[derive(Debug, Clone)]
pub struct HttpConfig {
    pub addr: String,
    pub request_timeout_secs: u64,
    pub body_limit_bytes: usize,
    pub tcp_nodelay: bool,
    pub tcp_keepalive_secs: Option<u64>,
}

#[derive(Debug, Clone)]
pub struct NtpConfig {
    pub servers: Vec<String>,
    pub timeout_secs: u64,
    pub sync_interval_secs: u64,
    pub probe_min_interval_secs: u64,
    pub probe_max_interval_secs: u64,
    pub max_staleness_secs: u64,
    pub require_sync: bool,
    pub selection_strategy: SelectionStrategy,
    pub sample_servers_per_sync: usize,
    pub max_offset_skew_ms: i64,
    pub monotonic_output: bool,
    pub offset_bias_ms: i64,
    pub asymmetry_bias_ms: i64,
    pub max_consecutive_failures: u32,
}

#[derive(Debug, Clone)]
pub struct LoggingConfig {
    pub level: String,
    pub format: LogFormat,
}

/// The strings served in response bodies; arbitrary UTF-8.
#[derive(Debug, Clone)]
pub struct MessageConfig {
    pub ok: String,
    pub ok_cache: String,
    pub error: String,
    pub error_no_sync: String,
    pub error_internal: String,
    pub error_timeout: String,
}

/// Push-stream settings.
#[derive(Debug, Clone)]
pub struct WsConfig {
    pub update_interval_ms: u64,
    pub max_duration_secs: u64,
}

#[derive(Debug, Clone)]
pub struct Config {
    pub http: HttpConfig,
    pub ntp: NtpConfig,
    pub logging: LoggingConfig,
    pub messages: MessageConfig,
    pub ws: WsConfig,
}

/// The checks a configuration must pass, in the order they are reported:
/// at least one server, intervals of at least a second, at least one
/// sampled server, and probe bounds the right way around.
pub open spec fn spec_validate(c: Config) -> Result<(), ConfigError> {
    if c.ntp.servers@.len() == 0 {
        Err(ConfigError::EmptyServers)
    } else if c.ntp.sync_interval_secs < 1 {
        Err(ConfigError::SyncIntervalTooSmall)
    } else if c.ntp.timeout_secs < 1 {
        Err(ConfigError::TimeoutTooSmall)
    } else if c.ntp.sample_servers_per_sync < 1 {
        Err(ConfigError::SampleCountTooSmall)
    } else if c.ntp.probe_min_interval_secs > c.ntp.probe_max_interval_secs {
        Err(ConfigError::ProbeIntervalInverted)
    } else {
        Ok(())
    }
}

impl Config {
    /// Accept or reject this configuration, reporting the first failed
    /// check.
    pub fn validate(&self) -> (r: Result<(), ConfigError>)
        ensures
            r == spec_validate(*self),
            r is Ok <==> (self.ntp.servers@.len() > 0 && self.ntp.sync_interval_secs >= 1
                && self.ntp.timeout_secs >= 1 && self.ntp.sample_servers_per_sync >= 1
                && self.ntp.probe_min_interval_secs <= self.ntp.probe_max_interval_secs),
    {
        if self.ntp.servers.len() == 0 {
            Err(ConfigError::EmptyServers)
        } else if self.ntp.sync_interval_secs < 1 {
            Err(ConfigError::SyncIntervalTooSmall)
        } else if self.ntp.timeout_secs < 1 {
            Err(ConfigError::TimeoutTooSmall)
        } else if self.ntp.sample_servers_per_sync < 1 {
            Err(ConfigError::SampleCountTooSmall)
        } else if self.ntp.probe_min_interval_secs > self.ntp.probe_max_interval_secs {
            Err(ConfigError::ProbeIntervalInverted)
        } else {
            Ok(())
        }
    }
}

/// An empty server list never validates.
pub proof fn lemma_empty_servers_rejected(c: Config)
    requires
        c.ntp.servers@.len() == 0,
    ensures
        spec_validate(c) == Result::<(), ConfigError>::Err(ConfigError::EmptyServers),
{
}

/// Probe bounds the wrong way around never validate.
pub proof fn lemma_probe_interval_rejected(c: Config)
    requires
        c.ntp.probe_min_interval_secs > c.ntp.probe_max_interval_secs,
    ensures
        spec_validate(c) is Err,
{
}

/// Whether the text contains a `':'` anywhere — taken as "a port is given".
pub open spec fn spec_has_colon(s: Seq<char>) -> bool {
    exists|i: int| 0 <= i < s.len() && s[i] == ':'
}

/// A server entry with the default SNTP port appended when none is given.
pub fn normalize_server(s: &str) -> (r: String)
    ensures
        spec_has_colon(s@) ==> r@ == s@,
        !spec_has_colon(s@) ==> r@ == s@ + ":123"@,
{
    let len = s.unicode_len();
    let mut i: usize = 0;
    let mut has_colon = false;
    while i < len
        invariant
            len == s@.len(),
            i <= len,
            has_colon == exists|k: int| 0 <= k < i && s@[k] == ':',
        decreases len - i,
    {
        if s.get_char(i) == ':' {
            has_colon = true;
        }
        i = i + 1;
    }
    if has_colon {
        s.to_owned()
    } else {
        let mut r = s.to_owned();
        r.append(":123");
        r
    }
}

impl Default for Config {
    /// The built-in settings: one well-known server, conservative
    /// intervals, synchronization required, monotonic output on.
    fn default() -> (c: Config)
        ensures
            c.http.addr@ == "0.0.0.0:8080"@,
            c.http.request_timeout_secs == 5,
            c.http.body_limit_bytes == 1024,
            c.http.tcp_nodelay,
            c.http.tcp_keepalive_secs == Some(60u64),
            c.ntp.servers@.len() == 1,
            c.ntp.servers@[0]@ == "time.google.com:123"@,
            c.ntp.timeout_secs == 2,
            c.ntp.sync_interval_secs == 30,
            c.ntp.probe_min_interval_secs == 10,
            c.ntp.probe_max_interval_secs == 20,
            c.ntp.max_staleness_secs == 120,
            c.ntp.require_sync,
            c.ntp.selection_strategy == SelectionStrategy::RttMin,
            c.ntp.sample_servers_per_sync == 3,
            c.ntp.max_offset_skew_ms == 1000,
            c.ntp.monotonic_output,
            c.ntp.offset_bias_ms == 0,
            c.ntp.asymmetry_bias_ms == 0,
            c.ntp.max_consecutive_failures == 10,
            c.logging.level@ == "info"@,
            c.logging.format == LogFormat::Json,
            c.messages.ok@ == "done"@,
            c.messages.ok_cache@ == "done"@,
            c.messages.error@ == "error"@,
            c.messages.error_no_sync@ == "Service not yet synchronized with NTP"@,
            c.messages.error_internal@ == "Internal server error"@,
            c.messages.error_timeout@ == "Request timeout"@,
            c.ws.update_interval_ms == 1000,
            c.ws.max_duration_secs == 3600,
    {
        let mut servers: Vec<String> = Vec::new();
        servers.push("time.google.com:123".to_owned());
        Config {
            http: HttpConfig {
                addr: "0.0.0.0:8080".to_owned(),
                request_timeout_secs: 5,
                body_limit_bytes: 1024,
                tcp_nodelay: true,
                tcp_keepalive_secs: Some(60),
            },
            ntp: NtpConfig {
                servers,
                timeout_secs: 2,
                sync_interval_secs: 30,
                probe_min_interval_secs: 10,
                probe_max_interval_secs: 20,
                max_staleness_secs: 120,
                require_sync: true,
                selection_strategy: SelectionStrategy::RttMin,
                sample_servers_per_sync: 3,
                max_offset_skew_ms: 1000,
                monotonic_output: true,
                offset_bias_ms: 0,
                asymmetry_bias_ms: 0,
                max_consecutive_failures: 10,
            },
            logging: LoggingConfig { level: "info".to_owned(), format: LogFormat::Json },
            messages: MessageConfig {
                ok: "done".to_owned(),
                ok_cache: "done".to_owned(),
                error: "error".to_owned(),
                error_no_sync: "Service not yet synchronized with NTP".to_owned(),
                error_internal: "Internal server error".to_owned(),
                error_timeout: "Request timeout".to_owned(),
            },
            ws: WsConfig { update_interval_ms: 1000, max_duration_secs: 3600 },
        }
    }
}

} // verus!
