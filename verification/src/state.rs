use crate::config::Config;
use crate::performance::{LockFreeMetrics, TimeCache};
use crate::sync::SyncResult;
use crate::timebase::TimeBase;
use vstd::prelude::*;

verus! {

/// Everything a request handler reads: the configuration, the disciplined
/// clock, the preformatted bodies, the request counters, and the sync
/// bookkeeping the staleness judgement rests on.
#[derive(Debug)]
pub struct AppState {
    pub config: Config,
    pub timebase: TimeBase,
    pub time_cache: TimeCache,
    pub perf_metrics: LockFreeMetrics,
    /// Monotonic instant of the last successful sync, if any.
    pub last_sync_nanos: Option<u64>,
    /// Sync rounds failed in a row since the last success.
    pub consecutive_failures: u32,
}

impl AppState {
    /// Seconds since the last successful sync, observed at `now_nanos`;
    /// nothing before the first success.
    pub open spec fn spec_staleness_secs(self, now_nanos: u64) -> Option<u64> {
        match self.last_sync_nanos {
            Some(t) => Some(
                (if now_nanos >= t {
                    ((now_nanos - t) / 1_000_000_000) as u64
                } else {
                    0u64
                }),
            ),
            None => None,
        }
    }

    /// Whether a reading served at `now_nanos` counts as stale: the last
    /// sync lies further back than the configured bound.
    pub open spec fn spec_is_stale(self, now_nanos: u64) -> bool {
        match self.spec_staleness_secs(now_nanos) {
            Some(s) => s > self.config.ntp.max_staleness_secs,
            None => false,
        }
    }

    pub fn new(
        config: Config,
        timebase: TimeBase,
        time_cache: TimeCache,
        perf_metrics: LockFreeMetrics,
    ) -> (s: AppState)
        ensures
            s.config == config,
            s.timebase == timebase,
            s.time_cache == time_cache,
            s.perf_metrics == perf_metrics,
            s.last_sync_nanos is None,
            s.consecutive_failures == 0,
    {
        AppState {
            config,
            timebase,
            time_cache,
            perf_metrics,
            last_sync_nanos: None,
            consecutive_failures: 0,
        }
    }

    /// Note a successful sync observed at `now_nanos`: the failure streak
    /// ends and staleness counts from here.
    pub fn record_sync_success(&mut self, now_nanos: u64)
        ensures
            *final(self) == (AppState {
                last_sync_nanos: Some(now_nanos),
                consecutive_failures: 0,
                ..*old(self)
            }),
    {
        self.last_sync_nanos = Some(now_nanos);
        self.consecutive_failures = 0;
    }

    /// Note a failed sync round.
    pub fn record_sync_failure(&mut self)
        requires
            old(self).consecutive_failures < u32::MAX,
        ensures
            *final(self) == (AppState {
                consecutive_failures: (old(self).consecutive_failures + 1) as u32,
                ..*old(self)
            }),
    {
        self.consecutive_failures = self.consecutive_failures + 1;
    }

    pub fn get_staleness_seconds(&self, now_nanos: u64) -> (staleness: Option<u64>)
        ensures
            staleness == self.spec_staleness_secs(now_nanos),
    {
        match self.last_sync_nanos {
            Some(t) => Some(
                if now_nanos >= t {
                    (now_nanos - t) / 1_000_000_000
                } else {
                    0
                },
            ),
            None => None,
        }
    }

    pub fn get_consecutive_failures(&self) -> (failures: u32)
        ensures
            failures == self.consecutive_failures,
    {
        self.consecutive_failures
    }

    /// Accept one sync result, observed at `now_nanos`: the clock takes
    /// the new anchor, both response bodies are rebuilt for its epoch, the
    /// rebuild is counted, and staleness counts from here.
    pub fn apply_sync(&mut self, sync_result: &SyncResult, now_nanos: u64)
        ensures
            final(self).config == old(self).config,
            final(self).timebase == old(self).timebase.spec_after_update(*sync_result),
            final(self).time_cache.epoch_ms == sync_result.epoch_ms,
            final(self).time_cache.message_ok == old(self).time_cache.message_ok,
            final(self).time_cache.message_ok_cache == old(self).time_cache.message_ok_cache,
            final(self).time_cache.json_response@ == old(self).time_cache.spec_fresh_body(
                sync_result.epoch_ms,
            ),
            final(self).time_cache.json_response_cache@ == old(self).time_cache.spec_stale_body(
                sync_result.epoch_ms,
            ),
            final(self).perf_metrics == (LockFreeMetrics {
                cache_updates: crate::performance::wrap_add(old(self).perf_metrics.cache_updates, 1),
                ..old(self).perf_metrics
            }),
            final(self).last_sync_nanos == Some(now_nanos),
            final(self).consecutive_failures == 0,
    {
        self.timebase.update(sync_result);
        self.time_cache.update(sync_result.epoch_ms, false);
        self.perf_metrics.record_cache_update();
        self.last_sync_nanos = Some(now_nanos);
        self.consecutive_failures = 0;
    }
}

} // verus!
