use crate::numfmt::{append_i64, spec_int_string};
use vstd::prelude::*;

verus! {

/// The body served for a good reading: the epoch, a message, and status 200.
pub open spec fn spec_response_json(epoch_ms: int, message: Seq<char>) -> Seq<char> {
    "{\"data\":"@ + spec_int_string(epoch_ms) + ",\"message\":\""@ + message + "\",\"status\":200}"@
}

/// Render the body served for a good reading.
pub fn render_response_json(epoch_ms: i64, message: &str) -> (s: String)
    ensures
        s@ == spec_response_json(epoch_ms as int, message@),
{
    let mut s: String = "{\"data\":".to_owned();
    append_i64(&mut s, epoch_ms);
    s.append(",\"message\":\"");
    s.append(message);
    s.append("\",\"status\":200}");
    proof {
        assert(s@ =~= spec_response_json(epoch_ms as int, message@));
    }
    s
}

/// The body both slots of a fresh cache hold before the first update.
pub open spec fn spec_initial_json() -> Seq<char> {
    "{\"message\":\"initializing\",\"status\":503}"@
}

/// Preformatted response bodies, rebuilt on every accepted sync so that
/// serving a reading is a lookup, not a serialization.
///
/// `json_response` carries the fresh message, `json_response_cache` the
/// stale one; both always hold the same epoch.
#[derive(Debug, Clone)]
pub struct TimeCache {
    pub epoch_ms: i64,
    pub json_response: String,
    pub json_response_cache: String,
    pub message_ok: String,
    pub message_ok_cache: String,
}

impl TimeCache {
    /// The body an update with `epoch_ms` puts in the fresh slot.
    pub open spec fn spec_fresh_body(self, epoch_ms: i64) -> Seq<char> {
        spec_response_json(epoch_ms as int, self.message_ok@)
    }

    /// The body an update with `epoch_ms` puts in the stale slot.
    pub open spec fn spec_stale_body(self, epoch_ms: i64) -> Seq<char> {
        spec_response_json(epoch_ms as int, self.message_ok_cache@)
    }

    pub fn new(message_ok: String, message_ok_cache: String) -> (c: TimeCache)
        ensures
            c.epoch_ms == 0,
            c.json_response@ == spec_initial_json(),
            c.json_response_cache@ == spec_initial_json(),
            c.message_ok == message_ok,
            c.message_ok_cache == message_ok_cache,
    {
        TimeCache {
            epoch_ms: 0,
            json_response: "{\"message\":\"initializing\",\"status\":503}".to_owned(),
            json_response_cache: "{\"message\":\"initializing\",\"status\":503}".to_owned(),
            message_ok,
            message_ok_cache,
        }
    }

    /// Rebuild both bodies for `epoch_ms`. The bodies are a pure function
    /// of the epoch and the configured messages, nothing else.
    pub fn update(&mut self, epoch_ms: i64, _is_stale: bool)
        ensures
            final(self).epoch_ms == epoch_ms,
            final(self).message_ok == old(self).message_ok,
            final(self).message_ok_cache == old(self).message_ok_cache,
            final(self).json_response@ == old(self).spec_fresh_body(epoch_ms),
            final(self).json_response_cache@ == old(self).spec_stale_body(epoch_ms),
    {
        self.epoch_ms = epoch_ms;
        let fresh = render_response_json(epoch_ms, self.message_ok.as_str());
        let stale = render_response_json(epoch_ms, self.message_ok_cache.as_str());
        self.json_response = fresh;
        self.json_response_cache = stale;
    }

    /// The preformatted body: the stale one when the reading is served
    /// beyond the staleness bound, else the fresh one.
    pub fn get_json(&self, is_stale: bool) -> (body: &String)
        ensures
            body@ == if is_stale {
                self.json_response_cache@
            } else {
                self.json_response@
            },
    {
        if is_stale {
            &self.json_response_cache
        } else {
            &self.json_response
        }
    }

    pub fn get_epoch(&self) -> (epoch_ms: i64)
        ensures
            epoch_ms == self.epoch_ms,
    {
        self.epoch_ms
    }

    pub fn is_initialized(&self) -> (initialized: bool)
        ensures
            initialized == (self.epoch_ms > 0),
    {
        self.epoch_ms > 0
    }
}

/// Two caches configured with the same message strings and updated with the
/// same epoch hold byte-identical bodies: the rendering depends on nothing
/// else.
pub proof fn lemma_update_deterministic(c1: TimeCache, c2: TimeCache, epoch_ms: i64)
    requires
        c1.message_ok@ == c2.message_ok@,
        c1.message_ok_cache@ == c2.message_ok_cache@,
    ensures
        c1.spec_fresh_body(epoch_ms) == c2.spec_fresh_body(epoch_ms),
        c1.spec_stale_body(epoch_ms) == c2.spec_stale_body(epoch_ms),
{
}

/// Addition that wraps around `u64`, matching what a relaxed atomic
/// counter does on overflow.
pub open spec fn wrap_add(a: u64, b: u64) -> u64 {
    vstd::wrapping::u64_specs::wrapping_add(a, b)
}

/// Request counters and latency extremes, updated on every response.
///
/// Counters wrap on overflow. `min_latency_us` starts at `u64::MAX` so the
/// first recorded latency replaces it.
#[derive(Debug, Clone)]
pub struct LockFreeMetrics {
    pub total_requests: u64,
    pub success_requests: u64,
    pub error_requests: u64,
    pub total_latency_us: u64,
    pub min_latency_us: u64,
    pub max_latency_us: u64,
    pub cache_hits: u64,
    pub cache_updates: u64,
}

impl LockFreeMetrics {
    pub fn new() -> (m: LockFreeMetrics)
        ensures
            m.total_requests == 0,
            m.success_requests == 0,
            m.error_requests == 0,
            m.total_latency_us == 0,
            m.min_latency_us == u64::MAX,
            m.max_latency_us == 0,
            m.cache_hits == 0,
            m.cache_updates == 0,
    {
        LockFreeMetrics {
            total_requests: 0,
            success_requests: 0,
            error_requests: 0,
            total_latency_us: 0,
            min_latency_us: u64::MAX,
            max_latency_us: 0,
            cache_hits: 0,
            cache_updates: 0,
        }
    }

    /// Count one served request and fold its latency into the running
    /// total and the extremes.
    pub fn record_success(&mut self, latency_us: u64)
        ensures
            final(self).total_requests == wrap_add(old(self).total_requests, 1),
            final(self).success_requests == wrap_add(old(self).success_requests, 1),
            final(self).total_latency_us == wrap_add(old(self).total_latency_us, latency_us),
            final(self).min_latency_us == if latency_us < old(self).min_latency_us {
                latency_us
            } else {
                old(self).min_latency_us
            },
            final(self).max_latency_us == if latency_us > old(self).max_latency_us {
                latency_us
            } else {
                old(self).max_latency_us
            },
            final(self).error_requests == old(self).error_requests,
            final(self).cache_hits == old(self).cache_hits,
            final(self).cache_updates == old(self).cache_updates,
    {
        self.total_requests = self.total_requests.wrapping_add(1);
        self.success_requests = self.success_requests.wrapping_add(1);
        self.total_latency_us = self.total_latency_us.wrapping_add(latency_us);
        self.update_min(latency_us);
        self.update_max(latency_us);
    }

    /// Count one failed request.
    pub fn record_error(&mut self)
        ensures
            final(self).total_requests == wrap_add(old(self).total_requests, 1),
            final(self).error_requests == wrap_add(old(self).error_requests, 1),
            final(self).success_requests == old(self).success_requests,
            final(self).total_latency_us == old(self).total_latency_us,
            final(self).min_latency_us == old(self).min_latency_us,
            final(self).max_latency_us == old(self).max_latency_us,
            final(self).cache_hits == old(self).cache_hits,
            final(self).cache_updates == old(self).cache_updates,
    {
        self.total_requests = self.total_requests.wrapping_add(1);
        self.error_requests = self.error_requests.wrapping_add(1);
    }

    /// Count one request answered from the preformatted cache.
    pub fn record_cache_hit(&mut self)
        ensures
            *final(self) == (LockFreeMetrics {
                cache_hits: wrap_add(old(self).cache_hits, 1),
                ..*old(self)
            }),
    {
        self.cache_hits = self.cache_hits.wrapping_add(1);
    }

    /// Count one rebuild of the preformatted cache.
    pub fn record_cache_update(&mut self)
        ensures
            *final(self) == (LockFreeMetrics {
                cache_updates: wrap_add(old(self).cache_updates, 1),
                ..*old(self)
            }),
    {
        self.cache_updates = self.cache_updates.wrapping_add(1);
    }

    fn update_min(&mut self, value: u64)
        ensures
            *final(self) == (LockFreeMetrics {
                min_latency_us: if value < old(self).min_latency_us {
                    value
                } else {
                    old(self).min_latency_us
                },
                ..*old(self)
            }),
    {
        if value < self.min_latency_us {
            self.min_latency_us = value;
        }
    }

    fn update_max(&mut self, value: u64)
        ensures
            *final(self) == (LockFreeMetrics {
                max_latency_us: if value > old(self).max_latency_us {
                    value
                } else {
                    old(self).max_latency_us
                },
                ..*old(self)
            }),
    {
        if value > self.max_latency_us {
            self.max_latency_us = value;
        }
    }

    /// The smallest recorded latency, or zero while nothing was recorded.
    pub fn min_latency_us(&self) -> (min: u64)
        ensures
            min == if self.min_latency_us == u64::MAX {
                0u64
            } else {
                self.min_latency_us
            },
    {
        if self.min_latency_us == u64::MAX {
            0
        } else {
            self.min_latency_us
        }
    }

    /// The largest recorded latency.
    pub fn max_latency_us(&self) -> (max: u64)
        ensures
            max == self.max_latency_us,
    {
        self.max_latency_us
    }
}

} // verus!
