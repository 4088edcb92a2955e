use vstd::prelude::*;

verus! {

/// Health and latency record for one configured server.
///
/// Instants are written as nanoseconds on the process-wide monotonic clock;
/// the caller measures them and passes them in. `last_rtt` is the round-trip
/// time of the last successful exchange, in milliseconds.
#[derive(Debug, Clone)]
pub struct ServerStats {
    pub address: String,
    pub last_rtt: Option<u64>,
    pub last_success: Option<u64>,
    pub last_failure: Option<u64>,
    pub consecutive_failures: u32,
    pub total_queries: u64,
    pub total_failures: u64,
    pub disabled: bool,
}

impl ServerStats {
    /// The record after a success observed at `now_nanos` with round trip
    /// `rtt_ms`: the failure streak is cleared and the server re-enabled.
    pub open spec fn spec_record_success(self, rtt_ms: u64, now_nanos: u64) -> ServerStats {
        ServerStats {
            last_rtt: Some(rtt_ms),
            last_success: Some(now_nanos),
            consecutive_failures: 0,
            total_queries: (self.total_queries + 1) as u64,
            disabled: false,
            ..self
        }
    }

    /// The record after a failure observed at `now_nanos`: the streak grows
    /// and the server is disabled once the streak reaches `threshold`.
    pub open spec fn spec_record_failure(self, threshold: u32, now_nanos: u64) -> ServerStats {
        ServerStats {
            last_failure: Some(now_nanos),
            consecutive_failures: (self.consecutive_failures + 1) as u32,
            total_queries: (self.total_queries + 1) as u64,
            total_failures: (self.total_failures + 1) as u64,
            disabled: self.disabled || self.consecutive_failures + 1 >= threshold,
            ..self
        }
    }

    /// The health flag agrees with the failure streak: `disabled` holds
    /// exactly when `consecutive_failures` has reached the threshold.
    pub open spec fn failure_flag_consistent(self, threshold: u32) -> bool {
        self.disabled <==> self.consecutive_failures >= threshold
    }

    /// A copy equal to `self` (field for field, including the address).
    pub fn duplicate(&self) -> (s: ServerStats)
        ensures
            s == *self,
    {
        ServerStats {
            address: self.address.clone(),
            last_rtt: self.last_rtt,
            last_success: self.last_success,
            last_failure: self.last_failure,
            consecutive_failures: self.consecutive_failures,
            total_queries: self.total_queries,
            total_failures: self.total_failures,
            disabled: self.disabled,
        }
    }

    pub fn new(address: String) -> (s: ServerStats)
        ensures
            s.address == address,
            s.last_rtt is None,
            s.last_success is None,
            s.last_failure is None,
            s.consecutive_failures == 0,
            s.total_queries == 0,
            s.total_failures == 0,
            !s.disabled,
    {
        ServerStats {
            address,
            last_rtt: None,
            last_success: None,
            last_failure: None,
            consecutive_failures: 0,
            total_queries: 0,
            total_failures: 0,
            disabled: false,
        }
    }

    /// Record one successful exchange. Returns whether the server had been
    /// disabled before (so the caller can report a recovery).
    pub fn record_success(&mut self, rtt_ms: u64, now_nanos: u64) -> (was_disabled: bool)
        requires
            old(self).total_queries < u64::MAX,
        ensures
            was_disabled == old(self).disabled,
            *final(self) == old(self).spec_record_success(rtt_ms, now_nanos),
    {
        self.last_rtt = Some(rtt_ms);
        self.last_success = Some(now_nanos);
        self.consecutive_failures = 0;
        self.total_queries = self.total_queries + 1;

        let was_disabled = self.disabled;
        self.disabled = false;
        was_disabled
    }

    /// Record one failed exchange. Returns true exactly when this failure
    /// pushed the streak over `max_consecutive_failures` and so disabled a
    /// server that was still enabled.
    pub fn record_failure(&mut self, max_consecutive_failures: u32, now_nanos: u64) -> (just_disabled: bool)
        requires
            old(self).total_queries < u64::MAX,
            old(self).total_failures < u64::MAX,
            old(self).consecutive_failures < u32::MAX,
        ensures
            *final(self) == old(self).spec_record_failure(max_consecutive_failures, now_nanos),
            just_disabled == (!old(self).disabled
                && old(self).consecutive_failures + 1 >= max_consecutive_failures),
    {
        self.last_failure = Some(now_nanos);
        self.consecutive_failures = self.consecutive_failures + 1;
        self.total_queries = self.total_queries + 1;
        self.total_failures = self.total_failures + 1;

        if self.consecutive_failures >= max_consecutive_failures && !self.disabled {
            self.disabled = true;
            return true;
        }
        false
    }

    pub fn is_healthy(&self) -> (healthy: bool)
        ensures
            healthy == !self.disabled,
    {
        !self.disabled
    }

    pub fn is_available(&self) -> (available: bool)
        ensures
            available == (!self.disabled && self.last_success is Some),
    {
        !self.disabled && self.last_success.is_some()
    }

    /// The latency key used when ranking servers: the last round trip, but
    /// only while the server is healthy.
    pub open spec fn spec_rtt_score(self) -> Option<u64> {
        if self.disabled {
            None
        } else {
            self.last_rtt
        }
    }

    pub fn rtt_score(&self) -> (score: Option<u64>)
        ensures
            score == self.spec_rtt_score(),
    {
        if self.is_healthy() {
            self.last_rtt
        } else {
            None
        }
    }
}

/// Recording a success puts the health flag back in agreement with the
/// failure streak, for any threshold of at least one failure.
pub proof fn lemma_success_restores_flag(s: ServerStats, rtt_ms: u64, now_nanos: u64, threshold: u32)
    requires
        threshold >= 1,
    ensures
        s.spec_record_success(rtt_ms, now_nanos).failure_flag_consistent(threshold),
{
}

/// Recording a failure keeps the health flag in agreement with the failure
/// streak: together with `lemma_success_restores_flag` this makes the
/// agreement an invariant at every observation point after the first
/// recorded result.
pub proof fn lemma_failure_preserves_flag(s: ServerStats, threshold: u32, now_nanos: u64)
    requires
        s.failure_flag_consistent(threshold),
        s.consecutive_failures < u32::MAX,
    ensures
        s.spec_record_failure(threshold, now_nanos).failure_flag_consistent(threshold),
{
}

} // verus!
