use crate::sync::SyncResult;
use vstd::prelude::*;

verus! {

/// The disciplined clock: an NTP-derived epoch anchored to a monotonic
/// instant, read by adding the monotonic time elapsed since the anchor.
///
/// Instants are nanoseconds on the process-wide monotonic clock; the caller
/// measures them and passes them in. With `monotonic_output` set, served
/// values are clamped so that they strictly increase from one read to the
/// next, even if a later sync steps the base backwards.
#[derive(Debug, Clone)]
pub struct TimeBase {
    /// Epoch milliseconds of the last accepted sync.
    pub base_epoch_ms: i64,
    /// Monotonic instant paired with `base_epoch_ms`.
    pub base_instant_nanos: u64,
    /// The last value a read served, used by the monotonic clamp.
    pub last_served_ms: i64,
    /// Whether served values are clamped to strictly increase.
    pub monotonic_output: bool,
    /// Whether at least one sync has been accepted. Never goes back to
    /// false once set.
    pub has_synced: bool,
}

impl TimeBase {
    /// The state after accepting `sr`: the base pair is replaced and the
    /// clock counts as synced.
    pub open spec fn spec_after_update(self, sr: SyncResult) -> TimeBase {
        TimeBase {
            base_epoch_ms: sr.epoch_ms,
            base_instant_nanos: sr.instant,
            has_synced: true,
            ..self
        }
    }

    /// Whole milliseconds elapsed from the anchor to `now_nanos`, never
    /// negative: an instant before the anchor counts as no time elapsed.
    pub open spec fn spec_elapsed_ms(self, now_nanos: u64) -> int {
        if now_nanos >= self.base_instant_nanos {
            ((now_nanos - self.base_instant_nanos) as int) / 1_000_000
        } else {
            0
        }
    }

    /// The unclamped reading at `now_nanos`.
    pub open spec fn spec_raw_now(self, now_nanos: u64) -> int {
        self.base_epoch_ms + self.spec_elapsed_ms(now_nanos)
    }

    /// The machine can represent the reading at `now_nanos`: the sum stays
    /// within `i64`, and the clamp has room to add its millisecond.
    pub open spec fn now_in_range(self, now_nanos: u64) -> bool {
        &&& self.spec_raw_now(now_nanos) <= i64::MAX
        &&& (self.monotonic_output ==> self.last_served_ms < i64::MAX)
    }

    /// The value a read at `now_nanos` serves: the raw reading, pushed one
    /// millisecond past the last served value if it would not move forward.
    pub open spec fn spec_now_ms(self, now_nanos: u64) -> int {
        if self.monotonic_output && self.spec_raw_now(now_nanos) <= self.last_served_ms {
            self.last_served_ms + 1
        } else {
            self.spec_raw_now(now_nanos)
        }
    }

    /// The state after a read at `now_nanos`: only the clamp cell moves,
    /// and only on a synced clock in monotonic mode.
    pub open spec fn spec_after_now(self, now_nanos: u64) -> TimeBase {
        if self.has_synced && self.monotonic_output {
            TimeBase { last_served_ms: self.spec_now_ms(now_nanos) as i64, ..self }
        } else {
            self
        }
    }

    pub fn new(monotonic_output: bool) -> (tb: TimeBase)
        ensures
            tb.base_epoch_ms == 0,
            tb.base_instant_nanos == 0,
            tb.last_served_ms == 0,
            tb.monotonic_output == monotonic_output,
            !tb.has_synced,
    {
        TimeBase {
            base_epoch_ms: 0,
            base_instant_nanos: 0,
            last_served_ms: 0,
            monotonic_output,
            has_synced: false,
        }
    }

    /// Accept a sync result: the epoch and its paired instant become the
    /// new anchor, and the clock counts as synced from here on.
    pub fn update(&mut self, sync_result: &SyncResult)
        ensures
            *final(self) == old(self).spec_after_update(*sync_result),
    {
        self.base_epoch_ms = sync_result.epoch_ms;
        self.base_instant_nanos = sync_result.instant;
        self.has_synced = true;
    }

    /// Read the clock at monotonic instant `now_nanos`.
    ///
    /// Before the first sync this is `None`; afterwards it is the epoch of
    /// the last sync advanced by the milliseconds elapsed since its anchor,
    /// clamped to strictly exceed the previous reading in monotonic mode.
    pub fn now_ms(&mut self, now_nanos: u64) -> (r: Option<i64>)
        requires
            old(self).has_synced ==> old(self).now_in_range(now_nanos),
        ensures
            r is Some <==> old(self).has_synced,
            old(self).has_synced ==> r == Some(old(self).spec_now_ms(now_nanos) as i64),
            *final(self) == old(self).spec_after_now(now_nanos),
    {
        if !self.has_synced {
            return None;
        }

        let elapsed_nanos: u64 = if now_nanos >= self.base_instant_nanos {
            now_nanos - self.base_instant_nanos
        } else {
            0
        };
        let elapsed_ms: i64 = (elapsed_nanos / 1_000_000) as i64;
        let mut current_ms: i64 = self.base_epoch_ms + elapsed_ms;

        if self.monotonic_output {
            if current_ms <= self.last_served_ms {
                current_ms = self.last_served_ms + 1;
            }
            self.last_served_ms = current_ms;
        }

        Some(current_ms)
    }

    /// Whether at least one sync has been accepted.
    pub fn has_synced(&self) -> (synced: bool)
        ensures
            synced == self.has_synced,
    {
        self.has_synced
    }
}

/// With monotonic output, served values strictly increase: whatever two
/// instants two consecutive reads use, the second read serves a strictly
/// larger value than the first.
pub proof fn lemma_monotonic_output(tb: TimeBase, n1: u64, n2: u64)
    requires
        tb.has_synced,
        tb.monotonic_output,
        tb.now_in_range(n1),
        tb.spec_after_now(n1).now_in_range(n2),
    ensures
        tb.spec_after_now(n1).spec_now_ms(n2) > tb.spec_now_ms(n1),
{
}

/// Right after an update, a read differs from the accepted epoch by exactly
/// the whole milliseconds elapsed since the result was captured — provided
/// the read instant is not before the capture and the monotonic clamp does
/// not engage.
pub proof fn lemma_read_tracks_sync(tb: TimeBase, sr: SyncResult, now_nanos: u64)
    requires
        now_nanos >= sr.instant,
        tb.spec_after_update(sr).now_in_range(now_nanos),
        tb.monotonic_output ==> tb.last_served_ms < tb.spec_after_update(sr).spec_raw_now(
            now_nanos,
        ),
    ensures
        tb.spec_after_update(sr).spec_now_ms(now_nanos) - sr.epoch_ms == ((now_nanos
            - sr.instant) as int) / 1_000_000,
{
}

/// Once synced, always synced: accepting a result sets the flag, and no
/// read clears it. So a clock that has synced answers `Some` forever.
pub proof fn lemma_synced_forever(tb: TimeBase, sr: SyncResult, n: u64)
    ensures
        tb.spec_after_update(sr).has_synced,
        tb.spec_after_now(n).has_synced == tb.has_synced,
{
}

} // verus!
