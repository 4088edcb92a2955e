use crate::performance::{render_response_json, spec_response_json, wrap_add, LockFreeMetrics};
use crate::state::AppState;
use vstd::prelude::*;

verus! {

pub open spec fn spec_healthz_body() -> Seq<char> {
    "{\"status\":\"ok\"}"@
}

pub open spec fn spec_ready_body() -> Seq<char> {
    "{\"status\":\"ready\"}"@
}

pub open spec fn spec_not_ready_body() -> Seq<char> {
    "{\"reason\":\"not_yet_synced\",\"status\":\"not_ready\"}"@
}

pub open spec fn spec_startup_body() -> Seq<char> {
    "{\"reason\":\"startup_in_progress\",\"status\":\"not_ready\"}"@
}

/// The body served when time is asked for before the first sync and the
/// service is configured to require one.
pub open spec fn spec_error_body(message: Seq<char>, error: Seq<char>) -> Seq<char> {
    "{\"data\":0,\"error\":\""@ + error + "\",\"message\":\""@ + message + "\",\"status\":503}"@
}

/// The liveness probe: always healthy.
pub fn healthz_response() -> (r: (u16, String))
    ensures
        r.0 == 200,
        r.1@ == spec_healthz_body(),
{
    (200, "{\"status\":\"ok\"}".to_owned())
}

/// The readiness probe: not ready exactly while synchronization is
/// required and has not happened yet; ready forever after the first sync.
pub fn readyz_response(state: &AppState) -> (r: (u16, String))
    ensures
        (state.config.ntp.require_sync && !state.timebase.has_synced) ==> r.0 == 503 && r.1@
            == spec_not_ready_body(),
        !(state.config.ntp.require_sync && !state.timebase.has_synced) ==> r.0 == 200 && r.1@
            == spec_ready_body(),
{
    if state.config.ntp.require_sync && !state.timebase.has_synced() {
        (503, "{\"reason\":\"not_yet_synced\",\"status\":\"not_ready\"}".to_owned())
    } else {
        (200, "{\"status\":\"ready\"}".to_owned())
    }
}

/// The startup probe: same predicate as readiness, its own reason text.
pub fn startupz_response(state: &AppState) -> (r: (u16, String))
    ensures
        (state.config.ntp.require_sync && !state.timebase.has_synced) ==> r.0 == 503 && r.1@
            == spec_startup_body(),
        !(state.config.ntp.require_sync && !state.timebase.has_synced) ==> r.0 == 200 && r.1@
            == spec_ready_body(),
{
    if state.config.ntp.require_sync && !state.timebase.has_synced() {
        (503, "{\"reason\":\"startup_in_progress\",\"status\":\"not_ready\"}".to_owned())
    } else {
        (200, "{\"status\":\"ready\"}".to_owned())
    }
}

/// Serve the time, read at monotonic instant `now_nanos`, with
/// `wall_epoch_ms` the system wall clock for the unsynchronized fallback.
///
/// Synced: 200 with the preformatted body, the stale one once the last
/// sync lies beyond the staleness bound; the read moves the monotonic
/// clamp and counts a cache hit. Not synced: 503 with the error body when
/// synchronization is required, else 200 with the wall clock.
pub fn time_response(state: &mut AppState, now_nanos: u64, wall_epoch_ms: i64) -> (r: (u16, String))
    requires
        old(state).timebase.has_synced ==> old(state).timebase.now_in_range(now_nanos),
    ensures
        old(state).timebase.has_synced ==> {
            &&& r.0 == 200
            &&& r.1@ == if old(state).spec_is_stale(now_nanos) {
                old(state).time_cache.json_response_cache@
            } else {
                old(state).time_cache.json_response@
            }
            &&& *final(state) == (AppState {
                timebase: old(state).timebase.spec_after_now(now_nanos),
                perf_metrics: (LockFreeMetrics {
                    cache_hits: wrap_add(old(state).perf_metrics.cache_hits, 1),
                    ..old(state).perf_metrics
                }),
                ..*old(state)
            })
        },
        !old(state).timebase.has_synced ==> *final(state) == *old(state),
        (!old(state).timebase.has_synced && old(state).config.ntp.require_sync) ==> r.0 == 503
            && r.1@ == spec_error_body(
            old(state).config.messages.error@,
            old(state).config.messages.error_no_sync@,
        ),
        (!old(state).timebase.has_synced && !old(state).config.ntp.require_sync) ==> r.0 == 200
            && r.1@ == spec_response_json(wall_epoch_ms as int, old(state).config.messages.ok@),
{
    if state.timebase.has_synced() {
        let _ = state.timebase.now_ms(now_nanos);
        let is_stale = match state.get_staleness_seconds(now_nanos) {
            Some(s) => s > state.config.ntp.max_staleness_secs,
            None => false,
        };
        let body = state.time_cache.get_json(is_stale).clone();
        state.perf_metrics.record_cache_hit();
        (200, body)
    } else if state.config.ntp.require_sync {
        let mut body: String = "{\"data\":0,\"error\":\"".to_owned();
        body.append(state.config.messages.error_no_sync.as_str());
        body.append("\",\"message\":\"");
        body.append(state.config.messages.error.as_str());
        body.append("\",\"status\":503}");
        proof {
            assert(body@ =~= spec_error_body(
                state.config.messages.error@,
                state.config.messages.error_no_sync@,
            ));
        }
        (503, body)
    } else {
        let body = render_response_json(wall_epoch_ms, state.config.messages.ok.as_str());
        (200, body)
    }
}

} // verus!
