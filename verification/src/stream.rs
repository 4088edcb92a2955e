use crate::iso8601::{
    day_number, format_epoch_ms_to_iso8601, iso_in_range, rata_die, spec_render_iso,
    time_of_day_ms, valid_date,
};
use crate::numfmt::{append_i64, append_u64, spec_digits, spec_int_string};
use crate::state::AppState;
use vstd::prelude::*;

verus! {

pub open spec fn spec_bool_text(b: bool) -> Seq<char> {
    if b {
        "true"@
    } else {
        "false"@
    }
}

/// The frame greeting a new stream subscriber.
pub open spec fn spec_welcome_body(
    message: Seq<char>,
    update_interval_ms: u64,
    max_duration_secs: u64,
) -> Seq<char> {
    "{\"max_duration_secs\":"@ + spec_digits(max_duration_secs as nat) + ",\"message\":\""@
        + message + "\",\"type\":\"welcome\",\"update_interval_ms\":"@ + spec_digits(
        update_interval_ms as nat,
    ) + "}"@
}

/// One periodic reading pushed to a subscriber.
pub open spec fn spec_tick_body(
    epoch_ms: int,
    is_stale: bool,
    iso: Seq<char>,
    message: Seq<char>,
    sequence: u64,
    staleness_secs: u64,
) -> Seq<char> {
    "{\"epoch_ms\":"@ + spec_int_string(epoch_ms) + ",\"is_stale\":"@ + spec_bool_text(is_stale)
        + ",\"iso8601\":\""@ + iso + "\",\"message\":\""@ + message + "\",\"sequence\":"@
        + spec_digits(sequence as nat) + ",\"staleness_secs\":"@ + spec_digits(
        staleness_secs as nat,
    ) + ",\"type\":\"tick\"}"@
}

/// The frame pushed while the clock has not synced yet.
pub open spec fn spec_stream_error_body(message: Seq<char>, sequence: u64) -> Seq<char> {
    "{\"message\":\""@ + message + "\",\"sequence\":"@ + spec_digits(sequence as nat)
        + ",\"type\":\"error\"}"@
}

/// `iso` is what the formatter produces for `epoch_ms`: the fixed-width
/// rendering of the date the epoch falls on, or the text `invalid` outside
/// the supported years.
pub open spec fn is_iso_rendering_of(iso: Seq<char>, epoch_ms: int) -> bool {
    if iso_in_range(epoch_ms) {
        exists|y: int, m: int, d: int|
            {
                &&& #[trigger] valid_date(y, m, d)
                &&& rata_die(y, m, d) == day_number(epoch_ms)
                &&& iso == spec_render_iso(y, m, d, time_of_day_ms(epoch_ms))
            }
    } else {
        iso == "invalid"@
    }
}

/// How many ticks a stream may push before it closes.
pub fn max_updates(max_duration_secs: u64, update_interval_ms: u64) -> (n: u64)
    requires
        update_interval_ms > 0,
        max_duration_secs <= u64::MAX / 1000,
    ensures
        n == (max_duration_secs * 1000) as int / update_interval_ms as int,
{
    (max_duration_secs * 1000) / update_interval_ms
}

/// The welcome frame for a new subscriber.
pub fn welcome_message(message: &str, update_interval_ms: u64, max_duration_secs: u64) -> (s:
    String)
    ensures
        s@ == spec_welcome_body(message@, update_interval_ms, max_duration_secs),
{
    let mut s: String = "{\"max_duration_secs\":".to_owned();
    append_u64(&mut s, max_duration_secs);
    s.append(",\"message\":\"");
    s.append(message);
    s.append("\",\"type\":\"welcome\",\"update_interval_ms\":");
    append_u64(&mut s, update_interval_ms);
    s.append("}");
    proof {
        assert(s@ =~= spec_welcome_body(message@, update_interval_ms, max_duration_secs));
    }
    s
}

/// The frame for one stream tick, read at monotonic instant `now_nanos`.
///
/// Synced: a tick frame carrying the reading, its rendering, the staleness
/// judgement and the fitting message; the read moves the monotonic clamp.
/// Not synced: an error frame, and nothing changes.
pub fn tick_message(state: &mut AppState, now_nanos: u64, sequence: u64) -> (s: String)
    requires
        old(state).timebase.has_synced ==> old(state).timebase.now_in_range(now_nanos),
    ensures
        old(state).timebase.has_synced ==> *final(state) == (AppState {
            timebase: old(state).timebase.spec_after_now(now_nanos),
            ..*old(state)
        }),
        !old(state).timebase.has_synced ==> *final(state) == *old(state),
        old(state).timebase.has_synced ==> exists|iso: Seq<char>|
            {
                &&& #[trigger] is_iso_rendering_of(iso, old(state).timebase.spec_now_ms(now_nanos))
                &&& s@ == spec_tick_body(
                    old(state).timebase.spec_now_ms(now_nanos),
                    old(state).spec_is_stale(now_nanos),
                    iso,
                    if old(state).spec_is_stale(now_nanos) {
                        old(state).config.messages.ok_cache@
                    } else {
                        old(state).config.messages.ok@
                    },
                    sequence,
                    match old(state).spec_staleness_secs(now_nanos) {
                        Some(st) => st,
                        None => 0u64,
                    },
                )
            },
        !old(state).timebase.has_synced ==> s@ == spec_stream_error_body(
            old(state).config.messages.error_no_sync@,
            sequence,
        ),
{
    if state.timebase.has_synced() {
        let epoch_opt = state.timebase.now_ms(now_nanos);
        let epoch_ms = match epoch_opt {
            Some(e) => e,
            None => 0,
        };
        let staleness = match state.get_staleness_seconds(now_nanos) {
            Some(st) => st,
            None => 0,
        };
        let is_stale = match state.get_staleness_seconds(now_nanos) {
            Some(st) => st > state.config.ntp.max_staleness_secs,
            None => false,
        };
        let iso = format_epoch_ms_to_iso8601(epoch_ms);
        let mut s: String = "{\"epoch_ms\":".to_owned();
        append_i64(&mut s, epoch_ms);
        s.append(",\"is_stale\":");
        if is_stale {
            s.append("true");
        } else {
            s.append("false");
        }
        s.append(",\"iso8601\":\"");
        s.append(iso.as_str());
        s.append("\",\"message\":\"");
        if is_stale {
            s.append(state.config.messages.ok_cache.as_str());
        } else {
            s.append(state.config.messages.ok.as_str());
        }
        s.append("\",\"sequence\":");
        append_u64(&mut s, sequence);
        s.append(",\"staleness_secs\":");
        append_u64(&mut s, staleness);
        s.append(",\"type\":\"tick\"}");
        proof {
            assert(epoch_ms as int == old(state).timebase.spec_now_ms(now_nanos));
            assert(is_iso_rendering_of(iso@, epoch_ms as int));
            assert(s@ =~= spec_tick_body(
                old(state).timebase.spec_now_ms(now_nanos),
                old(state).spec_is_stale(now_nanos),
                iso@,
                if old(state).spec_is_stale(now_nanos) {
                    old(state).config.messages.ok_cache@
                } else {
                    old(state).config.messages.ok@
                },
                sequence,
                match old(state).spec_staleness_secs(now_nanos) {
                    Some(st) => st,
                    None => 0u64,
                },
            ));
        }
        s
    } else {
        let mut s: String = "{\"message\":\"".to_owned();
        s.append(state.config.messages.error_no_sync.as_str());
        s.append("\",\"sequence\":");
        append_u64(&mut s, sequence);
        s.append(",\"type\":\"error\"}");
        proof {
            assert(s@ =~= spec_stream_error_body(
                old(state).config.messages.error_no_sync@,
                sequence,
            ));
        }
        s
    }
}

} // verus!
