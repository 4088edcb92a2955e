use crate::config::NtpConfig;
use crate::errors::{ProbeError, SyncError};
use crate::selection::{
    chosen_fallback, chosen_inlier, has_inlier, median_of, offsets_of, NtpResult, ServerSelector,
};
use crate::stats::ServerStats;
use vstd::prelude::*;

verus! {

/// The outcome of one successful sync round, ready to feed the time base.
///
/// `rtt` is the round trip of the winning exchange in milliseconds.
/// `instant` is the monotonic instant at which `epoch_ms` was computed, in
/// nanoseconds on the process-wide clock: the two travel together so the
/// time base never pairs the epoch with a later instant.
#[derive(Debug, Clone, PartialEq, Eq)]
pub struct SyncResult {
    pub epoch_ms: i64,
    pub server: String,
    pub rtt: u64,
    pub instant: u64,
}

/// What one probe attempt came back with, ready to be recorded.
#[derive(Debug)]
pub struct ProbeOutcome {
    pub server: String,
    pub outcome: Result<NtpResult, ProbeError>,
}

/// Assemble one probe sample from what an exchange produced: the server
/// offset in milliseconds, the wall clock sampled right after the reply
/// (epoch milliseconds), the round trip in milliseconds, and the monotonic
/// instant captured back-to-back with the wall clock.
///
/// The sample's epoch is the wall clock shifted by the offset; a shift that
/// leaves the valid epoch range is rejected.
pub fn compute_probe_result(
    server: String,
    offset_ms: i64,
    wall_epoch_ms: i64,
    rtt_ms: u64,
    captured_nanos: u64,
) -> (r: Result<NtpResult, ProbeError>)
    ensures
        r is Ok <==> 0 <= wall_epoch_ms + offset_ms <= i64::MAX,
        match r {
            Ok(p) => {
                &&& p.server == server
                &&& p.epoch_ms == wall_epoch_ms + offset_ms
                &&& p.rtt == rtt_ms
                &&& p.offset_ms == offset_ms
                &&& p.instant == captured_nanos
            },
            Err(e) => e == ProbeError::ClockUnderflow,
        },
{
    let shifted: i128 = wall_epoch_ms as i128 + offset_ms as i128;
    if shifted < 0 || shifted > i64::MAX as i128 {
        Err(ProbeError::ClockUnderflow)
    } else {
        Ok(
            NtpResult {
                server,
                epoch_ms: shifted as i64,
                rtt: rtt_ms,
                offset_ms,
                instant: captured_nanos,
            },
        )
    }
}

/// The samples of the outcomes that succeeded, in order.
pub open spec fn successes_of(outcomes: Seq<ProbeOutcome>) -> Seq<NtpResult>
    decreases outcomes.len(),
{
    if outcomes.len() == 0 {
        Seq::empty()
    } else {
        let rest = successes_of(outcomes.drop_last());
        match outcomes.last().outcome {
            Ok(p) => rest.push(p),
            Err(_) => rest,
        }
    }
}

/// `sr` is the sample at `i` of the batch, its epoch shifted by `bias`.
pub open spec fn picked_from(sr: SyncResult, succ: Seq<NtpResult>, bias: int, i: int) -> bool {
    &&& 0 <= i < succ.len()
    &&& sr.epoch_ms == succ[i].epoch_ms + bias
    &&& sr.server == succ[i].server
    &&& sr.rtt == succ[i].rtt
    &&& sr.instant == succ[i].instant
}

/// What a successful round returns: the selected sample — a batch's only
/// sample, the consensus choice, or the round-trip fallback — with the
/// configured bias applied to its epoch.
pub open spec fn sync_result_ok(sr: SyncResult, succ: Seq<NtpResult>, skew: int, bias: int) -> bool {
    if succ.len() == 1 {
        picked_from(sr, succ, bias, 0)
    } else {
        let med = median_of(offsets_of(succ)) as int;
        if has_inlier(succ, med, skew) {
            exists|i: int| #[trigger] chosen_inlier(succ, med, skew, i) && picked_from(
                sr,
                succ,
                bias,
                i,
            )
        } else {
            exists|i: int| #[trigger] chosen_fallback(succ, i) && picked_from(sr, succ, bias, i)
        }
    }
}

/// Every successful sample is the payload of one of the outcomes.
proof fn lemma_success_sources(o: Seq<ProbeOutcome>)
    ensures
        forall|j: int|
            0 <= j < successes_of(o).len() ==> exists|k: int|
                0 <= k < o.len() && (#[trigger] o[k]).outcome == Ok::<NtpResult, ProbeError>(
                    #[trigger] successes_of(o)[j],
                ),
    decreases o.len(),
{
    if o.len() > 0 {
        let rest = o.drop_last();
        lemma_success_sources(rest);
        assert forall|j: int| 0 <= j < successes_of(o).len() implies exists|k: int|
            0 <= k < o.len() && (#[trigger] o[k]).outcome == Ok::<NtpResult, ProbeError>(
                #[trigger] successes_of(o)[j],
            ) by {
            if j < successes_of(rest).len() {
                let k = choose|k: int|
                    0 <= k < rest.len() && (#[trigger] rest[k]).outcome == Ok::<
                        NtpResult,
                        ProbeError,
                    >(successes_of(rest)[j]);
                assert(o[k].outcome == Ok::<NtpResult, ProbeError>(successes_of(o)[j]));
            } else {
                assert(o[o.len() - 1].outcome == Ok::<NtpResult, ProbeError>(successes_of(o)[j]));
            }
        }
    }
}

/// Drives the probe rounds: owns the configuration and one health record
/// per distinct configured server.
#[derive(Debug)]
pub struct NtpSyncer {
    pub config: NtpConfig,
    pub stats: Vec<ServerStats>,
}

impl NtpSyncer {
    /// One fresh health record per distinct configured server, in first
    /// occurrence order.
    #[verifier::rlimit(50)]
    pub fn new(config: NtpConfig) -> (s: NtpSyncer)
        ensures
            s.config == config,
            forall|i: int, j: int|
                0 <= i < j < s.stats@.len() ==> (#[trigger] s.stats@[i]).address@ != (
                #[trigger] s.stats@[j]).address@,
            s.stats@.len() <= config.servers@.len(),
            // a record sits at some index for every configured server: the
            // witness map sends each server to its record
            exists|where_at: Seq<int>|
                (#[trigger] where_at.len()) == s.config.servers@.len() && (forall|m: int|
                    0 <= m < where_at.len() ==> 0 <= #[trigger] where_at[m] < s.stats@.len()
                        && s.stats@[where_at[m]].address@ == s.config.servers@[m]@),
            // and every record belongs to some configured server
            exists|from: Seq<int>|
                (#[trigger] from.len()) == s.stats@.len() && (forall|i: int|
                    0 <= i < from.len() ==> 0 <= #[trigger] from[i] < s.config.servers@.len()
                        && s.stats@[i].address@ == s.config.servers@[from[i]]@),
            forall|i: int|
                0 <= i < s.stats@.len() ==> {
                    let st = #[trigger] s.stats@[i];
                    &&& st.last_rtt is None
                    &&& st.last_success is None
                    &&& st.last_failure is None
                    &&& st.consecutive_failures == 0
                    &&& st.total_queries == 0
                    &&& st.total_failures == 0
                    &&& !st.disabled
                },
    {
        let mut stats: Vec<ServerStats> = Vec::new();
        // ghost maps: loc[m] is where server m's record sits; src[i] is a
        // server that record i came from
        let ghost mut loc: Seq<int> = Seq::empty();
        let ghost mut src: Seq<int> = Seq::empty();
        let mut k: usize = 0;
        while k < config.servers.len()
            invariant
                k <= config.servers@.len(),
                stats@.len() <= k,
                loc.len() == k,
                src.len() == stats@.len(),
                forall|m: int|
                    0 <= m < k ==> 0 <= #[trigger] loc[m] < stats@.len(),
                forall|m: int|
                    0 <= m < k ==> stats@[#[trigger] loc[m]].address@ == config.servers@[m]@,
                forall|i: int| 0 <= i < stats@.len() ==> 0 <= #[trigger] src[i] < k,
                forall|i: int|
                    0 <= i < stats@.len() ==> (#[trigger] stats@[i]).address@ == config.servers@[src[i]]@,
                forall|i: int, j: int|
                    0 <= i < j < stats@.len() ==> (#[trigger] stats@[i]).address@ != (
                    #[trigger] stats@[j]).address@,
                forall|i: int|
                    0 <= i < stats@.len() ==> {
                        let st = #[trigger] stats@[i];
                        &&& st.last_rtt is None
                        &&& st.last_success is None
                        &&& st.last_failure is None
                        &&& st.consecutive_failures == 0
                        &&& st.total_queries == 0
                        &&& st.total_failures == 0
                        &&& !st.disabled
                    },
            decreases config.servers@.len() - k,
        {
            let server = &config.servers[k];
            let mut present = false;
            let mut found: usize = 0;
            let mut i: usize = 0;
            while i < stats.len()
                invariant
                    i <= stats@.len(),
                    present ==> found < i && stats@[found as int].address@ == server@,
                    !present ==> forall|j: int|
                        0 <= j < i ==> (#[trigger] stats@[j]).address@ != server@,
                decreases stats@.len() - i,
            {
                if stats[i].address.eq(server) {
                    present = true;
                    found = i;
                }
                i = i + 1;
            }
            if !present {
                proof {
                    src = src.push(k as int);
                }
                stats.push(ServerStats::new(server.clone()));
                proof {
                    loc = loc.push(stats@.len() - 1);
                }
            } else {
                proof {
                    loc = loc.push(found as int);
                }
            }
            k = k + 1;
        }
        let syncer = NtpSyncer { config, stats };
        proof {
            assert(loc.len() == syncer.config.servers@.len());
            assert(forall|m: int|
                0 <= m < loc.len() ==> 0 <= #[trigger] loc[m] < syncer.stats@.len()
                    && syncer.stats@[loc[m]].address@ == syncer.config.servers@[m]@);
            assert(src.len() == syncer.stats@.len());
            assert(forall|i: int|
                0 <= i < src.len() ==> 0 <= #[trigger] src[i] < syncer.config.servers@.len()
                    && syncer.stats@[i].address@ == syncer.config.servers@[src[i]]@);
        }
        syncer
    }

    /// Record one probe outcome against the health record of its server,
    /// if that server is known: a success clears the failure streak, a
    /// failure grows it. Outcomes for unknown servers change nothing.
    ///
    /// Returns the index of the record that changed — the first whose
    /// address matches — together with the flag `record_success` or
    /// `record_failure` reported for it.
    pub fn record_outcome(&mut self, outcome: &ProbeOutcome, now_nanos: u64) -> (recorded: Option<
        (usize, bool),
    >)
        requires
            forall|i: int|
                0 <= i < old(self).stats@.len() ==> {
                    let st = #[trigger] old(self).stats@[i];
                    &&& st.total_queries < u64::MAX
                    &&& st.total_failures < u64::MAX
                    &&& st.consecutive_failures < u32::MAX
                },
        ensures
            final(self).config == old(self).config,
            match recorded {
                None => final(self).stats@ == old(self).stats@ && (forall|i: int|
                    0 <= i < old(self).stats@.len() ==> (#[trigger] old(self).stats@[i]).address@
                        != outcome.server@),
                Some((i, changed)) => {
                    &&& (i as int) < old(self).stats@.len()
                    &&& old(self).stats@[i as int].address@ == outcome.server@
                    &&& (forall|j: int|
                        0 <= j < i ==> (#[trigger] old(self).stats@[j]).address@
                            != outcome.server@)
                    &&& match outcome.outcome {
                        Ok(p) => final(self).stats@ == old(self).stats@.update(
                            i as int,
                            old(self).stats@[i as int].spec_record_success(p.rtt, now_nanos),
                        ) && changed == old(self).stats@[i as int].disabled,
                        Err(_) => final(self).stats@ == old(self).stats@.update(
                            i as int,
                            old(self).stats@[i as int].spec_record_failure(
                                old(self).config.max_consecutive_failures,
                                now_nanos,
                            ),
                        ) && changed == (!old(self).stats@[i as int].disabled && old(
                            self,
                        ).stats@[i as int].consecutive_failures + 1 >= old(
                            self,
                        ).config.max_consecutive_failures),
                    }
                },
            },
    {
        let mut i: usize = 0;
        let n = self.stats.len();
        while i < n
            invariant
                n == self.stats@.len(),
                i <= n,
                forall|j: int|
                    0 <= j < i ==> (#[trigger] self.stats@[j]).address@ != outcome.server@,
                self.stats@ == old(self).stats@,
                self.config == old(self).config,
                forall|j: int|
                    0 <= j < old(self).stats@.len() ==> {
                        let st = #[trigger] old(self).stats@[j];
                        &&& st.total_queries < u64::MAX
                        &&& st.total_failures < u64::MAX
                        &&& st.consecutive_failures < u32::MAX
                    },
            decreases n - i,
        {
            if self.stats[i].address.eq(&outcome.server) {
                let mut st = self.stats.remove(i);
                let changed: bool;
                match &outcome.outcome {
                    Ok(p) => {
                        changed = st.record_success(p.rtt, now_nanos);
                    },
                    Err(_) => {
                        changed = st.record_failure(
                            self.config.max_consecutive_failures,
                            now_nanos,
                        );
                    },
                }
                let ghost updated = st;
                self.stats.insert(i, st);
                proof {
                    old(self).stats@.remove_ensures(i as int);
                    old(self).stats@.remove(i as int).insert_ensures(i as int, updated);
                    assert(self.stats@ =~= old(self).stats@.update(i as int, updated));
                }
                return Some((i, changed));
            }
            i = i + 1;
        }
        None
    }

    /// Run one sync round over the collected probe outcomes: record every
    /// outcome against its server's health record, then select the best
    /// successful sample and shift its epoch by the configured bias.
    #[verifier::rlimit(50)]
    pub fn apply_probe_outcomes(&mut self, outcomes: &Vec<ProbeOutcome>, now_nanos: u64) -> (r:
        Result<SyncResult, SyncError>)
        requires
            forall|i: int|
                0 <= i < old(self).stats@.len() ==> {
                    let st = #[trigger] old(self).stats@[i];
                    &&& st.total_queries + outcomes@.len() <= u64::MAX
                    &&& st.total_failures + outcomes@.len() <= u64::MAX
                    &&& st.consecutive_failures + outcomes@.len() <= u32::MAX
                },
            forall|k: int|
                0 <= k < outcomes@.len() ==> match (#[trigger] outcomes@[k]).outcome {
                    Ok(p) => i64::MIN <= p.epoch_ms + old(self).config.offset_bias_ms <= i64::MAX,
                    Err(_) => true,
                },
        ensures
            final(self).config == old(self).config,
            final(self).stats@.len() == old(self).stats@.len(),
            forall|i: int|
                0 <= i < old(self).stats@.len() ==> (#[trigger] final(self).stats@[i]).address
                    == old(self).stats@[i].address,
            // a record no outcome names is left exactly as it was
            forall|i: int|
                0 <= i < old(self).stats@.len() && (forall|k: int|
                    0 <= k < outcomes@.len() ==> (#[trigger] outcomes@[k]).server@ != old(
                        self,
                    ).stats@[i].address@) ==> #[trigger] final(self).stats@[i] == old(
                    self,
                ).stats@[i],
            // the health flags stay in step with the failure streaks
            (old(self).config.max_consecutive_failures >= 1 && (forall|i: int|
                0 <= i < old(self).stats@.len() ==> (#[trigger] old(self).stats@[i]).failure_flag_consistent(old(self).config.max_consecutive_failures)))
                ==> (forall|i: int|
                0 <= i < final(self).stats@.len() ==> (#[trigger] final(self).stats@[i]).failure_flag_consistent(old(self).config.max_consecutive_failures)),
            r is Ok <==> successes_of(outcomes@).len() > 0,
            r is Err ==> r == Err::<SyncResult, SyncError>(SyncError::AllServersFailed),
            match r {
                Ok(sr) => sync_result_ok(
                    sr,
                    successes_of(outcomes@),
                    old(self).config.max_offset_skew_ms as int,
                    old(self).config.offset_bias_ms as int,
                ),
                Err(_) => true,
            },
    {
        let threshold: u32 = self.config.max_consecutive_failures;

        // record every outcome against its server
        let mut k: usize = 0;
        let n = outcomes.len();
        while k < n
            invariant
                n == outcomes@.len(),
                k <= n,
                threshold == old(self).config.max_consecutive_failures,
                self.config == old(self).config,
                self.stats@.len() == old(self).stats@.len(),
                forall|i: int|
                    0 <= i < old(self).stats@.len() ==> (#[trigger] self.stats@[i]).address == old(
                        self,
                    ).stats@[i].address,
                forall|i: int|
                    0 <= i < old(self).stats@.len() && (forall|m: int|
                        0 <= m < outcomes@.len() ==> (#[trigger] outcomes@[m]).server@ != old(
                            self,
                        ).stats@[i].address@) ==> #[trigger] self.stats@[i] == old(self).stats@[i],
                forall|i: int|
                    0 <= i < self.stats@.len() ==> {
                        let st = #[trigger] self.stats@[i];
                        &&& st.total_queries + (n - k) <= u64::MAX
                        &&& st.total_failures + (n - k) <= u64::MAX
                        &&& st.consecutive_failures + (n - k) <= u32::MAX
                    },
                (threshold >= 1 && (forall|i: int|
                    0 <= i < old(self).stats@.len() ==> (#[trigger] old(
                        self,
                    ).stats@[i]).failure_flag_consistent(threshold))) ==> (forall|i: int|
                    0 <= i < self.stats@.len() ==> (#[trigger] self.stats@[i]).failure_flag_consistent(
                        threshold,
                    )),
                forall|m: int|
                    0 <= m < outcomes@.len() ==> match (#[trigger] outcomes@[m]).outcome {
                        Ok(p) => i64::MIN <= p.epoch_ms + old(self).config.offset_bias_ms
                            <= i64::MAX,
                        Err(_) => true,
                    },
            decreases n - k,
        {
            let ghost pre = self.stats@;
            let recorded = self.record_outcome(&outcomes[k], now_nanos);
            proof {
                let cur = self.stats@;
                match recorded {
                    None => {
                        assert(cur == pre);
                    },
                    Some((i, _changed)) => {
                        let ii = i as int;
                        assert(self.config == old(self).config);
                        assert(self.config.max_consecutive_failures == threshold);
                        match outcomes@[k as int].outcome {
                            Ok(p) => {
                                assert(cur == pre.update(
                                    ii,
                                    pre[ii].spec_record_success(p.rtt, now_nanos),
                                ));
                            },
                            Err(_) => {
                                assert(cur == pre.update(
                                    ii,
                                    pre[ii].spec_record_failure(threshold, now_nanos),
                                ));
                            },
                        }
                        assert forall|j: int|
                            0 <= j < cur.len() implies ((#[trigger] cur[j]).address
                            == pre[j].address && cur[j].total_queries <= pre[j].total_queries + 1
                            && cur[j].total_failures <= pre[j].total_failures + 1
                            && cur[j].consecutive_failures <= pre[j].consecutive_failures
                            + 1) by {
                            if j != ii {
                                assert(cur[j] == pre[j]);
                            }
                        }
                        if threshold >= 1 && (forall|m: int|
                            0 <= m < old(self).stats@.len() ==> (#[trigger] old(
                                self,
                            ).stats@[m]).failure_flag_consistent(threshold)) {
                            assert forall|j: int|
                                0 <= j < cur.len() implies (#[trigger] cur[j]).failure_flag_consistent(
                                threshold,
                            ) by {
                                if j == ii {
                                    match outcomes@[k as int].outcome {
                                        Ok(p) => {
                                            crate::stats::lemma_success_restores_flag(
                                                pre[ii],
                                                p.rtt,
                                                now_nanos,
                                                threshold,
                                            );
                                            assert(cur[j] == pre[ii].spec_record_success(
                                                p.rtt,
                                                now_nanos,
                                            ));
                                        },
                                        Err(_) => {
                                            assert(pre[ii].consecutive_failures + (n - k)
                                                <= u32::MAX);
                                            assert(pre[ii].failure_flag_consistent(threshold));
                                            crate::stats::lemma_failure_preserves_flag(
                                                pre[ii],
                                                threshold,
                                                now_nanos,
                                            );
                                            assert(cur[j] == pre[ii].spec_record_failure(
                                                threshold,
                                                now_nanos,
                                            ));
                                        },
                                    }
                                } else {
                                    assert(cur[j] == pre[j]);
                                }
                            }
                        }
                    },
                }
            }
            k = k + 1;
        }

        // collect the successful samples, in order
        let mut successes: Vec<NtpResult> = Vec::new();
        let mut k: usize = 0;
        while k < n
            invariant
                n == outcomes@.len(),
                k <= n,
                successes@ == successes_of(outcomes@.take(k as int)),
            decreases n - k,
        {
            match &outcomes[k].outcome {
                Ok(p) => {
                    successes.push(p.duplicate());
                },
                Err(_) => {},
            }
            proof {
                assert(outcomes@.take(k + 1).drop_last() =~= outcomes@.take(k as int));
                assert(outcomes@.take(k + 1).last() == outcomes@[k as int]);
            }
            k = k + 1;
        }
        proof {
            assert(outcomes@.take(outcomes@.len() as int) =~= outcomes@);
        }

        if successes.len() == 0 {
            return Err(SyncError::AllServersFailed);
        }

        let ghost gsucc = successes@;
        proof {
            lemma_success_sources(outcomes@);
        }
        let skew = self.config.max_offset_skew_ms;
        let bias = self.config.offset_bias_ms;
        match ServerSelector::select_best_result(successes, skew) {
            None => Err(SyncError::NoConsensus),
            Some(best) => {
                proof {
                    assert(exists|j: int| 0 <= j < gsucc.len() && gsucc[j] == best);
                }
                let epoch_ms = best.epoch_ms + bias;
                Ok(
                    SyncResult {
                        epoch_ms,
                        server: best.server,
                        rtt: best.rtt,
                        instant: best.instant,
                    },
                )
            },
        }
    }

    /// A copy of the health records, in order.
    pub fn get_stats(&self) -> (stats: Vec<ServerStats>)
        ensures
            stats@ == self.stats@,
    {
        let mut out: Vec<ServerStats> = Vec::new();
        let mut i: usize = 0;
        while i < self.stats.len()
            invariant
                i <= self.stats@.len(),
                out@.len() == i,
                forall|j: int| 0 <= j < i ==> out@[j] == self.stats@[j],
            decreases self.stats@.len() - i,
        {
            out.push(self.stats[i].duplicate());
            i = i + 1;
        }
        proof {
            assert(out@ =~= self.stats@);
        }
        out
    }
}

} // verus!
