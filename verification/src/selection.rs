use crate::stats::ServerStats;
use vstd::prelude::*;
use vstd::relations::{sorted_by, total_ordering};
use vstd::seq_lib::{lemma_multiset_commutative, lemma_sorted_unique};

verus! {

/// One successful SNTP exchange, as handed to selection.
///
/// `rtt` is the round trip in milliseconds; `instant` is the monotonic
/// instant at which the reply was captured, in nanoseconds on the
/// process-wide clock; `offset_ms` is the estimated difference between the
/// server clock and the local wall clock.
#[derive(Debug, Clone, PartialEq, Eq)]
pub struct NtpResult {
    pub server: String,
    pub epoch_ms: i64,
    pub rtt: u64,
    pub offset_ms: i64,
    pub instant: u64,
}

impl NtpResult {
    /// A copy equal to `self` (field for field, including the address).
    pub fn duplicate(&self) -> (r: NtpResult)
        ensures
            r == *self,
    {
        NtpResult {
            server: self.server.clone(),
            epoch_ms: self.epoch_ms,
            rtt: self.rtt,
            offset_ms: self.offset_ms,
            instant: self.instant,
        }
    }
}

/// The ordering along which offsets are sorted for the median.
pub open spec fn i64_leq() -> spec_fn(i64, i64) -> bool {
    |a: i64, b: i64| a <= b
}

/// The offsets of a batch, in batch order.
pub open spec fn offsets_of(rs: Seq<NtpResult>) -> Seq<i64> {
    rs.map_values(|r: NtpResult| r.offset_ms)
}

/// The lower median of a non-empty collection of offsets: the element a
/// sorted arrangement holds at index `(len - 1) / 2`.
pub open spec fn median_of(s: Seq<i64>) -> i64
    recommends
        s.len() > 0,
{
    s.sort_by(i64_leq())[((s.len() - 1) as int) / 2]
}

/// Distance between two integers.
pub open spec fn abs_diff(a: int, b: int) -> int {
    if a >= b {
        a - b
    } else {
        b - a
    }
}

/// A sample agrees with the consensus when its offset lies within the
/// permitted skew of the median.
pub open spec fn is_inlier(r: NtpResult, median: int, skew: int) -> bool {
    abs_diff(r.offset_ms as int, median) <= skew
}

pub open spec fn has_inlier(rs: Seq<NtpResult>, median: int, skew: int) -> bool {
    exists|j: int| 0 <= j < rs.len() && is_inlier(#[trigger] rs[j], median, skew)
}

proof fn lemma_i64_leq_total()
    ensures
        total_ordering(i64_leq()),
{
}

proof fn lemma_insert_to_multiset(s: Seq<i64>, i: int, x: i64)
    requires
        0 <= i <= s.len(),
    ensures
        s.insert(i, x).to_multiset() =~= s.to_multiset().insert(x),
{
    broadcast use vstd::seq_lib::group_to_multiset_ensures;
    broadcast use vstd::multiset::group_multiset_axioms;

    let left = s.subrange(0, i);
    let right = s.subrange(i, s.len() as int);
    assert(s =~= left + right);
    lemma_multiset_commutative(left, right);
    lemma_multiset_commutative(left.push(x), right);
}

/// Insert `x` into an already sorted vector, keeping it sorted.
#[verifier::rlimit(50)]
fn insert_sorted(v: &mut Vec<i64>, x: i64)
    requires
        sorted_by(old(v)@, i64_leq()),
        old(v)@.len() < usize::MAX,
    ensures
        sorted_by(final(v)@, i64_leq()),
        final(v)@.to_multiset() =~= old(v)@.to_multiset().insert(x),
        final(v)@.len() == old(v)@.len() + 1,
{
    let mut pos: usize = 0;
    while pos < v.len() && v[pos] <= x
        invariant
            pos <= v@.len(),
            forall|p: int| 0 <= p < pos ==> #[trigger] v@[p] <= x,
            sorted_by(v@, i64_leq()),
            v@ == old(v)@,
        decreases v@.len() - pos,
    {
        pos = pos + 1;
    }
    proof {
        assert(pos == v@.len() || v@[pos as int] > x);
        old(v)@.insert_ensures(pos as int, x);
        lemma_insert_to_multiset(old(v)@, pos as int, x);
    }
    v.insert(pos, x);
    proof {
        let prev = old(v)@;
        let new = prev.insert(pos as int, x);
        assert forall|p: int, q: int| 0 <= p < q < new.len() implies #[trigger] i64_leq()(
            new[p],
            new[q],
        ) by {
            if q < pos {
                assert(i64_leq()(prev[p], prev[q]));
            } else if p > pos {
                assert(i64_leq()(prev[p - 1], prev[q - 1]));
            } else if p == pos {
                // new[p] == x, new[q] == prev[q - 1], q - 1 >= pos
                assert(prev[pos as int] > x);
                if q - 1 > pos {
                    assert(i64_leq()(prev[pos as int], prev[q - 1]));
                }
            } else if q == pos {
                // new[p] == prev[p] <= x == new[q] by the loop invariant
                assert(prev[p] <= x);
            } else {
                // p < pos < q: new[p] == prev[p] <= x < prev[pos] <= prev[q - 1]
                assert(prev[p] <= x);
                assert(prev[pos as int] > x);
                if q - 1 > pos {
                    assert(i64_leq()(prev[pos as int], prev[q - 1]));
                }
            }
        }
    }
}

/// A copy of `v` arranged in non-decreasing order; exactly the arrangement
/// the specification-level `sort_by` describes.
pub fn sorted_copy(v: &Vec<i64>) -> (out: Vec<i64>)
    ensures
        out@ == v@.sort_by(i64_leq()),
{
    broadcast use vstd::seq_lib::group_to_multiset_ensures;

    let mut out: Vec<i64> = Vec::new();
    let mut i: usize = 0;
    while i < v.len()
        invariant
            i <= v@.len(),
            sorted_by(out@, i64_leq()),
            out@.to_multiset() =~= v@.take(i as int).to_multiset(),
            out@.len() == i,
        decreases v@.len() - i,
    {
        let ghost pre = out@;
        insert_sorted(&mut out, v[i]);
        proof {
            assert(v@.take(i + 1) =~= v@.take(i as int).push(v@[i as int]));
            vstd::seq_lib::to_multiset_build::<i64>(v@.take(i as int), v@[i as int]);
            assert(out@.to_multiset() =~= pre.to_multiset().insert(v@[i as int]));
        }
        i = i + 1;
    }
    proof {
        assert(v@.take(v@.len() as int) =~= v@);
        v@.lemma_sort_by_ensures(i64_leq());
        lemma_i64_leq_total();
        assert(out@.to_multiset().len() == out@.len());
        lemma_sorted_unique(out@, v@.sort_by(i64_leq()), i64_leq());
    }
    out
}

/// The lower median of a non-empty batch of offsets.
pub fn median_offset(offsets: &Vec<i64>) -> (m: i64)
    requires
        offsets@.len() > 0,
    ensures
        m == median_of(offsets@),
{
    let sorted = sorted_copy(offsets);
    proof {
        broadcast use vstd::seq_lib::group_to_multiset_ensures;

        offsets@.lemma_sort_by_ensures(i64_leq());
        assert(sorted@.to_multiset().len() == sorted@.len());
        assert(offsets@.to_multiset().len() == offsets@.len());
        assert(sorted@.len() == offsets@.len());
    }
    sorted[(sorted.len() - 1) / 2]
}

/// Strict lexicographic order on character sequences, by code point.
pub open spec fn lex_lt(a: Seq<char>, b: Seq<char>) -> bool
    decreases a.len(), b.len(),
{
    if b.len() == 0 {
        false
    } else if a.len() == 0 {
        true
    } else if (a[0] as int) < (b[0] as int) {
        true
    } else if a[0] == b[0] {
        lex_lt(a.drop_first(), b.drop_first())
    } else {
        false
    }
}

proof fn lemma_lex_lt_irrefl(a: Seq<char>)
    ensures
        !lex_lt(a, a),
    decreases a.len(),
{
    if a.len() > 0 {
        lemma_lex_lt_irrefl(a.drop_first());
    }
}

proof fn lemma_lex_lt_trans(a: Seq<char>, b: Seq<char>, c: Seq<char>)
    requires
        lex_lt(a, b),
        lex_lt(b, c),
    ensures
        lex_lt(a, c),
    decreases a.len(),
{
    if c.len() == 0 {
        // lex_lt(b, c) would be false
    } else if a.len() == 0 {
    } else {
        // a, b, c all non-empty: lex_lt(a, b) forces b non-empty
        if a[0] == b[0] && b[0] == c[0] {
            lemma_lex_lt_trans(a.drop_first(), b.drop_first(), c.drop_first());
        }
    }
}

proof fn lemma_lex_lt_trichotomy(a: Seq<char>, b: Seq<char>)
    ensures
        lex_lt(a, b) || lex_lt(b, a) || a =~= b,
    decreases a.len(),
{
    if a.len() == 0 || b.len() == 0 {
    } else if a[0] == b[0] {
        lemma_lex_lt_trichotomy(a.drop_first(), b.drop_first());
        if a.drop_first() =~= b.drop_first() {
            assert forall|k: int| 0 <= k < a.len() implies a[k] == b[k] by {
                if k > 0 {
                    assert(a[k] == a.drop_first()[k - 1]);
                    assert(b[k] == b.drop_first()[k - 1]);
                }
            }
            assert(a =~= b);
        }
    }
}

/// What `lex_lt` says once the first `i` characters are known to agree.
proof fn lemma_lex_lt_common_prefix(a: Seq<char>, b: Seq<char>, i: int)
    requires
        0 <= i <= a.len(),
        i <= b.len(),
        forall|k: int| 0 <= k < i ==> a[k] == b[k],
    ensures
        i == b.len() ==> !lex_lt(a, b),
        i == a.len() && i < b.len() ==> lex_lt(a, b),
        i < a.len() && i < b.len() && a[i] != b[i] ==> (lex_lt(a, b) <==> (a[i] as int) < (
        b[i] as int)),
    decreases i,
{
    if i == 0 {
    } else {
        assert(a[0] == b[0]);
        lemma_lex_lt_common_prefix(a.drop_first(), b.drop_first(), i - 1);
    }
}

/// Whether `a` orders strictly before `b` by code point.
pub fn str_lex_lt(a: &str, b: &str) -> (r: bool)
    ensures
        r == lex_lt(a@, b@),
{
    let alen = a.unicode_len();
    let blen = b.unicode_len();
    let mut i: usize = 0;
    while i < alen && i < blen
        invariant
            alen == a@.len(),
            blen == b@.len(),
            i <= alen,
            i <= blen,
            forall|k: int| 0 <= k < i ==> a@[k] == b@[k],
        decreases alen - i,
    {
        let ca = a.get_char(i);
        let cb = b.get_char(i);
        if (ca as u32) < (cb as u32) {
            proof {
                lemma_lex_lt_common_prefix(a@, b@, i as int);
            }
            return true;
        }
        if (cb as u32) < (ca as u32) {
            proof {
                lemma_lex_lt_common_prefix(a@, b@, i as int);
            }
            return false;
        }
        i = i + 1;
    }
    proof {
        lemma_lex_lt_common_prefix(a@, b@, i as int);
    }
    i < blen
}

/// The sample-quality order used among inliers: smaller distance to the
/// median first, then smaller round trip, then the lexicographically
/// smaller server address.
pub open spec fn accuracy_lt(a: NtpResult, b: NtpResult, median: int) -> bool {
    let da = abs_diff(a.offset_ms as int, median);
    let db = abs_diff(b.offset_ms as int, median);
    ||| da < db
    ||| (da == db && a.rtt < b.rtt)
    ||| (da == db && a.rtt == b.rtt && lex_lt(a.server@, b.server@))
}

/// Two samples that the quality order cannot tell apart.
pub open spec fn accuracy_eq(a: NtpResult, b: NtpResult, median: int) -> bool {
    &&& abs_diff(a.offset_ms as int, median) == abs_diff(b.offset_ms as int, median)
    &&& a.rtt == b.rtt
    &&& a.server@ == b.server@
}

proof fn lemma_accuracy_irrefl(a: NtpResult, median: int)
    ensures
        !accuracy_lt(a, a, median),
{
    lemma_lex_lt_irrefl(a.server@);
}

proof fn lemma_accuracy_trans(a: NtpResult, b: NtpResult, c: NtpResult, median: int)
    requires
        accuracy_lt(a, b, median),
        accuracy_lt(b, c, median),
    ensures
        accuracy_lt(a, c, median),
{
    if lex_lt(a.server@, b.server@) && lex_lt(b.server@, c.server@) {
        lemma_lex_lt_trans(a.server@, b.server@, c.server@);
    }
}

proof fn lemma_accuracy_trichotomy(a: NtpResult, b: NtpResult, median: int)
    ensures
        accuracy_lt(a, b, median) || accuracy_lt(b, a, median) || accuracy_eq(a, b, median),
{
    lemma_lex_lt_trichotomy(a.server@, b.server@);
}

/// The distance from `o` to `m`, computed without overflow.
fn offset_dist(o: i64, m: i64) -> (d: i128)
    ensures
        d == abs_diff(o as int, m as int),
{
    let diff: i128 = o as i128 - m as i128;
    if diff < 0 {
        -diff
    } else {
        diff
    }
}

fn result_is_inlier(r: &NtpResult, median: i64, skew: i64) -> (b: bool)
    ensures
        b == is_inlier(*r, median as int, skew as int),
{
    offset_dist(r.offset_ms, median) <= skew as i128
}

fn result_accuracy_lt(a: &NtpResult, b: &NtpResult, median: i64) -> (r: bool)
    ensures
        r == accuracy_lt(*a, *b, median as int),
{
    let da = offset_dist(a.offset_ms, median);
    let db = offset_dist(b.offset_ms, median);
    if da < db {
        true
    } else if db < da {
        false
    } else if a.rtt < b.rtt {
        true
    } else if b.rtt < a.rtt {
        false
    } else {
        str_lex_lt(a.server.as_str(), b.server.as_str())
    }
}

/// The sample a batch settles on when at least one sample agrees with the
/// consensus: the first sample that no other inlier beats in the quality
/// order.
pub open spec fn chosen_inlier(rs: Seq<NtpResult>, median: int, skew: int, i: int) -> bool {
    &&& 0 <= i < rs.len()
    &&& is_inlier(rs[i], median, skew)
    &&& forall|j: int|
        0 <= j < rs.len() && is_inlier(#[trigger] rs[j], median, skew) ==> !accuracy_lt(
            rs[j],
            rs[i],
            median,
        )
    &&& forall|j: int|
        0 <= j < i && is_inlier(#[trigger] rs[j], median, skew) ==> accuracy_lt(
            rs[i],
            rs[j],
            median,
        )
}

/// The sample a batch falls back to when nothing agrees with the consensus:
/// the first sample with the smallest round trip.
pub open spec fn chosen_fallback(rs: Seq<NtpResult>, i: int) -> bool {
    &&& 0 <= i < rs.len()
    &&& forall|j: int| 0 <= j < rs.len() ==> rs[i].rtt <= #[trigger] rs[j].rtt
    &&& forall|j: int| 0 <= j < i ==> rs[i].rtt < #[trigger] rs[j].rtt
}

/// Whether any server in the list is still enabled.
pub open spec fn any_enabled(stats: Seq<ServerStats>) -> bool {
    exists|i: int| 0 <= i < stats.len() && !(#[trigger] stats[i]).disabled
}

/// Whether the server at `i` may be queried: enabled servers only, unless
/// every server is disabled, in which case all of them get another chance.
pub open spec fn eligible(stats: Seq<ServerStats>, i: int) -> bool {
    !stats[i].disabled || !any_enabled(stats)
}

/// Strict order ranking servers for probing: servers with a known round
/// trip first, by that round trip, position breaking every tie.
pub open spec fn probe_rank_lt(stats: Seq<ServerStats>, i: int, j: int) -> bool {
    match (stats[i].spec_rtt_score(), stats[j].spec_rtt_score()) {
        (Some(x), Some(y)) => x < y || (x == y && i < j),
        (Some(_), None) => true,
        (None, Some(_)) => false,
        (None, None) => i < j,
    }
}

proof fn lemma_probe_rank_total(stats: Seq<ServerStats>, i: int, j: int)
    requires
        0 <= i < stats.len(),
        0 <= j < stats.len(),
        i != j,
    ensures
        probe_rank_lt(stats, i, j) || probe_rank_lt(stats, j, i),
        !(probe_rank_lt(stats, i, j) && probe_rank_lt(stats, j, i)),
{
}

/// Whether server `i` ranks strictly before server `j` for probing.
fn rank_lt_exec(stats: &Vec<ServerStats>, i: usize, j: usize) -> (r: bool)
    requires
        i < stats@.len(),
        j < stats@.len(),
    ensures
        r == probe_rank_lt(stats@, i as int, j as int),
{
    let si = stats[i].rtt_score();
    let sj = stats[j].rtt_score();
    match (si, sj) {
        (Some(x), Some(y)) => x < y || (x == y && i < j),
        (Some(_), None) => true,
        (None, Some(_)) => false,
        (None, None) => i < j,
    }
}

/// How many servers a round may query: the requested count, but at least one.
pub open spec fn spec_sample_k(sample_count: usize) -> int {
    if sample_count < 1 {
        1
    } else {
        sample_count as int
    }
}

/// The indices the query round settles on: at most `k` eligible indices, in
/// rank order, and any eligible index left out ranks after all of them.
pub open spec fn ranked_prefix(stats: Seq<ServerStats>, ord: Seq<usize>, k: int) -> bool {
    &&& ord.len() <= k
    &&& forall|p: int|
        0 <= p < ord.len() ==> (#[trigger] ord[p]) < stats.len() && eligible(stats, ord[p] as int)
    &&& forall|p: int, q: int|
        0 <= p < q < ord.len() ==> probe_rank_lt(stats, #[trigger] ord[p] as int, #[trigger] ord[q] as int)
    &&& forall|i: usize|
        i < stats.len() && eligible(stats, i as int) && !ord.contains(i) ==> ord.len() == k
            && (forall|p: int|
            0 <= p < ord.len() ==> probe_rank_lt(stats, #[trigger] ord[p] as int, i as int))
}

/// The selector, once per sync round.
pub struct ServerSelector;

impl ServerSelector {
    /// The servers the next sync round should query, best ranked first:
    /// the `sample_count` (at least one) lowest-ranked eligible servers.
    /// Disabled servers are left out unless every server is disabled, in
    /// which case all of them are ranked, to give them a chance to recover.
    pub fn select_servers_for_query(stats: &Vec<ServerStats>, sample_count: usize) -> (sel: Vec<
        String,
    >)
        ensures
            exists|ord: Seq<usize>|
                {
                    &&& #[trigger] ranked_prefix(stats@, ord, spec_sample_k(sample_count))
                    &&& sel@.len() == ord.len()
                    &&& forall|p: int|
                        0 <= p < ord.len() ==> sel@[p] == stats@[ord[p] as int].address
                },
    {
        let k: usize = if sample_count < 1 {
            1
        } else {
            sample_count
        };

        // Whether any server is still enabled.
        let mut any_en = false;
        let mut i: usize = 0;
        while i < stats.len()
            invariant
                i <= stats@.len(),
                any_en == exists|j: int| 0 <= j < i && !(#[trigger] stats@[j]).disabled,
            decreases stats@.len() - i,
        {
            if !stats[i].disabled {
                any_en = true;
            }
            i = i + 1;
        }
        proof {
            assert(any_en == any_enabled(stats@));
        }

        // Arrange the eligible indices in rank order by sorted insertion.
        let mut order: Vec<usize> = Vec::new();
        let mut i: usize = 0;
        while i < stats.len()
            invariant
                i <= stats@.len(),
                any_en == any_enabled(stats@),
                order@.len() <= i,
                forall|p: int| 0 <= p < order@.len() ==> (#[trigger] order@[p]) < i,
                forall|p: int|
                    0 <= p < order@.len() ==> eligible(stats@, #[trigger] order@[p] as int),
                forall|v: usize|
                    v < i && eligible(stats@, v as int) ==> order@.contains(v),
                forall|p: int, q: int|
                    0 <= p < q < order@.len() ==> probe_rank_lt(
                        stats@,
                        #[trigger] order@[p] as int,
                        #[trigger] order@[q] as int,
                    ),
            decreases stats@.len() - i,
        {
            let keep = !stats[i].disabled || !any_en;
            if keep {
                let mut pos: usize = 0;
                while pos < order.len() && rank_lt_exec(stats, order[pos], i)
                    invariant
                        pos <= order@.len(),
                        i < stats@.len(),
                        forall|p: int| 0 <= p < order@.len() ==> (#[trigger] order@[p]) < i,
                        forall|p: int|
                            0 <= p < pos ==> probe_rank_lt(stats@, #[trigger] order@[p] as int, i as int),
                        forall|p: int, q: int|
                            0 <= p < q < order@.len() ==> probe_rank_lt(
                                stats@,
                                #[trigger] order@[p] as int,
                                #[trigger] order@[q] as int,
                            ),
                    decreases order@.len() - pos,
                {
                    pos = pos + 1;
                }
                proof {
                    if pos < order@.len() {
                        lemma_probe_rank_total(stats@, order@[pos as int] as int, i as int);
                    }
                    order@.insert_ensures(pos as int, i);
                }
                let ghost pre = order@;
                order.insert(pos, i);
                proof {
                    let new = pre.insert(pos as int, i);
                    // ranks stay ordered around the insertion point
                    assert forall|p: int, q: int| 0 <= p < q < new.len() implies probe_rank_lt(
                        stats@,
                        #[trigger] new[p] as int,
                        #[trigger] new[q] as int,
                    ) by {
                        if q < pos {
                            assert(new[p] == pre[p] && new[q] == pre[q]);
                        } else if p > pos {
                            assert(new[p] == pre[p - 1] && new[q] == pre[q - 1]);
                        } else if p == pos {
                            assert(new[p] == i && new[q] == pre[q - 1]);
                            if q - 1 > pos {
                                assert(probe_rank_lt(stats@, pre[pos as int] as int, pre[q - 1] as int));
                            }
                            lemma_probe_rank_total(stats@, i as int, pre[q - 1] as int);
                        } else if q == pos {
                            assert(new[p] == pre[p] && new[q] == i);
                        } else {
                            assert(new[p] == pre[p] && new[q] == pre[q - 1]);
                            if q - 1 > pos {
                                assert(probe_rank_lt(stats@, pre[pos as int] as int, pre[q - 1] as int));
                            }
                            lemma_probe_rank_total(stats@, i as int, pre[q - 1] as int);
                        }
                    }
                    // membership: everything present before is still present
                    assert forall|v: usize| pre.contains(v) || v == i implies new.contains(v) by {
                        if v == i {
                            assert(new[pos as int] == i);
                        } else {
                            let w = choose|w: int| 0 <= w < pre.len() && pre[w] == v;
                            if w < pos {
                                assert(new[w] == v);
                            } else {
                                assert(new[w + 1] == v);
                            }
                        }
                    }
                    assert forall|p: int| 0 <= p < new.len() implies (#[trigger] new[p]) < i + 1 by {
                        if p < pos {
                            assert(new[p] == pre[p]);
                        } else if p == pos {
                        } else {
                            assert(new[p] == pre[p - 1]);
                        }
                    }
                    assert forall|p: int| 0 <= p < new.len() implies eligible(
                        stats@,
                        #[trigger] new[p] as int,
                    ) by {
                        if p < pos {
                            assert(new[p] == pre[p]);
                        } else if p == pos {
                        } else {
                            assert(new[p] == pre[p - 1]);
                        }
                    }
                }
            }
            i = i + 1;
        }

        // Hand back the addresses of the first `k` ranked servers.
        let m: usize = if k < order.len() {
            k
        } else {
            order.len()
        };
        let mut sel: Vec<String> = Vec::new();
        let mut p: usize = 0;
        while p < m
            invariant
                m <= order@.len(),
                p <= m,
                sel@.len() == p,
                forall|q: int| 0 <= q < p ==> sel@[q] == stats@[order@[q] as int].address,
                forall|q: int| 0 <= q < order@.len() ==> (#[trigger] order@[q]) < stats@.len(),
            decreases m - p,
        {
            sel.push(stats[order[p]].address.clone());
            p = p + 1;
        }
        proof {
            let kk = spec_sample_k(sample_count);
            let ord = order@.take(m as int);
            assert forall|v: usize|
                v < stats@.len() && eligible(stats@, v as int) && !ord.contains(v) implies ord.len()
                == kk && (forall|p: int|
                0 <= p < ord.len() ==> probe_rank_lt(stats@, #[trigger] ord[p] as int, v as int)) by {
                assert(order@.contains(v));
                let w = choose|w: int| 0 <= w < order@.len() && order@[w] == v;
                assert(w >= m) by {
                    if w < m {
                        assert(ord[w] == v);
                    }
                }
                assert(m < order@.len());
                assert(m == kk);
                assert forall|p: int| 0 <= p < ord.len() implies probe_rank_lt(
                    stats@,
                    #[trigger] ord[p] as int,
                    v as int,
                ) by {
                    assert(probe_rank_lt(stats@, order@[p] as int, order@[w] as int));
                }
            }
            assert(ranked_prefix(stats@, ord, kk));
            assert(sel@.len() == ord.len());
            assert(forall|p: int| 0 <= p < ord.len() ==> sel@[p] == stats@[ord[p] as int].address);
        }
        sel
    }

    /// Pick the best sample of a batch.
    ///
    /// An empty batch yields nothing and a single sample is taken as it is.
    /// Otherwise samples whose offset strays more than `max_offset_skew_ms`
    /// from the batch median are set aside as outliers, and among the rest
    /// the sample closest to the median wins, with the round trip and then
    /// the server address breaking ties. When every sample is an outlier the
    /// batch falls back to the sample with the smallest round trip.
    pub fn select_best_result(results: Vec<NtpResult>, max_offset_skew_ms: i64) -> (best: Option<
        NtpResult,
    >)
        ensures
            best is None <==> results@.len() == 0,
            results@.len() == 1 ==> best == Some(results@[0]),
            results@.len() >= 2 ==> ({
                let median = median_of(offsets_of(results@)) as int;
                let skew = max_offset_skew_ms as int;
                &&& (has_inlier(results@, median, skew) ==> exists|i: int|
                    #[trigger] chosen_inlier(results@, median, skew, i) && best == Some(
                        results@[i],
                    ))
                &&& (!has_inlier(results@, median, skew) ==> exists|i: int|
                    #[trigger] chosen_fallback(results@, i) && best == Some(results@[i]))
            }),
            results@.len() >= 1 && has_inlier(
                results@,
                median_of(offsets_of(results@)) as int,
                max_offset_skew_ms as int,
            ) ==> (best matches Some(b) && is_inlier(
                b,
                median_of(offsets_of(results@)) as int,
                max_offset_skew_ms as int,
            )),
    {
        let n = results.len();
        if n == 0 {
            return None;
        }
        if n == 1 {
            proof {
                let median = median_of(offsets_of(results@)) as int;
                let skew = max_offset_skew_ms as int;
                if has_inlier(results@, median, skew) {
                    let j = choose|j: int|
                        0 <= j < results@.len() && is_inlier(#[trigger] results@[j], median, skew);
                    assert(j == 0);
                }
            }
            return Some(results[0].duplicate());
        }

        // The offsets of the batch, in batch order.
        let mut offsets: Vec<i64> = Vec::new();
        let mut j: usize = 0;
        while j < n
            invariant
                n == results@.len(),
                j <= n,
                offsets@.len() == j,
                forall|k: int| 0 <= k < j ==> offsets@[k] == results@[k].offset_ms,
            decreases n - j,
        {
            offsets.push(results[j].offset_ms);
            j = j + 1;
        }
        proof {
            assert(offsets@ =~= offsets_of(results@));
        }

        let median = median_offset(&offsets);
        let skew = max_offset_skew_ms;
        let ghost gmedian = median as int;
        let ghost gskew = skew as int;

        // Scan for the first inlier that no other inlier beats.
        let mut found = false;
        let mut best_idx: usize = 0;
        let mut j: usize = 0;
        while j < n
            invariant
                n == results@.len(),
                j <= n,
                gmedian == median as int,
                gskew == skew as int,
                !found ==> forall|k: int| 0 <= k < j ==> !is_inlier(#[trigger] results@[k], gmedian, gskew),
                found ==> best_idx < j,
                found ==> is_inlier(results@[best_idx as int], gmedian, gskew),
                found ==> forall|k: int|
                    0 <= k < j && is_inlier(#[trigger] results@[k], gmedian, gskew) ==> !accuracy_lt(
                        results@[k],
                        results@[best_idx as int],
                        gmedian,
                    ),
                found ==> forall|k: int|
                    0 <= k < best_idx && is_inlier(#[trigger] results@[k], gmedian, gskew)
                        ==> accuracy_lt(results@[best_idx as int], results@[k], gmedian),
            decreases n - j,
    {
            if result_is_inlier(&results[j], median, skew) {
                if !found {
                    found = true;
                    best_idx = j;
                    proof {
                        lemma_accuracy_irrefl(results@[j as int], gmedian);
                    }
                } else if result_accuracy_lt(&results[j], &results[best_idx], median) {
                    proof {
                        let rs = results@;
                        let ob = best_idx as int;
                        let jj = j as int;
                        lemma_accuracy_irrefl(rs[jj], gmedian);
                        assert forall|k: int|
                            0 <= k < jj && is_inlier(#[trigger] rs[k], gmedian, gskew)
                                implies !accuracy_lt(rs[k], rs[jj], gmedian) by {
                            if accuracy_lt(rs[k], rs[jj], gmedian) {
                                lemma_accuracy_trans(rs[k], rs[jj], rs[ob], gmedian);
                            }
                        }
                        assert forall|k: int|
                            0 <= k < jj && is_inlier(#[trigger] rs[k], gmedian, gskew)
                                implies accuracy_lt(rs[jj], rs[k], gmedian) by {
                            lemma_accuracy_trichotomy(rs[k], rs[ob], gmedian);
                            if accuracy_lt(rs[ob], rs[k], gmedian) {
                                lemma_accuracy_trans(rs[jj], rs[ob], rs[k], gmedian);
                            } else {
                                // the keys of k and the old best agree
                            }
                        }
                    }
                    best_idx = j;
                }
            }
            j = j + 1;
        }

        if found {
            proof {
                assert(chosen_inlier(results@, gmedian, gskew, best_idx as int));
            }
            Some(results[best_idx].duplicate())
        } else {
            proof {
                assert(!has_inlier(results@, gmedian, gskew));
            }
            // Nothing agreed with the consensus: fall back to the smallest
            // round trip over the whole batch.
            let mut bi: usize = 0;
            let mut j: usize = 1;
            while j < n
                invariant
                    n == results@.len(),
                    bi < j <= n,
                    forall|k: int| 0 <= k < j ==> results@[bi as int].rtt <= #[trigger] results@[k].rtt,
                    forall|k: int| 0 <= k < bi ==> results@[bi as int].rtt < #[trigger] results@[k].rtt,
                decreases n - j,
            {
                if results[j].rtt < results[bi].rtt {
                    bi = j;
                }
                j = j + 1;
            }
            proof {
                assert(chosen_fallback(results@, bi as int));
            }
            Some(results[bi].duplicate())
        }
    }
}

} // verus!
