use crate::numfmt::digit_char;
use vstd::prelude::*;

verus! {

/// Gregorian leap-year rule.
pub open spec fn is_leap_year(y: int) -> bool {
    (y % 4 == 0 && y % 100 != 0) || y % 400 == 0
}

/// Days from 0001-01-01 to the first day of year `y` (the standard closed
/// form counting the leap days before `y`).
pub open spec fn days_before_year(y: int) -> int {
    365 * (y - 1) + (y - 1) / 4 - (y - 1) / 100 + (y - 1) / 400
}

/// Length of a month of the Gregorian calendar.
pub open spec fn days_in_month(y: int, m: int) -> int {
    if m == 2 {
        if is_leap_year(y) {
            29
        } else {
            28
        }
    } else if m == 4 || m == 6 || m == 9 || m == 11 {
        30
    } else {
        31
    }
}

/// Days from the first day of year `y` to the first day of its month `m`.
pub open spec fn days_before_month(y: int, m: int) -> int
    decreases m,
{
    if m <= 1 {
        0
    } else {
        days_before_month(y, m - 1) + days_in_month(y, m - 1)
    }
}

/// The day number of a date: days from 0001-01-01 to `y`-`m`-`d`.
pub open spec fn rata_die(y: int, m: int, d: int) -> int {
    days_before_year(y) + days_before_month(y, m) + (d - 1)
}

/// A date of the supported calendar: years one through 9999.
pub open spec fn valid_date(y: int, m: int, d: int) -> bool {
    1 <= y <= 9999 && 1 <= m <= 12 && 1 <= d <= days_in_month(y, m)
}

/// The epochs the formatter covers: 0001-01-01T00:00:00.000 through
/// 9999-12-31T23:59:59.999, in milliseconds relative to 1970-01-01.
pub open spec fn iso_in_range(epoch_ms: int) -> bool {
    -62135596800000 <= epoch_ms <= 253402300799999
}

/// Milliseconds since 0001-01-01T00:00:00.
pub open spec fn shifted_ms(epoch_ms: int) -> int {
    epoch_ms + 62135596800000
}

/// The day number an epoch falls on.
pub open spec fn day_number(epoch_ms: int) -> int {
    shifted_ms(epoch_ms) / 86400000
}

/// Milliseconds into the day an epoch falls at.
pub open spec fn time_of_day_ms(epoch_ms: int) -> int {
    shifted_ms(epoch_ms) % 86400000
}

/// `n` written in decimal, zero-padded to exactly `width` digits (the
/// lowest `width` digits of `n`, most significant first).
pub open spec fn padded(n: nat, width: nat) -> Seq<char>
    decreases width,
{
    if width == 0 {
        Seq::empty()
    } else {
        padded(n / 10, (width - 1) as nat) + seq![digit_char((n % 10) as int)]
    }
}

/// The fixed-width rendering of a date and a time of day:
/// `YYYY-MM-DDTHH:MM:SS.mmm+00:00`.
pub open spec fn spec_render_iso(y: int, m: int, d: int, tod_ms: int) -> Seq<char> {
    padded(y as nat, 4) + "-"@ + padded(m as nat, 2) + "-"@ + padded(d as nat, 2) + "T"@ + padded(
        (tod_ms / 3600000) as nat,
        2,
    ) + ":"@ + padded((tod_ms / 60000 % 60) as nat, 2) + ":"@ + padded(
        (tod_ms / 1000 % 60) as nat,
        2,
    ) + "."@ + padded((tod_ms % 1000) as nat, 3) + "+00:00"@
}

/// Stepping one year adds one leap day exactly in leap years.
proof fn lemma_year_step(y: int)
    requires
        y >= 1,
    ensures
        days_before_year(y + 1) - days_before_year(y) == if is_leap_year(y) {
            366int
        } else {
            365int
        },
{
    assert(y / 4 - (y - 1) / 4 == if y % 4 == 0 {
        1int
    } else {
        0int
    }) by (nonlinear_arith)
        requires
            y >= 1,
    ;
    assert(y / 100 - (y - 1) / 100 == if y % 100 == 0 {
        1int
    } else {
        0int
    }) by (nonlinear_arith)
        requires
            y >= 1,
    ;
    assert(y / 400 - (y - 1) / 400 == if y % 400 == 0 {
        1int
    } else {
        0int
    }) by (nonlinear_arith)
        requires
            y >= 1,
    ;
    assert(y % 400 == 0 ==> y % 100 == 0 && y % 4 == 0) by (nonlinear_arith);
    assert(y % 100 == 0 ==> y % 4 == 0) by (nonlinear_arith);
}

/// The months of a year sum to its length.
proof fn lemma_months_sum(y: int)
    ensures
        days_before_month(y, 12) + days_in_month(y, 12) == if is_leap_year(y) {
            366int
        } else {
            365int
        },
{
    assert(days_before_month(y, 1) == 0);
    assert(days_before_month(y, 2) == 31);
    assert(days_before_month(y, 3) == days_before_month(y, 2) + days_in_month(y, 2));
    assert(days_before_month(y, 4) == days_before_month(y, 3) + 31);
    assert(days_before_month(y, 5) == days_before_month(y, 4) + 30);
    assert(days_before_month(y, 6) == days_before_month(y, 5) + 31);
    assert(days_before_month(y, 7) == days_before_month(y, 6) + 30);
    assert(days_before_month(y, 8) == days_before_month(y, 7) + 31);
    assert(days_before_month(y, 9) == days_before_month(y, 8) + 31);
    assert(days_before_month(y, 10) == days_before_month(y, 9) + 30);
    assert(days_before_month(y, 11) == days_before_month(y, 10) + 31);
    assert(days_before_month(y, 12) == days_before_month(y, 11) + 30);
}

/// Days from year one to the first day of year `y`, executed on the
/// closed form.
fn days_before_year_exec(y: u64) -> (r: u64)
    requires
        1 <= y <= 10000,
    ensures
        r == days_before_year(y as int),
{
    let p = y - 1;
    365 * p + p / 4 - p / 100 + p / 400
}

fn days_in_month_exec(y: u64, m: u64) -> (r: u64)
    requires
        1 <= m <= 12,
    ensures
        r == days_in_month(y as int, m as int),
{
    if m == 2 {
        let leap = (y % 4 == 0 && y % 100 != 0) || y % 400 == 0;
        if leap {
            29
        } else {
            28
        }
    } else if m == 4 || m == 6 || m == 9 || m == 11 {
        30
    } else {
        31
    }
}

/// Append `n` in decimal, zero-padded to exactly `width` digits.
fn append_padded(s: &mut String, n: u64, width: u64)
    ensures
        final(s)@ == old(s)@ + padded(n as nat, width as nat),
    decreases width,
{
    if width == 0 {
        proof {
            assert(final(s)@ =~= old(s)@ + padded(n as nat, 0));
        }
    } else {
        append_padded(s, n / 10, width - 1);
        crate::numfmt::append_digit(s, n % 10);
        proof {
            assert(final(s)@ =~= old(s)@ + padded(n as nat, width as nat));
        }
    }
}

/// Render an epoch as `YYYY-MM-DDTHH:MM:SS.mmm+00:00` (UTC), or the text
/// `invalid` outside years one through 9999.
///
/// The date rendered is exactly the one whose day number the epoch falls
/// on; together with `lemma_iso8601_lossless` this pins the rendering down
/// to one epoch.
#[verifier::rlimit(100)]
pub fn format_epoch_ms_to_iso8601(epoch_ms: i64) -> (s: String)
    ensures
        !iso_in_range(epoch_ms as int) ==> s@ == "invalid"@,
        iso_in_range(epoch_ms as int) ==> exists|y: int, m: int, d: int|
            {
                &&& #[trigger] valid_date(y, m, d)
                &&& rata_die(y, m, d) == day_number(epoch_ms as int)
                &&& s@ == spec_render_iso(y, m, d, time_of_day_ms(epoch_ms as int))
            },
{
    if epoch_ms < -62135596800000 || epoch_ms > 253402300799999 {
        return "invalid".to_owned();
    }
    let shifted: u64 = ((epoch_ms as i128) + 62135596800000) as u64;
    proof {
        assert(shifted == shifted_ms(epoch_ms as int));
    }
    let day: u64 = shifted / 86400000;
    let tod: u64 = shifted % 86400000;
    proof {
        assert(day == day_number(epoch_ms as int));
        assert(tod == time_of_day_ms(epoch_ms as int));
        assert(day < 3652059) by {
            assert(shifted <= 253402300799999 + 62135596800000);
        };
        assert(days_before_year(10000) == 3652059);
    }

    // the year the day falls in
    let mut y: u64 = 1;
    while y < 9999 && days_before_year_exec(y + 1) <= day
        invariant
            1 <= y <= 9999,
            days_before_year(y as int) <= day as int,
            day < 3652059,
        decreases 9999 - y,
    {
        y = y + 1;
    }
    proof {
        if y < 9999 {
            assert(day < days_before_year(y as int + 1));
        } else {
            assert(days_before_year(10000) == 3652059);
            assert(day < days_before_year(y as int + 1));
        }
    }
    let doy: u64 = day - days_before_year_exec(y);

    // the month the day of year falls in
    let mut m: u64 = 1;
    while m < 12 && days_before_month_exec(y, m + 1) <= doy
        invariant
            1 <= y <= 9999,
            1 <= m <= 12,
            days_before_month(y as int, m as int) <= doy as int,
            doy == day - days_before_year(y as int),
            day < days_before_year(y as int + 1),
            day >= days_before_year(y as int),
        decreases 12 - m,
    {
        m = m + 1;
    }
    proof {
        lemma_year_step(y as int);
        lemma_months_sum(y as int);
        if m < 12 {
            assert(doy < days_before_month(y as int, m as int + 1));
        } else {
            assert(doy < days_before_month(y as int, 12) + days_in_month(y as int, 12));
        }
    }
    let d: u64 = doy - days_before_month_exec(y, m) + 1;
    proof {
        assert(valid_date(y as int, m as int, d as int));
        assert(rata_die(y as int, m as int, d as int) == day);
    }

    // render the fixed-width text
    let mut s = String::new();
    append_padded(&mut s, y, 4);
    s.append("-");
    append_padded(&mut s, m, 2);
    s.append("-");
    append_padded(&mut s, d, 2);
    s.append("T");
    append_padded(&mut s, tod / 3600000, 2);
    s.append(":");
    append_padded(&mut s, tod / 60000 % 60, 2);
    s.append(":");
    append_padded(&mut s, tod / 1000 % 60, 2);
    s.append(".");
    append_padded(&mut s, tod % 1000, 3);
    s.append("+00:00");
    proof {
        assert(s@ =~= spec_render_iso(y as int, m as int, d as int, tod as int));
    }
    s
}

fn days_before_month_exec(y: u64, m: u64) -> (r: u64)
    requires
        1 <= m <= 12,
    ensures
        r == days_before_month(y as int, m as int),
{
    let mut acc: u64 = 0;
    let mut i: u64 = 1;
    while i < m
        invariant
            1 <= i <= m <= 12,
            acc == days_before_month(y as int, i as int),
            acc <= 31 * i,
        decreases m - i,
    {
        acc = acc + days_in_month_exec(y, i);
        i = i + 1;
    }
    acc
}

proof fn lemma_padded_len(n: nat, w: nat)
    ensures
        padded(n, w).len() == w,
    decreases w,
{
    if w > 0 {
        lemma_padded_len(n / 10, (w - 1) as nat);
    }
}

pub open spec fn pow10(w: nat) -> nat
    decreases w,
{
    if w == 0 {
        1
    } else {
        10 * pow10((w - 1) as nat)
    }
}

proof fn lemma_concat_split(a1: Seq<char>, b1: Seq<char>, a2: Seq<char>, b2: Seq<char>)
    requires
        a1 + b1 == a2 + b2,
        a1.len() == a2.len(),
    ensures
        a1 == a2,
        b1 == b2,
{
    assert((a1 + b1).len() == (a2 + b2).len());
    assert forall|i: int| 0 <= i < a1.len() implies a1[i] == a2[i] by {
        assert((a1 + b1)[i] == a1[i]);
        assert((a2 + b2)[i] == a2[i]);
    }
    assert(a1 =~= a2);
    assert((a1 + b1).len() == a1.len() + b1.len());
    assert((a2 + b2).len() == a2.len() + b2.len());
    assert(b1.len() == b2.len());
    assert forall|i: int| 0 <= i < b1.len() implies b1[i] == b2[i] by {
        let j = i + a1.len();
        assert((a1 + b1)[j] == b1[j - a1.len()]);
        assert((a2 + b2)[j] == b2[j - a2.len()]);
    }
    assert(b1 =~= b2);
}

/// Zero-padded renderings of numbers below `10^width` differ whenever the
/// numbers differ.
proof fn lemma_padded_injective(n1: nat, n2: nat, w: nat)
    requires
        n1 < pow10(w),
        n2 < pow10(w),
        padded(n1, w) == padded(n2, w),
    ensures
        n1 == n2,
    decreases w,
{
    if w == 0 {
    } else {
        let w1 = (w - 1) as nat;
        lemma_padded_len(n1 / 10, w1);
        lemma_padded_len(n2 / 10, w1);
        lemma_concat_split(
            padded(n1 / 10, w1),
            seq![digit_char((n1 % 10) as int)],
            padded(n2 / 10, w1),
            seq![digit_char((n2 % 10) as int)],
        );
        assert(seq![digit_char((n1 % 10) as int)][0] == seq![digit_char((n2 % 10) as int)][0]);
        assert(n1 % 10 == n2 % 10);
        assert(n1 / 10 < pow10(w1) && n2 / 10 < pow10(w1)) by (nonlinear_arith)
            requires
                n1 < 10 * pow10(w1),
                n2 < 10 * pow10(w1),
        ;
        lemma_padded_injective(n1 / 10, n2 / 10, w1);
    }
}

/// The rendering loses nothing at millisecond granularity: two epochs in
/// range that render to the same text are one and the same, so parsing a
/// rendered epoch back can only give the epoch it came from.
#[verifier::rlimit(100)]
pub proof fn lemma_iso8601_lossless(
    e1: int,
    e2: int,
    y1: int,
    m1: int,
    d1: int,
    y2: int,
    m2: int,
    d2: int,
)
    requires
        iso_in_range(e1),
        iso_in_range(e2),
        valid_date(y1, m1, d1),
        rata_die(y1, m1, d1) == day_number(e1),
        valid_date(y2, m2, d2),
        rata_die(y2, m2, d2) == day_number(e2),
        spec_render_iso(y1, m1, d1, time_of_day_ms(e1)) == spec_render_iso(
            y2,
            m2,
            d2,
            time_of_day_ms(e2),
        ),
    ensures
        e1 == e2,
{
    reveal_strlit("-");
    reveal_strlit("T");
    reveal_strlit(":");
    reveal_strlit(".");
    reveal_strlit("+00:00");
    let t1 = time_of_day_ms(e1);
    let t2 = time_of_day_ms(e2);
    assert(0 <= t1 < 86400000 && 0 <= t2 < 86400000) by (nonlinear_arith)
        requires
            t1 == (e1 + 62135596800000) % 86400000,
            t2 == (e2 + 62135596800000) % 86400000,
    ;
    assert(pow10(0) == 1);
    assert(pow10(1) == 10);
    assert(pow10(2) == 100);
    assert(pow10(3) == 1000);
    assert(pow10(4) == 10000);

    let r1 = spec_render_iso(y1, m1, d1, t1);
    let r2 = spec_render_iso(y2, m2, d2, t2);
    lemma_padded_len(y1 as nat, 4);
    lemma_padded_len(y2 as nat, 4);
    lemma_padded_len(m1 as nat, 2);
    lemma_padded_len(m2 as nat, 2);
    lemma_padded_len(d1 as nat, 2);
    lemma_padded_len(d2 as nat, 2);
    lemma_padded_len((t1 / 3600000) as nat, 2);
    lemma_padded_len((t2 / 3600000) as nat, 2);
    lemma_padded_len((t1 / 60000 % 60) as nat, 2);
    lemma_padded_len((t2 / 60000 % 60) as nat, 2);
    lemma_padded_len((t1 / 1000 % 60) as nat, 2);
    lemma_padded_len((t2 / 1000 % 60) as nat, 2);
    lemma_padded_len((t1 % 1000) as nat, 3);
    lemma_padded_len((t2 % 1000) as nat, 3);

    // the digits of each field sit at fixed positions
    assert forall|i: int| #![trigger padded(y1 as nat, 4)[i]] 0 <= i < 4 implies padded(y1 as nat, 4)[i] == padded(y2 as nat, 4)[i] by {
        assert(r1[i] == padded(y1 as nat, 4)[i]);
        assert(r2[i] == padded(y2 as nat, 4)[i]);
    }
    assert(padded(y1 as nat, 4) =~= padded(y2 as nat, 4));
    lemma_padded_injective(y1 as nat, y2 as nat, 4);

    assert forall|i: int| #![trigger padded(m1 as nat, 2)[i]] 0 <= i < 2 implies padded(m1 as nat, 2)[i] == padded(m2 as nat, 2)[i] by {
        assert(r1[5 + i] == padded(m1 as nat, 2)[i]);
        assert(r2[5 + i] == padded(m2 as nat, 2)[i]);
    }
    assert(padded(m1 as nat, 2) =~= padded(m2 as nat, 2));
    lemma_padded_injective(m1 as nat, m2 as nat, 2);

    assert forall|i: int| #![trigger padded(d1 as nat, 2)[i]] 0 <= i < 2 implies padded(d1 as nat, 2)[i] == padded(d2 as nat, 2)[i] by {
        assert(r1[8 + i] == padded(d1 as nat, 2)[i]);
        assert(r2[8 + i] == padded(d2 as nat, 2)[i]);
    }
    assert(padded(d1 as nat, 2) =~= padded(d2 as nat, 2));
    lemma_padded_injective(d1 as nat, d2 as nat, 2);

    let h1 = t1 / 3600000;
    let h2 = t2 / 3600000;
    assert(0 <= h1 < 24 && 0 <= h2 < 24) by (nonlinear_arith)
        requires
            0 <= t1 < 86400000,
            0 <= t2 < 86400000,
            h1 == t1 / 3600000,
            h2 == t2 / 3600000,
    ;
    assert forall|i: int| #![trigger padded(h1 as nat, 2)[i]] 0 <= i < 2 implies padded(h1 as nat, 2)[i] == padded(h2 as nat, 2)[i] by {
        assert(r1[11 + i] == padded(h1 as nat, 2)[i]);
        assert(r2[11 + i] == padded(h2 as nat, 2)[i]);
    }
    assert(padded(h1 as nat, 2) =~= padded(h2 as nat, 2));
    lemma_padded_injective(h1 as nat, h2 as nat, 2);

    let mi1 = t1 / 60000 % 60;
    let mi2 = t2 / 60000 % 60;
    assert forall|i: int| #![trigger padded(mi1 as nat, 2)[i]] 0 <= i < 2 implies padded(mi1 as nat, 2)[i] == padded(mi2 as nat, 2)[i] by {
        assert(r1[14 + i] == padded(mi1 as nat, 2)[i]);
        assert(r2[14 + i] == padded(mi2 as nat, 2)[i]);
    }
    assert(padded(mi1 as nat, 2) =~= padded(mi2 as nat, 2));
    lemma_padded_injective(mi1 as nat, mi2 as nat, 2);

    let s1 = t1 / 1000 % 60;
    let s2 = t2 / 1000 % 60;
    assert forall|i: int| #![trigger padded(s1 as nat, 2)[i]] 0 <= i < 2 implies padded(s1 as nat, 2)[i] == padded(s2 as nat, 2)[i] by {
        assert(r1[17 + i] == padded(s1 as nat, 2)[i]);
        assert(r2[17 + i] == padded(s2 as nat, 2)[i]);
    }
    assert(padded(s1 as nat, 2) =~= padded(s2 as nat, 2));
    lemma_padded_injective(s1 as nat, s2 as nat, 2);

    let ms1 = t1 % 1000;
    let ms2 = t2 % 1000;
    assert forall|i: int| #![trigger padded(ms1 as nat, 3)[i]] 0 <= i < 3 implies padded(ms1 as nat, 3)[i] == padded(ms2 as nat, 3)[i] by {
        assert(r1[20 + i] == padded(ms1 as nat, 3)[i]);
        assert(r2[20 + i] == padded(ms2 as nat, 3)[i]);
    }
    assert(padded(ms1 as nat, 3) =~= padded(ms2 as nat, 3));
    lemma_padded_injective(ms1 as nat, ms2 as nat, 3);

    // equal fields put both epochs on the same day at the same instant
    assert(day_number(e1) == day_number(e2));
    lemma_time_recomposition(t1);
    lemma_time_recomposition(t2);
    assert(t1 == t2);
    vstd::arithmetic::div_mod::lemma_fundamental_div_mod(shifted_ms(e1), 86400000);
    vstd::arithmetic::div_mod::lemma_fundamental_div_mod(shifted_ms(e2), 86400000);
}

/// A time of day is determined by its rendered hour, minute, second and
/// millisecond fields.
proof fn lemma_time_recomposition(t: int)
    requires
        0 <= t < 86400000,
    ensures
        t == (t / 3600000) * 3600000 + (t / 60000 % 60) * 60000 + (t / 1000 % 60) * 1000 + t % 1000,
{
    vstd::arithmetic::div_mod::lemma_fundamental_div_mod(t, 1000);
    let a = t / 1000;
    vstd::arithmetic::div_mod::lemma_fundamental_div_mod(a, 60);
    let b = a / 60;
    vstd::arithmetic::div_mod::lemma_fundamental_div_mod(b, 60);
    let c = b / 60;
    vstd::arithmetic::div_mod::lemma_div_denominator(t, 1000, 60);
    assert(b == t / 60000);
    vstd::arithmetic::div_mod::lemma_div_denominator(t, 60000, 60);
    assert(c == t / 3600000);
    assert(c * 60 * 60000 == c * 3600000) by (nonlinear_arith);
    assert(t == c * 3600000 + (b % 60) * 60000 + (a % 60) * 1000 + t % 1000) by (nonlinear_arith)
        requires
            t == a * 1000 + t % 1000,
            a == b * 60 + a % 60,
            b == c * 60 + b % 60,
    ;
}

} // verus!
