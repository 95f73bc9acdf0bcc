//! Log line timestamps, `YYYY-MM-DD hh:mm:ssAM` in UTC, computed from the
//! seconds since the Unix epoch with the civil-from-days calendar algorithm.

use vstd::prelude::*;
use crate::text::{dec_chars, push_char, push_decimal, push_str};

verus! {

/// The proleptic Gregorian date `(year, month, day)` of day `days` after
/// 1970-01-01, by the era / day-of-era / year-of-era decomposition
/// (eras of 146097 days starting on 0000-03-01).
pub open spec fn civil_from_days(days: int) -> (int, int, int) {
    let z = days + 719468;
    let era = z / 146097;
    let doe = z % 146097;
    let yoe = (doe - doe / 1460 + doe / 36524 - doe / 146096) / 365;
    let y = yoe + era * 400;
    let doy = doe - (365 * yoe + yoe / 4 - yoe / 100);
    let mp = (5 * doy + 2) / 153;
    let d = doy - (153 * mp + 2) / 5 + 1;
    let m = if mp < 10 {
        mp + 3
    } else {
        mp - 9
    };
    (if m <= 2 {
        y + 1
    } else {
        y
    }, m, d)
}

proof fn lemma_civil_bounds(doe: int)
    by (nonlinear_arith)
    requires
        0 <= doe < 146097,
    ensures
        ({
            let yoe = (doe - doe / 1460 + doe / 36524 - doe / 146096) / 365;
            let doy = doe - (365 * yoe + yoe / 4 - yoe / 100);
            let mp = (5 * doy + 2) / 153;
            &&& 0 <= yoe <= 399
            &&& 0 <= doy <= 365
            &&& 0 <= mp <= 11
            &&& 1 <= doy - (153 * mp + 2) / 5 + 1 <= 31
        }),
{
}

/// Whether `y` is a leap year of the Gregorian calendar.
pub open spec fn is_leap(y: int) -> bool {
    y % 4 == 0 && (y % 100 != 0 || y % 400 == 0)
}

/// Number of days of month `m` (1-12) of year `y`.
pub open spec fn month_len(y: int, m: int) -> int {
    if m == 2 {
        if is_leap(y) {
            29
        } else {
            28
        }
    } else if m == 4 || m == 6 || m == 9 || m == 11 {
        30
    } else {
        31
    }
}

/// The calendar day after `(y, m, d)`.
pub open spec fn next_date(t: (int, int, int)) -> (int, int, int) {
    let (y, m, d) = t;
    if d < month_len(y, m) {
        (y, m, d + 1)
    } else if m < 12 {
        (y, m + 1, 1)
    } else {
        (y + 1, 1, 1)
    }
}

/// Days of the era before its year `y` (years start on March 1).
pub open spec fn start_of(y: int) -> int {
    365 * y + y / 4 - y / 100
}

/// Whether year `y` of an era (March to February) ends with a February 29.
pub open spec fn era_leap(y: int) -> bool {
    y % 4 == 3 && (y % 100 != 99 || y == 399)
}

pub open spec fn year_len(y: int) -> int {
    if era_leap(y) {
        366
    } else {
        365
    }
}

/// The year of the era that day `doe` of the era falls in.
pub open spec fn yoe_of(doe: int) -> int {
    (doe - doe / 1460 + doe / 36524 - doe / 146096) / 365
}

proof fn lemma_yoe_inverse(y: int, dd: int)
    requires
        0 <= y <= 399,
        0 <= dd < year_len(y),
    ensures
        yoe_of(start_of(y) + dd) == y,
{
    let c = y / 100;
    let q = (y % 100) / 4;
    let r = y % 4;
    assert(y == 100 * c + 4 * q + r);
    assert(0 <= c <= 3 && 0 <= q <= 24 && 0 <= r <= 3);
    assert(y / 4 == 25 * c + q);
    assert(y / 100 == c);
    let doe = start_of(y) + dd;
    assert(doe == 36524 * c + 1461 * q + 365 * r + dd);
    assert(era_leap(y) <==> (r == 3 && (q != 24 || c == 3)));
    let e1 = (24 * c + q + 365 * r + dd) / 1460;
    assert(doe == 1460 * (25 * c + q) + (24 * c + q + 365 * r + dd));
    assert(doe / 1460 == 25 * c + q + e1);
    assert(0 <= e1 <= 1);
    assert(e1 == 1 ==> r == 3 && dd >= 269);
    if doe == 146096 {
        assert(doe / 36524 == 4);
        assert(doe / 146096 == 1);
    } else {
        assert(doe < 146096);
        assert(doe / 36524 == c);
        assert(doe / 146096 == 0);
    }
}

proof fn lemma_start_step(y: int)
    requires
        0 <= y < 399,
    ensures
        start_of(y + 1) == start_of(y) + year_len(y),
{
}

/// Within an era, the day after `doe` is in the same year one day later, or
/// it starts the next year.
proof fn lemma_doe_step(doe: int)
    requires
        0 <= doe < 146096,
    ensures
        ({
            let y = yoe_of(doe);
            let dd = doe - start_of(y);
            &&& 0 <= y <= 399
            &&& 0 <= dd < year_len(y)
            &&& dd + 1 < year_len(y) ==> yoe_of(doe + 1) == y
            &&& dd + 1 == year_len(y) ==> y < 399 && yoe_of(doe + 1) == y + 1 && start_of(y + 1)
                == doe + 1
        }),
{
    lemma_civil_bounds(doe);
    let y = yoe_of(doe);
    let dd = doe - start_of(y);
    if dd == 365 && !era_leap(y) {
        lemma_start_step(y);
        lemma_yoe_inverse(y + 1, 0);
        assert(false);
    }
    if dd + 1 < year_len(y) {
        lemma_yoe_inverse(y, dd + 1);
    } else {
        if y == 399 {
            assert(start_of(399) == 145731);
            assert(false);
        }
        lemma_start_step(y);
        lemma_yoe_inverse(y + 1, 0);
    }
}

/// The date of day `dd` of year `y` of era `era`.
pub open spec fn date_in_era(era: int, y: int, dd: int) -> (int, int, int) {
    let mp = (5 * dd + 2) / 153;
    let d = dd - (153 * mp + 2) / 5 + 1;
    let m = if mp < 10 {
        mp + 3
    } else {
        mp - 9
    };
    (if m <= 2 {
        y + era * 400 + 1
    } else {
        y + era * 400
    }, m, d)
}

proof fn lemma_leap_link(era: int, y: int)
    requires
        0 <= y <= 399,
    ensures
        is_leap(y + era * 400 + 1) == era_leap(y),
{
    let b = y + 1;
    vstd::arithmetic::div_mod::lemma_mod_multiples_vanish(era * 100, b, 4);
    vstd::arithmetic::div_mod::lemma_mod_multiples_vanish(era * 4, b, 100);
    vstd::arithmetic::div_mod::lemma_mod_multiples_vanish(era, b, 400);
    assert(4 * (era * 100) == era * 400);
    assert(100 * (era * 4) == era * 400);
    assert(400 * era == era * 400);
}

proof fn lemma_month_step(era: int, y: int, dd: int)
    requires
        0 <= y <= 399,
        0 <= dd,
        dd + 1 < year_len(y),
    ensures
        date_in_era(era, y, dd + 1) == next_date(date_in_era(era, y, dd)),
        1 <= date_in_era(era, y, dd).1 <= 12,
        1 <= date_in_era(era, y, dd).2 <= month_len(date_in_era(era, y, dd).0, date_in_era(era, y, dd).1),
{
    lemma_leap_link(era, y);
}

/// The last day of a year of an era is February 28 or 29 of the next civil
/// year, and the first day of the next year is March 1.
proof fn lemma_year_end(era: int, y: int)
    requires
        0 <= y <= 399,
    ensures
        date_in_era(era, y, year_len(y) - 1) == (y + era * 400 + 1, 2int, year_len(y) - 337),
        month_len(y + era * 400 + 1, 2) == year_len(y) - 337,
        date_in_era(era, y + 1, 0) == (y + 1 + era * 400, 3int, 1int),
{
    lemma_leap_link(era, y);
}

proof fn lemma_civil_parts(days: int)
    requires
        days >= 0,
    ensures
        ({
            let z = days + 719468;
            let doe = z % 146097;
            civil_from_days(days) == date_in_era(
                z / 146097,
                yoe_of(doe),
                doe - start_of(yoe_of(doe)),
            )
        }),
{
}

/// Day 0 is 1970-01-01.
pub proof fn lemma_calendar_epoch()
    ensures
        civil_from_days(0) == (1970int, 1int, 1int),
{
}

/// The date of a day is a valid date, and the date of the next day is the
/// calendar day after it.
pub proof fn lemma_calendar_next_day(days: int)
    requires
        days >= 0,
    ensures
        1 <= civil_from_days(days).1 <= 12,
        1 <= civil_from_days(days).2 <= month_len(civil_from_days(days).0, civil_from_days(days).1),
        civil_from_days(days + 1) == next_date(civil_from_days(days)),
{
    let z = days + 719468;
    let era = z / 146097;
    let doe = z % 146097;
    lemma_civil_parts(days);
    lemma_civil_parts(days + 1);
    if doe < 146096 {
        assert((z + 1) / 146097 == era && (z + 1) % 146097 == doe + 1);
        lemma_doe_step(doe);
        let y = yoe_of(doe);
        let dd = doe - start_of(y);
        if dd + 1 < year_len(y) {
            lemma_month_step(era, y, dd);
        } else {
            lemma_year_end(era, y);
        }
    } else {
        assert((z + 1) / 146097 == era + 1 && (z + 1) % 146097 == 0);
        assert(yoe_of(146096) == 399);
        assert(start_of(399) == 145731);
        assert(yoe_of(0) == 0);
        lemma_year_end(era, 399);
        assert(date_in_era(era + 1, 0, 0) == (era * 400 + 400, 3int, 1int));
    }
}

/// `(year, month, day)` of day `days` after 1970-01-01.
pub fn days_to_ymd(days: u64) -> (r: (u64, u64, u64))
    requires
        days <= u64::MAX - 719468,
    ensures
        (r.0 as int, r.1 as int, r.2 as int) == civil_from_days(days as int),
        1 <= r.1 <= 12,
        1 <= r.2 <= 31,
{
    let z = days + 719468;
    let era = z / 146097;
    let doe = z % 146097;
    proof {
        lemma_civil_bounds(doe as int);
        assert(era * 146097 <= z) by (nonlinear_arith)
            requires
                era == z / 146097,
        ;
        assert(era <= u64::MAX / 146097) by (nonlinear_arith)
            requires
                era == z / 146097,
                z <= u64::MAX,
        ;
    }
    let yoe = (doe - doe / 1460 + doe / 36524 - doe / 146096) / 365;
    let y = yoe + era * 400;
    let doy = doe - (365 * yoe + yoe / 4 - yoe / 100);
    let mp = (5 * doy + 2) / 153;
    let d = doy - (153 * mp + 2) / 5 + 1;
    let m = if mp < 10 {
        mp + 3
    } else {
        mp - 9
    };
    let y = if m <= 2 {
        y + 1
    } else {
        y
    };
    (y, m, d)
}

/// `n` in decimal, left-padded with zeros to at least `w` digits.
pub open spec fn padded(n: nat, w: nat) -> Seq<char> {
    let s = dec_chars(n);
    if s.len() >= w {
        s
    } else {
        Seq::new((w - s.len()) as nat, |i: int| '0') + s
    }
}

proof fn lemma_dec_len_bounds(n: nat)
    ensures
        n < 10 ==> dec_chars(n).len() == 1,
        10 <= n < 100 ==> dec_chars(n).len() == 2,
        100 <= n < 1000 ==> dec_chars(n).len() == 3,
        n >= 10 ==> dec_chars(n).len() >= 2,
        n >= 100 ==> dec_chars(n).len() >= 3,
        n >= 1000 ==> dec_chars(n).len() >= 4,
        dec_chars(n).len() >= 1,
    decreases n,
{
    if n >= 10 {
        lemma_dec_len_bounds(n / 10);
    }
}

/// Appends `n` zero-padded to `w` digits (`format!("{n:0w$}")`), `w <= 4`.
fn push_padded(s: &mut String, n: u64, w: u64)
    requires
        1 <= w <= 4,
    ensures
        final(s)@ == old(s)@ + padded(n as nat, w as nat),
{
    proof {
        lemma_dec_len_bounds(n as nat);
    }
    let digits: u64 = if n < 10 {
        1
    } else if n < 100 {
        2
    } else if n < 1000 {
        3
    } else {
        4
    };
    let ghost start = s@;
    let mut k: u64 = digits;
    while k < w
        invariant
            digits <= w ==> digits <= k <= w,
            digits > w ==> k == digits,
            s@ == start + Seq::new((k - digits) as nat, |i: int| '0'),
        decreases w - k,
    {
        push_char(s, '0');
        k = k + 1;
        assert(s@ =~= start + Seq::new((k - digits) as nat, |i: int| '0'));
    }
    push_decimal(s, n);
    proof {
        let d = dec_chars(n as nat);
        if d.len() >= w {
            if n < 1000 {
                assert(digits == d.len());
            }
            assert(Seq::new((k - digits) as nat, |i: int| '0') =~= Seq::<char>::empty());
            assert(s@ =~= old(s)@ + padded(n as nat, w as nat));
        } else {
            assert(n < 1000);
            assert(digits == d.len());
            assert(s@ =~= old(s)@ + padded(n as nat, w as nat));
        }
    }
}

/// The hour on a 12-hour clock.
pub open spec fn hour12(h: int) -> int {
    if h % 12 == 0 {
        12
    } else {
        h % 12
    }
}

/// `YYYY-MM-DD hh:mm:ssAM` (or `PM`) of `secs` seconds after the epoch.
pub open spec fn timestamp_spec(secs: nat) -> Seq<char> {
    let s = secs % 86400;
    let days = secs / 86400;
    let h = s / 3600;
    let m = (s % 3600) / 60;
    let sc = s % 60;
    let (year, month, day) = civil_from_days(days as int);
    padded(year as nat, 4) + seq!['-'] + padded(month as nat, 2) + seq!['-'] + padded(
        day as nat,
        2,
    ) + seq![' '] + padded(hour12(h as int) as nat, 2) + seq![':'] + padded(m, 2) + seq![':']
        + padded(sc, 2) + if h < 12 {
        seq!['A', 'M']
    } else {
        seq!['P', 'M']
    }
}

/// The timestamp of a log line for `secs` seconds after the epoch.
pub fn timestamp(secs: u64) -> (r: String)
    ensures
        r@ == timestamp_spec(secs as nat),
{
    let s = secs % 86400;
    let days = secs / 86400;
    let h = s / 3600;
    let m = (s % 3600) / 60;
    let sc = s % 60;
    let h12 = if h % 12 == 0 {
        12
    } else {
        h % 12
    };
    let (year, month, day) = days_to_ymd(days);
    let mut out = String::new();
    push_padded(&mut out, year, 4);
    push_char(&mut out, '-');
    push_padded(&mut out, month, 2);
    push_char(&mut out, '-');
    push_padded(&mut out, day, 2);
    push_char(&mut out, ' ');
    push_padded(&mut out, h12, 2);
    push_char(&mut out, ':');
    push_padded(&mut out, m, 2);
    push_char(&mut out, ':');
    push_padded(&mut out, sc, 2);
    if h < 12 {
        push_char(&mut out, 'A');
    } else {
        push_char(&mut out, 'P');
    }
    push_char(&mut out, 'M');
    assert(out@ =~= timestamp_spec(secs as nat));
    out
}

/// A log line: `"{timestamp} SYSTEM - {message}\n"`.
pub fn log_line(ts: &str, msg: &str) -> (r: String)
    ensures
        r@ == ts@ + " SYSTEM - "@ + msg@ + seq!['\n'],
{
    let mut s = String::new();
    push_str(&mut s, ts);
    push_str(&mut s, " SYSTEM - ");
    push_str(&mut s, msg);
    push_char(&mut s, '\n');
    assert(s@ =~= ts@ + " SYSTEM - "@ + msg@ + seq!['\n']);
    s
}

/// Whether a message is written anywhere: to stdout in dev mode, or to the
/// log file when one is open.
pub fn logs_anything(dev: bool, has_file: bool) -> (r: bool)
    ensures
        r == (dev || has_file),
{
    dev || has_file
}

} // verus!
