//! The Indian market clock: civil time, period windows, trading sessions.
//!
//! Times are milliseconds since the Unix epoch unless said otherwise.

use vstd::prelude::*;
use crate::calendar;
use crate::calendar::{DAY_MS, IST_MS};
use crate::model::TradeSession;
use crate::text;

verus! {

/// A time that Indian civil time can be worked out for.
pub open spec fn sane(ms: int) -> bool {
    ms <= i64::MAX - 19_800_000
}

/// Day number of the Indian date at `ms`.
pub open spec fn ist_day(ms: int) -> int {
    (ms + 19_800_000) / 86_400_000
}

/// Milliseconds since Indian midnight at `ms`.
pub open spec fn ist_rem(ms: int) -> int {
    (ms + 19_800_000) % 86_400_000
}

/// Indian date at `ms`.
pub open spec fn ist_date(ms: int) -> (int, int, int) {
    calendar::date_of(ist_day(ms))
}

/// Hour of the Indian day at `ms`.
pub open spec fn ist_hour(ms: int) -> int {
    ist_rem(ms) / 3_600_000
}

/// Minute of the Indian hour at `ms`.
pub open spec fn ist_minute(ms: int) -> int {
    ist_rem(ms) % 3_600_000 / 60_000
}

/// Weekday of the Indian date at `ms`, Sunday being zero.
pub open spec fn ist_weekday(ms: int) -> int {
    (ist_day(ms) + 4) % 7
}

/// Indian midnight that begins the day `z`.
pub open spec fn midnight(z: int) -> int {
    z * 86_400_000 - 19_800_000
}

/// Indian civil time.
#[derive(Clone, Copy, Debug, PartialEq, Eq, Structural)]
pub struct Ist {
    pub y: i64,
    pub m: u32,
    pub d: u32,
    pub h: u32,
    pub min: u32,
    /// Sunday is zero.
    pub wd: u32,
}

/// Indian civil time at `ms`.
pub fn ist_parts(ms: i64) -> (r: Ist)
    requires
        sane(ms as int),
    ensures
        (r.y as int, r.m as int, r.d as int) == ist_date(ms as int),
        calendar::is_date(r.y as int, r.m as int, r.d as int),
        calendar::day_number(r.y as int, r.m as int, r.d as int) == ist_day(ms as int),
        r.h == ist_hour(ms as int),
        r.min == ist_minute(ms as int),
        r.wd == ist_weekday(ms as int),
        r.h < 24,
        r.min < 60,
        r.wd < 7,
        r.d <= 31,
        -4_000_000_000 <= r.y <= 4_000_000_000,
{
    let local: i64 = ms + IST_MS;
    let days: i64 = calendar::floor_div(local, DAY_MS);
    let rem: i64 = calendar::floor_mod(local, DAY_MS);
    let (y, m, d) = calendar::civil_from_days(days);
    let wd: i64 = calendar::floor_mod(days + 4, 7);
    Ist {
        y,
        m,
        d,
        h: (rem / 3_600_000) as u32,
        min: ((rem % 3_600_000) / 60_000) as u32,
        wd: wd as u32,
    }
}

/// Indian midnight that begins the day of `ms`.
pub open spec fn day_start(ms: int) -> int {
    midnight(ist_day(ms))
}

/// Indian midnight that begins the day of `ms`.
pub fn ist_day_start(ms: i64) -> (r: i64)
    requires
        sane(ms as int),
        i64::MIN <= day_start(ms as int),
    ensures
        r == day_start(ms as int),
{
    let p = ist_parts(ms);
    calendar::days_from_civil(p.y, p.m, p.d) * DAY_MS - IST_MS
}

/// A day holds every moment from its midnight up to the next, and midnight
/// belongs to the day it begins.
pub proof fn law_day_start(ms: int)
    ensures
        day_start(ms) <= ms < day_start(ms) + 86_400_000,
        day_start(day_start(ms)) == day_start(ms),
        ist_rem(day_start(ms)) == 0,
{
}

/// At least two digits.
pub open spec fn pad2_text(n: int) -> Seq<char> {
    if n < 10 {
        seq!['0'] + text::dec(n)
    } else {
        text::dec(n)
    }
}

/// `n` with at least two digits.
pub fn pad2(n: u32) -> (r: String)
    ensures
        r@ == pad2_text(n as int),
{
    let mut out = String::new();
    push_pad2(&mut out, n);
    proof {
        assert(Seq::<char>::empty() + pad2_text(n as int) =~= pad2_text(n as int));
    }
    out
}

fn push_pad2(out: &mut String, n: u32)
    ensures
        final(out)@ == old(out)@ + pad2_text(n as int),
{
    if n < 10 {
        out.push('0');
    }
    text::push_nat(out, n as u64);
    proof {
        if n < 10 {
            assert(final(out)@ =~= old(out)@ + pad2_text(n as int));
        }
    }
}

/// The hour of a twelve-hour clock.
pub open spec fn hour12(h: int) -> int {
    if h % 12 == 0 {
        12
    } else {
        h % 12
    }
}

/// Half of the day an hour falls in.
pub open spec fn half(h: int) -> Seq<char> {
    if h < 12 {
        "AM"@
    } else {
        "PM"@
    }
}

/// `hh:mm AM` at `ms`.
pub open spec fn clock_text(ms: int) -> Seq<char> {
    pad2_text(hour12(ist_hour(ms))) + ":"@ + pad2_text(ist_minute(ms)) + " "@ + half(ist_hour(ms))
}

/// Three-letter month; months out of range read as the nearest one.
pub open spec fn month_text(m: int) -> Seq<char> {
    if m <= 1 {
        "Jan"@
    } else if m == 2 {
        "Feb"@
    } else if m == 3 {
        "Mar"@
    } else if m == 4 {
        "Apr"@
    } else if m == 5 {
        "May"@
    } else if m == 6 {
        "Jun"@
    } else if m == 7 {
        "Jul"@
    } else if m == 8 {
        "Aug"@
    } else if m == 9 {
        "Sep"@
    } else if m == 10 {
        "Oct"@
    } else if m == 11 {
        "Nov"@
    } else {
        "Dec"@
    }
}

fn month_name(m: i64) -> (r: &'static str)
    ensures
        r@ == month_text(m as int),
{
    if m <= 1 {
        "Jan"
    } else if m == 2 {
        "Feb"
    } else if m == 3 {
        "Mar"
    } else if m == 4 {
        "Apr"
    } else if m == 5 {
        "May"
    } else if m == 6 {
        "Jun"
    } else if m == 7 {
        "Jul"
    } else if m == 8 {
        "Aug"
    } else if m == 9 {
        "Sep"
    } else if m == 10 {
        "Oct"
    } else if m == 11 {
        "Nov"
    } else {
        "Dec"
    }
}

/// The Indian time of day at `ms`; `--` where there is no time.
pub fn fmt_clock(ms: i64) -> (r: String)
    requires
        sane(ms as int),
    ensures
        r@ == if ms <= 0 {
            "--"@
        } else {
            clock_text(ms as int)
        },
{
    if ms <= 0 {
        return "--".to_owned();
    }
    let p = ist_parts(ms);
    let mut out = String::new();
    push_clock(&mut out, &p);
    proof {
        assert(out@ =~= clock_text(ms as int));
    }
    out
}

fn push_clock(out: &mut String, p: &Ist)
    ensures
        final(out)@ == old(out)@ + (pad2_text(hour12(p.h as int)) + ":"@ + pad2_text(p.min as int)
            + " "@ + half(p.h as int)),
{
    let h12: u32 = if p.h % 12 == 0 {
        12
    } else {
        p.h % 12
    };
    push_pad2(out, h12);
    text::push_text(out, ":");
    push_pad2(out, p.min);
    text::push_text(out, " ");
    if p.h < 12 {
        text::push_text(out, "AM");
    } else {
        text::push_text(out, "PM");
    }
    proof {
        assert(final(out)@ =~= old(out)@ + (pad2_text(hour12(p.h as int)) + ":"@ + pad2_text(
            p.min as int,
        ) + " "@ + half(p.h as int)));
    }
}

/// The Indian date and time of day at `ms`; `--` where there is no time.
pub fn fmt_dt(ms: i64) -> (r: String)
    requires
        sane(ms as int),
    ensures
        r@ == if ms <= 0 {
            "--"@
        } else {
            pad2_text(ist_date(ms as int).2) + " "@ + month_text(ist_date(ms as int).1) + " "@
                + clock_text(ms as int)
        },
{
    if ms <= 0 {
        return "--".to_owned();
    }
    let p = ist_parts(ms);
    let mut out = pad2(p.d);
    text::push_text(&mut out, " ");
    text::push_text(&mut out, month_name(p.m as i64));
    text::push_text(&mut out, " ");
    push_clock(&mut out, &p);
    out
}

/// The Indian date of the day `z` as `y-mm-dd`.
pub open spec fn day_key_text(z: int) -> Seq<char> {
    let t = calendar::date_of(z);
    text::int_dec(t.0) + "-"@ + pad2_text(t.1) + "-"@ + pad2_text(t.2)
}

/// The Indian date at `ms` as `y-mm-dd`.
pub fn day_key(ms: i64) -> (r: String)
    requires
        sane(ms as int),
    ensures
        r@ == day_key_text(ist_day(ms as int)),
{
    let p = ist_parts(ms);
    let mut out = text::int_text(p.y);
    text::push_text(&mut out, "-");
    push_pad2(&mut out, p.m);
    text::push_text(&mut out, "-");
    push_pad2(&mut out, p.d);
    out
}

/// A parsed value or a stand-in.
pub open spec fn or_else(v: Option<int>, other: int) -> int {
    match v {
        Some(n) => n,
        None => other,
    }
}

/// `dd Mon` of a day key; anything with fewer than three fields as it is.
pub open spec fn key_label(k: Seq<char>) -> Seq<char> {
    let f = text::fields(k, '-');
    if f.len() < 3 {
        k
    } else {
        pad2_text(or_else(text::nat_value(f[2], u32::MAX as int), 0)) + " "@ + month_text(
            or_else(text::int_value(f[1]), 1),
        )
    }
}

/// `dd Mon` of a day key.
pub fn day_key_label(k: &str) -> (r: String)
    ensures
        r@ == key_label(k@),
{
    let f = text::split(k, '-');
    proof {
        assert(text::views(f@).len() == f@.len());
        if f@.len() >= 3 {
            assert(text::views(f@)[1] == f@[1]@);
            assert(text::views(f@)[2] == f@[2]@);
        }
    }
    if f.len() < 3 {
        return k.to_owned();
    }
    let d: u32 = match text::parse_nat(f[2].as_str(), u32::MAX as u64) {
        Some(d) => d as u32,
        None => 0,
    };
    let m: i64 = match text::parse_int(f[1].as_str()) {
        Some(m) => m,
        None => 1,
    };
    let mut out = pad2(d);
    text::push_text(&mut out, " ");
    text::push_text(&mut out, month_name(m));
    out
}

/// A report period.
#[derive(Clone, Copy, Debug, PartialEq, Eq, Structural)]
pub enum Period {
    Hour,
    Today,
    Week,
    Month,
    SixMonths,
    Year,
    All,
}

/// The period a key names; any other key means all time.
pub open spec fn period_of(key: Seq<char>) -> Period {
    if key == "1h"@ {
        Period::Hour
    } else if key == "today"@ {
        Period::Today
    } else if key == "week"@ {
        Period::Week
    } else if key == "month"@ {
        Period::Month
    } else if key == "6m"@ {
        Period::SixMonths
    } else if key == "year"@ {
        Period::Year
    } else {
        Period::All
    }
}

/// When a period that reaches up to `now` begins.
pub open spec fn period_start(p: Period, now: int) -> int {
    let (y, m, d) = ist_date(now);
    match p {
        Period::Hour => now - 3_600_000,
        Period::Today => day_start(now),
        Period::Week => day_start(now) - (ist_weekday(now) + 6) % 7 * 86_400_000,
        Period::Month => midnight(calendar::day_number(y, m, 1)),
        Period::SixMonths => if m > 6 {
            midnight(calendar::day_number(y, m - 6, 1))
        } else {
            midnight(calendar::day_number(y - 1, m + 6, 1))
        },
        Period::Year => midnight(calendar::day_number(y, 1, 1)),
        Period::All => 0,
    }
}

/// The title of a period.
pub open spec fn period_label(p: Period) -> Seq<char> {
    match p {
        Period::Hour => "Last 1 hour"@,
        Period::Today => "Today"@,
        Period::Week => "This week"@,
        Period::Month => "This month"@,
        Period::SixMonths => "Last 6 months"@,
        Period::Year => "This year"@,
        Period::All => "All time"@,
    }
}

/// The beginning of a period that reaches up to `now` is a time.
pub open spec fn period_fits(p: Period, now: int) -> bool {
    (p == Period::Hour || p == Period::All || sane(now)) && i64::MIN <= period_start(p, now)
}

/// Start and title of the period a key names, up to `now`.
pub fn period_meta(range: &str, now: i64) -> (r: (i64, &'static str))
    requires
        period_fits(period_of(range@), now as int),
    ensures
        r.0 == period_start(period_of(range@), now as int),
        r.1@ == period_label(period_of(range@)),
{
    if text::same(range, "1h") {
        return (now - 3_600_000, "Last 1 hour");
    }
    if text::same(range, "today") {
        return (ist_day_start(now), "Today");
    }
    if text::same(range, "week") {
        let ps = ist_parts(now);
        let dow: i64 = ((ps.wd + 6) % 7) as i64;
        return (ist_day_start(now) - dow * DAY_MS, "This week");
    }
    if text::same(range, "month") {
        let ps = ist_parts(now);
        return (calendar::days_from_civil(ps.y, ps.m, 1) * DAY_MS - IST_MS, "This month");
    }
    if text::same(range, "6m") {
        let ps = ist_parts(now);
        if ps.m > 6 {
            return (
                calendar::days_from_civil(ps.y, ps.m - 6, 1) * DAY_MS - IST_MS,
                "Last 6 months",
            );
        }
        return (
            calendar::days_from_civil(ps.y - 1, ps.m + 6, 1) * DAY_MS - IST_MS,
            "Last 6 months",
        );
    }
    if text::same(range, "year") {
        let ps = ist_parts(now);
        return (calendar::days_from_civil(ps.y, 1, 1) * DAY_MS - IST_MS, "This year");
    }
    (0, "All time")
}

proof fn lemma_week_start(now: int)
    ensures
        period_start(Period::Week, now) <= period_start(Period::Today, now),
        ist_weekday(period_start(Period::Week, now)) == 1,
        period_start(Period::Today, now) - period_start(Period::Week, now) < 7 * 86_400_000,
{
    let z = ist_day(now);
    let back = (ist_weekday(now) + 6) % 7;
    assert(ist_day(period_start(Period::Week, now)) == z - back);
}

proof fn lemma_first_days(y: int, m: int, d: int)
    requires
        calendar::is_date(y, m, d),
    ensures
        calendar::day_number(y, m, 1) <= calendar::day_number(y, m, d),
        calendar::day_number(y, 1, 1) <= calendar::day_number(y, m, 1),
        m > 6 ==> calendar::day_number(y, m - 6, 1) < calendar::day_number(y, m, 1),
        m <= 6 ==> calendar::day_number(y - 1, m + 6, 1) < calendar::day_number(y, m, 1),
{
    assert(calendar::is_date(y, m, 1));
    assert(calendar::is_date(y, 1, 1));
    if m <= 6 {
        assert(calendar::is_date(y - 1, m + 6, 1));
        calendar::law_dates_in_order(y - 1, m + 6, 1, y, m, 1);
    } else {
        assert(calendar::is_date(y, m - 6, 1));
        calendar::law_dates_in_order(y, m - 6, 1, y, m, 1);
    }
    if m > 1 {
        calendar::law_dates_in_order(y, 1, 1, y, m, 1);
    }
}

proof fn lemma_today(now: int)
    ensures
        day_start(now) <= now,
{
}

proof fn lemma_midnights(a: int, b: int)
    requires
        a <= b,
    ensures
        midnight(a) <= midnight(b),
        a < b ==> midnight(a) < midnight(b),
{
}

/// Every period but all time ends at `now`, the longer ones hold the shorter
/// ones, six months begin before their last month does, and a week begins on its Monday.
pub proof fn law_periods_nested(now: int)
    ensures
        period_start(Period::Hour, now) < now,
        period_start(Period::Today, now) <= now,
        period_start(Period::Week, now) <= period_start(Period::Today, now),
        period_start(Period::Month, now) <= period_start(Period::Today, now),
        period_start(Period::SixMonths, now) < period_start(Period::Month, now),
        period_start(Period::Year, now) <= period_start(Period::Month, now),
        ist_weekday(period_start(Period::Week, now)) == 1,
        period_start(Period::Today, now) - period_start(Period::Week, now) < 7 * 86_400_000,
{
    let z = ist_day(now);
    let (y, m, d) = ist_date(now);
    calendar::law_every_day_has_a_date(z);
    lemma_week_start(now);
    lemma_today(now);
    lemma_first_days(y, m, d);
    lemma_midnights(calendar::day_number(y, m, 1), z);
    lemma_midnights(calendar::day_number(y, 1, 1), calendar::day_number(y, m, 1));
    if m > 6 {
        lemma_midnights(calendar::day_number(y, m - 6, 1), calendar::day_number(y, m, 1));
    } else {
        lemma_midnights(calendar::day_number(y - 1, m + 6, 1), calendar::day_number(y, m, 1));
    }
}

/// Every period that reaches up to `now` begins at a time.
pub open spec fn reaches_back(now: int) -> bool {
    sane(now) && forall|p: Period| #[trigger] period_fits(p, now)
}

/// Every period that reaches up to a time since the epoch begins at a time.
pub proof fn law_periods_begin_at_a_time(now: int)
    requires
        0 <= now,
        sane(now),
    ensures
        reaches_back(now),
{
    let z = ist_day(now);
    let (y, m, d) = ist_date(now);
    calendar::law_every_day_has_a_date(z);
    assert(calendar::is_date(1969, 1, 1) && calendar::is_date(1970, 1, 1));
    assert(calendar::day_number(1969, 1, 1) == -365 && calendar::day_number(1970, 1, 1) == 0);
    if y < 1970 {
        calendar::law_dates_in_order(y, m, d, 1970, 1, 1);
    }
    assert(calendar::is_date(y, m, 1) && calendar::is_date(y, 1, 1));
    if !(y == 1970 && m == 1) {
        calendar::law_dates_in_order(1970, 1, 1, y, m, 1);
    }
    if y > 1970 {
        calendar::law_dates_in_order(1970, 1, 1, y, 1, 1);
    }
    if m > 6 {
        assert(calendar::is_date(y, m - 6, 1));
        if !(y == 1970 && m - 6 == 1) {
            calendar::law_dates_in_order(1970, 1, 1, y, m - 6, 1);
        }
    } else {
        assert(calendar::is_date(y - 1, m + 6, 1));
        calendar::law_dates_in_order(1969, 1, 1, y - 1, m + 6, 1);
    }
}

/// Whole days since the Unix epoch at `secs` seconds.
pub fn today_days(secs: u64) -> (r: i64)
    ensures
        r == secs as int / 86_400,
{
    (secs / 86_400) as i64
}

/// Minutes since Indian midnight at `secs` seconds.
pub open spec fn minute_of_day(secs: int) -> int {
    (secs + 19_800) % 86_400 / 60
}

/// Minutes since Indian midnight at `secs` seconds.
pub fn ist_minutes(secs: i64) -> (r: i64)
    requires
        secs <= i64::MAX - 19_800,
    ensures
        r == minute_of_day(secs as int),
        0 <= r < 1_440,
{
    calendar::floor_mod(secs + 19_800, 86_400) / 60
}

/// The Indian day number at `secs` seconds, as text.
pub fn ist_day_key(secs: i64) -> (r: String)
    requires
        secs <= i64::MAX - 19_800,
    ensures
        r@ == text::int_dec((secs as int + 19_800) / 86_400),
{
    text::int_text(calendar::floor_div(secs + 19_800, 86_400))
}

/// The hour and minute texts of `HH:MM` as numbers.
pub open spec fn hhmm_parts(s: Seq<char>) -> Option<(int, int)> {
    match text::cut(s, ':') {
        Some((h, m)) => match (
            text::int_value(text::trimmed(h)),
            text::int_value(text::trimmed(m)),
        ) {
            (Some(a), Some(b)) => Some((a, b)),
            _ => None,
        },
        None => None,
    }
}

/// Minutes past midnight of `HH:MM`; `None` for any other text.
pub open spec fn hhmm(s: Seq<char>) -> Option<int> {
    match hhmm_parts(s) {
        Some((h, m)) => Some(h * 60 + m),
        None => None,
    }
}

/// The minutes of the text fit a 64-bit integer.
pub open spec fn hhmm_fits(s: Seq<char>) -> bool {
    hhmm_parts(s) matches Some((h, m)) ==> {
        &&& i64::MIN <= h * 60 <= i64::MAX
        &&& i64::MIN <= h * 60 + m <= i64::MAX
    }
}

/// Minutes past midnight of `HH:MM`.
pub fn hhmm_to_minutes(s: &str) -> (r: Option<i64>)
    requires
        hhmm_fits(s@),
    ensures
        (match r {
            Some(v) => Some(v as int),
            None => None::<int>,
        }) == hhmm(s@),
{
    let (h, m) = match text::split_once(s, ':') {
        Some(p) => p,
        None => {
            return None;
        },
    };
    let ht = text::trim(h.as_str());
    let mt = text::trim(m.as_str());
    let a: i64 = match text::parse_int(ht.as_str()) {
        Some(a) => a,
        None => {
            return None;
        },
    };
    let b: i64 = match text::parse_int(mt.as_str()) {
        Some(b) => b,
        None => {
            return None;
        },
    };
    Some(a * 60 + b)
}

/// Whether the minutes a text writes fit a machine number.
pub fn time_fits(s: &str) -> (r: bool)
    ensures
        r == hhmm_fits(s@),
{
    let (h, m) = match text::split_once(s, ':') {
        Some(p) => p,
        None => {
            return true;
        },
    };
    let ht = text::trim(h.as_str());
    let mt = text::trim(m.as_str());
    match (text::parse_int(ht.as_str()), text::parse_int(mt.as_str())) {
        (Some(a), Some(b)) => {
            let h60: i128 = a as i128 * 60;
            let v: i128 = h60 + b as i128;
            i64::MIN as i128 <= h60 && h60 <= i64::MAX as i128 && i64::MIN as i128 <= v && v
                <= i64::MAX as i128
        },
        _ => true,
    }
}

/// The window of a session, first and last minute included; `None` where it is
/// off, malformed or reversed.
pub open spec fn window(s: TradeSession) -> Option<(int, int)> {
    if s.enabled {
        match (hhmm(s.start@), hhmm(s.end@)) {
            (Some(a), Some(b)) => if a < b {
                Some((a, b))
            } else {
                None
            },
            _ => None,
        }
    } else {
        None
    }
}

/// The times of every session fit a 64-bit integer.
pub open spec fn sessions_fit(s: Seq<TradeSession>) -> bool {
    forall|i: int| 0 <= i < s.len() ==> hhmm_fits((#[trigger] s[i]).start@) && hhmm_fits(s[i].end@)
}

/// At least one session is a window.
pub open spec fn any_window(s: Seq<TradeSession>) -> bool {
    exists|i: int| 0 <= i < s.len() && window(#[trigger] s[i]) is Some
}

/// The minute falls inside at least one window.
pub open spec fn in_window(s: Seq<TradeSession>, now: int) -> bool {
    exists|i: int|
        0 <= i < s.len() && (window(#[trigger] s[i]) matches Some((a, b)) && a <= now <= b)
}

fn window_of(s: &TradeSession) -> (r: Option<(i64, i64)>)
    requires
        hhmm_fits(s.start@),
        hhmm_fits(s.end@),
    ensures
        (match r {
            Some((a, b)) => Some((a as int, b as int)),
            None => None,
        }) == window(*s),
{
    if !s.enabled {
        return None;
    }
    match (hhmm_to_minutes(s.start.as_str()), hhmm_to_minutes(s.end.as_str())) {
        (Some(a), Some(b)) => if a < b {
            Some((a, b))
        } else {
            None
        },
        _ => None,
    }
}

/// Whether at least one session is a window.
pub fn sessions_active(sessions: &[TradeSession]) -> (r: bool)
    requires
        sessions_fit(sessions@),
    ensures
        r == any_window(sessions@),
{
    let mut i: usize = 0;
    while i < sessions.len()
        invariant
            sessions_fit(sessions@),
            i <= sessions.len(),
            forall|j: int| 0 <= j < i ==> window(#[trigger] sessions@[j]) is None,
        decreases sessions.len() - i,
    {
        if window_of(&sessions[i]).is_some() {
            proof {
                assert(window(sessions@[i as int]) is Some);
            }
            return true;
        }
        i += 1;
    }
    false
}

/// Whether the sessions let an entry in at minute `now`: inside a window, or
/// with no window at all.
pub fn sessions_gate_ok(sessions: &[TradeSession], now: i64) -> (r: bool)
    requires
        sessions_fit(sessions@),
    ensures
        r == (in_window(sessions@, now as int) || !any_window(sessions@)),
{
    let mut any = false;
    let mut i: usize = 0;
    while i < sessions.len()
        invariant
            sessions_fit(sessions@),
            i <= sessions.len(),
            any == (exists|j: int| 0 <= j < i && window(#[trigger] sessions@[j]) is Some),
            forall|j: int|
                0 <= j < i ==> !(window(#[trigger] sessions@[j]) matches Some((a, b)) && a <= now
                    <= b),
        decreases sessions.len() - i,
    {
        if let Some((a, b)) = window_of(&sessions[i]) {
            proof {
                assert(window(sessions@[i as int]) is Some);
            }
            any = true;
            if now >= a && now <= b {
                proof {
                    assert(window(sessions@[i as int]) == Some((a as int, b as int)));
                }
                return true;
            }
        }
        i += 1;
    }
    !any
}

/// Entries are open at minute `now`: not before the start where that gate is
/// on, not after the cutoff where that one is. A malformed time is no gate.
pub open spec fn envelope_open(
    start_on: bool,
    start: Seq<char>,
    cutoff_on: bool,
    cutoff: Seq<char>,
    now: int,
) -> bool {
    &&& start_on && hhmm(start) is Some ==> now >= hhmm(start)->0
    &&& cutoff_on && hhmm(cutoff) is Some ==> now <= hhmm(cutoff)->0
}

/// Whether entries are open at minute `now` by the start and cutoff times.
pub fn time_gate_ok(
    start_enabled: bool,
    start: &str,
    no_trade_enabled: bool,
    no_trade: &str,
    now: i64,
) -> (r: bool)
    requires
        hhmm_fits(start@),
        hhmm_fits(no_trade@),
    ensures
        r == envelope_open(start_enabled, start@, no_trade_enabled, no_trade@, now as int),
{
    if start_enabled {
        if let Some(m) = hhmm_to_minutes(start) {
            if now < m {
                return false;
            }
        }
    }
    if no_trade_enabled {
        if let Some(m) = hhmm_to_minutes(no_trade) {
            if now > m {
                return false;
            }
        }
    }
    true
}

/// Whether new entries are open at minute `now`. Session windows, where there
/// are any, replace the start and cutoff times.
pub fn strategy_time_ok(
    sessions: &[TradeSession],
    start_enabled: bool,
    start: &str,
    no_trade_enabled: bool,
    no_trade: &str,
    now: i64,
) -> (r: bool)
    requires
        sessions_fit(sessions@),
        hhmm_fits(start@),
        hhmm_fits(no_trade@),
    ensures
        r == if any_window(sessions@) {
            in_window(sessions@, now as int)
        } else {
            envelope_open(start_enabled, start@, no_trade_enabled, no_trade@, now as int)
        },
{
    if sessions_active(sessions) {
        return sessions_gate_ok(sessions, now);
    }
    time_gate_ok(start_enabled, start, no_trade_enabled, no_trade, now)
}

/// Whether entries are allowed now, as `strategy_time_ok` says; `None` where a
/// configured time is too large for a machine number.
pub fn entry_time_ok(
    sessions: &[TradeSession],
    start_enabled: bool,
    start: &str,
    no_trade_enabled: bool,
    no_trade: &str,
    now: i64,
) -> (r: Option<bool>)
    ensures
        r is Some == (sessions_fit(sessions@) && hhmm_fits(start@) && hhmm_fits(no_trade@)),
        r is Some ==> r->0 == if any_window(sessions@) {
            in_window(sessions@, now as int)
        } else {
            envelope_open(start_enabled, start@, no_trade_enabled, no_trade@, now as int)
        },
{
    if !time_fits(start) || !time_fits(no_trade) {
        return None;
    }
    let mut i: usize = 0;
    while i < sessions.len()
        invariant
            i <= sessions@.len(),
            forall|k: int|
                0 <= k < i ==> hhmm_fits((#[trigger] sessions@[k]).start@) && hhmm_fits(
                    sessions@[k].end@,
                ),
        decreases sessions.len() - i,
    {
        if !time_fits(sessions[i].start.as_str()) || !time_fits(sessions[i].end.as_str()) {
            assert(!(hhmm_fits(sessions@[i as int].start@) && hhmm_fits(sessions@[i as int].end@)));
            return None;
        }
        i += 1;
    }
    Some(strategy_time_ok(sessions, start_enabled, start, no_trade_enabled, no_trade, now))
}

/// A session that is off, malformed or reversed changes nothing wherever it is
/// added.
pub proof fn law_dead_session_is_inert(s: Seq<TradeSession>, dead: TradeSession, now: int)
    requires
        window(dead) is None,
    ensures
        any_window(s.push(dead)) == any_window(s),
        in_window(s.push(dead), now) == in_window(s, now),
{
    let t = s.push(dead);
    if any_window(s) {
        let i = choose|i: int| 0 <= i < s.len() && window(#[trigger] s[i]) is Some;
        assert(window(t[i]) is Some);
    }
    if any_window(t) {
        let i = choose|i: int| 0 <= i < t.len() && window(#[trigger] t[i]) is Some;
        assert(window(s[i]) is Some);
    }
    if in_window(s, now) {
        let i = choose|i: int|
            0 <= i < s.len() && (window(#[trigger] s[i]) matches Some((a, b)) && a <= now <= b);
        assert(window(t[i]) == window(s[i]));
    }
    if in_window(t, now) {
        let i = choose|i: int|
            0 <= i < t.len() && (window(#[trigger] t[i]) matches Some((a, b)) && a <= now <= b);
        assert(window(s[i]) == window(t[i]));
    }
}

/// Malformed times never close the engine.
pub proof fn law_malformed_times_never_block(
    start_on: bool,
    start: Seq<char>,
    cutoff_on: bool,
    cutoff: Seq<char>,
    now: int,
)
    requires
        hhmm(start) is None,
        hhmm(cutoff) is None,
    ensures
        envelope_open(start_on, start, cutoff_on, cutoff, now),
{
}

proof fn lemma_split_time(a: int, q: int, h: int, m: int, t: int)
    requires
        a == 86_400 * q + 3600 * h + 60 * m + t,
        0 <= h < 24,
        0 <= m < 60,
        0 <= t < 60,
    ensures
        a % 86_400 / 60 == 60 * h + m,
        a * 1000 / 86_400_000 == q,
        a * 1000 % 86_400_000 / 3_600_000 == h,
        a * 1000 % 86_400_000 % 3_600_000 / 60_000 == m,
{
    let r = 3600 * h + 60 * m + t;
    vstd::arithmetic::div_mod::lemma_fundamental_div_mod_converse(a, 86_400, q, r);
    vstd::arithmetic::div_mod::lemma_fundamental_div_mod_converse(r, 60, 60 * h + m, t);
    vstd::arithmetic::div_mod::lemma_fundamental_div_mod_converse(
        a * 1000,
        86_400_000,
        q,
        r * 1000,
    );
    vstd::arithmetic::div_mod::lemma_fundamental_div_mod_converse(
        r * 1000,
        3_600_000,
        h,
        (60 * m + t) * 1000,
    );
    vstd::arithmetic::div_mod::lemma_fundamental_div_mod_converse(
        (60 * m + t) * 1000,
        60_000,
        m,
        t * 1000,
    );
}

/// Indian time is five and a half hours ahead of universal time: a second that lies `h`
/// hours, `m` minutes and `t` seconds into the day `q` is told as that hour and minute of
/// that day, by the clock in milliseconds and by the one in seconds.
pub proof fn law_indian_time(secs: int, q: int, h: int, m: int, t: int)
    requires
        secs + 5 * 3600 + 30 * 60 == 86_400 * q + 3600 * h + 60 * m + t,
        0 <= h < 24,
        0 <= m < 60,
        0 <= t < 60,
    ensures
        ist_day(secs * 1000) == q,
        ist_hour(secs * 1000) == h,
        ist_minute(secs * 1000) == m,
        minute_of_day(secs) == 60 * h + m,
{
    lemma_split_time(secs + 19_800, q, h, m, t);
    assert(secs * 1000 + 19_800_000 == (secs + 19_800) * 1000);
}

/// The first day of the epoch was a Thursday, and weekdays follow each other round.
pub proof fn law_weekdays_go_round(ms: int)
    ensures
        ist_weekday(0) == 4,
        0 <= ist_weekday(ms) < 7,
        ist_weekday(ms + 86_400_000) == (ist_weekday(ms) + 1) % 7,
{
    vstd::arithmetic::div_mod::lemma_fundamental_div_mod_converse(
        ms + 86_400_000 + 19_800_000,
        86_400_000,
        ist_day(ms) + 1,
        ist_rem(ms),
    );
    let d = ist_day(ms) + 4;
    vstd::arithmetic::div_mod::lemma_fundamental_div_mod_converse(
        19_800_000,
        86_400_000,
        0,
        19_800_000,
    );
    assert((d + 1) % 7 == (d % 7 + 1) % 7);
}

/// The twelve-hour clock shows one to twelve, the same as the day's hour up to twelve
/// hours, in the morning before noon.
pub proof fn law_twelve_hour_clock(h: int)
    requires
        0 <= h < 24,
    ensures
        1 <= hour12(h) <= 12,
        hour12(h) % 12 == h % 12,
        h < 12 ==> half(h) == "AM"@,
        h >= 12 ==> half(h) == "PM"@,
{
}

/// The periods begin where their names say: the last hour an hour ago, today at midnight,
/// the month on its first, the year on the first of January, and the six months on the
/// first of the month six months back.
pub proof fn law_periods_begin_as_named(now: int)
    ensures
        ({
            let (y, m, d) = ist_date(now);
            &&& now - period_start(Period::Hour, now) == 60 * 60 * 1000
            &&& ist_date(period_start(Period::Today, now)) == (y, m, d)
            &&& ist_rem(period_start(Period::Today, now)) == 0
            &&& ist_date(period_start(Period::Month, now)) == (y, m, 1int)
            &&& ist_date(period_start(Period::Year, now)) == (y, 1int, 1int)
            &&& {
                let (a, b, c) = ist_date(period_start(Period::SixMonths, now));
                c == 1 && 12 * a + b == 12 * y + m - 6 && 1 <= b <= 12
            }
            &&& period_start(Period::All, now) == 0
        }),
{
    let (y, m, d) = ist_date(now);
    calendar::law_every_day_has_a_date(ist_day(now));
    law_day_start(now);
    assert(ist_day(midnight(ist_day(now))) == ist_day(now)) by {
        lemma_midnight_day(ist_day(now));
    }
    calendar::law_date_round_trip(y, m, 1);
    lemma_midnight_day(calendar::day_number(y, m, 1));
    calendar::law_lengths_of_months_and_years(y, 1, 1);
    calendar::law_date_round_trip(y, 1, 1);
    lemma_midnight_day(calendar::day_number(y, 1, 1));
    if m > 6 {
        calendar::law_lengths_of_months_and_years(y, m - 6, 1);
        calendar::law_date_round_trip(y, m - 6, 1);
        lemma_midnight_day(calendar::day_number(y, m - 6, 1));
    } else {
        calendar::law_lengths_of_months_and_years(y - 1, m + 6, 1);
        calendar::law_date_round_trip(y - 1, m + 6, 1);
        lemma_midnight_day(calendar::day_number(y - 1, m + 6, 1));
    }
}

proof fn lemma_midnight_day(z: int)
    ensures
        ist_day(midnight(z)) == z,
        ist_rem(midnight(z)) == 0,
{
    assert(midnight(z) + 19_800_000 == z * 86_400_000);
}

/// Entries are open from the first minute of a window to its last, both of them counted,
/// and in no window that is off, unreadable, empty or reversed.
pub proof fn law_windows_count_both_ends(s: TradeSession, now: int)
    ensures
        ({
            let (a, b) = (hhmm(s.start@), hhmm(s.end@));
            let live = s.enabled && a is Some && b is Some && a->0 < b->0;
            in_window(seq![s], now) <==> live && a->0 <= now <= b->0
        }),
        any_window(seq![s]) <==> s.enabled && hhmm(s.start@) is Some && hhmm(s.end@) is Some && hhmm(
            s.start@,
        )->0 < hhmm(s.end@)->0,
{
    let v = seq![s];
    assert(v[0] == s);
}

/// One more session opens its own window and shuts no other.
pub proof fn law_windows_add_up(v: Seq<TradeSession>, s: TradeSession, now: int)
    ensures
        in_window(v.push(s), now) <==> in_window(v, now) || in_window(seq![s], now),
        any_window(v.push(s)) <==> any_window(v) || any_window(seq![s]),
{
    let all = v.push(s);
    let one = seq![s];
    assert(all[v.len() as int] == s);
    assert(one[0] == s);
    if in_window(v, now) {
        let i = choose|i: int|
            0 <= i < v.len() && (window(#[trigger] v[i]) matches Some((a, b)) && a <= now <= b);
        assert(all[i] == v[i]);
    }
    if in_window(all, now) {
        let i = choose|i: int|
            0 <= i < all.len() && (window(#[trigger] all[i]) matches Some((a, b)) && a <= now <= b);
        if i < v.len() {
            assert(v[i] == all[i]);
        }
    }
    if any_window(v) {
        let i = choose|i: int| 0 <= i < v.len() && window(#[trigger] v[i]) is Some;
        assert(all[i] == v[i]);
    }
    if any_window(all) {
        let i = choose|i: int| 0 <= i < all.len() && window(#[trigger] all[i]) is Some;
        if i < v.len() {
            assert(v[i] == all[i]);
        }
    }
}

/// The start and the cutoff, where they are on and readable, both count as open.
pub proof fn law_envelope_counts_both_ends(start: Seq<char>, cutoff: Seq<char>, now: int)
    requires
        hhmm(start) is Some,
        hhmm(cutoff) is Some,
    ensures
        envelope_open(true, start, true, cutoff, now) <==> hhmm(start)->0 <= now <= hhmm(cutoff)->0,
        envelope_open(true, start, false, cutoff, now) <==> hhmm(start)->0 <= now,
        envelope_open(false, start, true, cutoff, now) <==> now <= hhmm(cutoff)->0,
        envelope_open(false, start, false, cutoff, now),
{
}

/// A time of day counts sixty minutes to the hour.
pub proof fn law_time_of_day(s: Seq<char>, h: int, m: int)
    requires
        hhmm_parts(s) == Some((h, m)),
    ensures
        hhmm(s) is Some,
        hhmm(s)->0 == 60 * h + m,
{
}

/// The periods by their keys; every other key means all time.
pub proof fn law_periods_by_key(key: Seq<char>)
    ensures
        period_of("1h"@) == Period::Hour,
        period_of("today"@) == Period::Today,
        period_of("week"@) == Period::Week,
        period_of("month"@) == Period::Month,
        period_of("6m"@) == Period::SixMonths,
        period_of("year"@) == Period::Year,
        period_of(key) == Period::All || key == "1h"@ || key == "today"@ || key == "week"@ || key
            == "month"@ || key == "6m"@ || key == "year"@,
{
    reveal_strlit("1h");
    reveal_strlit("today");
    reveal_strlit("week");
    reveal_strlit("month");
    reveal_strlit("6m");
    reveal_strlit("year");
    assert("1h"@[0] == '1' && "today"@[0] == 't' && "week"@[0] == 'w' && "month"@[0] == 'm' && "6m"@[0]
        == '6' && "year"@[0] == 'y');
}

/// The months are named by the first three letters of each, in the order of the year.
pub proof fn law_months_in_order(m: int)
    requires
        1 <= m <= 12,
    ensures
        month_text(m) == "JanFebMarAprMayJunJulAugSepOctNovDec"@.subrange(3 * m - 3, 3 * m),
{
    reveal_strlit("JanFebMarAprMayJunJulAugSepOctNovDec");
    reveal_strlit("Jan");
    reveal_strlit("Feb");
    reveal_strlit("Mar");
    reveal_strlit("Apr");
    reveal_strlit("May");
    reveal_strlit("Jun");
    reveal_strlit("Jul");
    reveal_strlit("Aug");
    reveal_strlit("Sep");
    reveal_strlit("Oct");
    reveal_strlit("Nov");
    reveal_strlit("Dec");
    assert(month_text(m) =~= "JanFebMarAprMayJunJulAugSepOctNovDec"@.subrange(3 * m - 3, 3 * m));
}

/// A number below a hundred is written in two digits, which read back as it.
pub proof fn law_two_digits(n: int)
    requires
        0 <= n < 100,
    ensures
        pad2_text(n).len() == 2,
        text::all_digits(pad2_text(n)),
        text::digits_value(pad2_text(n)) == n,
{
    reveal_with_fuel(text::dec, 3);
    reveal_with_fuel(text::digits_value, 3);
    text::law_numbers_read_back(n);
    let s = pad2_text(n);
    if n < 10 {
        assert(s.drop_last() =~= seq!['0']);
        assert(s.drop_last().drop_last() =~= Seq::<char>::empty());
        assert(s.last() as int == 48 + n);
        assert forall|i: int| 0 <= i < s.len() implies text::digit(#[trigger] s[i]) by {
            if i == 1 {
                assert(s[1] == text::dec(n)[0]);
            }
        }
    } else {
        assert(text::dec(n / 10).len() == 1);
    }
}

/// The key of a day is its year, month and day between dashes, and is shown as the day and
/// the month's name.
pub proof fn law_day_keys_read_back(y: int, m: int, d: int)
    requires
        calendar::is_date(y, m, d),
        y >= 0,
    ensures
        ({
            let key = day_key_text(calendar::day_number(y, m, d));
            let f = text::fields(key, '-');
            &&& f.len() == 3
            &&& text::digits_value(f[0]) == y
            &&& text::digits_value(f[1]) == m && f[1].len() == 2
            &&& text::digits_value(f[2]) == d && f[2].len() == 2
            &&& key_label(key) == f[2] + " "@ + month_text(m)
        }),
{
    calendar::law_date_round_trip(y, m, d);
    let key = day_key_text(calendar::day_number(y, m, d));
    reveal_strlit("-");
    let a = text::dec(y);
    let b = pad2_text(m);
    let c = pad2_text(d);
    text::law_numbers_read_back(y);
    law_two_digits(m);
    law_two_digits(d);
    assert forall|i: int| 0 <= i < a.len() implies a[i] != '-' by {
        assert(text::digit(a[i]));
    }
    assert forall|i: int| 0 <= i < b.len() implies b[i] != '-' by {
        assert(text::digit(b[i]));
    }
    assert forall|i: int| 0 <= i < c.len() implies c[i] != '-' by {
        assert(text::digit(c[i]));
    }
    text::law_fields_stand_between(a, a, '-');
    text::law_fields_stand_between(a, b, '-');
    text::law_fields_stand_between(a.push('-') + b, c, '-');
    assert(key =~= (a.push('-') + b).push('-') + c);
    let f = text::fields(key, '-');
    assert(f =~= seq![a, b, c]);
    assert(text::digit(b[0]) && text::digit(c[0]));
    assert(text::nat_value(c, u32::MAX as int) == Some(d));
    assert(text::int_value(b) == Some(m));
}

/// The clock shows the hour of the half-day and the minute in two digits each, and which
/// half it is.
pub proof fn law_clock_shows_the_time(ms: int)
    ensures
        ({
            let s = clock_text(ms);
            &&& s.len() == 8
            &&& text::digits_value(s.subrange(0, 2)) == hour12(ist_hour(ms))
            &&& s[2] == ':'
            &&& text::digits_value(s.subrange(3, 5)) == ist_minute(ms)
            &&& s[5] == ' '
            &&& s.subrange(6, 8) == half(ist_hour(ms))
        }),
{
    let h = ist_hour(ms);
    let m = ist_minute(ms);
    assert(0 <= h < 24 && 0 <= m < 60);
    law_twelve_hour_clock(h);
    law_two_digits(hour12(h));
    law_two_digits(m);
    reveal_strlit(":");
    reveal_strlit(" ");
    reveal_strlit("AM");
    reveal_strlit("PM");
    let s = clock_text(ms);
    assert(s.subrange(0, 2) =~= pad2_text(hour12(h)));
    assert(s.subrange(3, 5) =~= pad2_text(m));
    assert(s.subrange(6, 8) =~= half(h));
}

/// A period is labelled by what it is: the running ones by their name, the two that look
/// back by how far.
pub proof fn law_periods_are_labelled(p: Period)
    ensures
        p == Period::Today ==> period_label(p) == "Today"@,
        p == Period::All ==> period_label(p) == "All time"@,
        p == Period::Week ==> period_label(p) == "This "@ + "week"@,
        p == Period::Month ==> period_label(p) == "This "@ + "month"@,
        p == Period::Year ==> period_label(p) == "This "@ + "year"@,
        p == Period::Hour ==> period_label(p) == "Last "@ + "1 hour"@,
        p == Period::SixMonths ==> period_label(p) == "Last "@ + "6 months"@,
{
    reveal_strlit("This ");
    reveal_strlit("Last ");
    reveal_strlit("week");
    reveal_strlit("month");
    reveal_strlit("year");
    reveal_strlit("1 hour");
    reveal_strlit("6 months");
    reveal_strlit("This week");
    reveal_strlit("This month");
    reveal_strlit("This year");
    reveal_strlit("Last 1 hour");
    reveal_strlit("Last 6 months");
    assert("This "@ + "week"@ =~= "This week"@);
    assert("This "@ + "month"@ =~= "This month"@);
    assert("This "@ + "year"@ =~= "This year"@);
    assert("Last "@ + "1 hour"@ =~= "Last 1 hour"@);
    assert("Last "@ + "6 months"@ =~= "Last 6 months"@);
}

} // verus!
