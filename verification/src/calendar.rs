//! Civil dates and the Indian trading clock.

use vstd::prelude::*;

verus! {

/// Milliseconds that Indian Standard Time is ahead of universal time.
pub const IST_MS: i64 = 19_800_000;

/// Milliseconds of a day.
pub const DAY_MS: i64 = 86_400_000;

/// `y` is a leap year.
pub open spec fn leap(y: int) -> bool {
    y % 4 == 0 && (y % 100 != 0 || y % 400 == 0)
}

/// Days of the months before month `m` in a common year.
pub open spec fn common_before(m: int) -> int {
    if m <= 1 {
        0
    } else if m == 2 {
        31
    } else if m == 3 {
        59
    } else if m == 4 {
        90
    } else if m == 5 {
        120
    } else if m == 6 {
        151
    } else if m == 7 {
        181
    } else if m == 8 {
        212
    } else if m == 9 {
        243
    } else if m == 10 {
        273
    } else if m == 11 {
        304
    } else if m == 12 {
        334
    } else {
        365
    }
}

/// Days of the months before month `m` of year `y`.
pub open spec fn before_month(y: int, m: int) -> int {
    common_before(m) + if leap(y) && m > 2 {
        1int
    } else {
        0int
    }
}

/// Days from the first of January of year 1 to that of year `y`.
pub open spec fn before_year(y: int) -> int {
    365 * (y - 1) + (y - 1) / 4 - (y - 1) / 100 + (y - 1) / 400
}

/// Days from the first of January 1970 to the given date of the Gregorian calendar.
pub open spec fn day_number(y: int, m: int, d: int) -> int {
    before_year(y) + before_month(y, m) + d - 1 - 719_162
}

/// Month `m` of year `y` has a day `d`.
pub open spec fn is_date(y: int, m: int, d: int) -> bool {
    &&& 1 <= m <= 12
    &&& 1 <= d <= before_month(y, m + 1) - before_month(y, m)
}

/// The date of a day number.
pub open spec fn date_of(z: int) -> (int, int, int) {
    choose|t: (int, int, int)| #[trigger] is_date(t.0, t.1, t.2) && day_number(t.0, t.1, t.2) == z
}

/// Quotient rounded down.
pub fn floor_div(a: i64, b: i64) -> (r: i64)
    requires
        b > 0,
    ensures
        r == a as int / b as int,
{
    proof {
        assert(i64::MIN <= a as int / b as int <= i64::MAX) by (nonlinear_arith)
            requires
                b > 0,
                i64::MIN <= a <= i64::MAX,
        ;
    }
    match a.checked_div_euclid(b) {
        Some(q) => q,
        None => 0,
    }
}

/// Remainder in `0..b`.
pub fn floor_mod(a: i64, b: i64) -> (r: i64)
    requires
        b > 0,
    ensures
        r == a as int % b as int,
        0 <= r < b,
{
    match a.checked_rem_euclid(b) {
        Some(q) => q,
        None => 0,
    }
}

/// Years before year `y` are shorter by whole years.
proof fn lemma_year_step(y: int)
    ensures
        before_year(y + 1) == before_year(y) + 365 + if leap(y) {
            1int
        } else {
            0int
        },
{
}

proof fn lemma_years_grow(a: int, b: int)
    requires
        a <= b,
    ensures
        before_year(a) + 365 * (b - a) <= before_year(b),
    decreases b - a,
{
    if a < b {
        lemma_year_step(a);
        lemma_years_grow(a + 1, b);
    }
}

/// A later date has a greater day number.
pub proof fn law_dates_in_order(y1: int, m1: int, d1: int, y2: int, m2: int, d2: int)
    requires
        is_date(y1, m1, d1),
        is_date(y2, m2, d2),
        y1 < y2 || (y1 == y2 && (m1 < m2 || (m1 == m2 && d1 < d2))),
    ensures
        day_number(y1, m1, d1) < day_number(y2, m2, d2),
{
    if y1 < y2 {
        lemma_years_grow(y1 + 1, y2);
        lemma_year_step(y1);
    }
}

/// A day number belongs to one date only.
pub proof fn law_dates_unique(y1: int, m1: int, d1: int, y2: int, m2: int, d2: int)
    requires
        is_date(y1, m1, d1),
        is_date(y2, m2, d2),
        day_number(y1, m1, d1) == day_number(y2, m2, d2),
    ensures
        y1 == y2,
        m1 == m2,
        d1 == d2,
{
    if y1 < y2 || (y1 == y2 && (m1 < m2 || (m1 == m2 && d1 < d2))) {
        law_dates_in_order(y1, m1, d1, y2, m2, d2);
    } else if y2 < y1 || (y1 == y2 && (m2 < m1 || (m1 == m2 && d2 < d1))) {
        law_dates_in_order(y2, m2, d2, y1, m1, d1);
    }
}

/// The day number of a date; days past the end of the month run on.
pub fn days_from_civil(y: i64, m: u32, d: u32) -> (r: i64)
    requires
        1 <= m <= 12,
        -25_000_000_000_000_000 <= y <= 25_000_000_000_000_000,
    ensures
        r == day_number(y as int, m as int, d as int),
{
    let yy: i64 = if m <= 2 {
        y - 1
    } else {
        y
    };
    let era: i64 = floor_div(yy, 400);
    let yoe: i64 = yy - era * 400;
    let mp: i64 = if m > 2 {
        m as i64 - 3
    } else {
        m as i64 + 9
    };
    let doy: i64 = (153 * mp + 2) / 5 + d as i64 - 1;
    let doe: i64 = yoe * 365 + yoe / 4 - yoe / 100 + doy;
    proof {
        let c = yy as int;
        assert(c / 400 == era);
        assert(c / 4 == 100 * era + yoe / 4);
        assert(c / 100 == 4 * era + yoe / 100);
        if m > 2 {
            let p = y as int - 1;
            assert(p / 4 == if y as int % 4 == 0 {
                y as int / 4 - 1
            } else {
                y as int / 4
            });
            assert(p / 100 == if y as int % 100 == 0 {
                y as int / 100 - 1
            } else {
                y as int / 100
            });
            assert(p / 400 == if y as int % 400 == 0 {
                y as int / 400 - 1
            } else {
                y as int / 400
            });
        }
    }
    era * 146_097 + doe - 719_468
}

/// The year of a 400-year cycle that begins in March, from the day of the cycle.
proof fn lemma_year_of_cycle(doe: int, yoe: int, doy: int)
    requires
        0 <= doe <= 146_096,
        yoe == (doe - doe / 1460 + doe / 36_524 - doe / 146_096) / 365,
        doy == doe - (365 * yoe + yoe / 4 - yoe / 100),
    ensures
        0 <= yoe <= 399,
        0 <= doy <= 365,
        doy == 365 ==> (yoe + 1) % 4 == 0 && ((yoe + 1) % 100 != 0 || yoe == 399),
{
    let c = doe / 36_524;
    let r = doe - 36_524 * c;
    assert(0 <= c <= 4);
    let q = doe / 1460;
    assert(doe / 146_096 == if doe == 146_096 {
        1int
    } else {
        0int
    });
}

/// Days of a year that begins in March before its month `mp`.
pub open spec fn before_march_month(mp: int) -> int {
    if mp <= 0 {
        0
    } else if mp == 1 {
        31
    } else if mp == 2 {
        61
    } else if mp == 3 {
        92
    } else if mp == 4 {
        122
    } else if mp == 5 {
        153
    } else if mp == 6 {
        184
    } else if mp == 7 {
        214
    } else if mp == 8 {
        245
    } else if mp == 9 {
        275
    } else if mp == 10 {
        306
    } else if mp == 11 {
        337
    } else {
        366
    }
}

proof fn lemma_march_month(doy: int, mp: int)
    requires
        0 <= doy <= 365,
        mp == (5 * doy + 2) / 153,
    ensures
        0 <= mp <= 11,
        (153 * mp + 2) / 5 == before_march_month(mp),
        before_march_month(mp) <= doy < before_march_month(mp + 1),
{
}

/// The March-based year `c`, its month `mp` and day `d` as a calendar date.
proof fn lemma_march_date(c: int, mp: int, d: int)
    requires
        0 <= mp <= 11,
        1 <= d <= before_march_month(mp + 1) - before_march_month(mp),
        mp == 11 && d == 29 ==> leap(c + 1),
    ensures
        ({
            let m = if mp < 10 {
                mp + 3
            } else {
                mp - 9
            };
            let y = if m <= 2 {
                c + 1
            } else {
                c
            };
            &&& is_date(y, m, d)
            &&& day_number(y, m, d) == 365 * c + c / 4 - c / 100 + c / 400 + before_march_month(mp)
                + d - 1 - 719_468
        }),
{
    lemma_year_step(c);
}

/// Every day number has a date.
pub proof fn law_every_day_has_a_date(z0: int)
    ensures
        is_date(date_of(z0).0, date_of(z0).1, date_of(z0).2),
        day_number(date_of(z0).0, date_of(z0).1, date_of(z0).2) == z0,
{
    let z = z0 + 719_468;
    let era = z / 146_097;
    let doe = z - era * 146_097;
    let yoe = (doe - doe / 1460 + doe / 36_524 - doe / 146_096) / 365;
    let doy = doe - (365 * yoe + yoe / 4 - yoe / 100);
    lemma_civil(era, doe, yoe, doy);
    let mp = (5 * doy + 2) / 153;
    let m = if mp < 10 {
        mp + 3
    } else {
        mp - 9
    };
    let w = (
        if m <= 2 {
            yoe + era * 400 + 1
        } else {
            yoe + era * 400
        },
        m,
        doy - (153 * mp + 2) / 5 + 1,
    );
    assert(is_date(w.0, w.1, w.2) && day_number(w.0, w.1, w.2) == z0);
}

/// The steps from a day of the 400-year cycle to a date.
proof fn lemma_civil(era: int, doe: int, yoe: int, doy: int)
    requires
        0 <= doe <= 146_096,
        yoe == (doe - doe / 1460 + doe / 36_524 - doe / 146_096) / 365,
        doy == doe - (365 * yoe + yoe / 4 - yoe / 100),
    ensures
        0 <= yoe <= 399,
        0 <= doy <= 365,
        ({
            let mp = (5 * doy + 2) / 153;
            let m = if mp < 10 {
                mp + 3
            } else {
                mp - 9
            };
            let d = doy - (153 * mp + 2) / 5 + 1;
            let y = if m <= 2 {
                yoe + era * 400 + 1
            } else {
                yoe + era * 400
            };
            &&& 0 <= mp <= 11
            &&& is_date(y, m, d)
            &&& day_number(y, m, d) == era * 146_097 + doe - 719_468
        }),
{
    lemma_year_of_cycle(doe, yoe, doy);
    let mp = (5 * doy + 2) / 153;
    lemma_march_month(doy, mp);
    let d = doy - (153 * mp + 2) / 5 + 1;
    let c = yoe + era * 400;
    assert(c / 4 == 100 * era + yoe / 4);
    assert(c / 100 == 4 * era + yoe / 100);
    assert(c / 400 == era);
    assert(mp == 11 && d == 29 ==> leap(c + 1)) by {
        assert((c + 1) % 4 == (yoe + 1) % 4);
        assert((c + 1) % 100 == (yoe + 1) % 100);
        assert((c + 1) % 400 == (yoe + 1) % 400);
    }
    lemma_march_date(c, mp, d);
}

/// The date of a day number.
pub fn civil_from_days(z0: i64) -> (r: (i64, u32, u32))
    requires
        z0 <= i64::MAX - 719_468,
    ensures
        is_date(r.0 as int, r.1 as int, r.2 as int),
        day_number(r.0 as int, r.1 as int, r.2 as int) == z0,
        date_of(z0 as int) == (r.0 as int, r.1 as int, r.2 as int),
        -1_000_000_000_000 <= z0 <= 1_000_000_000_000 ==> -4_000_000_000 <= r.0 <= 4_000_000_000,
{
    let z: i64 = z0 + 719_468;
    let era: i64 = floor_div(z, 146_097);
    let doe: i64 = z - era * 146_097;
    let yoe: i64 = (doe - doe / 1460 + doe / 36_524 - doe / 146_096) / 365;
    let y: i64 = yoe + era * 400;
    proof {
        lemma_civil(
            era as int,
            doe as int,
            yoe as int,
            doe as int - (365 * yoe as int + yoe as int / 4 - yoe as int / 100),
        );
    }
    let doy: i64 = doe - (365 * yoe + yoe / 4 - yoe / 100);
    let mp: i64 = (5 * doy + 2) / 153;
    let d: i64 = doy - (153 * mp + 2) / 5 + 1;
    let m: i64 = if mp < 10 {
        mp + 3
    } else {
        mp - 9
    };
    let yy: i64 = if m <= 2 {
        y + 1
    } else {
        y
    };
    proof {
        let t = date_of(z0 as int);
        law_every_day_has_a_date(z0 as int);
        law_dates_unique(t.0, t.1, t.2, yy as int, m as int, d as int);
    }
    (yy, m as u32, d as u32)
}

/// Turning a date into its day number and back gives the date again.
pub proof fn law_date_round_trip(y: int, m: int, d: int)
    requires
        is_date(y, m, d),
    ensures
        date_of(day_number(y, m, d)) == (y, m, d),
{
    let z = day_number(y, m, d);
    law_every_day_has_a_date(z);
    law_dates_unique(date_of(z).0, date_of(z).1, date_of(z).2, y, m, d);
}

/// The lengths of the months and years: thirty days have April, June, September and
/// November, February has twenty-eight, in a leap year twenty-nine, and the rest have
/// thirty-one. Every fourth year is a leap year, but of the full centuries only every
/// fourth. Day zero is the first of January 1970, and days follow each other without a
/// gap.
pub proof fn law_lengths_of_months_and_years(y: int, m: int, d: int)
    requires
        1 <= m <= 12,
    ensures
        is_date(y, m, d) <==> 1 <= d <= if m == 2 {
            if (y % 4 == 0 && y % 100 != 0) || y % 400 == 0 {
                29int
            } else {
                28int
            }
        } else if m == 4 || m == 6 || m == 9 || m == 11 {
            30int
        } else {
            31int
        },
        day_number(1970, 1, 1) == 0,
        day_number(y, m, d + 1) == day_number(y, m, d) + 1,
        m < 12 && is_date(y, m, d) && !is_date(y, m, d + 1) ==> day_number(y, m + 1, 1)
            == day_number(y, m, d) + 1,
        day_number(y + 1, 1, 1) == day_number(y, 12, 31) + 1,
{
    lemma_year_step(y);
}

} // verus!
