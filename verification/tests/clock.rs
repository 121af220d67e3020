//! The Indian clock: dates, periods and trading hours.

use rtengine::calendar::{civil_from_days, days_from_civil, floor_div, floor_mod};
use rtengine::clock::{
    day_key, day_key_label, entry_time_ok, fmt_clock, fmt_dt, hhmm_to_minutes, ist_day_key,
    ist_day_start, ist_minutes, ist_parts, pad2, period_meta, sessions_active, sessions_gate_ok,
    strategy_time_ok, time_fits, time_gate_ok, today_days, Ist,
};
use rtengine::engine::{check_square_off, square_off_due};
use rtengine::model::TradeSession;

/// Wednesday 11 November 2026, 10:05 in India.
const NOW: i64 = 1_794_371_700_000;

fn ses(a: &str, b: &str, on: bool) -> TradeSession {
    TradeSession { start: a.into(), end: b.into(), enabled: on }
}

#[test]
fn trade_time_gate_matches_old_engine() {
    assert!(time_gate_ok(false, "09:15", false, "15:30", 0));
    assert!(time_gate_ok(false, "09:15", false, "15:30", 23 * 60));
    assert!(!time_gate_ok(true, "09:15", false, "15:30", 9 * 60 + 14));
    assert!(time_gate_ok(true, "09:15", false, "15:30", 9 * 60 + 15));
    assert!(time_gate_ok(false, "09:15", true, "15:30", 15 * 60 + 30));
    assert!(!time_gate_ok(false, "09:15", true, "15:30", 15 * 60 + 31));
    assert!(time_gate_ok(true, "oops", true, "", 12 * 60));
}

#[test]
fn trade_sessions_gate_windows() {
    assert!(sessions_gate_ok(&[], 9 * 60));
    assert!(sessions_gate_ok(&[], 23 * 60));
    let one = [ses("09:30", "10:30", true)];
    assert!(!sessions_gate_ok(&one, 9 * 60 + 29));
    assert!(sessions_gate_ok(&one, 9 * 60 + 30));
    assert!(sessions_gate_ok(&one, 10 * 60 + 30));
    assert!(!sessions_gate_ok(&one, 10 * 60 + 31));
    let two = [ses("09:30", "10:30", true), ses("14:00", "15:14", true)];
    assert!(sessions_gate_ok(&two, 9 * 60 + 45));
    assert!(!sessions_gate_ok(&two, 13 * 60));
    assert!(sessions_gate_ok(&two, 14 * 60));
    assert!(sessions_gate_ok(&two, 15 * 60 + 14));
    assert!(!sessions_gate_ok(&two, 15 * 60 + 15));
    let off = [ses("09:30", "10:30", false)];
    assert!(sessions_gate_ok(&off, 20 * 60));
    let bad = [ses("oops", "10:30", true), ses("15:00", "09:00", true)];
    assert!(sessions_gate_ok(&bad, 12 * 60));
    assert!(!sessions_active(&[]));
    assert!(sessions_active(&one));
    assert!(sessions_active(&two));
    assert!(!sessions_active(&off));
    assert!(!sessions_active(&bad));
}

#[test]
fn sessions_replace_the_envelope() {
    let one = [ses("09:30", "10:30", true)];
    // Outside the cutoff, inside the session.
    assert!(strategy_time_ok(&one, false, "", true, "09:00", 10 * 60));
    assert!(!strategy_time_ok(&one, false, "", false, "", 11 * 60));
    let off = [ses("09:30", "10:30", false)];
    assert!(!strategy_time_ok(&off, false, "", true, "09:00", 10 * 60));
}

#[test]
fn a_dead_session_changes_nothing() {
    for dead in [ses("09:30", "10:30", false), ses("x", "10:30", true), ses("11:00", "10:00", true)] {
        let with = [ses("09:30", "10:30", true), dead];
        for now in [9 * 60, 10 * 60, 11 * 60] {
            assert_eq!(
                sessions_gate_ok(&with, now),
                sessions_gate_ok(&[ses("09:30", "10:30", true)], now)
            );
        }
    }
}

#[test]
fn times_are_read_leniently() {
    assert_eq!(hhmm_to_minutes("09:15"), Some(555));
    assert_eq!(hhmm_to_minutes(" 9:5 "), Some(545));
    assert_eq!(hhmm_to_minutes("0915"), None);
    assert_eq!(hhmm_to_minutes("nine:15"), None);
    assert!(time_fits("09:15") && time_fits("oops"));
    assert!(!time_fits("9000000000000000000:00"));
    assert_eq!(entry_time_ok(&[], true, "9000000000000000000:00", false, "", 0), None);
    assert_eq!(entry_time_ok(&[], true, "09:15", false, "", 0), Some(false));
    assert_eq!(entry_time_ok(&[], true, "09:15", false, "", 600), Some(true));
}

#[test]
fn square_off_comes_once_a_day() {
    assert!(check_square_off(true, "15:20", "20000", "20001", 15 * 60 + 20, 1));
    assert!(!check_square_off(true, "15:20", "20001", "20001", 15 * 60 + 20, 1));
    assert!(!check_square_off(true, "15:20", "20000", "20001", 15 * 60 + 19, 1));
    assert!(!check_square_off(false, "15:20", "20000", "20001", 16 * 60, 1));
    assert_eq!(square_off_due(true, "15:20", "20000", "20001", 16 * 60, 1), Some(true));
    assert_eq!(square_off_due(true, "9000000000000000000:00", "a", "b", 0, 1), None);
}

#[test]
fn dates_count_days() {
    assert_eq!(days_from_civil(1970, 1, 1), 0);
    assert_eq!(days_from_civil(2026, 11, 11), 20_768);
    assert_eq!(civil_from_days(20_768), (2026, 11, 11));
    assert_eq!(civil_from_days(-1), (1969, 12, 31));
    for z in [-800_000, -1, 0, 59, 11_016, 20_768, 3_000_000] {
        let (y, m, d) = civil_from_days(z);
        assert_eq!(days_from_civil(y, m, d), z);
    }
    assert!(days_from_civil(2024, 2, 29) < days_from_civil(2024, 3, 1));
    assert_eq!((floor_div(-1, 7), floor_mod(-1, 7)), (-1, 6));
}

#[test]
fn moments_split_into_indian_time() {
    assert_eq!(ist_parts(NOW), Ist { y: 2026, m: 11, d: 11, h: 10, min: 5, wd: 3 });
    assert_eq!(ist_day_start(NOW), NOW - (10 * 60 + 5) * 60_000);
    assert_eq!(ist_day_start(ist_day_start(NOW)), ist_day_start(NOW));
    assert_eq!(fmt_clock(NOW), "10:05 AM");
    assert_eq!(fmt_dt(NOW), "11 Nov 10:05 AM");
    assert_eq!(fmt_clock(NOW + 3 * 3_600_000), "01:05 PM");
    assert_eq!(fmt_dt(0), "--");
    assert_eq!(day_key(NOW), "2026-11-11");
    assert_eq!(day_key_label("2026-11-01"), "01 Nov");
    assert_eq!(day_key_label("2026-99-x"), "00 Dec");
    assert_eq!(day_key_label("none"), "none");
    assert_eq!(pad2(7), "07");
    assert_eq!(pad2(123), "123");
    assert_eq!(ist_minutes(NOW / 1000), 605);
    assert_eq!(ist_day_key(NOW / 1000), "20768");
    assert_eq!(today_days(86_400 * 3 + 5), 3);
}

#[test]
fn periods_begin_in_order() {
    let from = |r: &str| period_meta(r, NOW).0;
    assert_eq!(period_meta("1h", NOW), (NOW - 3_600_000, "Last 1 hour"));
    assert_eq!(period_meta("week", NOW), (ist_day_start(NOW) - 2 * 86_400_000, "This week"));
    assert_eq!(day_key(from("month")), "2026-11-01");
    assert_eq!(day_key(from("6m")), "2026-05-01");
    assert_eq!(day_key(from("year")), "2026-01-01");
    assert_eq!(period_meta("anything", NOW), (0, "All time"));
    assert!(from("6m") <= from("month") && from("month") <= from("today"));
    // A window of six months may reach into the year before.
    assert_eq!(day_key(period_meta("6m", from("month") - 200 * 86_400_000).0), "2025-10-01");
}
