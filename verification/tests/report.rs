//! The trade report: windows, streaks, groups and the hours that did best.

use rtengine::num::Num;
use rtengine::report::{
    bucket_by, dist_series, equity_places, group_by_name, hour_label, is_filter, mode_ok, norm,
    pick_best_hours, rank_strategies, report, scope_filter, stats_of, status_text, strategy_groups,
    week_days, weekday_group, weekday_name, Dist, HourRow, RawTrade, StatsQuery, Trade,
};

/// Wednesday 11 November 2026, 10:05 in India.
const NOW: i64 = 1_794_371_700_000;
const HOUR: i64 = 3_600_000;
const DAY: i64 = 24 * HOUR;

fn zero() -> Num {
    Num::of(0)
}

fn raw(at: i64, pnl: i64, strategy: &str) -> RawTrade {
    RawTrade {
        closed_at: at,
        at: 0,
        trading_symbol: "NIFTY CE".into(),
        symbol: String::new(),
        security_id: 7,
        symbol_id: 0,
        side: "BUY".into(),
        reason: String::new(),
        strategy_name: strategy.into(),
        opened_at: at - HOUR,
        pnl: Some(Num::of(pnl)),
        net_pnl: Some(Num::of(pnl - 1)),
        charges: Some(Num::of(1)),
    }
}

fn trades(rows: &[RawTrade], charges_on: bool) -> Vec<Trade> {
    rows.iter()
        .enumerate()
        .filter_map(|(i, c)| norm(c, i, charges_on, zero()))
        .collect()
}

fn query(range: &str, mode: &str, scope: &str) -> StatsQuery {
    StatsQuery {
        range: range.into(),
        mode: mode.into(),
        scope: scope.into(),
        engine: String::new(),
    }
}

#[test]
fn a_row_needs_a_time_and_a_name() {
    let t = norm(&raw(NOW, 10, "A"), 3, true, zero()).unwrap();
    assert_eq!((t.net, t.charges, t.row), (Num::of(9), Num::of(1), 3));
    assert_eq!(t.reason, "Closed");
    let gross = norm(&raw(NOW, 10, "A"), 0, false, zero()).unwrap();
    assert_eq!((gross.net, gross.charges), (Num::of(10), zero()));
    assert!(norm(&raw(0, 10, "A"), 0, true, zero()).is_none());
    let mut c = raw(0, 10, "A");
    c.at = 5;
    assert_eq!(norm(&c, 0, true, zero()).unwrap().at, 5);
    c.trading_symbol = String::new();
    c.security_id = 0;
    assert!(norm(&c, 0, true, zero()).is_none());
    c.symbol_id = 9;
    assert_eq!(norm(&c, 0, true, zero()).unwrap().symbol_id, 9);
    c.pnl = None;
    c.net_pnl = None;
    assert_eq!(norm(&c, 0, true, zero()).unwrap().net, zero());
}

#[test]
fn modes_split_on_the_filter_name() {
    let ts = trades(&[raw(NOW, 1, "INDICATOR FILTERs (all)"), raw(NOW, 1, "EMA cross")], true);
    assert!(is_filter(&ts[0]) && !is_filter(&ts[1]));
    assert!(mode_ok(&ts[0], "filter") && !mode_ok(&ts[1], "filter"));
    assert!(!mode_ok(&ts[0], "strategy") && mode_ok(&ts[1], "strategy"));
    assert!(mode_ok(&ts[0], "") && mode_ok(&ts[1], "all"));
}

#[test]
fn streaks_and_extremes_are_counted() {
    let pnls = [5, 7, -2, -9, 0, 3];
    let rows: Vec<RawTrade> = pnls.iter().map(|p| raw(NOW, *p, "A")).collect();
    let ts = trades(&rows, false);
    let c = stats_of(&ts, &vec![0, 1, 2, 3, 4, 5]);
    assert_eq!((c.n, c.wins, c.losses), (6, 3, 3));
    assert_eq!((c.max_streak, c.max_lose_streak), (2, 3));
    assert_eq!((c.best, c.worst), (Some(1), Some(3)));
    let none = stats_of(&ts, &vec![]);
    assert_eq!((none.n, none.best, none.worst), (0, None, None));
}

#[test]
fn the_curve_keeps_its_ends() {
    assert_eq!(equity_places(0), Vec::<usize>::new());
    assert_eq!(equity_places(3), vec![0, 1, 2]);
    let drawn = equity_places(1000);
    assert_eq!((drawn[0], drawn[1], *drawn.last().unwrap()), (0, 2, 999));
    assert_eq!(drawn.len(), 501);
}

#[test]
fn groups_hold_their_places_in_order() {
    let g = bucket_by(&vec![3, 1, 3]);
    assert_eq!(g.len(), 2);
    assert_eq!((g[0].key, g[0].places.clone()), (1, vec![1]));
    assert_eq!((g[1].key, g[1].places.clone()), (3, vec![0, 2]));
    let m = group_by_name(&vec!["b".into(), "a".into(), "b".into()]);
    assert_eq!(m.keys(), vec!["a".to_string(), "b".to_string()]);
    assert_eq!(m.get("b"), Some(&vec![0, 2]));
    let ts = trades(&[raw(NOW, 1, "x"), raw(NOW, 1, "y"), raw(NOW, 1, "x")], true);
    assert_eq!(strategy_groups(&ts, &vec![0, 1, 2]).get("x"), Some(&vec![0, 2]));
}

#[test]
fn strategies_rank_by_trades_and_net() {
    let r = rank_strategies(&vec![2, 5, 2], &vec![Num::of(1), Num::of(-4), Num::of(9)]);
    assert_eq!(r, vec![1, 2, 0]);
}

#[test]
fn the_distribution_goes_by_day_hour_or_trade() {
    let two_days = trades(&[raw(NOW, 1, "A"), raw(NOW - DAY, 1, "A")], true);
    assert!(matches!(dist_series(&two_days, &vec![0, 1]), Dist::ByDay(m) if m.len() == 2));
    let one = trades(&[raw(NOW, 1, "A")], true);
    assert!(matches!(dist_series(&one, &vec![0]), Dist::Each));
    assert!(matches!(dist_series(&one, &vec![]), Dist::Empty));
    let rows: Vec<RawTrade> = (0..21).map(|_| raw(NOW, 1, "A")).collect();
    let many = trades(&rows, true);
    let Dist::ByHour(g) = dist_series(&many, &(0..21).collect()) else { panic!("by hour") };
    // The entry came an hour before the close.
    assert_eq!((g.len(), g[0].key, g[0].places.len()), (1, 9, 21));
}

#[test]
fn scopes_look_back_from_now() {
    let ts = trades(
        &[raw(NOW - 40 * DAY, 1, "A"), raw(NOW - 8 * DAY, 1, "A"), raw(NOW - HOUR, 1, "A")],
        true,
    );
    let at = vec![0, 1, 2];
    assert_eq!(scope_filter(&ts, &at, "today", NOW), vec![2]);
    assert_eq!(scope_filter(&ts, &at, "7d", NOW), vec![2]);
    assert_eq!(scope_filter(&ts, &at, "30d", NOW), vec![1, 2]);
    assert_eq!(scope_filter(&ts, &at, "all", NOW), vec![0, 1, 2]);
}

#[test]
fn the_best_hour_has_most_wins() {
    let row = |count: usize, wins: usize, net: i64, wr: i64| HourRow {
        count,
        wins,
        net: Num::of(net),
        wr: Num::of(wr),
    };
    let b = pick_best_hours(&vec![row(4, 1, 50, 25), row(4, 3, 10, 75), row(1, 1, -5, 100)]);
    assert_eq!(b.best, Some(1));
    assert_eq!(b.by_net, Some(0));
    let none = pick_best_hours(&vec![]);
    assert_eq!((none.best, none.by_net, none.by_wr), (None, None, None));
}

#[test]
fn weekdays_begin_on_monday() {
    let g = bucket_by(&vec![0, 1, 5]);
    assert_eq!(week_days(&g), vec![1, 5, 0]);
    assert_eq!(weekday_group(&g, 5), Some(2));
    assert_eq!(weekday_group(&g, 3), None);
    assert_eq!((weekday_name(0), weekday_name(6)), ("Sun", "Sat"));
    assert_eq!(hour_label(9), "09:00");
    assert_eq!(status_text(1), "1 executed trade in this period");
    assert_eq!(status_text(2), "2 executed trades in this period");
}

#[test]
fn the_report_sorts_scopes_and_windows() {
    let rows = vec![
        raw(NOW - 2 * HOUR, 10, "B"),
        raw(NOW - 30 * 60_000, -4, "A"),
        raw(NOW - 400 * DAY, 6, "Indicator filter"),
        raw(0, 1, "dropped"),
    ];
    let r = report(&rows, &query("today", "", ""), true, NOW, zero());
    assert_eq!(r.trades.len(), 3);
    assert_eq!(r.scoped, vec![2, 0, 1]);
    assert_eq!(r.range, vec![0, 1]);
    assert_eq!(r.range_label, "Today");
    assert_eq!((r.counts.wins, r.counts.losses), (1, 1));
    assert_eq!(r.newest, vec![1, 0]);
    assert_eq!(r.insight.len(), 3);
    assert_eq!(r.strategies.keys(), vec!["A".to_string(), "B".to_string()]);
    let b = r.strategy_tallies.get("B").unwrap();
    assert_eq!((b.count, b.wins, b.losses, b.last), (1, 1, 0, NOW - 2 * HOUR));
    let a = r.strategy_tallies.get("A").unwrap();
    assert_eq!((a.count, a.wins, a.losses), (1, 0, 1));
    let wins: Vec<(i64, usize)> =
        r.hours.iter().zip(&r.hour_tallies).map(|(g, t)| (g.key, t.wins)).collect();
    assert_eq!(wins, vec![(7, 1), (8, 0), (9, 1)]);
    assert_eq!(r.weekday_tallies.iter().map(|t| t.count).sum::<usize>(), 3);
    let sizes: Vec<usize> = r.chips.iter().map(|c| c.places.len()).collect();
    assert_eq!(sizes, vec![1, 2, 2, 2, 2, 2]);
    let labels: Vec<&str> = r.chips.iter().map(|c| c.key).collect();
    assert_eq!(labels, vec!["1h", "today", "week", "month", "6m", "year"]);
    let only = report(&rows, &query("", "filter", "today"), true, NOW, zero());
    assert_eq!((only.range, only.insight), (vec![2], vec![]));
    assert_eq!(only.range_label, "All time");
}
