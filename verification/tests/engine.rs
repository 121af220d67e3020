//! The running engine: limits, exits, the book, reconciliation, scans and flows.

use rtengine::book::{
    book_close, book_open, claim, closing, find_position, running_count, trades_done, Closed, NetPnl, Position,
};
use rtengine::conditions::{
    apply_hft_price, condition_detail, condition_holds, conditions_met, series_value, source_index,
    Bar, Condition,
};
use rtengine::engine::{
    guard_runs, plan_pass, plan_refresh, pool_forced, pool_row, pool_step, state_place, PoolRow, Refreshed,
};
use rtengine::entries::{
    entry_exchange, entry_option_side, entry_side, entry_start, is_pick, message, needs_option,
    new_position, premium_check, quantity_check, EntryAmounts, EntryError, OrderRoute,
};
use rtengine::exits::{
    close_plan, closed_row, delayed_entry_ready, entry_of, exceeds_freeze, manage_position,
    managed_ids, mark_position, peak_of, reason_name, CloseAmounts, ExitReason, InFlight, Tick,
};
use rtengine::flow::{entry_next, scan_next, EntryEvent, EntryStage, ScanEvent, ScanStage};
use rtengine::freeze::FreezeQty;
use rtengine::limits::{
    is_due, margin_key, memo_get, push_log, FreshKeys, LogRow, LogThrottle, MemoRow, OrderTimes,
    SeriesMemo,
};
use rtengine::model::{Settings, Strategy};
use rtengine::num::Num;
use rtengine::order::{rank, rank_first};
use rtengine::reconcile::{
    apply_exit, apply_exits, apply_fill, apply_fills, book_entry_fill, book_row, dropped_picks, exit_plans,
    fill_plan, fills_due, held_order_ids, is_countable, owner_of, position_plans, residual_orders, super_event,
    wants_fills, BookRow, BrokerRow, SuperEvent, SuperLeg,
};
use rtengine::scan::{
    all_legs_ok, chart_step, eligible, entry_step, exec_field, exec_leg, in_run, is_scannable,
    leg_ok, overall_direction_blocks, push_timing, scan_timeframes, timing_row, trade_cap, trend_legs_ok,
    wanted_charts, ChartStep, EntryStep, ExecLeg, LegCheck, MetTimes, Signals,
};
use rtengine::pass::{PassFact, ScanPass};
use rtengine::scanner::{
    find_meta, mover_lists, movers_pass, movers_step, nifty_pick_underlyings, nifty_scan_step,
    ordered_universe, pick_base, pick_row, quote_request, scanner_targets, sides_shown, trend_read,
    trend_step, trend_timeframe, update_picked, Pick, ScanState, ScannerStep, StratLegs, SymbolMeta,
    Trend, TrendStep,
};
use rtengine::sides::{
    active_side, auto_option_side, desired_option_side, effective_run_in_side, has_id, pick_side,
    scan_universe, sync_auto_side, template_for_direction, AutoSide, Dirs,
};
use rtengine::textmap::TextMap;

fn n(k: i64) -> Num {
    Num::of(k)
}

fn position(id: &str, side: &str) -> Position {
    let z = n(0);
    Position {
        id: id.into(),
        strategy_id: "s".into(),
        strategy_name: "S".into(),
        method: String::new(),
        security_id: 7,
        exchange_segment: "NSE_FNO".into(),
        instrument: "OPTIDX".into(),
        trading_symbol: "NIFTY CE".into(),
        underlying: "NIFTY".into(),
        side: side.into(),
        qty: 75,
        lots: 1,
        lot_size: n(75),
        filled_qty: 0,
        entry: n(100),
        fill_price: z,
        ltp: n(100),
        sl: z,
        overall_sl: z,
        sl_trailed: false,
        tp: z,
        trail: z,
        point_trail: z,
        trail_tp: z,
        peak_profit: z,
        best: z,
        order_ids: vec!["o1".into()],
        super_orders: vec![],
        broker: false,
        reconciled: false,
        nifty_pick: false,
        status: "OPEN".into(),
        order_type: String::new(),
        limit_price: z,
        opened_at: 1,
    }
}

fn closed_of(p: &Position, id: &str) -> Closed {
    let plan = close_plan(p, "normal", n(110), true, false, true, &FreezeQty::Fallback(0), n(75));
    let a = CloseAmounts { entry: n(100), exit: n(110), pnl: n(10), charges: n(1), net: n(9) };
    closed_row(p, &plan, a, id, true, "options", "Target", vec![], 9)
}

fn tick(ltp: i64) -> Tick {
    let z = n(0);
    Tick {
        ltp: n(ltp),
        per_unit: n(ltp - 100),
        peak: z,
        profit_stop: z,
        point_stop: z,
        profit_over_hard: false,
        point_over_hard: false,
        point_over_profit: false,
        kept: z,
        kept_price: z,
    }
}

#[test]
fn logs_keep_the_newest_rows() {
    let mut logs = vec![];
    for t in 0..605 {
        push_log(&mut logs, LogRow { t, level: "info".into(), msg: String::new() });
    }
    assert_eq!((logs.len(), logs[0].t, logs[599].t), (600, 5, 604));
}

#[test]
fn throttled_lines_come_once_per_window() {
    let mut t = LogThrottle::new();
    assert!(t.allow("k", 1000, 5_000_000));
    assert!(!t.allow("k", 1000, 5_000_500));
    assert!(t.allow("other", 1000, 5_000_500));
    assert!(t.allow("k", 1000, 5_001_000));
    let mut f = FreshKeys::new();
    assert!(!f.is_fresh("k", 1000, 50));
    f.note("k", 1000, 10, 50);
    assert!(f.is_fresh("k", 1000, 1049));
    assert!(!f.is_fresh("k", 1000, 1050));
}

#[test]
fn orders_per_second_are_capped() {
    let mut t = OrderTimes::new();
    for i in 0..6 {
        assert!(t.hft_allow(6, 10_000 + i));
        t.hft_record(10_000 + i);
    }
    assert!(!t.hft_allow(6, 10_500));
    assert!(t.hft_allow(6, 11_005));
}

#[test]
fn the_memo_reads_what_was_kept() {
    let rows = vec![MemoRow { candles: 1, study: 2, settings: 3, handle: 9 }];
    assert_eq!(memo_get(&rows, 1, 2, 3), Some(9));
    assert_eq!(memo_get(&rows, 1, 2, 4), None);
    let mut m = SeriesMemo::new();
    let outer = m.enter();
    m.keep(10, 20, 2, 3, 7);
    assert_eq!(m.find(10, 20, 2, 3), Some(7));
    m.leave(outer);
    assert_eq!(m.find(99, 20, 2, 3), Some(7), "the content is shared");
    assert_eq!(m.find(99, 21, 2, 3), None);
}

#[test]
fn margins_are_cached_per_order() {
    let k = margin_key(7, "nse_fno", "buy", 75, true, false, "INTRADAY");
    assert!(k.is_some());
    assert_eq!(margin_key(7, "NSE_FNO", "BUY", 0, true, false, "INTRADAY"), None);
    assert_eq!(margin_key(7, "NSE_FNO", "BUY", 75, false, false, "INTRADAY"), None);
    assert_eq!(margin_key(7, "NSE_FNO", "BUY", 75, true, true, "INTRADAY"), None);
    assert!(is_due(0, 500, 500) && !is_due(1, 500, 500));
}

#[test]
fn rankings_order_by_both_keys() {
    let keys = vec![(2, 0), (1, 5), (1, 3), (2, 0)];
    assert_eq!(rank(&keys, true), vec![2, 1, 0, 3]);
    assert_eq!(rank(&keys, false), vec![0, 3, 1, 2]);
    assert_eq!(rank_first(&keys, false, 2), vec![0, 3]);
    assert_eq!(rank_first(&keys, false, -1), Vec::<usize>::new());
}

#[test]
fn passes_and_refreshes_follow_the_clock() {
    assert!(guard_runs(true, false) && guard_runs(true, true) && !guard_runs(false, true));
    let idle = plan_pass(false, false, true);
    assert!(!idle.run && !idle.scan);
    let on = plan_pass(false, true, true);
    assert!(on.run && on.scan && !on.warn_disarmed);
    assert!(!plan_pass(false, true, false).scan && !plan_pass(false, true, false).warn_disarmed);
    assert!(plan_pass(true, true, false).warn_disarmed);
    let forced = plan_pass(true, false, true);
    assert!(forced.turn_on && forced.run);
    let t = Refreshed { ltp: 0, account: 0, funds: 0 };
    let (p, t2) = plan_refresh(t, 1_000_000, false, true);
    assert!(p.ltp && p.account && p.funds);
    let (p2, _) = plan_refresh(t2, 1_000_001, false, true);
    assert!(!p2.ltp && !p2.account && !p2.funds);
}

#[test]
fn the_pool_shows_what_it_can() {
    assert!(!pool_step(false, 0, 1, false, false).refresh);
    assert!(pool_step(true, 0, 3000, false, false).refresh);
    assert!(!pool_step(true, 0, 3000, true, true).refresh);
    assert_eq!(pool_row(0, 3, true, 9), PoolRow::Blank);
    assert_eq!(pool_row(7, 3, false, 9), PoolRow::NotConnected);
    assert_eq!(pool_row(7, 3, true, 1), PoolRow::NotEnoughBars);
    assert_eq!(pool_row(7, 3, true, 2), PoolRow::Readout);
    assert!(pool_forced("1") && pool_forced("TRUE") && !pool_forced("yes"));
}

#[test]
fn state_is_kept_where_the_operator_says() {
    assert_eq!(state_place(false, "/x/state.json", "").file, Some("/x/state.json".to_string()));
    let p = state_place(true, "/x/state.json", "  ");
    assert_eq!((p.file, p.dir.as_str(), p.name), (None, "data", "algodhan_paper_state.json"));
    let r = state_place(false, " ", "/var/lib");
    assert_eq!((r.dir.as_str(), r.name), ("/var/lib", "algodhan_realtime_state.json"));
}

#[test]
fn a_position_is_claimed_and_closed_once() {
    let mut ps = vec![position("p", "BUY")];
    book_open(&mut ps, position("q", "BUY"));
    assert_eq!((ps.len(), ps[1].id.as_str()), (2, "q"));
    let mut ledger = vec![];
    assert_eq!((running_count(&ps, "s"), trades_done(&ps, &ledger, "s")), (2, 2));
    assert_eq!(claim(&mut ps, "p"), Some(0));
    assert!(closing(&ps[0]));
    assert_eq!(claim(&mut ps, "p"), None);
    assert_eq!(claim(&mut ps, "zz"), None);
    let row = closed_of(&ps[0], "c1");
    assert_eq!((row.reason.as_str(), row.net_pnl), ("Target", NetPnl::Net(n(9))));
    book_close(&mut ps, &mut ledger, "p", row);
    assert_eq!((ps.len(), ledger.len(), find_position(&ps, "p")), (1, 1, None));
    assert_eq!(trades_done(&ps, &ledger, "s"), 2);
}

#[test]
fn the_hard_stop_always_cuts() {
    let mut p = position("p", "BUY");
    p.sl = n(90);
    p.overall_sl = n(90);
    let d = manage_position(&p, tick(90), true, false, false);
    assert_eq!((d.reason, d.price), (ExitReason::StopLoss, n(90)));
    assert_eq!(manage_position(&p, tick(91), true, false, false).reason, ExitReason::Hold);
    let mut s = position("s", "SELL");
    s.sl = n(110);
    assert_eq!(manage_position(&s, tick(111), false, false, false).reason, ExitReason::StopLoss);
    assert_eq!(reason_name(ExitReason::StopLoss), "STOP_LOSS");
}

#[test]
fn no_levels_mean_no_exit() {
    for ltp in [1, 100, 10_000] {
        let d = manage_position(&position("p", "BUY"), tick(ltp), true, true, true);
        assert_eq!((d.reason, d.queued), (ExitReason::Hold, false));
    }
}

#[test]
fn trails_tighten_and_exit_at_their_level() {
    let mut p = position("p", "BUY");
    p.overall_sl = n(90);
    p.trail = n(10);
    let mut t = tick(125);
    t.peak = n(30);
    t.profit_stop = n(127);
    t.profit_over_hard = true;
    let d = manage_position(&p, t, true, true, true);
    assert_eq!((d.reason, d.sl, d.sl_trailed), (ExitReason::TrailSl, n(127), true));
    assert_eq!((d.price, d.queued), (n(127), true));
    t.profit_over_hard = false;
    assert!(!manage_position(&p, t, true, true, true).sl_trailed);
    let mut tp = position("p", "BUY");
    tp.tp = n(120);
    let d = manage_position(&tp, tick(121), true, false, false);
    assert_eq!((d.reason, d.price), (ExitReason::Target, n(120)));
    assert_eq!(manage_position(&tp, tick(121), false, false, false).price, n(121));
    let mut tt = position("p", "BUY");
    tt.trail_tp = n(20);
    let mut t = tick(124);
    t.peak = n(30);
    t.kept = n(24);
    t.kept_price = n(124);
    let d = manage_position(&tt, t, true, false, false);
    assert_eq!((d.reason, d.price), (ExitReason::TrailTp, n(124)));
    assert_eq!(peak_of(n(30), n(24)), n(30));
    assert_eq!(peak_of(n(30), n(34)), n(34));
}

#[test]
fn marks_are_written_to_their_position() {
    let mut ps = vec![position("p", "BUY"), position("q", "BUY")];
    assert_eq!(managed_ids(&ps), vec!["p".to_string(), "q".to_string()]);
    mark_position(&mut ps, "q", n(120), n(121), n(95), true, n(20));
    assert_eq!((ps[1].ltp, ps[1].sl, ps[1].peak_profit), (n(120), n(95), n(20)));
    assert_eq!(ps[0].ltp, n(100));
    assert_eq!(entry_of(&ps[0]), n(100));
}

#[test]
fn delayed_exits_queue_once() {
    let mut f = InFlight::new();
    assert!(f.queue("p", 10));
    assert!(!f.queue("p", 20));
    f.resolve("p");
    assert!(f.queue("p", 30));
    assert!(delayed_entry_ready(true, true) && !delayed_entry_ready(true, false));
}

#[test]
fn closing_orders_follow_the_session() {
    let mut p = position("p", "BUY");
    p.broker = true;
    let live = close_plan(&p, "super", n(0), false, true, true, &FreezeQty::Fallback(50), n(75));
    assert_eq!((live.method.as_str(), live.mark, live.entry), ("super", n(100), n(100)));
    assert!(live.send && live.cancel_super && live.slice && live.buy && !live.charge);
    let offline = close_plan(&p, "super", n(0), false, false, true, &FreezeQty::Fallback(0), n(75));
    assert!(!offline.send && !offline.cancel_super && !offline.slice);
    assert!(exceeds_freeze(&FreezeQty::Listed(n(50)), 75, n(75)));
    assert!(!exceeds_freeze(&FreezeQty::Fallback(0), 75, n(75)));
}

fn leg(name: &str, status: &str, trigger: i64, average: i64) -> SuperLeg {
    SuperLeg {
        status: status.into(),
        name: name.into(),
        trigger_price: n(trigger),
        average_price: n(average),
    }
}

#[test]
fn broker_orders_report_their_event() {
    let filled = vec![leg("ENTRY_LEG", "TRADED", 0, 101)];
    assert_eq!(super_event("TRADED", &filled, n(0)), SuperEvent::Filled(n(101)));
    assert_eq!(super_event("TRADED", &filled, n(101)), SuperEvent::Nothing);
    let stopped =
        vec![leg("ENTRY_LEG", "TRADED", 0, 101), leg("STOP_LOSS_LEG", "TRADED", 90, 0)];
    assert_eq!(
        super_event("CLOSED", &stopped, n(101)),
        SuperEvent::Closed(ExitReason::StopLoss, n(90))
    );
    let hit = vec![leg("TARGET_LEG", "COMPLETED", 120, 0)];
    assert_eq!(super_event("", &hit, n(0)), SuperEvent::Closed(ExitReason::Target, n(120)));
    assert_eq!(super_event("Rejected", &vec![], n(0)), SuperEvent::Dead);
    assert_eq!(super_event("PENDING", &vec![], n(0)), SuperEvent::Nothing);
}

#[test]
fn fills_settle_positions_and_exits() {
    let mut ps = vec![position("p", "BUY")];
    let mut cs: Vec<Closed> = vec![];
    assert!(wants_fills(&ps, &cs));
    let mut book = TextMap::new();
    book.insert("o1".into(), BookRow { average: n(101), filled: 75, status: "TRADED".into() });
    let plan = fill_plan(&vec!["o1".into()], &book);
    assert_eq!((plan.filled, plan.terminal, plan.parts.clone()), (75, true, vec![(n(101), 75)]));
    assert!(apply_fill(&mut ps[0], &plan, n(101)));
    assert_eq!((ps[0].fill_price, ps[0].filled_qty, ps[0].reconciled), (n(101), 75, true));
    let plans = position_plans(&ps, &book);
    assert!(plans[0].is_none(), "a settled position is not asked again");
    assert!(!apply_fills(&mut ps, &plans, &vec![n(0)]));
    let mut c = closed_of(&ps[0], "c");
    c.exit_order_ids = vec!["o1".into()];
    c.exit_pending = true;
    cs.push(c);
    assert!(wants_fills(&ps, &cs));
    let plans = exit_plans(&cs, &book);
    assert!(apply_exits(&mut cs, &plans, &vec![n(101)], &vec![n(1)]));
    assert_eq!((cs[0].exit, cs[0].pnl, cs[0].net_pnl), (n(101), n(1), NetPnl::Net(n(1))));
    assert!(!cs[0].exit_pending);
    let plan = fill_plan(&vec!["o1".into()], &book);
    assert!(apply_exit(&mut cs[0], &plan, n(102), n(2)));
    assert_eq!(cs[0].net_pnl, NetPnl::Net(n(2)));
    book.insert("o2".into(), BookRow { average: n(1), filled: i64::MAX, status: "TRADED".into() });
    let huge = fill_plan(&vec!["o1".into(), "o2".into()], &book);
    assert_eq!(huge.filled, i128::from(i64::MAX) + 75);
    assert!(!is_countable(&huge) && is_countable(&plan));
    assert!(fills_due(false, true, true, 0, 1_000_000));
    assert!(!fills_due(true, true, true, 0, 1_000_000));
}

#[test]
fn orders_find_their_owner() {
    let mut ps = vec![position("p", "BUY")];
    ps[0].super_orders = vec!["b1".into()];
    ps[0].broker = true;
    assert_eq!(held_order_ids(&ps), vec!["b1".to_string()]);
    assert_eq!(owner_of(&ps, "b1"), Some(0));
    assert_eq!(owner_of(&ps, "zz"), None);
    book_entry_fill(&mut ps, "p", n(103));
    assert_eq!(ps[0].fill_price, n(103));
}

#[test]
fn residual_broker_positions_are_flattened() {
    let row = |sid: i64, net: i64| BrokerRow {
        security_id: sid,
        net_qty: net,
        exchange_segment: "NSE_FNO".into(),
        product: "INTRADAY".into(),
        trading_symbol: "x".into(),
    };
    let orders = residual_orders(&vec![position("p", "BUY")], &vec![row(7, 100), row(8, -50)]);
    assert_eq!(orders.len(), 2);
    assert_eq!((orders[0].row, orders[0].sell, orders[0].qty), (0, true, 25));
    assert_eq!((orders[1].row, orders[1].sell, orders[1].qty), (1, false, 50));
    assert!(residual_orders(&vec![position("p", "BUY")], &vec![row(7, 75)]).is_empty());
    // Two positions of one security count together, a short against a long.
    let two = vec![position("p", "BUY"), position("q", "BUY")];
    assert!(residual_orders(&two, &vec![row(7, 150)]).is_empty());
    let orders = residual_orders(&two, &vec![row(7, 100)]);
    assert_eq!((orders[0].row, orders[0].sell, orders[0].qty), (0, false, 50));
    let hedged = vec![position("p", "BUY"), position("q", "SELL")];
    assert!(residual_orders(&hedged, &vec![row(7, 0)]).is_empty());
}

#[test]
fn book_rows_hold_capitals_and_no_negative_fill() {
    let r = book_row(n(5), -3, "Traded");
    assert_eq!((r.average, r.filled, r.status.as_str()), (n(5), 0, "TRADED"));
    assert_eq!(book_row(n(5), 40, "part_traded").filled, 40);
}

#[test]
fn dropped_picks_are_closed() {
    let mut p = position("p", "BUY");
    p.nifty_pick = true;
    let ps = vec![p, position("q", "BUY")];
    assert_eq!(dropped_picks(&ps, &vec!["NIFTY".into()]), Vec::<String>::new());
    assert_eq!(dropped_picks(&ps, &vec!["BANKNIFTY".into()]), vec!["p".to_string()]);
    assert!(is_pick(&vec!["NIFTY".into()], "nifty"));
}

fn bar(open: i64, high: i64, low: i64, close: i64) -> Bar {
    Bar { time: 0, open: n(open), high: n(high), low: n(low), close: n(close), volume: n(1) }
}

#[test]
fn hft_execute_on_swaps_the_scanned_price() {
    let mut c = vec![bar(10, 14, 8, 12)];
    apply_hft_price(&mut c, 0, "candle_high");
    assert_eq!(c[0].close, n(14));
    apply_hft_price(&mut c, 0, "low");
    assert_eq!(c[0].close, n(8));
    apply_hft_price(&mut c, 0, "candle_open");
    assert_eq!(c[0].close, n(10));
    apply_hft_price(&mut c, 0, "candle_close");
    assert_eq!(c[0].close, n(10));
}

#[test]
fn conditions_compare_the_last_bars() {
    assert!(condition_holds("cross_up", n(5), Some(n(6)), Some(n(5))));
    assert!(!condition_holds("cross_up", n(5), Some(n(6)), Some(n(6))));
    assert!(condition_holds("cross_down", n(5), Some(n(4)), Some(n(5))));
    assert!(!condition_holds("gt", n(5), None, None));
    assert_eq!(series_value(&vec![n(1), n(2), n(3)], 1), Some(n(2)));
    assert_eq!(series_value(&vec![n(1)], 1), None);
    assert_eq!(source_index("", 2), Some(0));
    let cond = |op: &str, v: i64| Condition {
        indicator: "ema".into(),
        source: String::new(),
        op: op.into(),
        value: n(v),
    };
    let outs = vec![vec![vec![n(4), n(6)]], vec![vec![n(4), n(6)]]];
    let conds = vec![cond("gt", 5), cond("lt", 5)];
    let (all, rows) = condition_detail(&conds, &outs, 0);
    assert!(!all && rows[0].pass && !rows[1].pass);
    assert_eq!(rows[0].last, Some(n(6)));
    assert!(conditions_met(&vec![cond("gt", 5)], &vec![vec![vec![n(4), n(6)]]], 0));
    assert!(!conditions_met(&vec![cond("gt", 5)], &vec![vec![vec![n(4), n(6)]]], 1));
}

const FLAT: Dirs = Dirs { nifty: 0, movers: 0 };

fn bull() -> Strategy {
    Strategy {
        id: "s".into(),
        name: "S".into(),
        category: "BULLISH".into(),
        side: "BUY".into(),
        security_id: 13,
        exchange_segment: "IDX_I".into(),
        instrument: "INDEX".into(),
        trading_symbol: "NIFTY 50".into(),
        enabled: true,
        ..Default::default()
    }
}

#[test]
fn one_side_decides() {
    let mut s = Settings::default();
    assert_eq!(auto_option_side(&s, Dirs { nifty: 1, movers: 1 }), None);
    s.movers_on = true;
    assert_eq!(auto_option_side(&s, Dirs { nifty: 0, movers: -1 }), Some("PE"));
    s.nifty_trend_on = true;
    assert_eq!(auto_option_side(&s, Dirs { nifty: 1, movers: -1 }), Some("CE"));
    assert_eq!(effective_run_in_side(&s, FLAT), None);
    s.run_in_enabled = true;
    s.run_in_side = "pe".into();
    s.run_in_auto = false;
    assert_eq!(effective_run_in_side(&s, Dirs { nifty: 1, movers: 1 }), Some("PE"));
    assert_eq!(active_side(&s, Dirs { nifty: 1, movers: 1 }), Some("PE"));
    assert_eq!(pick_side(&s, FLAT), "PE");
    assert_eq!(desired_option_side(&s, FLAT, &bull()), "PE");
    let up = Dirs { nifty: 1, movers: -1 };
    let flipped = sync_auto_side(&s, up, AutoSide { side: -1, last_movers: 77 });
    assert_eq!(flipped, AutoSide { side: 1, last_movers: 0 });
    let kept = sync_auto_side(&s, up, AutoSide { side: 1, last_movers: 77 });
    assert_eq!(kept, AutoSide { side: 1, last_movers: 77 });
}

#[test]
fn templates_follow_the_direction() {
    let mut s = Settings::default();
    assert_eq!(template_for_direction(&s, FLAT, &bull()), None);
    s.bull_template = "own".into();
    s.nifty_bear_template = "down".into();
    assert_eq!(template_for_direction(&s, FLAT, &bull()), Some("own".to_string()));
    s.nifty_trend_on = true;
    let down = Dirs { nifty: -1, movers: 0 };
    assert_eq!(template_for_direction(&s, down, &bull()), Some("down".to_string()));
}

#[test]
fn the_universe_has_each_instrument_once() {
    let catalogue =
        vec![(13, "IDX_I".to_string()), (2885, "NSE_EQ".to_string()), (2885, "NSE_EQ".to_string())];
    let s = Settings::default();
    let u = scan_universe(&catalogue, &vec![bull()], &s, &vec![], true, false);
    let ids: Vec<i64> = u.iter().map(|x| x.0).collect();
    assert_eq!(ids.iter().filter(|i| **i == 2885).count(), 1);
    assert_eq!(ids.iter().filter(|i| **i == 13).count(), 1);
    assert!(has_id(&ids, 13) && !has_id(&ids, 99));
    let o = ordered_universe(&vec![(9, "NSE_EQ".to_string()), (3, "NSE_EQ".to_string())], &vec![13]);
    assert_eq!(o.iter().map(|x| x.0).collect::<Vec<i64>>(), vec![3, 9, 13]);
}

#[test]
fn movers_rank_by_their_change() {
    let changes = vec![n(3), n(-5), n(8), n(0)];
    let p = movers_pass(&changes, 1, 1);
    assert_eq!((p.gainers, p.losers), (vec![2], vec![1]));
    assert_eq!((p.up, p.down), (2, 1));
    assert_eq!(p.bias, 1);
    let (up, down) = mover_lists(&changes, true, 1);
    assert_eq!((up, down), (vec![2], vec![1]));
    let q = quote_request(&vec![(1, "NSE_EQ".into()), (13, "IDX_I".into()), (2, "NSE_EQ".into())], 0, 3);
    assert_eq!(q.get("NSE_EQ"), Some(&vec![1, 2]));
}

#[test]
fn scanners_wait_their_turn() {
    assert_eq!(movers_step(0, 14_999, true, true), (ScannerStep::Wait, 0));
    assert_eq!(movers_step(0, 15_000, false, true), (ScannerStep::Clear, 0));
    assert_eq!(movers_step(0, 15_000, true, false), (ScannerStep::Wait, 0));
    assert_eq!(movers_step(0, 15_000, true, true), (ScannerStep::Scan, 15_000));
    let mut t = Trend { dir: 0, bull: vec![], bear: vec![], last_trend: 0, last_scan: 0 };
    assert_eq!(nifty_scan_step(&mut t, 20_000, true, true), ScannerStep::Clear);
    assert_eq!(t.last_scan, 20_000);
    t.bull = vec!["zzline".into()];
    assert_eq!(nifty_scan_step(&mut t, 40_000, true, true), ScannerStep::Scan);
    assert_eq!(trend_step(&mut t, 1_000_000, true), TrendStep::Read);
    trend_read(&mut t, 400, vec!["a".into()], vec![], 1);
    assert_eq!(t.dir, 1);
    assert_eq!(trend_step(&mut t, 2_000_000, false), TrendStep::Cleared);
    assert_eq!(t.dir, 0);
    assert_eq!(trend_timeframe("Both"), "5min");
    assert_eq!(trend_timeframe("1min"), "1min");
    assert_eq!(sides_shown(Some("CE")), (true, false));
}

fn meta(sid: i64, name: &str) -> SymbolMeta {
    SymbolMeta {
        security_id: sid,
        name: name.into(),
        segment: "NSE_EQ".into(),
        instrument: "EQUITY".into(),
        lot: n(50),
    }
}

#[test]
fn picks_replace_only_their_source() {
    let s = Settings::default();
    let m = meta(2885, "RELIANCE");
    let base = pick_base(&m, "PE", n(0));
    assert_eq!((base.id.as_str(), base.name.as_str()), ("pick:2885:PE", "RELIANCE [PE]"));
    let row = |source: &str| -> Pick { pick_row(&base, &m, "PE", source, &s, 0) };
    let picked = update_picked(vec![row("movers"), row("nifty")], "movers", vec![]);
    assert_eq!((picked.len(), picked[0].source.as_str()), (1, "nifty"));
    assert_eq!(nifty_pick_underlyings(&picked), vec!["RELIANCE".to_string()]);
    assert_eq!(find_meta(&vec![m], 2885), Some(0));
    let mut legs = StratLegs::new();
    legs.record_strat_leg("s", true, &bull());
    assert_eq!(legs.trade.get("s").unwrap().security_id, 13);
    assert!(legs.run.get("s").is_none());
}

#[test]
fn targets_need_ticked_filters() {
    let mut s = Settings::default();
    s.movers_on = true;
    s.movers_gainers = 2;
    let st = ScanState {
        dirs: Dirs { nifty: 0, movers: 1 },
        bull_lines: false,
        bear_lines: false,
        commodities: vec![],
        gainers: vec![2885, 2885],
        losers: vec![],
        picks: vec![],
    };
    let metas = vec![meta(2885, "RELIANCE")];
    assert_eq!(scanner_targets(&s, &st, &metas).len(), 0);
    s.filters.insert("BullIncUp".into(), true);
    let t = scanner_targets(&s, &st, &metas);
    assert_eq!(t.len(), 1);
    assert!(t[0].synthetic && t[0].security_id == 2885);
}

#[test]
fn runs_follow_the_tick_marks() {
    let s = Settings::default();
    let mut selected = TextMap::new();
    let none: Vec<String> = vec![];
    let off = Strategy { enabled: false, ..bull() };
    assert!(!in_run(&off, &s, &selected, &none));
    assert!(in_run(&off, &s, &selected, &vec!["s".into()]));
    selected.insert("s".into(), true);
    assert!(in_run(&off, &s, &selected, &none));
    assert!(!in_run(&Strategy { synthetic: true, ..bull() }, &s, &selected, &none));
    assert!(is_scannable(&off, 1, &s, &selected, &none));
    assert!(!is_scannable(&off, 0, &s, &selected, &none));
    assert_eq!(eligible(&vec![off], &vec![1], &s, &selected, &none).0, 1);
    assert_eq!(scan_timeframes(&s, &bull()).0, "5min");
    assert_eq!(exec_field("high"), "high");
    assert_eq!(exec_field(" "), "close");
}

#[test]
fn signals_cool_down() {
    let mut g = Signals::new();
    assert!(g.start("s", false, 0, 1_000_000));
    assert!(!g.start("s", false, 0, 1_000_099));
    assert!(g.start("t", false, 0, 1_000_099));
    assert!(!g.start("s", false, 1, 1_000_100));
    assert!(g.start("s", true, 1, 1_000_100));
}

#[test]
fn charts_and_legs_gate_an_entry() {
    assert_eq!(wanted_charts("both"), (true, true));
    assert_eq!(wanted_charts("premium"), (false, true));
    assert_eq!(chart_step("both", true), ChartStep::Evaluate);
    assert_eq!(chart_step("premium", false), ChartStep::SkipNoPremium);
    let ok = LegCheck { conditions: true, gate: true, opposite: false, gate_before: false };
    assert!(leg_ok(false, false, ok));
    assert!(!leg_ok(false, false, LegCheck { opposite: true, ..ok }));
    assert!(leg_ok(true, false, LegCheck { conditions: false, ..ok }));
    assert!(!leg_ok(false, true, LegCheck { gate_before: true, ..ok }));
    assert!(all_legs_ok(false, false, &vec![ok, ok]));
    assert!(!all_legs_ok(false, false, &vec![ok, LegCheck { gate: false, ..ok }]));
    assert!(trend_legs_ok(false, &vec![Some(ok)]));
    assert!(!trend_legs_ok(false, &vec![None]));
    let s = Settings::default();
    assert!(!overall_direction_blocks(&s, FLAT, &bull()));
    assert_eq!(exec_leg(&bull(), &s, &vec![bull()]), ExecLeg::Resolve);
}

#[test]
fn entries_stop_at_their_limits() {
    let mut s = Settings::default();
    s.trade_limit = true;
    s.trade_limit_count = 2;
    let mut times = OrderTimes::new();
    assert_eq!(entry_step(trade_cap(&s), &s, 2, &mut times, 1000, false, false), EntryStep::TradeLimit);
    assert_eq!(entry_step(trade_cap(&s), &s, 1, &mut times, 1000, false, false), EntryStep::Open);
    s.hft = true;
    s.hft_ops = 1;
    let mut busy = OrderTimes::new();
    busy.hft_record(1000);
    assert_eq!(entry_step(trade_cap(&s), &s, 1, &mut busy, 1001, false, false), EntryStep::OrderCap);
}

/// A pass over two strategies, the first of which is switched off.
struct Passing {
    pass: ScanPass,
    ss: Vec<Strategy>,
    settings: Settings,
    signals: Signals,
    times: OrderTimes,
}

impl Passing {
    fn over(settings: Settings, minute: i64) -> Passing {
        let named = |id: &str, enabled: bool| Strategy { id: id.into(), enabled, ..bull() };
        let ss = vec![named("off", false), named("a", true), named("b", true)];
        let none: Vec<String> = vec![];
        let pass =
            ScanPass::open(true, minute, &ss, &vec![1, 1, 1], &settings, &TextMap::new(), &none);
        Passing { pass, ss, settings, signals: Signals::new(), times: OrderTimes::new() }
    }

    fn told(&mut self, f: PassFact) -> (Option<usize>, ScanStage) {
        self.pass.next(&self.ss, &self.settings, f, &mut self.signals, &mut self.times);
        (self.pass.place(), self.pass.stage)
    }

    /// Answers that lead up to the limits.
    fn to_limits(&mut self, now: i64) {
        self.told(PassFact::Start { running: 0, now });
        for e in [
            ScanEvent::Bars(3),
            ScanEvent::Direction(false),
            ScanEvent::Charts(ChartStep::Evaluate),
            ScanEvent::Checks(true),
            ScanEvent::Leg(ExecLeg::Own),
        ] {
            self.told(PassFact::Seen(e));
        }
    }

    fn limits(&mut self, done: i64, now: i64) -> (Option<usize>, ScanStage) {
        self.told(PassFact::Limits { done, now, paper: false, delay_positive: false })
    }
}

#[test]
fn a_pass_enters_only_what_passed() {
    let mut s = Settings::default();
    s.trade_limit = true;
    s.trade_limit_count = 1;
    let mut p = Passing::over(s, 600);
    assert_eq!(p.pass.places, vec![1, 2], "a strategy that is switched off is not scanned");
    // An answer out of turn changes nothing.
    let start = (Some(1), ScanStage::Start);
    assert_eq!(p.told(PassFact::Seen(ScanEvent::Start(true))), start);
    assert_eq!(p.limits(0, 1_000), start);
    assert_eq!(p.told(PassFact::Placed { ok: true, now: 1_000 }), start);
    // An open position ends the scan of the first, the trade limit that of the second.
    let second = (Some(2), ScanStage::Start);
    assert_eq!(p.told(PassFact::Start { running: 1, now: 1_000 }), second);
    p.to_limits(1_000);
    assert_eq!(p.limits(1, 1_000), (None, ScanStage::Start));
    assert_eq!(p.told(PassFact::Start { running: 0, now: 9_000 }), (None, ScanStage::Start));
    // Without any of them the entry goes out.
    let mut p = Passing::over(Settings::default(), 600);
    p.to_limits(1_000);
    assert_eq!(p.limits(0, 1_000), (Some(1), ScanStage::Open));
    assert_eq!(p.told(PassFact::Placed { ok: true, now: 1_001 }), second);
    assert!(p.times.times.is_empty(), "only fast mode counts its orders");
    // Two bars are not enough.
    p.told(PassFact::Start { running: 0, now: 1_002 });
    assert_eq!(p.told(PassFact::Seen(ScanEvent::Bars(2))), (None, ScanStage::Start));
}

#[test]
fn a_pass_outside_trading_time_is_empty() {
    let mut s = Settings::default();
    s.no_trade_after_enabled = true;
    s.no_trade_after = "15:20".into();
    let mut open = Passing::over(s, 15 * 60 + 20);
    assert_eq!(open.told(PassFact::Queued), (Some(1), ScanStage::Start));
    let mut s = Settings::default();
    s.no_trade_after_enabled = true;
    s.no_trade_after = "15:20".into();
    let mut shut = Passing::over(s, 15 * 60 + 21);
    assert_eq!(shut.told(PassFact::Start { running: 0, now: 1_000 }), (None, ScanStage::Start));
    let mut s = Settings::default();
    s.filter_mode = true;
    assert_eq!(Passing::over(s, 600).pass.place(), None, "filter mode runs scanned rows only");
}

#[test]
fn a_pass_keeps_the_order_cap() {
    let fast = || {
        let mut s = Settings::default();
        s.hft = true;
        s.hft_ops = 1;
        s
    };
    let mut p = Passing::over(fast(), 600);
    p.to_limits(1_000);
    assert_eq!(p.limits(0, 1_000).1, ScanStage::Open);
    p.told(PassFact::Placed { ok: true, now: 1_010 });
    assert_eq!(p.times.times, vec![1_010]);
    p.to_limits(1_020);
    assert_eq!(p.limits(0, 1_020), (None, ScanStage::Start), "one order a second");
    let mut p = Passing::over(fast(), 600);
    p.times.hft_record(1_010);
    p.to_limits(2_010);
    assert_eq!(p.limits(0, 2_010).1, ScanStage::Open, "a second later there is room again");
    let mut p = Passing::over(fast(), 600);
    p.settings.paper_exec_delay_on = true;
    p.to_limits(1_000);
    let f = PassFact::Limits { done: 0, now: 1_000, paper: true, delay_positive: true };
    assert_eq!(p.told(f), (Some(1), ScanStage::Queue));
    assert_eq!(p.told(PassFact::Queued), (Some(2), ScanStage::Start));
}

#[test]
fn entry_timing_is_noted_once() {
    let mut m = MetTimes::new();
    m.note("s", 10, 3);
    m.note("s", 20, 4);
    let met = m.take("s").unwrap();
    assert_eq!(met, (10, 3));
    assert_eq!(m.take("s"), None);
    let row = timing_row(&bull(), "BUY", met, 35, 5);
    assert_eq!((row.met_at, row.entry_at, row.delay_ms), (10, 35, 25));
    let mut log = vec![];
    for _ in 0..65 {
        push_timing(&mut log, timing_row(&bull(), "BUY", (1, 1), 2, 2));
    }
    assert_eq!(log.len(), 60);
}

#[test]
fn entries_begin_with_a_session() {
    assert_eq!(entry_start(true, false, false), Ok(()));
    assert_eq!(entry_start(false, false, true), Err(EntryError::NotConnected));
    assert_eq!(entry_start(false, true, false), Err(EntryError::NoClientId));
    assert_eq!(premium_check(true, false), Err(EntryError::StalePremium));
    assert_eq!(quantity_check(0), Err(EntryError::ZeroQuantity));
    for e in [
        EntryError::NotConnected,
        EntryError::NoClientId,
        EntryError::PaperNoPrice,
        EntryError::NoPrice,
        EntryError::PaperNoOptionPrice,
        EntryError::NoOptionPrice,
        EntryError::StalePremium,
        EntryError::ZeroQuantity,
    ] {
        assert!(!message(e).is_empty());
    }
    assert!(needs_option(&bull()));
    assert_eq!(entry_option_side(&bull(), "both"), "both");
    assert_eq!(entry_option_side(&Strategy { manual: true, ..bull() }, "both"), "CE");
    assert_eq!(entry_exchange("NSE_FNO"), "NSE_FNO");
    assert_eq!((entry_side("sell"), entry_side("BUY")), ("SELL", "BUY"));
    let a = EntryAmounts {
        lots: 1,
        lot_size: n(75),
        price: n(100),
        sl: n(90),
        tp: n(0),
        trail: n(0),
        point_trail: n(0),
        trail_tp: n(0),
        limit_price: n(0),
        zero: n(0),
    };
    let p = new_position(
        "rtpos_1", &bull(), "normal", "NSE_FNO", "NIFTY", 75, a, vec!["o".into()], vec![], true,
        OrderRoute::Plain, false, 5,
    );
    assert_eq!((p.id.as_str(), p.qty, p.sl, p.overall_sl), ("rtpos_1", 75, n(90), n(90)));
    assert_eq!((p.strategy_id.as_str(), p.opened_at), ("s", 5));
}

#[test]
fn no_order_without_its_checks() {
    let s = Strategy {
        exchange_segment: "NSE_FNO".into(),
        instrument: "OPTIDX".into(),
        ..bull()
    };
    let mut at = EntryStage::Session;
    for e in [
        EntryEvent::Session { client: true, client_id: true },
        EntryEvent::Price(n(100)),
        EntryEvent::Premium { option: true, sane: true },
        EntryEvent::Quantity(75),
        EntryEvent::Margin { budget: n(0), required: n(1), available: n(0) },
    ] {
        assert_ne!(at, EntryStage::Place);
        at = entry_next(at, e, false, &s);
    }
    assert_eq!(at, EntryStage::Place);
    let refused = entry_next(EntryStage::Quantity, EntryEvent::Quantity(0), false, &s);
    assert_eq!(refused, EntryStage::Refused(EntryError::ZeroQuantity));
    assert_eq!(entry_next(refused, EntryEvent::Quantity(75), false, &s), refused);
    let paper = entry_next(
        EntryStage::Margin,
        EntryEvent::Margin { budget: n(0), required: n(1), available: n(0) },
        true,
        &s,
    );
    assert_eq!(paper, EntryStage::Draw);
    assert_eq!(
        entry_next(
            EntryStage::Draw,
            EntryEvent::Draw { limit_order: false, rate_positive: true, drawn: true },
            true,
            &s
        ),
        EntryStage::RejectedAtRandom
    );
    assert_eq!(
        entry_next(
            EntryStage::Margin,
            EntryEvent::Margin { budget: n(5), required: n(3), available: n(2) },
            true,
            &s
        ),
        EntryStage::BlockedByMargin
    );
}

#[test]
fn no_signal_without_its_checks() {
    let path = [
        ScanEvent::Start(true),
        ScanEvent::Bars(3),
        ScanEvent::Direction(false),
        ScanEvent::Charts(ChartStep::Evaluate),
        ScanEvent::Checks(true),
        ScanEvent::Trend(true),
        ScanEvent::Leg(ExecLeg::Resolve),
        ScanEvent::Contract(true),
        ScanEvent::Limits(EntryStep::Open),
    ];
    let mut at = ScanStage::Start;
    for e in path {
        assert_ne!(at, ScanStage::Open);
        at = scan_next(at, e, true);
    }
    assert_eq!(at, ScanStage::Open);
    assert_eq!(scan_next(ScanStage::Bars, ScanEvent::Bars(2), true), ScanStage::Skip);
    assert_eq!(scan_next(ScanStage::Checks, ScanEvent::Checks(true), false), ScanStage::Leg);
    assert_eq!(scan_next(ScanStage::Skip, ScanEvent::Checks(true), false), ScanStage::Skip);
}
