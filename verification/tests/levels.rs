//! Entry levels, lot sizes, chart lines and account prices, on real prices.

use rtengine::book::Position;
use rtengine::entries::{
    calc_auto_lots, leg_stop, levels_for, lot_source, margin_blocks, margin_budget_of,
    margin_message, needs_volatility, order_route, paper_limit_order, paper_rejects, plain_order_prices,
    price_check, slice_pieces, Budget, EntryError, LegStop, LevelNums, LotCaps, LotSource, OrderRoute,
    StopSource, TargetSource, TrailSource,
};
use rtengine::freeze::FreezeQty;
use rtengine::model::Settings;
use rtengine::num::Num;
use rtengine::readout::{
    broker_price, build_chart_lines, card_quantity, chart_positions, holding_price, inr_group,
    line_color, line_prefix, line_style, line_word, locked_price, newest_places, position_price,
    positive_or, view_legs, view_timeframe, BrokerPrice, CardQty, ChartLine, LegFrom, LevelFacts,
    LineKind,
};
use rtengine::swing::{gap_widens, Swing};

fn num(x: f64) -> Num {
    let bits = x.to_bits() as i64;
    let key = if bits >= 0 { bits } else { -(bits & i64::MAX) };
    if x.is_nan() {
        Num { nan: true, infinite: false, key: 0 }
    } else {
        Num { nan: false, infinite: x.is_infinite(), key }
    }
}

fn value(n: Num) -> f64 {
    if n.nan {
        f64::NAN
    } else if n.key >= 0 {
        f64::from_bits(n.key as u64)
    } else {
        -f64::from_bits((-n.key) as u64)
    }
}

fn lots(lot: f64, price: f64, oi: f64, volume: f64, avail: f64, oi_pct: f64, vol_pct: f64) -> Option<f64> {
    calc_auto_lots(LotCaps {
        lot: num(lot),
        price: num(price),
        oi: num(oi),
        volume: num(volume),
        avail: num(avail),
        oi_pct: num(oi_pct),
        volume_pct: num(vol_pct),
        volume_lots: num((volume * vol_pct / 100.0 / lot).floor()),
        oi_lots: num((oi * oi_pct / 100.0 / lot).floor()),
        margin_lots: num((avail * 0.95 / (lot * price)).floor()),
    })
    .map(value)
}

/// The configured percentages of an order method.
#[derive(Clone, Copy, Default)]
struct Cfg {
    sl: f64,
    trail: Option<f64>,
    jump: f64,
}

#[derive(Clone, Copy, Default)]
struct Manual {
    sl: f64,
    trail: f64,
    rr: f64,
}

/// Stop, target and trail of an entry at `ltp`.
fn levels(s: &Settings, m: Manual, c: Cfg, side: &str, ltp: f64, ai: (f64, f64, f64)) -> (f64, f64, f64) {
    let plan = levels_for(
        s,
        LevelNums {
            ltp: num(ltp),
            manual_sl_pct: num(m.sl),
            cfg_sl_pct: num(c.sl),
            manual_trail_pct: num(m.trail),
            cfg_trail_pct: num(c.trail.unwrap_or(1.0)),
            points: num(0.0),
            cfg_jump: num(c.jump),
            manual_trail_tp_pct: num(0.0),
            ai_sl: num(ai.0),
            ai_tp: num(ai.1),
            ai_trail: num(ai.2),
            zero: num(0.0),
            hundred: num(100.0),
        },
    );
    let off = if side == "BUY" { 1.0 } else { -1.0 };
    let sl = match plan.stop {
        StopSource::Percent(p) => ltp - off * ltp * value(p) / 100.0,
        StopSource::Volatility(v) => value(v),
        StopSource::Off => 0.0,
    };
    let trail = match plan.trail {
        TrailSource::Percent(p) => value(p),
        TrailSource::Volatility(d) => (value(d) / ltp * 100.0).clamp(0.0, 100.0),
        TrailSource::Off => 0.0,
    };
    let tp = match plan.target {
        TargetSource::RiskReward => {
            let rr = if m.rr > 0.0 { m.rr } else { 2.0 };
            let risk = (ltp - sl).abs();
            if sl > 0.0 && risk > 0.0 { ltp + off * risk * rr } else { 0.0 }
        }
        TargetSource::Volatility(v) => value(v),
        TargetSource::Off => 0.0,
    };
    (sl, tp, trail)
}

#[test]
fn keys_are_the_numbers_bits() {
    for x in [0.0, 1.5, -1.5, 1e300, -1e-300, f64::INFINITY] {
        assert_eq!(value(num(x)), x);
    }
    assert!(num(-2.0).lt(&num(-1.0)) && num(-1.0).lt(&num(0.0)) && num(0.0).lt(&num(1e-300)));
    assert!(!num(f64::NAN).lt(&num(1.0)));
}

#[test]
fn calc_auto_lots_uses_liquidity_and_margin_caps() {
    assert_eq!(lots(50.0, 100.0, 1_000_000.0, 1_000_000.0, 0.0, 1.0, 1.0), Some(200.0));
    assert_eq!(lots(50.0, 100.0, 0.0, 0.0, 1_000_000.0, 1.0, 1.0), Some(190.0));
    assert_eq!(lots(50.0, 100.0, 1_000_000.0, 1_000_000.0, 1_000_000.0, 1.0, 1.0), Some(190.0));
    assert_eq!(lots(50.0, 100.0, 0.0, 0.0, 0.0, 1.0, 1.0), None);
}

#[test]
fn calc_auto_lots_picks_the_smaller_of_volume_and_oi_percent() {
    assert_eq!(lots(50.0, 100.0, 25_000.0, 50_000.0, 0.0, 2.0, 2.0), Some(10.0));
    assert_eq!(lots(50.0, 100.0, 50_000.0, 25_000.0, 0.0, 2.0, 2.0), Some(10.0));
    assert_eq!(lots(50.0, 100.0, 100_000.0, 100_000.0, 0.0, 1.0, 3.0), Some(20.0));
    assert_eq!(lots(50.0, 100.0, 25_000.0, 50_000.0, 0.0, 0.0, 2.0), Some(20.0));
    assert_eq!(lots(50.0, 100.0, 0.0, 50_000.0, 0.0, 2.0, 2.0), Some(20.0));
    assert_eq!(lots(50.0, 100.0, 25_000.0, 0.0, 0.0, 2.0, 2.0), Some(10.0));
    assert_eq!(lots(50.0, 100.0, 25_000.0, 50_000.0, 50_000.0, 2.0, 2.0), Some(9.0));
}

#[test]
fn disabled_manual_levels_ignore_stale_percent_and_config() {
    let mut s = Settings::default();
    s.sl_auto = false;
    let none = (0.0, 0.0, 0.0);
    // A configured target percentage has nowhere to enter.
    let (_, tp, _) = levels(&s, Manual::default(), Cfg::default(), "BUY", 100.0, none);
    assert_eq!(tp, 0.0);
    s.manual_sl = false;
    s.manual_trail_sl = false;
    let m = Manual { sl: 2.0, trail: 10.0, rr: 0.0 };
    let c = Cfg { sl: 2.0, trail: Some(10.0), jump: 0.0 };
    let (sl, _, trail) = levels(&s, m, c, "BUY", 100.0, none);
    assert_eq!(sl, 0.0);
    assert_eq!(trail, 0.0);
    s.manual_sl = true;
    s.manual_trail_sl = true;
    let (sl, tp, trail) = levels(&s, m, c, "BUY", 100.0, none);
    assert!((sl - 98.0).abs() < 1e-9, "sl={sl}");
    assert_eq!(tp, 0.0);
    assert!((trail - 10.0).abs() < 1e-9, "trail={trail}");
}

#[test]
fn sl_auto_drives_atr_floor() {
    let mut s = Settings::default();
    s.sl_auto = true;
    let ai = (95.0, 110.0, 3.0);
    let (sl, _, _) = levels(&s, Manual::default(), Cfg::default(), "BUY", 100.0, ai);
    assert!((sl - 95.0).abs() < 1e-9);
    s.sl_auto = false;
    let (sl2, _, _) = levels(&s, Manual::default(), Cfg::default(), "BUY", 100.0, ai);
    assert_eq!(sl2, 0.0);
}

#[test]
fn rr_target_overrides_ai_tp() {
    let mut s = Settings::default();
    s.ai_tp_pct = true;
    let m = Manual { rr: 2.0, ..Manual::default() };
    let at = |s: &Settings, side: &str, ai: (f64, f64, f64)| {
        levels(s, m, Cfg::default(), side, 100.0, ai).1
    };
    assert!((at(&s, "BUY", (95.0, 112.0, 3.0)) - 112.0).abs() < 1e-9);
    s.rr_enabled = true;
    assert!((at(&s, "BUY", (95.0, 112.0, 3.0)) - 110.0).abs() < 1e-9);
    assert!((at(&s, "SELL", (105.0, 90.0, 3.0)) - 90.0).abs() < 1e-9);
    assert_eq!(at(&s, "BUY", (0.0, 110.0, 3.0)), 0.0);
    // The plan itself arms no target without a stop.
    let nums = |sl: f64| LevelNums {
        ltp: num(100.0),
        manual_sl_pct: num(0.0),
        cfg_sl_pct: num(0.0),
        manual_trail_pct: num(0.0),
        cfg_trail_pct: num(1.0),
        points: num(0.0),
        cfg_jump: num(0.0),
        manual_trail_tp_pct: num(0.0),
        ai_sl: num(sl),
        ai_tp: num(110.0),
        ai_trail: num(3.0),
        zero: num(0.0),
        hundred: num(100.0),
    };
    assert_eq!(levels_for(&s, nums(95.0)).target, TargetSource::RiskReward);
    assert_eq!(levels_for(&s, nums(0.0)).target, TargetSource::Off);
}

#[test]
fn volatility_is_fetched_when_some_level_uses_it() {
    let mut s = Settings::default();
    s.sl_auto = true;
    assert!(needs_volatility(&s));
}

#[test]
fn lots_come_from_strategy_settings_or_master() {
    assert_eq!(lot_source(num(5.0), num(7.0)), LotSource::Strategy);
    assert_eq!(lot_source(num(0.0), num(7.0)), LotSource::Settings);
    assert_eq!(lot_source(num(0.0), num(0.0)), LotSource::Master);
}

fn budget(amount: f64, pct: f64, available: f64) -> f64 {
    match margin_budget_of(num(amount), num(pct), num(available), num(0.0), num(100.0)) {
        Budget::Amount(a) => value(a),
        Budget::Share { pct, balance } => value(balance) * value(pct) / 100.0,
    }
}

#[test]
fn manual_margin_amount_overrides_percentage() {
    assert!((budget(0.0, 50.0, 200_000.0) - 100_000.0).abs() < 1e-9);
    assert!((budget(0.0, 100.0, 200_000.0) - 200_000.0).abs() < 1e-9);
    assert!((budget(40_000.0, 100.0, 200_000.0) - 40_000.0).abs() < 1e-9);
    assert!((budget(500_000.0, 100.0, 200_000.0) - 200_000.0).abs() < 1e-9);
    assert_eq!(budget(0.0, 0.0, 200_000.0), 0.0);
    assert_eq!(budget(0.0, 250.0, -5.0), 0.0);
}

#[test]
fn margin_blocks_only_with_a_budget() {
    assert!(margin_blocks(num(500.0), num(120.0), num(100.0)));
    assert!(!margin_blocks(num(0.0), num(120.0), num(100.0)));
    assert!(!margin_blocks(num(500.0), num(120.0), num(120.0)));
    let m = margin_message("120", "500", "100", "20", 2);
    assert!(m.contains("120") && m.contains("500") && m.contains("100"));
}

#[test]
fn prices_are_checked_before_the_order() {
    assert_eq!(price_check(true, false, num(0.0)), Err(EntryError::PaperNoPrice));
    assert_eq!(price_check(false, false, num(0.0)), Err(EntryError::NoPrice));
    assert_eq!(price_check(true, true, num(0.0)), Err(EntryError::PaperNoOptionPrice));
    assert_eq!(price_check(false, true, num(-1.0)), Err(EntryError::NoOptionPrice));
    assert_eq!(price_check(true, true, num(0.05)), Ok(()));
}

#[test]
fn pieces_add_up_to_the_quantity() {
    assert_eq!(slice_pieces(true, 0, 1800, 4000), vec![1800, 1800, 400]);
    assert_eq!(slice_pieces(false, 0, 1800, 4000), vec![4000]);
    let own = slice_pieces(true, 500, 1800, 1200);
    assert_eq!(own.iter().sum::<i64>(), 1200);
    assert!(own.iter().all(|p| *p <= 500));
}

#[test]
fn orders_take_the_route_of_their_method() {
    let big = FreezeQty::Fallback(1800);
    assert_eq!(order_route("super", &big, 100, num(100.0)), OrderRoute::Super);
    assert_eq!(order_route("forever", &big, 100, num(100.0)), OrderRoute::Forever);
    assert_eq!(order_route("slice", &big, 100, num(100.0)), OrderRoute::Sliced);
    assert_eq!(order_route("normal", &big, 100, num(100.0)), OrderRoute::Plain);
    assert_eq!(order_route("normal", &big, 5000, num(5000.0)), OrderRoute::Sliced);
}

#[test]
fn the_stop_leg_always_has_a_source() {
    assert_eq!(leg_stop(num(90.0), false, num(0.0), num(0.0)), LegStop::Own);
    assert_eq!(leg_stop(num(0.0), true, num(91.0), num(2.0)), LegStop::Price);
    assert_eq!(leg_stop(num(0.0), true, num(0.0), num(2.0)), LegStop::Percent);
    assert_eq!(leg_stop(num(0.0), true, num(0.0), num(0.0)), LegStop::Far);
}

#[test]
fn paper_orders_reject_only_market_draws() {
    assert!(paper_rejects(false, true, true));
    assert!(!paper_rejects(true, true, true));
    assert!(!paper_rejects(false, false, true));
    assert!(!paper_rejects(false, true, false));
    let s = Settings::default();
    assert!(!paper_limit_order(false, &s, true));
}

#[test]
fn plain_orders_price_by_their_kind() {
    let (p, t) = plain_order_prices("LIMIT", None, Some(num(101.0)), None, num(100.0));
    assert_eq!((p.map(value), t.map(value)), (Some(101.0), Some(101.0)));
    let (p, t) = plain_order_prices("limit", None, None, None, num(100.0));
    assert_eq!((p.map(value), t), (Some(100.0), None));
    let (p, t) = plain_order_prices("SL", Some(num(99.0)), None, None, num(100.0));
    assert_eq!((p.map(value), t.map(value)), (Some(99.0), Some(99.0)));
    let (p, t) = plain_order_prices("MARKET", None, None, None, num(100.0));
    assert_eq!((p, t), (None, None));
}

fn pos(sid: i64, side: &str, entry: f64, ltp: f64, sl: f64, tp: f64, trail: f64, qty: i64) -> Position {
    Position {
        id: "p".into(),
        strategy_id: String::new(),
        strategy_name: String::new(),
        method: String::new(),
        security_id: sid,
        exchange_segment: "NSE_FNO".into(),
        instrument: "OPTIDX".into(),
        trading_symbol: "NIFTY CE".into(),
        underlying: String::new(),
        side: side.into(),
        qty,
        lots: 0,
        lot_size: num(0.0),
        filled_qty: 0,
        entry: num(entry),
        fill_price: num(entry),
        ltp: num(ltp),
        sl: num(sl),
        overall_sl: num(sl),
        sl_trailed: false,
        tp: num(tp),
        trail: num(trail),
        point_trail: num(0.0),
        trail_tp: num(0.0),
        peak_profit: num(0.0),
        best: num(0.0),
        order_ids: vec![],
        super_orders: vec![],
        broker: false,
        reconciled: false,
        nifty_pick: false,
        status: String::new(),
        order_type: String::new(),
        limit_price: num(0.0),
        opened_at: 0,
    }
}

/// The levels of a position at a mark, as the chart wants them.
fn facts(p: &Position, mark: f64) -> LevelFacts {
    let buy = p.side != "SELL";
    let entry = value(p.fill_price).max(value(p.entry));
    let (peak, sl) = (value(p.peak_profit), value(p.sl));
    let ahead = |x: f64| if buy { entry + x } else { entry - x };
    let point = ahead(peak - value(p.point_trail).max(0.05));
    let trail = ahead(peak * (1.0 - value(p.trail) / 100.0));
    let kept = ahead(peak * (1.0 - value(p.trail_tp) / 100.0));
    let overall = value(p.overall_sl);
    let tol = (sl.abs() * 0.001).max(0.01);
    let near = |a: f64, b: f64| (a - b).abs() <= tol;
    LevelFacts {
        mark: num(mark),
        point_stop: num(point),
        trail_stop: num(trail),
        kept_stop: num(kept),
        point_near_sl: near(point, sl),
        trail_near_sl: near(trail, sl),
        overall_near_sl: near(overall, sl),
        point_near_mark: near(point, mark),
        trail_near_mark: near(trail, mark),
        overall_near_mark: near(overall, mark),
        point_near_trail: near(point, trail),
        point_near_overall: near(point, overall),
        trail_near_overall: near(trail, overall),
    }
}

/// The title of the line at a price; the money of the live line is left out.
fn title_of(paper: bool, p: &Position, lines: &[ChartLine], price: f64) -> String {
    let Some(l) = lines.iter().find(|l| (value(l.price) - price).abs() < 0.01) else {
        return String::new();
    };
    let head = format!("{} {}", line_prefix(paper), line_word(l.kind));
    match l.kind {
        LineKind::Entry => format!("{head} {} @ {:.2}", p.side, value(l.price)),
        LineKind::Live => head,
        LineKind::Stop | LineKind::TrailStop | LineKind::PointStop => {
            format!("{head} · {:.2}", value(p.sl))
        }
        _ => format!("{head} · {:.2}", value(l.price)),
    }
}

#[test]
fn chart_lines_build_entry_pnl_sl_target_for_buy() {
    let ps = vec![pos(999, "BUY", 100.0, 110.0, 80.0, 150.0, 0.0, 50)];
    assert_eq!(chart_positions(&ps, 999, "NSE_FNO"), vec![0]);
    let p = &ps[0];
    let lines = build_chart_lines(p, facts(p, 110.0));
    assert_eq!(lines.len(), 4);
    assert_eq!(title_of(true, p, &lines, 100.0), "PAPER ENTRY BUY @ 100.00");
    assert_eq!(title_of(true, p, &lines, 110.0), "PAPER LIVE P&L");
    assert_eq!(title_of(true, p, &lines, 80.0), "PAPER SL · 80.00");
    assert_eq!(title_of(true, p, &lines, 150.0), "PAPER TARGET · 150.00");
}

#[test]
fn chart_lines_sell_pnl_inverts_and_trail_sl_title() {
    let p = pos(999, "SELL", 200.0, 180.0, 220.0, 0.0, 190.0, 10);
    let lines = build_chart_lines(&p, facts(&p, 180.0));
    assert_eq!(title_of(false, &p, &lines, 200.0), "RT ENTRY SELL @ 200.00");
    assert_eq!(title_of(false, &p, &lines, 180.0), "RT LIVE P&L");
    assert_eq!(title_of(false, &p, &lines, 220.0), "RT TRAIL SL · 220.00");
}

#[test]
fn chart_lines_draws_separate_overall_sl_floor_after_ratchet() {
    let mut p = pos(999, "BUY", 100.0, 112.0, 105.0, 0.0, 10.0, 50);
    p.overall_sl = num(90.0);
    let lines = build_chart_lines(&p, facts(&p, 112.0));
    assert_eq!(title_of(false, &p, &lines, 105.0), "RT TRAIL SL · 105.00");
    assert_eq!(title_of(false, &p, &lines, 90.0), "RT OVERALL SL · 90.00");
    let p2 = pos(999, "BUY", 100.0, 112.0, 90.0, 0.0, 0.0, 50);
    let lines2 = build_chart_lines(&p2, facts(&p2, 112.0));
    assert!(lines2.iter().all(|l| l.kind != LineKind::Overall));
}

#[test]
fn chart_lines_filters_other_symbols_and_segments() {
    let ps = vec![
        pos(999, "BUY", 100.0, 110.0, 80.0, 150.0, 0.0, 50),
        pos(1000, "BUY", 100.0, 110.0, 80.0, 150.0, 0.0, 50),
    ];
    assert_eq!(chart_positions(&ps, 999, "NSE_FNO"), vec![0]);
    assert_eq!(line_prefix(false), "RT");
    assert_eq!(chart_positions(&ps, 999, "BSE_FNO"), Vec::<usize>::new());
    assert_eq!(chart_positions(&ps, 0, ""), Vec::<usize>::new());
}

#[test]
fn chart_lines_boxes_each_trail_mechanism_separately() {
    let mut p = pos(999, "BUY", 100.0, 130.0, 127.0, 150.0, 10.0, 50);
    p.overall_sl = num(80.0);
    p.peak_profit = num(30.0);
    p.point_trail = num(5.0);
    p.trail_tp = num(20.0);
    let lines = build_chart_lines(&p, facts(&p, 130.0));
    assert_eq!(title_of(false, &p, &lines, 100.0), "RT ENTRY BUY @ 100.00");
    assert_eq!(title_of(false, &p, &lines, 130.0), "RT LIVE P&L");
    assert_eq!(title_of(false, &p, &lines, 127.0), "RT TRAIL SL · 127.00");
    assert_eq!(title_of(false, &p, &lines, 125.0), "RT POINT SL · 125.00");
    assert_eq!(title_of(false, &p, &lines, 80.0), "RT OVERALL SL · 80.00");
    assert_eq!(title_of(false, &p, &lines, 150.0), "RT TARGET · 150.00");
    assert_eq!(title_of(false, &p, &lines, 124.0), "RT TRAIL TP · 124.00");
    assert_eq!(lines.len(), 7);
}

#[test]
fn chart_lines_point_trail_active_box_not_duplicated() {
    let mut p = pos(999, "SELL", 200.0, 160.0, 165.0, 0.0, 0.0, 10);
    p.overall_sl = num(220.0);
    p.peak_profit = num(40.0);
    p.point_trail = num(5.0);
    let lines = build_chart_lines(&p, facts(&p, 160.0));
    assert_eq!(title_of(false, &p, &lines, 165.0), "RT POINT SL · 165.00");
    assert_eq!(title_of(false, &p, &lines, 220.0), "RT OVERALL SL · 220.00");
    let boxes = lines.iter().filter(|l| line_word(l.kind) == "POINT SL").count();
    assert_eq!(boxes, 1);
}

#[test]
fn lines_have_their_own_colours_and_styles() {
    assert_eq!(line_color(LineKind::Entry), "#b388ff");
    assert_eq!(line_color(LineKind::Stop), "#ff5252");
    assert_eq!(line_color(LineKind::TrailStop), "#ff6b6b");
    assert_eq!((line_style(LineKind::Live), line_style(LineKind::Target)), (1, 2));
    assert_eq!((line_style(LineKind::Entry), line_style(LineKind::Overall)), (3, 4));
}

#[test]
fn account_payload_matches_old_app_shape() {
    // Broker positions take the live price, and their result from it.
    let live = |l: f64| broker_price(Some(num(l)), num(100.0), 75);
    assert_eq!(live(120.0), BrokerPrice::Live(num(120.0)));
    assert_eq!(broker_price(None, num(100.0), 75), BrokerPrice::FromResult);
    assert_eq!(broker_price(None, num(100.0), 0), BrokerPrice::Unknown);
    // A holding: its reported price, then the live one, then the average cost.
    assert_eq!(value(holding_price(num(250.0), None, num(240.5))), 250.0);
    assert_eq!(value(holding_price(num(0.0), Some(num(110.0)), num(100.0))), 110.0);
    assert_eq!(value(holding_price(num(0.0), None, num(50.0))), 50.0);
}

#[test]
fn inr_group_formats_indian_thousands() {
    let group = |x: f64| inr_group(&format!("{:.0}", x.abs().round()));
    assert_eq!(group(500.4), "500");
    assert_eq!(group(1000.0), "1,000");
    assert_eq!(group(123456.0), "1,23,456");
    assert_eq!(group(1234567.0), "12,34,567");
}

#[test]
fn shown_prices_fall_back() {
    let mut p = pos(1, "BUY", 100.0, 110.0, 0.0, 0.0, 0.0, 1);
    assert_eq!(value(position_price(&p, Some(num(120.0)))), 120.0);
    assert_eq!(value(position_price(&p, Some(num(0.0)))), 110.0);
    p.ltp = num(0.0);
    assert_eq!(value(position_price(&p, None)), 100.0);
    assert_eq!(value(positive_or(Some(num(-1.0)), num(3.0))), 3.0);
    assert_eq!(value(positive_or(Some(num(2.0)), num(3.0))), 2.0);
    p.entry = num(90.0);
    p.fill_price = num(0.0);
    assert_eq!(value(locked_price(&p)), 90.0);
}

#[test]
fn views_show_the_newest_rows_and_their_legs() {
    assert_eq!(newest_places(5, 3), vec![4, 3, 2]);
    assert_eq!(newest_places(2, 3), vec![1, 0]);
    assert_eq!(card_quantity(Some(75), num(2.0), num(50.0)), CardQty::Given(75));
    assert_eq!(card_quantity(None, num(2.0), num(50.0)), CardQty::FromLots);
    assert_eq!(card_quantity(None, num(0.0), num(50.0)), CardQty::Zero);
    assert_eq!(view_legs("spot", "premium", false, true), (LegFrom::Spot, LegFrom::Cached));
    let s = Settings::default();
    assert_eq!(view_timeframe(&s, &Default::default()), "5min");
}

/// Replays bars of high and low, each swing turning ten points behind its lead.
fn replay(bars: &[(f64, f64)]) -> Vec<Swing> {
    let mut s = Swing::start(num(bars[0].0), num(bars[0].1));
    let mut out = vec![s];
    for (high, low) in &bars[1..] {
        let lead = value(s.lead(num(*high), num(*low)));
        let turn = if s.rising { lead - 10.0 } else { lead + 10.0 };
        s.step(num(*high), num(*low), num(turn));
        out.push(s);
    }
    out
}

#[test]
fn swings_leave_support_and_resistance() {
    let s = replay(&[(100.0, 95.0), (110.0, 104.0), (106.0, 99.0), (101.0, 92.0), (104.0, 93.0)]);
    // Rising at first: the lowest low supports, the furthest high resists.
    assert_eq!((value(s[1].support()), value(s[1].resistance())), (95.0, 110.0));
    // Eleven points under the top the rise has ended there.
    assert!(!s[2].rising);
    assert_eq!((value(s[2].support()), value(s[2].resistance())), (99.0, 110.0));
    assert_eq!((value(s[3].support()), value(s[3].resistance())), (92.0, 110.0));
    // Twelve points over the bottom the fall has ended in turn.
    assert!(s[4].rising);
    assert_eq!((value(s[4].support()), value(s[4].resistance())), (92.0, 104.0));
    for x in &s {
        assert!(value(x.support()) <= value(x.resistance()));
    }
}

#[test]
fn a_gap_widens_over_the_last_bars() {
    let gaps: Vec<Num> = [9.0, 1.0, 2.0, 3.0, 4.0, 5.0, 6.0, 7.0].iter().map(|g| num(*g)).collect();
    assert_eq!(gap_widens(&gaps, 0), Some(true));
    // Seven bars back from the one before the last reach the first.
    assert_eq!(gap_widens(&gaps, 1), Some(false));
    assert_eq!(gap_widens(&gaps[..3].to_vec(), 0), None);
    let sparse: Vec<Num> =
        [f64::NAN, f64::INFINITY, 1.0, 2.0, 3.0].iter().map(|g| num(*g)).collect();
    assert_eq!(gap_widens(&sparse, 0), None);
    assert_eq!(gap_widens(&gaps, 5), None);
}
