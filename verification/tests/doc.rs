//! The engine's document: settings, the run set, staging, final list, templates.

use rtengine::book::{Closed, NetPnl, Position};
use rtengine::container::{
    ai_pick_ids, closed_pnl, container_stats, container_summary, described_by, final_scan,
    smart_counts, FinalPick,
};
use rtengine::doc::{find_named, message, Defaulted, DocError, FinalRow, RtDoc, StagingRow};
use rtengine::keep::remove_rows;
use rtengine::limits::LogRow;
use rtengine::model::{Settings, Strategy};
use rtengine::num::Num;
use rtengine::runset::{
    final_action, selection_action, staging_action, FinalAction, SelectionAction, StagingAction,
};
use rtengine::scan::TimingRow;
use rtengine::textmap::TextMap;

fn strategy(id: &str, category: &str) -> Strategy {
    Strategy {
        id: id.into(),
        name: format!("{id} name"),
        category: category.into(),
        side: "BUY".into(),
        ..Default::default()
    }
}

fn doc() -> RtDoc {
    let mut d = RtDoc::default();
    d.strategies_post(strategy("a", "BULLISH"), 1);
    d.strategies_post(strategy("b", "BEARISH"), 1);
    d.strategies_post(strategy("c", "BULLISH"), 1);
    d
}

fn closed(strategy: &str, gross: i64, net: NetPnl, at: i64) -> Closed {
    Closed {
        id: "x".into(),
        position_id: String::new(),
        strategy_id: strategy.into(),
        strategy_name: strategy.into(),
        method: String::new(),
        security_id: 1,
        exchange_segment: String::new(),
        instrument: String::new(),
        trading_symbol: String::new(),
        side: "BUY".into(),
        qty: 1,
        lots: 1,
        lot_size: Num::of(1),
        entry: Num::of(1),
        exit: Num::of(1),
        pnl: Num::of(gross),
        charges: Num::of(1),
        net_pnl: net,
        charges_segment: String::new(),
        reason: String::new(),
        exit_order_ids: vec![],
        exit_pending: false,
        opened_at: at,
        closed_at: at,
    }
}

fn position(id: &str) -> Position {
    let z = Num::of(0);
    Position {
        id: id.into(),
        strategy_id: "a".into(),
        strategy_name: String::new(),
        method: String::new(),
        security_id: 1,
        exchange_segment: String::new(),
        instrument: String::new(),
        trading_symbol: String::new(),
        underlying: String::new(),
        side: "BUY".into(),
        qty: 1,
        lots: 1,
        lot_size: z,
        filled_qty: 0,
        entry: z,
        fill_price: z,
        ltp: z,
        sl: z,
        overall_sl: z,
        sl_trailed: false,
        tp: z,
        trail: z,
        point_trail: z,
        trail_tp: z,
        peak_profit: z,
        best: z,
        order_ids: vec![],
        super_orders: vec![],
        broker: false,
        reconciled: false,
        nifty_pick: false,
        status: String::new(),
        order_type: String::new(),
        limit_price: z,
        opened_at: 0,
    }
}

fn ticked(d: &RtDoc) -> Vec<String> {
    d.selected.keys().into_iter().filter(|k| d.selected.get(k) == Some(&true)).collect()
}

#[test]
fn strategies_are_added_replaced_and_named() {
    let mut d = doc();
    assert_eq!(d.strategies.len(), 3);
    let mut b = strategy("b", "BEARISH");
    b.name = "renamed".into();
    d.strategies_post(b, 1);
    assert_eq!((d.strategies.len(), d.strategies[1].name.as_str()), (3, "renamed"));
    d.strategies_post(strategy("", "BULLISH"), 77);
    assert_eq!(d.strategies[3].id, "rtstrat_77");
    assert_eq!(find_named(&d.strategies, "", "renamed"), Some(1));
    assert_eq!(find_named(&d.strategies, "zz", "no such name"), None);
}

#[test]
fn deleting_a_strategy_drops_the_rows_that_refer_to_it() {
    let mut d = doc();
    d.select_all();
    d.staging_add("b", "", 5).unwrap();
    d.final_save("b", "B", 5);
    d.final_excluded.insert("b".into(), true);
    d.entry_timing.push(TimingRow {
        strategy_id: "b".into(),
        strategy_name: String::new(),
        side: String::new(),
        met_at: 1,
        entry_at: 2,
        delay_ms: 1,
        orders_window: 1,
    });
    d.staging_add("c", "", 5).unwrap();
    d.strategy_delete("b");
    assert_eq!(d.strategies.len(), 2);
    assert_eq!(ticked(&d), vec!["a".to_string(), "c".to_string()]);
    assert_eq!((d.staging.len(), d.staging[0].key.as_str()), (1, "c"));
    assert!(d.final_strategies.is_empty() && d.entry_timing.is_empty());
    assert!(!d.final_excluded.contains_key("b"));
}

#[test]
fn rows_are_removed_by_id_or_by_key() {
    let row = |id: &str, key: &str| StagingRow {
        id: id.into(),
        strategy_id: id.into(),
        key: key.into(),
        name: String::new(),
        cat: String::new(),
        tf: String::new(),
        side: String::new(),
        added_at: 0,
        sent_at: None,
    };
    let kept = remove_rows(vec![row("a", "k"), row("b", "k2")], false, "a");
    assert_eq!((kept.len(), kept[0].id.as_str()), (1, "b"));
    let kept = remove_rows(vec![row("a", "k"), row("b", "k2")], true, "k2");
    assert_eq!((kept.len(), kept[0].id.as_str()), (1, "a"));
}

#[test]
fn settings_are_stored_within_their_bounds() {
    let mut d = doc();
    let mut s = Settings::default();
    s.hft_ops = 500;
    s.hft_exec_on = "high".into();
    s.scanner_exclude = vec![17818, 1234];
    s.run_in_default = true;
    assert_eq!(d.settings_post(s), (true, Defaulted::RunIn));
    assert_eq!(d.settings.hft_ops, 30);
    let mut s = Settings::default();
    s.scanner_exclude = vec![17818, 1234];
    s.run_in_default = true;
    s.trade_in_default = true;
    assert_eq!(d.settings_post(s), (false, Defaulted::TradeIn));
    let mut s = Settings::default();
    s.trade_in_default = true;
    assert_eq!(d.settings_post(s), (true, Defaulted::Neither));
    d.settings.hft_ops = -4;
    d.repair();
    assert!(d.settings.hft_ops >= 1 && d.settings.hft_ops <= 30);
}

#[test]
fn methods_keep_their_configuration() {
    let mut d = doc();
    d.method_post("super", Some(9));
    assert_eq!((d.method.as_str(), d.order_cfg.get("super")), ("super", Some(&9)));
    d.method_post("normal", None);
    assert_eq!((d.method.as_str(), d.order_cfg.get("super")), ("normal", Some(&9)));
    d.method_post("", Some(1));
    assert_eq!((d.method.as_str(), d.order_cfg.len()), ("normal", 1));
}

#[test]
fn arming_needs_a_session_or_paper() {
    let mut d = doc();
    assert_eq!(d.arm_post(true, false, false), Err(DocError::CannotArm));
    assert!(!d.armed);
    assert_eq!(d.arm_post(true, false, true), Ok(()));
    assert!(d.armed);
    assert_eq!(d.arm_post(false, false, false), Ok(()));
    assert!(!d.armed);
    d.engine_post(true);
    d.auto_lots_post(true);
    assert!(d.engine_on && d.auto_lots);
}

#[test]
fn manual_entries_need_an_armed_engine_and_a_strategy() {
    let mut d = doc();
    assert_eq!(d.entry_post(None, "a").unwrap_err(), DocError::Disarmed);
    d.armed = true;
    assert_eq!(d.entry_post(None, "b").unwrap().id, "b");
    assert_eq!(d.entry_post(None, "zz").unwrap_err(), DocError::StrategyNotFound);
    assert_eq!(d.entry_post(Some(strategy("own", "")), "b").unwrap().id, "own");
    assert_eq!(d.entry_post(Some(strategy("", "")), "b").unwrap().id, "b");
}

#[test]
fn a_reset_keeps_live_positions() {
    let mut d = doc();
    d.positions.push(position("p"));
    d.closed.push(closed("a", 1, NetPnl::Absent, 1));
    d.logs.push(LogRow { t: 1, level: "info".into(), msg: "m".into() });
    assert!(!d.reset_post("closed", false));
    assert_eq!((d.closed.len(), d.logs.len()), (0, 1));
    assert!(!d.reset_post("logs", false));
    assert_eq!(d.logs.len(), 0);
    assert!(!d.reset_post("smart", false));
    assert_eq!(d.positions.len(), 1);
    assert!(d.reset_post("all", false));
    assert_eq!((d.positions.len(), d.strategies.len()), (1, 0));
    assert!(!d.reset_post("smart", true));
    assert_eq!(d.positions.len(), 0);
    assert!(!d.reset_post("nonsense", true));
}

#[test]
fn refusals_speak() {
    assert_eq!(message(DocError::CannotArm), "cannot arm: Dhan session not connected");
    assert_eq!(message(DocError::Disarmed), "engine is disarmed");
    assert_eq!(message(DocError::StrategyNotFound), "strategy not found");
    assert_eq!(message(DocError::TemplateNotFound), "template not found");
    assert_eq!(message(DocError::NameRequired), "name required");
    assert_eq!(message(DocError::UnknownAction), "unknown action");
}

#[test]
fn the_run_set_is_what_was_ticked() {
    let mut d = doc();
    d.select_sync(&vec!["b".into(), "gone".into()]);
    assert_eq!(ticked(&d), vec!["b".to_string(), "gone".to_string()]);
    d.select_toggle("b", false);
    d.select_saved("", "a name").unwrap();
    assert_eq!(d.select_saved("zz", "").unwrap_err(), DocError::StrategyNotFound);
    assert_eq!(ticked(&d), vec!["a".to_string(), "gone".to_string()]);
    d.select_remove("gone");
    d.select_picks(&vec!["c".into()]);
    assert_eq!(ticked(&d), vec!["a".to_string(), "c".to_string()]);
    d.select_all();
    assert_eq!(ticked(&d).len(), 3);
    d.select_none();
    assert_eq!(d.selected.len(), 0);
    d.select_ai(Some(4), None, Some(false));
    assert!(d.settings.ai_pick && d.settings.ai_pick_n == 4 && !d.settings.ai_pick_bear);
    d.run_in_post(Some(true), "PE", None);
    assert!(d.settings.run_in_enabled && d.settings.run_in_side == "PE");
    d.run_in_post(None, "", Some(true));
    assert!(d.settings.run_in_enabled && d.settings.run_in_side == "PE" && d.settings.run_in_auto);
}

#[test]
fn staging_twice_changes_nothing() {
    let mut d = doc();
    d.staging_add("a", "", 5).unwrap();
    d.staging_add("a", "", 9).unwrap();
    assert_eq!((d.staging.len(), d.staging[0].added_at), (1, 5));
    assert_eq!(d.selected.len(), 0, "staging alone never runs a strategy");
    assert_eq!(d.staging_add("zz", "", 9).unwrap_err(), DocError::StrategyNotFound);
    d.staging_send(&vec![], 11);
    assert_eq!((ticked(&d), d.staging[0].sent_at), (vec!["a".to_string()], Some(11)));
    d.staging_auto_send(true, 12);
    assert_eq!((d.staging.len(), ticked(&d).len()), (3, 3));
    d.staging_auto_send(false, 13);
    assert!(!d.staging_auto && d.staging.len() == 3);
    let key = d.staging[0].key.clone();
    d.staging_remove(&key);
    assert_eq!(d.staging.len(), 2);
    d.staging_clear();
    assert_eq!(d.staging.len(), 0);
}

#[test]
fn the_final_list_keeps_saved_rows_and_leaves_out_removed_ones() {
    let mut d = doc();
    d.final_save("a", "A", 3);
    d.final_save("a", "A", 4);
    d.final_save("", "nobody", 4);
    assert_eq!((d.final_strategies.len(), d.final_strategies[0].saved_at), (1, 3));
    d.final_run("a");
    d.final_run("unsaved");
    assert_eq!(ticked(&d), vec!["a".to_string()]);
    d.final_remove(&vec!["a".into()]);
    assert!(d.final_strategies.is_empty() && d.final_excluded.contains_key("a"));
    d.final_save("a", "A", 5);
    assert!(!d.final_excluded.contains_key("a"));
    d.final_clear();
    assert!(d.final_strategies.is_empty() && d.final_excluded.contains_key("a"));
}

#[test]
fn templates_restore_the_run_set() {
    let mut d = doc();
    d.select_sync(&vec!["a".into(), "gone".into()]);
    assert_eq!(d.template_save("", "", 1, 1).unwrap_err(), DocError::NameRequired);
    d.template_save("t", "", 42, 7).unwrap();
    assert_eq!(d.templates.get("t").unwrap().side, "bullish");
    d.select_none();
    assert_eq!(d.template_open("t"), Ok(42));
    assert_eq!(d.template_open("u"), Err(DocError::TemplateNotFound));
    let run = d.template_run("t").unwrap();
    assert_eq!((run.settings, run.restored), (Some(42), 1));
    assert!(d.engine_on && !d.armed);
    assert_eq!(ticked(&d), vec!["a".to_string()]);
    assert_eq!(d.template_run("u").unwrap_err(), DocError::TemplateNotFound);
    d.template_delete("t");
    assert_eq!(d.templates.len(), 0);
}

#[test]
fn actions_are_named() {
    assert_eq!(selection_action("sync"), Some(SelectionAction::Sync));
    assert_eq!(selection_action("nonsense"), None);
    assert_eq!(staging_action("add"), Some(StagingAction::Add));
    assert_eq!(staging_action("nonsense"), None);
    assert_eq!(final_action("run"), Some(FinalAction::Run));
    assert_eq!(final_action("nonsense"), None);
}

#[test]
fn smart_stats_aggregates_full_closed_ledger() {
    let rows = vec![
        closed("a", 100, NetPnl::Net(Num::of(95)), 1),
        closed("a", -50, NetPnl::Net(Num::of(-60)), 1),
        closed("a", 0, NetPnl::Net(Num::of(0)), 1),
    ];
    let net: i64 = rows.iter().map(|c| closed_pnl(c, true).key).sum();
    assert_eq!(net, 35);
    let gross: i64 = rows.iter().map(|c| closed_pnl(c, false).key).sum();
    assert_eq!(gross, 50);
    let v = smart_counts(&rows, true);
    assert_eq!((v.wins, v.losses, v.total), (1, 1, 3));
    assert_eq!(smart_counts(&rows, false).wins, 1);
    assert_eq!(smart_counts(&vec![], true).total, 0);
    assert_eq!(closed_pnl(&closed("a", 7, NetPnl::Absent, 1), true), Num::of(7));
    assert_eq!(closed_pnl(&closed("a", 7, NetPnl::Gross, 1), true), Num::of(7));
}

#[test]
fn container_rows_group_by_strategy() {
    let day = 86_400_000;
    let rows = vec![
        closed("a", 10, NetPnl::Absent, day),
        closed("b", -5, NetPnl::Absent, day),
        closed("a", -3, NetPnl::Absent, 3 * day),
    ];
    let m = container_stats(&rows, true);
    assert_eq!(m.len(), 2);
    let a = m.get("a").unwrap();
    assert_eq!((a.trades.clone(), a.wins, a.losses, a.days.len()), (vec![0, 2], 1, 1, 2));
    let d = doc();
    let s = container_summary(&d);
    assert_eq!((s.strategies, s.bullish, s.bearish), (3, 2, 1));
    assert_eq!(described_by(&d.strategies, "b"), Some(1));
    assert_eq!(described_by(&d.strategies, "zz"), None);
}

#[test]
fn excluded_rows_stay_out_of_the_final_scan() {
    let saved = vec![FinalRow {
        id: "m".into(),
        key: "m".into(),
        strategy_id: String::new(),
        strategy_name: String::new(),
        source: "manual".into(),
        manual: true,
        saved_at: 1,
    }];
    let mut out = TextMap::new();
    let keys = vec!["a".to_string(), "b".to_string()];
    let scores = vec![Num::of(50), Num::of(90)];
    let all = final_scan(&scores, &keys, &saved, &out);
    assert!(all.contains(&FinalPick::Scored(1)));
    out.insert("b".into(), true);
    out.insert("m".into(), true);
    let fewer = final_scan(&scores, &keys, &saved, &out);
    assert!(!fewer.contains(&FinalPick::Scored(1)) && !fewer.contains(&FinalPick::Saved(0)));
}

#[test]
fn automatic_picks_take_the_best_of_the_wanted_sides() {
    let mut d = doc();
    d.select_ai(Some(1), Some(true), Some(true));
    let ids = ai_pick_ids(&d, &vec![Num::of(10), Num::of(30), Num::of(20)]);
    assert!(ids.contains(&"c".to_string()) && ids.contains(&"b".to_string()));
    assert!(!ids.contains(&"a".to_string()));
    d.select_ai(Some(1), Some(false), Some(true));
    assert_eq!(ai_pick_ids(&d, &vec![Num::of(10), Num::of(30), Num::of(20)]), vec!["b".to_string()]);
}

#[test]
fn a_square_off_disarms_and_names_its_day() {
    let mut d = RtDoc { armed: true, engine_on: true, ..Default::default() };
    d.squared_off("20711");
    assert!(!d.armed && d.engine_on);
    assert_eq!(d.last_square_off_day, "20711");
}
