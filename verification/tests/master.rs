//! The contract master, freeze quantities and option resolution.

use rtengine::calendar::days_from_civil;
use rtengine::freeze::{freeze_qty, FreezeQty, FreezeReader};
use rtengine::master::{LotSize, MasterLine, Scrip};
use rtengine::model::{Settings, Strategy};
use rtengine::num::Num;
use rtengine::options::{
    atm_place, option_candidates, option_ladder, option_leg_side, option_premium_sane,
    pick_candidate, pick_leg, pref_step, resolve_on_side, resolve_option_strategy,
    resolve_option_strategy_pref, strike_steps_of, Candidate, Ladder, PrefStep, QuotedLeg,
};
use rtengine::routing::fno_segment;
use rtengine::scanner::SymbolMeta;
use rtengine::scrip::{
    fno_underlying, freeze_fallback, is_index_prefix, mcx_lot_override, normalize_expiry, pending,
    scrip_exch, Warm,
};
use rtengine::sides::Dirs;

const HEADER: &str = "SEM_EXM_EXCH_ID,SEM_SEGMENT,SEM_SMST_SECURITY_ID,SEM_INSTRUMENT_NAME,SEM_EXPIRY_CODE,SEM_TRADING_SYMBOL,SEM_LOT_UNITS,SEM_CUSTOM_SYMBOL,SEM_EXPIRY_DATE,SEM_STRIKE_PRICE,SEM_OPTION_TYPE";

fn num(x: f64) -> Num {
    let bits = x.to_bits() as i64;
    Num {
        nan: x.is_nan(),
        infinite: x.is_infinite(),
        key: if bits >= 0 { bits } else { -(bits & i64::MAX) },
    }
}

fn day_of(date: &str) -> Option<i64> {
    let p: Vec<&str> = date.split('-').collect();
    if p.len() != 3 {
        return None;
    }
    Some(days_from_civil(p[0].parse().ok()?, p[1].parse().ok()?, p[2].parse().ok()?))
}

fn line(text: &str) -> MasterLine {
    let fields: Vec<String> = text.split(',').map(|f| f.to_string()).collect();
    let at = |i: usize| fields.get(i).map(|f| f.trim().to_string()).unwrap_or_default();
    let strike =
        at(9).parse::<f64>().ok().map(|s| (s > 0.0, (s * 100.0).round() as i64));
    let lot = at(6).parse::<f64>().ok().map(num);
    let day = day_of(&normalize_expiry(&at(8)));
    MasterLine { fields, strike, lot, day }
}

fn master(lines: &[&str]) -> Option<Scrip> {
    let mut all = vec![line(HEADER)];
    all.extend(lines.iter().map(|l| line(l)));
    Scrip::parse_file(&all, num(1.0))
}

/// Options and futures of an index, a share and a commodity.
fn sample() -> Scrip {
    master(&[
        "NSE,D,1,OPTIDX,0,NIFTY-Sep2026-24400-CE,75.0,x,2026-09-29 14:30:00,24400.0,CE",
        "NSE,D,2,OPTIDX,0,NIFTY-Sep2026-24400-PE,75.0,x,2026-09-29 14:30:00,24400.0,PE",
        "NSE,D,3,OPTIDX,0,NIFTY-Sep2026-24500-CE,75.0,x,2026-09-29 14:30:00,24500.0,CE",
        "NSE,D,4,OPTIDX,0,NIFTY-Sep2026-24500-PE,75.0,x,2026-09-29 14:30:00,24500.0,PE",
        "NSE,D,5,OPTIDX,0,NIFTY-Sep2026-24600-CE,75.0,x,2026-09-29 14:30:00,24600.0,CE",
        "NSE,D,6,OPTIDX,0,NIFTY-Sep2026-24600-PE,75.0,x,2026-09-29 14:30:00,24600.0,PE",
        "NSE,D,7,FUTIDX,0,NIFTY-Sep2026-FUT,75.0,x,2026-09-29 14:30:00,,",
        "BSE,D,8,OPTIDX,0,SENSEX-Sep2026-80000-CE,20.0,x,2026-09-24 14:30:00,80000.0,CE",
        "BSE,D,9,FUTIDX,0,SENSEX-Sep2026-FUT,20.0,x,2026-09-24 14:30:00,,",
        "NSE,D,10,FUTSTK,0,LTM-Sep2026-FUT,150.0,x,2026-09-29 14:30:00,,",
        "NSE,D,11,OPTSTK,0,LTM-Sep2026-4200-PE,150.0,x,2026-09-29 14:30:00,4200.0,PE",
        "MCX,M,12,FUTCOM,0,GOLD-05Oct2026-FUT,1.0,x,2026-10-05 23:30:00,,",
        "MCX,M,13,FUTCOM,0,GOLD-05Dec2026-FUT,1.0,x,2026-12-05 23:30:00,,",
    ])
    .unwrap()
}

#[test]
fn recognises_cash_index_underlyings() {
    for p in ["NIFTY", "BANKNIFTY", "FINNIFTY", "MIDCPNIFTY", "SENSEX", "banknifty"] {
        assert!(is_index_prefix(p), "{p} should be an index");
    }
}

#[test]
fn rejects_stock_underlyings() {
    for p in ["RELIANCE", "TATAMOTORS", "BAJAJ", "NAM", ""] {
        assert!(!is_index_prefix(p), "{p} should not be an index");
    }
}

#[test]
fn is_option_separates_options_from_futures() {
    let sc = master(&[
        "NSE,D,123434,OPTSTK,0,LTM-Sep2026-4200-PE,150.0,LTM 29 SEP 4200 PUT,2026-09-29 14:30:00,4200.00000,PE",
        "NSE,D,99999,FUTSTK,0,LTM-Sep2026-FUT,150.0,LTM 29 SEP FUT,2026-09-29 14:30:00,,",
    ])
    .expect("scrip parses");
    assert!(sc.is_option(123434), "option id must be detected");
    assert!(!sc.is_option(99999), "future id must not be an option");
    assert!(!sc.is_option(0), "invalid id must not be an option");
}

#[test]
fn a_master_without_options_is_no_master() {
    assert!(master(&[]).is_none());
    assert!(master(&["NSE,D,10,FUTSTK,0,LTM-Sep2026-FUT,150.0,x,2026-09-29,,"]).is_none());
    // Too few fields, no option type, no positive strike.
    assert!(master(&[
        "NSE,D,1,OPTIDX",
        "NSE,D,1,OPTIDX,0,NIFTY-X,75.0,x,2026-09-29,24400.0,XX",
        "NSE,D,1,OPTIDX,0,NIFTY-X,75.0,x,2026-09-29,0,CE",
    ])
    .is_none());
}

#[test]
fn contracts_resolve_exactly_or_to_the_nearest_expiry() {
    let sc = sample();
    let r = sc
        .resolve("NIFTY 50", "2026-09-29", day_of("2026-09-29"), true, 2_450_000, "ce", "IDX_I")
        .unwrap();
    assert_eq!((r.security_id, r.lot), (3, num(75.0)));
    assert_eq!(r.trading_symbol, "NIFTY-Sep2026-24500-CE");
    let near = sc
        .resolve("NIFTY 50", "2026-10-06", day_of("2026-10-06"), true, 2_450_000, "PE", "IDX_I")
        .unwrap();
    assert_eq!((near.security_id, near.expiry.as_str()), (4, "2026-09-29"));
    let day = day_of("2026-09-29");
    assert!(sc.resolve("NIFTY 50", "2026-09-29", day, true, 9_900, "CE", "IDX_I").is_none());
    assert!(sc.resolve("NIFTY 50", "2026-09-29", day, false, 0, "CE", "IDX_I").is_none());
    assert!(sc.resolve("NIFTY 50", "2026-09-29", day, true, 2_450_000, "XX", "IDX_I").is_none());
}

#[test]
fn ladders_and_strikes_rise() {
    let sc = sample();
    assert_eq!(sc.expiries_for("nifty", "NSE"), Some(vec!["2026-09-29".to_string()]));
    assert_eq!(sc.expiries_for("SENSEX", "NSE"), Some(vec!["2026-09-24".to_string()]));
    assert_eq!(sc.expiries_for("NOWHERE", "NSE"), None);
    assert_eq!(sc.has_options("nifty", "NSE"), Some(true));
    assert_eq!(sc.has_options("GOLD", "MCX"), Some(false));
    let b = sc.bucket("nse", "nifty", "2026-09-29").unwrap();
    assert_eq!(b.iter().map(|s| s.0).collect::<Vec<i64>>(), vec![2_440_000, 2_450_000, 2_460_000]);
    assert_eq!(b[0].1.ce, Some((1, "NIFTY-Sep2026-24400-CE".to_string())));
    assert!(sc.bucket("NSE", "NIFTY", "2026-09-30").is_none());
}

#[test]
fn underlyings_resolve_to_their_derivatives() {
    let sc = sample();
    let day = day_of("2026-09-24");
    assert_eq!(
        sc.resolve_underlying("SENSEX", 51, "idx_i", "2026-09-24", day),
        (9, "BSE_FNO".to_string())
    );
    assert_eq!(
        sc.resolve_underlying("NIFTY 50", 13, "IDX_I", "2026-09-29", day),
        (13, "IDX_I".to_string())
    );
    assert_eq!(
        sc.resolve_underlying("LTM", 17818, "NSE_EQ", "2026-09-29", day),
        (10, "NSE_FNO".to_string())
    );
    assert!(sc.expiry_matches_underlying("LTM", "NSE_EQ", "2026-09-29"));
    assert!(!sc.expiry_matches_underlying("LTM", "NSE_EQ", "2026-10-29"));
    assert!(sc.expiry_matches_underlying("NIFTY 50", "IDX_I", "2026-10-29"));
}

#[test]
fn lots_and_commodities_come_from_the_futures() {
    let sc = sample();
    let (lot, symbol) = sc.lot_for("LTM", "NSE_EQ").unwrap();
    assert_eq!((lot, symbol.as_str()), (LotSize::Listed(num(150.0)), "LTM-Sep2026-FUT"));
    let (prefixes, names) = sc.lot_map();
    assert_eq!(names.get("NIFTY 50"), Some(&LotSize::Listed(num(75.0))));
    assert_eq!(prefixes.get("LTM"), Some(&LotSize::Listed(num(150.0))));
    let before = day_of("2026-10-01").unwrap();
    let between = day_of("2026-11-01").unwrap();
    let after = day_of("2027-01-01").unwrap();
    for (today, sid) in [(before, 12), (between, 13), (after, 12)] {
        let c = sc.commodity_futures(today);
        assert_eq!(c.len(), 1);
        assert_eq!((c[0].security_id, c[0].name.as_str(), c[0].has_options), (sid, "GOLD", false));
    }
    let curated = mcx_lot_override("GOLD-05Oct2026-FUT");
    assert!(curated > 0);
    let (lot, symbol, options) = sc.commodity_meta(12, before).unwrap();
    assert_eq!(lot, LotSize::Curated { tenths: curated });
    assert_eq!((symbol.as_str(), options), ("GOLD-05Oct2026-FUT", false));
    assert!(sc.commodity_by_id(13, before).is_none());
}

#[test]
fn names_map_to_exchanges_and_prefixes() {
    assert_eq!(scrip_exch("nse_eq"), "NSE");
    assert_eq!(scrip_exch("BSE_FNO"), "BSE");
    assert_eq!(scrip_exch("mcx_comm"), "MCX");
    for exch in ["NSE", "BSE", "MCX", "NCDEX"] {
        assert_eq!(scrip_exch(fno_segment(exch)), exch);
    }
    assert_eq!(fno_underlying(" Bank Nifty "), "BANKNIFTY");
    assert_eq!(fno_underlying("bajaj-auto"), "BAJAJ");
    assert_eq!(fno_underlying("Tata Power"), "TATAPOWER");
    assert_eq!(normalize_expiry("2026-09-29 14:30:00"), "2026-09-29");
    assert!(pending(Warm::Pending) && !pending(Warm::Ready) && !pending(Warm::Failed));
}

#[test]
fn freeze_quantities_fall_back_to_the_longest_prefix() {
    assert_eq!(freeze_fallback("nifty 50"), 1756);
    assert_eq!(freeze_fallback("NIFTY NXT 50"), 601);
    assert_eq!(freeze_fallback("BankNifty"), 601);
    assert_eq!(freeze_fallback("SENSEX 50"), 1801);
    assert_eq!(freeze_fallback("SENSEX"), 1001);
    assert_eq!(freeze_fallback("GIFT NIFTY"), 0);
    assert_eq!(freeze_fallback("RELIANCE"), 0);
}

#[test]
fn freeze_rows_are_read_by_their_header() {
    let row = |t: &str| -> Vec<String> { t.split(',').map(|f| f.to_string()).collect() };
    let mut r = FreezeReader::new();
    r.line(&row("A,SECURITY_ID,UNDERLYING_SYMBOL,SM_FREEZE_QTY"), None);
    let line = row("x,77,ltm,2500");
    let qty = r.qty_text(&line).map(|t| num(t.trim().parse::<f64>().unwrap()));
    r.line(&line, qty);
    let map = r.finish().unwrap();
    assert_eq!(freeze_qty(Some(&map), 77, ""), FreezeQty::Listed(num(2500.0)));
    assert_eq!(freeze_qty(Some(&map), 0, "LTM"), FreezeQty::Listed(num(2500.0)));
    assert_eq!(freeze_qty(Some(&map), 1, "NIFTY"), FreezeQty::Fallback(1756));
    assert_eq!(freeze_qty(None, 77, "LTM"), FreezeQty::Fallback(0));
    assert!(FreezeReader::new().finish().is_none());
}

fn nifty() -> Strategy {
    Strategy {
        trading_symbol: "NIFTY 50".into(),
        exchange_segment: "IDX_I".into(),
        instrument: "INDEX".into(),
        category: "BULLISH".into(),
        side: "BUY".into(),
        security_id: 13,
        ..Default::default()
    }
}

fn ladder() -> (Scrip, Ladder, Vec<Num>) {
    let sc = sample();
    let l = option_ladder(&sc, "NIFTY 50", "IDX_I").unwrap();
    let distances = l.strikes.iter().map(|c| num((*c as f64 / 100.0 - 24_510.0).abs())).collect();
    (sc, l, distances)
}

const FLAT: Dirs = Dirs { nifty: 0, movers: 0 };

#[test]
fn the_ladder_holds_the_strikes_of_the_first_expiry() {
    let (_, l, distances) = ladder();
    assert_eq!((l.prefix.as_str(), l.exch.as_str(), l.expiry.as_str()), ("NIFTY", "NSE", "2026-09-29"));
    assert_eq!(l.strikes, vec![2_440_000, 2_450_000, 2_460_000]);
    assert_eq!(atm_place(&distances), 1);
    assert!(option_ladder(&sample(), "NOWHERE", "NSE_EQ").is_none());
}

#[test]
fn strategies_resolve_to_contracts_on_their_side() {
    let (sc, l, d) = ladder();
    let mut s = Settings::default();
    s.strike_mode = "atm".into();
    let day = day_of("2026-09-29");
    let ce = resolve_on_side(&sc, &nifty(), &l, &d, day, true, &s, "CE").unwrap();
    assert_eq!(ce.trading_symbol, "NIFTY-Sep2026-24500-CE");
    let pe = resolve_on_side(&sc, &nifty(), &l, &d, day, true, &s, "PE").unwrap();
    assert_eq!(pe.security_id, 4);
    let own = resolve_option_strategy(&sc, &nifty(), &l, &d, day, true, &s, FLAT).unwrap();
    assert_eq!(own.security_id, 3);
    assert!(resolve_option_strategy(&sc, &nifty(), &l, &d, day, false, &s, FLAT).is_none());
    assert_eq!(option_leg_side(&s, FLAT, &nifty()), "CE");
    let m = SymbolMeta {
        security_id: 13,
        name: "NIFTY 50".into(),
        segment: "IDX_I".into(),
        instrument: "INDEX".into(),
        lot: num(75.0),
    };
    let leg = pick_leg(&sc, &m, &l, &d, day, true, &s, "pe", num(0.0)).unwrap();
    assert_eq!((leg.security_id, leg.id.as_str()), (4, "pick:13:PE"));
}

#[test]
fn strikes_step_away_from_the_money() {
    assert_eq!(strike_steps_of(true, "", "ATM", 3), 0);
    assert_eq!(strike_steps_of(false, "ABOVE", "ATM", 3), 3);
    assert_eq!(strike_steps_of(true, "BELOW_ATM", "ATM", 0), -1);
    assert_eq!(strike_steps_of(false, "BOTH_ATM", "ATM", 3), -3);
    let call = strike_steps_of(true, "ITM", "ITM", 2);
    assert_eq!(strike_steps_of(false, "ITM", "ITM", 2), -call);
}

#[test]
fn candidates_compete_by_price_and_rise() {
    let leg = |last: f64, change: f64, distance: f64| {
        Some(QuotedLeg { last: num(last), change: num(change), distance: num(distance) })
    };
    // The nearest strike, unless only rising premiums count.
    let legs = vec![leg(10.0, -1.0, 5.0), leg(8.0, 2.0, 50.0), None];
    assert_eq!(pick_candidate(&legs, true, false), Some(1));
    let rising = vec![leg(10.0, 1.0, 5.0), leg(8.0, 9.0, 50.0)];
    assert_eq!(pick_candidate(&rising, true, true), Some(1));
    assert_eq!(pick_candidate(&vec![leg(10.0, -1.0, 5.0)], true, false), None);
    assert_eq!(pick_candidate(&vec![], false, false), None);
}

#[test]
fn preferences_quote_only_where_there_is_a_choice() {
    let mut s = Settings::default();
    s.only_positive = true;
    assert_eq!(pref_step(false, &s, 3, true), PrefStep::Quote);
    assert_eq!(pref_step(false, &s, 0, true), PrefStep::Base);
    s.only_positive = false;
    s.fastest_rising = false;
    assert_eq!(pref_step(false, &s, 3, true), PrefStep::Base);
    let (sc, l, d) = ladder();
    s.fastest_rising = true;
    let cs: Vec<Candidate> =
        option_candidates(&sc, &nifty(), &l, &d, day_of("2026-09-29"), &s, FLAT);
    assert!(!cs.is_empty());
    let legs = cs
        .iter()
        .enumerate()
        .map(|(i, _)| {
            Some(QuotedLeg { last: num(5.0), change: num(i as f64 + 1.0), distance: num(1.0) })
        })
        .collect();
    let r = resolve_option_strategy_pref(&nifty(), &l, &cs, &legs, &s).unwrap();
    assert_eq!(r.security_id, cs.last().unwrap().security_id);
}

#[test]
fn premiums_must_be_worth_their_leg() {
    assert!(option_premium_sane(num(120.0), true, num(24_500.0), num(40.0)));
    assert!(!option_premium_sane(num(20.0), true, num(24_500.0), num(40.0)));
    assert!(!option_premium_sane(num(0.0), true, num(24_500.0), num(40.0)));
    assert!(option_premium_sane(num(0.05), true, num(0.0), num(40.0)));
    // A premium that is not a number only fails where there is a floor to hold it to.
    assert!(option_premium_sane(num(f64::NAN), false, num(0.0), num(0.0)));
    assert!(option_premium_sane(num(f64::NAN), true, num(0.0), num(0.0)));
    assert!(!option_premium_sane(num(f64::NAN), true, num(24_500.0), num(40.0)));
}
