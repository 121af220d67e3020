//! Orders, routing, engine timeframes and the defaults of the settings.

use rtengine::engine::quote_key;
use rtengine::model::{Settings, Strategy};
use rtengine::num::Num;
use rtengine::orders::{
    charges_segment, corr_id, gen_id, hft_ops_budget, kind_name, order_type_from, paper_rand_bits,
    paper_seed, product_from, product_name, seg_from, trade_limit_allows, txn, validity_from, OrderKind, Product, Segment,
    Txn, Validity,
};
use rtengine::routing::{
    engine_tf, fno_segment, index_legs, is_option_leg, movers_auto_bias, mtf_pair,
    normalize_engine_tf, option_strike_type, run_mode_of, strat_category, trade_mode_of,
    underlying_of, underlying_strategy, CatalogRow, CommodityName, StratCat,
};

fn on(segment: &str, instrument: &str) -> Strategy {
    Strategy {
        exchange_segment: segment.into(),
        instrument: instrument.into(),
        ..Default::default()
    }
}

#[test]
fn correlation_ids_are_alphanumeric_short_and_unique() {
    let ids: Vec<String> = (0..200u64)
        .map(|i| {
            let tag = if i % 2 == 0 { "scan:12345:CE" } else { "rtstrat_1789836974927" };
            corr_id(tag, 1_789_836_974_927, i)
        })
        .collect();
    for id in &ids {
        assert!(id.chars().all(|c| c.is_ascii_alphanumeric()), "non-alnum: {id}");
        assert!(id.len() <= 25, "too long: {id}");
        assert!(!id.is_empty());
    }
    let mut uniq = ids.clone();
    uniq.sort();
    uniq.dedup();
    assert_eq!(uniq.len(), ids.len(), "correlation ids must be unique");
}

#[test]
fn movers_auto_bias_follows_selection_not_market_breadth() {
    assert_eq!(movers_auto_bias(true, false, 5, 0, 1, 9), 1);
    assert_eq!(movers_auto_bias(false, true, 0, 5, 9, 1), -1);
    assert_eq!(movers_auto_bias(true, true, 5, 3, 1, 9), 1);
    assert_eq!(movers_auto_bias(true, true, 3, 5, 9, 1), -1);
    assert_eq!(movers_auto_bias(true, true, 4, 4, 2, 8), -1);
    assert_eq!(movers_auto_bias(true, true, 4, 4, 8, 2), 1);
    assert_eq!(movers_auto_bias(true, true, 4, 4, 5, 5), 0);
    assert_eq!(movers_auto_bias(false, false, 0, 0, 9, 1), 0);
}

#[test]
fn option_strike_type_parses_resolved_legs() {
    let parsed = |s: &str| {
        option_strike_type(s).map(|(strike, side)| (strike.parse::<f64>().unwrap(), side))
    };
    assert_eq!(parsed("POLICYBZR-Sep2026-1900-PE"), Some((1900.0, "PE".to_string())));
    assert_eq!(parsed("CHOLAFIN-Sep2026-1800-PE"), Some((1800.0, "PE".to_string())));
    assert_eq!(parsed("NIFTY-Sep2026-24500-CE"), Some((24500.0, "CE".to_string())));
    assert_eq!(parsed("POLICYBZR"), None);
    assert_eq!(parsed("POLICYBZR-Sep2026-FUT"), None);
    assert_eq!(parsed(""), None);
}

#[test]
fn paper_charge_segments_and_rounding_match_dhan() {
    assert_eq!(charges_segment("OPTIDX", "NIFTY 24000 CE"), "options");
    assert_eq!(charges_segment("FUTSTK", "RELIANCE FUT"), "futures");
    assert_eq!(charges_segment("", "NIFTY 24000 PE"), "options");
    assert_eq!(charges_segment("EQUITY", "RELIANCE"), "delivery");
}

#[test]
fn paper_draws_stay_below_one() {
    for i in 0..1000 {
        let bits = paper_rand_bits(paper_seed(1_789_836_974_927, i));
        assert!(bits < 1 << 53, "draw out of range: {bits}");
    }
    assert_ne!(paper_seed(1, 0), paper_seed(2, 0));
}

#[test]
fn run_and_trade_routing() {
    let mut s = Settings::default();
    s.run_index = "both".into();
    s.run_fno = "spot".into();
    s.run_comm = "spot".into();
    s.trade_in_index = "premium".into();
    s.trade_in_comm = "futures".into();

    let idx = on("IDX_I", "INDEX");
    assert_eq!(strat_category(&idx), StratCat::Index);
    assert_eq!(run_mode_of(&idx, &s), "both");
    assert_eq!(trade_mode_of(&idx, &s), "premium");

    let fno = on("NSE_EQ", "EQUITY");
    assert_eq!(strat_category(&fno), StratCat::Fno);
    assert_eq!(run_mode_of(&fno, &s), "spot");
    assert_eq!(trade_mode_of(&fno, &s), "premium", "F&O always forced to premium");

    let comm = on("MCX_COMM", "FUTCOM");
    assert_eq!(strat_category(&comm), StratCat::Comm);
    assert_eq!(trade_mode_of(&comm, &s), "premium", "commodities trade on premium too");

    assert_eq!(strat_category(&on("NSE_FNO", "OPTIDX")), StratCat::Index);
    assert_eq!(strat_category(&on("MCX_COMM", "OPTFUT")), StratCat::Comm);
}

#[test]
fn run_and_trade_defaults_match_old_app() {
    let s = Settings::default();
    assert!(!s.premium_only);
    assert_eq!(s.run_index, "both");
    assert_eq!(s.run_fno, "spot");
    assert_eq!(s.run_comm, "spot");
    assert_eq!(s.trade_in_index, "premium");
    assert_eq!(s.trade_in_fno, "premium");
    assert_eq!(s.trade_in_comm, "premium");
    assert!(!s.run_in_default && !s.trade_in_default);

    let idx = on("IDX_I", "INDEX");
    let fno = on("NSE_EQ", "EQUITY");
    let comm = on("MCX_COMM", "FUTCOM");
    assert_eq!(run_mode_of(&idx, &s), "both");
    assert_eq!(run_mode_of(&fno, &s), "spot");
    assert_eq!(run_mode_of(&comm, &s), "spot");
    assert_eq!(trade_mode_of(&idx, &s), "premium");
    assert_eq!(trade_mode_of(&fno, &s), "premium");
    assert_eq!(trade_mode_of(&comm, &s), "premium");

    let mut p = Settings::default();
    p.premium_only = true;
    assert_eq!(run_mode_of(&comm, &p), "premium");
    assert_eq!(trade_mode_of(&idx, &p), "premium");
}

#[test]
fn option_strategy_maps_to_underlying_spot() {
    let catalog = vec![CatalogRow {
        security_id: 13,
        name: "NIFTY 50".into(),
        segment: "IDX_I".into(),
        instrument: "INDEX".into(),
    }];
    let commodities: Vec<CommodityName> = vec![];
    let mut idx_opt = on("NSE_FNO", "OPTIDX");
    idx_opt.trading_symbol = "NIFTY 50".into();
    idx_opt.security_id = 99999;
    let u = underlying_strategy(&idx_opt, &catalog, &commodities)
        .expect("index option maps to underlying");
    assert_eq!(u.security_id, 13);
    assert_eq!(u.exchange_segment, "IDX_I");
    assert_eq!(u.instrument, "INDEX");
    assert_eq!(u.trading_symbol, "NIFTY 50");

    let mut eq = on("NSE_EQ", "EQUITY");
    eq.trading_symbol = "RELIANCE".into();
    assert!(underlying_strategy(&eq, &catalog, &commodities).is_none());
}

#[test]
fn engine_tf_follows_own_unless_ast_settings() {
    let mut s = Settings::default();
    s.tf_1min = true;
    s.tf_5min = true;
    let strat = Strategy { timeframe: "1min".into(), ..Default::default() };
    assert_eq!(engine_tf(&s, &strat), "1min");
    s.use_own_settings = true;
    assert_eq!(engine_tf(&s, &strat), "1min");
    s.tf_1min = false;
    assert_eq!(engine_tf(&s, &strat), "5min");
}

#[test]
fn engine_tf_defaults_to_5min_when_none_ticked() {
    let mut s = Settings::default();
    s.tf_1min = false;
    s.tf_5min = false;
    let strat = Strategy { timeframe: "15min".into(), ..Default::default() };
    assert_eq!(engine_tf(&s, &strat), "5min");
}

#[test]
fn mtf_pair_needs_two_timeframes() {
    let mut s = Settings::default();
    s.tf_1min = true;
    s.tf_5min = true;
    assert_eq!(mtf_pair(&s), Some(("1min".into(), "5min".into())));
    s.tf_5min = false;
    assert_eq!(mtf_pair(&s), None);
}

#[test]
fn timeframes_normalise_whatever_their_case() {
    assert_eq!(normalize_engine_tf("1MIN"), Some("1min"));
    assert_eq!(normalize_engine_tf("15min"), None);
}

#[test]
fn trades_per_strategy_gate_matches_old_engine() {
    assert!(trade_limit_allows(false, false, 2, 99));
    assert!(trade_limit_allows(true, true, 2, 99));
    assert!(trade_limit_allows(true, false, 2, 1));
    assert!(!trade_limit_allows(true, false, 2, 2));
    assert!(!trade_limit_allows(true, false, 2, 5));
    assert!(trade_limit_allows(true, false, 0, 10));
    assert!(trade_limit_allows(true, false, -3, 10));
}

#[test]
fn trade_limit_default_is_five_trades() {
    let s = Settings::default();
    assert!(!s.trade_limit);
    assert_eq!(s.trade_limit_count, 5);
    assert!(!s.ai_trades);
}

#[test]
fn hft_ops_budget_clamps_to_dhan_ceiling() {
    assert_eq!(hft_ops_budget(0), 1);
    assert_eq!(hft_ops_budget(1), 1);
    assert_eq!(hft_ops_budget(6), 6);
    assert_eq!(hft_ops_budget(30), 30);
    assert_eq!(hft_ops_budget(500), 30);
}

#[test]
fn engine_hft_and_time_defaults_match_old_app() {
    let s = Settings::default();
    assert!(!s.hft);
    assert_eq!(s.hft_ops, 6);
    assert_eq!(s.hft_exec_on, "close");
    assert!(s.hft_exec_on_cb);
    assert_eq!(s.start_after, "09:15");
    assert_eq!(s.no_trade_after, "15:30");
    assert_eq!(s.auto_square_off_time, "15:20");
    assert!(!s.start_after_enabled && !s.no_trade_after_enabled && !s.auto_square_off_enabled);
}

#[test]
fn strike_defaults_match_old_app() {
    let s = Settings::default();
    assert_eq!(s.strike_mode, "both_atm");
    assert_eq!(s.strike_count, 3);
    assert!(s.only_positive);
    assert!(!s.fastest_rising);
    assert_eq!(s.fastest_count, 3);
    assert_eq!(s.option_side, "both");
}

#[test]
fn index_legs_use_idx_i_quote_key() {
    let legs = index_legs(&[13, 0, -5, 25]);
    assert_eq!(legs, vec![(13, "IDX_I".to_string()), (25, "IDX_I".to_string())]);
    assert_eq!(quote_key(legs[0].0, &legs[0].1), "IDX_I:13");
    assert_eq!(quote_key(13, "NSE_EQ"), "13");
    assert_ne!(quote_key(13, "NSE_EQ"), quote_key(13, "IDX_I"));
}

#[test]
fn broker_names_map_by_their_upper_case() {
    assert_eq!(txn("sell"), Txn::Sell);
    assert_eq!(txn("anything"), Txn::Buy);
    assert_eq!(seg_from("nse_fno"), Segment::NseFno);
    assert_eq!(seg_from("mcx_comm"), Segment::McxComm);
    assert_eq!(product_from("cnc"), Product::Cnc);
    assert_eq!(product_from(""), Product::Intraday);
    assert_eq!(order_type_from("limit"), OrderKind::Limit);
    assert_eq!(order_type_from(""), OrderKind::Market);
    for p in [Product::Cnc, Product::Mtf, Product::Co, Product::Bo, Product::Intraday] {
        assert_eq!(product_from(product_name(p)), p);
    }
    assert_eq!(product_name(Product::Margin), "MARGIN");
    for k in [OrderKind::Limit, OrderKind::StopLoss, OrderKind::StopLossMarket] {
        assert_eq!(order_type_from(kind_name(k)), k);
    }
    assert_eq!(kind_name(OrderKind::Market), "MARKET");
    assert_eq!(validity_from("ioc"), Validity::Ioc);
    assert_eq!(validity_from("day"), Validity::Day);
    assert_eq!(fno_segment("bse"), "BSE_FNO");
    assert_eq!(fno_segment("nse"), "NSE_FNO");
}

#[test]
fn generated_ids_carry_prefix_and_time() {
    assert_eq!(gen_id("rtpos", 42), "rtpos_42");
    assert_eq!(gen_id("rtpos", -1), "rtpos_-1");
}

#[test]
fn option_legs_and_their_underlyings() {
    assert!(is_option_leg(&on("NSE_FNO", "OPTSTK")));
    assert!(!is_option_leg(&on("NSE_EQ", "EQUITY")));
    assert_eq!(underlying_of("NIFTY 50", "NSE_FNO"), "NIFTY");
    assert_eq!(underlying_of("Tata Power", "NSE_EQ"), "TATAPOWER");
    assert_eq!(underlying_of(" ", "BSE_FNO"), "");
}

#[test]
fn keys_order_as_the_numbers_do() {
    let two = Num::of(2);
    assert!(two.gt(&Num::of(1)) && two.ge(&two) && !two.lt(&two) && two.le(&two));
    assert!(two.is_positive() && !two.is_negative() && two.is_finite());
    let nan = Num { nan: true, infinite: false, key: 5 };
    assert!(!nan.gt(&two) && !nan.le(&two) && !nan.is_positive() && !nan.is_finite());
}
