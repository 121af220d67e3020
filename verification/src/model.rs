//! The operator's settings and the strategies the engine runs.

use vstd::prelude::*;
use crate::num::Num;
use crate::text;
use crate::textmap::TextMap;

verus! {

/// One operator-defined intraday trading window: `HH:MM` texts of Indian
/// Standard Time, inclusive on both ends. `enabled` parks a window without
/// deleting it.
#[derive(Debug)]
pub struct TradeSession {
    pub start: String,
    pub end: String,
    pub enabled: bool,
}

impl Default for TradeSession {
    fn default() -> (r: Self)
        ensures
            r.start@ == "09:15"@,
            r.end@ == "15:30"@,
            r.enabled,
    {
        TradeSession { start: "09:15".to_owned(), end: "15:30".to_owned(), enabled: true }
    }
}

impl Clone for TradeSession {
    fn clone(&self) -> (r: Self)
        ensures
            r == *self,
    {
        TradeSession { start: self.start.clone(), end: self.end.clone(), enabled: self.enabled }
    }
}

/// The operator's settings, all but the real-valued ones, which the engine's
/// arithmetic reads and this library never does.
pub struct Settings {
    pub sl_auto: bool,
    pub tf_1min: bool,
    pub tf_5min: bool,
    pub mtf: bool,
    pub use_own_settings: bool,
    pub ai_sl: bool,
    pub ai_trail_tp: bool,
    pub ai_tp_pct: bool,
    pub manual_sl: bool,
    pub manual_trail_sl: bool,
    pub manual_point_trail_sl: bool,
    pub manual_trail_tp: bool,
    pub rr_enabled: bool,
    pub trade_limit: bool,
    pub trade_limit_count: i64,
    pub ai_trades: bool,
    pub hft: bool,
    pub hft_ops: i64,
    pub hft_exec_on_cb: bool,
    pub hft_exec_on: String,
    pub start_after_enabled: bool,
    pub start_after: String,
    pub no_trade_after_enabled: bool,
    pub no_trade_after: String,
    pub auto_square_off_enabled: bool,
    pub auto_square_off_time: String,
    pub trade_sessions: Vec<TradeSession>,
    pub option_type: String,
    pub strike_mode: String,
    pub strike_count: i64,
    pub only_positive: bool,
    pub fastest_rising: bool,
    pub fastest_count: i64,
    pub premium_only: bool,
    pub run_index: String,
    pub run_fno: String,
    pub run_comm: String,
    pub data_pool: bool,
    pub trade_in_index: String,
    pub trade_in_fno: String,
    pub trade_in_comm: String,
    pub trade_in_default: bool,
    pub run_in_default: bool,
    pub movers_on: bool,
    pub movers_gainers: i64,
    pub movers_losers: i64,
    pub movers_indices: Vec<i64>,
    pub nifty_trend_on: bool,
    pub nifty_trend_pct_on: bool,
    pub nifty_trend_topn: bool,
    pub nifty_trend_topn_count: i64,
    pub nifty_trend_indices: bool,
    pub nifty_trend_index_list: Vec<i64>,
    pub nifty_trend_conf_inds: Vec<String>,
    pub commodity_on: bool,
    pub commodity_list: Vec<i64>,
    pub scanner_exclude: Vec<i64>,
    pub filter_mode: bool,
    pub all_in_one: bool,
    pub fresh_meet: bool,
    pub dir_guard: bool,
    pub overall_dir: bool,
    pub brain_mode: String,
    pub brain_threshold: i64,
    pub option_side: String,
    pub nifty_tf: String,
    pub filters: TextMap<bool>,
    pub sc_up_color: String,
    pub sc_down_color: String,
    pub sc_flat_color: String,
    pub sup_full_span: bool,
    pub sup_up_color: String,
    pub sup_down_color: String,
    pub res_full_span: bool,
    pub res_up_color: String,
    pub res_down_color: String,
    pub bull_template: String,
    pub bear_template: String,
    pub mover_bull_template: String,
    pub mover_bear_template: String,
    pub nifty_bull_template: String,
    pub nifty_bear_template: String,
    pub call_manual: bool,
    pub ai_pick: bool,
    pub ai_pick_n: i64,
    pub ai_pick_bull: bool,
    pub ai_pick_bear: bool,
    pub run_in_enabled: bool,
    pub run_in_side: String,
    pub run_in_auto: bool,
    pub paper_exec_delay_on: bool,
    pub paper_exit_delay_on: bool,
    pub fno_limit_order: bool,
    pub broker_charges: bool,
}

/// The settings of a new document.
pub open spec fn defaults(r: Settings) -> bool {
    &&& r.sl_auto
    &&& !r.tf_1min
    &&& r.tf_5min
    &&& !r.mtf
    &&& !r.use_own_settings
    &&& !r.ai_sl
    &&& !r.ai_trail_tp
    &&& !r.ai_tp_pct
    &&& !r.manual_sl
    &&& !r.manual_trail_sl
    &&& !r.manual_point_trail_sl
    &&& !r.manual_trail_tp
    &&& !r.rr_enabled
    &&& !r.trade_limit
    &&& r.trade_limit_count == 5
    &&& !r.ai_trades
    &&& !r.hft
    &&& r.hft_ops == 6
    &&& r.hft_exec_on_cb
    &&& r.hft_exec_on@ == "close"@
    &&& !r.start_after_enabled
    &&& r.start_after@ == "09:15"@
    &&& !r.no_trade_after_enabled
    &&& r.no_trade_after@ == "15:30"@
    &&& !r.auto_square_off_enabled
    &&& r.auto_square_off_time@ == "15:20"@
    &&& r.trade_sessions@ == Seq::<TradeSession>::empty()
    &&& r.option_type@ == "ATM"@
    &&& r.strike_mode@ == "both_atm"@
    &&& r.strike_count == 3
    &&& r.only_positive
    &&& !r.fastest_rising
    &&& r.fastest_count == 3
    &&& !r.premium_only
    &&& r.run_index@ == "both"@
    &&& r.run_fno@ == "spot"@
    &&& r.run_comm@ == "spot"@
    &&& !r.data_pool
    &&& r.trade_in_index@ == "premium"@
    &&& r.trade_in_fno@ == "premium"@
    &&& r.trade_in_comm@ == "premium"@
    &&& !r.trade_in_default
    &&& !r.run_in_default
    &&& !r.movers_on
    &&& r.movers_gainers == 5
    &&& r.movers_losers == 5
    &&& r.movers_indices@ == Seq::<i64>::empty()
    &&& !r.nifty_trend_on
    &&& r.nifty_trend_pct_on
    &&& !r.nifty_trend_topn
    &&& r.nifty_trend_topn_count == 5
    &&& !r.nifty_trend_indices
    &&& r.nifty_trend_index_list@ == Seq::<i64>::empty()
    &&& r.nifty_trend_conf_inds@ == Seq::<String>::empty()
    &&& !r.commodity_on
    &&& r.commodity_list@ == Seq::<i64>::empty()
    &&& r.scanner_exclude@ == Seq::<i64>::empty()
    &&& !r.filter_mode
    &&& !r.all_in_one
    &&& !r.fresh_meet
    &&& !r.dir_guard
    &&& r.overall_dir
    &&& r.brain_mode@ == "off"@
    &&& r.brain_threshold == 65
    &&& r.option_side@ == "both"@
    &&& r.nifty_tf@ == "5min"@
    &&& r.filters@ == Map::<Seq<char>, bool>::empty()
    &&& r.sc_up_color@ == "#00e676"@
    &&& r.sc_down_color@ == "#ff5252"@
    &&& r.sc_flat_color@ == "#6b6b88"@
    &&& !r.sup_full_span
    &&& r.sup_up_color@ == "#26a69a"@
    &&& r.sup_down_color@ == "#ef5350"@
    &&& !r.res_full_span
    &&& r.res_up_color@ == "#26a69a"@
    &&& r.res_down_color@ == "#ef5350"@
    &&& r.bull_template@ == Seq::<char>::empty()
    &&& r.bear_template@ == Seq::<char>::empty()
    &&& r.mover_bull_template@ == Seq::<char>::empty()
    &&& r.mover_bear_template@ == Seq::<char>::empty()
    &&& r.nifty_bull_template@ == Seq::<char>::empty()
    &&& r.nifty_bear_template@ == Seq::<char>::empty()
    &&& r.call_manual
    &&& !r.ai_pick
    &&& r.ai_pick_n == 5
    &&& r.ai_pick_bull
    &&& r.ai_pick_bear
    &&& !r.run_in_enabled
    &&& r.run_in_side@ == "CE"@
    &&& !r.run_in_auto
    &&& !r.paper_exec_delay_on
    &&& !r.paper_exit_delay_on
    &&& !r.fno_limit_order
    &&& r.broker_charges
}

impl Default for Settings {
    fn default() -> (r: Self)
        ensures
            defaults(r),
    {
        Settings {
            sl_auto: true,
            tf_1min: false,
            tf_5min: true,
            mtf: false,
            use_own_settings: false,
            ai_sl: false,
            ai_trail_tp: false,
            ai_tp_pct: false,
            manual_sl: false,
            manual_trail_sl: false,
            manual_point_trail_sl: false,
            manual_trail_tp: false,
            rr_enabled: false,
            trade_limit: false,
            trade_limit_count: 5,
            ai_trades: false,
            hft: false,
            hft_ops: 6,
            hft_exec_on_cb: true,
            hft_exec_on: "close".to_owned(),
            start_after_enabled: false,
            start_after: "09:15".to_owned(),
            no_trade_after_enabled: false,
            no_trade_after: "15:30".to_owned(),
            auto_square_off_enabled: false,
            auto_square_off_time: "15:20".to_owned(),
            trade_sessions: Vec::new(),
            option_type: "ATM".to_owned(),
            strike_mode: "both_atm".to_owned(),
            strike_count: 3,
            only_positive: true,
            fastest_rising: false,
            fastest_count: 3,
            premium_only: false,
            run_index: "both".to_owned(),
            run_fno: "spot".to_owned(),
            run_comm: "spot".to_owned(),
            data_pool: false,
            trade_in_index: "premium".to_owned(),
            trade_in_fno: "premium".to_owned(),
            trade_in_comm: "premium".to_owned(),
            trade_in_default: false,
            run_in_default: false,
            movers_on: false,
            movers_gainers: 5,
            movers_losers: 5,
            movers_indices: Vec::new(),
            nifty_trend_on: false,
            nifty_trend_pct_on: true,
            nifty_trend_topn: false,
            nifty_trend_topn_count: 5,
            nifty_trend_indices: false,
            nifty_trend_index_list: Vec::new(),
            nifty_trend_conf_inds: Vec::new(),
            commodity_on: false,
            commodity_list: Vec::new(),
            scanner_exclude: Vec::new(),
            filter_mode: false,
            all_in_one: false,
            fresh_meet: false,
            dir_guard: false,
            overall_dir: true,
            brain_mode: "off".to_owned(),
            brain_threshold: 65,
            option_side: "both".to_owned(),
            nifty_tf: "5min".to_owned(),
            filters: TextMap::new(),
            sc_up_color: "#00e676".to_owned(),
            sc_down_color: "#ff5252".to_owned(),
            sc_flat_color: "#6b6b88".to_owned(),
            sup_full_span: false,
            sup_up_color: "#26a69a".to_owned(),
            sup_down_color: "#ef5350".to_owned(),
            res_full_span: false,
            res_up_color: "#26a69a".to_owned(),
            res_down_color: "#ef5350".to_owned(),
            bull_template: String::new(),
            bear_template: String::new(),
            mover_bull_template: String::new(),
            mover_bear_template: String::new(),
            nifty_bull_template: String::new(),
            nifty_bear_template: String::new(),
            call_manual: true,
            ai_pick: false,
            ai_pick_n: 5,
            ai_pick_bull: true,
            ai_pick_bear: true,
            run_in_enabled: false,
            run_in_side: "CE".to_owned(),
            run_in_auto: false,
            paper_exec_delay_on: false,
            paper_exit_delay_on: false,
            fno_limit_order: false,
            broker_charges: true,
        }
    }
}

/// A strategy and the instrument it runs on.
#[derive(Debug)]
pub struct Strategy {
    pub id: String,
    pub name: String,
    pub category: String,
    pub timeframe: String,
    pub security_id: i64,
    pub exchange_segment: String,
    pub instrument: String,
    pub trading_symbol: String,
    pub side: String,
    pub enabled: bool,
    /// When an entry signal last fired, in milliseconds; debounces re-entry.
    pub last_signal: i64,
    pub last_error: String,
    /// Built by a scanner: it carries no conditions, the filter gate is its
    /// entry rule.
    pub synthetic: bool,
    /// Contract lot size of a scanner-built instrument; not positive where the
    /// instrument master decides.
    pub lot: Num,
    /// Research group; empty and `other` run whatever is ticked.
    pub group: String,
    /// Placed by hand from an order card.
    pub manual: bool,
}

impl Default for Strategy {
    fn default() -> (r: Self)
        ensures
            r.id@ == Seq::<char>::empty(),
            r.name@ == Seq::<char>::empty(),
            r.category@ == Seq::<char>::empty(),
            r.timeframe@ == Seq::<char>::empty(),
            r.security_id == 0,
            r.exchange_segment@ == Seq::<char>::empty(),
            r.instrument@ == Seq::<char>::empty(),
            r.trading_symbol@ == Seq::<char>::empty(),
            r.side@ == Seq::<char>::empty(),
            !r.enabled,
            r.last_signal == 0,
            r.last_error@ == Seq::<char>::empty(),
            !r.synthetic,
            r.lot == (Num { nan: false, infinite: false, key: 0 }),
            r.group@ == Seq::<char>::empty(),
            !r.manual,
    {
        Strategy {
            id: String::new(),
            name: String::new(),
            category: String::new(),
            timeframe: String::new(),
            security_id: 0,
            exchange_segment: String::new(),
            instrument: String::new(),
            trading_symbol: String::new(),
            side: String::new(),
            enabled: false,
            last_signal: 0,
            last_error: String::new(),
            synthetic: false,
            lot: Num::of(0),
            group: String::new(),
            manual: false,
        }
    }
}

impl Clone for Strategy {
    fn clone(&self) -> (r: Self)
        ensures
            r == *self,
    {
        Strategy {
            id: self.id.clone(),
            name: self.name.clone(),
            category: self.category.clone(),
            timeframe: self.timeframe.clone(),
            security_id: self.security_id,
            exchange_segment: self.exchange_segment.clone(),
            instrument: self.instrument.clone(),
            trading_symbol: self.trading_symbol.clone(),
            side: self.side.clone(),
            enabled: self.enabled,
            last_signal: self.last_signal,
            last_error: self.last_error.clone(),
            synthetic: self.synthetic,
            lot: self.lot,
            group: self.group.clone(),
            manual: self.manual,
        }
    }
}

/// Direction of a strategy, its category raised to upper case: the category
/// decides where it names one, else a buy is bullish.
pub open spec fn bull_by(category_upper: Seq<char>, side: Seq<char>) -> bool {
    if category_upper == "BULLISH"@ {
        true
    } else if category_upper == "BEARISH"@ {
        false
    } else {
        text::downs(side) == "buy"@
    }
}

/// The strategy trades the bullish side.
pub open spec fn bullish(s: Strategy) -> bool {
    bull_by(text::upper_text(s.category@), s.side@)
}

/// Direction of a category already raised to upper case.
pub fn bull_of_upper(category_upper: &str, side: &str) -> (r: bool)
    ensures
        r == bull_by(category_upper@, side@),
{
    if text::same(category_upper, "BULLISH") {
        true
    } else if text::same(category_upper, "BEARISH") {
        false
    } else {
        let l = text::to_ascii_lower(side);
        text::same(l.as_str(), "buy")
    }
}

/// Whether a strategy trades the bullish side.
pub fn strategy_is_bull(strat: &Strategy) -> (r: bool)
    ensures
        r == bullish(*strat),
{
    let c = text::uppercase(strat.category.as_str());
    bull_of_upper(c.as_str(), strat.side.as_str())
}

/// A strategy is bullish where its category says so, or where its category names no
/// direction and it buys; letters do not matter.
pub proof fn law_direction_of_a_strategy(s: Strategy)
    ensures
        ({
            let c = text::upper_text(s.category@);
            &&& c == "BULLISH"@ ==> bullish(s)
            &&& c == "BEARISH"@ ==> !bullish(s)
            &&& c != "BULLISH"@ && c != "BEARISH"@ ==> (bullish(s) <==> text::downs(s.side@)
                == "buy"@)
        }),
{
    reveal_strlit("BULLISH");
    reveal_strlit("BEARISH");
    assert("BULLISH"@[1] == 'U' && "BEARISH"@[1] == 'E');
}

/// A new document runs on five-minute bars, trades no scanner, holds no filter and commits
/// to no side; its simulated book fills at once and counts charges.
pub proof fn law_new_documents_are_quiet(s: Settings)
    requires
        defaults(s),
    ensures
        s.tf_5min && !s.tf_1min && !s.mtf,
        !s.movers_on && !s.nifty_trend_on && !s.commodity_on && !s.filter_mode,
        s.filters@.dom().len() == 0,
        !s.run_in_enabled && !s.run_in_auto,
        s.overall_dir && !s.dir_guard && !s.fresh_meet && !s.all_in_one,
        s.brain_mode@ == "off"@ && s.brain_threshold == 65,
        !s.paper_exec_delay_on && !s.paper_exit_delay_on && !s.fno_limit_order,
        s.broker_charges,
        s.strike_mode@ == "both_atm"@ && s.option_type@ == "ATM"@ && s.strike_count == 3,
        s.option_side@ == "both"@,
        s.only_positive && !s.fastest_rising && s.fastest_count == 3,
        !s.start_after_enabled && !s.no_trade_after_enabled && !s.auto_square_off_enabled,
        s.start_after@ == "09:15"@ && s.no_trade_after@ == "15:30"@ && s.auto_square_off_time@
            == "15:20"@,
        s.trade_sessions@.len() == 0,
        !s.trade_limit && !s.ai_trades && !s.hft && s.hft_exec_on@ == "close"@,
        s.call_manual && !s.ai_pick && s.ai_pick_n == 5 && s.ai_pick_bull && s.ai_pick_bear,
        s.movers_gainers == 5 && s.movers_losers == 5 && s.nifty_trend_topn_count == 5,
        s.scanner_exclude@.len() == 0 && s.commodity_list@.len() == 0 && s.movers_indices@.len()
            == 0,
        s.run_index@ == "both"@ && s.run_fno@ == "spot"@ && s.run_comm@ == "spot"@,
        s.trade_in_index@ == "premium"@ && s.trade_in_fno@ == "premium"@ && s.trade_in_comm@
            == "premium"@,
{
}

} // verus!
