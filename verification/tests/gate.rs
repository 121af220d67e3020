//! The indicator filters, the entry gate they form, and the series memo behind them.

use rtengine::conditions::nifty_indicator_assignment;
use rtengine::gate::{
    active_filter_groups, direction_opposite, filter_gate, filter_gate_explain, filter_gate_facts,
    filter_is_bear, filter_is_bull, guard_readings, is_arrow_flag, is_stream_flag, side_allowed,
    stream_allows, GateFacts,
};
use rtengine::limits::SeriesMemo;
use rtengine::model::{strategy_is_bull, Strategy};
use rtengine::num::Num;
use rtengine::rules::{rule_of, Curve, Reading, Rule, Setup, Study};
use rtengine::textmap::TextMap;
use rtengine::verdict::{filter_eval, readings_of};

#[derive(Clone, Copy)]
struct Candle {
    open: f64,
    high: f64,
    low: f64,
    close: f64,
    volume: f64,
}

fn num(x: f64) -> Num {
    let bits = x.to_bits() as i64;
    let key = if bits >= 0 { bits } else { -(bits & i64::MAX) };
    if x.is_nan() {
        Num { nan: true, infinite: false, key: 0 }
    } else {
        Num { nan: false, infinite: x.is_infinite(), key }
    }
}

fn ramp(n: usize, start: f64, step: f64) -> Vec<Candle> {
    (0..n)
        .map(|i| {
            let c = start + step * i as f64;
            Candle {
                open: c - step,
                high: c + step.abs(),
                low: c - step.abs(),
                close: c,
                volume: 1000.0 + i as f64,
            }
        })
        .collect()
}

fn wave(n: usize, start: f64, drift: f64) -> Vec<Candle> {
    (0..n)
        .map(|i| {
            let c = start + drift * i as f64 + ((i as f64) * 0.35).sin() * 3.0;
            Candle {
                open: c - 0.4,
                high: c + 1.2,
                low: c - 1.2,
                close: c,
                volume: 1000.0 + ((i * 37) % 500) as f64,
            }
        })
        .collect()
}

fn bull_strategy() -> Strategy {
    Strategy {
        id: "t".into(),
        name: "T".into(),
        category: "BULLISH".into(),
        side: "BUY".into(),
        ..Default::default()
    }
}

fn bear_strategy() -> Strategy {
    Strategy {
        id: "t".into(),
        name: "T".into(),
        category: "BEARISH".into(),
        side: "SELL".into(),
        ..Default::default()
    }
}

/// The exponential average of the closes, over the bars up to `last`.
fn ema(c: &[Candle], n: i64, last: usize) -> f64 {
    let k = 2.0 / (n as f64 + 1.0);
    let mut e = c[0].close;
    for b in &c[1..=last] {
        e += k * (b.close - e);
    }
    e
}

/// The volume-weighted average price, over the bars up to `last`.
fn vwap(c: &[Candle], last: usize) -> f64 {
    let (mut pv, mut v) = (0.0, 0.0);
    for b in &c[..=last] {
        pv += (b.high + b.low + b.close) / 3.0 * b.volume;
        v += b.volume;
    }
    pv / v
}

/// The trend line ten bars long: below the price while it rises, above while it
/// falls.
fn supertrend(c: &[Candle], factor: f64, last: usize) -> f64 {
    let mut line = c[0].close;
    let mut up = true;
    for i in 1..=last {
        let from = if i >= 10 { i - 9 } else { 1 };
        let mut tr = 0.0;
        for j in from..=i {
            let p = c[j - 1].close;
            tr += (c[j].high - c[j].low).max((c[j].high - p).abs()).max((c[j].low - p).abs());
        }
        let atr = tr / (i + 1 - from) as f64;
        let mid = (c[i].high + c[i].low) / 2.0;
        let (lower, upper) = (mid - factor * atr, mid + factor * atr);
        if up && c[i].close < line {
            up = false;
            line = upper;
        } else if !up && c[i].close > line {
            up = true;
            line = lower;
        } else if up {
            line = line.max(lower);
        } else {
            line = line.min(upper);
        }
    }
    line
}

/// The line of a study: the averages as they are, any other study by an average
/// of its own length.
fn study_line(c: &[Candle], study: Study, setup: Setup, line: usize, last: usize) -> f64 {
    match (study, setup) {
        (Study::Ema, Setup::Length(n)) => ema(c, n, last),
        (Study::Vwap, _) => vwap(c, last),
        (Study::Supertrend, Setup::Trend(f)) => supertrend(c, f as f64, last),
        _ => ema(c, 3 + (study as i64 % 7) * 2 + line as i64 * 4, last),
    }
}

fn read(r: &Reading, c: &[Candle], off: usize) -> Option<Num> {
    let bar = |back: usize| c.len().checked_sub(1 + off + back);
    match *r {
        Reading::Open { back } => bar(back).map(|i| num(c[i].open)),
        Reading::High { back } => bar(back).map(|i| num(c[i].high)),
        Reading::Low { back } => bar(back).map(|i| num(c[i].low)),
        Reading::Value { curve, back } => bar(back).map(|i| match curve {
            Curve::Close => num(c[i].close),
            Curve::Line { study, setup, line } => num(study_line(c, study, setup, line, i)),
            Curve::ChannelMid => num(ema(c, 20, i)),
            Curve::Regime => num(ema(c, 30, i)),
        }),
        Reading::Vote { back } => bar(back).map(|i| Num::of(vote(c, i))),
        Reading::Swing { bull } => {
            bar(2).map(|_| num(if swing(c, off, bull) { 1.0 } else { 0.0 }))
        }
        Reading::GapWidens { bull } => {
            bar(1).map(|i| num(if (c[i + 1].close > c[i].close) == bull { 1.0 } else { 0.0 }))
        }
        Reading::Raw { study } => bar(0).map(|i| num(study_line(c, study, Setup::Plain, 0, i))),
        Reading::Signal { study, .. } => {
            bar(0).map(|i| num(study_line(c, study, Setup::Plain, 1, i)))
        }
        Reading::Lead { study, setup, back } => bar(back).map(|i| {
            num(study_line(c, study, setup, 0, i) - study_line(c, study, setup, 1, i))
        }),
        Reading::Spread { back } => bar(back).map(|i| {
            num((study_line(c, Study::Adx, Setup::Plain, 1, i)
                - study_line(c, Study::Adx, Setup::Plain, 2, i))
            .abs())
        }),
    }
}

/// The side of the consensus: none in the first bars, else that of the average.
fn vote(c: &[Candle], i: usize) -> i64 {
    if i < 10 {
        return 0;
    }
    let d = ema(c, 5, i) - ema(c, 5, i - 1);
    if d > 0.0 {
        1
    } else if d < 0.0 {
        -1
    } else {
        0
    }
}

/// Whether the swing structure turned to the side at the bar.
fn swing(c: &[Candle], off: usize, bull: bool) -> bool {
    let i = c.len() - 1 - off;
    let now = c[i].close > c[i - 1].close;
    let before = c[i - 1].close > c[i - 2].close;
    now == bull && before != bull
}

fn eval(key: &str, c: &[Candle], off: usize) -> Option<bool> {
    let rule = rule_of(key);
    let v: Vec<Option<Num>> = readings_of(rule).iter().map(|r| read(r, c, off)).collect();
    filter_eval(rule, &v)
}

struct Armed {
    filters: TextMap<bool>,
    strict: bool,
    brain: bool,
    threshold: i64,
}

impl Armed {
    fn new(keys: &[&str]) -> Armed {
        let mut filters = TextMap::new();
        for k in keys {
            filters.insert(k.to_string(), true);
        }
        Armed { filters, strict: false, brain: false, threshold: 0 }
    }

    fn facts(&self, strat: &Strategy, c: &[Candle], off: usize) -> (bool, GateFacts) {
        let verdicts: Vec<Option<bool>> =
            self.filters.keys().iter().map(|k| eval(k, c, off)).collect();
        let bull = strategy_is_bull(strat);
        let f = filter_gate_facts(&self.filters, bull, &verdicts, self.strict, self.brain);
        let share = if f.total > 0 { f.pass as f64 / f.total as f64 * 100.0 } else { 100.0 };
        filter_gate(f, share < self.threshold as f64)
    }

    fn open(&self, strat: &Strategy, c: &[Candle]) -> bool {
        self.facts(strat, c, 0).0
    }
}

fn guard(on: bool, strat: &Strategy, c: &[Candle]) -> bool {
    let pairs: Vec<(Option<Num>, Option<Num>)> =
        guard_readings().iter().map(|(a, b)| (read(a, c, 0), read(b, c, 0))).collect();
    direction_opposite(on, strategy_is_bull(strat), &pairs)
}

#[test]
fn arrow_flip_fires_only_on_the_flip_bar() {
    let candles = wave(400, 100.0, 0.0);
    let pairs: &[(&str, Study, usize)] = &[
        ("ArrowTrendCore", Study::Vlcore, 0),
        ("ArrowZigZag", Study::Zzline, 1),
        ("ArrowVl", Study::Vl, 0),
        ("ArrowElliottWave", Study::Ewtrend, 0),
        ("ArrowPriceAction", Study::Patrend, 0),
        ("ArrowComboMaster", Study::Trendmaster, 1),
        ("ArrowPaneConsensus", Study::Panemaster, 0),
    ];
    for (token, study, line) in pairs {
        let at = |off: usize| {
            study_line(&candles, *study, Setup::Plain, *line, candles.len() - 1 - off)
        };
        let off = (1..250)
            .find(|&o| at(o) > at(o + 1) && at(o + 1) < at(o + 2))
            .expect("the line must flip up somewhere in an oscillating series");
        assert_eq!(eval(&format!("Bull{token}"), &candles, off), Some(true));
        assert_eq!(eval(&format!("Bull{token}"), &candles, off + 1), Some(false));
        assert_eq!(eval(&format!("Bear{token}"), &candles, off), Some(false));
    }
}

#[test]
fn straight_line_consensus_gate_tracks_majority_vote() {
    let candles = wave(400, 100.0, 0.05);
    let mut flips = 0;
    for off in 0..candles.len() {
        let d = vote(&candles, candles.len() - 1 - off);
        assert_eq!(eval("BullSlConsensus", &candles, off), Some(d >= 0));
        assert_eq!(eval("BearSlConsensus", &candles, off), Some(d <= 0));
        if d != 0 {
            flips += 1;
        }
    }
    assert!(flips > 0, "consensus must resolve on an oscillating series");
    let arrows = (0..candles.len())
        .filter(|&off| eval("BullArrowConsensus", &candles, off) == Some(true))
        .count();
    assert!(arrows > 0, "Arrow Consensus must fire at least once");
}

#[test]
fn nifty_indicator_assignment_splits_call_and_put() {
    let conf: Vec<String> =
        ["autotrend", "zzline", "trendmaster", "projline"].iter().map(|s| s.to_string()).collect();
    let lines = |c: &[Candle]| -> Vec<Vec<Vec<Num>>> {
        conf.iter()
            .map(|_| (0..2).map(|_| c.iter().map(|b| num(b.close)).collect()).collect())
            .collect()
    };
    let up = ramp(400, 100.0, 0.6);
    let (bull, bear, net) = nifty_indicator_assignment(&conf, &lines(&up));
    assert!(net > 0, "rising index must net bullish, got {net}");
    assert!(!bull.is_empty() && bear.is_empty());
    let down = ramp(400, 340.0, -0.6);
    let (bull2, bear2, net2) = nifty_indicator_assignment(&conf, &lines(&down));
    assert!(net2 < 0, "falling index must net bearish, got {net2}");
    assert!(!bear2.is_empty() && bull2.is_empty());
}

#[test]
fn straight_line_consensus_warmup_is_non_blocking() {
    let candles = ramp(3, 100.0, 1.0);
    assert_eq!(eval("BullSlConsensus", &candles, 0), Some(true));
    assert_eq!(eval("BearSlConsensus", &candles, 0), Some(true));
    assert_eq!(eval("BullArrowConsensus", &candles, 0), Some(false));
}

#[test]
fn straight_line_arrow_filters_use_pivot_trend() {
    let candles = wave(400, 100.0, 0.05);
    for token in [
        "ArrowAutoTrendline",
        "ArrowTrendProjection",
        "ArrowPitchfork",
        "ArrowSrema",
        "ArrowGannFan",
        "ArrowFibFan",
    ] {
        assert_eq!(rule_of(&format!("Bull{token}")), Rule::Swing { bull: true });
        assert_eq!(rule_of(&format!("Bear{token}")), Rule::Swing { bull: false });
        let mut resolved = 0;
        for off in 0..candles.len() {
            let resolves = off + 3 <= candles.len();
            let expect = if resolves { Some(swing(&candles, off, true)) } else { None };
            let expect_bear = if resolves { Some(swing(&candles, off, false)) } else { None };
            assert_eq!(eval(&format!("Bull{token}"), &candles, off), expect);
            assert_eq!(eval(&format!("Bear{token}"), &candles, off), expect_bear);
            if expect == Some(true) {
                resolved += 1;
            }
        }
        assert!(resolved > 0, "{token} must fire at least once on an oscillating series");
    }
}

#[test]
fn ema1_is_the_bar_and_drives_only_crosses() {
    let candles = wave(200, 100.0, 0.1);
    let last = candles.len() - 1;
    for key in ["BullEma1_9", "BearEma1_9"] {
        let up = key == "BullEma1_9";
        let (c0, c1) = (candles[last].close, candles[last - 1].close);
        let (e0, e1) = (ema(&candles, 9, last), ema(&candles, 9, last - 1));
        let crossed = if up { c1 <= e1 && c0 > e0 } else { c1 >= e1 && c0 < e0 };
        assert_eq!(eval(key, &candles, 0), Some(crossed));
        let Rule::Cross { a, .. } = rule_of(key) else { panic!("{key} must be a cross") };
        assert_eq!(a, Curve::Close, "the shortest average must be the bar");
    }
    assert_eq!(
        eval("BullGtUp", &candles, 0),
        Some(candles[last].close > ema(&candles, 9, last))
    );
    let mut gapped = ramp(120, 100.0, 0.0);
    let n = gapped.len();
    let prev_high = gapped[n - 2].high;
    gapped[n - 1].open = prev_high + 1.0;
    gapped[n - 1].high = prev_high + 2.0;
    gapped[n - 1].close = prev_high + 1.5;
    assert_eq!(eval("BullGapUp", &gapped, 0), Some(true));
    assert_eq!(eval("BearGapDown", &gapped, 0), Some(false));
}

#[test]
fn unknown_filter_is_non_blocking() {
    let c = ramp(60, 100.0, 1.0);
    assert_eq!(eval("BullSomeUnimplementedThing", &c, 0), None);
    let s = Armed::new(&["BullSomeUnimplementedThing"]);
    assert!(s.open(&bull_strategy(), &c));
}

#[test]
fn strict_and_gate_blocks_on_failure() {
    let c = ramp(60, 100.0, 1.0);
    let mut s = Armed::new(&["BullIncUp"]);
    assert!(s.open(&bull_strategy(), &c), "rising close passes BullIncUp");
    assert!(s.open(&bear_strategy(), &c), "no bear filters armed => non-blocking");
    s.filters.insert("BearIncDown".into(), true);
    assert!(!s.open(&bear_strategy(), &c), "strict AND fails with opposing down filter");
}

#[test]
fn all_in_one_toggles_strict_and_vs_majority() {
    let c = ramp(60, 100.0, 1.0);
    let mut s = Armed::new(&["BullIncUp", "BullIncUpAll", "BullLtUp"]);
    assert!(s.open(&bull_strategy(), &c), "majority clears the non-strict gate");
    s.strict = true;
    assert!(!s.open(&bull_strategy(), &c), "strict AND blocks when any filter fails");
}

#[test]
fn filter_mode_uses_majority_and_combines_with_brain_auto() {
    let c = ramp(60, 100.0, 1.0);
    let mut s = Armed::new(&["BullIncUp", "BullIncUpAll", "BullLtUp"]);
    assert!(s.open(&bull_strategy(), &c), "filter mode falls back to majority");
    s.brain = true;
    s.threshold = 90;
    assert!(!s.open(&bull_strategy(), &c), "brain threshold above majority score blocks");
    s.threshold = 50;
    assert!(s.open(&bull_strategy(), &c), "brain threshold below majority score allows");
    s.brain = false;
    s.strict = true;
    assert!(!s.open(&bull_strategy(), &c), "strict AND blocks when any filter fails");
    s.filters.clear();
    s.filters.insert("BullIncUp".into(), true);
    assert!(s.open(&bull_strategy(), &c), "single passing filter allowed");
}

#[test]
fn arrow_filters_collapse_to_one_or_trigger() {
    let c = wave(400, 100.0, 0.0);
    let mut s = Armed::new(&["BullArrowZigZag", "BullArrowTrendCore"]);
    let off = (1..300)
        .find(|&o| {
            eval("BullArrowZigZag", &c, o) == Some(true)
                || eval("BullArrowTrendCore", &c, o) == Some(true)
        })
        .expect("at least one arrow must fire on an oscillating series");
    let (ok, f) = s.facts(&bull_strategy(), &c, off);
    assert!(ok, "any fresh arrow clears the collapsed arrow trigger");
    assert_eq!(f.total, 1, "all enabled arrows collapse into one condition");
    s.filters.insert("BullIncUp".into(), true);
    let (_, f2) = s.facts(&bull_strategy(), &c, off);
    assert_eq!(f2.total, 2, "arrow group + one normal filter = two conditions");
}

#[test]
fn brain_auto_conflict_veto_blocks_strong_opposite() {
    let c = ramp(60, 100.0, 1.0);
    let mut s = Armed::new(&["BullIncUp"]);
    s.brain = true;
    s.threshold = 50;
    s.strict = true;
    assert!(s.open(&bull_strategy(), &c), "no opposite agreement => allowed");
    s.filters.insert("BearPbrElderforce".into(), true);
    let (ok, f) = s.facts(&bull_strategy(), &c, 0);
    assert!(!ok, "strong opposite agreement vetoes");
    assert!(f.veto);
}

#[test]
fn brain_auto_threshold() {
    let c = ramp(60, 100.0, 1.0);
    let mut s = Armed::new(&["BullIncUp", "BullEmaTrend9", "BullIncUpAll"]);
    s.brain = true;
    s.threshold = 50;
    assert!(s.open(&bull_strategy(), &c), "all three pass => score 100");
    s.filters.clear();
    s.filters.insert("BullIncUp".into(), true);
    s.filters.insert("BearIncDown".into(), true);
    assert!(s.open(&bull_strategy(), &c), "bear filter evaluates false so no veto");
}

#[test]
fn brain_never_replaces_the_majority() {
    let c = ramp(60, 100.0, 1.0);
    // One of three passes: the score clears a low threshold, the majority fails.
    let mut s = Armed::new(&["BullIncUp", "BullLtUp", "BullIncDown"]);
    s.brain = true;
    s.threshold = 20;
    assert!(!s.open(&bull_strategy(), &c));
}

#[test]
fn direction_guard_blocks_opposite() {
    let up = ramp(60, 100.0, 1.0);
    let down = ramp(60, 200.0, -1.0);
    assert!(!guard(true, &bull_strategy(), &up), "aligned bull not blocked");
    assert!(guard(true, &bull_strategy(), &down), "clear opposite majority blocked");
    assert!(!guard(true, &bear_strategy(), &down), "aligned bear not blocked");
    assert!(!guard(false, &bull_strategy(), &down), "guard off never blocks");
}

#[test]
fn scanner_sides_must_match_the_active_trade_side() {
    assert_eq!(side_allowed(true, true, None), (true, true));
    assert_eq!(side_allowed(true, true, Some("CE")), (true, false));
    assert_eq!(side_allowed(true, true, Some("PE")), (false, true));
    assert_eq!(side_allowed(false, true, Some("CE")), (false, false));
    assert_eq!(side_allowed(true, false, Some("PE")), (false, false));
    assert_eq!(side_allowed(false, true, None), (false, true));
    assert_eq!(side_allowed(true, false, None), (true, false));
}

const UI_BULL: &[&str] = &[
    "IncUp", "GapUp", "IncUpAll", "CrossUp", "GtUp", "LtUp", "PaneCrossUp", "PaneIncUpAll",
    "BullBbwInc", "BullSmf", "BullAsr", "BullOit", "BullBbCrossAbove", "BullPcCrossAbove",
    "BullEma9_21", "BullEma21_35", "BullEma35_50", "BullEma50_100", "BullEma100_200",
    "BullEma200_300", "BullEma1_9", "BullEma1_21", "BullEma1_35", "BullEma1_50",
    "BullEma1_100", "BullEma1_200", "BullEma1_300", "BullEmaTrend9", "BullEmaTrend21",
    "BullEmaTrend35", "BullEmaTrend50", "BullEmaTrend100", "BullEmaTrend200",
    "BullEmaTrend300", "BullSt10_1_2", "BullSt10_2_3", "BullSt1CloseCrossAbove",
    "BullVwapCloseCrossAbove", "BullPbrAo", "BullPbrSmiio", "BullPbrDpo", "BullPbrMfi",
    "BullPbrUo", "BullPbrWilliamsR", "BullPbrBbpct", "BullPbrPvt", "BullPbrAd", "BullPbrSmf",
    "BullPbrBbwUp", "BullPbrAtrUp", "BullPbrVoloscUp", "BullMeetEma9_21", "BullMeetEma21_35",
    "BullMeetEma35_50", "BullMeetEma50_100", "BullMeetEma100_200", "BullMeetEma200_300",
    "BullMeetSt10_1_2", "BullMeetSt10_2_3", "BullMeetCloseSt", "BullMeetCloseVwap",
    "BullMeetPaneCross", "BullMeetCross", "BullMeetCloseBb", "BullMeetClosePc", "BullMeetVl",
    "BullPbrCmf", "BullPbrCci", "BullPbrSqzmom", "BullPbrElderforce",
    "BullPbgMacd", "BullPbgPpo", "BullPbgSmiio", "BullPbgTsi", "BullPbgStochrsi", "BullPbgSmf",
    "BullPbgRsi", "BullPbgObv", "BullPbgFisher", "BullPbgAroon", "BullPbgVortex", "BullPbgAdx",
    "BullMeetOvlHma", "BullMeetOvlTenkan", "BullMeetOvlKijun", "BullMeetOvlKeltner",
    "BullMeetOvlDonchian", "BullMeetOvlTrendCore",
    "BullObrHma", "BullObrTenkan", "BullObrKijun", "BullObrSenkouA", "BullObrKeltner",
    "BullObrDonchian", "BullObrTrendCore",
    "BullSlElliottWave", "BullSlSupplyDemand", "BullSlPriceAction", "BullSlZigZag",
    "BullSlComboMaster", "BullSlPaneConsensus", "BullSlAutoTrendline", "BullSlPitchfork",
    "BullSlTrendProjection", "BullSlGannFan", "BullSlFibFan", "BullSlSrema", "BullVl",
    "BullArrowElliottWave", "BullArrowSupplyDemand", "BullArrowPriceAction", "BullArrowZigZag",
    "BullArrowComboMaster", "BullArrowPaneConsensus", "BullArrowAutoTrendline", "BullArrowPitchfork",
    "BullArrowTrendProjection", "BullArrowGannFan", "BullArrowFibFan", "BullArrowSrema",
    "BullArrowTrendCore", "BullArrowOit", "BullArrowVl",
    "BullCandle", "BullElliott", "BullIndicator", "BullPane", "BullSymmetry", "BullStructure",
    "BullAtr",
];
const UI_BEAR: &[&str] = &[
    "IncDown", "GapDown", "IncDownAll", "CrossDown", "GtDown", "LtDown", "PaneCrossDown",
    "PaneIncDownAll", "BearBbwInc", "BearSmf", "BearAsr", "BearOit", "BearBbCrossBelow",
    "BearPcCrossBelow", "BearEma9_21", "BearEma21_35", "BearEma35_50", "BearEma50_100",
    "BearEma100_200", "BearEma200_300", "BearEma1_9", "BearEma1_21", "BearEma1_35",
    "BearEma1_50", "BearEma1_100", "BearEma1_200", "BearEma1_300", "BearEmaTrend9",
    "BearEmaTrend21", "BearEmaTrend35", "BearEmaTrend50", "BearEmaTrend100", "BearEmaTrend200",
    "BearEmaTrend300", "BearSt10_1_2", "BearSt10_2_3", "BearSt1CloseCrossBelow",
    "BearVwapCloseCrossBelow", "BearPbrAo", "BearPbrSmiio", "BearPbrDpo", "BearPbrMfi",
    "BearPbrUo", "BearPbrWilliamsR", "BearPbrBbpct", "BearPbrPvt", "BearPbrAd", "BearPbrSmf",
    "BearPbrBbwUp", "BearPbrAtrUp", "BearPbrVoloscUp", "BearMeetEma9_21", "BearMeetEma21_35",
    "BearMeetEma35_50", "BearMeetEma50_100", "BearMeetEma100_200", "BearMeetEma200_300",
    "BearMeetSt10_1_2", "BearMeetSt10_2_3", "BearMeetCloseSt", "BearMeetCloseVwap",
    "BearMeetPaneCross", "BearMeetCross", "BearMeetCloseBb", "BearMeetClosePc", "BearMeetVl",
    "BearPbrCmf", "BearPbrCci", "BearPbrSqzmom", "BearPbrElderforce",
    "BearPbgMacd", "BearPbgPpo", "BearPbgSmiio", "BearPbgTsi", "BearPbgStochrsi", "BearPbgSmf",
    "BearPbgRsi", "BearPbgObv", "BearPbgFisher", "BearPbgAroon", "BearPbgVortex", "BearPbgAdx",
    "BearMeetOvlHma", "BearMeetOvlTenkan", "BearMeetOvlKijun", "BearMeetOvlKeltner",
    "BearMeetOvlDonchian", "BearMeetOvlTrendCore",
    "BearObrHma", "BearObrTenkan", "BearObrKijun", "BearObrSenkouA", "BearObrKeltner",
    "BearObrDonchian", "BearObrTrendCore",
    "BearSlElliottWave", "BearSlSupplyDemand", "BearSlPriceAction", "BearSlZigZag",
    "BearSlComboMaster", "BearSlPaneConsensus", "BearSlAutoTrendline", "BearSlPitchfork",
    "BearSlTrendProjection", "BearSlGannFan", "BearSlFibFan", "BearSlSrema", "BearVl",
    "BearArrowElliottWave", "BearArrowSupplyDemand", "BearArrowPriceAction", "BearArrowZigZag",
    "BearArrowComboMaster", "BearArrowPaneConsensus", "BearArrowAutoTrendline", "BearArrowPitchfork",
    "BearArrowTrendProjection", "BearArrowGannFan", "BearArrowFibFan", "BearArrowSrema",
    "BearArrowTrendCore", "BearArrowOit", "BearArrowVl",
    "BearCandle", "BearElliott", "BearIndicator", "BearPane", "BearSymmetry", "BearStructure",
    "BearAtr",
];


#[test]
fn all_ui_filters_eval_without_panic() {
    let up = wave(400, 100.0, 0.2);
    let down = wave(400, 200.0, -0.2);
    for (keys, candles) in [(UI_BULL, &up), (UI_BEAR, &down)] {
        for k in keys {
            assert!(
                eval(k, candles, 0).is_some(),
                "UI filter {k} must be implemented (return Some)"
            );
        }
    }
}

#[test]
fn definable_filters_are_active() {
    let up = ramp(320, 100.0, 0.7);
    let down = ramp(320, 320.0, -0.7);
    for k in [
        "BullEma9_21",
        "BullEmaTrend9",
        "BullSt10_1_2",
        "BullSt1CloseCrossAbove",
        "BullBbCrossAbove",
        "BullPcCrossAbove",
        "BullMeetCloseSt",
        "BullMeetCloseBb",
        "BullMeetClosePc",
        "BullPbrAo",
        "BullSmf",
        "BullMeetVl",
    ] {
        assert!(eval(k, &up, 0).is_some(), "{k} should be implemented");
    }
    for k in ["BearEma9_21", "BearSt10_1_2", "BearMeetCloseSt", "BearPbrAo"] {
        assert!(eval(k, &down, 0).is_some(), "{k} should be implemented");
    }
}

#[test]
fn support_and_resistance_trend_filters_read_their_settings() {
    for (key, study, setup) in [
        ("BullSlSupport", Study::Supline, Setup::Support),
        ("BearSlResistance", Study::Resline, Setup::Resistance),
    ] {
        let rule = rule_of(key);
        for r in readings_of(rule) {
            let Reading::Value { curve: Curve::Line { study: s, setup: u, .. }, .. } = r else {
                panic!("{key} must read its own line")
            };
            assert_eq!((s, u), (study, setup));
        }
        // A line that is not drawn yet never blocks.
        assert_eq!(filter_eval(rule, &vec![None, None]), Some(true));
    }
}

/// The settings of a study as the memo tells them apart.
fn settings_of(setup: Setup) -> u64 {
    match setup {
        Setup::Length(n) => 100 + n as u64,
        Setup::Trend(n) => 1000 + n as u64,
        Setup::Bands => 1,
        Setup::Flow => 2,
        Setup::Support => 3,
        Setup::Resistance => 4,
        Setup::Plain => 0,
    }
}

/// The content of some candles as the memo tells it apart.
fn fingerprint(c: &[Candle]) -> u64 {
    c.iter().fold(7u64, |h, b| h.wrapping_mul(31).wrapping_add(b.close.to_bits()))
}

/// Derives each series at most once per memo, and counts the derivations.
struct Deriver {
    memo: SeriesMemo,
    derived: usize,
    /// The derived series: three lines of every study.
    kept: Vec<Vec<[f64; 3]>>,
}

impl Deriver {
    fn new() -> Deriver {
        Deriver { memo: SeriesMemo::new(), derived: 0, kept: vec![] }
    }

    fn series(&mut self, c: &[Candle], study: Study, setup: Setup) -> usize {
        let (place, content) = (c.as_ptr() as u64, fingerprint(c));
        let (id, settings) = (study as u64, settings_of(setup));
        if let Some(h) = self.memo.find(place, content, id, settings) {
            return h as usize;
        }
        let at = |i: usize| {
            [0, 1, 2].map(|line| study_line(c, study, setup, line, i))
        };
        self.kept.push((0..c.len()).map(at).collect());
        self.derived += 1;
        let h = self.kept.len() - 1;
        self.memo.keep(place, content, id, settings, h as u64);
        h
    }

    /// A reading, its lines taken from the memo.
    fn read(&mut self, r: &Reading, c: &[Candle]) -> Option<Num> {
        let bar = |back: usize| c.len().checked_sub(1 + back);
        let (study, setup, back) = match *r {
            Reading::Value { curve: Curve::Line { study, setup, .. }, back } => (study, setup, back),
            Reading::Lead { study, setup, back } => (study, setup, back),
            Reading::Raw { study } | Reading::Signal { study, .. } => (study, Setup::Plain, 0),
            Reading::Spread { back } => (Study::Adx, Setup::Plain, back),
            _ => return read(r, c, 0),
        };
        let h = self.series(c, study, setup);
        let row = self.kept[h][bar(back)?];
        Some(num(match *r {
            Reading::Value { curve: Curve::Line { line, .. }, .. } => row[line],
            Reading::Lead { .. } => row[0] - row[1],
            Reading::Signal { .. } => row[1],
            Reading::Spread { .. } => (row[1] - row[2]).abs(),
            _ => row[0],
        }))
    }

    fn filter(&mut self, key: &str, c: &[Candle]) -> Option<bool> {
        let rule = rule_of(key);
        let v: Vec<Option<Num>> = readings_of(rule).iter().map(|r| self.read(r, c)).collect();
        filter_eval(rule, &v)
    }

    fn gate(&mut self, c: &Vec<Candle>) -> usize {
        let before = self.derived;
        let outer = self.memo.enter();
        for k in UI_BULL {
            self.filter(k, c);
        }
        self.memo.leave(outer);
        self.derived - before
    }
}

#[test]
fn ultrafast_gate_derives_each_indicator_once() {
    let candles = wave(400, 100.0, 0.15);
    let mut naive = 0;
    for k in UI_BULL {
        let mut d = Deriver::new();
        d.filter(k, &candles);
        naive += d.derived;
    }
    let mut d = Deriver::new();
    let memo = d.gate(&candles);
    assert!(memo > 0, "gate must derive indicators");
    assert!(naive >= UI_BULL.len(), "naive pass derives at least one per filter");
    assert!(memo < naive, "memo must collapse duplicate derivations: naive={naive} memo={memo}");
}

#[test]
fn persistent_cache_shared_across_strategies_and_ticks() {
    let candles = wave(400, 100.0, 0.15);
    let mut d = Deriver::new();
    assert!(d.gate(&candles) > 0, "cold cache must derive indicators");
    let clone = candles.clone();
    assert_eq!(d.gate(&clone), 0, "identical content must be free");
    assert_eq!(d.gate(&candles), 0, "unchanged tick must be free");
    let mut changed = candles.clone();
    let n = changed.len();
    changed[n - 1].close += 1.0;
    assert!(d.gate(&changed) > 0, "changed content must re-derive");
}

#[test]
fn memoised_gate_matches_unscoped_evaluation() {
    let candles = wave(500, 120.0, 0.1);
    for (keys, strat) in [(UI_BULL, bull_strategy()), (UI_BEAR, bear_strategy())] {
        // A pass for every filter, one pass for all, and no pass at all.
        let mut d = Deriver::new();
        let scoped: Vec<Option<bool>> = keys
            .iter()
            .map(|k| {
                let outer = d.memo.enter();
                let v = d.filter(k, &candles);
                d.memo.leave(outer);
                v
            })
            .collect();
        let mut d = Deriver::new();
        let outer = d.memo.enter();
        let shared: Vec<Option<bool>> = keys.iter().map(|k| d.filter(k, &candles)).collect();
        d.memo.leave(outer);
        let mut d = Deriver::new();
        let raw: Vec<Option<bool>> = keys.iter().map(|k| d.filter(k, &candles)).collect();
        let plain: Vec<Option<bool>> = keys.iter().map(|k| eval(k, &candles, 0)).collect();
        assert_eq!(scoped, shared, "memo changed a filter result");
        assert_eq!(shared, raw, "memo diverged from an unscoped pass");
        assert_eq!(raw, plain, "memo diverged from an evaluation without one");
        let mut st = Armed::new(keys);
        st.strict = true;
        let bull_side = strategy_is_bull(&strat);
        let strict = keys
            .iter()
            .filter(|k| {
                !is_stream_flag(k) && if bull_side { filter_is_bull(k) } else { filter_is_bear(k) }
            })
            .all(|k| eval(k, &candles, 0).unwrap_or(true));
        assert_eq!(st.open(&strat, &candles), strict, "gate verdict diverged from strict-AND");
    }
}

#[test]
fn gate_breakdown_is_one_line() {
    let f = GateFacts {
        pass: 2,
        total: 3,
        opposite: 0,
        opp_total: 1,
        strict: false,
        brain: true,
        veto: false,
    };
    assert_eq!(
        filter_gate_explain(true, &f, "67", 60),
        "ok=true pass=2/3 score=67% strict=false brain=true veto=false opp=0/1 thr=60"
    );
}

#[test]
fn stream_flags_scope_the_ticked_side() {
    let mut filters = TextMap::new();
    let mut s = bull_strategy();
    s.group = "candle".into();
    assert!(stream_allows(&filters, &s), "no stream flag ticked => every group runs");
    filters.insert("BullCandle".into(), true);
    let (bull, bear) = active_filter_groups(&filters);
    assert_eq!((bull.len(), bear.len()), (1, 0));
    s.group = bull[0].into();
    assert!(stream_allows(&filters, &s));
    s.group = "elsewhere".into();
    assert!(!stream_allows(&filters, &s));
    s.group = "  ".into();
    assert!(stream_allows(&filters, &s), "a strategy without a group always runs");
}
