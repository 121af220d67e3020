//! Indicator filters: what a filter key asks of the chart.
//!
//! A key such as `BullEma9_21` names a rule. A rule says which readings it
//! needs and how it judges them. A rule without a verdict never blocks.

use vstd::prelude::*;
use crate::text;

verus! {

/// An indicator the charting engine computes.
#[derive(Clone, Copy, Debug, PartialEq, Eq, Structural)]
pub enum Study {
    Ema,
    Vwap,
    Supertrend,
    Bb,
    Pc,
    Hma,
    Bbw,
    Smf,
    Vl,
    Ao,
    Smiio,
    Dpo,
    Mfi,
    Uo,
    WilliamsR,
    Bbpct,
    Pvt,
    Ad,
    Cmf,
    Cci,
    Sqzmom,
    Atr,
    Volosc,
    Macd,
    Ppo,
    Stochrsi,
    Tsi,
    Rsi,
    Obv,
    Fisher,
    Aroon,
    Vortex,
    Adx,
    Ichimoku,
    Keltner,
    Donchian,
    Vlcore,
    Ewtrend,
    Patrend,
    Zzline,
    Trendmaster,
    Panemaster,
    Autotrend,
    Pitchfork,
    Projline,
    Gant,
    Fibt,
    Sremat,
    Supline,
    Resline,
}

/// The identifier a study is computed under.
pub open spec fn study_name(s: Study) -> Seq<char> {
    match s {
        Study::Ema => "ema"@,
        Study::Vwap => "vwap"@,
        Study::Supertrend => "supertrend"@,
        Study::Bb => "bb"@,
        Study::Pc => "pc"@,
        Study::Hma => "hma"@,
        Study::Bbw => "bbw"@,
        Study::Smf => "smf"@,
        Study::Vl => "vl"@,
        Study::Ao => "ao"@,
        Study::Smiio => "smiio"@,
        Study::Dpo => "dpo"@,
        Study::Mfi => "mfi"@,
        Study::Uo => "uo"@,
        Study::WilliamsR => "williamsR"@,
        Study::Bbpct => "bbpct"@,
        Study::Pvt => "pvt"@,
        Study::Ad => "ad"@,
        Study::Cmf => "cmf"@,
        Study::Cci => "cci"@,
        Study::Sqzmom => "sqzmom"@,
        Study::Atr => "atr"@,
        Study::Volosc => "volosc"@,
        Study::Macd => "macd"@,
        Study::Ppo => "ppo"@,
        Study::Stochrsi => "stochrsi"@,
        Study::Tsi => "tsi"@,
        Study::Rsi => "rsi"@,
        Study::Obv => "obv"@,
        Study::Fisher => "fisher"@,
        Study::Aroon => "aroon"@,
        Study::Vortex => "vortex"@,
        Study::Adx => "adx"@,
        Study::Ichimoku => "ichimoku"@,
        Study::Keltner => "keltner"@,
        Study::Donchian => "donchian"@,
        Study::Vlcore => "vlcore"@,
        Study::Ewtrend => "ewtrend"@,
        Study::Patrend => "patrend"@,
        Study::Zzline => "zzline"@,
        Study::Trendmaster => "trendmaster"@,
        Study::Panemaster => "panemaster"@,
        Study::Autotrend => "autotrend"@,
        Study::Pitchfork => "pitchfork"@,
        Study::Projline => "projline"@,
        Study::Gant => "gant"@,
        Study::Fibt => "fibt"@,
        Study::Sremat => "sremat"@,
        Study::Supline => "supline"@,
        Study::Resline => "resline"@,
    }
}

/// The identifier a study is computed under.
pub fn study_id(s: Study) -> (r: &'static str)
    ensures
        r@ == study_name(s),
{
    match s {
        Study::Ema => "ema",
        Study::Vwap => "vwap",
        Study::Supertrend => "supertrend",
        Study::Bb => "bb",
        Study::Pc => "pc",
        Study::Hma => "hma",
        Study::Bbw => "bbw",
        Study::Smf => "smf",
        Study::Vl => "vl",
        Study::Ao => "ao",
        Study::Smiio => "smiio",
        Study::Dpo => "dpo",
        Study::Mfi => "mfi",
        Study::Uo => "uo",
        Study::WilliamsR => "williamsR",
        Study::Bbpct => "bbpct",
        Study::Pvt => "pvt",
        Study::Ad => "ad",
        Study::Cmf => "cmf",
        Study::Cci => "cci",
        Study::Sqzmom => "sqzmom",
        Study::Atr => "atr",
        Study::Volosc => "volosc",
        Study::Macd => "macd",
        Study::Ppo => "ppo",
        Study::Stochrsi => "stochrsi",
        Study::Tsi => "tsi",
        Study::Rsi => "rsi",
        Study::Obv => "obv",
        Study::Fisher => "fisher",
        Study::Aroon => "aroon",
        Study::Vortex => "vortex",
        Study::Adx => "adx",
        Study::Ichimoku => "ichimoku",
        Study::Keltner => "keltner",
        Study::Donchian => "donchian",
        Study::Vlcore => "vlcore",
        Study::Ewtrend => "ewtrend",
        Study::Patrend => "patrend",
        Study::Zzline => "zzline",
        Study::Trendmaster => "trendmaster",
        Study::Panemaster => "panemaster",
        Study::Autotrend => "autotrend",
        Study::Pitchfork => "pitchfork",
        Study::Projline => "projline",
        Study::Gant => "gant",
        Study::Fibt => "fibt",
        Study::Sremat => "sremat",
        Study::Supline => "supline",
        Study::Resline => "resline",
    }
}

/// The inputs a study is computed with.
#[derive(Clone, Copy, Debug, PartialEq, Eq, Structural)]
pub enum Setup {
    /// The study's own defaults.
    Plain,
    /// A length in bars.
    Length(i64),
    /// Ten-bar range and a factor.
    Trend(i64),
    /// Twenty bars, two deviations.
    Bands,
    /// Fourteen bars, nine-bar signal, twenty-bar volume.
    Flow,
    /// The operator's support-line geometry.
    Support,
    /// The operator's resistance-line geometry.
    Resistance,
}

/// A line on the chart.
#[derive(Clone, Copy, Debug, PartialEq, Eq, Structural)]
pub enum Curve {
    /// The close of the bar, which a one-bar average is too.
    Close,
    /// One output line of a study.
    Line { study: Study, setup: Setup, line: usize },
    /// The middle of the twenty-bar price channel.
    ChannelMid,
    /// The open-interest regime line.
    Regime,
}

/// How a signal line is smoothed out of its main line.
#[derive(Clone, Copy, Debug, PartialEq, Eq, Structural)]
pub enum Smooth {
    Ema(usize),
    Sma(usize),
}

/// One value a rule reads, `back` bars before the bar under judgement.
#[derive(Clone, Copy, Debug, PartialEq, Eq, Structural)]
pub enum Reading {
    Open { back: usize },
    High { back: usize },
    Low { back: usize },
    Value { curve: Curve, back: usize },
    /// The majority vote of the straight-line studies; the key of the reading is the
    /// vote itself: one, zero or minus one.
    Vote { back: usize },
    /// One where the swing structure turned to the side here, else zero.
    Swing { bull: bool },
    /// One where the gap to the automatic support or resistance widens, else zero.
    GapWidens { bull: bool },
    /// The raw first line of a study, not a number while it warms up.
    Raw { study: Study },
    /// The smoothed signal of that line.
    Signal { study: Study, smooth: Smooth },
    /// First line minus second line.
    Lead { study: Study, setup: Setup, back: usize },
    /// Distance between the two directional lines of the trend gauge.
    Spread { back: usize },
}

/// What a filter key asks.
#[derive(Clone, Copy, Debug, PartialEq, Eq, Structural)]
pub enum Rule {
    /// No such filter.
    Unknown,
    /// Satisfied on every chart.
    Pass,
    /// The close moved against the bar before.
    CloseMove { rising: bool },
    /// The 9, 21 and 35 bar averages stand in order.
    EmaStack { up: bool },
    /// The bar opened beyond the range of the bar before.
    Gap { up: bool },
    /// Every pane pair crosses.
    PaneCross { up: bool },
    /// Every pane line points one way.
    PaneAll { bull: bool },
    /// Every pane pair stands on one side.
    PaneLevel { bull: bool },
    /// The gap to automatic support or resistance widens.
    AutoSupport { bull: bool },
    /// `a` stands over `b`, or under it.
    Level { a: Curve, b: Curve, bull: bool },
    /// `a` crossed `b`.
    Cross { a: Curve, b: Curve, up: bool },
    /// The close crossed `b` while `mid` points the same way.
    CrossDir { b: Curve, mid: Curve, up: bool },
    /// The curve rises, or falls; where `neutral`, an undrawn curve passes.
    Dir { curve: Curve, bull: bool, neutral: bool },
    /// The curve turned on this bar; an undrawn curve passes.
    Turn { curve: Curve, bull: bool },
    /// The straight-line vote does not oppose the side.
    Vote { bull: bool },
    /// The straight-line vote turned to the side on this bar.
    VoteTurn { bull: bool },
    /// The swing structure turned on this bar.
    Swing { bull: bool },
    /// The raw line stands over its own smoothed signal, or under it.
    Signal { study: Study, smooth: Smooth, bull: bool },
    /// The first line leads the second and keeps its lead.
    Hold { study: Study, setup: Setup, bull: bool },
    /// The ergodic pair against its histogram.
    ErgodicHold { bull: bool },
    /// Both vortex lines committed to one side.
    VortexHold { bull: bool },
    /// The trend gauge and its directional lines committed to one side.
    AdxHold { bull: bool },
}

/// The overlay study behind a key part, with its output line.
pub open spec fn overlay_of(b: Seq<char>) -> Option<(Study, usize)> {
    if b == "Hma"@ {
        Some((Study::Hma, 0usize))
    } else if b == "Tenkan"@ {
        Some((Study::Ichimoku, 0usize))
    } else if b == "Kijun"@ {
        Some((Study::Ichimoku, 1usize))
    } else if b == "SenkouA"@ {
        Some((Study::Ichimoku, 2usize))
    } else if b == "Keltner"@ {
        Some((Study::Keltner, 1usize))
    } else if b == "Donchian"@ {
        Some((Study::Donchian, 1usize))
    } else if b == "TrendCore"@ {
        Some((Study::Vlcore, 0usize))
    } else {
        None
    }
}

/// The overlay study behind a key part, with its output line.
pub fn overlay_series(base: &str) -> (r: Option<(Study, usize)>)
    ensures
        r == overlay_of(base@),
{
    if text::same(base, "Hma") {
        Some((Study::Hma, 0))
    } else if text::same(base, "Tenkan") {
        Some((Study::Ichimoku, 0))
    } else if text::same(base, "Kijun") {
        Some((Study::Ichimoku, 1))
    } else if text::same(base, "SenkouA") {
        Some((Study::Ichimoku, 2))
    } else if text::same(base, "Keltner") {
        Some((Study::Keltner, 1))
    } else if text::same(base, "Donchian") {
        Some((Study::Donchian, 1))
    } else if text::same(base, "TrendCore") {
        Some((Study::Vlcore, 0))
    } else {
        None
    }
}

/// The straight-line study behind a key part, with its output line.
pub open spec fn straight_of(b: Seq<char>) -> Option<(Study, usize)> {
    if b == "ElliottWave"@ {
        Some((Study::Ewtrend, 0usize))
    } else if b == "SupplyDemand"@ {
        Some((Study::Ewtrend, 0usize))
    } else if b == "PriceAction"@ {
        Some((Study::Patrend, 0usize))
    } else if b == "ZigZag"@ {
        Some((Study::Zzline, 1usize))
    } else if b == "ComboMaster"@ {
        Some((Study::Trendmaster, 1usize))
    } else if b == "PaneConsensus"@ {
        Some((Study::Panemaster, 0usize))
    } else if b == "AutoTrendline"@ {
        Some((Study::Autotrend, 0usize))
    } else if b == "Pitchfork"@ {
        Some((Study::Pitchfork, 0usize))
    } else if b == "TrendProjection"@ {
        Some((Study::Projline, 0usize))
    } else if b == "GannFan"@ {
        Some((Study::Gant, 0usize))
    } else if b == "FibFan"@ {
        Some((Study::Fibt, 0usize))
    } else if b == "Srema"@ {
        Some((Study::Sremat, 0usize))
    } else if b == "Support"@ {
        Some((Study::Supline, 0usize))
    } else if b == "Resistance"@ {
        Some((Study::Resline, 0usize))
    } else {
        None
    }
}

/// The straight-line study behind a key part, with its output line.
pub fn sl_series(base: &str) -> (r: Option<(Study, usize)>)
    ensures
        r == straight_of(base@),
{
    if text::same(base, "ElliottWave") {
        Some((Study::Ewtrend, 0))
    } else if text::same(base, "SupplyDemand") {
        Some((Study::Ewtrend, 0))
    } else if text::same(base, "PriceAction") {
        Some((Study::Patrend, 0))
    } else if text::same(base, "ZigZag") {
        Some((Study::Zzline, 1))
    } else if text::same(base, "ComboMaster") {
        Some((Study::Trendmaster, 1))
    } else if text::same(base, "PaneConsensus") {
        Some((Study::Panemaster, 0))
    } else if text::same(base, "AutoTrendline") {
        Some((Study::Autotrend, 0))
    } else if text::same(base, "Pitchfork") {
        Some((Study::Pitchfork, 0))
    } else if text::same(base, "TrendProjection") {
        Some((Study::Projline, 0))
    } else if text::same(base, "GannFan") {
        Some((Study::Gant, 0))
    } else if text::same(base, "FibFan") {
        Some((Study::Fibt, 0))
    } else if text::same(base, "Srema") {
        Some((Study::Sremat, 0))
    } else if text::same(base, "Support") {
        Some((Study::Supline, 0))
    } else if text::same(base, "Resistance") {
        Some((Study::Resline, 0))
    } else {
        None
    }
}

/// The two integers that `a_b` writes; what follows a second underscore is ignored.
pub open spec fn pair_of(s: Seq<char>) -> Option<(i64, i64)> {
    let f = text::fields(s, '_');
    if f.len() >= 2 {
        match (text::int_value(f[0]), text::int_value(f[1])) {
            (Some(a), Some(b)) => Some((a as i64, b as i64)),
            _ => None,
        }
    } else {
        None
    }
}

/// The two integers that `a_b` writes.
pub fn parse_pair(s: &str) -> (r: Option<(i64, i64)>)
    ensures
        r == pair_of(s@),
{
    let f = text::split(s, '_');
    proof {
        assert(text::views(f@)[0] == f@[0]@);
        if f@.len() >= 2 {
            assert(text::views(f@)[1] == f@[1]@);
        }
    }
    let a: i64 = match text::parse_int(f[0].as_str()) {
        Some(a) => a,
        None => {
            return None;
        },
    };
    if f.len() < 2 {
        return None;
    }
    match text::parse_int(f[1].as_str()) {
        Some(b) => Some((a, b)),
        None => None,
    }
}

/// The exponential average of `n` bars; one bar or less is the close itself.
pub open spec fn average(n: i64) -> Curve {
    if n <= 1 {
        Curve::Close
    } else {
        Curve::Line { study: Study::Ema, setup: Setup::Length(n), line: 0 }
    }
}

/// The exponential average of `n` bars.
pub fn ema_curve(n: i64) -> (r: Curve)
    ensures
        r == average(n),
{
    if n <= 1 {
        Curve::Close
    } else {
        Curve::Line { study: Study::Ema, setup: Setup::Length(n), line: 0 }
    }
}

/// The rule of a key part that stands for itself.
pub open spec fn plain_rule(b: Seq<char>, bull: bool) -> Option<Rule> {
    if b == "IncUp"@ {
        Some(Rule::CloseMove { rising: true })
    } else if b == "IncDown"@ {
        Some(Rule::CloseMove { rising: false })
    } else if b == "IncUpAll"@ {
        Some(Rule::EmaStack { up: true })
    } else if b == "IncDownAll"@ {
        Some(Rule::EmaStack { up: false })
    } else if b == "GapUp"@ {
        Some(Rule::Gap { up: true })
    } else if b == "GapDown"@ {
        Some(Rule::Gap { up: false })
    } else if b == "PaneCrossUp"@ {
        Some(Rule::PaneCross { up: true })
    } else if b == "PaneCrossDown"@ {
        Some(Rule::PaneCross { up: false })
    } else if b == "PaneIncUpAll"@ {
        Some(Rule::PaneAll { bull: true })
    } else if b == "PaneIncDownAll"@ {
        Some(Rule::PaneAll { bull: false })
    } else if b == "MeetPaneCross"@ {
        Some(Rule::PaneLevel { bull })
    } else if b == "MeetCross"@ {
        Some(Rule::Level { a: Curve::Line { study: Study::Hma, setup: Setup::Length(20), line: 0 }, b: Curve::Line { study: Study::Hma, setup: Setup::Length(40), line: 0 }, bull })
    } else if b == "Asr"@ {
        Some(Rule::AutoSupport { bull })
    } else if b == "Oit"@ {
        Some(Rule::Dir { curve: Curve::Regime, bull, neutral: false })
    } else if b == "Candle"@ {
        Some(Rule::Pass)
    } else if b == "Elliott"@ {
        Some(Rule::Pass)
    } else if b == "Indicator"@ {
        Some(Rule::Pass)
    } else if b == "Pane"@ {
        Some(Rule::Pass)
    } else if b == "Symmetry"@ {
        Some(Rule::Pass)
    } else if b == "Structure"@ {
        Some(Rule::Pass)
    } else if b == "Atr"@ {
        Some(Rule::Pass)
    } else if b == "CrossUp"@ {
        Some(Rule::Cross { a: Curve::Close, b: Curve::Line { study: Study::Ema, setup: Setup::Length(9), line: 0 }, up: true })
    } else if b == "CrossDown"@ {
        Some(Rule::Cross { a: Curve::Close, b: Curve::Line { study: Study::Ema, setup: Setup::Length(9), line: 0 }, up: false })
    } else if b == "GtUp"@ {
        Some(Rule::Level { a: Curve::Close, b: Curve::Line { study: Study::Ema, setup: Setup::Length(9), line: 0 }, bull: true })
    } else if b == "GtDown"@ {
        Some(Rule::Level { a: Curve::Close, b: Curve::Line { study: Study::Ema, setup: Setup::Length(9), line: 0 }, bull: true })
    } else if b == "LtUp"@ {
        Some(Rule::Level { a: Curve::Close, b: Curve::Line { study: Study::Ema, setup: Setup::Length(9), line: 0 }, bull: false })
    } else if b == "LtDown"@ {
        Some(Rule::Level { a: Curve::Close, b: Curve::Line { study: Study::Ema, setup: Setup::Length(9), line: 0 }, bull: false })
    } else if b == "BbwInc"@ {
        Some(Rule::Dir { curve: Curve::Line { study: Study::Bbw, setup: Setup::Plain, line: 0 }, bull: true, neutral: false })
    } else if b == "Smf"@ {
        Some(Rule::Level { a: Curve::Line { study: Study::Smf, setup: Setup::Flow, line: 0 }, b: Curve::Line { study: Study::Smf, setup: Setup::Flow, line: 1 }, bull })
    } else if b == "VwapCloseCrossAbove"@ {
        Some(Rule::Cross { a: Curve::Close, b: Curve::Line { study: Study::Vwap, setup: Setup::Plain, line: 0 }, up: true })
    } else if b == "VwapCloseCrossBelow"@ {
        Some(Rule::Cross { a: Curve::Close, b: Curve::Line { study: Study::Vwap, setup: Setup::Plain, line: 0 }, up: false })
    } else if b == "MeetCloseVwap"@ {
        Some(Rule::Level { a: Curve::Close, b: Curve::Line { study: Study::Vwap, setup: Setup::Plain, line: 0 }, bull })
    } else if b == "PbrAo"@ {
        Some(Rule::Dir { curve: Curve::Line { study: Study::Ao, setup: Setup::Plain, line: 0 }, bull, neutral: false })
    } else if b == "PbrSmiio"@ {
        Some(Rule::Dir { curve: Curve::Line { study: Study::Smiio, setup: Setup::Plain, line: 0 }, bull, neutral: false })
    } else if b == "PbrDpo"@ {
        Some(Rule::Dir { curve: Curve::Line { study: Study::Dpo, setup: Setup::Plain, line: 0 }, bull, neutral: false })
    } else if b == "PbrMfi"@ {
        Some(Rule::Dir { curve: Curve::Line { study: Study::Mfi, setup: Setup::Plain, line: 0 }, bull, neutral: false })
    } else if b == "PbrUo"@ {
        Some(Rule::Dir { curve: Curve::Line { study: Study::Uo, setup: Setup::Plain, line: 0 }, bull, neutral: false })
    } else if b == "PbrWilliamsR"@ {
        Some(Rule::Dir { curve: Curve::Line { study: Study::WilliamsR, setup: Setup::Plain, line: 0 }, bull, neutral: false })
    } else if b == "PbrBbpct"@ {
        Some(Rule::Dir { curve: Curve::Line { study: Study::Bbpct, setup: Setup::Plain, line: 0 }, bull, neutral: false })
    } else if b == "PbrPvt"@ {
        Some(Rule::Dir { curve: Curve::Line { study: Study::Pvt, setup: Setup::Plain, line: 0 }, bull, neutral: false })
    } else if b == "PbrAd"@ {
        Some(Rule::Dir { curve: Curve::Line { study: Study::Ad, setup: Setup::Plain, line: 0 }, bull, neutral: false })
    } else if b == "PbrSmf"@ {
        Some(Rule::Dir { curve: Curve::Line { study: Study::Smf, setup: Setup::Plain, line: 0 }, bull, neutral: false })
    } else if b == "PbrCmf"@ {
        Some(Rule::Dir { curve: Curve::Line { study: Study::Cmf, setup: Setup::Plain, line: 0 }, bull, neutral: false })
    } else if b == "PbrCci"@ {
        Some(Rule::Dir { curve: Curve::Line { study: Study::Cci, setup: Setup::Plain, line: 0 }, bull, neutral: false })
    } else if b == "PbrSqzmom"@ {
        Some(Rule::Dir { curve: Curve::Line { study: Study::Sqzmom, setup: Setup::Plain, line: 0 }, bull, neutral: false })
    } else if b == "PbrElderforce"@ {
        Some(Rule::Pass)
    } else if b == "PbrBbwUp"@ {
        Some(Rule::Dir { curve: Curve::Line { study: Study::Bbw, setup: Setup::Plain, line: 0 }, bull: true, neutral: false })
    } else if b == "PbrAtrUp"@ {
        Some(Rule::Dir { curve: Curve::Line { study: Study::Atr, setup: Setup::Plain, line: 0 }, bull: true, neutral: false })
    } else if b == "PbrVoloscUp"@ {
        Some(Rule::Dir { curve: Curve::Line { study: Study::Volosc, setup: Setup::Plain, line: 0 }, bull: true, neutral: false })
    } else if b == "St1CloseCrossAbove"@ {
        Some(Rule::Cross { a: Curve::Close, b: Curve::Line { study: Study::Supertrend, setup: Setup::Trend(1), line: 0 }, up: true })
    } else if b == "St1CloseCrossBelow"@ {
        Some(Rule::Cross { a: Curve::Close, b: Curve::Line { study: Study::Supertrend, setup: Setup::Trend(1), line: 0 }, up: false })
    } else if b == "MeetCloseSt"@ {
        Some(Rule::Level { a: Curve::Close, b: Curve::Line { study: Study::Supertrend, setup: Setup::Trend(1), line: 0 }, bull })
    } else if b == "BbCrossAbove"@ {
        Some(Rule::CrossDir { b: Curve::Line { study: Study::Bb, setup: Setup::Bands, line: 0 }, mid: Curve::Line { study: Study::Bb, setup: Setup::Bands, line: 1 }, up: true })
    } else if b == "BbCrossBelow"@ {
        Some(Rule::CrossDir { b: Curve::Line { study: Study::Bb, setup: Setup::Bands, line: 0 }, mid: Curve::Line { study: Study::Bb, setup: Setup::Bands, line: 1 }, up: false })
    } else if b == "PcCrossAbove"@ {
        Some(Rule::CrossDir { b: Curve::ChannelMid, mid: Curve::ChannelMid, up: true })
    } else if b == "PcCrossBelow"@ {
        Some(Rule::CrossDir { b: Curve::ChannelMid, mid: Curve::ChannelMid, up: false })
    } else if b == "MeetCloseBb"@ {
        Some(Rule::Level { a: Curve::Close, b: Curve::Line { study: Study::Bb, setup: Setup::Bands, line: 1 }, bull })
    } else if b == "MeetClosePc"@ {
        Some(Rule::Level { a: Curve::Close, b: Curve::ChannelMid, bull })
    } else if b == "MeetVl"@ {
        Some(Rule::Level { a: Curve::Line { study: Study::Vl, setup: Setup::Flow, line: 0 }, b: Curve::Line { study: Study::Vl, setup: Setup::Flow, line: 1 }, bull })
    } else {
        None
    }
}

fn plain(base: &str, bull: bool) -> (r: Option<Rule>)
    ensures
        r == plain_rule(base@, bull),
{
    if text::same(base, "IncUp") {
        Some(Rule::CloseMove { rising: true })
    } else if text::same(base, "IncDown") {
        Some(Rule::CloseMove { rising: false })
    } else if text::same(base, "IncUpAll") {
        Some(Rule::EmaStack { up: true })
    } else if text::same(base, "IncDownAll") {
        Some(Rule::EmaStack { up: false })
    } else if text::same(base, "GapUp") {
        Some(Rule::Gap { up: true })
    } else if text::same(base, "GapDown") {
        Some(Rule::Gap { up: false })
    } else if text::same(base, "PaneCrossUp") {
        Some(Rule::PaneCross { up: true })
    } else if text::same(base, "PaneCrossDown") {
        Some(Rule::PaneCross { up: false })
    } else if text::same(base, "PaneIncUpAll") {
        Some(Rule::PaneAll { bull: true })
    } else if text::same(base, "PaneIncDownAll") {
        Some(Rule::PaneAll { bull: false })
    } else if text::same(base, "MeetPaneCross") {
        Some(Rule::PaneLevel { bull })
    } else if text::same(base, "MeetCross") {
        Some(Rule::Level { a: Curve::Line { study: Study::Hma, setup: Setup::Length(20), line: 0 }, b: Curve::Line { study: Study::Hma, setup: Setup::Length(40), line: 0 }, bull })
    } else if text::same(base, "Asr") {
        Some(Rule::AutoSupport { bull })
    } else if text::same(base, "Oit") {
        Some(Rule::Dir { curve: Curve::Regime, bull, neutral: false })
    } else if text::same(base, "Candle") {
        Some(Rule::Pass)
    } else if text::same(base, "Elliott") {
        Some(Rule::Pass)
    } else if text::same(base, "Indicator") {
        Some(Rule::Pass)
    } else if text::same(base, "Pane") {
        Some(Rule::Pass)
    } else if text::same(base, "Symmetry") {
        Some(Rule::Pass)
    } else if text::same(base, "Structure") {
        Some(Rule::Pass)
    } else if text::same(base, "Atr") {
        Some(Rule::Pass)
    } else if text::same(base, "CrossUp") {
        Some(Rule::Cross { a: Curve::Close, b: Curve::Line { study: Study::Ema, setup: Setup::Length(9), line: 0 }, up: true })
    } else if text::same(base, "CrossDown") {
        Some(Rule::Cross { a: Curve::Close, b: Curve::Line { study: Study::Ema, setup: Setup::Length(9), line: 0 }, up: false })
    } else if text::same(base, "GtUp") {
        Some(Rule::Level { a: Curve::Close, b: Curve::Line { study: Study::Ema, setup: Setup::Length(9), line: 0 }, bull: true })
    } else if text::same(base, "GtDown") {
        Some(Rule::Level { a: Curve::Close, b: Curve::Line { study: Study::Ema, setup: Setup::Length(9), line: 0 }, bull: true })
    } else if text::same(base, "LtUp") {
        Some(Rule::Level { a: Curve::Close, b: Curve::Line { study: Study::Ema, setup: Setup::Length(9), line: 0 }, bull: false })
    } else if text::same(base, "LtDown") {
        Some(Rule::Level { a: Curve::Close, b: Curve::Line { study: Study::Ema, setup: Setup::Length(9), line: 0 }, bull: false })
    } else if text::same(base, "BbwInc") {
        Some(Rule::Dir { curve: Curve::Line { study: Study::Bbw, setup: Setup::Plain, line: 0 }, bull: true, neutral: false })
    } else if text::same(base, "Smf") {
        Some(Rule::Level { a: Curve::Line { study: Study::Smf, setup: Setup::Flow, line: 0 }, b: Curve::Line { study: Study::Smf, setup: Setup::Flow, line: 1 }, bull })
    } else if text::same(base, "VwapCloseCrossAbove") {
        Some(Rule::Cross { a: Curve::Close, b: Curve::Line { study: Study::Vwap, setup: Setup::Plain, line: 0 }, up: true })
    } else if text::same(base, "VwapCloseCrossBelow") {
        Some(Rule::Cross { a: Curve::Close, b: Curve::Line { study: Study::Vwap, setup: Setup::Plain, line: 0 }, up: false })
    } else if text::same(base, "MeetCloseVwap") {
        Some(Rule::Level { a: Curve::Close, b: Curve::Line { study: Study::Vwap, setup: Setup::Plain, line: 0 }, bull })
    } else if text::same(base, "PbrAo") {
        Some(Rule::Dir { curve: Curve::Line { study: Study::Ao, setup: Setup::Plain, line: 0 }, bull, neutral: false })
    } else if text::same(base, "PbrSmiio") {
        Some(Rule::Dir { curve: Curve::Line { study: Study::Smiio, setup: Setup::Plain, line: 0 }, bull, neutral: false })
    } else if text::same(base, "PbrDpo") {
        Some(Rule::Dir { curve: Curve::Line { study: Study::Dpo, setup: Setup::Plain, line: 0 }, bull, neutral: false })
    } else if text::same(base, "PbrMfi") {
        Some(Rule::Dir { curve: Curve::Line { study: Study::Mfi, setup: Setup::Plain, line: 0 }, bull, neutral: false })
    } else if text::same(base, "PbrUo") {
        Some(Rule::Dir { curve: Curve::Line { study: Study::Uo, setup: Setup::Plain, line: 0 }, bull, neutral: false })
    } else if text::same(base, "PbrWilliamsR") {
        Some(Rule::Dir { curve: Curve::Line { study: Study::WilliamsR, setup: Setup::Plain, line: 0 }, bull, neutral: false })
    } else if text::same(base, "PbrBbpct") {
        Some(Rule::Dir { curve: Curve::Line { study: Study::Bbpct, setup: Setup::Plain, line: 0 }, bull, neutral: false })
    } else if text::same(base, "PbrPvt") {
        Some(Rule::Dir { curve: Curve::Line { study: Study::Pvt, setup: Setup::Plain, line: 0 }, bull, neutral: false })
    } else if text::same(base, "PbrAd") {
        Some(Rule::Dir { curve: Curve::Line { study: Study::Ad, setup: Setup::Plain, line: 0 }, bull, neutral: false })
    } else if text::same(base, "PbrSmf") {
        Some(Rule::Dir { curve: Curve::Line { study: Study::Smf, setup: Setup::Plain, line: 0 }, bull, neutral: false })
    } else if text::same(base, "PbrCmf") {
        Some(Rule::Dir { curve: Curve::Line { study: Study::Cmf, setup: Setup::Plain, line: 0 }, bull, neutral: false })
    } else if text::same(base, "PbrCci") {
        Some(Rule::Dir { curve: Curve::Line { study: Study::Cci, setup: Setup::Plain, line: 0 }, bull, neutral: false })
    } else if text::same(base, "PbrSqzmom") {
        Some(Rule::Dir { curve: Curve::Line { study: Study::Sqzmom, setup: Setup::Plain, line: 0 }, bull, neutral: false })
    } else if text::same(base, "PbrElderforce") {
        Some(Rule::Pass)
    } else if text::same(base, "PbrBbwUp") {
        Some(Rule::Dir { curve: Curve::Line { study: Study::Bbw, setup: Setup::Plain, line: 0 }, bull: true, neutral: false })
    } else if text::same(base, "PbrAtrUp") {
        Some(Rule::Dir { curve: Curve::Line { study: Study::Atr, setup: Setup::Plain, line: 0 }, bull: true, neutral: false })
    } else if text::same(base, "PbrVoloscUp") {
        Some(Rule::Dir { curve: Curve::Line { study: Study::Volosc, setup: Setup::Plain, line: 0 }, bull: true, neutral: false })
    } else if text::same(base, "St1CloseCrossAbove") {
        Some(Rule::Cross { a: Curve::Close, b: Curve::Line { study: Study::Supertrend, setup: Setup::Trend(1), line: 0 }, up: true })
    } else if text::same(base, "St1CloseCrossBelow") {
        Some(Rule::Cross { a: Curve::Close, b: Curve::Line { study: Study::Supertrend, setup: Setup::Trend(1), line: 0 }, up: false })
    } else if text::same(base, "MeetCloseSt") {
        Some(Rule::Level { a: Curve::Close, b: Curve::Line { study: Study::Supertrend, setup: Setup::Trend(1), line: 0 }, bull })
    } else if text::same(base, "BbCrossAbove") {
        Some(Rule::CrossDir { b: Curve::Line { study: Study::Bb, setup: Setup::Bands, line: 0 }, mid: Curve::Line { study: Study::Bb, setup: Setup::Bands, line: 1 }, up: true })
    } else if text::same(base, "BbCrossBelow") {
        Some(Rule::CrossDir { b: Curve::Line { study: Study::Bb, setup: Setup::Bands, line: 0 }, mid: Curve::Line { study: Study::Bb, setup: Setup::Bands, line: 1 }, up: false })
    } else if text::same(base, "PcCrossAbove") {
        Some(Rule::CrossDir { b: Curve::ChannelMid, mid: Curve::ChannelMid, up: true })
    } else if text::same(base, "PcCrossBelow") {
        Some(Rule::CrossDir { b: Curve::ChannelMid, mid: Curve::ChannelMid, up: false })
    } else if text::same(base, "MeetCloseBb") {
        Some(Rule::Level { a: Curve::Close, b: Curve::Line { study: Study::Bb, setup: Setup::Bands, line: 1 }, bull })
    } else if text::same(base, "MeetClosePc") {
        Some(Rule::Level { a: Curve::Close, b: Curve::ChannelMid, bull })
    } else if text::same(base, "MeetVl") {
        Some(Rule::Level { a: Curve::Line { study: Study::Vl, setup: Setup::Flow, line: 0 }, b: Curve::Line { study: Study::Vl, setup: Setup::Flow, line: 1 }, bull })
    } else {
        None
    }
}

/// The rule of a momentum-gap key part.
pub open spec fn momentum_rule(b: Seq<char>, bull: bool) -> Rule {
    if b == "Macd"@ {
        Rule::Level { a: Curve::Line { study: Study::Macd, setup: Setup::Plain, line: 0 }, b: Curve::Line { study: Study::Macd, setup: Setup::Plain, line: 1 }, bull }
    } else if b == "Ppo"@ {
        Rule::Level { a: Curve::Line { study: Study::Ppo, setup: Setup::Plain, line: 0 }, b: Curve::Line { study: Study::Ppo, setup: Setup::Plain, line: 1 }, bull }
    } else if b == "Stochrsi"@ {
        Rule::Level { a: Curve::Line { study: Study::Stochrsi, setup: Setup::Plain, line: 0 }, b: Curve::Line { study: Study::Stochrsi, setup: Setup::Plain, line: 1 }, bull }
    } else if b == "Tsi"@ {
        Rule::Signal { study: Study::Tsi, smooth: Smooth::Ema(13), bull }
    } else if b == "Rsi"@ {
        Rule::Signal { study: Study::Rsi, smooth: Smooth::Ema(9), bull }
    } else if b == "Obv"@ {
        Rule::Signal { study: Study::Obv, smooth: Smooth::Sma(30), bull }
    } else if b == "Fisher"@ {
        Rule::Signal { study: Study::Fisher, smooth: Smooth::Ema(3), bull }
    } else if b == "Smiio"@ {
        Rule::ErgodicHold { bull }
    } else if b == "Smf"@ {
        Rule::Hold { study: Study::Smf, setup: Setup::Plain, bull }
    } else if b == "Aroon"@ {
        Rule::Hold { study: Study::Aroon, setup: Setup::Length(25), bull }
    } else if b == "Vortex"@ {
        Rule::VortexHold { bull }
    } else if b == "Adx"@ {
        Rule::AdxHold { bull }
    } else {
        Rule::Unknown
    }
}

fn momentum(base: &str, bull: bool) -> (r: Rule)
    ensures
        r == momentum_rule(base@, bull),
{
    if text::same(base, "Macd") {
        Rule::Level { a: Curve::Line { study: Study::Macd, setup: Setup::Plain, line: 0 }, b: Curve::Line { study: Study::Macd, setup: Setup::Plain, line: 1 }, bull }
    } else if text::same(base, "Ppo") {
        Rule::Level { a: Curve::Line { study: Study::Ppo, setup: Setup::Plain, line: 0 }, b: Curve::Line { study: Study::Ppo, setup: Setup::Plain, line: 1 }, bull }
    } else if text::same(base, "Stochrsi") {
        Rule::Level { a: Curve::Line { study: Study::Stochrsi, setup: Setup::Plain, line: 0 }, b: Curve::Line { study: Study::Stochrsi, setup: Setup::Plain, line: 1 }, bull }
    } else if text::same(base, "Tsi") {
        Rule::Signal { study: Study::Tsi, smooth: Smooth::Ema(13), bull }
    } else if text::same(base, "Rsi") {
        Rule::Signal { study: Study::Rsi, smooth: Smooth::Ema(9), bull }
    } else if text::same(base, "Obv") {
        Rule::Signal { study: Study::Obv, smooth: Smooth::Sma(30), bull }
    } else if text::same(base, "Fisher") {
        Rule::Signal { study: Study::Fisher, smooth: Smooth::Ema(3), bull }
    } else if text::same(base, "Smiio") {
        Rule::ErgodicHold { bull }
    } else if text::same(base, "Smf") {
        Rule::Hold { study: Study::Smf, setup: Setup::Plain, bull }
    } else if text::same(base, "Aroon") {
        Rule::Hold { study: Study::Aroon, setup: Setup::Length(25), bull }
    } else if text::same(base, "Vortex") {
        Rule::VortexHold { bull }
    } else if text::same(base, "Adx") {
        Rule::AdxHold { bull }
    } else {
        Rule::Unknown
    }
}

/// The study's constant-slope fit turns on the swing structure, not on its own slope.
pub open spec fn swing_study(b: Seq<char>) -> bool {
    ||| b == "Srema"@
    ||| b == "AutoTrendline"@
    ||| b == "Pitchfork"@
    ||| b == "TrendProjection"@
    ||| b == "GannFan"@
    ||| b == "FibFan"@
    ||| b == "Support"@
    ||| b == "Resistance"@
}

/// The rule of an arrow key part: a fresh turn of the named study.
pub open spec fn arrow_rule(b: Seq<char>, bull: bool) -> Rule {
    if b == "Consensus"@ {
        Rule::VoteTurn { bull }
    } else if b == "Oit"@ {
        Rule::Turn { curve: Curve::Regime, bull }
    } else if swing_study(b) {
        Rule::Swing { bull }
    } else if b == "TrendCore"@ {
        Rule::Turn {
            curve: Curve::Line { study: Study::Vlcore, setup: Setup::Plain, line: 0 },
            bull,
        }
    } else if b == "Vl"@ {
        Rule::Turn { curve: Curve::Line { study: Study::Vl, setup: Setup::Plain, line: 0 }, bull }
    } else {
        match straight_of(b) {
            Some((study, line)) => Rule::Turn {
                curve: Curve::Line { study, setup: Setup::Plain, line },
                bull,
            },
            None => Rule::Unknown,
        }
    }
}

/// The rule of an arrow key part.
pub fn arrow_gate(rest: &str, bull: bool) -> (r: Rule)
    ensures
        r == arrow_rule(rest@, bull),
{
    if text::same(rest, "Consensus") {
        return Rule::VoteTurn { bull };
    }
    if text::same(rest, "Oit") {
        return Rule::Turn { curve: Curve::Regime, bull };
    }
    if text::same(rest, "Srema")
        || text::same(rest, "AutoTrendline")
        || text::same(rest, "Pitchfork")
        || text::same(rest, "TrendProjection")
        || text::same(rest, "GannFan")
        || text::same(rest, "FibFan")
        || text::same(rest, "Support")
        || text::same(rest, "Resistance") {
        return Rule::Swing { bull };
    }
    if text::same(rest, "TrendCore") {
        return Rule::Turn {
            curve: Curve::Line { study: Study::Vlcore, setup: Setup::Plain, line: 0 },
            bull,
        };
    }
    if text::same(rest, "Vl") {
        return Rule::Turn {
            curve: Curve::Line { study: Study::Vl, setup: Setup::Plain, line: 0 },
            bull,
        };
    }
    match sl_series(rest) {
        Some((study, line)) => Rule::Turn {
            curve: Curve::Line { study, setup: Setup::Plain, line },
            bull,
        },
        None => Rule::Unknown,
    }
}

/// The rule of a moving-average key part: `MeetEma a_b` is a level, `EmaTrend n`
/// a direction, `Ema a_b` a cross.
pub open spec fn average_rule(b: Seq<char>, bull: bool) -> Rule {
    match text::after(b, "Meet"@) {
        Some(rest) => match text::after(rest, "Ema"@) {
            Some(p) => match pair_of(p) {
                Some((x, y)) => Rule::Level { a: average(x), b: average(y), bull },
                None => Rule::Unknown,
            },
            None => Rule::Unknown,
        },
        None => match text::after(b, "EmaTrend"@) {
            Some(rest) => match text::int_value(rest) {
                Some(n) => Rule::Dir { curve: average(n as i64), bull, neutral: false },
                None => Rule::Unknown,
            },
            None => match text::after(b, "Ema"@) {
                Some(rest) => match pair_of(rest) {
                    Some((x, y)) => Rule::Cross { a: average(x), b: average(y), up: bull },
                    None => Rule::Unknown,
                },
                None => Rule::Unknown,
            },
        },
    }
}

/// The rule of a moving-average key part.
pub fn ema_family(base: &str, bull: bool) -> (r: Rule)
    ensures
        r == average_rule(base@, bull),
{
    if let Some(rest) = text::strip_prefix(base, "Meet") {
        return match text::strip_prefix(rest.as_str(), "Ema") {
            Some(p) => match parse_pair(p.as_str()) {
                Some((x, y)) => Rule::Level { a: ema_curve(x), b: ema_curve(y), bull },
                None => Rule::Unknown,
            },
            None => Rule::Unknown,
        };
    }
    if let Some(rest) = text::strip_prefix(base, "EmaTrend") {
        return match text::parse_int(rest.as_str()) {
            Some(n) => Rule::Dir { curve: ema_curve(n), bull, neutral: false },
            None => Rule::Unknown,
        };
    }
    if let Some(rest) = text::strip_prefix(base, "Ema") {
        if let Some((x, y)) = parse_pair(rest.as_str()) {
            return Rule::Cross { a: ema_curve(x), b: ema_curve(y), up: bull };
        }
    }
    Rule::Unknown
}

/// A super-trend line of the factor `f`.
pub open spec fn trend_line(f: i64) -> Curve {
    Curve::Line { study: Study::Supertrend, setup: Setup::Trend(f), line: 0 }
}

fn trend_curve(f: i64) -> (r: Curve)
    ensures
        r == trend_line(f),
{
    Curve::Line { study: Study::Supertrend, setup: Setup::Trend(f), line: 0 }
}

/// The rule of a straight-line key part. An undrawn line passes.
pub open spec fn straight_rule(b: Seq<char>, bull: bool) -> Rule {
    if b == "Consensus"@ {
        Rule::Vote { bull }
    } else if b == "Support"@ {
        Rule::Dir {
            curve: Curve::Line { study: Study::Supline, setup: Setup::Support, line: 0 },
            bull,
            neutral: true,
        }
    } else if b == "Resistance"@ {
        Rule::Dir {
            curve: Curve::Line { study: Study::Resline, setup: Setup::Resistance, line: 0 },
            bull,
            neutral: true,
        }
    } else {
        match straight_of(b) {
            Some((study, line)) => Rule::Dir {
                curve: Curve::Line { study, setup: Setup::Plain, line },
                bull,
                neutral: true,
            },
            None => Rule::Unknown,
        }
    }
}

fn straight(rest: &str, bull: bool) -> (r: Rule)
    ensures
        r == straight_rule(rest@, bull),
{
    if text::same(rest, "Consensus") {
        return Rule::Vote { bull };
    }
    if text::same(rest, "Support") {
        return Rule::Dir {
            curve: Curve::Line { study: Study::Supline, setup: Setup::Support, line: 0 },
            bull,
            neutral: true,
        };
    }
    if text::same(rest, "Resistance") {
        return Rule::Dir {
            curve: Curve::Line { study: Study::Resline, setup: Setup::Resistance, line: 0 },
            bull,
            neutral: true,
        };
    }
    match sl_series(rest) {
        Some((study, line)) => Rule::Dir {
            curve: Curve::Line { study, setup: Setup::Plain, line },
            bull,
            neutral: true,
        },
        None => Rule::Unknown,
    }
}

/// The pair of factors behind a super-trend prefix.
pub open spec fn factors(b: Seq<char>, prefix: Seq<char>) -> Option<(i64, i64)> {
    match text::after(b, prefix) {
        Some(rest) => pair_of(rest),
        None => None,
    }
}

fn factor_pair(base: &str, prefix: &str) -> (r: Option<(i64, i64)>)
    ensures
        r == factors(base@, prefix@),
{
    match text::strip_prefix(base, prefix) {
        Some(rest) => parse_pair(rest.as_str()),
        None => None,
    }
}

/// The rule of a key part that belongs to a family of keys.
pub open spec fn family_rule(b: Seq<char>, bull: bool) -> Rule {
    if text::begins(b, "Arrow"@) {
        arrow_rule(text::after(b, "Arrow"@)->0, bull)
    } else if factors(b, "St10_"@) is Some {
        let p = factors(b, "St10_"@)->0;
        Rule::Cross { a: trend_line(p.0), b: trend_line(p.1), up: bull }
    } else if factors(b, "MeetSt10_"@) is Some {
        let p = factors(b, "MeetSt10_"@)->0;
        Rule::Level { a: trend_line(p.0), b: trend_line(p.1), bull }
    } else if text::begins(b, "Obr"@) {
        match overlay_of(text::after(b, "Obr"@)->0) {
            Some((study, line)) => Rule::Dir {
                curve: Curve::Line { study, setup: Setup::Plain, line },
                bull,
                neutral: false,
            },
            None => Rule::Unknown,
        }
    } else if text::begins(b, "MeetOvl"@) {
        match overlay_of(text::after(b, "MeetOvl"@)->0) {
            Some((study, line)) => Rule::Level {
                a: Curve::Close,
                b: Curve::Line { study, setup: Setup::Plain, line },
                bull,
            },
            None => Rule::Unknown,
        }
    } else if text::begins(b, "Sl"@) {
        straight_rule(text::after(b, "Sl"@)->0, bull)
    } else if b == "Vl"@ {
        Rule::Dir {
            curve: Curve::Line { study: Study::Vl, setup: Setup::Plain, line: 0 },
            bull,
            neutral: false,
        }
    } else if text::begins(b, "Pbg"@) {
        momentum_rule(text::after(b, "Pbg"@)->0, bull)
    } else {
        average_rule(b, bull)
    }
}

fn family(base: &str, bull: bool) -> (r: Rule)
    ensures
        r == family_rule(base@, bull),
{
    if let Some(rest) = text::strip_prefix(base, "Arrow") {
        return arrow_gate(rest.as_str(), bull);
    }
    if let Some((lo, hi)) = factor_pair(base, "St10_") {
        return Rule::Cross { a: trend_curve(lo), b: trend_curve(hi), up: bull };
    }
    if let Some((lo, hi)) = factor_pair(base, "MeetSt10_") {
        return Rule::Level { a: trend_curve(lo), b: trend_curve(hi), bull };
    }
    if let Some(rest) = text::strip_prefix(base, "Obr") {
        return match overlay_series(rest.as_str()) {
            Some((study, line)) => Rule::Dir {
                curve: Curve::Line { study, setup: Setup::Plain, line },
                bull,
                neutral: false,
            },
            None => Rule::Unknown,
        };
    }
    if let Some(rest) = text::strip_prefix(base, "MeetOvl") {
        return match overlay_series(rest.as_str()) {
            Some((study, line)) => Rule::Level {
                a: Curve::Close,
                b: Curve::Line { study, setup: Setup::Plain, line },
                bull,
            },
            None => Rule::Unknown,
        };
    }
    if let Some(rest) = text::strip_prefix(base, "Sl") {
        return straight(rest.as_str(), bull);
    }
    if text::same(base, "Vl") {
        return Rule::Dir {
            curve: Curve::Line { study: Study::Vl, setup: Setup::Plain, line: 0 },
            bull,
            neutral: false,
        };
    }
    if let Some(rest) = text::strip_prefix(base, "Pbg") {
        return momentum(rest.as_str(), bull);
    }
    ema_family(base, bull)
}

/// The side a key names and the part behind it; a key that names no side is
/// read as bullish.
pub open spec fn sided(k: Seq<char>) -> (bool, Seq<char>) {
    if text::begins(k, "Bull"@) {
        (true, text::after(k, "Bull"@)->0)
    } else if text::begins(k, "Bear"@) {
        (false, text::after(k, "Bear"@)->0)
    } else {
        (true, k)
    }
}

/// The rule a filter key stands for.
pub open spec fn rule_for(k: Seq<char>) -> Rule {
    let (bull, b) = sided(k);
    match plain_rule(b, bull) {
        Some(rule) => rule,
        None => family_rule(b, bull),
    }
}

/// The rule a filter key stands for.
pub fn rule_of(key: &str) -> (r: Rule)
    ensures
        r == rule_for(key@),
{
    let (bull, base) = if let Some(b) = text::strip_prefix(key, "Bull") {
        (true, b)
    } else if let Some(b) = text::strip_prefix(key, "Bear") {
        (false, b)
    } else {
        (true, key.to_owned())
    };
    match plain(base.as_str(), bull) {
        Some(rule) => rule,
        None => family(base.as_str(), bull),
    }
}

/// The pane pairs: study, main line, signal line.
pub open spec fn pane_pairs() -> Seq<(Study, usize, usize)> {
    seq![(Study::Macd, 0usize, 1usize), (Study::Ppo, 0usize, 1usize), (Study::Smiio, 0usize, 1usize), (Study::Stochrsi, 0usize, 1usize), (Study::Aroon, 0usize, 1usize), (Study::Vortex, 0usize, 1usize), (Study::Adx, 1usize, 2usize)]
}

/// The pane pairs: study, main line, signal line.
pub fn pane_pair_list() -> (r: Vec<(Study, usize, usize)>)
    ensures
        r@ == pane_pairs(),
{
    vec![(Study::Macd, 0, 1), (Study::Ppo, 0, 1), (Study::Smiio, 0, 1), (Study::Stochrsi, 0, 1), (Study::Aroon, 0, 1), (Study::Vortex, 0, 1), (Study::Adx, 1, 2)]
}

/// The pane studies whose every line is walked on top of the pairs.
pub open spec fn pane_singles() -> Seq<Study> {
    seq![Study::Ao, Study::Smiio, Study::Dpo, Study::Mfi, Study::Uo, Study::WilliamsR, Study::Bbpct, Study::Pvt, Study::Ad, Study::Smf, Study::Cmf, Study::Cci, Study::Sqzmom, Study::Rsi, Study::Obv, Study::Fisher, Study::Tsi]
}

/// The pane studies whose every line is walked on top of the pairs.
pub fn pane_single_list() -> (r: Vec<Study>)
    ensures
        r@ == pane_singles(),
{
    vec![Study::Ao, Study::Smiio, Study::Dpo, Study::Mfi, Study::Uo, Study::WilliamsR, Study::Bbpct, Study::Pvt, Study::Ad, Study::Smf, Study::Cmf, Study::Cci, Study::Sqzmom, Study::Rsi, Study::Obv, Study::Fisher, Study::Tsi]
}

} // verus!
