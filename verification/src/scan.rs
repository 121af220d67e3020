//! The signal scan: which strategies run, on which charts, and when a signal
//! becomes an entry.

use vstd::prelude::*;
use crate::gate;
use crate::limits::OrderTimes;
use crate::limits;
use crate::model;
use crate::model::{Settings, Strategy};
use crate::orders;
use crate::routing;
use crate::routing::StratCat;
use crate::sides;
use crate::sides::Dirs;
use crate::text;
use crate::textmap::TextMap;

verus! {

/// The strategy belongs to the run set: built by a scanner exactly in filter
/// mode; enabled, ticked by hand or picked; and in scope of the research groups.
pub open spec fn runs(
    s: Strategy,
    settings: Settings,
    selected: Map<Seq<char>, bool>,
    picked: Seq<Seq<char>>,
) -> bool {
    &&& s.synthetic == settings.filter_mode
    &&& (s.enabled || (settings.call_manual && selected.contains_key(s.id@) && selected[s.id@])
        || picked.contains(s.id@))
    &&& gate::in_scope(settings.filters.items(), s.group@, model::bullish(s))
}

/// Whether a strategy belongs to the run set.
pub fn in_run(
    s: &Strategy,
    settings: &Settings,
    selected: &TextMap<bool>,
    picked: &Vec<String>,
) -> (r: bool)
    ensures
        r == runs(*s, *settings, selected@, text::views(picked@)),
{
    if s.synthetic != settings.filter_mode {
        return false;
    }
    let ticked = match selected.get(s.id.as_str()) {
        Some(b) => *b,
        None => false,
    };
    let chosen = s.enabled || (settings.call_manual && ticked) || text::list_has(
        picked,
        s.id.as_str(),
    );
    chosen && gate::stream_allows(&settings.filters, s)
}

/// The strategy can be scanned: it runs, names an instrument and has an entry
/// rule of its own or is built by a scanner.
pub open spec fn scannable(
    s: Strategy,
    conditions: nat,
    settings: Settings,
    selected: Map<Seq<char>, bool>,
    picked: Seq<Seq<char>>,
) -> bool {
    runs(s, settings, selected, picked) && s.security_id > 0 && (conditions > 0 || s.synthetic)
}

/// Whether a strategy can be scanned.
pub fn is_scannable(
    s: &Strategy,
    conditions: usize,
    settings: &Settings,
    selected: &TextMap<bool>,
    picked: &Vec<String>,
) -> (r: bool)
    ensures
        r == scannable(*s, conditions as nat, *settings, selected@, text::views(picked@)),
{
    in_run(s, settings, selected, picked) && s.security_id > 0 && (conditions > 0 || s.synthetic)
}

/// How many of the first `n` strategies can be scanned.
pub open spec fn scannable_count(
    ss: Seq<Strategy>,
    conditions: Seq<usize>,
    settings: Settings,
    selected: Map<Seq<char>, bool>,
    picked: Seq<Seq<char>>,
    n: int,
) -> nat
    decreases n,
{
    if n <= 0 {
        0
    } else {
        scannable_count(ss, conditions, settings, selected, picked, n - 1) + (if scannable(
            ss[n - 1],
            conditions[n - 1] as nat,
            settings,
            selected,
            picked,
        ) {
            1nat
        } else {
            0nat
        })
    }
}

/// How many strategies can be scanned, and whether there is nothing to trade:
/// none of them and no scanner that would build one.
pub fn eligible(
    ss: &Vec<Strategy>,
    conditions: &Vec<usize>,
    settings: &Settings,
    selected: &TextMap<bool>,
    picked: &Vec<String>,
) -> (r: (usize, bool))
    requires
        ss@.len() == conditions@.len(),
    ensures
        r.0 == scannable_count(
            ss@,
            conditions@,
            *settings,
            selected@,
            text::views(picked@),
            ss@.len() as int,
        ),
        r.1 == (r.0 == 0 && !settings.movers_on && !settings.commodity_on),
{
    let mut n: usize = 0;
    let mut i: usize = 0;
    while i < ss.len()
        invariant
            i <= ss.len(),
            n <= i,
            ss@.len() == conditions@.len(),
            n == scannable_count(
                ss@,
                conditions@,
                *settings,
                selected@,
                text::views(picked@),
                i as int,
            ),
        decreases ss.len() - i,
    {
        if is_scannable(&ss[i], conditions[i], settings, selected, picked) {
            n += 1;
        }
        i += 1;
    }
    (n, n == 0 && !settings.movers_on && !settings.commodity_on)
}

/// Normal mode and filter mode never run the same strategy.
pub proof fn law_run_modes_exclude(
    s: Strategy,
    normal: Settings,
    filters: Settings,
    selected: Map<Seq<char>, bool>,
    picked: Seq<Seq<char>>,
)
    requires
        !normal.filter_mode,
        filters.filter_mode,
    ensures
        !(runs(s, normal, selected, picked) && runs(s, filters, selected, picked)),
{
}

/// The bar size a strategy is scanned at, and the one that confirms it.
pub fn scan_timeframes(settings: &Settings, strat: &Strategy) -> (r: (String, Option<String>))
    ensures
        ({
            let multi = settings.mtf && settings.tf_1min && settings.tf_5min;
            &&& (r.0)@ == if multi {
                "1min"@
            } else {
                routing::strategy_tf(*settings, routing::own_tf(strat.timeframe@))
            }
            &&& r.1 is Some == multi
            &&& r.1 is Some ==> (r.1->0)@ == "5min"@
        }),
{
    if settings.mtf {
        if let Some((entry, trend)) = routing::mtf_pair(settings) {
            return (entry, Some(trend));
        }
    }
    (routing::engine_tf(settings, strat), None)
}

/// The candle value a fast strategy executes on; the close where none is set.
pub fn exec_field(setting: &str) -> (r: String)
    ensures
        r@ == if text::trimmed(setting@).len() == 0 {
            "close"@
        } else {
            setting@
        },
{
    let t = text::trim(setting);
    if text::chars_of(t.as_str()).len() == 0 {
        "close".to_owned()
    } else {
        setting.to_owned()
    }
}

/// When each strategy was last evaluated.
pub struct Signals {
    pub last: TextMap<i64>,
}

/// When a strategy was last evaluated; zero for never.
pub open spec fn evaluated(m: Map<Seq<char>, i64>, id: Seq<char>) -> int {
    if m.contains_key(id) {
        m[id] as int
    } else {
        0
    }
}

/// A strategy is evaluated: outside fast mode only without an open position, and
/// at most every hundred milliseconds.
pub open spec fn may_start(
    m: Map<Seq<char>, i64>,
    id: Seq<char>,
    hft: bool,
    running: nat,
    now: int,
) -> bool {
    (hft || running == 0) && now - evaluated(m, id) >= 100
}

/// A strategy is never evaluated twice within a hundred milliseconds, and outside
/// fast mode never while it holds a position.
pub proof fn law_evaluations_are_spaced(
    m: Map<Seq<char>, i64>,
    id: Seq<char>,
    hft: bool,
    running: nat,
    now: i64,
    later: i64,
)
    requires
        later - now < 100,
    ensures
        !may_start(m.insert(id, now), id, hft, running, later as int),
        running > 0 ==> !may_start(m, id, false, running, now as int),
{
}

impl Signals {
    /// Every recorded time is a time since the epoch.
    pub open spec fn wf(self) -> bool {
        forall|k: Seq<char>| #[trigger] self.last@.contains_key(k) ==> self.last@[k] >= 0
    }

    /// Nothing evaluated yet.
    pub fn new() -> (r: Self)
        ensures
            r.wf(),
            r.last@ == Map::<Seq<char>, i64>::empty(),
    {
        Signals { last: TextMap::new() }
    }

    /// Whether the strategy is evaluated now: outside fast mode only without an
    /// open position, and at most every hundred milliseconds. A granted
    /// evaluation is noted.
    pub fn start(&mut self, id: &str, hft: bool, running: usize, now: i64) -> (r: bool)
        requires
            old(self).wf(),
            now >= 0,
        ensures
            final(self).wf(),
            r == may_start(old(self).last@, id@, hft, running as nat, now as int),
            final(self).last@ == if r {
                old(self).last@.insert(id@, now)
            } else {
                old(self).last@
            },
    {
        if !hft && running > 0 {
            return false;
        }
        let last: i64 = match self.last.get(id) {
            Some(t) => *t,
            None => 0,
        };
        if now - last < 100 {
            return false;
        }
        self.last.insert(id.to_owned(), now);
        assert forall|k: Seq<char>| #[trigger] self.last@.contains_key(k) implies self.last@[k]
            >= 0 by {
            if k != id@ {
                assert(old(self).last@.contains_key(k));
            }
        }
        true
    }
}

/// The overall direction blocks the strategy: it is on, a side is active, and
/// the strategy trades the other one.
pub open spec fn overall_blocks(settings: Settings, d: Dirs, bull: bool) -> bool {
    settings.overall_dir && sides::active(settings, d) is Some && bull != (sides::active(
        settings,
        d,
    )->0 == "CE"@)
}

/// Whether the overall direction blocks a strategy.
pub fn overall_direction_blocks(settings: &Settings, d: Dirs, strat: &Strategy) -> (r: bool)
    ensures
        r == overall_blocks(*settings, d, model::bullish(*strat)),
{
    if !settings.overall_dir {
        return false;
    }
    match sides::active_side(settings, d) {
        Some(side) => model::strategy_is_bull(strat) != text::same(side, "CE"),
        None => false,
    }
}

/// With the overall direction on, a strategy that is let through trades the side
/// that the executed contract will have.
pub proof fn law_overall_direction_matches_leg(settings: Settings, d: Dirs, bull: bool)
    requires
        settings.overall_dir,
        !overall_blocks(settings, d, bull),
    ensures
        sides::desired(settings, d, bull) == (if bull {
            "CE"@
        } else {
            "PE"@
        }),
{
    reveal_strlit("CE");
    reveal_strlit("PE");
    assert("CE"@[0] == 'C' && "PE"@[0] == 'P');
}

/// The charts a run mode evaluates: the spot chart and the premium chart.
pub open spec fn charts(mode: Seq<char>) -> (bool, bool) {
    (mode != "premium"@, mode != "spot"@ && mode != "futures"@)
}

/// The charts a run mode evaluates.
pub fn wanted_charts(mode: &str) -> (r: (bool, bool))
    ensures
        r == charts(mode@),
{
    (!text::same(mode, "premium"), !text::one_of(mode, "spot", "futures"))
}

/// Every mode evaluates some chart.
pub proof fn law_some_chart_is_read(mode: Seq<char>)
    ensures
        charts(mode).0 || charts(mode).1,
{
    reveal_strlit("premium");
    reveal_strlit("spot");
    reveal_strlit("futures");
    assert("premium"@.len() == 7 && "spot"@.len() == 4 && "futures"@.len() == 7);
    assert("premium"@[0] == 'p' && "futures"@[0] == 'f');
}

/// What follows when the charts of a strategy were gathered.
#[derive(Clone, Copy, Debug, PartialEq, Eq, Structural)]
pub enum ChartStep {
    /// They are evaluated.
    Evaluate,
    /// They are evaluated, though the premium chart of a dual run is missing.
    EvaluateSpotOnly,
    /// There is no premium chart and nothing else to evaluate.
    SkipNoPremium,
    /// There is nothing to evaluate.
    SkipEmpty,
}

/// What follows when the premium chart was found or not.
pub open spec fn chart_outcome(mode: Seq<char>, premium_found: bool) -> ChartStep {
    let (spot, premium) = charts(mode);
    if premium && !premium_found {
        if mode == "premium"@ {
            ChartStep::SkipNoPremium
        } else if mode == "both"@ {
            ChartStep::EvaluateSpotOnly
        } else if spot {
            ChartStep::Evaluate
        } else {
            ChartStep::SkipEmpty
        }
    } else {
        ChartStep::Evaluate
    }
}

/// What follows when the premium chart was found or not.
pub fn chart_step(mode: &str, premium_found: bool) -> (r: ChartStep)
    ensures
        r == chart_outcome(mode@, premium_found),
{
    let (spot, premium) = wanted_charts(mode);
    if premium && !premium_found {
        if text::same(mode, "premium") {
            return ChartStep::SkipNoPremium;
        }
        if text::same(mode, "both") {
            return ChartStep::EvaluateSpotOnly;
        }
        if !spot {
            return ChartStep::SkipEmpty;
        }
    }
    ChartStep::Evaluate
}

/// What was found on one chart.
#[derive(Clone, Copy, Debug, PartialEq, Eq, Structural)]
pub struct LegCheck {
    /// The strategy's own conditions hold.
    pub conditions: bool,
    /// The filter gate is open.
    pub gate: bool,
    /// The direction guard objects.
    pub opposite: bool,
    /// The filter gate was open one bar earlier too.
    pub gate_before: bool,
}

/// The chart lets the entry pass. Scanner-built strategies have no conditions of
/// their own; a fresh-meet rule wants the entry gate to have opened just now.
pub open spec fn leg_passes(synthetic: bool, fresh_meet: bool, c: LegCheck) -> bool {
    (synthetic || c.conditions) && c.gate && !c.opposite && !(fresh_meet && c.gate_before)
}

/// Whether a chart lets the entry pass.
pub fn leg_ok(synthetic: bool, fresh_meet: bool, c: LegCheck) -> (r: bool)
    ensures
        r == leg_passes(synthetic, fresh_meet, c),
{
    (synthetic || c.conditions) && c.gate && !c.opposite && !(fresh_meet && c.gate_before)
}

/// Whether every chart lets the entry pass.
pub fn all_legs_ok(synthetic: bool, fresh_meet: bool, checks: &Vec<LegCheck>) -> (r: bool)
    ensures
        r == forall|i: int|
            0 <= i < checks@.len() ==> leg_passes(synthetic, fresh_meet, #[trigger] checks@[i]),
{
    let mut i: usize = 0;
    while i < checks.len()
        invariant
            i <= checks.len(),
            forall|k: int|
                0 <= k < i ==> leg_passes(synthetic, fresh_meet, #[trigger] checks@[k]),
        decreases checks.len() - i,
    {
        if !leg_ok(synthetic, fresh_meet, checks[i]) {
            assert(!leg_passes(synthetic, fresh_meet, checks@[i as int]));
            return false;
        }
        i += 1;
    }
    true
}

/// Whether every chart confirms on the higher timeframe; a chart that could not
/// be read does not.
pub fn trend_legs_ok(synthetic: bool, checks: &Vec<Option<LegCheck>>) -> (r: bool)
    ensures
        r == forall|i: int|
            0 <= i < checks@.len() ==> (#[trigger] checks@[i]) is Some && leg_passes(
                synthetic,
                false,
                checks@[i]->0,
            ),
{
    let mut i: usize = 0;
    while i < checks.len()
        invariant
            i <= checks.len(),
            forall|k: int|
                0 <= k < i ==> (#[trigger] checks@[k]) is Some && leg_passes(
                    synthetic,
                    false,
                    checks@[k]->0,
                ),
        decreases checks.len() - i,
    {
        match checks[i] {
            Some(c) => {
                if !leg_ok(synthetic, false, c) {
                    assert(!leg_passes(synthetic, false, checks@[i as int]->0));
                    return false;
                }
            },
            None => {
                assert(checks@[i as int] is None);
                return false;
            },
        }
        i += 1;
    }
    true
}

/// The fresh-meet rule only ever narrows what passes.
pub proof fn law_fresh_meet_only_narrows(synthetic: bool, c: LegCheck)
    ensures
        leg_passes(synthetic, true, c) ==> leg_passes(synthetic, false, c),
{
}

/// The chart is an option premium.
pub open spec fn premium_chart(s: Strategy) -> bool {
    text::downs(s.instrument@) == "optidx"@ || text::downs(s.exchange_segment@) == "nse_fno"@
}

fn is_premium_chart(s: &Strategy) -> (r: bool)
    ensures
        r == premium_chart(*s),
{
    let i = text::to_ascii_lower(s.instrument.as_str());
    if text::same(i.as_str(), "optidx") {
        return true;
    }
    let e = text::to_ascii_lower(s.exchange_segment.as_str());
    text::same(e.as_str(), "nse_fno")
}

/// The last premium chart among the first `n`; minus one where there is none.
pub open spec fn last_premium(legs: Seq<Strategy>, n: int) -> int
    decreases n,
{
    if n <= 0 {
        -1
    } else if premium_chart(legs[n - 1]) {
        n - 1
    } else {
        last_premium(legs, n - 1)
    }
}

/// What an entry executes on.
#[derive(Clone, Copy, Debug, PartialEq, Eq, Structural)]
pub enum ExecLeg {
    /// The strategy's own instrument.
    Own,
    /// The evaluated chart at a place.
    Chart(usize),
    /// A contract that must be resolved now.
    Resolve,
}

/// What an entry executes on: with spot execution the strategy's own instrument
/// unless it is an index; else the last premium chart that was evaluated; else a
/// contract resolved now.
pub open spec fn exec_target(trade_mode: Seq<char>, c: StratCat, legs: Seq<Strategy>) -> ExecLeg {
    let p = last_premium(legs, legs.len() as int);
    if trade_mode == "spot"@ && c != StratCat::Index {
        ExecLeg::Own
    } else if p >= 0 {
        ExecLeg::Chart(p as usize)
    } else {
        ExecLeg::Resolve
    }
}

/// What an entry executes on, given the trade mode.
pub fn exec_leg_by(trade_mode: &str, c: StratCat, legs: &Vec<Strategy>) -> (r: ExecLeg)
    ensures
        r == exec_target(trade_mode@, c, legs@),
        r is Chart ==> r->0 < legs@.len(),
{
    if text::same(trade_mode, "spot") && c != StratCat::Index {
        return ExecLeg::Own;
    }
    let mut n: usize = legs.len();
    while n > 0
        invariant
            n <= legs.len(),
            !(trade_mode@ == "spot"@ && c != StratCat::Index),
            last_premium(legs@, legs@.len() as int) == last_premium(legs@, n as int),
        decreases n,
    {
        if is_premium_chart(&legs[n - 1]) {
            return ExecLeg::Chart(n - 1);
        }
        n -= 1;
    }
    ExecLeg::Resolve
}

/// What an entry of a strategy executes on.
pub fn exec_leg(strat: &Strategy, settings: &Settings, legs: &Vec<Strategy>) -> (r: ExecLeg)
    ensures
        r == exec_target(
            "premium"@,
            routing::category(strat.exchange_segment@, strat.instrument@),
            legs@,
        ),
        r is Chart ==> r->0 < legs@.len(),
{
    let mode = routing::trade_mode_of(strat, settings);
    exec_leg_by(mode.as_str(), routing::strat_category(strat), legs)
}

/// What becomes of a signal.
#[derive(Clone, Copy, Debug, PartialEq, Eq, Structural)]
pub enum EntryStep {
    /// The strategy has taken its trades.
    TradeLimit,
    /// The orders-a-second cap is reached.
    OrderCap,
    /// The entry waits out the simulated delay.
    Queue,
    /// The entry is placed.
    Open,
}

/// How many trades a strategy may take.
#[derive(Clone, Copy, Debug, PartialEq, Eq, Structural)]
pub struct TradeCap {
    pub on: bool,
    /// The count is left to the engine: there is no cap.
    pub auto: bool,
    pub count: i64,
}

/// The cap that the settings put on the trades of a strategy.
pub open spec fn cap_of(s: Settings) -> TradeCap {
    TradeCap {
        on: s.trade_limit,
        auto: s.ai_trades,
        count: if s.trade_limit_count < 0 {
            0
        } else {
            s.trade_limit_count
        },
    }
}

/// The cap that the settings put on the trades of a strategy.
pub fn trade_cap(s: &Settings) -> (r: TradeCap)
    ensures
        r == cap_of(*s),
{
    TradeCap {
        on: s.trade_limit,
        auto: s.ai_trades,
        count: if s.trade_limit_count < 0 {
            0
        } else {
            s.trade_limit_count
        },
    }
}

/// A strategy that took `done` trades may take another.
pub open spec fn may_trade(cap: TradeCap, done: int) -> bool {
    !cap.on || cap.auto || cap.count <= 0 || done < cap.count
}

/// What becomes of a signal.
pub open spec fn entry_outcome(
    cap: TradeCap,
    settings: Settings,
    done: int,
    hft: bool,
    recent_orders: int,
    paper: bool,
    delay_positive: bool,
) -> EntryStep {
    if !may_trade(cap, done) {
        EntryStep::TradeLimit
    } else if hft && recent_orders >= orders::budget(settings.hft_ops as int) {
        EntryStep::OrderCap
    } else if paper && settings.paper_exec_delay_on && delay_positive {
        EntryStep::Queue
    } else {
        EntryStep::Open
    }
}

/// Decides what becomes of a signal, in the order: trade limit, orders-a-second
/// cap, simulated delay.
pub fn entry_step(
    cap: TradeCap,
    settings: &Settings,
    done: i64,
    times: &mut OrderTimes,
    now: i64,
    paper: bool,
    delay_positive: bool,
) -> (r: EntryStep)
    requires
        old(times).wf(),
        now >= 0,
    ensures
        final(times).wf(),
        r == entry_outcome(
            cap,
            *settings,
            done as int,
            settings.hft,
            limits::last_second(old(times).times@, now as int).len() as int,
            paper,
            delay_positive,
        ),
        final(times).times@ == if settings.hft && r != EntryStep::TradeLimit {
            limits::last_second(old(times).times@, now as int)
        } else {
            old(times).times@
        },
{
    if !orders::trade_limit_allows(cap.on, cap.auto, cap.count, done) {
        return EntryStep::TradeLimit;
    }
    if settings.hft {
        let ops = orders::hft_ops_budget(settings.hft_ops);
        if !times.hft_allow(ops, now) {
            return EntryStep::OrderCap;
        }
    }
    if paper && settings.paper_exec_delay_on && delay_positive {
        EntryStep::Queue
    } else {
        EntryStep::Open
    }
}

/// When the conditions of a strategy first held, and how many orders had been
/// placed by then.
pub struct MetTimes {
    pub met: TextMap<(i64, i64)>,
}

/// A row of the entry-timing log.
#[derive(Debug)]
pub struct TimingRow {
    pub strategy_id: String,
    pub strategy_name: String,
    pub side: String,
    pub met_at: i64,
    pub entry_at: i64,
    pub delay_ms: i64,
    pub orders_window: i64,
}

/// What is noted once the conditions of a strategy hold: only the first time
/// counts.
pub open spec fn met_after(
    m: Map<Seq<char>, (i64, i64)>,
    id: Seq<char>,
    now: i64,
    placed: i64,
) -> Map<Seq<char>, (i64, i64)> {
    if m.contains_key(id) {
        m
    } else {
        m.insert(id, (now, placed))
    }
}

/// An entry is timed from the moment its conditions first held, however often
/// they were found to hold before it was placed.
pub proof fn law_first_meet_counts(
    m: Map<Seq<char>, (i64, i64)>,
    id: Seq<char>,
    first: (i64, i64),
    again: (i64, i64),
)
    ensures
        !m.contains_key(id) ==> met_after(
            met_after(m, id, first.0, first.1),
            id,
            again.0,
            again.1,
        )[id] == first,
{
}

impl MetTimes {
    /// Nothing met yet.
    pub fn new() -> (r: Self)
        ensures
            r.met@ == Map::<Seq<char>, (i64, i64)>::empty(),
    {
        MetTimes { met: TextMap::new() }
    }

    /// Notes that the conditions hold; only the first time counts.
    pub fn note(&mut self, id: &str, now: i64, placed: i64)
        ensures
            final(self).met@ == met_after(old(self).met@, id@, now, placed),
    {
        if !self.met.contains_key(id) {
            self.met.insert(id.to_owned(), (now, placed));
        }
    }

    /// Takes the note of a strategy whose entry was placed.
    pub fn take(&mut self, id: &str) -> (r: Option<(i64, i64)>)
        ensures
            r == if old(self).met@.contains_key(id@) {
                Some(old(self).met@[id@])
            } else {
                None
            },
            final(self).met@ == old(self).met@.remove(id@),
    {
        let r = match self.met.get(id) {
            Some(p) => Some((p.0, p.1)),
            None => None,
        };
        self.met.remove(id);
        r
    }
}

/// The entry-timing row of a placed entry: how long after the conditions were
/// met it was placed, and how many orders went out in between. `placed` counts
/// the orders, this one included.
pub fn timing_row(
    strat: &Strategy,
    side: &str,
    met: (i64, i64),
    now: i64,
    placed: i64,
) -> (r: TimingRow)
    requires
        0 <= met.0,
        0 <= now,
        0 <= met.1,
        1 <= placed,
    ensures
        r.strategy_id@ == strat.id@,
        r.strategy_name@ == strat.name@,
        r.side@ == side@,
        r.met_at == met.0,
        r.entry_at == now,
        r.delay_ms == if now < met.0 {
            0
        } else {
            now - met.0
        },
        r.orders_window == (placed - 1) - met.1,
{
    TimingRow {
        strategy_id: strat.id.clone(),
        strategy_name: strat.name.clone(),
        side: side.to_owned(),
        met_at: met.0,
        entry_at: now,
        delay_ms: if now < met.0 {
            0
        } else {
            now - met.0
        },
        orders_window: (placed - 1) - met.1,
    }
}

/// Puts a row in front of the entry-timing log, which keeps sixty.
pub fn push_timing(log: &mut Vec<TimingRow>, row: TimingRow)
    ensures
        final(log)@ == (if old(log)@.len() + 1 > 60 {
            (seq![row] + old(log)@).take(60)
        } else {
            seq![row] + old(log)@
        }),
{
    let ghost was = log@;
    log.insert(0, row);
    assert(log@ =~= seq![row] + was);
    if log.len() > 60 {
        log.truncate(60);
    }
}

/// A strategy is in the run set where it comes from the right source for the mode, is in
/// scope, and someone wants it: it is enabled, or ticked by hand while hand picks count,
/// or picked.
pub proof fn law_who_runs(
    s: Strategy,
    settings: Settings,
    selected: Map<Seq<char>, bool>,
    picked: Seq<Seq<char>>,
)
    ensures
        ({
            let scoped = gate::in_scope(settings.filters.items(), s.group@, model::bullish(s));
            let ticked = selected.dom().contains(s.id@) && selected[s.id@] && settings.call_manual;
            let wanted = s.enabled || ticked || exists|k: int|
                0 <= k < picked.len() && #[trigger] picked[k] == s.id@;
            runs(s, settings, selected, picked) <==> scoped && wanted && (s.synthetic
                <==> settings.filter_mode)
        }),
{
}

/// A strategy of the run set is scanned where it names an instrument and has something to
/// check: conditions of its own, unless a scanner built it.
pub proof fn law_who_is_scanned(
    s: Strategy,
    conditions: nat,
    settings: Settings,
    selected: Map<Seq<char>, bool>,
    picked: Seq<Seq<char>>,
)
    ensures
        scannable(s, conditions, settings, selected, picked) ==> runs(s, settings, selected, picked)
            && s.security_id > 0 && (s.synthetic || conditions >= 1),
        runs(s, settings, selected, picked) && s.security_id > 0 && s.synthetic ==> scannable(
            s,
            conditions,
            settings,
            selected,
            picked,
        ),
        runs(s, settings, selected, picked) && s.security_id > 0 && conditions >= 1 ==> scannable(
            s,
            conditions,
            settings,
            selected,
            picked,
        ),
{
}

/// A strategy is evaluated again from a hundred milliseconds after the last time on, and
/// one never evaluated from a hundred milliseconds after the epoch; fast mode does not
/// mind open positions.
pub proof fn law_evaluated_again_in_time(
    m: Map<Seq<char>, i64>,
    id: Seq<char>,
    hft: bool,
    running: nat,
    last: i64,
    now: int,
)
    requires
        hft || running == 0,
    ensures
        may_start(m.insert(id, last), id, hft, running, now) <==> now >= last + 100,
        !m.dom().contains(id) && now >= 100 ==> may_start(m, id, hft, running, now),
{
}

/// The overall direction blocks the bears while calls are traded and the bulls while puts
/// are, and nobody while it is off or no side is active.
pub proof fn law_overall_direction_blocks(settings: Settings, d: Dirs)
    ensures
        ({
            let a = sides::active(settings, d);
            &&& !settings.overall_dir || a is None ==> !overall_blocks(settings, d, true)
                && !overall_blocks(settings, d, false)
            &&& settings.overall_dir && a == Some("CE"@) ==> overall_blocks(settings, d, false)
                && !overall_blocks(settings, d, true)
            &&& settings.overall_dir && a == Some("PE"@) ==> overall_blocks(settings, d, true)
                && !overall_blocks(settings, d, false)
        }),
{
    reveal_strlit("CE");
    reveal_strlit("PE");
    assert("CE"@[0] == 'C' && "PE"@[0] == 'P');
}

/// The charts of a run mode: the premium alone, the spot or the future alone, else both.
pub proof fn law_charts_by_mode(mode: Seq<char>)
    ensures
        charts("premium"@) == (false, true),
        charts("spot"@) == (true, false),
        charts("futures"@) == (true, false),
        mode != "premium"@ && mode != "spot"@ && mode != "futures"@ ==> charts(mode) == (true, true),
{
    reveal_strlit("premium");
    reveal_strlit("spot");
    reveal_strlit("futures");
    assert("premium"@.len() == 7 && "spot"@.len() == 4 && "futures"@.len() == 7);
    assert("premium"@[0] == 'p' && "futures"@[0] == 'f');
}

/// A premium chart that was not found: with nothing but the premium asked for the strategy
/// is skipped, with both asked for the spot chart stands alone, and where it was not asked
/// for it does not matter.
pub proof fn law_missing_premium_chart(mode: Seq<char>)
    ensures
        chart_outcome(mode, true) == ChartStep::Evaluate,
        chart_outcome("premium"@, false) == ChartStep::SkipNoPremium,
        chart_outcome("both"@, false) == ChartStep::EvaluateSpotOnly,
        chart_outcome("spot"@, false) == ChartStep::Evaluate,
        chart_outcome("futures"@, false) == ChartStep::Evaluate,
        mode != "premium"@ && mode != "both"@ ==> chart_outcome(mode, false) == ChartStep::Evaluate,
{
    law_charts_by_mode("premium"@);
    law_charts_by_mode("both"@);
    law_charts_by_mode(mode);
    reveal_strlit("premium");
    reveal_strlit("both");
    reveal_strlit("spot");
    reveal_strlit("futures");
    assert("premium"@.len() == 7 && "spot"@.len() == 4 && "futures"@.len() == 7 && "both"@.len()
        == 4);
    assert("premium"@[0] == 'p' && "futures"@[0] == 'f' && "both"@[0] == 'b' && "spot"@[0] == 's');
}

/// A chart passes where the entry gate is open, the direction guard does not object, the
/// strategy's own conditions hold or a scanner built it, and, under the fresh-meet rule,
/// the entry gate was shut a bar before.
pub proof fn law_what_passes_a_chart(synthetic: bool, fresh_meet: bool, c: LegCheck)
    ensures
        !c.gate || c.opposite ==> !leg_passes(synthetic, fresh_meet, c),
        !synthetic && !c.conditions ==> !leg_passes(synthetic, fresh_meet, c),
        fresh_meet && c.gate_before ==> !leg_passes(synthetic, fresh_meet, c),
        c.gate && !c.opposite && (synthetic || c.conditions) && (!fresh_meet || !c.gate_before)
            ==> leg_passes(synthetic, fresh_meet, c),
{
}

proof fn lemma_last_premium(legs: Seq<Strategy>, n: int)
    requires
        0 <= n <= legs.len(),
    ensures
        -1 <= last_premium(legs, n) < n || n == 0 && last_premium(legs, n) == -1,
        last_premium(legs, n) >= 0 ==> premium_chart(legs[last_premium(legs, n)]),
        forall|i: int|
            last_premium(legs, n) < i < n && i >= 0 ==> !premium_chart(#[trigger] legs[i]),
    decreases n,
{
    if n > 0 {
        lemma_last_premium(legs, n - 1);
    }
}

/// What an entry executes on. With spot execution anything but an index trades its own
/// instrument. Else the last chart evaluated that is an option's is traded, and without
/// one a contract is resolved.
pub proof fn law_what_an_entry_trades(mode: Seq<char>, c: StratCat, legs: Seq<Strategy>, i: int)
    requires
        legs.len() <= usize::MAX,
        0 <= i < legs.len(),
        text::downs(legs[i].instrument@) == "optidx"@ || text::downs(legs[i].exchange_segment@)
            == "nse_fno"@,
        forall|k: int|
            i < k < legs.len() ==> text::downs((#[trigger] legs[k]).instrument@) != "optidx"@
                && text::downs(legs[k].exchange_segment@) != "nse_fno"@,
    ensures
        mode == "spot"@ && c != StratCat::Index ==> exec_target(mode, c, legs) == ExecLeg::Own,
        mode != "spot"@ || c == StratCat::Index ==> exec_target(mode, c, legs) == ExecLeg::Chart(
            i as usize,
        ),
        mode != "spot"@ || c == StratCat::Index ==> exec_target(mode, c, Seq::empty())
            == ExecLeg::Resolve,
{
    lemma_last_premium(legs, legs.len() as int);
    assert(premium_chart(legs[i]));
    let p = last_premium(legs, legs.len() as int);
    assert(p == i);
    assert(last_premium(Seq::<Strategy>::empty(), 0) == -1);
}

/// The trade limit: it holds a strategy to its count only where it is on, not left to the
/// engine, and the count is positive.
pub proof fn law_trade_limit(s: Settings, done: int)
    ensures
        ({
            let limited = s.trade_limit && !s.ai_trades && s.trade_limit_count >= 1;
            &&& !limited ==> may_trade(cap_of(s), done)
            &&& limited ==> (may_trade(cap_of(s), done) <==> done < s.trade_limit_count)
        }),
{
}

/// What becomes of a signal, by rank: the trade limit stops it, then in fast mode the
/// orders of the last second do, then a simulated one waits out its delay; else it opens.
pub proof fn law_signal_by_rank(
    cap: TradeCap,
    s: Settings,
    done: int,
    hft: bool,
    recent: int,
    paper: bool,
    delay: bool,
)
    ensures
        ({
            let out = entry_outcome(cap, s, done, hft, recent, paper, delay);
            let spent = hft && recent >= orders::budget(s.hft_ops as int);
            let waits = paper && delay && s.paper_exec_delay_on;
            &&& out == EntryStep::TradeLimit <==> !may_trade(cap, done)
            &&& out == EntryStep::OrderCap <==> may_trade(cap, done) && spent
            &&& out == EntryStep::Queue <==> may_trade(cap, done) && !spent && waits
            &&& out == EntryStep::Open <==> may_trade(cap, done) && !spent && !waits
        }),
{
}

/// One more strategy counts where it can be scanned.
pub proof fn law_scannable_one_more(
    ss: Seq<Strategy>,
    conditions: Seq<usize>,
    settings: Settings,
    selected: Map<Seq<char>, bool>,
    picked: Seq<Seq<char>>,
    n: int,
)
    requires
        0 < n <= ss.len(),
    ensures
        ({
            let before = scannable_count(ss, conditions, settings, selected, picked, n - 1);
            let after = scannable_count(ss, conditions, settings, selected, picked, n);
            &&& scannable(ss[n - 1], conditions[n - 1] as nat, settings, selected, picked) <==> after
                > before
            &&& after == before || after == before + 1
            &&& scannable_count(ss, conditions, settings, selected, picked, 0) == 0
        }),
{
}

} // verus!
