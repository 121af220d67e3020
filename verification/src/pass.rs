//! One pass of the signal scan: from the trading time and the run set, strategy by
//! strategy, to the entries it leads to.

use vstd::prelude::*;
use crate::clock;
use crate::flow;
use crate::flow::{scan_next, ScanEvent, ScanStage};
use crate::limits;
use crate::limits::OrderTimes;
use crate::model::{Settings, Strategy};
use crate::orders;
use crate::scan;
use crate::scan::{entry_step, is_scannable, trade_cap, ChartStep, EntryStep, Signals, TradeCap};
use crate::text;
use crate::textmap::TextMap;

verus! {

/// Entries are open at a minute of the day. Session windows, where there are any,
/// replace the start and cutoff times; a time out of range keeps entries shut.
pub open spec fn trading_time(s: Settings, minute: int) -> bool {
    &&& clock::sessions_fit(s.trade_sessions@)
    &&& clock::hhmm_fits(s.start_after@)
    &&& clock::hhmm_fits(s.no_trade_after@)
    &&& if clock::any_window(s.trade_sessions@) {
        clock::in_window(s.trade_sessions@, minute)
    } else {
        clock::envelope_open(
            s.start_after_enabled,
            s.start_after@,
            s.no_trade_after_enabled,
            s.no_trade_after@,
            minute,
        )
    }
}

/// The places, among the first `n`, of the strategies that can be scanned.
pub open spec fn run_places(
    ss: Seq<Strategy>,
    conditions: Seq<usize>,
    settings: Settings,
    selected: Map<Seq<char>, bool>,
    picked: Seq<Seq<char>>,
    n: int,
) -> Seq<usize>
    decreases n,
{
    if n <= 0 {
        Seq::empty()
    } else {
        let before = run_places(ss, conditions, settings, selected, picked, n - 1);
        if scan::scannable(ss[n - 1], conditions[n - 1] as nat, settings, selected, picked) {
            before.push((n - 1) as usize)
        } else {
            before
        }
    }
}

/// A pass in progress.
#[derive(Debug)]
pub struct ScanPass {
    /// The places of the strategies it scans.
    pub places: Vec<usize>,
    /// Which of them is being scanned.
    pub at: usize,
    /// What its scan waits for.
    pub stage: ScanStage,
    /// A higher timeframe confirms.
    pub multi: bool,
    /// How many trades a strategy may take.
    pub cap: TradeCap,
}

/// Something a pass is told.
#[derive(Clone, Copy, Debug, PartialEq, Eq, Structural)]
pub enum PassFact {
    /// How many positions the strategy holds, and the time.
    Start { running: usize, now: i64 },
    /// An answer to what the scan waits for.
    Seen(ScanEvent),
    /// How many trades the strategy took, the time, and whether entries wait.
    Limits { done: i64, now: i64, paper: bool, delay_positive: bool },
    /// The entry went out, or not.
    Placed { ok: bool, now: i64 },
    /// The entry waits.
    Queued,
}

/// The times of a fact are times since the epoch.
pub open spec fn since_epoch(f: PassFact) -> bool {
    match f {
        PassFact::Start { now, .. } => now >= 0,
        PassFact::Limits { now, .. } => now >= 0,
        PassFact::Placed { now, .. } => now >= 0,
        _ => true,
    }
}

/// A pass and what it notes, as plain values.
pub struct PassV {
    pub places: Seq<usize>,
    pub at: int,
    pub stage: ScanStage,
    pub multi: bool,
    pub cap: TradeCap,
    /// When each strategy was last evaluated.
    pub last: Map<Seq<char>, i64>,
    /// When orders were placed.
    pub times: Seq<i64>,
}

/// A pass and what it notes, as plain values.
pub open spec fn state_of(p: ScanPass, signals: Signals, times: OrderTimes) -> PassV {
    PassV {
        places: p.places@,
        at: p.at as int,
        stage: p.stage,
        multi: p.multi,
        cap: p.cap,
        last: signals.last@,
        times: times.times@,
    }
}

/// Two timeframes are ticked and the higher one confirms.
pub open spec fn confirms(s: Settings) -> bool {
    s.mtf && s.tf_1min && s.tf_5min
}

/// The pass at its next strategy.
pub open spec fn advanced(v: PassV) -> PassV {
    PassV { at: v.at + 1, stage: ScanStage::Start, ..v }
}

/// Every strategy of the pass was scanned.
pub open spec fn over(v: PassV) -> bool {
    v.at >= v.places.len()
}

/// The strategy that is being scanned.
pub open spec fn current(v: PassV, ss: Seq<Strategy>) -> Strategy {
    ss[v.places[v.at] as int]
}

/// The strategy is evaluated now.
pub open spec fn evaluates(
    v: PassV,
    ss: Seq<Strategy>,
    s: Settings,
    running: usize,
    now: i64,
) -> bool {
    scan::may_start(v.last, current(v, ss).id@, s.hft, running as nat, now as int)
}

/// What becomes of the signal.
pub open spec fn outcome(
    v: PassV,
    s: Settings,
    done: i64,
    now: i64,
    paper: bool,
    delay_positive: bool,
) -> EntryStep {
    scan::entry_outcome(
        v.cap,
        s,
        done as int,
        s.hft,
        limits::last_second(v.times, now as int).len() as int,
        paper,
        delay_positive,
    )
}

/// The scan waits for an answer from outside.
pub open spec fn listens(s: ScanStage) -> bool {
    s == ScanStage::Bars || s == ScanStage::Direction || s == ScanStage::Charts || s
        == ScanStage::Checks || s == ScanStage::Trend || s == ScanStage::Leg || s
        == ScanStage::Contract
}

/// The pass after a fact, under the settings of the moment.
pub open spec fn pass_after(v: PassV, ss: Seq<Strategy>, s: Settings, f: PassFact) -> PassV {
    if over(v) {
        v
    } else {
        match f {
            PassFact::Start { running, now } => if v.stage != ScanStage::Start {
                v
            } else if evaluates(v, ss, s, running, now) {
                PassV {
                    stage: ScanStage::Bars,
                    multi: confirms(s),
                    last: v.last.insert(current(v, ss).id@, now),
                    ..v
                }
            } else {
                advanced(v)
            },
            PassFact::Seen(e) => if !listens(v.stage) {
                v
            } else if flow::scan_after(v.stage, e, v.multi) == ScanStage::Skip {
                advanced(v)
            } else {
                PassV { stage: flow::scan_after(v.stage, e, v.multi), ..v }
            },
            PassFact::Limits { done, now, paper, delay_positive } => if v.stage
                != ScanStage::Limits {
                v
            } else {
                let out = outcome(v, s, done, now, paper, delay_positive);
                let w = PassV {
                    times: if s.hft && out != EntryStep::TradeLimit {
                        limits::last_second(v.times, now as int)
                    } else {
                        v.times
                    },
                    ..v
                };
                match out {
                    EntryStep::Open => PassV { stage: ScanStage::Open, ..w },
                    EntryStep::Queue => PassV { stage: ScanStage::Queue, ..w },
                    _ => advanced(w),
                }
            },
            PassFact::Placed { ok, now } => if v.stage != ScanStage::Open {
                v
            } else if ok && s.hft {
                advanced(PassV { times: v.times.push(now), ..v })
            } else {
                advanced(v)
            },
            PassFact::Queued => if v.stage != ScanStage::Queue {
                v
            } else {
                advanced(v)
            },
        }
    }
}

/// The places a pass scans: none without a connection or outside trading time.
pub open spec fn opened(
    connected: bool,
    minute: int,
    ss: Seq<Strategy>,
    conditions: Seq<usize>,
    settings: Settings,
    selected: Map<Seq<char>, bool>,
    picked: Seq<Seq<char>>,
) -> Seq<usize> {
    if connected && trading_time(settings, minute) {
        run_places(ss, conditions, settings, selected, picked, ss.len() as int)
    } else {
        Seq::empty()
    }
}

proof fn lemma_run_places(
    ss: Seq<Strategy>,
    conditions: Seq<usize>,
    settings: Settings,
    selected: Map<Seq<char>, bool>,
    picked: Seq<Seq<char>>,
    n: int,
    i: int,
)
    requires
        0 <= n <= ss.len() <= usize::MAX,
        0 <= i < run_places(ss, conditions, settings, selected, picked, n).len(),
    ensures
        ({
            let p = run_places(ss, conditions, settings, selected, picked, n)[i];
            p < n && scan::scannable(
                ss[p as int],
                conditions[p as int] as nat,
                settings,
                selected,
                picked,
            )
        }),
    decreases n,
{
    let before = run_places(ss, conditions, settings, selected, picked, n - 1);
    if i < before.len() {
        lemma_run_places(ss, conditions, settings, selected, picked, n - 1, i);
    }
}

impl ScanPass {
    /// Opens a pass over the run set.
    pub fn open(
        connected: bool,
        minute: i64,
        ss: &Vec<Strategy>,
        conditions: &Vec<usize>,
        settings: &Settings,
        selected: &TextMap<bool>,
        picked: &Vec<String>,
    ) -> (r: ScanPass)
        requires
            ss@.len() == conditions@.len(),
        ensures
            r.places@ == opened(
                connected,
                minute as int,
                ss@,
                conditions@,
                *settings,
                selected@,
                text::views(picked@),
            ),
            forall|i: int| 0 <= i < r.places@.len() ==> #[trigger] r.places@[i] < ss@.len(),
            r.at == 0,
            r.stage == ScanStage::Start,
            !r.multi,
            r.cap == scan::cap_of(*settings),
    {
        let mut places: Vec<usize> = Vec::new();
        let time = clock::entry_time_ok(
            settings.trade_sessions.as_slice(),
            settings.start_after_enabled,
            settings.start_after.as_str(),
            settings.no_trade_after_enabled,
            settings.no_trade_after.as_str(),
            minute,
        );
        let open = match time {
            Some(ok) => ok,
            None => false,
        };
        if connected && open {
            let mut i: usize = 0;
            while i < ss.len()
                invariant
                    i <= ss.len(),
                    ss@.len() == conditions@.len(),
                    places@ == run_places(
                        ss@,
                        conditions@,
                        *settings,
                        selected@,
                        text::views(picked@),
                        i as int,
                    ),
                    forall|k: int| 0 <= k < places@.len() ==> #[trigger] places@[k] < ss@.len(),
                decreases ss.len() - i,
            {
                if is_scannable(&ss[i], conditions[i], settings, selected, picked) {
                    places.push(i);
                }
                i += 1;
            }
        }
        ScanPass { places, at: 0, stage: ScanStage::Start, multi: false, cap: trade_cap(settings) }
    }

    /// The place of the strategy that is being scanned; `None` once all were.
    pub fn place(&self) -> (r: Option<usize>)
        ensures
            r == if self.at < self.places@.len() {
                Some(self.places@[self.at as int])
            } else {
                None
            },
    {
        if self.at < self.places.len() {
            Some(self.places[self.at])
        } else {
            None
        }
    }

    fn advance(&mut self)
        requires
            old(self).at < old(self).places@.len(),
        ensures
            *final(self) == (ScanPass {
                at: (old(self).at + 1) as usize,
                stage: ScanStage::Start,
                ..*old(self)
            }),
    {
        let n: usize = self.places.len();
        assert(self.at < n);
        self.at = self.at + 1;
        self.stage = ScanStage::Start;
    }

    /// Moves the pass on by a fact, under the settings of the moment.
    pub fn next(
        &mut self,
        ss: &Vec<Strategy>,
        settings: &Settings,
        f: PassFact,
        signals: &mut Signals,
        times: &mut OrderTimes,
    )
        requires
            forall|i: int|
                0 <= i < old(self).places@.len() ==> #[trigger] old(self).places@[i] < ss@.len(),
            old(signals).wf(),
            old(times).wf(),
            since_epoch(f),
        ensures
            state_of(*final(self), *final(signals), *final(times)) == pass_after(
                state_of(*old(self), *old(signals), *old(times)),
                ss@,
                *settings,
                f,
            ),
            final(self).places == old(self).places,
            final(signals).wf(),
            final(times).wf(),
    {
        if self.at >= self.places.len() {
            return ;
        }
        assert(self.places@[self.at as int] < ss@.len());
        match f {
            PassFact::Start { running, now } => {
                if self.stage == ScanStage::Start {
                    let id = ss[self.places[self.at]].id.as_str();
                    if signals.start(id, settings.hft, running, now) {
                        self.stage = ScanStage::Bars;
                        self.multi = settings.mtf && settings.tf_1min && settings.tf_5min;
                    } else {
                        self.advance();
                    }
                }
            },
            PassFact::Seen(e) => {
                let listening = match self.stage {
                    ScanStage::Start => false,
                    ScanStage::Limits => false,
                    ScanStage::Open => false,
                    ScanStage::Queue => false,
                    ScanStage::Skip => false,
                    _ => true,
                };
                if listening {
                    let stage = scan_next(self.stage, e, self.multi);
                    if stage == ScanStage::Skip {
                        self.advance();
                    } else {
                        self.stage = stage;
                    }
                }
            },
            PassFact::Limits { done, now, paper, delay_positive } => {
                if self.stage == ScanStage::Limits {
                    match entry_step(self.cap, settings, done, times, now, paper, delay_positive) {
                        EntryStep::Open => {
                            self.stage = ScanStage::Open;
                        },
                        EntryStep::Queue => {
                            self.stage = ScanStage::Queue;
                        },
                        _ => {
                            self.advance();
                        },
                    }
                }
            },
            PassFact::Placed { ok, now } => {
                if self.stage == ScanStage::Open {
                    if ok && settings.hft {
                        times.hft_record(now);
                    }
                    self.advance();
                }
            },
            PassFact::Queued => {
                if self.stage == ScanStage::Queue {
                    self.advance();
                }
            },
        }
    }
}

/// A fact and the settings it came under.
pub struct Told {
    pub settings: Settings,
    pub fact: PassFact,
}

/// The pass after the first `n` facts.
pub open spec fn pass_run(v: PassV, ss: Seq<Strategy>, told: Seq<Told>, n: int) -> PassV
    decreases n,
{
    if n <= 0 {
        v
    } else {
        pass_after(
            pass_run(v, ss, told, n - 1),
            ss,
            told[n - 1].settings,
            told[n - 1].fact,
        )
    }
}

/// What an entry has to have shown.
pub enum Check {
    /// Evaluated now: without an open position outside fast mode.
    Start,
    Bars,
    Direction,
    Charts,
    Checks,
    Trend,
    /// Within the trade limit and the orders-a-second cap.
    Limits,
}

/// A fact shows what an entry has to have shown.
pub open spec fn shows(v: PassV, ss: Seq<Strategy>, t: Told, what: Check, multi: bool) -> bool {
    match (what, t.fact) {
        (Check::Start, PassFact::Start { running, now }) => {
            &&& evaluates(v, ss, t.settings, running, now)
            &&& t.settings.hft || running == 0
            &&& multi == confirms(t.settings)
        },
        (Check::Bars, PassFact::Seen(ScanEvent::Bars(n))) => n >= 3,
        (Check::Direction, PassFact::Seen(ScanEvent::Direction(blocks))) => !blocks,
        (Check::Charts, PassFact::Seen(ScanEvent::Charts(c))) => c == ChartStep::Evaluate || c
            == ChartStep::EvaluateSpotOnly,
        (Check::Checks, PassFact::Seen(ScanEvent::Checks(ok))) => ok,
        (Check::Trend, PassFact::Seen(ScanEvent::Trend(ok))) => ok,
        (Check::Limits, PassFact::Limits { done, now, .. }) => {
            &&& scan::may_trade(v.cap, done as int)
            &&& t.settings.hft ==> limits::last_second(v.times, now as int).len() < orders::budget(
                t.settings.hft_ops as int,
            )
        },
        _ => false,
    }
}

/// Fact `j` shows it of the strategy that is scanned after `n` facts.
pub open spec fn shown_at(
    v: PassV,
    ss: Seq<Strategy>,
    told: Seq<Told>,
    n: int,
    j: int,
    what: Check,
) -> bool {
    let then = pass_run(v, ss, told, j);
    let now = pass_run(v, ss, told, n);
    then.at == now.at && shows(then, ss, told[j], what, now.multi)
}

/// One of the first `n` facts shows it of the strategy that is then scanned.
pub open spec fn shown(v: PassV, ss: Seq<Strategy>, told: Seq<Told>, n: int, what: Check) -> bool {
    exists|j: int| 0 <= j < n && #[trigger] shown_at(v, ss, told, n, j, what)
}

/// How far a scan has come.
pub open spec fn depth(s: ScanStage) -> int {
    match s {
        ScanStage::Start => 0,
        ScanStage::Bars => 1,
        ScanStage::Direction => 2,
        ScanStage::Charts => 3,
        ScanStage::Checks => 4,
        ScanStage::Trend => 5,
        ScanStage::Leg => 6,
        ScanStage::Contract => 7,
        ScanStage::Limits => 8,
        ScanStage::Open => 9,
        ScanStage::Queue => 9,
        ScanStage::Skip => 0,
    }
}

/// Everything that had to be shown to come this far was.
pub open spec fn earned(v: PassV, ss: Seq<Strategy>, told: Seq<Told>, n: int) -> bool {
    let w = pass_run(v, ss, told, n);
    &&& w.places == v.places
    &&& w.cap == v.cap
    &&& w.at >= v.at
    &&& over(w) ==> w.stage == ScanStage::Start
    &&& depth(w.stage) >= 1 ==> shown(v, ss, told, n, Check::Start)
    &&& depth(w.stage) >= 2 ==> shown(v, ss, told, n, Check::Bars)
    &&& depth(w.stage) >= 3 ==> shown(v, ss, told, n, Check::Direction)
    &&& depth(w.stage) >= 4 ==> shown(v, ss, told, n, Check::Charts)
    &&& depth(w.stage) >= 5 ==> shown(v, ss, told, n, Check::Checks)
    &&& depth(w.stage) >= 6 && w.multi ==> shown(v, ss, told, n, Check::Trend)
    &&& depth(w.stage) >= 9 ==> shown(v, ss, told, n, Check::Limits)
}

proof fn lemma_shown_stays(v: PassV, ss: Seq<Strategy>, told: Seq<Told>, n: int, what: Check)
    requires
        shown(v, ss, told, n, what),
        pass_run(v, ss, told, n + 1).at == pass_run(v, ss, told, n).at,
        pass_run(v, ss, told, n + 1).multi == pass_run(v, ss, told, n).multi,
    ensures
        shown(v, ss, told, n + 1, what),
{
    let j = choose|j: int| 0 <= j < n && #[trigger] shown_at(v, ss, told, n, j, what);
    assert(shown_at(v, ss, told, n + 1, j, what));
}

proof fn lemma_earned(v: PassV, ss: Seq<Strategy>, told: Seq<Told>, n: int)
    requires
        0 <= n <= told.len(),
        v.stage == ScanStage::Start,
    ensures
        earned(v, ss, told, n),
    decreases n,
{
    if n > 0 {
        let p = n - 1;
        lemma_earned(v, ss, told, p);
        let a = pass_run(v, ss, told, p);
        let b = pass_run(v, ss, told, n);
        assert(b == pass_after(a, ss, told[p].settings, told[p].fact));
        if b.at == a.at && depth(b.stage) >= 1 {
            if depth(a.stage) >= 1 {
                lemma_shown_stays(v, ss, told, p, Check::Start);
                if depth(a.stage) >= 2 {
                    lemma_shown_stays(v, ss, told, p, Check::Bars);
                }
                if depth(a.stage) >= 3 {
                    lemma_shown_stays(v, ss, told, p, Check::Direction);
                }
                if depth(a.stage) >= 4 {
                    lemma_shown_stays(v, ss, told, p, Check::Charts);
                }
                if depth(a.stage) >= 5 {
                    lemma_shown_stays(v, ss, told, p, Check::Checks);
                }
                if depth(a.stage) >= 6 && a.multi {
                    lemma_shown_stays(v, ss, told, p, Check::Trend);
                }
                if depth(a.stage) >= 9 {
                    lemma_shown_stays(v, ss, told, p, Check::Limits);
                }
            }
            if b.stage != a.stage {
                let what = match a.stage {
                    ScanStage::Start => Check::Start,
                    ScanStage::Bars => Check::Bars,
                    ScanStage::Direction => Check::Direction,
                    ScanStage::Charts => Check::Charts,
                    ScanStage::Checks => Check::Checks,
                    ScanStage::Trend => Check::Trend,
                    _ => Check::Limits,
                };
                if a.stage != ScanStage::Leg && a.stage != ScanStage::Contract {
                    assert(shows(a, ss, told[p], what, b.multi));
                    assert(shown_at(v, ss, told, n, p, what));
                }
            }
        }
    }
}

/// Whatever a pass is told, it asks for an entry to be placed or queued only with
/// a connection, inside trading time, for a strategy of the run set, built by a
/// scanner exactly in filter mode; and that strategy was evaluated just now, which
/// outside fast mode takes that it holds no position, had its bars and charts, was
/// let through by the overall direction, passed every check, was confirmed on the
/// higher timeframe where there is one, and kept to the trade limit and the
/// orders-a-second cap.
pub proof fn law_a_pass_enters_only_what_passed(
    v: PassV,
    connected: bool,
    minute: int,
    ss: Seq<Strategy>,
    conditions: Seq<usize>,
    settings: Settings,
    selected: Map<Seq<char>, bool>,
    picked: Seq<Seq<char>>,
    told: Seq<Told>,
    n: int,
)
    requires
        ss.len() <= usize::MAX,
        v.at == 0,
        v.stage == ScanStage::Start,
        v.places == opened(connected, minute, ss, conditions, settings, selected, picked),
        v.cap == scan::cap_of(settings),
        0 <= n <= told.len(),
        pass_run(v, ss, told, n).stage == ScanStage::Open || pass_run(v, ss, told, n).stage
            == ScanStage::Queue,
    ensures
        connected,
        trading_time(settings, minute),
        ({
            let w = pass_run(v, ss, told, n);
            let p = w.places[w.at] as int;
            &&& 0 <= w.at < w.places.len()
            &&& 0 <= p < ss.len()
            &&& scan::scannable(ss[p], conditions[p] as nat, settings, selected, picked)
            &&& ss[p].synthetic == settings.filter_mode
            &&& w.cap == scan::cap_of(settings)
            &&& w.multi ==> shown(v, ss, told, n, Check::Trend)
        }),
        shown(v, ss, told, n, Check::Start),
        shown(v, ss, told, n, Check::Bars),
        shown(v, ss, told, n, Check::Direction),
        shown(v, ss, told, n, Check::Charts),
        shown(v, ss, told, n, Check::Checks),
        shown(v, ss, told, n, Check::Limits),
{
    lemma_earned(v, ss, told, n);
    let w = pass_run(v, ss, told, n);
    assert(!over(w));
    lemma_run_places(ss, conditions, settings, selected, picked, ss.len() as int, w.at);
}

/// When the entries that the pass placed in fast mode, among the first `n` facts,
/// went out.
pub open spec fn sent(v: PassV, ss: Seq<Strategy>, told: Seq<Told>, n: int) -> Seq<i64>
    decreases n,
{
    if n <= 0 {
        Seq::empty()
    } else {
        let before = sent(v, ss, told, n - 1);
        let then = pass_run(v, ss, told, n - 1);
        match told[n - 1].fact {
            PassFact::Placed { ok, now } => if !over(then) && then.stage == ScanStage::Open && ok
                && told[n - 1].settings.hft {
                before.push(now)
            } else {
                before
            },
            _ => before,
        }
    }
}

/// The fact came at a time.
pub open spec fn came_at(f: PassFact, t: int) -> bool {
    match f {
        PassFact::Start { now, .. } => now == t,
        PassFact::Limits { now, .. } => now == t,
        PassFact::Placed { now, .. } => now == t,
        _ => true,
    }
}

/// In fast mode a pass keeps to the orders-a-second cap: counting the orders of
/// earlier passes, `earlier`, no second, wherever it ends, holds more entries than
/// the cap, as long as the clock does not run backwards and the cap stays the same.
/// Entries that wait out the simulated delay go out, and count, later.
pub proof fn law_a_pass_keeps_the_order_cap(
    v: PassV,
    ss: Seq<Strategy>,
    told: Seq<Told>,
    clock: spec_fn(int) -> int,
    earlier: Seq<i64>,
    ops: int,
    n: int,
)
    requires
        v.stage == ScanStage::Start,
        0 <= n <= told.len(),
        forall|i: int, j: int| 0 <= i <= j ==> #[trigger] clock(i) <= #[trigger] clock(j),
        forall|i: int|
            0 <= i < told.len() ==> came_at((#[trigger] told[i]).fact, clock(i + 1))
                && told[i].settings.hft && told[i].settings.hft_ops == ops,
        limits::capped(v.times, earlier, clock(0), orders::budget(ops)),
    ensures
        limits::capped(
            pass_run(v, ss, told, n).times,
            earlier + sent(v, ss, told, n),
            clock(n),
            orders::budget(ops),
        ),
        forall|t: int| #[trigger]
            limits::in_second(earlier + sent(v, ss, told, n), t) <= orders::budget(ops),
{
    lemma_cap(v, ss, told, clock, earlier, ops, n);
}

proof fn lemma_cap(
    v: PassV,
    ss: Seq<Strategy>,
    told: Seq<Told>,
    clock: spec_fn(int) -> int,
    earlier: Seq<i64>,
    ops: int,
    n: int,
)
    requires
        v.stage == ScanStage::Start,
        0 <= n <= told.len(),
        forall|i: int, j: int| 0 <= i <= j ==> #[trigger] clock(i) <= #[trigger] clock(j),
        forall|i: int|
            0 <= i < told.len() ==> came_at((#[trigger] told[i]).fact, clock(i + 1))
                && told[i].settings.hft && told[i].settings.hft_ops == ops,
        limits::capped(v.times, earlier, clock(0), orders::budget(ops)),
    ensures
        limits::capped(
            pass_run(v, ss, told, n).times,
            earlier + sent(v, ss, told, n),
            clock(n),
            orders::budget(ops),
        ),
        pass_run(v, ss, told, n).stage == ScanStage::Open ==> limits::has_room(
            earlier + sent(v, ss, told, n),
            clock(n),
            orders::budget(ops),
        ),
    decreases n,
{
    let max = orders::budget(ops);
    if n == 0 {
        assert(earlier + sent(v, ss, told, 0) =~= earlier);
    } else {
        let p = n - 1;
        lemma_cap(v, ss, told, clock, earlier, ops, p);
        let a = pass_run(v, ss, told, p);
        let b = pass_run(v, ss, told, n);
        let all = earlier + sent(v, ss, told, p);
        let t = told[p];
        assert(came_at(told[p].fact, clock(p + 1)));
        assert(clock(p) <= clock(n));
        match t.fact {
            PassFact::Limits { now, .. } => {
                limits::law_asking_keeps_the_cap(a.times, all, clock(p), now as int, max);
            },
            PassFact::Placed { ok, now } => {
                if !over(a) && a.stage == ScanStage::Open && ok {
                    limits::law_sending_keeps_the_cap(a.times, all, clock(p), now, max);
                    assert(earlier + sent(v, ss, told, n) =~= all.push(now));
                }
            },
            _ => {},
        }
    }
}

/// A higher timeframe confirms where that is asked for and both timeframes are ticked.
pub proof fn law_when_a_timeframe_confirms(s: Settings)
    ensures
        confirms(s) ==> s.mtf && s.tf_1min && s.tf_5min,
        s.mtf && s.tf_1min && s.tf_5min ==> confirms(s),
{
}

/// Entries are open inside a session window, where any is set, whatever the start and
/// cutoff times say, and between those times otherwise.
pub proof fn law_windows_replace_the_envelope(s: Settings, minute: int)
    requires
        clock::sessions_fit(s.trade_sessions@),
        clock::hhmm_fits(s.start_after@),
        clock::hhmm_fits(s.no_trade_after@),
    ensures
        clock::any_window(s.trade_sessions@) ==> (trading_time(s, minute) <==> clock::in_window(
            s.trade_sessions@,
            minute,
        )),
        !clock::any_window(s.trade_sessions@) && !s.start_after_enabled && !s.no_trade_after_enabled
            ==> trading_time(s, minute),
        !clock::any_window(s.trade_sessions@) && s.start_after_enabled && clock::hhmm(
            s.start_after@,
        ) is Some && minute < clock::hhmm(s.start_after@)->0 ==> !trading_time(s, minute),
        !clock::any_window(s.trade_sessions@) && s.no_trade_after_enabled && clock::hhmm(
            s.no_trade_after@,
        ) is Some && minute > clock::hhmm(s.no_trade_after@)->0 ==> !trading_time(s, minute),
{
}

/// A pass scans the strategies that can be scanned, each once, in their order.
pub proof fn law_pass_scans_in_order(
    ss: Seq<Strategy>,
    conditions: Seq<usize>,
    settings: Settings,
    selected: Map<Seq<char>, bool>,
    picked: Seq<Seq<char>>,
    n: int,
)
    requires
        0 < n <= ss.len(),
        ss.len() <= usize::MAX,
    ensures
        run_places(ss, conditions, settings, selected, picked, n) == run_places(
            ss,
            conditions,
            settings,
            selected,
            picked,
            n - 1,
        ) + if scan::scannable(ss[n - 1], conditions[n - 1] as nat, settings, selected, picked) {
            seq![(n - 1) as usize]
        } else {
            Seq::empty()
        },
        run_places(ss, conditions, settings, selected, picked, 0).len() == 0,
        opened(true, 0, ss, conditions, settings, selected, picked).len() > 0 ==> trading_time(
            settings,
            0,
        ),
        opened(false, 0, ss, conditions, settings, selected, picked).len() == 0,
{
    let was = run_places(ss, conditions, settings, selected, picked, n - 1);
    assert(was + seq![(n - 1) as usize] =~= was.push((n - 1) as usize));
    assert(was + Seq::<usize>::empty() =~= was);
}

/// An answer moves the scan of the current strategy on, or ends it: a strategy that is not
/// evaluated, fails a check, meets a limit, was placed or was queued gives way to the next
/// one, which starts from the beginning. A pass that is over stays as it is.
pub proof fn law_a_pass_moves_on(v: PassV, ss: Seq<Strategy>, s: Settings, f: PassFact)
    ensures
        ({
            let w = pass_after(v, ss, s, f);
            &&& v.at >= v.places.len() ==> w == v
            &&& w.at == v.at || w.at == v.at + 1
            &&& w.at == v.at + 1 ==> w.stage == ScanStage::Start
            &&& w.places == v.places && w.cap == v.cap
            &&& w.at == v.at && v.at < v.places.len() && v.stage == ScanStage::Start && w != v ==> f
                is Start && w.stage == ScanStage::Bars
        }),
        v.at < v.places.len() && v.stage == ScanStage::Queue ==> pass_after(
            v,
            ss,
            s,
            PassFact::Queued,
        ).at == v.at + 1,
        forall|ok: bool, now: i64|
            v.at < v.places.len() && v.stage == ScanStage::Open ==> (#[trigger] pass_after(
                v,
                ss,
                s,
                PassFact::Placed { ok, now },
            )).at == v.at + 1,
        forall|ok: bool, now: i64|
            v.at < v.places.len() && v.stage == ScanStage::Open ==> (#[trigger] pass_after(
                v,
                ss,
                s,
                PassFact::Placed { ok, now },
            )).times == if ok && s.hft {
                v.times.push(now)
            } else {
                v.times
            },
{
}

/// A strategy that starts is noted with its time, and the scan goes on to its bars exactly
/// where it is due.
pub proof fn law_a_start_is_noted(
    v: PassV,
    ss: Seq<Strategy>,
    s: Settings,
    running: usize,
    now: i64,
)
    requires
        0 <= v.at < v.places.len(),
        v.stage == ScanStage::Start,
    ensures
        ({
            let id = ss[v.places[v.at] as int].id@;
            let w = pass_after(v, ss, s, PassFact::Start { running, now });
            let go = (s.hft || running == 0) && now - (if v.last.dom().contains(id) {
                v.last[id] as int
            } else {
                0
            }) >= 100;
            &&& go ==> w.at == v.at && w.stage == ScanStage::Bars && w.last == v.last.insert(id, now)
            &&& go ==> (w.multi <==> s.mtf && s.tf_1min && s.tf_5min)
            &&& !go ==> w.at == v.at + 1 && w.last == v.last
        }),
{
}

} // verus!
