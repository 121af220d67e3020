//! The operator's document: settings, strategies, the run set and the lists
//! around it, with everything the operator can do to them.

use vstd::prelude::*;
use crate::book::{Closed, Position};
use crate::keep;
use crate::keep::{remove_rows, Refers};
use crate::limits::LogRow;
use crate::model;
use crate::model::{Settings, Strategy};
use crate::orders;
use crate::scan::TimingRow;
use crate::text;
use crate::textmap::TextMap;

verus! {

/// A saved template. The settings themselves are kept elsewhere, under a handle.
#[derive(Debug)]
pub struct Template {
    pub side: String,
    pub saved_at: i64,
    pub settings: Option<u64>,
    pub selected: Vec<String>,
}

/// A strategy waiting to be sent to the engine, or sent already.
#[derive(Debug)]
pub struct StagingRow {
    pub id: String,
    pub strategy_id: String,
    pub key: String,
    pub name: String,
    pub cat: String,
    pub tf: String,
    pub side: String,
    pub added_at: i64,
    pub sent_at: Option<i64>,
}

/// A strategy the operator saved to the final list.
#[derive(Debug)]
pub struct FinalRow {
    pub id: String,
    pub key: String,
    pub strategy_id: String,
    pub strategy_name: String,
    pub source: String,
    pub manual: bool,
    pub saved_at: i64,
}

/// The operator's document.
pub struct RtDoc {
    pub settings: Settings,
    pub method: String,
    /// Order settings of each method, kept elsewhere under a handle.
    pub order_cfg: TextMap<u64>,
    pub strategies: Vec<Strategy>,
    pub positions: Vec<Position>,
    pub closed: Vec<Closed>,
    pub armed: bool,
    pub engine_on: bool,
    pub auto_lots: bool,
    pub logs: Vec<LogRow>,
    pub last_square_off_day: String,
    pub templates: TextMap<Template>,
    /// Ticked strategies.
    pub selected: TextMap<bool>,
    pub staging: Vec<StagingRow>,
    pub staging_auto: bool,
    /// Entry timing, newest first.
    pub entry_timing: Vec<TimingRow>,
    pub final_strategies: Vec<FinalRow>,
    /// Keys removed from the final list.
    pub final_excluded: TextMap<bool>,
}

impl Default for RtDoc {
    fn default() -> (r: Self)
        ensures
            model::defaults(r.settings),
            r.method@ == "normal"@,
            r.order_cfg@ == Map::<Seq<char>, u64>::empty(),
            r.strategies@.len() == 0,
            r.positions@.len() == 0,
            r.closed@.len() == 0,
            !r.armed,
            !r.engine_on,
            !r.auto_lots,
            r.logs@.len() == 0,
            r.last_square_off_day@.len() == 0,
            r.templates@ == Map::<Seq<char>, Template>::empty(),
            r.selected@ == Map::<Seq<char>, bool>::empty(),
            r.staging@.len() == 0,
            !r.staging_auto,
            r.entry_timing@.len() == 0,
            r.final_strategies@.len() == 0,
            r.final_excluded@ == Map::<Seq<char>, bool>::empty(),
    {
        proof {
            reveal_strlit("");
        }
        RtDoc {
            settings: Settings::default(),
            method: "normal".to_owned(),
            order_cfg: TextMap::new(),
            strategies: Vec::new(),
            positions: Vec::new(),
            closed: Vec::new(),
            armed: false,
            engine_on: false,
            auto_lots: false,
            logs: Vec::new(),
            last_square_off_day: "".to_owned(),
            templates: TextMap::new(),
            selected: TextMap::new(),
            staging: Vec::new(),
            staging_auto: false,
            entry_timing: Vec::new(),
            final_strategies: Vec::new(),
            final_excluded: TextMap::new(),
        }
    }
}

/// An armed engine is running.
pub open spec fn armed_runs(d: RtDoc) -> bool {
    d.armed ==> d.engine_on
}

/// Why a request is refused.
#[derive(Clone, Copy, Debug, PartialEq, Eq, Structural)]
pub enum DocError {
    CannotArm,
    Disarmed,
    StrategyNotFound,
    TemplateNotFound,
    NameRequired,
    UnknownAction,
}

/// The text of a refusal.
pub open spec fn refusal(e: DocError) -> Seq<char> {
    match e {
        DocError::CannotArm => "cannot arm: Dhan session not connected"@,
        DocError::Disarmed => "engine is disarmed"@,
        DocError::StrategyNotFound => "strategy not found"@,
        DocError::TemplateNotFound => "template not found"@,
        DocError::NameRequired => "name required"@,
        DocError::UnknownAction => "unknown action"@,
    }
}

/// The text of a refusal.
pub fn message(e: DocError) -> (r: &'static str)
    ensures
        r@ == refusal(e),
{
    match e {
        DocError::CannotArm => "cannot arm: Dhan session not connected",
        DocError::Disarmed => "engine is disarmed",
        DocError::StrategyNotFound => "strategy not found",
        DocError::TemplateNotFound => "template not found",
        DocError::NameRequired => "name required",
        DocError::UnknownAction => "unknown action",
    }
}

/// The first strategy from `i` on with the id, or the length.
pub open spec fn strategy_place(ss: Seq<Strategy>, id: Seq<char>, i: int) -> int
    decreases ss.len() - i,
{
    if i >= ss.len() {
        ss.len() as int
    } else if ss[i].id@ == id {
        i
    } else {
        strategy_place(ss, id, i + 1)
    }
}

/// The first strategy with the id.
pub fn find_strategy(ss: &Vec<Strategy>, id: &str) -> (r: Option<usize>)
    ensures
        match r {
            Some(i) => i == strategy_place(ss@, id@, 0) && i < ss@.len(),
            None => strategy_place(ss@, id@, 0) == ss@.len(),
        },
{
    let mut i: usize = 0;
    while i < ss.len()
        invariant
            i <= ss.len(),
            strategy_place(ss@, id@, 0) == strategy_place(ss@, id@, i as int),
        decreases ss.len() - i,
    {
        if text::same(ss[i].id.as_str(), id) {
            return Some(i);
        }
        i += 1;
    }
    None
}

/// The strategy is saved.
pub open spec fn known(ss: Seq<Strategy>, id: Seq<char>) -> bool {
    strategy_place(ss, id, 0) < ss.len()
}

/// The strategy answers to the id or to the name.
pub open spec fn answers(s: Strategy, id: Seq<char>, name: Seq<char>) -> bool {
    (id.len() > 0 && s.id@ == id) || (name.len() > 0 && s.name@ == name)
}

/// The first strategy from `i` on that answers to the id or the name.
pub open spec fn named_place(ss: Seq<Strategy>, id: Seq<char>, name: Seq<char>, i: int) -> int
    decreases ss.len() - i,
{
    if i >= ss.len() {
        ss.len() as int
    } else if answers(ss[i], id, name) {
        i
    } else {
        named_place(ss, id, name, i + 1)
    }
}

fn is_empty_text(s: &str) -> (r: bool)
    ensures
        r == (s@.len() == 0),
{
    text::chars_of(s).len() == 0
}

/// The first strategy that answers to the id or the name.
pub fn find_named(ss: &Vec<Strategy>, id: &str, name: &str) -> (r: Option<usize>)
    ensures
        match r {
            Some(i) => i == named_place(ss@, id@, name@, 0) && i < ss@.len(),
            None => named_place(ss@, id@, name@, 0) == ss@.len(),
        },
{
    let by_id = !is_empty_text(id);
    let by_name = !is_empty_text(name);
    let mut i: usize = 0;
    while i < ss.len()
        invariant
            i <= ss.len(),
            by_id == (id@.len() > 0),
            by_name == (name@.len() > 0),
            named_place(ss@, id@, name@, 0) == named_place(ss@, id@, name@, i as int),
        decreases ss.len() - i,
    {
        if (by_id && text::same(ss[i].id.as_str(), id)) || (by_name && text::same(
            ss[i].name.as_str(),
            name,
        )) {
            return Some(i);
        }
        i += 1;
    }
    None
}

/// The candle value of a setting: trimmed, in lower case, without its prefix;
/// the close where it names none.
pub open spec fn exec_key(s: Seq<char>) -> Seq<char> {
    let low = text::downs(text::trimmed(s));
    let k = match text::after(low, "candle_"@) {
        Some(t) => t,
        None => low,
    };
    if k == "open"@ || k == "high"@ || k == "low"@ || k == "close"@ {
        k
    } else {
        "close"@
    }
}

fn exec_key_of(s: &str) -> (r: String)
    ensures
        r@ == exec_key(s@),
{
    let t = text::trim(s);
    let low = text::to_ascii_lower(t.as_str());
    let k = match text::strip_prefix(low.as_str(), "candle_") {
        Some(x) => x,
        None => low,
    };
    if text::one_of(k.as_str(), "open", "high") || text::one_of(k.as_str(), "low", "close") {
        k
    } else {
        "close".to_owned()
    }
}

/// Orders a second as stored: six where unset, within the venue's limits.
pub open spec fn stored_ops(ops: int) -> int {
    if ops <= 0 {
        6
    } else {
        orders::budget(ops)
    }
}

fn ops_to_store(ops: i64) -> (r: i64)
    ensures
        r == stored_ops(ops as int),
{
    if ops <= 0 {
        6
    } else {
        orders::hft_ops_budget(ops)
    }
}

fn same_ids(a: &Vec<i64>, b: &Vec<i64>) -> (r: bool)
    ensures
        r == (a@ == b@),
{
    if a.len() != b.len() {
        return false;
    }
    let mut i: usize = 0;
    while i < a.len()
        invariant
            i <= a.len(),
            a@.len() == b@.len(),
            forall|k: int| 0 <= k < i ==> a@[k] == b@[k],
        decreases a.len() - i,
    {
        if a[i] != b[i] {
            assert(a@[i as int] != b@[i as int]);
            return false;
        }
        i += 1;
    }
    assert(a@ =~= b@);
    true
}

/// The candle value is one that older documents may hold.
pub open spec fn stored_exec(e: Seq<char>) -> bool {
    e == "open"@ || e == "high"@ || e == "low"@ || e == "close"@ || e == "candle_open"@ || e
        == "candle_high"@ || e == "candle_low"@ || e == "candle_close"@
}

fn is_stored_exec(e: &str) -> (r: bool)
    ensures
        r == stored_exec(e@),
{
    text::one_of(e, "open", "high") || text::one_of(e, "low", "close") || text::one_of(
        e,
        "candle_open",
        "candle_high",
    ) || text::one_of(e, "candle_low", "candle_close")
}

/// Settings brought into range: a missing trade count becomes five, orders a
/// second are limited, the candle value becomes a known one.
pub open spec fn repaired(o: Settings, s: Settings) -> bool {
    &&& s.trade_limit_count == if o.trade_limit_count <= 0 {
        5
    } else {
        o.trade_limit_count
    }
    &&& s.hft_ops == stored_ops(o.hft_ops as int)
    &&& s.hft_exec_on@ == if stored_exec(o.hft_exec_on@) {
        o.hft_exec_on@
    } else {
        "close"@
    }
    &&& s == Settings {
        trade_limit_count: s.trade_limit_count,
        hft_ops: s.hft_ops,
        hft_exec_on: s.hft_exec_on,
        ..o
    }
}

fn repair_settings(s: &mut Settings)
    ensures
        repaired(*old(s), *final(s)),
{
    let count: i64 = if s.trade_limit_count <= 0 {
        5
    } else {
        s.trade_limit_count
    };
    let ops: i64 = ops_to_store(s.hft_ops);
    let exec = if is_stored_exec(s.hft_exec_on.as_str()) {
        s.hft_exec_on.clone()
    } else {
        "close".to_owned()
    };
    s.trade_limit_count = count;
    s.hft_ops = ops;
    s.hft_exec_on = exec;
}

/// The open positions after a reset.
pub open spec fn positions_after(ps: Seq<Position>, what: Seq<char>, paper: bool) -> Seq<Position> {
    if what == "smart"@ && paper {
        Seq::empty()
    } else {
        ps
    }
}

impl Refers for Strategy {
    open spec fn refers(self, id: Seq<char>) -> bool {
        self.id@ == id
    }

    open spec fn carries(self, key: Seq<char>) -> bool {
        self.id@ == key
    }

    fn refers_to(&self, id: &str) -> (r: bool) {
        text::same(self.id.as_str(), id)
    }

    fn carries_key(&self, key: &str) -> (r: bool) {
        text::same(self.id.as_str(), key)
    }
}

impl Refers for StagingRow {
    open spec fn refers(self, id: Seq<char>) -> bool {
        self.id@ == id || self.strategy_id@ == id || self.key@ == id
    }

    open spec fn carries(self, key: Seq<char>) -> bool {
        self.key@ == key
    }

    fn refers_to(&self, id: &str) -> (r: bool) {
        text::same(self.id.as_str(), id) || text::same(self.strategy_id.as_str(), id)
            || text::same(self.key.as_str(), id)
    }

    fn carries_key(&self, key: &str) -> (r: bool) {
        text::same(self.key.as_str(), key)
    }
}

impl Refers for FinalRow {
    open spec fn refers(self, id: Seq<char>) -> bool {
        self.id@ == id || self.strategy_id@ == id
    }

    open spec fn carries(self, key: Seq<char>) -> bool {
        self.key@ == key
    }

    fn refers_to(&self, id: &str) -> (r: bool) {
        text::same(self.id.as_str(), id) || text::same(self.strategy_id.as_str(), id)
    }

    fn carries_key(&self, key: &str) -> (r: bool) {
        text::same(self.key.as_str(), key)
    }
}

impl Refers for TimingRow {
    open spec fn refers(self, id: Seq<char>) -> bool {
        self.strategy_id@ == id
    }

    open spec fn carries(self, key: Seq<char>) -> bool {
        self.strategy_id@ == key
    }

    fn refers_to(&self, id: &str) -> (r: bool) {
        text::same(self.strategy_id.as_str(), id)
    }

    fn carries_key(&self, key: &str) -> (r: bool) {
        text::same(self.strategy_id.as_str(), key)
    }
}

/// The routing the operator has just marked as the default.
#[derive(Clone, Copy, Debug, PartialEq, Eq, Structural)]
pub enum Defaulted {
    RunIn,
    TradeIn,
    Neither,
}

impl RtDoc {
    /// Repairs the settings of a document read from disk.
    pub fn repair(&mut self)
        ensures
            repaired(old(self).settings, final(self).settings),
            *final(self) == (RtDoc { settings: final(self).settings, ..*old(self) }),
    {
        repair_settings(&mut self.settings);
    }

    /// Takes over posted settings. The answer says whether the movers scan is due
    /// at once (the exclusions changed) and what was just marked as default.
    pub fn settings_post(&mut self, posted: Settings) -> (r: (bool, Defaulted))
        ensures
            ({
                let s = final(self).settings;
                let o = old(self).settings;
                &&& s.hft_ops == stored_ops(posted.hft_ops as int)
                &&& s.hft_exec_on@ == exec_key(posted.hft_exec_on@)
                &&& s == Settings { hft_ops: s.hft_ops, hft_exec_on: s.hft_exec_on, ..posted }
                &&& *final(self) == RtDoc { settings: s, ..*old(self) }
                &&& r.0 == (posted.scanner_exclude@ != o.scanner_exclude@)
                &&& r.1 == if !o.run_in_default && posted.run_in_default {
                    Defaulted::RunIn
                } else if !o.trade_in_default && posted.trade_in_default {
                    Defaulted::TradeIn
                } else {
                    Defaulted::Neither
                }
            }),
    {
        let rescan = !same_ids(&posted.scanner_exclude, &self.settings.scanner_exclude);
        let what = if !self.settings.run_in_default && posted.run_in_default {
            Defaulted::RunIn
        } else if !self.settings.trade_in_default && posted.trade_in_default {
            Defaulted::TradeIn
        } else {
            Defaulted::Neither
        };
        let mut s = posted;
        s.hft_ops = ops_to_store(s.hft_ops);
        s.hft_exec_on = exec_key_of(s.hft_exec_on.as_str());
        self.settings = s;
        (rescan, what)
    }

    /// Chooses the order method, and its settings where given. An unnamed method
    /// changes nothing.
    pub fn method_post(&mut self, method: &str, cfg: Option<u64>)
        ensures
            method@.len() == 0 ==> *final(self) == *old(self),
            method@.len() > 0 ==> {
                &&& final(self).method@ == method@
                &&& final(self).order_cfg@ == match cfg {
                    Some(h) => old(self).order_cfg@.insert(method@, h),
                    None => old(self).order_cfg@,
                }
                &&& *final(self) == RtDoc {
                    method: final(self).method,
                    order_cfg: final(self).order_cfg,
                    ..*old(self)
                }
            },
    {
        if is_empty_text(method) {
            return ;
        }
        self.method = method.to_owned();
        if let Some(h) = cfg {
            self.order_cfg.insert(method.to_owned(), h);
        }
    }

    /// Saves a strategy: a new one under a fresh id, an unknown one as it is, a
    /// known one in its place.
    pub fn strategies_post(&mut self, s: Strategy, now: i64)
        ensures
            ({
                let was = old(self).strategies@;
                let i = strategy_place(was, s.id@, 0);
                let now_list = final(self).strategies@;
                &&& *final(self) == RtDoc { strategies: final(self).strategies, ..*old(self) }
                &&& if s.id@.len() == 0 {
                    &&& now_list.len() == was.len() + 1
                    &&& now_list.drop_last() == was
                    &&& now_list.last().id@ == "rtstrat_"@ + text::int_dec(now as int)
                    &&& now_list.last() == Strategy { id: now_list.last().id, ..s }
                } else if i < was.len() {
                    now_list == was.update(i, s)
                } else {
                    now_list == was.push(s)
                }
            }),
    {
        if is_empty_text(s.id.as_str()) {
            let mut t = s;
            t.id = orders::gen_id("rtstrat", now);
            proof {
                reveal_strlit("rtstrat");
                reveal_strlit("_");
                reveal_strlit("rtstrat_");
                assert("rtstrat"@ + "_"@ =~= "rtstrat_"@);
            }
            let ghost was = self.strategies@;
            self.strategies.push(t);
            assert(self.strategies@.drop_last() =~= was);
            return ;
        }
        match find_strategy(&self.strategies, s.id.as_str()) {
            Some(i) => {
                self.strategies.set(i, s);
            },
            None => {
                self.strategies.push(s);
            },
        }
    }

    /// Deletes a strategy with everything that refers to it.
    pub fn strategy_delete(&mut self, id: &str)
        ensures
            final(self).strategies@ == keep::stay(old(self).strategies@, false, id@),
            final(self).selected@ == old(self).selected@.remove(id@),
            final(self).staging@ == keep::stay(old(self).staging@, false, id@),
            final(self).final_strategies@ == keep::stay(old(self).final_strategies@, false, id@),
            final(self).final_excluded@ == old(self).final_excluded@.remove(id@),
            final(self).entry_timing@ == keep::stay(old(self).entry_timing@, false, id@),
            *final(self) == (RtDoc {
                strategies: final(self).strategies,
                selected: final(self).selected,
                staging: final(self).staging,
                final_strategies: final(self).final_strategies,
                final_excluded: final(self).final_excluded,
                entry_timing: final(self).entry_timing,
                ..*old(self)
            }),
    {
        let mut strategies: Vec<Strategy> = Vec::new();
        core::mem::swap(&mut strategies, &mut self.strategies);
        self.strategies = remove_rows(strategies, false, id);
        self.selected.remove(id);
        let mut staging: Vec<StagingRow> = Vec::new();
        core::mem::swap(&mut staging, &mut self.staging);
        self.staging = remove_rows(staging, false, id);
        let mut finals: Vec<FinalRow> = Vec::new();
        core::mem::swap(&mut finals, &mut self.final_strategies);
        self.final_strategies = remove_rows(finals, false, id);
        self.final_excluded.remove(id);
        let mut timing: Vec<TimingRow> = Vec::new();
        core::mem::swap(&mut timing, &mut self.entry_timing);
        self.entry_timing = remove_rows(timing, false, id);
    }

    /// Notes a square-off of the day: the engine is disarmed.
    pub fn squared_off(&mut self, day: &str)
        ensures
            final(self).last_square_off_day@ == day@,
            *final(self) == (RtDoc {
                last_square_off_day: final(self).last_square_off_day,
                armed: false,
                ..*old(self)
            }),
            armed_runs(*final(self)),
    {
        self.last_square_off_day = day.to_owned();
        self.armed = false;
    }

    /// Starts or stops the engine; a stopped engine is disarmed.
    pub fn engine_post(&mut self, on: bool)
        ensures
            *final(self) == (RtDoc {
                engine_on: on,
                armed: old(self).armed && on,
                ..*old(self)
            }),
            armed_runs(*final(self)),
    {
        self.engine_on = on;
        if !on {
            self.armed = false;
        }
    }

    /// Arms or disarms the engine; an armed engine runs. A live book cannot be
    /// armed without a broker session.
    pub fn arm_post(&mut self, on: bool, connected: bool, paper: bool) -> (r: Result<(), DocError>)
        ensures
            r is Err <==> on && !connected && !paper,
            r is Err ==> r->Err_0 == DocError::CannotArm && *final(self) == *old(self),
            r is Ok ==> *final(self) == (RtDoc {
                armed: on,
                engine_on: old(self).engine_on || on,
                ..*old(self)
            }),
            r is Ok ==> armed_runs(*final(self)),
    {
        if on && !connected && !paper {
            return Err(DocError::CannotArm);
        }
        self.armed = on;
        if on {
            self.engine_on = true;
        }
        Ok(())
    }

    /// Sets the automatic lot count.
    pub fn auto_lots_post(&mut self, on: bool)
        ensures
            *final(self) == (RtDoc { auto_lots: on, ..*old(self) }),
    {
        self.auto_lots = on;
    }

    /// The strategy a manual entry trades: the posted one where it has an id,
    /// else the saved one with `id`. Refused while disarmed.
    pub fn entry_post(&self, posted: Option<Strategy>, id: &str) -> (r: Result<Strategy, DocError>)
        ensures
            ({
                let own = posted is Some && (posted->0).id@.len() > 0;
                let i = strategy_place(self.strategies@, id@, 0);
                if !self.armed {
                    r is Err && r->Err_0 == DocError::Disarmed
                } else if own {
                    r is Ok && r->Ok_0 == posted->0
                } else if i < self.strategies@.len() {
                    r is Ok && r->Ok_0 == self.strategies@[i]
                } else {
                    r is Err && r->Err_0 == DocError::StrategyNotFound
                }
            }),
    {
        if !self.armed {
            return Err(DocError::Disarmed);
        }
        if let Some(s) = posted {
            if !is_empty_text(s.id.as_str()) {
                return Ok(s);
            }
        }
        match find_strategy(&self.strategies, id) {
            Some(i) => Ok(self.strategies[i].clone()),
            None => Err(DocError::StrategyNotFound),
        }
    }

    /// Clears parts of the document. Open positions survive except those of the
    /// simulated book in a `smart` reset. The answer says whether the caches are
    /// cleared too.
    pub fn reset_post(&mut self, what: &str, paper: bool) -> (r: bool)
        ensures
            r == (what@ == "all"@),
            ({
                let o = *old(self);
                let f = *final(self);
                let w = what@;
                let books = w == "closed"@ || w == "smart"@ || w == "all"@;
                let log = w == "logs"@ || w == "smart"@ || w == "all"@;
                &&& f.closed@ == if books {
                    Seq::empty()
                } else {
                    o.closed@
                }
                &&& f.logs@ == if log {
                    Seq::empty()
                } else {
                    o.logs@
                }
                &&& f.positions@ == positions_after(o.positions@, w, paper)
                &&& w == "all"@ ==> f.strategies@.len() == 0 && f.selected@ == Map::<
                    Seq<char>,
                    bool,
                >::empty() && f.staging@.len() == 0 && f.final_strategies@.len() == 0
                    && f.final_excluded@ == Map::<Seq<char>, bool>::empty()
                    && f.entry_timing@.len() == 0
                &&& w != "all"@ ==> f.strategies@ == o.strategies@ && f.selected@ == o.selected@
                    && f.staging@ == o.staging@ && f.final_strategies@ == o.final_strategies@
                    && f.final_excluded@ == o.final_excluded@ && f.entry_timing@
                    == o.entry_timing@
                &&& f == RtDoc {
                    closed: f.closed,
                    logs: f.logs,
                    positions: f.positions,
                    strategies: f.strategies,
                    selected: f.selected,
                    staging: f.staging,
                    final_strategies: f.final_strategies,
                    final_excluded: f.final_excluded,
                    entry_timing: f.entry_timing,
                    ..o
                }
            }),
    {
        proof {
            reveal_strlit("closed");
            reveal_strlit("logs");
            reveal_strlit("smart");
            reveal_strlit("all");
            assert("closed"@.len() == 6 && "logs"@.len() == 4 && "smart"@.len() == 5 && "all"@.len()
                == 3);
        }
        if text::same(what, "closed") {
            self.closed.clear();
            return false;
        }
        if text::same(what, "logs") {
            self.logs.clear();
            return false;
        }
        if text::same(what, "smart") {
            self.closed.clear();
            self.logs.clear();
            if paper {
                self.positions.clear();
            }
            return false;
        }
        if text::same(what, "all") {
            self.closed.clear();
            self.logs.clear();
            self.strategies.clear();
            self.selected.clear();
            self.staging.clear();
            self.final_strategies.clear();
            self.final_excluded.clear();
            self.entry_timing.clear();
            return true;
        }
        false
    }
}

/// A reset never discards an open position of a live book, and in the simulated
/// book only the smart reset does.
pub proof fn law_reset_keeps_positions(ps: Seq<Position>, what: Seq<char>, paper: bool)
    requires
        !paper || what != "smart"@,
    ensures
        positions_after(ps, what, paper) == ps,
{
}

proof fn lemma_strategy_place(ss: Seq<Strategy>, id: Seq<char>, i: int)
    requires
        0 <= i <= ss.len(),
    ensures
        i <= strategy_place(ss, id, i) <= ss.len(),
        strategy_place(ss, id, i) < ss.len() ==> ss[strategy_place(ss, id, i)].id@ == id,
        forall|k: int| i <= k < strategy_place(ss, id, i) ==> (#[trigger] ss[k]).id@ != id,
    decreases ss.len() - i,
{
    if i < ss.len() && ss[i].id@ != id {
        lemma_strategy_place(ss, id, i + 1);
    }
}

/// A strategy is known exactly where one with its id is saved, and its place is that of
/// the first.
pub proof fn law_known_is_saved(ss: Seq<Strategy>, id: Seq<char>)
    ensures
        known(ss, id) <==> exists|i: int| 0 <= i < ss.len() && (#[trigger] ss[i]).id@ == id,
        forall|k: int| 0 <= k < strategy_place(ss, id, 0) ==> (#[trigger] ss[k]).id@ != id,
        strategy_place(ss, id, 0) < ss.len() ==> ss[strategy_place(ss, id, 0)].id@ == id,
{
    lemma_strategy_place(ss, id, 0);
}

/// The strategy meant by an id or a name is the first that has either; an empty id or name
/// means nobody.
pub proof fn law_named_is_the_first(ss: Seq<Strategy>, id: Seq<char>, name: Seq<char>, i: int)
    requires
        0 <= i <= ss.len(),
    ensures
        ({
            let k = named_place(ss, id, name, i);
            &&& i <= k <= ss.len()
            &&& k < ss.len() ==> id.len() > 0 && ss[k].id@ == id || name.len() > 0 && ss[k].name@
                == name
            &&& forall|j: int|
                i <= j < k ==> (id.len() == 0 || (#[trigger] ss[j]).id@ != id) && (name.len() == 0
                    || ss[j].name@ != name)
        }),
    decreases ss.len() - i,
{
    if i < ss.len() && !answers(ss[i], id, name) {
        law_named_is_the_first(ss, id, name, i + 1);
    }
}

/// Stored orders a second: six where none are set, else the number within one and thirty.
pub proof fn law_stored_orders_a_second(ops: int)
    ensures
        ops <= 0 ==> stored_ops(ops) == 6,
        1 <= ops <= 30 ==> stored_ops(ops) == ops,
        ops > 30 ==> stored_ops(ops) == 30,
{
}

/// Repair brings settings into range and touches nothing else, and settings in range are
/// left as they are.
pub proof fn law_repair_touches_what_is_out_of_range(o: Settings, s: Settings)
    requires
        repaired(o, s),
    ensures
        o.trade_limit_count > 0 ==> s.trade_limit_count == o.trade_limit_count,
        o.trade_limit_count <= 0 ==> s.trade_limit_count == 5,
        1 <= o.hft_ops <= 30 ==> s.hft_ops == o.hft_ops,
        1 <= s.hft_ops <= 30,
        s.trade_limit == o.trade_limit,
        s.manual_sl == o.manual_sl,
        s.filters == o.filters,
        s.strike_mode == o.strike_mode,
{
}

/// A smart reset empties the simulated book; every other reset, and every reset of a live
/// book, keeps what is open.
pub proof fn law_reset_empties_the_simulated_book(ps: Seq<Position>, what: Seq<char>, paper: bool)
    ensures
        positions_after(ps, "smart"@, true).len() == 0,
        positions_after(ps, what, false) == ps,
        what != "smart"@ ==> positions_after(ps, what, paper) == ps,
{
}

/// The candle value of a posted setting: the one it names, in any letters, with blanks
/// around it or the `candle_` before it, and the close for every other text.
pub proof fn law_posted_candle_value(s: Seq<char>)
    ensures
        ({
            let low = text::downs(text::trimmed(s));
            let k = exec_key(s);
            &&& k == "open"@ || k == "high"@ || k == "low"@ || k == "close"@
            &&& low == "open"@ ==> k == "open"@
            &&& low == "high"@ ==> k == "high"@
            &&& low == "low"@ ==> k == "low"@
            &&& low == "candle_"@ + "open"@ ==> k == "open"@
            &&& low == "candle_"@ + "high"@ ==> k == "high"@
            &&& low == "candle_"@ + "low"@ ==> k == "low"@
        }),
{
    reveal_strlit("candle_");
    reveal_strlit("open");
    reveal_strlit("high");
    reveal_strlit("low");
    let p = "candle_"@;
    assert(p.len() == 7);
    assert("open"@.len() == 4 && "high"@.len() == 4 && "low"@.len() == 3);
    text::law_parts_are_found(p, p, "open"@);
    text::law_parts_are_found(p, p, "high"@);
    text::law_parts_are_found(p, p, "low"@);
}

/// The settings of a new document are in range: repairing them changes nothing, and orders
/// a second that were never set are stored as they are there.
pub proof fn law_new_settings_are_in_range(s: Settings)
    requires
        crate::model::defaults(s),
    ensures
        repaired(s, s),
        s.hft_ops == stored_ops(0),
        s.trade_limit_count == 5,
{
}

} // verus!
