//! The run set and the lists around it: selection, staging, the final list and
//! the templates.

use vstd::prelude::*;
use crate::doc;
use crate::doc::{find_named, find_strategy, DocError, FinalRow, RtDoc, StagingRow, Template};
use crate::keep;
use crate::keep::remove_rows;
use crate::model;
use crate::model::Strategy;
use crate::text;
use crate::textmap::TextMap;

verus! {

/// What a selection request asks for.
#[derive(Clone, Copy, Debug, PartialEq, Eq, Structural)]
pub enum SelectionAction {
    Sync,
    SelectAll,
    Clear,
    Toggle,
    AddSaved,
    Remove,
    AiPick,
    RunIn,
}

/// The action a selection request names.
pub fn selection_action(a: &str) -> (r: Option<SelectionAction>)
    ensures
        r == if a@ == "sync"@ {
            Some(SelectionAction::Sync)
        } else if a@ == "selectAll"@ {
            Some(SelectionAction::SelectAll)
        } else if a@ == "none"@ {
            Some(SelectionAction::Clear)
        } else if a@ == "toggle"@ {
            Some(SelectionAction::Toggle)
        } else if a@ == "addSaved"@ {
            Some(SelectionAction::AddSaved)
        } else if a@ == "remove"@ {
            Some(SelectionAction::Remove)
        } else if a@ == "aiPick"@ {
            Some(SelectionAction::AiPick)
        } else if a@ == "runIn"@ {
            Some(SelectionAction::RunIn)
        } else {
            None
        },
{
    if text::same(a, "sync") {
        Some(SelectionAction::Sync)
    } else if text::same(a, "selectAll") {
        Some(SelectionAction::SelectAll)
    } else if text::same(a, "none") {
        Some(SelectionAction::Clear)
    } else if text::same(a, "toggle") {
        Some(SelectionAction::Toggle)
    } else if text::same(a, "addSaved") {
        Some(SelectionAction::AddSaved)
    } else if text::same(a, "remove") {
        Some(SelectionAction::Remove)
    } else if text::same(a, "aiPick") {
        Some(SelectionAction::AiPick)
    } else if text::same(a, "runIn") {
        Some(SelectionAction::RunIn)
    } else {
        None
    }
}

/// What a staging request asks for.
#[derive(Clone, Copy, Debug, PartialEq, Eq, Structural)]
pub enum StagingAction {
    Add,
    Remove,
    RemoveAll,
    Send,
    AutoSend,
}

/// The action a staging request names.
pub fn staging_action(a: &str) -> (r: Option<StagingAction>)
    ensures
        r == if a@ == "add"@ {
            Some(StagingAction::Add)
        } else if a@ == "remove"@ {
            Some(StagingAction::Remove)
        } else if a@ == "removeAll"@ {
            Some(StagingAction::RemoveAll)
        } else if a@ == "send"@ {
            Some(StagingAction::Send)
        } else if a@ == "autoSend"@ {
            Some(StagingAction::AutoSend)
        } else {
            None
        },
{
    if text::same(a, "add") {
        Some(StagingAction::Add)
    } else if text::same(a, "remove") {
        Some(StagingAction::Remove)
    } else if text::same(a, "removeAll") {
        Some(StagingAction::RemoveAll)
    } else if text::same(a, "send") {
        Some(StagingAction::Send)
    } else if text::same(a, "autoSend") {
        Some(StagingAction::AutoSend)
    } else {
        None
    }
}

/// What a request on the final list asks for.
#[derive(Clone, Copy, Debug, PartialEq, Eq, Structural)]
pub enum FinalAction {
    Save,
    Remove,
    RemoveAll,
    Run,
}

/// The action a request on the final list names.
pub fn final_action(a: &str) -> (r: Option<FinalAction>)
    ensures
        r == if a@ == "save"@ {
            Some(FinalAction::Save)
        } else if a@ == "remove"@ {
            Some(FinalAction::Remove)
        } else if a@ == "removeAll"@ {
            Some(FinalAction::RemoveAll)
        } else if a@ == "run"@ {
            Some(FinalAction::Run)
        } else {
            None
        },
{
    if text::same(a, "save") {
        Some(FinalAction::Save)
    } else if text::same(a, "remove") {
        Some(FinalAction::Remove)
    } else if text::same(a, "removeAll") {
        Some(FinalAction::RemoveAll)
    } else if text::same(a, "run") {
        Some(FinalAction::Run)
    } else {
        None
    }
}

/// The map with the first `n` ids ticked.
pub open spec fn ticked(m: Map<Seq<char>, bool>, ids: Seq<Seq<char>>, n: int) -> Map<Seq<char>, bool>
    decreases n,
{
    if n <= 0 {
        m
    } else {
        ticked(m, ids, n - 1).insert(ids[n - 1], true)
    }
}

fn tick(selected: &mut TextMap<bool>, ids: &Vec<String>)
    ensures
        final(selected)@ == ticked(old(selected)@, text::views(ids@), ids@.len() as int),
{
    let ghost start = selected@;
    let mut i: usize = 0;
    while i < ids.len()
        invariant
            i <= ids.len(),
            selected@ == ticked(start, text::views(ids@), i as int),
        decreases ids.len() - i,
    {
        selected.insert(ids[i].clone(), true);
        assert(text::views(ids@)[i as int] == ids@[i as int]@);
        i += 1;
    }
}

/// The ids of strategies.
pub open spec fn ids_of(ss: Seq<Strategy>) -> Seq<Seq<char>> {
    Seq::new(ss.len(), |i: int| ss[i].id@)
}

fn strategy_ids(ss: &Vec<Strategy>) -> (r: Vec<String>)
    ensures
        text::views(r@) == ids_of(ss@),
{
    let mut out: Vec<String> = Vec::new();
    let mut i: usize = 0;
    while i < ss.len()
        invariant
            i <= ss.len(),
            out@.len() == i,
            forall|k: int| 0 <= k < i ==> (#[trigger] out@[k])@ == ss@[k].id@,
        decreases ss.len() - i,
    {
        out.push(ss[i].id.clone());
        i += 1;
    }
    assert(text::views(out@) =~= ids_of(ss@));
    out
}

/// The given value, else the current one.
pub open spec fn given<T>(v: Option<T>, current: T) -> T {
    match v {
        Some(x) => x,
        None => current,
    }
}

fn given_flag(v: Option<bool>, current: bool) -> (r: bool)
    ensures
        r == given(v, current),
{
    match v {
        Some(x) => x,
        None => current,
    }
}

fn given_count(v: Option<i64>, current: i64) -> (r: i64)
    ensures
        r == given(v, current),
{
    match v {
        Some(x) => x,
        None => current,
    }
}

fn given_text(v: &str, current: &str) -> (r: String)
    ensures
        r@ == if v@.len() > 0 {
            v@
        } else {
            current@
        },
{
    if text::chars_of(v).len() > 0 {
        v.to_owned()
    } else {
        current.to_owned()
    }
}

#[verifier::rlimit(100)]
#[verifier::spinoff_prover]
fn set_picks(s: &mut model::Settings, count: i64, up: bool, down: bool)
    ensures
        *final(s) == (model::Settings {
            ai_pick: true,
            ai_pick_n: count,
            ai_pick_bull: up,
            ai_pick_bear: down,
            ..*old(s)
        }),
{
    s.ai_pick = true;
    s.ai_pick_n = count;
    set_pick_sides(s, up, down);
}

fn set_pick_sides(s: &mut model::Settings, up: bool, down: bool)
    ensures
        *final(s) == (model::Settings { ai_pick_bull: up, ai_pick_bear: down, ..*old(s) }),
{
    s.ai_pick_bull = up;
    s.ai_pick_bear = down;
}

impl RtDoc {
    /// Ticks exactly the given ids.
    pub fn select_sync(&mut self, ids: &Vec<String>)
        ensures
            final(self).selected@ == ticked(
                Map::empty(),
                text::views(ids@),
                ids@.len() as int,
            ),
            *final(self) == (RtDoc { selected: final(self).selected, ..*old(self) }),
    {
        self.selected.clear();
        tick(&mut self.selected, ids);
    }

    /// Ticks every saved strategy.
    pub fn select_all(&mut self)
        ensures
            final(self).selected@ == ticked(
                old(self).selected@,
                ids_of(old(self).strategies@),
                old(self).strategies@.len() as int,
            ),
            *final(self) == (RtDoc { selected: final(self).selected, ..*old(self) }),
    {
        let ids = strategy_ids(&self.strategies);
        assert(text::views(ids@).len() == ids@.len());
        tick(&mut self.selected, &ids);
    }

    /// Ticks nothing.
    pub fn select_none(&mut self)
        ensures
            final(self).selected@ == Map::<Seq<char>, bool>::empty(),
            *final(self) == (RtDoc { selected: final(self).selected, ..*old(self) }),
    {
        self.selected.clear();
    }

    /// Ticks or unticks one id.
    pub fn select_toggle(&mut self, id: &str, on: bool)
        ensures
            final(self).selected@ == old(self).selected@.insert(id@, on),
            *final(self) == (RtDoc { selected: final(self).selected, ..*old(self) }),
    {
        self.selected.insert(id.to_owned(), on);
    }

    /// Ticks the saved strategy that answers to the id or the name.
    pub fn select_saved(&mut self, id: &str, name: &str) -> (r: Result<(), DocError>)
        ensures
            ({
                let ss = old(self).strategies@;
                let i = doc::named_place(ss, id@, name@, 0);
                &&& r is Ok <==> i < ss.len()
                &&& r is Err ==> r->Err_0 == DocError::StrategyNotFound && *final(self) == *old(self)
                &&& r is Ok ==> final(self).selected@ == old(self).selected@.insert(ss[i].id@, true)
                    && *final(self) == (RtDoc { selected: final(self).selected, ..*old(self) })
            }),
    {
        match find_named(&self.strategies, id, name) {
            Some(i) => {
                let sid = self.strategies[i].id.clone();
                self.selected.insert(sid, true);
                Ok(())
            },
            None => Err(DocError::StrategyNotFound),
        }
    }

    /// Takes an id out of the run set.
    pub fn select_remove(&mut self, id: &str)
        ensures
            final(self).selected@ == old(self).selected@.remove(id@),
            *final(self) == (RtDoc { selected: final(self).selected, ..*old(self) }),
    {
        self.selected.remove(id);
    }

    /// Turns the automatic picks on, with the count and sides where given.
    pub fn select_ai(&mut self, n: Option<i64>, bull: Option<bool>, bear: Option<bool>)
        ensures
            ({
                let o = old(self).settings;
                let s = final(self).settings;
                &&& s.ai_pick
                &&& s.ai_pick_n == given(n, o.ai_pick_n)
                &&& s.ai_pick_bull == given(bull, o.ai_pick_bull)
                &&& s.ai_pick_bear == given(bear, o.ai_pick_bear)
                &&& s == model::Settings {
                    ai_pick: s.ai_pick,
                    ai_pick_n: s.ai_pick_n,
                    ai_pick_bull: s.ai_pick_bull,
                    ai_pick_bear: s.ai_pick_bear,
                    ..o
                }
                &&& *final(self) == RtDoc { settings: s, ..*old(self) }
            }),
    {
        let count: i64 = given_count(n, self.settings.ai_pick_n);
        let up = given_flag(bull, self.settings.ai_pick_bull);
        let down = given_flag(bear, self.settings.ai_pick_bear);
        set_picks(&mut self.settings, count, up, down);
    }

    /// Ticks the picked strategies.
    pub fn select_picks(&mut self, picks: &Vec<String>)
        ensures
            final(self).selected@ == ticked(
                old(self).selected@,
                text::views(picks@),
                picks@.len() as int,
            ),
            *final(self) == (RtDoc { selected: final(self).selected, ..*old(self) }),
    {
        tick(&mut self.selected, picks);
    }

    /// Sets the run-in override, each part where given.
    pub fn run_in_post(&mut self, enabled: Option<bool>, side: &str, auto: Option<bool>)
        ensures
            ({
                let o = old(self).settings;
                let s = final(self).settings;
                &&& s.run_in_enabled == given(enabled, o.run_in_enabled)
                &&& s.run_in_side@ == if side@.len() > 0 {
                    side@
                } else {
                    o.run_in_side@
                }
                &&& s.run_in_auto == given(auto, o.run_in_auto)
                &&& s == model::Settings {
                    run_in_enabled: s.run_in_enabled,
                    run_in_side: s.run_in_side,
                    run_in_auto: s.run_in_auto,
                    ..o
                }
                &&& *final(self) == RtDoc { settings: s, ..*old(self) }
            }),
    {
        let on = given_flag(enabled, self.settings.run_in_enabled);
        let which = given_text(side, self.settings.run_in_side.as_str());
        let live = given_flag(auto, self.settings.run_in_auto);
        self.settings.run_in_enabled = on;
        self.settings.run_in_side = which;
        self.settings.run_in_auto = live;
    }
}

/// Ticking touches only the ids that are ticked, and ticks all of them.
pub proof fn law_tick_is_exact(m: Map<Seq<char>, bool>, ids: Seq<Seq<char>>, n: int, k: Seq<char>)
    requires
        0 <= n <= ids.len(),
    ensures
        ids.take(n).contains(k) ==> ticked(m, ids, n).contains_key(k) && ticked(m, ids, n)[k],
        !ids.take(n).contains(k) ==> ticked(m, ids, n).contains_key(k) == m.contains_key(k) && (
        m.contains_key(k) ==> ticked(m, ids, n)[k] == m[k]),
    decreases n,
{
    if n > 0 {
        law_tick_is_exact(m, ids, n - 1, k);
        let a = ids.take(n - 1);
        let b = ids.take(n);
        assert(b =~= a.push(ids[n - 1]));
        assert(b[n - 1] == ids[n - 1]);
        if a.contains(k) {
            let i = choose|i: int| 0 <= i < a.len() && a[i] == k;
            assert(b[i] == k);
        }
        if b.contains(k) && k != ids[n - 1] {
            let i = choose|i: int| 0 <= i < b.len() && b[i] == k;
            assert(a[i] == k);
        }
    }
}

/// Some row carries the key.
pub open spec fn staged_key(v: Seq<StagingRow>, key: Seq<char>) -> bool {
    exists|i: int| 0 <= i < v.len() && (#[trigger] v[i]).key@ == key
}

fn is_staged(v: &Vec<StagingRow>, key: &str) -> (r: bool)
    ensures
        r == staged_key(v@, key@),
{
    let mut i: usize = 0;
    while i < v.len()
        invariant
            i <= v.len(),
            forall|k: int| 0 <= k < i ==> (#[trigger] v@[k]).key@ != key@,
        decreases v.len() - i,
    {
        if text::same(v[i].key.as_str(), key) {
            return true;
        }
        i += 1;
    }
    false
}

/// The row stages a strategy at a time.
pub open spec fn stages(row: StagingRow, s: Strategy, now: i64) -> bool {
    &&& row.id@.len() == 0
    &&& row.strategy_id@.len() == 0
    &&& row.key@ == s.id@
    &&& row.name@ == s.name@
    &&& row.cat@ == if model::bullish(s) {
        "bullish"@
    } else {
        "bearish"@
    }
    &&& row.tf@ == s.timeframe@
    &&& row.side@ == s.side@
    &&& row.added_at == now
    &&& row.sent_at is None
}

fn staging_row(s: &Strategy, now: i64) -> (r: StagingRow)
    ensures
        stages(r, *s, now),
{
    proof {
        reveal_strlit("");
    }
    StagingRow {
        id: "".to_owned(),
        strategy_id: "".to_owned(),
        key: s.id.clone(),
        name: s.name.clone(),
        cat: if model::strategy_is_bull(s) {
            "bullish".to_owned()
        } else {
            "bearish".to_owned()
        },
        tf: s.timeframe.clone(),
        side: s.side.clone(),
        added_at: now,
        sent_at: None,
    }
}

/// The list after a strategy was staged: unchanged where it was already.
pub open spec fn after_staging(was: Seq<StagingRow>, now_list: Seq<StagingRow>, s: Strategy, now: i64) -> bool {
    if staged_key(was, s.id@) {
        now_list == was
    } else {
        now_list.len() == was.len() + 1 && now_list.drop_last() == was && stages(
            now_list.last(),
            s,
            now,
        )
    }
}

fn stage(v: &mut Vec<StagingRow>, s: &Strategy, now: i64)
    ensures
        after_staging(old(v)@, final(v)@, *s, now),
        staged_key(final(v)@, s.id@),
{
    if !is_staged(v, s.id.as_str()) {
        let ghost was = v@;
        v.push(staging_row(s, now));
        assert(v@.drop_last() =~= was);
        assert(v@[v@.len() - 1].key@ == s.id@);
    }
}

/// The strategy a staging key stands for.
pub open spec fn target_id(key: Seq<char>) -> Seq<char> {
    match text::after(key, "pt:"@) {
        Some(t) => t,
        None => key,
    }
}

/// Some strategy has the id or, where one is given, the name.
pub open spec fn matches_any(ss: Seq<Strategy>, id: Seq<char>, name: Seq<char>) -> bool {
    exists|i: int|
        0 <= i < ss.len() && ((#[trigger] ss[i]).id@ == id || (name.len() > 0 && ss[i].name@ == name))
}

fn any_match(ss: &Vec<Strategy>, id: &str, name: &str) -> (r: bool)
    ensures
        r == matches_any(ss@, id@, name@),
{
    let by_name = text::chars_of(name).len() > 0;
    let mut i: usize = 0;
    while i < ss.len()
        invariant
            i <= ss.len(),
            by_name == (name@.len() > 0),
            forall|k: int|
                0 <= k < i ==> (#[trigger] ss@[k]).id@ != id@ && !(name@.len() > 0 && ss@[k].name@
                    == name@),
        decreases ss.len() - i,
    {
        if text::same(ss[i].id.as_str(), id) || (by_name && text::same(ss[i].name.as_str(), name)) {
            return true;
        }
        i += 1;
    }
    false
}

/// The row is sent: all are, or its key is among the given ones.
pub open spec fn sent(row: StagingRow, keys: Seq<Seq<char>>) -> bool {
    keys.len() == 0 || keys.contains(row.key@)
}

/// The run set after the first `n` rows were sent.
pub open spec fn sent_to(
    m: Map<Seq<char>, bool>,
    rows: Seq<StagingRow>,
    keys: Seq<Seq<char>>,
    ss: Seq<Strategy>,
    n: int,
) -> Map<Seq<char>, bool>
    decreases n,
{
    if n <= 0 {
        m
    } else {
        let before = sent_to(m, rows, keys, ss, n - 1);
        let row = rows[n - 1];
        if sent(row, keys) && matches_any(ss, target_id(row.key@), row.name@) {
            before.insert(target_id(row.key@), true)
        } else {
            before
        }
    }
}

impl RtDoc {
    /// Stages a saved strategy; with automatic sending it is ticked too.
    pub fn staging_add(&mut self, id: &str, name: &str, now: i64) -> (r: Result<(), DocError>)
        ensures
            ({
                let ss = old(self).strategies@;
                let i = doc::named_place(ss, id@, name@, 0);
                &&& r is Ok <==> i < ss.len()
                &&& r is Err ==> r->Err_0 == DocError::StrategyNotFound && *final(self) == *old(self)
                &&& r is Ok ==> after_staging(
                    old(self).staging@,
                    final(self).staging@,
                    ss[i],
                    now,
                ) && final(self).selected@ == (if old(self).staging_auto {
                    old(self).selected@.insert(ss[i].id@, true)
                } else {
                    old(self).selected@
                }) && *final(self) == (RtDoc {
                    staging: final(self).staging,
                    selected: final(self).selected,
                    ..*old(self)
                })
            }),
    {
        match find_named(&self.strategies, id, name) {
            Some(i) => {
                stage(&mut self.staging, &self.strategies[i], now);
                if self.staging_auto {
                    let sid = self.strategies[i].id.clone();
                    self.selected.insert(sid, true);
                }
                Ok(())
            },
            None => Err(DocError::StrategyNotFound),
        }
    }

    /// Takes a key off the staging list.
    pub fn staging_remove(&mut self, key: &str)
        ensures
            final(self).staging@ == keep::stay(old(self).staging@, true, key@),
            *final(self) == (RtDoc { staging: final(self).staging, ..*old(self) }),
    {
        let mut rows: Vec<StagingRow> = Vec::new();
        core::mem::swap(&mut rows, &mut self.staging);
        self.staging = remove_rows(rows, true, key);
    }

    /// Empties the staging list.
    pub fn staging_clear(&mut self)
        ensures
            final(self).staging@.len() == 0,
            *final(self) == (RtDoc { staging: final(self).staging, ..*old(self) }),
    {
        self.staging.clear();
    }

    /// Sends staged strategies to the run set: those with the given keys, or
    /// all. Each is marked as sent; those still saved are ticked.
    pub fn staging_send(&mut self, keys: &Vec<String>, now: i64)
        ensures
            ({
                let was = old(self).staging@;
                let kv = text::views(keys@);
                let f = *final(self);
                &&& f.staging@.len() == was.len()
                &&& forall|i: int|
                    0 <= i < was.len() ==> #[trigger] f.staging@[i] == (if sent(was[i], kv) {
                        StagingRow { sent_at: Some(now), ..was[i] }
                    } else {
                        was[i]
                    })
                &&& f.selected@ == sent_to(
                    old(self).selected@,
                    was,
                    kv,
                    old(self).strategies@,
                    was.len() as int,
                )
                &&& f == RtDoc { staging: f.staging, selected: f.selected, ..*old(self) }
            }),
    {
        let ghost was = self.staging@;
        let ghost kv = text::views(keys@);
        let ghost base = *self;
        let mut i: usize = 0;
        while i < self.staging.len()
            invariant
                i <= self.staging.len(),
                kv == text::views(keys@),
                self.staging@.len() == was.len(),
                self.strategies == base.strategies,
                forall|k: int|
                    0 <= k < i ==> #[trigger] self.staging@[k] == (if sent(was[k], kv) {
                        StagingRow { sent_at: Some(now), ..was[k] }
                    } else {
                        was[k]
                    }),
                forall|k: int| i <= k < was.len() ==> #[trigger] self.staging@[k] == was[k],
                self.selected@ == sent_to(
                    base.selected@,
                    was,
                    kv,
                    base.strategies@,
                    i as int,
                ),
                *self == (RtDoc { staging: self.staging, selected: self.selected, ..base }),
            decreases self.staging.len() - i,
        {
            assert(self.staging@[i as int] == was[i as int]);
            let all = keys.len() == 0;
            let hit = all || text::list_has(keys, self.staging[i].key.as_str());
            if hit {
                let key = self.staging[i].key.clone();
                let name = self.staging[i].name.clone();
                let id = match text::strip_prefix(key.as_str(), "pt:") {
                    Some(t) => t,
                    None => key,
                };
                let row = &mut self.staging[i];
                row.sent_at = Some(now);
                if any_match(&self.strategies, id.as_str(), name.as_str()) {
                    self.selected.insert(id, true);
                }
            }
            i += 1;
        }
    }

    /// Turns automatic sending on or off. Turned on, every saved strategy is
    /// staged and ticked.
    pub fn staging_auto_send(&mut self, on: bool, now: i64)
        ensures
            ({
                let f = *final(self);
                let o = *old(self);
                let n = o.strategies@.len() as int;
                &&& !on ==> f == RtDoc { staging_auto: false, ..o }
                &&& on ==> f.selected@ == ticked(o.selected@, ids_of(o.strategies@), n)
                &&& on ==> staged_upto(o.staging@, f.staging@, o.strategies@, now, n)
                &&& f == RtDoc {
                    staging_auto: on,
                    staging: f.staging,
                    selected: f.selected,
                    ..o
                }
            }),
    {
        self.staging_auto = on;
        if !on {
            return ;
        }
        let ids = strategy_ids(&self.strategies);
        assert(text::views(ids@).len() == ids@.len());
        tick(&mut self.selected, &ids);
        let ghost start = self.staging@;
        let ghost base = *self;
        let mut i: usize = 0;
        assert(start.take(start.len() as int) =~= start);
        while i < self.strategies.len()
            invariant
                i <= self.strategies.len(),
                self.strategies == base.strategies,
                staged_upto(start, self.staging@, self.strategies@, now, i as int),
                forall|k: Seq<char>| #[trigger]
                    staged_key(self.staging@, k) == (staged_key(start, k) || exists|j: int|
                        0 <= j < i && (#[trigger] self.strategies@[j]).id@ == k),
                *self == (RtDoc { staging: self.staging, ..base }),
            decreases self.strategies.len() - i,
        {
            let ghost before = self.staging@;
            let ghost ss = self.strategies@;
            let ghost new = fresh_places(start, ss, i as int);
            let ghost id = ss[i as int].id@;
            assert(staged_key(before, id) == !fresh(start, ss, i as int)) by {
                assert(staged_key(before, id) == (staged_key(start, id) || exists|j: int|
                    0 <= j < i && (#[trigger] ss[j]).id@ == id));
            }
            stage(&mut self.staging, &self.strategies[i], now);
            proof {
                let after = self.staging@;
                let more = fresh_places(start, ss, i + 1);
                if !staged_key(before, id) {
                    assert(after.take(start.len() as int) =~= before.take(start.len() as int));
                    assert forall|j: int| 0 <= j < more.len() implies stages(
                        #[trigger] after[start.len() + j],
                        ss[more[j]],
                        now,
                    ) by {
                        if j < new.len() {
                            assert(after[start.len() + j] == before[start.len() + j]);
                        }
                    }
                }
                assert forall|k: Seq<char>| #[trigger]
                    staged_key(after, k) == (staged_key(start, k) || exists|j: int|
                        0 <= j < i + 1 && (#[trigger] ss[j]).id@ == k) by {
                    lemma_staged_push(before, after, ss[i as int], now, k);
                    if k == id {
                        assert(ss[i as int].id@ == k);
                    }
                    assert(staged_key(before, k) == (staged_key(start, k) || exists|j: int|
                        0 <= j < i && (#[trigger] ss[j]).id@ == k));
                }
            }
            i += 1;
        }
    }
}

proof fn lemma_staged_push(
    was: Seq<StagingRow>,
    now_list: Seq<StagingRow>,
    s: Strategy,
    now: i64,
    k: Seq<char>,
)
    requires
        after_staging(was, now_list, s, now),
    ensures
        staged_key(now_list, k) == (staged_key(was, k) || k == s.id@),
{
    if !staged_key(was, s.id@) {
        if staged_key(was, k) {
            let i = choose|i: int| 0 <= i < was.len() && (#[trigger] was[i]).key@ == k;
            assert(now_list.drop_last()[i] == was[i]);
            assert(now_list[i].key@ == k);
        }
        assert(now_list[now_list.len() - 1].key@ == s.id@);
        if staged_key(now_list, k) {
            let i = choose|i: int| 0 <= i < now_list.len() && (#[trigger] now_list[i]).key@ == k;
            if i < was.len() {
                assert(now_list.drop_last()[i] == was[i]);
                assert(was[i].key@ == k);
            }
        }
    }
}

/// The strategy at `k` is staged anew: no row carries its id yet, and no earlier
/// strategy shares it.
pub open spec fn fresh(start: Seq<StagingRow>, ss: Seq<Strategy>, k: int) -> bool {
    !staged_key(start, ss[k].id@) && forall|j: int|
        0 <= j < k ==> (#[trigger] ss[j]).id@ != ss[k].id@
}

/// The places of the first `n` strategies that are staged anew.
pub open spec fn fresh_places(start: Seq<StagingRow>, ss: Seq<Strategy>, n: int) -> Seq<int>
    decreases n,
{
    if n <= 0 {
        Seq::empty()
    } else if fresh(start, ss, n - 1) {
        fresh_places(start, ss, n - 1).push(n - 1)
    } else {
        fresh_places(start, ss, n - 1)
    }
}

/// The list after the first `n` strategies were staged: what was there, then the
/// new ones in order.
pub open spec fn staged_upto(
    start: Seq<StagingRow>,
    end: Seq<StagingRow>,
    ss: Seq<Strategy>,
    now: i64,
    n: int,
) -> bool {
    let new = fresh_places(start, ss, n);
    &&& end.len() == start.len() + new.len()
    &&& end.take(start.len() as int) == start
    &&& forall|j: int|
        0 <= j < new.len() ==> stages(#[trigger] end[start.len() + j], ss[new[j]], now)
}

/// A staged strategy that is deleted takes its staged row along.
pub proof fn law_staged_row_goes_with_its_strategy(
    row: StagingRow,
    s: Strategy,
    now: i64,
    list: Seq<StagingRow>,
)
    requires
        stages(row, s, now),
    ensures
        !keep::stay(list, false, s.id@).contains(row),
{
    assert(keep::goes(row, false, s.id@));
    let kept = keep::stay(list, false, s.id@);
    if kept.contains(row) {
        let i = choose|i: int| 0 <= i < kept.len() && kept[i] == row;
        keep::law_no_trace_is_left(list, false, s.id@, i);
    }
}

/// Staging twice is staging once.
pub proof fn law_staging_is_idempotent(
    was: Seq<StagingRow>,
    once: Seq<StagingRow>,
    twice: Seq<StagingRow>,
    s: Strategy,
    a: i64,
    b: i64,
)
    requires
        after_staging(was, once, s, a),
        after_staging(once, twice, s, b),
    ensures
        twice == once,
{
    if !staged_key(was, s.id@) {
        assert(once[once.len() - 1].key@ == s.id@);
        assert(staged_key(once, s.id@));
    }
}

/// Some saved row carries the key.
pub open spec fn saved_key(v: Seq<FinalRow>, key: Seq<char>) -> bool {
    exists|i: int| 0 <= i < v.len() && (#[trigger] v[i]).key@ == key
}

fn is_saved(v: &Vec<FinalRow>, key: &str) -> (r: bool)
    ensures
        r == saved_key(v@, key@),
{
    let mut i: usize = 0;
    while i < v.len()
        invariant
            i <= v.len(),
            forall|k: int| 0 <= k < i ==> (#[trigger] v@[k]).key@ != key@,
        decreases v.len() - i,
    {
        if text::same(v[i].key.as_str(), key) {
            return true;
        }
        i += 1;
    }
    false
}

/// The row the operator saves.
pub open spec fn manual_row(row: FinalRow, key: Seq<char>, name: Seq<char>, now: i64) -> bool {
    row.id@.len() == 0 && row.key@ == key && row.strategy_id@ == key && row.strategy_name@ == name
        && row.source@ == "manual"@ && row.manual && row.saved_at == now
}

/// The rows without those of the first `n` keys.
pub open spec fn without_keys(v: Seq<FinalRow>, keys: Seq<Seq<char>>, n: int) -> Seq<FinalRow>
    decreases n,
{
    if n <= 0 {
        v
    } else {
        keep::stay(without_keys(v, keys, n - 1), true, keys[n - 1])
    }
}

/// The keys of rows.
pub open spec fn row_keys(v: Seq<FinalRow>) -> Seq<Seq<char>> {
    Seq::new(v.len(), |i: int| v[i].key@)
}

impl RtDoc {
    /// Saves a strategy to the final list by hand, and lifts its exclusion. An
    /// empty key does nothing.
    pub fn final_save(&mut self, key: &str, name: &str, now: i64)
        ensures
            ({
                let o = *old(self);
                let f = *final(self);
                let was = o.final_strategies@;
                let list = f.final_strategies@;
                &&& key@.len() == 0 ==> f == o
                &&& key@.len() > 0 ==> f.final_excluded@ == o.final_excluded@.remove(key@)
                &&& key@.len() > 0 && saved_key(was, key@) ==> list == was
                &&& key@.len() > 0 && !saved_key(was, key@) ==> list.len() == was.len() + 1
                    && list.drop_last() == was && manual_row(list.last(), key@, name@, now)
                &&& f == RtDoc {
                    final_strategies: f.final_strategies,
                    final_excluded: f.final_excluded,
                    ..o
                }
            }),
    {
        if text::chars_of(key).len() == 0 {
            return ;
        }
        self.final_excluded.remove(key);
        if !is_saved(&self.final_strategies, key) {
            let ghost was = self.final_strategies@;
            proof {
                reveal_strlit("");
            }
            self.final_strategies.push(
                FinalRow {
                    id: "".to_owned(),
                    key: key.to_owned(),
                    strategy_id: key.to_owned(),
                    strategy_name: name.to_owned(),
                    source: "manual".to_owned(),
                    manual: true,
                    saved_at: now,
                },
            );
            assert(self.final_strategies@.drop_last() =~= was);
        }
    }

    /// Removes keys from the final list and keeps them off it.
    pub fn final_remove(&mut self, keys: &Vec<String>)
        ensures
            ({
                let o = *old(self);
                let f = *final(self);
                let kv = text::views(keys@);
                let n = keys@.len() as int;
                &&& f.final_strategies@ == without_keys(o.final_strategies@, kv, n)
                &&& f.final_excluded@ == ticked(o.final_excluded@, kv, n)
                &&& f == RtDoc {
                    final_strategies: f.final_strategies,
                    final_excluded: f.final_excluded,
                    ..o
                }
            }),
    {
        let ghost base = *self;
        let ghost kv = text::views(keys@);
        let mut i: usize = 0;
        while i < keys.len()
            invariant
                i <= keys.len(),
                kv == text::views(keys@),
                self.final_strategies@ == without_keys(base.final_strategies@, kv, i as int),
                self.final_excluded@ == ticked(base.final_excluded@, kv, i as int),
                *self == (RtDoc {
                    final_strategies: self.final_strategies,
                    final_excluded: self.final_excluded,
                    ..base
                }),
            decreases keys.len() - i,
        {
            let mut rows: Vec<FinalRow> = Vec::new();
            core::mem::swap(&mut rows, &mut self.final_strategies);
            self.final_strategies = remove_rows(rows, true, keys[i].as_str());
            self.final_excluded.insert(keys[i].clone(), true);
            assert(kv[i as int] == keys@[i as int]@);
            i += 1;
        }
    }

    /// Removes every saved row from the final list and keeps it off.
    pub fn final_clear(&mut self)
        ensures
            ({
                let o = *old(self);
                let f = *final(self);
                &&& f.final_strategies@.len() == 0
                &&& f.final_excluded@ == ticked(
                    o.final_excluded@,
                    row_keys(o.final_strategies@),
                    o.final_strategies@.len() as int,
                )
                &&& f == RtDoc {
                    final_strategies: f.final_strategies,
                    final_excluded: f.final_excluded,
                    ..o
                }
            }),
    {
        let mut keys: Vec<String> = Vec::new();
        let mut i: usize = 0;
        while i < self.final_strategies.len()
            invariant
                i <= self.final_strategies.len(),
                keys@.len() == i,
                forall|k: int|
                    0 <= k < i ==> (#[trigger] keys@[k])@ == self.final_strategies@[k].key@,
            decreases self.final_strategies.len() - i,
        {
            keys.push(self.final_strategies[i].key.clone());
            i += 1;
        }
        assert(text::views(keys@) =~= row_keys(self.final_strategies@));
        tick(&mut self.final_excluded, &keys);
        self.final_strategies.clear();
    }

    /// Ticks a strategy of the final list where it is still saved.
    pub fn final_run(&mut self, key: &str)
        ensures
            final(self).selected@ == if doc::known(old(self).strategies@, key@) {
                old(self).selected@.insert(key@, true)
            } else {
                old(self).selected@
            },
            *final(self) == (RtDoc { selected: final(self).selected, ..*old(self) }),
    {
        if let Some(_i) = find_strategy(&self.strategies, key) {
            self.selected.insert(key.to_owned(), true);
        }
    }
}

/// The ids that are ticked, in order.
pub open spec fn on_ids(items: Seq<(Seq<char>, bool)>) -> Seq<Seq<char>>
    decreases items.len(),
{
    if items.len() == 0 {
        Seq::empty()
    } else if items.last().1 {
        on_ids(items.drop_last()).push(items.last().0)
    } else {
        on_ids(items.drop_last())
    }
}

fn ids_on(m: &TextMap<bool>) -> (r: Vec<String>)
    ensures
        text::views(r@) == on_ids(m.items()),
{
    let mut out: Vec<String> = Vec::new();
    let n: usize = m.len();
    let mut i: usize = 0;
    assert(text::views(out@) =~= Seq::<Seq<char>>::empty());
    assert(m.items().take(0) =~= Seq::<(Seq<char>, bool)>::empty());
    while i < n
        invariant
            n == m.items().len(),
            i <= n,
            text::views(out@) == on_ids(m.items().take(i as int)),
        decreases n - i,
    {
        proof {
            assert(m.items().take(i + 1).drop_last() =~= m.items().take(i as int));
            assert(m.items().take(i + 1).last() == m.items()[i as int]);
        }
        if *m.value_at(i) {
            let k = m.key_at(i).clone();
            let ghost was = out@;
            let ghost kv = k@;
            out.push(k);
            assert(text::views(out@) =~= text::views(was).push(kv));
        }
        i += 1;
    }
    assert(m.items().take(i as int) =~= m.items());
    out
}

/// The run set that a template restores: its strategies that are still saved.
pub open spec fn restored(ids: Seq<Seq<char>>, ss: Seq<Strategy>, n: int) -> Seq<Seq<char>>
    decreases n,
{
    if n <= 0 {
        Seq::empty()
    } else if doc::known(ss, ids[n - 1]) {
        restored(ids, ss, n - 1).push(ids[n - 1])
    } else {
        restored(ids, ss, n - 1)
    }
}

/// What running a template starts.
#[derive(Debug)]
pub struct TemplateRun {
    /// The settings to apply, where the template holds any.
    pub settings: Option<u64>,
    pub side: String,
    /// How many strategies were restored.
    pub restored: usize,
}

impl RtDoc {
    /// Saves the current settings, under a handle, and the ticked strategies as a
    /// template; bullish where no side is given.
    pub fn template_save(&mut self, name: &str, side: &str, settings: u64, now: i64) -> (r: Result<
        (),
        DocError,
    >)
        ensures
            name@.len() == 0 ==> r is Err && r->Err_0 == DocError::NameRequired && *final(self)
                == *old(self),
            name@.len() > 0 ==> {
                let f = *final(self);
                let t = f.templates@[name@];
                &&& r is Ok
                &&& f.templates@ == old(self).templates@.insert(name@, t)
                &&& t.side@ == if side@.len() == 0 {
                    "bullish"@
                } else {
                    side@
                }
                &&& t.saved_at == now
                &&& t.settings == Some(settings)
                &&& text::views(t.selected@) == on_ids(old(self).selected.items())
                &&& f == RtDoc { templates: f.templates, ..*old(self) }
            },
    {
        if text::chars_of(name).len() == 0 {
            return Err(DocError::NameRequired);
        }
        let t = Template {
            side: if text::chars_of(side).len() == 0 {
                "bullish".to_owned()
            } else {
                side.to_owned()
            },
            saved_at: now,
            settings: Some(settings),
            selected: ids_on(&self.selected),
        };
        self.templates.insert(name.to_owned(), t);
        Ok(())
    }

    /// Deletes a template.
    pub fn template_delete(&mut self, name: &str)
        ensures
            final(self).templates@ == old(self).templates@.remove(name@),
            *final(self) == (RtDoc { templates: final(self).templates, ..*old(self) }),
    {
        self.templates.remove(name);
    }

    /// The settings handle of a template.
    pub fn template_open(&self, name: &str) -> (r: Result<u64, DocError>)
        ensures
            ({
                let has = self.templates@.contains_key(name@);
                let h = self.templates@[name@].settings;
                match r {
                    Ok(v) => has && h == Some(v),
                    Err(e) => e == (if has {
                        DocError::UnknownAction
                    } else {
                        DocError::TemplateNotFound
                    }) && (has ==> h is None),
                }
            }),
    {
        match self.templates.get(name) {
            Some(t) => match t.settings {
                Some(h) => Ok(h),
                None => Err(DocError::UnknownAction),
            },
            None => Err(DocError::TemplateNotFound),
        }
    }

    /// Runs a template: starts the engine, without arming it, and restores the
    /// run set where the template holds one.
    pub fn template_run(&mut self, name: &str) -> (r: Result<TemplateRun, DocError>)
        ensures
            ({
                let o = *old(self);
                let f = *final(self);
                let t = o.templates@[name@];
                let ids = text::views(t.selected@);
                let back = restored(ids, o.strategies@, ids.len() as int);
                if !o.templates@.contains_key(name@) {
                    r is Err && r->Err_0 == DocError::TemplateNotFound && f == o
                } else {
                    &&& r is Ok
                    &&& (r->Ok_0).settings == t.settings
                    &&& (r->Ok_0).side@ == t.side@
                    &&& (r->Ok_0).restored == back.len()
                    &&& f.selected@ == if ids.len() == 0 {
                        o.selected@
                    } else {
                        ticked(Map::empty(), back, back.len() as int)
                    }
                    &&& f == RtDoc { engine_on: true, selected: f.selected, ..o }
                }
            }),
            crate::doc::armed_runs(*old(self)) ==> crate::doc::armed_runs(*final(self)),
    {
        let mut side = String::new();
        let mut settings: Option<u64> = None;
        let mut back: Vec<String> = Vec::new();
        let mut any = false;
        match self.templates.get(name) {
            Some(t) => {
                side = t.side.clone();
                settings = t.settings;
                any = t.selected.len() > 0;
                let ghost ids = text::views(t.selected@);
                let mut i: usize = 0;
                assert(text::views(back@) =~= Seq::<Seq<char>>::empty());
                while i < t.selected.len()
                    invariant
                        i <= t.selected.len(),
                        ids == text::views(t.selected@),
                        text::views(back@) == restored(ids, self.strategies@, i as int),
                    decreases t.selected.len() - i,
                {
                    assert(ids[i as int] == t.selected@[i as int]@);
                    if let Some(_k) = find_strategy(&self.strategies, t.selected[i].as_str()) {
                        let ghost was = back@;
                        back.push(t.selected[i].clone());
                        assert(text::views(back@) =~= text::views(was).push(ids[i as int]));
                    }
                    i += 1;
                }
            },
            None => {
                return Err(DocError::TemplateNotFound);
            },
        }
        assert(text::views(back@).len() == back@.len());
        if any {
            self.selected.clear();
            tick(&mut self.selected, &back);
        }
        self.engine_on = true;
        Ok(TemplateRun { settings, side, restored: back.len() })
    }
}

/// A staging key stands for its strategy with or without the `pt:` before it.
pub proof fn law_staging_keys_name_strategies(id: Seq<char>)
    ensures
        target_id("pt:"@ + id) == id,
        !text::begins(id, "pt:"@) ==> target_id(id) == id,
{
    reveal_strlit("pt:");
    let p = "pt:"@;
    assert((p + id).subrange(0, p.len() as int) =~= p);
    assert((p + id).subrange(p.len() as int, (p + id).len() as int) =~= id);
}

/// Sending a row ticks the strategy that it stands for, where the row is among those sent,
/// all of them where none is named, and the strategy is known by id or by name.
pub proof fn law_sending_ticks_known_strategies(
    m: Map<Seq<char>, bool>,
    rows: Seq<StagingRow>,
    keys: Seq<Seq<char>>,
    ss: Seq<Strategy>,
    n: int,
)
    requires
        0 < n <= rows.len(),
    ensures
        ({
            let row = rows[n - 1];
            let id = target_id(row.key@);
            let meant = keys.len() == 0 || exists|k: int|
                0 <= k < keys.len() && #[trigger] keys[k] == row.key@;
            let there = exists|i: int|
                0 <= i < ss.len() && ((#[trigger] ss[i]).id@ == id || row.name@.len() > 0
                    && ss[i].name@ == row.name@);
            let before = sent_to(m, rows, keys, ss, n - 1);
            let after = sent_to(m, rows, keys, ss, n);
            &&& meant && there ==> after == before.insert(id, true)
            &&& !meant || !there ==> after == before
            &&& sent_to(m, rows, keys, ss, 0) == m
        }),
{
    let row = rows[n - 1];
    if keys.contains(row.key@) {
        let k = choose|k: int| 0 <= k < keys.len() && keys[k] == row.key@;
        assert(keys[k] == row.key@);
    }
}

/// The ids that are on, in order.
pub proof fn law_ids_that_are_on(items: Seq<(Seq<char>, bool)>, item: (Seq<char>, bool))
    ensures
        on_ids(items.push(item)) == on_ids(items) + if item.1 {
            seq![item.0]
        } else {
            Seq::empty()
        },
        on_ids(Seq::empty()).len() == 0,
{
    assert(items.push(item).drop_last() =~= items);
    let was = on_ids(items);
    assert(was + seq![item.0] =~= was.push(item.0));
    assert(was + Seq::<Seq<char>>::empty() =~= was);
}

/// A template restores those of its strategies that are still saved, in order.
pub proof fn law_restored_are_still_saved(ids: Seq<Seq<char>>, ss: Seq<Strategy>, n: int)
    requires
        0 < n <= ids.len(),
    ensures
        restored(ids, ss, n) == restored(ids, ss, n - 1) + if exists|i: int|
            0 <= i < ss.len() && (#[trigger] ss[i]).id@ == ids[n - 1] {
            seq![ids[n - 1]]
        } else {
            Seq::empty()
        },
        restored(ids, ss, 0).len() == 0,
{
    doc::law_known_is_saved(ss, ids[n - 1]);
    let was = restored(ids, ss, n - 1);
    assert(was + seq![ids[n - 1]] =~= was.push(ids[n - 1]));
    assert(was + Seq::<Seq<char>>::empty() =~= was);
}

/// A staged row stands for its strategy: under its id, name, bar and side, with the side of
/// the market it belongs to, as of now and not sent yet.
pub proof fn law_staged_rows_name_their_strategy(row: StagingRow, s: Strategy, now: i64)
    requires
        stages(row, s, now),
    ensures
        row.key@ == s.id@,
        row.name@ == s.name@,
        row.tf@ == s.timeframe@,
        row.side@ == s.side@,
        row.cat@ == "bullish"@ <==> model::bullish(s),
        row.cat@ == "bearish"@ <==> !model::bullish(s),
        row.added_at == now,
        row.sent_at is None,
        row.id@.len() == 0 && row.strategy_id@.len() == 0,
{
    reveal_strlit("bullish");
    reveal_strlit("bearish");
    assert("bullish"@[1] == 'u' && "bearish"@[1] == 'e');
}

/// A row entered by hand is told apart from those of a run, and carries its key as the
/// strategy.
pub proof fn law_rows_entered_by_hand(row: FinalRow, key: Seq<char>, name: Seq<char>, now: i64)
    requires
        manual_row(row, key, name, now),
    ensures
        row.manual && row.source@ == "manual"@,
        row.key@ == key && row.strategy_id@ == row.key@,
        row.strategy_name@ == name,
        row.saved_at == now,
        row.id@.len() == 0,
{
}

} // verus!
