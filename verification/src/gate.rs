//! The entry gate: which filters count for a side and when they let an entry
//! through.

use vstd::prelude::*;
use crate::model;
use crate::model::Strategy;
use crate::num::Num;
use crate::rules;
use crate::rules::{Curve, Reading, Setup, Study};
use crate::text;
use crate::textmap::TextMap;
use crate::verdict;

verus! {

/// A filter key counts for the bullish side, `u` being the key in upper case:
/// by its prefix, else by an `UP` anywhere in it.
pub open spec fn bull_key_by(k: Seq<char>, u: Seq<char>) -> bool {
    if text::begins(k, "Bull"@) {
        true
    } else if text::begins(k, "Bear"@) {
        false
    } else {
        text::has(u, "UP"@)
    }
}

/// A filter key counts for the bearish side, `u` being the key in upper case:
/// by its prefix, else by a `DOWN` anywhere in it.
pub open spec fn bear_key_by(k: Seq<char>, u: Seq<char>) -> bool {
    if text::begins(k, "Bear"@) {
        true
    } else if text::begins(k, "Bull"@) {
        false
    } else {
        text::has(u, "DOWN"@)
    }
}

/// A filter key counts for the bullish side.
pub open spec fn bull_key(k: Seq<char>) -> bool {
    bull_key_by(k, text::upper_text(k))
}

/// A filter key counts for the bearish side.
pub open spec fn bear_key(k: Seq<char>) -> bool {
    bear_key_by(k, text::upper_text(k))
}

/// A filter key counts for the side.
pub open spec fn side_key(k: Seq<char>, bull: bool) -> bool {
    if bull {
        bull_key(k)
    } else {
        bear_key(k)
    }
}

/// Whether a key counts for the bullish side, given its upper-case form.
pub fn bull_key_of(k: &str, u: &str) -> (r: bool)
    ensures
        r == bull_key_by(k@, u@),
{
    if text::starts_with(k, "Bull") {
        true
    } else if text::starts_with(k, "Bear") {
        false
    } else {
        text::contains(u, "UP")
    }
}

/// Whether a key counts for the bearish side, given its upper-case form.
pub fn bear_key_of(k: &str, u: &str) -> (r: bool)
    ensures
        r == bear_key_by(k@, u@),
{
    if text::starts_with(k, "Bear") {
        true
    } else if text::starts_with(k, "Bull") {
        false
    } else {
        text::contains(u, "DOWN")
    }
}

/// Whether a filter key counts for the bullish side.
pub fn filter_is_bull(k: &str) -> (r: bool)
    ensures
        r == bull_key(k@),
{
    let u = text::uppercase(k);
    bull_key_of(k, u.as_str())
}

/// Whether a filter key counts for the bearish side.
pub fn filter_is_bear(k: &str) -> (r: bool)
    ensures
        r == bear_key(k@),
{
    let u = text::uppercase(k);
    bear_key_of(k, u.as_str())
}

/// Sides (bullish, bearish) the scanner may build strategies for: those with
/// filters of their own, and where the engine is committed to one option side
/// only that one.
pub open spec fn allowed(
    bull_side: bool,
    bear_side: bool,
    active: Option<Seq<char>>,
) -> (bool, bool) {
    (
        bull_side && (active is Some ==> active->0 == "CE"@),
        bear_side && (active is Some ==> active->0 == "PE"@),
    )
}

/// The characters of an optional borrowed text.
pub open spec fn str_view(s: Option<&str>) -> Option<Seq<char>> {
    match s {
        Some(t) => Some(t@),
        None => None,
    }
}

/// Sides (bullish, bearish) the scanner may build strategies for.
pub fn side_allowed(bull_side: bool, bear_side: bool, active: Option<&str>) -> (r: (bool, bool))
    ensures
        r == allowed(bull_side, bear_side, str_view(active)),
{
    let ce = match active {
        Some(s) => text::same(s, "CE"),
        None => true,
    };
    let pe = match active {
        Some(s) => text::same(s, "PE"),
        None => true,
    };
    (bull_side && ce, bear_side && pe)
}

/// A key of the arrow group of either side.
pub open spec fn arrow_key(k: Seq<char>) -> bool {
    ||| text::begins(k, "Bull"@) && text::begins(text::after(k, "Bull"@)->0, "Arrow"@)
    ||| !text::begins(k, "Bull"@) && text::begins(k, "Bear"@) && text::begins(
        text::after(k, "Bear"@)->0,
        "Arrow"@,
    )
}

/// Whether a key belongs to the arrow group.
pub fn is_arrow_flag(k: &str) -> (r: bool)
    ensures
        r == arrow_key(k@),
{
    match text::strip_prefix(k, "Bull") {
        Some(b) => text::starts_with(b.as_str(), "Arrow"),
        None => match text::strip_prefix(k, "Bear") {
            Some(b) => text::starts_with(b.as_str(), "Arrow"),
            None => false,
        },
    }
}

/// The research group a key selects, where it is a scope selector and no gate.
pub open spec fn stream_of(k: Seq<char>) -> Option<Seq<char>> {
    if k == "BullCandle"@ || k == "BearCandle"@ {
        Some("candlestick"@)
    } else if k == "BullElliott"@ || k == "BearElliott"@ {
        Some("elliott"@)
    } else if k == "BullIndicator"@ || k == "BearIndicator"@ {
        Some("indicator"@)
    } else if k == "BullPane"@ || k == "BearPane"@ {
        Some("pane"@)
    } else if k == "BullSymmetry"@ || k == "BearSymmetry"@ {
        Some("symmetry"@)
    } else if k == "BullStructure"@ || k == "BearStructure"@ {
        Some("structure"@)
    } else if k == "BullAtr"@ || k == "BearAtr"@ {
        Some("atr"@)
    } else {
        None
    }
}

/// The characters of an optional literal.
pub open spec fn lit_view(s: Option<&'static str>) -> Option<Seq<char>> {
    match s {
        Some(t) => Some(t@),
        None => None,
    }
}

/// The research group a key selects.
pub fn stream_flag_group(k: &str) -> (r: Option<&'static str>)
    ensures
        lit_view(r) == stream_of(k@),
{
    if text::one_of(k, "BullCandle", "BearCandle") {
        Some("candlestick")
    } else if text::one_of(k, "BullElliott", "BearElliott") {
        Some("elliott")
    } else if text::one_of(k, "BullIndicator", "BearIndicator") {
        Some("indicator")
    } else if text::one_of(k, "BullPane", "BearPane") {
        Some("pane")
    } else if text::one_of(k, "BullSymmetry", "BearSymmetry") {
        Some("symmetry")
    } else if text::one_of(k, "BullStructure", "BearStructure") {
        Some("structure")
    } else if text::one_of(k, "BullAtr", "BearAtr") {
        Some("atr")
    } else {
        None
    }
}

/// Whether a key is a scope selector.
pub fn is_stream_flag(k: &str) -> (r: bool)
    ensures
        r == stream_of(k@) is Some,
{
    stream_flag_group(k).is_some()
}

/// The research groups ticked on a side, in key order.
pub open spec fn ticked_groups(items: Seq<(Seq<char>, bool)>, bull: bool) -> Seq<Seq<char>>
    decreases items.len(),
{
    if items.len() == 0 {
        seq![]
    } else {
        let front = ticked_groups(items.drop_last(), bull);
        let (k, on) = items.last();
        if on && stream_of(k) is Some && text::begins(k, "Bull"@) == bull {
            front.push(stream_of(k)->0)
        } else {
            front
        }
    }
}

/// The characters of each literal of a list.
pub open spec fn lit_views(v: Seq<&'static str>) -> Seq<Seq<char>> {
    Seq::new(v.len(), |i: int| v[i]@)
}

/// The research groups ticked on the bullish and on the bearish side.
pub fn active_filter_groups(filters: &TextMap<bool>) -> (r: (Vec<&'static str>, Vec<&'static str>))
    ensures
        lit_views(r.0@) == ticked_groups(filters.items(), true),
        lit_views(r.1@) == ticked_groups(filters.items(), false),
{
    let mut bull: Vec<&'static str> = Vec::new();
    let mut bear: Vec<&'static str> = Vec::new();
    let n: usize = filters.len();
    let mut i: usize = 0;
    proof {
        assert(filters.items().take(0) =~= seq![]);
        assert(lit_views(bull@) =~= seq![]);
    }
    while i < n
        invariant
            n == filters.items().len(),
            i <= n,
            lit_views(bull@) == ticked_groups(filters.items().take(i as int), true),
            lit_views(bear@) == ticked_groups(filters.items().take(i as int), false),
        decreases n - i,
    {
        let k = filters.key_at(i);
        proof {
            let t = filters.items().take(i + 1);
            assert(t.drop_last() =~= filters.items().take(i as int));
            assert(t.last() == filters.items()[i as int]);
        }
        if *filters.value_at(i) {
            if let Some(g) = stream_flag_group(k.as_str()) {
                let ghost b0 = bull@;
                let ghost e0 = bear@;
                if text::starts_with(k.as_str(), "Bull") {
                    bull.push(g);
                    proof {
                        assert(lit_views(bull@) =~= lit_views(b0).push(g@));
                    }
                } else {
                    bear.push(g);
                    proof {
                        assert(lit_views(bear@) =~= lit_views(e0).push(g@));
                    }
                }
            }
        }
        i += 1;
    }
    proof {
        assert(filters.items().take(n as int) =~= filters.items());
    }
    (bull, bear)
}

/// A strategy's research group; an empty one is `other`.
pub open spec fn group_of(g: Seq<char>) -> Seq<char> {
    if text::trimmed(g).len() == 0 {
        "other"@
    } else {
        text::trimmed(g)
    }
}

/// A strategy's research group.
pub fn strategy_group(s: &Strategy) -> (r: String)
    ensures
        r@ == group_of(s.group@),
{
    let g = text::trim(s.group.as_str());
    if g.as_str().is_empty() {
        "other".to_owned()
    } else {
        g
    }
}

/// Scoping by research group: with nothing ticked everything runs, `other`
/// always runs, else the group must be ticked on the strategy's own side.
pub open spec fn in_scope(items: Seq<(Seq<char>, bool)>, group: Seq<char>, bull: bool) -> bool {
    ||| ticked_groups(items, true).len() == 0 && ticked_groups(items, false).len() == 0
    ||| group_of(group) == "other"@
    ||| ticked_groups(items, bull).contains(group_of(group))
}

/// Whether the ticked research groups let a strategy run.
pub fn stream_allows(filters: &TextMap<bool>, strat: &Strategy) -> (r: bool)
    ensures
        r == in_scope(filters.items(), strat.group@, model::bullish(*strat)),
{
    let (bull, bear) = active_filter_groups(filters);
    proof {
        assert(lit_views(bull@).len() == bull@.len());
        assert(lit_views(bear@).len() == bear@.len());
    }
    if bull.len() == 0 && bear.len() == 0 {
        return true;
    }
    let g = strategy_group(strat);
    if text::same(g.as_str(), "other") {
        return true;
    }
    let is_bull = model::strategy_is_bull(strat);
    let want = if is_bull {
        &bull
    } else {
        &bear
    };
    let ghost list = lit_views(want@);
    let mut i: usize = 0;
    while i < want.len()
        invariant
            i <= want.len(),
            list == lit_views(want@),
            list == ticked_groups(filters.items(), model::bullish(*strat)),
            g@ == group_of(strat.group@),
            forall|j: int| 0 <= j < i ==> #[trigger] list[j] != g@,
        decreases want.len() - i,
    {
        if text::same(want[i], g.as_str()) {
            proof {
                assert(list[i as int] == g@);
            }
            return true;
        }
        i += 1;
    }
    false
}

/// What is counted of the enabled filters.
#[derive(Clone, Copy, Debug, PartialEq, Eq, Structural)]
pub enum Tally {
    /// Own-side filters outside the arrow group.
    Plain,
    /// Of these, the ones that do not fail.
    PlainPass,
    /// Own-side filters of the arrow group.
    Arrow,
    /// Of these, the ones that do not fail.
    ArrowPass,
    /// Filters of the opposite side.
    Opposite,
    /// Of these, the ones that hold.
    OppositePass,
}

/// A verdict that does not block: a filter without one never does.
pub open spec fn passes(v: Option<bool>) -> bool {
    v != Some(false)
}

/// The entry is counted under the tally.
pub open spec fn counted(t: Tally, bull: bool, item: (Seq<char>, bool), v: Option<bool>) -> bool {
    let live = item.1 && stream_of(item.0) is None;
    let own = live && side_key(item.0, bull);
    let opp = live && side_key(item.0, !bull);
    match t {
        Tally::Plain => own && !arrow_key(item.0),
        Tally::PlainPass => own && !arrow_key(item.0) && passes(v),
        Tally::Arrow => own && arrow_key(item.0),
        Tally::ArrowPass => own && arrow_key(item.0) && passes(v),
        Tally::Opposite => opp,
        Tally::OppositePass => opp && v == Some(true),
    }
}

/// How many of the first `n` entries are counted under the tally.
pub open spec fn tally(
    t: Tally,
    bull: bool,
    items: Seq<(Seq<char>, bool)>,
    verdicts: Seq<Option<bool>>,
    n: nat,
) -> nat
    decreases n,
{
    if n == 0 {
        0
    } else {
        tally(t, bull, items, verdicts, (n - 1) as nat) + if counted(
            t,
            bull,
            items[n - 1],
            verdicts[n - 1],
        ) {
            1nat
        } else {
            0nat
        }
    }
}

/// The counts behind a gate decision and how it came about.
#[derive(Clone, Copy, Debug, PartialEq, Eq, Structural)]
pub struct GateFacts {
    /// Conditions of the own side that hold.
    pub pass: usize,
    /// Conditions of the own side.
    pub total: usize,
    /// Filters of the opposite side that hold.
    pub opposite: usize,
    /// Filters of the opposite side.
    pub opp_total: usize,
    /// Every own condition must hold.
    pub strict: bool,
    /// The scored gate runs on top.
    pub brain: bool,
    /// The opposite side vetoed the entry.
    pub veto: bool,
}

impl Default for GateFacts {
    fn default() -> (r: Self)
        ensures
            r == (GateFacts {
                pass: 0,
                total: 0,
                opposite: 0,
                opp_total: 0,
                strict: false,
                brain: false,
                veto: false,
            }),
    {
        GateFacts {
            pass: 0,
            total: 0,
            opposite: 0,
            opp_total: 0,
            strict: false,
            brain: false,
            veto: false,
        }
    }
}

/// No more conditions hold than there are.
pub open spec fn sound(f: GateFacts) -> bool {
    f.pass <= f.total && f.opposite <= f.opp_total
}

/// The own-side conditions: each plain filter, and the arrow group as one.
pub open spec fn conditions(bull: bool, items: Seq<(Seq<char>, bool)>, v: Seq<Option<bool>>) -> nat {
    tally(Tally::Plain, bull, items, v, items.len()) + if tally(
        Tally::Arrow,
        bull,
        items,
        v,
        items.len(),
    ) > 0 {
        1nat
    } else {
        0nat
    }
}

/// The own-side conditions that hold; one arrow is enough for the arrow group.
pub open spec fn conditions_held(
    bull: bool,
    items: Seq<(Seq<char>, bool)>,
    v: Seq<Option<bool>>,
) -> nat {
    tally(Tally::PlainPass, bull, items, v, items.len()) + if tally(
        Tally::ArrowPass,
        bull,
        items,
        v,
        items.len(),
    ) > 0 {
        1nat
    } else {
        0nat
    }
}

proof fn lemma_tally_bounds(
    bull: bool,
    items: Seq<(Seq<char>, bool)>,
    v: Seq<Option<bool>>,
    n: nat,
)
    ensures
        tally(Tally::PlainPass, bull, items, v, n) <= tally(Tally::Plain, bull, items, v, n),
        tally(Tally::ArrowPass, bull, items, v, n) <= tally(Tally::Arrow, bull, items, v, n),
        tally(Tally::OppositePass, bull, items, v, n) <= tally(Tally::Opposite, bull, items, v, n),
        tally(Tally::Plain, bull, items, v, n) + tally(Tally::Arrow, bull, items, v, n) <= n,
        tally(Tally::Opposite, bull, items, v, n) <= n,
    decreases n,
{
    if n > 0 {
        lemma_tally_bounds(bull, items, v, (n - 1) as nat);
    }
}

/// The counts behind the entry gate for one side. `verdicts[i]` is the verdict of the
/// filter at entry `i`; those of filters that are off or out of scope are not read.
pub fn filter_gate_facts(
    filters: &TextMap<bool>,
    bull: bool,
    verdicts: &Vec<Option<bool>>,
    strict: bool,
    brain: bool,
) -> (r: GateFacts)
    requires
        verdicts.len() == filters.items().len(),
    ensures
        r.total == conditions(bull, filters.items(), verdicts@),
        r.pass == conditions_held(bull, filters.items(), verdicts@),
        r.opp_total == tally(
            Tally::Opposite,
            bull,
            filters.items(),
            verdicts@,
            filters.items().len(),
        ),
        r.opposite == tally(
            Tally::OppositePass,
            bull,
            filters.items(),
            verdicts@,
            filters.items().len(),
        ),
        r.strict == strict,
        r.brain == brain,
        !r.veto,
        sound(r),
{
    let n: usize = filters.len();
    let ghost items = filters.items();
    let ghost v = verdicts@;
    let mut plain: usize = 0;
    let mut plain_pass: usize = 0;
    let mut arrow: bool = false;
    let mut arrow_pass: bool = false;
    let mut opp: usize = 0;
    let mut opp_pass: usize = 0;
    let mut i: usize = 0;
    while i < n
        invariant
            n == filters.items().len(),
            n == verdicts.len(),
            items == filters.items(),
            v == verdicts@,
            i <= n,
            plain <= i,
            plain_pass <= i,
            opp <= i,
            opp_pass <= i,
            plain == tally(Tally::Plain, bull, items, v, i as nat),
            plain_pass == tally(Tally::PlainPass, bull, items, v, i as nat),
            arrow == (tally(Tally::Arrow, bull, items, v, i as nat) > 0),
            arrow_pass == (tally(Tally::ArrowPass, bull, items, v, i as nat) > 0),
            opp == tally(Tally::Opposite, bull, items, v, i as nat),
            opp_pass == tally(Tally::OppositePass, bull, items, v, i as nat),
        decreases n - i,
    {
        let k = filters.key_at(i).as_str();
        let live = *filters.value_at(i) && !is_stream_flag(k);
        if live {
            let is_bull = filter_is_bull(k);
            let is_bear = filter_is_bear(k);
            let own = if bull {
                is_bull
            } else {
                is_bear
            };
            let against = if bull {
                is_bear
            } else {
                is_bull
            };
            let (ok, hit) = match verdicts[i] {
                Some(b) => (b, b),
                None => (true, false),
            };
            if own {
                if is_arrow_flag(k) {
                    arrow = true;
                    arrow_pass = arrow_pass || ok;
                } else {
                    plain += 1;
                    if ok {
                        plain_pass += 1;
                    }
                }
            }
            if against {
                opp += 1;
                if hit {
                    opp_pass += 1;
                }
            }
        }
        i += 1;
    }
    proof {
        lemma_tally_bounds(bull, items, v, n as nat);
    }
    let extra: usize = if arrow {
        1
    } else {
        0
    };
    let extra_pass: usize = if arrow_pass {
        1
    } else {
        0
    };
    GateFacts {
        pass: plain_pass + extra_pass,
        total: plain + extra,
        opposite: opp_pass,
        opp_total: opp,
        strict,
        brain,
        veto: false,
    }
}

/// At least half of the opposite filters hold.
pub open spec fn strongly_opposed(f: GateFacts) -> bool {
    f.opp_total > 0 && f.opposite * 2 >= f.opp_total
}

/// The entry gate lets the entry through. `score_below`: the share of held conditions
/// does not reach the operator's threshold. The scored gate runs on top of the
/// strict or majority result, never instead of it.
pub open spec fn gate_open(f: GateFacts, score_below: bool) -> bool {
    &&& f.strict ==> f.pass == f.total
    &&& f.brain ==> !strongly_opposed(f) && !(f.total > 0 && score_below)
    &&& f.strict || f.total == 0 || f.pass * 2 > f.total
}

/// The opposite side vetoes the entry: under the scored gate, where the strict one has not
/// already refused it.
pub open spec fn vetoed(f: GateFacts) -> bool {
    f.brain && strongly_opposed(f) && !(f.strict && f.pass != f.total)
}

/// The entry gate decision, with the veto noted in the facts.
pub fn filter_gate(f: GateFacts, score_below: bool) -> (r: (bool, GateFacts))
    requires
        sound(f),
        !f.veto,
    ensures
        r.0 == gate_open(f, score_below),
        r.1 == (GateFacts {
            veto: vetoed(f),
            ..f
        }),
{
    if f.strict && f.pass != f.total {
        return (false, f);
    }
    if f.brain {
        if f.opp_total > 0 && f.opposite >= f.opp_total - f.opposite {
            return (false, GateFacts { veto: true, ..f });
        }
        if f.total > 0 && score_below {
            return (false, f);
        }
    }
    if f.strict || f.total == 0 {
        return (true, f);
    }
    (f.pass > f.total - f.pass, f)
}

/// `b` as it is written in the log.
pub open spec fn bool_text(b: bool) -> Seq<char> {
    if b {
        "true"@
    } else {
        "false"@
    }
}

/// `a/b`.
pub open spec fn ratio_text(a: usize, b: usize) -> Seq<char> {
    text::dec(a as int) + "/"@ + text::dec(b as int)
}

/// The breakdown of a gate decision; `score` is the share of held conditions as
/// a whole percentage.
pub open spec fn explanation(ok: bool, f: GateFacts, score: Seq<char>, threshold: i64) -> Seq<char> {
    "ok="@ + bool_text(ok) + " pass="@ + ratio_text(f.pass, f.total) + " score="@ + score
        + "% strict="@ + bool_text(f.strict) + " brain="@ + bool_text(f.brain) + " veto="@
        + bool_text(f.veto) + " opp="@ + ratio_text(f.opposite, f.opp_total) + " thr="@
        + text::int_dec(threshold as int)
}

fn push_bool(out: &mut String, b: bool)
    ensures
        final(out)@ == old(out)@ + bool_text(b),
{
    if b {
        text::push_text(out, "true");
    } else {
        text::push_text(out, "false");
    }
}

fn push_ratio(out: &mut String, a: usize, b: usize)
    ensures
        final(out)@ == old(out)@ + ratio_text(a, b),
{
    text::push_nat(out, a as u64);
    text::push_text(out, "/");
    text::push_nat(out, b as u64);
    proof {
        assert(final(out)@ =~= old(out)@ + ratio_text(a, b));
    }
}

/// One line that says which mechanism allowed or blocked an entry.
pub fn filter_gate_explain(ok: bool, f: &GateFacts, score: &str, threshold: i64) -> (r: String)
    ensures
        r@ == explanation(ok, *f, score@, threshold),
{
    let mut out = "ok=".to_owned();
    push_bool(&mut out, ok);
    text::push_text(&mut out, " pass=");
    push_ratio(&mut out, f.pass, f.total);
    text::push_text(&mut out, " score=");
    text::push_text(&mut out, score);
    text::push_text(&mut out, "% strict=");
    push_bool(&mut out, f.strict);
    text::push_text(&mut out, " brain=");
    push_bool(&mut out, f.brain);
    text::push_text(&mut out, " veto=");
    push_bool(&mut out, f.veto);
    text::push_text(&mut out, " opp=");
    push_ratio(&mut out, f.opposite, f.opp_total);
    text::push_text(&mut out, " thr=");
    text::push_int(&mut out, threshold);
    out
}

/// The pairs of readings the direction guard compares: price action, the 9/21
/// and 21/35 averages, the close against the three-factor super-trend and
/// against the volume-weighted price.
pub open spec fn guard_pairs() -> Seq<(Reading, Reading)> {
    seq![
        (verdict::val(Curve::Close, 0), verdict::val(Curve::Close, 1)),
        (verdict::val(rules::average(9), 0), verdict::val(rules::average(21), 0)),
        (verdict::val(rules::average(21), 0), verdict::val(rules::average(35), 0)),
        (verdict::val(Curve::Close, 0), verdict::val(rules::trend_line(3), 0)),
        (verdict::val(Curve::Close, 0), verdict::val(verdict::out(Study::Vwap, 0), 0)),
    ]
}

/// The pairs of readings the direction guard compares.
pub fn guard_readings() -> (r: Vec<(Reading, Reading)>)
    ensures
        r@ == guard_pairs(),
{
    let close = Reading::Value { curve: Curve::Close, back: 0 };
    let e9 = Reading::Value { curve: rules::ema_curve(9), back: 0 };
    let e21 = Reading::Value { curve: rules::ema_curve(21), back: 0 };
    let e35 = Reading::Value { curve: rules::ema_curve(35), back: 0 };
    let trend = Reading::Value {
        curve: Curve::Line { study: Study::Supertrend, setup: Setup::Trend(3), line: 0 },
        back: 0,
    };
    let vwap = Reading::Value {
        curve: Curve::Line { study: Study::Vwap, setup: Setup::Plain, line: 0 },
        back: 0,
    };
    vec![
        (close, Reading::Value { curve: Curve::Close, back: 1 }),
        (e9, e21),
        (e21, e35),
        (close, trend),
        (close, vwap),
    ]
}

/// A pair of readings votes against the side.
pub open spec fn votes_against(bull: bool, p: (Option<Num>, Option<Num>)) -> bool {
    match p {
        (Some(a), Some(b)) => a.above(b) != bull,
        _ => false,
    }
}

/// How many of the first `n` pairs vote against the side.
pub open spec fn votes(bull: bool, pairs: Seq<(Option<Num>, Option<Num>)>, n: nat) -> nat
    decreases n,
{
    if n == 0 {
        0
    } else {
        votes(bull, pairs, (n - 1) as nat) + if votes_against(bull, pairs[n - 1]) {
            1nat
        } else {
            0nat
        }
    }
}

/// The direction guard blocks the entry: it is on and at least three readings vote against
/// the side.
pub open spec fn guard_blocks(guard: bool, bull: bool, pairs: Seq<(Option<Num>, Option<Num>)>) -> bool {
    guard && votes(bull, pairs, pairs.len()) >= 3
}

/// Whether the direction guard blocks the entry: at least three readings vote
/// against its side.
pub fn direction_opposite(
    guard: bool,
    bull: bool,
    pairs: &Vec<(Option<Num>, Option<Num>)>,
) -> (r: bool)
    ensures
        r == guard_blocks(guard, bull, pairs@),
{
    if !guard {
        return false;
    }
    let mut opp: usize = 0;
    let mut i: usize = 0;
    while i < pairs.len()
        invariant
            i <= pairs.len(),
            opp <= i,
            opp == votes(bull, pairs@, i as nat),
        decreases pairs.len() - i,
    {
        if let (Some(a), Some(b)) = pairs[i] {
            if a.gt(&b) != bull {
                opp += 1;
            }
        }
        i += 1;
    }
    opp >= 3
}

/// A key with a side prefix counts for that side and never for the other.
pub proof fn law_prefix_decides_side(k: Seq<char>)
    ensures
        text::begins(k, "Bull"@) ==> bull_key(k) && !bear_key(k),
        text::begins(k, "Bear"@) ==> bear_key(k) && !bull_key(k),
{
    reveal_strlit("Bull");
    reveal_strlit("Bear");
    if text::begins(k, "Bull"@) && text::begins(k, "Bear"@) {
        assert(k.subrange(0, 4)[1] == k[1]);
        assert("Bull"@[1] == 'u');
        assert("Bear"@[1] == 'e');
    }
}

/// A side without filters never runs, a committed engine never runs both sides,
/// and committed to calls no bearish side runs, to puts no bullish one.
pub proof fn law_committed_side(bull_side: bool, bear_side: bool, active: Option<Seq<char>>)
    ensures
        allowed(bull_side, bear_side, active).0 ==> bull_side,
        allowed(bull_side, bear_side, active).1 ==> bear_side,
        active is Some ==> !(allowed(bull_side, bear_side, active).0 && allowed(
            bull_side,
            bear_side,
            active,
        ).1),
        active == Some("CE"@) ==> !allowed(bull_side, bear_side, active).1,
        active == Some("PE"@) ==> !allowed(bull_side, bear_side, active).0,
{
    reveal_strlit("CE");
    reveal_strlit("PE");
    assert("CE"@[0] == 'C');
    assert("PE"@[0] == 'P');
}

/// The scored gate only narrows: what it lets through, the strict or majority
/// gate alone lets through as well.
pub proof fn law_brain_only_narrows(f: GateFacts, score_below: bool)
    requires
        gate_open(f, score_below),
    ensures
        gate_open(GateFacts { brain: false, ..f }, score_below),
{
}

/// Demanding every condition only narrows the entry gate.
pub proof fn law_strict_only_narrows(f: GateFacts, score_below: bool)
    requires
        gate_open(GateFacts { strict: true, ..f }, score_below),
    ensures
        gate_open(GateFacts { strict: false, ..f }, score_below),
{
}

/// With no condition on the side the entry gate does not block, unless the opposite
/// side vetoes under the scored gate.
pub proof fn law_no_conditions_open(f: GateFacts, score_below: bool)
    requires
        f.total == 0,
        f.pass == 0,
    ensures
        gate_open(f, score_below) == !(f.brain && strongly_opposed(f)),
{
}

proof fn lemma_all_pass(
    bull: bool,
    items: Seq<(Seq<char>, bool)>,
    v: Seq<Option<bool>>,
    n: nat,
)
    requires
        n <= items.len(),
        items.len() == v.len(),
    ensures
        (tally(Tally::Plain, bull, items, v, n) == tally(Tally::PlainPass, bull, items, v, n)) == (
        forall|i: int|
            0 <= i < n && #[trigger] counted(Tally::Plain, bull, items[i], v[i]) ==> passes(v[i])),
        (tally(Tally::ArrowPass, bull, items, v, n) > 0) == (exists|i: int|
            0 <= i < n && #[trigger] counted(Tally::ArrowPass, bull, items[i], v[i])),
        (tally(Tally::Arrow, bull, items, v, n) > 0) == (exists|i: int|
            0 <= i < n && #[trigger] counted(Tally::Arrow, bull, items[i], v[i])),
    decreases n,
{
    lemma_tally_bounds(bull, items, v, n);
    if n > 0 {
        let m = (n - 1) as nat;
        lemma_all_pass(bull, items, v, m);
        lemma_tally_bounds(bull, items, v, m);
        assert(counted(Tally::Plain, bull, items[n - 1], v[n - 1]) ==> true);
        if counted(Tally::ArrowPass, bull, items[n - 1], v[n - 1]) {
        } else if tally(Tally::ArrowPass, bull, items, v, m) > 0 {
            let i = choose|i: int|
                0 <= i < m && #[trigger] counted(Tally::ArrowPass, bull, items[i], v[i]);
            assert(0 <= i < n && counted(Tally::ArrowPass, bull, items[i], v[i]));
        }
        if counted(Tally::Arrow, bull, items[n - 1], v[n - 1]) {
        } else if tally(Tally::Arrow, bull, items, v, m) > 0 {
            let i = choose|i: int|
                0 <= i < m && #[trigger] counted(Tally::Arrow, bull, items[i], v[i]);
            assert(0 <= i < n && counted(Tally::Arrow, bull, items[i], v[i]));
        }
    }
}

/// Under the strict gate an entry goes through exactly when no enabled filter
/// of its side outside the arrow group fails and, where arrows are enabled, at
/// least one of them does not fail.
pub proof fn law_strict_gate(bull: bool, items: Seq<(Seq<char>, bool)>, v: Seq<Option<bool>>)
    requires
        items.len() == v.len(),
    ensures
        (conditions(bull, items, v) == conditions_held(bull, items, v)) == ({
            &&& forall|i: int|
                0 <= i < items.len() && #[trigger] counted(Tally::Plain, bull, items[i], v[i])
                    ==> passes(v[i])
            &&& (exists|i: int|
                0 <= i < items.len() && #[trigger] counted(Tally::Arrow, bull, items[i], v[i]))
                ==> (exists|i: int|
                0 <= i < items.len() && #[trigger] counted(Tally::ArrowPass, bull, items[i], v[i]))
        }),
{
    lemma_all_pass(bull, items, v, items.len());
    lemma_tally_bounds(bull, items, v, items.len());
}

/// A filter without a verdict counts like one that holds for its own side, and
/// never towards the opposite side's veto.
pub proof fn law_unknown_filter_is_neutral(bull: bool, item: (Seq<char>, bool))
    ensures
        counted(Tally::PlainPass, bull, item, None) == counted(
            Tally::PlainPass,
            bull,
            item,
            Some(true),
        ),
        counted(Tally::ArrowPass, bull, item, None) == counted(
            Tally::ArrowPass,
            bull,
            item,
            Some(true),
        ),
        !counted(Tally::OppositePass, bull, item, None),
{
}

/// The entry gate in numbers. Plain, more than half of the own conditions hold, or there
/// are none. Strict, all of them hold. The scored gate asks on top that fewer than half
/// of the opposite filters hold, or that there are none, and that the score is reached
/// where there is something to score.
pub proof fn law_gate_in_numbers(f: GateFacts, score_below: bool)
    requires
        f.pass <= f.total,
        f.opposite <= f.opp_total,
    ensures
        ({
            let missed = f.total - f.pass;
            let opposed = f.opp_total > 0 && f.opposite >= f.opp_total - f.opposite;
            let scored = !opposed && (f.total == 0 || !score_below);
            &&& !f.strict && !f.brain ==> (gate_open(f, score_below) <==> f.total == 0 || f.pass
                > missed)
            &&& f.strict && !f.brain ==> (gate_open(f, score_below) <==> missed == 0)
            &&& !f.strict && f.brain ==> (gate_open(f, score_below) <==> scored && (f.total == 0
                || f.pass > missed))
            &&& f.strict && f.brain ==> (gate_open(f, score_below) <==> scored && missed == 0)
        }),
{
}

/// One more own condition that holds never closes the entry gate, and neither does one
/// more opposite filter that fails.
pub proof fn law_good_news_never_closes(f: GateFacts, g: GateFacts, score_below: bool)
    requires
        sound(f),
        gate_open(f, score_below),
        g.strict == f.strict && g.brain == f.brain,
        f.total > 0,
        g.pass == f.pass + 1 && g.total == f.total + 1 && g.opposite == f.opposite && g.opp_total
            == f.opp_total || g.pass == f.pass && g.total == f.total && g.opposite == f.opposite
            && g.opp_total == f.opp_total + 1 && f.opp_total > 0,
    ensures
        gate_open(g, score_below),
{
}

proof fn lemma_begins_chars(s: Seq<char>, p: Seq<char>)
    ensures
        text::begins(s, p) <==> s.len() >= p.len() && forall|i: int|
            0 <= i < p.len() ==> s[i] == #[trigger] p[i],
{
    if text::begins(s, p) {
        assert forall|i: int| 0 <= i < p.len() implies s[i] == #[trigger] p[i] by {
            assert(s.subrange(0, p.len() as int)[i] == s[i]);
        }
    } else if s.len() >= p.len() && forall|i: int| 0 <= i < p.len() ==> s[i] == #[trigger] p[i] {
        assert(s.subrange(0, p.len() as int) =~= p);
    }
}

/// The arrow keys are those that begin with `BullArrow` or `BearArrow`.
pub proof fn law_arrow_keys_by_prefix(k: Seq<char>)
    ensures
        arrow_key(k) <==> text::begins(k, "BullArrow"@) || text::begins(k, "BearArrow"@),
{
    reveal_strlit("Bull");
    reveal_strlit("Bear");
    reveal_strlit("Arrow");
    reveal_strlit("BullArrow");
    reveal_strlit("BearArrow");
    let bull = "Bull"@;
    let bear = "Bear"@;
    let arrow = "Arrow"@;
    assert("BullArrow"@ =~= bull + arrow);
    assert("BearArrow"@ =~= bear + arrow);
    assert(bull[1] == 'u' && bear[1] == 'e');
    lemma_begins_chars(k, bull);
    lemma_begins_chars(k, bear);
    lemma_two_parts(k, bull, arrow);
    lemma_two_parts(k, bear, arrow);
    if text::begins(k, bull) && text::begins(k, bear) {
        assert(k[1] == bull[1]);
        assert(k[1] == bear[1]);
    }
}

proof fn lemma_two_parts(k: Seq<char>, a: Seq<char>, b: Seq<char>)
    ensures
        text::begins(k, a + b) <==> text::begins(k, a) && text::begins(text::after(k, a)->0, b),
{
    lemma_begins_chars(k, a + b);
    lemma_begins_chars(k, a);
    if text::begins(k, a + b) {
        assert forall|i: int| 0 <= i < a.len() implies k[i] == #[trigger] a[i] by {
            assert((a + b)[i] == a[i]);
        }
        let rest = text::after(k, a)->0;
        lemma_begins_chars(rest, b);
        assert forall|i: int| 0 <= i < b.len() implies rest[i] == #[trigger] b[i] by {
            assert((a + b)[a.len() + i] == b[i]);
        }
    }
    if text::begins(k, a) && text::begins(text::after(k, a)->0, b) {
        let rest = text::after(k, a)->0;
        lemma_begins_chars(rest, b);
        assert forall|i: int| 0 <= i < (a + b).len() implies k[i] == #[trigger] (a + b)[i] by {
            if i >= a.len() {
                assert(rest[i - a.len()] == b[i - a.len()]);
            } else {
                assert(k[i] == a[i]);
            }
        }
    }
}

/// A key that chooses a research group, and which one.
pub open spec fn scope_keys() -> Seq<(Seq<char>, Seq<char>, Seq<char>)> {
    seq![
        ("BullCandle"@, "BearCandle"@, "candlestick"@),
        ("BullElliott"@, "BearElliott"@, "elliott"@),
        ("BullIndicator"@, "BearIndicator"@, "indicator"@),
        ("BullPane"@, "BearPane"@, "pane"@),
        ("BullSymmetry"@, "BearSymmetry"@, "symmetry"@),
        ("BullStructure"@, "BearStructure"@, "structure"@),
        ("BullAtr"@, "BearAtr"@, "atr"@),
    ]
}

/// The seven scope selectors of each side choose their research group, and no other key
/// chooses any.
pub proof fn law_scope_keys_choose_groups(k: Seq<char>)
    ensures
        forall|i: int|
            0 <= i < 7 ==> stream_of((#[trigger] scope_keys()[i]).0) == Some(scope_keys()[i].2)
                && stream_of(scope_keys()[i].1) == Some(scope_keys()[i].2),
        stream_of(k) is Some ==> exists|i: int|
            0 <= i < 7 && ((#[trigger] scope_keys()[i]).0 == k || scope_keys()[i].1 == k),
{
    reveal_strlit("BullCandle");
    reveal_strlit("BearCandle");
    reveal_strlit("BullElliott");
    reveal_strlit("BearElliott");
    reveal_strlit("BullIndicator");
    reveal_strlit("BearIndicator");
    reveal_strlit("BullPane");
    reveal_strlit("BearPane");
    reveal_strlit("BullSymmetry");
    reveal_strlit("BearSymmetry");
    reveal_strlit("BullStructure");
    reveal_strlit("BearStructure");
    reveal_strlit("BullAtr");
    reveal_strlit("BearAtr");
    assert("BullCandle"@[4] == 'C' && "BearCandle"@[4] == 'C');
    assert("BullElliott"@[4] == 'E' && "BearElliott"@[4] == 'E');
    assert("BullIndicator"@[4] == 'I' && "BearIndicator"@[4] == 'I');
    assert("BullPane"@[4] == 'P' && "BearPane"@[4] == 'P');
    assert("BullSymmetry"@[4] == 'S' && "BearSymmetry"@[4] == 'S');
    assert("BullSymmetry"@[5] == 'y' && "BearSymmetry"@[5] == 'y');
    assert("BullStructure"@[4] == 'S' && "BearStructure"@[4] == 'S');
    assert("BullStructure"@[5] == 't' && "BearStructure"@[5] == 't');
    assert("BullAtr"@[4] == 'A' && "BearAtr"@[4] == 'A');
    let s = scope_keys();
    assert forall|i: int| 0 <= i < 7 implies stream_of((#[trigger] s[i]).0) == Some(s[i].2)
        && stream_of(s[i].1) == Some(s[i].2) by {
        assert(i == 0 || i == 1 || i == 2 || i == 3 || i == 4 || i == 5 || i == 6);
    }
    if stream_of(k) is Some {
        assert(s[0].0 == k || s[0].1 == k || s[1].0 == k || s[1].1 == k || s[2].0 == k || s[2].1
            == k || s[3].0 == k || s[3].1 == k || s[4].0 == k || s[4].1 == k || s[5].0 == k
            || s[5].1 == k || s[6].0 == k || s[6].1 == k);
    }
}

/// A filter that the entry gate looks at: it is on and chooses no research group.
pub open spec fn looked_at(item: (Seq<char>, bool)) -> bool {
    item.1 && stream_of(item.0) is None
}

/// An arrow of the side is looked at and does not fail, or, with `any`, is looked at.
pub open spec fn some_arrow(
    bull: bool,
    items: Seq<(Seq<char>, bool)>,
    v: Seq<Option<bool>>,
    any: bool,
) -> bool {
    exists|i: int|
        0 <= i < items.len() && looked_at(#[trigger] items[i]) && side_key(items[i].0, bull) && (
        text::begins(items[i].0, "BullArrow"@) || text::begins(items[i].0, "BearArrow"@)) && (any
            || v[i] != Some(false))
}

proof fn lemma_tally_prefix(
    t: Tally,
    bull: bool,
    items: Seq<(Seq<char>, bool)>,
    v: Seq<Option<bool>>,
    item: (Seq<char>, bool),
    w: Option<bool>,
    n: nat,
)
    requires
        items.len() == v.len(),
        n <= items.len(),
    ensures
        tally(t, bull, items.push(item), v.push(w), n) == tally(t, bull, items, v, n),
    decreases n,
{
    if n > 0 {
        lemma_tally_prefix(t, bull, items, v, item, w, (n - 1) as nat);
    }
}

proof fn lemma_some_arrow(bull: bool, items: Seq<(Seq<char>, bool)>, v: Seq<Option<bool>>)
    requires
        items.len() == v.len(),
    ensures
        some_arrow(bull, items, v, true) == (tally(Tally::Arrow, bull, items, v, items.len()) > 0),
        some_arrow(bull, items, v, false) == (tally(Tally::ArrowPass, bull, items, v, items.len())
            > 0),
{
    lemma_all_pass(bull, items, v, items.len());
    assert forall|i: int| 0 <= i < items.len() implies arrow_key(#[trigger] items[i].0) == (
    text::begins(items[i].0, "BullArrow"@) || text::begins(items[i].0, "BearArrow"@)) by {
        law_arrow_keys_by_prefix(items[i].0);
    }
    if some_arrow(bull, items, v, true) {
        let i = choose|i: int|
            0 <= i < items.len() && looked_at(#[trigger] items[i]) && side_key(items[i].0, bull) && (
            text::begins(items[i].0, "BullArrow"@) || text::begins(items[i].0, "BearArrow"@));
        assert(counted(Tally::Arrow, bull, items[i], v[i]));
    }
    if some_arrow(bull, items, v, false) {
        let i = choose|i: int|
            0 <= i < items.len() && looked_at(#[trigger] items[i]) && side_key(items[i].0, bull) && (
            text::begins(items[i].0, "BullArrow"@) || text::begins(items[i].0, "BearArrow"@))
                && v[i] != Some(false);
        assert(counted(Tally::ArrowPass, bull, items[i], v[i]));
    }
    if tally(Tally::Arrow, bull, items, v, items.len()) > 0 {
        let i = choose|i: int|
            0 <= i < items.len() && #[trigger] counted(Tally::Arrow, bull, items[i], v[i]);
        assert(looked_at(items[i]));
    }
    if tally(Tally::ArrowPass, bull, items, v, items.len()) > 0 {
        let i = choose|i: int|
            0 <= i < items.len() && #[trigger] counted(Tally::ArrowPass, bull, items[i], v[i]);
        assert(looked_at(items[i]));
    }
}

/// What one more filter adds. One that is off or chooses a research group adds nothing.
/// One of the own side outside the arrow group is one more condition, which holds unless
/// the filter fails. The arrows of the own side are one condition together, which holds
/// where one of them does not fail. One of the opposite side counts against the entry
/// where it holds.
pub proof fn law_what_a_filter_adds(
    bull: bool,
    items: Seq<(Seq<char>, bool)>,
    v: Seq<Option<bool>>,
    item: (Seq<char>, bool),
    w: Option<bool>,
)
    requires
        items.len() == v.len(),
    ensures
        ({
            let more = items.push(item);
            let u = v.push(w);
            let n = items.len();
            let total = conditions(bull, more, u) - conditions(bull, items, v);
            let held = conditions_held(bull, more, u) - conditions_held(bull, items, v);
            let against = tally(Tally::Opposite, bull, more, u, n + 1) - tally(
                Tally::Opposite,
                bull,
                items,
                v,
                n,
            );
            let hits = tally(Tally::OppositePass, bull, more, u, n + 1) - tally(
                Tally::OppositePass,
                bull,
                items,
                v,
                n,
            );
            let own = side_key(item.0, bull);
            let arrow = text::begins(item.0, "BullArrow"@) || text::begins(item.0, "BearArrow"@);
            let ok = w != Some(false);
            &&& !looked_at(item) ==> total == 0 && held == 0 && against == 0 && hits == 0
            &&& !own ==> total == 0 && held == 0
            &&& looked_at(item) && own && !arrow ==> total == 1 && held == if ok {
                1int
            } else {
                0int
            }
            &&& looked_at(item) && own && arrow ==> {
                &&& total == if some_arrow(bull, items, v, true) {
                    0int
                } else {
                    1int
                }
                &&& held == if ok && !some_arrow(bull, items, v, false) {
                    1int
                } else {
                    0int
                }
            }
            &&& looked_at(item) && side_key(item.0, !bull) ==> against == 1 && hits == if w == Some(
                true,
            ) {
                1int
            } else {
                0int
            }
            &&& !side_key(item.0, !bull) ==> against == 0 && hits == 0
            &&& conditions(bull, Seq::empty(), Seq::empty()) == 0
        }),
{
    let n = items.len();
    lemma_tally_prefix(Tally::Plain, bull, items, v, item, w, n);
    lemma_tally_prefix(Tally::PlainPass, bull, items, v, item, w, n);
    lemma_tally_prefix(Tally::Arrow, bull, items, v, item, w, n);
    lemma_tally_prefix(Tally::ArrowPass, bull, items, v, item, w, n);
    lemma_tally_prefix(Tally::Opposite, bull, items, v, item, w, n);
    lemma_tally_prefix(Tally::OppositePass, bull, items, v, item, w, n);
    lemma_some_arrow(bull, items, v);
    law_arrow_keys_by_prefix(item.0);
}

/// A key counts for the side that its prefix names; without a prefix for the bulls where
/// it says `UP` and for the bears where it says `DOWN`, in any letters.
pub proof fn law_sides_of_keys(k: Seq<char>)
    ensures
        text::begins(k, "Bull"@) ==> side_key(k, true) && !side_key(k, false),
        text::begins(k, "Bear"@) ==> side_key(k, false) && !side_key(k, true),
        !text::begins(k, "Bull"@) && !text::begins(k, "Bear"@) ==> {
            &&& side_key(k, true) <==> text::has(text::upper_text(k), "UP"@)
            &&& side_key(k, false) <==> text::has(text::upper_text(k), "DOWN"@)
        },
{
    law_prefix_decides_side(k);
}

/// The sides that the scanner may build for: those with filters, and of these only the
/// one that the engine is committed to, if it is to any.
pub proof fn law_sides_the_scanner_builds(bull_side: bool, bear_side: bool)
    ensures
        allowed(bull_side, bear_side, None) == (bull_side, bear_side),
        allowed(bull_side, bear_side, Some("CE"@)) == (bull_side, false),
        allowed(bull_side, bear_side, Some("PE"@)) == (false, bear_side),
{
    reveal_strlit("CE");
    reveal_strlit("PE");
    assert("CE"@[0] == 'C' && "PE"@[0] == 'P');
}

/// A group is ticked on a side.
pub open spec fn ticks(items: Seq<(Seq<char>, bool)>, bull: bool, group: Seq<char>) -> bool {
    exists|i: int|
        0 <= i < items.len() && (#[trigger] items[i]).1 && stream_of(items[i].0) == Some(group)
            && text::begins(items[i].0, "Bull"@) == bull
}

/// The groups ticked on a side are those whose selector is on there.
pub proof fn law_groups_are_ticked(items: Seq<(Seq<char>, bool)>, bull: bool, group: Seq<char>)
    ensures
        ticked_groups(items, bull).contains(group) <==> ticks(items, bull, group),
    decreases items.len(),
{
    if items.len() > 0 {
        let less = items.drop_last();
        law_groups_are_ticked(less, bull, group);
        let front = ticked_groups(less, bull);
        let all = ticked_groups(items, bull);
        if ticks(less, bull, group) {
            let i = choose|i: int|
                0 <= i < less.len() && (#[trigger] less[i]).1 && stream_of(less[i].0) == Some(group)
                    && text::begins(less[i].0, "Bull"@) == bull;
            assert(items[i] == less[i]);
        }
        if front.contains(group) {
            let k = choose|k: int| 0 <= k < front.len() && front[k] == group;
            assert(all[k] == group);
        }
        if all.contains(group) {
            let k = choose|k: int| 0 <= k < all.len() && all[k] == group;
            if k < front.len() {
                assert(front[k] == group);
            } else {
                assert(items[items.len() - 1] == items.last());
            }
        }
        if ticks(items, bull, group) && !ticks(less, bull, group) {
            let i = choose|i: int|
                0 <= i < items.len() && (#[trigger] items[i]).1 && stream_of(items[i].0) == Some(
                    group,
                ) && text::begins(items[i].0, "Bull"@) == bull;
            if i < less.len() {
                assert(less[i] == items[i]);
            }
            assert(all[all.len() - 1] == group);
        }
    }
}

/// A strategy is in scope where nothing is ticked on either side, where it belongs to no
/// group, and where its group is ticked on its own side; nowhere else.
pub proof fn law_scope_by_group(items: Seq<(Seq<char>, bool)>, group: Seq<char>, bull: bool)
    ensures
        ({
            let g = text::trimmed(group);
            let nothing = forall|h: Seq<char>, b: bool| !#[trigger] ticks(items, b, h);
            in_scope(items, group, bull) <==> nothing || g.len() == 0 || g == "other"@ || ticks(
                items,
                bull,
                g,
            )
        }),
{
    let g = text::trimmed(group);
    reveal_strlit("other");
    assert("other"@.len() == 5);
    law_groups_are_ticked(items, bull, group_of(group));
    assert forall|h: Seq<char>, b: bool| #[trigger] ticks(items, b, h) == ticked_groups(
        items,
        b,
    ).contains(h) by {
        law_groups_are_ticked(items, b, h);
    }
    if ticked_groups(items, true).len() > 0 {
        let h = ticked_groups(items, true)[0];
        assert(ticked_groups(items, true).contains(h));
        assert(ticks(items, true, h));
    }
    if ticked_groups(items, false).len() > 0 {
        let h = ticked_groups(items, false)[0];
        assert(ticked_groups(items, false).contains(h));
        assert(ticks(items, false, h));
    }
    if exists|h: Seq<char>, b: bool| #[trigger] ticks(items, b, h) {
        let (h, b) = choose|h: Seq<char>, b: bool| #[trigger] ticks(items, b, h);
        assert(ticked_groups(items, b).contains(h));
    }
}

/// One comparison of the direction guard is computed and points away from the side.
pub open spec fn points_away(x: Option<Num>, y: Option<Num>, bull: bool) -> int {
    if x is Some && y is Some && (!(x->0).nan && !(y->0).nan && (x->0).key > (y->0).key) != bull {
        1
    } else {
        0
    }
}

/// The readings that the direction guard compares, taken from a chart.
pub open spec fn guard_view(c: spec_fn(Reading) -> Option<Num>) -> Seq<(Option<Num>, Option<Num>)> {
    Seq::new(guard_pairs().len(), |i: int| (c(guard_pairs()[i].0), c(guard_pairs()[i].1)))
}

/// The votes against an entry are those of five comparisons: the close with the bar
/// before, the averages of 9 with 21 and of 21 with 35 bars, the close with the super-trend
/// of factor three and with the volume-weighted price.
pub proof fn law_guard_compares_five(c: spec_fn(Reading) -> Option<Num>, bull: bool)
    ensures
        ({
            let close = c(Reading::Value { curve: Curve::Close, back: 0 });
            let last = c(Reading::Value { curve: Curve::Close, back: 1 });
            let e9 = c(
                Reading::Value {
                    curve: Curve::Line { study: Study::Ema, setup: Setup::Length(9), line: 0 },
                    back: 0,
                },
            );
            let e21 = c(
                Reading::Value {
                    curve: Curve::Line { study: Study::Ema, setup: Setup::Length(21), line: 0 },
                    back: 0,
                },
            );
            let e35 = c(
                Reading::Value {
                    curve: Curve::Line { study: Study::Ema, setup: Setup::Length(35), line: 0 },
                    back: 0,
                },
            );
            let trend = c(
                Reading::Value {
                    curve: Curve::Line { study: Study::Supertrend, setup: Setup::Trend(3), line: 0 },
                    back: 0,
                },
            );
            let vwap = c(
                Reading::Value {
                    curve: Curve::Line { study: Study::Vwap, setup: Setup::Plain, line: 0 },
                    back: 0,
                },
            );
            votes(bull, guard_view(c), guard_view(c).len()) == points_away(close, last, bull)
                + points_away(e9, e21, bull) + points_away(e21, e35, bull) + points_away(
                close,
                trend,
                bull,
            ) + points_away(close, vwap, bull)
        }),
{
    reveal_with_fuel(votes, 6);
    let v = guard_view(c);
    assert(v.len() == 5);
    assert(v[0] == (c(guard_pairs()[0].0), c(guard_pairs()[0].1)));
    assert(v[1] == (c(guard_pairs()[1].0), c(guard_pairs()[1].1)));
    assert(v[2] == (c(guard_pairs()[2].0), c(guard_pairs()[2].1)));
    assert(v[3] == (c(guard_pairs()[3].0), c(guard_pairs()[3].1)));
    assert(v[4] == (c(guard_pairs()[4].0), c(guard_pairs()[4].1)));
}

/// The direction guard blocks an entry exactly where it is on and three or more of its five
/// comparisons point away from the side.
pub proof fn law_guard_blocks_from_three(c: spec_fn(Reading) -> Option<Num>, bull: bool)
    ensures
        !guard_blocks(false, bull, guard_view(c)),
        guard_blocks(true, bull, guard_view(c)) <==> votes(bull, guard_view(c), 5) > 2,
{
    assert(guard_view(c).len() == 5);
}

/// A veto is noted exactly where the scored gate refuses for the opposite side's sake: at
/// least half of the opposite filters hold, and the strict gate did not refuse before.
pub proof fn law_veto_is_the_opposite_sides(f: GateFacts, score_below: bool)
    requires
        f.pass <= f.total,
        f.opposite <= f.opp_total,
    ensures
        vetoed(f) ==> f.brain && !gate_open(f, score_below) && f.opp_total > 0 && f.opposite
            >= f.opp_total - f.opposite,
        f.brain && f.opp_total > 0 && f.opposite >= f.opp_total - f.opposite && (!f.strict || f.pass
            == f.total) ==> vetoed(f),
        f.strict && f.pass < f.total ==> !vetoed(f),
        !f.brain ==> !vetoed(f),
{
}

} // verus!
