//! Entry conditions over indicator series, and the price a fast strategy is
//! tested at.

use vstd::prelude::*;
use crate::num::Num;
use crate::text;

verus! {

/// One bar.
#[derive(Clone, Copy, Debug, PartialEq, Eq, Structural)]
pub struct Bar {
    pub time: i64,
    pub open: Num,
    pub high: Num,
    pub low: Num,
    pub close: Num,
    pub volume: Num,
}

/// One entry condition: a series of an indicator compared with a value.
#[derive(Debug)]
pub struct Condition {
    pub indicator: String,
    /// Place of the series among the indicator's, the first where unreadable.
    pub source: String,
    pub op: String,
    pub value: Num,
}

/// The reading `back` places before the end of a series.
pub open spec fn from_end(s: Seq<Num>, back: int) -> Option<Num> {
    if 0 <= back < s.len() {
        Some(s[s.len() - 1 - back])
    } else {
        None
    }
}

/// The reading `back` places before the end of a series.
pub fn series_value(s: &Vec<Num>, back: usize) -> (r: Option<Num>)
    ensures
        r == from_end(s@, back as int),
{
    let n: usize = s.len();
    if n <= back {
        return None;
    }
    Some(s[n - 1 - back])
}

/// The series a source names among `n`: its number, the first where it is no
/// number, `None` where there is no such series.
pub open spec fn source_place(source: Seq<char>, n: int) -> Option<int> {
    let i = match text::nat_value(source, usize::MAX as int) {
        Some(k) => k,
        None => 0,
    };
    if i < n {
        Some(i)
    } else {
        None
    }
}

/// The series a source names among `n`.
pub fn source_index(source: &str, n: usize) -> (r: Option<usize>)
    ensures
        match (r, source_place(source@, n as int)) {
            (Some(a), Some(b)) => a == b,
            (None, None) => true,
            _ => false,
        },
        r is Some ==> r->0 < n,
{
    let i: usize = match text::parse_nat(source, usize::MAX as u64) {
        Some(k) => k as usize,
        None => 0,
    };
    if i < n {
        Some(i)
    } else {
        None
    }
}

/// The condition holds of the last reading and the one before it.
pub open spec fn holds(op: Seq<char>, value: Num, last: Option<Num>, prev: Option<Num>) -> bool {
    if op == "gt"@ {
        last is Some && (last->0).above(value)
    } else if op == "gte"@ {
        last is Some && (last->0).not_below(value)
    } else if op == "lt"@ {
        last is Some && value.above(last->0)
    } else if op == "lte"@ {
        last is Some && value.not_below(last->0)
    } else if op == "cross_up"@ {
        last is Some && prev is Some && value.not_below(prev->0) && (last->0).above(value)
    } else if op == "cross_down"@ {
        last is Some && prev is Some && (prev->0).not_below(value) && value.above(last->0)
    } else if op == "rising"@ {
        last is Some && prev is Some && (last->0).above(prev->0)
    } else if op == "falling"@ {
        last is Some && prev is Some && (prev->0).above(last->0)
    } else {
        false
    }
}

/// Whether a condition holds of the last reading and the one before it; an
/// unknown operator never does.
pub fn condition_holds(op: &str, value: Num, last: Option<Num>, prev: Option<Num>) -> (r: bool)
    ensures
        r == holds(op@, value, last, prev),
{
    let l = match last {
        Some(l) => l,
        None => {
            return false;
        },
    };
    if text::same(op, "gt") {
        return l.gt(&value);
    }
    if text::same(op, "gte") {
        return l.ge(&value);
    }
    if text::same(op, "lt") {
        return l.lt(&value);
    }
    if text::same(op, "lte") {
        return l.le(&value);
    }
    let p = match prev {
        Some(p) => p,
        None => {
            return false;
        },
    };
    if text::same(op, "cross_up") {
        return p.le(&value) && l.gt(&value);
    }
    if text::same(op, "cross_down") {
        return p.ge(&value) && l.lt(&value);
    }
    if text::same(op, "rising") {
        return l.gt(&p);
    }
    if text::same(op, "falling") {
        return l.lt(&p);
    }
    false
}

/// The readout of one condition.
#[derive(Clone, Copy, Debug, PartialEq, Eq, Structural)]
pub struct CondRow {
    pub last: Option<Num>,
    pub prev: Option<Num>,
    pub pass: bool,
}

/// The readout of a condition, given the indicator's series.
pub open spec fn row_of(c: Condition, out: Seq<Vec<Num>>, offset: int) -> CondRow {
    let at = source_place(c.source@, out.len() as int);
    let last = match at {
        Some(i) => from_end(out[i]@, offset),
        None => None,
    };
    let prev = match at {
        Some(i) => from_end(out[i]@, offset + 1),
        None => None,
    };
    CondRow { last, prev, pass: holds(c.op@, c.value, last, prev) }
}

/// The readouts of the conditions, each with its indicator's series.
pub open spec fn rows_of(c: Seq<Condition>, outs: Seq<Vec<Vec<Num>>>, offset: int) -> Seq<CondRow> {
    Seq::new(c.len(), |i: int| row_of(c[i], outs[i]@, offset))
}

/// Every condition is evaluated; they pass together, and an empty list does not.
pub fn condition_detail(
    conds: &Vec<Condition>,
    outs: &Vec<Vec<Vec<Num>>>,
    offset: usize,
) -> (r: (bool, Vec<CondRow>))
    requires
        conds@.len() == outs@.len(),
        offset < usize::MAX,
    ensures
        (r.1)@ == rows_of(conds@, outs@, offset as int),
        r.0 == all_hold((r.1)@),
{
    let mut all = conds.len() > 0;
    let mut rows: Vec<CondRow> = Vec::new();
    let mut i: usize = 0;
    while i < conds.len()
        invariant
            i <= conds.len(),
            conds@.len() == outs@.len(),
            offset < usize::MAX,
            rows@ == rows_of(conds@, outs@, offset as int).take(i as int),
            all == (conds@.len() > 0 && forall|k: int|
                0 <= k < rows@.len() ==> (#[trigger] rows@[k]).pass),
        decreases conds.len() - i,
    {
        let c = &conds[i];
        let out = &outs[i];
        let at = source_index(c.source.as_str(), out.len());
        let last = match at {
            Some(k) => series_value(&out[k], offset),
            None => None,
        };
        let prev = match at {
            Some(k) => series_value(&out[k], offset + 1),
            None => None,
        };
        let pass = condition_holds(c.op.as_str(), c.value, last, prev);
        if !pass {
            all = false;
        }
        let ghost before = rows@;
        rows.push(CondRow { last, prev, pass });
        proof {
            assert(rows@ =~= rows_of(conds@, outs@, offset as int).take(i + 1));
            assert(all == (conds@.len() > 0 && forall|k: int|
                0 <= k < rows@.len() ==> (#[trigger] rows@[k]).pass)) by {
                if forall|k: int| 0 <= k < rows@.len() ==> (#[trigger] rows@[k]).pass {
                    assert(rows@[i as int].pass);
                    assert forall|k: int| 0 <= k < before.len() implies (#[trigger] before[k]).pass by {
                        assert(rows@[k] == before[k]);
                    }
                }
                if all {
                    assert forall|k: int| 0 <= k < rows@.len() implies (#[trigger] rows@[k]).pass by {
                        if k < before.len() {
                            assert(rows@[k] == before[k]);
                        }
                    }
                }
            }
        }
        i += 1;
    }
    assert(rows_of(conds@, outs@, offset as int).take(i as int) =~= rows_of(
        conds@,
        outs@,
        offset as int,
    ));
    (all, rows)
}

/// Every readout passes, and there is one.
pub open spec fn all_hold(rows: Seq<CondRow>) -> bool {
    rows.len() > 0 && forall|i: int| 0 <= i < rows.len() ==> (#[trigger] rows[i]).pass
}

/// Whether every condition holds.
pub fn conditions_met(
    conds: &Vec<Condition>,
    outs: &Vec<Vec<Vec<Num>>>,
    offset: usize,
) -> (r: bool)
    requires
        conds@.len() == outs@.len(),
        offset < usize::MAX,
    ensures
        r == all_hold(rows_of(conds@, outs@, offset as int)),
{
    let (all, rows) = condition_detail(conds, outs, offset);
    all
}

/// A crossing up is a move above the value from at or below it; it cannot be a
/// crossing down of the same bar.
pub proof fn law_crossings_exclude(value: Num, last: Option<Num>, prev: Option<Num>)
    ensures
        holds("cross_up"@, value, last, prev) ==> holds("gt"@, value, last, prev),
        holds("cross_up"@, value, last, prev) ==> !holds("cross_down"@, value, last, prev),
        holds("cross_up"@, value, last, prev) ==> holds("rising"@, value, last, prev),
{
    reveal_strlit("gt");
    reveal_strlit("gte");
    reveal_strlit("lt");
    reveal_strlit("lte");
    reveal_strlit("cross_up");
    reveal_strlit("cross_down");
    reveal_strlit("rising");
    reveal_strlit("falling");
    assert("gt"@.len() == 2 && "gte"@.len() == 3 && "lt"@.len() == 2 && "lte"@.len() == 3);
    assert("cross_up"@.len() == 8 && "cross_down"@.len() == 10 && "rising"@.len() == 6);
    assert("gt"@[0] == 'g' && "lt"@[0] == 'l');
}

/// The candle value a fast strategy executes on.
#[derive(Clone, Copy, Debug, PartialEq, Eq, Structural)]
pub enum ExecOn {
    Open,
    High,
    Low,
    Close,
}

/// The candle value named by a setting, already trimmed and in lower case; the
/// close by default.
pub open spec fn exec_on_by(key: Seq<char>) -> ExecOn {
    let k = match text::after(key, "candle_"@) {
        Some(t) => t,
        None => key,
    };
    if k == "open"@ {
        ExecOn::Open
    } else if k == "high"@ {
        ExecOn::High
    } else if k == "low"@ {
        ExecOn::Low
    } else {
        ExecOn::Close
    }
}

/// The candle value named by a setting.
pub fn exec_on(field: &str) -> (r: ExecOn)
    ensures
        r == exec_on_by(text::downs(text::trimmed(field@))),
{
    let t = text::trim(field);
    let low = text::to_ascii_lower(t.as_str());
    let key = match text::strip_prefix(low.as_str(), "candle_") {
        Some(k) => k,
        None => low,
    };
    if text::same(key.as_str(), "open") {
        ExecOn::Open
    } else if text::same(key.as_str(), "high") {
        ExecOn::High
    } else if text::same(key.as_str(), "low") {
        ExecOn::Low
    } else {
        ExecOn::Close
    }
}

/// The value of a bar.
pub open spec fn bar_value(b: Bar, on: ExecOn) -> Num {
    match on {
        ExecOn::Open => b.open,
        ExecOn::High => b.high,
        ExecOn::Low => b.low,
        ExecOn::Close => b.close,
    }
}

/// The bars with the close of the one `offset` before the end replaced by the
/// value named.
pub open spec fn repriced(bars: Seq<Bar>, offset: int, on: ExecOn) -> Seq<Bar> {
    let i = bars.len() - 1 - offset;
    if i < 0 {
        bars
    } else {
        bars.update(i, Bar { close: bar_value(bars[i], on), ..bars[i] })
    }
}

/// Replaces the close of the evaluated bar by the chosen candle value.
pub fn apply_hft_price(bars: &mut Vec<Bar>, offset: usize, field: &str)
    ensures
        final(bars)@ == repriced(
            old(bars)@,
            offset as int,
            exec_on_by(text::downs(text::trimmed(field@))),
        ),
{
    let n: usize = bars.len();
    if n <= offset {
        return ;
    }
    let i: usize = n - 1 - offset;
    let mut b = bars[i];
    b.close = match exec_on(field) {
        ExecOn::Open => b.open,
        ExecOn::High => b.high,
        ExecOn::Low => b.low,
        ExecOn::Close => b.close,
    };
    bars.set(i, b);
}

/// Executing on the close changes nothing, and doing it twice changes no more
/// than once.
pub proof fn law_reprice(bars: Seq<Bar>, offset: int, on: ExecOn)
    requires
        0 <= offset,
    ensures
        repriced(bars, offset, ExecOn::Close) == bars,
        repriced(repriced(bars, offset, on), offset, on) == repriced(bars, offset, on),
        repriced(bars, offset, on).len() == bars.len(),
{
    assert(repriced(bars, offset, ExecOn::Close) =~= bars);
    assert(repriced(repriced(bars, offset, on), offset, on) =~= repriced(bars, offset, on));
}

/// The direction of an indicator's first line: its last reading against the one
/// before it.
pub open spec fn line_rises(out: Seq<Vec<Num>>) -> Option<bool> {
    if out.len() == 0 {
        None
    } else {
        match (from_end(out[0]@, 0), from_end(out[0]@, 1)) {
            (Some(a), Some(b)) => if a.above(b) {
                Some(true)
            } else if b.above(a) {
                Some(false)
            } else {
                None
            },
            _ => None,
        }
    }
}

/// The indicators whose line moves the asked way.
pub open spec fn assigned(ids: Seq<String>, outs: Seq<Vec<Vec<Num>>>, up: bool, n: int) -> Seq<Seq<char>>
    decreases n,
{
    if n <= 0 {
        Seq::empty()
    } else if line_rises(outs[n - 1]@) == Some(up) {
        assigned(ids, outs, up, n - 1).push(ids[n - 1]@)
    } else {
        assigned(ids, outs, up, n - 1)
    }
}

/// Sorts the selected indicators by the direction of their line: rising ones to
/// the bullish side, falling ones to the bearish side, flat ones to neither.
/// The third part is the surplus of rising lines.
pub fn nifty_indicator_assignment(ids: &Vec<String>, outs: &Vec<Vec<Vec<Num>>>) -> (r: (
    Vec<String>,
    Vec<String>,
    i64,
))
    requires
        ids@.len() == outs@.len(),
        ids@.len() <= i64::MAX,
    ensures
        text::views((r.0)@) == assigned(ids@, outs@, true, ids@.len() as int),
        text::views((r.1)@) == assigned(ids@, outs@, false, ids@.len() as int),
        r.2 == (r.0)@.len() - (r.1)@.len(),
{
    let mut bull: Vec<String> = Vec::new();
    let mut bear: Vec<String> = Vec::new();
    let mut i: usize = 0;
    assert(text::views(bull@) =~= Seq::<Seq<char>>::empty());
    while i < ids.len()
        invariant
            i <= ids.len(),
            ids@.len() == outs@.len(),
            ids@.len() <= i64::MAX,
            bull@.len() <= i,
            bear@.len() <= i,
            text::views(bull@) == assigned(ids@, outs@, true, i as int),
            text::views(bear@) == assigned(ids@, outs@, false, i as int),
        decreases ids.len() - i,
    {
        let out = &outs[i];
        if out.len() > 0 {
            let last = series_value(&out[0], 0);
            let prev = series_value(&out[0], 1);
            if let (Some(a), Some(b)) = (last, prev) {
                if a.gt(&b) {
                    let ghost was = bull@;
                    bull.push(ids[i].clone());
                    assert(text::views(bull@) =~= text::views(was).push(ids@[i as int]@));
                } else if a.lt(&b) {
                    let ghost was = bear@;
                    bear.push(ids[i].clone());
                    assert(text::views(bear@) =~= text::views(was).push(ids@[i as int]@));
                }
            }
        }
        i += 1;
    }
    let net: i64 = bull.len() as i64 - bear.len() as i64;
    (bull, bear, net)
}

/// The operators of a condition, over readings that are numbers. The last reading is above
/// the value, at or above it, below it, or at or below it; a crossing also asks that the
/// reading before was not beyond it; a line rises or falls against the reading before.
pub proof fn law_what_conditions_ask(value: Num, last: Num, prev: Num)
    requires
        !value.nan && !last.nan && !prev.nan,
    ensures
        ({
            let (v, l, p) = (value.key, last.key, prev.key);
            let (a, b) = (Some(last), Some(prev));
            &&& holds("gt"@, value, a, b) <==> l > v
            &&& holds("gte"@, value, a, b) <==> l >= v
            &&& holds("lt"@, value, a, b) <==> l < v
            &&& holds("lte"@, value, a, b) <==> l <= v
            &&& holds("cross_up"@, value, a, b) <==> p <= v < l
            &&& holds("cross_down"@, value, a, b) <==> l < v <= p
            &&& holds("rising"@, value, a, b) <==> l > p
            &&& holds("falling"@, value, a, b) <==> l < p
        }),
{
    lemma_operators_differ();
}

/// Without a last reading nothing holds, and without the one before it no crossing and no
/// movement does; a condition of an unknown operator never holds.
pub proof fn law_missing_readings_fail(op: Seq<char>, value: Num, last: Option<Num>, prev: Option<Num>)
    ensures
        !holds(op, value, None, prev),
        holds(op, value, last, None) ==> op == "gt"@ || op == "gte"@ || op == "lt"@ || op == "lte"@,
        holds(op, value, last, prev) ==> op == "gt"@ || op == "gte"@ || op == "lt"@ || op == "lte"@
            || op == "cross_up"@ || op == "cross_down"@ || op == "rising"@ || op == "falling"@,
{
}

proof fn lemma_operators_differ()
    ensures
        "gt"@ != "gte"@,
        "gt"@ != "lt"@,
        "gte"@ != "lt"@,
        "lt"@ != "lte"@,
        "gt"@ != "lte"@,
        "gte"@ != "lte"@,
        "cross_up"@ != "cross_down"@,
        "rising"@ != "falling"@,
        "gt"@.len() == 2,
        "gte"@.len() == 3,
        "lt"@.len() == 2,
        "lte"@.len() == 3,
        "cross_up"@.len() == 8,
        "cross_down"@.len() == 10,
        "rising"@.len() == 6,
        "falling"@.len() == 7,
{
    reveal_strlit("gt");
    reveal_strlit("gte");
    reveal_strlit("lt");
    reveal_strlit("lte");
    reveal_strlit("cross_up");
    reveal_strlit("cross_down");
    reveal_strlit("rising");
    reveal_strlit("falling");
    assert("gt"@[0] == 'g' && "gte"@[0] == 'g' && "lt"@[0] == 'l' && "lte"@[0] == 'l');
    assert("gt"@.len() == 2 && "gte"@.len() == 3 && "lt"@.len() == 2 && "lte"@.len() == 3);
    assert("cross_up"@.len() == 8 && "cross_down"@.len() == 10);
    assert("rising"@.len() == 6 && "falling"@.len() == 7);
}

/// The readout of a condition is on the bar `offset` before the end and the bar before
/// that, of the series that its source numbers, the first where it is no number.
pub proof fn law_conditions_read_their_series(c: Condition, out: Seq<Vec<Num>>, offset: int)
    requires
        offset >= 0,
    ensures
        ({
            let r = row_of(c, out, offset);
            let k = match text::nat_value(c.source@, usize::MAX as int) {
                Some(k) => k,
                None => 0,
            };
            let s = out[k]@;
            &&& r.pass == holds(c.op@, c.value, r.last, r.prev)
            &&& k >= out.len() ==> r.last is None && r.prev is None
            &&& k < out.len() && offset < s.len() ==> r.last == Some(s[s.len() - offset - 1])
            &&& k < out.len() && offset + 1 < s.len() ==> r.prev == Some(s[s.len() - offset - 2])
            &&& k < out.len() && offset >= s.len() ==> r.last is None
            &&& k < out.len() && offset + 1 >= s.len() ==> r.prev is None
        }),
{
}

/// The value of a bar that an engine executes on: the one named, with or without the
/// `candle_` before it; the close for every other name.
pub proof fn law_execution_price(b: Bar, key: Seq<char>)
    ensures
        bar_value(b, exec_on_by("open"@)) == b.open,
        bar_value(b, exec_on_by("high"@)) == b.high,
        bar_value(b, exec_on_by("low"@)) == b.low,
        bar_value(b, exec_on_by("close"@)) == b.close,
        exec_on_by("candle_"@ + "open"@) == ExecOn::Open,
        exec_on_by("candle_"@ + "high"@) == ExecOn::High,
        exec_on_by("candle_"@ + "low"@) == ExecOn::Low,
        text::after(key, "candle_"@) is None && key != "open"@ && key != "high"@ && key != "low"@
            ==> exec_on_by(key) == ExecOn::Close,
{
    reveal_strlit("open");
    reveal_strlit("high");
    reveal_strlit("low");
    reveal_strlit("close");
    reveal_strlit("candle_");
    let p = "candle_"@;
    assert(p.len() == 7);
    assert("open"@.len() == 4 && "high"@.len() == 4 && "low"@.len() == 3 && "close"@.len() == 5);
    assert("open"@[0] == 'o' && "high"@[0] == 'h');
    assert((p + "open"@).subrange(0, 7) =~= p);
    assert((p + "high"@).subrange(0, 7) =~= p);
    assert((p + "low"@).subrange(0, 7) =~= p);
    assert((p + "open"@).subrange(7, 11) =~= "open"@);
    assert((p + "high"@).subrange(7, 11) =~= "high"@);
    assert((p + "low"@).subrange(7, 10) =~= "low"@);
}

/// Repricing touches the close of one bar: the one `offset` before the end takes the named
/// value, everything else stays.
pub proof fn law_reprice_touches_one_close(bars: Seq<Bar>, offset: int, on: ExecOn, k: int)
    requires
        0 <= offset,
        0 <= k < bars.len(),
    ensures
        ({
            let r = repriced(bars, offset, on);
            &&& r.len() == bars.len()
            &&& k != bars.len() - 1 - offset ==> r[k] == bars[k]
            &&& k == bars.len() - 1 - offset ==> r[k].open == bars[k].open && r[k].high
                == bars[k].high && r[k].low == bars[k].low && r[k].close == match on {
                ExecOn::Open => bars[k].open,
                ExecOn::High => bars[k].high,
                ExecOn::Low => bars[k].low,
                ExecOn::Close => bars[k].close,
            }
        }),
{
}

/// An indicator is assigned a direction exactly where its first line has a last reading
/// and one before it, both numbers, and they differ that way.
pub proof fn law_assigned_by_movement(ids: Seq<String>, outs: Seq<Vec<Vec<Num>>>, up: bool, n: int)
    requires
        0 < n <= ids.len(),
        n <= outs.len(),
    ensures
        ({
            let lines = outs[n - 1]@;
            let s = lines[0]@;
            let a = s[s.len() - 1];
            let b = s[s.len() - 2];
            let moves = lines.len() > 0 && s.len() >= 2 && !a.nan && !b.nan && (if up {
                a.key > b.key
            } else {
                a.key < b.key
            });
            assigned(ids, outs, up, n) == assigned(ids, outs, up, n - 1) + if moves {
                seq![ids[n - 1]@]
            } else {
                Seq::empty()
            }
        }),
{
    let was = assigned(ids, outs, up, n - 1);
    assert(was + seq![ids[n - 1]@] =~= was.push(ids[n - 1]@));
    assert(was + Seq::<Seq<char>>::empty() =~= was);
}

/// The conditions hold together where each of them does; no conditions never hold.
pub proof fn law_conditions_hold_together(rows: Seq<CondRow>, row: CondRow)
    ensures
        !all_hold(Seq::empty()),
        all_hold(seq![row]) <==> row.pass,
        rows.len() > 0 ==> (all_hold(rows.push(row)) <==> all_hold(rows) && row.pass),
{
    let one = seq![row];
    assert(one[0] == row);
    let more = rows.push(row);
    assert(more[rows.len() as int] == row);
    if all_hold(more) {
        assert forall|i: int| 0 <= i < rows.len() implies (#[trigger] rows[i]).pass by {
            assert(more[i] == rows[i]);
        }
    }
    if all_hold(rows) && row.pass {
        assert forall|i: int| 0 <= i < more.len() implies (#[trigger] more[i]).pass by {
            if i < rows.len() {
                assert(more[i] == rows[i]);
            }
        }
    }
}

} // verus!
