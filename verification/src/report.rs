//! The trade report: which closed trades it covers, how they group and what is
//! counted.

use vstd::prelude::*;
use crate::clock;
use crate::clock::{day_key, ist_day_start, ist_parts, pad2, period_meta};
use crate::num::Num;
use crate::order;
use crate::text;
use crate::textmap::TextMap;

verus! {

/// What the report is asked for.
#[derive(Debug)]
pub struct StatsQuery {
    pub range: String,
    pub mode: String,
    pub scope: String,
    pub engine: String,
}

impl Default for StatsQuery {
    fn default() -> (r: Self)
        ensures
            r.range@.len() == 0,
            r.mode@.len() == 0,
            r.scope@.len() == 0,
            r.engine@.len() == 0,
    {
        proof {
            reveal_strlit("");
        }
        StatsQuery {
            range: "".to_owned(),
            mode: "".to_owned(),
            scope: "".to_owned(),
            engine: "".to_owned(),
        }
    }
}

/// A closed trade as recorded; numbers that are missing are zero, texts empty.
#[derive(Debug)]
pub struct RawTrade {
    pub closed_at: i64,
    pub at: i64,
    pub trading_symbol: String,
    pub symbol: String,
    pub security_id: i64,
    pub symbol_id: i64,
    pub side: String,
    pub reason: String,
    pub strategy_name: String,
    pub opened_at: i64,
    pub pnl: Option<Num>,
    pub net_pnl: Option<Num>,
    pub charges: Option<Num>,
}

/// A closed trade of the report.
#[derive(Debug)]
pub struct Trade {
    pub symbol: String,
    pub symbol_id: i64,
    pub side: String,
    pub pnl: Num,
    pub net: Num,
    pub charges: Num,
    pub at: i64,
    pub entry_at: i64,
    pub reason: String,
    pub strategy: String,
    /// Place among the recorded trades.
    pub row: usize,
}

/// When the trade closed; not positive where unknown.
pub open spec fn closed_time(c: RawTrade) -> int {
    if c.closed_at > 0 {
        c.closed_at as int
    } else {
        c.at as int
    }
}

/// The symbol of a trade.
pub open spec fn symbol_of(c: RawTrade) -> Seq<char> {
    if c.trading_symbol@.len() == 0 {
        c.symbol@
    } else {
        c.trading_symbol@
    }
}

/// The instrument of a trade.
pub open spec fn instrument_of(c: RawTrade) -> int {
    if c.security_id > 0 {
        c.security_id as int
    } else {
        c.symbol_id as int
    }
}

/// The trade enters the report: it closed, and names a symbol or instrument.
pub open spec fn reported(c: RawTrade) -> bool {
    closed_time(c) > 0 && (symbol_of(c).len() > 0 || instrument_of(c) > 0)
}

/// A value, else zero.
pub open spec fn or_zero(v: Option<Num>, zero: Num) -> Num {
    match v {
        Some(n) => n,
        None => zero,
    }
}

/// The net result of a trade: net of charges where they are deducted and a net
/// result is recorded, else the gross result.
pub open spec fn net_result(c: RawTrade, charges_on: bool, zero: Num) -> Num {
    if charges_on {
        or_zero(c.net_pnl, or_zero(c.pnl, zero))
    } else {
        or_zero(c.pnl, zero)
    }
}

/// The trade is the record, brought into shape.
pub open spec fn shaped(t: Trade, c: RawTrade, row: int, charges_on: bool, zero: Num) -> bool {
    &&& t.symbol@ == symbol_of(c)
    &&& t.symbol_id == instrument_of(c)
    &&& t.side@ == c.side@
    &&& t.pnl == or_zero(c.pnl, zero)
    &&& t.net == net_result(c, charges_on, zero)
    &&& t.charges == if charges_on {
        or_zero(c.charges, zero)
    } else {
        zero
    }
    &&& t.at == closed_time(c)
    &&& t.entry_at == c.opened_at
    &&& t.reason@ == if c.reason@.len() == 0 {
        "Closed"@
    } else {
        c.reason@
    }
    &&& t.strategy@ == c.strategy_name@
    &&& t.row == row
}

/// Brings a recorded trade into shape; `None` where it does not enter the
/// report.
pub fn norm(c: &RawTrade, row: usize, charges_on: bool, zero: Num) -> (r: Option<Trade>)
    ensures
        r is Some == reported(*c),
        r is Some ==> shaped(r->0, *c, row as int, charges_on, zero),
{
    let at: i64 = if c.closed_at > 0 {
        c.closed_at
    } else {
        c.at
    };
    if at <= 0 {
        return None;
    }
    let symbol = if text::chars_of(c.trading_symbol.as_str()).len() == 0 {
        c.symbol.clone()
    } else {
        c.trading_symbol.clone()
    };
    let symbol_id: i64 = if c.security_id > 0 {
        c.security_id
    } else {
        c.symbol_id
    };
    if text::chars_of(symbol.as_str()).len() == 0 && symbol_id <= 0 {
        return None;
    }
    let pnl = match c.pnl {
        Some(n) => n,
        None => zero,
    };
    let net = if charges_on {
        match c.net_pnl {
            Some(n) => n,
            None => pnl,
        }
    } else {
        pnl
    };
    let charges = if charges_on {
        match c.charges {
            Some(n) => n,
            None => zero,
        }
    } else {
        zero
    };
    let reason = if text::chars_of(c.reason.as_str()).len() == 0 {
        "Closed".to_owned()
    } else {
        c.reason.clone()
    };
    Some(
        Trade {
            symbol,
            symbol_id,
            side: c.side.clone(),
            pnl,
            net,
            charges,
            at,
            entry_at: c.opened_at,
            reason,
            strategy: c.strategy_name.clone(),
            row,
        },
    )
}

/// The rows of the records among the first `n` that enter the report.
pub open spec fn reported_rows(cs: Seq<RawTrade>, n: int) -> Seq<int>
    decreases n,
{
    if n <= 0 {
        Seq::empty()
    } else if reported(cs[n - 1]) {
        reported_rows(cs, n - 1).push(n - 1)
    } else {
        reported_rows(cs, n - 1)
    }
}

/// The trades are the reported records, in order.
pub open spec fn trades_are(
    ts: Seq<Trade>,
    cs: Seq<RawTrade>,
    charges_on: bool,
    zero: Num,
    n: int,
) -> bool {
    let rows = reported_rows(cs, n);
    &&& ts.len() == rows.len()
    &&& forall|i: int|
        0 <= i < ts.len() ==> shaped(#[trigger] ts[i], cs[rows[i]], rows[i], charges_on, zero)
}

fn norm_all(cs: &Vec<RawTrade>, charges_on: bool, zero: Num) -> (r: Vec<Trade>)
    ensures
        trades_are(r@, cs@, charges_on, zero, cs@.len() as int),
{
    let mut out: Vec<Trade> = Vec::new();
    let mut i: usize = 0;
    while i < cs.len()
        invariant
            i <= cs.len(),
            trades_are(out@, cs@, charges_on, zero, i as int),
        decreases cs.len() - i,
    {
        if let Some(t) = norm(&cs[i], i, charges_on, zero) {
            out.push(t);
        }
        i += 1;
    }
    out
}

/// A strategy name, in lower case, of the filter mode.
pub open spec fn filter_name(lower: Seq<char>) -> bool {
    text::begins(lower, "indicator filter"@)
}

/// Whether a strategy name, given in lower case, is that of the filter mode.
pub fn is_filter_lower(lower: &str) -> (r: bool)
    ensures
        r == filter_name(lower@),
{
    text::starts_with(lower, "indicator filter")
}

/// Whether a trade was taken in filter mode.
pub fn is_filter(t: &Trade) -> (r: bool)
    ensures
        r == filter_name(text::lower_text(t.strategy@)),
{
    let l = text::lowercase(t.strategy.as_str());
    is_filter_lower(l.as_str())
}

/// The trade belongs to the mode.
pub open spec fn in_mode(t: Trade, mode: Seq<char>) -> bool {
    if mode == "filter"@ {
        filter_name(text::lower_text(t.strategy@))
    } else if mode == "strategy"@ {
        !filter_name(text::lower_text(t.strategy@))
    } else {
        true
    }
}

/// Whether a trade belongs to the mode.
pub fn mode_ok(t: &Trade, mode: &str) -> (r: bool)
    ensures
        r == in_mode(*t, mode@),
{
    if text::same(mode, "filter") {
        is_filter(t)
    } else if text::same(mode, "strategy") {
        !is_filter(t)
    } else {
        true
    }
}

/// The places in the list of trades.
pub open spec fn within(at: Seq<usize>, n: int) -> bool {
    forall|i: int| 0 <= i < at.len() ==> #[trigger] at[i] < n
}

/// The places whose trade belongs to the mode, in order.
pub open spec fn mode_places(ts: Seq<Trade>, at: Seq<usize>, mode: Seq<char>) -> Seq<usize>
    decreases at.len(),
{
    if at.len() == 0 {
        at
    } else if in_mode(ts[at.last() as int], mode) {
        mode_places(ts, at.drop_last(), mode).push(at.last())
    } else {
        mode_places(ts, at.drop_last(), mode)
    }
}

fn places_in_mode(ts: &Vec<Trade>, at: &Vec<usize>, mode: &str) -> (r: Vec<usize>)
    requires
        within(at@, ts@.len() as int),
    ensures
        r@ == mode_places(ts@, at@, mode@),
        within(r@, ts@.len() as int),
        r@.len() <= at@.len(),
{
    let mut out: Vec<usize> = Vec::new();
    let mut i: usize = 0;
    assert(at@.take(0) =~= Seq::<usize>::empty());
    while i < at.len()
        invariant
            i <= at.len(),
            within(at@, ts@.len() as int),
            out@ == mode_places(ts@, at@.take(i as int), mode@),
            within(out@, ts@.len() as int),
            out@.len() <= i,
        decreases at.len() - i,
    {
        proof {
            assert(at@.take(i + 1).drop_last() =~= at@.take(i as int));
            assert(at@.take(i + 1).last() == at@[i as int]);
        }
        assert(at@[i as int] < ts@.len());
        if mode_ok(&ts[at[i]], mode) {
            out.push(at[i]);
        }
        i += 1;
    }
    assert(at@.take(i as int) =~= at@);
    out
}

/// The places whose trade closed at `from` or later, in order.
pub open spec fn since(ts: Seq<Trade>, at: Seq<usize>, from: int) -> Seq<usize>
    decreases at.len(),
{
    if at.len() == 0 {
        at
    } else if ts[at.last() as int].at >= from {
        since(ts, at.drop_last(), from).push(at.last())
    } else {
        since(ts, at.drop_last(), from)
    }
}

fn places_since(ts: &Vec<Trade>, at: &Vec<usize>, from: i64) -> (r: Vec<usize>)
    requires
        within(at@, ts@.len() as int),
    ensures
        r@ == since(ts@, at@, from as int),
        within(r@, ts@.len() as int),
        r@.len() <= at@.len(),
{
    let mut out: Vec<usize> = Vec::new();
    let mut i: usize = 0;
    assert(at@.take(0) =~= Seq::<usize>::empty());
    while i < at.len()
        invariant
            i <= at.len(),
            within(at@, ts@.len() as int),
            out@ == since(ts@, at@.take(i as int), from as int),
            within(out@, ts@.len() as int),
            out@.len() <= i,
        decreases at.len() - i,
    {
        proof {
            assert(at@.take(i + 1).drop_last() =~= at@.take(i as int));
            assert(at@.take(i + 1).last() == at@[i as int]);
        }
        assert(at@[i as int] < ts@.len());
        if ts[at[i]].at >= from {
            out.push(at[i]);
        }
        i += 1;
    }
    assert(at@.take(i as int) =~= at@);
    out
}

/// A later window holds no trade that an earlier one does not.
pub proof fn law_windows_nest(ts: Seq<Trade>, at: Seq<usize>, early: int, late: int)
    requires
        early <= late,
    ensures
        since(ts, at, late).len() <= since(ts, at, early).len(),
        since(ts, since(ts, at, early), late) == since(ts, at, late),
    decreases at.len(),
{
    if at.len() > 0 {
        law_windows_nest(ts, at.drop_last(), early, late);
        let e = since(ts, at.drop_last(), early);
        if ts[at.last() as int].at >= early {
            assert(e.push(at.last()).drop_last() =~= e);
        }
    }
}

/// Counts over some trades in order. A trade that broke even counts as a loss.
#[derive(Clone, Copy, Debug, PartialEq, Eq, Structural)]
pub struct Counts {
    pub n: usize,
    pub wins: usize,
    pub losses: usize,
    pub streak: usize,
    pub lose_streak: usize,
    pub max_streak: usize,
    pub max_lose_streak: usize,
    /// The place of the best winner.
    pub best: Option<usize>,
    /// The place of the worst loser.
    pub worst: Option<usize>,
}

/// The greater of two numbers.
pub open spec fn max_of(a: int, b: int) -> int {
    if a >= b {
        a
    } else {
        b
    }
}

/// The counts after some trades.
pub open spec fn counted(ts: Seq<Trade>, at: Seq<usize>) -> Counts
    decreases at.len(),
{
    if at.len() == 0 {
        Counts {
            n: 0,
            wins: 0,
            losses: 0,
            streak: 0,
            lose_streak: 0,
            max_streak: 0,
            max_lose_streak: 0,
            best: None,
            worst: None,
        }
    } else {
        let b = counted(ts, at.drop_last());
        let p = at.last();
        let net = ts[p as int].net;
        if net.positive() {
            Counts {
                n: (b.n + 1) as usize,
                wins: (b.wins + 1) as usize,
                losses: b.losses,
                streak: (b.streak + 1) as usize,
                lose_streak: 0,
                max_streak: max_of(b.max_streak as int, b.streak + 1) as usize,
                max_lose_streak: b.max_lose_streak,
                best: if b.best is Some && ts[b.best->0 as int].net.not_below(net) {
                    b.best
                } else {
                    Some(p)
                },
                worst: b.worst,
            }
        } else {
            Counts {
                n: (b.n + 1) as usize,
                wins: b.wins,
                losses: (b.losses + 1) as usize,
                streak: 0,
                lose_streak: (b.lose_streak + 1) as usize,
                max_streak: b.max_streak,
                max_lose_streak: max_of(b.max_lose_streak as int, b.lose_streak + 1) as usize,
                best: b.best,
                worst: if b.worst is Some && net.not_below(ts[b.worst->0 as int].net) {
                    b.worst
                } else {
                    Some(p)
                },
            }
        }
    }
}

/// Counts some trades in order.
pub fn stats_of(ts: &Vec<Trade>, at: &Vec<usize>) -> (r: Counts)
    requires
        within(at@, ts@.len() as int),
    ensures
        r == counted(ts@, at@),
        r.n == at@.len(),
        r.wins + r.losses == r.n,
{
    let mut c = Counts {
        n: 0,
        wins: 0,
        losses: 0,
        streak: 0,
        lose_streak: 0,
        max_streak: 0,
        max_lose_streak: 0,
        best: None,
        worst: None,
    };
    let mut i: usize = 0;
    assert(at@.take(0) =~= Seq::<usize>::empty());
    while i < at.len()
        invariant
            i <= at.len(),
            within(at@, ts@.len() as int),
            c == counted(ts@, at@.take(i as int)),
            c.n == i,
            c.wins + c.losses == i,
            c.streak <= i,
            c.lose_streak <= i,
            c.max_streak <= i,
            c.max_lose_streak <= i,
            c.best is Some ==> c.best->0 < ts@.len(),
            c.worst is Some ==> c.worst->0 < ts@.len(),
        decreases at.len() - i,
    {
        proof {
            assert(at@.take(i + 1).drop_last() =~= at@.take(i as int));
            assert(at@.take(i + 1).last() == at@[i as int]);
        }
        assert(at@[i as int] < ts@.len());
        let p: usize = at[i];
        let net = ts[p].net;
        if net.is_positive() {
            let streak: usize = c.streak + 1;
            let keep = match c.best {
                Some(b) => ts[b].net.ge(&net),
                None => false,
            };
            c = Counts {
                n: c.n + 1,
                wins: c.wins + 1,
                losses: c.losses,
                streak,
                lose_streak: 0,
                max_streak: if c.max_streak >= streak {
                    c.max_streak
                } else {
                    streak
                },
                max_lose_streak: c.max_lose_streak,
                best: if keep {
                    c.best
                } else {
                    Some(p)
                },
                worst: c.worst,
            };
        } else {
            let streak: usize = c.lose_streak + 1;
            let keep = match c.worst {
                Some(w) => ts[w].net.le(&net),
                None => false,
            };
            c = Counts {
                n: c.n + 1,
                wins: c.wins,
                losses: c.losses + 1,
                streak: 0,
                lose_streak: streak,
                max_streak: c.max_streak,
                max_lose_streak: if c.max_lose_streak >= streak {
                    c.max_lose_streak
                } else {
                    streak
                },
                best: c.best,
                worst: if keep {
                    c.worst
                } else {
                    Some(p)
                },
            };
        }
        i += 1;
    }
    assert(at@.take(i as int) =~= at@);
    c
}

/// The trades from `i` up to `j` all won, or all lost.
pub open spec fn run_of(ts: Seq<Trade>, at: Seq<usize>, won: bool, i: int, j: int) -> bool {
    forall|k: int| i <= k < j ==> ts[(#[trigger] at[k]) as int].net.positive() == won
}

/// `n` is the length of the longest run of winners, or of losers.
pub open spec fn longest_run(ts: Seq<Trade>, at: Seq<usize>, won: bool, n: int) -> bool {
    &&& exists|i: int, j: int|
        0 <= i <= j <= at.len() && j - i == n && #[trigger] run_of(ts, at, won, i, j)
    &&& forall|i: int, j: int|
        0 <= i <= j <= at.len() && #[trigger] run_of(ts, at, won, i, j) ==> j - i <= n
}

/// `n` is the length of the run of winners, or of losers, that the trades end with.
pub open spec fn last_run(ts: Seq<Trade>, at: Seq<usize>, won: bool, n: int) -> bool {
    &&& 0 <= n <= at.len()
    &&& run_of(ts, at, won, at.len() - n, at.len() as int)
    &&& n < at.len() ==> ts[at[at.len() - n - 1] as int].net.positive() != won
}

/// A run after one more trade.
proof fn lemma_runs(ts: Seq<Trade>, at: Seq<usize>, won: bool, last: int, longest: int)
    requires
        at.len() > 0,
        last_run(ts, at.drop_last(), won, last),
        longest_run(ts, at.drop_last(), won, longest),
    ensures
        ({
            let one = ts[at.last() as int].net.positive() == won;
            let now = if one {
                last + 1
            } else {
                0
            };
            last_run(ts, at, won, now) && longest_run(ts, at, won, max_of(longest, now))
        }),
{
    let init = at.drop_last();
    let n = init.len() as int;
    let one = ts[at.last() as int].net.positive() == won;
    let now = if one {
        last + 1
    } else {
        0
    };
    assert forall|k: int| 0 <= k < n implies #[trigger] init[k] == at[k] by {}
    assert(at[n] == at.last());
    assert(last_run(ts, at, won, now)) by {
        assert forall|k: int| at.len() - now <= k < at.len() implies ts[(
        #[trigger] at[k]) as int].net.positive() == won by {
            if k < n {
                assert(init[k] == at[k]);
            }
        }
        if one && now < at.len() {
            assert(init[n - last - 1] == at[n - last - 1]);
        }
    }
    let top = max_of(longest, now);
    assert(exists|i: int, j: int|
        0 <= i <= j <= at.len() && j - i == top && #[trigger] run_of(ts, at, won, i, j)) by {
        if longest >= now {
            let (i, j) = choose|i: int, j: int|
                0 <= i <= j <= init.len() && j - i == longest && #[trigger] run_of(
                    ts,
                    init,
                    won,
                    i,
                    j,
                );
            assert forall|k: int| i <= k < j implies ts[(#[trigger] at[k]) as int].net.positive()
                == won by {
                assert(init[k] == at[k]);
            }
            assert(run_of(ts, at, won, i, j));
        } else {
            assert(run_of(ts, at, won, at.len() - now, at.len() as int));
        }
    }
    assert forall|i: int, j: int|
        0 <= i <= j <= at.len() && #[trigger] run_of(ts, at, won, i, j) implies j - i <= top by {
        if j <= n {
            assert forall|k: int| i <= k < j implies ts[(#[trigger] init[k]) as int].net.positive()
                == won by {
                assert(init[k] == at[k]);
            }
            assert(run_of(ts, init, won, i, j));
        } else if i < j {
            assert(at[n] == at.last());
            if j - i > now {
                let k = at.len() - now - 1;
                assert(ts[at[k] as int].net.positive() != won);
            }
        }
    }
}

proof fn lemma_streaks(ts: Seq<Trade>, at: Seq<usize>)
    requires
        at.len() <= usize::MAX,
    ensures
        counted(ts, at).n == at.len(),
        last_run(ts, at, true, counted(ts, at).streak as int),
        last_run(ts, at, false, counted(ts, at).lose_streak as int),
        longest_run(ts, at, true, counted(ts, at).max_streak as int),
        longest_run(ts, at, false, counted(ts, at).max_lose_streak as int),
        counted(ts, at).max_streak <= at.len(),
        counted(ts, at).max_lose_streak <= at.len(),
        counted(ts, at).wins + counted(ts, at).losses == at.len(),
    decreases at.len(),
{
    if at.len() == 0 {
        assert(run_of(ts, at, true, 0, 0));
        assert(run_of(ts, at, false, 0, 0));
    } else {
        let b = counted(ts, at.drop_last());
        lemma_streaks(ts, at.drop_last());
        lemma_runs(ts, at, true, b.streak as int, b.max_streak as int);
        lemma_runs(ts, at, false, b.lose_streak as int, b.max_lose_streak as int);
    }
}

/// The longest streaks are the longest runs of trades, one after the other, that
/// all won, or all lost.
pub proof fn law_streaks_are_longest_runs(ts: Seq<Trade>, at: Seq<usize>)
    requires
        at.len() <= usize::MAX,
    ensures
        longest_run(ts, at, true, counted(ts, at).max_streak as int),
        longest_run(ts, at, false, counted(ts, at).max_lose_streak as int),
{
    lemma_streaks(ts, at);
}

/// The best trade is a winner that no winner beats; there is one exactly where
/// some trade won.
pub open spec fn is_best(ts: Seq<Trade>, at: Seq<usize>, best: Option<usize>) -> bool {
    match best {
        Some(p) => at.contains(p) && ts[p as int].net.positive() && forall|i: int|
            0 <= i < at.len() && ts[(#[trigger] at[i]) as int].net.positive()
                ==> ts[p as int].net.not_below(ts[at[i] as int].net),
        None => forall|i: int|
            0 <= i < at.len() ==> !ts[(#[trigger] at[i]) as int].net.positive(),
    }
}

/// The worst trade is a loser that lost no less than any other; there is one
/// exactly where some trade did not win.
pub open spec fn is_worst(ts: Seq<Trade>, at: Seq<usize>, worst: Option<usize>) -> bool {
    match worst {
        Some(p) => at.contains(p) && !ts[p as int].net.positive() && forall|i: int|
            0 <= i < at.len() && !ts[(#[trigger] at[i]) as int].net.positive()
                ==> ts[at[i] as int].net.not_below(ts[p as int].net),
        None => forall|i: int|
            0 <= i < at.len() ==> ts[(#[trigger] at[i]) as int].net.positive(),
    }
}

/// The best trade is the best of the winners.
pub proof fn law_best_is_best(ts: Seq<Trade>, at: Seq<usize>)
    ensures
        is_best(ts, at, counted(ts, at).best),
    decreases at.len(),
{
    if at.len() > 0 {
        let init = at.drop_last();
        law_best_is_best(ts, init);
        assert forall|k: int| 0 <= k < init.len() implies #[trigger] init[k] == at[k] by {}
        assert(at[at.len() - 1] == at.last());
        let b = counted(ts, init).best;
        if b is Some {
            let k = choose|k: int| 0 <= k < init.len() && init[k] == b->0;
            assert(at[k] == b->0);
        }
        assert forall|i: int| 0 <= i < init.len() implies init.contains(#[trigger] at[i]) by {
            assert(init[i] == at[i]);
        }
    }
}

/// The worst trade is the worst of the losers, where every result is a number.
pub proof fn law_worst_is_worst(ts: Seq<Trade>, at: Seq<usize>)
    requires
        forall|i: int| 0 <= i < at.len() ==> !ts[(#[trigger] at[i]) as int].net.nan,
    ensures
        is_worst(ts, at, counted(ts, at).worst),
    decreases at.len(),
{
    if at.len() > 0 {
        let init = at.drop_last();
        assert forall|k: int| 0 <= k < init.len() implies #[trigger] init[k] == at[k] by {}
        law_worst_is_worst(ts, init);
        assert(at[at.len() - 1] == at.last());
        let b = counted(ts, init).worst;
        if b is Some {
            let k = choose|k: int| 0 <= k < init.len() && init[k] == b->0;
            assert(at[k] == b->0);
        }
        assert forall|i: int| 0 <= i < init.len() implies init.contains(#[trigger] at[i]) by {
            assert(init[i] == at[i]);
        }
    }
}

/// The trades drawn on the equity curve: every step-th one and the last, some
/// four hundred of them.
pub open spec fn drawn(i: int, n: int) -> bool {
    let step = if n / 400 < 1 {
        1
    } else {
        n / 400
    };
    i % step == 0 || i == n - 1
}

/// The places of the list drawn on the equity curve, before `k`.
pub open spec fn drawn_places(n: int, k: int) -> Seq<usize>
    decreases k,
{
    if k <= 0 {
        Seq::empty()
    } else if drawn(k - 1, n) {
        drawn_places(n, k - 1).push((k - 1) as usize)
    } else {
        drawn_places(n, k - 1)
    }
}

/// The places drawn on the equity curve of `n` trades.
pub fn equity_places(n: usize) -> (r: Vec<usize>)
    ensures
        r@ == drawn_places(n as int, n as int),
{
    let step: usize = if n / 400 < 1 {
        1
    } else {
        n / 400
    };
    let mut out: Vec<usize> = Vec::new();
    let mut i: usize = 0;
    while i < n
        invariant
            i <= n,
            step >= 1,
            step == (if n as int / 400 < 1 {
                1
            } else {
                n as int / 400
            }),
            out@ == drawn_places(n as int, i as int),
        decreases n - i,
    {
        if i % step == 0 || i == n - 1 {
            out.push(i);
        }
        i += 1;
    }
    out
}

/// The first and the last trade are always drawn.
pub proof fn law_curve_keeps_ends(n: int)
    requires
        n > 0,
    ensures
        drawn(0, n),
        drawn(n - 1, n),
{
}

/// The places, of a list of keys, with a key.
pub open spec fn with_key(keys: Seq<i64>, k: i64, n: int) -> Seq<usize>
    decreases n,
{
    if n <= 0 {
        Seq::empty()
    } else if keys[n - 1] == k {
        with_key(keys, k, n - 1).push((n - 1) as usize)
    } else {
        with_key(keys, k, n - 1)
    }
}

/// Places grouped by key.
#[derive(Debug)]
pub struct Group {
    pub key: i64,
    pub places: Vec<usize>,
}

/// The groups of some keys: one for every key, rising, with its places in order.
pub open spec fn groups_are(gs: Seq<Group>, keys: Seq<i64>) -> bool {
    &&& forall|i: int, j: int| 0 <= i < j < gs.len() ==> (#[trigger] gs[i]).key < (#[trigger] gs[j]).key
    &&& forall|i: int|
        0 <= i < gs.len() ==> keys.contains((#[trigger] gs[i]).key) && gs[i].places@ == with_key(
            keys,
            gs[i].key,
            keys.len() as int,
        )
    &&& forall|k: i64| #[trigger] keys.contains(k) ==> exists|i: int|
        0 <= i < gs.len() && (#[trigger] gs[i]).key == k
}

fn places_with(keys: &Vec<i64>, k: i64) -> (r: Vec<usize>)
    ensures
        r@ == with_key(keys@, k, keys@.len() as int),
{
    let mut out: Vec<usize> = Vec::new();
    let mut i: usize = 0;
    while i < keys.len()
        invariant
            i <= keys.len(),
            out@ == with_key(keys@, k, i as int),
        decreases keys.len() - i,
    {
        if keys[i] == k {
            out.push(i);
        }
        i += 1;
    }
    out
}

/// Groups places by their key, keys rising.
pub fn bucket_by(keys: &Vec<i64>) -> (r: Vec<Group>)
    ensures
        groups_are(r@, keys@),
{
    let mut distinct: Vec<i64> = Vec::new();
    let mut i: usize = 0;
    assert(keys@.take(0) =~= Seq::<i64>::empty());
    while i < keys.len()
        invariant
            i <= keys.len(),
            forall|a: int, b: int|
                0 <= a < b < distinct@.len() ==> #[trigger] distinct@[a] < #[trigger] distinct@[b],
            forall|k: i64| #[trigger]
                distinct@.contains(k) == keys@.take(i as int).contains(k),
        decreases keys.len() - i,
    {
        let ghost before = keys@.take(i as int);
        let ghost now = keys@.take(i + 1);
        crate::master::insert_rising(&mut distinct, keys[i]);
        proof {
            assert(now =~= before.push(keys@[i as int]));
            assert forall|k: i64| #[trigger] distinct@.contains(k) == now.contains(k) by {
                if before.contains(k) {
                    let a = choose|a: int| 0 <= a < before.len() && before[a] == k;
                    assert(now[a] == k);
                }
                assert(now[i as int] == keys@[i as int]);
                if now.contains(k) {
                    let a = choose|a: int| 0 <= a < now.len() && now[a] == k;
                    if a < i {
                        assert(before[a] == k);
                    }
                }
            }
        }
        i += 1;
    }
    assert(keys@.take(i as int) =~= keys@);
    let mut out: Vec<Group> = Vec::new();
    let mut j: usize = 0;
    while j < distinct.len()
        invariant
            j <= distinct.len(),
            out@.len() == j,
            forall|a: int|
                0 <= a < j ==> (#[trigger] out@[a]).key == distinct@[a] && out@[a].places@ == with_key(
                    keys@,
                    distinct@[a],
                    keys@.len() as int,
                ),
        decreases distinct.len() - j,
    {
        out.push(Group { key: distinct[j], places: places_with(keys, distinct[j]) });
        j += 1;
    }
    proof {
        assert forall|a: int, b: int| 0 <= a < b < out@.len() implies (#[trigger] out@[a]).key < (
        #[trigger] out@[b]).key by {
            assert(distinct@[a] < distinct@[b]);
        }
        assert forall|a: int| 0 <= a < out@.len() implies keys@.contains((#[trigger] out@[a]).key)
            && out@[a].places@ == with_key(keys@, out@[a].key, keys@.len() as int) by {
            assert(distinct@.contains(distinct@[a]));
        }
        assert forall|k: i64| #[trigger] keys@.contains(k) implies exists|a: int|
            0 <= a < out@.len() && (#[trigger] out@[a]).key == k by {
            assert(distinct@.contains(k));
            let a = choose|a: int| 0 <= a < distinct@.len() && distinct@[a] == k;
            assert(out@[a].key == k);
        }
    }
    out
}

proof fn lemma_with_key_len(keys: Seq<i64>, k: i64, n: int)
    requires
        0 <= n <= keys.len(),
    ensures
        with_key(keys, k, n).len() > 0 <==> keys.take(n).contains(k),
    decreases n,
{
    if n > 0 {
        lemma_with_key_len(keys, k, n - 1);
        let a = keys.take(n - 1);
        let b = keys.take(n);
        assert(b[n - 1] == keys[n - 1]);
        if a.contains(k) {
            let i = choose|i: int| 0 <= i < a.len() && a[i] == k;
            assert(b[i] == k);
        }
        if b.contains(k) {
            let i = choose|i: int| 0 <= i < b.len() && b[i] == k;
            if i < n - 1 {
                assert(a[i] == k);
            }
        }
    }
}

/// No group is empty.
pub proof fn law_groups_are_filled(gs: Seq<Group>, keys: Seq<i64>, i: int)
    requires
        groups_are(gs, keys),
        0 <= i < gs.len(),
    ensures
        gs[i].places@.len() > 0,
{
    assert(keys.contains(gs[i].key));
    lemma_with_key_len(keys, gs[i].key, keys.len() as int);
    assert(keys.take(keys.len() as int) =~= keys);
}

/// The places, of a list of names, with a name.
pub open spec fn with_name(names: Seq<Seq<char>>, k: Seq<char>, n: int) -> Seq<usize>
    decreases n,
{
    if n <= 0 {
        Seq::empty()
    } else if names[n - 1] == k {
        with_name(names, k, n - 1).push((n - 1) as usize)
    } else {
        with_name(names, k, n - 1)
    }
}

/// Places grouped by name, names in dictionary order.
pub fn group_by_name(names: &Vec<String>) -> (r: TextMap<Vec<usize>>)
    ensures
        forall|k: Seq<char>| #![trigger r@.contains_key(k)]
            r@.contains_key(k) == text::views(names@).contains(k) && (r@.contains_key(k)
                ==> r@[k]@ == with_name(text::views(names@), k, names@.len() as int)),
{
    let mut out: TextMap<Vec<usize>> = TextMap::new();
    let ghost nv = text::views(names@);
    let mut i: usize = 0;
    assert(nv.take(0) =~= Seq::<Seq<char>>::empty());
    while i < names.len()
        invariant
            i <= names.len(),
            nv == text::views(names@),
            forall|k: Seq<char>| #![trigger out@.contains_key(k)]
                out@.contains_key(k) == nv.take(i as int).contains(k) && (out@.contains_key(k)
                    ==> out@[k]@ == with_name(nv, k, names@.len() as int)),
        decreases names.len() - i,
    {
        let ghost before = nv.take(i as int);
        let ghost now = nv.take(i + 1);
        let ghost was = out@;
        if !out.contains_key(names[i].as_str()) {
            let list = places_named(names, names[i].as_str());
            out.insert(names[i].clone(), list);
        }
        proof {
            assert(now =~= before.push(nv[i as int]));
            assert(now[i as int] == names@[i as int]@);
            assert forall|k: Seq<char>| #![trigger out@.contains_key(k)]
                out@.contains_key(k) == now.contains(k) && (out@.contains_key(k) ==> out@[k]@
                    == with_name(nv, k, names@.len() as int)) by {
                assert(was.contains_key(k) == before.contains(k));
                if before.contains(k) {
                    let a = choose|a: int| 0 <= a < before.len() && before[a] == k;
                    assert(now[a] == k);
                }
                if now.contains(k) {
                    let a = choose|a: int| 0 <= a < now.len() && now[a] == k;
                    if a < i {
                        assert(before[a] == k);
                    }
                }
            }
        }
        i += 1;
    }
    assert(nv.take(i as int) =~= nv);
    out
}

fn places_named(names: &Vec<String>, k: &str) -> (r: Vec<usize>)
    ensures
        r@ == with_name(text::views(names@), k@, names@.len() as int),
{
    let mut out: Vec<usize> = Vec::new();
    let mut i: usize = 0;
    while i < names.len()
        invariant
            i <= names.len(),
            out@ == with_name(text::views(names@), k@, i as int),
        decreases names.len() - i,
    {
        assert(text::views(names@)[i as int] == names@[i as int]@);
        if text::same(names[i].as_str(), k) {
            out.push(i);
        }
        i += 1;
    }
    out
}

/// Every trade opened and closed at a time that civil time can be worked out for.
pub open spec fn timed(ts: Seq<Trade>) -> bool {
    forall|i: int|
        0 <= i < ts.len() ==> clock::sane((#[trigger] ts[i]).at as int) && clock::sane(
            ts[i].entry_at as int,
        )
}

/// The name a trade is listed under.
pub open spec fn listed_name(t: Trade) -> Seq<char> {
    if t.strategy@.len() == 0 {
        "Strategy"@
    } else {
        t.strategy@
    }
}

/// The names of the trades at the places.
pub open spec fn names_at(ts: Seq<Trade>, at: Seq<usize>) -> Seq<Seq<char>> {
    Seq::new(at.len(), |i: int| listed_name(ts[at[i] as int]))
}

fn names_of(ts: &Vec<Trade>, at: &Vec<usize>) -> (r: Vec<String>)
    requires
        within(at@, ts@.len() as int),
    ensures
        text::views(r@) == names_at(ts@, at@),
{
    let mut out: Vec<String> = Vec::new();
    let mut i: usize = 0;
    while i < at.len()
        invariant
            i <= at.len(),
            within(at@, ts@.len() as int),
            out@.len() == i,
            forall|k: int| 0 <= k < i ==> (#[trigger] out@[k])@ == listed_name(ts@[at@[k] as int]),
        decreases at.len() - i,
    {
        assert(at@[i as int] < ts@.len());
        let t = &ts[at[i]];
        if text::chars_of(t.strategy.as_str()).len() == 0 {
            out.push("Strategy".to_owned());
        } else {
            out.push(t.strategy.clone());
        }
        i += 1;
    }
    assert(text::views(out@) =~= names_at(ts@, at@));
    out
}

/// The trades of the period, grouped by strategy. The places of a group point
/// into the list of places.
pub fn strategy_groups(ts: &Vec<Trade>, at: &Vec<usize>) -> (r: TextMap<Vec<usize>>)
    requires
        within(at@, ts@.len() as int),
    ensures
        forall|k: Seq<char>| #![trigger r@.contains_key(k)]
            r@.contains_key(k) == names_at(ts@, at@).contains(k) && (r@.contains_key(k)
                ==> r@[k]@ == with_name(names_at(ts@, at@), k, at@.len() as int)),
{
    let names = names_of(ts, at);
    assert(text::views(names@).len() == names@.len());
    group_by_name(&names)
}

/// What a group of trades counts. A trade that broke even counts as a loss.
#[derive(Clone, Copy, Debug, PartialEq, Eq, Structural)]
pub struct Tally {
    pub count: usize,
    pub wins: usize,
    pub losses: usize,
    /// The latest closing time; zero where there is none.
    pub last: i64,
}

/// How many of the trades at the places of a group won.
pub open spec fn wins_at(ts: Seq<Trade>, at: Seq<usize>, group: Seq<usize>) -> nat
    decreases group.len(),
{
    if group.len() == 0 {
        0
    } else {
        wins_at(ts, at, group.drop_last()) + (if ts[at[group.last() as int] as int].net.positive() {
            1nat
        } else {
            0nat
        })
    }
}

/// The latest closing time of the trades at the places of a group.
pub open spec fn latest_at(ts: Seq<Trade>, at: Seq<usize>, group: Seq<usize>) -> int
    decreases group.len(),
{
    if group.len() == 0 {
        0
    } else {
        max_of(latest_at(ts, at, group.drop_last()), ts[at[group.last() as int] as int].at as int)
    }
}

/// The tally is that of a group; its places point into the list of places.
pub open spec fn tallies(t: Tally, ts: Seq<Trade>, at: Seq<usize>, group: Seq<usize>) -> bool {
    &&& t.count == group.len()
    &&& t.wins == wins_at(ts, at, group)
    &&& t.losses == group.len() - wins_at(ts, at, group)
    &&& t.last == latest_at(ts, at, group)
}

/// Counts the trades of a group; its places point into the list of places.
pub fn tally(ts: &Vec<Trade>, at: &Vec<usize>, group: &Vec<usize>) -> (r: Tally)
    requires
        within(at@, ts@.len() as int),
        within(group@, at@.len() as int),
    ensures
        tallies(r, ts@, at@, group@),
{
    let mut wins: usize = 0;
    let mut last: i64 = 0;
    let mut i: usize = 0;
    assert(group@.take(0) =~= Seq::<usize>::empty());
    while i < group.len()
        invariant
            i <= group.len(),
            within(at@, ts@.len() as int),
            within(group@, at@.len() as int),
            wins <= i,
            wins == wins_at(ts@, at@, group@.take(i as int)),
            last == latest_at(ts@, at@, group@.take(i as int)),
        decreases group.len() - i,
    {
        proof {
            assert(group@.take(i + 1).drop_last() =~= group@.take(i as int));
            assert(group@.take(i + 1).last() == group@[i as int]);
            assert(group@[i as int] < at@.len());
            assert(at@[group@[i as int] as int] < ts@.len());
        }
        let t = &ts[at[group[i]]];
        if t.net.is_positive() {
            wins += 1;
        }
        if t.at > last {
            last = t.at;
        }
        i += 1;
    }
    assert(group@.take(i as int) =~= group@);
    Tally { count: group.len(), wins, losses: group.len() - wins, last }
}

proof fn lemma_key_places(keys: Seq<i64>, k: i64, n: int)
    requires
        0 <= n <= keys.len() <= usize::MAX,
    ensures
        within(with_key(keys, k, n), n),
    decreases n,
{
    if n > 0 {
        lemma_key_places(keys, k, n - 1);
    }
}

proof fn lemma_name_places(names: Seq<Seq<char>>, k: Seq<char>, n: int)
    requires
        0 <= n <= names.len() <= usize::MAX,
    ensures
        within(with_name(names, k, n), n),
    decreases n,
{
    if n > 0 {
        lemma_name_places(names, k, n - 1);
    }
}

/// The tallies are those of the groups, one each.
pub open spec fn tallies_are(
    v: Seq<Tally>,
    ts: Seq<Trade>,
    at: Seq<usize>,
    gs: Seq<Group>,
) -> bool {
    v.len() == gs.len() && forall|i: int|
        0 <= i < v.len() ==> tallies(#[trigger] v[i], ts, at, gs[i].places@)
}

/// Counts the trades of every group of keys.
pub fn tally_groups(ts: &Vec<Trade>, at: &Vec<usize>, gs: &Vec<Group>) -> (r: Vec<Tally>)
    requires
        within(at@, ts@.len() as int),
        forall|i: int| 0 <= i < gs@.len() ==> within((#[trigger] gs@[i]).places@, at@.len() as int),
    ensures
        tallies_are(r@, ts@, at@, gs@),
{
    let mut out: Vec<Tally> = Vec::new();
    let mut i: usize = 0;
    while i < gs.len()
        invariant
            i <= gs.len(),
            within(at@, ts@.len() as int),
            forall|k: int|
                0 <= k < gs@.len() ==> within((#[trigger] gs@[k]).places@, at@.len() as int),
            out@.len() == i,
            forall|k: int|
                0 <= k < i ==> tallies(#[trigger] out@[k], ts@, at@, gs@[k].places@),
        decreases gs.len() - i,
    {
        assert(within(gs@[i as int].places@, at@.len() as int));
        out.push(tally(ts, at, &gs[i].places));
        i += 1;
    }
    out
}

/// The tallies are those of the named groups, one each.
pub open spec fn named_tallies(
    m: Map<Seq<char>, Tally>,
    ts: Seq<Trade>,
    at: Seq<usize>,
    gs: Map<Seq<char>, Vec<usize>>,
) -> bool {
    forall|k: Seq<char>| #![trigger m.contains_key(k)]
        m.contains_key(k) == gs.contains_key(k) && (m.contains_key(k) ==> tallies(
            m[k],
            ts,
            at,
            gs[k]@,
        ))
}

/// Counts the trades of every named group.
pub fn tally_names(ts: &Vec<Trade>, at: &Vec<usize>, gs: &TextMap<Vec<usize>>) -> (r: TextMap<
    Tally,
>)
    requires
        within(at@, ts@.len() as int),
        forall|k: Seq<char>| #[trigger] gs@.contains_key(k) ==> within(gs@[k]@, at@.len() as int),
    ensures
        named_tallies(r@, ts@, at@, gs@),
{
    let names = gs.keys();
    let mut out: TextMap<Tally> = TextMap::new();
    let ghost nv = text::views(names@);
    let mut i: usize = 0;
    assert(nv.take(0) =~= Seq::<Seq<char>>::empty());
    while i < names.len()
        invariant
            i <= names.len(),
            nv == text::views(names@),
            within(at@, ts@.len() as int),
            forall|k: Seq<char>| #[trigger]
                gs@.contains_key(k) ==> within(gs@[k]@, at@.len() as int),
            forall|k: Seq<char>| #[trigger] nv.contains(k) == gs@.contains_key(k),
            forall|k: Seq<char>| #![trigger out@.contains_key(k)]
                out@.contains_key(k) == nv.take(i as int).contains(k) && (out@.contains_key(k)
                    ==> tallies(out@[k], ts@, at@, gs@[k]@)),
        decreases names.len() - i,
    {
        let ghost was = out@;
        let ghost before = nv.take(i as int);
        let ghost now = nv.take(i + 1);
        assert(nv[i as int] == names@[i as int]@);
        assert(nv.contains(names@[i as int]@));
        assert(now =~= before.push(nv[i as int]));
        if let Some(group) = gs.get(names[i].as_str()) {
            let t = tally(ts, at, group);
            out.insert(names[i].clone(), t);
        }
        proof {
            assert forall|k: Seq<char>| #![trigger out@.contains_key(k)]
                out@.contains_key(k) == now.contains(k) && (out@.contains_key(k) ==> tallies(
                    out@[k],
                    ts@,
                    at@,
                    gs@[k]@,
                )) by {
                assert(was.contains_key(k) == before.contains(k));
                if before.contains(k) {
                    let a = choose|a: int| 0 <= a < before.len() && before[a] == k;
                    assert(now[a] == k);
                }
                assert(now[i as int] == nv[i as int]);
                if now.contains(k) {
                    let a = choose|a: int| 0 <= a < now.len() && now[a] == k;
                    if a < i {
                        assert(before[a] == k);
                    }
                }
            }
        }
        i += 1;
    }
    assert(nv.take(i as int) =~= nv);
    out
}

/// Ranks the strategy rows: most trades first, then the better net result; ties
/// keep their order.
pub fn rank_strategies(counts: &Vec<usize>, nets: &Vec<Num>) -> (r: Vec<usize>)
    requires
        counts@.len() == nets@.len(),
        forall|i: int| 0 <= i < counts@.len() ==> #[trigger] counts@[i] <= i64::MAX,
        forall|i: int| 0 <= i < nets@.len() ==> !(#[trigger] nets@[i]).nan,
    ensures
        order::ranking(
            Seq::new(counts@.len(), |i: int| (counts@[i] as i64, nets@[i].key)),
            false,
            r@,
        ),
{
    let mut keys: Vec<(i64, i64)> = Vec::new();
    let ghost all = Seq::new(counts@.len(), |i: int| (counts@[i] as i64, nets@[i].key));
    let mut i: usize = 0;
    while i < counts.len()
        invariant
            i <= counts.len(),
            counts@.len() == nets@.len(),
            all == Seq::new(counts@.len(), |i: int| (counts@[i] as i64, nets@[i].key)),
            keys@ == all.take(i as int),
        decreases counts.len() - i,
    {
        keys.push((counts[i] as i64, nets[i].key));
        i += 1;
        assert(keys@ =~= all.take(i as int));
    }
    assert(keys@ =~= all);
    order::rank(&keys, false)
}

/// The closing times of the trades at the places, as ranking keys.
pub open spec fn time_keys(ts: Seq<Trade>, at: Seq<usize>) -> Seq<(i64, i64)> {
    Seq::new(at.len(), |i: int| (ts[at[i] as int].at, 0i64))
}

fn keys_of_times(ts: &Vec<Trade>, at: &Vec<usize>) -> (r: Vec<(i64, i64)>)
    requires
        within(at@, ts@.len() as int),
    ensures
        r@ == time_keys(ts@, at@),
{
    let mut v: Vec<(i64, i64)> = Vec::new();
    let mut i: usize = 0;
    while i < at.len()
        invariant
            i <= at.len(),
            within(at@, ts@.len() as int),
            v@ == time_keys(ts@, at@).take(i as int),
        decreases at.len() - i,
    {
        assert(at@[i as int] < ts@.len());
        v.push((ts[at[i]].at, 0));
        i += 1;
        assert(v@ =~= time_keys(ts@, at@).take(i as int));
    }
    assert(time_keys(ts@, at@).take(i as int) =~= time_keys(ts@, at@));
    v
}

/// How the net result is distributed over bars.
#[derive(Debug)]
pub enum Dist {
    Empty,
    /// One bar for each day, keys in order.
    ByDay(TextMap<Vec<usize>>),
    /// One bar for each hour.
    ByHour(Vec<Group>),
    /// One bar for each trade.
    Each,
}

/// The days of the trades at the places.
pub open spec fn days_at(ts: Seq<Trade>, at: Seq<usize>) -> Seq<Seq<char>> {
    Seq::new(
        at.len(),
        |i: int| clock::day_key_text(clock::ist_day(ts[at[i] as int].at as int)),
    )
}

/// More than one day is present.
pub open spec fn many_days(days: Seq<Seq<char>>) -> bool {
    exists|i: int, j: int|
        0 <= i < days.len() && 0 <= j < days.len() && #[trigger] days[i] != #[trigger] days[j]
}

/// The distribution: by day where more than one is present, else by entry hour
/// where there are more than twenty trades, else a bar for each trade.
pub open spec fn dist_is(d: Dist, ts: Seq<Trade>, at: Seq<usize>) -> bool {
    let days = days_at(ts, at);
    if at.len() == 0 {
        d is Empty
    } else if many_days(days) {
        d is ByDay && forall|k: Seq<char>| #![trigger d->ByDay_0@.contains_key(k)]
            d->ByDay_0@.contains_key(k) == days.contains(k) && (d->ByDay_0@.contains_key(k)
                ==> d->ByDay_0@[k]@ == with_name(days, k, days.len() as int))
    } else if at.len() > 20 {
        d is ByHour && groups_are(d->ByHour_0@, entry_hours(ts, at))
    } else {
        d is Each
    }
}

fn is_many(days: &Vec<String>) -> (r: bool)
    ensures
        r == many_days(text::views(days@)),
{
    let ghost dv = text::views(days@);
    if days.len() == 0 {
        return false;
    }
    let mut i: usize = 1;
    while i < days.len()
        invariant
            1 <= i <= days.len(),
            dv == text::views(days@),
            forall|k: int| 0 <= k < i ==> #[trigger] dv[k] == dv[0],
        decreases days.len() - i,
    {
        if !text::same(days[i].as_str(), days[0].as_str()) {
            assert(dv[i as int] != dv[0]);
            return true;
        }
        assert(dv[i as int] == dv[0]);
        i += 1;
    }
    false
}

/// The distribution of the net result.
pub fn dist_series(ts: &Vec<Trade>, at: &Vec<usize>) -> (r: Dist)
    requires
        within(at@, ts@.len() as int),
        timed(ts@),
    ensures
        dist_is(r, ts@, at@),
{
    if at.len() == 0 {
        return Dist::Empty;
    }
    let mut days: Vec<String> = Vec::new();
    let mut i: usize = 0;
    while i < at.len()
        invariant
            i <= at.len(),
            within(at@, ts@.len() as int),
            timed(ts@),
            days@.len() == i,
            forall|k: int|
                0 <= k < i ==> (#[trigger] days@[k])@ == clock::day_key_text(
                    clock::ist_day(ts@[at@[k] as int].at as int),
                ),
        decreases at.len() - i,
    {
        assert(at@[i as int] < ts@.len());
        assert(clock::sane(ts@[at@[i as int] as int].at as int));
        days.push(day_key(ts[at[i]].at));
        i += 1;
    }
    assert(text::views(days@) =~= days_at(ts@, at@));
    if is_many(&days) {
        return Dist::ByDay(group_by_name(&days));
    }
    if at.len() > 20 {
        let hours = hours_of_entry(ts, at);
        return Dist::ByHour(bucket_by(&hours));
    }
    Dist::Each
}

/// The time a trade counts under in the time-of-day analysis: its entry, else
/// its close.
pub open spec fn insight_time(t: Trade) -> int {
    if t.entry_at > 0 {
        t.entry_at as int
    } else {
        t.at as int
    }
}

/// The entry hours of the trades at the places.
pub open spec fn entry_hours(ts: Seq<Trade>, at: Seq<usize>) -> Seq<i64> {
    Seq::new(at.len(), |i: int| clock::ist_hour(insight_time(ts[at[i] as int])) as i64)
}

/// The closing weekdays of the trades at the places.
pub open spec fn weekdays(ts: Seq<Trade>, at: Seq<usize>) -> Seq<i64> {
    Seq::new(at.len(), |i: int| clock::ist_weekday(ts[at[i] as int].at as int) as i64)
}

fn hours_of_entry(ts: &Vec<Trade>, at: &Vec<usize>) -> (r: Vec<i64>)
    requires
        within(at@, ts@.len() as int),
        timed(ts@),
    ensures
        r@ == entry_hours(ts@, at@),
{
    let mut out: Vec<i64> = Vec::new();
    let mut i: usize = 0;
    while i < at.len()
        invariant
            i <= at.len(),
            within(at@, ts@.len() as int),
            timed(ts@),
            out@ == entry_hours(ts@, at@).take(i as int),
        decreases at.len() - i,
    {
        assert(at@[i as int] < ts@.len());
        assert(clock::sane(ts@[at@[i as int] as int].at as int));
        let t = &ts[at[i]];
        let ms: i64 = if t.entry_at > 0 {
            t.entry_at
        } else {
            t.at
        };
        let p = ist_parts(ms);
        out.push(p.h as i64);
        i += 1;
        assert(out@ =~= entry_hours(ts@, at@).take(i as int));
    }
    assert(entry_hours(ts@, at@).take(i as int) =~= entry_hours(ts@, at@));
    out
}

fn weekdays_of(ts: &Vec<Trade>, at: &Vec<usize>) -> (r: Vec<i64>)
    requires
        within(at@, ts@.len() as int),
        timed(ts@),
    ensures
        r@ == weekdays(ts@, at@),
{
    let mut out: Vec<i64> = Vec::new();
    let mut i: usize = 0;
    while i < at.len()
        invariant
            i <= at.len(),
            within(at@, ts@.len() as int),
            timed(ts@),
            out@ == weekdays(ts@, at@).take(i as int),
        decreases at.len() - i,
    {
        assert(at@[i as int] < ts@.len());
        assert(clock::sane(ts@[at@[i as int] as int].at as int));
        let p = ist_parts(ts[at[i]].at);
        out.push(p.wd as i64);
        i += 1;
        assert(out@ =~= weekdays(ts@, at@).take(i as int));
    }
    assert(weekdays(ts@, at@).take(i as int) =~= weekdays(ts@, at@));
    out
}

/// When the scope of the time-of-day analysis begins; `None` for all trades.
pub open spec fn scope_start(scope: Seq<char>, now: int) -> Option<int> {
    if scope == "today"@ {
        Some(clock::day_start(now))
    } else if scope == "7d"@ {
        Some(now - 7 * 86_400_000)
    } else if scope == "30d"@ {
        Some(now - 30 * 86_400_000)
    } else {
        None
    }
}

/// The beginning of the scope is a time.
pub open spec fn scope_fits(scope: Seq<char>, now: int) -> bool {
    &&& scope == "today"@ ==> clock::sane(now)
    &&& scope_start(scope, now) is Some ==> i64::MIN <= scope_start(scope, now)->0
}

/// The places within the scope.
pub open spec fn in_scope(ts: Seq<Trade>, at: Seq<usize>, scope: Seq<char>, now: int) -> Seq<usize> {
    match scope_start(scope, now) {
        Some(from) => since(ts, at, from),
        None => at,
    }
}

/// The places within the scope of the time-of-day analysis.
pub fn scope_filter(ts: &Vec<Trade>, at: &Vec<usize>, scope: &str, now: i64) -> (r: Vec<usize>)
    requires
        within(at@, ts@.len() as int),
        scope_fits(scope@, now as int),
    ensures
        r@ == in_scope(ts@, at@, scope@, now as int),
        within(r@, ts@.len() as int),
{
    if text::same(scope, "today") {
        return places_since(ts, at, ist_day_start(now));
    }
    if text::same(scope, "7d") {
        return places_since(ts, at, now - 7 * 86_400_000);
    }
    if text::same(scope, "30d") {
        return places_since(ts, at, now - 30 * 86_400_000);
    }
    let mut out: Vec<usize> = Vec::new();
    let mut i: usize = 0;
    while i < at.len()
        invariant
            i <= at.len(),
            out@ == at@.take(i as int),
        decreases at.len() - i,
    {
        out.push(at[i]);
        i += 1;
        assert(out@ =~= at@.take(i as int));
    }
    assert(at@.take(i as int) =~= at@);
    out
}

/// One bar of the hour table.
#[derive(Clone, Copy, Debug, PartialEq, Eq, Structural)]
pub struct HourRow {
    pub count: usize,
    pub wins: usize,
    pub net: Num,
    /// Share of winners.
    pub wr: Num,
}

/// The places of the best hours: by wins, by net result, by share of winners;
/// minus one where there is none.
pub open spec fn best_hours(rows: Seq<HourRow>, n: int) -> (int, int, int)
    decreases n,
{
    if n <= 0 {
        (-1, -1, -1)
    } else {
        let b = best_hours(rows, n - 1);
        let r = rows[n - 1];
        (
            if b.0 < 0 || r.wins > rows[b.0].wins {
                n - 1
            } else {
                b.0
            },
            if !r.net.nan && (b.1 < 0 || r.net.above(rows[b.1].net)) {
                n - 1
            } else {
                b.1
            },
            if r.count >= 3 && !r.wr.nan && (b.2 < 0 || r.wr.above(rows[b.2].wr)) {
                n - 1
            } else {
                b.2
            },
        )
    }
}

/// The best hour: the one with most wins where any won, else the one with the
/// best net result where it is positive.
pub open spec fn best_hour_place(rows: Seq<HourRow>) -> int {
    let b = best_hours(rows, rows.len() as int);
    if b.0 >= 0 && rows[b.0].wins > 0 {
        b.0
    } else if b.1 >= 0 && rows[b.1].net.positive() {
        b.1
    } else {
        -1
    }
}

/// The chosen hours, by their places in the hour table.
#[derive(Clone, Copy, Debug, PartialEq, Eq, Structural)]
pub struct BestHours {
    pub best: Option<usize>,
    pub by_net: Option<usize>,
    pub by_wr: Option<usize>,
}

/// An optional place as a number.
pub open spec fn place_number(p: Option<usize>) -> int {
    match p {
        Some(i) => i as int,
        None => -1,
    }
}

/// Chooses the best hours of the hour table.
pub fn pick_best_hours(rows: &Vec<HourRow>) -> (r: BestHours)
    ensures
        place_number(r.best) == best_hour_place(rows@),
        place_number(r.by_net) == best_hours(rows@, rows@.len() as int).1,
        place_number(r.by_wr) == best_hours(rows@, rows@.len() as int).2,
{
    let mut by_wins: Option<usize> = None;
    let mut by_net: Option<usize> = None;
    let mut by_wr: Option<usize> = None;
    let mut i: usize = 0;
    while i < rows.len()
        invariant
            i <= rows.len(),
            place_number(by_wins) == best_hours(rows@, i as int).0,
            place_number(by_net) == best_hours(rows@, i as int).1,
            place_number(by_wr) == best_hours(rows@, i as int).2,
            by_wins is Some ==> by_wins->0 < i,
            by_net is Some ==> by_net->0 < i,
            by_wr is Some ==> by_wr->0 < i,
        decreases rows.len() - i,
    {
        let r = rows[i];
        let more_wins = match by_wins {
            Some(b) => r.wins > rows[b].wins,
            None => true,
        };
        let more_net = !r.net.nan && match by_net {
            Some(b) => r.net.gt(&rows[b].net),
            None => true,
        };
        let more_wr = r.count >= 3 && !r.wr.nan && match by_wr {
            Some(b) => r.wr.gt(&rows[b].wr),
            None => true,
        };
        if more_wins {
            by_wins = Some(i);
        }
        if more_net {
            by_net = Some(i);
        }
        if more_wr {
            by_wr = Some(i);
        }
        i += 1;
    }
    let won = match by_wins {
        Some(b) => rows[b].wins > 0,
        None => false,
    };
    let best = if won {
        by_wins
    } else {
        match by_net {
            Some(b) => if rows[b].net.is_positive() {
                Some(b)
            } else {
                None
            },
            None => None,
        }
    };
    BestHours { best, by_net, by_wr }
}

proof fn lemma_best_wins(rows: Seq<HourRow>, n: int, i: int)
    requires
        0 <= i < n <= rows.len(),
    ensures
        0 <= best_hours(rows, n).0 < n,
        rows[best_hours(rows, n).0].wins >= rows[i].wins,
    decreases n,
{
    if n == 1 {
        assert(best_hours(rows, 0) == (-1int, -1int, -1int));
    }
    if n > 1 {
        lemma_best_wins(rows, n - 1, if i < n - 1 {
            i
        } else {
            0
        });
    }
}

/// Where any hour has a win, the best hour has as many wins as any.
pub proof fn law_best_hour_has_most_wins(rows: Seq<HourRow>, i: int)
    requires
        0 <= i < rows.len(),
        rows[i].wins > 0,
    ensures
        0 <= best_hour_place(rows) < rows.len(),
        rows[best_hour_place(rows)].wins >= rows[i].wins,
{
    lemma_best_wins(rows, rows.len() as int, i);
}

/// The place of a weekday among the groups; `None` where nothing traded on it.
pub fn weekday_group(gs: &Vec<Group>, wd: i64) -> (r: Option<usize>)
    ensures
        match r {
            Some(i) => i < gs@.len() && gs@[i as int].key == wd,
            None => forall|i: int| 0 <= i < gs@.len() ==> (#[trigger] gs@[i]).key != wd,
        },
{
    let mut i: usize = 0;
    while i < gs.len()
        invariant
            i <= gs.len(),
            forall|k: int| 0 <= k < i ==> (#[trigger] gs@[k]).key != wd,
        decreases gs.len() - i,
    {
        if gs[i].key == wd {
            return Some(i);
        }
        i += 1;
    }
    None
}

/// The weekday shown at a place of the trading week, Monday first.
pub open spec fn week_slot(i: int) -> int {
    (i + 1) % 7
}

/// The name of a weekday.
pub open spec fn weekday_text(wd: int) -> Seq<char> {
    if wd == 0 {
        "Sun"@
    } else if wd == 1 {
        "Mon"@
    } else if wd == 2 {
        "Tue"@
    } else if wd == 3 {
        "Wed"@
    } else if wd == 4 {
        "Thu"@
    } else if wd == 5 {
        "Fri"@
    } else {
        "Sat"@
    }
}

/// The name of a weekday, Sunday being zero.
pub fn weekday_name(wd: i64) -> (r: &'static str)
    requires
        0 <= wd < 7,
    ensures
        r@ == weekday_text(wd as int),
{
    if wd == 0 {
        "Sun"
    } else if wd == 1 {
        "Mon"
    } else if wd == 2 {
        "Tue"
    } else if wd == 3 {
        "Wed"
    } else if wd == 4 {
        "Thu"
    } else if wd == 5 {
        "Fri"
    } else {
        "Sat"
    }
}

/// The weekday groups in the order of the trading week, by place.
pub open spec fn week_order(gs: Seq<Group>, n: int) -> Seq<i64>
    decreases n,
{
    if n <= 0 {
        Seq::empty()
    } else {
        let wd = week_slot(n - 1);
        if exists|i: int| 0 <= i < gs.len() && (#[trigger] gs[i]).key == wd {
            week_order(gs, n - 1).push(wd as i64)
        } else {
            week_order(gs, n - 1)
        }
    }
}

/// The weekdays that traded, Monday first.
pub fn week_days(gs: &Vec<Group>) -> (r: Vec<i64>)
    ensures
        r@ == week_order(gs@, 7),
{
    let mut out: Vec<i64> = Vec::new();
    let mut i: i64 = 0;
    while i < 7
        invariant
            0 <= i <= 7,
            out@ == week_order(gs@, i as int),
        decreases 7 - i,
    {
        let wd: i64 = (i + 1) % 7;
        if let Some(k) = weekday_group(gs, wd) {
            assert(gs@[k as int].key == wd);
            out.push(wd);
        }
        i += 1;
    }
    out
}

/// The text over the report.
pub fn status_text(n: usize) -> (r: String)
    ensures
        r@ == text::dec(n as int) + " executed trade"@ + (if n == 1 {
            ""@
        } else {
            "s"@
        }) + " in this period"@,
{
    let mut s = String::new();
    proof {
        reveal_strlit("");
        assert(s@ =~= Seq::<char>::empty());
        assert(s@ + text::dec(n as int) =~= text::dec(n as int));
    }
    text::push_nat(&mut s, n as u64);
    text::push_text(&mut s, " executed trade");
    text::push_text(
        &mut s,
        if n == 1 {
            ""
        } else {
            "s"
        },
    );
    text::push_text(&mut s, " in this period");
    s
}

/// The trades of one period.
#[derive(Debug)]
pub struct Chip {
    pub key: &'static str,
    pub label: &'static str,
    pub places: Vec<usize>,
}

/// The keys of the period chips.
pub open spec fn chip_keys() -> Seq<Seq<char>> {
    seq!["1h"@, "today"@, "week"@, "month"@, "6m"@, "year"@]
}

/// The chip of a period.
pub open spec fn chip_is(c: Chip, key: Seq<char>, ts: Seq<Trade>, at: Seq<usize>, now: int) -> bool {
    let p = clock::period_of(key);
    c.key@ == key && c.label@ == clock::period_label(p) && c.places@ == since(
        ts,
        at,
        clock::period_start(p, now),
    )
}

fn chip(key: &'static str, ts: &Vec<Trade>, at: &Vec<usize>, now: i64) -> (r: Chip)
    requires
        within(at@, ts@.len() as int),
        clock::reaches_back(now as int),
    ensures
        chip_is(r, key@, ts@, at@, now as int),
{
    assert(clock::period_fits(clock::period_of(key@), now as int));
    let (from, label) = period_meta(key, now);
    Chip { key, label, places: places_since(ts, at, from) }
}

/// The report, up to what is summed from it.
#[derive(Debug)]
pub struct Report {
    /// The trades, as recorded.
    pub trades: Vec<Trade>,
    /// Places of the trades of the mode, by closing time.
    pub scoped: Vec<usize>,
    pub chips: Vec<Chip>,
    pub range_label: &'static str,
    /// Places of the trades of the period.
    pub range: Vec<usize>,
    pub counts: Counts,
    pub strategies: TextMap<Vec<usize>>,
    pub strategy_tallies: TextMap<Tally>,
    /// Places into `range`, newest first.
    pub newest: Vec<usize>,
    pub insight: Vec<usize>,
    pub hours: Vec<Group>,
    pub hour_tallies: Vec<Tally>,
    pub weekdays: Vec<Group>,
    pub weekday_tallies: Vec<Tally>,
    pub equity: Vec<usize>,
    pub dist: Dist,
}

/// The places of `n` trades in order of closing time, ties as recorded.
pub open spec fn by_time(ts: Seq<Trade>, r: Seq<usize>) -> bool {
    order::ranking(time_keys(ts, all_of(ts.len() as int)), true, r)
}

/// All places.
pub open spec fn all_of(n: int) -> Seq<usize> {
    Seq::new(n as nat, |i: int| i as usize)
}

fn every_place(n: usize) -> (r: Vec<usize>)
    ensures
        r@ == all_of(n as int),
        within(r@, n as int),
{
    let mut v: Vec<usize> = Vec::new();
    let mut i: usize = 0;
    while i < n
        invariant
            i <= n,
            v@ == all_of(i as int),
        decreases n - i,
    {
        v.push(i);
        i += 1;
        assert(v@ =~= all_of(i as int));
    }
    v
}

/// The scope of the time-of-day analysis; all where none is asked for.
pub open spec fn scope_of(q: StatsQuery) -> Seq<char> {
    if q.scope@.len() == 0 {
        "all"@
    } else {
        q.scope@
    }
}

/// Builds the report on the closed trades.
pub fn report(
    closed: &Vec<RawTrade>,
    q: &StatsQuery,
    charges_on: bool,
    now: i64,
    zero: Num,
) -> (r: Report)
    requires
        clock::reaches_back(now as int),
        scope_fits(scope_of(*q), now as int),
        forall|i: int|
            0 <= i < closed@.len() && reported(#[trigger] closed@[i]) ==> clock::sane(
                closed_time(closed@[i]),
            ) && clock::sane(closed@[i].opened_at as int),
    ensures
        trades_are(r.trades@, closed@, charges_on, zero, closed@.len() as int),
        exists|sorted: Seq<usize>| #[trigger]
            by_time(r.trades@, sorted) && r.scoped@ == mode_places(r.trades@, sorted, q.mode@),
        r.chips@.len() == 6,
        forall|i: int|
            0 <= i < 6 ==> chip_is(
                #[trigger] r.chips@[i],
                chip_keys()[i],
                r.trades@,
                r.scoped@,
                now as int,
            ),
        r.range_label@ == clock::period_label(clock::period_of(q.range@)),
        r.range@ == since(
            r.trades@,
            r.scoped@,
            clock::period_start(clock::period_of(q.range@), now as int),
        ),
        r.counts == counted(r.trades@, r.range@),
        forall|k: Seq<char>| #![trigger r.strategies@.contains_key(k)]
            r.strategies@.contains_key(k) == names_at(r.trades@, r.range@).contains(k) && (
            r.strategies@.contains_key(k) ==> r.strategies@[k]@ == with_name(
                names_at(r.trades@, r.range@),
                k,
                r.range@.len() as int,
            )),
        named_tallies(r.strategy_tallies@, r.trades@, r.range@, r.strategies@),
        order::ranking(time_keys(r.trades@, r.range@), false, r.newest@),
        r.insight@ == in_scope(r.trades@, r.scoped@, scope_of(*q), now as int),
        groups_are(r.hours@, entry_hours(r.trades@, r.insight@)),
        tallies_are(r.hour_tallies@, r.trades@, r.insight@, r.hours@),
        groups_are(r.weekdays@, weekdays(r.trades@, r.insight@)),
        tallies_are(r.weekday_tallies@, r.trades@, r.insight@, r.weekdays@),
        r.equity@ == drawn_places(r.range@.len() as int, r.range@.len() as int),
        dist_is(r.dist, r.trades@, r.range@),
{
    let trades = norm_all(closed, charges_on, zero);
    proof {
        assert(timed(trades@)) by {
            let rows = reported_rows(closed@, closed@.len() as int);
            assert forall|i: int| 0 <= i < trades@.len() implies clock::sane(
                (#[trigger] trades@[i]).at as int,
            ) && clock::sane(trades@[i].entry_at as int) by {
                assert(shaped(trades@[i], closed@[rows[i]], rows[i], charges_on, zero));
                lemma_rows_in(closed@, closed@.len() as int, i);
                assert(reported(closed@[rows[i]]));
            }
        }
    }
    let all = every_place(trades.len());
    let times = keys_of_times(&trades, &all);
    let sorted = order::rank(&times, true);
    proof {
        assert(within(sorted@, trades@.len() as int));
        assert(by_time(trades@, sorted@));
    }
    let scoped = places_in_mode(&trades, &sorted, q.mode.as_str());
    let mut chips: Vec<Chip> = Vec::new();
    chips.push(chip("1h", &trades, &scoped, now));
    chips.push(chip("today", &trades, &scoped, now));
    chips.push(chip("week", &trades, &scoped, now));
    chips.push(chip("month", &trades, &scoped, now));
    chips.push(chip("6m", &trades, &scoped, now));
    chips.push(chip("year", &trades, &scoped, now));
    assert(clock::period_fits(clock::period_of(q.range@), now as int));
    let (from, range_label) = period_meta(q.range.as_str(), now);
    let range = places_since(&trades, &scoped, from);
    let counts = stats_of(&trades, &range);
    let strategies = strategy_groups(&trades, &range);
    proof {
        let names = names_at(trades@, range@);
        assert forall|k: Seq<char>| #[trigger] strategies@.contains_key(k) implies within(
            strategies@[k]@,
            range@.len() as int,
        ) by {
            lemma_name_places(names, k, names.len() as int);
        }
    }
    let strategy_tallies = tally_names(&trades, &range, &strategies);
    let range_times = keys_of_times(&trades, &range);
    let newest = order::rank(&range_times, false);
    let scope = if text::chars_of(q.scope.as_str()).len() == 0 {
        "all"
    } else {
        q.scope.as_str()
    };
    let insight = scope_filter(&trades, &scoped, scope, now);
    let hour_keys = hours_of_entry(&trades, &insight);
    let hours = bucket_by(&hour_keys);
    proof {
        assert forall|i: int| 0 <= i < hours@.len() implies within(
            (#[trigger] hours@[i]).places@,
            insight@.len() as int,
        ) by {
            lemma_key_places(hour_keys@, hours@[i].key, hour_keys@.len() as int);
        }
    }
    let hour_tallies = tally_groups(&trades, &insight, &hours);
    let week_keys = weekdays_of(&trades, &insight);
    let weekdays = bucket_by(&week_keys);
    proof {
        assert forall|i: int| 0 <= i < weekdays@.len() implies within(
            (#[trigger] weekdays@[i]).places@,
            insight@.len() as int,
        ) by {
            lemma_key_places(week_keys@, weekdays@[i].key, week_keys@.len() as int);
        }
    }
    let weekday_tallies = tally_groups(&trades, &insight, &weekdays);
    let equity = equity_places(range.len());
    let dist = dist_series(&trades, &range);
    Report {
        trades,
        scoped,
        chips,
        range_label,
        range,
        counts,
        strategies,
        strategy_tallies,
        newest,
        insight,
        hours,
        hour_tallies,
        weekdays,
        weekday_tallies,
        equity,
        dist,
    }
}

proof fn lemma_rows_in(cs: Seq<RawTrade>, n: int, i: int)
    requires
        0 <= n <= cs.len(),
        0 <= i < reported_rows(cs, n).len(),
    ensures
        0 <= reported_rows(cs, n)[i] < n,
        reported(cs[reported_rows(cs, n)[i]]),
    decreases n,
{
    if n > 0 {
        let was = reported_rows(cs, n - 1);
        if i < was.len() {
            lemma_rows_in(cs, n - 1, i);
        }
    }
}

/// The label of an hour.
pub fn hour_label(h: i64) -> (r: String)
    requires
        0 <= h < 24,
    ensures
        r@ == clock::pad2_text(h as int) + ":00"@,
{
    let mut s = pad2(h as u32);
    text::push_text(&mut s, ":00");
    s
}

/// A record counts with the time it closed, else the time it is filed under, under its
/// trading symbol, else its plain one, and enters the report where it closed and can be
/// told apart.
pub proof fn law_records_that_count(c: RawTrade)
    ensures
        c.closed_at > 0 ==> closed_time(c) == c.closed_at,
        c.closed_at <= 0 ==> closed_time(c) == c.at,
        c.trading_symbol@.len() > 0 ==> symbol_of(c) == c.trading_symbol@,
        c.trading_symbol@.len() == 0 ==> symbol_of(c) == c.symbol@,
        c.security_id > 0 ==> instrument_of(c) == c.security_id,
        c.security_id <= 0 ==> instrument_of(c) == c.symbol_id,
        c.closed_at <= 0 && c.at <= 0 ==> !reported(c),
        (c.closed_at > 0 || c.at > 0) && (c.trading_symbol@.len() > 0 || c.security_id > 0)
            ==> reported(c),
        c.trading_symbol@.len() == 0 && c.symbol@.len() == 0 && c.security_id <= 0 && c.symbol_id
            <= 0 ==> !reported(c),
{
}

/// The result of a trade: with charges deducted the net one that is on record, else the
/// gross one; a record without either counts as zero.
pub proof fn law_net_of_a_record(c: RawTrade, zero: Num)
    ensures
        c.net_pnl is Some ==> net_result(c, true, zero) == c.net_pnl->0,
        c.net_pnl is None && c.pnl is Some ==> net_result(c, true, zero) == c.pnl->0,
        c.pnl is Some ==> net_result(c, false, zero) == c.pnl->0,
        c.pnl is None ==> net_result(c, false, zero) == zero,
        c.net_pnl is None && c.pnl is None ==> net_result(c, true, zero) == zero,
{
}

/// Every record is taken up once, in order, where it enters the report.
pub proof fn law_rows_are_taken_up(cs: Seq<RawTrade>, n: int)
    requires
        0 < n <= cs.len(),
    ensures
        reported_rows(cs, n) == reported_rows(cs, n - 1) + if reported(cs[n - 1]) {
            seq![n - 1]
        } else {
            Seq::empty()
        },
        reported_rows(cs, 0).len() == 0,
{
    let was = reported_rows(cs, n - 1);
    assert(was + seq![n - 1] =~= was.push(n - 1));
    assert(was + Seq::<int>::empty() =~= was);
}

/// A trade belongs to the filters exactly where its strategy's name begins like theirs, to
/// the strategies otherwise, and to both taken together always.
pub proof fn law_modes_split_the_trades(t: Trade, mode: Seq<char>)
    ensures
        in_mode(t, "filter"@) <==> text::begins(text::lower_text(t.strategy@), "indicator filter"@),
        in_mode(t, "strategy"@) <==> !in_mode(t, "filter"@),
        mode != "filter"@ && mode != "strategy"@ ==> in_mode(t, mode),
{
    reveal_strlit("filter");
    reveal_strlit("strategy");
    assert("filter"@.len() == 6 && "strategy"@.len() == 8);
}

/// Filtering by mode, or by time, keeps the places whose trade fits, in order.
pub proof fn law_filtered_places(ts: Seq<Trade>, at: Seq<usize>, p: usize, mode: Seq<char>, from: int)
    ensures
        mode_places(ts, at.push(p), mode) == mode_places(ts, at, mode) + if in_mode(
            ts[p as int],
            mode,
        ) {
            seq![p]
        } else {
            Seq::empty()
        },
        since(ts, at.push(p), from) == since(ts, at, from) + if from <= ts[p as int].at {
            seq![p]
        } else {
            Seq::empty()
        },
        mode_places(ts, Seq::empty(), mode).len() == 0,
        since(ts, Seq::empty(), from).len() == 0,
{
    assert(at.push(p).drop_last() =~= at);
    let a = mode_places(ts, at, mode);
    let b = since(ts, at, from);
    assert(a + seq![p] =~= a.push(p));
    assert(a + Seq::<usize>::empty() =~= a);
    assert(b + seq![p] =~= b.push(p));
    assert(b + Seq::<usize>::empty() =~= b);
}

/// A trade won: its result is a number above zero.
pub open spec fn won(t: Trade) -> bool {
    !t.net.nan && t.net.key > 0
}

proof fn lemma_counts(ts: Seq<Trade>, at: Seq<usize>)
    requires
        at.len() <= usize::MAX,
    ensures
        ({
            let c = counted(ts, at);
            &&& c.n == at.len()
            &&& c.wins + c.losses == c.n
            &&& c.streak <= c.wins && c.lose_streak <= c.losses
            &&& c.streak <= c.max_streak <= c.wins && c.lose_streak <= c.max_lose_streak <= c.losses
        }),
    decreases at.len(),
{
    if at.len() > 0 {
        lemma_counts(ts, at.drop_last());
    }
}

/// Every trade is counted, as won or as lost, a trade that breaks even or has no result as
/// lost; a won trade lengthens the run of winners and ends that of losers, and a lost one
/// the other way round.
pub proof fn law_one_more_trade(ts: Seq<Trade>, at: Seq<usize>, p: usize)
    requires
        at.len() < usize::MAX,
    ensures
        ({
            let a = counted(ts, at);
            let b = counted(ts, at.push(p));
            let w = won(ts[p as int]);
            &&& b.n == at.len() + 1
            &&& b.wins + b.losses == b.n
            &&& w ==> b.wins == a.wins + 1 && b.losses == a.losses
            &&& !w ==> b.wins == a.wins && b.losses == a.losses + 1
            &&& w ==> b.streak == a.streak + 1 && b.lose_streak == 0
            &&& !w ==> b.lose_streak == a.lose_streak + 1 && b.streak == 0
        }),
{
    lemma_counts(ts, at);
    lemma_counts(ts, at.push(p));
    assert(at.push(p).drop_last() =~= at);
}

/// The equity curve draws every trade of a short list; of a long one every step-th from
/// the first on, the step being the four-hundredth part of the list, and the last.
pub proof fn law_curve_steps(i: int, n: int)
    requires
        0 <= i < n,
    ensures
        n < 800 ==> drawn(i, n),
        n >= 800 ==> (drawn(i, n) <==> i % (n / 400) == 0 || i + 1 == n),
{
}

/// The places with a key are all places that hold it, rising.
pub proof fn law_places_with_a_key(keys: Seq<i64>, k: i64, n: int)
    requires
        0 <= n <= keys.len(),
        keys.len() <= usize::MAX,
    ensures
        ({
            let v = with_key(keys, k, n);
            &&& forall|i: usize| #[trigger] v.contains(i) <==> i < n && keys[i as int] == k
            &&& forall|a: int, b: int| 0 <= a < b < v.len() ==> #[trigger] v[a] < #[trigger] v[b]
        }),
    decreases n,
{
    let v = with_key(keys, k, n);
    if n > 0 {
        law_places_with_a_key(keys, k, n - 1);
        let was = with_key(keys, k, n - 1);
        assert forall|a: int| 0 <= a < was.len() implies #[trigger] was[a] < n - 1 by {
            assert(was.contains(was[a]));
        }
        assert forall|i: usize| #[trigger] v.contains(i) <==> i < n && keys[i as int] == k by {
            if v.contains(i) {
                let a = choose|a: int| 0 <= a < v.len() && v[a] == i;
                if a < was.len() {
                    assert(was[a] == i);
                    assert(was.contains(i));
                }
            }
            if was.contains(i) {
                let a = choose|a: int| 0 <= a < was.len() && was[a] == i;
                assert(v[a] == i);
            }
            if i == n - 1 && keys[i as int] == k {
                assert(v[v.len() - 1] == i);
            }
        }
    }
}

/// A group counts the winners among its trades and remembers when the last one closed.
pub proof fn law_group_tallies(ts: Seq<Trade>, at: Seq<usize>, group: Seq<usize>, g: usize)
    ensures
        wins_at(ts, at, group.push(g)) - wins_at(ts, at, group) == if won(ts[at[g as int] as int]) {
            1int
        } else {
            0int
        },
        latest_at(ts, at, group.push(g)) >= ts[at[g as int] as int].at,
        latest_at(ts, at, group.push(g)) >= latest_at(ts, at, group),
        latest_at(ts, at, group.push(g)) == latest_at(ts, at, group) || latest_at(
            ts,
            at,
            group.push(g),
        ) == ts[at[g as int] as int].at,
        wins_at(ts, at, Seq::empty()) == 0,
        latest_at(ts, at, Seq::empty()) == 0,
{
    assert(group.push(g).drop_last() =~= group);
}

/// The scopes of the time-of-day analysis reach back to midnight, seven days or thirty
/// days; every other one takes in all trades.
pub proof fn law_scopes_reach_back(scope: Seq<char>, now: int)
    ensures
        scope_start("today"@, now) == Some(clock::day_start(now)),
        scope_start("7d"@, now) is Some,
        now - scope_start("7d"@, now)->0 == 7 * 24 * 60 * 60 * 1000,
        scope_start("30d"@, now) is Some,
        now - scope_start("30d"@, now)->0 == 30 * 24 * 60 * 60 * 1000,
        scope != "today"@ && scope != "7d"@ && scope != "30d"@ ==> scope_start(scope, now) is None,
{
    reveal_strlit("today");
    reveal_strlit("7d");
    reveal_strlit("30d");
    assert("today"@[0] == 't' && "7d"@[0] == '7' && "30d"@[0] == '3');
}

/// A trade counts under the hour it was entered in, else the hour it closed in.
pub proof fn law_hour_of_a_trade(t: Trade)
    ensures
        t.entry_at > 0 ==> insight_time(t) == t.entry_at,
        t.entry_at <= 0 ==> insight_time(t) == t.at,
{
}

proof fn lemma_best_hours(rows: Seq<HourRow>, n: int)
    requires
        0 <= n <= rows.len(),
    ensures
        ({
            let b = best_hours(rows, n);
            &&& -1 <= b.0 < n || n == 0
            &&& -1 <= b.1 < n || n == 0
            &&& -1 <= b.2 < n || n == 0
            &&& n == 0 ==> b == (-1int, -1int, -1int)
            &&& b.1 >= 0 ==> !rows[b.1].net.nan
            &&& b.2 >= 0 ==> !rows[b.2].wr.nan && rows[b.2].count >= 3
            &&& forall|i: int|
                0 <= i < n ==> b.0 >= 0 && rows[b.0].wins >= (#[trigger] rows[i]).wins
            &&& forall|i: int|
                0 <= i < n && !(#[trigger] rows[i]).net.nan ==> b.1 >= 0 && rows[b.1].net.key
                    >= rows[i].net.key
            &&& forall|i: int|
                0 <= i < n && !(#[trigger] rows[i]).wr.nan && rows[i].count >= 3 ==> b.2 >= 0
                    && rows[b.2].wr.key >= rows[i].wr.key
        }),
    decreases n,
{
    if n > 0 {
        lemma_best_hours(rows, n - 1);
    }
}

/// The best hours: none has more wins than the first, a better net result than the second,
/// or, of those with at least three trades, a greater share of winners than the third.
pub proof fn law_best_hours_are_best(rows: Seq<HourRow>, i: int)
    requires
        0 <= i < rows.len(),
    ensures
        ({
            let b = best_hours(rows, rows.len() as int);
            &&& 0 <= b.0 < rows.len() && rows[b.0].wins >= rows[i].wins
            &&& !rows[i].net.nan ==> 0 <= b.1 < rows.len() && rows[b.1].net.key >= rows[i].net.key
            &&& !rows[i].wr.nan && rows[i].count >= 3 ==> 0 <= b.2 < rows.len() && rows[b.2].wr.key
                >= rows[i].wr.key && rows[b.2].count >= 3
        }),
{
    lemma_best_hours(rows, rows.len() as int);
}

/// The trading week begins on Monday and ends on Sunday, day after day.
pub proof fn law_week_begins_on_monday(i: int)
    requires
        0 <= i < 6,
    ensures
        week_slot(0) == 1,
        week_slot(6) == 0,
        week_slot(i + 1) % 7 == (week_slot(i) + 1) % 7,
        weekday_text(week_slot(0)) == "Mon"@,
        weekday_text(week_slot(5)) == "Sat"@,
        weekday_text(week_slot(6)) == "Sun"@,
{
}

/// A trade of the report is its record: the same side and strategy, the closing and the
/// opening time, the results and the reason on record, `Closed` where there is none, and
/// no charges where they are not deducted.
pub proof fn law_trades_are_their_records(t: Trade, c: RawTrade, row: int, charges_on: bool, zero: Num)
    requires
        shaped(t, c, row, charges_on, zero),
    ensures
        t.side@ == c.side@,
        t.strategy@ == c.strategy_name@,
        t.entry_at == c.opened_at,
        t.at == if c.closed_at > 0 {
            c.closed_at
        } else {
            c.at
        },
        c.pnl is Some ==> t.pnl == c.pnl->0,
        c.pnl is None ==> t.pnl == zero,
        !charges_on ==> t.net == t.pnl && t.charges == zero,
        charges_on && c.net_pnl is Some ==> t.net == c.net_pnl->0,
        charges_on && c.net_pnl is None ==> t.net == t.pnl,
        charges_on && c.charges is Some ==> t.charges == c.charges->0,
        c.reason@.len() > 0 ==> t.reason@ == c.reason@,
        c.reason@.len() == 0 ==> t.reason@ == "Closed"@,
        t.row == row,
{
}

/// The weekday groups are shown Monday to Sunday, those that have trades.
pub proof fn law_week_in_order(gs: Seq<Group>, n: int)
    requires
        0 < n <= 7,
    ensures
        ({
            let day = n % 7;
            let there = exists|i: int| 0 <= i < gs.len() && (#[trigger] gs[i]).key == day;
            week_order(gs, n) == week_order(gs, n - 1) + if there {
                seq![day as i64]
            } else {
                Seq::empty()
            }
        }),
        week_order(gs, 0).len() == 0,
{
    let was = week_order(gs, n - 1);
    let day = n % 7;
    assert(week_slot(n - 1) == day);
    assert(was + seq![day as i64] =~= was.push(day as i64));
    assert(was + Seq::<i64>::empty() =~= was);
}

/// How trades are spread: by day over more than one day, else by the hour of entry beyond
/// twenty trades, else one by one.
pub proof fn law_spread_of_trades(d: Dist, ts: Seq<Trade>, at: Seq<usize>)
    requires
        dist_is(d, ts, at),
    ensures
        at.len() == 0 <==> d is Empty,
        at.len() > 0 && many_days(days_at(ts, at)) ==> d is ByDay,
        at.len() > 20 && !many_days(days_at(ts, at)) ==> d is ByHour,
        0 < at.len() <= 20 && !many_days(days_at(ts, at)) ==> d is Each,
{
}

/// A tally splits its group into won and lost trades.
pub proof fn law_tally_splits_the_group(t: Tally, ts: Seq<Trade>, at: Seq<usize>, group: Seq<usize>)
    requires
        tallies(t, ts, at, group),
    ensures
        t.wins + t.losses == t.count,
        t.count == group.len(),
        t.wins == wins_at(ts, at, group),
        t.last == latest_at(ts, at, group),
{
}

/// A trade without a strategy's name is listed under `Strategy`.
pub proof fn law_names_in_the_list(t: Trade)
    ensures
        t.strategy@.len() > 0 ==> listed_name(t) == t.strategy@,
        t.strategy@.len() == 0 ==> listed_name(t) == "Strategy"@,
{
}

} // verus!
