//! What the closed trades say of each strategy, and the lists built from it.

use vstd::prelude::*;
use crate::book::{Closed, NetPnl};
use crate::doc::{FinalRow, RtDoc};
use crate::model;
use crate::model::Strategy;
use crate::num::Num;
use crate::order;
use crate::text;
use crate::textmap::TextMap;

verus! {

/// The result of a closed trade: the stored net result where charges are
/// deducted and one is stored, else the gross result.
pub open spec fn result_of(c: Closed, charges_on: bool) -> Num {
    if charges_on {
        match c.net_pnl {
            NetPnl::Net(n) => n,
            NetPnl::Gross => c.pnl,
            NetPnl::Absent => c.pnl,
        }
    } else {
        c.pnl
    }
}

/// The result of a closed trade.
pub fn closed_pnl(c: &Closed, charges_on: bool) -> (r: Num)
    ensures
        r == result_of(*c, charges_on),
{
    if charges_on {
        match c.net_pnl {
            NetPnl::Net(n) => n,
            NetPnl::Gross => c.pnl,
            NetPnl::Absent => c.pnl,
        }
    } else {
        c.pnl
    }
}

/// How many of the first `n` trades won, or lost.
pub open spec fn outcome_count(
    cs: Seq<Closed>,
    charges_on: bool,
    won: bool,
    n: int,
) -> nat
    decreases n,
{
    if n <= 0 {
        0
    } else {
        let r = result_of(cs[n - 1], charges_on);
        let one: nat = if (won && r.positive()) || (!won && r.negative()) {
            1
        } else {
            0
        };
        outcome_count(cs, charges_on, won, n - 1) + one
    }
}

/// Counts of the closed book: wins, losses, all. A trade that broke even is
/// neither a win nor a loss.
#[derive(Clone, Copy, Debug, PartialEq, Eq, Structural)]
pub struct SmartCounts {
    pub wins: usize,
    pub losses: usize,
    pub total: usize,
}

/// Counts the closed book.
pub fn smart_counts(cs: &Vec<Closed>, charges_on: bool) -> (r: SmartCounts)
    ensures
        r.wins == outcome_count(cs@, charges_on, true, cs@.len() as int),
        r.losses == outcome_count(cs@, charges_on, false, cs@.len() as int),
        r.total == cs@.len(),
{
    let mut wins: usize = 0;
    let mut losses: usize = 0;
    let mut i: usize = 0;
    while i < cs.len()
        invariant
            i <= cs.len(),
            wins <= i,
            losses <= i,
            wins == outcome_count(cs@, charges_on, true, i as int),
            losses == outcome_count(cs@, charges_on, false, i as int),
        decreases cs.len() - i,
    {
        let r = closed_pnl(&cs[i], charges_on);
        if r.is_positive() {
            wins += 1;
        }
        if r.is_negative() {
            losses += 1;
        }
        i += 1;
    }
    SmartCounts { wins, losses, total: cs.len() }
}

/// Wins and losses never exceed the number of trades.
pub proof fn law_outcomes_are_disjoint(cs: Seq<Closed>, charges_on: bool, n: int)
    requires
        0 <= n <= cs.len(),
    ensures
        outcome_count(cs, charges_on, true, n) + outcome_count(
            cs,
            charges_on,
            false,
            n,
        ) <= n,
    decreases n,
{
    if n > 0 {
        law_outcomes_are_disjoint(cs, charges_on, n - 1);
    }
}

/// The day of a moment, counted from the epoch.
pub open spec fn day_of(ms: int) -> int {
    if ms >= 0 {
        ms / 86_400_000
    } else {
        -((-ms) / 86_400_000)
    }
}

fn day_number(ms: i64) -> (r: i64)
    ensures
        r == day_of(ms as int),
{
    let m: i128 = ms as i128;
    if m >= 0 {
        (m / 86_400_000) as i64
    } else {
        -(((-m) / 86_400_000) as i64)
    }
}

/// The trades of a strategy among the first `n`, by their places.
pub open spec fn trades_of(cs: Seq<Closed>, id: Seq<char>, n: int) -> Seq<int>
    decreases n,
{
    if n <= 0 {
        Seq::empty()
    } else if cs[n - 1].strategy_id@ == id {
        trades_of(cs, id, n - 1).push(n - 1)
    } else {
        trades_of(cs, id, n - 1)
    }
}

/// What the closed trades say of one strategy.
#[derive(Debug)]
pub struct StratStats {
    pub name: String,
    /// Places of its trades in the ledger.
    pub trades: Vec<usize>,
    pub wins: usize,
    pub losses: usize,
    /// The days it traded on, rising.
    pub days: Vec<i64>,
    pub last_day: i64,
    /// The trade that last moved `last_day` on, if any did.
    pub last_day_trade: Option<usize>,
}

/// How many of the trades at the places won, or lost.
pub open spec fn won_at(
    cs: Seq<Closed>,
    at: Seq<int>,
    charges_on: bool,
    won: bool,
) -> nat
    decreases at.len(),
{
    if at.len() == 0 {
        0
    } else {
        let r = result_of(cs[at.last()], charges_on);
        let one: nat = if (won && r.positive()) || (!won && r.negative()) {
            1
        } else {
            0
        };
        won_at(cs, at.drop_last(), charges_on, won) + one
    }
}

/// The last day of some trades and the trade that set it: the first of that day.
pub open spec fn last_day_at(cs: Seq<Closed>, at: Seq<int>) -> (int, int)
    decreases at.len(),
{
    if at.len() == 0 {
        (0, -1)
    } else {
        let before = last_day_at(cs, at.drop_last());
        let d = day_of(cs[at.last()].closed_at as int);
        if d > before.0 {
            (d, at.last())
        } else {
            before
        }
    }
}

/// Some trade at the places was closed on the day.
pub open spec fn traded_on(cs: Seq<Closed>, at: Seq<int>, d: i64) -> bool {
    exists|i: int| 0 <= i < at.len() && #[trigger] day_of(cs[at[i]].closed_at as int) == d
}

/// The row says what the trades at the places say.
pub open spec fn stats_are(
    s: StratStats,
    cs: Seq<Closed>,
    at: Seq<int>,
    charges_on: bool,
) -> bool {
    &&& s.trades@.len() == at.len()
    &&& forall|i: int| 0 <= i < at.len() ==> #[trigger] s.trades@[i] == at[i]
    &&& at.len() > 0 ==> s.name@ == cs[at[0]].strategy_name@
    &&& s.wins == won_at(cs, at, charges_on, true)
    &&& s.losses == won_at(cs, at, charges_on, false)
    &&& forall|i: int, j: int|
        0 <= i < j < s.days@.len() ==> #[trigger] s.days@[i] < #[trigger] s.days@[j]
    &&& forall|d: i64| #[trigger] s.days@.contains(d) == traded_on(cs, at, d)
    &&& s.last_day == last_day_at(cs, at).0
    &&& match s.last_day_trade {
        Some(k) => k == last_day_at(cs, at).1,
        None => last_day_at(cs, at).1 < 0,
    }
}

fn stats_for(cs: &Vec<Closed>, id: &str, charges_on: bool) -> (r: StratStats)
    ensures
        stats_are(r, cs@, trades_of(cs@, id@, cs@.len() as int), charges_on),
{
    let mut name = String::new();
    let mut trades: Vec<usize> = Vec::new();
    let mut wins: usize = 0;
    let mut losses: usize = 0;
    let mut days: Vec<i64> = Vec::new();
    let mut last_day: i64 = 0;
    let mut last_day_trade: Option<usize> = None;
    let mut i: usize = 0;
    while i < cs.len()
        invariant
            i <= cs.len(),
            wins <= i,
            losses <= i,
            ({
                let at = trades_of(cs@, id@, i as int);
                &&& trades@.len() == at.len()
                &&& forall|k: int| 0 <= k < at.len() ==> #[trigger] trades@[k] == at[k]
                &&& forall|k: int| 0 <= k < at.len() ==> 0 <= #[trigger] at[k] < i
                &&& at.len() > 0 ==> name@ == cs@[at[0]].strategy_name@
                &&& wins == won_at(cs@, at, charges_on, true)
                &&& losses == won_at(cs@, at, charges_on, false)
                &&& forall|a: int, b: int|
                    0 <= a < b < days@.len() ==> #[trigger] days@[a] < #[trigger] days@[b]
                &&& forall|d: i64| #[trigger] days@.contains(d) == traded_on(cs@, at, d)
                &&& last_day == last_day_at(cs@, at).0
                &&& match last_day_trade {
                    Some(k) => k == last_day_at(cs@, at).1,
                    None => last_day_at(cs@, at).1 < 0,
                }
            }),
        decreases cs.len() - i,
    {
        let ghost at = trades_of(cs@, id@, i as int);
        if text::same(cs[i].strategy_id.as_str(), id) {
            let ghost more = trades_of(cs@, id@, i + 1);
            proof {
                assert(more == at.push(i as int));
                assert(more.drop_last() =~= at);
            }
            if trades.len() == 0 {
                name = cs[i].strategy_name.clone();
            }
            trades.push(i);
            let r = closed_pnl(&cs[i], charges_on);
            if r.is_positive() {
                wins += 1;
            } else if r.is_negative() {
                losses += 1;
            }
            let d = day_number(cs[i].closed_at);
            crate::master::insert_rising(&mut days, d);
            if d > last_day {
                last_day = d;
                last_day_trade = Some(i);
            }
            proof {
                assert forall|x: i64| #[trigger] days@.contains(x) == traded_on(cs@, more, x) by {
                    if traded_on(cs@, at, x) {
                        let k = choose|k: int|
                            0 <= k < at.len() && #[trigger] day_of(cs@[at[k]].closed_at as int)
                                == x;
                        assert(more[k] == at[k]);
                        assert(day_of(cs@[more[k]].closed_at as int) == x);
                    }
                    if x == d {
                        assert(more[at.len() as int] == i);
                        assert(day_of(cs@[more[at.len() as int]].closed_at as int) == x);
                    }
                    if traded_on(cs@, more, x) && x != d {
                        let k = choose|k: int|
                            0 <= k < more.len() && #[trigger] day_of(cs@[more[k]].closed_at as int)
                                == x;
                        assert(k < at.len());
                        assert(at[k] == more[k]);
                        assert(day_of(cs@[at[k]].closed_at as int) == x);
                    }
                }
            }
        }
        i += 1;
    }
    StratStats { name, trades, wins, losses, days, last_day, last_day_trade }
}

/// The strategy has a closed trade.
pub open spec fn has_trades(cs: Seq<Closed>, id: Seq<char>) -> bool {
    id.len() > 0 && exists|i: int| 0 <= i < cs.len() && (#[trigger] cs[i]).strategy_id@ == id
}

/// Aggregates the closed trades per strategy. Trades without a strategy are left
/// out.
pub fn container_stats(cs: &Vec<Closed>, charges_on: bool) -> (r: TextMap<StratStats>)
    ensures
        forall|id: Seq<char>| #![trigger r@.contains_key(id)]
            r@.contains_key(id) == has_trades(cs@, id) && (r@.contains_key(id) ==> stats_are(
                r@[id],
                cs@,
                trades_of(cs@, id, cs@.len() as int),
                charges_on,
            )),
{
    let mut out: TextMap<StratStats> = TextMap::new();
    let mut i: usize = 0;
    while i < cs.len()
        invariant
            i <= cs.len(),
            forall|id: Seq<char>| #![trigger out@.contains_key(id)]
                out@.contains_key(id) == (id.len() > 0 && exists|k: int|
                    0 <= k < i && (#[trigger] cs@[k]).strategy_id@ == id) && (out@.contains_key(id)
                    ==> stats_are(
                    out@[id],
                    cs@,
                    trades_of(cs@, id, cs@.len() as int),
                    charges_on,
                )),
        decreases cs.len() - i,
    {
        let ghost was = out@;
        let ghost this = cs@[i as int].strategy_id@;
        let id = cs[i].strategy_id.as_str();
        if text::chars_of(id).len() > 0 && !out.contains_key(id) {
            let s = stats_for(cs, id, charges_on);
            out.insert(cs[i].strategy_id.clone(), s);
        }
        proof {
            assert forall|id: Seq<char>| #![trigger out@.contains_key(id)]
                out@.contains_key(id) == (id.len() > 0 && exists|k: int|
                    0 <= k < i + 1 && (#[trigger] cs@[k]).strategy_id@ == id) && (
                out@.contains_key(id) ==> stats_are(
                    out@[id],
                    cs@,
                    trades_of(cs@, id, cs@.len() as int),
                    charges_on,
                )) by {
                assert(was.contains_key(id) == (id.len() > 0 && exists|k: int|
                    0 <= k < i && (#[trigger] cs@[k]).strategy_id@ == id));
                if id == this {
                    assert(cs@[i as int].strategy_id@ == id);
                }
            }
        }
        i += 1;
    }
    out
}

/// The last of the first `n` strategies with the id; minus one where there is
/// none.
pub open spec fn last_with(ss: Seq<Strategy>, id: Seq<char>, n: int) -> int
    decreases n,
{
    if n <= 0 {
        -1
    } else if ss[n - 1].id@ == id {
        n - 1
    } else {
        last_with(ss, id, n - 1)
    }
}

/// The strategy that gives a row its category and side.
pub fn described_by(ss: &Vec<Strategy>, id: &str) -> (r: Option<usize>)
    ensures
        match r {
            Some(i) => i == last_with(ss@, id@, ss@.len() as int) && i < ss@.len(),
            None => last_with(ss@, id@, ss@.len() as int) < 0,
        },
{
    let mut n: usize = ss.len();
    while n > 0
        invariant
            n <= ss.len(),
            last_with(ss@, id@, ss@.len() as int) == last_with(ss@, id@, n as int),
        decreases n,
    {
        if text::same(ss[n - 1].id.as_str(), id) {
            return Some(n - 1);
        }
        n -= 1;
    }
    None
}

/// A row of the final list.
#[derive(Clone, Copy, Debug, PartialEq, Eq, Structural)]
pub enum FinalPick {
    /// A strategy with trades, by its place in the container.
    Scored(usize),
    /// A row the operator saved, by its place.
    Saved(usize),
}

/// The scored part of the list: the best ten less the excluded ones.
pub open spec fn scored_part(
    at: Seq<usize>,
    keys: Seq<Seq<char>>,
    excluded: Map<Seq<char>, bool>,
    n: int,
) -> Seq<FinalPick>
    decreases n,
{
    if n <= 0 {
        Seq::empty()
    } else if excluded.contains_key(keys[at[n - 1] as int]) {
        scored_part(at, keys, excluded, n - 1)
    } else {
        scored_part(at, keys, excluded, n - 1).push(FinalPick::Scored(at[n - 1]))
    }
}

/// The key of a pick.
pub open spec fn pick_key(p: FinalPick, keys: Seq<Seq<char>>, saved: Seq<FinalRow>) -> Seq<char> {
    match p {
        FinalPick::Scored(i) => keys[i as int],
        FinalPick::Saved(i) => saved[i as int].key@,
    }
}

/// Some pick of the list has the key.
pub open spec fn listed_key(
    list: Seq<FinalPick>,
    keys: Seq<Seq<char>>,
    saved: Seq<FinalRow>,
    key: Seq<char>,
) -> bool {
    exists|i: int| 0 <= i < list.len() && #[trigger] pick_key(list[i], keys, saved) == key
}

/// The list with the first `n` saved rows appended: those saved by hand that are
/// neither listed nor excluded.
pub open spec fn with_saved(
    list: Seq<FinalPick>,
    keys: Seq<Seq<char>>,
    saved: Seq<FinalRow>,
    excluded: Map<Seq<char>, bool>,
    n: int,
) -> Seq<FinalPick>
    decreases n,
{
    if n <= 0 {
        list
    } else {
        let before = with_saved(list, keys, saved, excluded, n - 1);
        let row = saved[n - 1];
        if row.manual && !listed_key(before, keys, saved, row.key@) && !excluded.contains_key(
            row.key@,
        ) {
            before.push(FinalPick::Saved((n - 1) as usize))
        } else {
            before
        }
    }
}

/// The list is the final list for a ranking of the scores.
pub open spec fn final_list(
    scores: Seq<(i64, i64)>,
    keys: Seq<Seq<char>>,
    saved: Seq<FinalRow>,
    excluded: Map<Seq<char>, bool>,
    r: Seq<FinalPick>,
) -> bool {
    exists|top: Seq<usize>| #[trigger]
        order::leaders(scores, false, 10, top) && r == with_saved(
            scored_part(top, keys, excluded, top.len() as int),
            keys,
            saved,
            excluded,
            saved.len() as int,
        )
}

fn key_of_pick<'a>(p: FinalPick, keys: &'a Vec<String>, saved: &'a Vec<FinalRow>) -> (r: &'a str)
    requires
        match p {
            FinalPick::Scored(i) => i < keys@.len(),
            FinalPick::Saved(i) => i < saved@.len(),
        },
    ensures
        r@ == pick_key(p, text::views(keys@), saved@),
{
    match p {
        FinalPick::Scored(i) => keys[i].as_str(),
        FinalPick::Saved(i) => saved[i].key.as_str(),
    }
}

/// The pick names a place that exists.
pub open spec fn placed(p: FinalPick, keys: int, saved: int) -> bool {
    match p {
        FinalPick::Scored(i) => i < keys,
        FinalPick::Saved(i) => i < saved,
    }
}

fn is_listed(
    list: &Vec<FinalPick>,
    keys: &Vec<String>,
    saved: &Vec<FinalRow>,
    key: &str,
) -> (r: bool)
    requires
        forall|i: int|
            0 <= i < list@.len() ==> placed(
                #[trigger] list@[i],
                keys@.len() as int,
                saved@.len() as int,
            ),
    ensures
        r == listed_key(list@, text::views(keys@), saved@, key@),
{
    let mut i: usize = 0;
    while i < list.len()
        invariant
            i <= list.len(),
            forall|k: int|
                0 <= k < list@.len() ==> placed(
                    #[trigger] list@[k],
                    keys@.len() as int,
                    saved@.len() as int,
                ),
            forall|k: int|
                0 <= k < i ==> #[trigger] pick_key(list@[k], text::views(keys@), saved@) != key@,
        decreases list.len() - i,
    {
        assert(placed(list@[i as int], keys@.len() as int, saved@.len() as int));
        if text::same(key_of_pick(list[i], keys, saved), key) {
            return true;
        }
        i += 1;
    }
    false
}

/// The final list: the ten best scored strategies without the excluded ones,
/// then the rows saved by hand that are not listed yet.
pub fn final_scan(
    scores: &Vec<Num>,
    keys: &Vec<String>,
    saved: &Vec<FinalRow>,
    excluded: &TextMap<bool>,
) -> (r: Vec<FinalPick>)
    requires
        scores@.len() == keys@.len(),
        forall|i: int| 0 <= i < scores@.len() ==> !(#[trigger] scores@[i]).nan,
    ensures
        final_list(score_keys(scores@), text::views(keys@), saved@, excluded@, r@),
{
    let sk = keys_of_scores(scores);
    let top = order::rank_first(&sk, false, 10);
    let ghost kv = text::views(keys@);
    proof {
        lemma_top_in(sk@, top@);
    }
    let mut out: Vec<FinalPick> = Vec::new();
    let mut i: usize = 0;
    while i < top.len()
        invariant
            i <= top.len(),
            kv == text::views(keys@),
            forall|k: int| 0 <= k < top@.len() ==> #[trigger] top@[k] < keys@.len(),
            out@ == scored_part(top@, kv, excluded@, i as int),
            forall|k: int|
                0 <= k < out@.len() ==> placed(
                    #[trigger] out@[k],
                    keys@.len() as int,
                    saved@.len() as int,
                ),
        decreases top.len() - i,
    {
        let at: usize = top[i];
        assert(kv[at as int] == keys@[at as int]@);
        if !excluded.contains_key(keys[at].as_str()) {
            out.push(FinalPick::Scored(at));
        }
        i += 1;
    }
    let ghost part = out@;
    let mut j: usize = 0;
    while j < saved.len()
        invariant
            j <= saved.len(),
            kv == text::views(keys@),
            out@ == with_saved(part, kv, saved@, excluded@, j as int),
            forall|k: int|
                0 <= k < out@.len() ==> placed(
                    #[trigger] out@[k],
                    keys@.len() as int,
                    saved@.len() as int,
                ),
        decreases saved.len() - j,
    {
        let key = saved[j].key.as_str();
        if saved[j].manual && !is_listed(&out, keys, saved, key) && !excluded.contains_key(key) {
            out.push(FinalPick::Saved(j));
        }
        j += 1;
    }
    out
}

/// Scores as ranking keys.
pub open spec fn score_keys(scores: Seq<Num>) -> Seq<(i64, i64)> {
    Seq::new(scores.len(), |i: int| (scores[i].key, 0i64))
}

fn keys_of_scores(scores: &Vec<Num>) -> (r: Vec<(i64, i64)>)
    ensures
        r@ == score_keys(scores@),
{
    let mut v: Vec<(i64, i64)> = Vec::new();
    let mut i: usize = 0;
    while i < scores.len()
        invariant
            i <= scores.len(),
            v@ == score_keys(scores@).take(i as int),
        decreases scores.len() - i,
    {
        v.push((scores[i].key, 0));
        i += 1;
        assert(v@ =~= score_keys(scores@).take(i as int));
    }
    assert(score_keys(scores@).take(i as int) =~= score_keys(scores@));
    v
}

proof fn lemma_top_in(keys: Seq<(i64, i64)>, r: Seq<usize>)
    requires
        order::leaders(keys, false, 10, r),
    ensures
        forall|i: int| 0 <= i < r.len() ==> #[trigger] r[i] < keys.len(),
{
    let full = choose|full: Seq<usize>| #[trigger]
        order::ranking(keys, false, full) && r == order::first(full, 10);
    assert forall|i: int| 0 <= i < r.len() implies #[trigger] r[i] < keys.len() by {
        assert(r[i] == full[i]);
    }
}

proof fn lemma_scored_clean(
    at: Seq<usize>,
    keys: Seq<Seq<char>>,
    saved: Seq<FinalRow>,
    excluded: Map<Seq<char>, bool>,
    n: int,
)
    ensures
        forall|i: int|
            0 <= i < scored_part(at, keys, excluded, n).len() ==> !excluded.contains_key(
                #[trigger] pick_key(scored_part(at, keys, excluded, n)[i], keys, saved),
            ),
    decreases n,
{
    if n > 0 {
        lemma_scored_clean(at, keys, saved, excluded, n - 1);
        let was = scored_part(at, keys, excluded, n - 1);
        let now = scored_part(at, keys, excluded, n);
        assert forall|i: int| 0 <= i < now.len() implies !excluded.contains_key(
            #[trigger] pick_key(now[i], keys, saved),
        ) by {
            if i < was.len() {
                assert(now[i] == was[i]);
                assert(!excluded.contains_key(pick_key(was[i], keys, saved)));
            }
        }
    }
}

proof fn lemma_saved_clean(
    list: Seq<FinalPick>,
    keys: Seq<Seq<char>>,
    saved: Seq<FinalRow>,
    excluded: Map<Seq<char>, bool>,
    n: int,
)
    requires
        0 <= n <= saved.len() <= usize::MAX,
        forall|i: int|
            0 <= i < list.len() ==> !excluded.contains_key(
                #[trigger] pick_key(list[i], keys, saved),
            ),
    ensures
        forall|i: int|
            0 <= i < with_saved(list, keys, saved, excluded, n).len() ==> !excluded.contains_key(
                #[trigger] pick_key(with_saved(list, keys, saved, excluded, n)[i], keys, saved),
            ),
    decreases n,
{
    if n > 0 {
        lemma_saved_clean(list, keys, saved, excluded, n - 1);
        let was = with_saved(list, keys, saved, excluded, n - 1);
        let now = with_saved(list, keys, saved, excluded, n);
        assert forall|i: int| 0 <= i < now.len() implies !excluded.contains_key(
            #[trigger] pick_key(now[i], keys, saved),
        ) by {
            if i < was.len() {
                assert(now[i] == was[i]);
                assert(!excluded.contains_key(pick_key(was[i], keys, saved)));
            } else {
                assert(((n - 1) as usize) as int == n - 1);
            }
        }
    }
}

/// A key the operator removed never returns to the final list.
pub proof fn law_excluded_stays_out(
    scores: Seq<(i64, i64)>,
    keys: Seq<Seq<char>>,
    saved: Seq<FinalRow>,
    excluded: Map<Seq<char>, bool>,
    r: Seq<FinalPick>,
    i: int,
)
    requires
        final_list(scores, keys, saved, excluded, r),
        saved.len() <= usize::MAX,
        0 <= i < r.len(),
    ensures
        !excluded.contains_key(pick_key(r[i], keys, saved)),
{
    let top = choose|top: Seq<usize>| #[trigger]
        order::leaders(scores, false, 10, top) && r == with_saved(
            scored_part(top, keys, excluded, top.len() as int),
            keys,
            saved,
            excluded,
            saved.len() as int,
        );
    let part = scored_part(top, keys, excluded, top.len() as int);
    lemma_scored_clean(top, keys, saved, excluded, top.len() as int);
    lemma_saved_clean(part, keys, saved, excluded, saved.len() as int);
    assert(!excluded.contains_key(pick_key(r[i], keys, saved)));
}

/// The places of the strategies of one side among the first `n`.
pub open spec fn side_places(ss: Seq<Strategy>, bull: bool, n: int) -> Seq<int>
    decreases n,
{
    if n <= 0 {
        Seq::empty()
    } else if model::bullish(ss[n - 1]) == bull {
        side_places(ss, bull, n - 1).push(n - 1)
    } else {
        side_places(ss, bull, n - 1)
    }
}

fn places_of_side(ss: &Vec<Strategy>, bull: bool) -> (r: Vec<usize>)
    ensures
        r@.len() == side_places(ss@, bull, ss@.len() as int).len(),
        forall|i: int|
            0 <= i < r@.len() ==> #[trigger] r@[i] == side_places(ss@, bull, ss@.len() as int)[i]
                && r@[i] < ss@.len(),
{
    let mut out: Vec<usize> = Vec::new();
    let mut i: usize = 0;
    while i < ss.len()
        invariant
            i <= ss.len(),
            out@.len() == side_places(ss@, bull, i as int).len(),
            forall|k: int|
                0 <= k < out@.len() ==> #[trigger] out@[k] == side_places(ss@, bull, i as int)[k]
                    && out@[k] < i,
        decreases ss.len() - i,
    {
        if model::strategy_is_bull(&ss[i]) == bull {
            out.push(i);
        }
        i += 1;
    }
    out
}

/// The scores at some places, as ranking keys.
pub open spec fn scores_at(scores: Seq<Num>, at: Seq<int>) -> Seq<(i64, i64)> {
    Seq::new(at.len(), |i: int| (scores[at[i]].key, 0i64))
}

/// The picks of one side: the `n` best scored, ties by their order.
pub open spec fn side_picks(
    ss: Seq<Strategy>,
    scores: Seq<Num>,
    bull: bool,
    n: int,
    r: Seq<Seq<char>>,
) -> bool {
    let at = side_places(ss, bull, ss.len() as int);
    exists|top: Seq<usize>| #[trigger]
        order::leaders(scores_at(scores, at), false, n, top) && r == Seq::new(
            top.len(),
            |i: int| ss[at[top[i] as int]].id@,
        )
}

fn picks_of_side(ss: &Vec<Strategy>, scores: &Vec<Num>, bull: bool, n: i64) -> (r: Vec<String>)
    requires
        ss@.len() == scores@.len(),
    ensures
        side_picks(ss@, scores@, bull, n as int, text::views(r@)),
{
    let at = places_of_side(ss, bull);
    let ghost sp = side_places(ss@, bull, ss@.len() as int);
    let mut keys: Vec<(i64, i64)> = Vec::new();
    let mut i: usize = 0;
    while i < at.len()
        invariant
            i <= at.len(),
            ss@.len() == scores@.len(),
            at@.len() == sp.len(),
            forall|k: int| 0 <= k < at@.len() ==> #[trigger] at@[k] == sp[k] && at@[k] < ss@.len(),
            keys@ == scores_at(scores@, sp).take(i as int),
        decreases at.len() - i,
    {
        assert(at@[i as int] == sp[i as int]);
        keys.push((scores[at[i]].key, 0));
        i += 1;
        assert(keys@ =~= scores_at(scores@, sp).take(i as int));
    }
    assert(keys@ =~= scores_at(scores@, sp));
    let top = order::rank_first(&keys, false, n);
    proof {
        let full = choose|full: Seq<usize>| #[trigger]
            order::ranking(keys@, false, full) && top@ == order::first(full, n as int);
        assert forall|k: int| 0 <= k < top@.len() implies #[trigger] top@[k] < keys@.len() by {
            assert(top@[k] == full[k]);
        }
    }
    let mut out: Vec<String> = Vec::new();
    let mut j: usize = 0;
    while j < top.len()
        invariant
            j <= top.len(),
            at@.len() == sp.len(),
            forall|k: int| 0 <= k < at@.len() ==> #[trigger] at@[k] == sp[k] && at@[k] < ss@.len(),
            forall|k: int| 0 <= k < top@.len() ==> #[trigger] top@[k] < at@.len(),
            out@.len() == j,
            forall|k: int|
                0 <= k < j ==> (#[trigger] out@[k])@ == ss@[sp[top@[k] as int]].id@,
        decreases top.len() - j,
    {
        let p: usize = top[j];
        assert(at@[p as int] == sp[p as int]);
        out.push(ss[at[p]].id.clone());
        j += 1;
    }
    proof {
        assert(order::leaders(scores_at(scores@, sp), false, n as int, top@));
        assert(text::views(out@) =~= Seq::new(top@.len(), |i: int| ss@[sp[top@[i] as int]].id@));
    }
    out
}

/// The automatic picks of a side that is off, or on.
pub open spec fn picks_if(
    on: bool,
    ss: Seq<Strategy>,
    scores: Seq<Num>,
    bull: bool,
    n: int,
    r: Seq<Seq<char>>,
) -> bool {
    if on {
        side_picks(ss, scores, bull, n, r)
    } else {
        r.len() == 0
    }
}

/// The strategies picked automatically: on each side that is on the best scored
/// ones, at least one, the bullish side first. `scores` holds a score for every
/// strategy, nothing for one without trades.
pub fn ai_pick_ids(d: &RtDoc, scores: &Vec<Num>) -> (r: Vec<String>)
    requires
        d.strategies@.len() == scores@.len(),
        forall|i: int| 0 <= i < scores@.len() ==> !(#[trigger] scores@[i]).nan,
    ensures
        ({
            let n = if d.settings.ai_pick_n < 1 {
                1
            } else {
                d.settings.ai_pick_n as int
            };
            exists|a: Seq<Seq<char>>, b: Seq<Seq<char>>|
                picks_if(d.settings.ai_pick_bull, d.strategies@, scores@, true, n, a) && picks_if(
                    d.settings.ai_pick_bear,
                    d.strategies@,
                    scores@,
                    false,
                    n,
                    b,
                ) && text::views(r@) == #[trigger] (a + b)
        }),
{
    let n: i64 = if d.settings.ai_pick_n < 1 {
        1
    } else {
        d.settings.ai_pick_n
    };
    let mut out: Vec<String> = if d.settings.ai_pick_bull {
        picks_of_side(&d.strategies, scores, true, n)
    } else {
        Vec::new()
    };
    let mut down: Vec<String> = if d.settings.ai_pick_bear {
        picks_of_side(&d.strategies, scores, false, n)
    } else {
        Vec::new()
    };
    let ghost a = text::views(out@);
    let ghost b = text::views(down@);
    out.append(&mut down);
    assert(text::views(out@) =~= a + b);
    out
}

/// The container's summary.
#[derive(Debug)]
pub struct ContainerSummary {
    pub strategies: usize,
    pub bullish: usize,
    pub bearish: usize,
    pub staged: usize,
    pub deployed: usize,
}

/// How many of the first `n` strategies are bullish.
pub open spec fn bull_count(ss: Seq<Strategy>, n: int) -> nat
    decreases n,
{
    if n <= 0 {
        0
    } else {
        bull_count(ss, n - 1) + (if model::bullish(ss[n - 1]) {
            1nat
        } else {
            0nat
        })
    }
}

/// Sums up the document.
pub fn container_summary(d: &RtDoc) -> (r: ContainerSummary)
    ensures
        r.strategies == d.strategies@.len(),
        r.bullish == bull_count(d.strategies@, d.strategies@.len() as int),
        r.bearish == r.strategies - r.bullish,
        r.staged == d.staging@.len(),
        r.deployed == d.selected@.dom().len(),
{
    let mut bull: usize = 0;
    let mut i: usize = 0;
    while i < d.strategies.len()
        invariant
            i <= d.strategies.len(),
            bull <= i,
            bull == bull_count(d.strategies@, i as int),
        decreases d.strategies.len() - i,
    {
        if model::strategy_is_bull(&d.strategies[i]) {
            bull += 1;
        }
        i += 1;
    }
    let n: usize = d.strategies.len();
    ContainerSummary {
        strategies: n,
        bullish: bull,
        bearish: n - bull,
        staged: d.staging.len(),
        deployed: d.selected.len(),
    }
}

/// The result of a closed trade: with charges deducted the net one where it is stored,
/// else the gross one.
pub proof fn law_result_of_a_trade(c: Closed)
    ensures
        result_of(c, false) == c.pnl,
        c.net_pnl matches NetPnl::Net(n) ==> result_of(c, true) == n,
        !(c.net_pnl is Net) ==> result_of(c, true) == c.pnl,
{
}

/// A trade counts as won with a result above zero and as lost with one below; one that
/// breaks even counts as neither.
pub proof fn law_outcomes_by_sign(cs: Seq<Closed>, charges_on: bool, n: int)
    requires
        0 < n <= cs.len(),
    ensures
        ({
            let r = result_of(cs[n - 1], charges_on);
            &&& outcome_count(cs, charges_on, true, n) - outcome_count(cs, charges_on, true, n - 1)
                == if !r.nan && r.key > 0 {
                1int
            } else {
                0int
            }
            &&& outcome_count(cs, charges_on, false, n) - outcome_count(
                cs,
                charges_on,
                false,
                n - 1,
            ) == if !r.nan && r.key < 0 {
                1int
            } else {
                0int
            }
            &&& outcome_count(cs, charges_on, true, 0) == 0
        }),
{
}

/// The trades of a strategy are all of its own, in order.
pub proof fn law_trades_of_a_strategy(cs: Seq<Closed>, id: Seq<char>, n: int)
    requires
        0 < n <= cs.len(),
    ensures
        trades_of(cs, id, n) == trades_of(cs, id, n - 1) + if cs[n - 1].strategy_id@ == id {
            seq![n - 1]
        } else {
            Seq::empty()
        },
        trades_of(cs, id, 0).len() == 0,
{
    let was = trades_of(cs, id, n - 1);
    assert(was + seq![n - 1] =~= was.push(n - 1));
    assert(was + Seq::<int>::empty() =~= was);
}

/// The winners and losers among some trades, one by one.
pub proof fn law_won_one_by_one(cs: Seq<Closed>, at: Seq<int>, k: int, charges_on: bool)
    ensures
        ({
            let r = result_of(cs[k], charges_on);
            &&& won_at(cs, at.push(k), charges_on, true) - won_at(cs, at, charges_on, true) == if !r.nan
                && r.key > 0 {
                1int
            } else {
                0int
            }
            &&& won_at(cs, at.push(k), charges_on, false) - won_at(cs, at, charges_on, false)
                == if !r.nan && r.key < 0 {
                1int
            } else {
                0int
            }
            &&& won_at(cs, Seq::empty(), charges_on, true) == 0
        }),
{
    assert(at.push(k).drop_last() =~= at);
}

/// The last day of some trades is not before the day of any of them, and it is the day of
/// the trade that set it; trades of the first day alone, or before it, set none.
pub proof fn law_last_day_is_the_last(cs: Seq<Closed>, at: Seq<int>)
    ensures
        forall|i: int|
            0 <= i < at.len() ==> day_of(cs[#[trigger] at[i]].closed_at as int) <= last_day_at(
                cs,
                at,
            ).0,
        last_day_at(cs, at) == (0int, -1int) || at.contains(last_day_at(cs, at).1) && day_of(
            cs[last_day_at(cs, at).1].closed_at as int,
        ) == last_day_at(cs, at).0 && last_day_at(cs, at).0 > 0,
    decreases at.len(),
{
    if at.len() > 0 {
        let less = at.drop_last();
        law_last_day_is_the_last(cs, less);
        assert forall|i: int| 0 <= i < at.len() implies day_of(
            cs[#[trigger] at[i]].closed_at as int,
        ) <= last_day_at(cs, at).0 by {
            if i < less.len() {
                assert(less[i] == at[i]);
            }
        }
        let t = last_day_at(cs, less).1;
        if less.contains(t) {
            let k = choose|k: int| 0 <= k < less.len() && less[k] == t;
            assert(at[k] == t);
        }
        assert(at[at.len() - 1] == at.last());
    }
}

/// A day has eighty-six million four hundred thousand milliseconds, counted away from the
/// epoch on either side.
pub proof fn law_days_from_the_epoch(ms: int)
    requires
        ms >= 0,
    ensures
        day_of(ms) * 86_400_000 <= ms < (day_of(ms) + 1) * 86_400_000,
        day_of(-ms) == -day_of(ms),
{
}

/// The scored part of the final list is the ranking without what the operator removed, in
/// its order.
pub proof fn law_scored_part_keeps_the_ranking(
    at: Seq<usize>,
    keys: Seq<Seq<char>>,
    excluded: Map<Seq<char>, bool>,
    n: int,
)
    requires
        0 < n <= at.len(),
    ensures
        scored_part(at, keys, excluded, n) == scored_part(at, keys, excluded, n - 1)
            + if excluded.dom().contains(keys[at[n - 1] as int]) {
            Seq::empty()
        } else {
            seq![FinalPick::Scored(at[n - 1])]
        },
        scored_part(at, keys, excluded, 0).len() == 0,
{
    let was = scored_part(at, keys, excluded, n - 1);
    assert(was + seq![FinalPick::Scored(at[n - 1])] =~= was.push(FinalPick::Scored(at[n - 1])));
    assert(was + Seq::<FinalPick>::empty() =~= was);
}

/// A saved row joins the final list where it was saved by hand, is not listed yet and was
/// not removed.
pub proof fn law_saved_rows_join(
    list: Seq<FinalPick>,
    keys: Seq<Seq<char>>,
    saved: Seq<FinalRow>,
    excluded: Map<Seq<char>, bool>,
    n: int,
)
    requires
        0 < n <= saved.len(),
        saved.len() <= usize::MAX,
    ensures
        ({
            let before = with_saved(list, keys, saved, excluded, n - 1);
            let row = saved[n - 1];
            let there = exists|i: int|
                0 <= i < before.len() && #[trigger] pick_key(before[i], keys, saved) == row.key@;
            with_saved(list, keys, saved, excluded, n) == before + if row.manual && !there
                && !excluded.dom().contains(row.key@) {
                seq![FinalPick::Saved((n - 1) as usize)]
            } else {
                Seq::empty()
            }
        }),
        with_saved(list, keys, saved, excluded, 0) == list,
{
    let before = with_saved(list, keys, saved, excluded, n - 1);
    assert(before + seq![FinalPick::Saved((n - 1) as usize)] =~= before.push(
        FinalPick::Saved((n - 1) as usize),
    ));
    assert(before + Seq::<FinalPick>::empty() =~= before);
}

/// The bulls and the bears of a list are all of its strategies, each on one side.
pub proof fn law_sides_split_the_strategies(ss: Seq<Strategy>, n: int)
    requires
        0 <= n <= ss.len(),
    ensures
        side_places(ss, true, n).len() == bull_count(ss, n),
        side_places(ss, true, n).len() + side_places(ss, false, n).len() == n,
        n > 0 && model::bullish(ss[n - 1]) ==> side_places(ss, true, n) == side_places(
            ss,
            true,
            n - 1,
        ).push(n - 1),
        n > 0 && !model::bullish(ss[n - 1]) ==> side_places(ss, false, n) == side_places(
            ss,
            false,
            n - 1,
        ).push(n - 1),
    decreases n,
{
    if n > 0 {
        law_sides_split_the_strategies(ss, n - 1);
    }
}

proof fn lemma_last_with(ss: Seq<Strategy>, id: Seq<char>, n: int)
    requires
        0 <= n <= ss.len(),
    ensures
        -1 <= last_with(ss, id, n) < n || n == 0 && last_with(ss, id, n) == -1,
        last_with(ss, id, n) >= 0 ==> ss[last_with(ss, id, n)].id@ == id,
        forall|i: int| last_with(ss, id, n) < i < n && i >= 0 ==> (#[trigger] ss[i]).id@ != id,
    decreases n,
{
    if n > 0 {
        lemma_last_with(ss, id, n - 1);
    }
}

/// The strategy of an id is the last one saved under it.
pub proof fn law_last_saved_counts(ss: Seq<Strategy>, id: Seq<char>)
    ensures
        ({
            let k = last_with(ss, id, ss.len() as int);
            &&& k < 0 <==> forall|i: int| 0 <= i < ss.len() ==> (#[trigger] ss[i]).id@ != id
            &&& k >= 0 ==> k < ss.len() && ss[k].id@ == id && forall|i: int|
                k < i < ss.len() ==> (#[trigger] ss[i]).id@ != id
        }),
{
    lemma_last_with(ss, id, ss.len() as int);
}

/// A day counts as traded where one of the trades closed on it.
pub proof fn law_traded_days(cs: Seq<Closed>, at: Seq<int>, k: int, d: i64)
    ensures
        traded_on(cs, at.push(k), d) <==> traded_on(cs, at, d) || day_of(cs[k].closed_at as int)
            == d,
        !traded_on(cs, Seq::empty(), d),
{
    let all = at.push(k);
    assert(all[at.len() as int] == k);
    if traded_on(cs, at, d) {
        let i = choose|i: int|
            0 <= i < at.len() && #[trigger] day_of(cs[at[i]].closed_at as int) == d;
        assert(all[i] == at[i]);
        assert(day_of(cs[all[i]].closed_at as int) == d);
    }
    if day_of(cs[k].closed_at as int) == d {
        assert(day_of(cs[all[at.len() as int]].closed_at as int) == d);
    }
    if traded_on(cs, all, d) {
        let i = choose|i: int|
            0 <= i < all.len() && #[trigger] day_of(cs[all[i]].closed_at as int) == d;
        if i < at.len() {
            assert(all[i] == at[i]);
            assert(day_of(cs[at[i]].closed_at as int) == d);
        }
    }
}

/// The row of a strategy says of its trades what they are: which, under the name of the
/// first, how many won and lost, on which days, rising, and which day was the last.
pub proof fn law_rows_say_what_trades_are(s: StratStats, cs: Seq<Closed>, at: Seq<int>, charges_on: bool)
    requires
        stats_are(s, cs, at, charges_on),
    ensures
        s.trades@.len() == at.len(),
        forall|i: int| 0 <= i < at.len() ==> #[trigger] s.trades@[i] == at[i],
        at.len() > 0 ==> s.name@ == cs[at[0]].strategy_name@,
        s.wins == won_at(cs, at, charges_on, true),
        s.losses == won_at(cs, at, charges_on, false),
        forall|d: i64| #[trigger] s.days@.contains(d) <==> traded_on(cs, at, d),
        forall|i: int, j: int|
            0 <= i < j < s.days@.len() ==> #[trigger] s.days@[i] < #[trigger] s.days@[j],
        s.last_day == last_day_at(cs, at).0,
        s.last_day_trade is Some ==> s.last_day_trade->0 == last_day_at(cs, at).1,
        s.last_day_trade is None ==> last_day_at(cs, at).1 < 0,
{
}

/// A strategy has trades where one of them carries its id, which is not empty.
pub proof fn law_who_has_trades(cs: Seq<Closed>, c: Closed, id: Seq<char>)
    requires
        id.len() > 0,
    ensures
        has_trades(cs.push(c), id) <==> has_trades(cs, id) || c.strategy_id@ == id,
        !has_trades(Seq::empty(), id),
        !has_trades(cs, Seq::empty()),
{
    let all = cs.push(c);
    assert(all[cs.len() as int] == c);
    if has_trades(cs, id) {
        let i = choose|i: int| 0 <= i < cs.len() && (#[trigger] cs[i]).strategy_id@ == id;
        assert(all[i] == cs[i]);
    }
    if has_trades(all, id) {
        let i = choose|i: int| 0 <= i < all.len() && (#[trigger] all[i]).strategy_id@ == id;
        if i < cs.len() {
            assert(cs[i] == all[i]);
        }
    }
}

} // verus!
