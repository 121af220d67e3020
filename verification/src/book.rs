//! The book: open positions and closed trades, and what happens to them.

use vstd::prelude::*;
use crate::num::Num;
use crate::text;

verus! {

/// An open position. Prices and amounts are order keys.
#[derive(Debug)]
pub struct Position {
    pub id: String,
    pub strategy_id: String,
    pub strategy_name: String,
    pub method: String,
    pub security_id: i64,
    pub exchange_segment: String,
    pub instrument: String,
    pub trading_symbol: String,
    pub underlying: String,
    pub side: String,
    pub qty: i64,
    pub lots: i64,
    pub lot_size: Num,
    pub filled_qty: i64,
    pub entry: Num,
    pub fill_price: Num,
    pub ltp: Num,
    pub sl: Num,
    pub overall_sl: Num,
    pub sl_trailed: bool,
    pub tp: Num,
    pub trail: Num,
    pub point_trail: Num,
    pub trail_tp: Num,
    pub peak_profit: Num,
    pub best: Num,
    pub order_ids: Vec<String>,
    pub super_orders: Vec<String>,
    /// The broker holds the exit legs.
    pub broker: bool,
    /// The broker confirmed the fill.
    pub reconciled: bool,
    pub nifty_pick: bool,
    pub status: String,
    pub order_type: String,
    pub limit_price: Num,
    pub opened_at: i64,
}

/// What a closed trade stores as its net result.
#[derive(Clone, Copy, Debug, PartialEq, Eq, Structural)]
pub enum NetPnl {
    /// Nothing is stored.
    Absent,
    /// The trade was banked gross.
    Gross,
    Net(Num),
}

/// A closed trade.
#[derive(Debug)]
pub struct Closed {
    pub id: String,
    pub position_id: String,
    pub strategy_id: String,
    pub strategy_name: String,
    pub method: String,
    pub security_id: i64,
    pub exchange_segment: String,
    pub instrument: String,
    pub trading_symbol: String,
    pub side: String,
    pub qty: i64,
    pub lots: i64,
    pub lot_size: Num,
    pub entry: Num,
    pub exit: Num,
    pub pnl: Num,
    pub charges: Num,
    pub net_pnl: NetPnl,
    pub charges_segment: String,
    pub reason: String,
    pub exit_order_ids: Vec<String>,
    /// The exit price is still an estimate.
    pub exit_pending: bool,
    pub opened_at: i64,
    pub closed_at: i64,
}

/// The place of the first position with the id, or the length.
pub open spec fn place_of(ps: Seq<Position>, id: Seq<char>, i: int) -> int
    decreases ps.len() - i,
{
    if i >= ps.len() {
        ps.len() as int
    } else if ps[i].id@ == id {
        i
    } else {
        place_of(ps, id, i + 1)
    }
}

proof fn lemma_place_of(ps: Seq<Position>, id: Seq<char>, i: int)
    requires
        0 <= i <= ps.len(),
    ensures
        i <= place_of(ps, id, i) <= ps.len(),
        place_of(ps, id, i) < ps.len() ==> ps[place_of(ps, id, i)].id@ == id,
        forall|k: int| i <= k < place_of(ps, id, i) ==> (#[trigger] ps[k]).id@ != id,
    decreases ps.len() - i,
{
    if i < ps.len() && ps[i].id@ != id {
        lemma_place_of(ps, id, i + 1);
    }
}

/// The place of the position with the id.
pub fn find_position(ps: &Vec<Position>, id: &str) -> (r: Option<usize>)
    ensures
        match r {
            Some(i) => i == place_of(ps@, id@, 0) && i < ps@.len(),
            None => place_of(ps@, id@, 0) == ps@.len(),
        },
{
    let mut i: usize = 0;
    while i < ps.len()
        invariant
            i <= ps.len(),
            place_of(ps@, id@, 0) == place_of(ps@, id@, i as int),
        decreases ps.len() - i,
    {
        if text::same(ps[i].id.as_str(), id) {
            return Some(i);
        }
        i += 1;
    }
    None
}

/// An exit of the position is under way.
pub open spec fn is_closing(p: Position) -> bool {
    text::downs(p.status@) == "closing"@
}

/// Whether an exit of the position is under way.
pub fn closing(p: &Position) -> (r: bool)
    ensures
        r == is_closing(*p),
{
    let l = text::to_ascii_lower(p.status.as_str());
    text::same(l.as_str(), "closing")
}

/// The position with its exit claimed.
pub open spec fn claimed(p: Position, q: Position) -> bool {
    q.status@ == "closing"@ && q == Position { status: q.status, ..p }
}

/// Claims the exit of a position, so that no second exit can start. `None`
/// where there is no such position or its exit is claimed already.
pub fn claim(ps: &mut Vec<Position>, id: &str) -> (r: Option<usize>)
    ensures
        ({
            let i = place_of(old(ps)@, id@, 0);
            if i == old(ps)@.len() || is_closing(old(ps)@[i]) {
                r is None && final(ps)@ == old(ps)@
            } else {
                &&& r == Some(i as usize)
                &&& i < final(ps)@.len()
                &&& claimed(old(ps)@[i], final(ps)@[i])
                &&& final(ps)@ == old(ps)@.update(i, final(ps)@[i])
            }
        }),
{
    proof {
        lemma_place_of(ps@, id@, 0);
    }
    let at = match find_position(ps, id) {
        Some(i) => i,
        None => {
            return None;
        },
    };
    if closing(&ps[at]) {
        return None;
    }
    let p = &mut ps[at];
    p.status = "closing".to_owned();
    Some(at)
}

/// After a claim the position is closing, and a second claim finds nothing: one
/// position never gets two exits.
pub proof fn law_claim_once(before: Seq<Position>, p: Position, id: Seq<char>)
    requires
        ({
            let i = place_of(before, id, 0);
            i < before.len() && claimed(before[i], p)
        }),
    ensures
        ({
            let after = before.update(place_of(before, id, 0), p);
            let i = place_of(after, id, 0);
            i < after.len() && is_closing(after[i])
        }),
{
    let i = place_of(before, id, 0);
    lemma_place_of(before, id, 0);
    let after = before.update(i, p);
    lemma_place_of(after, id, 0);
    let j = place_of(after, id, 0);
    assert(after[i].id@ == id);
    if j < i {
        assert(before[j].id@ == id);
    }
    assert(j == i);
    reveal_strlit("closing");
    assert(text::downs("closing"@) =~= "closing"@);
}

/// The positions without those of an id.
pub open spec fn without_id(ps: Seq<Position>, id: Seq<char>) -> Seq<Position>
    decreases ps.len(),
{
    if ps.len() == 0 {
        ps
    } else if ps.last().id@ == id {
        without_id(ps.drop_last(), id)
    } else {
        without_id(ps.drop_last(), id).push(ps.last())
    }
}

/// Books an entry: the position joins the book, behind those that are open.
pub fn book_open(ps: &mut Vec<Position>, p: Position)
    ensures
        final(ps)@ == old(ps)@.push(p),
{
    ps.push(p);
}

/// Books a close: the position leaves the book and the trade joins the ledger.
pub fn book_close(ps: &mut Vec<Position>, ledger: &mut Vec<Closed>, id: &str, row: Closed)
    ensures
        final(ps)@ == without_id(old(ps)@, id@),
        final(ledger)@ == old(ledger)@.push(row),
{
    let mut keep: Vec<Position> = Vec::new();
    let mut rest: Vec<Position> = Vec::new();
    core::mem::swap(&mut rest, ps);
    let ghost all = rest@;
    assert(all.take(all.len() as int) =~= all);
    while rest.len() > 0
        invariant
            rest@ == all.take(rest@.len() as int),
            rest@.len() <= all.len(),
            without_id(all, id@) == without_id(rest@, id@) + keep@.reverse(),
        decreases rest@.len(),
    {
        let ghost was = rest@;
        let ghost kept = keep@;
        match rest.pop() {
            Some(p) => {
                assert(was.drop_last() =~= rest@);
                let drop = text::same(p.id.as_str(), id);
                if !drop {
                    keep.push(p);
                    assert(keep@.reverse() =~= seq![p] + kept.reverse());
                    assert(without_id(was.drop_last(), id@).push(p) + kept.reverse()
                        =~= without_id(was.drop_last(), id@) + (seq![p] + kept.reverse()));
                }
                assert(rest@ =~= all.take(rest@.len() as int));
            },
            None => {},
        }
    }
    assert(without_id(rest@, id@) =~= Seq::<Position>::empty());
    reverse_into(&mut keep, ps);
    ledger.push(row);
}

fn reverse_into(src: &mut Vec<Position>, out: &mut Vec<Position>)
    requires
        old(out)@.len() == 0,
    ensures
        final(out)@ == old(src)@.reverse(),
{
    let ghost all = src@;
    while src.len() > 0
        invariant
            src@.len() <= all.len(),
            src@ == all.take(src@.len() as int),
            out@ == all.skip(src@.len() as int).reverse(),
        decreases src@.len(),
    {
        let ghost n = src@.len() as int;
        match src.pop() {
            Some(p) => {
                out.push(p);
                assert(p == all[n - 1]);
                assert(all.skip(n - 1).reverse() =~= all.skip(n).reverse().push(p));
                assert(src@ =~= all.take(n - 1));
            },
            None => {},
        }
    }
    assert(all.skip(0) =~= all);
}

/// Booking a close leaves no position with the id and every other position as
/// and where it was.
pub proof fn law_close_removes_only_its_position(ps: Seq<Position>, id: Seq<char>, p: Position)
    ensures
        without_id(ps, id).contains(p) == (ps.contains(p) && p.id@ != id),
        without_id(ps, id).len() <= ps.len(),
    decreases ps.len(),
{
    if ps.len() > 0 {
        law_close_removes_only_its_position(ps.drop_last(), id, p);
        let init = ps.drop_last();
        let w = without_id(init, id);
        if ps.contains(p) {
            let i = choose|i: int| 0 <= i < ps.len() && ps[i] == p;
            if i < init.len() {
                assert(init[i] == p);
            }
        }
        if init.contains(p) {
            let i = choose|i: int| 0 <= i < init.len() && init[i] == p;
            assert(ps[i] == p);
        }
        assert(ps[ps.len() - 1] == ps.last());
        if ps.last().id@ != id {
            let v = w.push(ps.last());
            assert(v[w.len() as int] == ps.last());
            if w.contains(p) {
                let i = choose|i: int| 0 <= i < w.len() && w[i] == p;
                assert(v[i] == p);
            }
            if v.contains(p) {
                let i = choose|i: int| 0 <= i < v.len() && v[i] == p;
                if i < w.len() {
                    assert(w[i] == p);
                }
            }
        }
    }
}

/// How many of the positions belong to a strategy.
pub open spec fn open_count(ps: Seq<Position>, strategy: Seq<char>) -> nat
    decreases ps.len(),
{
    if ps.len() == 0 {
        0
    } else {
        open_count(ps.drop_last(), strategy) + (if ps.last().strategy_id@ == strategy {
            1nat
        } else {
            0nat
        })
    }
}

/// How many of the closed trades belong to a strategy.
pub open spec fn closed_count(cs: Seq<Closed>, strategy: Seq<char>) -> nat
    decreases cs.len(),
{
    if cs.len() == 0 {
        0
    } else {
        closed_count(cs.drop_last(), strategy) + (if cs.last().strategy_id@ == strategy {
            1nat
        } else {
            0nat
        })
    }
}

/// How many positions a strategy has open.
pub fn running_count(ps: &Vec<Position>, strategy: &str) -> (r: usize)
    ensures
        r == open_count(ps@, strategy@),
        r <= ps@.len(),
{
    let mut n: usize = 0;
    let mut i: usize = 0;
    assert(ps@.take(0) =~= Seq::<Position>::empty());
    while i < ps.len()
        invariant
            i <= ps.len(),
            n <= i,
            n == open_count(ps@.take(i as int), strategy@),
        decreases ps.len() - i,
    {
        proof {
            assert(ps@.take(i + 1).drop_last() =~= ps@.take(i as int));
            assert(ps@.take(i + 1).last() == ps@[i as int]);
        }
        if text::same(ps[i].strategy_id.as_str(), strategy) {
            n += 1;
        }
        i += 1;
    }
    assert(ps@.take(i as int) =~= ps@);
    n
}

fn closed_trades(cs: &Vec<Closed>, strategy: &str) -> (r: usize)
    ensures
        r == closed_count(cs@, strategy@),
        r <= cs@.len(),
{
    let mut n: usize = 0;
    let mut i: usize = 0;
    assert(cs@.take(0) =~= Seq::<Closed>::empty());
    while i < cs.len()
        invariant
            i <= cs.len(),
            n <= i,
            n == closed_count(cs@.take(i as int), strategy@),
        decreases cs.len() - i,
    {
        proof {
            assert(cs@.take(i + 1).drop_last() =~= cs@.take(i as int));
            assert(cs@.take(i + 1).last() == cs@[i as int]);
        }
        if text::same(cs[i].strategy_id.as_str(), strategy) {
            n += 1;
        }
        i += 1;
    }
    assert(cs@.take(i as int) =~= cs@);
    n
}

/// Trades a strategy has taken, open and closed.
pub fn trades_done(ps: &Vec<Position>, cs: &Vec<Closed>, strategy: &str) -> (r: i64)
    requires
        ps@.len() + cs@.len() <= i64::MAX,
    ensures
        r == open_count(ps@, strategy@) + closed_count(cs@, strategy@),
{
    let a = running_count(ps, strategy);
    let b = closed_trades(cs, strategy);
    a as i64 + b as i64
}

proof fn lemma_open_count_without(ps: Seq<Position>, id: Seq<char>, strategy: Seq<char>)
    requires
        forall|i: int|
            0 <= i < ps.len() && (#[trigger] ps[i]).id@ == id ==> ps[i].strategy_id@ != strategy,
    ensures
        open_count(without_id(ps, id), strategy) == open_count(ps, strategy),
    decreases ps.len(),
{
    if ps.len() > 0 {
        let init = ps.drop_last();
        assert forall|i: int|
            0 <= i < init.len() && (#[trigger] init[i]).id@ == id implies init[i].strategy_id@
            != strategy by {
            assert(ps[i] == init[i]);
        }
        lemma_open_count_without(init, id, strategy);
        assert(ps.last() == ps[ps.len() - 1]);
        if ps.last().id@ != id {
            let w = without_id(init, id);
            assert(w.push(ps.last()).drop_last() =~= w);
        }
    }
}

proof fn lemma_one_leaves(ps: Seq<Position>, id: Seq<char>, at: int)
    requires
        0 <= at < ps.len(),
        ps[at].id@ == id,
        forall|i: int, j: int|
            0 <= i < j < ps.len() ==> (#[trigger] ps[i]).id@ != (#[trigger] ps[j]).id@,
    ensures
        open_count(without_id(ps, id), ps[at].strategy_id@) == open_count(
            ps,
            ps[at].strategy_id@,
        ) - 1,
    decreases ps.len(),
{
    let s = ps[at].strategy_id@;
    let init = ps.drop_last();
    assert(ps.last() == ps[ps.len() - 1]);
    if at == ps.len() - 1 {
        assert forall|i: int|
            0 <= i < init.len() && (#[trigger] init[i]).id@ == id implies init[i].strategy_id@
            != s by {
            assert(ps[i] == init[i]);
            assert(ps[i].id@ != ps[at].id@);
        }
        lemma_open_count_without(init, id, s);
    } else {
        assert(ps[at].id@ != ps[ps.len() - 1].id@);
        assert forall|i: int, j: int| 0 <= i < j < init.len() implies (#[trigger] init[i]).id@ != (
        #[trigger] init[j]).id@ by {
            assert(ps[i] == init[i] && ps[j] == init[j]);
        }
        assert(init[at] == ps[at]);
        lemma_one_leaves(init, id, at);
        let w = without_id(init, id);
        assert(w.push(ps.last()).drop_last() =~= w);
    }
}

/// Closing a trade keeps the count of trades taken: what leaves the open book
/// joins the closed one, as long as positions have distinct ids.
pub proof fn law_close_keeps_trades_done(
    ps: Seq<Position>,
    cs: Seq<Closed>,
    at: int,
    row: Closed,
)
    requires
        0 <= at < ps.len(),
        forall|i: int, j: int|
            0 <= i < j < ps.len() ==> (#[trigger] ps[i]).id@ != (#[trigger] ps[j]).id@,
        row.strategy_id@ == ps[at].strategy_id@,
    ensures
        ({
            let s = row.strategy_id@;
            open_count(without_id(ps, ps[at].id@), s) + closed_count(cs.push(row), s)
                == open_count(ps, s) + closed_count(cs, s)
        }),
{
    lemma_one_leaves(ps, ps[at].id@, at);
    assert(cs.push(row).drop_last() =~= cs);
}

/// Closing a position undoes its entry: where no other position has its id, the
/// book is as it was before.
pub proof fn law_close_undoes_open(ps: Seq<Position>, p: Position)
    requires
        forall|i: int| 0 <= i < ps.len() ==> (#[trigger] ps[i]).id@ != p.id@,
    ensures
        without_id(ps.push(p), p.id@) == ps,
{
    assert(ps.push(p).drop_last() =~= ps);
    lemma_none_leaves(ps, p.id@);
}

proof fn lemma_none_leaves(ps: Seq<Position>, id: Seq<char>)
    requires
        forall|i: int| 0 <= i < ps.len() ==> (#[trigger] ps[i]).id@ != id,
    ensures
        without_id(ps, id) == ps,
    decreases ps.len(),
{
    if ps.len() > 0 {
        assert forall|i: int| 0 <= i < ps.drop_last().len() implies (#[trigger] ps.drop_last()[i]).id@
            != id by {
            assert(ps.drop_last()[i] == ps[i]);
        }
        lemma_none_leaves(ps.drop_last(), id);
        assert(ps.last() == ps[ps.len() - 1]);
        assert(ps.drop_last().push(ps.last()) =~= ps);
    }
}

/// The place of an id is that of the first position with it.
pub proof fn law_place_is_the_first(ps: Seq<Position>, id: Seq<char>, i: int)
    requires
        0 <= i <= ps.len(),
    ensures
        i <= place_of(ps, id, i) <= ps.len(),
        place_of(ps, id, i) < ps.len() ==> ps[place_of(ps, id, i)].id@ == id,
        forall|k: int| i <= k < place_of(ps, id, i) ==> (#[trigger] ps[k]).id@ != id,
    decreases ps.len() - i,
{
    if i < ps.len() && ps[i].id@ != id {
        law_place_is_the_first(ps, id, i + 1);
    }
}

/// The trades of a strategy are counted one by one, open and closed, and those of other
/// strategies do not count.
pub proof fn law_trades_are_counted(
    ps: Seq<Position>,
    p: Position,
    cs: Seq<Closed>,
    c: Closed,
    strategy: Seq<char>,
)
    ensures
        open_count(ps.push(p), strategy) - open_count(ps, strategy) == if p.strategy_id@ == strategy {
            1int
        } else {
            0int
        },
        closed_count(cs.push(c), strategy) - closed_count(cs, strategy) == if c.strategy_id@
            == strategy {
            1int
        } else {
            0int
        },
        open_count(Seq::empty(), strategy) == 0,
        closed_count(Seq::empty(), strategy) == 0,
{
    assert(ps.push(p).drop_last() =~= ps);
    assert(cs.push(c).drop_last() =~= cs);
}

} // verus!
