//! Broker reports booked onto the ledger, and the orders that flatten what the
//! broker holds beyond it.

use vstd::prelude::*;
use crate::book;
use crate::book::{Closed, NetPnl, Position};
use crate::exits;
use crate::exits::ExitReason;
use crate::num::Num;
use crate::text;
use crate::textmap::TextMap;

verus! {

/// One leg of a broker-held order.
#[derive(Debug)]
pub struct SuperLeg {
    pub status: String,
    pub name: String,
    pub trigger_price: Num,
    pub average_price: Num,
}

/// The leg is done.
pub open spec fn leg_done(l: SuperLeg) -> bool {
    l.status@ == "TRADED"@ || l.status@ == "COMPLETED"@
}

fn is_leg_done(l: &SuperLeg) -> (r: bool)
    ensures
        r == leg_done(*l),
{
    text::one_of(l.status.as_str(), "TRADED", "COMPLETED")
}

/// The last of the first `n` legs that is done and is no entry; minus one where
/// there is none.
pub open spec fn last_exit(legs: Seq<SuperLeg>, n: int) -> int
    decreases n,
{
    if n <= 0 {
        -1
    } else if leg_done(legs[n - 1]) && legs[n - 1].name@ != "ENTRY_LEG"@ {
        n - 1
    } else {
        last_exit(legs, n - 1)
    }
}

/// The first entry leg from `i` on, or the length.
pub open spec fn first_entry(legs: Seq<SuperLeg>, i: int) -> int
    decreases legs.len() - i,
{
    if i >= legs.len() {
        legs.len() as int
    } else if legs[i].name@ == "ENTRY_LEG"@ {
        i
    } else {
        first_entry(legs, i + 1)
    }
}

/// Some entry leg is done.
pub open spec fn entry_done(legs: Seq<SuperLeg>) -> bool {
    exists|i: int|
        0 <= i < legs.len() && (#[trigger] legs[i]).name@ == "ENTRY_LEG"@ && leg_done(legs[i])
}

/// What a broker-held order means for its position.
#[derive(Clone, Copy, Debug, PartialEq, Eq, Structural)]
pub enum SuperEvent {
    /// A leg closed it: the reason and the price, not positive where unknown.
    Closed(ExitReason, Num),
    /// The entry filled at an average price.
    Filled(Num),
    /// The order was refused or withdrawn.
    Dead,
    Nothing,
}

/// The event of a broker-held order whose position filled or not at `fill`.
pub open spec fn event_of(status: Seq<char>, legs: Seq<SuperLeg>, fill: Num) -> SuperEvent {
    let e = last_exit(legs, legs.len() as int);
    let i = first_entry(legs, 0);
    if e >= 0 {
        SuperEvent::Closed(
            if legs[e].name@ == "TARGET_LEG"@ {
                ExitReason::Target
            } else {
                ExitReason::StopLoss
            },
            legs[e].trigger_price,
        )
    } else if entry_done(legs) {
        if !fill.nan && fill.key <= 0 && i < legs.len() && legs[i].average_price.positive() {
            SuperEvent::Filled(legs[i].average_price)
        } else {
            SuperEvent::Nothing
        }
    } else if text::downs(status) == "cancelled"@ || text::downs(status) == "rejected"@ {
        SuperEvent::Dead
    } else {
        SuperEvent::Nothing
    }
}

/// Reads a broker-held order.
pub fn super_event(status: &str, legs: &Vec<SuperLeg>, fill: Num) -> (r: SuperEvent)
    ensures
        r == event_of(status@, legs@, fill),
{
    let mut exit: Option<usize> = None;
    let mut done = false;
    let mut entry: Option<usize> = None;
    let mut i: usize = 0;
    while i < legs.len()
        invariant
            i <= legs.len(),
            match exit {
                Some(e) => e == last_exit(legs@, i as int) && e < i,
                None => last_exit(legs@, i as int) < 0,
            },
            done == exists|k: int|
                0 <= k < i && (#[trigger] legs@[k]).name@ == "ENTRY_LEG"@ && leg_done(legs@[k]),
            match entry {
                Some(e) => e == first_entry(legs@, 0) && e < i,
                None => first_entry(legs@, 0) == first_entry(legs@, i as int),
            },
        decreases legs.len() - i,
    {
        let l = &legs[i];
        let is_entry = text::same(l.name.as_str(), "ENTRY_LEG");
        let traded = is_leg_done(l);
        if traded && !is_entry {
            exit = Some(i);
        }
        if traded && is_entry {
            done = true;
            assert(legs@[i as int].name@ == "ENTRY_LEG"@ && leg_done(legs@[i as int]));
        }
        if is_entry && entry.is_none() {
            entry = Some(i);
        }
        i += 1;
    }
    if let Some(e) = exit {
        let reason = if text::same(legs[e].name.as_str(), "TARGET_LEG") {
            ExitReason::Target
        } else {
            ExitReason::StopLoss
        };
        return SuperEvent::Closed(reason, legs[e].trigger_price);
    }
    if done {
        if !fill.nan && fill.key <= 0 {
            if let Some(e) = entry {
                if legs[e].average_price.is_positive() {
                    return SuperEvent::Filled(legs[e].average_price);
                }
            }
        }
        return SuperEvent::Nothing;
    }
    let s = text::to_ascii_lower(status);
    if text::one_of(s.as_str(), "cancelled", "rejected") {
        SuperEvent::Dead
    } else {
        SuperEvent::Nothing
    }
}

/// The ids of the broker-held orders of the first `n` positions.
pub open spec fn held_orders(ps: Seq<Position>, n: int) -> Seq<Seq<char>>
    decreases n,
{
    if n <= 0 {
        Seq::empty()
    } else if ps[n - 1].broker {
        held_orders(ps, n - 1) + text::views(ps[n - 1].super_orders@)
    } else {
        held_orders(ps, n - 1)
    }
}

fn push_all(out: &mut Vec<String>, v: &Vec<String>)
    ensures
        text::views(final(out)@) == text::views(old(out)@) + text::views(v@),
{
    let ghost start = text::views(out@);
    let mut i: usize = 0;
    assert(start + text::views(v@).take(0) =~= start);
    while i < v.len()
        invariant
            i <= v.len(),
            text::views(out@) == start + text::views(v@).take(i as int),
        decreases v.len() - i,
    {
        let ghost was = out@;
        out.push(v[i].clone());
        proof {
            assert(text::views(out@) =~= text::views(was).push(v@[i as int]@));
            assert(text::views(v@).take(i + 1) =~= text::views(v@).take(i as int).push(
                v@[i as int]@,
            ));
            assert(start + text::views(v@).take(i + 1) =~= (start + text::views(v@).take(
                i as int,
            )).push(v@[i as int]@));
        }
        i += 1;
    }
    assert(text::views(v@).take(v@.len() as int) =~= text::views(v@));
}

/// The ids of the broker-held orders.
pub fn held_order_ids(ps: &Vec<Position>) -> (r: Vec<String>)
    ensures
        text::views(r@) == held_orders(ps@, ps@.len() as int),
{
    let mut out: Vec<String> = Vec::new();
    let mut i: usize = 0;
    assert(text::views(out@) =~= Seq::<Seq<char>>::empty());
    while i < ps.len()
        invariant
            i <= ps.len(),
            text::views(out@) == held_orders(ps@, i as int),
        decreases ps.len() - i,
    {
        if ps[i].broker {
            push_all(&mut out, &ps[i].super_orders);
        }
        i += 1;
    }
    out
}

/// The first position from `i` on that holds the order, or the length.
pub open spec fn owner_place(ps: Seq<Position>, order: Seq<char>, i: int) -> int
    decreases ps.len() - i,
{
    if i >= ps.len() {
        ps.len() as int
    } else if text::views(ps[i].super_orders@).contains(order) {
        i
    } else {
        owner_place(ps, order, i + 1)
    }
}

/// The position that owns a broker-held order.
pub fn owner_of(ps: &Vec<Position>, order: &str) -> (r: Option<usize>)
    ensures
        match r {
            Some(i) => i == owner_place(ps@, order@, 0) && i < ps@.len(),
            None => owner_place(ps@, order@, 0) == ps@.len(),
        },
{
    let mut i: usize = 0;
    while i < ps.len()
        invariant
            i <= ps.len(),
            owner_place(ps@, order@, 0) == owner_place(ps@, order@, i as int),
        decreases ps.len() - i,
    {
        if text::list_has(&ps[i].super_orders, order) {
            return Some(i);
        }
        i += 1;
    }
    None
}

/// Books the average price of a filled entry.
pub fn book_entry_fill(ps: &mut Vec<Position>, id: &str, avg: Num)
    ensures
        ({
            let i = book::place_of(old(ps)@, id@, 0);
            final(ps)@ == if i == old(ps)@.len() {
                old(ps)@
            } else {
                old(ps)@.update(i, Position { fill_price: avg, entry: avg, ..old(ps)@[i] })
            }
        }),
{
    if let Some(i) = book::find_position(ps, id) {
        let p = &mut ps[i];
        p.fill_price = avg;
        p.entry = avg;
    }
}

/// A row of the broker's order book, its status in capitals.
#[derive(Debug)]
pub struct BookRow {
    pub average: Num,
    pub filled: i64,
    pub status: String,
}

/// A row of the order book as the broker reports it: the status in capitals, the
/// filled quantity never negative.
pub fn book_row(average: Num, filled: i64, status: &str) -> (r: BookRow)
    ensures
        r.average == average,
        r.filled == if filled < 0 {
            0
        } else {
            filled
        },
        r.status@ == text::upper_text(status@),
{
    BookRow {
        average,
        filled: if filled < 0 {
            0
        } else {
            filled
        },
        status: text::uppercase(status),
    }
}

/// An order with this status may still fill further.
pub open spec fn still_open(s: Seq<char>) -> bool {
    s == "PENDING"@ || s == "OPEN"@ || s == "TRANSIT"@ || s == "PART_TRADED"@
}

/// An order with this status will never fill.
pub open spec fn dead(s: Seq<char>) -> bool {
    s == "REJECTED"@ || s == "CANCELLED"@ || s == "EXPIRED"@
}

/// The order may still change what is filled.
pub open spec fn unsettled(row: BookRow) -> bool {
    if row.filled > 0 {
        still_open(row.status@)
    } else {
        !dead(row.status@)
    }
}

fn is_unsettled(row: &BookRow) -> (r: bool)
    ensures
        r == unsettled(*row),
{
    let s = row.status.as_str();
    if row.filled > 0 {
        text::one_of(s, "PENDING", "OPEN") || text::one_of(s, "TRANSIT", "PART_TRADED")
    } else {
        !(text::one_of(s, "REJECTED", "CANCELLED") || text::same(s, "EXPIRED"))
    }
}

/// What the order book says of some orders: the quantity filled, whether it is
/// final, and the priced parts.
#[derive(Debug)]
pub struct FillPlan {
    pub filled: i128,
    pub terminal: bool,
    pub parts: Vec<(Num, i64)>,
}

/// The priced parts of the first `n` orders.
pub open spec fn parts_of(ids: Seq<Seq<char>>, book: Map<Seq<char>, BookRow>, n: int) -> Seq<(Num, i64)>
    decreases n,
{
    if n <= 0 {
        Seq::empty()
    } else if book.contains_key(ids[n - 1]) && book[ids[n - 1]].filled > 0 {
        parts_of(ids, book, n - 1).push((book[ids[n - 1]].average, book[ids[n - 1]].filled))
    } else {
        parts_of(ids, book, n - 1)
    }
}

/// The quantity of some parts.
pub open spec fn total(parts: Seq<(Num, i64)>) -> int
    decreases parts.len(),
{
    if parts.len() == 0 {
        0
    } else {
        total(parts.drop_last()) + parts.last().1
    }
}

/// None of the orders may still change what is filled.
pub open spec fn settled(ids: Seq<Seq<char>>, book: Map<Seq<char>, BookRow>) -> bool {
    forall|i: int|
        0 <= i < ids.len() && book.contains_key(#[trigger] ids[i]) ==> !unsettled(book[ids[i]])
}

/// Sums up what the order book says of some orders.
pub fn fill_plan(ids: &Vec<String>, book: &TextMap<BookRow>) -> (r: FillPlan)
    ensures
        r.parts@ == parts_of(text::views(ids@), book@, ids@.len() as int),
        r.filled == total(r.parts@),
        r.terminal == settled(text::views(ids@), book@),
{
    let mut filled: i128 = 0;
    let mut terminal = true;
    let mut parts: Vec<(Num, i64)> = Vec::new();
    let ghost iv = text::views(ids@);
    let mut i: usize = 0;
    while i < ids.len()
        invariant
            i <= ids.len(),
            iv == text::views(ids@),
            parts@ == parts_of(iv, book@, i as int),
            filled == total(parts@),
            0 <= filled <= i * 0x7fff_ffff_ffff_ffff,
            terminal == forall|k: int|
                0 <= k < i && book@.contains_key(#[trigger] iv[k]) ==> !unsettled(book@[iv[k]]),
        decreases ids.len() - i,
    {
        assert(iv[i as int] == ids@[i as int]@);
        assert(i * 0x7fff_ffff_ffff_ffff + 0x7fff_ffff_ffff_ffff == (i + 1) * 0x7fff_ffff_ffff_ffff)
            by (nonlinear_arith);
        if let Some(row) = book.get(ids[i].as_str()) {
            assert(book@.contains_key(iv[i as int]));
            if row.filled > 0 {
                filled += row.filled as i128;
                let ghost was = parts@;
                parts.push((row.average, row.filled));
                assert(parts@.drop_last() =~= was);
            }
            if is_unsettled(row) {
                terminal = false;
            }
        }
        i += 1;
    }
    FillPlan { filled, terminal, parts }
}

/// The quantity filled is one that a position can hold.
pub open spec fn countable(plan: FillPlan) -> bool {
    plan.filled <= i64::MAX
}

/// Whether the quantity filled is one that a position can hold.
pub fn is_countable(plan: &FillPlan) -> (r: bool)
    ensures
        r == countable(*plan),
{
    plan.filled <= i64::MAX as i128
}

/// A position after the order book was read; `avg` is the average price of the
/// plan's parts.
pub open spec fn filled_position(p: Position, filled: int, terminal: bool, avg: Num) -> Position {
    let priced = filled > 0 && avg.positive();
    Position {
        fill_price: if priced {
            avg
        } else {
            p.fill_price
        },
        entry: if priced {
            avg
        } else {
            p.entry
        },
        filled_qty: if filled > 0 {
            filled as i64
        } else {
            p.filled_qty
        },
        reconciled: p.reconciled || (terminal && filled >= p.qty),
        ..p
    }
}

/// Books the fill of an open position. The answer says whether anything was
/// booked.
pub fn apply_fill(p: &mut Position, plan: &FillPlan, avg: Num) -> (r: bool)
    requires
        countable(*plan),
    ensures
        *final(p) == filled_position(*old(p), plan.filled as int, plan.terminal, avg),
        r == (plan.filled > 0 || (plan.terminal && plan.filled >= old(p).qty)),
{
    let mut changed = false;
    if plan.filled > 0 {
        if avg.is_positive() {
            p.fill_price = avg;
            p.entry = avg;
        }
        p.filled_qty = plan.filled as i64;
        changed = true;
    }
    if plan.terminal && plan.filled >= p.qty as i128 {
        p.reconciled = true;
        changed = true;
    }
    changed
}

/// A closed trade after the order book was read; `exit` is the average price of
/// the plan's parts and `pnl` the result that follows. The broker settles charges
/// itself, so the net result is the gross one.
pub open spec fn settled_exit(c: Closed, plan: FillPlan, exit: Num, pnl: Num) -> Closed {
    if plan.filled > 0 {
        Closed { exit, pnl, net_pnl: NetPnl::Net(pnl), exit_pending: false, ..c }
    } else if plan.terminal {
        Closed { exit_pending: false, ..c }
    } else {
        c
    }
}

/// Books the exit of a closed trade at the average price of the plan's parts and
/// the result that follows. The answer says whether anything was booked.
pub fn apply_exit(c: &mut Closed, plan: &FillPlan, exit: Num, pnl: Num) -> (r: bool)
    ensures
        *final(c) == settled_exit(*old(c), *plan, exit, pnl),
        r == (plan.filled > 0 || plan.terminal),
{
    if plan.filled > 0 {
        c.exit = exit;
        c.pnl = pnl;
        c.net_pnl = NetPnl::Net(pnl);
        c.exit_pending = false;
        return true;
    }
    if plan.terminal {
        c.exit_pending = false;
        return true;
    }
    false
}

/// The plan is what the order book says of the orders.
pub open spec fn plan_is(p: FillPlan, ids: Seq<Seq<char>>, book: Map<Seq<char>, BookRow>) -> bool {
    &&& p.parts@ == parts_of(ids, book, ids.len() as int)
    &&& p.filled == total(p.parts@)
    &&& p.terminal == settled(ids, book)
}

/// The plans of the open positions: those already reconciled or without orders
/// have none.
pub fn position_plans(ps: &Vec<Position>, book: &TextMap<BookRow>) -> (r: Vec<Option<FillPlan>>)
    ensures
        r@.len() == ps@.len(),
        forall|i: int| #![trigger r@[i]]
            0 <= i < r@.len() ==> match r@[i] {
                Some(p) => !ps@[i].reconciled && ps@[i].order_ids@.len() > 0 && plan_is(
                    p,
                    text::views(ps@[i].order_ids@),
                    book@,
                ),
                None => ps@[i].reconciled || ps@[i].order_ids@.len() == 0,
            },
{
    let mut out: Vec<Option<FillPlan>> = Vec::new();
    let mut i: usize = 0;
    while i < ps.len()
        invariant
            i <= ps.len(),
            out@.len() == i,
            forall|k: int| #![trigger out@[k]]
                0 <= k < out@.len() ==> match out@[k] {
                    Some(p) => !ps@[k].reconciled && ps@[k].order_ids@.len() > 0 && plan_is(
                        p,
                        text::views(ps@[k].order_ids@),
                        book@,
                    ),
                    None => ps@[k].reconciled || ps@[k].order_ids@.len() == 0,
                },
        decreases ps.len() - i,
    {
        if ps[i].reconciled || ps[i].order_ids.len() == 0 {
            out.push(None);
        } else {
            out.push(Some(fill_plan(&ps[i].order_ids, book)));
        }
        i += 1;
    }
    out
}

/// The plans of the closed trades whose exit is still an estimate.
pub fn exit_plans(cs: &Vec<Closed>, book: &TextMap<BookRow>) -> (r: Vec<Option<FillPlan>>)
    ensures
        r@.len() == cs@.len(),
        forall|i: int| #![trigger r@[i]]
            0 <= i < r@.len() ==> match r@[i] {
                Some(p) => cs@[i].exit_pending && plan_is(
                    p,
                    text::views(cs@[i].exit_order_ids@),
                    book@,
                ),
                None => !cs@[i].exit_pending,
            },
{
    let mut out: Vec<Option<FillPlan>> = Vec::new();
    let mut i: usize = 0;
    while i < cs.len()
        invariant
            i <= cs.len(),
            out@.len() == i,
            forall|k: int| #![trigger out@[k]]
                0 <= k < out@.len() ==> match out@[k] {
                    Some(p) => cs@[k].exit_pending && plan_is(
                        p,
                        text::views(cs@[k].exit_order_ids@),
                        book@,
                    ),
                    None => !cs@[k].exit_pending,
                },
        decreases cs.len() - i,
    {
        if cs[i].exit_pending {
            out.push(Some(fill_plan(&cs[i].exit_order_ids, book)));
        } else {
            out.push(None);
        }
        i += 1;
    }
    out
}

/// A position after its plan, if it has one.
pub open spec fn after_plan(p: Position, plan: Option<FillPlan>, avg: Num) -> Position {
    match plan {
        Some(f) => filled_position(p, f.filled as int, f.terminal, avg),
        None => p,
    }
}

/// The plan books something.
pub open spec fn books(p: Position, plan: Option<FillPlan>) -> bool {
    match plan {
        Some(f) => f.filled > 0 || (f.terminal && f.filled >= p.qty),
        None => false,
    }
}

/// Books the plans of the open positions, each at its average price. The answer
/// says whether anything was booked.
pub fn apply_fills(ps: &mut Vec<Position>, plans: &Vec<Option<FillPlan>>, avgs: &Vec<Num>) -> (r: bool)
    requires
        old(ps)@.len() == plans@.len(),
        old(ps)@.len() == avgs@.len(),
        forall|i: int|
            0 <= i < plans@.len() && (#[trigger] plans@[i]) is Some ==> countable(plans@[i]->0),
    ensures
        final(ps)@.len() == old(ps)@.len(),
        forall|i: int|
            0 <= i < final(ps)@.len() ==> #[trigger] final(ps)@[i] == after_plan(
                old(ps)@[i],
                plans@[i],
                avgs@[i],
            ),
        r == exists|i: int| 0 <= i < plans@.len() && books(old(ps)@[i], #[trigger] plans@[i]),
{
    let mut changed = false;
    let ghost was = ps@;
    let mut i: usize = 0;
    while i < ps.len()
        invariant
            i <= ps.len(),
            ps@.len() == was.len(),
            was.len() == plans@.len(),
            was.len() == avgs@.len(),
            forall|k: int|
                0 <= k < plans@.len() && (#[trigger] plans@[k]) is Some ==> countable(plans@[k]->0),
            forall|k: int|
                0 <= k < i ==> #[trigger] ps@[k] == after_plan(was[k], plans@[k], avgs@[k]),
            forall|k: int| i <= k < ps@.len() ==> #[trigger] ps@[k] == was[k],
            changed == exists|k: int| 0 <= k < i && books(was[k], #[trigger] plans@[k]),
        decreases ps.len() - i,
    {
        if let Some(plan) = &plans[i] {
            assert(plans@[i as int] is Some);
            let p = &mut ps[i];
            let one = apply_fill(p, plan, avgs[i]);
            if one {
                changed = true;
                assert(books(was[i as int], plans@[i as int]));
            }
        }
        i += 1;
    }
    changed
}

/// Books the plans of the closed trades, each at its exit price and result. The
/// answer says whether anything was booked.
pub fn apply_exits(
    cs: &mut Vec<Closed>,
    plans: &Vec<Option<FillPlan>>,
    exits: &Vec<Num>,
    pnls: &Vec<Num>,
) -> (r: bool)
    requires
        old(cs)@.len() == plans@.len(),
        old(cs)@.len() == exits@.len(),
        old(cs)@.len() == pnls@.len(),
    ensures
        final(cs)@.len() == old(cs)@.len(),
        forall|i: int| #![trigger final(cs)@[i]]
            0 <= i < final(cs)@.len() ==> final(cs)@[i] == (match plans@[i] {
                Some(f) => settled_exit(old(cs)@[i], f, exits@[i], pnls@[i]),
                None => old(cs)@[i],
            }),
        r == exists|i: int|
            0 <= i < plans@.len() && #[trigger] plans@[i] is Some && ((plans@[i]->0).filled > 0 || (
            plans@[i]->0).terminal),
{
    let mut changed = false;
    let ghost was = cs@;
    let mut i: usize = 0;
    while i < cs.len()
        invariant
            i <= cs.len(),
            cs@.len() == was.len(),
            was.len() == plans@.len(),
            was.len() == exits@.len(),
            was.len() == pnls@.len(),
            forall|k: int| #![trigger cs@[k]]
                0 <= k < i ==> cs@[k] == (match plans@[k] {
                    Some(f) => settled_exit(was[k], f, exits@[k], pnls@[k]),
                    None => was[k],
                }),
            forall|k: int| i <= k < cs@.len() ==> #[trigger] cs@[k] == was[k],
            changed == exists|k: int|
                0 <= k < i && #[trigger] plans@[k] is Some && ((plans@[k]->0).filled > 0 || (
                plans@[k]->0).terminal),
        decreases cs.len() - i,
    {
        if let Some(plan) = &plans[i] {
            let c = &mut cs[i];
            let one = apply_exit(c, plan, exits[i], pnls[i]);
            if one {
                changed = true;
                assert(plans@[i as int] is Some);
            }
        }
        i += 1;
    }
    changed
}

/// Some open position or closed trade still waits for the order book.
pub open spec fn waiting(ps: Seq<Position>, cs: Seq<Closed>) -> bool {
    (exists|i: int|
        0 <= i < ps.len() && !(#[trigger] ps[i]).reconciled && ps[i].order_ids@.len() > 0) || (
    exists|i: int|
        0 <= i < cs.len() && (#[trigger] cs[i]).exit_pending && cs[i].exit_order_ids@.len() > 0)
}

/// Whether the order book is worth reading: something still is an estimate.
pub fn wants_fills(ps: &Vec<Position>, cs: &Vec<Closed>) -> (r: bool)
    ensures
        r == waiting(ps@, cs@),
{
    let mut i: usize = 0;
    while i < ps.len()
        invariant
            i <= ps.len(),
            forall|k: int|
                0 <= k < i ==> (#[trigger] ps@[k]).reconciled || ps@[k].order_ids@.len() == 0,
        decreases ps.len() - i,
    {
        if !ps[i].reconciled && ps[i].order_ids.len() > 0 {
            return true;
        }
        i += 1;
    }
    let mut j: usize = 0;
    while j < cs.len()
        invariant
            j <= cs.len(),
            forall|k: int|
                0 <= k < j ==> !(#[trigger] cs@[k]).exit_pending || cs@[k].exit_order_ids@.len()
                    == 0,
        decreases cs.len() - j,
    {
        if cs[j].exit_pending && cs[j].exit_order_ids.len() > 0 {
            return true;
        }
        j += 1;
    }
    false
}

/// The order book is read now: a live book, a connection, something to learn, and two
/// seconds since the last reading.
pub open spec fn reads_now(paper: bool, connected: bool, wanted: bool, last: int, now: int) -> bool {
    !paper && connected && wanted && now - last >= 2000
}

/// Whether the order book is read now: a live book, a connection, something to
/// learn, and two seconds since the last reading.
pub fn fills_due(paper: bool, connected: bool, wanted: bool, last: i64, now: i64) -> (r: bool)
    requires
        last >= 0,
        now >= 0,
    ensures
        r == reads_now(paper, connected, wanted, last as int, now as int),
{
    !paper && connected && wanted && now - last >= 2000
}

/// A reconciled position is never changed again: it stays reconciled through
/// every later report.
pub proof fn law_reconciled_stays(p: Position, filled: int, terminal: bool, avg: Num)
    requires
        p.reconciled,
    ensures
        filled_position(p, filled, terminal, avg).reconciled,
{
}

/// The quantity filled only depends on the parts: a terminal plan that covers
/// the whole quantity reconciles the position, one that does not leaves it open.
pub proof fn law_full_fill_reconciles(p: Position, filled: int, avg: Num)
    requires
        !p.reconciled,
    ensures
        filled_position(p, filled, true, avg).reconciled == (filled >= p.qty),
        !filled_position(p, filled, false, avg).reconciled,
{
}

/// The net result of a live trade is its gross result: it is booked so at the
/// close, and so again when the order book prices the exit.
pub proof fn law_live_net_is_gross(
    c: Closed,
    plan: FillPlan,
    exit: Num,
    pnl: Num,
    charge: bool,
    a: exits::CloseAmounts,
)
    ensures
        exits::net_of(false, charge, a) == NetPnl::Net(a.pnl),
        c.net_pnl == NetPnl::Net(c.pnl) ==> settled_exit(c, plan, exit, pnl).net_pnl
            == NetPnl::Net(settled_exit(c, plan, exit, pnl).pnl),
        plan.filled > 0 ==> settled_exit(c, plan, exit, pnl).net_pnl == NetPnl::Net(pnl),
{
}

/// A net position at the broker.
#[derive(Debug)]
pub struct BrokerRow {
    pub security_id: i64,
    pub net_qty: i64,
    pub exchange_segment: String,
    pub product: String,
    pub trading_symbol: String,
}

/// The signed quantity of a position.
pub open spec fn signed(p: Position) -> int {
    if p.side@ == "BUY"@ {
        p.qty as int
    } else {
        -p.qty
    }
}

/// The signed quantity that the first `n` positions hold of a security.
pub open spec fn signed_of(ps: Seq<Position>, sid: i64, n: int) -> int
    decreases n,
{
    if n <= 0 {
        0
    } else if ps[n - 1].security_id == sid {
        signed_of(ps, sid, n - 1) + signed(ps[n - 1])
    } else {
        signed_of(ps, sid, n - 1)
    }
}

fn signed_qty(ps: &Vec<Position>, sid: i64) -> (r: i128)
    ensures
        r == signed_of(ps@, sid, ps@.len() as int),
        -0x8000_0000_0000_0000 * ps@.len() <= r <= 0x8000_0000_0000_0000 * ps@.len(),
{
    let mut sum: i128 = 0;
    let mut i: usize = 0;
    while i < ps.len()
        invariant
            i <= ps.len(),
            sum == signed_of(ps@, sid, i as int),
            -0x8000_0000_0000_0000 * i <= sum <= 0x8000_0000_0000_0000 * i,
        decreases ps.len() - i,
    {
        if ps[i].security_id == sid {
            let q: i128 = ps[i].qty as i128;
            if text::same(ps[i].side.as_str(), "BUY") {
                sum = sum + q;
            } else {
                sum = sum - q;
            }
        }
        i += 1;
    }
    sum
}

/// The residual of a broker row: what it holds beyond the book.
pub open spec fn residual(ps: Seq<Position>, b: BrokerRow) -> int {
    b.net_qty - signed_of(ps, b.security_id, ps.len() as int)
}

/// A residual that one order can flatten.
pub open spec fn order_fits(r: int) -> bool {
    -i64::MAX <= r <= i64::MAX
}

/// Whether one order can flatten a row.
pub fn residual_fits(ps: &Vec<Position>, b: &BrokerRow) -> (r: bool)
    ensures
        r == order_fits(residual(ps@, *b)),
{
    let held: i128 = signed_qty(ps, b.security_id);
    let n: usize = ps.len();
    assert(n <= 0xffff_ffff_ffff_ffff);
    let left: i128 = b.net_qty as i128 - held;
    -(i64::MAX as i128) <= left && left <= i64::MAX as i128
}

/// One order can flatten each row.
pub open spec fn residuals_fit(ps: Seq<Position>, bs: Seq<BrokerRow>) -> bool {
    forall|i: int| 0 <= i < bs.len() ==> order_fits(residual(ps, #[trigger] bs[i]))
}

/// An order that flattens a residual.
#[derive(Debug)]
pub struct FlattenOrder {
    pub row: usize,
    pub sell: bool,
    pub qty: i64,
}

/// The orders that flatten the first `n` broker rows, as row, side and quantity.
pub open spec fn flatten_orders(ps: Seq<Position>, bs: Seq<BrokerRow>, n: int) -> Seq<(int, bool, int)>
    decreases n,
{
    if n <= 0 {
        Seq::empty()
    } else {
        let r = residual(ps, bs[n - 1]);
        if bs[n - 1].security_id <= 0 || r == 0 {
            flatten_orders(ps, bs, n - 1)
        } else {
            flatten_orders(ps, bs, n - 1).push(
                (
                    n - 1,
                    r > 0,
                    if r > 0 {
                        r
                    } else {
                        -r
                    },
                ),
            )
        }
    }
}

/// Orders as plain values.
pub open spec fn order_views(v: Seq<FlattenOrder>) -> Seq<(int, bool, int)> {
    Seq::new(v.len(), |i: int| (v[i].row as int, v[i].sell, v[i].qty as int))
}

/// The orders that flatten what the broker holds beyond the book.
pub fn residual_orders(ps: &Vec<Position>, bs: &Vec<BrokerRow>) -> (r: Vec<FlattenOrder>)
    requires
        residuals_fit(ps@, bs@),
    ensures
        order_views(r@) == flatten_orders(ps@, bs@, bs@.len() as int),
{
    let mut out: Vec<FlattenOrder> = Vec::new();
    let mut i: usize = 0;
    assert(order_views(out@) =~= Seq::<(int, bool, int)>::empty());
    while i < bs.len()
        invariant
            i <= bs.len(),
            residuals_fit(ps@, bs@),
            order_views(out@) == flatten_orders(ps@, bs@, i as int),
        decreases bs.len() - i,
    {
        let b = &bs[i];
        if b.security_id > 0 {
            assert(order_fits(residual(ps@, bs@[i as int])));
            let held: i128 = signed_qty(ps, b.security_id);
            let left: i64 = (b.net_qty as i128 - held) as i64;
            if left != 0 {
                let ghost was = out@;
                let o = FlattenOrder {
                    row: i,
                    sell: left > 0,
                    qty: if left > 0 {
                        left
                    } else {
                        -left
                    },
                };
                out.push(o);
                assert(order_views(out@) =~= order_views(was).push(
                    (o.row as int, o.sell, o.qty as int),
                ));
            }
        }
        i += 1;
    }
    out
}

/// An order that flattens a row brings the broker's net quantity to what all the
/// positions of the book hold, and it is always for a positive quantity.
pub proof fn law_residual_is_flattened(ps: Seq<Position>, bs: Seq<BrokerRow>, n: int, k: int)
    requires
        0 <= n <= bs.len(),
        0 <= k < flatten_orders(ps, bs, n).len(),
    ensures
        ({
            let o = flatten_orders(ps, bs, n)[k];
            &&& 0 <= o.0 < n
            &&& o.2 > 0
            &&& bs[o.0].net_qty + (if o.1 {
                -o.2
            } else {
                o.2
            }) == signed_of(ps, bs[o.0].security_id, ps.len() as int)
        }),
    decreases n,
{
    if n > 0 {
        let before = flatten_orders(ps, bs, n - 1);
        if k < before.len() {
            law_residual_is_flattened(ps, bs, n - 1, k);
        }
    }
}

/// Positions tagged as index-trend picks whose underlying is no longer picked.
pub open spec fn dropped(ps: Seq<Position>, keep: Seq<Seq<char>>, n: int) -> Seq<Seq<char>>
    decreases n,
{
    if n <= 0 {
        Seq::empty()
    } else if ps[n - 1].nifty_pick && !keep.contains(text::upper_text(ps[n - 1].underlying@)) {
        dropped(ps, keep, n - 1).push(ps[n - 1].id@)
    } else {
        dropped(ps, keep, n - 1)
    }
}

/// The ids of the positions whose pick dropped out.
pub fn dropped_picks(ps: &Vec<Position>, keep: &Vec<String>) -> (r: Vec<String>)
    ensures
        text::views(r@) == dropped(ps@, text::views(keep@), ps@.len() as int),
{
    let mut out: Vec<String> = Vec::new();
    let mut i: usize = 0;
    assert(text::views(out@) =~= Seq::<Seq<char>>::empty());
    while i < ps.len()
        invariant
            i <= ps.len(),
            text::views(out@) == dropped(ps@, text::views(keep@), i as int),
        decreases ps.len() - i,
    {
        if ps[i].nifty_pick {
            let u = text::uppercase(ps[i].underlying.as_str());
            if !text::list_has(keep, u.as_str()) {
                let ghost was = out@;
                out.push(ps[i].id.clone());
                assert(text::views(out@) =~= text::views(was).push(ps@[i as int].id@));
            }
        }
        i += 1;
    }
    out
}

/// What the order book says is filled of the first `n` orders: the filled quantities of
/// the orders it holds, added up.
pub open spec fn filled_in(ids: Seq<Seq<char>>, book: Map<Seq<char>, BookRow>, n: int) -> int
    decreases n,
{
    if n <= 0 {
        0
    } else {
        filled_in(ids, book, n - 1) + if book.dom().contains(ids[n - 1]) && book[ids[n - 1]].filled
            > 0 {
            book[ids[n - 1]].filled as int
        } else {
            0
        }
    }
}

/// The quantity filled is the sum over all orders found in the order book of what is
/// filled of each, whatever its status: an order that was cancelled after a part of it
/// filled counts with that part.
pub proof fn law_filled_is_the_sum(ids: Seq<Seq<char>>, book: Map<Seq<char>, BookRow>, n: int)
    requires
        0 <= n <= ids.len(),
    ensures
        total(parts_of(ids, book, n)) == filled_in(ids, book, n),
    decreases n,
{
    if n > 0 {
        law_filled_is_the_sum(ids, book, n - 1);
        let was = parts_of(ids, book, n - 1);
        let p = (book[ids[n - 1]].average, book[ids[n - 1]].filled);
        assert(was.push(p).drop_last() =~= was);
    }
}

/// The priced parts are one for each order of the list that the order book holds with a
/// filled quantity, at its average price, in the order of the list, and nothing else.
pub proof fn law_parts_are_the_filled_orders(
    ids: Seq<Seq<char>>,
    book: Map<Seq<char>, BookRow>,
    n: int,
)
    requires
        0 <= n <= ids.len(),
    ensures
        ({
            let v = parts_of(ids, book, n);
            &&& forall|i: int|
                0 <= i < n && book.dom().contains(#[trigger] ids[i]) && book[ids[i]].filled > 0
                    ==> v.contains((book[ids[i]].average, book[ids[i]].filled))
            &&& forall|k: int|
                0 <= k < v.len() ==> (#[trigger] v[k]).1 > 0 && exists|i: int|
                    0 <= i < n && book.dom().contains(#[trigger] ids[i]) && v[k] == (
                        book[ids[i]].average,
                        book[ids[i]].filled,
                    )
            &&& n > 0 ==> v.len() - parts_of(ids, book, n - 1).len() == if book.dom().contains(
                ids[n - 1],
            ) && book[ids[n - 1]].filled > 0 {
                1int
            } else {
                0int
            }
        }),
    decreases n,
{
    if n > 0 {
        law_parts_are_the_filled_orders(ids, book, n - 1);
        let was = parts_of(ids, book, n - 1);
        let v = parts_of(ids, book, n);
        assert forall|i: int|
            0 <= i < n && book.dom().contains(#[trigger] ids[i]) && book[ids[i]].filled
                > 0 implies v.contains((book[ids[i]].average, book[ids[i]].filled)) by {
            let p = (book[ids[i]].average, book[ids[i]].filled);
            if i < n - 1 {
                let k = choose|k: int| 0 <= k < was.len() && was[k] == p;
                assert(v[k] == p);
            } else {
                assert(v[v.len() - 1] == p);
            }
        }
        assert forall|k: int| 0 <= k < v.len() implies (#[trigger] v[k]).1 > 0 && exists|i: int|
            0 <= i < n && book.dom().contains(#[trigger] ids[i]) && v[k] == (
                book[ids[i]].average,
                book[ids[i]].filled,
            ) by {
            if k < was.len() {
                assert(v[k] == was[k]);
            } else {
                assert(book.dom().contains(ids[n - 1]));
            }
        }
    }
}

/// Two order books say the same of every order but for its status.
pub open spec fn same_fills(a: Map<Seq<char>, BookRow>, b: Map<Seq<char>, BookRow>) -> bool {
    &&& a.dom() == b.dom()
    &&& forall|id: Seq<char>|
        a.dom().contains(id) ==> (#[trigger] a[id]).average == b[id].average && a[id].filled
            == b[id].filled
}

/// The status of an order bears on nothing but whether the fill is final: order books
/// that differ in statuses alone give the same parts and the same filled quantity.
pub proof fn law_status_does_not_count(
    ids: Seq<Seq<char>>,
    a: Map<Seq<char>, BookRow>,
    b: Map<Seq<char>, BookRow>,
    n: int,
)
    requires
        0 <= n <= ids.len(),
        same_fills(a, b),
    ensures
        parts_of(ids, a, n) == parts_of(ids, b, n),
        total(parts_of(ids, a, n)) == total(parts_of(ids, b, n)),
    decreases n,
{
    if n > 0 {
        law_status_does_not_count(ids, a, b, n - 1);
        let id = ids[n - 1];
        assert(a.dom().contains(id) == b.dom().contains(id));
        if a.dom().contains(id) {
            assert(a[id].average == b[id].average);
        }
    }
}

/// A fill is final exactly where no order of the list may still change it: one that has
/// filled in part is not waiting at the exchange, and one that has not was refused,
/// withdrawn or ran out. Orders that the book does not hold do not matter.
pub proof fn law_final_by_status(ids: Seq<Seq<char>>, book: Map<Seq<char>, BookRow>)
    ensures
        settled(ids, book) <==> forall|i: int|
            0 <= i < ids.len() && book.dom().contains(#[trigger] ids[i]) ==> {
                let s = book[ids[i]].status@;
                if book[ids[i]].filled > 0 {
                    s != "PENDING"@ && s != "OPEN"@ && s != "TRANSIT"@ && s != "PART_TRADED"@
                } else {
                    s == "REJECTED"@ || s == "CANCELLED"@ || s == "EXPIRED"@
                }
            },
{
    if settled(ids, book) {
        assert forall|i: int| 0 <= i < ids.len() && book.dom().contains(#[trigger] ids[i]) implies {
            let s = book[ids[i]].status@;
            if book[ids[i]].filled > 0 {
                s != "PENDING"@ && s != "OPEN"@ && s != "TRANSIT"@ && s != "PART_TRADED"@
            } else {
                s == "REJECTED"@ || s == "CANCELLED"@ || s == "EXPIRED"@
            }
        } by {
            assert(book.contains_key(ids[i]));
        }
    } else {
        let i = choose|i: int|
            0 <= i < ids.len() && book.contains_key(#[trigger] ids[i]) && unsettled(book[ids[i]]);
        assert(book.dom().contains(ids[i]));
    }
}

/// A fill is booked onto its position: the quantity where something filled, the price
/// where it is known too, and nothing else changes. Nothing filled leaves quantity and
/// prices alone.
pub proof fn law_fills_are_booked(p: Position, filled: int, terminal: bool, avg: Num)
    requires
        filled <= i64::MAX,
    ensures
        ({
            let q = filled_position(p, filled, terminal, avg);
            &&& filled > 0 ==> q.filled_qty == filled
            &&& filled <= 0 ==> q.filled_qty == p.filled_qty && q.entry == p.entry && q.fill_price
                == p.fill_price
            &&& filled > 0 && !avg.nan && avg.key > 0 ==> q.entry == avg && q.fill_price == avg
            &&& filled > 0 && (avg.nan || avg.key <= 0) ==> q.entry == p.entry && q.fill_price
                == p.fill_price
            &&& q.reconciled <==> p.reconciled || terminal && filled >= p.qty
            &&& q == Position {
                filled_qty: q.filled_qty,
                entry: q.entry,
                fill_price: q.fill_price,
                reconciled: q.reconciled,
                ..p
            }
        }),
{
}

/// An exit is booked onto its trade: once something filled the trade has its price and
/// result, net as gross, and waits no longer; a final report of nothing filled keeps the
/// estimate and ends the wait; else nothing changes.
pub proof fn law_exits_are_booked(c: Closed, plan: FillPlan, exit: Num, pnl: Num)
    ensures
        ({
            let d = settled_exit(c, plan, exit, pnl);
            &&& plan.filled > 0 ==> d.exit == exit && d.pnl == pnl && d.net_pnl == NetPnl::Net(pnl)
                && !d.exit_pending
            &&& plan.filled <= 0 ==> d.exit == c.exit && d.pnl == c.pnl && d.net_pnl == c.net_pnl
            &&& plan.filled <= 0 && plan.terminal ==> !d.exit_pending
            &&& plan.filled <= 0 && !plan.terminal ==> d == c
            &&& d == Closed {
                exit: d.exit,
                pnl: d.pnl,
                net_pnl: d.net_pnl,
                exit_pending: d.exit_pending,
                ..c
            }
        }),
{
}

/// A leg that is no entry leg was traded or completed.
pub open spec fn closing_leg(l: SuperLeg) -> bool {
    (l.status@ == "TRADED"@ || l.status@ == "COMPLETED"@) && l.name@ != "ENTRY_LEG"@
}

/// An entry leg was traded or completed.
pub open spec fn opening_leg(l: SuperLeg) -> bool {
    (l.status@ == "TRADED"@ || l.status@ == "COMPLETED"@) && l.name@ == "ENTRY_LEG"@
}

proof fn lemma_last_exit(legs: Seq<SuperLeg>, n: int)
    requires
        0 <= n <= legs.len(),
    ensures
        -1 <= last_exit(legs, n) < n || n == 0,
        last_exit(legs, n) >= 0 ==> closing_leg(legs[last_exit(legs, n)]),
        forall|i: int|
            last_exit(legs, n) < i < n && 0 <= i ==> !closing_leg(#[trigger] legs[i]),
    decreases n,
{
    if n > 0 {
        lemma_last_exit(legs, n - 1);
    }
}

proof fn lemma_first_entry(legs: Seq<SuperLeg>, i: int)
    requires
        0 <= i <= legs.len(),
    ensures
        i <= first_entry(legs, i) <= legs.len(),
        first_entry(legs, i) < legs.len() ==> legs[first_entry(legs, i)].name@ == "ENTRY_LEG"@,
        forall|k: int|
            i <= k < first_entry(legs, i) ==> (#[trigger] legs[k]).name@ != "ENTRY_LEG"@,
    decreases legs.len() - i,
{
    if i < legs.len() && legs[i].name@ != "ENTRY_LEG"@ {
        lemma_first_entry(legs, i + 1);
    }
}

/// A broker-held order closes its position exactly where a leg other than the entry is
/// done: at the trigger price of the last such leg, by the target where it is the target
/// leg and by the stop otherwise.
pub proof fn law_done_legs_close(status: Seq<char>, legs: Seq<SuperLeg>, fill: Num, i: int)
    requires
        0 <= i < legs.len(),
        closing_leg(legs[i]),
        forall|k: int| i < k < legs.len() ==> !closing_leg(#[trigger] legs[k]),
    ensures
        event_of(status, legs, fill) == SuperEvent::Closed(
            if legs[i].name@ == "TARGET_LEG"@ {
                ExitReason::Target
            } else {
                ExitReason::StopLoss
            },
            legs[i].trigger_price,
        ),
{
    lemma_last_exit(legs, legs.len() as int);
    let e = last_exit(legs, legs.len() as int);
    assert(e == i);
}

/// While no other leg is done: a done entry fills the position once, at the average price
/// of the entry leg where one is known, and no longer lets the order count as dead; an
/// order without one is dead where it was withdrawn or refused.
pub proof fn law_entries_fill_once(status: Seq<char>, legs: Seq<SuperLeg>, fill: Num)
    requires
        forall|k: int| 0 <= k < legs.len() ==> !closing_leg(#[trigger] legs[k]),
    ensures
        ({
            let entered = exists|k: int| 0 <= k < legs.len() && opening_leg(#[trigger] legs[k]);
            let gone = text::downs(status) == "cancelled"@ || text::downs(status) == "rejected"@;
            let e = event_of(status, legs, fill);
            &&& !(e is Closed)
            &&& !entered && gone ==> e == SuperEvent::Dead
            &&& !entered && !gone ==> e == SuperEvent::Nothing
            &&& entered ==> !(e is Dead)
            &&& entered && (fill.nan || fill.key > 0) ==> e == SuperEvent::Nothing
            &&& e matches SuperEvent::Filled(avg) ==> !avg.nan && avg.key > 0 && exists|k: int|
                0 <= k < legs.len() && (#[trigger] legs[k]).name@ == "ENTRY_LEG"@
                    && legs[k].average_price == avg
            &&& entered && !fill.nan && fill.key <= 0 && (forall|k: int|
                0 <= k < legs.len() && (#[trigger] legs[k]).name@ == "ENTRY_LEG"@
                    ==> !legs[k].average_price.nan && legs[k].average_price.key > 0) ==> e is Filled
        }),
{
    lemma_last_exit(legs, legs.len() as int);
    lemma_first_entry(legs, 0);
    let entered = exists|k: int| 0 <= k < legs.len() && opening_leg(#[trigger] legs[k]);
    if entered {
        let k = choose|k: int| 0 <= k < legs.len() && opening_leg(#[trigger] legs[k]);
        assert(legs[k].name@ == "ENTRY_LEG"@ && leg_done(legs[k]));
        assert(entry_done(legs));
        let i = first_entry(legs, 0);
        assert(i < legs.len());
        assert(legs[i].name@ == "ENTRY_LEG"@);
    } else if entry_done(legs) {
        let k = choose|k: int|
            0 <= k < legs.len() && (#[trigger] legs[k]).name@ == "ENTRY_LEG"@ && leg_done(legs[k]);
        assert(opening_leg(legs[k]));
    }
}

/// The position lists the order among those that the broker holds.
pub open spec fn lists(p: Position, order: Seq<char>) -> bool {
    exists|k: int| 0 <= k < p.super_orders@.len() && (#[trigger] p.super_orders@[k])@ == order
}

proof fn lemma_lists(p: Position, order: Seq<char>)
    ensures
        lists(p, order) == text::views(p.super_orders@).contains(order),
{
    let own = text::views(p.super_orders@);
    if own.contains(order) {
        let k = choose|k: int| 0 <= k < own.len() && own[k] == order;
        assert(p.super_orders@[k]@ == order);
    }
    if lists(p, order) {
        let k = choose|k: int|
            0 <= k < p.super_orders@.len() && (#[trigger] p.super_orders@[k])@ == order;
        assert(own[k] == order);
    }
}

/// An order is among those that the broker holds exactly where a position that the broker
/// holds lists it.
pub proof fn law_held_orders_are_the_brokers(ps: Seq<Position>, n: int, order: Seq<char>)
    requires
        0 <= n <= ps.len(),
    ensures
        held_orders(ps, n).contains(order) <==> exists|i: int|
            0 <= i < n && (#[trigger] ps[i]).broker && lists(ps[i], order),
    decreases n,
{
    if n > 0 {
        law_held_orders_are_the_brokers(ps, n - 1, order);
        lemma_lists(ps[n - 1], order);
        let was = held_orders(ps, n - 1);
        let own = text::views(ps[n - 1].super_orders@);
        let v = held_orders(ps, n);
        if v.contains(order) {
            let j = choose|j: int| 0 <= j < v.len() && v[j] == order;
            if j < was.len() {
                assert(was[j] == order);
                let i = choose|i: int|
                    0 <= i < n - 1 && (#[trigger] ps[i]).broker && lists(ps[i], order);
                assert(ps[i].broker);
            } else {
                assert(own[j - was.len()] == order);
                assert(ps[n - 1].broker);
            }
        }
        if was.contains(order) {
            let j = choose|j: int| 0 <= j < was.len() && was[j] == order;
            assert(v[j] == order);
        }
        if ps[n - 1].broker && own.contains(order) {
            let k = choose|k: int| 0 <= k < own.len() && own[k] == order;
            assert(v[was.len() + k] == order);
        }
    }
}

/// The owner of an order is the first position that lists it.
pub proof fn law_owner_lists_the_order(ps: Seq<Position>, order: Seq<char>, i: int)
    requires
        0 <= i <= ps.len(),
    ensures
        ({
            let o = owner_place(ps, order, i);
            &&& i <= o <= ps.len()
            &&& o < ps.len() ==> lists(ps[o], order)
            &&& forall|j: int| i <= j < o ==> !lists(#[trigger] ps[j], order)
        }),
    decreases ps.len() - i,
{
    if i < ps.len() {
        lemma_lists(ps[i], order);
        if !text::views(ps[i].super_orders@).contains(order) {
            law_owner_lists_the_order(ps, order, i + 1);
        }
    }
}

/// What the book holds of a security is what was bought of it less what was sold: every
/// further position adds its quantity where it is long and takes it off where it is
/// short, and positions in other securities do not matter.
pub proof fn law_holdings_net_out(ps: Seq<Position>, p: Position, sid: i64)
    ensures
        ({
            let before = signed_of(ps, sid, ps.len() as int);
            let after = signed_of(ps.push(p), sid, ps.len() as int + 1);
            &&& p.security_id != sid ==> after == before
            &&& p.security_id == sid && p.side@ == "BUY"@ ==> after == before + p.qty
            &&& p.security_id == sid && p.side@ != "BUY"@ ==> after == before - p.qty
            &&& signed_of(Seq::<Position>::empty(), sid, 0) == 0
        }),
{
    lemma_signed_prefix(ps, ps.push(p), sid, ps.len() as int);
}

proof fn lemma_signed_prefix(a: Seq<Position>, b: Seq<Position>, sid: i64, n: int)
    requires
        0 <= n <= a.len(),
        n <= b.len(),
        forall|i: int| 0 <= i < n ==> a[i] == b[i],
    ensures
        signed_of(a, sid, n) == signed_of(b, sid, n),
    decreases n,
{
    if n > 0 {
        lemma_signed_prefix(a, b, sid, n - 1);
    }
}

/// Every row of a known security that the broker holds beyond the book, or short of it,
/// gets an order: a sale of what is too much, a purchase of what is missing.
pub proof fn law_every_residual_gets_an_order(
    ps: Seq<Position>,
    bs: Seq<BrokerRow>,
    n: int,
    i: int,
)
    requires
        0 <= i < n <= bs.len(),
    ensures
        ({
            let book = signed_of(ps, bs[i].security_id, ps.len() as int);
            let broker = bs[i].net_qty as int;
            let v = flatten_orders(ps, bs, n);
            &&& bs[i].security_id > 0 && broker > book ==> v.contains((i, true, broker - book))
            &&& bs[i].security_id > 0 && broker < book ==> v.contains((i, false, book - broker))
            &&& (bs[i].security_id <= 0 || broker == book) ==> forall|k: int|
                0 <= k < v.len() ==> (#[trigger] v[k]).0 != i
        }),
    decreases n,
{
    let book = signed_of(ps, bs[i].security_id, ps.len() as int);
    let broker = bs[i].net_qty as int;
    let was = flatten_orders(ps, bs, n - 1);
    let v = flatten_orders(ps, bs, n);
    assert forall|k: int| 0 <= k < was.len() implies (#[trigger] was[k]).0 < n - 1 by {
        law_residual_is_flattened(ps, bs, n - 1, k);
    }
    if i < n - 1 {
        law_every_residual_gets_an_order(ps, bs, n - 1, i);
        if was.contains((i, true, broker - book)) {
            let k = choose|k: int| 0 <= k < was.len() && was[k] == (i, true, broker - book);
            assert(v[k] == (i, true, broker - book));
        }
        if was.contains((i, false, book - broker)) {
            let k = choose|k: int| 0 <= k < was.len() && was[k] == (i, false, book - broker);
            assert(v[k] == (i, false, book - broker));
        }
        assert forall|k: int|
            0 <= k < v.len() && (bs[i].security_id <= 0 || broker == book) implies (
        #[trigger] v[k]).0 != i by {
            if k < was.len() {
                assert(v[k] == was[k]);
            }
        }
    } else if bs[i].security_id > 0 && broker != book {
        assert(v[v.len() - 1].0 == i);
    }
}

/// A position is closed for its pick exactly where it was opened as a pick and its
/// underlying, in capitals, is no longer among them.
pub proof fn law_dropped_picks(ps: Seq<Position>, keep: Seq<Seq<char>>, n: int)
    requires
        0 < n <= ps.len(),
    ensures
        dropped(ps, keep, n) == dropped(ps, keep, n - 1) + if ps[n - 1].nifty_pick && !(exists|k: int|
            0 <= k < keep.len() && #[trigger] keep[k] == text::upper_text(ps[n - 1].underlying@)) {
            seq![ps[n - 1].id@]
        } else {
            Seq::empty()
        },
{
    let was = dropped(ps, keep, n - 1);
    assert(was + seq![ps[n - 1].id@] =~= was.push(ps[n - 1].id@));
    assert(was + Seq::<Seq<char>>::empty() =~= was);
}

/// Something still is an estimate: an open position with orders that is not reconciled, or
/// a closed trade with exit orders that still waits.
pub proof fn law_what_waits_for_the_order_book(ps: Seq<Position>, p: Position, cs: Seq<Closed>, c: Closed)
    ensures
        waiting(ps.push(p), cs) <==> waiting(ps, cs) || !p.reconciled && p.order_ids@.len() > 0,
        waiting(ps, cs.push(c)) <==> waiting(ps, cs) || c.exit_pending && c.exit_order_ids@.len()
            > 0,
        !waiting(Seq::empty(), Seq::empty()),
{
    let all = ps.push(p);
    assert(all[ps.len() as int] == p);
    assert forall|i: int| 0 <= i < ps.len() implies all[i] == #[trigger] ps[i] by {
    }
    let done = cs.push(c);
    assert(done[cs.len() as int] == c);
    assert forall|i: int| 0 <= i < cs.len() implies done[i] == #[trigger] cs[i] by {
    }
    if exists|i: int|
        0 <= i < ps.len() && !(#[trigger] ps[i]).reconciled && ps[i].order_ids@.len() > 0 {
        let i = choose|i: int|
            0 <= i < ps.len() && !(#[trigger] ps[i]).reconciled && ps[i].order_ids@.len() > 0;
        assert(!all[i].reconciled && all[i].order_ids@.len() > 0);
    }
    if exists|i: int|
        0 <= i < all.len() && !(#[trigger] all[i]).reconciled && all[i].order_ids@.len() > 0 {
        let i = choose|i: int|
            0 <= i < all.len() && !(#[trigger] all[i]).reconciled && all[i].order_ids@.len() > 0;
        if i < ps.len() {
            assert(ps[i] == all[i]);
        }
    }
    if exists|i: int|
        0 <= i < cs.len() && (#[trigger] cs[i]).exit_pending && cs[i].exit_order_ids@.len() > 0 {
        let i = choose|i: int|
            0 <= i < cs.len() && (#[trigger] cs[i]).exit_pending && cs[i].exit_order_ids@.len() > 0;
        assert(done[i].exit_pending && done[i].exit_order_ids@.len() > 0);
    }
    if exists|i: int|
        0 <= i < done.len() && (#[trigger] done[i]).exit_pending && done[i].exit_order_ids@.len()
            > 0 {
        let i = choose|i: int|
            0 <= i < done.len() && (#[trigger] done[i]).exit_pending
                && done[i].exit_order_ids@.len() > 0;
        if i < cs.len() {
            assert(cs[i] == done[i]);
        }
    }
}

/// A report books something exactly where it changes its position or confirms it in full.
pub proof fn law_what_a_report_books(p: Position, f: FillPlan, avg: Num)
    ensures
        books(p, Some(f)) <==> f.filled > 0 || f.terminal && f.filled >= p.qty,
        !books(p, None),
        after_plan(p, None, avg) == p,
        !books(p, Some(f)) ==> after_plan(p, Some(f), avg) == p,
        after_plan(p, Some(f), avg) == filled_position(p, f.filled as int, f.terminal, avg),
{
}

/// The order book is read from two seconds after the last time on, by a connected live book
/// that waits for something.
pub proof fn law_when_the_order_book_is_read(last: int, now: int)
    ensures
        reads_now(false, true, true, last, now) <==> now >= last + 2 * 1000,
        !reads_now(true, true, true, last, now),
        !reads_now(false, false, true, last, now),
        !reads_now(false, true, false, last, now),
{
}

} // verus!
