//! Exits: when an open position is cut, at what price, and how broker reports
//! are booked.

use vstd::prelude::*;
use crate::book;
use crate::book::{closing, find_position, Closed, NetPnl, Position};
use crate::freeze::FreezeQty;
use crate::num::Num;
use crate::text;
use crate::textmap::TextMap;

verus! {

/// Why a position is cut.
#[derive(Clone, Copy, Debug, PartialEq, Eq, Structural)]
pub enum ExitReason {
    Target,
    TrailTp,
    TrailSl,
    StopLoss,
    /// The position is held.
    Hold,
}

/// The name of a reason; empty for none.
pub open spec fn reason_text(r: ExitReason) -> Seq<char> {
    match r {
        ExitReason::Target => "TARGET"@,
        ExitReason::TrailTp => "TRAIL_TP"@,
        ExitReason::TrailSl => "TRAIL_SL"@,
        ExitReason::StopLoss => "STOP_LOSS"@,
        ExitReason::Hold => ""@,
    }
}

/// The name of a reason; empty for none.
pub fn reason_name(r: ExitReason) -> (t: &'static str)
    ensures
        t@ == reason_text(r),
{
    match r {
        ExitReason::Target => "TARGET",
        ExitReason::TrailTp => "TRAIL_TP",
        ExitReason::TrailSl => "TRAIL_SL",
        ExitReason::StopLoss => "STOP_LOSS",
        ExitReason::Hold => "",
    }
}

/// The peak of the running profit after a reading.
pub open spec fn peak_after(peak: Num, per_unit: Num) -> Num {
    if per_unit.above(peak) {
        per_unit
    } else {
        peak
    }
}

/// The peak of the running profit after a reading.
pub fn peak_of(peak: Num, per_unit: Num) -> (r: Num)
    ensures
        r == peak_after(peak, per_unit),
{
    if per_unit.gt(&peak) {
        per_unit
    } else {
        peak
    }
}

/// The fixed stop of a position: the one captured at entry, else its stop.
pub open spec fn hard_stop(p: Position) -> Num {
    if p.overall_sl.positive() {
        p.overall_sl
    } else {
        p.sl
    }
}

/// A tick of a position. The stops are prices worked out from the peak.
#[derive(Clone, Copy, Debug, PartialEq, Eq, Structural)]
pub struct Tick {
    pub ltp: Num,
    /// Running profit of one unit.
    pub per_unit: Num,
    /// Peak of the running profit, this tick counted.
    pub peak: Num,
    /// Stop of the percent trail.
    pub profit_stop: Num,
    /// Stop of the points trail.
    pub point_stop: Num,
    /// The percent stop is clearly tighter than the fixed stop.
    pub profit_over_hard: bool,
    /// The points stop is clearly tighter than the fixed stop.
    pub point_over_hard: bool,
    /// The points stop is clearly tighter than the percent stop.
    pub point_over_profit: bool,
    /// Running profit below which the trailing target gives up.
    pub kept: Num,
    /// Price at which the trailing target gives up.
    pub kept_price: Num,
}

/// A stop replaces another: there is none yet, or it is clearly tighter.
pub open spec fn tighter(current: Num, clearly: bool) -> bool {
    (!current.nan && current.key <= 0) || clearly
}

/// Whether a stop replaces another, which may be missing.
pub fn more_favourable(current: Num, clearly: bool) -> (r: bool)
    ensures
        r == tighter(current, clearly),
{
    (!current.nan && current.key <= 0) || clearly
}

/// The stop in force and whether a trail moved it.
pub open spec fn stop_in_force(p: Position, t: Tick, paper: bool) -> (Num, bool) {
    let hard = hard_stop(p);
    let by_profit = p.trail.positive() && t.peak.positive() && tighter(hard, t.profit_over_hard);
    let sl = if by_profit {
        t.profit_stop
    } else {
        hard
    };
    let by_point = paper && p.point_trail.positive() && t.peak.positive() && tighter(
        sl,
        if by_profit {
            t.point_over_profit
        } else {
            t.point_over_hard
        },
    );
    (
        if by_point {
            t.point_stop
        } else {
            sl
        },
        by_profit || by_point,
    )
}

/// The price is at or beyond a stop.
pub open spec fn at_stop(buy: bool, ltp: Num, stop: Num) -> bool {
    if buy {
        stop.not_below(ltp)
    } else {
        ltp.not_below(stop)
    }
}

/// Why the tick cuts the position: the target, the trailing target, the trailed
/// stop, the fixed stop, in this order.
pub open spec fn exit_reason(p: Position, t: Tick, paper: bool) -> ExitReason {
    let buy = p.side@ == "BUY"@;
    let hard = hard_stop(p);
    let (sl, trailed) = stop_in_force(p, t, paper);
    if p.tp.positive() && at_stop(!buy, t.ltp, p.tp) {
        ExitReason::Target
    } else if p.trail_tp.positive() && t.peak.positive() && t.kept.not_below(t.per_unit) {
        ExitReason::TrailTp
    } else if trailed && at_stop(buy, t.ltp, sl) {
        ExitReason::TrailSl
    } else if hard.positive() && at_stop(buy, t.ltp, hard) {
        ExitReason::StopLoss
    } else {
        ExitReason::Hold
    }
}

/// The price an exit books: in the simulated book the level that triggered it,
/// else the live price.
pub open spec fn exit_price(p: Position, t: Tick, paper: bool) -> Num {
    match exit_reason(p, t, paper) {
        ExitReason::TrailSl => if paper {
            stop_in_force(p, t, paper).0
        } else {
            t.ltp
        },
        ExitReason::StopLoss => if paper {
            hard_stop(p)
        } else {
            t.ltp
        },
        ExitReason::TrailTp => if paper {
            t.kept_price
        } else {
            t.ltp
        },
        ExitReason::Target => if paper {
            p.tp
        } else {
            t.ltp
        },
        ExitReason::Hold => t.ltp,
    }
}

/// What a tick does to a position.
#[derive(Clone, Copy, Debug, PartialEq, Eq, Structural)]
pub struct ExitDecision {
    pub sl: Num,
    pub sl_trailed: bool,
    pub reason: ExitReason,
    pub price: Num,
    /// The exit waits out the simulated delay.
    pub queued: bool,
}

/// Decides what a tick does to a position.
pub fn manage_position(
    p: &Position,
    t: Tick,
    paper: bool,
    delay_on: bool,
    delay_positive: bool,
) -> (r: ExitDecision)
    ensures
        (r.sl, r.sl_trailed) == stop_in_force(*p, t, paper),
        r.reason == exit_reason(*p, t, paper),
        r.price == exit_price(*p, t, paper),
        r.queued == (r.reason != ExitReason::Hold && paper && delay_on && delay_positive),
{
    let buy = text::same(p.side.as_str(), "BUY");
    let hard = if p.overall_sl.is_positive() {
        p.overall_sl
    } else {
        p.sl
    };
    let by_profit = p.trail.is_positive() && t.peak.is_positive() && more_favourable(
        hard,
        t.profit_over_hard,
    );
    let mut sl = if by_profit {
        t.profit_stop
    } else {
        hard
    };
    let clearly = if by_profit {
        t.point_over_profit
    } else {
        t.point_over_hard
    };
    let by_point = paper && p.point_trail.is_positive() && t.peak.is_positive() && more_favourable(
        sl,
        clearly,
    );
    if by_point {
        sl = t.point_stop;
    }
    let trailed = by_profit || by_point;
    let hit_tp = p.tp.is_positive() && (if buy {
        t.ltp.ge(&p.tp)
    } else {
        t.ltp.le(&p.tp)
    });
    let hit_trail_tp = p.trail_tp.is_positive() && t.peak.is_positive() && t.per_unit.le(&t.kept);
    let hit_trail = trailed && (if buy {
        t.ltp.le(&sl)
    } else {
        t.ltp.ge(&sl)
    });
    let hit_hard = hard.is_positive() && (if buy {
        t.ltp.le(&hard)
    } else {
        t.ltp.ge(&hard)
    });
    let reason = if hit_tp {
        ExitReason::Target
    } else if hit_trail_tp {
        ExitReason::TrailTp
    } else if hit_trail {
        ExitReason::TrailSl
    } else if hit_hard {
        ExitReason::StopLoss
    } else {
        ExitReason::Hold
    };
    let price = if !paper {
        t.ltp
    } else {
        match reason {
            ExitReason::TrailSl => sl,
            ExitReason::StopLoss => hard,
            ExitReason::TrailTp => t.kept_price,
            ExitReason::Target => p.tp,
            ExitReason::Hold => t.ltp,
        }
    };
    let queued = reason != ExitReason::Hold && paper && delay_on && delay_positive;
    ExitDecision { sl, sl_trailed: trailed, reason, price, queued }
}

/// A position at or beyond its fixed stop is always cut on that tick.
pub proof fn law_hard_stop_always_cuts(p: Position, t: Tick, paper: bool)
    requires
        hard_stop(p).positive(),
        at_stop(p.side@ == "BUY"@, t.ltp, hard_stop(p)),
    ensures
        exit_reason(p, t, paper) != ExitReason::Hold,
{
}

/// Levels that are switched off never cut: without target, trailing target,
/// trails and stop a position is held at every tick.
pub proof fn law_no_levels_no_exit(p: Position, t: Tick, paper: bool)
    requires
        !p.tp.positive(),
        !p.trail_tp.positive(),
        !p.trail.positive(),
        !p.point_trail.positive(),
        !hard_stop(p).positive(),
    ensures
        exit_reason(p, t, paper) == ExitReason::Hold,
{
}

/// A stop is on the tighter side of another.
pub open spec fn closer(buy: bool, stop: Num, other: Num) -> bool {
    if buy {
        stop.above(other)
    } else {
        other.above(stop)
    }
}

/// The comparisons of a tick agree with the order of its prices.
pub open spec fn faithful(p: Position, t: Tick) -> bool {
    let buy = p.side@ == "BUY"@;
    &&& t.profit_stop.positive()
    &&& t.profit_over_hard ==> closer(buy, t.profit_stop, hard_stop(p))
    &&& t.point_over_hard ==> closer(buy, t.point_stop, hard_stop(p))
    &&& t.point_over_profit ==> closer(buy, t.point_stop, t.profit_stop)
}

/// The trails only ever tighten: where the comparisons of a tick agree with its
/// prices, the stop in force is the fixed stop or a tighter one. Without a trail
/// that beats it, it is the fixed stop.
pub proof fn law_trail_only_tightens(p: Position, t: Tick, paper: bool)
    ensures
        hard_stop(p).positive() && faithful(p, t) ==> stop_in_force(p, t, paper).0 == hard_stop(p)
            || closer(p.side@ == "BUY"@, stop_in_force(p, t, paper).0, hard_stop(p)),
        ({
            let (sl, trailed) = stop_in_force(p, t, paper);
            &&& !trailed ==> sl == hard_stop(p)
            &&& trailed && hard_stop(p).positive() ==> t.profit_over_hard || t.point_over_hard
            &&& trailed ==> t.peak.positive()
            &&& !paper && trailed ==> sl == t.profit_stop
        }),
{
}

/// A simulated exit books the level that triggered it: the stop at the stop, the
/// trail at the trail, the trailing target where it gave up, the target at the
/// target. A live exit books the live price.
pub proof fn law_exit_price_is_the_level(p: Position, t: Tick)
    ensures
        exit_reason(p, t, true) == ExitReason::Target ==> exit_price(p, t, true) == p.tp,
        exit_reason(p, t, true) == ExitReason::TrailTp ==> exit_price(p, t, true) == t.kept_price,
        exit_reason(p, t, true) == ExitReason::StopLoss ==> exit_price(p, t, true) == hard_stop(p),
        exit_reason(p, t, true) == ExitReason::TrailSl ==> exit_price(p, t, true)
            == stop_in_force(p, t, true).0,
        exit_price(p, t, false) == t.ltp,
{
}

/// The ids of the positions that are managed: those without an exit under way.
pub open spec fn managed(ps: Seq<Position>, n: int) -> Seq<Seq<char>>
    decreases n,
{
    if n <= 0 {
        Seq::empty()
    } else if book::is_closing(ps[n - 1]) {
        managed(ps, n - 1)
    } else {
        managed(ps, n - 1).push(ps[n - 1].id@)
    }
}

/// The ids of the positions that are managed.
pub fn managed_ids(ps: &Vec<Position>) -> (r: Vec<String>)
    ensures
        text::views(r@) == managed(ps@, ps@.len() as int),
{
    let mut out: Vec<String> = Vec::new();
    let mut i: usize = 0;
    assert(text::views(out@) =~= Seq::<Seq<char>>::empty());
    while i < ps.len()
        invariant
            i <= ps.len(),
            text::views(out@) == managed(ps@, i as int),
        decreases ps.len() - i,
    {
        if !closing(&ps[i]) {
            let ghost was = out@;
            out.push(ps[i].id.clone());
            assert(text::views(out@) =~= text::views(was).push(ps@[i as int].id@));
        }
        i += 1;
    }
    out
}

/// A position after a tick, prices rounded for display.
pub open spec fn marked(p: Position, ltp: Num, best: Num, sl: Num, trailed: bool, peak: Num) -> Position {
    Position { ltp, best, sl, sl_trailed: trailed, peak_profit: peak, ..p }
}

/// Reflects a tick on the book.
pub fn mark_position(
    ps: &mut Vec<Position>,
    id: &str,
    ltp: Num,
    best: Num,
    sl: Num,
    trailed: bool,
    peak: Num,
)
    ensures
        ({
            let i = book::place_of(old(ps)@, id@, 0);
            final(ps)@ == if i == old(ps)@.len() {
                old(ps)@
            } else {
                old(ps)@.update(i, marked(old(ps)@[i], ltp, best, sl, trailed, peak))
            }
        }),
{
    if let Some(i) = find_position(ps, id) {
        let p = &mut ps[i];
        p.ltp = ltp;
        p.best = best;
        p.sl = sl;
        p.sl_trailed = trailed;
        p.peak_profit = peak;
    }
}

/// Orders in flight: what is queued and when it is due.
pub struct InFlight {
    pub due: TextMap<i64>,
}

/// What is in flight once an order asks to be queued: one with the id of another
/// is refused.
pub open spec fn queued_after(m: Map<Seq<char>, i64>, id: Seq<char>, due: i64) -> Map<
    Seq<char>,
    i64,
> {
    if m.contains_key(id) {
        m
    } else {
        m.insert(id, due)
    }
}

/// One order of an id is in flight at a time: a second one changes nothing until
/// the first is resolved, and then there is room again.
pub proof fn law_one_in_flight(m: Map<Seq<char>, i64>, id: Seq<char>, first: i64, second: i64)
    ensures
        queued_after(m, id, first).contains_key(id),
        queued_after(queued_after(m, id, first), id, second) == queued_after(m, id, first),
        !queued_after(m, id, first).remove(id).contains_key(id),
{
}

impl InFlight {
    /// Nothing in flight.
    pub fn new() -> (r: Self)
        ensures
            r.due@ == Map::<Seq<char>, i64>::empty(),
    {
        InFlight { due: TextMap::new() }
    }

    /// Queues an order; refused while one with the id is in flight.
    pub fn queue(&mut self, id: &str, due: i64) -> (r: bool)
        ensures
            r == !old(self).due@.contains_key(id@),
            final(self).due@ == queued_after(old(self).due@, id@, due),
    {
        if self.due.contains_key(id) {
            return false;
        }
        self.due.insert(id.to_owned(), due);
        true
    }

    /// The order with the id is resolved.
    pub fn resolve(&mut self, id: &str)
        ensures
            final(self).due@ == old(self).due@.remove(id@),
    {
        self.due.remove(id);
    }
}

/// Whether a queued entry is still placed when it falls due.
pub fn delayed_entry_ready(engine_on: bool, armed: bool) -> (r: bool)
    ensures
        r == (engine_on && armed),
{
    engine_on && armed
}

/// The greater of two readings; the first where the second is not a number.
pub open spec fn greater(a: Num, b: Num) -> Num {
    if a.nan || b.above(a) {
        b
    } else {
        a
    }
}

/// The entry price of a position: the higher of fill and entry.
pub open spec fn entry_price(p: Position) -> Num {
    greater(p.fill_price, p.entry)
}

/// The entry price of a position.
pub fn entry_of(p: &Position) -> (r: Num)
    ensures
        r == entry_price(*p),
{
    if p.fill_price.nan || p.entry.gt(&p.fill_price) {
        p.entry
    } else {
        p.fill_price
    }
}

/// How a claimed position is closed.
#[derive(Debug)]
pub struct ClosePlan {
    pub method: String,
    pub entry: Num,
    /// The price the exit is booked from.
    pub mark: Num,
    pub buy: bool,
    /// An exit order goes to the broker.
    pub send: bool,
    /// The broker's protective legs are cancelled first.
    pub cancel_super: bool,
    /// The order is larger than the exchange takes in one piece.
    pub slice: bool,
    /// Charges are worked out and deducted.
    pub charge: bool,
}

/// The quantity exceeds a freeze limit; `qty` also as a reading.
pub open spec fn over_freeze(f: FreezeQty, qty: int, qty_key: Num) -> bool {
    match f {
        FreezeQty::Listed(n) => n.positive() && qty_key.above(n),
        FreezeQty::Fallback(n) => n > 0 && qty > n,
    }
}

/// Whether a quantity exceeds a freeze limit.
pub fn exceeds_freeze(f: &FreezeQty, qty: i64, qty_key: Num) -> (r: bool)
    ensures
        r == over_freeze(*f, qty as int, qty_key),
{
    match f {
        FreezeQty::Listed(n) => n.is_positive() && qty_key.gt(n),
        FreezeQty::Fallback(n) => *n > 0 && qty > *n,
    }
}

/// The price an exit is booked from: the one given, else the last price of the position,
/// else its entry.
pub open spec fn exit_mark(p: Position, exit: Num) -> Num {
    if exit.positive() {
        exit
    } else if p.ltp.positive() {
        p.ltp
    } else {
        entry_price(p)
    }
}

/// Plans the close of a claimed position. A missing exit price falls back to
/// the last price of the position, then to its entry.
pub fn close_plan(
    p: &Position,
    doc_method: &str,
    exit: Num,
    paper: bool,
    session: bool,
    broker_charges: bool,
    freeze: &FreezeQty,
    qty_key: Num,
) -> (r: ClosePlan)
    ensures
        r.method@ == if p.method@.len() == 0 {
            doc_method@
        } else {
            p.method@
        },
        r.entry == entry_price(*p),
        r.mark == exit_mark(*p, exit),
        r.buy == (p.side@ == "BUY"@),
        r.send == (!paper && session),
        r.cancel_super == (!paper && session && p.broker),
        r.slice == over_freeze(*freeze, p.qty as int, qty_key),
        r.charge == (paper && broker_charges),
{
    let method = if text::chars_of(p.method.as_str()).len() == 0 {
        doc_method.to_owned()
    } else {
        p.method.clone()
    };
    let entry = entry_of(p);
    let mark = if exit.is_positive() {
        exit
    } else if p.ltp.is_positive() {
        p.ltp
    } else {
        entry
    };
    ClosePlan {
        method,
        entry,
        mark,
        buy: text::same(p.side.as_str(), "BUY"),
        send: !paper && session,
        cancel_super: !paper && session && p.broker,
        slice: exceeds_freeze(freeze, p.qty, qty_key),
        charge: paper && broker_charges,
    }
}

/// Amounts of a closed trade, worked out from its plan.
#[derive(Clone, Copy, Debug, PartialEq, Eq, Structural)]
pub struct CloseAmounts {
    pub entry: Num,
    pub exit: Num,
    pub pnl: Num,
    pub charges: Num,
    /// Result after charges.
    pub net: Num,
}

/// The net result a close stores: after charges in the simulated book where
/// they are deducted, nothing where they are not, the gross result otherwise.
pub open spec fn net_of(paper: bool, charge: bool, a: CloseAmounts) -> NetPnl {
    if !paper {
        NetPnl::Net(a.pnl)
    } else if charge {
        NetPnl::Net(a.net)
    } else {
        NetPnl::Gross
    }
}

/// The ledger row of a close.
pub fn closed_row(
    p: &Position,
    plan: &ClosePlan,
    a: CloseAmounts,
    id: &str,
    paper: bool,
    charges_segment: &str,
    reason: &str,
    exit_order_ids: Vec<String>,
    now: i64,
) -> (r: Closed)
    ensures
        r.id@ == id@,
        r.position_id@ == p.id@,
        r.strategy_id@ == p.strategy_id@,
        r.strategy_name@ == p.strategy_name@,
        r.method@ == plan.method@,
        r.security_id == p.security_id,
        r.exchange_segment@ == p.exchange_segment@,
        r.instrument@ == p.instrument@,
        r.trading_symbol@ == p.trading_symbol@,
        r.side@ == p.side@,
        r.qty == p.qty,
        r.lots == p.lots,
        r.lot_size == p.lot_size,
        r.entry == a.entry,
        r.exit == a.exit,
        r.pnl == a.pnl,
        r.charges == a.charges,
        r.net_pnl == net_of(paper, plan.charge, a),
        r.charges_segment@ == charges_segment@,
        r.reason@ == reason@,
        r.exit_order_ids == exit_order_ids,
        r.exit_pending == (exit_order_ids@.len() > 0),
        r.opened_at == p.opened_at,
        r.closed_at == now,
{
    let exit_pending = exit_order_ids.len() > 0;
    Closed {
        id: id.to_owned(),
        position_id: p.id.clone(),
        strategy_id: p.strategy_id.clone(),
        strategy_name: p.strategy_name.clone(),
        method: plan.method.clone(),
        security_id: p.security_id,
        exchange_segment: p.exchange_segment.clone(),
        instrument: p.instrument.clone(),
        trading_symbol: p.trading_symbol.clone(),
        side: p.side.clone(),
        qty: p.qty,
        lots: p.lots,
        lot_size: p.lot_size,
        entry: a.entry,
        exit: a.exit,
        pnl: a.pnl,
        charges: a.charges,
        net_pnl: if !paper {
            NetPnl::Net(a.pnl)
        } else if plan.charge {
            NetPnl::Net(a.net)
        } else {
            NetPnl::Gross
        },
        charges_segment: charges_segment.to_owned(),
        reason: reason.to_owned(),
        exit_order_ids,
        exit_pending,
        opened_at: p.opened_at,
        closed_at: now,
    }
}

/// A level is set: it is a number above zero.
pub open spec fn is_set(level: Num) -> bool {
    !level.nan && level.key > 0
}

/// The price has come up to a level, or down to it.
pub open spec fn came_to(ltp: Num, level: Num, up: bool) -> bool {
    !ltp.nan && !level.nan && (if up {
        ltp.key >= level.key
    } else {
        ltp.key <= level.key
    })
}

/// The target is set and the price has come to it: up to it for a buyer, down to it for
/// a seller.
pub open spec fn target_reached(p: Position, t: Tick) -> bool {
    is_set(p.tp) && came_to(t.ltp, p.tp, p.side@ == "BUY"@)
}

/// The trailing target is set, there was a profit, and the running profit has fallen to
/// what is kept of it.
pub open spec fn profit_given_back(p: Position, t: Tick) -> bool {
    is_set(p.trail_tp) && is_set(t.peak) && came_to(t.per_unit, t.kept, false)
}

/// A position is cut at its target exactly where the target is set and the tick's price
/// has come to it, whatever the running profit.
pub proof fn law_target_cuts_at_the_target(p: Position, t: Tick, paper: bool)
    ensures
        exit_reason(p, t, paper) == ExitReason::Target <==> target_reached(p, t),
        exit_reason(p, t, paper) == ExitReason::TrailTp <==> !target_reached(p, t)
            && profit_given_back(p, t),
{
}

/// The stop that a position was opened with, else the one it carries.
pub open spec fn fixed_stop(p: Position) -> Num {
    if is_set(p.overall_sl) {
        p.overall_sl
    } else {
        p.sl
    }
}

/// Without trails a position is cut at its target or at its fixed stop and nowhere
/// else: a tick strictly between the two holds it.
pub proof fn law_between_stop_and_target_holds(p: Position, t: Tick, paper: bool)
    requires
        !is_set(p.trail_tp),
        !is_set(p.trail),
        !is_set(p.point_trail) || !paper,
    ensures
        ({
            let buy = p.side@ == "BUY"@;
            let stop_reached = is_set(fixed_stop(p)) && came_to(t.ltp, fixed_stop(p), !buy);
            &&& stop_in_force(p, t, paper) == (fixed_stop(p), false)
            &&& exit_reason(p, t, paper) == ExitReason::Hold <==> !target_reached(p, t)
                && !stop_reached
            &&& exit_reason(p, t, paper) == ExitReason::StopLoss <==> !target_reached(p, t)
                && stop_reached
        }),
{
}

/// A profit trail takes over the stop once there was a profit, where there is no fixed
/// stop or the trail is clearly tighter; the trail in points does so in the simulated
/// book alone, against the stop that the first one left.
pub proof fn law_which_stop_is_in_force(p: Position, t: Tick)
    ensures
        ({
            let hard = fixed_stop(p);
            let bare = !hard.nan && hard.key <= 0;
            let by_profit = is_set(p.trail) && is_set(t.peak) && (bare || t.profit_over_hard);
            let points = is_set(p.point_trail) && is_set(t.peak);
            let loose = !t.profit_stop.nan && t.profit_stop.key <= 0;
            let live = stop_in_force(p, t, false);
            let simulated = stop_in_force(p, t, true);
            &&& by_profit ==> live == (t.profit_stop, true)
            &&& !by_profit ==> live == (hard, false)
            &&& !points ==> simulated == live
            &&& points && by_profit && (loose || t.point_over_profit) ==> simulated == (
                t.point_stop,
                true,
            )
            &&& points && by_profit && !loose && !t.point_over_profit ==> simulated == live
            &&& points && !by_profit && (bare || t.point_over_hard) ==> simulated == (
                t.point_stop,
                true,
            )
            &&& points && !by_profit && !bare && !t.point_over_hard ==> simulated == live
        }),
{
}

/// A trailed stop cuts where the price has come to it and no target came first; the
/// fixed stop cuts what is left.
pub proof fn law_stops_cut_where_reached(p: Position, t: Tick, paper: bool)
    ensures
        ({
            let buy = p.side@ == "BUY"@;
            let (sl, trailed) = stop_in_force(p, t, paper);
            let first = target_reached(p, t) || profit_given_back(p, t);
            let at_trail = trailed && came_to(t.ltp, sl, !buy);
            let at_fixed = is_set(fixed_stop(p)) && came_to(t.ltp, fixed_stop(p), !buy);
            &&& exit_reason(p, t, paper) == ExitReason::TrailSl <==> !first && at_trail
            &&& exit_reason(p, t, paper) == ExitReason::StopLoss <==> !first && !at_trail
                && at_fixed
            &&& exit_reason(p, t, paper) == ExitReason::Hold <==> !first && !at_trail && !at_fixed
        }),
{
}

/// What an exit books: in the simulated book the level that cut it, live the price of
/// the tick.
pub proof fn law_exit_books_its_level(p: Position, t: Tick)
    ensures
        exit_price(p, t, false) == t.ltp,
        target_reached(p, t) ==> exit_price(p, t, true) == p.tp,
        !target_reached(p, t) && profit_given_back(p, t) ==> exit_price(p, t, true)
            == t.kept_price,
        exit_reason(p, t, true) == ExitReason::TrailSl ==> exit_price(p, t, true)
            == stop_in_force(p, t, true).0,
        exit_reason(p, t, true) == ExitReason::StopLoss ==> exit_price(p, t, true) == fixed_stop(p),
        exit_reason(p, t, true) == ExitReason::Hold ==> exit_price(p, t, true) == t.ltp,
{
}

/// The peak never falls: it is the greater of the two where both are numbers, and a
/// reading that is not a number leaves it alone.
pub proof fn law_peak_never_falls(peak: Num, per_unit: Num)
    ensures
        !peak.nan && !per_unit.nan ==> peak_after(peak, per_unit).key >= peak.key && peak_after(
            peak,
            per_unit,
        ).key >= per_unit.key,
        peak_after(peak, per_unit) == peak || peak_after(peak, per_unit) == per_unit,
        per_unit.nan || peak.nan ==> peak_after(peak, per_unit) == peak,
        per_unit.key == peak.key ==> peak_after(peak, per_unit) == peak,
{
}

/// Every position that is not closing is managed, in the order of the book, and
/// no other.
pub proof fn law_managed_are_not_closing(ps: Seq<Position>, n: int)
    requires
        0 <= n <= ps.len(),
    ensures
        forall|i: int|
            0 <= i < n && text::downs((#[trigger] ps[i]).status@) != "closing"@ ==> managed(ps, n).contains(
                ps[i].id@,
            ),
        forall|k: int|
            0 <= k < managed(ps, n).len() ==> exists|i: int|
                0 <= i < n && text::downs((#[trigger] ps[i]).status@) != "closing"@ && ps[i].id@
                    == #[trigger] managed(ps, n)[k],
        n > 0 ==> managed(ps, n) == managed(ps, n - 1) + if text::downs(ps[n - 1].status@) == "closing"@ {
            Seq::empty()
        } else {
            seq![ps[n - 1].id@]
        },
    decreases n,
{
    if n > 0 {
        law_managed_are_not_closing(ps, n - 1);
        let before = managed(ps, n - 1);
        let m = managed(ps, n);
        assert(before + Seq::<Seq<char>>::empty() =~= before);
        assert(before + seq![ps[n - 1].id@] =~= before.push(ps[n - 1].id@));
        assert forall|i: int| 0 <= i < n && text::downs((#[trigger] ps[i]).status@) != "closing"@ implies m.contains(
            ps[i].id@,
        ) by {
            if i < n - 1 {
                let k = choose|k: int| 0 <= k < before.len() && before[k] == ps[i].id@;
                assert(m[k] == ps[i].id@);
            } else {
                assert(m[m.len() - 1] == ps[i].id@);
            }
        }
        assert forall|k: int| 0 <= k < m.len() implies exists|i: int|
            0 <= i < n && text::downs((#[trigger] ps[i]).status@) != "closing"@ && ps[i].id@ == #[trigger] m[k] by {
            if k < before.len() {
                let i = choose|i: int|
                    0 <= i < n - 1 && text::downs((#[trigger] ps[i]).status@) != "closing"@ && ps[i].id@
                        == before[k];
                assert(ps[i].id@ == m[k]);
            } else {
                assert(ps[n - 1].id@ == m[k]);
            }
        }
    }
}

/// A tick reflects on prices, stop and peak alone: what was bought, at what price and
/// with which levels stays.
pub proof fn law_a_tick_keeps_the_trade(
    p: Position,
    ltp: Num,
    best: Num,
    sl: Num,
    trailed: bool,
    peak: Num,
)
    ensures
        ({
            let q = marked(p, ltp, best, sl, trailed, peak);
            &&& q.ltp == ltp && q.best == best && q.sl == sl && q.sl_trailed == trailed
            &&& q.peak_profit == peak
            &&& q.id == p.id && q.strategy_id == p.strategy_id && q.side == p.side
            &&& q.qty == p.qty && q.filled_qty == p.filled_qty && q.lots == p.lots
            &&& q.entry == p.entry && q.fill_price == p.fill_price
            &&& q.overall_sl == p.overall_sl && q.tp == p.tp && q.trail == p.trail
            &&& q.point_trail == p.point_trail && q.trail_tp == p.trail_tp
            &&& q.order_ids == p.order_ids && q.super_orders == p.super_orders
            &&& q.status == p.status && q.reconciled == p.reconciled && q.broker == p.broker
        }),
{
}

/// The entry price is the higher of fill and entry where both are numbers, else the one
/// that is.
pub proof fn law_entry_price_is_the_higher(p: Position)
    ensures
        !p.fill_price.nan && !p.entry.nan ==> entry_price(p).key >= p.fill_price.key && entry_price(
            p,
        ).key >= p.entry.key,
        entry_price(p) == p.fill_price || entry_price(p) == p.entry,
        p.fill_price.nan ==> entry_price(p) == p.entry,
        p.entry.nan && !p.fill_price.nan ==> entry_price(p) == p.fill_price,
{
}

/// An order is over the freeze limit exactly where a limit is known and the quantity is
/// above it.
pub proof fn law_freeze_is_an_upper_bound(f: FreezeQty, qty: int, key: Num)
    ensures
        f matches FreezeQty::Fallback(n) ==> (over_freeze(f, qty, key) <==> qty > n && n > 0),
        f matches FreezeQty::Listed(n) ==> (over_freeze(f, qty, key) <==> is_set(n) && !key.nan
            && key.key > n.key),
{
}

/// What a close stores as net: live the gross result, in the simulated book the result
/// after charges where they are deducted.
pub proof fn law_charges_are_deducted_once(charge: bool, a: CloseAmounts)
    ensures
        net_of(false, charge, a) == NetPnl::Net(a.pnl),
        net_of(true, true, a) == NetPnl::Net(a.net),
        net_of(true, false, a) == NetPnl::Gross,
{
}

/// An exit is booked from the price given, where it is one; else from the last price, and
/// last from the entry.
pub proof fn law_exit_mark_by_rank(p: Position, exit: Num)
    ensures
        is_set(exit) ==> exit_mark(p, exit) == exit,
        !is_set(exit) && is_set(p.ltp) ==> exit_mark(p, exit) == p.ltp,
        !is_set(exit) && !is_set(p.ltp) ==> exit_mark(p, exit) == entry_price(p),
{
}

} // verus!
