//! Entries: the checks before an order, its quantity, its levels, and the
//! position that results.

use vstd::prelude::*;
use crate::book::Position;
use crate::exits;
use crate::freeze::FreezeQty;
use crate::model::{Settings, Strategy};
use crate::num::Num;
use crate::text;

verus! {

/// Why an entry is refused.
#[derive(Clone, Copy, Debug, PartialEq, Eq, Structural)]
pub enum EntryError {
    NotConnected,
    NoClientId,
    PaperNoPrice,
    NoPrice,
    PaperNoOptionPrice,
    NoOptionPrice,
    StalePremium,
    ZeroQuantity,
}

/// The text of a refusal.
pub open spec fn refusal(e: EntryError) -> Seq<char> {
    match e {
        EntryError::NotConnected => "not connected to Dhan"@,
        EntryError::NoClientId => "no client id"@,
        EntryError::PaperNoPrice => "paper: no live feed LTP yet for entry"@,
        EntryError::NoPrice => "no LTP available"@,
        EntryError::PaperNoOptionPrice => "paper: waiting for live feed LTP on resolved option"@,
        EntryError::NoOptionPrice => "no LTP for resolved option"@,
        EntryError::StalePremium => "stale option LTP (premium below intrinsic); entry skipped"@,
        EntryError::ZeroQuantity => "computed quantity is zero"@,
    }
}

/// The text of a refusal.
pub fn message(e: EntryError) -> (r: &'static str)
    ensures
        r@ == refusal(e),
{
    match e {
        EntryError::NotConnected => "not connected to Dhan",
        EntryError::NoClientId => "no client id",
        EntryError::PaperNoPrice => "paper: no live feed LTP yet for entry",
        EntryError::NoPrice => "no LTP available",
        EntryError::PaperNoOptionPrice => "paper: waiting for live feed LTP on resolved option",
        EntryError::NoOptionPrice => "no LTP for resolved option",
        EntryError::StalePremium => "stale option LTP (premium below intrinsic); entry skipped",
        EntryError::ZeroQuantity => "computed quantity is zero",
    }
}

/// Whether an entry can start: the simulated book always can, a live one needs
/// the broker's client and client id.
pub fn entry_start(paper: bool, client: bool, client_id: bool) -> (r: Result<(), EntryError>)
    ensures
        r is Ok <==> paper || (client && client_id),
        r is Err ==> r->Err_0 == if !client {
            EntryError::NotConnected
        } else {
            EntryError::NoClientId
        },
{
    if paper {
        return Ok(());
    }
    if !client {
        return Err(EntryError::NotConnected);
    }
    if !client_id {
        return Err(EntryError::NoClientId);
    }
    Ok(())
}

/// The strategy names an index, so an option contract must be resolved.
pub open spec fn on_index(s: Strategy) -> bool {
    text::downs(s.instrument@) == "index"@ || text::downs(s.exchange_segment@) == "idx_i"@
}

/// Whether an option contract must be resolved for the strategy.
pub fn needs_option(s: &Strategy) -> (r: bool)
    ensures
        r == on_index(*s),
{
    let i = text::to_ascii_lower(s.instrument.as_str());
    if text::same(i.as_str(), "index") {
        return true;
    }
    let e = text::to_ascii_lower(s.exchange_segment.as_str());
    text::same(e.as_str(), "idx_i")
}

/// The option side an entry resolves with: for an order placed by hand on an
/// index the side of the order, else the operator's.
pub open spec fn option_side_of(s: Strategy, option_side: Seq<char>) -> Seq<char> {
    if s.manual && on_index(s) {
        if text::downs(s.side@) == "sell"@ {
            "PE"@
        } else {
            "CE"@
        }
    } else {
        option_side
    }
}

/// The option side an entry resolves with: for an order placed by hand on an
/// index the side of the order, else the operator's.
pub fn entry_option_side(s: &Strategy, option_side: &str) -> (r: String)
    ensures
        r@ == option_side_of(*s, option_side@),
{
    if s.manual && needs_option(s) {
        let l = text::to_ascii_lower(s.side.as_str());
        return if text::same(l.as_str(), "sell") {
            "PE".to_owned()
        } else {
            "CE".to_owned()
        };
    }
    option_side.to_owned()
}

/// The exchange segment of an entry.
pub fn entry_exchange(segment: &str) -> (r: String)
    ensures
        r@ == if segment@.len() == 0 {
            "NSE_FNO"@
        } else {
            segment@
        },
{
    if text::chars_of(segment).len() == 0 {
        "NSE_FNO".to_owned()
    } else {
        segment.to_owned()
    }
}

/// Checks the price found for an entry; `resolved` tells that it is that of a
/// resolved contract.
pub fn price_check(paper: bool, resolved: bool, ltp: Num) -> (r: Result<(), EntryError>)
    ensures
        r is Err <==> !ltp.nan && ltp.key <= 0,
        r is Err ==> r->Err_0 == match (paper, resolved) {
            (true, false) => EntryError::PaperNoPrice,
            (false, false) => EntryError::NoPrice,
            (true, true) => EntryError::PaperNoOptionPrice,
            (false, true) => EntryError::NoOptionPrice,
        },
{
    if !ltp.nan && ltp.key <= 0 {
        return Err(
            match (paper, resolved) {
                (true, false) => EntryError::PaperNoPrice,
                (false, false) => EntryError::NoPrice,
                (true, true) => EntryError::PaperNoOptionPrice,
                (false, true) => EntryError::NoOptionPrice,
            },
        );
    }
    Ok(())
}

/// Checks the premium of an option contract against its underlying.
pub fn premium_check(option: bool, sane: bool) -> (r: Result<(), EntryError>)
    ensures
        r is Err <==> option && !sane,
        r is Err ==> r->Err_0 == EntryError::StalePremium,
{
    if option && !sane {
        Err(EntryError::StalePremium)
    } else {
        Ok(())
    }
}

/// Where the lot size comes from.
#[derive(Clone, Copy, Debug, PartialEq, Eq, Structural)]
pub enum LotSource {
    Strategy,
    Settings,
    Master,
}

/// Where the lot size comes from: the strategy, the settings, else the master.
pub open spec fn lot_from(strategy_lot: Num, settings_lot: Num) -> LotSource {
    if strategy_lot.positive() {
        LotSource::Strategy
    } else if settings_lot.positive() {
        LotSource::Settings
    } else {
        LotSource::Master
    }
}

/// Where the lot size comes from: the strategy, the settings, else the master.
pub fn lot_source(strategy_lot: Num, settings_lot: Num) -> (r: LotSource)
    ensures
        r == lot_from(strategy_lot, settings_lot),
{
    if strategy_lot.is_positive() {
        LotSource::Strategy
    } else if settings_lot.is_positive() {
        LotSource::Settings
    } else {
        LotSource::Master
    }
}

/// The readings the automatic lot count weighs, and the lots each of them
/// allows.
#[derive(Clone, Copy, Debug, PartialEq, Eq, Structural)]
pub struct LotCaps {
    pub lot: Num,
    pub price: Num,
    pub oi: Num,
    pub volume: Num,
    pub avail: Num,
    pub oi_pct: Num,
    pub volume_pct: Num,
    pub volume_lots: Num,
    pub oi_lots: Num,
    pub margin_lots: Num,
}

/// The lesser of two readings; the first where the second is not a number.
pub open spec fn lesser(a: Num, b: Num) -> Num {
    if a.nan || a.above(b) {
        b
    } else {
        a
    }
}

fn lesser_of(a: Num, b: Num) -> (r: Num)
    ensures
        r == lesser(a, b),
{
    if a.nan || a.gt(&b) {
        b
    } else {
        a
    }
}

/// The lots a usable reading allows.
pub open spec fn cap(usable: bool, lots: Num) -> Option<Num> {
    if usable {
        Some(lots)
    } else {
        None
    }
}

/// The tighter of two caps, either of which may be missing.
pub open spec fn tightest(a: Option<Num>, b: Option<Num>) -> Option<Num> {
    match (a, b) {
        (Some(x), Some(y)) => Some(lesser(x, y)),
        (Some(x), None) => Some(x),
        (None, y) => y,
    }
}

fn tightest_of(a: Option<Num>, b: Option<Num>) -> (r: Option<Num>)
    ensures
        r == tightest(a, b),
{
    match (a, b) {
        (Some(x), Some(y)) => Some(lesser_of(x, y)),
        (Some(x), None) => Some(x),
        (None, y) => y,
    }
}

/// The caps that apply, as one.
pub open spec fn lots_cap(c: LotCaps) -> Option<Num> {
    tightest(
        tightest(
            cap(c.volume.positive() && c.volume_pct.positive(), c.volume_lots),
            cap(c.oi.positive() && c.oi_pct.positive(), c.oi_lots),
        ),
        cap(c.avail.positive() && c.price.positive(), c.margin_lots),
    )
}

/// The automatic lot count: the caps as one, where they allow anything.
pub open spec fn auto_lots(c: LotCaps) -> Option<Num> {
    if !c.lot.nan && c.lot.key <= 0 {
        None
    } else {
        match lots_cap(c) {
            Some(l) => if l.positive() {
                Some(l)
            } else {
                None
            },
            None => None,
        }
    }
}

/// The automatic lot count: the least of what volume, open interest and margin
/// allow. `None` without a lot size, a usable reading or a positive count.
pub fn calc_auto_lots(c: LotCaps) -> (r: Option<Num>)
    ensures
        r == auto_lots(c),
{
    if !c.lot.nan && c.lot.key <= 0 {
        return None;
    }
    let vol = if c.volume.is_positive() && c.volume_pct.is_positive() {
        Some(c.volume_lots)
    } else {
        None
    };
    let oi = if c.oi.is_positive() && c.oi_pct.is_positive() {
        Some(c.oi_lots)
    } else {
        None
    };
    let margin = if c.avail.is_positive() && c.price.is_positive() {
        Some(c.margin_lots)
    } else {
        None
    };
    let lots = tightest_of(tightest_of(vol, oi), margin);
    match lots {
        Some(l) => if l.is_positive() {
            Some(l)
        } else {
            None
        },
        None => None,
    }
}

/// The automatic lot count never exceeds any cap that applies.
pub proof fn law_smaller_cap_wins(c: LotCaps)
    requires
        lots_cap(c) is Some,
        !c.volume_lots.nan,
        !c.oi_lots.nan,
        !c.margin_lots.nan,
    ensures
        c.volume.positive() && c.volume_pct.positive() ==> c.volume_lots.not_below(
            lots_cap(c)->0,
        ),
        c.oi.positive() && c.oi_pct.positive() ==> c.oi_lots.not_below(lots_cap(c)->0),
        c.avail.positive() && c.price.positive() ==> c.margin_lots.not_below(lots_cap(c)->0),
{
}

/// Checks the quantity of an entry.
pub fn quantity_check(qty: i64) -> (r: Result<(), EntryError>)
    ensures
        r is Err <==> qty <= 0,
        r is Err ==> r->Err_0 == EntryError::ZeroQuantity,
{
    if qty <= 0 {
        Err(EntryError::ZeroQuantity)
    } else {
        Ok(())
    }
}

/// Where the margin budget comes from.
#[derive(Clone, Copy, Debug, PartialEq, Eq, Structural)]
pub enum Budget {
    /// An amount of money.
    Amount(Num),
    /// A percentage of a balance.
    Share { pct: Num, balance: Num },
}

/// The margin budget: the operator's amount where one is set, capped by the
/// balance, else a percentage of the balance within zero and a hundred.
pub open spec fn budget(amount: Num, pct: Num, available: Num, zero: Num, hundred: Num) -> Budget {
    let balance = exits::greater(available, zero);
    if !amount.positive() {
        Budget::Share { pct: clamped(pct, zero, hundred), balance }
    } else if amount.above(balance) {
        Budget::Amount(balance)
    } else {
        Budget::Amount(amount)
    }
}

/// The margin budget: the operator's amount where one is set, capped by the
/// balance, else a percentage of the balance within zero and a hundred.
pub fn margin_budget_of(amount: Num, pct: Num, available: Num, zero: Num, hundred: Num) -> (r: Budget)
    ensures
        r == budget(amount, pct, available, zero, hundred),
{
    let balance = if available.nan || zero.gt(&available) {
        zero
    } else {
        available
    };
    if !amount.is_positive() {
        Budget::Share { pct: clamp_to(pct, zero, hundred), balance }
    } else if amount.gt(&balance) {
        Budget::Amount(balance)
    } else {
        Budget::Amount(amount)
    }
}

/// A budget is configured and the entry needs more than what is left of it.
pub open spec fn over_budget(budget: Num, required: Num, available: Num) -> bool {
    budget.positive() && required.above(available)
}

/// Whether the margin gate blocks an entry: a budget is configured and the
/// entry needs more than what the running trades leave of it.
pub fn margin_blocks(budget: Num, required: Num, available: Num) -> (r: bool)
    ensures
        r == over_budget(budget, required, available),
{
    budget.is_positive() && required.gt(&available)
}

/// The text of a margin refusal, the amounts already written out.
pub fn margin_message(
    required: &str,
    available: &str,
    budget: &str,
    locked: &str,
    running: i64,
) -> (r: String)
    ensures
        r@ == "trade blocked: required margin "@ + required@ + " > available "@ + available@
            + " (Margin "@ + budget@ + " - locked "@ + locked@ + " by "@ + text::int_dec(
            running as int,
        ) + " running trade"@ + (if running == 1 {
            ""@
        } else {
            "s"@
        }) + ")"@,
{
    let mut m = "trade blocked: required margin ".to_owned();
    text::push_text(&mut m, required);
    text::push_text(&mut m, " > available ");
    text::push_text(&mut m, available);
    text::push_text(&mut m, " (Margin ");
    text::push_text(&mut m, budget);
    text::push_text(&mut m, " - locked ");
    text::push_text(&mut m, locked);
    text::push_text(&mut m, " by ");
    text::push_int(&mut m, running);
    text::push_text(&mut m, " running trade");
    text::push_text(
        &mut m,
        if running == 1 {
            ""
        } else {
            "s"
        },
    );
    text::push_text(&mut m, ")");
    m
}

/// The readings the entry levels are chosen from.
#[derive(Clone, Copy, Debug, PartialEq, Eq, Structural)]
pub struct LevelNums {
    pub ltp: Num,
    pub manual_sl_pct: Num,
    pub cfg_sl_pct: Num,
    pub manual_trail_pct: Num,
    pub cfg_trail_pct: Num,
    pub points: Num,
    pub cfg_jump: Num,
    pub manual_trail_tp_pct: Num,
    pub ai_sl: Num,
    pub ai_tp: Num,
    pub ai_trail: Num,
    pub zero: Num,
    pub hundred: Num,
}

/// Where the stop comes from.
#[derive(Clone, Copy, Debug, PartialEq, Eq, Structural)]
pub enum StopSource {
    /// A percentage off the price.
    Percent(Num),
    /// The volatility stop.
    Volatility(Num),
    Off,
}

/// Where the percent trail comes from.
#[derive(Clone, Copy, Debug, PartialEq, Eq, Structural)]
pub enum TrailSource {
    /// A percentage, between zero and a hundred.
    Percent(Num),
    /// The volatility distance, as a share of the price.
    Volatility(Num),
    Off,
}

/// Where the target comes from.
#[derive(Clone, Copy, Debug, PartialEq, Eq, Structural)]
pub enum TargetSource {
    /// The stop distance times the reward ratio.
    RiskReward,
    /// The volatility target.
    Volatility(Num),
    Off,
}

/// The levels of an entry.
#[derive(Clone, Copy, Debug, PartialEq, Eq, Structural)]
pub struct LevelPlan {
    pub stop: StopSource,
    pub trail: TrailSource,
    pub point_trail: Num,
    pub trail_tp_pct: Num,
    pub target: TargetSource,
}

/// A configured value, else its fallback.
pub open spec fn or_cfg(v: Num, fallback: Num) -> Num {
    if v.positive() {
        v
    } else {
        fallback
    }
}

fn or_else(v: Num, fallback: Num) -> (r: Num)
    ensures
        r == or_cfg(v, fallback),
{
    if v.is_positive() {
        v
    } else {
        fallback
    }
}

/// A reading kept between two bounds.
pub open spec fn clamped(v: Num, lo: Num, hi: Num) -> Num {
    if lo.above(v) {
        lo
    } else if v.above(hi) {
        hi
    } else {
        v
    }
}

fn clamp_to(v: Num, lo: Num, hi: Num) -> (r: Num)
    ensures
        r == clamped(v, lo, hi),
{
    if v.lt(&lo) {
        lo
    } else if v.gt(&hi) {
        hi
    } else {
        v
    }
}

/// The percentage of the manual stop; zero where it is off.
pub open spec fn manual_stop_pct(s: Settings, n: LevelNums) -> Num {
    if s.manual_sl {
        or_cfg(n.manual_sl_pct, n.cfg_sl_pct)
    } else {
        n.zero
    }
}

/// The give-back of the trailing target; zero where it is off.
pub open spec fn trail_target_pct(s: Settings, n: LevelNums) -> Num {
    if s.manual_trail_tp && n.manual_trail_tp_pct.positive() {
        n.manual_trail_tp_pct
    } else {
        n.zero
    }
}

/// The distance of the trail in points; zero where it is off.
pub open spec fn point_distance(s: Settings, n: LevelNums) -> Num {
    if s.manual_point_trail_sl {
        exits::greater(or_cfg(n.points, n.cfg_jump), n.zero)
    } else {
        n.zero
    }
}

/// The stop of an entry.
pub open spec fn stop_source(s: Settings, n: LevelNums) -> StopSource {
    if manual_stop_pct(s, n).positive() {
        StopSource::Percent(manual_stop_pct(s, n))
    } else if (s.ai_sl || s.sl_auto) && !s.manual_sl && !s.manual_trail_sl && n.ai_sl.positive() {
        StopSource::Volatility(n.ai_sl)
    } else {
        StopSource::Off
    }
}

/// The percent trail of an entry.
pub open spec fn trail_source(s: Settings, n: LevelNums) -> TrailSource {
    if s.manual_trail_sl {
        TrailSource::Percent(clamped(or_cfg(n.manual_trail_pct, n.cfg_trail_pct), n.zero, n.hundred))
    } else if s.ai_trail_tp && !s.manual_trail_tp && n.ai_trail.positive() && n.ltp.positive() {
        TrailSource::Volatility(n.ai_trail)
    } else {
        TrailSource::Off
    }
}

/// The target of an entry.
pub open spec fn target_source(s: Settings, n: LevelNums) -> TargetSource {
    let pct = trail_target_pct(s, n);
    if s.rr_enabled {
        if stop_source(s, n) == StopSource::Off {
            TargetSource::Off
        } else {
            TargetSource::RiskReward
        }
    } else if !pct.nan && pct.key <= 0 && (s.ai_tp_pct || s.ai_trail_tp) && !s.manual_trail_tp
        && n.ai_tp.positive() {
        TargetSource::Volatility(n.ai_tp)
    } else {
        TargetSource::Off
    }
}

/// Chooses the levels of an entry. The operator's switches are authoritative: a
/// leftover value never arms a level that is switched off. For targets the
/// reward ratio precedes the trailing target, which precedes the volatility
/// target.
pub fn levels_for(s: &Settings, n: LevelNums) -> (r: LevelPlan)
    ensures
        r.stop == stop_source(*s, n),
        r.trail == trail_source(*s, n),
        r.point_trail == point_distance(*s, n),
        r.trail_tp_pct == trail_target_pct(*s, n),
        r.target == target_source(*s, n),
{
    let sl_pct = if s.manual_sl {
        or_else(n.manual_sl_pct, n.cfg_sl_pct)
    } else {
        n.zero
    };
    let stop = if sl_pct.is_positive() {
        StopSource::Percent(sl_pct)
    } else if (s.ai_sl || s.sl_auto) && !s.manual_sl && !s.manual_trail_sl && n.ai_sl.is_positive() {
        StopSource::Volatility(n.ai_sl)
    } else {
        StopSource::Off
    };
    let trail = if s.manual_trail_sl {
        TrailSource::Percent(
            clamp_to(or_else(n.manual_trail_pct, n.cfg_trail_pct), n.zero, n.hundred),
        )
    } else if s.ai_trail_tp && !s.manual_trail_tp && n.ai_trail.is_positive()
        && n.ltp.is_positive() {
        TrailSource::Volatility(n.ai_trail)
    } else {
        TrailSource::Off
    };
    let point_trail = if s.manual_point_trail_sl {
        let p = or_else(n.points, n.cfg_jump);
        if p.nan || n.zero.gt(&p) {
            n.zero
        } else {
            p
        }
    } else {
        n.zero
    };
    let trail_tp_pct = if s.manual_trail_tp && n.manual_trail_tp_pct.is_positive() {
        n.manual_trail_tp_pct
    } else {
        n.zero
    };
    let target = if s.rr_enabled {
        if stop == StopSource::Off {
            TargetSource::Off
        } else {
            TargetSource::RiskReward
        }
    } else if !trail_tp_pct.nan && trail_tp_pct.key <= 0 && (s.ai_tp_pct || s.ai_trail_tp)
        && !s.manual_trail_tp && n.ai_tp.is_positive() {
        TargetSource::Volatility(n.ai_tp)
    } else {
        TargetSource::Off
    };
    LevelPlan { stop, trail, point_trail, trail_tp_pct, target }
}

/// The levels of an entry use the volatility readings.
pub open spec fn wants_volatility(s: Settings) -> bool {
    ||| (s.ai_sl || s.sl_auto) && !s.manual_sl && !s.manual_trail_sl
    ||| s.ai_trail_tp && !s.manual_trail_sl && !s.manual_trail_tp
    ||| (s.ai_tp_pct || s.ai_trail_tp) && !s.manual_trail_tp
}

/// Whether the volatility readings are worth fetching before an entry.
pub fn needs_volatility(s: &Settings) -> (r: bool)
    ensures
        r == wants_volatility(*s),
{
    ((s.ai_sl || s.sl_auto) && !s.manual_sl && !s.manual_trail_sl) || (s.ai_trail_tp
        && !s.manual_trail_sl && !s.manual_trail_tp) || ((s.ai_tp_pct || s.ai_trail_tp)
        && !s.manual_trail_tp)
}

/// Levels that are switched off stay off whatever values are left over.
pub proof fn law_switched_off_levels_stay_off(s: Settings, n: LevelNums)
    requires
        n.zero == (Num { nan: false, infinite: false, key: 0 }),
    ensures
        !s.manual_sl && !s.ai_sl && !s.sl_auto ==> stop_source(s, n) == StopSource::Off,
        !s.manual_trail_sl && !s.ai_trail_tp ==> trail_source(s, n) == TrailSource::Off,
        !s.rr_enabled && !s.ai_tp_pct && !s.ai_trail_tp ==> target_source(s, n)
            == TargetSource::Off,
        !s.manual_trail_tp ==> trail_target_pct(s, n) == n.zero,
{
}

/// The reward ratio overrides every other target, and without a stop to measure
/// it from there is none; a trailing target rules out the volatility target.
pub proof fn law_target_precedence(s: Settings, n: LevelNums)
    ensures
        s.rr_enabled && stop_source(s, n) != StopSource::Off ==> target_source(s, n)
            == TargetSource::RiskReward,
        s.rr_enabled && stop_source(s, n) == StopSource::Off ==> target_source(s, n)
            == TargetSource::Off,
        s.manual_trail_tp && !s.rr_enabled ==> target_source(s, n) == TargetSource::Off,
{
}

/// Where the volatility readings are not fetched no level would have used them.
pub proof fn law_volatility_is_fetched_when_used(s: Settings, n: LevelNums)
    requires
        !wants_volatility(s),
    ensures
        !(stop_source(s, n) is Volatility),
        !(trail_source(s, n) is Volatility),
        !(target_source(s, n) is Volatility),
{
}

/// Whether a simulated entry is refused at random: never for a marketable limit
/// order, else where a rate is set and the draw fell below it.
pub fn paper_rejects(limit_order: bool, rate_positive: bool, drawn: bool) -> (r: bool)
    ensures
        r == (!limit_order && rate_positive && drawn),
{
    !limit_order && rate_positive && drawn
}

/// Whether a simulated entry goes out as a marketable limit order: only buys.
pub fn paper_limit_order(paper: bool, settings: &Settings, buy: bool) -> (r: bool)
    ensures
        r == (paper && settings.fno_limit_order && buy),
{
    paper && settings.fno_limit_order && buy
}

/// The size of a piece of a sliced order: the operator's, else the exchange's
/// freeze quantity; the whole quantity where slicing is off or pointless.
pub open spec fn piece_size(auto_slice: bool, own: int, freeze: int, qty: int) -> int {
    let chunk = if own > 0 {
        own
    } else if freeze > 0 {
        freeze
    } else {
        0
    };
    if !auto_slice || chunk <= 0 || chunk >= qty {
        qty
    } else {
        chunk
    }
}

/// The pieces of an order: full ones while they last, then the rest.
pub open spec fn pieces(qty: int, chunk: int) -> Seq<i64>
    decreases qty,
{
    if qty <= 0 || chunk <= 0 {
        Seq::empty()
    } else if qty <= chunk {
        seq![qty as i64]
    } else {
        seq![chunk as i64] + pieces(qty - chunk, chunk)
    }
}

/// Splits an order into pieces.
pub fn slice_pieces(auto_slice: bool, own: i64, freeze: i64, qty: i64) -> (r: Vec<i64>)
    requires
        qty > 0,
    ensures
        r@ == pieces(
            qty as int,
            piece_size(auto_slice, own as int, freeze as int, qty as int),
        ),
{
    let mut chunk: i64 = if own > 0 {
        own
    } else if freeze > 0 {
        freeze
    } else {
        0
    };
    if !auto_slice || chunk <= 0 || chunk >= qty {
        chunk = qty;
    }
    let mut out: Vec<i64> = Vec::new();
    let mut remaining: i64 = qty;
    assert(Seq::<i64>::empty() + pieces(qty as int, chunk as int) =~= pieces(
        qty as int,
        chunk as int,
    ));
    while remaining > 0
        invariant
            0 <= remaining <= qty,
            chunk > 0,
            out@ + pieces(remaining as int, chunk as int) == pieces(qty as int, chunk as int),
        decreases remaining,
    {
        let piece: i64 = if remaining < chunk {
            remaining
        } else {
            chunk
        };
        let ghost was = out@;
        out.push(piece);
        proof {
            let rest = pieces(remaining - piece, chunk as int);
            assert(pieces(remaining as int, chunk as int) =~= seq![piece] + rest);
            assert(was + (seq![piece] + rest) =~= was.push(piece) + rest);
        }
        remaining -= piece;
    }
    assert(out@ + Seq::<i64>::empty() =~= out@);
    out
}

/// The sum of some quantities.
pub open spec fn sum(v: Seq<i64>) -> int
    decreases v.len(),
{
    if v.len() == 0 {
        0
    } else {
        v[0] + sum(v.skip(1))
    }
}

/// The pieces add up to the order, and each is positive and no larger than the
/// piece size.
pub proof fn law_pieces_add_up(qty: int, chunk: int)
    requires
        0 < qty <= i64::MAX,
        0 < chunk <= i64::MAX,
    ensures
        sum(pieces(qty, chunk)) == qty,
        forall|i: int|
            0 <= i < pieces(qty, chunk).len() ==> 0 < #[trigger] pieces(qty, chunk)[i] <= chunk,
    decreases qty,
{
    if qty <= chunk {
        assert(seq![qty as i64].skip(1) =~= Seq::<i64>::empty());
        assert(sum(Seq::<i64>::empty()) == 0);
    } else {
        law_pieces_add_up(qty - chunk, chunk);
        let rest = pieces(qty - chunk, chunk);
        let all = seq![chunk as i64] + rest;
        assert(all.skip(1) =~= rest);
        assert(all[0] == chunk as i64);
        assert forall|i: int| 0 <= i < all.len() implies 0 < #[trigger] all[i] <= chunk by {
            if i > 0 {
                assert(all[i] == rest[i - 1]);
            }
        }
    }
}

/// The prices of a plain order: limit price and trigger price. Values that are
/// not positive count as missing.
pub open spec fn order_prices(
    kind: Seq<char>,
    price: Option<Num>,
    limit: Option<Num>,
    trigger: Option<Num>,
    ltp: Num,
) -> (Option<Num>, Option<Num>) {
    let k = text::downs(kind);
    let given = if price is Some {
        price
    } else {
        limit
    };
    let px = if k == "market"@ {
        None
    } else if k == "limit"@ && given is None {
        Some(ltp)
    } else {
        given
    };
    let trig = if trigger is Some {
        trigger
    } else {
        limit
    };
    (
        px,
        if (k == "sl"@ || k == "sl-m"@) && trig is None {
            px
        } else {
            trig
        },
    )
}

/// The prices of a plain order.
pub fn plain_order_prices(
    kind: &str,
    price: Option<Num>,
    limit: Option<Num>,
    trigger: Option<Num>,
    ltp: Num,
) -> (r: (Option<Num>, Option<Num>))
    ensures
        r == order_prices(kind@, price, limit, trigger, ltp),
{
    let k = text::to_ascii_lower(kind);
    let given = match price {
        Some(p) => Some(p),
        None => limit,
    };
    let px = if text::same(k.as_str(), "market") {
        None
    } else if text::same(k.as_str(), "limit") && given.is_none() {
        Some(ltp)
    } else {
        given
    };
    let trig = match trigger {
        Some(t) => Some(t),
        None => limit,
    };
    let trig = if text::one_of(k.as_str(), "sl", "sl-m") && trig.is_none() {
        px
    } else {
        trig
    };
    (px, trig)
}

/// How an order reaches the broker.
#[derive(Clone, Copy, Debug, PartialEq, Eq, Structural)]
pub enum OrderRoute {
    /// With target and stop legs held by the broker.
    Super,
    /// Kept until it triggers.
    Forever,
    /// Split by the broker.
    Sliced,
    Plain,
}

/// How an order of a method reaches the broker.
pub open spec fn route_for(method: Seq<char>, freeze: FreezeQty, qty: int, qty_key: Num) -> OrderRoute {
    if method == "super"@ {
        OrderRoute::Super
    } else if method == "forever"@ {
        OrderRoute::Forever
    } else if method == "slice"@ || exits::over_freeze(freeze, qty, qty_key) {
        OrderRoute::Sliced
    } else {
        OrderRoute::Plain
    }
}

/// How an order of a method reaches the broker.
pub fn order_route(method: &str, freeze: &FreezeQty, qty: i64, qty_key: Num) -> (r: OrderRoute)
    ensures
        r == route_for(method@, *freeze, qty as int, qty_key),
{
    if text::same(method, "super") {
        OrderRoute::Super
    } else if text::same(method, "forever") {
        OrderRoute::Forever
    } else if text::same(method, "slice") || exits::exceeds_freeze(freeze, qty, qty_key) {
        OrderRoute::Sliced
    } else {
        OrderRoute::Plain
    }
}

/// Where the stop leg of a broker-held order comes from.
#[derive(Clone, Copy, Debug, PartialEq, Eq, Structural)]
pub enum LegStop {
    /// The entry's own stop.
    Own,
    /// The configured stop price.
    Price,
    /// The configured stop percentage.
    Percent,
    /// A far protective price.
    Far,
}

/// Where the stop leg of a broker-held order comes from.
pub open spec fn stop_leg(stop: Num, manual_sl: bool, cfg_price: Num, cfg_pct: Num) -> LegStop {
    if stop.positive() {
        LegStop::Own
    } else if manual_sl && cfg_price.positive() {
        LegStop::Price
    } else if manual_sl && cfg_pct.positive() {
        LegStop::Percent
    } else {
        LegStop::Far
    }
}

/// Where the stop leg of a broker-held order comes from: the entry's stop, then
/// a configured manual stop, else a far price.
pub fn leg_stop(stop: Num, manual_sl: bool, cfg_price: Num, cfg_pct: Num) -> (r: LegStop)
    ensures
        r == stop_leg(stop, manual_sl, cfg_price, cfg_pct),
{
    if stop.is_positive() {
        LegStop::Own
    } else if manual_sl && cfg_price.is_positive() {
        LegStop::Price
    } else if manual_sl && cfg_pct.is_positive() {
        LegStop::Percent
    } else {
        LegStop::Far
    }
}

/// The side of an order.
pub open spec fn order_side(side: Seq<char>) -> Seq<char> {
    if text::downs(side) == "sell"@ {
        "SELL"@
    } else {
        "BUY"@
    }
}

/// The side of an order.
pub fn entry_side(side: &str) -> (r: &'static str)
    ensures
        r@ == order_side(side@),
{
    let l = text::to_ascii_lower(side);
    if text::same(l.as_str(), "sell") {
        "SELL"
    } else {
        "BUY"
    }
}

/// Amounts of a new position.
#[derive(Clone, Copy, Debug, PartialEq, Eq, Structural)]
pub struct EntryAmounts {
    pub lots: i64,
    pub lot_size: Num,
    pub price: Num,
    pub sl: Num,
    pub tp: Num,
    pub trail: Num,
    pub point_trail: Num,
    pub trail_tp: Num,
    pub limit_price: Num,
    pub zero: Num,
}

/// The quantity an entry counts as filled at once.
pub open spec fn filled_at_once(paper: bool, route: OrderRoute, qty: int) -> int {
    if paper || route == OrderRoute::Super {
        qty
    } else {
        0
    }
}

/// The position a placed entry opens.
pub fn new_position(
    id: &str,
    strat: &Strategy,
    method: &str,
    exch: &str,
    underlying: &str,
    qty: i64,
    a: EntryAmounts,
    order_ids: Vec<String>,
    super_orders: Vec<String>,
    paper: bool,
    route: OrderRoute,
    nifty_pick: bool,
    now: i64,
) -> (r: Position)
    ensures
        r.id@ == id@,
        r.strategy_id@ == strat.id@,
        r.strategy_name@ == strat.name@,
        r.method@ == method@,
        r.security_id == strat.security_id,
        r.exchange_segment@ == exch@,
        r.instrument@ == strat.instrument@,
        r.trading_symbol@ == strat.trading_symbol@,
        r.underlying@ == underlying@,
        r.side@ == order_side(strat.side@),
        r.qty == qty,
        r.lots == a.lots,
        r.lot_size == a.lot_size,
        r.filled_qty == filled_at_once(paper, route, qty as int),
        r.entry == a.price,
        r.fill_price == a.price,
        r.ltp == a.price,
        r.best == a.price,
        r.sl == a.sl,
        r.overall_sl == a.sl,
        !r.sl_trailed,
        r.tp == a.tp,
        r.trail == a.trail,
        r.point_trail == a.point_trail,
        r.trail_tp == a.trail_tp,
        r.peak_profit == a.zero,
        r.order_ids == order_ids,
        r.super_orders == super_orders,
        r.broker == (!paper && route == OrderRoute::Super),
        !r.reconciled,
        r.nifty_pick == nifty_pick,
        r.status@ == "running"@,
        r.order_type@ == if a.limit_price.positive() {
            "FNO_LIMIT"@
        } else {
            "MARKET"@
        },
        r.limit_price == a.limit_price,
        r.opened_at == now,
{
    let side = entry_side(strat.side.as_str());
    Position {
        id: id.to_owned(),
        strategy_id: strat.id.clone(),
        strategy_name: strat.name.clone(),
        method: method.to_owned(),
        security_id: strat.security_id,
        exchange_segment: exch.to_owned(),
        instrument: strat.instrument.clone(),
        trading_symbol: strat.trading_symbol.clone(),
        underlying: underlying.to_owned(),
        side: side.to_owned(),
        qty,
        lots: a.lots,
        lot_size: a.lot_size,
        filled_qty: if paper || route == OrderRoute::Super {
            qty
        } else {
            0
        },
        entry: a.price,
        fill_price: a.price,
        ltp: a.price,
        sl: a.sl,
        overall_sl: a.sl,
        sl_trailed: false,
        tp: a.tp,
        trail: a.trail,
        point_trail: a.point_trail,
        trail_tp: a.trail_tp,
        peak_profit: a.zero,
        best: a.price,
        order_ids,
        super_orders,
        broker: !paper && route == OrderRoute::Super,
        reconciled: false,
        nifty_pick,
        status: "running".to_owned(),
        order_type: if a.limit_price.is_positive() {
            "FNO_LIMIT".to_owned()
        } else {
            "MARKET".to_owned()
        },
        limit_price: a.limit_price,
        opened_at: now,
    }
}

/// The underlying is one of the picks, letters compared without case.
pub open spec fn among(names: Seq<Seq<char>>, underlying: Seq<char>) -> bool {
    exists|i: int|
        0 <= i < names.len() && text::downs(#[trigger] names[i]) == text::downs(underlying)
}

/// Whether the underlying is one of the picks.
pub fn is_pick(names: &Vec<String>, underlying: &str) -> (r: bool)
    ensures
        r == among(text::views(names@), underlying@),
{
    let mut i: usize = 0;
    while i < names.len()
        invariant
            i <= names.len(),
            forall|k: int|
                0 <= k < i ==> text::downs(#[trigger] text::views(names@)[k]) != text::downs(
                    underlying@,
                ),
        decreases names.len() - i,
    {
        if text::same_ignoring_case(names[i].as_str(), underlying) {
            assert(text::views(names@)[i as int] == names@[i as int]@);
            return true;
        }
        i += 1;
    }
    false
}

/// A reading is set: it is a number above zero.
pub open spec fn is_set(v: Num) -> bool {
    !v.nan && v.key > 0
}

/// Zero and a hundred are what their names say of the order of the readings.
pub open spec fn scale_holds(n: LevelNums) -> bool {
    !n.zero.nan && n.zero.key == 0 && !n.hundred.nan && n.hundred.key > 0
}

/// With the manual trail on, a percentage that the operator set is the trail, whatever
/// the configuration holds; the configured one counts only where the operator set none.
/// Either is cut off at a hundred, and without one the trail is zero percent.
pub proof fn law_operator_trail_comes_first(s: Settings, n: LevelNums)
    requires
        s.manual_trail_sl,
        scale_holds(n),
    ensures
        is_set(n.manual_trail_pct) && n.manual_trail_pct.key <= n.hundred.key ==> trail_source(s, n)
            == TrailSource::Percent(n.manual_trail_pct),
        is_set(n.manual_trail_pct) && n.manual_trail_pct.key > n.hundred.key ==> trail_source(s, n)
            == TrailSource::Percent(n.hundred),
        !is_set(n.manual_trail_pct) && is_set(n.cfg_trail_pct) && n.cfg_trail_pct.key
            <= n.hundred.key ==> trail_source(s, n) == TrailSource::Percent(n.cfg_trail_pct),
        !is_set(n.manual_trail_pct) && is_set(n.cfg_trail_pct) && n.cfg_trail_pct.key
            > n.hundred.key ==> trail_source(s, n) == TrailSource::Percent(n.hundred),
        !is_set(n.manual_trail_pct) && !n.cfg_trail_pct.nan && n.cfg_trail_pct.key < 0
            ==> trail_source(s, n) == TrailSource::Percent(n.zero),
{
}

/// What the operator set is not touched by the configuration: two sets of readings that
/// differ in configured values alone give the same trail, stop and trailing target
/// wherever the operator's own value is set.
pub proof fn law_configuration_is_a_fallback(s: Settings, n: LevelNums, m: LevelNums)
    requires
        m == (LevelNums {
            cfg_sl_pct: m.cfg_sl_pct,
            cfg_trail_pct: m.cfg_trail_pct,
            cfg_jump: m.cfg_jump,
            ..n
        }),
    ensures
        is_set(n.manual_trail_pct) ==> trail_source(s, m) == trail_source(s, n),
        !s.manual_trail_sl ==> trail_source(s, m) == trail_source(s, n),
        is_set(n.manual_sl_pct) ==> stop_source(s, m) == stop_source(s, n),
        !s.manual_sl ==> stop_source(s, m) == stop_source(s, n),
        is_set(n.points) || !s.manual_point_trail_sl ==> point_distance(s, m) == point_distance(
            s,
            n,
        ),
        trail_target_pct(s, m) == trail_target_pct(s, n),
{
}

/// Without the manual trail, the volatility trail is on exactly where it is asked for,
/// no trailing target is set by hand, and both the distance and the price are known.
pub proof fn law_volatility_trail_is_a_fallback(s: Settings, n: LevelNums)
    requires
        !s.manual_trail_sl,
    ensures
        ({
            let wanted = s.ai_trail_tp && !s.manual_trail_tp && is_set(n.ai_trail) && is_set(n.ltp);
            &&& wanted ==> trail_source(s, n) == TrailSource::Volatility(n.ai_trail)
            &&& !wanted ==> trail_source(s, n) == TrailSource::Off
        }),
{
}

/// The stop of an entry: with the manual stop on, the operator's percentage, else the
/// configured one, else none; with it off, the volatility stop where one is asked for
/// and no trail is set by hand.
pub proof fn law_operator_stop_comes_first(s: Settings, n: LevelNums)
    requires
        !n.zero.nan,
        n.zero.key == 0,
    ensures
        s.manual_sl && is_set(n.manual_sl_pct) ==> stop_source(s, n) == StopSource::Percent(
            n.manual_sl_pct,
        ),
        s.manual_sl && !is_set(n.manual_sl_pct) && is_set(n.cfg_sl_pct) ==> stop_source(s, n)
            == StopSource::Percent(n.cfg_sl_pct),
        s.manual_sl && !is_set(n.manual_sl_pct) && !is_set(n.cfg_sl_pct) ==> stop_source(s, n)
            == StopSource::Off,
        !s.manual_sl && !s.manual_trail_sl && (s.ai_sl || s.sl_auto) && is_set(n.ai_sl)
            ==> stop_source(s, n) == StopSource::Volatility(n.ai_sl),
        !s.manual_sl && (s.manual_trail_sl || !(s.ai_sl || s.sl_auto) || !is_set(n.ai_sl))
            ==> stop_source(s, n) == StopSource::Off,
{
}

/// The target of an entry: the reward ratio where it is on and there is a stop to measure
/// from; else the volatility target where one is asked for and no trailing target is set
/// by hand.
pub proof fn law_targets_by_rank(s: Settings, n: LevelNums)
    requires
        !n.zero.nan,
        n.zero.key == 0,
    ensures
        s.rr_enabled && stop_source(s, n) is Off ==> target_source(s, n) == TargetSource::Off,
        s.rr_enabled && !(stop_source(s, n) is Off) ==> target_source(s, n)
            == TargetSource::RiskReward,
        ({
            let wanted = (s.ai_tp_pct || s.ai_trail_tp) && !s.manual_trail_tp && is_set(n.ai_tp);
            &&& !s.rr_enabled && wanted ==> target_source(s, n) == TargetSource::Volatility(n.ai_tp)
            &&& !s.rr_enabled && !wanted ==> target_source(s, n) == TargetSource::Off
        }),
        s.manual_trail_tp && is_set(n.manual_trail_tp_pct) ==> trail_target_pct(s, n)
            == n.manual_trail_tp_pct,
        !s.manual_trail_tp || !is_set(n.manual_trail_tp_pct) ==> trail_target_pct(s, n) == n.zero,
{
}

/// The trail in points: where it is on, the operator's distance, else the configured one,
/// never below zero; where it is off, zero.
pub proof fn law_operator_points_come_first(s: Settings, n: LevelNums)
    requires
        !n.zero.nan,
        n.zero.key == 0,
    ensures
        !s.manual_point_trail_sl ==> point_distance(s, n) == n.zero,
        s.manual_point_trail_sl && is_set(n.points) ==> point_distance(s, n) == n.points,
        s.manual_point_trail_sl && !is_set(n.points) && is_set(n.cfg_jump) ==> point_distance(s, n)
            == n.cfg_jump,
        s.manual_point_trail_sl && !is_set(n.points) && (n.cfg_jump.nan || n.cfg_jump.key < 0)
            ==> point_distance(s, n) == n.zero,
{
}

/// The lots that volume allows count.
pub open spec fn by_volume(c: LotCaps) -> bool {
    is_set(c.volume) && is_set(c.volume_pct)
}

/// The lots that open interest allows count.
pub open spec fn by_interest(c: LotCaps) -> bool {
    is_set(c.oi) && is_set(c.oi_pct)
}

/// The lots that the margin allows count.
pub open spec fn by_margin(c: LotCaps) -> bool {
    is_set(c.avail) && is_set(c.price)
}

/// The lots of an entry are the least of what the known readings allow, and there is a
/// count exactly where some reading is known.
pub proof fn law_lots_are_the_least(c: LotCaps)
    requires
        !c.volume_lots.nan,
        !c.oi_lots.nan,
        !c.margin_lots.nan,
    ensures
        lots_cap(c) is Some <==> by_volume(c) || by_interest(c) || by_margin(c),
        ({
            let l = lots_cap(c)->0;
            lots_cap(c) is Some ==> {
                &&& by_volume(c) ==> l.key <= c.volume_lots.key
                &&& by_interest(c) ==> l.key <= c.oi_lots.key
                &&& by_margin(c) ==> l.key <= c.margin_lots.key
                &&& by_volume(c) && l == c.volume_lots || by_interest(c) && l == c.oi_lots
                    || by_margin(c) && l == c.margin_lots
            }
        }),
{
}

/// A reading kept between two bounds is one of the three, lies between them, and is
/// itself where it already did.
pub proof fn law_bounds_are_kept(v: Num, lo: Num, hi: Num)
    requires
        !v.nan && !lo.nan && !hi.nan,
        lo.key <= hi.key,
    ensures
        lo.key <= clamped(v, lo, hi).key <= hi.key,
        lo.key <= v.key <= hi.key ==> clamped(v, lo, hi) == v,
        v.key < lo.key ==> clamped(v, lo, hi) == lo,
        v.key > hi.key ==> clamped(v, lo, hi) == hi,
{
}

/// A sliced order goes out in full pieces, of which only the last may be smaller. The
/// operator's size comes before the exchange's, and an order that fits one piece, or is
/// not to be sliced, goes out whole.
pub proof fn law_pieces_are_full(auto_slice: bool, own: int, freeze: int, qty: int)
    requires
        0 < qty <= i64::MAX,
    ensures
        ({
            let size = piece_size(auto_slice, own, freeze, qty);
            let v = pieces(qty, size);
            &&& 0 < size <= qty
            &&& v.len() > 0
            &&& forall|i: int| 0 <= i < v.len() - 1 ==> #[trigger] v[i] == size
            &&& !auto_slice ==> v == seq![qty as i64]
            &&& auto_slice && 0 < own < qty ==> size == own
            &&& auto_slice && own >= qty ==> v == seq![qty as i64]
            &&& auto_slice && own <= 0 && 0 < freeze < qty ==> size == freeze
            &&& auto_slice && own <= 0 && (freeze <= 0 || freeze >= qty) ==> v == seq![qty as i64]
        }),
{
    lemma_pieces_full(qty, piece_size(auto_slice, own, freeze, qty));
}

proof fn lemma_pieces_full(qty: int, size: int)
    requires
        0 < qty <= i64::MAX,
        0 < size <= i64::MAX,
    ensures
        pieces(qty, size).len() > 0,
        forall|i: int|
            0 <= i < pieces(qty, size).len() - 1 ==> #[trigger] pieces(qty, size)[i] == size,
    decreases qty,
{
    if qty > size {
        lemma_pieces_full(qty - size, size);
        let rest = pieces(qty - size, size);
        let all = pieces(qty, size);
        assert forall|i: int| 0 <= i < all.len() - 1 implies #[trigger] all[i] == size by {
            if i > 0 {
                assert(all[i] == rest[i - 1]);
            }
        }
    }
}

/// A market order has no price; any other goes out at the price given, which comes before
/// the configured limit, and a limit order without either at the last price.
pub proof fn law_order_prices_by_kind(
    kind: Seq<char>,
    price: Option<Num>,
    limit: Option<Num>,
    trigger: Option<Num>,
    ltp: Num,
)
    ensures
        ({
            let (px, at) = order_prices(kind, price, limit, trigger, ltp);
            let k = text::downs(kind);
            let stop = k == "sl"@ || k == "sl-m"@;
            &&& k == "market"@ ==> px is None
            &&& k != "market"@ && price is Some ==> px == price
            &&& k != "market"@ && price is None && limit is Some ==> px == limit
            &&& price is None && limit is None ==> px == if k == "limit"@ {
                Some(ltp)
            } else {
                None
            }
            &&& trigger is Some ==> at == trigger
            &&& trigger is None && limit is Some ==> at == limit
            &&& trigger is None && limit is None ==> at == if stop {
                px
            } else {
                None
            }
        }),
{
    reveal_strlit("market");
    reveal_strlit("limit");
    assert("market"@.len() == 6 && "limit"@.len() == 5);
}

/// An order sells exactly where it says so in any letters; everything else buys.
pub proof fn law_orders_buy_or_sell(side: Seq<char>)
    ensures
        text::downs(side) == "sell"@ ==> order_side(side) == "SELL"@,
        text::downs(side) != "sell"@ ==> order_side(side) == "BUY"@,
{
}

/// A simulated entry is filled at once, and so is one whose legs the broker holds; any
/// other counts as unfilled until the broker reports.
pub proof fn law_what_is_filled_at_once(qty: int)
    ensures
        filled_at_once(true, OrderRoute::Plain, qty) == qty,
        filled_at_once(true, OrderRoute::Sliced, qty) == qty,
        filled_at_once(true, OrderRoute::Forever, qty) == qty,
        filled_at_once(true, OrderRoute::Super, qty) == qty,
        filled_at_once(false, OrderRoute::Super, qty) == qty,
        filled_at_once(false, OrderRoute::Plain, qty) == 0,
        filled_at_once(false, OrderRoute::Sliced, qty) == 0,
        filled_at_once(false, OrderRoute::Forever, qty) == 0,
{
}

/// An index is traded through an option: a strategy on the index instrument or on the
/// index segment, in any letters.
pub proof fn law_indices_need_options(s: Strategy)
    ensures
        on_index(s) <==> text::downs(s.instrument@) == "index"@ || text::downs(
            s.exchange_segment@,
        ) == "idx_i"@,
{
}

/// The margin budget is the operator's amount, never more than the balance; without an
/// amount it is a share of the balance between nothing and all of it. A balance below
/// zero counts as zero.
pub proof fn law_budget_stays_within_the_balance(
    amount: Num,
    pct: Num,
    available: Num,
    zero: Num,
    hundred: Num,
)
    requires
        !zero.nan && zero.key == 0,
        !hundred.nan && hundred.key > 0,
        !available.nan,
        !pct.nan,
    ensures
        ({
            let b = budget(amount, pct, available, zero, hundred);
            let balance = if available.key < 0 {
                zero
            } else {
                available
            };
            &&& is_set(amount) && amount.key <= balance.key ==> b == Budget::Amount(amount)
            &&& is_set(amount) && amount.key > balance.key ==> b == Budget::Amount(balance)
            &&& !is_set(amount) ==> match b {
                Budget::Share { pct: p, balance: of } => of == balance && 0 <= p.key <= hundred.key
                    && (0 <= pct.key <= hundred.key ==> p == pct),
                Budget::Amount(_) => false,
            }
        }),
{
}

/// An order goes out with its legs, or waits, where its method says so; else it is split
/// where the method asks for it or the exchange would not take it whole.
pub proof fn law_orders_are_split_when_large(method: Seq<char>, f: FreezeQty, qty: int, key: Num)
    ensures
        ({
            let large = match f {
                FreezeQty::Fallback(n) => n > 0 && qty > n,
                FreezeQty::Listed(n) => is_set(n) && !key.nan && key.key > n.key,
            };
            let r = route_for(method, f, qty, key);
            &&& method == "super"@ ==> r == OrderRoute::Super
            &&& method == "forever"@ ==> r == OrderRoute::Forever
            &&& method == "slice"@ ==> r == OrderRoute::Sliced
            &&& method != "super"@ && method != "forever"@ && large ==> r == OrderRoute::Sliced
            &&& method != "super"@ && method != "forever"@ && method != "slice"@ && !large ==> r
                == OrderRoute::Plain
        }),
{
    reveal_strlit("super");
    reveal_strlit("forever");
    reveal_strlit("slice");
    assert("super"@.len() == 5 && "forever"@.len() == 7 && "slice"@.len() == 5);
    assert("super"@[1] == 'u' && "slice"@[1] == 'l');
}

/// An order by hand on an index buys calls or, where it sells, puts, whatever side the
/// operator has set; every other entry keeps to that side.
pub proof fn law_hand_orders_choose_the_side(s: Strategy, a: Seq<char>, b: Seq<char>)
    ensures
        s.manual && on_index(s) ==> option_side_of(s, a) == option_side_of(s, b),
        s.manual && on_index(s) && text::downs(s.side@) == "sell"@ ==> option_side_of(s, a) == "PE"@,
        s.manual && on_index(s) && text::downs(s.side@) != "sell"@ ==> option_side_of(s, a) == "CE"@,
        !s.manual || !on_index(s) ==> option_side_of(s, a) == a,
{
}

/// The lot size of a strategy comes before that of the settings, and a lot that is not
/// positive counts as unset.
pub proof fn law_lot_size_by_rank(own: Num, set: Num)
    ensures
        is_set(own) <==> lot_from(own, set) == LotSource::Strategy,
        !is_set(own) && is_set(set) <==> lot_from(own, set) == LotSource::Settings,
        !is_set(own) && !is_set(set) <==> lot_from(own, set) == LotSource::Master,
{
}

/// The automatic lots are a positive count that no known reading forbids, and there is one
/// exactly where a lot size is known, some reading is, and the least of them is positive.
pub proof fn law_automatic_lots(c: LotCaps)
    requires
        !c.volume_lots.nan,
        !c.oi_lots.nan,
        !c.margin_lots.nan,
    ensures
        ({
            let l = auto_lots(c)->0;
            &&& auto_lots(c) is Some ==> is_set(l) && (c.lot.nan || c.lot.key > 0)
            &&& auto_lots(c) is Some && by_volume(c) ==> l.key <= c.volume_lots.key
            &&& auto_lots(c) is Some && by_interest(c) ==> l.key <= c.oi_lots.key
            &&& auto_lots(c) is Some && by_margin(c) ==> l.key <= c.margin_lots.key
            &&& auto_lots(c) is Some ==> by_volume(c) && l == c.volume_lots || by_interest(c) && l
                == c.oi_lots || by_margin(c) && l == c.margin_lots
            &&& !c.lot.nan && c.lot.key <= 0 ==> auto_lots(c) is None
            &&& (c.lot.nan || c.lot.key > 0) && (by_volume(c) || by_interest(c) || by_margin(c)) && (
            by_volume(c) ==> c.volume_lots.key > 0) && (by_interest(c) ==> c.oi_lots.key > 0) && (
            by_margin(c) ==> c.margin_lots.key > 0) ==> auto_lots(c) is Some
        }),
{
}

/// Margin stops an entry exactly where a budget is set and what is needed is above what is
/// left.
pub proof fn law_margin_stops_an_entry(budget: Num, required: Num, available: Num)
    requires
        !required.nan,
        !available.nan,
    ensures
        is_set(budget) ==> (over_budget(budget, required, available) <==> available.key
            < required.key),
        !is_set(budget) ==> !over_budget(budget, required, available),
{
}

/// The stop leg comes from the entry's own stop where it has one; without it the manual
/// stop counts only while it is on, its price before its percentage; else it stands far
/// off.
pub proof fn law_stop_leg_by_rank(stop: Num, manual: bool, price: Num, pct: Num)
    ensures
        is_set(stop) <==> stop_leg(stop, manual, price, pct) == LegStop::Own,
        !is_set(stop) && !manual ==> stop_leg(stop, manual, price, pct) == LegStop::Far,
        !is_set(stop) && is_set(price) ==> stop_leg(stop, true, price, pct) == LegStop::Price,
        !is_set(stop) && !is_set(price) && is_set(pct) ==> stop_leg(stop, true, price, pct)
            == LegStop::Percent,
        !is_set(stop) && !is_set(price) && !is_set(pct) ==> stop_leg(stop, true, price, pct)
            == LegStop::Far,
{
}

/// A name is among the picks where one of them reads the same in any letters.
pub proof fn law_among_the_picks(names: Seq<Seq<char>>, name: Seq<char>, more: Seq<char>)
    ensures
        among(names.push(more), name) <==> among(names, name) || text::downs(more) == text::downs(
            name,
        ),
        !among(Seq::empty(), name),
{
    let all = names.push(more);
    assert(all[names.len() as int] == more);
    if among(names, name) {
        let i = choose|i: int|
            0 <= i < names.len() && text::downs(#[trigger] names[i]) == text::downs(name);
        assert(all[i] == names[i]);
    }
    if among(all, name) {
        let i = choose|i: int|
            0 <= i < all.len() && text::downs(#[trigger] all[i]) == text::downs(name);
        if i < names.len() {
            assert(names[i] == all[i]);
        }
    }
}

/// A new document takes its stop from the volatility and no other level: no stop, trail or
/// target is armed by hand.
pub proof fn law_new_settings_arm_nothing_by_hand(s: Settings, n: LevelNums)
    requires
        crate::model::defaults(s),
        !n.zero.nan && n.zero.key == 0,
    ensures
        is_set(n.ai_sl) ==> stop_source(s, n) == StopSource::Volatility(n.ai_sl),
        !is_set(n.ai_sl) ==> stop_source(s, n) == StopSource::Off,
        trail_source(s, n) == TrailSource::Off,
        target_source(s, n) == TargetSource::Off,
        point_distance(s, n) == n.zero,
        trail_target_pct(s, n) == n.zero,
{
}

} // verus!
