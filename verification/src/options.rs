//! Option contracts of a strategy: the strike ladder, the strike that the
//! preferences ask for, and the choice among quoted candidates.

use vstd::prelude::*;
use crate::master;
use crate::master::Scrip;
use crate::model;
use crate::model::{Settings, Strategy};
use crate::num::Num;
use crate::routing;
use crate::scanner;
use crate::scanner::SymbolMeta;
use crate::scrip;
use crate::sides;
use crate::sides::Dirs;
use crate::text;

verus! {

/// The strikes of an underlying at its nearest expiry.
#[derive(Debug)]
pub struct Ladder {
    pub prefix: String,
    pub exch: String,
    pub expiry: String,
    /// Strikes in hundredths, rising.
    pub strikes: Vec<i64>,
}

/// `e` is the first expiry of the ladder of a prefix.
pub open spec fn first_expiry(
    m: master::ScripV,
    exch: Seq<char>,
    prefix: Seq<char>,
    e: Seq<char>,
) -> bool {
    exists|l: Seq<Seq<char>>| #[trigger]
        master::ladder_for(
            m,
            exch,
            text::upper_text(exch),
            text::upper_text(prefix),
            Some(l),
        ) && l.len() > 0 && l[0] == e
}

/// Some strike is listed at the expiry.
pub open spec fn any_strike(
    m: master::ScripV,
    exch: Seq<char>,
    prefix: Seq<char>,
    e: Seq<char>,
) -> bool {
    exists|c: i64| #[trigger]
        master::strike_listed(
            m.options,
            text::upper_text(exch),
            text::upper_text(prefix),
            text::head(e, 10),
            c,
        )
}

/// The ladder of an underlying in a segment: its nearest expiry with every
/// strike listed there. `None` without an underlying, an expiry or a strike.
pub fn option_ladder(sc: &Scrip, symbol: &str, segment: &str) -> (r: Option<Ladder>)
    ensures
        ({
            let prefix = scrip::underlying(symbol@);
            let exch = scrip::exch_by(text::upper_text(segment@));
            match r {
                Some(l) => {
                    &&& prefix.len() > 0
                    &&& l.prefix@ == prefix
                    &&& l.exch@ == exch
                    &&& first_expiry(sc@, exch, prefix, l.expiry@)
                    &&& l.strikes@.len() > 0
                    &&& forall|i: int, j: int|
                        0 <= i < j < l.strikes@.len() ==> #[trigger] l.strikes@[i]
                            < #[trigger] l.strikes@[j]
                    &&& forall|c: i64| #[trigger]
                        l.strikes@.contains(c) == master::strike_listed(
                            sc@.options,
                            text::upper_text(exch),
                            text::upper_text(prefix),
                            text::head(l.expiry@, 10),
                            c,
                        )
                },
                None => {
                    ||| prefix.len() == 0
                    ||| master::ladder_for(
                        sc@,
                        exch,
                        text::upper_text(exch),
                        text::upper_text(prefix),
                        None,
                    )
                    ||| exists|e: Seq<char>| #[trigger]
                        first_expiry(sc@, exch, prefix, e) && !any_strike(sc@, exch, prefix, e)
                },
            }
        }),
{
    let prefix = scrip::fno_underlying(symbol);
    if text::chars_of(prefix.as_str()).len() == 0 {
        return None;
    }
    let exch = scrip::scrip_exch(segment);
    let ladder = match sc.expiries_for(prefix.as_str(), exch) {
        Some(l) => l,
        None => {
            return None;
        },
    };
    let ghost lv = text::views(ladder@);
    proof {
        assert(master::ladder_for(
            sc@,
            exch@,
            text::upper_text(exch@),
            text::upper_text(prefix@),
            Some(lv),
        ));
    }
    if ladder.len() == 0 {
        proof {
            lemma_ladder_has(sc@, exch@, text::upper_text(exch@), text::upper_text(prefix@), lv);
        }
        return None;
    }
    let expiry = ladder[0].clone();
    proof {
        assert(lv[0] == expiry@);
        assert(first_expiry(sc@, exch@, prefix@, expiry@));
    }
    let rows = match sc.bucket(exch, prefix.as_str(), expiry.as_str()) {
        Some(v) => v,
        None => {
            return None;
        },
    };
    let mut strikes: Vec<i64> = Vec::new();
    let mut i: usize = 0;
    while i < rows.len()
        invariant
            i <= rows.len(),
            strikes@.len() == i,
            forall|k: int| 0 <= k < i ==> #[trigger] strikes@[k] == rows@[k].0,
        decreases rows.len() - i,
    {
        strikes.push(rows[i].0);
        i += 1;
    }
    proof {
        let ov = sc@.options;
        let x = text::upper_text(exch@);
        let p = text::upper_text(prefix@);
        let e = text::head(expiry@, 10);
        assert forall|a: int, b: int| 0 <= a < b < strikes@.len() implies #[trigger] strikes@[a]
            < #[trigger] strikes@[b] by {
            assert(rows@[a].0 < rows@[b].0);
        }
        assert forall|c: i64| #[trigger] strikes@.contains(c) == master::strike_listed(
            ov,
            x,
            p,
            e,
            c,
        ) by {
            if strikes@.contains(c) {
                let k = choose|k: int| 0 <= k < strikes@.len() && strikes@[k] == c;
                assert(master::entry_is(ov, x, p, e, rows@[k]));
                master::lemma_entry_listed(ov, x, p, e, rows@[k]);
            }
            if master::strike_listed(ov, x, p, e, c) {
                let k = choose|k: int| 0 <= k < rows@.len() && (#[trigger] rows@[k]).0 == c;
                assert(strikes@[k] == c);
            }
        }
    }
    Some(Ladder { prefix, exch: exch.to_owned(), expiry, strikes })
}

proof fn lemma_ladder_has(
    m: master::ScripV,
    exch: Seq<char>,
    exch_upper: Seq<char>,
    p: Seq<char>,
    l: Seq<Seq<char>>,
)
    requires
        master::ladder_for(m, exch, exch_upper, p, Some(l)),
    ensures
        l.len() > 0,
{
    if exists|e: Seq<char>| master::own_expiry(m.options, exch_upper, p, e) {
        let e = choose|e: Seq<char>| master::own_expiry(m.options, exch_upper, p, e);
        assert(l.contains(e));
    } else if exists|e: Seq<char>| master::cross_expiry(m.options, p, e) {
        let e = choose|e: Seq<char>| master::cross_expiry(m.options, p, e);
        assert(l.contains(e));
    } else {
        let e = choose|e: Seq<char>| master::fut_expiry(m.ladder, p, e);
        assert(l.contains(e));
    }
}

/// The first place among the first `n` of the least finite distances; minus one
/// where none is finite.
pub open spec fn closest(d: Seq<Num>, n: int) -> int
    decreases n,
{
    if n <= 0 {
        -1
    } else {
        let b = closest(d, n - 1);
        if d[n - 1].finite() && (b < 0 || d[b].above(d[n - 1])) {
            n - 1
        } else {
            b
        }
    }
}

/// The place of the strike at the money: the first of the nearest ones.
pub open spec fn at_money(d: Seq<Num>) -> int {
    let b = closest(d, d.len() as int);
    if b < 0 {
        0
    } else {
        b
    }
}

/// The place of the strike at the money, from the strikes' distances to spot.
pub fn atm_place(distances: &Vec<Num>) -> (r: usize)
    ensures
        r == at_money(distances@),
        r < distances@.len() || distances@.len() == 0,
{
    let mut idx: usize = 0;
    let mut found = false;
    let mut i: usize = 0;
    while i < distances.len()
        invariant
            i <= distances.len(),
            found == (closest(distances@, i as int) >= 0),
            found ==> idx == closest(distances@, i as int) && idx < i,
            !found ==> idx == 0,
        decreases distances.len() - i,
    {
        let d = distances[i];
        if d.is_finite() {
            if !found || distances[idx].gt(&d) {
                idx = i;
                found = true;
            }
        }
        i += 1;
    }
    idx
}

/// The side of the contract: the run-in override, the operator's option side,
/// the scanner direction, then the strategy's own direction.
pub open spec fn leg_side(s: Settings, d: Dirs, bull: bool) -> Seq<char> {
    let own = text::upper_text(s.option_side@);
    let live = sides::auto_side(s.nifty_trend_on, s.movers_on, d);
    if sides::run_in(s, d) is Some {
        sides::run_in(s, d)->0
    } else if own == "CE"@ || own == "PE"@ {
        own
    } else if live is Some {
        live->0
    } else if bull {
        "CE"@
    } else {
        "PE"@
    }
}

/// The side of the contract a strategy trades.
pub fn option_leg_side(settings: &Settings, d: Dirs, strat: &Strategy) -> (r: &'static str)
    ensures
        r@ == leg_side(*settings, d, model::bullish(*strat)),
{
    if let Some(side) = sides::effective_run_in_side(settings, d) {
        return side;
    }
    let own = text::uppercase(settings.option_side.as_str());
    if text::same(own.as_str(), "CE") {
        return "CE";
    }
    if text::same(own.as_str(), "PE") {
        return "PE";
    }
    if let Some(side) = sides::auto_option_side(settings, d) {
        return side;
    }
    if model::strategy_is_bull(strat) {
        "CE"
    } else {
        "PE"
    }
}

/// How many strikes above the money the preferences ask for, the modes in
/// capitals.
pub open spec fn strike_steps(call: bool, strike_mode: Seq<char>, option_type: Seq<char>, count: int) -> int {
    let depth = if count < 1 {
        1
    } else {
        count
    };
    let itm = text::has(option_type, "ITM"@);
    let otm = text::has(option_type, "OTM"@);
    if strike_mode == "ABOVE"@ || strike_mode == "ABOVE_ATM"@ {
        depth
    } else if strike_mode == "BELOW"@ || strike_mode == "BELOW_ATM"@ {
        -depth
    } else if strike_mode == "BOTH"@ || strike_mode == "BOTH_ATM"@ || strike_mode
        == "BOTH_ATM_INC"@ {
        if call {
            depth
        } else {
            -depth
        }
    } else if itm || otm {
        if call == itm {
            -depth
        } else {
            depth
        }
    } else {
        0
    }
}

/// The steps above the money, the modes given in capitals.
pub fn strike_steps_of(call: bool, strike_mode: &str, option_type: &str, count: i64) -> (r: i64)
    ensures
        r == strike_steps(call, strike_mode@, option_type@, count as int),
{
    let depth: i64 = if count < 1 {
        1
    } else {
        count
    };
    if text::one_of(strike_mode, "ABOVE", "ABOVE_ATM") {
        return depth;
    }
    if text::one_of(strike_mode, "BELOW", "BELOW_ATM") {
        return -depth;
    }
    if text::one_of(strike_mode, "BOTH", "BOTH_ATM") || text::same(strike_mode, "BOTH_ATM_INC") {
        return if call {
            depth
        } else {
            -depth
        };
    }
    let itm = text::contains(option_type, "ITM");
    if itm || text::contains(option_type, "OTM") {
        if call == itm {
            -depth
        } else {
            depth
        }
    } else {
        0
    }
}

/// A place moved by some steps, kept inside a list of `n`.
pub open spec fn stepped(at: int, steps: int, n: int) -> int {
    if at + steps < 0 {
        0
    } else if at + steps >= n {
        n - 1
    } else {
        at + steps
    }
}

fn step_within(at: usize, steps: i64, n: usize) -> (r: usize)
    requires
        at < n,
    ensures
        r == stepped(at as int, steps as int, n as int),
        r < n,
{
    let p: i128 = at as i128 + steps as i128;
    if p < 0 {
        0
    } else if p >= n as i128 {
        n - 1
    } else {
        p as usize
    }
}

/// The contract that a request resolves to: id and trading symbol.
pub open spec fn contract(
    m: master::ScripV,
    symbol: Seq<char>,
    segment: Seq<char>,
    expiry: Seq<char>,
    day: Option<i64>,
    cents: i64,
    call: bool,
) -> Option<(i64, Seq<char>)> {
    let o = m.options;
    let prefix = scrip::underlying(symbol);
    let p = text::upper_text(prefix);
    let x = scrip::exch_by(text::upper_text(segment));
    let e = text::head(expiry, 10);
    let exact = master::leg(o, x, p, e, cents, call);
    let k = if day is Some {
        master::nearest(o, x, p, cents, call, day->0, o.len() as int)
    } else {
        -1
    };
    let near = master::leg(o, x, p, o[k].expiry, cents, call);
    let nse = master::leg(o, "NSE"@, p, e, cents, call);
    let bse = master::leg(o, "BSE"@, p, e, cents, call);
    let mcx = master::leg(o, "MCX"@, p, e, cents, call);
    let ncdex = master::leg(o, "NCDEX"@, p, e, cents, call);
    let found = if exact is Some {
        exact
    } else if k >= 0 {
        near
    } else if master::carries(o, p, x) == Some(true) {
        None
    } else if nse is Some {
        nse
    } else if bse is Some {
        bse
    } else if mcx is Some {
        mcx
    } else {
        ncdex
    };
    if prefix.len() == 0 || cents <= 0 {
        None
    } else {
        match found {
            Some((id, s, _)) => Some((id, s)),
            None => None,
        }
    }
}

fn resolve_contract(
    sc: &Scrip,
    symbol: &str,
    segment: &str,
    expiry: &str,
    day: Option<i64>,
    cents: i64,
    call: bool,
) -> (r: Option<(i64, String)>)
    ensures
        leg_view(r) == contract(sc@, symbol@, segment@, expiry@, day, cents, call),
{
    let name = scrip::fno_underlying(symbol);
    if text::chars_of(name.as_str()).len() == 0 || cents <= 0 {
        return None;
    }
    let prefix = text::uppercase(name.as_str());
    let exp = scrip::normalize_expiry(expiry);
    let exch = scrip::scrip_exch(segment);
    match sc.resolve_leg(exch, name.as_str(), prefix.as_str(), exp, day, cents, call) {
        Some(c) => Some((c.security_id, c.trading_symbol)),
        None => None,
    }
}

/// A leg as plain values.
pub open spec fn leg_view(l: Option<(i64, String)>) -> Option<(i64, Seq<char>)> {
    match l {
        Some((id, s)) => Some((id, s@)),
        None => None,
    }
}

/// The instrument of an option on a prefix.
pub open spec fn option_instrument(prefix: Seq<char>) -> Seq<char> {
    if scrip::index_prefix(prefix) {
        "OPTIDX"@
    } else {
        "OPTSTK"@
    }
}

/// `r` is the strategy moved to the contract, if there is one.
pub open spec fn trades_contract(
    s: Strategy,
    prefix: Seq<char>,
    exch: Seq<char>,
    c: Option<(i64, Seq<char>)>,
    r: Option<Strategy>,
) -> bool {
    match (c, r) {
        (Some((id, symbol)), Some(t)) => routing::moved(
            s,
            t,
            id,
            routing::fno_segment_by(text::upper_text(exch)),
            option_instrument(prefix),
            symbol,
        ),
        (None, None) => true,
        _ => false,
    }
}

fn move_to_contract(
    strat: &Strategy,
    prefix: &str,
    exch: &str,
    c: Option<(i64, String)>,
) -> (r: Option<Strategy>)
    ensures
        trades_contract(*strat, prefix@, exch@, leg_view(c), r),
{
    match c {
        Some((id, symbol)) => {
            let inst = if scrip::is_index_prefix(prefix) {
                "OPTIDX"
            } else {
                "OPTSTK"
            };
            Some(routing::moved_to(strat, id, routing::fno_segment(exch), inst, symbol.as_str()))
        },
        None => None,
    }
}

/// The place on the ladder of the strike that the preferences ask for.
pub open spec fn strike_place(s: Settings, side: Seq<char>, distances: Seq<Num>) -> int {
    stepped(
        at_money(distances),
        strike_steps(
            side == "CE"@,
            text::upper_text(s.strike_mode@),
            text::upper_text(s.option_type@),
            s.strike_count as int,
        ),
        distances.len() as int,
    )
}

/// The contract of a side that the preferences ask for.
pub open spec fn contract_on_side(
    m: master::ScripV,
    strat: Strategy,
    ladder: Ladder,
    distances: Seq<Num>,
    day: Option<i64>,
    settings: Settings,
    side: Seq<char>,
) -> Option<(i64, Seq<char>)> {
    contract(
        m,
        strat.trading_symbol@,
        strat.exchange_segment@,
        ladder.expiry@,
        day,
        ladder.strikes@[strike_place(settings, side, distances)],
        side == "CE"@,
    )
}

/// Resolves a strategy to the option contract of a side: the strike of the
/// ladder that the preferences ask for. `distances` holds each strike's distance
/// to spot, `day` the day number of the expiry, and `spot_positive` tells
/// whether the spot price is known.
pub fn resolve_on_side(
    sc: &Scrip,
    strat: &Strategy,
    ladder: &Ladder,
    distances: &Vec<Num>,
    day: Option<i64>,
    spot_positive: bool,
    settings: &Settings,
    side: &str,
) -> (r: Option<Strategy>)
    requires
        distances@.len() == ladder.strikes@.len(),
        distances@.len() > 0,
    ensures
        !spot_positive ==> r is None,
        spot_positive ==> trades_contract(
            *strat,
            ladder.prefix@,
            ladder.exch@,
            contract_on_side(sc@, *strat, *ladder, distances@, day, *settings, side@),
            r,
        ),
{
    if !spot_positive {
        return None;
    }
    let idx = atm_place(distances);
    let call = text::same(side, "CE");
    let mode = text::uppercase(settings.strike_mode.as_str());
    let kind = text::uppercase(settings.option_type.as_str());
    let steps = strike_steps_of(call, mode.as_str(), kind.as_str(), settings.strike_count);
    let at = step_within(idx, steps, distances.len());
    let c = resolve_contract(
        sc,
        strat.trading_symbol.as_str(),
        strat.exchange_segment.as_str(),
        ladder.expiry.as_str(),
        day,
        ladder.strikes[at],
        call,
    );
    move_to_contract(strat, ladder.prefix.as_str(), ladder.exch.as_str(), c)
}

/// Resolves a strategy to an option contract on the side that applies.
pub fn resolve_option_strategy(
    sc: &Scrip,
    strat: &Strategy,
    ladder: &Ladder,
    distances: &Vec<Num>,
    day: Option<i64>,
    spot_positive: bool,
    settings: &Settings,
    d: Dirs,
) -> (r: Option<Strategy>)
    requires
        distances@.len() == ladder.strikes@.len(),
        distances@.len() > 0,
    ensures
        !spot_positive ==> r is None,
        spot_positive ==> trades_contract(
            *strat,
            ladder.prefix@,
            ladder.exch@,
            contract_on_side(
                sc@,
                *strat,
                *ladder,
                distances@,
                day,
                *settings,
                leg_side(*settings, d, model::bullish(*strat)),
            ),
            r,
        ),
{
    let side = option_leg_side(settings, d, strat);
    resolve_on_side(sc, strat, ladder, distances, day, spot_positive, settings, side)
}

/// The leg a scanner pick would trade on an explicit side, with the operator's
/// strike preferences.
pub fn pick_leg(
    sc: &Scrip,
    m: &SymbolMeta,
    ladder: &Ladder,
    distances: &Vec<Num>,
    day: Option<i64>,
    spot_positive: bool,
    settings: &Settings,
    side: &str,
    zero: Num,
) -> (r: Option<Strategy>)
    requires
        distances@.len() == ladder.strikes@.len(),
        distances@.len() > 0,
    ensures
        !spot_positive ==> r is None,
        spot_positive ==> exists|base: Strategy| #[trigger]
            scanner::is_pick_base(base, *m, side@, zero) && trades_contract(
                base,
                ladder.prefix@,
                ladder.exch@,
                contract_on_side(
                    sc@,
                    base,
                    *ladder,
                    distances@,
                    day,
                    *settings,
                    scanner::pick_side_text(side@),
                ),
                r,
            ),
{
    let base = scanner::pick_base(m, side, zero);
    let l = text::to_ascii_lower(side);
    let s = if text::same(l.as_str(), "pe") {
        "PE"
    } else {
        "CE"
    };
    let r = resolve_on_side(sc, &base, ladder, distances, day, spot_positive, settings, s);
    assert(scanner::is_pick_base(base, *m, side@, zero));
    r
}

/// The sides whose strikes compete: one where something decides it, else both.
pub open spec fn pool_sides(s: Settings, d: Dirs) -> Seq<bool> {
    let own = text::upper_text(s.option_side@);
    let live = sides::auto_side(s.nifty_trend_on, s.movers_on, d);
    if sides::run_in(s, d) is Some {
        seq![sides::run_in(s, d)->0 == "CE"@]
    } else if own == "CE"@ || own == "PE"@ {
        seq![own == "CE"@]
    } else if live is Some {
        seq![live->0 == "CE"@]
    } else {
        seq![true, false]
    }
}

fn sides_of_pool(settings: &Settings, d: Dirs) -> (r: Vec<bool>)
    ensures
        r@ == pool_sides(*settings, d),
{
    let mut v: Vec<bool> = Vec::new();
    if let Some(side) = sides::effective_run_in_side(settings, d) {
        v.push(text::same(side, "CE"));
        return v;
    }
    let own = text::uppercase(settings.option_side.as_str());
    if text::one_of(own.as_str(), "CE", "PE") {
        v.push(text::same(own.as_str(), "CE"));
        return v;
    }
    if let Some(side) = sides::auto_option_side(settings, d) {
        v.push(text::same(side, "CE"));
        return v;
    }
    v.push(true);
    v.push(false);
    v
}

/// A contract that competes: id, symbol and the place of its strike.
#[derive(Debug)]
pub struct Candidate {
    pub security_id: i64,
    pub symbol: String,
    pub place: usize,
}

/// A candidate as plain values.
pub open spec fn candidate_view(c: Candidate) -> (i64, Seq<char>, int) {
    (c.security_id, c.symbol@, c.place as int)
}

/// Candidates as plain values.
pub open spec fn candidate_views(v: Seq<Candidate>) -> Seq<(i64, Seq<char>, int)> {
    Seq::new(v.len(), |i: int| candidate_view(v[i]))
}

/// The window around the money: from the first to past the last place.
pub open spec fn window(count: int, atm: int, n: int) -> (int, int) {
    let w = if count < 1 {
        1
    } else if count > 10 {
        10
    } else {
        count
    };
    (
        if atm - w < 0 {
            0
        } else {
            atm - w
        },
        if atm + w > n - 1 {
            n
        } else {
            atm + w + 1
        },
    )
}

/// The contracts of one side at the places from `lo` up to `hi`.
pub open spec fn side_candidates(
    m: master::ScripV,
    s: Strategy,
    expiry: Seq<char>,
    day: Option<i64>,
    strikes: Seq<i64>,
    call: bool,
    lo: int,
    hi: int,
) -> Seq<(i64, Seq<char>, int)>
    decreases hi - lo,
{
    if hi <= lo {
        Seq::empty()
    } else {
        let before = side_candidates(m, s, expiry, day, strikes, call, lo, hi - 1);
        match contract(
            m,
            s.trading_symbol@,
            s.exchange_segment@,
            expiry,
            day,
            strikes[hi - 1],
            call,
        ) {
            Some((id, symbol)) => before.push((id, symbol, hi - 1)),
            None => before,
        }
    }
}

/// The contracts of the first `n` sides, side by side.
pub open spec fn pool_candidates(
    m: master::ScripV,
    s: Strategy,
    expiry: Seq<char>,
    day: Option<i64>,
    strikes: Seq<i64>,
    calls: Seq<bool>,
    lo: int,
    hi: int,
    n: int,
) -> Seq<(i64, Seq<char>, int)>
    decreases n,
{
    if n <= 0 {
        Seq::empty()
    } else {
        pool_candidates(m, s, expiry, day, strikes, calls, lo, hi, n - 1) + side_candidates(
            m,
            s,
            expiry,
            day,
            strikes,
            calls[n - 1],
            lo,
            hi,
        )
    }
}

fn push_side(
    out: &mut Vec<Candidate>,
    sc: &Scrip,
    strat: &Strategy,
    expiry: &str,
    day: Option<i64>,
    strikes: &Vec<i64>,
    call: bool,
    lo: usize,
    hi: usize,
)
    requires
        lo <= hi <= strikes@.len(),
    ensures
        candidate_views(final(out)@) == candidate_views(old(out)@) + side_candidates(
            sc@,
            *strat,
            expiry@,
            day,
            strikes@,
            call,
            lo as int,
            hi as int,
        ),
{
    let ghost start = candidate_views(out@);
    assert(start + Seq::<(i64, Seq<char>, int)>::empty() =~= start);
    let mut i: usize = lo;
    while i < hi
        invariant
            lo <= i <= hi <= strikes@.len(),
            candidate_views(out@) == start + side_candidates(
                sc@,
                *strat,
                expiry@,
                day,
                strikes@,
                call,
                lo as int,
                i as int,
            ),
        decreases hi - i,
    {
        let ghost so_far = side_candidates(
            sc@,
            *strat,
            expiry@,
            day,
            strikes@,
            call,
            lo as int,
            i as int,
        );
        if let Some((security_id, symbol)) = resolve_contract(
            sc,
            strat.trading_symbol.as_str(),
            strat.exchange_segment.as_str(),
            expiry,
            day,
            strikes[i],
            call,
        ) {
            let ghost was = out@;
            let c = Candidate { security_id, symbol, place: i };
            out.push(c);
            proof {
                assert(candidate_views(out@) =~= candidate_views(was).push(candidate_view(c)));
                assert(start + so_far.push(candidate_view(c)) =~= (start + so_far).push(
                    candidate_view(c),
                ));
            }
        }
        i += 1;
    }
}

/// The contracts around the money that compete for the entry.
pub fn option_candidates(
    sc: &Scrip,
    strat: &Strategy,
    ladder: &Ladder,
    distances: &Vec<Num>,
    day: Option<i64>,
    settings: &Settings,
    d: Dirs,
) -> (r: Vec<Candidate>)
    requires
        distances@.len() == ladder.strikes@.len(),
        distances@.len() > 0,
    ensures
        ({
            let w = window(
                settings.fastest_count as int,
                at_money(distances@),
                distances@.len() as int,
            );
            let calls = pool_sides(*settings, d);
            candidate_views(r@) == pool_candidates(
                sc@,
                *strat,
                ladder.expiry@,
                day,
                ladder.strikes@,
                calls,
                w.0,
                w.1,
                calls.len() as int,
            )
        }),
{
    let calls = sides_of_pool(settings, d);
    let atm = atm_place(distances);
    let n: usize = distances.len();
    let w: usize = if settings.fastest_count < 1 {
        1
    } else if settings.fastest_count > 10 {
        10
    } else {
        settings.fastest_count as usize
    };
    let lo: usize = if atm < w {
        0
    } else {
        atm - w
    };
    let hi: usize = if n - 1 - atm < w {
        n
    } else {
        atm + w + 1
    };
    let mut out: Vec<Candidate> = Vec::new();
    let mut k: usize = 0;
    assert(candidate_views(out@) =~= Seq::<(i64, Seq<char>, int)>::empty());
    while k < calls.len()
        invariant
            k <= calls.len(),
            lo <= hi <= ladder.strikes@.len(),
            candidate_views(out@) == pool_candidates(
                sc@,
                *strat,
                ladder.expiry@,
                day,
                ladder.strikes@,
                calls@,
                lo as int,
                hi as int,
                k as int,
            ),
        decreases calls.len() - k,
    {
        push_side(
            &mut out,
            sc,
            strat,
            ladder.expiry.as_str(),
            day,
            &ladder.strikes,
            calls[k],
            lo,
            hi,
        );
        k += 1;
    }
    out
}

/// What an entry needs before its contract is fixed.
#[derive(Clone, Copy, Debug, PartialEq, Eq, Structural)]
pub enum PrefStep {
    /// The contract of the ladder stands.
    Base,
    /// The candidates must be quoted first.
    Quote,
}

/// Whether the candidates are quoted before the contract is fixed.
pub open spec fn preference_step(paper: bool, s: Settings, candidates: nat, session: bool) -> PrefStep {
    if !paper && (s.only_positive || s.fastest_rising) && candidates > 0 && session {
        PrefStep::Quote
    } else {
        PrefStep::Base
    }
}

/// Whether the candidates are quoted: never in the simulated book, nor without a
/// strike preference, nor without candidates or a broker session.
pub fn pref_step(paper: bool, settings: &Settings, candidates: usize, session: bool) -> (r: PrefStep)
    ensures
        r == preference_step(paper, *settings, candidates as nat, session),
{
    if !paper && (settings.only_positive || settings.fastest_rising) && candidates > 0 && session {
        PrefStep::Quote
    } else {
        PrefStep::Base
    }
}

/// The quote of a candidate: last price, change in percent, and the distance of
/// its strike to spot.
#[derive(Clone, Copy, Debug, PartialEq, Eq, Structural)]
pub struct QuotedLeg {
    pub last: Num,
    pub change: Num,
    pub distance: Num,
}

/// The leg competes: it was quoted and, where only rising premiums are wanted,
/// has a price and rises.
pub open spec fn competes(q: Option<QuotedLeg>, only_positive: bool) -> bool {
    q is Some && (only_positive ==> (q->0).last.positive() && (q->0).change.positive())
}

/// The winner among the first `n` legs, minus one where none competes: the
/// fastest riser, else the one nearest to spot; the first of equals.
pub open spec fn winner(
    legs: Seq<Option<QuotedLeg>>,
    only_positive: bool,
    fastest: bool,
    n: int,
) -> int
    decreases n,
{
    if n <= 0 {
        -1
    } else {
        let b = winner(legs, only_positive, fastest, n - 1);
        let q = legs[n - 1];
        if !competes(q, only_positive) {
            b
        } else if b < 0 {
            n - 1
        } else if fastest {
            if (q->0).change.above((legs[b]->0).change) {
                n - 1
            } else {
                b
            }
        } else if (legs[b]->0).distance.above((q->0).distance) {
            n - 1
        } else {
            b
        }
    }
}

/// The winning candidate, from the candidates' quotes in order.
pub fn pick_candidate(
    legs: &Vec<Option<QuotedLeg>>,
    only_positive: bool,
    fastest: bool,
) -> (r: Option<usize>)
    ensures
        ({
            let w = winner(legs@, only_positive, fastest, legs@.len() as int);
            match r {
                Some(i) => i == w && i < legs@.len(),
                None => w < 0,
            }
        }),
{
    let mut best: Option<usize> = None;
    let mut i: usize = 0;
    while i < legs.len()
        invariant
            i <= legs.len(),
            ({
                let w = winner(legs@, only_positive, fastest, i as int);
                match best {
                    Some(b) => b == w && b < i && legs@[b as int] is Some,
                    None => w < 0,
                }
            }),
        decreases legs.len() - i,
    {
        if let Some(q) = legs[i] {
            if !only_positive || (q.last.is_positive() && q.change.is_positive()) {
                let better = match best {
                    None => true,
                    Some(b) => match legs[b] {
                        None => true,
                        Some(p) => if fastest {
                            q.change.gt(&p.change)
                        } else {
                            q.distance.lt(&p.distance)
                        },
                    },
                };
                if better {
                    best = Some(i);
                }
            }
        }
        i += 1;
    }
    best
}

/// The strategy moved to the winning candidate; `None` where none competes.
pub fn resolve_option_strategy_pref(
    strat: &Strategy,
    ladder: &Ladder,
    candidates: &Vec<Candidate>,
    legs: &Vec<Option<QuotedLeg>>,
    settings: &Settings,
) -> (r: Option<Strategy>)
    requires
        candidates@.len() == legs@.len(),
    ensures
        ({
            let w = winner(
                legs@,
                settings.only_positive,
                settings.fastest_rising,
                legs@.len() as int,
            );
            trades_contract(
                *strat,
                ladder.prefix@,
                ladder.exch@,
                if w < 0 {
                    None
                } else {
                    Some((candidates@[w].security_id, candidates@[w].symbol@))
                },
                r,
            )
        }),
{
    let c = match pick_candidate(legs, settings.only_positive, settings.fastest_rising) {
        Some(i) => Some((candidates[i].security_id, candidates[i].symbol.clone())),
        None => None,
    };
    move_to_contract(strat, ladder.prefix.as_str(), ladder.exch.as_str(), c)
}

proof fn lemma_winner(
    legs: Seq<Option<QuotedLeg>>,
    only_positive: bool,
    fastest: bool,
    n: int,
)
    requires
        0 <= n <= legs.len(),
    ensures
        ({
            let w = winner(legs, only_positive, fastest, n);
            &&& -1 <= w < n || n == 0
            &&& w >= 0 ==> competes(legs[w], only_positive)
            &&& w < 0 ==> forall|i: int|
                0 <= i < n ==> !competes(#[trigger] legs[i], only_positive)
        }),
    decreases n,
{
    if n > 0 {
        lemma_winner(legs, only_positive, fastest, n - 1);
    }
}

/// With the positive-premium preference every chosen contract was quoted with a
/// positive price and a positive change, and something is chosen whenever some
/// candidate was.
pub proof fn law_only_positive_premiums(legs: Seq<Option<QuotedLeg>>, fastest: bool)
    ensures
        ({
            let w = winner(legs, true, fastest, legs.len() as int);
            &&& w >= 0 ==> legs[w] is Some && (legs[w]->0).last.positive()
                && (legs[w]->0).change.positive()
            &&& w >= 0 <==> exists|i: int|
                0 <= i < legs.len() && competes(#[trigger] legs[i], true)
        }),
{
    lemma_winner(legs, true, fastest, legs.len() as int);
}

/// No competing leg rises faster than the one chosen by speed, as long as the
/// changes are numbers.
pub proof fn law_fastest_is_fastest(legs: Seq<Option<QuotedLeg>>, only_positive: bool, i: int)
    requires
        0 <= i < legs.len(),
        competes(legs[i], only_positive),
        forall|k: int| 0 <= k < legs.len() && (#[trigger] legs[k]) is Some ==> !(legs[k]->0).change.nan,
    ensures
        ({
            let w = winner(legs, only_positive, true, legs.len() as int);
            0 <= w < legs.len() && (legs[w]->0).change.not_below((legs[i]->0).change)
        }),
{
    lemma_fastest(legs, only_positive, i, legs.len() as int);
}

proof fn lemma_fastest(legs: Seq<Option<QuotedLeg>>, only_positive: bool, i: int, n: int)
    requires
        0 <= i < n <= legs.len(),
        competes(legs[i], only_positive),
        forall|k: int| 0 <= k < legs.len() && (#[trigger] legs[k]) is Some ==> !(legs[k]->0).change.nan,
    ensures
        ({
            let w = winner(legs, only_positive, true, n);
            0 <= w < n && (legs[w]->0).change.not_below((legs[i]->0).change)
        }),
    decreases n,
{
    lemma_winner(legs, only_positive, true, n);
    lemma_winner(legs, only_positive, true, n - 1);
    if i < n - 1 {
        lemma_fastest(legs, only_positive, i, n - 1);
    }
}

/// A price that is zero or less. One that is not a number is not.
pub open spec fn worthless(n: Num) -> bool {
    !n.nan && n.key <= 0
}

/// An option premium is consistent with its underlying.
pub open spec fn sane_premium(premium: Num, leg_known: bool, spot: Num, floor: Num) -> bool {
    !worthless(premium) && (leg_known && !worthless(spot) ==> premium.not_below(floor))
}

/// Whether an option premium is consistent with its underlying. `leg_known`
/// tells that strike, type and underlying are known; `floor` is the premium
/// below which the print is stale.
pub fn option_premium_sane(premium: Num, leg_known: bool, spot: Num, floor: Num) -> (r: bool)
    ensures
        r == sane_premium(premium, leg_known, spot, floor),
{
    let no_premium = !premium.nan && premium.key <= 0;
    let no_spot = !spot.nan && spot.key <= 0;
    !no_premium && (!leg_known || no_spot || premium.ge(&floor))
}

proof fn lemma_modes_differ()
    ensures
        "ABOVE"@ != "BOTH"@,
        "ABOVE"@ != "BOTH_ATM"@,
        "ABOVE"@ != "BOTH_ATM_INC"@,
        "ABOVE_ATM"@ != "BOTH"@,
        "ABOVE_ATM"@ != "BOTH_ATM"@,
        "ABOVE_ATM"@ != "BOTH_ATM_INC"@,
        "BELOW"@ != "BOTH"@,
        "BELOW"@ != "BOTH_ATM"@,
        "BELOW"@ != "BOTH_ATM_INC"@,
        "BELOW_ATM"@ != "BOTH"@,
        "BELOW_ATM"@ != "BOTH_ATM"@,
        "BELOW_ATM"@ != "BOTH_ATM_INC"@,
        "BELOW"@ != "ABOVE"@,
        "BELOW"@ != "ABOVE_ATM"@,
        "BELOW_ATM"@ != "ABOVE"@,
        "BELOW_ATM"@ != "ABOVE_ATM"@,
        "CE"@ != "PE"@,
{
    reveal_strlit("ABOVE");
    reveal_strlit("ABOVE_ATM");
    reveal_strlit("BELOW");
    reveal_strlit("BELOW_ATM");
    reveal_strlit("BOTH");
    reveal_strlit("BOTH_ATM");
    reveal_strlit("BOTH_ATM_INC");
    reveal_strlit("CE");
    reveal_strlit("PE");
    assert("ABOVE"@[0] == 'A' && "ABOVE_ATM"@[0] == 'A');
    assert("BELOW"@[1] == 'E' && "BELOW_ATM"@[1] == 'E' && "BELOW"@[0] == 'B' && "BELOW_ATM"@[0]
        == 'B');
    assert("BOTH"@[1] == 'O' && "BOTH_ATM"@[1] == 'O' && "BOTH_ATM_INC"@[1] == 'O');
    assert("BOTH"@[0] == 'B' && "BOTH_ATM"@[0] == 'B' && "BOTH_ATM_INC"@[0] == 'B');
    assert("CE"@[0] == 'C' && "PE"@[0] == 'P');
}

/// The mode asks for strikes on both sides of the money.
pub open spec fn asks_both(mode: Seq<char>) -> bool {
    mode == "BOTH"@ || mode == "BOTH_ATM"@ || mode == "BOTH_ATM_INC"@
}

/// The mode asks for strikes on one side, above or below the money.
pub open spec fn asks_one(mode: Seq<char>, above: bool) -> bool {
    if above {
        mode == "ABOVE"@ || mode == "ABOVE_ATM"@
    } else {
        mode == "BELOW"@ || mode == "BELOW_ATM"@
    }
}

/// How far a call and a put step from the money. On both sides, and out of the money,
/// a call steps up and a put steps down by the same depth; in the money it is the other
/// way round; above or below, both step the same way; else neither moves. The depth is
/// the count asked for, at least one.
pub proof fn law_calls_and_puts_step_apart(mode: Seq<char>, kind: Seq<char>, count: int)
    ensures
        ({
            let ce = strike_steps(true, mode, kind, count);
            let pe = strike_steps(false, mode, kind, count);
            let named = asks_both(mode) || asks_one(mode, true) || asks_one(mode, false);
            let itm = text::has(kind, "ITM"@);
            let otm = text::has(kind, "OTM"@);
            &&& asks_both(mode) ==> ce > 0 && ce == -pe
            &&& asks_one(mode, true) ==> ce > 0 && ce == pe
            &&& asks_one(mode, false) ==> ce < 0 && ce == pe
            &&& !named && itm ==> ce < 0 && ce == -pe
            &&& !named && !itm && otm ==> ce > 0 && ce == -pe
            &&& !named && !itm && !otm ==> ce == 0 && pe == 0
            &&& named || itm || otm ==> if count >= 1 {
                ce == count || ce == -count
            } else {
                ce == 1 || ce == -1
            }
        }),
{
    lemma_modes_differ();
}

proof fn lemma_closest(d: Seq<Num>, n: int)
    requires
        0 <= n <= d.len(),
    ensures
        ({
            let b = closest(d, n);
            &&& -1 <= b < n || n == 0 && b == -1
            &&& b >= 0 ==> !d[b].nan && !d[b].infinite
            &&& b >= 0 ==> forall|i: int|
                0 <= i < n && !(#[trigger] d[i]).nan && !d[i].infinite ==> d[b].key <= d[i].key && (i
                    < b ==> d[b].key < d[i].key)
            &&& b < 0 ==> forall|i: int|
                0 <= i < n ==> (#[trigger] d[i]).nan || d[i].infinite
        }),
    decreases n,
{
    if n > 0 {
        lemma_closest(d, n - 1);
    }
}

/// The strike at the money is the one nearest to spot, the first of equals; distances
/// that are not finite numbers do not count, and without any other the first strike
/// stands in.
pub proof fn law_money_is_nearest(d: Seq<Num>)
    requires
        d.len() > 0,
    ensures
        0 <= at_money(d) < d.len(),
        forall|i: int|
            0 <= i < d.len() && !(#[trigger] d[i]).nan && !d[i].infinite ==> !d[at_money(d)].nan
                && !d[at_money(d)].infinite && d[at_money(d)].key <= d[i].key && (i < at_money(d)
                ==> d[at_money(d)].key < d[i].key),
        (forall|i: int| 0 <= i < d.len() ==> (#[trigger] d[i]).nan || d[i].infinite) ==> at_money(d)
            == 0,
{
    lemma_closest(d, d.len() as int);
}

/// On a rising ladder the strike of a call and that of a put lie around the money as the
/// preferences ask: on both sides or out of the money the call's at or above it and the
/// put's at or below it, in the money the other way round, above or below both on that
/// side. A strike is strictly beyond the money wherever the ladder has room, by as many
/// places as are asked for and exist.
pub proof fn law_strikes_lie_around_the_money(s: Settings, d: Seq<Num>, strikes: Seq<i64>)
    requires
        d.len() == strikes.len(),
        d.len() > 0,
        forall|i: int, j: int| 0 <= i < j < strikes.len() ==> strikes[i] < strikes[j],
    ensures
        ({
            let mode = text::upper_text(s.strike_mode@);
            let kind = text::upper_text(s.option_type@);
            let named = asks_both(mode) || asks_one(mode, true) || asks_one(mode, false);
            let itm = text::has(kind, "ITM"@);
            let otm = text::has(kind, "OTM"@);
            let apart = asks_both(mode) || !named && !itm && otm;
            let money = at_money(d);
            let ce = strike_place(s, "CE"@, d);
            let pe = strike_place(s, "PE"@, d);
            let depth = if s.strike_count < 1 {
                1
            } else {
                s.strike_count as int
            };
            let room_up = strikes.len() - 1 - money;
            let up = if depth < room_up {
                depth
            } else {
                room_up
            };
            let down = if depth < money {
                depth
            } else {
                money
            };
            &&& 0 <= ce < strikes.len() && 0 <= pe < strikes.len()
            &&& apart ==> strikes[pe] <= strikes[money] <= strikes[ce]
            &&& apart && money + 1 < strikes.len() ==> strikes[money] < strikes[ce]
            &&& apart && money > 0 ==> strikes[pe] < strikes[money]
            &&& apart ==> ce == money + up && pe == money - down
            &&& !named && itm ==> pe == money + up && ce == money - down
            &&& asks_one(mode, true) ==> ce == money + up && pe == ce
            &&& asks_one(mode, false) ==> ce == money - down && pe == ce
            &&& !named && !itm && !otm ==> ce == money && pe == money
        }),
{
    lemma_modes_differ();
    law_money_is_nearest(d);
}

/// The contract of a side is the one listed at that side's strike: a call where the side
/// is `CE`, a put otherwise, at the nearest expiry of the ladder.
pub proof fn law_contract_is_at_its_strike(
    m: master::ScripV,
    strat: Strategy,
    ladder: Ladder,
    d: Seq<Num>,
    day: Option<i64>,
    s: Settings,
    side: Seq<char>,
)
    requires
        scrip::underlying(strat.trading_symbol@).len() > 0,
        ladder.strikes@[strike_place(s, side, d)] > 0,
    ensures
        ({
            let x = scrip::exch_by(text::upper_text(strat.exchange_segment@));
            let p = text::upper_text(scrip::underlying(strat.trading_symbol@));
            let own = master::leg(
                m.options,
                x,
                p,
                text::head(ladder.expiry@, 10),
                ladder.strikes@[strike_place(s, side, d)],
                side == "CE"@,
            );
            own is Some ==> contract_on_side(m, strat, ladder, d, day, s, side) == Some(
                ((own->0).0, (own->0).1),
            )
        }),
{
}

/// Which side an entry takes: the run-in override before the operator's own side, that
/// before the scanner's direction, and last the strategy's own: calls for the bulls,
/// puts for the bears.
pub proof fn law_side_precedence(s: Settings, d: Dirs)
    ensures
        ({
            let own = text::upper_text(s.option_side@);
            let over = sides::run_in(s, d);
            let live = sides::auto_side(s.nifty_trend_on, s.movers_on, d);
            let chosen = own == "CE"@ || own == "PE"@;
            let bulls = leg_side(s, d, true);
            let bears = leg_side(s, d, false);
            &&& over is Some ==> bulls == over->0 && bears == over->0
            &&& over is None && chosen ==> bulls == own && bears == own
            &&& over is None && !chosen && live is Some ==> bulls == live->0 && bears == live->0
            &&& over is None && !chosen && live is None ==> bulls == "CE"@ && bears == "PE"@
        }),
{
}

/// The sides that compete for an entry are those it could take: one where the side does
/// not hang on the strategy's direction, else calls and puts both.
pub proof fn law_pool_holds_the_side(s: Settings, d: Dirs, bull: bool)
    ensures
        pool_sides(s, d).contains(leg_side(s, d, bull) == "CE"@),
        leg_side(s, d, true) == leg_side(s, d, false) <==> pool_sides(s, d).len() == 1,
        leg_side(s, d, true) != leg_side(s, d, false) ==> pool_sides(s, d) == seq![true, false],
{
    lemma_modes_differ();
    let v = pool_sides(s, d);
    let want = leg_side(s, d, bull) == "CE"@;
    if v.len() == 1 || want {
        assert(v[0] == want);
    } else {
        assert(v[1] == want);
    }
}

/// The window around the money holds exactly the places of the ladder that are at most
/// the asked number of strikes away, at least one and at most ten.
pub proof fn law_window_is_centred(count: int, atm: int, n: int, i: int)
    requires
        0 <= atm < n,
    ensures
        ({
            let reach = if count < 1 {
                1
            } else if count > 10 {
                10
            } else {
                count
            };
            window(count, atm, n).0 <= i < window(count, atm, n).1 <==> 0 <= i < n && -reach <= i
                - atm <= reach
        }),
{
}

/// Every place of the window whose contract is listed competes once, with that
/// contract, in the order of the strikes.
pub proof fn law_candidates_are_the_listed(
    m: master::ScripV,
    s: Strategy,
    expiry: Seq<char>,
    day: Option<i64>,
    strikes: Seq<i64>,
    call: bool,
    lo: int,
    hi: int,
)
    ensures
        ({
            let v = side_candidates(m, s, expiry, day, strikes, call, lo, hi);
            &&& forall|k: int|
                0 <= k < v.len() ==> lo <= (#[trigger] v[k]).2 < hi && contract(
                    m,
                    s.trading_symbol@,
                    s.exchange_segment@,
                    expiry,
                    day,
                    strikes[v[k].2],
                    call,
                ) == Some((v[k].0, v[k].1))
            &&& forall|j: int, k: int|
                0 <= j < k < v.len() ==> (#[trigger] v[j]).2 < (#[trigger] v[k]).2
            &&& forall|i: int|
                lo <= i < hi && contract(
                    m,
                    s.trading_symbol@,
                    s.exchange_segment@,
                    expiry,
                    day,
                    #[trigger] strikes[i],
                    call,
                ) is Some ==> exists|k: int| 0 <= k < v.len() && (#[trigger] v[k]).2 == i
        }),
    decreases hi - lo,
{
    if lo < hi {
        law_candidates_are_the_listed(m, s, expiry, day, strikes, call, lo, hi - 1);
        let w = side_candidates(m, s, expiry, day, strikes, call, lo, hi - 1);
        let v = side_candidates(m, s, expiry, day, strikes, call, lo, hi);
        assert forall|i: int|
            lo <= i < hi && contract(
                m,
                s.trading_symbol@,
                s.exchange_segment@,
                expiry,
                day,
                #[trigger] strikes[i],
                call,
            ) is Some implies exists|k: int| 0 <= k < v.len() && (#[trigger] v[k]).2 == i by {
            if i < hi - 1 {
                let k = choose|k: int| 0 <= k < w.len() && (#[trigger] w[k]).2 == i;
                assert(v[k].2 == i);
            } else {
                assert(v[v.len() - 1].2 == i);
            }
        }
    }
}

/// A leg was quoted and, where only rising premiums are wanted, has a price and rises.
pub open spec fn in_the_running(q: Option<QuotedLeg>, only_positive: bool) -> bool {
    q is Some && (only_positive ==> !(q->0).last.nan && (q->0).last.key > 0 && !(q->0).change.nan
        && (q->0).change.key > 0)
}

proof fn lemma_best(legs: Seq<Option<QuotedLeg>>, only_positive: bool, fastest: bool, i: int, n: int)
    requires
        0 <= i < n <= legs.len(),
        in_the_running(legs[i], only_positive),
        forall|k: int|
            0 <= k < legs.len() && (#[trigger] legs[k]) is Some ==> !(legs[k]->0).change.nan && !(
            legs[k]->0).distance.nan,
    ensures
        ({
            let w = winner(legs, only_positive, fastest, n);
            &&& 0 <= w < n
            &&& in_the_running(legs[w], only_positive)
            &&& fastest ==> (legs[w]->0).change.key >= (legs[i]->0).change.key && (i < w ==> (
            legs[w]->0).change.key > (legs[i]->0).change.key)
            &&& !fastest ==> (legs[w]->0).distance.key <= (legs[i]->0).distance.key && (i < w ==> (
            legs[w]->0).distance.key < (legs[i]->0).distance.key)
        }),
    decreases n,
{
    lemma_winner(legs, only_positive, fastest, n);
    lemma_winner(legs, only_positive, fastest, n - 1);
    let b = winner(legs, only_positive, fastest, n - 1);
    if b >= 0 {
        lemma_best(legs, only_positive, fastest, b, n - 1);
    }
    if i < n - 1 {
        lemma_best(legs, only_positive, fastest, i, n - 1);
    }
}

/// The chosen leg is in the running, and none that is beats it: by speed none rises
/// faster, otherwise none lies nearer to spot, and of equals it is the first. Nothing is
/// chosen only where no leg is in the running.
pub proof fn law_best_leg_wins(
    legs: Seq<Option<QuotedLeg>>,
    only_positive: bool,
    fastest: bool,
    i: int,
)
    requires
        0 <= i < legs.len(),
        in_the_running(legs[i], only_positive),
        forall|k: int|
            0 <= k < legs.len() && (#[trigger] legs[k]) is Some ==> !(legs[k]->0).change.nan && !(
            legs[k]->0).distance.nan,
    ensures
        ({
            let w = winner(legs, only_positive, fastest, legs.len() as int);
            &&& 0 <= w < legs.len()
            &&& in_the_running(legs[w], only_positive)
            &&& fastest ==> (legs[w]->0).change.key >= (legs[i]->0).change.key && (i < w ==> (
            legs[w]->0).change.key > (legs[i]->0).change.key)
            &&& !fastest ==> (legs[w]->0).distance.key <= (legs[i]->0).distance.key && (i < w ==> (
            legs[w]->0).distance.key < (legs[i]->0).distance.key)
        }),
{
    lemma_best(legs, only_positive, fastest, i, legs.len() as int);
}

/// The contract that a strategy is moved to: the order segment of its exchange, an index
/// option or a stock option by its name, and the contract's own id and symbol; the rest of
/// the strategy stays. Without a contract nothing is traded.
pub proof fn law_moved_to_the_contract(
    s: Strategy,
    prefix: Seq<char>,
    exch: Seq<char>,
    id: i64,
    symbol: Seq<char>,
    t: Strategy,
)
    ensures
        trades_contract(s, prefix, exch, Some((id, symbol)), Some(t)) ==> {
            &&& t.security_id == id && t.trading_symbol@ == symbol
            &&& scrip::index_prefix(prefix) ==> t.instrument@ == "OPTIDX"@
            &&& !scrip::index_prefix(prefix) ==> t.instrument@ == "OPTSTK"@
            &&& text::upper_text(exch) == "BSE"@ ==> t.exchange_segment@ == "BSE_FNO"@
            &&& text::upper_text(exch) == "NSE"@ ==> t.exchange_segment@ == "NSE_FNO"@
            &&& text::upper_text(exch) == "MCX"@ ==> t.exchange_segment@ == "MCX_COMM"@
            &&& text::upper_text(exch) == "NCDEX"@ ==> t.exchange_segment@ == "NCD_FNO"@
            &&& t.id == s.id && t.side == s.side && t.category == s.category && t.lot == s.lot
                && t.name == s.name && t.synthetic == s.synthetic && t.manual == s.manual
        },
        !trades_contract(s, prefix, exch, Some((id, symbol)), None),
        !trades_contract(s, prefix, exch, None, Some(t)),
        trades_contract(s, prefix, exch, None, None),
{
    reveal_strlit("BSE");
    reveal_strlit("NSE");
    reveal_strlit("MCX");
    reveal_strlit("NCDEX");
    assert("BSE"@[0] == 'B' && "NSE"@[0] == 'N' && "MCX"@[0] == 'M' && "NCDEX"@[0] == 'N');
    assert("NSE"@.len() == 3 && "NCDEX"@.len() == 5);
}

/// Where a request has no exact listing, the leg of the dated stand-in takes its place;
/// without that, another exchange only where its own lists nothing of the name: the
/// national before the Bombay, the commodity and the agricultural one. A request without
/// a name or a strike finds nothing.
pub proof fn law_contract_by_rank(
    m: master::ScripV,
    symbol: Seq<char>,
    segment: Seq<char>,
    expiry: Seq<char>,
    cents: i64,
    call: bool,
)
    ensures
        ({
            let o = m.options;
            let name = scrip::underlying(symbol);
            let p = text::upper_text(name);
            let x = scrip::exch_by(text::upper_text(segment));
            let e = text::head(expiry, 10);
            let own = exists|i: int|
                0 <= i < o.len() && (#[trigger] o[i]).exchange == x && o[i].prefix == p;
            let exact = master::leg(o, x, p, e, cents, call);
            let nse = master::leg(o, "NSE"@, p, e, cents, call);
            let bse = master::leg(o, "BSE"@, p, e, cents, call);
            let mcx = master::leg(o, "MCX"@, p, e, cents, call);
            let ncdex = master::leg(o, "NCDEX"@, p, e, cents, call);
            let r = contract(m, symbol, segment, expiry, None, cents, call);
            let asked = name.len() > 0 && cents > 0;
            &&& !asked ==> r is None
            &&& asked && exact is Some ==> r == Some(((exact->0).0, (exact->0).1))
            &&& asked && exact is None && own ==> r is None
            &&& asked && exact is None && !own && nse is Some ==> r == Some(
                ((nse->0).0, (nse->0).1),
            )
            &&& asked && exact is None && !own && nse is None && bse is Some ==> r == Some(
                ((bse->0).0, (bse->0).1),
            )
            &&& asked && exact is None && !own && nse is None && bse is None && mcx is Some ==> r
                == Some(((mcx->0).0, (mcx->0).1))
            &&& asked && exact is None && !own && nse is None && bse is None && mcx is None ==> (r
                is Some <==> ncdex is Some) && (r is Some ==> r->0 == ((ncdex->0).0, (ncdex->0).1))
        }),
{
}

/// A dated request without an exact listing takes the leg of the expiry nearest to its day
/// on its own exchange, wherever one is listed.
pub proof fn law_contract_takes_the_nearest_expiry(
    m: master::ScripV,
    symbol: Seq<char>,
    segment: Seq<char>,
    expiry: Seq<char>,
    day: i64,
    cents: i64,
    call: bool,
)
    requires
        scrip::underlying(symbol).len() > 0,
        cents > 0,
    ensures
        ({
            let o = m.options;
            let p = text::upper_text(scrip::underlying(symbol));
            let x = scrip::exch_by(text::upper_text(segment));
            let k = master::nearest(o, x, p, cents, call, day, o.len() as int);
            let near = master::leg(o, x, p, o[k].expiry, cents, call);
            master::leg(o, x, p, text::head(expiry, 10), cents, call) is None && k >= 0 && near
                is Some ==> contract(m, symbol, segment, expiry, Some(day), cents, call) == Some(
                ((near->0).0, (near->0).1),
            )
        }),
{
}

/// The contracts of several sides compete one side after the other.
pub proof fn law_pool_is_side_by_side(
    m: master::ScripV,
    s: Strategy,
    expiry: Seq<char>,
    day: Option<i64>,
    strikes: Seq<i64>,
    lo: int,
    hi: int,
)
    ensures
        pool_candidates(m, s, expiry, day, strikes, seq![true, false], lo, hi, 2)
            == side_candidates(m, s, expiry, day, strikes, true, lo, hi) + side_candidates(
            m,
            s,
            expiry,
            day,
            strikes,
            false,
            lo,
            hi,
        ),
        forall|call: bool|
            pool_candidates(m, s, expiry, day, strikes, seq![call], lo, hi, 1)
                == #[trigger] side_candidates(m, s, expiry, day, strikes, call, lo, hi),
{
    reveal_with_fuel(pool_candidates, 3);
    let none = Seq::<(i64, Seq<char>, int)>::empty();
    let a = side_candidates(m, s, expiry, day, strikes, true, lo, hi);
    assert(none + a =~= a);
    assert forall|call: bool|
        pool_candidates(m, s, expiry, day, strikes, seq![call], lo, hi, 1)
            == #[trigger] side_candidates(m, s, expiry, day, strikes, call, lo, hi) by {
        let b = side_candidates(m, s, expiry, day, strikes, call, lo, hi);
        assert(none + b =~= b);
    }
}

/// A price is worthless at zero and below; one that is not a number is not.
pub proof fn law_worthless_prices(n: Num)
    ensures
        n.nan ==> !worthless(n),
        !n.nan && n.key > 0 ==> !worthless(n),
        !n.nan && n.key <= 0 ==> worthless(n),
{
}

/// Candidates are quoted for a live entry that has a preference among them, with a session
/// to quote them in; the simulated book takes the contract of the ladder.
pub proof fn law_when_candidates_are_quoted(s: Settings, candidates: nat, session: bool)
    ensures
        preference_step(true, s, candidates, session) == PrefStep::Base,
        !s.only_positive && !s.fastest_rising ==> preference_step(false, s, candidates, session)
            == PrefStep::Base,
        candidates == 0 || !session ==> preference_step(false, s, candidates, session)
            == PrefStep::Base,
        (s.only_positive || s.fastest_rising) && candidates >= 1 && session ==> preference_step(
            false,
            s,
            candidates,
            session,
        ) == PrefStep::Quote,
{
}

/// A premium above zero is sane where the leg or its spot is unknown, and else where it is
/// not below its floor; one at zero or below never is.
pub proof fn law_sane_premiums(premium: Num, known: bool, spot: Num, floor: Num)
    requires
        !premium.nan && !floor.nan && !spot.nan,
    ensures
        premium.key <= 0 ==> !sane_premium(premium, known, spot, floor),
        premium.key > 0 && (!known || spot.key <= 0) ==> sane_premium(premium, known, spot, floor),
        premium.key > 0 && known && spot.key > 0 ==> (sane_premium(premium, known, spot, floor)
            <==> premium.key >= floor.key),
{
}

} // verus!
