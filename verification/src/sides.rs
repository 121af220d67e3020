//! Which option side the engine trades, and on which instruments it scans.

use vstd::prelude::*;
use vstd::std_specs::hash::*;
use std::collections::HashSet;
use crate::model::{bull_of_upper, Settings, Strategy};
use crate::text;

verus! {

broadcast use vstd::std_specs::hash::group_hash_axioms;

/// The live directions: of the index trend and of the movers, positive for
/// rising and negative for falling.
#[derive(Clone, Copy, Debug, PartialEq, Eq, Structural)]
pub struct Dirs {
    pub nifty: i64,
    pub movers: i64,
}

/// The option side of a direction.
pub open spec fn side_of(d: int) -> Option<Seq<char>> {
    if d > 0 {
        Some("CE"@)
    } else if d < 0 {
        Some("PE"@)
    } else {
        None
    }
}

fn side_from(d: i64) -> (r: Option<&'static str>)
    ensures
        crate::gate::lit_view(r) == side_of(d as int),
{
    if d > 0 {
        Some("CE")
    } else if d < 0 {
        Some("PE")
    } else {
        None
    }
}

/// The scanner direction: the index trend where it runs and has decided, else
/// the movers where they run and have decided.
pub open spec fn auto_side(nifty_on: bool, movers_on: bool, d: Dirs) -> Option<Seq<char>> {
    if nifty_on && d.nifty != 0 {
        side_of(d.nifty as int)
    } else if movers_on {
        side_of(d.movers as int)
    } else {
        None
    }
}

/// The option side of the live scanners.
pub fn auto_option_side(settings: &Settings, d: Dirs) -> (r: Option<&'static str>)
    ensures
        crate::gate::lit_view(r) == auto_side(settings.nifty_trend_on, settings.movers_on, d),
{
    if settings.nifty_trend_on {
        if d.nifty != 0 {
            return side_from(d.nifty);
        }
    }
    if settings.movers_on {
        return side_from(d.movers);
    }
    None
}

/// The side of the run-in override, given its manual side in capitals.
pub open spec fn run_in_by(
    enabled: bool,
    auto: bool,
    manual_upper: Seq<char>,
    live: Option<Seq<char>>,
) -> Option<Seq<char>> {
    if !enabled {
        None
    } else if auto && live is Some {
        live
    } else if manual_upper == "CE"@ || manual_upper == "PE"@ {
        Some(manual_upper)
    } else {
        None
    }
}

/// The side of the run-in override, given its manual side in capitals.
pub fn run_in_side_by(
    enabled: bool,
    auto: bool,
    manual_upper: &str,
    live: Option<&'static str>,
) -> (r: Option<&'static str>)
    ensures
        crate::gate::lit_view(r) == run_in_by(
            enabled,
            auto,
            manual_upper@,
            crate::gate::lit_view(live),
        ),
{
    if !enabled {
        return None;
    }
    if auto {
        if let Some(side) = live {
            return Some(side);
        }
    }
    if text::same(manual_upper, "CE") {
        Some("CE")
    } else if text::same(manual_upper, "PE") {
        Some("PE")
    } else {
        None
    }
}

/// The run-in override of the settings under the live directions.
pub open spec fn run_in(s: Settings, d: Dirs) -> Option<Seq<char>> {
    run_in_by(
        s.run_in_enabled,
        s.run_in_auto,
        text::upper_text(s.run_in_side@),
        auto_side(s.nifty_trend_on, s.movers_on, d),
    )
}

/// The side of the run-in override: the manual one, or in auto mode the live
/// scanner direction while there is one. `None` with the override off.
pub fn effective_run_in_side(settings: &Settings, d: Dirs) -> (r: Option<&'static str>)
    ensures
        crate::gate::lit_view(r) == run_in(*settings, d),
{
    let live = auto_option_side(settings, d);
    let manual = text::uppercase(settings.run_in_side.as_str());
    run_in_side_by(settings.run_in_enabled, settings.run_in_auto, manual.as_str(), live)
}

/// The one side the engine trades: the override, else the scanner direction.
pub open spec fn active(s: Settings, d: Dirs) -> Option<Seq<char>> {
    if run_in(s, d) is Some {
        run_in(s, d)
    } else {
        auto_side(s.nifty_trend_on, s.movers_on, d)
    }
}

/// The side the engine trades right now, where it has committed to one.
pub fn active_side(settings: &Settings, d: Dirs) -> (r: Option<&'static str>)
    ensures
        crate::gate::lit_view(r) == active(*settings, d),
{
    match effective_run_in_side(settings, d) {
        Some(side) => Some(side),
        None => auto_option_side(settings, d),
    }
}

/// The side a scanner pick resolves to: the active one, `CE` by default.
pub fn pick_side(settings: &Settings, d: Dirs) -> (r: &'static str)
    ensures
        r@ == match active(*settings, d) {
            Some(side) => side,
            None => "CE"@,
        },
{
    match active_side(settings, d) {
        Some(side) => side,
        None => "CE",
    }
}

/// The side wanted for a strategy: the active one, else its own.
pub open spec fn desired(s: Settings, d: Dirs, bull: bool) -> Seq<char> {
    match active(s, d) {
        Some(side) => side,
        None => if bull {
            "CE"@
        } else {
            "PE"@
        },
    }
}

/// The option side wanted for a strategy.
pub fn desired_option_side(settings: &Settings, d: Dirs, strat: &Strategy) -> (r: &'static str)
    ensures
        r@ == desired(*settings, d, crate::model::bullish(*strat)),
{
    match active_side(settings, d) {
        Some(side) => side,
        None => {
            let u = text::uppercase(strat.category.as_str());
            if bull_of_upper(u.as_str(), strat.side.as_str()) {
                "CE"
            } else {
                "PE"
            }
        },
    }
}

/// The clock of the movers scan and the side it was last resolved for.
#[derive(Clone, Copy, Debug, PartialEq, Eq, Structural)]
pub struct AutoSide {
    /// Positive for `CE`, negative for `PE`, zero for no side.
    pub side: i64,
    pub last_movers: i64,
}

/// The number of a side.
pub open spec fn side_number(s: Option<Seq<char>>) -> int {
    if s == Some("CE"@) {
        1
    } else if s == Some("PE"@) {
        -1
    } else {
        0
    }
}

/// Notes the live side; where it changed, the movers scan is due at once.
pub fn sync_auto_side(settings: &Settings, d: Dirs, a: AutoSide) -> (r: AutoSide)
    ensures
        r.side == side_number(auto_side(settings.nifty_trend_on, settings.movers_on, d)),
        r.last_movers == if a.side != r.side {
            0
        } else {
            a.last_movers
        },
{
    let cur: i64 = match auto_option_side(settings, d) {
        Some(side) => if text::same(side, "CE") {
            1
        } else {
            proof {
                reveal_strlit("CE");
                reveal_strlit("PE");
                assert("CE"@[0] == 'C' && "PE"@[0] == 'P');
            }
            -1
        },
        None => 0,
    };
    AutoSide {
        side: cur,
        last_movers: if a.side != cur {
            0
        } else {
            a.last_movers
        },
    }
}

/// The executed side never differs from the active side: while a side is active
/// every strategy wants it, and so does every scanner pick.
pub proof fn law_one_side_decides(s: Settings, d: Dirs, bull: bool)
    ensures
        active(s, d) is Some ==> desired(s, d, bull) == active(s, d)->0,
        active(s, d) is None ==> desired(s, d, bull) == (if bull {
            "CE"@
        } else {
            "PE"@
        }),
        active(s, d) is Some ==> active(s, d)->0 == "CE"@ || active(s, d)->0 == "PE"@,
{
}

/// A manual override holds whatever the scanners say.
pub proof fn law_manual_override_holds(s: Settings, d: Dirs, e: Dirs)
    requires
        s.run_in_enabled,
        !s.run_in_auto,
        text::upper_text(s.run_in_side@) == "CE"@ || text::upper_text(s.run_in_side@) == "PE"@,
    ensures
        active(s, d) == active(s, e),
        active(s, d) == Some(text::upper_text(s.run_in_side@)),
{
}

/// The name of the template assigned to the live direction; with none, that of
/// the strategy's own direction. May be empty.
pub open spec fn template_choice(s: Settings, d: Dirs, bull: bool) -> Seq<char> {
    let live = if s.nifty_trend_on {
        if d.nifty > 0 {
            s.nifty_bull_template@
        } else if d.nifty < 0 {
            s.nifty_bear_template@
        } else {
            Seq::empty()
        }
    } else if s.movers_on {
        if d.movers > 0 {
            s.mover_bull_template@
        } else if d.movers < 0 {
            s.mover_bear_template@
        } else {
            Seq::empty()
        }
    } else {
        Seq::empty()
    };
    if live.len() > 0 {
        live
    } else if bull {
        s.bull_template@
    } else {
        s.bear_template@
    }
}

fn is_blank(s: &str) -> (r: bool)
    ensures
        r == (s@.len() == 0),
{
    let v = text::chars_of(s);
    v.len() == 0
}

/// The name of the template that applies to an entry, if any is assigned.
pub fn template_for_direction(settings: &Settings, d: Dirs, strat: &Strategy) -> (r: Option<String>)
    ensures
        ({
            let name = template_choice(*settings, d, crate::model::bullish(*strat));
            if name.len() == 0 {
                r is None
            } else {
                r is Some && r->0@ == name
            }
        }),
{
    let live: Option<&String> = if settings.nifty_trend_on {
        if d.nifty > 0 {
            Some(&settings.nifty_bull_template)
        } else if d.nifty < 0 {
            Some(&settings.nifty_bear_template)
        } else {
            None
        }
    } else if settings.movers_on {
        if d.movers > 0 {
            Some(&settings.mover_bull_template)
        } else if d.movers < 0 {
            Some(&settings.mover_bear_template)
        } else {
            None
        }
    } else {
        None
    };
    if let Some(name) = live {
        if !is_blank(name.as_str()) {
            return Some(name.clone());
        }
    }
    let u = text::uppercase(strat.category.as_str());
    let own = if bull_of_upper(u.as_str(), strat.side.as_str()) {
        &settings.bull_template
    } else {
        &settings.bear_template
    };
    if is_blank(own.as_str()) {
        None
    } else {
        Some(own.clone())
    }
}

/// The instruments as numbers and segment texts.
pub open spec fn pairs(v: Seq<(i64, String)>) -> Seq<(i64, Seq<char>)> {
    Seq::new(v.len(), |i: int| (v[i].0, v[i].1@))
}

/// A segment the scan may hold, given in capitals.
pub open spec fn segment_scanned(u: Seq<char>, indices: bool, commodities: bool) -> bool {
    (u == "IDX_I"@ ==> indices) && (u == "MCX_COMM"@ ==> commodities)
}

/// The candidate at `i` enters the universe: a known instrument, not removed by
/// the operator, named for the first time, in a segment that is scanned.
pub open spec fn enters(
    c: Seq<(i64, Seq<char>)>,
    excluded: Seq<i64>,
    indices: bool,
    commodities: bool,
    i: int,
) -> bool {
    &&& c[i].0 > 0
    &&& !excluded.contains(c[i].0)
    &&& forall|j: int| 0 <= j < i ==> (#[trigger] c[j]).0 != c[i].0
    &&& segment_scanned(text::upper_text(c[i].1), indices, commodities)
}

/// The candidates before `n` that enter the universe.
pub open spec fn universe(
    c: Seq<(i64, Seq<char>)>,
    excluded: Seq<i64>,
    indices: bool,
    commodities: bool,
    n: int,
) -> Seq<(i64, Seq<char>)>
    decreases n,
{
    if n <= 0 {
        Seq::empty()
    } else if enters(c, excluded, indices, commodities, n - 1) {
        universe(c, excluded, indices, commodities, n - 1).push(c[n - 1])
    } else {
        universe(c, excluded, indices, commodities, n - 1)
    }
}

/// The instruments of strategies.
pub open spec fn strategy_pairs(v: Seq<Strategy>) -> Seq<(i64, Seq<char>)> {
    Seq::new(v.len(), |i: int| (v[i].security_id, v[i].exchange_segment@))
}

/// Commodities as candidates.
pub open spec fn commodity_pairs(v: Seq<i64>) -> Seq<(i64, Seq<char>)> {
    Seq::new(v.len(), |i: int| (v[i], "MCX_COMM"@))
}

/// The candidates of a scan: the market catalogue, the strategies' instruments
/// and, where commodities are scanned, the operator's list or the default one.
pub open spec fn candidates(
    catalogue: Seq<(i64, Seq<char>)>,
    strategies: Seq<Strategy>,
    list: Seq<i64>,
    default_list: Seq<i64>,
    commodities: bool,
) -> Seq<(i64, Seq<char>)> {
    let tail = if !commodities {
        Seq::empty()
    } else if list.len() > 0 {
        commodity_pairs(list)
    } else {
        commodity_pairs(default_list)
    };
    catalogue + strategy_pairs(strategies) + tail
}

proof fn lemma_pairs_push(v: Seq<(i64, String)>, p: (i64, String))
    ensures
        pairs(v.push(p)) == pairs(v).push((p.0, p.1@)),
{
    assert(pairs(v.push(p)) =~= pairs(v).push((p.0, p.1@)));
}

proof fn lemma_take_push<T>(s: Seq<T>, i: int)
    requires
        0 <= i < s.len(),
    ensures
        s.take(i + 1) == s.take(i).push(s[i]),
{
    assert(s.take(i + 1) =~= s.take(i).push(s[i]));
}

fn list_of_candidates(
    catalogue: &Vec<(i64, String)>,
    strategies: &Vec<Strategy>,
    list: &Vec<i64>,
    default_list: &Vec<i64>,
    commodities: bool,
) -> (r: Vec<(i64, String)>)
    ensures
        pairs(r@) == candidates(
            pairs(catalogue@),
            strategies@,
            list@,
            default_list@,
            commodities,
        ),
{
    let mut out: Vec<(i64, String)> = Vec::new();
    let mut i: usize = 0;
    while i < catalogue.len()
        invariant
            i <= catalogue.len(),
            pairs(out@) == pairs(catalogue@).take(i as int),
        decreases catalogue.len() - i,
    {
        let row = (catalogue[i].0, catalogue[i].1.clone());
        proof {
            lemma_pairs_push(out@, row);
            lemma_take_push(pairs(catalogue@), i as int);
        }
        out.push(row);
        i += 1;
    }
    assert(pairs(out@) =~= pairs(catalogue@));
    let mut k: usize = 0;
    while k < strategies.len()
        invariant
            k <= strategies.len(),
            pairs(out@) == pairs(catalogue@) + strategy_pairs(strategies@).take(k as int),
        decreases strategies.len() - k,
    {
        let row = (strategies[k].security_id, strategies[k].exchange_segment.clone());
        proof {
            lemma_pairs_push(out@, row);
            lemma_take_push(strategy_pairs(strategies@), k as int);
            assert(pairs(out@.push(row)) =~= pairs(catalogue@) + strategy_pairs(strategies@).take(
                k + 1,
            ));
        }
        out.push(row);
        k += 1;
    }
    let ghost base = pairs(catalogue@) + strategy_pairs(strategies@);
    assert(pairs(out@) =~= base);
    if commodities {
        let src: &Vec<i64> = if list.len() > 0 {
            list
        } else {
            default_list
        };
        let mut q: usize = 0;
        while q < src.len()
            invariant
                q <= src.len(),
                pairs(out@) == base + commodity_pairs(src@).take(q as int),
            decreases src.len() - q,
        {
            let row = (src[q], "MCX_COMM".to_owned());
            proof {
                lemma_pairs_push(out@, row);
                lemma_take_push(commodity_pairs(src@), q as int);
                assert(pairs(out@.push(row)) =~= base + commodity_pairs(src@).take(q + 1));
            }
            out.push(row);
            q += 1;
        }
        assert(pairs(out@) =~= base + commodity_pairs(src@));
    } else {
        assert(base =~= base + Seq::<(i64, Seq<char>)>::empty());
    }
    out
}

/// The instruments a scan covers, in order of their first mention.
pub fn scan_universe(
    catalogue: &Vec<(i64, String)>,
    strategies: &Vec<Strategy>,
    settings: &Settings,
    default_commodities: &Vec<i64>,
    include_indices: bool,
    include_commodities: bool,
) -> (r: Vec<(i64, String)>)
    ensures
        ({
            let c = candidates(
                pairs(catalogue@),
                strategies@,
                settings.commodity_list@,
                default_commodities@,
                include_commodities,
            );
            pairs(r@) == universe(
                c,
                settings.scanner_exclude@,
                include_indices,
                include_commodities,
                c.len() as int,
            )
        }),
{
    let all = list_of_candidates(
        catalogue,
        strategies,
        &settings.commodity_list,
        default_commodities,
        include_commodities,
    );
    let ghost c = pairs(all@);
    let mut out: Vec<(i64, String)> = Vec::new();
    let mut seen: HashSet<i64> = HashSet::new();
    let mut i: usize = 0;
    while i < all.len()
        invariant
            i <= all.len(),
            c == pairs(all@),
            pairs(out@) == universe(
                c,
                settings.scanner_exclude@,
                include_indices,
                include_commodities,
                i as int,
            ),
            forall|id: i64| #[trigger]
                seen@.contains(id) == (id > 0 && !settings.scanner_exclude@.contains(id) && exists|
                    j: int,
                | 0 <= j < i && (#[trigger] c[j]).0 == id),
        decreases all.len() - i,
    {
        let sid: i64 = all[i].0;
        let ghost was = seen@;
        assert(c[i as int] == (sid, all@[i as int].1@));
        if sid > 0 && !has_id(&settings.scanner_exclude, sid) {
            let fresh = seen.insert(sid);
            if fresh {
                let u = text::uppercase(all[i].1.as_str());
                let index_out = text::same(u.as_str(), "IDX_I") && !include_indices;
                let comm_out = text::same(u.as_str(), "MCX_COMM") && !include_commodities;
                if !index_out && !comm_out {
                    let ghost prev = out@;
                    out.push((sid, all[i].1.clone()));
                    assert(pairs(out@) =~= pairs(prev).push(c[i as int]));
                }
            }
        }
        proof {
            assert forall|id: i64| #[trigger]
                seen@.contains(id) == (id > 0 && !settings.scanner_exclude@.contains(id) && exists|
                    j: int,
                | 0 <= j < i + 1 && (#[trigger] c[j]).0 == id) by {
                if id == sid {
                    assert(c[i as int].0 == id);
                }
                assert(was.contains(id) ==> seen@.contains(id));
            }
        }
        i += 1;
    }
    out
}

/// Whether a list of numbers holds `x`.
pub fn has_id(v: &Vec<i64>, x: i64) -> (r: bool)
    ensures
        r == v@.contains(x),
{
    let mut i: usize = 0;
    while i < v.len()
        invariant
            i <= v.len(),
            forall|j: int| 0 <= j < i ==> v@[j] != x,
        decreases v.len() - i,
    {
        if v[i] == x {
            return true;
        }
        i += 1;
    }
    false
}

/// No instrument enters the universe twice, and an instrument the operator
/// removed never enters it.
pub proof fn law_universe_is_clean(
    c: Seq<(i64, Seq<char>)>,
    excluded: Seq<i64>,
    indices: bool,
    commodities: bool,
    n: int,
)
    requires
        0 <= n <= c.len(),
    ensures
        ({
            let u = universe(c, excluded, indices, commodities, n);
            &&& forall|a: int| 0 <= a < u.len() ==> (#[trigger] u[a]).0 > 0 && !excluded.contains(u[a].0)
            &&& forall|a: int, b: int|
                0 <= a < b < u.len() ==> (#[trigger] u[a]).0 != (#[trigger] u[b]).0
        }),
{
    lemma_universe_from(c, excluded, indices, commodities, n);
}

proof fn lemma_universe_from(
    c: Seq<(i64, Seq<char>)>,
    excluded: Seq<i64>,
    indices: bool,
    commodities: bool,
    n: int,
)
    requires
        0 <= n <= c.len(),
    ensures
        ({
            let u = universe(c, excluded, indices, commodities, n);
            &&& forall|a: int| 0 <= a < u.len() ==> (#[trigger] u[a]).0 > 0 && !excluded.contains(u[a].0)
            &&& forall|a: int|
                0 <= a < u.len() ==> exists|j: int| 0 <= j < n && #[trigger] c[j] == #[trigger] u[a]
            &&& forall|a: int, b: int|
                0 <= a < b < u.len() ==> (#[trigger] u[a]).0 != (#[trigger] u[b]).0
        }),
    decreases n,
{
    if n > 0 {
        lemma_universe_from(c, excluded, indices, commodities, n - 1);
        let was = universe(c, excluded, indices, commodities, n - 1);
        let u = universe(c, excluded, indices, commodities, n);
        assert forall|a: int| 0 <= a < u.len() implies exists|j: int|
            0 <= j < n && #[trigger] c[j] == #[trigger] u[a] by {
            if a < was.len() {
                assert(u[a] == was[a]);
                let j = choose|j: int| 0 <= j < n - 1 && c[j] == was[a];
                assert(c[j] == u[a]);
            } else {
                assert(c[n - 1] == u[a]);
            }
        }
        assert forall|a: int, b: int| 0 <= a < b < u.len() implies (#[trigger] u[a]).0 != (
        #[trigger] u[b]).0 by {
            if b >= was.len() {
                assert(u[a] == was[a]);
                let j = choose|j: int| 0 <= j < n - 1 && c[j] == was[a];
                assert(c[j].0 != c[n - 1].0);
            } else {
                assert(u[a] == was[a] && u[b] == was[b]);
            }
        }
        assert forall|a: int| 0 <= a < u.len() implies (#[trigger] u[a]).0 > 0
            && !excluded.contains(u[a].0) by {
            if a < was.len() {
                assert(u[a] == was[a]);
            }
        }
    }
}

/// The scanner direction comes from the sign of the index trend where it runs and has
/// decided, else from the sign of the movers where they run: rising trades calls, falling
/// trades puts, and without a decision there is no side.
pub proof fn law_direction_picks_the_side(nifty_on: bool, movers_on: bool, d: Dirs)
    ensures
        ({
            let side = auto_side(nifty_on, movers_on, d);
            &&& nifty_on && d.nifty > 0 ==> side == Some("CE"@)
            &&& nifty_on && d.nifty < 0 ==> side == Some("PE"@)
            &&& (!nifty_on || d.nifty == 0) && movers_on && d.movers > 0 ==> side == Some("CE"@)
            &&& (!nifty_on || d.nifty == 0) && movers_on && d.movers < 0 ==> side == Some("PE"@)
            &&& (!nifty_on || d.nifty == 0) && (!movers_on || d.movers == 0) ==> side is None
        }),
{
}

/// Turning every direction round swaps calls and puts and nothing else.
pub proof fn law_directions_mirror(nifty_on: bool, movers_on: bool, d: Dirs, e: Dirs)
    requires
        e.nifty == -d.nifty,
        e.movers == -d.movers,
    ensures
        auto_side(nifty_on, movers_on, d) is None <==> auto_side(nifty_on, movers_on, e) is None,
        auto_side(nifty_on, movers_on, d) == Some("CE"@) <==> auto_side(nifty_on, movers_on, e)
            == Some("PE"@),
        side_number(auto_side(nifty_on, movers_on, d)) == -side_number(
            auto_side(nifty_on, movers_on, e),
        ),
{
    reveal_strlit("CE");
    reveal_strlit("PE");
    assert("CE"@[0] == 'C' && "PE"@[0] == 'P');
}

/// The run-in override: none while it is off; in auto mode the live side, while there is
/// one; else the side set by hand, where it names one.
pub proof fn law_run_in_override(s: Settings, d: Dirs)
    ensures
        ({
            let hand = text::upper_text(s.run_in_side@);
            let live = auto_side(s.nifty_trend_on, s.movers_on, d);
            let named = hand == "CE"@ || hand == "PE"@;
            &&& !s.run_in_enabled ==> run_in(s, d) is None
            &&& s.run_in_enabled && s.run_in_auto && live is Some ==> run_in(s, d) == live
            &&& s.run_in_enabled && (!s.run_in_auto || live is None) && named ==> run_in(s, d)
                == Some(hand)
            &&& s.run_in_enabled && (!s.run_in_auto || live is None) && !named ==> run_in(s, d)
                is None
            &&& !s.run_in_enabled ==> active(s, d) == live
            &&& run_in(s, d) is Some ==> active(s, d) == run_in(s, d)
        }),
{
}

/// The template of an entry: that of the live direction, which the index trend gives
/// before the movers, else that of the strategy's own direction.
pub proof fn law_template_by_direction(s: Settings, d: Dirs, bull: bool)
    ensures
        ({
            let t = template_choice(s, d, bull);
            let own = if bull {
                s.bull_template@
            } else {
                s.bear_template@
            };
            &&& s.nifty_trend_on && d.nifty > 0 && s.nifty_bull_template@.len() > 0 ==> t
                == s.nifty_bull_template@
            &&& s.nifty_trend_on && d.nifty < 0 && s.nifty_bear_template@.len() > 0 ==> t
                == s.nifty_bear_template@
            &&& !s.nifty_trend_on && s.movers_on && d.movers > 0 && s.mover_bull_template@.len() > 0
                ==> t == s.mover_bull_template@
            &&& !s.nifty_trend_on && s.movers_on && d.movers < 0 && s.mover_bear_template@.len() > 0
                ==> t == s.mover_bear_template@
            &&& s.nifty_trend_on && d.nifty == 0 ==> t == own
            &&& s.nifty_trend_on && d.nifty > 0 && s.nifty_bull_template@.len() == 0 ==> t == own
            &&& s.nifty_trend_on && d.nifty < 0 && s.nifty_bear_template@.len() == 0 ==> t == own
            &&& !s.nifty_trend_on && (!s.movers_on || d.movers == 0) ==> t == own
        }),
{
}

/// A candidate is scanned exactly where it is a known instrument that the operator did not
/// remove, named here for the first time, and its segment is not one that is switched off:
/// the indices and the commodities have a switch each.
pub proof fn law_who_enters_the_universe(
    c: Seq<(i64, Seq<char>)>,
    excluded: Seq<i64>,
    indices: bool,
    commodities: bool,
    n: int,
)
    requires
        0 < n <= c.len(),
    ensures
        ({
            let (id, seg) = c[n - 1];
            let u = text::upper_text(seg);
            let in_it = id > 0 && !excluded.contains(id) && (forall|j: int|
                0 <= j < n - 1 ==> (#[trigger] c[j]).0 != id) && (indices || u != "IDX_I"@) && (
            commodities || u != "MCX_COMM"@);
            let was = universe(c, excluded, indices, commodities, n - 1);
            universe(c, excluded, indices, commodities, n) == if in_it {
                was + seq![(id, seg)]
            } else {
                was
            }
        }),
{
    let was = universe(c, excluded, indices, commodities, n - 1);
    assert(was + seq![c[n - 1]] =~= was.push(c[n - 1]));
}

/// A scan takes in the market catalogue, the strategies' instruments and, while commodities
/// are scanned, the operator's list, or the default one where it is empty.
pub proof fn law_candidates_of_a_scan(
    catalogue: Seq<(i64, Seq<char>)>,
    ss: Seq<Strategy>,
    list: Seq<i64>,
    default_list: Seq<i64>,
    i: int,
)
    requires
        0 <= i,
    ensures
        ({
            let off = candidates(catalogue, ss, list, default_list, false);
            let on = candidates(catalogue, ss, list, default_list, true);
            let n = catalogue.len() + ss.len();
            let own = if list.len() > 0 {
                list
            } else {
                default_list
            };
            &&& off.len() == n && on.len() == n + own.len()
            &&& i < catalogue.len() ==> on[i] == catalogue[i] && off[i] == catalogue[i]
            &&& i < ss.len() ==> on[catalogue.len() + i] == (
                ss[i].security_id,
                ss[i].exchange_segment@,
            )
            &&& i < own.len() ==> on[n + i] == (own[i], "MCX_COMM"@)
        }),
{
}

} // verus!
