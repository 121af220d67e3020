//! Which chart a strategy is evaluated on, which contract it trades and on
//! which timeframe.

use vstd::prelude::*;
use crate::model::{Settings, Strategy};
use crate::scrip;
use crate::text;

verus! {

/// Class of the instrument a strategy runs on.
#[derive(Clone, Copy, Debug, PartialEq, Eq, Structural)]
pub enum StratCat {
    Index,
    Fno,
    Comm,
}

/// The class by segment and instrument, both in upper case.
pub open spec fn category_by(seg: Seq<char>, inst: Seq<char>) -> StratCat {
    if inst == "INDEX"@ || inst == "OPTIDX"@ || seg == "IDX_I"@ {
        StratCat::Index
    } else if text::has(seg, "COMM"@) || text::has(seg, "NCD"@) || inst == "FUTCOM"@ || inst
        == "OPTFUT"@ {
        StratCat::Comm
    } else {
        StratCat::Fno
    }
}

/// The class of a segment and an instrument.
pub open spec fn category(seg: Seq<char>, inst: Seq<char>) -> StratCat {
    category_by(text::upper_text(seg), text::upper_text(inst))
}

/// The class by segment and instrument, both in upper case.
pub fn category_of_upper(seg: &str, inst: &str) -> (r: StratCat)
    ensures
        r == category_by(seg@, inst@),
{
    if text::one_of(inst, "INDEX", "OPTIDX") || text::same(seg, "IDX_I") {
        StratCat::Index
    } else if text::contains(seg, "COMM") || text::contains(seg, "NCD") || text::one_of(
        inst,
        "FUTCOM",
        "OPTFUT",
    ) {
        StratCat::Comm
    } else {
        StratCat::Fno
    }
}

/// The class of a segment and an instrument.
pub fn category_of(seg: &str, inst: &str) -> (r: StratCat)
    ensures
        r == category(seg@, inst@),
{
    let s = text::uppercase(seg);
    let i = text::uppercase(inst);
    category_of_upper(s.as_str(), i.as_str())
}

/// The class of the instrument a strategy runs on.
pub fn strat_category(strat: &Strategy) -> (r: StratCat)
    ensures
        r == category(strat.exchange_segment@, strat.instrument@),
{
    category_of(strat.exchange_segment.as_str(), strat.instrument.as_str())
}

/// An option contract by segment and instrument, both in upper case.
pub open spec fn option_leg_by(seg: Seq<char>, inst: Seq<char>) -> bool {
    text::begins(inst, "OPT"@) || text::ends(seg, "_FNO"@)
}

/// The strategy already points at an option contract.
pub open spec fn option_leg(s: Strategy) -> bool {
    option_leg_by(text::upper_text(s.exchange_segment@), text::upper_text(s.instrument@))
}

/// Whether upper-case segment and instrument name an option contract.
pub fn option_leg_of_upper(seg: &str, inst: &str) -> (r: bool)
    ensures
        r == option_leg_by(seg@, inst@),
{
    text::starts_with(inst, "OPT") || text::ends_with(seg, "_FNO")
}

/// Whether a strategy already points at an option contract.
pub fn is_option_leg(s: &Strategy) -> (r: bool)
    ensures
        r == option_leg(*s),
{
    let seg = text::uppercase(s.exchange_segment.as_str());
    let inst = text::uppercase(s.instrument.as_str());
    option_leg_of_upper(seg.as_str(), inst.as_str())
}

/// The chart a class of instrument is evaluated on.
pub open spec fn run_mode(c: StratCat, s: Settings) -> Seq<char> {
    if s.premium_only {
        "premium"@
    } else {
        match c {
            StratCat::Index => s.run_index@,
            StratCat::Fno => s.run_fno@,
            StratCat::Comm => s.run_comm@,
        }
    }
}

/// The chart a class of instrument is evaluated on.
pub fn run_mode_by(c: StratCat, s: &Settings) -> (r: String)
    ensures
        r@ == run_mode(c, *s),
{
    if s.premium_only {
        return "premium".to_owned();
    }
    match c {
        StratCat::Index => s.run_index.clone(),
        StratCat::Fno => s.run_fno.clone(),
        StratCat::Comm => s.run_comm.clone(),
    }
}

/// The chart a strategy's conditions are evaluated on.
pub fn run_mode_of(strat: &Strategy, s: &Settings) -> (r: String)
    ensures
        r@ == run_mode(category(strat.exchange_segment@, strat.instrument@), *s),
{
    run_mode_by(strat_category(strat), s)
}

/// The chart a segment and instrument are evaluated on.
pub fn run_mode_for(seg: &str, inst: &str, s: &Settings) -> (r: String)
    ensures
        r@ == run_mode(category(seg@, inst@), *s),
{
    run_mode_by(category_of(seg, inst), s)
}

/// The chart an order executes on: the option premium, whatever is traded.
pub fn trade_mode_of(_strat: &Strategy, _s: &Settings) -> (r: String)
    ensures
        r@ == "premium"@,
{
    "premium".to_owned()
}

/// Strike text and option type of a contract symbol: its last two fields
/// between hyphens, where the last one is a call or a put.
pub open spec fn strike_type(symbol: Seq<char>) -> Option<(Seq<char>, Seq<char>)> {
    let f = text::fields(symbol, '-');
    let ot = f.last();
    if f.len() >= 2 && (text::downs(ot) == "ce"@ || text::downs(ot) == "pe"@) {
        Some((text::trimmed(f[f.len() - 2]), ot))
    } else {
        None
    }
}

/// Strike text and option type of a contract symbol.
pub fn option_strike_type(symbol: &str) -> (r: Option<(String, String)>)
    ensures
        (match r {
            Some((a, b)) => Some((a@, b@)),
            None => None,
        }) == strike_type(symbol@),
{
    let f = text::split(symbol, '-');
    let n: usize = f.len();
    proof {
        assert(text::views(f@).len() == n);
        assert(text::views(f@)[n - 1] == f@[n - 1]@);
        if n >= 2 {
            assert(text::views(f@)[n - 2] == f@[n - 2]@);
        }
    }
    let l = text::to_ascii_lower(f[n - 1].as_str());
    if n < 2 || !text::one_of(l.as_str(), "ce", "pe") {
        return None;
    }
    Some((text::trim(f[n - 2].as_str()), f[n - 1].clone()))
}

/// One instrument of the application's catalog.
#[derive(Debug)]
pub struct CatalogRow {
    pub security_id: i64,
    pub name: String,
    pub segment: String,
    pub instrument: String,
}

/// One near-month commodity future.
#[derive(Debug)]
pub struct CommodityName {
    pub name: String,
    pub security_id: i64,
    pub trading_symbol: String,
}

/// The row is an index or a cash equity of the prefix.
pub open spec fn spot_row(r: CatalogRow, prefix: Seq<char>) -> bool {
    &&& scrip::underlying(r.name@) == prefix
    &&& text::downs(r.instrument@) == "index"@ || text::downs(r.segment@) == "nse_eq"@
        || text::downs(r.segment@) == "bse_eq"@
}

/// The first row of the prefix at or after `i`; the length where there is none.
pub open spec fn first_spot(rows: Seq<CatalogRow>, prefix: Seq<char>, i: int) -> int
    decreases rows.len() - i,
{
    if i >= rows.len() || spot_row(rows[i], prefix) {
        i
    } else {
        first_spot(rows, prefix, i + 1)
    }
}

/// The first commodity of the prefix at or after `i`; the length where there is none.
pub open spec fn first_commodity(rows: Seq<CommodityName>, prefix: Seq<char>, i: int) -> int
    decreases rows.len() - i,
{
    if i >= rows.len() || scrip::underlying(rows[i].name@) == prefix {
        i
    } else {
        first_commodity(rows, prefix, i + 1)
    }
}

/// `s` moved to another instrument.
pub open spec fn moved(
    s: Strategy,
    t: Strategy,
    id: i64,
    seg: Seq<char>,
    inst: Seq<char>,
    symbol: Seq<char>,
) -> bool {
    &&& t.security_id == id
    &&& t.exchange_segment@ == seg
    &&& t.instrument@ == inst
    &&& t.trading_symbol@ == symbol
    &&& t == Strategy {
        security_id: t.security_id,
        exchange_segment: t.exchange_segment,
        instrument: t.instrument,
        trading_symbol: t.trading_symbol,
        ..s
    }
}

/// What an option strategy maps back to: the spot instrument of its underlying,
/// first in the catalog, then among the commodity futures.
pub open spec fn maps_to(
    s: Strategy,
    catalog: Seq<CatalogRow>,
    commodities: Seq<CommodityName>,
    r: Option<Strategy>,
) -> bool {
    let prefix = scrip::underlying(s.trading_symbol@);
    let i = first_spot(catalog, prefix, 0);
    let j = first_commodity(commodities, prefix, 0);
    if !option_leg(s) || prefix.len() == 0 {
        r is None
    } else if i < catalog.len() {
        let row = catalog[i];
        if text::downs(row.instrument@) == "index"@ {
            r is Some && moved(s, r->0, row.security_id, "IDX_I"@, "INDEX"@, row.name@)
        } else {
            r is Some && moved(
                s,
                r->0,
                row.security_id,
                row.segment@,
                row.instrument@,
                row.name@,
            )
        }
    } else if j < commodities.len() {
        let row = commodities[j];
        r is Some && moved(s, r->0, row.security_id, "MCX_COMM"@, "FUTCOM"@, row.trading_symbol@)
    } else {
        r is None
    }
}

/// A strategy moved to another instrument.
pub fn moved_to(s: &Strategy, id: i64, seg: &str, inst: &str, symbol: &str) -> (r: Strategy)
    ensures
        moved(*s, r, id, seg@, inst@, symbol@),
{
    let mut out = s.clone();
    out.security_id = id;
    out.exchange_segment = seg.to_owned();
    out.instrument = inst.to_owned();
    out.trading_symbol = symbol.to_owned();
    out
}

/// Maps an option strategy back to the spot instrument of its underlying, which
/// a spot chart is read from.
pub fn underlying_strategy(
    strat: &Strategy,
    catalog: &Vec<CatalogRow>,
    commodities: &Vec<CommodityName>,
) -> (r: Option<Strategy>)
    ensures
        maps_to(*strat, catalog@, commodities@, r),
{
    if !is_option_leg(strat) {
        return None;
    }
    let prefix = scrip::fno_underlying(strat.trading_symbol.as_str());
    if prefix.as_str().is_empty() {
        return None;
    }
    let mut i: usize = 0;
    while i < catalog.len()
        invariant
            i <= catalog.len(),
            option_leg(*strat),
            prefix@ == scrip::underlying(strat.trading_symbol@),
            prefix@.len() > 0,
            first_spot(catalog@, prefix@, 0) == first_spot(catalog@, prefix@, i as int),
        decreases catalog.len() - i,
    {
        let row = &catalog[i];
        let u = scrip::fno_underlying(row.name.as_str());
        if text::same(u.as_str(), prefix.as_str()) {
            let il = text::to_ascii_lower(row.instrument.as_str());
            if text::same(il.as_str(), "index") {
                return Some(
                    moved_to(strat, row.security_id, "IDX_I", "INDEX", row.name.as_str()),
                );
            }
            let sl = text::to_ascii_lower(row.segment.as_str());
            if text::one_of(sl.as_str(), "nse_eq", "bse_eq") {
                return Some(
                    moved_to(
                        strat,
                        row.security_id,
                        row.segment.as_str(),
                        row.instrument.as_str(),
                        row.name.as_str(),
                    ),
                );
            }
        }
        i += 1;
    }
    let mut j: usize = 0;
    while j < commodities.len()
        invariant
            j <= commodities.len(),
            option_leg(*strat),
            prefix@ == scrip::underlying(strat.trading_symbol@),
            prefix@.len() > 0,
            first_spot(catalog@, prefix@, 0) == catalog@.len(),
            first_commodity(commodities@, prefix@, 0) == first_commodity(
                commodities@,
                prefix@,
                j as int,
            ),
        decreases commodities.len() - j,
    {
        let row = &commodities[j];
        let u = scrip::fno_underlying(row.name.as_str());
        if text::same(u.as_str(), prefix.as_str()) {
            return Some(
                moved_to(
                    strat,
                    row.security_id,
                    "MCX_COMM",
                    "FUTCOM",
                    row.trading_symbol.as_str(),
                ),
            );
        }
        j += 1;
    }
    None
}

/// The order segment of an option by its upper-case exchange.
pub open spec fn fno_segment_by(u: Seq<char>) -> Seq<char> {
    if u == "BSE"@ {
        "BSE_FNO"@
    } else if u == "MCX"@ {
        "MCX_COMM"@
    } else if u == "NCDEX"@ {
        "NCD_FNO"@
    } else {
        "NSE_FNO"@
    }
}

/// The order segment of an option by its upper-case exchange.
pub fn fno_segment_of_upper(u: &str) -> (r: &'static str)
    ensures
        r@ == fno_segment_by(u@),
{
    if text::same(u, "BSE") {
        "BSE_FNO"
    } else if text::same(u, "MCX") {
        "MCX_COMM"
    } else if text::same(u, "NCDEX") {
        "NCD_FNO"
    } else {
        "NSE_FNO"
    }
}

/// The order segment of an option contract.
pub fn fno_segment(exch: &str) -> (r: &'static str)
    ensures
        r@ == fno_segment_by(text::upper_text(exch@)),
        text::all_ascii(exch@) ==> r@ == fno_segment_by(text::ups(exch@)),
{
    let u = text::uppercase(exch);
    fno_segment_of_upper(u.as_str())
}

proof fn lemma_lacks(s: Seq<char>, p: Seq<char>, k: int)
    requires
        0 <= k < p.len(),
        forall|i: int| 0 <= i < s.len() ==> #[trigger] s[i] != p[k],
    ensures
        !text::has(s, p),
{
    assert forall|i: int| !text::at(s, p, i) by {
        if text::at(s, p, i) {
            assert(s.subrange(i, i + p.len())[k] == s[i + k]);
        }
    }
}

/// The exchange of a derivative segment is the one it was made from.
pub proof fn law_segment_reads_back(exch: Seq<char>)
    requires
        exch == "NSE"@ || exch == "BSE"@ || exch == "MCX"@ || exch == "NCDEX"@,
    ensures
        text::all_ascii(exch),
        text::all_ascii(fno_segment_by(text::ups(exch))),
        scrip::exch_by(text::ups(fno_segment_by(text::ups(exch)))) == exch,
{
    reveal_strlit("NSE");
    reveal_strlit("BSE");
    reveal_strlit("MCX");
    reveal_strlit("NCDEX");
    reveal_strlit("NSE_FNO");
    reveal_strlit("BSE_FNO");
    reveal_strlit("MCX_COMM");
    reveal_strlit("NCD_FNO");
    assert("NSE"@.len() == 3 && "BSE"@.len() == 3 && "MCX"@.len() == 3 && "NCDEX"@.len() == 5);
    assert("NSE"@[0] == 'N' && "BSE"@[0] == 'B' && "MCX"@[0] == 'M' && "NCDEX"@[1] == 'C');
    assert("NCD_FNO"@.len() == 7 && "NCD_FNO"@[1] == 'C' && "NCD_FNO"@[0] == 'N');
    assert(text::ups(exch) =~= exch);
    let seg = fno_segment_by(exch);
    assert(text::ups(seg) =~= seg);
    if exch == "BSE"@ {
        assert(seg.subrange(0, 3) =~= "BSE"@);
        assert(text::at(seg, "BSE"@, 0));
    } else {
        lemma_lacks(seg, "BSE"@, 0);
        if exch == "MCX"@ {
            lemma_lacks(seg, "NCDEX"@, 0);
            lemma_lacks(seg, "NCD_FNO"@, 0);
            assert(seg.subrange(0, 3) =~= "MCX"@);
            assert(text::at(seg, "MCX"@, 0));
        } else if exch == "NCDEX"@ {
            assert(seg.subrange(0, 7) =~= "NCD_FNO"@);
            assert(text::at(seg, "NCD_FNO"@, 0));
        } else {
            lemma_lacks(seg, "NCDEX"@, 1);
            lemma_lacks(seg, "NCD_FNO"@, 1);
            lemma_lacks(seg, "MCX"@, 0);
        }
    }
}

/// Side the movers scanner leans to: plus one for calls, minus one for puts.
/// One selected leg decides; of two the one with more rows, then the market.
pub open spec fn mover_bias(
    want_g: bool,
    want_l: bool,
    pos: int,
    neg: int,
    up: int,
    down: int,
) -> int {
    if want_g && want_l {
        if pos != neg {
            if pos > neg {
                1
            } else {
                -1
            }
        } else if up != down {
            if up > down {
                1
            } else {
                -1
            }
        } else {
            0
        }
    } else if want_g {
        1
    } else if want_l {
        -1
    } else {
        0
    }
}

/// Side the movers scanner leans to.
pub fn movers_auto_bias(
    want_g: bool,
    want_l: bool,
    pos: i64,
    neg: i64,
    up: i64,
    down: i64,
) -> (r: i64)
    ensures
        r == mover_bias(want_g, want_l, pos as int, neg as int, up as int, down as int),
{
    if want_g && want_l {
        if pos > neg {
            1
        } else if neg > pos {
            -1
        } else if down > up {
            -1
        } else if up > down {
            1
        } else {
            0
        }
    } else if want_g {
        1
    } else if want_l {
        -1
    } else {
        0
    }
}

/// With one leg selected the market's breadth does not matter.
pub proof fn law_selection_beats_breadth(
    want_g: bool,
    pos: int,
    neg: int,
    up1: int,
    down1: int,
    up2: int,
    down2: int,
)
    ensures
        mover_bias(want_g, !want_g, pos, neg, up1, down1) == mover_bias(
            want_g,
            !want_g,
            pos,
            neg,
            up2,
            down2,
        ),
        mover_bias(want_g, !want_g, pos, neg, up1, down1) == if want_g {
            1int
        } else {
            -1int
        },
{
}

/// Mirroring gainers and losers mirrors the bias.
pub proof fn law_bias_mirrors(
    want_g: bool,
    want_l: bool,
    pos: int,
    neg: int,
    up: int,
    down: int,
)
    ensures
        mover_bias(want_l, want_g, neg, pos, down, up) == -mover_bias(
            want_g,
            want_l,
            pos,
            neg,
            up,
            down,
        ),
{
}

/// The positive ids of a list, in order.
pub open spec fn positive_ids(ids: Seq<i64>) -> Seq<i64>
    decreases ids.len(),
{
    if ids.len() == 0 {
        ids
    } else if ids.last() > 0 {
        positive_ids(ids.drop_last()).push(ids.last())
    } else {
        positive_ids(ids.drop_last())
    }
}

/// Index ids with the segment their quotes are kept under.
pub fn index_legs(ids: &[i64]) -> (r: Vec<(i64, String)>)
    ensures
        r@.len() == positive_ids(ids@).len(),
        forall|i: int|
            0 <= i < r@.len() ==> (#[trigger] r@[i]).0 == positive_ids(ids@)[i] && r@[i].1@
                == "IDX_I"@,
{
    let mut out: Vec<(i64, String)> = Vec::new();
    let mut i: usize = 0;
    proof {
        assert(ids@.take(0) =~= Seq::<i64>::empty());
    }
    while i < ids.len()
        invariant
            i <= ids.len(),
            out@.len() == positive_ids(ids@.take(i as int)).len(),
            forall|j: int|
                0 <= j < out@.len() ==> (#[trigger] out@[j]).0 == positive_ids(
                    ids@.take(i as int),
                )[j] && out@[j].1@ == "IDX_I"@,
        decreases ids.len() - i,
    {
        proof {
            assert(ids@.take(i + 1).drop_last() =~= ids@.take(i as int));
            assert(ids@.take(i + 1).last() == ids@[i as int]);
        }
        if ids[i] > 0 {
            out.push((ids[i], "IDX_I".to_owned()));
        }
        i += 1;
    }
    proof {
        assert(ids@.take(ids@.len() as int) =~= ids@);
    }
    out
}

/// The part of a text before its first space or hyphen.
pub open spec fn first_part(s: Seq<char>) -> Seq<char> {
    let i = text::find(s, ' ');
    let j = text::find(s, '-');
    s.take(
        if i <= j {
            i
        } else {
            j
        },
    )
}

/// The underlying a symbol belongs to: its trading prefix, else the symbol
/// itself in upper case, cut at the first space or hyphen on one exchange.
pub open spec fn underlying_name(symbol: Seq<char>, exch: Seq<char>) -> Seq<char> {
    if scrip::underlying(symbol).len() > 0 {
        scrip::underlying(symbol)
    } else if text::has(exch, "BSE"@) {
        text::upper_text(first_part(symbol))
    } else {
        text::upper_text(symbol)
    }
}

proof fn lemma_find_bound(s: Seq<char>, c: char)
    ensures
        0 <= text::find(s, c) <= s.len(),
    decreases s.len(),
{
    if s.len() > 0 && s[0] != c {
        lemma_find_bound(s.subrange(1, s.len() as int), c);
    }
}

fn before_first(s: &str, c: char) -> (r: String)
    ensures
        r@ == s@.take(text::find(s@, c)),
        r@.len() == text::find(s@, c),
{
    proof {
        lemma_find_bound(s@, c);
    }
    match text::split_once(s, c) {
        Some((a, _)) => {
            proof {
                assert(s@.subrange(0, text::find(s@, c)) =~= s@.take(text::find(s@, c)));
            }
            a
        },
        None => {
            proof {
                assert(s@.take(s@.len() as int) =~= s@);
            }
            s.to_owned()
        },
    }
}

/// The underlying a symbol belongs to.
pub fn underlying_of(symbol: &str, exch: &str) -> (r: String)
    ensures
        r@ == underlying_name(symbol@, exch@),
{
    let u = scrip::fno_underlying(symbol);
    if !u.as_str().is_empty() {
        return u;
    }
    if text::contains(exch, "BSE") {
        let a = before_first(symbol, ' ');
        let b = before_first(symbol, '-');
        let na: usize = text::chars_of(a.as_str()).len();
        let nb: usize = text::chars_of(b.as_str()).len();
        if na <= nb {
            text::uppercase(a.as_str())
        } else {
            text::uppercase(b.as_str())
        }
    } else {
        text::uppercase(symbol)
    }
}

/// The ticked engine timeframes; five minutes where none is.
pub open spec fn engine_tfs(s: Settings) -> Seq<Seq<char>> {
    if s.tf_1min && s.tf_5min {
        seq!["1min"@, "5min"@]
    } else if s.tf_1min {
        seq!["1min"@]
    } else {
        seq!["5min"@]
    }
}

/// The ticked engine timeframes.
pub fn enabled_engine_tfs(s: &Settings) -> (r: Vec<&'static str>)
    ensures
        crate::gate::lit_views(r@) == engine_tfs(*s),
        1 <= r.len() <= 2,
{
    let mut v: Vec<&'static str> = Vec::new();
    if s.tf_1min {
        v.push("1min");
    }
    if s.tf_5min {
        v.push("5min");
    }
    if v.len() == 0 {
        v.push("5min");
    }
    proof {
        assert(crate::gate::lit_views(v@) =~= engine_tfs(*s));
    }
    v
}

/// A timeframe text in lower case and without spaces, as an engine timeframe.
pub open spec fn tf_by(t: Seq<char>) -> Option<Seq<char>> {
    if t == "1min"@ || t == "1m"@ {
        Some("1min"@)
    } else if t == "5min"@ || t == "5m"@ {
        Some("5min"@)
    } else {
        None
    }
}

/// A strategy's own timeframe, where the engine runs it.
pub open spec fn own_tf(tf: Seq<char>) -> Option<Seq<char>> {
    tf_by(text::without(text::lower_text(text::trimmed(tf)), ' '))
}

/// A timeframe text in lower case and without spaces, as an engine timeframe.
pub fn tf_of_lower(t: &str) -> (r: Option<&'static str>)
    ensures
        crate::gate::lit_view(r) == tf_by(t@),
{
    if text::one_of(t, "1min", "1m") {
        Some("1min")
    } else if text::one_of(t, "5min", "5m") {
        Some("5min")
    } else {
        None
    }
}

/// A timeframe text as an engine timeframe.
pub fn normalize_engine_tf(tf: &str) -> (r: Option<&'static str>)
    ensures
        crate::gate::lit_view(r) == own_tf(tf@),
{
    let a = text::trim(tf);
    let b = text::lowercase(a.as_str());
    let c = text::remove_char(b.as_str(), ' ');
    tf_of_lower(c.as_str())
}

/// The timeframe a strategy runs on: its own, unless the engine's list is to
/// drive every strategy or it has none the engine runs.
pub open spec fn strategy_tf(s: Settings, own: Option<Seq<char>>) -> Seq<char> {
    if !s.use_own_settings && own is Some {
        own->0
    } else {
        engine_tfs(s)[0]
    }
}

/// The timeframe a strategy runs on.
pub fn engine_tf(s: &Settings, strat: &Strategy) -> (r: String)
    ensures
        r@ == strategy_tf(*s, own_tf(strat.timeframe@)),
{
    let enabled = enabled_engine_tfs(s);
    proof {
        assert(crate::gate::lit_views(enabled@)[0] == enabled@[0]@);
    }
    if s.use_own_settings {
        return enabled[0].to_owned();
    }
    if let Some(own) = normalize_engine_tf(strat.timeframe.as_str()) {
        return own.to_owned();
    }
    enabled[0].to_owned()
}

/// The timeframe that triggers an entry and the one that confirms its trend;
/// `None` unless both are ticked.
pub fn mtf_pair(s: &Settings) -> (r: Option<(String, String)>)
    ensures
        r is Some == (s.tf_1min && s.tf_5min),
        r matches Some((entry, trend)) ==> entry@ == "1min"@ && trend@ == "5min"@,
{
    let enabled = enabled_engine_tfs(s);
    proof {
        assert(crate::gate::lit_views(enabled@).len() == enabled@.len());
    }
    if enabled.len() < 2 {
        return None;
    }
    proof {
        assert(crate::gate::lit_views(enabled@)[0] == enabled@[0]@);
        assert(crate::gate::lit_views(enabled@)[1] == enabled@[1]@);
    }
    Some((enabled[0].to_owned(), enabled[1].to_owned()))
}

/// The class of an instrument: an index by its instrument or segment, before a commodity
/// by either, else a derivative or a stock.
pub proof fn law_class_of_an_instrument(seg: Seq<char>, inst: Seq<char>)
    ensures
        ({
            let index = inst == "INDEX"@ || inst == "OPTIDX"@ || seg == "IDX_I"@;
            let comm = text::has(seg, "COMM"@) || text::has(seg, "NCD"@) || inst == "FUTCOM"@ || inst
                == "OPTFUT"@;
            &&& index <==> category_by(seg, inst) == StratCat::Index
            &&& !index && comm <==> category_by(seg, inst) == StratCat::Comm
            &&& !index && !comm <==> category_by(seg, inst) == StratCat::Fno
        }),
{
}

/// The chart of a strategy: the premium's where everything runs on premiums, else the one
/// set for its class.
pub proof fn law_chart_by_class(c: StratCat, s: Settings)
    ensures
        s.premium_only ==> run_mode(c, s) == "premium"@,
        !s.premium_only ==> run_mode(StratCat::Index, s) == s.run_index@ && run_mode(
            StratCat::Fno,
            s,
        ) == s.run_fno@ && run_mode(StratCat::Comm, s) == s.run_comm@,
{
}

/// Strike and type of a contract read back from its symbol, whatever stands before them.
pub proof fn law_symbol_tells_strike_and_type(name: Seq<char>, strike: Seq<char>, kind: Seq<char>)
    requires
        !strike.contains('-'),
        !kind.contains('-'),
    ensures
        ({
            let s = name.push('-') + strike.push('-') + kind;
            let named = text::downs(kind) == "ce"@ || text::downs(kind) == "pe"@;
            &&& named ==> strike_type(s) == Some((text::trimmed(strike), kind))
            &&& !named ==> strike_type(s) is None
        }),
{
    let head = name.push('-') + strike;
    let s = name.push('-') + strike.push('-') + kind;
    assert(s =~= head.push('-') + kind);
    text::law_fields_stand_between(head, kind, '-');
    text::law_fields_stand_between(name, strike, '-');
    let f = text::fields(s, '-');
    assert(f.last() == kind);
    assert(f[f.len() - 2] == strike);
}

/// A first match is where it says: it fits, none before it does, and the length stands
/// for no match.
pub proof fn law_first_spot_is_first(rows: Seq<CatalogRow>, prefix: Seq<char>, i: int)
    requires
        0 <= i <= rows.len(),
    ensures
        ({
            let k = first_spot(rows, prefix, i);
            &&& i <= k <= rows.len()
            &&& k < rows.len() ==> scrip::underlying(rows[k].name@) == prefix && (text::downs(
                rows[k].instrument@,
            ) == "index"@ || text::downs(rows[k].segment@) == "nse_eq"@ || text::downs(
                rows[k].segment@,
            ) == "bse_eq"@)
            &&& forall|j: int|
                i <= j < k && scrip::underlying((#[trigger] rows[j]).name@) == prefix
                    ==> text::downs(rows[j].instrument@) != "index"@ && text::downs(
                    rows[j].segment@,
                ) != "nse_eq"@ && text::downs(rows[j].segment@) != "bse_eq"@
        }),
    decreases rows.len() - i,
{
    if i < rows.len() && !spot_row(rows[i], prefix) {
        law_first_spot_is_first(rows, prefix, i + 1);
    }
}

/// A first commodity is the first of its name.
pub proof fn law_first_commodity_is_first(rows: Seq<CommodityName>, prefix: Seq<char>, i: int)
    requires
        0 <= i <= rows.len(),
    ensures
        ({
            let k = first_commodity(rows, prefix, i);
            &&& i <= k <= rows.len()
            &&& k < rows.len() ==> scrip::underlying(rows[k].name@) == prefix
            &&& forall|j: int| i <= j < k ==> scrip::underlying((#[trigger] rows[j]).name@) != prefix
        }),
    decreases rows.len() - i,
{
    if i < rows.len() && scrip::underlying(rows[i].name@) != prefix {
        law_first_commodity_is_first(rows, prefix, i + 1);
    }
}

/// The lean of the movers with both legs wanted: to the leg with more rows, and of equal
/// legs with the broader market; it leans nowhere only where both are even.
pub proof fn law_movers_lean_to_the_larger_leg(pos: int, neg: int, up: int, down: int)
    ensures
        pos > neg ==> mover_bias(true, true, pos, neg, up, down) == 1,
        pos < neg ==> mover_bias(true, true, pos, neg, up, down) == -1,
        pos == neg && up > down ==> mover_bias(true, true, pos, neg, up, down) == 1,
        pos == neg && up < down ==> mover_bias(true, true, pos, neg, up, down) == -1,
        pos == neg && up == down ==> mover_bias(true, true, pos, neg, up, down) == 0,
        mover_bias(false, false, pos, neg, up, down) == 0,
{
}

/// The known ids of a list are its positive ones, each as often and in the same order.
pub proof fn law_known_ids_are_positive(ids: Seq<i64>, id: i64)
    ensures
        positive_ids(ids.push(id)) == positive_ids(ids) + if id > 0 {
            seq![id]
        } else {
            Seq::empty()
        },
        positive_ids(Seq::empty()).len() == 0,
{
    assert(ids.push(id).drop_last() =~= ids);
    assert(positive_ids(ids) + seq![id] =~= positive_ids(ids).push(id));
    assert(positive_ids(ids) + Seq::<i64>::empty() =~= positive_ids(ids));
}

/// The timeframe of a strategy: its own where it has one that the engine runs and the
/// engine's list is not to drive it, else the first ticked one; five minutes where none
/// is ticked.
pub proof fn law_timeframe_of_a_strategy(s: Settings, own: Option<Seq<char>>)
    ensures
        !s.use_own_settings && own is Some ==> strategy_tf(s, own) == own->0,
        s.use_own_settings || own is None ==> strategy_tf(s, own) == if s.tf_1min {
            "1min"@
        } else {
            "5min"@
        },
        engine_tfs(s).contains("1min"@) <==> s.tf_1min,
        engine_tfs(s).contains("5min"@) <==> s.tf_5min || !s.tf_1min,
        engine_tfs(s).len() == if s.tf_1min && s.tf_5min {
            2int
        } else {
            1int
        },
{
    reveal_strlit("1min");
    reveal_strlit("5min");
    assert("1min"@[0] == '1' && "5min"@[0] == '5');
    let v = engine_tfs(s);
    if s.tf_1min {
        assert(v[0] == "1min"@);
    }
    if s.tf_1min && s.tf_5min {
        assert(v[1] == "5min"@);
    } else if !s.tf_1min {
        assert(v[0] == "5min"@);
    }
}

/// A strategy already trades an option where its instrument is one or its segment is a
/// derivative segment.
pub proof fn law_what_is_an_option(seg: Seq<char>, inst: Seq<char>, head: Seq<char>, rest: Seq<char>)
    ensures
        option_leg_by(seg, "OPT"@ + rest),
        option_leg_by(head + "_FNO"@, inst),
        !text::begins(inst, "OPT"@) && !text::ends(seg, "_FNO"@) ==> !option_leg_by(seg, inst),
{
    text::law_parts_are_found(head, "_FNO"@, rest);
    text::law_parts_are_found(head, "OPT"@, rest);
}

/// Moving a strategy changes its instrument and nothing else.
pub proof fn law_moving_keeps_the_strategy(
    s: Strategy,
    t: Strategy,
    id: i64,
    seg: Seq<char>,
    inst: Seq<char>,
    symbol: Seq<char>,
)
    requires
        moved(s, t, id, seg, inst, symbol),
    ensures
        t.security_id == id,
        t.exchange_segment@ == seg,
        t.instrument@ == inst,
        t.trading_symbol@ == symbol,
        t.id == s.id,
        t.name == s.name,
        t.category == s.category,
        t.side == s.side,
        t.timeframe == s.timeframe,
        t.enabled == s.enabled,
        t.lot == s.lot,
        t.group == s.group,
        t.synthetic == s.synthetic,
        t.manual == s.manual,
{
}

/// An option maps back to the spot of its underlying: an index under the index segment, a
/// stock as the catalog lists it, else the commodity's future; what is no option, or has
/// no name, maps nowhere.
pub proof fn law_options_map_to_their_spot(
    s: Strategy,
    catalog: Seq<CatalogRow>,
    commodities: Seq<CommodityName>,
    r: Option<Strategy>,
)
    requires
        maps_to(s, catalog, commodities, r),
    ensures
        ({
            let prefix = scrip::underlying(s.trading_symbol@);
            let i = first_spot(catalog, prefix, 0);
            let j = first_commodity(commodities, prefix, 0);
            let asked = option_leg(s) && prefix.len() > 0;
            &&& !asked ==> r is None
            &&& asked && i < catalog.len() ==> r is Some && (r->0).security_id
                == catalog[i].security_id && (r->0).trading_symbol@ == catalog[i].name@
            &&& asked && i < catalog.len() && text::downs(catalog[i].instrument@) == "index"@ ==> (
            r->0).exchange_segment@ == "IDX_I"@ && (r->0).instrument@ == "INDEX"@
            &&& asked && i < catalog.len() && text::downs(catalog[i].instrument@) != "index"@ ==> (
            r->0).exchange_segment@ == catalog[i].segment@
            &&& asked && i >= catalog.len() && j < commodities.len() ==> r is Some && (
            r->0).security_id == commodities[j].security_id && (r->0).exchange_segment@
                == "MCX_COMM"@ && (r->0).instrument@ == "FUTCOM"@
            &&& asked && i >= catalog.len() && j >= commodities.len() ==> r is None
        }),
{
}

/// The underlying of a symbol: its trading prefix; without one the symbol in capitals, on
/// the Bombay exchange up to the first space or hyphen.
pub proof fn law_underlying_of_a_symbol(head: Seq<char>, tail: Seq<char>, exch: Seq<char>, gap: char)
    requires
        gap == ' ' || gap == '-',
        !head.contains(' '),
        !head.contains('-'),
    ensures
        first_part(head) == head,
        first_part(head.push(gap) + tail) == head,
        ({
            let s = head.push(gap) + tail;
            let own = scrip::underlying(s);
            &&& own.len() > 0 ==> underlying_name(s, exch) == own
            &&& own.len() == 0 && text::has(exch, "BSE"@) ==> underlying_name(s, exch)
                == text::upper_text(head)
            &&& own.len() == 0 && !text::has(exch, "BSE"@) ==> underlying_name(s, exch)
                == text::upper_text(s)
        }),
{
    text::law_cut_at_the_first(head, tail, gap);
    text::law_cut_at_the_first(head, tail, ' ');
    text::law_cut_at_the_first(head, tail, '-');
    let s = head.push(gap) + tail;
    let other = if gap == ' ' {
        '-'
    } else {
        ' '
    };
    lemma_find_later(head, gap, tail, other);
    assert(head.take(head.len() as int) =~= head);
    assert(s.take(head.len() as int) =~= head);
}

proof fn lemma_find_later(head: Seq<char>, gap: char, tail: Seq<char>, c: char)
    requires
        !head.contains(c),
        gap != c,
    ensures
        text::find(head.push(gap) + tail, c) > head.len(),
    decreases head.len(),
{
    let s = head.push(gap) + tail;
    if head.len() == 0 {
        assert(s[0] == gap);
        lemma_find_bounds(s.subrange(1, s.len() as int), c);
    } else {
        let g = head.subrange(1, head.len() as int);
        assert(head[0] != c);
        assert(s[0] == head[0]);
        assert forall|i: int| 0 <= i < g.len() implies g[i] != c by {
            assert(head[i + 1] != c);
        }
        lemma_find_later(g, gap, tail, c);
        assert(s.subrange(1, s.len() as int) =~= g.push(gap) + tail);
    }
}

proof fn lemma_find_bounds(s: Seq<char>, c: char)
    ensures
        0 <= text::find(s, c) <= s.len(),
    decreases s.len(),
{
    if s.len() > 0 && s[0] != c {
        lemma_find_bounds(s.subrange(1, s.len() as int), c);
    }
}

/// A timeframe goes by its long or its short name, and no other name is one.
pub proof fn law_timeframes_by_name(t: Seq<char>)
    ensures
        tf_by("1min"@) == Some("1min"@),
        tf_by("1m"@) == Some("1min"@),
        tf_by("5min"@) == Some("5min"@),
        tf_by("5m"@) == Some("5min"@),
        tf_by(t) is Some ==> t == "1min"@ || t == "1m"@ || t == "5min"@ || t == "5m"@,
{
    reveal_strlit("1min");
    reveal_strlit("1m");
    reveal_strlit("5min");
    reveal_strlit("5m");
    assert("1min"@[0] == '1' && "1m"@[0] == '1' && "5min"@[0] == '5' && "5m"@[0] == '5');
}

} // verus!
