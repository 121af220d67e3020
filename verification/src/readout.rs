//! Readouts: the levels drawn on a chart, prices shown for positions, and the
//! texts around them.

use vstd::prelude::*;
use crate::book::Position;
use crate::exits;
use crate::exits::entry_of;
use crate::model::{Settings, Strategy};
use crate::num::Num;
use crate::routing;
use crate::text;

verus! {

/// Digits in groups of two, a comma between them; the first may be shorter.
pub open spec fn in_pairs(h: Seq<char>) -> Seq<char>
    decreases h.len(),
{
    if h.len() <= 2 {
        h
    } else {
        in_pairs(h.take(h.len() - 2)) + ","@ + h.skip(h.len() - 2)
    }
}

/// Digits grouped the Indian way: the last three, then pairs.
pub open spec fn grouped(s: Seq<char>) -> Seq<char> {
    if s.len() <= 3 {
        s
    } else {
        in_pairs(s.take(s.len() - 3)) + ","@ + s.skip(s.len() - 3)
    }
}

/// Groups the digits of a whole amount the Indian way: `1,23,456`.
pub fn inr_group(digits: &str) -> (r: String)
    ensures
        r@ == grouped(digits@),
{
    let v = text::chars_of(digits);
    let n: usize = v.len();
    if n <= 3 {
        return digits.to_owned();
    }
    let mut tail = text::text_of(&v, n - 3, n);
    let mut end: usize = n - 3;
    assert(tail@ =~= digits@.skip(n - 3));
    proof {
        reveal_strlit(",");
        assert(digits@.take(n - 3).take(end as int) =~= digits@.take(end as int));
    }
    let mut out = text::concat(",", tail.as_str());
    while end > 2
        invariant
            v@ == digits@,
            n == digits@.len(),
            1 <= end <= n - 3,
            grouped(digits@) == in_pairs(digits@.take(end as int)) + out@,
        decreases end,
    {
        let pair = text::text_of(&v, end - 2, end);
        let piece = text::concat(",", pair.as_str());
        proof {
            let h = digits@.take(end as int);
            assert(h.take(h.len() - 2) =~= digits@.take(end - 2));
            assert(h.skip(h.len() - 2) =~= pair@);
            assert(in_pairs(h) + out@ =~= in_pairs(digits@.take(end - 2)) + (","@ + pair@ + out@));
        }
        out = text::concat(piece.as_str(), out.as_str());
        end -= 2;
    }
    let head = text::text_of(&v, 0, end);
    assert(head@ =~= digits@.take(end as int));
    text::concat(head.as_str(), out.as_str())
}

proof fn lemma_without_cat(a: Seq<char>, b: Seq<char>, c: char)
    ensures
        text::without(a + b, c) == text::without(a, c) + text::without(b, c),
    decreases b.len(),
{
    if b.len() == 0 {
        assert(a + b =~= a);
        assert(text::without(a, c) + text::without(b, c) =~= text::without(a, c));
    } else {
        lemma_without_cat(a, b.drop_last(), c);
        assert((a + b).drop_last() =~= a + b.drop_last());
        assert((a + b).last() == b.last());
        assert(text::without(a, c) + text::without(b.drop_last(), c).push(b.last()) =~= (
        text::without(a, c) + text::without(b.drop_last(), c)).push(b.last()));
    }
}

proof fn lemma_without_none(s: Seq<char>, c: char)
    requires
        forall|i: int| 0 <= i < s.len() ==> #[trigger] s[i] != c,
    ensures
        text::without(s, c) == s,
    decreases s.len(),
{
    if s.len() > 0 {
        let init = s.drop_last();
        assert forall|i: int| 0 <= i < init.len() implies #[trigger] init[i] != c by {
            assert(init[i] == s[i]);
        }
        lemma_without_none(init, c);
        assert(s.last() == s[s.len() - 1]);
        assert(init.push(s.last()) =~= s);
    }
}

proof fn lemma_pairs_keep(h: Seq<char>)
    requires
        forall|i: int| 0 <= i < h.len() ==> #[trigger] h[i] != ',',
    ensures
        text::without(in_pairs(h), ',') == h,
    decreases h.len(),
{
    if h.len() <= 2 {
        lemma_without_none(h, ',');
    } else {
        let a = h.take(h.len() - 2);
        let b = h.skip(h.len() - 2);
        assert forall|i: int| 0 <= i < a.len() implies #[trigger] a[i] != ',' by {
            assert(a[i] == h[i]);
        }
        assert forall|i: int| 0 <= i < b.len() implies #[trigger] b[i] != ',' by {
            assert(b[i] == h[i + h.len() - 2]);
        }
        lemma_pairs_keep(a);
        lemma_without_none(b, ',');
        lemma_without_cat(in_pairs(a) + ","@, b, ',');
        lemma_without_cat(in_pairs(a), ","@, ',');
        lemma_comma();
        assert(a + Seq::<char>::empty() + b =~= h);
    }
}

proof fn lemma_comma()
    ensures
        text::without(","@, ',') == Seq::<char>::empty(),
{
    reveal_strlit(",");
    assert(","@.len() == 1 && ","@[0] == ',');
    assert(","@.drop_last() =~= Seq::<char>::empty());
    assert(text::without(Seq::<char>::empty(), ',') =~= Seq::<char>::empty());
}

/// Grouping only adds commas: without them the digits are as they were.
pub proof fn law_grouping_keeps_digits(s: Seq<char>)
    requires
        forall|i: int| 0 <= i < s.len() ==> #[trigger] s[i] != ',',
    ensures
        text::without(grouped(s), ',') == s,
{
    if s.len() <= 3 {
        lemma_without_none(s, ',');
    } else {
        let a = s.take(s.len() - 3);
        let b = s.skip(s.len() - 3);
        assert forall|i: int| 0 <= i < a.len() implies #[trigger] a[i] != ',' by {
            assert(a[i] == s[i]);
        }
        assert forall|i: int| 0 <= i < b.len() implies #[trigger] b[i] != ',' by {
            assert(b[i] == s[i + s.len() - 3]);
        }
        lemma_pairs_keep(a);
        lemma_without_none(b, ',');
        lemma_without_cat(in_pairs(a) + ","@, b, ',');
        lemma_without_cat(in_pairs(a), ","@, ',');
        lemma_comma();
        assert(a + Seq::<char>::empty() + b =~= s);
    }
}

/// A level drawn on the chart.
#[derive(Clone, Copy, Debug, PartialEq, Eq, Structural)]
pub enum LineKind {
    Entry,
    Live,
    Stop,
    TrailStop,
    PointStop,
    /// The points stop, not in force.
    PointLevel,
    /// The percent stop, not in force.
    TrailLevel,
    Overall,
    Target,
    TrailTarget,
}

/// A line on the chart.
#[derive(Clone, Copy, Debug, PartialEq, Eq, Structural)]
pub struct ChartLine {
    pub kind: LineKind,
    pub price: Num,
}

/// The colour of a level.
pub fn line_color(k: LineKind) -> (r: &'static str)
    ensures
        r@ == match k {
            LineKind::Entry => "#b388ff"@,
            LineKind::Live => "#00e5ff"@,
            LineKind::Stop => "#ff5252"@,
            LineKind::TrailStop => "#ff6b6b"@,
            LineKind::PointStop => "#ff6b6b"@,
            LineKind::PointLevel => "#ff4dd2"@,
            LineKind::TrailLevel => "#ff8a80"@,
            LineKind::Overall => "#ff9100"@,
            LineKind::Target => "#00d4aa"@,
            LineKind::TrailTarget => "#26c6da"@,
        },
{
    match k {
        LineKind::Entry => "#b388ff",
        LineKind::Live => "#00e5ff",
        LineKind::Stop => "#ff5252",
        LineKind::TrailStop => "#ff6b6b",
        LineKind::PointStop => "#ff6b6b",
        LineKind::PointLevel => "#ff4dd2",
        LineKind::TrailLevel => "#ff8a80",
        LineKind::Overall => "#ff9100",
        LineKind::Target => "#00d4aa",
        LineKind::TrailTarget => "#26c6da",
    }
}

/// The dash style of a level.
pub fn line_style(k: LineKind) -> (r: i64)
    ensures
        r == match k {
            LineKind::Live => 1int,
            LineKind::Target => 2int,
            LineKind::TrailTarget => 2int,
            LineKind::Overall => 4int,
            _ => 3int,
        },
{
    match k {
        LineKind::Live => 1,
        LineKind::Target => 2,
        LineKind::TrailTarget => 2,
        LineKind::Overall => 4,
        _ => 3,
    }
}

/// The word a level is titled with.
pub fn line_word(k: LineKind) -> (r: &'static str)
    ensures
        r@ == match k {
            LineKind::Entry => "ENTRY"@,
            LineKind::Live => "LIVE P&L"@,
            LineKind::Stop => "SL"@,
            LineKind::TrailStop => "TRAIL SL"@,
            LineKind::PointStop => "POINT SL"@,
            LineKind::PointLevel => "POINT SL"@,
            LineKind::TrailLevel => "TRAIL SL"@,
            LineKind::Overall => "OVERALL SL"@,
            LineKind::Target => "TARGET"@,
            LineKind::TrailTarget => "TRAIL TP"@,
        },
{
    match k {
        LineKind::Entry => "ENTRY",
        LineKind::Live => "LIVE P&L",
        LineKind::Stop => "SL",
        LineKind::TrailStop => "TRAIL SL",
        LineKind::PointStop => "POINT SL",
        LineKind::PointLevel => "POINT SL",
        LineKind::TrailLevel => "TRAIL SL",
        LineKind::Overall => "OVERALL SL",
        LineKind::Target => "TARGET",
        LineKind::TrailTarget => "TRAIL TP",
    }
}

/// The engine a line belongs to.
pub fn line_prefix(paper: bool) -> (r: &'static str)
    ensures
        r@ == if paper {
            "PAPER"@
        } else {
            "RT"@
        },
{
    if paper {
        "PAPER"
    } else {
        "RT"
    }
}

/// Prices worked out for the levels of a position, and which of them lie so
/// close that they count as one line.
#[derive(Clone, Copy, Debug, PartialEq, Eq, Structural)]
pub struct LevelFacts {
    /// The live price, not positive where unknown.
    pub mark: Num,
    pub point_stop: Num,
    pub trail_stop: Num,
    pub kept_stop: Num,
    pub point_near_sl: bool,
    pub trail_near_sl: bool,
    pub overall_near_sl: bool,
    pub point_near_mark: bool,
    pub trail_near_mark: bool,
    pub overall_near_mark: bool,
    pub point_near_trail: bool,
    pub point_near_overall: bool,
    pub trail_near_overall: bool,
}

/// The position is on the side that profits from a rise.
pub open spec fn is_long(p: Position) -> bool {
    text::downs(p.side@) != "sell"@
}

/// The stop is drawn at the live price: it lies beyond it.
pub open spec fn drawn_at_mark(p: Position, f: LevelFacts) -> bool {
    f.mark.positive() && (if is_long(p) {
        p.sl.above(f.mark)
    } else {
        f.mark.above(p.sl)
    })
}

/// What the stop in force is titled.
pub open spec fn stop_kind(p: Position, f: LevelFacts) -> LineKind {
    let point = p.point_trail.positive() && p.peak_profit.positive();
    let trail = p.trail.positive() && p.peak_profit.positive();
    if point && f.point_near_sl {
        LineKind::PointStop
    } else if trail && f.trail_near_sl {
        LineKind::TrailStop
    } else if p.trail.positive() || p.point_trail.positive() {
        LineKind::TrailStop
    } else {
        LineKind::Stop
    }
}

/// The points level is drawn: it exists and is no double of the stop.
pub open spec fn draws_point(p: Position, f: LevelFacts) -> bool {
    &&& p.point_trail.positive() && p.peak_profit.positive() && f.point_stop.positive()
    &&& p.sl.positive() ==> !(if drawn_at_mark(p, f) {
        f.point_near_mark
    } else {
        f.point_near_sl
    })
}

/// The percent level is drawn: it exists and is no double of a drawn stop.
pub open spec fn draws_trail(p: Position, f: LevelFacts) -> bool {
    &&& p.trail.positive() && p.peak_profit.positive() && f.trail_stop.positive()
    &&& p.sl.positive() ==> !(if drawn_at_mark(p, f) {
        f.trail_near_mark
    } else {
        f.trail_near_sl
    })
    &&& draws_point(p, f) ==> !f.point_near_trail
}

/// The fixed stop is drawn: it exists and is no double of a drawn stop.
pub open spec fn draws_overall(p: Position, f: LevelFacts) -> bool {
    &&& p.overall_sl.positive()
    &&& p.sl.positive() ==> !(if drawn_at_mark(p, f) {
        f.overall_near_mark
    } else {
        f.overall_near_sl
    })
    &&& draws_point(p, f) ==> !f.point_near_overall
    &&& draws_trail(p, f) ==> !f.trail_near_overall
}

/// A line, if it is drawn.
pub open spec fn line_if(on: bool, kind: LineKind, price: Num) -> Seq<ChartLine> {
    if on {
        seq![ChartLine { kind, price }]
    } else {
        Seq::empty()
    }
}

/// The lines of a position: entry, live price, the stop in force, the stops that
/// stand apart from it, target and trailing target.
pub open spec fn lines_of(p: Position, f: LevelFacts) -> Seq<ChartLine> {
    line_if(true, LineKind::Entry, exits::entry_price(p)) + line_if(
        f.mark.positive(),
        LineKind::Live,
        f.mark,
    ) + line_if(
        p.sl.positive(),
        stop_kind(p, f),
        if drawn_at_mark(p, f) {
            f.mark
        } else {
            p.sl
        },
    ) + line_if(draws_point(p, f), LineKind::PointLevel, f.point_stop) + line_if(
        draws_trail(p, f),
        LineKind::TrailLevel,
        f.trail_stop,
    ) + line_if(draws_overall(p, f), LineKind::Overall, p.overall_sl) + line_if(
        p.tp.positive(),
        LineKind::Target,
        p.tp,
    ) + line_if(
        p.trail_tp.positive() && p.peak_profit.positive() && f.kept_stop.positive(),
        LineKind::TrailTarget,
        f.kept_stop,
    )
}

fn push_line(out: &mut Vec<ChartLine>, on: bool, kind: LineKind, price: Num)
    ensures
        final(out)@ == old(out)@ + line_if(on, kind, price),
{
    if on {
        out.push(ChartLine { kind, price });
        assert(out@ =~= old(out)@ + line_if(on, kind, price));
    } else {
        assert(out@ =~= old(out)@ + line_if(on, kind, price));
    }
}

/// The lines drawn for a position.
pub fn build_chart_lines(p: &Position, f: LevelFacts) -> (r: Vec<ChartLine>)
    ensures
        r@ == lines_of(*p, f),
{
    let l = text::to_ascii_lower(p.side.as_str());
    let long = !text::same(l.as_str(), "sell");
    let has_sl = p.sl.is_positive();
    let at_mark = f.mark.is_positive() && (if long {
        p.sl.gt(&f.mark)
    } else {
        p.sl.lt(&f.mark)
    });
    let peak = p.peak_profit.is_positive();
    let point = p.point_trail.is_positive() && peak;
    let trail = p.trail.is_positive() && peak;
    let kind = if point && f.point_near_sl {
        LineKind::PointStop
    } else if trail && f.trail_near_sl {
        LineKind::TrailStop
    } else if p.trail.is_positive() || p.point_trail.is_positive() {
        LineKind::TrailStop
    } else {
        LineKind::Stop
    };
    let point_double = has_sl && (if at_mark {
        f.point_near_mark
    } else {
        f.point_near_sl
    });
    let draw_point = point && f.point_stop.is_positive() && !point_double;
    let trail_double = has_sl && (if at_mark {
        f.trail_near_mark
    } else {
        f.trail_near_sl
    });
    let draw_trail = trail && f.trail_stop.is_positive() && !trail_double && !(draw_point
        && f.point_near_trail);
    let overall_double = has_sl && (if at_mark {
        f.overall_near_mark
    } else {
        f.overall_near_sl
    });
    let draw_overall = p.overall_sl.is_positive() && !overall_double && !(draw_point
        && f.point_near_overall) && !(draw_trail && f.trail_near_overall);
    let mut out: Vec<ChartLine> = Vec::new();
    assert(Seq::<ChartLine>::empty() + line_if(true, LineKind::Entry, exits::entry_price(*p))
        =~= line_if(true, LineKind::Entry, exits::entry_price(*p)));
    push_line(&mut out, true, LineKind::Entry, entry_of(p));
    push_line(&mut out, f.mark.is_positive(), LineKind::Live, f.mark);
    push_line(
        &mut out,
        has_sl,
        kind,
        if at_mark {
            f.mark
        } else {
            p.sl
        },
    );
    push_line(&mut out, draw_point, LineKind::PointLevel, f.point_stop);
    push_line(&mut out, draw_trail, LineKind::TrailLevel, f.trail_stop);
    push_line(&mut out, draw_overall, LineKind::Overall, p.overall_sl);
    push_line(&mut out, p.tp.is_positive(), LineKind::Target, p.tp);
    push_line(
        &mut out,
        p.trail_tp.is_positive() && peak && f.kept_stop.is_positive(),
        LineKind::TrailTarget,
        f.kept_stop,
    );
    out
}

/// The position is drawn on the chart of an instrument.
pub open spec fn on_chart(p: Position, sid: i64, exch: Seq<char>) -> bool {
    sid > 0 && p.security_id == sid && (exch.len() == 0 || text::downs(p.exchange_segment@)
        == text::downs(exch)) && exits::entry_price(p).positive()
}

/// The places of the positions drawn on the chart, among the first `n`.
pub open spec fn charted(ps: Seq<Position>, sid: i64, exch: Seq<char>, n: int) -> Seq<usize>
    decreases n,
{
    if n <= 0 {
        Seq::empty()
    } else if on_chart(ps[n - 1], sid, exch) {
        charted(ps, sid, exch, n - 1).push((n - 1) as usize)
    } else {
        charted(ps, sid, exch, n - 1)
    }
}

/// The places of the positions drawn on the chart of an instrument.
pub fn chart_positions(ps: &Vec<Position>, sid: i64, exch: &str) -> (r: Vec<usize>)
    ensures
        r@ == charted(ps@, sid, exch@, ps@.len() as int),
{
    let any = text::chars_of(exch).len() == 0;
    let mut out: Vec<usize> = Vec::new();
    let mut i: usize = 0;
    while i < ps.len()
        invariant
            i <= ps.len(),
            any == (exch@.len() == 0),
            out@ == charted(ps@, sid, exch@, i as int),
        decreases ps.len() - i,
    {
        let p = &ps[i];
        if sid > 0 && p.security_id == sid && (any || text::same_ignoring_case(
            p.exchange_segment.as_str(),
            exch,
        )) && entry_of(p).is_positive() {
            out.push(i);
        }
        i += 1;
    }
    out
}

/// Every position on the chart has its entry drawn first, and no level that is
/// not positive is drawn.
pub proof fn law_lines_are_positive(p: Position, f: LevelFacts, i: int)
    requires
        exits::entry_price(p).positive(),
        0 <= i < lines_of(p, f).len(),
    ensures
        lines_of(p, f)[0] == (ChartLine { kind: LineKind::Entry, price: exits::entry_price(p) }),
        lines_of(p, f)[i].price.positive(),
{
}

/// The price a position is shown at: the live one, its last one, its entry.
pub open spec fn shown_price(p: Position, live: Option<Num>) -> Num {
    if live is Some && (live->0).positive() {
        live->0
    } else if p.ltp.positive() {
        p.ltp
    } else {
        exits::entry_price(p)
    }
}

/// The price a position is shown at.
pub fn position_price(p: &Position, live: Option<Num>) -> (r: Num)
    ensures
        r == shown_price(*p, live),
{
    if let Some(l) = live {
        if l.is_positive() {
            return l;
        }
    }
    if p.ltp.is_positive() {
        p.ltp
    } else {
        entry_of(p)
    }
}

/// Where the price of a broker position comes from.
#[derive(Clone, Copy, Debug, PartialEq, Eq, Structural)]
pub enum BrokerPrice {
    /// The feed.
    Live(Num),
    /// Worked back from the reported result.
    FromResult,
    Unknown,
}

/// Where the price of a broker position comes from.
pub open spec fn price_at_broker(live: Option<Num>, buy_avg: Num, qty: int) -> BrokerPrice {
    if live is Some && (live->0).positive() {
        BrokerPrice::Live(live->0)
    } else if buy_avg.positive() && qty != 0 {
        BrokerPrice::FromResult
    } else {
        BrokerPrice::Unknown
    }
}

/// Where the price of a broker position comes from.
pub fn broker_price(live: Option<Num>, buy_avg: Num, qty: i64) -> (r: BrokerPrice)
    ensures
        r == price_at_broker(live, buy_avg, qty as int),
{
    if let Some(l) = live {
        if l.is_positive() {
            return BrokerPrice::Live(l);
        }
    }
    if buy_avg.is_positive() && qty != 0 {
        BrokerPrice::FromResult
    } else {
        BrokerPrice::Unknown
    }
}

/// The price of a holding: as reported, else live, else its average cost.
pub open spec fn price_of_holding(reported: Num, live: Option<Num>, avg: Num) -> Num {
    if reported.positive() {
        reported
    } else if live is Some && (live->0).positive() {
        live->0
    } else {
        avg
    }
}

/// The price of a holding: as reported, else live, else its average cost.
pub fn holding_price(reported: Num, live: Option<Num>, avg: Num) -> (r: Num)
    ensures
        r == price_of_holding(reported, live, avg),
{
    if reported.is_positive() {
        return reported;
    }
    if let Some(l) = live {
        if l.is_positive() {
            return l;
        }
    }
    avg
}

/// Where a chart of a strategy comes from.
#[derive(Clone, Copy, Debug, PartialEq, Eq, Structural)]
pub enum LegFrom {
    /// The underlying's spot chart, or the strategy's own.
    Spot,
    /// What the engine last resolved.
    Cached,
    /// The contract at the money, resolved for the view.
    Resolve,
    Missing,
}

/// The mode evaluates a premium chart.
pub open spec fn wants_premium(mode: Seq<char>) -> bool {
    mode == "premium"@ || mode == "both"@
}

/// Where a chart comes from.
pub open spec fn leg_from(mode: Seq<char>, spot_ok: bool, cached: bool) -> LegFrom {
    if spot_ok && mode == "spot"@ {
        LegFrom::Spot
    } else if cached {
        LegFrom::Cached
    } else if wants_premium(mode) {
        LegFrom::Resolve
    } else {
        LegFrom::Missing
    }
}

/// Where the charts a strategy runs and trades on come from.
pub fn view_legs(run_mode: &str, trade_mode: &str, cached_run: bool, cached_trade: bool) -> (r: (
    LegFrom,
    LegFrom,
))
    ensures
        r.0 == leg_from(run_mode@, true, cached_run),
        r.1 == leg_from(trade_mode@, false, cached_trade),
{
    let run = if text::same(run_mode, "spot") {
        LegFrom::Spot
    } else if cached_run {
        LegFrom::Cached
    } else if text::one_of(run_mode, "premium", "both") {
        LegFrom::Resolve
    } else {
        LegFrom::Missing
    };
    let trade = if cached_trade {
        LegFrom::Cached
    } else if text::one_of(trade_mode, "premium", "both") {
        LegFrom::Resolve
    } else {
        LegFrom::Missing
    };
    (run, trade)
}

/// The bar size shown for a strategy: the shorter one where both are ticked.
pub fn view_timeframe(settings: &Settings, strat: &Strategy) -> (r: String)
    ensures
        r@ == if settings.tf_1min && settings.tf_5min {
            "1min"@
        } else {
            routing::strategy_tf(*settings, routing::own_tf(strat.timeframe@))
        },
{
    match routing::mtf_pair(settings) {
        Some((entry, _trend)) => entry,
        None => routing::engine_tf(settings, strat),
    }
}

/// The places of the newest `cap` of `n` rows, newest first.
pub open spec fn newest(n: int, cap: int) -> Seq<usize> {
    let k = if n <= cap {
        n
    } else {
        cap
    };
    Seq::new(k as nat, |i: int| (n - 1 - i) as usize)
}

/// The places of the newest `cap` of `n` rows, newest first.
pub fn newest_places(n: usize, cap: usize) -> (r: Vec<usize>)
    ensures
        r@ == newest(n as int, cap as int),
{
    let mut out: Vec<usize> = Vec::new();
    let k: usize = if n <= cap {
        n
    } else {
        cap
    };
    let mut i: usize = 0;
    while i < k
        invariant
            i <= k <= n,
            out@ == newest(n as int, i as int),
        decreases k - i,
    {
        out.push(n - 1 - i);
        i += 1;
        assert(out@ =~= newest(n as int, i as int));
    }
    assert(out@ =~= newest(n as int, cap as int));
    out
}

/// The quantity of an order card: as given, else lots times lot size where both
/// are set, else none.
#[derive(Clone, Copy, Debug, PartialEq, Eq, Structural)]
pub enum CardQty {
    Given(i64),
    FromLots,
    Zero,
}

/// Where the quantity of an order card comes from.
pub fn card_quantity(given: Option<i64>, lots: Num, lot: Num) -> (r: CardQty)
    ensures
        r == match given {
            Some(q) => CardQty::Given(q),
            None => if lots.positive() && lot.positive() {
                CardQty::FromLots
            } else {
                CardQty::Zero
            },
        },
{
    match given {
        Some(q) => CardQty::Given(q),
        None => if lots.is_positive() && lot.is_positive() {
            CardQty::FromLots
        } else {
            CardQty::Zero
        },
    }
}

/// A given value where it is positive, else the fallback.
pub fn positive_or(given: Option<Num>, fallback: Num) -> (r: Num)
    ensures
        r == if given is Some && (given->0).positive() {
            given->0
        } else {
            fallback
        },
{
    match given {
        Some(n) => if n.is_positive() {
            n
        } else {
            fallback
        },
        None => fallback,
    }
}

/// The price margin locked by a position is reckoned at.
pub open spec fn price_locked(p: Position) -> Num {
    if p.entry.positive() {
        p.entry
    } else if p.fill_price.positive() {
        p.fill_price
    } else {
        p.ltp
    }
}

/// The price margin locked by a position is reckoned at: its entry, its fill,
/// its last price.
pub fn locked_price(p: &Position) -> (r: Num)
    ensures
        r == price_locked(*p),
{
    if p.entry.is_positive() {
        p.entry
    } else if p.fill_price.is_positive() {
        p.fill_price
    } else {
        p.ltp
    }
}

/// The price a position is shown at: the live one where it is known, else its last one,
/// else its entry.
pub proof fn law_shown_price_by_rank(p: Position, live: Num)
    ensures
        !live.nan && live.key > 0 ==> shown_price(p, Some(live)) == live,
        live.nan || live.key <= 0 ==> shown_price(p, Some(live)) == shown_price(p, None),
        !p.ltp.nan && p.ltp.key > 0 ==> shown_price(p, None) == p.ltp,
        p.ltp.nan || p.ltp.key <= 0 ==> shown_price(p, None) == exits::entry_price(p),
{
}

/// The newest rows come first, down to the cap.
pub proof fn law_newest_rows_first(n: int, cap: int, i: int)
    requires
        0 <= n <= usize::MAX,
        cap >= 0,
    ensures
        newest(n, cap).len() <= cap,
        n <= cap ==> newest(n, cap).len() == n,
        n > cap ==> newest(n, cap).len() == cap,
        0 <= i < newest(n, cap).len() ==> newest(n, cap)[i] + i == n - 1,
{
}

/// The stop in force is drawn at the live price exactly where the price has already run
/// through it: fallen below it for a buyer, risen above it for a seller.
pub proof fn law_passed_stops_are_drawn_at_the_price(p: Position, f: LevelFacts)
    requires
        !f.mark.nan && f.mark.key > 0,
        !p.sl.nan,
    ensures
        text::downs(p.side@) != "sell"@ ==> (drawn_at_mark(p, f) <==> f.mark.key < p.sl.key),
        text::downs(p.side@) == "sell"@ ==> (drawn_at_mark(p, f) <==> f.mark.key > p.sl.key),
{
}

/// A line is drawn once per kind: the entry always, every other level exactly where it is
/// set and is no double of one already drawn.
pub proof fn law_which_lines_are_drawn(p: Position, f: LevelFacts)
    ensures
        ({
            let v = lines_of(p, f);
            let sl = !p.sl.nan && p.sl.key > 0;
            let tp = !p.tp.nan && p.tp.key > 0;
            let profit = !p.peak_profit.nan && p.peak_profit.key > 0;
            &&& v.contains(ChartLine { kind: LineKind::Entry, price: exits::entry_price(p) })
            &&& !f.mark.nan && f.mark.key > 0 ==> v.contains(
                ChartLine { kind: LineKind::Live, price: f.mark },
            )
            &&& sl ==> v.contains(
                ChartLine {
                    kind: stop_kind(p, f),
                    price: if drawn_at_mark(p, f) {
                        f.mark
                    } else {
                        p.sl
                    },
                },
            )
            &&& tp ==> v.contains(ChartLine { kind: LineKind::Target, price: p.tp })
            &&& draws_overall(p, f) ==> v.contains(
                ChartLine { kind: LineKind::Overall, price: p.overall_sl },
            )
            &&& draws_trail(p, f) ==> v.contains(
                ChartLine { kind: LineKind::TrailLevel, price: f.trail_stop },
            )
            &&& draws_point(p, f) ==> v.contains(
                ChartLine { kind: LineKind::PointLevel, price: f.point_stop },
            )
            &&& !profit ==> !draws_point(p, f) && !draws_trail(p, f)
        }),
{
    let a = line_if(true, LineKind::Entry, exits::entry_price(p));
    let b = a + line_if(f.mark.positive(), LineKind::Live, f.mark);
    let sl = if drawn_at_mark(p, f) {
        f.mark
    } else {
        p.sl
    };
    let c = b + line_if(p.sl.positive(), stop_kind(p, f), sl);
    let d = c + line_if(draws_point(p, f), LineKind::PointLevel, f.point_stop);
    let e = d + line_if(draws_trail(p, f), LineKind::TrailLevel, f.trail_stop);
    let g = e + line_if(draws_overall(p, f), LineKind::Overall, p.overall_sl);
    let h = g + line_if(p.tp.positive(), LineKind::Target, p.tp);
    let v = lines_of(p, f);
    assert(v[0] == (ChartLine { kind: LineKind::Entry, price: exits::entry_price(p) }));
    if f.mark.positive() {
        assert(v[a.len() as int] == (ChartLine { kind: LineKind::Live, price: f.mark }));
    }
    if p.sl.positive() {
        assert(v[b.len() as int] == (ChartLine { kind: stop_kind(p, f), price: sl }));
    }
    if draws_point(p, f) {
        assert(v[c.len() as int] == (ChartLine { kind: LineKind::PointLevel, price: f.point_stop }));
    }
    if draws_trail(p, f) {
        assert(v[d.len() as int] == (ChartLine { kind: LineKind::TrailLevel, price: f.trail_stop }));
    }
    if draws_overall(p, f) {
        assert(v[e.len() as int] == (ChartLine { kind: LineKind::Overall, price: p.overall_sl }));
    }
    if p.tp.positive() {
        assert(v[g.len() as int] == (ChartLine { kind: LineKind::Target, price: p.tp }));
    }
}

/// A position is drawn on the chart of its own instrument, on its own exchange where one is
/// asked for, once it has an entry price.
pub proof fn law_positions_on_their_chart(p: Position, sid: i64, exch: Seq<char>)
    ensures
        ({
            let e = exits::entry_price(p);
            let here = sid > 0 && p.security_id == sid && !e.nan && e.key > 0;
            &&& on_chart(p, sid, Seq::empty()) <==> here
            &&& exch.len() > 0 ==> (on_chart(p, sid, exch) <==> here && text::downs(
                p.exchange_segment@,
            ) == text::downs(exch))
        }),
{
}

/// The positions drawn on a chart are all that belong there, in the order of the book.
pub proof fn law_charted_in_order(ps: Seq<Position>, sid: i64, exch: Seq<char>, n: int)
    requires
        0 < n <= ps.len(),
    ensures
        charted(ps, sid, exch, n) == charted(ps, sid, exch, n - 1) + if on_chart(
            ps[n - 1],
            sid,
            exch,
        ) {
            seq![(n - 1) as usize]
        } else {
            Seq::empty()
        },
        charted(ps, sid, exch, 0).len() == 0,
{
    let was = charted(ps, sid, exch, n - 1);
    assert(was + seq![(n - 1) as usize] =~= was.push((n - 1) as usize));
    assert(was + Seq::<usize>::empty() =~= was);
}

/// Where a chart comes from: the spot where that is asked for and there, else what is kept,
/// else a contract where a premium is asked for; else there is none.
pub proof fn law_where_charts_come_from(mode: Seq<char>, spot_ok: bool, cached: bool)
    ensures
        leg_from("spot"@, true, cached) == LegFrom::Spot,
        mode != "spot"@ || !spot_ok ==> (cached ==> leg_from(mode, spot_ok, cached)
            == LegFrom::Cached),
        leg_from("premium"@, spot_ok, false) == LegFrom::Resolve,
        leg_from("both"@, spot_ok, false) == LegFrom::Resolve,
        leg_from("spot"@, false, false) == LegFrom::Missing,
        mode != "spot"@ && mode != "premium"@ && mode != "both"@ ==> leg_from(mode, spot_ok, false)
            == LegFrom::Missing,
{
    reveal_strlit("spot");
    reveal_strlit("premium");
    reveal_strlit("both");
    assert("spot"@[0] == 's' && "premium"@[0] == 'p' && "both"@[0] == 'b');
}

/// Digits are grouped the Indian way: a comma before the last three, and before every pair
/// further up.
pub proof fn law_groups_of_digits(h: Seq<char>, a: char, b: char, c: char)
    ensures
        h.len() > 0 ==> grouped(h.push(a).push(b).push(c)) == in_pairs(h) + ","@ + seq![a, b, c],
        h.len() > 0 ==> in_pairs(h.push(a).push(b)) == in_pairs(h) + ","@ + seq![a, b],
        grouped(seq![a, b, c]) == seq![a, b, c],
        in_pairs(seq![a, b]) == seq![a, b],
{
    let s = h.push(a).push(b).push(c);
    assert(s.take(s.len() - 3) =~= h);
    assert(s.skip(s.len() - 3) =~= seq![a, b, c]);
    let t = h.push(a).push(b);
    assert(t.take(t.len() - 2) =~= h);
    assert(t.skip(t.len() - 2) =~= seq![a, b]);
}

/// What the stop in force is called: by the trail in points where it stands there, else by
/// the percent trail where one is set, or the trail in points alone; else the plain stop.
pub proof fn law_name_of_the_stop(p: Position, f: LevelFacts)
    ensures
        ({
            let profit = !p.peak_profit.nan && p.peak_profit.key > 0;
            let trail = !p.trail.nan && p.trail.key > 0;
            let points = !p.point_trail.nan && p.point_trail.key > 0;
            &&& points && profit && f.point_near_sl ==> stop_kind(p, f) == LineKind::PointStop
            &&& (trail || points) && !(points && profit && f.point_near_sl) ==> stop_kind(p, f)
                == LineKind::TrailStop
            &&& !trail && !points ==> stop_kind(p, f) == LineKind::Stop
        }),
{
}

/// The price of a broker position is the live one where it is known; else it follows from
/// the result, where there is a quantity and a cost to work it out from.
pub proof fn law_broker_price_by_rank(live: Num, avg: Num, qty: int)
    ensures
        !live.nan && live.key > 0 ==> price_at_broker(Some(live), avg, qty) == BrokerPrice::Live(live),
        live.nan || live.key <= 0 ==> price_at_broker(Some(live), avg, qty) == price_at_broker(
            None,
            avg,
            qty,
        ),
        !avg.nan && avg.key > 0 && qty != 0 ==> price_at_broker(None, avg, qty)
            == BrokerPrice::FromResult,
        avg.nan || avg.key <= 0 || qty == 0 ==> price_at_broker(None, avg, qty)
            == BrokerPrice::Unknown,
{
}

/// The price of a holding: the reported one before the live one, and last its cost.
pub proof fn law_holding_price_by_rank(reported: Num, live: Num, avg: Num)
    ensures
        !reported.nan && reported.key > 0 ==> price_of_holding(reported, Some(live), avg) == reported
            && price_of_holding(reported, None, avg) == reported,
        (reported.nan || reported.key <= 0) && !live.nan && live.key > 0 ==> price_of_holding(
            reported,
            Some(live),
            avg,
        ) == live,
        (reported.nan || reported.key <= 0) && (live.nan || live.key <= 0) ==> price_of_holding(
            reported,
            Some(live),
            avg,
        ) == avg,
        reported.nan || reported.key <= 0 ==> price_of_holding(reported, None, avg) == avg,
{
}

/// Locked margin is reckoned at the entry before the fill, and at the last price only
/// without either.
pub proof fn law_locked_price_by_rank(p: Position)
    ensures
        !p.entry.nan && p.entry.key > 0 ==> price_locked(p) == p.entry,
        (p.entry.nan || p.entry.key <= 0) && !p.fill_price.nan && p.fill_price.key > 0
            ==> price_locked(p) == p.fill_price,
        (p.entry.nan || p.entry.key <= 0) && (p.fill_price.nan || p.fill_price.key <= 0)
            ==> price_locked(p) == p.ltp,
{
}

} // verus!
