//! The scanners: ranking of movers, index-trend assignment, picked legs and the
//! strategies built from them.

use vstd::prelude::*;
use crate::gate;
use crate::model::{Settings, Strategy};
use crate::num::Num;
use crate::order;
use crate::routing;
use crate::sides;
use crate::sides::Dirs;
use crate::text;
use crate::textmap::TextMap;

verus! {

/// An instrument with its segment stands before another: by number, then by
/// segment.
pub open spec fn leg_below(a: (i64, Seq<char>), b: (i64, Seq<char>)) -> bool {
    a.0 < b.0 || (a.0 == b.0 && text::below(a.1, b.1))
}

/// The instruments stand in strictly rising order.
pub open spec fn legs_rise(v: Seq<(i64, Seq<char>)>) -> bool {
    forall|i: int, j: int| 0 <= i < j < v.len() ==> leg_below(#[trigger] v[i], #[trigger] v[j])
}

proof fn lemma_leg_order(a: (i64, Seq<char>), b: (i64, Seq<char>), c: (i64, Seq<char>))
    ensures
        !leg_below(a, a),
        leg_below(a, b) && leg_below(b, c) ==> leg_below(a, c),
        a != b ==> leg_below(a, b) || leg_below(b, a),
{
    text::lemma_below_irreflexive(a.1);
    if text::below(a.1, b.1) && text::below(b.1, c.1) {
        text::lemma_below_transitive(a.1, b.1, c.1);
    }
    if a.1 != b.1 {
        text::lemma_below_total(a.1, b.1);
    }
}

fn insert_leg(v: &mut Vec<(i64, String)>, leg: (i64, String))
    requires
        legs_rise(sides::pairs(old(v)@)),
    ensures
        legs_rise(sides::pairs(final(v)@)),
        forall|p: (i64, Seq<char>)| #[trigger]
            sides::pairs(final(v)@).contains(p) == (sides::pairs(old(v)@).contains(p) || p == (
                leg.0,
                leg.1@,
            )),
{
    let ghost before = sides::pairs(v@);
    let ghost new = (leg.0, leg.1@);
    let mut at: usize = v.len();
    while at > 0
        invariant
            at <= v.len(),
            before == sides::pairs(v@),
            before == sides::pairs(old(v)@),
            v@ == old(v)@,
            legs_rise(before),
            new == (leg.0, leg.1@),
            forall|j: int| at <= j < before.len() ==> leg_below(new, #[trigger] before[j]),
        ensures
            at <= v.len(),
            forall|j: int| at <= j < before.len() ==> leg_below(new, #[trigger] before[j]),
            at > 0 ==> leg_below(before[at - 1], new),
        decreases at,
    {
        let q = &v[at - 1];
        assert(before[at - 1] == (q.0, q.1@));
        if q.0 == leg.0 && text::same(q.1.as_str(), leg.1.as_str()) {
            assert(before[at - 1] == new);
            assert forall|p: (i64, Seq<char>)| #[trigger]
                before.contains(p) == (before.contains(p) || p == new) by {
                if p == new {
                    assert(before[at - 1] == p);
                }
            }
            return ;
        }
        let first = leg.0 < q.0 || (leg.0 == q.0 && text::text_below(
            leg.1.as_str(),
            q.1.as_str(),
        ));
        if !first {
            proof {
                lemma_leg_order(before[at - 1], new, new);
            }
            break;
        }
        at -= 1;
    }
    v.insert(at, leg);
    proof {
        let after = sides::pairs(v@);
        assert(after =~= before.insert(at as int, new));
        assert forall|i: int, j: int| 0 <= i < j < after.len() implies leg_below(
            #[trigger] after[i],
            #[trigger] after[j],
        ) by {
            let a = if i < at {
                before[i]
            } else if i == at {
                new
            } else {
                before[i - 1]
            };
            let b = if j < at {
                before[j]
            } else if j == at {
                new
            } else {
                before[j - 1]
            };
            assert(after[i] == a && after[j] == b);
            if j == at && i < at - 1 {
                assert(leg_below(before[i], before[at - 1]));
                lemma_leg_order(before[i], before[at - 1], new);
            }
        }
        assert forall|p: (i64, Seq<char>)| #[trigger]
            after.contains(p) == (before.contains(p) || p == new) by {
            if after.contains(p) {
                let i = choose|i: int| 0 <= i < after.len() && after[i] == p;
                if i < at {
                    assert(before[i] == p);
                } else if i > at {
                    assert(before[i - 1] == p);
                }
            }
            if before.contains(p) {
                let i = choose|i: int| 0 <= i < before.len() && before[i] == p;
                if i < at {
                    assert(after[i] == p);
                } else {
                    assert(after[i + 1] == p);
                }
            }
            assert(after[at as int] == new);
        }
    }
}

/// The scan's instruments and the operator's indices, sorted, each once.
pub fn ordered_universe(univ: &Vec<(i64, String)>, indices: &Vec<i64>) -> (r: Vec<(i64, String)>)
    ensures
        legs_rise(sides::pairs(r@)),
        forall|p: (i64, Seq<char>)| #[trigger]
            sides::pairs(r@).contains(p) == (sides::pairs(univ@).contains(p) || (p.0 > 0
                && indices@.contains(p.0) && p.1 == "IDX_I"@)),
{
    let mut out: Vec<(i64, String)> = Vec::new();
    let mut i: usize = 0;
    while i < univ.len()
        invariant
            i <= univ.len(),
            legs_rise(sides::pairs(out@)),
            forall|p: (i64, Seq<char>)| #[trigger]
                sides::pairs(out@).contains(p) == sides::pairs(univ@).take(i as int).contains(p),
        decreases univ.len() - i,
    {
        let ghost before = sides::pairs(univ@).take(i as int);
        insert_leg(&mut out, (univ[i].0, univ[i].1.clone()));
        proof {
            let all = sides::pairs(univ@);
            let now = all.take(i + 1);
            assert(now =~= before.push(all[i as int]));
            assert forall|p: (i64, Seq<char>)| #[trigger]
                now.contains(p) == (before.contains(p) || p == all[i as int]) by {
                lemma_push_contains(before, all[i as int], p);
            }
        }
        i += 1;
    }
    assert(sides::pairs(univ@).take(univ@.len() as int) =~= sides::pairs(univ@));
    let mut k: usize = 0;
    while k < indices.len()
        invariant
            k <= indices.len(),
            legs_rise(sides::pairs(out@)),
            forall|p: (i64, Seq<char>)| #[trigger]
                sides::pairs(out@).contains(p) == (sides::pairs(univ@).contains(p) || (p.0 > 0
                    && indices@.take(k as int).contains(p.0) && p.1 == "IDX_I"@)),
        decreases indices.len() - k,
    {
        let ghost before = indices@.take(k as int);
        if indices[k] > 0 {
            insert_leg(&mut out, (indices[k], "IDX_I".to_owned()));
        }
        proof {
            let now = indices@.take(k + 1);
            assert(now =~= before.push(indices@[k as int]));
            assert forall|x: i64| #[trigger]
                now.contains(x) == (before.contains(x) || x == indices@[k as int]) by {
                lemma_push_contains(before, indices@[k as int], x);
            }
        }
        k += 1;
    }
    assert(indices@.take(indices@.len() as int) =~= indices@);
    out
}

proof fn lemma_push_contains<T>(s: Seq<T>, x: T, p: T)
    ensures
        s.push(x).contains(p) == (s.contains(p) || p == x),
{
    if s.contains(p) {
        let i = choose|i: int| 0 <= i < s.len() && s[i] == p;
        assert(s.push(x)[i] == p);
    }
    assert(s.push(x)[s.len() as int] == x);
    if s.push(x).contains(p) {
        let i = choose|i: int| 0 <= i < s.push(x).len() && s.push(x)[i] == p;
        if i < s.len() {
            assert(s[i] == p);
        }
    }
}

/// How many of the readings at the places satisfy a sign: rising where `sign`
/// is 1, falling where it is -1, not falling where it is 0.
pub open spec fn sign_count(changes: Seq<Num>, at: Seq<usize>, sign: int) -> nat
    decreases at.len(),
{
    if at.len() == 0 {
        0
    } else {
        let c = changes[at.last() as int];
        let one: nat = if (sign > 0 && c.positive()) || (sign < 0 && c.negative()) || (sign == 0
            && !c.nan && c.key >= 0) {
            1
        } else {
            0
        };
        sign_count(changes, at.drop_last(), sign) + one
    }
}

fn count_sign(changes: &Vec<Num>, at: &Vec<usize>, sign: i64) -> (r: i64)
    requires
        forall|i: int| 0 <= i < at@.len() ==> #[trigger] at@[i] < changes@.len(),
        at@.len() <= i64::MAX,
    ensures
        r == sign_count(changes@, at@, sign as int),
{
    let mut n: i64 = 0;
    let mut i: usize = 0;
    assert(at@.take(0) =~= Seq::<usize>::empty());
    while i < at.len()
        invariant
            i <= at.len(),
            at@.len() <= i64::MAX,
            forall|k: int| 0 <= k < at@.len() ==> #[trigger] at@[k] < changes@.len(),
            n == sign_count(changes@, at@.take(i as int), sign as int),
            n <= i,
        decreases at.len() - i,
    {
        proof {
            assert(at@.take(i + 1).drop_last() =~= at@.take(i as int));
            assert(at@.take(i + 1).last() == at@[i as int]);
        }
        let c = changes[at[i]];
        if (sign > 0 && c.is_positive()) || (sign < 0 && c.is_negative()) || (sign == 0 && !c.nan
            && c.key >= 0) {
            n += 1;
        }
        i += 1;
    }
    assert(at@.take(at@.len() as int) =~= at@);
    n
}

/// One pass of the movers scan: places of the top gainers and losers, how many
/// instruments rise and fall, and the side that follows.
#[derive(Debug)]
pub struct MoversPass {
    pub gainers: Vec<usize>,
    pub losers: Vec<usize>,
    pub up: i64,
    pub down: i64,
    pub bias: i64,
}

/// The keys by which changes rank.
pub open spec fn change_keys(changes: Seq<Num>) -> Seq<(i64, i64)> {
    Seq::new(changes.len(), |i: int| (changes[i].key, 0i64))
}

fn keys_of(changes: &Vec<Num>) -> (r: Vec<(i64, i64)>)
    ensures
        r@ == change_keys(changes@),
{
    let mut v: Vec<(i64, i64)> = Vec::new();
    let mut i: usize = 0;
    while i < changes.len()
        invariant
            i <= changes.len(),
            v@ == change_keys(changes@).take(i as int),
        decreases changes.len() - i,
    {
        v.push((changes[i].key, 0));
        i += 1;
        assert(v@ =~= change_keys(changes@).take(i as int));
    }
    assert(change_keys(changes@).take(i as int) =~= change_keys(changes@));
    v
}

/// All places of a list of `n`.
pub open spec fn all_places(n: int) -> Seq<usize> {
    Seq::new(n as nat, |i: int| i as usize)
}

fn places_upto(n: usize) -> (r: Vec<usize>)
    ensures
        r@ == all_places(n as int),
{
    let mut v: Vec<usize> = Vec::new();
    let mut i: usize = 0;
    while i < n
        invariant
            i <= n,
            v@ == all_places(i as int),
        decreases n - i,
    {
        v.push(i);
        i += 1;
        assert(v@ =~= all_places(i as int));
    }
    v
}

/// Ranks the instruments of a scan by their change. Gainers and losers are the
/// top of each ranking; the side follows the selected ones, market breadth only
/// breaks a tie.
pub fn movers_pass(changes: &Vec<Num>, gain_n: i64, lose_n: i64) -> (r: MoversPass)
    requires
        forall|i: int| 0 <= i < changes@.len() ==> !(#[trigger] changes@[i]).nan,
        changes@.len() <= i64::MAX,
    ensures
        order::leaders(change_keys(changes@), false, gain_n as int, r.gainers@),
        order::leaders(change_keys(changes@), true, lose_n as int, r.losers@),
        r.up == sign_count(changes@, all_places(changes@.len() as int), 1),
        r.down == sign_count(changes@, all_places(changes@.len() as int), -1),
        r.bias == routing::mover_bias(
            gain_n > 0 && r.gainers@.len() > 0,
            lose_n > 0 && r.losers@.len() > 0,
            sign_count(changes@, r.gainers@, 0) as int,
            sign_count(changes@, r.losers@, -1) as int,
            r.up as int,
            r.down as int,
        ),
{
    let keys = keys_of(changes);
    let gainers = order::rank_first(&keys, false, gain_n);
    let losers = order::rank_first(&keys, true, lose_n);
    proof {
        lemma_leaders_in(keys@, false, gain_n as int, gainers@);
        lemma_leaders_in(keys@, true, lose_n as int, losers@);
    }
    let all = places_upto(changes.len());
    let up = count_sign(changes, &all, 1);
    let down = count_sign(changes, &all, -1);
    let pos = count_sign(changes, &gainers, 0);
    let neg = count_sign(changes, &losers, -1);
    let bias = routing::movers_auto_bias(
        gain_n > 0 && gainers.len() > 0,
        lose_n > 0 && losers.len() > 0,
        pos,
        neg,
        up,
        down,
    );
    MoversPass { gainers, losers, up, down, bias }
}

proof fn lemma_leaders_in(keys: Seq<(i64, i64)>, rising: bool, n: int, r: Seq<usize>)
    requires
        order::leaders(keys, rising, n, r),
    ensures
        r.len() <= keys.len(),
        forall|i: int| 0 <= i < r.len() ==> #[trigger] r[i] < keys.len(),
{
    let full = choose|full: Seq<usize>| #[trigger]
        order::ranking(keys, rising, full) && r == order::first(full, n);
    assert forall|i: int| 0 <= i < r.len() implies #[trigger] r[i] < keys.len() by {
        assert(r[i] == full[i]);
    }
}

/// The top of both rankings for the index-trend scan: all of them, or the
/// operator's count, at least one.
pub fn mover_lists(changes: &Vec<Num>, top: bool, count: i64) -> (r: (Vec<usize>, Vec<usize>))
    requires
        forall|i: int| 0 <= i < changes@.len() ==> !(#[trigger] changes@[i]).nan,
    ensures
        ({
            let n = if !top {
                changes@.len() as int
            } else if count < 1 {
                1
            } else {
                count as int
            };
            &&& order::leaders(change_keys(changes@), false, n, (r.0)@)
            &&& order::leaders(change_keys(changes@), true, n, (r.1)@)
        }),
{
    let keys = keys_of(changes);
    if !top {
        let g = order::rank(&keys, false);
        let l = order::rank(&keys, true);
        proof {
            let n = changes@.len() as int;
            assert(g@ =~= order::first(g@, n));
            assert(l@ =~= order::first(l@, n));
        }
        return (g, l);
    }
    let n: i64 = if count < 1 {
        1
    } else {
        count
    };
    (order::rank_first(&keys, false, n), order::rank_first(&keys, true, n))
}

/// Instruments grouped for one request: the ids of a segment, in order.
pub open spec fn in_group(rows: Seq<(i64, Seq<char>)>, seg: Seq<char>) -> Seq<i64>
    decreases rows.len(),
{
    if rows.len() == 0 {
        Seq::empty()
    } else if rows.last().0 > 0 && rows.last().1 == seg {
        in_group(rows.drop_last(), seg).push(rows.last().0)
    } else {
        in_group(rows.drop_last(), seg)
    }
}

/// The request of some instruments: for every segment its ids. Instruments
/// without an id are left out.
pub fn quote_request(rows: &Vec<(i64, String)>, from: usize, to: usize) -> (r: TextMap<Vec<i64>>)
    requires
        from <= to <= rows@.len(),
    ensures
        ({
            let part = sides::pairs(rows@).subrange(from as int, to as int);
            forall|seg: Seq<char>| #![trigger r@.contains_key(seg)]
                r@.contains_key(seg) == (in_group(part, seg).len() > 0) && (r@.contains_key(seg)
                    ==> r@[seg]@ == in_group(part, seg))
        }),
{
    let mut out: TextMap<Vec<i64>> = TextMap::new();
    let ghost all = sides::pairs(rows@);
    let mut i: usize = from;
    while i < to
        invariant
            from <= i <= to <= rows@.len(),
            all == sides::pairs(rows@),
            forall|seg: Seq<char>| #![trigger out@.contains_key(seg)]
                out@.contains_key(seg) == (in_group(
                    all.subrange(from as int, i as int),
                    seg,
                ).len() > 0) && (out@.contains_key(seg) ==> out@[seg]@ == in_group(
                    all.subrange(from as int, i as int),
                    seg,
                )),
        decreases to - i,
    {
        let ghost before = all.subrange(from as int, i as int);
        let ghost now = all.subrange(from as int, i + 1);
        let ghost was = out@;
        proof {
            assert(now.drop_last() =~= before);
            assert(now.last() == all[i as int]);
        }
        let id: i64 = rows[i].0;
        if id > 0 {
            let mut list: Vec<i64> = Vec::new();
            if let Some(v) = out.get(rows[i].1.as_str()) {
                list = copy_ids(v);
            } else {
                assert(!was.contains_key(rows@[i as int].1@));
                assert(in_group(before, rows@[i as int].1@) =~= Seq::<i64>::empty());
            }
            list.push(id);
            out.insert(rows[i].1.clone(), list);
        }
        proof {
            assert forall|seg: Seq<char>| #![trigger out@.contains_key(seg)]
                out@.contains_key(seg) == (in_group(now, seg).len() > 0) && (out@.contains_key(seg)
                    ==> out@[seg]@ == in_group(now, seg)) by {
                assert(was.contains_key(seg) == (in_group(before, seg).len() > 0));
            }
        }
        i += 1;
    }
    out
}

fn copy_ids(v: &Vec<i64>) -> (r: Vec<i64>)
    ensures
        r@ == v@,
{
    let mut out: Vec<i64> = Vec::new();
    let mut i: usize = 0;
    while i < v.len()
        invariant
            i <= v.len(),
            out@ == v@.take(i as int),
        decreases v.len() - i,
    {
        out.push(v[i]);
        i += 1;
        assert(out@ =~= v@.take(i as int));
    }
    assert(v@.take(i as int) =~= v@);
    out
}

/// The live state of the index-trend engine.
#[derive(Debug)]
pub struct Trend {
    pub dir: i64,
    pub bull: Vec<String>,
    pub bear: Vec<String>,
    pub last_trend: i64,
    pub last_scan: i64,
}

/// What a trend pass does next.
#[derive(Clone, Copy, Debug, PartialEq, Eq, Structural)]
pub enum TrendStep {
    /// It is too early.
    Wait,
    /// The engine is off: everything is cleared.
    Cleared,
    /// The index bars must be read.
    Read,
}

/// Starts a trend pass, at most every two seconds.
pub fn trend_step(t: &mut Trend, now: i64, enabled: bool) -> (r: TrendStep)
    requires
        old(t).last_trend >= 0,
        now >= 0,
    ensures
        now - old(t).last_trend < 2_000 ==> r == TrendStep::Wait && *final(t) == *old(t),
        now - old(t).last_trend >= 2_000 && enabled ==> r == TrendStep::Read && *final(t) == (
        Trend { last_trend: now, ..*old(t) }),
        now - old(t).last_trend >= 2_000 && !enabled ==> {
            &&& r == TrendStep::Cleared
            &&& final(t).dir == 0
            &&& final(t).bull@.len() == 0
            &&& final(t).bear@.len() == 0
            &&& final(t).last_trend == now
            &&& final(t).last_scan == old(t).last_scan
        },
{
    if now - t.last_trend < 2_000 {
        return TrendStep::Wait;
    }
    t.last_trend = now;
    if enabled {
        return TrendStep::Read;
    }
    t.dir = 0;
    t.bull = Vec::new();
    t.bear = Vec::new();
    TrendStep::Cleared
}

/// The sign of a number.
pub open spec fn sign(n: int) -> int {
    if n > 0 {
        1
    } else if n < 0 {
        -1
    } else {
        0
    }
}

/// Takes over the lines read from the index, given at least thirty-five bars. A
/// flip of the direction makes the pick scan due at once.
pub fn trend_read(t: &mut Trend, bars: usize, bull: Vec<String>, bear: Vec<String>, net: i64)
    ensures
        bars < 35 ==> *final(t) == *old(t),
        bars >= 35 ==> {
            &&& final(t).bull == bull
            &&& final(t).bear == bear
            &&& final(t).dir == sign(net as int)
            &&& final(t).last_trend == old(t).last_trend
            &&& final(t).last_scan == if net != 0 && old(t).dir != sign(net as int) {
                0
            } else {
                old(t).last_scan
            }
        },
{
    if bars < 35 {
        return ;
    }
    t.bull = bull;
    t.bear = bear;
    if net == 0 {
        t.dir = 0;
        return ;
    }
    let d: i64 = if net > 0 {
        1
    } else {
        -1
    };
    if t.dir != d {
        t.last_scan = 0;
    }
    t.dir = d;
}

/// What a scanner pass does next.
#[derive(Clone, Copy, Debug, PartialEq, Eq, Structural)]
pub enum ScannerStep {
    /// It is too early, or there is no connection.
    Wait,
    /// The scanner is off, or has nothing to assign: its picks are cleared.
    Clear,
    /// The universe is scanned.
    Scan,
}

/// What a pass of the movers scan does.
pub open spec fn movers_action(last: int, now: int, enabled: bool, connected: bool) -> ScannerStep {
    if now - last < 15000 {
        ScannerStep::Wait
    } else if !enabled {
        ScannerStep::Clear
    } else if !connected {
        ScannerStep::Wait
    } else {
        ScannerStep::Scan
    }
}

/// Starts a pass of the movers scan, at most every fifteen seconds. Returns what
/// to do and when the scan last ran.
pub fn movers_step(last: i64, now: i64, enabled: bool, connected: bool) -> (r: (ScannerStep, i64))
    requires
        last >= 0,
        now >= 0,
    ensures
        r.0 == movers_action(last as int, now as int, enabled, connected),
        r.1 == if r.0 == ScannerStep::Scan {
            now
        } else {
            last
        },
{
    if now - last < 15000 {
        return (ScannerStep::Wait, last);
    }
    if !enabled {
        return (ScannerStep::Clear, last);
    }
    if !connected {
        return (ScannerStep::Wait, last);
    }
    (ScannerStep::Scan, now)
}

/// What a pass of the index-trend scan does.
pub open spec fn trend_action(
    last: int,
    now: int,
    enabled: bool,
    connected: bool,
    lines: bool,
) -> ScannerStep {
    if now - last < 15_000 {
        ScannerStep::Wait
    } else if !enabled {
        ScannerStep::Clear
    } else if !connected {
        ScannerStep::Wait
    } else if !lines {
        ScannerStep::Clear
    } else {
        ScannerStep::Scan
    }
}

/// Starts a pass of the index-trend scan, at most every fifteen seconds and only
/// with some line assigned.
pub fn nifty_scan_step(t: &mut Trend, now: i64, enabled: bool, connected: bool) -> (r: ScannerStep)
    requires
        old(t).last_scan >= 0,
        now >= 0,
    ensures
        ({
            let ready = now - old(t).last_scan >= 15_000;
            let lines = old(t).bull@.len() > 0 || old(t).bear@.len() > 0;
            &&& r == trend_action(old(t).last_scan as int, now as int, enabled, connected, lines)
            &&& *final(t) == Trend {
                last_scan: if ready && enabled && connected {
                    now
                } else {
                    old(t).last_scan
                },
                ..*old(t)
            }
        }),
{
    if now - t.last_scan < 15_000 {
        return ScannerStep::Wait;
    }
    if !enabled {
        return ScannerStep::Clear;
    }
    if !connected {
        return ScannerStep::Wait;
    }
    t.last_scan = now;
    if t.bull.len() == 0 && t.bear.len() == 0 {
        ScannerStep::Clear
    } else {
        ScannerStep::Scan
    }
}

/// The bar size the trend is read at.
pub fn trend_timeframe(tf: &str) -> (r: String)
    ensures
        r@ == if text::downs(tf@) == "both"@ {
            "5min"@
        } else {
            tf@
        },
{
    let l = text::to_ascii_lower(tf);
    if text::same(l.as_str(), "both") {
        "5min".to_owned()
    } else {
        tf.to_owned()
    }
}

/// Which sides of the movers are shown as picks: both, or only the active one.
pub fn sides_shown(active: Option<&'static str>) -> (r: (bool, bool))
    ensures
        r.0 == (active is None || (active->0)@ == "CE"@),
        r.1 == (active is None || (active->0)@ == "PE"@),
{
    match active {
        None => (true, true),
        Some(s) => (text::same(s, "CE"), text::same(s, "PE")),
    }
}

/// A picked leg.
#[derive(Debug)]
pub struct Pick {
    pub security_id: i64,
    pub underlying: String,
    pub side: String,
    pub trading_symbol: String,
    pub segment: String,
    pub instrument: String,
    pub source: String,
    pub run_mode: String,
    pub underlying_security_id: i64,
    pub underlying_segment: String,
    pub underlying_instrument: String,
    /// Place of the underlying among the scanned rows.
    pub row: usize,
}

/// What is known of an instrument; `lot` is not positive where unknown.
#[derive(Debug)]
pub struct SymbolMeta {
    pub security_id: i64,
    pub name: String,
    pub segment: String,
    pub instrument: String,
    pub lot: Num,
}

/// The first entry of an instrument from `i` on, or the length.
pub open spec fn meta_place(m: Seq<SymbolMeta>, sid: i64, i: int) -> int
    decreases m.len() - i,
{
    if i >= m.len() {
        m.len() as int
    } else if m[i].security_id == sid {
        i
    } else {
        meta_place(m, sid, i + 1)
    }
}

/// The entry of an instrument.
pub fn find_meta(m: &Vec<SymbolMeta>, sid: i64) -> (r: Option<usize>)
    ensures
        match r {
            Some(i) => i == meta_place(m@, sid, 0) && i < m@.len(),
            None => meta_place(m@, sid, 0) == m@.len(),
        },
{
    let mut i: usize = 0;
    while i < m.len()
        invariant
            i <= m.len(),
            meta_place(m@, sid, 0) == meta_place(m@, sid, i as int),
        decreases m.len() - i,
    {
        if m[i].security_id == sid {
            return Some(i);
        }
        i += 1;
    }
    None
}

/// The side of a pick: puts where asked for, else calls.
pub open spec fn pick_side_text(side: Seq<char>) -> Seq<char> {
    if text::downs(side) == "pe"@ {
        "PE"@
    } else {
        "CE"@
    }
}

/// The strategy a pick is resolved through.
pub open spec fn is_pick_base(r: Strategy, m: SymbolMeta, side: Seq<char>, zero: Num) -> bool {
    let s = pick_side_text(side);
    &&& r.id@ == "pick:"@ + text::int_dec(m.security_id as int) + ":"@ + s
    &&& r.name@ == m.name@ + " ["@ + s + "]"@
    &&& r.category@ == if s == "CE"@ {
        "BULLISH"@
    } else {
        "BEARISH"@
    }
    &&& r.timeframe@.len() == 0
    &&& r.security_id == m.security_id
    &&& r.exchange_segment@ == m.segment@
    &&& r.instrument@ == m.instrument@
    &&& r.trading_symbol@ == m.name@
    &&& r.side@ == "BUY"@
    &&& r.enabled
    &&& r.last_signal == 0
    &&& r.last_error@.len() == 0
    &&& r.synthetic
    &&& r.lot == zero
    &&& r.group@.len() == 0
    &&& !r.manual
}

/// The strategy a pick is resolved through.
pub fn pick_base(m: &SymbolMeta, side: &str, zero: Num) -> (r: Strategy)
    ensures
        is_pick_base(r, *m, side@, zero),
{
    let l = text::to_ascii_lower(side);
    let put = text::same(l.as_str(), "pe");
    let s = if put {
        "PE"
    } else {
        "CE"
    };
    let mut id = "pick:".to_owned();
    text::push_int(&mut id, m.security_id);
    text::push_text(&mut id, ":");
    text::push_text(&mut id, s);
    let mut name = text::concat(m.name.as_str(), " [");
    text::push_text(&mut name, s);
    text::push_text(&mut name, "]");
    proof {
        reveal_strlit("CE");
        reveal_strlit("PE");
        reveal_strlit("");
        assert("CE"@[0] == 'C' && "PE"@[0] == 'P');
    }
    let r = Strategy {
        id,
        name,
        category: if put {
            "BEARISH".to_owned()
        } else {
            "BULLISH".to_owned()
        },
        timeframe: "".to_owned(),
        security_id: m.security_id,
        exchange_segment: m.segment.clone(),
        instrument: m.instrument.clone(),
        trading_symbol: m.name.clone(),
        side: "BUY".to_owned(),
        enabled: true,
        last_signal: 0,
        last_error: "".to_owned(),
        synthetic: true,
        lot: zero,
        group: "".to_owned(),
        manual: false,
    };
    r
}

/// The row of a resolved pick.
pub fn pick_row(
    leg: &Strategy,
    m: &SymbolMeta,
    side: &str,
    source: &str,
    settings: &Settings,
    row: usize,
) -> (r: Pick)
    ensures
        r.security_id == leg.security_id,
        r.underlying@ == m.name@,
        r.side@ == side@,
        r.trading_symbol@ == leg.trading_symbol@,
        r.segment@ == leg.exchange_segment@,
        r.instrument@ == leg.instrument@,
        r.source@ == source@,
        r.run_mode@ == routing::run_mode(
            routing::category(m.segment@, m.instrument@),
            *settings,
        ),
        r.underlying_security_id == m.security_id,
        r.underlying_segment@ == m.segment@,
        r.underlying_instrument@ == m.instrument@,
        r.row == row,
{
    Pick {
        security_id: leg.security_id,
        underlying: m.name.clone(),
        side: side.to_owned(),
        trading_symbol: leg.trading_symbol.clone(),
        segment: leg.exchange_segment.clone(),
        instrument: leg.instrument.clone(),
        source: source.to_owned(),
        run_mode: routing::run_mode_for(m.segment.as_str(), m.instrument.as_str(), settings),
        underlying_security_id: m.security_id,
        underlying_segment: m.segment.clone(),
        underlying_instrument: m.instrument.clone(),
        row,
    }
}

/// The picks of other sources.
pub open spec fn of_others(v: Seq<Pick>, source: Seq<char>) -> Seq<Pick>
    decreases v.len(),
{
    if v.len() == 0 {
        v
    } else if v.last().source@ == source {
        of_others(v.drop_last(), source)
    } else {
        of_others(v.drop_last(), source).push(v.last())
    }
}

/// Replaces the picks of one source, keeping those of the others in order.
pub fn update_picked(picked: Vec<Pick>, source: &str, rows: Vec<Pick>) -> (r: Vec<Pick>)
    ensures
        r@ == of_others(picked@, source@) + rows@,
{
    let mut picked = picked;
    let mut rows = rows;
    let ghost all = picked@;
    let ghost tail = rows@;
    let mut back: Vec<Pick> = Vec::new();
    assert(all.take(all.len() as int) =~= all);
    while picked.len() > 0
        invariant
            picked@.len() <= all.len(),
            picked@ == all.take(picked@.len() as int),
            of_others(all, source@) == of_others(picked@, source@) + back@.reverse(),
        decreases picked@.len(),
    {
        let ghost was = picked@;
        let ghost kept = back@;
        match picked.pop() {
            Some(p) => {
                assert(was.drop_last() =~= picked@);
                if !text::same(p.source.as_str(), source) {
                    back.push(p);
                    assert(back@.reverse() =~= seq![p] + kept.reverse());
                    assert(of_others(was.drop_last(), source@).push(p) + kept.reverse()
                        =~= of_others(was.drop_last(), source@) + (seq![p] + kept.reverse()));
                }
                assert(picked@ =~= all.take(picked@.len() as int));
            },
            None => {},
        }
    }
    let mut out: Vec<Pick> = Vec::new();
    let ghost mid = back@;
    while back.len() > 0
        invariant
            back@.len() <= mid.len(),
            back@ == mid.take(back@.len() as int),
            out@ == mid.skip(back@.len() as int).reverse(),
        decreases back@.len(),
    {
        let ghost n = back@.len() as int;
        match back.pop() {
            Some(p) => {
                out.push(p);
                assert(mid.skip(n - 1).reverse() =~= mid.skip(n).reverse().push(p));
                assert(back@ =~= mid.take(n - 1));
            },
            None => {},
        }
    }
    assert(mid.skip(0) =~= mid);
    out.append(&mut rows);
    out
}

/// The picks of the other sources survive an update, in their order.
pub proof fn law_update_keeps_other_sources(v: Seq<Pick>, source: Seq<char>, p: Pick)
    requires
        p.source@ != source,
    ensures
        of_others(v, source).contains(p) == v.contains(p),
    decreases v.len(),
{
    if v.len() > 0 {
        let init = v.drop_last();
        law_update_keeps_other_sources(init, source, p);
        lemma_push_contains(init, v.last(), p);
        assert(init.push(v.last()) =~= v);
        lemma_push_contains(of_others(init, source), v.last(), p);
    }
}

/// The underlyings currently picked by the index trend, in capitals; unnamed
/// ones are left out.
pub open spec fn picked_names(v: Seq<Pick>) -> Seq<Seq<char>>
    decreases v.len(),
{
    if v.len() == 0 {
        Seq::empty()
    } else {
        let u = text::upper_text(v.last().underlying@);
        if u.len() == 0 {
            picked_names(v.drop_last())
        } else {
            picked_names(v.drop_last()).push(u)
        }
    }
}

/// The underlyings currently picked by the index trend.
pub fn nifty_pick_underlyings(picks: &Vec<Pick>) -> (r: Vec<String>)
    ensures
        text::views(r@) == picked_names(picks@),
{
    let mut out: Vec<String> = Vec::new();
    let mut i: usize = 0;
    assert(text::views(out@) =~= Seq::<Seq<char>>::empty());
    assert(picks@.take(0) =~= Seq::<Pick>::empty());
    while i < picks.len()
        invariant
            i <= picks.len(),
            text::views(out@) == picked_names(picks@.take(i as int)),
        decreases picks.len() - i,
    {
        proof {
            assert(picks@.take(i + 1).drop_last() =~= picks@.take(i as int));
            assert(picks@.take(i + 1).last() == picks@[i as int]);
        }
        let u = text::uppercase(picks[i].underlying.as_str());
        if text::chars_of(u.as_str()).len() > 0 {
            let ghost was = out@;
            let ghost uv = u@;
            out.push(u);
            assert(text::views(out@) =~= text::views(was).push(uv));
        }
        i += 1;
    }
    assert(picks@.take(i as int) =~= picks@);
    out
}

/// A chart a strategy runs or trades on.
#[derive(Debug)]
pub struct LegRef {
    pub security_id: i64,
    pub trading_symbol: String,
    pub segment: String,
    pub instrument: String,
}

/// The leg is that of a strategy.
pub open spec fn leg_of(l: LegRef, s: Strategy) -> bool {
    l.security_id == s.security_id && l.trading_symbol@ == s.trading_symbol@ && l.segment@
        == s.exchange_segment@ && l.instrument@ == s.instrument@
}

/// The charts of every strategy: where its conditions are read (`run`) and
/// where its orders execute (`trade`).
pub struct StratLegs {
    pub run: TextMap<LegRef>,
    pub trade: TextMap<LegRef>,
}

impl StratLegs {
    /// No charts.
    pub fn new() -> (r: Self)
        ensures
            r.run@ == Map::<Seq<char>, LegRef>::empty(),
            r.trade@ == Map::<Seq<char>, LegRef>::empty(),
    {
        StratLegs { run: TextMap::new(), trade: TextMap::new() }
    }

    /// Remembers the chart of a strategy; nothing without an id or instrument.
    pub fn record_strat_leg(&mut self, id: &str, trade: bool, s: &Strategy)
        ensures
            ({
                let kept = id@.len() == 0 || s.security_id <= 0;
                &&& kept || trade ==> final(self).run@ == old(self).run@
                &&& kept || !trade ==> final(self).trade@ == old(self).trade@
                &&& !kept && trade ==> final(self).trade@.contains_key(id@) && leg_of(
                    final(self).trade@[id@],
                    *s,
                ) && final(self).trade@ == old(self).trade@.insert(id@, final(self).trade@[id@])
                &&& !kept && !trade ==> final(self).run@.contains_key(id@) && leg_of(
                    final(self).run@[id@],
                    *s,
                ) && final(self).run@ == old(self).run@.insert(id@, final(self).run@[id@])
            }),
    {
        if text::chars_of(id).len() == 0 || s.security_id <= 0 {
            return ;
        }
        let l = LegRef {
            security_id: s.security_id,
            trading_symbol: s.trading_symbol.clone(),
            segment: s.exchange_segment.clone(),
            instrument: s.instrument.clone(),
        };
        if trade {
            self.trade.insert(id.to_owned(), l);
        } else {
            self.run.insert(id.to_owned(), l);
        }
    }
}

/// The sides asked of some instruments.
pub open spec fn asked(ids: Seq<i64>, bull: bool, bear: bool) -> Seq<(i64, bool)>
    decreases ids.len(),
{
    if ids.len() == 0 {
        Seq::empty()
    } else {
        let before = asked(ids.drop_last(), bull, bear);
        let one = if bull {
            before.push((ids.last(), true))
        } else {
            before
        };
        if bear {
            one.push((ids.last(), false))
        } else {
            one
        }
    }
}

fn push_asked(out: &mut Vec<(i64, bool)>, ids: &Vec<i64>, bull: bool, bear: bool)
    ensures
        final(out)@ == old(out)@ + asked(ids@, bull, bear),
{
    let ghost start = out@;
    let mut i: usize = 0;
    assert(ids@.take(0) =~= Seq::<i64>::empty());
    assert(start + Seq::<(i64, bool)>::empty() =~= start);
    while i < ids.len()
        invariant
            i <= ids.len(),
            out@ == start + asked(ids@.take(i as int), bull, bear),
        decreases ids.len() - i,
    {
        proof {
            assert(ids@.take(i + 1).drop_last() =~= ids@.take(i as int));
            assert(ids@.take(i + 1).last() == ids@[i as int]);
        }
        let ghost before = asked(ids@.take(i as int), bull, bear);
        if bull {
            out.push((ids[i], true));
        }
        if bear {
            out.push((ids[i], false));
        }
        assert(out@ =~= start + asked(ids@.take(i + 1), bull, bear));
        i += 1;
    }
    assert(ids@.take(i as int) =~= ids@);
}

/// The sides asked of the index-trend picks: an instrument with its side.
pub open spec fn asked_picks(picks: Seq<(i64, Seq<char>)>, bull: bool, bear: bool) -> Seq<(i64, bool)>
    decreases picks.len(),
{
    if picks.len() == 0 {
        Seq::empty()
    } else {
        let before = asked_picks(picks.drop_last(), bull, bear);
        let call = text::downs(picks.last().1) == "ce"@;
        if call && bull {
            before.push((picks.last().0, true))
        } else if !call && bear {
            before.push((picks.last().0, false))
        } else {
            before
        }
    }
}

fn push_asked_picks(out: &mut Vec<(i64, bool)>, picks: &Vec<(i64, String)>, bull: bool, bear: bool)
    ensures
        final(out)@ == old(out)@ + asked_picks(sides::pairs(picks@), bull, bear),
{
    let ghost start = out@;
    let ghost all = sides::pairs(picks@);
    let mut i: usize = 0;
    assert(all.take(0) =~= Seq::<(i64, Seq<char>)>::empty());
    assert(start + Seq::<(i64, bool)>::empty() =~= start);
    while i < picks.len()
        invariant
            i <= picks.len(),
            all == sides::pairs(picks@),
            out@ == start + asked_picks(all.take(i as int), bull, bear),
        decreases picks.len() - i,
    {
        proof {
            assert(all.take(i + 1).drop_last() =~= all.take(i as int));
            assert(all.take(i + 1).last() == all[i as int]);
        }
        let l = text::to_ascii_lower(picks[i].1.as_str());
        let call = text::same(l.as_str(), "ce");
        if call {
            if bull {
                out.push((picks[i].0, true));
            }
        } else if bear {
            out.push((picks[i].0, false));
        }
        assert(out@ =~= start + asked_picks(all.take(i + 1), bull, bear));
        i += 1;
    }
    assert(all.take(i as int) =~= all);
}

/// The commodities that are traded: the operator's choice, or all.
pub open spec fn chosen(ids: Seq<i64>, list: Seq<i64>) -> Seq<i64>
    decreases ids.len(),
{
    if ids.len() == 0 {
        Seq::empty()
    } else if list.len() == 0 || list.contains(ids.last()) {
        chosen(ids.drop_last(), list).push(ids.last())
    } else {
        chosen(ids.drop_last(), list)
    }
}

fn chosen_ids(ids: &Vec<i64>, list: &Vec<i64>) -> (r: Vec<i64>)
    ensures
        r@ == chosen(ids@, list@),
{
    let mut out: Vec<i64> = Vec::new();
    let mut i: usize = 0;
    assert(ids@.take(0) =~= Seq::<i64>::empty());
    while i < ids.len()
        invariant
            i <= ids.len(),
            out@ == chosen(ids@.take(i as int), list@),
        decreases ids.len() - i,
    {
        proof {
            assert(ids@.take(i + 1).drop_last() =~= ids@.take(i as int));
            assert(ids@.take(i + 1).last() == ids@[i as int]);
        }
        if list.len() == 0 || sides::has_id(list, ids[i]) {
            out.push(ids[i]);
        }
        i += 1;
    }
    assert(ids@.take(i as int) =~= ids@);
    out
}

/// What the scanners currently hold.
#[derive(Debug)]
pub struct ScanState {
    pub dirs: Dirs,
    /// Some line is assigned to the bullish side.
    pub bull_lines: bool,
    /// Some line is assigned to the bearish side.
    pub bear_lines: bool,
    pub commodities: Vec<i64>,
    pub gainers: Vec<i64>,
    pub losers: Vec<i64>,
    /// Index-trend picks: underlying and side.
    pub picks: Vec<(i64, String)>,
}

/// Some ticked filter of the side.
pub open spec fn side_ticked(items: Seq<(Seq<char>, bool)>, bull: bool) -> bool {
    exists|i: int| 0 <= i < items.len() && (#[trigger] items[i]).1 && gate::side_key(items[i].0, bull)
}

fn is_side_ticked(filters: &TextMap<bool>, bull: bool) -> (r: bool)
    ensures
        r == side_ticked(filters.items(), bull),
{
    let n: usize = filters.len();
    let mut i: usize = 0;
    while i < n
        invariant
            n == filters.items().len(),
            i <= n,
            forall|k: int|
                0 <= k < i ==> !((#[trigger] filters.items()[k]).1 && gate::side_key(
                    filters.items()[k].0,
                    bull,
                )),
        decreases n - i,
    {
        if *filters.value_at(i) {
            let k = filters.key_at(i);
            let hit = if bull {
                gate::filter_is_bull(k.as_str())
            } else {
                gate::filter_is_bear(k.as_str())
            };
            if hit {
                assert(filters.items()[i as int].1 && gate::side_key(
                    filters.items()[i as int].0,
                    bull,
                ));
                return true;
            }
        }
        i += 1;
    }
    false
}

/// The instruments and sides the scanners ask for, in order.
pub open spec fn wanted(s: Settings, st: ScanState) -> Seq<(i64, bool)> {
    let (bull, bear) = gate::allowed(
        side_ticked(s.filters.items(), true),
        side_ticked(s.filters.items(), false),
        sides::active(s, st.dirs),
    );
    let comm = if s.commodity_on {
        asked(chosen(st.commodities@, s.commodity_list@), bull, bear)
    } else {
        Seq::empty()
    };
    let movers = if s.movers_on {
        asked(st.gainers@, bull, false) + asked(st.losers@, false, bear) + asked(
            s.movers_indices@,
            bull,
            bear,
        )
    } else {
        Seq::empty()
    };
    let trend = if s.nifty_trend_on {
        asked_picks(sides::pairs(st.picks@), st.bull_lines, st.bear_lines)
    } else {
        Seq::empty()
    };
    comm + movers + trend
}

/// The request at `i` yields a strategy: a known instrument asked for the first
/// time on this side.
pub open spec fn yields(w: Seq<(i64, bool)>, m: Seq<SymbolMeta>, i: int) -> bool {
    &&& w[i].0 > 0
    &&& meta_place(m, w[i].0, 0) < m.len()
    &&& forall|j: int| 0 <= j < i ==> #[trigger] w[j] != w[i]
}

/// The requests among the first `n` that yield a strategy.
pub open spec fn targets(w: Seq<(i64, bool)>, m: Seq<SymbolMeta>, n: int) -> Seq<(i64, bool)>
    decreases n,
{
    if n <= 0 {
        Seq::empty()
    } else if yields(w, m, n - 1) {
        targets(w, m, n - 1).push(w[n - 1])
    } else {
        targets(w, m, n - 1)
    }
}

/// The strategy built for an instrument and a side.
pub open spec fn is_target(t: Strategy, bull: bool, m: SymbolMeta) -> bool {
    &&& t.id@ == "scan:"@ + text::int_dec(m.security_id as int) + (if bull {
        ":CE"@
    } else {
        ":PE"@
    })
    &&& t.name@ == m.name@ + (if bull {
        " [scan bullish]"@
    } else {
        " [scan bearish]"@
    })
    &&& t.category@ == if bull {
        "BULLISH"@
    } else {
        "BEARISH"@
    }
    &&& t.timeframe@.len() == 0
    &&& t.security_id == m.security_id
    &&& t.exchange_segment@ == m.segment@
    &&& t.instrument@ == m.instrument@
    &&& t.trading_symbol@ == m.name@
    &&& t.side@ == "BUY"@
    &&& t.enabled
    &&& t.last_signal == 0
    &&& t.last_error@.len() == 0
    &&& t.synthetic
    &&& t.lot == m.lot
    &&& t.group@.len() == 0
    &&& !t.manual
}

fn build_target(m: &SymbolMeta, bull: bool) -> (r: Strategy)
    ensures
        is_target(r, bull, *m),
{
    let mut id = "scan:".to_owned();
    text::push_int(&mut id, m.security_id);
    text::push_text(
        &mut id,
        if bull {
            ":CE"
        } else {
            ":PE"
        },
    );
    let name = text::concat(
        m.name.as_str(),
        if bull {
            " [scan bullish]"
        } else {
            " [scan bearish]"
        },
    );
    proof {
        reveal_strlit("");
    }
    Strategy {
        id,
        name,
        category: if bull {
            "BULLISH".to_owned()
        } else {
            "BEARISH".to_owned()
        },
        timeframe: "".to_owned(),
        security_id: m.security_id,
        exchange_segment: m.segment.clone(),
        instrument: m.instrument.clone(),
        trading_symbol: m.name.clone(),
        side: "BUY".to_owned(),
        enabled: true,
        last_signal: 0,
        last_error: "".to_owned(),
        synthetic: true,
        lot: m.lot,
        group: "".to_owned(),
        manual: false,
    }
}

fn asked_before(w: &Vec<(i64, bool)>, i: usize) -> (r: bool)
    requires
        i < w@.len(),
    ensures
        r == !(forall|j: int| 0 <= j < i ==> #[trigger] w@[j] != w@[i as int]),
{
    let mut j: usize = 0;
    while j < i
        invariant
            j <= i < w@.len(),
            forall|k: int| 0 <= k < j ==> #[trigger] w@[k] != w@[i as int],
        decreases i - j,
    {
        if w[j].0 == w[i].0 && w[j].1 == w[i].1 {
            assert(w@[j as int] == w@[i as int]);
            return true;
        }
        j += 1;
    }
    false
}

/// The strategies built from what the scanners hold: one for every instrument
/// and side they ask for.
pub fn scanner_targets(settings: &Settings, st: &ScanState, metas: &Vec<SymbolMeta>) -> (r: Vec<Strategy>)
    ensures
        ({
            let w = wanted(*settings, *st);
            let t = targets(w, metas@, w.len() as int);
            &&& r@.len() == t.len()
            &&& forall|i: int|
                0 <= i < t.len() ==> is_target(
                    #[trigger] r@[i],
                    t[i].1,
                    metas@[meta_place(metas@, t[i].0, 0)],
                )
        }),
{
    let bull_side = is_side_ticked(&settings.filters, true);
    let bear_side = is_side_ticked(&settings.filters, false);
    let active = sides::active_side(settings, st.dirs);
    let (bull, bear) = gate::side_allowed(bull_side, bear_side, active);
    let mut w: Vec<(i64, bool)> = Vec::new();
    let ghost none = Seq::<(i64, bool)>::empty();
    if settings.commodity_on {
        let list = chosen_ids(&st.commodities, &settings.commodity_list);
        push_asked(&mut w, &list, bull, bear);
    }
    let ghost comm = w@;
    proof {
        if settings.commodity_on {
            assert(comm =~= asked(chosen(st.commodities@, settings.commodity_list@), bull, bear));
        }
    }
    if settings.movers_on {
        push_asked(&mut w, &st.gainers, bull, false);
        push_asked(&mut w, &st.losers, false, bear);
        push_asked(&mut w, &settings.movers_indices, bull, bear);
    }
    let ghost two = w@;
    if settings.nifty_trend_on {
        push_asked_picks(&mut w, &st.picks, st.bull_lines, st.bear_lines);
    }
    proof {
        let movers = if settings.movers_on {
            asked(st.gainers@, bull, false) + asked(st.losers@, false, bear) + asked(
                settings.movers_indices@,
                bull,
                bear,
            )
        } else {
            none
        };
        assert(two =~= comm + movers);
        assert(w@ =~= wanted(*settings, *st));
    }
    let mut out: Vec<Strategy> = Vec::new();
    let mut i: usize = 0;
    while i < w.len()
        invariant
            i <= w.len(),
            out@.len() == targets(w@, metas@, i as int).len(),
            forall|k: int|
                0 <= k < out@.len() ==> is_target(
                    #[trigger] out@[k],
                    targets(w@, metas@, i as int)[k].1,
                    metas@[meta_place(metas@, targets(w@, metas@, i as int)[k].0, 0)],
                ),
        decreases w.len() - i,
    {
        if w[i].0 > 0 && !asked_before(&w, i) {
            if let Some(at) = find_meta(metas, w[i].0) {
                out.push(build_target(&metas[at], w[i].1));
            }
        }
        i += 1;
    }
    out
}

proof fn lemma_targets_from(w: Seq<(i64, bool)>, m: Seq<SymbolMeta>, n: int)
    requires
        0 <= n <= w.len(),
    ensures
        forall|a: int|
            0 <= a < targets(w, m, n).len() ==> exists|j: int|
                0 <= j < n && w[j] == #[trigger] targets(w, m, n)[a],
        forall|a: int, b: int|
            0 <= a < b < targets(w, m, n).len() ==> #[trigger] targets(w, m, n)[a]
                != #[trigger] targets(w, m, n)[b],
    decreases n,
{
    if n > 0 {
        lemma_targets_from(w, m, n - 1);
        let was = targets(w, m, n - 1);
        let now = targets(w, m, n);
        assert forall|a: int| 0 <= a < now.len() implies exists|j: int|
            0 <= j < n && w[j] == #[trigger] now[a] by {
            if a < was.len() {
                assert(now[a] == was[a]);
                let j = choose|j: int| 0 <= j < n - 1 && w[j] == was[a];
                assert(w[j] == now[a]);
            } else {
                assert(w[n - 1] == now[a]);
            }
        }
        assert forall|a: int, b: int| 0 <= a < b < now.len() implies #[trigger] now[a]
            != #[trigger] now[b] by {
            assert(now[a] == was[a]);
            if b < was.len() {
                assert(now[b] == was[b]);
            } else {
                let j = choose|j: int| 0 <= j < n - 1 && w[j] == was[a];
                assert(w[j] != w[n - 1]);
            }
        }
    }
}

/// No instrument is built twice on one side.
pub proof fn law_targets_are_distinct(w: Seq<(i64, bool)>, m: Seq<SymbolMeta>, a: int, b: int)
    requires
        0 <= a < b < targets(w, m, w.len() as int).len(),
    ensures
        targets(w, m, w.len() as int)[a] != targets(w, m, w.len() as int)[b],
{
    lemma_targets_from(w, m, w.len() as int);
}

/// Without a ticked filter on a side and without index-trend lines the scanners
/// build nothing.
pub proof fn law_no_filters_no_targets(s: Settings, st: ScanState)
    requires
        !side_ticked(s.filters.items(), true),
        !side_ticked(s.filters.items(), false),
        !st.bull_lines,
        !st.bear_lines,
    ensures
        wanted(s, st).len() == 0,
{
    lemma_asked_none(chosen(st.commodities@, s.commodity_list@));
    lemma_asked_none(st.gainers@);
    lemma_asked_none(st.losers@);
    lemma_asked_none(s.movers_indices@);
    lemma_picks_none(sides::pairs(st.picks@));
}

proof fn lemma_asked_none(ids: Seq<i64>)
    ensures
        asked(ids, false, false).len() == 0,
    decreases ids.len(),
{
    if ids.len() > 0 {
        lemma_asked_none(ids.drop_last());
    }
}

proof fn lemma_picks_none(picks: Seq<(i64, Seq<char>)>)
    ensures
        asked_picks(picks, false, false).len() == 0,
    decreases picks.len(),
{
    if picks.len() > 0 {
        lemma_picks_none(picks.drop_last());
    }
}

/// Rows are counted by the sign of their change: above zero, below zero, or not below
/// zero; what is not a number counts as none of them.
pub proof fn law_changes_count_by_sign(changes: Seq<Num>, at: Seq<usize>, p: usize)
    ensures
        ({
            let c = changes[p as int];
            let more = at.push(p);
            &&& sign_count(changes, more, 1) - sign_count(changes, at, 1) == if !c.nan && c.key > 0 {
                1int
            } else {
                0int
            }
            &&& sign_count(changes, more, -1) - sign_count(changes, at, -1) == if !c.nan && c.key
                < 0 {
                1int
            } else {
                0int
            }
            &&& sign_count(changes, more, 0) - sign_count(changes, at, 0) == if !c.nan && c.key >= 0 {
                1int
            } else {
                0int
            }
            &&& sign_count(changes, Seq::empty(), 1) == 0
        }),
{
    assert(at.push(p).drop_last() =~= at);
}

/// A request asks for the known instruments of its segment, in order.
pub proof fn law_requests_by_segment(rows: Seq<(i64, Seq<char>)>, row: (i64, Seq<char>), seg: Seq<char>)
    ensures
        in_group(rows.push(row), seg) == in_group(rows, seg) + if row.0 > 0 && row.1 == seg {
            seq![row.0]
        } else {
            Seq::empty()
        },
        in_group(Seq::empty(), seg).len() == 0,
{
    assert(rows.push(row).drop_last() =~= rows);
    let was = in_group(rows, seg);
    assert(was + seq![row.0] =~= was.push(row.0));
    assert(was + Seq::<i64>::empty() =~= was);
}

/// What is known of an instrument is its first entry.
pub proof fn law_first_entry_counts(m: Seq<SymbolMeta>, sid: i64, i: int)
    requires
        0 <= i <= m.len(),
    ensures
        i <= meta_place(m, sid, i) <= m.len(),
        meta_place(m, sid, i) < m.len() ==> m[meta_place(m, sid, i)].security_id == sid,
        forall|k: int| i <= k < meta_place(m, sid, i) ==> (#[trigger] m[k]).security_id != sid,
    decreases m.len() - i,
{
    if i < m.len() && m[i].security_id != sid {
        law_first_entry_counts(m, sid, i + 1);
    }
}

/// The picks of other sources stay, in order, and those of the source go.
pub proof fn law_update_drops_its_own(v: Seq<Pick>, p: Pick, source: Seq<char>)
    ensures
        of_others(v.push(p), source) == of_others(v, source) + if p.source@ == source {
            Seq::empty()
        } else {
            seq![p]
        },
        of_others(Seq::empty(), source).len() == 0,
{
    assert(v.push(p).drop_last() =~= v);
    let was = of_others(v, source);
    assert(was + seq![p] =~= was.push(p));
    assert(was + Seq::<Pick>::empty() =~= was);
}

/// Every instrument is asked for on the sides that are open, calls before puts.
pub proof fn law_asked_on_open_sides(ids: Seq<i64>, id: i64, bull: bool, bear: bool)
    ensures
        asked(ids.push(id), bull, bear) == asked(ids, bull, bear) + (if bull {
            seq![(id, true)]
        } else {
            Seq::empty()
        }) + (if bear {
            seq![(id, false)]
        } else {
            Seq::empty()
        }),
        asked(Seq::empty(), bull, bear).len() == 0,
{
    assert(ids.push(id).drop_last() =~= ids);
    let was = asked(ids, bull, bear);
    let calls = if bull {
        seq![(id, true)]
    } else {
        Seq::empty()
    };
    let puts = if bear {
        seq![(id, false)]
    } else {
        Seq::empty()
    };
    assert(asked(ids.push(id), bull, bear) =~= was + calls + puts);
}

/// A pick is asked for on its own side alone, where that side has its lines.
pub proof fn law_picks_keep_their_side(
    picks: Seq<(i64, Seq<char>)>,
    pick: (i64, Seq<char>),
    bull: bool,
    bear: bool,
)
    ensures
        asked_picks(picks.push(pick), bull, bear) == asked_picks(picks, bull, bear) + if text::downs(
            pick.1,
        ) == "ce"@ {
            if bull {
                seq![(pick.0, true)]
            } else {
                Seq::empty()
            }
        } else {
            if bear {
                seq![(pick.0, false)]
            } else {
                Seq::empty()
            }
        },
        asked_picks(Seq::empty(), bull, bear).len() == 0,
{
    assert(picks.push(pick).drop_last() =~= picks);
    let was = asked_picks(picks, bull, bear);
    assert(was + seq![(pick.0, true)] =~= was.push((pick.0, true)));
    assert(was + seq![(pick.0, false)] =~= was.push((pick.0, false)));
    assert(was + Seq::<(i64, bool)>::empty() =~= was);
}

/// The commodities that are traded: those of the operator's list, or all where it is
/// empty, in order.
pub proof fn law_chosen_commodities(ids: Seq<i64>, id: i64, list: Seq<i64>)
    ensures
        chosen(ids.push(id), list) == chosen(ids, list) + if list.len() == 0 || exists|k: int|
            0 <= k < list.len() && #[trigger] list[k] == id {
            seq![id]
        } else {
            Seq::empty()
        },
        chosen(Seq::empty(), list).len() == 0,
{
    assert(ids.push(id).drop_last() =~= ids);
    let was = chosen(ids, list);
    assert(was + seq![id] =~= was.push(id));
    assert(was + Seq::<i64>::empty() =~= was);
}

/// What the scanners ask for: commodities, then gainers for calls, losers for puts and the
/// movers' indices for both, then the index-trend picks; each while its scanner is on, and
/// a side only while it has a ticked filter and the engine is not committed to the other.
pub proof fn law_what_the_scanners_want(s: Settings, st: ScanState)
    ensures
        ({
            let a = sides::active(s, st.dirs);
            let bull = side_ticked(s.filters.items(), true) && (a is None || a == Some("CE"@));
            let bear = side_ticked(s.filters.items(), false) && (a is None || a == Some("PE"@));
            let comm = asked(chosen(st.commodities@, s.commodity_list@), bull, bear);
            let movers = asked(st.gainers@, bull, false) + asked(st.losers@, false, bear) + asked(
                s.movers_indices@,
                bull,
                bear,
            );
            let trend = asked_picks(sides::pairs(st.picks@), st.bull_lines, st.bear_lines);
            let w = wanted(s, st);
            &&& s.commodity_on && !s.movers_on && !s.nifty_trend_on ==> w == comm
            &&& !s.commodity_on && s.movers_on && !s.nifty_trend_on ==> w == movers
            &&& !s.commodity_on && !s.movers_on && s.nifty_trend_on ==> w == trend
            &&& s.commodity_on && s.movers_on && s.nifty_trend_on ==> w == comm + movers + trend
            &&& s.commodity_on && s.movers_on && !s.nifty_trend_on ==> w == comm + movers
            &&& s.commodity_on && !s.movers_on && s.nifty_trend_on ==> w == comm + trend
            &&& !s.commodity_on && s.movers_on && s.nifty_trend_on ==> w == movers + trend
            &&& !s.commodity_on && !s.movers_on && !s.nifty_trend_on ==> w.len() == 0
        }),
{
    let none = Seq::<(i64, bool)>::empty();
    let a = sides::active(s, st.dirs);
    let bull = side_ticked(s.filters.items(), true) && (a is None || a == Some("CE"@));
    let bear = side_ticked(s.filters.items(), false) && (a is None || a == Some("PE"@));
    let comm = asked(chosen(st.commodities@, s.commodity_list@), bull, bear);
    let movers = asked(st.gainers@, bull, false) + asked(st.losers@, false, bear) + asked(
        s.movers_indices@,
        bull,
        bear,
    );
    let trend = asked_picks(sides::pairs(st.picks@), st.bull_lines, st.bear_lines);
    assert(comm + none + none =~= comm);
    assert(none + movers + none =~= movers);
    assert(none + none + trend =~= trend);
    assert(comm + movers + none =~= comm + movers);
    assert(comm + none + trend =~= comm + trend);
    assert(none + movers + trend =~= movers + trend);
    assert(none + none + none =~= none);
}

/// A request builds a strategy exactly where its instrument is known, by number and by
/// name, and was not asked for on this side before.
pub proof fn law_requests_that_build(w: Seq<(i64, bool)>, m: Seq<SymbolMeta>, n: int)
    requires
        0 < n <= w.len(),
    ensures
        targets(w, m, n) == targets(w, m, n - 1) + if w[n - 1].0 > 0 && (exists|k: int|
            0 <= k < m.len() && (#[trigger] m[k]).security_id == w[n - 1].0) && (forall|j: int|
            0 <= j < n - 1 ==> #[trigger] w[j] != w[n - 1]) {
            seq![w[n - 1]]
        } else {
            Seq::empty()
        },
{
    law_first_entry_counts(m, w[n - 1].0, 0);
    let was = targets(w, m, n - 1);
    let known = exists|k: int| 0 <= k < m.len() && (#[trigger] m[k]).security_id == w[n - 1].0;
    let at = meta_place(m, w[n - 1].0, 0);
    if at < m.len() {
        assert(m[at].security_id == w[n - 1].0);
    }
    assert(known == (at < m.len()));
    assert(was + seq![w[n - 1]] =~= was.push(w[n - 1]));
    assert(was + Seq::<(i64, bool)>::empty() =~= was);
}

/// A pick trades puts exactly where it is asked to, in any letters.
pub proof fn law_pick_sides(side: Seq<char>)
    ensures
        text::downs(side) == "pe"@ ==> pick_side_text(side) == "PE"@,
        text::downs(side) != "pe"@ ==> pick_side_text(side) == "CE"@,
{
}

/// The picked names are the underlyings in capitals, in order, without the empty ones.
pub proof fn law_picked_names(v: Seq<Pick>, p: Pick)
    ensures
        picked_names(v.push(p)) == picked_names(v) + if text::upper_text(p.underlying@).len() > 0 {
            seq![text::upper_text(p.underlying@)]
        } else {
            Seq::empty()
        },
        picked_names(Seq::empty()).len() == 0,
{
    assert(v.push(p).drop_last() =~= v);
    let was = picked_names(v);
    assert(was + seq![text::upper_text(p.underlying@)] =~= was.push(
        text::upper_text(p.underlying@),
    ));
    assert(was + Seq::<Seq<char>>::empty() =~= was);
}

/// A scanner acts at most every fifteen seconds: switched off it clears what it found, else
/// it scans where there is a connection. The index trend also needs a line to scan for.
pub proof fn law_scanners_act_every_fifteen_seconds(last: int, now: int, connected: bool, lines: bool)
    ensures
        now < last + 15 * 1000 ==> movers_action(last, now, true, connected) == ScannerStep::Wait
            && movers_action(last, now, false, connected) == ScannerStep::Wait,
        now >= last + 15 * 1000 ==> movers_action(last, now, false, connected)
            == ScannerStep::Clear,
        now >= last + 15 * 1000 ==> movers_action(last, now, true, true) == ScannerStep::Scan,
        movers_action(last, now, true, false) == ScannerStep::Wait,
        now < last + 15 * 1000 ==> trend_action(last, now, true, connected, lines)
            == ScannerStep::Wait,
        now >= last + 15 * 1000 ==> trend_action(last, now, false, connected, lines)
            == ScannerStep::Clear,
        now >= last + 15 * 1000 ==> trend_action(last, now, true, true, true) == ScannerStep::Scan,
        now >= last + 15 * 1000 ==> trend_action(last, now, true, true, false)
            == ScannerStep::Clear,
        trend_action(last, now, true, false, lines) == ScannerStep::Wait,
{
}

/// The sign of a number carries its direction and nothing of its size.
pub proof fn law_signs(n: int)
    ensures
        n > 0 ==> sign(n) == 1,
        n < 0 ==> sign(n) == -1,
        n == 0 ==> sign(n) == 0,
        sign(-n) == -sign(n),
{
}

/// A strategy built by a scanner buys the option of its side on the instrument it was built
/// for, at that instrument's lot, and is told apart from hand-made ones.
pub proof fn law_built_strategies(t: Strategy, bull: bool, m: SymbolMeta)
    requires
        is_target(t, bull, m),
    ensures
        t.security_id == m.security_id,
        t.exchange_segment@ == m.segment@,
        t.instrument@ == m.instrument@,
        t.trading_symbol@ == m.name@,
        t.lot == m.lot,
        t.side@ == "BUY"@,
        t.enabled && t.synthetic && !t.manual,
        t.timeframe@.len() == 0 && t.group@.len() == 0 && t.last_error@.len() == 0,
        t.last_signal == 0,
        bull ==> t.category@ == "BULLISH"@ && t.id@ == "scan:"@ + text::int_dec(
            m.security_id as int,
        ) + ":CE"@,
        !bull ==> t.category@ == "BEARISH"@ && t.id@ == "scan:"@ + text::int_dec(
            m.security_id as int,
        ) + ":PE"@,
        bull ==> t.name@ == m.name@ + " [scan bullish]"@,
        !bull ==> t.name@ == m.name@ + " [scan bearish]"@,
{
}

/// The strategy behind a pick buys on the instrument picked, calls as a bull and puts as a
/// bear.
pub proof fn law_pick_strategies(r: Strategy, m: SymbolMeta, side: Seq<char>, zero: Num)
    requires
        is_pick_base(r, m, side, zero),
    ensures
        r.security_id == m.security_id,
        r.exchange_segment@ == m.segment@,
        r.instrument@ == m.instrument@,
        r.trading_symbol@ == m.name@,
        r.side@ == "BUY"@,
        r.enabled && r.synthetic && !r.manual,
        r.lot == zero && r.last_signal == 0,
        r.timeframe@.len() == 0 && r.group@.len() == 0 && r.last_error@.len() == 0,
        text::downs(side) == "pe"@ ==> r.category@ == "BEARISH"@ && r.name@ == m.name@ + " ["@
            + "PE"@ + "]"@,
        text::downs(side) != "pe"@ ==> r.category@ == "BULLISH"@ && r.name@ == m.name@ + " ["@
            + "CE"@ + "]"@,
{
    reveal_strlit("CE");
    reveal_strlit("PE");
    assert("CE"@[0] == 'C' && "PE"@[0] == 'P');
}

} // verus!
