//! How a rule judges the readings it asked for.

use vstd::prelude::*;
use crate::num::Num;
use crate::rules;
use crate::rules::{Curve, Reading, Rule, Setup, Study};

verus! {

/// A curve `back` bars ago.
pub open spec fn val(curve: Curve, back: usize) -> Reading {
    Reading::Value { curve, back }
}

/// One output line of a study on its own defaults.
pub open spec fn out(study: Study, line: usize) -> Curve {
    Curve::Line { study, setup: Setup::Plain, line }
}

/// Pane readings for a cross: main now, main before, signal now, signal before
/// of each pair in turn.
pub open spec fn pane_cross_reads() -> Seq<Reading> {
    Seq::new(
        4 * rules::pane_pairs().len(),
        |i: int|
            {
                let p = rules::pane_pairs()[i / 4];
                val(
                    out(
                        p.0,
                        if i % 4 < 2 {
                            p.1
                        } else {
                            p.2
                        },
                    ),
                    (i % 2) as usize,
                )
            },
    )
}

/// Pane readings for a level: main and signal of each pair in turn.
pub open spec fn pane_level_reads() -> Seq<Reading> {
    Seq::new(
        2 * rules::pane_pairs().len(),
        |i: int|
            {
                let p = rules::pane_pairs()[i / 2];
                val(
                    out(
                        p.0,
                        if i % 2 == 0 {
                            p.1
                        } else {
                            p.2
                        },
                    ),
                    0,
                )
            },
    )
}

/// The readings a rule asks for, in the order it judges them. Of a walk over
/// every pane line these are the lines of the pairs, now and before; the lines
/// of the single studies follow in the same form, as many as each study draws.
pub open spec fn reads(rule: Rule) -> Seq<Reading> {
    match rule {
        Rule::Unknown => seq![],
        Rule::Pass => seq![],
        Rule::CloseMove { .. } => seq![val(Curve::Close, 0), val(Curve::Close, 1)],
        Rule::EmaStack { .. } => seq![
            val(rules::average(9), 0),
            val(rules::average(21), 0),
            val(rules::average(35), 0),
        ],
        Rule::Gap { up } => if up {
            seq![Reading::Open { back: 0 }, Reading::High { back: 1 }]
        } else {
            seq![Reading::Open { back: 0 }, Reading::Low { back: 1 }]
        },
        Rule::PaneCross { .. } => pane_cross_reads(),
        Rule::PaneAll { .. } => pane_cross_reads(),
        Rule::PaneLevel { .. } => pane_level_reads(),
        Rule::AutoSupport { bull } => seq![Reading::GapWidens { bull }],
        Rule::Level { a, b, .. } => seq![val(a, 0), val(b, 0)],
        Rule::Cross { a, b, .. } => seq![val(a, 0), val(a, 1), val(b, 0), val(b, 1)],
        Rule::CrossDir { b, mid, .. } => seq![
            val(Curve::Close, 0),
            val(Curve::Close, 1),
            val(b, 0),
            val(b, 1),
            val(mid, 0),
            val(mid, 1),
        ],
        Rule::Dir { curve, .. } => seq![val(curve, 0), val(curve, 1)],
        Rule::Turn { curve, .. } => seq![val(curve, 0), val(curve, 1), val(curve, 2)],
        Rule::Vote { .. } => seq![Reading::Vote { back: 0 }],
        Rule::VoteTurn { .. } => seq![Reading::Vote { back: 0 }, Reading::Vote { back: 1 }],
        Rule::Swing { bull } => seq![Reading::Swing { bull }],
        Rule::Signal { study, smooth, .. } => seq![
            Reading::Raw { study },
            Reading::Signal { study, smooth },
        ],
        Rule::Hold { study, setup, .. } => seq![
            val(Curve::Line { study, setup, line: 0 }, 0),
            val(Curve::Line { study, setup, line: 1 }, 0),
            val(Curve::Line { study, setup, line: 0 }, 1),
            val(Curve::Line { study, setup, line: 1 }, 1),
            Reading::Lead { study, setup, back: 0 },
            Reading::Lead { study, setup, back: 1 },
        ],
        Rule::ErgodicHold { .. } => seq![
            val(out(Study::Smiio, 0), 0),
            val(out(Study::Smiio, 1), 0),
            val(out(Study::Smiio, 2), 0),
            val(out(Study::Smiio, 0), 1),
            val(out(Study::Smiio, 1), 1),
            val(out(Study::Smiio, 2), 1),
        ],
        Rule::VortexHold { .. } => seq![
            val(out(Study::Vortex, 0), 0),
            val(out(Study::Vortex, 1), 0),
            val(out(Study::Vortex, 0), 1),
            val(out(Study::Vortex, 1), 1),
        ],
        Rule::AdxHold { .. } => seq![
            val(out(Study::Adx, 0), 0),
            val(out(Study::Adx, 1), 0),
            val(out(Study::Adx, 2), 0),
            val(out(Study::Adx, 0), 1),
            val(out(Study::Adx, 1), 1),
            val(out(Study::Adx, 2), 1),
            Reading::Spread { back: 0 },
            Reading::Spread { back: 1 },
        ],
    }
}

fn at(curve: Curve, back: usize) -> (r: Reading)
    ensures
        r == val(curve, back),
{
    Reading::Value { curve, back }
}

fn line(study: Study, n: usize) -> (r: Curve)
    ensures
        r == out(study, n),
{
    Curve::Line { study, setup: Setup::Plain, line: n }
}

fn pane_cross_list() -> (r: Vec<Reading>)
    ensures
        r@ == pane_cross_reads(),
{
    let pairs = rules::pane_pair_list();
    let mut v: Vec<Reading> = Vec::new();
    let mut k: usize = 0;
    while k < pairs.len()
        invariant
            pairs@ == rules::pane_pairs(),
            k <= pairs.len(),
            pairs.len() == 7,
            v@ == pane_cross_reads().take(4 * k as int),
        decreases pairs.len() - k,
    {
        let (s, a, b) = pairs[k];
        let ghost was = v@;
        v.push(at(line(s, a), 0));
        v.push(at(line(s, a), 1));
        v.push(at(line(s, b), 0));
        v.push(at(line(s, b), 1));
        proof {
            let f = pane_cross_reads();
            assert(f.take(4 * (k + 1)) =~= f.take(4 * k as int).push(f[4 * k as int]).push(
                f[4 * k + 1],
            ).push(f[4 * k + 2]).push(f[4 * k + 3]));
        }
        k += 1;
    }
    proof {
        assert(pane_cross_reads().take(28) =~= pane_cross_reads());
    }
    v
}

fn pane_level_list() -> (r: Vec<Reading>)
    ensures
        r@ == pane_level_reads(),
{
    let pairs = rules::pane_pair_list();
    let mut v: Vec<Reading> = Vec::new();
    let mut k: usize = 0;
    while k < pairs.len()
        invariant
            pairs@ == rules::pane_pairs(),
            k <= pairs.len(),
            pairs.len() == 7,
            v@ == pane_level_reads().take(2 * k as int),
        decreases pairs.len() - k,
    {
        let (s, a, b) = pairs[k];
        v.push(at(line(s, a), 0));
        v.push(at(line(s, b), 0));
        proof {
            let f = pane_level_reads();
            assert(f.take(2 * (k + 1)) =~= f.take(2 * k as int).push(f[2 * k as int]).push(
                f[2 * k + 1],
            ));
        }
        k += 1;
    }
    proof {
        assert(pane_level_reads().take(14) =~= pane_level_reads());
    }
    v
}

/// The readings a rule asks for.
pub fn readings_of(rule: Rule) -> (r: Vec<Reading>)
    ensures
        r@ == reads(rule),
{
    match rule {
        Rule::Unknown => vec![],
        Rule::Pass => vec![],
        Rule::CloseMove { .. } => vec![at(Curve::Close, 0), at(Curve::Close, 1)],
        Rule::EmaStack { .. } => vec![
            at(rules::ema_curve(9), 0),
            at(rules::ema_curve(21), 0),
            at(rules::ema_curve(35), 0),
        ],
        Rule::Gap { up } => if up {
            vec![Reading::Open { back: 0 }, Reading::High { back: 1 }]
        } else {
            vec![Reading::Open { back: 0 }, Reading::Low { back: 1 }]
        },
        Rule::PaneCross { .. } => pane_cross_list(),
        Rule::PaneAll { .. } => pane_cross_list(),
        Rule::PaneLevel { .. } => pane_level_list(),
        Rule::AutoSupport { bull } => vec![Reading::GapWidens { bull }],
        Rule::Level { a, b, .. } => vec![at(a, 0), at(b, 0)],
        Rule::Cross { a, b, .. } => vec![at(a, 0), at(a, 1), at(b, 0), at(b, 1)],
        Rule::CrossDir { b, mid, .. } => vec![
            at(Curve::Close, 0),
            at(Curve::Close, 1),
            at(b, 0),
            at(b, 1),
            at(mid, 0),
            at(mid, 1),
        ],
        Rule::Dir { curve, .. } => vec![at(curve, 0), at(curve, 1)],
        Rule::Turn { curve, .. } => vec![at(curve, 0), at(curve, 1), at(curve, 2)],
        Rule::Vote { .. } => vec![Reading::Vote { back: 0 }],
        Rule::VoteTurn { .. } => vec![Reading::Vote { back: 0 }, Reading::Vote { back: 1 }],
        Rule::Swing { bull } => vec![Reading::Swing { bull }],
        Rule::Signal { study, smooth, .. } => vec![
            Reading::Raw { study },
            Reading::Signal { study, smooth },
        ],
        Rule::Hold { study, setup, .. } => vec![
            at(Curve::Line { study, setup, line: 0 }, 0),
            at(Curve::Line { study, setup, line: 1 }, 0),
            at(Curve::Line { study, setup, line: 0 }, 1),
            at(Curve::Line { study, setup, line: 1 }, 1),
            Reading::Lead { study, setup, back: 0 },
            Reading::Lead { study, setup, back: 1 },
        ],
        Rule::ErgodicHold { .. } => vec![
            at(line(Study::Smiio, 0), 0),
            at(line(Study::Smiio, 1), 0),
            at(line(Study::Smiio, 2), 0),
            at(line(Study::Smiio, 0), 1),
            at(line(Study::Smiio, 1), 1),
            at(line(Study::Smiio, 2), 1),
        ],
        Rule::VortexHold { .. } => vec![
            at(line(Study::Vortex, 0), 0),
            at(line(Study::Vortex, 1), 0),
            at(line(Study::Vortex, 0), 1),
            at(line(Study::Vortex, 1), 1),
        ],
        Rule::AdxHold { .. } => vec![
            at(line(Study::Adx, 0), 0),
            at(line(Study::Adx, 1), 0),
            at(line(Study::Adx, 2), 0),
            at(line(Study::Adx, 0), 1),
            at(line(Study::Adx, 1), 1),
            at(line(Study::Adx, 2), 1),
            Reading::Spread { back: 0 },
            Reading::Spread { back: 1 },
        ],
    }
}

/// `a` stands over `b` (bull) or under it; nothing is known where either is missing.
pub open spec fn level(bull: bool, a: Option<Num>, b: Option<Num>) -> Option<bool> {
    match (a, b) {
        (Some(x), Some(y)) => Some(
            if bull {
                x.above(y)
            } else {
                y.above(x)
            },
        ),
        _ => None,
    }
}

/// Whether `a` stands over `b` (bull) or under it.
pub fn level_of(bull: bool, a: Option<Num>, b: Option<Num>) -> (r: Option<bool>)
    ensures
        r == level(bull, a, b),
{
    match (a, b) {
        (Some(x), Some(y)) => Some(
            if bull {
                x.gt(&y)
            } else {
                x.lt(&y)
            },
        ),
        _ => None,
    }
}

/// `a` crossed `b` on this bar: not beyond it before, beyond it now.
pub open spec fn crossed(
    up: bool,
    a0: Option<Num>,
    a1: Option<Num>,
    b0: Option<Num>,
    b1: Option<Num>,
) -> Option<bool> {
    match (a0, a1, b0, b1) {
        (Some(x0), Some(x1), Some(y0), Some(y1)) => Some(
            if up {
                y1.not_below(x1) && x0.above(y0)
            } else {
                x1.not_below(y1) && y0.above(x0)
            },
        ),
        _ => None,
    }
}

/// Whether `a` crossed `b` on this bar.
pub fn crossed_of(
    up: bool,
    a0: Option<Num>,
    a1: Option<Num>,
    b0: Option<Num>,
    b1: Option<Num>,
) -> (r: Option<bool>)
    ensures
        r == crossed(up, a0, a1, b0, b1),
{
    match (a0, a1, b0, b1) {
        (Some(x0), Some(x1), Some(y0), Some(y1)) => Some(
            if up {
                x1.le(&y1) && x0.gt(&y0)
            } else {
                x1.ge(&y1) && x0.lt(&y0)
            },
        ),
        _ => None,
    }
}

/// The curve moves to the side now and did not before; an undrawn curve passes.
pub open spec fn turned(
    bull: bool,
    a0: Option<Num>,
    a1: Option<Num>,
    a2: Option<Num>,
) -> Option<bool> {
    match level(bull, a0, a1) {
        Some(now) => Some(now && level(bull, a1, a2) != Some(true)),
        None => Some(true),
    }
}

/// Whether the curve turned to the side on this bar.
pub fn arrow_flip(bull: bool, a0: Option<Num>, a1: Option<Num>, a2: Option<Num>) -> (r: Option<
    bool,
>)
    ensures
        r == turned(bull, a0, a1, a2),
{
    match level_of(bull, a0, a1) {
        Some(now) => {
            let before = match level_of(bull, a1, a2) {
                Some(b) => b,
                None => false,
            };
            Some(now && !before)
        },
        None => Some(true),
    }
}

/// The vote that stands for a side.
pub open spec fn side_vote(bull: bool) -> int {
    if bull {
        1
    } else {
        -1
    }
}

/// The vote does not oppose the side; without a vote it passes.
pub open spec fn vote_ok(bull: bool, v: Option<Num>) -> Option<bool> {
    match v {
        Some(d) => Some(
            if bull {
                d.key >= 0
            } else {
                d.key <= 0
            },
        ),
        None => Some(true),
    }
}

/// The vote turned to the side on this bar; without a vote it passes.
pub open spec fn vote_turned(bull: bool, v0: Option<Num>, v1: Option<Num>) -> Option<bool> {
    match v0 {
        Some(d) => Some(
            d.key == side_vote(bull) && !(v1 is Some && v1->0.key == side_vote(bull)),
        ),
        None => Some(true),
    }
}

/// Whether the vote does not oppose the side.
pub fn sl_consensus_ok(bull: bool, v: Option<Num>) -> (r: Option<bool>)
    ensures
        r == vote_ok(bull, v),
{
    match v {
        Some(d) => Some(
            if bull {
                d.key >= 0
            } else {
                d.key <= 0
            },
        ),
        None => Some(true),
    }
}

/// Whether the vote turned to the side on this bar.
pub fn sl_consensus_flip(bull: bool, v0: Option<Num>, v1: Option<Num>) -> (r: Option<bool>)
    ensures
        r == vote_turned(bull, v0, v1),
{
    let want: i64 = if bull {
        1
    } else {
        -1
    };
    match v0 {
        Some(d) => {
            let before = match v1 {
                Some(p) => p.key == want,
                None => false,
            };
            Some(d.key == want && !before)
        },
        None => Some(true),
    }
}

/// A present reading, or zero.
pub open spec fn or_zero(v: Option<Num>) -> Num {
    match v {
        Some(n) => n,
        None => Num { nan: false, infinite: false, key: 0 },
    }
}

fn zero_or(v: Option<Num>) -> (r: Num)
    ensures
        r == or_zero(v),
{
    match v {
        Some(n) => n,
        None => Num::of(0),
    }
}

/// All readings of `v[0..n]` are present.
pub open spec fn present(v: Seq<Option<Num>>, n: int) -> bool {
    forall|i: int| 0 <= i < n ==> #[trigger] v[i] is Some
}

/// All readings of `v[0..n]` are present and finite.
pub open spec fn all_finite(v: Seq<Option<Num>>, n: int) -> bool {
    forall|i: int| 0 <= i < n ==> #[trigger] v[i] is Some && v[i]->0.finite()
}

fn have(v: &Vec<Option<Num>>, n: usize) -> (r: bool)
    requires
        n <= v.len(),
    ensures
        r == present(v@, n as int),
{
    let mut i: usize = 0;
    while i < n
        invariant
            i <= n <= v.len(),
            present(v@, i as int),
        decreases n - i,
    {
        if v[i].is_none() {
            proof {
                assert(!(v@[i as int] is Some));
            }
            return false;
        }
        i += 1;
    }
    true
}

fn finite(v: &Vec<Option<Num>>, n: usize) -> (r: bool)
    requires
        n <= v.len(),
    ensures
        r == all_finite(v@, n as int),
{
    let mut i: usize = 0;
    while i < n
        invariant
            i <= n <= v.len(),
            all_finite(v@, i as int),
        decreases n - i,
    {
        let ok = match v[i] {
            Some(x) => x.is_finite(),
            None => false,
        };
        if !ok {
            proof {
                assert(!(v@[i as int] is Some && v@[i as int]->0.finite()));
            }
            return false;
        }
        i += 1;
    }
    true
}

/// A hold needs its first `n` readings; where one of them is not finite it
/// passes, else `held` decides.
pub open spec fn hold(v: Seq<Option<Num>>, n: int, held: bool) -> Option<bool> {
    if !present(v, n) {
        None
    } else if !all_finite(v, n) {
        Some(true)
    } else {
        Some(held)
    }
}

/// The main line leads its signal, does not give way and keeps its lead.
pub open spec fn lead_held(bull: bool, v: Seq<Option<Num>>) -> bool {
    let (m, p) = (v[0]->0, v[2]->0);
    let (gap, before) = (or_zero(v[4]), or_zero(v[5]));
    if bull {
        gap.positive() && m.not_below(p) && gap.not_below(before)
    } else {
        gap.negative() && p.not_below(m) && before.not_below(gap)
    }
}

/// The ergodic line and its signal stand under the histogram and all three fall
/// (bull), or the mirror image.
pub open spec fn ergodic_held(bull: bool, v: Seq<Option<Num>>) -> bool {
    let (a, s, h) = (v[0]->0, v[1]->0, v[2]->0);
    let (ap, sp, hp) = (v[3]->0, v[4]->0, v[5]->0);
    if bull {
        h.above(a) && h.above(s) && ap.above(a) && sp.above(s) && hp.above(h)
    } else {
        a.above(h) && s.above(h) && a.above(ap) && s.above(sp) && h.above(hp)
    }
}

/// The plus line leads and rises while the minus line falls (bull), or the mirror image.
pub open spec fn vortex_held(bull: bool, v: Seq<Option<Num>>) -> bool {
    let (p, m, pp, mp) = (v[0]->0, v[1]->0, v[2]->0, v[3]->0);
    if bull {
        p.above(m) && p.above(pp) && mp.above(m)
    } else {
        m.above(p) && pp.above(p) && m.above(mp)
    }
}

/// The gauge moves with the side, the directional lines hold it and their
/// distance does not shrink.
pub open spec fn adx_held(bull: bool, v: Seq<Option<Num>>) -> bool {
    let (a, p, m) = (v[0]->0, v[1]->0, v[2]->0);
    let (ap, pp, mp) = (v[3]->0, v[4]->0, v[5]->0);
    let wide = or_zero(v[6]).not_below(or_zero(v[7]));
    if bull {
        a.above(ap) && p.above(m) && p.not_below(pp) && mp.not_below(m) && wide
    } else {
        ap.above(a) && m.above(p) && pp.not_below(p) && m.not_below(mp) && wide
    }
}

/// No group of four readings holds a computed failure to cross.
pub open spec fn all_crossed(up: bool, v: Seq<Option<Num>>) -> bool {
    forall|k: int|
        0 <= k < v.len() / 4 ==> #[trigger] crossed(
            up,
            v[4 * k],
            v[4 * k + 1],
            v[4 * k + 2],
            v[4 * k + 3],
        ) != Some(false)
}

/// No pair of readings holds a computed failure of the level.
pub open spec fn all_level(bull: bool, v: Seq<Option<Num>>) -> bool {
    forall|k: int|
        0 <= k < v.len() / 2 ==> #[trigger] level(bull, v[2 * k], v[2 * k + 1]) != Some(false)
}

/// The line of the readings `now` and `before` rises exactly where `bull`;
/// an uncomputed line agrees.
pub open spec fn agrees(bull: bool, now: Option<Num>, before: Option<Num>) -> bool {
    match (now, before) {
        (Some(a), Some(b)) => a.above(b) == bull,
        _ => true,
    }
}

/// Every computed line points the asked way.
pub open spec fn all_agree(bull: bool, v: Seq<Option<Num>>) -> bool {
    forall|k: int| 0 <= k < v.len() / 2 ==> #[trigger] agrees(bull, v[2 * k], v[2 * k + 1])
}

/// The verdict of a rule on its readings; `None` where it has none.
pub open spec fn judge(rule: Rule, v: Seq<Option<Num>>) -> Option<bool> {
    match rule {
        Rule::Unknown => None,
        Rule::Pass => Some(true),
        Rule::CloseMove { rising } => Some(level(rising, v[0], v[1]) == Some(true)),
        Rule::EmaStack { up } => match level(up, v[0], v[1]) {
            Some(true) => level(up, v[1], v[2]),
            other => other,
        },
        Rule::Gap { up } => level(up, v[0], v[1]),
        Rule::PaneCross { up } => Some(all_crossed(up, v)),
        Rule::PaneAll { bull } => Some(all_agree(bull, v)),
        Rule::PaneLevel { bull } => Some(all_level(bull, v)),
        Rule::AutoSupport { .. } => match v[0] {
            Some(n) => Some(n.positive()),
            None => None,
        },
        Rule::Level { bull, .. } => level(bull, v[0], v[1]),
        Rule::Cross { up, .. } => crossed(up, v[0], v[1], v[2], v[3]),
        Rule::CrossDir { up, .. } => match (
            crossed(up, v[0], v[1], v[2], v[3]),
            level(up, v[4], v[5]),
        ) {
            (Some(c), Some(d)) => Some(c && d),
            _ => None,
        },
        Rule::Dir { bull, neutral, .. } => match level(bull, v[0], v[1]) {
            Some(d) => Some(d),
            None => if neutral {
                Some(true)
            } else {
                None
            },
        },
        Rule::Turn { bull, .. } => turned(bull, v[0], v[1], v[2]),
        Rule::Vote { bull } => vote_ok(bull, v[0]),
        Rule::VoteTurn { bull } => vote_turned(bull, v[0], v[1]),
        Rule::Swing { .. } => match v[0] {
            Some(n) => Some(n.positive()),
            None => None,
        },
        Rule::Signal { bull, .. } => match v[0] {
            None => None,
            Some(x) => match v[1] {
                None => Some(true),
                Some(s) => if x.nan || s.nan {
                    Some(true)
                } else {
                    level(bull, v[0], v[1])
                },
            },
        },
        Rule::Hold { bull, .. } => hold(v, 4, lead_held(bull, v)),
        Rule::ErgodicHold { bull } => hold(v, 6, ergodic_held(bull, v)),
        Rule::VortexHold { bull } => hold(v, 4, vortex_held(bull, v)),
        Rule::AdxHold { bull } => hold(v, 6, adx_held(bull, v)),
    }
}

/// The readings fit the rule: one for each it asks for; a walk over every pane
/// line may bring more, in pairs.
pub open spec fn fits(rule: Rule, n: nat) -> bool {
    match rule {
        Rule::PaneAll { .. } => n >= reads(rule).len() && n % 2 == 0,
        _ => n == reads(rule).len(),
    }
}

/// Whether every pane pair crosses, as far as it is computed.
pub fn pane_cross_all(up: bool, v: &Vec<Option<Num>>) -> (r: bool)
    requires
        v.len() % 4 == 0,
    ensures
        r == all_crossed(up, v@),
{
    let mut k: usize = 0;
    while k < v.len() / 4
        invariant
            v.len() % 4 == 0,
            k <= v.len() / 4,
            forall|j: int|
                0 <= j < k ==> #[trigger] crossed(
                    up,
                    v@[4 * j],
                    v@[4 * j + 1],
                    v@[4 * j + 2],
                    v@[4 * j + 3],
                ) != Some(false),
        decreases v.len() / 4 - k,
    {
        if let Some(ok) = crossed_of(up, v[4 * k], v[4 * k + 1], v[4 * k + 2], v[4 * k + 3]) {
            if !ok {
                return false;
            }
        }
        k += 1;
    }
    true
}

/// Whether every pane pair stands on the side, as far as it is computed.
pub fn pane_level_all(bull: bool, v: &Vec<Option<Num>>) -> (r: bool)
    requires
        v.len() % 2 == 0,
    ensures
        r == all_level(bull, v@),
{
    let mut k: usize = 0;
    while k < v.len() / 2
        invariant
            v.len() % 2 == 0,
            k <= v.len() / 2,
            forall|j: int|
                0 <= j < k ==> #[trigger] level(bull, v@[2 * j], v@[2 * j + 1]) != Some(false),
        decreases v.len() / 2 - k,
    {
        if let Some(ok) = level_of(bull, v[2 * k], v[2 * k + 1]) {
            if !ok {
                return false;
            }
        }
        k += 1;
    }
    true
}

/// Whether every pane line points the asked way, as far as it is computed.
pub fn pane_all_dirs(bull: bool, v: &Vec<Option<Num>>) -> (r: bool)
    requires
        v.len() % 2 == 0,
    ensures
        r == all_agree(bull, v@),
{
    let mut k: usize = 0;
    while k < v.len() / 2
        invariant
            v.len() % 2 == 0,
            k <= v.len() / 2,
            forall|j: int| 0 <= j < k ==> #[trigger] agrees(bull, v@[2 * j], v@[2 * j + 1]),
        decreases v.len() / 2 - k,
    {
        if let (Some(a), Some(b)) = (v[2 * k], v[2 * k + 1]) {
            if a.gt(&b) != bull {
                proof {
                    assert(!agrees(bull, v@[2 * k], v@[2 * k + 1]));
                }
                return false;
            }
        }
        proof {
            assert(agrees(bull, v@[2 * k], v@[2 * k + 1]));
        }
        k += 1;
    }
    true
}

fn need(v: Option<Num>) -> (r: Num)
    requires
        v is Some,
    ensures
        r == v->0,
{
    match v {
        Some(n) => n,
        None => Num::of(0),
    }
}

/// Momentum-gap hold of a main line over its signal.
pub fn pbg_hold(v: &Vec<Option<Num>>, bull: bool) -> (r: Option<bool>)
    requires
        v.len() == 6,
    ensures
        r == hold(v@, 4, lead_held(bull, v@)),
{
    if !have(v, 4) {
        return None;
    }
    if !finite(v, 4) {
        return Some(true);
    }
    let m = need(v[0]);
    let p = need(v[2]);
    let gap = zero_or(v[4]);
    let before = zero_or(v[5]);
    Some(
        if bull {
            gap.is_positive() && m.ge(&p) && gap.ge(&before)
        } else {
            gap.is_negative() && m.le(&p) && gap.le(&before)
        },
    )
}

/// Momentum-gap hold of the ergodic pair against its histogram.
pub fn pbg_smiio(v: &Vec<Option<Num>>, bull: bool) -> (r: Option<bool>)
    requires
        v.len() == 6,
    ensures
        r == hold(v@, 6, ergodic_held(bull, v@)),
{
    if !have(v, 6) {
        return None;
    }
    if !finite(v, 6) {
        return Some(true);
    }
    let a = need(v[0]);
    let s = need(v[1]);
    let h = need(v[2]);
    let ap = need(v[3]);
    let sp = need(v[4]);
    let hp = need(v[5]);
    Some(
        if bull {
            a.lt(&h) && s.lt(&h) && a.lt(&ap) && s.lt(&sp) && h.lt(&hp)
        } else {
            a.gt(&h) && s.gt(&h) && a.gt(&ap) && s.gt(&sp) && h.gt(&hp)
        },
    )
}

/// Momentum-gap hold of the two vortex lines.
pub fn pbg_vortex(v: &Vec<Option<Num>>, bull: bool) -> (r: Option<bool>)
    requires
        v.len() == 4,
    ensures
        r == hold(v@, 4, vortex_held(bull, v@)),
{
    if !have(v, 4) {
        return None;
    }
    if !finite(v, 4) {
        return Some(true);
    }
    let p = need(v[0]);
    let m = need(v[1]);
    let pp = need(v[2]);
    let mp = need(v[3]);
    Some(
        if bull {
            p.gt(&m) && p.gt(&pp) && m.lt(&mp)
        } else {
            p.lt(&m) && p.lt(&pp) && m.gt(&mp)
        },
    )
}

/// Momentum-gap hold of the trend gauge.
pub fn pbg_adx(v: &Vec<Option<Num>>, bull: bool) -> (r: Option<bool>)
    requires
        v.len() == 8,
    ensures
        r == hold(v@, 6, adx_held(bull, v@)),
{
    if !have(v, 6) {
        return None;
    }
    if !finite(v, 6) {
        return Some(true);
    }
    let a = need(v[0]);
    let p = need(v[1]);
    let m = need(v[2]);
    let ap = need(v[3]);
    let pp = need(v[4]);
    let mp = need(v[5]);
    let wide = zero_or(v[6]).ge(&zero_or(v[7]));
    Some(
        if bull {
            a.gt(&ap) && p.gt(&m) && p.ge(&pp) && m.le(&mp) && wide
        } else {
            a.lt(&ap) && p.lt(&m) && p.le(&pp) && m.ge(&mp) && wide
        },
    )
}

/// The verdict of a rule on its readings.
pub fn filter_eval(rule: Rule, v: &Vec<Option<Num>>) -> (r: Option<bool>)
    requires
        fits(rule, v@.len()),
    ensures
        r == judge(rule, v@),
{
    match rule {
        Rule::Unknown => None,
        Rule::Pass => Some(true),
        Rule::CloseMove { rising } => match level_of(rising, v[0], v[1]) {
            Some(b) => Some(b),
            None => Some(false),
        },
        Rule::EmaStack { up } => match level_of(up, v[0], v[1]) {
            Some(b) => if b {
                level_of(up, v[1], v[2])
            } else {
                Some(false)
            },
            None => None,
        },
        Rule::Gap { up } => level_of(up, v[0], v[1]),
        Rule::PaneCross { up } => Some(pane_cross_all(up, v)),
        Rule::PaneAll { bull } => Some(pane_all_dirs(bull, v)),
        Rule::PaneLevel { bull } => Some(pane_level_all(bull, v)),
        Rule::AutoSupport { .. } => match v[0] {
            Some(n) => Some(n.is_positive()),
            None => None,
        },
        Rule::Level { bull, .. } => level_of(bull, v[0], v[1]),
        Rule::Cross { up, .. } => crossed_of(up, v[0], v[1], v[2], v[3]),
        Rule::CrossDir { up, .. } => match (
            crossed_of(up, v[0], v[1], v[2], v[3]),
            level_of(up, v[4], v[5]),
        ) {
            (Some(c), Some(d)) => Some(c && d),
            _ => None,
        },
        Rule::Dir { bull, neutral, .. } => match level_of(bull, v[0], v[1]) {
            Some(d) => Some(d),
            None => if neutral {
                Some(true)
            } else {
                None
            },
        },
        Rule::Turn { bull, .. } => arrow_flip(bull, v[0], v[1], v[2]),
        Rule::Vote { bull } => sl_consensus_ok(bull, v[0]),
        Rule::VoteTurn { bull } => sl_consensus_flip(bull, v[0], v[1]),
        Rule::Swing { .. } => match v[0] {
            Some(n) => Some(n.is_positive()),
            None => None,
        },
        Rule::Signal { bull, .. } => match v[0] {
            None => None,
            Some(x) => match v[1] {
                None => Some(true),
                Some(s) => if x.nan || s.nan {
                    Some(true)
                } else {
                    level_of(bull, Some(x), Some(s))
                },
            },
        },
        Rule::Hold { bull, .. } => pbg_hold(v, bull),
        Rule::ErgodicHold { bull } => pbg_smiio(v, bull),
        Rule::VortexHold { bull } => pbg_vortex(v, bull),
        Rule::AdxHold { bull } => pbg_adx(v, bull),
    }
}

/// Both directions of one curve never hold at once, and neither do both crosses.
pub proof fn law_sides_exclude(a0: Option<Num>, a1: Option<Num>, b0: Option<Num>, b1: Option<Num>)
    ensures
        !(level(true, a0, b0) == Some(true) && level(false, a0, b0) == Some(true)),
        !(crossed(true, a0, a1, b0, b1) == Some(true) && crossed(false, a0, a1, b0, b1) == Some(
            true,
        )),
{
}

/// A cross leaves the line on the side it crossed to.
pub proof fn law_cross_is_level(
    up: bool,
    a0: Option<Num>,
    a1: Option<Num>,
    b0: Option<Num>,
    b1: Option<Num>,
)
    ensures
        crossed(up, a0, a1, b0, b1) == Some(true) ==> level(up, a0, b0) == Some(true),
{
}

/// A drawn curve that turned on one bar cannot turn again, to the same side, on the next.
pub proof fn law_turn_fires_once(bull: bool, a0: Num, a1: Num, a2: Num, a3: Num)
    ensures
        turned(bull, Some(a1), Some(a2), Some(a3)) == Some(true) ==> turned(
            bull,
            Some(a0),
            Some(a1),
            Some(a2),
        ) == Some(false),
{
}

/// Without a single reading no rule of the straight-line family blocks, and no
/// key that names no rule has a verdict.
pub proof fn law_undrawn_lines_pass(curve: Curve, bull: bool, v: Seq<Option<Num>>)
    requires
        v.len() >= 3,
        forall|i: int| 0 <= i < v.len() ==> #[trigger] v[i] is None,
    ensures
        judge(Rule::Dir { curve, bull, neutral: true }, v) == Some(true),
        judge(Rule::Turn { curve, bull }, v) == Some(true),
        judge(Rule::Vote { bull }, v) == Some(true),
        judge(Rule::Unknown, v) is None,
{
    assert(v[0] is None && v[1] is None && v[2] is None);
}

} // verus!
