//! What the filter keys mean, in terms of the chart they are read on.

use vstd::prelude::*;
use crate::num::Num;
use crate::rules;
use crate::rules::{Curve, Reading, Rule, Setup, Smooth, Study};
use crate::text;
use crate::verdict;

verus! {

/// The rule of a filter key.
#[verifier::opaque]
pub open spec fn rule_named(key: Seq<char>) -> Rule {
    rules::rule_for(key)
}

/// The verdict of a filter key on a chart, which tells each reading.
#[verifier::opaque]
pub open spec fn verdict(key: Seq<char>, c: spec_fn(Reading) -> Option<Num>) -> Option<bool> {
    let rule = rule_named(key);
    let asked = verdict::reads(rule);
    verdict::judge(rule, Seq::new(asked.len(), |i: int| c(asked[i])))
}

/// The key of a side: `Bull` or `Bear`, and what it asks.
pub open spec fn sided_key(bull: bool, b: Seq<char>) -> Seq<char> {
    if bull {
        "Bull"@ + b
    } else {
        "Bear"@ + b
    }
}

/// A curve on the bar under judgement.
pub open spec fn now(curve: Curve) -> Reading {
    Reading::Value { curve, back: 0 }
}

/// A curve one bar earlier.
pub open spec fn before(curve: Curve) -> Reading {
    Reading::Value { curve, back: 1 }
}

/// One line of a study.
pub open spec fn line(study: Study, setup: Setup, line: usize) -> Curve {
    Curve::Line { study, setup, line }
}

/// `x` is the greater one (bull) or the smaller one; nothing is known where either
/// is missing, and nothing holds of what is not a number.
pub open spec fn over(x: Option<Num>, y: Option<Num>, bull: bool) -> Option<bool> {
    if x is None || y is None {
        None
    } else {
        Some(
            !(x->0).nan && !(y->0).nan && (if bull {
                (x->0).key > (y->0).key
            } else {
                (x->0).key < (y->0).key
            }),
        )
    }
}

/// `x` was not beyond `y` a bar ago, at `x1` and `y1`, and is now.
pub open spec fn crosses(
    x: Option<Num>,
    x1: Option<Num>,
    y: Option<Num>,
    y1: Option<Num>,
    up: bool,
) -> Option<bool> {
    if x is None || x1 is None || y is None || y1 is None {
        None
    } else {
        Some(
            over(x, y, up) == Some(true) && !(x1->0).nan && !(y1->0).nan && (if up {
                (x1->0).key <= (y1->0).key
            } else {
                (x1->0).key >= (y1->0).key
            }),
        )
    }
}

/// Both hold; nothing is known where one of them is not.
pub open spec fn both(a: Option<bool>, b: Option<bool>) -> Option<bool> {
    if a is None || b is None {
        None
    } else {
        Some(a->0 && b->0)
    }
}

/// The second counts only where the first holds.
pub open spec fn chained(a: Option<bool>, b: Option<bool>) -> Option<bool> {
    if a == Some(true) {
        b
    } else {
        a
    }
}

/// What is not drawn does not block.
pub open spec fn undrawn_passes(a: Option<bool>) -> Option<bool> {
    Some(a != Some(false))
}

/// A reading that is a plain yes or no.
pub open spec fn flag(x: Option<Num>) -> Option<bool> {
    if x is None {
        None
    } else {
        Some(!(x->0).nan && (x->0).key > 0)
    }
}

/// A line against its own smoothed signal, which does not block while it warms up.
pub open spec fn signal(x: Option<Num>, s: Option<Num>, bull: bool) -> Option<bool> {
    if x is None {
        None
    } else if s is None || (x->0).nan || (s->0).nan {
        Some(true)
    } else {
        over(x, s, bull)
    }
}

/// The line moves to the side on this bar and did not on the bar before; a line that
/// is not drawn does not block.
pub open spec fn turns(x: Option<Num>, x1: Option<Num>, x2: Option<Num>, bull: bool) -> Option<
    bool,
> {
    if over(x, x1, bull) is None {
        Some(true)
    } else {
        Some(over(x, x1, bull) == Some(true) && over(x1, x2, bull) != Some(true))
    }
}

/// The majority of the straight lines is not for the other side.
pub open spec fn vote(v: Option<Num>, bull: bool) -> Option<bool> {
    Some(
        v is Some ==> if bull {
            (v->0).key >= 0
        } else {
            (v->0).key <= 0
        },
    )
}

/// The majority of the straight lines is for the side now and was not a bar ago.
pub open spec fn fresh_vote(v: Option<Num>, v1: Option<Num>, bull: bool) -> Option<bool> {
    let want: int = if bull {
        1
    } else {
        -1
    };
    Some(v is Some ==> (v->0).key == want && !(v1 is Some && (v1->0).key == want))
}

/// The pane studies with their main line and their signal line.
pub open spec fn pane(k: int) -> (Study, usize, usize) {
    if k == 0 {
        (Study::Macd, 0, 1)
    } else if k == 1 {
        (Study::Ppo, 0, 1)
    } else if k == 2 {
        (Study::Smiio, 0, 1)
    } else if k == 3 {
        (Study::Stochrsi, 0, 1)
    } else if k == 4 {
        (Study::Aroon, 0, 1)
    } else if k == 5 {
        (Study::Vortex, 0, 1)
    } else {
        (Study::Adx, 1, 2)
    }
}

/// The main line of a pane study.
pub open spec fn main_line(k: int) -> Curve {
    line(pane(k).0, Setup::Plain, pane(k).1)
}

/// The signal line of a pane study.
pub open spec fn signal_line(k: int) -> Curve {
    line(pane(k).0, Setup::Plain, pane(k).2)
}

/// The main line of a pane study does not fail to cross its signal line.
pub open spec fn pair_crosses(c: spec_fn(Reading) -> Option<Num>, up: bool, k: int) -> bool {
    crosses(
        c(now(main_line(k))),
        c(before(main_line(k))),
        c(now(signal_line(k))),
        c(before(signal_line(k))),
        up,
    ) != Some(false)
}

/// No pane study fails to cross.
pub open spec fn pairs_cross(c: spec_fn(Reading) -> Option<Num>, up: bool) -> bool {
    forall|k: int| 0 <= k < 7 ==> #[trigger] pair_crosses(c, up, k)
}

/// The main line of a pane study does not stand on the wrong side of its signal line.
pub open spec fn pair_stands(c: spec_fn(Reading) -> Option<Num>, bull: bool, k: int) -> bool {
    over(c(now(main_line(k))), c(now(signal_line(k))), bull) != Some(false)
}

/// No pane study stands on the wrong side.
pub open spec fn pairs_stand(c: spec_fn(Reading) -> Option<Num>, bull: bool) -> bool {
    forall|k: int| 0 <= k < 7 ==> #[trigger] pair_stands(c, bull, k)
}

/// A finite reading; a missing one counts as zero.
pub open spec fn or_nothing(x: Option<Num>) -> Num {
    if x is Some {
        x->0
    } else {
        Num { nan: false, infinite: false, key: 0 }
    }
}

/// `x` is further to the side than `y`.
pub open spec fn beyond(x: Num, y: Num, bull: bool) -> bool {
    over(Some(x), Some(y), bull) == Some(true)
}

/// `x` is as far to the side as `y`, or further.
pub open spec fn not_behind(x: Num, y: Num, bull: bool) -> bool {
    !x.nan && !y.nan && (if bull {
        x.key >= y.key
    } else {
        x.key <= y.key
    })
}

/// What a hold says: nothing while a line is missing, a pass while one is not a finite
/// number, else whether it is kept.
pub open spec fn once_drawn(lines: Seq<Option<Num>>, kept: bool) -> Option<bool> {
    if exists|i: int| 0 <= i < lines.len() && #[trigger] lines[i] is None {
        None
    } else if exists|i: int|
        0 <= i < lines.len() && ((#[trigger] lines[i])->0.nan || lines[i]->0.infinite) {
        Some(true)
    } else {
        Some(kept)
    }
}

/// The first line of a study leads the second, gives no ground, and the lead does not
/// shrink.
pub open spec fn lead_kept(
    c: spec_fn(Reading) -> Option<Num>,
    study: Study,
    setup: Setup,
    bull: bool,
) -> Option<bool> {
    let m = c(now(line(study, setup, 0)));
    let m1 = c(before(line(study, setup, 0)));
    let lead = or_nothing(c(Reading::Lead { study, setup, back: 0 }));
    let lead1 = or_nothing(c(Reading::Lead { study, setup, back: 1 }));
    once_drawn(
        seq![m, c(now(line(study, setup, 1))), m1, c(before(line(study, setup, 1)))],
        beyond(lead, or_nothing(None), bull) && not_behind(m->0, m1->0, bull) && not_behind(
            lead,
            lead1,
            bull,
        ),
    )
}

/// The histogram stands beyond the ergodic line and its signal, and all three move
/// against the side.
pub open spec fn ergodic_kept(c: spec_fn(Reading) -> Option<Num>, bull: bool) -> Option<bool> {
    let a = c(now(line(Study::Smiio, Setup::Plain, 0)));
    let s = c(now(line(Study::Smiio, Setup::Plain, 1)));
    let h = c(now(line(Study::Smiio, Setup::Plain, 2)));
    let a1 = c(before(line(Study::Smiio, Setup::Plain, 0)));
    let s1 = c(before(line(Study::Smiio, Setup::Plain, 1)));
    let h1 = c(before(line(Study::Smiio, Setup::Plain, 2)));
    once_drawn(
        seq![a, s, h, a1, s1, h1],
        beyond(h->0, a->0, bull) && beyond(h->0, s->0, bull) && beyond(a1->0, a->0, bull) && beyond(
            s1->0,
            s->0,
            bull,
        ) && beyond(h1->0, h->0, bull),
    )
}

/// The plus line stands beyond the minus line and they move apart.
pub open spec fn vortex_kept(c: spec_fn(Reading) -> Option<Num>, bull: bool) -> Option<bool> {
    let p = c(now(line(Study::Vortex, Setup::Plain, 0)));
    let m = c(now(line(Study::Vortex, Setup::Plain, 1)));
    let p1 = c(before(line(Study::Vortex, Setup::Plain, 0)));
    let m1 = c(before(line(Study::Vortex, Setup::Plain, 1)));
    once_drawn(
        seq![p, m, p1, m1],
        beyond(p->0, m->0, bull) && beyond(p->0, p1->0, bull) && beyond(m1->0, m->0, bull),
    )
}

/// The gauge moves with the side, its plus line stands beyond the minus line, neither
/// gives ground, and their distance does not shrink.
pub open spec fn gauge_kept(c: spec_fn(Reading) -> Option<Num>, bull: bool) -> Option<bool> {
    let a = c(now(line(Study::Adx, Setup::Plain, 0)));
    let p = c(now(line(Study::Adx, Setup::Plain, 1)));
    let m = c(now(line(Study::Adx, Setup::Plain, 2)));
    let a1 = c(before(line(Study::Adx, Setup::Plain, 0)));
    let p1 = c(before(line(Study::Adx, Setup::Plain, 1)));
    let m1 = c(before(line(Study::Adx, Setup::Plain, 2)));
    let wide = or_nothing(c(Reading::Spread { back: 0 }));
    let wide1 = or_nothing(c(Reading::Spread { back: 1 }));
    once_drawn(
        seq![a, p, m, a1, p1, m1],
        beyond(a->0, a1->0, bull) && beyond(p->0, m->0, bull) && not_behind(p->0, p1->0, bull)
            && not_behind(m1->0, m->0, bull) && not_behind(wide, wide1, true),
    )
}

/// A number that tells the parts of the keys apart.
#[verifier::opaque]
spec fn mark(s: Seq<char>) -> int {
    s.len() + 1_000 * (s[s.len() - 1] as int) + 1_000_000 * (s[s.len() - 2] as int) + 1_000_000_000
        * (s[s.len() as int / 2] as int) + 1_000_000_000_000 * (s[0] as int)
}

proof fn lemma_marks()
    ensures
        mark("IncUp"@) == 73_099_085_112_005,
        mark("IncDown"@) == 73_068_119_110_007,
        mark("IncUpAll"@) == 73_112_108_108_008,
        mark("IncDownAll"@) == 73_119_108_108_010,
        mark("GapUp"@) == 71_112_085_112_005,
        mark("GapDown"@) == 71_068_119_110_007,
        mark("PaneCrossUp"@) == 80_114_085_112_011,
        mark("PaneCrossDown"@) == 80_111_119_110_013,
        mark("PaneIncUpAll"@) == 80_099_108_108_012,
        mark("PaneIncDownAll"@) == 80_068_108_108_014,
        mark("MeetPaneCross"@) == 77_110_115_115_013,
        mark("MeetCross"@) == 77_067_115_115_009,
        mark("Asr"@) == 65_115_115_114_003,
        mark("Oit"@) == 79_105_105_116_003,
        mark("Candle"@) == 67_100_108_101_006,
        mark("Elliott"@) == 69_105_116_116_007,
        mark("Indicator"@) == 73_099_111_114_009,
        mark("Pane"@) == 80_110_110_101_004,
        mark("Symmetry"@) == 83_101_114_121_008,
        mark("Structure"@) == 83_099_114_101_009,
        mark("Atr"@) == 65_116_116_114_003,
        mark("CrossUp"@) == 67_115_085_112_007,
        mark("CrossDown"@) == 67_115_119_110_009,
        mark("GtUp"@) == 71_085_085_112_004,
        mark("GtDown"@) == 71_111_119_110_006,
        mark("LtUp"@) == 76_085_085_112_004,
        mark("LtDown"@) == 76_111_119_110_006,
        mark("BbwInc"@) == 66_073_110_099_006,
        mark("Smf"@) == 83_109_109_102_003,
        mark("VwapCloseCrossAbove"@) == 86_067_118_101_019,
        mark("VwapCloseCrossBelow"@) == 86_067_111_119_019,
        mark("MeetCloseVwap"@) == 77_111_097_112_013,
        mark("PbrAo"@) == 80_114_065_111_005,
        mark("PbrSmiio"@) == 80_109_105_111_008,
        mark("PbrDpo"@) == 80_068_112_111_006,
        mark("PbrMfi"@) == 80_077_102_105_006,
        mark("PbrUo"@) == 80_114_085_111_005,
        mark("PbrWilliamsR"@) == 80_108_115_082_012,
        mark("PbrBbpct"@) == 80_098_099_116_008,
        mark("PbrPvt"@) == 80_080_118_116_006,
        mark("PbrAd"@) == 80_114_065_100_005,
        mark("PbrSmf"@) == 80_083_109_102_006,
        mark("PbrCmf"@) == 80_067_109_102_006,
        mark("PbrCci"@) == 80_067_099_105_006,
        mark("PbrSqzmom"@) == 80_113_111_109_009,
        mark("PbrElderforce"@) == 80_101_099_101_013,
        mark("PbrBbwUp"@) == 80_098_085_112_008,
        mark("PbrAtrUp"@) == 80_116_085_112_008,
        mark("PbrVoloscUp"@) == 80_108_085_112_011,
        mark("St1CloseCrossAbove"@) == 83_114_118_101_018,
        mark("St1CloseCrossBelow"@) == 83_114_111_119_018,
        mark("MeetCloseSt"@) == 77_108_083_116_011,
        mark("BbCrossAbove"@) == 66_115_118_101_012,
        mark("BbCrossBelow"@) == 66_115_111_119_012,
        mark("PcCrossAbove"@) == 80_115_118_101_012,
        mark("PcCrossBelow"@) == 80_115_111_119_012,
        mark("MeetCloseBb"@) == 77_108_066_098_011,
        mark("MeetClosePc"@) == 77_108_080_099_011,
        mark("MeetVl"@) == 77_116_086_108_006,
        mark("Macd"@) == 77_099_099_100_004,
        mark("Ppo"@) == 80_112_112_111_003,
        mark("Stochrsi"@) == 83_104_115_105_008,
        mark("Tsi"@) == 84_115_115_105_003,
        mark("Rsi"@) == 82_115_115_105_003,
        mark("Obv"@) == 79_098_098_118_003,
        mark("Fisher"@) == 70_104_101_114_006,
        mark("Smiio"@) == 83_105_105_111_005,
        mark("Aroon"@) == 65_111_111_110_005,
        mark("Vortex"@) == 86_116_101_120_006,
        mark("Adx"@) == 65_100_100_120_003,
        mark("Hma"@) == 72_109_109_097_003,
        mark("Tenkan"@) == 84_107_097_110_006,
        mark("Kijun"@) == 75_106_117_110_005,
        mark("SenkouA"@) == 83_107_117_065_007,
        mark("Keltner"@) == 75_116_101_114_007,
        mark("Donchian"@) == 68_104_097_110_008,
        mark("TrendCore"@) == 84_100_114_101_009,
        mark("ElliottWave"@) == 69_116_118_101_011,
        mark("SupplyDemand"@) == 83_068_110_100_012,
        mark("PriceAction"@) == 80_065_111_110_011,
        mark("ZigZag"@) == 90_090_097_103_006,
        mark("ComboMaster"@) == 67_077_101_114_011,
        mark("PaneConsensus"@) == 80_110_117_115_013,
        mark("AutoTrendline"@) == 65_101_110_101_013,
        mark("Pitchfork"@) == 80_104_114_107_009,
        mark("TrendProjection"@) == 84_111_111_110_015,
        mark("GannFan"@) == 71_110_097_110_007,
        mark("FibFan"@) == 70_070_097_110_006,
        mark("Srema"@) == 83_101_109_097_005,
        mark("Support"@) == 83_112_114_116_007,
        mark("Resistance"@) == 82_116_099_101_010,
        mark("Consensus"@) == 67_101_117_115_009,
        mark("Vl"@) == 86_108_086_108_002,
{
    reveal(mark);
    reveal_strlit("IncUp");
    assert(mark("IncUp"@) == 73_099_085_112_005);
    reveal_strlit("IncDown");
    assert(mark("IncDown"@) == 73_068_119_110_007);
    reveal_strlit("IncUpAll");
    assert(mark("IncUpAll"@) == 73_112_108_108_008);
    reveal_strlit("IncDownAll");
    assert(mark("IncDownAll"@) == 73_119_108_108_010);
    reveal_strlit("GapUp");
    assert(mark("GapUp"@) == 71_112_085_112_005);
    reveal_strlit("GapDown");
    assert(mark("GapDown"@) == 71_068_119_110_007);
    reveal_strlit("PaneCrossUp");
    assert(mark("PaneCrossUp"@) == 80_114_085_112_011);
    reveal_strlit("PaneCrossDown");
    assert(mark("PaneCrossDown"@) == 80_111_119_110_013);
    reveal_strlit("PaneIncUpAll");
    assert(mark("PaneIncUpAll"@) == 80_099_108_108_012);
    reveal_strlit("PaneIncDownAll");
    assert(mark("PaneIncDownAll"@) == 80_068_108_108_014);
    reveal_strlit("MeetPaneCross");
    assert(mark("MeetPaneCross"@) == 77_110_115_115_013);
    reveal_strlit("MeetCross");
    assert(mark("MeetCross"@) == 77_067_115_115_009);
    reveal_strlit("Asr");
    assert(mark("Asr"@) == 65_115_115_114_003);
    reveal_strlit("Oit");
    assert(mark("Oit"@) == 79_105_105_116_003);
    reveal_strlit("Candle");
    assert(mark("Candle"@) == 67_100_108_101_006);
    reveal_strlit("Elliott");
    assert(mark("Elliott"@) == 69_105_116_116_007);
    reveal_strlit("Indicator");
    assert(mark("Indicator"@) == 73_099_111_114_009);
    reveal_strlit("Pane");
    assert(mark("Pane"@) == 80_110_110_101_004);
    reveal_strlit("Symmetry");
    assert(mark("Symmetry"@) == 83_101_114_121_008);
    reveal_strlit("Structure");
    assert(mark("Structure"@) == 83_099_114_101_009);
    reveal_strlit("Atr");
    assert(mark("Atr"@) == 65_116_116_114_003);
    reveal_strlit("CrossUp");
    assert(mark("CrossUp"@) == 67_115_085_112_007);
    reveal_strlit("CrossDown");
    assert(mark("CrossDown"@) == 67_115_119_110_009);
    reveal_strlit("GtUp");
    assert(mark("GtUp"@) == 71_085_085_112_004);
    reveal_strlit("GtDown");
    assert(mark("GtDown"@) == 71_111_119_110_006);
    reveal_strlit("LtUp");
    assert(mark("LtUp"@) == 76_085_085_112_004);
    reveal_strlit("LtDown");
    assert(mark("LtDown"@) == 76_111_119_110_006);
    reveal_strlit("BbwInc");
    assert(mark("BbwInc"@) == 66_073_110_099_006);
    reveal_strlit("Smf");
    assert(mark("Smf"@) == 83_109_109_102_003);
    reveal_strlit("VwapCloseCrossAbove");
    assert(mark("VwapCloseCrossAbove"@) == 86_067_118_101_019);
    reveal_strlit("VwapCloseCrossBelow");
    assert(mark("VwapCloseCrossBelow"@) == 86_067_111_119_019);
    reveal_strlit("MeetCloseVwap");
    assert(mark("MeetCloseVwap"@) == 77_111_097_112_013);
    reveal_strlit("PbrAo");
    assert(mark("PbrAo"@) == 80_114_065_111_005);
    reveal_strlit("PbrSmiio");
    assert(mark("PbrSmiio"@) == 80_109_105_111_008);
    reveal_strlit("PbrDpo");
    assert(mark("PbrDpo"@) == 80_068_112_111_006);
    reveal_strlit("PbrMfi");
    assert(mark("PbrMfi"@) == 80_077_102_105_006);
    reveal_strlit("PbrUo");
    assert(mark("PbrUo"@) == 80_114_085_111_005);
    reveal_strlit("PbrWilliamsR");
    assert(mark("PbrWilliamsR"@) == 80_108_115_082_012);
    reveal_strlit("PbrBbpct");
    assert(mark("PbrBbpct"@) == 80_098_099_116_008);
    reveal_strlit("PbrPvt");
    assert(mark("PbrPvt"@) == 80_080_118_116_006);
    reveal_strlit("PbrAd");
    assert(mark("PbrAd"@) == 80_114_065_100_005);
    reveal_strlit("PbrSmf");
    assert(mark("PbrSmf"@) == 80_083_109_102_006);
    reveal_strlit("PbrCmf");
    assert(mark("PbrCmf"@) == 80_067_109_102_006);
    reveal_strlit("PbrCci");
    assert(mark("PbrCci"@) == 80_067_099_105_006);
    reveal_strlit("PbrSqzmom");
    assert(mark("PbrSqzmom"@) == 80_113_111_109_009);
    reveal_strlit("PbrElderforce");
    assert(mark("PbrElderforce"@) == 80_101_099_101_013);
    reveal_strlit("PbrBbwUp");
    assert(mark("PbrBbwUp"@) == 80_098_085_112_008);
    reveal_strlit("PbrAtrUp");
    assert(mark("PbrAtrUp"@) == 80_116_085_112_008);
    reveal_strlit("PbrVoloscUp");
    assert(mark("PbrVoloscUp"@) == 80_108_085_112_011);
    reveal_strlit("St1CloseCrossAbove");
    assert(mark("St1CloseCrossAbove"@) == 83_114_118_101_018);
    reveal_strlit("St1CloseCrossBelow");
    assert(mark("St1CloseCrossBelow"@) == 83_114_111_119_018);
    reveal_strlit("MeetCloseSt");
    assert(mark("MeetCloseSt"@) == 77_108_083_116_011);
    reveal_strlit("BbCrossAbove");
    assert(mark("BbCrossAbove"@) == 66_115_118_101_012);
    reveal_strlit("BbCrossBelow");
    assert(mark("BbCrossBelow"@) == 66_115_111_119_012);
    reveal_strlit("PcCrossAbove");
    assert(mark("PcCrossAbove"@) == 80_115_118_101_012);
    reveal_strlit("PcCrossBelow");
    assert(mark("PcCrossBelow"@) == 80_115_111_119_012);
    reveal_strlit("MeetCloseBb");
    assert(mark("MeetCloseBb"@) == 77_108_066_098_011);
    reveal_strlit("MeetClosePc");
    assert(mark("MeetClosePc"@) == 77_108_080_099_011);
    reveal_strlit("MeetVl");
    assert(mark("MeetVl"@) == 77_116_086_108_006);
    reveal_strlit("Macd");
    assert(mark("Macd"@) == 77_099_099_100_004);
    reveal_strlit("Ppo");
    assert(mark("Ppo"@) == 80_112_112_111_003);
    reveal_strlit("Stochrsi");
    assert(mark("Stochrsi"@) == 83_104_115_105_008);
    reveal_strlit("Tsi");
    assert(mark("Tsi"@) == 84_115_115_105_003);
    reveal_strlit("Rsi");
    assert(mark("Rsi"@) == 82_115_115_105_003);
    reveal_strlit("Obv");
    assert(mark("Obv"@) == 79_098_098_118_003);
    reveal_strlit("Fisher");
    assert(mark("Fisher"@) == 70_104_101_114_006);
    reveal_strlit("Smiio");
    assert(mark("Smiio"@) == 83_105_105_111_005);
    reveal_strlit("Aroon");
    assert(mark("Aroon"@) == 65_111_111_110_005);
    reveal_strlit("Vortex");
    assert(mark("Vortex"@) == 86_116_101_120_006);
    reveal_strlit("Adx");
    assert(mark("Adx"@) == 65_100_100_120_003);
    reveal_strlit("Hma");
    assert(mark("Hma"@) == 72_109_109_097_003);
    reveal_strlit("Tenkan");
    assert(mark("Tenkan"@) == 84_107_097_110_006);
    reveal_strlit("Kijun");
    assert(mark("Kijun"@) == 75_106_117_110_005);
    reveal_strlit("SenkouA");
    assert(mark("SenkouA"@) == 83_107_117_065_007);
    reveal_strlit("Keltner");
    assert(mark("Keltner"@) == 75_116_101_114_007);
    reveal_strlit("Donchian");
    assert(mark("Donchian"@) == 68_104_097_110_008);
    reveal_strlit("TrendCore");
    assert(mark("TrendCore"@) == 84_100_114_101_009);
    reveal_strlit("ElliottWave");
    assert(mark("ElliottWave"@) == 69_116_118_101_011);
    reveal_strlit("SupplyDemand");
    assert(mark("SupplyDemand"@) == 83_068_110_100_012);
    reveal_strlit("PriceAction");
    assert(mark("PriceAction"@) == 80_065_111_110_011);
    reveal_strlit("ZigZag");
    assert(mark("ZigZag"@) == 90_090_097_103_006);
    reveal_strlit("ComboMaster");
    assert(mark("ComboMaster"@) == 67_077_101_114_011);
    reveal_strlit("PaneConsensus");
    assert(mark("PaneConsensus"@) == 80_110_117_115_013);
    reveal_strlit("AutoTrendline");
    assert(mark("AutoTrendline"@) == 65_101_110_101_013);
    reveal_strlit("Pitchfork");
    assert(mark("Pitchfork"@) == 80_104_114_107_009);
    reveal_strlit("TrendProjection");
    assert(mark("TrendProjection"@) == 84_111_111_110_015);
    reveal_strlit("GannFan");
    assert(mark("GannFan"@) == 71_110_097_110_007);
    reveal_strlit("FibFan");
    assert(mark("FibFan"@) == 70_070_097_110_006);
    reveal_strlit("Srema");
    assert(mark("Srema"@) == 83_101_109_097_005);
    reveal_strlit("Support");
    assert(mark("Support"@) == 83_112_114_116_007);
    reveal_strlit("Resistance");
    assert(mark("Resistance"@) == 82_116_099_101_010);
    reveal_strlit("Consensus");
    assert(mark("Consensus"@) == 67_101_117_115_009);
    reveal_strlit("Vl");
    assert(mark("Vl"@) == 86_108_086_108_002);
}

/// The verdict of a rule, read off a chart.
spec fn read_off(rule: Rule, c: spec_fn(Reading) -> Option<Num>) -> Option<bool> {
    let asked = verdict::reads(rule);
    verdict::judge(rule, Seq::new(asked.len(), |i: int| c(asked[i])))
}

proof fn lemma_reads(rule: Rule, c: spec_fn(Reading) -> Option<Num>)
    ensures
        match rule {
            Rule::Pass => read_off(rule, c) == Some(true),
            Rule::CloseMove { rising } => read_off(rule, c) == Some(
                over(c(now(Curve::Close)), c(before(Curve::Close)), rising) == Some(true),
            ),
            Rule::EmaStack { up } => read_off(rule, c) == chained(
                over(c(now(line(Study::Ema, Setup::Length(9), 0))), c(
                    now(line(Study::Ema, Setup::Length(21), 0)),
                ), up),
                over(c(now(line(Study::Ema, Setup::Length(21), 0))), c(
                    now(line(Study::Ema, Setup::Length(35), 0)),
                ), up),
            ),
            Rule::Gap { up } => read_off(rule, c) == (if up {
                over(c(Reading::Open { back: 0 }), c(Reading::High { back: 1 }), true)
            } else {
                over(c(Reading::Open { back: 0 }), c(Reading::Low { back: 1 }), false)
            }),
            Rule::AutoSupport { bull } => read_off(rule, c) == flag(c(Reading::GapWidens { bull })),
            Rule::Level { a, b, bull } => read_off(rule, c) == over(c(now(a)), c(now(b)), bull),
            Rule::Cross { a, b, up } => read_off(rule, c) == crosses(
                c(now(a)),
                c(before(a)),
                c(now(b)),
                c(before(b)),
                up,
            ),
            Rule::CrossDir { b, mid, up } => read_off(rule, c) == both(
                crosses(
                    c(now(Curve::Close)),
                    c(before(Curve::Close)),
                    c(now(b)),
                    c(before(b)),
                    up,
                ),
                over(c(now(mid)), c(before(mid)), up),
            ),
            Rule::Dir { curve, bull, neutral } => read_off(rule, c) == (if neutral {
                undrawn_passes(over(c(now(curve)), c(before(curve)), bull))
            } else {
                over(c(now(curve)), c(before(curve)), bull)
            }),
            Rule::Turn { curve, bull } => read_off(rule, c) == turns(
                c(now(curve)),
                c(before(curve)),
                c(Reading::Value { curve, back: 2 }),
                bull,
            ),
            Rule::Swing { bull } => read_off(rule, c) == flag(c(Reading::Swing { bull })),
            Rule::Vote { bull } => read_off(rule, c) == vote(c(Reading::Vote { back: 0 }), bull),
            Rule::VoteTurn { bull } => read_off(rule, c) == fresh_vote(
                c(Reading::Vote { back: 0 }),
                c(Reading::Vote { back: 1 }),
                bull,
            ),
            Rule::Signal { study, smooth, bull } => read_off(rule, c) == signal(
                c(Reading::Raw { study }),
                c(Reading::Signal { study, smooth }),
                bull,
            ),
            Rule::Hold { study, setup, bull } => read_off(rule, c) == lead_kept(
                c,
                study,
                setup,
                bull,
            ),
            Rule::ErgodicHold { bull } => read_off(rule, c) == ergodic_kept(c, bull),
            Rule::VortexHold { bull } => read_off(rule, c) == vortex_kept(c, bull),
            Rule::AdxHold { bull } => read_off(rule, c) == gauge_kept(c, bull),
            _ => true,
        },
{
    let asked = verdict::reads(rule);
    let v = Seq::new(asked.len(), |i: int| c(asked[i]));
    if asked.len() >= 1 {
        assert(v[0] == c(asked[0]));
    }
    if asked.len() >= 2 {
        assert(v[1] == c(asked[1]));
    }
    if asked.len() >= 3 {
        assert(v[2] == c(asked[2]));
    }
    if asked.len() >= 4 {
        assert(v[3] == c(asked[3]));
    }
    if asked.len() >= 6 {
        assert(v[4] == c(asked[4]));
        assert(v[5] == c(asked[5]));
    }
}

proof fn lemma_sided(bull: bool, b: Seq<char>)
    ensures
        rules::sided(sided_key(bull, b)) == (bull, b),
{
    reveal_strlit("Bull");
    reveal_strlit("Bear");
    let k = sided_key(bull, b);
    assert("Bull"@.len() == 4 && "Bear"@.len() == 4);
    assert("Bull"@[1] == 'u' && "Bear"@[1] == 'e');
    assert(k.subrange(4, k.len() as int) =~= b);
    if bull {
        assert(k.subrange(0, 4) =~= "Bull"@);
    } else {
        assert(k.subrange(0, 4) =~= "Bear"@);
        assert(k.subrange(0, 4)[1] == 'e');
    }
}

#[verifier::rlimit(40)]
proof fn lemma_close_keys_0(c: spec_fn(Reading) -> Option<Num>, bull: bool)
    ensures
        verdict(sided_key(bull, "IncUp"@), c) == Some(over(c(now(Curve::Close)), c(before(Curve::Close)), true) == Some(true)),
        verdict(sided_key(bull, "IncDown"@), c) == Some(over(c(now(Curve::Close)), c(before(Curve::Close)), false) == Some(true)),
{
    reveal(verdict);
    assert(rule_named(sided_key(bull, "IncUp"@)) == (Rule::CloseMove { rising: true })) by {
        reveal(rule_named);
        lemma_sided(bull, "IncUp"@);
        lemma_marks();
    }
    lemma_reads(Rule::CloseMove { rising: true }, c);
    assert(rule_named(sided_key(bull, "IncDown"@)) == (Rule::CloseMove { rising: false })) by {
        reveal(rule_named);
        lemma_sided(bull, "IncDown"@);
        lemma_marks();
    }
    lemma_reads(Rule::CloseMove { rising: false }, c);
}

#[verifier::rlimit(40)]
proof fn lemma_close_keys_1(c: spec_fn(Reading) -> Option<Num>, bull: bool)
    ensures
        verdict(sided_key(bull, "GapUp"@), c) == over(c(Reading::Open { back: 0 }), c(Reading::High { back: 1 }), true),
        verdict(sided_key(bull, "GapDown"@), c) == over(c(Reading::Open { back: 0 }), c(Reading::Low { back: 1 }), false),
{
    reveal(verdict);
    assert(rule_named(sided_key(bull, "GapUp"@)) == (Rule::Gap { up: true })) by {
        reveal(rule_named);
        lemma_sided(bull, "GapUp"@);
        lemma_marks();
    }
    lemma_reads(Rule::Gap { up: true }, c);
    assert(rule_named(sided_key(bull, "GapDown"@)) == (Rule::Gap { up: false })) by {
        reveal(rule_named);
        lemma_sided(bull, "GapDown"@);
        lemma_marks();
    }
    lemma_reads(Rule::Gap { up: false }, c);
}

#[verifier::rlimit(40)]
proof fn lemma_close_keys_2(c: spec_fn(Reading) -> Option<Num>, bull: bool)
    ensures
        verdict(sided_key(bull, "IncUpAll"@), c) == chained(over(c(now(line(Study::Ema, Setup::Length(9), 0))), c(now(line(Study::Ema, Setup::Length(21), 0))), true), over(c(now(line(Study::Ema, Setup::Length(21), 0))), c(now(line(Study::Ema, Setup::Length(35), 0))), true)),
        verdict(sided_key(bull, "IncDownAll"@), c) == chained(over(c(now(line(Study::Ema, Setup::Length(9), 0))), c(now(line(Study::Ema, Setup::Length(21), 0))), false), over(c(now(line(Study::Ema, Setup::Length(21), 0))), c(now(line(Study::Ema, Setup::Length(35), 0))), false)),
{
    reveal(verdict);
    assert(rule_named(sided_key(bull, "IncUpAll"@)) == (Rule::EmaStack { up: true })) by {
        reveal(rule_named);
        lemma_sided(bull, "IncUpAll"@);
        lemma_marks();
    }
    lemma_reads(Rule::EmaStack { up: true }, c);
    assert(rule_named(sided_key(bull, "IncDownAll"@)) == (Rule::EmaStack { up: false })) by {
        reveal(rule_named);
        lemma_sided(bull, "IncDownAll"@);
        lemma_marks();
    }
    lemma_reads(Rule::EmaStack { up: false }, c);
}

/// The keys on the close alone: it rose or fell against the bar before, the bar
/// opened beyond the range of the bar before, or the three averages stand in order.
pub proof fn law_close_keys(c: spec_fn(Reading) -> Option<Num>, bull: bool)
    ensures
        verdict(sided_key(bull, "IncUp"@), c) == Some(over(c(now(Curve::Close)), c(before(Curve::Close)), true) == Some(true)),
        verdict(sided_key(bull, "IncDown"@), c) == Some(over(c(now(Curve::Close)), c(before(Curve::Close)), false) == Some(true)),
        verdict(sided_key(bull, "GapUp"@), c) == over(c(Reading::Open { back: 0 }), c(Reading::High { back: 1 }), true),
        verdict(sided_key(bull, "GapDown"@), c) == over(c(Reading::Open { back: 0 }), c(Reading::Low { back: 1 }), false),
        verdict(sided_key(bull, "IncUpAll"@), c) == chained(over(c(now(line(Study::Ema, Setup::Length(9), 0))), c(now(line(Study::Ema, Setup::Length(21), 0))), true), over(c(now(line(Study::Ema, Setup::Length(21), 0))), c(now(line(Study::Ema, Setup::Length(35), 0))), true)),
        verdict(sided_key(bull, "IncDownAll"@), c) == chained(over(c(now(line(Study::Ema, Setup::Length(9), 0))), c(now(line(Study::Ema, Setup::Length(21), 0))), false), over(c(now(line(Study::Ema, Setup::Length(21), 0))), c(now(line(Study::Ema, Setup::Length(35), 0))), false)),
{
    lemma_close_keys_0(c, bull);
    lemma_close_keys_1(c, bull);
    lemma_close_keys_2(c, bull);
}

#[verifier::rlimit(40)]
proof fn lemma_scope_keys_0(c: spec_fn(Reading) -> Option<Num>, bull: bool)
    ensures
        verdict(sided_key(bull, "Candle"@), c) == Some(true),
        verdict(sided_key(bull, "Elliott"@), c) == Some(true),
{
    reveal(verdict);
    assert(rule_named(sided_key(bull, "Candle"@)) == (Rule::Pass)) by {
        reveal(rule_named);
        lemma_sided(bull, "Candle"@);
        lemma_marks();
    }
    lemma_reads(Rule::Pass, c);
    assert(rule_named(sided_key(bull, "Elliott"@)) == (Rule::Pass)) by {
        reveal(rule_named);
        lemma_sided(bull, "Elliott"@);
        lemma_marks();
    }
    lemma_reads(Rule::Pass, c);
}

#[verifier::rlimit(40)]
proof fn lemma_scope_keys_1(c: spec_fn(Reading) -> Option<Num>, bull: bool)
    ensures
        verdict(sided_key(bull, "Indicator"@), c) == Some(true),
        verdict(sided_key(bull, "Pane"@), c) == Some(true),
{
    reveal(verdict);
    assert(rule_named(sided_key(bull, "Indicator"@)) == (Rule::Pass)) by {
        reveal(rule_named);
        lemma_sided(bull, "Indicator"@);
        lemma_marks();
    }
    lemma_reads(Rule::Pass, c);
    assert(rule_named(sided_key(bull, "Pane"@)) == (Rule::Pass)) by {
        reveal(rule_named);
        lemma_sided(bull, "Pane"@);
        lemma_marks();
    }
    lemma_reads(Rule::Pass, c);
}

#[verifier::rlimit(40)]
proof fn lemma_scope_keys_2(c: spec_fn(Reading) -> Option<Num>, bull: bool)
    ensures
        verdict(sided_key(bull, "Symmetry"@), c) == Some(true),
        verdict(sided_key(bull, "Structure"@), c) == Some(true),
{
    reveal(verdict);
    assert(rule_named(sided_key(bull, "Symmetry"@)) == (Rule::Pass)) by {
        reveal(rule_named);
        lemma_sided(bull, "Symmetry"@);
        lemma_marks();
    }
    lemma_reads(Rule::Pass, c);
    assert(rule_named(sided_key(bull, "Structure"@)) == (Rule::Pass)) by {
        reveal(rule_named);
        lemma_sided(bull, "Structure"@);
        lemma_marks();
    }
    lemma_reads(Rule::Pass, c);
}

#[verifier::rlimit(40)]
proof fn lemma_scope_keys_3(c: spec_fn(Reading) -> Option<Num>, bull: bool)
    ensures
        verdict(sided_key(bull, "Atr"@), c) == Some(true),
        verdict(sided_key(bull, "PbrElderforce"@), c) == Some(true),
{
    reveal(verdict);
    assert(rule_named(sided_key(bull, "Atr"@)) == (Rule::Pass)) by {
        reveal(rule_named);
        lemma_sided(bull, "Atr"@);
        lemma_marks();
    }
    lemma_reads(Rule::Pass, c);
    assert(rule_named(sided_key(bull, "PbrElderforce"@)) == (Rule::Pass)) by {
        reveal(rule_named);
        lemma_sided(bull, "PbrElderforce"@);
        lemma_marks();
    }
    lemma_reads(Rule::Pass, c);
}

/// The keys that choose a research group, and the force key, hold on every chart.
pub proof fn law_scope_keys(c: spec_fn(Reading) -> Option<Num>, bull: bool)
    ensures
        verdict(sided_key(bull, "Candle"@), c) == Some(true),
        verdict(sided_key(bull, "Elliott"@), c) == Some(true),
        verdict(sided_key(bull, "Indicator"@), c) == Some(true),
        verdict(sided_key(bull, "Pane"@), c) == Some(true),
        verdict(sided_key(bull, "Symmetry"@), c) == Some(true),
        verdict(sided_key(bull, "Structure"@), c) == Some(true),
        verdict(sided_key(bull, "Atr"@), c) == Some(true),
        verdict(sided_key(bull, "PbrElderforce"@), c) == Some(true),
{
    lemma_scope_keys_0(c, bull);
    lemma_scope_keys_1(c, bull);
    lemma_scope_keys_2(c, bull);
    lemma_scope_keys_3(c, bull);
}

#[verifier::rlimit(40)]
proof fn lemma_level_keys_0(c: spec_fn(Reading) -> Option<Num>, bull: bool)
    ensures
        verdict(sided_key(bull, "MeetCross"@), c) == over(c(now(line(Study::Hma, Setup::Length(20), 0))), c(now(line(Study::Hma, Setup::Length(40), 0))), bull),
        verdict(sided_key(bull, "GtUp"@), c) == over(c(now(Curve::Close)), c(now(line(Study::Ema, Setup::Length(9), 0))), true),
{
    reveal(verdict);
    assert(rule_named(sided_key(bull, "MeetCross"@)) == (Rule::Level { a: Curve::Line { study: Study::Hma, setup: Setup::Length(20), line: 0 }, b: Curve::Line { study: Study::Hma, setup: Setup::Length(40), line: 0 }, bull })) by {
        reveal(rule_named);
        lemma_sided(bull, "MeetCross"@);
        lemma_marks();
    }
    lemma_reads(Rule::Level { a: Curve::Line { study: Study::Hma, setup: Setup::Length(20), line: 0 }, b: Curve::Line { study: Study::Hma, setup: Setup::Length(40), line: 0 }, bull }, c);
    assert(rule_named(sided_key(bull, "GtUp"@)) == (Rule::Level { a: Curve::Close, b: Curve::Line { study: Study::Ema, setup: Setup::Length(9), line: 0 }, bull: true })) by {
        reveal(rule_named);
        lemma_sided(bull, "GtUp"@);
        lemma_marks();
    }
    lemma_reads(Rule::Level { a: Curve::Close, b: Curve::Line { study: Study::Ema, setup: Setup::Length(9), line: 0 }, bull: true }, c);
}

#[verifier::rlimit(40)]
proof fn lemma_level_keys_1(c: spec_fn(Reading) -> Option<Num>, bull: bool)
    ensures
        verdict(sided_key(bull, "GtDown"@), c) == over(c(now(Curve::Close)), c(now(line(Study::Ema, Setup::Length(9), 0))), true),
        verdict(sided_key(bull, "LtUp"@), c) == over(c(now(Curve::Close)), c(now(line(Study::Ema, Setup::Length(9), 0))), false),
{
    reveal(verdict);
    assert(rule_named(sided_key(bull, "GtDown"@)) == (Rule::Level { a: Curve::Close, b: Curve::Line { study: Study::Ema, setup: Setup::Length(9), line: 0 }, bull: true })) by {
        reveal(rule_named);
        lemma_sided(bull, "GtDown"@);
        lemma_marks();
    }
    lemma_reads(Rule::Level { a: Curve::Close, b: Curve::Line { study: Study::Ema, setup: Setup::Length(9), line: 0 }, bull: true }, c);
    assert(rule_named(sided_key(bull, "LtUp"@)) == (Rule::Level { a: Curve::Close, b: Curve::Line { study: Study::Ema, setup: Setup::Length(9), line: 0 }, bull: false })) by {
        reveal(rule_named);
        lemma_sided(bull, "LtUp"@);
        lemma_marks();
    }
    lemma_reads(Rule::Level { a: Curve::Close, b: Curve::Line { study: Study::Ema, setup: Setup::Length(9), line: 0 }, bull: false }, c);
}

#[verifier::rlimit(40)]
proof fn lemma_level_keys_2(c: spec_fn(Reading) -> Option<Num>, bull: bool)
    ensures
        verdict(sided_key(bull, "LtDown"@), c) == over(c(now(Curve::Close)), c(now(line(Study::Ema, Setup::Length(9), 0))), false),
        verdict(sided_key(bull, "Smf"@), c) == over(c(now(line(Study::Smf, Setup::Flow, 0))), c(now(line(Study::Smf, Setup::Flow, 1))), bull),
{
    reveal(verdict);
    assert(rule_named(sided_key(bull, "LtDown"@)) == (Rule::Level { a: Curve::Close, b: Curve::Line { study: Study::Ema, setup: Setup::Length(9), line: 0 }, bull: false })) by {
        reveal(rule_named);
        lemma_sided(bull, "LtDown"@);
        lemma_marks();
    }
    lemma_reads(Rule::Level { a: Curve::Close, b: Curve::Line { study: Study::Ema, setup: Setup::Length(9), line: 0 }, bull: false }, c);
    assert(rule_named(sided_key(bull, "Smf"@)) == (Rule::Level { a: Curve::Line { study: Study::Smf, setup: Setup::Flow, line: 0 }, b: Curve::Line { study: Study::Smf, setup: Setup::Flow, line: 1 }, bull })) by {
        reveal(rule_named);
        lemma_sided(bull, "Smf"@);
        lemma_marks();
    }
    lemma_reads(Rule::Level { a: Curve::Line { study: Study::Smf, setup: Setup::Flow, line: 0 }, b: Curve::Line { study: Study::Smf, setup: Setup::Flow, line: 1 }, bull }, c);
}

#[verifier::rlimit(40)]
proof fn lemma_level_keys_3(c: spec_fn(Reading) -> Option<Num>, bull: bool)
    ensures
        verdict(sided_key(bull, "MeetCloseVwap"@), c) == over(c(now(Curve::Close)), c(now(line(Study::Vwap, Setup::Plain, 0))), bull),
        verdict(sided_key(bull, "MeetCloseSt"@), c) == over(c(now(Curve::Close)), c(now(line(Study::Supertrend, Setup::Trend(1), 0))), bull),
{
    reveal(verdict);
    assert(rule_named(sided_key(bull, "MeetCloseVwap"@)) == (Rule::Level { a: Curve::Close, b: Curve::Line { study: Study::Vwap, setup: Setup::Plain, line: 0 }, bull })) by {
        reveal(rule_named);
        lemma_sided(bull, "MeetCloseVwap"@);
        lemma_marks();
    }
    lemma_reads(Rule::Level { a: Curve::Close, b: Curve::Line { study: Study::Vwap, setup: Setup::Plain, line: 0 }, bull }, c);
    assert(rule_named(sided_key(bull, "MeetCloseSt"@)) == (Rule::Level { a: Curve::Close, b: Curve::Line { study: Study::Supertrend, setup: Setup::Trend(1), line: 0 }, bull })) by {
        reveal(rule_named);
        lemma_sided(bull, "MeetCloseSt"@);
        lemma_marks();
    }
    lemma_reads(Rule::Level { a: Curve::Close, b: Curve::Line { study: Study::Supertrend, setup: Setup::Trend(1), line: 0 }, bull }, c);
}

#[verifier::rlimit(40)]
proof fn lemma_level_keys_4(c: spec_fn(Reading) -> Option<Num>, bull: bool)
    ensures
        verdict(sided_key(bull, "MeetCloseBb"@), c) == over(c(now(Curve::Close)), c(now(line(Study::Bb, Setup::Bands, 1))), bull),
        verdict(sided_key(bull, "MeetClosePc"@), c) == over(c(now(Curve::Close)), c(now(Curve::ChannelMid)), bull),
{
    reveal(verdict);
    assert(rule_named(sided_key(bull, "MeetCloseBb"@)) == (Rule::Level { a: Curve::Close, b: Curve::Line { study: Study::Bb, setup: Setup::Bands, line: 1 }, bull })) by {
        reveal(rule_named);
        lemma_sided(bull, "MeetCloseBb"@);
        lemma_marks();
    }
    lemma_reads(Rule::Level { a: Curve::Close, b: Curve::Line { study: Study::Bb, setup: Setup::Bands, line: 1 }, bull }, c);
    assert(rule_named(sided_key(bull, "MeetClosePc"@)) == (Rule::Level { a: Curve::Close, b: Curve::ChannelMid, bull })) by {
        reveal(rule_named);
        lemma_sided(bull, "MeetClosePc"@);
        lemma_marks();
    }
    lemma_reads(Rule::Level { a: Curve::Close, b: Curve::ChannelMid, bull }, c);
}

#[verifier::rlimit(40)]
proof fn lemma_level_keys_5(c: spec_fn(Reading) -> Option<Num>, bull: bool)
    ensures
        verdict(sided_key(bull, "MeetVl"@), c) == over(c(now(line(Study::Vl, Setup::Flow, 0))), c(now(line(Study::Vl, Setup::Flow, 1))), bull),
{
    reveal(verdict);
    assert(rule_named(sided_key(bull, "MeetVl"@)) == (Rule::Level { a: Curve::Line { study: Study::Vl, setup: Setup::Flow, line: 0 }, b: Curve::Line { study: Study::Vl, setup: Setup::Flow, line: 1 }, bull })) by {
        reveal(rule_named);
        lemma_sided(bull, "MeetVl"@);
        lemma_marks();
    }
    lemma_reads(Rule::Level { a: Curve::Line { study: Study::Vl, setup: Setup::Flow, line: 0 }, b: Curve::Line { study: Study::Vl, setup: Setup::Flow, line: 1 }, bull }, c);
}

/// The keys that ask which of two curves stands higher.
pub proof fn law_level_keys(c: spec_fn(Reading) -> Option<Num>, bull: bool)
    ensures
        verdict(sided_key(bull, "MeetCross"@), c) == over(c(now(line(Study::Hma, Setup::Length(20), 0))), c(now(line(Study::Hma, Setup::Length(40), 0))), bull),
        verdict(sided_key(bull, "GtUp"@), c) == over(c(now(Curve::Close)), c(now(line(Study::Ema, Setup::Length(9), 0))), true),
        verdict(sided_key(bull, "GtDown"@), c) == over(c(now(Curve::Close)), c(now(line(Study::Ema, Setup::Length(9), 0))), true),
        verdict(sided_key(bull, "LtUp"@), c) == over(c(now(Curve::Close)), c(now(line(Study::Ema, Setup::Length(9), 0))), false),
        verdict(sided_key(bull, "LtDown"@), c) == over(c(now(Curve::Close)), c(now(line(Study::Ema, Setup::Length(9), 0))), false),
        verdict(sided_key(bull, "Smf"@), c) == over(c(now(line(Study::Smf, Setup::Flow, 0))), c(now(line(Study::Smf, Setup::Flow, 1))), bull),
        verdict(sided_key(bull, "MeetCloseVwap"@), c) == over(c(now(Curve::Close)), c(now(line(Study::Vwap, Setup::Plain, 0))), bull),
        verdict(sided_key(bull, "MeetCloseSt"@), c) == over(c(now(Curve::Close)), c(now(line(Study::Supertrend, Setup::Trend(1), 0))), bull),
        verdict(sided_key(bull, "MeetCloseBb"@), c) == over(c(now(Curve::Close)), c(now(line(Study::Bb, Setup::Bands, 1))), bull),
        verdict(sided_key(bull, "MeetClosePc"@), c) == over(c(now(Curve::Close)), c(now(Curve::ChannelMid)), bull),
        verdict(sided_key(bull, "MeetVl"@), c) == over(c(now(line(Study::Vl, Setup::Flow, 0))), c(now(line(Study::Vl, Setup::Flow, 1))), bull),
{
    lemma_level_keys_0(c, bull);
    lemma_level_keys_1(c, bull);
    lemma_level_keys_2(c, bull);
    lemma_level_keys_3(c, bull);
    lemma_level_keys_4(c, bull);
    lemma_level_keys_5(c, bull);
}

#[verifier::rlimit(40)]
proof fn lemma_direction_keys_0(c: spec_fn(Reading) -> Option<Num>, bull: bool)
    ensures
        verdict(sided_key(bull, "Oit"@), c) == over(c(now(Curve::Regime)), c(before(Curve::Regime)), bull),
        verdict(sided_key(bull, "BbwInc"@), c) == over(c(now(line(Study::Bbw, Setup::Plain, 0))), c(before(line(Study::Bbw, Setup::Plain, 0))), true),
{
    reveal(verdict);
    assert(rule_named(sided_key(bull, "Oit"@)) == (Rule::Dir { curve: Curve::Regime, bull, neutral: false })) by {
        reveal(rule_named);
        lemma_sided(bull, "Oit"@);
        lemma_marks();
    }
    lemma_reads(Rule::Dir { curve: Curve::Regime, bull, neutral: false }, c);
    assert(rule_named(sided_key(bull, "BbwInc"@)) == (Rule::Dir { curve: Curve::Line { study: Study::Bbw, setup: Setup::Plain, line: 0 }, bull: true, neutral: false })) by {
        reveal(rule_named);
        lemma_sided(bull, "BbwInc"@);
        lemma_marks();
    }
    lemma_reads(Rule::Dir { curve: Curve::Line { study: Study::Bbw, setup: Setup::Plain, line: 0 }, bull: true, neutral: false }, c);
}

#[verifier::rlimit(40)]
proof fn lemma_direction_keys_1(c: spec_fn(Reading) -> Option<Num>, bull: bool)
    ensures
        verdict(sided_key(bull, "PbrAo"@), c) == over(c(now(line(Study::Ao, Setup::Plain, 0))), c(before(line(Study::Ao, Setup::Plain, 0))), bull),
        verdict(sided_key(bull, "PbrSmiio"@), c) == over(c(now(line(Study::Smiio, Setup::Plain, 0))), c(before(line(Study::Smiio, Setup::Plain, 0))), bull),
{
    reveal(verdict);
    assert(rule_named(sided_key(bull, "PbrAo"@)) == (Rule::Dir { curve: Curve::Line { study: Study::Ao, setup: Setup::Plain, line: 0 }, bull, neutral: false })) by {
        reveal(rule_named);
        lemma_sided(bull, "PbrAo"@);
        lemma_marks();
    }
    lemma_reads(Rule::Dir { curve: Curve::Line { study: Study::Ao, setup: Setup::Plain, line: 0 }, bull, neutral: false }, c);
    assert(rule_named(sided_key(bull, "PbrSmiio"@)) == (Rule::Dir { curve: Curve::Line { study: Study::Smiio, setup: Setup::Plain, line: 0 }, bull, neutral: false })) by {
        reveal(rule_named);
        lemma_sided(bull, "PbrSmiio"@);
        lemma_marks();
    }
    lemma_reads(Rule::Dir { curve: Curve::Line { study: Study::Smiio, setup: Setup::Plain, line: 0 }, bull, neutral: false }, c);
}

#[verifier::rlimit(40)]
proof fn lemma_direction_keys_2(c: spec_fn(Reading) -> Option<Num>, bull: bool)
    ensures
        verdict(sided_key(bull, "PbrDpo"@), c) == over(c(now(line(Study::Dpo, Setup::Plain, 0))), c(before(line(Study::Dpo, Setup::Plain, 0))), bull),
        verdict(sided_key(bull, "PbrMfi"@), c) == over(c(now(line(Study::Mfi, Setup::Plain, 0))), c(before(line(Study::Mfi, Setup::Plain, 0))), bull),
{
    reveal(verdict);
    assert(rule_named(sided_key(bull, "PbrDpo"@)) == (Rule::Dir { curve: Curve::Line { study: Study::Dpo, setup: Setup::Plain, line: 0 }, bull, neutral: false })) by {
        reveal(rule_named);
        lemma_sided(bull, "PbrDpo"@);
        lemma_marks();
    }
    lemma_reads(Rule::Dir { curve: Curve::Line { study: Study::Dpo, setup: Setup::Plain, line: 0 }, bull, neutral: false }, c);
    assert(rule_named(sided_key(bull, "PbrMfi"@)) == (Rule::Dir { curve: Curve::Line { study: Study::Mfi, setup: Setup::Plain, line: 0 }, bull, neutral: false })) by {
        reveal(rule_named);
        lemma_sided(bull, "PbrMfi"@);
        lemma_marks();
    }
    lemma_reads(Rule::Dir { curve: Curve::Line { study: Study::Mfi, setup: Setup::Plain, line: 0 }, bull, neutral: false }, c);
}

#[verifier::rlimit(40)]
proof fn lemma_direction_keys_3(c: spec_fn(Reading) -> Option<Num>, bull: bool)
    ensures
        verdict(sided_key(bull, "PbrUo"@), c) == over(c(now(line(Study::Uo, Setup::Plain, 0))), c(before(line(Study::Uo, Setup::Plain, 0))), bull),
        verdict(sided_key(bull, "PbrWilliamsR"@), c) == over(c(now(line(Study::WilliamsR, Setup::Plain, 0))), c(before(line(Study::WilliamsR, Setup::Plain, 0))), bull),
{
    reveal(verdict);
    assert(rule_named(sided_key(bull, "PbrUo"@)) == (Rule::Dir { curve: Curve::Line { study: Study::Uo, setup: Setup::Plain, line: 0 }, bull, neutral: false })) by {
        reveal(rule_named);
        lemma_sided(bull, "PbrUo"@);
        lemma_marks();
    }
    lemma_reads(Rule::Dir { curve: Curve::Line { study: Study::Uo, setup: Setup::Plain, line: 0 }, bull, neutral: false }, c);
    assert(rule_named(sided_key(bull, "PbrWilliamsR"@)) == (Rule::Dir { curve: Curve::Line { study: Study::WilliamsR, setup: Setup::Plain, line: 0 }, bull, neutral: false })) by {
        reveal(rule_named);
        lemma_sided(bull, "PbrWilliamsR"@);
        lemma_marks();
    }
    lemma_reads(Rule::Dir { curve: Curve::Line { study: Study::WilliamsR, setup: Setup::Plain, line: 0 }, bull, neutral: false }, c);
}

#[verifier::rlimit(40)]
proof fn lemma_direction_keys_4(c: spec_fn(Reading) -> Option<Num>, bull: bool)
    ensures
        verdict(sided_key(bull, "PbrBbpct"@), c) == over(c(now(line(Study::Bbpct, Setup::Plain, 0))), c(before(line(Study::Bbpct, Setup::Plain, 0))), bull),
        verdict(sided_key(bull, "PbrPvt"@), c) == over(c(now(line(Study::Pvt, Setup::Plain, 0))), c(before(line(Study::Pvt, Setup::Plain, 0))), bull),
{
    reveal(verdict);
    assert(rule_named(sided_key(bull, "PbrBbpct"@)) == (Rule::Dir { curve: Curve::Line { study: Study::Bbpct, setup: Setup::Plain, line: 0 }, bull, neutral: false })) by {
        reveal(rule_named);
        lemma_sided(bull, "PbrBbpct"@);
        lemma_marks();
    }
    lemma_reads(Rule::Dir { curve: Curve::Line { study: Study::Bbpct, setup: Setup::Plain, line: 0 }, bull, neutral: false }, c);
    assert(rule_named(sided_key(bull, "PbrPvt"@)) == (Rule::Dir { curve: Curve::Line { study: Study::Pvt, setup: Setup::Plain, line: 0 }, bull, neutral: false })) by {
        reveal(rule_named);
        lemma_sided(bull, "PbrPvt"@);
        lemma_marks();
    }
    lemma_reads(Rule::Dir { curve: Curve::Line { study: Study::Pvt, setup: Setup::Plain, line: 0 }, bull, neutral: false }, c);
}

#[verifier::rlimit(40)]
proof fn lemma_direction_keys_5(c: spec_fn(Reading) -> Option<Num>, bull: bool)
    ensures
        verdict(sided_key(bull, "PbrAd"@), c) == over(c(now(line(Study::Ad, Setup::Plain, 0))), c(before(line(Study::Ad, Setup::Plain, 0))), bull),
        verdict(sided_key(bull, "PbrSmf"@), c) == over(c(now(line(Study::Smf, Setup::Plain, 0))), c(before(line(Study::Smf, Setup::Plain, 0))), bull),
{
    reveal(verdict);
    assert(rule_named(sided_key(bull, "PbrAd"@)) == (Rule::Dir { curve: Curve::Line { study: Study::Ad, setup: Setup::Plain, line: 0 }, bull, neutral: false })) by {
        reveal(rule_named);
        lemma_sided(bull, "PbrAd"@);
        lemma_marks();
    }
    lemma_reads(Rule::Dir { curve: Curve::Line { study: Study::Ad, setup: Setup::Plain, line: 0 }, bull, neutral: false }, c);
    assert(rule_named(sided_key(bull, "PbrSmf"@)) == (Rule::Dir { curve: Curve::Line { study: Study::Smf, setup: Setup::Plain, line: 0 }, bull, neutral: false })) by {
        reveal(rule_named);
        lemma_sided(bull, "PbrSmf"@);
        lemma_marks();
    }
    lemma_reads(Rule::Dir { curve: Curve::Line { study: Study::Smf, setup: Setup::Plain, line: 0 }, bull, neutral: false }, c);
}

#[verifier::rlimit(40)]
proof fn lemma_direction_keys_6(c: spec_fn(Reading) -> Option<Num>, bull: bool)
    ensures
        verdict(sided_key(bull, "PbrCmf"@), c) == over(c(now(line(Study::Cmf, Setup::Plain, 0))), c(before(line(Study::Cmf, Setup::Plain, 0))), bull),
        verdict(sided_key(bull, "PbrCci"@), c) == over(c(now(line(Study::Cci, Setup::Plain, 0))), c(before(line(Study::Cci, Setup::Plain, 0))), bull),
{
    reveal(verdict);
    assert(rule_named(sided_key(bull, "PbrCmf"@)) == (Rule::Dir { curve: Curve::Line { study: Study::Cmf, setup: Setup::Plain, line: 0 }, bull, neutral: false })) by {
        reveal(rule_named);
        lemma_sided(bull, "PbrCmf"@);
        lemma_marks();
    }
    lemma_reads(Rule::Dir { curve: Curve::Line { study: Study::Cmf, setup: Setup::Plain, line: 0 }, bull, neutral: false }, c);
    assert(rule_named(sided_key(bull, "PbrCci"@)) == (Rule::Dir { curve: Curve::Line { study: Study::Cci, setup: Setup::Plain, line: 0 }, bull, neutral: false })) by {
        reveal(rule_named);
        lemma_sided(bull, "PbrCci"@);
        lemma_marks();
    }
    lemma_reads(Rule::Dir { curve: Curve::Line { study: Study::Cci, setup: Setup::Plain, line: 0 }, bull, neutral: false }, c);
}

#[verifier::rlimit(40)]
proof fn lemma_direction_keys_7(c: spec_fn(Reading) -> Option<Num>, bull: bool)
    ensures
        verdict(sided_key(bull, "PbrSqzmom"@), c) == over(c(now(line(Study::Sqzmom, Setup::Plain, 0))), c(before(line(Study::Sqzmom, Setup::Plain, 0))), bull),
        verdict(sided_key(bull, "PbrBbwUp"@), c) == over(c(now(line(Study::Bbw, Setup::Plain, 0))), c(before(line(Study::Bbw, Setup::Plain, 0))), true),
{
    reveal(verdict);
    assert(rule_named(sided_key(bull, "PbrSqzmom"@)) == (Rule::Dir { curve: Curve::Line { study: Study::Sqzmom, setup: Setup::Plain, line: 0 }, bull, neutral: false })) by {
        reveal(rule_named);
        lemma_sided(bull, "PbrSqzmom"@);
        lemma_marks();
    }
    lemma_reads(Rule::Dir { curve: Curve::Line { study: Study::Sqzmom, setup: Setup::Plain, line: 0 }, bull, neutral: false }, c);
    assert(rule_named(sided_key(bull, "PbrBbwUp"@)) == (Rule::Dir { curve: Curve::Line { study: Study::Bbw, setup: Setup::Plain, line: 0 }, bull: true, neutral: false })) by {
        reveal(rule_named);
        lemma_sided(bull, "PbrBbwUp"@);
        lemma_marks();
    }
    lemma_reads(Rule::Dir { curve: Curve::Line { study: Study::Bbw, setup: Setup::Plain, line: 0 }, bull: true, neutral: false }, c);
}

#[verifier::rlimit(40)]
proof fn lemma_direction_keys_8(c: spec_fn(Reading) -> Option<Num>, bull: bool)
    ensures
        verdict(sided_key(bull, "PbrAtrUp"@), c) == over(c(now(line(Study::Atr, Setup::Plain, 0))), c(before(line(Study::Atr, Setup::Plain, 0))), true),
        verdict(sided_key(bull, "PbrVoloscUp"@), c) == over(c(now(line(Study::Volosc, Setup::Plain, 0))), c(before(line(Study::Volosc, Setup::Plain, 0))), true),
{
    reveal(verdict);
    assert(rule_named(sided_key(bull, "PbrAtrUp"@)) == (Rule::Dir { curve: Curve::Line { study: Study::Atr, setup: Setup::Plain, line: 0 }, bull: true, neutral: false })) by {
        reveal(rule_named);
        lemma_sided(bull, "PbrAtrUp"@);
        lemma_marks();
    }
    lemma_reads(Rule::Dir { curve: Curve::Line { study: Study::Atr, setup: Setup::Plain, line: 0 }, bull: true, neutral: false }, c);
    assert(rule_named(sided_key(bull, "PbrVoloscUp"@)) == (Rule::Dir { curve: Curve::Line { study: Study::Volosc, setup: Setup::Plain, line: 0 }, bull: true, neutral: false })) by {
        reveal(rule_named);
        lemma_sided(bull, "PbrVoloscUp"@);
        lemma_marks();
    }
    lemma_reads(Rule::Dir { curve: Curve::Line { study: Study::Volosc, setup: Setup::Plain, line: 0 }, bull: true, neutral: false }, c);
}

#[verifier::rlimit(40)]
proof fn lemma_direction_keys_9(c: spec_fn(Reading) -> Option<Num>, bull: bool)
    ensures
        verdict(sided_key(bull, "Asr"@), c) == flag(c(Reading::GapWidens { bull })),
{
    reveal(verdict);
    assert(rule_named(sided_key(bull, "Asr"@)) == (Rule::AutoSupport { bull })) by {
        reveal(rule_named);
        lemma_sided(bull, "Asr"@);
        lemma_marks();
    }
    lemma_reads(Rule::AutoSupport { bull }, c);
}

/// The keys that ask whether a line rises or falls.
pub proof fn law_direction_keys(c: spec_fn(Reading) -> Option<Num>, bull: bool)
    ensures
        verdict(sided_key(bull, "Oit"@), c) == over(c(now(Curve::Regime)), c(before(Curve::Regime)), bull),
        verdict(sided_key(bull, "BbwInc"@), c) == over(c(now(line(Study::Bbw, Setup::Plain, 0))), c(before(line(Study::Bbw, Setup::Plain, 0))), true),
        verdict(sided_key(bull, "PbrAo"@), c) == over(c(now(line(Study::Ao, Setup::Plain, 0))), c(before(line(Study::Ao, Setup::Plain, 0))), bull),
        verdict(sided_key(bull, "PbrSmiio"@), c) == over(c(now(line(Study::Smiio, Setup::Plain, 0))), c(before(line(Study::Smiio, Setup::Plain, 0))), bull),
        verdict(sided_key(bull, "PbrDpo"@), c) == over(c(now(line(Study::Dpo, Setup::Plain, 0))), c(before(line(Study::Dpo, Setup::Plain, 0))), bull),
        verdict(sided_key(bull, "PbrMfi"@), c) == over(c(now(line(Study::Mfi, Setup::Plain, 0))), c(before(line(Study::Mfi, Setup::Plain, 0))), bull),
        verdict(sided_key(bull, "PbrUo"@), c) == over(c(now(line(Study::Uo, Setup::Plain, 0))), c(before(line(Study::Uo, Setup::Plain, 0))), bull),
        verdict(sided_key(bull, "PbrWilliamsR"@), c) == over(c(now(line(Study::WilliamsR, Setup::Plain, 0))), c(before(line(Study::WilliamsR, Setup::Plain, 0))), bull),
        verdict(sided_key(bull, "PbrBbpct"@), c) == over(c(now(line(Study::Bbpct, Setup::Plain, 0))), c(before(line(Study::Bbpct, Setup::Plain, 0))), bull),
        verdict(sided_key(bull, "PbrPvt"@), c) == over(c(now(line(Study::Pvt, Setup::Plain, 0))), c(before(line(Study::Pvt, Setup::Plain, 0))), bull),
        verdict(sided_key(bull, "PbrAd"@), c) == over(c(now(line(Study::Ad, Setup::Plain, 0))), c(before(line(Study::Ad, Setup::Plain, 0))), bull),
        verdict(sided_key(bull, "PbrSmf"@), c) == over(c(now(line(Study::Smf, Setup::Plain, 0))), c(before(line(Study::Smf, Setup::Plain, 0))), bull),
        verdict(sided_key(bull, "PbrCmf"@), c) == over(c(now(line(Study::Cmf, Setup::Plain, 0))), c(before(line(Study::Cmf, Setup::Plain, 0))), bull),
        verdict(sided_key(bull, "PbrCci"@), c) == over(c(now(line(Study::Cci, Setup::Plain, 0))), c(before(line(Study::Cci, Setup::Plain, 0))), bull),
        verdict(sided_key(bull, "PbrSqzmom"@), c) == over(c(now(line(Study::Sqzmom, Setup::Plain, 0))), c(before(line(Study::Sqzmom, Setup::Plain, 0))), bull),
        verdict(sided_key(bull, "PbrBbwUp"@), c) == over(c(now(line(Study::Bbw, Setup::Plain, 0))), c(before(line(Study::Bbw, Setup::Plain, 0))), true),
        verdict(sided_key(bull, "PbrAtrUp"@), c) == over(c(now(line(Study::Atr, Setup::Plain, 0))), c(before(line(Study::Atr, Setup::Plain, 0))), true),
        verdict(sided_key(bull, "PbrVoloscUp"@), c) == over(c(now(line(Study::Volosc, Setup::Plain, 0))), c(before(line(Study::Volosc, Setup::Plain, 0))), true),
        verdict(sided_key(bull, "Asr"@), c) == flag(c(Reading::GapWidens { bull })),
{
    lemma_direction_keys_0(c, bull);
    lemma_direction_keys_1(c, bull);
    lemma_direction_keys_2(c, bull);
    lemma_direction_keys_3(c, bull);
    lemma_direction_keys_4(c, bull);
    lemma_direction_keys_5(c, bull);
    lemma_direction_keys_6(c, bull);
    lemma_direction_keys_7(c, bull);
    lemma_direction_keys_8(c, bull);
    lemma_direction_keys_9(c, bull);
}

#[verifier::rlimit(40)]
proof fn lemma_cross_keys_0(c: spec_fn(Reading) -> Option<Num>, bull: bool)
    ensures
        verdict(sided_key(bull, "CrossUp"@), c) == crosses(c(now(Curve::Close)), c(before(Curve::Close)), c(now(line(Study::Ema, Setup::Length(9), 0))), c(before(line(Study::Ema, Setup::Length(9), 0))), true),
        verdict(sided_key(bull, "CrossDown"@), c) == crosses(c(now(Curve::Close)), c(before(Curve::Close)), c(now(line(Study::Ema, Setup::Length(9), 0))), c(before(line(Study::Ema, Setup::Length(9), 0))), false),
{
    reveal(verdict);
    assert(rule_named(sided_key(bull, "CrossUp"@)) == (Rule::Cross { a: Curve::Close, b: Curve::Line { study: Study::Ema, setup: Setup::Length(9), line: 0 }, up: true })) by {
        reveal(rule_named);
        lemma_sided(bull, "CrossUp"@);
        lemma_marks();
    }
    lemma_reads(Rule::Cross { a: Curve::Close, b: Curve::Line { study: Study::Ema, setup: Setup::Length(9), line: 0 }, up: true }, c);
    assert(rule_named(sided_key(bull, "CrossDown"@)) == (Rule::Cross { a: Curve::Close, b: Curve::Line { study: Study::Ema, setup: Setup::Length(9), line: 0 }, up: false })) by {
        reveal(rule_named);
        lemma_sided(bull, "CrossDown"@);
        lemma_marks();
    }
    lemma_reads(Rule::Cross { a: Curve::Close, b: Curve::Line { study: Study::Ema, setup: Setup::Length(9), line: 0 }, up: false }, c);
}

#[verifier::rlimit(40)]
proof fn lemma_cross_keys_1(c: spec_fn(Reading) -> Option<Num>, bull: bool)
    ensures
        verdict(sided_key(bull, "VwapCloseCrossAbove"@), c) == crosses(c(now(Curve::Close)), c(before(Curve::Close)), c(now(line(Study::Vwap, Setup::Plain, 0))), c(before(line(Study::Vwap, Setup::Plain, 0))), true),
        verdict(sided_key(bull, "VwapCloseCrossBelow"@), c) == crosses(c(now(Curve::Close)), c(before(Curve::Close)), c(now(line(Study::Vwap, Setup::Plain, 0))), c(before(line(Study::Vwap, Setup::Plain, 0))), false),
{
    reveal(verdict);
    assert(rule_named(sided_key(bull, "VwapCloseCrossAbove"@)) == (Rule::Cross { a: Curve::Close, b: Curve::Line { study: Study::Vwap, setup: Setup::Plain, line: 0 }, up: true })) by {
        reveal(rule_named);
        lemma_sided(bull, "VwapCloseCrossAbove"@);
        lemma_marks();
    }
    lemma_reads(Rule::Cross { a: Curve::Close, b: Curve::Line { study: Study::Vwap, setup: Setup::Plain, line: 0 }, up: true }, c);
    assert(rule_named(sided_key(bull, "VwapCloseCrossBelow"@)) == (Rule::Cross { a: Curve::Close, b: Curve::Line { study: Study::Vwap, setup: Setup::Plain, line: 0 }, up: false })) by {
        reveal(rule_named);
        lemma_sided(bull, "VwapCloseCrossBelow"@);
        lemma_marks();
    }
    lemma_reads(Rule::Cross { a: Curve::Close, b: Curve::Line { study: Study::Vwap, setup: Setup::Plain, line: 0 }, up: false }, c);
}

#[verifier::rlimit(40)]
proof fn lemma_cross_keys_2(c: spec_fn(Reading) -> Option<Num>, bull: bool)
    ensures
        verdict(sided_key(bull, "St1CloseCrossAbove"@), c) == crosses(c(now(Curve::Close)), c(before(Curve::Close)), c(now(line(Study::Supertrend, Setup::Trend(1), 0))), c(before(line(Study::Supertrend, Setup::Trend(1), 0))), true),
        verdict(sided_key(bull, "St1CloseCrossBelow"@), c) == crosses(c(now(Curve::Close)), c(before(Curve::Close)), c(now(line(Study::Supertrend, Setup::Trend(1), 0))), c(before(line(Study::Supertrend, Setup::Trend(1), 0))), false),
{
    reveal(verdict);
    assert(rule_named(sided_key(bull, "St1CloseCrossAbove"@)) == (Rule::Cross { a: Curve::Close, b: Curve::Line { study: Study::Supertrend, setup: Setup::Trend(1), line: 0 }, up: true })) by {
        reveal(rule_named);
        lemma_sided(bull, "St1CloseCrossAbove"@);
        lemma_marks();
    }
    lemma_reads(Rule::Cross { a: Curve::Close, b: Curve::Line { study: Study::Supertrend, setup: Setup::Trend(1), line: 0 }, up: true }, c);
    assert(rule_named(sided_key(bull, "St1CloseCrossBelow"@)) == (Rule::Cross { a: Curve::Close, b: Curve::Line { study: Study::Supertrend, setup: Setup::Trend(1), line: 0 }, up: false })) by {
        reveal(rule_named);
        lemma_sided(bull, "St1CloseCrossBelow"@);
        lemma_marks();
    }
    lemma_reads(Rule::Cross { a: Curve::Close, b: Curve::Line { study: Study::Supertrend, setup: Setup::Trend(1), line: 0 }, up: false }, c);
}

#[verifier::rlimit(40)]
proof fn lemma_cross_keys_3(c: spec_fn(Reading) -> Option<Num>, bull: bool)
    ensures
        verdict(sided_key(bull, "BbCrossAbove"@), c) == both(crosses(c(now(Curve::Close)), c(before(Curve::Close)), c(now(line(Study::Bb, Setup::Bands, 0))), c(before(line(Study::Bb, Setup::Bands, 0))), true), over(c(now(line(Study::Bb, Setup::Bands, 1))), c(before(line(Study::Bb, Setup::Bands, 1))), true)),
        verdict(sided_key(bull, "BbCrossBelow"@), c) == both(crosses(c(now(Curve::Close)), c(before(Curve::Close)), c(now(line(Study::Bb, Setup::Bands, 0))), c(before(line(Study::Bb, Setup::Bands, 0))), false), over(c(now(line(Study::Bb, Setup::Bands, 1))), c(before(line(Study::Bb, Setup::Bands, 1))), false)),
{
    reveal(verdict);
    assert(rule_named(sided_key(bull, "BbCrossAbove"@)) == (Rule::CrossDir { b: Curve::Line { study: Study::Bb, setup: Setup::Bands, line: 0 }, mid: Curve::Line { study: Study::Bb, setup: Setup::Bands, line: 1 }, up: true })) by {
        reveal(rule_named);
        lemma_sided(bull, "BbCrossAbove"@);
        lemma_marks();
    }
    lemma_reads(Rule::CrossDir { b: Curve::Line { study: Study::Bb, setup: Setup::Bands, line: 0 }, mid: Curve::Line { study: Study::Bb, setup: Setup::Bands, line: 1 }, up: true }, c);
    assert(rule_named(sided_key(bull, "BbCrossBelow"@)) == (Rule::CrossDir { b: Curve::Line { study: Study::Bb, setup: Setup::Bands, line: 0 }, mid: Curve::Line { study: Study::Bb, setup: Setup::Bands, line: 1 }, up: false })) by {
        reveal(rule_named);
        lemma_sided(bull, "BbCrossBelow"@);
        lemma_marks();
    }
    lemma_reads(Rule::CrossDir { b: Curve::Line { study: Study::Bb, setup: Setup::Bands, line: 0 }, mid: Curve::Line { study: Study::Bb, setup: Setup::Bands, line: 1 }, up: false }, c);
}

#[verifier::rlimit(40)]
proof fn lemma_cross_keys_4(c: spec_fn(Reading) -> Option<Num>, bull: bool)
    ensures
        verdict(sided_key(bull, "PcCrossAbove"@), c) == both(crosses(c(now(Curve::Close)), c(before(Curve::Close)), c(now(Curve::ChannelMid)), c(before(Curve::ChannelMid)), true), over(c(now(Curve::ChannelMid)), c(before(Curve::ChannelMid)), true)),
        verdict(sided_key(bull, "PcCrossBelow"@), c) == both(crosses(c(now(Curve::Close)), c(before(Curve::Close)), c(now(Curve::ChannelMid)), c(before(Curve::ChannelMid)), false), over(c(now(Curve::ChannelMid)), c(before(Curve::ChannelMid)), false)),
{
    reveal(verdict);
    assert(rule_named(sided_key(bull, "PcCrossAbove"@)) == (Rule::CrossDir { b: Curve::ChannelMid, mid: Curve::ChannelMid, up: true })) by {
        reveal(rule_named);
        lemma_sided(bull, "PcCrossAbove"@);
        lemma_marks();
    }
    lemma_reads(Rule::CrossDir { b: Curve::ChannelMid, mid: Curve::ChannelMid, up: true }, c);
    assert(rule_named(sided_key(bull, "PcCrossBelow"@)) == (Rule::CrossDir { b: Curve::ChannelMid, mid: Curve::ChannelMid, up: false })) by {
        reveal(rule_named);
        lemma_sided(bull, "PcCrossBelow"@);
        lemma_marks();
    }
    lemma_reads(Rule::CrossDir { b: Curve::ChannelMid, mid: Curve::ChannelMid, up: false }, c);
}

/// The keys that ask whether the close crossed a line on this bar.
pub proof fn law_cross_keys(c: spec_fn(Reading) -> Option<Num>, bull: bool)
    ensures
        verdict(sided_key(bull, "CrossUp"@), c) == crosses(c(now(Curve::Close)), c(before(Curve::Close)), c(now(line(Study::Ema, Setup::Length(9), 0))), c(before(line(Study::Ema, Setup::Length(9), 0))), true),
        verdict(sided_key(bull, "CrossDown"@), c) == crosses(c(now(Curve::Close)), c(before(Curve::Close)), c(now(line(Study::Ema, Setup::Length(9), 0))), c(before(line(Study::Ema, Setup::Length(9), 0))), false),
        verdict(sided_key(bull, "VwapCloseCrossAbove"@), c) == crosses(c(now(Curve::Close)), c(before(Curve::Close)), c(now(line(Study::Vwap, Setup::Plain, 0))), c(before(line(Study::Vwap, Setup::Plain, 0))), true),
        verdict(sided_key(bull, "VwapCloseCrossBelow"@), c) == crosses(c(now(Curve::Close)), c(before(Curve::Close)), c(now(line(Study::Vwap, Setup::Plain, 0))), c(before(line(Study::Vwap, Setup::Plain, 0))), false),
        verdict(sided_key(bull, "St1CloseCrossAbove"@), c) == crosses(c(now(Curve::Close)), c(before(Curve::Close)), c(now(line(Study::Supertrend, Setup::Trend(1), 0))), c(before(line(Study::Supertrend, Setup::Trend(1), 0))), true),
        verdict(sided_key(bull, "St1CloseCrossBelow"@), c) == crosses(c(now(Curve::Close)), c(before(Curve::Close)), c(now(line(Study::Supertrend, Setup::Trend(1), 0))), c(before(line(Study::Supertrend, Setup::Trend(1), 0))), false),
        verdict(sided_key(bull, "BbCrossAbove"@), c) == both(crosses(c(now(Curve::Close)), c(before(Curve::Close)), c(now(line(Study::Bb, Setup::Bands, 0))), c(before(line(Study::Bb, Setup::Bands, 0))), true), over(c(now(line(Study::Bb, Setup::Bands, 1))), c(before(line(Study::Bb, Setup::Bands, 1))), true)),
        verdict(sided_key(bull, "BbCrossBelow"@), c) == both(crosses(c(now(Curve::Close)), c(before(Curve::Close)), c(now(line(Study::Bb, Setup::Bands, 0))), c(before(line(Study::Bb, Setup::Bands, 0))), false), over(c(now(line(Study::Bb, Setup::Bands, 1))), c(before(line(Study::Bb, Setup::Bands, 1))), false)),
        verdict(sided_key(bull, "PcCrossAbove"@), c) == both(crosses(c(now(Curve::Close)), c(before(Curve::Close)), c(now(Curve::ChannelMid)), c(before(Curve::ChannelMid)), true), over(c(now(Curve::ChannelMid)), c(before(Curve::ChannelMid)), true)),
        verdict(sided_key(bull, "PcCrossBelow"@), c) == both(crosses(c(now(Curve::Close)), c(before(Curve::Close)), c(now(Curve::ChannelMid)), c(before(Curve::ChannelMid)), false), over(c(now(Curve::ChannelMid)), c(before(Curve::ChannelMid)), false)),
{
    lemma_cross_keys_0(c, bull);
    lemma_cross_keys_1(c, bull);
    lemma_cross_keys_2(c, bull);
    lemma_cross_keys_3(c, bull);
    lemma_cross_keys_4(c, bull);
}
/// The first letters of a key part that stands for itself are not those of a family.
spec fn of_family(b: Seq<char>) -> bool {
    &&& b.len() >= 2
    &&& {
        ||| b[0] == 'A' && b[1] == 'r'
        ||| b[0] == 'S' && b[1] == 'l'
        ||| b.len() >= 4 && b[0] == 'S' && b[1] == 't' && b[2] == '1' && b[3] == '0'
        ||| b[0] == 'O' && b[1] == 'b'
        ||| b[0] == 'V' && b[1] == 'l'
        ||| b.len() >= 3 && b[0] == 'P' && b[1] == 'b' && b[2] == 'g'
        ||| b[0] == 'E' && b[1] == 'm'
        ||| b.len() >= 5 && b[0] == 'M' && b[1] == 'e' && (b[4] == 'S' || b[4] == 'O' || b[4]
            == 'E')
    }
}

proof fn lemma_not_plain(b: Seq<char>, bull: bool)
    requires
        of_family(b),
    ensures
        rules::plain_rule(b, bull) is None,
{
    reveal_strlit("IncUp");
    assert("IncUp"@.len() == 5 && "IncUp"@[0] == 'I' && "IncUp"@[1] == 'n' && "IncUp"@[2] == 'c' && "IncUp"@[3] == 'U' && "IncUp"@[4] == 'p');
    assert(b != "IncUp"@);
    reveal_strlit("IncDown");
    assert("IncDown"@.len() == 7 && "IncDown"@[0] == 'I' && "IncDown"@[1] == 'n' && "IncDown"@[2] == 'c' && "IncDown"@[3] == 'D' && "IncDown"@[4] == 'o');
    assert(b != "IncDown"@);
    reveal_strlit("IncUpAll");
    assert("IncUpAll"@.len() == 8 && "IncUpAll"@[0] == 'I' && "IncUpAll"@[1] == 'n' && "IncUpAll"@[2] == 'c' && "IncUpAll"@[3] == 'U' && "IncUpAll"@[4] == 'p');
    assert(b != "IncUpAll"@);
    reveal_strlit("IncDownAll");
    assert("IncDownAll"@.len() == 10 && "IncDownAll"@[0] == 'I' && "IncDownAll"@[1] == 'n' && "IncDownAll"@[2] == 'c' && "IncDownAll"@[3] == 'D' && "IncDownAll"@[4] == 'o');
    assert(b != "IncDownAll"@);
    reveal_strlit("GapUp");
    assert("GapUp"@.len() == 5 && "GapUp"@[0] == 'G' && "GapUp"@[1] == 'a' && "GapUp"@[2] == 'p' && "GapUp"@[3] == 'U' && "GapUp"@[4] == 'p');
    assert(b != "GapUp"@);
    reveal_strlit("GapDown");
    assert("GapDown"@.len() == 7 && "GapDown"@[0] == 'G' && "GapDown"@[1] == 'a' && "GapDown"@[2] == 'p' && "GapDown"@[3] == 'D' && "GapDown"@[4] == 'o');
    assert(b != "GapDown"@);
    reveal_strlit("PaneCrossUp");
    assert("PaneCrossUp"@.len() == 11 && "PaneCrossUp"@[0] == 'P' && "PaneCrossUp"@[1] == 'a' && "PaneCrossUp"@[2] == 'n' && "PaneCrossUp"@[3] == 'e' && "PaneCrossUp"@[4] == 'C');
    assert(b != "PaneCrossUp"@);
    reveal_strlit("PaneCrossDown");
    assert("PaneCrossDown"@.len() == 13 && "PaneCrossDown"@[0] == 'P' && "PaneCrossDown"@[1] == 'a' && "PaneCrossDown"@[2] == 'n' && "PaneCrossDown"@[3] == 'e' && "PaneCrossDown"@[4] == 'C');
    assert(b != "PaneCrossDown"@);
    reveal_strlit("PaneIncUpAll");
    assert("PaneIncUpAll"@.len() == 12 && "PaneIncUpAll"@[0] == 'P' && "PaneIncUpAll"@[1] == 'a' && "PaneIncUpAll"@[2] == 'n' && "PaneIncUpAll"@[3] == 'e' && "PaneIncUpAll"@[4] == 'I');
    assert(b != "PaneIncUpAll"@);
    reveal_strlit("PaneIncDownAll");
    assert("PaneIncDownAll"@.len() == 14 && "PaneIncDownAll"@[0] == 'P' && "PaneIncDownAll"@[1] == 'a' && "PaneIncDownAll"@[2] == 'n' && "PaneIncDownAll"@[3] == 'e' && "PaneIncDownAll"@[4] == 'I');
    assert(b != "PaneIncDownAll"@);
    reveal_strlit("MeetPaneCross");
    assert("MeetPaneCross"@.len() == 13 && "MeetPaneCross"@[0] == 'M' && "MeetPaneCross"@[1] == 'e' && "MeetPaneCross"@[2] == 'e' && "MeetPaneCross"@[3] == 't' && "MeetPaneCross"@[4] == 'P');
    assert(b != "MeetPaneCross"@);
    reveal_strlit("MeetCross");
    assert("MeetCross"@.len() == 9 && "MeetCross"@[0] == 'M' && "MeetCross"@[1] == 'e' && "MeetCross"@[2] == 'e' && "MeetCross"@[3] == 't' && "MeetCross"@[4] == 'C');
    assert(b != "MeetCross"@);
    reveal_strlit("Asr");
    assert("Asr"@.len() == 3 && "Asr"@[0] == 'A' && "Asr"@[1] == 's' && "Asr"@[2] == 'r');
    assert(b != "Asr"@);
    reveal_strlit("Oit");
    assert("Oit"@.len() == 3 && "Oit"@[0] == 'O' && "Oit"@[1] == 'i' && "Oit"@[2] == 't');
    assert(b != "Oit"@);
    reveal_strlit("Candle");
    assert("Candle"@.len() == 6 && "Candle"@[0] == 'C' && "Candle"@[1] == 'a' && "Candle"@[2] == 'n' && "Candle"@[3] == 'd' && "Candle"@[4] == 'l');
    assert(b != "Candle"@);
    reveal_strlit("Elliott");
    assert("Elliott"@.len() == 7 && "Elliott"@[0] == 'E' && "Elliott"@[1] == 'l' && "Elliott"@[2] == 'l' && "Elliott"@[3] == 'i' && "Elliott"@[4] == 'o');
    assert(b != "Elliott"@);
    reveal_strlit("Indicator");
    assert("Indicator"@.len() == 9 && "Indicator"@[0] == 'I' && "Indicator"@[1] == 'n' && "Indicator"@[2] == 'd' && "Indicator"@[3] == 'i' && "Indicator"@[4] == 'c');
    assert(b != "Indicator"@);
    reveal_strlit("Pane");
    assert("Pane"@.len() == 4 && "Pane"@[0] == 'P' && "Pane"@[1] == 'a' && "Pane"@[2] == 'n' && "Pane"@[3] == 'e');
    assert(b != "Pane"@);
    reveal_strlit("Symmetry");
    assert("Symmetry"@.len() == 8 && "Symmetry"@[0] == 'S' && "Symmetry"@[1] == 'y' && "Symmetry"@[2] == 'm' && "Symmetry"@[3] == 'm' && "Symmetry"@[4] == 'e');
    assert(b != "Symmetry"@);
    reveal_strlit("Structure");
    assert("Structure"@.len() == 9 && "Structure"@[0] == 'S' && "Structure"@[1] == 't' && "Structure"@[2] == 'r' && "Structure"@[3] == 'u' && "Structure"@[4] == 'c');
    assert(b != "Structure"@);
    reveal_strlit("Atr");
    assert("Atr"@.len() == 3 && "Atr"@[0] == 'A' && "Atr"@[1] == 't' && "Atr"@[2] == 'r');
    assert(b != "Atr"@);
    reveal_strlit("CrossUp");
    assert("CrossUp"@.len() == 7 && "CrossUp"@[0] == 'C' && "CrossUp"@[1] == 'r' && "CrossUp"@[2] == 'o' && "CrossUp"@[3] == 's' && "CrossUp"@[4] == 's');
    assert(b != "CrossUp"@);
    reveal_strlit("CrossDown");
    assert("CrossDown"@.len() == 9 && "CrossDown"@[0] == 'C' && "CrossDown"@[1] == 'r' && "CrossDown"@[2] == 'o' && "CrossDown"@[3] == 's' && "CrossDown"@[4] == 's');
    assert(b != "CrossDown"@);
    reveal_strlit("GtUp");
    assert("GtUp"@.len() == 4 && "GtUp"@[0] == 'G' && "GtUp"@[1] == 't' && "GtUp"@[2] == 'U' && "GtUp"@[3] == 'p');
    assert(b != "GtUp"@);
    reveal_strlit("GtDown");
    assert("GtDown"@.len() == 6 && "GtDown"@[0] == 'G' && "GtDown"@[1] == 't' && "GtDown"@[2] == 'D' && "GtDown"@[3] == 'o' && "GtDown"@[4] == 'w');
    assert(b != "GtDown"@);
    reveal_strlit("LtUp");
    assert("LtUp"@.len() == 4 && "LtUp"@[0] == 'L' && "LtUp"@[1] == 't' && "LtUp"@[2] == 'U' && "LtUp"@[3] == 'p');
    assert(b != "LtUp"@);
    reveal_strlit("LtDown");
    assert("LtDown"@.len() == 6 && "LtDown"@[0] == 'L' && "LtDown"@[1] == 't' && "LtDown"@[2] == 'D' && "LtDown"@[3] == 'o' && "LtDown"@[4] == 'w');
    assert(b != "LtDown"@);
    reveal_strlit("BbwInc");
    assert("BbwInc"@.len() == 6 && "BbwInc"@[0] == 'B' && "BbwInc"@[1] == 'b' && "BbwInc"@[2] == 'w' && "BbwInc"@[3] == 'I' && "BbwInc"@[4] == 'n');
    assert(b != "BbwInc"@);
    reveal_strlit("Smf");
    assert("Smf"@.len() == 3 && "Smf"@[0] == 'S' && "Smf"@[1] == 'm' && "Smf"@[2] == 'f');
    assert(b != "Smf"@);
    reveal_strlit("VwapCloseCrossAbove");
    assert("VwapCloseCrossAbove"@.len() == 19 && "VwapCloseCrossAbove"@[0] == 'V' && "VwapCloseCrossAbove"@[1] == 'w' && "VwapCloseCrossAbove"@[2] == 'a' && "VwapCloseCrossAbove"@[3] == 'p' && "VwapCloseCrossAbove"@[4] == 'C');
    assert(b != "VwapCloseCrossAbove"@);
    reveal_strlit("VwapCloseCrossBelow");
    assert("VwapCloseCrossBelow"@.len() == 19 && "VwapCloseCrossBelow"@[0] == 'V' && "VwapCloseCrossBelow"@[1] == 'w' && "VwapCloseCrossBelow"@[2] == 'a' && "VwapCloseCrossBelow"@[3] == 'p' && "VwapCloseCrossBelow"@[4] == 'C');
    assert(b != "VwapCloseCrossBelow"@);
    reveal_strlit("MeetCloseVwap");
    assert("MeetCloseVwap"@.len() == 13 && "MeetCloseVwap"@[0] == 'M' && "MeetCloseVwap"@[1] == 'e' && "MeetCloseVwap"@[2] == 'e' && "MeetCloseVwap"@[3] == 't' && "MeetCloseVwap"@[4] == 'C');
    assert(b != "MeetCloseVwap"@);
    reveal_strlit("PbrAo");
    assert("PbrAo"@.len() == 5 && "PbrAo"@[0] == 'P' && "PbrAo"@[1] == 'b' && "PbrAo"@[2] == 'r' && "PbrAo"@[3] == 'A' && "PbrAo"@[4] == 'o');
    assert(b != "PbrAo"@);
    reveal_strlit("PbrSmiio");
    assert("PbrSmiio"@.len() == 8 && "PbrSmiio"@[0] == 'P' && "PbrSmiio"@[1] == 'b' && "PbrSmiio"@[2] == 'r' && "PbrSmiio"@[3] == 'S' && "PbrSmiio"@[4] == 'm');
    assert(b != "PbrSmiio"@);
    reveal_strlit("PbrDpo");
    assert("PbrDpo"@.len() == 6 && "PbrDpo"@[0] == 'P' && "PbrDpo"@[1] == 'b' && "PbrDpo"@[2] == 'r' && "PbrDpo"@[3] == 'D' && "PbrDpo"@[4] == 'p');
    assert(b != "PbrDpo"@);
    reveal_strlit("PbrMfi");
    assert("PbrMfi"@.len() == 6 && "PbrMfi"@[0] == 'P' && "PbrMfi"@[1] == 'b' && "PbrMfi"@[2] == 'r' && "PbrMfi"@[3] == 'M' && "PbrMfi"@[4] == 'f');
    assert(b != "PbrMfi"@);
    reveal_strlit("PbrUo");
    assert("PbrUo"@.len() == 5 && "PbrUo"@[0] == 'P' && "PbrUo"@[1] == 'b' && "PbrUo"@[2] == 'r' && "PbrUo"@[3] == 'U' && "PbrUo"@[4] == 'o');
    assert(b != "PbrUo"@);
    reveal_strlit("PbrWilliamsR");
    assert("PbrWilliamsR"@.len() == 12 && "PbrWilliamsR"@[0] == 'P' && "PbrWilliamsR"@[1] == 'b' && "PbrWilliamsR"@[2] == 'r' && "PbrWilliamsR"@[3] == 'W' && "PbrWilliamsR"@[4] == 'i');
    assert(b != "PbrWilliamsR"@);
    reveal_strlit("PbrBbpct");
    assert("PbrBbpct"@.len() == 8 && "PbrBbpct"@[0] == 'P' && "PbrBbpct"@[1] == 'b' && "PbrBbpct"@[2] == 'r' && "PbrBbpct"@[3] == 'B' && "PbrBbpct"@[4] == 'b');
    assert(b != "PbrBbpct"@);
    reveal_strlit("PbrPvt");
    assert("PbrPvt"@.len() == 6 && "PbrPvt"@[0] == 'P' && "PbrPvt"@[1] == 'b' && "PbrPvt"@[2] == 'r' && "PbrPvt"@[3] == 'P' && "PbrPvt"@[4] == 'v');
    assert(b != "PbrPvt"@);
    reveal_strlit("PbrAd");
    assert("PbrAd"@.len() == 5 && "PbrAd"@[0] == 'P' && "PbrAd"@[1] == 'b' && "PbrAd"@[2] == 'r' && "PbrAd"@[3] == 'A' && "PbrAd"@[4] == 'd');
    assert(b != "PbrAd"@);
    reveal_strlit("PbrSmf");
    assert("PbrSmf"@.len() == 6 && "PbrSmf"@[0] == 'P' && "PbrSmf"@[1] == 'b' && "PbrSmf"@[2] == 'r' && "PbrSmf"@[3] == 'S' && "PbrSmf"@[4] == 'm');
    assert(b != "PbrSmf"@);
    reveal_strlit("PbrCmf");
    assert("PbrCmf"@.len() == 6 && "PbrCmf"@[0] == 'P' && "PbrCmf"@[1] == 'b' && "PbrCmf"@[2] == 'r' && "PbrCmf"@[3] == 'C' && "PbrCmf"@[4] == 'm');
    assert(b != "PbrCmf"@);
    reveal_strlit("PbrCci");
    assert("PbrCci"@.len() == 6 && "PbrCci"@[0] == 'P' && "PbrCci"@[1] == 'b' && "PbrCci"@[2] == 'r' && "PbrCci"@[3] == 'C' && "PbrCci"@[4] == 'c');
    assert(b != "PbrCci"@);
    reveal_strlit("PbrSqzmom");
    assert("PbrSqzmom"@.len() == 9 && "PbrSqzmom"@[0] == 'P' && "PbrSqzmom"@[1] == 'b' && "PbrSqzmom"@[2] == 'r' && "PbrSqzmom"@[3] == 'S' && "PbrSqzmom"@[4] == 'q');
    assert(b != "PbrSqzmom"@);
    reveal_strlit("PbrElderforce");
    assert("PbrElderforce"@.len() == 13 && "PbrElderforce"@[0] == 'P' && "PbrElderforce"@[1] == 'b' && "PbrElderforce"@[2] == 'r' && "PbrElderforce"@[3] == 'E' && "PbrElderforce"@[4] == 'l');
    assert(b != "PbrElderforce"@);
    reveal_strlit("PbrBbwUp");
    assert("PbrBbwUp"@.len() == 8 && "PbrBbwUp"@[0] == 'P' && "PbrBbwUp"@[1] == 'b' && "PbrBbwUp"@[2] == 'r' && "PbrBbwUp"@[3] == 'B' && "PbrBbwUp"@[4] == 'b');
    assert(b != "PbrBbwUp"@);
    reveal_strlit("PbrAtrUp");
    assert("PbrAtrUp"@.len() == 8 && "PbrAtrUp"@[0] == 'P' && "PbrAtrUp"@[1] == 'b' && "PbrAtrUp"@[2] == 'r' && "PbrAtrUp"@[3] == 'A' && "PbrAtrUp"@[4] == 't');
    assert(b != "PbrAtrUp"@);
    reveal_strlit("PbrVoloscUp");
    assert("PbrVoloscUp"@.len() == 11 && "PbrVoloscUp"@[0] == 'P' && "PbrVoloscUp"@[1] == 'b' && "PbrVoloscUp"@[2] == 'r' && "PbrVoloscUp"@[3] == 'V' && "PbrVoloscUp"@[4] == 'o');
    assert(b != "PbrVoloscUp"@);
    reveal_strlit("St1CloseCrossAbove");
    assert("St1CloseCrossAbove"@.len() == 18 && "St1CloseCrossAbove"@[0] == 'S' && "St1CloseCrossAbove"@[1] == 't' && "St1CloseCrossAbove"@[2] == '1' && "St1CloseCrossAbove"@[3] == 'C' && "St1CloseCrossAbove"@[4] == 'l');
    assert(b != "St1CloseCrossAbove"@);
    reveal_strlit("St1CloseCrossBelow");
    assert("St1CloseCrossBelow"@.len() == 18 && "St1CloseCrossBelow"@[0] == 'S' && "St1CloseCrossBelow"@[1] == 't' && "St1CloseCrossBelow"@[2] == '1' && "St1CloseCrossBelow"@[3] == 'C' && "St1CloseCrossBelow"@[4] == 'l');
    assert(b != "St1CloseCrossBelow"@);
    reveal_strlit("MeetCloseSt");
    assert("MeetCloseSt"@.len() == 11 && "MeetCloseSt"@[0] == 'M' && "MeetCloseSt"@[1] == 'e' && "MeetCloseSt"@[2] == 'e' && "MeetCloseSt"@[3] == 't' && "MeetCloseSt"@[4] == 'C');
    assert(b != "MeetCloseSt"@);
    reveal_strlit("BbCrossAbove");
    assert("BbCrossAbove"@.len() == 12 && "BbCrossAbove"@[0] == 'B' && "BbCrossAbove"@[1] == 'b' && "BbCrossAbove"@[2] == 'C' && "BbCrossAbove"@[3] == 'r' && "BbCrossAbove"@[4] == 'o');
    assert(b != "BbCrossAbove"@);
    reveal_strlit("BbCrossBelow");
    assert("BbCrossBelow"@.len() == 12 && "BbCrossBelow"@[0] == 'B' && "BbCrossBelow"@[1] == 'b' && "BbCrossBelow"@[2] == 'C' && "BbCrossBelow"@[3] == 'r' && "BbCrossBelow"@[4] == 'o');
    assert(b != "BbCrossBelow"@);
    reveal_strlit("PcCrossAbove");
    assert("PcCrossAbove"@.len() == 12 && "PcCrossAbove"@[0] == 'P' && "PcCrossAbove"@[1] == 'c' && "PcCrossAbove"@[2] == 'C' && "PcCrossAbove"@[3] == 'r' && "PcCrossAbove"@[4] == 'o');
    assert(b != "PcCrossAbove"@);
    reveal_strlit("PcCrossBelow");
    assert("PcCrossBelow"@.len() == 12 && "PcCrossBelow"@[0] == 'P' && "PcCrossBelow"@[1] == 'c' && "PcCrossBelow"@[2] == 'C' && "PcCrossBelow"@[3] == 'r' && "PcCrossBelow"@[4] == 'o');
    assert(b != "PcCrossBelow"@);
    reveal_strlit("MeetCloseBb");
    assert("MeetCloseBb"@.len() == 11 && "MeetCloseBb"@[0] == 'M' && "MeetCloseBb"@[1] == 'e' && "MeetCloseBb"@[2] == 'e' && "MeetCloseBb"@[3] == 't' && "MeetCloseBb"@[4] == 'C');
    assert(b != "MeetCloseBb"@);
    reveal_strlit("MeetClosePc");
    assert("MeetClosePc"@.len() == 11 && "MeetClosePc"@[0] == 'M' && "MeetClosePc"@[1] == 'e' && "MeetClosePc"@[2] == 'e' && "MeetClosePc"@[3] == 't' && "MeetClosePc"@[4] == 'C');
    assert(b != "MeetClosePc"@);
    reveal_strlit("MeetVl");
    assert("MeetVl"@.len() == 6 && "MeetVl"@[0] == 'M' && "MeetVl"@[1] == 'e' && "MeetVl"@[2] == 'e' && "MeetVl"@[3] == 't' && "MeetVl"@[4] == 'V');
    assert(b != "MeetVl"@);
}

proof fn lemma_heads()
    ensures
        "Arrow"@.len() == 5,
        "Arrow"@[0] == 'A',
        "Arrow"@[1] == 'r',
        "Arrow"@[2] == 'r',
        "Arrow"@[3] == 'o',
        "Arrow"@[4] == 'w',
        "St10_"@.len() == 5,
        "St10_"@[0] == 'S',
        "St10_"@[1] == 't',
        "St10_"@[2] == '1',
        "St10_"@[3] == '0',
        "St10_"@[4] == '_',
        "MeetSt10_"@.len() == 9,
        "MeetSt10_"@[0] == 'M',
        "MeetSt10_"@[1] == 'e',
        "MeetSt10_"@[2] == 'e',
        "MeetSt10_"@[3] == 't',
        "MeetSt10_"@[4] == 'S',
        "MeetSt10_"@[5] == 't',
        "MeetSt10_"@[6] == '1',
        "MeetSt10_"@[7] == '0',
        "MeetSt10_"@[8] == '_',
        "Obr"@.len() == 3,
        "Obr"@[0] == 'O',
        "Obr"@[1] == 'b',
        "Obr"@[2] == 'r',
        "MeetOvl"@.len() == 7,
        "MeetOvl"@[0] == 'M',
        "MeetOvl"@[1] == 'e',
        "MeetOvl"@[2] == 'e',
        "MeetOvl"@[3] == 't',
        "MeetOvl"@[4] == 'O',
        "MeetOvl"@[5] == 'v',
        "MeetOvl"@[6] == 'l',
        "Sl"@.len() == 2,
        "Sl"@[0] == 'S',
        "Sl"@[1] == 'l',
        "Vl"@.len() == 2,
        "Vl"@[0] == 'V',
        "Vl"@[1] == 'l',
        "Pbg"@.len() == 3,
        "Pbg"@[0] == 'P',
        "Pbg"@[1] == 'b',
        "Pbg"@[2] == 'g',
        "Meet"@.len() == 4,
        "Meet"@[0] == 'M',
        "Meet"@[1] == 'e',
        "Meet"@[2] == 'e',
        "Meet"@[3] == 't',
        "Ema"@.len() == 3,
        "Ema"@[0] == 'E',
        "Ema"@[1] == 'm',
        "Ema"@[2] == 'a',
        "EmaTrend"@.len() == 8,
        "EmaTrend"@[0] == 'E',
        "EmaTrend"@[1] == 'm',
        "EmaTrend"@[2] == 'a',
        "EmaTrend"@[3] == 'T',
        "EmaTrend"@[4] == 'r',
        "EmaTrend"@[5] == 'e',
        "EmaTrend"@[6] == 'n',
        "EmaTrend"@[7] == 'd',
        "MeetEma"@.len() == 7,
        "MeetEma"@[0] == 'M',
        "MeetEma"@[1] == 'e',
        "MeetEma"@[2] == 'e',
        "MeetEma"@[3] == 't',
        "MeetEma"@[4] == 'E',
        "MeetEma"@[5] == 'm',
        "MeetEma"@[6] == 'a',
{
    reveal_strlit("Arrow");
    reveal_strlit("St10_");
    reveal_strlit("MeetSt10_");
    reveal_strlit("Obr");
    reveal_strlit("MeetOvl");
    reveal_strlit("Sl");
    reveal_strlit("Vl");
    reveal_strlit("Pbg");
    reveal_strlit("Meet");
    reveal_strlit("Ema");
    reveal_strlit("EmaTrend");
    reveal_strlit("MeetEma");
}

proof fn lemma_begins(s: Seq<char>, p: Seq<char>)
    requires
        text::begins(s, p),
    ensures
        s.len() >= p.len(),
        forall|k: int| 0 <= k < p.len() ==> s[k] == #[trigger] p[k],
{
    assert forall|k: int| 0 <= k < p.len() implies s[k] == #[trigger] p[k] by {
        assert(s.subrange(0, p.len() as int)[k] == s[k]);
    }
}

proof fn lemma_after(p: Seq<char>, rest: Seq<char>)
    ensures
        text::begins(p + rest, p),
        text::after(p + rest, p) == Some(rest),
{
    let s = p + rest;
    assert(s.subrange(0, p.len() as int) =~= p);
    assert(s.subrange(p.len() as int, s.len() as int) =~= rest);
}

proof fn lemma_headed(b: Seq<char>)
    requires
        b.len() >= 2,
    ensures
        text::begins(b, "Arrow"@) ==> b[0] == 'A',
        text::begins(b, "St10_"@) ==> b[0] == 'S' && b[1] == 't',
        text::begins(b, "MeetSt10_"@) ==> b.len() >= 9 && b[0] == 'M' && b[4] == 'S',
        text::begins(b, "Obr"@) ==> b[0] == 'O',
        text::begins(b, "MeetOvl"@) ==> b.len() >= 7 && b[0] == 'M' && b[4] == 'O',
        text::begins(b, "Sl"@) ==> b[0] == 'S' && b[1] == 'l',
        b == "Vl"@ ==> b[0] == 'V',
        text::begins(b, "Pbg"@) ==> b[0] == 'P',
        text::begins(b, "Meet"@) ==> b[0] == 'M',
        text::begins(b, "EmaTrend"@) ==> b.len() >= 8 && b[3] == 'T',
{
    lemma_heads();
    if text::begins(b, "Arrow"@) {
        lemma_begins(b, "Arrow"@);
        assert(b[0] == "Arrow"@[0]);
        assert(b[1] == "Arrow"@[1]);
        assert(b[3] == "Arrow"@[3]);
        assert(b[4] == "Arrow"@[4]);
    }
    if text::begins(b, "St10_"@) {
        lemma_begins(b, "St10_"@);
        assert(b[0] == "St10_"@[0]);
        assert(b[1] == "St10_"@[1]);
        assert(b[3] == "St10_"@[3]);
        assert(b[4] == "St10_"@[4]);
    }
    if text::begins(b, "MeetSt10_"@) {
        lemma_begins(b, "MeetSt10_"@);
        assert(b[0] == "MeetSt10_"@[0]);
        assert(b[1] == "MeetSt10_"@[1]);
        assert(b[3] == "MeetSt10_"@[3]);
        assert(b[4] == "MeetSt10_"@[4]);
    }
    if text::begins(b, "Obr"@) {
        lemma_begins(b, "Obr"@);
        assert(b[0] == "Obr"@[0]);
        assert(b[1] == "Obr"@[1]);
    }
    if text::begins(b, "MeetOvl"@) {
        lemma_begins(b, "MeetOvl"@);
        assert(b[0] == "MeetOvl"@[0]);
        assert(b[1] == "MeetOvl"@[1]);
        assert(b[3] == "MeetOvl"@[3]);
        assert(b[4] == "MeetOvl"@[4]);
    }
    if text::begins(b, "Sl"@) {
        lemma_begins(b, "Sl"@);
        assert(b[0] == "Sl"@[0]);
        assert(b[1] == "Sl"@[1]);
    }
    if text::begins(b, "Pbg"@) {
        lemma_begins(b, "Pbg"@);
        assert(b[0] == "Pbg"@[0]);
        assert(b[1] == "Pbg"@[1]);
    }
    if text::begins(b, "Meet"@) {
        lemma_begins(b, "Meet"@);
        assert(b[0] == "Meet"@[0]);
        assert(b[1] == "Meet"@[1]);
    }
    if text::begins(b, "EmaTrend"@) {
        lemma_begins(b, "EmaTrend"@);
        assert(b[0] == "EmaTrend"@[0]);
        assert(b[1] == "EmaTrend"@[1]);
        assert(b[3] == "EmaTrend"@[3]);
        assert(b[4] == "EmaTrend"@[4]);
    }
}

#[verifier::rlimit(40)]
proof fn lemma_arrow(rest: Seq<char>, bull: bool)
    ensures
        rule_named(sided_key(bull, "Arrow"@ + rest)) == rules::arrow_rule(rest, bull),
{
    let b = "Arrow"@ + rest;
    reveal(rule_named);
    lemma_heads();
    lemma_sided(bull, b);
    lemma_after("Arrow"@, rest);
    lemma_not_plain(b, bull);
    lemma_headed(b);
}

#[verifier::rlimit(40)]
proof fn lemma_sl(rest: Seq<char>, bull: bool)
    ensures
        rule_named(sided_key(bull, "Sl"@ + rest)) == rules::straight_rule(rest, bull),
{
    let b = "Sl"@ + rest;
    reveal(rule_named);
    lemma_heads();
    lemma_sided(bull, b);
    lemma_after("Sl"@, rest);
    lemma_not_plain(b, bull);
    lemma_headed(b);
}

#[verifier::rlimit(40)]
proof fn lemma_pbg(rest: Seq<char>, bull: bool)
    ensures
        rule_named(sided_key(bull, "Pbg"@ + rest)) == rules::momentum_rule(rest, bull),
{
    let b = "Pbg"@ + rest;
    reveal(rule_named);
    lemma_heads();
    lemma_sided(bull, b);
    lemma_after("Pbg"@, rest);
    lemma_not_plain(b, bull);
    lemma_headed(b);
}

#[verifier::rlimit(40)]
proof fn lemma_obr(rest: Seq<char>, bull: bool)
    ensures
        rule_named(sided_key(bull, "Obr"@ + rest)) == (match rules::overlay_of(rest) {
            Some((study, line)) => Rule::Dir {
                curve: Curve::Line { study, setup: Setup::Plain, line },
                bull,
                neutral: false,
            },
            None => Rule::Unknown,
        }),
{
    let b = "Obr"@ + rest;
    reveal(rule_named);
    lemma_heads();
    lemma_sided(bull, b);
    lemma_after("Obr"@, rest);
    lemma_not_plain(b, bull);
    lemma_headed(b);
}

#[verifier::rlimit(40)]
proof fn lemma_meetovl(rest: Seq<char>, bull: bool)
    ensures
        rule_named(sided_key(bull, "MeetOvl"@ + rest)) == (match rules::overlay_of(rest) {
            Some((study, line)) => Rule::Level {
                a: Curve::Close,
                b: Curve::Line { study, setup: Setup::Plain, line },
                bull,
            },
            None => Rule::Unknown,
        }),
{
    let b = "MeetOvl"@ + rest;
    reveal(rule_named);
    lemma_heads();
    lemma_sided(bull, b);
    lemma_after("MeetOvl"@, rest);
    lemma_not_plain(b, bull);
    lemma_headed(b);
}

#[verifier::rlimit(40)]
proof fn lemma_overlay_direction_keys_0(c: spec_fn(Reading) -> Option<Num>, bull: bool)
    ensures
        verdict(sided_key(bull, "Obr"@ + "Hma"@), c) == over(c(now(line(Study::Hma, Setup::Plain, 0))), c(before(line(Study::Hma, Setup::Plain, 0))), bull),
        verdict(sided_key(bull, "Obr"@ + "Tenkan"@), c) == over(c(now(line(Study::Ichimoku, Setup::Plain, 0))), c(before(line(Study::Ichimoku, Setup::Plain, 0))), bull),
{
    reveal(verdict);
    assert(rule_named(sided_key(bull, "Obr"@ + "Hma"@)) == (Rule::Dir { curve: Curve::Line { study: Study::Hma, setup: Setup::Plain, line: 0 }, bull, neutral: false })) by {
        lemma_sided(bull, "Obr"@ + "Hma"@);
        lemma_obr("Hma"@, bull);
        lemma_marks();
    }
    lemma_reads(Rule::Dir { curve: Curve::Line { study: Study::Hma, setup: Setup::Plain, line: 0 }, bull, neutral: false }, c);
    assert(rule_named(sided_key(bull, "Obr"@ + "Tenkan"@)) == (Rule::Dir { curve: Curve::Line { study: Study::Ichimoku, setup: Setup::Plain, line: 0 }, bull, neutral: false })) by {
        lemma_sided(bull, "Obr"@ + "Tenkan"@);
        lemma_obr("Tenkan"@, bull);
        lemma_marks();
    }
    lemma_reads(Rule::Dir { curve: Curve::Line { study: Study::Ichimoku, setup: Setup::Plain, line: 0 }, bull, neutral: false }, c);
}

#[verifier::rlimit(40)]
proof fn lemma_overlay_direction_keys_1(c: spec_fn(Reading) -> Option<Num>, bull: bool)
    ensures
        verdict(sided_key(bull, "Obr"@ + "Kijun"@), c) == over(c(now(line(Study::Ichimoku, Setup::Plain, 1))), c(before(line(Study::Ichimoku, Setup::Plain, 1))), bull),
        verdict(sided_key(bull, "Obr"@ + "SenkouA"@), c) == over(c(now(line(Study::Ichimoku, Setup::Plain, 2))), c(before(line(Study::Ichimoku, Setup::Plain, 2))), bull),
{
    reveal(verdict);
    assert(rule_named(sided_key(bull, "Obr"@ + "Kijun"@)) == (Rule::Dir { curve: Curve::Line { study: Study::Ichimoku, setup: Setup::Plain, line: 1 }, bull, neutral: false })) by {
        lemma_sided(bull, "Obr"@ + "Kijun"@);
        lemma_obr("Kijun"@, bull);
        lemma_marks();
    }
    lemma_reads(Rule::Dir { curve: Curve::Line { study: Study::Ichimoku, setup: Setup::Plain, line: 1 }, bull, neutral: false }, c);
    assert(rule_named(sided_key(bull, "Obr"@ + "SenkouA"@)) == (Rule::Dir { curve: Curve::Line { study: Study::Ichimoku, setup: Setup::Plain, line: 2 }, bull, neutral: false })) by {
        lemma_sided(bull, "Obr"@ + "SenkouA"@);
        lemma_obr("SenkouA"@, bull);
        lemma_marks();
    }
    lemma_reads(Rule::Dir { curve: Curve::Line { study: Study::Ichimoku, setup: Setup::Plain, line: 2 }, bull, neutral: false }, c);
}

#[verifier::rlimit(40)]
proof fn lemma_overlay_direction_keys_2(c: spec_fn(Reading) -> Option<Num>, bull: bool)
    ensures
        verdict(sided_key(bull, "Obr"@ + "Keltner"@), c) == over(c(now(line(Study::Keltner, Setup::Plain, 1))), c(before(line(Study::Keltner, Setup::Plain, 1))), bull),
        verdict(sided_key(bull, "Obr"@ + "Donchian"@), c) == over(c(now(line(Study::Donchian, Setup::Plain, 1))), c(before(line(Study::Donchian, Setup::Plain, 1))), bull),
{
    reveal(verdict);
    assert(rule_named(sided_key(bull, "Obr"@ + "Keltner"@)) == (Rule::Dir { curve: Curve::Line { study: Study::Keltner, setup: Setup::Plain, line: 1 }, bull, neutral: false })) by {
        lemma_sided(bull, "Obr"@ + "Keltner"@);
        lemma_obr("Keltner"@, bull);
        lemma_marks();
    }
    lemma_reads(Rule::Dir { curve: Curve::Line { study: Study::Keltner, setup: Setup::Plain, line: 1 }, bull, neutral: false }, c);
    assert(rule_named(sided_key(bull, "Obr"@ + "Donchian"@)) == (Rule::Dir { curve: Curve::Line { study: Study::Donchian, setup: Setup::Plain, line: 1 }, bull, neutral: false })) by {
        lemma_sided(bull, "Obr"@ + "Donchian"@);
        lemma_obr("Donchian"@, bull);
        lemma_marks();
    }
    lemma_reads(Rule::Dir { curve: Curve::Line { study: Study::Donchian, setup: Setup::Plain, line: 1 }, bull, neutral: false }, c);
}

#[verifier::rlimit(40)]
proof fn lemma_overlay_direction_keys_3(c: spec_fn(Reading) -> Option<Num>, bull: bool)
    ensures
        verdict(sided_key(bull, "Obr"@ + "TrendCore"@), c) == over(c(now(line(Study::Vlcore, Setup::Plain, 0))), c(before(line(Study::Vlcore, Setup::Plain, 0))), bull),
{
    reveal(verdict);
    assert(rule_named(sided_key(bull, "Obr"@ + "TrendCore"@)) == (Rule::Dir { curve: Curve::Line { study: Study::Vlcore, setup: Setup::Plain, line: 0 }, bull, neutral: false })) by {
        lemma_sided(bull, "Obr"@ + "TrendCore"@);
        lemma_obr("TrendCore"@, bull);
        lemma_marks();
    }
    lemma_reads(Rule::Dir { curve: Curve::Line { study: Study::Vlcore, setup: Setup::Plain, line: 0 }, bull, neutral: false }, c);
}

/// The overlay keys: the overlay rises or falls.
pub proof fn law_overlay_direction_keys(c: spec_fn(Reading) -> Option<Num>, bull: bool)
    ensures
        verdict(sided_key(bull, "Obr"@ + "Hma"@), c) == over(c(now(line(Study::Hma, Setup::Plain, 0))), c(before(line(Study::Hma, Setup::Plain, 0))), bull),
        verdict(sided_key(bull, "Obr"@ + "Tenkan"@), c) == over(c(now(line(Study::Ichimoku, Setup::Plain, 0))), c(before(line(Study::Ichimoku, Setup::Plain, 0))), bull),
        verdict(sided_key(bull, "Obr"@ + "Kijun"@), c) == over(c(now(line(Study::Ichimoku, Setup::Plain, 1))), c(before(line(Study::Ichimoku, Setup::Plain, 1))), bull),
        verdict(sided_key(bull, "Obr"@ + "SenkouA"@), c) == over(c(now(line(Study::Ichimoku, Setup::Plain, 2))), c(before(line(Study::Ichimoku, Setup::Plain, 2))), bull),
        verdict(sided_key(bull, "Obr"@ + "Keltner"@), c) == over(c(now(line(Study::Keltner, Setup::Plain, 1))), c(before(line(Study::Keltner, Setup::Plain, 1))), bull),
        verdict(sided_key(bull, "Obr"@ + "Donchian"@), c) == over(c(now(line(Study::Donchian, Setup::Plain, 1))), c(before(line(Study::Donchian, Setup::Plain, 1))), bull),
        verdict(sided_key(bull, "Obr"@ + "TrendCore"@), c) == over(c(now(line(Study::Vlcore, Setup::Plain, 0))), c(before(line(Study::Vlcore, Setup::Plain, 0))), bull),
{
    lemma_overlay_direction_keys_0(c, bull);
    lemma_overlay_direction_keys_1(c, bull);
    lemma_overlay_direction_keys_2(c, bull);
    lemma_overlay_direction_keys_3(c, bull);
}

#[verifier::rlimit(40)]
proof fn lemma_overlay_level_keys_0(c: spec_fn(Reading) -> Option<Num>, bull: bool)
    ensures
        verdict(sided_key(bull, "MeetOvl"@ + "Hma"@), c) == over(c(now(Curve::Close)), c(now(line(Study::Hma, Setup::Plain, 0))), bull),
        verdict(sided_key(bull, "MeetOvl"@ + "Tenkan"@), c) == over(c(now(Curve::Close)), c(now(line(Study::Ichimoku, Setup::Plain, 0))), bull),
{
    reveal(verdict);
    assert(rule_named(sided_key(bull, "MeetOvl"@ + "Hma"@)) == (Rule::Level { a: Curve::Close, b: Curve::Line { study: Study::Hma, setup: Setup::Plain, line: 0 }, bull })) by {
        lemma_sided(bull, "MeetOvl"@ + "Hma"@);
        lemma_meetovl("Hma"@, bull);
        lemma_marks();
    }
    lemma_reads(Rule::Level { a: Curve::Close, b: Curve::Line { study: Study::Hma, setup: Setup::Plain, line: 0 }, bull }, c);
    assert(rule_named(sided_key(bull, "MeetOvl"@ + "Tenkan"@)) == (Rule::Level { a: Curve::Close, b: Curve::Line { study: Study::Ichimoku, setup: Setup::Plain, line: 0 }, bull })) by {
        lemma_sided(bull, "MeetOvl"@ + "Tenkan"@);
        lemma_meetovl("Tenkan"@, bull);
        lemma_marks();
    }
    lemma_reads(Rule::Level { a: Curve::Close, b: Curve::Line { study: Study::Ichimoku, setup: Setup::Plain, line: 0 }, bull }, c);
}

#[verifier::rlimit(40)]
proof fn lemma_overlay_level_keys_1(c: spec_fn(Reading) -> Option<Num>, bull: bool)
    ensures
        verdict(sided_key(bull, "MeetOvl"@ + "Kijun"@), c) == over(c(now(Curve::Close)), c(now(line(Study::Ichimoku, Setup::Plain, 1))), bull),
        verdict(sided_key(bull, "MeetOvl"@ + "SenkouA"@), c) == over(c(now(Curve::Close)), c(now(line(Study::Ichimoku, Setup::Plain, 2))), bull),
{
    reveal(verdict);
    assert(rule_named(sided_key(bull, "MeetOvl"@ + "Kijun"@)) == (Rule::Level { a: Curve::Close, b: Curve::Line { study: Study::Ichimoku, setup: Setup::Plain, line: 1 }, bull })) by {
        lemma_sided(bull, "MeetOvl"@ + "Kijun"@);
        lemma_meetovl("Kijun"@, bull);
        lemma_marks();
    }
    lemma_reads(Rule::Level { a: Curve::Close, b: Curve::Line { study: Study::Ichimoku, setup: Setup::Plain, line: 1 }, bull }, c);
    assert(rule_named(sided_key(bull, "MeetOvl"@ + "SenkouA"@)) == (Rule::Level { a: Curve::Close, b: Curve::Line { study: Study::Ichimoku, setup: Setup::Plain, line: 2 }, bull })) by {
        lemma_sided(bull, "MeetOvl"@ + "SenkouA"@);
        lemma_meetovl("SenkouA"@, bull);
        lemma_marks();
    }
    lemma_reads(Rule::Level { a: Curve::Close, b: Curve::Line { study: Study::Ichimoku, setup: Setup::Plain, line: 2 }, bull }, c);
}

#[verifier::rlimit(40)]
proof fn lemma_overlay_level_keys_2(c: spec_fn(Reading) -> Option<Num>, bull: bool)
    ensures
        verdict(sided_key(bull, "MeetOvl"@ + "Keltner"@), c) == over(c(now(Curve::Close)), c(now(line(Study::Keltner, Setup::Plain, 1))), bull),
        verdict(sided_key(bull, "MeetOvl"@ + "Donchian"@), c) == over(c(now(Curve::Close)), c(now(line(Study::Donchian, Setup::Plain, 1))), bull),
{
    reveal(verdict);
    assert(rule_named(sided_key(bull, "MeetOvl"@ + "Keltner"@)) == (Rule::Level { a: Curve::Close, b: Curve::Line { study: Study::Keltner, setup: Setup::Plain, line: 1 }, bull })) by {
        lemma_sided(bull, "MeetOvl"@ + "Keltner"@);
        lemma_meetovl("Keltner"@, bull);
        lemma_marks();
    }
    lemma_reads(Rule::Level { a: Curve::Close, b: Curve::Line { study: Study::Keltner, setup: Setup::Plain, line: 1 }, bull }, c);
    assert(rule_named(sided_key(bull, "MeetOvl"@ + "Donchian"@)) == (Rule::Level { a: Curve::Close, b: Curve::Line { study: Study::Donchian, setup: Setup::Plain, line: 1 }, bull })) by {
        lemma_sided(bull, "MeetOvl"@ + "Donchian"@);
        lemma_meetovl("Donchian"@, bull);
        lemma_marks();
    }
    lemma_reads(Rule::Level { a: Curve::Close, b: Curve::Line { study: Study::Donchian, setup: Setup::Plain, line: 1 }, bull }, c);
}

#[verifier::rlimit(40)]
proof fn lemma_overlay_level_keys_3(c: spec_fn(Reading) -> Option<Num>, bull: bool)
    ensures
        verdict(sided_key(bull, "MeetOvl"@ + "TrendCore"@), c) == over(c(now(Curve::Close)), c(now(line(Study::Vlcore, Setup::Plain, 0))), bull),
{
    reveal(verdict);
    assert(rule_named(sided_key(bull, "MeetOvl"@ + "TrendCore"@)) == (Rule::Level { a: Curve::Close, b: Curve::Line { study: Study::Vlcore, setup: Setup::Plain, line: 0 }, bull })) by {
        lemma_sided(bull, "MeetOvl"@ + "TrendCore"@);
        lemma_meetovl("TrendCore"@, bull);
        lemma_marks();
    }
    lemma_reads(Rule::Level { a: Curve::Close, b: Curve::Line { study: Study::Vlcore, setup: Setup::Plain, line: 0 }, bull }, c);
}

/// The overlay level keys: the close stands over the overlay or under it.
pub proof fn law_overlay_level_keys(c: spec_fn(Reading) -> Option<Num>, bull: bool)
    ensures
        verdict(sided_key(bull, "MeetOvl"@ + "Hma"@), c) == over(c(now(Curve::Close)), c(now(line(Study::Hma, Setup::Plain, 0))), bull),
        verdict(sided_key(bull, "MeetOvl"@ + "Tenkan"@), c) == over(c(now(Curve::Close)), c(now(line(Study::Ichimoku, Setup::Plain, 0))), bull),
        verdict(sided_key(bull, "MeetOvl"@ + "Kijun"@), c) == over(c(now(Curve::Close)), c(now(line(Study::Ichimoku, Setup::Plain, 1))), bull),
        verdict(sided_key(bull, "MeetOvl"@ + "SenkouA"@), c) == over(c(now(Curve::Close)), c(now(line(Study::Ichimoku, Setup::Plain, 2))), bull),
        verdict(sided_key(bull, "MeetOvl"@ + "Keltner"@), c) == over(c(now(Curve::Close)), c(now(line(Study::Keltner, Setup::Plain, 1))), bull),
        verdict(sided_key(bull, "MeetOvl"@ + "Donchian"@), c) == over(c(now(Curve::Close)), c(now(line(Study::Donchian, Setup::Plain, 1))), bull),
        verdict(sided_key(bull, "MeetOvl"@ + "TrendCore"@), c) == over(c(now(Curve::Close)), c(now(line(Study::Vlcore, Setup::Plain, 0))), bull),
{
    lemma_overlay_level_keys_0(c, bull);
    lemma_overlay_level_keys_1(c, bull);
    lemma_overlay_level_keys_2(c, bull);
    lemma_overlay_level_keys_3(c, bull);
}

#[verifier::rlimit(40)]
proof fn lemma_straight_keys_0(c: spec_fn(Reading) -> Option<Num>, bull: bool)
    ensures
        verdict(sided_key(bull, "Sl"@ + "Consensus"@), c) == vote(c(Reading::Vote { back: 0 }), bull),
        verdict(sided_key(bull, "Sl"@ + "ElliottWave"@), c) == undrawn_passes(over(c(now(line(Study::Ewtrend, Setup::Plain, 0))), c(before(line(Study::Ewtrend, Setup::Plain, 0))), bull)),
{
    reveal(verdict);
    assert(rule_named(sided_key(bull, "Sl"@ + "Consensus"@)) == (Rule::Vote { bull })) by {
        lemma_sided(bull, "Sl"@ + "Consensus"@);
        lemma_sl("Consensus"@, bull);
        lemma_marks();
    }
    lemma_reads(Rule::Vote { bull }, c);
    assert(rule_named(sided_key(bull, "Sl"@ + "ElliottWave"@)) == (Rule::Dir { curve: Curve::Line { study: Study::Ewtrend, setup: Setup::Plain, line: 0 }, bull, neutral: true })) by {
        lemma_sided(bull, "Sl"@ + "ElliottWave"@);
        lemma_sl("ElliottWave"@, bull);
        lemma_marks();
    }
    lemma_reads(Rule::Dir { curve: Curve::Line { study: Study::Ewtrend, setup: Setup::Plain, line: 0 }, bull, neutral: true }, c);
}

#[verifier::rlimit(40)]
proof fn lemma_straight_keys_1(c: spec_fn(Reading) -> Option<Num>, bull: bool)
    ensures
        verdict(sided_key(bull, "Sl"@ + "SupplyDemand"@), c) == undrawn_passes(over(c(now(line(Study::Ewtrend, Setup::Plain, 0))), c(before(line(Study::Ewtrend, Setup::Plain, 0))), bull)),
        verdict(sided_key(bull, "Sl"@ + "PriceAction"@), c) == undrawn_passes(over(c(now(line(Study::Patrend, Setup::Plain, 0))), c(before(line(Study::Patrend, Setup::Plain, 0))), bull)),
{
    reveal(verdict);
    assert(rule_named(sided_key(bull, "Sl"@ + "SupplyDemand"@)) == (Rule::Dir { curve: Curve::Line { study: Study::Ewtrend, setup: Setup::Plain, line: 0 }, bull, neutral: true })) by {
        lemma_sided(bull, "Sl"@ + "SupplyDemand"@);
        lemma_sl("SupplyDemand"@, bull);
        lemma_marks();
    }
    lemma_reads(Rule::Dir { curve: Curve::Line { study: Study::Ewtrend, setup: Setup::Plain, line: 0 }, bull, neutral: true }, c);
    assert(rule_named(sided_key(bull, "Sl"@ + "PriceAction"@)) == (Rule::Dir { curve: Curve::Line { study: Study::Patrend, setup: Setup::Plain, line: 0 }, bull, neutral: true })) by {
        lemma_sided(bull, "Sl"@ + "PriceAction"@);
        lemma_sl("PriceAction"@, bull);
        lemma_marks();
    }
    lemma_reads(Rule::Dir { curve: Curve::Line { study: Study::Patrend, setup: Setup::Plain, line: 0 }, bull, neutral: true }, c);
}

#[verifier::rlimit(40)]
proof fn lemma_straight_keys_2(c: spec_fn(Reading) -> Option<Num>, bull: bool)
    ensures
        verdict(sided_key(bull, "Sl"@ + "ZigZag"@), c) == undrawn_passes(over(c(now(line(Study::Zzline, Setup::Plain, 1))), c(before(line(Study::Zzline, Setup::Plain, 1))), bull)),
        verdict(sided_key(bull, "Sl"@ + "ComboMaster"@), c) == undrawn_passes(over(c(now(line(Study::Trendmaster, Setup::Plain, 1))), c(before(line(Study::Trendmaster, Setup::Plain, 1))), bull)),
{
    reveal(verdict);
    assert(rule_named(sided_key(bull, "Sl"@ + "ZigZag"@)) == (Rule::Dir { curve: Curve::Line { study: Study::Zzline, setup: Setup::Plain, line: 1 }, bull, neutral: true })) by {
        lemma_sided(bull, "Sl"@ + "ZigZag"@);
        lemma_sl("ZigZag"@, bull);
        lemma_marks();
    }
    lemma_reads(Rule::Dir { curve: Curve::Line { study: Study::Zzline, setup: Setup::Plain, line: 1 }, bull, neutral: true }, c);
    assert(rule_named(sided_key(bull, "Sl"@ + "ComboMaster"@)) == (Rule::Dir { curve: Curve::Line { study: Study::Trendmaster, setup: Setup::Plain, line: 1 }, bull, neutral: true })) by {
        lemma_sided(bull, "Sl"@ + "ComboMaster"@);
        lemma_sl("ComboMaster"@, bull);
        lemma_marks();
    }
    lemma_reads(Rule::Dir { curve: Curve::Line { study: Study::Trendmaster, setup: Setup::Plain, line: 1 }, bull, neutral: true }, c);
}

#[verifier::rlimit(40)]
proof fn lemma_straight_keys_3(c: spec_fn(Reading) -> Option<Num>, bull: bool)
    ensures
        verdict(sided_key(bull, "Sl"@ + "PaneConsensus"@), c) == undrawn_passes(over(c(now(line(Study::Panemaster, Setup::Plain, 0))), c(before(line(Study::Panemaster, Setup::Plain, 0))), bull)),
        verdict(sided_key(bull, "Sl"@ + "AutoTrendline"@), c) == undrawn_passes(over(c(now(line(Study::Autotrend, Setup::Plain, 0))), c(before(line(Study::Autotrend, Setup::Plain, 0))), bull)),
{
    reveal(verdict);
    assert(rule_named(sided_key(bull, "Sl"@ + "PaneConsensus"@)) == (Rule::Dir { curve: Curve::Line { study: Study::Panemaster, setup: Setup::Plain, line: 0 }, bull, neutral: true })) by {
        lemma_sided(bull, "Sl"@ + "PaneConsensus"@);
        lemma_sl("PaneConsensus"@, bull);
        lemma_marks();
    }
    lemma_reads(Rule::Dir { curve: Curve::Line { study: Study::Panemaster, setup: Setup::Plain, line: 0 }, bull, neutral: true }, c);
    assert(rule_named(sided_key(bull, "Sl"@ + "AutoTrendline"@)) == (Rule::Dir { curve: Curve::Line { study: Study::Autotrend, setup: Setup::Plain, line: 0 }, bull, neutral: true })) by {
        lemma_sided(bull, "Sl"@ + "AutoTrendline"@);
        lemma_sl("AutoTrendline"@, bull);
        lemma_marks();
    }
    lemma_reads(Rule::Dir { curve: Curve::Line { study: Study::Autotrend, setup: Setup::Plain, line: 0 }, bull, neutral: true }, c);
}

#[verifier::rlimit(40)]
proof fn lemma_straight_keys_4(c: spec_fn(Reading) -> Option<Num>, bull: bool)
    ensures
        verdict(sided_key(bull, "Sl"@ + "Pitchfork"@), c) == undrawn_passes(over(c(now(line(Study::Pitchfork, Setup::Plain, 0))), c(before(line(Study::Pitchfork, Setup::Plain, 0))), bull)),
        verdict(sided_key(bull, "Sl"@ + "TrendProjection"@), c) == undrawn_passes(over(c(now(line(Study::Projline, Setup::Plain, 0))), c(before(line(Study::Projline, Setup::Plain, 0))), bull)),
{
    reveal(verdict);
    assert(rule_named(sided_key(bull, "Sl"@ + "Pitchfork"@)) == (Rule::Dir { curve: Curve::Line { study: Study::Pitchfork, setup: Setup::Plain, line: 0 }, bull, neutral: true })) by {
        lemma_sided(bull, "Sl"@ + "Pitchfork"@);
        lemma_sl("Pitchfork"@, bull);
        lemma_marks();
    }
    lemma_reads(Rule::Dir { curve: Curve::Line { study: Study::Pitchfork, setup: Setup::Plain, line: 0 }, bull, neutral: true }, c);
    assert(rule_named(sided_key(bull, "Sl"@ + "TrendProjection"@)) == (Rule::Dir { curve: Curve::Line { study: Study::Projline, setup: Setup::Plain, line: 0 }, bull, neutral: true })) by {
        lemma_sided(bull, "Sl"@ + "TrendProjection"@);
        lemma_sl("TrendProjection"@, bull);
        lemma_marks();
    }
    lemma_reads(Rule::Dir { curve: Curve::Line { study: Study::Projline, setup: Setup::Plain, line: 0 }, bull, neutral: true }, c);
}

#[verifier::rlimit(40)]
proof fn lemma_straight_keys_5(c: spec_fn(Reading) -> Option<Num>, bull: bool)
    ensures
        verdict(sided_key(bull, "Sl"@ + "GannFan"@), c) == undrawn_passes(over(c(now(line(Study::Gant, Setup::Plain, 0))), c(before(line(Study::Gant, Setup::Plain, 0))), bull)),
        verdict(sided_key(bull, "Sl"@ + "FibFan"@), c) == undrawn_passes(over(c(now(line(Study::Fibt, Setup::Plain, 0))), c(before(line(Study::Fibt, Setup::Plain, 0))), bull)),
{
    reveal(verdict);
    assert(rule_named(sided_key(bull, "Sl"@ + "GannFan"@)) == (Rule::Dir { curve: Curve::Line { study: Study::Gant, setup: Setup::Plain, line: 0 }, bull, neutral: true })) by {
        lemma_sided(bull, "Sl"@ + "GannFan"@);
        lemma_sl("GannFan"@, bull);
        lemma_marks();
    }
    lemma_reads(Rule::Dir { curve: Curve::Line { study: Study::Gant, setup: Setup::Plain, line: 0 }, bull, neutral: true }, c);
    assert(rule_named(sided_key(bull, "Sl"@ + "FibFan"@)) == (Rule::Dir { curve: Curve::Line { study: Study::Fibt, setup: Setup::Plain, line: 0 }, bull, neutral: true })) by {
        lemma_sided(bull, "Sl"@ + "FibFan"@);
        lemma_sl("FibFan"@, bull);
        lemma_marks();
    }
    lemma_reads(Rule::Dir { curve: Curve::Line { study: Study::Fibt, setup: Setup::Plain, line: 0 }, bull, neutral: true }, c);
}

#[verifier::rlimit(40)]
proof fn lemma_straight_keys_6(c: spec_fn(Reading) -> Option<Num>, bull: bool)
    ensures
        verdict(sided_key(bull, "Sl"@ + "Srema"@), c) == undrawn_passes(over(c(now(line(Study::Sremat, Setup::Plain, 0))), c(before(line(Study::Sremat, Setup::Plain, 0))), bull)),
        verdict(sided_key(bull, "Sl"@ + "Support"@), c) == undrawn_passes(over(c(now(line(Study::Supline, Setup::Support, 0))), c(before(line(Study::Supline, Setup::Support, 0))), bull)),
{
    reveal(verdict);
    assert(rule_named(sided_key(bull, "Sl"@ + "Srema"@)) == (Rule::Dir { curve: Curve::Line { study: Study::Sremat, setup: Setup::Plain, line: 0 }, bull, neutral: true })) by {
        lemma_sided(bull, "Sl"@ + "Srema"@);
        lemma_sl("Srema"@, bull);
        lemma_marks();
    }
    lemma_reads(Rule::Dir { curve: Curve::Line { study: Study::Sremat, setup: Setup::Plain, line: 0 }, bull, neutral: true }, c);
    assert(rule_named(sided_key(bull, "Sl"@ + "Support"@)) == (Rule::Dir { curve: Curve::Line { study: Study::Supline, setup: Setup::Support, line: 0 }, bull, neutral: true })) by {
        lemma_sided(bull, "Sl"@ + "Support"@);
        lemma_sl("Support"@, bull);
        lemma_marks();
    }
    lemma_reads(Rule::Dir { curve: Curve::Line { study: Study::Supline, setup: Setup::Support, line: 0 }, bull, neutral: true }, c);
}

#[verifier::rlimit(40)]
proof fn lemma_straight_keys_7(c: spec_fn(Reading) -> Option<Num>, bull: bool)
    ensures
        verdict(sided_key(bull, "Sl"@ + "Resistance"@), c) == undrawn_passes(over(c(now(line(Study::Resline, Setup::Resistance, 0))), c(before(line(Study::Resline, Setup::Resistance, 0))), bull)),
{
    reveal(verdict);
    assert(rule_named(sided_key(bull, "Sl"@ + "Resistance"@)) == (Rule::Dir { curve: Curve::Line { study: Study::Resline, setup: Setup::Resistance, line: 0 }, bull, neutral: true })) by {
        lemma_sided(bull, "Sl"@ + "Resistance"@);
        lemma_sl("Resistance"@, bull);
        lemma_marks();
    }
    lemma_reads(Rule::Dir { curve: Curve::Line { study: Study::Resline, setup: Setup::Resistance, line: 0 }, bull, neutral: true }, c);
}

/// The straight-line keys: the line rises or falls, an undrawn one does not block;
/// of the majority it is asked that it does not oppose the side.
pub proof fn law_straight_keys(c: spec_fn(Reading) -> Option<Num>, bull: bool)
    ensures
        verdict(sided_key(bull, "Sl"@ + "Consensus"@), c) == vote(c(Reading::Vote { back: 0 }), bull),
        verdict(sided_key(bull, "Sl"@ + "ElliottWave"@), c) == undrawn_passes(over(c(now(line(Study::Ewtrend, Setup::Plain, 0))), c(before(line(Study::Ewtrend, Setup::Plain, 0))), bull)),
        verdict(sided_key(bull, "Sl"@ + "SupplyDemand"@), c) == undrawn_passes(over(c(now(line(Study::Ewtrend, Setup::Plain, 0))), c(before(line(Study::Ewtrend, Setup::Plain, 0))), bull)),
        verdict(sided_key(bull, "Sl"@ + "PriceAction"@), c) == undrawn_passes(over(c(now(line(Study::Patrend, Setup::Plain, 0))), c(before(line(Study::Patrend, Setup::Plain, 0))), bull)),
        verdict(sided_key(bull, "Sl"@ + "ZigZag"@), c) == undrawn_passes(over(c(now(line(Study::Zzline, Setup::Plain, 1))), c(before(line(Study::Zzline, Setup::Plain, 1))), bull)),
        verdict(sided_key(bull, "Sl"@ + "ComboMaster"@), c) == undrawn_passes(over(c(now(line(Study::Trendmaster, Setup::Plain, 1))), c(before(line(Study::Trendmaster, Setup::Plain, 1))), bull)),
        verdict(sided_key(bull, "Sl"@ + "PaneConsensus"@), c) == undrawn_passes(over(c(now(line(Study::Panemaster, Setup::Plain, 0))), c(before(line(Study::Panemaster, Setup::Plain, 0))), bull)),
        verdict(sided_key(bull, "Sl"@ + "AutoTrendline"@), c) == undrawn_passes(over(c(now(line(Study::Autotrend, Setup::Plain, 0))), c(before(line(Study::Autotrend, Setup::Plain, 0))), bull)),
        verdict(sided_key(bull, "Sl"@ + "Pitchfork"@), c) == undrawn_passes(over(c(now(line(Study::Pitchfork, Setup::Plain, 0))), c(before(line(Study::Pitchfork, Setup::Plain, 0))), bull)),
        verdict(sided_key(bull, "Sl"@ + "TrendProjection"@), c) == undrawn_passes(over(c(now(line(Study::Projline, Setup::Plain, 0))), c(before(line(Study::Projline, Setup::Plain, 0))), bull)),
        verdict(sided_key(bull, "Sl"@ + "GannFan"@), c) == undrawn_passes(over(c(now(line(Study::Gant, Setup::Plain, 0))), c(before(line(Study::Gant, Setup::Plain, 0))), bull)),
        verdict(sided_key(bull, "Sl"@ + "FibFan"@), c) == undrawn_passes(over(c(now(line(Study::Fibt, Setup::Plain, 0))), c(before(line(Study::Fibt, Setup::Plain, 0))), bull)),
        verdict(sided_key(bull, "Sl"@ + "Srema"@), c) == undrawn_passes(over(c(now(line(Study::Sremat, Setup::Plain, 0))), c(before(line(Study::Sremat, Setup::Plain, 0))), bull)),
        verdict(sided_key(bull, "Sl"@ + "Support"@), c) == undrawn_passes(over(c(now(line(Study::Supline, Setup::Support, 0))), c(before(line(Study::Supline, Setup::Support, 0))), bull)),
        verdict(sided_key(bull, "Sl"@ + "Resistance"@), c) == undrawn_passes(over(c(now(line(Study::Resline, Setup::Resistance, 0))), c(before(line(Study::Resline, Setup::Resistance, 0))), bull)),
{
    lemma_straight_keys_0(c, bull);
    lemma_straight_keys_1(c, bull);
    lemma_straight_keys_2(c, bull);
    lemma_straight_keys_3(c, bull);
    lemma_straight_keys_4(c, bull);
    lemma_straight_keys_5(c, bull);
    lemma_straight_keys_6(c, bull);
    lemma_straight_keys_7(c, bull);
}

#[verifier::rlimit(40)]
proof fn lemma_arrow_keys_0(c: spec_fn(Reading) -> Option<Num>, bull: bool)
    ensures
        verdict(sided_key(bull, "Arrow"@ + "Consensus"@), c) == fresh_vote(c(Reading::Vote { back: 0 }), c(Reading::Vote { back: 1 }), bull),
        verdict(sided_key(bull, "Arrow"@ + "Oit"@), c) == turns(c(now(Curve::Regime)), c(before(Curve::Regime)), c(Reading::Value { curve: Curve::Regime, back: 2 }), bull),
{
    reveal(verdict);
    assert(rule_named(sided_key(bull, "Arrow"@ + "Consensus"@)) == (Rule::VoteTurn { bull })) by {
        lemma_sided(bull, "Arrow"@ + "Consensus"@);
        lemma_arrow("Consensus"@, bull);
        lemma_marks();
    }
    lemma_reads(Rule::VoteTurn { bull }, c);
    assert(rule_named(sided_key(bull, "Arrow"@ + "Oit"@)) == (Rule::Turn { curve: Curve::Regime, bull })) by {
        lemma_sided(bull, "Arrow"@ + "Oit"@);
        lemma_arrow("Oit"@, bull);
        lemma_marks();
    }
    lemma_reads(Rule::Turn { curve: Curve::Regime, bull }, c);
}

#[verifier::rlimit(40)]
proof fn lemma_arrow_keys_1(c: spec_fn(Reading) -> Option<Num>, bull: bool)
    ensures
        verdict(sided_key(bull, "Arrow"@ + "TrendCore"@), c) == turns(c(now(line(Study::Vlcore, Setup::Plain, 0))), c(before(line(Study::Vlcore, Setup::Plain, 0))), c(Reading::Value { curve: line(Study::Vlcore, Setup::Plain, 0), back: 2 }), bull),
        verdict(sided_key(bull, "Arrow"@ + "Vl"@), c) == turns(c(now(line(Study::Vl, Setup::Plain, 0))), c(before(line(Study::Vl, Setup::Plain, 0))), c(Reading::Value { curve: line(Study::Vl, Setup::Plain, 0), back: 2 }), bull),
{
    reveal(verdict);
    assert(rule_named(sided_key(bull, "Arrow"@ + "TrendCore"@)) == (Rule::Turn { curve: Curve::Line { study: Study::Vlcore, setup: Setup::Plain, line: 0 }, bull })) by {
        lemma_sided(bull, "Arrow"@ + "TrendCore"@);
        lemma_arrow("TrendCore"@, bull);
        lemma_marks();
    }
    lemma_reads(Rule::Turn { curve: Curve::Line { study: Study::Vlcore, setup: Setup::Plain, line: 0 }, bull }, c);
    assert(rule_named(sided_key(bull, "Arrow"@ + "Vl"@)) == (Rule::Turn { curve: Curve::Line { study: Study::Vl, setup: Setup::Plain, line: 0 }, bull })) by {
        lemma_sided(bull, "Arrow"@ + "Vl"@);
        lemma_arrow("Vl"@, bull);
        lemma_marks();
    }
    lemma_reads(Rule::Turn { curve: Curve::Line { study: Study::Vl, setup: Setup::Plain, line: 0 }, bull }, c);
}

#[verifier::rlimit(40)]
proof fn lemma_arrow_keys_2(c: spec_fn(Reading) -> Option<Num>, bull: bool)
    ensures
        verdict(sided_key(bull, "Arrow"@ + "Srema"@), c) == flag(c(Reading::Swing { bull })),
        verdict(sided_key(bull, "Arrow"@ + "AutoTrendline"@), c) == flag(c(Reading::Swing { bull })),
{
    reveal(verdict);
    assert(rule_named(sided_key(bull, "Arrow"@ + "Srema"@)) == (Rule::Swing { bull })) by {
        lemma_sided(bull, "Arrow"@ + "Srema"@);
        lemma_arrow("Srema"@, bull);
        lemma_marks();
    }
    lemma_reads(Rule::Swing { bull }, c);
    assert(rule_named(sided_key(bull, "Arrow"@ + "AutoTrendline"@)) == (Rule::Swing { bull })) by {
        lemma_sided(bull, "Arrow"@ + "AutoTrendline"@);
        lemma_arrow("AutoTrendline"@, bull);
        lemma_marks();
    }
    lemma_reads(Rule::Swing { bull }, c);
}

#[verifier::rlimit(40)]
proof fn lemma_arrow_keys_3(c: spec_fn(Reading) -> Option<Num>, bull: bool)
    ensures
        verdict(sided_key(bull, "Arrow"@ + "Pitchfork"@), c) == flag(c(Reading::Swing { bull })),
        verdict(sided_key(bull, "Arrow"@ + "TrendProjection"@), c) == flag(c(Reading::Swing { bull })),
{
    reveal(verdict);
    assert(rule_named(sided_key(bull, "Arrow"@ + "Pitchfork"@)) == (Rule::Swing { bull })) by {
        lemma_sided(bull, "Arrow"@ + "Pitchfork"@);
        lemma_arrow("Pitchfork"@, bull);
        lemma_marks();
    }
    lemma_reads(Rule::Swing { bull }, c);
    assert(rule_named(sided_key(bull, "Arrow"@ + "TrendProjection"@)) == (Rule::Swing { bull })) by {
        lemma_sided(bull, "Arrow"@ + "TrendProjection"@);
        lemma_arrow("TrendProjection"@, bull);
        lemma_marks();
    }
    lemma_reads(Rule::Swing { bull }, c);
}

#[verifier::rlimit(40)]
proof fn lemma_arrow_keys_4(c: spec_fn(Reading) -> Option<Num>, bull: bool)
    ensures
        verdict(sided_key(bull, "Arrow"@ + "GannFan"@), c) == flag(c(Reading::Swing { bull })),
        verdict(sided_key(bull, "Arrow"@ + "FibFan"@), c) == flag(c(Reading::Swing { bull })),
{
    reveal(verdict);
    assert(rule_named(sided_key(bull, "Arrow"@ + "GannFan"@)) == (Rule::Swing { bull })) by {
        lemma_sided(bull, "Arrow"@ + "GannFan"@);
        lemma_arrow("GannFan"@, bull);
        lemma_marks();
    }
    lemma_reads(Rule::Swing { bull }, c);
    assert(rule_named(sided_key(bull, "Arrow"@ + "FibFan"@)) == (Rule::Swing { bull })) by {
        lemma_sided(bull, "Arrow"@ + "FibFan"@);
        lemma_arrow("FibFan"@, bull);
        lemma_marks();
    }
    lemma_reads(Rule::Swing { bull }, c);
}

#[verifier::rlimit(40)]
proof fn lemma_arrow_keys_5(c: spec_fn(Reading) -> Option<Num>, bull: bool)
    ensures
        verdict(sided_key(bull, "Arrow"@ + "Support"@), c) == flag(c(Reading::Swing { bull })),
        verdict(sided_key(bull, "Arrow"@ + "Resistance"@), c) == flag(c(Reading::Swing { bull })),
{
    reveal(verdict);
    assert(rule_named(sided_key(bull, "Arrow"@ + "Support"@)) == (Rule::Swing { bull })) by {
        lemma_sided(bull, "Arrow"@ + "Support"@);
        lemma_arrow("Support"@, bull);
        lemma_marks();
    }
    lemma_reads(Rule::Swing { bull }, c);
    assert(rule_named(sided_key(bull, "Arrow"@ + "Resistance"@)) == (Rule::Swing { bull })) by {
        lemma_sided(bull, "Arrow"@ + "Resistance"@);
        lemma_arrow("Resistance"@, bull);
        lemma_marks();
    }
    lemma_reads(Rule::Swing { bull }, c);
}

#[verifier::rlimit(40)]
proof fn lemma_arrow_keys_6(c: spec_fn(Reading) -> Option<Num>, bull: bool)
    ensures
        verdict(sided_key(bull, "Arrow"@ + "ElliottWave"@), c) == turns(c(now(line(Study::Ewtrend, Setup::Plain, 0))), c(before(line(Study::Ewtrend, Setup::Plain, 0))), c(Reading::Value { curve: line(Study::Ewtrend, Setup::Plain, 0), back: 2 }), bull),
        verdict(sided_key(bull, "Arrow"@ + "SupplyDemand"@), c) == turns(c(now(line(Study::Ewtrend, Setup::Plain, 0))), c(before(line(Study::Ewtrend, Setup::Plain, 0))), c(Reading::Value { curve: line(Study::Ewtrend, Setup::Plain, 0), back: 2 }), bull),
{
    reveal(verdict);
    assert(rule_named(sided_key(bull, "Arrow"@ + "ElliottWave"@)) == (Rule::Turn { curve: Curve::Line { study: Study::Ewtrend, setup: Setup::Plain, line: 0 }, bull })) by {
        lemma_sided(bull, "Arrow"@ + "ElliottWave"@);
        lemma_arrow("ElliottWave"@, bull);
        lemma_marks();
    }
    lemma_reads(Rule::Turn { curve: Curve::Line { study: Study::Ewtrend, setup: Setup::Plain, line: 0 }, bull }, c);
    assert(rule_named(sided_key(bull, "Arrow"@ + "SupplyDemand"@)) == (Rule::Turn { curve: Curve::Line { study: Study::Ewtrend, setup: Setup::Plain, line: 0 }, bull })) by {
        lemma_sided(bull, "Arrow"@ + "SupplyDemand"@);
        lemma_arrow("SupplyDemand"@, bull);
        lemma_marks();
    }
    lemma_reads(Rule::Turn { curve: Curve::Line { study: Study::Ewtrend, setup: Setup::Plain, line: 0 }, bull }, c);
}

#[verifier::rlimit(40)]
proof fn lemma_arrow_keys_7(c: spec_fn(Reading) -> Option<Num>, bull: bool)
    ensures
        verdict(sided_key(bull, "Arrow"@ + "PriceAction"@), c) == turns(c(now(line(Study::Patrend, Setup::Plain, 0))), c(before(line(Study::Patrend, Setup::Plain, 0))), c(Reading::Value { curve: line(Study::Patrend, Setup::Plain, 0), back: 2 }), bull),
        verdict(sided_key(bull, "Arrow"@ + "ZigZag"@), c) == turns(c(now(line(Study::Zzline, Setup::Plain, 1))), c(before(line(Study::Zzline, Setup::Plain, 1))), c(Reading::Value { curve: line(Study::Zzline, Setup::Plain, 1), back: 2 }), bull),
{
    reveal(verdict);
    assert(rule_named(sided_key(bull, "Arrow"@ + "PriceAction"@)) == (Rule::Turn { curve: Curve::Line { study: Study::Patrend, setup: Setup::Plain, line: 0 }, bull })) by {
        lemma_sided(bull, "Arrow"@ + "PriceAction"@);
        lemma_arrow("PriceAction"@, bull);
        lemma_marks();
    }
    lemma_reads(Rule::Turn { curve: Curve::Line { study: Study::Patrend, setup: Setup::Plain, line: 0 }, bull }, c);
    assert(rule_named(sided_key(bull, "Arrow"@ + "ZigZag"@)) == (Rule::Turn { curve: Curve::Line { study: Study::Zzline, setup: Setup::Plain, line: 1 }, bull })) by {
        lemma_sided(bull, "Arrow"@ + "ZigZag"@);
        lemma_arrow("ZigZag"@, bull);
        lemma_marks();
    }
    lemma_reads(Rule::Turn { curve: Curve::Line { study: Study::Zzline, setup: Setup::Plain, line: 1 }, bull }, c);
}

#[verifier::rlimit(40)]
proof fn lemma_arrow_keys_8(c: spec_fn(Reading) -> Option<Num>, bull: bool)
    ensures
        verdict(sided_key(bull, "Arrow"@ + "ComboMaster"@), c) == turns(c(now(line(Study::Trendmaster, Setup::Plain, 1))), c(before(line(Study::Trendmaster, Setup::Plain, 1))), c(Reading::Value { curve: line(Study::Trendmaster, Setup::Plain, 1), back: 2 }), bull),
        verdict(sided_key(bull, "Arrow"@ + "PaneConsensus"@), c) == turns(c(now(line(Study::Panemaster, Setup::Plain, 0))), c(before(line(Study::Panemaster, Setup::Plain, 0))), c(Reading::Value { curve: line(Study::Panemaster, Setup::Plain, 0), back: 2 }), bull),
{
    reveal(verdict);
    assert(rule_named(sided_key(bull, "Arrow"@ + "ComboMaster"@)) == (Rule::Turn { curve: Curve::Line { study: Study::Trendmaster, setup: Setup::Plain, line: 1 }, bull })) by {
        lemma_sided(bull, "Arrow"@ + "ComboMaster"@);
        lemma_arrow("ComboMaster"@, bull);
        lemma_marks();
    }
    lemma_reads(Rule::Turn { curve: Curve::Line { study: Study::Trendmaster, setup: Setup::Plain, line: 1 }, bull }, c);
    assert(rule_named(sided_key(bull, "Arrow"@ + "PaneConsensus"@)) == (Rule::Turn { curve: Curve::Line { study: Study::Panemaster, setup: Setup::Plain, line: 0 }, bull })) by {
        lemma_sided(bull, "Arrow"@ + "PaneConsensus"@);
        lemma_arrow("PaneConsensus"@, bull);
        lemma_marks();
    }
    lemma_reads(Rule::Turn { curve: Curve::Line { study: Study::Panemaster, setup: Setup::Plain, line: 0 }, bull }, c);
}

/// The arrow keys: the study turned to the side on this very bar; of a study whose
/// line has a constant slope, the swing structure did.
pub proof fn law_arrow_keys(c: spec_fn(Reading) -> Option<Num>, bull: bool)
    ensures
        verdict(sided_key(bull, "Arrow"@ + "Consensus"@), c) == fresh_vote(c(Reading::Vote { back: 0 }), c(Reading::Vote { back: 1 }), bull),
        verdict(sided_key(bull, "Arrow"@ + "Oit"@), c) == turns(c(now(Curve::Regime)), c(before(Curve::Regime)), c(Reading::Value { curve: Curve::Regime, back: 2 }), bull),
        verdict(sided_key(bull, "Arrow"@ + "TrendCore"@), c) == turns(c(now(line(Study::Vlcore, Setup::Plain, 0))), c(before(line(Study::Vlcore, Setup::Plain, 0))), c(Reading::Value { curve: line(Study::Vlcore, Setup::Plain, 0), back: 2 }), bull),
        verdict(sided_key(bull, "Arrow"@ + "Vl"@), c) == turns(c(now(line(Study::Vl, Setup::Plain, 0))), c(before(line(Study::Vl, Setup::Plain, 0))), c(Reading::Value { curve: line(Study::Vl, Setup::Plain, 0), back: 2 }), bull),
        verdict(sided_key(bull, "Arrow"@ + "Srema"@), c) == flag(c(Reading::Swing { bull })),
        verdict(sided_key(bull, "Arrow"@ + "AutoTrendline"@), c) == flag(c(Reading::Swing { bull })),
        verdict(sided_key(bull, "Arrow"@ + "Pitchfork"@), c) == flag(c(Reading::Swing { bull })),
        verdict(sided_key(bull, "Arrow"@ + "TrendProjection"@), c) == flag(c(Reading::Swing { bull })),
        verdict(sided_key(bull, "Arrow"@ + "GannFan"@), c) == flag(c(Reading::Swing { bull })),
        verdict(sided_key(bull, "Arrow"@ + "FibFan"@), c) == flag(c(Reading::Swing { bull })),
        verdict(sided_key(bull, "Arrow"@ + "Support"@), c) == flag(c(Reading::Swing { bull })),
        verdict(sided_key(bull, "Arrow"@ + "Resistance"@), c) == flag(c(Reading::Swing { bull })),
        verdict(sided_key(bull, "Arrow"@ + "ElliottWave"@), c) == turns(c(now(line(Study::Ewtrend, Setup::Plain, 0))), c(before(line(Study::Ewtrend, Setup::Plain, 0))), c(Reading::Value { curve: line(Study::Ewtrend, Setup::Plain, 0), back: 2 }), bull),
        verdict(sided_key(bull, "Arrow"@ + "SupplyDemand"@), c) == turns(c(now(line(Study::Ewtrend, Setup::Plain, 0))), c(before(line(Study::Ewtrend, Setup::Plain, 0))), c(Reading::Value { curve: line(Study::Ewtrend, Setup::Plain, 0), back: 2 }), bull),
        verdict(sided_key(bull, "Arrow"@ + "PriceAction"@), c) == turns(c(now(line(Study::Patrend, Setup::Plain, 0))), c(before(line(Study::Patrend, Setup::Plain, 0))), c(Reading::Value { curve: line(Study::Patrend, Setup::Plain, 0), back: 2 }), bull),
        verdict(sided_key(bull, "Arrow"@ + "ZigZag"@), c) == turns(c(now(line(Study::Zzline, Setup::Plain, 1))), c(before(line(Study::Zzline, Setup::Plain, 1))), c(Reading::Value { curve: line(Study::Zzline, Setup::Plain, 1), back: 2 }), bull),
        verdict(sided_key(bull, "Arrow"@ + "ComboMaster"@), c) == turns(c(now(line(Study::Trendmaster, Setup::Plain, 1))), c(before(line(Study::Trendmaster, Setup::Plain, 1))), c(Reading::Value { curve: line(Study::Trendmaster, Setup::Plain, 1), back: 2 }), bull),
        verdict(sided_key(bull, "Arrow"@ + "PaneConsensus"@), c) == turns(c(now(line(Study::Panemaster, Setup::Plain, 0))), c(before(line(Study::Panemaster, Setup::Plain, 0))), c(Reading::Value { curve: line(Study::Panemaster, Setup::Plain, 0), back: 2 }), bull),
{
    lemma_arrow_keys_0(c, bull);
    lemma_arrow_keys_1(c, bull);
    lemma_arrow_keys_2(c, bull);
    lemma_arrow_keys_3(c, bull);
    lemma_arrow_keys_4(c, bull);
    lemma_arrow_keys_5(c, bull);
    lemma_arrow_keys_6(c, bull);
    lemma_arrow_keys_7(c, bull);
    lemma_arrow_keys_8(c, bull);
}

#[verifier::rlimit(40)]
proof fn lemma_momentum_keys_0(c: spec_fn(Reading) -> Option<Num>, bull: bool)
    ensures
        verdict(sided_key(bull, "Pbg"@ + "Macd"@), c) == over(c(now(line(Study::Macd, Setup::Plain, 0))), c(now(line(Study::Macd, Setup::Plain, 1))), bull),
        verdict(sided_key(bull, "Pbg"@ + "Ppo"@), c) == over(c(now(line(Study::Ppo, Setup::Plain, 0))), c(now(line(Study::Ppo, Setup::Plain, 1))), bull),
{
    reveal(verdict);
    assert(rule_named(sided_key(bull, "Pbg"@ + "Macd"@)) == (Rule::Level { a: Curve::Line { study: Study::Macd, setup: Setup::Plain, line: 0 }, b: Curve::Line { study: Study::Macd, setup: Setup::Plain, line: 1 }, bull })) by {
        lemma_sided(bull, "Pbg"@ + "Macd"@);
        lemma_pbg("Macd"@, bull);
        lemma_marks();
    }
    lemma_reads(Rule::Level { a: Curve::Line { study: Study::Macd, setup: Setup::Plain, line: 0 }, b: Curve::Line { study: Study::Macd, setup: Setup::Plain, line: 1 }, bull }, c);
    assert(rule_named(sided_key(bull, "Pbg"@ + "Ppo"@)) == (Rule::Level { a: Curve::Line { study: Study::Ppo, setup: Setup::Plain, line: 0 }, b: Curve::Line { study: Study::Ppo, setup: Setup::Plain, line: 1 }, bull })) by {
        lemma_sided(bull, "Pbg"@ + "Ppo"@);
        lemma_pbg("Ppo"@, bull);
        lemma_marks();
    }
    lemma_reads(Rule::Level { a: Curve::Line { study: Study::Ppo, setup: Setup::Plain, line: 0 }, b: Curve::Line { study: Study::Ppo, setup: Setup::Plain, line: 1 }, bull }, c);
}

#[verifier::rlimit(40)]
proof fn lemma_momentum_keys_1(c: spec_fn(Reading) -> Option<Num>, bull: bool)
    ensures
        verdict(sided_key(bull, "Pbg"@ + "Stochrsi"@), c) == over(c(now(line(Study::Stochrsi, Setup::Plain, 0))), c(now(line(Study::Stochrsi, Setup::Plain, 1))), bull),
        verdict(sided_key(bull, "Pbg"@ + "Tsi"@), c) == signal(c(Reading::Raw { study: Study::Tsi }), c(Reading::Signal { study: Study::Tsi, smooth: Smooth::Ema(13) }), bull),
{
    reveal(verdict);
    assert(rule_named(sided_key(bull, "Pbg"@ + "Stochrsi"@)) == (Rule::Level { a: Curve::Line { study: Study::Stochrsi, setup: Setup::Plain, line: 0 }, b: Curve::Line { study: Study::Stochrsi, setup: Setup::Plain, line: 1 }, bull })) by {
        lemma_sided(bull, "Pbg"@ + "Stochrsi"@);
        lemma_pbg("Stochrsi"@, bull);
        lemma_marks();
    }
    lemma_reads(Rule::Level { a: Curve::Line { study: Study::Stochrsi, setup: Setup::Plain, line: 0 }, b: Curve::Line { study: Study::Stochrsi, setup: Setup::Plain, line: 1 }, bull }, c);
    assert(rule_named(sided_key(bull, "Pbg"@ + "Tsi"@)) == (Rule::Signal { study: Study::Tsi, smooth: Smooth::Ema(13), bull })) by {
        lemma_sided(bull, "Pbg"@ + "Tsi"@);
        lemma_pbg("Tsi"@, bull);
        lemma_marks();
    }
    lemma_reads(Rule::Signal { study: Study::Tsi, smooth: Smooth::Ema(13), bull }, c);
}

#[verifier::rlimit(40)]
proof fn lemma_momentum_keys_2(c: spec_fn(Reading) -> Option<Num>, bull: bool)
    ensures
        verdict(sided_key(bull, "Pbg"@ + "Rsi"@), c) == signal(c(Reading::Raw { study: Study::Rsi }), c(Reading::Signal { study: Study::Rsi, smooth: Smooth::Ema(9) }), bull),
        verdict(sided_key(bull, "Pbg"@ + "Obv"@), c) == signal(c(Reading::Raw { study: Study::Obv }), c(Reading::Signal { study: Study::Obv, smooth: Smooth::Sma(30) }), bull),
{
    reveal(verdict);
    assert(rule_named(sided_key(bull, "Pbg"@ + "Rsi"@)) == (Rule::Signal { study: Study::Rsi, smooth: Smooth::Ema(9), bull })) by {
        lemma_sided(bull, "Pbg"@ + "Rsi"@);
        lemma_pbg("Rsi"@, bull);
        lemma_marks();
    }
    lemma_reads(Rule::Signal { study: Study::Rsi, smooth: Smooth::Ema(9), bull }, c);
    assert(rule_named(sided_key(bull, "Pbg"@ + "Obv"@)) == (Rule::Signal { study: Study::Obv, smooth: Smooth::Sma(30), bull })) by {
        lemma_sided(bull, "Pbg"@ + "Obv"@);
        lemma_pbg("Obv"@, bull);
        lemma_marks();
    }
    lemma_reads(Rule::Signal { study: Study::Obv, smooth: Smooth::Sma(30), bull }, c);
}

#[verifier::rlimit(40)]
proof fn lemma_momentum_keys_3(c: spec_fn(Reading) -> Option<Num>, bull: bool)
    ensures
        verdict(sided_key(bull, "Pbg"@ + "Fisher"@), c) == signal(c(Reading::Raw { study: Study::Fisher }), c(Reading::Signal { study: Study::Fisher, smooth: Smooth::Ema(3) }), bull),
        verdict(sided_key(bull, "Pbg"@ + "Smiio"@), c) == ergodic_kept(c, bull),
{
    reveal(verdict);
    assert(rule_named(sided_key(bull, "Pbg"@ + "Fisher"@)) == (Rule::Signal { study: Study::Fisher, smooth: Smooth::Ema(3), bull })) by {
        lemma_sided(bull, "Pbg"@ + "Fisher"@);
        lemma_pbg("Fisher"@, bull);
        lemma_marks();
    }
    lemma_reads(Rule::Signal { study: Study::Fisher, smooth: Smooth::Ema(3), bull }, c);
    assert(rule_named(sided_key(bull, "Pbg"@ + "Smiio"@)) == (Rule::ErgodicHold { bull })) by {
        lemma_sided(bull, "Pbg"@ + "Smiio"@);
        lemma_pbg("Smiio"@, bull);
        lemma_marks();
    }
    lemma_reads(Rule::ErgodicHold { bull }, c);
}

#[verifier::rlimit(40)]
proof fn lemma_momentum_keys_4(c: spec_fn(Reading) -> Option<Num>, bull: bool)
    ensures
        verdict(sided_key(bull, "Pbg"@ + "Smf"@), c) == lead_kept(c, Study::Smf, Setup::Plain, bull),
        verdict(sided_key(bull, "Pbg"@ + "Aroon"@), c) == lead_kept(c, Study::Aroon, Setup::Length(25), bull),
{
    reveal(verdict);
    assert(rule_named(sided_key(bull, "Pbg"@ + "Smf"@)) == (Rule::Hold { study: Study::Smf, setup: Setup::Plain, bull })) by {
        lemma_sided(bull, "Pbg"@ + "Smf"@);
        lemma_pbg("Smf"@, bull);
        lemma_marks();
    }
    lemma_reads(Rule::Hold { study: Study::Smf, setup: Setup::Plain, bull }, c);
    assert(rule_named(sided_key(bull, "Pbg"@ + "Aroon"@)) == (Rule::Hold { study: Study::Aroon, setup: Setup::Length(25), bull })) by {
        lemma_sided(bull, "Pbg"@ + "Aroon"@);
        lemma_pbg("Aroon"@, bull);
        lemma_marks();
    }
    lemma_reads(Rule::Hold { study: Study::Aroon, setup: Setup::Length(25), bull }, c);
}

#[verifier::rlimit(40)]
proof fn lemma_momentum_keys_5(c: spec_fn(Reading) -> Option<Num>, bull: bool)
    ensures
        verdict(sided_key(bull, "Pbg"@ + "Vortex"@), c) == vortex_kept(c, bull),
        verdict(sided_key(bull, "Pbg"@ + "Adx"@), c) == gauge_kept(c, bull),
{
    reveal(verdict);
    assert(rule_named(sided_key(bull, "Pbg"@ + "Vortex"@)) == (Rule::VortexHold { bull })) by {
        lemma_sided(bull, "Pbg"@ + "Vortex"@);
        lemma_pbg("Vortex"@, bull);
        lemma_marks();
    }
    lemma_reads(Rule::VortexHold { bull }, c);
    assert(rule_named(sided_key(bull, "Pbg"@ + "Adx"@)) == (Rule::AdxHold { bull })) by {
        lemma_sided(bull, "Pbg"@ + "Adx"@);
        lemma_pbg("Adx"@, bull);
        lemma_marks();
    }
    lemma_reads(Rule::AdxHold { bull }, c);
}

/// The momentum keys: the line stands beyond its signal; of four studies it also keeps
/// what it has against the bar before.
pub proof fn law_momentum_keys(c: spec_fn(Reading) -> Option<Num>, bull: bool)
    ensures
        verdict(sided_key(bull, "Pbg"@ + "Macd"@), c) == over(c(now(line(Study::Macd, Setup::Plain, 0))), c(now(line(Study::Macd, Setup::Plain, 1))), bull),
        verdict(sided_key(bull, "Pbg"@ + "Ppo"@), c) == over(c(now(line(Study::Ppo, Setup::Plain, 0))), c(now(line(Study::Ppo, Setup::Plain, 1))), bull),
        verdict(sided_key(bull, "Pbg"@ + "Stochrsi"@), c) == over(c(now(line(Study::Stochrsi, Setup::Plain, 0))), c(now(line(Study::Stochrsi, Setup::Plain, 1))), bull),
        verdict(sided_key(bull, "Pbg"@ + "Tsi"@), c) == signal(c(Reading::Raw { study: Study::Tsi }), c(Reading::Signal { study: Study::Tsi, smooth: Smooth::Ema(13) }), bull),
        verdict(sided_key(bull, "Pbg"@ + "Rsi"@), c) == signal(c(Reading::Raw { study: Study::Rsi }), c(Reading::Signal { study: Study::Rsi, smooth: Smooth::Ema(9) }), bull),
        verdict(sided_key(bull, "Pbg"@ + "Obv"@), c) == signal(c(Reading::Raw { study: Study::Obv }), c(Reading::Signal { study: Study::Obv, smooth: Smooth::Sma(30) }), bull),
        verdict(sided_key(bull, "Pbg"@ + "Fisher"@), c) == signal(c(Reading::Raw { study: Study::Fisher }), c(Reading::Signal { study: Study::Fisher, smooth: Smooth::Ema(3) }), bull),
        verdict(sided_key(bull, "Pbg"@ + "Smiio"@), c) == ergodic_kept(c, bull),
        verdict(sided_key(bull, "Pbg"@ + "Smf"@), c) == lead_kept(c, Study::Smf, Setup::Plain, bull),
        verdict(sided_key(bull, "Pbg"@ + "Aroon"@), c) == lead_kept(c, Study::Aroon, Setup::Length(25), bull),
        verdict(sided_key(bull, "Pbg"@ + "Vortex"@), c) == vortex_kept(c, bull),
        verdict(sided_key(bull, "Pbg"@ + "Adx"@), c) == gauge_kept(c, bull),
{
    lemma_momentum_keys_0(c, bull);
    lemma_momentum_keys_1(c, bull);
    lemma_momentum_keys_2(c, bull);
    lemma_momentum_keys_3(c, bull);
    lemma_momentum_keys_4(c, bull);
    lemma_momentum_keys_5(c, bull);
}

/// The exponential average of `n` bars; of one bar it is the close itself.
pub open spec fn ema(n: i64) -> Curve {
    if n <= 1 {
        Curve::Close
    } else {
        line(Study::Ema, Setup::Length(n), 0)
    }
}

/// Two numbers with an underscore between them.
pub open spec fn paired(a: i64, b: i64) -> Seq<char> {
    text::int_dec(a as int).push('_') + text::int_dec(b as int)
}

proof fn lemma_written(n: i64)
    ensures
        !text::int_dec(n as int).contains('_'),
        text::int_value(text::int_dec(n as int)) == Some(n as int),
        text::int_dec(n as int).len() > 0,
        text::int_dec(n as int)[0] != 'T',
{
    let s = text::int_dec(n as int);
    text::law_numbers_read_back(n as int);
    text::law_numbers_read_back(-n as int);
    assert forall|i: int| 0 <= i < s.len() implies s[i] != '_' && s[i] != 'T' by {
        if n >= 0 {
            assert(text::digit(text::dec(n as int)[i]));
        } else if i > 0 {
            assert(text::digit(text::dec(-n as int)[i - 1]));
        }
    }
}

proof fn lemma_pair(a: i64, b: i64)
    ensures
        rules::pair_of(paired(a, b)) == Some((a, b)),
{
    lemma_written(a);
    lemma_written(b);
    let x = text::int_dec(a as int);
    let y = text::int_dec(b as int);
    text::law_fields_stand_between(x, y, '_');
    text::law_fields_stand_between(y, x, '_');
}

#[verifier::rlimit(40)]
proof fn lemma_average_level(c: spec_fn(Reading) -> Option<Num>, bull: bool, a: i64, b: i64)
    ensures
        verdict(sided_key(bull, "MeetEma"@ + paired(a, b)), c) == over(
            c(now(ema(a))),
            c(now(ema(b))),
            bull,
        ),
{
    let p = paired(a, b);
    let k = "MeetEma"@ + p;
    assert(rule_named(sided_key(bull, k)) == (Rule::Level { a: ema(a), b: ema(b), bull })) by {
        reveal(rule_named);
        lemma_heads();
        lemma_pair(a, b);
        assert(k =~= "Meet"@ + ("Ema"@ + p));
        lemma_sided(bull, k);
        lemma_not_plain(k, bull);
        lemma_headed(k);
        lemma_after("Meet"@, "Ema"@ + p);
        lemma_after("Ema"@, p);
    }
    reveal(verdict);
    lemma_reads(Rule::Level { a: ema(a), b: ema(b), bull }, c);
}

#[verifier::rlimit(40)]
proof fn lemma_average_cross(c: spec_fn(Reading) -> Option<Num>, bull: bool, a: i64, b: i64)
    ensures
        verdict(sided_key(bull, "Ema"@ + paired(a, b)), c) == crosses(
            c(now(ema(a))),
            c(before(ema(a))),
            c(now(ema(b))),
            c(before(ema(b))),
            bull,
        ),
{
    let p = paired(a, b);
    let k = "Ema"@ + p;
    assert(rule_named(sided_key(bull, k)) == (Rule::Cross { a: ema(a), b: ema(b), up: bull }))
        by {
        reveal(rule_named);
        lemma_heads();
        lemma_written(a);
        lemma_pair(a, b);
        assert(p[0] == text::int_dec(a as int)[0]);
        assert(k[0] == 'E' && k[1] == 'm' && k[3] == p[0]);
        lemma_sided(bull, k);
        lemma_not_plain(k, bull);
        lemma_headed(k);
        lemma_after("Ema"@, p);
    }
    reveal(verdict);
    lemma_reads(Rule::Cross { a: ema(a), b: ema(b), up: bull }, c);
}

#[verifier::rlimit(40)]
proof fn lemma_average_move(c: spec_fn(Reading) -> Option<Num>, bull: bool, a: i64)
    ensures
        verdict(sided_key(bull, "EmaTrend"@ + text::int_dec(a as int)), c) == over(
            c(now(ema(a))),
            c(before(ema(a))),
            bull,
        ),
{
    let d = text::int_dec(a as int);
    let k = "EmaTrend"@ + d;
    assert(rule_named(sided_key(bull, k)) == (Rule::Dir {
        curve: ema(a),
        bull,
        neutral: false,
    })) by {
        reveal(rule_named);
        lemma_heads();
        lemma_written(a);
        lemma_sided(bull, k);
        lemma_not_plain(k, bull);
        lemma_headed(k);
        lemma_after("EmaTrend"@, d);
    }
    reveal(verdict);
    lemma_reads(Rule::Dir { curve: ema(a), bull, neutral: false }, c);
}

/// The keys of the moving averages, for every pair of lengths. `MeetEma a_b` holds for
/// the bulls exactly where the average of `a` bars stands above that of `b` bars, and
/// for the bears exactly where it stands below. `Ema a_b` asks that it crossed on this
/// bar, `EmaTrend n` that the average moves with the side.
pub proof fn law_average_keys(c: spec_fn(Reading) -> Option<Num>, bull: bool, a: i64, b: i64)
    ensures
        verdict(sided_key(bull, "MeetEma"@ + paired(a, b)), c) == over(
            c(now(ema(a))),
            c(now(ema(b))),
            bull,
        ),
        verdict(sided_key(bull, "Ema"@ + paired(a, b)), c) == crosses(
            c(now(ema(a))),
            c(before(ema(a))),
            c(now(ema(b))),
            c(before(ema(b))),
            bull,
        ),
        verdict(sided_key(bull, "EmaTrend"@ + text::int_dec(a as int)), c) == over(
            c(now(ema(a))),
            c(before(ema(a))),
            bull,
        ),
{
    lemma_average_level(c, bull, a, b);
    lemma_average_cross(c, bull, a, b);
    lemma_average_move(c, bull, a);
}

/// The keys of the super-trend lines, for every pair of factors: `MeetSt10_a_b` asks
/// which line stands higher, `St10_a_b` that the first crossed the second on this bar.
#[verifier::rlimit(40)]
pub proof fn law_trend_keys(c: spec_fn(Reading) -> Option<Num>, bull: bool, a: i64, b: i64)
    ensures
        ({
            let x = line(Study::Supertrend, Setup::Trend(a), 0);
            let y = line(Study::Supertrend, Setup::Trend(b), 0);
            &&& verdict(sided_key(bull, "MeetSt10_"@ + paired(a, b)), c) == over(
                c(now(x)),
                c(now(y)),
                bull,
            )
            &&& verdict(sided_key(bull, "St10_"@ + paired(a, b)), c) == crosses(
                c(now(x)),
                c(before(x)),
                c(now(y)),
                c(before(y)),
                bull,
            )
        }),
{
    let p = paired(a, b);
    let x = line(Study::Supertrend, Setup::Trend(a), 0);
    let y = line(Study::Supertrend, Setup::Trend(b), 0);
    let k = "MeetSt10_"@ + p;
    let q = "St10_"@ + p;
    assert(rule_named(sided_key(bull, k)) == (Rule::Level { a: x, b: y, bull })) by {
        reveal(rule_named);
        lemma_heads();
        lemma_pair(a, b);
        lemma_sided(bull, k);
        lemma_not_plain(k, bull);
        lemma_headed(k);
        lemma_after("MeetSt10_"@, p);
    }
    assert(rule_named(sided_key(bull, q)) == (Rule::Cross { a: x, b: y, up: bull })) by {
        reveal(rule_named);
        lemma_heads();
        lemma_pair(a, b);
        lemma_sided(bull, q);
        lemma_not_plain(q, bull);
        lemma_headed(q);
        lemma_after("St10_"@, p);
    }
    reveal(verdict);
    lemma_reads(Rule::Level { a: x, b: y, bull }, c);
    lemma_reads(Rule::Cross { a: x, b: y, up: bull }, c);
}

/// The keys of all pane studies: every pane study crosses its signal line on this bar,
/// or every one stands beyond it; a study that is not computed does not block.
#[verifier::rlimit(40)]
pub proof fn law_pane_keys(c: spec_fn(Reading) -> Option<Num>, bull: bool)
    ensures
        verdict(sided_key(bull, "PaneCrossUp"@), c) == Some(pairs_cross(c, true)),
        verdict(sided_key(bull, "PaneCrossDown"@), c) == Some(pairs_cross(c, false)),
        verdict(sided_key(bull, "MeetPaneCross"@), c) == Some(pairs_stand(c, bull)),
{
    lemma_pane_crosses(c, bull, true);
    lemma_pane_crosses(c, bull, false);
    assert(rule_named(sided_key(bull, "MeetPaneCross"@)) == (Rule::PaneLevel { bull })) by {
        reveal(rule_named);
        lemma_sided(bull, "MeetPaneCross"@);
        lemma_marks();
    }
    reveal(verdict);
    let asked = verdict::reads(Rule::PaneLevel { bull });
    let v = Seq::new(asked.len(), |i: int| c(asked[i]));
    assert forall|k: int| 0 <= k < 7 implies pair_stands(c, bull, k) == (verdict::level(
        bull,
        v[2 * k],
        v[2 * k + 1],
    ) != Some(false)) by {
        assert(asked[2 * k] == now(main_line(k)));
        assert(asked[2 * k + 1] == now(signal_line(k)));
    }
    if pairs_stand(c, bull) {
        assert forall|k: int| 0 <= k < v.len() / 2 implies #[trigger] verdict::level(
            bull,
            v[2 * k],
            v[2 * k + 1],
        ) != Some(false) by {
            assert(pair_stands(c, bull, k));
        }
    }
}

#[verifier::rlimit(40)]
proof fn lemma_pane_crosses(c: spec_fn(Reading) -> Option<Num>, bull: bool, up: bool)
    ensures
        verdict(
            sided_key(
                bull,
                if up {
                    "PaneCrossUp"@
                } else {
                    "PaneCrossDown"@
                },
            ),
            c,
        ) == Some(pairs_cross(c, up)),
{
    let b = if up {
        "PaneCrossUp"@
    } else {
        "PaneCrossDown"@
    };
    assert(rule_named(sided_key(bull, b)) == (Rule::PaneCross { up })) by {
        reveal(rule_named);
        lemma_sided(bull, b);
        lemma_marks();
    }
    reveal(verdict);
    let asked = verdict::reads(Rule::PaneCross { up });
    let v = Seq::new(asked.len(), |i: int| c(asked[i]));
    assert forall|k: int| 0 <= k < 7 implies pair_crosses(c, up, k) == (verdict::crossed(
        up,
        v[4 * k],
        v[4 * k + 1],
        v[4 * k + 2],
        v[4 * k + 3],
    ) != Some(false)) by {
        assert(asked[4 * k] == now(main_line(k)));
        assert(asked[4 * k + 1] == before(main_line(k)));
        assert(asked[4 * k + 2] == now(signal_line(k)));
        assert(asked[4 * k + 3] == before(signal_line(k)));
    }
    if pairs_cross(c, up) {
        assert forall|k: int| 0 <= k < v.len() / 4 implies #[trigger] verdict::crossed(
            up,
            v[4 * k],
            v[4 * k + 1],
            v[4 * k + 2],
            v[4 * k + 3],
        ) != Some(false) by {
            assert(pair_crosses(c, up, k));
        }
    }
}

/// A line of a pane study does not move against the asked way.
pub open spec fn pane_moves(v: Seq<Option<Num>>, rising: bool, k: int) -> bool {
    v[2 * k] is Some && v[2 * k + 1] is Some ==> (over(v[2 * k], v[2 * k + 1], true) == Some(true))
        == rising
}

/// The keys that walk every line of the pane studies, each given as its reading now and
/// a bar ago: all of them rise, or none does; a line that is not computed does not
/// block.
pub proof fn law_pane_walk_keys(v: Seq<Option<Num>>, bull: bool)
    ensures
        verdict::judge(rule_named(sided_key(bull, "PaneIncUpAll"@)), v) == Some(
            forall|k: int| 0 <= k < v.len() / 2 ==> #[trigger] pane_moves(v, true, k),
        ),
        verdict::judge(rule_named(sided_key(bull, "PaneIncDownAll"@)), v) == Some(
            forall|k: int| 0 <= k < v.len() / 2 ==> #[trigger] pane_moves(v, false, k),
        ),
{
    lemma_pane_walk(v, bull, true);
    lemma_pane_walk(v, bull, false);
}

#[verifier::rlimit(40)]
proof fn lemma_pane_walk(v: Seq<Option<Num>>, bull: bool, up: bool)
    ensures
        verdict::judge(
            rule_named(
                sided_key(
                    bull,
                    if up {
                        "PaneIncUpAll"@
                    } else {
                        "PaneIncDownAll"@
                    },
                ),
            ),
            v,
        ) == Some(forall|k: int| 0 <= k < v.len() / 2 ==> #[trigger] pane_moves(v, up, k)),
{
    let b = if up {
        "PaneIncUpAll"@
    } else {
        "PaneIncDownAll"@
    };
    assert(rule_named(sided_key(bull, b)) == (Rule::PaneAll { bull: up })) by {
        reveal(rule_named);
        lemma_sided(bull, b);
        lemma_marks();
    }
    assert forall|k: int| pane_moves(v, up, k) == verdict::agrees(up, v[2 * k], v[2 * k + 1]) by {
    }
    if forall|k: int| 0 <= k < v.len() / 2 ==> #[trigger] pane_moves(v, up, k) {
        assert forall|k: int| 0 <= k < v.len() / 2 implies #[trigger] verdict::agrees(
            up,
            v[2 * k],
            v[2 * k + 1],
        ) by {
            assert(pane_moves(v, up, k));
        }
    }
}

/// The key of the volume line: the line rises or falls.
#[verifier::rlimit(40)]
pub proof fn law_volume_line_key(c: spec_fn(Reading) -> Option<Num>, bull: bool)
    ensures
        verdict(sided_key(bull, "Vl"@), c) == over(
            c(now(line(Study::Vl, Setup::Plain, 0))),
            c(before(line(Study::Vl, Setup::Plain, 0))),
            bull,
        ),
{
    assert(rule_named(sided_key(bull, "Vl"@)) == (Rule::Dir {
        curve: line(Study::Vl, Setup::Plain, 0),
        bull,
        neutral: false,
    })) by {
        reveal(rule_named);
        lemma_heads();
        lemma_sided(bull, "Vl"@);
        lemma_not_plain("Vl"@, bull);
        lemma_headed("Vl"@);
    }
    reveal(verdict);
    lemma_reads(
        Rule::Dir { curve: line(Study::Vl, Setup::Plain, 0), bull, neutral: false },
        c,
    );
}


} // verus!
