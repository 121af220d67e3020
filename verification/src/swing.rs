//! The swing structure of a chart: where a rise or a fall ended, and the automatic
//! support and resistance that follow.

use vstd::prelude::*;
use crate::num::Num;

verus! {

/// The swing that a replay of bars stands in.
#[derive(Clone, Copy, Debug)]
pub struct Swing {
    /// The swing rises.
    pub rising: bool,
    /// The furthest price of the swing.
    pub extreme: Num,
    /// The price at which the swing before it ended.
    pub pivot: Option<Num>,
    /// The lowest low so far.
    pub low: Num,
    /// The highest high so far.
    pub high: Num,
}

/// The swing of the first bar.
pub open spec fn first(high: Num, low: Num) -> Swing {
    Swing { rising: true, extreme: high, pivot: None, low, high }
}

/// The furthest price of the swing once the bar is counted.
pub open spec fn led_to(s: Swing, high: Num, low: Num) -> Num {
    if s.rising {
        if high.above(s.extreme) {
            high
        } else {
            s.extreme
        }
    } else {
        if s.extreme.above(low) {
            low
        } else {
            s.extreme
        }
    }
}

/// The bar ends the swing: it reaches the price at which the swing turns.
pub open spec fn turns(s: Swing, high: Num, low: Num, turn: Num) -> bool {
    if s.rising {
        turn.not_below(low)
    } else {
        high.not_below(turn)
    }
}

/// The swing after a bar. One that turns ends at its furthest price, and the next
/// one starts at the far end of the bar.
pub open spec fn after(s: Swing, high: Num, low: Num, turn: Num) -> Swing {
    let lead = led_to(s, high, low);
    let ended = turns(s, high, low, turn);
    Swing {
        rising: s.rising != ended,
        extreme: if !ended {
            lead
        } else if s.rising {
            low
        } else {
            high
        },
        pivot: if ended {
            Some(lead)
        } else {
            s.pivot
        },
        low: if s.low.above(low) {
            low
        } else {
            s.low
        },
        high: if high.above(s.high) {
            high
        } else {
            s.high
        },
    }
}

/// The automatic support.
pub open spec fn support_of(s: Swing) -> Num {
    if !s.rising {
        s.extreme
    } else if s.pivot is Some {
        s.pivot->0
    } else {
        s.low
    }
}

/// The automatic resistance.
pub open spec fn resistance_of(s: Swing) -> Num {
    if s.rising {
        s.extreme
    } else if s.pivot is Some {
        s.pivot->0
    } else {
        s.high
    }
}

impl Swing {
    /// Starts the replay at the first bar.
    pub fn start(high: Num, low: Num) -> (r: Self)
        ensures
            r == first(high, low),
    {
        Swing { rising: true, extreme: high, pivot: None, low, high }
    }

    /// The furthest price of the swing once the bar is counted, from which the
    /// price at which the swing turns is worked out.
    pub fn lead(&self, high: Num, low: Num) -> (r: Num)
        ensures
            r == led_to(*self, high, low),
    {
        if self.rising {
            if high.gt(&self.extreme) {
                high
            } else {
                self.extreme
            }
        } else {
            if low.lt(&self.extreme) {
                low
            } else {
                self.extreme
            }
        }
    }

    /// Takes a bar that follows the first; `turn` is the price at which the swing
    /// turns.
    pub fn step(&mut self, high: Num, low: Num, turn: Num)
        ensures
            *final(self) == after(*old(self), high, low, turn),
    {
        let lead = self.lead(high, low);
        let ended = if self.rising {
            low.le(&turn)
        } else {
            high.ge(&turn)
        };
        if low.lt(&self.low) {
            self.low = low;
        }
        if high.gt(&self.high) {
            self.high = high;
        }
        if ended {
            self.extreme = if self.rising {
                low
            } else {
                high
            };
            self.pivot = Some(lead);
            self.rising = !self.rising;
        } else {
            self.extreme = lead;
        }
    }

    /// The automatic support.
    pub fn support(&self) -> (r: Num)
        ensures
            r == support_of(*self),
    {
        if !self.rising {
            return self.extreme;
        }
        match self.pivot {
            Some(p) => p,
            None => self.low,
        }
    }

    /// The automatic resistance.
    pub fn resistance(&self) -> (r: Num)
        ensures
            r == resistance_of(*self),
    {
        if self.rising {
            return self.extreme;
        }
        match self.pivot {
            Some(p) => p,
            None => self.high,
        }
    }
}

/// Every price of the swing is a number.
pub open spec fn numbers(s: Swing) -> bool {
    !s.extreme.nan && !s.low.nan && !s.high.nan && (s.pivot is Some ==> !(s.pivot->0).nan)
}

/// The price at which the swing turns lies on the near side of its furthest price.
pub open spec fn turn_behind(s: Swing, high: Num, low: Num, turn: Num) -> bool {
    if s.rising {
        led_to(s, high, low).not_below(turn)
    } else {
        turn.not_below(led_to(s, high, low))
    }
}

/// The support never passes the resistance, whatever bars are replayed.
pub proof fn law_support_stays_below_resistance(s: Swing, high: Num, low: Num, turn: Num)
    requires
        numbers(s),
        resistance_of(s).not_below(support_of(s)),
        high.not_below(low),
        turn_behind(s, high, low, turn),
    ensures
        numbers(after(s, high, low, turn)),
        resistance_of(after(s, high, low, turn)).not_below(support_of(after(s, high, low, turn))),
{
}

/// A swing always covers its last bar, and it turns exactly where a swing is
/// noted as ended, at its furthest price.
pub proof fn law_swing_covers_its_bar(s: Swing, high: Num, low: Num, turn: Num)
    requires
        numbers(s),
        high.not_below(low),
    ensures
        ({
            let r = after(s, high, low, turn);
            &&& r.rising ==> r.extreme.not_below(high)
            &&& !r.rising ==> low.not_below(r.extreme)
            &&& r.rising != s.rising ==> r.pivot == Some(led_to(s, high, low))
            &&& r.rising == s.rising ==> r.pivot == s.pivot
        }),
{
}

/// The finite readings, in order.
pub open spec fn finites(v: Seq<Num>) -> Seq<Num>
    decreases v.len(),
{
    if v.len() == 0 {
        v
    } else if v.last().finite() {
        finites(v.drop_last()).push(v.last())
    } else {
        finites(v.drop_last())
    }
}

/// The seven readings up to a bar, fewer near the start of the chart.
pub open spec fn window(gaps: Seq<Num>, offset: int) -> Seq<Num> {
    let last = gaps.len() - 1 - offset;
    gaps.subrange(
        if last < 6 {
            0
        } else {
            last - 6
        },
        last + 1,
    )
}

/// The gap widened over the window of a bar; nothing is known with fewer than four.
pub open spec fn widened(gaps: Seq<Num>, offset: int) -> Option<bool> {
    let f = finites(window(gaps, offset));
    if gaps.len() < 4 || f.len() < 4 {
        None
    } else {
        Some(f.last().above(f[0]))
    }
}

/// Whether the gap to the automatic support or resistance widened: of the last
/// seven bars at least four have a gap, and the last is wider than the first.
/// `None` with fewer, or on a chart of fewer than four bars.
pub fn gap_widens(gaps: &Vec<Num>, offset: usize) -> (r: Option<bool>)
    requires
        offset < gaps@.len(),
    ensures
        r == widened(gaps@, offset as int),
{
    let last: usize = gaps.len() - 1 - offset;
    let from: usize = if last < 6 {
        0
    } else {
        last - 6
    };
    let ghost w = window(gaps@, offset as int);
    let mut found: Vec<Num> = Vec::new();
    let mut i: usize = from;
    while i <= last
        invariant
            from <= i <= last + 1,
            last < gaps.len(),
            w == gaps@.subrange(from as int, last + 1),
            found@ == finites(w.take(i - from)),
        decreases last + 1 - i,
    {
        proof {
            assert(w.take(i - from + 1).drop_last() =~= w.take(i - from));
            assert(w.take(i - from + 1).last() == gaps@[i as int]);
        }
        if gaps[i].is_finite() {
            found.push(gaps[i]);
        }
        i += 1;
    }
    proof {
        assert(w.take(i - from) =~= w);
    }
    let n: usize = found.len();
    if gaps.len() < 4 || n < 4 {
        return None;
    }
    Some(found[n - 1].gt(&found[0]))
}

/// A rising swing follows the highs and a falling one the lows, and it turns on the bar
/// that comes back to its turning price; the next swing starts at the far end of that bar.
/// Until there was a turn, the extremes of all bars stand in.
pub proof fn law_swing_follows_its_side(s: Swing, high: Num, low: Num, turn: Num)
    requires
        numbers(s),
        !high.nan && !low.nan && !turn.nan,
    ensures
        ({
            let r = after(s, high, low, turn);
            let back = if s.rising {
                low.key <= turn.key
            } else {
                high.key >= turn.key
            };
            &&& back <==> r.rising != s.rising
            &&& !back && s.rising ==> r.extreme.key >= s.extreme.key && r.extreme.key >= high.key && (
            r.extreme == s.extreme || r.extreme == high)
            &&& !back && !s.rising ==> r.extreme.key <= s.extreme.key && r.extreme.key <= low.key && (
            r.extreme == s.extreme || r.extreme == low)
            &&& back && s.rising ==> r.extreme == low
            &&& back && !s.rising ==> r.extreme == high
            &&& r.low.key <= s.low.key && r.low.key <= low.key && (r.low == s.low || r.low == low)
            &&& r.high.key >= s.high.key && r.high.key >= high.key && (r.high == s.high || r.high
                == high)
        }),
{
}

/// Support and resistance of a swing: the side it moves to shows its furthest price, the
/// other one where the last swing ended, and before any ended the extreme of the bars.
pub proof fn law_support_and_resistance(s: Swing)
    ensures
        s.rising ==> resistance_of(s) == s.extreme,
        !s.rising ==> support_of(s) == s.extreme,
        s.rising && s.pivot is Some ==> support_of(s) == s.pivot->0,
        !s.rising && s.pivot is Some ==> resistance_of(s) == s.pivot->0,
        s.rising && s.pivot is None ==> support_of(s) == s.low,
        !s.rising && s.pivot is None ==> resistance_of(s) == s.high,
{
}

/// The finite readings keep their order, and every other reading is left out.
pub proof fn law_finites_are_finite(v: Seq<Num>, x: Num)
    ensures
        finites(v.push(x)) == finites(v) + if !x.nan && !x.infinite {
            seq![x]
        } else {
            Seq::empty()
        },
        finites(Seq::empty()).len() == 0,
{
    assert(v.push(x).drop_last() =~= v);
    assert(finites(v) + seq![x] =~= finites(v).push(x));
    assert(finites(v) + Seq::<Num>::empty() =~= finites(v));
}

/// The window of a bar ends at it and reaches back seven readings, or to the first.
pub proof fn law_window_ends_at_the_bar(gaps: Seq<Num>, offset: int, k: int)
    requires
        0 <= offset < gaps.len(),
    ensures
        ({
            let last = gaps.len() - 1 - offset;
            let w = window(gaps, offset);
            &&& w.len() == if last >= 6 {
                7
            } else {
                last + 1
            }
            &&& 0 <= k < w.len() ==> w[w.len() - 1 - k] == gaps[last - k]
        }),
{
}

/// The gap widened where, of at least four finite gaps in the window, the last is above
/// the first; with fewer nothing is said.
pub proof fn law_gap_widens_over_the_window(gaps: Seq<Num>, offset: int)
    requires
        0 <= offset < gaps.len(),
    ensures
        ({
            let f = finites(window(gaps, offset));
            &&& f.len() <= 3 ==> widened(gaps, offset) is None
            &&& gaps.len() <= 3 ==> widened(gaps, offset) is None
            &&& gaps.len() >= 4 && f.len() >= 4 ==> widened(gaps, offset) == Some(
                !f[0].nan && !f[f.len() - 1].nan && f[f.len() - 1].key > f[0].key,
            )
        }),
{
}

} // verus!
