//! Bounded logs, throttles, order budgets and memo caches.

use vstd::prelude::*;
use crate::text;
use crate::textmap::TextMap;

verus! {

/// One line of the condition log.
#[derive(Debug)]
pub struct LogRow {
    pub t: i64,
    pub level: String,
    pub msg: String,
}

/// The last `cap` elements of a list.
pub open spec fn tail<T>(s: Seq<T>, cap: int) -> Seq<T> {
    if s.len() <= cap {
        s
    } else {
        s.subrange(s.len() - cap, s.len() as int)
    }
}

/// Appends a log line and keeps the last six hundred.
pub fn push_log(logs: &mut Vec<LogRow>, row: LogRow)
    ensures
        final(logs)@ == tail(old(logs)@.push(row), 600),
{
    logs.push(row);
    let n: usize = logs.len();
    if n > 600 {
        let keep = logs.split_off(n - 600);
        *logs = keep;
    }
}

/// The time lies at least `ttl` after `last`, or nothing was recorded.
pub open spec fn due(last: Option<int>, ttl: int, now: int) -> bool {
    last is None || now - last->0 >= ttl
}

/// When each repeated log line was last written.
pub struct LogThrottle {
    seen: TextMap<i64>,
}

/// The keys noted less than `window` before `now`.
pub open spec fn recent(m: Map<Seq<char>, i64>, now: int, window: int) -> Map<Seq<char>, i64> {
    Map::new(
        |k: Seq<char>| m.contains_key(k) && now - m[k] < window,
        |k: Seq<char>| m[k],
    )
}

/// The line `key` may be written: it was not written less than `ttl` before.
pub open spec fn may_write(m: Map<Seq<char>, i64>, key: Seq<char>, ttl: int, now: int) -> bool {
    due(
        if m.contains_key(key) {
            Some(m[key] as int)
        } else {
            None
        },
        ttl,
        now,
    )
}

/// What is kept once the line `key` is written: with more than two thousand keys
/// those older than an hour are forgotten.
pub open spec fn written(m: Map<Seq<char>, i64>, key: Seq<char>, now: i64) -> Map<Seq<char>, i64> {
    let noted = m.insert(key, now);
    if noted.dom().len() > 2000 {
        recent(noted, now as int, 3_600_000)
    } else {
        noted
    }
}

/// What is kept once some lines are written, each a key and its time.
pub open spec fn written_all(m: Map<Seq<char>, i64>, lines: Seq<(Seq<char>, i64)>) -> Map<Seq<char>, i64>
    decreases lines.len(),
{
    if lines.len() == 0 {
        m
    } else {
        written(written_all(m, lines.drop_last()), lines.last().0, lines.last().1)
    }
}

proof fn lemma_line_kept(
    m: Map<Seq<char>, i64>,
    key: Seq<char>,
    now: i64,
    lines: Seq<(Seq<char>, i64)>,
)
    requires
        forall|i: int|
            0 <= i < lines.len() ==> (#[trigger] lines[i]).0 != key && lines[i].1 - now < 3_600_000,
    ensures
        written_all(written(m, key, now), lines).contains_key(key),
        written_all(written(m, key, now), lines)[key] == now,
    decreases lines.len(),
{
    if lines.len() > 0 {
        let init = lines.drop_last();
        assert forall|i: int| 0 <= i < init.len() implies (#[trigger] init[i]).0 != key && init[i].1
            - now < 3_600_000 by {
            assert(init[i] == lines[i]);
        }
        lemma_line_kept(m, key, now, init);
        assert(lines.last() == lines[lines.len() - 1]);
    }
}

/// A repeated line is written once in its period, whatever other lines are
/// written in between. The period is at most an hour.
pub proof fn law_log_line_once(
    m: Map<Seq<char>, i64>,
    key: Seq<char>,
    ttl: int,
    now: i64,
    others: Seq<(Seq<char>, i64)>,
    later: i64,
)
    requires
        ttl <= 3_600_000,
        later - now < ttl,
        forall|i: int|
            0 <= i < others.len() ==> (#[trigger] others[i]).0 != key && others[i].1 <= later,
    ensures
        !may_write(written_all(written(m, key, now), others), key, ttl, later as int),
{
    lemma_line_kept(m, key, now, others);
}

impl View for LogThrottle {
    type V = Map<Seq<char>, i64>;

    closed spec fn view(&self) -> Map<Seq<char>, i64> {
        self.seen@
    }
}

impl LogThrottle {
    /// Every recorded time is a time since the epoch.
    pub open spec fn wf(self) -> bool {
        forall|k: Seq<char>| #[trigger] self@.contains_key(k) ==> self@[k] >= 0
    }

    /// A throttle that has seen nothing.
    pub fn new() -> (r: Self)
        ensures
            r.wf(),
            r@ == Map::<Seq<char>, i64>::empty(),
    {
        LogThrottle { seen: TextMap::new() }
    }

    /// Whether the line `key` may be written now: at most once every `ttl_ms`.
    /// A granted line is recorded; with more than two thousand keys those older
    /// than an hour are forgotten.
    pub fn allow(&mut self, key: &str, ttl_ms: i64, now: i64) -> (r: bool)
        requires
            old(self).wf(),
            now >= 0,
        ensures
            final(self).wf(),
            r == may_write(old(self)@, key@, ttl_ms as int, now as int),
            final(self)@ == if r {
                written(old(self)@, key@, now)
            } else {
                old(self)@
            },
    {
        assert(self@ == self.seen@);
        if let Some(last) = self.seen.get(key) {
            assert(self@.contains_key(key@));
            if now - *last < ttl_ms {
                return false;
            }
        }
        self.seen.insert(key.to_owned(), now);
        assert forall|k: Seq<char>| #[trigger] self.seen@.contains_key(k) implies self.seen@[k]
            >= 0 by {
            if k != key@ {
                assert(old(self)@.contains_key(k));
            }
        }
        if self.seen.len() > 2000 {
            self.seen = keep_recent(&self.seen, now, 3_600_000);
        }
        true
    }
}

fn keep_recent(m: &TextMap<i64>, now: i64, window: i64) -> (r: TextMap<i64>)
    requires
        now >= 0,
        forall|k: Seq<char>| #[trigger] m@.contains_key(k) ==> m@[k] >= 0,
    ensures
        r@ == recent(m@, now as int, window as int),
{
    let mut out: TextMap<i64> = TextMap::new();
    let n: usize = m.len();
    let mut i: usize = 0;
    while i < n
        invariant
            n == m.items().len(),
            crate::textmap::sorted(m.items()),
            i <= n,
            now >= 0,
            forall|k: Seq<char>| #[trigger] m@.contains_key(k) ==> m@[k] >= 0,
            forall|k: Seq<char>| #[trigger]
                out@.contains_key(k) == (exists|j: int|
                    j < i && crate::textmap::keyed(m.items(), k, j) && now - m.items()[j].1 < window),
            forall|k: Seq<char>| #[trigger]
                out@.contains_key(k) ==> m@.contains_key(k) && out@[k] == m@[k],
        decreases n - i,
    {
        let t: i64 = *m.value_at(i);
        let key = m.key_at(i);
        proof {
            crate::textmap::lemma_map_of(m.items(), i as int);
            assert(m@.contains_key(key@));
        }
        let ghost before = out@;
        if now - t < window {
            out.insert(key.clone(), t);
        }
        proof {
            assert forall|k: Seq<char>| #[trigger]
                out@.contains_key(k) == (exists|j: int|
                    j < i + 1 && crate::textmap::keyed(m.items(), k, j) && now - m.items()[j].1 < window) by {
                if before.contains_key(k) {
                    let j = choose|j: int|
                        j < i && crate::textmap::keyed(m.items(), k, j) && now - m.items()[j].1
                            < window;
                    assert(j < i + 1 && crate::textmap::keyed(m.items(), k, j));
                }
                if k == key@ {
                    assert(crate::textmap::keyed(m.items(), k, i as int));
                }
            }
        }
        i += 1;
    }
    proof {
        assert forall|k: Seq<char>| #[trigger]
            out@.contains_key(k) == recent(m@, now as int, window as int).contains_key(k) by {
            if m@.contains_key(k) {
                let j = choose|j: int| crate::textmap::keyed(m.items(), k, j);
                crate::textmap::lemma_map_of(m.items(), j);
                assert(j < n && crate::textmap::keyed(m.items(), k, j));
                if out@.contains_key(k) {
                    let q = choose|q: int|
                        q < n && crate::textmap::keyed(m.items(), k, q) && now - m.items()[q].1
                            < window;
                    crate::textmap::lemma_map_of(m.items(), q);
                }
            }
        }
        assert(out@ =~= recent(m@, now as int, window as int));
    }
    out
}

/// Answers kept for a while: when each key was last answered.
pub struct FreshKeys {
    at: TextMap<i64>,
}

impl View for FreshKeys {
    type V = Map<Seq<char>, i64>;

    closed spec fn view(&self) -> Map<Seq<char>, i64> {
        self.at@
    }
}

impl FreshKeys {
    /// Every recorded time is a time since the epoch.
    pub open spec fn wf(self) -> bool {
        forall|k: Seq<char>| #[trigger] self@.contains_key(k) ==> self@[k] >= 0
    }

    /// No answers.
    pub fn new() -> (r: Self)
        ensures
            r.wf(),
            r@ == Map::<Seq<char>, i64>::empty(),
    {
        FreshKeys { at: TextMap::new() }
    }

    /// Whether the answer of `key` is less than `ttl_ms` old.
    pub fn is_fresh(&self, key: &str, ttl_ms: i64, now: i64) -> (r: bool)
        requires
            self.wf(),
            now >= 0,
        ensures
            r == (self@.contains_key(key@) && now - self@[key@] < ttl_ms),
    {
        match self.at.get(key) {
            Some(t) => {
                assert(self@.contains_key(key@));
                now - *t < ttl_ms
            },
            None => false,
        }
    }

    /// Notes an answer. With more than `cap` keys those older than `ttl_ms` are
    /// forgotten first.
    pub fn note(&mut self, key: &str, ttl_ms: i64, cap: usize, now: i64)
        requires
            old(self).wf(),
            now >= 0,
        ensures
            final(self).wf(),
            ({
                let kept = if old(self)@.dom().len() > cap {
                    recent(old(self)@, now as int, ttl_ms as int)
                } else {
                    old(self)@
                };
                final(self)@ == kept.insert(key@, now)
            }),
    {
        assert forall|k: Seq<char>| #[trigger] self.at@.contains_key(k) implies self.at@[k] >= 0 by {
            assert(self@.contains_key(k));
        }
        if self.at.len() > cap {
            self.at = keep_recent(&self.at, now, ttl_ms);
        }
        let ghost kept = self@;
        assert forall|k: Seq<char>| #[trigger] self@.contains_key(k) implies self@[k] >= 0 by {
            assert(self.at@.contains_key(k));
        }
        self.at.insert(key.to_owned(), now);
        assert forall|k: Seq<char>| #[trigger] self@.contains_key(k) implies self@[k] >= 0 by {
            if k != key@ {
                assert(kept.contains_key(k));
            }
        }
    }
}

/// The times of a list less than a second before `now`.
pub open spec fn last_second(times: Seq<i64>, now: int) -> Seq<i64>
    decreases times.len(),
{
    if times.len() == 0 {
        times
    } else if now - times.last() < 1000 {
        last_second(times.drop_last(), now).push(times.last())
    } else {
        last_second(times.drop_last(), now)
    }
}

/// When orders were placed, for the orders-a-second cap.
pub struct OrderTimes {
    pub times: Vec<i64>,
}

impl OrderTimes {
    /// Every order time is a time since the epoch.
    pub open spec fn wf(self) -> bool {
        forall|i: int| 0 <= i < self.times@.len() ==> #[trigger] self.times@[i] >= 0
    }

    /// No orders yet.
    pub fn new() -> (r: Self)
        ensures
            r.wf(),
            r.times@ == Seq::<i64>::empty(),
    {
        OrderTimes { times: Vec::new() }
    }

    /// Whether another order may go out: fewer than `max_per_sec` did in the
    /// last second. Older times are forgotten.
    pub fn hft_allow(&mut self, max_per_sec: i64, now: i64) -> (r: bool)
        requires
            old(self).wf(),
            now >= 0,
        ensures
            final(self).wf(),
            r == (max_per_sec > 0 && last_second(old(self).times@, now as int).len()
                < max_per_sec),
            final(self).times@ == if max_per_sec <= 0 {
                old(self).times@
            } else {
                last_second(old(self).times@, now as int)
            },
    {
        if max_per_sec <= 0 {
            return false;
        }
        let mut keep: Vec<i64> = Vec::new();
        let mut i: usize = 0;
        proof {
            assert(self.times@.take(0) =~= Seq::<i64>::empty());
        }
        while i < self.times.len()
            invariant
                i <= self.times.len(),
                self.wf(),
                now >= 0,
                keep@ == last_second(self.times@.take(i as int), now as int),
                forall|j: int| 0 <= j < keep@.len() ==> #[trigger] keep@[j] >= 0,
                keep@.len() <= i,
            decreases self.times.len() - i,
        {
            proof {
                assert(self.times@.take(i + 1).drop_last() =~= self.times@.take(i as int));
                assert(self.times@.take(i + 1).last() == self.times@[i as int]);
            }
            if now - self.times[i] < 1000 {
                keep.push(self.times[i]);
            }
            i += 1;
        }
        proof {
            assert(self.times@.take(self.times@.len() as int) =~= self.times@);
        }
        let ok = (keep.len() as u64) < max_per_sec as u64;
        self.times = keep;
        ok
    }

    /// Notes an order placed now.
    pub fn hft_record(&mut self, now: i64)
        requires
            old(self).wf(),
            now >= 0,
        ensures
            final(self).wf(),
            final(self).times@ == old(self).times@.push(now),
    {
        self.times.push(now);
    }
}

proof fn lemma_last_second_fixed(times: Seq<i64>, now: int)
    ensures
        last_second(last_second(times, now), now) == last_second(times, now),
    decreases times.len(),
{
    if times.len() > 0 {
        lemma_last_second_fixed(times.drop_last(), now);
        let front = last_second(times.drop_last(), now);
        if now - times.last() < 1000 {
            assert(front.push(times.last()).drop_last() =~= front);
        }
    }
}

/// An order that was allowed and recorded leaves at most the cap of orders in
/// the last second.
pub proof fn law_orders_per_second_capped(times: Seq<i64>, max: int, now: i64)
    requires
        max > 0,
        last_second(times, now as int).len() < max,
    ensures
        last_second(last_second(times, now as int).push(now), now as int).len() <= max,
{
    let kept = last_second(times, now as int);
    lemma_last_second_fixed(times, now as int);
    assert(kept.push(now).drop_last() =~= kept);
}

/// How many of the times fall into the second that ends at `t`.
pub open spec fn in_second(times: Seq<i64>, t: int) -> nat
    decreases times.len(),
{
    if times.len() == 0 {
        0
    } else {
        in_second(times.drop_last(), t) + (if times.last() <= t && t - times.last() < 1000 {
            1nat
        } else {
            0nat
        })
    }
}

proof fn lemma_last_second_shrinks(times: Seq<i64>, a: int, b: int)
    requires
        a <= b,
    ensures
        last_second(times, b).len() <= last_second(times, a).len(),
        last_second(last_second(times, a), b) == last_second(times, b),
    decreases times.len(),
{
    if times.len() > 0 {
        lemma_last_second_shrinks(times.drop_last(), a, b);
        let front = last_second(times.drop_last(), a);
        if a - times.last() < 1000 {
            assert(front.push(times.last()).drop_last() =~= front);
        }
    }
}

/// The orders sent so far keep to `max` a second, and the times on record account
/// for those that still count at `now`.
pub open spec fn capped(times: Seq<i64>, sent: Seq<i64>, now: int, max: int) -> bool {
    &&& forall|t: int| #[trigger] in_second(sent, t) <= max
    &&& forall|t: int| now <= t ==> #[trigger] in_second(sent, t) <= last_second(times, t).len()
}

/// At `now` and later there is room for another order.
pub open spec fn has_room(sent: Seq<i64>, now: int, max: int) -> bool {
    forall|t: int| now <= t ==> #[trigger] in_second(sent, t) < max
}

/// An order that is asked for keeps the cap: the times that no longer count are
/// forgotten, and where it is allowed there is room for it from then on.
pub proof fn law_asking_keeps_the_cap(
    times: Seq<i64>,
    sent: Seq<i64>,
    now: int,
    asked: int,
    max: int,
)
    requires
        capped(times, sent, now, max),
        now <= asked,
    ensures
        capped(last_second(times, asked), sent, asked, max),
        last_second(times, asked).len() < max ==> has_room(sent, asked, max),
{
    assert forall|t: int| asked <= t implies #[trigger] in_second(sent, t) <= last_second(
        last_second(times, asked),
        t,
    ).len() by {
        lemma_last_second_shrinks(times, asked, t);
    }
    if last_second(times, asked).len() < max {
        assert forall|t: int| asked <= t implies #[trigger] in_second(sent, t) < max by {
            lemma_last_second_shrinks(times, asked, t);
        }
    }
}

/// An order that goes out where there is room for it keeps the cap: no second,
/// wherever it ends, holds more than `max` orders.
pub proof fn law_sending_keeps_the_cap(
    times: Seq<i64>,
    sent: Seq<i64>,
    now: int,
    at: i64,
    max: int,
)
    requires
        capped(times, sent, now, max),
        has_room(sent, now, max),
        now <= at,
    ensures
        capped(times.push(at), sent.push(at), at as int, max),
{
    assert(sent.push(at).drop_last() =~= sent);
    assert(times.push(at).drop_last() =~= times);
    assert forall|t: int| #[trigger] in_second(sent.push(at), t) <= max by {
        assert(in_second(sent, t) <= max);
        if at <= t {
            assert(in_second(sent, t) < max);
        }
    }
    assert forall|t: int| at <= t implies #[trigger] in_second(sent.push(at), t) <= last_second(
        times.push(at),
        t,
    ).len() by {
        assert(in_second(sent, t) <= last_second(times, t).len());
    }
}

/// A computed series: which candles, which study, which settings, and where the
/// result is kept.
#[derive(Clone, Copy, Debug, PartialEq, Eq, Structural)]
pub struct MemoRow {
    pub candles: u64,
    pub study: u64,
    pub settings: u64,
    pub handle: u64,
}

/// The handle of a key: that of the last row with it.
pub open spec fn memo_of(rows: Seq<MemoRow>, candles: u64, study: u64, settings: u64) -> Option<u64>
    decreases rows.len(),
{
    if rows.len() == 0 {
        None
    } else if rows.last().candles == candles && rows.last().study == study
        && rows.last().settings == settings {
        Some(rows.last().handle)
    } else {
        memo_of(rows.drop_last(), candles, study, settings)
    }
}

/// The handle of a key.
pub fn memo_get(rows: &Vec<MemoRow>, candles: u64, study: u64, settings: u64) -> (r: Option<u64>)
    ensures
        r == memo_of(rows@, candles, study, settings),
{
    let mut n: usize = rows.len();
    proof {
        assert(rows@.take(n as int) =~= rows@);
    }
    while n > 0
        invariant
            n <= rows.len(),
            memo_of(rows@, candles, study, settings) == memo_of(
                rows@.take(n as int),
                candles,
                study,
                settings,
            ),
        decreases n,
    {
        let row = rows[n - 1];
        proof {
            assert(rows@.take(n as int).last() == row);
            assert(rows@.take(n as int).drop_last() =~= rows@.take(n - 1));
        }
        if row.candles == candles && row.study == study && row.settings == settings {
            return Some(row.handle);
        }
        n -= 1;
    }
    None
}

/// The shared memo of computed series, keyed by the content of the candles.
pub struct SeriesMemo {
    pub shared: Vec<MemoRow>,
    /// The memo of the pass in progress, keyed by the place of the candles.
    pub pass: Option<Vec<MemoRow>>,
}

/// What the shared memo holds after a new result: a full memo starts over.
pub open spec fn remembered(rows: Seq<MemoRow>, row: MemoRow) -> Seq<MemoRow> {
    if rows.len() >= 8192 {
        seq![row]
    } else {
        rows.push(row)
    }
}

/// A memo as plain values.
pub struct MemoV {
    pub shared: Seq<MemoRow>,
    pub pass: Option<Seq<MemoRow>>,
}

impl View for SeriesMemo {
    type V = MemoV;

    open spec fn view(&self) -> MemoV {
        MemoV {
            shared: self.shared@,
            pass: match self.pass {
                Some(rows) => Some(rows@),
                None => None,
            },
        }
    }
}

/// Something done with a memo.
pub enum MemoOp {
    /// A pass is entered.
    Enter,
    /// A pass is left; `outer` is what entering it answered.
    Leave { outer: bool },
    /// The result of a study is looked for.
    Find { place: u64, content: u64, study: u64, settings: u64 },
    /// The result of a study is kept.
    Keep { place: u64, content: u64, study: u64, settings: u64, handle: u64 },
}

/// A memo nothing was done with yet.
pub open spec fn fresh_memo() -> MemoV {
    MemoV { shared: Seq::empty(), pass: None }
}

/// The kept result of a study over candles at `place` whose content reads as
/// `content`: first of the pass in progress, then of the shared memo.
pub open spec fn memo_hit(m: MemoV, place: u64, content: u64, study: u64, settings: u64) -> Option<
    u64,
> {
    let here = if m.pass is Some {
        memo_of(m.pass->0, place, study, settings)
    } else {
        None
    };
    if here is Some {
        here
    } else {
        memo_of(m.shared, content, study, settings)
    }
}

/// The memo after something was done with it.
pub open spec fn memo_after(m: MemoV, op: MemoOp) -> MemoV {
    match op {
        MemoOp::Enter => MemoV {
            pass: if m.pass is Some {
                m.pass
            } else {
                Some(Seq::empty())
            },
            ..m
        },
        MemoOp::Leave { outer } => MemoV {
            pass: if outer {
                None
            } else {
                m.pass
            },
            ..m
        },
        MemoOp::Find { place, content, study, settings } => {
            let there = memo_of(m.shared, content, study, settings);
            if m.pass is Some && memo_of(m.pass->0, place, study, settings) is None
                && there is Some {
                MemoV {
                    pass: Some(
                        (m.pass->0).push(
                            MemoRow { candles: place, study, settings, handle: there->0 },
                        ),
                    ),
                    ..m
                }
            } else {
                m
            }
        },
        MemoOp::Keep { place, content, study, settings, handle } => MemoV {
            shared: remembered(
                m.shared,
                MemoRow { candles: content, study, settings, handle },
            ),
            pass: if m.pass is Some {
                Some((m.pass->0).push(MemoRow { candles: place, study, settings, handle }))
            } else {
                None
            },
        },
    }
}

impl SeriesMemo {
    /// An empty memo outside any pass.
    pub fn new() -> (r: Self)
        ensures
            r@ == fresh_memo(),
    {
        SeriesMemo { shared: Vec::new(), pass: None }
    }

    /// Enters a pass. Only the outermost entry opens a memo for it; the answer
    /// says whether this one did.
    pub fn enter(&mut self) -> (r: bool)
        ensures
            r == old(self)@.pass is None,
            final(self)@ == memo_after(old(self)@, MemoOp::Enter),
    {
        if self.pass.is_some() {
            return false;
        }
        self.pass = Some(Vec::new());
        true
    }

    /// Leaves a pass; `outer` is what entering it answered.
    pub fn leave(&mut self, outer: bool)
        ensures
            final(self)@ == memo_after(old(self)@, MemoOp::Leave { outer }),
    {
        if outer {
            self.pass = None;
        }
    }

    /// The kept result of a study over candles at `place` whose content reads as
    /// `content`: first of this pass, then of the shared memo, which the pass
    /// then remembers too.
    pub fn find(&mut self, place: u64, content: u64, study: u64, settings: u64) -> (r: Option<u64>)
        ensures
            r == memo_hit(old(self)@, place, content, study, settings),
            final(self)@ == memo_after(
                old(self)@,
                MemoOp::Find { place, content, study, settings },
            ),
    {
        if let Some(rows) = &self.pass {
            if let Some(h) = memo_get(rows, place, study, settings) {
                return Some(h);
            }
        }
        let hit = memo_get(&self.shared, content, study, settings);
        if let Some(handle) = hit {
            let mut pass: Option<Vec<MemoRow>> = None;
            core::mem::swap(&mut pass, &mut self.pass);
            match pass {
                Some(mut rows) => {
                    rows.push(MemoRow { candles: place, study, settings, handle });
                    self.pass = Some(rows);
                },
                None => {},
            }
        }
        hit
    }

    /// Keeps a new result, for the pass in progress and for later ones.
    pub fn keep(&mut self, place: u64, content: u64, study: u64, settings: u64, handle: u64)
        ensures
            final(self)@ == memo_after(
                old(self)@,
                MemoOp::Keep { place, content, study, settings, handle },
            ),
    {
        if self.shared.len() >= 8192 {
            self.shared.clear();
        }
        self.shared.push(MemoRow { candles: content, study, settings, handle });
        let mut pass: Option<Vec<MemoRow>> = None;
        core::mem::swap(&mut pass, &mut self.pass);
        match pass {
            Some(mut rows) => {
                rows.push(MemoRow { candles: place, study, settings, handle });
                self.pass = Some(rows);
            },
            None => {},
        }
    }
}

/// A result just kept is found again by its content; a different content, study
/// or settings never reads it, so a changed bar cannot see a stale series.
pub proof fn law_memo_reads_what_was_kept(
    rows: Seq<MemoRow>,
    row: MemoRow,
    candles: u64,
    study: u64,
    settings: u64,
)
    ensures
        memo_of(remembered(rows, row), row.candles, row.study, row.settings) == Some(row.handle),
        rows.len() < 8192 && !(candles == row.candles && study == row.study && settings
            == row.settings) ==> memo_of(remembered(rows, row), candles, study, settings)
            == memo_of(rows, candles, study, settings),
{
    assert(rows.push(row).drop_last() =~= rows);
    assert(seq![row].last() == row);
}

/// The memo after the first `n` of some operations.
pub open spec fn memo_run(ops: Seq<MemoOp>, n: int) -> MemoV
    decreases n,
{
    if n <= 0 {
        fresh_memo()
    } else {
        memo_after(memo_run(ops, n - 1), ops[n - 1])
    }
}

/// The operation reads candles at `place` whose content reads as `content`.
pub open spec fn reads(op: MemoOp, place: u64, content: u64) -> bool {
    match op {
        MemoOp::Find { place: p, content: c, .. } => p == place && c == content,
        MemoOp::Keep { place: p, content: c, .. } => p == place && c == content,
        _ => false,
    }
}

/// One pass is in progress at every operation from `i` to `j`.
pub open spec fn one_pass(ops: Seq<MemoOp>, i: int, j: int) -> bool {
    forall|k: int| i <= k <= j ==> (#[trigger] memo_run(ops, k)).pass is Some
}

/// No candles change while a pass that reads them is in progress.
pub open spec fn candles_hold(ops: Seq<MemoOp>) -> bool {
    forall|i: int, j: int, place: u64, a: u64, b: u64|
        0 <= i < j < ops.len() && one_pass(ops, i, j) && #[trigger] reads(ops[i], place, a)
            && #[trigger] reads(ops[j], place, b) ==> a == b
}

/// Operation `k` keeps a result.
pub open spec fn keeps_at(
    ops: Seq<MemoOp>,
    k: int,
    content: u64,
    study: u64,
    settings: u64,
    handle: u64,
) -> bool {
    ops[k] matches MemoOp::Keep { content: c, study: t, settings: s, handle: h, .. } && c == content
        && t == study && s == settings && h == handle
}

/// One of the first `n` operations kept a result.
pub open spec fn was_kept(
    ops: Seq<MemoOp>,
    n: int,
    content: u64,
    study: u64,
    settings: u64,
    handle: u64,
) -> bool {
    exists|k: int| 0 <= k < n && #[trigger] keeps_at(ops, k, content, study, settings, handle)
}

/// Operation `k` read the candles of a row of the pass, and what the row holds was
/// kept for their content.
pub open spec fn read_at(ops: Seq<MemoOp>, n: int, k: int, row: MemoRow) -> bool {
    exists|c: u64| #[trigger]
        reads(ops[k], row.candles, c) && was_kept(
            ops,
            n,
            c,
            row.study,
            row.settings,
            row.handle,
        )
}

/// A row of the pass is accounted for: the pass read its candles.
pub open spec fn read_in_pass(ops: Seq<MemoOp>, n: int, row: MemoRow) -> bool {
    exists|k: int| 0 <= k < n && one_pass(ops, k, n) && #[trigger] read_at(ops, n, k, row)
}

/// Every row is accounted for by what was done so far.
pub open spec fn accounted(ops: Seq<MemoOp>, n: int) -> bool {
    let m = memo_run(ops, n);
    &&& forall|i: int|
        0 <= i < m.shared.len() ==> was_kept(
            ops,
            n,
            (#[trigger] m.shared[i]).candles,
            m.shared[i].study,
            m.shared[i].settings,
            m.shared[i].handle,
        )
    &&& m.pass is Some ==> forall|i: int|
        0 <= i < (m.pass->0).len() ==> read_in_pass(ops, n, #[trigger] m.pass->0[i])
}

proof fn lemma_kept_stays(
    ops: Seq<MemoOp>,
    n: int,
    content: u64,
    study: u64,
    settings: u64,
    handle: u64,
)
    requires
        was_kept(ops, n, content, study, settings, handle),
    ensures
        was_kept(ops, n + 1, content, study, settings, handle),
{
    let k = choose|k: int|
        0 <= k < n && #[trigger] keeps_at(ops, k, content, study, settings, handle);
    assert(keeps_at(ops, k, content, study, settings, handle));
}

proof fn lemma_memo_row(rows: Seq<MemoRow>, candles: u64, study: u64, settings: u64) -> (i: int)
    requires
        memo_of(rows, candles, study, settings) is Some,
    ensures
        0 <= i < rows.len(),
        rows[i] == (MemoRow {
            candles,
            study,
            settings,
            handle: memo_of(rows, candles, study, settings)->0,
        }),
    decreases rows.len(),
{
    if rows.last().candles == candles && rows.last().study == study && rows.last().settings
        == settings {
        rows.len() - 1
    } else {
        lemma_memo_row(rows.drop_last(), candles, study, settings)
    }
}

proof fn lemma_accounted(ops: Seq<MemoOp>, n: int)
    requires
        0 <= n <= ops.len(),
    ensures
        accounted(ops, n),
    decreases n,
{
    if n > 0 {
        let p = n - 1;
        lemma_accounted(ops, p);
        let m = memo_run(ops, p);
        let a = memo_run(ops, n);
        let op = ops[p];
        assert(a == memo_after(m, op));
        assert forall|i: int| 0 <= i < a.shared.len() implies was_kept(
            ops,
            n,
            (#[trigger] a.shared[i]).candles,
            a.shared[i].study,
            a.shared[i].settings,
            a.shared[i].handle,
        ) by {
            let row = a.shared[i];
            if op is Keep && i == a.shared.len() - 1 {
                assert(keeps_at(ops, p, row.candles, row.study, row.settings, row.handle));
            } else {
                assert(m.shared[i] == row);
                lemma_kept_stays(ops, p, row.candles, row.study, row.settings, row.handle);
            }
        }
        if a.pass is Some {
            assert forall|i: int| 0 <= i < (a.pass->0).len() implies read_in_pass(
                ops,
                n,
                #[trigger] a.pass->0[i],
            ) by {
                let row = a.pass->0[i];
                assert(m.pass is Some);
                if i < (m.pass->0).len() {
                    assert(m.pass->0[i] == row);
                    assert(read_in_pass(ops, p, m.pass->0[i]));
                    let k = choose|k: int|
                        0 <= k < p && one_pass(ops, k, p) && #[trigger] read_at(ops, p, k, row);
                    assert forall|x: int| k <= x <= n implies (#[trigger] memo_run(
                        ops,
                        x,
                    )).pass is Some by {}
                    let c = choose|c: u64| #[trigger]
                        reads(ops[k], row.candles, c) && was_kept(
                            ops,
                            p,
                            c,
                            row.study,
                            row.settings,
                            row.handle,
                        );
                    lemma_kept_stays(ops, p, c, row.study, row.settings, row.handle);
                    assert(reads(ops[k], row.candles, c));
                    assert(read_at(ops, n, k, row));
                } else {
                    assert forall|x: int| p <= x <= n implies (#[trigger] memo_run(
                        ops,
                        x,
                    )).pass is Some by {}
                    match op {
                        MemoOp::Keep { content, .. } => {
                            assert(keeps_at(
                                ops,
                                p,
                                content,
                                row.study,
                                row.settings,
                                row.handle,
                            ));
                            assert(reads(ops[p], row.candles, content));
                        },
                        MemoOp::Find { content, study, settings, .. } => {
                            let j = lemma_memo_row(m.shared, content, study, settings);
                            assert(was_kept(
                                ops,
                                p,
                                m.shared[j].candles,
                                m.shared[j].study,
                                m.shared[j].settings,
                                m.shared[j].handle,
                            ));
                            lemma_kept_stays(
                                ops,
                                p,
                                content,
                                row.study,
                                row.settings,
                                row.handle,
                            );
                            assert(reads(ops[p], row.candles, content));
                        },
                        _ => {},
                    }
                    assert(read_at(ops, n, p, row));
                }
            }
        }
    }
}

/// Whatever was done with a memo before, in one pass, in many or outside any, a
/// result it hands out was kept for the content, the study and the settings that
/// were asked for: a changed bar never reads a stale series.
pub proof fn law_memo_hits_were_kept(
    ops: Seq<MemoOp>,
    n: int,
    place: u64,
    content: u64,
    study: u64,
    settings: u64,
)
    requires
        candles_hold(ops),
        0 <= n < ops.len(),
        ops[n] == (MemoOp::Find { place, content, study, settings }),
        memo_hit(memo_run(ops, n), place, content, study, settings) is Some,
    ensures
        was_kept(
            ops,
            n,
            content,
            study,
            settings,
            memo_hit(memo_run(ops, n), place, content, study, settings)->0,
        ),
{
    lemma_accounted(ops, n);
    let m = memo_run(ops, n);
    if m.pass is Some && memo_of(m.pass->0, place, study, settings) is Some {
        let i = lemma_memo_row(m.pass->0, place, study, settings);
        let row = m.pass->0[i];
        assert(read_in_pass(ops, n, m.pass->0[i]));
        let k = choose|k: int|
            0 <= k < n && one_pass(ops, k, n) && #[trigger] read_at(ops, n, k, row);
        let c = choose|c: u64| #[trigger]
            reads(ops[k], row.candles, c) && was_kept(
                ops,
                n,
                c,
                row.study,
                row.settings,
                row.handle,
            );
        assert(reads(ops[k], place, c));
        assert(reads(ops[n], place, content));
    } else {
        let i = lemma_memo_row(m.shared, content, study, settings);
        let row = m.shared[i];
        assert(was_kept(ops, n, row.candles, row.study, row.settings, row.handle));
    }
}

/// The result a study is served with: the kept one, else the one worked out now.
pub open spec fn served(
    m: MemoV,
    place: u64,
    content: u64,
    study: u64,
    settings: u64,
    computed: spec_fn(u64, u64, u64) -> u64,
) -> u64 {
    match memo_hit(m, place, content, study, settings) {
        Some(h) => h,
        None => computed(content, study, settings),
    }
}

/// The memo never changes a result. Where what is kept is what was worked out, a
/// study is served with what would be worked out now, whatever was done before:
/// a filter reads the same in a pass of its own, in a shared one and in none.
pub proof fn law_memo_never_changes_a_result(
    ops: Seq<MemoOp>,
    n: int,
    place: u64,
    content: u64,
    study: u64,
    settings: u64,
    computed: spec_fn(u64, u64, u64) -> u64,
)
    requires
        candles_hold(ops),
        0 <= n < ops.len(),
        ops[n] == (MemoOp::Find { place, content, study, settings }),
        forall|k: int, c: u64, t: u64, s: u64, h: u64|
            0 <= k < n && #[trigger] keeps_at(ops, k, c, t, s, h) ==> h == computed(c, t, s),
    ensures
        served(memo_run(ops, n), place, content, study, settings, computed) == computed(
            content,
            study,
            settings,
        ),
{
    let hit = memo_hit(memo_run(ops, n), place, content, study, settings);
    if hit is Some {
        law_memo_hits_were_kept(ops, n, place, content, study, settings);
        let k = choose|k: int|
            0 <= k < n && #[trigger] keeps_at(ops, k, content, study, settings, hit->0);
        assert(keeps_at(ops, k, content, study, settings, hit->0));
    }
}

/// The answer a margin request may be skipped for: nothing to price, a
/// simulated book, or an index, which cannot be traded.
pub open spec fn margin_skipped(qty: int, price_positive: bool, paper: bool, exch_upper: Seq<char>) -> bool {
    qty <= 0 || !price_positive || paper || text::begins(exch_upper, "IDX"@) || exch_upper
        == "INDEX"@
}

/// The key a margin answer is kept under.
pub open spec fn margin_key_text(
    id: int,
    exch: Seq<char>,
    side: Seq<char>,
    qty: int,
    product: Seq<char>,
) -> Seq<char> {
    text::int_dec(id) + ":"@ + exch + ":"@ + side + ":"@ + text::int_dec(qty) + ":"@ + product
}

/// The key a margin answer is kept under; `None` where no request is made.
pub fn margin_key(
    sec_id: i64,
    exch: &str,
    side: &str,
    qty: i64,
    price_positive: bool,
    paper: bool,
    product: &str,
) -> (r: Option<String>)
    ensures
        r is None == margin_skipped(
            qty as int,
            price_positive,
            paper,
            text::upper_text(exch@),
        ),
        r is Some ==> r->0@ == margin_key_text(
            sec_id as int,
            text::upper_text(exch@),
            text::upper_text(side@),
            qty as int,
            text::upper_text(product@),
        ),
{
    if qty <= 0 || !price_positive || paper {
        return None;
    }
    let x = text::uppercase(exch);
    if text::starts_with(x.as_str(), "IDX") || text::same(x.as_str(), "INDEX") {
        return None;
    }
    let s = text::uppercase(side);
    let p = text::uppercase(product);
    let mut out = text::int_text(sec_id);
    text::push_text(&mut out, ":");
    text::push_text(&mut out, x.as_str());
    text::push_text(&mut out, ":");
    text::push_text(&mut out, s.as_str());
    text::push_text(&mut out, ":");
    text::push_int(&mut out, qty);
    text::push_text(&mut out, ":");
    text::push_text(&mut out, p.as_str());
    Some(out)
}

/// Whether a task last done at `last` is due again after `period`.
pub fn is_due(last: i64, now: i64, period: i64) -> (r: bool)
    requires
        last >= 0,
        now >= 0,
    ensures
        r == (now - last >= period),
{
    now - last >= period
}

/// The tail of a list is its end: as many elements as are kept, the last ones, in order.
pub proof fn law_tail_is_the_end<T>(s: Seq<T>, cap: int)
    requires
        cap >= 0,
    ensures
        s.len() <= cap ==> tail(s, cap) == s,
        s.len() > cap ==> tail(s, cap).len() == cap && s.take(s.len() - cap) + tail(s, cap) == s,
{
    if s.len() > cap {
        assert(s.take(s.len() - cap) + tail(s, cap) =~= s);
    }
}

/// A line may be written where it never was, and again from its period after the last
/// time on.
pub proof fn law_line_is_due_again(m: Map<Seq<char>, i64>, key: Seq<char>, ttl: int, now: int)
    ensures
        !m.dom().contains(key) ==> may_write(m, key, ttl, now),
        m.dom().contains(key) ==> (may_write(m, key, ttl, now) <==> now >= m[key] + ttl),
{
}

/// What a written line leaves behind: its own time, and of a full record only the last
/// hour.
pub proof fn law_written_lines_are_noted(m: Map<Seq<char>, i64>, key: Seq<char>, now: i64, k: Seq<char>)
    ensures
        written(m, key, now).dom().contains(key),
        written(m, key, now)[key] == now,
        m.insert(key, now).dom().len() <= 2000 ==> written(m, key, now) == m.insert(key, now),
        m.insert(key, now).dom().len() > 2000 && k != key ==> (written(m, key, now).dom().contains(k)
            <==> m.dom().contains(k) && now - m[k] < 60 * 60 * 1000),
        written(m, key, now).dom().contains(k) && k != key ==> written(m, key, now)[k] == m[k],
{
}

/// The last second holds the times less than a thousand milliseconds old, in order, and
/// no others.
pub proof fn law_last_second_keeps_the_young(times: Seq<i64>, t: i64, now: int)
    ensures
        last_second(times.push(t), now) == last_second(times, now) + if now < t + 1000 {
            seq![t]
        } else {
            Seq::empty()
        },
        last_second(Seq::empty(), now).len() == 0,
{
    assert(times.push(t).drop_last() =~= times);
    assert(last_second(times, now) + seq![t] =~= last_second(times, now).push(t));
    assert(last_second(times, now) + Seq::<i64>::empty() =~= last_second(times, now));
}

/// A margin request is made for a real order alone: a positive quantity at a known price
/// of something that trades, in the live book.
pub proof fn law_margin_is_asked_for_real_orders(qty: int, priced: bool, paper: bool, exch: Seq<char>)
    ensures
        !margin_skipped(qty, priced, paper, exch) <==> qty >= 1 && priced && !paper && !text::begins(
            exch,
            "IDX"@,
        ) && exch != "INDEX"@,
{
}

} // verus!
