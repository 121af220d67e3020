//! The engine's own rhythm: what a tick runs, what is refreshed, when the day is
//! squared off.

use vstd::prelude::*;
use crate::clock;
use crate::clock::hhmm_to_minutes;
use crate::text;

verus! {

/// The key of an instrument's quote: indices carry their segment.
pub fn quote_key(security_id: i64, segment: &str) -> (r: String)
    ensures
        r@ == if segment@ == "IDX_I"@ {
            "IDX_I:"@ + text::int_dec(security_id as int)
        } else {
            text::int_dec(security_id as int)
        },
{
    if text::same(segment, "IDX_I") {
        let mut k = "IDX_I:".to_owned();
        text::push_int(&mut k, security_id);
        k
    } else {
        text::int_text(security_id)
    }
}

/// Where the engine's state is kept.
#[derive(Debug)]
pub struct StatePlace {
    /// A file of the operator's own.
    pub file: Option<String>,
    /// The directory, where there is no such file.
    pub dir: String,
    /// The name in that directory.
    pub name: &'static str,
}

/// Where the engine keeps its state: in the operator's file, unless paper trades,
/// else under a name of its own in the data directory. Blank texts count as
/// unset.
pub fn state_place(paper: bool, file: &str, dir: &str) -> (r: StatePlace)
    ensures
        r.file is Some == (!paper && text::trimmed(file@).len() > 0),
        r.file is Some ==> r.file->0@ == file@,
        r.dir@ == if text::trimmed(dir@).len() > 0 {
            dir@
        } else {
            "data"@
        },
        r.name@ == if paper {
            "algodhan_paper_state.json"@
        } else {
            "algodhan_realtime_state.json"@
        },
{
    let f = text::trim(file);
    let d = text::trim(dir);
    StatePlace {
        file: if !paper && text::chars_of(f.as_str()).len() > 0 {
            Some(file.to_owned())
        } else {
            None
        },
        dir: if text::chars_of(d.as_str()).len() > 0 {
            dir.to_owned()
        } else {
            "data".to_owned()
        },
        name: if paper {
            "algodhan_paper_state.json"
        } else {
            "algodhan_realtime_state.json"
        },
    }
}

/// What one pass of the engine loop does after its scanners ran.
#[derive(Clone, Copy, Debug, PartialEq, Eq, Structural)]
pub struct Pass {
    /// The engine is turned on: an immediate pass was asked for.
    pub turn_on: bool,
    /// The square-off check and the reconciliation of broker-held orders run.
    pub run: bool,
    /// Signals are scanned.
    pub scan: bool,
    /// The operator is told to arm the engine.
    pub warn_disarmed: bool,
}

/// What a pass does.
pub open spec fn pass_plan(force: bool, engine_on: bool, armed: bool) -> Pass {
    Pass {
        turn_on: force,
        run: force || engine_on,
        scan: (force || engine_on) && armed,
        warn_disarmed: force && !armed,
    }
}

/// Plans a pass. An immediate pass turns the engine on but never arms it.
pub fn plan_pass(force: bool, engine_on: bool, armed: bool) -> (r: Pass)
    ensures
        r == pass_plan(force, engine_on, armed),
{
    let run = force || engine_on;
    Pass { turn_on: force, run, scan: run && armed, warn_disarmed: force && !armed }
}

/// The open positions are watched: whenever the engine is on, armed or not.
pub open spec fn watched(engine_on: bool, armed: bool) -> bool {
    engine_on
}

/// Whether the open positions are watched.
pub fn guard_runs(engine_on: bool, armed: bool) -> (r: bool)
    ensures
        r == watched(engine_on, armed),
{
    match (engine_on, armed) {
        (true, true) => true,
        (true, false) => true,
        (false, _) => false,
    }
}

/// A disarmed engine opens nothing but still closes: no pass scans for entries,
/// while the open positions are watched as under an armed one. An engine that is
/// off does neither.
pub proof fn law_disarmed_engine_only_exits(force: bool, engine_on: bool, armed: bool)
    ensures
        !armed ==> !pass_plan(force, engine_on, armed).scan,
        watched(engine_on, false) == watched(engine_on, true),
        watched(true, armed),
        !watched(false, armed),
        !pass_plan(false, false, armed).run,
{
}

/// When each part of the account was last refreshed.
#[derive(Clone, Copy, Debug, PartialEq, Eq, Structural)]
pub struct Refreshed {
    pub ltp: i64,
    pub account: i64,
    pub funds: i64,
}

/// What a refresh fetches.
#[derive(Clone, Copy, Debug, PartialEq, Eq, Structural)]
pub struct RefreshPlan {
    /// Last prices of the open positions.
    pub ltp: bool,
    /// The broker's positions.
    pub account: bool,
    /// Funds and holdings, or the simulated wallet.
    pub funds: bool,
    /// Open positions are marked from the feed.
    pub mark: bool,
}

/// The times are times since the epoch.
pub open spec fn refresh_times(t: Refreshed) -> bool {
    t.ltp >= 0 && t.account >= 0 && t.funds >= 0
}

/// What a refresh fetches.
pub open spec fn refresh_plan(t: Refreshed, now: int, paper: bool, connected: bool) -> RefreshPlan {
    let live = !paper && connected;
    RefreshPlan {
        ltp: live && now - t.ltp >= 1500,
        account: live && now - t.account >= 4000,
        funds: if paper {
            now - t.funds >= 1500
        } else {
            live && now - t.funds >= 15000
        },
        mark: paper,
    }
}

/// Plans a refresh and notes what it fetches. The simulated book never calls the
/// broker: its wallet is published every second and a half and its positions
/// are marked from the feed. A live book fetches prices every second and a half,
/// positions every four seconds, funds every fifteen, and nothing without a
/// connection.
pub fn plan_refresh(t: Refreshed, now: i64, paper: bool, connected: bool) -> (r: (RefreshPlan, Refreshed))
    requires
        refresh_times(t),
        now >= 0,
    ensures
        ({
            let live = !paper && connected;
            &&& r.0 == refresh_plan(t, now as int, paper, connected)
            &&& (r.1).ltp == (if (r.0).ltp {
                now
            } else {
                t.ltp
            })
            &&& (r.1).account == (if (r.0).account {
                now
            } else {
                t.account
            })
            &&& (r.1).funds == (if (r.0).funds {
                now
            } else {
                t.funds
            })
            &&& refresh_times(r.1)
        }),
{
    let live = !paper && connected;
    let ltp = live && now - t.ltp >= 1500;
    let account = live && now - t.account >= 4000;
    let funds = if paper {
        now - t.funds >= 1500
    } else {
        live && now - t.funds >= 15000
    };
    (
        RefreshPlan { ltp, account, funds, mark: paper },
        Refreshed {
            ltp: if ltp {
                now
            } else {
                t.ltp
            },
            account: if account {
                now
            } else {
                t.account
            },
            funds: if funds {
                now
            } else {
                t.funds
            },
        },
    )
}

/// The day is squared off: the rule is on, its time has come, it did not run
/// today, and something is open.
pub open spec fn squares_off(
    enabled: bool,
    at: Seq<char>,
    last_day: Seq<char>,
    today: Seq<char>,
    minutes: int,
    open: nat,
) -> bool {
    enabled && clock::hhmm(at) is Some && last_day != today && minutes >= clock::hhmm(at)->0
        && open > 0
}

/// Whether the day is squared off now.
pub fn check_square_off(
    enabled: bool,
    at: &str,
    last_day: &str,
    today: &str,
    minutes: i64,
    open: usize,
) -> (r: bool)
    requires
        clock::hhmm_fits(at@),
    ensures
        r == squares_off(enabled, at@, last_day@, today@, minutes as int, open as nat),
{
    if !enabled {
        return false;
    }
    match hhmm_to_minutes(at) {
        Some(m) => !text::same(last_day, today) && minutes >= m && open > 0,
        None => false,
    }
}

/// Whether the day is squared off now, as `check_square_off` says; `None` where
/// the configured time is too large for a machine number.
pub fn square_off_due(
    enabled: bool,
    at: &str,
    last_day: &str,
    today: &str,
    minutes: i64,
    open: usize,
) -> (r: Option<bool>)
    ensures
        r is Some == clock::hhmm_fits(at@),
        r is Some ==> r->0 == squares_off(
            enabled,
            at@,
            last_day@,
            today@,
            minutes as int,
            open as nat,
        ),
{
    if !clock::time_fits(at) {
        return None;
    }
    Some(check_square_off(enabled, at, last_day, today, minutes, open))
}

/// The day is squared off at most once: after it ran today it does not run
/// again today.
pub proof fn law_square_off_once_a_day(
    enabled: bool,
    at: Seq<char>,
    today: Seq<char>,
    minutes: int,
    open: nat,
)
    ensures
        !squares_off(enabled, at, today, today, minutes, open),
{
}

/// What a request for the live data pool does.
#[derive(Clone, Copy, Debug, PartialEq, Eq, Structural)]
pub struct PoolStep {
    /// A refresh is started in the background.
    pub refresh: bool,
    /// The cached readout is answered; else that it is loading.
    pub cached: bool,
}

/// The pool is refreshed: one that is three seconds old, or on demand, never twice at once.
pub open spec fn pool_refreshes(has_cache: bool, at: int, now: int, force: bool, busy: bool) -> bool {
    ((has_cache && now - at >= 3000) || force) && !busy
}

/// Answers a request for the live data pool: always from the cache, refreshing
/// one that is three seconds old, or on demand, and never twice at once.
pub fn pool_step(has_cache: bool, at: i64, now: i64, force: bool, busy: bool) -> (r: PoolStep)
    requires
        at >= 0,
        now >= 0,
    ensures
        r.refresh == pool_refreshes(has_cache, at as int, now as int, force, busy),
        r.cached == has_cache,
{
    PoolStep { refresh: ((has_cache && now - at >= 3000) || force) && !busy, cached: has_cache }
}

/// What the pool shows of a strategy.
#[derive(Clone, Copy, Debug, PartialEq, Eq, Structural)]
pub enum PoolRow {
    /// Nothing: it names no instrument or has no conditions.
    Blank,
    NotConnected,
    NotEnoughBars,
    /// Its conditions on the last bar.
    Readout,
}

/// What the pool shows of a strategy.
pub open spec fn pool_shows(security_id: int, conditions: nat, connected: bool, bars: nat) -> PoolRow {
    if security_id <= 0 || conditions == 0 {
        PoolRow::Blank
    } else if !connected {
        PoolRow::NotConnected
    } else if bars < 2 {
        PoolRow::NotEnoughBars
    } else {
        PoolRow::Readout
    }
}

/// What the pool shows of a strategy; `bars` counts the bars that were read.
pub fn pool_row(security_id: i64, conditions: usize, connected: bool, bars: usize) -> (r: PoolRow)
    ensures
        r == pool_shows(security_id as int, conditions as nat, connected, bars as nat),
{
    if security_id <= 0 || conditions == 0 {
        PoolRow::Blank
    } else if !connected {
        PoolRow::NotConnected
    } else if bars < 2 {
        PoolRow::NotEnoughBars
    } else {
        PoolRow::Readout
    }
}

/// Whether a request asks for a fresh pool.
pub fn pool_forced(refresh: &str) -> (r: bool)
    ensures
        r == (refresh@ == "1"@ || text::downs(refresh@) == "true"@),
{
    if text::same(refresh, "1") {
        return true;
    }
    let l = text::to_ascii_lower(refresh);
    text::same(l.as_str(), "true")
}

/// A pass runs where the engine is on or it was asked for by hand, which also turns the
/// engine on; it scans for entries only while the engine is armed, and one asked for by
/// hand warns where it is not.
pub proof fn law_what_a_pass_does(force: bool, engine_on: bool, armed: bool)
    ensures
        ({
            let p = pass_plan(force, engine_on, armed);
            &&& p.turn_on <==> force
            &&& p.run <==> force || engine_on
            &&& p.scan <==> p.run && armed
            &&& p.warn_disarmed <==> force && !armed
        }),
{
}

/// The day is squared off from the minute set on, not before it, whatever is open, and
/// only where the rule is on with a readable time and has not run today.
pub proof fn law_square_off_from_its_minute(
    at: Seq<char>,
    last_day: Seq<char>,
    today: Seq<char>,
    minutes: int,
    open: nat,
)
    requires
        clock::hhmm(at) is Some,
        last_day != today,
        open > 0,
    ensures
        squares_off(true, at, last_day, today, minutes, open) <==> clock::hhmm(at)->0 <= minutes,
        !squares_off(false, at, last_day, today, minutes, open),
        !squares_off(true, at, last_day, today, minutes, 0),
{
}

/// A live book with a connection fetches prices every second and a half, positions every
/// four seconds and funds every fifteen; without one it fetches nothing. The simulated book
/// marks itself, publishes its wallet every second and a half, and never asks the broker.
pub proof fn law_what_a_refresh_fetches(t: Refreshed, now: int)
    ensures
        ({
            let live = refresh_plan(t, now, false, true);
            let cut = refresh_plan(t, now, false, false);
            &&& live.ltp <==> now >= t.ltp + 1500
            &&& live.account <==> now >= t.account + 4 * 1000
            &&& live.funds <==> now >= t.funds + 15 * 1000
            &&& !live.mark
            &&& !cut.ltp && !cut.account && !cut.funds && !cut.mark
        }),
        forall|connected: bool| #![trigger refresh_plan(t, now, true, connected)]
            {
                let paper = refresh_plan(t, now, true, connected);
                paper.mark && !paper.ltp && !paper.account && (paper.funds <==> now >= t.funds
                    + 1500)
            },
{
}

/// The pool is refreshed from three seconds on, or at once where asked for, and never while
/// a refresh is under way; a pool that was never read waits to be asked for.
pub proof fn law_when_the_pool_refreshes(at: int, now: int, has_cache: bool, force: bool)
    ensures
        !pool_refreshes(has_cache, at, now, force, true),
        pool_refreshes(has_cache, at, now, true, false),
        pool_refreshes(true, at, now, false, false) <==> now >= at + 3 * 1000,
        !pool_refreshes(false, at, now, false, false),
{
}

/// What the pool shows of a strategy: nothing without an instrument and conditions, then
/// what is missing, else its readout, which takes two bars.
pub proof fn law_what_the_pool_shows(id: int, conditions: nat, connected: bool, bars: nat)
    ensures
        id < 1 || conditions == 0 <==> pool_shows(id, conditions, connected, bars)
            == PoolRow::Blank,
        id >= 1 && conditions >= 1 && !connected ==> pool_shows(id, conditions, connected, bars)
            == PoolRow::NotConnected,
        id >= 1 && conditions >= 1 && bars <= 1 ==> pool_shows(id, conditions, true, bars)
            == PoolRow::NotEnoughBars,
        id >= 1 && conditions >= 1 && bars >= 2 ==> pool_shows(id, conditions, true, bars)
            == PoolRow::Readout,
{
}

} // verus!
