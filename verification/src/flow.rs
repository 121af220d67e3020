//! The order of steps of an entry and of a scan: what is asked for next, and
//! what an answer leads to.

use vstd::prelude::*;
use crate::entries::{
    entry_start,
    margin_blocks,
    needs_option,
    paper_rejects,
    premium_check,
    price_check,
    quantity_check,
    EntryError,
};
use crate::entries;
use crate::model::Strategy;
use crate::num::Num;
use crate::scan::{ChartStep, EntryStep, ExecLeg};

verus! {

/// Where an entry stands: what it waits for, or how it ended.
#[derive(Clone, Copy, Debug, PartialEq, Eq, Structural)]
pub enum EntryStage {
    /// The broker session.
    Session,
    /// The price of the instrument.
    Price,
    /// The option contract of an index.
    Contract,
    /// The price of that contract.
    ContractPrice,
    /// The comparison of the premium with the underlying.
    Premium,
    /// The quantity.
    Quantity,
    /// The margin.
    Margin,
    /// The draw of a simulated refusal.
    Draw,
    /// The order can be placed.
    Place,
    Refused(EntryError),
    BlockedByMargin,
    RejectedAtRandom,
}

/// An answer to what an entry waits for.
#[derive(Clone, Copy, Debug, PartialEq, Eq, Structural)]
pub enum EntryEvent {
    Session { client: bool, client_id: bool },
    Price(Num),
    /// Whether a contract was resolved.
    Contract(bool),
    /// Whether the instrument is an option, and its premium consistent.
    Premium { option: bool, sane: bool },
    Quantity(i64),
    Margin { budget: Num, required: Num, available: Num },
    Draw { limit_order: bool, rate_positive: bool, drawn: bool },
}

/// The price is missing.
pub open spec fn no_price(p: Num) -> bool {
    !p.nan && p.key <= 0
}

/// What an answer leads to. An answer to something else leaves the entry where
/// it stands.
pub open spec fn entry_after(s: EntryStage, e: EntryEvent, paper: bool, index: bool) -> EntryStage {
    match (s, e) {
        (EntryStage::Session, EntryEvent::Session { client, client_id }) => if paper || (client
            && client_id) {
            EntryStage::Price
        } else if !client {
            EntryStage::Refused(EntryError::NotConnected)
        } else {
            EntryStage::Refused(EntryError::NoClientId)
        },
        (EntryStage::Price, EntryEvent::Price(p)) => if no_price(p) {
            EntryStage::Refused(
                if paper {
                    EntryError::PaperNoPrice
                } else {
                    EntryError::NoPrice
                },
            )
        } else if index {
            EntryStage::Contract
        } else {
            EntryStage::Premium
        },
        (EntryStage::Contract, EntryEvent::Contract(found)) => if found {
            EntryStage::ContractPrice
        } else {
            EntryStage::Premium
        },
        (EntryStage::ContractPrice, EntryEvent::Price(p)) => if no_price(p) {
            EntryStage::Refused(
                if paper {
                    EntryError::PaperNoOptionPrice
                } else {
                    EntryError::NoOptionPrice
                },
            )
        } else {
            EntryStage::Premium
        },
        (EntryStage::Premium, EntryEvent::Premium { option, sane }) => if option && !sane {
            EntryStage::Refused(EntryError::StalePremium)
        } else {
            EntryStage::Quantity
        },
        (EntryStage::Quantity, EntryEvent::Quantity(q)) => if q <= 0 {
            EntryStage::Refused(EntryError::ZeroQuantity)
        } else {
            EntryStage::Margin
        },
        (EntryStage::Margin, EntryEvent::Margin { budget, required, available }) => if budget.positive()
            && required.above(available) {
            EntryStage::BlockedByMargin
        } else if paper {
            EntryStage::Draw
        } else {
            EntryStage::Place
        },
        (EntryStage::Draw, EntryEvent::Draw { limit_order, rate_positive, drawn }) => if !limit_order
            && rate_positive && drawn {
            EntryStage::RejectedAtRandom
        } else {
            EntryStage::Place
        },
        _ => s,
    }
}

/// Moves an entry on by an answer.
pub fn entry_next(s: EntryStage, e: EntryEvent, paper: bool, strat: &Strategy) -> (r: EntryStage)
    ensures
        r == entry_after(s, e, paper, entries::on_index(*strat)),
{
    match (s, e) {
        (EntryStage::Session, EntryEvent::Session { client, client_id }) => match entry_start(
            paper,
            client,
            client_id,
        ) {
            Ok(_) => EntryStage::Price,
            Err(x) => EntryStage::Refused(x),
        },
        (EntryStage::Price, EntryEvent::Price(p)) => match price_check(paper, false, p) {
            Ok(_) => if needs_option(strat) {
                EntryStage::Contract
            } else {
                EntryStage::Premium
            },
            Err(x) => EntryStage::Refused(x),
        },
        (EntryStage::Contract, EntryEvent::Contract(found)) => if found {
            EntryStage::ContractPrice
        } else {
            EntryStage::Premium
        },
        (EntryStage::ContractPrice, EntryEvent::Price(p)) => match price_check(paper, true, p) {
            Ok(_) => EntryStage::Premium,
            Err(x) => EntryStage::Refused(x),
        },
        (EntryStage::Premium, EntryEvent::Premium { option, sane }) => match premium_check(
            option,
            sane,
        ) {
            Ok(_) => EntryStage::Quantity,
            Err(x) => EntryStage::Refused(x),
        },
        (EntryStage::Quantity, EntryEvent::Quantity(q)) => match quantity_check(q) {
            Ok(_) => EntryStage::Margin,
            Err(x) => EntryStage::Refused(x),
        },
        (EntryStage::Margin, EntryEvent::Margin { budget, required, available }) => {
            if margin_blocks(budget, required, available) {
                EntryStage::BlockedByMargin
            } else if paper {
                EntryStage::Draw
            } else {
                EntryStage::Place
            }
        },
        (EntryStage::Draw, EntryEvent::Draw { limit_order, rate_positive, drawn }) => {
            if paper_rejects(limit_order, rate_positive, drawn) {
                EntryStage::RejectedAtRandom
            } else {
                EntryStage::Place
            }
        },
        _ => s,
    }
}

/// The stage after some answers.
pub open spec fn entry_run(
    s: EntryStage,
    es: Seq<EntryEvent>,
    paper: bool,
    index: bool,
) -> EntryStage
    decreases es.len(),
{
    if es.len() == 0 {
        s
    } else {
        entry_after(entry_run(s, es.drop_last(), paper, index), es.last(), paper, index)
    }
}

/// Some answer gave a price.
pub open spec fn priced(es: Seq<EntryEvent>) -> bool {
    exists|i: int|
        0 <= i < es.len() && (#[trigger] es[i]) is Price && !no_price(es[i]->Price_0)
}

/// Some answer gave a quantity.
pub open spec fn sized(es: Seq<EntryEvent>) -> bool {
    exists|i: int| 0 <= i < es.len() && (#[trigger] es[i]) is Quantity && es[i]->Quantity_0 > 0
}

/// Some answer cleared the margin.
pub open spec fn funded(es: Seq<EntryEvent>) -> bool {
    exists|i: int|
        0 <= i < es.len() && ((#[trigger] es[i]) matches EntryEvent::Margin {
            budget,
            required,
            available,
        } && !(budget.positive() && required.above(available)))
}

/// Some answer cleared the premium.
pub open spec fn consistent(es: Seq<EntryEvent>) -> bool {
    exists|i: int|
        0 <= i < es.len() && ((#[trigger] es[i]) matches EntryEvent::Premium { option, sane } && !(
        option && !sane))
}

proof fn lemma_entry_run(es: Seq<EntryEvent>, paper: bool, index: bool)
    ensures
        ({
            let s = entry_run(EntryStage::Session, es, paper, index);
            &&& s == EntryStage::Premium || s == EntryStage::Quantity || s == EntryStage::Margin
                || s == EntryStage::Draw || s == EntryStage::Place ==> priced(es)
            &&& s == EntryStage::Quantity || s == EntryStage::Margin || s == EntryStage::Draw || s
                == EntryStage::Place ==> consistent(es)
            &&& s == EntryStage::Margin || s == EntryStage::Draw || s == EntryStage::Place
                ==> sized(es)
            &&& s == EntryStage::Draw || s == EntryStage::Place ==> funded(es)
            &&& s == EntryStage::Contract || s == EntryStage::ContractPrice ==> priced(es)
        }),
    decreases es.len(),
{
    if es.len() > 0 {
        let init = es.drop_last();
        lemma_entry_run(init, paper, index);
        assert(es[es.len() - 1] == es.last());
        assert(forall|i: int| 0 <= i < init.len() ==> #[trigger] es[i] == init[i]);
        if priced(init) {
            let i = choose|i: int|
                0 <= i < init.len() && (#[trigger] init[i]) is Price && !no_price(init[i]->Price_0);
            assert(es[i] == init[i]);
            assert(priced(es));
        }
        if consistent(init) {
            let i = choose|i: int|
                0 <= i < init.len() && ((#[trigger] init[i]) matches EntryEvent::Premium {
                    option,
                    sane,
                } && !(option && !sane));
            assert(es[i] == init[i]);
            assert(consistent(es));
        }
        if sized(init) {
            let i = choose|i: int|
                0 <= i < init.len() && (#[trigger] init[i]) is Quantity && init[i]->Quantity_0 > 0;
            assert(es[i] == init[i]);
            assert(sized(es));
        }
        if funded(init) {
            let i = choose|i: int|
                0 <= i < init.len() && ((#[trigger] init[i]) matches EntryEvent::Margin {
                    budget,
                    required,
                    available,
                } && !(budget.positive() && required.above(available)));
            assert(es[i] == init[i]);
            assert(funded(es));
        }
    }
}

/// Whatever answers come in, an order is placed only after a price, a premium
/// consistent with the underlying, a positive quantity and enough margin.
pub proof fn law_no_order_without_checks(es: Seq<EntryEvent>, paper: bool, index: bool)
    requires
        entry_run(EntryStage::Session, es, paper, index) == EntryStage::Place,
    ensures
        priced(es),
        consistent(es),
        sized(es),
        funded(es),
{
    lemma_entry_run(es, paper, index);
}

/// A refusal is final: no further answer revives the entry.
pub proof fn law_refusal_is_final(e: EntryEvent, x: EntryError, paper: bool, index: bool)
    ensures
        entry_after(EntryStage::Refused(x), e, paper, index) == EntryStage::Refused(x),
        entry_after(EntryStage::BlockedByMargin, e, paper, index) == EntryStage::BlockedByMargin,
        entry_after(EntryStage::RejectedAtRandom, e, paper, index) == EntryStage::RejectedAtRandom,
{
}

/// A simulated entry never asks for the broker session.
pub proof fn law_paper_needs_no_broker(client: bool, client_id: bool, index: bool)
    ensures
        entry_after(EntryStage::Session, EntryEvent::Session { client, client_id }, true, index)
            == EntryStage::Price,
{
}

/// Where the scan of one strategy stands: what it waits for, or how it ended.
#[derive(Clone, Copy, Debug, PartialEq, Eq, Structural)]
pub enum ScanStage {
    /// Whether the strategy is evaluated now.
    Start,
    /// Its bars.
    Bars,
    /// Whether the overall direction blocks it.
    Direction,
    /// Its charts.
    Charts,
    /// The checks on the charts.
    Checks,
    /// The checks on the higher timeframe.
    Trend,
    /// What the entry executes on.
    Leg,
    /// The contract to execute on.
    Contract,
    /// The trade limit, the order cap and the delay.
    Limits,
    /// The entry is placed.
    Open,
    /// The entry is queued.
    Queue,
    /// Nothing is done.
    Skip,
}

/// An answer to what a scan waits for.
#[derive(Clone, Copy, Debug, PartialEq, Eq, Structural)]
pub enum ScanEvent {
    /// Evaluated now.
    Start(bool),
    /// How many bars there are.
    Bars(usize),
    /// The overall direction blocks.
    Direction(bool),
    /// The outcome of gathering the charts.
    Charts(ChartStep),
    /// Every chart passes.
    Checks(bool),
    /// Every chart confirms.
    Trend(bool),
    Leg(ExecLeg),
    /// A contract was found.
    Contract(bool),
    Limits(EntryStep),
}

/// The outcome of a passed question: on, or nothing is done.
pub open spec fn on_if(ok: bool, s: ScanStage) -> ScanStage {
    if ok {
        s
    } else {
        ScanStage::Skip
    }
}

/// What an answer leads to; `multi` tells that a higher timeframe confirms.
pub open spec fn scan_after(s: ScanStage, e: ScanEvent, multi: bool) -> ScanStage {
    match (s, e) {
        (ScanStage::Start, ScanEvent::Start(ok)) => on_if(ok, ScanStage::Bars),
        (ScanStage::Bars, ScanEvent::Bars(n)) => on_if(n >= 3, ScanStage::Direction),
        (ScanStage::Direction, ScanEvent::Direction(blocks)) => on_if(!blocks, ScanStage::Charts),
        (ScanStage::Charts, ScanEvent::Charts(c)) => on_if(
            c == ChartStep::Evaluate || c == ChartStep::EvaluateSpotOnly,
            ScanStage::Checks,
        ),
        (ScanStage::Checks, ScanEvent::Checks(ok)) => on_if(
            ok,
            if multi {
                ScanStage::Trend
            } else {
                ScanStage::Leg
            },
        ),
        (ScanStage::Trend, ScanEvent::Trend(ok)) => on_if(ok, ScanStage::Leg),
        (ScanStage::Leg, ScanEvent::Leg(l)) => if l == ExecLeg::Resolve {
            ScanStage::Contract
        } else {
            ScanStage::Limits
        },
        (ScanStage::Contract, ScanEvent::Contract(found)) => on_if(found, ScanStage::Limits),
        (ScanStage::Limits, ScanEvent::Limits(l)) => match l {
            EntryStep::TradeLimit => ScanStage::Skip,
            EntryStep::OrderCap => ScanStage::Skip,
            EntryStep::Queue => ScanStage::Queue,
            EntryStep::Open => ScanStage::Open,
        },
        _ => s,
    }
}

/// Moves the scan of a strategy on by an answer.
pub fn scan_next(s: ScanStage, e: ScanEvent, multi: bool) -> (r: ScanStage)
    ensures
        r == scan_after(s, e, multi),
{
    match (s, e) {
        (ScanStage::Start, ScanEvent::Start(ok)) => if ok {
            ScanStage::Bars
        } else {
            ScanStage::Skip
        },
        (ScanStage::Bars, ScanEvent::Bars(n)) => if n >= 3 {
            ScanStage::Direction
        } else {
            ScanStage::Skip
        },
        (ScanStage::Direction, ScanEvent::Direction(blocks)) => if blocks {
            ScanStage::Skip
        } else {
            ScanStage::Charts
        },
        (ScanStage::Charts, ScanEvent::Charts(c)) => match c {
            ChartStep::Evaluate => ScanStage::Checks,
            ChartStep::EvaluateSpotOnly => ScanStage::Checks,
            _ => ScanStage::Skip,
        },
        (ScanStage::Checks, ScanEvent::Checks(ok)) => if !ok {
            ScanStage::Skip
        } else if multi {
            ScanStage::Trend
        } else {
            ScanStage::Leg
        },
        (ScanStage::Trend, ScanEvent::Trend(ok)) => if ok {
            ScanStage::Leg
        } else {
            ScanStage::Skip
        },
        (ScanStage::Leg, ScanEvent::Leg(l)) => match l {
            ExecLeg::Resolve => ScanStage::Contract,
            _ => ScanStage::Limits,
        },
        (ScanStage::Contract, ScanEvent::Contract(found)) => if found {
            ScanStage::Limits
        } else {
            ScanStage::Skip
        },
        (ScanStage::Limits, ScanEvent::Limits(l)) => match l {
            EntryStep::TradeLimit => ScanStage::Skip,
            EntryStep::OrderCap => ScanStage::Skip,
            EntryStep::Queue => ScanStage::Queue,
            EntryStep::Open => ScanStage::Open,
        },
        _ => s,
    }
}

/// The stage after some answers.
pub open spec fn scan_run(es: Seq<ScanEvent>, multi: bool) -> ScanStage
    decreases es.len(),
{
    if es.len() == 0 {
        ScanStage::Start
    } else {
        scan_after(scan_run(es.drop_last(), multi), es.last(), multi)
    }
}

/// The scan is past the checks of its charts.
pub open spec fn past_checks(s: ScanStage) -> bool {
    s == ScanStage::Trend || s == ScanStage::Leg || s == ScanStage::Contract || s
        == ScanStage::Limits || s == ScanStage::Open || s == ScanStage::Queue
}

/// The scan is past the confirmation.
pub open spec fn past_trend(s: ScanStage) -> bool {
    past_checks(s) && s != ScanStage::Trend
}

/// The scan is under way.
pub open spec fn past_start(s: ScanStage) -> bool {
    s != ScanStage::Start && s != ScanStage::Skip
}

/// There were at least three bars.
pub open spec fn enough_bars(es: Seq<ScanEvent>) -> bool {
    exists|i: int| 0 <= i < es.len() && ((#[trigger] es[i]) matches ScanEvent::Bars(n) && n >= 3)
}

/// Charts to evaluate were gathered.
pub open spec fn charted(es: Seq<ScanEvent>) -> bool {
    es.contains(ScanEvent::Charts(ChartStep::Evaluate)) || es.contains(
        ScanEvent::Charts(ChartStep::EvaluateSpotOnly),
    )
}

proof fn lemma_scan_run(es: Seq<ScanEvent>, multi: bool)
    ensures
        past_checks(scan_run(es, multi)) ==> es.contains(ScanEvent::Checks(true)),
        past_checks(scan_run(es, multi)) || scan_run(es, multi) == ScanStage::Checks
            || scan_run(es, multi) == ScanStage::Charts ==> es.contains(
            ScanEvent::Direction(false),
        ),
        multi && past_trend(scan_run(es, multi)) ==> es.contains(ScanEvent::Trend(true)),
        past_start(scan_run(es, multi)) ==> es.contains(ScanEvent::Start(true)),
        past_start(scan_run(es, multi)) && scan_run(es, multi) != ScanStage::Bars ==> enough_bars(
            es,
        ),
        past_checks(scan_run(es, multi)) || scan_run(es, multi) == ScanStage::Checks ==> charted(
            es,
        ),
        scan_run(es, multi) == ScanStage::Open ==> es.contains(ScanEvent::Limits(EntryStep::Open)),
        scan_run(es, multi) == ScanStage::Queue ==> es.contains(
            ScanEvent::Limits(EntryStep::Queue),
        ),
    decreases es.len(),
{
    if es.len() > 0 {
        let init = es.drop_last();
        lemma_scan_run(init, multi);
        assert(es[es.len() - 1] == es.last());
        assert forall|e: ScanEvent| #[trigger] init.contains(e) implies es.contains(e) by {
            let i = choose|i: int| 0 <= i < init.len() && init[i] == e;
            assert(es[i] == e);
        }
        assert(es.contains(es.last()));
        if enough_bars(init) {
            let i = choose|i: int|
                0 <= i < init.len() && ((#[trigger] init[i]) matches ScanEvent::Bars(n) && n >= 3);
            assert(es[i] == init[i]);
        }
        assert(charted(init) ==> charted(es));
    }
}

/// Whatever answers come in, an entry is placed or queued only where the strategy
/// was evaluated now and had its bars and charts, the overall direction let it
/// through, every chart passed its checks, the higher timeframe confirmed where it
/// has to, and neither limit stood in the way.
pub proof fn law_no_signal_without_checks(es: Seq<ScanEvent>, multi: bool)
    requires
        scan_run(es, multi) == ScanStage::Open || scan_run(es, multi) == ScanStage::Queue,
    ensures
        es.contains(ScanEvent::Start(true)),
        enough_bars(es),
        charted(es),
        es.contains(ScanEvent::Checks(true)),
        es.contains(ScanEvent::Direction(false)),
        multi ==> es.contains(ScanEvent::Trend(true)),
        es.contains(ScanEvent::Limits(EntryStep::Open)) || es.contains(
            ScanEvent::Limits(EntryStep::Queue),
        ),
{
    lemma_scan_run(es, multi);
}

/// An entry whose every check comes out well ends in an order: the price of the
/// instrument, on an index the contract and its price, then premium, quantity and margin;
/// a simulated one also comes through the draw.
pub proof fn law_good_answers_place_an_order(
    paper: bool,
    price: Num,
    premium: Num,
    option: bool,
    qty: i64,
    budget: Num,
    required: Num,
    available: Num,
    limit_order: bool,
)
    requires
        !price.nan && price.key > 0,
        !premium.nan && premium.key > 0,
        qty > 0,
        !required.nan && !available.nan && required.key <= available.key,
    ensures
        ({
            let start = EntryStage::Session;
            let asked = entry_after(
                start,
                EntryEvent::Session { client: true, client_id: true },
                paper,
                true,
            );
            let priced = entry_after(asked, EntryEvent::Price(price), paper, true);
            let found = entry_after(priced, EntryEvent::Contract(true), paper, true);
            let quoted = entry_after(found, EntryEvent::Price(premium), paper, true);
            let sane = entry_after(quoted, EntryEvent::Premium { option, sane: true }, paper, true);
            let counted = entry_after(sane, EntryEvent::Quantity(qty), paper, true);
            let funded = entry_after(
                counted,
                EntryEvent::Margin { budget, required, available },
                paper,
                true,
            );
            let drawn = entry_after(
                funded,
                EntryEvent::Draw { limit_order, rate_positive: true, drawn: false },
                paper,
                true,
            );
            &&& asked == EntryStage::Price && priced == EntryStage::Contract
            &&& found == EntryStage::ContractPrice && quoted == EntryStage::Premium
            &&& sane == EntryStage::Quantity && counted == EntryStage::Margin
            &&& !paper ==> funded == EntryStage::Place
            &&& paper ==> funded == EntryStage::Draw && drawn == EntryStage::Place
            &&& entry_after(asked, EntryEvent::Price(price), paper, false) == EntryStage::Premium
        }),
{
}

/// Each bad answer ends the entry with its own refusal.
pub proof fn law_bad_answers_refuse(
    paper: bool,
    index: bool,
    client: bool,
    price: Num,
    qty: i64,
    budget: Num,
    required: Num,
    available: Num,
)
    requires
        !price.nan && price.key <= 0,
        qty <= 0,
    ensures
        entry_after(
            EntryStage::Session,
            EntryEvent::Session { client: false, client_id: true },
            false,
            index,
        ) == EntryStage::Refused(EntryError::NotConnected),
        entry_after(
            EntryStage::Session,
            EntryEvent::Session { client: true, client_id: false },
            false,
            index,
        ) == EntryStage::Refused(EntryError::NoClientId),
        entry_after(EntryStage::Price, EntryEvent::Price(price), true, index)
            == EntryStage::Refused(EntryError::PaperNoPrice),
        entry_after(EntryStage::Price, EntryEvent::Price(price), false, index)
            == EntryStage::Refused(EntryError::NoPrice),
        entry_after(EntryStage::ContractPrice, EntryEvent::Price(price), true, index)
            == EntryStage::Refused(EntryError::PaperNoOptionPrice),
        entry_after(EntryStage::ContractPrice, EntryEvent::Price(price), false, index)
            == EntryStage::Refused(EntryError::NoOptionPrice),
        entry_after(EntryStage::Contract, EntryEvent::Contract(false), paper, index)
            == EntryStage::Premium,
        entry_after(
            EntryStage::Premium,
            EntryEvent::Premium { option: true, sane: false },
            paper,
            index,
        ) == EntryStage::Refused(EntryError::StalePremium),
        entry_after(
            EntryStage::Premium,
            EntryEvent::Premium { option: false, sane: false },
            paper,
            index,
        ) == EntryStage::Quantity,
        entry_after(EntryStage::Quantity, EntryEvent::Quantity(qty), paper, index)
            == EntryStage::Refused(EntryError::ZeroQuantity),
        !budget.nan && budget.key > 0 && !required.nan && !available.nan && required.key
            > available.key ==> entry_after(
            EntryStage::Margin,
            EntryEvent::Margin { budget, required, available },
            paper,
            index,
        ) == EntryStage::BlockedByMargin,
        !budget.nan && budget.key <= 0 ==> entry_after(
            EntryStage::Margin,
            EntryEvent::Margin { budget, required, available },
            false,
            index,
        ) == EntryStage::Place,
        entry_after(
            EntryStage::Draw,
            EntryEvent::Draw { limit_order: false, rate_positive: true, drawn: true },
            paper,
            index,
        ) == EntryStage::RejectedAtRandom,
        entry_after(
            EntryStage::Draw,
            EntryEvent::Draw { limit_order: true, rate_positive: true, drawn: true },
            paper,
            index,
        ) == EntryStage::Place,
{
}

/// A scan whose every answer is good comes to its limits by the same road: start, at
/// least three bars, direction, charts, checks, where two timeframes run the confirmation,
/// the leg, and a contract where none is at hand.
pub proof fn law_good_answers_reach_the_limits(multi: bool, bars: usize, place: usize)
    requires
        bars >= 3,
    ensures
        scan_after(ScanStage::Start, ScanEvent::Start(true), multi) == ScanStage::Bars,
        scan_after(ScanStage::Bars, ScanEvent::Bars(bars), multi) == ScanStage::Direction,
        scan_after(ScanStage::Direction, ScanEvent::Direction(false), multi) == ScanStage::Charts,
        scan_after(ScanStage::Charts, ScanEvent::Charts(ChartStep::Evaluate), multi)
            == ScanStage::Checks,
        scan_after(ScanStage::Charts, ScanEvent::Charts(ChartStep::EvaluateSpotOnly), multi)
            == ScanStage::Checks,
        scan_after(ScanStage::Checks, ScanEvent::Checks(true), true) == ScanStage::Trend,
        scan_after(ScanStage::Checks, ScanEvent::Checks(true), false) == ScanStage::Leg,
        scan_after(ScanStage::Trend, ScanEvent::Trend(true), multi) == ScanStage::Leg,
        scan_after(ScanStage::Leg, ScanEvent::Leg(ExecLeg::Own), multi) == ScanStage::Limits,
        scan_after(ScanStage::Leg, ScanEvent::Leg(ExecLeg::Chart(place)), multi)
            == ScanStage::Limits,
        scan_after(ScanStage::Leg, ScanEvent::Leg(ExecLeg::Resolve), multi) == ScanStage::Contract,
        scan_after(ScanStage::Contract, ScanEvent::Contract(true), multi) == ScanStage::Limits,
        scan_after(ScanStage::Limits, ScanEvent::Limits(EntryStep::Open), multi) == ScanStage::Open,
        scan_after(ScanStage::Limits, ScanEvent::Limits(EntryStep::Queue), multi)
            == ScanStage::Queue,
{
}

/// Each bad answer to a scan skips the strategy.
pub proof fn law_bad_answers_skip(multi: bool, bars: usize)
    requires
        bars < 3,
    ensures
        scan_after(ScanStage::Start, ScanEvent::Start(false), multi) == ScanStage::Skip,
        scan_after(ScanStage::Bars, ScanEvent::Bars(bars), multi) == ScanStage::Skip,
        scan_after(ScanStage::Direction, ScanEvent::Direction(true), multi) == ScanStage::Skip,
        scan_after(ScanStage::Charts, ScanEvent::Charts(ChartStep::SkipNoPremium), multi)
            == ScanStage::Skip,
        scan_after(ScanStage::Charts, ScanEvent::Charts(ChartStep::SkipEmpty), multi)
            == ScanStage::Skip,
        scan_after(ScanStage::Checks, ScanEvent::Checks(false), multi) == ScanStage::Skip,
        scan_after(ScanStage::Trend, ScanEvent::Trend(false), multi) == ScanStage::Skip,
        scan_after(ScanStage::Contract, ScanEvent::Contract(false), multi) == ScanStage::Skip,
        scan_after(ScanStage::Limits, ScanEvent::Limits(EntryStep::TradeLimit), multi)
            == ScanStage::Skip,
        scan_after(ScanStage::Limits, ScanEvent::Limits(EntryStep::OrderCap), multi)
            == ScanStage::Skip,
{
}

} // verus!
