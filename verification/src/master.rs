//! The exchange contract master: option legs, expiry ladders, futures and lots.

use vstd::prelude::*;
use crate::num::Num;
use crate::scrip;
use crate::text;
use crate::textmap::TextMap;

verus! {

/// One line of the contract master, split at its commas, with what its numeric
/// and date fields read as.
pub struct MasterLine {
    pub fields: Vec<String>,
    /// The strike: whether it is above zero, and in hundredths.
    pub strike: Option<(bool, i64)>,
    pub lot: Option<Num>,
    /// The day number of the expiry date.
    pub day: Option<i64>,
}

/// One listed option contract.
pub struct OptRow {
    pub exchange: String,
    pub prefix: String,
    pub expiry: String,
    pub day: Option<i64>,
    /// The strike in hundredths.
    pub cents: i64,
    pub lot: Num,
    pub call: bool,
    pub security_id: i64,
    pub symbol: String,
}

/// One listed futures contract.
pub struct FutRow {
    pub exchange: String,
    pub prefix: String,
    pub instrument: String,
    pub expiry: String,
    pub day: Option<i64>,
    pub security_id: i64,
    pub lot: Num,
    pub trading_symbol: String,
}

/// A listed option as plain values.
pub struct OptV {
    pub exchange: Seq<char>,
    pub prefix: Seq<char>,
    pub expiry: Seq<char>,
    pub day: Option<i64>,
    pub cents: i64,
    pub lot: Num,
    pub call: bool,
    pub security_id: i64,
    pub symbol: Seq<char>,
}

/// A listed future as plain values.
pub struct FutV {
    pub exchange: Seq<char>,
    pub prefix: Seq<char>,
    pub instrument: Seq<char>,
    pub expiry: Seq<char>,
    pub day: Option<i64>,
    pub security_id: i64,
    pub lot: Num,
    pub symbol: Seq<char>,
}

/// A line as plain values.
pub struct LineV {
    pub fields: Seq<Seq<char>>,
    pub strike: Option<(bool, i64)>,
    pub lot: Option<Num>,
    pub day: Option<i64>,
}

/// The contract master as plain values.
#[verifier::ext_equal]
pub struct ScripV {
    pub options: Seq<OptV>,
    pub futures: Seq<FutV>,
    /// Prefix, instrument and expiry of every futures line.
    pub ladder: Seq<(Seq<char>, Seq<char>, Seq<char>)>,
    /// Ids of every option line.
    pub ids: Seq<i64>,
}

impl View for OptRow {
    type V = OptV;

    open spec fn view(&self) -> OptV {
        OptV {
            exchange: self.exchange@,
            prefix: self.prefix@,
            expiry: self.expiry@,
            day: self.day,
            cents: self.cents,
            lot: self.lot,
            call: self.call,
            security_id: self.security_id,
            symbol: self.symbol@,
        }
    }
}

impl View for FutRow {
    type V = FutV;

    open spec fn view(&self) -> FutV {
        FutV {
            exchange: self.exchange@,
            prefix: self.prefix@,
            instrument: self.instrument@,
            expiry: self.expiry@,
            day: self.day,
            security_id: self.security_id,
            lot: self.lot,
            symbol: self.trading_symbol@,
        }
    }
}

impl View for MasterLine {
    type V = LineV;

    open spec fn view(&self) -> LineV {
        LineV {
            fields: text::views(self.fields@),
            strike: self.strike,
            lot: self.lot,
            day: self.day,
        }
    }
}

/// The views of a list of options.
pub open spec fn opt_views(v: Seq<OptRow>) -> Seq<OptV> {
    Seq::new(v.len(), |i: int| v[i]@)
}

/// The views of a list of futures.
pub open spec fn fut_views(v: Seq<FutRow>) -> Seq<FutV> {
    Seq::new(v.len(), |i: int| v[i]@)
}

/// The views of the futures ladder.
pub open spec fn ladder_views(v: Seq<(String, String, String)>) -> Seq<
    (Seq<char>, Seq<char>, Seq<char>),
> {
    Seq::new(v.len(), |i: int| (v[i].0@, v[i].1@, v[i].2@))
}

/// An empty master.
pub open spec fn blank() -> ScripV {
    ScripV { options: seq![], futures: seq![], ladder: seq![], ids: seq![] }
}

/// The instrument of an option line.
pub open spec fn opt_inst(i: Seq<char>) -> bool {
    i == "OPTIDX"@ || i == "OPTSTK"@ || i == "OPTFUT"@
}

/// The instrument of a futures line.
pub open spec fn fut_inst(i: Seq<char>) -> bool {
    i == "FUTIDX"@ || i == "FUTSTK"@ || i == "FUTCOM"@
}

/// The lot a line lists, or a stand-in.
pub open spec fn lot_or(lot: Option<Num>, other: Num) -> Num {
    match lot {
        Some(l) => l,
        None => other,
    }
}

/// What a line adds to the master. Columns: exchange 0, id 2, instrument 3,
/// symbol 5, expiry 8, option type 10. `one` is the lot of an option line
/// without a readable one.
pub open spec fn with_line(m: ScripV, line: LineV, one: Num) -> ScripV {
    let f = line.fields;
    let inst = f[3];
    let prefix = text::upper_text(text::fields(f[5], '-')[0]);
    let expiry = text::head(f[8], 10);
    let id = text::int_value(text::trimmed(f[2]));
    let kind = text::upper_text(text::trimmed(f[10]));
    if f.len() < 11 || !(opt_inst(inst) || fut_inst(inst)) || text::fields(f[5], '-')[0].len() == 0
        || expiry.len() == 0 {
        m
    } else if fut_inst(inst) {
        let wider = ScripV { ladder: m.ladder.push((prefix, inst, expiry)), ..m };
        match id {
            Some(n) => ScripV {
                futures: m.futures.push(
                    FutV {
                        exchange: text::upper_text(f[0]),
                        prefix,
                        instrument: inst,
                        expiry,
                        day: line.day,
                        security_id: n as i64,
                        lot: lot_or(line.lot, Num { nan: false, infinite: false, key: 0 }),
                        symbol: f[5],
                    },
                ),
                ..wider
            },
            None => wider,
        }
    } else if !(kind == "CE"@ || kind == "PE"@) || id is None {
        m
    } else {
        let seen = ScripV { ids: m.ids.push(id->0 as i64), ..m };
        match line.strike {
            Some((true, cents)) => ScripV {
                options: m.options.push(
                    OptV {
                        exchange: text::upper_text(f[0]),
                        prefix,
                        expiry,
                        day: line.day,
                        cents,
                        lot: lot_or(line.lot, one),
                        call: kind == "CE"@,
                        security_id: id->0 as i64,
                        symbol: f[5],
                    },
                ),
                ..seen
            },
            _ => seen,
        }
    }
}

/// What the first `n` lines add up to; the first line is the header.
pub open spec fn with_lines(lines: Seq<LineV>, n: int, one: Num) -> ScripV
    decreases n,
{
    if n <= 1 {
        blank()
    } else {
        with_line(with_lines(lines, n - 1, one), lines[n - 1], one)
    }
}

/// The views of a list of lines.
pub open spec fn line_views(v: Seq<MasterLine>) -> Seq<LineV> {
    Seq::new(v.len(), |i: int| v[i]@)
}

/// The parsed contract master.
pub struct Scrip {
    options: Vec<OptRow>,
    futures: Vec<FutRow>,
    ladder: Vec<(String, String, String)>,
    ids: Vec<i64>,
}

impl View for Scrip {
    type V = ScripV;

    closed spec fn view(&self) -> ScripV {
        ScripV {
            options: opt_views(self.options@),
            futures: fut_views(self.futures@),
            ladder: ladder_views(self.ladder@),
            ids: self.ids@,
        }
    }
}

fn is_opt_inst(i: &str) -> (r: bool)
    ensures
        r == opt_inst(i@),
{
    text::one_of(i, "OPTIDX", "OPTSTK") || text::same(i, "OPTFUT")
}

fn is_fut_inst(i: &str) -> (r: bool)
    ensures
        r == fut_inst(i@),
{
    text::one_of(i, "FUTIDX", "FUTSTK") || text::same(i, "FUTCOM")
}

impl Scrip {
    /// A master without lines.
    pub fn new() -> (r: Self)
        ensures
            r@ == blank(),
    {
        let r = Scrip {
            options: Vec::new(),
            futures: Vec::new(),
            ladder: Vec::new(),
            ids: Vec::new(),
        };
        proof {
            assert(r@ =~= blank());
        }
        r
    }

    /// Adds one line.
    pub fn add_line(&mut self, line: &MasterLine, one: Num)
        ensures
            final(self)@ == with_line(old(self)@, line@, one),
    {
        let f = &line.fields;
        proof {
            assert(text::views(f@).len() == f@.len());
        }
        if f.len() < 11 {
            return ;
        }
        proof {
            assert(forall|i: int| 0 <= i < f@.len() ==> text::views(f@)[i] == (#[trigger] f@[i])@);
        }
        let inst = f[3].as_str();
        let is_opt = is_opt_inst(inst);
        let is_fut = is_fut_inst(inst);
        if !is_opt && !is_fut {
            return ;
        }
        let parts = text::split(f[5].as_str(), '-');
        proof {
            assert(text::views(parts@)[0] == parts@[0]@);
        }
        if parts[0].as_str().is_empty() {
            return ;
        }
        let prefix = text::uppercase(parts[0].as_str());
        let exch = text::uppercase(f[0].as_str());
        let expiry = scrip::normalize_expiry(f[8].as_str());
        if expiry.as_str().is_empty() {
            return ;
        }
        let id_text = text::trim(f[2].as_str());
        let id = text::parse_int(id_text.as_str());
        let ghost was = self@;
        if is_fut {
            self.ladder.push((prefix.clone(), inst.to_owned(), expiry.clone()));
            proof {
                assert(ladder_views(self.ladder@) =~= was.ladder.push((prefix@, inst@, expiry@)));
            }
            if let Some(sid) = id {
                let lot = match line.lot {
                    Some(l) => l,
                    None => Num::of(0),
                };
                let row = FutRow {
                    exchange: exch,
                    prefix,
                    instrument: inst.to_owned(),
                    expiry,
                    day: line.day,
                    security_id: sid,
                    lot,
                    trading_symbol: f[5].clone(),
                };
                let ghost rv = row@;
                self.futures.push(row);
                proof {
                    assert(fut_views(self.futures@) =~= was.futures.push(rv));
                }
            }
            proof {
                assert(self@ =~= with_line(was, line@, one));
            }
            return ;
        }
        let kind_text = text::trim(f[10].as_str());
        let kind = text::uppercase(kind_text.as_str());
        if !text::one_of(kind.as_str(), "CE", "PE") {
            return ;
        }
        let sid: i64 = match id {
            Some(s) => s,
            None => {
                return ;
            },
        };
        self.ids.push(sid);
        if let Some((above, cents)) = line.strike {
            if above {
                let lot = match line.lot {
                    Some(l) => l,
                    None => one,
                };
                let call = text::same(kind.as_str(), "CE");
                let row = OptRow {
                    exchange: exch,
                    prefix,
                    expiry,
                    day: line.day,
                    cents,
                    lot,
                    call,
                    security_id: sid,
                    symbol: f[5].clone(),
                };
                let ghost rv = row@;
                self.options.push(row);
                proof {
                    assert(opt_views(self.options@) =~= was.options.push(rv));
                }
            }
        }
        proof {
            assert(self@ =~= with_line(was, line@, one));
        }
    }

    /// The master out of all its lines, the first of which is the header;
    /// `None` where it lists no option.
    pub fn parse_file(lines: &Vec<MasterLine>, one: Num) -> (r: Option<Scrip>)
        ensures
            match r {
                Some(s) => s@ == with_lines(line_views(lines@), lines@.len() as int, one)
                    && s@.options.len() > 0,
                None => with_lines(line_views(lines@), lines@.len() as int, one).options.len()
                    == 0,
            },
    {
        let mut s = Scrip::new();
        let mut i: usize = 1;
        while i < lines.len()
            invariant
                1 <= i,
                i <= lines.len() || i == 1,
                s@ == with_lines(line_views(lines@), i as int, one),
            decreases lines.len() - i,
        {
            s.add_line(&lines[i], one);
            proof {
                assert(line_views(lines@)[i as int] == lines@[i as int]@);
            }
            i += 1;
        }
        proof {
            assert(opt_views(s.options@).len() == s.options@.len());
        }
        if s.options.len() == 0 {
            None
        } else {
            Some(s)
        }
    }

    /// Whether an id is that of an option contract.
    pub fn is_option(&self, sid: i64) -> (r: bool)
        ensures
            r == (sid > 0 && self@.ids.contains(sid)),
    {
        if sid <= 0 {
            return false;
        }
        let mut i: usize = 0;
        while i < self.ids.len()
            invariant
                sid > 0,
                i <= self.ids.len(),
                forall|j: int| 0 <= j < i ==> self.ids@[j] != sid,
            decreases self.ids.len() - i,
        {
            if self.ids[i] == sid {
                return true;
            }
            i += 1;
        }
        false
    }
}

/// The option is listed under the key.
pub open spec fn listed(
    o: OptV,
    exch: Seq<char>,
    prefix: Seq<char>,
    expiry: Seq<char>,
    cents: i64,
) -> bool {
    o.exchange == exch && o.prefix == prefix && o.expiry == expiry && o.cents == cents
}

/// The last of the first `n` options under the key, of the type where one is
/// asked for; minus one where there is none. A later line replaces an earlier one.
pub open spec fn last_listed(
    options: Seq<OptV>,
    exch: Seq<char>,
    prefix: Seq<char>,
    expiry: Seq<char>,
    cents: i64,
    call: Option<bool>,
    n: int,
) -> int
    decreases n,
{
    if n <= 0 {
        -1
    } else if listed(options[n - 1], exch, prefix, expiry, cents) && (call is Some ==> options[n
        - 1].call == call->0) {
        n - 1
    } else {
        last_listed(options, exch, prefix, expiry, cents, call, n - 1)
    }
}

/// A resolved leg: id, symbol, lot.
pub open spec fn leg(
    options: Seq<OptV>,
    exch: Seq<char>,
    prefix: Seq<char>,
    expiry: Seq<char>,
    cents: i64,
    call: bool,
) -> Option<(i64, Seq<char>, Num)> {
    let n = options.len() as int;
    let i = last_listed(options, exch, prefix, expiry, cents, Some(call), n);
    let j = last_listed(options, exch, prefix, expiry, cents, None, n);
    if i >= 0 {
        Some((options[i].security_id, options[i].symbol, options[j].lot))
    } else {
        None
    }
}

/// Some option of the prefix is listed on the exchange; `None` on an empty master.
pub open spec fn carries(options: Seq<OptV>, prefix: Seq<char>, exch: Seq<char>) -> Option<bool> {
    if options.len() == 0 {
        None
    } else {
        Some(
            exists|i: int|
                0 <= i < options.len() && (#[trigger] options[i]).exchange == exch
                    && options[i].prefix == prefix,
        )
    }
}

/// Distance of two days.
pub open spec fn gap(a: i64, b: i64) -> int {
    if a >= b {
        a - b
    } else {
        b - a
    }
}

/// The option is a dated leg of the strike and type.
pub open spec fn dated_leg(
    o: OptV,
    exch: Seq<char>,
    prefix: Seq<char>,
    cents: i64,
    call: bool,
) -> bool {
    o.exchange == exch && o.prefix == prefix && o.cents == cents && o.call == call && o.day is Some
}

/// The first among the first `n` options of the dated legs nearest to the day;
/// minus one where there is none.
pub open spec fn nearest(
    options: Seq<OptV>,
    exch: Seq<char>,
    prefix: Seq<char>,
    cents: i64,
    call: bool,
    day: i64,
    n: int,
) -> int
    decreases n,
{
    if n <= 0 {
        -1
    } else {
        let b = nearest(options, exch, prefix, cents, call, day, n - 1);
        let o = options[n - 1];
        if dated_leg(o, exch, prefix, cents, call) && (b < 0 || gap(o.day->0, day) < gap(
            options[b].day->0,
            day,
        )) {
            n - 1
        } else {
            b
        }
    }
}

/// A resolved option contract.
#[derive(Debug)]
pub struct Resolved {
    pub security_id: i64,
    pub lot: Num,
    pub trading_symbol: String,
    pub expiry: String,
}

/// The contract that stands for a leg.
pub open spec fn stands_for(
    r: Option<Resolved>,
    leg: Option<(i64, Seq<char>, Num)>,
    expiry: Seq<char>,
) -> bool {
    match (r, leg) {
        (Some(c), Some((id, symbol, lot))) => c.security_id == id && c.trading_symbol@ == symbol
            && c.lot == lot && c.expiry@ == expiry,
        _ => false,
    }
}

/// What a request resolves to: the exact leg; else the leg of the nearest
/// expiry on the exchange; else, where the exchange lists nothing of the prefix,
/// the exact leg on the first other exchange that has it.
pub open spec fn resolution(
    options: Seq<OptV>,
    exch: Seq<char>,
    prefix: Seq<char>,
    expiry: Seq<char>,
    day: Option<i64>,
    cents: i64,
    call: bool,
    r: Option<Resolved>,
) -> bool {
    let exact = leg(options, exch, prefix, expiry, cents, call);
    let k = if day is Some {
        nearest(options, exch, prefix, cents, call, day->0, options.len() as int)
    } else {
        -1
    };
    let near = leg(options, exch, prefix, options[k].expiry, cents, call);
    let nse = leg(options, "NSE"@, prefix, expiry, cents, call);
    let bse = leg(options, "BSE"@, prefix, expiry, cents, call);
    let mcx = leg(options, "MCX"@, prefix, expiry, cents, call);
    let ncdex = leg(options, "NCDEX"@, prefix, expiry, cents, call);
    if exact is Some {
        stands_for(r, exact, expiry)
    } else if k >= 0 {
        stands_for(r, near, options[k].expiry)
    } else if carries(options, prefix, exch) == Some(true) {
        r is None
    } else if nse is Some {
        stands_for(r, nse, expiry)
    } else if bse is Some {
        stands_for(r, bse, expiry)
    } else if mcx is Some {
        stands_for(r, mcx, expiry)
    } else if ncdex is Some {
        stands_for(r, ncdex, expiry)
    } else {
        r is None
    }
}

proof fn lemma_last_listed(
    options: Seq<OptV>,
    exch: Seq<char>,
    prefix: Seq<char>,
    expiry: Seq<char>,
    cents: i64,
    call: Option<bool>,
    n: int,
    k: int,
)
    requires
        0 <= n <= options.len(),
    ensures
        -1 <= last_listed(options, exch, prefix, expiry, cents, call, n) < n || n == 0,
        ({
            let i = last_listed(options, exch, prefix, expiry, cents, call, n);
            i >= 0 ==> listed(options[i], exch, prefix, expiry, cents) && (call is Some
                ==> options[i].call == call->0)
        }),
        0 <= k < n && listed(options[k], exch, prefix, expiry, cents) && (call is Some
            ==> options[k].call == call->0) ==> last_listed(
            options,
            exch,
            prefix,
            expiry,
            cents,
            call,
            n,
        ) >= k,
    decreases n,
{
    if n > 0 {
        lemma_last_listed(options, exch, prefix, expiry, cents, call, n - 1, k);
    }
}

proof fn lemma_nearest(
    options: Seq<OptV>,
    exch: Seq<char>,
    prefix: Seq<char>,
    cents: i64,
    call: bool,
    day: i64,
    n: int,
    k: int,
)
    requires
        0 <= n <= options.len(),
    ensures
        ({
            let b = nearest(options, exch, prefix, cents, call, day, n);
            &&& -1 <= b
            &&& b >= 0 ==> b < n && dated_leg(options[b], exch, prefix, cents, call)
            &&& 0 <= k < n && dated_leg(options[k], exch, prefix, cents, call) ==> b >= 0 && gap(
                options[b].day->0,
                day,
            ) <= gap(options[k].day->0, day)
        }),
    decreases n,
{
    if n > 0 {
        lemma_nearest(options, exch, prefix, cents, call, day, n - 1, k);
        lemma_nearest(
            options,
            exch,
            prefix,
            cents,
            call,
            day,
            n - 1,
            nearest(options, exch, prefix, cents, call, day, n - 1),
        );
    }
}

/// A resolved contract is always a listed leg of the asked prefix, strike and
/// type, and an exact listing on the asked exchange wins over every other.
pub proof fn law_resolution_is_listed(
    options: Seq<OptV>,
    exch: Seq<char>,
    prefix: Seq<char>,
    expiry: Seq<char>,
    day: Option<i64>,
    cents: i64,
    call: bool,
    r: Option<Resolved>,
)
    requires
        resolution(options, exch, prefix, expiry, day, cents, call, r),
    ensures
        r matches Some(c) ==> exists|i: int|
            0 <= i < options.len() && (#[trigger] options[i]).prefix == prefix && options[i].cents
                == cents && options[i].call == call && options[i].security_id == c.security_id
                && options[i].symbol == c.trading_symbol@,
        leg(options, exch, prefix, expiry, cents, call) is Some ==> r is Some && r->0.expiry@
            == expiry,
{
    let n = options.len() as int;
    let k = if day is Some {
        nearest(options, exch, prefix, cents, call, day->0, n)
    } else {
        -1
    };
    if day is Some {
        lemma_nearest(options, exch, prefix, cents, call, day->0, n, k);
    }
    lemma_last_listed(options, exch, prefix, expiry, cents, Some(call), n, 0);
    if k >= 0 {
        lemma_last_listed(options, exch, prefix, options[k].expiry, cents, Some(call), n, k);
    }
    lemma_last_listed(options, "NSE"@, prefix, expiry, cents, Some(call), n, 0);
    lemma_last_listed(options, "BSE"@, prefix, expiry, cents, Some(call), n, 0);
    lemma_last_listed(options, "MCX"@, prefix, expiry, cents, Some(call), n, 0);
    lemma_last_listed(options, "NCDEX"@, prefix, expiry, cents, Some(call), n, 0);
}

/// Among the dated legs of a strike none is nearer to the asked day than the
/// one chosen, and one is chosen where there is any.
pub proof fn law_nearest_expiry_is_nearest(
    options: Seq<OptV>,
    exch: Seq<char>,
    prefix: Seq<char>,
    cents: i64,
    call: bool,
    day: i64,
    k: int,
)
    requires
        0 <= k < options.len(),
        dated_leg(options[k], exch, prefix, cents, call),
    ensures
        ({
            let b = nearest(options, exch, prefix, cents, call, day, options.len() as int);
            0 <= b < options.len() && dated_leg(options[b], exch, prefix, cents, call) && gap(
                options[b].day->0,
                day,
            ) <= gap(options[k].day->0, day)
        }),
{
    lemma_nearest(options, exch, prefix, cents, call, day, options.len() as int, k);
}

fn day_gap(a: i64, b: i64) -> (r: i128)
    ensures
        r == gap(a, b),
{
    if a >= b {
        a as i128 - b as i128
    } else {
        b as i128 - a as i128
    }
}

impl Scrip {
    fn last_row(
        &self,
        exch: &str,
        prefix: &str,
        expiry: &str,
        cents: i64,
        call: Option<bool>,
    ) -> (r: Option<usize>)
        ensures
            match r {
                Some(i) => i < self@.options.len() && i == last_listed(
                    self@.options,
                    exch@,
                    prefix@,
                    expiry@,
                    cents,
                    call,
                    self@.options.len() as int,
                ),
                None => last_listed(
                    self@.options,
                    exch@,
                    prefix@,
                    expiry@,
                    cents,
                    call,
                    self@.options.len() as int,
                ) == -1,
            },
    {
        let mut n: usize = self.options.len();
        while n > 0
            invariant
                n <= self.options.len(),
                last_listed(
                    self@.options,
                    exch@,
                    prefix@,
                    expiry@,
                    cents,
                    call,
                    self@.options.len() as int,
                ) == last_listed(self@.options, exch@, prefix@, expiry@, cents, call, n as int),
            decreases n,
        {
            let o = &self.options[n - 1];
            proof {
                assert(self@.options[n - 1] == o@);
            }
            let typed = match call {
                Some(c) => o.call == c,
                None => true,
            };
            if o.cents == cents && typed && text::same(o.exchange.as_str(), exch) && text::same(
                o.prefix.as_str(),
                prefix,
            ) && text::same(o.expiry.as_str(), expiry) {
                return Some(n - 1);
            }
            n -= 1;
        }
        None
    }

    /// The leg of a strike: exchange and prefix in upper case, expiry a date.
    fn leg_of(&self, exch: &str, prefix: &str, expiry: &str, cents: i64, call: bool) -> (r: Option<
        (i64, String, Num),
    >)
        ensures
            (match r {
                Some((a, b, c)) => Some((a, b@, c)),
                None => None,
            }) == leg(self@.options, exch@, prefix@, expiry@, cents, call),
    {
        proof {
            let n = self@.options.len() as int;
            let i = last_listed(
                self@.options,
                exch@,
                prefix@,
                expiry@,
                cents,
                Some(call),
                n,
            );
            lemma_last_listed(self@.options, exch@, prefix@, expiry@, cents, Some(call), n, 0);
            lemma_last_listed(self@.options, exch@, prefix@, expiry@, cents, None, n, i);
        }
        let i: usize = match self.last_row(exch, prefix, expiry, cents, Some(call)) {
            Some(i) => i,
            None => {
                return None;
            },
        };
        match self.last_row(exch, prefix, expiry, cents, None) {
            Some(j) => {
                let o = &self.options[i];
                proof {
                    assert(self@.options[i as int] == o@);
                    assert(self@.options[j as int] == self.options@[j as int]@);
                }
                Some((o.security_id, o.symbol.clone(), self.options[j].lot))
            },
            None => None,
        }
    }

    /// Whether options of the prefix are listed on the exchange; `None` where
    /// the master lists no option at all.
    pub fn has_options(&self, prefix: &str, exch: &str) -> (r: Option<bool>)
        ensures
            r == carries(self@.options, text::upper_text(prefix@), exch@),
    {
        proof {
            assert(self@.options.len() == self.options@.len());
        }
        if self.options.len() == 0 {
            return None;
        }
        let p = text::uppercase(prefix);
        let mut i: usize = 0;
        while i < self.options.len()
            invariant
                i <= self.options.len(),
                p@ == text::upper_text(prefix@),
                self.options@.len() > 0,
                forall|j: int|
                    0 <= j < i ==> !((#[trigger] self@.options[j]).exchange == exch@
                        && self@.options[j].prefix == p@),
            decreases self.options.len() - i,
        {
            let o = &self.options[i];
            proof {
                assert(self@.options[i as int] == o@);
            }
            if text::same(o.exchange.as_str(), exch) && text::same(
                o.prefix.as_str(),
                p.as_str(),
            ) {
                return Some(true);
            }
            i += 1;
        }
        Some(false)
    }

    fn nearest_row(&self, exch: &str, prefix: &str, cents: i64, call: bool, day: i64) -> (r: Option<
        usize,
    >)
        ensures
            match r {
                Some(i) => i < self@.options.len() && i == nearest(
                    self@.options,
                    exch@,
                    prefix@,
                    cents,
                    call,
                    day,
                    self@.options.len() as int,
                ),
                None => nearest(
                    self@.options,
                    exch@,
                    prefix@,
                    cents,
                    call,
                    day,
                    self@.options.len() as int,
                ) == -1,
            },
    {
        let mut best: Option<(usize, i128)> = None;
        let mut i: usize = 0;
        while i < self.options.len()
            invariant
                i <= self.options.len(),
                match best {
                    Some((b, g)) => b < i && b == nearest(
                        self@.options,
                        exch@,
                        prefix@,
                        cents,
                        call,
                        day,
                        i as int,
                    ) && self@.options[b as int].day is Some && g == gap(
                        self@.options[b as int].day->0,
                        day,
                    ),
                    None => nearest(
                        self@.options,
                        exch@,
                        prefix@,
                        cents,
                        call,
                        day,
                        i as int,
                    ) == -1,
                },
            decreases self.options.len() - i,
        {
            let o = &self.options[i];
            proof {
                assert(self@.options[i as int] == o@);
            }
            if let Some(d) = o.day {
                if o.cents == cents && o.call == call && text::same(o.exchange.as_str(), exch)
                    && text::same(o.prefix.as_str(), prefix) {
                    let g: i128 = day_gap(d, day);
                    let better = match best {
                        Some((_, bg)) => g < bg,
                        None => true,
                    };
                    if better {
                        best = Some((i, g));
                    }
                }
            }
            i += 1;
        }
        match best {
            Some((b, _)) => Some(b),
            None => None,
        }
    }

    /// Resolves an option contract of an underlying. `day` is the day number of
    /// the asked expiry, `above` and `cents` the strike.
    pub fn resolve(
        &self,
        symbol_name: &str,
        expiry: &str,
        day: Option<i64>,
        above: bool,
        cents: i64,
        option_type: &str,
        segment: &str,
    ) -> (r: Option<Resolved>)
        ensures
            ({
                let prefix = scrip::underlying(symbol_name@);
                let kind = text::upper_text(text::trimmed(option_type@));
                if prefix.len() == 0 || !above || !(kind == "CE"@ || kind == "PE"@) {
                    r is None
                } else {
                    resolution(
                        self@.options,
                        scrip::exch_by(text::upper_text(segment@)),
                        text::upper_text(prefix),
                        text::head(expiry@, 10),
                        day,
                        cents,
                        kind == "CE"@,
                        r,
                    )
                }
            }),
    {
        let name = scrip::fno_underlying(symbol_name);
        if name.as_str().is_empty() || !above {
            return None;
        }
        let kt = text::trim(option_type);
        let kind = text::uppercase(kt.as_str());
        if !text::one_of(kind.as_str(), "CE", "PE") {
            return None;
        }
        let call = text::same(kind.as_str(), "CE");
        let prefix = text::uppercase(name.as_str());
        let exp = scrip::normalize_expiry(expiry);
        let exch = scrip::scrip_exch(segment);
        self.resolve_leg(exch, name.as_str(), prefix.as_str(), exp, day, cents, call)
    }

    /// Resolves a leg of known type, the prefix given in capitals too.
    pub fn resolve_leg(
        &self,
        exch: &str,
        name: &str,
        prefix: &str,
        exp: String,
        day: Option<i64>,
        cents: i64,
        call: bool,
    ) -> (r: Option<Resolved>)
        requires
            prefix@ == text::upper_text(name@),
        ensures
            resolution(self@.options, exch@, prefix@, exp@, day, cents, call, r),
    {
        if let Some((security_id, trading_symbol, lot)) = self.leg_of(
            exch,
            prefix,
            exp.as_str(),
            cents,
            call,
        ) {
            return Some(Resolved { security_id, lot, trading_symbol, expiry: exp });
        }
        if let Some(d) = day {
            if let Some(k) = self.nearest_row(exch, prefix, cents, call, d) {
                let e = self.options[k].expiry.clone();
                proof {
                    let n = self@.options.len() as int;
                    assert(self@.options[k as int] == self.options@[k as int]@);
                    lemma_nearest(self@.options, exch@, prefix@, cents, call, d, n, 0);
                    lemma_last_listed(
                        self@.options,
                        exch@,
                        prefix@,
                        e@,
                        cents,
                        Some(call),
                        n,
                        k as int,
                    );
                }
                if let Some((security_id, trading_symbol, lot)) = self.leg_of(
                    exch,
                    prefix,
                    e.as_str(),
                    cents,
                    call,
                ) {
                    return Some(Resolved { security_id, lot, trading_symbol, expiry: e });
                }
            }
        }
        let has = match self.has_options(name, exch) {
            Some(b) => b,
            None => false,
        };
        if has {
            return None;
        }
        if let Some((security_id, trading_symbol, lot)) = self.leg_of(
            "NSE",
            prefix,
            exp.as_str(),
            cents,
            call,
        ) {
            return Some(Resolved { security_id, lot, trading_symbol, expiry: exp });
        }
        if let Some((security_id, trading_symbol, lot)) = self.leg_of(
            "BSE",
            prefix,
            exp.as_str(),
            cents,
            call,
        ) {
            return Some(Resolved { security_id, lot, trading_symbol, expiry: exp });
        }
        if let Some((security_id, trading_symbol, lot)) = self.leg_of(
            "MCX",
            prefix,
            exp.as_str(),
            cents,
            call,
        ) {
            return Some(Resolved { security_id, lot, trading_symbol, expiry: exp });
        }
        if let Some((security_id, trading_symbol, lot)) = self.leg_of(
            "NCDEX",
            prefix,
            exp.as_str(),
            cents,
            call,
        ) {
            return Some(Resolved { security_id, lot, trading_symbol, expiry: exp });
        }
        None
    }
}

/// One of the four exchanges of the master.
pub open spec fn known_exchange(x: Seq<char>) -> bool {
    x == "NSE"@ || x == "BSE"@ || x == "MCX"@ || x == "NCDEX"@
}

/// The expiry carries options of the prefix on the exchange.
pub open spec fn own_expiry(
    options: Seq<OptV>,
    exch: Seq<char>,
    prefix: Seq<char>,
    e: Seq<char>,
) -> bool {
    exists|i: int|
        0 <= i < options.len() && (#[trigger] options[i]).exchange == exch && options[i].prefix
            == prefix && options[i].expiry == e
}

/// The expiry carries options of the prefix on some exchange.
pub open spec fn cross_expiry(options: Seq<OptV>, prefix: Seq<char>, e: Seq<char>) -> bool {
    exists|i: int|
        0 <= i < options.len() && known_exchange((#[trigger] options[i]).exchange)
            && options[i].prefix == prefix && options[i].expiry == e
}

/// The expiry carries futures of the prefix.
pub open spec fn fut_expiry(
    ladder: Seq<(Seq<char>, Seq<char>, Seq<char>)>,
    prefix: Seq<char>,
    e: Seq<char>,
) -> bool {
    exists|i: int|
        0 <= i < ladder.len() && (#[trigger] ladder[i]).0 == prefix && fut_inst(ladder[i].1)
            && ladder[i].2 == e
}

/// The views of an optional list.
pub open spec fn list_view(v: Option<Vec<String>>) -> Option<Seq<Seq<char>>> {
    match v {
        Some(l) => Some(text::views(l@)),
        None => None,
    }
}

/// The ladder a request gets: the prefix's own expiries on the exchange; where
/// the exchange lists none of it, those of any exchange; then those of its
/// futures. Each ladder is strictly rising.
pub open spec fn ladder_for(
    m: ScripV,
    exch: Seq<char>,
    exch_upper: Seq<char>,
    p: Seq<char>,
    r: Option<Seq<Seq<char>>>,
) -> bool {
    if exists|e: Seq<char>| own_expiry(m.options, exch_upper, p, e) {
        r is Some && text::rising(r->0) && forall|e: Seq<char>| #[trigger]
            (r->0).contains(e) == own_expiry(m.options, exch_upper, p, e)
    } else if carries(m.options, text::upper_text(p), exch) == Some(true) {
        r is None
    } else if exists|e: Seq<char>| cross_expiry(m.options, p, e) {
        r is Some && text::rising(r->0) && forall|e: Seq<char>| #[trigger]
            (r->0).contains(e) == cross_expiry(m.options, p, e)
    } else if exists|e: Seq<char>| fut_expiry(m.ladder, p, e) {
        r is Some && text::rising(r->0) && forall|e: Seq<char>| #[trigger]
            (r->0).contains(e) == fut_expiry(m.ladder, p, e)
    } else {
        r is None
    }
}

fn is_known_exchange(x: &str) -> (r: bool)
    ensures
        r == known_exchange(x@),
{
    text::one_of(x, "NSE", "BSE") || text::one_of(x, "MCX", "NCDEX")
}

impl Scrip {
    fn own_expiries(&self, exch: &str, p: &str) -> (r: TextMap<bool>)
        ensures
            forall|e: Seq<char>| #[trigger]
                r@.contains_key(e) == own_expiry(self@.options, exch@, p@, e),
    {
        let mut m: TextMap<bool> = TextMap::new();
        let mut i: usize = 0;
        while i < self.options.len()
            invariant
                i <= self.options.len(),
                forall|e: Seq<char>| #[trigger]
                    m@.contains_key(e) == own_expiry(self@.options.take(i as int), exch@, p@, e),
            decreases self.options.len() - i,
        {
            let o = &self.options[i];
            let ghost a = self@.options.take(i as int);
            let ghost b = self@.options.take(i + 1);
            let ghost before = m@;
            proof {
                assert(self@.options[i as int] == o@);
                assert(b =~= a.push(o@));
            }
            let hit = text::same(o.exchange.as_str(), exch) && text::same(o.prefix.as_str(), p);
            if hit {
                m.insert(o.expiry.clone(), true);
            }
            proof {
                assert forall|e: Seq<char>| #[trigger]
                    m@.contains_key(e) == own_expiry(b, exch@, p@, e) by {
                    assert(before.contains_key(e) == own_expiry(a, exch@, p@, e));
                    if own_expiry(a, exch@, p@, e) {
                        let j = choose|j: int|
                            0 <= j < a.len() && (#[trigger] a[j]).exchange == exch@ && a[j].prefix
                                == p@ && a[j].expiry == e;
                        assert(b[j] == a[j]);
                    }
                    if own_expiry(b, exch@, p@, e) {
                        let j = choose|j: int|
                            0 <= j < b.len() && (#[trigger] b[j]).exchange == exch@ && b[j].prefix
                                == p@ && b[j].expiry == e;
                        if j < a.len() {
                            assert(a[j] == b[j]);
                        }
                    }
                    assert(b[i as int] == o@);
                }
            }
            i += 1;
        }
        proof {
            assert(self@.options.take(self@.options.len() as int) =~= self@.options);
        }
        m
    }

    fn cross_expiries(&self, p: &str) -> (r: TextMap<bool>)
        ensures
            forall|e: Seq<char>| #[trigger]
                r@.contains_key(e) == cross_expiry(self@.options, p@, e),
    {
        let mut m: TextMap<bool> = TextMap::new();
        let mut i: usize = 0;
        while i < self.options.len()
            invariant
                i <= self.options.len(),
                forall|e: Seq<char>| #[trigger]
                    m@.contains_key(e) == cross_expiry(self@.options.take(i as int), p@, e),
            decreases self.options.len() - i,
        {
            let o = &self.options[i];
            let ghost a = self@.options.take(i as int);
            let ghost b = self@.options.take(i + 1);
            let ghost before = m@;
            proof {
                assert(self@.options[i as int] == o@);
                assert(b =~= a.push(o@));
            }
            let hit = text::same(o.prefix.as_str(), p) && is_known_exchange(o.exchange.as_str());
            if hit {
                m.insert(o.expiry.clone(), true);
            }
            proof {
                assert forall|e: Seq<char>| #[trigger]
                    m@.contains_key(e) == cross_expiry(b, p@, e) by {
                    assert(before.contains_key(e) == cross_expiry(a, p@, e));
                    if cross_expiry(a, p@, e) {
                        let j = choose|j: int|
                            0 <= j < a.len() && known_exchange((#[trigger] a[j]).exchange)
                                && a[j].prefix == p@ && a[j].expiry == e;
                        assert(b[j] == a[j]);
                    }
                    if cross_expiry(b, p@, e) {
                        let j = choose|j: int|
                            0 <= j < b.len() && known_exchange((#[trigger] b[j]).exchange)
                                && b[j].prefix == p@ && b[j].expiry == e;
                        if j < a.len() {
                            assert(a[j] == b[j]);
                        }
                    }
                    assert(b[i as int] == o@);
                }
            }
            i += 1;
        }
        proof {
            assert(self@.options.take(self@.options.len() as int) =~= self@.options);
        }
        m
    }

    fn fut_expiries(&self, p: &str) -> (r: TextMap<bool>)
        ensures
            forall|e: Seq<char>| #[trigger] r@.contains_key(e) == fut_expiry(self@.ladder, p@, e),
    {
        let mut m: TextMap<bool> = TextMap::new();
        let mut i: usize = 0;
        while i < self.ladder.len()
            invariant
                i <= self.ladder.len(),
                forall|e: Seq<char>| #[trigger]
                    m@.contains_key(e) == fut_expiry(self@.ladder.take(i as int), p@, e),
            decreases self.ladder.len() - i,
        {
            let o = &self.ladder[i];
            let ghost ov = (o.0@, o.1@, o.2@);
            let ghost a = self@.ladder.take(i as int);
            let ghost b = self@.ladder.take(i + 1);
            let ghost before = m@;
            proof {
                assert(self@.ladder[i as int] == ov);
                assert(b =~= a.push(ov));
            }
            let hit = text::same(o.0.as_str(), p) && is_fut_inst(o.1.as_str());
            if hit {
                m.insert(o.2.clone(), true);
            }
            proof {
                assert forall|e: Seq<char>| #[trigger]
                    m@.contains_key(e) == fut_expiry(b, p@, e) by {
                    assert(before.contains_key(e) == fut_expiry(a, p@, e));
                    if fut_expiry(a, p@, e) {
                        let j = choose|j: int|
                            0 <= j < a.len() && (#[trigger] a[j]).0 == p@ && fut_inst(a[j].1)
                                && a[j].2 == e;
                        assert(b[j] == a[j]);
                    }
                    if fut_expiry(b, p@, e) {
                        let j = choose|j: int|
                            0 <= j < b.len() && (#[trigger] b[j]).0 == p@ && fut_inst(b[j].1)
                                && b[j].2 == e;
                        if j < a.len() {
                            assert(a[j] == b[j]);
                        }
                    }
                    assert(b[i as int] == ov);
                }
            }
            i += 1;
        }
        proof {
            assert(self@.ladder.take(self@.ladder.len() as int) =~= self@.ladder);
        }
        m
    }

    /// The expiry ladder of a prefix.
    pub fn expiries_for(&self, prefix: &str, exch: &str) -> (r: Option<Vec<String>>)
        ensures
            ladder_for(
                self@,
                exch@,
                text::upper_text(exch@),
                text::upper_text(prefix@),
                list_view(r),
            ),
    {
        let p = text::uppercase(prefix);
        let x = text::uppercase(exch);
        let own = self.own_expiries(x.as_str(), p.as_str());
        let v = own.keys();
        proof {
            if v@.len() > 0 {
                assert(text::views(v@).contains(text::views(v@)[0]));
                assert(own_expiry(self@.options, x@, p@, text::views(v@)[0]));
            } else {
                assert forall|e: Seq<char>| !own_expiry(self@.options, x@, p@, e) by {
                    assert(text::views(v@).contains(e) == own@.contains_key(e));
                    assert(!text::views(v@).contains(e));
                }
            }
        }
        if v.len() > 0 {
            return Some(v);
        }
        let has = match self.has_options(p.as_str(), exch) {
            Some(b) => b,
            None => false,
        };
        if has {
            return None;
        }
        let cross = self.cross_expiries(p.as_str());
        let w = cross.keys();
        proof {
            if w@.len() > 0 {
                assert(text::views(w@).contains(text::views(w@)[0]));
                assert(cross_expiry(self@.options, p@, text::views(w@)[0]));
            } else {
                assert forall|e: Seq<char>| !cross_expiry(self@.options, p@, e) by {
                    assert(text::views(w@).contains(e) == cross@.contains_key(e));
                    assert(!text::views(w@).contains(e));
                }
            }
        }
        if w.len() > 0 {
            return Some(w);
        }
        let fut = self.fut_expiries(p.as_str());
        let u = fut.keys();
        proof {
            if u@.len() > 0 {
                assert(text::views(u@).contains(text::views(u@)[0]));
                assert(fut_expiry(self@.ladder, p@, text::views(u@)[0]));
            } else {
                assert forall|e: Seq<char>| !fut_expiry(self@.ladder, p@, e) by {
                    assert(text::views(u@).contains(e) == fut@.contains_key(e));
                    assert(!text::views(u@).contains(e));
                }
            }
        }
        if u.len() == 0 {
            None
        } else {
            Some(u)
        }
    }
}

/// The future belongs to the prefix and instrument, and to the exchange where
/// one is asked for.
pub open spec fn fut_of(
    f: FutV,
    prefix: Seq<char>,
    inst: Seq<char>,
    exch: Option<Seq<char>>,
) -> bool {
    f.prefix == prefix && f.instrument == inst && (exch is Some ==> f.exchange == exch->0)
}

/// Places of the matching rows among the first `n` futures, in order.
pub open spec fn fut_places(
    futures: Seq<FutV>,
    prefix: Seq<char>,
    inst: Seq<char>,
    exch: Option<Seq<char>>,
    n: int,
) -> Seq<int>
    decreases n,
{
    if n <= 0 {
        seq![]
    } else {
        let front = fut_places(futures, prefix, inst, exch, n - 1);
        if fut_of(futures[n - 1], prefix, inst, exch) {
            front.push(n - 1)
        } else {
            front
        }
    }
}

/// The rows of a prefix and instrument on the exchange, or on every exchange
/// where that one has none.
pub open spec fn fut_rows(
    futures: Seq<FutV>,
    prefix: Seq<char>,
    inst: Seq<char>,
    exch: Seq<char>,
) -> Seq<int> {
    let n = futures.len() as int;
    let own = fut_places(futures, prefix, inst, Some(exch), n);
    if own.len() > 0 {
        own
    } else {
        fut_places(futures, prefix, inst, None, n)
    }
}

/// The first of the rows `at[k..]` with the expiry; the length where there is none.
pub open spec fn first_with_expiry(
    futures: Seq<FutV>,
    at: Seq<int>,
    expiry: Seq<char>,
    k: int,
) -> int
    decreases at.len() - k,
{
    if k >= at.len() || futures[at[k]].expiry == expiry {
        k
    } else {
        first_with_expiry(futures, at, expiry, k + 1)
    }
}

/// The first among the rows `at[..k]` nearest to the day; minus one where none
/// is dated.
pub open spec fn nearest_row_to(futures: Seq<FutV>, at: Seq<int>, day: i64, k: int) -> int
    decreases k,
{
    if k <= 0 {
        -1
    } else {
        let b = nearest_row_to(futures, at, day, k - 1);
        let f = futures[at[k - 1]];
        if f.day is Some && (b < 0 || gap(f.day->0, day) < gap(futures[at[b]].day->0, day)) {
            k - 1
        } else {
            b
        }
    }
}

/// The row picked for an expiry: the exact one, else the nearest dated one,
/// else the first; `None` of no rows.
pub open spec fn picked(
    futures: Seq<FutV>,
    at: Seq<int>,
    expiry: Seq<char>,
    day: Option<i64>,
) -> Option<int> {
    let e = first_with_expiry(futures, at, expiry, 0);
    let b = if day is Some {
        nearest_row_to(futures, at, day->0, at.len() as int)
    } else {
        -1
    };
    if at.len() == 0 {
        None
    } else if expiry.len() > 0 && e < at.len() {
        Some(at[e])
    } else if expiry.len() > 0 && b >= 0 {
        Some(at[b])
    } else {
        Some(at[0])
    }
}

/// The places of a list of indices.
pub open spec fn places(v: Seq<usize>) -> Seq<int> {
    Seq::new(v.len(), |i: int| v[i] as int)
}

/// Every place is one of the first `n`.
pub open spec fn within(at: Seq<int>, n: int) -> bool {
    forall|i: int| 0 <= i < at.len() ==> 0 <= #[trigger] at[i] < n
}

proof fn lemma_places_within(
    futures: Seq<FutV>,
    prefix: Seq<char>,
    inst: Seq<char>,
    exch: Option<Seq<char>>,
    n: int,
)
    requires
        0 <= n <= futures.len(),
    ensures
        within(fut_places(futures, prefix, inst, exch, n), n),
        forall|i: int|
            0 <= i < fut_places(futures, prefix, inst, exch, n).len() ==> fut_of(
                futures[#[trigger] fut_places(futures, prefix, inst, exch, n)[i]],
                prefix,
                inst,
                exch,
            ),
    decreases n,
{
    if n > 0 {
        lemma_places_within(futures, prefix, inst, exch, n - 1);
    }
}

/// A contract lot: curated in tenths, or as the master lists it.
#[derive(Clone, Copy, Debug, PartialEq, Eq, Structural)]
pub enum LotSize {
    Curated { tenths: i64 },
    Listed(Num),
}

/// The lot of a symbol: the curated one where there is one.
pub open spec fn lot_size(symbol: Seq<char>, lot: Num) -> LotSize {
    let t = scrip::lot_tenths_by(text::upper_text(symbol));
    if t > 0 {
        LotSize::Curated { tenths: t as i64 }
    } else {
        LotSize::Listed(lot)
    }
}

fn lot_size_of(symbol: &str, lot: Num) -> (r: LotSize)
    ensures
        r == lot_size(symbol@, lot),
{
    let t: i64 = scrip::mcx_lot_override(symbol);
    if t > 0 {
        LotSize::Curated { tenths: t }
    } else {
        LotSize::Listed(lot)
    }
}

impl Scrip {
    fn rows_of(&self, prefix: &str, inst: &str, exch: Option<&str>) -> (r: Vec<usize>)
        ensures
            places(r@) == fut_places(
                self@.futures,
                prefix@,
                inst@,
                crate::gate::str_view(exch),
                self@.futures.len() as int,
            ),
            within(places(r@), self@.futures.len() as int),
    {
        let mut out: Vec<usize> = Vec::new();
        let mut i: usize = 0;
        let ghost ex = crate::gate::str_view(exch);
        proof {
            assert(places(out@) =~= seq![]);
        }
        while i < self.futures.len()
            invariant
                i <= self.futures.len(),
                ex == crate::gate::str_view(exch),
                places(out@) == fut_places(self@.futures, prefix@, inst@, ex, i as int),
            decreases self.futures.len() - i,
        {
            let f = &self.futures[i];
            proof {
                assert(self@.futures[i as int] == f@);
            }
            let there = match exch {
                Some(x) => text::same(f.exchange.as_str(), x),
                None => true,
            };
            if there && text::same(f.prefix.as_str(), prefix) && text::same(
                f.instrument.as_str(),
                inst,
            ) {
                let ghost was = out@;
                out.push(i);
                proof {
                    assert(places(out@) =~= places(was).push(i as int));
                }
            }
            i += 1;
        }
        proof {
            lemma_places_within(
                self@.futures,
                prefix@,
                inst@,
                ex,
                self@.futures.len() as int,
            );
        }
        out
    }

    fn rows_on(&self, prefix: &str, inst: &str, exch: &str) -> (r: Vec<usize>)
        ensures
            places(r@) == fut_rows(self@.futures, prefix@, inst@, exch@),
            within(places(r@), self@.futures.len() as int),
    {
        let own = self.rows_of(prefix, inst, Some(exch));
        proof {
            assert(places(own@).len() == own@.len());
        }
        if own.len() > 0 {
            own
        } else {
            self.rows_of(prefix, inst, None)
        }
    }

    /// The row picked for an expiry.
    fn pick_fut_row(&self, at: &Vec<usize>, expiry: &str, day: Option<i64>) -> (r: Option<usize>)
        requires
            within(places(at@), self@.futures.len() as int),
        ensures
            match r {
                Some(i) => i < self@.futures.len() && picked(
                    self@.futures,
                    places(at@),
                    expiry@,
                    day,
                ) == Some(i as int),
                None => picked(self@.futures, places(at@), expiry@, day) is None,
            },
    {
        let ghost pl = places(at@);
        let ghost fv = self@.futures;
        proof {
            assert(fv.len() == self.futures@.len());
            assert(forall|i: int| 0 <= i < at@.len() ==> pl[i] == #[trigger] at@[i]);
        }
        if at.len() == 0 {
            return None;
        }
        let exp = expiry;
        if !exp.is_empty() {
            let mut k: usize = 0;
            while k < at.len()
                invariant
                    k <= at.len(),
                    pl == places(at@),
                    fv == self@.futures,
                    fv.len() == self.futures@.len(),
                    within(pl, fv.len() as int),
                    at@.len() > 0,
                    exp@ == expiry@,
                    exp@.len() > 0,
                    first_with_expiry(fv, pl, exp@, 0) == first_with_expiry(
                        fv,
                        pl,
                        exp@,
                        k as int,
                    ),
                decreases at.len() - k,
            {
                proof {
                    assert(pl[k as int] == at@[k as int]);
                    assert(fv[pl[k as int]] == self.futures@[at@[k as int] as int]@);
                }
                if text::same(self.futures[at[k]].expiry.as_str(), exp) {
                    return Some(at[k]);
                }
                k += 1;
            }
            if let Some(req) = day {
                let mut best: Option<(usize, i128)> = None;
                let mut j: usize = 0;
                while j < at.len()
                    invariant
                        j <= at.len(),
                        pl == places(at@),
                        fv == self@.futures,
                        fv.len() == self.futures@.len(),
                        within(pl, fv.len() as int),
                        match best {
                            Some((b, g)) => b < j && b == nearest_row_to(fv, pl, req, j as int)
                                && fv[pl[b as int]].day is Some && g == gap(
                                fv[pl[b as int]].day->0,
                                req,
                            ),
                            None => nearest_row_to(fv, pl, req, j as int) == -1,
                        },
                    decreases at.len() - j,
                {
                    proof {
                        assert(pl[j as int] == at@[j as int]);
                        assert(fv[pl[j as int]] == self.futures@[at@[j as int] as int]@);
                    }
                    if let Some(d) = self.futures[at[j]].day {
                        let g: i128 = day_gap(d, req);
                        let better = match best {
                            Some((_, bg)) => g < bg,
                            None => true,
                        };
                        if better {
                            best = Some((j, g));
                        }
                    }
                    j += 1;
                }
                if let Some((b, _)) = best {
                    proof {
                        assert(pl[b as int] == at@[b as int]);
                    }
                    return Some(at[b]);
                }
            }
        }
        proof {
            assert(pl[0] == at@[0]);
        }
        Some(at[0])
    }
}

/// The derivative segment of an exchange's equities.
pub open spec fn equity_fno(exch: Seq<char>) -> Seq<char> {
    if exch == "BSE"@ {
        "BSE_FNO"@
    } else {
        "NSE_FNO"@
    }
}

/// The segment already names a derivative.
pub open spec fn derivative_segment(seg: Seq<char>) -> bool {
    seg == "NSE_FNO"@ || seg == "BSE_FNO"@ || seg == "MCX_COMM"@ || seg == "NCD_FNO"@
}

/// The derivative underlying of an instrument, segment in upper case: an index
/// whose derivatives trade on the other exchange gets its future there, an
/// equity its stock or index future, everything else stays as it is.
pub open spec fn fno_target(
    futures: Seq<FutV>,
    prefix: Seq<char>,
    id: i64,
    seg: Seq<char>,
    expiry: Seq<char>,
    day: Option<i64>,
) -> (i64, Seq<char>) {
    let n = futures.len() as int;
    let bse = picked(futures, fut_places(futures, prefix, "FUTIDX"@, Some("BSE"@), n), expiry, day);
    let exch = scrip::exch_by(text::upper_text(seg));
    let stk = picked(futures, fut_rows(futures, prefix, "FUTSTK"@, exch), expiry, day);
    let idx = picked(futures, fut_rows(futures, prefix, "FUTIDX"@, exch), expiry, day);
    if seg == "IDX_I"@ {
        if bse is Some {
            (futures[bse->0].security_id, "BSE_FNO"@)
        } else {
            (id, seg)
        }
    } else if derivative_segment(seg) {
        (id, seg)
    } else if stk is Some {
        (futures[stk->0].security_id, equity_fno(exch))
    } else if idx is Some {
        (futures[idx->0].security_id, equity_fno(exch))
    } else {
        (id, seg)
    }
}

/// Whether the master carries the expiry for an equity's derivative, segment in
/// upper case; everything but equities is exempt, and where it lists no option
/// of the prefix a foreign date passes too.
pub open spec fn expiry_known(
    m: ScripV,
    prefix: Seq<char>,
    prefix_upper: Seq<char>,
    seg: Seq<char>,
    expiry: Seq<char>,
) -> bool {
    let exch = scrip::exch_by(text::upper_text(seg));
    let stk = fut_rows(m.futures, prefix_upper, "FUTSTK"@, exch);
    let idx = fut_rows(m.futures, prefix_upper, "FUTIDX"@, exch);
    let rows = if stk.len() > 0 {
        stk
    } else {
        idx
    };
    if !(seg == "NSE_EQ"@ || seg == "BSE_EQ"@) || m.futures.len() == 0 || prefix.len() == 0
        || rows.len() == 0 {
        true
    } else {
        first_with_expiry(m.futures, rows, expiry, 0) < rows.len() || carries(
            m.options,
            prefix_upper,
            exch,
        ) != Some(true)
    }
}

impl Scrip {
    /// The derivative underlying (id and segment) an option-chain request names.
    /// `day` is the day number of the expiry.
    pub fn resolve_underlying(
        &self,
        symbol_name: &str,
        security_id: i64,
        segment: &str,
        expiry: &str,
        day: Option<i64>,
    ) -> (r: (i64, String))
        ensures
            (r.0, r.1@) == fno_target(
                self@.futures,
                text::upper_text(scrip::underlying(symbol_name@)),
                security_id,
                text::upper_text(segment@),
                text::head(expiry@, 10),
                day,
            ),
    {
        let seg = text::uppercase(segment);
        let name = scrip::fno_underlying(symbol_name);
        let prefix = text::uppercase(name.as_str());
        let exp = scrip::normalize_expiry(expiry);
        if text::same(seg.as_str(), "IDX_I") {
            let rows = self.rows_of(prefix.as_str(), "FUTIDX", Some("BSE"));
            if let Some(i) = self.pick_fut_row(&rows, exp.as_str(), day) {
                proof {
                    assert(self@.futures[i as int] == self.futures@[i as int]@);
                }
                return (self.futures[i].security_id, "BSE_FNO".to_owned());
            }
            return (security_id, seg);
        }
        if text::one_of(seg.as_str(), "NSE_FNO", "BSE_FNO") || text::one_of(
            seg.as_str(),
            "MCX_COMM",
            "NCD_FNO",
        ) {
            return (security_id, seg);
        }
        let exch = scrip::scrip_exch(seg.as_str());
        let target = if text::same(exch, "BSE") {
            "BSE_FNO"
        } else {
            "NSE_FNO"
        };
        let stk = self.rows_on(prefix.as_str(), "FUTSTK", exch);
        if let Some(i) = self.pick_fut_row(&stk, exp.as_str(), day) {
            proof {
                assert(self@.futures[i as int] == self.futures@[i as int]@);
            }
            return (self.futures[i].security_id, target.to_owned());
        }
        let idx = self.rows_on(prefix.as_str(), "FUTIDX", exch);
        if let Some(i) = self.pick_fut_row(&idx, exp.as_str(), day) {
            proof {
                assert(self@.futures[i as int] == self.futures@[i as int]@);
            }
            return (self.futures[i].security_id, target.to_owned());
        }
        (security_id, seg)
    }

    fn any_expiry(&self, at: &Vec<usize>, expiry: &str) -> (r: bool)
        requires
            within(places(at@), self@.futures.len() as int),
        ensures
            r == (first_with_expiry(self@.futures, places(at@), expiry@, 0) < at@.len()),
    {
        let ghost pl = places(at@);
        let ghost fv = self@.futures;
        let mut k: usize = 0;
        while k < at.len()
            invariant
                k <= at.len(),
                pl == places(at@),
                fv == self@.futures,
                fv.len() == self.futures@.len(),
                within(pl, fv.len() as int),
                first_with_expiry(fv, pl, expiry@, 0) == first_with_expiry(
                    fv,
                    pl,
                    expiry@,
                    k as int,
                ),
            decreases at.len() - k,
        {
            proof {
                assert(pl[k as int] == at@[k as int]);
                assert(fv[pl[k as int]] == self.futures@[at@[k as int] as int]@);
            }
            if text::same(self.futures[at[k]].expiry.as_str(), expiry) {
                return true;
            }
            k += 1;
        }
        false
    }

    /// Whether the master carries the asked expiry for an equity's derivative.
    pub fn expiry_matches_underlying(
        &self,
        symbol_name: &str,
        segment: &str,
        expiry: &str,
    ) -> (r: bool)
        ensures
            r == expiry_known(
                self@,
                scrip::underlying(symbol_name@),
                text::upper_text(scrip::underlying(symbol_name@)),
                text::upper_text(segment@),
                text::head(expiry@, 10),
            ),
    {
        let seg = text::uppercase(segment);
        proof {
            assert(self@.futures.len() == self.futures@.len());
        }
        if !text::one_of(seg.as_str(), "NSE_EQ", "BSE_EQ") || self.futures.len() == 0 {
            return true;
        }
        let name = scrip::fno_underlying(symbol_name);
        if name.as_str().is_empty() {
            return true;
        }
        let prefix = text::uppercase(name.as_str());
        let exch = scrip::scrip_exch(seg.as_str());
        let exp = scrip::normalize_expiry(expiry);
        let stk = self.rows_on(prefix.as_str(), "FUTSTK", exch);
        let idx = self.rows_on(prefix.as_str(), "FUTIDX", exch);
        proof {
            assert(places(stk@).len() == stk@.len());
            assert(places(idx@).len() == idx@.len());
        }
        let rows = if stk.len() > 0 {
            stk
        } else {
            idx
        };
        if rows.len() == 0 {
            return true;
        }
        if self.any_expiry(&rows, exp.as_str()) {
            return true;
        }
        let has = match self.has_options(name.as_str(), exch) {
            Some(b) => b,
            None => false,
        };
        !has
    }
}

/// The first row of a list lists a positive lot.
pub open spec fn lot_leads(futures: Seq<FutV>, at: Seq<int>) -> bool {
    at.len() > 0 && futures[at[0]].lot.positive()
}

/// Lot and symbol of a futures row; a row without a symbol goes by the prefix.
pub open spec fn lot_and_symbol(f: FutV, prefix: Seq<char>) -> (LotSize, Seq<char>) {
    (
        lot_size(f.symbol, f.lot),
        if f.symbol.len() == 0 {
            prefix
        } else {
            f.symbol
        },
    )
}

/// Contract lot and trading symbol of an underlying: index, stock and commodity
/// futures are asked in turn, the first row of each decides.
pub open spec fn lot_of(
    futures: Seq<FutV>,
    prefix: Seq<char>,
    prefix_upper: Seq<char>,
    exch: Seq<char>,
) -> Option<(LotSize, Seq<char>)> {
    let idx = fut_rows(futures, prefix_upper, "FUTIDX"@, exch);
    let stk = fut_rows(futures, prefix_upper, "FUTSTK"@, exch);
    let com = fut_rows(futures, prefix_upper, "FUTCOM"@, exch);
    if prefix.len() == 0 {
        None
    } else if lot_leads(futures, idx) {
        Some(lot_and_symbol(futures[idx[0]], prefix))
    } else if lot_leads(futures, stk) {
        Some(lot_and_symbol(futures[stk[0]], prefix))
    } else if lot_leads(futures, com) {
        Some(lot_and_symbol(futures[com[0]], prefix))
    } else {
        None
    }
}

/// The lot the futures of a prefix list, whatever the exchange.
pub open spec fn prefix_lot(futures: Seq<FutV>, prefix: Seq<char>) -> Option<LotSize> {
    let n = futures.len() as int;
    let idx = fut_places(futures, prefix, "FUTIDX"@, None, n);
    let stk = fut_places(futures, prefix, "FUTSTK"@, None, n);
    let com = fut_places(futures, prefix, "FUTCOM"@, None, n);
    if lot_leads(futures, idx) {
        Some(lot_size(futures[idx[0]].symbol, futures[idx[0]].lot))
    } else if lot_leads(futures, stk) {
        Some(lot_size(futures[stk[0]].symbol, futures[stk[0]].lot))
    } else if lot_leads(futures, com) {
        Some(lot_size(futures[com[0]].symbol, futures[com[0]].lot))
    } else {
        None
    }
}

/// The names the indices go by on screen, with their prefixes.
pub open spec fn index_names() -> Seq<(Seq<char>, Seq<char>)> {
    seq![
        ("NIFTY 50"@, "NIFTY"@),
        ("BANK NIFTY"@, "BANKNIFTY"@),
        ("FINNIFTY"@, "FINNIFTY"@),
        ("SENSEX"@, "SENSEX"@),
        ("MIDCPNIFTY"@, "MIDCPNIFTY"@),
        ("GIFT NIFTY"@, "GIFTNIFTY"@),
    ]
}

/// The lots of the first `n` named indices.
pub open spec fn named_lots(by_prefix: Map<Seq<char>, LotSize>, n: int) -> Map<Seq<char>, LotSize>
    decreases n,
{
    if n <= 0 {
        Map::empty()
    } else {
        let front = named_lots(by_prefix, n - 1);
        let (name, prefix) = index_names()[n - 1];
        if by_prefix.contains_key(prefix) {
            front.insert(name, by_prefix[prefix])
        } else {
            front
        }
    }
}

impl Scrip {
    fn leading_lot(&self, at: &Vec<usize>) -> (r: bool)
        requires
            within(places(at@), self@.futures.len() as int),
        ensures
            r == lot_leads(self@.futures, places(at@)),
    {
        proof {
            assert(places(at@).len() == at@.len());
        }
        if at.len() == 0 {
            return false;
        }
        proof {
            assert(places(at@)[0] == at@[0]);
            assert(self@.futures[at@[0] as int] == self.futures@[at@[0] as int]@);
        }
        self.futures[at[0]].lot.is_positive()
    }

    fn row_lot(&self, i: usize, prefix: &str) -> (r: (LotSize, String))
        requires
            i < self@.futures.len(),
        ensures
            (r.0, r.1@) == lot_and_symbol(self@.futures[i as int], prefix@),
    {
        let f = &self.futures[i];
        proof {
            assert(self@.futures[i as int] == f@);
        }
        let lot = lot_size_of(f.trading_symbol.as_str(), f.lot);
        if f.trading_symbol.as_str().is_empty() {
            (lot, prefix.to_owned())
        } else {
            (lot, f.trading_symbol.clone())
        }
    }

    /// Contract lot and trading symbol of an underlying.
    pub fn lot_for(&self, symbol_name: &str, segment: &str) -> (r: Option<(LotSize, String)>)
        ensures
            (match r {
                Some((a, b)) => Some((a, b@)),
                None => None,
            }) == lot_of(
                self@.futures,
                scrip::underlying(symbol_name@),
                text::upper_text(scrip::underlying(symbol_name@)),
                scrip::exch_by(text::upper_text(segment@)),
            ),
    {
        let name = scrip::fno_underlying(symbol_name);
        if name.as_str().is_empty() {
            return None;
        }
        let prefix = text::uppercase(name.as_str());
        let exch = scrip::scrip_exch(segment);
        let idx = self.rows_on(prefix.as_str(), "FUTIDX", exch);
        if self.leading_lot(&idx) {
            proof {
                assert(places(idx@)[0] == idx@[0]);
            }
            return Some(self.row_lot(idx[0], name.as_str()));
        }
        let stk = self.rows_on(prefix.as_str(), "FUTSTK", exch);
        if self.leading_lot(&stk) {
            proof {
                assert(places(stk@)[0] == stk@[0]);
            }
            return Some(self.row_lot(stk[0], name.as_str()));
        }
        let com = self.rows_on(prefix.as_str(), "FUTCOM", exch);
        if self.leading_lot(&com) {
            proof {
                assert(places(com@)[0] == com@[0]);
            }
            return Some(self.row_lot(com[0], name.as_str()));
        }
        None
    }

    fn lot_of_prefix(&self, prefix: &str) -> (r: Option<LotSize>)
        ensures
            r == prefix_lot(self@.futures, prefix@),
    {
        let idx = self.rows_of(prefix, "FUTIDX", None);
        if self.leading_lot(&idx) {
            proof {
                assert(places(idx@)[0] == idx@[0]);
            }
            let (l, _) = self.row_lot(idx[0], prefix);
            return Some(l);
        }
        let stk = self.rows_of(prefix, "FUTSTK", None);
        if self.leading_lot(&stk) {
            proof {
                assert(places(stk@)[0] == stk@[0]);
            }
            let (l, _) = self.row_lot(stk[0], prefix);
            return Some(l);
        }
        let com = self.rows_of(prefix, "FUTCOM", None);
        if self.leading_lot(&com) {
            proof {
                assert(places(com@)[0] == com@[0]);
            }
            let (l, _) = self.row_lot(com[0], prefix);
            return Some(l);
        }
        None
    }

    /// Lots by prefix, and by the names the indices go by on screen.
    pub fn lot_map(&self) -> (r: (TextMap<LotSize>, TextMap<LotSize>))
        ensures
            forall|p: Seq<char>| #[trigger]
                (r.0)@.contains_key(p) == prefix_lot(self@.futures, p) is Some,
            forall|p: Seq<char>| #[trigger]
                (r.0)@.contains_key(p) ==> (r.0)@[p] == prefix_lot(self@.futures, p)->0,
            (r.1)@ == named_lots((r.0)@, 6),
    {
        let mut by_prefix: TextMap<LotSize> = TextMap::new();
        let mut i: usize = 0;
        let ghost fv = self@.futures;
        while i < self.futures.len()
            invariant
                i <= self.futures.len(),
                fv == self@.futures,
                fv.len() == self.futures@.len(),
                forall|p: Seq<char>| #[trigger]
                    by_prefix@.contains_key(p) ==> prefix_lot(fv, p) is Some && by_prefix@[p]
                        == prefix_lot(fv, p)->0,
                forall|j: int|
                    0 <= j < i && prefix_lot(fv, (#[trigger] fv[j]).prefix) is Some
                        ==> by_prefix@.contains_key(fv[j].prefix),
            decreases self.futures.len() - i,
        {
            let p = self.futures[i].prefix.as_str();
            proof {
                assert(fv[i as int] == self.futures@[i as int]@);
            }
            if let Some(l) = self.lot_of_prefix(p) {
                by_prefix.insert(p.to_owned(), l);
            }
            i += 1;
        }
        proof {
            assert forall|p: Seq<char>| #[trigger]
                by_prefix@.contains_key(p) == prefix_lot(fv, p) is Some by {
                if prefix_lot(fv, p) is Some {
                    let n = fv.len() as int;
                    lemma_places_within(fv, p, "FUTIDX"@, None, n);
                    lemma_places_within(fv, p, "FUTSTK"@, None, n);
                    lemma_places_within(fv, p, "FUTCOM"@, None, n);
                    let idx = fut_places(fv, p, "FUTIDX"@, None, n);
                    let stk = fut_places(fv, p, "FUTSTK"@, None, n);
                    let com = fut_places(fv, p, "FUTCOM"@, None, n);
                    if lot_leads(fv, idx) {
                        assert(fv[idx[0]].prefix == p);
                    } else if lot_leads(fv, stk) {
                        assert(fv[stk[0]].prefix == p);
                    } else {
                        assert(fv[com[0]].prefix == p);
                    }
                }
            }
        }
        let mut by_name: TextMap<LotSize> = TextMap::new();
        proof {
            reveal_with_fuel(named_lots, 7);
        }
        if let Some(l) = by_prefix.get("NIFTY") {
            by_name.insert("NIFTY 50".to_owned(), *l);
        }
        if let Some(l) = by_prefix.get("BANKNIFTY") {
            by_name.insert("BANK NIFTY".to_owned(), *l);
        }
        if let Some(l) = by_prefix.get("FINNIFTY") {
            by_name.insert("FINNIFTY".to_owned(), *l);
        }
        if let Some(l) = by_prefix.get("SENSEX") {
            by_name.insert("SENSEX".to_owned(), *l);
        }
        if let Some(l) = by_prefix.get("MIDCPNIFTY") {
            by_name.insert("MIDCPNIFTY".to_owned(), *l);
        }
        if let Some(l) = by_prefix.get("GIFTNIFTY") {
            by_name.insert("GIFT NIFTY".to_owned(), *l);
        }
        (by_prefix, by_name)
    }
}

/// One tradeable near-month commodity future.
#[derive(Debug)]
pub struct CommodityRow {
    pub name: String,
    pub trading_symbol: String,
    pub security_id: i64,
    pub lot: LotSize,
    pub expiry: String,
    pub has_options: bool,
}

/// The first of the earliest expiries among the rows `at[..k]`, of those from
/// the day on where one is asked for; minus one where there is none.
pub open spec fn earliest(futures: Seq<FutV>, at: Seq<int>, from: Option<i64>, k: int) -> int
    decreases k,
{
    if k <= 0 {
        -1
    } else {
        let b = earliest(futures, at, from, k - 1);
        let f = futures[at[k - 1]];
        if (from is Some ==> f.day is Some && f.day->0 >= from->0) && (b < 0 || text::below(
            f.expiry,
            futures[at[b]].expiry,
        )) {
            k - 1
        } else {
            b
        }
    }
}

/// The near-month row of a commodity: the earliest expiry from today on, else
/// the earliest of all; `None` where the commodity exchange lists none.
pub open spec fn near_month(futures: Seq<FutV>, prefix: Seq<char>, today: i64) -> Option<int> {
    let at = fut_places(futures, prefix, "FUTCOM"@, Some("MCX"@), futures.len() as int);
    let live = earliest(futures, at, Some(today), at.len() as int);
    let any = earliest(futures, at, None, at.len() as int);
    if live >= 0 {
        Some(at[live])
    } else if any >= 0 {
        Some(at[any])
    } else {
        None
    }
}

/// The row describes the near-month future of its name.
pub open spec fn commodity_ok(m: ScripV, today: i64, c: CommodityRow) -> bool {
    near_month(m.futures, c.name@, today) is Some && {
        let f = m.futures[near_month(m.futures, c.name@, today)->0];
        &&& c.trading_symbol@ == f.symbol
        &&& c.security_id == f.security_id
        &&& c.lot == lot_size(f.symbol, f.lot)
        &&& c.expiry@ == f.expiry
        &&& c.has_options == (carries(m.options, text::upper_text(c.name@), "MCX"@) == Some(true))
    }
}

/// The names of a list of commodities.
pub open spec fn commodity_names(v: Seq<CommodityRow>) -> Seq<Seq<char>> {
    Seq::new(v.len(), |i: int| v[i].name@)
}

impl Scrip {
    fn earliest_of(&self, at: &Vec<usize>, from: Option<i64>) -> (r: Option<usize>)
        requires
            within(places(at@), self@.futures.len() as int),
        ensures
            match r {
                Some(b) => b < at@.len() && b == earliest(
                    self@.futures,
                    places(at@),
                    from,
                    at@.len() as int,
                ),
                None => earliest(self@.futures, places(at@), from, at@.len() as int) == -1,
            },
    {
        let ghost pl = places(at@);
        let ghost fv = self@.futures;
        let mut best: Option<usize> = None;
        let mut j: usize = 0;
        while j < at.len()
            invariant
                j <= at.len(),
                pl == places(at@),
                fv == self@.futures,
                fv.len() == self.futures@.len(),
                within(pl, fv.len() as int),
                match best {
                    Some(b) => b < j && b == earliest(fv, pl, from, j as int),
                    None => earliest(fv, pl, from, j as int) == -1,
                },
            decreases at.len() - j,
        {
            proof {
                assert(pl[j as int] == at@[j as int]);
            }
            let f = &self.futures[at[j]];
            proof {
                assert(fv[pl[j as int]] == f@);
            }
            let live = match from {
                Some(t) => match f.day {
                    Some(d) => d >= t,
                    None => false,
                },
                None => true,
            };
            let sooner = match best {
                Some(b) => {
                    proof {
                        assert(pl[b as int] == at@[b as int]);
                        assert(fv[pl[b as int]] == self.futures@[at@[b as int] as int]@);
                    }
                    text::text_below(f.expiry.as_str(), self.futures[at[b]].expiry.as_str())
                },
                None => true,
            };
            if live && sooner {
                best = Some(j);
            }
            j += 1;
        }
        best
    }

    fn near_month_of(&self, prefix: &str, today: i64) -> (r: Option<usize>)
        ensures
            match r {
                Some(i) => i < self@.futures.len() && near_month(self@.futures, prefix@, today)
                    == Some(i as int),
                None => near_month(self@.futures, prefix@, today) is None,
            },
    {
        let at = self.rows_of(prefix, "FUTCOM", Some("MCX"));
        proof {
            assert(places(at@).len() == at@.len());
        }
        if let Some(b) = self.earliest_of(&at, Some(today)) {
            proof {
                assert(places(at@)[b as int] == at@[b as int]);
            }
            return Some(at[b]);
        }
        match self.earliest_of(&at, None) {
            Some(b) => {
                proof {
                    assert(places(at@)[b as int] == at@[b as int]);
                }
                Some(at[b])
            },
            None => None,
        }
    }

    /// The near-month future of every commodity, by name.
    pub fn commodity_futures(&self, today: i64) -> (r: Vec<CommodityRow>)
        ensures
            text::rising(commodity_names(r@)),
            forall|i: int| 0 <= i < r@.len() ==> commodity_ok(self@, today, #[trigger] r@[i]),
            forall|p: Seq<char>| #[trigger]
                commodity_names(r@).contains(p) == near_month(self@.futures, p, today) is Some,
    {
        let mut names: TextMap<bool> = TextMap::new();
        let ghost fv = self@.futures;
        let mut i: usize = 0;
        while i < self.futures.len()
            invariant
                i <= self.futures.len(),
                fv == self@.futures,
                fv.len() == self.futures@.len(),
                forall|p: Seq<char>| #[trigger]
                    names@.contains_key(p) ==> near_month(fv, p, today) is Some,
                forall|j: int|
                    0 <= j < i && near_month(fv, (#[trigger] fv[j]).prefix, today) is Some
                        ==> names@.contains_key(fv[j].prefix),
            decreases self.futures.len() - i,
        {
            let p = self.futures[i].prefix.as_str();
            proof {
                assert(fv[i as int] == self.futures@[i as int]@);
            }
            if self.near_month_of(p, today).is_some() {
                names.insert(p.to_owned(), true);
            }
            i += 1;
        }
        proof {
            assert forall|p: Seq<char>| #[trigger]
                names@.contains_key(p) == near_month(fv, p, today) is Some by {
                if near_month(fv, p, today) is Some {
                    let n = fv.len() as int;
                    lemma_places_within(fv, p, "FUTCOM"@, Some("MCX"@), n);
                    let at = fut_places(fv, p, "FUTCOM"@, Some("MCX"@), n);
                    if at.len() > 0 {
                        assert(fv[at[0]].prefix == p);
                    } else {
                        assert(earliest(fv, at, Some(today), 0) == -1);
                        assert(earliest(fv, at, None, 0) == -1);
                    }
                }
            }
        }
        let keys = names.keys();
        let mut out: Vec<CommodityRow> = Vec::new();
        let mut k: usize = 0;
        while k < keys.len()
            invariant
                k <= keys.len(),
                fv == self@.futures,
                fv.len() == self.futures@.len(),
                forall|p: Seq<char>| #[trigger]
                    text::views(keys@).contains(p) == near_month(fv, p, today) is Some,
                out@.len() == k,
                forall|j: int| 0 <= j < k ==> (#[trigger] out@[j]).name@ == keys@[j]@,
                forall|j: int| 0 <= j < k ==> commodity_ok(self@, today, #[trigger] out@[j]),
            decreases keys.len() - k,
        {
            let p = keys[k].as_str();
            proof {
                assert(text::views(keys@)[k as int] == keys@[k as int]@);
                assert(text::views(keys@).contains(keys@[k as int]@));
            }
            if let Some(i) = self.near_month_of(p, today) {
                let f = &self.futures[i];
                proof {
                    assert(fv[i as int] == f@);
                }
                let has = match self.has_options(p, "MCX") {
                    Some(b) => b,
                    None => false,
                };
                out.push(
                    CommodityRow {
                        name: p.to_owned(),
                        trading_symbol: f.trading_symbol.clone(),
                        security_id: f.security_id,
                        lot: lot_size_of(f.trading_symbol.as_str(), f.lot),
                        expiry: f.expiry.clone(),
                        has_options: has,
                    },
                );
            }
            k += 1;
        }
        proof {
            assert(commodity_names(out@) =~= text::views(keys@));
        }
        out
    }

    /// The commodity future of an id: the first by name.
    pub fn commodity_by_id(&self, security_id: i64, today: i64) -> (r: Option<CommodityRow>)
        ensures
            match r {
                Some(c) => c.security_id == security_id && commodity_ok(self@, today, c)
                    && forall|p: Seq<char>|
                    #![trigger near_month(self@.futures, p, today)]
                    near_month(self@.futures, p, today) is Some && text::below(p, c.name@)
                        ==> self@.futures[near_month(self@.futures, p, today)->0].security_id
                        != security_id,
                None => forall|p: Seq<char>|
                    #![trigger near_month(self@.futures, p, today)]
                    near_month(self@.futures, p, today) is Some ==> self@.futures[near_month(
                        self@.futures,
                        p,
                        today,
                    )->0].security_id != security_id,
            },
    {
        let mut rows = self.commodity_futures(today);
        let ghost all = rows@;
        let ghost names = commodity_names(all);
        let mut i: usize = 0;
        while i < rows.len()
            invariant
                i <= rows.len(),
                rows@ == all,
                forall|j: int| 0 <= j < i ==> (#[trigger] all[j]).security_id != security_id,
            ensures
                rows@ == all,
                i <= all.len(),
                forall|j: int| 0 <= j < i ==> (#[trigger] all[j]).security_id != security_id,
                i < all.len() ==> all[i as int].security_id == security_id,
            decreases rows.len() - i,
        {
            if rows[i].security_id == security_id {
                break;
            }
            i += 1;
        }
        proof {
            assert forall|p: Seq<char>|
                #![trigger near_month(self@.futures, p, today)]
                near_month(self@.futures, p, today) is Some && (i < all.len() ==> text::below(
                    p,
                    all[i as int].name@,
                )) implies self@.futures[near_month(self@.futures, p, today)->0].security_id
                != security_id by {
                assert(names.contains(p));
                let j = choose|j: int| 0 <= j < names.len() && names[j] == p;
                assert(all[j].name@ == p);
                if i < all.len() {
                    text::lemma_below_irreflexive(p);
                    if j > i {
                        assert(text::below(names[i as int], names[j]));
                        text::lemma_below_transitive(p, names[i as int], p);
                    }
                }
            }
        }
        if i < rows.len() {
            Some(rows.swap_remove(i))
        } else {
            None
        }
    }

    /// Lot, trading symbol and option listing of a commodity id.
    pub fn commodity_meta(&self, security_id: i64, today: i64) -> (r: Option<
        (LotSize, String, bool),
    >)
        ensures
            r is Some == (exists|p: Seq<char>|
                #![trigger near_month(self@.futures, p, today)]
                near_month(self@.futures, p, today) is Some && self@.futures[near_month(
                    self@.futures,
                    p,
                    today,
                )->0].security_id == security_id),
            r matches Some((lot, symbol, has)) ==> exists|c: CommodityRow| #[trigger]
                commodity_ok(self@, today, c) && c.security_id == security_id && c.lot == lot
                    && c.trading_symbol@ == symbol@ && c.has_options == has,
    {
        match self.commodity_by_id(security_id, today) {
            Some(c) => {
                proof {
                    assert(near_month(self@.futures, c.name@, today) is Some);
                    assert(commodity_ok(self@, today, c));
                }
                Some((c.lot, c.trading_symbol, c.has_options))
            },
            None => None,
        }
    }
}

/// Both legs of one strike.
#[derive(Debug)]
pub struct StrikeEntry {
    pub lot: Num,
    pub ce: Option<(i64, String)>,
    pub pe: Option<(i64, String)>,
}

/// The strikes rise.
pub open spec fn strikes_rise(v: Seq<(i64, StrikeEntry)>) -> bool {
    forall|i: int, j: int| 0 <= i < j < v.len() ==> (#[trigger] v[i]).0 < (#[trigger] v[j]).0
}

/// The leg of an entry is the one the master lists.
pub open spec fn leg_is(
    l: Option<(i64, String)>,
    listed: Option<(i64, Seq<char>, Num)>,
) -> bool {
    match (l, listed) {
        (Some((id, symbol)), Some((i, s, _))) => id == i && symbol@ == s,
        (None, None) => true,
        _ => false,
    }
}

/// Some option of the bucket has the strike.
pub open spec fn strike_listed(
    options: Seq<OptV>,
    exch: Seq<char>,
    prefix: Seq<char>,
    expiry: Seq<char>,
    cents: i64,
) -> bool {
    exists|i: int|
        0 <= i < options.len() && listed(#[trigger] options[i], exch, prefix, expiry, cents)
}

/// The entry of a strike is what the master lists under it.
pub open spec fn entry_is(
    options: Seq<OptV>,
    exch: Seq<char>,
    prefix: Seq<char>,
    expiry: Seq<char>,
    row: (i64, StrikeEntry),
) -> bool {
    let j = last_listed(options, exch, prefix, expiry, row.0, None, options.len() as int);
    &&& j >= 0
    &&& row.1.lot == options[j].lot
    &&& leg_is(row.1.ce, leg(options, exch, prefix, expiry, row.0, true))
    &&& leg_is(row.1.pe, leg(options, exch, prefix, expiry, row.0, false))
}

/// A strike that has an entry is listed.
pub proof fn lemma_entry_listed(
    options: Seq<OptV>,
    exch: Seq<char>,
    prefix: Seq<char>,
    expiry: Seq<char>,
    row: (i64, StrikeEntry),
)
    requires
        entry_is(options, exch, prefix, expiry, row),
    ensures
        strike_listed(options, exch, prefix, expiry, row.0),
{
    let n = options.len() as int;
    let j = last_listed(options, exch, prefix, expiry, row.0, None, n);
    lemma_last_listed(options, exch, prefix, expiry, row.0, None, n, j);
    assert(listed(options[j], exch, prefix, expiry, row.0));
}

impl Scrip {
    fn strikes_of(&self, exch: &str, prefix: &str, expiry: &str) -> (r: Vec<i64>)
        ensures
            forall|i: int, j: int| 0 <= i < j < r@.len() ==> #[trigger] r@[i] < #[trigger] r@[j],
            forall|c: i64| #[trigger]
                r@.contains(c) == strike_listed(self@.options, exch@, prefix@, expiry@, c),
    {
        let mut v: Vec<i64> = Vec::new();
        let mut n: usize = 0;
        while n < self.options.len()
            invariant
                n <= self.options.len(),
                forall|i: int, j: int|
                    0 <= i < j < v@.len() ==> #[trigger] v@[i] < #[trigger] v@[j],
                forall|c: i64| #[trigger]
                    v@.contains(c) == strike_listed(
                        self@.options.take(n as int),
                        exch@,
                        prefix@,
                        expiry@,
                        c,
                    ),
            decreases self.options.len() - n,
        {
            let o = &self.options[n];
            let ghost a = self@.options.take(n as int);
            let ghost b = self@.options.take(n + 1);
            let ghost before = v@;
            proof {
                assert(self@.options[n as int] == o@);
                assert(b =~= a.push(o@));
            }
            let hit = text::same(o.exchange.as_str(), exch) && text::same(
                o.prefix.as_str(),
                prefix,
            ) && text::same(o.expiry.as_str(), expiry);
            if hit {
                insert_rising(&mut v, o.cents);
            }
            proof {
                assert forall|c: i64| #[trigger]
                    v@.contains(c) == strike_listed(b, exch@, prefix@, expiry@, c) by {
                    assert(before.contains(c) == strike_listed(a, exch@, prefix@, expiry@, c));
                    if strike_listed(a, exch@, prefix@, expiry@, c) {
                        let j = choose|j: int|
                            0 <= j < a.len() && listed(
                                #[trigger] a[j],
                                exch@,
                                prefix@,
                                expiry@,
                                c,
                            );
                        assert(b[j] == a[j]);
                    }
                    if strike_listed(b, exch@, prefix@, expiry@, c) {
                        let j = choose|j: int|
                            0 <= j < b.len() && listed(
                                #[trigger] b[j],
                                exch@,
                                prefix@,
                                expiry@,
                                c,
                            );
                        if j < a.len() {
                            assert(a[j] == b[j]);
                        }
                    }
                    assert(b[n as int] == o@);
                }
            }
            n += 1;
        }
        proof {
            assert(self@.options.take(self@.options.len() as int) =~= self@.options);
        }
        v
    }

    /// The strikes of an exchange, prefix and expiry with their legs, rising;
    /// `None` where the bucket is not listed.
    pub fn bucket(&self, exch: &str, prefix: &str, expiry: &str) -> (r: Option<
        Vec<(i64, StrikeEntry)>,
    >)
        ensures
            ({
                let x = text::upper_text(exch@);
                let p = text::upper_text(prefix@);
                let e = text::head(expiry@, 10);
                match r {
                    Some(v) => v@.len() > 0 && strikes_rise(v@) && (forall|i: int|
                        0 <= i < v@.len() ==> entry_is(self@.options, x, p, e, #[trigger] v@[i]))
                        && (forall|c: i64| #[trigger]
                        strike_listed(self@.options, x, p, e, c) ==> exists|i: int|
                            0 <= i < v@.len() && (#[trigger] v@[i]).0 == c),
                    None => forall|c: i64| !#[trigger] strike_listed(self@.options, x, p, e, c),
                }
            }),
    {
        let x = text::uppercase(exch);
        let p = text::uppercase(prefix);
        let e = scrip::normalize_expiry(expiry);
        let strikes = self.strikes_of(x.as_str(), p.as_str(), e.as_str());
        let ghost ov = self@.options;
        proof {
            if strikes@.len() == 0 {
                assert forall|c: i64| !#[trigger] strike_listed(ov, x@, p@, e@, c) by {
                    assert(!strikes@.contains(c));
                }
            }
        }
        if strikes.len() == 0 {
            return None;
        }
        let mut out: Vec<(i64, StrikeEntry)> = Vec::new();
        let mut i: usize = 0;
        while i < strikes.len()
            invariant
                i <= strikes.len(),
                ov == self@.options,
                forall|c: i64| #[trigger]
                    strikes@.contains(c) == strike_listed(ov, x@, p@, e@, c),
                out@.len() == i,
                forall|j: int| 0 <= j < i ==> (#[trigger] out@[j]).0 == strikes@[j],
                forall|j: int| 0 <= j < i ==> entry_is(ov, x@, p@, e@, #[trigger] out@[j]),
            decreases strikes.len() - i,
        {
            let c: i64 = strikes[i];
            proof {
                assert(strikes@.contains(c));
                let k = choose|k: int|
                    0 <= k < ov.len() && listed(#[trigger] ov[k], x@, p@, e@, c);
                lemma_last_listed(ov, x@, p@, e@, c, None, ov.len() as int, k);
            }
            let ce = match self.leg_of(x.as_str(), p.as_str(), e.as_str(), c, true) {
                Some((id, s, _)) => Some((id, s)),
                None => None,
            };
            let pe = match self.leg_of(x.as_str(), p.as_str(), e.as_str(), c, false) {
                Some((id, s, _)) => Some((id, s)),
                None => None,
            };
            let lot = match self.last_row(x.as_str(), p.as_str(), e.as_str(), c, None) {
                Some(j) => {
                    proof {
                        assert(ov[j as int] == self.options@[j as int]@);
                    }
                    self.options[j].lot
                },
                None => Num::of(0),
            };
            out.push((c, StrikeEntry { lot, ce, pe }));
            i += 1;
        }
        proof {
            assert forall|c: i64| #[trigger] strike_listed(ov, x@, p@, e@, c) implies exists|i: int|
                0 <= i < out@.len() && (#[trigger] out@[i]).0 == c by {
                assert(strikes@.contains(c));
                let k = choose|k: int| 0 <= k < strikes@.len() && strikes@[k] == c;
                assert(out@[k].0 == c);
            }
        }
        Some(out)
    }
}

/// Adds a number to a rising list that does not hold it yet.
pub fn insert_rising(v: &mut Vec<i64>, c: i64)
    requires
        forall|i: int, j: int|
            0 <= i < j < old(v)@.len() ==> #[trigger] old(v)@[i] < #[trigger] old(v)@[j],
    ensures
        forall|i: int, j: int|
            0 <= i < j < final(v)@.len() ==> #[trigger] final(v)@[i] < #[trigger] final(v)@[j],
        forall|x: i64| #[trigger] final(v)@.contains(x) == (old(v)@.contains(x) || x == c),
{
    let mut k: usize = 0;
    while k < v.len() && v[k] < c
        invariant
            k <= v.len(),
            forall|j: int| 0 <= j < k ==> v@[j] < c,
            v@ == old(v)@,
        decreases v.len() - k,
    {
        k += 1;
    }
    if k < v.len() && v[k] == c {
        return ;
    }
    let ghost was = v@;
    v.insert(k, c);
    proof {
        assert forall|x: i64| #[trigger] v@.contains(x) == (was.contains(x) || x == c) by {
            if was.contains(x) {
                let j = choose|j: int| 0 <= j < was.len() && was[j] == x;
                if j < k {
                    assert(v@[j] == x);
                } else {
                    assert(v@[j + 1] == x);
                }
            }
            if x == c {
                assert(v@[k as int] == c);
            }
            if v@.contains(x) && x != c {
                let j = choose|j: int| 0 <= j < v@.len() && v@[j] == x;
                if j < k {
                    assert(was[j] == x);
                } else {
                    assert(was[j - 1] == x);
                }
            }
        }
    }
}

/// The option stands under the exchange, name, expiry, strike and type.
pub open spec fn is_leg(
    o: OptV,
    exch: Seq<char>,
    prefix: Seq<char>,
    expiry: Seq<char>,
    cents: i64,
    call: bool,
) -> bool {
    o.exchange == exch && o.prefix == prefix && o.expiry == expiry && o.cents == cents && o.call
        == call
}

/// The leg of a strike is the option listed last under it, with that option's id and
/// symbol; there is none exactly where nothing is listed under it. Its lot is that of
/// the strike's last line, whichever type that is.
pub proof fn law_leg_is_the_last_listed(
    options: Seq<OptV>,
    exch: Seq<char>,
    prefix: Seq<char>,
    expiry: Seq<char>,
    cents: i64,
    call: bool,
    i: int,
    j: int,
)
    requires
        0 <= i <= j < options.len(),
        is_leg(options[i], exch, prefix, expiry, cents, call),
        forall|k: int|
            i < k < options.len() ==> !is_leg(#[trigger] options[k], exch, prefix, expiry, cents, call),
        is_leg(options[j], exch, prefix, expiry, cents, true) || is_leg(
            options[j],
            exch,
            prefix,
            expiry,
            cents,
            false,
        ),
        forall|k: int|
            j < k < options.len() ==> !is_leg(#[trigger] options[k], exch, prefix, expiry, cents, true)
                && !is_leg(options[k], exch, prefix, expiry, cents, false),
    ensures
        leg(options, exch, prefix, expiry, cents, call) == Some(
            (options[i].security_id, options[i].symbol, options[j].lot),
        ),
{
    let n = options.len() as int;
    lemma_last_listed(options, exch, prefix, expiry, cents, Some(call), n, i);
    lemma_last_listed(options, exch, prefix, expiry, cents, None, n, j);
    let a = last_listed(options, exch, prefix, expiry, cents, Some(call), n);
    let b = last_listed(options, exch, prefix, expiry, cents, None, n);
    assert(is_leg(options[a], exch, prefix, expiry, cents, call));
    assert(is_leg(options[b], exch, prefix, expiry, cents, options[b].call));
    assert(a == i);
    assert(b == j);
}

/// Without an option listed under a strike there is no leg.
pub proof fn law_no_listing_no_leg(
    options: Seq<OptV>,
    exch: Seq<char>,
    prefix: Seq<char>,
    expiry: Seq<char>,
    cents: i64,
    call: bool,
)
    requires
        forall|k: int|
            0 <= k < options.len() ==> !is_leg(
                #[trigger] options[k],
                exch,
                prefix,
                expiry,
                cents,
                call,
            ),
    ensures
        leg(options, exch, prefix, expiry, cents, call) is None,
{
    let n = options.len() as int;
    lemma_last_listed(options, exch, prefix, expiry, cents, Some(call), n, 0);
    let a = last_listed(options, exch, prefix, expiry, cents, Some(call), n);
    if a >= 0 {
        assert(is_leg(options[a], exch, prefix, expiry, cents, call));
    }
}

/// A dated option of a strike and type, `d` days from the asked day.
pub open spec fn days_away(
    o: OptV,
    exch: Seq<char>,
    prefix: Seq<char>,
    cents: i64,
    call: bool,
    day: i64,
    d: int,
) -> bool {
    &&& o.exchange == exch && o.prefix == prefix && o.cents == cents && o.call == call
    &&& o.day is Some
    &&& d >= 0 && (o.day->0 - day == d || day - o.day->0 == d)
}

/// The stand-in for a missing expiry is the dated option of the strike that is the fewest
/// days away, before or after, and of equals the first listed.
pub proof fn law_stand_in_is_fewest_days_away(
    options: Seq<OptV>,
    exch: Seq<char>,
    prefix: Seq<char>,
    cents: i64,
    call: bool,
    day: i64,
    n: int,
    k: int,
    d: int,
)
    requires
        0 <= k < n <= options.len(),
        days_away(options[k], exch, prefix, cents, call, day, d),
    ensures
        ({
            let b = nearest(options, exch, prefix, cents, call, day, n);
            &&& 0 <= b < n
            &&& exists|c: int| #[trigger]
                days_away(options[b], exch, prefix, cents, call, day, c) && c <= d && (k < b ==> c
                    < d)
        }),
    decreases n,
{
    let b = nearest(options, exch, prefix, cents, call, day, n);
    let p = nearest(options, exch, prefix, cents, call, day, n - 1);
    lemma_nearest(options, exch, prefix, cents, call, day, n, k);
    lemma_nearest(options, exch, prefix, cents, call, day, n - 1, p);
    if k < n - 1 {
        law_stand_in_is_fewest_days_away(options, exch, prefix, cents, call, day, n - 1, k, d);
        let c = choose|c: int| #[trigger]
            days_away(options[p], exch, prefix, cents, call, day, c) && c <= d && (k < p ==> c < d);
        if b == p {
            assert(days_away(options[b], exch, prefix, cents, call, day, c));
        } else {
            let e = gap(options[b].day->0, day);
            assert(days_away(options[b], exch, prefix, cents, call, day, e));
            assert(e < c);
        }
    } else {
        let e = gap(options[b].day->0, day);
        assert(days_away(options[b], exch, prefix, cents, call, day, e));
    }
}

/// A request without an exact listing and without a dated stand-in on its exchange goes to
/// another exchange only where its own lists nothing of the name: the first of the
/// national, the Bombay, the commodity and the agricultural exchange that has the leg.
pub proof fn law_other_exchanges_in_turn(
    options: Seq<OptV>,
    exch: Seq<char>,
    prefix: Seq<char>,
    expiry: Seq<char>,
    day: Option<i64>,
    cents: i64,
    call: bool,
    r: Option<Resolved>,
)
    requires
        resolution(options, exch, prefix, expiry, day, cents, call, r),
        leg(options, exch, prefix, expiry, cents, call) is None,
        day is None || forall|i: int|
            0 <= i < options.len() ==> !((#[trigger] options[i]).exchange == exch
                && options[i].prefix == prefix && options[i].cents == cents && options[i].call
                == call && options[i].day is Some),
    ensures
        ({
            let own = exists|i: int|
                0 <= i < options.len() && (#[trigger] options[i]).exchange == exch
                    && options[i].prefix == prefix;
            let nse = leg(options, "NSE"@, prefix, expiry, cents, call);
            let bse = leg(options, "BSE"@, prefix, expiry, cents, call);
            let mcx = leg(options, "MCX"@, prefix, expiry, cents, call);
            let ncdex = leg(options, "NCDEX"@, prefix, expiry, cents, call);
            &&& own ==> r is None
            &&& !own && nse is Some ==> r is Some && r->0.security_id == (nse->0).0
            &&& !own && nse is None && bse is Some ==> r is Some && r->0.security_id == (bse->0).0
            &&& !own && nse is None && bse is None && mcx is Some ==> r is Some
                && r->0.security_id == (mcx->0).0
            &&& !own && nse is None && bse is None && mcx is None ==> (r is Some <==> ncdex is Some)
                && (r is Some ==> r->0.security_id == (ncdex->0).0)
        }),
{
    if day is Some {
        let n = options.len() as int;
        lemma_nearest(options, exch, prefix, cents, call, day->0, n, 0);
    }
}

/// A line of the master lists a contract: enough columns, a kind of option or future, a
/// name and an expiry.
pub open spec fn lists_contract(line: LineV) -> bool {
    let f = line.fields;
    &&& f.len() >= 11
    &&& text::fields(f[5], '-')[0].len() > 0
    &&& text::head(f[8], 10).len() > 0
}

/// What a line adds. An option line needs a type, an id and a strike, and adds an option
/// under its exchange, the name before the first dash, its expiry and its strike. A
/// futures line adds its expiry to the ladder, and with an id a future. Every other line
/// adds nothing.
pub proof fn law_what_a_line_adds(m: ScripV, line: LineV, one: Num)
    ensures
        ({
            let f = line.fields;
            let w = with_line(m, line, one);
            let option = lists_contract(line) && (f[3] == "OPTIDX"@ || f[3] == "OPTSTK"@ || f[3]
                == "OPTFUT"@);
            let future = lists_contract(line) && (f[3] == "FUTIDX"@ || f[3] == "FUTSTK"@ || f[3]
                == "FUTCOM"@);
            let name = text::upper_text(text::fields(f[5], '-')[0]);
            let expiry = text::head(f[8], 10);
            let kind = text::upper_text(text::trimmed(f[10]));
            let id = text::int_value(text::trimmed(f[2]));
            let typed = (kind == "CE"@ || kind == "PE"@) && id is Some;
            &&& !option && !future ==> w == m
            &&& option ==> w.futures == m.futures && w.ladder == m.ladder
            &&& option && !typed ==> w == m
            &&& option && typed ==> w.ids == m.ids.push(id->0 as i64)
            &&& option && typed && line.strike is Some && (line.strike->0).0 ==> {
                &&& w.options.len() == m.options.len() + 1
                &&& w.options.drop_last() == m.options
                &&& {
                    let o = w.options.last();
                    &&& o.exchange == text::upper_text(f[0]) && o.prefix == name && o.expiry
                        == expiry
                    &&& o.cents == (line.strike->0).1 && o.call == (kind == "CE"@)
                    &&& o.security_id == id->0 as i64 && o.symbol == f[5] && o.day == line.day
                    &&& o.lot == if line.lot is Some {
                        line.lot->0
                    } else {
                        one
                    }
                }
            }
            &&& option && typed && !(line.strike is Some && (line.strike->0).0) ==> w.options
                == m.options
            &&& future ==> w.options == m.options && w.ids == m.ids && w.ladder == m.ladder.push(
                (name, f[3], expiry),
            )
            &&& future && id is None ==> w.futures == m.futures
            &&& future && id is Some ==> {
                &&& w.futures.len() == m.futures.len() + 1
                &&& w.futures.drop_last() == m.futures
                &&& {
                    let c = w.futures.last();
                    &&& c.exchange == text::upper_text(f[0]) && c.prefix == name && c.expiry
                        == expiry && c.instrument == f[3]
                    &&& c.security_id == id->0 as i64 && c.symbol == f[5] && c.day == line.day
                    &&& line.lot is Some ==> c.lot == line.lot->0
                    &&& line.lot is None ==> !c.lot.nan && c.lot.key == 0
                }
            }
        }),
{
    let f = line.fields;
    let w = with_line(m, line, one);
    reveal_strlit("OPTIDX");
    reveal_strlit("OPTSTK");
    reveal_strlit("OPTFUT");
    reveal_strlit("FUTIDX");
    reveal_strlit("FUTSTK");
    reveal_strlit("FUTCOM");
    assert("OPTIDX"@[0] == 'O' && "OPTSTK"@[0] == 'O' && "OPTFUT"@[0] == 'O');
    assert("FUTIDX"@[0] == 'F' && "FUTSTK"@[0] == 'F' && "FUTCOM"@[0] == 'F');
    if w.options.len() == m.options.len() + 1 {
        assert(w.options.drop_last() =~= m.options);
    }
    if w.futures.len() == m.futures.len() + 1 {
        assert(w.futures.drop_last() =~= m.futures);
    }
}

/// The rows of a name are all the futures of the name and instrument, on the exchange
/// where one is asked for, in the order of the master.
pub proof fn law_rows_of_a_name(
    futures: Seq<FutV>,
    prefix: Seq<char>,
    inst: Seq<char>,
    exch: Option<Seq<char>>,
    n: int,
)
    requires
        0 <= n <= futures.len(),
    ensures
        ({
            let v = fut_places(futures, prefix, inst, exch, n);
            &&& forall|i: int| #[trigger]
                v.contains(i) <==> 0 <= i < n && futures[i].prefix == prefix
                    && futures[i].instrument == inst && (exch is None || futures[i].exchange
                    == exch->0)
            &&& forall|j: int, k: int| 0 <= j < k < v.len() ==> #[trigger] v[j] < #[trigger] v[k]
        }),
    decreases n,
{
    let v = fut_places(futures, prefix, inst, exch, n);
    if n > 0 {
        law_rows_of_a_name(futures, prefix, inst, exch, n - 1);
        let was = fut_places(futures, prefix, inst, exch, n - 1);
        assert forall|k: int| 0 <= k < was.len() implies #[trigger] was[k] < n - 1 by {
            assert(was.contains(was[k]));
        }
        assert forall|i: int| #[trigger]
            v.contains(i) <==> 0 <= i < n && futures[i].prefix == prefix && futures[i].instrument
                == inst && (exch is None || futures[i].exchange == exch->0) by {
            if v.contains(i) {
                let k = choose|k: int| 0 <= k < v.len() && v[k] == i;
                if k < was.len() {
                    assert(was[k] == i);
                    assert(was.contains(i));
                }
            }
            if was.contains(i) {
                let k = choose|k: int| 0 <= k < was.len() && was[k] == i;
                assert(v[k] == i);
            }
            if i == n - 1 && fut_of(futures[i], prefix, inst, exch) {
                assert(v[v.len() - 1] == i);
            }
        }
    }
}

/// Rows of another exchange are looked at only where the asked one has none.
pub proof fn law_own_exchange_comes_first(
    futures: Seq<FutV>,
    prefix: Seq<char>,
    inst: Seq<char>,
    exch: Seq<char>,
    i: int,
)
    requires
        0 <= i < futures.len(),
        futures[i].prefix == prefix,
        futures[i].instrument == inst,
        futures[i].exchange == exch,
    ensures
        fut_rows(futures, prefix, inst, exch).contains(i),
        forall|k: int|
            0 <= k < fut_rows(futures, prefix, inst, exch).len() ==> futures[#[trigger] fut_rows(
                futures,
                prefix,
                inst,
                exch,
            )[k]].exchange == exch,
{
    let n = futures.len() as int;
    let own = fut_places(futures, prefix, inst, Some(exch), n);
    law_rows_of_a_name(futures, prefix, inst, Some(exch), n);
    assert(own.contains(i));
    assert forall|k: int| 0 <= k < own.len() implies futures[#[trigger] own[k]].exchange == exch by {
        assert(own.contains(own[k]));
    }
}

proof fn lemma_first_with_expiry(futures: Seq<FutV>, at: Seq<int>, expiry: Seq<char>, k: int)
    requires
        0 <= k <= at.len(),
    ensures
        ({
            let e = first_with_expiry(futures, at, expiry, k);
            &&& k <= e <= at.len()
            &&& e < at.len() ==> futures[at[e]].expiry == expiry
            &&& forall|j: int| k <= j < e ==> futures[#[trigger] at[j]].expiry != expiry
        }),
    decreases at.len() - k,
{
    if k < at.len() && futures[at[k]].expiry != expiry {
        lemma_first_with_expiry(futures, at, expiry, k + 1);
    }
}

/// Days between a dated row and the asked day.
pub open spec fn row_distance(f: FutV, day: i64) -> int {
    if f.day->0 >= day {
        f.day->0 - day
    } else {
        day - f.day->0
    }
}

proof fn lemma_nearest_row(futures: Seq<FutV>, at: Seq<int>, day: i64, n: int)
    requires
        0 <= n <= at.len(),
    ensures
        ({
            let b = nearest_row_to(futures, at, day, n);
            &&& -1 <= b < n || n == 0 && b == -1
            &&& b >= 0 ==> futures[at[b]].day is Some
            &&& forall|k: int|
                0 <= k < n && futures[#[trigger] at[k]].day is Some ==> b >= 0 && row_distance(
                    futures[at[b]],
                    day,
                ) <= row_distance(futures[at[k]], day) && (k < b ==> row_distance(
                    futures[at[b]],
                    day,
                ) < row_distance(futures[at[k]], day))
        }),
    decreases n,
{
    if n > 0 {
        lemma_nearest_row(futures, at, day, n - 1);
    }
}

/// The future picked for an expiry: the first row of that very expiry; else, with the day
/// known, the dated row nearest to it; else the first row. Without an expiry the first.
pub proof fn law_future_picked_for_expiry(
    futures: Seq<FutV>,
    at: Seq<int>,
    expiry: Seq<char>,
    day: Option<i64>,
    k: int,
)
    requires
        0 <= k < at.len(),
    ensures
        ({
            let p = picked(futures, at, expiry, day);
            let dated = day is Some && futures[at[k]].day is Some;
            &&& p is Some
            &&& expiry.len() == 0 ==> p == Some(at[0])
            &&& expiry.len() > 0 && futures[at[k]].expiry == expiry ==> futures[p->0].expiry
                == expiry
            &&& expiry.len() > 0 && (forall|j: int|
                0 <= j < at.len() ==> futures[#[trigger] at[j]].expiry != expiry) && dated
                ==> futures[p->0].day is Some && row_distance(futures[p->0], day->0)
                <= row_distance(futures[at[k]], day->0)
            &&& expiry.len() > 0 && (forall|j: int|
                0 <= j < at.len() ==> futures[#[trigger] at[j]].expiry != expiry) && day is None
                ==> p == Some(at[0])
        }),
{
    lemma_first_with_expiry(futures, at, expiry, 0);
    if day is Some {
        lemma_nearest_row(futures, at, day->0, at.len() as int);
    }
}

/// Where a derivative order of an instrument goes. An index moves only to a future on the
/// Bombay exchange, and what already is a derivative stays. Of the rest a stock future
/// comes before an index future, and without either it stays.
pub proof fn law_derivative_of_an_instrument(
    futures: Seq<FutV>,
    prefix: Seq<char>,
    id: i64,
    seg: Seq<char>,
    expiry: Seq<char>,
    day: Option<i64>,
)
    ensures
        ({
            let exch = scrip::exch_by(text::upper_text(seg));
            let t = fno_target(futures, prefix, id, seg, expiry, day);
            let derivative = seg == "NSE_FNO"@ || seg == "BSE_FNO"@ || seg == "MCX_COMM"@ || seg
                == "NCD_FNO"@;
            let home = if exch == "BSE"@ {
                "BSE_FNO"@
            } else {
                "NSE_FNO"@
            };
            let bse = picked(
                futures,
                fut_places(futures, prefix, "FUTIDX"@, Some("BSE"@), futures.len() as int),
                expiry,
                day,
            );
            let stk = picked(futures, fut_rows(futures, prefix, "FUTSTK"@, exch), expiry, day);
            let idx = picked(futures, fut_rows(futures, prefix, "FUTIDX"@, exch), expiry, day);
            &&& derivative ==> t == (id, seg)
            &&& seg == "IDX_I"@ && bse is None ==> t == (id, seg)
            &&& seg == "IDX_I"@ && bse is Some ==> t == (futures[bse->0].security_id, "BSE_FNO"@)
            &&& !derivative && seg != "IDX_I"@ && stk is Some ==> t == (
                futures[stk->0].security_id,
                home,
            )
            &&& !derivative && seg != "IDX_I"@ && stk is None && idx is Some ==> t == (
                futures[idx->0].security_id,
                home,
            )
            &&& !derivative && seg != "IDX_I"@ && stk is None && idx is None ==> t == (id, seg)
        }),
{
    reveal_strlit("IDX_I");
    reveal_strlit("NSE_FNO");
    reveal_strlit("BSE_FNO");
    reveal_strlit("MCX_COMM");
    reveal_strlit("NCD_FNO");
    assert("IDX_I"@[0] == 'I' && "NSE_FNO"@[0] == 'N' && "BSE_FNO"@[0] == 'B' && "MCX_COMM"@[0]
        == 'M' && "NCD_FNO"@[0] == 'N');
}

/// The lot of an underlying comes from its index futures before its stock futures, and
/// these before its commodity futures; of each the first row decides, and only a positive
/// lot counts.
pub proof fn law_lot_of_an_underlying(
    futures: Seq<FutV>,
    prefix: Seq<char>,
    upper: Seq<char>,
    exch: Seq<char>,
)
    requires
        prefix.len() > 0,
    ensures
        ({
            let idx = fut_rows(futures, upper, "FUTIDX"@, exch);
            let stk = fut_rows(futures, upper, "FUTSTK"@, exch);
            let com = fut_rows(futures, upper, "FUTCOM"@, exch);
            let has_idx = idx.len() > 0 && !futures[idx[0]].lot.nan && futures[idx[0]].lot.key > 0;
            let has_stk = stk.len() > 0 && !futures[stk[0]].lot.nan && futures[stk[0]].lot.key > 0;
            let has_com = com.len() > 0 && !futures[com[0]].lot.nan && futures[com[0]].lot.key > 0;
            let row = if has_idx {
                futures[idx[0]]
            } else if has_stk {
                futures[stk[0]]
            } else {
                futures[com[0]]
            };
            let r = lot_of(futures, prefix, upper, exch);
            &&& r is Some <==> has_idx || has_stk || has_com
            &&& r is Some ==> (r->0).0 == lot_size(row.symbol, row.lot)
            &&& r is Some && row.symbol.len() > 0 ==> (r->0).1 == row.symbol
            &&& r is Some && row.symbol.len() == 0 ==> (r->0).1 == prefix
        }),
{
}

proof fn lemma_earliest(futures: Seq<FutV>, at: Seq<int>, from: Option<i64>, n: int)
    requires
        0 <= n <= at.len(),
    ensures
        ({
            let b = earliest(futures, at, from, n);
            &&& -1 <= b < n || n == 0 && b == -1
            &&& b >= 0 && from is Some ==> futures[at[b]].day is Some && futures[at[b]].day->0
                >= from->0
            &&& forall|k: int|
                0 <= k < n && (from is Some ==> futures[#[trigger] at[k]].day is Some
                    && futures[at[k]].day->0 >= from->0) ==> b >= 0 && !text::below(
                    futures[at[k]].expiry,
                    futures[at[b]].expiry,
                )
        }),
    decreases n,
{
    if n > 0 {
        lemma_earliest(futures, at, from, n - 1);
        let p = earliest(futures, at, from, n - 1);
        let b = earliest(futures, at, from, n);
        assert forall|k: int|
            0 <= k < n && (from is Some ==> futures[#[trigger] at[k]].day is Some
                && futures[at[k]].day->0 >= from->0) implies b >= 0 && !text::below(
            futures[at[k]].expiry,
            futures[at[b]].expiry,
        ) by {
            if k == n - 1 {
                text::lemma_below_irreflexive(futures[at[k]].expiry);
            } else if b != p {
                if text::below(futures[at[k]].expiry, futures[at[b]].expiry) {
                    text::lemma_below_transitive(
                        futures[at[k]].expiry,
                        futures[at[b]].expiry,
                        futures[at[p]].expiry,
                    );
                }
            }
        }
    }
}

/// The near-month contract of a commodity is listed on the commodity exchange; where any
/// of them expires today or later it is the earliest of those, else the earliest of all.
pub proof fn law_near_month_is_the_earliest(
    futures: Seq<FutV>,
    prefix: Seq<char>,
    today: i64,
    i: int,
)
    requires
        0 <= i < futures.len(),
        futures[i].prefix == prefix,
        futures[i].instrument == "FUTCOM"@,
        futures[i].exchange == "MCX"@,
    ensures
        ({
            let r = near_month(futures, prefix, today);
            let c = futures[r->0];
            let live = futures[i].day is Some && futures[i].day->0 >= today;
            &&& r is Some && 0 <= r->0 < futures.len()
            &&& c.prefix == prefix && c.instrument == "FUTCOM"@ && c.exchange == "MCX"@
            &&& live ==> c.day is Some && c.day->0 >= today && !text::below(
                futures[i].expiry,
                c.expiry,
            )
            &&& !(c.day is Some && c.day->0 >= today) ==> !text::below(futures[i].expiry, c.expiry)
        }),
{
    let n = futures.len() as int;
    let at = fut_places(futures, prefix, "FUTCOM"@, Some("MCX"@), n);
    law_rows_of_a_name(futures, prefix, "FUTCOM"@, Some("MCX"@), n);
    assert(at.contains(i));
    let k = choose|k: int| 0 <= k < at.len() && at[k] == i;
    lemma_earliest(futures, at, Some(today), at.len() as int);
    lemma_earliest(futures, at, None, at.len() as int);
    let a = earliest(futures, at, Some(today), at.len() as int);
    let b = earliest(futures, at, None, at.len() as int);
    assert(at[k] == i);
    if a >= 0 {
        assert(at.contains(at[a]));
    }
    assert(at.contains(at[b]));
}

/// Whether one of the rows expires then.
pub open spec fn lists_expiry(futures: Seq<FutV>, rows: Seq<int>, expiry: Seq<char>) -> bool {
    exists|k: int| 0 <= k < rows.len() && futures[#[trigger] rows[k]].expiry == expiry
}

/// An expiry is doubted only for an equity whose future is listed, under other expiries
/// alone, and whose options are listed: the stock's rows count where there are any, else
/// the index's.
pub proof fn law_expiries_that_are_doubted(
    m: ScripV,
    prefix: Seq<char>,
    upper: Seq<char>,
    seg: Seq<char>,
    expiry: Seq<char>,
)
    ensures
        ({
            let exch = scrip::exch_by(text::upper_text(seg));
            let stk = fut_rows(m.futures, upper, "FUTSTK"@, exch);
            let idx = fut_rows(m.futures, upper, "FUTIDX"@, exch);
            let rows = if stk.len() == 0 {
                idx
            } else {
                stk
            };
            let optioned = exists|i: int|
                0 <= i < m.options.len() && (#[trigger] m.options[i]).prefix == upper
                    && m.options[i].exchange == exch;
            let listed = lists_expiry(m.futures, rows, expiry);
            !expiry_known(m, prefix, upper, seg, expiry) <==> (seg == "NSE_EQ"@ || seg
                == "BSE_EQ"@) && prefix.len() > 0 && m.futures.len() > 0 && rows.len() > 0
                && !listed && optioned
        }),
{
    let exch = scrip::exch_by(text::upper_text(seg));
    let stk = fut_rows(m.futures, upper, "FUTSTK"@, exch);
    let idx = fut_rows(m.futures, upper, "FUTIDX"@, exch);
    let rows = if stk.len() == 0 {
        idx
    } else {
        stk
    };
    lemma_first_with_expiry(m.futures, rows, expiry, 0);
    let e = first_with_expiry(m.futures, rows, expiry, 0);
    if e < rows.len() {
        assert(m.futures[rows[e]].expiry == expiry);
        assert(lists_expiry(m.futures, rows, expiry));
    } else {
        assert(!lists_expiry(m.futures, rows, expiry));
    }
    if exists|i: int|
        0 <= i < m.options.len() && (#[trigger] m.options[i]).prefix == upper
            && m.options[i].exchange == exch {
        assert(carries(m.options, upper, exch) == Some(true));
    }
}

/// The lot of an underlying by name alone is that of its first index future, else of its
/// first stock future, else of its first commodity future, each only where that lot is
/// positive.
pub proof fn law_lot_by_name(futures: Seq<FutV>, prefix: Seq<char>)
    ensures
        ({
            let n = futures.len() as int;
            let idx = fut_places(futures, prefix, "FUTIDX"@, None, n);
            let stk = fut_places(futures, prefix, "FUTSTK"@, None, n);
            let com = fut_places(futures, prefix, "FUTCOM"@, None, n);
            let has_idx = idx.len() > 0 && !futures[idx[0]].lot.nan && futures[idx[0]].lot.key > 0;
            let has_stk = stk.len() > 0 && !futures[stk[0]].lot.nan && futures[stk[0]].lot.key > 0;
            let has_com = com.len() > 0 && !futures[com[0]].lot.nan && futures[com[0]].lot.key > 0;
            let row = if has_idx {
                futures[idx[0]]
            } else if has_stk {
                futures[stk[0]]
            } else {
                futures[com[0]]
            };
            let curated = scrip::lot_tenths_by(text::upper_text(row.symbol));
            let r = prefix_lot(futures, prefix);
            &&& r is Some <==> has_idx || has_stk || has_com
            &&& r is Some && curated > 0 ==> r->0 == LotSize::Curated { tenths: curated as i64 }
            &&& r is Some && curated <= 0 ==> r->0 == LotSize::Listed(row.lot)
        }),
{
}

/// The lots by index name are those of the indices' futures, and no index without a lot
/// is named.
pub proof fn law_lots_by_index_name(lots: Map<Seq<char>, LotSize>, name: Seq<char>)
    ensures
        ({
            let named = named_lots(lots, 6);
            let prefix = if name == "NIFTY 50"@ {
                "NIFTY"@
            } else if name == "BANK NIFTY"@ {
                "BANKNIFTY"@
            } else if name == "GIFT NIFTY"@ {
                "GIFTNIFTY"@
            } else {
                name
            };
            let index = name == "NIFTY 50"@ || name == "BANK NIFTY"@ || name == "GIFT NIFTY"@
                || name == "FINNIFTY"@ || name == "SENSEX"@ || name == "MIDCPNIFTY"@;
            &&& named.contains_key(name) <==> index && lots.contains_key(prefix)
            &&& named.contains_key(name) ==> named[name] == lots[prefix]
        }),
{
    reveal_with_fuel(named_lots, 7);
    reveal_strlit("NIFTY 50");
    reveal_strlit("BANK NIFTY");
    reveal_strlit("GIFT NIFTY");
    reveal_strlit("FINNIFTY");
    reveal_strlit("SENSEX");
    reveal_strlit("MIDCPNIFTY");
    assert("NIFTY 50"@[0] == 'N' && "NIFTY 50"@.len() == 8);
    assert("BANK NIFTY"@[0] == 'B');
    assert("GIFT NIFTY"@[0] == 'G');
    assert("FINNIFTY"@[0] == 'F');
    assert("SENSEX"@[0] == 'S');
    assert("MIDCPNIFTY"@[0] == 'M');
    let names = index_names();
    assert(names.len() == 6);
    assert(names[0].0 == "NIFTY 50"@ && names[1].0 == "BANK NIFTY"@ && names[2].0 == "FINNIFTY"@);
    assert(names[3].0 == "SENSEX"@ && names[4].0 == "MIDCPNIFTY"@ && names[5].0 == "GIFT NIFTY"@);
}

} // verus!
