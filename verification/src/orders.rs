//! Order identities, order fields and order budgets.

use vstd::prelude::*;
use crate::text;

verus! {

/// Direction of an order.
#[derive(Clone, Copy, Debug, PartialEq, Eq, Structural)]
pub enum Txn {
    Buy,
    Sell,
}

/// Exchange segment of an order.
#[derive(Clone, Copy, Debug, PartialEq, Eq, Structural)]
pub enum Segment {
    IdxI,
    NseEq,
    NseFno,
    NseCurrency,
    BseEq,
    McxComm,
    BseCurrency,
    BseFno,
}

/// Product of an order.
#[derive(Clone, Copy, Debug, PartialEq, Eq, Structural)]
pub enum Product {
    Cnc,
    Margin,
    Mtf,
    Co,
    Bo,
    Intraday,
}

/// Kind of an order.
#[derive(Clone, Copy, Debug, PartialEq, Eq, Structural)]
pub enum OrderKind {
    Limit,
    StopLoss,
    StopLossMarket,
    Market,
}

/// How long an order stands.
#[derive(Clone, Copy, Debug, PartialEq, Eq, Structural)]
pub enum Validity {
    Day,
    Ioc,
}

/// The direction a side names: a sell in any case, else a buy.
pub fn txn(side: &str) -> (r: Txn)
    ensures
        r == if text::downs(side@) == "sell"@ {
            Txn::Sell
        } else {
            Txn::Buy
        },
{
    let l = text::to_ascii_lower(side);
    if text::same(l.as_str(), "sell") {
        Txn::Sell
    } else {
        Txn::Buy
    }
}

/// The segment a text names; an unknown one is the derivative segment, the text given in upper case.
pub open spec fn segment_by(u: Seq<char>) -> Segment {
    if u == "IDX_I"@ {
        Segment::IdxI
    } else if u == "NSE_EQ"@ {
        Segment::NseEq
    } else if u == "NSE_FNO"@ {
        Segment::NseFno
    } else if u == "NSE_CURRENCY"@ {
        Segment::NseCurrency
    } else if u == "BSE_EQ"@ {
        Segment::BseEq
    } else if u == "MCX_COMM"@ {
        Segment::McxComm
    } else if u == "BSE_CURRENCY"@ {
        Segment::BseCurrency
    } else if u == "BSE_FNO"@ {
        Segment::BseFno
    } else {
        Segment::NseFno
    }
}

/// The segment a text names; an unknown one is the derivative segment, the text given in upper case.
pub fn seg_from_upper(u: &str) -> (r: Segment)
    ensures
        r == segment_by(u@),
{
    if text::same(u, "IDX_I") {
        Segment::IdxI
    } else if text::same(u, "NSE_EQ") {
        Segment::NseEq
    } else if text::same(u, "NSE_FNO") {
        Segment::NseFno
    } else if text::same(u, "NSE_CURRENCY") {
        Segment::NseCurrency
    } else if text::same(u, "BSE_EQ") {
        Segment::BseEq
    } else if text::same(u, "MCX_COMM") {
        Segment::McxComm
    } else if text::same(u, "BSE_CURRENCY") {
        Segment::BseCurrency
    } else if text::same(u, "BSE_FNO") {
        Segment::BseFno
    } else {
        Segment::NseFno
    }
}

/// The segment a text names; an unknown one is the derivative segment.
pub fn seg_from(exch: &str) -> (r: Segment)
    ensures
        r == segment_by(text::upper_text(exch@)),
{
    let u = text::uppercase(exch);
    seg_from_upper(u.as_str())
}

/// The product a text names; an unknown one is intraday, the text given in upper case.
pub open spec fn product_by(u: Seq<char>) -> Product {
    if u == "CNC"@ {
        Product::Cnc
    } else if u == "MARGIN"@ {
        Product::Margin
    } else if u == "MTF"@ {
        Product::Mtf
    } else if u == "CO"@ {
        Product::Co
    } else if u == "BO"@ {
        Product::Bo
    } else {
        Product::Intraday
    }
}

/// The product a text names; an unknown one is intraday, the text given in upper case.
pub fn product_from_upper(u: &str) -> (r: Product)
    ensures
        r == product_by(u@),
{
    if text::same(u, "CNC") {
        Product::Cnc
    } else if text::same(u, "MARGIN") {
        Product::Margin
    } else if text::same(u, "MTF") {
        Product::Mtf
    } else if text::same(u, "CO") {
        Product::Co
    } else if text::same(u, "BO") {
        Product::Bo
    } else {
        Product::Intraday
    }
}

/// The product a text names; an unknown one is intraday.
pub fn product_from(name: &str) -> (r: Product)
    ensures
        r == product_by(text::upper_text(name@)),
{
    let u = text::uppercase(name);
    product_from_upper(u.as_str())
}

/// The order kind a text names; an unknown one is a market order, the text given in upper case.
pub open spec fn kind_by(u: Seq<char>) -> OrderKind {
    if u == "LIMIT"@ {
        OrderKind::Limit
    } else if u == "STOP_LOSS"@ {
        OrderKind::StopLoss
    } else if u == "STOP_LOSS_MARKET"@ {
        OrderKind::StopLossMarket
    } else {
        OrderKind::Market
    }
}

/// The order kind a text names; an unknown one is a market order, the text given in upper case.
pub fn order_type_from_upper(u: &str) -> (r: OrderKind)
    ensures
        r == kind_by(u@),
{
    if text::same(u, "LIMIT") {
        OrderKind::Limit
    } else if text::same(u, "STOP_LOSS") {
        OrderKind::StopLoss
    } else if text::same(u, "STOP_LOSS_MARKET") {
        OrderKind::StopLossMarket
    } else {
        OrderKind::Market
    }
}

/// The order kind a text names; an unknown one is a market order.
pub fn order_type_from(name: &str) -> (r: OrderKind)
    ensures
        r == kind_by(text::upper_text(name@)),
{
    let u = text::uppercase(name);
    order_type_from_upper(u.as_str())
}

/// The validity a text names: immediate-or-cancel in any case, else the day.
pub fn validity_from(name: &str) -> (r: Validity)
    ensures
        r == if text::downs(name@) == "ioc"@ {
            Validity::Ioc
        } else {
            Validity::Day
        },
{
    let l = text::to_ascii_lower(name);
    if text::same(l.as_str(), "ioc") {
        Validity::Ioc
    } else {
        Validity::Day
    }
}

/// A product as the broker spells it.
pub open spec fn product_text(p: Product) -> Seq<char> {
    match p {
        Product::Cnc => "CNC"@,
        Product::Margin => "MARGIN"@,
        Product::Mtf => "MTF"@,
        Product::Co => "CO"@,
        Product::Bo => "BO"@,
        Product::Intraday => "INTRADAY"@,
    }
}

/// A product as the broker spells it.
pub fn product_name(p: Product) -> (r: &'static str)
    ensures
        r@ == product_text(p),
{
    match p {
        Product::Cnc => "CNC",
        Product::Margin => "MARGIN",
        Product::Mtf => "MTF",
        Product::Co => "CO",
        Product::Bo => "BO",
        Product::Intraday => "INTRADAY",
    }
}

/// An order kind as the broker spells it.
pub open spec fn kind_text(k: OrderKind) -> Seq<char> {
    match k {
        OrderKind::Limit => "LIMIT"@,
        OrderKind::StopLoss => "STOP_LOSS"@,
        OrderKind::StopLossMarket => "STOP_LOSS_MARKET"@,
        OrderKind::Market => "MARKET"@,
    }
}

/// An order kind as the broker spells it.
pub fn kind_name(k: OrderKind) -> (r: &'static str)
    ensures
        r@ == kind_text(k),
{
    match k {
        OrderKind::Limit => "LIMIT",
        OrderKind::StopLoss => "STOP_LOSS",
        OrderKind::StopLossMarket => "STOP_LOSS_MARKET",
        OrderKind::Market => "MARKET",
    }
}

/// What the broker is sent reads back as what was meant.
pub proof fn law_order_words_read_back(p: Product, k: OrderKind)
    ensures
        product_by(product_text(p)) == p,
        kind_by(kind_text(k)) == k,
{
    reveal_strlit("CNC");
    reveal_strlit("MARGIN");
    reveal_strlit("MTF");
    reveal_strlit("CO");
    reveal_strlit("BO");
    reveal_strlit("INTRADAY");
    reveal_strlit("LIMIT");
    reveal_strlit("STOP_LOSS");
    reveal_strlit("STOP_LOSS_MARKET");
    reveal_strlit("MARKET");
    assert("CNC"@.len() == 3 && "MARGIN"@.len() == 6 && "MTF"@.len() == 3);
    assert("CO"@.len() == 2 && "BO"@.len() == 2 && "INTRADAY"@.len() == 8);
    assert("CNC"@[0] == 'C' && "MTF"@[0] == 'M' && "CO"@[0] == 'C' && "BO"@[0] == 'B');
    assert("LIMIT"@.len() == 5 && "STOP_LOSS"@.len() == 9);
    assert("STOP_LOSS_MARKET"@.len() == 16 && "MARKET"@.len() == 6);
}

/// `prefix_now`.
pub fn gen_id(prefix: &str, now: i64) -> (r: String)
    ensures
        r@ == prefix@ + "_"@ + text::int_dec(now as int),
{
    let mut out = text::concat(prefix, "_");
    text::push_int(&mut out, now);
    out
}

/// At least four digits.
pub open spec fn pad4_text(n: int) -> Seq<char> {
    seq![
        text::digit_char(n / 1000 % 10),
        text::digit_char(n / 100 % 10),
        text::digit_char(n / 10 % 10),
        text::digit_char(n % 10),
    ]
}

/// The letters and digits a tag gives to an order identity.
pub open spec fn safe_tag(tag: Seq<char>) -> Seq<char> {
    let s = text::head(text::alnums(tag), 8);
    if s.len() == 0 {
        "ord"@
    } else {
        s
    }
}

/// The identity of order number `n` at time `now`.
pub open spec fn corr_text(tag: Seq<char>, now: int, n: int) -> Seq<char> {
    safe_tag(tag) + text::dec(now % 100_000_000_000) + pad4_text(n % 10_000)
}

fn digit(n: u64) -> (r: char)
    requires
        n < 10,
    ensures
        r == text::digit_char(n as int),
{
    (48 + n as u8) as char
}

/// A short identity for an order: up to eight letters and digits of the tag,
/// the time, and the last four digits of the order number `n`.
pub fn corr_id(tag: &str, now: i64, n: u64) -> (r: String)
    requires
        now >= 0,
    ensures
        r@ == corr_text(tag@, now as int, n as int),
{
    let safe = text::keep_alnum(tag);
    let mut out = text::first_chars(safe.as_str(), 8);
    if out.as_str().is_empty() {
        out = "ord".to_owned();
    }
    text::push_nat(&mut out, now as u64 % 100_000_000_000);
    let k: u64 = n % 10_000;
    let ghost before = out@;
    out.push(digit(k / 1000 % 10));
    out.push(digit(k / 100 % 10));
    out.push(digit(k / 10 % 10));
    out.push(digit(k % 10));
    proof {
        assert(out@ =~= before + pad4_text(k as int));
    }
    out
}

proof fn lemma_alnums(s: Seq<char>)
    ensures
        forall|i: int| 0 <= i < text::alnums(s).len() ==> text::alnum(#[trigger] text::alnums(s)[i]),
    decreases s.len(),
{
    if s.len() > 0 {
        lemma_alnums(s.drop_last());
        let f = text::alnums(s.drop_last());
        assert forall|i: int| 0 <= i < text::alnums(s).len() implies text::alnum(
            #[trigger] text::alnums(s)[i],
        ) by {
            if i < f.len() {
                assert(text::alnums(s)[i] == f[i]);
            }
        }
    }
}

proof fn lemma_dec_digits(n: int)
    requires
        n >= 0,
    ensures
        text::dec(n).len() >= 1,
        forall|i: int| 0 <= i < text::dec(n).len() ==> text::alnum(#[trigger] text::dec(n)[i]),
    decreases n,
{
    if n >= 10 {
        lemma_dec_digits(n / 10);
    }
}

proof fn lemma_dec_len(n: int, k: int, bound: int)
    requires
        0 <= n < bound,
        k >= 1,
        bound == ten_to(k),
    ensures
        text::dec(n).len() <= k,
    decreases k,
{
    if n >= 10 {
        assert(ten_to(k) == 10 * ten_to(k - 1));
        lemma_dec_len(n / 10, k - 1, ten_to(k - 1));
    }
}

/// Ten to the power `k`.
pub open spec fn ten_to(k: int) -> int
    decreases k,
{
    if k <= 0 {
        1
    } else {
        10 * ten_to(k - 1)
    }
}

/// An order identity holds letters and digits only, at least five and at most
/// twenty-three of them.
pub proof fn law_corr_id_is_short_and_alphanumeric(tag: Seq<char>, now: int, n: int)
    requires
        now >= 0,
        n >= 0,
    ensures
        forall|i: int|
            0 <= i < corr_text(tag, now, n).len() ==> text::alnum(
                #[trigger] corr_text(tag, now, n)[i],
            ),
        5 <= corr_text(tag, now, n).len() <= 23,
{
    reveal_strlit("ord");
    lemma_alnums(tag);
    let t = now % 100_000_000_000;
    lemma_dec_digits(t);
    reveal_with_fuel(ten_to, 12);
    lemma_dec_len(t, 11, 100_000_000_000);
    let safe = safe_tag(tag);
    assert forall|i: int| 0 <= i < safe.len() implies text::alnum(#[trigger] safe[i]) by {
        if text::head(text::alnums(tag), 8).len() > 0 {
            assert(safe[i] == text::alnums(tag)[i]);
        }
    }
    let d = pad4_text(n % 10_000);
    let all = corr_text(tag, now, n);
    assert forall|i: int| 0 <= i < all.len() implies text::alnum(#[trigger] all[i]) by {
        let a = safe.len();
        let b = a + text::dec(t).len();
        if i < a {
            assert(all[i] == safe[i]);
        } else if i < b {
            assert(all[i] == text::dec(t)[i - a]);
        } else {
            assert(all[i] == d[i - b]);
        }
    }
}

/// Orders whose numbers differ by less than ten thousand never share an
/// identity, whatever their tags and times.
pub proof fn law_corr_ids_differ(
    tag1: Seq<char>,
    now1: int,
    n1: int,
    tag2: Seq<char>,
    now2: int,
    n2: int,
)
    requires
        0 <= n1 < n2 < n1 + 10_000,
    ensures
        corr_text(tag1, now1, n1) != corr_text(tag2, now2, n2),
{
    let a = corr_text(tag1, now1, n1);
    let b = corr_text(tag2, now2, n2);
    let x = pad4_text(n1 % 10_000);
    let y = pad4_text(n2 % 10_000);
    if a == b {
        let k = a.len();
        assert(a[k - 4] == x[0] && a[k - 3] == x[1] && a[k - 2] == x[2] && a[k - 1] == x[3]);
        assert(b[k - 4] == y[0] && b[k - 3] == y[1] && b[k - 2] == y[2] && b[k - 1] == y[3]);
        assert(x =~= y);
        lemma_pad4_injective(n1 % 10_000, n2 % 10_000);
    }
}

proof fn lemma_four_digits(a: int)
    requires
        0 <= a < 10_000,
    ensures
        a == 1000 * (a / 1000 % 10) + 100 * (a / 100 % 10) + 10 * (a / 10 % 10) + a % 10,
{
    let h = a / 10;
    let t = h / 10;
    assert(a / 100 == t);
    assert(a / 1000 == t / 10);
    assert(a == 10 * h + a % 10);
    assert(h == 10 * t + h % 10);
    assert(t == 10 * (t / 10) + t % 10);
}

proof fn lemma_digit_char(d: int, e: int)
    requires
        0 <= d < 10,
        0 <= e < 10,
        text::digit_char(d) == text::digit_char(e),
    ensures
        d == e,
{
    assert(text::digit_char(d) as int == 48 + d);
    assert(text::digit_char(e) as int == 48 + e);
}

proof fn lemma_pad4_injective(a: int, b: int)
    requires
        0 <= a < 10_000,
        0 <= b < 10_000,
        pad4_text(a) == pad4_text(b),
    ensures
        a == b,
{
    let x = pad4_text(a);
    let y = pad4_text(b);
    assert(x[0] == y[0] && x[1] == y[1] && x[2] == y[2] && x[3] == y[3]);
    lemma_digit_char(a / 1000 % 10, b / 1000 % 10);
    lemma_digit_char(a / 100 % 10, b / 100 % 10);
    lemma_digit_char(a / 10 % 10, b / 10 % 10);
    lemma_digit_char(a % 10, b % 10);
    lemma_four_digits(a);
    lemma_four_digits(b);
}

/// Orders a second, held between one and the venue's thirty.
pub open spec fn budget(ops: int) -> int {
    if ops < 1 {
        1
    } else if ops > 30 {
        30
    } else {
        ops
    }
}

/// Orders a second the engine may place.
pub fn hft_ops_budget(ops: i64) -> (r: i64)
    ensures
        r == budget(ops as int),
{
    if ops < 1 {
        1
    } else if ops > 30 {
        30
    } else {
        ops
    }
}

/// A strategy may trade again.
pub open spec fn limit_allows(trade_limit: bool, ai_trades: bool, count: int, done: int) -> bool {
    !trade_limit || ai_trades || count <= 0 || done < count
}

/// Whether a strategy may trade again: always without a limit, under automatic
/// trade counts, or without a configured count; else while the count is not reached.
pub fn trade_limit_allows(trade_limit: bool, ai_trades: bool, count: i64, done: i64) -> (r: bool)
    ensures
        r == limit_allows(trade_limit, ai_trades, count as int, done as int),
{
    if !trade_limit || ai_trades || count <= 0 {
        return true;
    }
    done < count
}

/// The charge schedule by instrument and symbol, both trimmed and raised.
pub open spec fn charges_by(inst: Seq<char>, symbol: Seq<char>) -> Seq<char> {
    if inst == "OPTIDX"@ || inst == "OPTSTK"@ || inst == "OPTFUT"@ || inst == "OPT"@ {
        "options"@
    } else if inst == "FUTIDX"@ || inst == "FUTSTK"@ || inst == "FUTCOM"@ || inst == "FUT"@ {
        "futures"@
    } else if text::words(symbol).contains("CE"@) || text::words(symbol).contains("PE"@) {
        "options"@
    } else {
        "delivery"@
    }
}

/// The charge schedule of an instrument: options, futures, or delivery.
pub fn charges_segment(instrument: &str, trading_symbol: &str) -> (r: &'static str)
    ensures
        r@ == charges_by(
            text::ups(text::trimmed(instrument@)),
            text::ups(text::trimmed(trading_symbol@)),
        ),
{
    let it = text::trim(instrument);
    let i = text::to_ascii_upper(it.as_str());
    let inst = i.as_str();
    if text::one_of(inst, "OPTIDX", "OPTSTK") || text::one_of(inst, "OPTFUT", "OPT") {
        return "options";
    }
    if text::one_of(inst, "FUTIDX", "FUTSTK") || text::one_of(inst, "FUTCOM", "FUT") {
        return "futures";
    }
    let nt = text::trim(trading_symbol);
    let n = text::to_ascii_upper(nt.as_str());
    let w = text::split_words(n.as_str());
    if text::list_has(&w, "CE") || text::list_has(&w, "PE") {
        return "options";
    }
    "delivery"
}

/// The high 53 bits of the mixed seed, which an outcome between zero and one is
/// drawn from.
pub open spec fn mixed(seed: u64) -> u64 {
    let x0 = (seed * 0x2545F4914F6CDD1D % 0x1_0000_0000_0000_0000) as u64;
    let x1 = ((x0 + 0x9E3779B97F4A7C15) % 0x1_0000_0000_0000_0000) as u64;
    let x2 = x1 ^ (x1 >> 12);
    let x3 = x2 ^ (x2 << 25);
    let x4 = x3 ^ (x3 >> 27);
    let v = (x4 * 0x2545F4914F6CDD1D % 0x1_0000_0000_0000_0000) as u64;
    v >> 11
}

/// A draw of 53 bits for simulated outcomes, fixed by its seed.
pub fn paper_rand_bits(seed: u64) -> (r: u64)
    ensures
        r == mixed(seed),
        r < 0x20_0000_0000_0000,
{
    let x0: u64 = seed.wrapping_mul(0x2545F4914F6CDD1D);
    let x1: u64 = x0.wrapping_add(0x9E3779B97F4A7C15);
    let x2: u64 = x1 ^ (x1 >> 12u64);
    let x3: u64 = x2 ^ (x2 << 25u64);
    let x4: u64 = x3 ^ (x3 >> 27u64);
    let v: u64 = x4.wrapping_mul(0x2545F4914F6CDD1D);
    proof {
        assert(v >> 11u64 < 0x20_0000_0000_0000) by (bit_vector);
    }
    v >> 11u64
}

/// The time, with the draw's number turned seventeen bits up laid over it.
pub open spec fn seed_of(now: i64, extra: i64) -> u64 {
    (now as u64) ^ (((extra as u64) << 17) | ((extra as u64) >> 47))
}

/// A seed out of the time and a number that tells draws of one moment apart.
pub fn paper_seed(now: i64, extra: i64) -> (r: u64)
    ensures
        r == seed_of(now, extra),
{
    let e: u64 = extra as u64;
    (now as u64) ^ ((e << 17u64) | (e >> 47u64))
}

/// The orders a second are what is asked for within one and thirty.
pub proof fn law_budget_is_held_in_range(ops: int)
    ensures
        1 <= budget(ops) <= 30,
        1 <= ops <= 30 ==> budget(ops) == ops,
        ops < 1 ==> budget(ops) == 1,
        ops > 30 ==> budget(ops) == 30,
{
}

/// The charge schedule: by the instrument where it names an option or a future, else by a
/// call or put in the symbol, else delivery.
pub proof fn law_charges_by_instrument(inst: Seq<char>, symbol: Seq<char>)
    ensures
        ({
            let option = inst == "OPTIDX"@ || inst == "OPTSTK"@ || inst == "OPTFUT"@ || inst
                == "OPT"@;
            let future = inst == "FUTIDX"@ || inst == "FUTSTK"@ || inst == "FUTCOM"@ || inst
                == "FUT"@;
            let named = exists|k: int|
                0 <= k < text::words(symbol).len() && (#[trigger] text::words(symbol)[k] == "CE"@
                    || text::words(symbol)[k] == "PE"@);
            &&& option ==> charges_by(inst, symbol) == "options"@
            &&& future ==> charges_by(inst, symbol) == "futures"@
            &&& !option && !future && named ==> charges_by(inst, symbol) == "options"@
            &&& !option && !future && !named ==> charges_by(inst, symbol) == "delivery"@
        }),
{
    reveal_strlit("OPTIDX");
    reveal_strlit("OPTSTK");
    reveal_strlit("OPTFUT");
    reveal_strlit("OPT");
    reveal_strlit("FUTIDX");
    reveal_strlit("FUTSTK");
    reveal_strlit("FUTCOM");
    reveal_strlit("FUT");
    assert("OPTIDX"@[0] == 'O' && "OPTSTK"@[0] == 'O' && "OPTFUT"@[0] == 'O' && "OPT"@[0] == 'O');
    assert("FUTIDX"@[0] == 'F' && "FUTSTK"@[0] == 'F' && "FUTCOM"@[0] == 'F' && "FUT"@[0] == 'F');
    let w = text::words(symbol);
    let named = exists|k: int| 0 <= k < w.len() && (#[trigger] w[k] == "CE"@ || w[k] == "PE"@);
    if named {
        let k = choose|k: int| 0 <= k < w.len() && (#[trigger] w[k] == "CE"@ || w[k] == "PE"@);
        assert(w.contains(w[k]));
    }
    if w.contains("CE"@) {
        let k = choose|k: int| 0 <= k < w.len() && w[k] == "CE"@;
        assert(w[k] == "CE"@ || w[k] == "PE"@);
    }
    if w.contains("PE"@) {
        let k = choose|k: int| 0 <= k < w.len() && w[k] == "PE"@;
        assert(w[k] == "CE"@ || w[k] == "PE"@);
    }
}

/// The segments of the broker by name; every other name is taken for national
/// derivatives.
pub proof fn law_segments_by_name(u: Seq<char>)
    ensures
        segment_by("IDX_I"@) == Segment::IdxI,
        segment_by("NSE_EQ"@) == Segment::NseEq,
        segment_by("NSE_FNO"@) == Segment::NseFno,
        segment_by("NSE_CURRENCY"@) == Segment::NseCurrency,
        segment_by("BSE_EQ"@) == Segment::BseEq,
        segment_by("MCX_COMM"@) == Segment::McxComm,
        segment_by("BSE_CURRENCY"@) == Segment::BseCurrency,
        segment_by("BSE_FNO"@) == Segment::BseFno,
        segment_by(u) != Segment::NseFno ==> u == "IDX_I"@ || u == "NSE_EQ"@ || u == "NSE_CURRENCY"@
            || u == "BSE_EQ"@ || u == "MCX_COMM"@ || u == "BSE_CURRENCY"@ || u == "BSE_FNO"@,
{
    reveal_strlit("IDX_I");
    reveal_strlit("NSE_EQ");
    reveal_strlit("NSE_FNO");
    reveal_strlit("NSE_CURRENCY");
    reveal_strlit("BSE_EQ");
    reveal_strlit("MCX_COMM");
    reveal_strlit("BSE_CURRENCY");
    reveal_strlit("BSE_FNO");
    assert("IDX_I"@[0] == 'I' && "MCX_COMM"@[0] == 'M');
    assert("NSE_EQ"@[0] == 'N' && "NSE_FNO"@[0] == 'N' && "NSE_CURRENCY"@[0] == 'N');
    assert("BSE_EQ"@[0] == 'B' && "BSE_FNO"@[0] == 'B' && "BSE_CURRENCY"@[0] == 'B');
    assert("NSE_EQ"@.len() == 6 && "NSE_FNO"@.len() == 7 && "NSE_CURRENCY"@.len() == 12);
    assert("BSE_EQ"@.len() == 6 && "BSE_FNO"@.len() == 7 && "BSE_CURRENCY"@.len() == 12);
}

/// A trade limit holds where it is on, set by hand and positive: up to its count trades are
/// allowed and from it on none; a limit once reached stays reached.
pub proof fn law_trade_limit_holds(count: int, done: int, more: int)
    requires
        done <= more,
    ensures
        count >= 1 ==> (limit_allows(true, false, count, done) <==> done <= count - 1),
        count >= 1 && limit_allows(true, false, count, more) ==> limit_allows(
            true,
            false,
            count,
            done,
        ),
        limit_allows(false, false, count, done) && limit_allows(true, true, count, done),
        count <= 0 ==> limit_allows(true, false, count, done),
{
}

/// The seed that a mixed number came from: the steps of the mixing taken back, the last
/// first.
pub open spec fn unmixed(v: u64) -> u64 {
    let a = (v * 0x59071D96D81ECD35 % 0x1_0000_0000_0000_0000) as u64;
    let b = a ^ (a >> 27) ^ (a >> 54);
    let c = b ^ (b << 25) ^ (b << 50);
    let d = c ^ (c >> 12) ^ (c >> 24) ^ (c >> 36) ^ (c >> 48) ^ (c >> 60);
    ((d - 0x9E3779B97F4A7C15) * 0x59071D96D81ECD35 % 0x1_0000_0000_0000_0000) as u64
}

proof fn lemma_times_inverse(s: int)
    requires
        0 <= s < 0x1_0000_0000_0000_0000,
    ensures
        (s * 0x2545F4914F6CDD1D % 0x1_0000_0000_0000_0000) * 0x59071D96D81ECD35 % 0x1_0000_0000_0000_0000 == s,
{
    let w: int = 0x1_0000_0000_0000_0000;
    let m: int = 0x2545F4914F6CDD1D;
    let k: int = 0x59071D96D81ECD35;
    vstd::arithmetic::div_mod::lemma_mul_mod_noop_left(s * m, k, w);
    vstd::arithmetic::mul::lemma_mul_is_associative(s, m, k);
    vstd::arithmetic::div_mod::lemma_mul_mod_noop_right(s, m * k, w);
    assert(m * k % w == 1);
    vstd::arithmetic::div_mod::lemma_small_mod(s as nat, w as nat);
}

/// Mixing loses nothing but the eleven low bits dropped at its end: the draw is the high
/// bits of a number that the seed can be worked out of again.
pub proof fn law_draws_come_from_their_seed(seed: u64)
    ensures
        exists|v: u64| mixed(seed) == v >> 11 && #[trigger] unmixed(v) == seed,
{
    let w: int = 0x1_0000_0000_0000_0000;
    let c: int = 0x9E3779B97F4A7C15;
    let m: int = 0x2545F4914F6CDD1D;
    let x0 = (seed * 0x2545F4914F6CDD1D % 0x1_0000_0000_0000_0000) as u64;
    let x1 = ((x0 + 0x9E3779B97F4A7C15) % 0x1_0000_0000_0000_0000) as u64;
    let x2 = x1 ^ (x1 >> 12);
    let x3 = x2 ^ (x2 << 25);
    let x4 = x3 ^ (x3 >> 27);
    let v = (x4 * 0x2545F4914F6CDD1D % 0x1_0000_0000_0000_0000) as u64;
    lemma_times_inverse(x4 as int);
    lemma_times_inverse(seed as int);
    assert(x4 ^ (x4 >> 27) ^ (x4 >> 54) == x3) by (bit_vector)
        requires
            x4 == x3 ^ (x3 >> 27),
    ;
    assert(x3 ^ (x3 << 25) ^ (x3 << 50) == x2) by (bit_vector)
        requires
            x3 == x2 ^ (x2 << 25),
    ;
    assert(x2 ^ (x2 >> 12) ^ (x2 >> 24) ^ (x2 >> 36) ^ (x2 >> 48) ^ (x2 >> 60) == x1)
        by (bit_vector)
        requires
            x2 == x1 ^ (x1 >> 12),
    ;
    let k: int = 0x59071D96D81ECD35;
    let back: int = x1 - c;
    assert(back == x0 || back == x0 - w);
    assert(back * k % w == (x0 as int) * k % w) by {
        if back == x0 - w {
            assert((x0 - w) * k == x0 * k - w * k) by (nonlinear_arith);
            vstd::arithmetic::div_mod::lemma_mod_multiples_vanish(-k, x0 * k, w);
            assert(x0 * k - w * k == w * (-k) + x0 * k) by (nonlinear_arith);
        }
    }
    assert(unmixed(v) == seed);
}

/// The seeds of one moment tell their draws apart, and the first is the time itself; a
/// draw of small number enters seventeen bits up.
pub proof fn law_seeds_tell_draws_apart(now: i64, a: i64, b: i64)
    ensures
        seed_of(now, a) == seed_of(now, b) ==> a == b,
        seed_of(now, 0) == now as u64,
        0 <= a < 0x4000_0000_0000 ==> seed_of(now, a) == (now as u64) ^ ((a as u64) * 0x2_0000)
            as u64,
{
    assert((((a as u64) << 17) | ((a as u64) >> 47)) == (((b as u64) << 17) | ((b as u64) >> 47))
        ==> a == b) by (bit_vector);
    let t = now as u64;
    let x = ((a as u64) << 17) | ((a as u64) >> 47);
    let y = ((b as u64) << 17) | ((b as u64) >> 47);
    assert(t ^ x == t ^ y ==> x == y) by (bit_vector);
    assert((0u64 << 17) | (0u64 >> 47) == 0) by (bit_vector);
    assert(t ^ 0 == t) by (bit_vector);
    assert(0 <= a < 0x4000_0000_0000i64 ==> (((a as u64) << 17) | ((a as u64) >> 47)) == ((a as u64)
        * 0x2_0000) as u64) by (bit_vector);
}

} // verus!
