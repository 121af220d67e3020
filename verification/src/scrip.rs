//! Names of the exchange contract master: exchanges, underlyings, lots and
//! freeze quantities.

use vstd::prelude::*;
use crate::text;

verus! {

/// How far the contract master is.
#[derive(Clone, Copy, Debug, PartialEq, Eq, Structural)]
pub enum Warm {
    /// Still warming.
    Pending,
    /// Loaded.
    Ready,
    /// Never coming.
    Failed,
}

/// Whether the contract master may still arrive.
pub fn pending(status: Warm) -> (r: bool)
    ensures
        r == (status == Warm::Pending),
{
    status == Warm::Pending
}

/// The date part of an expiry: its first ten characters.
pub fn normalize_expiry(expiry: &str) -> (r: String)
    ensures
        r@ == text::head(expiry@, 10),
{
    text::first_chars(expiry, 10)
}

/// The exchange of a segment given in upper case.
pub open spec fn exch_by(u: Seq<char>) -> Seq<char> {
    if text::has(u, "BSE"@) {
        "BSE"@
    } else if text::has(u, "NCDEX"@) || text::has(u, "NCD_FNO"@) {
        "NCDEX"@
    } else if text::has(u, "MCX"@) {
        "MCX"@
    } else {
        "NSE"@
    }
}

/// The exchange of a segment given in upper case.
pub fn exch_of_upper(u: &str) -> (r: &'static str)
    ensures
        r@ == exch_by(u@),
{
    if text::contains(u, "BSE") {
        "BSE"
    } else if text::contains(u, "NCDEX") || text::contains(u, "NCD_FNO") {
        "NCDEX"
    } else if text::contains(u, "MCX") {
        "MCX"
    } else {
        "NSE"
    }
}

/// The contract master's exchange for a derivative segment.
pub fn scrip_exch(segment: &str) -> (r: &'static str)
    ensures
        r@ == exch_by(text::upper_text(segment@)),
        text::all_ascii(segment@) ==> r@ == exch_by(text::ups(segment@)),
{
    let u = text::uppercase(segment);
    exch_of_upper(u.as_str())
}

/// The upper-case prefix `u` is that of a cash index.
pub open spec fn index_by(u: Seq<char>) -> bool {
    ||| u == "NIFTY"@
    ||| u == "BANKNIFTY"@
    ||| u == "FINNIFTY"@
    ||| u == "MIDCPNIFTY"@
    ||| u == "NIFTYNXT50"@
    ||| u == "SENSEX"@
    ||| u == "SENSEX50"@
    ||| u == "BANKEX"@
    ||| u == "GIFTNIFTY"@
}

/// The prefix is that of a cash index.
pub open spec fn index_prefix(p: Seq<char>) -> bool {
    index_by(text::upper_text(text::trimmed(p)))
}

/// Whether an upper-case prefix is that of a cash index.
pub fn index_of_upper(u: &str) -> (r: bool)
    ensures
        r == index_by(u@),
{
    text::same(u, "NIFTY")
        || text::same(u, "BANKNIFTY")
        || text::same(u, "FINNIFTY")
        || text::same(u, "MIDCPNIFTY")
        || text::same(u, "NIFTYNXT50")
        || text::same(u, "SENSEX")
        || text::same(u, "SENSEX50")
        || text::same(u, "BANKEX")
        || text::same(u, "GIFTNIFTY")
}

/// Whether an underlying prefix is a cash index rather than a single stock.
pub fn is_index_prefix(prefix: &str) -> (r: bool)
    ensures
        r == index_prefix(prefix@),
{
    let t = text::trim(prefix);
    let u = text::uppercase(t.as_str());
    index_of_upper(u.as_str())
}

/// The trading-symbol prefix of an upper-case symbol name.
pub open spec fn underlying_by(u: Seq<char>) -> Seq<char> {
    if u == "NIFTY 50"@ {
        "NIFTY"@
    } else if u == "BANK NIFTY"@ {
        "BANKNIFTY"@
    } else if u == "FINNIFTY"@ {
        "FINNIFTY"@
    } else if u == "SENSEX"@ {
        "SENSEX"@
    } else if u == "MIDCPNIFTY"@ {
        "MIDCPNIFTY"@
    } else if u == "GIFT NIFTY"@ {
        "GIFTNIFTY"@
    } else if u == "BAJAJ-AUTO"@ {
        "BAJAJ"@
    } else if u == "NAM-INDIA"@ {
        "NAM"@
    } else if u == "TATACOMM"@ {
        "TATACOMM"@
    } else {
        text::without(u, ' ')
    }
}

/// The trading-symbol prefix of a symbol name.
pub open spec fn underlying(name: Seq<char>) -> Seq<char> {
    underlying_by(text::upper_text(text::trimmed(name)))
}

/// The trading-symbol prefix of an upper-case symbol name.
pub fn underlying_of_upper(u: &str) -> (r: String)
    ensures
        r@ == underlying_by(u@),
{
    if text::same(u, "NIFTY 50") {
        "NIFTY".to_owned()
    } else if text::same(u, "BANK NIFTY") {
        "BANKNIFTY".to_owned()
    } else if text::same(u, "FINNIFTY") {
        "FINNIFTY".to_owned()
    } else if text::same(u, "SENSEX") {
        "SENSEX".to_owned()
    } else if text::same(u, "MIDCPNIFTY") {
        "MIDCPNIFTY".to_owned()
    } else if text::same(u, "GIFT NIFTY") {
        "GIFTNIFTY".to_owned()
    } else if text::same(u, "BAJAJ-AUTO") {
        "BAJAJ".to_owned()
    } else if text::same(u, "NAM-INDIA") {
        "NAM".to_owned()
    } else if text::same(u, "TATACOMM") {
        "TATACOMM".to_owned()
    } else {
        text::remove_char(u, ' ')
    }
}

/// The trading-symbol prefix of a symbol name.
pub fn fno_underlying(symbol_name: &str) -> (r: String)
    ensures
        r@ == underlying(symbol_name@),
{
    let t = text::trim(symbol_name);
    let u = text::uppercase(t.as_str());
    underlying_of_upper(u.as_str())
}

/// Curated commodity lot of a prefix, in tenths; zero where there is none.
pub open spec fn curated_tenths(prefix: Seq<char>) -> int {
    if prefix == "GOLD"@ {
        1000
    } else if prefix == "GOLDM"@ {
        100
    } else if prefix == "GOLDGUINEA"@ {
        8
    } else if prefix == "GOLDPETAL"@ {
        1
    } else if prefix == "GOLDTEN"@ {
        10
    } else if prefix == "SILVER"@ {
        300
    } else if prefix == "SILVERM"@ {
        50
    } else if prefix == "SILVERMIC"@ {
        10
    } else if prefix == "SILVER100"@ {
        1000
    } else if prefix == "CRUDEOIL"@ {
        1000
    } else if prefix == "CRUDEOILM"@ {
        100
    } else if prefix == "NATURALGAS"@ {
        2500
    } else if prefix == "NATGASMINI"@ {
        1250
    } else if prefix == "COPPER"@ {
        25000
    } else if prefix == "ALUMINIUM"@ {
        50000
    } else if prefix == "ALUMINI"@ {
        10000
    } else if prefix == "LEAD"@ {
        50000
    } else if prefix == "LEADMINI"@ {
        10000
    } else if prefix == "ZINC"@ {
        50000
    } else if prefix == "ZINCMINI"@ {
        10000
    } else if prefix == "NICKEL"@ {
        2500
    } else if prefix == "MENTHAOIL"@ {
        9600
    } else if prefix == "COTTON"@ {
        250
    } else if prefix == "COTTONOIL"@ {
        100000
    } else if prefix == "KAPAS"@ {
        10
    } else if prefix == "CARDAMOM"@ {
        1200
    } else if prefix == "STEELREBAR"@ {
        100000
    } else if prefix == "ELECDMBL"@ {
        100000
    } else {
        0
    }
}

/// Curated lot of an upper-case trading symbol, in tenths: the part before the
/// first hyphen decides, a symbol without one has none.
pub open spec fn lot_tenths_by(u: Seq<char>) -> int {
    if u.contains('-') {
        curated_tenths(text::fields(u, '-')[0])
    } else {
        0
    }
}

fn curated(prefix: &str) -> (r: i64)
    ensures
        r == curated_tenths(prefix@),
{
    if text::same(prefix, "GOLD") {
        1000
    } else if text::same(prefix, "GOLDM") {
        100
    } else if text::same(prefix, "GOLDGUINEA") {
        8
    } else if text::same(prefix, "GOLDPETAL") {
        1
    } else if text::same(prefix, "GOLDTEN") {
        10
    } else if text::same(prefix, "SILVER") {
        300
    } else if text::same(prefix, "SILVERM") {
        50
    } else if text::same(prefix, "SILVERMIC") {
        10
    } else if text::same(prefix, "SILVER100") {
        1000
    } else if text::same(prefix, "CRUDEOIL") {
        1000
    } else if text::same(prefix, "CRUDEOILM") {
        100
    } else if text::same(prefix, "NATURALGAS") {
        2500
    } else if text::same(prefix, "NATGASMINI") {
        1250
    } else if text::same(prefix, "COPPER") {
        25000
    } else if text::same(prefix, "ALUMINIUM") {
        50000
    } else if text::same(prefix, "ALUMINI") {
        10000
    } else if text::same(prefix, "LEAD") {
        50000
    } else if text::same(prefix, "LEADMINI") {
        10000
    } else if text::same(prefix, "ZINC") {
        50000
    } else if text::same(prefix, "ZINCMINI") {
        10000
    } else if text::same(prefix, "NICKEL") {
        2500
    } else if text::same(prefix, "MENTHAOIL") {
        9600
    } else if text::same(prefix, "COTTON") {
        250
    } else if text::same(prefix, "COTTONOIL") {
        100000
    } else if text::same(prefix, "KAPAS") {
        10
    } else if text::same(prefix, "CARDAMOM") {
        1200
    } else if text::same(prefix, "STEELREBAR") {
        100000
    } else if text::same(prefix, "ELECDMBL") {
        100000
    } else {
        0
    }
}

proof fn lemma_fields_one(s: Seq<char>, sep: char)
    ensures
        (text::fields(s, sep).len() == 1) == !s.contains(sep),
        text::fields(s, sep).len() >= 1,
    decreases s.len(),
{
    if s.len() > 0 {
        lemma_fields_one(s.drop_last(), sep);
        if s.drop_last().contains(sep) {
            let i = choose|i: int| 0 <= i < s.len() - 1 && s.drop_last()[i] == sep;
            assert(s[i] == sep);
        }
        if s.contains(sep) && s.last() != sep {
            let i = choose|i: int| 0 <= i < s.len() && s[i] == sep;
            assert(s.drop_last()[i] == sep);
        }
        if s.last() == sep {
            assert(s[s.len() - 1] == sep);
        }
    }
}

/// Curated lot of an upper-case trading symbol, in tenths.
pub fn lot_tenths_of_upper(u: &str) -> (r: i64)
    ensures
        r == lot_tenths_by(u@),
{
    let f = text::split(u, '-');
    proof {
        lemma_fields_one(u@, '-');
        assert(text::views(f@).len() == f@.len());
        assert(text::views(f@)[0] == f@[0]@);
    }
    if f.len() == 1 {
        return 0;
    }
    curated(f[0].as_str())
}

/// Curated commodity lot of a trading symbol, in tenths; zero where there is none.
pub fn mcx_lot_override(trading_symbol: &str) -> (r: i64)
    ensures
        r == lot_tenths_by(text::upper_text(trading_symbol@)),
{
    let u = text::uppercase(trading_symbol);
    lot_tenths_of_upper(u.as_str())
}

/// Freeze quantity by the longest listed index name that `u` begins with; zero
/// where there is none.
pub open spec fn freeze_by(u: Seq<char>) -> int {
    if text::begins(u, "NIFTYNXT50"@) {
        601
    } else if text::begins(u, "MIDCPNIFTY"@) {
        2761
    } else if text::begins(u, "BANKNIFTY"@) {
        601
    } else if text::begins(u, "FINNIFTY"@) {
        1801
    } else if text::begins(u, "SENSEX50"@) {
        1801
    } else if text::begins(u, "SENSEX"@) {
        1001
    } else if text::begins(u, "BANKEX"@) {
        901
    } else if text::begins(u, "NIFTY"@) {
        1756
    } else {
        0
    }
}

/// Freeze quantity of a name reduced to its upper-case letters and digits.
pub fn freeze_of_letters(u: &str) -> (r: i64)
    ensures
        r == freeze_by(u@),
{
    if text::starts_with(u, "NIFTYNXT50") {
        601
    } else if text::starts_with(u, "MIDCPNIFTY") {
        2761
    } else if text::starts_with(u, "BANKNIFTY") {
        601
    } else if text::starts_with(u, "FINNIFTY") {
        1801
    } else if text::starts_with(u, "SENSEX50") {
        1801
    } else if text::starts_with(u, "SENSEX") {
        1001
    } else if text::starts_with(u, "BANKEX") {
        901
    } else if text::starts_with(u, "NIFTY") {
        1756
    } else {
        0
    }
}

/// Freeze quantity of an underlying where the contract master has none.
pub fn freeze_fallback(underlying: &str) -> (r: i64)
    ensures
        r == freeze_by(text::alnums(text::upper_text(underlying@))),
{
    let u = text::uppercase(underlying);
    let letters = text::keep_alnum(u.as_str());
    freeze_of_letters(letters.as_str())
}

/// The exchange of a segment: Bombay where it is named, before the agricultural one under
/// either of its names, before the commodity one; else the national exchange.
pub proof fn law_exchange_of_a_segment(u: Seq<char>)
    ensures
        ({
            let bse = text::has(u, "BSE"@);
            let ncdex = text::has(u, "NCDEX"@) || text::has(u, "NCD_FNO"@);
            let mcx = text::has(u, "MCX"@);
            &&& bse ==> exch_by(u) == "BSE"@
            &&& !bse && ncdex ==> exch_by(u) == "NCDEX"@
            &&& !bse && !ncdex && mcx ==> exch_by(u) == "MCX"@
            &&& !bse && !ncdex && !mcx ==> exch_by(u) == "NSE"@
        }),
{
}

proof fn lemma_lot_names()
    ensures
        curated_tenths("GOLD"@) == 1000,
        curated_tenths("GOLDM"@) == 100,
        curated_tenths("SILVER"@) == 300,
        curated_tenths("SILVERM"@) == 50,
        curated_tenths("SILVERMIC"@) == 10,
        curated_tenths("CRUDEOIL"@) == 1000,
        curated_tenths("CRUDEOILM"@) == 100,
        curated_tenths("NATURALGAS"@) == 2500,
        curated_tenths("NATGASMINI"@) == 1250,
        curated_tenths("ALUMINIUM"@) == 50000,
        curated_tenths("ALUMINI"@) == 10000,
        curated_tenths("LEAD"@) == 50000,
        curated_tenths("LEADMINI"@) == 10000,
        curated_tenths("ZINC"@) == 50000,
        curated_tenths("ZINCMINI"@) == 10000,
        curated_tenths("GOLDTEN"@) == 10,
        curated_tenths("GOLDPETAL"@) == 1,
{
    reveal_strlit("GOLD");
    reveal_strlit("GOLDM");
    reveal_strlit("GOLDGUINEA");
    reveal_strlit("GOLDPETAL");
    reveal_strlit("GOLDTEN");
    reveal_strlit("SILVER");
    reveal_strlit("SILVERM");
    reveal_strlit("SILVERMIC");
    reveal_strlit("SILVER100");
    reveal_strlit("CRUDEOIL");
    reveal_strlit("CRUDEOILM");
    reveal_strlit("NATURALGAS");
    reveal_strlit("NATGASMINI");
    reveal_strlit("COPPER");
    reveal_strlit("ALUMINIUM");
    reveal_strlit("ALUMINI");
    reveal_strlit("LEAD");
    reveal_strlit("LEADMINI");
    reveal_strlit("ZINC");
    reveal_strlit("ZINCMINI");
    assert("GOLD"@.len() == 4 && "GOLD"@[0] == 'G');
    assert("GOLDM"@.len() == 5 && "GOLDM"@[0] == 'G');
    assert("GOLDGUINEA"@.len() == 10 && "GOLDGUINEA"@[0] == 'G');
    assert("GOLDPETAL"@.len() == 9 && "GOLDPETAL"@[0] == 'G');
    assert("GOLDTEN"@.len() == 7 && "GOLDTEN"@[0] == 'G');
    assert("SILVER"@.len() == 6 && "SILVER"@[0] == 'S');
    assert("SILVERM"@.len() == 7 && "SILVERM"@[0] == 'S');
    assert("SILVERMIC"@.len() == 9 && "SILVERMIC"@[0] == 'S' && "SILVERMIC"@[6] == 'M');
    assert("SILVER100"@.len() == 9 && "SILVER100"@[0] == 'S' && "SILVER100"@[6] == '1');
    assert("CRUDEOIL"@.len() == 8 && "CRUDEOIL"@[0] == 'C' && "CRUDEOIL"@[1] == 'R');
    assert("CRUDEOILM"@.len() == 9 && "CRUDEOILM"@[0] == 'C' && "CRUDEOILM"@[1] == 'R');
    assert("NATURALGAS"@.len() == 10 && "NATURALGAS"@[0] == 'N' && "NATURALGAS"@[3] == 'U');
    assert("NATGASMINI"@.len() == 10 && "NATGASMINI"@[0] == 'N' && "NATGASMINI"@[3] == 'G');
    assert("COPPER"@.len() == 6 && "COPPER"@[0] == 'C');
    assert("ALUMINIUM"@.len() == 9 && "ALUMINIUM"@[0] == 'A');
    assert("ALUMINI"@.len() == 7 && "ALUMINI"@[0] == 'A');
    assert("LEAD"@.len() == 4 && "LEAD"@[0] == 'L');
    assert("LEADMINI"@.len() == 8 && "LEADMINI"@[0] == 'L');
    assert("ZINC"@.len() == 4 && "ZINC"@[0] == 'Z');
    assert("ZINCMINI"@.len() == 8 && "ZINCMINI"@[0] == 'Z');
}

/// How the small contracts relate to the large ones of their metal or fuel.
pub proof fn law_small_lots_are_parts_of_large_ones()
    ensures
        10 * curated_tenths("GOLDM"@) == curated_tenths("GOLD"@),
        10 * curated_tenths("GOLDTEN"@) == curated_tenths("GOLDM"@),
        10 * curated_tenths("GOLDPETAL"@) == curated_tenths("GOLDTEN"@),
        6 * curated_tenths("SILVERM"@) == curated_tenths("SILVER"@),
        5 * curated_tenths("SILVERMIC"@) == curated_tenths("SILVERM"@),
        10 * curated_tenths("CRUDEOILM"@) == curated_tenths("CRUDEOIL"@),
        2 * curated_tenths("NATGASMINI"@) == curated_tenths("NATURALGAS"@),
        5 * curated_tenths("ALUMINI"@) == curated_tenths("ALUMINIUM"@),
        5 * curated_tenths("LEADMINI"@) == curated_tenths("LEAD"@),
        5 * curated_tenths("ZINCMINI"@) == curated_tenths("ZINC"@),
        curated_tenths("GOLDPETAL"@) == 1,
{
    lemma_lot_names();
}

/// The curated lot of a symbol is that of the name before its first dash, whatever
/// follows; a symbol without a dash has none.
pub proof fn law_lot_goes_by_the_name(name: Seq<char>, rest: Seq<char>, u: Seq<char>)
    requires
        !name.contains('-'),
        !rest.contains('-'),
        !u.contains('-'),
    ensures
        lot_tenths_by(name.push('-') + rest) == curated_tenths(name),
        lot_tenths_by(u) == 0,
{
    text::law_fields_stand_between(name, rest, '-');
    text::law_fields_stand_between(rest, name, '-');
    let s = name.push('-') + rest;
    assert(s[name.len() as int] == '-');
    assert(s.contains('-'));
}

/// The names of the indices lead to their trading prefix, two stocks lose what follows
/// their hyphen, and every other name only loses its spaces.
pub proof fn law_names_lead_to_prefixes(u: Seq<char>)
    ensures
        underlying_by("NIFTY 50"@) == "NIFTY"@,
        underlying_by("BANK NIFTY"@) == "BANKNIFTY"@,
        underlying_by("GIFT NIFTY"@) == "GIFTNIFTY"@,
        underlying_by("BAJAJ-AUTO"@) == "BAJAJ"@,
        underlying_by("NAM-INDIA"@) == "NAM"@,
        u != "NIFTY 50"@ && u != "BANK NIFTY"@ && u != "FINNIFTY"@ && u != "SENSEX"@ && u
            != "MIDCPNIFTY"@ && u != "GIFT NIFTY"@ && u != "BAJAJ-AUTO"@ && u != "NAM-INDIA"@ && u
            != "TATACOMM"@ ==> underlying_by(u) == text::without(u, ' '),
        u == "FINNIFTY"@ || u == "SENSEX"@ || u == "MIDCPNIFTY"@ || u == "TATACOMM"@
            ==> underlying_by(u) == u,
{
    reveal_strlit("NIFTY 50");
    reveal_strlit("BANK NIFTY");
    reveal_strlit("FINNIFTY");
    reveal_strlit("SENSEX");
    reveal_strlit("MIDCPNIFTY");
    reveal_strlit("GIFT NIFTY");
    reveal_strlit("BAJAJ-AUTO");
    reveal_strlit("NAM-INDIA");
    reveal_strlit("TATACOMM");
    assert("NIFTY 50"@[0] == 'N' && "NIFTY 50"@[1] == 'I' && "NAM-INDIA"@[0] == 'N'
        && "NAM-INDIA"@[1] == 'A');
    assert("BANK NIFTY"@[0] == 'B' && "BANK NIFTY"@[2] == 'N' && "BAJAJ-AUTO"@[0] == 'B'
        && "BAJAJ-AUTO"@[2] == 'J');
    assert("FINNIFTY"@[0] == 'F' && "SENSEX"@[0] == 'S' && "MIDCPNIFTY"@[0] == 'M'
        && "GIFT NIFTY"@[0] == 'G' && "TATACOMM"@[0] == 'T');
}

proof fn lemma_begins_same(a: Seq<char>, rest: Seq<char>, p: Seq<char>, k: int)
    requires
        0 <= k < a.len(),
        0 <= k < p.len(),
        a[k] != p[k],
    ensures
        !text::begins(a + rest, p),
{
    if text::begins(a + rest, p) {
        assert((a + rest).subrange(0, p.len() as int)[k] == (a + rest)[k]);
        assert((a + rest)[k] == a[k]);
    }
}

/// The built-in freeze quantity goes by the index that a symbol begins with, whatever
/// follows: the next fifty and the large index have their own, and so has the small one of
/// the Bombay exchange.
pub proof fn law_freeze_by_index(rest: Seq<char>)
    ensures
        freeze_by("BANKNIFTY"@ + rest) == freeze_by("NIFTYNXT50"@ + rest),
        freeze_by("FINNIFTY"@ + rest) == freeze_by("SENSEX50"@ + rest),
        freeze_by("BANKNIFTY"@ + rest) == 601,
        freeze_by("FINNIFTY"@ + rest) == 1801,
        freeze_by("MIDCPNIFTY"@ + rest) == 2761,
        freeze_by("BANKEX"@ + rest) == 901,
        !text::begins("SENSEX"@ + rest, "SENSEX50"@) ==> freeze_by("SENSEX"@ + rest) == 1001,
        !text::begins("NIFTY"@ + rest, "NIFTYNXT50"@) ==> freeze_by("NIFTY"@ + rest) == 1756,
{
    reveal_strlit("NIFTYNXT50");
    reveal_strlit("MIDCPNIFTY");
    reveal_strlit("BANKNIFTY");
    reveal_strlit("FINNIFTY");
    reveal_strlit("SENSEX50");
    reveal_strlit("SENSEX");
    reveal_strlit("BANKEX");
    reveal_strlit("NIFTY");
    let (nxt, mid, bank, fin, s50, sx, bex, nf) = (
        "NIFTYNXT50"@,
        "MIDCPNIFTY"@,
        "BANKNIFTY"@,
        "FINNIFTY"@,
        "SENSEX50"@,
        "SENSEX"@,
        "BANKEX"@,
        "NIFTY"@,
    );
    assert(nxt[0] == 'N' && mid[0] == 'M' && bank[0] == 'B' && fin[0] == 'F' && s50[0] == 'S'
        && sx[0] == 'S' && bex[0] == 'B' && nf[0] == 'N');
    assert(bank[4] == 'N' && bex[4] == 'E');
    text::law_parts_are_found(rest, nxt, rest);
    text::law_parts_are_found(rest, mid, rest);
    text::law_parts_are_found(rest, bank, rest);
    text::law_parts_are_found(rest, fin, rest);
    text::law_parts_are_found(rest, s50, rest);
    text::law_parts_are_found(rest, sx, rest);
    text::law_parts_are_found(rest, bex, rest);
    text::law_parts_are_found(rest, nf, rest);
    lemma_begins_same(mid, rest, nxt, 0);
    lemma_begins_same(bank, rest, nxt, 0);
    lemma_begins_same(bank, rest, mid, 0);
    lemma_begins_same(fin, rest, nxt, 0);
    lemma_begins_same(fin, rest, mid, 0);
    lemma_begins_same(fin, rest, bank, 0);
    lemma_begins_same(s50, rest, nxt, 0);
    lemma_begins_same(s50, rest, mid, 0);
    lemma_begins_same(s50, rest, bank, 0);
    lemma_begins_same(s50, rest, fin, 0);
    lemma_begins_same(sx, rest, nxt, 0);
    lemma_begins_same(sx, rest, mid, 0);
    lemma_begins_same(sx, rest, bank, 0);
    lemma_begins_same(sx, rest, fin, 0);
    lemma_begins_same(bex, rest, nxt, 0);
    lemma_begins_same(bex, rest, mid, 0);
    lemma_begins_same(bex, rest, bank, 4);
    lemma_begins_same(bex, rest, fin, 0);
    lemma_begins_same(bex, rest, s50, 0);
    lemma_begins_same(bex, rest, sx, 0);
    lemma_begins_same(nf, rest, mid, 0);
    lemma_begins_same(nf, rest, bank, 0);
    lemma_begins_same(nf, rest, fin, 0);
    lemma_begins_same(nf, rest, s50, 0);
    lemma_begins_same(nf, rest, sx, 0);
    lemma_begins_same(nf, rest, bex, 0);
}

/// The prefixes of the cash indices, and no other prefix, are those of an index.
pub proof fn law_index_prefixes(u: Seq<char>)
    ensures
        index_by("NIFTY"@) && index_by("BANKNIFTY"@) && index_by("FINNIFTY"@) && index_by(
            "MIDCPNIFTY"@,
        ) && index_by("NIFTYNXT50"@) && index_by("SENSEX"@) && index_by("SENSEX50"@) && index_by(
            "BANKEX"@,
        ) && index_by("GIFTNIFTY"@),
        index_by(u) ==> u == "NIFTY"@ || u == "BANKNIFTY"@ || u == "FINNIFTY"@ || u == "MIDCPNIFTY"@
            || u == "NIFTYNXT50"@ || u == "SENSEX"@ || u == "SENSEX50"@ || u == "BANKEX"@ || u
            == "GIFTNIFTY"@,
{
}

} // verus!
