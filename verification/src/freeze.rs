//! Exchange freeze quantities: the most one order may carry.

use vstd::prelude::*;
use std::collections::HashMap;
use crate::num::Num;
use crate::scrip;
use crate::text;
use crate::textmap::TextMap;

verus! {

broadcast use vstd::std_specs::hash::group_hash_axioms;

/// Columns of the detailed contract master: id, underlying, freeze quantity.
pub struct Columns {
    pub id: usize,
    pub under: usize,
    pub qty: Option<usize>,
}

/// Place of the first field that reads `name` in any case; the length where
/// there is none.
pub open spec fn column(fields: Seq<Seq<char>>, name: Seq<char>, k: int) -> int
    decreases fields.len() - k,
{
    if k >= fields.len() || text::downs(text::trimmed(fields[k])) == name {
        k
    } else {
        column(fields, name, k + 1)
    }
}

/// The columns a header names; `None` where it misses the id or the underlying.
pub open spec fn header(fields: Seq<Seq<char>>) -> Option<Columns> {
    let n = fields.len() as int;
    let a = column(fields, "security_id"@, 0);
    let b = column(fields, "underlying_symbol"@, 0);
    let c = column(fields, "sm_freeze_qty"@, 0);
    if a < n && b < n {
        Some(
            Columns {
                id: a as usize,
                under: b as usize,
                qty: if c < n {
                    Some(c as usize)
                } else {
                    None
                },
            },
        )
    } else {
        None
    }
}

fn column_of(fields: &Vec<String>, name: &str) -> (r: usize)
    ensures
        r == column(text::views(fields@), name@, 0),
        r <= fields@.len(),
{
    let mut k: usize = 0;
    while k < fields.len()
        invariant
            k <= fields.len(),
            column(text::views(fields@), name@, 0) == column(
                text::views(fields@),
                name@,
                k as int,
            ),
        decreases fields.len() - k,
    {
        let t = text::trim(fields[k].as_str());
        let l = text::to_ascii_lower(t.as_str());
        proof {
            assert(text::views(fields@)[k as int] == fields@[k as int]@);
        }
        if text::same(l.as_str(), name) {
            return k;
        }
        k += 1;
    }
    k
}

fn header_of(fields: &Vec<String>) -> (r: Option<Columns>)
    ensures
        r == header(text::views(fields@)),
{
    let a: usize = column_of(fields, "security_id");
    let b: usize = column_of(fields, "underlying_symbol");
    let c: usize = column_of(fields, "sm_freeze_qty");
    proof {
        assert(text::views(fields@).len() == fields@.len());
    }
    let n: usize = fields.len();
    if a < n && b < n {
        Some(
            Columns {
                id: a,
                under: b,
                qty: if c < n {
                    Some(c)
                } else {
                    None
                },
            },
        )
    } else {
        None
    }
}

/// Freeze quantities by id and by underlying.
pub struct FreezeMap {
    by_id: HashMap<i64, Num>,
    by_under: TextMap<Num>,
}

/// Freeze quantities as plain maps.
#[verifier::ext_equal]
pub struct FreezeV {
    pub by_id: Map<i64, Num>,
    pub by_under: Map<Seq<char>, Num>,
}

impl View for FreezeMap {
    type V = FreezeV;

    closed spec fn view(&self) -> FreezeV {
        FreezeV { by_id: self.by_id@, by_under: self.by_under@ }
    }
}

/// What a data line adds: a positive quantity replaces that of its id, and the
/// first quantity of an underlying stays.
pub open spec fn with_row(
    m: FreezeV,
    cols: Columns,
    fields: Seq<Seq<char>>,
    qty: Option<Num>,
) -> FreezeV {
    let id = text::int_value(text::trimmed(fields[cols.id as int]));
    let under = text::upper_text(text::trimmed(fields[cols.under as int]));
    if cols.qty is None || fields.len() <= cols.qty->0 || fields.len() <= cols.id || fields.len()
        <= cols.under || id is None || qty is None {
        m
    } else {
        let q = qty->0;
        FreezeV {
            by_id: if q.positive() {
                m.by_id.insert(id->0 as i64, q)
            } else {
                m.by_id
            },
            by_under: if under.len() > 0 && !m.by_under.contains_key(under) {
                m.by_under.insert(under, q)
            } else {
                m.by_under
            },
        }
    }
}

/// Reads the detailed contract master line by line. Columns are located by the
/// first line that names them, so a new column order cannot corrupt the map.
pub struct FreezeReader {
    pub cols: Option<Columns>,
    pub map: FreezeMap,
}

impl FreezeReader {
    /// A reader that has seen no line.
    pub fn new() -> (r: Self)
        ensures
            r.cols is None,
            r.map@.by_id == Map::<i64, Num>::empty(),
            r.map@.by_under == Map::<Seq<char>, Num>::empty(),
    {
        FreezeReader {
            cols: None,
            map: FreezeMap { by_id: HashMap::new(), by_under: TextMap::new() },
        }
    }

    /// The text of the quantity a line carries, where it carries one.
    pub fn qty_text(&self, fields: &Vec<String>) -> (r: Option<String>)
        ensures
            match self.cols {
                Some(c) => match c.qty {
                    Some(q) => if q < fields@.len() {
                        r is Some && r->0@ == text::trimmed(fields@[q as int]@)
                    } else {
                        r is None
                    },
                    None => r is None,
                },
                None => r is None,
            },
    {
        match &self.cols {
            Some(c) => match c.qty {
                Some(q) => if q < fields.len() {
                    Some(text::trim(fields[q].as_str()))
                } else {
                    None
                },
                None => None,
            },
            None => None,
        }
    }

    /// Takes one line; `qty` is the number its quantity text reads as. An empty
    /// line changes nothing.
    pub fn line(&mut self, fields: &Vec<String>, qty: Option<Num>)
        ensures
            ({
                let f = text::views(fields@);
                if f.len() == 0 || (f.len() == 1 && f[0].len() == 0) {
                    *final(self) == *old(self)
                } else if old(self).cols is None {
                    final(self).cols == header(f) && final(self).map@ == old(self).map@
                } else {
                    final(self).cols == old(self).cols && final(self).map@ == with_row(
                        old(self).map@,
                        old(self).cols->0,
                        f,
                        qty,
                    )
                }
            }),
    {
        let n: usize = fields.len();
        proof {
            assert(text::views(fields@).len() == n);
            assert(forall|i: int|
                0 <= i < n ==> text::views(fields@)[i] == (#[trigger] fields@[i])@);
        }
        if n == 0 || (n == 1 && fields[0].as_str().is_empty()) {
            return ;
        }
        let (si, ui, fi) = match &self.cols {
            Some(c) => (c.id, c.under, c.qty),
            None => {
                self.cols = header_of(fields);
                return ;
            },
        };
        let reach = match fi {
            Some(q) => q < n && si < n && ui < n,
            None => false,
        };
        if !reach {
            return ;
        }
        let it = text::trim(fields[si].as_str());
        let id: i64 = match text::parse_int(it.as_str()) {
            Some(i) => i,
            None => {
                return ;
            },
        };
        let q = match qty {
            Some(q) => q,
            None => {
                return ;
            },
        };
        let ghost was = self.map@;
        if q.is_positive() {
            self.map.by_id.insert(id, q);
        }
        let ut = text::trim(fields[ui].as_str());
        let under = text::uppercase(ut.as_str());
        if !under.as_str().is_empty() {
            if !self.map.by_under.contains_key(under.as_str()) {
                self.map.by_under.insert(under, q);
            }
        }
        proof {
            assert(self.map@ =~= with_row(was, self.cols->0, text::views(fields@), qty));
        }
    }

    /// The finished map; `None` where no id has a quantity.
    pub fn finish(self) -> (r: Option<FreezeMap>)
        ensures
            match r {
                Some(m) => m@ == self.map@ && m@.by_id.dom().len() > 0,
                None => self.map@.by_id.dom().len() == 0,
            },
    {
        if self.map.by_id.len() == 0 {
            None
        } else {
            Some(self.map)
        }
    }
}

/// A freeze quantity: as the master lists it, or by the built-in index table.
#[derive(Clone, Copy, Debug, PartialEq, Eq, Structural)]
pub enum FreezeQty {
    Listed(Num),
    Fallback(i64),
}

/// The freeze quantity of an id and an underlying: by id, then by underlying,
/// then by the built-in table.
pub open spec fn freeze_for(m: Option<FreezeV>, id: i64, underlying: Seq<char>) -> FreezeQty {
    if m is Some && id > 0 && m->0.by_id.contains_key(id) {
        FreezeQty::Listed(m->0.by_id[id])
    } else if m is Some && underlying.len() > 0 && m->0.by_under.contains_key(
        text::upper_text(underlying),
    ) {
        FreezeQty::Listed(m->0.by_under[text::upper_text(underlying)])
    } else {
        FreezeQty::Fallback(
            scrip::freeze_by(text::alnums(text::upper_text(underlying))) as i64,
        )
    }
}

/// The freeze quantity of an id and an underlying.
pub fn freeze_qty(map: Option<&FreezeMap>, security_id: i64, underlying: &str) -> (r: FreezeQty)
    ensures
        r == freeze_for(
            match map {
                Some(m) => Some(m@),
                None => None,
            },
            security_id,
            underlying@,
        ),
{
    if let Some(m) = map {
        if security_id > 0 {
            if let Some(q) = m.by_id.get(&security_id) {
                return FreezeQty::Listed(*q);
            }
        }
        if !underlying.is_empty() {
            let u = text::uppercase(underlying);
            if let Some(q) = m.by_under.get(u.as_str()) {
                return FreezeQty::Listed(*q);
            }
        }
    }
    FreezeQty::Fallback(scrip::freeze_fallback(underlying))
}

proof fn lemma_column(fields: Seq<Seq<char>>, name: Seq<char>, k: int)
    requires
        0 <= k <= fields.len(),
    ensures
        k <= column(fields, name, k) <= fields.len(),
        column(fields, name, k) < fields.len() ==> text::downs(
            text::trimmed(fields[column(fields, name, k)]),
        ) == name,
        forall|i: int|
            k <= i < column(fields, name, k) ==> text::downs(text::trimmed(#[trigger] fields[i]))
                != name,
    decreases fields.len() - k,
{
    if k < fields.len() && text::downs(text::trimmed(fields[k])) != name {
        lemma_column(fields, name, k + 1);
    }
}

/// The header names each column where it first stands, in any letters and with blanks
/// around it; without id or underlying there is no header.
pub proof fn law_header_names_columns(fields: Seq<Seq<char>>)
    requires
        fields.len() <= usize::MAX,
    ensures
        header(fields) matches Some(c) ==> c.id < fields.len() && c.under < fields.len()
            && text::downs(text::trimmed(fields[c.id as int])) == "security_id"@ && text::downs(
            text::trimmed(fields[c.under as int]),
        ) == "underlying_symbol"@ && (c.qty is Some ==> c.qty->0 < fields.len() && text::downs(
            text::trimmed(fields[c.qty->0 as int]),
        ) == "sm_freeze_qty"@),
        header(fields) is None ==> (forall|i: int|
            0 <= i < fields.len() ==> text::downs(text::trimmed(#[trigger] fields[i]))
                != "security_id"@) || (forall|i: int|
            0 <= i < fields.len() ==> text::downs(text::trimmed(#[trigger] fields[i]))
                != "underlying_symbol"@),
{
    lemma_column(fields, "security_id"@, 0);
    lemma_column(fields, "underlying_symbol"@, 0);
    lemma_column(fields, "sm_freeze_qty"@, 0);
}

/// What a row of the list adds: a positive quantity counts for its id, the last one of an
/// id stays; any quantity counts for its underlying, the first one stays; a row that lacks
/// a column or does not read adds nothing.
pub proof fn law_what_a_row_adds(m: FreezeV, cols: Columns, fields: Seq<Seq<char>>, qty: Option<Num>)
    ensures
        ({
            let w = with_row(m, cols, fields, qty);
            let id = text::int_value(text::trimmed(fields[cols.id as int]));
            let under = text::upper_text(text::trimmed(fields[cols.under as int]));
            let reads = cols.qty is Some && cols.qty->0 < fields.len() && cols.id < fields.len()
                && cols.under < fields.len() && id is Some && qty is Some;
            &&& !reads ==> w == m
            &&& reads && !(qty->0).nan && (qty->0).key > 0 ==> w.by_id == m.by_id.insert(
                id->0 as i64,
                qty->0,
            )
            &&& reads && ((qty->0).nan || (qty->0).key <= 0) ==> w.by_id == m.by_id
            &&& reads && under.len() > 0 && !m.by_under.dom().contains(under) ==> w.by_under
                == m.by_under.insert(under, qty->0)
            &&& reads && (under.len() == 0 || m.by_under.dom().contains(under)) ==> w.by_under
                == m.by_under
        }),
{
}

/// The freeze quantity of an instrument: the listed one of its id before that of its
/// underlying; without a list, or outside it, the built-in one.
pub proof fn law_freeze_by_id_first(m: FreezeV, id: i64, under: Seq<char>)
    ensures
        ({
            let u = text::upper_text(under);
            let by_id = id > 0 && m.by_id.dom().contains(id);
            let by_under = under.len() > 0 && m.by_under.dom().contains(u);
            let built_in = FreezeQty::Fallback(scrip::freeze_by(text::alnums(u)) as i64);
            &&& by_id ==> freeze_for(Some(m), id, under) == FreezeQty::Listed(m.by_id[id])
            &&& !by_id && by_under ==> freeze_for(Some(m), id, under) == FreezeQty::Listed(
                m.by_under[u],
            )
            &&& !by_id && !by_under ==> freeze_for(Some(m), id, under) == built_in
            &&& freeze_for(None, id, under) == built_in
        }),
{
}

} // verus!
