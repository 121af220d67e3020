//! Removal of rows by what they refer to.

use vstd::prelude::*;

verus! {

/// A row that refers to a strategy, or carries a key of its own.
pub trait Refers: Sized {
    /// The row refers to the strategy.
    spec fn refers(self, id: Seq<char>) -> bool;

    /// The row carries the key.
    spec fn carries(self, key: Seq<char>) -> bool;

    /// Whether the row refers to the strategy.
    fn refers_to(&self, id: &str) -> (r: bool)
        ensures
            r == self.refers(id@),
    ;

    /// Whether the row carries the key.
    fn carries_key(&self, key: &str) -> (r: bool)
        ensures
            r == self.carries(key@),
    ;
}

/// The row goes: it refers to the strategy, or carries the key.
pub open spec fn goes<T: Refers>(x: T, by_key: bool, id: Seq<char>) -> bool {
    if by_key {
        x.carries(id)
    } else {
        x.refers(id)
    }
}

/// The rows that do not go, in order.
pub open spec fn stay<T: Refers>(v: Seq<T>, by_key: bool, id: Seq<char>) -> Seq<T> {
    v.filter(|x: T| !goes(x, by_key, id))
}

/// Removes the rows that refer to a strategy, or carry a key.
pub fn remove_rows<T: Refers>(v: Vec<T>, by_key: bool, id: &str) -> (r: Vec<T>)
    ensures
        r@ == stay(v@, by_key, id@),
{
    let ghost p = |x: T| !goes(x, by_key, id@);
    let mut rest = v;
    let ghost all = rest@;
    let mut back: Vec<T> = Vec::new();
    assert(all.take(all.len() as int) =~= all);
    assert(rest@.filter(p) + back@.reverse() =~= all.filter(p));
    while rest.len() > 0
        invariant
            p == (|x: T| !goes(x, by_key, id@)),
            rest@.len() <= all.len(),
            rest@ == all.take(rest@.len() as int),
            rest@.filter(p) + back@.reverse() == all.filter(p),
        decreases rest@.len(),
    {
        let ghost was = rest@;
        let ghost kept = back@;
        match rest.pop() {
            Some(x) => {
                proof {
                    reveal(Seq::filter);
                    assert(was.drop_last() =~= rest@);
                    assert(was.last() == x);
                }
                let out = if by_key {
                    x.carries_key(id)
                } else {
                    x.refers_to(id)
                };
                if !out {
                    back.push(x);
                    assert(back@.reverse() =~= seq![x] + kept.reverse());
                    assert(rest@.filter(p).push(x) + kept.reverse() =~= rest@.filter(p) + (seq![x]
                        + kept.reverse()));
                }
                assert(rest@ =~= all.take(rest@.len() as int));
            },
            None => {},
        }
    }
    proof {
        reveal(Seq::filter);
        assert(rest@.filter(p) =~= Seq::<T>::empty());
    }
    let ghost mid = back@;
    let mut out: Vec<T> = Vec::new();
    while back.len() > 0
        invariant
            back@.len() <= mid.len(),
            back@ == mid.take(back@.len() as int),
            out@ == mid.skip(back@.len() as int).reverse(),
        decreases back@.len(),
    {
        let ghost n = back@.len() as int;
        match back.pop() {
            Some(x) => {
                out.push(x);
                assert(mid.skip(n - 1).reverse() =~= mid.skip(n).reverse().push(x));
                assert(back@ =~= mid.take(n - 1));
            },
            None => {},
        }
    }
    assert(mid.skip(0) =~= mid);
    assert(out@ =~= all.filter(p));
    out
}

/// No row that goes is left, and every row that stays was there before.
pub proof fn law_no_trace_is_left<T: Refers>(v: Seq<T>, by_key: bool, id: Seq<char>, i: int)
    requires
        0 <= i < stay(v, by_key, id).len(),
    ensures
        !goes(stay(v, by_key, id)[i], by_key, id),
        v.contains(stay(v, by_key, id)[i]),
{
    let p = |x: T| !goes(x, by_key, id);
    v.lemma_filter_pred(p, i);
    let kept = v.filter(p);
    assert(kept.contains(kept[i]));
    v.lemma_filter_contains_rev(p, kept[i]);
}

} // verus!
