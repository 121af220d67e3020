//! Stable rankings by integer keys.

use vstd::prelude::*;

verus! {

/// The first pair of keys is smaller than the second.
pub open spec fn key_below(a: (i64, i64), b: (i64, i64)) -> bool {
    a.0 < b.0 || (a.0 == b.0 && a.1 < b.1)
}

/// Place `a` ranks before place `b`: its keys come first, and of equal keys the
/// earlier place does.
pub open spec fn before(keys: Seq<(i64, i64)>, rising: bool, a: int, b: int) -> bool {
    if keys[a] == keys[b] {
        a < b
    } else if rising {
        key_below(keys[a], keys[b])
    } else {
        key_below(keys[b], keys[a])
    }
}

/// The list holds places below `n`, each in rank order.
pub open spec fn in_rank_order(
    keys: Seq<(i64, i64)>,
    rising: bool,
    r: Seq<usize>,
    n: int,
) -> bool {
    &&& forall|i: int| 0 <= i < r.len() ==> 0 <= #[trigger] r[i] < n
    &&& forall|i: int, j: int|
        0 <= i < j < r.len() ==> before(keys, rising, #[trigger] r[i] as int, #[trigger] r[j] as int)
}

/// The list is the ranking of all keys: every place once, in rank order.
pub open spec fn ranking(keys: Seq<(i64, i64)>, rising: bool, r: Seq<usize>) -> bool {
    &&& r.len() == keys.len()
    &&& in_rank_order(keys, rising, r, keys.len() as int)
}

/// The places of `keys` in rank order; equal keys keep their order.
pub fn rank(keys: &Vec<(i64, i64)>, rising: bool) -> (r: Vec<usize>)
    ensures
        ranking(keys@, rising, r@),
{
    let mut r: Vec<usize> = Vec::new();
    let mut n: usize = 0;
    while n < keys.len()
        invariant
            n <= keys.len(),
            r.len() == n,
            in_rank_order(keys@, rising, r@, n as int),
        decreases keys.len() - n,
    {
        let k = keys[n];
        let mut at: usize = r.len();
        let mut go = true;
        while go && at > 0
            invariant
                at <= r.len(),
                r.len() == n,
                n < keys.len(),
                k == keys@[n as int],
                in_rank_order(keys@, rising, r@, n as int),
                forall|j: int| at <= j < r.len() ==> before(keys@, rising, n as int, #[trigger] r@[j] as int),
                !go ==> at > 0 && before(keys@, rising, r@[at - 1] as int, n as int),
            decreases at + (if go { 1int } else { 0int }),
        {
            assert(0 <= r@[at - 1] < n);
            let q = keys[r[at - 1]];
            let first = if rising {
                k.0 < q.0 || (k.0 == q.0 && k.1 < q.1)
            } else {
                q.0 < k.0 || (q.0 == k.0 && q.1 < k.1)
            };
            if first {
                at -= 1;
            } else {
                go = false;
            }
        }
        let ghost old_r = r@;
        r.insert(at, n);
        proof {
            assert(r@ == old_r.insert(at as int, n));
            assert forall|i: int, j: int| 0 <= i < j < r@.len() implies before(
                keys@,
                rising,
                #[trigger] r@[i] as int,
                #[trigger] r@[j] as int,
            ) by {
                if at > 0 {
                    assert(before(keys@, rising, old_r[at - 1] as int, n as int));
                }
                if j == at {
                    assert(r@[i] == old_r[i]);
                    if i < at - 1 {
                        assert(before(keys@, rising, old_r[i] as int, old_r[at - 1] as int));
                    }
                } else if i == at {
                    assert(r@[j] == old_r[j - 1]);
                } else {
                    let a = if i < at { i } else { i - 1 };
                    let b = if j < at { j } else { j - 1 };
                    assert(r@[i] == old_r[a] && r@[j] == old_r[b]);
                }
            }
            assert forall|i: int| 0 <= i < r@.len() implies 0 <= #[trigger] r@[i] < n + 1 by {
                if i < at {
                    assert(r@[i] == old_r[i]);
                } else if i > at {
                    assert(r@[i] == old_r[i - 1]);
                }
            }
        }
        n += 1;
    }
    r
}

proof fn lemma_rank_has(keys: Seq<(i64, i64)>, rising: bool, r: Seq<usize>, p: int)
    requires
        ranking(keys, rising, r),
        0 <= p < keys.len(),
    ensures
        exists|i: int| 0 <= i < r.len() && #[trigger] r[i] == p,
{
    let m = r.map_values(|x: usize| x as int);
    assert(m.no_duplicates()) by {
        assert forall|i: int, j: int| 0 <= i < m.len() && 0 <= j < m.len() && i != j implies m[i]
            != m[j] by {
            if i < j {
                assert(before(keys, rising, r[i] as int, r[j] as int));
            } else {
                assert(before(keys, rising, r[j] as int, r[i] as int));
            }
        }
    }
    let full = vstd::set_lib::set_int_range(0, keys.len() as int);
    vstd::set_lib::lemma_int_range(0, keys.len() as int);
    m.unique_seq_to_set();
    assert(m.to_set().subset_of(full)) by {
        assert forall|x: int| m.to_set().contains(x) implies full.contains(x) by {
            let i = choose|i: int| 0 <= i < m.len() && m[i] == x;
            assert(r[i] == x);
        }
    }
    vstd::set_lib::lemma_subset_equality(m.to_set(), full);
    assert(full.contains(p));
    assert(m.to_set().contains(p));
    let i = choose|i: int| 0 <= i < m.len() && m[i] == p;
    assert(r[i] == p);
}

/// A ranking is determined by the keys: there is only one.
pub proof fn law_ranking_is_unique(
    keys: Seq<(i64, i64)>,
    rising: bool,
    a: Seq<usize>,
    b: Seq<usize>,
)
    requires
        ranking(keys, rising, a),
        ranking(keys, rising, b),
    ensures
        a == b,
{
    assert forall|i: int| 0 <= i < a.len() implies a[i] == b[i] by {
        lemma_rank_at(keys, rising, a, b, i);
    }
    assert(a =~= b);
}

proof fn lemma_rank_at(
    keys: Seq<(i64, i64)>,
    rising: bool,
    a: Seq<usize>,
    b: Seq<usize>,
    n: int,
)
    requires
        ranking(keys, rising, a),
        ranking(keys, rising, b),
        0 <= n < a.len(),
    ensures
        a[n] == b[n],
    decreases n,
{
    assert forall|i: int| 0 <= i < n implies a[i] == b[i] by {
        lemma_rank_at(keys, rising, a, b, i);
    }
    if a[n] != b[n] {
        lemma_rank_has(keys, rising, b, a[n] as int);
        let j = choose|j: int| 0 <= j < b.len() && b[j] == a[n] as int;
        lemma_rank_has(keys, rising, a, b[n] as int);
        let k = choose|k: int| 0 <= k < a.len() && a[k] == b[n] as int;
        if j < n {
            assert(a[j] == b[j]);
            assert(before(keys, rising, a[j] as int, a[n] as int));
        }
        if k < n {
            assert(a[k] == b[k]);
            assert(before(keys, rising, b[k] as int, b[n] as int));
        }
        assert(j > n && k > n);
        assert(before(keys, rising, b[n] as int, b[j] as int));
        assert(before(keys, rising, a[n] as int, a[k] as int));
        assert(false);
    }
}

/// The first `n` of a list, or all of it.
pub open spec fn first<T>(s: Seq<T>, n: int) -> Seq<T> {
    if n <= 0 {
        Seq::empty()
    } else if n >= s.len() {
        s
    } else {
        s.take(n)
    }
}

/// The list is the first `n` places of the ranking.
pub open spec fn leaders(keys: Seq<(i64, i64)>, rising: bool, n: int, r: Seq<usize>) -> bool {
    exists|full: Seq<usize>| #[trigger] ranking(keys, rising, full) && r == first(full, n)
}

/// The first `n` places of the ranking.
pub fn rank_first(keys: &Vec<(i64, i64)>, rising: bool, n: i64) -> (r: Vec<usize>)
    ensures
        leaders(keys@, rising, n as int, r@),
{
    let mut r = rank(keys, rising);
    let ghost full = r@;
    if n <= 0 {
        r.truncate(0);
    } else if (n as u64) < r.len() as u64 {
        r.truncate(n as usize);
    }
    proof {
        assert(ranking(keys@, rising, full));
        assert(r@ =~= first(full, n as int));
    }
    r
}

/// The first of a list are its front: as many as are asked for, or all of them.
pub proof fn law_first_is_the_front<T>(s: Seq<T>, n: int, i: int)
    ensures
        n <= 0 ==> first(s, n).len() == 0,
        0 < n <= s.len() ==> first(s, n).len() == n,
        n > s.len() ==> first(s, n) == s,
        0 <= i < first(s, n).len() ==> first(s, n)[i] == s[i],
{
}

/// The leaders are the front of the ranking: no key ranks before theirs that is not among
/// them.
pub proof fn law_leaders_lead(keys: Seq<(i64, i64)>, rising: bool, n: int, r: Seq<usize>)
    requires
        leaders(keys, rising, n, r),
    ensures
        n <= 0 ==> r.len() == 0,
        0 < n <= keys.len() ==> r.len() == n,
        n > keys.len() ==> r.len() == keys.len(),
        forall|i: int, j: int|
            0 <= i < j < r.len() ==> before(keys, rising, #[trigger] r[i] as int, #[trigger] r[j] as int),
        exists|full: Seq<usize>| #[trigger]
            ranking(keys, rising, full) && forall|i: int| 0 <= i < r.len() ==> #[trigger] r[i] == full[i],
{
    let full = choose|full: Seq<usize>| #[trigger]
        ranking(keys, rising, full) && r == first(full, n);
    assert(ranking(keys, rising, full));
    assert forall|i: int| 0 <= i < r.len() implies #[trigger] r[i] == full[i] by {
        law_first_is_the_front(full, n, i);
    }
    law_first_is_the_front(full, n, 0);
}

/// Keys rank by their first number, then by their second, and equal keys by their place; a
/// falling rank turns the numbers round and not the places.
pub proof fn law_rank_by_keys(keys: Seq<(i64, i64)>, a: int, b: int)
    ensures
        keys[a].0 < keys[b].0 ==> before(keys, true, a, b) && !before(keys, false, a, b),
        keys[a].0 == keys[b].0 && keys[a].1 < keys[b].1 ==> before(keys, true, a, b) && !before(
            keys,
            false,
            a,
            b,
        ),
        keys[a] == keys[b] ==> (before(keys, true, a, b) <==> a < b) && (before(keys, false, a, b)
            <==> a < b),
        keys[a] != keys[b] ==> (before(keys, true, a, b) <==> before(keys, false, b, a)),
{
}

} // verus!
