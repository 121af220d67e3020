//! A map from texts to values, kept in dictionary order of its keys.

use vstd::prelude::*;
use crate::text;

verus! {

/// Entries stand in strictly rising key order, so no key occurs twice.
pub open spec fn sorted<V>(items: Seq<(Seq<char>, V)>) -> bool {
    forall|i: int, j: int|
        0 <= i < j < items.len() ==> text::below(#[trigger] items[i].0, #[trigger] items[j].0)
}

/// Entry `i` carries the key `k`.
pub open spec fn keyed<V>(items: Seq<(Seq<char>, V)>, k: Seq<char>, i: int) -> bool {
    0 <= i < items.len() && items[i].0 == k
}

/// The map that a list of entries stands for.
pub open spec fn map_of<V>(items: Seq<(Seq<char>, V)>) -> Map<Seq<char>, V> {
    Map::new(
        |k: Seq<char>| exists|i: int| keyed(items, k, i),
        |k: Seq<char>| items[choose|i: int| keyed(items, k, i)].1,
    )
}

/// A map from texts to values, walked in dictionary order of its keys.
#[derive(Debug)]
pub struct TextMap<V> {
    entries: Vec<(String, V)>,
}

impl<V> View for TextMap<V> {
    type V = Map<Seq<char>, V>;

    open spec fn view(&self) -> Map<Seq<char>, V> {
        map_of(self.items())
    }
}

/// The entries as a list of keys and values.
pub open spec fn items_of<V>(entries: Seq<(String, V)>) -> Seq<(Seq<char>, V)> {
    Seq::new(entries.len(), |i: int| (entries[i].0@, entries[i].1))
}

proof fn lemma_key_unique<V>(items: Seq<(Seq<char>, V)>, i: int, j: int)
    requires
        sorted(items),
        0 <= i < items.len(),
        0 <= j < items.len(),
        items[i].0 == items[j].0,
    ensures
        i == j,
{
    text::lemma_below_irreflexive(items[i].0);
}

/// In a sorted list the value of a key is that of the entry that carries it.
pub proof fn lemma_map_of<V>(items: Seq<(Seq<char>, V)>, i: int)
    requires
        sorted(items),
        0 <= i < items.len(),
    ensures
        map_of(items).contains_key(items[i].0),
        map_of(items)[items[i].0] == items[i].1,
{
    let k = items[i].0;
    assert(keyed(items, k, i));
    let j = choose|j: int| keyed(items, k, j);
    lemma_key_unique(items, i, j);
}

/// A map of `n` entries has `n` keys.
pub proof fn lemma_map_len<V>(items: Seq<(Seq<char>, V)>)
    requires
        sorted(items),
    ensures
        map_of(items).dom().finite(),
        map_of(items).dom().len() == items.len(),
    decreases items.len(),
{
    let m = map_of(items);
    if items.len() == 0 {
        assert(m.dom() =~= Set::<Seq<char>>::empty());
    } else {
        let front = items.drop_last();
        lemma_map_len(front);
        let k = items.last().0;
        assert forall|x: Seq<char>| #[trigger]
            m.dom().contains(x) == map_of(front).dom().insert(k).contains(x) by {
            if map_of(front).dom().contains(x) {
                let i = choose|i: int| keyed(front, x, i);
                assert(keyed(items, x, i));
            }
            if x == k {
                assert(keyed(items, x, items.len() - 1));
            }
            if m.dom().contains(x) && x != k {
                let i = choose|i: int| keyed(items, x, i);
                assert(keyed(front, x, i));
            }
        }
        assert(m.dom() =~= map_of(front).dom().insert(k));
        if map_of(front).dom().contains(k) {
            let i = choose|i: int| keyed(front, k, i);
            lemma_key_unique(items, i, items.len() - 1);
        }
    }
}

impl<V> TextMap<V> {
    #[verifier::type_invariant]
    spec fn in_order(self) -> bool {
        sorted(items_of(self.entries@))
    }

    /// The entries in key order.
    pub closed spec fn items(self) -> Seq<(Seq<char>, V)> {
        items_of(self.entries@)
    }

    /// A map without entries.
    pub fn new() -> (r: Self)
        ensures
            r.items() == Seq::<(Seq<char>, V)>::empty(),
            r@ == Map::<Seq<char>, V>::empty(),
    {
        let r = TextMap { entries: Vec::new() };
        proof {
            assert(r.items() =~= Seq::<(Seq<char>, V)>::empty());
            assert(r@ =~= Map::<Seq<char>, V>::empty());
        }
        r
    }

    /// The number of entries.
    pub fn len(&self) -> (r: usize)
        ensures
            r == self.items().len(),
            r == self@.dom().len(),
            sorted(self.items()),
    {
        proof {
            use_type_invariant(self);
            lemma_map_len(self.items());
        }
        self.entries.len()
    }

    /// The key of entry `i`.
    pub fn key_at(&self, i: usize) -> (r: &String)
        requires
            i < self.items().len(),
        ensures
            r@ == self.items()[i as int].0,
    {
        &self.entries[i].0
    }

    /// The value of entry `i`.
    pub fn value_at(&self, i: usize) -> (r: &V)
        requires
            i < self.items().len(),
        ensures
            *r == self.items()[i as int].1,
    {
        &self.entries[i].1
    }

    /// The first entry whose key does not come before `k`.
    fn seek(&self, k: &str) -> (r: usize)
        ensures
            r <= self.entries@.len(),
            forall|j: int| 0 <= j < r ==> text::below(#[trigger] self.items()[j].0, k@),
            r < self.entries@.len() ==> !text::below(self.items()[r as int].0, k@),
    {
        let mut i: usize = 0;
        while i < self.entries.len() && text::text_below(self.entries[i].0.as_str(), k)
            invariant
                i <= self.entries@.len(),
                forall|j: int| 0 <= j < i ==> text::below(#[trigger] self.items()[j].0, k@),
            decreases self.entries@.len() - i,
        {
            i += 1;
        }
        i
    }

    proof fn lemma_absent(&self, k: Seq<char>, r: int)
        requires
            sorted(self.items()),
            0 <= r <= self.items().len(),
            forall|j: int| 0 <= j < r ==> text::below(#[trigger] self.items()[j].0, k),
            r < self.items().len() ==> text::below(k, self.items()[r].0),
        ensures
            !self@.contains_key(k),
    {
        let items = self.items();
        if exists|i: int| keyed(items, k, i) {
            let i = choose|i: int| keyed(items, k, i);
            text::lemma_below_irreflexive(k);
            if i > r {
                text::lemma_below_transitive(k, items[r].0, items[i].0);
            }
        }
    }

    /// The value under `k`.
    pub fn get(&self, k: &str) -> (r: Option<&V>)
        ensures
            match r {
                Some(v) => self@.contains_key(k@) && *v == self@[k@],
                None => !self@.contains_key(k@),
            },
    {
        proof {
            use_type_invariant(self);
        }
        let i: usize = self.seek(k);
        if i < self.entries.len() && text::same(self.entries[i].0.as_str(), k) {
            proof {
                lemma_map_of(self.items(), i as int);
            }
            Some(&self.entries[i].1)
        } else {
            proof {
                if i < self.entries@.len() {
                    text::lemma_below_total(k@, self.items()[i as int].0);
                }
                self.lemma_absent(k@, i as int);
            }
            None
        }
    }

    /// Whether `k` has a value.
    pub fn contains_key(&self, k: &str) -> (r: bool)
        ensures
            r == self@.contains_key(k@),
    {
        self.get(k).is_some()
    }

    /// Sets the value under `k`.
    pub fn insert(&mut self, k: String, v: V)
        ensures
            final(self)@ == old(self)@.insert(k@, v),
    {
        proof {
            use_type_invariant(&*self);
        }
        let i: usize = self.seek(k.as_str());
        let hit = i < self.entries.len() && text::same(self.entries[i].0.as_str(), k.as_str());
        let ghost was = self.items();
        let ghost key = k@;
        proof {
            if i < was.len() {
                text::lemma_below_total(key, was[i as int].0);
            }
            if !hit {
                self.lemma_absent(key, i as int);
            }
        }
        let mut e: Vec<(String, V)> = Vec::new();
        core::mem::swap(&mut e, &mut self.entries);
        if hit {
            e.remove(i);
        }
        e.insert(i, (k, v));
        let ghost now = items_of(e@);
        proof {
            if hit {
                assert(now =~= was.update(i as int, (key, v)));
            } else {
                assert(now =~= was.insert(i as int, (key, v)));
            }
            assert forall|a: int, b: int| 0 <= a < b < now.len() implies text::below(
                #[trigger] now[a].0,
                #[trigger] now[b].0,
            ) by {
                if !hit && a == i && b > i + 1 {
                    text::lemma_below_transitive(key, was[i as int].0, was[b - 1].0);
                }
            }
            assert forall|x: Seq<char>| #![auto]
                map_of(now).contains_key(x) == map_of(was).insert(key, v).contains_key(x) by {
                if x == key {
                    assert(keyed(now, x, i as int));
                } else {
                    if map_of(was).contains_key(x) {
                        let j = choose|j: int| keyed(was, x, j);
                        if hit || j < i {
                            assert(keyed(now, x, j));
                        } else {
                            assert(keyed(now, x, j + 1));
                        }
                    }
                    if map_of(now).contains_key(x) {
                        let j = choose|j: int| keyed(now, x, j);
                        if hit || j < i {
                            assert(keyed(was, x, j));
                        } else {
                            assert(keyed(was, x, j - 1));
                        }
                    }
                }
            }
            assert forall|x: Seq<char>| map_of(now).contains_key(x) implies #[trigger] map_of(
                now,
            )[x] == map_of(was).insert(key, v)[x] by {
                let j = choose|j: int| keyed(now, x, j);
                lemma_map_of(now, j);
                if x == key {
                    lemma_map_of(now, i as int);
                } else {
                    if hit || j < i {
                        lemma_map_of(was, j);
                    } else {
                        lemma_map_of(was, j - 1);
                    }
                }
            }
            assert(map_of(now) =~= map_of(was).insert(key, v));
        }
        *self = TextMap { entries: e };
    }

    /// Drops the value under `k`.
    pub fn remove(&mut self, k: &str)
        ensures
            final(self)@ == old(self)@.remove(k@),
    {
        proof {
            use_type_invariant(&*self);
        }
        let i: usize = self.seek(k);
        let hit = i < self.entries.len() && text::same(self.entries[i].0.as_str(), k);
        let ghost was = self.items();
        proof {
            if i < was.len() {
                text::lemma_below_total(k@, was[i as int].0);
            }
            if !hit {
                self.lemma_absent(k@, i as int);
                assert(map_of(was) =~= map_of(was).remove(k@));
            }
        }
        if !hit {
            return ;
        }
        let mut e: Vec<(String, V)> = Vec::new();
        core::mem::swap(&mut e, &mut self.entries);
        e.remove(i);
        let ghost now = items_of(e@);
        proof {
            assert(now =~= was.remove(i as int));
            assert forall|x: Seq<char>| #![auto]
                map_of(now).contains_key(x) == map_of(was).remove(k@).contains_key(x) by {
                if map_of(was).contains_key(x) && x != k@ {
                    let j = choose|j: int| keyed(was, x, j);
                    if j < i {
                        assert(keyed(now, x, j));
                    } else {
                        assert(keyed(now, x, j - 1));
                    }
                }
                if map_of(now).contains_key(x) {
                    let j = choose|j: int| keyed(now, x, j);
                    if j < i {
                        assert(keyed(was, x, j));
                        if x == k@ {
                            lemma_key_unique(was, i as int, j);
                        }
                    } else {
                        assert(keyed(was, x, j + 1));
                        if x == k@ {
                            lemma_key_unique(was, i as int, j + 1);
                        }
                    }
                }
            }
            assert forall|x: Seq<char>| map_of(now).contains_key(x) implies #[trigger] map_of(
                now,
            )[x] == map_of(was).remove(k@)[x] by {
                let j = choose|j: int| keyed(now, x, j);
                lemma_map_of(now, j);
                if j < i {
                    lemma_map_of(was, j);
                } else {
                    lemma_map_of(was, j + 1);
                }
            }
            assert(map_of(now) =~= map_of(was).remove(k@));
        }
        *self = TextMap { entries: e };
    }

    /// The keys in order.
    pub fn keys(&self) -> (r: Vec<String>)
        ensures
            text::rising(text::views(r@)),
            r@.len() == self.items().len(),
            forall|i: int| 0 <= i < r@.len() ==> (#[trigger] r@[i])@ == self.items()[i].0,
            forall|k: Seq<char>| #[trigger] text::views(r@).contains(k) == self@.contains_key(k),
    {
        proof {
            use_type_invariant(self);
        }
        let mut out: Vec<String> = Vec::new();
        let mut i: usize = 0;
        while i < self.entries.len()
            invariant
                i <= self.entries.len(),
                out@.len() == i,
                forall|j: int| 0 <= j < i ==> (#[trigger] out@[j])@ == self.items()[j].0,
            decreases self.entries.len() - i,
        {
            out.push(self.entries[i].0.clone());
            i += 1;
        }
        proof {
            let v = text::views(out@);
            assert forall|k: Seq<char>| #[trigger] v.contains(k) == self@.contains_key(k) by {
                if v.contains(k) {
                    let j = choose|j: int| 0 <= j < v.len() && v[j] == k;
                    assert(keyed(self.items(), k, j));
                }
                if self@.contains_key(k) {
                    let j = choose|j: int| keyed(self.items(), k, j);
                    assert(v[j] == k);
                }
            }
        }
        out
    }

    /// Drops every entry.
    pub fn clear(&mut self)
        ensures
            final(self)@ == Map::<Seq<char>, V>::empty(),
            final(self).items() == Seq::<(Seq<char>, V)>::empty(),
    {
        *self = TextMap::new();
    }
}

} // verus!
