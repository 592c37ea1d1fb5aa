//! Maps from texts to values, kept in ascending order of their keys.
use crate::order::{
    before, is_before, lemma_before_irreflexive, lemma_between, lemma_sorted_is, ascending, sorted,
};
use crate::text::same;
use vstd::prelude::*;

verus! {

/// A copy with the same model.
pub trait Duplicate: DeepView + Sized {
    fn duplicate(&self) -> (r: Self)
        ensures
            r.deep_view() == self.deep_view(),
    ;
}

impl Duplicate for String {
    fn duplicate(&self) -> (r: Self) {
        self.clone()
    }
}

impl Duplicate for bool {
    fn duplicate(&self) -> (r: Self) {
        *self
    }
}

impl Duplicate for u32 {
    fn duplicate(&self) -> (r: Self) {
        *self
    }
}

impl Duplicate for u64 {
    fn duplicate(&self) -> (r: Self) {
        *self
    }
}

impl Duplicate for usize {
    fn duplicate(&self) -> (r: Self) {
        *self
    }
}

impl<T: Duplicate> Duplicate for Option<T> {
    fn duplicate(&self) -> (r: Self) {
        match self {
            Some(t) => Some(t.duplicate()),
            None => None,
        }
    }
}

impl<T: Duplicate> Duplicate for Vec<T> {
    fn duplicate(&self) -> (r: Self) {
        let mut r: Vec<T> = Vec::new();
        let mut i: usize = 0;
        while i < self.len()
            invariant
                i <= self@.len(),
                r.deep_view() == self.deep_view().take(i as int),
            decreases self@.len() - i,
        {
            let ghost had = r.deep_view();
            r.push(self[i].duplicate());
            i += 1;
            assert(r.deep_view() =~= had.push(self@[i - 1].deep_view()));
            assert(self.deep_view().take(i as int) =~= self.deep_view().take(i - 1).push(
                self@[i - 1].deep_view(),
            ));
        }
        assert(self.deep_view().take(i as int) =~= self.deep_view());
        r
    }
}

/// A finite map from texts to values.
#[derive(Debug, PartialEq)]
pub struct Table<V> {
    entries: Vec<(String, V)>,
}

/// The keys of a list of entries.
pub open spec fn keys_of<V>(entries: Seq<(String, V)>) -> Seq<Seq<char>> {
    entries.map_values(|e: (String, V)| e.0@)
}

/// The map that a list of entries with distinct keys denotes.
pub open spec fn map_of<V: DeepView>(entries: Seq<(String, V)>) -> Map<Seq<char>, V::V> {
    Map::new(
        |k: Seq<char>| keys_of(entries).contains(k),
        |k: Seq<char>| entries[keys_of(entries).index_of(k)].1.deep_view(),
    )
}

proof fn lemma_map_of_index<V: DeepView>(entries: Seq<(String, V)>, i: int)
    requires
        ascending(keys_of(entries)),
        0 <= i < entries.len(),
    ensures
        map_of(entries).contains_key(keys_of(entries)[i]),
        map_of(entries)[keys_of(entries)[i]] == entries[i].1.deep_view(),
{
    let keys = keys_of(entries);
    let k = keys[i];
    assert(keys.contains(k));
    let j = keys.index_of(k);
    lemma_before_irreflexive(k);
    if i < j {
        assert(before(keys[i], keys[j]));
    } else if j < i {
        assert(before(keys[j], keys[i]));
    }
}

impl<V: DeepView> View for Table<V> {
    type V = Map<Seq<char>, V::V>;

    closed spec fn view(&self) -> Map<Seq<char>, V::V> {
        map_of(self.entries@)
    }
}

impl<V: DeepView> DeepView for Table<V> {
    type V = Map<Seq<char>, V::V>;

    open spec fn deep_view(&self) -> Map<Seq<char>, V::V> {
        self@
    }
}

impl<V> Table<V> {
    #[verifier::type_invariant]
    spec fn inv(self) -> bool {
        ascending(keys_of(self.entries@))
    }
}

impl<V: DeepView> Table<V> {
    pub fn new() -> (r: Self)
        ensures
            r@ == Map::<Seq<char>, V::V>::empty(),
    {
        let r = Table { entries: Vec::new() };
        assert(keys_of(r.entries@) =~= Seq::empty());
        assert(r@ =~= Map::empty());
        r
    }

    fn locate(&self, key: &str) -> (at: usize)
        ensures
            at <= self.entries@.len(),
            forall|i: int| 0 <= i < at ==> before(#[trigger] keys_of(self.entries@)[i], key@),
            at < self.entries@.len() ==> !before(keys_of(self.entries@)[at as int], key@),
    {
        let mut i: usize = 0;
        while i < self.entries.len() && is_before(self.entries[i].0.as_str(), key)
            invariant
                i <= self.entries@.len(),
                forall|k: int| 0 <= k < i ==> before(#[trigger] keys_of(self.entries@)[k], key@),
            decreases self.entries@.len() - i,
        {
            i += 1;
        }
        i
    }

    /// Index of the entry for `key`.
    fn index_of(&self, key: &str) -> (r: Option<usize>)
        ensures
            match r {
                Some(i) => i < self.entries@.len() && keys_of(self.entries@)[i as int] == key@
                    && self@.contains_key(key@) && self@[key@] == self.entries@[i as int].1.deep_view(),
                None => !self@.contains_key(key@),
            },
    {
        proof {
            use_type_invariant(self);
        }
        let at = self.locate(key);
        let ghost all = keys_of(self.entries@);
        if at < self.entries.len() && same(self.entries[at].0.as_str(), key) {
            proof {
                lemma_map_of_index(self.entries@, at as int);
            }
            Some(at)
        } else {
            proof {
                if all.contains(key@) {
                    let k = choose|k: int| 0 <= k < all.len() && all[k] == key@;
                    lemma_before_irreflexive(key@);
                    assert(k >= at);
                    if k > at {
                        assert(before(all[at as int], all[k]));
                    }
                    assert(false);
                }
            }
            None
        }
    }

    /// The value under `key`.
    pub fn get(&self, key: &str) -> (r: Option<&V>)
        ensures
            match r {
                Some(v) => self@.contains_key(key@) && v.deep_view() == self@[key@],
                None => !self@.contains_key(key@),
            },
    {
        match self.index_of(key) {
            Some(i) => Some(&self.entries[i].1),
            None => None,
        }
    }

    pub fn contains_key(&self, key: &str) -> (r: bool)
        ensures
            r == self@.contains_key(key@),
    {
        self.index_of(key).is_some()
    }

    /// Puts `value` under `key`, in place of any value there.
    pub fn insert(&mut self, key: String, value: V)
        ensures
            final(self)@ == old(self)@.insert(key@, value.deep_view()),
    {
        proof {
            use_type_invariant(&*self);
        }
        let found = self.index_of(key.as_str());
        let at = self.locate(key.as_str());
        let ghost model = self@;
        let ghost text = key@;
        let ghost val = value.deep_view();
        let mut entries: Vec<(String, V)> = Vec::new();
        std::mem::swap(&mut entries, &mut self.entries);
        let ghost was = entries@;
        match found {
            Some(i) => {
                entries[i] = (key, value);
                proof {
                    assert(keys_of(entries@) =~= keys_of(was));
                }
            },
            None => {
                entries.insert(at, (key, value));
                proof {
                    let all = keys_of(was);
                    assert(keys_of(entries@) =~= all.insert(at as int, text));
                    if at < all.len() && all[at as int] == text {
                        assert(all.contains(text));
                    }
                    let grown = all.insert(at as int, text);
                    assert forall|i: int, j: int| 0 <= i < j < grown.len() implies before(
                        #[trigger] grown[i],
                        #[trigger] grown[j],
                    ) by {
                        lemma_between(all, text, at as int, i, j);
                    }
                }
            },
        }
        proof {
            let now = entries@;
            let put: int = match found {
                Some(i) => i as int,
                None => at as int,
            };
            assert(now[put].0@ == text && now[put].1.deep_view() == val);
            assert(keys_of(now)[put] == text);
            assert forall|k: Seq<char>|
                #![trigger map_of(now).dom().contains(k)]
                #![trigger map_of(now)[k]]
                map_of(now).dom().contains(k) == model.insert(text, val).dom().contains(k) && (map_of(
                    now,
                ).dom().contains(k) ==> map_of(now)[k] == model.insert(text, val)[k]) by {
                lemma_map_of_index(now, put);
                if keys_of(now).contains(k) {
                    let j = choose|j: int| 0 <= j < now.len() && keys_of(now)[j] == k;
                    lemma_map_of_index(now, j);
                    if k != text {
                        let o: int = if found.is_some() || j < put { j } else { j - 1 };
                        assert(was[o] == now[j]);
                        assert(keys_of(was)[o] == k);
                        lemma_map_of_index(was, o);
                    }
                }
                if k != text && keys_of(was).contains(k) {
                    let o = choose|o: int| 0 <= o < was.len() && keys_of(was)[o] == k;
                    lemma_map_of_index(was, o);
                    let j: int = if found.is_some() || o < put { o } else { o + 1 };
                    assert(was[o] == now[j]);
                    assert(keys_of(now)[j] == k);
                    lemma_map_of_index(now, j);
                }
            }
            assert(map_of(now) =~= model.insert(text, val));
        }
        self.entries = entries;
    }

    /// Drops any value under `key`; says whether there was one.
    pub fn remove(&mut self, key: &str) -> (r: Option<V>)
        ensures
            final(self)@ == old(self)@.remove(key@),
            match r {
                Some(v) => old(self)@.contains_key(key@) && v.deep_view() == old(self)@[key@],
                None => !old(self)@.contains_key(key@),
            },
    {
        proof {
            use_type_invariant(&*self);
        }
        match self.index_of(key) {
            None => {
                assert(self@ =~= self@.remove(key@));
                None
            },
            Some(i) => {
                let ghost model = self@;
                let mut entries: Vec<(String, V)> = Vec::new();
                std::mem::swap(&mut entries, &mut self.entries);
                let ghost was = entries@;
                let (_, value) = entries.remove(i);
                proof {
                    let now = entries@;
                    assert(keys_of(now) =~= keys_of(was).remove(i as int));
                    assert(ascending(keys_of(now))) by {
                        assert forall|a: int, b: int| 0 <= a < b < now.len() implies before(
                            #[trigger] keys_of(now)[a],
                            #[trigger] keys_of(now)[b],
                        ) by {
                            let a0 = if a < i { a } else { a + 1 };
                            let b0 = if b < i { b } else { b + 1 };
                            assert(keys_of(now)[a] == keys_of(was)[a0]);
                            assert(keys_of(now)[b] == keys_of(was)[b0]);
                        }
                    }
                    assert forall|k: Seq<char>|
                        #![trigger map_of(now).dom().contains(k)]
                        #![trigger map_of(now)[k]]
                        map_of(now).dom().contains(k) == model.remove(key@).dom().contains(k) && (map_of(
                            now,
                        ).dom().contains(k) ==> map_of(now)[k] == model.remove(key@)[k]) by {
                        lemma_before_irreflexive(k);
                        if keys_of(now).contains(k) {
                            let j = choose|j: int| 0 <= j < now.len() && keys_of(now)[j] == k;
                            lemma_map_of_index(now, j);
                            let o: int = if j < i { j } else { j + 1 };
                            assert(was[o] == now[j]);
                            assert(keys_of(was)[o] == k);
                            lemma_map_of_index(was, o);
                            if o < i {
                                assert(before(keys_of(was)[o], keys_of(was)[i as int]));
                            } else {
                                assert(before(keys_of(was)[i as int], keys_of(was)[o]));
                            }
                        }
                        if k != key@ && keys_of(was).contains(k) {
                            let o = choose|o: int| 0 <= o < was.len() && keys_of(was)[o] == k;
                            let j: int = if o < i { o } else { o - 1 };
                            assert(was[o] == now[j]);
                            assert(keys_of(now)[j] == k);
                        }
                    }
                    assert(map_of(now) =~= model.remove(key@));
                }
                self.entries = entries;
                Some(value)
            },
        }
    }

    /// The keys in ascending order.
    pub fn keys(&self) -> (r: Vec<String>)
        ensures
            r.deep_view() == sorted(self@.dom()),
            ascending(r.deep_view()),
            r.deep_view().to_set() == self@.dom(),
    {
        proof {
            use_type_invariant(self);
        }
        let mut r: Vec<String> = Vec::new();
        let mut i: usize = 0;
        while i < self.entries.len()
            invariant
                i <= self.entries@.len(),
                r.deep_view() == keys_of(self.entries@).take(i as int),
            decreases self.entries@.len() - i,
        {
            let ghost had = r.deep_view();
            r.push(self.entries[i].0.clone());
            i += 1;
            assert(r.deep_view() =~= had.push(self.entries@[i - 1].0@));
            assert(keys_of(self.entries@).take(i as int) =~= keys_of(self.entries@).take(i - 1).push(
                self.entries@[i - 1].0@,
            ));
        }
        proof {
            let keys = keys_of(self.entries@);
            assert(keys.take(i as int) =~= keys);
            assert(keys.to_set() =~= self@.dom());
            lemma_sorted_is(keys);
        }
        r
    }

    pub fn is_empty(&self) -> (r: bool)
        ensures
            r == (self@ == Map::<Seq<char>, V::V>::empty()),
    {
        let r = self.entries.len() == 0;
        proof {
            if r {
                assert(keys_of(self.entries@) =~= Seq::empty());
                assert(self@ =~= Map::empty());
            } else {
                assert(keys_of(self.entries@).contains(keys_of(self.entries@)[0]));
                assert(self@.contains_key(keys_of(self.entries@)[0]));
            }
        }
        r
    }
}

impl<V: Duplicate> Table<V> {
    /// Puts every entry of `other` into this table.
    pub fn extend(&mut self, other: &Table<V>)
        ensures
            final(self)@ == old(self)@.union_prefer_right(other@),
    {
        let keys = other.keys();
        let mut i: usize = 0;
        let ghost start = self@;
        let ghost all = keys.deep_view();
        assert(start.union_prefer_right(other@.restrict(all.take(0).to_set())) =~= start);
        while i < keys.len()
            invariant
                i <= keys@.len(),
                all == keys.deep_view(),
                all.to_set() == other@.dom(),
                self@ == start.union_prefer_right(other@.restrict(all.take(i as int).to_set())),
            decreases keys@.len() - i,
        {
            assert(all[i as int] == keys@[i as int]@);
            assert(all.contains(all[i as int]));
            assert(other@.dom().contains(all[i as int]));
            if let Some(v) = other.get(keys[i].as_str()) {
                self.insert(keys[i].clone(), v.duplicate());
            }
            proof {
                crate::order::lemma_next_joins(all, i as int);
                assert(self@ =~= start.union_prefer_right(other@.restrict(all.take(i + 1).to_set())));
            }
            i += 1;
        }
        proof {
            assert(all.take(i as int) =~= all);
            assert(self@ =~= start.union_prefer_right(other@));
        }
    }
}

impl<V: Duplicate> Duplicate for Table<V> {
    fn duplicate(&self) -> (r: Self) {
        let mut r: Table<V> = Table::new();
        r.extend(self);
        assert(r@ =~= self@);
        r
    }
}

} // verus!
