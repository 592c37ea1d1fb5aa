//! Lexicographic order of texts by code point, and ascending sequences.
use crate::text::{chars_of, same};
use vstd::prelude::*;

verus! {

/// `a` comes before `b`.
pub open spec fn before(a: Seq<char>, b: Seq<char>) -> bool
    decreases a.len(),
{
    if b.len() == 0 {
        false
    } else if a.len() == 0 {
        true
    } else if a[0] != b[0] {
        (a[0] as u32) < (b[0] as u32)
    } else {
        before(a.drop_first(), b.drop_first())
    }
}

pub proof fn lemma_before_irreflexive(a: Seq<char>)
    ensures
        !before(a, a),
    decreases a.len(),
{
    if a.len() > 0 {
        lemma_before_irreflexive(a.drop_first());
    }
}

pub proof fn lemma_before_transitive(a: Seq<char>, b: Seq<char>, c: Seq<char>)
    requires
        before(a, b),
        before(b, c),
    ensures
        before(a, c),
    decreases a.len(),
{
    if a.len() > 0 && a[0] == b[0] && b[0] == c[0] {
        lemma_before_transitive(a.drop_first(), b.drop_first(), c.drop_first());
    }
}

pub proof fn lemma_before_total(a: Seq<char>, b: Seq<char>)
    ensures
        a == b || before(a, b) || before(b, a),
    decreases a.len(),
{
    if a.len() > 0 && b.len() > 0 && a[0] == b[0] {
        lemma_before_total(a.drop_first(), b.drop_first());
        if a.drop_first() == b.drop_first() {
            assert(a =~= seq![a[0]] + a.drop_first());
            assert(b =~= seq![b[0]] + b.drop_first());
        }
    } else if a.len() == 0 && b.len() == 0 {
        assert(a =~= b);
    } else if a.len() > 0 && b.len() > 0 {
        lemma_code_points_differ(a[0], b[0]);
    }
}

proof fn lemma_code_points_differ(x: char, y: char)
    requires
        x != y,
    ensures
        x as u32 != y as u32,
{
}

/// Whether `a` comes before `b`.
pub fn is_before(a: &str, b: &str) -> (r: bool)
    ensures
        r == before(a@, b@),
{
    let x = chars_of(a);
    let y = chars_of(b);
    let mut i: usize = 0;
    assert(x@.skip(0) =~= x@);
    assert(y@.skip(0) =~= y@);
    while i < x.len() && i < y.len() && x[i] == y[i]
        invariant
            i <= x@.len(),
            i <= y@.len(),
            before(x@, y@) == before(x@.skip(i as int), y@.skip(i as int)),
        decreases x@.len() - i,
    {
        assert(x@.skip(i as int).drop_first() =~= x@.skip(i + 1));
        assert(y@.skip(i as int).drop_first() =~= y@.skip(i + 1));
        i += 1;
    }
    if i >= y.len() {
        false
    } else if i >= x.len() {
        true
    } else {
        precedes(x[i], y[i])
    }
}

fn precedes(a: char, b: char) -> (r: bool)
    ensures
        r == ((a as u32) < (b as u32)),
{
    (a as u32) < (b as u32)
}

/// Every element comes before every later one.
pub open spec fn ascending(s: Seq<Seq<char>>) -> bool {
    forall|i: int, j: int| 0 <= i < j < s.len() ==> before(#[trigger] s[i], #[trigger] s[j])
}

/// Ascending sequences with the same elements are equal.
pub proof fn lemma_ascending_unique(a: Seq<Seq<char>>, b: Seq<Seq<char>>)
    requires
        ascending(a),
        ascending(b),
        a.to_set() == b.to_set(),
    ensures
        a == b,
    decreases a.len(),
{
    if a.len() == 0 {
        if b.len() > 0 {
            assert(b.to_set().contains(b[0]));
            assert(a.to_set().contains(b[0]));
        }
        assert(a =~= b);
    } else {
        assert(a.to_set().contains(a[0]));
        assert(b.to_set().contains(a[0]));
        let j = choose|j: int| 0 <= j < b.len() && b[j] == a[0];
        assert(b.to_set().contains(b[0]));
        assert(a.to_set().contains(b[0]));
        let i = choose|i: int| 0 <= i < a.len() && a[i] == b[0];
        lemma_before_irreflexive(a[0]);
        if i > 0 && j > 0 {
            assert(before(a[0], a[i]));
            assert(before(b[0], b[j]));
            lemma_before_transitive(a[0], b[0], a[0]);
        }
        assert(a[0] == b[0]);
        let ta = a.drop_first();
        let tb = b.drop_first();
        assert(ascending(ta));
        assert(ascending(tb));
        assert(ta.to_set() =~= tb.to_set()) by {
            assert forall|x: Seq<char>| ta.to_set().contains(x) implies tb.to_set().contains(x) by {
                let p = choose|p: int| 0 <= p < ta.len() && ta[p] == x;
                assert(before(a[0], a[p + 1]));
                assert(a.to_set().contains(a[p + 1]));
                assert(b.to_set().contains(x));
                let q = choose|q: int| 0 <= q < b.len() && b[q] == x;
                assert(q != 0);
                assert(tb[q - 1] == x);
            }
            assert forall|x: Seq<char>| tb.to_set().contains(x) implies ta.to_set().contains(x) by {
                let p = choose|p: int| 0 <= p < tb.len() && tb[p] == x;
                assert(before(b[0], b[p + 1]));
                assert(b.to_set().contains(b[p + 1]));
                assert(a.to_set().contains(x));
                let q = choose|q: int| 0 <= q < a.len() && a[q] == x;
                assert(q != 0);
                assert(ta[q - 1] == x);
            }
        }
        lemma_ascending_unique(ta, tb);
        assert(a =~= seq![a[0]] + ta);
        assert(b =~= seq![b[0]] + tb);
    }
}

/// The elements of a finite set of texts in ascending order.
pub open spec fn sorted(keys: Set<Seq<char>>) -> Seq<Seq<char>> {
    choose|s: Seq<Seq<char>>| ascending(s) && s.to_set() == keys
}

/// An ascending sequence is the sorted form of its set of elements.
pub proof fn lemma_sorted_is(s: Seq<Seq<char>>)
    requires
        ascending(s),
    ensures
        sorted(s.to_set()) == s,
{
    lemma_ascending_unique(s, sorted(s.to_set()));
}

proof fn lemma_push_set(s: Seq<Seq<char>>, x: Seq<char>)
    ensures
        s.push(x).to_set() == s.to_set().insert(x),
{
    let t = s.push(x);
    assert forall|y: Seq<char>| t.to_set().contains(y) == s.to_set().insert(x).contains(y) by {
        if s.contains(y) {
            let k = choose|k: int| 0 <= k < s.len() && s[k] == y;
            assert(t[k] == y);
        }
        if t.contains(y) {
            let k = choose|k: int| 0 <= k < t.len() && t[k] == y;
            if k < s.len() {
                assert(s[k] == y);
            }
        }
        assert(t[s.len() as int] == x);
    }
    assert(t.to_set() =~= s.to_set().insert(x));
}

proof fn lemma_room_for(s: Seq<Seq<char>>, x: Seq<char>) -> (t: Seq<Seq<char>>)
    requires
        ascending(s),
        !s.contains(x),
    ensures
        ascending(t),
        t.to_set() == s.to_set().insert(x),
    decreases s.len(),
{
    if s.len() == 0 || before(s.last(), x) {
        lemma_push_set(s, x);
        assert forall|i: int| 0 <= i < s.len() implies before(#[trigger] s[i], x) by {
            if i < s.len() - 1 {
                lemma_before_transitive(s[i], s[s.len() - 1], x);
            }
        }
        s.push(x)
    } else {
        let last = s.last();
        let rest = s.drop_last();
        assert(s =~= rest.push(last));
        assert(s.contains(last)) by {
            assert(s[s.len() - 1] == last);
        }
        lemma_before_total(last, x);
        assert(!rest.contains(x)) by {
            if rest.contains(x) {
                let k = choose|k: int| 0 <= k < rest.len() && rest[k] == x;
                assert(s[k] == x);
            }
        }
        let r = lemma_room_for(rest, x);
        assert forall|i: int| 0 <= i < r.len() implies before(#[trigger] r[i], last) by {
            assert(r.contains(r[i]));
            assert(r.to_set().contains(r[i]));
            if r[i] != x {
                assert(rest.to_set().contains(r[i]));
                let k = choose|k: int| 0 <= k < rest.len() && rest[k] == r[i];
                assert(before(s[k], s[s.len() - 1]));
            }
        }
        lemma_push_set(r, last);
        lemma_push_set(rest, last);
        assert(r.push(last).to_set() =~= s.to_set().insert(x));
        r.push(last)
    }
}

/// The sorted form of a finite set is ascending and holds its elements.
pub proof fn lemma_sorted(keys: Set<Seq<char>>)
    requires
        keys.finite(),
    ensures
        ascending(sorted(keys)),
        sorted(keys).to_set() == keys,
    decreases keys.len(),
{
    if keys.len() == 0 {
        let s = Seq::<Seq<char>>::empty();
        assert(s.to_set() =~= keys);
        assert(ascending(s));
    } else {
        let x = keys.choose();
        lemma_sorted(keys.remove(x));
        let s = sorted(keys.remove(x));
        assert(!s.contains(x)) by {
            assert(!s.to_set().contains(x));
        }
        let t = lemma_room_for(s, x);
        assert(t.to_set() =~= keys);
        assert(ascending(t) && t.to_set() == keys);
    }
}

/// One more element of a sequence joins the set of those before it.
pub proof fn lemma_next_joins(s: Seq<Seq<char>>, i: int)
    requires
        0 <= i < s.len(),
    ensures
        s.take(i + 1).to_set() == s.take(i).to_set().insert(s[i]),
        s.to_set().contains(s[i]),
{
    let t0 = s.take(i);
    let t1 = s.take(i + 1);
    assert forall|x: Seq<char>| t1.to_set().contains(x) == t0.to_set().insert(s[i]).contains(x) by {
        if t0.contains(x) {
            let p = choose|p: int| 0 <= p < t0.len() && t0[p] == x;
            assert(t1[p] == x);
        }
        if t1.contains(x) {
            let p = choose|p: int| 0 <= p < t1.len() && t1[p] == x;
            if p < i {
                assert(t0[p] == x);
            }
        }
        assert(t1[i] == s[i]);
    }
    assert(t1.to_set() =~= t0.to_set().insert(s[i]));
    assert(s.contains(s[i]));
}

/// A finite set of texts, kept in ascending order.
#[derive(Debug, PartialEq)]
pub struct TextSet {
    items: Vec<String>,
}

impl View for TextSet {
    type V = Set<Seq<char>>;

    closed spec fn view(&self) -> Set<Seq<char>> {
        self.items.deep_view().to_set()
    }
}

impl TextSet {
    #[verifier::type_invariant]
    spec fn inv(self) -> bool {
        ascending(self.items.deep_view())
    }

    pub fn new() -> (r: Self)
        ensures
            r@ == Set::<Seq<char>>::empty(),
    {
        let r = TextSet { items: Vec::new() };
        assert(r.items.deep_view() =~= Seq::empty());
        assert(r@ =~= Set::empty());
        r
    }

    /// Position of the first item that is not before `key`.
    fn locate(&self, key: &str) -> (at: usize)
        ensures
            at <= self.items@.len(),
            forall|i: int| 0 <= i < at ==> before(#[trigger] self.items.deep_view()[i], key@),
            at < self.items@.len() ==> !before(self.items.deep_view()[at as int], key@),
    {
        let mut i: usize = 0;
        while i < self.items.len() && is_before(self.items[i].as_str(), key)
            invariant
                i <= self.items@.len(),
                forall|k: int| 0 <= k < i ==> before(#[trigger] self.items.deep_view()[k], key@),
            decreases self.items@.len() - i,
        {
            assert(self.items.deep_view()[i as int] == self.items@[i as int]@);
            i += 1;
        }
        i
    }

    pub fn contains(&self, key: &str) -> (r: bool)
        ensures
            r == self@.contains(key@),
    {
        proof {
            use_type_invariant(self);
        }
        let at = self.locate(key);
        let ghost all = self.items.deep_view();
        if at < self.items.len() && same(self.items[at].as_str(), key) {
            assert(all[at as int] == key@);
            true
        } else {
            proof {
                if self@.contains(key@) {
                    let k = choose|k: int| 0 <= k < all.len() && all[k] == key@;
                    lemma_before_irreflexive(key@);
                    assert(k >= at);
                    if k > at {
                        assert(before(all[at as int], all[k]));
                    }
                    assert(false);
                }
            }
            false
        }
    }

    /// Adds `key`; says whether it was new.
    pub fn insert(&mut self, key: String) -> (added: bool)
        ensures
            final(self)@ == old(self)@.insert(key@),
            added == !old(self)@.contains(key@),
    {
        proof {
            use_type_invariant(&*self);
        }
        if self.contains(key.as_str()) {
            assert(self@ =~= self@.insert(key@));
            return false;
        }
        let at = self.locate(key.as_str());
        let ghost all = self.items.deep_view();
        let ghost text = key@;
        let ghost seen = self@;
        let mut items: Vec<String> = Vec::new();
        std::mem::swap(&mut items, &mut self.items);
        items.insert(at, key);
        let ghost grown = items.deep_view();
        proof {
            assert(grown =~= all.insert(at as int, text));
            assert forall|i: int, j: int| 0 <= i < j < grown.len() implies before(
                #[trigger] grown[i],
                #[trigger] grown[j],
            ) by {
                lemma_between(all, text, at as int, i, j);
            }
            assert(grown.to_set() =~= all.to_set().insert(text)) by {
                assert forall|x: Seq<char>| grown.to_set().contains(x) == all.to_set().insert(
                    text,
                ).contains(x) by {
                    if all.contains(x) {
                        let k = choose|k: int| 0 <= k < all.len() && all[k] == x;
                        assert(grown[if k < at { k } else { k + 1 }] == x);
                    }
                    assert(grown[at as int] == text);
                    if grown.contains(x) {
                        let k = choose|k: int| 0 <= k < grown.len() && grown[k] == x;
                        if k < at {
                            assert(all[k] == x);
                        } else if k > at {
                            assert(all[k - 1] == x);
                        }
                    }
                }
            }
        }
        self.items = items;
        true
    }

    /// The items in ascending order.
    pub fn to_vec(&self) -> (r: Vec<String>)
        ensures
            r.deep_view() == sorted(self@),
            ascending(r.deep_view()),
            r.deep_view().to_set() == self@,
    {
        proof {
            use_type_invariant(self);
            lemma_sorted_is(self.items.deep_view());
        }
        copy_texts(&self.items)
    }

    pub fn is_empty(&self) -> (r: bool)
        ensures
            r == self@.is_empty(),
    {
        let r = self.items.len() == 0;
        proof {
            let all = self.items.deep_view();
            if r {
                assert(self@ =~= Set::empty());
            } else {
                assert(self@.contains(all[0]));
            }
        }
        r
    }
}

/// A key put between smaller and larger ones keeps the order.
pub proof fn lemma_between(all: Seq<Seq<char>>, text: Seq<char>, at: int, i: int, j: int)
    requires
        ascending(all),
        0 <= at <= all.len(),
        forall|k: int| 0 <= k < at ==> before(#[trigger] all[k], text),
        at < all.len() ==> !before(all[at], text) && all[at] != text,
        0 <= i < j < all.len() + 1,
    ensures
        before(all.insert(at, text)[i], all.insert(at, text)[j]),
{
    let grown = all.insert(at, text);
    let old_i = if i < at { i } else { i - 1 };
    let old_j = if j < at { j } else { j - 1 };
    if i == at {
        lemma_before_total(all[at], text);
        if at < old_j {
            assert(before(all[at], all[old_j]));
            lemma_before_transitive(text, all[at], all[old_j]);
        }
    } else if j == at {
        assert(before(all[i], text));
    } else {
        assert(grown[i] == all[old_i]);
        assert(grown[j] == all[old_j]);
    }
}

/// A copy of a list of texts.
pub fn copy_texts(v: &Vec<String>) -> (r: Vec<String>)
    ensures
        r.deep_view() == v.deep_view(),
{
    let mut r: Vec<String> = Vec::new();
    let mut i: usize = 0;
    while i < v.len()
        invariant
            i <= v@.len(),
            r.deep_view() == v.deep_view().take(i as int),
        decreases v@.len() - i,
    {
        let ghost had = r.deep_view();
        r.push(v[i].clone());
        i += 1;
        assert(r.deep_view() =~= had.push(v@[i - 1]@));
        assert(v.deep_view().take(i as int) =~= v.deep_view().take(i - 1).push(v@[i - 1]@));
    }
    assert(v.deep_view().take(i as int) =~= v.deep_view());
    r
}

/// Adds `text` at the end of `v`.
pub fn push_text(v: &mut Vec<String>, text: String)
    ensures
        final(v).deep_view() == old(v).deep_view().push(text@),
{
    let ghost had = v.deep_view();
    let ghost added = text@;
    v.push(text);
    assert(v.deep_view() =~= had.push(added));
}

/// Whether `v` holds `key`.
pub fn texts_contain(v: &Vec<String>, key: &str) -> (r: bool)
    ensures
        r == v.deep_view().contains(key@),
{
    let mut i: usize = 0;
    while i < v.len()
        invariant
            i <= v@.len(),
            forall|k: int| 0 <= k < i ==> v.deep_view()[k] != key@,
        decreases v@.len() - i,
    {
        if same(v[i].as_str(), key) {
            assert(v.deep_view()[i as int] == key@);
            return true;
        }
        i += 1;
    }
    false
}

/// `x` put into a sorted sequence, after the elements that are not greater.
pub open spec fn put(s: Seq<Seq<char>>, x: Seq<char>) -> Seq<Seq<char>>
    decreases s.len(),
{
    if s.len() == 0 || !before(x, s.last()) {
        s.push(x)
    } else {
        put(s.drop_last(), x).push(s.last())
    }
}

/// The elements of `s` in ascending order, repetitions kept.
pub open spec fn in_order(s: Seq<Seq<char>>) -> Seq<Seq<char>>
    decreases s.len(),
{
    if s.len() == 0 {
        s
    } else {
        put(in_order(s.drop_last()), s.last())
    }
}

/// No element comes before an earlier one.
pub open spec fn nondescending(s: Seq<Seq<char>>) -> bool {
    forall|i: int, j: int| 0 <= i < j < s.len() ==> !before(#[trigger] s[j], #[trigger] s[i])
}

proof fn lemma_put(s: Seq<Seq<char>>, x: Seq<char>)
    requires
        nondescending(s),
    ensures
        nondescending(put(s, x)),
        put(s, x).to_multiset() == s.to_multiset().insert(x),
        put(s, x).len() == s.len() + 1,
    decreases s.len(),
{
    broadcast use vstd::seq_lib::to_multiset_build;

    if s.len() == 0 || !before(x, s.last()) {
        let r = s.push(x);
        assert forall|i: int, j: int| 0 <= i < j < r.len() implies !before(#[trigger] r[j], #[trigger] r[i]) by {
            if j == s.len() {
                if before(x, s[i]) {
                    lemma_before_total(s.last(), s[i]);
                    if i < s.len() - 1 {
                        assert(!before(s.last(), s[i]));
                        if s.last() != s[i] {
                            lemma_before_transitive(x, s[i], s.last());
                        }
                    }
                }
            } else {
                assert(!before(s[j], s[i]));
            }
        }
    } else {
        let t = s.drop_last();
        assert(nondescending(t)) by {
            assert forall|i: int, j: int| 0 <= i < j < t.len() implies !before(#[trigger] t[j], #[trigger] t[i]) by {
                assert(!before(s[j], s[i]));
            }
        }
        lemma_put(t, x);
        let p = put(t, x);
        let r = p.push(s.last());
        assert(s =~= t.push(s.last()));
        assert(r.to_multiset() =~= s.to_multiset().insert(x));
        assert forall|i: int, j: int| 0 <= i < j < r.len() implies !before(#[trigger] r[j], #[trigger] r[i]) by {
            if j == p.len() {
                p.to_multiset_ensures();
                t.to_multiset_ensures();
                assert(p.to_multiset().contains(p[i]));
                if p[i] == x {
                    if before(s.last(), x) {
                        lemma_before_transitive(x, s.last(), x);
                        lemma_before_irreflexive(x);
                    }
                } else {
                    assert(t.to_multiset().contains(p[i]));
                    assert(t.contains(p[i]));
                    let k = choose|k: int| 0 <= k < t.len() && t[k] == p[i];
                    assert(!before(s.last(), s[k]));
                }
            }
        }
    }
}

/// Sorting keeps the elements and orders them.
pub proof fn lemma_in_order(s: Seq<Seq<char>>)
    ensures
        nondescending(in_order(s)),
        in_order(s).to_multiset() == s.to_multiset(),
        in_order(s).len() == s.len(),
    decreases s.len(),
{
    broadcast use vstd::seq_lib::to_multiset_build;

    if s.len() > 0 {
        lemma_in_order(s.drop_last());
        lemma_put(in_order(s.drop_last()), s.last());
        assert(s =~= s.drop_last().push(s.last()));
    }
}

proof fn lemma_put_at(s: Seq<Seq<char>>, x: Seq<char>, at: int)
    requires
        0 <= at <= s.len(),
        forall|k: int| at <= k < s.len() ==> before(x, #[trigger] s[k]),
        at > 0 ==> !before(x, s[at - 1]),
    ensures
        put(s, x) == s.insert(at, x),
    decreases s.len(),
{
    if at == s.len() {
        assert(s.insert(at, x) =~= s.push(x));
    } else {
        assert(before(x, s.last()));
        let t = s.drop_last();
        lemma_put_at(t, x, at);
        assert(t.insert(at, x).push(s.last()) =~= s.insert(at, x));
    }
}

/// Sorts texts.
pub fn sort_texts(v: &Vec<String>) -> (r: Vec<String>)
    ensures
        r.deep_view() == in_order(v.deep_view()),
{
    let mut r: Vec<String> = Vec::new();
    let mut i: usize = 0;
    let ghost all = v.deep_view();
    assert(r.deep_view() =~= all.take(0));
    while i < v.len()
        invariant
            i <= v@.len(),
            all == v.deep_view(),
            r.deep_view() == in_order(all.take(i as int)),
        decreases v@.len() - i,
    {
        let ghost had = r.deep_view();
        let mut at: usize = r.len();
        while at > 0 && is_before(v[i].as_str(), r[at - 1].as_str())
            invariant
                i < v@.len(),
                at <= r@.len(),
                had == r.deep_view(),
                forall|k: int| at <= k < had.len() ==> before(v@[i as int]@, #[trigger] had[k]),
            decreases at,
        {
            at -= 1;
        }
        let copy = v[i].clone();
        r.insert(at, copy);
        proof {
            assert(r.deep_view() =~= had.insert(at as int, copy@));
            if at > 0 {
                assert(had[at - 1] == r@[at - 1]@);
            }
            lemma_put_at(had, copy@, at as int);
            assert(all.take(i + 1).drop_last() =~= all.take(i as int));
            assert(all.take(i + 1).last() == copy@);
        }
        i += 1;
    }
    assert(all.take(i as int) =~= all);
    r
}

/// Sorting depends on the elements alone, not on their order.
pub proof fn lemma_in_order_of_same(a: Seq<Seq<char>>, b: Seq<Seq<char>>)
    requires
        a.to_multiset() == b.to_multiset(),
    ensures
        in_order(a) == in_order(b),
{
    lemma_in_order(a);
    lemma_in_order(b);
    let leq = |x: Seq<char>, y: Seq<char>| !before(y, x);
    let x = in_order(a);
    let y = in_order(b);
    assert(vstd::relations::sorted_by(x, leq));
    assert(vstd::relations::sorted_by(y, leq));
    assert(vstd::relations::total_ordering(leq)) by {
        assert forall|p: Seq<char>| #[trigger] leq(p, p) by {
            lemma_before_irreflexive(p);
        }
        assert forall|p: Seq<char>, q: Seq<char>| #[trigger] leq(p, q) && #[trigger] leq(q, p) implies p == q by {
            lemma_before_total(p, q);
        }
        assert forall|p: Seq<char>, q: Seq<char>, r: Seq<char>| #[trigger] leq(p, q) && #[trigger] leq(q, r) implies leq(
            p,
            r,
        ) by {
            lemma_before_total(p, q);
            lemma_before_total(q, r);
            if p == q || q == r {
            } else {
                lemma_before_transitive(p, q, r);
                if before(r, p) {
                    lemma_before_transitive(p, r, p);
                    lemma_before_irreflexive(p);
                }
            }
        }
        assert forall|p: Seq<char>, q: Seq<char>| #[trigger] leq(p, q) || leq(q, p) by {
            if before(q, p) && before(p, q) {
                lemma_before_transitive(p, q, p);
                lemma_before_irreflexive(p);
            }
        }
    }
    vstd::seq_lib::lemma_sorted_unique(x, y, leq);
}

} // verus!
