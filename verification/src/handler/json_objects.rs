//! JSON objects inside free text.
use crate::text::{chars_of, lemma_trim_is_tight, trim_end, trimmed_end};
use vstd::prelude::*;
use vstd::string::*;

verus! {

/// Where a left-to-right reading of JSON text stands.
pub struct Reading {
    /// Open braces outside strings.
    pub depth: int,
    pub in_string: bool,
    /// The previous character was a backslash in a string.
    pub escape: bool,
}

/// Reads one character.
pub open spec fn read(r: Reading, c: char) -> Reading {
    if r.escape {
        Reading { escape: false, ..r }
    } else if c == '\\' && r.in_string {
        Reading { escape: true, ..r }
    } else if c == '"' {
        Reading { in_string: !r.in_string, ..r }
    } else if r.in_string {
        r
    } else if c == '{' {
        Reading { depth: r.depth + 1, ..r }
    } else if c == '}' {
        Reading { depth: r.depth - 1, ..r }
    } else {
        r
    }
}

/// Reads a text from its start.
pub open spec fn reading(s: Seq<char>) -> Reading
    decreases s.len(),
{
    if s.len() == 0 {
        Reading { depth: 0, in_string: false, escape: false }
    } else {
        read(reading(s.drop_last()), s.last())
    }
}

/// `s[i..=j]` is a balanced object: it opens at `i` and is closed for the
/// first time at `j`.
pub open spec fn balanced(s: Seq<char>, i: int, j: int) -> bool {
    &&& 0 <= i <= j < s.len()
    &&& s[i] == '{'
    &&& reading(s.subrange(i, j + 1)).depth == 0
    &&& forall|k: int| #![trigger s.subrange(i, k + 1)] i <= k < j ==> reading(s.subrange(i, k + 1)).depth > 0
}

/// The end of the balanced object that opens at `i`.
pub open spec fn closing(s: Seq<char>, i: int) -> Option<int> {
    if exists|j: int| balanced(s, i, j) {
        Some(choose|j: int| balanced(s, i, j))
    } else {
        None
    }
}

/// The outermost balanced objects from `from` on, as pairs of first and last
/// index. What lies inside an object that was found is skipped; an open brace
/// that is never closed is passed over.
pub open spec fn object_spans(s: Seq<char>, from: int) -> Seq<(int, int)>
    decreases s.len() - from,
{
    if from < 0 || from >= s.len() {
        Seq::empty()
    } else {
        match closing(s, from) {
            Some(j) => if from <= j < s.len() {
                seq![(from, j)] + object_spans(s, j + 1)
            } else {
                Seq::empty()
            },
            None => object_spans(s, from + 1),
        }
    }
}

/// The texts of spans.
pub open spec fn span_texts(s: Seq<char>, spans: Seq<(int, int)>) -> Seq<Seq<char>> {
    spans.map_values(|p: (int, int)| s.subrange(p.0, p.1 + 1))
}

/// The outermost balanced objects of a text.
pub open spec fn json_objects(s: Seq<char>) -> Seq<Seq<char>> {
    span_texts(s, object_spans(s, 0))
}

/// An object that opens at `i` is closed at one place only.
pub proof fn lemma_balanced_unique(s: Seq<char>, i: int, j: int, k: int)
    requires
        balanced(s, i, j),
        balanced(s, i, k),
    ensures
        j == k,
{
    if j < k {
        assert(reading(s.subrange(i, j + 1)).depth > 0);
    }
    if k < j {
        assert(reading(s.subrange(i, k + 1)).depth > 0);
    }
}

proof fn lemma_closing(s: Seq<char>, i: int, j: int)
    requires
        balanced(s, i, j),
    ensures
        closing(s, i) == Some(j),
{
    let c = choose|c: int| balanced(s, i, c);
    lemma_balanced_unique(s, i, j, c);
}

/// Reading one more character of a window.
proof fn lemma_reading_step(s: Seq<char>, i: int, k: int)
    requires
        0 <= i <= k < s.len(),
    ensures
        reading(s.subrange(i, k + 1)) == read(reading(s.subrange(i, k)), s[k]),
        reading(s.subrange(i, i)).depth == 0,
{
    assert(s.subrange(i, k + 1).drop_last() =~= s.subrange(i, k));
    assert(s.subrange(i, k + 1).last() == s[k]);
    assert(s.subrange(i, i) =~= Seq::empty());
}

/// End of the balanced object that opens at `start`.
fn object_end(v: &Vec<char>, start: usize) -> (r: Option<usize>)
    requires
        start < v@.len(),
        v@[start as int] == '{',
    ensures
        match r {
            Some(j) => balanced(v@, start as int, j as int),
            None => closing(v@, start as int) is None,
        },
{
    let ghost s = v@;
    let mut depth: usize = 0;
    let mut in_string: bool = false;
    let mut escape: bool = false;
    let mut j: usize = start;
    let n: usize = v.len();
    assert(s.subrange(start as int, start as int) =~= Seq::empty());
    while j < n
        invariant
            start <= j <= n,
            n == v@.len(),
            s == v@,
            s[start as int] == '{',
            depth <= j - start,
            j > start ==> depth > 0,
            reading(s.subrange(start as int, j as int)) == (Reading {
                depth: depth as int,
                in_string,
                escape,
            }),
            forall|k: int|
                #![trigger s.subrange(start as int, k + 1)]
                start <= k < j ==> reading(s.subrange(start as int, k + 1)).depth > 0,
        decreases n - j,
    {
        let c: char = v[j];
        proof {
            lemma_reading_step(s, start as int, j as int);
        }
        if escape {
            escape = false;
        } else if c == '\\' && in_string {
            escape = true;
        } else if c == '"' {
            in_string = !in_string;
        } else if !in_string {
            if c == '{' {
                depth += 1;
            } else if c == '}' {
                depth -= 1;
                if depth == 0 {
                    return Some(j);
                }
            }
        }
        j += 1;
    }
    proof {
        if exists|e: int| balanced(s, start as int, e) {
            let e = choose|e: int| balanced(s, start as int, e);
            assert(reading(s.subrange(start as int, e + 1)).depth > 0);
        }
    }
    None
}

/// Spans of the outermost balanced objects.
fn find_spans(v: &Vec<char>) -> (r: Vec<(usize, usize)>)
    ensures
        r@.len() == object_spans(v@, 0).len(),
        forall|i: int|
            0 <= i < r@.len() ==> (#[trigger] r@[i]).0 as int == object_spans(v@, 0)[i].0 && r@[i].1 as int
                == object_spans(v@, 0)[i].1 && r@[i].0 <= r@[i].1 < v@.len(),
{
    let mut r: Vec<(usize, usize)> = Vec::new();
    let mut i: usize = 0;
    let n: usize = v.len();
    let ghost all = object_spans(v@, 0);
    let ghost done: Seq<(int, int)> = Seq::empty();
    assert(done + all =~= all);
    while i < n
        invariant
            i <= n,
            n == v@.len(),
            all == object_spans(v@, 0),
            all == done + object_spans(v@, i as int),
            r@.len() == done.len(),
            forall|k: int|
                0 <= k < r@.len() ==> (#[trigger] r@[k]).0 as int == done[k].0 && r@[k].1 as int == done[k].1
                    && r@[k].0 <= r@[k].1 < v@.len(),
        decreases n - i,
    {
        if v[i] == '{' {
            match object_end(v, i) {
                Some(j) => {
                    proof {
                        lemma_closing(v@, i as int, j as int);
                        let rest = object_spans(v@, j + 1);
                        assert(done + (seq![(i as int, j as int)] + rest) =~= done.push((i as int, j as int))
                            + rest);
                        done = done.push((i as int, j as int));
                    }
                    r.push((i, j));
                    i = j + 1;
                    continue;
                },
                None => {},
            }
        } else {
            proof {
                if exists|e: int| balanced(v@, i as int, e) {
                    let e = choose|e: int| balanced(v@, i as int, e);
                    assert(v@[i as int] == '{');
                }
                assert(closing(v@, i as int) is None);
            }
        }
        i += 1;
    }
    assert(done + object_spans(v@, i as int) =~= done);
    r
}

/// Finds the outermost balanced objects of `text`, in document order.
///
/// Objects nested inside a match are skipped. A brace that is never closed
/// does not hide complete objects around or inside it.
pub fn find_json_objects(text: &str) -> (r: Vec<&str>)
    ensures
        r.deep_view() == json_objects(text@),
{
    let v = chars_of(text);
    let spans = find_spans(&v);
    let n: usize = v.len();
    let mut r: Vec<&str> = Vec::new();
    let mut i: usize = 0;
    while i < spans.len()
        invariant
            i <= spans@.len(),
            v@ == text@,
            n == v@.len(),
            spans@.len() == object_spans(v@, 0).len(),
            forall|k: int|
                0 <= k < spans@.len() ==> (#[trigger] spans@[k]).0 as int == object_spans(v@, 0)[k].0
                    && spans@[k].1 as int == object_spans(v@, 0)[k].1 && spans@[k].0 <= spans@[k].1 < v@.len(),
            r.deep_view() == json_objects(text@).take(i as int),
        decreases spans@.len() - i,
    {
        let ghost had = r.deep_view();
        let (a, b) = spans[i];
        let piece = text.substring_char(a, b + 1);
        r.push(piece);
        i += 1;
        assert(r.deep_view() =~= had.push(piece@));
        assert(json_objects(text@).take(i as int) =~= json_objects(text@).take(i - 1).push(piece@));
    }
    assert(json_objects(text@).take(i as int) =~= json_objects(text@));
    r
}

/// The object that ends a text, trailing white space aside.
pub open spec fn terminal_object(s: Seq<char>) -> Option<Seq<char>> {
    let trimmed = trim_end(s);
    let objects = json_objects(trimmed);
    if objects.len() > 0 && objects.last().is_suffix_of(trimmed) {
        Some(objects.last())
    } else {
        None
    }
}

/// Returns the outermost balanced object that ends `text`, ignoring trailing
/// white space.
pub fn terminal_json_object(text: &str) -> (r: Option<&str>)
    ensures
        r.deep_view() == terminal_object(text@),
{
    let trimmed = trimmed_end(text);
    let v = chars_of(trimmed.as_str());
    let spans = find_spans(&v);
    let n: usize = spans.len();
    let length: usize = v.len();
    proof {
        lemma_trim_is_tight(text@);
    }
    if n == 0 {
        return None;
    }
    let (a, b) = spans[n - 1];
    assert(b < length);
    let piece = text.substring_char(a, b + 1);
    let ghost objects = json_objects(v@);
    assert(objects.last() =~= piece@);
    if is_suffix(&v, a, b + 1) {
        Some(piece)
    } else {
        None
    }
}

/// Whether `v[a..b]` equals the end of `v`.
fn is_suffix(v: &Vec<char>, a: usize, b: usize) -> (r: bool)
    requires
        a <= b <= v@.len(),
    ensures
        r == v@.subrange(a as int, b as int).is_suffix_of(v@),
{
    let len: usize = b - a;
    let n: usize = v.len();
    let at: usize = n - len;
    let mut i: usize = 0;
    let ghost piece = v@.subrange(a as int, b as int);
    let ghost end = v@.subrange(at as int, v@.len() as int);
    while i < len
        invariant
            i <= len,
            len == b - a,
            a <= b <= v@.len(),
            at + len == n,
            n == v@.len(),
            piece == v@.subrange(a as int, b as int),
            end == v@.subrange(at as int, v@.len() as int),
            forall|k: int| 0 <= k < i ==> piece[k] == end[k],
        decreases len - i,
    {
        if v[a + i] != v[at + i] {
            assert(piece[i as int] != end[i as int]);
            return false;
        }
        i += 1;
    }
    assert(piece =~= end);
    true
}

/// Every span found is a balanced object, and spans neither overlap nor nest:
/// each one ends before the next begins.
pub proof fn lemma_spans_are_outermost(s: Seq<char>, from: int)
    requires
        0 <= from,
    ensures
        ({
            let spans = object_spans(s, from);
            &&& forall|i: int| 0 <= i < spans.len() ==> from <= (#[trigger] spans[i]).0 && balanced(s, spans[i].0, spans[i].1)
            &&& forall|i: int, j: int|
                0 <= i < j < spans.len() ==> (#[trigger] spans[i]).1 < (#[trigger] spans[j]).0
        }),
    decreases s.len() - from,
{
    if from < s.len() {
        match closing(s, from) {
            Some(e) => {
                assert(balanced(s, from, e));
                let rest = object_spans(s, e + 1);
                lemma_spans_are_outermost(s, e + 1);
                let spans = object_spans(s, from);
                assert(spans =~= seq![(from, e)] + rest);
                assert forall|i: int| 0 <= i < spans.len() implies from <= (#[trigger] spans[i]).0 && balanced(
                    s,
                    spans[i].0,
                    spans[i].1,
                ) by {
                    if i > 0 {
                        assert(spans[i] == rest[i - 1]);
                    }
                }
                assert forall|i: int, j: int| 0 <= i < j < spans.len() implies (#[trigger] spans[i]).1 < (
                #[trigger] spans[j]).0 by {
                    assert(spans[j] == rest[j - 1]);
                    if i > 0 {
                        assert(spans[i] == rest[i - 1]);
                    }
                }
            },
            None => {
                assert(object_spans(s, from) == object_spans(s, from + 1));
                lemma_spans_are_outermost(s, from + 1);
            },
        }
    }
}

/// No balanced object is lost: each one opens inside a span that was found,
/// however many unclosed braces precede it.
pub proof fn lemma_every_object_is_covered(s: Seq<char>, from: int, i: int, j: int)
    requires
        0 <= from <= i,
        balanced(s, i, j),
    ensures
        exists|k: int|
            0 <= k < object_spans(s, from).len() && (#[trigger] object_spans(s, from)[k]).0 <= i
                <= object_spans(s, from)[k].1,
    decreases s.len() - from,
{
    match closing(s, from) {
        Some(e) => {
            assert(balanced(s, from, e));
            let rest = object_spans(s, e + 1);
            assert(object_spans(s, from) =~= seq![(from, e)] + rest);
            if i <= e {
                assert(object_spans(s, from)[0] == (from, e));
            } else {
                lemma_every_object_is_covered(s, e + 1, i, j);
                let k = choose|k: int| 0 <= k < rest.len() && (#[trigger] rest[k]).0 <= i <= rest[k].1;
                assert(object_spans(s, from)[k + 1] == rest[k]);
            }
        },
        None => {
            assert(i != from);
            assert(object_spans(s, from) == object_spans(s, from + 1));
            lemma_every_object_is_covered(s, from + 1, i, j);
        },
    }
}

/// Braces count outside strings alone: an open one opens a level and a close one
/// closes it, a quotation mark starts and ends a string, and a character behind a
/// backslash in a string is read over, whatever it is.
pub proof fn lemma_braces_in_strings_do_not_count(s: Seq<char>, c: char)
    requires
        !reading(s).escape,
    ensures
        ({
            let before = reading(s);
            let after = reading(s.push(c));
            &&& !before.in_string ==> {
                &&& c == '{' ==> after == (Reading { depth: before.depth + 1, ..before })
                &&& c == '}' ==> after == (Reading { depth: before.depth - 1, ..before })
                &&& c == '"' ==> after == (Reading { in_string: true, ..before })
                &&& c != '{' && c != '}' && c != '"' ==> after == before
            }
            &&& before.in_string ==> {
                &&& c == '"' ==> after == (Reading { in_string: false, ..before })
                &&& c != '"' && c != '\\' ==> after == before
                &&& reading(s.push('\\').push(c)) == before
            }
        }),
        reading(Seq::empty()) == (Reading { depth: 0, in_string: false, escape: false }),
{
    assert(s.push(c).drop_last() =~= s);
    assert(s.push('\\').drop_last() =~= s);
    let behind = s.push('\\');
    assert(behind.push(c).drop_last() =~= behind);
    assert(reading(s.push(c)) == read(reading(s), c));
    assert(reading(behind) == read(reading(s), '\\'));
    assert(reading(behind.push(c)) == read(reading(behind), c));
}

/// An object with no brace that opens before or after it is the one object of its
/// text, whole, whatever stands around it.
pub proof fn lemma_a_lone_object_is_found(s: Seq<char>, i: int, j: int)
    requires
        balanced(s, i, j),
        forall|k: int| 0 <= k < i || j < k < s.len() ==> #[trigger] s[k] != '{',
    ensures
        json_objects(s) == seq![s.subrange(i, j + 1)],
{
    lemma_no_span_before(s, 0, i);
    let e = closing(s, i).unwrap();
    assert(balanced(s, i, e));
    lemma_balanced_unique(s, i, j, e);
    lemma_no_span_after(s, j + 1);
    assert(object_spans(s, 0) =~= seq![(i, j)]);
    assert(json_objects(s) =~= seq![s.subrange(i, j + 1)]);
}

proof fn lemma_no_span_before(s: Seq<char>, from: int, i: int)
    requires
        0 <= from <= i < s.len(),
        forall|k: int| 0 <= k < i ==> #[trigger] s[k] != '{',
    ensures
        object_spans(s, from) == object_spans(s, i),
    decreases i - from,
{
    if from < i {
        assert(s[from] != '{');
        assert(closing(s, from) is None);
        lemma_no_span_before(s, from + 1, i);
    }
}

proof fn lemma_no_span_after(s: Seq<char>, from: int)
    requires
        0 <= from,
        forall|k: int| from <= k < s.len() ==> #[trigger] s[k] != '{',
    ensures
        object_spans(s, from).len() == 0,
    decreases s.len() - from,
{
    if from < s.len() {
        assert(s[from] != '{');
        assert(closing(s, from) is None);
        lemma_no_span_after(s, from + 1);
    }
}


} // verus!
