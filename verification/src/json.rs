//! JSON values.
//!
//! `Json` is the value that the logic reads and builds. Parsing, rendering
//! and pointer lookup are done by `serde_json`.
use crate::table::{Duplicate, Table};
use crate::text::{decimal, parse_u64, parsed_u64, same};
use vstd::prelude::*;

verus! {

/// A `serde_json::Value` is handed from one `serde_json` call to the next; what
/// it holds is given by [`value_model`].
#[verifier::external_type_specification]
#[verifier::external_body]
pub struct ExValue(serde_json::Value);

/// A JSON number is carried unread; its text is given by [`number_text`].
#[verifier::external_type_specification]
#[verifier::external_body]
pub struct ExNumber(serde_json::Number);

/// A JSON value. A key that an object repeats stands for its last value.
#[derive(Debug, PartialEq)]
pub enum Json {
    Null,
    Bool(bool),
    Number(serde_json::Number),
    Str(String),
    Array(Vec<Json>),
    Object(Vec<(String, Json)>),
}

/// What a JSON value denotes. A number is its text.
pub enum JsonView {
    Null,
    Bool(bool),
    Number(Seq<char>),
    Str(Seq<char>),
    Array(Seq<JsonView>),
    Object(Map<Seq<char>, JsonView>),
}

/// What a `serde_json::Value` holds.
pub uninterp spec fn value_model(value: serde_json::Value) -> JsonView;

/// The text of a `serde_json::Number`.
pub uninterp spec fn number_text(number: serde_json::Number) -> Seq<char>;

/// What `serde_json` reads from a text: a value or the text of its error.
pub uninterp spec fn parse_result(text: Seq<char>) -> Result<JsonView, Seq<char>>;

/// The compact rendering of a value.
pub uninterp spec fn compact(value: JsonView) -> Seq<char>;

/// The indented rendering of a value.
pub uninterp spec fn pretty(value: JsonView) -> Seq<char>;

/// Whether `serde_json` holds two values for equal.
pub uninterp spec fn equal_values(a: JsonView, b: JsonView) -> bool;

/// The part of a value that a JSON Pointer names.
pub uninterp spec fn pointed(value: JsonView, pointer: Seq<char>) -> Option<JsonView>;

pub open spec fn json_view(j: Json) -> JsonView
    decreases j,
{
    match j {
        Json::Null => JsonView::Null,
        Json::Bool(b) => JsonView::Bool(b),
        Json::Number(n) => JsonView::Number(number_text(n)),
        Json::Str(s) => JsonView::Str(s@),
        Json::Array(items) => JsonView::Array(array_view(items@)),
        Json::Object(entries) => JsonView::Object(object_view(entries@)),
    }
}

pub open spec fn array_view(items: Seq<Json>) -> Seq<JsonView>
    decreases items,
{
    if items.len() == 0 {
        Seq::empty()
    } else {
        array_view(items.drop_last()).push(json_view(items.last()))
    }
}

pub open spec fn object_view(entries: Seq<(String, Json)>) -> Map<Seq<char>, JsonView>
    decreases entries,
{
    if entries.len() == 0 {
        Map::empty()
    } else {
        object_view(entries.drop_last()).insert(entries.last().0@, json_view(entries.last().1))
    }
}

impl View for Json {
    type V = JsonView;

    open spec fn view(&self) -> JsonView {
        json_view(*self)
    }
}

impl DeepView for Json {
    type V = JsonView;

    open spec fn deep_view(&self) -> JsonView {
        json_view(*self)
    }
}

/// The elements of an array are modelled one by one.
pub proof fn lemma_array_view(items: Seq<Json>)
    ensures
        array_view(items).len() == items.len(),
        forall|i: int| 0 <= i < items.len() ==> #[trigger] array_view(items)[i] == json_view(items[i]),
    decreases items.len(),
{
    if items.len() > 0 {
        lemma_array_view(items.drop_last());
        assert forall|i: int| 0 <= i < items.len() implies #[trigger] array_view(items)[i] == json_view(
            items[i],
        ) by {
            if i < items.len() - 1 {
                assert(array_view(items.drop_last())[i] == json_view(items.drop_last()[i]));
            }
        }
    }
}

/// `serde_json::Number::clone`: the same number.
pub assume_specification[ <serde_json::Number as Clone>::clone ](n: &serde_json::Number) -> (r:
    serde_json::Number)
    ensures
        r == *n,
;

/// `serde_json::Number::from(u64)`: its text is the number in decimal.
#[verifier::external_body]
fn number_of(n: u64) -> (r: serde_json::Number)
    ensures
        number_text(r) == decimal(n as nat),
{
    serde_json::Number::from(n)
}

/// `serde_json::Number`'s `Display`: writes the number's text.
#[verifier::external_body]
fn number_string(n: &serde_json::Number) -> (s: String)
    ensures
        s@ == number_text(*n),
{
    n.to_string()
}

/// Reads a `serde_json::Value` variant by variant.
#[verifier::external_body]
pub(crate) fn json_of_value(value: &serde_json::Value) -> (r: Json)
    ensures
        r@ == value_model(*value),
{
    match value {
        serde_json::Value::Null => Json::Null,
        serde_json::Value::Bool(b) => Json::Bool(*b),
        serde_json::Value::Number(n) => Json::Number(n.clone()),
        serde_json::Value::String(s) => Json::Str(s.clone()),
        serde_json::Value::Array(items) => Json::Array(items.iter().map(json_of_value).collect()),
        serde_json::Value::Object(map) => {
            Json::Object(map.iter().map(|(k, v)| (k.clone(), json_of_value(v))).collect())
        }
    }
}

/// Builds a `serde_json::Value` variant by variant. A map keeps the last value
/// of a repeated key.
#[verifier::external_body]
pub(crate) fn value_of_json(json: &Json) -> (r: serde_json::Value)
    ensures
        value_model(r) == json@,
{
    match json {
        Json::Null => serde_json::Value::Null,
        Json::Bool(b) => serde_json::Value::Bool(*b),
        Json::Number(n) => serde_json::Value::Number(n.clone()),
        Json::Str(s) => serde_json::Value::String(s.clone()),
        Json::Array(items) => serde_json::Value::Array(items.iter().map(value_of_json).collect()),
        Json::Object(entries) => serde_json::Value::Object(
            entries.iter().map(|(k, v)| (k.clone(), value_of_json(v))).collect(),
        ),
    }
}

/// `serde_json::from_str::<Value>`: the value, or the error's message.
#[verifier::external_body]
fn parse_value(text: &str) -> (r: Result<serde_json::Value, String>)
    ensures
        match r {
            Ok(value) => parse_result(text@) == Ok::<JsonView, Seq<char>>(value_model(value)),
            Err(message) => parse_result(text@) == Err::<JsonView, Seq<char>>(message@),
        },
{
    serde_json::from_str::<serde_json::Value>(text).map_err(|err| err.to_string())
}

/// `serde_json::Value`'s `Display`: the compact rendering.
#[verifier::external_body]
fn render_value(value: &serde_json::Value) -> (s: String)
    ensures
        s@ == compact(value_model(*value)),
{
    value.to_string()
}

/// `serde_json::to_string_pretty` on a `Value`, which cannot fail: the indented
/// rendering.
#[verifier::external_body]
fn pretty_value(value: &serde_json::Value) -> (s: String)
    ensures
        s@ == pretty(value_model(*value)),
{
    serde_json::to_string_pretty(value).expect("a JSON value always renders")
}

/// `serde_json::Value::pointer`: the part that the pointer names, copied.
#[verifier::external_body]
fn value_at(value: &serde_json::Value, pointer: &str) -> (r: Option<serde_json::Value>)
    ensures
        match r {
            Some(part) => pointed(value_model(*value), pointer@) == Some(value_model(part)),
            None => pointed(value_model(*value), pointer@) is None,
        },
{
    value.pointer(pointer).cloned()
}

/// `serde_json::Value`'s `PartialEq`: a value equals itself; numbers are equal
/// by value within their representation.
#[verifier::external_body]
fn value_eq(a: &serde_json::Value, b: &serde_json::Value) -> (r: bool)
    ensures
        r == equal_values(value_model(*a), value_model(*b)),
        value_model(*a) == value_model(*b) ==> r,
{
    a == b
}

impl Json {
    /// Whether two values are equal.
    pub fn equals(&self, other: &Json) -> (r: bool)
        ensures
            r == equal_values(self@, other@),
            self@ == other@ ==> r,
    {
        value_eq(&value_of_json(self), &value_of_json(other))
    }

    /// Parses a JSON text.
    pub fn parse(text: &str) -> (r: Result<Json, String>)
        ensures
            match r {
                Ok(json) => parse_result(text@) == Ok::<JsonView, Seq<char>>(json@),
                Err(message) => parse_result(text@) == Err::<JsonView, Seq<char>>(message@),
            },
    {
        match parse_value(text) {
            Ok(value) => Ok(json_of_value(&value)),
            Err(message) => Err(message),
        }
    }

    /// The compact rendering.
    pub fn render(&self) -> (s: String)
        ensures
            s@ == compact(self@),
    {
        render_value(&value_of_json(self))
    }

    /// The indented rendering.
    pub fn render_pretty(&self) -> (s: String)
        ensures
            s@ == pretty(self@),
    {
        pretty_value(&value_of_json(self))
    }

    /// The part that `pointer` names.
    pub fn pointer(&self, pointer: &str) -> (r: Option<Json>)
        ensures
            r.deep_view() == pointed(self@, pointer@),
    {
        match value_at(&value_of_json(self), pointer) {
            Some(value) => Some(json_of_value(&value)),
            None => None,
        }
    }

    pub fn from_u64(n: u64) -> (r: Json)
        ensures
            r@ == JsonView::Number(decimal(n as nat)),
    {
        Json::Number(number_of(n))
    }

    pub fn from_str(s: &str) -> (r: Json)
        ensures
            r@ == JsonView::Str(s@),
    {
        Json::Str(s.to_owned())
    }

    /// The text of a string value.
    pub fn as_str(&self) -> (r: Option<&str>)
        ensures
            match r {
                Some(s) => self@ == JsonView::Str(s@),
                None => !(self@ is Str),
            },
    {
        match self {
            Json::Str(s) => Some(s.as_str()),
            _ => None,
        }
    }

    /// The elements of an array value.
    pub fn as_array(&self) -> (r: Option<&Vec<Json>>)
        ensures
            match r {
                Some(items) => self@ == JsonView::Array(items.deep_view()),
                None => !(self@ is Array),
            },
    {
        match self {
            Json::Array(items) => {
                proof {
                    lemma_array_view(items@);
                    assert(array_view(items@) =~= items.deep_view());
                }
                Some(items)
            },
            _ => None,
        }
    }

    /// The number of a value that is a non-negative integer of 64 bits.
    pub fn as_u64(&self) -> (r: Option<u64>)
        ensures
            r == view_as_u64(self@),
    {
        match self {
            Json::Number(n) => parsed_u64(number_string(n).as_str()),
            _ => None,
        }
    }

    /// The value of a key of an object value.
    pub fn get(&self, key: &str) -> (r: Option<&Json>)
        ensures
            match r {
                Some(v) => member(self@, key@) == Some(v@),
                None => member(self@, key@) is None,
            },
    {
        match self {
            Json::Object(entries) => lookup(entries, key),
            _ => None,
        }
    }

    pub fn is_object(&self) -> (r: bool)
        ensures
            r == (self@ is Object),
    {
        match self {
            Json::Object(_) => true,
            _ => false,
        }
    }
}

/// The number of a value that is a non-negative integer of 64 bits.
pub open spec fn view_as_u64(v: JsonView) -> Option<u64> {
    match v {
        JsonView::Number(text) => parse_u64(text),
        _ => None,
    }
}

/// The value of a key of an object; other values have no keys.
pub open spec fn member(v: JsonView, key: Seq<char>) -> Option<JsonView> {
    match v {
        JsonView::Object(m) => if m.contains_key(key) {
            Some(m[key])
        } else {
            None
        },
        _ => None,
    }
}

/// The last entry with `key`.
fn lookup<'a>(entries: &'a Vec<(String, Json)>, key: &str) -> (r: Option<&'a Json>)
    ensures
        match r {
            Some(v) => object_view(entries@).contains_key(key@) && object_view(entries@)[key@] == v@,
            None => !object_view(entries@).contains_key(key@),
        },
{
    let mut n: usize = entries.len();
    assert(entries@.take(n as int) =~= entries@);
    while n > 0
        invariant
            n <= entries@.len(),
            object_view(entries@).contains_key(key@) == object_view(
                entries@.take(n as int),
            ).contains_key(key@),
            object_view(entries@).contains_key(key@) ==> object_view(entries@)[key@] == object_view(
                entries@.take(n as int),
            )[key@],
        decreases n,
    {
        assert(entries@.take(n as int).drop_last() =~= entries@.take(n - 1));
        assert(entries@.take(n as int).last() == entries@[n - 1]);
        if same(entries[n - 1].0.as_str(), key) {
            return Some(&entries[n - 1].1);
        }
        n -= 1;
    }
    assert(entries@.take(0) =~= Seq::empty());
    None
}

/// Puts the entries of an object into a table.
pub fn insert_entries(table: &mut Table<Json>, entries: &Vec<(String, Json)>)
    ensures
        final(table)@ == old(table)@.union_prefer_right(object_view(entries@)),
{
    let ghost start = table@;
    let mut i: usize = 0;
    assert(entries@.take(0) =~= Seq::empty());
    assert(start.union_prefer_right(object_view(entries@.take(0))) =~= start);
    while i < entries.len()
        invariant
            i <= entries@.len(),
            table@ == start.union_prefer_right(object_view(entries@.take(i as int))),
        decreases entries@.len() - i,
    {
        assert(entries@.take(i + 1).drop_last() =~= entries@.take(i as int));
        table.insert(entries[i].0.clone(), entries[i].1.duplicate());
        i += 1;
        assert(table@ =~= start.union_prefer_right(object_view(entries@.take(i as int))));
    }
    assert(entries@.take(i as int) =~= entries@);
}


/// The object that holds the entries of a table.
pub fn object_of(table: &Table<Json>) -> (r: Json)
    ensures
        r@ == JsonView::Object(table@),
{
    let keys = table.keys();
    let mut entries: Vec<(String, Json)> = Vec::new();
    let mut i: usize = 0;
    let ghost all = keys.deep_view();
    assert(table@.restrict(all.take(0).to_set()) =~= Map::empty());
    while i < keys.len()
        invariant
            i <= keys@.len(),
            all == keys.deep_view(),
            all.to_set() == table@.dom(),
            object_view(entries@) == table@.restrict(all.take(i as int).to_set()),
        decreases keys@.len() - i,
    {
        assert(all[i as int] == keys@[i as int]@);
        assert(all.contains(all[i as int]));
        assert(table@.dom().contains(all[i as int]));
        let ghost had = entries@;
        if let Some(v) = table.get(keys[i].as_str()) {
            entries.push((keys[i].clone(), v.duplicate()));
        }
        proof {
            assert(entries@.drop_last() =~= had);
            crate::order::lemma_next_joins(all, i as int);
            assert(object_view(entries@) =~= table@.restrict(all.take(i + 1).to_set()));
        }
        i += 1;
    }
    proof {
        assert(all.take(i as int) =~= all);
        assert(object_view(entries@) =~= table@);
    }
    Json::Object(entries)
}

impl Duplicate for Json {
    fn duplicate(&self) -> (r: Self) {
        copy_json(self)
    }
}

fn copy_json(j: &Json) -> (r: Json)
    ensures
        r@ == j@,
    decreases j,
{
    match j {
        Json::Null => Json::Null,
        Json::Bool(b) => Json::Bool(*b),
        Json::Number(n) => Json::Number(n.clone()),
        Json::Str(s) => Json::Str(s.clone()),
        Json::Array(items) => {
            let mut copies: Vec<Json> = Vec::new();
            let mut i: usize = 0;
            while i < items.len()
                invariant
                    i <= items@.len(),
                    array_view(copies@) == array_view(items@.take(i as int)),
                    j == Json::Array(*items),
                decreases items@.len() - i,
            {
                let ghost had = copies@;
                assert(decreases_to!(*j => items@[i as int])) by {
                    assert(decreases_to!(*j => j->Array_0));
                    assert(decreases_to!(*items => items@));
                    assert(decreases_to!(items@ => items@[i as int]));
                }
                copies.push(copy_json(&items[i]));
                assert(copies@.drop_last() =~= had);
                assert(items@.take(i + 1).drop_last() =~= items@.take(i as int));
                i += 1;
            }
            assert(items@.take(i as int) =~= items@);
            Json::Array(copies)
        },
        Json::Object(entries) => {
            let mut copies: Vec<(String, Json)> = Vec::new();
            let mut i: usize = 0;
            while i < entries.len()
                invariant
                    i <= entries@.len(),
                    object_view(copies@) == object_view(entries@.take(i as int)),
                    j == Json::Object(*entries),
                decreases entries@.len() - i,
            {
                let ghost had = copies@;
                assert(decreases_to!(*j => entries@[i as int].1)) by {
                    assert(decreases_to!(*j => j->Object_0));
                    assert(decreases_to!(*entries => entries@));
                    assert(decreases_to!(entries@ => entries@[i as int]));
                    assert(decreases_to!(entries@[i as int] => entries@[i as int].1));
                }
                copies.push((entries[i].0.clone(), copy_json(&entries[i].1)));
                assert(copies@.drop_last() =~= had);
                assert(entries@.take(i + 1).drop_last() =~= entries@.take(i as int));
                i += 1;
            }
            assert(entries@.take(i as int) =~= entries@);
            Json::Object(copies)
        },
    }
}

} // verus!
