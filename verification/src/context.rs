//! The values that a run's stages share.
use crate::json::{equal_values, Json, JsonView};
use crate::keys::{fidelity_named, Fidelity, INTERNAL_FIDELITY, INTERNAL_PREFIX, INTERNAL_RUN_ID};
use crate::order::lemma_next_joins;
use crate::table::{Duplicate, Table};
use crate::text::has_prefix;
use vstd::prelude::*;

verus! {

pub type Context = Table<Json>;

pub type Values = Map<Seq<char>, JsonView>;

/// The text of a string value.
pub open spec fn text_value(values: Values, key: Seq<char>) -> Option<Seq<char>> {
    if values.contains_key(key) {
        match values[key] {
            JsonView::Str(s) => Some(s),
            _ => None,
        }
    } else {
        None
    }
}

/// The text of a string value, or a default.
pub open spec fn text_or(values: Values, key: Seq<char>, default: Seq<char>) -> Seq<char> {
    match text_value(values, key) {
        Some(s) => s,
        None => default,
    }
}

pub fn get_text<'a>(context: &'a Context, key: &str) -> (r: Option<&'a str>)
    ensures
        r.deep_view() == text_value(context@, key@),
{
    match context.get(key) {
        Some(value) => value.as_str(),
        None => None,
    }
}

pub fn get_text_or<'a>(context: &'a Context, key: &str, default: &'a str) -> (r: &'a str)
    ensures
        r@ == text_or(context@, key@, default@),
{
    match get_text(context, key) {
        Some(s) => s,
        None => default,
    }
}

/// The identity of the run.
pub open spec fn run_id_of(values: Values) -> Seq<char> {
    text_or(values, INTERNAL_RUN_ID@, "unknown"@)
}

pub fn run_id(context: &Context) -> (r: &str)
    ensures
        r@ == run_id_of(context@),
{
    get_text_or(context, INTERNAL_RUN_ID, "unknown")
}

/// The fidelity set for the current stage.
pub open spec fn fidelity_of(values: Values) -> Fidelity {
    match text_value(values, INTERNAL_FIDELITY@) {
        Some(s) => match fidelity_named(s) {
            Some(f) => f,
            None => Fidelity::Compact,
        },
        None => Fidelity::Compact,
    }
}

pub fn fidelity(context: &Context) -> (r: Fidelity)
    ensures
        r == fidelity_of(context@),
{
    match get_text(context, INTERNAL_FIDELITY) {
        Some(s) => match Fidelity::parse(s) {
            Some(f) => f,
            None => Fidelity::Compact,
        },
        None => Fidelity::Compact,
    }
}

/// Whether `after` gives a public key a value that `before` did not give it.
pub open spec fn changed(before: Values, after: Values, key: Seq<char>) -> bool {
    &&& after.contains_key(key)
    &&& !INTERNAL_PREFIX@.is_prefix_of(key)
    &&& !(before.contains_key(key) && equal_values(before[key], after[key]))
}

/// The public values that `after` has and `before` had not.
pub open spec fn public_diff(before: Values, after: Values) -> Values {
    Map::new(|key: Seq<char>| changed(before, after, key), |key: Seq<char>| after[key])
}

/// The public values that `after` has and `before` had not.
pub fn context_diff_public(before: &Context, after: &Context) -> (r: Table<Json>)
    ensures
        r@ == public_diff(before@, after@),
{
    let keys = after.keys();
    let mut r: Table<Json> = Table::new();
    let ghost all = keys.deep_view();
    let mut i: usize = 0;
    assert(public_diff(before@, after@).restrict(all.take(0).to_set()) =~= r@);
    while i < keys.len()
        invariant
            i <= keys@.len(),
            all == keys.deep_view(),
            all.to_set() == after@.dom(),
            r@ == public_diff(before@, after@).restrict(all.take(i as int).to_set()),
        decreases keys@.len() - i,
    {
        let ghost key = all[i as int];
        proof {
            lemma_next_joins(all, i as int);
            assert(key == keys@[i as int]@);
        }
        if let Some(value) = after.get(keys[i].as_str()) {
            let kept = match before.get(keys[i].as_str()) {
                Some(earlier) => earlier.equals(value),
                None => false,
            };
            if !kept && !has_prefix(keys[i].as_str(), INTERNAL_PREFIX) {
                r.insert(keys[i].clone(), value.duplicate());
            }
        }
        i += 1;
        assert(r@ =~= public_diff(before@, after@).restrict(all.take(i as int).to_set()));
    }
    proof {
        assert(all.take(i as int) =~= all);
        assert(r@ =~= public_diff(before@, after@));
    }
    r
}

/// What a context gained over an earlier one is every public value that it has and
/// that the earlier one lacks or has otherwise, as it has it, and nothing else.
pub proof fn lemma_gained_values_are_public_and_new(before: Values, after: Values, key: Seq<char>)
    ensures
        ({
            let gained = public_diff(before, after);
            &&& gained.contains_key(key) <==> after.contains_key(key) && !"internal."@.is_prefix_of(
                key,
            ) && (before.contains_key(key) ==> !equal_values(before[key], after[key]))
            &&& gained.contains_key(key) ==> gained[key] == after[key]
        }),
{
}

/// A stage runs at the fidelity that its context names, and at the compact one
/// where it names none.
pub proof fn lemma_stages_run_at_the_noted_fidelity(values: Values, f: Fidelity)
    ensures
        fidelity_of(values.insert("internal.fidelity"@, JsonView::Str(f.name()))) == f,
        fidelity_of(values.remove("internal.fidelity"@)) == Fidelity::Compact,
{
    crate::keys::lemma_fidelity_round_trip(f);
}


} // verus!
