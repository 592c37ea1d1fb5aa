//! What a parallel branch leaves behind, and its JSON form.
use crate::context::{Context, Values};
use crate::error::{handler_error, Error};
use crate::json::{
    insert_entries, lemma_array_view, member, object_of, object_view, view_as_u64, Json, JsonView,
};
use crate::keys::PARALLEL_RESULTS;
use crate::outcome::{stage_outcome_named, StageOutcome};
use crate::table::{Duplicate, Table};
use crate::text::{decimal, lemma_decimal_round_trip};
use vstd::prelude::*;

verus! {

/// The result of one branch.
#[derive(Debug, PartialEq)]
pub struct ParallelBranchResult {
    pub id: String,
    pub index: Option<usize>,
    pub item_label: Option<String>,
    pub status: StageOutcome,
    pub context_updates: Table<Json>,
}

pub struct BranchResultView {
    pub id: Seq<char>,
    pub index: Option<usize>,
    pub item_label: Option<Seq<char>>,
    pub status: StageOutcome,
    pub context_updates: Values,
}

impl View for ParallelBranchResult {
    type V = BranchResultView;

    open spec fn view(&self) -> BranchResultView {
        BranchResultView {
            id: self.id@,
            index: self.index,
            item_label: self.item_label.deep_view(),
            status: self.status,
            context_updates: self.context_updates@,
        }
    }
}

impl DeepView for ParallelBranchResult {
    type V = BranchResultView;

    open spec fn deep_view(&self) -> BranchResultView {
        self@
    }
}

impl Duplicate for ParallelBranchResult {
    fn duplicate(&self) -> (r: Self) {
        ParallelBranchResult {
            id: self.id.clone(),
            index: self.index,
            item_label: self.item_label.duplicate(),
            status: self.status,
            context_updates: self.context_updates.duplicate(),
        }
    }
}

/// The entries of a result's JSON object.
pub open spec fn result_entries(r: BranchResultView) -> Map<Seq<char>, JsonView> {
    let base = map![
        "id"@ => JsonView::Str(r.id),
        "status"@ => JsonView::Str(r.status.name()),
        "context_updates"@ => JsonView::Object(r.context_updates),
    ];
    let indexed = match r.index {
        Some(i) => base.insert("index"@, JsonView::Number(decimal(i as nat))),
        None => base,
    };
    match r.item_label {
        Some(l) => indexed.insert("item_label"@, JsonView::Str(l)),
        None => indexed,
    }
}

/// The JSON form of results.
pub open spec fn results_json(results: Seq<BranchResultView>) -> JsonView {
    JsonView::Array(results.map_values(|r: BranchResultView| JsonView::Object(result_entries(r))))
}

impl ParallelBranchResult {
    pub fn to_json(&self) -> (r: Json)
        ensures
            r@ == JsonView::Object(result_entries(self@)),
    {
        let mut entries: Table<Json> = Table::new();
        entries.insert("id".to_owned(), Json::Str(self.id.clone()));
        entries.insert("status".to_owned(), Json::from_str(self.status.as_str()));
        entries.insert("context_updates".to_owned(), object_of(&self.context_updates));
        if let Some(index) = self.index {
            entries.insert("index".to_owned(), Json::from_u64(index as u64));
        }
        if let Some(label) = &self.item_label {
            entries.insert("item_label".to_owned(), Json::Str(label.clone()));
        }
        assert(entries@ =~= result_entries(self@));
        object_of(&entries)
    }

    /// Reads a result from its JSON form.
    pub fn from_json(value: &Json) -> (r: Option<ParallelBranchResult>)
        ensures
            r.deep_view() == read_result(value@),
    {
        let id = match value.get("id") {
            Some(Json::Str(s)) => s.clone(),
            _ => {
                return None;
            },
        };
        let status = match value.get("status") {
            Some(Json::Str(s)) => match StageOutcome::parse(s.as_str()) {
                Some(status) => status,
                None => {
                    return None;
                },
            },
            _ => {
                return None;
            },
        };
        let mut context_updates: Table<Json> = Table::new();
        match value.get("context_updates") {
            Some(Json::Object(entries)) => {
                insert_entries(&mut context_updates, entries);
                assert(context_updates@ =~= object_view(entries@));
            },
            _ => {
                return None;
            },
        }
        let index = match value.get("index") {
            None => None,
            Some(Json::Null) => None,
            Some(v) => match v.as_u64() {
                Some(n) => {
                    if n > usize::MAX as u64 {
                        return None;
                    }
                    Some(n as usize)
                },
                None => {
                    return None;
                },
            },
        };
        let item_label = match value.get("item_label") {
            None => None,
            Some(Json::Null) => None,
            Some(Json::Str(s)) => Some(s.clone()),
            _ => {
                return None;
            },
        };
        Some(ParallelBranchResult { id, index, item_label, status, context_updates })
    }
}

/// An entry that may be absent: outer `None` where it is not a number.
pub open spec fn read_index(v: JsonView) -> Option<Option<usize>> {
    match member(v, "index"@) {
        None => Some(None),
        Some(JsonView::Null) => Some(None),
        Some(n) => match view_as_u64(n) {
            Some(n) => if n <= usize::MAX {
                Some(Some(n as usize))
            } else {
                None
            },
            None => None,
        },
    }
}

/// An entry that may be absent: outer `None` where it is not a text.
pub open spec fn read_label(v: JsonView) -> Option<Option<Seq<char>>> {
    match member(v, "item_label"@) {
        None => Some(None),
        Some(JsonView::Null) => Some(None),
        Some(JsonView::Str(s)) => Some(Some(s)),
        _ => None,
    }
}

/// The status that an entry names.
pub open spec fn read_status(v: JsonView) -> Option<StageOutcome> {
    match member(v, "status"@) {
        Some(JsonView::Str(s)) => stage_outcome_named(s),
        _ => None,
    }
}

/// The result that a JSON value describes.
pub open spec fn read_result(v: JsonView) -> Option<BranchResultView> {
    match (
        member(v, "id"@),
        read_status(v),
        member(v, "context_updates"@),
        read_index(v),
        read_label(v),
    ) {
        (
            Some(JsonView::Str(id)),
            Some(status),
            Some(JsonView::Object(context_updates)),
            Some(index),
            Some(item_label),
        ) => Some(BranchResultView { id, index, item_label, status, context_updates }),
        _ => None,
    }
}

/// Whether a JSON value is an array of results.
pub open spec fn is_results(v: JsonView) -> bool {
    v matches JsonView::Array(items) && forall|i: int|
        0 <= i < items.len() ==> read_result(#[trigger] items[i]) is Some
}

/// The JSON form of results.
pub fn results_value(results: &Vec<ParallelBranchResult>) -> (r: Json)
    ensures
        r@ == results_json(results.deep_view()),
{
    let ghost all = results.deep_view();
    let mut items: Vec<Json> = Vec::new();
    let mut i: usize = 0;
    while i < results.len()
        invariant
            i <= results@.len(),
            all == results.deep_view(),
            items@.len() == i,
            forall|k: int| 0 <= k < i ==> (#[trigger] items@[k])@ == JsonView::Object(result_entries(all[k])),
        decreases results@.len() - i,
    {
        assert(all[i as int] == results@[i as int]@);
        items.push(results[i].to_json());
        i += 1;
    }
    proof {
        lemma_array_view(items@);
        let model = all.map_values(|r: BranchResultView| JsonView::Object(result_entries(r)));
        assert(crate::json::array_view(items@) =~= model);
    }
    Json::Array(items)
}

proof fn lemma_status_is_read_back(status: StageOutcome)
    requires
        !status.wants_retry(),
    ensures
        stage_outcome_named(status.name()) == Some(status),
{
    reveal_strlit("succeeded");
    reveal_strlit("partially_succeeded");
    reveal_strlit("failed");
    reveal_strlit("skipped");
    assert("succeeded"@[1] == 'u');
    assert("partially_succeeded"@.len() == 19);
    assert("failed"@.len() == 6);
    assert("skipped"@.len() == 7);
    assert("succeeded"@.len() == 9);
}

/// A result is read back from its JSON form. A status that asks for a retry
/// is not: the form has one name for every failure.
pub proof fn lemma_result_round_trip(r: BranchResultView)
    requires
        !r.status.wants_retry(),
    ensures
        read_result(JsonView::Object(result_entries(r))) == Some(r),
{
    reveal_strlit("id");
    reveal_strlit("status");
    reveal_strlit("context_updates");
    reveal_strlit("index");
    reveal_strlit("item_label");
    assert("id"@.len() == 2);
    assert("status"@.len() == 6);
    assert("context_updates"@.len() == 15);
    assert("index"@.len() == 5);
    assert("item_label"@.len() == 10);
    lemma_status_is_read_back(r.status);
    if let Some(i) = r.index {
        lemma_decimal_round_trip(i as u64);
    }
}

/// What a fan-in says of the results that a context holds.
pub open spec fn branch_count(values: Values) -> Result<nat, Seq<char>> {
    if !values.contains_key(PARALLEL_RESULTS@) {
        Err("No parallel results to join"@)
    } else if !is_results(values[PARALLEL_RESULTS@]) {
        Err("Invalid parallel results"@)
    } else {
        Ok(values[PARALLEL_RESULTS@]->Array_0.len())
    }
}

/// The number of results that a context holds.
pub fn validated_branch_count(context: &Context) -> (r: Result<usize, Error>)
    ensures
        match branch_count(context@) {
            Ok(n) => r matches Ok(count) && count == n,
            Err(reason) => r matches Err(e) && e@ == handler_error(reason),
        },
{
    let value = match context.get(PARALLEL_RESULTS) {
        Some(value) => value,
        None => {
            return Err(Error::handler("No parallel results to join"));
        },
    };
    let items = match value.as_array() {
        Some(items) => items,
        None => {
            return Err(Error::handler("Invalid parallel results"));
        },
    };
    let ghost all = items.deep_view();
    let mut i: usize = 0;
    while i < items.len()
        invariant
            i <= items@.len(),
            all == items.deep_view(),
            value@ == JsonView::Array(all),
            context@.contains_key(PARALLEL_RESULTS@),
            context@[PARALLEL_RESULTS@] == value@,
            forall|k: int| 0 <= k < i ==> read_result(#[trigger] all[k]) is Some,
        decreases items@.len() - i,
    {
        assert(all[i as int] == items@[i as int]@);
        if ParallelBranchResult::from_json(&items[i]).is_none() {
            return Err(Error::handler("Invalid parallel results"));
        }
        i += 1;
    }
    Ok(items.len())
}

/// A fan-in counts exactly the results that a fan-out put into the context.
pub proof fn lemma_fan_in_counts_fan_out(values: Values, results: Seq<BranchResultView>)
    requires
        forall|i: int| 0 <= i < results.len() ==> !(#[trigger] results[i]).status.wants_retry(),
    ensures
        branch_count(values.insert(PARALLEL_RESULTS@, results_json(results))) == Ok::<
            nat,
            Seq<char>,
        >(results.len()),
{
    let items = results_json(results)->Array_0;
    assert forall|i: int| 0 <= i < items.len() implies read_result(#[trigger] items[i]) is Some by {
        lemma_result_round_trip(results[i]);
    }
}

/// A fan-in counts the branches that the context names, each of which has to read
/// as a result; without results, or with anything else among them, it refuses.
pub proof fn lemma_joins_take_well_formed_results_only(values: Values)
    ensures
        ({
            let r = branch_count(values);
            let key = "parallel.results"@;
            &&& !values.contains_key(key) ==> r == Err::<nat, Seq<char>>(
                "No parallel results to join"@,
            )
            &&& values.contains_key(key) ==> match values[key] {
                JsonView::Array(items) => {
                    let sound = forall|i: int|
                        0 <= i < items.len() ==> read_result(#[trigger] items[i]) is Some;
                    &&& sound ==> r == Ok::<nat, Seq<char>>(items.len())
                    &&& !sound ==> r == Err::<nat, Seq<char>>("Invalid parallel results"@)
                },
                _ => r == Err::<nat, Seq<char>>("Invalid parallel results"@),
            }
        }),
{
}

/// A branch's result reads from an object exactly where that holds a text for the
/// node, a known status and an object of updates, and where a place is a number and
/// a label a text if they are there at all.
pub proof fn lemma_results_read_from_their_fields(fields: Map<Seq<char>, JsonView>)
    ensures
        ({
            let r = read_result(JsonView::Object(fields));
            let holds = |key: Seq<char>| fields.contains_key(key);
            let plain = holds("id"@) && fields["id"@] is Str && holds("status"@) && (
            fields["status"@] matches JsonView::Str(name) && stage_outcome_named(name) is Some)
                && holds("context_updates"@) && fields["context_updates"@] is Object;
            &&& r is Some ==> plain
            &&& plain && !holds("index"@) && !holds("item_label"@) ==> r is Some
            &&& r matches Some(b) ==> {
                &&& fields["id"@] == JsonView::Str(b.id)
                &&& fields["status"@] matches JsonView::Str(name) && stage_outcome_named(name)
                    == Some(b.status)
                &&& fields["context_updates"@] == JsonView::Object(b.context_updates)
                &&& b.item_label matches Some(label) ==> holds("item_label"@)
                    && fields["item_label"@] == JsonView::Str(label)
                &&& holds("item_label"@) && fields["item_label"@] is Str ==> b.item_label is Some
                &&& b.index is Some ==> holds("index"@)
            }
        }),
{
}

/// An index or a label of a result may be missing or null, and is otherwise the
/// number or the text that stands there; anything else there is no result at all.
pub proof fn lemma_odd_indices_and_labels_are_refused(fields: Map<Seq<char>, JsonView>)
    ensures
        ({
            let r = read_result(JsonView::Object(fields));
            let none = |key: Seq<char>| !fields.contains_key(key) || fields[key] is Null;
            &&& !none("index"@) && view_as_u64(fields["index"@]) is None ==> r is None
            &&& !none("item_label"@) && !(fields["item_label"@] is Str) ==> r is None
            &&& r matches Some(b) ==> {
                &&& none("index"@) <==> b.index is None
                &&& b.index matches Some(n) ==> view_as_u64(fields["index"@]) == Some(n as u64)
                &&& none("item_label"@) <==> b.item_label is None
            }
        }),
        ({
            let counted = fields.insert("index"@, JsonView::Null);
            read_result(JsonView::Object(fields.remove("index"@))) == read_result(
                JsonView::Object(counted),
            )
        }),
{
    reveal_strlit("index");
    reveal_strlit("id");
    reveal_strlit("status");
    reveal_strlit("context_updates");
    reveal_strlit("item_label");
    assert("index"@.len() == 5 && "id"@.len() == 2 && "status"@.len() == 6);
    assert("context_updates"@.len() == 15 && "item_label"@.len() == 10);
}

} // verus!
