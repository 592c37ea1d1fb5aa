//! The run of a parallel branch, from its forked context to its result.
use crate::context::{context_diff_public, public_diff, Context, Values};
use crate::handler::branch_result::{BranchResultView, ParallelBranchResult};
use crate::json::{equal_values, member, Json, JsonView};
use crate::keys::{
    fidelity_named, Fidelity, CURRENT_NODE, CURRENT_PREAMBLE, INTERNAL_FIDELITY,
    INTERNAL_PARALLEL_BRANCH_ID, INTERNAL_PARALLEL_BRANCH_PREAMBLES, INTERNAL_PARALLEL_GROUP_ID,
    INTERNAL_STAGE_EXECUTION_ORDINAL,
};
use crate::outcome::{failure, FailureCategory, Outcome, OutcomeView, StageOutcome};
use crate::table::{Duplicate, Table};
use crate::text::decimal;
use vstd::prelude::*;
use vstd::string::*;

verus! {

/// The context prepared for one branch.
#[derive(Debug, PartialEq)]
pub struct ParallelBranchPreamble {
    pub fidelity: Fidelity,
    pub preamble: String,
}

pub struct PreambleView {
    pub fidelity: Fidelity,
    pub preamble: Seq<char>,
}

impl View for ParallelBranchPreamble {
    type V = PreambleView;

    open spec fn view(&self) -> PreambleView {
        PreambleView { fidelity: self.fidelity, preamble: self.preamble@ }
    }
}

impl DeepView for ParallelBranchPreamble {
    type V = PreambleView;

    open spec fn deep_view(&self) -> PreambleView {
        self@
    }
}

impl Duplicate for ParallelBranchPreamble {
    fn duplicate(&self) -> (r: Self) {
        ParallelBranchPreamble { fidelity: self.fidelity, preamble: self.preamble.clone() }
    }
}

/// A well-formed entry of the preamble stash.
#[derive(Debug, PartialEq)]
pub enum ParsedBranchPreamble {
    /// The branch keeps the context of the fork.
    Inherit,
    Preamble(ParallelBranchPreamble),
}

impl ParsedBranchPreamble {
    pub open spec fn entry(self) -> Option<PreambleView> {
        match self {
            ParsedBranchPreamble::Inherit => None,
            ParsedBranchPreamble::Preamble(p) => Some(p@),
        }
    }

    pub fn into_preamble(self) -> (r: Option<ParallelBranchPreamble>)
        ensures
            r.deep_view() == self.entry(),
    {
        match self {
            ParsedBranchPreamble::Inherit => None,
            ParsedBranchPreamble::Preamble(preamble) => Some(preamble),
        }
    }
}

/// What an entry of the preamble stash says, where it is well formed.
pub open spec fn stash_entry(v: JsonView) -> Option<Option<PreambleView>> {
    match v {
        JsonView::Null => Some(None),
        _ => match (member(v, "fidelity"@), member(v, "preamble"@)) {
            (Some(JsonView::Str(name)), Some(JsonView::Str(preamble))) => match fidelity_named(
                name,
            ) {
                Some(fidelity) => Some(Some(PreambleView { fidelity, preamble })),
                None => None,
            },
            _ => None,
        },
    }
}

fn parse_branch_preamble(entry: &Json) -> (r: Option<ParsedBranchPreamble>)
    ensures
        match r {
            Some(parsed) => stash_entry(entry@) == Some(parsed.entry()),
            None => stash_entry(entry@) is None,
        },
{
    if let Json::Null = entry {
        return Some(ParsedBranchPreamble::Inherit);
    }
    match (entry.get("fidelity"), entry.get("preamble")) {
        (Some(Json::Str(name)), Some(Json::Str(preamble))) => match Fidelity::parse(name.as_str()) {
            Some(fidelity) => Some(
                ParsedBranchPreamble::Preamble(
                    ParallelBranchPreamble { fidelity, preamble: preamble.clone() },
                ),
            ),
            None => None,
        },
        _ => None,
    }
}

/// Whether every entry is well formed.
pub open spec fn all_entries(items: Seq<JsonView>) -> bool {
    forall|i: int| 0 <= i < items.len() ==> stash_entry(#[trigger] items[i]) is Some
}

/// The entry of each branch. `None` where the stash is absent, malformed or
/// meant for another number of branches: every branch then keeps the context of
/// the fork. The one entry of a `for_each` node serves every branch.
pub open spec fn branch_preambles(
    stash: Option<JsonView>,
    branch_count: nat,
    replicate_template: bool,
) -> Option<Seq<Option<PreambleView>>> {
    match stash {
        Some(JsonView::Array(items)) => if replicate_template && items.len() == 1 {
            match stash_entry(items[0]) {
                Some(entry) => Some(Seq::new(branch_count, |i: int| entry)),
                None => None,
            }
        } else if items.len() != branch_count || !all_entries(items) {
            None
        } else {
            Some(items.map_values(|v: JsonView| stash_entry(v).unwrap()))
        },
        _ => None,
    }
}

/// Reads the preamble stash.
pub fn parse_branch_preambles(
    value: Option<&Json>,
    branch_count: usize,
    replicate_template: bool,
) -> (r: Option<Vec<Option<ParallelBranchPreamble>>>)
    ensures
        r.deep_view() == branch_preambles(
            value.deep_view(),
            branch_count as nat,
            replicate_template,
        ),
{
    let items = match value {
        Some(value) => match value.as_array() {
            Some(items) => items,
            None => {
                return None;
            },
        },
        None => {
            return None;
        },
    };
    let ghost all = items.deep_view();
    let mut entries: Vec<Option<ParallelBranchPreamble>> = Vec::new();
    let mut i: usize = 0;
    if replicate_template && items.len() == 1 {
        assert(all[0] == items@[0]@);
        let entry = match parse_branch_preamble(&items[0]) {
            Some(parsed) => parsed.into_preamble(),
            None => {
                return None;
            },
        };
        let ghost shared = entry.deep_view();
        while i < branch_count
            invariant
                i <= branch_count,
                entry.deep_view() == shared,
                entries.deep_view() == Seq::new(i as nat, |k: int| shared),
            decreases branch_count - i,
        {
            let ghost had = entries.deep_view();
            entries.push(entry.duplicate());
            assert(entries.deep_view() =~= had.push(shared));
            i += 1;
            assert(entries.deep_view() =~= Seq::new(i as nat, |k: int| shared));
        }
        assert(entries.deep_view() =~= Seq::new(branch_count as nat, |k: int| shared));
        return Some(entries);
    }
    if items.len() != branch_count {
        return None;
    }
    let ghost model = all.map_values(|v: JsonView| stash_entry(v).unwrap());
    while i < items.len()
        invariant
            i <= items@.len(),
            all == items.deep_view(),
            model == all.map_values(|v: JsonView| stash_entry(v).unwrap()),
            value.deep_view() == Some(JsonView::Array(all)),
            !(replicate_template && all.len() == 1),
            all.len() == branch_count,
            forall|k: int| 0 <= k < i ==> stash_entry(#[trigger] all[k]) is Some,
            entries.deep_view() == model.take(i as int),
        decreases items@.len() - i,
    {
        assert(all[i as int] == items@[i as int]@);
        let ghost had = entries.deep_view();
        match parse_branch_preamble(&items[i]) {
            Some(parsed) => {
                entries.push(parsed.into_preamble());
            },
            None => {
                assert(!all_entries(all));
                return None;
            },
        }
        assert(entries.deep_view() =~= had.push(model[i as int]));
        i += 1;
        assert(entries.deep_view() =~= model.take(i as int));
    }
    assert(model.take(i as int) =~= model);
    Some(entries)
}

/// Reads the preamble stash of a node and clears it, so that no branch takes
/// the stash for its own.
pub fn take_branch_preambles(
    context: &mut Context,
    branch_count: usize,
    replicate_template: bool,
) -> (r: Option<Vec<Option<ParallelBranchPreamble>>>)
    ensures
        r.deep_view() == branch_preambles(
            stashed(old(context)@),
            branch_count as nat,
            replicate_template,
        ),
        final(context)@ == old(context)@.insert(
            INTERNAL_PARALLEL_BRANCH_PREAMBLES@,
            JsonView::Null,
        ),
{
    let entries = parse_branch_preambles(
        context.get(INTERNAL_PARALLEL_BRANCH_PREAMBLES),
        branch_count,
        replicate_template,
    );
    context.insert(INTERNAL_PARALLEL_BRANCH_PREAMBLES.to_owned(), Json::Null);
    entries
}

/// The preamble stash of a context.
pub open spec fn stashed(values: Values) -> Option<JsonView> {
    if values.contains_key(INTERNAL_PARALLEL_BRANCH_PREAMBLES@) {
        Some(values[INTERNAL_PARALLEL_BRANCH_PREAMBLES@])
    } else {
        None
    }
}

/// The entry of one branch, where there is one.
pub fn branch_entry(
    entries: &Option<Vec<Option<ParallelBranchPreamble>>>,
    index: usize,
) -> (r: Option<&ParallelBranchPreamble>)
    ensures
        r.deep_view() == match entries.deep_view() {
            Some(all) => if index < all.len() {
                all[index as int]
            } else {
                None
            },
            None => None,
        },
{
    match entries {
        Some(all) => {
            let ghost model = all.deep_view();
            if index < all.len() {
                assert(model[index as int] == all@[index as int].deep_view());
                match &all[index] {
                    Some(entry) => Some(entry),
                    None => None,
                }
            } else {
                None
            }
        },
        None => None,
    }
}

/// The identity of a branch.
#[derive(Debug, PartialEq)]
pub struct BranchId {
    pub group_id: String,
    pub branch_id: String,
    pub target_id: String,
    /// The ordinal of the branch's stage execution.
    pub ordinal: u32,
}

pub struct BranchIdView {
    pub group_id: Seq<char>,
    pub branch_id: Seq<char>,
    pub target_id: Seq<char>,
    pub ordinal: u32,
}

impl View for BranchId {
    type V = BranchIdView;

    open spec fn view(&self) -> BranchIdView {
        BranchIdView {
            group_id: self.group_id@,
            branch_id: self.branch_id@,
            target_id: self.target_id@,
            ordinal: self.ordinal,
        }
    }
}

/// The context of a branch: the parent's, marked as the branch's own.
pub open spec fn forked(parent: Values, id: BranchIdView, preamble: Option<PreambleView>) -> Values {
    let marked = parent.insert(INTERNAL_PARALLEL_GROUP_ID@, JsonView::Str(id.group_id)).insert(
        INTERNAL_PARALLEL_BRANCH_ID@,
        JsonView::Str(id.branch_id),
    );
    let prepared = match preamble {
        Some(p) => marked.insert(CURRENT_PREAMBLE@, JsonView::Str(p.preamble)).insert(
            INTERNAL_FIDELITY@,
            JsonView::Str(p.fidelity.name()),
        ),
        None => marked,
    };
    prepared.insert(CURRENT_NODE@, JsonView::Str(id.target_id)).insert(
        INTERNAL_STAGE_EXECUTION_ORDINAL@,
        JsonView::Number(decimal(id.ordinal as nat)),
    )
}

/// Forks the context for a branch.
pub fn branch_context(
    parent: &Context,
    id: &BranchId,
    preamble: Option<&ParallelBranchPreamble>,
) -> (r: Context)
    ensures
        r@ == forked(parent@, id@, preamble.deep_view()),
{
    let mut context = parent.duplicate();
    context.insert(INTERNAL_PARALLEL_GROUP_ID.to_owned(), Json::from_str(id.group_id.as_str()));
    context.insert(INTERNAL_PARALLEL_BRANCH_ID.to_owned(), Json::from_str(id.branch_id.as_str()));
    if let Some(entry) = preamble {
        context.insert(CURRENT_PREAMBLE.to_owned(), Json::from_str(entry.preamble.as_str()));
        context.insert(INTERNAL_FIDELITY.to_owned(), Json::from_str(entry.fidelity.as_str()));
    }
    context.insert(CURRENT_NODE.to_owned(), Json::from_str(id.target_id.as_str()));
    context.insert(INTERNAL_STAGE_EXECUTION_ORDINAL.to_owned(), Json::from_u64(id.ordinal as u64));
    context
}

/// How an attempt to run a branch ended. `R` is what an error carries.
#[derive(Debug, PartialEq)]
pub enum AttemptResult<R> {
    Outcome(Outcome),
    Cancelled,
    /// The handler failed.
    Handler { error: R, retryable: bool },
    /// Something around the handler failed.
    Other { error: R, retryable: bool },
}

/// What follows an attempt.
#[derive(Debug, PartialEq)]
pub enum AttemptStep<R> {
    /// Wait, then try again.
    Retry,
    /// The outcome asks for a retry that is no longer granted.
    Exhausted(Outcome),
    Finished(Outcome),
    Cancelled,
    /// The branch fails with the handler's own outcome.
    HandlerFailed(R),
    /// The branch fails with a classified outcome.
    Failed(R),
}

/// The attempts of one branch.
#[derive(Clone, Copy, Debug, PartialEq, Eq, Structural)]
pub struct Attempts {
    /// The number of the attempt that runs or ran last.
    pub attempt: u32,
    pub max_attempts: u32,
}

/// What follows an attempt, as a function of its result.
pub open spec fn next_step<R>(attempts: Attempts, result: AttemptResult<R>) -> AttemptStep<R> {
    let can_retry = attempts.attempt < attempts.max_attempts;
    match result {
        AttemptResult::Outcome(outcome) => if !outcome.status.wants_retry() {
            AttemptStep::Finished(outcome)
        } else if can_retry {
            AttemptStep::Retry
        } else {
            AttemptStep::Exhausted(outcome)
        },
        AttemptResult::Cancelled => AttemptStep::Cancelled,
        AttemptResult::Handler { error, retryable } => if can_retry && retryable {
            AttemptStep::Retry
        } else {
            AttemptStep::HandlerFailed(error)
        },
        AttemptResult::Other { error, retryable } => if can_retry && retryable {
            AttemptStep::Retry
        } else {
            AttemptStep::Failed(error)
        },
    }
}

/// The next attempt.
pub open spec fn next_attempt(attempts: Attempts) -> Attempts {
    Attempts {
        attempt: if attempts.attempt == u32::MAX {
            u32::MAX
        } else {
            (attempts.attempt + 1) as u32
        },
        ..attempts
    }
}

impl Attempts {
    pub fn new(max_attempts: u32) -> (r: Attempts)
        ensures
            r == (Attempts { attempt: 0, max_attempts }),
    {
        Attempts { attempt: 0, max_attempts }
    }

    /// Counts the next attempt.
    pub fn begin(&mut self)
        ensures
            *final(self) == next_attempt(*old(self)),
    {
        self.attempt = if self.attempt == u32::MAX {
            u32::MAX
        } else {
            self.attempt + 1
        };
    }

    /// What follows the attempt that has just ended.
    pub fn after<R>(&self, result: AttemptResult<R>) -> (r: AttemptStep<R>)
        ensures
            r == next_step(*self, result),
    {
        let can_retry = self.attempt < self.max_attempts;
        match result {
            AttemptResult::Outcome(outcome) => {
                if !outcome.status.retry_requested() {
                    AttemptStep::Finished(outcome)
                } else if can_retry {
                    AttemptStep::Retry
                } else {
                    AttemptStep::Exhausted(outcome)
                }
            },
            AttemptResult::Cancelled => AttemptStep::Cancelled,
            AttemptResult::Handler { error, retryable } => {
                if can_retry && retryable {
                    AttemptStep::Retry
                } else {
                    AttemptStep::HandlerFailed(error)
                }
            },
            AttemptResult::Other { error, retryable } => {
                if can_retry && retryable {
                    AttemptStep::Retry
                } else {
                    AttemptStep::Failed(error)
                }
            },
        }
    }
}

/// A retry comes only while attempts are left: the attempt that it leads to is a
/// further one, and within what the policy grants.
pub proof fn lemma_attempts_are_bounded<R>(attempts: Attempts, result: AttemptResult<R>)
    requires
        next_step(attempts, result) is Retry,
    ensures
        attempts.attempt < next_attempt(attempts).attempt <= attempts.max_attempts,
{
}

/// A finished branch.
#[derive(Debug, PartialEq)]
pub struct BranchResult {
    pub result: ParallelBranchResult,
    pub outcome: Outcome,
}

pub struct BranchView {
    pub result: BranchResultView,
    pub outcome: OutcomeView,
}

impl View for BranchResult {
    type V = BranchView;

    open spec fn view(&self) -> BranchView {
        BranchView { result: self.result@, outcome: self.outcome@ }
    }
}

impl DeepView for BranchResult {
    type V = BranchView;

    open spec fn deep_view(&self) -> BranchView {
        self@
    }
}

/// What a branch changed: the outcome's updates, and over them the public values
/// that the branch's context gained.
pub open spec fn updates_of(before: Values, after: Values, outcome_updates: Values) -> Values {
    outcome_updates.union_prefer_right(public_diff(before, after))
}

pub fn branch_context_updates(
    before: &Context,
    after: &Context,
    outcome_updates: &Table<Json>,
) -> (r: Table<Json>)
    ensures
        r@ == updates_of(before@, after@, outcome_updates@),
{
    let mut updates = outcome_updates.duplicate();
    updates.extend(&context_diff_public(before, after));
    updates
}

/// The place of a branch in its fan-out.
#[derive(Debug, PartialEq)]
pub struct BranchPlace {
    pub target_id: String,
    pub index: usize,
    pub item_label: Option<String>,
}

pub struct PlaceView {
    pub target_id: Seq<char>,
    pub index: usize,
    pub item_label: Option<Seq<char>>,
}

impl View for BranchPlace {
    type V = PlaceView;

    open spec fn view(&self) -> PlaceView {
        PlaceView {
            target_id: self.target_id@,
            index: self.index,
            item_label: self.item_label.deep_view(),
        }
    }
}

/// The branch that ended with `outcome`.
pub open spec fn ended(place: PlaceView, outcome: OutcomeView, updates: Values) -> BranchView {
    BranchView {
        result: BranchResultView {
            id: place.target_id,
            index: Some(place.index),
            item_label: place.item_label,
            status: outcome.status,
            context_updates: updates,
        },
        outcome,
    }
}

/// The result of a branch that ran to an outcome.
pub fn completed_branch(
    place: &BranchPlace,
    outcome: Outcome,
    before: &Context,
    after: &Context,
) -> (r: BranchResult)
    ensures
        r@ == ended(
            place@,
            outcome@,
            updates_of(before@, after@, outcome@.context_updates),
        ),
{
    let context_updates = branch_context_updates(before, after, &outcome.context_updates);
    BranchResult {
        result: ParallelBranchResult {
            id: place.target_id.clone(),
            index: Some(place.index),
            item_label: place.item_label.duplicate(),
            status: outcome.status,
            context_updates,
        },
        outcome,
    }
}

/// The result of a branch that came to no outcome of its own.
pub fn failed_branch_result(place: &BranchPlace, reason: &str, category: FailureCategory) -> (r:
    BranchResult)
    ensures
        r@ == ended(place@, failure(reason@, category), Map::empty()),
{
    let outcome = Outcome::fail(reason, category);
    BranchResult {
        result: ParallelBranchResult {
            id: place.target_id.clone(),
            index: Some(place.index),
            item_label: place.item_label.duplicate(),
            status: outcome.status,
            context_updates: Table::new(),
        },
        outcome,
    }
}

/// Says that a branch has ended.
#[derive(Debug, PartialEq)]
pub struct BranchCompleted {
    pub parallel_group_id: String,
    pub parallel_branch_id: String,
    pub branch: String,
    pub index: usize,
    pub item_label: Option<String>,
    pub duration_ms: u64,
    pub status: StageOutcome,
}

impl BranchCompleted {
    /// Whether this is the end of the branch at `place`, with the given
    /// identity, time and status.
    pub open spec fn reports(
        self,
        id: BranchIdView,
        place: PlaceView,
        duration_ms: u64,
        status: StageOutcome,
    ) -> bool {
        &&& self.parallel_group_id@ == id.group_id
        &&& self.parallel_branch_id@ == id.branch_id
        &&& self.branch@ == id.target_id
        &&& self.index == place.index
        &&& self.item_label.deep_view() == place.item_label
        &&& self.duration_ms == duration_ms
        &&& self.status == status
    }
}

/// The event for the end of a branch.
pub fn branch_completed(
    id: &BranchId,
    place: &BranchPlace,
    duration_ms: u64,
    status: StageOutcome,
) -> (r: BranchCompleted)
    ensures
        r.reports(id@, place@, duration_ms, status),
{
    BranchCompleted {
        parallel_group_id: id.group_id.clone(),
        parallel_branch_id: id.branch_id.clone(),
        branch: id.target_id.clone(),
        index: place.index,
        item_label: place.item_label.duplicate(),
        duration_ms,
        status,
    }
}

/// A branch's context holds what its parent's holds, but for the marks of the
/// branch itself.
pub proof fn lemma_fork_keeps_the_rest(
    parent: Values,
    id: BranchIdView,
    preamble: Option<PreambleView>,
    key: Seq<char>,
)
    requires
        key != INTERNAL_PARALLEL_GROUP_ID@,
        key != INTERNAL_PARALLEL_BRANCH_ID@,
        key != CURRENT_PREAMBLE@,
        key != INTERNAL_FIDELITY@,
        key != CURRENT_NODE@,
        key != INTERNAL_STAGE_EXECUTION_ORDINAL@,
    ensures
        forked(parent, id, preamble).contains_key(key) == parent.contains_key(key),
        parent.contains_key(key) ==> forked(parent, id, preamble)[key] == parent[key],
{
}

/// Another attempt follows exactly where one is left and the last one calls for
/// it: an outcome that failed and asks for a retry, or an error that a retry may
/// mend. Otherwise the branch ends as the attempt did: with its outcome, as
/// cancelled, or with its error.
pub proof fn lemma_attempts_follow_the_call_for_them<R>(
    attempts: Attempts,
    result: AttemptResult<R>,
)
    ensures
        ({
            let step = next_step(attempts, result);
            let left = attempts.attempt < attempts.max_attempts;
            let called = match result {
                AttemptResult::Outcome(o) => o.status == (StageOutcome::Failed {
                    retry_requested: true,
                }),
                AttemptResult::Cancelled => false,
                AttemptResult::Handler { retryable, .. } => retryable,
                AttemptResult::Other { retryable, .. } => retryable,
            };
            &&& step is Retry <==> left && called
            &&& !(step is Retry) ==> match result {
                AttemptResult::Outcome(o) => if called {
                    step == AttemptStep::<R>::Exhausted(o)
                } else {
                    step == AttemptStep::<R>::Finished(o)
                },
                AttemptResult::Cancelled => step is Cancelled,
                AttemptResult::Handler { error, .. } => step == AttemptStep::HandlerFailed(error),
                AttemptResult::Other { error, .. } => step == AttemptStep::Failed(error),
            }
        }),
{
}

/// What a branch hands back for a public key is the value that its context has for
/// it, where the branch changed that, else what its outcome says, else nothing.
/// For an engine's own key only the outcome counts.
pub proof fn lemma_branches_hand_back_what_they_changed(
    before: Values,
    after: Values,
    outcome_updates: Values,
    key: Seq<char>,
)
    ensures
        ({
            let all = updates_of(before, after, outcome_updates);
            let changed = after.contains_key(key) && !"internal."@.is_prefix_of(key) && !(
            before.contains_key(key) && equal_values(before[key], after[key]));
            &&& all.contains_key(key) <==> changed || outcome_updates.contains_key(key)
            &&& changed ==> all[key] == after[key]
            &&& !changed && outcome_updates.contains_key(key) ==> all[key] == outcome_updates[key]
        }),
{
}

/// The context of a branch is marked with its group, its identity, its node and
/// the ordinal of its stage; where an account was prepared for it, it starts from
/// that and at its fidelity, else from what the fork has.
pub proof fn lemma_branches_know_themselves(
    parent: Values,
    id: BranchIdView,
    preamble: Option<PreambleView>,
)
    ensures
        ({
            let own = forked(parent, id, preamble);
            &&& own.contains_key("internal.parallel_group_id"@)
            &&& own["internal.parallel_group_id"@] == JsonView::Str(id.group_id)
            &&& own.contains_key("internal.parallel_branch_id"@)
            &&& own["internal.parallel_branch_id"@] == JsonView::Str(id.branch_id)
            &&& own.contains_key("current_node"@)
            &&& own["current_node"@] == JsonView::Str(id.target_id)
            &&& own.contains_key("internal.stage_execution_ordinal"@)
            &&& own["internal.stage_execution_ordinal"@] == JsonView::Number(
                decimal(id.ordinal as nat),
            )
            &&& preamble matches Some(p) ==> {
                &&& own.contains_key("current.preamble"@)
                &&& own["current.preamble"@] == JsonView::Str(p.preamble)
                &&& own.contains_key("internal.fidelity"@)
                &&& own["internal.fidelity"@] == JsonView::Str(p.fidelity.name())
            }
            &&& preamble is None ==> {
                &&& own.contains_key("current.preamble"@) == parent.contains_key(
                    "current.preamble"@,
                )
                &&& own["current.preamble"@] == parent["current.preamble"@]
                &&& own.contains_key("internal.fidelity"@) == parent.contains_key(
                    "internal.fidelity"@,
                )
                &&& own["internal.fidelity"@] == parent["internal.fidelity"@]
            }
        }),
{
    reveal_strlit("internal.parallel_group_id");
    reveal_strlit("internal.parallel_branch_id");
    reveal_strlit("current_node");
    reveal_strlit("internal.stage_execution_ordinal");
    reveal_strlit("current.preamble");
    reveal_strlit("internal.fidelity");
    assert("internal.parallel_group_id"@.len() == 26);
    assert("internal.parallel_branch_id"@.len() == 27);
    assert("current_node"@.len() == 12);
    assert("internal.stage_execution_ordinal"@.len() == 32);
    assert("current.preamble"@.len() == 16);
    assert("internal.fidelity"@.len() == 17);
}

/// A stash serves exactly the branches it was made for: one entry for each, or the
/// one entry of a fan-out over items for all of them. One that is missing, of
/// another length or not well formed throughout serves none.
pub proof fn lemma_stashes_serve_their_branches(
    stash: Option<JsonView>,
    count: nat,
    for_each: bool,
    i: int,
)
    requires
        0 <= i < count,
    ensures
        ({
            let r = branch_preambles(stash, count, for_each);
            match stash {
                Some(JsonView::Array(items)) => {
                    let well_formed = forall|k: int|
                        0 <= k < items.len() ==> stash_entry(#[trigger] items[k]) is Some;
                    let shared = for_each && items.len() == 1;
                    &&& r is Some <==> well_formed && (shared || items.len() == count)
                    &&& r matches Some(all) ==> {
                        &&& all.len() == count
                        &&& shared ==> Some(all[i]) == stash_entry(items[0])
                        &&& !shared ==> Some(all[i]) == stash_entry(items[i])
                    }
                },
                _ => r is None,
            }
        }),
{
    if let Some(JsonView::Array(items)) = stash {
        if items.len() == 1 {
            assert(stash_entry(items[0]) is Some ==> all_entries(items));
        }
        if items.len() == count {
            assert(all_entries(items) ==> stash_entry(items[i]) is Some);
        }
    }
}

/// A branch's result names its node, its place and its item, and has the status of
/// its outcome.
pub proof fn lemma_results_tell_their_branch(place: PlaceView, outcome: OutcomeView, updates: Values)
    ensures
        ({
            let b = ended(place, outcome, updates);
            &&& b.outcome == outcome
            &&& b.result.id == place.target_id
            &&& b.result.index == Some(place.index)
            &&& b.result.item_label == place.item_label
            &&& b.result.status == outcome.status
            &&& b.result.context_updates == updates
        }),
{
}

/// The stash of a context is what stands under its key, and nothing else.
pub proof fn lemma_stashes_stand_under_their_key(values: Values, v: JsonView, other: Seq<char>)
    ensures
        stashed(values.insert("internal.parallel_branch_preambles"@, v)) == Some(v),
        stashed(values.remove("internal.parallel_branch_preambles"@)) is None,
        other != "internal.parallel_branch_preambles"@ ==> stashed(values.insert(other, v))
            == stashed(values),
{
}

/// The end of a branch is told under its own identity, at its place, with its time
/// and the status it ended with.
pub proof fn lemma_ends_of_branches_are_told(
    id: &BranchId,
    place: &BranchPlace,
    ms: u64,
    status: StageOutcome,
    r: BranchCompleted,
)
    requires
        call_ensures(branch_completed, (id, place, ms, status), r),
    ensures
        r.parallel_group_id@ == id.group_id@,
        r.parallel_branch_id@ == id.branch_id@,
        r.branch@ == id.target_id@,
        r.index == place.index,
        r.item_label.deep_view() == place.item_label.deep_view(),
        r.duration_ms == ms && r.status == status,
{
}

} // verus!
