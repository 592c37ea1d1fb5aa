//! What a stage attempt produced.
use crate::json::{Json, JsonView};
use crate::order::copy_texts;
use crate::table::{Duplicate, Table};
use crate::text::same;
use vstd::prelude::*;
use vstd::string::*;

verus! {

/// How a stage ended.
#[derive(Clone, Copy, Debug, PartialEq, Eq, Structural)]
pub enum StageOutcome {
    Succeeded,
    PartiallySucceeded,
    Failed { retry_requested: bool },
    Skipped,
}

impl StageOutcome {
    pub open spec fn failed(self) -> bool {
        self is Failed
    }

    pub open spec fn wants_retry(self) -> bool {
        self == (StageOutcome::Failed { retry_requested: true })
    }

    pub open spec fn name(self) -> Seq<char> {
        match self {
            StageOutcome::Succeeded => "succeeded"@,
            StageOutcome::PartiallySucceeded => "partially_succeeded"@,
            StageOutcome::Failed { .. } => "failed"@,
            StageOutcome::Skipped => "skipped"@,
        }
    }

    pub fn is_failure(&self) -> (r: bool)
        ensures
            r == self.failed(),
    {
        match self {
            StageOutcome::Failed { .. } => true,
            _ => false,
        }
    }

    pub fn retry_requested(&self) -> (r: bool)
        ensures
            r == self.wants_retry(),
    {
        match self {
            StageOutcome::Failed { retry_requested } => *retry_requested,
            _ => false,
        }
    }

    pub fn as_str(&self) -> (r: &'static str)
        ensures
            r@ == self.name(),
    {
        match self {
            StageOutcome::Succeeded => "succeeded",
            StageOutcome::PartiallySucceeded => "partially_succeeded",
            StageOutcome::Failed { .. } => "failed",
            StageOutcome::Skipped => "skipped",
        }
    }

    pub fn parse(s: &str) -> (r: Option<StageOutcome>)
        ensures
            r == stage_outcome_named(s@),
    {
        if same(s, "succeeded") {
            Some(StageOutcome::Succeeded)
        } else if same(s, "partially_succeeded") {
            Some(StageOutcome::PartiallySucceeded)
        } else if same(s, "failed") {
            Some(StageOutcome::Failed { retry_requested: false })
        } else if same(s, "skipped") {
            Some(StageOutcome::Skipped)
        } else {
            None
        }
    }
}

/// The outcome that a text names.
pub open spec fn stage_outcome_named(s: Seq<char>) -> Option<StageOutcome> {
    if s == "succeeded"@ {
        Some(StageOutcome::Succeeded)
    } else if s == "partially_succeeded"@ {
        Some(StageOutcome::PartiallySucceeded)
    } else if s == "failed"@ {
        Some(StageOutcome::Failed { retry_requested: false })
    } else if s == "skipped"@ {
        Some(StageOutcome::Skipped)
    } else {
        None
    }
}

/// Why a stage failed.
#[derive(Clone, Copy, Debug, PartialEq, Eq, Structural)]
pub enum FailureCategory {
    TransientInfra,
    BudgetExhausted,
    CompilationLoop,
    Deterministic,
    Canceled,
}

impl FailureCategory {
    pub open spec fn name(self) -> Seq<char> {
        match self {
            FailureCategory::TransientInfra => "transient_infra"@,
            FailureCategory::BudgetExhausted => "budget_exhausted"@,
            FailureCategory::CompilationLoop => "compilation_loop"@,
            FailureCategory::Deterministic => "deterministic"@,
            FailureCategory::Canceled => "canceled"@,
        }
    }

    pub fn as_str(&self) -> (r: &'static str)
        ensures
            r@ == self.name(),
    {
        match self {
            FailureCategory::TransientInfra => "transient_infra",
            FailureCategory::BudgetExhausted => "budget_exhausted",
            FailureCategory::CompilationLoop => "compilation_loop",
            FailureCategory::Deterministic => "deterministic",
            FailureCategory::Canceled => "canceled",
        }
    }
}

/// A part of the engine that acts on its own.
#[derive(Clone, Copy, Debug, PartialEq, Eq, Structural)]
pub enum SystemActorKind {
    Engine,
    Watchdog,
    Timeout,
}

/// A described failure.
#[derive(Debug, PartialEq)]
pub struct FailureDetail {
    pub message: String,
    pub category: FailureCategory,
    pub signature: Option<String>,
    pub system_actor: Option<SystemActorKind>,
}

pub struct FailureView {
    pub message: Seq<char>,
    pub category: FailureCategory,
    pub signature: Option<Seq<char>>,
    pub system_actor: Option<SystemActorKind>,
}

impl View for FailureDetail {
    type V = FailureView;

    open spec fn view(&self) -> FailureView {
        FailureView {
            message: self.message@,
            category: self.category,
            signature: self.signature.deep_view(),
            system_actor: self.system_actor,
        }
    }
}

impl DeepView for FailureDetail {
    type V = FailureView;

    open spec fn deep_view(&self) -> FailureView {
        self@
    }
}

impl Duplicate for FailureDetail {
    fn duplicate(&self) -> (r: Self) {
        FailureDetail {
            message: self.message.clone(),
            category: self.category,
            signature: self.signature.duplicate(),
            system_actor: self.system_actor,
        }
    }
}

/// A failure with a message and a category alone.
pub open spec fn failure_of(message: Seq<char>, category: FailureCategory) -> FailureView {
    FailureView { message, category, signature: None, system_actor: None }
}

impl FailureDetail {
    pub fn new(message: &str, category: FailureCategory) -> (r: FailureDetail)
        ensures
            r@ == failure_of(message@, category),
    {
        FailureDetail { message: message.to_owned(), category, signature: None, system_actor: None }
    }
}

/// Time a stage took, in milliseconds.
#[derive(Clone, Copy, Debug, PartialEq, Eq, Structural)]
pub struct StageTiming {
    pub wall_ms: u64,
    pub inference_ms: u64,
    pub tool_ms: u64,
}

impl StageTiming {
    pub fn new(wall_ms: u64, inference_ms: u64, tool_ms: u64) -> (r: StageTiming)
        ensures
            r == (StageTiming { wall_ms, inference_ms, tool_ms }),
    {
        StageTiming { wall_ms, inference_ms, tool_ms }
    }

    /// Timing of a stage without an inference or tool share.
    pub fn wall_only(wall_ms: u64) -> (r: StageTiming)
        ensures
            r == (StageTiming { wall_ms, inference_ms: 0, tool_ms: 0 }),
    {
        StageTiming { wall_ms, inference_ms: 0, tool_ms: 0 }
    }

    /// Timing whose wall clock is measured elsewhere.
    pub fn active_only(inference_ms: u64, tool_ms: u64) -> (r: StageTiming)
        ensures
            r == (StageTiming { wall_ms: 0, inference_ms, tool_ms }),
    {
        StageTiming { wall_ms: 0, inference_ms, tool_ms }
    }
}

/// Model use billed to a stage. `detail` holds the accounting, unread here.
#[derive(Debug, PartialEq)]
pub struct ModelUsage {
    pub model_id: String,
    pub detail: Json,
}

pub struct UsageView {
    pub model_id: Seq<char>,
    pub detail: JsonView,
}

impl View for ModelUsage {
    type V = UsageView;

    open spec fn view(&self) -> UsageView {
        UsageView { model_id: self.model_id@, detail: self.detail@ }
    }
}

impl DeepView for ModelUsage {
    type V = UsageView;

    open spec fn deep_view(&self) -> UsageView {
        self@
    }
}

impl Duplicate for ModelUsage {
    fn duplicate(&self) -> (r: Self) {
        ModelUsage { model_id: self.model_id.clone(), detail: self.detail.duplicate() }
    }
}

/// The result of a stage attempt.
#[derive(Debug, PartialEq)]
pub struct Outcome {
    pub status: StageOutcome,
    pub preferred_label: Option<String>,
    pub suggested_next_ids: Vec<String>,
    pub context_updates: Table<Json>,
    pub failure: Option<FailureDetail>,
    pub notes: Option<String>,
    pub files_touched: Vec<String>,
    pub usage: Option<ModelUsage>,
    pub jump_to_node: Option<String>,
    pub timing: Option<StageTiming>,
}

pub struct OutcomeView {
    pub status: StageOutcome,
    pub preferred_label: Option<Seq<char>>,
    pub suggested_next_ids: Seq<Seq<char>>,
    pub context_updates: Map<Seq<char>, JsonView>,
    pub failure: Option<FailureView>,
    pub notes: Option<Seq<char>>,
    pub files_touched: Seq<Seq<char>>,
    pub usage: Option<UsageView>,
    pub jump_to_node: Option<Seq<char>>,
    pub timing: Option<StageTiming>,
}

impl View for Outcome {
    type V = OutcomeView;

    open spec fn view(&self) -> OutcomeView {
        OutcomeView {
            status: self.status,
            preferred_label: self.preferred_label.deep_view(),
            suggested_next_ids: self.suggested_next_ids.deep_view(),
            context_updates: self.context_updates@,
            failure: self.failure.deep_view(),
            notes: self.notes.deep_view(),
            files_touched: self.files_touched.deep_view(),
            usage: self.usage.deep_view(),
            jump_to_node: self.jump_to_node.deep_view(),
            timing: self.timing,
        }
    }
}

impl DeepView for Outcome {
    type V = OutcomeView;

    open spec fn deep_view(&self) -> OutcomeView {
        self@
    }
}

impl Duplicate for Outcome {
    fn duplicate(&self) -> (r: Self) {
        Outcome {
            status: self.status,
            preferred_label: self.preferred_label.duplicate(),
            suggested_next_ids: copy_texts(&self.suggested_next_ids),
            context_updates: self.context_updates.duplicate(),
            failure: self.failure.duplicate(),
            notes: self.notes.duplicate(),
            files_touched: copy_texts(&self.files_touched),
            usage: self.usage.duplicate(),
            jump_to_node: self.jump_to_node.duplicate(),
            timing: self.timing,
        }
    }
}

/// An outcome that holds a status and nothing else.
pub open spec fn bare(status: StageOutcome) -> OutcomeView {
    OutcomeView {
        status,
        preferred_label: None,
        suggested_next_ids: Seq::empty(),
        context_updates: Map::empty(),
        failure: None,
        notes: None,
        files_touched: Seq::empty(),
        usage: None,
        jump_to_node: None,
        timing: None,
    }
}

pub open spec fn success() -> OutcomeView {
    bare(StageOutcome::Succeeded)
}

/// The outcome of a dry run of a node.
pub open spec fn simulated(node_id: Seq<char>) -> OutcomeView {
    OutcomeView { notes: Some("[Simulated] "@ + node_id), ..success() }
}

pub open spec fn skipped(reason: Seq<char>) -> OutcomeView {
    OutcomeView { notes: Some(reason), ..bare(StageOutcome::Skipped) }
}

/// A failure that no retry is asked for.
pub open spec fn failure(reason: Seq<char>, category: FailureCategory) -> OutcomeView {
    OutcomeView {
        failure: Some(failure_of(reason, category)),
        ..bare(StageOutcome::Failed { retry_requested: false })
    }
}

/// A failure that asks for a retry.
pub open spec fn retry(reason: Seq<char>, category: FailureCategory) -> OutcomeView {
    OutcomeView {
        failure: Some(failure_of(reason, category)),
        ..bare(StageOutcome::Failed { retry_requested: true })
    }
}

impl OutcomeView {
    pub open spec fn failure_reason(self) -> Option<Seq<char>> {
        match self.failure {
            Some(f) => Some(f.message),
            None => None,
        }
    }

    pub open spec fn failure_category(self) -> Option<FailureCategory> {
        match self.failure {
            Some(f) => Some(f.category),
            None => None,
        }
    }
}

impl Outcome {
    /// An outcome that holds a status and nothing else.
    pub fn bare(status: StageOutcome) -> (r: Outcome)
        ensures
            r@ == bare(status),
    {
        let r = Outcome {
            status,
            preferred_label: None,
            suggested_next_ids: Vec::new(),
            context_updates: Table::new(),
            failure: None,
            notes: None,
            files_touched: Vec::new(),
            usage: None,
            jump_to_node: None,
            timing: None,
        };
        assert(r.suggested_next_ids.deep_view() =~= Seq::empty());
        assert(r.files_touched.deep_view() =~= Seq::empty());
        r
    }

    pub fn success() -> (r: Outcome)
        ensures
            r@ == success(),
    {
        Outcome::bare(StageOutcome::Succeeded)
    }

    pub fn simulated(node_id: &str) -> (r: Outcome)
        ensures
            r@ == simulated(node_id@),
    {
        let mut r = Outcome::success();
        let mut notes = "[Simulated] ".to_owned();
        notes.append(node_id);
        r.notes = Some(notes);
        r
    }

    pub fn skipped(reason: &str) -> (r: Outcome)
        ensures
            r@ == skipped(reason@),
    {
        let mut r = Outcome::bare(StageOutcome::Skipped);
        r.notes = Some(reason.to_owned());
        r
    }

    pub fn fail(reason: &str, category: FailureCategory) -> (r: Outcome)
        ensures
            r@ == failure(reason@, category),
    {
        let mut r = Outcome::bare(StageOutcome::Failed { retry_requested: false });
        r.failure = Some(FailureDetail::new(reason, category));
        r
    }

    pub fn fail_deterministic(reason: &str) -> (r: Outcome)
        ensures
            r@ == failure(reason@, FailureCategory::Deterministic),
    {
        Outcome::fail(reason, FailureCategory::Deterministic)
    }

    pub fn retry(reason: &str, category: FailureCategory) -> (r: Outcome)
        ensures
            r@ == retry(reason@, category),
    {
        let mut r = Outcome::bare(StageOutcome::Failed { retry_requested: true });
        r.failure = Some(FailureDetail::new(reason, category));
        r
    }

    pub fn failure_reason(&self) -> (r: Option<&str>)
        ensures
            r.deep_view() == self@.failure_reason(),
    {
        match &self.failure {
            Some(f) => Some(f.message.as_str()),
            None => None,
        }
    }

    pub fn failure_category(&self) -> (r: Option<FailureCategory>)
        ensures
            r == self@.failure_category(),
    {
        match &self.failure {
            Some(f) => Some(f.category),
            None => None,
        }
    }
}

/// The name of an outcome names that outcome, but for a wish to be tried again,
/// which no name carries; and what a text names has that text for its name.
pub proof fn lemma_outcomes_are_named_and_read_back(o: StageOutcome, s: Seq<char>)
    ensures
        !o.wants_retry() ==> stage_outcome_named(o.name()) == Some(o),
        o is Failed ==> stage_outcome_named(o.name()) == Some(
            StageOutcome::Failed { retry_requested: false },
        ),
        stage_outcome_named(s) matches Some(named) ==> named.name() == s && !named.wants_retry(),
        o.wants_retry() ==> o.failed(),
{
    reveal_strlit("succeeded");
    reveal_strlit("partially_succeeded");
    reveal_strlit("failed");
    reveal_strlit("skipped");
    assert("succeeded"@.len() == 9 && "partially_succeeded"@.len() == 19);
    assert("failed"@.len() == 6 && "skipped"@.len() == 7);
}

/// No two categories of failures have one name.
pub proof fn lemma_categories_have_names_of_their_own(a: FailureCategory, b: FailureCategory)
    ensures
        a.name() == b.name() ==> a == b,
{
    reveal_strlit("transient_infra");
    reveal_strlit("budget_exhausted");
    reveal_strlit("compilation_loop");
    reveal_strlit("deterministic");
    reveal_strlit("canceled");
    assert("transient_infra"@.len() == 15 && "deterministic"@.len() == 13);
    assert("budget_exhausted"@.len() == 16 && "compilation_loop"@.len() == 16);
    assert("budget_exhausted"@[0] == 'b' && "compilation_loop"@[0] == 'c');
    assert("canceled"@.len() == 8);
}

/// An outcome carries a reason exactly where it failed, and then the one it was
/// given, with its category; only a retry asks for another attempt. A skipped stage
/// says why and a simulated one which it was. None of them names where to go on,
/// touches a file, changes the context or is billed.
pub proof fn lemma_outcomes_tell_what_they_were_made_of(text: Seq<char>, category: FailureCategory)
    ensures
        success().status is Succeeded && success().failure_reason() is None,
        failure(text, category).status.failed() && retry(text, category).status.failed(),
        !failure(text, category).status.wants_retry(),
        retry(text, category).status.wants_retry(),
        failure(text, category).failure_reason() == Some(text),
        retry(text, category).failure_reason() == Some(text),
        failure(text, category).failure_category() == Some(category),
        retry(text, category).failure_category() == Some(category),
        skipped(text).status is Skipped && skipped(text).notes == Some(text),
        skipped(text).failure_category() is None,
        simulated(text).status is Succeeded,
        simulated(text).notes == Some("[Simulated] "@ + text),
        forall|o: OutcomeView|
            (o == success() || o == failure(text, category) || o == retry(text, category) || o
                == skipped(text) || o == simulated(text)) ==> {
                &&& #[trigger] o.suggested_next_ids.len() == 0
                &&& o.preferred_label is None && o.jump_to_node is None
                &&& o.context_updates.dom() == Set::<Seq<char>>::empty()
                &&& o.files_touched.len() == 0
                &&& o.usage is None && o.timing is None
            },
{
}

} // verus!
