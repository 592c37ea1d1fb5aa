//! Which events a run sends, and when.
use crate::context::{get_text, text_value, Context, Values};
use crate::graph::{Edge, EdgeView, Node, NodeView};
use crate::handler::llm::file_tracking::{millis, millis_u64};
use crate::json::{Json, JsonView};
use crate::keys::{
    response_key, CURRENT_PREAMBLE, INTERNAL_PARALLEL_BRANCH_ID, INTERNAL_PARALLEL_GROUP_ID,
    RESPONSE_PREFIX,
};
use crate::lifecycle::events::{
    push_emission, scoped, unscoped, CheckpointCompleted, CheckpointCompletedView, EdgeSelected,
    EdgeSelectedView, Emission, EmissionView, Event, EventView, GitCommit, GitCommitView, GitPush,
    GitPushView, LoopRestart, LoopRestartView, RunStarted, RunStartedView, StageCompleted,
    StageCompletedView, StageFailed, StageFailedView, StageRetrying, StageRetryingView, StageScope,
    StageScopeView, StageStarted, StageStartedView,
};
use crate::lifecycle::state::{
    stage_visit, visit_number, FailureSignatures, GitCheckpointResult, GitCheckpointResultView,
    NodeResult, NodeResultView, PushResultView, RunState, RunStateView, StageExecution,
    StageExecutionView,
};
use crate::order::copy_texts;
use crate::outcome::{
    failure_of, FailureCategory, FailureDetail, FailureView, Outcome, OutcomeView, StageOutcome,
    StageTiming, SystemActorKind,
};
use crate::table::{Duplicate, Table};
use vstd::prelude::*;
use vstd::string::*;

verus! {

/// A table, where it holds anything.
pub open spec fn filled<T>(values: Map<Seq<char>, T>) -> Option<Map<Seq<char>, T>> {
    if values == Map::<Seq<char>, T>::empty() {
        None
    } else {
        Some(values)
    }
}

fn some_filled<V: Duplicate>(table: &Table<V>) -> (r: Option<Table<V>>)
    ensures
        r.deep_view() == filled(table@),
{
    if table.is_empty() {
        None
    } else {
        Some(table.duplicate())
    }
}

/// The failure signatures on record, for loops and for restarts.
pub fn snapshot_failure_signatures(signatures: &FailureSignatures) -> (r: (
    Option<Table<usize>>,
    Option<Table<usize>>,
))
    ensures
        r.0.deep_view() == filled(signatures.loop_signatures@),
        r.1.deep_view() == filled(signatures.restart_signatures@),
{
    (some_filled(&signatures.loop_signatures), some_filled(&signatures.restart_signatures))
}

/// The part of the engine that made a stage fail.
pub fn actor_for_stage_failure(failure: &FailureDetail) -> (r: Option<SystemActorKind>)
    ensures
        r == failure@.system_actor,
{
    failure.system_actor
}

/// The times of a node, in milliseconds.
pub open spec fn timing_of(result: NodeResultView) -> StageTiming {
    StageTiming {
        wall_ms: millis(result.wall_time) as u64,
        inference_ms: millis(result.inference_time) as u64,
        tool_ms: millis(result.tool_time) as u64,
    }
}

pub fn node_result_timing(result: &NodeResult) -> (r: StageTiming)
    ensures
        r == timing_of(result@),
{
    StageTiming::new(
        millis_u64(result.wall_time),
        millis_u64(result.inference_time),
        millis_u64(result.tool_time),
    )
}

/// The response that an outcome holds for its node.
pub fn response_from_outcome(node_id: &str, outcome: &Outcome) -> (r: Option<String>)
    ensures
        r.deep_view() == text_value(outcome@.context_updates, RESPONSE_PREFIX@ + node_id@),
{
    match get_text(&outcome.context_updates, response_key(node_id).as_str()) {
        Some(text) => Some(text.to_owned()),
        None => None,
    }
}

/// Drops the values that serve the run while it lasts and are not kept.
pub fn strip_transient_keys(values: &mut Table<Json>, transient: &Vec<String>)
    ensures
        final(values)@ == lasting(old(values)@, transient.deep_view()),
{
    let ghost before = values@;
    let ghost all = transient.deep_view();
    let mut i: usize = 0;
    assert(values@ =~= lasting(before, all.take(0)));
    while i < transient.len()
        invariant
            i <= transient@.len(),
            all == transient.deep_view(),
            values@ == lasting(before, all.take(i as int)),
        decreases transient@.len() - i,
    {
        let ghost had = values@;
        let _ = values.remove(transient[i].as_str());
        proof {
            let now = all.take(i + 1);
            assert(now =~= all.take(i as int).push(all[i as int]));
            assert(now[i as int] == transient@[i as int]@);
            assert forall|key: Seq<char>| now.contains(key) == (all.take(i as int).contains(key)
                || key == transient@[i as int]@) by {
                if all.take(i as int).contains(key) {
                    let k = all.take(i as int).index_of(key);
                    assert(now[k] == key);
                }
            }
            assert(values@ =~= lasting(before, now));
        }
        i += 1;
    }
    assert(all.take(i as int) =~= all);
}

/// The values that are kept: those under no transient key.
pub open spec fn lasting(values: Values, transient: Seq<Seq<char>>) -> Values {
    Map::new(
        |key: Seq<char>| values.contains_key(key) && !transient.contains(key),
        |key: Seq<char>| values[key],
    )
}

/// The values that a stage event holds: those that are kept, and the account
/// that the stage started from.
pub open spec fn event_values(values: Values, transient: Seq<Seq<char>>) -> Values {
    if values.contains_key(CURRENT_PREAMBLE@) {
        lasting(values, transient).insert(CURRENT_PREAMBLE@, values[CURRENT_PREAMBLE@])
    } else {
        lasting(values, transient)
    }
}

/// The values that a stage event holds. `transient` are the keys that the store
/// of the run does not keep.
pub fn stage_context_values(context: &Context, transient: &Vec<String>) -> (r: Option<Table<Json>>)
    ensures
        r.deep_view() == filled(event_values(context@, transient.deep_view())),
{
    let mut snapshot = context.duplicate();
    strip_transient_keys(&mut snapshot, transient);
    if let Some(preamble) = context.get(CURRENT_PREAMBLE) {
        snapshot.insert(CURRENT_PREAMBLE.to_owned(), preamble.duplicate());
    }
    if snapshot.is_empty() {
        None
    } else {
        Some(snapshot)
    }
}

/// The scope of the events of a node: that of its execution, else of the visit
/// on record.
pub open spec fn scope_of(
    execution: Option<StageExecutionView>,
    visits: Map<Seq<char>, usize>,
    values: Values,
    node_id: Seq<char>,
) -> StageScopeView {
    StageScopeView {
        node_id: match execution {
            Some(e) => e.stage_id.node_id,
            None => node_id,
        },
        visit: match execution {
            Some(e) => e.stage_id.visit,
            None => visit_number(visits, node_id),
        },
        parallel_group_id: text_value(values, INTERNAL_PARALLEL_GROUP_ID@),
        parallel_branch_id: text_value(values, INTERNAL_PARALLEL_BRANCH_ID@),
    }
}

fn owned(text: Option<&str>) -> (r: Option<String>)
    ensures
        r.deep_view() == text.deep_view(),
{
    match text {
        Some(s) => Some(s.to_owned()),
        None => None,
    }
}

pub fn stage_scope_from_execution(
    execution: Option<&StageExecution>,
    state: &RunState,
    node_id: &str,
) -> (r: StageScope)
    ensures
        r@ == scope_of(
            execution.deep_view(),
            state@.node_visits,
            state@.context,
            node_id@,
        ),
{
    let (id, visit) = match execution {
        Some(e) => (e.stage_id.node_id.clone(), e.stage_id.visit),
        None => (node_id.to_owned(), stage_visit(&state.node_visits, node_id)),
    };
    StageScope {
        node_id: id,
        visit,
        parallel_group_id: owned(get_text(&state.context, INTERNAL_PARALLEL_GROUP_ID)),
        parallel_branch_id: owned(get_text(&state.context, INTERNAL_PARALLEL_BRANCH_ID)),
    }
}

/// How often the graph visited a node.
pub open spec fn graph_visit_of(
    execution: Option<StageExecutionView>,
    visits: Map<Seq<char>, usize>,
    node_id: Seq<char>,
) -> u32 {
    match execution {
        Some(e) => e.graph_visit,
        None => visit_number(visits, node_id),
    }
}

/// The start of an attempt.
pub open spec fn started(
    node: NodeView,
    execution: Option<StageExecutionView>,
    state: RunStateView,
    attempt: nat,
    max_attempts: nat,
) -> StageStartedView {
    StageStartedView {
        node_id: node.id,
        name: node.label(),
        index: state.stage_index,
        handler_type: match node.handler_type() {
            Some(t) => t,
            None => Seq::empty(),
        },
        attempt: attempt as usize,
        max_attempts: max_attempts as usize,
        graph_visit: Some(graph_visit_of(execution, state.node_visits, node.id)),
        resumed_from_stage_id: match execution {
            Some(e) => e.resumed_from,
            None => None,
        },
    }
}

fn stage_started(
    node: &Node,
    execution: Option<&StageExecution>,
    state: &RunState,
    attempt: u32,
    max_attempts: u32,
) -> (r: StageStarted)
    ensures
        r@ == started(node@, execution.deep_view(), state@, attempt as nat, max_attempts as nat),
{
    let graph_visit: u32 = match execution {
        Some(e) => e.graph_visit,
        None => stage_visit(&state.node_visits, node.id.as_str()),
    };
    let resumed_from_stage_id = match execution {
        Some(e) => e.resumed_from.duplicate(),
        None => None,
    };
    let handler_type = match node.handler_type() {
        Some(t) => t.to_owned(),
        None => {
            let none = String::new();
            assert(none@ =~= Seq::<char>::empty());
            none
        },
    };
    StageStarted {
        node_id: node.id.clone(),
        name: node.label().to_owned(),
        index: state.stage_index,
        handler_type,
        attempt: attempt as usize,
        max_attempts: max_attempts as usize,
        graph_visit: Some(graph_visit),
        resumed_from_stage_id,
    }
}

/// An attempt starts.
pub fn before_attempt(
    node: &Node,
    execution: Option<&StageExecution>,
    state: &RunState,
    attempt: u32,
    max_attempts: u32,
) -> (r: Vec<Emission>)
    ensures
        r.deep_view() == seq![
            scoped(
                EventView::StageStarted(
                    started(
                        node@,
                        execution.deep_view(),
                        state@,
                        attempt as nat,
                        max_attempts as nat,
                    ),
                ),
                scope_of(execution.deep_view(), state@.node_visits, state@.context, node@.id),
            ),
        ],
{
    let mut sent: Vec<Emission> = Vec::new();
    let scope = stage_scope_from_execution(execution, state, node.id.as_str());
    push_emission(
        &mut sent,
        Event::StageStarted(stage_started(node, execution, state, attempt, max_attempts)),
        Some(scope),
    );
    sent
}

/// The end of a terminal node, which no handler runs.
pub open spec fn terminal_completed(
    node: NodeView,
    state: RunStateView,
    loop_signatures: Map<Seq<char>, usize>,
    restart_signatures: Map<Seq<char>, usize>,
) -> StageCompletedView {
    StageCompletedView {
        node_id: node.id,
        name: node.label(),
        index: state.stage_index,
        timing: (StageTiming { wall_ms: 0, inference_ms: 0, tool_ms: 0 }),
        status: StageOutcome::Succeeded.name(),
        preferred_label: None,
        suggested_next_ids: Seq::empty(),
        billing: None,
        failure: None,
        notes: None,
        files_touched: Seq::empty(),
        context_updates: None,
        jump_to_node: None,
        context_values: None,
        node_visits: None,
        loop_failure_signatures: filled(loop_signatures),
        restart_failure_signatures: filled(restart_signatures),
        response: text_value(state.context, RESPONSE_PREFIX@ + node.id),
        attempt: 1,
        max_attempts: 1,
    }
}

/// What is sent when a terminal node is reached: nothing before the goals of
/// the run are met, else its start and its end.
pub open spec fn terminal_events(
    node: NodeView,
    goals_met: bool,
    execution: StageExecutionView,
    state: RunStateView,
    loop_signatures: Map<Seq<char>, usize>,
    restart_signatures: Map<Seq<char>, usize>,
) -> Seq<EmissionView> {
    let scope = scope_of(Some(execution), state.node_visits, state.context, node.id);
    if goals_met {
        seq![
            scoped(EventView::StageStarted(started(node, Some(execution), state, 1, 1)), scope),
            scoped(
                EventView::StageCompleted(
                    terminal_completed(node, state, loop_signatures, restart_signatures),
                ),
                scope,
            ),
        ]
    } else {
        Seq::empty()
    }
}

/// A terminal node is reached. `execution` is the one reserved for it.
pub fn on_terminal_reached(
    node: &Node,
    goal_gates_passed: bool,
    execution: &StageExecution,
    state: &RunState,
    signatures: &FailureSignatures,
) -> (r: Vec<Emission>)
    ensures
        r.deep_view() == terminal_events(
            node@,
            goal_gates_passed,
            execution@,
            state@,
            signatures.loop_signatures@,
            signatures.restart_signatures@,
        ),
{
    let mut sent: Vec<Emission> = Vec::new();
    assert(sent.deep_view() =~= Seq::empty());
    if !goal_gates_passed {
        return sent;
    }
    let (loop_failure_signatures, restart_failure_signatures) = snapshot_failure_signatures(
        signatures,
    );
    let scope = stage_scope_from_execution(Some(execution), state, node.id.as_str());
    push_emission(
        &mut sent,
        Event::StageStarted(stage_started(node, Some(execution), state, 1, 1)),
        Some(scope.duplicate()),
    );
    let key = response_key(node.id.as_str());
    let completed = StageCompleted {
        node_id: node.id.clone(),
        name: node.label().to_owned(),
        index: state.stage_index,
        timing: StageTiming::wall_only(0),
        status: StageOutcome::Succeeded.as_str().to_owned(),
        preferred_label: None,
        suggested_next_ids: Vec::new(),
        billing: None,
        failure: None,
        notes: None,
        files_touched: Vec::new(),
        context_updates: None,
        jump_to_node: None,
        context_values: None,
        node_visits: None,
        loop_failure_signatures,
        restart_failure_signatures,
        response: owned(get_text(&state.context, key.as_str())),
        attempt: 1,
        max_attempts: 1,
    };
    assert(completed.suggested_next_ids.deep_view() =~= Seq::empty());
    assert(completed.files_touched.deep_view() =~= Seq::empty());
    push_emission(&mut sent, Event::StageCompleted(completed), Some(scope));
    sent
}

/// The failure of an outcome, or a general one.
pub open spec fn failure_or(outcome: OutcomeView, category: FailureCategory) -> FailureView {
    match outcome.failure {
        Some(f) => f,
        None => failure_of("handler failed"@, category),
    }
}

/// A failed attempt.
pub open spec fn failed(
    node: NodeView,
    result: NodeResultView,
    index: usize,
    will_retry: bool,
) -> StageFailedView {
    let failure = failure_or(
        result.outcome,
        if will_retry {
            FailureCategory::TransientInfra
        } else {
            FailureCategory::Deterministic
        },
    );
    StageFailedView {
        node_id: node.id,
        name: node.label(),
        index,
        failure,
        will_retry,
        timing: timing_of(result),
        billing: result.outcome.usage,
        actor: failure.system_actor,
    }
}

fn stage_failed(node: &Node, result: &NodeResult, index: usize, will_retry: bool) -> (r:
    StageFailed)
    ensures
        r@ == failed(node@, result@, index, will_retry),
{
    let failure = match &result.outcome.failure {
        Some(f) => f.duplicate(),
        None => FailureDetail::new(
            "handler failed",
            if will_retry {
                FailureCategory::TransientInfra
            } else {
                FailureCategory::Deterministic
            },
        ),
    };
    let actor = actor_for_stage_failure(&failure);
    StageFailed {
        node_id: node.id.clone(),
        name: node.label().to_owned(),
        index,
        failure,
        will_retry,
        timing: node_result_timing(result),
        billing: result.outcome.usage.duplicate(),
        actor,
    }
}

/// What is sent after an attempt: nothing unless another one follows.
pub open spec fn attempt_events(
    node: NodeView,
    result: NodeResultView,
    scope: StageScopeView,
    index: usize,
    attempt: u32,
    will_retry: bool,
    delay_ms: Option<u64>,
) -> Seq<EmissionView> {
    if will_retry {
        seq![
            scoped(EventView::StageFailed(failed(node, result, index, true)), scope),
            scoped(
                EventView::StageRetrying(
                    StageRetryingView {
                        node_id: node.id,
                        name: node.label(),
                        index,
                        attempt: attempt as usize,
                        max_attempts: result.max_attempts as usize,
                        delay_ms: match delay_ms {
                            Some(ms) => ms,
                            None => 0,
                        },
                    },
                ),
                scope,
            ),
        ]
    } else {
        Seq::empty()
    }
}

/// An attempt ended.
pub fn after_attempt(
    node: &Node,
    result: &NodeResult,
    execution: Option<&StageExecution>,
    state: &RunState,
    attempt: u32,
    will_retry: bool,
    backoff_delay_ms: Option<u64>,
) -> (r: Vec<Emission>)
    ensures
        r.deep_view() == attempt_events(
            node@,
            result@,
            scope_of(execution.deep_view(), state@.node_visits, state@.context, node@.id),
            state.stage_index,
            attempt,
            will_retry,
            backoff_delay_ms,
        ),
{
    let mut sent: Vec<Emission> = Vec::new();
    assert(sent.deep_view() =~= Seq::empty());
    if will_retry {
        let scope = stage_scope_from_execution(execution, state, node.id.as_str());
        push_emission(
            &mut sent,
            Event::StageFailed(stage_failed(node, result, state.stage_index, true)),
            Some(scope.duplicate()),
        );
        let delay_ms: u64 = match backoff_delay_ms {
            Some(ms) => ms,
            None => 0,
        };
        push_emission(
            &mut sent,
            Event::StageRetrying(
                StageRetrying {
                    node_id: node.id.clone(),
                    name: node.label().to_owned(),
                    index: state.stage_index,
                    attempt: attempt as usize,
                    max_attempts: result.max_attempts as usize,
                    delay_ms,
                },
            ),
            Some(scope),
        );
    }
    sent
}

/// A stage that ended without a failure.
pub open spec fn completed(
    node: NodeView,
    result: NodeResultView,
    state: RunStateView,
    loop_signatures: Map<Seq<char>, usize>,
    restart_signatures: Map<Seq<char>, usize>,
    transient: Seq<Seq<char>>,
) -> StageCompletedView {
    StageCompletedView {
        node_id: node.id,
        name: node.label(),
        index: state.stage_index,
        timing: timing_of(result),
        status: result.outcome.status.name(),
        preferred_label: result.outcome.preferred_label,
        suggested_next_ids: result.outcome.suggested_next_ids,
        billing: result.outcome.usage,
        failure: result.outcome.failure,
        notes: result.outcome.notes,
        files_touched: result.outcome.files_touched,
        context_updates: filled(result.outcome.context_updates),
        jump_to_node: result.outcome.jump_to_node,
        context_values: filled(event_values(state.context, transient)),
        node_visits: filled(state.node_visits),
        loop_failure_signatures: filled(loop_signatures),
        restart_failure_signatures: filled(restart_signatures),
        response: text_value(result.outcome.context_updates, RESPONSE_PREFIX@ + node.id),
        attempt: result.attempts as usize,
        max_attempts: result.max_attempts as usize,
    }
}

/// What is sent when a node ends. A skipped node was never started.
pub open spec fn node_events(
    node: NodeView,
    result: NodeResultView,
    scope: StageScopeView,
    state: RunStateView,
    loop_signatures: Map<Seq<char>, usize>,
    restart_signatures: Map<Seq<char>, usize>,
    transient: Seq<Seq<char>>,
) -> Seq<EmissionView> {
    if result.outcome.status is Skipped {
        Seq::empty()
    } else if result.outcome.status.failed() {
        seq![
            scoped(
                EventView::StageFailed(failed(node, result, state.stage_index, false)),
                scope,
            ),
        ]
    } else {
        seq![
            scoped(
                EventView::StageCompleted(
                    completed(
                        node,
                        result,
                        state,
                        loop_signatures,
                        restart_signatures,
                        transient,
                    ),
                ),
                scope,
            ),
        ]
    }
}

/// A node ended.
pub fn after_node(
    node: &Node,
    result: &NodeResult,
    execution: Option<&StageExecution>,
    state: &RunState,
    signatures: &FailureSignatures,
    transient: &Vec<String>,
) -> (r: Vec<Emission>)
    ensures
        r.deep_view() == node_events(
            node@,
            result@,
            scope_of(execution.deep_view(), state@.node_visits, state@.context, node@.id),
            state@,
            signatures.loop_signatures@,
            signatures.restart_signatures@,
            transient.deep_view(),
        ),
{
    let mut sent: Vec<Emission> = Vec::new();
    assert(sent.deep_view() =~= Seq::empty());
    let outcome = &result.outcome;
    if let StageOutcome::Skipped = outcome.status {
        return sent;
    }
    let scope = stage_scope_from_execution(execution, state, node.id.as_str());
    if outcome.status.is_failure() {
        push_emission(
            &mut sent,
            Event::StageFailed(stage_failed(node, result, state.stage_index, false)),
            Some(scope),
        );
        return sent;
    }
    let (loop_failure_signatures, restart_failure_signatures) = snapshot_failure_signatures(
        signatures,
    );
    push_emission(
        &mut sent,
        Event::StageCompleted(
            StageCompleted {
                node_id: node.id.clone(),
                name: node.label().to_owned(),
                index: state.stage_index,
                timing: node_result_timing(result),
                status: outcome.status.as_str().to_owned(),
                preferred_label: outcome.preferred_label.duplicate(),
                suggested_next_ids: copy_texts(&outcome.suggested_next_ids),
                billing: outcome.usage.duplicate(),
                failure: outcome.failure.duplicate(),
                notes: outcome.notes.duplicate(),
                files_touched: copy_texts(&outcome.files_touched),
                context_updates: some_filled(&outcome.context_updates),
                jump_to_node: outcome.jump_to_node.duplicate(),
                context_values: stage_context_values(&state.context, transient),
                node_visits: some_filled(&state.node_visits),
                loop_failure_signatures,
                restart_failure_signatures,
                response: response_from_outcome(node.id.as_str(), outcome),
                attempt: result.attempts as usize,
                max_attempts: result.max_attempts as usize,
            },
        ),
        Some(scope),
    );
    sent
}

/// A choice among the edges of a node.
#[derive(Debug, PartialEq)]
pub struct Selection {
    pub from: String,
    pub to: String,
    pub edge: Option<Edge>,
    /// Why the target was chosen.
    pub reason: String,
    pub is_jump: bool,
}

pub struct SelectionView {
    pub from: Seq<char>,
    pub to: Seq<char>,
    pub edge: Option<EdgeView>,
    pub reason: Seq<char>,
    pub is_jump: bool,
}

impl View for Selection {
    type V = SelectionView;

    open spec fn view(&self) -> SelectionView {
        SelectionView {
            from: self.from@,
            to: self.to@,
            edge: self.edge.deep_view(),
            reason: self.reason@,
            is_jump: self.is_jump,
        }
    }
}

impl SelectionView {
    /// An attribute of the chosen edge.
    pub open spec fn edge_text(self, key: Seq<char>) -> Option<Seq<char>> {
        match self.edge {
            Some(e) => e.text(key),
            None => None,
        }
    }
}

impl Selection {
    pub fn edge_text(&self, key: &str) -> (r: Option<&str>)
        ensures
            r.deep_view() == self@.edge_text(key@),
    {
        match &self.edge {
            Some(e) => e.text(key),
            None => None,
        }
    }
}

/// The event for a choice.
pub open spec fn edge_selected(selection: SelectionView, outcome: OutcomeView) -> EdgeSelectedView {
    EdgeSelectedView {
        from_node: selection.from,
        to_node: selection.to,
        label: selection.edge_text("label"@),
        condition: selection.edge_text("condition"@),
        reason: selection.reason,
        preferred_label: outcome.preferred_label,
        suggested_next_ids: outcome.suggested_next_ids,
        stage_status: outcome.status.name(),
        is_jump: selection.is_jump,
    }
}

/// An edge was chosen.
pub fn on_edge_selected(selection: &Selection, outcome: &Outcome) -> (r: Vec<Emission>)
    ensures
        r.deep_view() == seq![
            unscoped(EventView::EdgeSelected(edge_selected(selection@, outcome@))),
        ],
{
    let mut sent: Vec<Emission> = Vec::new();
    push_emission(
        &mut sent,
        Event::EdgeSelected(
            EdgeSelected {
                from_node: selection.from.clone(),
                to_node: selection.to.clone(),
                label: owned(selection.edge_text("label")),
                condition: owned(selection.edge_text("condition")),
                reason: selection.reason.clone(),
                preferred_label: outcome.preferred_label.duplicate(),
                suggested_next_ids: copy_texts(&outcome.suggested_next_ids),
                stage_status: outcome.status.as_str().to_owned(),
                is_jump: selection.is_jump,
            },
        ),
        None,
    );
    sent
}

/// The outcomes to save with a node's own among them.
pub fn checkpoint_outcomes(state: &RunState, node_id: &str, outcome: &Outcome) -> (r: Table<
    Outcome,
>)
    ensures
        r@ == state@.node_outcomes.insert(node_id@, outcome@),
{
    let mut outcomes = state.node_outcomes.duplicate();
    outcomes.insert(node_id.to_owned(), outcome.duplicate());
    outcomes
}

/// What is saved of a run beside its state, in the form to keep it in.
#[derive(Debug, PartialEq)]
pub struct Durable {
    pub context_values: Table<Json>,
    pub node_outcomes: Table<Outcome>,
}

/// The event for a checkpoint.
pub open spec fn checkpoint(
    node: NodeView,
    status: StageOutcome,
    next_node_id: Option<Seq<char>>,
    execution: Option<StageExecutionView>,
    state: RunStateView,
    context_values: Values,
    node_outcomes: Map<Seq<char>, OutcomeView>,
    git: Option<GitCheckpointResultView>,
    loop_signatures: Map<Seq<char>, usize>,
    restart_signatures: Map<Seq<char>, usize>,
) -> CheckpointCompletedView {
    CheckpointCompletedView {
        node_id: node.id,
        status: status.name(),
        current_node: node.id,
        completed_nodes: state.completed_nodes,
        node_retries: state.node_retries,
        context_values,
        node_outcomes,
        next_node_id,
        git_commit_sha: match git {
            Some(g) => g.commit_sha,
            None => None,
        },
        loop_failure_signatures: loop_signatures,
        restart_failure_signatures: restart_signatures,
        node_visits: state.node_visits,
        diff: match git {
            Some(g) => g.diff,
            None => None,
        },
        diff_summary: match git {
            Some(g) => g.diff_summary,
            None => None,
        },
        graph_visit: Some(graph_visit_of(execution, state.node_visits, node.id)),
        resumed_from_stage_id: match execution {
            Some(e) => e.resumed_from,
            None => None,
        },
    }
}

/// The events for the pushes of a checkpoint.
pub open spec fn push_events(pushes: Seq<PushResultView>) -> Seq<EmissionView> {
    pushes.map_values(
        |p: PushResultView|
            unscoped(
                EventView::GitPush(
                    GitPushView {
                        branch: p.refspec,
                        success: p.success,
                        exec_output_tail: p.exec_output_tail,
                    },
                ),
            ),
    )
}

/// The events for what was committed and pushed.
pub open spec fn git_events(
    git: Option<GitCheckpointResultView>,
    node_id: Seq<char>,
    scope: StageScopeView,
) -> Seq<EmissionView> {
    match git {
        Some(g) => (match g.commit_sha {
            Some(sha) => seq![
                scoped(
                    EventView::GitCommit(GitCommitView { node_id: Some(node_id), sha }),
                    scope,
                ),
            ],
            None => Seq::empty(),
        }) + push_events(g.push_results),
        None => Seq::empty(),
    }
}

/// The state of a run was saved.
pub fn on_checkpoint(
    node: &Node,
    status: StageOutcome,
    next_node_id: Option<&str>,
    execution: Option<&StageExecution>,
    state: &RunState,
    durable: Durable,
    git: Option<&GitCheckpointResult>,
    signatures: &FailureSignatures,
) -> (r: Vec<Emission>)
    ensures
        r.deep_view() == seq![
            scoped(
                EventView::CheckpointCompleted(
                    checkpoint(
                        node@,
                        status,
                        next_node_id.deep_view(),
                        execution.deep_view(),
                        state@,
                        durable.context_values@,
                        durable.node_outcomes@,
                        git.deep_view(),
                        signatures.loop_signatures@,
                        signatures.restart_signatures@,
                    ),
                ),
                scope_of(execution.deep_view(), state@.node_visits, state@.context, node@.id),
            ),
        ] + git_events(
            git.deep_view(),
            node@.id,
            scope_of(execution.deep_view(), state@.node_visits, state@.context, node@.id),
        ),
{
    let mut sent: Vec<Emission> = Vec::new();
    assert(sent.deep_view() =~= Seq::empty());
    let scope = stage_scope_from_execution(execution, state, node.id.as_str());
    let graph_visit: u32 = match execution {
        Some(e) => e.graph_visit,
        None => stage_visit(&state.node_visits, node.id.as_str()),
    };
    let (git_commit_sha, diff, diff_summary) = match git {
        Some(g) => (g.commit_sha.duplicate(), g.diff.duplicate(), g.diff_summary),
        None => (None, None, None),
    };
    let resumed_from_stage_id = match execution {
        Some(e) => e.resumed_from.duplicate(),
        None => None,
    };
    push_emission(
        &mut sent,
        Event::CheckpointCompleted(
            CheckpointCompleted {
                node_id: node.id.clone(),
                status: status.as_str().to_owned(),
                current_node: node.id.clone(),
                completed_nodes: copy_texts(&state.completed_nodes),
                node_retries: state.node_retries.duplicate(),
                context_values: durable.context_values,
                node_outcomes: durable.node_outcomes,
                next_node_id: owned(next_node_id),
                git_commit_sha,
                loop_failure_signatures: signatures.loop_signatures.duplicate(),
                restart_failure_signatures: signatures.restart_signatures.duplicate(),
                node_visits: state.node_visits.duplicate(),
                diff,
                diff_summary,
                graph_visit: Some(graph_visit),
                resumed_from_stage_id,
            },
        ),
        Some(scope.duplicate()),
    );
    if let Some(result) = git {
        if let Some(sha) = &result.commit_sha {
            push_emission(
                &mut sent,
                Event::GitCommit(GitCommit { node_id: Some(node.id.clone()), sha: sha.clone() }),
                Some(scope),
            );
        }
        let ghost first = sent.deep_view();
        let ghost all = result.push_results.deep_view();
        let mut i: usize = 0;
        assert(push_events(all).take(0) =~= Seq::empty());
        while i < result.push_results.len()
            invariant
                i <= result.push_results@.len(),
                all == result.push_results.deep_view(),
                sent.deep_view() == first + push_events(all).take(i as int),
            decreases result.push_results@.len() - i,
        {
            let push = &result.push_results[i];
            assert(all[i as int] == push@);
            push_emission(
                &mut sent,
                Event::GitPush(
                    GitPush {
                        branch: push.refspec.clone(),
                        success: push.success,
                        exec_output_tail: push.exec_output_tail.duplicate(),
                    },
                ),
                None,
            );
            assert(push_events(all).take(i + 1) =~= push_events(all).take(i as int).push(
                push_events(all)[i as int],
            ));
            i += 1;
        }
        assert(push_events(all).take(i as int) =~= push_events(all));
    }
    sent
}

/// Sends the events of a run.
pub struct EventLifecycle {
    pub run: RunStarted,
    /// The loop that is about to start again.
    pub restarted_from: Option<(String, String)>,
}

/// What is sent when a run starts, or starts again.
pub open spec fn start_events(
    run: RunStartedView,
    restarted_from: Option<(Seq<char>, Seq<char>)>,
) -> Seq<EmissionView> {
    (match restarted_from {
        Some((from_node, to_node)) => seq![
            unscoped(EventView::LoopRestart(LoopRestartView { from_node, to_node })),
        ],
        None => Seq::empty(),
    }) + seq![unscoped(EventView::RunStarted(run)), unscoped(EventView::RunRunning)]
}

impl EventLifecycle {
    /// The loop that is about to start again.
    pub open spec fn restart(&self) -> Option<(Seq<char>, Seq<char>)> {
        match self.restarted_from {
            Some((from, to)) => Some((from@, to@)),
            None => None,
        }
    }

    /// A run starts, or starts again. A restart is told once.
    pub fn on_run_start(&mut self) -> (r: Vec<Emission>)
        ensures
            r.deep_view() == start_events(old(self).run@, old(self).restart()),
            final(self).run == old(self).run,
            final(self).restarted_from is None,
    {
        let mut sent: Vec<Emission> = Vec::new();
        assert(sent.deep_view() =~= Seq::empty());
        let restarted = self.restarted_from.take();
        if let Some((from_node, to_node)) = restarted {
            push_emission(&mut sent, Event::LoopRestart(LoopRestart { from_node, to_node }), None);
        }
        push_emission(&mut sent, Event::RunStarted(self.run.duplicate()), None);
        push_emission(&mut sent, Event::RunRunning, None);
        assert(sent.deep_view() =~= start_events(old(self).run@, old(self).restart()));
        sent
    }
}

/// A skipped node sends no event of its end.
pub proof fn lemma_skipped_nodes_are_silent(
    node: NodeView,
    result: NodeResultView,
    scope: StageScopeView,
    state: RunStateView,
    loop_signatures: Map<Seq<char>, usize>,
    restart_signatures: Map<Seq<char>, usize>,
    transient: Seq<Seq<char>>,
)
    requires
        result.outcome.status is Skipped,
    ensures
        node_events(
            node,
            result,
            scope,
            state,
            loop_signatures,
            restart_signatures,
            transient,
        ).len() == 0,
{
}

/// A node that ends without being skipped sends one event of its end.
pub proof fn lemma_ended_nodes_tell_once(
    node: NodeView,
    result: NodeResultView,
    scope: StageScopeView,
    state: RunStateView,
    loop_signatures: Map<Seq<char>, usize>,
    restart_signatures: Map<Seq<char>, usize>,
    transient: Seq<Seq<char>>,
)
    requires
        !(result.outcome.status is Skipped),
    ensures
        ({
            let sent = node_events(
                node,
                result,
                scope,
                state,
                loop_signatures,
                restart_signatures,
                transient,
            );
            &&& sent.len() == 1
            &&& sent[0].event is StageFailed == result.outcome.status.failed()
        }),
{
}

/// The values of a stage event are those of the context that are kept, and the
/// account that the stage started from.
pub proof fn lemma_event_values(values: Values, transient: Seq<Seq<char>>, key: Seq<char>)
    ensures
        event_values(values, transient).contains_key(key) == (values.contains_key(key) && (
        !transient.contains(key) || key == CURRENT_PREAMBLE@)),
        event_values(values, transient).contains_key(key) ==> event_values(values, transient)[key]
            == values[key],
{
}

/// A node that failed is told as failed for good, with the failure of its outcome,
/// or a general one where that names none; a node that ended well is told with its
/// status and everything that its outcome says. Both name the node, its times, its
/// bill and its place in the run.
pub proof fn lemma_ends_tell_the_outcome(
    node: NodeView,
    result: NodeResultView,
    scope: StageScopeView,
    state: RunStateView,
    loop_signatures: Map<Seq<char>, usize>,
    restart_signatures: Map<Seq<char>, usize>,
    transient: Seq<Seq<char>>,
)
    requires
        !(result.outcome.status is Skipped),
    ensures
        ({
            let sent = node_events(
                node,
                result,
                scope,
                state,
                loop_signatures,
                restart_signatures,
                transient,
            );
            let o = result.outcome;
            &&& sent.len() == 1 && sent[0].scope == Some(scope)
            &&& o.status is Failed ==> (sent[0].event matches EventView::StageFailed(e) && {
                &&& e.node_id == node.id && e.name == node.label() && e.index == state.stage_index
                &&& !e.will_retry
                &&& o.failure matches Some(f) ==> e.failure == f
                &&& o.failure is None ==> e.failure.message == "handler failed"@
                    && e.failure.category == FailureCategory::Deterministic
                &&& e.actor == e.failure.system_actor
                &&& e.billing == o.usage
                &&& e.timing == timing_of(result)
            })
            &&& !(o.status is Failed) ==> (sent[0].event matches EventView::StageCompleted(e) && {
                &&& e.node_id == node.id && e.name == node.label() && e.index == state.stage_index
                &&& e.status == o.status.name()
                &&& e.preferred_label == o.preferred_label
                &&& e.suggested_next_ids == o.suggested_next_ids
                &&& e.billing == o.usage && e.failure == o.failure && e.notes == o.notes
                &&& e.files_touched == o.files_touched && e.jump_to_node == o.jump_to_node
                &&& e.timing == timing_of(result)
                &&& e.attempt == result.attempts && e.max_attempts == result.max_attempts
                &&& o.context_updates.dom().len() > 0 ==> e.context_updates == Some(
                    o.context_updates,
                )
                &&& o.context_updates.contains_key("response."@ + node.id) ==> (
                o.context_updates["response."@ + node.id] matches JsonView::Str(text)
                    ==> e.response == Some(text))
                &&& !o.context_updates.contains_key("response."@ + node.id) ==> e.response is None
            })
        }),
{
}

/// An attempt that another one follows is told as a failure that is tried again,
/// and then the next attempt with its wait; the last attempt is told by the end of
/// its node alone.
pub proof fn lemma_retries_are_told_before_they_start(
    node: NodeView,
    result: NodeResultView,
    scope: StageScopeView,
    index: usize,
    attempt: u32,
    will_retry: bool,
    delay_ms: Option<u64>,
)
    ensures
        ({
            let sent = attempt_events(node, result, scope, index, attempt, will_retry, delay_ms);
            &&& !will_retry ==> sent.len() == 0
            &&& will_retry ==> {
                &&& sent.len() == 2
                &&& sent[0].scope == Some(scope) && sent[1].scope == Some(scope)
                &&& sent[0].event matches EventView::StageFailed(e) && {
                    &&& e.node_id == node.id && e.name == node.label() && e.index == index
                    &&& e.will_retry
                    &&& result.outcome.failure matches Some(f) ==> e.failure == f
                    &&& result.outcome.failure is None ==> e.failure.message == "handler failed"@
                        && e.failure.category == FailureCategory::TransientInfra
                    &&& e.billing == result.outcome.usage
                }
                &&& sent[1].event matches EventView::StageRetrying(e) && {
                    &&& e.node_id == node.id && e.name == node.label() && e.index == index
                    &&& e.attempt == attempt && e.max_attempts == result.max_attempts
                    &&& delay_ms matches Some(ms) ==> e.delay_ms == ms
                    &&& delay_ms is None ==> e.delay_ms == 0
                }
            }
        }),
{
}

/// A terminal node is told, as started and then as succeeded, exactly where the
/// goals of the run are met.
pub proof fn lemma_terminal_nodes_are_told_once_goals_are_met(
    node: NodeView,
    goals_met: bool,
    execution: StageExecutionView,
    state: RunStateView,
    loop_signatures: Map<Seq<char>, usize>,
    restart_signatures: Map<Seq<char>, usize>,
)
    ensures
        ({
            let sent = terminal_events(
                node,
                goals_met,
                execution,
                state,
                loop_signatures,
                restart_signatures,
            );
            &&& !goals_met ==> sent.len() == 0
            &&& goals_met ==> {
                &&& sent.len() == 2
                &&& sent[0].event matches EventView::StageStarted(e) && e.node_id == node.id
                    && e.attempt == 1 && e.max_attempts == 1 && e.graph_visit == Some(
                    execution.graph_visit,
                ) && e.resumed_from_stage_id == execution.resumed_from
                &&& sent[1].event matches EventView::StageCompleted(e) && e.node_id == node.id
                    && e.status == "succeeded"@ && e.failure is None && e.timing.wall_ms == 0
                &&& sent[0].scope == sent[1].scope
                &&& sent[0].scope matches Some(s) && s.node_id == execution.stage_id.node_id
                    && s.visit == execution.stage_id.visit
            }
        }),
{
}

/// The scope of a stage's events is that of its execution where there is one, else
/// the node at the visit on record; inside a parallel branch it names the group and
/// the branch.
pub proof fn lemma_events_are_scoped_to_their_execution(
    execution: Option<StageExecutionView>,
    visits: Map<Seq<char>, usize>,
    values: Values,
    node_id: Seq<char>,
)
    ensures
        ({
            let s = scope_of(execution, visits, values, node_id);
            &&& execution matches Some(e) ==> s.node_id == e.stage_id.node_id && s.visit
                == e.stage_id.visit
            &&& execution is None ==> s.node_id == node_id
            &&& values.contains_key("internal.parallel_group_id"@) ==> (
            values["internal.parallel_group_id"@] matches JsonView::Str(id) ==> s.parallel_group_id
                == Some(id))
            &&& !values.contains_key("internal.parallel_group_id"@) ==> s.parallel_group_id is None
            &&& values.contains_key("internal.parallel_branch_id"@) ==> (
            values["internal.parallel_branch_id"@] matches JsonView::Str(id)
                ==> s.parallel_branch_id == Some(id))
            &&& !values.contains_key("internal.parallel_branch_id"@) ==> s.parallel_branch_id is None
        }),
{
}

/// A checkpoint's commit is told where there is one, and every push after it, in
/// the order of the pushes and with whether it went well.
pub proof fn lemma_commits_are_told_before_pushes(
    git: GitCheckpointResultView,
    node_id: Seq<char>,
    scope: StageScopeView,
    i: int,
)
    requires
        0 <= i < git.push_results.len(),
    ensures
        ({
            let sent = git_events(Some(git), node_id, scope);
            let first: int = if git.commit_sha is Some {
                1
            } else {
                0
            };
            &&& sent.len() == first + git.push_results.len()
            &&& git.commit_sha matches Some(sha) ==> {
                &&& sent[0].scope == Some(scope)
                &&& sent[0].event matches EventView::GitCommit(e) && e.sha == sha && e.node_id
                    == Some(node_id)
            }
            &&& sent[first + i].event matches EventView::GitPush(e) && e.branch
                == git.push_results[i].refspec && e.success == git.push_results[i].success
                && e.exec_output_tail == git.push_results[i].exec_output_tail
        }),
        git_events(None, node_id, scope).len() == 0,
{
}

/// A checkpoint tells the node, its status and where the run goes on, with the
/// state of the run and what was saved as it is handed over.
pub proof fn lemma_checkpoints_tell_the_state(
    node: NodeView,
    status: StageOutcome,
    next_node_id: Option<Seq<char>>,
    execution: Option<StageExecutionView>,
    state: RunStateView,
    context_values: Values,
    node_outcomes: Map<Seq<char>, OutcomeView>,
    git: Option<GitCheckpointResultView>,
    loop_signatures: Map<Seq<char>, usize>,
    restart_signatures: Map<Seq<char>, usize>,
)
    ensures
        ({
            let e = checkpoint(
                node,
                status,
                next_node_id,
                execution,
                state,
                context_values,
                node_outcomes,
                git,
                loop_signatures,
                restart_signatures,
            );
            &&& e.node_id == node.id && e.current_node == node.id && e.status == status.name()
            &&& e.next_node_id == next_node_id
            &&& e.completed_nodes == state.completed_nodes
            &&& e.node_retries == state.node_retries && e.node_visits == state.node_visits
            &&& e.context_values == context_values && e.node_outcomes == node_outcomes
            &&& e.loop_failure_signatures == loop_signatures
            &&& e.restart_failure_signatures == restart_signatures
            &&& git matches Some(g) ==> e.git_commit_sha == g.commit_sha && e.diff == g.diff
                && e.diff_summary == g.diff_summary
            &&& git is None ==> e.git_commit_sha is None && e.diff is None && e.diff_summary is None
            &&& execution matches Some(x) ==> e.graph_visit == Some(x.graph_visit)
                && e.resumed_from_stage_id == x.resumed_from
            &&& execution is None ==> e.resumed_from_stage_id is None
        }),
{
}

/// The choice of an edge is told with both its ends, the edge's label and
/// condition, the reason, and what the stage's outcome had asked for.
pub proof fn lemma_choices_are_told_with_their_reason(
    selection: SelectionView,
    outcome: OutcomeView,
)
    ensures
        ({
            let e = edge_selected(selection, outcome);
            &&& e.from_node == selection.from && e.to_node == selection.to
            &&& e.reason == selection.reason && e.is_jump == selection.is_jump
            &&& selection.edge matches Some(edge) ==> e.label == edge.text("label"@) && e.condition
                == edge.text("condition"@)
            &&& selection.edge is None ==> e.label is None && e.condition is None
            &&& e.preferred_label == outcome.preferred_label
            &&& e.suggested_next_ids == outcome.suggested_next_ids
            &&& e.stage_status == outcome.status.name()
        }),
{
}

/// A run is told as started and then as running; a loop that starts again is told
/// before that.
pub proof fn lemma_runs_are_told_as_started_then_running(
    run: RunStartedView,
    restarted_from: Option<(Seq<char>, Seq<char>)>,
)
    ensures
        ({
            let sent = start_events(run, restarted_from);
            let n = sent.len() as int;
            &&& n == if restarted_from is Some {
                3int
            } else {
                2int
            }
            &&& sent[n - 2].event == EventView::RunStarted(run)
            &&& sent[n - 1].event is RunRunning
            &&& restarted_from matches Some((from, to)) ==> (
            sent[0].event matches EventView::LoopRestart(e) && e.from_node == from && e.to_node
                == to)
        }),
{
}

/// The start of an attempt names the node and its handler, which attempt it is and
/// of how many, and the stage that it was resumed from.
pub proof fn lemma_starts_tell_the_attempt(
    node: NodeView,
    execution: Option<StageExecutionView>,
    state: RunStateView,
    attempt: u32,
    max_attempts: u32,
)
    ensures
        ({
            let e = started(node, execution, state, attempt as nat, max_attempts as nat);
            &&& e.node_id == node.id && e.name == node.label() && e.index == state.stage_index
            &&& node.handler_type() matches Some(t) ==> e.handler_type == t
            &&& e.attempt == attempt && e.max_attempts == max_attempts
            &&& execution matches Some(x) ==> e.graph_visit == Some(x.graph_visit)
                && e.resumed_from_stage_id == x.resumed_from
            &&& execution is None ==> e.resumed_from_stage_id is None
        }),
{
}

/// An event of a stage holds every value of the context but those that the store does
/// not keep, each as it is, and the account that the stage started from even then; it
/// holds no values at all only where none is left.
pub proof fn lemma_events_hold_what_is_kept_and_the_account(
    values: Values,
    transient: Seq<Seq<char>>,
    key: Seq<char>,
)
    ensures
        ({
            let held = event_values(values, transient);
            &&& held.contains_key(key) <==> values.contains_key(key) && (!transient.contains(key)
                || key == "current.preamble"@)
            &&& held.contains_key(key) ==> held[key] == values[key]
            &&& held.contains_key(key) ==> filled(held) == Some(held)
        }),
{
    let held = event_values(values, transient);
    if held.contains_key(key) {
        assert(held != Map::<Seq<char>, JsonView>::empty());
    }
}

/// The response that is told of a stage is the text that its outcome keeps under the
/// stage's own name, where it keeps one.
pub proof fn lemma_responses_are_those_of_their_stage(
    node_id: &str,
    outcome: &Outcome,
    r: Option<String>,
)
    requires
        call_ensures(response_from_outcome, (node_id, outcome), r),
    ensures
        ({
            let kept = outcome@.context_updates;
            let key = "response."@ + node_id@;
            &&& r is Some <==> kept.contains_key(key) && kept[key] is Str
            &&& r matches Some(s) ==> kept[key] == JsonView::Str(s@)
        }),
{
}

} // verus!
