//! When hooks run, and what follows from their decisions.
use crate::graph::Node;
use crate::hook_context::{
    hook_context, set_hook_node, HookContext, HookContextView, HookEvent,
};
use crate::lifecycle::event::Selection;
use crate::outcome::{skipped, Outcome, StageOutcome};
use crate::table::Duplicate;
use vstd::prelude::*;
use vstd::string::*;

verus! {

/// What a hook decided.
#[derive(Debug, PartialEq)]
pub enum HookDecision {
    Proceed,
    Skip { reason: Option<String> },
    Block { reason: Option<String> },
    Override { edge_to: String },
}

/// A hook stopped the run.
#[derive(Debug, PartialEq)]
pub struct Blocked {
    pub message: String,
}

/// What happens to a node.
#[derive(Debug, PartialEq)]
pub enum NodeDecision {
    Continue,
    Skip(Outcome),
}

/// What happens to a choice of an edge.
#[derive(Debug, PartialEq)]
pub enum EdgeDecision {
    Continue,
    /// Another target is taken.
    Override(String),
    Block(String),
}

/// The reason of a hook, or a general one.
pub open spec fn reason_or(reason: Option<String>, default: Seq<char>) -> Seq<char> {
    match reason {
        Some(r) => r@,
        None => default,
    }
}

fn reason_text(reason: Option<String>, default: &str) -> (r: String)
    ensures
        r@ == reason_or(reason, default@),
{
    match reason {
        Some(text) => text,
        None => default.to_owned(),
    }
}

/// The decision on a hook. Without a runner there is none to ask.
pub fn run_hook(asked: Option<HookDecision>) -> (r: HookDecision)
    ensures
        r == match asked {
            Some(decision) => decision,
            None => HookDecision::Proceed,
        },
{
    match asked {
        Some(decision) => decision,
        None => HookDecision::Proceed,
    }
}

/// Tells hooks of a run and follows their decisions.
pub struct HookLifecycle {
    pub run_id: String,
    pub graph_name: String,
    pub sandbox_work_dir: Option<String>,
}

impl HookLifecycle {
    /// What a hook is told of the run.
    pub open spec fn told(&self, event: HookEvent) -> HookContextView {
        hook_context(event, self.run_id@, self.graph_name@)
    }

    fn context(&self, event: HookEvent) -> (r: HookContext)
        ensures
            r@ == self.told(event),
    {
        HookContext::new(event, self.run_id.as_str(), self.graph_name.as_str())
    }

    /// The hook for the start of the run.
    pub fn run_start(&self) -> (r: HookContext)
        ensures
            r@ == self.told(HookEvent::RunStart),
    {
        self.context(HookEvent::RunStart)
    }

    /// The hook before an attempt.
    pub fn stage_start(&self, node: &Node, attempt: u32, max_attempts: u32) -> (r: HookContext)
        ensures
            r@ == (HookContextView {
                cwd: self.sandbox_work_dir.deep_view(),
                attempt: Some(attempt as usize),
                max_attempts: Some(max_attempts as usize),
                ..self.told(HookEvent::StageStart).with_node(node@)
            }),
    {
        let mut ctx = self.context(HookEvent::StageStart);
        ctx.cwd = self.sandbox_work_dir.duplicate();
        set_hook_node(&mut ctx, node);
        ctx.attempt = Some(attempt as usize);
        ctx.max_attempts = Some(max_attempts as usize);
        ctx
    }

    /// The hook after a node. A skipped node was never started.
    pub fn stage_end(&self, node: &Node, outcome: &Outcome) -> (r: Option<HookContext>)
        ensures
            r.deep_view() == if outcome.status == StageOutcome::Skipped {
                None
            } else {
                Some(
                    HookContextView {
                        status: Some(outcome.status.name()),
                        failure_reason: outcome@.failure_reason(),
                        ..self.told(
                            if outcome.status.failed() {
                                HookEvent::StageFailed
                            } else {
                                HookEvent::StageComplete
                            },
                        ).with_node(node@)
                    },
                )
            },
    {
        if let StageOutcome::Skipped = outcome.status {
            return None;
        }
        let event = if outcome.status.is_failure() {
            HookEvent::StageFailed
        } else {
            HookEvent::StageComplete
        };
        let mut ctx = self.context(event);
        set_hook_node(&mut ctx, node);
        ctx.status = Some(outcome.status.as_str().to_owned());
        ctx.failure_reason = match outcome.failure_reason() {
            Some(reason) => Some(reason.to_owned()),
            None => None,
        };
        Some(ctx)
    }

    /// The hook for the choice of an edge.
    pub fn edge_selected(&self, selection: &Selection) -> (r: HookContext)
        ensures
            r@ == (HookContextView {
                edge_from: Some(selection@.from),
                edge_to: Some(selection@.to),
                edge_label: selection@.edge_text("label"@),
                ..self.told(HookEvent::EdgeSelected)
            }),
    {
        let mut ctx = self.context(HookEvent::EdgeSelected);
        ctx.edge_from = Some(selection.from.clone());
        ctx.edge_to = Some(selection.to.clone());
        ctx.edge_label = match selection.edge_text("label") {
            Some(label) => Some(label.to_owned()),
            None => None,
        };
        ctx
    }

    /// The hook after a checkpoint.
    pub fn checkpoint_saved(&self, node_id: &str) -> (r: HookContext)
        ensures
            r@ == (HookContextView {
                node_id: Some(node_id@),
                ..self.told(HookEvent::CheckpointSaved)
            }),
    {
        let mut ctx = self.context(HookEvent::CheckpointSaved);
        ctx.node_id = Some(node_id.to_owned());
        ctx
    }

    /// The hook for the end of the run. A cancelled run has none.
    pub fn run_end(&self, outcome: &Outcome, cancelled: bool) -> (r: Option<HookContext>)
        ensures
            r.deep_view() == if cancelled {
                None
            } else if outcome.status == StageOutcome::Succeeded || outcome.status
                == StageOutcome::PartiallySucceeded {
                Some(self.told(HookEvent::RunComplete))
            } else {
                Some(
                    HookContextView {
                        failure_reason: Some(
                            match outcome@.failure_reason() {
                                Some(reason) => reason,
                                None => "run failed"@,
                            },
                        ),
                        ..self.told(HookEvent::RunFailed)
                    },
                )
            },
    {
        if cancelled {
            return None;
        }
        if outcome.status == StageOutcome::Succeeded || outcome.status
            == StageOutcome::PartiallySucceeded {
            return Some(self.context(HookEvent::RunComplete));
        }
        let mut ctx = self.context(HookEvent::RunFailed);
        ctx.failure_reason = match outcome.failure_reason() {
            Some(reason) => Some(reason.to_owned()),
            None => Some("run failed".to_owned()),
        };
        Some(ctx)
    }
}

/// What follows from the hook for the start of the run.
pub fn after_run_start(decision: HookDecision) -> (r: Result<(), Blocked>)
    ensures
        match r {
            Ok(()) => !(decision is Block),
            Err(blocked) => decision matches HookDecision::Block { reason } && blocked.message@
                == reason_or(reason, "blocked by RunStart hook"@),
        },
{
    match decision {
        HookDecision::Block { reason } => Err(
            Blocked { message: reason_text(reason, "blocked by RunStart hook") },
        ),
        _ => Ok(()),
    }
}

/// What follows from the hook before an attempt.
pub fn after_stage_start(decision: HookDecision) -> (r: Result<NodeDecision, Blocked>)
    ensures
        match r {
            Ok(NodeDecision::Continue) => decision is Proceed || decision is Override,
            Ok(NodeDecision::Skip(outcome)) => decision matches HookDecision::Skip { reason }
                && outcome@ == skipped(reason_or(reason, "skipped by StageStart hook"@)),
            Err(blocked) => decision matches HookDecision::Block { reason } && blocked.message@
                == reason_or(reason, "blocked by StageStart hook"@),
        },
{
    match decision {
        HookDecision::Skip { reason } => {
            let text = reason_text(reason, "skipped by StageStart hook");
            Ok(NodeDecision::Skip(Outcome::skipped(text.as_str())))
        },
        HookDecision::Block { reason } => Err(
            Blocked { message: reason_text(reason, "blocked by StageStart hook") },
        ),
        _ => Ok(NodeDecision::Continue),
    }
}

/// What follows from the hook for the choice of an edge.
pub fn after_edge_selected(decision: HookDecision) -> (r: Result<EdgeDecision, Blocked>)
    ensures
        match r {
            Ok(EdgeDecision::Continue) => decision is Proceed || decision is Skip,
            Ok(EdgeDecision::Override(to)) => decision matches HookDecision::Override { edge_to }
                && to == edge_to,
            Ok(EdgeDecision::Block(_)) => false,
            Err(blocked) => decision matches HookDecision::Block { reason } && blocked.message@
                == reason_or(reason, "blocked by EdgeSelected hook"@),
        },
{
    match decision {
        HookDecision::Override { edge_to } => Ok(EdgeDecision::Override(edge_to)),
        HookDecision::Block { reason } => Err(
            Blocked { message: reason_text(reason, "blocked by EdgeSelected hook") },
        ),
        _ => Ok(EdgeDecision::Continue),
    }
}

/// A hook decides over the start of a run: it goes on unless the hook blocks it,
/// and then with the hook's reason, or a general one.
pub proof fn lemma_runs_start_unless_blocked(decision: HookDecision, r: Result<(), Blocked>)
    requires
        call_ensures(after_run_start, (decision,), r),
    ensures
        r is Err <==> decision is Block,
        decision matches HookDecision::Block { reason: Some(text) } ==> (r matches Err(b)
            && b.message@ == text@),
        decision matches HookDecision::Block { reason: None } ==> (r matches Err(b) && b.message@
            == "blocked by RunStart hook"@),
{
}

/// A hook decides over an attempt: it is made unless the hook skips or blocks it. A
/// skipped node ends as skipped, with the hook's reason as its note.
pub proof fn lemma_attempts_start_unless_stopped(
    decision: HookDecision,
    r: Result<NodeDecision, Blocked>,
)
    requires
        call_ensures(after_stage_start, (decision,), r),
    ensures
        r matches Ok(NodeDecision::Continue) <==> decision is Proceed || decision is Override,
        r matches Ok(NodeDecision::Skip(_)) <==> decision is Skip,
        r is Err <==> decision is Block,
        r matches Ok(NodeDecision::Skip(o)) ==> o@.status == StageOutcome::Skipped && o@.failure
            is None && o@.suggested_next_ids.len() == 0,
        decision matches HookDecision::Skip { reason: Some(text) } ==> (r matches Ok(
            NodeDecision::Skip(o),
        ) && o@.notes == Some(text@)),
        decision matches HookDecision::Skip { reason: None } ==> (r matches Ok(
            NodeDecision::Skip(o),
        ) && o@.notes == Some("skipped by StageStart hook"@)),
        decision matches HookDecision::Block { reason: Some(text) } ==> (r matches Err(b)
            && b.message@ == text@),
{
}

/// A hook decides over the choice of an edge: it stands unless the hook takes
/// another target or blocks it.
pub proof fn lemma_choices_stand_unless_overridden(
    decision: HookDecision,
    r: Result<EdgeDecision, Blocked>,
)
    requires
        call_ensures(after_edge_selected, (decision,), r),
    ensures
        r matches Ok(EdgeDecision::Continue) <==> decision is Proceed || decision is Skip,
        decision matches HookDecision::Override { edge_to } ==> r == Ok::<EdgeDecision, Blocked>(
            EdgeDecision::Override(edge_to),
        ),
        r is Err <==> decision is Block,
        decision matches HookDecision::Block { reason: Some(text) } ==> (r matches Err(b)
            && b.message@ == text@),
{
}

/// The hooks hear of a node's end unless it was skipped: as a failure exactly where
/// it failed, with its status, its reason and the node.
pub proof fn lemma_hooks_hear_of_every_end(
    hook: &HookLifecycle,
    node: &Node,
    outcome: &Outcome,
    r: Option<HookContext>,
)
    requires
        call_ensures(HookLifecycle::stage_end, (hook, node, outcome), r),
    ensures
        r is None <==> outcome.status is Skipped,
        r.deep_view() matches Some(told) ==> {
            &&& told.event == HookEvent::StageFailed <==> outcome.status is Failed
            &&& told.event == HookEvent::StageComplete <==> !(outcome.status is Failed)
            &&& told.status == Some(outcome.status.name())
            &&& told.node_id == Some(node@.id)
            &&& outcome@.failure matches Some(f) ==> told.failure_reason == Some(f.message)
            &&& outcome@.failure is None ==> told.failure_reason is None
            &&& told.run_id == hook.run_id@
        },
{
}

/// The hooks hear of a run's end unless it was cancelled: as complete where it
/// succeeded in full or in part, else as failed, with a reason.
pub proof fn lemma_hooks_hear_of_the_end_of_the_run(
    hook: &HookLifecycle,
    outcome: &Outcome,
    cancelled: bool,
    r: Option<HookContext>,
)
    requires
        call_ensures(HookLifecycle::run_end, (hook, outcome, cancelled), r),
    ensures
        r is None <==> cancelled,
        r.deep_view() matches Some(told) ==> {
            let well = outcome.status == StageOutcome::Succeeded || outcome.status
                == StageOutcome::PartiallySucceeded;
            &&& well ==> told.event == HookEvent::RunComplete && told.failure_reason is None
            &&& !well ==> told.event == HookEvent::RunFailed && told.failure_reason is Some
            &&& !well ==> (outcome@.failure matches Some(f) ==> told.failure_reason == Some(
                f.message,
            ))
        },
{
}

/// The hook for the choice of an edge names both ends of it and the edge's label;
/// that before an attempt names the node, the attempt and the directory.
pub proof fn lemma_hooks_are_told_what_they_decide_over(
    hook: &HookLifecycle,
    node: &Node,
    attempt: u32,
    max_attempts: u32,
    selection: &Selection,
    start: HookContext,
    choice: HookContext,
)
    requires
        call_ensures(HookLifecycle::stage_start, (hook, node, attempt, max_attempts), start),
        call_ensures(HookLifecycle::edge_selected, (hook, selection), choice),
    ensures
        start@.event == HookEvent::StageStart,
        start@.node_id == Some(node@.id),
        start@.attempt == Some(attempt as usize),
        start@.max_attempts == Some(max_attempts as usize),
        start@.cwd == hook.sandbox_work_dir.deep_view(),
        choice@.event == HookEvent::EdgeSelected,
        choice@.edge_from == Some(selection@.from),
        choice@.edge_to == Some(selection@.to),
        selection@.edge matches Some(edge) ==> choice@.edge_label == edge.text("label"@),
{
}


} // verus!
