//! Stages whose status does not depend on what they report.
use crate::graph::{get_flag, flag_attr, Node, NodeView};
use crate::outcome::{Outcome, OutcomeView, StageOutcome};
use vstd::prelude::*;
use vstd::string::*;

verus! {

/// The note on an outcome whose status was set.
pub const AUTO_STATUS_NOTE: &'static str = "auto-status: handler completed without writing status";

/// The outcome of a node. With `auto_status` a node that was not skipped has
/// succeeded.
pub open spec fn settled(node: NodeView, outcome: OutcomeView) -> OutcomeView {
    if flag_attr(node.attrs, "auto_status"@) && outcome.status != StageOutcome::Succeeded
        && outcome.status != StageOutcome::Skipped {
        OutcomeView {
            status: StageOutcome::Succeeded,
            notes: Some(AUTO_STATUS_NOTE@),
            ..outcome
        }
    } else {
        outcome
    }
}

/// Sets the status of nodes with `auto_status`.
pub struct AutoStatusLifecycle;

impl AutoStatusLifecycle {
    /// A node ended.
    pub fn after_node(&self, node: &Node, outcome: &mut Outcome)
        ensures
            final(outcome)@ == settled(node@, old(outcome)@),
    {
        if get_flag(&node.attrs, "auto_status") && outcome.status != StageOutcome::Succeeded
            && outcome.status != StageOutcome::Skipped {
            outcome.status = StageOutcome::Succeeded;
            outcome.notes = Some(AUTO_STATUS_NOTE.to_owned());
        }
    }
}

/// A node with `auto_status` never fails, and settling twice changes nothing
/// more.
pub proof fn lemma_auto_status_never_fails(node: NodeView, outcome: OutcomeView)
    ensures
        flag_attr(node.attrs, "auto_status"@) ==> !settled(node, outcome).status.failed(),
        !flag_attr(node.attrs, "auto_status"@) ==> settled(node, outcome) == outcome,
        settled(node, settled(node, outcome)) == settled(node, outcome),
{
}

/// With `auto_status` a node that failed or succeeded in part has succeeded, and a
/// note says so; one that succeeded or was skipped keeps its status and its notes.
/// Nothing else of the outcome changes.
pub proof fn lemma_auto_status_sets_the_status_alone(node: NodeView, outcome: OutcomeView)
    ensures
        ({
            let o = settled(node, outcome);
            let counts = flag_attr(node.attrs, "auto_status"@) && (outcome.status is Failed
                || outcome.status == StageOutcome::PartiallySucceeded);
            &&& counts ==> o.status == StageOutcome::Succeeded && o.notes == Some(
                "auto-status: handler completed without writing status"@,
            )
            &&& !counts ==> o.status == outcome.status && o.notes == outcome.notes
            &&& o.preferred_label == outcome.preferred_label
            &&& o.suggested_next_ids == outcome.suggested_next_ids
            &&& o.context_updates == outcome.context_updates && o.failure == outcome.failure
            &&& o.files_touched == outcome.files_touched && o.usage == outcome.usage
            &&& o.jump_to_node == outcome.jump_to_node && o.timing == outcome.timing
        }),
{
}


} // verus!
