//! Where a run stands.
use crate::context::{Context, Values};
use crate::error::{ExecOutputTail, TailView};
use crate::lifecycle::events::DiffSummary;
use crate::outcome::{Outcome, OutcomeView};
use crate::stage_id::{StageId, StageIdView};
use crate::table::{Duplicate, Table};
use vstd::prelude::*;

verus! {

/// The state of a run that its callbacks read and, of the context, write.
#[derive(Debug, PartialEq)]
pub struct RunState {
    pub context: Context,
    pub node_outcomes: Table<Outcome>,
    pub completed_nodes: Vec<String>,
    pub node_retries: Table<u32>,
    pub node_visits: Table<usize>,
    pub stage_index: usize,
    pub previous_node_id: Option<String>,
    pub cancelled: bool,
}

pub struct RunStateView {
    pub context: Values,
    pub node_outcomes: Map<Seq<char>, OutcomeView>,
    pub completed_nodes: Seq<Seq<char>>,
    pub node_retries: Map<Seq<char>, u32>,
    pub node_visits: Map<Seq<char>, usize>,
    pub stage_index: usize,
    pub previous_node_id: Option<Seq<char>>,
    pub cancelled: bool,
}

impl View for RunState {
    type V = RunStateView;

    open spec fn view(&self) -> RunStateView {
        RunStateView {
            context: self.context.deep_view(),
            node_outcomes: self.node_outcomes.deep_view(),
            completed_nodes: self.completed_nodes.deep_view(),
            node_retries: self.node_retries.deep_view(),
            node_visits: self.node_visits.deep_view(),
            stage_index: self.stage_index,
            previous_node_id: self.previous_node_id.deep_view(),
            cancelled: self.cancelled,
        }
    }
}

impl DeepView for RunState {
    type V = RunStateView;

    open spec fn deep_view(&self) -> RunStateView {
        self@
    }
}

/// What came of a node. Times are in nanoseconds.
#[derive(Debug, PartialEq)]
pub struct NodeResult {
    pub outcome: Outcome,
    pub wall_time: u128,
    pub inference_time: u128,
    pub tool_time: u128,
    pub attempts: u32,
    pub max_attempts: u32,
}

pub struct NodeResultView {
    pub outcome: OutcomeView,
    pub wall_time: u128,
    pub inference_time: u128,
    pub tool_time: u128,
    pub attempts: u32,
    pub max_attempts: u32,
}

impl View for NodeResult {
    type V = NodeResultView;

    open spec fn view(&self) -> NodeResultView {
        NodeResultView {
            outcome: self.outcome.deep_view(),
            wall_time: self.wall_time,
            inference_time: self.inference_time,
            tool_time: self.tool_time,
            attempts: self.attempts,
            max_attempts: self.max_attempts,
        }
    }
}

impl DeepView for NodeResult {
    type V = NodeResultView;

    open spec fn deep_view(&self) -> NodeResultView {
        self@
    }
}

/// A reserved execution of a stage.
#[derive(Debug, PartialEq)]
pub struct StageExecution {
    pub stage_id: StageId,
    /// How often the graph visited the node.
    pub graph_visit: u32,
    pub resumed_from: Option<StageId>,
}

pub struct StageExecutionView {
    pub stage_id: StageIdView,
    pub graph_visit: u32,
    pub resumed_from: Option<StageIdView>,
}

impl View for StageExecution {
    type V = StageExecutionView;

    open spec fn view(&self) -> StageExecutionView {
        StageExecutionView {
            stage_id: self.stage_id.deep_view(),
            graph_visit: self.graph_visit,
            resumed_from: self.resumed_from.deep_view(),
        }
    }
}

impl DeepView for StageExecution {
    type V = StageExecutionView;

    open spec fn deep_view(&self) -> StageExecutionView {
        self@
    }
}

impl Duplicate for StageExecution {
    fn duplicate(&self) -> (r: Self) {
        StageExecution {
            stage_id: self.stage_id.duplicate(),
            graph_visit: self.graph_visit,
            resumed_from: self.resumed_from.duplicate(),
        }
    }
}

/// An attempt to push a branch.
#[derive(Debug, PartialEq)]
pub struct PushResult {
    pub refspec: String,
    pub success: bool,
    pub exec_output_tail: Option<ExecOutputTail>,
}

pub struct PushResultView {
    pub refspec: Seq<char>,
    pub success: bool,
    pub exec_output_tail: Option<TailView>,
}

impl View for PushResult {
    type V = PushResultView;

    open spec fn view(&self) -> PushResultView {
        PushResultView {
            refspec: self.refspec@,
            success: self.success,
            exec_output_tail: self.exec_output_tail.deep_view(),
        }
    }
}

impl DeepView for PushResult {
    type V = PushResultView;

    open spec fn deep_view(&self) -> PushResultView {
        self@
    }
}

impl Duplicate for PushResult {
    fn duplicate(&self) -> (r: Self) {
        PushResult {
            refspec: self.refspec.clone(),
            success: self.success,
            exec_output_tail: self.exec_output_tail.duplicate(),
        }
    }
}

/// What was saved of a checkpoint.
#[derive(Debug, PartialEq)]
pub struct GitCheckpointResult {
    pub commit_sha: Option<String>,
    pub diff: Option<String>,
    pub diff_summary: Option<DiffSummary>,
    pub push_results: Vec<PushResult>,
}

pub struct GitCheckpointResultView {
    pub commit_sha: Option<Seq<char>>,
    pub diff: Option<Seq<char>>,
    pub diff_summary: Option<DiffSummary>,
    pub push_results: Seq<PushResultView>,
}

impl View for GitCheckpointResult {
    type V = GitCheckpointResultView;

    open spec fn view(&self) -> GitCheckpointResultView {
        GitCheckpointResultView {
            commit_sha: self.commit_sha.deep_view(),
            diff: self.diff.deep_view(),
            diff_summary: self.diff_summary,
            push_results: self.push_results.deep_view(),
        }
    }
}

impl DeepView for GitCheckpointResult {
    type V = GitCheckpointResultView;

    open spec fn deep_view(&self) -> GitCheckpointResultView {
        self@
    }
}

impl Duplicate for GitCheckpointResult {
    fn duplicate(&self) -> (r: Self) {
        GitCheckpointResult {
            commit_sha: self.commit_sha.duplicate(),
            diff: self.diff.duplicate(),
            diff_summary: self.diff_summary,
            push_results: self.push_results.duplicate(),
        }
    }
}

/// How often failures of each signature were seen.
#[derive(Debug, PartialEq)]
pub struct FailureSignatures {
    pub loop_signatures: Table<usize>,
    pub restart_signatures: Table<usize>,
}

/// The visits of a node, as far as they are known.
pub open spec fn visits_of(visits: Map<Seq<char>, usize>, node_id: Seq<char>) -> Option<usize> {
    if visits.contains_key(node_id) {
        Some(visits[node_id])
    } else {
        None
    }
}

/// The number of a stage's visit.
pub open spec fn visit_number(visits: Map<Seq<char>, usize>, node_id: Seq<char>) -> u32 {
    match visits_of(visits, node_id) {
        Some(n) => if n <= u32::MAX {
            n as u32
        } else {
            u32::MAX
        },
        None => 1,
    }
}

/// The number of a stage's visit; the first where none is on record.
pub fn stage_visit(node_visits: &Table<usize>, node_id: &str) -> (r: u32)
    ensures
        r == visit_number(node_visits@, node_id@),
{
    match node_visits.get(node_id) {
        Some(n) => if (*n as u64) <= (u32::MAX as u64) {
            *n as u32
        } else {
            u32::MAX
        },
        None => 1,
    }
}

/// A stage's visit is numbered by how often its node was visited, as far as numbers
/// go, and is the first where no visit is on record. More visits never get a lower
/// number, and those of other nodes do not count.
pub proof fn lemma_visits_are_numbered_as_they_were_counted(
    visits: Map<Seq<char>, usize>,
    id: Seq<char>,
    other: Seq<char>,
    n: usize,
    m: usize,
)
    ensures
        n <= u32::MAX ==> visit_number(visits.insert(id, n), id) == n,
        n <= m ==> visit_number(visits.insert(id, n), id) <= visit_number(visits.insert(id, m), id),
        n >= u32::MAX ==> visit_number(visits.insert(id, n), id) == u32::MAX,
        visit_number(visits.remove(id), id) == 1,
        other != id ==> visit_number(visits.insert(other, n), id) == visit_number(visits, id),
{
}

} // verus!
