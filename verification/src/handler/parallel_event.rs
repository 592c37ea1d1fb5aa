//! What is told of a parallel node and its branches.
use crate::graph::{Graph, Node};
use crate::handler::branch::{BranchId, BranchIdView, BranchPlace, PlaceView};
use crate::handler::branch_result::{BranchResultView, ParallelBranchResult};
use crate::handler::parallel_join::JoinSummary;
use crate::hook_context::{hook_context, set_hook_node, HookContext, HookEvent};
use crate::keys::concat;
use crate::lifecycle::artifact::notice_text;
use crate::lifecycle::events::{
    RunNotice, RunNoticeCode, RunNoticeLevel, RunNoticeView, StageScope, StageScopeView,
};
use crate::table::Duplicate;
use vstd::prelude::*;
use vstd::string::*;

verus! {

/// Says that a fan-out starts.
#[derive(Debug, PartialEq)]
pub struct ParallelStarted {
    pub node_id: String,
    pub visit: u32,
    pub branch_count: usize,
}

/// The event for the start of a fan-out.
pub fn parallel_started(node: &Node, visit: u32, branch_count: usize) -> (r: ParallelStarted)
    ensures
        r.node_id@ == node@.id,
        r.visit == visit,
        r.branch_count == branch_count,
{
    ParallelStarted { node_id: node.id.clone(), visit, branch_count }
}

/// Says that a branch starts. No branch goes on where an earlier run stopped.
#[derive(Debug, PartialEq)]
pub struct BranchStarted {
    pub parallel_group_id: String,
    pub parallel_branch_id: String,
    pub branch: String,
    pub index: usize,
    pub item_label: Option<String>,
    pub graph_visit: u32,
}

impl BranchStarted {
    /// Whether this announces the branch at `place` with the given identity.
    pub open spec fn announces(self, id: BranchIdView, place: PlaceView, graph_visit: u32) -> bool {
        &&& self.parallel_group_id@ == id.group_id
        &&& self.parallel_branch_id@ == id.branch_id
        &&& self.branch@ == id.target_id
        &&& self.index == place.index
        &&& self.item_label.deep_view() == place.item_label
        &&& self.graph_visit == graph_visit
    }
}

/// The event for the start of a branch.
pub fn branch_started(id: &BranchId, place: &BranchPlace, graph_visit: u32) -> (r: BranchStarted)
    ensures
        r.announces(id@, place@, graph_visit),
{
    BranchStarted {
        parallel_group_id: id.group_id.clone(),
        parallel_branch_id: id.branch_id.clone(),
        branch: id.target_id.clone(),
        index: place.index,
        item_label: place.item_label.duplicate(),
        graph_visit,
    }
}

/// The scope of the events of a branch: the execution of its target.
pub fn branch_scope(id: &BranchId) -> (r: StageScope)
    ensures
        r@ == (StageScopeView {
            node_id: id@.target_id,
            visit: id@.ordinal,
            parallel_group_id: Some(id@.group_id),
            parallel_branch_id: Some(id@.branch_id),
        }),
{
    StageScope {
        node_id: id.target_id.clone(),
        visit: id.ordinal,
        parallel_group_id: Some(id.group_id.clone()),
        parallel_branch_id: Some(id.branch_id.clone()),
    }
}

/// The number of a branch in its group: its index, as far as that fits.
pub fn branch_number(index: usize) -> (r: u32)
    ensures
        r as int == if index <= u32::MAX {
            index as int
        } else {
            u32::MAX as int
        },
{
    if index as u64 <= u32::MAX as u64 {
        index as u32
    } else {
        u32::MAX
    }
}

/// Says that a fan-out has ended, and with which results.
#[derive(Debug, PartialEq)]
pub struct ParallelCompleted {
    pub node_id: String,
    pub visit: u32,
    pub duration_ms: u64,
    pub success_count: usize,
    pub failure_count: usize,
    pub results: Vec<ParallelBranchResult>,
}

impl ParallelCompleted {
    pub open spec fn kept(self) -> Seq<BranchResultView> {
        self.results.deep_view()
    }
}

/// The event for the end of a fan-out.
pub fn parallel_completed(
    node: &Node,
    visit: u32,
    duration_ms: u64,
    summary: &JoinSummary,
    results: &Vec<ParallelBranchResult>,
) -> (r: ParallelCompleted)
    ensures
        r.node_id@ == node@.id,
        r.visit == visit,
        r.duration_ms == duration_ms,
        r.success_count == summary.success_count,
        r.failure_count == summary.failure_count,
        r.kept() == results.deep_view(),
{
    ParallelCompleted {
        node_id: node.id.clone(),
        visit,
        duration_ms,
        success_count: summary.success_count,
        failure_count: summary.failure_count,
        results: results.duplicate(),
    }
}

/// What a hook around a fan-out is told.
pub fn parallel_hook(event: HookEvent, run_id: &str, graph: &Graph, node: &Node) -> (r: HookContext)
    ensures
        r@ == hook_context(event, run_id@, graph@.name).with_node(node@),
{
    let mut context = HookContext::new(event, run_id, graph.name.as_str());
    set_hook_node(&mut context, node);
    context
}

/// Why a branch whose node does not exist fails.
pub fn missing_branch_target(target_id: &str) -> (r: String)
    ensures
        r@ == "branch target node not found: "@ + target_id@,
{
    concat("branch target node not found: ", target_id)
}

/// The notice that the large values of a fan-out's results stay where they are.
pub fn result_offload_notice(node: &Node, error: &str) -> (r: RunNotice)
    ensures
        r@ == (RunNoticeView {
            level: RunNoticeLevel::Warn,
            code: RunNoticeCode::ArtifactOffloadFailed,
            message: notice_text(node@.id, "parallel result offload failed: "@, error@),
        }),
{
    let mut message = concat("[node: ", node.id.as_str());
    message.append("] ");
    message.append("parallel result offload failed: ");
    message.append(error);
    RunNotice { level: RunNoticeLevel::Warn, code: RunNoticeCode::ArtifactOffloadFailed, message }
}

/// Everything that is told of a branch is told under the branch's own identity: its
/// start names group, branch, target and place, and its events are those of the
/// execution of its target within that branch.
pub proof fn lemma_branches_are_told_under_their_identity(
    id: &BranchId,
    place: &BranchPlace,
    graph_visit: u32,
    started: BranchStarted,
    scope: StageScope,
)
    requires
        call_ensures(branch_started, (id, place, graph_visit), started),
        call_ensures(branch_scope, (id,), scope),
    ensures
        started.parallel_group_id@ == id.group_id@,
        started.parallel_branch_id@ == id.branch_id@,
        started.branch@ == id.target_id@,
        started.index == place.index,
        started.item_label.deep_view() == place.item_label.deep_view(),
        started.graph_visit == graph_visit,
        scope.node_id@ == id.target_id@,
        scope.visit == id.ordinal,
        scope.parallel_group_id.deep_view() == Some(started.parallel_group_id@),
        scope.parallel_branch_id.deep_view() == Some(started.parallel_branch_id@),
{
    assert(scope@.parallel_group_id == scope.parallel_group_id.deep_view());
    assert(scope@.parallel_branch_id == scope.parallel_branch_id.deep_view());
}

/// A fan-out is told, at its start and at its end, as the same visit of the same
/// node; the end tells every result, in order, and the counts.
pub proof fn lemma_fan_outs_are_told_at_both_ends(
    node: &Node,
    visit: u32,
    branch_count: usize,
    started: ParallelStarted,
    ms: u64,
    summary: &JoinSummary,
    results: &Vec<ParallelBranchResult>,
    ended: ParallelCompleted,
)
    requires
        call_ensures(parallel_started, (node, visit, branch_count), started),
        call_ensures(parallel_completed, (node, visit, ms, summary, results), ended),
    ensures
        started.node_id@ == node.id@ && ended.node_id@ == started.node_id@,
        started.visit == visit && ended.visit == visit,
        started.branch_count == branch_count,
        ended.duration_ms == ms,
        ended.success_count == summary.success_count,
        ended.failure_count == summary.failure_count,
        ended.results.deep_view() == results.deep_view(),
{
}

/// Branches are numbered by their index, and no later branch gets a lower number.
pub proof fn lemma_branches_are_numbered_by_index(i: usize, j: usize, a: u32, b: u32)
    requires
        call_ensures(branch_number, (i,), a),
        call_ensures(branch_number, (j,), b),
    ensures
        i <= u32::MAX ==> a == i,
        i <= j ==> a <= b,
{
}

/// A branch without a target fails with the name of what was missing, and a result
/// that could not be moved away is told as a warning, with its node and its error.
pub proof fn lemma_missing_targets_and_failed_moves_are_named(
    target: &str,
    missing: String,
    node: &Node,
    error: &str,
    notice: RunNotice,
)
    requires
        call_ensures(missing_branch_target, (target,), missing),
        call_ensures(result_offload_notice, (node, error), notice),
    ensures
        crate::text::within(target@, missing@),
        notice@.level is Warn && notice@.code is ArtifactOffloadFailed,
        crate::text::within(node@.id, notice@.message),
        crate::text::within(error@, notice@.message),
{
    assert(missing@ =~= "branch target node not found: "@ + target@ + Seq::<char>::empty());
    let what = "parallel result offload failed: "@;
    assert(notice@.message =~= "[node: "@ + node@.id + ("] "@ + what + error@));
    assert(notice@.message =~= ("[node: "@ + node@.id + "] "@ + what) + error@
        + Seq::<char>::empty());
}

} // verus!
