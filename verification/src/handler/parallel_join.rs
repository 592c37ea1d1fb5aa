//! How the branches of a parallel node come together again.
use crate::error::Error;
use crate::graph::{Graph, GraphView, Node};
use crate::handler::branch::{
    branch_completed, ended, failed_branch_result, BranchCompleted, BranchId, BranchPlace,
    BranchResult, BranchView, PlaceView,
};
use crate::handler::branch_result::{
    results_json, results_value, BranchResultView, ParallelBranchResult,
};
use crate::json::{Json, JsonView};
use crate::keys::{PARALLEL_BRANCH_COUNT, PARALLEL_RESULTS};
use crate::lifecycle::events::StageRetrying;
use crate::order::{sorted, TextSet};
use crate::outcome::{
    bare, failure, failure_of, success, FailureCategory, FailureDetail, Outcome, OutcomeView,
    StageOutcome,
};
use crate::table::Duplicate;
use crate::text::{decimal, decimal_string};
use vstd::prelude::*;
use vstd::string::*;

verus! {

/// The event for another attempt at a branch.
pub fn branch_retrying(
    node: &Node,
    ordinal: u32,
    attempt: u32,
    max_attempts: u32,
    delay_ms: u64,
) -> (r: StageRetrying)
    ensures
        r.node_id@ == node@.id,
        r.name@ == node@.label(),
        r.index == ordinal,
        r.attempt == attempt,
        r.max_attempts == max_attempts,
        r.delay_ms == delay_ms,
{
    StageRetrying {
        node_id: node.id.clone(),
        name: node.label().to_owned(),
        index: ordinal as usize,
        attempt: attempt as usize,
        max_attempts: max_attempts as usize,
        delay_ms,
    }
}

/// What came of the task of a branch.
#[derive(Debug, PartialEq)]
pub enum JoinedTask {
    /// The branch reported its own end.
    Finished(BranchResult),
    /// The run was cancelled while the branch waited or ran.
    Cancelled { category: FailureCategory },
    /// The branch failed outside its handler.
    Failed { reason: String, category: FailureCategory },
    /// The task itself did not come to an end.
    Lost { reason: String, category: FailureCategory },
}

/// What a branch that did not report its own end is said to have failed with.
pub open spec fn task_failure(task: JoinedTask) -> OutcomeView {
    match task {
        JoinedTask::Finished(b) => b.outcome@,
        JoinedTask::Cancelled { category } => failure("branch cancelled"@, category),
        JoinedTask::Failed { reason, category } => failure(reason@, category),
        JoinedTask::Lost { reason, category } => failure("task join error: "@ + reason@, category),
    }
}

/// The branch that a task stands for.
pub open spec fn joined_branch(task: JoinedTask, place: PlaceView) -> BranchView {
    match task {
        JoinedTask::Finished(b) => b@,
        _ => ended(place, task_failure(task), Map::empty()),
    }
}

/// The branches joined so far, in the order of their dispatch.
#[derive(Debug, PartialEq)]
pub struct Join {
    pub branches: Vec<BranchResult>,
    pub cancelled: bool,
}

impl Join {
    pub fn new() -> (r: Join)
        ensures
            r.branches.deep_view() == Seq::<BranchView>::empty(),
            !r.cancelled,
    {
        let r = Join { branches: Vec::new(), cancelled: false };
        assert(r.branches.deep_view() =~= Seq::<BranchView>::empty());
        r
    }

    /// Takes in the next branch. Where the branch had started and did not
    /// report its own end, the event for its end is returned. One cancelled
    /// branch cancels the group.
    pub fn collect(&mut self, task: JoinedTask, place: &BranchPlace, started: Option<&BranchId>) -> (r:
        Option<BranchCompleted>)
        ensures
            final(self).branches.deep_view() == old(self).branches.deep_view().push(
                joined_branch(task, place@),
            ),
            final(self).cancelled == (old(self).cancelled || task is Cancelled || joined_branch(
                task,
                place@,
            ).outcome.failure_category() == Some(FailureCategory::Canceled)),
            match started {
                Some(id) => if task is Finished {
                    r is None
                } else {
                    r matches Some(event) && event.reports(
                        id@,
                        place@,
                        0,
                        StageOutcome::Failed { retry_requested: false },
                    )
                },
                None => r is None,
            },
    {
        let ghost had = self.branches.deep_view();
        let ghost model = joined_branch(task, place@);
        let (branch, reported) = match task {
            JoinedTask::Finished(branch) => (branch, true),
            JoinedTask::Cancelled { category } => {
                self.cancelled = true;
                (failed_branch_result(place, "branch cancelled", category), false)
            },
            JoinedTask::Failed { reason, category } => (
                failed_branch_result(place, reason.as_str(), category),
                false,
            ),
            JoinedTask::Lost { reason, category } => (
                failed_branch_result(
                    place,
                    crate::keys::concat("task join error: ", reason.as_str()).as_str(),
                    category,
                ),
                false,
            ),
        };
        assert(branch@ == model);
        let event = match started {
            Some(id) => if reported {
                None
            } else {
                Some(branch_completed(id, place, 0, branch.outcome.status))
            },
            None => None,
        };
        if let Some(FailureCategory::Canceled) = branch.outcome.failure_category() {
            self.cancelled = true;
        }
        self.branches.push(branch);
        assert(self.branches.deep_view() =~= had.push(model));
        event
    }
}

/// Whether every branch succeeded.
pub open spec fn all_succeeded(branches: Seq<BranchView>) -> bool {
    forall|i: int|
        0 <= i < branches.len() ==> (#[trigger] branches[i]).outcome.status == StageOutcome::Succeeded
}

/// Whether every branch failed.
pub open spec fn all_failed(branches: Seq<BranchView>) -> bool {
    forall|i: int| 0 <= i < branches.len() ==> (#[trigger] branches[i]).outcome.status.failed()
}

/// The status of the whole fan-out.
pub open spec fn group_status(branches: Seq<BranchView>, empty_succeeds: bool) -> StageOutcome {
    if branches.len() == 0 {
        if empty_succeeds {
            StageOutcome::Succeeded
        } else {
            StageOutcome::PartiallySucceeded
        }
    } else if all_succeeded(branches) {
        StageOutcome::Succeeded
    } else if all_failed(branches) {
        StageOutcome::Failed { retry_requested: false }
    } else {
        StageOutcome::PartiallySucceeded
    }
}

/// The number of branches that succeeded.
pub open spec fn successes(branches: Seq<BranchView>) -> nat {
    branches.filter(|b: BranchView| b.outcome.status == StageOutcome::Succeeded).len()
}

/// The number of branches that failed.
pub open spec fn failures(branches: Seq<BranchView>) -> nat {
    branches.filter(|b: BranchView| b.outcome.status.failed()).len()
}

proof fn lemma_counts_step(branches: Seq<BranchView>, i: int)
    requires
        0 <= i < branches.len(),
    ensures
        successes(branches.take(i + 1)) == successes(branches.take(i)) + if branches[i].outcome.status
            == StageOutcome::Succeeded {
            1nat
        } else {
            0nat
        },
        failures(branches.take(i + 1)) == failures(branches.take(i))
            + if branches[i].outcome.status.failed() {
            1nat
        } else {
            0nat
        },
{
    reveal(Seq::filter);
    assert(branches.take(i + 1).drop_last() =~= branches.take(i));
    assert(branches.take(i + 1).last() == branches[i]);
}

/// The status of the whole fan-out.
pub fn aggregate_status(branches: &Vec<BranchResult>, empty_succeeds: bool) -> (r: StageOutcome)
    ensures
        r == group_status(branches.deep_view(), empty_succeeds),
{
    if branches.len() == 0 {
        return if empty_succeeds {
            StageOutcome::Succeeded
        } else {
            StageOutcome::PartiallySucceeded
        };
    }
    let ghost all = branches.deep_view();
    let mut succeeded: bool = true;
    let mut failed: bool = true;
    let mut i: usize = 0;
    while i < branches.len()
        invariant
            i <= branches@.len(),
            all == branches.deep_view(),
            succeeded == all_succeeded(all.take(i as int)),
            failed == all_failed(all.take(i as int)),
        decreases branches@.len() - i,
    {
        assert(all[i as int] == branches@[i as int]@);
        let ghost t0 = all.take(i as int);
        let ghost t1 = all.take(i + 1);
        if !(branches[i].outcome.status == StageOutcome::Succeeded) {
            succeeded = false;
        }
        if !branches[i].outcome.status.is_failure() {
            failed = false;
        }
        proof {
            assert(forall|k: int| 0 <= k < i ==> t0[k] == #[trigger] t1[k]);
            assert(t1[i as int] == all[i as int]);
            assert(all_succeeded(t1) ==> all_succeeded(t0)) by {
                if all_succeeded(t1) {
                    assert forall|k: int| 0 <= k < t0.len() implies (#[trigger] t0[k]).outcome.status
                        == StageOutcome::Succeeded by {
                        assert(t0[k] == t1[k]);
                    }
                }
            }
            assert(all_failed(t1) ==> all_failed(t0)) by {
                if all_failed(t1) {
                    assert forall|k: int| 0 <= k < t0.len() implies (
                    #[trigger] t0[k]).outcome.status.failed() by {
                        assert(t0[k] == t1[k]);
                    }
                }
            }
        }
        i += 1;
    }
    assert(all.take(i as int) =~= all);
    if succeeded {
        StageOutcome::Succeeded
    } else if failed {
        StageOutcome::Failed { retry_requested: false }
    } else {
        StageOutcome::PartiallySucceeded
    }
}

/// Whether an edge leads from `id` to `target`.
pub open spec fn leads_to(graph: GraphView, id: Seq<char>, target: Seq<char>) -> bool {
    exists|i: int|
        0 <= i < graph.outgoing(id).len() && (#[trigger] graph.outgoing(id)[i]).to == target
}

/// The nodes that every branch leads to.
pub open spec fn common_targets(ids: Seq<Seq<char>>, graph: GraphView) -> Set<Seq<char>> {
    Set::new(
        |t: Seq<char>| forall|i: int| 0 <= i < ids.len() ==> leads_to(graph, #[trigger] ids[i], t),
    )
}

/// The node where the branches come together: the least of those that every
/// branch leads to.
pub open spec fn join_node(ids: Seq<Seq<char>>, graph: GraphView) -> Option<Seq<char>> {
    if ids.len() == 0 {
        None
    } else {
        let common = sorted(common_targets(ids, graph));
        if common.len() == 0 {
            None
        } else {
            Some(common[0])
        }
    }
}

fn edge_exists(graph: &Graph, id: &str, target: &str) -> (r: bool)
    ensures
        r == leads_to(graph@, id@, target@),
{
    let edges = graph.outgoing_edges(id);
    let ghost all = graph@.outgoing(id@);
    let mut i: usize = 0;
    while i < edges.len()
        invariant
            i <= edges@.len(),
            all == graph@.outgoing(id@),
            edges.deep_view() == all,
            forall|k: int| 0 <= k < i ==> (#[trigger] all[k]).to != target@,
        decreases edges@.len() - i,
    {
        assert(all[i as int] == edges@[i as int]@);
        if crate::text::same(edges[i].to.as_str(), target) {
            return true;
        }
        i += 1;
    }
    false
}

fn every_branch_leads_to(ids: &Vec<String>, graph: &Graph, target: &str) -> (r: bool)
    ensures
        r == common_targets(ids.deep_view(), graph@).contains(target@),
{
    let ghost all = ids.deep_view();
    let mut i: usize = 0;
    while i < ids.len()
        invariant
            i <= ids@.len(),
            all == ids.deep_view(),
            forall|k: int| 0 <= k < i ==> leads_to(graph@, #[trigger] all[k], target@),
        decreases ids@.len() - i,
    {
        assert(all[i as int] == ids@[i as int]@);
        if !edge_exists(graph, ids[i].as_str(), target) {
            return false;
        }
        i += 1;
    }
    true
}

/// The node where the branches come together.
pub fn find_join_node(ids: &Vec<String>, graph: &Graph) -> (r: Option<String>)
    ensures
        r.deep_view() == join_node(ids.deep_view(), graph@),
{
    if ids.len() == 0 {
        return None;
    }
    let ghost all = ids.deep_view();
    let ghost wanted = common_targets(all, graph@);
    assert(all[0] == ids@[0]@);
    let edges = graph.outgoing_edges(ids[0].as_str());
    let ghost leaving = graph@.outgoing(all[0]);
    let mut common = TextSet::new();
    let mut i: usize = 0;
    while i < edges.len()
        invariant
            i <= edges@.len(),
            edges.deep_view() == leaving,
            all == ids.deep_view(),
            wanted == common_targets(all, graph@),
            forall|t: Seq<char>| #[trigger]
                common@.contains(t) <==> wanted.contains(t) && exists|k: int|
                    0 <= k < i && (#[trigger] leaving[k]).to == t,
        decreases edges@.len() - i,
    {
        assert(leaving[i as int] == edges@[i as int]@);
        let ghost had = common@;
        if every_branch_leads_to(ids, graph, edges[i].to.as_str()) {
            common.insert(edges[i].to.clone());
        }
        proof {
            let to = leaving[i as int].to;
            assert forall|t: Seq<char>| #[trigger]
                common@.contains(t) <==> wanted.contains(t) && exists|k: int|
                    0 <= k < i + 1 && (#[trigger] leaving[k]).to == t by {
                if wanted.contains(t) && exists|k: int|
                    0 <= k < i + 1 && (#[trigger] leaving[k]).to == t {
                    let k = choose|k: int| 0 <= k < i + 1 && (#[trigger] leaving[k]).to == t;
                    if k < i {
                        assert(had.contains(t));
                    }
                }
                if had.contains(t) {
                    let k = choose|k: int| 0 <= k < i && (#[trigger] leaving[k]).to == t;
                    assert(leaving[k].to == t);
                }
            }
        }
        i += 1;
    }
    proof {
        assert forall|t: Seq<char>| common@.contains(t) == wanted.contains(t) by {
            if wanted.contains(t) {
                assert(leads_to(graph@, all[0], t));
            }
        }
        assert(common@ =~= wanted);
    }
    let names = common.to_vec();
    let ghost listed = names.deep_view();
    if names.len() == 0 {
        None
    } else {
        assert(listed[0] == names@[0]@);
        Some(names[0].clone())
    }
}

/// Only finitely many nodes are led to by every branch.
proof fn lemma_common_targets_finite(ids: Seq<Seq<char>>, graph: GraphView)
    requires
        ids.len() > 0,
    ensures
        common_targets(ids, graph).finite(),
{
    let edges = graph.outgoing(ids[0]);
    let reached = edges.map_values(|e: crate::graph::EdgeView| e.to);
    vstd::seq_lib::seq_to_set_is_finite(reached);
    assert forall|t: Seq<char>| common_targets(ids, graph).contains(t) implies reached.to_set().contains(
        t,
    ) by {
        assert(leads_to(graph, ids[0], t));
        let k = choose|k: int| 0 <= k < edges.len() && (#[trigger] edges[k]).to == t;
        assert(reached[k] == t);
    }
    vstd::set_lib::lemma_len_subset(common_targets(ids, graph), reached.to_set());
}

/// Branches come together exactly where every one of them leads, at the least
/// such node.
pub proof fn lemma_join_node_is_least(ids: Seq<Seq<char>>, graph: GraphView, other: Seq<char>)
    requires
        ids.len() > 0,
        common_targets(ids, graph).contains(other),
    ensures
        join_node(ids, graph) matches Some(node) && {
            &&& common_targets(ids, graph).contains(node)
            &&& other == node || crate::order::before(node, other)
        },
{
    lemma_common_targets_finite(ids, graph);
    crate::order::lemma_sorted(common_targets(ids, graph));
    let common = sorted(common_targets(ids, graph));
    assert(common.to_set().contains(other));
    let k = choose|k: int| 0 <= k < common.len() && common[k] == other;
    assert(common[k] == other);
    assert(common.contains(common[0]));
    assert(common.to_set().contains(common[0]));
}

/// Branches with no common target come together nowhere.
pub proof fn lemma_no_join_without_common_target(ids: Seq<Seq<char>>, graph: GraphView)
    requires
        join_node(ids, graph) is Some,
    ensures
        common_targets(ids, graph).contains(join_node(ids, graph).unwrap()),
{
    lemma_common_targets_finite(ids, graph);
    crate::order::lemma_sorted(common_targets(ids, graph));
    let common = sorted(common_targets(ids, graph));
    assert(common.contains(common[0]));
    assert(common.to_set().contains(common[0]));
}

/// The fan-out as a whole.
#[derive(Debug, PartialEq)]
pub struct JoinSummary {
    pub total: usize,
    pub success_count: usize,
    pub failure_count: usize,
    pub status: StageOutcome,
    pub jump_to_node: Option<String>,
}

/// The targets of the branches, in order.
pub open spec fn branch_ids(branches: Seq<BranchView>) -> Seq<Seq<char>> {
    branches.map_values(|b: BranchView| b.result.id)
}

/// Where the run goes on: nowhere after a failure, else where the branches come
/// together. A `for_each` fan-out goes by its template, so that an empty array
/// joins too.
pub open spec fn jump_target(
    branches: Seq<BranchView>,
    template: Option<Seq<char>>,
    graph: GraphView,
) -> Option<Seq<char>> {
    if group_status(branches, template is Some).failed() {
        None
    } else {
        match template {
            Some(target) => join_node(seq![target], graph),
            None => join_node(branch_ids(branches), graph),
        }
    }
}

impl JoinSummary {
    /// Whether this is the summary of the given branches.
    pub open spec fn sums_up(
        self,
        branches: Seq<BranchView>,
        template: Option<Seq<char>>,
        graph: GraphView,
    ) -> bool {
        &&& self.total == branches.len()
        &&& self.success_count == successes(branches)
        &&& self.failure_count == failures(branches)
        &&& self.status == group_status(branches, template is Some)
        &&& self.jump_to_node.deep_view() == jump_target(branches, template, graph)
    }
}

/// Sums a fan-out up. A cancelled branch cancels the node.
pub fn sum_up(join: &Join, template: Option<&str>, graph: &Graph) -> (r: Result<JoinSummary, Error>)
    ensures
        if join.cancelled {
            r == Err::<JoinSummary, Error>(Error::Cancelled)
        } else {
            r matches Ok(summary) && summary.sums_up(
                join.branches.deep_view(),
                template.deep_view(),
                graph@,
            )
        },
{
    if join.cancelled {
        return Err(Error::Cancelled);
    }
    let branches = &join.branches;
    let ghost all = branches.deep_view();
    let mut success_count: usize = 0;
    let mut failure_count: usize = 0;
    let mut ids: Vec<String> = Vec::new();
    let mut i: usize = 0;
    proof {
        reveal(Seq::filter);
    }
    while i < branches.len()
        invariant
            i <= branches@.len(),
            all == branches.deep_view(),
            success_count == successes(all.take(i as int)),
            failure_count == failures(all.take(i as int)),
            success_count <= i,
            failure_count <= i,
            ids.deep_view() == branch_ids(all).take(i as int),
        decreases branches@.len() - i,
    {
        assert(all[i as int] == branches@[i as int]@);
        proof {
            lemma_counts_step(all, i as int);
        }
        if branches[i].outcome.status == StageOutcome::Succeeded {
            success_count += 1;
        }
        if branches[i].outcome.status.is_failure() {
            failure_count += 1;
        }
        let ghost had = ids.deep_view();
        ids.push(branches[i].result.id.clone());
        assert(ids.deep_view() =~= had.push(all[i as int].result.id));
        i += 1;
        assert(ids.deep_view() =~= branch_ids(all).take(i as int));
    }
    assert(all.take(i as int) =~= all);
    assert(ids.deep_view() =~= branch_ids(all));
    let status = aggregate_status(branches, template.is_some());
    let jump_to_node = if status.is_failure() {
        None
    } else {
        match template {
            Some(target) => {
                let mut only: Vec<String> = Vec::new();
                only.push(target.to_owned());
                assert(only.deep_view() =~= seq![target@]);
                find_join_node(&only, graph)
            },
            None => find_join_node(&ids, graph),
        }
    };
    Ok(JoinSummary { total: branches.len(), success_count, failure_count, status, jump_to_node })
}

/// The outcome of a parallel node.
pub open spec fn parallel_outcome(
    results: Seq<BranchResultView>,
    total: nat,
    success_count: nat,
    failure_count: nat,
    status: StageOutcome,
    jump_to_node: Option<Seq<char>>,
    simulated: bool,
) -> OutcomeView {
    OutcomeView {
        status,
        notes: Some(
            (if simulated {
                "[Simulated] "@
            } else {
                Seq::empty()
            }) + "Parallel node dispatched "@ + decimal(total) + " branches ("@ + decimal(
                success_count,
            ) + " succeeded, "@ + decimal(failure_count) + " failed)"@,
        ),
        failure: if status.failed() {
            Some(failure_of("All parallel branches failed"@, FailureCategory::Deterministic))
        } else {
            None
        },
        jump_to_node,
        context_updates: Map::empty().insert(PARALLEL_RESULTS@, results_json(results)).insert(
            PARALLEL_BRANCH_COUNT@,
            JsonView::Number(decimal(total)),
        ),
        ..success()
    }
}

/// The outcome of a parallel node, from its summary and the results to keep.
pub fn finish(summary: JoinSummary, results: &Vec<ParallelBranchResult>, simulated: bool) -> (r:
    Outcome)
    ensures
        r@ == parallel_outcome(
            results.deep_view(),
            summary.total as nat,
            summary.success_count as nat,
            summary.failure_count as nat,
            summary.status,
            summary.jump_to_node.deep_view(),
            simulated,
        ),
{
    let mut notes = String::new();
    if simulated {
        notes.append("[Simulated] ");
        assert(notes@ =~= "[Simulated] "@);
    } else {
        assert(notes@ =~= Seq::<char>::empty());
    }
    notes.append("Parallel node dispatched ");
    notes.append(decimal_string(summary.total as u64).as_str());
    notes.append(" branches (");
    notes.append(decimal_string(summary.success_count as u64).as_str());
    notes.append(" succeeded, ");
    notes.append(decimal_string(summary.failure_count as u64).as_str());
    notes.append(" failed)");
    let mut outcome = Outcome::bare(summary.status);
    outcome.notes = Some(notes);
    if summary.status.is_failure() {
        outcome.failure = Some(
            FailureDetail::new("All parallel branches failed", FailureCategory::Deterministic),
        );
    }
    outcome.jump_to_node = summary.jump_to_node;
    outcome.context_updates.insert(PARALLEL_RESULTS.to_owned(), results_value(results));
    outcome.context_updates.insert(
        PARALLEL_BRANCH_COUNT.to_owned(),
        Json::from_u64(summary.total as u64),
    );
    outcome
}

/// The results to keep, in order.
pub fn results_of(join: &Join) -> (r: Vec<ParallelBranchResult>)
    ensures
        r.deep_view() == join.branches.deep_view().map_values(|b: BranchView| b.result),
{
    let ghost all = join.branches.deep_view();
    let ghost model = all.map_values(|b: BranchView| b.result);
    let mut r: Vec<ParallelBranchResult> = Vec::new();
    let mut i: usize = 0;
    while i < join.branches.len()
        invariant
            i <= join.branches@.len(),
            all == join.branches.deep_view(),
            model == all.map_values(|b: BranchView| b.result),
            r.deep_view() == model.take(i as int),
        decreases join.branches@.len() - i,
    {
        let ghost had = r.deep_view();
        assert(all[i as int] == join.branches@[i as int]@);
        r.push(join.branches[i].result.duplicate());
        assert(r.deep_view() =~= had.push(model[i as int]));
        i += 1;
        assert(r.deep_view() =~= model.take(i as int));
    }
    assert(model.take(i as int) =~= model);
    r
}

/// A fan-out fails only where every branch failed, and succeeds in full only
/// where every branch did.
pub proof fn lemma_group_status(branches: Seq<BranchView>, empty_succeeds: bool)
    ensures
        group_status(branches, empty_succeeds).failed() <==> branches.len() > 0 && all_failed(
            branches,
        ),
        branches.len() > 0 ==> (group_status(branches, empty_succeeds) == StageOutcome::Succeeded
            <==> all_succeeded(branches)),
        !group_status(branches, empty_succeeds).wants_retry(),
{
    if branches.len() > 0 && all_succeeded(branches) {
        assert(branches[0].outcome.status == StageOutcome::Succeeded);
    }
}

/// Whether the graph has an edge from one node to another.
pub open spec fn connected(graph: GraphView, from: Seq<char>, to: Seq<char>) -> bool {
    exists|e: int|
        0 <= e < graph.edges.len() && (#[trigger] graph.edges[e]).from == from && graph.edges[e].to
            == to
}

/// Whether the target of every branch has an edge to a node.
pub open spec fn all_connected(
    branches: Seq<BranchView>,
    graph: GraphView,
    node: Seq<char>,
) -> bool {
    forall|i: int|
        0 <= i < branches.len() ==> connected(graph, (#[trigger] branches[i]).result.id, node)
}

proof fn lemma_leads_to_is_an_edge(graph: GraphView, id: Seq<char>, target: Seq<char>)
    ensures
        leads_to(graph, id, target) <==> connected(graph, id, target),
{
    let out = graph.outgoing(id);
    if leads_to(graph, id, target) {
        let i = choose|i: int| 0 <= i < out.len() && (#[trigger] out[i]).to == target;
        crate::graph::lemma_outgoing_edges(graph, id, out[i]);
        assert(out.contains(out[i]));
        let e = choose|e: int| 0 <= e < graph.edges.len() && graph.edges[e] == out[i];
        assert(graph.edges[e].from == id && graph.edges[e].to == target);
    }
    if connected(graph, id, target) {
        let e = choose|e: int|
            0 <= e < graph.edges.len() && (#[trigger] graph.edges[e]).from == id
                && graph.edges[e].to == target;
        let edge = graph.edges[e];
        crate::graph::lemma_outgoing_edges(graph, id, edge);
        assert(graph.edges.contains(edge));
        let i = choose|i: int| 0 <= i < out.len() && out[i] == edge;
        assert(out[i].to == target);
    }
}

proof fn lemma_common_targets_are_connected(
    branches: Seq<BranchView>,
    graph: GraphView,
    node: Seq<char>,
)
    ensures
        common_targets(branch_ids(branches), graph).contains(node) <==> all_connected(
            branches,
            graph,
            node,
        ),
{
    let ids = branch_ids(branches);
    assert forall|i: int| 0 <= i < ids.len() implies (leads_to(graph, #[trigger] ids[i], node)
        <==> connected(graph, branches[i].result.id, node)) by {
        lemma_leads_to_is_an_edge(graph, ids[i], node);
    }
    if common_targets(ids, graph).contains(node) {
        assert forall|i: int| 0 <= i < branches.len() implies connected(
            graph,
            (#[trigger] branches[i]).result.id,
            node,
        ) by {
            assert(leads_to(graph, ids[i], node));
        }
    }
    if all_connected(branches, graph, node) {
        assert forall|i: int| 0 <= i < ids.len() implies leads_to(
            graph,
            #[trigger] ids[i],
            node,
        ) by {
            assert(connected(graph, branches[i].result.id, node));
        }
    }
}

/// After a fan-out over edges the run goes on where the branches come together:
/// at the least of the nodes that the target of every branch has an edge to. It
/// goes nowhere exactly where every branch failed, where there was no branch, or
/// where no node is led to by all of them.
pub proof fn lemma_run_goes_on_where_branches_meet(
    summary: JoinSummary,
    branches: Seq<BranchView>,
    graph: GraphView,
    node: Seq<char>,
)
    requires
        summary.sums_up(branches, None, graph),
    ensures
        summary.jump_to_node matches Some(to) ==> all_connected(branches, graph, to@),
        ({
            let one_went_well = exists|i: int|
                0 <= i < branches.len() && !((#[trigger] branches[i]).outcome.status is Failed);
            one_went_well && all_connected(branches, graph, node) ==> (
            summary.jump_to_node matches Some(to) && (to@ == node || crate::order::before(
                to@,
                node,
            )))
        }),
        (forall|i: int|
            0 <= i < branches.len() ==> (#[trigger] branches[i]).outcome.status is Failed)
            ==> summary.jump_to_node is None,
{
    let ids = branch_ids(branches);
    lemma_group_status(branches, false);
    lemma_common_targets_are_connected(branches, graph, node);
    if branches.len() > 0 {
        assert(ids.len() > 0);
        if all_connected(branches, graph, node) {
            lemma_join_node_is_least(ids, graph, node);
        }
        if join_node(ids, graph) is Some {
            lemma_no_join_without_common_target(ids, graph);
            lemma_common_targets_are_connected(branches, graph, join_node(ids, graph).unwrap());
        }
    }
}

/// After a fan-out over the items of an array the run goes on at the least of the
/// nodes that the template has an edge to, also where the array was empty. It goes
/// nowhere exactly where there were branches and every one failed, or where no
/// edge leaves the template.
pub proof fn lemma_run_goes_on_behind_the_template(
    summary: JoinSummary,
    branches: Seq<BranchView>,
    template: Seq<char>,
    graph: GraphView,
    node: Seq<char>,
)
    requires
        summary.sums_up(branches, Some(template), graph),
    ensures
        summary.jump_to_node matches Some(to) ==> connected(graph, template, to@),
        ({
            let failed = branches.len() > 0 && forall|i: int|
                0 <= i < branches.len() ==> (#[trigger] branches[i]).outcome.status is Failed;
            &&& failed ==> summary.jump_to_node is None
            &&& !failed && connected(graph, template, node) ==> (
            summary.jump_to_node matches Some(to) && (to@ == node || crate::order::before(
                to@,
                node,
            )))
        }),
{
    let ids = seq![template];
    lemma_group_status(branches, true);
    assert forall|t: Seq<char>| common_targets(ids, graph).contains(t) <==> connected(
        graph,
        template,
        t,
    ) by {
        lemma_leads_to_is_an_edge(graph, template, t);
        assert(ids[0] == template);
        if common_targets(ids, graph).contains(t) {
            assert(leads_to(graph, ids[0], t));
        }
        if connected(graph, template, t) {
            assert forall|i: int| 0 <= i < ids.len() implies leads_to(
                graph,
                #[trigger] ids[i],
                t,
            ) by {
                assert(ids[i] == template);
            }
        }
    }
    if connected(graph, template, node) {
        lemma_join_node_is_least(ids, graph, node);
    }
    if join_node(ids, graph) is Some {
        lemma_no_join_without_common_target(ids, graph);
    }
}

/// One more branch counts once, and among the successes or the failures exactly
/// where it succeeded in full or failed: a branch that succeeded in part or was
/// skipped is in neither. Before the first branch every count is zero.
pub proof fn lemma_every_branch_is_counted(
    fewer: JoinSummary,
    more: JoinSummary,
    branches: Seq<BranchView>,
    branch: BranchView,
    template: Option<Seq<char>>,
    graph: GraphView,
)
    requires
        fewer.sums_up(branches, template, graph),
        more.sums_up(branches.push(branch), template, graph),
    ensures
        more.total == fewer.total + 1,
        more.success_count == fewer.success_count + if branch.outcome.status
            == StageOutcome::Succeeded {
            1int
        } else {
            0int
        },
        more.failure_count == fewer.failure_count + if branch.outcome.status is Failed {
            1int
        } else {
            0int
        },
        branches.len() == 0 ==> fewer.total == 0 && fewer.success_count == 0
            && fewer.failure_count == 0,
{
    let all = branches.push(branch);
    lemma_counts_step(all, branches.len() as int);
    assert(all.take(branches.len() as int) =~= branches);
    assert(all.take(branches.len() as int + 1) =~= all);
    reveal(Seq::filter);
}

/// The status of a fan-out follows from its counts: a success in full where every
/// branch is among the successes, a failure without a call for another attempt
/// where every one is among the failures, and a success in part otherwise. With
/// no branch, a fan-out over items succeeds in full, one over edges in part.
pub proof fn lemma_fan_out_status_follows_its_counts(
    summary: JoinSummary,
    branches: Seq<BranchView>,
    template: Option<Seq<char>>,
    graph: GraphView,
)
    requires
        summary.sums_up(branches, template, graph),
    ensures
        summary.status == if summary.total == 0 {
            if template is Some {
                StageOutcome::Succeeded
            } else {
                StageOutcome::PartiallySucceeded
            }
        } else if summary.success_count == summary.total {
            StageOutcome::Succeeded
        } else if summary.failure_count == summary.total {
            StageOutcome::Failed { retry_requested: false }
        } else {
            StageOutcome::PartiallySucceeded
        },
        summary.success_count + summary.failure_count <= summary.total,
{
    lemma_counts_tell_all(branches);
    if branches.len() > 0 {
        assert(branches[0].outcome.status == branches[0].outcome.status);
    }
}

proof fn lemma_counts_tell_all(branches: Seq<BranchView>)
    ensures
        successes(branches) + failures(branches) <= branches.len(),
        successes(branches) == branches.len() <==> all_succeeded(branches),
        failures(branches) == branches.len() <==> all_failed(branches),
    decreases branches.len(),
{
    reveal(Seq::filter);
    if branches.len() > 0 {
        let earlier = branches.drop_last();
        let last = branches.last();
        lemma_counts_tell_all(earlier);
        lemma_counts_step(branches, branches.len() - 1);
        assert(branches.take(branches.len() - 1) =~= earlier);
        assert(branches.take(branches.len() as int) =~= branches);
        assert(branches[branches.len() - 1] == last);
        assert(forall|k: int| 0 <= k < earlier.len() ==> earlier[k] == #[trigger] branches[k]);
        assert(forall|k: int| 0 <= k < earlier.len() ==> #[trigger] earlier[k] == branches[k]);
    }
}

/// A parallel node hands its branches' results on under `parallel.results` and
/// their number under `parallel.branch_count`, ends with the status of the
/// fan-out, points to the node where the run goes on, and names a failure exactly
/// where the fan-out failed.
pub proof fn lemma_parallel_outcome_tells_the_fan_out(
    results: Seq<BranchResultView>,
    total: nat,
    success_count: nat,
    failure_count: nat,
    status: StageOutcome,
    jump_to_node: Option<Seq<char>>,
    simulated: bool,
)
    ensures
        ({
            let o = parallel_outcome(
                results,
                total,
                success_count,
                failure_count,
                status,
                jump_to_node,
                simulated,
            );
            &&& o.status == status
            &&& o.jump_to_node == jump_to_node
            &&& o.context_updates.dom() == set!["parallel.results"@, "parallel.branch_count"@]
            &&& o.context_updates["parallel.results"@] == results_json(results)
            &&& o.context_updates["parallel.branch_count"@] == JsonView::Number(decimal(total))
            &&& status is Failed <==> o.failure is Some
            &&& o.failure matches Some(f) ==> f.category == FailureCategory::Deterministic
                && f.message == "All parallel branches failed"@
            &&& o.preferred_label is None && o.suggested_next_ids.len() == 0
            &&& o.usage is None && o.files_touched.len() == 0
            &&& !simulated ==> o.notes == Some(
                "Parallel node dispatched "@ + decimal(total) + " branches ("@ + decimal(
                    success_count,
                ) + " succeeded, "@ + decimal(failure_count) + " failed)"@,
            )
            &&& simulated ==> (o.notes matches Some(notes) && "[Simulated] "@.is_prefix_of(notes))
        }),
{
    reveal_strlit("parallel.results");
    reveal_strlit("parallel.branch_count");
    assert("parallel.results"@.len() == 16);
    assert("parallel.branch_count"@.len() == 21);
    let o = parallel_outcome(
        results,
        total,
        success_count,
        failure_count,
        status,
        jump_to_node,
        simulated,
    );
    assert(o.context_updates.dom() =~= set!["parallel.results"@, "parallel.branch_count"@]);
    assert(Seq::<char>::empty() + "Parallel node dispatched "@ =~= "Parallel node dispatched "@);
}

/// A branch that reported its own end stands as it did; any other stands as a
/// failure that says why and asks for no other attempt.
pub proof fn lemma_lost_branches_are_failures(task: JoinedTask, place: PlaceView)
    ensures
        task matches JoinedTask::Finished(b) ==> joined_branch(task, place) == b@,
        !(task is Finished) ==> {
            let b = joined_branch(task, place);
            &&& b.outcome.status == (StageOutcome::Failed { retry_requested: false })
            &&& b.outcome.failure matches Some(f) && match task {
                JoinedTask::Finished(_) => true,
                JoinedTask::Cancelled { category } => f.message == "branch cancelled"@
                    && f.category == category,
                JoinedTask::Failed { reason, category } => f.message == reason@ && f.category
                    == category,
                JoinedTask::Lost { reason, category } => f.message == "task join error: "@ + reason@
                    && f.category == category,
            }
        },
{
}

} // verus!
