//! The events that a run sends.
use crate::error::{ExecOutputTail, TailView};
use crate::json::{Json, JsonView};
use crate::outcome::{
    FailureDetail, FailureView, ModelUsage, Outcome, OutcomeView, StageTiming, SystemActorKind,
    UsageView,
};
use crate::stage_id::{StageId, StageIdView};
use crate::table::{Duplicate, Table};
use vstd::prelude::*;

verus! {

/// The stage execution that an event belongs to.
#[derive(Debug, PartialEq)]
pub struct StageScope {
    pub node_id: String,
    pub visit: u32,
    pub parallel_group_id: Option<String>,
    pub parallel_branch_id: Option<String>,
}

pub struct StageScopeView {
    pub node_id: Seq<char>,
    pub visit: u32,
    pub parallel_group_id: Option<Seq<char>>,
    pub parallel_branch_id: Option<Seq<char>>,
}

impl View for StageScope {
    type V = StageScopeView;

    open spec fn view(&self) -> StageScopeView {
        StageScopeView {
            node_id: self.node_id@,
            visit: self.visit,
            parallel_group_id: self.parallel_group_id.deep_view(),
            parallel_branch_id: self.parallel_branch_id.deep_view(),
        }
    }
}

impl DeepView for StageScope {
    type V = StageScopeView;

    open spec fn deep_view(&self) -> StageScopeView {
        self@
    }
}

impl Duplicate for StageScope {
    fn duplicate(&self) -> (r: Self) {
        StageScope {
            node_id: self.node_id.clone(),
            visit: self.visit,
            parallel_group_id: self.parallel_group_id.duplicate(),
            parallel_branch_id: self.parallel_branch_id.duplicate(),
        }
    }
}

/// A run starts again from an earlier node.
#[derive(Debug, PartialEq)]
pub struct LoopRestart {
    pub from_node: String,
    pub to_node: String,
}

pub struct LoopRestartView {
    pub from_node: Seq<char>,
    pub to_node: Seq<char>,
}

impl View for LoopRestart {
    type V = LoopRestartView;

    open spec fn view(&self) -> LoopRestartView {
        LoopRestartView {
            from_node: self.from_node@,
            to_node: self.to_node@,
        }
    }
}

impl DeepView for LoopRestart {
    type V = LoopRestartView;

    open spec fn deep_view(&self) -> LoopRestartView {
        self@
    }
}

/// A run starts.
#[derive(Debug, PartialEq)]
pub struct RunStarted {
    pub name: String,
    pub run_id: String,
    pub base_branch: Option<String>,
    pub base_sha: Option<String>,
    pub run_branch: Option<String>,
    pub worktree_dir: Option<String>,
    pub goal: Option<String>,
}

pub struct RunStartedView {
    pub name: Seq<char>,
    pub run_id: Seq<char>,
    pub base_branch: Option<Seq<char>>,
    pub base_sha: Option<Seq<char>>,
    pub run_branch: Option<Seq<char>>,
    pub worktree_dir: Option<Seq<char>>,
    pub goal: Option<Seq<char>>,
}

impl View for RunStarted {
    type V = RunStartedView;

    open spec fn view(&self) -> RunStartedView {
        RunStartedView {
            name: self.name@,
            run_id: self.run_id@,
            base_branch: self.base_branch.deep_view(),
            base_sha: self.base_sha.deep_view(),
            run_branch: self.run_branch.deep_view(),
            worktree_dir: self.worktree_dir.deep_view(),
            goal: self.goal.deep_view(),
        }
    }
}

impl DeepView for RunStarted {
    type V = RunStartedView;

    open spec fn deep_view(&self) -> RunStartedView {
        self@
    }
}

impl Duplicate for RunStarted {
    fn duplicate(&self) -> (r: Self) {
        RunStarted {
            name: self.name.clone(),
            run_id: self.run_id.clone(),
            base_branch: self.base_branch.duplicate(),
            base_sha: self.base_sha.duplicate(),
            run_branch: self.run_branch.duplicate(),
            worktree_dir: self.worktree_dir.duplicate(),
            goal: self.goal.duplicate(),
        }
    }
}

/// An attempt at a stage starts.
#[derive(Debug, PartialEq)]
pub struct StageStarted {
    pub node_id: String,
    pub name: String,
    pub index: usize,
    pub handler_type: String,
    pub attempt: usize,
    pub max_attempts: usize,
    pub graph_visit: Option<u32>,
    pub resumed_from_stage_id: Option<StageId>,
}

pub struct StageStartedView {
    pub node_id: Seq<char>,
    pub name: Seq<char>,
    pub index: usize,
    pub handler_type: Seq<char>,
    pub attempt: usize,
    pub max_attempts: usize,
    pub graph_visit: Option<u32>,
    pub resumed_from_stage_id: Option<StageIdView>,
}

impl View for StageStarted {
    type V = StageStartedView;

    open spec fn view(&self) -> StageStartedView {
        StageStartedView {
            node_id: self.node_id@,
            name: self.name@,
            index: self.index,
            handler_type: self.handler_type@,
            attempt: self.attempt,
            max_attempts: self.max_attempts,
            graph_visit: self.graph_visit,
            resumed_from_stage_id: self.resumed_from_stage_id.deep_view(),
        }
    }
}

impl DeepView for StageStarted {
    type V = StageStartedView;

    open spec fn deep_view(&self) -> StageStartedView {
        self@
    }
}

/// A stage ended without a failure.
#[derive(Debug, PartialEq)]
pub struct StageCompleted {
    pub node_id: String,
    pub name: String,
    pub index: usize,
    pub timing: StageTiming,
    pub status: String,
    pub preferred_label: Option<String>,
    pub suggested_next_ids: Vec<String>,
    pub billing: Option<ModelUsage>,
    pub failure: Option<FailureDetail>,
    pub notes: Option<String>,
    pub files_touched: Vec<String>,
    pub context_updates: Option<Table<Json>>,
    pub jump_to_node: Option<String>,
    pub context_values: Option<Table<Json>>,
    pub node_visits: Option<Table<usize>>,
    pub loop_failure_signatures: Option<Table<usize>>,
    pub restart_failure_signatures: Option<Table<usize>>,
    pub response: Option<String>,
    pub attempt: usize,
    pub max_attempts: usize,
}

pub struct StageCompletedView {
    pub node_id: Seq<char>,
    pub name: Seq<char>,
    pub index: usize,
    pub timing: StageTiming,
    pub status: Seq<char>,
    pub preferred_label: Option<Seq<char>>,
    pub suggested_next_ids: Seq<Seq<char>>,
    pub billing: Option<UsageView>,
    pub failure: Option<FailureView>,
    pub notes: Option<Seq<char>>,
    pub files_touched: Seq<Seq<char>>,
    pub context_updates: Option<Map<Seq<char>, JsonView>>,
    pub jump_to_node: Option<Seq<char>>,
    pub context_values: Option<Map<Seq<char>, JsonView>>,
    pub node_visits: Option<Map<Seq<char>, usize>>,
    pub loop_failure_signatures: Option<Map<Seq<char>, usize>>,
    pub restart_failure_signatures: Option<Map<Seq<char>, usize>>,
    pub response: Option<Seq<char>>,
    pub attempt: usize,
    pub max_attempts: usize,
}

impl View for StageCompleted {
    type V = StageCompletedView;

    open spec fn view(&self) -> StageCompletedView {
        StageCompletedView {
            node_id: self.node_id@,
            name: self.name@,
            index: self.index,
            timing: self.timing,
            status: self.status@,
            preferred_label: self.preferred_label.deep_view(),
            suggested_next_ids: self.suggested_next_ids.deep_view(),
            billing: self.billing.deep_view(),
            failure: self.failure.deep_view(),
            notes: self.notes.deep_view(),
            files_touched: self.files_touched.deep_view(),
            context_updates: self.context_updates.deep_view(),
            jump_to_node: self.jump_to_node.deep_view(),
            context_values: self.context_values.deep_view(),
            node_visits: self.node_visits.deep_view(),
            loop_failure_signatures: self.loop_failure_signatures.deep_view(),
            restart_failure_signatures: self.restart_failure_signatures.deep_view(),
            response: self.response.deep_view(),
            attempt: self.attempt,
            max_attempts: self.max_attempts,
        }
    }
}

impl DeepView for StageCompleted {
    type V = StageCompletedView;

    open spec fn deep_view(&self) -> StageCompletedView {
        self@
    }
}

/// An attempt at a stage failed.
#[derive(Debug, PartialEq)]
pub struct StageFailed {
    pub node_id: String,
    pub name: String,
    pub index: usize,
    pub failure: FailureDetail,
    pub will_retry: bool,
    pub timing: StageTiming,
    pub billing: Option<ModelUsage>,
    /// The part of the engine that made the stage fail.
    pub actor: Option<SystemActorKind>,
}

pub struct StageFailedView {
    pub node_id: Seq<char>,
    pub name: Seq<char>,
    pub index: usize,
    pub failure: FailureView,
    pub will_retry: bool,
    pub timing: StageTiming,
    pub billing: Option<UsageView>,
    pub actor: Option<SystemActorKind>,
}

impl View for StageFailed {
    type V = StageFailedView;

    open spec fn view(&self) -> StageFailedView {
        StageFailedView {
            node_id: self.node_id@,
            name: self.name@,
            index: self.index,
            failure: self.failure.deep_view(),
            will_retry: self.will_retry,
            timing: self.timing,
            billing: self.billing.deep_view(),
            actor: self.actor,
        }
    }
}

impl DeepView for StageFailed {
    type V = StageFailedView;

    open spec fn deep_view(&self) -> StageFailedView {
        self@
    }
}

/// A stage will be tried again.
#[derive(Debug, PartialEq)]
pub struct StageRetrying {
    pub node_id: String,
    pub name: String,
    pub index: usize,
    pub attempt: usize,
    pub max_attempts: usize,
    pub delay_ms: u64,
}

pub struct StageRetryingView {
    pub node_id: Seq<char>,
    pub name: Seq<char>,
    pub index: usize,
    pub attempt: usize,
    pub max_attempts: usize,
    pub delay_ms: u64,
}

impl View for StageRetrying {
    type V = StageRetryingView;

    open spec fn view(&self) -> StageRetryingView {
        StageRetryingView {
            node_id: self.node_id@,
            name: self.name@,
            index: self.index,
            attempt: self.attempt,
            max_attempts: self.max_attempts,
            delay_ms: self.delay_ms,
        }
    }
}

impl DeepView for StageRetrying {
    type V = StageRetryingView;

    open spec fn deep_view(&self) -> StageRetryingView {
        self@
    }
}

/// An edge was chosen.
#[derive(Debug, PartialEq)]
pub struct EdgeSelected {
    pub from_node: String,
    pub to_node: String,
    pub label: Option<String>,
    pub condition: Option<String>,
    pub reason: String,
    pub preferred_label: Option<String>,
    pub suggested_next_ids: Vec<String>,
    pub stage_status: String,
    pub is_jump: bool,
}

pub struct EdgeSelectedView {
    pub from_node: Seq<char>,
    pub to_node: Seq<char>,
    pub label: Option<Seq<char>>,
    pub condition: Option<Seq<char>>,
    pub reason: Seq<char>,
    pub preferred_label: Option<Seq<char>>,
    pub suggested_next_ids: Seq<Seq<char>>,
    pub stage_status: Seq<char>,
    pub is_jump: bool,
}

impl View for EdgeSelected {
    type V = EdgeSelectedView;

    open spec fn view(&self) -> EdgeSelectedView {
        EdgeSelectedView {
            from_node: self.from_node@,
            to_node: self.to_node@,
            label: self.label.deep_view(),
            condition: self.condition.deep_view(),
            reason: self.reason@,
            preferred_label: self.preferred_label.deep_view(),
            suggested_next_ids: self.suggested_next_ids.deep_view(),
            stage_status: self.stage_status@,
            is_jump: self.is_jump,
        }
    }
}

impl DeepView for EdgeSelected {
    type V = EdgeSelectedView;

    open spec fn deep_view(&self) -> EdgeSelectedView {
        self@
    }
}

/// The size of a change.
#[derive(Clone, Copy, Debug, PartialEq, Eq, Structural)]
pub struct DiffSummary {
    pub files_changed: u64,
    pub additions: u64,
    pub deletions: u64,
}

/// The state of a run was saved.
#[derive(Debug, PartialEq)]
pub struct CheckpointCompleted {
    pub node_id: String,
    pub status: String,
    pub current_node: String,
    pub completed_nodes: Vec<String>,
    pub node_retries: Table<u32>,
    pub context_values: Table<Json>,
    pub node_outcomes: Table<Outcome>,
    pub next_node_id: Option<String>,
    pub git_commit_sha: Option<String>,
    pub loop_failure_signatures: Table<usize>,
    pub restart_failure_signatures: Table<usize>,
    pub node_visits: Table<usize>,
    pub diff: Option<String>,
    pub diff_summary: Option<DiffSummary>,
    pub graph_visit: Option<u32>,
    pub resumed_from_stage_id: Option<StageId>,
}

pub struct CheckpointCompletedView {
    pub node_id: Seq<char>,
    pub status: Seq<char>,
    pub current_node: Seq<char>,
    pub completed_nodes: Seq<Seq<char>>,
    pub node_retries: Map<Seq<char>, u32>,
    pub context_values: Map<Seq<char>, JsonView>,
    pub node_outcomes: Map<Seq<char>, OutcomeView>,
    pub next_node_id: Option<Seq<char>>,
    pub git_commit_sha: Option<Seq<char>>,
    pub loop_failure_signatures: Map<Seq<char>, usize>,
    pub restart_failure_signatures: Map<Seq<char>, usize>,
    pub node_visits: Map<Seq<char>, usize>,
    pub diff: Option<Seq<char>>,
    pub diff_summary: Option<DiffSummary>,
    pub graph_visit: Option<u32>,
    pub resumed_from_stage_id: Option<StageIdView>,
}

impl View for CheckpointCompleted {
    type V = CheckpointCompletedView;

    open spec fn view(&self) -> CheckpointCompletedView {
        CheckpointCompletedView {
            node_id: self.node_id@,
            status: self.status@,
            current_node: self.current_node@,
            completed_nodes: self.completed_nodes.deep_view(),
            node_retries: self.node_retries.deep_view(),
            context_values: self.context_values.deep_view(),
            node_outcomes: self.node_outcomes.deep_view(),
            next_node_id: self.next_node_id.deep_view(),
            git_commit_sha: self.git_commit_sha.deep_view(),
            loop_failure_signatures: self.loop_failure_signatures.deep_view(),
            restart_failure_signatures: self.restart_failure_signatures.deep_view(),
            node_visits: self.node_visits.deep_view(),
            diff: self.diff.deep_view(),
            diff_summary: self.diff_summary,
            graph_visit: self.graph_visit,
            resumed_from_stage_id: self.resumed_from_stage_id.deep_view(),
        }
    }
}

impl DeepView for CheckpointCompleted {
    type V = CheckpointCompletedView;

    open spec fn deep_view(&self) -> CheckpointCompletedView {
        self@
    }
}

/// A change was committed.
#[derive(Debug, PartialEq)]
pub struct GitCommit {
    pub node_id: Option<String>,
    pub sha: String,
}

pub struct GitCommitView {
    pub node_id: Option<Seq<char>>,
    pub sha: Seq<char>,
}

impl View for GitCommit {
    type V = GitCommitView;

    open spec fn view(&self) -> GitCommitView {
        GitCommitView {
            node_id: self.node_id.deep_view(),
            sha: self.sha@,
        }
    }
}

impl DeepView for GitCommit {
    type V = GitCommitView;

    open spec fn deep_view(&self) -> GitCommitView {
        self@
    }
}

/// A branch was pushed, or could not be.
#[derive(Debug, PartialEq)]
pub struct GitPush {
    pub branch: String,
    pub success: bool,
    pub exec_output_tail: Option<ExecOutputTail>,
}

pub struct GitPushView {
    pub branch: Seq<char>,
    pub success: bool,
    pub exec_output_tail: Option<TailView>,
}

impl View for GitPush {
    type V = GitPushView;

    open spec fn view(&self) -> GitPushView {
        GitPushView {
            branch: self.branch@,
            success: self.success,
            exec_output_tail: self.exec_output_tail.deep_view(),
        }
    }
}

impl DeepView for GitPush {
    type V = GitPushView;

    open spec fn deep_view(&self) -> GitPushView {
        self@
    }
}

/// A file was kept.
#[derive(Debug, PartialEq)]
pub struct ArtifactCaptured {
    pub node_id: String,
    pub attempt: u32,
    pub node_slug: String,
    pub path: String,
    pub mime: String,
    pub content_md5: String,
    pub content_sha256: String,
    pub bytes: u64,
}

pub struct ArtifactCapturedView {
    pub node_id: Seq<char>,
    pub attempt: u32,
    pub node_slug: Seq<char>,
    pub path: Seq<char>,
    pub mime: Seq<char>,
    pub content_md5: Seq<char>,
    pub content_sha256: Seq<char>,
    pub bytes: u64,
}

impl View for ArtifactCaptured {
    type V = ArtifactCapturedView;

    open spec fn view(&self) -> ArtifactCapturedView {
        ArtifactCapturedView {
            node_id: self.node_id@,
            attempt: self.attempt,
            node_slug: self.node_slug@,
            path: self.path@,
            mime: self.mime@,
            content_md5: self.content_md5@,
            content_sha256: self.content_sha256@,
            bytes: self.bytes,
        }
    }
}

impl DeepView for ArtifactCaptured {
    type V = ArtifactCapturedView;

    open spec fn deep_view(&self) -> ArtifactCapturedView {
        self@
    }
}

/// What a notice is about.
#[derive(Clone, Copy, Debug, PartialEq, Eq, Structural)]
pub enum RunNoticeCode {
    ArtifactCollectionFailed,
    ArtifactUploadFailed,
    ArtifactOffloadFailed,
    ArtifactSyncFailed,
}

/// How much a notice matters.
#[derive(Clone, Copy, Debug, PartialEq, Eq, Structural)]
pub enum RunNoticeLevel {
    Info,
    Warn,
}

/// A notice to whoever watches the run.
#[derive(Debug, PartialEq)]
pub struct RunNotice {
    pub level: RunNoticeLevel,
    pub code: RunNoticeCode,
    pub message: String,
}

pub struct RunNoticeView {
    pub level: RunNoticeLevel,
    pub code: RunNoticeCode,
    pub message: Seq<char>,
}

impl View for RunNotice {
    type V = RunNoticeView;

    open spec fn view(&self) -> RunNoticeView {
        RunNoticeView {
            level: self.level,
            code: self.code,
            message: self.message@,
        }
    }
}

impl DeepView for RunNotice {
    type V = RunNoticeView;

    open spec fn deep_view(&self) -> RunNoticeView {
        self@
    }
}

/// An event of a run.
#[derive(Debug, PartialEq)]
pub enum Event {
    LoopRestart(LoopRestart),
    RunStarted(RunStarted),
    RunRunning,
    StageStarted(StageStarted),
    StageCompleted(StageCompleted),
    StageFailed(StageFailed),
    StageRetrying(StageRetrying),
    EdgeSelected(EdgeSelected),
    CheckpointCompleted(CheckpointCompleted),
    GitCommit(GitCommit),
    GitPush(GitPush),
    ArtifactCaptured(ArtifactCaptured),
    RunNotice(RunNotice),
}

pub enum EventView {
    LoopRestart(LoopRestartView),
    RunStarted(RunStartedView),
    RunRunning,
    StageStarted(StageStartedView),
    StageCompleted(StageCompletedView),
    StageFailed(StageFailedView),
    StageRetrying(StageRetryingView),
    EdgeSelected(EdgeSelectedView),
    CheckpointCompleted(CheckpointCompletedView),
    GitCommit(GitCommitView),
    GitPush(GitPushView),
    ArtifactCaptured(ArtifactCapturedView),
    RunNotice(RunNoticeView),
}

impl View for Event {
    type V = EventView;

    open spec fn view(&self) -> EventView {
        match self {
            Event::LoopRestart(e) => EventView::LoopRestart(e@),
            Event::RunStarted(e) => EventView::RunStarted(e@),
            Event::RunRunning => EventView::RunRunning,
            Event::StageStarted(e) => EventView::StageStarted(e@),
            Event::StageCompleted(e) => EventView::StageCompleted(e@),
            Event::StageFailed(e) => EventView::StageFailed(e@),
            Event::StageRetrying(e) => EventView::StageRetrying(e@),
            Event::EdgeSelected(e) => EventView::EdgeSelected(e@),
            Event::CheckpointCompleted(e) => EventView::CheckpointCompleted(e@),
            Event::GitCommit(e) => EventView::GitCommit(e@),
            Event::GitPush(e) => EventView::GitPush(e@),
            Event::ArtifactCaptured(e) => EventView::ArtifactCaptured(e@),
            Event::RunNotice(e) => EventView::RunNotice(e@),
        }
    }
}

impl DeepView for Event {
    type V = EventView;

    open spec fn deep_view(&self) -> EventView {
        self@
    }
}

/// An event, and the stage execution that it belongs to.
#[derive(Debug, PartialEq)]
pub struct Emission {
    pub event: Event,
    pub scope: Option<StageScope>,
}

pub struct EmissionView {
    pub event: EventView,
    pub scope: Option<StageScopeView>,
}

impl View for Emission {
    type V = EmissionView;

    open spec fn view(&self) -> EmissionView {
        EmissionView {
            event: self.event.deep_view(),
            scope: self.scope.deep_view(),
        }
    }
}

impl DeepView for Emission {
    type V = EmissionView;

    open spec fn deep_view(&self) -> EmissionView {
        self@
    }
}

/// An event of a stage execution.
pub open spec fn scoped(event: EventView, scope: StageScopeView) -> EmissionView {
    EmissionView { event, scope: Some(scope) }
}

/// An event of the run as a whole.
pub open spec fn unscoped(event: EventView) -> EmissionView {
    EmissionView { event, scope: None }
}

/// Adds an event to those to send.
pub fn push_emission(sent: &mut Vec<Emission>, event: Event, scope: Option<StageScope>)
    ensures
        final(sent).deep_view() == old(sent).deep_view().push(
            EmissionView { event: event@, scope: scope.deep_view() },
        ),
{
    let emission = Emission { event, scope };
    let ghost had = sent.deep_view();
    sent.push(emission);
    assert(sent.deep_view() =~= had.push(emission@));
}

} // verus!
