use fabro_workflow::context::Context;
use fabro_workflow::graph::{AttrValue, Edge, Graph, Node};
use fabro_workflow::hook_context::{set_hook_node, HookContext, HookEvent};
use fabro_workflow::json::Json;
use fabro_workflow::keys;
use fabro_workflow::lifecycle::artifact::{
    artifact_notice, collection_problem_notice, ledger_error, node_slug, ArtifactCollectionSummary,
    ArtifactLifecycle, ArtifactUpload, UploadTries, NO_SINK,
    StoredEvent,
};
use fabro_workflow::lifecycle::auto_status::{AutoStatusLifecycle, AUTO_STATUS_NOTE};
use fabro_workflow::lifecycle::callbacks::{order_of, Callback, Part};
use fabro_workflow::lifecycle::event::{
    after_attempt, after_node, before_attempt, checkpoint_outcomes, on_terminal_reached,
    response_from_outcome, snapshot_failure_signatures, stage_context_values, Durable, Selection,
};
use fabro_workflow::lifecycle::events::{Event, RunNoticeCode, RunNoticeLevel, StageScope};
use fabro_workflow::lifecycle::hook::{
    after_edge_selected, after_run_start, after_stage_start, run_hook, Blocked, EdgeDecision,
    HookDecision, HookLifecycle, NodeDecision,
};
use fabro_workflow::lifecycle::state::{
    stage_visit, FailureSignatures, GitCheckpointResult, NodeResult, PushResult, RunState,
    StageExecution,
};
use fabro_workflow::lifecycle::workflow::{
    activation_error, after_edge_hook, after_record, note_execution, Activation,
    ClassifiedFailure, EdgeStep, GitOptions, RunOptions, WorkflowLifecycle,
};
use fabro_workflow::outcome::{
    FailureCategory, Outcome, StageOutcome, StageTiming, SystemActorKind,
};
use fabro_workflow::stage_id::StageId;
use fabro_workflow::table::{Duplicate, Table};

fn text(value: &str) -> AttrValue {
    AttrValue::String(value.to_string())
}

fn state() -> RunState {
    RunState {
        context: Table::new(),
        node_outcomes: Table::new(),
        completed_nodes: vec!["start".to_string()],
        node_retries: Table::new(),
        node_visits: Table::new(),
        stage_index: 4,
        previous_node_id: None,
        cancelled: false,
    }
}

fn signatures() -> FailureSignatures {
    FailureSignatures {
        loop_signatures: Table::new(),
        restart_signatures: Table::new(),
    }
}

fn execution(visit: u32) -> StageExecution {
    StageExecution {
        stage_id: StageId::new("work", visit),
        graph_visit: 2,
        resumed_from: Some(StageId::new("work", 1)),
    }
}

fn result(outcome: Outcome) -> NodeResult {
    NodeResult {
        outcome,
        wall_time: 5_999_999,
        inference_time: 2_000_000,
        tool_time: 1_000_000,
        attempts: 2,
        max_attempts: 3,
    }
}

/// The keys whose values are not kept.
fn transient() -> Vec<String> {
    [
        keys::CURRENT_PREAMBLE,
        keys::INTERNAL_PARALLEL_BRANCH_PREAMBLES,
        keys::INTERNAL_STAGE_EXECUTION_ORDINAL,
    ]
    .map(str::to_string)
    .to_vec()
}

// --- events ---

#[test]
fn stage_context_values_drops_runtime_keys_but_keeps_current_preamble() {
    let mut context: Context = Table::new();
    context.insert(
        keys::INTERNAL_PARALLEL_BRANCH_PREAMBLES.to_string(),
        Json::parse(r#"[{"fidelity": "summary:high", "preamble": "runtime only"}]"#).unwrap(),
    );
    context.insert(
        keys::INTERNAL_STAGE_EXECUTION_ORDINAL.to_string(),
        Json::from_u64(2),
    );
    context.insert(
        keys::CURRENT_PREAMBLE.to_string(),
        Json::from_str("active preamble"),
    );
    context.insert("response.work".to_string(), Json::from_str("durable"));

    let values =
        stage_context_values(&context, &transient()).expect("snapshot should not be empty");

    assert!(!values.contains_key(keys::INTERNAL_PARALLEL_BRANCH_PREAMBLES));
    assert!(!values.contains_key(keys::INTERNAL_STAGE_EXECUTION_ORDINAL));
    assert_eq!(
        values.get(keys::CURRENT_PREAMBLE),
        Some(&Json::from_str("active preamble"))
    );
    assert_eq!(values.get("response.work"), Some(&Json::from_str("durable")));
}

#[test]
fn empty_snapshots_are_left_out() {
    let mut context: Context = Table::new();
    assert_eq!(stage_context_values(&context, &transient()), None);
    context.insert(
        keys::INTERNAL_STAGE_EXECUTION_ORDINAL.to_string(),
        Json::from_u64(2),
    );
    assert_eq!(stage_context_values(&context, &transient()), None);

    let mut counted = signatures();
    assert_eq!(snapshot_failure_signatures(&counted), (None, None));
    counted.loop_signatures.insert("sig".to_string(), 2);
    let (loops, restarts) = snapshot_failure_signatures(&counted);
    assert_eq!(loops.unwrap().get("sig"), Some(&2));
    assert_eq!(restarts, None);
}

#[test]
fn response_is_read_from_its_own_key() {
    let mut outcome = Outcome::success();
    assert_eq!(response_from_outcome("work", &outcome), None);
    outcome
        .context_updates
        .insert("response.work".to_string(), Json::from_str("done"));
    assert_eq!(
        response_from_outcome("work", &outcome),
        Some("done".to_string())
    );
    assert_eq!(response_from_outcome("other", &outcome), None);
    outcome
        .context_updates
        .insert("response.work".to_string(), Json::from_u64(1));
    assert_eq!(response_from_outcome("work", &outcome), None);
}

#[test]
fn visits_are_counted_up_to_their_limit() {
    let mut visits: Table<usize> = Table::new();
    assert_eq!(stage_visit(&visits, "work"), 1);
    visits.insert("work".to_string(), 3);
    assert_eq!(stage_visit(&visits, "work"), 3);
    visits.insert("work".to_string(), u32::MAX as usize + 1);
    assert_eq!(stage_visit(&visits, "work"), u32::MAX);
}

#[test]
fn attempts_start_in_their_execution() {
    let mut state = state();
    state.context.insert(
        keys::INTERNAL_PARALLEL_GROUP_ID.to_string(),
        Json::from_str("par@1"),
    );
    let sent = before_attempt(&Node::new("work"), Some(&execution(7)), &state, 1, 3);
    assert_eq!(sent.len(), 1);
    let scope = sent[0].scope.as_ref().unwrap();
    assert_eq!((scope.node_id.as_str(), scope.visit), ("work", 7));
    assert_eq!(scope.parallel_group_id.as_deref(), Some("par@1"));
    match &sent[0].event {
        Event::StageStarted(started) => {
            assert_eq!(started.graph_visit, Some(2));
            assert_eq!(started.resumed_from_stage_id, Some(StageId::new("work", 1)));
            assert_eq!(started.handler_type, "agent");
            assert_eq!((started.attempt, started.max_attempts), (1, 3));
            assert_eq!(started.index, 4);
        }
        other => panic!("unexpected event: {other:?}"),
    }
    let bare = before_attempt(&Node::new("work"), None, &state, 1, 1);
    assert_eq!(bare[0].scope.as_ref().unwrap().visit, 1);
}

#[test]
fn failed_attempts_are_told_only_before_a_retry() {
    let node = Node::new("work");
    let outcome = Outcome::retry("flaky", FailureCategory::TransientInfra);
    let sent = after_attempt(&node, &result(outcome), None, &state(), 1, true, Some(250));
    assert_eq!(sent.len(), 2);
    match (&sent[0].event, &sent[1].event) {
        (Event::StageFailed(failed), Event::StageRetrying(retrying)) => {
            assert!(failed.will_retry);
            assert_eq!(failed.failure.message, "flaky");
            assert_eq!(failed.timing, StageTiming::new(5, 2, 1));
            assert_eq!(retrying.delay_ms, 250);
            assert_eq!((retrying.attempt, retrying.max_attempts), (1, 3));
        }
        other => panic!("unexpected events: {other:?}"),
    }
    let silent = after_attempt(
        &node,
        &result(Outcome::success()),
        None,
        &state(),
        1,
        false,
        None,
    );
    assert!(silent.is_empty());
    let general = after_attempt(
        &node,
        &result(Outcome::bare(StageOutcome::Failed {
            retry_requested: true,
        })),
        None,
        &state(),
        1,
        true,
        None,
    );
    match &general[0].event {
        Event::StageFailed(failed) => {
            assert_eq!(failed.failure.message, "handler failed");
            assert_eq!(failed.failure.category, FailureCategory::TransientInfra);
        }
        other => panic!("unexpected event: {other:?}"),
    }
}

#[test]
fn nodes_end_with_one_event_or_none() {
    let node = Node::new("work");
    let skipped = after_node(
        &node,
        &result(Outcome::skipped("hook")),
        None,
        &state(),
        &signatures(),
        &transient(),
    );
    assert!(skipped.is_empty());

    let mut failed = Outcome::fail_deterministic("broken");
    failed.failure.as_mut().unwrap().system_actor = Some(SystemActorKind::Watchdog);
    let sent = after_node(&node, &result(failed), None, &state(), &signatures(), &transient());
    match &sent[0].event {
        Event::StageFailed(failed) => {
            assert!(!failed.will_retry);
            assert_eq!(failed.actor, Some(SystemActorKind::Watchdog));
        }
        other => panic!("unexpected event: {other:?}"),
    }

    let mut done = Outcome::success();
    done.context_updates
        .insert("response.work".to_string(), Json::from_str("done"));
    let sent = after_node(&node, &result(done), None, &state(), &signatures(), &transient());
    assert_eq!(sent.len(), 1);
    match &sent[0].event {
        Event::StageCompleted(completed) => {
            assert_eq!(completed.status, "succeeded");
            assert_eq!(completed.response.as_deref(), Some("done"));
            assert_eq!((completed.attempt, completed.max_attempts), (2, 3));
            assert_eq!(completed.node_visits, None);
            assert!(completed.context_updates.is_some());
        }
        other => panic!("unexpected event: {other:?}"),
    }
}

#[test]
fn terminal_nodes_are_told_once_the_goals_are_met() {
    let node = Node::new("work");
    assert!(
        on_terminal_reached(&node, false, &execution(1), &state(), &signatures()).is_empty()
    );
    let sent = on_terminal_reached(&node, true, &execution(1), &state(), &signatures());
    assert_eq!(sent.len(), 2);
    assert!(matches!(&sent[0].event, Event::StageStarted(s) if s.attempt == 1));
    assert!(matches!(&sent[1].event, Event::StageCompleted(s) if s.status == "succeeded"));
}

// --- auto status ---

#[test]
fn auto_status_settles_what_was_not_skipped() {
    let mut node = Node::new("work");
    let mut outcome = Outcome::fail_deterministic("broken");
    AutoStatusLifecycle.after_node(&node, &mut outcome);
    assert!(outcome.status.is_failure());
    node.attrs
        .insert("auto_status".to_string(), AttrValue::Boolean(true));
    AutoStatusLifecycle.after_node(&node, &mut outcome);
    assert_eq!(outcome.status, StageOutcome::Succeeded);
    assert_eq!(outcome.notes.as_deref(), Some(AUTO_STATUS_NOTE));
    let mut skipped = Outcome::skipped("hook");
    AutoStatusLifecycle.after_node(&node, &mut skipped);
    assert_eq!(skipped.status, StageOutcome::Skipped);
    assert_eq!(skipped.notes.as_deref(), Some("hook"));
}

// --- hooks ---

#[test]
fn set_hook_node_populates_hook_context_fields() {
    let mut node = Node::new("approve");
    node.attrs.insert("label".to_string(), text("Approve PR"));
    node.attrs.insert("type".to_string(), text("human"));

    let mut ctx = HookContext::new(HookEvent::StageStart, "run-1", "graph");
    set_hook_node(&mut ctx, &node);

    assert_eq!(ctx.node_id.as_deref(), Some("approve"));
    assert_eq!(ctx.node_label.as_deref(), Some("Approve PR"));
    assert_eq!(ctx.handler_type.as_deref(), Some("human"));
}

fn hooks() -> HookLifecycle {
    HookLifecycle {
        run_id: "run-1".to_string(),
        graph_name: "graph".to_string(),
        sandbox_work_dir: Some("/work".to_string()),
    }
}

#[test]
fn hooks_are_told_what_they_run_for() {
    let node = Node::new("work");
    assert_eq!(hooks().run_start().event, HookEvent::RunStart);
    let start = hooks().stage_start(&node, 1, 3);
    assert_eq!(start.cwd.as_deref(), Some("/work"));
    assert_eq!((start.attempt, start.max_attempts), (Some(1), Some(3)));
    assert_eq!(start.node_id.as_deref(), Some("work"));

    assert!(hooks().stage_end(&node, &Outcome::skipped("x")).is_none());
    let failed = hooks()
        .stage_end(&node, &Outcome::fail_deterministic("broken"))
        .unwrap();
    assert_eq!(failed.event, HookEvent::StageFailed);
    assert_eq!(failed.status.as_deref(), Some("failed"));
    assert_eq!(failed.failure_reason.as_deref(), Some("broken"));
    let done = hooks().stage_end(&node, &Outcome::success()).unwrap();
    assert_eq!(done.event, HookEvent::StageComplete);

    let saved = hooks().checkpoint_saved("work");
    assert_eq!(saved.event, HookEvent::CheckpointSaved);
    assert_eq!(saved.node_id.as_deref(), Some("work"));
    assert_eq!(saved.node_label, None);
}

#[test]
fn ended_runs_tell_hooks_unless_cancelled() {
    assert!(hooks().run_end(&Outcome::success(), true).is_none());
    assert_eq!(
        hooks().run_end(&Outcome::success(), false).unwrap().event,
        HookEvent::RunComplete
    );
    let failed = hooks()
        .run_end(&Outcome::fail_deterministic("broken"), false)
        .unwrap();
    assert_eq!(failed.event, HookEvent::RunFailed);
    assert_eq!(failed.failure_reason.as_deref(), Some("broken"));
    let skipped = hooks().run_end(&Outcome::skipped("x"), false).unwrap();
    assert_eq!(skipped.failure_reason.as_deref(), Some("run failed"));
}

#[test]
fn hook_decisions_are_followed() {
    assert_eq!(run_hook(None), HookDecision::Proceed);
    assert_eq!(after_run_start(HookDecision::Proceed), Ok(()));
    assert_eq!(
        after_run_start(HookDecision::Block { reason: None }),
        Err(Blocked {
            message: "blocked by RunStart hook".to_string()
        })
    );
    assert_eq!(
        after_stage_start(HookDecision::Block {
            reason: Some("no".to_string())
        }),
        Err(Blocked {
            message: "no".to_string()
        })
    );
    match after_stage_start(HookDecision::Skip { reason: None }) {
        Ok(NodeDecision::Skip(outcome)) => {
            assert_eq!(outcome.status, StageOutcome::Skipped);
            assert_eq!(outcome.notes.as_deref(), Some("skipped by StageStart hook"));
        }
        other => panic!("unexpected decision: {other:?}"),
    }
    assert_eq!(
        after_stage_start(HookDecision::Proceed),
        Ok(NodeDecision::Continue)
    );
    assert_eq!(
        after_edge_selected(HookDecision::Override {
            edge_to: "other".to_string()
        }),
        Ok(EdgeDecision::Override("other".to_string()))
    );
    assert_eq!(
        after_edge_selected(HookDecision::Block { reason: None }),
        Err(Blocked {
            message: "blocked by EdgeSelected hook".to_string()
        })
    );
    assert_eq!(
        after_edge_selected(HookDecision::Skip { reason: None }),
        Ok(EdgeDecision::Continue)
    );
}

// --- artifacts ---

fn upload(path: &str, sha: &str) -> ArtifactUpload {
    ArtifactUpload {
        path: path.to_string(),
        mime: "text/plain".to_string(),
        content_md5: "md5".to_string(),
        content_sha256: sha.to_string(),
        bytes: 3,
    }
}

fn collected(assets: Vec<ArtifactUpload>) -> ArtifactCollectionSummary {
    ArtifactCollectionSummary {
        captured_assets: assets,
        download_errors: 0,
        hash_errors: 0,
    }
}

fn scope(visit: u32) -> StageScope {
    StageScope {
        node_id: "work".to_string(),
        visit,
        parallel_group_id: None,
        parallel_branch_id: None,
    }
}

#[test]
fn kept_files_are_not_uploaded_again() {
    let mut artifacts = ArtifactLifecycle::new(vec!["**/*.png".to_string()]);
    artifacts.on_run_start(&vec![
        StoredEvent::Other,
        StoredEvent::ArtifactCaptured {
            path: "old.png".to_string(),
            content_sha256: "1".to_string(),
        },
    ]);
    let summary = collected(vec![
        upload("old.png", "1"),
        upload("old.png", "2"),
        upload("new.png", "1"),
    ]);
    let next = artifacts.collected("work", &summary);
    assert!(next.notice.is_none());
    assert_eq!(
        next.uploads,
        vec![upload("old.png", "2"), upload("new.png", "1")]
    );
    let failed = artifacts.uploaded("work", 1, &scope(1), &next.uploads, Some("offline"));
    assert!(matches!(
        &failed[0].event,
        Event::RunNotice(notice)
            if notice.level == RunNoticeLevel::Warn
                && notice.code == RunNoticeCode::ArtifactUploadFailed
                && notice.message == "[node: work] artifact upload failed: offline"
    ));
    assert_eq!(artifacts.collected("work", &summary).uploads.len(), 2);
    let sent = artifacts.uploaded("work", 2, &scope(3), &next.uploads, None);
    assert_eq!(sent.len(), 2);
    match &sent[0].event {
        Event::ArtifactCaptured(captured) => {
            assert_eq!(captured.path, "old.png");
            assert_eq!(captured.node_slug, "work-visit_3");
            assert_eq!(captured.attempt, 2);
        }
        other => panic!("unexpected event: {other:?}"),
    }
    assert!(artifacts.collected("work", &summary).uploads.is_empty());
}

#[test]
fn kept_files_are_known_after_a_restart() {
    let mut artifacts = ArtifactLifecycle::new(vec!["*".to_string()]);
    let files = vec![upload("a.txt", "1"), upload("b.txt", "2")];
    let sent = artifacts.uploaded("work", 1, &scope(1), &files, None);
    let stored: Vec<StoredEvent> = sent
        .iter()
        .map(|emission| match &emission.event {
            Event::ArtifactCaptured(captured) => StoredEvent::ArtifactCaptured {
                path: captured.path.clone(),
                content_sha256: captured.content_sha256.clone(),
            },
            _ => StoredEvent::Other,
        })
        .collect();
    let mut again = ArtifactLifecycle::new(vec!["*".to_string()]);
    again.on_run_start(&stored);
    let summary = collected(vec![upload("b.txt", "2"), upload("b.txt", "3")]);
    assert_eq!(
        again.collected("work", &summary).uploads,
        vec![upload("b.txt", "3")]
    );
}

#[test]
fn files_are_looked_for_from_the_start_of_the_attempt() {
    let mut none = ArtifactLifecycle::new(Vec::new());
    none.before_attempt(10);
    assert_eq!(none.collect_since(), None);
    let mut some = ArtifactLifecycle::new(vec!["*".to_string()]);
    assert_eq!(some.collect_since(), Some(0));
    some.before_attempt(10);
    assert_eq!(some.collect_since(), Some(10));
    some.on_run_start(&Vec::new());
    assert_eq!(some.collect_since(), Some(0));
}

#[test]
fn collection_problems_are_counted() {
    let mut summary = collected(Vec::new());
    assert_eq!(collection_problem_notice("work", &summary), None);
    summary.hash_errors = 1;
    assert_eq!(
        collection_problem_notice("work", &summary).unwrap().message,
        "[node: work] artifact collection completed with 1 hash/read error(s)"
    );
    summary.download_errors = 2;
    assert_eq!(
        collection_problem_notice("work", &summary).unwrap().message,
        "[node: work] artifact collection completed with 2 download error(s), 1 hash/read error(s)"
    );
    let cases = [
        (
            RunNoticeCode::ArtifactCollectionFailed,
            "[node: work] artifact collection failed: e",
        ),
        (
            RunNoticeCode::ArtifactOffloadFailed,
            "[node: work] artifact offload failed: e",
        ),
        (
            RunNoticeCode::ArtifactSyncFailed,
            "[node: work] artifact sync failed: e",
        ),
    ];
    for (code, message) in cases {
        assert_eq!(artifact_notice(code, "work", "e").message, message);
    }
    assert_eq!(
        ledger_error(&vec!["outer".to_string(), "inner".to_string()]),
        "failed to rebuild captured artifact ledger: outer: inner"
    );
    assert_eq!(node_slug("work", 0), "work");
    assert_eq!(node_slug("work", 1), "work");
}

#[test]
fn uploads_are_tried_four_times() {
    assert_eq!(UploadTries::new(false).err(), Some(NO_SINK));
    let mut tries = UploadTries::new(true).ok().unwrap();
    let waits: Vec<Option<u64>> = (0..5).map(|_| tries.failed()).collect();
    assert_eq!(waits, vec![Some(100), Some(250), Some(500), None, None]);
}

// --- the whole run ---

fn options(run_branch: Option<&str>) -> RunOptions {
    RunOptions {
        run_id: "run-1".to_string(),
        base_branch: Some("main".to_string()),
        git: Some(GitOptions {
            base_sha: Some("abc".to_string()),
            run_branch: run_branch.map(|b| b.to_string()),
        }),
        artifact_globs: vec!["*.log".to_string()],
    }
}

fn graph() -> Graph {
    let mut graph = Graph::new("deploy");
    graph.attrs.insert("goal".to_string(), text("Ship"));
    graph
        .attrs
        .insert("retries".to_string(), AttrValue::Integer(2));
    graph
}

#[test]
fn runs_start_with_their_configuration() {
    let mut lifecycle =
        WorkflowLifecycle::new(&graph(), &options(Some("fabro/run-1")), Some("/work"), false);
    let sent = lifecycle.event.on_run_start();
    assert_eq!(sent.len(), 2);
    match &sent[0].event {
        Event::RunStarted(run) => {
            assert_eq!(run.name, "deploy");
            assert_eq!(run.goal.as_deref(), Some("Ship"));
            assert_eq!(run.base_sha.as_deref(), Some("abc"));
            assert_eq!(run.worktree_dir.as_deref(), Some("/work"));
        }
        other => panic!("unexpected event: {other:?}"),
    }
    assert!(matches!(sent[1].event, Event::RunRunning));
    let without = WorkflowLifecycle::new(&graph(), &options(None), Some("/work"), false);
    assert_eq!(without.sandbox_work_dir, None);
    assert_eq!(without.hook.sandbox_work_dir.as_deref(), Some("/work"));
}

#[test]
fn contexts_are_seeded_once_and_again_alike() {
    let graph = graph();
    let mut lifecycle =
        WorkflowLifecycle::new(&graph, &options(Some("b")), Some("/work"), false);
    let mut context: Context = Table::new();
    lifecycle.begin_run(&graph, &mut context);
    assert_eq!(
        context.get(keys::GRAPH_GOAL),
        Some(&Json::from_str("Ship"))
    );
    assert_eq!(context.get("graph.retries"), Some(&Json::from_str("2")));
    assert_eq!(
        context.get(keys::INTERNAL_RUN_ID),
        Some(&Json::from_str("run-1"))
    );
    assert_eq!(
        context.get(keys::INTERNAL_WORK_DIR),
        Some(&Json::from_str("/work"))
    );
    let once = context.duplicate();
    lifecycle.begin_run(&graph, &mut context);
    assert_eq!(context, once);
}

#[test]
fn resumed_runs_keep_their_graph_values_once() {
    let graph = graph();
    let mut lifecycle = WorkflowLifecycle::new(&graph, &options(None), None, true);
    let mut context: Context = Table::new();
    context.insert(keys::GRAPH_GOAL.to_string(), Json::from_str("Old goal"));
    lifecycle.begin_run(&graph, &mut context);
    assert_eq!(
        context.get(keys::GRAPH_GOAL),
        Some(&Json::from_str("Old goal"))
    );
    assert!(!context.contains_key("graph.retries"));
    lifecycle.begin_run(&graph, &mut context);
    assert_eq!(
        context.get(keys::GRAPH_GOAL),
        Some(&Json::from_str("Ship"))
    );
}

#[test]
fn nodes_begin_without_an_execution() {
    let graph = graph();
    let mut lifecycle = WorkflowLifecycle::new(&graph, &options(None), None, false);
    lifecycle.set_degrade_fidelity_on_resume(true);
    let mut context: Context = Table::new();
    note_execution(&mut context, 3);
    assert_eq!(
        context.get(keys::INTERNAL_STAGE_EXECUTION_ORDINAL),
        Some(&Json::from_u64(3))
    );
    let mut node = Node::new("work");
    node.attrs.insert("fidelity".to_string(), text("full"));
    let entry = lifecycle.begin_node(&node, &graph, &mut context);
    assert_eq!(entry.fidelity, keys::Fidelity::SummaryHigh);
    assert_eq!(
        context.get(keys::INTERNAL_STAGE_EXECUTION_ORDINAL),
        Some(&Json::Null)
    );
    assert_eq!(
        activation_error(Activation::BeforeNode, "work"),
        "failed to activate sandbox before node work"
    );
    assert_eq!(
        activation_error(Activation::AfterAttempt, "work"),
        "failed to activate sandbox after node attempt work"
    );
}

#[test]
fn recorded_outcomes_are_put_in_the_context() {
    let mut context: Context = Table::new();
    let mut retries: Table<u32> = Table::new();
    retries.insert("work".to_string(), 2);
    let mut outcome = Outcome::fail_deterministic("broken");
    outcome.preferred_label = Some("fix".to_string());
    after_record(
        &mut context,
        "work",
        &retries,
        &outcome,
        Some(ClassifiedFailure {
            category: FailureCategory::Deterministic,
            signature: "work|broken".to_string(),
        }),
    );
    assert_eq!(
        context.get("internal.retry_count.work"),
        Some(&Json::from_u64(2))
    );
    assert_eq!(context.get(keys::OUTCOME), Some(&Json::from_str("failed")));
    assert_eq!(
        context.get(keys::FAILURE_CLASS),
        Some(&Json::from_str("deterministic"))
    );
    assert_eq!(
        context.get(keys::FAILURE_SIGNATURE),
        Some(&Json::from_str("work|broken"))
    );
    assert_eq!(
        context.get(keys::PREFERRED_LABEL),
        Some(&Json::from_str("fix"))
    );
    after_record(&mut context, "next", &retries, &Outcome::success(), None);
    assert_eq!(
        context.get("internal.retry_count.next"),
        Some(&Json::from_u64(0))
    );
    assert_eq!(context.get(keys::FAILURE_CLASS), Some(&Json::from_str("")));
    assert_eq!(
        context.get(keys::FAILURE_SIGNATURE),
        Some(&Json::from_str(""))
    );
}

fn selection(restart: bool) -> Selection {
    let mut edge = Edge::new("check", "plan");
    edge.attrs.insert("label".to_string(), text("again"));
    edge.attrs
        .insert("condition".to_string(), text("outcome=failed"));
    edge.attrs
        .insert("loop_restart".to_string(), AttrValue::Boolean(restart));
    Selection {
        from: "check".to_string(),
        to: "plan".to_string(),
        edge: Some(edge),
        reason: "condition".to_string(),
        is_jump: false,
    }
}

#[test]
fn chosen_edges_are_told_and_restarts_kept() {
    let graph = graph();
    let mut lifecycle = WorkflowLifecycle::new(&graph, &options(None), None, false);
    let sent = lifecycle.select_edge(&selection(true), &Outcome::success());
    match &sent[0].event {
        Event::EdgeSelected(edge) => {
            assert_eq!(edge.label.as_deref(), Some("again"));
            assert_eq!(edge.condition.as_deref(), Some("outcome=failed"));
            assert_eq!(edge.stage_status, "succeeded");
        }
        other => panic!("unexpected event: {other:?}"),
    }
    assert_eq!(
        after_edge_hook(EdgeDecision::Override("other".to_string())),
        EdgeStep::Decided(EdgeDecision::Override("other".to_string()))
    );
    assert_eq!(
        after_edge_hook(EdgeDecision::Continue),
        EdgeStep::AskBreaker
    );
    assert_eq!(
        lifecycle.settle_edge(
            &selection(true),
            EdgeDecision::Block("loop".to_string())
        ),
        EdgeDecision::Block("loop".to_string())
    );
    assert_eq!(lifecycle.event.restarted_from, None);
    lifecycle.settle_edge(&selection(true), EdgeDecision::Continue);
    let sent = lifecycle.event.on_run_start();
    assert_eq!(sent.len(), 3);
    assert!(matches!(
        &sent[0].event,
        Event::LoopRestart(restart) if restart.from_node == "check" && restart.to_node == "plan"
    ));
    assert_eq!(lifecycle.event.on_run_start().len(), 2);
}

#[test]
fn checkpoints_are_told_with_what_was_saved() {
    let graph = graph();
    let mut lifecycle = WorkflowLifecycle::new(&graph, &options(None), None, false);
    lifecycle.checkpoint_git_result = Some(GitCheckpointResult {
        commit_sha: Some("deadbeef".to_string()),
        diff: Some("+1".to_string()),
        diff_summary: None,
        push_results: vec![PushResult {
            refspec: "fabro/run-1".to_string(),
            success: false,
            exec_output_tail: None,
        }],
    });
    let state = state();
    let outcome = Outcome::success();
    let durable = |state: &RunState| Durable {
        context_values: Table::new(),
        node_outcomes: checkpoint_outcomes(state, "work", &outcome),
    };
    let sent = lifecycle.on_checkpoint(
        &Node::new("work"),
        StageOutcome::Succeeded,
        Some("next"),
        &execution(2),
        &state,
        durable(&state),
        &signatures(),
    );
    assert_eq!(sent.len(), 3);
    match &sent[0].event {
        Event::CheckpointCompleted(saved) => {
            assert_eq!(saved.next_node_id.as_deref(), Some("next"));
            assert_eq!(saved.git_commit_sha.as_deref(), Some("deadbeef"));
            assert_eq!(saved.node_outcomes.keys(), vec!["work".to_string()]);
            assert_eq!(saved.completed_nodes, vec!["start".to_string()]);
        }
        other => panic!("unexpected event: {other:?}"),
    }
    assert!(matches!(&sent[1].event, Event::GitCommit(c) if c.sha == "deadbeef"));
    assert!(sent[1].scope.is_some());
    assert!(matches!(&sent[2].event, Event::GitPush(p) if !p.success));
    assert!(sent[2].scope.is_none());

    let again = lifecycle.on_checkpoint(
        &Node::new("work"),
        StageOutcome::Succeeded,
        None,
        &execution(2),
        &state,
        durable(&state),
        &signatures(),
    );
    assert_eq!(again.len(), 1);
}

#[test]
fn callbacks_keep_their_order() {
    assert_eq!(
        order_of(Callback::AfterNode),
        [
            Part::AutoStatus,
            Part::CircuitBreaker,
            Part::Artifacts,
            Part::Events,
            Part::Hooks
        ]
    );
    assert_eq!(
        order_of(Callback::BeforeAttempt),
        [
            Part::Hooks,
            Part::Executions,
            Part::Events,
            Part::Artifacts
        ]
    );
    assert_eq!(
        order_of(Callback::EdgeSelected).last(),
        Some(&Part::CircuitBreaker)
    );
}

#[test]
fn the_end_of_a_node_is_seen_as_it_was_settled() {
    let lifecycle = WorkflowLifecycle::new(&graph(), &options(None), None, false);
    let mut node = Node::new("work");
    node.attrs
        .insert("auto_status".to_string(), AttrValue::Boolean(true));
    let mut settled = result(Outcome::fail_deterministic("broken"));
    lifecycle
        .auto_status
        .after_node(&node, &mut settled.outcome);
    let end = lifecycle.end_node(&node, &settled, None, &state(), &signatures(), &transient());
    let status = settled.outcome.status.as_str();
    assert_eq!(end.hook.unwrap().status.as_deref(), Some(status));
    match &end.sent[0].event {
        Event::StageCompleted(completed) => assert_eq!(completed.status, status),
        other => panic!("unexpected event: {other:?}"),
    }
    let skipped = result(Outcome::skipped("hook"));
    let end = lifecycle.end_node(&node, &skipped, None, &state(), &signatures(), &transient());
    assert!(end.sent.is_empty() && end.hook.is_none());
}
