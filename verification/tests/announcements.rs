use fabro_workflow::error::{Error, HandlerError};
use fabro_workflow::graph::{Graph, Node};
use fabro_workflow::handler::branch::{BranchId, BranchPlace};
use fabro_workflow::handler::branch_result::ParallelBranchResult;
use fabro_workflow::handler::llm::acp::{
    acp_lease_options, acp_session_id, acp_started, launch_env_error, ENV_EXPIRY_NOTICE,
};
use fabro_workflow::handler::llm::activation_lease::{PermissionLevel, SessionCapability};
use fabro_workflow::handler::llm::agent_error::{
    discard_reason, interrupt_reason, InterruptReason, SessionShutdownReason,
};
use fabro_workflow::handler::llm::backend::{client_error, session_lease_options, SessionInfo};
use fabro_workflow::handler::parallel_event::{
    branch_number, branch_scope, branch_started, missing_branch_target, parallel_completed,
    parallel_hook, parallel_started, result_offload_notice,
};
use fabro_workflow::handler::parallel_join::JoinSummary;
use fabro_workflow::handler::registry::HandlerRegistry;
use fabro_workflow::hook_context::HookEvent;
use fabro_workflow::interview::{
    interview_started, InterviewOption, Question, QuestionType,
};
use fabro_workflow::lifecycle::events::RunNoticeCode;
use fabro_workflow::json::Json;
use fabro_workflow::outcome::StageOutcome;
use fabro_workflow::stage_id::StageId;
use fabro_workflow::table::Table;

#[test]
fn questions_are_announced_as_they_are_asked() {
    let question = Question {
        id: "q".to_string(),
        text: "Ship?".to_string(),
        question_type: QuestionType::MultiSelect,
        options: vec![InterviewOption {
            key: "Y".to_string(),
            label: "Yes".to_string(),
            description: None,
            preview: Some("shown".to_string()),
        }],
        allow_freeform: true,
        stage: "gate".to_string(),
        timeout_ms: Some(1500),
        context_display: Some("so far".to_string()),
        review_target: Some(Json::from_str("plan.md")),
        metadata: Table::new(),
    };
    let event = interview_started(&question);
    assert_eq!(event.question_id, "q");
    assert_eq!(event.question, "Ship?");
    assert_eq!(event.stage, "gate");
    assert_eq!(event.question_type, "multi_select");
    assert_eq!(event.options, question.options);
    assert!(event.allow_freeform);
    assert_eq!(event.timeout_ms, Some(1500));
    assert_eq!(event.context_display.as_deref(), Some("so far"));
    assert_eq!(event.review_target, Some(Json::from_str("plan.md")));
}

#[test]
fn fan_outs_are_told_from_start_to_end() {
    let node = Node::new("par");
    let started = parallel_started(&node, 2, 3);
    assert_eq!(
        (started.node_id.as_str(), started.visit, started.branch_count),
        ("par", 2, 3)
    );
    let id = BranchId {
        group_id: "par@2".to_string(),
        branch_id: "par@2#1".to_string(),
        target_id: "work".to_string(),
        ordinal: 5,
    };
    let place = BranchPlace {
        target_id: "work".to_string(),
        index: 1,
        item_label: Some("alpha".to_string()),
    };
    let branch = branch_started(&id, &place, 4);
    assert_eq!(branch.parallel_group_id, "par@2");
    assert_eq!(branch.parallel_branch_id, "par@2#1");
    assert_eq!(branch.branch, "work");
    assert_eq!((branch.index, branch.graph_visit), (1, 4));
    assert_eq!(branch.item_label.as_deref(), Some("alpha"));
    let scope = branch_scope(&id);
    assert_eq!((scope.node_id.as_str(), scope.visit), ("work", 5));
    assert_eq!(scope.parallel_group_id.as_deref(), Some("par@2"));
    assert_eq!(scope.parallel_branch_id.as_deref(), Some("par@2#1"));

    let summary = JoinSummary {
        total: 1,
        success_count: 1,
        failure_count: 0,
        status: StageOutcome::Succeeded,
        jump_to_node: None,
    };
    let results = vec![ParallelBranchResult {
        id: "work".to_string(),
        index: Some(0),
        item_label: None,
        status: StageOutcome::Succeeded,
        context_updates: Table::new(),
    }];
    let completed = parallel_completed(&node, 2, 17, &summary, &results);
    assert_eq!(completed.results, results);
    assert_eq!((completed.success_count, completed.failure_count), (1, 0));
    assert_eq!((completed.visit, completed.duration_ms), (2, 17));
}

#[test]
fn branch_numbers_stop_at_their_limit() {
    assert_eq!(branch_number(7), 7);
    assert_eq!(branch_number(u32::MAX as usize + 1), u32::MAX);
}

#[test]
fn fan_out_hooks_are_told_of_the_node() {
    let context = parallel_hook(
        HookEvent::ParallelStart,
        "run-1",
        &Graph::new("graph"),
        &Node::new("par"),
    );
    assert_eq!(context.event, HookEvent::ParallelStart);
    assert_eq!(context.run_id, "run-1");
    assert_eq!(context.graph_name, "graph");
    assert_eq!(context.node_id.as_deref(), Some("par"));
}

#[test]
fn fan_out_faults_are_put_into_words() {
    assert_eq!(
        missing_branch_target("ghost"),
        "branch target node not found: ghost"
    );
    let notice = result_offload_notice(&Node::new("par"), "disk full");
    assert_eq!(notice.code, RunNoticeCode::ArtifactOffloadFailed);
    assert_eq!(
        notice.message,
        "[node: par] parallel result offload failed: disk full"
    );
}

#[test]
fn process_sessions_have_identities_of_their_own() {
    let first = acp_session_id();
    assert!(first.starts_with("acp-"));
    assert_eq!(first.len(), 40);
    assert!(first[4..]
        .char_indices()
        .all(|(i, c)| match i {
            8 | 13 | 18 | 23 => c == '-',
            _ => c.is_ascii_digit() || ('a'..='f').contains(&c),
        }));
    assert_ne!(first, acp_session_id());
}

#[test]
fn sessions_can_be_steered() {
    let process = acp_lease_options(&Node::new("work"), 3, "acp-1", Some("custom"));
    assert_eq!(process.stage_id, StageId::new("work", 3));
    assert_eq!(process.provider.as_deref(), Some("acp"));
    assert_eq!(process.model.as_deref(), Some("custom"));
    assert_eq!(process.permission_level, None);
    assert_eq!(process.capabilities, vec![SessionCapability::Steer]);

    let session = SessionInfo {
        session_id: "s".to_string(),
        provider: "p".to_string(),
        model: "m".to_string(),
        reasoning_effort: Some("high".to_string()),
        speed: None,
        permission_level: Some(PermissionLevel::Full),
    };
    let api = session_lease_options(&StageId::new("work", 1), &session, Some("main"));
    assert_eq!(api.session_id, "s");
    assert_eq!(api.thread_id.as_deref(), Some("main"));
    assert_eq!(api.provider.as_deref(), Some("p"));
    assert_eq!(api.reasoning_effort.as_deref(), Some("high"));
    assert_eq!(api.permission_level, Some(PermissionLevel::Full));
    assert_eq!(api.capabilities, vec![SessionCapability::Steer]);
}

#[test]
fn processes_are_announced_with_their_command() {
    let event = acp_started(
        &Node::new("work"),
        2,
        "python3 agent.py".to_string(),
        Some("custom".to_string()),
    );
    assert_eq!(event.node_id, "work");
    assert_eq!(event.command, "python3 agent.py");
    assert_eq!(event.config_name.as_deref(), Some("custom"));
    assert!(ENV_EXPIRY_NOTICE.starts_with("ACP agent stages receive workflow env"));
}

#[test]
fn set_up_failures_keep_their_cause() {
    let expected = |message: &str, cause: &str| {
        Error::Handler(HandlerError {
            message: message.to_string(),
            causes: vec![cause.to_string()],
            exec_output_tail: None,
        })
    };
    assert_eq!(
        launch_env_error(vec!["vault closed".to_string()]),
        expected("Failed to resolve ACP agent env", "vault closed")
    );
    assert_eq!(
        client_error(vec!["no key".to_string()]),
        expected("Failed to create LLM client", "no key")
    );
}

#[test]
fn interrupted_sessions_keep_their_first_reason() {
    assert_eq!(interrupt_reason(None), InterruptReason::Cancelled);
    assert_eq!(
        interrupt_reason(Some(InterruptReason::WallClockTimeout)),
        InterruptReason::WallClockTimeout
    );
    assert_eq!(discard_reason(true), SessionShutdownReason::Cancelled);
    assert_eq!(discard_reason(false), SessionShutdownReason::Error);
}

#[test]
fn registered_handlers_are_listed_by_name() {
    let mut registry = HandlerRegistry::new(0);
    registry.register("wait", 1);
    registry.register("human", 2);
    registry.register("wait", 3);
    assert_eq!(registry.names(), vec!["human", "wait"]);
    assert_eq!(registry.get("wait"), Some(&3));
    assert_eq!(registry.get("ghost"), None);
}
