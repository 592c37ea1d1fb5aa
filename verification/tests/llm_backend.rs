use fabro_workflow::error::{Error, ExecOutputTail, HandlerError, LlmError};
use fabro_workflow::graph::{AttrValue, Node};
use fabro_workflow::handler::basic::NodeTimeoutPolicy;
use fabro_workflow::handler::llm::acp::{
    acp_error_to_workflow, acp_process_error_to_workflow, end_turn, AcpCommandError, AcpError,
    AcpEvent, AcpRunResult, AgentAcpBackend, LaunchEnv,
};
use fabro_workflow::handler::llm::activation_lease::{
    ActivationAct, ActivationLease, ActivationLeaseOptions, Completion, PermissionLevel, SessionCapability,
};
use fabro_workflow::handler::llm::agent_error::{
    classify_agent_error, AgentApiErrorDisposition, AgentError,
};
use fabro_workflow::handler::llm::backend::{
    child_setup, session_setup, AgentApiBackend, ModelFallbackPolicy, SessionCache,
};
use fabro_workflow::handler::llm::controls::{
    chosen_controls, effective_request_controls, expected_values, ControlNames,
    EffectiveRequestControls, Reading, RunModelControls,
};
use fabro_workflow::handler::llm::fallback::{
    failover_event, fallback_plan, Candidate, FallbackNotice, FallbackTarget, Offering,
};
use fabro_workflow::handler::llm::file_tracking::{
    file_tracking_snapshot, forward_session_event, last_touched_file, track_file_event, ActiveTime,
    FileTracking, Forwarding, SessionEventKind, ToolEvent,
};
use fabro_workflow::handler::llm::router;
use fabro_workflow::handler::llm::router::{
    select_backend, select_one_shot_backend, AgentBackend, BackendRouter,
};
use fabro_workflow::handler::llm::run_tools::{
    allow_tool_call, check_interaction, ensure_current_run_parent, execute_fabro_run_tool,
    invalid_arguments, named_run_tools, render_fabro_tool_result, RunTool, Validation,
    FABRO_RUN_CREATE_TOOL_NAME, FABRO_RUN_EVENTS_TOOL_NAME, FABRO_RUN_GATHER_TOOL_NAME,
    FABRO_RUN_GET_TOOL_NAME, FABRO_RUN_INTERACT_TOOL_NAME, FABRO_RUN_PAIR_TOOL_NAME,
    FABRO_RUN_SEARCH_TOOL_NAME,
};
use fabro_workflow::json::Json;
use fabro_workflow::outcome::StageTiming;
use fabro_workflow::stage_id::StageId;
use fabro_workflow::table::Table;

type Backend = AgentApiBackend<u32, (), (), (), ()>;

fn texts(values: &[&str]) -> Vec<String> {
    values.iter().map(|v| v.to_string()).collect()
}

fn json(text: &str) -> Json {
    Json::parse(text).expect("valid JSON")
}

fn tail(stderr: &str, stderr_truncated: bool) -> ExecOutputTail {
    ExecOutputTail {
        stdout: None,
        stderr: Some(stderr.to_string()),
        stdout_truncated: false,
        stderr_truncated,
    }
}

fn detail(error: Error) -> HandlerError {
    match error {
        Error::Handler(detail) => detail,
        other => panic!("expected a handler error, got {other:?}"),
    }
}

// --- process backend ---

#[test]
fn acp_timeout_maps_stderr_to_exec_tail_not_message() {
    let err = acp_error_to_workflow(AcpError::TimedOut {
        exec_output_tail: Some(tail("redacted stderr tail", true)),
    });

    let detail = detail(err);
    assert_eq!(detail.message, "ACP turn timed out");
    assert!(detail.causes.is_empty());
    assert_eq!(
        detail.exec_output_tail,
        Some(tail("redacted stderr tail", true))
    );
}

#[test]
fn acp_process_exit_maps_stderr_to_exec_tail_not_cause_text() {
    let err = acp_error_to_workflow(AcpError::Other {
        causes: texts(&["ACP process exited: exit_code=2"]),
        exec_output_tail: Some(tail("early boom", false)),
    });

    let detail = detail(err);
    assert_eq!(detail.message, "ACP turn failed");
    assert_eq!(detail.exec_output_tail, Some(tail("early boom", false)));
    assert!(
        detail
            .causes
            .iter()
            .any(|cause| cause.contains("exit_code=2")),
        "cause chain should retain process exit context: {:?}",
        detail.causes
    );
    assert!(
        !detail
            .causes
            .iter()
            .any(|cause| cause.contains("early boom")),
        "raw stderr belongs in exec_output_tail, not causes: {:?}",
        detail.causes
    );
}

#[test]
fn acp_turn_errors_keep_their_sense() {
    assert_eq!(acp_error_to_workflow(AcpError::Cancelled), Error::Cancelled);
    let stopped = detail(acp_error_to_workflow(AcpError::StopReason {
        stop_reason: "refusal".to_string(),
        text: "no".to_string(),
    }));
    assert_eq!(stopped.message, "ACP prompt stopped with refusal: no");
}

#[test]
fn acp_backend_stdio_spawn_failure_preserves_sandbox_cause() {
    let unsupported = "ACP backend requires bidirectional stdio; the Daytona sandbox provider does not support it yet";
    let end = end_turn(
        Err(AcpError::Sandbox(texts(&["sandbox failed", unsupported]))),
        1,
    );
    let failed = detail(end.result.unwrap_err());
    assert_eq!(failed.message, "ACP turn failed");
    assert!(
        failed.causes.iter().any(|cause| cause == unsupported),
        "cause chain should hold the sandbox failure: {:?}",
        failed.causes
    );
}

#[test]
fn acp_process_errors_are_told() {
    let cases = [
        (
            AcpCommandError::LegacyCommandAttribute,
            "acp_command is no longer supported; use acp.command or acp.config",
        ),
        (
            AcpCommandError::EmptyOverride,
            "ACP process attribute must not be empty",
        ),
        (
            AcpCommandError::MissingOverride,
            "backend=\"acp\" requires exactly one of acp.command or acp.config",
        ),
        (
            AcpCommandError::UnsupportedTransport,
            "only stdio ACP commands are supported",
        ),
        (
            AcpCommandError::InvalidCommandString,
            "Failed to parse acp.command as a shell command",
        ),
        (
            AcpCommandError::InvalidConfigJson(texts(&["line 1"])),
            "Failed to parse acp.config as JSON",
        ),
        (
            AcpCommandError::InvalidConfigShape("no args".to_string()),
            "Invalid acp.config shape: no args",
        ),
    ];
    for (error, message) in cases {
        assert_eq!(detail(acp_process_error_to_workflow(error)).message, message);
    }
}

#[test]
fn acp_turns_end_with_an_event() {
    let done = end_turn(
        Ok(AcpRunResult {
            text: "hello".to_string(),
            stderr: "warn".to_string(),
            stop_reason: "end_turn".to_string(),
            duration_ms: 9,
        }),
        12,
    );
    assert_eq!(
        done.event,
        Some(AcpEvent::Completed {
            stdout: "hello".to_string(),
            stderr: "warn".to_string(),
            stop_reason: "end_turn".to_string(),
            duration_ms: 9,
        })
    );
    assert_eq!(
        done.result,
        Ok(("hello".to_string(), StageTiming::active_only(9, 0)))
    );

    let cancelled = end_turn(Err(AcpError::Cancelled), 12);
    assert_eq!(cancelled.event, Some(AcpEvent::Cancelled { duration_ms: 12 }));
    assert_eq!(cancelled.result, Err(Error::Cancelled));

    let late = end_turn(
        Err(AcpError::TimedOut {
            exec_output_tail: Some(tail("slow", false)),
        }),
        12,
    );
    assert_eq!(
        late.event,
        Some(AcpEvent::TimedOut {
            stderr: "slow".to_string(),
            duration_ms: 12
        })
    );
    assert_eq!(
        end_turn(Err(AcpError::Sandbox(texts(&["gone"]))), 1).event,
        None
    );
}

#[test]
fn acp_backend_rejects_output_schema() {
    let backend: AgentAcpBackend<(), ()> = AgentAcpBackend::new();
    let mut node = Node::new("work");
    assert_eq!(backend.check_run(&node), Ok(()));
    node.attrs.insert(
        "output_schema".to_string(),
        AttrValue::String("routing".to_string()),
    );
    assert_eq!(
        backend.check_run(&node),
        Err(Error::Validation(
            "output_schema is not supported with backend=\"acp\" in this release".to_string()
        ))
    );
    assert_eq!(
        backend.one_shot(),
        Error::Validation(
            "backend=\"acp\" is only valid on agent nodes; prompt nodes are API-only".to_string()
        )
    );
}

#[test]
fn acp_environment_is_resolved_where_it_is_provided() {
    let backend: AgentAcpBackend<&str, &str> = AgentAcpBackend::new();
    assert_eq!(backend.launch_env(), LaunchEnv::Empty);
    let fixed = backend.with_env("env");
    assert_eq!(
        fixed.launch_env(),
        LaunchEnv::Resolve {
            warn_of_expiry: false
        }
    );
    let provided = fixed
        .with_tool_env_provider("provider", true)
        .with_steering_hub("hub");
    assert_eq!(
        provided.launch_env(),
        LaunchEnv::Resolve {
            warn_of_expiry: true
        }
    );
    assert_eq!(*provided.tool_env(), Some("provider"));
    assert_eq!(*provided.steering_hub(), Some("hub"));
}

// --- steering ---

fn lease_options(session_id: &str) -> ActivationLeaseOptions {
    ActivationLeaseOptions {
        stage_id: StageId::new("agent", 1),
        session_id: session_id.to_string(),
        thread_id: None,
        provider: Some("openai".to_string()),
        model: Some("gpt-5.4".to_string()),
        reasoning_effort: None,
        speed: None,
        permission_level: None,
        capabilities: vec![SessionCapability::Steer],
    }
}

/// One stage's place in a hub: the session attached to it, what waits for a
/// session, and what was told.
#[derive(Default)]
struct Stage {
    attached: Option<String>,
    pending: Vec<String>,
    told: Vec<&'static str>,
}

impl Stage {
    /// Attaches a session, unless another one is attached, and activates it.
    fn activate(
        &mut self,
        session_id: &str,
        queue: &mut Vec<String>,
    ) -> Result<ActivationLease, Error> {
        let attached = self.attached.as_deref().is_none_or(|id| id == session_id);
        let (lease, acts) =
            ActivationLease::activate(lease_options(session_id), attached, "agent@1")?;
        self.attached = Some(session_id.to_string());
        for act in acts {
            match act {
                ActivationAct::Announce(_) => self.told.push("agent.session.activated"),
                ActivationAct::DrainPending => {
                    for text in self.pending.drain(..) {
                        self.told.push("drained");
                        queue.push(text);
                    }
                }
            }
        }
        Ok(lease)
    }
}

#[test]
fn activate_emits_activated_before_draining_pending() {
    let mut stage = Stage {
        pending: texts(&["queued"]),
        told: vec!["run.steer", "agent.steer.buffered"],
        ..Stage::default()
    };
    let mut queue = Vec::new();
    let _lease = stage.activate("session-a", &mut queue).unwrap();
    assert_eq!(queue.len(), 1);
    assert_eq!(
        stage.told,
        [
            "run.steer",
            "agent.steer.buffered",
            "agent.session.activated",
            "drained"
        ]
    );
}

#[test]
fn activation_is_told_with_its_session() {
    let (lease, mut acts) = ActivationLease::activate(lease_options("session-a"), true, "agent@1")
        .expect("the session is attached");
    assert!(!lease.is_released());
    assert_eq!(acts.len(), 2);
    let event = match acts.remove(0) {
        ActivationAct::Announce(event) => event,
        other => panic!("unexpected act: {other:?}"),
    };
    assert_eq!(event.node_id, "agent");
    assert_eq!(event.visit, 1);
    assert_eq!(event.session_id, "session-a");
    assert_eq!(event.capabilities, vec![SessionCapability::Steer]);
}

#[test]
fn activate_rejects_mismatched_existing_session() {
    let mut stage = Stage::default();
    let (mut queue_a, mut queue_b) = (Vec::new(), Vec::new());
    let _lease = stage.activate("session-a", &mut queue_a).unwrap();
    stage.pending.push("queued".to_string());
    let result = stage.activate("session-b", &mut queue_b);

    assert_eq!(
        result.unwrap_err(),
        Error::Precondition(
            "stage agent@1 already has a different active agent session".to_string()
        )
    );
    assert_eq!(queue_b.len(), 0);
    assert_eq!(
        stage
            .told
            .iter()
            .filter(|name| **name == "agent.session.activated")
            .count(),
        1
    );
}

#[test]
fn release_is_idempotent() {
    let (mut lease, _) = ActivationLease::activate(lease_options("session-a"), true, "agent@1")
        .expect("the session is attached");
    let first = lease.release().expect("the first release is told");
    assert_eq!(first.session_id, "session-a");
    assert!(lease.release().is_none());
    assert!(lease.is_released());
}

#[test]
fn natural_completion_follows_the_lease() {
    let open = || {
        ActivationLease::activate(lease_options("s"), true, "agent@1")
            .expect("attached")
            .0
    };
    let mut paired = open();
    assert!(paired.is_pair_active(true));
    assert_eq!(paired.on_natural_completion(true, true), Completion::Park);
    assert!(!paired.is_released());

    let mut busy = open();
    assert_eq!(
        busy.on_natural_completion(false, false),
        Completion::Continue
    );
    assert_eq!(busy.release_if_no_pending_control_work(false), (false, None));

    let mut idle = open();
    assert!(matches!(
        idle.on_natural_completion(false, true),
        Completion::Release(_)
    ));
    assert_eq!(idle.on_natural_completion(true, true), Completion::Stop);
    assert_eq!(idle.release_if_no_pending_control_work(false), (true, None));
}

// --- backend configuration ---

#[test]
fn agent_backend_stores_config() {
    let backend: Backend = AgentApiBackend::new(
        "opus-4-6".to_string(),
        "openai".to_string(),
        ModelFallbackPolicy::new(Table::new()),
    );
    assert_eq!(backend.model, "opus-4-6");
    assert_eq!(backend.provider_id, "openai");
}

#[test]
fn agent_backend_initializes_empty_sessions() {
    let backend: Backend = AgentApiBackend::new(
        "opus-4-6".to_string(),
        "anthropic".to_string(),
        ModelFallbackPolicy::new(Table::new()),
    );
    assert!(backend.sessions.is_empty());
}

#[test]
fn agent_backend_keeps_what_it_is_built_with() {
    let backend: AgentApiBackend<u32, &str, &str, &str, &str> = AgentApiBackend::new(
        "m".to_string(),
        "p".to_string(),
        ModelFallbackPolicy::new(Table::new()),
    )
    .with_env("env")
    .with_mcp_servers(vec!["server"])
    .with_tool_secrets("secrets")
    .with_fabro_run_tools("tools");
    assert_eq!(backend.tool_env, Some("env"));
    assert_eq!(backend.mcp_servers, vec!["server"]);
    assert_eq!(backend.tool_secrets, Some("secrets"));
    assert_eq!(backend.fabro_run_tools, Some("tools"));
    let backend = backend.with_tool_env_provider("provider");
    assert_eq!(backend.tool_env, Some("provider"));

    let mut node = Node::new("work");
    assert_eq!(backend.model_for(&node), "m");
    node.attrs
        .insert("model".to_string(), AttrValue::String("own".to_string()));
    assert_eq!(backend.model_for(&node), "own");
}

#[test]
fn kept_sessions_are_found_once() {
    let mut cache: SessionCache<u32> = SessionCache::new();
    cache.keep("main".to_string(), 1);
    cache.keep("main".to_string(), 2);
    cache.keep("side".to_string(), 3);
    assert_eq!(cache.take("main"), Some(2));
    assert_eq!(cache.take("main"), None);
    cache.keep("main".to_string(), 4);
    let mut drained = cache.drain();
    drained.sort();
    assert_eq!(drained, vec![3, 4]);
    assert!(cache.is_empty());
    assert!(cache.drain().is_empty());
}

#[test]
fn plan_notices_are_given_once_in_a_run() {
    let mut backend: Backend = AgentApiBackend::new(
        "m".to_string(),
        "p".to_string(),
        ModelFallbackPolicy::new(Table::new()),
    );
    assert_eq!(
        backend.emit_fallback_plan_notices(&texts(&["a", "b", "a"])),
        texts(&["a", "b"])
    );
    assert_eq!(
        backend.emit_fallback_plan_notices(&texts(&["b", "c"])),
        texts(&["c"])
    );
}

#[test]
fn spawned_sessions_work_under_their_parent() {
    let mut node = Node::new("work");
    node.attrs
        .insert("max_tokens".to_string(), AttrValue::Integer(512));
    let controls = EffectiveRequestControls {
        reasoning_effort: Some("low".to_string()),
        speed: None,
    };
    let setup = session_setup(&node, controls, Some("hooks"), true, true);
    assert_eq!(setup.max_tokens, Some(512));
    assert_eq!(setup.permission_level, PermissionLevel::Full);
    assert!(setup.subagent_tools && setup.question_tools && setup.run_tools);
    let child = child_setup(&setup);
    assert_eq!(child.controls, setup.controls);
    assert_eq!(child.tool_hooks, setup.tool_hooks);
    assert_eq!(child.max_tokens, None);
    assert!(!child.subagent_tools && !child.question_tools);
}

// --- tools for other runs ---

fn defined_tools() -> Vec<String> {
    texts(&[
        FABRO_RUN_CREATE_TOOL_NAME,
        FABRO_RUN_SEARCH_TOOL_NAME,
        FABRO_RUN_GET_TOOL_NAME,
        FABRO_RUN_INTERACT_TOOL_NAME,
        FABRO_RUN_GATHER_TOOL_NAME,
        FABRO_RUN_EVENTS_TOOL_NAME,
        FABRO_RUN_PAIR_TOOL_NAME,
    ])
}

#[test]
fn register_named_fabro_run_tools_registers_only_listed_tools() {
    let mut registered = named_run_tools(
        &defined_tools(),
        &texts(&[FABRO_RUN_EVENTS_TOOL_NAME, FABRO_RUN_INTERACT_TOOL_NAME]),
    );
    registered.sort();
    assert_eq!(
        registered,
        vec![FABRO_RUN_EVENTS_TOOL_NAME, FABRO_RUN_INTERACT_TOOL_NAME]
    );
}

#[test]
fn register_named_fabro_run_tools_ignores_unknown_names() {
    let registered = named_run_tools(
        &defined_tools(),
        &texts(&[FABRO_RUN_EVENTS_TOOL_NAME, "not_a_real_tool"]),
    );
    assert_eq!(registered, vec![FABRO_RUN_EVENTS_TOOL_NAME]);
}

#[test]
fn run_tools_are_found_by_name() {
    let cases = [
        (FABRO_RUN_CREATE_TOOL_NAME, RunTool::Create),
        (FABRO_RUN_SEARCH_TOOL_NAME, RunTool::Search),
        (FABRO_RUN_GET_TOOL_NAME, RunTool::Get),
        (FABRO_RUN_INTERACT_TOOL_NAME, RunTool::Interact),
        (FABRO_RUN_GATHER_TOOL_NAME, RunTool::Gather),
        (FABRO_RUN_EVENTS_TOOL_NAME, RunTool::Events),
        (FABRO_RUN_PAIR_TOOL_NAME, RunTool::Pair),
    ];
    for (name, tool) in cases {
        assert_eq!(execute_fabro_run_tool(name), Ok(tool));
    }
    assert_eq!(
        execute_fabro_run_tool("nope"),
        Err("unknown Fabro run tool `nope`".to_string())
    );
    assert_eq!(
        invalid_arguments("fabro_run_get", "missing field"),
        "invalid fabro_run_get arguments: missing field"
    );
    assert_eq!(
        render_fabro_tool_result("done", &Json::parse(r#"{"b":[1],"a":null}"#)),
        Ok("done\n{\n  \"a\": null,\n  \"b\": [\n    1\n  ]\n}".to_string())
    );
    assert_eq!(
        render_fabro_tool_result("done", &Err("key must be a string".to_string())),
        Err("failed to serialize tool result: key must be a string".to_string())
    );
}

#[test]
fn agent_run_create_rejects_conflicting_parent_id() {
    let parents = vec![Some("01KRBZW4DW0000000000000002".to_string())];
    let err = ensure_current_run_parent(&parents, "01KRBZW4DW0000000000000001").unwrap_err();
    assert!(err.contains("parent_id"));
    assert!(err.contains("current run"));

    let accepted = vec![None, Some(" 01KRBZW4DW0000000000000001 ".to_string())];
    assert_eq!(
        ensure_current_run_parent(&accepted, "01KRBZW4DW0000000000000001"),
        Ok(())
    );
    let blank = vec![None, Some("  ".to_string())];
    assert_eq!(
        ensure_current_run_parent(&blank, "01KRBZW4DW0000000000000001"),
        Err(
            "parent_id must be omitted or match the current run; blank parent_id is invalid"
                .to_string()
        )
    );
}

#[test]
fn agent_run_interact_rejects_approval_actions() {
    let err = check_interaction(true).unwrap_err();
    assert!(err.contains("must be performed by a user"), "{err}");
    assert_eq!(check_interaction(false), Ok(()));
    for (requires_user, passes) in [(true, false), (false, true)] {
        let validation = Validation::Sound { requires_user };
        assert_eq!(
            allow_tool_call(RunTool::Interact, &vec![], validation, "current").is_ok(),
            passes
        );
    }
}

#[test]
fn each_tool_is_held_to_its_rule() {
    let unsound = || Validation::Unsound("runs must not be empty".to_string());
    let sound = || Validation::Sound {
        requires_user: true,
    };
    let other = vec![Some("other".to_string())];
    let own = vec![Some(" current ".to_string()), None];
    // Another parent is refused before anything else is looked at.
    assert_eq!(
        allow_tool_call(RunTool::Create, &other, unsound(), "current"),
        Err("parent_id must be omitted or match the current run current; got other".to_string())
    );
    assert_eq!(
        allow_tool_call(RunTool::Create, &own, unsound(), "current"),
        Err("runs must not be empty".to_string())
    );
    assert_eq!(
        allow_tool_call(RunTool::Create, &own, sound(), "current"),
        Ok(())
    );
    assert_eq!(
        allow_tool_call(RunTool::Interact, &other, unsound(), "current"),
        Err("runs must not be empty".to_string())
    );
    for tool in [
        RunTool::Search,
        RunTool::Get,
        RunTool::Gather,
        RunTool::Events,
        RunTool::Pair,
    ] {
        assert_eq!(allow_tool_call(tool, &other, sound(), "current"), Ok(()));
        assert_eq!(
            allow_tool_call(tool, &other, unsound(), "current"),
            Err("runs must not be empty".to_string())
        );
    }
}

// --- file tracking ---

/// The name under which a tool is known, whatever a model calls it.
fn canonical_tool_name(name: &str) -> &str {
    match name {
        "Write" => "write_file",
        "Edit" => "edit_file",
        other => other,
    }
}

fn started(tool: &str, id: &str, arguments: &str) -> ToolEvent {
    ToolEvent::Started {
        canonical_name: canonical_tool_name(tool).to_string(),
        tool_call_id: id.to_string(),
        arguments: json(arguments),
    }
}

fn completed(id: &str, is_error: bool) -> ToolEvent {
    ToolEvent::Completed {
        tool_call_id: id.to_string(),
        is_error,
    }
}

#[test]
fn track_file_event_records_top_level_write() {
    let mut state = FileTracking::new();
    track_file_event(
        &started("write_file", "tc1", r#"{"file_path": "/tmp/foo.rs"}"#),
        &mut state,
    );
    assert_eq!(state.pending.get("tc1").unwrap(), "/tmp/foo.rs");

    track_file_event(&completed("tc1", false), &mut state);
    assert!(state.touched.contains("/tmp/foo.rs"));
    assert_eq!(state.last.as_deref(), Some("/tmp/foo.rs"));
}

#[test]
fn track_file_event_tracks_edit_file() {
    let mut state = FileTracking::new();
    track_file_event(
        &started("edit_file", "tc-sub", r#"{"file_path": "/src/lib.rs"}"#),
        &mut state,
    );
    assert_eq!(state.pending.get("tc-sub").unwrap(), "/src/lib.rs");

    track_file_event(&completed("tc-sub", false), &mut state);
    assert!(state.touched.contains("/src/lib.rs"));
    assert_eq!(state.last.as_deref(), Some("/src/lib.rs"));
}

#[test]
fn track_file_event_tracks_kimi_write_alias() {
    let mut state = FileTracking::new();
    track_file_event(
        &started(
            "Write",
            "tc-kimi",
            r#"{"path": "/src/kimi.rs", "content": "new"}"#,
        ),
        &mut state,
    );
    track_file_event(&completed("tc-kimi", false), &mut state);

    assert!(state.touched.contains("/src/kimi.rs"));
    assert_eq!(state.last.as_deref(), Some("/src/kimi.rs"));
}

#[test]
fn track_file_event_error_removes_pending() {
    let mut state = FileTracking::new();
    track_file_event(
        &started("edit_file", "tc-err", r#"{"file_path": "/err.rs"}"#),
        &mut state,
    );
    track_file_event(&completed("tc-err", true), &mut state);
    assert!(state.pending.is_empty());
    assert!(!state.touched.contains("/err.rs"));
}

#[test]
fn tracked_files_are_told_in_order() {
    let mut state = FileTracking::new();
    for (id, path) in [("1", "b.rs"), ("2", "a.rs"), ("3", "b.rs")] {
        let arguments = format!(r#"{{"file_path": "{path}"}}"#);
        track_file_event(&started("write_file", id, &arguments), &mut state);
        track_file_event(&completed(id, false), &mut state);
    }
    track_file_event(&started("shell", "4", r#"{"path": "c.rs"}"#), &mut state);
    track_file_event(&ToolEvent::Other, &mut state);
    track_file_event(&completed("4", false), &mut state);
    assert_eq!(
        file_tracking_snapshot(&state),
        (texts(&["a.rs", "b.rs"]), Some("b.rs".to_string()))
    );
    assert_eq!(last_touched_file(&state), Some("b.rs".to_string()));
}

#[test]
fn only_the_root_session_ends_its_input() {
    let ended = forward_session_event(SessionEventKind::ProcessingEnd, "root", None, "root");
    assert_eq!(
        ended,
        Forwarding {
            forward: false,
            processing_ended: true,
            session_ended: false
        }
    );
    let child =
        forward_session_event(SessionEventKind::SessionEnded, "child", Some("root"), "root");
    assert!(!child.session_ended && !child.processing_ended);
    assert!(forward_session_event(SessionEventKind::Other, "child", Some("root"), "root").forward);
    assert!(!forward_session_event(SessionEventKind::Streaming, "root", None, "root").forward);
}

#[test]
fn active_time_adds_up() {
    let mut time = ActiveTime::zero();
    time.record(ActiveTime {
        inference_ns: 1_500_000,
        tool_ns: 2_000_000,
    });
    time.record(ActiveTime {
        inference_ns: 1_499_999,
        tool_ns: 0,
    });
    assert_eq!(time.timing(), StageTiming::active_only(2, 2));
}

// --- request controls ---

fn names() -> ControlNames {
    ControlNames {
        reasoning_efforts: texts(&["low", "medium", "high"]),
        speeds: texts(&["standard", "fast"]),
    }
}

/// Reads the text of a control.
fn read(text: Option<String>, names: &[String]) -> Reading {
    match text {
        Some(text) if names.contains(&text) => Reading::Control(text),
        _ => Reading::Unknown {
            causes: texts(&["Matching variant not found"]),
        },
    }
}

/// The controls of a node's requests, once their texts are read.
fn controls_on(backend: &Backend, node: &Node) -> Result<EffectiveRequestControls, Error> {
    let chosen = chosen_controls(&backend.run_model_controls, node);
    let names = names();
    backend.resolve_effective_request_controls(
        node,
        &names,
        read(chosen.reasoning_effort, &names.reasoning_efforts),
        read(chosen.speed, &names.speeds),
    )
}

fn controlled_backend() -> Backend {
    let backend: Backend = AgentApiBackend::new(
        "gpt-5.4".to_string(),
        "openai".to_string(),
        ModelFallbackPolicy::new(Table::new()),
    );
    backend.with_run_model_controls(RunModelControls {
        reasoning_effort: Some("low".to_string()),
        speed: Some("fast".to_string()),
    })
}

#[test]
fn run_model_controls_apply_when_node_omits_controls() {
    let controls = controls_on(&controlled_backend(), &Node::new("work")).unwrap();
    assert_eq!(controls.reasoning_effort.as_deref(), Some("low"));
    assert_eq!(controls.speed.as_deref(), Some("fast"));
}

#[test]
fn node_controls_override_run_model_controls() {
    let mut node = Node::new("work");
    node.attrs.insert(
        "reasoning_effort".to_string(),
        AttrValue::String("high".to_string()),
    );
    node.attrs.insert(
        "speed".to_string(),
        AttrValue::String("standard".to_string()),
    );
    let controls = controls_on(&controlled_backend(), &node).unwrap();
    assert_eq!(controls.reasoning_effort.as_deref(), Some("high"));
    assert_eq!(controls.speed.as_deref(), Some("standard"));
}

#[test]
fn omitted_reasoning_effort_stays_unset() {
    let backend: Backend = AgentApiBackend::new(
        "gpt-5.4".to_string(),
        "openai".to_string(),
        ModelFallbackPolicy::new(Table::new()),
    );
    let controls = controls_on(&backend, &Node::new("work")).unwrap();
    assert_eq!(controls.reasoning_effort, None);
}

#[test]
fn unknown_controls_are_refused_with_the_known_ones() {
    assert_eq!(expected_values(&texts(&["a", "b"])), "a, b");
    let mut node = Node::new("work");
    node.attrs
        .insert("speed".to_string(), AttrValue::String("warp".to_string()));
    let run = RunModelControls {
        reasoning_effort: None,
        speed: None,
    };
    let chosen = chosen_controls(&run, &node);
    assert_eq!(chosen.reasoning_effort, None);
    let names = names();
    let unset = read(chosen.reasoning_effort, &names.reasoning_efforts);
    let speed = read(chosen.speed, &names.speeds);
    let error = effective_request_controls(&run, &node, &names, unset, speed).unwrap_err();
    let failed = detail(error);
    assert_eq!(
        failed.message,
        "Invalid speed \"warp\" for node \"work\"; expected one of: standard, fast"
    );
    assert_eq!(failed.causes, texts(&["Matching variant not found"]));
}

// --- fallbacks ---

fn known(provider: &str, model: &str, nearest: Option<&str>) -> Candidate {
    Candidate {
        target: FallbackTarget::new(provider, model),
        offering: Offering::Known {
            nearest_effort: nearest.map(|e| e.to_string()),
        },
    }
}

fn effort(value: Option<&str>) -> EffectiveRequestControls {
    EffectiveRequestControls {
        reasoning_effort: value.map(|e| e.to_string()),
        speed: None,
    }
}

#[test]
fn fallback_plan_maps_reasoning_to_each_target() {
    let chain = vec![
        known("moonshot", "kimi-k3", Some("high")),
        known("openrouter", "kimi-k3", Some("high")),
        known("anthropic", "opus-5", Some("medium")),
    ];
    let (plan, notices) = fallback_plan(
        FallbackTarget::new("modal", "kimi-k3"),
        effort(Some("medium")),
        &chain,
    );

    assert!(notices.is_empty());
    assert_eq!(
        plan.remaining()
            .iter()
            .map(|route| route.controls.reasoning_effort.as_deref())
            .collect::<Vec<_>>(),
        vec![Some("high"), Some("high"), Some("medium")]
    );
}

#[test]
fn advancing_a_fallback_plan_never_activates_the_target_models_chain() {
    let mut chains: Table<Vec<FallbackTarget>> = Table::new();
    chains.insert(
        "fable-5".to_string(),
        vec![
            FallbackTarget::new("openai", "gpt-5.6-sol"),
            FallbackTarget::new("anthropic", "opus-5"),
        ],
    );
    chains.insert(
        "gpt-5.6-sol".to_string(),
        vec![FallbackTarget::new("anthropic", "sonnet-5")],
    );
    let policy = ModelFallbackPolicy::new(chains);
    let chain: Vec<Candidate> = policy
        .chain_for_canonical("fable-5")
        .unwrap()
        .iter()
        .map(|target| Candidate {
            target: FallbackTarget::new(&target.provider, &target.model),
            offering: Offering::Unknown,
        })
        .collect();
    let (mut plan, notices) = fallback_plan(
        FallbackTarget::new("anthropic", "fable-5"),
        effort(None),
        &chain,
    );

    assert!(notices.is_empty());
    assert!(plan.advance(), "Sol should be first");
    assert_eq!(
        plan.current().target,
        FallbackTarget::new("openai", "gpt-5.6-sol")
    );
    assert_eq!(plan.attempt(), 1);
    assert!(plan.advance(), "Opus should be second");
    assert_eq!(
        plan.current().target,
        FallbackTarget::new("anthropic", "opus-5")
    );
    assert_eq!(plan.attempt(), 2);
    assert!(!plan.has_next());
    assert!(!plan.advance());
    assert!(policy.chain_for_canonical("opus-5").is_none());
}

#[test]
fn unusable_fallbacks_are_told() {
    let chain = vec![
        known("p", "m", Some("high")),
        known("q", "n", None),
    ];
    let (plan, notices) =
        fallback_plan(FallbackTarget::new("p", "m"), effort(Some("low")), &chain);
    assert!(plan.remaining().is_empty());
    assert_eq!(
        notices,
        vec![
            FallbackNotice::NoNearbyReasoningLevel {
                requested_model: "m".to_string(),
                target: FallbackTarget::new("q", "n"),
                requested_effort: "low".to_string(),
            },
            FallbackNotice::ChainEmpty {
                requested_model: "m".to_string()
            },
        ]
    );
    let (_, none) = fallback_plan(
        FallbackTarget::new("p", "m"),
        effort(Some("low")),
        &Vec::new(),
    );
    assert!(none.is_empty());
}

#[test]
fn failover_is_told_from_the_route_before() {
    let chain = vec![known("q", "n", Some("high")), known("r", "o", Some("low"))];
    let (mut plan, _) = fallback_plan(FallbackTarget::new("p", "m"), effort(Some("low")), &chain);
    assert!(plan.advance());
    assert!(plan.advance());
    let props = failover_event(&plan, "overloaded");
    assert_eq!(props.original_provider, "p");
    assert_eq!(props.original_model, "m");
    assert_eq!(props.attempt, 2);
    assert_eq!((props.from_provider.as_str(), props.from_model.as_str()), ("q", "n"));
    assert_eq!((props.to_provider.as_str(), props.to_model.as_str()), ("r", "o"));
    assert_eq!(props.requested_reasoning_effort.as_deref(), Some("low"));
    assert_eq!(props.effective_reasoning_effort.as_deref(), Some("low"));
    assert_eq!(props.error, "overloaded");
}

// --- errors of agent sessions ---

fn llm_error(message: &str, failover_eligible: bool) -> LlmError {
    LlmError {
        message: message.to_string(),
        failover_eligible,
        retryable: false,
    }
}

#[test]
fn classify_interrupted_cancelled_is_cancelled() {
    assert!(matches!(
        classify_agent_error(AgentError::Cancelled, true),
        AgentApiErrorDisposition::Cancelled
    ));
}

#[test]
fn classify_interrupted_wall_clock_is_terminal_precondition() {
    match classify_agent_error(AgentError::WallClockTimeout, true) {
        AgentApiErrorDisposition::Terminal(Error::Precondition(msg)) => {
            assert!(msg.contains("wall-clock"));
        }
        _ => panic!("expected Terminal(Error::Precondition) for WallClockTimeout"),
    }
}

#[test]
fn classify_failover_eligible_llm_returns_failover_when_allowed() {
    let err = AgentError::Llm(llm_error("overloaded", true));
    assert!(matches!(
        classify_agent_error(err, true),
        AgentApiErrorDisposition::FailoverEligible(_)
    ));
}

#[test]
fn classify_failover_eligible_llm_returns_terminal_when_not_allowed() {
    let err = AgentError::Llm(llm_error("overloaded", true));
    match classify_agent_error(err, false) {
        AgentApiErrorDisposition::Terminal(Error::Llm(_)) => {}
        _ => panic!("expected Terminal(Error::Llm) when failover disallowed"),
    }
}

#[test]
fn classify_non_failover_eligible_llm_is_terminal_llm() {
    let err = AgentError::Llm(llm_error("bad key", false));
    match classify_agent_error(err, true) {
        AgentApiErrorDisposition::Terminal(Error::Llm(_)) => {}
        _ => panic!("expected Terminal(Error::Llm) for non-failover-eligible LLM error"),
    }
}

#[test]
fn classify_refusal_llm_returns_failover_when_allowed() {
    let err = AgentError::Llm(llm_error("fable-5 refused", true));
    assert!(matches!(
        classify_agent_error(err, true),
        AgentApiErrorDisposition::FailoverEligible(_)
    ));
}

#[test]
fn classify_refusal_llm_returns_terminal_when_not_allowed() {
    let err = AgentError::Llm(llm_error("fable-5 refused", true));
    match classify_agent_error(err, false) {
        AgentApiErrorDisposition::Terminal(Error::Llm(llm_err)) => {
            assert!(llm_err.message.contains("fable-5 refused"));
        }
        _ => panic!("expected Terminal(Error::Llm) when refusal failover is disallowed"),
    }
}

#[test]
fn classify_session_closed_is_terminal_precondition() {
    let err = AgentError::Session("Session is closed".to_string());
    match classify_agent_error(err, true) {
        AgentApiErrorDisposition::Terminal(Error::Precondition(message)) => {
            assert!(message.contains("Agent session failed"));
        }
        _ => panic!("expected Terminal(Error::Precondition) for SessionClosed"),
    }
}

#[test]
fn classify_invalid_state_is_terminal_precondition() {
    let err = AgentError::Session("Invalid state: oops".to_string());
    match classify_agent_error(err, true) {
        AgentApiErrorDisposition::Terminal(Error::Precondition(message)) => {
            assert!(message.contains("Agent session failed"));
        }
        _ => panic!("expected Terminal(Error::Precondition) for InvalidState"),
    }
}

#[test]
fn classify_tool_execution_is_terminal_precondition() {
    let err = AgentError::Session("Tool execution failed: tool blew up".to_string());
    match classify_agent_error(err, true) {
        AgentApiErrorDisposition::Terminal(Error::Precondition(message)) => {
            assert!(message.contains("Agent session failed"));
        }
        _ => panic!("expected Terminal(Error::Precondition) for ToolExecution"),
    }
}

// --- router ---

#[test]
fn router_uses_api_by_default() {
    let node = Node::new("test");
    assert_eq!(select_backend(&node).unwrap(), AgentBackend::Api);
}

#[test]
fn router_rejects_cli_backend() {
    let mut node = Node::new("test");
    node.attrs
        .insert("backend".to_string(), AttrValue::String("cli".to_string()));

    let err = select_backend(&node).unwrap_err();
    assert_eq!(
        err,
        Error::Validation(
            "unsupported agent backend \"cli\"; expected one of: api, acp".to_string()
        )
    );
    assert_eq!(
        router::node_timeout_policy(
            &node,
            NodeTimeoutPolicy::HandlerManaged,
            NodeTimeoutPolicy::HandlerManaged
        ),
        NodeTimeoutPolicy::ExecutorEnforced
    );
}

#[test]
fn router_routes_one_shot_to_api_by_default() {
    let node = Node::new("test");
    let router = BackendRouter::new("api one-shot", "acp");
    assert_eq!(select_one_shot_backend(&node), Ok(AgentBackend::Api));
    assert_eq!(*router.api(), "api one-shot");
    assert_eq!(*router.acp(), "acp");
}

#[test]
fn router_refuses_prompts_by_process() {
    let mut node = Node::new("test");
    node.attrs
        .insert("backend".to_string(), AttrValue::String("acp".to_string()));
    assert_eq!(select_backend(&node), Ok(AgentBackend::Acp));
    assert!(matches!(
        select_one_shot_backend(&node),
        Err(Error::Validation(_))
    ));
    assert_eq!(
        router::node_timeout_policy(
            &node,
            NodeTimeoutPolicy::ExecutorEnforced,
            NodeTimeoutPolicy::HandlerManaged
        ),
        NodeTimeoutPolicy::HandlerManaged
    );
}

#[test]
fn router_delegates_effective_request_controls_to_api_backend() {
    let node = Node::new("test");
    let api = EffectiveRequestControls {
        reasoning_effort: Some("high".to_string()),
        speed: Some("fast".to_string()),
    };
    let controls =
        router::effective_request_controls(&node, Ok(api), Ok(effort(None))).unwrap();
    assert_eq!(controls.reasoning_effort.as_deref(), Some("high"));
    assert_eq!(controls.speed.as_deref(), Some("fast"));
}
