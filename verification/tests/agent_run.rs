use fabro_workflow::error::{Error, LlmError};
use fabro_workflow::handler::llm::agent_error::AgentError;
use fabro_workflow::handler::llm::agent_run::{
    last_assistant_response, session_key, AgentRun, EndingAct, Failure, RunAction, RunEvent,
    SessionFate, Settled, Turn,
};
use fabro_workflow::handler::llm::backend::SessionCache;
use fabro_workflow::handler::llm::changed_files::{
    changed_files, files_touched_since, last_file_touched, listing_command, newest_command,
};
use fabro_workflow::handler::llm::controls::EffectiveRequestControls;
use fabro_workflow::handler::llm::fallback::{
    fallback_plan, Candidate, FallbackPlan, FallbackTarget, Offering,
};
use fabro_workflow::handler::llm::file_tracking::UsageLedger;
use fabro_workflow::handler::llm::one_shot::{route_request, OneShot, OneShotStep, Role};
use fabro_workflow::handler::llm::refresh::{next_delay, refresh_plan, Mint, RefreshPlan};
use fabro_workflow::handler::schema_issue::ValidSchema;
use fabro_workflow::handler::structured_output::{
    validate_response_text, OutputSchemaKind, ResponseFormatType,
};
use fabro_workflow::json::Json;
use fabro_workflow::keys::Fidelity;

fn plan(fallbacks: &[(&str, &str)]) -> FallbackPlan {
    let chain: Vec<Candidate> = fallbacks
        .iter()
        .map(|(provider, model)| Candidate {
            target: FallbackTarget::new(provider, model),
            offering: Offering::Unknown,
        })
        .collect();
    let controls = EffectiveRequestControls {
        reasoning_effort: None,
        speed: None,
    };
    fallback_plan(FallbackTarget::new("p", "m"), controls, &chain).0
}

fn schema() -> OutputSchemaKind {
    OutputSchemaKind::JsonSchema {
        schema: ValidSchema::compile(
            Json::parse(
                r#"{"type": "object", "required": ["passed"],
                    "properties": {"passed": {"type": "boolean"}}}"#,
            )
            .unwrap(),
        )
        .unwrap(),
    }
}

fn overloaded() -> LlmError {
    LlmError {
        message: "overloaded".to_string(),
        failover_eligible: true,
        retryable: true,
    }
}

/// What a response reports to have used.
fn used(input_tokens: u64, output_tokens: u64, cost_usd_micros: u64) -> Json {
    Json::parse(&format!(
        r#"{{"input_tokens": {input_tokens}, "output_tokens": {output_tokens},
            "cost_usd_micros": {cost_usd_micros}}}"#
    ))
    .unwrap()
}

/// The sum of one number over everything that was counted.
fn total(ledger: &UsageLedger, key: &str) -> u64 {
    ledger
        .inputs()
        .iter()
        .map(|input| input.get(key).and_then(Json::as_u64).unwrap())
        .sum()
}

#[test]
fn one_shot_falls_back_after_refusal_error() {
    let controls = EffectiveRequestControls {
        reasoning_effort: None,
        speed: None,
    };
    let chain = vec![Candidate {
        target: FallbackTarget::new("openai", "gpt-5.5"),
        offering: Offering::Unknown,
    }];
    let (plan, notices) = fallback_plan(
        FallbackTarget::new("anthropic", "fable-5"),
        controls,
        &chain,
    );
    assert!(notices.is_empty());
    let mut one_shot = OneShot::new(plan, None, "Hello", None, 0);
    assert_eq!(
        one_shot
            .messages()
            .iter()
            .map(|m| (m.role, m.text.as_str()))
            .collect::<Vec<_>>(),
        [(Role::User, "Hello")]
    );
    let request = route_request(&one_shot, Some(128), None);
    assert_eq!(
        (request.provider.as_str(), request.model.as_str()),
        ("anthropic", "fable-5")
    );
    assert_eq!(request.max_tokens, Some(128));
    assert!(request.response_format.is_none());
    match one_shot.on_error(overloaded(), "fable-5 refused") {
        OneShotStep::Failover(failover) => {
            assert_eq!(failover.original_provider, "anthropic");
            assert_eq!(failover.original_model, "fable-5");
            assert_eq!(failover.attempt, 1);
            assert_eq!(failover.from_provider, "anthropic");
            assert_eq!(failover.from_model, "fable-5");
            assert_eq!(failover.to_provider, "openai");
            assert_eq!(failover.to_model, "gpt-5.5");
            assert_eq!(failover.requested_reasoning_effort, None);
            assert_eq!(failover.effective_reasoning_effort, None);
            assert!(failover.error.contains("refused"));
        }
        other => panic!("unexpected step: {other:?}"),
    }
    let request = route_request(&one_shot, None, Some(100));
    assert_eq!(
        (request.provider.as_str(), request.model.as_str()),
        ("openai", "gpt-5.5")
    );
    assert_eq!(request.max_tokens, Some(100));
    assert_eq!(
        one_shot.on_response("fallback ok", used(1, 1, 0)),
        OneShotStep::Done
    );
}

#[test]
fn refusals_fail_a_completion_without_another_route() {
    let mut one_shot = OneShot::new(plan(&[]), Some("be brief"), "hi", None, 2);
    assert_eq!(
        one_shot
            .messages()
            .iter()
            .map(|m| (m.role, m.text.as_str()))
            .collect::<Vec<_>>(),
        [(Role::System, "be brief"), (Role::User, "hi")]
    );
    assert_eq!(
        one_shot.on_error(overloaded(), "refused"),
        OneShotStep::Fail(Error::Llm(overloaded()))
    );
    assert!(one_shot.usage().inputs().is_empty());
}

#[test]
fn explicit_provider_one_shot_stays_on_fallback_during_output_repair() {
    let mut one_shot = OneShot::new(
        plan(&[("fallback", "n")]),
        None,
        "Audit the result",
        Some(schema()),
        1,
    );
    assert!(matches!(
        one_shot.on_error(overloaded(), "primary credential expired"),
        OneShotStep::Failover(_)
    ));
    assert_eq!(
        one_shot.on_response("not json", used(10, 1, 0)),
        OneShotStep::Request
    );
    let request = route_request(&one_shot, Some(7), Some(100));
    assert_eq!(request.provider, "fallback");
    assert_eq!(request.max_tokens, Some(7));
    let format = request.response_format.unwrap();
    assert_eq!(format.kind, ResponseFormatType::JsonSchema);
    assert_eq!(request.messages.len(), 3);
    assert_eq!(request.messages[1].role, Role::Assistant);
    assert_eq!(request.messages[1].text, "not json");
    assert_eq!(
        one_shot.on_response(r#"{"passed":true}"#, used(11, 2, 0)),
        OneShotStep::Done
    );
}

#[test]
fn one_shot_repairs_custom_output_schema_with_previous_assistant_message() {
    let mut one_shot = OneShot::new(plan(&[]), None, "Audit the result", Some(schema()), 1);
    let first = route_request(&one_shot, None, None);
    assert_eq!(
        first.response_format.unwrap().kind,
        ResponseFormatType::JsonSchema
    );
    assert!(first.messages.iter().all(|m| m.role != Role::Assistant));
    assert_eq!(
        one_shot.on_response("not json", used(10, 1, 40_000)),
        OneShotStep::Request
    );
    let repair = route_request(&one_shot, None, None);
    assert_eq!(
        repair.response_format.unwrap().kind,
        ResponseFormatType::JsonSchema
    );
    assert_eq!(repair.messages[1].role, Role::Assistant);
    assert_eq!(repair.messages[1].text, "not json");
    assert!(repair.messages[2].text.contains("output_schema"));
    assert_eq!(
        one_shot.on_response(r#"{"passed":true}"#, used(11, 2, 60_000)),
        OneShotStep::Done
    );
    assert_eq!(total(one_shot.usage(), "input_tokens"), 21);
    assert_eq!(total(one_shot.usage(), "output_tokens"), 3);
    assert_eq!(total(one_shot.usage(), "cost_usd_micros"), 100_000);
}

#[test]
fn one_shot_repairs_run_out() {
    let mut one_shot = OneShot::new(plan(&[]), None, "audit", Some(schema()), 1);
    assert_eq!(
        one_shot.on_response("nothing", used(1, 1, 0)),
        OneShotStep::Request
    );
    assert_eq!(
        one_shot.on_response("nothing", used(1, 1, 0)),
        OneShotStep::Fail(Error::OutputSchemaValidation(
            "output schema validation failed after 1 repair attempt(s)".to_string()
        ))
    );
    assert_eq!(one_shot.usage().inputs().len(), 2);
}

/// Brings a run to its prompt.
fn prompted(run: &mut AgentRun) {
    assert_eq!(
        run.step(RunEvent::Created, false).action,
        RunAction::Initialize
    );
    assert_eq!(
        run.step(RunEvent::Initialized, false).action,
        RunAction::Attach
    );
    assert!(matches!(
        run.step(RunEvent::Attached, false).action,
        RunAction::Prompt { .. }
    ));
}

fn answered(input_tokens: u64, output_tokens: u64) -> RunEvent {
    RunEvent::Answered {
        usage: used(input_tokens, output_tokens, 0),
    }
}

/// Brings a run that has its answer to its end.
fn finish(run: &mut AgentRun) -> SessionFate {
    match run.step(RunEvent::Billed, false).action {
        RunAction::Finish(fate) => fate,
        other => panic!("unexpected action: {other:?}"),
    }
}

fn nested_schema() -> OutputSchemaKind {
    OutputSchemaKind::JsonSchema {
        schema: ValidSchema::compile(
            Json::parse(
                r#"{"type":"object","required":["findings"],"properties":{"findings":{"type":"array","items":{"type":"object","required":["rationale"],"properties":{"rationale":{"type":"string"}}}}}}"#,
            )
            .unwrap(),
        )
        .unwrap(),
    }
}

#[test]
fn agent_run_without_a_schema_ends_with_its_answer() {
    let (mut run, first) = AgentRun::start(plan(&[]), None, false, None, 2, false);
    assert_eq!(first.action, RunAction::Create);
    prompted(&mut run);
    assert_eq!(run.step(answered(1, 1), false).action, RunAction::Bill);
    assert_eq!(finish(&mut run), SessionFate::EndAndTell);
}

#[test]
fn unbilled_runs_fail_and_keep_no_session() {
    let key = Some("main".to_string());
    let (mut run, _) = AgentRun::start(plan(&[]), key, false, None, 2, false);
    prompted(&mut run);
    run.step(answered(1, 1), false);
    let error = || Error::Precondition("no price".to_string());
    let step = run.step(RunEvent::NotBilled(error()), false);
    assert_eq!(step.teardowns, 0);
    assert_eq!(step.action, RunAction::Fail(error()));
}

#[test]
fn sessions_of_threads_are_kept_with_their_routes() {
    let mut sessions = SessionCache::new();
    let key = session_key(Fidelity::Full, Some("main"));
    let (mut run, _) = AgentRun::start(plan(&[("q", "n")]), key, false, None, 2, false);
    prompted(&mut run);
    let failed = RunEvent::AgentFailed {
        error: AgentError::Llm(overloaded()),
        shown: "overloaded".to_string(),
    };
    assert!(matches!(
        run.step(failed, false).action,
        RunAction::Failover(_)
    ));
    prompted(&mut run);
    run.step(answered(2, 3), false);
    let fate = finish(&mut run);
    assert_eq!(fate, SessionFate::Keep("main".to_string()));
    assert!(matches!(
        run.settle_session(fate, "session", &mut sessions),
        Settled::Kept
    ));
    let kept = sessions.take("main").unwrap();
    assert_eq!(kept.session, "session");
    assert_eq!(kept.fallback_plan.attempt(), 1);

    let key = session_key(Fidelity::Compact, Some("main"));
    let (mut run, _) = AgentRun::start(plan(&[]), key, false, None, 2, false);
    prompted(&mut run);
    run.step(answered(2, 3), false);
    let fate = finish(&mut run);
    match run.settle_session(fate, "session", &mut sessions) {
        Settled::Ending { session, acts } => {
            assert_eq!(session, "session");
            assert_eq!(
                acts,
                [
                    EndingAct::ShutDown,
                    EndingAct::AwaitEnd,
                    EndingAct::TellEnd
                ]
            );
        }
        Settled::Kept => panic!("a stage without full fidelity keeps no session"),
    }
    assert!(sessions.is_empty());
}

#[test]
fn agent_run_repairs_custom_output_schema_in_same_session() {
    let (mut run, _) = AgentRun::start(plan(&[]), None, false, Some(schema()), 1, false);
    prompted(&mut run);
    assert_eq!(run.step(answered(20, 3), false).action, RunAction::Validate);
    let error = validate_response_text(&schema(), "not json").unwrap_err();
    let step = run.step(RunEvent::Invalid(error), false);
    assert_eq!(step.teardowns, 0);
    match step.action {
        RunAction::Repair { message } => {
            assert!(message.contains("output_schema"));
            assert!(message.contains(r#""required":["passed"]"#));
            assert!(!message.contains("unchanged from your previous repair"));
        }
        other => panic!("unexpected action: {other:?}"),
    }
    assert_eq!(run.step(answered(21, 4), false).action, RunAction::Validate);
    assert!(validate_response_text(&schema(), r#"{"passed":true}"#).is_ok());
    assert_eq!(run.step(RunEvent::Valid, false).action, RunAction::Bill);
    assert_eq!(total(run.usage(), "input_tokens"), 41);
    assert_eq!(total(run.usage(), "output_tokens"), 7);
    assert_eq!(finish(&mut run), SessionFate::EndAndTell);
}

#[test]
fn agent_run_identifies_a_schema_error_repeated_during_repair() {
    let schema = nested_schema;
    let (mut run, _) = AgentRun::start(plan(&[]), None, false, Some(schema()), 2, false);
    prompted(&mut run);
    let invalid = || {
        RunEvent::Invalid(validate_response_text(&schema(), r#"{"findings":[{}]}"#).unwrap_err())
    };
    run.step(answered(20, 3), false);
    match run.step(invalid(), false).action {
        RunAction::Repair { message } => {
            assert!(message.contains("JSON Pointer `/findings/0/rationale`"));
            assert!(!message.contains("unchanged from your previous repair"));
        }
        other => panic!("unexpected action: {other:?}"),
    }
    run.step(answered(21, 4), false);
    match run.step(invalid(), false).action {
        RunAction::Repair { message } => {
            assert!(message.contains("JSON Pointer `/findings/0/rationale`"));
            assert!(message.contains("unchanged from your previous repair"));
        }
        other => panic!("unexpected action: {other:?}"),
    }
    run.step(answered(22, 5), false);
    assert!(validate_response_text(&schema(), r#"{"findings":[{"rationale":"done"}]}"#).is_ok());
    assert_eq!(run.step(RunEvent::Valid, false).action, RunAction::Bill);
}

#[test]
fn repairs_of_an_agents_output_run_out() {
    let (mut run, _) = AgentRun::start(plan(&[]), None, false, Some(schema()), 2, false);
    prompted(&mut run);
    let invalid = || {
        RunEvent::Invalid(validate_response_text(&schema(), r#"{"passed": 1}"#).unwrap_err())
    };
    for _ in 0..2 {
        run.step(answered(1, 1), false);
        assert!(matches!(
            run.step(invalid(), false).action,
            RunAction::Repair { .. }
        ));
    }
    run.step(answered(1, 1), false);
    let last = run.step(invalid(), false);
    assert_eq!(last.teardowns, 1);
    assert_eq!(
        last.action,
        RunAction::Fail(Error::OutputSchemaValidation(
            "output schema validation failed after 2 repair attempt(s)".to_string()
        ))
    );
}

#[test]
fn agent_output_repair_continues_on_the_original_models_fallback_plan() {
    let routes = plan(&[("fallback", "n")]);
    let (mut run, _) = AgentRun::start(routes, None, false, Some(schema()), 1, false);
    prompted(&mut run);
    run.step(answered(20, 3), false);
    let error = validate_response_text(&schema(), "not json").unwrap_err();
    run.step(RunEvent::Invalid(error), false);
    let failover = run.step(
        RunEvent::AgentFailed {
            error: AgentError::Llm(overloaded()),
            shown: "primary credential expired".to_string(),
        },
        false,
    );
    assert_eq!(failover.teardowns, 1);
    match failover.action {
        RunAction::Failover(props) => {
            assert_eq!(props.original_model, "m");
            assert_eq!(props.to_provider, "fallback");
            assert_eq!(props.error, "primary credential expired");
        }
        other => panic!("unexpected action: {other:?}"),
    }
    prompted(&mut run);
    assert_eq!(run.step(answered(22, 4), false).action, RunAction::Validate);
    assert!(validate_response_text(&schema(), r#"{"passed":true}"#).is_ok());
    assert_eq!(run.step(RunEvent::Valid, false).action, RunAction::Bill);
    assert_eq!(run.plan().attempt(), 1);
    // What the route that was left used is counted too.
    assert_eq!(total(run.usage(), "input_tokens"), 42);
}

#[test]
fn cancelled_runs_do_not_start() {
    let (_, first) = AgentRun::start(plan(&[]), None, true, None, 2, true);
    assert_eq!(first.action, RunAction::Fail(Error::Cancelled));
    let (mut run, _) = AgentRun::start(plan(&[]), None, false, None, 2, false);
    assert_eq!(
        run.step(RunEvent::Created, true).action,
        RunAction::Fail(Error::Cancelled)
    );
}

#[test]
fn reused_sessions_are_attached_at_once() {
    let (mut run, first) = AgentRun::start(plan(&[]), None, true, None, 2, false);
    assert_eq!(first.action, RunAction::Attach);
    assert_eq!(
        run.step(RunEvent::Attached, false).action,
        RunAction::Prompt {
            announce_tools: false
        }
    );
}

#[test]
fn unusable_routes_are_passed_over_in_a_failover() {
    let (mut run, _) = AgentRun::start(plan(&[("q", "n"), ("r", "o")]), None, false, None, 2, false);
    prompted(&mut run);
    run.step(
        RunEvent::AgentFailed {
            error: AgentError::Llm(overloaded()),
            shown: "overloaded".to_string(),
        },
        false,
    );
    let unresolved = |shown: &str| {
        RunEvent::Unresolved(Failure {
            error: Error::Precondition(shown.to_string()),
            shown: shown.to_string(),
        })
    };
    match run.step(unresolved("unknown provider"), false).action {
        RunAction::Failover(props) => {
            assert_eq!(props.to_model, "o");
            assert_eq!(props.error, "unknown provider");
        }
        other => panic!("unexpected action: {other:?}"),
    }
    let last = run.step(unresolved("unknown too"), false);
    assert_eq!(
        last.action,
        RunAction::Fail(Error::Precondition("unknown too".to_string()))
    );
    assert!(!run.plan().has_next());
}

#[test]
fn last_words_are_the_assistants() {
    let turns = vec![
        Turn::Assistant("first".to_string()),
        Turn::Other,
        Turn::Assistant("last".to_string()),
        Turn::Assistant(String::new()),
        Turn::Other,
    ];
    assert_eq!(last_assistant_response(&turns), "last");
    assert_eq!(last_assistant_response(&vec![Turn::Other]), "");
}

#[test]
fn only_full_fidelity_shares_a_session() {
    assert_eq!(
        session_key(Fidelity::Full, Some("main")),
        Some("main".to_string())
    );
    assert_eq!(session_key(Fidelity::Full, None), None);
    assert_eq!(session_key(Fidelity::Compact, Some("main")), None);
}

#[test]
fn credentials_are_minted_on_time() {
    assert_eq!(
        refresh_plan(None, None),
        RefreshPlan {
            at_entry: true,
            every: Some(45 * 60)
        }
    );
    assert_eq!(
        refresh_plan(Some("off"), Some("60")),
        RefreshPlan {
            at_entry: false,
            every: None
        }
    );
    assert_eq!(next_delay(2700, Mint::Refreshed), 2700);
    assert_eq!(next_delay(2700, Mint::Skipped), 2700);
    assert!(next_delay(2700, Mint::Failed) < 2700);
    assert_eq!(next_delay(10, Mint::TimedOut), 10);
}

#[test]
fn changed_files_are_found_by_what_is_new() {
    let stdout = "__FABRO_CHANGED_FILES_DIFF__\nb.rs\na.rs\n\
                  __FABRO_CHANGED_FILES_UNTRACKED__\na.rs\nc.rs\n";
    let after = changed_files(Some(stdout));
    assert_eq!(after, vec!["a.rs", "b.rs", "c.rs"]);
    assert!(changed_files(None).is_empty());
    let before = vec!["b.rs".to_string()];
    assert_eq!(files_touched_since(&before, &after), vec!["a.rs", "c.rs"]);
    assert_eq!(last_file_touched(Some("c.rs\n")), Some("c.rs".to_string()));
    assert_eq!(last_file_touched(Some(" \n")), None);
    assert_eq!(last_file_touched(None), None);
}

#[test]
fn listings_take_quoted_words() {
    assert_eq!(
        newest_command(&vec!["a.rs".to_string(), "'b c.rs'".to_string()]),
        "ls -t a.rs 'b c.rs' | head -1"
    );
    assert_eq!(
        listing_command(
            "__FABRO_CHANGED_FILES_DIFF__",
            "__FABRO_CHANGED_FILES_UNTRACKED__"
        ),
        "printf '%s\\n' __FABRO_CHANGED_FILES_DIFF__; git diff --name-only || true; \
         printf '%s\\n' __FABRO_CHANGED_FILES_UNTRACKED__; \
         git ls-files --others --exclude-standard || true"
    );
}
