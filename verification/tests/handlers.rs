use fabro_workflow::context::Context;
use fabro_workflow::error::Error;
use fabro_workflow::graph::{AttrValue, Node};
use fabro_workflow::handler::basic::{
    format_panic_message, ConditionalHandler, NodeTimeoutPolicy, StartHandler, WaitHandler,
};
use fabro_workflow::handler::branch_result::{results_value, ParallelBranchResult};
use fabro_workflow::handler::fan_in::{joined_outcome, FanInHandler, JoinStep};
use fabro_workflow::handler::llm::acp::AgentAcpBackend;
use fabro_workflow::handler::registry::{
    default_registry, dispatch_handler, should_retry, BuiltIn, Dispatch, HandlerRegistry,
};
use fabro_workflow::json::Json;
use fabro_workflow::keys;
use fabro_workflow::outcome::{Outcome, StageOutcome};
use fabro_workflow::table::Table;

fn text(value: &str) -> AttrValue {
    AttrValue::String(value.to_string())
}

fn node_with(id: &str, key: &str, value: &str) -> Node {
    let mut node = Node::new(id);
    node.attrs.insert(key.to_string(), text(value));
    node
}

#[test]
fn resolve_by_explicit_type() {
    let mut registry = HandlerRegistry::new("default");
    registry.register("human", "human");

    let node = node_with("gate", "type", "human");
    assert_eq!(*registry.resolve(&node), "human");
}

#[test]
fn resolve_by_shape() {
    let mut registry = HandlerRegistry::new("default");
    registry.register("start", "start");

    let node = node_with("entry", "shape", "Mdiamond");
    assert_eq!(*registry.resolve(&node), "start");
}

#[test]
fn resolve_falls_back_to_default() {
    let registry = HandlerRegistry::new("default");
    let node = Node::new("work");
    assert_eq!(*registry.resolve(&node), "default");
}

#[test]
fn register_replaces_existing() {
    let mut registry = HandlerRegistry::new("default");
    registry.register("start", "first");
    registry.register("start", "second");

    let node = node_with("s", "shape", "Mdiamond");
    assert_eq!(*registry.resolve(&node), "second");
}

#[test]
fn unregistered_type_falls_back_to_shape() {
    let mut registry = HandlerRegistry::new("default");
    registry.register("start", "start");
    let mut node = node_with("s", "shape", "Mdiamond");
    node.attrs.insert("type".to_string(), text("no.such.type"));
    assert_eq!(*registry.resolve(&node), "start");
}

#[test]
fn default_should_retry_uses_is_retryable() {
    assert!(should_retry(&Error::handler("timeout")));
    assert!(!should_retry(&Error::Parse("bad".to_string())));
}

#[test]
fn timeout_policy_defaults_to_executor_enforced() {
    for handler in [
        BuiltIn::Start,
        BuiltIn::Exit,
        BuiltIn::Agent,
        BuiltIn::Prompt,
        BuiltIn::Conditional,
        BuiltIn::Parallel,
        BuiltIn::FanIn,
        BuiltIn::SubWorkflow,
        BuiltIn::Wait,
    ] {
        assert_eq!(
            handler.node_timeout_policy(None),
            NodeTimeoutPolicy::ExecutorEnforced
        );
    }
}

#[test]
fn built_in_handlers_that_consume_node_timeout_manage_it_themselves() {
    let acp: AgentAcpBackend<(), ()> = AgentAcpBackend::new();

    assert_eq!(
        BuiltIn::Human.node_timeout_policy(None),
        NodeTimeoutPolicy::HandlerManaged
    );
    assert_eq!(
        BuiltIn::Command.node_timeout_policy(None),
        NodeTimeoutPolicy::HandlerManaged
    );
    assert_eq!(acp.node_timeout_policy(), NodeTimeoutPolicy::HandlerManaged);
}

#[test]
fn agent_handler_delegates_timeout_policy_to_backend() {
    let acp: AgentAcpBackend<(), ()> = AgentAcpBackend::new();
    assert_eq!(
        BuiltIn::Agent.node_timeout_policy(Some(acp.node_timeout_policy())),
        NodeTimeoutPolicy::HandlerManaged
    );
}

#[test]
fn default_registry_serves_every_built_in_type() {
    let registry = default_registry();
    let cases = [
        ("start", BuiltIn::Start),
        ("exit", BuiltIn::Exit),
        ("agent", BuiltIn::Agent),
        ("prompt", BuiltIn::Prompt),
        ("conditional", BuiltIn::Conditional),
        ("human", BuiltIn::Human),
        ("command", BuiltIn::Command),
        ("tool", BuiltIn::Command),
        ("parallel", BuiltIn::Parallel),
        ("parallel.fan_in", BuiltIn::FanIn),
        ("stack.manager_loop", BuiltIn::SubWorkflow),
        ("wait", BuiltIn::Wait),
    ];
    for (name, handler) in cases {
        assert_eq!(*registry.resolve(&node_with("n", "type", name)), handler);
    }
    assert_eq!(
        *registry.resolve(&node_with("n", "shape", "insulator")),
        BuiltIn::Wait
    );
    assert_eq!(*registry.resolve(&Node::new("n")), BuiltIn::Agent);
    assert_eq!(registry.names().len(), 12);

    assert!(registry.default_handler().takes_backend());
    let with_backend: Vec<String> = registry
        .names()
        .into_iter()
        .filter(|name| registry.get(name).unwrap().takes_backend())
        .collect();
    assert_eq!(with_backend, ["agent", "parallel.fan_in", "prompt"]);
    let with_interviewer: Vec<String> = registry
        .names()
        .into_iter()
        .filter(|name| registry.get(name).unwrap().takes_interviewer())
        .collect();
    assert_eq!(with_interviewer, ["human"]);
}

#[test]
fn dry_runs_are_simulated() {
    assert_eq!(dispatch_handler(true), Dispatch::Simulate);
    assert_eq!(dispatch_handler(false), Dispatch::Execute);
    let outcome = Outcome::simulated("my_node");
    assert_eq!(outcome.status, StageOutcome::Succeeded);
    assert_eq!(outcome.notes.as_deref(), Some("[Simulated] my_node"));
}

#[test]
fn conditional_handler_returns_success_with_note() {
    let outcome = ConditionalHandler.execute(&Node::new("gate"));
    assert_eq!(outcome.status, StageOutcome::Succeeded);
    assert_eq!(
        outcome.notes.as_deref(),
        Some("Conditional node evaluated: gate")
    );
}

#[test]
fn start_handler_returns_success() {
    let outcome = StartHandler.execute();
    assert_eq!(outcome.status, StageOutcome::Succeeded);
}

#[test]
fn wait_timer_success_with_short_duration() {
    let mut node = Node::new("wait60");
    node.attrs
        .insert("duration".to_string(), AttrValue::Duration(1));
    assert_eq!(WaitHandler.delay_of(&node), Ok(1));
    assert_eq!(WaitHandler.finished().status, StageOutcome::Succeeded);
}

#[test]
fn wait_timer_errors_without_duration() {
    let node = Node::new("wait_no_dur");
    assert_eq!(
        WaitHandler.delay_of(&node),
        Err(Error::Validation(
            "wait node \"wait_no_dur\" is missing a valid `duration` attribute".to_string()
        ))
    );
    let quoted = Node::new("a\"b");
    assert_eq!(
        WaitHandler.delay_of(&quoted),
        Err(Error::Validation(
            "wait node \"a\\\"b\" is missing a valid `duration` attribute".to_string()
        ))
    );
}

#[test]
fn panics_are_told_with_their_message() {
    assert_eq!(
        format_panic_message(Some("boom")),
        "handler panicked: boom"
    );
    assert_eq!(format_panic_message(None), "handler panicked");
}

fn context_with_results() -> Context {
    let mut context: Context = Table::new();
    context.insert(
        keys::PARALLEL_RESULTS.to_string(),
        Json::parse(
            r#"[
                {
                    "id": "branch_a",
                    "status": "failed",
                    "context_updates": {"command.output": "failure details"}
                },
                {
                    "id": "branch_b",
                    "status": "succeeded",
                    "context_updates": {"response.branch_b": "complete response"}
                }
            ]"#,
        )
        .unwrap(),
    );
    context
}

#[test]
fn promptless_fan_in_is_a_noop_barrier() {
    let handler: FanInHandler<()> = FanInHandler::new(None);
    let step = handler.run_join(&Node::new("fan_in"), &context_with_results(), false);
    match step {
        Ok(JoinStep::Joined(outcome)) => {
            assert_eq!(outcome.status, StageOutcome::Succeeded);
            assert_eq!(outcome.notes.as_deref(), Some("Joined 2 parallel branches"));
            assert!(outcome.context_updates.is_empty());
        }
        other => panic!("unexpected step: {other:?}"),
    }
}

#[test]
fn fan_in_requires_typed_parallel_results() {
    let handler: FanInHandler<()> = FanInHandler::new(None);
    let mut context: Context = Table::new();
    assert!(handler
        .run_join(&Node::new("fan_in"), &context, false)
        .is_err());

    context.insert(
        keys::PARALLEL_RESULTS.to_string(),
        Json::parse(r#"[{"id": "a"}]"#).unwrap(),
    );
    assert!(handler
        .run_join(&Node::new("fan_in"), &context, false)
        .is_err());
}

#[test]
fn prompted_fan_in_is_handed_on() {
    let handler = FanInHandler::new(Some("backend"));
    let node = node_with("fan_in", "prompt", "Synthesize every result");
    assert_eq!(
        handler.run_join(&node, &context_with_results(), false),
        Ok(JoinStep::Prompt)
    );
    assert_eq!(*handler.backend(), Some("backend"));
    let blank = node_with("fan_in", "prompt", " \n\t");
    assert!(matches!(
        handler.run_join(&blank, &context_with_results(), false),
        Ok(JoinStep::Joined(_))
    ));
}

#[test]
fn joined_branches_are_counted_in_words() {
    assert_eq!(
        joined_outcome(1, false).notes.as_deref(),
        Some("Joined 1 parallel branch")
    );
    assert_eq!(
        joined_outcome(0, true).notes.as_deref(),
        Some("[Simulated] Joined 0 parallel branches")
    );
}

#[test]
fn fan_in_counts_what_fan_out_wrote() {
    let results: Vec<ParallelBranchResult> = ["a", "b", "c"]
        .iter()
        .map(|id| ParallelBranchResult {
            id: id.to_string(),
            index: None,
            item_label: None,
            status: StageOutcome::Succeeded,
            context_updates: Table::new(),
        })
        .collect();
    let mut context: Context = Table::new();
    context.insert(keys::PARALLEL_RESULTS.to_string(), results_value(&results));
    let handler: FanInHandler<()> = FanInHandler::new(None);
    match handler.run_join(&Node::new("join"), &context, false) {
        Ok(JoinStep::Joined(outcome)) => {
            assert_eq!(outcome.notes.as_deref(), Some("Joined 3 parallel branches"));
        }
        other => panic!("unexpected step: {other:?}"),
    }
}
