use fabro_workflow::context::Context;
use fabro_workflow::graph::{AttrValue, Graph, Node};
use fabro_workflow::handler::llm::preamble::{build_preamble, is_context_key_excluded};
use fabro_workflow::json::Json;
use fabro_workflow::keys;
use fabro_workflow::keys::Fidelity;
use fabro_workflow::outcome::{ModelUsage, Outcome};
use fabro_workflow::table::Table;

fn set(context: &mut Context, key: &str, value: Json) {
    context.insert(key.to_string(), value);
}

fn stage_usage(model: &str, input_tokens: u64, output_tokens: u64) -> ModelUsage {
    ModelUsage {
        model_id: model.to_string(),
        detail: Json::Object(vec![
            ("input_tokens".to_string(), Json::from_u64(input_tokens)),
            ("output_tokens".to_string(), Json::from_u64(output_tokens)),
        ]),
    }
}

// --- truncate mode ---

#[test]
fn build_preamble_truncate_includes_goal_and_run_id() {
    let mut graph = Graph::new("test");
    graph.attrs.insert(
        "goal".to_string(),
        AttrValue::String("Fix the login bug".to_string()),
    );
    let mut context: Context = Table::new();
    set(&mut context, keys::INTERNAL_RUN_ID, Json::from_str("abc-123"));
    let completed_nodes: Vec<String> = Vec::new();
    let node_outcomes: Table<Outcome> = Table::new();

    let preamble = build_preamble(
        Fidelity::Truncate,
        &context,
        &graph,
        &completed_nodes,
        &node_outcomes,
    );

    assert!(
        preamble.contains("Fix the login bug"),
        "should contain the goal"
    );
    assert!(preamble.contains("Run ID:"), "should contain run ID label");
    assert!(
        preamble.contains("abc-123"),
        "should contain the run ID value"
    );
}

#[test]
fn build_preamble_truncate_excludes_completed_stages() {
    let mut graph = Graph::new("test");
    graph.attrs.insert(
        "goal".to_string(),
        AttrValue::String("Deploy app".to_string()),
    );
    let context: Context = Table::new();
    let completed_nodes = vec!["plan".to_string(), "code".to_string()];
    let mut node_outcomes: Table<Outcome> = Table::new();
    node_outcomes.insert("plan".to_string(), Outcome::success());
    node_outcomes.insert("code".to_string(), Outcome::success());

    let preamble = build_preamble(
        Fidelity::Truncate,
        &context,
        &graph,
        &completed_nodes,
        &node_outcomes,
    );

    assert!(
        !preamble.contains("plan"),
        "truncate should not list completed stages"
    );
    assert!(
        !preamble.contains("code"),
        "truncate should not list completed stages"
    );
}

// --- compact mode ---

#[test]
fn build_preamble_compact_lists_completed_stages() {
    let mut graph = Graph::new("test");
    graph.attrs.insert(
        "goal".to_string(),
        AttrValue::String("Deploy app".to_string()),
    );
    let mut context: Context = Table::new();
    set(&mut context, keys::INTERNAL_RUN_ID, Json::from_str("run-456"));
    let completed_nodes = vec!["plan".to_string(), "code".to_string()];
    let mut node_outcomes: Table<Outcome> = Table::new();
    node_outcomes.insert("plan".to_string(), Outcome::success());
    node_outcomes.insert(
        "code".to_string(),
        Outcome::fail_deterministic("compilation error"),
    );

    let preamble = build_preamble(
        Fidelity::Compact,
        &context,
        &graph,
        &completed_nodes,
        &node_outcomes,
    );

    assert!(preamble.contains("Deploy app"), "should contain the goal");
    assert!(
        preamble.contains("## Completed stages"),
        "should have Completed stages heading"
    );
    assert!(
        preamble.contains("**plan**"),
        "should list completed stage 'plan' in bold"
    );
    assert!(
        preamble.contains("succeeded"),
        "should show plan's success status"
    );
    assert!(
        preamble.contains("**code**"),
        "should list completed stage 'code' in bold"
    );
    assert!(
        preamble.contains("failed"),
        "should show code's fail status"
    );
}

#[test]
fn build_preamble_compact_includes_context_values() {
    let graph = Graph::new("test");
    let mut context: Context = Table::new();
    set(&mut context, keys::GRAPH_GOAL, Json::from_str("Build it"));
    set(&mut context, "user.name", Json::from_str("alice"));
    let completed_nodes: Vec<String> = Vec::new();
    let node_outcomes: Table<Outcome> = Table::new();

    let preamble = build_preamble(
        Fidelity::Compact,
        &context,
        &graph,
        &completed_nodes,
        &node_outcomes,
    );

    assert!(
        !preamble.contains("graph.goal"),
        "should exclude graph.* context keys"
    );
    assert!(
        preamble.contains("user.name"),
        "should include user.name context key"
    );
    assert!(preamble.contains("alice"), "should include context value");
}

#[test]
fn build_preamble_compact_excludes_internal_keys() {
    let graph = Graph::new("test");
    let mut context: Context = Table::new();
    set(&mut context, keys::INTERNAL_FIDELITY, Json::from_str("compact"));
    set(&mut context, &keys::retry_count_key("plan"), Json::from_u64(1));
    set(&mut context, keys::CURRENT_NODE, Json::from_str("work"));
    set(&mut context, &keys::graph_attr_key("default_fidelity"), Json::from_str("compact"));
    set(&mut context, "thread.main.current_node", Json::from_str("work"));
    set(&mut context, &keys::response_key("plan"), Json::from_str("some response"));
    set(&mut context, keys::LAST_STAGE, Json::from_str("plan"));
    set(&mut context, keys::LAST_RESPONSE, Json::from_str("resp"));
    set(&mut context, keys::PREFERRED_LABEL, Json::from_str("success"));
    set(&mut context, "user.name", Json::from_str("bob"));
    let completed_nodes: Vec<String> = Vec::new();
    let node_outcomes: Table<Outcome> = Table::new();

    let preamble = build_preamble(
        Fidelity::Compact,
        &context,
        &graph,
        &completed_nodes,
        &node_outcomes,
    );

    assert!(
        !preamble.contains("internal.fidelity"),
        "should exclude internal keys"
    );
    assert!(
        !preamble.contains("internal.retry_count"),
        "should exclude internal keys"
    );
    assert!(
        !preamble.contains("current_node"),
        "should exclude current keys"
    );
    assert!(
        !preamble.contains("graph.default_fidelity"),
        "should exclude graph.* keys"
    );
    assert!(
        !preamble.contains("thread.main"),
        "should exclude thread.* keys"
    );
    assert!(
        !preamble.contains("response.plan"),
        "should exclude response.* keys"
    );
    assert!(
        !preamble.contains("- last_stage:"),
        "should exclude last_stage"
    );
    assert!(
        !preamble.contains("- last_response:"),
        "should exclude last_response"
    );
    assert!(
        !preamble.contains("- preferred_label:"),
        "should exclude preferred_label"
    );
    assert!(
        preamble.contains("user.name"),
        "should include non-internal keys"
    );
}

#[test]
fn build_preamble_compact_shows_notes_on_stages() {
    // Compact no longer shows notes inline (handler-specific details replace them),
    // but notes are still available in the outcome for non-handler stages.
    let graph = Graph::new("test");
    let context: Context = Table::new();
    let completed_nodes = vec!["work".to_string()];
    let mut node_outcomes: Table<Outcome> = Table::new();
    let mut outcome = Outcome::success();
    outcome.notes = Some("auto-status: completed".to_string());
    node_outcomes.insert("work".to_string(), outcome);

    let preamble = build_preamble(
        Fidelity::Compact,
        &context,
        &graph,
        &completed_nodes,
        &node_outcomes,
    );

    // Compact uses bold node IDs and handler-specific details now
    assert!(
        preamble.contains("**work**"),
        "should include node ID in bold"
    );
    assert!(preamble.contains("succeeded"), "should show success status");
}

// --- compact handler-specific details ---

#[test]
fn compact_command_stage_shows_command_output() {
    let mut graph = Graph::new("test");
    let mut run_tests = Node::new("run_tests");
    run_tests.attrs.insert(
        "shape".to_string(),
        AttrValue::String("parallelogram".to_string()),
    );
    run_tests.attrs.insert(
        "script".to_string(),
        AttrValue::String("echo '10 passed'".to_string()),
    );
    graph.nodes.insert("run_tests".to_string(), run_tests);

    let context: Context = Table::new();
    let completed_nodes = vec!["run_tests".to_string()];
    let mut node_outcomes: Table<Outcome> = Table::new();
    let mut outcome = Outcome::success();
    outcome.context_updates.insert(
        keys::COMMAND_OUTPUT.to_string(), Json::from_str("10 passed\n"));
    node_outcomes.insert("run_tests".to_string(), outcome);

    let preamble = build_preamble(
        Fidelity::Compact,
        &context,
        &graph,
        &completed_nodes,
        &node_outcomes,
    );

    assert!(
        preamble.contains("Script: `echo '10 passed'`"),
        "should show script command"
    );
    assert!(preamble.contains("Output:"), "should show output label");
    assert!(preamble.contains("10 passed"), "should show output content");
    assert!(
        !preamble.contains("Stderr:"),
        "should not show stderr label"
    );
}

#[test]
fn compact_agent_loop_stage_shows_model_and_files() {
    let mut graph = Graph::new("test");
    let mut report = Node::new("report");
    report
        .attrs
        .insert("shape".to_string(), AttrValue::String("box".to_string()));
    graph.nodes.insert("report".to_string(), report);

    let context: Context = Table::new();
    let completed_nodes = vec!["report".to_string()];
    let mut node_outcomes: Table<Outcome> = Table::new();
    let mut outcome = Outcome::success();
    outcome.usage = Some(stage_usage("sonnet-4-20250514", 1234, 567));
    outcome.files_touched = vec!["src/lib.rs".to_string(), "src/main.rs".to_string()];
    node_outcomes.insert("report".to_string(), outcome);

    let preamble = build_preamble(
        Fidelity::Compact,
        &context,
        &graph,
        &completed_nodes,
        &node_outcomes,
    );

    assert!(
        preamble.contains("sonnet-4-20250514"),
        "should show model name"
    );
    assert!(
        !preamble.contains("tokens"),
        "token accounting must stay out of the agent-facing preamble; agents \
         read it as a budget signal, got:\n{preamble}"
    );
    assert!(
        preamble.contains("src/lib.rs, src/main.rs"),
        "should show files touched"
    );
}

#[test]
fn compact_context_excludes_engine_keys() {
    let graph = Graph::new("test");
    let mut context: Context = Table::new();
    set(&mut context, &keys::graph_attr_key("default_fidelity"), Json::from_str("compact"));
    set(&mut context, "thread.main.current_node", Json::from_str("work"));
    set(&mut context, &keys::response_key("plan"), Json::from_str("some LLM response"));
    set(&mut context, keys::LAST_STAGE, Json::from_str("plan"));
    set(&mut context, "user.preference", Json::from_str("dark"));
    let completed_nodes: Vec<String> = Vec::new();
    let node_outcomes: Table<Outcome> = Table::new();

    let preamble = build_preamble(
        Fidelity::Compact,
        &context,
        &graph,
        &completed_nodes,
        &node_outcomes,
    );

    assert!(
        !preamble.contains("graph.default_fidelity"),
        "should exclude graph.* keys"
    );
    assert!(
        !preamble.contains("thread.main"),
        "should exclude thread.* keys"
    );
    assert!(
        !preamble.contains("response.plan"),
        "should exclude response.* keys"
    );
    assert!(
        !preamble.contains("- last_stage:"),
        "should exclude last_stage"
    );
    assert!(
        preamble.contains("user.preference"),
        "should include user keys"
    );
}

#[test]
fn compact_context_deduplicates_stage_rendered_keys() {
    let mut graph = Graph::new("test");
    let mut step = Node::new("step");
    step.attrs.insert(
        "shape".to_string(),
        AttrValue::String("parallelogram".to_string()),
    );
    step.attrs.insert(
        "script".to_string(),
        AttrValue::String("echo hi".to_string()),
    );
    graph.nodes.insert("step".to_string(), step);

    let mut context: Context = Table::new();
    // command.output is set in context (the engine copies context_updates to
    // context)
    set(&mut context, keys::COMMAND_OUTPUT, Json::from_str("hi\n"));
    let completed_nodes = vec!["step".to_string()];
    let mut node_outcomes: Table<Outcome> = Table::new();
    let mut outcome = Outcome::success();
    outcome
        .context_updates
        .insert(keys::COMMAND_OUTPUT.to_string(), Json::from_str("hi\n"));
    node_outcomes.insert("step".to_string(), outcome);

    let preamble = build_preamble(
        Fidelity::Compact,
        &context,
        &graph,
        &completed_nodes,
        &node_outcomes,
    );

    // command.output should NOT appear in the Context section
    // because it's already rendered inline under the stage
    let context_section = preamble.split("## Context").nth(1).unwrap_or("");
    assert!(
        !context_section.contains("command.output"),
        "command.output should be deduplicated from context section"
    );
}

// --- summary:low mode ---

#[test]
fn build_preamble_summary_low_includes_stage_count() {
    let mut graph = Graph::new("test");
    graph.attrs.insert(
        "goal".to_string(),
        AttrValue::String("Run tests".to_string()),
    );
    let context: Context = Table::new();
    let completed_nodes = vec!["plan".to_string(), "code".to_string(), "test".to_string()];
    let mut node_outcomes: Table<Outcome> = Table::new();
    node_outcomes.insert("plan".to_string(), Outcome::success());
    node_outcomes.insert("code".to_string(), Outcome::success());
    node_outcomes.insert("test".to_string(), Outcome::fail_deterministic("test failure"));

    let preamble = build_preamble(
        Fidelity::SummaryLow,
        &context,
        &graph,
        &completed_nodes,
        &node_outcomes,
    );

    assert!(preamble.contains("Run tests"), "should contain the goal");
    assert!(
        preamble.contains("3 stage(s)"),
        "should mention total stage count"
    );
}

#[test]
fn build_preamble_summary_low_shows_only_recent_stages() {
    let mut graph = Graph::new("test");
    let mut step3 = Node::new("step3");
    step3.attrs.insert(
        "shape".to_string(),
        AttrValue::String("parallelogram".to_string()),
    );
    graph.nodes.insert("step3".to_string(), step3);

    let context: Context = Table::new();
    let completed_nodes = vec![
        "step1".to_string(),
        "step2".to_string(),
        "step3".to_string(),
        "step4".to_string(),
    ];
    let mut node_outcomes: Table<Outcome> = Table::new();
    node_outcomes.insert("step1".to_string(), Outcome::success());
    node_outcomes.insert("step2".to_string(), Outcome::success());
    node_outcomes.insert("step3".to_string(), Outcome::success());
    node_outcomes.insert("step4".to_string(), Outcome::fail_deterministic("error"));

    let preamble = build_preamble(
        Fidelity::SummaryLow,
        &context,
        &graph,
        &completed_nodes,
        &node_outcomes,
    );

    // summary:low shows only 2 recent stages
    assert!(!preamble.contains("step1"), "should omit older stages");
    assert!(!preamble.contains("step2"), "should omit older stages");
    assert!(preamble.contains("step3"), "should show recent stage");
    assert!(preamble.contains("step4"), "should show most recent stage");
    assert!(
        preamble.contains("omitted"),
        "should indicate omitted stages"
    );
    // Handler type should appear for nodes with known handlers
    assert!(
        preamble.contains("Handler: command"),
        "should show handler type for step3"
    );
}

#[test]
fn summary_low_command_stage_shows_handler_and_command() {
    let mut graph = Graph::new("test");
    let mut run_tests = Node::new("run_tests");
    run_tests.attrs.insert(
        "shape".to_string(),
        AttrValue::String("parallelogram".to_string()),
    );
    run_tests.attrs.insert(
        "script".to_string(),
        AttrValue::String("cargo test".to_string()),
    );
    graph.nodes.insert("run_tests".to_string(), run_tests);

    let context: Context = Table::new();
    let completed_nodes = vec!["run_tests".to_string()];
    let mut node_outcomes: Table<Outcome> = Table::new();
    let mut outcome = Outcome::fail_deterministic("exit code 1");
    outcome.context_updates.insert(
        keys::COMMAND_OUTPUT.to_string(), Json::from_str("test failed"));
    node_outcomes.insert("run_tests".to_string(), outcome);

    let preamble = build_preamble(
        Fidelity::SummaryLow,
        &context,
        &graph,
        &completed_nodes,
        &node_outcomes,
    );

    assert!(
        preamble.contains("Handler: command"),
        "should show handler type"
    );
    assert!(
        preamble.contains("Script: `cargo test`"),
        "should show script command"
    );
    // Low mode should NOT include output
    assert!(
        !preamble.contains("Output:"),
        "should not show output in low mode"
    );
}

#[test]
fn summary_low_agent_loop_stage_shows_handler_and_model() {
    let mut graph = Graph::new("test");
    let mut report = Node::new("report");
    report
        .attrs
        .insert("shape".to_string(), AttrValue::String("box".to_string()));
    graph.nodes.insert("report".to_string(), report);

    let context: Context = Table::new();
    let completed_nodes = vec!["report".to_string()];
    let mut node_outcomes: Table<Outcome> = Table::new();
    let mut outcome = Outcome::success();
    outcome.usage = Some(stage_usage("sonnet-4-20250514", 1000, 200));
    node_outcomes.insert("report".to_string(), outcome);

    let preamble = build_preamble(
        Fidelity::SummaryLow,
        &context,
        &graph,
        &completed_nodes,
        &node_outcomes,
    );

    assert!(
        preamble.contains("Handler: agent"),
        "should show handler type"
    );
    assert!(
        preamble.contains("Model: sonnet-4-20250514"),
        "should show model name"
    );
}

#[test]
fn build_preamble_summary_low_excludes_context_values() {
    let graph = Graph::new("test");
    let mut context: Context = Table::new();
    set(&mut context, "user.name", Json::from_str("alice"));
    let completed_nodes: Vec<String> = Vec::new();
    let node_outcomes: Table<Outcome> = Table::new();

    let preamble = build_preamble(
        Fidelity::SummaryLow,
        &context,
        &graph,
        &completed_nodes,
        &node_outcomes,
    );

    assert!(
        !preamble.contains("user.name"),
        "summary:low should not include context values"
    );
}

// --- summary:medium mode ---

#[test]
fn build_preamble_summary_medium_shows_more_stages_than_low() {
    let graph = Graph::new("test");
    let context: Context = Table::new();
    let completed_nodes = vec![
        "s1".to_string(),
        "s2".to_string(),
        "s3".to_string(),
        "s4".to_string(),
        "s5".to_string(),
        "s6".to_string(),
        "s7".to_string(),
    ];
    let mut node_outcomes: Table<Outcome> = Table::new();
    node_outcomes.insert("s1".to_string(), Outcome::success());
    node_outcomes.insert("s2".to_string(), Outcome::success());
    node_outcomes.insert("s3".to_string(), Outcome::success());
    node_outcomes.insert("s4".to_string(), Outcome::success());
    node_outcomes.insert("s5".to_string(), Outcome::success());
    node_outcomes.insert("s6".to_string(), Outcome::success());
    node_outcomes.insert("s7".to_string(), Outcome::success());

    let preamble = build_preamble(
        Fidelity::SummaryMedium,
        &context,
        &graph,
        &completed_nodes,
        &node_outcomes,
    );

    // summary:medium shows 5 recent stages
    assert!(!preamble.contains("- s1:"), "should omit oldest stages");
    assert!(!preamble.contains("- s2:"), "should omit oldest stages");
    assert!(preamble.contains("s3"), "should show recent stage s3");
    assert!(preamble.contains("s7"), "should show most recent stage s7");
    assert!(
        preamble.contains("omitted"),
        "should indicate omitted stages"
    );
}

#[test]
fn build_preamble_summary_medium_includes_context_values() {
    let graph = Graph::new("test");
    let mut context: Context = Table::new();
    set(&mut context, "user.name", Json::from_str("alice"));
    let completed_nodes: Vec<String> = Vec::new();
    let node_outcomes: Table<Outcome> = Table::new();

    let preamble = build_preamble(
        Fidelity::SummaryMedium,
        &context,
        &graph,
        &completed_nodes,
        &node_outcomes,
    );

    assert!(
        preamble.contains("user.name"),
        "summary:medium should include context values"
    );
    assert!(preamble.contains("alice"), "should include context value");
}

#[test]
fn build_preamble_summary_medium_uses_compact_handler_details() {
    let mut graph = Graph::new("test");
    let mut run_tests = Node::new("run_tests");
    run_tests.attrs.insert(
        "shape".to_string(),
        AttrValue::String("parallelogram".to_string()),
    );
    run_tests.attrs.insert(
        "script".to_string(),
        AttrValue::String("make test".to_string()),
    );
    graph.nodes.insert("run_tests".to_string(), run_tests);

    let context: Context = Table::new();
    let completed_nodes = vec!["run_tests".to_string()];
    let mut node_outcomes: Table<Outcome> = Table::new();
    let mut outcome = Outcome::success();
    outcome.context_updates.insert(
        keys::COMMAND_OUTPUT.to_string(), Json::from_str("All tests passed\n"));
    node_outcomes.insert("run_tests".to_string(), outcome);

    let preamble = build_preamble(
        Fidelity::SummaryMedium,
        &context,
        &graph,
        &completed_nodes,
        &node_outcomes,
    );

    assert!(
        preamble.contains("Script: `make test`"),
        "should show script command via compact renderer"
    );
    assert!(
        preamble.contains("All tests passed"),
        "should show output via compact renderer"
    );
    assert!(
        !preamble.contains("set command.output"),
        "should not dump raw context updates"
    );
}

#[test]
fn summary_medium_agent_loop_stage_shows_compact_details() {
    let mut graph = Graph::new("test");
    let mut report = Node::new("report");
    report
        .attrs
        .insert("shape".to_string(), AttrValue::String("box".to_string()));
    graph.nodes.insert("report".to_string(), report);

    let context: Context = Table::new();
    let completed_nodes = vec!["report".to_string()];
    let mut node_outcomes: Table<Outcome> = Table::new();
    let mut outcome = Outcome::success();
    outcome.usage = Some(stage_usage("sonnet-4-20250514", 1500, 300));
    outcome.files_touched = vec!["src/lib.rs".to_string()];
    node_outcomes.insert("report".to_string(), outcome);

    let preamble = build_preamble(
        Fidelity::SummaryMedium,
        &context,
        &graph,
        &completed_nodes,
        &node_outcomes,
    );

    assert!(
        preamble.contains("sonnet-4-20250514"),
        "should show model name"
    );
    assert!(preamble.contains("src/lib.rs"), "should show files touched");
}

// --- summary:high mode ---

#[test]
fn build_preamble_summary_high_shows_all_stages() {
    let graph = Graph::new("test");
    let context: Context = Table::new();
    let completed_nodes = vec![
        "s1".to_string(),
        "s2".to_string(),
        "s3".to_string(),
        "s4".to_string(),
        "s5".to_string(),
        "s6".to_string(),
    ];
    let mut node_outcomes: Table<Outcome> = Table::new();
    node_outcomes.insert("s1".to_string(), Outcome::success());
    node_outcomes.insert("s2".to_string(), Outcome::success());
    node_outcomes.insert("s3".to_string(), Outcome::success());
    node_outcomes.insert("s4".to_string(), Outcome::success());
    node_outcomes.insert("s5".to_string(), Outcome::success());
    node_outcomes.insert("s6".to_string(), Outcome::success());

    let preamble = build_preamble(
        Fidelity::SummaryHigh,
        &context,
        &graph,
        &completed_nodes,
        &node_outcomes,
    );

    // summary:high shows ALL stages as ## Stage: headings
    assert!(
        preamble.contains("## Stage: s1"),
        "should show all stages including s1"
    );
    assert!(
        preamble.contains("## Stage: s6"),
        "should show all stages including s6"
    );
    assert!(!preamble.contains("omitted"), "should not omit any stages");
}

#[test]
fn build_preamble_summary_high_includes_failure_reasons() {
    let graph = Graph::new("test");
    let context: Context = Table::new();
    let completed_nodes = vec!["work".to_string()];
    let mut node_outcomes: Table<Outcome> = Table::new();
    node_outcomes.insert(
        "work".to_string(),
        Outcome::fail_deterministic("connection timeout"),
    );

    let preamble = build_preamble(
        Fidelity::SummaryHigh,
        &context,
        &graph,
        &completed_nodes,
        &node_outcomes,
    );

    assert!(
        preamble.contains("connection timeout"),
        "should include failure reason"
    );
}

#[test]
fn build_preamble_summary_high_includes_context_values() {
    let graph = Graph::new("test");
    let mut context: Context = Table::new();
    set(&mut context, keys::GRAPH_GOAL, Json::from_str("Build"));
    set(&mut context, "user.name", Json::from_str("alice"));
    let completed_nodes: Vec<String> = Vec::new();
    let node_outcomes: Table<Outcome> = Table::new();

    let preamble = build_preamble(
        Fidelity::SummaryHigh,
        &context,
        &graph,
        &completed_nodes,
        &node_outcomes,
    );

    assert!(
        !preamble.contains("graph.goal"),
        "should exclude graph.* from context"
    );
    // Table format for summary:high
    assert!(
        preamble.contains("| user.name |"),
        "should include context values as table"
    );
}

// --- summary:high handler-specific ---

#[test]
fn summary_high_produces_stage_sections() {
    let graph = Graph::new("test");
    let context: Context = Table::new();
    let completed_nodes = vec!["start".to_string(), "work".to_string()];
    let mut node_outcomes: Table<Outcome> = Table::new();
    node_outcomes.insert("start".to_string(), Outcome::success());
    node_outcomes.insert("work".to_string(), Outcome::success());

    let preamble = build_preamble(
        Fidelity::SummaryHigh,
        &context,
        &graph,
        &completed_nodes,
        &node_outcomes,
    );

    assert!(
        preamble.contains("## Stage: start"),
        "should have stage heading for start"
    );
    assert!(
        preamble.contains("## Stage: work"),
        "should have stage heading for work"
    );
}

#[test]
fn summary_high_command_stage_full_detail() {
    let mut graph = Graph::new("test");
    let mut run_tests = Node::new("run_tests");
    run_tests.attrs.insert(
        "shape".to_string(),
        AttrValue::String("parallelogram".to_string()),
    );
    run_tests.attrs.insert(
        "script".to_string(),
        AttrValue::String("make test".to_string()),
    );
    graph.nodes.insert("run_tests".to_string(), run_tests);

    let context: Context = Table::new();
    let completed_nodes = vec!["run_tests".to_string()];
    let mut node_outcomes: Table<Outcome> = Table::new();
    let mut outcome = Outcome::success();
    outcome.context_updates.insert(
        keys::COMMAND_OUTPUT.to_string(), Json::from_str("All tests passed\nwarning: unused var\n"));
    node_outcomes.insert("run_tests".to_string(), outcome);

    let preamble = build_preamble(
        Fidelity::SummaryHigh,
        &context,
        &graph,
        &completed_nodes,
        &node_outcomes,
    );

    assert!(
        preamble.contains("## Stage: run_tests"),
        "should have stage heading"
    );
    assert!(preamble.contains("Handler: command"), "should show handler");
    assert!(
        preamble.contains("Script: `make test`"),
        "should show script command"
    );
    assert!(
        preamble.contains("All tests passed"),
        "should include output"
    );
    assert!(
        preamble.contains("warning: unused var"),
        "should include merged stderr"
    );
}

#[test]
fn summary_high_agent_loop_stage_with_response_preview() {
    let mut graph = Graph::new("test");
    let mut report = Node::new("report");
    report
        .attrs
        .insert("shape".to_string(), AttrValue::String("box".to_string()));
    graph.nodes.insert("report".to_string(), report);

    let context: Context = Table::new();
    let completed_nodes = vec!["report".to_string()];
    let mut node_outcomes: Table<Outcome> = Table::new();
    let mut outcome = Outcome::success();
    outcome.usage = Some(stage_usage("sonnet-4-20250514", 1500, 300));
    outcome.files_touched = vec!["src/lib.rs".to_string()];
    outcome.context_updates.insert(
        keys::response_key("report"), Json::from_str("The tests all pass successfully."));
    node_outcomes.insert("report".to_string(), outcome);

    let preamble = build_preamble(
        Fidelity::SummaryHigh,
        &context,
        &graph,
        &completed_nodes,
        &node_outcomes,
    );

    assert!(
        preamble.contains("## Stage: report"),
        "should have stage heading"
    );
    assert!(preamble.contains("Handler: agent"), "should show handler");
    assert!(
        preamble.contains("Model: sonnet-4-20250514"),
        "should show model"
    );
    assert!(
        !preamble.contains("tokens"),
        "token accounting must stay out of the agent-facing preamble; agents \
         read it as a budget signal, got:\n{preamble}"
    );
    assert!(
        preamble.contains("Files touched: src/lib.rs"),
        "should show files"
    );
    assert!(
        preamble.contains("The tests all pass"),
        "should include response"
    );
}

#[test]
fn summary_high_context_as_table() {
    let graph = Graph::new("test");
    let mut context: Context = Table::new();
    set(&mut context, "user.name", Json::from_str("alice"));
    set(&mut context, "custom.key", Json::from_str("value"));
    let completed_nodes: Vec<String> = Vec::new();
    let node_outcomes: Table<Outcome> = Table::new();

    let preamble = build_preamble(
        Fidelity::SummaryHigh,
        &context,
        &graph,
        &completed_nodes,
        &node_outcomes,
    );

    assert!(
        preamble.contains("## Current context"),
        "should have context table heading"
    );
    assert!(
        preamble.contains("| Key | Value |"),
        "should have table header"
    );
    assert!(
        preamble.contains("| user.name | alice |"),
        "should have context row"
    );
}

#[test]
fn summary_high_pipeline_progress_count() {
    let mut graph = Graph::new("test");
    // Create 4 nodes total (including start/exit)
    let start = Node::new("start");
    graph.nodes.insert("start".to_string(), start);
    let work = Node::new("work");
    graph.nodes.insert("work".to_string(), work);
    let test = Node::new("test");
    graph.nodes.insert("test".to_string(), test);
    let exit = Node::new("exit");
    graph.nodes.insert("exit".to_string(), exit);

    let context: Context = Table::new();
    let completed_nodes = vec!["start".to_string(), "work".to_string()];
    let mut node_outcomes: Table<Outcome> = Table::new();
    node_outcomes.insert("start".to_string(), Outcome::success());
    node_outcomes.insert("work".to_string(), Outcome::success());

    let preamble = build_preamble(
        Fidelity::SummaryHigh,
        &context,
        &graph,
        &completed_nodes,
        &node_outcomes,
    );

    assert!(
        preamble.contains("2 of 4 stages completed"),
        "should show pipeline progress with total node count, got:\n{preamble}"
    );
}

// --- is_context_key_excluded ---

#[test]
fn is_context_key_excluded_checks() {
    assert!(is_context_key_excluded(keys::INTERNAL_FIDELITY));
    assert!(is_context_key_excluded(&keys::retry_count_key("plan")));
    assert!(is_context_key_excluded(keys::CURRENT_NODE));
    assert!(is_context_key_excluded(keys::CURRENT_PREAMBLE));
    assert!(is_context_key_excluded(&keys::graph_attr_key(
        "default_fidelity"
    )));
    assert!(is_context_key_excluded(keys::GRAPH_GOAL));
    assert!(is_context_key_excluded(&keys::thread_current_node_key(
        "main"
    )));
    assert!(is_context_key_excluded(&keys::response_key("plan")));
    assert!(is_context_key_excluded(keys::OUTCOME));
    assert!(is_context_key_excluded(keys::LAST_STAGE));
    assert!(is_context_key_excluded(keys::LAST_RESPONSE));
    assert!(is_context_key_excluded(keys::PREFERRED_LABEL));
    assert!(!is_context_key_excluded("user.name"));
    assert!(!is_context_key_excluded("custom.key"));
    assert!(!is_context_key_excluded(keys::COMMAND_OUTPUT));
}

// --- meta node filtering ---

#[test]
fn compact_preamble_excludes_start_node() {
    let mut graph = Graph::new("test");
    let mut start = Node::new("start");
    start.attrs.insert(
        "shape".to_string(),
        AttrValue::String("Mdiamond".to_string()),
    );
    graph.nodes.insert("start".to_string(), start);
    let plan = Node::new("plan");
    graph.nodes.insert("plan".to_string(), plan);

    let context: Context = Table::new();
    let completed_nodes = vec!["start".to_string(), "plan".to_string()];
    let mut node_outcomes: Table<Outcome> = Table::new();
    node_outcomes.insert("start".to_string(), Outcome::success());
    node_outcomes.insert("plan".to_string(), Outcome::success());

    let preamble = build_preamble(
        Fidelity::Compact,
        &context,
        &graph,
        &completed_nodes,
        &node_outcomes,
    );

    assert!(
        !preamble.contains("**start**"),
        "should not show start node, got:\n{preamble}"
    );
    assert!(preamble.contains("**plan**"), "should show non-meta nodes");
}

#[test]
fn summary_high_excludes_start_node() {
    let mut graph = Graph::new("test");
    let mut start = Node::new("start");
    start.attrs.insert(
        "shape".to_string(),
        AttrValue::String("Mdiamond".to_string()),
    );
    graph.nodes.insert("start".to_string(), start);
    let work = Node::new("work");
    graph.nodes.insert("work".to_string(), work);

    let context: Context = Table::new();
    let completed_nodes = vec!["start".to_string(), "work".to_string()];
    let mut node_outcomes: Table<Outcome> = Table::new();
    node_outcomes.insert("start".to_string(), Outcome::success());
    node_outcomes.insert("work".to_string(), Outcome::success());

    let preamble = build_preamble(
        Fidelity::SummaryHigh,
        &context,
        &graph,
        &completed_nodes,
        &node_outcomes,
    );

    assert!(
        !preamble.contains("## Stage: start"),
        "should not show start stage, got:\n{preamble}"
    );
    assert!(
        preamble.contains("## Stage: work"),
        "should show non-meta stages"
    );
}

#[test]
fn summary_high_progress_excludes_meta_nodes() {
    let mut graph = Graph::new("test");
    let mut start = Node::new("start");
    start.attrs.insert(
        "shape".to_string(),
        AttrValue::String("Mdiamond".to_string()),
    );
    graph.nodes.insert("start".to_string(), start);
    let work = Node::new("work");
    graph.nodes.insert("work".to_string(), work);
    let test_node = Node::new("test");
    graph.nodes.insert("test".to_string(), test_node);
    let mut exit = Node::new("exit");
    exit.attrs.insert(
        "shape".to_string(),
        AttrValue::String("Msquare".to_string()),
    );
    graph.nodes.insert("exit".to_string(), exit);

    let context: Context = Table::new();
    let completed_nodes = vec!["start".to_string(), "work".to_string()];
    let mut node_outcomes: Table<Outcome> = Table::new();
    node_outcomes.insert("start".to_string(), Outcome::success());
    node_outcomes.insert("work".to_string(), Outcome::success());

    let preamble = build_preamble(
        Fidelity::SummaryHigh,
        &context,
        &graph,
        &completed_nodes,
        &node_outcomes,
    );

    assert!(
        preamble.contains("1 of 2 stages completed"),
        "should exclude meta nodes from progress count, got:\n{preamble}"
    );
}

#[test]
fn summary_medium_excludes_start_node() {
    let mut graph = Graph::new("test");
    let mut start = Node::new("start");
    start.attrs.insert(
        "shape".to_string(),
        AttrValue::String("Mdiamond".to_string()),
    );
    graph.nodes.insert("start".to_string(), start);
    let work = Node::new("work");
    graph.nodes.insert("work".to_string(), work);

    let context: Context = Table::new();
    let completed_nodes = vec!["start".to_string(), "work".to_string()];
    let mut node_outcomes: Table<Outcome> = Table::new();
    node_outcomes.insert("start".to_string(), Outcome::success());
    node_outcomes.insert("work".to_string(), Outcome::success());

    let preamble = build_preamble(
        Fidelity::SummaryMedium,
        &context,
        &graph,
        &completed_nodes,
        &node_outcomes,
    );

    assert!(
        !preamble.contains("- start:"),
        "should not show start stage, got:\n{preamble}"
    );
    assert!(preamble.contains("- work:"), "should show non-meta stages");
}

#[test]
fn summary_low_excludes_start_node() {
    let mut graph = Graph::new("test");
    let mut start = Node::new("start");
    start.attrs.insert(
        "shape".to_string(),
        AttrValue::String("Mdiamond".to_string()),
    );
    graph.nodes.insert("start".to_string(), start);
    let work = Node::new("work");
    graph.nodes.insert("work".to_string(), work);

    let context: Context = Table::new();
    let completed_nodes = vec!["start".to_string(), "work".to_string()];
    let mut node_outcomes: Table<Outcome> = Table::new();
    node_outcomes.insert("start".to_string(), Outcome::success());
    node_outcomes.insert("work".to_string(), Outcome::success());

    let preamble = build_preamble(
        Fidelity::SummaryLow,
        &context,
        &graph,
        &completed_nodes,
        &node_outcomes,
    );

    assert!(
        !preamble.contains("- start:"),
        "should not show start stage, got:\n{preamble}"
    );
    assert!(preamble.contains("- work:"), "should show non-meta stages");
}

#[test]
fn summary_medium_no_recent_stages_when_only_start() {
    let mut graph = Graph::new("test");
    let mut start = Node::new("start");
    start.attrs.insert(
        "shape".to_string(),
        AttrValue::String("Mdiamond".to_string()),
    );
    graph.nodes.insert("start".to_string(), start);

    let context: Context = Table::new();
    let completed_nodes = vec!["start".to_string()];
    let mut node_outcomes: Table<Outcome> = Table::new();
    node_outcomes.insert("start".to_string(), Outcome::success());

    let preamble = build_preamble(
        Fidelity::SummaryMedium,
        &context,
        &graph,
        &completed_nodes,
        &node_outcomes,
    );

    assert!(
        !preamble.contains("Recent stages:"),
        "should not show Recent stages header when only meta nodes, got:\n{preamble}"
    );
}

#[test]
fn summary_low_no_recent_stages_when_only_start() {
    let mut graph = Graph::new("test");
    let mut start = Node::new("start");
    start.attrs.insert(
        "shape".to_string(),
        AttrValue::String("Mdiamond".to_string()),
    );
    graph.nodes.insert("start".to_string(), start);

    let context: Context = Table::new();
    let completed_nodes = vec!["start".to_string()];
    let mut node_outcomes: Table<Outcome> = Table::new();
    node_outcomes.insert("start".to_string(), Outcome::success());

    let preamble = build_preamble(
        Fidelity::SummaryLow,
        &context,
        &graph,
        &completed_nodes,
        &node_outcomes,
    );

    assert!(
        !preamble.contains("Recent stages:"),
        "should not show Recent stages header when only meta nodes, got:\n{preamble}"
    );
}

#[test]
fn compact_preamble_no_completed_stages_when_only_start() {
    let mut graph = Graph::new("test");
    let mut start = Node::new("start");
    start.attrs.insert(
        "shape".to_string(),
        AttrValue::String("Mdiamond".to_string()),
    );
    graph.nodes.insert("start".to_string(), start);

    let context: Context = Table::new();
    let completed_nodes = vec!["start".to_string()];
    let mut node_outcomes: Table<Outcome> = Table::new();
    node_outcomes.insert("start".to_string(), Outcome::success());

    let preamble = build_preamble(
        Fidelity::Compact,
        &context,
        &graph,
        &completed_nodes,
        &node_outcomes,
    );

    assert!(
        !preamble.contains("## Completed stages"),
        "should not show Completed stages header when only meta nodes, got:\n{preamble}"
    );
}

// --- blank context values ---

#[test]
fn blank_context_values_excluded() {
    let graph = Graph::new("test");
    let mut context: Context = Table::new();
    set(&mut context, "failure_class", Json::from_str(""));
    set(&mut context, "failure_signature", Json::from_str(""));
    set(&mut context, "user.name", Json::from_str("alice"));
    let completed_nodes: Vec<String> = Vec::new();
    let node_outcomes: Table<Outcome> = Table::new();

    let preamble = build_preamble(
        Fidelity::Compact,
        &context,
        &graph,
        &completed_nodes,
        &node_outcomes,
    );

    assert!(
        !preamble.contains("failure_class"),
        "should exclude blank failure_class"
    );
    assert!(
        !preamble.contains("failure_signature"),
        "should exclude blank failure_signature"
    );
    assert!(
        preamble.contains("user.name"),
        "should include non-blank context"
    );
}

#[test]
fn blank_context_values_excluded_from_summary_high_table() {
    let graph = Graph::new("test");
    let mut context: Context = Table::new();
    set(&mut context, "failure_class", Json::from_str(""));
    set(&mut context, "user.name", Json::from_str("alice"));
    let completed_nodes: Vec<String> = Vec::new();
    let node_outcomes: Table<Outcome> = Table::new();

    let preamble = build_preamble(
        Fidelity::SummaryHigh,
        &context,
        &graph,
        &completed_nodes,
        &node_outcomes,
    );

    assert!(
        !preamble.contains("failure_class"),
        "should exclude blank failure_class from table"
    );
    assert!(
        preamble.contains("| user.name | alice |"),
        "should include non-blank context in table"
    );
}

// --- empty state ---

#[test]
fn build_preamble_compact_with_no_stages() {
    let graph = Graph::new("test");
    let context: Context = Table::new();
    let completed_nodes: Vec<String> = Vec::new();
    let node_outcomes: Table<Outcome> = Table::new();

    let preamble = build_preamble(
        Fidelity::Compact,
        &context,
        &graph,
        &completed_nodes,
        &node_outcomes,
    );

    assert!(
        !preamble.contains("Completed stages"),
        "should not show stages header when empty"
    );
}

#[test]
fn build_preamble_prepends_parent_preamble_when_present() {
    let graph = Graph::new("test");
    let mut context: Context = Table::new();
    set(&mut context, keys::INTERNAL_PARENT_PREAMBLE, Json::from_str("Parent completed plan and review"));
    let completed_nodes: Vec<String> = Vec::new();
    let node_outcomes: Table<Outcome> = Table::new();

    let preamble = build_preamble(
        Fidelity::Compact,
        &context,
        &graph,
        &completed_nodes,
        &node_outcomes,
    );

    assert!(
        preamble.contains("## Parent workflow context"),
        "should contain parent section header"
    );
    assert!(
        preamble.contains("Parent completed plan and review"),
        "should contain parent preamble text"
    );
    assert!(
        preamble.contains("## Current sub-workflow"),
        "should contain current sub-workflow section header"
    );
}

#[test]
fn compact_command_stage_truncates_long_output() {
    let mut graph = Graph::new("test");
    let mut build = Node::new("build");
    build.attrs.insert(
        "shape".to_string(),
        AttrValue::String("parallelogram".to_string()),
    );
    build.attrs.insert(
        "script".to_string(),
        AttrValue::String("cargo check".to_string()),
    );
    graph.nodes.insert("build".to_string(), build);

    let context: Context = Table::new();
    let completed_nodes = vec!["build".to_string()];
    let mut node_outcomes: Table<Outcome> = Table::new();
    let mut outcome = Outcome::success();
    // Generate >25 lines of output
    let long_output: String = (1..=30)
        .map(|i| format!("output line {i}"))
        .collect::<Vec<_>>()
        .join("\n");
    outcome.context_updates.insert(
        keys::COMMAND_OUTPUT.to_string(),
        Json::Str(long_output),
    );
    node_outcomes.insert("build".to_string(), outcome);

    let preamble = build_preamble(
        Fidelity::Compact,
        &context,
        &graph,
        &completed_nodes,
        &node_outcomes,
    );

    assert!(
        preamble.contains("(5 lines omitted)"),
        "should show omission indicator for long output, got:\n{preamble}"
    );
    assert!(
        preamble.contains("output line 30"),
        "should keep last lines"
    );
    assert!(
        !preamble.contains("output line 1\n"),
        "should drop early lines"
    );
}

#[test]
fn summary_high_command_stage_truncates_long_output() {
    let mut graph = Graph::new("test");
    let mut build = Node::new("build");
    build.attrs.insert(
        "shape".to_string(),
        AttrValue::String("parallelogram".to_string()),
    );
    build.attrs.insert(
        "script".to_string(),
        AttrValue::String("cargo check".to_string()),
    );
    graph.nodes.insert("build".to_string(), build);

    let context: Context = Table::new();
    let completed_nodes = vec!["build".to_string()];
    let mut node_outcomes: Table<Outcome> = Table::new();
    let mut outcome = Outcome::success();
    // Generate >50 lines of output
    let long_output: String = (1..=60)
        .map(|i| format!("output line {i}"))
        .collect::<Vec<_>>()
        .join("\n");
    outcome.context_updates.insert(
        keys::COMMAND_OUTPUT.to_string(),
        Json::Str(long_output),
    );
    node_outcomes.insert("build".to_string(), outcome);

    let preamble = build_preamble(
        Fidelity::SummaryHigh,
        &context,
        &graph,
        &completed_nodes,
        &node_outcomes,
    );

    assert!(
        preamble.contains("(10 lines omitted)"),
        "should show omission indicator for long output, got:\n{preamble}"
    );
    assert!(
        preamble.contains("output line 60"),
        "should keep last lines"
    );
    assert!(
        !preamble.contains("output line 1\n"),
        "should drop early lines"
    );
}

#[test]
fn summary_high_artifact_output_not_truncated() {
    let mut graph = Graph::new("test");
    let mut build = Node::new("build");
    build.attrs.insert(
        "shape".to_string(),
        AttrValue::String("parallelogram".to_string()),
    );
    graph.nodes.insert("build".to_string(), build);

    let context: Context = Table::new();
    let completed_nodes = vec!["build".to_string()];
    let mut node_outcomes: Table<Outcome> = Table::new();
    let mut outcome = Outcome::success();
    // Artifact pointer should not be truncated.
    outcome.context_updates.insert(
        keys::COMMAND_OUTPUT.to_string(), Json::from_str("file:///tmp/artifacts/output.txt"));
    node_outcomes.insert("build".to_string(), outcome);

    let preamble = build_preamble(
        Fidelity::SummaryHigh,
        &context,
        &graph,
        &completed_nodes,
        &node_outcomes,
    );

    assert!(
        !preamble.contains("lines omitted"),
        "artifact pointers should not be truncated, got:\n{preamble}"
    );
    assert!(
        preamble.contains("/tmp/artifacts/output.txt"),
        "should show artifact path"
    );
}

#[test]
fn build_preamble_no_parent_preamble_when_absent() {
    let graph = Graph::new("test");
    let context: Context = Table::new();
    let completed_nodes: Vec<String> = Vec::new();
    let node_outcomes: Table<Outcome> = Table::new();

    let preamble = build_preamble(
        Fidelity::Compact,
        &context,
        &graph,
        &completed_nodes,
        &node_outcomes,
    );

    assert!(
        !preamble.contains("Parent workflow context"),
        "should not contain parent section when no parent preamble"
    );
}

// --- exact accounts ---

#[test]
fn truncate_account_is_goal_and_run() {
    let mut graph = Graph::new("test");
    graph
        .attrs
        .insert("goal".to_string(), AttrValue::String("Ship".to_string()));
    let context: Context = Table::new();
    let account = build_preamble(
        Fidelity::Truncate,
        &context,
        &graph,
        &Vec::new(),
        &Table::new(),
    );
    assert_eq!(account, "Goal: Ship\nRun ID: unknown\n");
}

#[test]
fn full_fidelity_has_no_account() {
    let mut context: Context = Table::new();
    set(
        &mut context,
        keys::INTERNAL_PARENT_PREAMBLE,
        Json::from_str("parent"),
    );
    let account = build_preamble(
        Fidelity::Full,
        &context,
        &Graph::new("test"),
        &vec!["a".to_string()],
        &Table::new(),
    );
    assert_eq!(account, "");
}
