use fabro_workflow::context::Context;
use fabro_workflow::error::Error;
use fabro_workflow::graph::{AttrValue, Edge, Graph, Node};
use fabro_workflow::handler::human::{
    build_human_gate_question, find_yes_no_choice, human_gate, parse_accelerator_key, resolve_gate,
    unanswered_human_gate, Choice, GateEnd, HumanHandler,
};
use fabro_workflow::interview::{
    interview_started, Actor, Answer, AnswerValue, InterviewEnd, QuestionType,
};
use fabro_workflow::interview_acts::{close_interviews, open_interviews, InterviewAct};
use fabro_workflow::interview_block::InterviewBlockState;
use fabro_workflow::json::Json;
use fabro_workflow::keys;
use fabro_workflow::outcome::{FailureCategory, StageOutcome, SystemActorKind};
use fabro_workflow::stage_id::StageId;
use fabro_workflow::table::Table;

fn text(value: &str) -> AttrValue {
    AttrValue::String(value.to_string())
}

fn build_graph_with_human_gate() -> Graph {
    let mut graph = Graph::new("test");
    let mut gate = Node::new("gate");
    gate.attrs.insert("shape".to_string(), text("hexagon"));
    gate.attrs
        .insert("label".to_string(), text("Review Changes"));
    graph.nodes.insert("gate".to_string(), gate);
    graph
        .nodes
        .insert("approve".to_string(), Node::new("approve"));
    graph
        .nodes
        .insert("reject".to_string(), Node::new("reject"));

    let mut e1 = Edge::new("gate", "approve");
    e1.attrs.insert("label".to_string(), text("[A] Approve"));
    let mut e2 = Edge::new("gate", "reject");
    e2.attrs.insert("label".to_string(), text("[R] Reject"));
    graph.edges.push(e1);
    graph.edges.push(e2);
    graph
}

fn with_gate_attr(mut graph: Graph, key: &str, value: AttrValue) -> Graph {
    let mut gate = graph.nodes.remove("gate").unwrap();
    gate.attrs.insert(key.to_string(), value);
    graph.nodes.insert("gate".to_string(), gate);
    graph
}

fn build_graph_with_typed_gate(question_type: &str) -> Graph {
    with_gate_attr(
        build_graph_with_human_gate(),
        "question_type",
        text(question_type),
    )
}

fn freeform_graph(label: &str, target: &str) -> Graph {
    let mut graph = Graph::new("test");
    let mut gate = Node::new("gate");
    gate.attrs.insert("label".to_string(), text(label));
    graph.nodes.insert("gate".to_string(), gate);
    graph.nodes.insert(target.to_string(), Node::new(target));
    let mut edge = Edge::new("gate", target);
    edge.attrs
        .insert("freeform".to_string(), AttrValue::Boolean(true));
    graph.edges.push(edge);
    graph
}

/// Asks the question of a gate and ends it with an answer.
fn answer_gate(graph: &Graph, value: AnswerValue) -> Result<GateEnd, Error> {
    let node = graph.nodes.get("gate").unwrap();
    let context: Context = Table::new();
    let gate = build_human_gate_question(node, &context, graph).expect("a gate");
    resolve_gate(
        node,
        &gate,
        &Answer::of(value),
        false,
        FailureCategory::TransientInfra,
        7,
    )
}

fn string(value: &str) -> Json {
    Json::from_str(value)
}

/// Performs acts of a stage, and names what whoever watches the run hears.
fn perform(
    acts: Vec<InterviewAct>,
    state: &mut InterviewBlockState,
    stage: &StageId,
) -> Vec<&'static str> {
    let mut heard = Vec::new();
    for act in acts {
        match act {
            InterviewAct::TellStarted(_) => heard.push("interview.started"),
            InterviewAct::Block => {
                if state.block(stage) {
                    heard.push("run.blocked");
                }
            }
            InterviewAct::TellEnded(event) => heard.push(match event.end {
                InterviewEnd::Completed { .. } => "interview.completed",
                InterviewEnd::Interrupted { .. } => "interview.interrupted",
                InterviewEnd::Timeout => "interview.timeout",
            }),
            InterviewAct::Resolve => {
                if state.resolve(stage) {
                    heard.push("run.unblocked");
                }
            }
        }
    }
    heard
}

#[test]
fn parse_accelerator_key_bracket() {
    assert_eq!(parse_accelerator_key("[A] Approve"), "A");
    assert_eq!(parse_accelerator_key("[Y] Yes, deploy"), "Y");
}

#[test]
fn parse_accelerator_key_paren() {
    assert_eq!(parse_accelerator_key("Y) Yes, deploy"), "Y");
}

#[test]
fn parse_accelerator_key_dash() {
    assert_eq!(parse_accelerator_key("Y - Yes, deploy"), "Y");
}

#[test]
fn parse_accelerator_key_first_char() {
    assert_eq!(parse_accelerator_key("Yes, deploy"), "Y");
}

#[test]
fn parse_accelerator_key_empty() {
    assert_eq!(parse_accelerator_key(""), "");
}

#[test]
fn wait_human_auto_approve_selects_first() {
    let graph = build_graph_with_human_gate();
    let outcome = answer_gate(&graph, AnswerValue::Selected("A".to_string()))
        .unwrap()
        .outcome;
    assert_eq!(outcome.status, StageOutcome::Succeeded);
    assert_eq!(
        outcome.context_updates.get(keys::HUMAN_GATE_SELECTED),
        Some(&string("A"))
    );
    assert_eq!(outcome.suggested_next_ids, vec!["approve"]);
}

#[test]
fn wait_human_no_edges_returns_fail() {
    let graph = Graph::new("test");
    let node = Node::new("gate");
    let context: Context = Table::new();
    let reason = build_human_gate_question(&node, &context, &graph).unwrap_err();
    assert_eq!(reason, "No outgoing edges for human gate");
    assert_eq!(
        unanswered_human_gate(&reason).status,
        StageOutcome::Failed {
            retry_requested: false
        }
    );
}

#[test]
fn wait_human_emits_blocked_then_unblocked_around_interview() {
    let graph = build_graph_with_human_gate();
    let node = graph.nodes.get("gate").unwrap();
    let gate = build_human_gate_question(node, &Table::new(), &graph).unwrap();
    let stage = StageId::new("gate", 1);
    let mut state = InterviewBlockState::new();
    let started = vec![interview_started(&gate.question)];
    let mut heard = perform(open_interviews(started), &mut state, &stage);
    let end = answer_gate(&graph, AnswerValue::Selected("A".to_string())).unwrap();
    heard.extend(perform(
        close_interviews(vec![end.event]),
        &mut state,
        &stage,
    ));
    assert_eq!(
        heard,
        vec![
            "interview.started",
            "run.blocked",
            "interview.completed",
            "run.unblocked",
        ]
    );
}

#[test]
fn wait_human_interrupted_returns_fail_without_routing_hints() {
    let outcome = answer_gate(&build_graph_with_human_gate(), AnswerValue::Interrupted)
        .unwrap()
        .outcome;
    assert_eq!(
        outcome.status,
        StageOutcome::Failed {
            retry_requested: false
        }
    );
    assert!(outcome.preferred_label.is_none());
    assert!(outcome.suggested_next_ids.is_empty());
    assert_eq!(
        outcome.failure_reason(),
        Some("human interaction interrupted before an answer was provided")
    );
}

#[test]
fn wait_human_cancelled_returns_cancelled_error() {
    let error = answer_gate(&build_graph_with_human_gate(), AnswerValue::Cancelled).unwrap_err();
    assert!(matches!(error, Error::Cancelled));
}

#[test]
fn interrupted_gate_of_a_cancelled_run_is_cancelled() {
    let graph = build_graph_with_human_gate();
    let node = graph.nodes.get("gate").unwrap();
    let gate = human_gate(node, &Table::new(), &graph, "q-1".to_string()).unwrap();
    let end = resolve_gate(
        node,
        &gate,
        &Answer::of(AnswerValue::Interrupted),
        true,
        FailureCategory::Deterministic,
        0,
    );
    assert_eq!(end, Err(Error::Cancelled));
}

#[test]
fn wait_human_skipped_returns_fail_without_routing_hints() {
    let outcome = answer_gate(&build_graph_with_human_gate(), AnswerValue::Skipped)
        .unwrap()
        .outcome;
    assert_eq!(
        outcome.status,
        StageOutcome::Failed {
            retry_requested: false
        }
    );
    assert!(outcome.preferred_label.is_none());
    assert!(outcome.suggested_next_ids.is_empty());
    assert_eq!(outcome.failure_reason(), Some("human skipped interaction"));
}

#[test]
fn wait_human_interrupted_emits_interview_interrupted_event() {
    let event = answer_gate(&build_graph_with_human_gate(), AnswerValue::Interrupted)
        .unwrap()
        .event;
    assert_eq!(
        event.end,
        InterviewEnd::Interrupted {
            reason: "interrupted".to_string()
        }
    );
    assert_eq!(event.actor, Actor::System(SystemActorKind::Engine));
}

#[test]
fn wait_human_skipped_emits_interview_completed_event() {
    let event = answer_gate(&build_graph_with_human_gate(), AnswerValue::Skipped)
        .unwrap()
        .event;
    assert_eq!(
        event.end,
        InterviewEnd::Completed {
            answer: "skipped".to_string()
        }
    );
    assert_eq!(event.actor, Actor::Submitter);
    assert_eq!(event.stage, "gate");
    assert_eq!(event.question, "Review Changes");
    assert_eq!(event.duration_ms, 7);
}

#[test]
fn wait_human_with_freeform_edge() {
    let graph = freeform_graph("Choose", "freeform_target");
    let outcome = answer_gate(&graph, AnswerValue::Text("custom input".to_string()))
        .unwrap()
        .outcome;
    assert_eq!(outcome.status, StageOutcome::Succeeded);
    assert_eq!(outcome.suggested_next_ids, vec!["freeform_target"]);
    assert_eq!(
        outcome.context_updates.get(keys::HUMAN_GATE_TEXT),
        Some(&string("custom input"))
    );
}

#[test]
fn freeform_only_gate_uses_freeform_question_type() {
    let graph = freeform_graph("Enter prompt", "target");
    let node = graph.nodes.get("gate").unwrap();
    let gate = build_human_gate_question(node, &Table::new(), &graph).unwrap();
    assert_eq!(gate.question.question_type, QuestionType::Freeform);
    assert!(gate.question.allow_freeform);
    assert_eq!(gate.freeform_target.as_deref(), Some("target"));
}

#[test]
fn explicit_yes_no_gate_uses_yes_no_question_type() {
    let graph = build_graph_with_typed_gate("yes_no");
    let node = graph.nodes.get("gate").unwrap();
    let gate = build_human_gate_question(node, &Table::new(), &graph).unwrap();
    assert_eq!(gate.question.question_type, QuestionType::YesNo);

    let outcome = answer_gate(&graph, AnswerValue::Yes).unwrap().outcome;
    assert_eq!(outcome.suggested_next_ids, vec!["approve"]);
    assert_eq!(
        outcome.context_updates.get("human.gate.gate.answer"),
        Some(&string("yes"))
    );
}

#[test]
fn unknown_question_type_is_refused() {
    let graph = build_graph_with_typed_gate("essay");
    let node = graph.nodes.get("gate").unwrap();
    let reason = build_human_gate_question(node, &Table::new(), &graph).unwrap_err();
    assert!(reason.contains("essay"), "unexpected reason: {reason}");
}

#[test]
fn wait_human_copies_node_timeout_to_question_and_started_event() {
    let graph = with_gate_attr(
        build_graph_with_human_gate(),
        "timeout",
        AttrValue::Duration(125),
    );
    let node = graph.nodes.get("gate").unwrap();
    let gate = build_human_gate_question(node, &Table::new(), &graph).unwrap();
    assert_eq!(gate.question.timeout_ms, Some(125));
    let started = interview_started(&gate.question);
    assert_eq!(started.timeout_ms, Some(125));
    assert_eq!(started.question_id, gate.question.id);
}

#[test]
fn explicit_multi_select_gate_records_all_selected_keys() {
    let graph = build_graph_with_typed_gate("multi_select");
    let outcome = answer_gate(
        &graph,
        AnswerValue::MultiSelected(vec!["A".to_string(), "R".to_string()]),
    )
    .unwrap()
    .outcome;
    assert_eq!(outcome.status, StageOutcome::Succeeded);
    assert_eq!(outcome.suggested_next_ids, vec!["approve"]);
    assert_eq!(
        outcome.context_updates.get(keys::HUMAN_GATE_SELECTED),
        Some(&string("A,R"))
    );
    assert_eq!(
        outcome.context_updates.get("human.gate.gate.answer"),
        Some(&string("A, R"))
    );
}

#[test]
fn simulate_selects_first_choice() {
    let graph = build_graph_with_human_gate();
    let node = graph.nodes.get("gate").unwrap();
    let handler: HumanHandler<(), ()> = HumanHandler::new(());
    let outcome = handler.simulate(node, &graph);
    assert_eq!(outcome.status, StageOutcome::Succeeded);
    assert!(outcome.notes.as_deref().unwrap().contains("[Simulated]"));
    assert_eq!(
        outcome.context_updates.get(keys::HUMAN_GATE_SELECTED),
        Some(&string("A"))
    );
    assert_eq!(outcome.suggested_next_ids, vec!["approve"]);
}

#[test]
fn timed_out_gate_follows_its_default_or_asks_for_a_retry() {
    let graph = build_graph_with_human_gate();
    let end = answer_gate(&graph, AnswerValue::Timeout).unwrap();
    assert_eq!(end.event.end, InterviewEnd::Timeout);
    assert_eq!(end.event.actor, Actor::System(SystemActorKind::Timeout));
    assert_eq!(
        end.outcome.status,
        StageOutcome::Failed {
            retry_requested: true
        }
    );
    assert_eq!(
        end.outcome.failure_reason(),
        Some("human gate timeout, no default")
    );
    assert_eq!(
        end.outcome.failure_category(),
        Some(FailureCategory::TransientInfra)
    );

    let graph = with_gate_attr(graph, "human.default_choice", text("reject"));
    let outcome = answer_gate(&graph, AnswerValue::Timeout).unwrap().outcome;
    assert_eq!(outcome.status, StageOutcome::Succeeded);
    assert_eq!(outcome.suggested_next_ids, vec!["reject"]);
}

#[test]
fn unmatched_answer_takes_the_first_choice() {
    let graph = build_graph_with_human_gate();
    let outcome = answer_gate(&graph, AnswerValue::Text("whatever".to_string()))
        .unwrap()
        .outcome;
    assert_eq!(outcome.suggested_next_ids, vec!["approve"]);
    let outcome = answer_gate(&graph, AnswerValue::Text("r".to_string()))
        .unwrap()
        .outcome;
    assert_eq!(outcome.suggested_next_ids, vec!["reject"]);
}

#[test]
fn yes_and_no_choices_are_found_by_key_or_label() {
    let choice = |key: &str, label: &str| Choice {
        key: key.to_string(),
        label: label.to_string(),
        to: label.to_string(),
    };
    let named = vec![choice("N", "No"), choice("Y", "Yes")];
    assert_eq!(find_yes_no_choice(&named, true).unwrap().key, "Y");
    assert_eq!(find_yes_no_choice(&named, false).unwrap().key, "N");
    let unnamed = vec![choice("A", "Approve"), choice("R", "Reject")];
    assert!(find_yes_no_choice(&unnamed, true).is_none());
    assert!(find_yes_no_choice(&unnamed, false).is_none());
    let worded = vec![choice("A", "YES"), choice("R", "nO")];
    assert_eq!(find_yes_no_choice(&worded, true).unwrap().key, "A");
    assert_eq!(find_yes_no_choice(&worded, false).unwrap().key, "R");
    assert!(find_yes_no_choice(&Vec::new(), true).is_none());
}

#[test]
fn letters_beyond_ascii_are_keys_too() {
    assert_eq!(parse_accelerator_key("\u{e9} - \u{e9}t\u{e9}"), "\u{e9}");
    assert_eq!(parse_accelerator_key("?? Skip"), "?");
}

#[test]
fn gate_questions_have_identities_of_their_own() {
    let graph = build_graph_with_human_gate();
    let node = graph.nodes.get("gate").unwrap();
    let first = build_human_gate_question(node, &Table::new(), &graph).unwrap();
    let second = build_human_gate_question(node, &Table::new(), &graph).unwrap();
    assert_eq!(first.question.id.len(), 26);
    assert_ne!(first.question.id, second.question.id);
}

#[test]
fn handler_sends_through_its_own_emitter_first() {
    let handler: HumanHandler<&str, &str> = HumanHandler::new("interviewer");
    assert_eq!(*handler.emitter(&"run"), "run");
    let handler = handler.with_emitter("own");
    assert_eq!(*handler.emitter(&"run"), "own");
    assert_eq!(*handler.interviewer(), "interviewer");
}

#[test]
fn blocked_state_changes_once_across_interviews() {
    let stage = StageId::new("gate", 1);
    let mut state = InterviewBlockState::new();
    let blocked: Vec<bool> = (0..8).map(|_| state.block(&stage)).collect();
    assert_eq!(
        blocked,
        vec![true, false, false, false, false, false, false, false]
    );
    assert!(state.is_run_blocked());
    let unblocked: Vec<bool> = (0..8).map(|_| state.resolve(&stage)).collect();
    assert_eq!(
        unblocked,
        vec![false, false, false, false, false, false, false, true]
    );
    assert!(!state.is_run_blocked());
}

#[test]
fn stages_block_on_their_own() {
    let first = StageId::new("a", 1);
    let second = StageId::new("a", 2);
    let mut state = InterviewBlockState::new();
    state.block(&first);
    assert!(state.is_stage_blocked(&first));
    assert!(!state.is_stage_blocked(&second));
    state.block(&second);
    assert!(!state.resolve(&first));
    assert!(!state.is_stage_blocked(&first));
    assert!(state.is_run_blocked());
    assert!(state.resolve(&second));
    assert!(!state.is_run_blocked());
}

#[test]
fn as_many_resolutions_as_interviews_unblock_a_stage() {
    let stage = StageId::new("gate", 1);
    let other = StageId::new("gate", 2);
    let mut state = InterviewBlockState::new();
    // Nothing is blocked, and nothing is after a resolution either.
    assert!(state.resolve(&stage));
    assert!(state.block(&other));
    for _ in 0..3 {
        assert!(!state.block(&stage));
    }
    for _ in 0..2 {
        assert!(!state.resolve(&stage));
        assert!(state.is_stage_blocked(&stage));
    }
    assert!(!state.resolve(&stage));
    assert!(!state.is_stage_blocked(&stage));
    // What is resolved already stays so, and the other stage is not touched.
    assert!(!state.resolve(&stage));
    assert!(state.is_stage_blocked(&other) && state.is_run_blocked());
    assert!(state.resolve(&other));
    assert!(!state.is_run_blocked());
}
