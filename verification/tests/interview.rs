use fabro_workflow::interview::{
    answer_labels, end_batch, internal_question_id, interrupted_event, interview_started,
    label_for_key, prepare_batch, slug, submission_event, Actor, AgentQuestion, AgentQuestionAnswerStatus, Answer,
    AnswerValue, InterviewEnd, InterviewOption, QuestionType,
};
use fabro_workflow::interview_acts::{close_interviews, open_interviews, InterviewAct};
use fabro_workflow::interview_block::InterviewBlockState;
use fabro_workflow::json::Json;
use fabro_workflow::outcome::SystemActorKind;
use fabro_workflow::stage_id::StageId;

fn option(key: &str, label: &str) -> InterviewOption {
    InterviewOption {
        key: key.to_string(),
        label: label.to_string(),
        description: None,
        preview: None,
    }
}

fn question(id: &str, text: &str) -> AgentQuestion {
    AgentQuestion {
        original_id: Some(id.to_string()),
        original_question: text.to_string(),
        header: None,
        text: text.to_string(),
        question_type: QuestionType::MultipleChoice,
        options: vec![option("ship", "Ship it")],
        allow_freeform: true,
    }
}

/// Performs acts of a stage, and names what whoever watches the run hears.
fn perform(
    acts: Vec<InterviewAct>,
    state: &mut InterviewBlockState,
    stage: &StageId,
) -> Vec<&'static str> {
    let mut heard = Vec::new();
    for act in acts {
        match act {
            InterviewAct::TellStarted(_) => heard.push("interview.started"),
            InterviewAct::Block => {
                if state.block(stage) {
                    heard.push("run.blocked");
                }
            }
            InterviewAct::TellEnded(event) => heard.push(match event.end {
                InterviewEnd::Completed { .. } => "interview.completed",
                InterviewEnd::Interrupted { .. } => "interview.interrupted",
                InterviewEnd::Timeout => "interview.timeout",
            }),
            InterviewAct::Resolve => {
                if state.resolve(stage) {
                    heard.push("run.unblocked");
                }
            }
        }
    }
    heard
}

#[test]
fn answer_labels_return_user_facing_labels_in_submission_order() {
    let options = vec![option("a", "Alpha"), option("b", "Beta")];
    let answer = Answer::of(AnswerValue::MultiSelected(vec![
        "b".to_string(),
        "a".to_string(),
    ]));

    assert_eq!(answer_labels(&options, &answer), vec!["Beta", "Alpha"]);
}

#[test]
fn labels_of_unknown_keys_are_the_keys() {
    let options = vec![option("a", "Alpha")];
    assert_eq!(label_for_key(&options, "z"), "z");
    let cases = [
        (AnswerValue::Selected("a".to_string()), "Alpha"),
        (AnswerValue::Text("own".to_string()), "own"),
        (AnswerValue::Yes, "yes"),
        (AnswerValue::No, "no"),
        (AnswerValue::Skipped, "skipped"),
        (AnswerValue::Timeout, "timeout"),
    ];
    for (value, label) in cases {
        assert_eq!(answer_labels(&options, &Answer::of(value)), vec![label]);
    }
}

#[test]
fn internal_question_id_includes_stage_visit_and_tool_call_context() {
    let id = internal_question_id("Review Changes", 3, "call_123", 1);

    assert!(id.starts_with("agentq-reviewchanges-v3-call_123-2-"));
    let ulid = id
        .rsplit('-')
        .next()
        .expect("question id should include a ULID suffix");
    assert_eq!(ulid.len(), 26);
    assert_ne!(id, internal_question_id("Review Changes", 3, "call_123", 1));
}

#[test]
fn slugs_are_short_and_plain() {
    assert_eq!(slug("A b-C_d!"), "ab-c_d");
    assert_eq!(slug(""), "x");
    assert_eq!(slug("\u{e9}"), "x");
    assert!(slug(&"a".repeat(200)).len() < 200);
}

#[test]
fn batch_questions_are_all_started_before_run_is_blocked_and_return_labels() {
    let stage = StageId::new("ask", 1);
    let mut block = InterviewBlockState::new();
    let prepared = prepare_batch(
        vec![question("q1", "First?"), question("q2", "Second?")],
        "ask",
        1,
        "call_1",
    );
    let started = prepared
        .iter()
        .map(|one| interview_started(&one.question))
        .collect();
    assert_eq!(
        perform(open_interviews(started), &mut block, &stage),
        ["interview.started", "interview.started", "run.blocked"]
    );
    assert!(block.is_run_blocked() && block.is_stage_blocked(&stage));
    assert_eq!(
        prepared
            .iter()
            .map(|p| p.question.text.as_str())
            .collect::<Vec<_>>(),
        ["First?", "Second?"]
    );
    assert!(prepared[0].question.id.starts_with("agentq-ask-v1-call_1-1-"));
    assert!(prepared[1].question.id.starts_with("agentq-ask-v1-call_1-2-"));
    assert_eq!(
        prepared[0].question.metadata.get("agent.original_id"),
        Some(&Json::from_str("q1"))
    );
    assert_eq!(
        prepared[0].question.metadata.get("agent.tool_call_id"),
        Some(&Json::from_str("call_1"))
    );
    assert!(!prepared[0].question.metadata.contains_key("agent.header"));

    let answers = (0..2)
        .map(|_| Answer::of(AnswerValue::Selected("ship".to_string())))
        .collect();
    let end = end_batch(&prepared, Some(answers), &vec![5, 6]);
    assert_eq!(end.answers.len(), 2);
    assert_eq!(end.answers[0].answers, vec!["Ship it"]);
    assert_eq!(end.answers[1].answers, vec!["Ship it"]);
    assert_eq!(end.answers[0].original_id.as_deref(), Some("q1"));
    assert_eq!(
        end.events[1].end,
        InterviewEnd::Completed {
            answer: "Ship it".to_string()
        }
    );
    assert_eq!(
        (end.events[0].duration_ms, end.events[1].duration_ms),
        (5, 6)
    );
    assert_eq!(
        perform(close_interviews(end.events), &mut block, &stage),
        ["interview.completed", "interview.completed", "run.unblocked"]
    );
    assert!(!block.is_run_blocked() && !block.is_stage_blocked(&stage));
}

#[test]
fn cancelling_agent_question_unblocks_its_stage() {
    let stage = StageId::new("ask", 1);
    let mut block = InterviewBlockState::new();
    let prepared = prepare_batch(vec![question("q1", "First?")], "ask", 1, "call_1");
    let started = vec![interview_started(&prepared[0].question)];
    perform(open_interviews(started), &mut block, &stage);
    assert!(block.is_stage_blocked(&stage));
    let end = end_batch(&prepared, None, &vec![1]);
    assert_eq!(
        perform(close_interviews(end.events), &mut block, &stage),
        ["interview.interrupted", "run.unblocked"]
    );
    assert!(!block.is_stage_blocked(&stage));
}

#[test]
fn a_run_that_is_blocked_already_stays_so() {
    let (stage, other) = (StageId::new("ask", 1), StageId::new("gate", 1));
    let mut block = InterviewBlockState::new();
    block.block(&other);
    let prepared = prepare_batch(vec![question("q1", "First?")], "ask", 1, "call_1");
    let started = vec![interview_started(&prepared[0].question)];
    assert_eq!(
        perform(open_interviews(started), &mut block, &stage),
        ["interview.started"]
    );
    let end = end_batch(&prepared, None, &vec![1]);
    assert_eq!(
        perform(close_interviews(end.events), &mut block, &stage),
        ["interview.interrupted"]
    );
    assert!(block.is_run_blocked());
}

#[test]
fn broken_off_batches_are_interrupted() {
    let prepared = prepare_batch(vec![question("q1", "First?")], "ask", 1, "call_1");
    let end = end_batch(&prepared, None, &vec![9]);
    assert_eq!(
        end.answers[0].status,
        AgentQuestionAnswerStatus::Interrupted
    );
    assert!(end.answers[0].answers.is_empty());
    assert_eq!(end.events[0], interrupted_event(&prepared[0].question, 9));
    assert_eq!(
        end.events[0].actor,
        Actor::System(SystemActorKind::Engine)
    );
}

#[test]
fn submissions_end_as_they_were_made() {
    let prepared = prepare_batch(vec![question("q1", "First?")], "ask", 1, "call_1");
    let question = &prepared[0].question;
    let cancelled = submission_event(question, &Answer::of(AnswerValue::Cancelled), 1);
    assert_eq!(
        cancelled.end,
        InterviewEnd::Interrupted {
            reason: "cancelled".to_string()
        }
    );
    let late = submission_event(question, &Answer::of(AnswerValue::Timeout), 1);
    assert_eq!(late.end, InterviewEnd::Timeout);
    assert_eq!(late.actor, Actor::System(SystemActorKind::Timeout));
}
