//! A gate that waits for a human's choice among the outgoing edges.
use crate::context::{get_text, text_value, Context, Values};
use crate::error::{Error, ErrorView};
use crate::graph::{duration_attr, get_duration, Edge, EdgeView, Graph, GraphView, Node, NodeView};
use crate::interview::{
    ended_as, interview_event, is_ulid, new_ulid, question_type_named, Actor, Answer, AnswerValue,
    AnswerValueView, AnswerView, EndView, InterviewEnd, InterviewEvent, InterviewEventView,
    InterviewOption, OptionView, Question, QuestionType, QuestionView,
};
use crate::json::{Json, JsonView};
use crate::keys::{
    concat, response_key, HUMAN_GATE_LABEL, HUMAN_GATE_SELECTED, HUMAN_GATE_TEXT, LAST_STAGE,
    RESPONSE_PREFIX,
};
use crate::order::push_text;
use crate::outcome::{
    failure, retry, simulated, success, FailureCategory, Outcome, OutcomeView, StageOutcome,
    SystemActorKind,
};
use crate::table::{Duplicate, Table};
use crate::text::{
    at_most_three_bytes, byte_len, chars_of, eq_ignore_ascii_case, find, find_in,
    is_ascii_alphanumeric, join, joined, lemma_position, lower, position, position_from, same, string_of, trim,
    trimmed,
};
use vstd::prelude::*;
use vstd::string::*;

verus! {

/// Whether a character is a letter or a digit in any script.
pub uninterp spec fn alphanumeric(c: char) -> bool;

/// `char::is_alphanumeric`. Of the ASCII characters, the letters and digits are.
pub assume_specification[ char::is_alphanumeric ](c: char) -> (r: bool)
    ensures
        r == alphanumeric(c),
        (c as u32) < 0x80 ==> r == is_ascii_alphanumeric(c),
;

/// Whether the first `n` characters are a key: one to three bytes of letters
/// and digits.
pub open spec fn is_short_key(s: Seq<char>, n: int) -> bool {
    &&& 0 < n <= s.len()
    &&& byte_len(s.take(n)) <= 3
    &&& forall|i: int| 0 <= i < n ==> alphanumeric(#[trigger] s[i])
}

/// The key of a trimmed label that starts with one in brackets.
pub open spec fn bracket_key(s: Seq<char>) -> Option<Seq<char>> {
    if s.len() > 0 && s[0] == '[' && 1 < position(s, ']') < s.len() {
        Some(s.subrange(1, position(s, ']')))
    } else {
        None
    }
}

/// The key of a trimmed label that starts with one before a bracket.
pub open spec fn paren_key(s: Seq<char>) -> Option<Seq<char>> {
    let at = position(s, ')');
    if at < s.len() && is_short_key(s, at) {
        Some(s.take(at))
    } else {
        None
    }
}

/// The key of a trimmed label that starts with one before a dash.
pub open spec fn dash_key(s: Seq<char>) -> Option<Seq<char>> {
    match find(s, " - "@) {
        Some(at) => if is_short_key(s, at) {
            Some(s.take(at))
        } else {
            None
        },
        None => None,
    }
}

/// The key of a label: `[K] Label`, `K) Label`, `K - Label`, else its first
/// character.
pub open spec fn accelerator(label: Seq<char>) -> Seq<char> {
    let s = trim(label);
    match bracket_key(s) {
        Some(key) => key,
        None => match paren_key(s) {
            Some(key) => key,
            None => match dash_key(s) {
                Some(key) => key,
                None => if s.len() > 0 {
                    s.take(1)
                } else {
                    Seq::empty()
                },
            },
        },
    }
}

fn short_key(v: &Vec<char>, n: usize) -> (r: bool)
    requires
        n <= v@.len(),
    ensures
        r == is_short_key(v@, n as int),
{
    if n == 0 || !at_most_three_bytes(v, n) {
        return false;
    }
    let mut i: usize = 0;
    while i < n
        invariant
            i <= n <= v@.len(),
            forall|k: int| 0 <= k < i ==> alphanumeric(#[trigger] v@[k]),
        decreases n - i,
    {
        let c: char = v[i];
        if !c.is_alphanumeric() {
            return false;
        }
        i += 1;
    }
    true
}

/// The key of a label.
pub fn parse_accelerator_key(label: &str) -> (r: String)
    ensures
        r@ == accelerator(label@),
{
    let text = trimmed(label);
    let v = chars_of(text.as_str());
    assert(v@.skip(0) =~= v@);
    if v.len() > 0 && v[0] == '[' {
        let end: usize = position_from(&v, 0, ']');
        if end < v.len() && end > 1 {
            return string_of(&v, 1, end);
        }
    }
    let paren: usize = position_from(&v, 0, ')');
    if paren < v.len() && short_key(&v, paren) {
        let key = string_of(&v, 0, paren);
        assert(key@ =~= v@.take(paren as int));
        return key;
    }
    let dash = chars_of(" - ");
    if let Some(at) = find_in(&v, &dash) {
        if short_key(&v, at) {
            let key = string_of(&v, 0, at);
            assert(key@ =~= v@.take(at as int));
            return key;
        }
    }
    if v.len() > 0 {
        let key = string_of(&v, 0, 1);
        assert(key@ =~= v@.take(1));
        key
    } else {
        let empty = String::new();
        assert(empty@ =~= Seq::<char>::empty());
        empty
    }
}

/// A choice that an outgoing edge offers.
#[derive(Debug, PartialEq)]
pub struct Choice {
    pub key: String,
    pub label: String,
    pub to: String,
}

pub struct ChoiceView {
    pub key: Seq<char>,
    pub label: Seq<char>,
    pub to: Seq<char>,
}

impl View for Choice {
    type V = ChoiceView;

    open spec fn view(&self) -> ChoiceView {
        ChoiceView { key: self.key@, label: self.label@, to: self.to@ }
    }
}

impl DeepView for Choice {
    type V = ChoiceView;

    open spec fn deep_view(&self) -> ChoiceView {
        self@
    }
}

impl Duplicate for Choice {
    fn duplicate(&self) -> (r: Self) {
        Choice { key: self.key.clone(), label: self.label.clone(), to: self.to.clone() }
    }
}

/// The choice that an edge offers.
pub open spec fn choice_of(edge: EdgeView) -> ChoiceView {
    ChoiceView {
        key: accelerator(edge.choice_label()),
        label: edge.choice_label(),
        to: edge.to,
    }
}

/// The choices that edges offer, in order. An edge for an answer in the
/// human's own words offers none.
pub open spec fn choices_of(edges: Seq<EdgeView>) -> Seq<ChoiceView>
    decreases edges.len(),
{
    if edges.len() == 0 {
        Seq::empty()
    } else if edges.last().freeform() {
        choices_of(edges.drop_last())
    } else {
        choices_of(edges.drop_last()).push(choice_of(edges.last()))
    }
}

/// Where an answer in the human's own words leads: along the last edge for one.
pub open spec fn freeform_target(edges: Seq<EdgeView>) -> Option<Seq<char>>
    decreases edges.len(),
{
    if edges.len() == 0 {
        None
    } else if edges.last().freeform() {
        Some(edges.last().to)
    } else {
        freeform_target(edges.drop_last())
    }
}

fn choice_for(edge: &Edge) -> (r: Choice)
    ensures
        r@ == choice_of(edge@),
{
    let label = edge.choice_label();
    Choice { key: parse_accelerator_key(label), label: label.to_owned(), to: edge.to.clone() }
}

fn read_edges(edges: &Vec<Edge>) -> (r: (Vec<Choice>, Option<String>))
    ensures
        r.0.deep_view() == choices_of(edges.deep_view()),
        r.1.deep_view() == freeform_target(edges.deep_view()),
{
    let ghost all = edges.deep_view();
    let mut choices: Vec<Choice> = Vec::new();
    let mut freeform: Option<String> = None;
    let mut i: usize = 0;
    assert(all.take(0) =~= Seq::empty());
    assert(choices.deep_view() =~= Seq::empty());
    while i < edges.len()
        invariant
            i <= edges@.len(),
            all == edges.deep_view(),
            choices.deep_view() == choices_of(all.take(i as int)),
            freeform.deep_view() == freeform_target(all.take(i as int)),
        decreases edges@.len() - i,
    {
        assert(all.take(i + 1).drop_last() =~= all.take(i as int));
        assert(all.take(i + 1).last() == edges@[i as int]@);
        if edges[i].freeform() {
            freeform = Some(edges[i].to.clone());
        } else {
            let ghost had = choices.deep_view();
            let choice = choice_for(&edges[i]);
            let ghost added = choice@;
            choices.push(choice);
            assert(choices.deep_view() =~= had.push(added));
        }
        i += 1;
    }
    assert(all.take(i as int) =~= all);
    (choices, freeform)
}

/// The type of a gate's question: the one that the node names, else by whether
/// it offers choices.
pub open spec fn gate_type(node: NodeView, default_freeform: bool) -> Result<QuestionType, Seq<char>> {
    match node.text("question_type"@) {
        Some(name) => match question_type_named(name) {
            Some(t) => Ok(t),
            None => Err("invalid human question_type: "@ + name),
        },
        None => if default_freeform {
            Ok(QuestionType::Freeform)
        } else {
            Ok(QuestionType::MultipleChoice)
        },
    }
}

pub fn question_type_for_node(node: &Node, default_freeform: bool) -> (r: Result<QuestionType, String>)
    ensures
        match gate_type(node@, default_freeform) {
            Ok(t) => r == Ok::<QuestionType, String>(t),
            Err(reason) => r matches Err(m) && m@ == reason,
        },
{
    match node.text("question_type") {
        Some(name) => match QuestionType::parse(name) {
            Some(t) => Ok(t),
            None => Err(concat("invalid human question_type: ", name)),
        },
        None => if default_freeform {
            Ok(QuestionType::Freeform)
        } else {
            Ok(QuestionType::MultipleChoice)
        },
    }
}

/// What a gate shows with its question: the response of the last stage.
pub open spec fn gate_context(values: Values) -> Option<Seq<char>> {
    match text_value(values, LAST_STAGE@) {
        Some(last) => match text_value(values, RESPONSE_PREFIX@ + last) {
            Some(response) => if trim(response).len() > 0 {
                Some(trim(response))
            } else {
                None
            },
            None => None,
        },
        None => None,
    }
}

fn context_display(context: &Context) -> (r: Option<String>)
    ensures
        r.deep_view() == gate_context(context@),
{
    match get_text(context, LAST_STAGE) {
        Some(last) => match get_text(context, response_key(last).as_str()) {
            Some(response) => {
                let text = trimmed(response);
                if text.as_str().is_empty() {
                    None
                } else {
                    Some(text)
                }
            },
            None => None,
        },
        None => None,
    }
}

/// A gate's choices as options of its question.
pub open spec fn options_of(choices: Seq<ChoiceView>) -> Seq<OptionView> {
    choices.map_values(
        |c: ChoiceView|
            OptionView { key: c.key, label: c.label, description: None, preview: None },
    )
}

fn options_for(choices: &Vec<Choice>) -> (r: Vec<InterviewOption>)
    ensures
        r.deep_view() == options_of(choices.deep_view()),
{
    let ghost model = options_of(choices.deep_view());
    let mut r: Vec<InterviewOption> = Vec::new();
    let mut i: usize = 0;
    assert(r.deep_view() =~= model.take(0));
    while i < choices.len()
        invariant
            i <= choices@.len(),
            model == options_of(choices.deep_view()),
            r.deep_view() == model.take(i as int),
        decreases choices@.len() - i,
    {
        let ghost had = r.deep_view();
        assert(choices.deep_view()[i as int] == choices@[i as int]@);
        r.push(
            InterviewOption {
                key: choices[i].key.clone(),
                label: choices[i].label.clone(),
                description: None,
                preview: None,
            },
        );
        assert(r.deep_view() =~= had.push(model[i as int]));
        i += 1;
        assert(r.deep_view() =~= model.take(i as int));
    }
    assert(model.take(i as int) =~= model);
    r
}

/// An open gate: its question and where the answers lead.
#[derive(Debug, PartialEq)]
pub struct HumanGate {
    pub choices: Vec<Choice>,
    pub freeform_target: Option<String>,
    pub question: Question,
}

pub struct GateView {
    pub choices: Seq<ChoiceView>,
    pub freeform_target: Option<Seq<char>>,
    pub question: QuestionView,
}

impl View for HumanGate {
    type V = GateView;

    open spec fn view(&self) -> GateView {
        GateView {
            choices: self.choices.deep_view(),
            freeform_target: self.freeform_target.deep_view(),
            question: self.question@,
        }
    }
}

/// A node's human gate, whose question has the given identity, or why there is
/// none.
pub open spec fn gate_of(
    node: NodeView,
    values: Values,
    graph: GraphView,
    id: Seq<char>,
) -> Result<GateView, Seq<char>> {
    let edges = graph.outgoing(node.id);
    let choices = choices_of(edges);
    let target = freeform_target(edges);
    if choices.len() == 0 && target is None {
        Err("No outgoing edges for human gate"@)
    } else {
        match gate_type(node, choices.len() == 0) {
            Err(reason) => Err(reason),
            Ok(question_type) => Ok(
                GateView {
                    choices,
                    freeform_target: target,
                    question: QuestionView {
                        id,
                        text: node.label(),
                        question_type,
                        options: options_of(choices),
                        allow_freeform: target is Some,
                        stage: node.id,
                        timeout_ms: duration_attr(node.attrs, "timeout"@),
                        context_display: gate_context(values),
                        review_target: None,
                        metadata: Map::empty(),
                    },
                },
            ),
        }
    }
}

/// Opens a node's human gate, with a question of the given identity.
pub fn human_gate(node: &Node, context: &Context, graph: &Graph, id: String) -> (r: Result<
    HumanGate,
    String,
>)
    ensures
        match gate_of(node@, context@, graph@, id@) {
            Ok(gate) => r matches Ok(g) && g@ == gate,
            Err(reason) => r matches Err(m) && m@ == reason,
        },
{
    let edges = graph.outgoing_edges(node.id.as_str());
    let (choices, freeform_target) = read_edges(&edges);
    let ghost model = choices.deep_view();
    if choices.len() == 0 && freeform_target.is_none() {
        return Err("No outgoing edges for human gate".to_owned());
    }
    let question_type = match question_type_for_node(node, choices.len() == 0) {
        Ok(t) => t,
        Err(reason) => {
            return Err(reason);
        },
    };
    let question = Question {
        id,
        text: node.label().to_owned(),
        question_type,
        options: options_for(&choices),
        allow_freeform: freeform_target.is_some(),
        stage: node.id.clone(),
        timeout_ms: get_duration(&node.attrs, "timeout"),
        context_display: context_display(context),
        review_target: None,
        metadata: Table::new(),
    };
    Ok(HumanGate { choices, freeform_target, question })
}

/// Opens a node's human gate, with a question of a new identity.
pub fn build_human_gate_question(node: &Node, context: &Context, graph: &Graph) -> (r: Result<
    HumanGate,
    String,
>)
    ensures
        exists|id: Seq<char>|
            #![trigger gate_of(node@, context@, graph@, id)]
            is_ulid(id) && match gate_of(node@, context@, graph@, id) {
                Ok(gate) => r matches Ok(g) && g@ == gate,
                Err(reason) => r matches Err(m) && m@ == reason,
            },
{
    let id = new_ulid();
    let ghost text = id@;
    let r = human_gate(node, context, graph, id);
    assert(is_ulid(text) && match gate_of(node@, context@, graph@, text) {
        Ok(gate) => r matches Ok(g) && g@ == gate,
        Err(reason) => r matches Err(m) && m@ == reason,
    });
    r
}

/// The first choice that a test holds of.
pub open spec fn first_choice(
    choices: Seq<ChoiceView>,
    test: spec_fn(ChoiceView) -> bool,
) -> Option<ChoiceView>
    decreases choices.len(),
{
    if choices.len() == 0 {
        None
    } else if test(choices[0]) {
        Some(choices[0])
    } else {
        first_choice(choices.drop_first(), test)
    }
}

proof fn lemma_first_choice(choices: Seq<ChoiceView>, test: spec_fn(ChoiceView) -> bool, i: int)
    requires
        0 <= i <= choices.len(),
        forall|k: int| 0 <= k < i ==> !test(#[trigger] choices[k]),
    ensures
        first_choice(choices, test) == first_choice(choices.skip(i), test),
    decreases i,
{
    if i > 0 {
        assert(!test(choices[0]));
        let rest = choices.drop_first();
        assert forall|k: int| 0 <= k < i - 1 implies !test(#[trigger] rest[k]) by {
            assert(rest[k] == choices[k + 1]);
        }
        lemma_first_choice(rest, test, i - 1);
        assert(rest.skip(i - 1) =~= choices.skip(i));
    } else {
        assert(choices.skip(0) =~= choices);
    }
}

/// Whether a choice has a key.
pub open spec fn has_key(key: Seq<char>) -> spec_fn(ChoiceView) -> bool {
    |c: ChoiceView| c.key == key
}

/// Whether a choice has a key or label, in any case of letters.
pub open spec fn is_called(text: Seq<char>) -> spec_fn(ChoiceView) -> bool {
    |c: ChoiceView| lower(c.key) == lower(text) || lower(c.label) == lower(text)
}

/// Whether a choice says yes or no, in any case of letters.
pub open spec fn says(yes: bool) -> spec_fn(ChoiceView) -> bool {
    |c: ChoiceView|
        if yes {
            lower(c.key) == lower("Y"@) || lower(c.key) == lower("YES"@) || lower(c.label) == lower(
                "yes"@,
            )
        } else {
            lower(c.key) == lower("N"@) || lower(c.key) == lower("NO"@) || lower(c.label) == lower(
                "no"@,
            )
        }
}

fn find_by_key<'a>(choices: &'a Vec<Choice>, key: &str) -> (r: Option<&'a Choice>)
    ensures
        r.deep_view() == first_choice(choices.deep_view(), has_key(key@)),
{
    let ghost all = choices.deep_view();
    let ghost test = has_key(key@);
    let mut i: usize = 0;
    while i < choices.len()
        invariant
            i <= choices@.len(),
            all == choices.deep_view(),
            test == has_key(key@),
            forall|k: int| 0 <= k < i ==> !test(#[trigger] all[k]),
        decreases choices@.len() - i,
    {
        assert(all[i as int] == choices@[i as int]@);
        if same(choices[i].key.as_str(), key) {
            proof {
                lemma_first_choice(all, test, i as int);
                assert(all.skip(i as int)[0] == all[i as int]);
            }
            return Some(&choices[i]);
        }
        i += 1;
    }
    proof {
        lemma_first_choice(all, test, i as int);
    }
    None
}

fn find_by_name<'a>(choices: &'a Vec<Choice>, text: &str) -> (r: Option<&'a Choice>)
    ensures
        r.deep_view() == first_choice(choices.deep_view(), is_called(text@)),
{
    let ghost all = choices.deep_view();
    let ghost test = is_called(text@);
    let mut i: usize = 0;
    while i < choices.len()
        invariant
            i <= choices@.len(),
            all == choices.deep_view(),
            test == is_called(text@),
            forall|k: int| 0 <= k < i ==> !test(#[trigger] all[k]),
        decreases choices@.len() - i,
    {
        assert(all[i as int] == choices@[i as int]@);
        if eq_ignore_ascii_case(choices[i].key.as_str(), text) || eq_ignore_ascii_case(
            choices[i].label.as_str(),
            text,
        ) {
            proof {
                lemma_first_choice(all, test, i as int);
                assert(all.skip(i as int)[0] == all[i as int]);
            }
            return Some(&choices[i]);
        }
        i += 1;
    }
    proof {
        lemma_first_choice(all, test, i as int);
    }
    None
}

/// The first choice that says yes, or no.
pub fn find_yes_no_choice<'a>(choices: &'a Vec<Choice>, yes: bool) -> (r: Option<&'a Choice>)
    ensures
        r.deep_view() == first_choice(choices.deep_view(), says(yes)),
{
    let ghost all = choices.deep_view();
    let ghost test = says(yes);
    let mut i: usize = 0;
    while i < choices.len()
        invariant
            i <= choices@.len(),
            all == choices.deep_view(),
            test == says(yes),
            forall|k: int| 0 <= k < i ==> !test(#[trigger] all[k]),
        decreases choices@.len() - i,
    {
        assert(all[i as int] == choices@[i as int]@);
        let key = choices[i].key.as_str();
        let label = choices[i].label.as_str();
        let found = if yes {
            eq_ignore_ascii_case(key, "Y") || eq_ignore_ascii_case(key, "YES")
                || eq_ignore_ascii_case(label, "yes")
        } else {
            eq_ignore_ascii_case(key, "N") || eq_ignore_ascii_case(key, "NO")
                || eq_ignore_ascii_case(label, "no")
        };
        if found {
            proof {
                lemma_first_choice(all, test, i as int);
                assert(all.skip(i as int)[0] == all[i as int]);
            }
            return Some(&choices[i]);
        }
        i += 1;
    }
    proof {
        lemma_first_choice(all, test, i as int);
    }
    None
}

/// The choices that keys name, in the order of the keys. A key that names none
/// is passed over.
pub open spec fn selected(choices: Seq<ChoiceView>, keys: Seq<Seq<char>>) -> Seq<ChoiceView>
    decreases keys.len(),
{
    if keys.len() == 0 {
        Seq::empty()
    } else {
        let rest = selected(choices, keys.drop_last());
        match first_choice(choices, has_key(keys.last())) {
            Some(c) => rest.push(c),
            None => rest,
        }
    }
}

/// The choice that an answer stands for. Of several, the first leads on, and
/// all of them are named.
pub open spec fn chosen(value: AnswerValueView, choices: Seq<ChoiceView>) -> Option<ChoiceView> {
    match value {
        AnswerValueView::Selected(key) => first_choice(choices, has_key(key)),
        AnswerValueView::MultiSelected(keys) => {
            let all = selected(choices, keys);
            if all.len() == 0 {
                None
            } else {
                Some(
                    ChoiceView {
                        key: join(all.map_values(|c: ChoiceView| c.key), ","@),
                        label: join(all.map_values(|c: ChoiceView| c.label), ", "@),
                        to: all[0].to,
                    },
                )
            }
        },
        AnswerValueView::Yes => first_choice(choices, says(true)),
        AnswerValueView::No => first_choice(choices, says(false)),
        AnswerValueView::Text(text) => first_choice(choices, is_called(text)),
        _ => None,
    }
}

fn copied(choice: Option<&Choice>) -> (r: Option<Choice>)
    ensures
        r.deep_view() == choice.deep_view(),
{
    match choice {
        Some(c) => Some(c.duplicate()),
        None => None,
    }
}

/// The choice that an answer stands for.
pub fn find_choice_match(answer: &Answer, choices: &Vec<Choice>) -> (r: Option<Choice>)
    ensures
        r.deep_view() == chosen(answer@.value, choices.deep_view()),
{
    match &answer.value {
        AnswerValue::Selected(key) => copied(find_by_key(choices, key.as_str())),
        AnswerValue::MultiSelected(names) => {
            let ghost model = choices.deep_view();
            let ghost wanted = names.deep_view();
            let mut found_keys: Vec<String> = Vec::new();
            let mut found_labels: Vec<String> = Vec::new();
            let mut to: Option<String> = None;
            let mut i: usize = 0;
            assert(wanted.take(0) =~= Seq::empty());
            proof {
                let none = selected(model, wanted.take(0));
                assert(found_keys.deep_view() =~= none.map_values(|c: ChoiceView| c.key));
                assert(found_labels.deep_view() =~= none.map_values(|c: ChoiceView| c.label));
            }
            while i < names.len()
                invariant
                    i <= names@.len(),
                    model == choices.deep_view(),
                    wanted == names.deep_view(),
                    found_keys.deep_view() == selected(model, wanted.take(i as int)).map_values(
                        |c: ChoiceView| c.key,
                    ),
                    found_labels.deep_view() == selected(model, wanted.take(i as int)).map_values(
                        |c: ChoiceView| c.label,
                    ),
                    match to {
                        Some(t) => selected(model, wanted.take(i as int)).len() > 0 && t@
                            == selected(model, wanted.take(i as int))[0].to,
                        None => selected(model, wanted.take(i as int)).len() == 0,
                    },
                decreases names@.len() - i,
            {
                let ghost had = selected(model, wanted.take(i as int));
                let ghost now = selected(model, wanted.take(i + 1));
                assert(wanted.take(i + 1).drop_last() =~= wanted.take(i as int));
                assert(wanted.take(i + 1).last() == names@[i as int]@);
                if let Some(choice) = find_by_key(choices, names[i].as_str()) {
                    let ghost added = choice@;
                    assert(now == had.push(added));
                    push_text(&mut found_keys, choice.key.clone());
                    push_text(&mut found_labels, choice.label.clone());
                    if to.is_none() {
                        to = Some(choice.to.clone());
                    }
                    assert(found_keys.deep_view() =~= now.map_values(|c: ChoiceView| c.key));
                    assert(found_labels.deep_view() =~= now.map_values(|c: ChoiceView| c.label));
                }
                i += 1;
            }
            assert(wanted.take(i as int) =~= wanted);
            match to {
                Some(to) => Some(
                    Choice {
                        key: joined(&found_keys, ","),
                        label: joined(&found_labels, ", "),
                        to,
                    },
                ),
                None => None,
            }
        },
        AnswerValue::Yes => copied(find_yes_no_choice(choices, true)),
        AnswerValue::No => copied(find_yes_no_choice(choices, false)),
        AnswerValue::Text(text) => copied(find_by_name(choices, text.as_str())),
        _ => None,
    }
}

/// The words of an answer.
pub open spec fn words_of(answer: AnswerView) -> Seq<char> {
    match answer.text {
        Some(text) => text,
        None => match answer.value {
            AnswerValueView::Text(t) => t,
            AnswerValueView::Selected(s) => s,
            AnswerValueView::MultiSelected(keys) => join(keys, ", "@),
            AnswerValueView::Yes => "yes"@,
            AnswerValueView::No => "no"@,
            AnswerValueView::Cancelled => "cancelled"@,
            AnswerValueView::Interrupted => "interrupted"@,
            AnswerValueView::Skipped => "skipped"@,
            AnswerValueView::Timeout => "timeout"@,
        },
    }
}

pub fn answer_text(answer: &Answer) -> (r: String)
    ensures
        r@ == words_of(answer@),
{
    if let Some(text) = &answer.text {
        return text.clone();
    }
    match &answer.value {
        AnswerValue::Text(t) => t.clone(),
        AnswerValue::Selected(s) => s.clone(),
        AnswerValue::MultiSelected(keys) => joined(keys, ", "),
        AnswerValue::Yes => "yes".to_owned(),
        AnswerValue::No => "no".to_owned(),
        AnswerValue::Cancelled => "cancelled".to_owned(),
        AnswerValue::Interrupted => "interrupted".to_owned(),
        AnswerValue::Skipped => "skipped".to_owned(),
        AnswerValue::Timeout => "timeout".to_owned(),
    }
}

/// The outcome that follows a choice.
pub open spec fn choice_outcome(base: OutcomeView, choice: ChoiceView) -> OutcomeView {
    OutcomeView {
        preferred_label: Some(choice.label),
        suggested_next_ids: seq![choice.to],
        context_updates: base.context_updates.insert(
            HUMAN_GATE_SELECTED@,
            JsonView::Str(choice.key),
        ).insert(HUMAN_GATE_LABEL@, JsonView::Str(choice.label)),
        ..base
    }
}

fn only(text: &str) -> (r: Vec<String>)
    ensures
        r.deep_view() == seq![text@],
{
    let mut r: Vec<String> = Vec::new();
    r.push(text.to_owned());
    assert(r.deep_view() =~= seq![text@]);
    r
}

fn apply_choice(outcome: &mut Outcome, key: &str, label: &str, to: &str)
    ensures
        final(outcome)@ == choice_outcome(
            old(outcome)@,
            (ChoiceView { key: key@, label: label@, to: to@ }),
        ),
{
    outcome.preferred_label = Some(label.to_owned());
    outcome.suggested_next_ids = only(to);
    outcome.context_updates.insert(HUMAN_GATE_SELECTED.to_owned(), Json::from_str(key));
    outcome.context_updates.insert(HUMAN_GATE_LABEL.to_owned(), Json::from_str(label));
}

/// The outcome that follows a choice.
pub fn make_choice_outcome(key: &str, label: &str, to: &str) -> (r: Outcome)
    ensures
        r@ == choice_outcome(success(), (ChoiceView { key: key@, label: label@, to: to@ })),
{
    let mut outcome = Outcome::success();
    apply_choice(&mut outcome, key, label, to);
    outcome
}

/// A key of a gate's own record.
pub open spec fn gate_key(node_id: Seq<char>, field: Seq<char>) -> Seq<char> {
    "human.gate."@ + node_id + field
}

/// An outcome with the record of what was asked and answered.
pub open spec fn recorded(
    outcome: OutcomeView,
    question: QuestionView,
    answer: Seq<char>,
    label: Option<Seq<char>>,
) -> OutcomeView {
    let both = outcome.context_updates.insert(
        gate_key(question.stage, ".question"@),
        JsonView::Str(question.text),
    ).insert(gate_key(question.stage, ".answer"@), JsonView::Str(answer));
    OutcomeView {
        context_updates: match label {
            Some(l) => both.insert(gate_key(question.stage, ".label"@), JsonView::Str(l)),
            None => both,
        },
        ..outcome
    }
}

fn gate_key_text(node_id: &str, field: &str) -> (r: String)
    ensures
        r@ == gate_key(node_id@, field@),
{
    let mut s = concat("human.gate.", node_id);
    s.append(field);
    s
}

/// Adds the record of what was asked and answered.
pub fn add_answer_context(
    outcome: &mut Outcome,
    question: &Question,
    answer: &str,
    selected_label: Option<&str>,
)
    ensures
        final(outcome)@ == recorded(
            old(outcome)@,
            question@,
            answer@,
            selected_label.deep_view(),
        ),
{
    let node_id = question.stage.as_str();
    outcome.context_updates.insert(
        gate_key_text(node_id, ".question"),
        Json::from_str(question.text.as_str()),
    );
    outcome.context_updates.insert(gate_key_text(node_id, ".answer"), Json::from_str(answer));
    if let Some(label) = selected_label {
        outcome.context_updates.insert(gate_key_text(node_id, ".label"), Json::from_str(label));
    }
}

/// The outcome of a gate that nobody answered.
pub fn unanswered_human_gate(reason: &str) -> (r: Outcome)
    ensures
        r@ == failure(reason@, FailureCategory::Deterministic),
{
    Outcome::fail_deterministic(reason)
}

/// The outcome that an answer leads to.
pub open spec fn routed_answer(gate: GateView, answer: AnswerView) -> OutcomeView {
    let words = words_of(answer);
    match chosen(answer.value, gate.choices) {
        Some(choice) => recorded(
            choice_outcome(success(), choice),
            gate.question,
            words,
            Some(choice.label),
        ),
        None => match gate.freeform_target {
            Some(to) => recorded(
                OutcomeView {
                    suggested_next_ids: seq![to],
                    context_updates: Map::empty().insert(
                        HUMAN_GATE_SELECTED@,
                        JsonView::Str("freeform"@),
                    ).insert(HUMAN_GATE_LABEL@, JsonView::Str(words)).insert(
                        HUMAN_GATE_TEXT@,
                        JsonView::Str(words),
                    ),
                    ..success()
                },
                gate.question,
                words,
                None,
            ),
            None => if gate.choices.len() > 0 {
                recorded(
                    choice_outcome(success(), gate.choices[0]),
                    gate.question,
                    words,
                    Some(gate.choices[0].label),
                )
            } else {
                failure("No matching choice"@, FailureCategory::Deterministic)
            },
        },
    }
}

/// The outcome that an answer leads to: the choice it stands for, else the edge
/// for the human's own words, else the first choice.
pub fn route_answer(gate: &HumanGate, answer: &Answer) -> (r: Outcome)
    ensures
        r@ == routed_answer(gate@, answer@),
{
    let words = answer_text(answer);
    if let Some(choice) = find_choice_match(answer, &gate.choices) {
        let mut outcome = make_choice_outcome(
            choice.key.as_str(),
            choice.label.as_str(),
            choice.to.as_str(),
        );
        add_answer_context(
            &mut outcome,
            &gate.question,
            words.as_str(),
            Some(choice.label.as_str()),
        );
        return outcome;
    }
    if let Some(to) = &gate.freeform_target {
        let mut outcome = Outcome::success();
        outcome.suggested_next_ids = only(to.as_str());
        outcome.context_updates.insert(HUMAN_GATE_SELECTED.to_owned(), Json::from_str("freeform"));
        outcome.context_updates.insert(HUMAN_GATE_LABEL.to_owned(), Json::from_str(words.as_str()));
        outcome.context_updates.insert(HUMAN_GATE_TEXT.to_owned(), Json::from_str(words.as_str()));
        add_answer_context(&mut outcome, &gate.question, words.as_str(), None);
        return outcome;
    }
    if gate.choices.len() > 0 {
        let first = &gate.choices[0];
        assert(gate@.choices[0] == first@);
        let mut outcome = make_choice_outcome(
            first.key.as_str(),
            first.label.as_str(),
            first.to.as_str(),
        );
        add_answer_context(
            &mut outcome,
            &gate.question,
            words.as_str(),
            Some(first.label.as_str()),
        );
        return outcome;
    }
    Outcome::fail_deterministic("No matching choice")
}

/// How a gate ends: the event to send, and the outcome.
#[derive(Debug, PartialEq)]
pub struct GateEnd {
    pub event: InterviewEvent,
    pub outcome: Outcome,
}

pub struct GateEndView {
    pub event: InterviewEventView,
    pub outcome: OutcomeView,
}

impl View for GateEnd {
    type V = GateEndView;

    open spec fn view(&self) -> GateEndView {
        GateEndView { event: self.event@, outcome: self.outcome@ }
    }
}

/// The outcome of a gate whose time ran out: along the default choice, where
/// the node names one.
pub open spec fn timed_out(
    node: NodeView,
    question: QuestionView,
    category: FailureCategory,
) -> OutcomeView {
    match node.text("human.default_choice"@) {
        Some(target) => recorded(
            choice_outcome(
                success(),
                ChoiceView { key: target, label: target, to: target },
            ),
            question,
            "timeout"@,
            Some(target),
        ),
        None => retry("human gate timeout, no default"@, category),
    }
}

/// How a gate ends with an answer; `None` where it is cancelled.
pub open spec fn gate_end(
    node: NodeView,
    gate: GateView,
    answer: AnswerView,
    run_cancelled: bool,
    timeout_category: FailureCategory,
    duration_ms: u64,
) -> Option<GateEndView> {
    let completed = ended_as(
        gate.question,
        Actor::Submitter,
        EndView::Completed { answer: words_of(answer) },
        duration_ms,
    );
    match answer.value {
        AnswerValueView::Timeout => Some(
            GateEndView {
                event: ended_as(
                    gate.question,
                    Actor::System(SystemActorKind::Timeout),
                    EndView::Timeout,
                    duration_ms,
                ),
                outcome: timed_out(node, gate.question, timeout_category),
            },
        ),
        AnswerValueView::Cancelled => None,
        AnswerValueView::Interrupted => if run_cancelled {
            None
        } else {
            Some(
                GateEndView {
                    event: ended_as(
                        gate.question,
                        Actor::System(SystemActorKind::Engine),
                        EndView::Interrupted { reason: "interrupted"@ },
                        duration_ms,
                    ),
                    outcome: failure(
                        "human interaction interrupted before an answer was provided"@,
                        FailureCategory::Deterministic,
                    ),
                },
            )
        },
        AnswerValueView::Skipped => Some(
            GateEndView {
                event: completed,
                outcome: failure("human skipped interaction"@, FailureCategory::Deterministic),
            },
        ),
        _ => Some(GateEndView { event: completed, outcome: routed_answer(gate, answer) }),
    }
}

/// Ends a gate with an answer. `timeout_category` is the category of a gate
/// whose time ran out without a default.
pub fn resolve_gate(
    node: &Node,
    gate: &HumanGate,
    answer: &Answer,
    run_cancelled: bool,
    timeout_category: FailureCategory,
    duration_ms: u64,
) -> (r: Result<GateEnd, Error>)
    ensures
        match gate_end(node@, gate@, answer@, run_cancelled, timeout_category, duration_ms) {
            Some(end) => r matches Ok(e) && e@ == end,
            None => r matches Err(e) && e@ == ErrorView::Cancelled,
        },
{
    match &answer.value {
        AnswerValue::Timeout => {
            let event = interview_event(
                &gate.question,
                Actor::System(SystemActorKind::Timeout),
                InterviewEnd::Timeout,
                duration_ms,
            );
            let outcome = match node.text("human.default_choice") {
                Some(target) => {
                    let mut outcome = make_choice_outcome(target, target, target);
                    add_answer_context(&mut outcome, &gate.question, "timeout", Some(target));
                    outcome
                },
                None => Outcome::retry("human gate timeout, no default", timeout_category),
            };
            Ok(GateEnd { event, outcome })
        },
        AnswerValue::Cancelled => Err(Error::Cancelled),
        AnswerValue::Interrupted => {
            if run_cancelled {
                return Err(Error::Cancelled);
            }
            let event = interview_event(
                &gate.question,
                Actor::System(SystemActorKind::Engine),
                InterviewEnd::Interrupted { reason: "interrupted".to_owned() },
                duration_ms,
            );
            Ok(
                GateEnd {
                    event,
                    outcome: unanswered_human_gate(
                        "human interaction interrupted before an answer was provided",
                    ),
                },
            )
        },
        AnswerValue::Skipped => {
            let event = interview_event(
                &gate.question,
                Actor::Submitter,
                InterviewEnd::Completed { answer: answer_text(answer) },
                duration_ms,
            );
            Ok(GateEnd { event, outcome: unanswered_human_gate("human skipped interaction") })
        },
        _ => {
            let event = interview_event(
                &gate.question,
                Actor::Submitter,
                InterviewEnd::Completed { answer: answer_text(answer) },
                duration_ms,
            );
            Ok(GateEnd { event, outcome: route_answer(gate, answer) })
        },
    }
}

/// The outcome of a dry run of a gate: the first choice, else the first edge for
/// the human's own words.
pub open spec fn simulated_gate(node: NodeView, graph: GraphView) -> OutcomeView {
    let edges = graph.outgoing(node.id);
    if choices_of(edges).len() > 0 {
        choice_outcome(simulated(node.id), choices_of(edges)[0])
    } else if edges.len() > 0 {
        OutcomeView {
            suggested_next_ids: seq![edges[0].to],
            context_updates: Map::empty().insert(
                HUMAN_GATE_SELECTED@,
                JsonView::Str("freeform"@),
            ).insert(HUMAN_GATE_LABEL@, JsonView::Str("[Simulated] auto-selected"@)),
            ..simulated(node.id)
        }
    } else {
        simulated(node.id)
    }
}

/// Waits for a human's choice. `I` puts questions to humans, `E` sends events.
pub struct HumanHandler<I, E> {
    interviewer: I,
    emitter: Option<E>,
}

impl<I, E> HumanHandler<I, E> {
    pub closed spec fn asks(&self) -> I {
        self.interviewer
    }

    pub closed spec fn sends(&self) -> Option<E> {
        self.emitter
    }

    pub fn new(interviewer: I) -> (r: Self)
        ensures
            r.asks() == interviewer,
            r.sends() is None,
    {
        HumanHandler { interviewer, emitter: None }
    }

    pub fn with_emitter(self, emitter: E) -> (r: Self)
        ensures
            r.asks() == self.asks(),
            r.sends() == Some(emitter),
    {
        HumanHandler { interviewer: self.interviewer, emitter: Some(emitter) }
    }

    pub fn interviewer(&self) -> (r: &I)
        ensures
            *r == self.asks(),
    {
        &self.interviewer
    }

    /// What sends the events of a gate: the handler's own emitter, else the run's.
    pub fn emitter<'a>(&'a self, default_emitter: &'a E) -> (r: &'a E)
        ensures
            *r == match self.sends() {
                Some(emitter) => emitter,
                None => *default_emitter,
            },
    {
        match &self.emitter {
            Some(emitter) => emitter,
            None => default_emitter,
        }
    }

    /// The outcome of a dry run.
    pub fn simulate(&self, node: &Node, graph: &Graph) -> (r: Outcome)
        ensures
            r@ == simulated_gate(node@, graph@),
    {
        let edges = graph.outgoing_edges(node.id.as_str());
        let ghost all = graph@.outgoing(node@.id);
        let (choices, _) = read_edges(&edges);
        let mut outcome = Outcome::simulated(node.id.as_str());
        if choices.len() > 0 {
            let ghost model = choices.deep_view();
            assert(model[0] == choices@[0]@);
            apply_choice(
                &mut outcome,
                choices[0].key.as_str(),
                choices[0].label.as_str(),
                choices[0].to.as_str(),
            );
        } else if edges.len() > 0 {
            assert(all[0] == edges@[0]@);
            outcome.suggested_next_ids = only(edges[0].to.as_str());
            outcome.context_updates.insert(
                HUMAN_GATE_SELECTED.to_owned(),
                Json::from_str("freeform"),
            );
            outcome.context_updates.insert(
                HUMAN_GATE_LABEL.to_owned(),
                Json::from_str("[Simulated] auto-selected"),
            );
        }
        outcome
    }
}

/// An answer that stands for a choice is routed to that choice's target, and a
/// gate with choices never ends without one.
pub proof fn lemma_answers_follow_choices(gate: GateView, answer: AnswerView)
    ensures
        chosen(answer.value, gate.choices) matches Some(choice) ==> routed_answer(
            gate,
            answer,
        ).suggested_next_ids == seq![choice.to],
        gate.choices.len() > 0 || gate.freeform_target is Some ==> routed_answer(
            gate,
            answer,
        ).suggested_next_ids.len() == 1,
{
}

/// A gate that nobody answered gives no hint where to go.
pub proof fn lemma_unanswered_gates_do_not_route(
    node: NodeView,
    gate: GateView,
    answer: AnswerView,
    run_cancelled: bool,
    category: FailureCategory,
    duration_ms: u64,
)
    requires
        answer.value is Skipped || answer.value is Interrupted,
    ensures
        gate_end(node, gate, answer, run_cancelled, category, duration_ms) matches Some(end) ==> {
            &&& end.outcome.status.failed() && !end.outcome.status.wants_retry()
            &&& end.outcome.preferred_label is None
            &&& end.outcome.suggested_next_ids.len() == 0
        },
{
}

/// Whether a value of an answer, taken alone, stands for a choice: a key for the
/// choices that have it, a text for those that have it as key or label in any
/// case of letters, and yes or no for those that say so.
pub open spec fn stands_for(value: AnswerValueView, c: ChoiceView) -> bool {
    match value {
        AnswerValueView::Selected(key) => c.key == key,
        AnswerValueView::MultiSelected(keys) => keys.contains(c.key),
        AnswerValueView::Yes => lower(c.key) == lower("y"@) || lower(c.key) == lower("yes"@)
            || lower(c.label) == lower("yes"@),
        AnswerValueView::No => lower(c.key) == lower("n"@) || lower(c.key) == lower("no"@)
            || lower(c.label) == lower("no"@),
        AnswerValueView::Text(text) => lower(c.key) == lower(text) || lower(c.label) == lower(
            text,
        ),
        _ => false,
    }
}

/// Whether an answer stands for none of the choices.
pub open spec fn stands_for_none(value: AnswerValueView, choices: Seq<ChoiceView>) -> bool {
    forall|i: int| 0 <= i < choices.len() ==> !stands_for(value, #[trigger] choices[i])
}

proof fn lemma_yes_and_no_in_small_letters()
    ensures
        lower("Y"@) == lower("y"@),
        lower("YES"@) == lower("yes"@),
        lower("N"@) == lower("n"@),
        lower("NO"@) == lower("no"@),
{
    reveal_strlit("Y");
    reveal_strlit("y");
    reveal_strlit("YES");
    reveal_strlit("yes");
    reveal_strlit("N");
    reveal_strlit("n");
    reveal_strlit("NO");
    reveal_strlit("no");
    assert(lower("Y"@) =~= lower("y"@));
    assert(lower("YES"@) =~= lower("yes"@));
    assert(lower("N"@) =~= lower("n"@));
    assert(lower("NO"@) =~= lower("no"@));
}

proof fn lemma_first_choice_is_first(choices: Seq<ChoiceView>, test: spec_fn(ChoiceView) -> bool)
    ensures
        match first_choice(choices, test) {
            Some(c) => exists|i: int|
                0 <= i < choices.len() && #[trigger] choices[i] == c && test(c) && forall|k: int|
                    0 <= k < i ==> !test(#[trigger] choices[k]),
            None => forall|i: int| 0 <= i < choices.len() ==> !test(#[trigger] choices[i]),
        },
    decreases choices.len(),
{
    if choices.len() > 0 {
        if test(choices[0]) {
            assert(choices[0] == first_choice(choices, test).unwrap());
        } else {
            let rest = choices.drop_first();
            lemma_first_choice_is_first(rest, test);
            match first_choice(rest, test) {
                Some(c) => {
                    let i = choose|i: int|
                        0 <= i < rest.len() && #[trigger] rest[i] == c && test(c) && forall|k: int|
                            0 <= k < i ==> !test(#[trigger] rest[k]);
                    assert(choices[i + 1] == c);
                    assert forall|k: int| 0 <= k < i + 1 implies !test(#[trigger] choices[k]) by {
                        if k > 0 {
                            assert(rest[k - 1] == choices[k]);
                        }
                    }
                },
                None => {
                    assert forall|i: int| 0 <= i < choices.len() implies !test(
                        #[trigger] choices[i],
                    ) by {
                        if i > 0 {
                            assert(rest[i - 1] == choices[i]);
                        }
                    }
                },
            }
        }
    }
}

proof fn lemma_selected(choices: Seq<ChoiceView>, keys: Seq<Seq<char>>)
    ensures
        selected(choices, keys).len() == 0 <==> forall|i: int|
            0 <= i < choices.len() ==> !keys.contains((#[trigger] choices[i]).key),
    decreases keys.len(),
{
    if keys.len() > 0 {
        let earlier = keys.drop_last();
        let last = keys.last();
        lemma_selected(choices, earlier);
        lemma_first_choice_is_first(choices, has_key(last));
        assert(keys[keys.len() - 1] == last);
        assert forall|key: Seq<char>| #[trigger] keys.contains(key) <==> earlier.contains(key) || key
            == last by {
            if keys.contains(key) && key != last {
                let k = choose|k: int| 0 <= k < keys.len() && keys[k] == key;
                assert(earlier[k] == key);
            }
            if earlier.contains(key) {
                let k = choose|k: int| 0 <= k < earlier.len() && earlier[k] == key;
                assert(keys[k] == key);
            }
        }
        match first_choice(choices, has_key(last)) {
            Some(c) => {
                let i = choose|i: int| 0 <= i < choices.len() && #[trigger] choices[i] == c;
                assert(keys.contains(choices[i].key));
            },
            None => {
                assert forall|i: int| 0 <= i < choices.len() implies (keys.contains(
                    (#[trigger] choices[i]).key,
                ) <==> earlier.contains(choices[i].key)) by {
                    assert(!has_key(last)(choices[i]));
                }
            },
        }
    }
}

proof fn lemma_chosen_stands(value: AnswerValueView, choices: Seq<ChoiceView>)
    ensures
        chosen(value, choices) is None <==> stands_for_none(value, choices),
        !(value is MultiSelected) ==> (chosen(value, choices) matches Some(c) ==> exists|i: int|
            0 <= i < choices.len() && #[trigger] choices[i] == c && stands_for(value, c)
                && forall|k: int| 0 <= k < i ==> !stands_for(value, #[trigger] choices[k])),
{
    lemma_yes_and_no_in_small_letters();
    match value {
        AnswerValueView::Selected(key) => {
            lemma_test_stands(value, choices, has_key(key));
        },
        AnswerValueView::MultiSelected(keys) => {
            lemma_selected(choices, keys);
        },
        AnswerValueView::Yes => {
            lemma_test_stands(value, choices, says(true));
        },
        AnswerValueView::No => {
            lemma_test_stands(value, choices, says(false));
        },
        AnswerValueView::Text(text) => {
            lemma_test_stands(value, choices, is_called(text));
        },
        _ => {},
    }
}

proof fn lemma_test_stands(
    value: AnswerValueView,
    choices: Seq<ChoiceView>,
    test: spec_fn(ChoiceView) -> bool,
)
    requires
        forall|c: ChoiceView| #[trigger] test(c) == stands_for(value, c),
    ensures
        match first_choice(choices, test) {
            Some(c) => exists|i: int|
                0 <= i < choices.len() && #[trigger] choices[i] == c && stands_for(value, c)
                    && forall|k: int| 0 <= k < i ==> !stands_for(value, #[trigger] choices[k]),
            None => stands_for_none(value, choices),
        },
{
    lemma_first_choice_is_first(choices, test);
    match first_choice(choices, test) {
        Some(c) => {
            let i = choose|i: int|
                0 <= i < choices.len() && #[trigger] choices[i] == c && test(c) && forall|k: int|
                    0 <= k < i ==> !test(#[trigger] choices[k]);
            assert forall|k: int| 0 <= k < i implies !stands_for(value, #[trigger] choices[k]) by {
                assert(!test(choices[k]));
            }
            assert(choices[i] == c && stands_for(value, c));
        },
        None => {
            assert forall|i: int| 0 <= i < choices.len() implies !stands_for(
                value,
                #[trigger] choices[i],
            ) by {
                assert(!test(choices[i]));
            }
        },
    }
}

proof fn lemma_gate_keys_differ(stage: Seq<char>)
    ensures
        ({
            let question = "human.gate."@ + stage + ".question"@;
            let answer = "human.gate."@ + stage + ".answer"@;
            let label = "human.gate."@ + stage + ".label"@;
            let shared = set!["human.gate.selected"@, "human.gate.label"@, "human.gate.text"@];
            &&& question != answer && question != label && answer != label
            &&& !shared.contains(question) && !shared.contains(answer) && !shared.contains(label)
            &&& "human.gate.selected"@ != "human.gate.label"@
            &&& "human.gate.selected"@ != "human.gate.text"@
            &&& "human.gate.label"@ != "human.gate.text"@
        }),
{
    reveal_strlit("human.gate.");
    reveal_strlit(".question");
    reveal_strlit(".answer");
    reveal_strlit(".label");
    reveal_strlit("human.gate.selected");
    reveal_strlit("human.gate.label");
    reveal_strlit("human.gate.text");
    let question = "human.gate."@ + stage + ".question"@;
    let answer = "human.gate."@ + stage + ".answer"@;
    let label = "human.gate."@ + stage + ".label"@;
    assert(question.last() == 'n' && question.len() >= 20);
    assert(answer.last() == 'r' && answer.len() >= 18);
    assert(label.last() == 'l' && label.len() >= 17);
    assert("human.gate.selected"@.last() == 'd' && "human.gate.selected"@.len() == 19);
    assert("human.gate.label"@.last() == 'l' && "human.gate.label"@.len() == 16);
    assert("human.gate.text"@.last() == 't' && "human.gate.text"@.len() == 15);
}

/// Whether an outcome holds what a gate asked and what it was answered.
pub open spec fn tells_answer(
    o: OutcomeView,
    stage: Seq<char>,
    question: Seq<char>,
    words: Seq<char>,
) -> bool {
    let asked = "human.gate."@ + stage + ".question"@;
    let answered = "human.gate."@ + stage + ".answer"@;
    &&& o.context_updates.contains_key(asked)
    &&& o.context_updates[asked] == JsonView::Str(question)
    &&& o.context_updates.contains_key(answered)
    &&& o.context_updates[answered] == JsonView::Str(words)
}

/// Whether an outcome leads along a choice: to its target and to no other node,
/// under its label, with its key and label for the context.
pub open spec fn takes(o: OutcomeView, stage: Seq<char>, c: ChoiceView) -> bool {
    let label = "human.gate."@ + stage + ".label"@;
    &&& o.status == StageOutcome::Succeeded
    &&& o.failure is None
    &&& o.suggested_next_ids == seq![c.to]
    &&& o.preferred_label == Some(c.label)
    &&& o.jump_to_node is None
    &&& o.context_updates.contains_key("human.gate.selected"@)
    &&& o.context_updates["human.gate.selected"@] == JsonView::Str(c.key)
    &&& o.context_updates.contains_key("human.gate.label"@)
    &&& o.context_updates["human.gate.label"@] == JsonView::Str(c.label)
    &&& !o.context_updates.contains_key("human.gate.text"@)
    &&& o.context_updates.contains_key(label)
    &&& o.context_updates[label] == JsonView::Str(c.label)
}

/// Whether an outcome leads along the edge for the human's own words: to its
/// target and to no other node, under no label, with the words for the context.
pub open spec fn takes_words(
    o: OutcomeView,
    stage: Seq<char>,
    to: Seq<char>,
    words: Seq<char>,
) -> bool {
    &&& o.status == StageOutcome::Succeeded
    &&& o.failure is None
    &&& o.suggested_next_ids == seq![to]
    &&& o.preferred_label is None
    &&& o.jump_to_node is None
    &&& o.context_updates.contains_key("human.gate.selected"@)
    &&& o.context_updates["human.gate.selected"@] == JsonView::Str("freeform"@)
    &&& o.context_updates.contains_key("human.gate.text"@)
    &&& o.context_updates["human.gate.text"@] == JsonView::Str(words)
    &&& o.context_updates.contains_key("human.gate.label"@)
    &&& o.context_updates["human.gate.label"@] == JsonView::Str(words)
    &&& !o.context_updates.contains_key("human.gate."@ + stage + ".label"@)
}

/// An answer that stands for no choice is taken in the human's own words wherever
/// an edge is kept for them, also beside choices: it leads along that edge alone,
/// under no label. The first choice is taken only where there is no such edge;
/// with neither, nothing matches and the stage fails. In each but the last case
/// the outcome tells the question and the words.
pub proof fn lemma_own_words_come_before_the_first_choice(gate: GateView, answer: AnswerView)
    requires
        stands_for_none(answer.value, gate.choices),
    ensures
        ({
            let o = routed_answer(gate, answer);
            let words = words_of(answer);
            let stage = gate.question.stage;
            match gate.freeform_target {
                Some(to) => {
                    &&& takes_words(o, stage, to, words)
                    &&& tells_answer(o, stage, gate.question.text, words)
                },
                None => if gate.choices.len() > 0 {
                    &&& takes(o, stage, gate.choices[0])
                    &&& tells_answer(o, stage, gate.question.text, words)
                } else {
                    &&& o.status == (StageOutcome::Failed { retry_requested: false })
                    &&& o.failure matches Some(f) && f.message == "No matching choice"@
                        && f.category == FailureCategory::Deterministic
                    &&& o.suggested_next_ids.len() == 0 && o.preferred_label is None
                },
            }
        }),
{
    lemma_chosen_stands(answer.value, gate.choices);
    lemma_gate_keys_differ(gate.question.stage);
}

/// An answer that stands for a choice leads along the first such choice, whether
/// or not an edge is kept for the human's own words.
pub proof fn lemma_the_first_choice_that_is_meant_is_taken(
    gate: GateView,
    answer: AnswerView,
    i: int,
)
    requires
        !(answer.value is MultiSelected),
        0 <= i < gate.choices.len(),
        stands_for(answer.value, gate.choices[i]),
        forall|k: int| 0 <= k < i ==> !stands_for(answer.value, #[trigger] gate.choices[k]),
    ensures
        takes(routed_answer(gate, answer), gate.question.stage, gate.choices[i]),
        tells_answer(
            routed_answer(gate, answer),
            gate.question.stage,
            gate.question.text,
            words_of(answer),
        ),
{
    lemma_chosen_stands(answer.value, gate.choices);
    lemma_gate_keys_differ(gate.question.stage);
    let c = chosen(answer.value, gate.choices).unwrap();
    let j = choose|j: int|
        0 <= j < gate.choices.len() && #[trigger] gate.choices[j] == c && stands_for(answer.value, c)
            && forall|k: int| 0 <= k < j ==> !stands_for(answer.value, #[trigger] gate.choices[k]);
    if j < i {
        assert(!stands_for(answer.value, gate.choices[j]));
    }
    if i < j {
        assert(!stands_for(answer.value, gate.choices[i]));
    }
}

/// Of several selected keys, the first that names a choice decides where the run
/// goes on, along the first choice of that key; every key that names a choice is
/// told, and its label.
pub proof fn lemma_the_first_of_several_keys_leads_on(
    gate: GateView,
    answer: AnswerView,
    keys: Seq<Seq<char>>,
    j: int,
    i: int,
)
    requires
        answer.value == AnswerValueView::MultiSelected(keys),
        0 <= j < keys.len(),
        0 <= i < gate.choices.len(),
        gate.choices[i].key == keys[j],
        forall|k: int| 0 <= k < i ==> (#[trigger] gate.choices[k]).key != keys[j],
        forall|k: int, l: int|
            0 <= k < j && 0 <= l < gate.choices.len() ==> (#[trigger] gate.choices[l]).key
                != #[trigger] keys[k],
    ensures
        ({
            let o = routed_answer(gate, answer);
            &&& o.suggested_next_ids == seq![gate.choices[i].to]
            &&& o.status == StageOutcome::Succeeded
            &&& o.preferred_label is Some
            &&& keys.len() == 1 ==> takes(o, gate.question.stage, gate.choices[i])
        }),
{
    lemma_gate_keys_differ(gate.question.stage);
    lemma_selected_head(gate.choices, keys, j, i);
    if keys.len() == 1 {
        reveal_with_fuel(selected, 2);
        let all = selected(gate.choices, keys);
        assert(keys.drop_last() =~= Seq::empty());
        assert(all =~= seq![gate.choices[i]]);
        let names = all.map_values(|c: ChoiceView| c.key);
        let labels = all.map_values(|c: ChoiceView| c.label);
        assert(names.len() == 1 && names[0] == gate.choices[i].key);
        assert(labels.len() == 1 && labels[0] == gate.choices[i].label);
    }
}

proof fn lemma_selected_head(choices: Seq<ChoiceView>, keys: Seq<Seq<char>>, j: int, i: int)
    requires
        0 <= j < keys.len(),
        0 <= i < choices.len(),
        choices[i].key == keys[j],
        forall|k: int| 0 <= k < i ==> (#[trigger] choices[k]).key != keys[j],
        forall|k: int, l: int|
            0 <= k < j && 0 <= l < choices.len() ==> (#[trigger] choices[l]).key
                != #[trigger] keys[k],
    ensures
        selected(choices, keys).len() > 0,
        selected(choices, keys)[0] == choices[i],
    decreases keys.len(),
{
    let earlier = keys.drop_last();
    if j < keys.len() - 1 {
        assert(earlier[j] == keys[j]);
        assert forall|k: int, l: int| 0 <= k < j && 0 <= l < choices.len() implies (
        #[trigger] choices[l]).key != #[trigger] earlier[k] by {
            assert(earlier[k] == keys[k]);
        }
        lemma_selected_head(choices, earlier, j, i);
    } else {
        lemma_selected(choices, earlier);
        assert forall|l: int| 0 <= l < choices.len() implies !earlier.contains(
            (#[trigger] choices[l]).key,
        ) by {
            if earlier.contains(choices[l].key) {
                let k = choose|k: int| 0 <= k < earlier.len() && earlier[k] == choices[l].key;
                assert(keys[k] == earlier[k]);
            }
        }
        assert(selected(choices, earlier).len() == 0);
        let test = has_key(keys.last());
        lemma_first_choice_is_first(choices, test);
        match first_choice(choices, test) {
            Some(c) => {
                let m = choose|m: int|
                    0 <= m < choices.len() && #[trigger] choices[m] == c && test(c) && forall|k: int|
                        0 <= k < m ==> !test(#[trigger] choices[k]);
                if i < m {
                    assert(!test(choices[i]));
                }
                assert(m == i);
            },
            None => {
                assert(!test(choices[i]));
            },
        }
    }
}

/// A gate offers a choice for every outgoing edge that takes no words of the
/// human's own, in the order of the edges: one more edge adds its choice at the
/// end, with the edge's label, or its target where it has none, and leads to the
/// edge's target. An edge for own words adds none, and the last such edge is the
/// one that own words follow.
pub proof fn lemma_edges_make_the_choices(edges: Seq<EdgeView>, e: EdgeView)
    ensures
        e.freeform() ==> {
            &&& choices_of(edges.push(e)) == choices_of(edges)
            &&& freeform_target(edges.push(e)) == Some(e.to)
        },
        !e.freeform() ==> {
            let all = choices_of(edges.push(e));
            &&& all.len() == choices_of(edges).len() + 1
            &&& all.drop_last() == choices_of(edges)
            &&& all.last().to == e.to
            &&& all.last().label == (match e.text("label"@) {
                Some(l) => if l.len() > 0 {
                    l
                } else {
                    e.to
                },
                None => e.to,
            })
            &&& freeform_target(edges.push(e)) == freeform_target(edges)
        },
        choices_of(Seq::empty()).len() == 0,
        freeform_target(Seq::empty()) is None,
{
    assert(edges.push(e).drop_last() =~= edges);
    if !e.freeform() {
        assert(choices_of(edges.push(e)).drop_last() =~= choices_of(edges));
    }
}

/// A gate opens exactly where its node has an outgoing edge and names no question
/// type that is unknown. It asks the node's label, offers its choices and takes
/// own words exactly where an edge is for them.
pub proof fn lemma_gates_open_where_an_edge_leaves(
    node: NodeView,
    values: Values,
    graph: GraphView,
    id: Seq<char>,
)
    ensures
        ({
            let edges = graph.outgoing(node.id);
            let opened = gate_of(node, values, graph, id);
            &&& edges.len() == 0 ==> opened == Err::<GateView, Seq<char>>(
                "No outgoing edges for human gate"@,
            )
            &&& edges.len() > 0 && node.text("question_type"@) is None ==> opened is Ok
            &&& opened matches Ok(gate) ==> {
                &&& gate.question.options.len() == gate.choices.len()
                &&& gate.question.id == id
                &&& gate.question.text == node.label()
                &&& gate.question.stage == node.id
                &&& gate.question.allow_freeform <==> gate.freeform_target is Some
                &&& gate.freeform_target is Some <==> exists|i: int|
                    0 <= i < edges.len() && (#[trigger] edges[i]).freeform()
                &&& node.text("question_type"@) is None ==> (gate.question.question_type
                    == QuestionType::Freeform <==> gate.choices.len() == 0)
                &&& forall|i: int|
                    0 <= i < gate.choices.len() ==> (#[trigger] gate.question.options[i]).key
                        == gate.choices[i].key && gate.question.options[i].label
                        == gate.choices[i].label
            }
        }),
{
    lemma_edges_are_offered(graph.outgoing(node.id));
}

proof fn lemma_edges_are_offered(edges: Seq<EdgeView>)
    ensures
        edges.len() == 0 <==> choices_of(edges).len() == 0 && freeform_target(edges) is None,
        freeform_target(edges) is Some <==> exists|i: int|
            0 <= i < edges.len() && (#[trigger] edges[i]).freeform(),
    decreases edges.len(),
{
    if edges.len() > 0 {
        let earlier = edges.drop_last();
        lemma_edges_are_offered(earlier);
        assert(edges[edges.len() - 1] == edges.last());
        assert(forall|k: int| 0 <= k < earlier.len() ==> earlier[k] == #[trigger] edges[k]);
        assert(forall|k: int| 0 <= k < earlier.len() ==> #[trigger] earlier[k] == edges[k]);
    }
}

/// How a gate ends is decided by the answer alone: a cancelled answer cancels it,
/// and so does an interrupted one of a cancelled run; every other answer ends it
/// with an outcome. Time that ran out leads along the default choice, or asks for
/// another attempt where the node names none. A skipped or interrupted gate fails,
/// and everything else is routed. The event names who ended it.
pub proof fn lemma_answers_end_the_gate(
    node: NodeView,
    gate: GateView,
    answer: AnswerView,
    run_cancelled: bool,
    category: FailureCategory,
    duration_ms: u64,
)
    ensures
        ({
            let end = gate_end(node, gate, answer, run_cancelled, category, duration_ms);
            &&& end is None <==> answer.value is Cancelled || (answer.value is Interrupted
                && run_cancelled)
            &&& end matches Some(e) ==> match answer.value {
                AnswerValueView::Timeout => match node.text("human.default_choice"@) {
                    Some(target) => {
                        &&& takes(
                            e.outcome,
                            gate.question.stage,
                            ChoiceView { key: target, label: target, to: target },
                        )
                        &&& tells_answer(
                            e.outcome,
                            gate.question.stage,
                            gate.question.text,
                            "timeout"@,
                        )
                    },
                    None => {
                        &&& e.outcome.status == (StageOutcome::Failed { retry_requested: true })
                        &&& e.outcome.failure matches Some(f) && f.category == category
                            && f.message == "human gate timeout, no default"@
                        &&& e.outcome.suggested_next_ids.len() == 0
                    },
                },
                AnswerValueView::Skipped => {
                    &&& e.outcome.status == (StageOutcome::Failed { retry_requested: false })
                    &&& e.outcome.failure matches Some(f) && f.message
                        == "human skipped interaction"@
                },
                AnswerValueView::Interrupted => {
                    &&& e.outcome.status == (StageOutcome::Failed { retry_requested: false })
                    &&& e.outcome.failure matches Some(f) && f.message
                        == "human interaction interrupted before an answer was provided"@
                },
                _ => e.outcome == routed_answer(gate, answer),
            }
            &&& end matches Some(e) ==> {
                &&& e.event.question_id == gate.question.id
                &&& e.event.question == gate.question.text
                &&& e.event.stage == gate.question.stage
                &&& e.event.duration_ms == duration_ms
                &&& match answer.value {
                    AnswerValueView::Timeout => e.event.actor == Actor::System(
                        SystemActorKind::Timeout,
                    ) && e.event.end == EndView::Timeout,
                    AnswerValueView::Interrupted => e.event.actor == Actor::System(
                        SystemActorKind::Engine,
                    ) && e.event.end is Interrupted,
                    _ => e.event.actor == Actor::Submitter && e.event.end == (EndView::Completed {
                        answer: words_of(answer),
                    }),
                }
            }
        }),
{
    lemma_gate_keys_differ(gate.question.stage);
}

/// A dry run of a gate takes the first edge that offers a choice.
pub proof fn lemma_dry_runs_take_the_first_choice(node: NodeView, graph: GraphView, i: int)
    requires
        0 <= i < graph.outgoing(node.id).len(),
        !graph.outgoing(node.id)[i].freeform(),
        forall|k: int| 0 <= k < i ==> (#[trigger] graph.outgoing(node.id)[k]).freeform(),
    ensures
        simulated_gate(node, graph).suggested_next_ids == seq![graph.outgoing(node.id)[i].to],
        simulated_gate(node, graph).status == StageOutcome::Succeeded,
        simulated_gate(node, graph).preferred_label == Some(
            graph.outgoing(node.id)[i].choice_label(),
        ),
{
    lemma_choices_start(graph.outgoing(node.id), i);
}

/// A dry run of a gate where no edge offers a choice takes the first edge, as own
/// words would, under no label.
pub proof fn lemma_dry_runs_fall_back_to_own_words(node: NodeView, graph: GraphView)
    requires
        graph.outgoing(node.id).len() > 0,
        forall|k: int|
            0 <= k < graph.outgoing(node.id).len() ==> (
            #[trigger] graph.outgoing(node.id)[k]).freeform(),
    ensures
        ({
            let o = simulated_gate(node, graph);
            &&& o.suggested_next_ids == seq![graph.outgoing(node.id)[0].to]
            &&& o.status == StageOutcome::Succeeded
            &&& o.preferred_label is None
            &&& o.context_updates.contains_key("human.gate.selected"@)
            &&& o.context_updates["human.gate.selected"@] == JsonView::Str("freeform"@)
        }),
{
    lemma_no_choices(graph.outgoing(node.id));
    lemma_gate_keys_differ(node.id);
}

/// The words of an answer are the text that came with it, whatever it selects;
/// without one, a typed answer is told as it was typed and a selected key as it is,
/// and several keys stand in their order.
pub proof fn lemma_words_are_those_of_the_human(answer: AnswerView)
    ensures
        answer.text matches Some(text) ==> words_of(answer) == text,
        answer.text is None ==> match answer.value {
            AnswerValueView::Text(text) => words_of(answer) == text,
            AnswerValueView::Selected(key) => words_of(answer) == key,
            AnswerValueView::MultiSelected(keys) => words_of(answer) == join(keys, ", "@),
            AnswerValueView::Yes => words_of(answer) == "yes"@,
            AnswerValueView::No => words_of(answer) == "no"@,
            AnswerValueView::Skipped => words_of(answer) == "skipped"@,
            _ => words_of(answer).len() > 0,
        },
{
    reveal_strlit("cancelled");
    reveal_strlit("interrupted");
    reveal_strlit("timeout");
}

proof fn lemma_choices_start(edges: Seq<EdgeView>, i: int)
    requires
        0 <= i < edges.len(),
        !edges[i].freeform(),
        forall|k: int| 0 <= k < i ==> (#[trigger] edges[k]).freeform(),
    ensures
        choices_of(edges).len() > 0,
        choices_of(edges)[0] == choice_of(edges[i]),
    decreases edges.len(),
{
    let earlier = edges.drop_last();
    if i < edges.len() - 1 {
        assert(earlier[i] == edges[i]);
        assert forall|k: int| 0 <= k < i implies (#[trigger] earlier[k]).freeform() by {
            assert(earlier[k] == edges[k]);
        }
        lemma_choices_start(earlier, i);
    } else {
        assert forall|k: int| 0 <= k < earlier.len() implies (#[trigger] earlier[k]).freeform() by {
            assert(earlier[k] == edges[k]);
        }
        lemma_no_choices(earlier);
    }
}

proof fn lemma_no_choices(edges: Seq<EdgeView>)
    requires
        forall|k: int| 0 <= k < edges.len() ==> (#[trigger] edges[k]).freeform(),
    ensures
        choices_of(edges).len() == 0,
    decreases edges.len(),
{
    if edges.len() > 0 {
        let earlier = edges.drop_last();
        assert(edges[edges.len() - 1] == edges.last());
        assert forall|k: int| 0 <= k < earlier.len() implies (#[trigger] earlier[k]).freeform() by {
            assert(earlier[k] == edges[k]);
        }
        lemma_no_choices(earlier);
    }
}

/// A key in brackets at the start of a label is the label's key, whatever it is made
/// of and whatever follows.
pub proof fn lemma_keys_stand_in_brackets(label: Seq<char>, key: Seq<char>, rest: Seq<char>)
    requires
        trim(label) == seq!['['] + key + seq![']'] + rest,
        key.len() > 0,
        !key.contains(']'),
    ensures
        accelerator(label) == key,
{
    let s = trim(label);
    lemma_position(s, ']');
    assert(s[0] == '[');
    assert(s[key.len() as int + 1] == ']');
    let at = position(s, ']');
    if at < key.len() + 1 {
        assert(at > 0);
        assert(s[at] == key[at - 1]);
    }
    assert(s.subrange(1, at) =~= key);
}

/// Up to three bytes of letters and digits before a closing bracket, or before a dash
/// with a space on either side where no closing bracket follows, are the label's key.
pub proof fn lemma_keys_stand_before_a_bracket_or_a_dash(
    label: Seq<char>,
    key: Seq<char>,
    rest: Seq<char>,
)
    requires
        key.len() > 0,
        byte_len(key) <= 3,
        forall|i: int| 0 <= i < key.len() ==> alphanumeric(#[trigger] key[i]),
        key[0] != '[',
        !key.contains(')') && !key.contains(' '),
    ensures
        trim(label) == key + seq![')'] + rest ==> accelerator(label) == key,
        trim(label) == key + " - "@ + rest && !rest.contains(')') ==> accelerator(label) == key,
{
    let s = trim(label);
    let n = key.len() as int;
    reveal_strlit(" - ");
    assert(" - "@.len() == 3 && " - "@[0] == ' ' && " - "@[1] == '-' && " - "@[2] == ' ');
    lemma_position(s, ')');
    if s == key + seq![')'] + rest {
        assert(s[0] == key[0]);
        assert(s.take(n) =~= key);
        assert(s[n] == ')');
        let at = position(s, ')');
        if at < n {
            assert(s[at] == key[at]);
        }
        assert forall|i: int| 0 <= i < n implies alphanumeric(#[trigger] s[i]) by {
            assert(s[i] == key[i]);
        }
        assert(is_short_key(s, n));
    }
    if s == key + " - "@ + rest && !rest.contains(')') {
        assert(s[0] == key[0]);
        assert(s.take(n) =~= key);
        let at = position(s, ')');
        if at < s.len() {
            if at < n {
                assert(s[at] == key[at]);
            } else if at >= n + 3 {
                assert(s[at] == rest[at - n - 3]);
            } else {
                assert(s[at] == " - "@[at - n]);
            }
        }
        lemma_dash_is_found(key, rest);
        assert forall|i: int| 0 <= i < n implies alphanumeric(#[trigger] s[i]) by {
            assert(s[i] == key[i]);
        }
        assert(is_short_key(s, n));
    }
}

proof fn lemma_dash_is_found(key: Seq<char>, rest: Seq<char>)
    requires
        !key.contains(' '),
    ensures
        find(key + " - "@ + rest, " - "@) == Some(key.len() as int),
    decreases key.len(),
{
    reveal_strlit(" - ");
    let s = key + " - "@ + rest;
    if key.len() == 0 {
        assert(" - "@ =~= s.take(3));
    } else {
        assert(s[0] == key[0]);
        assert(key.contains(key[0]));
        assert(!" - "@.is_prefix_of(s)) by {
            if " - "@.is_prefix_of(s) {
                assert(s.take(3)[0] == " - "@[0]);
            }
        }
        let fewer = key.drop_first();
        assert forall|i: int| 0 <= i < fewer.len() implies fewer[i] != ' ' by {
            assert(fewer[i] == key[i + 1]);
        }
        lemma_dash_is_found(fewer, rest);
        assert(s.drop_first() =~= fewer + " - "@ + rest);
    }
}

/// A label with none of these has its first character for a key, and an empty one has
/// an empty key. White space around a label makes no difference.
pub proof fn lemma_other_labels_start_with_their_key(label: Seq<char>)
    requires
        !trim(label).contains(')'),
        find(trim(label), " - "@) is None,
    ensures
        trim(label).len() > 0 && trim(label)[0] != '[' ==> accelerator(label) == seq![
            trim(label)[0],
        ],
        trim(label).len() == 0 ==> accelerator(label).len() == 0,
{
    let s = trim(label);
    lemma_position(s, ')');
    if s.len() > 0 {
        assert(s.take(1) =~= seq![s[0]]);
    }
}

/// A question is of the type that its node names, and refused, by that name, where
/// there is none of it; without a name it is open exactly where the edges say so.
pub proof fn lemma_questions_are_of_the_named_type(node: NodeView, name: Seq<char>, freeform: bool)
    ensures
        ({
            let named = NodeView {
                attrs: node.attrs.insert(
                    "question_type"@,
                    crate::graph::AttrView::String(name),
                ),
                ..node
            };
            match question_type_named(name) {
                Some(t) => gate_type(named, freeform) == Ok::<QuestionType, Seq<char>>(t),
                None => gate_type(named, freeform) matches Err(m) && name.is_suffix_of(m),
            }
        }),
        ({
            let unnamed = NodeView { attrs: node.attrs.remove("question_type"@), ..node };
            &&& gate_type(unnamed, true) == Ok::<QuestionType, Seq<char>>(QuestionType::Freeform)
            &&& gate_type(unnamed, false) == Ok::<QuestionType, Seq<char>>(
                QuestionType::MultipleChoice,
            )
        }),
{
    let m = "invalid human question_type: "@ + name;
    assert(m.skip(m.len() - name.len()) =~= name);
}

} // verus!
