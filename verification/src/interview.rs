//! Questions to humans, and what their answers mean.
use crate::json::{Json, JsonView};
use crate::outcome::SystemActorKind;
use crate::table::{Duplicate, Table};
use crate::text::{
    ascii_alphanumeric, ascii_lower, ascii_lower_char, chars_of, decimal, decimal_string,
    is_ascii_alphanumeric, join, joined, same,
};
use vstd::prelude::*;
use vstd::string::*;

verus! {

/// What kind of answer a question asks for.
#[derive(Clone, Copy, Debug, PartialEq, Eq, Structural)]
pub enum QuestionType {
    YesNo,
    Confirmation,
    MultipleChoice,
    MultiSelect,
    Freeform,
}

/// The question type that a text names.
pub open spec fn question_type_named(s: Seq<char>) -> Option<QuestionType> {
    if s == "yes_no"@ {
        Some(QuestionType::YesNo)
    } else if s == "confirmation"@ {
        Some(QuestionType::Confirmation)
    } else if s == "multiple_choice"@ {
        Some(QuestionType::MultipleChoice)
    } else if s == "multi_select"@ {
        Some(QuestionType::MultiSelect)
    } else if s == "freeform"@ {
        Some(QuestionType::Freeform)
    } else {
        None
    }
}

impl QuestionType {
    pub open spec fn name(self) -> Seq<char> {
        match self {
            QuestionType::YesNo => "yes_no"@,
            QuestionType::Confirmation => "confirmation"@,
            QuestionType::MultipleChoice => "multiple_choice"@,
            QuestionType::MultiSelect => "multi_select"@,
            QuestionType::Freeform => "freeform"@,
        }
    }

    pub fn as_str(&self) -> (r: &'static str)
        ensures
            r@ == self.name(),
    {
        match self {
            QuestionType::YesNo => "yes_no",
            QuestionType::Confirmation => "confirmation",
            QuestionType::MultipleChoice => "multiple_choice",
            QuestionType::MultiSelect => "multi_select",
            QuestionType::Freeform => "freeform",
        }
    }

    pub fn parse(s: &str) -> (r: Option<QuestionType>)
        ensures
            r == question_type_named(s@),
    {
        if same(s, "yes_no") {
            Some(QuestionType::YesNo)
        } else if same(s, "confirmation") {
            Some(QuestionType::Confirmation)
        } else if same(s, "multiple_choice") {
            Some(QuestionType::MultipleChoice)
        } else if same(s, "multi_select") {
            Some(QuestionType::MultiSelect)
        } else if same(s, "freeform") {
            Some(QuestionType::Freeform)
        } else {
            None
        }
    }
}

/// One of the answers to choose from.
#[derive(Debug, PartialEq)]
pub struct InterviewOption {
    pub key: String,
    pub label: String,
    pub description: Option<String>,
    pub preview: Option<String>,
}

pub struct OptionView {
    pub key: Seq<char>,
    pub label: Seq<char>,
    pub description: Option<Seq<char>>,
    pub preview: Option<Seq<char>>,
}

impl View for InterviewOption {
    type V = OptionView;

    open spec fn view(&self) -> OptionView {
        OptionView {
            key: self.key@,
            label: self.label@,
            description: self.description.deep_view(),
            preview: self.preview.deep_view(),
        }
    }
}

impl DeepView for InterviewOption {
    type V = OptionView;

    open spec fn deep_view(&self) -> OptionView {
        self@
    }
}

impl Duplicate for InterviewOption {
    fn duplicate(&self) -> (r: Self) {
        InterviewOption {
            key: self.key.clone(),
            label: self.label.clone(),
            description: self.description.duplicate(),
            preview: self.preview.duplicate(),
        }
    }
}

/// A question that is put to a human. The timeout is in milliseconds.
#[derive(Debug, PartialEq)]
pub struct Question {
    pub id: String,
    pub text: String,
    pub question_type: QuestionType,
    pub options: Vec<InterviewOption>,
    pub allow_freeform: bool,
    pub stage: String,
    pub timeout_ms: Option<u64>,
    pub context_display: Option<String>,
    /// What the human is asked to look at.
    pub review_target: Option<Json>,
    pub metadata: Table<Json>,
}

pub struct QuestionView {
    pub id: Seq<char>,
    pub text: Seq<char>,
    pub question_type: QuestionType,
    pub options: Seq<OptionView>,
    pub allow_freeform: bool,
    pub stage: Seq<char>,
    pub timeout_ms: Option<u64>,
    pub context_display: Option<Seq<char>>,
    pub review_target: Option<JsonView>,
    pub metadata: Map<Seq<char>, JsonView>,
}

impl View for Question {
    type V = QuestionView;

    open spec fn view(&self) -> QuestionView {
        QuestionView {
            id: self.id@,
            text: self.text@,
            question_type: self.question_type,
            options: self.options.deep_view(),
            allow_freeform: self.allow_freeform,
            stage: self.stage@,
            timeout_ms: self.timeout_ms,
            context_display: self.context_display.deep_view(),
            review_target: self.review_target.deep_view(),
            metadata: self.metadata@,
        }
    }
}

impl DeepView for Question {
    type V = QuestionView;

    open spec fn deep_view(&self) -> QuestionView {
        self@
    }
}

/// Says that a question is put to a human.
#[derive(Debug, PartialEq)]
pub struct InterviewStarted {
    pub question_id: String,
    pub question: String,
    pub stage: String,
    pub question_type: String,
    pub options: Vec<InterviewOption>,
    pub allow_freeform: bool,
    pub timeout_ms: Option<u64>,
    pub context_display: Option<String>,
    pub review_target: Option<Json>,
}

pub struct InterviewStartedView {
    pub question_id: Seq<char>,
    pub question: Seq<char>,
    pub stage: Seq<char>,
    pub question_type: Seq<char>,
    pub options: Seq<OptionView>,
    pub allow_freeform: bool,
    pub timeout_ms: Option<u64>,
    pub context_display: Option<Seq<char>>,
    pub review_target: Option<JsonView>,
}

impl View for InterviewStarted {
    type V = InterviewStartedView;

    open spec fn view(&self) -> InterviewStartedView {
        InterviewStartedView {
            question_id: self.question_id@,
            question: self.question@,
            stage: self.stage@,
            question_type: self.question_type@,
            options: self.options.deep_view(),
            allow_freeform: self.allow_freeform,
            timeout_ms: self.timeout_ms,
            context_display: self.context_display.deep_view(),
            review_target: self.review_target.deep_view(),
        }
    }
}

impl DeepView for InterviewStarted {
    type V = InterviewStartedView;

    open spec fn deep_view(&self) -> InterviewStartedView {
        self@
    }
}

/// The event for the start of a question's interview.
pub open spec fn started_as(question: QuestionView) -> InterviewStartedView {
    InterviewStartedView {
        question_id: question.id,
        question: question.text,
        stage: question.stage,
        question_type: question.question_type.name(),
        options: question.options,
        allow_freeform: question.allow_freeform,
        timeout_ms: question.timeout_ms,
        context_display: question.context_display,
        review_target: question.review_target,
    }
}

/// The event for the start of a question's interview.
pub fn interview_started(question: &Question) -> (r: InterviewStarted)
    ensures
        r@ == started_as(question@),
{
    InterviewStarted {
        question_id: question.id.clone(),
        question: question.text.clone(),
        stage: question.stage.clone(),
        question_type: question.question_type.as_str().to_owned(),
        options: question.options.duplicate(),
        allow_freeform: question.allow_freeform,
        timeout_ms: question.timeout_ms,
        context_display: question.context_display.duplicate(),
        review_target: question.review_target.duplicate(),
    }
}

/// What was answered, or why nothing was.
#[derive(Debug, PartialEq)]
pub enum AnswerValue {
    Text(String),
    Selected(String),
    MultiSelected(Vec<String>),
    Yes,
    No,
    Cancelled,
    Interrupted,
    Skipped,
    Timeout,
}

pub enum AnswerValueView {
    Text(Seq<char>),
    Selected(Seq<char>),
    MultiSelected(Seq<Seq<char>>),
    Yes,
    No,
    Cancelled,
    Interrupted,
    Skipped,
    Timeout,
}

impl View for AnswerValue {
    type V = AnswerValueView;

    open spec fn view(&self) -> AnswerValueView {
        match self {
            AnswerValue::Text(s) => AnswerValueView::Text(s@),
            AnswerValue::Selected(s) => AnswerValueView::Selected(s@),
            AnswerValue::MultiSelected(v) => AnswerValueView::MultiSelected(v.deep_view()),
            AnswerValue::Yes => AnswerValueView::Yes,
            AnswerValue::No => AnswerValueView::No,
            AnswerValue::Cancelled => AnswerValueView::Cancelled,
            AnswerValue::Interrupted => AnswerValueView::Interrupted,
            AnswerValue::Skipped => AnswerValueView::Skipped,
            AnswerValue::Timeout => AnswerValueView::Timeout,
        }
    }
}

/// An answer, with the words that the human gave with it.
#[derive(Debug, PartialEq)]
pub struct Answer {
    pub value: AnswerValue,
    pub text: Option<String>,
}

pub struct AnswerView {
    pub value: AnswerValueView,
    pub text: Option<Seq<char>>,
}

impl View for Answer {
    type V = AnswerView;

    open spec fn view(&self) -> AnswerView {
        AnswerView { value: self.value@, text: self.text.deep_view() }
    }
}

impl DeepView for Answer {
    type V = AnswerView;

    open spec fn deep_view(&self) -> AnswerView {
        self@
    }
}

impl Answer {
    /// An answer without words of its own.
    pub fn of(value: AnswerValue) -> (r: Answer)
        ensures
            r@ == (AnswerView { value: value@, text: None }),
    {
        Answer { value, text: None }
    }
}

/// Who brought an interview to its end.
#[derive(Clone, Copy, Debug, PartialEq, Eq, Structural)]
pub enum Actor {
    System(SystemActorKind),
    /// Whoever submitted the answer.
    Submitter,
}

/// How an interview ended.
#[derive(Debug, PartialEq)]
pub enum InterviewEnd {
    Timeout,
    Interrupted { reason: String },
    Completed { answer: String },
}

pub enum EndView {
    Timeout,
    Interrupted { reason: Seq<char> },
    Completed { answer: Seq<char> },
}

impl View for InterviewEnd {
    type V = EndView;

    open spec fn view(&self) -> EndView {
        match self {
            InterviewEnd::Timeout => EndView::Timeout,
            InterviewEnd::Interrupted { reason } => EndView::Interrupted { reason: reason@ },
            InterviewEnd::Completed { answer } => EndView::Completed { answer: answer@ },
        }
    }
}

/// Says how an interview ended, and by whom.
#[derive(Debug, PartialEq)]
pub struct InterviewEvent {
    pub actor: Actor,
    pub question_id: String,
    pub question: String,
    pub stage: String,
    pub duration_ms: u64,
    pub end: InterviewEnd,
}

pub struct InterviewEventView {
    pub actor: Actor,
    pub question_id: Seq<char>,
    pub question: Seq<char>,
    pub stage: Seq<char>,
    pub duration_ms: u64,
    pub end: EndView,
}

impl View for InterviewEvent {
    type V = InterviewEventView;

    open spec fn view(&self) -> InterviewEventView {
        InterviewEventView {
            actor: self.actor,
            question_id: self.question_id@,
            question: self.question@,
            stage: self.stage@,
            duration_ms: self.duration_ms,
            end: self.end@,
        }
    }
}

impl DeepView for InterviewEvent {
    type V = InterviewEventView;

    open spec fn deep_view(&self) -> InterviewEventView {
        self@
    }
}

/// The event for the end of a question's interview.
pub open spec fn ended_as(
    question: QuestionView,
    actor: Actor,
    end: EndView,
    duration_ms: u64,
) -> InterviewEventView {
    InterviewEventView {
        actor,
        question_id: question.id,
        question: question.text,
        stage: question.stage,
        duration_ms,
        end,
    }
}

pub fn interview_event(question: &Question, actor: Actor, end: InterviewEnd, duration_ms: u64) -> (r:
    InterviewEvent)
    ensures
        r@ == ended_as(question@, actor, end@, duration_ms),
{
    InterviewEvent {
        actor,
        question_id: question.id.clone(),
        question: question.text.clone(),
        stage: question.stage.clone(),
        duration_ms,
        end,
    }
}

/// The label of the first option with a key, else the key itself.
pub open spec fn label_for(options: Seq<OptionView>, key: Seq<char>) -> Seq<char>
    decreases options.len(),
{
    if options.len() == 0 {
        key
    } else if options[0].key == key {
        options[0].label
    } else {
        label_for(options.drop_first(), key)
    }
}

pub fn label_for_key(options: &Vec<InterviewOption>, key: &str) -> (r: String)
    ensures
        r@ == label_for(options.deep_view(), key@),
{
    let ghost all = options.deep_view();
    let mut i: usize = 0;
    assert(all.skip(0) =~= all);
    while i < options.len()
        invariant
            i <= options@.len(),
            all == options.deep_view(),
            label_for(all, key@) == label_for(all.skip(i as int), key@),
        decreases options@.len() - i,
    {
        assert(all[i as int] == options@[i as int]@);
        assert(all.skip(i as int).drop_first() =~= all.skip(i + 1));
        if same(options[i].key.as_str(), key) {
            return options[i].label.clone();
        }
        i += 1;
    }
    assert(all.skip(i as int) =~= Seq::empty());
    key.to_owned()
}

/// The labels of an answer, in the order of the submission.
pub open spec fn labels_of(options: Seq<OptionView>, value: AnswerValueView) -> Seq<Seq<char>> {
    match value {
        AnswerValueView::Selected(key) => seq![label_for(options, key)],
        AnswerValueView::MultiSelected(keys) => keys.map_values(
            |key: Seq<char>| label_for(options, key),
        ),
        AnswerValueView::Text(text) => seq![text],
        AnswerValueView::Yes => seq!["yes"@],
        AnswerValueView::No => seq!["no"@],
        AnswerValueView::Cancelled => seq!["cancelled"@],
        AnswerValueView::Interrupted => seq!["interrupted"@],
        AnswerValueView::Skipped => seq!["skipped"@],
        AnswerValueView::Timeout => seq!["timeout"@],
    }
}

fn one(text: String) -> (r: Vec<String>)
    ensures
        r.deep_view() == seq![text@],
{
    let ghost model = seq![text@];
    let mut r: Vec<String> = Vec::new();
    r.push(text);
    assert(r.deep_view() =~= model);
    r
}

/// The labels of an answer, in the order of the submission.
pub fn answer_labels(options: &Vec<InterviewOption>, answer: &Answer) -> (r: Vec<String>)
    ensures
        r.deep_view() == labels_of(options.deep_view(), answer@.value),
{
    match &answer.value {
        AnswerValue::Selected(key) => one(label_for_key(options, key.as_str())),
        AnswerValue::MultiSelected(keys) => {
            let ghost model = keys.deep_view().map_values(
                |key: Seq<char>| label_for(options.deep_view(), key),
            );
            let mut r: Vec<String> = Vec::new();
            let mut i: usize = 0;
            assert(r.deep_view() =~= model.take(0));
            while i < keys.len()
                invariant
                    i <= keys@.len(),
                    model == keys.deep_view().map_values(
                        |key: Seq<char>| label_for(options.deep_view(), key),
                    ),
                    r.deep_view() == model.take(i as int),
                decreases keys@.len() - i,
            {
                let ghost had = r.deep_view();
                assert(keys.deep_view()[i as int] == keys@[i as int]@);
                r.push(label_for_key(options, keys[i].as_str()));
                assert(r.deep_view() =~= had.push(model[i as int]));
                i += 1;
                assert(r.deep_view() =~= model.take(i as int));
            }
            assert(model.take(i as int) =~= model);
            r
        },
        AnswerValue::Text(text) => one(text.clone()),
        AnswerValue::Yes => one("yes".to_owned()),
        AnswerValue::No => one("no".to_owned()),
        AnswerValue::Cancelled => one("cancelled".to_owned()),
        AnswerValue::Interrupted => one("interrupted".to_owned()),
        AnswerValue::Skipped => one("skipped".to_owned()),
        AnswerValue::Timeout => one("timeout".to_owned()),
    }
}

/// The character that stands for `c` in a slug.
pub open spec fn slug_char(c: char) -> Option<char> {
    if is_ascii_alphanumeric(c) {
        Some(ascii_lower(c))
    } else if c == '-' || c == '_' {
        Some(c)
    } else {
        None
    }
}

/// The characters of a slug: at most the first forty-eight that have a place in
/// one.
pub open spec fn slug_body(s: Seq<char>) -> Seq<char>
    decreases s.len(),
{
    if s.len() == 0 {
        Seq::empty()
    } else {
        let body = slug_body(s.drop_last());
        match slug_char(s.last()) {
            Some(c) => if body.len() < 48 {
                body.push(c)
            } else {
                body
            },
            None => body,
        }
    }
}

/// A short form of a text that is fit for an identifier.
pub open spec fn slug_of(s: Seq<char>) -> Seq<char> {
    if slug_body(s).len() == 0 {
        "x"@
    } else {
        slug_body(s)
    }
}

fn slugged(c: char) -> (r: Option<char>)
    ensures
        r == slug_char(c),
{
    if ascii_alphanumeric(c) {
        Some(ascii_lower_char(c))
    } else if c == '-' || c == '_' {
        Some(c)
    } else {
        None
    }
}

pub fn slug(value: &str) -> (r: String)
    ensures
        r@ == slug_of(value@),
{
    let v = chars_of(value);
    let mut out = String::new();
    let mut n: usize = 0;
    let mut i: usize = 0;
    assert(v@.take(0) =~= Seq::empty());
    assert(out@ =~= Seq::<char>::empty());
    while i < v.len()
        invariant
            i <= v@.len(),
            n == out@.len(),
            n <= 48,
            out@ == slug_body(v@.take(i as int)),
        decreases v@.len() - i,
    {
        assert(v@.take(i + 1).drop_last() =~= v@.take(i as int));
        if let Some(c) = slugged(v[i]) {
            if n < 48 {
                out.push(c);
                n += 1;
            }
        }
        i += 1;
    }
    assert(v@.take(i as int) =~= v@);
    if n == 0 {
        "x".to_owned()
    } else {
        out
    }
}

/// A slug is never empty, is at most forty-eight characters long, and holds
/// lower-case letters, digits, hyphens and underscores alone.
pub proof fn lemma_slug_is_short_and_plain(s: Seq<char>)
    ensures
        0 < slug_of(s).len() <= 48,
        forall|i: int|
            0 <= i < slug_of(s).len() ==> slug_char(#[trigger] slug_of(s)[i]) == Some(
                slug_of(s)[i],
            ),
{
    lemma_slug_body(s);
    reveal_strlit("x");
}

proof fn lemma_slug_body(s: Seq<char>)
    ensures
        slug_body(s).len() <= 48,
        forall|i: int|
            0 <= i < slug_body(s).len() ==> slug_char(#[trigger] slug_body(s)[i]) == Some(
                slug_body(s)[i],
            ),
    decreases s.len(),
{
    if s.len() > 0 {
        lemma_slug_body(s.drop_last());
        let rest = slug_body(s.drop_last());
        let body = slug_body(s);
        assert forall|i: int| 0 <= i < body.len() implies slug_char(#[trigger] body[i]) == Some(
            body[i],
        ) by {
            if i < rest.len() {
                assert(body[i] == rest[i]);
            }
        }
    }
}

/// The identity of a question that an agent asks, up to its unique part.
pub open spec fn question_id_lead(
    node_id: Seq<char>,
    visit: u32,
    tool_call_id: Seq<char>,
    index: nat,
) -> Seq<char> {
    "agentq-"@ + slug_of(node_id) + "-v"@ + decimal(visit as nat) + "-"@ + slug_of(tool_call_id)
        + "-"@ + decimal(index + 1) + "-"@
}

/// Whether `c` is one of the characters of Crockford Base32: a digit, or a
/// capital letter that is not easily taken for another.
pub open spec fn is_crockford(c: char) -> bool {
    ('0' <= c && c <= '9') || ('A' <= c && c <= 'Z' && c != 'I' && c != 'L' && c != 'O' && c != 'U')
}

/// Whether a text has the form of a `Ulid`.
pub open spec fn is_ulid(s: Seq<char>) -> bool {
    s.len() == 26 && forall|i: int| 0 <= i < s.len() ==> is_crockford(#[trigger] s[i])
}

/// A new identifier: `ulid::Ulid::new` and its `to_string`, twenty-six characters
/// of Crockford Base32. Which characters is not said: they hold the time and
/// random bits.
#[verifier::external_body]
pub(crate) fn new_ulid() -> (r: String)
    ensures
        is_ulid(r@),
{
    ulid::Ulid::new().to_string()
}

/// The identity of a question that an agent asks: where it was asked, and a
/// unique part.
pub fn internal_question_id(node_id: &str, visit: u32, tool_call_id: &str, index: usize) -> (r:
    String)
    requires
        index < u64::MAX,
    ensures
        question_id_lead(node_id@, visit, tool_call_id@, index as nat).is_prefix_of(r@),
        is_ulid(
            r@.skip(question_id_lead(node_id@, visit, tool_call_id@, index as nat).len() as int),
        ),
{
    let mut s = "agentq-".to_owned();
    s.append(slug(node_id).as_str());
    s.append("-v");
    s.append(decimal_string(visit as u64).as_str());
    s.append("-");
    s.append(slug(tool_call_id).as_str());
    s.append("-");
    s.append(decimal_string(index as u64 + 1).as_str());
    s.append("-");
    let ghost lead = s@;
    let unique = new_ulid();
    s.append(unique.as_str());
    assert(lead =~= s@.take(lead.len() as int));
    assert(s@.skip(lead.len() as int) =~= unique@);
    s
}

/// A question as an agent asks it.
#[derive(Debug, PartialEq)]
pub struct AgentQuestion {
    pub original_id: Option<String>,
    pub original_question: String,
    pub header: Option<String>,
    pub text: String,
    pub question_type: QuestionType,
    pub options: Vec<InterviewOption>,
    pub allow_freeform: bool,
}

pub struct AgentQuestionView {
    pub original_id: Option<Seq<char>>,
    pub original_question: Seq<char>,
    pub header: Option<Seq<char>>,
    pub text: Seq<char>,
    pub question_type: QuestionType,
    pub options: Seq<OptionView>,
    pub allow_freeform: bool,
}

impl View for AgentQuestion {
    type V = AgentQuestionView;

    open spec fn view(&self) -> AgentQuestionView {
        AgentQuestionView {
            original_id: self.original_id.deep_view(),
            original_question: self.original_question@,
            header: self.header.deep_view(),
            text: self.text@,
            question_type: self.question_type,
            options: self.options.deep_view(),
            allow_freeform: self.allow_freeform,
        }
    }
}

impl DeepView for AgentQuestion {
    type V = AgentQuestionView;

    open spec fn deep_view(&self) -> AgentQuestionView {
        self@
    }
}

/// A text under a key, where there is one.
pub open spec fn noted(
    metadata: Map<Seq<char>, JsonView>,
    key: Seq<char>,
    text: Option<Seq<char>>,
) -> Map<Seq<char>, JsonView> {
    match text {
        Some(s) => metadata.insert(key, JsonView::Str(s)),
        None => metadata,
    }
}

/// The question that is put to a human for an agent's question.
pub open spec fn asked(
    question: AgentQuestionView,
    id: Seq<char>,
    node_id: Seq<char>,
    tool_call_id: Seq<char>,
) -> QuestionView {
    let base = Map::empty().insert("agent.tool_call_id"@, JsonView::Str(tool_call_id)).insert(
        "agent.original_question"@,
        JsonView::Str(question.original_question),
    );
    QuestionView {
        id,
        text: question.text,
        question_type: question.question_type,
        options: question.options,
        allow_freeform: question.allow_freeform,
        stage: node_id,
        timeout_ms: None,
        context_display: None,
        review_target: None,
        metadata: noted(
            noted(base, "agent.original_id"@, question.original_id),
            "agent.header"@,
            question.header,
        ),
    }
}

/// The question that is put to a human for an agent's question.
pub fn prepare_question(question: &AgentQuestion, id: String, node_id: &str, tool_call_id: &str) -> (r:
    Question)
    ensures
        r@ == asked(question@, id@, node_id@, tool_call_id@),
{
    let mut metadata: Table<Json> = Table::new();
    metadata.insert("agent.tool_call_id".to_owned(), Json::from_str(tool_call_id));
    metadata.insert(
        "agent.original_question".to_owned(),
        Json::from_str(question.original_question.as_str()),
    );
    if let Some(original_id) = &question.original_id {
        metadata.insert("agent.original_id".to_owned(), Json::from_str(original_id.as_str()));
    }
    if let Some(header) = &question.header {
        metadata.insert("agent.header".to_owned(), Json::from_str(header.as_str()));
    }
    Question {
        id,
        text: question.text.clone(),
        question_type: question.question_type,
        options: question.options.duplicate(),
        allow_freeform: question.allow_freeform,
        stage: node_id.to_owned(),
        timeout_ms: None,
        context_display: None,
        review_target: None,
        metadata,
    }
}

/// What became of an agent's question.
#[derive(Clone, Copy, Debug, PartialEq, Eq, Structural)]
pub enum AgentQuestionAnswerStatus {
    Answered,
    Cancelled,
    Interrupted,
    Skipped,
    Timeout,
}

/// The answer to an agent's question.
#[derive(Debug, PartialEq)]
pub struct AgentQuestionAnswer {
    pub original_id: Option<String>,
    pub original_question: String,
    pub answers: Vec<String>,
    pub status: AgentQuestionAnswerStatus,
}

pub struct AgentAnswerView {
    pub original_id: Option<Seq<char>>,
    pub original_question: Seq<char>,
    pub answers: Seq<Seq<char>>,
    pub status: AgentQuestionAnswerStatus,
}

impl View for AgentQuestionAnswer {
    type V = AgentAnswerView;

    open spec fn view(&self) -> AgentAnswerView {
        AgentAnswerView {
            original_id: self.original_id.deep_view(),
            original_question: self.original_question@,
            answers: self.answers.deep_view(),
            status: self.status,
        }
    }
}

impl DeepView for AgentQuestionAnswer {
    type V = AgentAnswerView;

    open spec fn deep_view(&self) -> AgentAnswerView {
        self@
    }
}

/// What a submitted answer makes of a question.
pub open spec fn status_of(value: AnswerValueView) -> AgentQuestionAnswerStatus {
    match value {
        AnswerValueView::Cancelled => AgentQuestionAnswerStatus::Cancelled,
        AnswerValueView::Interrupted => AgentQuestionAnswerStatus::Interrupted,
        AnswerValueView::Skipped => AgentQuestionAnswerStatus::Skipped,
        AnswerValueView::Timeout => AgentQuestionAnswerStatus::Timeout,
        _ => AgentQuestionAnswerStatus::Answered,
    }
}

/// The answer to an agent's question. One that was not answered has no labels.
pub open spec fn answered(question: AgentQuestionView, value: AnswerValueView) -> AgentAnswerView {
    AgentAnswerView {
        original_id: question.original_id,
        original_question: question.original_question,
        answers: if status_of(value) == AgentQuestionAnswerStatus::Answered {
            labels_of(question.options, value)
        } else {
            Seq::empty()
        },
        status: status_of(value),
    }
}

pub fn answer_from_submission(question: &AgentQuestion, answer: &Answer) -> (r: AgentQuestionAnswer)
    ensures
        r@ == answered(question@, answer@.value),
{
    let status = match &answer.value {
        AnswerValue::Cancelled => AgentQuestionAnswerStatus::Cancelled,
        AnswerValue::Interrupted => AgentQuestionAnswerStatus::Interrupted,
        AnswerValue::Skipped => AgentQuestionAnswerStatus::Skipped,
        AnswerValue::Timeout => AgentQuestionAnswerStatus::Timeout,
        _ => AgentQuestionAnswerStatus::Answered,
    };
    let answers = if status == AgentQuestionAnswerStatus::Answered {
        answer_labels(&question.options, answer)
    } else {
        let none: Vec<String> = Vec::new();
        assert(none.deep_view() =~= Seq::empty());
        none
    };
    AgentQuestionAnswer {
        original_id: question.original_id.duplicate(),
        original_question: question.original_question.clone(),
        answers,
        status,
    }
}

/// How the interview of a prepared question ended, and by whom.
pub open spec fn submission_end(question: QuestionView, value: AnswerValueView) -> (Actor, EndView) {
    match value {
        AnswerValueView::Timeout => (Actor::System(SystemActorKind::Timeout), EndView::Timeout),
        AnswerValueView::Interrupted => (
            Actor::Submitter,
            EndView::Interrupted { reason: "interrupted"@ },
        ),
        AnswerValueView::Cancelled => (
            Actor::Submitter,
            EndView::Interrupted { reason: "cancelled"@ },
        ),
        _ => (
            Actor::Submitter,
            EndView::Completed { answer: join(labels_of(question.options, value), ", "@) },
        ),
    }
}

/// The event for a submitted answer.
pub fn submission_event(question: &Question, answer: &Answer, duration_ms: u64) -> (r: InterviewEvent)
    ensures
        r@ == ended_as(
            question@,
            submission_end(question@, answer@.value).0,
            submission_end(question@, answer@.value).1,
            duration_ms,
        ),
{
    match &answer.value {
        AnswerValue::Timeout => interview_event(
            question,
            Actor::System(SystemActorKind::Timeout),
            InterviewEnd::Timeout,
            duration_ms,
        ),
        AnswerValue::Interrupted => interview_event(
            question,
            Actor::Submitter,
            InterviewEnd::Interrupted { reason: "interrupted".to_owned() },
            duration_ms,
        ),
        AnswerValue::Cancelled => interview_event(
            question,
            Actor::Submitter,
            InterviewEnd::Interrupted { reason: "cancelled".to_owned() },
            duration_ms,
        ),
        _ => interview_event(
            question,
            Actor::Submitter,
            InterviewEnd::Completed {
                answer: joined(&answer_labels(&question.options, answer), ", "),
            },
            duration_ms,
        ),
    }
}

/// The event for a question that was broken off.
pub fn interrupted_event(question: &Question, duration_ms: u64) -> (r: InterviewEvent)
    ensures
        r@ == ended_as(
            question@,
            Actor::System(SystemActorKind::Engine),
            EndView::Interrupted { reason: "interrupted"@ },
            duration_ms,
        ),
{
    interview_event(
        question,
        Actor::System(SystemActorKind::Engine),
        InterviewEnd::Interrupted { reason: "interrupted".to_owned() },
        duration_ms,
    )
}

/// A question with the agent's own form of it.
#[derive(Debug, PartialEq)]
pub struct PreparedQuestion {
    pub agent_question: AgentQuestion,
    pub question: Question,
}

/// The questions of a batch as they are put to a human.
pub fn prepare_batch(
    questions: Vec<AgentQuestion>,
    node_id: &str,
    visit: u32,
    tool_call_id: &str,
) -> (r: Vec<PreparedQuestion>)
    ensures
        r@.len() == questions@.len(),
        forall|i: int|
            0 <= i < r@.len() ==> {
                &&& (#[trigger] r@[i]).agent_question@ == questions@[i]@
                &&& r@[i].question@ == asked(
                    questions@[i]@,
                    r@[i].question@.id,
                    node_id@,
                    tool_call_id@,
                )
                &&& question_id_lead(node_id@, visit, tool_call_id@, i as nat).is_prefix_of(
                    r@[i].question@.id,
                )
                &&& is_ulid(
                    r@[i].question@.id.skip(
                        question_id_lead(node_id@, visit, tool_call_id@, i as nat).len() as int,
                    ),
                )
            },
{
    let ghost all = questions@;
    let mut rest = questions;
    let mut r: Vec<PreparedQuestion> = Vec::new();
    let n: usize = rest.len();
    let mut i: usize = 0;
    while i < n
        invariant
            i <= n,
            n == all.len(),
            rest@ == all.skip(i as int),
            r@.len() == i,
            forall|k: int|
                0 <= k < i ==> {
                    &&& (#[trigger] r@[k]).agent_question@ == all[k]@
                    &&& r@[k].question@ == asked(
                        all[k]@,
                        r@[k].question@.id,
                        node_id@,
                        tool_call_id@,
                    )
                    &&& question_id_lead(node_id@, visit, tool_call_id@, k as nat).is_prefix_of(
                        r@[k].question@.id,
                    )
                    &&& is_ulid(
                        r@[k].question@.id.skip(
                            question_id_lead(node_id@, visit, tool_call_id@, k as nat).len() as int,
                        ),
                    )
                },
        decreases n - i,
    {
        let agent_question = rest.remove(0);
        assert(agent_question == all[i as int]);
        assert(rest@ =~= all.skip(i + 1));
        let id = internal_question_id(node_id, visit, tool_call_id, i);
        let question = prepare_question(&agent_question, id, node_id, tool_call_id);
        r.push(PreparedQuestion { agent_question, question });
        i += 1;
    }
    r
}

/// The end of a batch: an event and an answer for each question.
#[derive(Debug, PartialEq)]
pub struct BatchEnd {
    pub events: Vec<InterviewEvent>,
    pub answers: Vec<AgentQuestionAnswer>,
}

/// Ends a batch whose questions were all answered, or broken off together.
/// `durations_ms` says how long each interview took until its end was told.
pub fn end_batch(
    prepared: &Vec<PreparedQuestion>,
    answers: Option<Vec<Answer>>,
    durations_ms: &Vec<u64>,
) -> (r: BatchEnd)
    requires
        durations_ms@.len() == prepared@.len(),
        answers matches Some(all) ==> all@.len() == prepared@.len(),
    ensures
        r.events@.len() == prepared@.len(),
        r.answers@.len() == prepared@.len(),
        forall|i: int|
            0 <= i < prepared@.len() ==> {
                let question = (#[trigger] prepared@[i]).question@;
                let asked_as = prepared@[i].agent_question@;
                match answers {
                    Some(all) => {
                        &&& r.events@[i]@ == ended_as(
                            question,
                            submission_end(question, all@[i]@.value).0,
                            submission_end(question, all@[i]@.value).1,
                            durations_ms@[i],
                        )
                        &&& r.answers@[i]@ == answered(asked_as, all@[i]@.value)
                    },
                    None => {
                        &&& r.events@[i]@ == ended_as(
                            question,
                            Actor::System(SystemActorKind::Engine),
                            EndView::Interrupted { reason: "interrupted"@ },
                            durations_ms@[i],
                        )
                        &&& r.answers@[i]@ == answered(asked_as, AnswerValueView::Interrupted)
                    },
                }
            },
{
    let mut events: Vec<InterviewEvent> = Vec::new();
    let mut results: Vec<AgentQuestionAnswer> = Vec::new();
    let mut i: usize = 0;
    while i < prepared.len()
        invariant
            i <= prepared@.len(),
            events@.len() == i,
            results@.len() == i,
            durations_ms@.len() == prepared@.len(),
            answers matches Some(all) ==> all@.len() == prepared@.len(),
            forall|k: int|
                0 <= k < i ==> {
                    let question = (#[trigger] prepared@[k]).question@;
                    let asked_as = prepared@[k].agent_question@;
                    match answers {
                        Some(all) => {
                            &&& events@[k]@ == ended_as(
                                question,
                                submission_end(question, all@[k]@.value).0,
                                submission_end(question, all@[k]@.value).1,
                                durations_ms@[k],
                            )
                            &&& results@[k]@ == answered(asked_as, all@[k]@.value)
                        },
                        None => {
                            &&& events@[k]@ == ended_as(
                                question,
                                Actor::System(SystemActorKind::Engine),
                                EndView::Interrupted { reason: "interrupted"@ },
                                durations_ms@[k],
                            )
                            &&& results@[k]@ == answered(asked_as, AnswerValueView::Interrupted)
                        },
                    }
                },
        decreases prepared@.len() - i,
    {
        let p = &prepared[i];
        match &answers {
            Some(all) => {
                events.push(submission_event(&p.question, &all[i], durations_ms[i]));
                results.push(answer_from_submission(&p.agent_question, &all[i]));
            },
            None => {
                events.push(interrupted_event(&p.question, durations_ms[i]));
                results.push(
                    answer_from_submission(
                        &p.agent_question,
                        &Answer::of(AnswerValue::Interrupted),
                    ),
                );
            },
        }
        i += 1;
    }
    BatchEnd { events, answers: results }
}

/// A selected key is told by the label of the first option that has it, and as
/// itself where no option does.
pub proof fn lemma_keys_are_told_by_their_label(options: Seq<OptionView>, key: Seq<char>, i: int)
    requires
        0 <= i <= options.len(),
        i < options.len() ==> options[i].key == key,
        forall|k: int| 0 <= k < i ==> (#[trigger] options[k]).key != key,
    ensures
        label_for(options, key) == if i < options.len() {
            options[i].label
        } else {
            key
        },
    decreases options.len(),
{
    if options.len() > 0 && i > 0 {
        let rest = options.drop_first();
        assert(options[0].key != key);
        assert forall|k: int| 0 <= k < i - 1 implies (#[trigger] rest[k]).key != key by {
            assert(rest[k] == options[k + 1]);
        }
        lemma_keys_are_told_by_their_label(rest, key, i - 1);
    }
}

/// An answer to an agent's question goes back under the question as the agent
/// asked it, with its labels: one for a selected key, one for each of several keys
/// in their order, and a text as it is. A question that was cancelled, broken off,
/// skipped or left until its time ran out goes back as that, without an answer.
pub proof fn lemma_answers_go_back_to_the_agent(
    question: AgentQuestionView,
    value: AnswerValueView,
)
    ensures
        ({
            let a = answered(question, value);
            &&& a.original_id == question.original_id
            &&& a.original_question == question.original_question
            &&& value is Cancelled ==> a.status == AgentQuestionAnswerStatus::Cancelled
            &&& value is Interrupted ==> a.status == AgentQuestionAnswerStatus::Interrupted
            &&& value is Skipped ==> a.status == AgentQuestionAnswerStatus::Skipped
            &&& value is Timeout ==> a.status == AgentQuestionAnswerStatus::Timeout
            &&& a.status != AgentQuestionAnswerStatus::Answered ==> a.answers.len() == 0
            &&& match value {
                AnswerValueView::Text(text) => a.answers == seq![text] && a.status
                    == AgentQuestionAnswerStatus::Answered,
                AnswerValueView::Selected(key) => a.answers == seq![
                    label_for(question.options, key),
                ] && a.status == AgentQuestionAnswerStatus::Answered,
                AnswerValueView::MultiSelected(keys) => {
                    &&& a.status == AgentQuestionAnswerStatus::Answered
                    &&& a.answers.len() == keys.len()
                    &&& forall|i: int|
                        0 <= i < keys.len() ==> #[trigger] a.answers[i] == label_for(
                            question.options,
                            keys[i],
                        )
                },
                AnswerValueView::Yes => a.answers == seq!["yes"@] && a.status
                    == AgentQuestionAnswerStatus::Answered,
                AnswerValueView::No => a.answers == seq!["no"@] && a.status
                    == AgentQuestionAnswerStatus::Answered,
                _ => a.answers.len() == 0,
            }
        }),
{
}

/// The end of an interview is told with its question and its time: as completed,
/// with the labels of the answer, where there was one or it was skipped; as
/// interrupted, with why, where it was cancelled or broken off; and as timed out,
/// by the engine, where its time ran out.
pub proof fn lemma_interviews_are_told_as_they_ended(
    question: QuestionView,
    value: AnswerValueView,
)
    ensures
        ({
            let (actor, end) = submission_end(question, value);
            &&& value is Timeout <==> end == EndView::Timeout
            &&& value is Timeout ==> actor == Actor::System(SystemActorKind::Timeout)
            &&& !(value is Timeout) ==> actor == Actor::Submitter
            &&& value is Interrupted ==> end == (EndView::Interrupted { reason: "interrupted"@ })
            &&& value is Cancelled ==> end == (EndView::Interrupted { reason: "cancelled"@ })
            &&& end is Completed <==> !(value is Timeout || value is Interrupted
                || value is Cancelled)
            &&& value matches AnswerValueView::Text(text) ==> end == (EndView::Completed {
                answer: text,
            })
            &&& value matches AnswerValueView::Selected(key) ==> end == (EndView::Completed {
                answer: label_for(question.options, key),
            })
        }),
{
}

/// What is put to a human is the agent's question as it asked it, for the stage
/// that asks, without a limit of time; it keeps the agent's own form of it, its
/// identity and its heading where it has them.
pub proof fn lemma_questions_keep_the_agents_form(
    question: AgentQuestionView,
    id: Seq<char>,
    node_id: Seq<char>,
    tool_call_id: Seq<char>,
)
    ensures
        ({
            let q = asked(question, id, node_id, tool_call_id);
            &&& q.id == id && q.stage == node_id && q.text == question.text
            &&& q.question_type == question.question_type && q.options == question.options
            &&& q.allow_freeform == question.allow_freeform && q.timeout_ms is None
            &&& q.metadata.contains_key("agent.tool_call_id"@)
            &&& q.metadata["agent.tool_call_id"@] == JsonView::Str(tool_call_id)
            &&& q.metadata.contains_key("agent.original_question"@)
            &&& q.metadata["agent.original_question"@] == JsonView::Str(question.original_question)
            &&& q.metadata.contains_key("agent.original_id"@) <==> question.original_id is Some
            &&& question.original_id matches Some(own) ==> q.metadata["agent.original_id"@]
                == JsonView::Str(own)
            &&& q.metadata.contains_key("agent.header"@) <==> question.header is Some
            &&& question.header matches Some(header) ==> q.metadata["agent.header"@]
                == JsonView::Str(header)
        }),
{
    reveal_strlit("agent.tool_call_id");
    reveal_strlit("agent.original_question");
    reveal_strlit("agent.original_id");
    reveal_strlit("agent.header");
    assert("agent.tool_call_id"@.len() == 18);
    assert("agent.original_question"@.len() == 23);
    assert("agent.original_id"@.len() == 17);
    assert("agent.header"@.len() == 12);
}

/// A slug keeps, of the characters of a text, the letters in small form, the
/// digits, hyphens and underscores, in their order, until it is full; every other
/// character is left out.
pub proof fn lemma_slugs_keep_what_is_plain(s: Seq<char>, c: char)
    ensures
        ({
            let before = slug_body(s);
            let after = slug_body(s.push(c));
            let plain = ('0' <= c && c <= '9') || ('a' <= c && c <= 'z') || ('A' <= c && c <= 'Z')
                || c == '-' || c == '_';
            &&& plain && before.len() < 48 ==> after == before.push(
                if 'A' <= c && c <= 'Z' {
                    ascii_lower(c)
                } else {
                    c
                },
            )
            &&& !plain || before.len() >= 48 ==> after == before
            &&& before.len() > 0 ==> slug_of(s) == before
            &&& before.len() == 0 ==> slug_of(s) == "x"@
        }),
        slug_body(Seq::empty()).len() == 0,
{
    assert(s.push(c).drop_last() =~= s);
}

/// The start of an interview is told with everything that the human sees.
pub proof fn lemma_starts_of_interviews_tell_the_question(question: QuestionView)
    ensures
        ({
            let e = started_as(question);
            &&& e.question_id == question.id && e.question == question.text
            &&& e.stage == question.stage && e.question_type == question.question_type.name()
            &&& e.options == question.options && e.allow_freeform == question.allow_freeform
            &&& e.timeout_ms == question.timeout_ms
            &&& e.context_display == question.context_display
            &&& e.review_target == question.review_target
        }),
{
}

/// The name of a question type reads back as it.
pub proof fn lemma_question_types_read_back(t: QuestionType)
    ensures
        question_type_named(t.name()) == Some(t),
{
    reveal_strlit("yes_no");
    reveal_strlit("confirmation");
    reveal_strlit("multiple_choice");
    reveal_strlit("multi_select");
    reveal_strlit("freeform");
    assert("yes_no"@.len() == 6);
    assert("confirmation"@.len() == 12 && "confirmation"@[0] == 'c');
    assert("multiple_choice"@.len() == 15);
    assert("multi_select"@.len() == 12 && "multi_select"@[0] == 'm');
    assert("freeform"@.len() == 8);
}

/// An answer is told by the labels of what was chosen, one for each key and in their
/// order; a text by itself; and any other answer by one word of its own.
pub proof fn lemma_answers_are_told_by_their_labels(
    options: Seq<OptionView>,
    value: AnswerValueView,
    other: AnswerValueView,
    i: int,
)
    ensures
        value matches AnswerValueView::Selected(key) ==> labels_of(options, value) == seq![
            label_for(options, key),
        ],
        value matches AnswerValueView::MultiSelected(keys) ==> {
            &&& labels_of(options, value).len() == keys.len()
            &&& 0 <= i < keys.len() ==> labels_of(options, value)[i] == label_for(options, keys[i])
        },
        value matches AnswerValueView::Text(text) ==> labels_of(options, value) == seq![text],
        !(value is MultiSelected) ==> labels_of(options, value).len() == 1,
        ({
            let word = |v: AnswerValueView|
                !(v is Selected) && !(v is MultiSelected) && !(v is Text);
            word(value) && word(other) && labels_of(options, value) == labels_of(options, other)
                ==> value == other
        }),
{
    reveal_strlit("yes");
    reveal_strlit("no");
    reveal_strlit("cancelled");
    reveal_strlit("interrupted");
    reveal_strlit("skipped");
    reveal_strlit("timeout");
    assert("yes"@.len() == 3 && "no"@.len() == 2 && "cancelled"@.len() == 9);
    assert("interrupted"@.len() == 11);
    assert("skipped"@.len() == 7 && "skipped"@[0] == 's');
    assert("timeout"@.len() == 7 && "timeout"@[0] == 't');
    let a = labels_of(options, value);
    let b = labels_of(options, other);
    if a == b && a.len() > 0 {
        assert(a[0] == b[0]);
    }
}

} // verus!
