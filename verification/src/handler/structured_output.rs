//! Output that a node declares to follow a schema: what the model is asked
//! for, how its answer is checked, and how it is told to repair it.
use crate::error::Error;
use crate::graph::Node;
use crate::handler::json_objects::{find_json_objects, json_objects};
use crate::handler::schema_issue::{
    issue_text, issues_of, lemma_issues_of, schema_compiles, schema_verdict, schema_verdict_of,
    valid_issue, verdict_issues, verdict_view, IssueView, SchemaValidationIssue, ValidSchema,
    Violation, ViolationView,
};
use crate::json::{compact, member, parse_result, Json, JsonView};
use crate::keys::concat;
use crate::outcome::{
    failure, failure_of, stage_outcome_named, FailureCategory, FailureDetail, Outcome, OutcomeView,
    StageOutcome,
};
use crate::table::Duplicate;
use crate::text::{
    chars_of, contains, decimal_i64, decimal_int, join, joined, lemma_joined_parts_are_within,
    lemma_within_chains, occurs, same, trim, trimmed, within,
};
use vstd::prelude::*;
use vstd::string::*;

verus! {

/// The value of `output_schema` that asks for routing fields.
pub const ROUTING_KEYWORD: &'static str = "routing";

/// The fields of a routing object.
pub open spec fn routing_status_fields() -> Seq<Seq<char>> {
    seq![
        "preferred_next_label"@,
        "outcome"@,
        "failure_reason"@,
        "suggested_next_ids"@,
        "context_updates"@,
    ]
}

/// The fields of a routing object.
pub fn routing_fields() -> (r: Vec<String>)
    ensures
        r.deep_view() == routing_status_fields(),
{
    let r: Vec<String> = vec![
        "preferred_next_label".to_owned(),
        "outcome".to_owned(),
        "failure_reason".to_owned(),
        "suggested_next_ids".to_owned(),
        "context_updates".to_owned(),
    ];
    assert(r.deep_view() =~= routing_status_fields());
    r
}

/// What a node's `output_schema` asks for.
#[derive(Debug, PartialEq)]
pub enum OutputSchemaKind {
    Routing,
    JsonSchema { schema: ValidSchema },
}

pub enum OutputSchemaView {
    Routing,
    JsonSchema(JsonView),
}

impl View for OutputSchemaKind {
    type V = OutputSchemaView;

    open spec fn view(&self) -> OutputSchemaView {
        match self {
            OutputSchemaKind::Routing => OutputSchemaView::Routing,
            OutputSchemaKind::JsonSchema { schema } => OutputSchemaView::JsonSchema(schema@),
        }
    }
}

impl DeepView for OutputSchemaKind {
    type V = OutputSchemaView;

    open spec fn deep_view(&self) -> OutputSchemaView {
        self@
    }
}

impl Duplicate for OutputSchemaKind {
    fn duplicate(&self) -> (r: Self) {
        match self {
            OutputSchemaKind::Routing => OutputSchemaKind::Routing,
            OutputSchemaKind::JsonSchema { schema } => OutputSchemaKind::JsonSchema {
                schema: schema.duplicate(),
            },
        }
    }
}

impl OutputSchemaView {
    /// What a valid final response looks like.
    pub open spec fn expectation(self) -> Seq<char> {
        match self {
            OutputSchemaView::Routing => "Return a single JSON object with at least one routing field: "@
                + join(routing_status_fields(), ", "@) + "."@,
            OutputSchemaView::JsonSchema(
                schema,
            ) => "Return a single JSON object that satisfies this JSON Schema:\n<output_schema>\n"@
                + compact(schema) + "\n</output_schema>"@,
        }
    }

    /// A task prompt with the final-output contract appended.
    pub open spec fn agent_prompt(self, prompt: Seq<char>) -> Seq<char> {
        prompt
            + "\n\nFabro final-output contract\n\nThe following contract is trusted workflow configuration. It applies only to your final response, not to intermediate tool calls.\n"@
            + self.expectation()
            + "\nThe contract is complete. Do not ask the user to provide or choose the output shape."@
    }
}

impl OutputSchemaKind {
    /// What a valid final response looks like. The task contract and the repair
    /// turns share it.
    pub fn expectation(&self) -> (r: String)
        ensures
            r@ == self@.expectation(),
    {
        match self {
            OutputSchemaKind::Routing => {
                let mut s = "Return a single JSON object with at least one routing field: ".to_owned();
                s.append(joined(&routing_fields(), ", ").as_str());
                s.append(".");
                s
            },
            OutputSchemaKind::JsonSchema { schema } => {
                let mut s = "Return a single JSON object that satisfies this JSON Schema:\n<output_schema>\n".to_owned();
                s.append(schema.schema().render().as_str());
                s.append("\n</output_schema>");
                s
            },
        }
    }

    /// Appends the final-output contract to an agent's task prompt.
    pub fn agent_prompt(&self, prompt: &str) -> (r: String)
        ensures
            r@ == self@.agent_prompt(prompt@),
    {
        let mut s = prompt.to_owned();
        s.append(
            "\n\nFabro final-output contract\n\nThe following contract is trusted workflow configuration. It applies only to your final response, not to intermediate tool calls.\n",
        );
        s.append(self.expectation().as_str());
        s.append(
            "\nThe contract is complete. Do not ask the user to provide or choose the output shape.",
        );
        s
    }
}

/// Why a response does not satisfy its schema.
#[derive(Clone, Copy, Debug, PartialEq, Eq, Structural)]
pub enum StructuredOutputErrorKind {
    NoJsonObject,
    NoRelevantJsonObject,
    InvalidJson,
    SchemaValidation,
}

#[derive(Debug, PartialEq)]
pub enum StructuredOutputErrorDetails {
    Message(String),
    SchemaValidation(Vec<SchemaValidationIssue>),
}

/// A response that does not satisfy its schema.
#[derive(Debug, PartialEq)]
pub struct StructuredOutputError {
    pub kind: StructuredOutputErrorKind,
    pub details: StructuredOutputErrorDetails,
}

pub enum DetailsView {
    Message(Seq<char>),
    SchemaValidation(Seq<IssueView>),
}

pub struct OutputErrorView {
    pub kind: StructuredOutputErrorKind,
    pub details: DetailsView,
}

impl View for StructuredOutputError {
    type V = OutputErrorView;

    open spec fn view(&self) -> OutputErrorView {
        OutputErrorView {
            kind: self.kind,
            details: match self.details {
                StructuredOutputErrorDetails::Message(m) => DetailsView::Message(m@),
                StructuredOutputErrorDetails::SchemaValidation(v) => DetailsView::SchemaValidation(
                    v.deep_view(),
                ),
            },
        }
    }
}

impl DeepView for StructuredOutputError {
    type V = OutputErrorView;

    open spec fn deep_view(&self) -> OutputErrorView {
        self@
    }
}

pub open spec fn message_error(kind: StructuredOutputErrorKind, message: Seq<char>) -> OutputErrorView {
    OutputErrorView { kind, details: DetailsView::Message(message) }
}

pub open spec fn issues_error(issues: Seq<IssueView>) -> OutputErrorView {
    OutputErrorView {
        kind: StructuredOutputErrorKind::SchemaValidation,
        details: DetailsView::SchemaValidation(issues),
    }
}

impl OutputErrorView {
    /// Every issue held is valid.
    pub open spec fn valid(self) -> bool {
        match self.details {
            DetailsView::Message(_) => true,
            DetailsView::SchemaValidation(issues) => forall|i: int|
                0 <= i < issues.len() ==> valid_issue(#[trigger] issues[i]),
        }
    }

    pub open spec fn messages(self) -> Seq<Seq<char>> {
        match self.details {
            DetailsView::Message(m) => seq![m],
            DetailsView::SchemaValidation(issues) => issues.map_values(|v: IssueView| issue_text(v)),
        }
    }

    /// Whether an issue of this error was already one of `other`.
    pub open spec fn shares_issue(self, other: OutputErrorView) -> bool {
        match self.details {
            DetailsView::SchemaValidation(a) => match other.details {
                DetailsView::SchemaValidation(b) => share_issue(a, b),
                _ => false,
            },
            _ => false,
        }
    }
}

/// Whether two lists of issues have one in common.
pub open spec fn share_issue(a: Seq<IssueView>, b: Seq<IssueView>) -> bool {
    exists|i: int, j: int|
        0 <= i < a.len() && 0 <= j < b.len() && #[trigger] a[i] == #[trigger] b[j]
}

/// The paragraphs of a repair prompt.
pub open spec fn repair_sections(
    error: OutputErrorView,
    schema: OutputSchemaView,
    previous: Option<OutputErrorView>,
) -> Seq<Seq<char>> {
    let opening = seq!["Your previous response did not satisfy the node's output_schema."@];
    let unchanged = if previous matches Some(p) && error.shares_issue(p) {
        seq!["At least one validation problem below is unchanged from your previous repair."@]
    } else {
        Seq::empty()
    };
    let errors = seq![
        "Validation errors:\n"@ + join(
            error.messages().map_values(|m: Seq<char>| "- "@ + m),
            "\n"@,
        ),
        schema.expectation(),
    ];
    let pointers = if error.kind == StructuredOutputErrorKind::SchemaValidation {
        seq![
            "Apply each correction at the exact JSON Pointer shown and return the complete object."@,
        ]
    } else {
        Seq::empty()
    };
    opening + unchanged + errors + pointers + seq![
        "Do not include Markdown fences or explanatory prose; reply only with the corrected JSON object."@,
    ]
}

impl StructuredOutputError {
    pub fn new(kind: StructuredOutputErrorKind, message: String) -> (r: StructuredOutputError)
        ensures
            r@ == message_error(kind, message@),
    {
        StructuredOutputError { kind, details: StructuredOutputErrorDetails::Message(message) }
    }

    pub fn validation(issues: Vec<SchemaValidationIssue>) -> (r: StructuredOutputError)
        ensures
            r@ == issues_error(issues.deep_view()),
    {
        StructuredOutputError {
            kind: StructuredOutputErrorKind::SchemaValidation,
            details: StructuredOutputErrorDetails::SchemaValidation(issues),
        }
    }

    pub fn kind(&self) -> (r: StructuredOutputErrorKind)
        ensures
            r == self@.kind,
    {
        self.kind
    }

    /// One sentence for each problem.
    pub fn messages(&self) -> (r: Vec<String>)
        requires
            self@.valid(),
        ensures
            r.deep_view() == self@.messages(),
    {
        let mut r: Vec<String> = Vec::new();
        match &self.details {
            StructuredOutputErrorDetails::Message(m) => {
                let text = m.clone();
                r.push(text);
                assert(r.deep_view() =~= seq![text@]);
            },
            StructuredOutputErrorDetails::SchemaValidation(issues) => {
                let ghost all = self@.messages();
                let mut i: usize = 0;
                while i < issues.len()
                    invariant
                        i <= issues@.len(),
                        all == issues.deep_view().map_values(|v: IssueView| issue_text(v)),
                        forall|k: int|
                            0 <= k < issues@.len() ==> valid_issue(#[trigger] issues.deep_view()[k]),
                        r.deep_view() == all.take(i as int),
                    decreases issues@.len() - i,
                {
                    let ghost had = r.deep_view();
                    assert(valid_issue(issues.deep_view()[i as int]));
                    let text = issues[i].render();
                    r.push(text);
                    i += 1;
                    assert(r.deep_view() =~= had.push(text@));
                    assert(all.take(i as int) =~= all.take(i - 1).push(text@));
                }
                assert(all.take(i as int) =~= all);
            },
        }
        r
    }

    /// Whether the response may still be read for routing in other ways.
    pub fn allows_routing_fallback(&self) -> (r: bool)
        ensures
            r == (self@.kind == StructuredOutputErrorKind::NoJsonObject || self@.kind
                == StructuredOutputErrorKind::NoRelevantJsonObject),
    {
        match self.kind {
            StructuredOutputErrorKind::NoJsonObject
            | StructuredOutputErrorKind::NoRelevantJsonObject => true,
            _ => false,
        }
    }

    /// Whether an issue of this error was already one of `other`.
    pub fn shares_schema_issue_with(&self, other: &StructuredOutputError) -> (r: bool)
        ensures
            r == self@.shares_issue(other@),
    {
        match (&self.details, &other.details) {
            (
                StructuredOutputErrorDetails::SchemaValidation(current),
                StructuredOutputErrorDetails::SchemaValidation(previous),
            ) => {
                let ghost a = current.deep_view();
                let ghost b = previous.deep_view();
                let mut i: usize = 0;
                while i < current.len()
                    invariant
                        i <= current@.len(),
                        a == current.deep_view(),
                        b == previous.deep_view(),
                        self@.details == DetailsView::SchemaValidation(a),
                        other@.details == DetailsView::SchemaValidation(b),
                        forall|k: int, j: int|
                            0 <= k < i && 0 <= j < b.len() ==> #[trigger] a[k] != #[trigger] b[j],
                    decreases current@.len() - i,
                {
                    if issues_contain(previous, &current[i]) {
                        proof {
                            let j = choose|j: int| 0 <= j < b.len() && b[j] == current@[i as int]@;
                            assert(a[i as int] == b[j]);
                            assert(share_issue(a, b));
                        }
                        return true;
                    }
                    assert forall|j: int| 0 <= j < b.len() implies a[i as int] != b[j] by {
                        assert(a[i as int] == current@[i as int]@);
                        if a[i as int] == b[j] {
                            assert(b.contains(b[j]));
                        }
                    }
                    i += 1;
                }
                false
            },
            _ => false,
        }
    }

    /// The prompt that asks a model to repair its response.
    pub fn repair_message(
        &self,
        schema: &OutputSchemaKind,
        previous_error: Option<&StructuredOutputError>,
    ) -> (r: String)
        requires
            self@.valid(),
        ensures
            r@ == join(repair_sections(self@, schema@, previous_error.deep_view()), "\n\n"@),
    {
        let messages = self.messages();
        let bullets = bulleted(&messages);
        let mut errors = "Validation errors:\n".to_owned();
        errors.append(joined(&bullets, "\n").as_str());
        let mut sections: Vec<String> = Vec::new();
        sections.push(
            "Your previous response did not satisfy the node's output_schema.".to_owned(),
        );
        let unchanged = match previous_error {
            Some(previous) => self.shares_schema_issue_with(previous),
            None => false,
        };
        if unchanged {
            sections.push(
                "At least one validation problem below is unchanged from your previous repair.".to_owned(),
            );
        }
        sections.push(errors);
        sections.push(schema.expectation());
        let pointers = match self.kind {
            StructuredOutputErrorKind::SchemaValidation => true,
            _ => false,
        };
        if pointers {
            sections.push(
                "Apply each correction at the exact JSON Pointer shown and return the complete object.".to_owned(),
            );
        }
        sections.push(
            "Do not include Markdown fences or explanatory prose; reply only with the corrected JSON object.".to_owned(),
        );
        assert(sections.deep_view() =~= repair_sections(self@, schema@, previous_error.deep_view()));
        joined(&sections, "\n\n")
    }
}

fn bulleted(messages: &Vec<String>) -> (r: Vec<String>)
    ensures
        r.deep_view() == messages.deep_view().map_values(|m: Seq<char>| "- "@ + m),
{
    let mut r: Vec<String> = Vec::new();
    let ghost all = messages.deep_view().map_values(|m: Seq<char>| "- "@ + m);
    let mut i: usize = 0;
    while i < messages.len()
        invariant
            i <= messages@.len(),
            all == messages.deep_view().map_values(|m: Seq<char>| "- "@ + m),
            r.deep_view() == all.take(i as int),
        decreases messages@.len() - i,
    {
        let ghost had = r.deep_view();
        let text = concat("- ", messages[i].as_str());
        r.push(text);
        i += 1;
        assert(r.deep_view() =~= had.push(text@));
        assert(all.take(i as int) =~= all.take(i - 1).push(text@));
    }
    assert(all.take(i as int) =~= all);
    r
}

fn issues_contain(issues: &Vec<SchemaValidationIssue>, issue: &SchemaValidationIssue) -> (r: bool)
    ensures
        r == issues.deep_view().contains(issue@),
{
    let mut i: usize = 0;
    while i < issues.len()
        invariant
            i <= issues@.len(),
            forall|k: int| 0 <= k < i ==> issues.deep_view()[k] != issue@,
        decreases issues@.len() - i,
    {
        if issues[i].same_as(issue) {
            assert(issues.deep_view()[i as int] == issue@);
            return true;
        }
        i += 1;
    }
    false
}

/// A response that satisfies its schema.
#[derive(Debug, PartialEq)]
pub struct ValidatedStructuredOutput {
    pub value: Json,
}

/// Key under which a node's validated output is kept.
pub fn output_key(node_id: &str) -> (r: String)
    ensures
        r@ == "output."@ + node_id@,
{
    concat("output.", node_id)
}

/// The reason given when no repair attempt is left.
pub open spec fn exhausted_reason(repair_attempts: int) -> Seq<char> {
    "output schema validation failed after "@ + decimal_int(repair_attempts) + " repair attempt(s)"@
}

/// The reason given when no repair attempt is left.
pub fn exhausted_failure_reason(repair_attempts: i64) -> (r: String)
    ensures
        r@ == exhausted_reason(repair_attempts as int),
{
    let mut s = "output schema validation failed after ".to_owned();
    s.append(decimal_i64(repair_attempts).as_str());
    s.append(" repair attempt(s)");
    s
}

/// The outcome of a stage whose output could not be repaired.
pub fn exhausted_failure_outcome(repair_attempts: i64) -> (r: Outcome)
    ensures
        r@ == failure(exhausted_reason(repair_attempts as int), FailureCategory::Deterministic),
{
    Outcome::fail_deterministic(exhausted_failure_reason(repair_attempts).as_str())
}

/// The start of every message about a node's `output_schema`.
pub open spec fn invalid_schema_text(node_id: Seq<char>, problem: Seq<char>) -> Seq<char> {
    "Invalid output_schema for node \""@ + node_id + "\": "@ + problem
}

fn invalid_schema(node_id: &str, problem: &str) -> (r: Error)
    ensures
        r matches Error::Validation(m) && m@ == invalid_schema_text(node_id@, problem@),
{
    let mut s = "Invalid output_schema for node \"".to_owned();
    s.append(node_id);
    s.append("\": ");
    s.append(problem);
    Error::Validation(s)
}

/// What a node's `output_schema` text asks for, given what parsing it as JSON
/// gave and, where it parsed, what compiling the result gave; else what is wrong
/// with it.
pub open spec fn declared_schema(
    text: Seq<char>,
    compiled: Result<Result<JsonView, Seq<char>>, Seq<char>>,
) -> Result<OutputSchemaView, Seq<char>> {
    let value = trim(text);
    if value.len() == 0 {
        Err("value must not be empty"@)
    } else if value == ROUTING_KEYWORD@ {
        Ok(OutputSchemaView::Routing)
    } else if value[0] == '@' {
        Err("unresolved file reference "@ + value)
    } else {
        match compiled {
            Err(err) => Err("expected \"routing\" or a JSON Schema object: "@ + err),
            Ok(Err(err)) => Err(err),
            Ok(Ok(schema)) => Ok(OutputSchemaView::JsonSchema(schema)),
        }
    }
}

/// A parse result by its model.
pub open spec fn parsed_view(r: Result<Json, String>) -> Result<JsonView, Seq<char>> {
    match r {
        Ok(j) => Ok(j@),
        Err(m) => Err(m@),
    }
}

/// A parsed and compiled schema by its model.
pub open spec fn compiled_view(r: Result<Result<ValidSchema, String>, String>) -> Result<
    Result<JsonView, Seq<char>>,
    Seq<char>,
> {
    match r {
        Ok(Ok(schema)) => Ok(Ok(schema@)),
        Ok(Err(m)) => Ok(Err(m@)),
        Err(m) => Err(m@),
    }
}

/// The model of a declared schema.
pub open spec fn declared_view(r: Result<OutputSchemaKind, String>) -> Result<OutputSchemaView, Seq<char>> {
    match r {
        Ok(k) => Ok(k@),
        Err(m) => Err(m@),
    }
}

/// Decides what an `output_schema` text asks for, given what parsing it and then
/// compiling it gave.
pub fn declare_schema(text: &str, compiled: Result<Result<ValidSchema, String>, String>) -> (r:
    Result<OutputSchemaKind, String>)
    ensures
        declared_view(r) == declared_schema(text@, compiled_view(compiled)),
{
    let value = trimmed(text);
    if value.as_str().is_empty() {
        return Err("value must not be empty".to_owned());
    }
    if same(value.as_str(), ROUTING_KEYWORD) {
        return Ok(OutputSchemaKind::Routing);
    }
    let chars = chars_of(value.as_str());
    if chars[0] == '@' {
        return Err(concat("unresolved file reference ", value.as_str()));
    }
    match compiled {
        Err(err) => Err(
            concat("expected \"routing\" or a JSON Schema object: ", err.as_str()),
        ),
        Ok(Err(err)) => Err(err),
        Ok(Ok(schema)) => Ok(OutputSchemaKind::JsonSchema { schema }),
    }
}

/// What parsing and compiling a schema gives. `fault` is the message where it
/// parses and does not compile.
pub open spec fn compiled_schema(parsed: Result<JsonView, Seq<char>>, fault: Seq<char>) -> Result<
    Result<JsonView, Seq<char>>,
    Seq<char>,
> {
    match parsed {
        Err(err) => Err(err),
        Ok(schema) => if schema_compiles(schema) {
            Ok(Ok(schema))
        } else {
            Ok(Err(fault))
        },
    }
}

/// What a node's `output_schema` asks for. `fault` is the message where the
/// schema does not compile.
pub open spec fn node_schema(text: Seq<char>, fault: Seq<char>) -> Result<
    OutputSchemaView,
    Seq<char>,
> {
    declared_schema(text, compiled_schema(parse_result(trim(text)), fault))
}

/// Whether `r` is what a node is told of the schema that it declares.
pub open spec fn tells_schema(
    r: Result<Option<OutputSchemaKind>, Error>,
    node_id: Seq<char>,
    declared: Result<OutputSchemaView, Seq<char>>,
) -> bool {
    match declared {
        Ok(schema) => r matches Ok(Some(k)) && k@ == schema,
        Err(problem) => r matches Err(Error::Validation(m)) && m@ == invalid_schema_text(
            node_id,
            problem,
        ),
    }
}

/// Reads a node's `output_schema`. The message for a schema that does not
/// compile is the validator's; nothing is said of its words.
pub fn parse_node_output_schema(node: &Node) -> (r: Result<Option<OutputSchemaKind>, Error>)
    ensures
        match node@.text("output_schema"@) {
            None => r matches Ok(k) && k is None,
            Some(text) => exists|fault: Seq<char>|
                tells_schema(r, node@.id, #[trigger] node_schema(text, fault)),
        },
{
    let raw = match node.text("output_schema") {
        None => {
            return Ok(None);
        },
        Some(raw) => raw,
    };
    let compiled = match Json::parse(trimmed(raw).as_str()) {
        Ok(schema) => Ok(ValidSchema::compile(schema)),
        Err(message) => Err(message),
    };
    let ghost fault = match compiled_view(compiled) {
        Ok(Err(message)) => message,
        _ => Seq::empty(),
    };
    assert(compiled_view(compiled) == compiled_schema(parse_result(trim(raw@)), fault));
    let declared = declare_schema(raw, compiled);
    assert(declared_view(declared) == node_schema(raw@, fault));
    let r = match declared {
        Ok(kind) => Ok(Some(kind)),
        Err(problem) => Err(invalid_schema(node.id.as_str(), problem.as_str())),
    };
    proof {
        let text = node@.text("output_schema"@).unwrap();
        assert(text == raw@);
        assert(tells_schema(r, node@.id, node_schema(text, fault)));
    }
    r
}

/// A schema that a node declares compiles: it can be held against every value.
pub proof fn lemma_declared_schemas_compile(
    text: Seq<char>,
    fault: Seq<char>,
    schema: JsonView,
    value: JsonView,
)
    requires
        node_schema(text, fault) == Ok::<OutputSchemaView, Seq<char>>(
            OutputSchemaView::JsonSchema(schema),
        ),
    ensures
        schema_compiles(schema),
        schema_verdict(schema, value) is Ok,
{
}

/// The message of a schema that does not compile is all that the validator
/// settles: whether a node's schema is taken, and as what, does not depend on it.
pub proof fn lemma_fault_is_a_message(text: Seq<char>, a: Seq<char>, b: Seq<char>)
    ensures
        node_schema(text, a) is Ok == node_schema(text, b) is Ok,
        node_schema(text, a) is Ok ==> node_schema(text, a) == node_schema(text, b),
{
}

/// The response format that a provider is asked for.
#[derive(Clone, Copy, Debug, PartialEq, Eq, Structural)]
pub enum ResponseFormatType {
    JsonObject,
    JsonSchema,
}

#[derive(Debug, PartialEq)]
pub struct ResponseFormat {
    pub kind: ResponseFormatType,
    pub json_schema: Option<Json>,
    pub strict: bool,
}

pub struct ResponseFormatView {
    pub kind: ResponseFormatType,
    pub json_schema: Option<JsonView>,
    pub strict: bool,
}

impl View for ResponseFormat {
    type V = ResponseFormatView;

    open spec fn view(&self) -> ResponseFormatView {
        ResponseFormatView {
            kind: self.kind,
            json_schema: self.json_schema.deep_view(),
            strict: self.strict,
        }
    }
}

impl DeepView for ResponseFormat {
    type V = ResponseFormatView;

    open spec fn deep_view(&self) -> ResponseFormatView {
        self@
    }
}

/// The response format for a schema: any JSON object for routing, the schema
/// itself, strictly, otherwise.
pub open spec fn format_for(schema: OutputSchemaView) -> ResponseFormatView {
    match schema {
        OutputSchemaView::Routing => ResponseFormatView {
            kind: ResponseFormatType::JsonObject,
            json_schema: None,
            strict: false,
        },
        OutputSchemaView::JsonSchema(s) => ResponseFormatView {
            kind: ResponseFormatType::JsonSchema,
            json_schema: Some(s),
            strict: true,
        },
    }
}

pub fn prompt_response_format(schema: &OutputSchemaKind) -> (r: ResponseFormat)
    ensures
        r@ == format_for(schema@),
{
    match schema {
        OutputSchemaKind::Routing => ResponseFormat {
            kind: ResponseFormatType::JsonObject,
            json_schema: None,
            strict: false,
        },
        OutputSchemaKind::JsonSchema { schema } => ResponseFormat {
            kind: ResponseFormatType::JsonSchema,
            json_schema: Some(schema.schema().duplicate()),
            strict: true,
        },
    }
}

/// The built-in schema of a routing object.
pub open spec fn routing_schema() -> JsonView {
    JsonView::Object(
        map![
            "type"@ => JsonView::Str("object"@),
            "additionalProperties"@ => JsonView::Bool(true),
            "properties"@ => JsonView::Object(map![
                "preferred_next_label"@ => typed("string"@),
                "outcome"@ => JsonView::Object(map![
                    "type"@ => JsonView::Str("string"@),
                    "enum"@ => JsonView::Array(seq![
                        JsonView::Str("succeeded"@),
                        JsonView::Str("partially_succeeded"@),
                        JsonView::Str("failed"@),
                        JsonView::Str("skipped"@),
                    ]),
                ]),
                "failure_reason"@ => typed("string"@),
                "suggested_next_ids"@ => JsonView::Object(map![
                    "type"@ => JsonView::Str("array"@),
                    "items"@ => typed("string"@),
                ]),
                "context_updates"@ => typed("object"@),
            ]),
            "anyOf"@ => JsonView::Array(routing_status_fields().map_values(|f: Seq<char>| requiring(f))),
        ],
    )
}

/// A schema that asks for a type.
pub open spec fn typed(name: Seq<char>) -> JsonView {
    JsonView::Object(map!["type"@ => JsonView::Str(name)])
}

/// A schema that asks for a property.
pub open spec fn requiring(field: Seq<char>) -> JsonView {
    JsonView::Object(map!["required"@ => JsonView::Array(seq![JsonView::Str(field)])])
}

fn object_of(entries: Vec<(String, Json)>) -> (r: Json)
    ensures
        r@ == JsonView::Object(crate::json::object_view(entries@)),
{
    Json::Object(entries)
}

fn typed_schema(name: &str) -> (r: Json)
    ensures
        r@ == typed(name@),
{
    let entries: Vec<(String, Json)> = vec![("type".to_owned(), Json::from_str(name))];
    proof {
        reveal_with_fuel(crate::json::object_view, 3);
        assert(entries@.drop_last() =~= Seq::empty());
        assert(crate::json::object_view(entries@) =~= map!["type"@ => JsonView::Str(name@)]);
    }
    object_of(entries)
}

fn requiring_schema(field: &str) -> (r: Json)
    ensures
        r@ == requiring(field@),
{
    let items: Vec<Json> = vec![Json::from_str(field)];
    proof {
        crate::json::lemma_array_view(items@);
        assert(crate::json::array_view(items@) =~= seq![JsonView::Str(field@)]);
    }
    let entries: Vec<(String, Json)> = vec![("required".to_owned(), Json::Array(items))];
    proof {
        reveal_with_fuel(crate::json::object_view, 3);
        assert(entries@.drop_last() =~= Seq::empty());
        assert(crate::json::object_view(entries@) =~= map![
            "required"@ => JsonView::Array(seq![JsonView::Str(field@)]),
        ]);
    }
    object_of(entries)
}

fn outcome_schema() -> (r: Json)
    ensures
        r@ == JsonView::Object(
            map![
                "type"@ => JsonView::Str("string"@),
                "enum"@ => JsonView::Array(seq![
                    JsonView::Str("succeeded"@),
                    JsonView::Str("partially_succeeded"@),
                    JsonView::Str("failed"@),
                    JsonView::Str("skipped"@),
                ]),
            ],
        ),
{
    let names: Vec<Json> = vec![
        Json::from_str("succeeded"),
        Json::from_str("partially_succeeded"),
        Json::from_str("failed"),
        Json::from_str("skipped"),
    ];
    proof {
        crate::json::lemma_array_view(names@);
        assert(crate::json::array_view(names@) =~= seq![
            JsonView::Str("succeeded"@),
            JsonView::Str("partially_succeeded"@),
            JsonView::Str("failed"@),
            JsonView::Str("skipped"@),
        ]);
    }
    let entries: Vec<(String, Json)> = vec![
        ("type".to_owned(), Json::from_str("string")),
        ("enum".to_owned(), Json::Array(names)),
    ];
    proof {
        lemma_object_view_of_two(entries@);
    }
    object_of(entries)
}

fn ids_schema() -> (r: Json)
    ensures
        r@ == JsonView::Object(
            map![
                "type"@ => JsonView::Str("array"@),
                "items"@ => typed("string"@),
            ],
        ),
{
    let entries: Vec<(String, Json)> = vec![
        ("type".to_owned(), Json::from_str("array")),
        ("items".to_owned(), typed_schema("string")),
    ];
    proof {
        lemma_object_view_of_two(entries@);
    }
    object_of(entries)
}

proof fn lemma_object_view_of_two(e: Seq<(String, Json)>)
    requires
        e.len() == 2,
    ensures
        crate::json::object_view(e) == map![e[0].0@ => e[0].1@, e[1].0@ => e[1].1@],
{
    reveal_with_fuel(crate::json::object_view, 4);
    assert(e.drop_last().drop_last() =~= Seq::empty());
    assert(crate::json::object_view(e) =~= map![e[0].0@ => e[0].1@, e[1].0@ => e[1].1@]);
}

/// The built-in schema of a routing object.
pub fn routing_schema_json() -> (r: Json)
    ensures
        r@ == routing_schema(),
{
    let properties: Vec<(String, Json)> = vec![
        ("preferred_next_label".to_owned(), typed_schema("string")),
        ("outcome".to_owned(), outcome_schema()),
        ("failure_reason".to_owned(), typed_schema("string")),
        ("suggested_next_ids".to_owned(), ids_schema()),
        ("context_updates".to_owned(), typed_schema("object")),
    ];
    proof {
        let p = properties@;
        reveal_with_fuel(crate::json::object_view, 7);
        assert(p.drop_last().drop_last().drop_last().drop_last().drop_last() =~= Seq::empty());
        assert(crate::json::object_view(p) =~= map![
            p[0].0@ => p[0].1@,
            p[1].0@ => p[1].1@,
            p[2].0@ => p[2].1@,
            p[3].0@ => p[3].1@,
            p[4].0@ => p[4].1@,
        ]);
    }
    let fields = routing_fields();
    let mut alternatives: Vec<Json> = Vec::new();
    let ghost all = routing_status_fields().map_values(|f: Seq<char>| requiring(f));
    let mut i: usize = 0;
    while i < fields.len()
        invariant
            i <= fields@.len(),
            fields.deep_view() == routing_status_fields(),
            all == routing_status_fields().map_values(|f: Seq<char>| requiring(f)),
            alternatives.deep_view() == all.take(i as int),
        decreases fields@.len() - i,
    {
        let ghost had = alternatives.deep_view();
        let one = requiring_schema(fields[i].as_str());
        alternatives.push(one);
        assert(fields.deep_view()[i as int] == fields@[i as int]@);
        i += 1;
        assert(alternatives.deep_view() =~= had.push(one@));
        assert(all.take(i as int) =~= all.take(i - 1).push(one@));
    }
    proof {
        assert(all.take(i as int) =~= all);
        crate::json::lemma_array_view(alternatives@);
        assert(crate::json::array_view(alternatives@) =~= all);
    }
    let top: Vec<(String, Json)> = vec![
        ("type".to_owned(), Json::from_str("object")),
        ("additionalProperties".to_owned(), Json::Bool(true)),
        ("properties".to_owned(), object_of(properties)),
        ("anyOf".to_owned(), Json::Array(alternatives)),
    ];
    proof {
        let t = top@;
        reveal_with_fuel(crate::json::object_view, 6);
        assert(t.drop_last().drop_last().drop_last().drop_last() =~= Seq::empty());
        assert(crate::json::object_view(t) =~= map![
            t[0].0@ => t[0].1@,
            t[1].0@ => t[1].1@,
            t[2].0@ => t[2].1@,
            t[3].0@ => t[3].1@,
        ]);
    }
    object_of(top)
}

/// Whether an object has a routing field.
pub open spec fn has_routing_field(v: JsonView) -> bool {
    exists|i: int|
        0 <= i < routing_status_fields().len() && member(v, #[trigger] routing_status_fields()[i]) is Some
}

/// Whether an object has a routing field.
pub fn contains_routing_field(value: &Json) -> (r: bool)
    ensures
        r == has_routing_field(value@),
{
    let fields = routing_fields();
    let mut i: usize = 0;
    while i < fields.len()
        invariant
            i <= fields@.len(),
            fields.deep_view() == routing_status_fields(),
            forall|k: int| 0 <= k < i ==> member(value@, #[trigger] routing_status_fields()[k]) is None,
        decreases fields@.len() - i,
    {
        assert(routing_status_fields()[i as int] == fields@[i as int]@);
        if value.get(fields[i].as_str()).is_some() {
            return true;
        }
        i += 1;
    }
    false
}

/// A routing field's name as it is written in JSON.
pub open spec fn quoted(field: Seq<char>) -> Seq<char> {
    "\""@ + field + "\""@
}

/// Whether a text writes the name of a routing field.
pub open spec fn mentions_routing_field(text: Seq<char>) -> bool {
    exists|i: int|
        0 <= i < routing_status_fields().len() && occurs(
            quoted(#[trigger] routing_status_fields()[i]),
            text,
        )
}

/// Whether a text writes the name of a routing field.
pub fn raw_mentions_routing_field(candidate: &str) -> (r: bool)
    ensures
        r == mentions_routing_field(candidate@),
{
    let fields = routing_fields();
    let mut i: usize = 0;
    while i < fields.len()
        invariant
            i <= fields@.len(),
            fields.deep_view() == routing_status_fields(),
            forall|k: int|
                0 <= k < i ==> !occurs(quoted(#[trigger] routing_status_fields()[k]), candidate@),
        decreases fields@.len() - i,
    {
        assert(routing_status_fields()[i as int] == fields@[i as int]@);
        let mut name = "\"".to_owned();
        name.append(fields[i].as_str());
        name.append("\"");
        if contains(candidate, name.as_str()) {
            return true;
        }
        i += 1;
    }
    false
}

/// What a candidate object of a routing response is.
#[derive(Debug, PartialEq)]
pub enum RoutingCandidate {
    /// Not a routing object; an earlier one may be.
    Passed,
    /// Meant as a routing object but not JSON.
    Broken(String),
    /// A routing object, to be held against the routing schema.
    Found(Json),
}

pub enum RoutingCandidateView {
    Passed,
    Broken(Seq<char>),
    Found(JsonView),
}

impl View for RoutingCandidate {
    type V = RoutingCandidateView;

    open spec fn view(&self) -> RoutingCandidateView {
        match self {
            RoutingCandidate::Passed => RoutingCandidateView::Passed,
            RoutingCandidate::Broken(m) => RoutingCandidateView::Broken(m@),
            RoutingCandidate::Found(j) => RoutingCandidateView::Found(j@),
        }
    }
}

pub open spec fn routing_candidate(text: Seq<char>, parsed: Result<JsonView, Seq<char>>) -> RoutingCandidateView {
    match parsed {
        Err(err) => if mentions_routing_field(text) {
            RoutingCandidateView::Broken("invalid routing JSON object: "@ + err)
        } else {
            RoutingCandidateView::Passed
        },
        Ok(value) => if value is Object && has_routing_field(value) {
            RoutingCandidateView::Found(value)
        } else {
            RoutingCandidateView::Passed
        },
    }
}

/// Classifies a candidate object, given what parsing it gave.
pub fn classify_routing_candidate(text: &str, parsed: Result<Json, String>) -> (r: RoutingCandidate)
    ensures
        r@ == routing_candidate(text@, parsed_view(parsed)),
{
    match parsed {
        Err(err) => if raw_mentions_routing_field(text) {
            RoutingCandidate::Broken(concat("invalid routing JSON object: ", err.as_str()))
        } else {
            RoutingCandidate::Passed
        },
        Ok(value) => if value.is_object() && contains_routing_field(&value) {
            RoutingCandidate::Found(value)
        } else {
            RoutingCandidate::Passed
        },
    }
}

/// The model of a validation result.
pub open spec fn validated_view(r: Result<ValidatedStructuredOutput, StructuredOutputError>) -> Result<
    JsonView,
    OutputErrorView,
> {
    match r {
        Ok(v) => Ok(v.value@),
        Err(e) => Err(e@),
    }
}

/// A value that a verdict accepts, or the issues of the verdict.
pub open spec fn accepted(
    value: JsonView,
    verdict: Result<Seq<ViolationView>, Seq<char>>,
    schema: Option<JsonView>,
) -> Result<JsonView, OutputErrorView> {
    let issues = issues_of(verdict, schema);
    if issues.len() == 0 {
        Ok(value)
    } else {
        Err(issues_error(issues))
    }
}

/// Accepts a value, or reports the issues of its verdict.
pub fn accept(value: Json, verdict: &Result<Vec<Violation>, String>, schema: Option<&Json>) -> (r:
    Result<ValidatedStructuredOutput, StructuredOutputError>)
    ensures
        validated_view(r) == accepted(value@, verdict_view(*verdict), schema.deep_view()),
        r matches Err(e) ==> e@.valid(),
{
    let issues = verdict_issues(verdict, schema);
    proof {
        lemma_issues_of(verdict_view(*verdict), schema.deep_view());
    }
    if issues.len() == 0 {
        Ok(ValidatedStructuredOutput { value })
    } else {
        Err(StructuredOutputError::validation(issues))
    }
}

/// The last routing object among the first `n` candidates decides.
pub open spec fn routing_result(candidates: Seq<Seq<char>>, n: int) -> Result<JsonView, OutputErrorView>
    decreases n,
{
    if n <= 0 {
        Err(
            message_error(
                StructuredOutputErrorKind::NoRelevantJsonObject,
                "no JSON object contained any recognized routing field ("@ + join(
                    routing_status_fields(),
                    ", "@,
                ) + ")"@,
            ),
        )
    } else {
        let text = candidates[n - 1];
        match routing_candidate(text, parse_result(text)) {
            RoutingCandidateView::Passed => routing_result(candidates, n - 1),
            RoutingCandidateView::Broken(message) => Err(
                message_error(StructuredOutputErrorKind::InvalidJson, message),
            ),
            RoutingCandidateView::Found(value) => accepted(
                value,
                schema_verdict(routing_schema(), value),
                None,
            ),
        }
    }
}

/// The result of checking a routing response.
pub open spec fn routing_response(text: Seq<char>) -> Result<JsonView, OutputErrorView> {
    let candidates = json_objects(text);
    if candidates.len() == 0 {
        Err(
            message_error(
                StructuredOutputErrorKind::NoJsonObject,
                "no JSON object found in response"@,
            ),
        )
    } else {
        routing_result(candidates, candidates.len() as int)
    }
}

/// Checks a response for a routing object.
pub fn validate_routing_response_text(text: &str) -> (r: Result<
    ValidatedStructuredOutput,
    StructuredOutputError,
>)
    ensures
        validated_view(r) == routing_response(text@),
        r matches Err(e) ==> e@.valid(),
{
    let candidates = find_json_objects(text);
    let ghost all = json_objects(text@);
    if candidates.len() == 0 {
        return Err(
            StructuredOutputError::new(
                StructuredOutputErrorKind::NoJsonObject,
                "no JSON object found in response".to_owned(),
            ),
        );
    }
    let mut n: usize = candidates.len();
    while n > 0
        invariant
            n <= candidates@.len(),
            all == json_objects(text@),
            candidates.deep_view() == all,
            routing_response(text@) == routing_result(all, n as int),
        decreases n,
    {
        let candidate = candidates[n - 1];
        assert(all[n - 1] == candidate@);
        match classify_routing_candidate(candidate, Json::parse(candidate)) {
            RoutingCandidate::Passed => {},
            RoutingCandidate::Broken(message) => {
                return Err(
                    StructuredOutputError::new(StructuredOutputErrorKind::InvalidJson, message),
                );
            },
            RoutingCandidate::Found(value) => {
                let verdict = schema_verdict_of(&routing_schema_json(), &value);
                return accept(value, &verdict, None);
            },
        }
        n -= 1;
    }
    let mut message = "no JSON object contained any recognized routing field (".to_owned();
    message.append(joined(&routing_fields(), ", ").as_str());
    message.append(")");
    Err(StructuredOutputError::new(StructuredOutputErrorKind::NoRelevantJsonObject, message))
}

/// The last candidate among the first `n` that parses decides; `first_error` is
/// the error of the last candidate that did not parse.
pub open spec fn custom_result(
    schema: JsonView,
    candidates: Seq<Seq<char>>,
    n: int,
    first_error: Option<Seq<char>>,
) -> Result<JsonView, OutputErrorView>
    decreases n,
{
    if n <= 0 {
        Err(
            match first_error {
                Some(message) => message_error(
                    StructuredOutputErrorKind::InvalidJson,
                    "invalid JSON object: "@ + message,
                ),
                None => message_error(
                    StructuredOutputErrorKind::NoJsonObject,
                    "no JSON object found in response"@,
                ),
            },
        )
    } else {
        match parse_result(candidates[n - 1]) {
            Ok(value) => accepted(value, schema_verdict(schema, value), Some(schema)),
            Err(message) => custom_result(
                schema,
                candidates,
                n - 1,
                match first_error {
                    Some(m) => Some(m),
                    None => Some(message),
                },
            ),
        }
    }
}

/// Checks a response against a custom schema. Prose after the object can hold
/// braces, so the last candidate that parses is taken, and its problems are
/// reported rather than those of an earlier object.
pub fn validate_custom_response_text(schema: &ValidSchema, text: &str) -> (r: Result<
    ValidatedStructuredOutput,
    StructuredOutputError,
>)
    ensures
        validated_view(r) == custom_result(
            schema@,
            json_objects(text@),
            json_objects(text@).len() as int,
            None,
        ),
        r matches Err(e) ==> e@.valid(),
{
    let candidates = find_json_objects(text);
    let ghost all = json_objects(text@);
    let mut invalid_json: Option<String> = None;
    let mut n: usize = candidates.len();
    while n > 0
        invariant
            n <= candidates@.len(),
            all == json_objects(text@),
            candidates.deep_view() == all,
            custom_result(schema@, all, all.len() as int, None) == custom_result(
                schema@,
                all,
                n as int,
                invalid_json.deep_view(),
            ),
        decreases n,
    {
        let candidate = candidates[n - 1];
        assert(all[n - 1] == candidate@);
        match Json::parse(candidate) {
            Ok(parsed) => {
                let verdict = schema_verdict_of(schema.schema(), &parsed);
                return accept(parsed, &verdict, Some(schema.schema()));
            },
            Err(message) => {
                if invalid_json.is_none() {
                    invalid_json = Some(message);
                }
            },
        }
        n -= 1;
    }
    match invalid_json {
        Some(message) => Err(
            StructuredOutputError::new(
                StructuredOutputErrorKind::InvalidJson,
                concat("invalid JSON object: ", message.as_str()),
            ),
        ),
        None => Err(
            StructuredOutputError::new(
                StructuredOutputErrorKind::NoJsonObject,
                "no JSON object found in response".to_owned(),
            ),
        ),
    }
}

/// The result of checking a response against its schema.
pub open spec fn response_result(schema: OutputSchemaView, text: Seq<char>) -> Result<
    JsonView,
    OutputErrorView,
> {
    match schema {
        OutputSchemaView::Routing => routing_response(text),
        OutputSchemaView::JsonSchema(s) => custom_result(
            s,
            json_objects(text),
            json_objects(text).len() as int,
            None,
        ),
    }
}

/// Checks a response against its schema.
pub fn validate_response_text(schema: &OutputSchemaKind, text: &str) -> (r: Result<
    ValidatedStructuredOutput,
    StructuredOutputError,
>)
    ensures
        validated_view(r) == response_result(schema@, text@),
        r matches Err(e) ==> e@.valid(),
{
    match schema {
        OutputSchemaKind::Routing => validate_routing_response_text(text),
        OutputSchemaKind::JsonSchema { schema } => validate_custom_response_text(schema, text),
    }
}

/// The strings among JSON values.
pub open spec fn strings_in(items: Seq<JsonView>) -> Seq<Seq<char>>
    decreases items.len(),
{
    if items.len() == 0 {
        Seq::empty()
    } else {
        match items.last() {
            JsonView::Str(s) => strings_in(items.drop_last()).push(s),
            _ => strings_in(items.drop_last()),
        }
    }
}

fn strings_of(items: &Vec<Json>) -> (r: Vec<String>)
    ensures
        r.deep_view() == strings_in(items.deep_view()),
{
    let mut r: Vec<String> = Vec::new();
    let ghost all = items.deep_view();
    let mut i: usize = 0;
    assert(all.take(0) =~= Seq::empty());
    assert(r.deep_view() =~= Seq::empty());
    while i < items.len()
        invariant
            i <= items@.len(),
            all == items.deep_view(),
            r.deep_view() == strings_in(all.take(i as int)),
        decreases items@.len() - i,
    {
        let ghost had = r.deep_view();
        assert(all.take(i + 1).drop_last() =~= all.take(i as int));
        assert(all.take(i + 1).last() == items@[i as int]@);
        if let Some(s) = items[i].as_str() {
            r.push(s.to_owned());
            assert(r.deep_view() =~= had.push(s@));
        }
        i += 1;
    }
    assert(all.take(i as int) =~= all);
    r
}

/// The text of a string member.
pub open spec fn text_member(v: JsonView, key: Seq<char>) -> Option<Seq<char>> {
    match member(v, key) {
        Some(JsonView::Str(s)) => Some(s),
        _ => None,
    }
}

fn get_text_member<'a>(v: &'a Json, key: &str) -> (r: Option<&'a str>)
    ensures
        r.deep_view() == text_member(v@, key@),
{
    match v.get(key) {
        Some(value) => value.as_str(),
        None => None,
    }
}

/// An outcome with the fields of a routing object applied. A field of the wrong
/// type is ignored, a failure reason counts only with a failure status, and an
/// empty list of next nodes leaves the earlier one.
pub open spec fn routed(v: JsonView, before: OutcomeView) -> OutcomeView {
    let labelled = match text_member(v, "preferred_next_label"@) {
        Some(label) => OutcomeView { preferred_label: Some(label), ..before },
        None => before,
    };
    let directed = match member(v, "suggested_next_ids"@) {
        Some(JsonView::Array(items)) => if strings_in(items).len() > 0 {
            OutcomeView { suggested_next_ids: strings_in(items), ..labelled }
        } else {
            labelled
        },
        _ => labelled,
    };
    let judged = match text_member(v, "outcome"@) {
        Some(name) => match stage_outcome_named(name) {
            Some(status) => {
                let with_status = OutcomeView { status, ..directed };
                match text_member(v, "failure_reason"@) {
                    Some(reason) => if status.failed() {
                        OutcomeView {
                            failure: Some(failure_of(reason, FailureCategory::Deterministic)),
                            ..with_status
                        }
                    } else {
                        with_status
                    },
                    None => with_status,
                }
            },
            None => directed,
        },
        None => directed,
    };
    match member(v, "context_updates"@) {
        Some(JsonView::Object(updates)) => OutcomeView {
            context_updates: judged.context_updates.union_prefer_right(updates),
            ..judged
        },
        _ => judged,
    }
}

/// Applies the fields of a routing object to an outcome.
pub fn apply_routing_fields(value: &Json, outcome: &mut Outcome)
    ensures
        final(outcome)@ == routed(value@, old(outcome)@),
{
    if let Some(label) = get_text_member(value, "preferred_next_label") {
        outcome.preferred_label = Some(label.to_owned());
    }
    if let Some(ids) = value.get("suggested_next_ids") {
        if let Some(items) = ids.as_array() {
            let strings = strings_of(items);
            if strings.len() > 0 {
                outcome.suggested_next_ids = strings;
            }
        }
    }
    if let Some(name) = get_text_member(value, "outcome") {
        if let Some(status) = StageOutcome::parse(name) {
            outcome.status = status;
            if status.is_failure() {
                if let Some(reason) = get_text_member(value, "failure_reason") {
                    outcome.failure = Some(FailureDetail::new(reason, FailureCategory::Deterministic));
                }
            }
        }
    }
    if let Some(updates) = value.get("context_updates") {
        if let Json::Object(entries) = updates {
            crate::json::insert_entries(&mut outcome.context_updates, entries);
        }
    }
}

/// Applies a validated response to an outcome.
pub fn apply_validated_output(
    node: &Node,
    schema: &OutputSchemaKind,
    validated: &ValidatedStructuredOutput,
    outcome: &mut Outcome,
)
    ensures
        final(outcome)@ == match schema@ {
            OutputSchemaView::Routing => routed(validated.value@, old(outcome)@),
            OutputSchemaView::JsonSchema(_) => OutcomeView {
                context_updates: old(outcome)@.context_updates.insert(
                    "output."@ + node@.id,
                    validated.value@,
                ),
                ..old(outcome)@
            },
        },
{
    match schema {
        OutputSchemaKind::Routing => {
            apply_routing_fields(&validated.value, outcome);
        },
        OutputSchemaKind::JsonSchema { .. } => {
            outcome.context_updates.insert(output_key(node.id.as_str()), validated.value.duplicate());
        },
    }
}

/// The last object with a routing field among the first `n` candidates.
pub open spec fn last_routing_object(candidates: Seq<Seq<char>>, n: int) -> Option<JsonView>
    decreases n,
{
    if n <= 0 {
        None
    } else {
        match parse_result(candidates[n - 1]) {
            Ok(value) => if value is Object && has_routing_field(value) {
                Some(value)
            } else {
                last_routing_object(candidates, n - 1)
            },
            Err(_) => last_routing_object(candidates, n - 1),
        }
    }
}

/// Reads routing fields from free text; says whether there were any.
pub fn extract_status_fields(text: &str, outcome: &mut Outcome) -> (r: bool)
    ensures
        match last_routing_object(json_objects(text@), json_objects(text@).len() as int) {
            Some(value) => r && final(outcome)@ == routed(value, old(outcome)@),
            None => !r && final(outcome)@ == old(outcome)@,
        },
{
    let candidates = find_json_objects(text);
    let ghost all = json_objects(text@);
    let mut n: usize = candidates.len();
    while n > 0
        invariant
            n <= candidates@.len(),
            all == json_objects(text@),
            candidates.deep_view() == all,
            *outcome == *old(outcome),
            last_routing_object(all, all.len() as int) == last_routing_object(all, n as int),
        decreases n,
    {
        let candidate = candidates[n - 1];
        assert(all[n - 1] == candidate@);
        if let Ok(value) = Json::parse(candidate) {
            if value.is_object() && contains_routing_field(&value) {
                apply_routing_fields(&value, outcome);
                return true;
            }
        }
        n -= 1;
    }
    false
}

/// The status after a routing object is applied is the one that its `outcome`
/// names, whatever its other fields are; without such a name the status is the
/// earlier one.
pub proof fn lemma_status_is_the_one_that_is_named(v: JsonView, before: OutcomeView)
    ensures
        ({
            let after = routed(v, before);
            match v {
                JsonView::Object(fields) => if fields.contains_key("outcome"@) {
                    match fields["outcome"@] {
                        JsonView::Str(name) => {
                            &&& name == "succeeded"@ ==> after.status == StageOutcome::Succeeded
                            &&& name == "partially_succeeded"@ ==> after.status
                                == StageOutcome::PartiallySucceeded
                            &&& name == "failed"@ ==> after.status == (StageOutcome::Failed {
                                retry_requested: false,
                            })
                            &&& name == "skipped"@ ==> after.status == StageOutcome::Skipped
                            &&& name != "succeeded"@ && name != "partially_succeeded"@ && name
                                != "failed"@ && name != "skipped"@ ==> after.status == before.status
                        },
                        _ => after.status == before.status,
                    }
                } else {
                    after.status == before.status
                },
                _ => after.status == before.status,
            }
        }),
{
    reveal_strlit("succeeded");
    reveal_strlit("partially_succeeded");
    reveal_strlit("failed");
    reveal_strlit("skipped");
    assert("succeeded"@.len() == 9);
    assert("partially_succeeded"@.len() == 19);
    assert("failed"@.len() == 6);
    assert("skipped"@.len() == 7);
}

/// The failure after a routing object is applied is the one it gives a reason
/// for, where it says that the stage failed; otherwise the earlier one stands.
pub proof fn lemma_failure_reason_goes_with_a_failure(v: JsonView, before: OutcomeView)
    ensures
        ({
            let after = routed(v, before);
            let said = v matches JsonView::Object(fields) && fields.contains_key("outcome"@)
                && fields["outcome"@] == JsonView::Str("failed"@) && fields.contains_key(
                "failure_reason"@,
            ) && fields["failure_reason"@] is Str;
            if said {
                v matches JsonView::Object(fields) && {
                    &&& after.failure matches Some(f) && {
                        &&& JsonView::Str(f.message) == fields["failure_reason"@]
                        &&& f.category == FailureCategory::Deterministic
                        &&& f.signature is None && f.system_actor is None
                    }
                }
            } else {
                after.failure == before.failure
            }
        }),
{
    reveal_strlit("succeeded");
    reveal_strlit("partially_succeeded");
    reveal_strlit("failed");
    reveal_strlit("skipped");
    assert("succeeded"@.len() == 9);
    assert("partially_succeeded"@.len() == 19);
    assert("failed"@.len() == 6);
    assert("skipped"@.len() == 7);
}

proof fn lemma_strings_in(items: Seq<JsonView>)
    ensures
        strings_in(items) == items.filter(|i: JsonView| i is Str).map_values(
            |i: JsonView| i->Str_0,
        ),
        strings_in(items).len() > 0 <==> exists|i: int|
            0 <= i < items.len() && (#[trigger] items[i]) is Str,
    decreases items.len(),
{
    reveal(Seq::filter);
    if items.len() > 0 {
        let earlier = items.drop_last();
        lemma_strings_in(earlier);
        assert(items[items.len() - 1] == items.last());
        assert(forall|i: int| 0 <= i < earlier.len() ==> earlier[i] == #[trigger] items[i]);
        assert(forall|i: int| 0 <= i < earlier.len() ==> #[trigger] earlier[i] == items[i]);
        let rest = items.drop_last().filter(|i: JsonView| i is Str);
        assert(items.filter(|i: JsonView| i is Str) == if items.last() is Str {
            rest.push(items.last())
        } else {
            rest
        });
    }
    assert(strings_in(items) =~= items.filter(|i: JsonView| i is Str).map_values(
        |i: JsonView| i->Str_0,
    ));
}

/// A routing object's label and next nodes replace the earlier ones: the label
/// where it is a text, the nodes where the list holds a text, all of them in
/// their order. Otherwise the earlier ones stand.
pub proof fn lemma_label_and_next_nodes_are_taken_over(v: JsonView, before: OutcomeView)
    ensures
        ({
            let after = routed(v, before);
            &&& after.preferred_label == match v {
                JsonView::Object(fields) => if fields.contains_key("preferred_next_label"@)
                    && fields["preferred_next_label"@] is Str {
                    Some(fields["preferred_next_label"@]->Str_0)
                } else {
                    before.preferred_label
                },
                _ => before.preferred_label,
            }
            &&& after.suggested_next_ids == match v {
                JsonView::Object(fields) => if fields.contains_key("suggested_next_ids"@) && (
                fields["suggested_next_ids"@] matches JsonView::Array(items) && exists|i: int|
                    0 <= i < items.len() && (#[trigger] items[i]) is Str) {
                    fields["suggested_next_ids"@]->Array_0.filter(|i: JsonView| i is Str).map_values(
                        |i: JsonView| i->Str_0,
                    )
                } else {
                    before.suggested_next_ids
                },
                _ => before.suggested_next_ids,
            }
        }),
{
    if let JsonView::Object(fields) = v {
        if fields.contains_key("suggested_next_ids"@) {
            if let JsonView::Array(items) = fields["suggested_next_ids"@] {
                lemma_strings_in(items);
            }
        }
    }
}

/// The context updates of a routing object go over the earlier ones, key by key,
/// and no other key is touched. Nothing else of an outcome is.
pub proof fn lemma_routing_leaves_the_rest(v: JsonView, before: OutcomeView, key: Seq<char>)
    ensures
        ({
            let after = routed(v, before);
            let given = v matches JsonView::Object(fields) && fields.contains_key(
                "context_updates"@,
            ) && (fields["context_updates"@] matches JsonView::Object(updates)
                && updates.contains_key(key));
            &&& given ==> after.context_updates.contains_key(key) && (
            v matches JsonView::Object(fields) && (
            fields["context_updates"@] matches JsonView::Object(updates)
                && after.context_updates[key] == updates[key]))
            &&& !given ==> {
                &&& after.context_updates.contains_key(key)
                    == before.context_updates.contains_key(key)
                &&& after.context_updates.contains_key(key) ==> after.context_updates[key]
                    == before.context_updates[key]
            }
            &&& after.notes == before.notes && after.files_touched == before.files_touched
            &&& after.usage == before.usage && after.jump_to_node == before.jump_to_node
            &&& after.timing == before.timing
        }),
{
}

/// Applying a routing object again changes nothing.
pub proof fn lemma_routing_is_idempotent(v: JsonView, before: OutcomeView)
    ensures
        routed(v, routed(v, before)) == routed(v, before),
{
    let once = routed(v, before);
    assert(routed(v, once).context_updates =~= once.context_updates);
}

/// A value that satisfies its schema is accepted; one that does not is answered
/// with an error that names at least one issue.
pub proof fn lemma_accepted_iff_satisfied(
    value: JsonView,
    verdict: Result<Seq<ViolationView>, Seq<char>>,
    schema: Option<JsonView>,
)
    ensures
        accepted(value, verdict, schema) is Ok <==> (verdict matches Ok(found) && found.len() == 0),
        accepted(value, verdict, schema) matches Ok(v) ==> v == value,
        accepted(value, verdict, schema) matches Err(e) ==> e.kind
            == StructuredOutputErrorKind::SchemaValidation && e.valid() && e.messages().len() > 0,
{
    lemma_issues_of(verdict, schema);
}

/// An error always shares its issues with itself: repeating the same violation
/// is called out.
pub proof fn lemma_repeated_issue_is_shared(issues: Seq<IssueView>)
    requires
        issues.len() > 0,
    ensures
        issues_error(issues).shares_issue(issues_error(issues)),
{
    let first = issues.first();
    assert(issues[0] == first);
}

/// Whether a value is what one of the first `n` candidates reads as.
pub open spec fn read_from(candidates: Seq<Seq<char>>, n: int, value: JsonView) -> bool {
    exists|k: int|
        0 <= k < n && parse_result(#[trigger] candidates[k]) == Ok::<JsonView, Seq<char>>(value)
}

/// Whether a schema compiles and finds nothing wrong with a value.
pub open spec fn satisfies(schema: JsonView, value: JsonView) -> bool {
    schema_verdict(schema, value) matches Ok(found) && found.len() == 0
}

/// A validated output stands in the response and satisfies its schema: the
/// node's own, or that of a routing object.
pub proof fn lemma_validated_output_satisfies_its_schema(
    schema: OutputSchemaView,
    text: Seq<char>,
    value: JsonView,
)
    requires
        response_result(schema, text) == Ok::<JsonView, OutputErrorView>(value),
    ensures
        read_from(json_objects(text), json_objects(text).len() as int, value),
        match schema {
            OutputSchemaView::Routing => has_routing_field(value) && satisfies(
                routing_schema(),
                value,
            ),
            OutputSchemaView::JsonSchema(s) => satisfies(s, value),
        },
{
    let candidates = json_objects(text);
    let n = candidates.len() as int;
    match schema {
        OutputSchemaView::Routing => {
            lemma_routing_result_satisfies(candidates, n, value);
        },
        OutputSchemaView::JsonSchema(s) => {
            lemma_custom_result_satisfies(s, candidates, n, None, value);
        },
    }
}

proof fn lemma_routing_result_satisfies(candidates: Seq<Seq<char>>, n: int, value: JsonView)
    requires
        0 <= n <= candidates.len(),
        routing_result(candidates, n) == Ok::<JsonView, OutputErrorView>(value),
    ensures
        read_from(candidates, n, value),
        has_routing_field(value),
        satisfies(routing_schema(), value),
    decreases n,
{
    if n > 0 {
        let text = candidates[n - 1];
        match routing_candidate(text, parse_result(text)) {
            RoutingCandidateView::Passed => {
                lemma_routing_result_satisfies(candidates, n - 1, value);
                let k = choose|k: int|
                    0 <= k < n - 1 && parse_result(#[trigger] candidates[k]) == Ok::<
                        JsonView,
                        Seq<char>,
                    >(value);
                assert(parse_result(candidates[k]) == Ok::<JsonView, Seq<char>>(value));
            },
            RoutingCandidateView::Broken(_) => {},
            RoutingCandidateView::Found(found) => {
                lemma_accepted_iff_satisfied(found, schema_verdict(routing_schema(), found), None);
                assert(parse_result(candidates[n - 1]) == Ok::<JsonView, Seq<char>>(value));
            },
        }
    }
}

proof fn lemma_custom_result_satisfies(
    schema: JsonView,
    candidates: Seq<Seq<char>>,
    n: int,
    first_error: Option<Seq<char>>,
    value: JsonView,
)
    requires
        0 <= n <= candidates.len(),
        custom_result(schema, candidates, n, first_error) == Ok::<JsonView, OutputErrorView>(value),
    ensures
        read_from(candidates, n, value),
        satisfies(schema, value),
    decreases n,
{
    if n > 0 {
        match parse_result(candidates[n - 1]) {
            Ok(found) => {
                lemma_accepted_iff_satisfied(found, schema_verdict(schema, found), Some(schema));
                assert(parse_result(candidates[n - 1]) == Ok::<JsonView, Seq<char>>(value));
            },
            Err(message) => {
                let error = match first_error {
                    Some(m) => Some(m),
                    None => Some(message),
                };
                lemma_custom_result_satisfies(schema, candidates, n - 1, error, value);
                let k = choose|k: int|
                    0 <= k < n - 1 && parse_result(#[trigger] candidates[k]) == Ok::<
                        JsonView,
                        Seq<char>,
                    >(value);
                assert(parse_result(candidates[k]) == Ok::<JsonView, Seq<char>>(value));
            },
        }
    }
}

/// Whether an object has one of the five fields that route a run.
pub open spec fn routes(v: JsonView) -> bool {
    v matches JsonView::Object(fields) && (fields.contains_key("preferred_next_label"@)
        || fields.contains_key("outcome"@) || fields.contains_key("failure_reason"@)
        || fields.contains_key("suggested_next_ids"@) || fields.contains_key("context_updates"@))
}

/// Whether a text writes the name of one of the five fields that route a run, in
/// quotes.
pub open spec fn names_route(text: Seq<char>) -> bool {
    ||| occurs("\"preferred_next_label\""@, text)
    ||| occurs("\"outcome\""@, text)
    ||| occurs("\"failure_reason\""@, text)
    ||| occurs("\"suggested_next_ids\""@, text)
    ||| occurs("\"context_updates\""@, text)
}

proof fn lemma_routing_fields(v: JsonView, text: Seq<char>)
    ensures
        v is Object && has_routing_field(v) <==> routes(v),
        mentions_routing_field(text) <==> names_route(text),
{
    let names = routing_status_fields();
    reveal_strlit("\"");
    reveal_strlit("preferred_next_label");
    reveal_strlit("outcome");
    reveal_strlit("failure_reason");
    reveal_strlit("suggested_next_ids");
    reveal_strlit("context_updates");
    reveal_strlit("\"preferred_next_label\"");
    reveal_strlit("\"outcome\"");
    reveal_strlit("\"failure_reason\"");
    reveal_strlit("\"suggested_next_ids\"");
    reveal_strlit("\"context_updates\"");
    assert(quoted(names[0]) =~= "\"preferred_next_label\""@);
    assert(quoted(names[1]) =~= "\"outcome\""@);
    assert(quoted(names[2]) =~= "\"failure_reason\""@);
    assert(quoted(names[3]) =~= "\"suggested_next_ids\""@);
    assert(quoted(names[4]) =~= "\"context_updates\""@);
    if routes(v) {
        assert(member(v, names[0]) is Some || member(v, names[1]) is Some || member(v, names[2])
            is Some || member(v, names[3]) is Some || member(v, names[4]) is Some);
    }
}

/// Whether a candidate of a routing response says nothing about routing: it reads
/// as something without a routing field, or it does not read and names none.
pub open spec fn beside_the_point(text: Seq<char>) -> bool {
    match parse_result(text) {
        Ok(value) => !routes(value),
        Err(_) => !names_route(text),
    }
}

/// A routing response is decided by the last of its objects that has to do with
/// routing: it is taken exactly where it satisfies the routing schema, and one
/// that does not read is reported, whatever stands before it. With no such object,
/// or with no object at all, the response is refused as that.
pub proof fn lemma_the_last_routing_object_decides(text: Seq<char>, k: int)
    requires
        -1 <= k < json_objects(text).len(),
        forall|j: int|
            k < j < json_objects(text).len() ==> beside_the_point(#[trigger] json_objects(text)[j]),
        k >= 0 ==> !beside_the_point(json_objects(text)[k]),
    ensures
        ({
            let r = response_result(OutputSchemaView::Routing, text);
            if k >= 0 {
                match parse_result(json_objects(text)[k]) {
                    Ok(value) => {
                        &&& satisfies(routing_schema(), value) ==> r == Ok::<
                            JsonView,
                            OutputErrorView,
                        >(value)
                        &&& !satisfies(routing_schema(), value) ==> (r matches Err(e) && e.kind
                            == StructuredOutputErrorKind::SchemaValidation)
                    },
                    Err(message) => r matches Err(e) && e.kind
                        == StructuredOutputErrorKind::InvalidJson && e.details
                        == DetailsView::Message("invalid routing JSON object: "@ + message),
                }
            } else if json_objects(text).len() > 0 {
                r matches Err(e) && e.kind == StructuredOutputErrorKind::NoRelevantJsonObject
            } else {
                r matches Err(e) && e.kind == StructuredOutputErrorKind::NoJsonObject
            }
        }),
{
    let candidates = json_objects(text);
    if candidates.len() > 0 {
        lemma_routing_passes(candidates, candidates.len() as int, k);
        if k >= 0 {
            let c = candidates[k];
            match parse_result(c) {
                Ok(value) => {
                    lemma_routing_fields(value, c);
                    lemma_accepted_iff_satisfied(
                        value,
                        schema_verdict(routing_schema(), value),
                        None,
                    );
                },
                Err(_) => {
                    lemma_routing_fields(JsonView::Null, c);
                },
            }
        }
    }
}

proof fn lemma_routing_passes(candidates: Seq<Seq<char>>, n: int, k: int)
    requires
        -1 <= k < n <= candidates.len(),
        forall|j: int| k < j < n ==> beside_the_point(#[trigger] candidates[j]),
    ensures
        routing_result(candidates, n) == routing_result(candidates, k + 1),
    decreases n,
{
    if n > k + 1 {
        let c = candidates[n - 1];
        assert(beside_the_point(c));
        match parse_result(c) {
            Ok(value) => {
                lemma_routing_fields(value, c);
            },
            Err(_) => {
                lemma_routing_fields(JsonView::Null, c);
            },
        }
        if n - 1 > k {
            lemma_routing_passes(candidates, n - 1, k);
        }
    }
}

/// A response with a schema of its own is decided by the last of its objects that
/// reads as JSON: it is taken exactly where it satisfies the schema, and its
/// problems are reported where it does not, whatever stands before it. Where none
/// reads, the error of the last is reported.
pub proof fn lemma_the_last_object_that_reads_decides(schema: JsonView, text: Seq<char>, k: int)
    requires
        -1 <= k < json_objects(text).len(),
        forall|j: int|
            k < j < json_objects(text).len() ==> parse_result(#[trigger] json_objects(text)[j]) is Err,
        k >= 0 ==> parse_result(json_objects(text)[k]) is Ok,
    ensures
        ({
            let r = response_result(OutputSchemaView::JsonSchema(schema), text);
            if k >= 0 {
                parse_result(json_objects(text)[k]) matches Ok(value) && {
                    &&& satisfies(schema, value) ==> r == Ok::<JsonView, OutputErrorView>(value)
                    &&& !satisfies(schema, value) ==> (r matches Err(e) && e.kind
                        == StructuredOutputErrorKind::SchemaValidation)
                }
            } else if json_objects(text).len() > 0 {
                parse_result(json_objects(text).last()) matches Err(message) && (r matches Err(e)
                    && e.kind == StructuredOutputErrorKind::InvalidJson && e.details
                    == DetailsView::Message("invalid JSON object: "@ + message))
            } else {
                r matches Err(e) && e.kind == StructuredOutputErrorKind::NoJsonObject
            }
        }),
{
    let candidates = json_objects(text);
    let n = candidates.len() as int;
    if n > 0 {
        lemma_custom_passes(schema, candidates, n, None, k);
        if k >= 0 {
            let value = parse_result(candidates[k])->Ok_0;
            lemma_accepted_iff_satisfied(value, schema_verdict(schema, value), Some(schema));
        } else {
            assert(candidates.last() == candidates[n - 1]);
            assert(parse_result(candidates[n - 1]) is Err);
        }
    }
}

proof fn lemma_custom_passes(
    schema: JsonView,
    candidates: Seq<Seq<char>>,
    n: int,
    first_error: Option<Seq<char>>,
    k: int,
)
    requires
        -1 <= k < n <= candidates.len(),
        forall|j: int| k < j < n ==> parse_result(#[trigger] candidates[j]) is Err,
    ensures
        ({
            let told = match first_error {
                Some(m) => Some(m),
                None => if n > k + 1 {
                    Some(parse_result(candidates[n - 1])->Err_0)
                } else {
                    None
                },
            };
            custom_result(schema, candidates, n, first_error) == custom_result(
                schema,
                candidates,
                k + 1,
                told,
            )
        }),
    decreases n,
{
    if n > k + 1 {
        assert(parse_result(candidates[n - 1]) is Err);
        let told = match first_error {
            Some(m) => Some(m),
            None => Some(parse_result(candidates[n - 1])->Err_0),
        };
        if n - 1 > k {
            lemma_custom_passes(schema, candidates, n - 1, told, k);
        }
    }
}

/// Free text routes a run by the last of its objects with a routing field, and
/// objects after it that have none, or that do not read, change nothing.
pub proof fn lemma_the_last_object_with_a_field_is_read(text: Seq<char>, k: int)
    requires
        -1 <= k < json_objects(text).len(),
        forall|j: int|
            k < j < json_objects(text).len() ==> !(parse_result(
                #[trigger] json_objects(text)[j],
            ) matches Ok(value) && routes(value)),
        k >= 0 ==> (parse_result(json_objects(text)[k]) matches Ok(value) && routes(value)),
    ensures
        ({
            let found = last_routing_object(json_objects(text), json_objects(text).len() as int);
            if k >= 0 {
                parse_result(json_objects(text)[k]) matches Ok(value) && found == Some(value)
            } else {
                found is None
            }
        }),
{
    lemma_last_routing_object(json_objects(text), json_objects(text).len() as int, k);
}

proof fn lemma_last_routing_object(candidates: Seq<Seq<char>>, n: int, k: int)
    requires
        -1 <= k < n <= candidates.len() || k == -1 && n == 0,
        forall|j: int|
            k < j < n ==> !(parse_result(#[trigger] candidates[j]) matches Ok(value) && routes(
                value,
            )),
        k >= 0 ==> (parse_result(candidates[k]) matches Ok(value) && routes(value)),
    ensures
        k >= 0 ==> (parse_result(candidates[k]) matches Ok(value) && last_routing_object(
            candidates,
            n,
        ) == Some(value)),
        k < 0 ==> last_routing_object(candidates, n) is None,
    decreases n,
{
    if n > 0 {
        let c = candidates[n - 1];
        if let Ok(value) = parse_result(c) {
            lemma_routing_fields(value, c);
        }
        if n - 1 > k {
            assert(!(parse_result(c) matches Ok(value) && routes(value)));
            lemma_last_routing_object(candidates, n - 1, k);
        }
    }
}

/// A repair prompt holds every problem of the response, each behind a dash, and
/// what a valid response looks like. It says that a problem is unchanged exactly
/// where the last repair was asked for one of the same problems, and asks for
/// corrections in place exactly where the schema was violated.
pub proof fn lemma_repairs_name_every_problem(
    error: OutputErrorView,
    schema: OutputSchemaView,
    previous: Option<OutputErrorView>,
    i: int,
)
    requires
        0 <= i < error.messages().len(),
    ensures
        ({
            let sections = repair_sections(error, schema, previous);
            let prompt = join(sections, "\n\n"@);
            let unchanged = previous matches Some(p) && (
            error.details matches DetailsView::SchemaValidation(a) && (
            p.details matches DetailsView::SchemaValidation(b) && exists|x: int, y: int|
                0 <= x < a.len() && 0 <= y < b.len() && #[trigger] a[x] == #[trigger] b[y]));
            let violated = error.kind == StructuredOutputErrorKind::SchemaValidation;
            &&& within("- "@ + error.messages()[i], prompt)
            &&& within(schema.expectation(), prompt)
            &&& sections.len() == 4 + (if unchanged {
                1int
            } else {
                0int
            }) + (if violated {
                1int
            } else {
                0int
            })
            &&& unchanged ==> sections[1]
                == "At least one validation problem below is unchanged from your previous repair."@
            &&& violated ==> sections[sections.len() - 2]
                == "Apply each correction at the exact JSON Pointer shown and return the complete object."@
        }),
{
    let sections = repair_sections(error, schema, previous);
    let bullets = error.messages().map_values(|m: Seq<char>| "- "@ + m);
    let bullet = "- "@ + error.messages()[i];
    let list = join(bullets, "\n"@);
    let at: int = if previous matches Some(p) && error.shares_issue(p) {
        2
    } else {
        1
    };
    let told = "Validation errors:\n"@ + list;
    assert(sections[at] == told);
    assert(sections[at + 1] == schema.expectation());
    assert(bullets =~= bullets.take(i) + seq![bullet] + bullets.skip(i + 1));
    lemma_joined_parts_are_within(bullets.take(i), seq![bullet], bullets.skip(i + 1), "\n"@);
    assert(join(seq![bullet], "\n"@) == bullet);
    assert(told =~= "Validation errors:\n"@ + list + Seq::<char>::empty());
    lemma_within_chains(bullet, list, told);
    assert(sections =~= sections.take(at) + seq![told] + sections.skip(at + 1));
    lemma_joined_parts_are_within(sections.take(at), seq![told], sections.skip(at + 1), "\n\n"@);
    assert(join(seq![told], "\n\n"@) == told);
    lemma_within_chains(bullet, told, join(sections, "\n\n"@));
    let expected = schema.expectation();
    assert(sections =~= sections.take(at + 1) + seq![expected] + sections.skip(at + 2));
    lemma_joined_parts_are_within(
        sections.take(at + 1),
        seq![expected],
        sections.skip(at + 2),
        "\n\n"@,
    );
    assert(join(seq![expected], "\n\n"@) == expected);
}

/// An output schema is read by what its trimmed text is: `routing` asks for
/// routing fields, a reference to a file that is still unresolved and an empty
/// text are refused, and anything else is taken exactly where it reads as JSON
/// and compiles, as the schema that it is.
pub proof fn lemma_output_schemas_are_read_by_their_text(text: Seq<char>, fault: Seq<char>)
    ensures
        ({
            let value = trim(text);
            let r = node_schema(text, fault);
            &&& r == Ok::<OutputSchemaView, Seq<char>>(OutputSchemaView::Routing) <==> value
                == "routing"@
            &&& value.len() == 0 ==> r is Err
            &&& value.len() > 0 && value[0] == '@' ==> r is Err
            &&& value.len() > 0 && value != "routing"@ && value[0] != '@' ==> match parse_result(
                value,
            ) {
                Ok(schema) => if schema_compiles(schema) {
                    r == Ok::<OutputSchemaView, Seq<char>>(OutputSchemaView::JsonSchema(schema))
                } else {
                    r == Err::<OutputSchemaView, Seq<char>>(fault)
                },
                Err(_) => r is Err,
            }
        }),
{
    reveal_strlit("routing");
}

/// A model that has a schema to meet is asked for exactly that schema, strictly; one
/// that is to route is asked for an object.
pub proof fn lemma_schemas_are_asked_for_strictly(schema: OutputSchemaView)
    ensures
        ({
            let f = format_for(schema);
            &&& f.json_schema is Some <==> schema is JsonSchema
            &&& f.json_schema matches Some(s) ==> schema == OutputSchemaView::JsonSchema(s)
            &&& f.strict <==> schema is JsonSchema
            &&& f.kind is JsonSchema <==> schema is JsonSchema
            &&& f.kind is JsonObject <==> schema is Routing
        }),
{
}

/// An agent is told its task first, then what its answer must be: the schema itself,
/// or the fields of which one is needed.
pub proof fn lemma_agents_are_told_task_and_schema(schema: OutputSchemaView, prompt: Seq<char>)
    ensures
        ({
            let told = schema.agent_prompt(prompt);
            &&& prompt.is_prefix_of(told)
            &&& crate::text::within(schema.expectation(), told)
            &&& schema matches OutputSchemaView::JsonSchema(s) ==> crate::text::within(
                compact(s),
                told,
            )
            &&& schema is Routing ==> crate::text::within(
                join(routing_status_fields(), ", "@),
                told,
            )
        }),
{
    let told = schema.agent_prompt(prompt);
    let lead = "\n\nFabro final-output contract\n\nThe following contract is trusted workflow configuration. It applies only to your final response, not to intermediate tool calls.\n"@;
    let tail = "\nThe contract is complete. Do not ask the user to provide or choose the output shape."@;
    let what = schema.expectation();
    assert(told =~= (prompt + lead) + what + tail);
    assert(told.take(prompt.len() as int) =~= prompt);
    assert(crate::text::within(what, told));
    match schema {
        OutputSchemaView::JsonSchema(s) => {
            let before = "Return a single JSON object that satisfies this JSON Schema:\n<output_schema>\n"@;
            assert(what == before + compact(s) + "\n</output_schema>"@);
            assert(crate::text::within(compact(s), what));
            crate::text::lemma_within_chains(compact(s), what, told);
        },
        OutputSchemaView::Routing => {
            let fields = join(routing_status_fields(), ", "@);
            assert(what
                == "Return a single JSON object with at least one routing field: "@ + fields
                + "."@);
            assert(crate::text::within(fields, what));
            crate::text::lemma_within_chains(fields, what, told);
        },
    }
}

/// A candidate routes exactly where it reads as an object with a routing field. One
/// that does not read is broken where it names such a field, with why it does not
/// read, and passed over otherwise.
pub proof fn lemma_candidates_route_or_break(text: Seq<char>, parsed: Result<JsonView, Seq<char>>)
    ensures
        ({
            let c = routing_candidate(text, parsed);
            &&& c is Found <==> (parsed matches Ok(v) && v is Object && has_routing_field(v))
            &&& c matches RoutingCandidateView::Found(v) ==> parsed == Ok::<JsonView, Seq<char>>(v)
            &&& c is Broken <==> parsed is Err && mentions_routing_field(text)
            &&& c matches RoutingCandidateView::Broken(m) ==> parsed->Err_0.is_suffix_of(m)
        }),
{
    if let Err(err) = parsed {
        let m = "invalid routing JSON object: "@ + err;
        assert(m.skip(m.len() - err.len()) =~= err);
    }
}

} // verus!
