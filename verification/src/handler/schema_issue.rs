//! Violations of a JSON Schema, and how they are told to a model.
use crate::json::{compact, json_of_value, pointed, value_of_json, Json, JsonView};
use crate::order::{in_order, lemma_in_order, sort_texts};
use crate::table::Duplicate;
use crate::text::{
    chars_of, decimal, decimal_string, join, joined, lemma_within_chains, same, string_of, within,
};
use vstd::prelude::*;
use vstd::string::*;

verus! {

/// Longest schema fragment shown, in characters.
pub const MAX_SCHEMA_FRAGMENT_CHARS: usize = 320;

/// Most unexpected keys shown: they come from model output, and a wide object
/// must not flood the repair prompt.
pub const MAX_UNEXPECTED_PROPERTIES: usize = 10;

/// Most violations reported for one value.
pub const MAX_ISSUES: usize = 5;

/// Which rule a value breaks.
#[derive(Debug, PartialEq)]
pub enum ViolationKind {
    /// A required property is missing.
    Required(Json),
    /// Properties that the schema does not allow.
    AdditionalProperties(Vec<String>),
    /// Any other rule, with the validator's message.
    Other(String),
}

/// One violation found by the validator.
#[derive(Debug, PartialEq)]
pub struct Violation {
    pub instance_path: String,
    pub schema_path: String,
    pub kind: ViolationKind,
}

pub enum ViolationKindView {
    Required(JsonView),
    AdditionalProperties(Seq<Seq<char>>),
    Other(Seq<char>),
}

pub struct ViolationView {
    pub instance_path: Seq<char>,
    pub schema_path: Seq<char>,
    pub kind: ViolationKindView,
}

impl View for Violation {
    type V = ViolationView;

    open spec fn view(&self) -> ViolationView {
        ViolationView {
            instance_path: self.instance_path@,
            schema_path: self.schema_path@,
            kind: match self.kind {
                ViolationKind::Required(j) => ViolationKindView::Required(j@),
                ViolationKind::AdditionalProperties(v) => ViolationKindView::AdditionalProperties(
                    v.deep_view(),
                ),
                ViolationKind::Other(s) => ViolationKindView::Other(s@),
            },
        }
    }
}

impl DeepView for Violation {
    type V = ViolationView;

    open spec fn deep_view(&self) -> ViolationView {
        self@
    }
}

/// Whether a schema compiles.
pub uninterp spec fn schema_compiles(schema: JsonView) -> bool;

/// The violations that a compiled schema finds in a value, in the validator's
/// order.
pub uninterp spec fn violations(schema: JsonView, value: JsonView) -> Seq<ViolationView>;

/// `jsonschema::validator_for` on the schema, then `Validator::iter_errors` on
/// the value, each error turned into its paths and rule. Whether the schema
/// compiles does not depend on the value. Documents that the crate does not
/// bundle are not fetched, as it is built without retrievers: a schema that
/// refers to one does not compile. Nothing is said of the message of a schema
/// that does not compile: of several documents that cannot be had, it names one
/// that differs from call to call.
#[verifier::external_body]
fn run_validator(schema: &serde_json::Value, value: &serde_json::Value) -> (r: Result<
    Vec<Violation>,
    String,
>)
    ensures
        r is Ok == schema_compiles(crate::json::value_model(*schema)),
        r matches Ok(found) ==> found.deep_view() == violations(
            crate::json::value_model(*schema),
            crate::json::value_model(*value),
        ),
{
    let validator = jsonschema::validator_for(schema).map_err(|e| e.to_string())?;
    let violation = |e: jsonschema::ValidationError<'_>| Violation {
        instance_path: e.instance_path().as_str().to_owned(),
        schema_path: e.schema_path().as_str().to_owned(),
        kind: match e.kind() {
            jsonschema::error::ValidationErrorKind::Required { property } => ViolationKind::Required(json_of_value(property)),
            jsonschema::error::ValidationErrorKind::AdditionalProperties { unexpected } => ViolationKind::AdditionalProperties(unexpected.clone()),
            _ => ViolationKind::Other(e.to_string()),
        },
    };
    Ok(validator.iter_errors(value).map(violation).collect())
}

/// A verdict by its model.
pub open spec fn verdict_view(r: Result<Vec<Violation>, String>) -> Result<
    Seq<ViolationView>,
    Seq<char>,
> {
    match r {
        Ok(v) => Ok(v.deep_view()),
        Err(m) => Err(m@),
    }
}

/// Holds `value` against `schema`: the violations, or the message of the error
/// that keeps the schema from compiling.
pub fn check_schema(schema: &Json, value: &Json) -> (r: Result<Vec<Violation>, String>)
    ensures
        r is Ok == schema_compiles(schema@),
        r matches Ok(found) ==> found.deep_view() == violations(schema@, value@),
{
    run_validator(&value_of_json(schema), &value_of_json(value))
}

/// What stands for the violations of a schema that does not compile.
pub const SCHEMA_FAULT: &'static str = "the schema does not compile";

/// What a schema says of a value: the violations, where the schema compiles.
pub open spec fn schema_verdict(schema: JsonView, value: JsonView) -> Result<
    Seq<ViolationView>,
    Seq<char>,
> {
    if schema_compiles(schema) {
        Ok(violations(schema, value))
    } else {
        Err(SCHEMA_FAULT@)
    }
}

/// What `schema` says of `value`.
pub fn schema_verdict_of(schema: &Json, value: &Json) -> (r: Result<Vec<Violation>, String>)
    ensures
        verdict_view(r) == schema_verdict(schema@, value@),
{
    match check_schema(schema, value) {
        Ok(found) => Ok(found),
        Err(_) => Err(SCHEMA_FAULT.to_owned()),
    }
}

/// A schema that compiles.
#[derive(Debug, PartialEq)]
pub struct ValidSchema {
    schema: Json,
}

impl View for ValidSchema {
    type V = JsonView;

    closed spec fn view(&self) -> JsonView {
        self.schema@
    }
}

impl DeepView for ValidSchema {
    type V = JsonView;

    open spec fn deep_view(&self) -> JsonView {
        self@
    }
}

impl Duplicate for ValidSchema {
    fn duplicate(&self) -> (r: Self) {
        proof {
            use_type_invariant(self);
        }
        ValidSchema { schema: self.schema.duplicate() }
    }
}

impl ValidSchema {
    #[verifier::type_invariant]
    spec fn inv(self) -> bool {
        schema_compiles(self.schema@)
    }

    /// Compiles a schema. The error holds the message of what keeps it from
    /// compiling.
    pub fn compile(schema: Json) -> (r: Result<ValidSchema, String>)
        ensures
            r is Ok == schema_compiles(schema@),
            r matches Ok(valid) ==> valid@ == schema@,
    {
        match check_schema(&schema, &Json::Null) {
            Ok(_) => Ok(ValidSchema { schema }),
            Err(message) => Err(message),
        }
    }

    pub fn schema(&self) -> (r: &Json)
        ensures
            r@ == self@,
            schema_compiles(self@),
    {
        proof {
            use_type_invariant(self);
        }
        &self.schema
    }
}

/// What is told of a violation.
#[derive(Debug, PartialEq)]
pub enum IssueDetail {
    Required { property: String },
    /// The first unexpected keys in ascending order, and how many there were.
    AdditionalProperties { unexpected: Vec<String>, total: usize },
    Other { message: String, schema_fragment: Option<String> },
}

pub enum IssueDetailView {
    Required { property: Seq<char> },
    AdditionalProperties { unexpected: Seq<Seq<char>>, total: int },
    Other { message: Seq<char>, schema_fragment: Option<Seq<char>> },
}

/// A violation as it is told to a model.
#[derive(Debug, PartialEq)]
pub struct SchemaValidationIssue {
    pub instance_path: String,
    pub schema_path: String,
    pub detail: IssueDetail,
}

pub struct IssueView {
    pub instance_path: Seq<char>,
    pub schema_path: Seq<char>,
    pub detail: IssueDetailView,
}

impl View for SchemaValidationIssue {
    type V = IssueView;

    open spec fn view(&self) -> IssueView {
        IssueView {
            instance_path: self.instance_path@,
            schema_path: self.schema_path@,
            detail: match self.detail {
                IssueDetail::Required { property } => IssueDetailView::Required { property: property@ },
                IssueDetail::AdditionalProperties {
                    unexpected,
                    total,
                } => IssueDetailView::AdditionalProperties {
                    unexpected: unexpected.deep_view(),
                    total: total as int,
                },
                IssueDetail::Other { message, schema_fragment } => IssueDetailView::Other {
                    message: message@,
                    schema_fragment: schema_fragment.deep_view(),
                },
            },
        }
    }
}

impl DeepView for SchemaValidationIssue {
    type V = IssueView;

    open spec fn deep_view(&self) -> IssueView {
        self@
    }
}

/// At most the first `n` elements.
pub open spec fn at_most<A>(s: Seq<A>, n: int) -> Seq<A> {
    if s.len() <= n {
        s
    } else {
        s.take(n)
    }
}

/// The compact rendering of a value, cut after the longest length shown.
pub open spec fn bounded(v: JsonView) -> Seq<char> {
    let text = compact(v);
    if text.len() > MAX_SCHEMA_FRAGMENT_CHARS {
        text.take(MAX_SCHEMA_FRAGMENT_CHARS as int).push('…')
    } else {
        text
    }
}

/// The compact rendering of `value`, cut after the longest length shown.
pub fn bounded_json(value: &Json) -> (r: String)
    ensures
        r@ == bounded(value@),
{
    let rendered = value.render();
    let v = chars_of(rendered.as_str());
    if v.len() > MAX_SCHEMA_FRAGMENT_CHARS {
        let mut cut = string_of(&v, 0, MAX_SCHEMA_FRAGMENT_CHARS);
        cut.push('…');
        assert(v@.subrange(0, MAX_SCHEMA_FRAGMENT_CHARS as int) =~= v@.take(MAX_SCHEMA_FRAGMENT_CHARS as int));
        cut
    } else {
        rendered
    }
}

/// The name of a property: its text, or the rendering of another value.
pub open spec fn property_name(v: JsonView) -> Seq<char> {
    match v {
        JsonView::Str(s) => s,
        other => compact(other),
    }
}

/// What is told of a violation. Keys are sorted before they are cut, so that
/// the same keys in another order are the same issue.
pub open spec fn issue_of(v: ViolationView, schema: Option<JsonView>) -> IssueView {
    IssueView {
        instance_path: v.instance_path,
        schema_path: v.schema_path,
        detail: match v.kind {
            ViolationKindView::Required(p) => IssueDetailView::Required { property: property_name(p) },
            ViolationKindView::AdditionalProperties(u) => IssueDetailView::AdditionalProperties {
                unexpected: at_most(in_order(u), MAX_UNEXPECTED_PROPERTIES as int),
                total: u.len() as int,
            },
            ViolationKindView::Other(message) => IssueDetailView::Other {
                message,
                schema_fragment: match schema {
                    Some(s) => match pointed(s, v.schema_path) {
                        Some(part) => Some(bounded(part)),
                        None => None,
                    },
                    None => None,
                },
            },
        },
    }
}

fn property_text(v: &Json) -> (r: String)
    ensures
        r@ == property_name(v@),
{
    match v {
        Json::Str(s) => s.clone(),
        other => other.render(),
    }
}

impl SchemaValidationIssue {
    /// Describes a violation.
    pub fn from_error(violation: &Violation, schema: Option<&Json>) -> (r: SchemaValidationIssue)
        ensures
            r@ == issue_of(violation@, schema.deep_view()),
    {
        let detail = match &violation.kind {
            ViolationKind::Required(property) => IssueDetail::Required { property: property_text(property) },
            ViolationKind::AdditionalProperties(unexpected) => {
                let total: usize = unexpected.len();
                let mut kept = sort_texts(unexpected);
                proof {
                    lemma_in_order(unexpected.deep_view());
                }
                let ghost all = kept.deep_view();
                if kept.len() > MAX_UNEXPECTED_PROPERTIES {
                    kept.truncate(MAX_UNEXPECTED_PROPERTIES);
                    assert(kept.deep_view() =~= all.take(MAX_UNEXPECTED_PROPERTIES as int));
                }
                IssueDetail::AdditionalProperties { unexpected: kept, total }
            },
            ViolationKind::Other(message) => {
                let schema_fragment = match schema {
                    Some(schema) => match schema.pointer(violation.schema_path.as_str()) {
                        Some(part) => Some(bounded_json(&part)),
                        None => None,
                    },
                    None => None,
                };
                IssueDetail::Other { message: message.clone(), schema_fragment }
            },
        };
        SchemaValidationIssue {
            instance_path: violation.instance_path.clone(),
            schema_path: violation.schema_path.clone(),
            detail,
        }
    }

    /// The sentence that tells a model of the issue.
    pub fn render(&self) -> (r: String)
        requires
            valid_issue(self@),
        ensures
            r@ == issue_text(self@),
    {
        let mut out = match &self.detail {
            IssueDetail::Required { property } => {
                let mut s = "Missing required property ".to_owned();
                s.append(Json::from_str(property.as_str()).render().as_str());
                s.append(" at JSON Pointer `");
                s.append(join_pointer(self.instance_path.as_str(), property.as_str()).as_str());
                s.append("`. Add it to the object at ");
                s.append(pointer_phrase(self.instance_path.as_str()).as_str());
                s.append(".");
                s
            },
            IssueDetail::AdditionalProperties { unexpected, total } => {
                let mut s = "Unexpected properties in the object at ".to_owned();
                s.append(pointer_phrase(self.instance_path.as_str()).as_str());
                s.append(": ");
                let mut properties = joined(&located(self.instance_path.as_str(), unexpected), ", ");
                let remaining: usize = *total - unexpected.len();
                if remaining > 0 {
                    properties.append(", and ");
                    properties.append(decimal_string(remaining as u64).as_str());
                    properties.append(" more");
                }
                s.append(properties.as_str());
                s.append(".");
                s
            },
            IssueDetail::Other { message, .. } => {
                let mut s = "At ".to_owned();
                s.append(pointer_phrase(self.instance_path.as_str()).as_str());
                s.append(": ");
                s.append(without_final_dots(message.as_str()).as_str());
                s.append(".");
                s
            },
        };
        out.append(" Schema rule: ");
        out.append(pointer_phrase(self.schema_path.as_str()).as_str());
        if let IssueDetail::Other { schema_fragment: Some(fragment), .. } = &self.detail {
            out.append(": ");
            out.append(fragment.as_str());
        }
        out.append(".");
        out
    }

    /// Whether two issues say the same.
    pub fn same_as(&self, other: &SchemaValidationIssue) -> (r: bool)
        ensures
            r == (self@ == other@),
    {
        if !same(self.instance_path.as_str(), other.instance_path.as_str()) || !same(
            self.schema_path.as_str(),
            other.schema_path.as_str(),
        ) {
            return false;
        }
        match (&self.detail, &other.detail) {
            (
                IssueDetail::Required { property: a },
                IssueDetail::Required { property: b },
            ) => same(a.as_str(), b.as_str()),
            (
                IssueDetail::AdditionalProperties { unexpected: a, total: m },
                IssueDetail::AdditionalProperties { unexpected: b, total: n },
            ) => *m == *n && same_texts(a, b),
            (
                IssueDetail::Other { message: a, schema_fragment: x },
                IssueDetail::Other { message: b, schema_fragment: y },
            ) => same(a.as_str(), b.as_str()) && same_option(x, y),
            _ => false,
        }
    }
}

/// No more keys are shown than there are.
pub open spec fn valid_issue(v: IssueView) -> bool {
    match v.detail {
        IssueDetailView::AdditionalProperties { unexpected, total } => unexpected.len() <= total,
        _ => true,
    }
}

/// An issue made from a violation is valid.
pub proof fn lemma_issue_of_is_valid(v: ViolationView, schema: Option<JsonView>)
    ensures
        valid_issue(issue_of(v, schema)),
{
    if let ViolationKindView::AdditionalProperties(u) = v.kind {
        lemma_in_order(u);
    }
}

fn same_texts(a: &Vec<String>, b: &Vec<String>) -> (r: bool)
    ensures
        r == (a.deep_view() == b.deep_view()),
{
    if a.len() != b.len() {
        assert(a.deep_view().len() != b.deep_view().len());
        return false;
    }
    let mut i: usize = 0;
    while i < a.len()
        invariant
            i <= a@.len(),
            a@.len() == b@.len(),
            forall|k: int| 0 <= k < i ==> a.deep_view()[k] == b.deep_view()[k],
        decreases a@.len() - i,
    {
        if !same(a[i].as_str(), b[i].as_str()) {
            assert(a.deep_view()[i as int] != b.deep_view()[i as int]);
            return false;
        }
        i += 1;
    }
    assert(a.deep_view() =~= b.deep_view());
    true
}

fn same_option(a: &Option<String>, b: &Option<String>) -> (r: bool)
    ensures
        r == (a.deep_view() == b.deep_view()),
{
    match (a, b) {
        (Some(x), Some(y)) => same(x.as_str(), y.as_str()),
        (None, None) => true,
        _ => false,
    }
}

/// A place in a document, in words.
pub open spec fn phrase(path: Seq<char>) -> Seq<char> {
    if path.len() == 0 {
        "the document root"@
    } else {
        "JSON Pointer `"@ + path + "`"@
    }
}

/// A place in a document, in words.
pub fn pointer_phrase(path: &str) -> (r: String)
    ensures
        r@ == phrase(path@),
{
    if path.is_empty() {
        "the document root".to_owned()
    } else {
        let mut s = "JSON Pointer `".to_owned();
        s.append(path);
        s.append("`");
        s
    }
}

/// A key as a JSON Pointer segment: `~` is written `~0` and `/` is written `~1`.
pub open spec fn escaped(s: Seq<char>) -> Seq<char>
    decreases s.len(),
{
    if s.len() == 0 {
        s
    } else {
        escaped(s.drop_last()) + escaped_char(s.last())
    }
}

pub open spec fn escaped_char(c: char) -> Seq<char> {
    if c == '~' {
        "~0"@
    } else if c == '/' {
        "~1"@
    } else {
        seq![c]
    }
}

/// The pointer to a member of the object at `path`.
pub open spec fn member_pointer(path: Seq<char>, key: Seq<char>) -> Seq<char> {
    path + "/"@ + escaped(key)
}

/// The pointer to a member of the object at `path`.
pub fn join_pointer(path: &str, key: &str) -> (r: String)
    ensures
        r@ == member_pointer(path@, key@),
{
    let v = chars_of(key);
    let mut tail = String::new();
    let mut i: usize = 0;
    assert(v@.take(0) =~= Seq::empty());
    while i < v.len()
        invariant
            i <= v@.len(),
            tail@ == escaped(v@.take(i as int)),
        decreases v@.len() - i,
    {
        let c: char = v[i];
        assert(v@.take(i + 1).drop_last() =~= v@.take(i as int));
        let ghost had = tail@;
        if c == '~' {
            tail.append("~0");
        } else if c == '/' {
            tail.append("~1");
        } else {
            tail.push(c);
            assert(had.push(c) =~= had + seq![c]);
        }
        i += 1;
    }
    assert(v@.take(i as int) =~= v@);
    let mut s = path.to_owned();
    s.append("/");
    s.append(tail.as_str());
    s
}

/// A key and where it stands.
pub open spec fn located_key(path: Seq<char>, key: Seq<char>) -> Seq<char> {
    compact(JsonView::Str(key)) + " at `"@ + member_pointer(path, key) + "`"@
}

fn located(path: &str, keys: &Vec<String>) -> (r: Vec<String>)
    ensures
        r.deep_view() == keys.deep_view().map_values(|k: Seq<char>| located_key(path@, k)),
{
    let mut r: Vec<String> = Vec::new();
    let mut i: usize = 0;
    let ghost all = keys.deep_view().map_values(|k: Seq<char>| located_key(path@, k));
    while i < keys.len()
        invariant
            i <= keys@.len(),
            all == keys.deep_view().map_values(|k: Seq<char>| located_key(path@, k)),
            r.deep_view() == all.take(i as int),
        decreases keys@.len() - i,
    {
        let ghost had = r.deep_view();
        let mut s = Json::from_str(keys[i].as_str()).render();
        s.append(" at `");
        s.append(join_pointer(path, keys[i].as_str()).as_str());
        s.append("`");
        r.push(s);
        i += 1;
        assert(r.deep_view() =~= had.push(s@));
        assert(all.take(i as int) =~= all.take(i - 1).push(s@));
    }
    assert(all.take(i as int) =~= all);
    r
}

/// A text without the dots at its end.
pub open spec fn no_final_dots(s: Seq<char>) -> Seq<char>
    decreases s.len(),
{
    if s.len() > 0 && s.last() == '.' {
        no_final_dots(s.drop_last())
    } else {
        s
    }
}

fn without_final_dots(s: &str) -> (r: String)
    ensures
        r@ == no_final_dots(s@),
{
    let v = chars_of(s);
    let mut to: usize = v.len();
    assert(v@.take(v@.len() as int) =~= v@);
    while to > 0 && v[to - 1] == '.'
        invariant
            to <= v@.len(),
            no_final_dots(v@) == no_final_dots(v@.take(to as int)),
        decreases to,
    {
        assert(v@.take(to as int).drop_last() =~= v@.take(to - 1));
        to -= 1;
    }
    let r = string_of(&v, 0, to);
    assert(r@ =~= v@.take(to as int));
    r
}

/// The sentence that tells a model of an issue: what is wrong and where, then
/// the schema rule.
pub open spec fn issue_text(v: IssueView) -> Seq<char> {
    let problem = match v.detail {
        IssueDetailView::Required { property } => "Missing required property "@ + compact(
            JsonView::Str(property),
        ) + " at JSON Pointer `"@ + member_pointer(v.instance_path, property)
            + "`. Add it to the object at "@ + phrase(v.instance_path) + "."@,
        IssueDetailView::AdditionalProperties { unexpected, total } => {
            let shown = join(
                unexpected.map_values(|k: Seq<char>| located_key(v.instance_path, k)),
                ", "@,
            );
            let listed = if total - unexpected.len() > 0 {
                shown + ", and "@ + decimal((total - unexpected.len()) as nat) + " more"@
            } else {
                shown
            };
            "Unexpected properties in the object at "@ + phrase(v.instance_path) + ": "@ + listed + "."@
        },
        IssueDetailView::Other { message, .. } => "At "@ + phrase(v.instance_path) + ": "@
            + no_final_dots(message) + "."@,
    };
    let ruled = problem + " Schema rule: "@ + phrase(v.schema_path);
    match v.detail {
        IssueDetailView::Other { schema_fragment: Some(fragment), .. } => ruled + ": "@ + fragment
            + "."@,
        _ => ruled + "."@,
    }
}

/// The issues reported of a value, at most the first few. Without a verdict the
/// one issue is why there is none.
pub open spec fn issues_of(verdict: Result<Seq<ViolationView>, Seq<char>>, schema: Option<JsonView>) -> Seq<
    IssueView,
> {
    match verdict {
        Ok(found) => at_most(found, MAX_ISSUES as int).map_values(
            |v: ViolationView| issue_of(v, schema),
        ),
        Err(message) => seq![
            IssueView {
                instance_path: Seq::empty(),
                schema_path: Seq::empty(),
                detail: IssueDetailView::Other { message, schema_fragment: None },
            },
        ],
    }
}

/// The issues told of a verdict.
pub fn verdict_issues(verdict: &Result<Vec<Violation>, String>, schema: Option<&Json>) -> (r: Vec<
    SchemaValidationIssue,
>)
    ensures
        r.deep_view() == issues_of(verdict_view(*verdict), schema.deep_view()),
{
    let mut r: Vec<SchemaValidationIssue> = Vec::new();
    match verdict {
        Ok(found) => {
            let n: usize = if found.len() > MAX_ISSUES {
                MAX_ISSUES
            } else {
                found.len()
            };
            let ghost all = issues_of(verdict_view(*verdict), schema.deep_view());
            let mut i: usize = 0;
            while i < n
                invariant
                    i <= n <= found@.len(),
                    all == issues_of(verdict_view(*verdict), schema.deep_view()),
                    *verdict == Ok::<Vec<Violation>, String>(*found),
                    all.len() == n,
                    r.deep_view() == all.take(i as int),
                decreases n - i,
            {
                let ghost had = r.deep_view();
                let issue = SchemaValidationIssue::from_error(&found[i], schema);
                r.push(issue);
                i += 1;
                assert(r.deep_view() =~= had.push(issue@));
                assert(all[i - 1] == issue@);
                assert(all.take(i as int) =~= all.take(i - 1).push(issue@));
            }
            assert(all.take(i as int) =~= all);
        },
        Err(message) => {
            let issue = SchemaValidationIssue {
                instance_path: String::new(),
                schema_path: String::new(),
                detail: IssueDetail::Other { message: message.clone(), schema_fragment: None },
            };
            r.push(issue);
            assert(r.deep_view() =~= seq![issue@]);
        },
    }
    r
}

/// Every issue told is valid, there are at most [`MAX_ISSUES`] of them, and
/// there are none exactly when the schema compiles and the value satisfies it.
pub proof fn lemma_issues_of(verdict: Result<Seq<ViolationView>, Seq<char>>, schema: Option<JsonView>)
    ensures
        issues_of(verdict, schema).len() <= MAX_ISSUES,
        issues_of(verdict, schema).len() == 0 <==> (verdict matches Ok(found) && found.len() == 0),
        forall|i: int|
            0 <= i < issues_of(verdict, schema).len() ==> valid_issue(#[trigger] issues_of(verdict, schema)[i]),
{
    assert forall|i: int| 0 <= i < issues_of(verdict, schema).len() implies valid_issue(
        #[trigger] issues_of(verdict, schema)[i],
    ) by {
        if let Ok(found) = verdict {
            lemma_issue_of_is_valid(found[i], schema);
        }
    }
}

/// The same unexpected keys in another order make the same issue.
pub proof fn lemma_key_order_is_irrelevant(a: ViolationView, b: ViolationView, schema: Option<JsonView>)
    requires
        a.instance_path == b.instance_path,
        a.schema_path == b.schema_path,
        a.kind is AdditionalProperties,
        b.kind is AdditionalProperties,
        a.kind->AdditionalProperties_0.to_multiset() == b.kind->AdditionalProperties_0.to_multiset(),
    ensures
        issue_of(a, schema) == issue_of(b, schema),
{
    let u = a.kind->AdditionalProperties_0;
    let w = b.kind->AdditionalProperties_0;
    crate::order::lemma_in_order_of_same(u, w);
    vstd::seq_lib::to_multiset_len(u);
    vstd::seq_lib::to_multiset_len(w);
}

/// Every violation is told, in the order in which the schema found them, up to the
/// first five: where it stands, which rule it breaks, and what is wrong.
pub proof fn lemma_violations_are_told_in_order(
    found: Seq<ViolationView>,
    schema: Option<JsonView>,
    i: int,
)
    requires
        0 <= i < found.len(),
        i < 5,
    ensures
        ({
            let issues = issues_of(Ok(found), schema);
            let v = found[i];
            &&& found.len() <= 5 ==> issues.len() == found.len()
            &&& found.len() > 5 ==> issues.len() == 5
            &&& issues[i].instance_path == v.instance_path
            &&& issues[i].schema_path == v.schema_path
            &&& match v.kind {
                ViolationKindView::Required(p) => issues[i].detail matches IssueDetailView::Required {
                    property,
                } && (p matches JsonView::Str(name) ==> property == name),
                ViolationKindView::AdditionalProperties(u) => {
                    &&& issues[i].detail matches IssueDetailView::AdditionalProperties {
                        unexpected,
                        total,
                    } && {
                        &&& total == u.len()
                        &&& u.len() <= 10 ==> unexpected.len() == u.len()
                        &&& u.len() > 10 ==> unexpected.len() == 10
                    }
                },
                ViolationKindView::Other(message) => issues[i].detail matches IssueDetailView::Other {
                    message: told,
                    ..
                } && told == message,
            }
        }),
{
    if let ViolationKindView::AdditionalProperties(u) = found[i].kind {
        crate::order::lemma_in_order(u);
    }
}

/// A key is written into a pointer character by character: a tilde and a slash by
/// their escapes, every other character as it is.
pub proof fn lemma_pointers_escape_two_characters(s: Seq<char>, c: char)
    ensures
        escaped(s.push(c)) == escaped(s) + if c == '~' {
            seq!['~', '0']
        } else if c == '/' {
            seq!['~', '1']
        } else {
            seq![c]
        },
        escaped(Seq::empty()).len() == 0,
{
    assert(s.push(c).drop_last() =~= s);
    reveal_strlit("~0");
    reveal_strlit("~1");
    assert("~0"@ =~= seq!['~', '0']);
    assert("~1"@ =~= seq!['~', '1']);
}

/// The problem of an issue, in words, without the rule that it breaks.
spec fn problem_text(v: IssueView) -> Seq<char> {
    match v.detail {
        IssueDetailView::Required { property } => "Missing required property "@ + compact(
            JsonView::Str(property),
        ) + " at JSON Pointer `"@ + member_pointer(v.instance_path, property)
            + "`. Add it to the object at "@ + phrase(v.instance_path) + "."@,
        IssueDetailView::AdditionalProperties { unexpected, total } => {
            let shown = join(
                unexpected.map_values(|k: Seq<char>| located_key(v.instance_path, k)),
                ", "@,
            );
            let listed = if total - unexpected.len() > 0 {
                shown + ", and "@ + decimal((total - unexpected.len()) as nat) + " more"@
            } else {
                shown
            };
            "Unexpected properties in the object at "@ + phrase(v.instance_path) + ": "@ + listed
                + "."@
        },
        IssueDetailView::Other { message, .. } => "At "@ + phrase(v.instance_path) + ": "@
            + no_final_dots(message) + "."@,
    }
}

proof fn lemma_problem_and_rule(v: IssueView)
    ensures
        within(problem_text(v), issue_text(v)),
        within(" Schema rule: "@ + phrase(v.schema_path), issue_text(v)),
{
    let problem = problem_text(v);
    let text = issue_text(v);
    let rule = " Schema rule: "@ + phrase(v.schema_path);
    let ruled = problem + " Schema rule: "@ + phrase(v.schema_path);
    assert(ruled =~= problem + rule);
    match v.detail {
        IssueDetailView::Other { schema_fragment: Some(fragment), .. } => {
            assert(text == ruled + ": "@ + fragment + "."@);
            assert(text =~= problem + rule + (": "@ + fragment + "."@));
            assert(text =~= Seq::<char>::empty() + problem + (rule + (": "@ + fragment + "."@)));
        },
        _ => {
            assert(text == ruled + "."@);
            assert(text =~= problem + rule + "."@);
            assert(text =~= Seq::<char>::empty() + problem + (rule + "."@));
        },
    }
}

proof fn lemma_missing_property_is_placed(head: Seq<char>, path: Seq<char>, property: Seq<char>)
    ensures
        within(
            path + "/"@ + escaped(property),
            head + " at JSON Pointer `"@ + member_pointer(path, property)
                + "`. Add it to the object at "@ + phrase(path) + "."@,
        ),
        within(
            phrase(path),
            head + " at JSON Pointer `"@ + member_pointer(path, property)
                + "`. Add it to the object at "@ + phrase(path) + "."@,
        ),
{
    let front = head + " at JSON Pointer `"@;
    let pointer = member_pointer(path, property);
    let mid = "`. Add it to the object at "@;
    let place = phrase(path);
    let all = front + pointer + mid + place + "."@;
    assert(all =~= front + pointer + (mid + place + "."@));
    assert(all =~= (front + pointer + mid) + place + "."@);
}

/// What a model is told of an issue names the place, the rule and the problem: a
/// missing property by its own pointer, and any other problem in the words of the
/// schema's message.
pub proof fn lemma_issues_name_place_and_rule(v: IssueView)
    ensures
        within(" Schema rule: "@ + phrase(v.schema_path), issue_text(v)),
        within(phrase(v.instance_path), issue_text(v)),
        v.detail matches IssueDetailView::Required { property } ==> within(
            v.instance_path + "/"@ + escaped(property),
            issue_text(v),
        ),
        v.detail matches IssueDetailView::Other { message, .. } ==> within(
            no_final_dots(message),
            issue_text(v),
        ),
{
    let problem = problem_text(v);
    let place = phrase(v.instance_path);
    lemma_problem_and_rule(v);
    match v.detail {
        IssueDetailView::Required { property } => {
            lemma_missing_property_is_placed(
                "Missing required property "@ + compact(JsonView::Str(property)),
                v.instance_path,
                property,
            );
            lemma_within_chains(
                v.instance_path + "/"@ + escaped(property),
                problem,
                issue_text(v),
            );
        },
        IssueDetailView::AdditionalProperties { unexpected, total } => {
            let shown = join(
                unexpected.map_values(|k: Seq<char>| located_key(v.instance_path, k)),
                ", "@,
            );
            let listed = if total - unexpected.len() > 0 {
                shown + ", and "@ + decimal((total - unexpected.len()) as nat) + " more"@
            } else {
                shown
            };
            assert(problem =~= "Unexpected properties in the object at "@ + place + (": "@ + listed
                + "."@));
        },
        IssueDetailView::Other { message, .. } => {
            let said = no_final_dots(message);
            assert(problem =~= "At "@ + place + (": "@ + said + "."@));
            assert(problem =~= ("At "@ + place + ": "@) + said + "."@);
            lemma_within_chains(said, problem, issue_text(v));
        },
    }
    lemma_within_chains(place, problem, issue_text(v));
}

/// A schema has a verdict on a value exactly where it compiles, and then finds every
/// violation; any other says so instead.
pub proof fn lemma_schemas_that_compile_judge(schema: JsonView, value: JsonView)
    ensures
        schema_verdict(schema, value) is Ok <==> schema_compiles(schema),
        schema_verdict(schema, value) matches Ok(found) ==> found == violations(schema, value),
        schema_verdict(schema, value) matches Err(m) ==> m == "the schema does not compile"@,
{
}

/// A value is shown as it renders, up to 320 characters of it; where some are left
/// out, an ellipsis says so.
pub proof fn lemma_long_values_are_cut_with_an_ellipsis(v: JsonView)
    ensures
        compact(v).len() <= 320 ==> bounded(v) == compact(v),
        compact(v).len() > 320 ==> {
            &&& bounded(v).len() == 321
            &&& bounded(v).last() == '…'
            &&& bounded(v).drop_last().is_prefix_of(compact(v))
        },
{
    if compact(v).len() > 320 {
        assert(bounded(v).drop_last() =~= compact(v).take(320));
    }
}

} // verus!
