//! Structured output.
use fabro_workflow::error::Error;
use fabro_workflow::graph::{AttrValue, Node};
use fabro_workflow::handler::json_objects::{find_json_objects, terminal_json_object};
use fabro_workflow::handler::schema_issue::ValidSchema;
use fabro_workflow::handler::structured_output::{
    apply_routing_fields, apply_validated_output, parse_node_output_schema, prompt_response_format,
    routing_fields, validate_response_text, OutputSchemaKind, ResponseFormatType,
    StructuredOutputErrorKind, ValidatedStructuredOutput,
};
use fabro_workflow::json::Json;
use fabro_workflow::outcome::{Outcome, StageOutcome};

fn json(text: &str) -> Json {
    Json::parse(text).expect("valid JSON")
}

fn routing() -> OutputSchemaKind {
    OutputSchemaKind::Routing
}

fn schema(schema: Json) -> OutputSchemaKind {
    OutputSchemaKind::JsonSchema {
        schema: ValidSchema::compile(schema).expect("the schema should compile"),
    }
}

fn issue_schema() -> OutputSchemaKind {
    schema(json(
        r#"{
            "type": "object",
            "required": ["issue"],
            "properties": {
                "issue": {
                    "type": "object",
                    "required": ["number"],
                    "properties": { "number": { "type": "integer" } }
                }
            }
        }"#,
    ))
}

#[test]
fn validates_routing_json_and_applies_fields() {
    let validated = validate_response_text(
        &routing(),
        r#"done {"outcome":"failed","failure_reason":"tests failed","preferred_next_label":"fix","suggested_next_ids":["a"],"context_updates":{"verified":true}}"#,
    )
    .unwrap();
    let mut outcome = Outcome::success();

    apply_routing_fields(&validated.value, &mut outcome);

    assert_eq!(outcome.status, StageOutcome::Failed {
        retry_requested: false,
    });
    assert_eq!(
        outcome.failure.as_ref().map(|f| f.message.as_str()),
        Some("tests failed")
    );
    assert_eq!(outcome.preferred_label.as_deref(), Some("fix"));
    assert_eq!(outcome.suggested_next_ids, vec!["a".to_string()]);
    assert_eq!(
        outcome.context_updates.get("verified"),
        Some(&Json::Bool(true)),
    );
}

#[test]
fn routing_json_missing_routing_fields_is_invalid() {
    let error = validate_response_text(&routing(), r#"{"summary":"ok"}"#).unwrap_err();

    assert_eq!(
        error.kind(),
        StructuredOutputErrorKind::NoRelevantJsonObject
    );
    assert!(error.messages()[0].contains("recognized routing field"));
}

#[test]
fn terminal_json_object_accepts_final_object_after_prose() {
    let object =
        terminal_json_object("# Results\n\n{\"context_updates\":{\"verified\":true}}\n\n");

    assert_eq!(object, Some(r#"{"context_updates":{"verified":true}}"#),);
}

#[test]
fn terminal_json_object_returns_outermost_nested_object() {
    let object = terminal_json_object(r#"Results: {"context_updates":{"verified":true}}"#);

    assert_eq!(object, Some(r#"{"context_updates":{"verified":true}}"#),);
}

#[test]
fn terminal_json_object_rejects_object_followed_by_content() {
    assert_eq!(
        terminal_json_object(
            "{\"outcome\":\"failed\",\"failure_reason\":\"tests failed\"}\nMore details",
        ),
        None,
    );
}

#[test]
fn routing_json_with_wrong_field_type_is_invalid() {
    let error =
        validate_response_text(&routing(), r#"{"suggested_next_ids":[1]}"#).unwrap_err();

    assert_eq!(error.kind(), StructuredOutputErrorKind::SchemaValidation);
    assert!(
        error
            .messages()
            .iter()
            .any(|message| message.contains("string")),
        "unexpected messages: {:?}",
        error.messages(),
    );
}

#[test]
fn validates_custom_schema_against_last_json_object() {
    let schema = schema(json(r#"{ "type": "object", "required": ["passed"], "properties": { "passed": { "type": "boolean" } } }"#));

    let validated =
        validate_response_text(&schema, r#"ignore {"other":1} final {"passed":true}"#).unwrap();

    assert_eq!(validated.value, json(r#"{"passed": true}"#));
}

#[test]
fn validates_custom_schema_against_outermost_object() {
    let validated =
        validate_response_text(&issue_schema(), r#"{"issue":{"number":19}}"#).unwrap();

    assert_eq!(
        validated.value,
        json(r#"{"issue": {"number": 19}}"#)
    );
}

#[test]
fn validates_last_outermost_object_when_response_has_trailing_prose() {
    let validated = validate_response_text(
        &issue_schema(),
        r#"ignore {"issue":{"number":1}} final {"issue":{"number":19}} trailing"#,
    )
    .unwrap();

    assert_eq!(
        validated.value,
        json(r#"{"issue": {"number": 19}}"#)
    );
}

#[test]
fn validates_last_parsable_object_when_trailing_prose_contains_braces() {
    let schema = schema(json(r#"{ "type": "object", "required": ["passed"], "properties": { "passed": { "type": "boolean" } } }"#));

    let validated = validate_response_text(
        &schema,
        "{\"passed\":true}\n\nLet me know if {this works} for you.",
    )
    .unwrap();

    assert_eq!(validated.value, json(r#"{"passed": true}"#));
}

#[test]
fn find_json_objects_returns_outermost_objects_only() {
    let cases = [
        (r#"{"a":{"b":1}}"#, vec![r#"{"a":{"b":1}}"#]),
        (r#"{"a":1} {"b":2}"#, vec![r#"{"a":1}"#, r#"{"b":2}"#]),
        (r#"{"a":1}{"b":2}"#, vec![r#"{"a":1}"#, r#"{"b":2}"#]),
        // An unclosed outer brace must not hide the complete object inside it.
        (r#"{ {"a":1}"#, vec![r#"{"a":1}"#]),
        (r#"{"a":1} {"#, vec![r#"{"a":1}"#]),
        // An unterminated string swallows the rest of its own candidate.
        (r#"{"a": "x} {"b":2}"#, vec![r#"{"b":2}"#]),
        // Braces inside strings are not delimiters.
        (r#"{"a":"} {"}"#, vec![r#"{"a":"} {"}"#]),
        ("no json here", vec![]),
    ];

    for (text, expected) in cases {
        assert_eq!(find_json_objects(text), expected, "input: {text}");
    }
}

#[test]
fn custom_schema_validation_errors_are_reported() {
    let schema = schema(json(r#"{ "type": "object", "required": ["passed"], "properties": { "passed": { "type": "boolean" } } }"#));

    let error = validate_response_text(&schema, r#"{"passed":"yes"}"#).unwrap_err();

    assert_eq!(error.kind(), StructuredOutputErrorKind::SchemaValidation);
    assert!(
        error
            .messages()
            .iter()
            .any(|message| message.contains("boolean")),
        "unexpected messages: {:?}",
        error.messages(),
    );
}

#[test]
fn missing_nested_property_reports_the_required_target_pointer() {
    let schema = schema(json(r#"{ "type": "object", "required": ["findings"], "properties": { "findings": { "type": "array", "items": { "type": "object", "required": ["rationale"], "properties": { "rationale": { "type": "string" } } } } } }"#));

    let error = validate_response_text(&schema, r#"{"findings":[{}]}"#).unwrap_err();

    assert_eq!(error.messages(), vec![
        "Missing required property \"rationale\" at JSON Pointer `/findings/0/rationale`. \
         Add it to the object at JSON Pointer `/findings/0`. Schema rule: JSON Pointer \
         `/properties/findings/items/required`."
            .to_string(),
    ],);
}

#[test]
fn type_and_enum_errors_report_instance_and_schema_pointers() {
    let schema = schema(json(r#"{ "type": "object", "properties": { "line": { "type": "integer" }, "severity": { "enum": ["HIGH", "MEDIUM", "LOW"] } } }"#));

    let error =
        validate_response_text(&schema, r#"{"line":"85","severity":"CRITICAL"}"#).unwrap_err();

    assert_eq!(error.messages(), vec![
        "At JSON Pointer `/line`: \"85\" is not of type \"integer\". \
         Schema rule: JSON Pointer `/properties/line/type`: \"integer\"."
            .to_string(),
        "At JSON Pointer `/severity`: \"CRITICAL\" is not one of \"HIGH\", \"MEDIUM\" or \
         \"LOW\". Schema rule: JSON Pointer `/properties/severity/enum`: \
         [\"HIGH\",\"MEDIUM\",\"LOW\"]."
            .to_string(),
    ],);
}

#[test]
fn additional_property_error_reports_each_property_pointer() {
    let schema = schema(json(r#"{ "type": "object", "additionalProperties": false, "properties": { "findings": { "type": "array" } } }"#));

    let error = validate_response_text(&schema, r#"{"findings":[],"rationale":"wrong level"}"#)
        .unwrap_err();

    assert_eq!(error.messages(), vec![
        "Unexpected properties in the object at the document root: \"rationale\" at \
         `/rationale`. Schema rule: JSON Pointer `/additionalProperties`."
            .to_string(),
    ],);
}

#[test]
fn repeated_schema_error_calls_out_the_unchanged_pointer() {
    let schema = schema(json(r#"{ "type": "object", "required": ["findings"], "properties": { "findings": { "type": "array", "items": { "type": "object", "required": ["rationale"] } } } }"#));
    let previous = validate_response_text(&schema, r#"{"findings":[{}]}"#).unwrap_err();
    let current = validate_response_text(&schema, r#"{"findings":[{}]}"#).unwrap_err();

    let repair = current.repair_message(&schema, Some(&previous));

    assert!(
        repair.contains(
            "At least one validation problem below is unchanged from your previous repair."
        ),
        "unexpected repair message: {repair}",
    );
    assert!(
        repair.contains("JSON Pointer `/findings/0/rationale`"),
        "unexpected repair message: {repair}",
    );
}

#[test]
fn the_same_unexpected_properties_in_a_new_order_are_still_unchanged() {
    let schema = schema(json(r#"{ "type": "object", "additionalProperties": false, "properties": { "findings": { "type": "array" } } }"#));
    let previous = validate_response_text(&schema, r#"{"beta":1,"alpha":1}"#).unwrap_err();
    let current = validate_response_text(&schema, r#"{"alpha":1,"beta":1}"#).unwrap_err();

    let repair = current.repair_message(&schema, Some(&previous));

    assert!(
        repair.contains("unchanged from your previous repair"),
        "unexpected repair message: {repair}",
    );
}

#[test]
fn a_different_problem_at_the_same_location_is_not_called_unchanged() {
    let schema = schema(json(r#"{ "type": "object", "additionalProperties": false, "properties": { "findings": { "type": "array" } } }"#));
    let previous = validate_response_text(&schema, r#"{"stray":1}"#).unwrap_err();
    let current = validate_response_text(&schema, r#"{"different":1}"#).unwrap_err();

    let repair = current.repair_message(&schema, Some(&previous));

    assert!(
        !repair.contains("unchanged from your previous repair"),
        "unexpected repair message: {repair}",
    );
}

#[test]
fn invalid_custom_schema_is_rejected_when_parsing_node_attr() {
    let mut node = Node::new("audit");
    node.attrs.insert(
        "output_schema".to_string(),
        AttrValue::String(r#"{"type": 5}"#.to_string()),
    );

    let error = parse_node_output_schema(&node).unwrap_err();

    match error {
        Error::Validation(text) => assert!(
            text.contains("Invalid output_schema"),
            "unexpected error: {text}",
        ),
        other => panic!("unexpected error: {other:?}"),
    }
}

#[test]
fn invalid_json_candidate_is_reported_for_custom_schema() {
    let schema = schema(json(r#"{"type": "object"}"#));

    let error = validate_response_text(&schema, r"{not json}").unwrap_err();

    assert_eq!(error.kind(), StructuredOutputErrorKind::InvalidJson);
    assert!(error.messages()[0].contains("invalid JSON object"));
}

#[test]
fn no_json_object_is_reported() {
    let error = validate_response_text(&routing(), "plain text only").unwrap_err();

    assert_eq!(error.kind(), StructuredOutputErrorKind::NoJsonObject);
    assert!(error.messages()[0].contains("no JSON object"));
}

#[test]
fn parse_node_output_schema_accepts_builtin_routing_keyword() {
    let mut node = Node::new("route");
    node.attrs.insert(
        "output_schema".to_string(),
        AttrValue::String("routing".to_string()),
    );

    let parsed = parse_node_output_schema(&node).unwrap();

    assert!(matches!(parsed, Some(OutputSchemaKind::Routing)));
}

#[test]
fn routing_agent_prompt_lists_routing_fields_instead_of_a_schema() {
    let prompt = OutputSchemaKind::Routing.agent_prompt("Pick the next step");

    assert!(prompt.starts_with("Pick the next step\n\n"));
    assert!(prompt.contains("Fabro final-output contract"));
    for field in routing_fields() {
        assert!(prompt.contains(&field), "{field} missing from: {prompt}");
    }
    assert!(
        !prompt.contains("<output_schema>"),
        "routing has no JSON Schema to embed, got: {prompt}"
    );
}

#[test]
fn json_schema_agent_prompt_embeds_the_resolved_schema() {
    let prompt = schema(json(r#"{"type": "object", "required": ["passed"]}"#))
        .agent_prompt("Audit the result");

    assert!(prompt.starts_with("Audit the result\n\n"));
    assert!(prompt.contains("<output_schema>"));
    assert!(prompt.contains(r#""required":["passed"]"#));
    assert!(prompt.contains("</output_schema>"));
}

#[test]
fn prompt_response_format_uses_json_schema_for_custom_schema() {
    let schema = schema(json(r#"{"type": "object"}"#));

    let format = prompt_response_format(&schema);

    assert_eq!(format.kind, ResponseFormatType::JsonSchema);
    assert_eq!(
        format.json_schema,
        Some(json(r#"{"type": "object"}"#))
    );
    assert!(format.strict);
}

#[test]
fn apply_validated_custom_output_updates_output_context_key() {
    let node = Node::new("audit");
    let schema = schema(json(r#"{"type": "object"}"#));
    let validated = ValidatedStructuredOutput {
        value: json(r#"{"passed": true}"#),
    };
    let mut outcome = Outcome::success();

    apply_validated_output(&node, &schema, &validated, &mut outcome);

    assert_eq!(
        outcome.context_updates.get("output.audit"),
        Some(&json(r#"{"passed": true}"#)),
    );
}

#[test]
fn schemas_that_do_not_compile_are_refused() {
    let outside = r#"{"allOf": [{"$ref": "http://a.example/x"}, {"$ref": "http://b.example/y"}]}"#;
    assert!(ValidSchema::compile(json(outside)).is_err());
    let kept = ValidSchema::compile(json(r#"{"type": "object"}"#)).unwrap();
    assert_eq!(kept.schema(), &json(r#"{"type": "object"}"#));

    let mut node = Node::new("prompt");
    node.attrs.insert(
        "output_schema".to_string(),
        AttrValue::String(outside.to_string()),
    );
    match parse_node_output_schema(&node) {
        Err(Error::Validation(message)) => {
            assert!(
                message.starts_with("Invalid output_schema for node \"prompt\": "),
                "{message}"
            );
        }
        other => panic!("expected a validation error, got {other:?}"),
    }
}
