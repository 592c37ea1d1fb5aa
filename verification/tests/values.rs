use fabro_workflow::context::{context_diff_public, get_text, run_id, Context};
use fabro_workflow::graph::{AttrValue, Edge, Graph, Node};
use fabro_workflow::json::{object_of, Json};
use fabro_workflow::keys;
use fabro_workflow::keys::Fidelity;
use fabro_workflow::order::{sort_texts, TextSet};
use fabro_workflow::outcome::StageOutcome;
use fabro_workflow::table::{Duplicate, Table};
use fabro_workflow::text::{
    decimal_i64, hex_string, joined, lines_of, lower_string, parsed_u64, trimmed,
};

fn texts(values: &[&str]) -> Vec<String> {
    values.iter().map(|v| v.to_string()).collect()
}

#[test]
fn json_is_read_and_written() {
    let value = Json::parse(r#" {"b": [1, 2.5, null], "a": {"x": true}} "#).unwrap();
    assert_eq!(value.get("a").unwrap().get("x"), Some(&Json::Bool(true)));
    assert_eq!(
        value.get("b").unwrap().as_array().unwrap()[0].as_u64(),
        Some(1)
    );
    assert_eq!(Json::parse("[1]").unwrap().render(), "[1]");
    assert_eq!(
        Json::parse("[1]").unwrap().render_pretty(),
        "[\n  1\n]"
    );
    assert!(Json::parse("{not json}").is_err());
}

#[test]
fn json_is_found_by_pointer() {
    let value = Json::parse(r#"{"a": [{"b": "c"}]}"#).unwrap();
    assert_eq!(value.pointer("/a/0/b"), Some(Json::from_str("c")));
    assert_eq!(value.pointer("/a/1"), None);
    assert_eq!(value.pointer(""), Some(value.duplicate()));
}

#[test]
fn json_objects_are_equal_in_any_order() {
    let first = Json::parse(r#"{"a": 1, "b": 2}"#).unwrap();
    let second = Json::parse(r#"{"b": 2, "a": 1}"#).unwrap();
    assert!(first.equals(&second));
    assert!(!first.equals(&Json::Null));
    let mut table: Table<Json> = Table::new();
    table.insert("b".to_string(), Json::from_u64(2));
    table.insert("a".to_string(), Json::from_u64(1));
    assert!(object_of(&table).equals(&first));
}

#[test]
fn repeated_keys_stand_for_their_last_value() {
    let value = Json::Object(vec![
        ("k".to_string(), Json::from_u64(1)),
        ("k".to_string(), Json::from_u64(2)),
    ]);
    assert_eq!(value.get("k"), Some(&Json::from_u64(2)));
    assert_eq!(value.render(), r#"{"k":2}"#);
}

#[test]
fn tables_keep_their_keys_in_order() {
    let mut table: Table<u64> = Table::new();
    assert!(table.is_empty());
    for (key, value) in [("b", 1), ("a", 2), ("b", 3)] {
        table.insert(key.to_string(), value);
    }
    assert_eq!(table.keys(), texts(&["a", "b"]));
    assert_eq!(table.get("b"), Some(&3));
    assert_eq!(table.remove("a"), Some(2));
    assert_eq!(table.remove("a"), None);
    let mut other: Table<u64> = Table::new();
    other.insert("c".to_string(), 4);
    other.insert("b".to_string(), 5);
    table.extend(&other);
    assert_eq!(table.get("b"), Some(&5));
    assert_eq!(table.keys(), texts(&["b", "c"]));
}

#[test]
fn texts_are_ordered_by_their_characters() {
    assert_eq!(
        sort_texts(&texts(&["b", "", "ab", "a", "b"])),
        texts(&["", "a", "ab", "b", "b"])
    );
    let mut set = TextSet::new();
    assert!(set.insert("b".to_string()));
    assert!(set.insert("a".to_string()));
    assert!(!set.insert("b".to_string()));
    assert_eq!(set.to_vec(), texts(&["a", "b"]));
}

#[test]
fn texts_are_taken_apart_and_put_together() {
    assert_eq!(trimmed("\u{a0} a b\t\n"), "a b");
    assert_eq!(lines_of("a\r\nb\n\nc"), texts(&["a", "b", "", "c"]));
    assert_eq!(joined(&texts(&["a", "b"]), ", "), "a, b");
    assert_eq!(lower_string("\u{c9}AbC"), "\u{c9}abc");
    assert_eq!(decimal_i64(i64::MIN), "-9223372036854775808");
    assert_eq!(hex_string(255, 4), "00ff");
    assert_eq!(parsed_u64("+18446744073709551615"), Some(u64::MAX));
    assert_eq!(parsed_u64("18446744073709551616"), None);
    assert_eq!(parsed_u64("+"), None);
}

#[test]
fn names_read_back() {
    for fidelity in [
        Fidelity::Full,
        Fidelity::Truncate,
        Fidelity::Compact,
        Fidelity::SummaryLow,
        Fidelity::SummaryMedium,
        Fidelity::SummaryHigh,
    ] {
        assert_eq!(Fidelity::parse(fidelity.as_str()), Some(fidelity));
        assert_ne!(fidelity.degraded(), Fidelity::Full);
    }
    assert_eq!(Fidelity::parse("summary"), None);
    assert_eq!(Fidelity::default(), Fidelity::Compact);
    assert_eq!(
        StageOutcome::parse("failed"),
        Some(StageOutcome::Failed {
            retry_requested: false
        })
    );
    assert_eq!(StageOutcome::parse("done"), None);
}

#[test]
fn graphs_answer_for_their_parts() {
    let mut graph = Graph::new("g");
    graph.edges.push(Edge::new("a", "b"));
    graph.edges.push(Edge::new("c", "d"));
    graph.edges.push(Edge::new("a", "e"));
    assert_eq!(
        graph
            .outgoing_edges("a")
            .iter()
            .map(|e| e.to.as_str())
            .collect::<Vec<_>>(),
        ["b", "e"]
    );
    let mut node = Node::new("n");
    assert_eq!(node.handler_type(), Some("agent"));
    assert_eq!(node.prompt_or_label(), "n");
    node.attrs.insert(
        "shape".to_string(),
        AttrValue::String("no such shape".to_string()),
    );
    assert_eq!(node.handler_type(), None);
    assert_eq!(AttrValue::Duration(1500).to_string_value(), "1500ms");
    assert_eq!(AttrValue::Integer(-1).to_string_value(), "-1");
    assert_eq!(AttrValue::Boolean(true).to_string_value(), "true");
}

#[test]
fn contexts_differ_by_their_public_values() {
    let mut before: Context = Table::new();
    before.insert("a".to_string(), Json::from_u64(1));
    let mut after = before.duplicate();
    after.insert("b".to_string(), Json::from_str("x"));
    after.insert(keys::INTERNAL_RUN_ID.to_string(), Json::from_str("run"));
    let diff = context_diff_public(&before, &after);
    assert_eq!(diff.keys(), texts(&["b"]));
    assert_eq!(get_text(&diff, "b"), Some("x"));
    assert_eq!(run_id(&after), "run");
    assert_eq!(run_id(&before), "unknown");
}
