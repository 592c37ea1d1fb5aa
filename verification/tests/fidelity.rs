use fabro_workflow::context::{fidelity, Context};
use fabro_workflow::graph::{AttrValue, Edge, Graph, Node};
use fabro_workflow::handler::branch::parse_branch_preambles;
use fabro_workflow::json::Json;
use fabro_workflow::keys;
use fabro_workflow::keys::Fidelity;
use fabro_workflow::lifecycle::fidelity::{
    explicit_fidelity, prepare_node, resolve_fidelity, resolve_parallel_branch_fidelity,
    resolve_thread_id, FidelityLifecycle, StageInputs,
};
use fabro_workflow::table::{Duplicate, Table};

fn str_attr(value: &str) -> AttrValue {
    AttrValue::String(value.to_string())
}

fn parallel_workflow_graph(
    fork_fidelity: Option<&str>,
    branch_a_fidelity: Option<&str>,
) -> Graph {
    let mut graph = Graph::new("parallel-fidelity");
    let mut start = Node::new("start");
    start
        .attrs
        .insert("shape".to_string(), str_attr("Mdiamond"));
    let mut fork = Node::new("fork");
    fork.attrs
        .insert("shape".to_string(), str_attr("component"));
    if let Some(fidelity) = fork_fidelity {
        fork.attrs
            .insert("fidelity".to_string(), str_attr(fidelity));
    }
    let mut branch_a = Node::new("branch_a");
    if let Some(fidelity) = branch_a_fidelity {
        branch_a
            .attrs
            .insert("fidelity".to_string(), str_attr(fidelity));
    }
    let branch_b = Node::new("branch_b");
    let mut work = Node::new("work");
    work.attrs.insert("shape".to_string(), str_attr("box"));

    graph.nodes.insert("start".to_string(), start);
    graph.nodes.insert("fork".to_string(), fork);
    graph.nodes.insert("branch_a".to_string(), branch_a);
    graph.nodes.insert("branch_b".to_string(), branch_b);
    graph.nodes.insert("work".to_string(), work);
    graph.edges.push(Edge::new("start", "fork"));
    graph.edges.push(Edge::new("fork", "branch_a"));
    graph.edges.push(Edge::new("fork", "branch_b"));
    graph
}

/// Begins and prepares a stage whose values are all held by the run itself.
fn before_node(lifecycle: &mut FidelityLifecycle, graph: &Graph, id: &str, context: &mut Context) {
    let node = graph.nodes.get(id).unwrap();
    let entry = lifecycle.begin_node(node, graph, context);
    let inputs = StageInputs {
        context: context.duplicate(),
        outcomes: Table::new(),
        completed_nodes: Vec::new(),
        previous_node_id: None,
        visits: None,
    };
    prepare_node(&entry, node, graph, &inputs, context);
}

#[test]
fn parallel_before_node_rebuilds_branch_preamble_stash() {
    let graph = parallel_workflow_graph(None, Some("truncate"));
    let mut lifecycle = FidelityLifecycle::new();
    let mut context: Context = Table::new();

    before_node(&mut lifecycle, &graph, "fork", &mut context);
    context.insert(
        keys::INTERNAL_PARALLEL_BRANCH_PREAMBLES.to_string(),
        Json::parse(r#"["stale", "entries", "must disappear"]"#).unwrap(),
    );
    before_node(&mut lifecycle, &graph, "fork", &mut context);

    let stash = context
        .get(keys::INTERNAL_PARALLEL_BRANCH_PREAMBLES)
        .expect("parallel stash should be set");
    let entries = stash.as_array().expect("parallel stash should be an array");
    assert_eq!(entries.len(), 2);
    assert!(entries[0].is_object());
    assert_eq!(entries[1], Json::Null);
}

#[test]
fn non_parallel_before_node_overwrites_branch_preamble_stash_with_null() {
    let graph = parallel_workflow_graph(None, Some("truncate"));
    let mut lifecycle = FidelityLifecycle::new();
    let mut context: Context = Table::new();

    before_node(&mut lifecycle, &graph, "fork", &mut context);
    before_node(&mut lifecycle, &graph, "work", &mut context);

    assert_eq!(
        context.get(keys::INTERNAL_PARALLEL_BRANCH_PREAMBLES),
        Some(&Json::Null)
    );
}

#[test]
fn resumed_full_fork_degrades_without_rendering_fallback_branches() {
    let graph = parallel_workflow_graph(Some("full"), None);
    let mut lifecycle = FidelityLifecycle::new();
    lifecycle.set_degrade_fidelity_on_resume(true);
    let mut context: Context = Table::new();

    before_node(&mut lifecycle, &graph, "fork", &mut context);

    assert_eq!(fidelity(&context), Fidelity::SummaryHigh);
    assert_eq!(
        context.get(keys::INTERNAL_PARALLEL_BRANCH_PREAMBLES),
        Some(&Json::Array(vec![Json::Null, Json::Null]))
    );
}

#[test]
fn parallel_branch_fidelity_edge_overrides_node() {
    let mut node = Node::new("branch");
    node.attrs
        .insert("fidelity".to_string(), str_attr("compact"));
    let mut edge = Edge::new("fork", "branch");
    edge.attrs
        .insert("fidelity".to_string(), str_attr("truncate"));

    let resolved = resolve_parallel_branch_fidelity(&edge, &node, Fidelity::SummaryHigh);

    assert_eq!(resolved.requested, Some(Fidelity::Truncate));
    assert_eq!(resolved.effective, Some(Fidelity::Truncate));
}

#[test]
fn parallel_branch_fidelity_without_attribute_inherits() {
    let node = Node::new("branch");
    let edge = Edge::new("fork", "branch");

    let resolution = resolve_parallel_branch_fidelity(&edge, &node, Fidelity::Compact);

    assert_eq!(resolution.requested, None);
    assert_eq!(resolution.effective, None);
}

#[test]
fn parallel_branch_full_fidelity_degrades_to_summary_high() {
    let mut node = Node::new("branch");
    node.attrs.insert("fidelity".to_string(), str_attr("full"));
    let edge = Edge::new("fork", "branch");

    let resolved = resolve_parallel_branch_fidelity(&edge, &node, Fidelity::Compact);

    assert_eq!(resolved.requested, Some(Fidelity::Full));
    assert_eq!(resolved.effective, Some(Fidelity::SummaryHigh));
}

#[test]
fn parallel_branch_fidelity_equal_to_fork_inherits() {
    let mut node = Node::new("branch");
    node.attrs
        .insert("fidelity".to_string(), str_attr("summary:high"));
    let edge = Edge::new("fork", "branch");

    let resolution = resolve_parallel_branch_fidelity(&edge, &node, Fidelity::SummaryHigh);

    assert_eq!(resolution.requested, Some(Fidelity::SummaryHigh));
    assert_eq!(resolution.effective, None);
}

#[test]
fn explicit_full_branch_equal_to_degraded_fork_inherits() {
    let mut node = Node::new("branch");
    node.attrs.insert("fidelity".to_string(), str_attr("full"));
    let edge = Edge::new("fork", "branch");

    let resolution = resolve_parallel_branch_fidelity(&edge, &node, Fidelity::SummaryHigh);

    assert_eq!(resolution.requested, Some(Fidelity::Full));
    assert_eq!(resolution.effective, None);
}

#[test]
fn full_fork_without_branch_fidelity_does_not_create_entry() {
    let node = Node::new("branch");
    let edge = Edge::new("fork", "branch");

    let resolution = resolve_parallel_branch_fidelity(&edge, &node, Fidelity::Full);

    assert_eq!(resolution.requested, None);
    assert_eq!(resolution.effective, None);
}

#[test]
fn fidelity_defaults_to_compact() {
    let node = Node::new("work");
    let graph = Graph::new("test");
    assert_eq!(resolve_fidelity(None, &node, &graph), Fidelity::Compact);
}

#[test]
fn fidelity_from_graph_default() {
    let node = Node::new("work");
    let mut graph = Graph::new("test");
    graph.attrs.insert(
        "default_fidelity".to_string(),
        AttrValue::String("truncate".to_string()),
    );
    assert_eq!(resolve_fidelity(None, &node, &graph), Fidelity::Truncate);
}

#[test]
fn fidelity_from_node_overrides_graph() {
    let mut node = Node::new("work");
    node.attrs.insert(
        "fidelity".to_string(),
        AttrValue::String("full".to_string()),
    );
    let mut graph = Graph::new("test");
    graph.attrs.insert(
        "default_fidelity".to_string(),
        AttrValue::String("truncate".to_string()),
    );
    assert_eq!(resolve_fidelity(None, &node, &graph), Fidelity::Full);
}

#[test]
fn fidelity_from_edge_overrides_node() {
    let mut node = Node::new("work");
    node.attrs.insert(
        "fidelity".to_string(),
        AttrValue::String("full".to_string()),
    );
    let mut edge = Edge::new("a", "work");
    edge.attrs.insert(
        "fidelity".to_string(),
        AttrValue::String("summary:high".to_string()),
    );
    let graph = Graph::new("test");
    assert_eq!(
        resolve_fidelity(Some(&edge), &node, &graph),
        Fidelity::SummaryHigh
    );
}

#[test]
fn thread_id_from_node_attribute() {
    let mut node = Node::new("work");
    node.attrs.insert(
        "thread_id".to_string(),
        AttrValue::String("main-thread".to_string()),
    );
    let graph = Graph::new("test");
    assert_eq!(
        resolve_thread_id(None, &node, &graph, Some("prev")),
        Some("main-thread".to_string())
    );
}

#[test]
fn thread_id_from_edge_attribute() {
    let node = Node::new("work");
    let mut edge = Edge::new("prev", "work");
    edge.attrs.insert(
        "thread_id".to_string(),
        AttrValue::String("edge-thread".to_string()),
    );
    let graph = Graph::new("test");
    assert_eq!(
        resolve_thread_id(Some(&edge), &node, &graph, Some("prev")),
        Some("edge-thread".to_string())
    );
}

#[test]
fn thread_id_node_used_when_no_edge_thread() {
    let mut node = Node::new("work");
    node.attrs.insert(
        "thread_id".to_string(),
        AttrValue::String("node-thread".to_string()),
    );
    let edge = Edge::new("prev", "work");
    let graph = Graph::new("test");
    assert_eq!(
        resolve_thread_id(Some(&edge), &node, &graph, Some("prev")),
        Some("node-thread".to_string())
    );
}

#[test]
fn thread_id_edge_overrides_node() {
    let mut node = Node::new("work");
    node.attrs.insert(
        "thread_id".to_string(),
        AttrValue::String("node-thread".to_string()),
    );
    let mut edge = Edge::new("prev", "work");
    edge.attrs.insert(
        "thread_id".to_string(),
        AttrValue::String("edge-thread".to_string()),
    );
    let graph = Graph::new("test");
    assert_eq!(
        resolve_thread_id(Some(&edge), &node, &graph, Some("prev")),
        Some("edge-thread".to_string()),
        "edge thread_id should override node thread_id"
    );
}

#[test]
fn thread_id_from_graph_default_thread() {
    let node = Node::new("work");
    let mut graph = Graph::new("test");
    graph.attrs.insert(
        "default_thread".to_string(),
        AttrValue::String("shared-thread".to_string()),
    );
    assert_eq!(
        resolve_thread_id(None, &node, &graph, Some("prev")),
        Some("shared-thread".to_string())
    );
}

#[test]
fn thread_id_edge_overrides_graph_default() {
    let node = Node::new("work");
    let mut edge = Edge::new("prev", "work");
    edge.attrs.insert(
        "thread_id".to_string(),
        AttrValue::String("edge-thread".to_string()),
    );
    let mut graph = Graph::new("test");
    graph.attrs.insert(
        "default_thread".to_string(),
        AttrValue::String("shared-thread".to_string()),
    );
    assert_eq!(
        resolve_thread_id(Some(&edge), &node, &graph, Some("prev")),
        Some("edge-thread".to_string())
    );
}

#[test]
fn thread_id_graph_default_overrides_class() {
    let mut node = Node::new("work");
    node.classes = vec!["planning".to_string()];
    let mut graph = Graph::new("test");
    graph.attrs.insert(
        "default_thread".to_string(),
        AttrValue::String("shared-thread".to_string()),
    );
    assert_eq!(
        resolve_thread_id(None, &node, &graph, Some("prev")),
        Some("shared-thread".to_string())
    );
}

#[test]
fn thread_id_from_node_class() {
    let mut node = Node::new("work");
    node.classes = vec!["planning".to_string(), "review".to_string()];
    let graph = Graph::new("test");
    assert_eq!(
        resolve_thread_id(None, &node, &graph, Some("prev")),
        Some("planning".to_string())
    );
}

#[test]
fn thread_id_fallback_to_previous_node() {
    let node = Node::new("work");
    let graph = Graph::new("test");
    assert_eq!(
        resolve_thread_id(None, &node, &graph, Some("prev_node")),
        Some("prev_node".to_string())
    );
}

#[test]
fn thread_id_none_when_no_sources() {
    let node = Node::new("start");
    let graph = Graph::new("test");
    assert_eq!(resolve_thread_id(None, &node, &graph, None), None);
}

#[test]
fn degradation_on_resume_serves_one_stage() {
    let mut graph = parallel_workflow_graph(None, None);
    graph
        .attrs
        .insert("default_fidelity".to_string(), str_attr("full"));
    let mut lifecycle = FidelityLifecycle::new();
    lifecycle.set_degrade_fidelity_on_resume(true);
    let mut context: Context = Table::new();

    before_node(&mut lifecycle, &graph, "work", &mut context);
    assert_eq!(fidelity(&context), Fidelity::SummaryHigh);
    before_node(&mut lifecycle, &graph, "work", &mut context);
    assert_eq!(fidelity(&context), Fidelity::Full);
}

#[test]
fn incoming_edge_serves_one_stage_and_no_restart() {
    let graph = parallel_workflow_graph(None, None);
    let mut edge = Edge::new("start", "work");
    edge.attrs
        .insert("fidelity".to_string(), str_attr("truncate"));
    edge.attrs.insert("thread_id".to_string(), str_attr("main"));
    let mut lifecycle = FidelityLifecycle::new();
    let mut context: Context = Table::new();

    lifecycle.on_edge_selected(Some(&edge));
    before_node(&mut lifecycle, &graph, "work", &mut context);
    assert_eq!(fidelity(&context), Fidelity::Truncate);
    assert_eq!(
        context.get(keys::INTERNAL_THREAD_ID),
        Some(&Json::from_str("main"))
    );
    assert_eq!(
        context.get("thread.main.current_node"),
        Some(&Json::from_str("work"))
    );

    before_node(&mut lifecycle, &graph, "work", &mut context);
    assert_eq!(fidelity(&context), Fidelity::Compact);
    assert_eq!(context.get(keys::INTERNAL_THREAD_ID), Some(&Json::Null));

    lifecycle.on_edge_selected(Some(&edge));
    lifecycle.on_run_start();
    before_node(&mut lifecycle, &graph, "work", &mut context);
    assert_eq!(fidelity(&context), Fidelity::Compact);
}

#[test]
fn stage_is_placed_in_its_context() {
    let graph = parallel_workflow_graph(None, None);
    let node = graph.nodes.get("work").unwrap();
    let mut lifecycle = FidelityLifecycle::new();
    let mut context: Context = Table::new();
    let entry = lifecycle.begin_node(node, &graph, &mut context);
    let inputs = StageInputs {
        context: context.duplicate(),
        outcomes: Table::new(),
        completed_nodes: Vec::new(),
        previous_node_id: Some("fork".to_string()),
        visits: Some(3),
    };
    prepare_node(&entry, node, &graph, &inputs, &mut context);
    assert_eq!(
        context.get(keys::CURRENT_NODE),
        Some(&Json::from_str("work"))
    );
    assert_eq!(
        context.get(keys::INTERNAL_NODE_VISIT_COUNT),
        Some(&Json::from_u64(3))
    );
    assert_eq!(
        context.get(keys::INTERNAL_THREAD_ID),
        Some(&Json::from_str("fork"))
    );
    assert_eq!(
        context.get(keys::INTERNAL_FIDELITY),
        Some(&Json::from_str("compact"))
    );
}

#[test]
fn stash_reads_back_as_it_was_rendered() {
    let graph = parallel_workflow_graph(None, Some("truncate"));
    let mut lifecycle = FidelityLifecycle::new();
    let mut context: Context = Table::new();
    context.insert(keys::INTERNAL_RUN_ID.to_string(), Json::from_str("run-1"));
    before_node(&mut lifecycle, &graph, "fork", &mut context);
    let entries =
        parse_branch_preambles(context.get(keys::INTERNAL_PARALLEL_BRANCH_PREAMBLES), 2, false)
            .expect("the stash fits the branches");
    let first = entries[0].as_ref().expect("the first branch has its own");
    assert_eq!(first.fidelity, Fidelity::Truncate);
    assert_eq!(first.preamble, "Goal: \nRun ID: run-1\n");
    assert!(entries[1].is_none());
}

#[test]
fn one_fidelity_is_rendered_alike_for_every_branch() {
    let mut graph = parallel_workflow_graph(None, Some("truncate"));
    let mut second = Edge::new("fork", "branch_b");
    second
        .attrs
        .insert("fidelity".to_string(), str_attr("truncate"));
    graph.edges.push(second);
    let mut dangling = Edge::new("fork", "nowhere");
    dangling
        .attrs
        .insert("fidelity".to_string(), str_attr("truncate"));
    graph.edges.push(dangling);
    let mut lifecycle = FidelityLifecycle::new();
    let mut context: Context = Table::new();
    before_node(&mut lifecycle, &graph, "fork", &mut context);
    let stash = context
        .get(keys::INTERNAL_PARALLEL_BRANCH_PREAMBLES)
        .unwrap()
        .as_array()
        .unwrap();
    assert_eq!(stash.len(), 4);
    assert_eq!(stash[0], stash[2]);
    assert_eq!(stash[1], Json::Null);
    assert_eq!(stash[3], Json::Null);
}

#[test]
fn explicit_fidelity_names_its_source() {
    let mut node = Node::new("work");
    node.attrs
        .insert("fidelity".to_string(), str_attr("summary:low"));
    let mut edge = Edge::new("a", "work");
    assert_eq!(
        explicit_fidelity(Some(&edge), &node),
        Some((Fidelity::SummaryLow, "node"))
    );
    edge.attrs
        .insert("fidelity".to_string(), str_attr("no such fidelity"));
    assert_eq!(
        explicit_fidelity(Some(&edge), &node),
        Some((Fidelity::SummaryLow, "node"))
    );
    edge.attrs
        .insert("fidelity".to_string(), str_attr("summary:medium"));
    assert_eq!(
        explicit_fidelity(Some(&edge), &node),
        Some((Fidelity::SummaryMedium, "edge"))
    );
    assert_eq!(explicit_fidelity(None, &Node::new("bare")), None);
}
