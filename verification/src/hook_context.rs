//! What a hook is told.
use crate::graph::{Node, NodeView};
use vstd::prelude::*;
use vstd::string::*;

verus! {

/// When a hook runs.
#[derive(Clone, Copy, Debug, PartialEq, Eq, Structural)]
pub enum HookEvent {
    RunStart,
    StageStart,
    StageComplete,
    StageFailed,
    ParallelStart,
    ParallelComplete,
    EdgeSelected,
    CheckpointSaved,
    RunComplete,
    RunFailed,
}

/// What a hook is told.
#[derive(Debug, PartialEq)]
pub struct HookContext {
    pub event: HookEvent,
    pub run_id: String,
    pub graph_name: String,
    pub cwd: Option<String>,
    pub node_id: Option<String>,
    pub node_label: Option<String>,
    pub handler_type: Option<String>,
    pub status: Option<String>,
    pub failure_reason: Option<String>,
    pub attempt: Option<usize>,
    pub max_attempts: Option<usize>,
    pub edge_from: Option<String>,
    pub edge_to: Option<String>,
    pub edge_label: Option<String>,
}

pub struct HookContextView {
    pub event: HookEvent,
    pub run_id: Seq<char>,
    pub graph_name: Seq<char>,
    pub cwd: Option<Seq<char>>,
    pub node_id: Option<Seq<char>>,
    pub node_label: Option<Seq<char>>,
    pub handler_type: Option<Seq<char>>,
    pub status: Option<Seq<char>>,
    pub failure_reason: Option<Seq<char>>,
    pub attempt: Option<usize>,
    pub max_attempts: Option<usize>,
    pub edge_from: Option<Seq<char>>,
    pub edge_to: Option<Seq<char>>,
    pub edge_label: Option<Seq<char>>,
}

impl View for HookContext {
    type V = HookContextView;

    open spec fn view(&self) -> HookContextView {
        HookContextView {
            event: self.event,
            run_id: self.run_id@,
            graph_name: self.graph_name@,
            cwd: self.cwd.deep_view(),
            node_id: self.node_id.deep_view(),
            node_label: self.node_label.deep_view(),
            handler_type: self.handler_type.deep_view(),
            status: self.status.deep_view(),
            failure_reason: self.failure_reason.deep_view(),
            attempt: self.attempt,
            max_attempts: self.max_attempts,
            edge_from: self.edge_from.deep_view(),
            edge_to: self.edge_to.deep_view(),
            edge_label: self.edge_label.deep_view(),
        }
    }
}

impl DeepView for HookContext {
    type V = HookContextView;

    open spec fn deep_view(&self) -> HookContextView {
        self@
    }
}

/// What a hook is told of a run alone.
pub open spec fn hook_context(event: HookEvent, run_id: Seq<char>, graph_name: Seq<char>) -> HookContextView {
    HookContextView {
        event,
        run_id,
        graph_name,
        cwd: None,
        node_id: None,
        node_label: None,
        handler_type: None,
        status: None,
        failure_reason: None,
        attempt: None,
        max_attempts: None,
        edge_from: None,
        edge_to: None,
        edge_label: None,
    }
}

impl HookContextView {
    /// The same, told of a node.
    pub open spec fn with_node(self, node: NodeView) -> HookContextView {
        HookContextView {
            node_id: Some(node.id),
            node_label: Some(node.label()),
            handler_type: node.handler_type(),
            ..self
        }
    }
}

impl HookContext {
    pub fn new(event: HookEvent, run_id: &str, graph_name: &str) -> (r: Self)
        ensures
            r@ == hook_context(event, run_id@, graph_name@),
    {
        HookContext {
            event,
            run_id: run_id.to_owned(),
            graph_name: graph_name.to_owned(),
            cwd: None,
            node_id: None,
            node_label: None,
            handler_type: None,
            status: None,
            failure_reason: None,
            attempt: None,
            max_attempts: None,
            edge_from: None,
            edge_to: None,
            edge_label: None,
        }
    }
}

/// Fills in what a hook is told of a node.
pub fn set_hook_node(ctx: &mut HookContext, node: &Node)
    ensures
        final(ctx)@ == old(ctx)@.with_node(node@),
{
    ctx.node_id = Some(node.id.clone());
    ctx.node_label = Some(node.label().to_owned());
    ctx.handler_type = match node.handler_type() {
        Some(t) => Some(t.to_owned()),
        None => None,
    };
}

/// Telling a hook of a node adds its name, its label and its handler, and changes
/// nothing that was told before; telling it of another node leaves nothing of the
/// first.
pub proof fn lemma_hooks_are_told_of_one_node(c: HookContextView, first: NodeView, node: NodeView)
    ensures
        ({
            let told = c.with_node(node);
            &&& told.node_id == Some(node.id)
            &&& told.node_label == Some(node.label())
            &&& told.handler_type == node.handler_type()
            &&& told.event == c.event && told.run_id == c.run_id && told.graph_name == c.graph_name
            &&& told.cwd == c.cwd && told.status == c.status
            &&& told.failure_reason == c.failure_reason
            &&& told.attempt == c.attempt && told.max_attempts == c.max_attempts
            &&& told.edge_from == c.edge_from && told.edge_to == c.edge_to
            &&& told.edge_label == c.edge_label
            &&& c.with_node(first).with_node(node) == told
        }),
{
}

/// A hook is told when it runs, of which run and of which graph, and of nothing
/// else to begin with.
pub proof fn lemma_hooks_are_told_of_their_run(event: HookEvent, run: Seq<char>, graph: Seq<char>)
    ensures
        ({
            let c = hook_context(event, run, graph);
            &&& c.event == event && c.run_id == run && c.graph_name == graph
            &&& c.node_id is None && c.node_label is None && c.handler_type is None
            &&& c.cwd is None && c.status is None && c.failure_reason is None
            &&& c.attempt is None && c.max_attempts is None
            &&& c.edge_from is None && c.edge_to is None && c.edge_label is None
        }),
{
}

} // verus!
