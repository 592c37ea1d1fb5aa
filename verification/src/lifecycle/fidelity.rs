//! How much context each stage receives, and the thread that it belongs to.
use crate::context::{Context, Values};
use crate::graph::{Edge, EdgeView, Graph, GraphView, Node, NodeView};
use crate::handler::branch::{branch_preambles, stash_entry, stashed, PreambleView};
use crate::handler::llm::preamble::{build_preamble, preamble, Outcomes};
use crate::json::{array_view, json_view, lemma_array_view, object_view, Json, JsonView};
use crate::keys::{
    fidelity_named, lemma_fidelity_round_trip, thread_current_node_key, Fidelity, CURRENT_NODE,
    CURRENT_PREAMBLE, INTERNAL_FIDELITY, INTERNAL_NODE_VISIT_COUNT,
    INTERNAL_PARALLEL_BRANCH_PREAMBLES, INTERNAL_THREAD_ID, THREAD_PREFIX,
};
use crate::outcome::Outcome;
use crate::table::{Duplicate, Table};
use crate::text::{decimal, same};
use vstd::prelude::*;
use vstd::string::*;

verus! {

/// The fidelity that an attribute names.
pub open spec fn attr_fidelity(text: Option<Seq<char>>) -> Option<Fidelity> {
    match text {
        Some(name) => fidelity_named(name),
        None => None,
    }
}

fn fidelity_of_attr(text: Option<&str>) -> (r: Option<Fidelity>)
    ensures
        r == attr_fidelity(text.deep_view()),
{
    match text {
        Some(name) => Fidelity::parse(name),
        None => None,
    }
}

/// The fidelity that an edge asks for.
pub open spec fn edge_fidelity(edge: Option<EdgeView>) -> Option<Fidelity> {
    match edge {
        Some(e) => attr_fidelity(e.text("fidelity"@)),
        None => None,
    }
}

/// The fidelity that the incoming edge asks for, else the node's own.
pub open spec fn explicit(edge: Option<EdgeView>, node: NodeView) -> Option<Fidelity> {
    match edge_fidelity(edge) {
        Some(f) => Some(f),
        None => attr_fidelity(node.text("fidelity"@)),
    }
}

/// The fidelity that the incoming edge asks for, else the node's own, and which
/// of the two it came from.
pub fn explicit_fidelity(incoming_edge: Option<&Edge>, node: &Node) -> (r: Option<
    (Fidelity, &'static str),
>)
    ensures
        match r {
            Some((f, source)) => explicit(incoming_edge.deep_view(), node@) == Some(f)
                && source@ == if edge_fidelity(incoming_edge.deep_view()) is Some {
                "edge"@
            } else {
                "node"@
            },
            None => explicit(incoming_edge.deep_view(), node@) is None,
        },
{
    let asked = match incoming_edge {
        Some(edge) => fidelity_of_attr(edge.text("fidelity")),
        None => None,
    };
    match asked {
        Some(f) => Some((f, "edge")),
        None => match fidelity_of_attr(node.text("fidelity")) {
            Some(f) => Some((f, "node")),
            None => None,
        },
    }
}

/// The fidelity of a stage: that of the incoming edge, else the node's own, else
/// the graph's default, else compact.
pub open spec fn resolved_fidelity(
    edge: Option<EdgeView>,
    node: NodeView,
    graph: GraphView,
) -> Fidelity {
    match explicit(edge, node) {
        Some(f) => f,
        None => match attr_fidelity(graph.text("default_fidelity"@)) {
            Some(f) => f,
            None => Fidelity::Compact,
        },
    }
}

pub fn resolve_fidelity(incoming_edge: Option<&Edge>, node: &Node, graph: &Graph) -> (r: Fidelity)
    ensures
        r == resolved_fidelity(incoming_edge.deep_view(), node@, graph@),
{
    match explicit_fidelity(incoming_edge, node) {
        Some((f, _)) => f,
        None => match fidelity_of_attr(graph.text("default_fidelity")) {
            Some(f) => f,
            None => Fidelity::default(),
        },
    }
}

/// The thread of a stage: that of the incoming edge, else the node's own, else
/// the graph's default, else the node's first class, else the previous node.
pub open spec fn thread(
    edge: Option<EdgeView>,
    node: NodeView,
    graph: GraphView,
    previous: Option<Seq<char>>,
) -> Option<Seq<char>> {
    if edge is Some && edge->0.text("thread_id"@) is Some {
        edge->0.text("thread_id"@)
    } else if node.text("thread_id"@) is Some {
        node.text("thread_id"@)
    } else if graph.text("default_thread"@) is Some {
        graph.text("default_thread"@)
    } else if node.classes.len() > 0 {
        Some(node.classes[0])
    } else {
        previous
    }
}

pub fn resolve_thread_id(
    incoming_edge: Option<&Edge>,
    node: &Node,
    graph: &Graph,
    previous_node_id: Option<&str>,
) -> (r: Option<String>)
    ensures
        r.deep_view() == thread(
            incoming_edge.deep_view(),
            node@,
            graph@,
            previous_node_id.deep_view(),
        ),
{
    if let Some(edge) = incoming_edge {
        if let Some(id) = edge.text("thread_id") {
            return Some(id.to_owned());
        }
    }
    if let Some(id) = node.text("thread_id") {
        return Some(id.to_owned());
    }
    if let Some(id) = graph.text("default_thread") {
        return Some(id.to_owned());
    }
    if node.classes.len() > 0 {
        assert(node@.classes[0] == node.classes@[0]@);
        return Some(node.classes[0].clone());
    }
    match previous_node_id {
        Some(id) => Some(id.to_owned()),
        None => None,
    }
}

/// The fidelity of one branch of a parallel node.
#[derive(Clone, Copy, Debug, PartialEq, Eq, Structural)]
pub struct ParallelBranchFidelityResolution {
    /// What the edge or the node asks for.
    pub requested: Option<Fidelity>,
    /// What to render for the branch; without one it keeps the context of the
    /// fork.
    pub effective: Option<Fidelity>,
}

/// The fidelity of one branch. Branches run side by side and share no session,
/// so full fidelity is degraded. A branch without a fidelity of its own, or with
/// that of the fork, keeps the context of the fork.
pub open spec fn branch_fidelity(
    edge: EdgeView,
    target: NodeView,
    fork: Fidelity,
) -> ParallelBranchFidelityResolution {
    let requested = explicit(Some(edge), target);
    ParallelBranchFidelityResolution {
        requested,
        effective: match requested {
            Some(f) => if f.degrade() != fork {
                Some(f.degrade())
            } else {
                None
            },
            None => None,
        },
    }
}

pub fn resolve_parallel_branch_fidelity(
    edge: &Edge,
    target_node: &Node,
    parallel_fidelity: Fidelity,
) -> (r: ParallelBranchFidelityResolution)
    ensures
        r == branch_fidelity(edge@, target_node@, parallel_fidelity),
{
    let requested = match explicit_fidelity(Some(edge), target_node) {
        Some((f, _)) => Some(f),
        None => None,
    };
    let effective = match requested {
        Some(f) => {
            let degraded = f.degraded();
            if degraded != parallel_fidelity {
                Some(degraded)
            } else {
                None
            }
        },
        None => None,
    };
    ParallelBranchFidelityResolution { requested, effective }
}

/// What the stash says of a branch.
pub open spec fn entry_value(entry: Option<PreambleView>) -> JsonView {
    match entry {
        Some(p) => JsonView::Object(
            Map::empty().insert("fidelity"@, JsonView::Str(p.fidelity.name())).insert(
                "preamble"@,
                JsonView::Str(p.preamble),
            ),
        ),
        None => JsonView::Null,
    }
}

/// What is rendered for the branch behind an edge.
pub open spec fn edge_entry(
    edge: EdgeView,
    fork: Fidelity,
    values: Values,
    graph: GraphView,
    completed: Seq<Seq<char>>,
    outcomes: Outcomes,
) -> Option<PreambleView> {
    if graph.nodes.contains_key(edge.to) {
        match branch_fidelity(edge, graph.nodes[edge.to], fork).effective {
            Some(f) => Some(
                PreambleView {
                    fidelity: f,
                    preamble: preamble(f, values, graph, completed, outcomes),
                },
            ),
            None => None,
        }
    } else {
        None
    }
}

/// What is rendered for the branches of a node, in the order of its edges.
pub open spec fn branch_entries(
    node_id: Seq<char>,
    fork: Fidelity,
    values: Values,
    graph: GraphView,
    completed: Seq<Seq<char>>,
    outcomes: Outcomes,
) -> Seq<Option<PreambleView>> {
    graph.outgoing(node_id).map_values(
        |e: EdgeView| edge_entry(e, fork, values, graph, completed, outcomes),
    )
}

/// The stash of a parallel node.
pub open spec fn branch_stash(
    node_id: Seq<char>,
    fork: Fidelity,
    values: Values,
    graph: GraphView,
    completed: Seq<Seq<char>>,
    outcomes: Outcomes,
) -> Seq<JsonView> {
    branch_entries(node_id, fork, values, graph, completed, outcomes).map_values(
        |e: Option<PreambleView>| entry_value(e),
    )
}

fn entry_json(fidelity: Fidelity, text: String) -> (r: Json)
    ensures
        r@ == entry_value(Some(PreambleView { fidelity, preamble: text@ })),
{
    let mut entries: Vec<(String, Json)> = Vec::new();
    entries.push(("fidelity".to_owned(), Json::from_str(fidelity.as_str())));
    entries.push(("preamble".to_owned(), Json::Str(text)));
    proof {
        let first = entries@.drop_last();
        assert(first.drop_last() =~= Seq::empty());
        assert(object_view(first.drop_last()) == Map::<Seq<char>, JsonView>::empty());
        assert(object_view(first) == object_view(first.drop_last()).insert(
            "fidelity"@,
            JsonView::Str(fidelity.name()),
        ));
        assert(json_view(entries@.last().1) == JsonView::Str(text@));
        assert(object_view(entries@) == object_view(first).insert(
            "preamble"@,
            JsonView::Str(text@),
        ));
    }
    Json::Object(entries)
}

/// Renders the stash of a parallel node. A fidelity is rendered once.
pub fn build_parallel_branch_preambles(
    graph: &Graph,
    node_id: &str,
    fork_fidelity: Fidelity,
    resolved_context: &Context,
    resolved_outcomes: &Table<Outcome>,
    completed_nodes: &Vec<String>,
) -> (r: Vec<Json>)
    ensures
        r.deep_view() == branch_stash(
            node_id@,
            fork_fidelity,
            resolved_context@,
            graph@,
            completed_nodes.deep_view(),
            resolved_outcomes@,
        ),
{
    let edges = graph.outgoing_edges(node_id);
    let mut preambles: Vec<Json> = Vec::new();
    let mut rendered: Vec<(Fidelity, usize)> = Vec::new();
    let ghost all = edges.deep_view();
    let ghost completed = completed_nodes.deep_view();
    let ghost model = branch_stash(
        node_id@,
        fork_fidelity,
        resolved_context@,
        graph@,
        completed,
        resolved_outcomes@,
    );
    let mut i: usize = 0;
    assert(preambles.deep_view() =~= model.take(0));
    while i < edges.len()
        invariant
            i <= edges@.len(),
            all == edges.deep_view(),
            all == graph@.outgoing(node_id@),
            completed == completed_nodes.deep_view(),
            model == branch_stash(
                node_id@,
                fork_fidelity,
                resolved_context@,
                graph@,
                completed,
                resolved_outcomes@,
            ),
            preambles@.len() == i,
            preambles.deep_view() == model.take(i as int),
            forall|k: int|
                0 <= k < rendered@.len() ==> {
                    let (f, at) = #[trigger] rendered@[k];
                    at < i && model[at as int] == entry_value(
                        Some(
                            PreambleView {
                                fidelity: f,
                                preamble: preamble(
                                    f,
                                    resolved_context@,
                                    graph@,
                                    completed,
                                    resolved_outcomes@,
                                ),
                            },
                        ),
                    )
                },
            forall|j: int, k: int|
                0 <= j < k < rendered@.len() ==> (#[trigger] rendered@[j]).0 != (
                #[trigger] rendered@[k]).0,
        decreases edges@.len() - i,
    {
        assert(all[i as int] == edges@[i as int]@);
        assert(model[i as int] == entry_value(
            edge_entry(
                all[i as int],
                fork_fidelity,
                resolved_context@,
                graph@,
                completed,
                resolved_outcomes@,
            ),
        ));
        let ghost had = preambles.deep_view();
        let edge = &edges[i];
        let effective = match graph.nodes.get(edge.to.as_str()) {
            Some(target) => resolve_parallel_branch_fidelity(edge, target, fork_fidelity).effective,
            None => None,
        };
        let entry = match effective {
            None => Json::Null,
            Some(fidelity) => match rendered_at(&rendered, fidelity) {
                Some(k) => {
                    let at: usize = rendered[k].1;
                    assert(preambles.deep_view()[at as int] == preambles@[at as int]@);
                    preambles[at].duplicate()
                },
                None => {
                    rendered.push((fidelity, i));
                    entry_json(
                        fidelity,
                        build_preamble(
                            fidelity,
                            resolved_context,
                            graph,
                            completed_nodes,
                            resolved_outcomes,
                        ),
                    )
                },
            },
        };
        assert(entry@ == model[i as int]);
        preambles.push(entry);
        assert(preambles.deep_view() =~= had.push(model[i as int]));
        i += 1;
        assert(preambles.deep_view() =~= model.take(i as int));
    }
    assert(model.take(i as int) =~= model);
    preambles
}

/// The first place where a fidelity was rendered; none exactly where it was not.
fn rendered_at(rendered: &Vec<(Fidelity, usize)>, fidelity: Fidelity) -> (r: Option<usize>)
    ensures
        match r {
            Some(k) => k < rendered@.len() && rendered@[k as int].0 == fidelity && forall|j: int|
                0 <= j < k ==> (#[trigger] rendered@[j]).0 != fidelity,
            None => forall|j: int|
                0 <= j < rendered@.len() ==> (#[trigger] rendered@[j]).0 != fidelity,
        },
{
    let mut k: usize = 0;
    while k < rendered.len()
        invariant
            k <= rendered@.len(),
            forall|j: int| 0 <= j < k ==> (#[trigger] rendered@[j]).0 != fidelity,
        decreases rendered@.len() - k,
    {
        if rendered[k].0 == fidelity {
            return Some(k);
        }
        k += 1;
    }
    None
}

/// What a stage was resolved to before its context was prepared.
#[derive(Debug, PartialEq)]
pub struct StageEntry {
    pub fidelity: Fidelity,
    pub incoming_edge: Option<Edge>,
}

/// Resolves the fidelity and the thread of each stage.
pub struct FidelityLifecycle {
    incoming_edge: Option<Edge>,
    degrade_on_resume: bool,
}

impl FidelityLifecycle {
    /// The edge that led to the next stage.
    pub closed spec fn incoming(&self) -> Option<EdgeView> {
        self.incoming_edge.deep_view()
    }

    /// Whether the next stage is the first after a resume from full fidelity.
    pub closed spec fn degrades(&self) -> bool {
        self.degrade_on_resume
    }

    pub fn new() -> (r: Self)
        ensures
            r.incoming() is None,
            !r.degrades(),
    {
        FidelityLifecycle { incoming_edge: None, degrade_on_resume: false }
    }

    pub fn set_degrade_fidelity_on_resume(&mut self, flag: bool)
        ensures
            final(self).incoming() == old(self).incoming(),
            final(self).degrades() == flag,
    {
        self.degrade_on_resume = flag;
    }

    /// A run starts, or starts again: its first stage has no incoming edge.
    pub fn on_run_start(&mut self)
        ensures
            final(self).incoming() is None,
            final(self).degrades() == old(self).degrades(),
    {
        self.incoming_edge = None;
    }

    /// Keeps the edge that leads to the next stage.
    pub fn on_edge_selected(&mut self, edge: Option<&Edge>)
        ensures
            final(self).incoming() == match edge {
                Some(e) => Some(e@),
                None => old(self).incoming(),
            },
            final(self).degrades() == old(self).degrades(),
    {
        if let Some(edge) = edge {
            self.incoming_edge = Some(edge.duplicate());
        }
    }

    /// Resolves the fidelity of a stage and notes it in the context, in which a
    /// stash of an earlier stage is cleared. The incoming edge and the
    /// degradation on resume serve one stage.
    pub fn begin_node(&mut self, node: &Node, graph: &Graph, context: &mut Context) -> (r:
        StageEntry)
        ensures
            r.incoming_edge.deep_view() == old(self).incoming(),
            r.fidelity == begun_fidelity(
                old(self).incoming(),
                old(self).degrades(),
                node@,
                graph@,
            ),
            final(context)@ == begun(old(context)@, r.fidelity),
            final(self).incoming() is None,
            !final(self).degrades(),
    {
        context.insert(INTERNAL_PARALLEL_BRANCH_PREAMBLES.to_owned(), Json::Null);
        let incoming_edge = self.incoming_edge.take();
        let resolved = match &incoming_edge {
            Some(edge) => resolve_fidelity(Some(edge), node, graph),
            None => resolve_fidelity(None, node, graph),
        };
        let fidelity = if self.degrade_on_resume {
            self.degrade_on_resume = false;
            resolved.degraded()
        } else {
            resolved
        };
        context.insert(INTERNAL_FIDELITY.to_owned(), Json::from_str(fidelity.as_str()));
        StageEntry { fidelity, incoming_edge }
    }
}

/// The fidelity of a stage, degraded where it is the first after a resume.
pub open spec fn begun_fidelity(
    edge: Option<EdgeView>,
    degrades: bool,
    node: NodeView,
    graph: GraphView,
) -> Fidelity {
    if degrades {
        resolved_fidelity(edge, node, graph).degrade()
    } else {
        resolved_fidelity(edge, node, graph)
    }
}

/// A context once the fidelity of a stage is noted in it.
pub open spec fn begun(values: Values, fidelity: Fidelity) -> Values {
    values.insert(INTERNAL_PARALLEL_BRANCH_PREAMBLES@, JsonView::Null).insert(
        INTERNAL_FIDELITY@,
        JsonView::Str(fidelity.name()),
    )
}

/// Where a run stands when a stage begins. Values kept outside the run are
/// resolved in it.
#[derive(Debug, PartialEq)]
pub struct StageInputs {
    pub context: Context,
    pub outcomes: Table<Outcome>,
    pub completed_nodes: Vec<String>,
    pub previous_node_id: Option<String>,
    /// How often the stage was visited, where that is known.
    pub visits: Option<usize>,
}

pub struct InputsView {
    pub values: Values,
    pub outcomes: Outcomes,
    pub completed_nodes: Seq<Seq<char>>,
    pub previous_node_id: Option<Seq<char>>,
    pub visits: Option<usize>,
}

impl View for StageInputs {
    type V = InputsView;

    open spec fn view(&self) -> InputsView {
        InputsView {
            values: self.context@,
            outcomes: self.outcomes@,
            completed_nodes: self.completed_nodes.deep_view(),
            previous_node_id: self.previous_node_id.deep_view(),
            visits: self.visits,
        }
    }
}

/// A context with the account that a stage starts from and, for a parallel
/// node, the stash of its branches.
pub open spec fn told(
    values: Values,
    fidelity: Fidelity,
    node: NodeView,
    graph: GraphView,
    inputs: InputsView,
) -> Values {
    let account = values.insert(
        CURRENT_PREAMBLE@,
        JsonView::Str(
            preamble(fidelity, inputs.values, graph, inputs.completed_nodes, inputs.outcomes),
        ),
    );
    if node.handler_type() == Some("parallel"@) {
        account.insert(
            INTERNAL_PARALLEL_BRANCH_PREAMBLES@,
            JsonView::Array(
                branch_stash(
                    node.id,
                    fidelity,
                    inputs.values,
                    graph,
                    inputs.completed_nodes,
                    inputs.outcomes,
                ),
            ),
        )
    } else {
        account
    }
}

/// A context that says where the run is.
pub open spec fn placed(
    values: Values,
    node_id: Seq<char>,
    thread_id: Option<Seq<char>>,
    visits: Option<usize>,
) -> Values {
    let threaded = match thread_id {
        Some(id) => values.insert(
            THREAD_PREFIX@ + id + ".current_node"@,
            JsonView::Str(node_id),
        ).insert(INTERNAL_THREAD_ID@, JsonView::Str(id)),
        None => values.insert(INTERNAL_THREAD_ID@, JsonView::Null),
    };
    threaded.insert(CURRENT_NODE@, JsonView::Str(node_id)).insert(
        INTERNAL_NODE_VISIT_COUNT@,
        JsonView::Number(
            decimal(
                (match visits {
                    Some(n) => n,
                    None => 1,
                }) as nat,
            ),
        ),
    )
}

/// Prepares the context of a stage that [`FidelityLifecycle::begin_node`] has
/// begun.
pub fn prepare_node(
    entry: &StageEntry,
    node: &Node,
    graph: &Graph,
    inputs: &StageInputs,
    context: &mut Context,
)
    ensures
        final(context)@ == placed(
            told(old(context)@, entry.fidelity, node@, graph@, inputs@),
            node@.id,
            thread(entry.incoming_edge.deep_view(), node@, graph@, inputs@.previous_node_id),
            inputs.visits,
        ),
{
    let text = build_preamble(
        entry.fidelity,
        &inputs.context,
        graph,
        &inputs.completed_nodes,
        &inputs.outcomes,
    );
    context.insert(CURRENT_PREAMBLE.to_owned(), Json::Str(text));
    let parallel = match node.handler_type() {
        Some(t) => same(t, "parallel"),
        None => false,
    };
    if parallel {
        let stash = build_parallel_branch_preambles(
            graph,
            node.id.as_str(),
            entry.fidelity,
            &inputs.context,
            &inputs.outcomes,
            &inputs.completed_nodes,
        );
        proof {
            lemma_array_view(stash@);
            assert(array_view(stash@) =~= stash.deep_view());
        }
        context.insert(INTERNAL_PARALLEL_BRANCH_PREAMBLES.to_owned(), Json::Array(stash));
    }
    let previous = match &inputs.previous_node_id {
        Some(id) => Some(id.as_str()),
        None => None,
    };
    let thread_id = match &entry.incoming_edge {
        Some(edge) => resolve_thread_id(Some(edge), node, graph, previous),
        None => resolve_thread_id(None, node, graph, previous),
    };
    match thread_id {
        Some(id) => {
            context.insert(
                thread_current_node_key(id.as_str()),
                Json::Str(node.id.clone()),
            );
            context.insert(INTERNAL_THREAD_ID.to_owned(), Json::Str(id));
        },
        None => {
            context.insert(INTERNAL_THREAD_ID.to_owned(), Json::Null);
        },
    }
    let visits: usize = match inputs.visits {
        Some(n) => n,
        None => 1,
    };
    context.insert(CURRENT_NODE.to_owned(), Json::Str(node.id.clone()));
    context.insert(INTERNAL_NODE_VISIT_COUNT.to_owned(), Json::from_u64(visits as u64));
}

/// A fidelity on the incoming edge settles that of the stage.
pub proof fn lemma_edge_fidelity_wins(edge: EdgeView, node: NodeView, graph: GraphView, f: Fidelity)
    requires
        attr_fidelity(edge.text("fidelity"@)) == Some(f),
    ensures
        resolved_fidelity(Some(edge), node, graph) == f,
{
}

/// No branch of a parallel node runs at full fidelity on its own account, and
/// none is rendered for the fidelity of the fork.
pub proof fn lemma_branches_share_no_session(edge: EdgeView, target: NodeView, fork: Fidelity)
    ensures
        branch_fidelity(edge, target, fork).effective != Some(Fidelity::Full),
        branch_fidelity(edge, target, fork).effective != Some(fork),
{
}

/// The first stage after a resume does not run at full fidelity.
pub proof fn lemma_resume_shares_no_session(
    edge: Option<EdgeView>,
    node: NodeView,
    graph: GraphView,
)
    ensures
        begun_fidelity(edge, true, node, graph) != Fidelity::Full,
{
}

/// A stage that is not parallel finds no stash of an earlier stage.
pub proof fn lemma_stash_is_cleared(
    values: Values,
    fidelity: Fidelity,
    node: NodeView,
    graph: GraphView,
    inputs: InputsView,
    thread_id: Option<Seq<char>>,
)
    requires
        node.handler_type() != Some("parallel"@),
    ensures
        stashed(
            placed(
                told(begun(values, fidelity), fidelity, node, graph, inputs),
                node.id,
                thread_id,
                inputs.visits,
            ),
        ) == Some(JsonView::Null),
{
    reveal_strlit("internal.parallel_branch_preambles");
    reveal_strlit("internal.fidelity");
    reveal_strlit("internal.thread_id");
    reveal_strlit("internal.node_visit_count");
    reveal_strlit("current.preamble");
    reveal_strlit("current_node");
    reveal_strlit("thread.");
    if let Some(id) = thread_id {
        assert((THREAD_PREFIX@ + id + ".current_node"@)[0] == 't');
        assert(INTERNAL_PARALLEL_BRANCH_PREAMBLES@[0] == 'i');
    }
    assert(INTERNAL_PARALLEL_BRANCH_PREAMBLES@.len() == 34);
    assert(INTERNAL_FIDELITY@.len() == 17);
    assert(INTERNAL_THREAD_ID@.len() == 18);
    assert(CURRENT_PREAMBLE@.len() == 16);
    assert(CURRENT_NODE@.len() == 12);
    assert(INTERNAL_NODE_VISIT_COUNT@.len() == 25);
}

/// What the stash says of a branch reads back as what was rendered for it.
pub proof fn lemma_entry_reads_back(entry: Option<PreambleView>)
    ensures
        stash_entry(entry_value(entry)) == Some(entry),
{
    if let Some(p) = entry {
        lemma_fidelity_round_trip(p.fidelity);
        reveal_strlit("fidelity");
        reveal_strlit("preamble");
        assert("fidelity"@[0] != "preamble"@[0]);
    }
}

/// The stash that a parallel node finds in its context gives each branch what
/// was rendered for the branch's edge.
pub proof fn lemma_stash_is_read_back(
    values: Values,
    fidelity: Fidelity,
    node: NodeView,
    graph: GraphView,
    inputs: InputsView,
    thread_id: Option<Seq<char>>,
    for_each: bool,
)
    requires
        node.handler_type() == Some("parallel"@),
    ensures
        branch_preambles(
            stashed(
                placed(
                    told(values, fidelity, node, graph, inputs),
                    node.id,
                    thread_id,
                    inputs.visits,
                ),
            ),
            graph.outgoing(node.id).len(),
            for_each,
        ) == Some(
            branch_entries(
                node.id,
                fidelity,
                inputs.values,
                graph,
                inputs.completed_nodes,
                inputs.outcomes,
            ),
        ),
{
    let entries = branch_entries(
        node.id,
        fidelity,
        inputs.values,
        graph,
        inputs.completed_nodes,
        inputs.outcomes,
    );
    let stash = branch_stash(
        node.id,
        fidelity,
        inputs.values,
        graph,
        inputs.completed_nodes,
        inputs.outcomes,
    );
    let now = placed(
        told(values, fidelity, node, graph, inputs),
        node.id,
        thread_id,
        inputs.visits,
    );
    reveal_strlit("internal.parallel_branch_preambles");
    reveal_strlit("internal.thread_id");
    reveal_strlit("current_node");
    reveal_strlit("internal.node_visit_count");
    reveal_strlit("thread.");
    if let Some(id) = thread_id {
        assert((THREAD_PREFIX@ + id + ".current_node"@)[0] == 't');
        assert(INTERNAL_PARALLEL_BRANCH_PREAMBLES@[0] == 'i');
    }
    assert(INTERNAL_PARALLEL_BRANCH_PREAMBLES@.len() == 34);
    assert(INTERNAL_THREAD_ID@.len() == 18);
    assert(CURRENT_NODE@.len() == 12);
    assert(INTERNAL_NODE_VISIT_COUNT@.len() == 25);
    assert(stashed(now) == Some(JsonView::Array(stash)));
    assert forall|i: int| 0 <= i < stash.len() implies stash_entry(#[trigger] stash[i]) == Some(
        entries[i],
    ) by {
        lemma_entry_reads_back(entries[i]);
    }
    if for_each && stash.len() == 1 {
        assert(Seq::new(1, |i: int| entries[0]) =~= entries);
    } else {
        assert(stash.map_values(|v: JsonView| stash_entry(v).unwrap()) =~= entries);
    }
}

/// A stage runs at the first fidelity that is named for it: by the edge that led
/// to it, by the node, by the graph for all nodes, else at the compact one. A name
/// that is no fidelity is passed over like a missing one.
pub proof fn lemma_the_nearest_fidelity_counts(
    edge: Option<EdgeView>,
    node: NodeView,
    graph: GraphView,
)
    ensures
        ({
            let named = |text: Option<Seq<char>>|
                match text {
                    Some(name) => fidelity_named(name),
                    None => None,
                };
            let by_edge = match edge {
                Some(e) => named(e.text("fidelity"@)),
                None => None,
            };
            let by_node = named(node.text("fidelity"@));
            let by_graph = named(graph.text("default_fidelity"@));
            let r = resolved_fidelity(edge, node, graph);
            &&& by_edge matches Some(f) ==> r == f
            &&& by_edge is None ==> (by_node matches Some(f) ==> r == f)
            &&& by_edge is None && by_node is None ==> (by_graph matches Some(f) ==> r == f)
            &&& by_edge is None && by_node is None && by_graph is None ==> r == Fidelity::Compact
        }),
{
}

/// A stage runs at the fidelity it was resolved to, but for the first stage after
/// a resume: that one runs at a detailed summary where it was resolved to full
/// fidelity, and as resolved otherwise.
pub proof fn lemma_only_full_fidelity_is_degraded_on_resume(
    edge: Option<EdgeView>,
    degrades: bool,
    node: NodeView,
    graph: GraphView,
)
    ensures
        begun_fidelity(edge, degrades, node, graph) == if degrades && resolved_fidelity(
            edge,
            node,
            graph,
        ) == Fidelity::Full {
            Fidelity::SummaryHigh
        } else {
            resolved_fidelity(edge, node, graph)
        },
{
}

/// A stage belongs to the first thread that is named for it: by the edge that led
/// to it, by the node, by the graph for all nodes, by the node's first class, else
/// to that of the stage before it.
pub proof fn lemma_the_nearest_thread_counts(
    edge: Option<EdgeView>,
    node: NodeView,
    graph: GraphView,
    previous: Option<Seq<char>>,
)
    ensures
        ({
            let r = thread(edge, node, graph, previous);
            let by_edge = edge matches Some(e) && e.text("thread_id"@) is Some;
            let by_node = node.text("thread_id"@) is Some;
            let by_graph = graph.text("default_thread"@) is Some;
            &&& edge matches Some(e) ==> (e.text("thread_id"@) matches Some(id) ==> r == Some(id))
            &&& !by_edge ==> (node.text("thread_id"@) matches Some(id) ==> r == Some(id))
            &&& !by_edge && !by_node ==> (graph.text("default_thread"@) matches Some(id) ==> r
                == Some(id))
            &&& !by_edge && !by_node && !by_graph && node.classes.len() > 0 ==> r == Some(
                node.classes[0],
            )
            &&& !by_edge && !by_node && !by_graph && node.classes.len() == 0 ==> r == previous
        }),
{
}

/// Every outgoing edge of a parallel node has its place in the stash, in the order
/// of the edges. A branch gets an account of its own exactly where its node exists
/// and the edge, or else the node, asks for a fidelity that is not the fork's once
/// full fidelity is taken as a detailed summary; it is the account of that
/// fidelity.
pub proof fn lemma_branches_get_the_account_they_ask_for(
    node_id: Seq<char>,
    fork: Fidelity,
    values: Values,
    graph: GraphView,
    completed: Seq<Seq<char>>,
    outcomes: Outcomes,
    i: int,
)
    requires
        0 <= i < graph.outgoing(node_id).len(),
    ensures
        ({
            let all = branch_entries(node_id, fork, values, graph, completed, outcomes);
            let edge = graph.outgoing(node_id)[i];
            let target = graph.nodes[edge.to];
            let named = |text: Option<Seq<char>>|
                match text {
                    Some(name) => fidelity_named(name),
                    None => None,
                };
            let asked = match named(edge.text("fidelity"@)) {
                Some(f) => Some(f),
                None => named(target.text("fidelity"@)),
            };
            let shared = match asked {
                Some(Fidelity::Full) => Some(Fidelity::SummaryHigh),
                _ => asked,
            };
            &&& all.len() == graph.outgoing(node_id).len()
            &&& all[i] is Some <==> graph.nodes.contains_key(edge.to) && shared is Some && shared
                != Some(fork)
            &&& all[i] matches Some(p) ==> {
                &&& Some(p.fidelity) == shared
                &&& p.preamble == preamble(p.fidelity, values, graph, completed, outcomes)
            }
        }),
{
}

/// The context of a stage names its fidelity, its account, its node, its thread
/// and its visit, and the node under its thread; a parallel node finds the stash of
/// its branches, any other none. Every other value is as it was.
pub proof fn lemma_stage_contexts_say_where_the_run_is(
    values: Values,
    fidelity: Fidelity,
    node: NodeView,
    graph: GraphView,
    inputs: InputsView,
    thread_id: Option<Seq<char>>,
    key: Seq<char>,
)
    ensures
        ({
            let now = placed(
                told(begun(values, fidelity), fidelity, node, graph, inputs),
                node.id,
                thread_id,
                inputs.visits,
            );
            &&& now.contains_key("internal.fidelity"@) && now["internal.fidelity"@]
                == JsonView::Str(fidelity.name())
            &&& now.contains_key("current.preamble"@) && now["current.preamble"@] == JsonView::Str(
                preamble(
                    fidelity,
                    inputs.values,
                    graph,
                    inputs.completed_nodes,
                    inputs.outcomes,
                ),
            )
            &&& now.contains_key("current_node"@) && now["current_node"@] == JsonView::Str(node.id)
            &&& now.contains_key("internal.thread_id"@) && now["internal.thread_id"@]
                == match thread_id {
                Some(id) => JsonView::Str(id),
                None => JsonView::Null,
            }
            &&& now.contains_key("internal.node_visit_count"@)
            &&& inputs.visits matches Some(n) ==> now["internal.node_visit_count"@]
                == JsonView::Number(decimal(n as nat))
            &&& inputs.visits is None ==> now["internal.node_visit_count"@] == JsonView::Number(
                decimal(1),
            )
            &&& thread_id matches Some(id) ==> now.contains_key(
                "thread."@ + id + ".current_node"@,
            ) && now["thread."@ + id + ".current_node"@] == JsonView::Str(node.id)
            &&& now.contains_key("internal.parallel_branch_preambles"@)
            &&& now["internal.parallel_branch_preambles"@] is Array <==> node.handler_type()
                == Some("parallel"@)
            &&& node.handler_type() != Some("parallel"@)
                ==> now["internal.parallel_branch_preambles"@] == JsonView::Null
            &&& !"internal."@.is_prefix_of(key) && !"current"@.is_prefix_of(key)
                && !"thread."@.is_prefix_of(key) ==> {
                &&& now.contains_key(key) == values.contains_key(key)
                &&& now[key] == values[key]
            }
        }),
{
    reveal_strlit("internal.");
    reveal_strlit("current");
    reveal_strlit("internal.parallel_branch_preambles");
    reveal_strlit("internal.fidelity");
    reveal_strlit("internal.thread_id");
    reveal_strlit("internal.node_visit_count");
    reveal_strlit("current.preamble");
    reveal_strlit("current_node");
    reveal_strlit("thread.");
    assert("internal."@ =~= "internal.parallel_branch_preambles"@.take(9));
    assert("internal."@ =~= "internal.fidelity"@.take(9));
    assert("internal."@ =~= "internal.thread_id"@.take(9));
    assert("internal."@ =~= "internal.node_visit_count"@.take(9));
    assert("current"@ =~= "current.preamble"@.take(7));
    assert("current"@ =~= "current_node"@.take(7));
    if let Some(id) = thread_id {
        let place = "thread."@ + id + ".current_node"@;
        assert("thread."@ =~= place.take(7));
        assert(place[0] == 't');
    }
    assert("internal.parallel_branch_preambles"@.len() == 34);
    assert("internal.fidelity"@.len() == 17);
    assert("internal.thread_id"@.len() == 18);
    assert("current.preamble"@.len() == 16);
    assert("current_node"@.len() == 12);
    assert("internal.node_visit_count"@.len() == 25);
    assert("internal.parallel_branch_preambles"@[0] == 'i');
    assert("internal.fidelity"@[0] == 'i');
    assert("internal.thread_id"@[0] == 'i');
    assert("internal.node_visit_count"@[0] == 'i');
    assert("current.preamble"@[0] == 'c');
    assert("current_node"@[0] == 'c');
}


} // verus!
