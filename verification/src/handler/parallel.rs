//! Which branches a parallel node runs.
use crate::graph::{get_integer, integer_attr, is_llm, is_llm_handler_type, Graph, GraphView, Node, NodeView};
use crate::handler::branch_item::{item_label, label_of};
use crate::json::{array_view, lemma_array_view, Json, JsonView};
use crate::outcome::{failure, FailureCategory, Outcome, OutcomeView};
use crate::table::Duplicate;
use crate::text::{decimal, decimal_string, trim, trimmed};
use vstd::prelude::*;
use vstd::string::*;

verus! {

/// Fans execution out to several branches.
pub struct ParallelHandler;

/// Most items that one `for_each` node fans out over.
pub const MAX_FOR_EACH_ITEMS: usize = 1_000;

/// One branch to run.
#[derive(Debug, PartialEq)]
pub struct BranchWorkItem {
    pub index: usize,
    pub target_id: String,
    pub item: Option<Json>,
    pub item_label: Option<String>,
}

pub struct WorkItemView {
    pub index: nat,
    pub target_id: Seq<char>,
    pub item: Option<JsonView>,
    pub item_label: Option<Seq<char>>,
}

impl View for BranchWorkItem {
    type V = WorkItemView;

    open spec fn view(&self) -> WorkItemView {
        WorkItemView {
            index: self.index as nat,
            target_id: self.target_id@,
            item: self.item.deep_view(),
            item_label: self.item_label.deep_view(),
        }
    }
}

impl DeepView for BranchWorkItem {
    type V = WorkItemView;

    open spec fn deep_view(&self) -> WorkItemView {
        self@
    }
}

/// The branches to run. A `for_each` plan names the one node that every branch
/// runs.
#[derive(Debug, PartialEq)]
pub struct BranchPlan {
    pub work_items: Vec<BranchWorkItem>,
    pub template_target_id: Option<String>,
}

pub struct PlanView {
    pub work_items: Seq<WorkItemView>,
    pub template_target_id: Option<Seq<char>>,
}

impl View for BranchPlan {
    type V = PlanView;

    open spec fn view(&self) -> PlanView {
        PlanView {
            work_items: self.work_items.deep_view(),
            template_target_id: self.template_target_id.deep_view(),
        }
    }
}

impl DeepView for BranchPlan {
    type V = PlanView;

    open spec fn deep_view(&self) -> PlanView {
        self@
    }
}

impl PlanView {
    pub open spec fn for_each(self) -> bool {
        self.template_target_id is Some
    }
}

impl BranchPlan {
    pub fn is_for_each(&self) -> (r: bool)
        ensures
            r == self@.for_each(),
    {
        self.template_target_id.is_some()
    }
}

/// Where the branches of a node come from.
#[derive(Debug, PartialEq)]
pub enum BranchSource {
    /// One branch for each outgoing edge.
    Edges,
    /// One branch of `target_id` for each item of the array at `source`.
    Items { source: String, target_id: String },
}

pub enum SourceView {
    Edges,
    Items { source: Seq<char>, target_id: Seq<char> },
}

impl View for BranchSource {
    type V = SourceView;

    open spec fn view(&self) -> SourceView {
        match self {
            BranchSource::Edges => SourceView::Edges,
            BranchSource::Items { source, target_id } => SourceView::Items {
                source: source@,
                target_id: target_id@,
            },
        }
    }
}

/// What a look at a `for_each` source gave.
#[derive(Debug, PartialEq)]
pub enum Resolution {
    Found(Json),
    Missing,
    Failed(String),
}

pub enum ResolutionView {
    Found(JsonView),
    Missing,
    Failed(Seq<char>),
}

impl View for Resolution {
    type V = ResolutionView;

    open spec fn view(&self) -> ResolutionView {
        match self {
            Resolution::Found(v) => ResolutionView::Found(v@),
            Resolution::Missing => ResolutionView::Missing,
            Resolution::Failed(s) => ResolutionView::Failed(s@),
        }
    }
}

/// A failure that no further attempt will mend.
pub open spec fn refused(reason: Seq<char>) -> OutcomeView {
    failure(reason, FailureCategory::Deterministic)
}

/// Where the branches of a node come from, or why it cannot run.
pub open spec fn source_of(node: NodeView, graph: GraphView) -> Result<SourceView, Seq<char>> {
    let edges = graph.outgoing(node.id);
    if !node.attrs.contains_key("for_each"@) {
        Ok(SourceView::Edges)
    } else {
        match node.text("for_each"@) {
            Some(source) => if trim(source).len() == 0 {
                Err("for_each parallel node '"@ + node.id + "' requires a non-empty string source"@)
            } else if edges.len() != 1 {
                Err(
                    "for_each parallel node '"@ + node.id
                        + "' requires exactly one template edge"@,
                )
            } else if !graph.nodes.contains_key(edges[0].to) {
                Err("for_each template target node not found: "@ + edges[0].to)
            } else if !is_llm(graph.nodes[edges[0].to].handler_type()) {
                Err(
                    "for_each template target '"@ + edges[0].to
                        + "' must be an agent or prompt node"@,
                )
            } else if graph.nodes[edges[0].to].attrs.contains_key("for_each"@) {
                Err("nested for_each execution is not supported"@)
            } else {
                Ok(SourceView::Items { source, target_id: edges[0].to })
            },
            None => Err(
                "for_each parallel node '"@ + node.id + "' requires a non-empty string source"@,
            ),
        }
    }
}

/// Whether `r` is a value with the given model, or the refusal for the given
/// reason.
pub open spec fn granted<T: View>(r: Result<T, Outcome>, model: Result<T::V, Seq<char>>) -> bool {
    match model {
        Ok(v) => r matches Ok(x) && x@ == v,
        Err(reason) => r matches Err(outcome) && outcome@ == refused(reason),
    }
}

fn around(lead: &str, text: &str, tail: &str) -> (s: String)
    ensures
        s@ == lead@ + text@ + tail@,
{
    let mut s = lead.to_owned();
    s.append(text);
    s.append(tail);
    s
}

/// Where the branches of a node come from. A mistake in the graph's shape is
/// refused.
pub fn branch_source(node: &Node, graph: &Graph) -> (r: Result<BranchSource, Outcome>)
    ensures
        granted(r, source_of(node@, graph@)),
{
    let edges = graph.outgoing_edges(node.id.as_str());
    if !node.attrs.contains_key("for_each") {
        return Ok(BranchSource::Edges);
    }
    let source = match node.text("for_each") {
        Some(source) if !trimmed(source).as_str().is_empty() => source,
        _ => {
            return Err(
                Outcome::fail_deterministic(
                    around(
                        "for_each parallel node '",
                        node.id.as_str(),
                        "' requires a non-empty string source",
                    ).as_str(),
                ),
            );
        },
    };
    if edges.len() != 1 {
        return Err(
            Outcome::fail_deterministic(
                around(
                    "for_each parallel node '",
                    node.id.as_str(),
                    "' requires exactly one template edge",
                ).as_str(),
            ),
        );
    }
    let ghost all = graph@.outgoing(node@.id);
    assert(all[0] == edges@[0]@);
    let target_id = edges[0].to.as_str();
    let target = match graph.nodes.get(target_id) {
        Some(target) => target,
        None => {
            return Err(
                Outcome::fail_deterministic(
                    crate::keys::concat("for_each template target node not found: ", target_id).as_str(),
                ),
            );
        },
    };
    if !is_llm_handler_type(target.handler_type()) {
        return Err(
            Outcome::fail_deterministic(
                around(
                    "for_each template target '",
                    target_id,
                    "' must be an agent or prompt node",
                ).as_str(),
            ),
        );
    }
    if target.attrs.contains_key("for_each") {
        return Err(Outcome::fail_deterministic("nested for_each execution is not supported"));
    }
    Ok(BranchSource::Items { source: source.to_owned(), target_id: target_id.to_owned() })
}

/// Stands for one item in a dry run, where the real array does not exist yet.
pub open spec fn placeholder_item() -> JsonView {
    JsonView::Object(map!["name"@ => JsonView::Str("dry-run item"@)])
}

pub fn dry_run_placeholder_item() -> (r: Json)
    ensures
        r@ == placeholder_item(),
{
    let mut entries: Vec<(String, Json)> = Vec::new();
    entries.push(("name".to_owned(), Json::from_str("dry-run item")));
    proof {
        reveal_with_fuel(crate::json::object_view, 2);
        assert(crate::json::object_view(entries@) =~= map!["name"@ => JsonView::Str("dry-run item"@)]);
    }
    Json::Object(entries)
}

/// The items that a source gives, or why it gives none. A dry run stands one
/// item in for a source that is absent or unusable.
pub open spec fn items_of(source: Seq<char>, resolved: ResolutionView, simulated: bool) -> Result<
    Seq<JsonView>,
    Seq<char>,
> {
    match resolved {
        ResolutionView::Found(JsonView::Array(items)) => if items.len() > MAX_FOR_EACH_ITEMS {
            Err(
                "for_each source '"@ + source + "' resolved to "@ + decimal(items.len())
                    + " items, above the limit of "@ + decimal(MAX_FOR_EACH_ITEMS as nat)
                    + ". Filter the array in the node that produces it, or split the work across runs."@,
            )
        } else {
            Ok(items)
        },
        _ => if simulated {
            Ok(seq![placeholder_item()])
        } else {
            match resolved {
                ResolutionView::Found(_) => Err(
                    "for_each source '"@ + source + "' must resolve to a JSON array"@,
                ),
                ResolutionView::Missing => Err(
                    "for_each source '"@ + source + "' was not found in workflow context"@,
                ),
                ResolutionView::Failed(err) => Err(
                    "for_each source '"@ + source + "' could not be resolved: "@ + err,
                ),
            }
        },
    }
}

fn branch_items(source: &str, resolved: Resolution, simulated: bool) -> (r: Result<Vec<Json>, Outcome>)
    ensures
        match items_of(source@, resolved@, simulated) {
            Ok(items) => r matches Ok(v) && v.deep_view() == items,
            Err(reason) => r matches Err(outcome) && outcome@ == refused(reason),
        },
{
    if let Resolution::Found(Json::Array(items)) = resolved {
        proof {
            lemma_array_view(items@);
            assert(array_view(items@) =~= items.deep_view());
        }
        let count: usize = items.len();
        if count > MAX_FOR_EACH_ITEMS {
            let mut s = around("for_each source '", source, "' resolved to ");
            s.append(decimal_string(count as u64).as_str());
            s.append(" items, above the limit of ");
            s.append(decimal_string(MAX_FOR_EACH_ITEMS as u64).as_str());
            s.append(
                ". Filter the array in the node that produces it, or split the work across runs.",
            );
            return Err(Outcome::fail_deterministic(s.as_str()));
        }
        return Ok(items);
    }
    if simulated {
        let mut items: Vec<Json> = Vec::new();
        items.push(dry_run_placeholder_item());
        assert(items.deep_view() =~= seq![placeholder_item()]);
        return Ok(items);
    }
    let reason = match resolved {
        Resolution::Found(_) => around("for_each source '", source, "' must resolve to a JSON array"),
        Resolution::Missing => around(
            "for_each source '",
            source,
            "' was not found in workflow context",
        ),
        Resolution::Failed(err) => {
            let mut s = around("for_each source '", source, "' could not be resolved: ");
            s.append(err.as_str());
            s
        },
    };
    Err(Outcome::fail_deterministic(reason.as_str()))
}

/// One branch for each edge that leaves the node, in order.
pub open spec fn edge_plan(node: NodeView, graph: GraphView) -> PlanView {
    PlanView {
        work_items: Seq::new(
            graph.outgoing(node.id).len(),
            |i: int|
                WorkItemView {
                    index: i as nat,
                    target_id: graph.outgoing(node.id)[i].to,
                    item: None,
                    item_label: None,
                },
        ),
        template_target_id: None,
    }
}

/// One branch of `target_id` for each item, in order.
pub open spec fn item_plan(items: Seq<JsonView>, target_id: Seq<char>) -> PlanView {
    PlanView {
        work_items: Seq::new(
            items.len(),
            |i: int|
                WorkItemView {
                    index: i as nat,
                    target_id,
                    item: Some(items[i]),
                    item_label: Some(label_of(items[i], i as nat)),
                },
        ),
        template_target_id: Some(target_id),
    }
}

/// The branches to run, or why the node cannot run. `resolved` is what the
/// node's `for_each` source gave; a node without one does not read it.
pub open spec fn plan_of(
    node: NodeView,
    graph: GraphView,
    resolved: ResolutionView,
    simulated: bool,
) -> Result<PlanView, Seq<char>> {
    match source_of(node, graph) {
        Err(reason) => Err(reason),
        Ok(SourceView::Edges) => Ok(edge_plan(node, graph)),
        Ok(SourceView::Items { source, target_id }) => match items_of(source, resolved, simulated) {
            Ok(items) => Ok(item_plan(items, target_id)),
            Err(reason) => Err(reason),
        },
    }
}

fn plan_edges(node: &Node, graph: &Graph) -> (r: BranchPlan)
    ensures
        r@ == edge_plan(node@, graph@),
{
    let edges = graph.outgoing_edges(node.id.as_str());
    let ghost all = graph@.outgoing(node@.id);
    let mut work_items: Vec<BranchWorkItem> = Vec::new();
    let mut index: usize = 0;
    while index < edges.len()
        invariant
            index <= edges@.len(),
            all == graph@.outgoing(node@.id),
            edges.deep_view() == all,
            work_items.deep_view() == edge_plan(node@, graph@).work_items.take(index as int),
        decreases edges@.len() - index,
    {
        let ghost had = work_items.deep_view();
        assert(all[index as int] == edges@[index as int]@);
        work_items.push(
            BranchWorkItem {
                index,
                target_id: edges[index].to.clone(),
                item: None,
                item_label: None,
            },
        );
        assert(work_items.deep_view() =~= had.push(work_items@[index as int]@));
        index += 1;
        assert(work_items.deep_view() =~= edge_plan(node@, graph@).work_items.take(index as int));
    }
    let plan = BranchPlan { work_items, template_target_id: None };
    assert(plan@.work_items =~= edge_plan(node@, graph@).work_items);
    plan
}

fn plan_items(items: &Vec<Json>, target_id: String) -> (r: BranchPlan)
    ensures
        r@ == item_plan(items.deep_view(), target_id@),
{
    let ghost all = items.deep_view();
    let mut work_items: Vec<BranchWorkItem> = Vec::new();
    let mut index: usize = 0;
    while index < items.len()
        invariant
            index <= items@.len(),
            all == items.deep_view(),
            work_items.deep_view() == item_plan(all, target_id@).work_items.take(index as int),
        decreases items@.len() - index,
    {
        let ghost had = work_items.deep_view();
        assert(all[index as int] == items@[index as int]@);
        work_items.push(
            BranchWorkItem {
                index,
                target_id: target_id.clone(),
                item: Some(items[index].duplicate()),
                item_label: Some(item_label(&items[index], index)),
            },
        );
        assert(work_items.deep_view() =~= had.push(work_items@[index as int]@));
        index += 1;
        assert(work_items.deep_view() =~= item_plan(all, target_id@).work_items.take(index as int));
    }
    let ghost id = target_id@;
    let plan = BranchPlan { work_items, template_target_id: Some(target_id) };
    assert(plan@.work_items =~= item_plan(all, id).work_items);
    plan
}

/// The branches to run.
pub fn build_branch_plan(node: &Node, graph: &Graph, resolved: Resolution, simulated: bool) -> (r:
    Result<BranchPlan, Outcome>)
    ensures
        granted(r, plan_of(node@, graph@, resolved@, simulated)),
{
    match branch_source(node, graph) {
        Err(outcome) => Err(outcome),
        Ok(BranchSource::Edges) => Ok(plan_edges(node, graph)),
        Ok(BranchSource::Items { source, target_id }) => match branch_items(
            source.as_str(),
            resolved,
            simulated,
        ) {
            Ok(items) => Ok(plan_items(&items, target_id)),
            Err(outcome) => Err(outcome),
        },
    }
}

/// How many branches of a node run at a time: its `max_parallel`, at least one;
/// four where it names no usable number.
pub open spec fn branches_at_once(node: NodeView) -> int {
    match integer_attr(node.attrs, "max_parallel"@) {
        Some(n) => if n < 0 || n > usize::MAX {
            4
        } else if n == 0 {
            1
        } else {
            n as int
        },
        None => 4,
    }
}

pub fn max_parallel(node: &Node) -> (r: usize)
    ensures
        r == branches_at_once(node@),
        r >= 1,
{
    match get_integer(&node.attrs, "max_parallel") {
        Some(n) => {
            if n < 0 || n as u64 > usize::MAX as u64 {
                4
            } else if n == 0 {
                1
            } else {
                n as usize
            }
        },
        None => 4,
    }
}

/// A plan for `for_each` holds at most the permitted number of branches, each of
/// the template's node, in the order of the items.
pub proof fn lemma_for_each_plan_is_bounded(
    node: NodeView,
    graph: GraphView,
    resolved: ResolutionView,
    simulated: bool,
)
    requires
        plan_of(node, graph, resolved, simulated) matches Ok(plan) && plan.for_each(),
    ensures
        plan_of(node, graph, resolved, simulated) matches Ok(plan) && {
            &&& plan.work_items.len() <= MAX_FOR_EACH_ITEMS
            &&& forall|i: int|
                0 <= i < plan.work_items.len() ==> {
                    &&& (#[trigger] plan.work_items[i]).index == i
                    &&& plan.work_items[i].target_id == plan.template_target_id.unwrap()
                    &&& plan.work_items[i].item is Some
                    &&& plan.work_items[i].item_label is Some
                }
        },
{
}

/// A dry run refuses what is wrong with the graph, and nothing about the
/// source but an array that is too long.
pub proof fn lemma_dry_run_refuses_the_graph_alone(
    node: NodeView,
    graph: GraphView,
    resolved: ResolutionView,
)
    requires
        source_of(node, graph) is Ok,
        resolved matches ResolutionView::Found(JsonView::Array(items)) ==> items.len()
            <= MAX_FOR_EACH_ITEMS,
    ensures
        plan_of(node, graph, resolved, true) is Ok,
{
}

/// A parallel node without a `for_each` runs one branch for every edge that leaves
/// it, in the order of the edges and to their targets, whatever the context holds
/// and whether or not the run is a dry one.
pub proof fn lemma_every_edge_is_a_branch(
    node: NodeView,
    graph: GraphView,
    resolved: ResolutionView,
    simulated: bool,
)
    requires
        !node.attrs.contains_key("for_each"@),
    ensures
        plan_of(node, graph, resolved, simulated) matches Ok(plan) && {
            &&& plan.template_target_id is None
            &&& plan.work_items.len() == graph.outgoing(node.id).len()
            &&& forall|i: int|
                0 <= i < plan.work_items.len() ==> {
                    &&& (#[trigger] plan.work_items[i]).index == i
                    &&& plan.work_items[i].target_id == graph.outgoing(node.id)[i].to
                    &&& plan.work_items[i].item is None
                    &&& plan.work_items[i].item_label is None
                }
        },
{
}

/// Whether a node can fan out over items: it names a source, one edge leaves it,
/// and that edge leads to an agent or prompt node that does not fan out itself.
pub open spec fn fans_out_over_items(node: NodeView, graph: GraphView) -> bool {
    let edges = graph.outgoing(node.id);
    &&& node.text("for_each"@) matches Some(source) && trim(source).len() > 0
    &&& edges.len() == 1
    &&& graph.nodes.contains_key(edges[0].to)
    &&& graph.nodes[edges[0].to].handler_type() == Some("agent"@)
        || graph.nodes[edges[0].to].handler_type() == Some("prompt"@)
    &&& !graph.nodes[edges[0].to].attrs.contains_key("for_each"@)
}

/// A node with a `for_each` runs one branch of its template for every item of the
/// array that the source gives, in the order of the items, up to a thousand; a
/// longer array is refused, also in a dry run. A source that gives no array is
/// refused, but that a dry run stands one item in for it. A node that cannot fan
/// out over items is refused whatever the source gives.
pub proof fn lemma_every_item_is_a_branch(
    node: NodeView,
    graph: GraphView,
    resolved: ResolutionView,
    simulated: bool,
)
    requires
        node.attrs.contains_key("for_each"@),
    ensures
        ({
            let r = plan_of(node, graph, resolved, simulated);
            let target = graph.outgoing(node.id)[0].to;
            let given = resolved matches ResolutionView::Found(JsonView::Array(_));
            &&& !fans_out_over_items(node, graph) ==> r is Err
            &&& fans_out_over_items(node, graph) ==> {
                &&& r matches Ok(plan) ==> {
                    &&& plan.template_target_id == Some(target)
                    &&& forall|i: int|
                        0 <= i < plan.work_items.len() ==> {
                            &&& (#[trigger] plan.work_items[i]).index == i
                            &&& plan.work_items[i].target_id == target
                        }
                }
                &&& resolved matches ResolutionView::Found(JsonView::Array(items)) ==> {
                    &&& r is Ok <==> items.len() <= 1_000
                    &&& r matches Ok(plan) ==> {
                        &&& plan.work_items.len() == items.len()
                        &&& forall|i: int|
                            0 <= i < items.len() ==> (#[trigger] plan.work_items[i]).item == Some(
                                items[i],
                            ) && plan.work_items[i].item_label == Some(
                                label_of(items[i], i as nat),
                            )
                    }
                }
                &&& !given ==> (r is Ok <==> simulated)
                &&& !given ==> (r matches Ok(plan) ==> plan.work_items.len() == 1
                    && plan.work_items[0].item is Some)
            }
        }),
{
}

/// The branches of a node that run at a time are as many as it says, but at least
/// one; where it says nothing usable they are four.
pub proof fn lemma_branches_run_as_many_at_a_time_as_asked(node: NodeView)
    ensures
        match integer_attr(node.attrs, "max_parallel"@) {
            Some(n) => {
                &&& 1 <= n <= usize::MAX ==> branches_at_once(node) == n
                &&& n == 0 ==> branches_at_once(node) == 1
                &&& n < 0 ==> branches_at_once(node) == 4
            },
            None => branches_at_once(node) == 4,
        },
{
}


} // verus!
