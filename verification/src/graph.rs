//! The workflow graph: nodes, edges and their attributes.
//!
//! A graph is handed over by whoever read it. That a shape stands for a handler
//! type as it does here, and that each accessor reads the attribute it is named
//! after, with the default given here, is assumed of that reader.
use crate::order::copy_texts;
use crate::table::{Duplicate, Table};
use crate::text::{decimal, decimal_i64, decimal_int, decimal_string, same};
use vstd::prelude::*;
use vstd::string::*;

verus! {

/// An attribute value. A duration is in milliseconds.
#[derive(Debug, PartialEq)]
pub enum AttrValue {
    String(String),
    Integer(i64),
    Boolean(bool),
    Duration(u64),
}

pub enum AttrView {
    String(Seq<char>),
    Integer(i64),
    Boolean(bool),
    Duration(u64),
}

impl View for AttrValue {
    type V = AttrView;

    open spec fn view(&self) -> AttrView {
        match self {
            AttrValue::String(s) => AttrView::String(s@),
            AttrValue::Integer(n) => AttrView::Integer(*n),
            AttrValue::Boolean(b) => AttrView::Boolean(*b),
            AttrValue::Duration(d) => AttrView::Duration(*d),
        }
    }
}

impl DeepView for AttrValue {
    type V = AttrView;

    open spec fn deep_view(&self) -> AttrView {
        self@
    }
}

impl Duplicate for AttrValue {
    fn duplicate(&self) -> (r: Self) {
        match self {
            AttrValue::String(s) => AttrValue::String(s.clone()),
            AttrValue::Integer(n) => AttrValue::Integer(*n),
            AttrValue::Boolean(b) => AttrValue::Boolean(*b),
            AttrValue::Duration(d) => AttrValue::Duration(*d),
        }
    }
}

pub type Attrs = Map<Seq<char>, AttrView>;

/// The text of a string attribute.
pub open spec fn text_attr(attrs: Attrs, key: Seq<char>) -> Option<Seq<char>> {
    if attrs.contains_key(key) {
        match attrs[key] {
            AttrView::String(s) => Some(s),
            _ => None,
        }
    } else {
        None
    }
}

/// The number of an integer attribute.
pub open spec fn integer_attr(attrs: Attrs, key: Seq<char>) -> Option<i64> {
    if attrs.contains_key(key) {
        match attrs[key] {
            AttrView::Integer(n) => Some(n),
            _ => None,
        }
    } else {
        None
    }
}

/// The length of a duration attribute, in milliseconds.
pub open spec fn duration_attr(attrs: Attrs, key: Seq<char>) -> Option<u64> {
    if attrs.contains_key(key) {
        match attrs[key] {
            AttrView::Duration(d) => Some(d),
            _ => None,
        }
    } else {
        None
    }
}

/// Whether a boolean attribute is set to true.
pub open spec fn flag_attr(attrs: Attrs, key: Seq<char>) -> bool {
    attrs.contains_key(key) && attrs[key] == AttrView::Boolean(true)
}

pub fn get_text<'a>(attrs: &'a Table<AttrValue>, key: &str) -> (r: Option<&'a str>)
    ensures
        r.deep_view() == text_attr(attrs@, key@),
{
    match attrs.get(key) {
        Some(AttrValue::String(s)) => Some(s.as_str()),
        _ => None,
    }
}

pub fn get_integer(attrs: &Table<AttrValue>, key: &str) -> (r: Option<i64>)
    ensures
        r == integer_attr(attrs@, key@),
{
    match attrs.get(key) {
        Some(AttrValue::Integer(n)) => Some(*n),
        _ => None,
    }
}

pub fn get_duration(attrs: &Table<AttrValue>, key: &str) -> (r: Option<u64>)
    ensures
        r == duration_attr(attrs@, key@),
{
    match attrs.get(key) {
        Some(AttrValue::Duration(d)) => Some(*d),
        _ => None,
    }
}

pub fn get_flag(attrs: &Table<AttrValue>, key: &str) -> (r: bool)
    ensures
        r == flag_attr(attrs@, key@),
{
    match attrs.get(key) {
        Some(AttrValue::Boolean(b)) => *b,
        _ => false,
    }
}

/// The text form of an attribute value.
pub open spec fn attr_text(v: AttrView) -> Seq<char> {
    match v {
        AttrView::String(s) => s,
        AttrView::Integer(n) => decimal_int(n as int),
        AttrView::Boolean(b) => if b {
            "true"@
        } else {
            "false"@
        },
        AttrView::Duration(d) => decimal(d as nat) + "ms"@,
    }
}

impl AttrValue {
    pub fn to_string_value(&self) -> (s: String)
        ensures
            s@ == attr_text(self@),
    {
        match self {
            AttrValue::String(s) => s.clone(),
            AttrValue::Integer(n) => decimal_i64(*n),
            AttrValue::Boolean(b) => if *b {
                "true".to_owned()
            } else {
                "false".to_owned()
            },
            AttrValue::Duration(d) => {
                let mut s = decimal_string(*d);
                s.append("ms");
                s
            },
        }
    }
}

/// A stage of the workflow.
#[derive(Debug, PartialEq)]
pub struct Node {
    pub id: String,
    pub attrs: Table<AttrValue>,
    pub classes: Vec<String>,
}

pub struct NodeView {
    pub id: Seq<char>,
    pub attrs: Attrs,
    pub classes: Seq<Seq<char>>,
}

impl View for Node {
    type V = NodeView;

    open spec fn view(&self) -> NodeView {
        NodeView { id: self.id@, attrs: self.attrs@, classes: self.classes.deep_view() }
    }
}

impl DeepView for Node {
    type V = NodeView;

    open spec fn deep_view(&self) -> NodeView {
        self@
    }
}

impl Duplicate for Node {
    fn duplicate(&self) -> (r: Self) {
        Node {
            id: self.id.clone(),
            attrs: self.attrs.duplicate(),
            classes: copy_texts(&self.classes),
        }
    }
}

/// The handler type that a shape stands for.
pub open spec fn shape_handler(shape: Seq<char>) -> Option<Seq<char>> {
    if shape == "Mdiamond"@ {
        Some("start"@)
    } else if shape == "Msquare"@ {
        Some("exit"@)
    } else if shape == "box"@ {
        Some("agent"@)
    } else if shape == "tab"@ {
        Some("prompt"@)
    } else if shape == "hexagon"@ {
        Some("human"@)
    } else if shape == "diamond"@ {
        Some("conditional"@)
    } else if shape == "parallelogram"@ {
        Some("command"@)
    } else if shape == "component"@ {
        Some("parallel"@)
    } else if shape == "tripleoctagon"@ {
        Some("parallel.fan_in"@)
    } else if shape == "house"@ {
        Some("stack.manager_loop"@)
    } else if shape == "insulator"@ {
        Some("wait"@)
    } else {
        None
    }
}

pub fn shape_to_handler_type(shape: &str) -> (r: Option<&'static str>)
    ensures
        r.deep_view() == shape_handler(shape@),
{
    if same(shape, "Mdiamond") {
        Some("start")
    } else if same(shape, "Msquare") {
        Some("exit")
    } else if same(shape, "box") {
        Some("agent")
    } else if same(shape, "tab") {
        Some("prompt")
    } else if same(shape, "hexagon") {
        Some("human")
    } else if same(shape, "diamond") {
        Some("conditional")
    } else if same(shape, "parallelogram") {
        Some("command")
    } else if same(shape, "component") {
        Some("parallel")
    } else if same(shape, "tripleoctagon") {
        Some("parallel.fan_in")
    } else if same(shape, "house") {
        Some("stack.manager_loop")
    } else if same(shape, "insulator") {
        Some("wait")
    } else {
        None
    }
}

/// Whether a handler type calls a language model.
pub open spec fn is_llm(handler: Option<Seq<char>>) -> bool {
    handler == Some("agent"@) || handler == Some("prompt"@)
}

pub fn is_llm_handler_type(handler: Option<&str>) -> (r: bool)
    ensures
        r == is_llm(handler.deep_view()),
{
    match handler {
        Some(h) => same(h, "agent") || same(h, "prompt"),
        None => false,
    }
}

impl NodeView {
    /// An attribute's text.
    pub open spec fn text(self, key: Seq<char>) -> Option<Seq<char>> {
        text_attr(self.attrs, key)
    }

    pub open spec fn label(self) -> Seq<char> {
        match self.text("label"@) {
            Some(l) => l,
            None => self.id,
        }
    }

    pub open spec fn shape(self) -> Seq<char> {
        match self.text("shape"@) {
            Some(s) => s,
            None => "box"@,
        }
    }

    pub open spec fn handler_type(self) -> Option<Seq<char>> {
        match self.text("type"@) {
            Some(t) => Some(t),
            None => shape_handler(self.shape()),
        }
    }

    pub open spec fn prompt_or_label(self) -> Seq<char> {
        match self.text("prompt"@) {
            Some(p) => p,
            None => self.label(),
        }
    }
}

impl Node {
    pub fn new(id: &str) -> (r: Node)
        ensures
            r@ == (NodeView { id: id@, attrs: Map::empty(), classes: Seq::empty() }),
    {
        let r = Node { id: id.to_owned(), attrs: Table::new(), classes: Vec::new() };
        assert(r.classes.deep_view() =~= Seq::empty());
        r
    }

    /// An attribute's text.
    pub fn text(&self, key: &str) -> (r: Option<&str>)
        ensures
            r.deep_view() == self@.text(key@),
    {
        get_text(&self.attrs, key)
    }

    pub fn label(&self) -> (r: &str)
        ensures
            r@ == self@.label(),
    {
        match self.text("label") {
            Some(l) => l,
            None => self.id.as_str(),
        }
    }

    pub fn shape(&self) -> (r: &str)
        ensures
            r@ == self@.shape(),
    {
        match self.text("shape") {
            Some(s) => s,
            None => "box",
        }
    }

    pub fn node_type(&self) -> (r: Option<&str>)
        ensures
            r.deep_view() == self@.text("type"@),
    {
        self.text("type")
    }

    /// The explicit type, else the type that the shape stands for.
    pub fn handler_type(&self) -> (r: Option<&str>)
        ensures
            r.deep_view() == self@.handler_type(),
    {
        match self.node_type() {
            Some(t) => Some(t),
            None => shape_to_handler_type(self.shape()),
        }
    }

    pub fn prompt(&self) -> (r: Option<&str>)
        ensures
            r.deep_view() == self@.text("prompt"@),
    {
        self.text("prompt")
    }

    pub fn prompt_or_label(&self) -> (r: &str)
        ensures
            r@ == self@.prompt_or_label(),
    {
        match self.prompt() {
            Some(p) => p,
            None => self.label(),
        }
    }
}

/// A directed connection between two nodes.
#[derive(Debug, PartialEq)]
pub struct Edge {
    pub from: String,
    pub to: String,
    pub attrs: Table<AttrValue>,
}

pub struct EdgeView {
    pub from: Seq<char>,
    pub to: Seq<char>,
    pub attrs: Attrs,
}

impl View for Edge {
    type V = EdgeView;

    open spec fn view(&self) -> EdgeView {
        EdgeView { from: self.from@, to: self.to@, attrs: self.attrs@ }
    }
}

impl DeepView for Edge {
    type V = EdgeView;

    open spec fn deep_view(&self) -> EdgeView {
        self@
    }
}

impl Duplicate for Edge {
    fn duplicate(&self) -> (r: Self) {
        Edge { from: self.from.clone(), to: self.to.clone(), attrs: self.attrs.duplicate() }
    }
}

impl EdgeView {
    pub open spec fn text(self, key: Seq<char>) -> Option<Seq<char>> {
        text_attr(self.attrs, key)
    }

    /// Whether the edge takes an answer in the human's own words.
    pub open spec fn freeform(self) -> bool {
        flag_attr(self.attrs, "freeform"@)
    }

    /// The label shown for the edge: its own non-empty label, else its target.
    pub open spec fn choice_label(self) -> Seq<char> {
        match self.text("label"@) {
            Some(l) => if l.len() > 0 {
                l
            } else {
                self.to
            },
            None => self.to,
        }
    }
}

impl Edge {
    pub fn new(from: &str, to: &str) -> (r: Edge)
        ensures
            r@ == (EdgeView { from: from@, to: to@, attrs: Map::empty() }),
    {
        Edge { from: from.to_owned(), to: to.to_owned(), attrs: Table::new() }
    }

    pub fn text(&self, key: &str) -> (r: Option<&str>)
        ensures
            r.deep_view() == self@.text(key@),
    {
        get_text(&self.attrs, key)
    }

    pub fn freeform(&self) -> (r: bool)
        ensures
            r == self@.freeform(),
    {
        get_flag(&self.attrs, "freeform")
    }

    pub fn choice_label(&self) -> (r: &str)
        ensures
            r@ == self@.choice_label(),
    {
        match self.text("label") {
            Some(l) => if !l.is_empty() {
                l
            } else {
                self.to.as_str()
            },
            None => self.to.as_str(),
        }
    }
}

/// A workflow graph.
#[derive(Debug, PartialEq)]
pub struct Graph {
    pub name: String,
    pub attrs: Table<AttrValue>,
    pub nodes: Table<Node>,
    pub edges: Vec<Edge>,
}

pub struct GraphView {
    pub name: Seq<char>,
    pub attrs: Attrs,
    pub nodes: Map<Seq<char>, NodeView>,
    pub edges: Seq<EdgeView>,
}

impl View for Graph {
    type V = GraphView;

    open spec fn view(&self) -> GraphView {
        GraphView {
            name: self.name@,
            attrs: self.attrs@,
            nodes: self.nodes@,
            edges: self.edges.deep_view(),
        }
    }
}

impl DeepView for Graph {
    type V = GraphView;

    open spec fn deep_view(&self) -> GraphView {
        self@
    }
}

impl Duplicate for Graph {
    fn duplicate(&self) -> (r: Self) {
        Graph {
            name: self.name.clone(),
            attrs: self.attrs.duplicate(),
            nodes: self.nodes.duplicate(),
            edges: self.edges.duplicate(),
        }
    }
}

/// The edges that leave `id`, in order.
pub open spec fn leaving(edges: Seq<EdgeView>, id: Seq<char>) -> Seq<EdgeView> {
    edges.filter(|e: EdgeView| e.from == id)
}

impl GraphView {
    pub open spec fn outgoing(self, id: Seq<char>) -> Seq<EdgeView> {
        leaving(self.edges, id)
    }

    pub open spec fn text(self, key: Seq<char>) -> Option<Seq<char>> {
        text_attr(self.attrs, key)
    }

    pub open spec fn goal(self) -> Seq<char> {
        match self.text("goal"@) {
            Some(g) => g,
            None => Seq::empty(),
        }
    }

    /// The handler type of a node of the graph.
    pub open spec fn handler_of(self, id: Seq<char>) -> Option<Seq<char>> {
        if self.nodes.contains_key(id) {
            self.nodes[id].handler_type()
        } else {
            None
        }
    }
}

impl Graph {
    pub fn new(name: &str) -> (r: Graph)
        ensures
            r@ == (GraphView {
                name: name@,
                attrs: Map::empty(),
                nodes: Map::empty(),
                edges: Seq::empty(),
            }),
    {
        let r = Graph {
            name: name.to_owned(),
            attrs: Table::new(),
            nodes: Table::new(),
            edges: Vec::new(),
        };
        assert(r.edges.deep_view() =~= Seq::empty());
        r
    }

    pub fn text(&self, key: &str) -> (r: Option<&str>)
        ensures
            r.deep_view() == self@.text(key@),
    {
        get_text(&self.attrs, key)
    }

    pub fn goal(&self) -> (r: &str)
        ensures
            r@ == self@.goal(),
    {
        match self.text("goal") {
            Some(g) => g,
            None => {
                proof {
                    reveal_strlit("");
                    assert(""@ =~= Seq::empty());
                }
                ""
            },
        }
    }

    /// The edges that leave `id`, in order.
    pub fn outgoing_edges(&self, id: &str) -> (r: Vec<Edge>)
        ensures
            r.deep_view() == self@.outgoing(id@),
    {
        let mut r: Vec<Edge> = Vec::new();
        let mut i: usize = 0;
        let ghost all = self.edges.deep_view();
        assert(all.take(0) =~= Seq::empty());
        assert(r.deep_view() =~= Seq::empty());
        while i < self.edges.len()
            invariant
                i <= self.edges@.len(),
                all == self.edges.deep_view(),
                r.deep_view() == leaving(all.take(i as int), id@),
            decreases self.edges@.len() - i,
        {
            let ghost had = r.deep_view();
            assert(all.take(i + 1).drop_last() =~= all.take(i as int));
            assert(all.take(i + 1).last() == self.edges@[i as int]@);
            reveal(Seq::filter);
            if same(self.edges[i].from.as_str(), id) {
                let copy = self.edges[i].duplicate();
                r.push(copy);
                assert(r.deep_view() =~= had.push(copy@));
            }
            i += 1;
        }
        assert(all.take(i as int) =~= all);
        r
    }
}

/// The edges that leave a node are those of the graph that start there, no more
/// and no fewer. They stand in the order of the graph: one more edge at the end of
/// the graph comes last among those that leave its start, and changes nothing for
/// any other node.
pub proof fn lemma_outgoing_edges(graph: GraphView, id: Seq<char>, e: EdgeView)
    ensures
        graph.outgoing(id).contains(e) <==> graph.edges.contains(e) && e.from == id,
        (GraphView { edges: graph.edges.push(e), ..graph }).outgoing(id) == if e.from == id {
            graph.outgoing(id).push(e)
        } else {
            graph.outgoing(id)
        },
{
    lemma_leaving(graph.edges, id, e);
    reveal(Seq::filter);
    assert(graph.edges.push(e).drop_last() =~= graph.edges);
}

proof fn lemma_leaving(edges: Seq<EdgeView>, id: Seq<char>, e: EdgeView)
    ensures
        leaving(edges, id).contains(e) <==> edges.contains(e) && e.from == id,
    decreases edges.len(),
{
    reveal(Seq::filter);
    if edges.len() > 0 {
        let earlier = edges.drop_last();
        let last = edges.last();
        lemma_leaving(earlier, id, e);
        let rest = leaving(earlier, id);
        let all = leaving(edges, id);
        assert(edges[edges.len() - 1] == last);
        if edges.contains(e) && e.from == id {
            if e == last {
                assert(all[all.len() - 1] == e);
            } else {
                let k = choose|k: int| 0 <= k < edges.len() && edges[k] == e;
                assert(earlier[k] == e);
                let j = choose|j: int| 0 <= j < rest.len() && rest[j] == e;
                assert(all[j] == e);
            }
        }
        if all.contains(e) {
            let k = choose|k: int| 0 <= k < all.len() && all[k] == e;
            if k < rest.len() {
                assert(rest[k] == e);
                let j = choose|j: int| 0 <= j < earlier.len() && earlier[j] == e;
                assert(edges[j] == e);
            }
        }
    }
}


/// An attribute reads as what it was set to, by the reader of its kind alone; the
/// other readers find nothing there. Setting it changes no other attribute.
pub proof fn lemma_attributes_read_by_their_kind(
    attrs: Attrs,
    key: Seq<char>,
    other: Seq<char>,
    v: AttrView,
)
    ensures
        ({
            let set = attrs.insert(key, v);
            &&& forall|s: Seq<char>| text_attr(set, key) == Some(s) <==> v == AttrView::String(s)
            &&& forall|n: i64| integer_attr(set, key) == Some(n) <==> v == AttrView::Integer(n)
            &&& forall|d: u64| duration_attr(set, key) == Some(d) <==> v == AttrView::Duration(d)
            &&& flag_attr(set, key) <==> v == AttrView::Boolean(true)
            &&& other != key ==> {
                &&& text_attr(set, other) == text_attr(attrs, other)
                &&& integer_attr(set, other) == integer_attr(attrs, other)
                &&& duration_attr(set, other) == duration_attr(attrs, other)
                &&& flag_attr(set, other) == flag_attr(attrs, other)
            }
        }),
        ({
            let unset = attrs.remove(key);
            &&& text_attr(unset, key) is None
            &&& integer_attr(unset, key) is None
            &&& duration_attr(unset, key) is None
            &&& !flag_attr(unset, key)
        }),
{
}

/// A type that a node names is its handler's, whatever its shape. A node that names
/// none is handled by its shape, and by an agent where it names neither. What else
/// the node says makes no difference.
pub proof fn lemma_types_come_before_shapes(node: NodeView, t: Seq<char>, shape: Seq<char>)
    ensures
        (NodeView {
            attrs: node.attrs.insert("type"@, AttrView::String(t)),
            ..node
        }).handler_type() == Some(t),
        ({
            let untyped = node.attrs.remove("type"@);
            &&& (NodeView {
                attrs: untyped.insert("shape"@, AttrView::String(shape)),
                ..node
            }).handler_type() == shape_handler(shape)
            &&& (NodeView { attrs: untyped.remove("shape"@), ..node }).handler_type() == Some(
                "agent"@,
            )
        }),
{
    reveal_strlit("type");
    reveal_strlit("shape");
    assert("type"@.len() != "shape"@.len());
    let untyped = node.attrs.remove("type"@);
    let shaped = NodeView {
        attrs: untyped.insert("shape"@, AttrView::String(shape)),
        ..node
    };
    assert(shaped.text("type"@) is None);
    assert(shaped.shape() == shape);
    let bare = NodeView { attrs: untyped.remove("shape"@), ..node };
    assert(bare.text("type"@) is None);
    assert(bare.shape() == "box"@);
    lemma_shapes_differ();
}

proof fn lemma_shapes_differ()
    ensures
        "box"@ != "Mdiamond"@ && "box"@ != "Msquare"@ && "tab"@ != "box"@,
        "tab"@ != "Mdiamond"@ && "tab"@ != "Msquare"@,
{
    reveal_strlit("box");
    reveal_strlit("tab");
    reveal_strlit("Mdiamond");
    reveal_strlit("Msquare");
    assert("box"@[0] == 'b' && "tab"@[0] == 't');
    assert("box"@.len() == 3 && "tab"@.len() == 3);
    assert("Mdiamond"@.len() == 8 && "Msquare"@.len() == 7);
}

proof fn lemma_handlers_differ()
    ensures
        "start"@.len() == 5 && "agent"@.len() == 5 && "human"@.len() == 5,
        "start"@[0] == 's' && "agent"@[0] == 'a' && "human"@[0] == 'h',
        "exit"@.len() == 4 && "wait"@.len() == 4,
        "exit"@[0] == 'e' && "wait"@[0] == 'w',
        "prompt"@.len() == 6,
        "command"@.len() == 7,
        "parallel"@.len() == 8,
        "conditional"@.len() == 11,
        "parallel.fan_in"@.len() == 15,
        "stack.manager_loop"@.len() == 18,
{
    reveal_strlit("start");
    reveal_strlit("agent");
    reveal_strlit("human");
    reveal_strlit("exit");
    reveal_strlit("wait");
    reveal_strlit("prompt");
    reveal_strlit("command");
    reveal_strlit("parallel");
    reveal_strlit("conditional");
    reveal_strlit("parallel.fan_in");
    reveal_strlit("stack.manager_loop");
}

/// Shapes that stand for a handler stand for different ones. Those of the two that
/// call a language model are boxes and tabs.
pub proof fn lemma_shapes_stand_for_different_handlers(a: Seq<char>, b: Seq<char>)
    ensures
        shape_handler(a) is Some && shape_handler(a) == shape_handler(b) ==> a == b,
        is_llm(shape_handler(a)) <==> a == "box"@ || a == "tab"@,
{
    lemma_handlers_differ();
    lemma_shapes_differ();
}

/// A node is shown by its label, or by its name without one; a model is asked its
/// prompt, or what it is shown by without one. An empty prompt is still a prompt.
pub proof fn lemma_nodes_are_shown_by_label_then_name(node: NodeView, l: Seq<char>, p: Seq<char>)
    ensures
        ({
            let labelled = NodeView {
                attrs: node.attrs.insert("label"@, AttrView::String(l)),
                ..node
            };
            let nameless = NodeView { attrs: node.attrs.remove("label"@), ..node };
            let asked = NodeView {
                attrs: node.attrs.insert("prompt"@, AttrView::String(p)),
                ..node
            };
            let unasked = NodeView { attrs: node.attrs.remove("prompt"@), ..node };
            &&& labelled.label() == l
            &&& nameless.label() == node.id
            &&& asked.prompt_or_label() == p
            &&& unasked.prompt_or_label() == unasked.label()
            &&& unasked.label() == node.label()
        }),
{
    reveal_strlit("label");
    reveal_strlit("prompt");
    assert("label"@.len() != "prompt"@.len());
}

/// A choice is shown by the label of its edge, unless that is empty or missing, and
/// by where the edge leads otherwise; so it is shown by something wherever that has
/// a name.
pub proof fn lemma_choices_are_shown_by_something(edge: EdgeView, l: Seq<char>)
    ensures
        ({
            let labelled = EdgeView {
                attrs: edge.attrs.insert("label"@, AttrView::String(l)),
                ..edge
            };
            &&& l.len() > 0 ==> labelled.choice_label() == l
            &&& l.len() == 0 ==> labelled.choice_label() == edge.to
        }),
        (EdgeView { attrs: edge.attrs.remove("label"@), ..edge }).choice_label() == edge.to,
        edge.to.len() > 0 ==> edge.choice_label().len() > 0,
        (EdgeView {
            attrs: edge.attrs.insert("freeform"@, AttrView::Boolean(true)),
            ..edge
        }).freeform(),
        !(EdgeView { attrs: edge.attrs.remove("freeform"@), ..edge }).freeform(),
{
}

/// A graph's goal is what it says it is, and empty where it says nothing. The
/// handler of a node is read from that node, and none is known of a stranger.
pub proof fn lemma_graphs_tell_goal_and_handlers(
    graph: GraphView,
    g: Seq<char>,
    id: Seq<char>,
    node: NodeView,
)
    ensures
        (GraphView {
            attrs: graph.attrs.insert("goal"@, AttrView::String(g)),
            ..graph
        }).goal() == g,
        (GraphView { attrs: graph.attrs.remove("goal"@), ..graph }).goal().len() == 0,
        (GraphView { nodes: graph.nodes.insert(id, node), ..graph }).handler_of(id)
            == node.handler_type(),
        (GraphView { nodes: graph.nodes.remove(id), ..graph }).handler_of(id) is None,
{
}

/// The shapes that stand for a handler, each with its handler.
pub open spec fn shapes() -> Seq<(Seq<char>, Seq<char>)> {
    seq![
        ("Mdiamond"@, "start"@),
        ("Msquare"@, "exit"@),
        ("box"@, "agent"@),
        ("tab"@, "prompt"@),
        ("hexagon"@, "human"@),
        ("diamond"@, "conditional"@),
        ("parallelogram"@, "command"@),
        ("component"@, "parallel"@),
        ("tripleoctagon"@, "parallel.fan_in"@),
        ("house"@, "stack.manager_loop"@),
        ("insulator"@, "wait"@),
    ]
}

/// A shape stands for a handler exactly where the two are listed together.
pub proof fn lemma_listed_shapes_stand_for_handlers(shape: Seq<char>, handler: Seq<char>)
    ensures
        shape_handler(shape) == Some(handler) <==> shapes().contains((shape, handler)),
{
    reveal_strlit("Mdiamond");
    reveal_strlit("Msquare");
    reveal_strlit("box");
    reveal_strlit("tab");
    reveal_strlit("hexagon");
    reveal_strlit("diamond");
    reveal_strlit("parallelogram");
    reveal_strlit("component");
    reveal_strlit("tripleoctagon");
    reveal_strlit("house");
    reveal_strlit("insulator");
    assert("Mdiamond"@.len() == 8);
    assert("Msquare"@.len() == 7 && "Msquare"@[0] == 'M');
    assert("box"@.len() == 3 && "box"@[0] == 'b');
    assert("tab"@.len() == 3 && "tab"@[0] == 't');
    assert("hexagon"@.len() == 7 && "hexagon"@[0] == 'h');
    assert("diamond"@.len() == 7 && "diamond"@[0] == 'd');
    assert("parallelogram"@.len() == 13 && "parallelogram"@[0] == 'p');
    assert("component"@.len() == 9 && "component"@[0] == 'c');
    assert("tripleoctagon"@.len() == 13 && "tripleoctagon"@[0] == 't');
    assert("house"@.len() == 5);
    assert("insulator"@.len() == 9 && "insulator"@[0] == 'i');
    let all = shapes();
    if shape_handler(shape) == Some(handler) {
        assert(all[0] == ("Mdiamond"@, "start"@));
        assert(all[1] == ("Msquare"@, "exit"@));
        assert(all[2] == ("box"@, "agent"@));
        assert(all[3] == ("tab"@, "prompt"@));
        assert(all[4] == ("hexagon"@, "human"@));
        assert(all[5] == ("diamond"@, "conditional"@));
        assert(all[6] == ("parallelogram"@, "command"@));
        assert(all[7] == ("component"@, "parallel"@));
        assert(all[8] == ("tripleoctagon"@, "parallel.fan_in"@));
        assert(all[9] == ("house"@, "stack.manager_loop"@));
        assert(all[10] == ("insulator"@, "wait"@));
    }
}

} // verus!
