//! How hard and how fast a model is asked to work.
use crate::error::{handler_caused, Error, ErrorView};
use crate::graph::{Node, NodeView};
use crate::keys::concat;
use crate::table::Duplicate;
use crate::text::{join, joined};
use vstd::prelude::*;
use vstd::string::*;

verus! {

/// The names that requests take for their controls, as a message lists them.
#[derive(Debug, PartialEq)]
pub struct ControlNames {
    pub reasoning_efforts: Vec<String>,
    pub speeds: Vec<String>,
}

pub struct NamesView {
    pub reasoning_efforts: Seq<Seq<char>>,
    pub speeds: Seq<Seq<char>>,
}

impl View for ControlNames {
    type V = NamesView;

    open spec fn view(&self) -> NamesView {
        NamesView {
            reasoning_efforts: self.reasoning_efforts.deep_view(),
            speeds: self.speeds.deep_view(),
        }
    }
}

/// What reading the text of a control gave.
#[derive(Debug, PartialEq)]
pub enum Reading {
    /// The control that the text names.
    Control(String),
    /// Why the text names none, with the causes of that.
    Unknown { causes: Vec<String> },
}

pub enum ReadingView {
    Control(Seq<char>),
    Unknown { causes: Seq<Seq<char>> },
}

impl View for Reading {
    type V = ReadingView;

    open spec fn view(&self) -> ReadingView {
        match self {
            Reading::Control(name) => ReadingView::Control(name@),
            Reading::Unknown { causes } => ReadingView::Unknown { causes: causes.deep_view() },
        }
    }
}

/// The controls that a run sets for its models.
#[derive(Debug, PartialEq)]
pub struct RunModelControls {
    pub reasoning_effort: Option<String>,
    pub speed: Option<String>,
}

/// The controls of a request.
#[derive(Debug, PartialEq)]
pub struct EffectiveRequestControls {
    pub reasoning_effort: Option<String>,
    pub speed: Option<String>,
}

pub struct ControlsView {
    pub reasoning_effort: Option<Seq<char>>,
    pub speed: Option<Seq<char>>,
}

impl View for RunModelControls {
    type V = ControlsView;

    open spec fn view(&self) -> ControlsView {
        ControlsView {
            reasoning_effort: self.reasoning_effort.deep_view(),
            speed: self.speed.deep_view(),
        }
    }
}

impl View for EffectiveRequestControls {
    type V = ControlsView;

    open spec fn view(&self) -> ControlsView {
        ControlsView {
            reasoning_effort: self.reasoning_effort.deep_view(),
            speed: self.speed.deep_view(),
        }
    }
}

impl DeepView for EffectiveRequestControls {
    type V = ControlsView;

    open spec fn deep_view(&self) -> ControlsView {
        self@
    }
}

impl Duplicate for EffectiveRequestControls {
    fn duplicate(&self) -> (r: Self) {
        EffectiveRequestControls {
            reasoning_effort: self.reasoning_effort.duplicate(),
            speed: self.speed.duplicate(),
        }
    }
}

/// The values that are accepted, as a message lists them.
pub fn expected_values(values: &Vec<String>) -> (r: String)
    ensures
        r@ == join(values.deep_view(), ", "@),
{
    joined(values, ", ")
}

/// The message for a control that is not accepted.
pub open spec fn invalid_control(
    control: Seq<char>,
    value: Seq<char>,
    node_id: Seq<char>,
    names: Seq<Seq<char>>,
) -> Seq<char> {
    "Invalid "@ + control + " \""@ + value + "\" for node \""@ + node_id
        + "\"; expected one of: "@ + join(names, ", "@)
}

/// The text of a control: the node's own, else the run's.
pub open spec fn chosen(control: Seq<char>, node: NodeView, run: Option<Seq<char>>) -> Option<
    Seq<char>,
> {
    match node.text(control) {
        Some(value) => Some(value),
        None => run,
    }
}

/// What a request's control is. `reading` is what reading its text gave; a
/// control that is set nowhere has none to look at.
pub open spec fn control_of(
    control: Seq<char>,
    node: NodeView,
    run: Option<Seq<char>>,
    names: Seq<Seq<char>>,
    reading: ReadingView,
) -> Result<Option<Seq<char>>, ErrorView> {
    match chosen(control, node, run) {
        Some(value) => match reading {
            ReadingView::Control(name) => Ok(Some(name)),
            ReadingView::Unknown { causes } => Err(
                handler_caused(invalid_control(control, value, node.id, names), causes, None),
            ),
        },
        None => Ok(None),
    }
}

fn choose_control(control: &str, node: &Node, run: &Option<String>) -> (r: Option<String>)
    ensures
        r.deep_view() == chosen(control@, node@, run.deep_view()),
{
    match node.text(control) {
        Some(value) => Some(value.to_owned()),
        None => run.duplicate(),
    }
}

/// The texts of the controls of a node's requests, which are to be read.
pub fn chosen_controls(run: &RunModelControls, node: &Node) -> (r: RunModelControls)
    ensures
        r@.reasoning_effort == chosen("reasoning_effort"@, node@, run@.reasoning_effort),
        r@.speed == chosen("speed"@, node@, run@.speed),
{
    RunModelControls {
        reasoning_effort: choose_control("reasoning_effort", node, &run.reasoning_effort),
        speed: choose_control("speed", node, &run.speed),
    }
}

fn parse_control(
    control: &str,
    node: &Node,
    run: &Option<String>,
    names: &Vec<String>,
    reading: Reading,
) -> (r: Result<Option<String>, Error>)
    ensures
        match control_of(control@, node@, run.deep_view(), names.deep_view(), reading@) {
            Ok(value) => r matches Ok(v) && v.deep_view() == value,
            Err(error) => r matches Err(e) && e@ == error,
        },
{
    match choose_control(control, node, run) {
        Some(value) => match reading {
            Reading::Control(name) => Ok(Some(name)),
            Reading::Unknown { causes } => {
                let mut s = concat("Invalid ", control);
                s.append(" \"");
                s.append(value.as_str());
                s.append("\" for node \"");
                s.append(node.id.as_str());
                s.append("\"; expected one of: ");
                s.append(expected_values(names).as_str());
                Err(Error::handler_with_source(s.as_str(), causes, None))
            },
        },
        None => Ok(None),
    }
}

/// The controls of a node's requests.
pub open spec fn controls_of(
    run: ControlsView,
    node: NodeView,
    names: NamesView,
    effort: ReadingView,
    speed: ReadingView,
) -> Result<ControlsView, ErrorView> {
    match control_of(
        "reasoning_effort"@,
        node,
        run.reasoning_effort,
        names.reasoning_efforts,
        effort,
    ) {
        Err(error) => Err(error),
        Ok(reasoning_effort) => match control_of(
            "speed"@,
            node,
            run.speed,
            names.speeds,
            speed,
        ) {
            Err(error) => Err(error),
            Ok(speed) => Ok(ControlsView { reasoning_effort, speed }),
        },
    }
}

/// The controls of a node's requests: the node's own, else the run's. One that
/// is set nowhere stays unset. `effort` and `speed` are what reading the texts of
/// [`chosen_controls`] gave.
pub fn effective_request_controls(
    run: &RunModelControls,
    node: &Node,
    names: &ControlNames,
    effort: Reading,
    speed: Reading,
) -> (r: Result<EffectiveRequestControls, Error>)
    ensures
        match controls_of(run@, node@, names@, effort@, speed@) {
            Ok(controls) => r matches Ok(c) && c@ == controls,
            Err(error) => r matches Err(e) && e@ == error,
        },
{
    let reasoning_effort = match parse_control(
        "reasoning_effort",
        node,
        &run.reasoning_effort,
        &names.reasoning_efforts,
        effort,
    ) {
        Ok(v) => v,
        Err(e) => {
            return Err(e);
        },
    };
    let speed = match parse_control(
        "speed",
        node,
        &run.speed,
        &names.speeds,
        speed,
    ) {
        Ok(v) => v,
        Err(e) => {
            return Err(e);
        },
    };
    Ok(EffectiveRequestControls { reasoning_effort, speed })
}

/// A node's own controls win over those of the run: what the run sets for a
/// control that the node sets itself makes no difference.
pub proof fn lemma_node_controls_win(
    run: ControlsView,
    other: ControlsView,
    node: NodeView,
    names: NamesView,
    effort: ReadingView,
    speed: ReadingView,
)
    requires
        node.text("reasoning_effort"@) is None ==> run.reasoning_effort == other.reasoning_effort,
        node.text("speed"@) is None ==> run.speed == other.speed,
    ensures
        controls_of(run, node, names, effort, speed) == controls_of(
            other,
            node,
            names,
            effort,
            speed,
        ),
        node.text("speed"@) is Some ==> chosen("speed"@, node, run.speed) == node.text("speed"@),
        node.text("reasoning_effort"@) is Some ==> chosen(
            "reasoning_effort"@,
            node,
            run.reasoning_effort,
        ) == node.text("reasoning_effort"@),
{
}

/// A control is the node's own where the node sets one, else the run's, and is
/// left unset where neither does; it is taken as reading its text gave. A text that
/// names no control is refused, the effort's before the speed's, whatever the other
/// is.
pub proof fn lemma_controls_are_read_from_node_then_run(
    run: ControlsView,
    node: NodeView,
    names: NamesView,
    effort: ReadingView,
    speed: ReadingView,
)
    ensures
        ({
            let r = controls_of(run, node, names, effort, speed);
            let effort_set = node.text("reasoning_effort"@) is Some || run.reasoning_effort is Some;
            let speed_set = node.text("speed"@) is Some || run.speed is Some;
            &&& r is Ok <==> (effort_set ==> effort is Control) && (speed_set ==> speed is Control)
            &&& r matches Ok(c) ==> {
                &&& effort_set ==> (effort matches ReadingView::Control(name) && c.reasoning_effort
                    == Some(name))
                &&& !effort_set ==> c.reasoning_effort is None
                &&& speed_set ==> (speed matches ReadingView::Control(name) && c.speed == Some(
                    name,
                ))
                &&& !speed_set ==> c.speed is None
            }
        }),
        chosen("reasoning_effort"@, node, run.reasoning_effort) == match node.text(
            "reasoning_effort"@,
        ) {
            Some(text) => Some(text),
            None => run.reasoning_effort,
        },
        chosen("speed"@, node, run.speed) == match node.text("speed"@) {
            Some(text) => Some(text),
            None => run.speed,
        },
{
}


} // verus!
