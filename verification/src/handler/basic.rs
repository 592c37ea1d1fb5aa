//! Handlers without outside work, and the wait timer.
use crate::error::Error;
use crate::graph::{duration_attr, get_duration, AttrView, Node};
use crate::keys::concat;
use crate::outcome::{success, Outcome, OutcomeView};
use vstd::prelude::*;
use vstd::string::*;

verus! {

/// Who applies a node's timeout.
#[derive(Clone, Copy, Debug, PartialEq, Eq, Structural)]
pub enum NodeTimeoutPolicy {
    /// The executor wraps the whole handler in the node timeout.
    ExecutorEnforced,
    /// The handler consumes the node timeout and reports it itself.
    HandlerManaged,
}

/// Entry point of a workflow; succeeds at once.
pub struct StartHandler;

impl StartHandler {
    pub fn execute(&self) -> (r: Outcome)
        ensures
            r@ == success(),
    {
        Outcome::success()
    }
}

/// Conditional routing: succeeds with a note, edge selection does the rest.
pub struct ConditionalHandler;

impl ConditionalHandler {
    pub fn execute(&self, node: &Node) -> (r: Outcome)
        ensures
            r@ == (OutcomeView {
                notes: Some("Conditional node evaluated: "@ + node@.id),
                ..success()
            }),
    {
        let mut outcome = Outcome::success();
        outcome.notes = Some(concat("Conditional node evaluated: ", node.id.as_str()));
        outcome
    }
}

/// The text of `str`'s `Debug`.
pub uninterp spec fn debug_text(s: Seq<char>) -> Seq<char>;

/// `str`'s `Debug`: the text in quotes, with escapes.
#[verifier::external_body]
fn debug_string(s: &str) -> (r: String)
    ensures
        r@ == debug_text(s@),
{
    format!("{:?}", s)
}

/// Sleeps for a configured time before proceeding.
pub struct WaitHandler;

/// The message for a wait node without a usable duration.
pub open spec fn missing_duration(shown_id: Seq<char>) -> Seq<char> {
    "wait node "@ + shown_id + " is missing a valid `duration` attribute"@
}

impl WaitHandler {
    /// How long to sleep, in milliseconds, given the node's id as shown in a
    /// message.
    pub fn delay(duration: Option<u64>, shown_id: &str) -> (r: Result<u64, Error>)
        ensures
            match duration {
                Some(d) => r == Ok::<u64, Error>(d),
                None => r matches Err(Error::Validation(m)) && m@ == missing_duration(shown_id@),
            },
    {
        match duration {
            Some(d) => Ok(d),
            None => {
                let mut s = "wait node ".to_owned();
                s.append(shown_id);
                s.append(" is missing a valid `duration` attribute");
                Err(Error::Validation(s))
            },
        }
    }

    /// How long to sleep, in milliseconds.
    pub fn delay_of(&self, node: &Node) -> (r: Result<u64, Error>)
        ensures
            match duration_attr(node@.attrs, "duration"@) {
                Some(d) => r == Ok::<u64, Error>(d),
                None => r matches Err(Error::Validation(m)) && m@ == missing_duration(
                    debug_text(node@.id),
                ),
            },
    {
        WaitHandler::delay(
            get_duration(&node.attrs, "duration"),
            debug_string(node.id.as_str()).as_str(),
        )
    }

    /// The outcome once the time has passed.
    pub fn finished(&self) -> (r: Outcome)
        ensures
            r@ == success(),
    {
        Outcome::success()
    }
}

/// The text of a panic, from its message where it has one.
pub open spec fn panic_text(message: Option<Seq<char>>) -> Seq<char> {
    match message {
        Some(m) => "handler panicked: "@ + m,
        None => "handler panicked"@,
    }
}

/// The text of a panic, from its message where it has one.
pub fn format_panic_message(message: Option<&str>) -> (r: String)
    ensures
        r@ == panic_text(message.deep_view()),
{
    match message {
        Some(m) => concat("handler panicked: ", m),
        None => "handler panicked".to_owned(),
    }
}

/// A wait node waits exactly where it names a duration, and that long; without one
/// it is refused, under its name. A duration written as a text or a number is none.
pub proof fn lemma_waits_last_as_long_as_named(
    handler: &WaitHandler,
    node: &Node,
    r: Result<u64, Error>,
)
    requires
        call_ensures(WaitHandler::delay_of, (handler, node), r),
    ensures
        r is Ok <==> node@.attrs.contains_key("duration"@) && node@.attrs["duration"@] is Duration,
        r matches Ok(d) ==> node@.attrs["duration"@] == AttrView::Duration(d),
        r matches Err(e) ==> e is Validation && crate::text::within(
            debug_text(node@.id),
            e->Validation_0@,
        ),
{
    if r is Err {
        let shown = debug_text(node@.id);
        let m = missing_duration(shown);
        assert(m == "wait node "@ + shown + " is missing a valid `duration` attribute"@);
        assert(crate::text::within(shown, m));
    }
}

/// A conditional node succeeds, names itself and leaves every choice open.
pub proof fn lemma_conditions_leave_the_choice_open(
    handler: &ConditionalHandler,
    node: &Node,
    r: Outcome,
)
    requires
        call_ensures(ConditionalHandler::execute, (handler, node), r),
    ensures
        r@.status is Succeeded,
        r@.notes matches Some(n) && crate::text::within(node@.id, n),
        r@.preferred_label is None && r@.suggested_next_ids.len() == 0 && r@.jump_to_node is None,
        r@.context_updates.dom() == Set::<Seq<char>>::empty(),
{
    let n = "Conditional node evaluated: "@ + node@.id;
    assert(n =~= "Conditional node evaluated: "@ + node@.id + Seq::<char>::empty());
    assert(crate::text::within(node@.id, n));
}

/// What a panic said is kept.
pub proof fn lemma_panics_keep_their_words(m: Seq<char>)
    ensures
        crate::text::within(m, panic_text(Some(m))),
        crate::text::within(panic_text(None), panic_text(Some(m))),
{
    let t = panic_text(Some(m));
    assert(t =~= "handler panicked: "@ + m + Seq::<char>::empty());
    reveal_strlit("handler panicked: ");
    reveal_strlit("handler panicked");
    assert(t =~= Seq::<char>::empty() + "handler panicked"@ + (seq![':', ' '] + m));
}

} // verus!
