//! Joins the results of a preceding parallel node.
use crate::context::Context;
use crate::error::{handler_error, Error};
use crate::graph::{Node, NodeView};
use crate::handler::branch_result::{branch_count, validated_branch_count};
use crate::outcome::{success, Outcome, OutcomeView};
use crate::text::{decimal, decimal_string, trim, trimmed};
use vstd::prelude::*;
use vstd::string::*;

verus! {

/// Joins parallel results. A node without a prompt is a barrier; one with a
/// prompt runs as a prompt stage on `backend`.
pub struct FanInHandler<B> {
    backend: Option<B>,
}

/// What a fan-in does next.
#[derive(Debug, PartialEq)]
pub enum JoinStep {
    /// Run the node as a prompt stage.
    Prompt,
    Joined(Outcome),
}

/// The outcome of a fan-in without a prompt.
pub open spec fn joined(branch_count: nat, simulated: bool) -> OutcomeView {
    OutcomeView {
        notes: Some(
            (if simulated {
                "[Simulated] "@
            } else {
                Seq::empty()
            }) + "Joined "@ + decimal(branch_count) + " parallel "@ + if branch_count == 1 {
                "branch"@
            } else {
                "branches"@
            },
        ),
        ..success()
    }
}

pub fn joined_outcome(branch_count: usize, simulated: bool) -> (r: Outcome)
    ensures
        r@ == joined(branch_count as nat, simulated),
{
    let mut notes = String::new();
    if simulated {
        notes.append("[Simulated] ");
        assert(notes@ =~= "[Simulated] "@);
    } else {
        assert(notes@ =~= Seq::<char>::empty());
    }
    notes.append("Joined ");
    notes.append(decimal_string(branch_count as u64).as_str());
    notes.append(" parallel ");
    notes.append(
        if branch_count == 1 {
            "branch"
        } else {
            "branches"
        },
    );
    let mut outcome = Outcome::success();
    outcome.notes = Some(notes);
    outcome
}

/// Whether a node has a prompt that is more than white space.
pub open spec fn prompted(node: NodeView) -> bool {
    match node.text("prompt"@) {
        Some(p) => trim(p).len() > 0,
        None => false,
    }
}

impl<B> FanInHandler<B> {
    pub closed spec fn engine(&self) -> Option<B> {
        self.backend
    }

    pub fn new(backend: Option<B>) -> (r: Self)
        ensures
            r.engine() == backend,
    {
        FanInHandler { backend }
    }

    /// The backend for nodes with a prompt.
    pub fn backend(&self) -> (r: &Option<B>)
        ensures
            *r == self.engine(),
    {
        &self.backend
    }

    /// Joins the results, or hands a node with a prompt on. Missing or
    /// malformed results are an error either way.
    pub fn run_join(&self, node: &Node, context: &Context, simulated: bool) -> (r: Result<
        JoinStep,
        Error,
    >)
        ensures
            match branch_count(context@) {
                Err(reason) => r matches Err(e) && e@ == handler_error(reason),
                Ok(n) => if prompted(node@) {
                    r matches Ok(JoinStep::Prompt)
                } else {
                    r matches Ok(JoinStep::Joined(o)) && o@ == joined(n, simulated)
                },
            },
    {
        let count: usize = match validated_branch_count(context) {
            Ok(count) => count,
            Err(err) => {
                return Err(err);
            },
        };
        if let Some(prompt) = node.prompt() {
            if !trimmed(prompt).as_str().is_empty() {
                return Ok(JoinStep::Prompt);
            }
        }
        Ok(JoinStep::Joined(joined_outcome(count, simulated)))
    }
}

/// A fan-in without a prompt succeeds, says how many branches it joined, and
/// leaves everything else to its results.
pub proof fn lemma_joins_count_their_branches(branch_count: nat, simulated: bool)
    ensures
        ({
            let o = joined(branch_count, simulated);
            &&& o.status == crate::outcome::StageOutcome::Succeeded
            &&& o.failure is None && o.preferred_label is None && o.jump_to_node is None
            &&& o.suggested_next_ids.len() == 0 && o.files_touched.len() == 0 && o.usage is None
            &&& o.context_updates == Map::<Seq<char>, crate::json::JsonView>::empty()
            &&& !simulated && branch_count == 1 ==> o.notes == Some("Joined 1 parallel branch"@)
            &&& !simulated && branch_count != 1 ==> o.notes == Some(
                "Joined "@ + decimal(branch_count) + " parallel branches"@,
            )
        }),
{
    reveal_strlit("Joined ");
    reveal_strlit(" parallel ");
    reveal_strlit("branch");
    reveal_strlit("branches");
    reveal_strlit("Joined 1 parallel branch");
    reveal_strlit(" parallel branches");
    assert(decimal(1) =~= seq!['1']);
    if !simulated {
        if branch_count == 1 {
            assert(joined(1, false).notes.unwrap() =~= "Joined 1 parallel branch"@);
        } else {
            assert(joined(branch_count, false).notes.unwrap() =~= "Joined "@ + decimal(branch_count)
                + " parallel branches"@);
        }
    }
}

/// A dry run joins as a run does, and says that it is one.
pub proof fn lemma_dry_joins_say_so(branch_count: nat)
    ensures
        ({
            let wet = joined(branch_count, false);
            let dry = joined(branch_count, true);
            &&& wet.notes matches Some(n) && dry.notes == Some("[Simulated] "@ + n)
            &&& (OutcomeView { notes: wet.notes, ..dry }) == wet
        }),
{
    let wet = joined(branch_count, false).notes.unwrap();
    let dry = joined(branch_count, true).notes.unwrap();
    assert(dry =~= "[Simulated] "@ + wet);
}

/// A join needs results that count, whatever its node says. With them, it runs as a
/// prompt exactly where its prompt is more than white space, and is done otherwise.
pub proof fn lemma_joins_with_a_prompt_run_it<B>(
    handler: &FanInHandler<B>,
    node: &Node,
    context: &Context,
    simulated: bool,
    r: Result<JoinStep, Error>,
)
    requires
        call_ensures(FanInHandler::<B>::run_join, (handler, node, context, simulated), r),
    ensures
        r is Err <==> branch_count(context@) is Err,
        r is Ok ==> (r->Ok_0 is Prompt <==> node@.attrs.contains_key("prompt"@) && (
        node@.attrs["prompt"@] matches crate::graph::AttrView::String(p) && trim(p).len() > 0)),
        r matches Ok(JoinStep::Joined(o)) ==> o@.status is Succeeded && o@.notes is Some,
{
}

} // verus!
