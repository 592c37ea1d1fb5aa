//! Who acts in the callbacks of a run, and in which order.
use vstd::prelude::*;

verus! {

/// A point in a run at which its parts act.
#[derive(Clone, Copy, Debug, PartialEq, Eq, Structural)]
pub enum Callback {
    RunStart,
    BeforeNode,
    BeforeAttempt,
    AfterAttempt,
    AfterNode,
    EdgeSelected,
    Checkpoint,
}

/// A part of a run that acts in callbacks.
#[derive(Clone, Copy, Debug, PartialEq, Eq, Structural)]
pub enum Part {
    /// Holds the run while it is paused.
    Pause,
    /// Wakes the sandbox, which may have stopped meanwhile.
    Sandbox,
    /// Tells whoever asked for it which node is next.
    OnNode,
    /// Hands out the identities of stage executions.
    Executions,
    /// Seeds the context, and sets back what a restart sets back.
    Seed,
    /// Sees to what a stage knows of the stages before it.
    Fidelity,
    AutoStatus,
    CircuitBreaker,
    /// Keeps the files and the large values of stages.
    Artifacts,
    Git,
    /// Tells whoever watches the run.
    Events,
    /// Asks the hooks of the run.
    Hooks,
}

/// The parts that act in a callback, in their order.
pub open spec fn parts(callback: Callback) -> Seq<Part> {
    match callback {
        Callback::RunStart => seq![
            Part::Seed,
            Part::Artifacts,
            Part::Events,
            Part::Hooks,
            Part::Git,
        ],
        Callback::BeforeNode => seq![
            Part::Pause,
            Part::Sandbox,
            Part::OnNode,
            Part::Executions,
            Part::Fidelity,
        ],
        Callback::BeforeAttempt => seq![
            Part::Hooks,
            Part::Executions,
            Part::Events,
            Part::Artifacts,
        ],
        Callback::AfterAttempt => seq![
            Part::Pause,
            Part::Sandbox,
            Part::Artifacts,
            Part::Events,
        ],
        Callback::AfterNode => seq![
            Part::AutoStatus,
            Part::CircuitBreaker,
            Part::Artifacts,
            Part::Events,
            Part::Hooks,
        ],
        Callback::EdgeSelected => seq![
            Part::Fidelity,
            Part::Events,
            Part::Hooks,
            Part::CircuitBreaker,
        ],
        Callback::Checkpoint => seq![
            Part::Executions,
            Part::Git,
            Part::Events,
            Part::Hooks,
        ],
    }
}

/// The parts that act in a callback, in their order.
pub fn order_of(callback: Callback) -> (r: Vec<Part>)
    ensures
        r@ == parts(callback),
{
    let r = match callback {
        Callback::RunStart => vec![
            Part::Seed,
            Part::Artifacts,
            Part::Events,
            Part::Hooks,
            Part::Git,
        ],
        Callback::BeforeNode => vec![
            Part::Pause,
            Part::Sandbox,
            Part::OnNode,
            Part::Executions,
            Part::Fidelity,
        ],
        Callback::BeforeAttempt => vec![
            Part::Hooks,
            Part::Executions,
            Part::Events,
            Part::Artifacts,
        ],
        Callback::AfterAttempt => vec![
            Part::Pause,
            Part::Sandbox,
            Part::Artifacts,
            Part::Events,
        ],
        Callback::AfterNode => vec![
            Part::AutoStatus,
            Part::CircuitBreaker,
            Part::Artifacts,
            Part::Events,
            Part::Hooks,
        ],
        Callback::EdgeSelected => vec![
            Part::Fidelity,
            Part::Events,
            Part::Hooks,
            Part::CircuitBreaker,
        ],
        Callback::Checkpoint => vec![
            Part::Executions,
            Part::Git,
            Part::Events,
            Part::Hooks,
        ],
    };
    assert(r@ =~= parts(callback));
    r
}

/// Whether one part acts before another wherever both act in a callback.
pub open spec fn before(callback: Callback, first: Part, second: Part) -> bool {
    forall|i: int, j: int|
        0 <= i < parts(callback).len() && 0 <= j < parts(callback).len()
            && #[trigger] parts(callback)[i] == first && #[trigger] parts(callback)[j] == second
            ==> i < j
}

/// Whoever watches the run, and then the hooks, come last after a node: what
/// they see of its outcome is settled.
pub proof fn lemma_outcomes_are_settled_before_they_are_seen(settling: Part)
    requires
        settling == Part::AutoStatus || settling == Part::CircuitBreaker || settling
            == Part::Artifacts,
    ensures
        parts(Callback::AfterNode).contains(settling),
        parts(Callback::AfterNode).contains(Part::Events),
        parts(Callback::AfterNode).contains(Part::Hooks),
        before(Callback::AfterNode, settling, Part::Events),
        before(Callback::AfterNode, settling, Part::Hooks),
        before(Callback::AfterNode, Part::Events, Part::Hooks),
{
    let all = parts(Callback::AfterNode);
    assert(all[0] == Part::AutoStatus && all[1] == Part::CircuitBreaker && all[2]
        == Part::Artifacts && all[3] == Part::Events && all[4] == Part::Hooks);
}

/// Wherever both are told, whoever watches the run hears of it before the hooks
/// do, but for an attempt: a hook may skip or block that before it is seen to
/// start, and before an identity is reserved for it.
pub proof fn lemma_events_come_before_hooks(callback: Callback)
    ensures
        callback != Callback::BeforeAttempt ==> before(callback, Part::Events, Part::Hooks),
        callback == Callback::BeforeAttempt ==> before(callback, Part::Hooks, Part::Events)
            && before(callback, Part::Hooks, Part::Executions),
        before(Callback::EdgeSelected, Part::Hooks, Part::CircuitBreaker),
        before(Callback::Checkpoint, Part::Git, Part::Events),
        before(callback, Part::Pause, Part::Sandbox),
{
}

} // verus!
