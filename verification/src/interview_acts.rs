//! What is done around the interviews of a stage, and in which order.
use crate::interview::{
    InterviewEvent, InterviewEventView, InterviewStarted, InterviewStartedView,
};
use crate::interview_block::{blocked, counted, lemma_resolve_undoes_block, resolved};
use crate::stage_id::StageIdView;
use vstd::prelude::*;

verus! {

/// What is done around interviews.
#[derive(Debug, PartialEq)]
pub enum InterviewAct {
    TellStarted(InterviewStarted),
    /// Count one more unresolved interview of the stage.
    Block,
    TellEnded(InterviewEvent),
    /// Count it as resolved.
    Resolve,
}

pub enum ActView {
    TellStarted(InterviewStartedView),
    Block,
    TellEnded(InterviewEventView),
    Resolve,
}

impl View for InterviewAct {
    type V = ActView;

    open spec fn view(&self) -> ActView {
        match self {
            InterviewAct::TellStarted(event) => ActView::TellStarted(event@),
            InterviewAct::Block => ActView::Block,
            InterviewAct::TellEnded(event) => ActView::TellEnded(event@),
            InterviewAct::Resolve => ActView::Resolve,
        }
    }
}

impl DeepView for InterviewAct {
    type V = ActView;

    open spec fn deep_view(&self) -> ActView {
        self@
    }
}

/// Every start is told, then the stage is blocked.
pub open spec fn opening(started: Seq<InterviewStartedView>) -> Seq<ActView> {
    started.map_values(|event: InterviewStartedView| ActView::TellStarted(event)).push(
        ActView::Block,
    )
}

/// Every end is told, then the stage is resolved.
pub open spec fn closing(ended: Seq<InterviewEventView>) -> Seq<ActView> {
    ended.map_values(|event: InterviewEventView| ActView::TellEnded(event)).push(ActView::Resolve)
}

/// What is done when interviews are asked for together.
pub fn open_interviews(started: Vec<InterviewStarted>) -> (r: Vec<InterviewAct>)
    ensures
        r.deep_view() == opening(started.deep_view()),
{
    let ghost all = started.deep_view();
    let ghost tells = all.map_values(|event: InterviewStartedView| ActView::TellStarted(event));
    let ghost items = started@;
    let mut rest = started;
    let n: usize = rest.len();
    let mut acts: Vec<InterviewAct> = Vec::new();
    let mut i: usize = 0;
    assert(acts.deep_view() =~= tells.take(0));
    while i < n
        invariant
            i <= n,
            n == items.len(),
            rest@ == items.skip(i as int),
            tells.len() == n,
            forall|k: int|
                0 <= k < n ==> #[trigger] tells[k] == ActView::TellStarted(items[k]@),
            acts.deep_view() == tells.take(i as int),
        decreases n - i,
    {
        let ghost had = acts.deep_view();
        let event = rest.remove(0);
        assert(event == items[i as int]);
        assert(rest@ =~= items.skip(i + 1));
        acts.push(InterviewAct::TellStarted(event));
        assert(acts.deep_view() =~= had.push(tells[i as int]));
        i += 1;
        assert(acts.deep_view() =~= tells.take(i as int));
    }
    acts.push(InterviewAct::Block);
    assert(tells.take(n as int) =~= tells);
    assert(acts.deep_view() =~= opening(all));
    acts
}

/// What is done when the interviews that were asked for together have ended.
pub fn close_interviews(ended: Vec<InterviewEvent>) -> (r: Vec<InterviewAct>)
    ensures
        r.deep_view() == closing(ended.deep_view()),
{
    let ghost all = ended.deep_view();
    let ghost tells = all.map_values(|event: InterviewEventView| ActView::TellEnded(event));
    let ghost items = ended@;
    let mut rest = ended;
    let n: usize = rest.len();
    let mut acts: Vec<InterviewAct> = Vec::new();
    let mut i: usize = 0;
    assert(acts.deep_view() =~= tells.take(0));
    while i < n
        invariant
            i <= n,
            n == items.len(),
            rest@ == items.skip(i as int),
            tells.len() == n,
            forall|k: int| 0 <= k < n ==> #[trigger] tells[k] == ActView::TellEnded(items[k]@),
            acts.deep_view() == tells.take(i as int),
        decreases n - i,
    {
        let ghost had = acts.deep_view();
        let event = rest.remove(0);
        assert(event == items[i as int]);
        assert(rest@ =~= items.skip(i + 1));
        acts.push(InterviewAct::TellEnded(event));
        assert(acts.deep_view() =~= had.push(tells[i as int]));
        i += 1;
        assert(acts.deep_view() =~= tells.take(i as int));
    }
    acts.push(InterviewAct::Resolve);
    assert(tells.take(n as int) =~= tells);
    assert(acts.deep_view() =~= closing(all));
    acts
}

/// What whoever watches the run hears of interviews.
pub enum Heard {
    Started(InterviewStartedView),
    RunBlocked,
    Ended(InterviewEventView),
    RunUnblocked,
}

/// The unresolved interviews after an act of a stage.
pub open spec fn after_act(state: Map<StageIdView, nat>, id: StageIdView, act: ActView) -> Map<
    StageIdView,
    nat,
> {
    match act {
        ActView::Block => blocked(state, id),
        ActView::Resolve => resolved(state, id),
        _ => state,
    }
}

/// What is heard of one act: the run is said to be blocked with its first
/// unresolved interview, and to go on with the resolution of its last.
pub open spec fn heard_of(state: Map<StageIdView, nat>, id: StageIdView, act: ActView) -> Seq<
    Heard,
> {
    match act {
        ActView::TellStarted(event) => seq![Heard::Started(event)],
        ActView::TellEnded(event) => seq![Heard::Ended(event)],
        ActView::Block => if state == Map::<StageIdView, nat>::empty() {
            seq![Heard::RunBlocked]
        } else {
            Seq::empty()
        },
        ActView::Resolve => if resolved(state, id) == Map::<StageIdView, nat>::empty() {
            seq![Heard::RunUnblocked]
        } else {
            Seq::empty()
        },
    }
}

/// The unresolved interviews after acts of a stage.
pub open spec fn after_acts(
    state: Map<StageIdView, nat>,
    id: StageIdView,
    acts: Seq<ActView>,
) -> Map<StageIdView, nat>
    decreases acts.len(),
{
    if acts.len() == 0 {
        state
    } else {
        after_act(after_acts(state, id, acts.drop_last()), id, acts.last())
    }
}

/// What is heard of acts of a stage.
pub open spec fn heard(state: Map<StageIdView, nat>, id: StageIdView, acts: Seq<ActView>) -> Seq<
    Heard,
>
    decreases acts.len(),
{
    if acts.len() == 0 {
        Seq::empty()
    } else {
        heard(state, id, acts.drop_last()) + heard_of(
            after_acts(state, id, acts.drop_last()),
            id,
            acts.last(),
        )
    }
}

proof fn lemma_heard_in_turn(
    state: Map<StageIdView, nat>,
    id: StageIdView,
    first: Seq<ActView>,
    second: Seq<ActView>,
)
    ensures
        after_acts(state, id, first + second) == after_acts(
            after_acts(state, id, first),
            id,
            second,
        ),
        heard(state, id, first + second) == heard(state, id, first) + heard(
            after_acts(state, id, first),
            id,
            second,
        ),
    decreases second.len(),
{
    if second.len() == 0 {
        assert(first + second =~= first);
        assert(heard(state, id, first) + heard(after_acts(state, id, first), id, second) =~= heard(
            state,
            id,
            first,
        ));
    } else {
        assert((first + second).drop_last() =~= first + second.drop_last());
        assert((first + second).last() == second.last());
        lemma_heard_in_turn(state, id, first, second.drop_last());
        assert(heard(state, id, first + second) =~= heard(state, id, first) + heard(
            after_acts(state, id, first),
            id,
            second,
        ));
    }
}

proof fn lemma_starts_are_heard(
    state: Map<StageIdView, nat>,
    id: StageIdView,
    started: Seq<InterviewStartedView>,
)
    ensures
        ({
            let tells = started.map_values(
                |event: InterviewStartedView| ActView::TellStarted(event),
            );
            &&& after_acts(state, id, tells) == state
            &&& heard(state, id, tells) == started.map_values(
                |event: InterviewStartedView| Heard::Started(event),
            )
        }),
    decreases started.len(),
{
    let tells = started.map_values(|event: InterviewStartedView| ActView::TellStarted(event));
    if started.len() > 0 {
        lemma_starts_are_heard(state, id, started.drop_last());
        assert(tells.drop_last() =~= started.drop_last().map_values(
            |event: InterviewStartedView| ActView::TellStarted(event),
        ));
    }
    assert(heard(state, id, tells) =~= started.map_values(
        |event: InterviewStartedView| Heard::Started(event),
    ));
}

proof fn lemma_ends_are_heard(
    state: Map<StageIdView, nat>,
    id: StageIdView,
    ended: Seq<InterviewEventView>,
)
    ensures
        ({
            let tells = ended.map_values(|event: InterviewEventView| ActView::TellEnded(event));
            &&& after_acts(state, id, tells) == state
            &&& heard(state, id, tells) == ended.map_values(
                |event: InterviewEventView| Heard::Ended(event),
            )
        }),
    decreases ended.len(),
{
    let tells = ended.map_values(|event: InterviewEventView| ActView::TellEnded(event));
    if ended.len() > 0 {
        lemma_ends_are_heard(state, id, ended.drop_last());
        assert(tells.drop_last() =~= ended.drop_last().map_values(
            |event: InterviewEventView| ActView::TellEnded(event),
        ));
    }
    assert(heard(state, id, tells) =~= ended.map_values(
        |event: InterviewEventView| Heard::Ended(event),
    ));
}

/// Interviews are heard of in this order: their starts, that the run is blocked,
/// their ends, that the run goes on. Where another interview of the run is
/// unresolved, the run is blocked already and stays so, and neither is said. The
/// unresolved interviews are as they were before.
pub proof fn lemma_interviews_are_heard_in_order(
    state: Map<StageIdView, nat>,
    id: StageIdView,
    started: Seq<InterviewStartedView>,
    ended: Seq<InterviewEventView>,
)
    requires
        counted(state),
    ensures
        ({
            let acts = opening(started) + closing(ended);
            let starts = started.map_values(|event: InterviewStartedView| Heard::Started(event));
            let ends = ended.map_values(|event: InterviewEventView| Heard::Ended(event));
            &&& after_acts(state, id, acts) == state
            &&& heard(state, id, acts) == if state == Map::<StageIdView, nat>::empty() {
                starts + seq![Heard::RunBlocked] + ends + seq![Heard::RunUnblocked]
            } else {
                starts + ends
            }
        }),
{
    let during = blocked(state, id);
    let starts = started.map_values(|event: InterviewStartedView| Heard::Started(event));
    let ends = ended.map_values(|event: InterviewEventView| Heard::Ended(event));
    lemma_starts_are_heard(state, id, started);
    lemma_ends_are_heard(during, id, ended);
    lemma_resolve_undoes_block(state, id);
    let o = opening(started);
    let c = closing(ended);
    assert(o.drop_last() =~= started.map_values(
        |event: InterviewStartedView| ActView::TellStarted(event),
    ));
    assert(c.drop_last() =~= ended.map_values(
        |event: InterviewEventView| ActView::TellEnded(event),
    ));
    assert(after_acts(state, id, o) == during);
    lemma_heard_in_turn(state, id, o, c);
    assert(heard(state, id, o + c) =~= if state == Map::<StageIdView, nat>::empty() {
        starts + seq![Heard::RunBlocked] + ends + seq![Heard::RunUnblocked]
    } else {
        starts + ends
    });
}

} // verus!
