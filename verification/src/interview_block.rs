//! Which stages wait for human input.
use crate::stage_id::{StageId, StageIdView};
use crate::table::Duplicate;
use vstd::prelude::*;

verus! {

/// A stage and the number of its unresolved interviews.
#[derive(Debug, PartialEq)]
struct BlockedStage {
    stage: StageId,
    count: usize,
}

spec fn distinct(entries: Seq<BlockedStage>) -> bool {
    forall|i: int, j: int|
        0 <= i < j < entries.len() ==> (#[trigger] entries[i]).stage@ != (
        #[trigger] entries[j]).stage@
}

spec fn counts(entries: Seq<BlockedStage>) -> Map<StageIdView, nat> {
    Map::new(
        |id: StageIdView| exists|i: int| 0 <= i < entries.len() && (#[trigger] entries[i]).stage@ == id,
        |id: StageIdView|
            entries[choose|i: int|
                0 <= i < entries.len() && (#[trigger] entries[i]).stage@ == id].count as nat,
    )
}

proof fn lemma_count_at(entries: Seq<BlockedStage>, i: int)
    requires
        distinct(entries),
        0 <= i < entries.len(),
    ensures
        counts(entries).contains_key(entries[i].stage@),
        counts(entries)[entries[i].stage@] == entries[i].count,
{
    let id = entries[i].stage@;
    let k = choose|k: int| 0 <= k < entries.len() && (#[trigger] entries[k]).stage@ == id;
    assert(entries[i].stage@ == id);
    assert(k == i);
}

/// A map that holds exactly what the entries say is the map of the entries.
proof fn lemma_counts_are(entries: Seq<BlockedStage>, m: Map<StageIdView, nat>)
    requires
        distinct(entries),
        forall|i: int|
            0 <= i < entries.len() ==> m.contains_key((#[trigger] entries[i]).stage@)
                && m[entries[i].stage@] == entries[i].count,
        forall|id: StageIdView| #[trigger]
            m.contains_key(id) ==> exists|i: int|
                0 <= i < entries.len() && (#[trigger] entries[i]).stage@ == id,
    ensures
        counts(entries) == m,
{
    assert forall|id: StageIdView| counts(entries).contains_key(id) == m.contains_key(id) by {}
    assert forall|id: StageIdView| counts(entries).contains_key(id) implies counts(entries)[id]
        == m[id] by {
        let i = choose|i: int| 0 <= i < entries.len() && (#[trigger] entries[i]).stage@ == id;
        lemma_count_at(entries, i);
    }
    assert(counts(entries) =~= m);
}

/// The unresolved interviews of each stage. A stage is present only while it
/// has some, so the run is blocked exactly when a stage is present.
#[derive(Debug, PartialEq)]
pub struct InterviewBlockState {
    entries: Vec<BlockedStage>,
}

impl View for InterviewBlockState {
    type V = Map<StageIdView, nat>;

    closed spec fn view(&self) -> Map<StageIdView, nat> {
        counts(self.entries@)
    }
}

/// The counts after one more interview of a stage.
pub open spec fn blocked(state: Map<StageIdView, nat>, id: StageIdView) -> Map<StageIdView, nat> {
    state.insert(
        id,
        if state.contains_key(id) {
            state[id] + 1
        } else {
            1
        },
    )
}

/// The counts after one interview of a stage was resolved. A stage that is
/// not present stays so.
pub open spec fn resolved(state: Map<StageIdView, nat>, id: StageIdView) -> Map<StageIdView, nat> {
    if !state.contains_key(id) {
        state
    } else if state[id] <= 1 {
        state.remove(id)
    } else {
        state.insert(id, (state[id] - 1) as nat)
    }
}

/// Whether every stage in a state has an unresolved interview.
pub open spec fn counted(state: Map<StageIdView, nat>) -> bool {
    forall|id: StageIdView| #[trigger] state.contains_key(id) ==> state[id] > 0
}

impl InterviewBlockState {
    #[verifier::type_invariant]
    spec fn inv(self) -> bool {
        &&& distinct(self.entries@)
        &&& forall|i: int| 0 <= i < self.entries@.len() ==> (#[trigger] self.entries@[i]).count > 0
    }

    /// No stage is kept with a count of zero.
    proof fn lemma_counted(entries: Seq<BlockedStage>)
        requires
            distinct(entries),
            forall|i: int| 0 <= i < entries.len() ==> (#[trigger] entries[i]).count > 0,
        ensures
            counted(counts(entries)),
    {
        assert forall|id: StageIdView| #[trigger] counts(entries).contains_key(id) implies counts(
            entries,
        )[id] > 0 by {
            let i = choose|i: int| 0 <= i < entries.len() && (#[trigger] entries[i]).stage@ == id;
            lemma_count_at(entries, i);
        }
    }

    pub fn new() -> (r: Self)
        ensures
            r@ == Map::<StageIdView, nat>::empty(),
            counted(r@),
    {
        let r = InterviewBlockState { entries: Vec::new() };
        assert(r@ =~= Map::empty());
        r
    }

    pub fn is_run_blocked(&self) -> (r: bool)
        ensures
            r == (self@ != Map::<StageIdView, nat>::empty()),
            r == exists|id: StageIdView| self@.contains_key(id) && #[trigger] self@[id] > 0,
            counted(self@),
    {
        proof {
            use_type_invariant(self);
            Self::lemma_counted(self.entries@);
        }
        let r = self.entries.len() > 0;
        proof {
            if r {
                lemma_count_at(self.entries@, 0);
                let id = self.entries@[0].stage@;
                assert(self@.contains_key(id) && self@[id] > 0);
                assert(!Map::<StageIdView, nat>::empty().contains_key(id));
            } else {
                assert(self@ =~= Map::empty());
            }
        }
        r
    }

    pub fn is_stage_blocked(&self, stage: &StageId) -> (r: bool)
        ensures
            r == self@.contains_key(stage@),
            counted(self@),
    {
        proof {
            use_type_invariant(self);
            Self::lemma_counted(self.entries@);
        }
        self.find(stage).is_some()
    }

    fn find(&self, stage: &StageId) -> (r: Option<usize>)
        ensures
            match r {
                Some(i) => i < self.entries@.len() && self.entries@[i as int].stage@ == stage@
                    && self@.contains_key(stage@) && self@[stage@] == self.entries@[i as int].count,
                None => !self@.contains_key(stage@),
            },
    {
        proof {
            use_type_invariant(self);
        }
        let mut i: usize = 0;
        while i < self.entries.len()
            invariant
                i <= self.entries@.len(),
                distinct(self.entries@),
                forall|k: int| 0 <= k < i ==> (#[trigger] self.entries@[k]).stage@ != stage@,
            decreases self.entries@.len() - i,
        {
            if self.entries[i].stage.same_as(stage) {
                proof {
                    lemma_count_at(self.entries@, i as int);
                }
                return Some(i);
            }
            i += 1;
        }
        None
    }

    /// Counts one more unresolved interview of a stage. True where the run was
    /// not blocked before.
    pub fn block(&mut self, stage: &StageId) -> (newly_blocked: bool)
        requires
            old(self)@.contains_key(stage@) ==> old(self)@[stage@] < usize::MAX,
        ensures
            final(self)@ == blocked(old(self)@, stage@),
            newly_blocked == (old(self)@ == Map::<StageIdView, nat>::empty()),
            counted(old(self)@),
            counted(final(self)@),
    {
        proof {
            use_type_invariant(&*self);
            Self::lemma_counted(self.entries@);
        }
        let newly_blocked = !self.is_run_blocked();
        let found = self.find(stage);
        let ghost before = self.entries@;
        let mut entries: Vec<BlockedStage> = Vec::new();
        std::mem::swap(&mut entries, &mut self.entries);
        match found {
            Some(i) => {
                let count: usize = entries[i].count;
                entries.set(i, BlockedStage { stage: stage.duplicate(), count: count + 1 });
            },
            None => {
                entries.push(BlockedStage { stage: stage.duplicate(), count: 1 });
            },
        }
        proof {
            assert(distinct(entries@)) by {
                if found is None {
                    assert forall|k: int| 0 <= k < before.len() implies (
                    #[trigger] before[k]).stage@ != stage@ by {
                        lemma_count_at(before, k);
                    }
                }
            }
            let m = blocked(counts(before), stage@);
            assert forall|i: int| 0 <= i < entries@.len() implies m.contains_key(
                (#[trigger] entries@[i]).stage@,
            ) && m[entries@[i].stage@] == entries@[i].count by {
                if i < before.len() {
                    lemma_count_at(before, i);
                }
            }
            assert forall|id: StageIdView| #[trigger] m.contains_key(id) implies exists|i: int|
                0 <= i < entries@.len() && (#[trigger] entries@[i]).stage@ == id by {
                if id == stage@ {
                    let at = match found {
                        Some(i) => i as int,
                        None => before.len() as int,
                    };
                    assert(entries@[at].stage@ == id);
                } else {
                    let k = choose|k: int| 0 <= k < before.len() && (#[trigger] before[k]).stage@ == id;
                    assert(entries@[k].stage@ == id);
                }
            }
            lemma_counts_are(entries@, m);
        }
        self.entries = entries;
        newly_blocked
    }

    /// Resolves one interview of a stage. True where the run is not blocked
    /// after it.
    pub fn resolve(&mut self, stage: &StageId) -> (unblocked: bool)
        ensures
            final(self)@ == resolved(old(self)@, stage@),
            unblocked == (final(self)@ == Map::<StageIdView, nat>::empty()),
            counted(old(self)@),
            counted(final(self)@),
    {
        proof {
            use_type_invariant(&*self);
            Self::lemma_counted(self.entries@);
        }
        let found = self.find(stage);
        let ghost before = self.entries@;
        if let Some(i) = found {
            let mut entries: Vec<BlockedStage> = Vec::new();
            std::mem::swap(&mut entries, &mut self.entries);
            let count: usize = entries[i].count;
            if count > 1 {
                entries.set(i, BlockedStage { stage: stage.duplicate(), count: count - 1 });
            } else {
                let _ = entries.remove(i);
            }
            proof {
                assert(distinct(entries@)) by {
                    assert forall|a: int, b: int| 0 <= a < b < entries@.len() implies (
                    #[trigger] entries@[a]).stage@ != (#[trigger] entries@[b]).stage@ by {
                        if count <= 1 {
                            let x = if a < i {
                                a
                            } else {
                                a + 1
                            };
                            let y = if b < i {
                                b
                            } else {
                                b + 1
                            };
                            assert(before[x].stage@ != before[y].stage@);
                        }
                    }
                }
                let m = resolved(counts(before), stage@);
                lemma_count_at(before, i as int);
                assert forall|a: int| 0 <= a < entries@.len() implies m.contains_key(
                    (#[trigger] entries@[a]).stage@,
                ) && m[entries@[a].stage@] == entries@[a].count by {
                    let x = if count > 1 || a < i {
                        a
                    } else {
                        a + 1
                    };
                    lemma_count_at(before, x);
                    assert(x == i || before[x].stage@ != before[i as int].stage@);
                }
                assert forall|id: StageIdView| #[trigger] m.contains_key(id) implies exists|a: int|
                    0 <= a < entries@.len() && (#[trigger] entries@[a]).stage@ == id by {
                    let k = choose|k: int| 0 <= k < before.len() && (#[trigger] before[k]).stage@ == id;
                    let at = if count > 1 || k < i {
                        k
                    } else {
                        k - 1
                    };
                    assert(entries@[at].stage@ == id);
                }
                lemma_counts_are(entries@, m);
            }
            self.entries = entries;
        }
        !self.is_run_blocked()
    }
}

/// No operation leaves a stage with a count of zero.
pub proof fn lemma_counts_stay_positive(state: Map<StageIdView, nat>, id: StageIdView)
    requires
        counted(state),
    ensures
        counted(blocked(state, id)),
        counted(resolved(state, id)),
        counted(Map::<StageIdView, nat>::empty()),
{
    assert forall|k: StageIdView| #[trigger] blocked(state, id).contains_key(k) implies blocked(
        state,
        id,
    )[k] > 0 by {
        assert(k == id || state.contains_key(k));
    }
    assert forall|k: StageIdView| #[trigger] resolved(state, id).contains_key(k) implies resolved(
        state,
        id,
    )[k] > 0 by {
        assert(state.contains_key(k));
    }
}

/// What one interview blocks, its resolution releases: the state is as it was
/// before the interview.
pub proof fn lemma_resolve_undoes_block(state: Map<StageIdView, nat>, id: StageIdView)
    requires
        counted(state),
    ensures
        resolved(blocked(state, id), id) == state,
{
    assert(resolved(blocked(state, id), id) =~= state);
}

/// A stage without an unresolved interview is resolved to no effect.
pub proof fn lemma_resolving_the_resolved_is_idle(state: Map<StageIdView, nat>, id: StageIdView)
    requires
        !state.contains_key(id),
    ensures
        resolved(state, id) == state,
{
}

/// The state after `n` more interviews of a stage.
pub open spec fn blocked_times(state: Map<StageIdView, nat>, id: StageIdView, n: nat) -> Map<
    StageIdView,
    nat,
>
    decreases n,
{
    if n == 0 {
        state
    } else {
        blocked(blocked_times(state, id, (n - 1) as nat), id)
    }
}

/// The state after `n` interviews of a stage were resolved.
pub open spec fn resolved_times(state: Map<StageIdView, nat>, id: StageIdView, n: nat) -> Map<
    StageIdView,
    nat,
>
    decreases n,
{
    if n == 0 {
        state
    } else {
        resolved_times(resolved(state, id), id, (n - 1) as nat)
    }
}

/// A stage stays blocked until as many of its interviews are resolved as were
/// asked; then the state is as it was before them.
pub proof fn lemma_every_interview_blocks(
    state: Map<StageIdView, nat>,
    id: StageIdView,
    asked: nat,
    answered: nat,
)
    requires
        counted(state),
        answered <= asked,
    ensures
        resolved_times(blocked_times(state, id, asked), id, answered) == blocked_times(
            state,
            id,
            (asked - answered) as nat,
        ),
        answered < asked ==> resolved_times(
            blocked_times(state, id, asked),
            id,
            answered,
        ).contains_key(id),
        answered == asked ==> resolved_times(blocked_times(state, id, asked), id, answered)
            == state,
    decreases answered,
{
    if answered > 0 {
        let before = blocked_times(state, id, (asked - 1) as nat);
        lemma_blocking_keeps_counts(state, id, (asked - 1) as nat);
        lemma_resolve_undoes_block(before, id);
        lemma_every_interview_blocks(state, id, (asked - 1) as nat, (answered - 1) as nat);
    }
}

proof fn lemma_blocking_keeps_counts(state: Map<StageIdView, nat>, id: StageIdView, n: nat)
    requires
        counted(state),
    ensures
        counted(blocked_times(state, id, n)),
    decreases n,
{
    if n > 0 {
        lemma_blocking_keeps_counts(state, id, (n - 1) as nat);
        lemma_counts_stay_positive(blocked_times(state, id, (n - 1) as nat), id);
    }
}

/// A run is blocked exactly when a stage is.
pub proof fn lemma_blocked_runs_have_a_blocked_stage(state: Map<StageIdView, nat>)
    requires
        counted(state),
    ensures
        state != Map::<StageIdView, nat>::empty() <==> exists|id: StageIdView|
            state.contains_key(id) && #[trigger] state[id] > 0,
{
    if state != Map::<StageIdView, nat>::empty() {
        if forall|id: StageIdView| !state.contains_key(id) {
            assert(state =~= Map::empty());
        }
        let id = choose|id: StageIdView| state.contains_key(id);
        assert(state.contains_key(id) && state[id] > 0);
    }
}

/// A stage's interviews leave other stages as they are.
pub proof fn lemma_other_stages_are_kept(
    state: Map<StageIdView, nat>,
    id: StageIdView,
    other: StageIdView,
)
    requires
        other != id,
    ensures
        blocked(state, id).contains_key(other) == state.contains_key(other),
        resolved(state, id).contains_key(other) == state.contains_key(other),
        state.contains_key(other) ==> blocked(state, id)[other] == state[other] && resolved(
            state,
            id,
        )[other] == state[other],
{
}

} // verus!
