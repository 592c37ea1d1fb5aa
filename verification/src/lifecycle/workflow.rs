//! The callbacks of a run, in their order.
use crate::context::{Context, Values};
use crate::graph::{attr_text, flag_attr, get_flag, Graph, GraphView, Node};
use crate::hook_context::{HookContext, HookContextView, HookEvent};
use crate::json::{Json, JsonView};
use crate::keys::{
    concat, graph_attr_key, retry_count_key, FAILURE_CLASS, FAILURE_SIGNATURE, GRAPH_GOAL,
    GRAPH_PREFIX, INTERNAL_RUN_ID, INTERNAL_STAGE_EXECUTION_ORDINAL, INTERNAL_WORK_DIR, OUTCOME,
    PREFERRED_LABEL,
};
use crate::lifecycle::artifact::{ArtifactLifecycle, Identity};
use crate::lifecycle::auto_status::AutoStatusLifecycle;
use crate::lifecycle::event::{
    after_node, checkpoint, edge_selected, git_events, node_events, on_checkpoint,
    on_edge_selected, scope_of, Durable, EventLifecycle, Selection, SelectionView,
};
use crate::lifecycle::events::{scoped, unscoped, Emission, EventView, RunStarted, RunStartedView};
use crate::lifecycle::fidelity::{begun, begun_fidelity, FidelityLifecycle, StageEntry};
use crate::lifecycle::hook::{EdgeDecision, HookLifecycle};
use crate::lifecycle::state::{
    FailureSignatures, GitCheckpointResult, NodeResult, RunState, StageExecution,
};
use crate::order::{copy_texts, lemma_next_joins};
use crate::outcome::{FailureCategory, Outcome, OutcomeView, StageOutcome};
use crate::table::{Duplicate, Table};
use crate::text::decimal;
use vstd::prelude::*;
use vstd::string::*;

verus! {

/// Where the work of a run is committed.
#[derive(Debug, PartialEq)]
pub struct GitOptions {
    pub base_sha: Option<String>,
    pub run_branch: Option<String>,
}

/// How a run was asked for.
#[derive(Debug, PartialEq)]
pub struct RunOptions {
    pub run_id: String,
    pub base_branch: Option<String>,
    pub git: Option<GitOptions>,
    /// Which files stages leave are kept.
    pub artifact_globs: Vec<String>,
}

impl RunOptions {
    pub open spec fn base_sha(&self) -> Option<Seq<char>> {
        match self.git {
            Some(git) => git.base_sha.deep_view(),
            None => None,
        }
    }

    pub open spec fn run_branch(&self) -> Option<Seq<char>> {
        match self.git {
            Some(git) => git.run_branch.deep_view(),
            None => None,
        }
    }
}

/// The directory that a run works in, where it has a branch of its own.
pub open spec fn worktree(
    run_branch: Option<Seq<char>>,
    work_dir: Option<Seq<char>>,
) -> Option<Seq<char>> {
    if run_branch is Some {
        work_dir
    } else {
        None
    }
}

/// The event for the start of a run.
pub open spec fn run_started(
    graph: GraphView,
    options: &RunOptions,
    work_dir: Option<Seq<char>>,
) -> RunStartedView {
    RunStartedView {
        name: graph.name,
        run_id: options.run_id@,
        base_branch: options.base_branch.deep_view(),
        base_sha: options.base_sha(),
        run_branch: options.run_branch(),
        worktree_dir: worktree(options.run_branch(), work_dir),
        goal: if graph.goal().len() > 0 {
            Some(graph.goal())
        } else {
            None
        },
    }
}

/// The attributes of a graph as context values.
pub open spec fn graph_values(graph: GraphView) -> Values {
    Map::new(
        |key: Seq<char>|
            GRAPH_PREFIX@.is_prefix_of(key) && graph.attrs.contains_key(
                key.skip(GRAPH_PREFIX@.len() as int),
            ),
        |key: Seq<char>|
            JsonView::Str(attr_text(graph.attrs[key.skip(GRAPH_PREFIX@.len() as int)])),
    )
}

/// A context that mirrors the attributes of the graph.
pub open spec fn mirrored(values: Values, graph: GraphView) -> Values {
    (if graph.goal().len() > 0 {
        values.insert(GRAPH_GOAL@, JsonView::Str(graph.goal()))
    } else {
        values
    }).union_prefer_right(graph_values(graph))
}

/// A context that says which run it belongs to.
pub open spec fn identified(
    values: Values,
    run_id: Seq<char>,
    work_dir: Option<Seq<char>>,
) -> Values {
    let named = values.insert(INTERNAL_RUN_ID@, JsonView::Str(run_id));
    match work_dir {
        Some(dir) => named.insert(INTERNAL_WORK_DIR@, JsonView::Str(dir)),
        None => named,
    }
}

/// A context at the start of a run. One that is resumed keeps its graph values.
pub open spec fn seeded(
    values: Values,
    graph: GraphView,
    run_id: Seq<char>,
    work_dir: Option<Seq<char>>,
    resumed: bool,
) -> Values {
    identified(
        if resumed {
            values
        } else {
            mirrored(values, graph)
        },
        run_id,
        work_dir,
    )
}

fn mirror_attrs(graph: &Graph, context: &mut Context)
    ensures
        final(context)@ == old(context)@.union_prefer_right(graph_values(graph@)),
{
    let keys = graph.attrs.keys();
    let ghost all = keys.deep_view();
    let ghost start = context@;
    let ghost model = graph_values(graph@);
    let ghost p = GRAPH_PREFIX@.len() as int;
    let mut i: usize = 0;
    while i < keys.len()
        invariant
            i <= keys@.len(),
            all == keys.deep_view(),
            all.to_set() == graph@.attrs.dom(),
            model == graph_values(graph@),
            p == GRAPH_PREFIX@.len(),
            forall|key: Seq<char>| #[trigger]
                context@.contains_key(key) == (start.contains_key(key) || (model.contains_key(key)
                    && all.take(i as int).to_set().contains(key.skip(p)))),
            forall|key: Seq<char>| #[trigger]
                context@.contains_key(key) ==> context@[key] == if model.contains_key(key)
                    && all.take(i as int).to_set().contains(key.skip(p)) {
                    model[key]
                } else {
                    start[key]
                },
        decreases keys@.len() - i,
    {
        let ghost name = all[i as int];
        proof {
            lemma_next_joins(all, i as int);
            assert(name == keys@[i as int]@);
            assert(all.contains(name));
            assert(graph@.attrs.dom().contains(name));
        }
        let key = graph_attr_key(keys[i].as_str());
        proof {
            assert(key@.skip(p) =~= name);
            assert(GRAPH_PREFIX@.is_prefix_of(key@));
            assert forall|other: Seq<char>|
                GRAPH_PREFIX@.is_prefix_of(other) && other.skip(p) == name implies other
                == key@ by {
                assert(other =~= other.take(p) + other.skip(p));
                assert(key@ =~= key@.take(p) + key@.skip(p));
                assert(other.take(p) =~= GRAPH_PREFIX@);
                assert(key@.take(p) =~= GRAPH_PREFIX@);
            }
        }
        if let Some(value) = graph.attrs.get(keys[i].as_str()) {
            context.insert(key, Json::Str(value.to_string_value()));
        }
        i += 1;
    }
    proof {
        assert(all.take(i as int) =~= all);
        assert(context@ =~= start.union_prefer_right(model));
    }
}

/// When the sandbox is made ready.
#[derive(Clone, Copy, Debug, PartialEq, Eq, Structural)]
pub enum Activation {
    BeforeNode,
    AfterAttempt,
}

/// What a failure to make the sandbox ready is reported as.
pub fn activation_error(when: Activation, node_id: &str) -> (r: String)
    ensures
        r@ == match when {
            Activation::BeforeNode => "failed to activate sandbox before node "@ + node_id@,
            Activation::AfterAttempt => "failed to activate sandbox after node attempt "@
                + node_id@,
        },
{
    match when {
        Activation::BeforeNode => concat("failed to activate sandbox before node ", node_id),
        Activation::AfterAttempt => concat(
            "failed to activate sandbox after node attempt ",
            node_id,
        ),
    }
}

/// Notes the stage execution that a context serves.
pub fn note_execution(context: &mut Context, ordinal: u32)
    ensures
        final(context)@ == old(context)@.insert(
            INTERNAL_STAGE_EXECUTION_ORDINAL@,
            JsonView::Number(decimal(ordinal as nat)),
        ),
{
    context.insert(
        INTERNAL_STAGE_EXECUTION_ORDINAL.to_owned(),
        Json::from_u64(ordinal as u64),
    );
}

/// A classified failure.
#[derive(Debug, PartialEq)]
pub struct ClassifiedFailure {
    pub category: FailureCategory,
    pub signature: String,
}

/// A context that says how a node ended.
pub open spec fn recorded(
    values: Values,
    node_id: Seq<char>,
    retries: Map<Seq<char>, u32>,
    outcome: OutcomeView,
    failure: Option<(FailureCategory, Seq<char>)>,
) -> Values {
    let retry_count: nat = if retries.contains_key(node_id) {
        retries[node_id] as nat
    } else {
        0
    };
    let told = values.insert(
        "internal.retry_count."@ + node_id,
        JsonView::Number(decimal(retry_count)),
    ).insert(OUTCOME@, JsonView::Str(outcome.status.name())).insert(
        FAILURE_CLASS@,
        JsonView::Str(
            match failure {
                Some((category, _)) => category.name(),
                None => Seq::empty(),
            },
        ),
    ).insert(
        FAILURE_SIGNATURE@,
        JsonView::Str(
            match failure {
                Some((_, signature)) => signature,
                None => Seq::empty(),
            },
        ),
    );
    match outcome.preferred_label {
        Some(label) => told.insert(PREFERRED_LABEL@, JsonView::Str(label)),
        None => told,
    }
}

/// The outcome of a node was recorded. `failure` is what its failure was
/// classified as.
pub fn after_record(
    context: &mut Context,
    node_id: &str,
    node_retries: &Table<u32>,
    outcome: &Outcome,
    failure: Option<ClassifiedFailure>,
)
    ensures
        final(context)@ == recorded(
            old(context)@,
            node_id@,
            node_retries@,
            outcome@,
            match failure {
                Some(f) => Some((f.category, f.signature@)),
                None => None,
            },
        ),
{
    let retry_count: u32 = match node_retries.get(node_id) {
        Some(n) => *n,
        None => 0,
    };
    let (class, signature) = match failure {
        Some(f) => (f.category.as_str().to_owned(), f.signature),
        None => {
            let (class, signature) = (String::new(), String::new());
            assert(class@ =~= Seq::<char>::empty());
            assert(signature@ =~= Seq::<char>::empty());
            (class, signature)
        },
    };
    context.insert(retry_count_key(node_id), Json::from_u64(retry_count as u64));
    context.insert(OUTCOME.to_owned(), Json::from_str(outcome.status.as_str()));
    context.insert(FAILURE_CLASS.to_owned(), Json::Str(class));
    context.insert(FAILURE_SIGNATURE.to_owned(), Json::Str(signature));
    if let Some(label) = &outcome.preferred_label {
        context.insert(PREFERRED_LABEL.to_owned(), Json::Str(label.clone()));
    }
}

/// Whether taking the chosen edge starts the run again.
pub open spec fn restarts(selection: SelectionView) -> bool {
    match selection.edge {
        Some(edge) => flag_attr(edge.attrs, "loop_restart"@),
        None => false,
    }
}

/// The restart that the next start of the run tells, once the choice of an edge is
/// settled.
pub open spec fn restart_after(
    selection: SelectionView,
    stands: bool,
    before: Option<(Seq<char>, Seq<char>)>,
) -> Option<(Seq<char>, Seq<char>)> {
    if stands && restarts(selection) {
        Some((selection.from, selection.to))
    } else {
        before
    }
}

/// What follows the hook's decision on the choice of an edge.
#[derive(Debug, PartialEq)]
pub enum EdgeStep {
    /// The choice stands so far: the circuit breaker decides.
    AskBreaker,
    /// The hook decided, and the circuit breaker is not asked.
    Decided(EdgeDecision),
}

/// What follows the hook's decision on the choice of an edge. The circuit breaker
/// is asked only where the hook lets the choice stand.
pub fn after_edge_hook(hook: EdgeDecision) -> (r: EdgeStep)
    ensures
        r == if hook is Continue {
            EdgeStep::AskBreaker
        } else {
            EdgeStep::Decided(hook)
        },
{
    match hook {
        EdgeDecision::Continue => EdgeStep::AskBreaker,
        other => EdgeStep::Decided(other),
    }
}

/// What is seen of a node that ended.
#[derive(Debug, PartialEq)]
pub struct NodeEnd {
    /// What whoever watches the run is told.
    pub sent: Vec<Emission>,
    /// What the hooks are told after that.
    pub hook: Option<HookContext>,
}

/// Everything that happens around the stages of a run.
pub struct WorkflowLifecycle {
    pub event: EventLifecycle,
    pub hook: HookLifecycle,
    pub fidelity: FidelityLifecycle,
    pub auto_status: AutoStatusLifecycle,
    pub artifact: ArtifactLifecycle,
    /// What was committed and pushed for the checkpoint under way.
    pub checkpoint_git_result: Option<GitCheckpointResult>,
    /// The run is about to go on from a checkpoint.
    pub is_initial_resume: bool,
    pub run_id: String,
    /// The directory that the run works in, where it has a branch of its own.
    pub sandbox_work_dir: Option<String>,
}

impl WorkflowLifecycle {
    pub fn new(
        graph: &Graph,
        options: &RunOptions,
        sandbox_work_dir: Option<&str>,
        is_resume: bool,
    ) -> (r: Self)
        ensures
            r.event.run@ == run_started(graph@, options, sandbox_work_dir.deep_view()),
            r.event.restarted_from is None,
            r.hook.run_id@ == options.run_id@,
            r.hook.graph_name@ == graph@.name,
            r.hook.sandbox_work_dir.deep_view() == sandbox_work_dir.deep_view(),
            r.fidelity.incoming() is None,
            !r.fidelity.degrades(),
            r.artifact.patterns() == options.artifact_globs.deep_view(),
            r.artifact.kept() == Set::<Identity>::empty(),
            r.artifact.started() is None,
            r.checkpoint_git_result is None,
            r.is_initial_resume == is_resume,
            r.run_id@ == options.run_id@,
            r.sandbox_work_dir.deep_view() == worktree(options.run_branch(), sandbox_work_dir.deep_view()),
    {
        let (base_sha, run_branch) = match &options.git {
            Some(git) => (git.base_sha.duplicate(), git.run_branch.duplicate()),
            None => (None, None),
        };
        let dir = match sandbox_work_dir {
            Some(dir) => Some(dir.to_owned()),
            None => None,
        };
        let work_dir = if run_branch.is_some() {
            dir.duplicate()
        } else {
            None
        };
        let goal = if graph.goal().is_empty() {
            None
        } else {
            Some(graph.goal().to_owned())
        };
        WorkflowLifecycle {
            event: EventLifecycle {
                run: RunStarted {
                    name: graph.name.clone(),
                    run_id: options.run_id.clone(),
                    base_branch: options.base_branch.duplicate(),
                    base_sha,
                    run_branch,
                    worktree_dir: work_dir.duplicate(),
                    goal,
                },
                restarted_from: None,
            },
            hook: HookLifecycle {
                run_id: options.run_id.clone(),
                graph_name: graph.name.clone(),
                sandbox_work_dir: dir,
            },
            fidelity: FidelityLifecycle::new(),
            auto_status: AutoStatusLifecycle,
            artifact: ArtifactLifecycle::new(copy_texts(&options.artifact_globs)),
            checkpoint_git_result: None,
            is_initial_resume: is_resume,
            run_id: options.run_id.clone(),
            sandbox_work_dir: work_dir,
        }
    }

    pub fn set_degrade_fidelity_on_resume(&mut self, flag: bool)
        ensures
            final(self).fidelity.degrades() == flag,
            final(self).fidelity.incoming() == old(self).fidelity.incoming(),
            *final(self) == (WorkflowLifecycle { fidelity: final(self).fidelity, ..*old(self) }),
    {
        self.fidelity.set_degrade_fidelity_on_resume(flag);
    }

    /// A run starts, or starts again: its context is seeded and no edge leads to
    /// its first stage. The first start of a resumed run keeps the graph values
    /// of its checkpoint.
    pub fn begin_run(&mut self, graph: &Graph, context: &mut Context)
        ensures
            final(context)@ == seeded(
                old(context)@,
                graph@,
                old(self).run_id@,
                old(self).sandbox_work_dir.deep_view(),
                old(self).is_initial_resume,
            ),
            final(self).fidelity.incoming() is None,
            final(self).fidelity.degrades() == old(self).fidelity.degrades(),
            *final(self) == (WorkflowLifecycle { fidelity: final(self).fidelity, is_initial_resume: false, ..*old(self) }),
    {
        if self.is_initial_resume {
            self.is_initial_resume = false;
        } else {
            let goal = graph.goal();
            if !goal.is_empty() {
                context.insert(GRAPH_GOAL.to_owned(), Json::from_str(goal));
            }
            mirror_attrs(graph, context);
        }
        context.insert(INTERNAL_RUN_ID.to_owned(), Json::Str(self.run_id.clone()));
        if let Some(dir) = &self.sandbox_work_dir {
            context.insert(INTERNAL_WORK_DIR.to_owned(), Json::Str(dir.clone()));
        }
        self.fidelity.on_run_start();
    }

    /// A node begins. No stage execution is reserved for it yet.
    pub fn begin_node(&mut self, node: &Node, graph: &Graph, context: &mut Context) -> (r:
        StageEntry)
        ensures
            r.incoming_edge.deep_view() == old(self).fidelity.incoming(),
            r.fidelity == begun_fidelity(
                old(self).fidelity.incoming(),
                old(self).fidelity.degrades(),
                node@,
                graph@,
            ),
            final(context)@ == begun(
                old(context)@.insert(INTERNAL_STAGE_EXECUTION_ORDINAL@, JsonView::Null),
                r.fidelity,
            ),
            final(self).fidelity.incoming() is None,
            !final(self).fidelity.degrades(),
            *final(self) == (WorkflowLifecycle { fidelity: final(self).fidelity, ..*old(self) }),
    {
        context.insert(INTERNAL_STAGE_EXECUTION_ORDINAL.to_owned(), Json::Null);
        self.fidelity.begin_node(node, graph, context)
    }

    /// An edge was chosen: the next stage is told of it, and so is whoever
    /// watches the run. Hooks and the circuit breaker decide after this.
    pub fn select_edge(&mut self, selection: &Selection, outcome: &Outcome) -> (r: Vec<Emission>)
        ensures
            r.deep_view() == seq![
                unscoped(EventView::EdgeSelected(edge_selected(selection@, outcome@))),
            ],
            final(self).fidelity.incoming() == match selection@.edge {
                Some(edge) => Some(edge),
                None => old(self).fidelity.incoming(),
            },
            final(self).fidelity.degrades() == old(self).fidelity.degrades(),
            *final(self) == (WorkflowLifecycle { fidelity: final(self).fidelity, ..*old(self) }),
    {
        match &selection.edge {
            Some(edge) => self.fidelity.on_edge_selected(Some(edge)),
            None => self.fidelity.on_edge_selected(None),
        }
        on_edge_selected(selection, outcome)
    }

    /// A node ended, and its outcome is settled: what whoever watches the run,
    /// and then the hooks, see of it. Of a skipped node neither sees anything.
    pub fn end_node(
        &self,
        node: &Node,
        settled: &NodeResult,
        execution: Option<&StageExecution>,
        state: &RunState,
        signatures: &FailureSignatures,
        transient: &Vec<String>,
    ) -> (r: NodeEnd)
        ensures
            r.sent.deep_view() == node_events(
                node@,
                settled@,
                scope_of(execution.deep_view(), state@.node_visits, state@.context, node@.id),
                state@,
                signatures.loop_signatures@,
                signatures.restart_signatures@,
                transient.deep_view(),
            ),
            r.hook is Some <==> settled.outcome.status != StageOutcome::Skipped,
            r.hook.deep_view() matches Some(told) ==> {
                &&& told.status == Some(settled.outcome.status.name())
                &&& told.failure_reason == settled.outcome@.failure_reason()
                &&& told == (HookContextView {
                    status: told.status,
                    failure_reason: told.failure_reason,
                    ..self.hook.told(
                        if settled.outcome.status.failed() {
                            HookEvent::StageFailed
                        } else {
                            HookEvent::StageComplete
                        },
                    ).with_node(node@)
                })
            },
    {
        NodeEnd {
            sent: after_node(node, settled, execution, state, signatures, transient),
            hook: self.hook.stage_end(node, &settled.outcome),
        }
    }

    /// The end of the choice of an edge that the hook lets stand, as the circuit
    /// breaker decides. Where that lets it stand too, an edge that starts the run
    /// again is kept for the next start to tell.
    pub fn settle_edge(&mut self, selection: &Selection, breaker: EdgeDecision) -> (r: EdgeDecision)
        ensures
            r == breaker,
            final(self).event.restart() == restart_after(
                selection@,
                breaker is Continue,
                old(self).event.restart(),
            ),
            final(self).event.run == old(self).event.run,
            *final(self) == (WorkflowLifecycle { event: final(self).event, ..*old(self) }),
    {
        if let EdgeDecision::Continue = breaker {
            let restart = match &selection.edge {
                Some(edge) => get_flag(&edge.attrs, "loop_restart"),
                None => false,
            };
            if restart {
                self.event.restarted_from = Some((selection.from.clone(), selection.to.clone()));
            }
        }
        breaker
    }

    /// The state of the run was saved. What was committed and pushed for it is
    /// told with it, and forgotten.
    pub fn on_checkpoint(
        &mut self,
        node: &Node,
        status: StageOutcome,
        next_node_id: Option<&str>,
        execution: &StageExecution,
        state: &RunState,
        durable: Durable,
        signatures: &FailureSignatures,
    ) -> (r: Vec<Emission>)
        ensures
            r.deep_view() == seq![
                scoped(
                    EventView::CheckpointCompleted(
                        checkpoint(
                            node@,
                            status,
                            next_node_id.deep_view(),
                            Some(execution@),
                            state@,
                            durable.context_values@,
                            durable.node_outcomes@,
                            old(self).checkpoint_git_result.deep_view(),
                            signatures.loop_signatures@,
                            signatures.restart_signatures@,
                        ),
                    ),
                    scope_of(Some(execution@), state@.node_visits, state@.context, node@.id),
                ),
            ] + git_events(
                old(self).checkpoint_git_result.deep_view(),
                node@.id,
                scope_of(Some(execution@), state@.node_visits, state@.context, node@.id),
            ),
            *final(self) == (WorkflowLifecycle { checkpoint_git_result: None, ..*old(self) }),
    {
        let git = self.checkpoint_git_result.take();
        match &git {
            Some(result) => on_checkpoint(
                node,
                status,
                next_node_id,
                Some(execution),
                state,
                durable,
                Some(result),
                signatures,
            ),
            None => on_checkpoint(
                node,
                status,
                next_node_id,
                Some(execution),
                state,
                durable,
                None,
                signatures,
            ),
        }
    }
}

/// Seeding a context twice changes nothing more.
pub proof fn lemma_seeding_is_idempotent(
    values: Values,
    graph: GraphView,
    run_id: Seq<char>,
    work_dir: Option<Seq<char>>,
)
    ensures
        ({
            let once = seeded(values, graph, run_id, work_dir, false);
            seeded(once, graph, run_id, work_dir, false) == once
        }),
{
    let once = seeded(values, graph, run_id, work_dir, false);
    reveal_strlit("graph.");
    reveal_strlit("graph.goal");
    reveal_strlit("internal.run_id");
    reveal_strlit("internal.work_dir");
    assert(GRAPH_PREFIX@[0] == 'g');
    assert(INTERNAL_RUN_ID@[0] == 'i');
    assert(INTERNAL_WORK_DIR@[0] == 'i');
    assert(GRAPH_GOAL@[0] == 'g');
    assert(seeded(once, graph, run_id, work_dir, false) =~= once);
}

/// A resumed run keeps every value of its checkpoint but those that identify
/// the run.
pub proof fn lemma_resumed_values_are_kept(
    values: Values,
    graph: GraphView,
    run_id: Seq<char>,
    work_dir: Option<Seq<char>>,
    key: Seq<char>,
)
    requires
        values.contains_key(key),
        key != INTERNAL_RUN_ID@,
        key != INTERNAL_WORK_DIR@,
    ensures
        seeded(values, graph, run_id, work_dir, true).contains_key(key),
        seeded(values, graph, run_id, work_dir, true)[key] == values[key],
{
}

/// A choice that stands on an edge that starts the run again is kept for the next
/// start to tell, with both its ends; one that does not stand, or any other edge,
/// leaves what is kept.
pub proof fn lemma_restarts_are_kept_where_they_stand(
    selection: SelectionView,
    stands: bool,
    before: Option<(Seq<char>, Seq<char>)>,
)
    ensures
        ({
            let again = selection.edge matches Some(edge) && flag_attr(
                edge.attrs,
                "loop_restart"@,
            );
            &&& stands && again ==> restart_after(selection, stands, before) == Some(
                (selection.from, selection.to),
            )
            &&& !(stands && again) ==> restart_after(selection, stands, before) == before
        }),
{
}

/// The circuit breaker is asked exactly where the hook lets the choice of an edge
/// stand; any other decision of the hook is final.
pub proof fn lemma_the_breaker_is_asked_where_the_hook_agrees(hook: EdgeDecision, r: EdgeStep)
    requires
        call_ensures(after_edge_hook, (hook,), r),
    ensures
        r is AskBreaker <==> hook is Continue,
        !(hook is Continue) ==> r == EdgeStep::Decided(hook),
{
}

/// A run's context names the run, and its directory where it has one. One that is
/// not resumed mirrors the graph: its goal where it has one, and every attribute
/// under its name as text. Every other value is as it was.
pub proof fn lemma_contexts_are_seeded_from_run_and_graph(
    values: Values,
    graph: GraphView,
    run_id: Seq<char>,
    work_dir: Option<Seq<char>>,
    resumed: bool,
    name: Seq<char>,
    key: Seq<char>,
)
    ensures
        ({
            let now = seeded(values, graph, run_id, work_dir, resumed);
            &&& now.contains_key("internal.run_id"@) && now["internal.run_id"@] == JsonView::Str(
                run_id,
            )
            &&& work_dir matches Some(dir) ==> now.contains_key("internal.work_dir"@)
                && now["internal.work_dir"@] == JsonView::Str(dir)
            &&& !resumed && graph.attrs.contains_key(name) ==> now.contains_key("graph."@ + name)
                && now["graph."@ + name] == JsonView::Str(attr_text(graph.attrs[name]))
            &&& !resumed && graph.goal().len() > 0 ==> now.contains_key("graph.goal"@)
            &&& key != "internal.run_id"@ && key != "internal.work_dir"@ && (resumed
                || !"graph."@.is_prefix_of(key)) ==> {
                &&& now.contains_key(key) == values.contains_key(key)
                &&& values.contains_key(key) ==> now[key] == values[key]
            }
        }),
{
    reveal_strlit("graph.");
    reveal_strlit("graph.goal");
    reveal_strlit("internal.run_id");
    reveal_strlit("internal.work_dir");
    assert("graph."@[0] == 'g' && "graph."@.len() == 6);
    assert("internal.run_id"@[0] == 'i' && "internal.run_id"@.len() == 15);
    assert("internal.work_dir"@[0] == 'i' && "internal.work_dir"@.len() == 17);
    assert("graph."@ =~= "graph.goal"@.take(6));
    let place = "graph."@ + name;
    assert(place.take(6) =~= "graph."@);
    assert(place.skip(6) =~= name);
    assert(place[0] == 'g');
}

/// The context says how the last node ended: its status, what its failure was
/// classified as, or nothing where it did not fail, its label where its outcome
/// prefers one, and how often it was tried again.
pub proof fn lemma_contexts_tell_how_the_last_node_ended(
    values: Values,
    node_id: Seq<char>,
    retries: Map<Seq<char>, u32>,
    outcome: OutcomeView,
    failure: Option<(FailureCategory, Seq<char>)>,
    key: Seq<char>,
)
    ensures
        ({
            let now = recorded(values, node_id, retries, outcome, failure);
            &&& now.contains_key("outcome"@) && now["outcome"@] == JsonView::Str(
                outcome.status.name(),
            )
            &&& now.contains_key("failure_class"@) && now.contains_key("failure_signature"@)
            &&& failure matches Some((category, signature)) ==> now["failure_class"@]
                == JsonView::Str(category.name()) && now["failure_signature"@] == JsonView::Str(
                signature,
            )
            &&& failure is None ==> now["failure_class"@] == JsonView::Str(Seq::empty())
                && now["failure_signature"@] == JsonView::Str(Seq::empty())
            &&& outcome.preferred_label matches Some(label) ==> now.contains_key(
                "preferred_label"@,
            ) && now["preferred_label"@] == JsonView::Str(label)
            &&& now.contains_key("internal.retry_count."@ + node_id)
            &&& retries.contains_key(node_id) ==> now["internal.retry_count."@ + node_id]
                == JsonView::Number(decimal(retries[node_id] as nat))
            &&& !retries.contains_key(node_id) ==> now["internal.retry_count."@ + node_id]
                == JsonView::Number(decimal(0))
            &&& key != "outcome"@ && key != "failure_class"@ && key != "failure_signature"@ && key
                != "internal.retry_count."@ + node_id && (key != "preferred_label"@
                || outcome.preferred_label is None) ==> {
                &&& now.contains_key(key) == values.contains_key(key)
                &&& now[key] == values[key]
            }
        }),
{
    reveal_strlit("outcome");
    reveal_strlit("failure_class");
    reveal_strlit("failure_signature");
    reveal_strlit("preferred_label");
    reveal_strlit("internal.retry_count.");
    assert("outcome"@.len() == 7 && "outcome"@[0] == 'o');
    assert("failure_class"@.len() == 13 && "failure_class"@[0] == 'f');
    assert("failure_signature"@.len() == 17 && "failure_signature"@[0] == 'f');
    assert("preferred_label"@.len() == 15 && "preferred_label"@[0] == 'p');
    assert(("internal.retry_count."@ + node_id)[0] == 'i');
}

/// The start of a run names the graph, the run and where its work is committed; it
/// names a directory only for a run with a branch of its own, and a goal only where
/// there is one.
pub proof fn lemma_starts_tell_the_run(
    graph: GraphView,
    options: &RunOptions,
    work_dir: Option<Seq<char>>,
)
    ensures
        ({
            let e = run_started(graph, options, work_dir);
            &&& e.name == graph.name && e.run_id == options.run_id@
            &&& e.base_branch == options.base_branch.deep_view()
            &&& options.git matches Some(git) ==> {
                &&& e.base_sha == git.base_sha.deep_view()
                &&& e.run_branch == git.run_branch.deep_view()
                &&& git.run_branch is Some ==> e.worktree_dir == work_dir
                &&& git.run_branch is None ==> e.worktree_dir is None
            }
            &&& options.git is None ==> e.base_sha is None && e.run_branch is None && e.worktree_dir
                is None
            &&& graph.goal().len() > 0 ==> e.goal == Some(graph.goal())
            &&& graph.goal().len() == 0 ==> e.goal is None
        }),
{
}

} // verus!
