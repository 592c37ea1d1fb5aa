//! The run of an agent stage: its session, the fallbacks that replace it, and
//! the repair of its output.
use crate::error::{Error, ErrorView, LlmErrorView};
use crate::handler::llm::agent_error::{
    classify_agent_error, disposition, AgentApiErrorDisposition, AgentError, AgentErrorView,
    DispositionView,
};
use crate::handler::llm::fallback::{
    failover_event, FailoverProps, FallbackPlan, FallbackView,
};
use crate::handler::llm::backend::SessionCache;
use crate::handler::llm::file_tracking::UsageLedger;
use crate::handler::llm::one_shot::repair_text;
use crate::handler::structured_output::{
    exhausted_failure_reason, exhausted_reason, OutputErrorView, OutputSchemaKind,
    OutputSchemaView, StructuredOutputError,
};
use crate::json::{Json, JsonView};
use crate::keys::Fidelity;
use vstd::prelude::*;

verus! {

/// What a run waits for.
#[derive(Clone, Copy, Debug, PartialEq, Eq, Structural)]
pub enum Phase {
    Create,
    Initialize,
    Attach,
    Prompt,
    Validate,
    Repair,
    Bill,
    /// The run has its result.
    Finished,
    /// The run failed.
    Ended,
}

/// An error, and the text under which it is shown.
#[derive(Debug, PartialEq)]
pub struct Failure {
    pub error: Error,
    pub shown: String,
}

pub struct FailureTextView {
    pub error: ErrorView,
    pub shown: Seq<char>,
}

impl View for Failure {
    type V = FailureTextView;

    open spec fn view(&self) -> FailureTextView {
        FailureTextView { error: self.error@, shown: self.shown@ }
    }
}

/// What came of the last action.
#[derive(Debug, PartialEq)]
pub enum RunEvent {
    /// The session exists.
    Created,
    /// The route's provider is not known.
    Unresolved(Failure),
    /// The session could not be made.
    NotCreated(Failure),
    Initialized,
    Attached,
    NotAttached(Error),
    /// The session took its input and answered, and used this.
    Answered { usage: Json },
    /// The session failed while it was initialized or at work.
    AgentFailed { error: AgentError, shown: String },
    Valid,
    Invalid(StructuredOutputError),
    /// What the run used was added up.
    Billed,
    NotBilled(Error),
}

pub enum RunEventView {
    Created,
    Unresolved(FailureTextView),
    NotCreated(FailureTextView),
    Initialized,
    Attached,
    NotAttached(ErrorView),
    Answered { usage: JsonView },
    AgentFailed { error: AgentErrorView, shown: Seq<char> },
    Valid,
    Invalid(OutputErrorView),
    Billed,
    NotBilled(ErrorView),
}

impl View for RunEvent {
    type V = RunEventView;

    open spec fn view(&self) -> RunEventView {
        match self {
            RunEvent::Created => RunEventView::Created,
            RunEvent::Unresolved(f) => RunEventView::Unresolved(f@),
            RunEvent::NotCreated(f) => RunEventView::NotCreated(f@),
            RunEvent::Initialized => RunEventView::Initialized,
            RunEvent::Attached => RunEventView::Attached,
            RunEvent::NotAttached(e) => RunEventView::NotAttached(e@),
            RunEvent::Answered { usage } => RunEventView::Answered { usage: usage@ },
            RunEvent::AgentFailed { error, shown } => RunEventView::AgentFailed {
                error: error@,
                shown: shown@,
            },
            RunEvent::Valid => RunEventView::Valid,
            RunEvent::Invalid(e) => RunEventView::Invalid(e@),
            RunEvent::Billed => RunEventView::Billed,
            RunEvent::NotBilled(e) => RunEventView::NotBilled(e@),
        }
    }
}

/// What becomes of the session of a run that has its result.
#[derive(Debug, PartialEq)]
pub enum SessionFate {
    /// It is kept for later stages of a thread.
    Keep(String),
    /// It is shut down, and its end is told.
    EndAndTell,
}

/// What a run does next.
#[derive(Debug, PartialEq)]
pub enum RunAction {
    /// Make the session of the current route.
    Create,
    Initialize,
    /// Let the session be steered.
    Attach,
    /// Give the session the stage's prompt; first say which tools it has, where
    /// that is new.
    Prompt { announce_tools: bool },
    /// Hold the session's answer against the output schema.
    Validate,
    /// Give the session the message that asks for a repair.
    Repair { message: String },
    /// Say that the run goes on with a fallback, and make its session.
    Failover(FailoverProps),
    /// Add up what the run used.
    Bill,
    /// The session's last words are the result.
    Finish(SessionFate),
    Fail(Error),
}

/// What a run does next, and how often it tears the session down before that.
#[derive(Debug, PartialEq)]
pub struct RunStep {
    pub teardowns: u8,
    pub action: RunAction,
}

/// An agent stage under way.
pub struct AgentRun {
    plan: FallbackPlan,
    phase: Phase,
    reused: bool,
    failing_over: bool,
    repairing: bool,
    schema: Option<OutputSchemaKind>,
    previous: Option<StructuredOutputError>,
    pending: Option<StructuredOutputError>,
    repairs: i64,
    output_retries: i64,
    key: Option<String>,
    usage: UsageLedger,
}

pub struct RunView {
    pub plan: FallbackView,
    pub phase: Phase,
    /// The session is one kept from an earlier stage.
    pub reused: bool,
    /// The session of a fallback is on its way to its first answer.
    pub failing_over: bool,
    /// The fallback was called for during a repair.
    pub repairing: bool,
    pub schema: Option<OutputSchemaView>,
    /// The problem that the last repair was asked for.
    pub previous: Option<OutputErrorView>,
    /// The problem that the repair under way is asked for.
    pub pending: Option<OutputErrorView>,
    pub repairs: int,
    pub output_retries: int,
    /// The thread that the session is kept for.
    pub key: Option<Seq<char>>,
    /// What each answered input used, on whichever route.
    pub usage: Seq<JsonView>,
}

impl View for AgentRun {
    type V = RunView;

    closed spec fn view(&self) -> RunView {
        RunView {
            plan: self.plan@,
            phase: self.phase,
            reused: self.reused,
            failing_over: self.failing_over,
            repairing: self.repairing,
            schema: self.schema.deep_view(),
            previous: self.previous.deep_view(),
            pending: self.pending.deep_view(),
            repairs: self.repairs as int,
            output_retries: self.output_retries as int,
            key: self.key.deep_view(),
            usage: self.usage@,
        }
    }
}

impl RunView {
    /// Whether an event is one that the run waits for.
    pub open spec fn expects(self, event: RunEventView) -> bool {
        match self.phase {
            Phase::Create => event is Created || event is Unresolved || event is NotCreated,
            Phase::Initialize => event is Initialized || event is AgentFailed,
            Phase::Attach => event is Attached || event is NotAttached,
            Phase::Prompt | Phase::Repair => event is Answered || event is AgentFailed,
            Phase::Validate => event is Valid || event is Invalid,
            Phase::Bill => event is Billed || event is NotBilled,
            Phase::Finished | Phase::Ended => false,
        }
    }

    /// A run holds an output against a schema only where it has one, and the
    /// problem of a repair under way is known and valid.
    pub open spec fn wf(self) -> bool {
        &&& self.plan.wf()
        &&& self.phase == Phase::Validate || self.phase == Phase::Repair ==> self.schema is Some
        &&& self.phase == Phase::Repair ==> self.pending is Some
        &&& self.phase == Phase::Repair ==> self.repairs < self.output_retries
    }

    pub open spec fn ended(self) -> RunView {
        RunView { phase: Phase::Ended, ..self }
    }
}

/// How often the session is torn down where a run fails outside a repair's
/// fallback: once more than inside one, while a fallback is brought up.
pub open spec fn closing_teardowns(s: RunView) -> int {
    if s.failing_over && !s.repairing {
        1
    } else {
        0
    }
}

/// The state after the current route was given up, with the next one where there
/// is one.
pub open spec fn next_route(s: RunView) -> RunView {
    if s.plan.has_next() {
        RunView { plan: s.plan.advanced(), phase: Phase::Create, failing_over: true, ..s }
    } else {
        s.ended()
    }
}

/// Whether a step goes on to the next route, or fails where there is none.
pub open spec fn gives_up_route(
    s: RunView,
    failure: FailureTextView,
    teardowns: int,
    step: RunStep,
) -> bool {
    if s.plan.has_next() {
        &&& step.teardowns == teardowns
        &&& step.action matches RunAction::Failover(props) && props.tells(
            s.plan.advanced(),
            failure.shown,
        )
    } else {
        fails(step, failure.error, teardowns + closing_teardowns(s))
    }
}

/// Whether a step ends the run with an error.
pub open spec fn fails(step: RunStep, error: ErrorView, teardowns: int) -> bool {
    &&& step.teardowns == teardowns
    &&& step.action matches RunAction::Fail(e) && e@ == error
}

/// Whether a step does something that needs no more than its name.
pub open spec fn goes_on(step: RunStep) -> bool {
    step.teardowns == 0
}

/// The state after a session failed.
pub open spec fn after_agent_failure(s: RunView, error: AgentErrorView) -> RunView {
    let at = RunView { repairing: s.repairing || s.phase == Phase::Repair, pending: None, ..s };
    match disposition(error, s.plan.has_next()) {
        DispositionView::FailoverEligible(_) => next_route(at),
        _ => at.ended(),
    }
}

/// The state after an event.
pub open spec fn after_event(s: RunView, event: RunEventView, cancelled: bool) -> RunView {
    match event {
        RunEventView::Created => if cancelled {
            s.ended()
        } else {
            RunView { phase: Phase::Initialize, ..s }
        },
        RunEventView::Unresolved(_) => if s.failing_over {
            next_route(s)
        } else {
            s.ended()
        },
        RunEventView::NotCreated(_) => if s.failing_over && !cancelled {
            next_route(s)
        } else {
            s.ended()
        },
        RunEventView::Initialized => RunView { phase: Phase::Attach, ..s },
        RunEventView::Attached => RunView { phase: Phase::Prompt, ..s },
        RunEventView::NotAttached(_) => s.ended(),
        RunEventView::AgentFailed { error, .. } => after_agent_failure(s, error),
        RunEventView::Answered { usage } => {
            let settled = RunView {
                failing_over: false,
                repairing: false,
                pending: None,
                usage: s.usage.push(usage),
                ..s
            };
            if s.phase == Phase::Repair {
                RunView {
                    phase: Phase::Validate,
                    previous: s.pending,
                    repairs: s.repairs + 1,
                    ..settled
                }
            } else if s.schema is Some {
                RunView { phase: Phase::Validate, ..settled }
            } else {
                RunView { phase: Phase::Bill, ..settled }
            }
        },
        RunEventView::Valid => RunView { phase: Phase::Bill, ..s },
        RunEventView::Billed => RunView { phase: Phase::Finished, ..s },
        RunEventView::NotBilled(_) => s.ended(),
        RunEventView::Invalid(error) => if s.repairs >= s.output_retries {
            s.ended()
        } else {
            RunView { phase: Phase::Repair, pending: Some(error), ..s }
        },
    }
}

/// Whether a session is settled as a run asks for: a run with a thread keeps it
/// for that, any other ends it.
pub open spec fn settles(fate: SessionFate, key: Option<Seq<char>>) -> bool {
    match key {
        Some(id) => fate matches SessionFate::Keep(kept) && kept@ == id,
        None => fate is EndAndTell,
    }
}

/// Whether a step is the one that follows an event.
pub open spec fn follows(s: RunView, event: RunEventView, cancelled: bool, step: RunStep) -> bool {
    match event {
        RunEventView::Created => if cancelled {
            fails(step, ErrorView::Cancelled, closing_teardowns(s))
        } else {
            goes_on(step) && step.action is Initialize
        },
        RunEventView::Unresolved(failure) => if s.failing_over {
            gives_up_route(s, failure, 0, step)
        } else if cancelled {
            fails(step, ErrorView::Cancelled, 0)
        } else {
            fails(step, failure.error, 0)
        },
        RunEventView::NotCreated(failure) => if cancelled {
            fails(step, ErrorView::Cancelled, closing_teardowns(s))
        } else if s.failing_over {
            gives_up_route(s, failure, 0, step)
        } else {
            fails(step, failure.error, 0)
        },
        RunEventView::Initialized => goes_on(step) && step.action is Attach,
        RunEventView::Attached => goes_on(step) && step.action == (RunAction::Prompt {
            announce_tools: !s.reused || s.failing_over,
        }),
        RunEventView::NotAttached(error) => fails(step, error, 1 + closing_teardowns(s)),
        RunEventView::AgentFailed { error, shown } => match disposition(error, s.plan.has_next()) {
            DispositionView::Cancelled => fails(
                step,
                ErrorView::Cancelled,
                1 + closing_teardowns(s),
            ),
            DispositionView::Terminal(e) => fails(step, e, 1 + closing_teardowns(s)),
            DispositionView::FailoverEligible(e) => gives_up_route(
                s,
                FailureTextView { error: ErrorView::Llm(e), shown },
                1,
                step,
            ),
        },
        RunEventView::Answered { .. } => goes_on(step) && if s.phase == Phase::Repair
            || s.schema is Some {
            step.action is Validate
        } else {
            step.action is Bill
        },
        RunEventView::Valid => goes_on(step) && step.action is Bill,
        RunEventView::Billed => {
            &&& goes_on(step)
            &&& step.action matches RunAction::Finish(fate) && settles(fate, s.key)
        },
        RunEventView::NotBilled(error) => fails(step, error, 0),
        RunEventView::Invalid(error) => if s.repairs >= s.output_retries {
            fails(
                step,
                ErrorView::OutputSchemaValidation(exhausted_reason(s.output_retries)),
                1,
            )
        } else {
            &&& goes_on(step)
            &&& step.action matches RunAction::Repair { message } && message@ == repair_text(
                s.schema.unwrap(),
                error,
                s.previous,
            )
        },
    }
}

fn plain(action: RunAction) -> (r: RunStep)
    ensures
        r == (RunStep { teardowns: 0, action }),
{
    RunStep { teardowns: 0, action }
}

impl AgentRun {
    /// Starts a run. A session kept from an earlier stage goes on where it is;
    /// otherwise one is made. `key` is the thread that the session is kept for.
    pub fn start(
        plan: FallbackPlan,
        key: Option<String>,
        reused: bool,
        schema: Option<OutputSchemaKind>,
        output_retries: i64,
        cancelled: bool,
    ) -> (r: (AgentRun, RunStep))
        ensures
            r.0@ == (RunView {
                plan: plan@,
                phase: if cancelled {
                    Phase::Ended
                } else if reused {
                    Phase::Attach
                } else {
                    Phase::Create
                },
                reused,
                failing_over: false,
                repairing: false,
                schema: schema.deep_view(),
                previous: None,
                pending: None,
                repairs: 0,
                output_retries: output_retries as int,
                key: key.deep_view(),
                usage: Seq::empty(),
            }),
            r.0@.wf(),
            if cancelled {
                fails(r.1, ErrorView::Cancelled, 0)
            } else if reused {
                goes_on(r.1) && r.1.action is Attach
            } else {
                goes_on(r.1) && r.1.action is Create
            },
    {
        let _ = plan.has_next();
        let phase = if cancelled {
            Phase::Ended
        } else if reused {
            Phase::Attach
        } else {
            Phase::Create
        };
        let run = AgentRun {
            plan,
            phase,
            reused,
            failing_over: false,
            repairing: false,
            schema,
            previous: None,
            pending: None,
            repairs: 0,
            output_retries,
            key,
            usage: UsageLedger::new(),
        };
        let action = if cancelled {
            RunAction::Fail(Error::Cancelled)
        } else if reused {
            RunAction::Attach
        } else {
            RunAction::Create
        };
        (run, plain(action))
    }

    /// The routes of the run.
    pub fn plan(&self) -> (r: &FallbackPlan)
        ensures
            r@ == self@.plan,
    {
        &self.plan
    }

    /// What the answered inputs so far used: what the run is billed for.
    pub fn usage(&self) -> (r: &UsageLedger)
        ensures
            r@ == self@.usage,
    {
        &self.usage
    }

    /// Settles the session of a run that has its result. A kept session is put
    /// away under its thread, with the routes at the position that the run
    /// reached; any other is handed back, with what is done to end it.
    pub fn settle_session<S>(
        self,
        fate: SessionFate,
        session: S,
        sessions: &mut SessionCache<CachedAgentSession<S>>,
    ) -> (r: Settled<S>)
        ensures
            match fate {
                SessionFate::Keep(id) => {
                    &&& r is Kept
                    &&& final(sessions)@.contains_key(id@)
                    &&& final(sessions)@[id@].session == session
                    &&& final(sessions)@[id@].fallback_plan@ == self@.plan
                    &&& final(sessions)@ == old(sessions)@.insert(id@, final(sessions)@[id@])
                },
                SessionFate::EndAndTell => {
                    &&& final(sessions)@ == old(sessions)@
                    &&& r matches Settled::Ending { session: ended, acts } && ended == session
                        && acts@ == seq![
                        EndingAct::ShutDown,
                        EndingAct::AwaitEnd,
                        EndingAct::TellEnd,
                    ]
                },
            },
    {
        match fate {
            SessionFate::Keep(id) => {
                sessions.keep(id, CachedAgentSession { session, fallback_plan: self.plan });
                Settled::Kept
            },
            SessionFate::EndAndTell => {
                let mut acts: Vec<EndingAct> = Vec::new();
                acts.push(EndingAct::ShutDown);
                acts.push(EndingAct::AwaitEnd);
                acts.push(EndingAct::TellEnd);
                assert(acts@ =~= seq![
                    EndingAct::ShutDown,
                    EndingAct::AwaitEnd,
                    EndingAct::TellEnd,
                ]);
                Settled::Ending { session, acts }
            },
        }
    }

    fn closing(&self) -> (r: u8)
        ensures
            r == closing_teardowns(self@),
            r <= 1,
    {
        if self.failing_over && !self.repairing {
            1
        } else {
            0
        }
    }

    fn end(&mut self, error: Error, teardowns: u8) -> (r: RunStep)
        ensures
            final(self)@ == old(self)@.ended(),
            fails(r, error@, teardowns as int),
    {
        self.phase = Phase::Ended;
        RunStep { teardowns, action: RunAction::Fail(error) }
    }

    fn give_up_route(&mut self, failure: Failure, teardowns: u8) -> (r: RunStep)
        requires
            teardowns <= 1,
        ensures
            final(self)@ == next_route(old(self)@),
            gives_up_route(old(self)@, failure@, teardowns as int, r),
    {
        if self.plan.has_next() {
            let _ = self.plan.advance();
            self.phase = Phase::Create;
            self.failing_over = true;
            RunStep {
                teardowns,
                action: RunAction::Failover(failover_event(&self.plan, failure.shown.as_str())),
            }
        } else {
            let closing = self.closing();
            self.end(failure.error, teardowns + closing)
        }
    }

    /// Takes in an event, and says what the run does next. `cancelled` tells
    /// whether the run is cancelled by now.
    pub fn step(&mut self, event: RunEvent, cancelled: bool) -> (r: RunStep)
        requires
            old(self)@.wf(),
            old(self)@.expects(event@),
            event matches RunEvent::Invalid(e) ==> e@.valid(),
        ensures
            final(self)@ == after_event(old(self)@, event@, cancelled),
            final(self)@.wf(),
            follows(old(self)@, event@, cancelled, r),
    {
        let ghost before = self@;
        match event {
            RunEvent::Created => {
                if cancelled {
                    let closing = self.closing();
                    self.end(Error::Cancelled, closing)
                } else {
                    self.phase = Phase::Initialize;
                    plain(RunAction::Initialize)
                }
            },
            RunEvent::Unresolved(failure) => {
                if self.failing_over {
                    self.give_up_route(failure, 0)
                } else if cancelled {
                    self.end(Error::Cancelled, 0)
                } else {
                    self.end(failure.error, 0)
                }
            },
            RunEvent::NotCreated(failure) => {
                if cancelled {
                    let closing = self.closing();
                    self.end(Error::Cancelled, closing)
                } else if self.failing_over {
                    self.give_up_route(failure, 0)
                } else {
                    self.end(failure.error, 0)
                }
            },
            RunEvent::Initialized => {
                self.phase = Phase::Attach;
                plain(RunAction::Attach)
            },
            RunEvent::Attached => {
                self.phase = Phase::Prompt;
                plain(RunAction::Prompt { announce_tools: !self.reused || self.failing_over })
            },
            RunEvent::NotAttached(error) => {
                let closing = self.closing();
                self.end(error, 1 + closing)
            },
            RunEvent::AgentFailed { error, shown } => {
                let closing = self.closing();
                let in_repair = self.phase == Phase::Repair;
                let d = classify_agent_error(error, self.plan.has_next());
                if in_repair {
                    self.repairing = true;
                }
                self.pending = None;
                match d {
                    AgentApiErrorDisposition::Cancelled => self.end(Error::Cancelled, 1 + closing),
                    AgentApiErrorDisposition::Terminal(e) => self.end(e, 1 + closing),
                    AgentApiErrorDisposition::FailoverEligible(e) => self.give_up_route(
                        Failure { error: Error::Llm(e), shown },
                        1,
                    ),
                }
            },
            RunEvent::Answered { usage } => {
                self.usage.count(usage);
                let in_repair = self.phase == Phase::Repair;
                self.failing_over = false;
                self.repairing = false;
                let mut pending: Option<StructuredOutputError> = None;
                std::mem::swap(&mut pending, &mut self.pending);
                if in_repair {
                    self.previous = pending;
                    self.repairs = self.repairs + 1;
                    self.phase = Phase::Validate;
                    plain(RunAction::Validate)
                } else if self.schema.is_some() {
                    self.phase = Phase::Validate;
                    plain(RunAction::Validate)
                } else {
                    self.phase = Phase::Bill;
                    plain(RunAction::Bill)
                }
            },
            RunEvent::Valid => {
                self.phase = Phase::Bill;
                plain(RunAction::Bill)
            },
            RunEvent::Billed => {
                self.phase = Phase::Finished;
                let fate = match &self.key {
                    Some(id) => SessionFate::Keep(id.clone()),
                    None => SessionFate::EndAndTell,
                };
                plain(RunAction::Finish(fate))
            },
            RunEvent::NotBilled(error) => self.end(error, 0),
            RunEvent::Invalid(error) => {
                if self.repairs >= self.output_retries {
                    let reason = exhausted_failure_reason(self.output_retries);
                    self.end(Error::OutputSchemaValidation(reason), 1)
                } else {
                    let message = match &self.schema {
                        Some(schema) => match &self.previous {
                            Some(previous) => error.repair_message(schema, Some(previous)),
                            None => error.repair_message(schema, None),
                        },
                        None => String::new(),
                    };
                    self.pending = Some(error);
                    self.phase = Phase::Repair;
                    plain(RunAction::Repair { message })
                }
            },
        }
    }
}

/// How far a phase is from the end of a run that meets no obstacle.
pub open spec fn rank(phase: Phase) -> nat {
    match phase {
        Phase::Create => 7,
        Phase::Initialize => 6,
        Phase::Attach => 5,
        Phase::Prompt => 4,
        Phase::Validate => 3,
        Phase::Repair => 2,
        Phase::Bill => 1,
        Phase::Finished | Phase::Ended => 0,
    }
}

/// The fallbacks that a run has left.
pub open spec fn routes_left(s: RunView) -> int {
    s.plan.remaining.len() - s.plan.position
}

/// The repairs that a run has left.
pub open spec fn repairs_left(s: RunView) -> int {
    if s.output_retries > s.repairs {
        s.output_retries - s.repairs
    } else {
        0
    }
}

/// Every event uses up a fallback or a repair, or brings the run nearer to its
/// end, so that every run ends.
pub proof fn lemma_runs_end(s: RunView, event: RunEventView, cancelled: bool)
    requires
        s.wf(),
        s.expects(event),
    ensures
        ({
            let t = after_event(s, event, cancelled);
            &&& 0 <= routes_left(t) <= routes_left(s)
            &&& routes_left(t) < routes_left(s) || 0 <= repairs_left(t) < repairs_left(s) || (
            repairs_left(t) == repairs_left(s) && rank(t.phase) < rank(s.phase))
        }),
{
}

/// A run that is cancelled while its session is made ends there.
pub proof fn lemma_cancelled_runs_end(s: RunView, event: RunEventView)
    requires
        s.wf(),
        s.expects(event),
        event is Created || event is NotCreated,
    ensures
        after_event(s, event, true).phase == Phase::Ended,
{
}

/// A fallback that takes over during a repair starts from the stage's prompt, and
/// the count of repairs is as it was.
pub proof fn lemma_failover_keeps_repairs(s: RunView, error: AgentErrorView, shown: Seq<char>)
    requires
        s.wf(),
        s.phase == Phase::Repair,
    ensures
        ({
            let t = after_event(s, RunEventView::AgentFailed { error, shown }, false);
            &&& t.repairs == s.repairs
            &&& t.previous == s.previous
            &&& t.phase == Phase::Create || t.phase == Phase::Ended
        }),
{
}

/// The state after events, each with whether the run was cancelled by then.
pub open spec fn after_all(s: RunView, happened: Seq<(RunEventView, bool)>) -> RunView
    decreases happened.len(),
{
    if happened.len() == 0 {
        s
    } else {
        let last = happened.last();
        after_event(after_all(s, happened.drop_last()), last.0, last.1)
    }
}

/// What the answers among events used.
pub open spec fn used(happened: Seq<(RunEventView, bool)>) -> Seq<JsonView>
    decreases happened.len(),
{
    if happened.len() == 0 {
        Seq::empty()
    } else {
        match happened.last().0 {
            RunEventView::Answered { usage } => used(happened.drop_last()).push(usage),
            _ => used(happened.drop_last()),
        }
    }
}

/// Every answered input is counted once, in its order, across repairs and
/// fallbacks.
pub proof fn lemma_every_answer_is_counted(s: RunView, happened: Seq<(RunEventView, bool)>)
    ensures
        after_all(s, happened).usage == s.usage + used(happened),
        after_all(s, happened).key == s.key,
    decreases happened.len(),
{
    if happened.len() > 0 {
        lemma_every_answer_is_counted(s, happened.drop_last());
    }
    assert(after_all(s, happened).usage =~= s.usage + used(happened));
}

/// The step that ends a run decides over its session, and no other does. A run
/// that has its result keeps the session exactly where the stage has full
/// fidelity and a thread, under that thread, and ends it otherwise; a run that
/// fails never comes to that.
pub proof fn lemma_sessions_are_kept_for_their_thread(
    s: RunView,
    happened: Seq<(RunEventView, bool)>,
    event: RunEventView,
    cancelled: bool,
    step: RunStep,
    fidelity: Fidelity,
    thread_id: Option<Seq<char>>,
)
    requires
        s.key == reuse_key(fidelity, thread_id),
        after_all(s, happened).wf(),
        after_all(s, happened).expects(event),
        follows(after_all(s, happened), event, cancelled, step),
    ensures
        ({
            let end = after_event(after_all(s, happened), event, cancelled);
            &&& step.action is Finish <==> end.phase == Phase::Finished
            &&& step.action is Fail <==> end.phase == Phase::Ended
            &&& step.action matches RunAction::Finish(fate) ==> {
                &&& fate is Keep <==> fidelity == Fidelity::Full && thread_id is Some
                &&& fate matches SessionFate::Keep(id) ==> Some(id@) == thread_id
                &&& fate is EndAndTell <==> !(fidelity == Fidelity::Full && thread_id is Some)
            }
        }),
{
    lemma_every_answer_is_counted(s, happened);
}

/// An error that another route may not meet sends the run to the next route of
/// its plan, whichever session it works with, a kept one or a new one, and
/// whether the session was coming up, at the prompt or at a repair. The run
/// then makes the session of that route and says where it goes, where it comes
/// from and why. It ends with such an error exactly where no route is left.
pub proof fn lemma_failover_takes_the_next_route(
    s: RunView,
    error: LlmErrorView,
    shown: Seq<char>,
    cancelled: bool,
    step: RunStep,
)
    requires
        s.wf(),
        s.phase == Phase::Initialize || s.phase == Phase::Prompt || s.phase == Phase::Repair,
        error.failover_eligible,
        follows(
            s,
            (RunEventView::AgentFailed { error: AgentErrorView::Llm(error), shown }),
            cancelled,
            step,
        ),
    ensures
        ({
            let t = after_event(
                s,
                RunEventView::AgentFailed { error: AgentErrorView::Llm(error), shown },
                cancelled,
            );
            let at = s.plan.position as int;
            let left = if at == 0 {
                s.plan.original
            } else {
                s.plan.remaining[at - 1]
            };
            let next = s.plan.remaining[at];
            if at < s.plan.remaining.len() {
                &&& t.phase == Phase::Create
                &&& t.failing_over
                &&& t.plan.position == at + 1
                &&& t.plan.original == s.plan.original
                &&& t.plan.remaining == s.plan.remaining
                &&& t.schema == s.schema && t.key == s.key && t.usage == s.usage
                &&& t.repairs == s.repairs && t.output_retries == s.output_retries
                &&& t.previous == s.previous && t.reused == s.reused
                &&& step.teardowns == 1
                &&& step.action matches RunAction::Failover(props) && {
                    &&& props.to_provider@ == next.target.provider
                    &&& props.to_model@ == next.target.model
                    &&& props.from_provider@ == left.target.provider
                    &&& props.from_model@ == left.target.model
                    &&& props.original_provider@ == s.plan.original.target.provider
                    &&& props.original_model@ == s.plan.original.target.model
                    &&& props.requested_reasoning_effort.deep_view()
                        == s.plan.original.controls.reasoning_effort
                    &&& props.effective_reasoning_effort.deep_view()
                        == next.controls.reasoning_effort
                    &&& at < u32::MAX ==> props.attempt == at + 1
                    &&& props.error@ == shown
                }
            } else {
                &&& t.phase == Phase::Ended
                &&& step.teardowns >= 1
                &&& step.action matches RunAction::Fail(e) && e@ == ErrorView::Llm(error)
            }
        }),
{
}

/// Every other failure of a session ends the run, whatever routes are left: a
/// cancelled session as a cancellation, one that ran out of time and one that
/// broke as a precondition that names the reason, and an error of the model that
/// no other route would mend as itself. The session is torn down.
pub proof fn lemma_other_session_failures_end_the_run(
    s: RunView,
    error: AgentErrorView,
    shown: Seq<char>,
    cancelled: bool,
    step: RunStep,
)
    requires
        s.wf(),
        s.phase == Phase::Initialize || s.phase == Phase::Prompt || s.phase == Phase::Repair,
        error matches AgentErrorView::Llm(e) ==> !e.failover_eligible,
        follows(s, (RunEventView::AgentFailed { error, shown }), cancelled, step),
    ensures
        after_event(s, RunEventView::AgentFailed { error, shown }, cancelled).phase == Phase::Ended,
        after_event(s, RunEventView::AgentFailed { error, shown }, cancelled).plan == s.plan,
        after_event(s, RunEventView::AgentFailed { error, shown }, cancelled).usage == s.usage,
        step.teardowns >= 1,
        step.action matches RunAction::Fail(e) && match error {
            AgentErrorView::Cancelled => e@ == ErrorView::Cancelled,
            AgentErrorView::WallClockTimeout => e@ == ErrorView::Precondition(
                "Agent session hit its wall-clock timeout"@,
            ),
            AgentErrorView::Llm(l) => e@ == ErrorView::Llm(l),
            AgentErrorView::Session(reason) => e@ == ErrorView::Precondition(
                "Agent session failed: "@ + reason,
            ),
        },
{
}

/// The route that was asked for is not replaced because its session cannot be
/// made: the run ends with that error, or as cancelled. A fallback whose session
/// cannot be made is passed over for the next one, and the run ends with its
/// error exactly where none is left.
pub proof fn lemma_fallbacks_that_cannot_be_made_are_passed_over(
    s: RunView,
    failure: FailureTextView,
    resolved: bool,
    cancelled: bool,
    step: RunStep,
)
    requires
        s.wf(),
        s.phase == Phase::Create,
        follows(
            s,
            if resolved {
                RunEventView::NotCreated(failure)
            } else {
                RunEventView::Unresolved(failure)
            },
            cancelled,
            step,
        ),
    ensures
        ({
            let t = after_event(
                s,
                if resolved {
                    RunEventView::NotCreated(failure)
                } else {
                    RunEventView::Unresolved(failure)
                },
                cancelled,
            );
            let at = s.plan.position as int;
            let next = s.plan.remaining[at];
            if cancelled && (resolved || !s.failing_over) {
                &&& t.phase == Phase::Ended && t.plan == s.plan
                &&& step.action matches RunAction::Fail(e) && e@ == ErrorView::Cancelled
            } else if s.failing_over && at < s.plan.remaining.len() {
                &&& t.phase == Phase::Create && t.failing_over
                &&& t.plan.position == at + 1
                &&& t.plan.original == s.plan.original && t.plan.remaining == s.plan.remaining
                &&& t.usage == s.usage && t.repairs == s.repairs && t.previous == s.previous
                &&& t.schema == s.schema && t.key == s.key
                &&& step.teardowns == 0
                &&& step.action matches RunAction::Failover(props) && {
                    &&& props.to_provider@ == next.target.provider
                    &&& props.to_model@ == next.target.model
                    &&& props.error@ == failure.shown
                }
            } else {
                &&& t.phase == Phase::Ended && t.plan == s.plan
                &&& step.action matches RunAction::Fail(e) && e@ == failure.error
            }
        }),
{
}

/// A session comes up in one order: it is made, initialized, opened to steering
/// and prompted; cancelled once it is made, it goes no further. One that cannot
/// be opened to steering is torn down, and its error ends the run.
pub proof fn lemma_sessions_come_up_in_order(
    s: RunView,
    event: RunEventView,
    cancelled: bool,
    step: RunStep,
)
    requires
        s.wf(),
        s.expects(event),
        follows(s, event, cancelled, step),
    ensures
        ({
            let t = after_event(s, event, cancelled);
            &&& step.action is Initialize <==> event is Created && !cancelled
            &&& step.action is Attach <==> event is Initialized
            &&& step.action is Prompt <==> event is Attached
            &&& event is Created && !cancelled ==> t.phase == Phase::Initialize
            &&& event is Created && cancelled ==> t.phase == Phase::Ended && (
            step.action matches RunAction::Fail(e) && e@ == ErrorView::Cancelled)
            &&& event is Initialized ==> t.phase == Phase::Attach
            &&& event is Attached ==> t.phase == Phase::Prompt
            &&& event matches RunEventView::NotAttached(error) ==> {
                &&& t.phase == Phase::Ended
                &&& step.teardowns >= 1
                &&& step.action matches RunAction::Fail(e) && e@ == error
            }
            &&& t.plan != s.plan ==> step.action is Failover
        }),
{
}

/// An answer goes to the bill only where the stage has no schema for it or the
/// answer was found valid; every valid one does. A run has its result exactly
/// where it was billed.
pub proof fn lemma_only_valid_answers_are_billed(
    s: RunView,
    event: RunEventView,
    cancelled: bool,
    step: RunStep,
)
    requires
        s.wf(),
        s.expects(event),
        follows(s, event, cancelled, step),
    ensures
        ({
            let t = after_event(s, event, cancelled);
            &&& t.phase == Phase::Bill <==> event is Valid || (event is Answered && s.schema is None)
            &&& t.phase == Phase::Validate <==> event is Answered && s.schema is Some
            &&& t.phase == Phase::Finished <==> event is Billed
            &&& step.action is Bill <==> t.phase == Phase::Bill
            &&& step.action is Validate <==> t.phase == Phase::Validate
            &&& step.action is Finish <==> t.phase == Phase::Finished
            &&& event matches RunEventView::NotBilled(error) ==> {
                &&& t.phase == Phase::Ended
                &&& step.action matches RunAction::Fail(e) && e@ == error
            }
        }),
{
}

/// A repair is asked for exactly after an invalid answer while fewer repairs
/// were answered than the stage allows. Every answered repair counts once, and
/// nothing else does; the next repair is told the problem of the last one. An
/// invalid answer after the last repair ends the run and says how many were
/// allowed.
pub proof fn lemma_repairs_are_asked_for_while_some_are_left(
    s: RunView,
    event: RunEventView,
    cancelled: bool,
    step: RunStep,
)
    requires
        s.wf(),
        s.expects(event),
        follows(s, event, cancelled, step),
    ensures
        ({
            let t = after_event(s, event, cancelled);
            &&& step.action is Repair <==> event is Invalid && s.repairs < s.output_retries
            &&& t.phase == Phase::Repair <==> step.action is Repair
            &&& t.repairs == s.repairs + if s.phase == Phase::Repair && event is Answered {
                1int
            } else {
                0int
            }
            &&& t.output_retries == s.output_retries && t.schema == s.schema
            &&& event matches RunEventView::Invalid(error) ==> {
                if s.repairs < s.output_retries {
                    &&& t.pending == Some(error)
                    &&& t.previous == s.previous
                } else {
                    &&& t.phase == Phase::Ended
                    &&& step.teardowns == 1
                    &&& step.action matches RunAction::Fail(e)
                        && e@ is OutputSchemaValidation
                }
            }
            &&& t.previous == if s.phase == Phase::Repair && event is Answered {
                s.pending
            } else {
                s.previous
            }
        }),
{
}

/// Whether a session was made among events.
pub open spec fn session_made(happened: Seq<(RunEventView, bool)>) -> bool {
    exists|i: int| 0 <= i < happened.len() && (#[trigger] happened[i]).0 is Created
}

/// Whether every event came while the run waited for it.
pub open spec fn in_turn(s: RunView, happened: Seq<(RunEventView, bool)>) -> bool
    decreases happened.len(),
{
    happened.len() > 0 ==> {
        &&& in_turn(s, happened.drop_last())
        &&& after_all(s, happened.drop_last()).expects(happened.last().0)
    }
}

/// The tools of a session are announced with its first prompt exactly where the
/// run made the session itself: those of a kept session were announced before.
pub proof fn lemma_tools_of_new_sessions_are_announced(
    s: RunView,
    happened: Seq<(RunEventView, bool)>,
    cancelled: bool,
    step: RunStep,
)
    requires
        !s.failing_over,
        s.phase == if s.reused {
            Phase::Attach
        } else {
            Phase::Create
        },
        in_turn(s, happened),
        after_all(s, happened).expects(RunEventView::Attached),
        follows(after_all(s, happened), RunEventView::Attached, cancelled, step),
    ensures
        step.action == (RunAction::Prompt { announce_tools: session_made(happened) }),
{
    lemma_sessions_on_the_way(s, happened);
}

proof fn lemma_sessions_on_the_way(s: RunView, happened: Seq<(RunEventView, bool)>)
    requires
        !s.failing_over,
        s.phase == if s.reused {
            Phase::Attach
        } else {
            Phase::Create
        },
        in_turn(s, happened),
    ensures
        ({
            let t = after_all(s, happened);
            let coming_up = t.phase == Phase::Create || t.phase == Phase::Initialize || t.phase
                == Phase::Attach;
            &&& t.reused == s.reused
            &&& !session_made(happened) ==> t.phase != Phase::Initialize && (s.reused
                || t.phase == Phase::Create || t.phase == Phase::Ended)
            &&& !session_made(happened) && s.reused && t.phase == Phase::Attach
                ==> !t.failing_over
            &&& session_made(happened) && s.reused && coming_up ==> t.failing_over
            &&& s.reused && t.phase == Phase::Create ==> t.failing_over
        }),
    decreases happened.len(),
{
    if happened.len() > 0 {
        let earlier = happened.drop_last();
        lemma_sessions_on_the_way(s, earlier);
        assert(happened[happened.len() - 1] == happened.last());
        if session_made(earlier) {
            let k = choose|k: int| 0 <= k < earlier.len() && (#[trigger] earlier[k]).0 is Created;
            assert(happened[k] == earlier[k]);
        }
        if session_made(happened) && !(happened.last().0 is Created) {
            let k = choose|k: int| 0 <= k < happened.len() && (#[trigger] happened[k]).0 is Created;
            assert(earlier[k] == happened[k]);
        }
    }
}


/// A session that is kept for later stages, with the routes it was made on.
pub struct CachedAgentSession<S> {
    pub session: S,
    pub fallback_plan: FallbackPlan,
}

/// What is done to end a session.
#[derive(Clone, Copy, Debug, PartialEq, Eq, Structural)]
pub enum EndingAct {
    ShutDown,
    /// Wait until the last events of the session have come through.
    AwaitEnd,
    TellEnd,
}

/// What became of a session whose run has its result.
pub enum Settled<S> {
    Kept,
    /// What is done with it, in this order.
    Ending { session: S, acts: Vec<EndingAct> },
}

/// The thread whose session a stage may go on with: stages of full fidelity share
/// one.
pub open spec fn reuse_key(fidelity: Fidelity, thread_id: Option<Seq<char>>) -> Option<Seq<char>> {
    if fidelity == Fidelity::Full {
        thread_id
    } else {
        None
    }
}

/// The thread whose session a stage may go on with.
pub fn session_key(fidelity: Fidelity, thread_id: Option<&str>) -> (r: Option<String>)
    ensures
        r.deep_view() == reuse_key(fidelity, thread_id.deep_view()),
{
    match fidelity {
        Fidelity::Full => match thread_id {
            Some(id) => Some(id.to_owned()),
            None => None,
        },
        _ => None,
    }
}

/// A turn of a session.
#[derive(Debug, PartialEq)]
pub enum Turn {
    Assistant(String),
    Other,
}

/// The last words of the assistant; empty where it said nothing.
pub open spec fn last_words(turns: Seq<Turn>) -> Seq<char>
    decreases turns.len(),
{
    if turns.len() == 0 {
        Seq::empty()
    } else {
        match turns.last() {
            Turn::Assistant(text) => if text@.len() > 0 {
                text@
            } else {
                last_words(turns.drop_last())
            },
            Turn::Other => last_words(turns.drop_last()),
        }
    }
}

/// The last words of the assistant.
pub fn last_assistant_response(turns: &Vec<Turn>) -> (r: String)
    ensures
        r@ == last_words(turns@),
{
    let mut n: usize = turns.len();
    assert(turns@.take(n as int) =~= turns@);
    while n > 0
        invariant
            n <= turns@.len(),
            last_words(turns@) == last_words(turns@.take(n as int)),
        decreases n,
    {
        assert(turns@.take(n as int).drop_last() =~= turns@.take(n - 1));
        assert(turns@.take(n as int).last() == turns@[n - 1]);
        if let Turn::Assistant(text) = &turns[n - 1] {
            if !text.as_str().is_empty() {
                return text.clone();
            }
        }
        n -= 1;
    }
    let empty = String::new();
    assert(empty@ =~= Seq::<char>::empty());
    assert(turns@.take(0) =~= Seq::empty());
    empty
}

/// The result of a run is the last thing that the assistant said: turns after it
/// in which it said nothing do not count.
pub proof fn lemma_last_words_are_the_last_said(turns: Seq<Turn>, at: int)
    requires
        0 <= at < turns.len(),
        turns[at] matches Turn::Assistant(text) && text@.len() > 0,
        forall|k: int|
            at < k < turns.len() ==> (#[trigger] turns[k] matches Turn::Assistant(text)
                ==> text@.len() == 0),
    ensures
        turns[at] matches Turn::Assistant(text) && last_words(turns) == text@,
    decreases turns.len(),
{
    let rest = turns.drop_last();
    if at < turns.len() - 1 {
        assert(turns[turns.len() - 1] == turns.last());
        assert(rest[at] == turns[at]);
        assert forall|k: int| at < k < rest.len() implies (#[trigger] rest[k] matches
            Turn::Assistant(text) ==> text@.len() == 0) by {
            assert(rest[k] == turns[k]);
        }
        lemma_last_words_are_the_last_said(rest, at);
    }
}

/// A session is torn down only where its route is given up or the run ends without a
/// result: no other step takes a session away.
pub proof fn lemma_sessions_in_use_are_left_alone(
    s: RunView,
    event: RunEventView,
    cancelled: bool,
    step: RunStep,
)
    requires
        follows(s, event, cancelled, step),
    ensures
        step.teardowns > 0 ==> step.action is Fail || step.action is Failover,
{
}

} // verus!
