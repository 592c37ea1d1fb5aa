//! Agent stages that run as a process of their own.
use crate::error::{handler_caused, handler_error, Error, ErrorView, ExecOutputTail, HandlerView};
use crate::graph::Node;
use crate::handler::basic::NodeTimeoutPolicy;
use crate::handler::llm::activation_lease::{ActivationLeaseOptions, SessionCapability};
use crate::keys::concat;
use crate::outcome::StageTiming;
use crate::stage_id::{StageId, StageIdView};
use vstd::prelude::*;
use vstd::string::*;

verus! {

/// Why a node's process cannot be made out.
#[derive(Debug, PartialEq)]
pub enum AcpCommandError {
    LegacyCommandAttribute,
    EmptyOverride,
    MissingOverride,
    UnsupportedTransport,
    InvalidCommandString,
    /// The JSON error and its causes.
    InvalidConfigJson(Vec<String>),
    InvalidConfigShape(String),
}

/// What a process that cannot be made out means for the stage.
pub open spec fn command_failure(error: AcpCommandError) -> ErrorView {
    match error {
        AcpCommandError::LegacyCommandAttribute => handler_error(
            "acp_command is no longer supported; use acp.command or acp.config"@,
        ),
        AcpCommandError::EmptyOverride => handler_error("ACP process attribute must not be empty"@),
        AcpCommandError::MissingOverride => handler_error(
            "backend=\"acp\" requires exactly one of acp.command or acp.config"@,
        ),
        AcpCommandError::UnsupportedTransport => handler_error(
            "only stdio ACP commands are supported"@,
        ),
        AcpCommandError::InvalidCommandString => handler_error(
            "Failed to parse acp.command as a shell command"@,
        ),
        AcpCommandError::InvalidConfigJson(source) => handler_caused(
            "Failed to parse acp.config as JSON"@,
            source.deep_view(),
            None,
        ),
        AcpCommandError::InvalidConfigShape(message) => handler_error(
            "Invalid acp.config shape: "@ + message@,
        ),
    }
}

pub fn acp_process_error_to_workflow(error: AcpCommandError) -> (r: Error)
    ensures
        r@ == command_failure(error),
{
    match error {
        AcpCommandError::LegacyCommandAttribute => Error::handler(
            "acp_command is no longer supported; use acp.command or acp.config",
        ),
        AcpCommandError::EmptyOverride => Error::handler("ACP process attribute must not be empty"),
        AcpCommandError::MissingOverride => Error::handler(
            "backend=\"acp\" requires exactly one of acp.command or acp.config",
        ),
        AcpCommandError::UnsupportedTransport => Error::handler(
            "only stdio ACP commands are supported",
        ),
        AcpCommandError::InvalidCommandString => Error::handler(
            "Failed to parse acp.command as a shell command",
        ),
        AcpCommandError::InvalidConfigJson(source) => Error::handler_with_source(
            "Failed to parse acp.config as JSON",
            source,
            None,
        ),
        AcpCommandError::InvalidConfigShape(message) => Error::handler(
            concat("Invalid acp.config shape: ", message.as_str()).as_str(),
        ),
    }
}

/// How a turn of the process failed.
#[derive(Debug, PartialEq)]
pub enum AcpError {
    Cancelled,
    TimedOut { exec_output_tail: Option<ExecOutputTail> },
    StopReason { stop_reason: String, text: String },
    /// The sandbox failed, with its error and the causes of that.
    Sandbox(Vec<String>),
    /// Anything else, with its causes and the last output of the process.
    Other { causes: Vec<String>, exec_output_tail: Option<ExecOutputTail> },
}

/// What a failed turn means for the stage. What the process wrote is kept apart
/// from the message.
pub open spec fn turn_failure(error: AcpError) -> ErrorView {
    match error {
        AcpError::Cancelled => ErrorView::Cancelled,
        AcpError::TimedOut { exec_output_tail } => ErrorView::Handler(
            HandlerView {
                message: "ACP turn timed out"@,
                causes: Seq::empty(),
                exec_output_tail: exec_output_tail.deep_view(),
            },
        ),
        AcpError::StopReason { stop_reason, text } => handler_error(
            "ACP prompt stopped with "@ + stop_reason@ + ": "@ + text@,
        ),
        AcpError::Sandbox(causes) => handler_caused(
            "ACP turn failed"@,
            causes.deep_view(),
            None,
        ),
        AcpError::Other { causes, exec_output_tail } => handler_caused(
            "ACP turn failed"@,
            causes.deep_view(),
            exec_output_tail.deep_view(),
        ),
    }
}

pub fn acp_error_to_workflow(error: AcpError) -> (r: Error)
    ensures
        r@ == turn_failure(error),
{
    match error {
        AcpError::Cancelled => Error::Cancelled,
        AcpError::TimedOut { exec_output_tail } => Error::handler_with_exec_output_tail(
            "ACP turn timed out",
            exec_output_tail,
        ),
        AcpError::StopReason { stop_reason, text } => {
            let mut s = concat("ACP prompt stopped with ", stop_reason.as_str());
            s.append(": ");
            s.append(text.as_str());
            Error::handler(s.as_str())
        },
        AcpError::Sandbox(causes) => Error::handler_with_source("ACP turn failed", causes, None),
        AcpError::Other { causes, exec_output_tail } => Error::handler_with_source(
            "ACP turn failed",
            causes,
            exec_output_tail,
        ),
    }
}

/// What a turn brought.
#[derive(Debug, PartialEq)]
pub struct AcpRunResult {
    pub text: String,
    pub stderr: String,
    pub stop_reason: String,
    pub duration_ms: u64,
}

/// Says how a turn ended.
#[derive(Debug, PartialEq)]
pub enum AcpEvent {
    Completed { stdout: String, stderr: String, stop_reason: String, duration_ms: u64 },
    Cancelled { duration_ms: u64 },
    TimedOut { stderr: String, duration_ms: u64 },
}

pub enum AcpEventView {
    Completed { stdout: Seq<char>, stderr: Seq<char>, stop_reason: Seq<char>, duration_ms: u64 },
    Cancelled { duration_ms: u64 },
    TimedOut { stderr: Seq<char>, duration_ms: u64 },
}

impl View for AcpEvent {
    type V = AcpEventView;

    open spec fn view(&self) -> AcpEventView {
        match self {
            AcpEvent::Completed { stdout, stderr, stop_reason, duration_ms } => AcpEventView::Completed {
                stdout: stdout@,
                stderr: stderr@,
                stop_reason: stop_reason@,
                duration_ms: *duration_ms,
            },
            AcpEvent::Cancelled { duration_ms } => AcpEventView::Cancelled {
                duration_ms: *duration_ms,
            },
            AcpEvent::TimedOut { stderr, duration_ms } => AcpEventView::TimedOut {
                stderr: stderr@,
                duration_ms: *duration_ms,
            },
        }
    }
}

impl DeepView for AcpEvent {
    type V = AcpEventView;

    open spec fn deep_view(&self) -> AcpEventView {
        self@
    }
}

/// The event for the end of a turn. A failure of the process itself has none.
pub open spec fn turn_event(result: Result<AcpRunResult, AcpError>, elapsed_ms: u64) -> Option<
    AcpEventView,
> {
    match result {
        Ok(r) => Some(
            AcpEventView::Completed {
                stdout: r.text@,
                stderr: r.stderr@,
                stop_reason: r.stop_reason@,
                duration_ms: r.duration_ms,
            },
        ),
        Err(AcpError::Cancelled) => Some(AcpEventView::Cancelled { duration_ms: elapsed_ms }),
        Err(AcpError::TimedOut { exec_output_tail }) => Some(
            AcpEventView::TimedOut {
                stderr: match exec_output_tail {
                    Some(tail) => match tail@.stderr {
                        Some(s) => s,
                        None => Seq::empty(),
                    },
                    None => Seq::empty(),
                },
                duration_ms: elapsed_ms,
            },
        ),
        Err(AcpError::StopReason { stop_reason, text }) => Some(
            AcpEventView::Completed {
                stdout: text@,
                stderr: Seq::empty(),
                stop_reason: stop_reason@,
                duration_ms: elapsed_ms,
            },
        ),
        Err(_) => None,
    }
}

fn empty() -> (r: String)
    ensures
        r@ == Seq::<char>::empty(),
{
    let r = String::new();
    assert(r@ =~= Seq::<char>::empty());
    r
}

/// The end of a turn: the event to send, and the response with its time, or the
/// error of the stage.
#[derive(Debug, PartialEq)]
pub struct TurnEnd {
    pub event: Option<AcpEvent>,
    pub result: Result<(String, StageTiming), Error>,
}

/// Ends a turn. `elapsed_ms` is the time since the process was launched.
pub fn end_turn(result: Result<AcpRunResult, AcpError>, elapsed_ms: u64) -> (r: TurnEnd)
    ensures
        r.event.deep_view() == turn_event(result, elapsed_ms),
        match result {
            Ok(done) => r.result matches Ok((text, timing)) && text@ == done.text@ && timing
                == (StageTiming { wall_ms: 0, inference_ms: done.duration_ms, tool_ms: 0 }),
            Err(error) => r.result matches Err(e) && e@ == turn_failure(error),
        },
{
    match result {
        Ok(done) => TurnEnd {
            event: Some(
                AcpEvent::Completed {
                    stdout: done.text.clone(),
                    stderr: done.stderr,
                    stop_reason: done.stop_reason,
                    duration_ms: done.duration_ms,
                },
            ),
            result: Ok((done.text, StageTiming::active_only(done.duration_ms, 0))),
        },
        Err(error) => {
            let event = match &error {
                AcpError::Cancelled => Some(AcpEvent::Cancelled { duration_ms: elapsed_ms }),
                AcpError::TimedOut { exec_output_tail } => {
                    let stderr = match exec_output_tail {
                        Some(tail) => match &tail.stderr {
                            Some(s) => s.clone(),
                            None => empty(),
                        },
                        None => empty(),
                    };
                    Some(AcpEvent::TimedOut { stderr, duration_ms: elapsed_ms })
                },
                AcpError::StopReason { stop_reason, text } => Some(
                    AcpEvent::Completed {
                        stdout: text.clone(),
                        stderr: empty(),
                        stop_reason: stop_reason.clone(),
                        duration_ms: elapsed_ms,
                    },
                ),
                _ => None,
            };
            TurnEnd { event, result: Err(acp_error_to_workflow(error)) }
        },
    }
}

/// What a stage's process gets from its environment, and what the user is told
/// of it.
#[derive(Clone, Copy, Debug, PartialEq, Eq, Structural)]
pub enum LaunchEnv {
    /// The process starts without an environment of its own.
    Empty,
    /// The environment is made when the process starts; where a token in it is
    /// kept fresh elsewhere, the user is told that it may expire.
    Resolve { warn_of_expiry: bool },
}

/// An agent that runs as a process. `E` gives it its environment, `H` steers it.
pub struct AgentAcpBackend<E, H> {
    tool_env: Option<E>,
    github_token_refresh_managed: bool,
    steering_hub: Option<H>,
}

impl<E, H> AgentAcpBackend<E, H> {
    pub closed spec fn env(&self) -> Option<E> {
        self.tool_env
    }

    pub closed spec fn token_managed(&self) -> bool {
        self.github_token_refresh_managed
    }

    pub closed spec fn hub(&self) -> Option<H> {
        self.steering_hub
    }

    pub fn new() -> (r: Self)
        ensures
            r.env() is None,
            !r.token_managed(),
            r.hub() is None,
    {
        AgentAcpBackend {
            tool_env: None,
            github_token_refresh_managed: false,
            steering_hub: None,
        }
    }

    /// With an environment that does not change.
    pub fn with_env(self, env: E) -> (r: Self)
        ensures
            r.env() == Some(env),
            r.token_managed() == self.token_managed(),
            r.hub() == self.hub(),
    {
        AgentAcpBackend {
            tool_env: Some(env),
            github_token_refresh_managed: self.github_token_refresh_managed,
            steering_hub: self.steering_hub,
        }
    }

    pub fn with_tool_env_provider(self, provider: E, github_token_refresh_managed: bool) -> (r: Self)
        ensures
            r.env() == Some(provider),
            r.token_managed() == github_token_refresh_managed,
            r.hub() == self.hub(),
    {
        AgentAcpBackend {
            tool_env: Some(provider),
            github_token_refresh_managed,
            steering_hub: self.steering_hub,
        }
    }

    pub fn with_steering_hub(self, steering_hub: H) -> (r: Self)
        ensures
            r.hub() == Some(steering_hub),
            r.env() == self.env(),
            r.token_managed() == self.token_managed(),
    {
        AgentAcpBackend {
            tool_env: self.tool_env,
            github_token_refresh_managed: self.github_token_refresh_managed,
            steering_hub: Some(steering_hub),
        }
    }

    pub fn tool_env(&self) -> (r: &Option<E>)
        ensures
            *r == self.env(),
    {
        &self.tool_env
    }

    pub fn steering_hub(&self) -> (r: &Option<H>)
        ensures
            *r == self.hub(),
    {
        &self.steering_hub
    }

    /// What the process gets from its environment.
    pub fn launch_env(&self) -> (r: LaunchEnv)
        ensures
            r == if self.env() is Some {
                LaunchEnv::Resolve { warn_of_expiry: self.token_managed() }
            } else {
                LaunchEnv::Empty
            },
    {
        match &self.tool_env {
            Some(_) => LaunchEnv::Resolve { warn_of_expiry: self.github_token_refresh_managed },
            None => LaunchEnv::Empty,
        }
    }

    /// Whether the backend can run a node: not one with an output schema.
    pub fn check_run(&self, node: &Node) -> (r: Result<(), Error>)
        ensures
            if node@.text("output_schema"@) is Some {
                r matches Err(e) && e@ == ErrorView::Validation(
                    "output_schema is not supported with backend=\"acp\" in this release"@,
                )
            } else {
                r == Ok::<(), Error>(())
            },
    {
        if node.text("output_schema").is_some() {
            Err(
                Error::Validation(
                    "output_schema is not supported with backend=\"acp\" in this release".to_owned(),
                ),
            )
        } else {
            Ok(())
        }
    }

    /// The backend completes no prompts.
    pub fn one_shot(&self) -> (r: Error)
        ensures
            r@ == ErrorView::Validation(one_shot_refusal()),
    {
        Error::Validation(
            "backend=\"acp\" is only valid on agent nodes; prompt nodes are API-only".to_owned(),
        )
    }

    pub fn node_timeout_policy(&self) -> (r: NodeTimeoutPolicy)
        ensures
            r == NodeTimeoutPolicy::HandlerManaged,
    {
        NodeTimeoutPolicy::HandlerManaged
    }
}

/// Why the backend completes no prompts.
pub open spec fn one_shot_refusal() -> Seq<char> {
    "backend=\"acp\" is only valid on agent nodes; prompt nodes are API-only"@
}

/// Says that a stage's process is about to start.
#[derive(Debug, PartialEq)]
pub struct AcpStarted {
    pub node_id: String,
    pub visit: u32,
    /// The command as it is shown, without its environment.
    pub command: String,
    pub config_name: Option<String>,
}

/// The event for the start of a process.
pub fn acp_started(node: &Node, visit: u32, command: String, config_name: Option<String>) -> (r:
    AcpStarted)
    ensures
        r.node_id@ == node@.id,
        r.visit == visit,
        r.command == command,
        r.config_name == config_name,
{
    AcpStarted { node_id: node.id.clone(), visit, command, config_name }
}

/// What the user is told where a token in the environment may expire.
pub const ENV_EXPIRY_NOTICE: &'static str = "ACP agent stages receive workflow env at process launch; stages running beyond token expiry may need to be retried.";

/// The error of a stage whose environment could not be made.
pub fn launch_env_error(causes: Vec<String>) -> (r: Error)
    ensures
        r@ == handler_caused("Failed to resolve ACP agent env"@, causes.deep_view(), None),
{
    Error::handler_with_source("Failed to resolve ACP agent env", causes, None)
}

/// Whether `c` is a hexadecimal digit in lower case.
pub open spec fn is_lower_hex(c: char) -> bool {
    ('0' <= c && c <= '9') || ('a' <= c && c <= 'f')
}

/// Whether a text has the form of a `Uuid`: groups of hexadecimal digits with
/// hyphens between them.
pub open spec fn is_uuid(s: Seq<char>) -> bool {
    s.len() == 36 && forall|i: int|
        0 <= i < s.len() ==> if i == 8 || i == 13 || i == 18 || i == 23 {
            #[trigger] s[i] == '-'
        } else {
            is_lower_hex(s[i])
        }
}

/// A new identifier: `uuid::Uuid::new_v4` and its `Display`, hexadecimal digits
/// in five groups. Which digits is not said: they are random.
#[verifier::external_body]
fn new_uuid() -> (r: String)
    ensures
        is_uuid(r@),
{
    uuid::Uuid::new_v4().to_string()
}

/// The identity of the session of a new process.
pub fn acp_session_id() -> (r: String)
    ensures
        "acp-"@.is_prefix_of(r@),
        is_uuid(r@.skip("acp-"@.len() as int)),
{
    let unique = new_uuid();
    let r = concat("acp-", unique.as_str());
    assert("acp-"@ =~= r@.take("acp-"@.len() as int));
    assert(r@.skip("acp-"@.len() as int) =~= unique@);
    r
}

/// The session of a process, as its stage lets it be steered. Its model is the
/// name of its configuration.
pub fn acp_lease_options(
    node: &Node,
    visit: u32,
    session_id: &str,
    config_name: Option<&str>,
) -> (r: ActivationLeaseOptions)
    ensures
        r.stage_id@ == (StageIdView { node_id: node@.id, visit }),
        r.session_id@ == session_id@,
        r.thread_id is None,
        r.provider.deep_view() == Some("acp"@),
        r.model.deep_view() == config_name.deep_view(),
        r.reasoning_effort is None,
        r.speed is None,
        r.permission_level is None,
        r.capabilities@ == seq![SessionCapability::Steer],
{
    let mut capabilities: Vec<SessionCapability> = Vec::new();
    capabilities.push(SessionCapability::Steer);
    assert(capabilities@ =~= seq![SessionCapability::Steer]);
    ActivationLeaseOptions {
        stage_id: StageId::new(node.id.as_str(), visit),
        session_id: session_id.to_owned(),
        thread_id: None,
        provider: Some("acp".to_owned()),
        model: match config_name {
            Some(name) => Some(name.to_owned()),
            None => None,
        },
        reasoning_effort: None,
        speed: None,
        permission_level: None,
        capabilities,
    }
}

/// A turn that the process ended is told with its words, its errors, its reason and
/// its time, and gives its words as the result; one that it stopped for another
/// reason is told as completed with what it had said, and is an error. One that was
/// cancelled or ran out of time is told as that and is the error of that. Any other
/// failure is an error alone.
pub proof fn lemma_turns_are_told_as_they_ended(
    result: Result<AcpRunResult, AcpError>,
    elapsed_ms: u64,
    end: TurnEnd,
)
    requires
        call_ensures(end_turn, (result, elapsed_ms), end),
    ensures
        result is Ok <==> end.result is Ok,
        match result {
            Ok(done) => {
                &&& end.result matches Ok((text, timing)) && text@ == done.text@
                    && timing.inference_ms == done.duration_ms && timing.tool_ms == 0
                &&& end.event.deep_view() matches Some(AcpEventView::Completed {
                    stdout,
                    stderr,
                    stop_reason,
                    duration_ms,
                }) && stdout == done.text@ && stderr == done.stderr@ && stop_reason
                    == done.stop_reason@ && duration_ms == done.duration_ms
            },
            Err(AcpError::Cancelled) => {
                &&& end.result matches Err(e) && e@ == ErrorView::Cancelled
                &&& end.event.deep_view() == Some(
                    AcpEventView::Cancelled { duration_ms: elapsed_ms },
                )
            },
            Err(AcpError::TimedOut { exec_output_tail }) => {
                &&& end.result matches Err(e) && (e@ matches ErrorView::Handler(h) && h.message
                    == "ACP turn timed out"@ && h.exec_output_tail == exec_output_tail.deep_view())
                &&& end.event.deep_view() matches Some(AcpEventView::TimedOut {
                    stderr,
                    duration_ms,
                }) && duration_ms == elapsed_ms && (exec_output_tail.deep_view() matches Some(tail)
                    ==> (tail.stderr matches Some(text) ==> stderr == text))
            },
            Err(AcpError::StopReason { stop_reason, text }) => {
                &&& end.result matches Err(e) && (e@ matches ErrorView::Handler(h) && h.message
                    == "ACP prompt stopped with "@ + stop_reason@ + ": "@ + text@)
                &&& end.event.deep_view() matches Some(AcpEventView::Completed {
                    stdout,
                    stop_reason: told,
                    duration_ms,
                    ..
                }) && stdout == text@ && told == stop_reason@ && duration_ms == elapsed_ms
            },
            Err(AcpError::Sandbox(causes)) => {
                &&& end.event is None
                &&& end.result matches Err(e) && (e@ matches ErrorView::Handler(h) && h.causes
                    == causes.deep_view())
            },
            Err(AcpError::Other { causes, exec_output_tail }) => {
                &&& end.event is None
                &&& end.result matches Err(e) && (e@ matches ErrorView::Handler(h) && h.causes
                    == causes.deep_view() && h.exec_output_tail == exec_output_tail.deep_view())
            },
        },
{
}


/// A process gets the last environment that the backend was given, or none without
/// one; the user is told of a token that may expire exactly where it is kept fresh
/// elsewhere. Steering makes no difference to it.
pub proof fn lemma_processes_get_the_environment_that_was_given<E, H>(
    backend: AgentAcpBackend<E, H>,
    provider: E,
    managed: bool,
    hub: H,
    given: AgentAcpBackend<E, H>,
    steered: AgentAcpBackend<E, H>,
    launch: LaunchEnv,
)
    requires
        call_ensures(
            AgentAcpBackend::<E, H>::with_tool_env_provider,
            (backend, provider, managed),
            given,
        ),
        call_ensures(AgentAcpBackend::<E, H>::with_steering_hub, (given, hub), steered),
        call_ensures(AgentAcpBackend::<E, H>::launch_env, (&steered,), launch),
    ensures
        steered.env() == Some(provider),
        steered.hub() == Some(hub),
        given.hub() == backend.hub(),
        launch == (LaunchEnv::Resolve { warn_of_expiry: managed }),
{
}

/// A fresh backend starts its processes without an environment, and an environment
/// that does not change is never told of as one that may expire.
pub proof fn lemma_fixed_environments_do_not_expire<E, H>(
    fresh: AgentAcpBackend<E, H>,
    env: E,
    given: AgentAcpBackend<E, H>,
    before: LaunchEnv,
    after: LaunchEnv,
)
    requires
        call_ensures(AgentAcpBackend::<E, H>::new, (), fresh),
        call_ensures(AgentAcpBackend::<E, H>::with_env, (fresh, env), given),
        call_ensures(AgentAcpBackend::<E, H>::launch_env, (&fresh,), before),
        call_ensures(AgentAcpBackend::<E, H>::launch_env, (&given,), after),
    ensures
        before is Empty,
        given.env() == Some(env),
        after == (LaunchEnv::Resolve { warn_of_expiry: false }),
{
}

/// The backend runs every node but those with an output schema, and completes no
/// prompt.
pub proof fn lemma_schemas_and_prompts_are_refused<E, H>(
    backend: &AgentAcpBackend<E, H>,
    node: &Node,
    checked: Result<(), Error>,
    prompt: Error,
)
    requires
        call_ensures(AgentAcpBackend::<E, H>::check_run, (backend, node), checked),
        call_ensures(AgentAcpBackend::<E, H>::one_shot, (backend,), prompt),
    ensures
        checked is Err <==> node@.attrs.contains_key("output_schema"@)
            && node@.attrs["output_schema"@] is String,
        checked matches Err(e) ==> e@ is Validation,
        prompt@ is Validation,
{
}

/// The session that a process lets itself be steered under is the one that it was
/// given, at the execution of its node, and its model is its configuration; it is
/// announced as the start of that execution.
pub proof fn lemma_processes_are_steered_at_their_node(
    node: &Node,
    visit: u32,
    session: &str,
    config: Option<&str>,
    options: ActivationLeaseOptions,
    command: String,
    name: Option<String>,
    started: AcpStarted,
)
    requires
        call_ensures(acp_lease_options, (node, visit, session, config), options),
        call_ensures(acp_started, (node, visit, command, name), started),
    ensures
        options.stage_id@.node_id == node.id@ && options.stage_id@.visit == visit,
        options.session_id@ == session@,
        options.provider.deep_view() == Some("acp"@),
        options.model.deep_view() == config.deep_view(),
        options.thread_id is None && options.permission_level is None,
        options.capabilities@.contains(SessionCapability::Steer),
        started.node_id@ == node.id@ && started.visit == visit,
        started.command == command && started.config_name == name,
{
    assert(options.capabilities@[0] == SessionCapability::Steer);
}

} // verus!
