//! A single completion, with fallbacks and output repair.
use crate::error::{Error, ErrorView, LlmError, LlmErrorView};
use crate::handler::llm::controls::EffectiveRequestControls;
use crate::handler::llm::fallback::{failover_event, FailoverProps, FallbackPlan, FallbackView};
use crate::handler::llm::file_tracking::UsageLedger;
use crate::handler::structured_output::{
    exhausted_failure_reason, exhausted_reason, format_for, prompt_response_format,
    repair_sections, response_result, validate_response_text, OutputErrorView, OutputSchemaKind,
    OutputSchemaView, ResponseFormat, StructuredOutputError,
};
use crate::json::{Json, JsonView};
use crate::table::Duplicate;
use crate::text::join;
use vstd::prelude::*;

verus! {

/// Who speaks in a conversation.
#[derive(Clone, Copy, Debug, PartialEq, Eq, Structural)]
pub enum Role {
    System,
    User,
    Assistant,
}

/// What was said in a conversation.
#[derive(Debug, PartialEq)]
pub struct Message {
    pub role: Role,
    pub text: String,
}

pub struct MessageView {
    pub role: Role,
    pub text: Seq<char>,
}

impl View for Message {
    type V = MessageView;

    open spec fn view(&self) -> MessageView {
        MessageView { role: self.role, text: self.text@ }
    }
}

impl DeepView for Message {
    type V = MessageView;

    open spec fn deep_view(&self) -> MessageView {
        self@
    }
}

impl Duplicate for Message {
    fn duplicate(&self) -> (r: Self) {
        Message { role: self.role, text: self.text.clone() }
    }
}

fn say(messages: &mut Vec<Message>, role: Role, text: String)
    ensures
        final(messages).deep_view() == old(messages).deep_view().push(
            (MessageView { role, text: text@ }),
        ),
{
    let ghost had = messages.deep_view();
    let ghost added = MessageView { role, text: text@ };
    messages.push(Message { role, text });
    assert(messages.deep_view() =~= had.push(added));
}

/// A completion under way.
pub struct OneShot {
    plan: FallbackPlan,
    messages: Vec<Message>,
    schema: Option<OutputSchemaKind>,
    previous: Option<StructuredOutputError>,
    repairs: i64,
    output_retries: i64,
    usage: UsageLedger,
}

pub struct OneShotView {
    pub plan: FallbackView,
    pub messages: Seq<MessageView>,
    pub schema: Option<OutputSchemaView>,
    /// The problem that the last repair was asked for.
    pub previous: Option<OutputErrorView>,
    /// The number of repairs asked for.
    pub repairs: int,
    pub output_retries: int,
    /// What each response used, whatever became of it.
    pub usage: Seq<JsonView>,
}

impl View for OneShot {
    type V = OneShotView;

    closed spec fn view(&self) -> OneShotView {
        OneShotView {
            plan: self.plan@,
            messages: self.messages.deep_view(),
            schema: self.schema.deep_view(),
            previous: self.previous.deep_view(),
            repairs: self.repairs as int,
            output_retries: self.output_retries as int,
            usage: self.usage@,
        }
    }
}

/// What follows an answer of the model.
#[derive(Debug, PartialEq)]
pub enum OneShotStep {
    /// Send the conversation to the current route.
    Request,
    /// Say that the request goes on to a fallback, then send it there.
    Failover(FailoverProps),
    /// The last response is the result.
    Done,
    Fail(Error),
}

/// The conversation that a completion starts with.
pub open spec fn opening(system: Option<Seq<char>>, prompt: Seq<char>) -> Seq<MessageView> {
    (match system {
        Some(s) => seq![MessageView { role: Role::System, text: s }],
        None => Seq::empty(),
    }).push(MessageView { role: Role::User, text: prompt })
}

/// The prompt that asks for a repair.
pub open spec fn repair_text(
    schema: OutputSchemaView,
    error: OutputErrorView,
    previous: Option<OutputErrorView>,
) -> Seq<char> {
    join(repair_sections(error, schema, previous), "\n\n"@)
}

/// The state after a response. What it used is counted, whether it is the
/// result or not.
pub open spec fn after_response(s: OneShotView, text: Seq<char>, usage: JsonView) -> OneShotView {
    let counted = OneShotView { usage: s.usage.push(usage), ..s };
    match s.schema {
        None => counted,
        Some(schema) => match response_result(schema, text) {
            Ok(_) => counted,
            Err(error) => if s.repairs >= s.output_retries {
                counted
            } else {
                OneShotView {
                    messages: s.messages.push(
                        MessageView { role: Role::Assistant, text },
                    ).push(
                        MessageView {
                            role: Role::User,
                            text: repair_text(schema, error, s.previous),
                        },
                    ),
                    previous: Some(error),
                    repairs: s.repairs + 1,
                    ..counted
                }
            },
        },
    }
}

/// Whether a response is the result.
pub open spec fn is_result(s: OneShotView, text: Seq<char>) -> bool {
    match s.schema {
        None => true,
        Some(schema) => response_result(schema, text) is Ok,
    }
}

/// Whether a completion that met an error of the model is in the state `t` and
/// does what a step says.
pub open spec fn answers_error(
    s: OneShotView,
    error: LlmErrorView,
    shown: Seq<char>,
    t: OneShotView,
    step: OneShotStep,
) -> bool {
    if error.failover_eligible && s.plan.has_next() {
        &&& t == (OneShotView { plan: s.plan.advanced(), ..s })
        &&& step matches OneShotStep::Failover(props) && props.tells(s.plan.advanced(), shown)
    } else {
        &&& t == s
        &&& step matches OneShotStep::Fail(e) && e@ == ErrorView::Llm(error)
    }
}

/// Whether a step is the one that follows a response.
pub open spec fn answers_response(s: OneShotView, text: Seq<char>, step: OneShotStep) -> bool {
    if is_result(s, text) {
        step is Done
    } else if s.repairs >= s.output_retries {
        step matches OneShotStep::Fail(e) && e@ == ErrorView::OutputSchemaValidation(
            exhausted_reason(s.output_retries),
        )
    } else {
        step is Request
    }
}

impl OneShot {
    pub fn new(
        plan: FallbackPlan,
        system_prompt: Option<&str>,
        prompt: &str,
        schema: Option<OutputSchemaKind>,
        output_retries: i64,
    ) -> (r: OneShot)
        ensures
            r@ == (OneShotView {
                plan: plan@,
                messages: opening(system_prompt.deep_view(), prompt@),
                schema: schema.deep_view(),
                previous: None,
                repairs: 0,
                output_retries: output_retries as int,
                usage: Seq::empty(),
            }),
    {
        let mut messages: Vec<Message> = Vec::new();
        assert(messages.deep_view() =~= Seq::empty());
        if let Some(system) = system_prompt {
            say(&mut messages, Role::System, system.to_owned());
            assert(messages.deep_view() =~= seq![
                MessageView { role: Role::System, text: system@ },
            ]);
        }
        say(&mut messages, Role::User, prompt.to_owned());
        OneShot {
            plan,
            messages,
            schema,
            previous: None,
            repairs: 0,
            output_retries,
            usage: UsageLedger::new(),
        }
    }

    pub fn plan(&self) -> (r: &FallbackPlan)
        ensures
            r@ == self@.plan,
    {
        &self.plan
    }

    /// The conversation so far.
    pub fn messages(&self) -> (r: &Vec<Message>)
        ensures
            r.deep_view() == self@.messages,
    {
        &self.messages
    }

    /// What the responses so far used: what the completion is billed for.
    pub fn usage(&self) -> (r: &UsageLedger)
        ensures
            r@ == self@.usage,
    {
        &self.usage
    }

    /// Takes in an error of the model, whose text is `shown`. A request that
    /// another route may serve goes on to the next one.
    pub fn on_error(&mut self, error: LlmError, shown: &str) -> (r: OneShotStep)
        ensures
            answers_error(old(self)@, error@, shown@, final(self)@, r),
    {
        if error.failover_eligible && self.plan.has_next() {
            let _ = self.plan.advance();
            OneShotStep::Failover(failover_event(&self.plan, shown))
        } else {
            OneShotStep::Fail(Error::Llm(error))
        }
    }

    /// Takes in a response, and what it used. One that does not satisfy the
    /// schema is sent back for repair, on the same route, while repairs are left.
    pub fn on_response(&mut self, text: &str, usage: Json) -> (r: OneShotStep)
        ensures
            final(self)@ == after_response(old(self)@, text@, usage@),
            answers_response(old(self)@, text@, r),
    {
        self.usage.count(usage);
        let error = match &self.schema {
            Some(schema) => match validate_response_text(schema, text) {
                Ok(_) => {
                    return OneShotStep::Done;
                },
                Err(error) => error,
            },
            None => {
                return OneShotStep::Done;
            },
        };
        if self.repairs >= self.output_retries {
            return OneShotStep::Fail(
                Error::OutputSchemaValidation(exhausted_failure_reason(self.output_retries)),
            );
        }
        let repair = match &self.schema {
            Some(schema) => match &self.previous {
                Some(previous) => error.repair_message(schema, Some(previous)),
                None => error.repair_message(schema, None),
            },
            None => String::new(),
        };
        say(&mut self.messages, Role::Assistant, text.to_owned());
        say(&mut self.messages, Role::User, repair);
        self.previous = Some(error);
        self.repairs = self.repairs + 1;
        OneShotStep::Request
    }
}

/// The routes and repairs that a completion has left.
pub open spec fn tries_left(s: OneShotView) -> int {
    s.plan.remaining.len() - s.plan.position + if s.output_retries > s.repairs {
        s.output_retries - s.repairs
    } else {
        0
    }
}

/// Every further request uses up a route or a repair, so a completion ends.
pub proof fn lemma_completions_end(s: OneShotView, text: Seq<char>, usage: JsonView)
    requires
        s.plan.wf(),
    ensures
        tries_left(s) >= 0,
        s.plan.has_next() ==> tries_left(OneShotView { plan: s.plan.advanced(), ..s }) < tries_left(s),
        !is_result(s, text) && s.repairs < s.output_retries ==> tries_left(
            after_response(s, text, usage),
        ) < tries_left(s),
{
}

/// A repair stays on the route that gave the response.
pub proof fn lemma_repairs_keep_the_route(s: OneShotView, text: Seq<char>, usage: JsonView)
    ensures
        after_response(s, text, usage).plan == s.plan,
        s.messages.is_prefix_of(after_response(s, text, usage).messages),
{
    assert(s.messages =~= after_response(s, text, usage).messages.take(s.messages.len() as int));
}

/// An error that another route may not meet sends the request to the next route of
/// the plan, with the conversation, the repairs and the bill as they are, and says
/// where it goes, where it comes from and why. Any other error, and one with no
/// route left, ends the completion with that error.
pub proof fn lemma_errors_move_on_while_routes_are_left(
    s: OneShotView,
    error: LlmErrorView,
    shown: Seq<char>,
    t: OneShotView,
    step: OneShotStep,
)
    requires
        s.plan.position <= s.plan.remaining.len(),
        answers_error(s, error, shown, t, step),
    ensures
        ({
            let at = s.plan.position as int;
            let left = if at == 0 {
                s.plan.original
            } else {
                s.plan.remaining[at - 1]
            };
            let next = s.plan.remaining[at];
            &&& t.messages == s.messages && t.usage == s.usage && t.schema == s.schema
            &&& t.repairs == s.repairs && t.previous == s.previous
            &&& t.output_retries == s.output_retries
            &&& t.plan.original == s.plan.original && t.plan.remaining == s.plan.remaining
            &&& if error.failover_eligible && at < s.plan.remaining.len() {
                &&& t.plan.position == at + 1
                &&& step matches OneShotStep::Failover(props) && {
                    &&& props.to_provider@ == next.target.provider
                    &&& props.to_model@ == next.target.model
                    &&& props.from_provider@ == left.target.provider
                    &&& props.from_model@ == left.target.model
                    &&& props.original_provider@ == s.plan.original.target.provider
                    &&& props.original_model@ == s.plan.original.target.model
                    &&& props.effective_reasoning_effort.deep_view()
                        == next.controls.reasoning_effort
                    &&& props.error@ == shown
                }
            } else {
                &&& t.plan.position == at
                &&& step matches OneShotStep::Fail(e) && e@ == ErrorView::Llm(error)
            }
        }),
{
}

/// A response is the result where there is no schema or the response satisfies it;
/// otherwise it is sent back while repairs are left, and ends the completion where
/// none is. What it used is billed in every case. A response that is sent back
/// stands in the conversation, before the prompt that asks for its repair, and
/// nothing else changes the conversation.
pub proof fn lemma_responses_are_taken_or_sent_back(
    s: OneShotView,
    text: Seq<char>,
    usage: JsonView,
    step: OneShotStep,
)
    requires
        answers_response(s, text, step),
    ensures
        ({
            let t = after_response(s, text, usage);
            let taken = s.schema matches Some(schema) ==> response_result(schema, text) is Ok;
            let n = s.messages.len() as int;
            &&& step is Done <==> taken
            &&& step is Request <==> !taken && s.repairs < s.output_retries
            &&& step is Fail <==> !taken && s.repairs >= s.output_retries
            &&& step matches OneShotStep::Fail(e) ==> e@ is OutputSchemaValidation
            &&& t.usage.len() == s.usage.len() + 1 && t.usage.last() == usage
            &&& t.usage.drop_last() == s.usage
            &&& t.plan == s.plan && t.schema == s.schema && t.output_retries == s.output_retries
            &&& step is Request ==> {
                &&& t.messages.len() == n + 2
                &&& t.messages.take(n) == s.messages
                &&& t.messages[n] == (MessageView { role: Role::Assistant, text })
                &&& t.messages[n + 1].role == Role::User
                &&& t.repairs == s.repairs + 1
                &&& response_result(s.schema.unwrap(), text) matches Err(error) && {
                    &&& t.previous == Some(error)
                    &&& t.messages[n + 1].text == repair_text(s.schema.unwrap(), error, s.previous)
                }
            }
            &&& !(step is Request) ==> {
                &&& t.messages == s.messages
                &&& t.repairs == s.repairs
                &&& t.previous == s.previous
            }
        }),
{
    let t = after_response(s, text, usage);
    assert(t.usage.drop_last() =~= s.usage);
    if step is Request {
        assert(t.messages.take(s.messages.len() as int) =~= s.messages);
    }
}

/// A completion starts with the user's prompt, behind the system's where there is
/// one, and with nothing else.
pub proof fn lemma_conversations_start_with_the_prompt(
    system: Option<Seq<char>>,
    prompt: Seq<char>,
)
    ensures
        ({
            let m = opening(system, prompt);
            &&& m.last() == (MessageView { role: Role::User, text: prompt })
            &&& system is None ==> m.len() == 1
            &&& system matches Some(text) ==> m.len() == 2 && m[0] == (MessageView {
                role: Role::System,
                text,
            })
        }),
{
}

/// What came back for a request.
pub enum Reply {
    /// A response, and what it used.
    Response { text: Seq<char>, usage: JsonView },
    /// An error of the model.
    Error { failover_eligible: bool },
}

/// The state after a reply.
pub open spec fn after_reply(s: OneShotView, reply: Reply) -> OneShotView {
    match reply {
        Reply::Response { text, usage } => after_response(s, text, usage),
        Reply::Error { failover_eligible } => if failover_eligible && s.plan.has_next() {
            OneShotView { plan: s.plan.advanced(), ..s }
        } else {
            s
        },
    }
}

/// The state after replies.
pub open spec fn after_replies(s: OneShotView, replies: Seq<Reply>) -> OneShotView
    decreases replies.len(),
{
    if replies.len() == 0 {
        s
    } else {
        after_reply(after_replies(s, replies.drop_last()), replies.last())
    }
}

/// What the responses among replies used.
pub open spec fn used(replies: Seq<Reply>) -> Seq<JsonView>
    decreases replies.len(),
{
    if replies.len() == 0 {
        Seq::empty()
    } else {
        match replies.last() {
            Reply::Response { usage, .. } => used(replies.drop_last()).push(usage),
            Reply::Error { .. } => used(replies.drop_last()),
        }
    }
}

/// Every response is counted once, in its order, those that were sent back for
/// repair and those of routes that were left among them; an error is not.
pub proof fn lemma_every_response_is_counted(s: OneShotView, replies: Seq<Reply>)
    ensures
        after_replies(s, replies).usage == s.usage + used(replies),
    decreases replies.len(),
{
    if replies.len() > 0 {
        lemma_every_response_is_counted(s, replies.drop_last());
    }
    assert(after_replies(s, replies).usage =~= s.usage + used(replies));
}

/// The number of responses among replies.
pub open spec fn responses(replies: Seq<Reply>) -> nat {
    used(replies).len()
}

/// Whether no response among replies is the result of the completion that they
/// came for.
pub open spec fn all_sent_back(s: OneShotView, replies: Seq<Reply>) -> bool
    decreases replies.len(),
{
    replies.len() == 0 || {
        &&& all_sent_back(s, replies.drop_last())
        &&& replies.last() matches Reply::Response { text, .. } ==> !is_result(s, text)
    }
}

/// While no response is the result, a repair is asked for after each, up to the
/// number that is allowed: the response after that many failed ones is the last.
pub proof fn lemma_repairs_count_the_failures(s: OneShotView, replies: Seq<Reply>)
    requires
        s.schema is Some,
        s.repairs == 0,
        all_sent_back(s, replies),
    ensures
        after_replies(s, replies).schema == s.schema,
        after_replies(s, replies).output_retries == s.output_retries,
        after_replies(s, replies).repairs == if responses(replies) <= s.output_retries {
            responses(replies) as int
        } else if s.output_retries < 0 {
            0
        } else {
            s.output_retries
        },
        after_replies(s, replies).repairs >= s.output_retries <==> responses(replies)
            >= s.output_retries,
    decreases replies.len(),
{
    if replies.len() > 0 {
        lemma_repairs_count_the_failures(s, replies.drop_last());
    }
}

/// A completion request to a route.
#[derive(Debug, PartialEq)]
pub struct CompletionRequest {
    pub model: String,
    pub provider: String,
    pub messages: Vec<Message>,
    pub response_format: Option<ResponseFormat>,
    pub max_tokens: Option<i64>,
    pub controls: EffectiveRequestControls,
}

/// The request that a completion sends next. `node_max_tokens` is the node's own
/// limit, `route_max_output` that of the model.
pub fn route_request(
    one_shot: &OneShot,
    node_max_tokens: Option<i64>,
    route_max_output: Option<i64>,
) -> (r: CompletionRequest)
    ensures
        r.model@ == one_shot@.plan.current().target.model,
        r.provider@ == one_shot@.plan.current().target.provider,
        r.messages.deep_view() == one_shot@.messages,
        r.response_format.deep_view() == match one_shot@.schema {
            Some(schema) => Some(format_for(schema)),
            None => None,
        },
        r.max_tokens == match node_max_tokens {
            Some(n) => Some(n),
            None => route_max_output,
        },
        r.controls@ == one_shot@.plan.current().controls,
{
    let route = one_shot.plan().current();
    CompletionRequest {
        model: route.target.model.clone(),
        provider: route.target.provider.clone(),
        messages: one_shot.messages().duplicate(),
        response_format: match &one_shot.schema {
            Some(schema) => Some(prompt_response_format(schema)),
            None => None,
        },
        max_tokens: match node_max_tokens {
            Some(n) => Some(n),
            None => route_max_output,
        },
        controls: route.controls.duplicate(),
    }
}

} // verus!
