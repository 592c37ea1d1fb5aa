//! Which handler runs a node.
use crate::error::Error;
use crate::graph::{shape_handler, shape_to_handler_type, Node, NodeView};
use crate::handler::basic::NodeTimeoutPolicy;
use crate::order::ascending;
use crate::table::Table;
use vstd::prelude::*;

verus! {

/// How a handler is called.
#[derive(Clone, Copy, Debug, PartialEq, Eq, Structural)]
pub enum Dispatch {
    Simulate,
    Execute,
}

/// A dry run simulates a node, any other run executes it.
pub fn dispatch_handler(dry_run: bool) -> (r: Dispatch)
    ensures
        r == if dry_run {
            Dispatch::Simulate
        } else {
            Dispatch::Execute
        },
{
    if dry_run {
        Dispatch::Simulate
    } else {
        Dispatch::Execute
    }
}

/// Whether a handler without a rule of its own retries after an error.
pub fn should_retry(err: &Error) -> (r: bool)
    ensures
        r == err@.retryable(),
{
    err.is_retryable()
}

/// Handlers by type name, with one for every other node.
pub struct HandlerRegistry<H> {
    slots: Table<usize>,
    handlers: Vec<H>,
    default_handler: H,
}

impl<H> HandlerRegistry<H> {
    /// Every name leads to a handler.
    #[verifier::type_invariant]
    spec fn inv(self) -> bool {
        forall|name: Seq<char>|
            self.slots@.contains_key(name) ==> #[trigger] self.slots@[name] < self.handlers@.len()
    }

    /// The handler registered under a name.
    pub closed spec fn named(&self, name: Seq<char>) -> Option<H> {
        if self.slots@.contains_key(name) {
            Some(self.handlers@[self.slots@[name] as int])
        } else {
            None
        }
    }

    pub closed spec fn fallback(&self) -> H {
        self.default_handler
    }

    /// The handler for a node: by explicit type, else by shape, else the
    /// default.
    pub open spec fn resolved(&self, node: NodeView) -> H {
        let by_type = match node.text("type"@) {
            Some(t) => self.named(t),
            None => None,
        };
        let by_shape = match shape_handler(node.shape()) {
            Some(t) => self.named(t),
            None => None,
        };
        match by_type {
            Some(h) => h,
            None => match by_shape {
                Some(h) => h,
                None => self.fallback(),
            },
        }
    }

    pub fn new(default_handler: H) -> (r: Self)
        ensures
            r.fallback() == default_handler,
            forall|name: Seq<char>| #[trigger] r.named(name) is None,
    {
        HandlerRegistry { slots: Table::new(), handlers: Vec::new(), default_handler }
    }

    /// Registers a handler under a name, in place of an earlier one.
    pub fn register(&mut self, type_string: &str, handler: H)
        ensures
            final(self).fallback() == old(self).fallback(),
            final(self).named(type_string@) == Some(handler),
            forall|name: Seq<char>|
                name != type_string@ ==> #[trigger] final(self).named(name) == old(self).named(name),
    {
        proof {
            use_type_invariant(&*self);
        }
        let slot: usize = self.handlers.len();
        let mut handlers: Vec<H> = Vec::new();
        let mut slots: Table<usize> = Table::new();
        std::mem::swap(&mut slots, &mut self.slots);
        std::mem::swap(&mut handlers, &mut self.handlers);
        handlers.push(handler);
        slots.insert(type_string.to_owned(), slot);
        self.handlers = handlers;
        self.slots = slots;
    }

    /// The handler registered under a name.
    pub fn get(&self, name: &str) -> (r: Option<&H>)
        ensures
            match r {
                Some(h) => self.named(name@) == Some(*h),
                None => self.named(name@) is None,
            },
    {
        proof {
            use_type_invariant(self);
        }
        match self.slots.get(name) {
            Some(slot) => Some(&self.handlers[*slot]),
            None => None,
        }
    }

    /// The handler for a node.
    pub fn resolve(&self, node: &Node) -> (r: &H)
        ensures
            *r == self.resolved(node@),
    {
        if let Some(node_type) = node.node_type() {
            if let Some(handler) = self.get(node_type) {
                return handler;
            }
        }
        if let Some(handler_type) = shape_to_handler_type(node.shape()) {
            if let Some(handler) = self.get(handler_type) {
                return handler;
            }
        }
        &self.default_handler
    }

    /// The default handler, the first to be shut down.
    pub fn default_handler(&self) -> (r: &H)
        ensures
            *r == self.fallback(),
    {
        &self.default_handler
    }

    /// The registered names, in ascending order: the handlers to shut down
    /// after the default one.
    pub fn names(&self) -> (r: Vec<String>)
        ensures
            ascending(r.deep_view()),
            forall|name: Seq<char>| r.deep_view().contains(name) <==> #[trigger] self.named(name) is Some,
    {
        let r = self.slots.keys();
        assert forall|name: Seq<char>| r.deep_view().contains(name) <==> #[trigger] self.named(
            name,
        ) is Some by {
            assert(r.deep_view().to_set().contains(name) == self.slots@.contains_key(name));
        }
        r
    }
}

/// The handlers that every engine has.
#[derive(Clone, Copy, Debug, PartialEq, Eq, Structural)]
pub enum BuiltIn {
    Start,
    Exit,
    Agent,
    Prompt,
    Conditional,
    Human,
    Command,
    Parallel,
    FanIn,
    SubWorkflow,
    Wait,
}

/// The built-in handler of a type name.
pub open spec fn built_in(name: Seq<char>) -> Option<BuiltIn> {
    if name == "start"@ {
        Some(BuiltIn::Start)
    } else if name == "exit"@ {
        Some(BuiltIn::Exit)
    } else if name == "agent"@ {
        Some(BuiltIn::Agent)
    } else if name == "prompt"@ {
        Some(BuiltIn::Prompt)
    } else if name == "conditional"@ {
        Some(BuiltIn::Conditional)
    } else if name == "human"@ {
        Some(BuiltIn::Human)
    } else if name == "command"@ {
        Some(BuiltIn::Command)
    } else if name == "tool"@ {
        Some(BuiltIn::Command)
    } else if name == "parallel"@ {
        Some(BuiltIn::Parallel)
    } else if name == "parallel.fan_in"@ {
        Some(BuiltIn::FanIn)
    } else if name == "stack.manager_loop"@ {
        Some(BuiltIn::SubWorkflow)
    } else if name == "wait"@ {
        Some(BuiltIn::Wait)
    } else {
        None
    }
}

/// A registry with every built-in handler; other nodes go to the agent. The
/// handlers that take a backend of their own are the default one and those of
/// `agent`, `prompt` and `parallel.fan_in`; the interviewer goes to that of
/// `human`.
pub fn default_registry() -> (r: HandlerRegistry<BuiltIn>)
    ensures
        r.fallback() == BuiltIn::Agent,
        r.fallback().needs_backend(),
        forall|name: Seq<char>| #[trigger] r.named(name) == built_in(name),
        forall|name: Seq<char>|
            ((#[trigger] r.named(name)) matches Some(h) && h.needs_backend()) <==> name == "agent"@
                || name == "prompt"@ || name == "parallel.fan_in"@,
        forall|name: Seq<char>|
            ((#[trigger] r.named(name)) matches Some(h) && h.needs_interviewer()) <==> name
                == "human"@,
{
    proof {
        reveal_strlit("start");
        reveal_strlit("exit");
        reveal_strlit("agent");
        reveal_strlit("prompt");
        reveal_strlit("conditional");
        reveal_strlit("human");
        reveal_strlit("command");
        reveal_strlit("tool");
        reveal_strlit("parallel");
        reveal_strlit("parallel.fan_in");
        reveal_strlit("stack.manager_loop");
        reveal_strlit("wait");
        assert("start"@[0] == 's' && "start"@.len() == 5);
        assert("exit"@[0] == 'e' && "exit"@.len() == 4);
        assert("agent"@[0] == 'a' && "agent"@.len() == 5);
        assert("prompt"@[0] == 'p' && "prompt"@.len() == 6);
        assert("conditional"@.len() == 11);
        assert("human"@[0] == 'h' && "human"@.len() == 5);
        assert("command"@.len() == 7);
        assert("tool"@[0] == 't' && "tool"@.len() == 4);
        assert("parallel"@.len() == 8);
        assert("parallel.fan_in"@.len() == 15);
        assert("stack.manager_loop"@.len() == 18);
        assert("wait"@[0] == 'w' && "wait"@.len() == 4);
    }
    let mut r = HandlerRegistry::new(BuiltIn::Agent);
    r.register("start", BuiltIn::Start);
    r.register("exit", BuiltIn::Exit);
    r.register("agent", BuiltIn::Agent);
    r.register("prompt", BuiltIn::Prompt);
    r.register("conditional", BuiltIn::Conditional);
    r.register("human", BuiltIn::Human);
    r.register("command", BuiltIn::Command);
    r.register("tool", BuiltIn::Command);
    r.register("parallel", BuiltIn::Parallel);
    r.register("parallel.fan_in", BuiltIn::FanIn);
    r.register("stack.manager_loop", BuiltIn::SubWorkflow);
    r.register("wait", BuiltIn::Wait);
    r
}

impl BuiltIn {
    /// Whether a handler calls models through a backend of its own.
    pub open spec fn needs_backend(self) -> bool {
        self == BuiltIn::Agent || self == BuiltIn::Prompt || self == BuiltIn::FanIn
    }

    /// Whether a handler puts questions to humans.
    pub open spec fn needs_interviewer(self) -> bool {
        self == BuiltIn::Human
    }

    pub fn takes_backend(self) -> (r: bool)
        ensures
            r == self.needs_backend(),
    {
        match self {
            BuiltIn::Agent | BuiltIn::Prompt | BuiltIn::FanIn => true,
            _ => false,
        }
    }

    pub fn takes_interviewer(self) -> (r: bool)
        ensures
            r == self.needs_interviewer(),
    {
        match self {
            BuiltIn::Human => true,
            _ => false,
        }
    }

    /// Who applies the timeout of a node that this handler runs, given the
    /// policy of the agent backend where there is one.
    pub fn node_timeout_policy(self, backend: Option<NodeTimeoutPolicy>) -> (r: NodeTimeoutPolicy)
        ensures
            r == match self {
                BuiltIn::Human | BuiltIn::Command => NodeTimeoutPolicy::HandlerManaged,
                BuiltIn::Agent => match backend {
                    Some(policy) => policy,
                    None => NodeTimeoutPolicy::ExecutorEnforced,
                },
                _ => NodeTimeoutPolicy::ExecutorEnforced,
            },
    {
        match self {
            BuiltIn::Human | BuiltIn::Command => NodeTimeoutPolicy::HandlerManaged,
            BuiltIn::Agent => match backend {
                Some(policy) => policy,
                None => NodeTimeoutPolicy::ExecutorEnforced,
            },
            _ => NodeTimeoutPolicy::ExecutorEnforced,
        }
    }
}

/// An explicit type that is registered wins over the shape.
pub proof fn lemma_explicit_type_wins<H>(registry: HandlerRegistry<H>, node: NodeView, t: Seq<char>)
    requires
        node.text("type"@) == Some(t),
        registry.named(t) is Some,
    ensures
        registry.resolved(node) == registry.named(t).unwrap(),
{
}

/// A node goes to the handler of its explicit type where one is registered under
/// it, else to that of its shape, else to the default one.
pub proof fn lemma_nodes_find_their_handler<H>(registry: HandlerRegistry<H>, node: NodeView)
    ensures
        ({
            let by_type = node.text("type"@) matches Some(t) && registry.named(t) is Some;
            let by_shape = shape_handler(node.shape()) matches Some(t) && registry.named(t) is Some;
            &&& by_type ==> registry.named(node.text("type"@).unwrap()) == Some(
                registry.resolved(node),
            )
            &&& !by_type && by_shape ==> registry.named(shape_handler(node.shape()).unwrap())
                == Some(registry.resolved(node))
            &&& !by_type && !by_shape ==> registry.resolved(node) == registry.fallback()
        }),
{
}

/// Human and command nodes apply their own timeout, agents as their backend says,
/// and the executor applies it for every other node.
pub proof fn lemma_timeouts_are_applied_once(
    handler: BuiltIn,
    backend: Option<NodeTimeoutPolicy>,
    r: NodeTimeoutPolicy,
)
    requires
        call_ensures(BuiltIn::node_timeout_policy, (handler, backend), r),
    ensures
        handler == BuiltIn::Human || handler == BuiltIn::Command ==> r
            == NodeTimeoutPolicy::HandlerManaged,
        handler == BuiltIn::Agent ==> (backend matches Some(policy) ==> r == policy),
        handler == BuiltIn::Agent && backend is None ==> r == NodeTimeoutPolicy::ExecutorEnforced,
        handler != BuiltIn::Human && handler != BuiltIn::Command && handler != BuiltIn::Agent ==> r
            == NodeTimeoutPolicy::ExecutorEnforced,
{
}

/// A dry run simulates every node, and no other run does.
pub proof fn lemma_only_dry_runs_simulate(dry_run: bool, r: Dispatch)
    requires
        call_ensures(dispatch_handler, (dry_run,), r),
    ensures
        r == Dispatch::Simulate <==> dry_run,
        r == Dispatch::Execute <==> !dry_run,
{
}

/// The type name of a built-in handler.
pub open spec fn known_as(handler: BuiltIn) -> Seq<char> {
    match handler {
        BuiltIn::Start => "start"@,
        BuiltIn::Exit => "exit"@,
        BuiltIn::Agent => "agent"@,
        BuiltIn::Prompt => "prompt"@,
        BuiltIn::Conditional => "conditional"@,
        BuiltIn::Human => "human"@,
        BuiltIn::Command => "command"@,
        BuiltIn::Parallel => "parallel"@,
        BuiltIn::FanIn => "parallel.fan_in"@,
        BuiltIn::SubWorkflow => "stack.manager_loop"@,
        BuiltIn::Wait => "wait"@,
    }
}

/// Every built-in handler is found under its type name and under no other, but for
/// commands, which are tools too. Every shape that stands for a type stands for one
/// that is built in.
pub proof fn lemma_handlers_are_found_by_type_name(
    handler: BuiltIn,
    name: Seq<char>,
    shape: Seq<char>,
)
    ensures
        built_in(known_as(handler)) == Some(handler),
        built_in(name) == Some(handler) ==> name == known_as(handler) || (name == "tool"@
            && handler is Command),
        built_in("tool"@) == Some(BuiltIn::Command),
        shape_handler(shape) matches Some(t) ==> built_in(t) is Some && t == known_as(
            built_in(t).unwrap(),
        ),
{
    reveal_strlit("start");
    reveal_strlit("exit");
    reveal_strlit("agent");
    reveal_strlit("prompt");
    reveal_strlit("conditional");
    reveal_strlit("human");
    reveal_strlit("command");
    reveal_strlit("tool");
    reveal_strlit("parallel");
    reveal_strlit("parallel.fan_in");
    reveal_strlit("stack.manager_loop");
    reveal_strlit("wait");
    assert("start"@[0] == 's' && "start"@.len() == 5);
    assert("exit"@[0] == 'e' && "exit"@.len() == 4);
    assert("agent"@[0] == 'a' && "agent"@.len() == 5);
    assert("prompt"@.len() == 6);
    assert("conditional"@.len() == 11);
    assert("human"@[0] == 'h' && "human"@.len() == 5);
    assert("command"@.len() == 7);
    assert("tool"@[0] == 't' && "tool"@.len() == 4);
    assert("parallel"@.len() == 8);
    assert("parallel.fan_in"@.len() == 15);
    assert("stack.manager_loop"@.len() == 18);
    assert("wait"@[0] == 'w' && "wait"@.len() == 4);
}

/// Every handler that calls a model takes a backend, a join among them; only that of
/// questions takes an interviewer; and the one that answers for strangers calls a
/// model. What the answers of a handler are is asked of the handler alone.
pub proof fn lemma_models_and_humans_are_reached(
    handler: BuiltIn,
    backend: bool,
    interviewer: bool,
    r: HandlerRegistry<BuiltIn>,
    name: Seq<char>,
)
    requires
        call_ensures(BuiltIn::takes_backend, (handler,), backend),
        call_ensures(BuiltIn::takes_interviewer, (handler,), interviewer),
        call_ensures(default_registry, (), r),
    ensures
        backend <==> crate::graph::is_llm(Some(known_as(handler))) || handler is FanIn,
        interviewer <==> handler is Human,
        !(backend && interviewer),
        r.fallback() == BuiltIn::Agent,
        r.named(name) == built_in(name),
{
    lemma_handlers_are_found_by_type_name(handler, "agent"@, Seq::empty());
    lemma_handlers_are_found_by_type_name(handler, "prompt"@, Seq::empty());
    assert(built_in(known_as(BuiltIn::Agent)) == Some(BuiltIn::Agent)) by {
        lemma_handlers_are_found_by_type_name(BuiltIn::Agent, name, Seq::empty());
    }
    assert(built_in(known_as(BuiltIn::Prompt)) == Some(BuiltIn::Prompt)) by {
        lemma_handlers_are_found_by_type_name(BuiltIn::Prompt, name, Seq::empty());
    }
}

} // verus!
