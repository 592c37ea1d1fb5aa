//! The backend that calls models through their API.
use crate::error::{handler_caused, Error};
use crate::graph::{integer_attr, get_integer, Node};
use crate::handler::llm::activation_lease::{
    ActivationLeaseOptions, PermissionLevel, SessionCapability,
};
use crate::handler::llm::controls::{
    controls_of, effective_request_controls, ControlNames, ControlsView, EffectiveRequestControls,
    Reading, RunModelControls,
};
use crate::handler::llm::fallback::{fresh, notices_to_emit, FallbackTarget, TargetView};
use crate::order::TextSet;
use crate::stage_id::StageId;
use crate::table::{Duplicate, Table};
use crate::text::same;
use vstd::prelude::*;
use vstd::string::*;

verus! {

spec fn distinct<S>(entries: Seq<(String, S)>) -> bool {
    forall|i: int, j: int|
        0 <= i < j < entries.len() ==> (#[trigger] entries[i]).0@ != (#[trigger] entries[j]).0@
}

spec fn cached<S>(entries: Seq<(String, S)>) -> Map<Seq<char>, S> {
    Map::new(
        |key: Seq<char>| exists|i: int| 0 <= i < entries.len() && (#[trigger] entries[i]).0@ == key,
        |key: Seq<char>|
            entries[choose|i: int| 0 <= i < entries.len() && (#[trigger] entries[i]).0@ == key].1,
    )
}

proof fn lemma_cached_at<S>(entries: Seq<(String, S)>, i: int)
    requires
        distinct(entries),
        0 <= i < entries.len(),
    ensures
        cached(entries).contains_key(entries[i].0@),
        cached(entries)[entries[i].0@] == entries[i].1,
{
    let key = entries[i].0@;
    let k = choose|k: int| 0 <= k < entries.len() && (#[trigger] entries[k]).0@ == key;
    assert(entries[i].0@ == key);
    assert(k == i);
}

/// Whether a session is kept for some thread.
pub open spec fn keeps<S>(cache: Map<Seq<char>, S>, session: S) -> bool {
    exists|key: Seq<char>| #[trigger] cache.contains_key(key) && cache[key] == session
}

/// Sessions kept for later stages, by thread.
pub struct SessionCache<S> {
    entries: Vec<(String, S)>,
}

impl<S> View for SessionCache<S> {
    type V = Map<Seq<char>, S>;

    closed spec fn view(&self) -> Map<Seq<char>, S> {
        cached(self.entries@)
    }
}

impl<S> SessionCache<S> {
    #[verifier::type_invariant]
    spec fn inv(self) -> bool {
        distinct(self.entries@)
    }

    pub fn new() -> (r: Self)
        ensures
            r@ == Map::<Seq<char>, S>::empty(),
    {
        let r = SessionCache { entries: Vec::new() };
        assert(r@ =~= Map::empty());
        r
    }

    pub fn is_empty(&self) -> (r: bool)
        ensures
            r == (self@ == Map::<Seq<char>, S>::empty()),
    {
        proof {
            use_type_invariant(self);
        }
        let r = self.entries.len() == 0;
        proof {
            if r {
                assert(self@ =~= Map::empty());
            } else {
                lemma_cached_at(self.entries@, 0);
                assert(!Map::<Seq<char>, S>::empty().contains_key(self.entries@[0].0@));
            }
        }
        r
    }

    /// Takes the session of a thread out of the cache.
    pub fn take(&mut self, key: &str) -> (r: Option<S>)
        ensures
            final(self)@ == old(self)@.remove(key@),
            r == if old(self)@.contains_key(key@) {
                Some(old(self)@[key@])
            } else {
                None
            },
    {
        proof {
            use_type_invariant(&*self);
        }
        let ghost before = self.entries@;
        let mut i: usize = 0;
        while i < self.entries.len()
            invariant
                i <= self.entries@.len(),
                self.entries@ == before,
                before == old(self).entries@,
                distinct(before),
                forall|k: int| 0 <= k < i ==> (#[trigger] before[k]).0@ != key@,
            decreases self.entries@.len() - i,
        {
            if same(self.entries[i].0.as_str(), key) {
                let mut entries: Vec<(String, S)> = Vec::new();
                std::mem::swap(&mut entries, &mut self.entries);
                let (_, session) = entries.remove(i);
                proof {
                    lemma_cached_at(before, i as int);
                    lemma_without(before, entries@, i as int);
                }
                self.entries = entries;
                return Some(session);
            }
            i += 1;
        }
        assert(self@ =~= self@.remove(key@));
        None
    }

    /// Keeps a session for the later stages of a thread.
    pub fn keep(&mut self, key: String, session: S)
        ensures
            final(self)@ == old(self)@.insert(key@, session),
    {
        let ghost start = self@;
        let ghost name = key@;
        let _ = self.take(key.as_str());
        proof {
            use_type_invariant(&*self);
        }
        let ghost before = self.entries@;
        let mut entries: Vec<(String, S)> = Vec::new();
        std::mem::swap(&mut entries, &mut self.entries);
        entries.push((key, session));
        proof {
            assert forall|k: int| 0 <= k < before.len() implies (#[trigger] before[k]).0@ != name by {
                lemma_cached_at(before, k);
                assert(!start.remove(name).contains_key(name));
            }
            assert(distinct(entries@));
            assert forall|k: Seq<char>| cached(entries@).contains_key(k) == start.insert(
                name,
                session,
            ).contains_key(k) by {
                if cached(before).contains_key(k) {
                    let i = choose|i: int| 0 <= i < before.len() && (#[trigger] before[i]).0@ == k;
                    assert(entries@[i].0@ == k);
                }
                if k == name {
                    assert(entries@[before.len() as int].0@ == k);
                }
                if cached(entries@).contains_key(k) && k != name {
                    let i = choose|i: int| 0 <= i < entries@.len() && (#[trigger] entries@[i]).0@ == k;
                    assert(before[i].0@ == k);
                }
            }
            assert forall|k: Seq<char>| cached(entries@).contains_key(k) implies cached(entries@)[k]
                == start.insert(name, session)[k] by {
                let i = choose|i: int| 0 <= i < entries@.len() && (#[trigger] entries@[i]).0@ == k;
                lemma_cached_at(entries@, i);
                if i < before.len() {
                    lemma_cached_at(before, i);
                }
            }
            assert(cached(entries@) =~= start.insert(name, session));
        }
        self.entries = entries;
    }

    /// Takes every session out of the cache, each once.
    pub fn drain(&mut self) -> (r: Vec<S>)
        ensures
            final(self)@ == Map::<Seq<char>, S>::empty(),
            exists|keys: Seq<Seq<char>>| #[trigger] lists(old(self)@, keys, r@),
            r@.len() == old(self)@.len(),
            forall|key: Seq<char>|
                old(self)@.contains_key(key) ==> r@.contains(#[trigger] old(self)@[key]),
            forall|i: int| 0 <= i < r@.len() ==> keeps(old(self)@, #[trigger] r@[i]),
    {
        proof {
            use_type_invariant(&*self);
        }
        let ghost all = self.entries@;
        let mut entries: Vec<(String, S)> = Vec::new();
        std::mem::swap(&mut entries, &mut self.entries);
        assert(self@ =~= Map::empty());
        let mut r: Vec<S> = Vec::new();
        let ghost mut n: int = 0;
        while entries.len() > 0
            invariant
                0 <= n <= all.len(),
                entries@ == all.skip(n),
                r@.len() == n,
                forall|k: int| 0 <= k < n ==> #[trigger] r@[k] == all[k].1,
            decreases entries@.len(),
        {
            let (_, session) = entries.remove(0);
            r.push(session);
            proof {
                n = n + 1;
                assert(entries@ =~= all.skip(n));
            }
        }
        proof {
            assert(n == all.len());
            let keys = all.map_values(|e: (String, S)| e.0@);
            lemma_entries_list(all, r@);
            assert(lists(old(self)@, keys, r@));
            keys.unique_seq_to_set();
            assert forall|key: Seq<char>| cached(all).contains_key(key) implies r@.contains(
                #[trigger] cached(all)[key],
            ) by {
                let i = choose|i: int| 0 <= i < all.len() && (#[trigger] all[i]).0@ == key;
                lemma_cached_at(all, i);
                assert(r@[i] == all[i].1);
            }
            assert forall|i: int| 0 <= i < r@.len() implies keeps(cached(all), #[trigger] r@[i]) by {
                lemma_cached_at(all, i);
                let key = all[i].0@;
                assert(cached(all).contains_key(key) && cached(all)[key] == r@[i]);
            }
        }
        r
    }
}

/// Whether `sessions` are those kept under `keys`, each key of the cache once.
pub open spec fn lists<S>(cache: Map<Seq<char>, S>, keys: Seq<Seq<char>>, sessions: Seq<S>) -> bool {
    &&& keys.no_duplicates()
    &&& keys.to_set() == cache.dom()
    &&& sessions == keys.map_values(|key: Seq<char>| cache[key])
}

proof fn lemma_entries_list<S>(entries: Seq<(String, S)>, sessions: Seq<S>)
    requires
        distinct(entries),
        sessions.len() == entries.len(),
        forall|i: int| 0 <= i < entries.len() ==> #[trigger] sessions[i] == entries[i].1,
    ensures
        lists(cached(entries), entries.map_values(|e: (String, S)| e.0@), sessions),
{
    let cache = cached(entries);
    let keys = entries.map_values(|e: (String, S)| e.0@);
    assert forall|i: int, j: int| 0 <= i < j < keys.len() implies keys[i] != keys[j] by {
        assert(entries[i].0@ != entries[j].0@);
    }
    assert forall|key: Seq<char>| keys.to_set().contains(key) == cache.dom().contains(key) by {
        if keys.contains(key) {
            let i = choose|i: int| 0 <= i < keys.len() && keys[i] == key;
            lemma_cached_at(entries, i);
        }
        if cache.contains_key(key) {
            let i = choose|i: int| 0 <= i < entries.len() && (#[trigger] entries[i]).0@ == key;
            assert(keys[i] == key);
        }
    }
    assert(keys.to_set() =~= cache.dom());
    let listed = keys.map_values(|key: Seq<char>| cache[key]);
    assert forall|i: int| 0 <= i < sessions.len() implies sessions[i] == listed[i] by {
        lemma_cached_at(entries, i);
    }
    assert(sessions =~= listed);
}

proof fn lemma_without<S>(before: Seq<(String, S)>, after: Seq<(String, S)>, at: int)
    requires
        distinct(before),
        0 <= at < before.len(),
        after == before.remove(at),
    ensures
        distinct(after),
        cached(after) == cached(before).remove(before[at].0@),
{
    assert forall|i: int, j: int| 0 <= i < j < after.len() implies (#[trigger] after[i]).0@ != (
    #[trigger] after[j]).0@ by {
        let x = if i < at {
            i
        } else {
            i + 1
        };
        let y = if j < at {
            j
        } else {
            j + 1
        };
        assert(before[x].0@ != before[y].0@);
    }
    let gone = before[at].0@;
    assert forall|k: Seq<char>| cached(after).contains_key(k) == cached(before).remove(
        gone,
    ).contains_key(k) by {
        if cached(before).contains_key(k) && k != gone {
            let i = choose|i: int| 0 <= i < before.len() && (#[trigger] before[i]).0@ == k;
            let x = if i < at {
                i
            } else {
                i - 1
            };
            assert(after[x].0@ == k);
        }
        if cached(after).contains_key(k) {
            let i = choose|i: int| 0 <= i < after.len() && (#[trigger] after[i]).0@ == k;
            let x = if i < at {
                i
            } else {
                i + 1
            };
            assert(before[x].0@ == k);
            assert(before[x].0@ != before[at].0@);
        }
    }
    assert forall|k: Seq<char>| cached(after).contains_key(k) implies cached(after)[k] == cached(
        before,
    ).remove(gone)[k] by {
        let i = choose|i: int| 0 <= i < after.len() && (#[trigger] after[i]).0@ == k;
        let x = if i < at {
            i
        } else {
            i + 1
        };
        lemma_cached_at(after, i);
        lemma_cached_at(before, x);
    }
    assert(cached(after) =~= cached(before).remove(gone));
}

/// What a thread's stage keeps, a later one finds, and finds once.
pub proof fn lemma_kept_sessions_are_found_once<S>(cache: Map<Seq<char>, S>, key: Seq<char>, session: S)
    ensures
        cache.insert(key, session).contains_key(key),
        cache.insert(key, session)[key] == session,
        !cache.insert(key, session).remove(key).contains_key(key),
{
}

/// The fallbacks configured for each model.
#[derive(Debug, PartialEq)]
pub struct ModelFallbackPolicy {
    chains: Table<Vec<FallbackTarget>>,
}

impl View for ModelFallbackPolicy {
    type V = Map<Seq<char>, Seq<TargetView>>;

    closed spec fn view(&self) -> Map<Seq<char>, Seq<TargetView>> {
        self.chains@
    }
}

impl ModelFallbackPolicy {
    pub fn new(chains: Table<Vec<FallbackTarget>>) -> (r: Self)
        ensures
            r@ == chains@,
    {
        ModelFallbackPolicy { chains }
    }

    /// The fallbacks of a model, in order.
    pub fn chain_for_canonical(&self, model: &str) -> (r: Option<&Vec<FallbackTarget>>)
        ensures
            match r {
                Some(chain) => self@.contains_key(model@) && chain.deep_view() == self@[model@],
                None => !self@.contains_key(model@),
            },
    {
        self.chains.get(model)
    }
}

/// The backend that calls models through their API. `S` is a session, `E`
/// provides the environment of its tools, `M` sets up a tool server, `K` holds
/// the secrets of tools and `R` serves the tools for other runs.
pub struct AgentApiBackend<S, E, M, K, R> {
    pub model: String,
    pub provider_id: String,
    pub fallbacks: ModelFallbackPolicy,
    pub sessions: SessionCache<S>,
    /// The notices of plans that were given in this run.
    pub emitted_plan_notices: TextSet,
    pub tool_env: Option<E>,
    pub mcp_servers: Vec<M>,
    pub tool_secrets: Option<K>,
    pub run_model_controls: RunModelControls,
    pub fabro_run_tools: Option<R>,
}

impl<S, E, M, K, R> AgentApiBackend<S, E, M, K, R> {
    pub fn new(model: String, provider_id: String, fallbacks: ModelFallbackPolicy) -> (r: Self)
        ensures
            r.model@ == model@,
            r.provider_id@ == provider_id@,
            r.fallbacks@ == fallbacks@,
            r.sessions@ == Map::<Seq<char>, S>::empty(),
            r.emitted_plan_notices@ == Set::<Seq<char>>::empty(),
            r.tool_env is None,
            r.mcp_servers@.len() == 0,
            r.tool_secrets is None,
            r.run_model_controls@ == (ControlsView { reasoning_effort: None, speed: None }),
            r.fabro_run_tools is None,
    {
        AgentApiBackend {
            model,
            provider_id,
            fallbacks,
            sessions: SessionCache::new(),
            emitted_plan_notices: TextSet::new(),
            tool_env: None,
            mcp_servers: Vec::new(),
            tool_secrets: None,
            run_model_controls: RunModelControls { reasoning_effort: None, speed: None },
            fabro_run_tools: None,
        }
    }

    /// Tools run in a fixed environment.
    pub fn with_env(self, env: E) -> (r: Self)
        ensures
            r == (AgentApiBackend { tool_env: Some(env), ..self }),
    {
        AgentApiBackend { tool_env: Some(env), ..self }
    }

    /// Tools run in an environment that is asked for when they start.
    pub fn with_tool_env_provider(self, provider: E) -> (r: Self)
        ensures
            r == (AgentApiBackend { tool_env: Some(provider), ..self }),
    {
        AgentApiBackend { tool_env: Some(provider), ..self }
    }

    pub fn with_mcp_servers(self, servers: Vec<M>) -> (r: Self)
        ensures
            r == (AgentApiBackend { mcp_servers: servers, ..self }),
    {
        AgentApiBackend { mcp_servers: servers, ..self }
    }

    pub fn with_tool_secrets(self, tool_secrets: K) -> (r: Self)
        ensures
            r == (AgentApiBackend { tool_secrets: Some(tool_secrets), ..self }),
    {
        AgentApiBackend { tool_secrets: Some(tool_secrets), ..self }
    }

    pub fn with_run_model_controls(self, controls: RunModelControls) -> (r: Self)
        ensures
            r == (AgentApiBackend { run_model_controls: controls, ..self }),
    {
        AgentApiBackend { run_model_controls: controls, ..self }
    }

    pub fn with_fabro_run_tools(self, services: R) -> (r: Self)
        ensures
            r == (AgentApiBackend { fabro_run_tools: Some(services), ..self }),
    {
        AgentApiBackend { fabro_run_tools: Some(services), ..self }
    }

    /// The model of a node: its own, else the backend's.
    pub fn model_for<'a>(&'a self, node: &'a Node) -> (r: &'a str)
        ensures
            r@ == match node@.text("model"@) {
                Some(m) => m,
                None => self.model@,
            },
    {
        match node.text("model") {
            Some(m) => m,
            None => self.model.as_str(),
        }
    }

    /// The controls of a node's requests.
    pub fn resolve_effective_request_controls(
        &self,
        node: &Node,
        names: &ControlNames,
        effort: Reading,
        speed: Reading,
    ) -> (r: Result<EffectiveRequestControls, Error>)
        ensures
            match controls_of(self.run_model_controls@, node@, names@, effort@, speed@) {
                Ok(controls) => r matches Ok(c) && c@ == controls,
                Err(error) => r matches Err(e) && e@ == error,
            },
    {
        effective_request_controls(&self.run_model_controls, node, names, effort, speed)
    }

    /// The notices of a plan that are to be given: none that this run has given
    /// before.
    pub fn emit_fallback_plan_notices(&mut self, messages: &Vec<String>) -> (r: Vec<String>)
        ensures
            r.deep_view() == fresh(old(self).emitted_plan_notices@, messages.deep_view()),
            final(self).emitted_plan_notices@ == old(self).emitted_plan_notices@.union(
                messages.deep_view().to_set(),
            ),
            *final(self) == (AgentApiBackend {
                emitted_plan_notices: final(self).emitted_plan_notices,
                ..*old(self)
            }),
    {
        notices_to_emit(&mut self.emitted_plan_notices, messages)
    }
}

/// What a session is made with. `K` is the callback around its tool calls.
pub struct SessionSetup<K> {
    pub max_tokens: Option<i64>,
    pub controls: EffectiveRequestControls,
    pub tool_hooks: Option<K>,
    pub permission_level: PermissionLevel,
    /// Pages that the session fetches are summed up by its own model.
    pub web_fetch_summarizer: bool,
    /// The session can spawn others.
    pub subagent_tools: bool,
    /// The session can ask questions.
    pub question_tools: bool,
    /// The session can work on other runs.
    pub run_tools: bool,
}

/// The session of a stage. It may use every tool it has; the callback around
/// its tool calls is what bounds it.
pub fn session_setup<K>(
    node: &Node,
    controls: EffectiveRequestControls,
    tool_hooks: Option<K>,
    summarizes_pages: bool,
    run_tools: bool,
) -> (r: SessionSetup<K>)
    ensures
        r.max_tokens == integer_attr(node@.attrs, "max_tokens"@),
        r.controls == controls,
        r.tool_hooks == tool_hooks,
        r.permission_level == PermissionLevel::Full,
        r.web_fetch_summarizer == summarizes_pages,
        r.subagent_tools,
        r.question_tools,
        r.run_tools == run_tools,
{
    SessionSetup {
        max_tokens: get_integer(&node.attrs, "max_tokens"),
        controls,
        tool_hooks,
        permission_level: PermissionLevel::Full,
        web_fetch_summarizer: summarizes_pages,
        subagent_tools: true,
        question_tools: true,
        run_tools,
    }
}

/// A session that a stage's session spawns. It works under the same controls,
/// permission and tool callback as its parent, and spawns none itself.
pub fn child_setup<K: Copy>(parent: &SessionSetup<K>) -> (r: SessionSetup<K>)
    ensures
        r.max_tokens is None,
        r.controls@ == parent.controls@,
        r.tool_hooks == parent.tool_hooks,
        r.permission_level == parent.permission_level,
        r.web_fetch_summarizer == parent.web_fetch_summarizer,
        !r.subagent_tools,
        !r.question_tools,
        r.run_tools == parent.run_tools,
{
    SessionSetup {
        max_tokens: None,
        controls: parent.controls.duplicate(),
        tool_hooks: parent.tool_hooks,
        permission_level: parent.permission_level,
        web_fetch_summarizer: parent.web_fetch_summarizer,
        subagent_tools: false,
        question_tools: false,
        run_tools: parent.run_tools,
    }
}

/// A session as it works.
#[derive(Debug, PartialEq)]
pub struct SessionInfo {
    pub session_id: String,
    pub provider: String,
    pub model: String,
    pub reasoning_effort: Option<String>,
    pub speed: Option<String>,
    pub permission_level: Option<PermissionLevel>,
}

/// The session of a stage, as the stage lets it be steered.
pub fn session_lease_options(stage_id: &StageId, session: &SessionInfo, thread_id: Option<&str>) -> (r:
    ActivationLeaseOptions)
    ensures
        r.stage_id@ == stage_id@,
        r.session_id@ == session.session_id@,
        r.thread_id.deep_view() == thread_id.deep_view(),
        r.provider.deep_view() == Some(session.provider@),
        r.model.deep_view() == Some(session.model@),
        r.reasoning_effort.deep_view() == session.reasoning_effort.deep_view(),
        r.speed.deep_view() == session.speed.deep_view(),
        r.permission_level == session.permission_level,
        r.capabilities@ == seq![SessionCapability::Steer],
{
    let mut capabilities: Vec<SessionCapability> = Vec::new();
    capabilities.push(SessionCapability::Steer);
    assert(capabilities@ =~= seq![SessionCapability::Steer]);
    ActivationLeaseOptions {
        stage_id: stage_id.duplicate(),
        session_id: session.session_id.clone(),
        thread_id: match thread_id {
            Some(id) => Some(id.to_owned()),
            None => None,
        },
        provider: Some(session.provider.clone()),
        model: Some(session.model.clone()),
        reasoning_effort: session.reasoning_effort.duplicate(),
        speed: session.speed.duplicate(),
        permission_level: session.permission_level,
        capabilities,
    }
}

/// The error of a stage that found no client for its model.
pub fn client_error(causes: Vec<String>) -> (r: Error)
    ensures
        r@ == handler_caused("Failed to create LLM client"@, causes.deep_view(), None),
{
    Error::handler_with_source("Failed to create LLM client", causes, None)
}

/// A session that a stage's session spawns works under the same controls,
/// permission and callback, and can neither spawn another nor ask questions.
pub proof fn lemma_spawned_sessions_are_bound_like_their_parent<K: Copy>(
    parent: &SessionSetup<K>,
    child: SessionSetup<K>,
)
    requires
        call_ensures(child_setup::<K>, (parent,), child),
    ensures
        child.permission_level == parent.permission_level,
        child.tool_hooks == parent.tool_hooks,
        child.controls@ == parent.controls@,
        child.run_tools == parent.run_tools,
        child.web_fetch_summarizer == parent.web_fetch_summarizer,
        !child.subagent_tools && !child.question_tools,
        child.max_tokens is None,
{
}

/// A stage's session may do everything within its callback, answers within the
/// node's own limit of tokens, and works on other runs only where it is given the
/// tools for it.
pub proof fn lemma_stage_sessions_are_set_up_by_their_node<K>(
    node: &Node,
    controls: EffectiveRequestControls,
    tool_hooks: Option<K>,
    summarizes_pages: bool,
    run_tools: bool,
    r: SessionSetup<K>,
)
    requires
        call_ensures(
            session_setup::<K>,
            (node, controls, tool_hooks, summarizes_pages, run_tools),
            r,
        ),
    ensures
        r.max_tokens == integer_attr(node@.attrs, "max_tokens"@),
        r.controls == controls,
        r.tool_hooks == tool_hooks,
        r.permission_level == PermissionLevel::Full,
        r.subagent_tools && r.question_tools,
        r.run_tools == run_tools,
        r.web_fetch_summarizer == summarizes_pages,
{
}

/// A steered session is known by its own identity, model and controls, and by the
/// thread of its stage.
pub proof fn lemma_steered_sessions_are_known_as_they_work(
    stage_id: &StageId,
    session: &SessionInfo,
    thread_id: Option<&str>,
    r: ActivationLeaseOptions,
)
    requires
        call_ensures(session_lease_options, (stage_id, session, thread_id), r),
    ensures
        r.stage_id@ == stage_id@,
        r.session_id@ == session.session_id@,
        r.provider.deep_view() == Some(session.provider@),
        r.model.deep_view() == Some(session.model@),
        r.thread_id.deep_view() == thread_id.deep_view(),
        r.reasoning_effort.deep_view() == session.reasoning_effort.deep_view(),
        r.speed.deep_view() == session.speed.deep_view(),
        r.permission_level == session.permission_level,
{
}

/// The session of a subagent works as its parent's does, but spawns no subagents and
/// asks no questions of its own, and is held to no number of tokens.
pub proof fn lemma_subagents_spawn_and_ask_nothing<K: Copy>(
    parent: &SessionSetup<K>,
    child: SessionSetup<K>,
)
    requires
        call_ensures(child_setup::<K>, (parent,), child),
    ensures
        !child.subagent_tools && !child.question_tools,
        child.max_tokens is None,
        child.controls@ == parent.controls@,
        child.tool_hooks == parent.tool_hooks,
        child.permission_level == parent.permission_level,
        child.web_fetch_summarizer == parent.web_fetch_summarizer,
        child.run_tools == parent.run_tools,
{
}

/// A list of the sessions of a cache has as many of them as the cache has threads,
/// and the session of every thread is among them.
pub proof fn lemma_every_thread_is_listed_once<S>(
    cache: Map<Seq<char>, S>,
    keys: Seq<Seq<char>>,
    sessions: Seq<S>,
    key: Seq<char>,
)
    requires
        lists(cache, keys, sessions),
    ensures
        sessions.len() == cache.dom().len(),
        cache.contains_key(key) ==> sessions.contains(cache[key]),
{
    keys.unique_seq_to_set();
    if cache.contains_key(key) {
        assert(keys.to_set().contains(key));
        let i = choose|i: int| 0 <= i < keys.len() && keys[i] == key;
        assert(sessions[i] == cache[key]);
    }
}

} // verus!
