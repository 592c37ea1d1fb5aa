//! Which backend runs a node.
use crate::error::{Error, ErrorView};
use crate::graph::{Node, NodeView};
use crate::handler::basic::NodeTimeoutPolicy;
use crate::handler::llm::acp::one_shot_refusal;
use crate::handler::llm::controls::EffectiveRequestControls;
use crate::keys::concat;
use crate::text::same;
use vstd::prelude::*;
use vstd::string::*;

verus! {

/// A backend for agent and prompt nodes.
#[derive(Clone, Copy, Debug, PartialEq, Eq, Structural)]
pub enum AgentBackend {
    Api,
    Acp,
}

/// The backend of a node: the API, where the node names no other.
pub open spec fn backend_of(node: NodeView) -> Result<AgentBackend, ErrorView> {
    match node.text("backend"@) {
        None => Ok(AgentBackend::Api),
        Some(name) => if name == "api"@ {
            Ok(AgentBackend::Api)
        } else if name == "acp"@ {
            Ok(AgentBackend::Acp)
        } else {
            Err(
                ErrorView::Validation(
                    "unsupported agent backend \""@ + name + "\"; expected one of: api, acp"@,
                ),
            )
        },
    }
}

/// The backend of a node that is completed in one request: never the process.
pub open spec fn one_shot_backend_of(node: NodeView) -> Result<AgentBackend, ErrorView> {
    match backend_of(node) {
        Ok(AgentBackend::Acp) => Err(ErrorView::Validation(one_shot_refusal())),
        other => other,
    }
}

/// Routes nodes to the API or to a process.
pub struct BackendRouter<A, P> {
    api: A,
    acp: P,
}

impl<A, P> BackendRouter<A, P> {
    pub closed spec fn by_api(&self) -> A {
        self.api
    }

    pub closed spec fn by_acp(&self) -> P {
        self.acp
    }

    pub fn new(api_backend: A, acp_backend: P) -> (r: Self)
        ensures
            r.by_api() == api_backend,
            r.by_acp() == acp_backend,
    {
        BackendRouter { api: api_backend, acp: acp_backend }
    }

    pub fn api(&self) -> (r: &A)
        ensures
            *r == self.by_api(),
    {
        &self.api
    }

    pub fn acp(&self) -> (r: &P)
        ensures
            *r == self.by_acp(),
    {
        &self.acp
    }
}

/// The backend of a node.
pub fn select_backend(node: &Node) -> (r: Result<AgentBackend, Error>)
    ensures
        match backend_of(node@) {
            Ok(backend) => r == Ok::<AgentBackend, Error>(backend),
            Err(error) => r matches Err(e) && e@ == error,
        },
{
    match node.text("backend") {
        None => Ok(AgentBackend::Api),
        Some(name) => {
            if same(name, "api") {
                Ok(AgentBackend::Api)
            } else if same(name, "acp") {
                Ok(AgentBackend::Acp)
            } else {
                let mut s = concat("unsupported agent backend \"", name);
                s.append("\"; expected one of: api, acp");
                Err(Error::Validation(s))
            }
        },
    }
}

/// The backend of a node that is completed in one request.
pub fn select_one_shot_backend(node: &Node) -> (r: Result<AgentBackend, Error>)
    ensures
        match one_shot_backend_of(node@) {
            Ok(backend) => r == Ok::<AgentBackend, Error>(backend),
            Err(error) => r matches Err(e) && e@ == error,
        },
{
    match select_backend(node) {
        Ok(AgentBackend::Acp) => Err(
            Error::Validation(
                "backend=\"acp\" is only valid on agent nodes; prompt nodes are API-only".to_owned(),
            ),
        ),
        other => other,
    }
}

/// Who applies the timeout of a node, from the policies of the two backends. A
/// node that no backend runs is left to the executor.
pub fn node_timeout_policy(node: &Node, api: NodeTimeoutPolicy, acp: NodeTimeoutPolicy) -> (r:
    NodeTimeoutPolicy)
    ensures
        r == match backend_of(node@) {
            Ok(AgentBackend::Api) => api,
            Ok(AgentBackend::Acp) => acp,
            Err(_) => NodeTimeoutPolicy::ExecutorEnforced,
        },
{
    match select_backend(node) {
        Ok(AgentBackend::Api) => api,
        Ok(AgentBackend::Acp) => acp,
        Err(_) => NodeTimeoutPolicy::ExecutorEnforced,
    }
}

/// The controls of a node's requests, from those of the two backends.
pub fn effective_request_controls(
    node: &Node,
    api: Result<EffectiveRequestControls, Error>,
    acp: Result<EffectiveRequestControls, Error>,
) -> (r: Result<EffectiveRequestControls, Error>)
    ensures
        match backend_of(node@) {
            Ok(AgentBackend::Api) => r == api,
            Ok(AgentBackend::Acp) => r == acp,
            Err(error) => r matches Err(e) && e@ == error,
        },
{
    match select_backend(node) {
        Ok(AgentBackend::Api) => api,
        Ok(AgentBackend::Acp) => acp,
        Err(e) => Err(e),
    }
}

/// No prompt is ever completed by a process.
pub proof fn lemma_prompts_use_the_api(node: NodeView)
    ensures
        one_shot_backend_of(node) matches Ok(backend) ==> backend == AgentBackend::Api,
        node.text("backend"@) is None ==> one_shot_backend_of(node) == Ok::<
            AgentBackend,
            ErrorView,
        >(AgentBackend::Api),
{
}

/// A node runs on the backend that it names, the API or a process, and on the API
/// where it names none; any other name is refused. A prompt refuses the process.
pub proof fn lemma_nodes_run_where_they_say(node: NodeView)
    ensures
        match node.text("backend"@) {
            None => backend_of(node) == Ok::<AgentBackend, ErrorView>(AgentBackend::Api),
            Some(name) => {
                &&& name == "api"@ ==> backend_of(node) == Ok::<AgentBackend, ErrorView>(
                    AgentBackend::Api,
                )
                &&& name == "acp"@ ==> backend_of(node) == Ok::<AgentBackend, ErrorView>(
                    AgentBackend::Acp,
                )
                &&& name != "api"@ && name != "acp"@ ==> backend_of(node) is Err
                    && one_shot_backend_of(node) is Err
                &&& name == "api"@ ==> one_shot_backend_of(node) is Ok
                &&& name == "acp"@ ==> one_shot_backend_of(node) is Err
            },
        },
{
    reveal_strlit("api");
    reveal_strlit("acp");
    assert("api"@[1] == 'p' && "acp"@[1] == 'c');
}


} // verus!
