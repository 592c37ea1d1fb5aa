//! Context keys and the fidelity of the context that a stage receives.
use crate::text::same;
use vstd::prelude::*;
use vstd::string::*;

verus! {

pub const INTERNAL_PREFIX: &'static str = "internal.";

pub const CURRENT_PREFIX: &'static str = "current";

pub const GRAPH_PREFIX: &'static str = "graph.";

pub const THREAD_PREFIX: &'static str = "thread.";

pub const RESPONSE_PREFIX: &'static str = "response.";

pub const INTERNAL_FIDELITY: &'static str = "internal.fidelity";

pub const INTERNAL_THREAD_ID: &'static str = "internal.thread_id";

pub const INTERNAL_NODE_VISIT_COUNT: &'static str = "internal.node_visit_count";

pub const INTERNAL_STAGE_EXECUTION_ORDINAL: &'static str = "internal.stage_execution_ordinal";

pub const INTERNAL_PARALLEL_GROUP_ID: &'static str = "internal.parallel_group_id";

pub const INTERNAL_PARALLEL_BRANCH_ID: &'static str = "internal.parallel_branch_id";

pub const INTERNAL_PARALLEL_BRANCH_PREAMBLES: &'static str = "internal.parallel_branch_preambles";

pub const INTERNAL_PARENT_PREAMBLE: &'static str = "internal.parent_preamble";

pub const INTERNAL_RUN_ID: &'static str = "internal.run_id";

pub const INTERNAL_WORK_DIR: &'static str = "internal.work_dir";

pub const CURRENT_NODE: &'static str = "current_node";

pub const CURRENT_PREAMBLE: &'static str = "current.preamble";

pub const GRAPH_GOAL: &'static str = "graph.goal";

pub const OUTCOME: &'static str = "outcome";

pub const FAILURE_CLASS: &'static str = "failure_class";

pub const FAILURE_SIGNATURE: &'static str = "failure_signature";

pub const PREFERRED_LABEL: &'static str = "preferred_label";

pub const LAST_STAGE: &'static str = "last_stage";

pub const LAST_RESPONSE: &'static str = "last_response";

pub const COMMAND_OUTPUT: &'static str = "command.output";

pub const HUMAN_GATE_SELECTED: &'static str = "human.gate.selected";

pub const HUMAN_GATE_LABEL: &'static str = "human.gate.label";

pub const HUMAN_GATE_TEXT: &'static str = "human.gate.text";

pub const PARALLEL_RESULTS: &'static str = "parallel.results";

pub const PARALLEL_BRANCH_COUNT: &'static str = "parallel.branch_count";

/// `a` followed by `b`.
pub fn concat(a: &str, b: &str) -> (s: String)
    ensures
        s@ == a@ + b@,
{
    let mut s = a.to_owned();
    s.append(b);
    s
}

/// Key of a node's last response.
pub fn response_key(node_id: &str) -> (s: String)
    ensures
        s@ == RESPONSE_PREFIX@ + node_id@,
{
    concat(RESPONSE_PREFIX, node_id)
}

/// Key of a graph attribute.
pub fn graph_attr_key(name: &str) -> (s: String)
    ensures
        s@ == GRAPH_PREFIX@ + name@,
{
    concat(GRAPH_PREFIX, name)
}

/// Key of a node's retry count.
pub fn retry_count_key(node_id: &str) -> (s: String)
    ensures
        s@ == "internal.retry_count."@ + node_id@,
{
    concat("internal.retry_count.", node_id)
}

/// Key of the node that a thread is at.
pub fn thread_current_node_key(thread_id: &str) -> (s: String)
    ensures
        s@ == THREAD_PREFIX@ + thread_id@ + ".current_node"@,
{
    let mut s = concat(THREAD_PREFIX, thread_id);
    s.append(".current_node");
    s
}

/// How much earlier context a stage receives.
#[derive(Clone, Copy, Debug, PartialEq, Eq, Structural)]
pub enum Fidelity {
    Full,
    Truncate,
    Compact,
    SummaryLow,
    SummaryMedium,
    SummaryHigh,
}

/// The fidelity that a text names.
pub open spec fn fidelity_named(s: Seq<char>) -> Option<Fidelity> {
    if s == "full"@ {
        Some(Fidelity::Full)
    } else if s == "truncate"@ {
        Some(Fidelity::Truncate)
    } else if s == "compact"@ {
        Some(Fidelity::Compact)
    } else if s == "summary:low"@ {
        Some(Fidelity::SummaryLow)
    } else if s == "summary:medium"@ {
        Some(Fidelity::SummaryMedium)
    } else if s == "summary:high"@ {
        Some(Fidelity::SummaryHigh)
    } else {
        None
    }
}

impl Fidelity {
    /// The name of a fidelity.
    pub open spec fn name(self) -> Seq<char> {
        match self {
            Fidelity::Full => "full"@,
            Fidelity::Truncate => "truncate"@,
            Fidelity::Compact => "compact"@,
            Fidelity::SummaryLow => "summary:low"@,
            Fidelity::SummaryMedium => "summary:medium"@,
            Fidelity::SummaryHigh => "summary:high"@,
        }
    }

    /// The fidelity used where a session cannot be shared.
    pub open spec fn degrade(self) -> Fidelity {
        match self {
            Fidelity::Full => Fidelity::SummaryHigh,
            other => other,
        }
    }

    pub fn as_str(&self) -> (s: &'static str)
        ensures
            s@ == self.name(),
    {
        match self {
            Fidelity::Full => "full",
            Fidelity::Truncate => "truncate",
            Fidelity::Compact => "compact",
            Fidelity::SummaryLow => "summary:low",
            Fidelity::SummaryMedium => "summary:medium",
            Fidelity::SummaryHigh => "summary:high",
        }
    }

    pub fn parse(s: &str) -> (r: Option<Fidelity>)
        ensures
            r == fidelity_named(s@),
    {
        if same(s, "full") {
            Some(Fidelity::Full)
        } else if same(s, "truncate") {
            Some(Fidelity::Truncate)
        } else if same(s, "compact") {
            Some(Fidelity::Compact)
        } else if same(s, "summary:low") {
            Some(Fidelity::SummaryLow)
        } else if same(s, "summary:medium") {
            Some(Fidelity::SummaryMedium)
        } else if same(s, "summary:high") {
            Some(Fidelity::SummaryHigh)
        } else {
            None
        }
    }

    pub fn degraded(self) -> (r: Fidelity)
        ensures
            r == self.degrade(),
    {
        match self {
            Fidelity::Full => Fidelity::SummaryHigh,
            other => other,
        }
    }
}

impl Default for Fidelity {
    fn default() -> (r: Self)
        ensures
            r == Fidelity::Compact,
    {
        Fidelity::Compact
    }
}

/// Reading the name of a fidelity gives it back.
pub proof fn lemma_fidelity_round_trip(f: Fidelity)
    ensures
        fidelity_named(f.name()) == Some(f),
{
    reveal_strlit("full");
    reveal_strlit("truncate");
    reveal_strlit("compact");
    reveal_strlit("summary:low");
    reveal_strlit("summary:medium");
    reveal_strlit("summary:high");
    assert("full"@.len() == 4);
    assert("truncate"@.len() == 8);
    assert("compact"@.len() == 7);
    assert("summary:low"@.len() == 11);
    assert("summary:medium"@.len() == 14);
    assert("summary:high"@.len() == 12);
}

/// A degraded fidelity shares no session, and degrading twice changes nothing
/// more.
pub proof fn lemma_degrade_idempotent(f: Fidelity)
    ensures
        f.degrade() != Fidelity::Full,
        f.degrade().degrade() == f.degrade(),
{
}

} // verus!
