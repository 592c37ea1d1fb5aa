//! What an error of an agent session means for its stage.
use crate::error::{Error, ErrorView, LlmError, LlmErrorView};
use crate::keys::concat;
use vstd::prelude::*;

verus! {

/// An error of an agent session.
#[derive(Debug, PartialEq)]
pub enum AgentError {
    /// The session was cancelled.
    Cancelled,
    WallClockTimeout,
    Llm(LlmError),
    /// Any other failure, as it is shown.
    Session(String),
}

pub enum AgentErrorView {
    Cancelled,
    WallClockTimeout,
    Llm(LlmErrorView),
    Session(Seq<char>),
}

impl View for AgentError {
    type V = AgentErrorView;

    open spec fn view(&self) -> AgentErrorView {
        match self {
            AgentError::Cancelled => AgentErrorView::Cancelled,
            AgentError::WallClockTimeout => AgentErrorView::WallClockTimeout,
            AgentError::Llm(e) => AgentErrorView::Llm(e@),
            AgentError::Session(s) => AgentErrorView::Session(s@),
        }
    }
}

/// What follows an error of an agent session.
#[derive(Debug, PartialEq)]
pub enum AgentApiErrorDisposition {
    Cancelled,
    /// Another route may serve the request.
    FailoverEligible(LlmError),
    Terminal(Error),
}

pub enum DispositionView {
    Cancelled,
    FailoverEligible(LlmErrorView),
    Terminal(ErrorView),
}

impl View for AgentApiErrorDisposition {
    type V = DispositionView;

    open spec fn view(&self) -> DispositionView {
        match self {
            AgentApiErrorDisposition::Cancelled => DispositionView::Cancelled,
            AgentApiErrorDisposition::FailoverEligible(e) => DispositionView::FailoverEligible(e@),
            AgentApiErrorDisposition::Terminal(e) => DispositionView::Terminal(e@),
        }
    }
}

/// What follows an error of an agent session.
pub open spec fn disposition(error: AgentErrorView, allow_failover: bool) -> DispositionView {
    match error {
        AgentErrorView::Cancelled => DispositionView::Cancelled,
        AgentErrorView::WallClockTimeout => DispositionView::Terminal(
            ErrorView::Precondition("Agent session hit its wall-clock timeout"@),
        ),
        AgentErrorView::Llm(e) => if allow_failover && e.failover_eligible {
            DispositionView::FailoverEligible(e)
        } else {
            DispositionView::Terminal(ErrorView::Llm(e))
        },
        AgentErrorView::Session(s) => DispositionView::Terminal(
            ErrorView::Precondition("Agent session failed: "@ + s),
        ),
    }
}

/// What follows an error of an agent session.
pub fn classify_agent_error(error: AgentError, allow_failover: bool) -> (r: AgentApiErrorDisposition)
    ensures
        r@ == disposition(error@, allow_failover),
{
    match error {
        AgentError::Cancelled => AgentApiErrorDisposition::Cancelled,
        AgentError::WallClockTimeout => AgentApiErrorDisposition::Terminal(
            Error::Precondition("Agent session hit its wall-clock timeout".to_owned()),
        ),
        AgentError::Llm(e) => {
            if allow_failover && e.failover_eligible {
                AgentApiErrorDisposition::FailoverEligible(e)
            } else {
                AgentApiErrorDisposition::Terminal(Error::Llm(e))
            }
        },
        AgentError::Session(s) => AgentApiErrorDisposition::Terminal(
            Error::Precondition(concat("Agent session failed: ", s.as_str())),
        ),
    }
}

/// Why a session was interrupted.
#[derive(Clone, Copy, Debug, PartialEq, Eq, Structural)]
pub enum InterruptReason {
    Cancelled,
    WallClockTimeout,
}

/// Why a session is interrupted once its run is cancelled: an earlier reason
/// stays.
pub fn interrupt_reason(known: Option<InterruptReason>) -> (r: InterruptReason)
    ensures
        r == match known {
            Some(reason) => reason,
            None => InterruptReason::Cancelled,
        },
{
    match known {
        Some(reason) => reason,
        None => InterruptReason::Cancelled,
    }
}

/// Why a session is shut down.
#[derive(Clone, Copy, Debug, PartialEq, Eq, Structural)]
pub enum SessionShutdownReason {
    Completed,
    Cancelled,
    Error,
}

/// Why a session that is given up is shut down.
pub fn discard_reason(session_cancelled: bool) -> (r: SessionShutdownReason)
    ensures
        r == if session_cancelled {
            SessionShutdownReason::Cancelled
        } else {
            SessionShutdownReason::Error
        },
{
    if session_cancelled {
        SessionShutdownReason::Cancelled
    } else {
        SessionShutdownReason::Error
    }
}

/// Another route is tried exactly after an error of the model that another route
/// may help with, where that is allowed, and with that error. A cancelled session
/// is cancelled, whatever is allowed. Everything else ends the stage: an error of
/// the model as itself, any other with what the session said of it.
pub proof fn lemma_only_eligible_errors_fail_over(error: AgentErrorView, allowed: bool)
    ensures
        ({
            let d = disposition(error, allowed);
            &&& d is FailoverEligible <==> allowed && error is Llm && error->Llm_0.failover_eligible
            &&& d matches DispositionView::FailoverEligible(e) ==> error == AgentErrorView::Llm(e)
            &&& d is Cancelled <==> error is Cancelled
            &&& d matches DispositionView::Terminal(e) ==> {
                &&& error matches AgentErrorView::Llm(own) ==> e == ErrorView::Llm(own)
                &&& !(error is Llm) ==> e is Precondition
                &&& error matches AgentErrorView::Session(said) ==> crate::text::within(
                    said,
                    e->Precondition_0,
                )
            }
        }),
{
    if let AgentErrorView::Session(said) = error {
        let all = "Agent session failed: "@ + said;
        assert(all =~= "Agent session failed: "@ + said + Seq::<char>::empty());
        assert(crate::text::within(said, all));
    }
}

/// A session that was interrupted before it was cancelled keeps its first reason,
/// and one that is given up is shut down as cancelled exactly where it was.
pub proof fn lemma_first_reasons_stay(
    known: Option<InterruptReason>,
    reason: InterruptReason,
    cancelled: bool,
    shut: SessionShutdownReason,
)
    requires
        call_ensures(interrupt_reason, (known,), reason),
        call_ensures(discard_reason, (cancelled,), shut),
    ensures
        known is Some ==> known == Some(reason),
        known is None ==> reason is Cancelled,
        shut is Cancelled <==> cancelled,
        !(shut is Completed),
{
}

} // verus!
