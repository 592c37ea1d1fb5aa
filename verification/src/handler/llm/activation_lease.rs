//! The time during which an agent session can be steered.
use crate::error::{Error, ErrorView};
use crate::keys::concat;
use crate::stage_id::{StageId, StageIdView};
use vstd::prelude::*;
use vstd::string::*;

verus! {

/// What a session lets its users do.
#[derive(Clone, Copy, Debug, PartialEq, Eq, Structural)]
pub enum SessionCapability {
    Steer,
}

/// How much a session may do without being asked.
#[derive(Clone, Copy, Debug, PartialEq, Eq, Structural)]
pub enum PermissionLevel {
    ReadOnly,
    ReadWrite,
    Full,
}

/// A session that is to be steered.
#[derive(Debug, PartialEq)]
pub struct ActivationLeaseOptions {
    pub stage_id: StageId,
    pub session_id: String,
    pub thread_id: Option<String>,
    pub provider: Option<String>,
    pub model: Option<String>,
    pub reasoning_effort: Option<String>,
    pub speed: Option<String>,
    pub permission_level: Option<PermissionLevel>,
    pub capabilities: Vec<SessionCapability>,
}

/// Says that a session can be steered from now on.
#[derive(Debug, PartialEq)]
pub struct SessionActivated {
    pub node_id: String,
    pub visit: u32,
    pub session_id: String,
    pub thread_id: Option<String>,
    pub provider: Option<String>,
    pub model: Option<String>,
    pub reasoning_effort: Option<String>,
    pub speed: Option<String>,
    pub permission_level: Option<PermissionLevel>,
    pub capabilities: Vec<SessionCapability>,
}

impl SessionActivated {
    /// Whether this is the event for a session.
    pub open spec fn tells(self, options: ActivationLeaseOptions) -> bool {
        &&& self.node_id@ == options.stage_id@.node_id
        &&& self.visit == options.stage_id.visit
        &&& self.session_id@ == options.session_id@
        &&& self.thread_id.deep_view() == options.thread_id.deep_view()
        &&& self.provider.deep_view() == options.provider.deep_view()
        &&& self.model.deep_view() == options.model.deep_view()
        &&& self.reasoning_effort.deep_view() == options.reasoning_effort.deep_view()
        &&& self.speed.deep_view() == options.speed.deep_view()
        &&& self.permission_level == options.permission_level
        &&& self.capabilities@ == options.capabilities@
    }
}

/// What is done once a session is open to steering.
#[derive(Debug, PartialEq)]
pub enum ActivationAct {
    Announce(SessionActivated),
    /// Hand the session what was sent to its stage before.
    DrainPending,
}

/// Whether acts are those for a session: it is announced before it is handed
/// what waits for it.
pub open spec fn opens(acts: Seq<ActivationAct>, options: ActivationLeaseOptions) -> bool {
    &&& acts.len() == 2
    &&& acts[0] matches ActivationAct::Announce(event) && event.tells(options)
    &&& acts[1] is DrainPending
}

/// Says that a session can no longer be steered.
#[derive(Debug, PartialEq)]
pub struct SessionDeactivated {
    pub node_id: String,
    pub visit: u32,
    pub session_id: String,
}

/// Holds a session open to steering until it is released.
#[derive(Debug, PartialEq)]
pub struct ActivationLease {
    stage_id: StageId,
    session_id: String,
    released: bool,
}

pub struct LeaseView {
    pub stage_id: StageIdView,
    pub session_id: Seq<char>,
    pub released: bool,
}

impl View for ActivationLease {
    type V = LeaseView;

    closed spec fn view(&self) -> LeaseView {
        LeaseView {
            stage_id: self.stage_id@,
            session_id: self.session_id@,
            released: self.released,
        }
    }
}

impl SessionDeactivated {
    /// Whether this is the event for the end of a lease.
    pub open spec fn tells(self, lease: LeaseView) -> bool {
        &&& self.node_id@ == lease.stage_id.node_id
        &&& self.visit == lease.stage_id.visit
        &&& self.session_id@ == lease.session_id
    }
}

impl LeaseView {
    pub open spec fn over(self) -> LeaseView {
        LeaseView { released: true, ..self }
    }
}

/// What follows a completion without a tool call.
#[derive(Debug, PartialEq)]
pub enum Completion {
    /// The session has nothing more to do.
    Stop,
    /// The session stops, and the end of its lease is to be told.
    Release(SessionDeactivated),
    /// The session waits for its partner.
    Park,
    /// There is control work for the session.
    Continue,
}

/// Whether a completion without a tool call leaves the lease in the state `t` and
/// is followed by `r`.
pub open spec fn completes(
    lease: LeaseView,
    paired: bool,
    detached: bool,
    t: LeaseView,
    r: Completion,
) -> bool {
    if !lease.released && paired {
        r is Park && t == lease
    } else if lease.released {
        r is Stop && t == lease.over()
    } else if detached {
        (r matches Completion::Release(event) && event.tells(lease)) && t == lease.over()
    } else {
        r is Continue && t == lease
    }
}

impl ActivationLease {
    /// Opens a session to steering, where it could be attached to its stage, and
    /// says what is done then, in its order. A session that could not be attached
    /// is neither announced nor handed anything. `stage_shown` is the stage as a
    /// message names it.
    pub fn activate(options: ActivationLeaseOptions, attached: bool, stage_shown: &str) -> (r: Result<
        (ActivationLease, Vec<ActivationAct>),
        Error,
    >)
        ensures
            if attached {
                r matches Ok((lease, acts)) && lease@ == (LeaseView {
                    stage_id: options.stage_id@,
                    session_id: options.session_id@,
                    released: false,
                }) && opens(acts@, options)
            } else {
                r matches Err(e) && e@ == ErrorView::Precondition(
                    "stage "@ + stage_shown@ + " already has a different active agent session"@,
                )
            },
    {
        if !attached {
            let mut s = concat("stage ", stage_shown);
            s.append(" already has a different active agent session");
            return Err(Error::Precondition(s));
        }
        let event = SessionActivated {
            node_id: options.stage_id.node_id.clone(),
            visit: options.stage_id.visit,
            session_id: options.session_id.clone(),
            thread_id: options.thread_id,
            provider: options.provider,
            model: options.model,
            reasoning_effort: options.reasoning_effort,
            speed: options.speed,
            permission_level: options.permission_level,
            capabilities: options.capabilities,
        };
        let mut acts: Vec<ActivationAct> = Vec::new();
        acts.push(ActivationAct::Announce(event));
        acts.push(ActivationAct::DrainPending);
        Ok(
            (
                ActivationLease {
                    stage_id: options.stage_id,
                    session_id: options.session_id,
                    released: false,
                },
                acts,
            ),
        )
    }

    pub fn is_released(&self) -> (r: bool)
        ensures
            r == self@.released,
    {
        self.released
    }

    /// Ends the lease. The first time, the event is returned, and the session is
    /// to be detached.
    pub fn release(&mut self) -> (r: Option<SessionDeactivated>)
        ensures
            final(self)@ == old(self)@.over(),
            if old(self)@.released {
                r is None
            } else {
                r matches Some(event) && event.tells(old(self)@)
            },
    {
        if self.released {
            return None;
        }
        self.released = true;
        Some(
            SessionDeactivated {
                node_id: self.stage_id.node_id.clone(),
                visit: self.stage_id.visit,
                session_id: self.session_id.clone(),
            },
        )
    }

    /// Ends the lease where the session could be detached because no control
    /// work was left. True where the lease is over.
    pub fn release_if_no_pending_control_work(&mut self, detached: bool) -> (r: (
        bool,
        Option<SessionDeactivated>,
    ))
        ensures
            r.0 == (old(self)@.released || detached),
            final(self)@ == if r.0 {
                old(self)@.over()
            } else {
                old(self)@
            },
            if !old(self)@.released && detached {
                r.1 matches Some(event) && event.tells(old(self)@)
            } else {
                r.1 is None
            },
    {
        if self.released {
            return (true, None);
        }
        if !detached {
            return (false, None);
        }
        (true, self.release())
    }

    /// Whether a human works with the session right now.
    pub fn is_pair_active(&self, paired: bool) -> (r: bool)
        ensures
            r == (!self@.released && paired),
    {
        !self.released && paired
    }

    /// What follows a completion without a tool call: the lease ends only where
    /// no control work is left.
    pub fn on_natural_completion(&mut self, paired: bool, detached: bool) -> (r: Completion)
        ensures
            completes(old(self)@, paired, detached, final(self)@, r),
    {
        if self.is_pair_active(paired) {
            return Completion::Park;
        }
        let (over, event) = self.release_if_no_pending_control_work(detached);
        match event {
            Some(event) => Completion::Release(event),
            None => if over {
                Completion::Stop
            } else {
                Completion::Continue
            },
        }
    }
}

/// A session that a human works with waits for them; one whose lease is over stops.
/// Any other goes on while there is control work for it, and gives its lease up
/// exactly once there is none, which is told.
pub proof fn lemma_sessions_end_once_nothing_waits_for_them(
    lease: LeaseView,
    paired: bool,
    detached: bool,
    t: LeaseView,
    r: Completion,
)
    requires
        completes(lease, paired, detached, t, r),
    ensures
        r is Park <==> !lease.released && paired,
        r is Stop <==> lease.released,
        r is Release <==> !lease.released && !paired && detached,
        r is Continue <==> !lease.released && !paired && !detached,
        t.released <==> lease.released || r is Release,
        t.stage_id == lease.stage_id && t.session_id == lease.session_id,
        r matches Completion::Release(event) ==> event.session_id@ == lease.session_id
            && event.node_id@ == lease.stage_id.node_id && event.visit == lease.stage_id.visit,
{
}

/// A session that could be attached to its stage is announced, as what it is, and
/// then handed what waits for it; one that could not is refused and neither is done.
pub proof fn lemma_attached_sessions_are_announced(
    options: ActivationLeaseOptions,
    attached: bool,
    shown: &str,
    r: Result<(ActivationLease, Vec<ActivationAct>), Error>,
)
    requires
        call_ensures(ActivationLease::activate, (options, attached, shown), r),
    ensures
        r is Ok <==> attached,
        r matches Ok((lease, acts)) ==> {
            &&& !lease@.released
            &&& lease@.session_id == options.session_id@
            &&& lease@.stage_id == options.stage_id@
            &&& acts@.len() == 2 && acts@[1] is DrainPending
            &&& acts@[0] matches ActivationAct::Announce(e) && e.session_id@ == options.session_id@
                && e.node_id@ == options.stage_id@.node_id && e.visit == options.stage_id.visit
                && e.thread_id.deep_view() == options.thread_id.deep_view()
                && e.permission_level == options.permission_level && e.capabilities@
                == options.capabilities@
        },
{
}

/// Releasing a lease again changes nothing.
pub proof fn lemma_release_is_idempotent(lease: LeaseView)
    ensures
        lease.over().over() == lease.over(),
        lease.over().released,
{
}

} // verus!
