//! The models that serve a request when the first one does not.
use crate::handler::llm::controls::{ControlsView, EffectiveRequestControls};
use crate::order::{lemma_next_joins, push_text, TextSet};
use crate::table::Duplicate;
use crate::text::same;
use vstd::prelude::*;

verus! {

/// A model at a provider.
#[derive(Debug, PartialEq)]
pub struct FallbackTarget {
    pub provider: String,
    pub model: String,
}

pub struct TargetView {
    pub provider: Seq<char>,
    pub model: Seq<char>,
}

impl View for FallbackTarget {
    type V = TargetView;

    open spec fn view(&self) -> TargetView {
        TargetView { provider: self.provider@, model: self.model@ }
    }
}

impl DeepView for FallbackTarget {
    type V = TargetView;

    open spec fn deep_view(&self) -> TargetView {
        self@
    }
}

impl Duplicate for FallbackTarget {
    fn duplicate(&self) -> (r: Self) {
        FallbackTarget { provider: self.provider.clone(), model: self.model.clone() }
    }
}

impl FallbackTarget {
    pub fn new(provider: &str, model: &str) -> (r: Self)
        ensures
            r@ == (TargetView { provider: provider@, model: model@ }),
    {
        FallbackTarget { provider: provider.to_owned(), model: model.to_owned() }
    }

    pub fn same_as(&self, other: &FallbackTarget) -> (r: bool)
        ensures
            r == (self@ == other@),
    {
        same(self.provider.as_str(), other.provider.as_str()) && same(
            self.model.as_str(),
            other.model.as_str(),
        )
    }
}

/// A model with the controls of the requests to it.
#[derive(Debug, PartialEq)]
pub struct LlmRoute {
    pub target: FallbackTarget,
    pub controls: EffectiveRequestControls,
}

pub struct RouteView {
    pub target: TargetView,
    pub controls: ControlsView,
}

impl View for LlmRoute {
    type V = RouteView;

    open spec fn view(&self) -> RouteView {
        RouteView { target: self.target@, controls: self.controls@ }
    }
}

impl DeepView for LlmRoute {
    type V = RouteView;

    open spec fn deep_view(&self) -> RouteView {
        self@
    }
}

impl Duplicate for LlmRoute {
    fn duplicate(&self) -> (r: Self) {
        LlmRoute { target: self.target.duplicate(), controls: self.controls.duplicate() }
    }
}

/// The routes of a request: the one asked for, then the fallbacks, and which of
/// them is in use.
#[derive(Debug, PartialEq)]
pub struct FallbackPlan {
    original: LlmRoute,
    remaining: Vec<LlmRoute>,
    position: usize,
}

pub struct FallbackView {
    pub original: RouteView,
    pub remaining: Seq<RouteView>,
    /// The number of fallbacks taken so far.
    pub position: nat,
}

impl View for FallbackPlan {
    type V = FallbackView;

    closed spec fn view(&self) -> FallbackView {
        FallbackView {
            original: self.original@,
            remaining: self.remaining.deep_view(),
            position: self.position as nat,
        }
    }
}

impl FallbackView {
    /// The position is one of a route.
    pub open spec fn wf(self) -> bool {
        self.position <= self.remaining.len()
    }

    /// The original route, then the fallbacks in order.
    pub open spec fn route_at(self, position: nat) -> RouteView {
        if position == 0 {
            self.original
        } else {
            self.remaining[position - 1]
        }
    }

    pub open spec fn current(self) -> RouteView {
        self.route_at(self.position)
    }

    /// The route in use before the last advance.
    pub open spec fn previous(self) -> RouteView {
        self.route_at(
            if self.position == 0 {
                0
            } else {
                (self.position - 1) as nat
            },
        )
    }

    pub open spec fn has_next(self) -> bool {
        self.position < self.remaining.len()
    }

    /// The plan at its next route, or as it was where there is none.
    pub open spec fn advanced(self) -> FallbackView {
        if self.has_next() {
            FallbackView { position: self.position + 1, ..self }
        } else {
            self
        }
    }
}

impl FallbackPlan {
    #[verifier::type_invariant]
    spec fn inv(self) -> bool {
        self.position <= self.remaining@.len()
    }

    pub fn new(original: LlmRoute, remaining: Vec<LlmRoute>) -> (r: FallbackPlan)
        ensures
            r@ == (FallbackView {
                original: original@,
                remaining: remaining.deep_view(),
                position: 0,
            }),
            r@.wf(),
    {
        FallbackPlan { original, remaining, position: 0 }
    }

    fn route_at(&self, position: usize) -> (r: &LlmRoute)
        requires
            position <= self.remaining@.len(),
        ensures
            r@ == self@.route_at(position as nat),
    {
        if position == 0 {
            &self.original
        } else {
            assert(self@.remaining[position - 1] == self.remaining@[position - 1]@);
            &self.remaining[position - 1]
        }
    }

    /// The route in use.
    pub fn current(&self) -> (r: &LlmRoute)
        ensures
            r@ == self@.current(),
            self@.wf(),
    {
        proof {
            use_type_invariant(self);
        }
        self.route_at(self.position)
    }

    /// The route in use before the last advance.
    pub fn previous(&self) -> (r: &LlmRoute)
        ensures
            r@ == self@.previous(),
    {
        proof {
            use_type_invariant(self);
        }
        let position: usize = if self.position == 0 {
            0
        } else {
            self.position - 1
        };
        self.route_at(position)
    }

    /// The route that was asked for.
    pub fn original(&self) -> (r: &LlmRoute)
        ensures
            r@ == self@.original,
    {
        &self.original
    }

    /// The fallbacks, in order.
    pub fn remaining(&self) -> (r: &Vec<LlmRoute>)
        ensures
            r.deep_view() == self@.remaining,
    {
        &self.remaining
    }

    /// The number of fallbacks taken so far.
    pub fn attempt(&self) -> (r: u32)
        ensures
            r == if self@.position <= u32::MAX {
                self@.position as int
            } else {
                u32::MAX as int
            },
    {
        if self.position as u64 <= u32::MAX as u64 {
            self.position as u32
        } else {
            u32::MAX
        }
    }

    pub fn has_next(&self) -> (r: bool)
        ensures
            r == self@.has_next(),
            self@.wf(),
    {
        proof {
            use_type_invariant(self);
        }
        self.position < self.remaining.len()
    }

    /// Goes on to the next fallback. False where there is none.
    pub fn advance(&mut self) -> (r: bool)
        ensures
            r == old(self)@.has_next(),
            final(self)@ == old(self)@.advanced(),
            final(self)@.wf(),
    {
        proof {
            use_type_invariant(&*self);
        }
        let count: usize = self.remaining.len();
        if self.position < count {
            self.position = self.position + 1;
            true
        } else {
            false
        }
    }
}

/// An advance changes the position alone: the routes of a plan are fixed when it
/// is made, and no target's own fallbacks join them.
pub proof fn lemma_routes_are_fixed(plan: FallbackView)
    ensures
        plan.advanced().original == plan.original,
        plan.advanced().remaining == plan.remaining,
        plan.wf() ==> plan.advanced().wf(),
{
}

/// Two advances in a row chain: the route that the first leads to is the one that
/// the second leaves.
pub proof fn lemma_advances_chain(plan: FallbackView)
    requires
        plan.has_next(),
        plan.advanced().has_next(),
    ensures
        plan.advanced().advanced().previous() == plan.advanced().current(),
        plan.advanced().previous() == plan.current(),
{
}

/// What is known of a fallback target.
#[derive(Debug, PartialEq)]
pub enum Offering {
    /// The target is not in the catalog; its provider judges the request.
    Unknown,
    /// The accepted reasoning effort that is nearest to the one asked for.
    Known { nearest_effort: Option<String> },
}

pub enum OfferingView {
    Unknown,
    Known { nearest_effort: Option<Seq<char>> },
}

impl View for Offering {
    type V = OfferingView;

    open spec fn view(&self) -> OfferingView {
        match self {
            Offering::Unknown => OfferingView::Unknown,
            Offering::Known { nearest_effort } => OfferingView::Known {
                nearest_effort: nearest_effort.deep_view(),
            },
        }
    }
}

/// A configured fallback.
#[derive(Debug, PartialEq)]
pub struct Candidate {
    pub target: FallbackTarget,
    pub offering: Offering,
}

pub struct CandidateView {
    pub target: TargetView,
    pub offering: OfferingView,
}

impl View for Candidate {
    type V = CandidateView;

    open spec fn view(&self) -> CandidateView {
        CandidateView { target: self.target@, offering: self.offering@ }
    }
}

impl DeepView for Candidate {
    type V = CandidateView;

    open spec fn deep_view(&self) -> CandidateView {
        self@
    }
}

/// The controls of requests to a fallback; none where it accepts no reasoning
/// effort near the one asked for.
pub open spec fn fallback_controls(offering: OfferingView, requested: ControlsView) -> Option<
    ControlsView,
> {
    match requested.reasoning_effort {
        None => Some(requested),
        Some(_) => match offering {
            OfferingView::Unknown => Some(requested),
            OfferingView::Known { nearest_effort } => match nearest_effort {
                Some(effort) => Some(
                    ControlsView { reasoning_effort: Some(effort), speed: requested.speed },
                ),
                None => None,
            },
        },
    }
}

/// The controls of requests to a fallback.
pub fn fallback_controls_for_target(offering: &Offering, requested: &EffectiveRequestControls) -> (r:
    Option<EffectiveRequestControls>)
    ensures
        r.deep_view() == fallback_controls(offering@, requested@),
{
    if requested.reasoning_effort.is_none() {
        return Some(requested.duplicate());
    }
    match offering {
        Offering::Unknown => Some(requested.duplicate()),
        Offering::Known { nearest_effort } => match nearest_effort {
            Some(effort) => Some(
                EffectiveRequestControls {
                    reasoning_effort: Some(effort.clone()),
                    speed: requested.speed.duplicate(),
                },
            ),
            None => None,
        },
    }
}

/// What the user should know of a plan.
#[derive(Debug, PartialEq)]
pub enum FallbackNotice {
    /// A fallback accepts no reasoning effort near the one asked for.
    NoNearbyReasoningLevel { requested_model: String, target: FallbackTarget, requested_effort: String },
    /// No configured fallback can serve the request.
    ChainEmpty { requested_model: String },
}

pub enum NoticeView {
    NoNearbyReasoningLevel {
        requested_model: Seq<char>,
        target: TargetView,
        requested_effort: Seq<char>,
    },
    ChainEmpty { requested_model: Seq<char> },
}

impl View for FallbackNotice {
    type V = NoticeView;

    open spec fn view(&self) -> NoticeView {
        match self {
            FallbackNotice::NoNearbyReasoningLevel { requested_model, target, requested_effort } => NoticeView::NoNearbyReasoningLevel {
                requested_model: requested_model@,
                target: target@,
                requested_effort: requested_effort@,
            },
            FallbackNotice::ChainEmpty { requested_model } => NoticeView::ChainEmpty {
                requested_model: requested_model@,
            },
        }
    }
}

impl DeepView for FallbackNotice {
    type V = NoticeView;

    open spec fn deep_view(&self) -> NoticeView {
        self@
    }
}

/// The routes to configured fallbacks, in order. The target that was asked
/// for, and one that cannot serve the request, are left out.
pub open spec fn fallback_routes(
    original: TargetView,
    requested: ControlsView,
    chain: Seq<CandidateView>,
) -> Seq<RouteView>
    decreases chain.len(),
{
    if chain.len() == 0 {
        Seq::empty()
    } else {
        let rest = fallback_routes(original, requested, chain.drop_last());
        let last = chain.last();
        if last.target == original {
            rest
        } else {
            match fallback_controls(last.offering, requested) {
                Some(controls) => rest.push(RouteView { target: last.target, controls }),
                None => rest,
            }
        }
    }
}

/// The notices of configured fallbacks that cannot serve the request, in order.
pub open spec fn effort_notices(
    original: TargetView,
    requested: ControlsView,
    chain: Seq<CandidateView>,
) -> Seq<NoticeView>
    decreases chain.len(),
{
    if chain.len() == 0 {
        Seq::empty()
    } else {
        let rest = effort_notices(original, requested, chain.drop_last());
        let last = chain.last();
        match (requested.reasoning_effort, fallback_controls(last.offering, requested)) {
            (Some(effort), None) => if last.target == original {
                rest
            } else {
                rest.push(
                    NoticeView::NoNearbyReasoningLevel {
                        requested_model: original.model,
                        target: last.target,
                        requested_effort: effort,
                    },
                )
            },
            _ => rest,
        }
    }
}

/// The notices of a plan: also one where a chain is configured and none of it
/// can serve the request.
pub open spec fn plan_notices(
    original: TargetView,
    requested: ControlsView,
    chain: Seq<CandidateView>,
) -> Seq<NoticeView> {
    let notices = effort_notices(original, requested, chain);
    if chain.len() > 0 && fallback_routes(original, requested, chain).len() == 0 {
        notices.push(NoticeView::ChainEmpty { requested_model: original.model })
    } else {
        notices
    }
}

/// Makes the plan for a request. `chain` holds the fallbacks configured for the
/// model.
pub fn fallback_plan(
    original: FallbackTarget,
    requested: EffectiveRequestControls,
    chain: &Vec<Candidate>,
) -> (r: (FallbackPlan, Vec<FallbackNotice>))
    ensures
        r.0@ == (FallbackView {
            original: (RouteView { target: original@, controls: requested@ }),
            remaining: fallback_routes(original@, requested@, chain.deep_view()),
            position: 0,
        }),
        r.1.deep_view() == plan_notices(original@, requested@, chain.deep_view()),
{
    let ghost all = chain.deep_view();
    let mut remaining: Vec<LlmRoute> = Vec::new();
    let mut notices: Vec<FallbackNotice> = Vec::new();
    let mut i: usize = 0;
    assert(all.take(0) =~= Seq::empty());
    assert(remaining.deep_view() =~= Seq::empty());
    assert(notices.deep_view() =~= Seq::empty());
    while i < chain.len()
        invariant
            i <= chain@.len(),
            all == chain.deep_view(),
            remaining.deep_view() == fallback_routes(original@, requested@, all.take(i as int)),
            notices.deep_view() == effort_notices(original@, requested@, all.take(i as int)),
        decreases chain@.len() - i,
    {
        assert(all.take(i + 1).drop_last() =~= all.take(i as int));
        assert(all.take(i + 1).last() == chain@[i as int]@);
        let ghost routes = remaining.deep_view();
        let ghost told = notices.deep_view();
        if !chain[i].target.same_as(&original) {
            match fallback_controls_for_target(&chain[i].offering, &requested) {
                Some(controls) => {
                    let route = LlmRoute { target: chain[i].target.duplicate(), controls };
                    let ghost added = route@;
                    remaining.push(route);
                    assert(remaining.deep_view() =~= routes.push(added));
                },
                None => {
                    if let Some(effort) = &requested.reasoning_effort {
                        let notice = FallbackNotice::NoNearbyReasoningLevel {
                            requested_model: original.model.clone(),
                            target: chain[i].target.duplicate(),
                            requested_effort: effort.clone(),
                        };
                        let ghost added = notice@;
                        notices.push(notice);
                        assert(notices.deep_view() =~= told.push(added));
                    }
                },
            }
        }
        i += 1;
    }
    assert(all.take(i as int) =~= all);
    if chain.len() > 0 && remaining.len() == 0 {
        let ghost told = notices.deep_view();
        let notice = FallbackNotice::ChainEmpty { requested_model: original.model.clone() };
        let ghost added = notice@;
        notices.push(notice);
        assert(notices.deep_view() =~= told.push(added));
    }
    (FallbackPlan::new(LlmRoute { target: original, controls: requested }, remaining), notices)
}

/// No fallback of a plan is the target that was asked for.
pub proof fn lemma_fallbacks_differ_from_original(
    original: TargetView,
    requested: ControlsView,
    chain: Seq<CandidateView>,
)
    ensures
        forall|i: int|
            0 <= i < fallback_routes(original, requested, chain).len() ==> (
            #[trigger] fallback_routes(original, requested, chain)[i]).target != original,
    decreases chain.len(),
{
    if chain.len() > 0 {
        lemma_fallbacks_differ_from_original(original, requested, chain.drop_last());
        let rest = fallback_routes(original, requested, chain.drop_last());
        let all = fallback_routes(original, requested, chain);
        assert forall|i: int| 0 <= i < all.len() implies (#[trigger] all[i]).target != original by {
            if i < rest.len() {
                assert(all[i] == rest[i]);
            }
        }
    }
}

/// Says that a request goes on to a fallback.
#[derive(Debug, PartialEq)]
pub struct FailoverProps {
    pub original_provider: String,
    pub original_model: String,
    pub attempt: u32,
    pub from_provider: String,
    pub from_model: String,
    pub to_provider: String,
    pub to_model: String,
    pub requested_reasoning_effort: Option<String>,
    pub effective_reasoning_effort: Option<String>,
    pub error: String,
}

impl FailoverProps {
    /// Whether this is the event for the last advance of a plan.
    pub open spec fn tells(self, plan: FallbackView, error: Seq<char>) -> bool {
        &&& self.original_provider@ == plan.original.target.provider
        &&& self.original_model@ == plan.original.target.model
        &&& self.attempt == if plan.position <= u32::MAX {
            plan.position as int
        } else {
            u32::MAX as int
        }
        &&& self.from_provider@ == plan.previous().target.provider
        &&& self.from_model@ == plan.previous().target.model
        &&& self.to_provider@ == plan.current().target.provider
        &&& self.to_model@ == plan.current().target.model
        &&& self.requested_reasoning_effort.deep_view() == plan.original.controls.reasoning_effort
        &&& self.effective_reasoning_effort.deep_view() == plan.current().controls.reasoning_effort
        &&& self.error@ == error
    }
}

/// The event for the last advance of a plan.
pub fn failover_event(plan: &FallbackPlan, error: &str) -> (r: FailoverProps)
    ensures
        r.tells(plan@, error@),
{
    let from = plan.previous();
    let to = plan.current();
    FailoverProps {
        original_provider: plan.original().target.provider.clone(),
        original_model: plan.original().target.model.clone(),
        attempt: plan.attempt(),
        from_provider: from.target.provider.clone(),
        from_model: from.target.model.clone(),
        to_provider: to.target.provider.clone(),
        to_model: to.target.model.clone(),
        requested_reasoning_effort: plan.original().controls.reasoning_effort.duplicate(),
        effective_reasoning_effort: to.controls.reasoning_effort.duplicate(),
        error: error.to_owned(),
    }
}

/// The messages that were not given before, each once, in order.
pub open spec fn fresh(given: Set<Seq<char>>, messages: Seq<Seq<char>>) -> Seq<Seq<char>>
    decreases messages.len(),
{
    if messages.len() == 0 {
        Seq::empty()
    } else {
        let rest = fresh(given, messages.drop_last());
        let last = messages.last();
        if given.contains(last) || messages.drop_last().contains(last) {
            rest
        } else {
            rest.push(last)
        }
    }
}

/// Which notices of plans are still to be given: each message is given once in
/// a run.
pub fn notices_to_emit(given: &mut TextSet, messages: &Vec<String>) -> (r: Vec<String>)
    ensures
        r.deep_view() == fresh(old(given)@, messages.deep_view()),
        final(given)@ == old(given)@.union(messages.deep_view().to_set()),
{
    let ghost start = given@;
    let ghost all = messages.deep_view();
    let mut r: Vec<String> = Vec::new();
    let mut i: usize = 0;
    assert(all.take(0) =~= Seq::empty());
    assert(r.deep_view() =~= Seq::empty());
    assert(start.union(all.take(0).to_set()) =~= start);
    while i < messages.len()
        invariant
            i <= messages@.len(),
            all == messages.deep_view(),
            r.deep_view() == fresh(start, all.take(i as int)),
            given@ == start.union(all.take(i as int).to_set()),
        decreases messages@.len() - i,
    {
        proof {
            assert(all.take(i + 1).drop_last() =~= all.take(i as int));
            assert(all.take(i + 1).last() == messages@[i as int]@);
            lemma_next_joins(all, i as int);
        }
        let added = given.insert(messages[i].clone());
        if added {
            push_text(&mut r, messages[i].clone());
        }
        i += 1;
        assert(given@ =~= start.union(all.take(i as int).to_set()));
    }
    assert(all.take(i as int) =~= all);
    r
}

/// A message is given once: none of those given is fresh again, and no message
/// is fresh twice.
pub proof fn lemma_messages_are_given_once(given: Set<Seq<char>>, messages: Seq<Seq<char>>)
    ensures
        fresh(given.union(messages.to_set()), messages).len() == 0,
        fresh(given, messages).no_duplicates(),
        forall|i: int|
            0 <= i < fresh(given, messages).len() ==> messages.contains(
                #[trigger] fresh(given, messages)[i],
            ) && !given.contains(fresh(given, messages)[i]),
    decreases messages.len(),
{
    lemma_given_messages_are_not_fresh(given.union(messages.to_set()), messages);
    if messages.len() > 0 {
        let before = messages.drop_last();
        let last = messages.last();
        lemma_messages_are_given_once(given, before);
        let rest = fresh(given, before);
        let all = fresh(given, messages);
        assert(messages[messages.len() - 1] == last);
        assert forall|i: int| 0 <= i < all.len() implies messages.contains(#[trigger] all[i])
            && !given.contains(all[i]) by {
            if i < rest.len() {
                assert(all[i] == rest[i]);
                let k = choose|k: int| 0 <= k < before.len() && before[k] == rest[i];
                assert(messages[k] == rest[i]);
            }
        }
        assert forall|i: int, j: int| 0 <= i < j < all.len() implies all[i] != all[j] by {
            if j < rest.len() {
                assert(rest[i] != rest[j]);
            } else {
                assert(before.contains(rest[i]));
            }
        }
    }
}

proof fn lemma_given_messages_are_not_fresh(given: Set<Seq<char>>, messages: Seq<Seq<char>>)
    requires
        forall|i: int| 0 <= i < messages.len() ==> given.contains(#[trigger] messages[i]),
    ensures
        fresh(given, messages).len() == 0,
    decreases messages.len(),
{
    if messages.len() > 0 {
        let before = messages.drop_last();
        assert forall|i: int| 0 <= i < before.len() implies given.contains(#[trigger] before[i]) by {
            assert(messages[i] == before[i]);
        }
        assert(messages[messages.len() - 1] == messages.last());
        lemma_given_messages_are_not_fresh(given, before);
    }
}

/// One more configured fallback joins the plan at its end exactly where it is not
/// the target that was asked for and can serve the request: no reasoning effort is
/// asked for, nothing is known of the target, or the target accepts an effort near
/// the one asked for. It is asked with that effort, and otherwise as the request
/// was. One that accepts none is told to the user; the target itself is passed
/// over in silence.
pub proof fn lemma_every_fallback_that_can_serve_is_planned(
    original: TargetView,
    requested: ControlsView,
    chain: Seq<CandidateView>,
    c: CandidateView,
)
    ensures
        ({
            let before = fallback_routes(original, requested, chain);
            let after = fallback_routes(original, requested, chain.push(c));
            let told = effort_notices(original, requested, chain);
            let tells = effort_notices(original, requested, chain.push(c));
            let lacking = requested.reasoning_effort is Some && (
            c.offering matches OfferingView::Known { nearest_effort } && nearest_effort is None);
            &&& c.target == original ==> after == before && tells == told
            &&& c.target != original && lacking ==> {
                &&& after == before
                &&& tells.len() == told.len() + 1 && tells.drop_last() == told
                &&& tells.last() matches NoticeView::NoNearbyReasoningLevel {
                    requested_model,
                    target,
                    requested_effort,
                } && requested_model == original.model && target == c.target && Some(
                    requested_effort,
                ) == requested.reasoning_effort
            }
            &&& c.target != original && !lacking ==> {
                &&& tells == told
                &&& after.len() == before.len() + 1 && after.drop_last() == before
                &&& after.last().target == c.target
                &&& after.last().controls.speed == requested.speed
                &&& after.last().controls.reasoning_effort == match c.offering {
                    OfferingView::Known { nearest_effort } => if requested.reasoning_effort is Some {
                        nearest_effort
                    } else {
                        None
                    },
                    OfferingView::Unknown => requested.reasoning_effort,
                }
            }
        }),
        fallback_routes(original, requested, Seq::empty()).len() == 0,
        effort_notices(original, requested, Seq::empty()).len() == 0,
{
    assert(chain.push(c).drop_last() =~= chain);
    let before = fallback_routes(original, requested, chain);
    let after = fallback_routes(original, requested, chain.push(c));
    if after.len() > before.len() {
        assert(after.drop_last() =~= before);
    }
    let told = effort_notices(original, requested, chain);
    let tells = effort_notices(original, requested, chain.push(c));
    if tells.len() > told.len() {
        assert(tells.drop_last() =~= told);
    }
}

/// That no fallback is left is told exactly where fallbacks are configured and none
/// of them joined the plan, and after everything else.
pub proof fn lemma_empty_chains_are_told(
    original: TargetView,
    requested: ControlsView,
    chain: Seq<CandidateView>,
)
    ensures
        ({
            let notices = plan_notices(original, requested, chain);
            let efforts = effort_notices(original, requested, chain);
            if chain.len() > 0 && fallback_routes(original, requested, chain).len() == 0 {
                &&& notices.len() == efforts.len() + 1
                &&& notices.take(efforts.len() as int) == efforts
                &&& notices.last() == (NoticeView::ChainEmpty { requested_model: original.model })
            } else {
                notices == efforts
            }
        }),
{
    let notices = plan_notices(original, requested, chain);
    let efforts = effort_notices(original, requested, chain);
    assert(notices.take(efforts.len() as int) =~= efforts);
}

/// A plan goes from route to route in the order in which it lists them, one at an
/// advance, and stays at the last one.
pub proof fn lemma_plans_advance_one_route_at_a_time(plan: FallbackView)
    requires
        plan.position <= plan.remaining.len(),
    ensures
        ({
            let next = plan.advanced();
            if plan.position < plan.remaining.len() {
                &&& next.position == plan.position + 1
                &&& next.current() == plan.remaining[plan.position as int]
                &&& next.previous() == plan.current()
            } else {
                next == plan
            }
        }),
        plan.position == 0 ==> plan.current() == plan.original,
        plan.position > 0 ==> plan.current() == plan.remaining[plan.position - 1],
        plan.has_next() <==> plan.position < plan.remaining.len(),
{
}

/// A failover is told with what was asked for, where it comes from, where it goes and
/// why, and is numbered by how many fallbacks were taken.
pub proof fn lemma_failovers_are_told_from_route_to_route(
    plan: &FallbackPlan,
    error: &str,
    r: FailoverProps,
)
    requires
        call_ensures(failover_event, (plan, error), r),
    ensures
        r.original_provider@ == plan@.original.target.provider,
        r.original_model@ == plan@.original.target.model,
        plan@.position <= u32::MAX ==> r.attempt == plan@.position,
        r.to_provider@ == plan@.current().target.provider,
        r.to_model@ == plan@.current().target.model,
        plan@.position > 0 ==> {
            let before = FallbackView { position: (plan@.position - 1) as nat, ..plan@ };
            &&& r.from_provider@ == before.current().target.provider
            &&& r.from_model@ == before.current().target.model
        },
        r.requested_reasoning_effort.deep_view() == plan@.original.controls.reasoning_effort,
        r.effective_reasoning_effort.deep_view() == plan@.current().controls.reasoning_effort,
        r.error@ == error@,
{
}

/// A fallback is asked for what the request asked for: it keeps the speed, and the
/// effort where what it offers is not known. One that offers no effort near the one
/// asked for cannot serve; a request without an effort is served by any.
pub proof fn lemma_fallbacks_keep_what_was_asked(offering: OfferingView, requested: ControlsView)
    ensures
        ({
            let r = fallback_controls(offering, requested);
            &&& r is None <==> requested.reasoning_effort is Some && (
            offering matches OfferingView::Known { nearest_effort: None })
            &&& r matches Some(c) ==> {
                &&& c.speed == requested.speed
                &&& c.reasoning_effort is Some <==> requested.reasoning_effort is Some
                &&& offering is Unknown ==> c == requested
                &&& requested.reasoning_effort is Some ==> (
                offering matches OfferingView::Known { nearest_effort: near }
                    ==> c.reasoning_effort == near)
            }
        }),
{
}

/// Every message that was not given before is given now.
pub proof fn lemma_new_messages_are_given(
    given: Set<Seq<char>>,
    messages: Seq<Seq<char>>,
    m: Seq<char>,
)
    requires
        messages.contains(m),
        !given.contains(m),
    ensures
        fresh(given, messages).contains(m),
    decreases messages.len(),
{
    let before = messages.drop_last();
    let rest = fresh(given, before);
    let all = fresh(given, messages);
    if before.contains(m) {
        lemma_new_messages_are_given(given, before, m);
        let i = choose|i: int| 0 <= i < rest.len() && rest[i] == m;
        assert(all[i] == m);
    } else {
        let k = choose|k: int| 0 <= k < messages.len() && messages[k] == m;
        if k < before.len() {
            assert(before[k] == m);
        }
        assert(messages.last() == m);
        assert(all == rest.push(m));
        assert(all[all.len() - 1] == m);
    }
}

} // verus!
