//! Which files an agent changes, and which of its events are passed on.
use crate::json::{member, Json, JsonView};
use crate::order::{sorted, TextSet};
use crate::table::{Duplicate, Table};
use crate::text::same;
use vstd::prelude::*;
use vstd::string::*;

verus! {

/// Whether a tool changes a file.
pub open spec fn changes_file(canonical_name: Seq<char>) -> bool {
    canonical_name == "write_file"@ || canonical_name == "edit_file"@
}

fn is_file_tool(name: &str) -> (r: bool)
    ensures
        r == changes_file(name@),
{
    same(name, "write_file") || same(name, "edit_file")
}

/// An event of an agent's tools.
#[derive(Debug, PartialEq)]
pub enum ToolEvent {
    /// A call starts, of the tool that is known under a name, whatever the model
    /// calls it.
    Started { canonical_name: String, tool_call_id: String, arguments: Json },
    Completed { tool_call_id: String, is_error: bool },
    Other,
}

/// The files that an agent changes.
#[derive(Debug, PartialEq)]
pub struct FileTracking {
    /// The files of calls that are under way.
    pub pending: Table<String>,
    /// The files that were changed.
    pub touched: TextSet,
    /// The file that was changed last.
    pub last: Option<String>,
}

pub struct TrackingView {
    pub pending: Map<Seq<char>, Seq<char>>,
    pub touched: Set<Seq<char>>,
    pub last: Option<Seq<char>>,
}

impl View for FileTracking {
    type V = TrackingView;

    open spec fn view(&self) -> TrackingView {
        TrackingView {
            pending: self.pending@,
            touched: self.touched@,
            last: self.last.deep_view(),
        }
    }
}

/// The file that a call's arguments name.
pub open spec fn named_file(arguments: JsonView) -> Option<Seq<char>> {
    let value = match member(arguments, "file_path"@) {
        Some(v) => Some(v),
        None => member(arguments, "path"@),
    };
    match value {
        Some(JsonView::Str(path)) => Some(path),
        _ => None,
    }
}

fn file_of(arguments: &Json) -> (r: Option<String>)
    ensures
        r.deep_view() == named_file(arguments@),
{
    let value = match arguments.get("file_path") {
        Some(v) => Some(v),
        None => arguments.get("path"),
    };
    match value {
        Some(v) => match v.as_str() {
            Some(path) => Some(path.to_owned()),
            None => None,
        },
        None => None,
    }
}

/// The files after an event. A call's file counts as changed once the call has
/// succeeded.
pub open spec fn after_tool_event(s: TrackingView, event: ToolEvent) -> TrackingView {
    match event {
        ToolEvent::Started { canonical_name, tool_call_id, arguments } => match named_file(
            arguments@,
        ) {
            Some(path) => if changes_file(canonical_name@) {
                TrackingView { pending: s.pending.insert(tool_call_id@, path), ..s }
            } else {
                s
            },
            None => s,
        },
        ToolEvent::Completed { tool_call_id, is_error } => if s.pending.contains_key(
            tool_call_id@,
        ) {
            let path = s.pending[tool_call_id@];
            let rest = TrackingView { pending: s.pending.remove(tool_call_id@), ..s };
            if is_error {
                rest
            } else {
                TrackingView { touched: s.touched.insert(path), last: Some(path), ..rest }
            }
        } else {
            s
        },
        ToolEvent::Other => s,
    }
}

impl FileTracking {
    pub fn new() -> (r: FileTracking)
        ensures
            r@ == (TrackingView { pending: Map::empty(), touched: Set::empty(), last: None }),
    {
        FileTracking { pending: Table::new(), touched: TextSet::new(), last: None }
    }
}

/// Takes in an event of an agent's tools.
pub fn track_file_event(event: &ToolEvent, state: &mut FileTracking)
    ensures
        final(state)@ == after_tool_event(old(state)@, *event),
{
    let ghost before = state@;
    match event {
        ToolEvent::Started { canonical_name, tool_call_id, arguments } => {
            if is_file_tool(canonical_name.as_str()) {
                if let Some(path) = file_of(arguments) {
                    state.pending.insert(tool_call_id.clone(), path);
                }
            }
        },
        ToolEvent::Completed { tool_call_id, is_error } => {
            match state.pending.remove(tool_call_id.as_str()) {
                Some(path) => {
                    if !*is_error {
                        state.touched.insert(path.clone());
                        state.last = Some(path);
                    }
                },
                None => {
                    assert(state@.pending =~= before.pending);
                },
            }
        },
        ToolEvent::Other => {},
    }
}

/// The changed files in ascending order, and the one changed last.
pub fn file_tracking_snapshot(state: &FileTracking) -> (r: (Vec<String>, Option<String>))
    ensures
        r.0.deep_view() == sorted(state@.touched),
        r.1.deep_view() == state@.last,
{
    (state.touched.to_vec(), state.last.duplicate())
}

/// The file that was changed last.
pub fn last_touched_file(state: &FileTracking) -> (r: Option<String>)
    ensures
        r.deep_view() == state@.last,
{
    state.last.duplicate()
}

/// Whether the file changed last is one of the changed files.
pub open spec fn consistent(s: TrackingView) -> bool {
    s.last matches Some(path) ==> s.touched.contains(path)
}

/// The file changed last stays one of the changed files, and no changed file is
/// forgotten.
pub proof fn lemma_tracking_is_consistent(s: TrackingView, event: ToolEvent)
    requires
        consistent(s),
    ensures
        consistent(after_tool_event(s, event)),
        s.touched.subset_of(after_tool_event(s, event).touched),
{
}

/// What kind of event a session sends.
#[derive(Clone, Copy, Debug, PartialEq, Eq, Structural)]
pub enum SessionEventKind {
    /// A part of a response or of a tool's output.
    Streaming,
    ProcessingEnd,
    SessionStarted,
    SessionEnded,
    Other,
}

/// What is done with an event of a session.
#[derive(Clone, Copy, Debug, PartialEq, Eq, Structural)]
pub struct Forwarding {
    /// The event is passed on.
    pub forward: bool,
    /// The stage's session has dealt with its input.
    pub processing_ended: bool,
    /// The stage's session has ended.
    pub session_ended: bool,
}

/// What is done with an event of a session. Events of the session's own life are
/// the stage's to tell, and parts of a response are not told; only the stage's
/// own session, and none that it spawned, ends its input.
pub fn forward_session_event(
    kind: SessionEventKind,
    session_id: &str,
    parent_session_id: Option<&str>,
    root_session_id: &str,
) -> (r: Forwarding)
    ensures
        r.forward == (kind == SessionEventKind::Other),
        r.processing_ended == (kind == SessionEventKind::ProcessingEnd && session_id@
            == root_session_id@ && parent_session_id is None),
        r.session_ended == (kind == SessionEventKind::SessionEnded && session_id@
            == root_session_id@ && parent_session_id is None),
{
    let root = same(session_id, root_session_id) && parent_session_id.is_none();
    Forwarding {
        forward: kind == SessionEventKind::Other,
        processing_ended: root && kind == SessionEventKind::ProcessingEnd,
        session_ended: root && kind == SessionEventKind::SessionEnded,
    }
}

/// What each input that was answered used, in the order of the answers: the
/// tokens and the cost that are reported for it, as one value.
#[derive(Debug, PartialEq)]
pub struct UsageLedger {
    inputs: Vec<Json>,
}

impl View for UsageLedger {
    type V = Seq<JsonView>;

    closed spec fn view(&self) -> Seq<JsonView> {
        self.inputs.deep_view()
    }
}

impl UsageLedger {
    pub fn new() -> (r: UsageLedger)
        ensures
            r@ == Seq::<JsonView>::empty(),
    {
        let r = UsageLedger { inputs: Vec::new() };
        assert(r@ =~= Seq::empty());
        r
    }

    /// Counts one more input.
    pub fn count(&mut self, usage: Json)
        ensures
            final(self)@ == old(self)@.push(usage@),
    {
        let ghost had = self@;
        let ghost added = usage@;
        self.inputs.push(usage);
        assert(self@ =~= had.push(added));
    }

    /// Everything that was counted, for the sum that a stage is billed.
    pub fn inputs(&self) -> (r: &Vec<Json>)
        ensures
            r.deep_view() == self@,
    {
        &self.inputs
    }
}

/// Time that a stage spent, in nanoseconds.
#[derive(Clone, Copy, Debug, PartialEq, Eq, Structural)]
pub struct ActiveTime {
    pub inference_ns: u128,
    pub tool_ns: u128,
}

/// The longest time that is counted: the longest `std::time::Duration`.
pub const MAX_NS: u128 = 18446744073709551615999999999;

/// A sum of times, at most the longest time that is counted.
pub open spec fn time_sum(a: u128, b: u128) -> int {
    if a + b > MAX_NS {
        MAX_NS as int
    } else {
        a + b
    }
}

/// Whole milliseconds of a time, at most the greatest number of 64 bits.
pub open spec fn millis(ns: u128) -> int {
    if ns / 1_000_000 > u64::MAX {
        u64::MAX as int
    } else {
        ns as int / 1_000_000
    }
}

fn sum_of(a: u128, b: u128) -> (r: u128)
    requires
        a <= MAX_NS,
        b <= MAX_NS,
    ensures
        r == time_sum(a, b),
{
    if a > MAX_NS - b {
        MAX_NS
    } else {
        a + b
    }
}

/// Whole milliseconds of a time.
pub fn millis_u64(ns: u128) -> (r: u64)
    ensures
        r == millis(ns),
{
    let ms: u128 = ns / 1_000_000;
    if ms > u64::MAX as u128 {
        u64::MAX
    } else {
        ms as u64
    }
}

impl ActiveTime {
    pub open spec fn wf(self) -> bool {
        self.inference_ns <= MAX_NS && self.tool_ns <= MAX_NS
    }

    pub fn zero() -> (r: ActiveTime)
        ensures
            r == (ActiveTime { inference_ns: 0, tool_ns: 0 }),
            r.wf(),
    {
        ActiveTime { inference_ns: 0, tool_ns: 0 }
    }

    /// Adds the time of one more input.
    pub fn record(&mut self, input: ActiveTime)
        requires
            old(self).wf(),
            input.wf(),
        ensures
            final(self).inference_ns == time_sum(old(self).inference_ns, input.inference_ns),
            final(self).tool_ns == time_sum(old(self).tool_ns, input.tool_ns),
            final(self).wf(),
    {
        self.inference_ns = sum_of(self.inference_ns, input.inference_ns);
        self.tool_ns = sum_of(self.tool_ns, input.tool_ns);
    }

    /// The timing of the stage.
    pub fn timing(&self) -> (r: crate::outcome::StageTiming)
        ensures
            r.wall_ms == 0,
            r.inference_ms == millis(self.inference_ns),
            r.tool_ms == millis(self.tool_ns),
    {
        crate::outcome::StageTiming::active_only(
            millis_u64(self.inference_ns),
            millis_u64(self.tool_ns),
        )
    }
}

/// A file counts as changed exactly where a call that changes files named it and
/// then succeeded, and the last such file is the one changed last. A call that
/// failed, or that was never seen to start, changes nothing, and what a tool that
/// only reads is called with does not count.
pub proof fn lemma_files_change_when_their_call_succeeds(s: TrackingView, event: ToolEvent)
    ensures
        ({
            let t = after_tool_event(s, event);
            match event {
                ToolEvent::Started { canonical_name, tool_call_id, arguments } => {
                    let writes = canonical_name@ == "write_file"@ || canonical_name@
                        == "edit_file"@;
                    let path = match arguments@ {
                        JsonView::Object(fields) => if fields.contains_key("file_path"@) {
                            Some(fields["file_path"@])
                        } else if fields.contains_key("path"@) {
                            Some(fields["path"@])
                        } else {
                            None
                        },
                        _ => None,
                    };
                    &&& t.touched == s.touched && t.last == s.last
                    &&& writes ==> (path matches Some(JsonView::Str(p)) ==> t.pending
                        == s.pending.insert(tool_call_id@, p))
                    &&& !(writes && (path matches Some(JsonView::Str(_)))) ==> t.pending
                        == s.pending
                },
                ToolEvent::Completed { tool_call_id, is_error } => {
                    let known = s.pending.contains_key(tool_call_id@);
                    let path = s.pending[tool_call_id@];
                    &&& !t.pending.contains_key(tool_call_id@)
                    &&& known && !is_error ==> t.touched == s.touched.insert(path) && t.last
                        == Some(path)
                    &&& !known || is_error ==> t.touched == s.touched && t.last == s.last
                    &&& forall|id: Seq<char>|
                        id != tool_call_id@ ==> #[trigger] t.pending.contains_key(id)
                            == s.pending.contains_key(id) && t.pending[id] == s.pending[id]
                },
                ToolEvent::Other => t == s,
            }
        }),
{
}

/// What a session sends is passed on but for parts of a response and the turns of
/// the session's own life. Only the stage's own session, which no other spawned,
/// ends its input and itself.
pub proof fn lemma_only_the_own_session_ends(
    kind: SessionEventKind,
    session_id: &str,
    parent: Option<&str>,
    root: &str,
    r: Forwarding,
)
    requires
        call_ensures(forward_session_event, (kind, session_id, parent, root), r),
    ensures
        r.forward <==> kind == SessionEventKind::Other,
        r.processing_ended ==> kind == SessionEventKind::ProcessingEnd && session_id@ == root@,
        r.session_ended ==> kind == SessionEventKind::SessionEnded && session_id@ == root@,
        parent is Some ==> !r.processing_ended && !r.session_ended,
        parent is None && session_id@ == root@ ==> {
            &&& kind == SessionEventKind::ProcessingEnd ==> r.processing_ended
            &&& kind == SessionEventKind::SessionEnded ==> r.session_ended
        },
{
}

/// A time in whole milliseconds is no longer than the time and less than one
/// millisecond short of it, up to what a number of sixty-four bits holds. Times
/// add up while their sum can be counted, and stay at the longest one after that.
pub proof fn lemma_times_add_up(a: u128, b: u128)
    requires
        a <= MAX_NS,
        b <= MAX_NS,
    ensures
        a + b <= MAX_NS ==> time_sum(a, b) == a + b,
        a + b > MAX_NS ==> time_sum(a, b) == MAX_NS,
        time_sum(a, b) == time_sum(b, a),
        a / 1_000_000 <= u64::MAX ==> millis(a) * 1_000_000 <= a < (millis(a) + 1) * 1_000_000,
        a / 1_000_000 > u64::MAX ==> millis(a) == u64::MAX,
{
}


} // verus!
