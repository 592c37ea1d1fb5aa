//! Which files of a run are kept, and what is told of them.
use crate::keys::concat;
use crate::lifecycle::events::{
    push_emission, scoped, unscoped, ArtifactCaptured, ArtifactCapturedView, Emission, EmissionView,
    Event, EventView, RunNotice, RunNoticeCode, RunNoticeLevel, RunNoticeView, StageScope, StageScopeView,
};
use crate::order::push_text;
use crate::table::Duplicate;
use crate::text::{decimal, decimal_string, join, joined, same};
use vstd::prelude::*;
use vstd::string::*;

verus! {

/// A file that a stage left.
#[derive(Debug, PartialEq)]
pub struct ArtifactUpload {
    pub path: String,
    pub mime: String,
    pub content_md5: String,
    pub content_sha256: String,
    pub bytes: u64,
}

pub struct ArtifactUploadView {
    pub path: Seq<char>,
    pub mime: Seq<char>,
    pub content_md5: Seq<char>,
    pub content_sha256: Seq<char>,
    pub bytes: u64,
}

impl View for ArtifactUpload {
    type V = ArtifactUploadView;

    open spec fn view(&self) -> ArtifactUploadView {
        ArtifactUploadView {
            path: self.path@,
            mime: self.mime@,
            content_md5: self.content_md5@,
            content_sha256: self.content_sha256@,
            bytes: self.bytes,
        }
    }
}

impl DeepView for ArtifactUpload {
    type V = ArtifactUploadView;

    open spec fn deep_view(&self) -> ArtifactUploadView {
        self@
    }
}

impl Duplicate for ArtifactUpload {
    fn duplicate(&self) -> (r: Self) {
        ArtifactUpload {
            path: self.path.clone(),
            mime: self.mime.clone(),
            content_md5: self.content_md5.clone(),
            content_sha256: self.content_sha256.clone(),
            bytes: self.bytes,
        }
    }
}

/// What a file is known by: its path and its content.
pub type Identity = (Seq<char>, Seq<char>);

impl ArtifactUploadView {
    pub open spec fn identity(self) -> Identity {
        (self.path, self.content_sha256)
    }
}

/// What was found of the files that a stage left.
#[derive(Debug, PartialEq)]
pub struct ArtifactCollectionSummary {
    pub captured_assets: Vec<ArtifactUpload>,
    pub download_errors: usize,
    pub hash_errors: usize,
}

/// The files that were kept.
#[derive(Debug, PartialEq)]
pub struct ArtifactLedger {
    entries: Vec<(String, String)>,
}

/// The identities that a list of entries holds.
pub open spec fn identities(entries: Seq<(String, String)>) -> Set<Identity> {
    Set::new(
        |id: Identity|
            exists|i: int| 0 <= i < entries.len() && (#[trigger] entries[i]).0@ == id.0
                && entries[i].1@ == id.1,
    )
}

impl View for ArtifactLedger {
    type V = Set<Identity>;

    closed spec fn view(&self) -> Set<Identity> {
        identities(self.entries@)
    }
}

/// An event of a run as its store lists it.
#[derive(Debug, PartialEq)]
pub enum StoredEvent {
    /// A file was kept.
    ArtifactCaptured { path: String, content_sha256: String },
    Other,
}

pub enum StoredEventView {
    ArtifactCaptured(Identity),
    Other,
}

impl DeepView for StoredEvent {
    type V = StoredEventView;

    open spec fn deep_view(&self) -> StoredEventView {
        match self {
            StoredEvent::ArtifactCaptured {
                path,
                content_sha256,
            } => StoredEventView::ArtifactCaptured((path@, content_sha256@)),
            StoredEvent::Other => StoredEventView::Other,
        }
    }
}

/// The files that events tell of.
pub open spec fn told_files(events: Seq<StoredEventView>) -> Set<Identity> {
    Set::new(|id: Identity| events.contains(StoredEventView::ArtifactCaptured(id)))
}

/// One more event tells of one more file, or of none.
proof fn lemma_told_file(events: Seq<StoredEventView>, event: StoredEventView)
    ensures
        told_files(events.push(event)) == match event {
            StoredEventView::ArtifactCaptured(id) => told_files(events).insert(id),
            StoredEventView::Other => told_files(events),
        },
{
    let now = events.push(event);
    assert forall|id: Identity| #[trigger]
        told_files(now).contains(id) == (told_files(events).contains(id) || event
            == StoredEventView::ArtifactCaptured(id)) by {
        let e = StoredEventView::ArtifactCaptured(id);
        if events.contains(e) {
            let k = choose|k: int| 0 <= k < events.len() && events[k] == e;
            assert(now[k] == e);
        }
        if event == e {
            assert(now[events.len() as int] == e);
        }
        if now.contains(e) && event != e {
            let k = choose|k: int| 0 <= k < now.len() && now[k] == e;
            assert(events[k] == e);
        }
    }
    match event {
        StoredEventView::ArtifactCaptured(id) => {
            assert(told_files(now) =~= told_files(events).insert(id));
        },
        StoredEventView::Other => {
            assert(told_files(now) =~= told_files(events));
        },
    }
}

/// An event of a run as its store lists it.
pub open spec fn stored(event: EventView) -> StoredEventView {
    match event {
        EventView::ArtifactCaptured(captured) => StoredEventView::ArtifactCaptured(
            (captured.path, captured.content_sha256),
        ),
        _ => StoredEventView::Other,
    }
}

/// The files that are not in a ledger, in order.
pub open spec fn unseen(assets: Seq<ArtifactUploadView>, ledger: Set<Identity>) -> Seq<
    ArtifactUploadView,
> {
    assets.filter(|a: ArtifactUploadView| !ledger.contains(a.identity()))
}

/// The identities of some files.
pub open spec fn identities_of(assets: Seq<ArtifactUploadView>) -> Set<Identity> {
    assets.map_values(|a: ArtifactUploadView| a.identity()).to_set()
}

impl ArtifactLedger {
    pub fn new() -> (r: Self)
        ensures
            r@ == Set::<Identity>::empty(),
    {
        let r = ArtifactLedger { entries: Vec::new() };
        assert(r@ =~= Set::empty());
        r
    }

    /// The ledger of a run, from the files that its events tell of.
    pub fn rebuild(events: &Vec<StoredEvent>) -> (r: Self)
        ensures
            r@ == told_files(events.deep_view()),
    {
        let mut r = ArtifactLedger::new();
        let ghost all = events.deep_view();
        let mut i: usize = 0;
        assert(r@ =~= told_files(all.take(0)));
        while i < events.len()
            invariant
                i <= events@.len(),
                all == events.deep_view(),
                r@ == told_files(all.take(i as int)),
            decreases events@.len() - i,
        {
            proof {
                assert(all.take(i + 1) =~= all.take(i as int).push(all[i as int]));
                lemma_told_file(all.take(i as int), all[i as int]);
            }
            if let StoredEvent::ArtifactCaptured { path, content_sha256 } = &events[i] {
                r.insert(path.clone(), content_sha256.clone());
            }
            i += 1;
        }
        assert(all.take(i as int) =~= all);
        r
    }

    pub fn contains(&self, path: &str, content_sha256: &str) -> (r: bool)
        ensures
            r == self@.contains((path@, content_sha256@)),
    {
        let mut i: usize = 0;
        while i < self.entries.len()
            invariant
                i <= self.entries@.len(),
                forall|k: int|
                    0 <= k < i ==> !((#[trigger] self.entries@[k]).0@ == path@
                        && self.entries@[k].1@ == content_sha256@),
            decreases self.entries@.len() - i,
        {
            if same(self.entries[i].0.as_str(), path) && same(
                self.entries[i].1.as_str(),
                content_sha256,
            ) {
                assert(self.entries@[i as int].0@ == path@);
                return true;
            }
            i += 1;
        }
        false
    }

    fn insert(&mut self, path: String, content_sha256: String)
        ensures
            final(self)@ == old(self)@.insert((path@, content_sha256@)),
    {
        let ghost before = self.entries@;
        let ghost id = (path@, content_sha256@);
        self.entries.push((path, content_sha256));
        proof {
            assert forall|x: Identity|
                identities(self.entries@).contains(x) == identities(before).insert(id).contains(
                    x,
                ) by {
                if identities(before).contains(x) {
                    let k = choose|k: int|
                        0 <= k < before.len() && (#[trigger] before[k]).0@ == x.0 && before[k].1@
                            == x.1;
                    assert(self.entries@[k] == before[k]);
                }
                if x == id {
                    assert(self.entries@[before.len() as int].0@ == x.0);
                }
                if identities(self.entries@).contains(x) && x != id {
                    let k = choose|k: int|
                        0 <= k < self.entries@.len() && (#[trigger] self.entries@[k]).0@ == x.0
                            && self.entries@[k].1@ == x.1;
                    assert(before[k] == self.entries@[k]);
                }
            }
            assert(self@ =~= old(self)@.insert(id));
        }
    }

    /// The files that were not kept yet, in order.
    pub fn new_captured_assets(&self, assets: &Vec<ArtifactUpload>) -> (r: Vec<ArtifactUpload>)
        ensures
            r.deep_view() == unseen(assets.deep_view(), self@),
    {
        let mut r: Vec<ArtifactUpload> = Vec::new();
        let ghost all = assets.deep_view();
        let mut i: usize = 0;
        assert(all.take(0) =~= Seq::empty());
        assert(r.deep_view() =~= Seq::empty());
        reveal(Seq::filter);
        while i < assets.len()
            invariant
                i <= assets@.len(),
                all == assets.deep_view(),
                r.deep_view() == unseen(all.take(i as int), self@),
            decreases assets@.len() - i,
        {
            let ghost had = r.deep_view();
            assert(all.take(i + 1).drop_last() =~= all.take(i as int));
            assert(all.take(i + 1).last() == assets@[i as int]@);
            reveal(Seq::filter);
            let asset = &assets[i];
            if !self.contains(asset.path.as_str(), asset.content_sha256.as_str()) {
                r.push(asset.duplicate());
                assert(r.deep_view() =~= had.push(asset@));
            }
            i += 1;
        }
        assert(all.take(i as int) =~= all);
        r
    }

    /// Notes that files were kept.
    pub fn record_captured_assets(&mut self, assets: &Vec<ArtifactUpload>)
        ensures
            final(self)@ == old(self)@.union(identities_of(assets.deep_view())),
    {
        let ghost start = self@;
        let ghost all = assets.deep_view();
        let ghost ids = all.map_values(|a: ArtifactUploadView| a.identity());
        let mut i: usize = 0;
        assert(start.union(ids.take(0).to_set()) =~= start);
        while i < assets.len()
            invariant
                i <= assets@.len(),
                all == assets.deep_view(),
                ids == all.map_values(|a: ArtifactUploadView| a.identity()),
                self@ == start.union(ids.take(i as int).to_set()),
            decreases assets@.len() - i,
        {
            assert(ids[i as int] == assets@[i as int]@.identity());
            self.insert(assets[i].path.clone(), assets[i].content_sha256.clone());
            proof {
                let now = ids.take(i + 1);
                let was = ids.take(i as int);
                assert(now =~= was.push(ids[i as int]));
                assert forall|x: Identity|
                    now.to_set().contains(x) == was.to_set().insert(ids[i as int]).contains(x) by {
                    if was.contains(x) {
                        let k = choose|k: int| 0 <= k < was.len() && was[k] == x;
                        assert(now[k] == x);
                    }
                    if x == ids[i as int] {
                        assert(now[i as int] == x);
                    }
                }
                assert(self@ =~= start.union(now.to_set()));
            }
            i += 1;
        }
        assert(ids.take(i as int) =~= ids);
    }
}

/// The name of a node's files; later visits have their number in it.
pub open spec fn slug_of(node_id: Seq<char>, visit: u32) -> Seq<char> {
    if visit <= 1 {
        node_id
    } else {
        node_id + "-visit_"@ + decimal(visit as nat)
    }
}

pub fn node_slug(node_id: &str, visit: u32) -> (r: String)
    ensures
        r@ == slug_of(node_id@, visit),
{
    if visit <= 1 {
        node_id.to_owned()
    } else {
        let mut s = concat(node_id, "-visit_");
        s.append(decimal_string(visit as u64).as_str());
        s
    }
}

/// What a notice about a node says.
pub open spec fn notice_text(node_id: Seq<char>, what: Seq<char>, error: Seq<char>) -> Seq<char> {
    "[node: "@ + node_id + "] "@ + what + error
}

/// What went wrong with the files of a node.
pub open spec fn failure_words(code: RunNoticeCode) -> Seq<char> {
    match code {
        RunNoticeCode::ArtifactCollectionFailed => "artifact collection failed: "@,
        RunNoticeCode::ArtifactUploadFailed => "artifact upload failed: "@,
        RunNoticeCode::ArtifactOffloadFailed => "artifact offload failed: "@,
        RunNoticeCode::ArtifactSyncFailed => "artifact sync failed: "@,
    }
}

/// A notice that something went wrong with the files of a node.
pub open spec fn failure_notice(code: RunNoticeCode, node_id: Seq<char>, error: Seq<char>) -> RunNoticeView {
    RunNoticeView {
        level: RunNoticeLevel::Warn,
        code,
        message: notice_text(node_id, failure_words(code), error),
    }
}

/// A notice that something went wrong with the files of a node.
pub fn artifact_notice(code: RunNoticeCode, node_id: &str, error: &str) -> (r: RunNotice)
    ensures
        r@ == failure_notice(code, node_id@, error@),
{
    let words = match code {
        RunNoticeCode::ArtifactCollectionFailed => "artifact collection failed: ",
        RunNoticeCode::ArtifactUploadFailed => "artifact upload failed: ",
        RunNoticeCode::ArtifactOffloadFailed => "artifact offload failed: ",
        RunNoticeCode::ArtifactSyncFailed => "artifact sync failed: ",
    };
    RunNotice { level: RunNoticeLevel::Warn, code, message: noted(node_id, words, error) }
}

fn noted(node_id: &str, what: &str, error: &str) -> (r: String)
    ensures
        r@ == notice_text(node_id@, what@, error@),
{
    let mut s = concat("[node: ", node_id);
    s.append("] ");
    s.append(what);
    s.append(error);
    s
}

/// The errors of a collection, in words.
pub open spec fn problems(download_errors: nat, hash_errors: nat) -> Seq<Seq<char>> {
    (if download_errors > 0 {
        seq![decimal(download_errors) + " download error(s)"@]
    } else {
        Seq::empty()
    }) + (if hash_errors > 0 {
        seq![decimal(hash_errors) + " hash/read error(s)"@]
    } else {
        Seq::empty()
    })
}

/// The notice for a collection that met errors.
pub open spec fn problem_notice(
    node_id: Seq<char>,
    download_errors: nat,
    hash_errors: nat,
) -> Option<RunNoticeView> {
    if download_errors == 0 && hash_errors == 0 {
        None
    } else {
        Some(
            RunNoticeView {
                level: RunNoticeLevel::Warn,
                code: RunNoticeCode::ArtifactCollectionFailed,
                message: notice_text(
                    node_id,
                    "artifact collection completed with "@,
                    join(problems(download_errors, hash_errors), ", "@),
                ),
            },
        )
    }
}

/// The notice for a collection that met errors.
pub fn collection_problem_notice(node_id: &str, summary: &ArtifactCollectionSummary) -> (r: Option<
    RunNotice,
>)
    ensures
        r.deep_view() == problem_notice(
            node_id@,
            summary.download_errors as nat,
            summary.hash_errors as nat,
        ),
{
    if summary.download_errors == 0 && summary.hash_errors == 0 {
        return None;
    }
    let mut parts: Vec<String> = Vec::new();
    assert(parts.deep_view() =~= Seq::empty());
    if summary.download_errors > 0 {
        let n = decimal_string(summary.download_errors as u64);
        push_text(&mut parts, concat(n.as_str(), " download error(s)"));
    }
    if summary.hash_errors > 0 {
        let n = decimal_string(summary.hash_errors as u64);
        push_text(&mut parts, concat(n.as_str(), " hash/read error(s)"));
    }
    assert(parts.deep_view() =~= problems(
        summary.download_errors as nat,
        summary.hash_errors as nat,
    ));
    let text = joined(&parts, ", ");
    Some(
        RunNotice {
            level: RunNoticeLevel::Warn,
            code: RunNoticeCode::ArtifactCollectionFailed,
            message: noted(node_id, "artifact collection completed with ", text.as_str()),
        },
    )
}

/// Why a run cannot start without its ledger. `chain` holds the error and its
/// causes.
pub fn ledger_error(chain: &Vec<String>) -> (r: String)
    ensures
        r@ == "failed to rebuild captured artifact ledger: "@ + join(chain.deep_view(), ": "@),
{
    concat("failed to rebuild captured artifact ledger: ", joined(chain, ": ").as_str())
}

/// The waits between uploads, in milliseconds.
pub const ARTIFACT_UPLOAD_RETRY_DELAYS_MS: [u64; 3] = [100, 250, 500];

/// How long to wait after the failure of an upload. `None` ends the tries.
pub open spec fn delay_after(attempt: nat) -> Option<u64> {
    if attempt == 0 {
        Some(100)
    } else if attempt == 1 {
        Some(250)
    } else if attempt == 2 {
        Some(500)
    } else {
        None
    }
}

/// The tries of an upload.
pub struct UploadTries {
    attempt: usize,
}

/// Why no upload is tried.
pub const NO_SINK: &'static str = "artifact sink is not configured";

impl UploadTries {
    /// Tries that failed.
    pub closed spec fn failures(&self) -> nat {
        self.attempt as nat
    }

    /// The tries of an upload to a sink, where there is one.
    pub fn new(has_sink: bool) -> (r: Result<UploadTries, &'static str>)
        ensures
            match r {
                Ok(tries) => has_sink && tries.failures() == 0,
                Err(message) => !has_sink && message@ == NO_SINK@,
            },
    {
        if has_sink {
            Ok(UploadTries { attempt: 0 })
        } else {
            Err(NO_SINK)
        }
    }

    /// A try failed. Gives the wait before the next, if there is to be one.
    pub fn failed(&mut self) -> (r: Option<u64>)
        ensures
            r == delay_after(old(self).failures()),
            final(self).failures() == if r is Some {
                old(self).failures() + 1
            } else {
                old(self).failures()
            },
    {
        if self.attempt < 3 {
            let delay: u64 = ARTIFACT_UPLOAD_RETRY_DELAYS_MS[self.attempt];
            self.attempt += 1;
            Some(delay)
        } else {
            None
        }
    }
}

/// The events for files that were kept.
pub open spec fn captured_events(
    assets: Seq<ArtifactUploadView>,
    node_id: Seq<char>,
    attempt: u32,
    scope: StageScopeView,
) -> Seq<EmissionView> {
    assets.map_values(
        |a: ArtifactUploadView|
            scoped(
                EventView::ArtifactCaptured(
                    ArtifactCapturedView {
                        node_id,
                        attempt,
                        node_slug: slug_of(node_id, scope.visit),
                        path: a.path,
                        mime: a.mime,
                        content_md5: a.content_md5,
                        content_sha256: a.content_sha256,
                        bytes: a.bytes,
                    },
                ),
                scope,
            ),
    )
}

/// What follows the collection of a stage's files.
#[derive(Debug, PartialEq)]
pub struct Collected {
    pub notice: Option<RunNotice>,
    /// The files to upload; where there are none, nothing more is done.
    pub uploads: Vec<ArtifactUpload>,
}

/// Keeps the files that stages leave.
pub struct ArtifactLifecycle {
    globs: Vec<String>,
    ledger: ArtifactLedger,
    attempt_start: Option<u64>,
}

impl ArtifactLifecycle {
    pub closed spec fn patterns(&self) -> Seq<Seq<char>> {
        self.globs.deep_view()
    }

    pub closed spec fn kept(&self) -> Set<Identity> {
        self.ledger@
    }

    /// When the attempt started, in seconds.
    pub closed spec fn started(&self) -> Option<u64> {
        self.attempt_start
    }

    pub fn new(artifact_globs: Vec<String>) -> (r: Self)
        ensures
            r.patterns() == artifact_globs.deep_view(),
            r.kept() == Set::<Identity>::empty(),
            r.started() is None,
    {
        ArtifactLifecycle {
            globs: artifact_globs,
            ledger: ArtifactLedger::new(),
            attempt_start: None,
        }
    }

    /// A run starts, or starts again. `events` are those that it has sent.
    pub fn on_run_start(&mut self, events: &Vec<StoredEvent>)
        ensures
            final(self).patterns() == old(self).patterns(),
            final(self).kept() == told_files(events.deep_view()),
            final(self).started() is None,
    {
        self.attempt_start = None;
        self.ledger = ArtifactLedger::rebuild(events);
    }

    /// An attempt starts.
    pub fn before_attempt(&mut self, now_secs: u64)
        ensures
            final(self).patterns() == old(self).patterns(),
            final(self).kept() == old(self).kept(),
            final(self).started() == Some(now_secs),
    {
        self.attempt_start = Some(now_secs);
    }

    /// The time from which on files of the attempt are looked for, where any
    /// are.
    pub fn collect_since(&self) -> (r: Option<u64>)
        ensures
            r == if self.patterns().len() == 0 {
                None
            } else {
                Some(
                    match self.started() {
                        Some(at) => at,
                        None => 0,
                    },
                )
            },
    {
        if self.globs.len() == 0 {
            return None;
        }
        match self.attempt_start {
            Some(at) => Some(at),
            None => Some(0),
        }
    }

    /// The files of an attempt were collected.
    pub fn collected(&self, node_id: &str, summary: &ArtifactCollectionSummary) -> (r: Collected)
        ensures
            r.notice.deep_view() == problem_notice(
                node_id@,
                summary.download_errors as nat,
                summary.hash_errors as nat,
            ),
            r.uploads.deep_view() == unseen(summary.captured_assets.deep_view(), self.kept()),
    {
        Collected {
            notice: collection_problem_notice(node_id, summary),
            uploads: self.ledger.new_captured_assets(&summary.captured_assets),
        }
    }

    /// The files of an attempt were uploaded, or could not be. Files that could
    /// not be are looked for again.
    pub fn uploaded(
        &mut self,
        node_id: &str,
        attempt: u32,
        scope: &StageScope,
        uploads: &Vec<ArtifactUpload>,
        error: Option<&str>,
    ) -> (r: Vec<Emission>)
        ensures
            final(self).patterns() == old(self).patterns(),
            final(self).started() == old(self).started(),
            match error {
                Some(e) => {
                    &&& final(self).kept() == old(self).kept()
                    &&& r.deep_view() == seq![
                        unscoped(
                            EventView::RunNotice(
                                failure_notice(
                                    RunNoticeCode::ArtifactUploadFailed,
                                    node_id@,
                                    e@,
                                ),
                            ),
                        ),
                    ]
                },
                None => {
                    &&& final(self).kept() == old(self).kept().union(
                        identities_of(uploads.deep_view()),
                    )
                    &&& r.deep_view() == captured_events(
                        uploads.deep_view(),
                        node_id@,
                        attempt,
                        scope@,
                    )
                },
            },
    {
        let mut sent: Vec<Emission> = Vec::new();
        assert(sent.deep_view() =~= Seq::empty());
        if let Some(e) = error {
            push_emission(
                &mut sent,
                Event::RunNotice(
                    artifact_notice(RunNoticeCode::ArtifactUploadFailed, node_id, e),
                ),
                None,
            );
            return sent;
        }
        self.ledger.record_captured_assets(uploads);
        let ghost all = uploads.deep_view();
        let ghost model = captured_events(all, node_id@, attempt, scope@);
        let slug = node_slug(node_id, scope.visit);
        let mut i: usize = 0;
        while i < uploads.len()
            invariant
                i <= uploads@.len(),
                all == uploads.deep_view(),
                model == captured_events(all, node_id@, attempt, scope@),
                slug@ == slug_of(node_id@, scope@.visit),
                sent.deep_view() == model.take(i as int),
            decreases uploads@.len() - i,
        {
            let asset = &uploads[i];
            assert(all[i as int] == asset@);
            push_emission(
                &mut sent,
                Event::ArtifactCaptured(
                    ArtifactCaptured {
                        node_id: node_id.to_owned(),
                        attempt,
                        node_slug: slug.clone(),
                        path: asset.path.clone(),
                        mime: asset.mime.clone(),
                        content_md5: asset.content_md5.clone(),
                        content_sha256: asset.content_sha256.clone(),
                        bytes: asset.bytes,
                    },
                ),
                Some(scope.duplicate()),
            );
            assert(model.take(i + 1) =~= model.take(i as int).push(model[i as int]));
            i += 1;
        }
        assert(model.take(i as int) =~= model);
        sent
    }
}

/// What a run keeps survives its start: the events of an upload tell of the
/// uploaded files, and of no others.
pub proof fn lemma_ledger_survives_restart(
    before: Seq<StoredEventView>,
    assets: Seq<ArtifactUploadView>,
    node_id: Seq<char>,
    attempt: u32,
    scope: StageScopeView,
)
    ensures
        told_files(
            before + captured_events(assets, node_id, attempt, scope).map_values(
                |e: EmissionView| stored(e.event),
            ),
        ) == told_files(before).union(identities_of(assets)),
{
    let sent = captured_events(assets, node_id, attempt, scope).map_values(
        |e: EmissionView| stored(e.event),
    );
    let ids = assets.map_values(|a: ArtifactUploadView| a.identity());
    let now = before + sent;
    assert forall|id: Identity| #[trigger]
        told_files(now).contains(id) == (told_files(before).contains(id) || identities_of(
            assets,
        ).contains(id)) by {
        let e = StoredEventView::ArtifactCaptured(id);
        if before.contains(e) {
            let k = choose|k: int| 0 <= k < before.len() && before[k] == e;
            assert(now[k] == e);
        }
        if ids.contains(id) {
            let k = choose|k: int| 0 <= k < ids.len() && ids[k] == id;
            assert(sent[k] == e);
            assert(now[before.len() + k] == e);
        }
        if now.contains(e) && !before.contains(e) {
            let k = choose|k: int| 0 <= k < now.len() && now[k] == e;
            if k < before.len() {
                assert(before[k] == e);
            }
            assert(ids[k - before.len()] == id);
        }
    }
    assert(told_files(now) =~= told_files(before).union(identities_of(assets)));
}

/// Files that were kept are not uploaded again.
pub proof fn lemma_kept_files_are_not_new(assets: Seq<ArtifactUploadView>, ledger: Set<Identity>)
    ensures
        unseen(assets, ledger.union(identities_of(assets))).len() == 0,
    decreases assets.len(),
{
    lemma_known_files_are_not_new(assets, ledger.union(identities_of(assets)), assets);
}

proof fn lemma_known_files_are_not_new(
    assets: Seq<ArtifactUploadView>,
    ledger: Set<Identity>,
    known: Seq<ArtifactUploadView>,
)
    requires
        identities_of(known).subset_of(ledger),
        assets.len() <= known.len(),
        assets =~= known.take(assets.len() as int),
    ensures
        unseen(assets, ledger).len() == 0,
    decreases assets.len(),
{
    reveal(Seq::filter);
    if assets.len() > 0 {
        lemma_known_files_are_not_new(assets.drop_last(), ledger, known);
        let ids = known.map_values(|a: ArtifactUploadView| a.identity());
        let at = assets.len() - 1;
        assert(ids[at] == assets.last().identity());
        assert(identities_of(known).contains(ids[at]));
    }
}

/// Every file to upload was found, and was not kept before.
pub proof fn lemma_uploads_are_new(
    assets: Seq<ArtifactUploadView>,
    ledger: Set<Identity>,
    asset: ArtifactUploadView,
)
    requires
        unseen(assets, ledger).contains(asset),
    ensures
        assets.contains(asset),
        !ledger.contains(asset.identity()),
    decreases assets.len(),
{
    reveal(Seq::filter);
    if assets.len() > 0 {
        let rest = assets.drop_last();
        if unseen(rest, ledger).contains(asset) {
            lemma_uploads_are_new(rest, ledger, asset);
            let k = choose|k: int| 0 <= k < rest.len() && rest[k] == asset;
            assert(assets[k] == asset);
        } else {
            let all = unseen(assets, ledger);
            let k = choose|k: int| 0 <= k < all.len() && all[k] == asset;
            let kept = unseen(rest, ledger);
            if k < kept.len() {
                assert(kept[k] == asset);
            }
            assert(assets[assets.len() - 1] == asset);
        }
    }
}

/// An upload is tried four times and no more.
pub proof fn lemma_uploads_end(failures: nat)
    ensures
        delay_after(failures) is Some <==> failures < 3,
{
}

/// Every file that was found and was not kept before is uploaded.
pub proof fn lemma_new_files_are_uploaded(
    assets: Seq<ArtifactUploadView>,
    ledger: Set<Identity>,
    i: int,
)
    requires
        0 <= i < assets.len(),
        !ledger.contains((assets[i].path, assets[i].content_sha256)),
    ensures
        unseen(assets, ledger).contains(assets[i]),
    decreases assets.len(),
{
    reveal(Seq::filter);
    let rest = assets.drop_last();
    let had = unseen(rest, ledger);
    let all = unseen(assets, ledger);
    if i < assets.len() - 1 {
        assert(rest[i] == assets[i]);
        lemma_new_files_are_uploaded(rest, ledger, i);
        let k = choose|k: int| 0 <= k < had.len() && had[k] == assets[i];
        assert(all[k] == assets[i]);
    } else {
        assert(all[all.len() - 1] == assets[i]);
    }
}

/// Every uploaded file is told, in order and in the scope of its stage, as it is;
/// the files of a later visit of a node are told under the node and the visit.
pub proof fn lemma_uploads_are_told(
    assets: Seq<ArtifactUploadView>,
    node_id: Seq<char>,
    attempt: u32,
    scope: StageScopeView,
    i: int,
)
    requires
        0 <= i < assets.len(),
    ensures
        ({
            let sent = captured_events(assets, node_id, attempt, scope);
            &&& sent.len() == assets.len()
            &&& sent[i].scope == Some(scope)
            &&& sent[i].event matches EventView::ArtifactCaptured(e) && {
                &&& e.node_id == node_id && e.attempt == attempt
                &&& e.path == assets[i].path && e.mime == assets[i].mime
                &&& e.content_md5 == assets[i].content_md5
                &&& e.content_sha256 == assets[i].content_sha256 && e.bytes == assets[i].bytes
                &&& scope.visit <= 1 ==> e.node_slug == node_id
                &&& scope.visit > 1 ==> e.node_slug == node_id + "-visit_"@ + decimal(
                    scope.visit as nat,
                )
            }
        }),
{
}

/// A failed upload is tried again after a tenth, a quarter and a half of a second,
/// and then no more.
pub proof fn lemma_upload_waits(failures: nat)
    ensures
        failures == 0 ==> delay_after(failures) == Some(100u64),
        failures == 1 ==> delay_after(failures) == Some(250u64),
        failures == 2 ==> delay_after(failures) == Some(500u64),
        failures > 2 ==> delay_after(failures) is None,
{
}

/// A collection is noted exactly where a file could not be downloaded or read; the
/// note is a warning that names the node and how many there were of each.
pub proof fn lemma_collection_errors_are_noted(
    node_id: Seq<char>,
    download_errors: nat,
    hash_errors: nat,
)
    ensures
        ({
            let r = problem_notice(node_id, download_errors, hash_errors);
            &&& r is None <==> download_errors == 0 && hash_errors == 0
            &&& r matches Some(n) ==> {
                &&& n.level == RunNoticeLevel::Warn
                &&& n.code == RunNoticeCode::ArtifactCollectionFailed
                &&& ("[node: "@ + node_id + "] "@).is_prefix_of(n.message)
                &&& download_errors > 0 ==> crate::text::within(
                    decimal(download_errors) + " download error(s)"@,
                    n.message,
                )
                &&& hash_errors > 0 ==> crate::text::within(
                    decimal(hash_errors) + " hash/read error(s)"@,
                    n.message,
                )
            }
        }),
{
    if download_errors > 0 || hash_errors > 0 {
        let parts = problems(download_errors, hash_errors);
        let lead = "[node: "@ + node_id + "] "@;
        let what = "artifact collection completed with "@;
        let list = join(parts, ", "@);
        let message = notice_text(node_id, what, list);
        assert(message =~= lead + (what + list));
        assert(message =~= (lead + what) + list + Seq::<char>::empty());
        if download_errors > 0 {
            let part = decimal(download_errors) + " download error(s)"@;
            assert(parts =~= Seq::<Seq<char>>::empty() + seq![part] + parts.skip(1));
            crate::text::lemma_joined_parts_are_within(
                Seq::empty(),
                seq![part],
                parts.skip(1),
                ", "@,
            );
            assert(join(seq![part], ", "@) == part);
            crate::text::lemma_within_chains(part, list, message);
        }
        if hash_errors > 0 {
            let part = decimal(hash_errors) + " hash/read error(s)"@;
            let n = parts.len() - 1;
            assert(parts =~= parts.take(n) + seq![part] + Seq::<Seq<char>>::empty());
            crate::text::lemma_joined_parts_are_within(
                parts.take(n),
                seq![part],
                Seq::empty(),
                ", "@,
            );
            assert(join(seq![part], ", "@) == part);
            crate::text::lemma_within_chains(part, list, message);
        }
    }
}

/// Files are looked for only where the run keeps some, and then from the start of
/// the attempt on.
pub proof fn lemma_files_are_looked_for_since_the_attempt(
    lifecycle: &ArtifactLifecycle,
    r: Option<u64>,
)
    requires
        call_ensures(ArtifactLifecycle::collect_since, (lifecycle,), r),
    ensures
        r is None <==> lifecycle.patterns().len() == 0,
        lifecycle.patterns().len() > 0 ==> {
            &&& lifecycle.started() matches Some(at) ==> r == Some(at)
            &&& lifecycle.started() is None ==> r == Some(0u64)
        },
{
}

/// The notice of a collection tells of the errors that it met and of no others: of
/// one kind alone where only that kind came up, and of downloads first.
pub proof fn lemma_errors_that_did_not_happen_are_not_told(node_id: Seq<char>, n: nat, m: nat)
    requires
        n > 0,
        m > 0,
    ensures
        ({
            let lead = "[node: "@ + node_id + "] "@ + "artifact collection completed with "@;
            let loads = decimal(n) + " download error(s)"@;
            let reads = decimal(m) + " hash/read error(s)"@;
            &&& problem_notice(node_id, n, 0).unwrap().message == lead + loads
            &&& problem_notice(node_id, 0, m).unwrap().message == lead + reads
            &&& problem_notice(node_id, n, m).unwrap().message == lead + (loads + ", "@ + reads)
        }),
{
    let loads = decimal(n) + " download error(s)"@;
    let reads = decimal(m) + " hash/read error(s)"@;
    assert(problems(n, 0) =~= seq![loads]);
    assert(problems(0, m) =~= seq![reads]);
    assert(problems(n, m) =~= seq![loads] + seq![reads]);
    crate::text::lemma_join_adds(seq![loads], seq![reads], ", "@);
    assert(join(seq![loads], ", "@) == loads);
    assert(join(seq![reads], ", "@) == reads);
}

/// What goes wrong with the files of a node is a warning of its own kind, which names
/// the node and ends with the error.
pub proof fn lemma_file_failures_are_warnings(
    code: RunNoticeCode,
    node_id: Seq<char>,
    error: Seq<char>,
)
    ensures
        ({
            let n = failure_notice(code, node_id, error);
            &&& n.level is Warn && n.code == code
            &&& ("[node: "@ + node_id + "] "@).is_prefix_of(n.message)
            &&& error.is_suffix_of(n.message)
        }),
{
    let message = failure_notice(code, node_id, error).message;
    let lead = "[node: "@ + node_id + "] "@;
    assert(message =~= lead + (failure_words(code) + error));
    assert(message.take(lead.len() as int) =~= lead);
    assert(message.skip(message.len() - error.len()) =~= error);
}

} // verus!
