//! Applying one operation to every managed worktree: linking the configured
//! files into them, and removing links from them. What comes of each
//! worktree is recorded on its own; one that fails does not keep the others
//! from being tried.
//!
//! The work on the file system is the caller's: a run names the step to
//! take and is told what came of it.

use crate::config::{Config, FileEntry, FileEntryView, LinkType};
use crate::error::{message_of, WorktreeError, WorktreeErrorView};
use crate::path::{join, path_join};
use crate::worktree::{name_of, worktree_dir, worktree_name, worktree_path, Worktree, WorktreeView};
use vstd::prelude::*;

verus! {

/// What came of linking files into worktrees.
#[derive(Debug, Clone, PartialEq, Eq)]
pub struct LinkReport {
    /// The worktree's name and the path that now holds the file, for each success.
    pub linked: Vec<(String, String)>,
    /// The worktree's name, the path and the error, for each failure.
    pub failed: Vec<(String, String, String)>,
}

/// The mathematical value of a `LinkReport`, and of a `SymlinkRemovalReport`.
pub struct ReportView {
    pub done: Seq<(Seq<char>, Seq<char>)>,
    pub failed: Seq<(Seq<char>, Seq<char>, Seq<char>)>,
}

impl View for LinkReport {
    type V = ReportView;

    open spec fn view(&self) -> ReportView {
        ReportView { done: self.linked.deep_view(), failed: self.failed.deep_view() }
    }
}

impl Default for LinkReport {
    fn default() -> (r: Self)
        ensures
            r@.done.len() == 0,
            r@.failed.len() == 0,
    {
        LinkReport { linked: Vec::new(), failed: Vec::new() }
    }
}

/// What came of removing links from worktrees.
#[derive(Debug, Clone, PartialEq, Eq)]
pub struct SymlinkRemovalReport {
    /// The worktree's name and the path of the link, for each link removed.
    pub removed: Vec<(String, String)>,
    /// The worktree's name, the path and the error, for each failure.
    pub failed: Vec<(String, String, String)>,
}

impl View for SymlinkRemovalReport {
    type V = ReportView;

    open spec fn view(&self) -> ReportView {
        ReportView { done: self.removed.deep_view(), failed: self.failed.deep_view() }
    }
}

/// `report` with one more success.
pub open spec fn with_done(report: ReportView, name: Seq<char>, path: Seq<char>) -> ReportView {
    ReportView { done: report.done.push((name, path)), ..report }
}

/// `report` with one more failure.
pub open spec fn with_failed(report: ReportView, name: Seq<char>, path: Seq<char>, why: Seq<char>) -> ReportView {
    ReportView { failed: report.failed.push((name, path, why)), ..report }
}

/// The step that a run of links asks for.
#[derive(Debug, Clone, PartialEq, Eq)]
pub enum RunAction {
    /// Find out whether the source is there.
    Probe { source: String },
    /// Bring `source` to `destination`.
    Link { source: String, destination: String, link_type: LinkType },
    /// Nothing is left to do.
    Finish,
}

/// The mathematical value of a `RunAction`.
pub enum RunActionView {
    Probe { source: Seq<char> },
    Link { source: Seq<char>, destination: Seq<char>, link_type: LinkType },
    Finish,
}

impl View for RunAction {
    type V = RunActionView;

    open spec fn view(&self) -> RunActionView {
        match self {
            RunAction::Probe { source } => RunActionView::Probe { source: source@ },
            RunAction::Link { source, destination, link_type } => RunActionView::Link {
                source: source@,
                destination: destination@,
                link_type: *link_type,
            },
            RunAction::Finish => RunActionView::Finish,
        }
    }
}

/// What came of a step of a run of links.
#[derive(Debug, Clone, PartialEq, Eq)]
pub enum RunEvent {
    /// The source is there.
    Found,
    /// The source is not there.
    Missing,
    /// The file was brought to its destination.
    Linked,
    /// Bringing the file to its destination failed.
    Failed(WorktreeError),
}

/// The mathematical value of a `RunEvent`.
pub enum RunEventView {
    Found,
    Missing,
    Linked,
    Failed(WorktreeErrorView),
}

impl View for RunEvent {
    type V = RunEventView;

    open spec fn view(&self) -> RunEventView {
        match self {
            RunEvent::Found => RunEventView::Found,
            RunEvent::Missing => RunEventView::Missing,
            RunEvent::Linked => RunEventView::Linked,
            RunEvent::Failed(e) => RunEventView::Failed(e@),
        }
    }
}

/// A run that links files into worktrees: each entry in turn, and for each
/// entry whose source is there, each target in turn.
#[derive(Debug, Clone, PartialEq, Eq)]
pub struct LinkRun {
    /// The repository root, which holds the sources.
    pub root: String,
    pub entries: Vec<FileEntry>,
    pub targets: Vec<Worktree>,
    /// Whether a failure is recorded and the run goes on. Where it is not,
    /// the first failure ends the run.
    pub isolate: bool,
    /// The entry that is being linked.
    pub entry: usize,
    /// The target that comes next for that entry.
    pub target: usize,
    /// Whether the source of that entry is known to be there.
    pub probed: bool,
    pub report: LinkReport,
    /// The failure that ended the run.
    pub failure: Option<WorktreeError>,
}

/// The mathematical value of a `LinkRun`.
pub struct LinkRunView {
    pub root: Seq<char>,
    pub entries: Seq<FileEntryView>,
    pub targets: Seq<WorktreeView>,
    pub isolate: bool,
    pub entry: nat,
    pub target: nat,
    pub probed: bool,
    pub report: ReportView,
    pub failure: Option<WorktreeErrorView>,
}

impl View for LinkRun {
    type V = LinkRunView;

    open spec fn view(&self) -> LinkRunView {
        LinkRunView {
            root: self.root@,
            entries: self.entries.deep_view(),
            targets: self.targets.deep_view(),
            isolate: self.isolate,
            entry: self.entry as nat,
            target: self.target as nat,
            probed: self.probed,
            report: self.report@,
            failure: match self.failure {
                Some(e) => Some(e@),
                None => None,
            },
        }
    }
}

/// A run at its start.
pub open spec fn run_start(
    root: Seq<char>,
    entries: Seq<FileEntryView>,
    targets: Seq<WorktreeView>,
    isolate: bool,
) -> LinkRunView {
    LinkRunView {
        root,
        entries,
        targets,
        isolate,
        entry: 0,
        target: 0,
        probed: false,
        report: ReportView { done: Seq::empty(), failed: Seq::empty() },
        failure: None,
    }
}

/// Whether the run `v` is over: it has failed, or has no target, or no entry is left.
pub open spec fn run_over(v: LinkRunView) -> bool {
    v.failure is Some || v.targets.len() == 0 || v.entry >= v.entries.len() || v.target
        >= v.targets.len()
}

/// The source of the entry that `v` is at.
pub open spec fn run_source(v: LinkRunView) -> Seq<char> {
    join(v.root, v.entries[v.entry as int].path)
}

/// The destination of the entry that `v` is at, in the target that `v` is at.
pub open spec fn run_destination(v: LinkRunView) -> Seq<char> {
    join(v.targets[v.target as int].path, v.entries[v.entry as int].path)
}

/// The step that the run `v` asks for.
pub open spec fn run_action(v: LinkRunView) -> RunActionView {
    if run_over(v) {
        RunActionView::Finish
    } else if !v.probed {
        RunActionView::Probe { source: run_source(v) }
    } else {
        RunActionView::Link {
            source: run_source(v),
            destination: run_destination(v),
            link_type: v.entries[v.entry as int].link_type,
        }
    }
}

/// The run `v` at its next entry.
pub open spec fn next_entry(v: LinkRunView) -> LinkRunView {
    LinkRunView { entry: v.entry + 1, target: 0, probed: false, ..v }
}

/// The run `v` at its next target, which is the first target of the next
/// entry where the current entry has no target left.
pub open spec fn next_target(v: LinkRunView) -> LinkRunView {
    if v.target + 1 >= v.targets.len() {
        next_entry(v)
    } else {
        LinkRunView { target: v.target + 1, ..v }
    }
}

/// The run `v` after its step was answered by `event`. An entry whose
/// source is missing is passed over for every target. A link that failed is
/// recorded, and the run goes on with the next target, where the run
/// isolates failures; else it ends the run. An answer that does not fit the
/// step changes nothing.
pub open spec fn run_after(v: LinkRunView, event: RunEventView) -> LinkRunView {
    match (run_action(v), event) {
        (RunActionView::Probe { .. }, RunEventView::Found) => LinkRunView { probed: true, ..v },
        (RunActionView::Probe { .. }, RunEventView::Missing) => next_entry(v),
        (RunActionView::Link { destination, .. }, RunEventView::Linked) => next_target(
            LinkRunView {
                report: with_done(v.report, v.targets[v.target as int].name, destination),
                ..v
            },
        ),
        (RunActionView::Link { destination, .. }, RunEventView::Failed(e)) => if v.isolate {
            next_target(
                LinkRunView {
                    report: with_failed(
                        v.report,
                        v.targets[v.target as int].name,
                        destination,
                        message_of(e),
                    ),
                    ..v
                },
            )
        } else {
            LinkRunView { failure: Some(e), ..v }
        },
        _ => v,
    }
}

/// Whether the run `v` stands at a place that it can have reached: at an
/// entry or behind the last one, at a target of that entry, and sure of
/// the entry's source only where there is such an entry.
pub open spec fn run_in_bounds(v: LinkRunView) -> bool {
    &&& v.entry <= v.entries.len()
    &&& v.target == 0 || v.target < v.targets.len()
    &&& v.probed ==> v.entry < v.entries.len()
    &&& v.target > 0 ==> v.probed
}

/// A run starts in bounds and stays there whatever it is told.
pub proof fn lemma_run_stays_in_bounds(v: LinkRunView, event: RunEventView)
    ensures
        run_in_bounds(run_start(v.root, v.entries, v.targets, v.isolate)),
        run_in_bounds(v) ==> run_in_bounds(run_after(v, event)),
{
}

/// A copy of `entries`.
pub fn copy_entries(entries: &Vec<FileEntry>) -> (out: Vec<FileEntry>)
    ensures
        out.deep_view() == entries.deep_view(),
{
    let mut out: Vec<FileEntry> = Vec::new();
    let mut k: usize = 0;
    while k < entries.len()
        invariant
            k <= entries@.len(),
            out@.len() == k,
            forall|i: int| 0 <= i < k ==> (#[trigger] out@[i])@ == entries@[i]@,
        decreases entries@.len() - k,
    {
        let e = &entries[k];
        out.push(FileEntry { path: e.path.clone(), link_type: e.link_type });
        k += 1;
    }
    assert(out.deep_view() =~= entries.deep_view());
    out
}

/// Starts linking `entries` from the repository at `project_root` into
/// every one of `worktrees`. Each failure is recorded and the run goes on.
pub fn link_entries_to_worktrees(
    project_root: &str,
    entries: Vec<FileEntry>,
    worktrees: Vec<Worktree>,
) -> (out: LinkRun)
    ensures
        out@ == run_start(project_root@, entries.deep_view(), worktrees.deep_view(), true),
{
    let out = LinkRun {
        root: project_root.to_owned(),
        entries,
        targets: worktrees,
        isolate: true,
        entry: 0,
        target: 0,
        probed: false,
        report: LinkReport { linked: Vec::new(), failed: Vec::new() },
        failure: None,
    };
    assert(out@.report.done =~= Seq::empty());
    assert(out@.report.failed =~= Seq::empty());
    out
}

/// The one target that the worktree at `path` is.
pub open spec fn sole_target(path: Seq<char>) -> Seq<WorktreeView> {
    seq![WorktreeView { name: name_of(path), path, branch: Seq::empty() }]
}

/// Starts linking the files of `config` from the repository at
/// `project_root` into the worktree at `worktree_path`. The first failure
/// ends the run.
pub fn link_files(project_root: &str, worktree_path: &str, config: &Config) -> (out: LinkRun)
    ensures
        out@ == run_start(project_root@, config@.files, sole_target(worktree_path@), false),
{
    let mut targets: Vec<Worktree> = Vec::new();
    targets.push(
        Worktree {
            name: worktree_name(worktree_path),
            path: worktree_path.to_owned(),
            branch: String::new(),
        },
    );
    assert(targets.deep_view() =~= sole_target(worktree_path@));
    let out = LinkRun {
        root: project_root.to_owned(),
        entries: copy_entries(&config.files),
        targets,
        isolate: false,
        entry: 0,
        target: 0,
        probed: false,
        report: LinkReport { linked: Vec::new(), failed: Vec::new() },
        failure: None,
    };
    assert(out@.report.done =~= Seq::empty());
    assert(out@.report.failed =~= Seq::empty());
    out
}

/// Starts linking the files of `config` into the worktree called `name`
/// again, which must be there: `present` says whether its directory is.
pub fn relink_worktree(project_root: &str, name: &str, present: bool, config: &Config) -> (r: Result<
    LinkRun,
    WorktreeError,
>)
    ensures
        present ==> r is Ok && r->Ok_0@ == run_start(
            project_root@,
            config@.files,
            sole_target(worktree_dir(project_root@, name@)),
            false,
        ),
        !present ==> r is Err && r->Err_0@ == (WorktreeErrorView::NotFound {
            name: name@,
            known: None,
        }),
{
    if !present {
        return Err(WorktreeError::NotFound { name: name.to_owned(), known: None });
    }
    let path = worktree_path(project_root, name);
    Ok(link_files(project_root, path.as_str(), config))
}

impl LinkRun {
    /// Whether the run is over.
    fn over(&self) -> (r: bool)
        ensures
            r == run_over(self@),
    {
        self.failure.is_some() || self.targets.len() == 0 || self.entry >= self.entries.len()
            || self.target >= self.targets.len()
    }

    /// The step to take now.
    pub fn action(&self) -> (out: RunAction)
        ensures
            out@ == run_action(self@),
    {
        if self.over() {
            return RunAction::Finish;
        }
        let e = &self.entries[self.entry];
        let source = path_join(self.root.as_str(), e.path.as_str());
        if !self.probed {
            RunAction::Probe { source }
        } else {
            let t = &self.targets[self.target];
            RunAction::Link {
                source,
                destination: path_join(t.path.as_str(), e.path.as_str()),
                link_type: e.link_type,
            }
        }
    }

    /// Moves on to the next entry.
    fn to_next_entry(&mut self)
        requires
            old(self).entry < old(self).entries@.len(),
        ensures
            final(self)@ == next_entry(old(self)@),
    {
        let count = self.entries.len();
        assert(self.entry < count);
        self.entry = self.entry + 1;
        self.target = 0;
        self.probed = false;
    }

    /// Moves on to the next target.
    fn to_next_target(&mut self)
        requires
            old(self).entry < old(self).entries@.len(),
            old(self).target < old(self).targets@.len(),
        ensures
            final(self)@ == next_target(old(self)@),
    {
        let count = self.targets.len();
        if self.target + 1 >= count {
            self.to_next_entry();
        } else {
            self.target = self.target + 1;
        }
    }

    /// Takes in what came of the step that `action` gave.
    pub fn advance(&mut self, event: RunEvent)
        ensures
            final(self)@ == run_after(old(self)@, event@),
    {
        if self.over() {
            return ;
        }
        if !self.probed {
            match event {
                RunEvent::Found => {
                    self.probed = true;
                },
                RunEvent::Missing => {
                    self.to_next_entry();
                },
                _ => {},
            }
            return ;
        }
        let name = self.targets[self.target].name.clone();
        let destination = path_join(
            self.targets[self.target].path.as_str(),
            self.entries[self.entry].path.as_str(),
        );
        match event {
            RunEvent::Linked => {
                let ghost before = self.report@;
                self.report.linked.push((name, destination));
                assert(self.report@.done =~= before.done.push((name@, destination@)));
                self.to_next_target();
            },
            RunEvent::Failed(e) => {
                if self.isolate {
                    let ghost before = self.report@;
                    let why = e.message();
                    self.report.failed.push((name, destination, why));
                    assert(self.report@.failed =~= before.failed.push(
                        (name@, destination@, why@),
                    ));
                    self.to_next_target();
                } else {
                    self.failure = Some(e);
                }
            },
            _ => {},
        }
    }

    /// How a run that does not isolate failures ended, once it is over:
    /// well, or with the failure that ended it.
    pub fn result(&self) -> (out: Option<Result<(), WorktreeError>>)
        ensures
            !run_over(self@) ==> out is None,
            run_over(self@) && self@.failure is None ==> out is Some && out->0 is Ok,
            run_over(self@) && self@.failure is Some ==> out is Some && out->0 is Err
                && out->0->Err_0@ == self@.failure->0,
    {
        if !self.over() {
            return None;
        }
        match &self.failure {
            None => Some(Ok(())),
            Some(e) => Some(Err(e.duplicate())),
        }
    }
}

/// The answer that stands for the outcome of one link: none for a
/// success, the error for a failure.
pub open spec fn outcome_event(outcome: Option<WorktreeErrorView>) -> RunEventView {
    match outcome {
        None => RunEventView::Linked,
        Some(e) => RunEventView::Failed(e),
    }
}

/// The run `v` after its next links came out as `outcomes` say, in order.
pub open spec fn run_after_all(v: LinkRunView, outcomes: Seq<Option<WorktreeErrorView>>) -> LinkRunView
    decreases outcomes.len(),
{
    if outcomes.len() == 0 {
        v
    } else {
        run_after(run_after_all(v, outcomes.drop_last()), outcome_event(outcomes.last()))
    }
}

/// `report` after the file at `rel` was linked into the first targets with
/// the `outcomes` given: for each target, in order, one row among the
/// successes or one among the failures, as its outcome says.
pub open spec fn round_report(
    report: ReportView,
    targets: Seq<WorktreeView>,
    rel: Seq<char>,
    outcomes: Seq<Option<WorktreeErrorView>>,
) -> ReportView
    decreases outcomes.len(),
{
    if outcomes.len() == 0 {
        report
    } else {
        let before = round_report(report, targets, rel, outcomes.drop_last());
        let t = targets[outcomes.len() - 1];
        match outcomes.last() {
            None => with_done(before, t.name, join(t.path, rel)),
            Some(e) => with_failed(before, t.name, join(t.path, rel), message_of(e)),
        }
    }
}

/// A run that isolates failures tries every target of an entry whatever
/// comes of the others: after the outcomes of the first targets, each of
/// them has its one row in the report, and the run stands at the target
/// that follows them, or at the next entry when they were all.
pub proof fn lemma_round_isolates(v: LinkRunView, outcomes: Seq<Option<WorktreeErrorView>>)
    requires
        v.isolate,
        v.failure is None,
        v.probed,
        v.target == 0,
        v.entry < v.entries.len(),
        outcomes.len() <= v.targets.len(),
    ensures
        run_after_all(v, outcomes).report == round_report(
            v.report,
            v.targets,
            v.entries[v.entry as int].path,
            outcomes,
        ),
        outcomes.len() < v.targets.len() ==> run_after_all(v, outcomes) == (LinkRunView {
            target: outcomes.len(),
            report: run_after_all(v, outcomes).report,
            ..v
        }),
        0 < outcomes.len() == v.targets.len() ==> run_after_all(v, outcomes) == (LinkRunView {
            report: run_after_all(v, outcomes).report,
            ..next_entry(v)
        }),
    decreases outcomes.len(),
{
    if outcomes.len() > 0 {
        lemma_round_isolates(v, outcomes.drop_last());
    }
}

/// Every outcome adds one row to the report: to the successes or to the
/// failures, never to both.
pub proof fn lemma_round_counts(
    report: ReportView,
    targets: Seq<WorktreeView>,
    rel: Seq<char>,
    outcomes: Seq<Option<WorktreeErrorView>>,
)
    ensures
        round_report(report, targets, rel, outcomes).done.len() + round_report(
            report,
            targets,
            rel,
            outcomes,
        ).failed.len() == report.done.len() + report.failed.len() + outcomes.len(),
        round_report(report, targets, rel, outcomes).failed.len() - report.failed.len()
            == outcomes.filter(|o: Option<WorktreeErrorView>| o is Some).len(),
    decreases outcomes.len(),
{
    reveal(Seq::filter);
    if outcomes.len() > 0 {
        lemma_round_counts(report, targets, rel, outcomes.drop_last());
    }
}

/// The run `v` after a whole entry: its source was missing, where `round`
/// is none, or was found and the links into the targets came out as `round` says.
pub open spec fn run_after_round(v: LinkRunView, round: Option<Seq<Option<WorktreeErrorView>>>) -> LinkRunView {
    match round {
        None => run_after(v, RunEventView::Missing),
        Some(outcomes) => run_after_all(run_after(v, RunEventView::Found), outcomes),
    }
}

/// The run `v` after one entry after the other went as `rounds` say.
pub open spec fn run_through(v: LinkRunView, rounds: Seq<Option<Seq<Option<WorktreeErrorView>>>>) -> LinkRunView
    decreases rounds.len(),
{
    if rounds.len() == 0 {
        v
    } else {
        run_after_round(run_through(v, rounds.drop_last()), rounds.last())
    }
}

/// `report` after the first entries went as `rounds` say: an entry whose
/// source was missing adds nothing, and every other one adds one row for
/// each target.
pub open spec fn whole_report(
    report: ReportView,
    targets: Seq<WorktreeView>,
    entries: Seq<FileEntryView>,
    rounds: Seq<Option<Seq<Option<WorktreeErrorView>>>>,
) -> ReportView
    decreases rounds.len(),
{
    if rounds.len() == 0 {
        report
    } else {
        let before = whole_report(report, targets, entries, rounds.drop_last());
        match rounds.last() {
            None => before,
            Some(outcomes) => round_report(
                before,
                targets,
                entries[rounds.len() - 1].path,
                outcomes,
            ),
        }
    }
}

/// A run that isolates failures reports every pair of an entry and a
/// worktree that it tried, once, in the order of the entries and then of
/// the worktrees, and passes over the entries whose source is missing:
/// after the first entries it stands at the entry that follows them with
/// exactly that report, whatever failed on the way.
pub proof fn lemma_run_reports_every_pair(
    root: Seq<char>,
    entries: Seq<FileEntryView>,
    targets: Seq<WorktreeView>,
    rounds: Seq<Option<Seq<Option<WorktreeErrorView>>>>,
)
    requires
        targets.len() > 0,
        rounds.len() <= entries.len(),
        forall|k: int|
            0 <= k < rounds.len() && (#[trigger] rounds[k]) is Some ==> rounds[k]->0.len()
                == targets.len(),
    ensures
        run_through(run_start(root, entries, targets, true), rounds) == (LinkRunView {
            entry: rounds.len(),
            report: whole_report(
                run_start(root, entries, targets, true).report,
                targets,
                entries,
                rounds,
            ),
            ..run_start(root, entries, targets, true)
        }),
        rounds.len() == entries.len() ==> run_action(
            run_through(run_start(root, entries, targets, true), rounds),
        ) == RunActionView::Finish,
    decreases rounds.len(),
{
    let start = run_start(root, entries, targets, true);
    if rounds.len() > 0 {
        let earlier = rounds.drop_last();
        assert forall|k: int| 0 <= k < earlier.len() && (#[trigger] earlier[k]) is Some implies earlier[k]->0.len()
            == targets.len() by {
            assert(earlier[k] == rounds[k]);
        }
        lemma_run_reports_every_pair(root, entries, targets, earlier);
        let w = run_through(start, earlier);
        match rounds.last() {
            None => {},
            Some(outcomes) => {
                assert(rounds[rounds.len() - 1] is Some);
                lemma_round_isolates(run_after(w, RunEventView::Found), outcomes);
            },
        }
    }
}

/// The step that a run of removals asks for.
#[derive(Debug, Clone, PartialEq, Eq)]
pub enum RemovalAction {
    /// Find out what lies at the path, links not followed.
    Probe { path: String },
    /// Remove the symbolic link at the path.
    Remove { path: String },
    /// Nothing is left to do.
    Finish,
}

/// The mathematical value of a `RemovalAction`.
pub enum RemovalActionView {
    Probe { path: Seq<char> },
    Remove { path: Seq<char> },
    Finish,
}

impl View for RemovalAction {
    type V = RemovalActionView;

    open spec fn view(&self) -> RemovalActionView {
        match self {
            RemovalAction::Probe { path } => RemovalActionView::Probe { path: path@ },
            RemovalAction::Remove { path } => RemovalActionView::Remove { path: path@ },
            RemovalAction::Finish => RemovalActionView::Finish,
        }
    }
}

/// What came of a step of a run of removals.
#[derive(Debug, Clone, PartialEq, Eq)]
pub enum RemovalEvent {
    /// A symbolic link lies at the path.
    Symlink,
    /// Something that is no symbolic link lies at the path.
    Other,
    /// Nothing lies at the path.
    Absent,
    /// The path could not be looked at.
    ProbeFailed(String),
    /// The link was removed.
    Removed,
    /// The link could not be removed.
    RemoveFailed(String),
}

/// The mathematical value of a `RemovalEvent`.
pub enum RemovalEventView {
    Symlink,
    Other,
    Absent,
    ProbeFailed(Seq<char>),
    Removed,
    RemoveFailed(Seq<char>),
}

impl View for RemovalEvent {
    type V = RemovalEventView;

    open spec fn view(&self) -> RemovalEventView {
        match self {
            RemovalEvent::Symlink => RemovalEventView::Symlink,
            RemovalEvent::Other => RemovalEventView::Other,
            RemovalEvent::Absent => RemovalEventView::Absent,
            RemovalEvent::ProbeFailed(why) => RemovalEventView::ProbeFailed(why@),
            RemovalEvent::Removed => RemovalEventView::Removed,
            RemovalEvent::RemoveFailed(why) => RemovalEventView::RemoveFailed(why@),
        }
    }
}

/// A run that removes the link at one relative path from each target in turn.
#[derive(Debug, Clone, PartialEq, Eq)]
pub struct RemovalRun {
    pub targets: Vec<Worktree>,
    /// The path of the link, from the root of each target.
    pub rel_path: String,
    /// The target that is being looked at.
    pub index: usize,
    /// Whether a symbolic link is known to lie at the path in that target.
    pub confirmed: bool,
    pub report: SymlinkRemovalReport,
}

/// The mathematical value of a `RemovalRun`.
pub struct RemovalRunView {
    pub targets: Seq<WorktreeView>,
    pub rel_path: Seq<char>,
    pub index: nat,
    pub confirmed: bool,
    pub report: ReportView,
}

impl View for RemovalRun {
    type V = RemovalRunView;

    open spec fn view(&self) -> RemovalRunView {
        RemovalRunView {
            targets: self.targets.deep_view(),
            rel_path: self.rel_path@,
            index: self.index as nat,
            confirmed: self.confirmed,
            report: self.report@,
        }
    }
}

/// A run of removals at its start.
pub open spec fn removal_start(targets: Seq<WorktreeView>, rel_path: Seq<char>) -> RemovalRunView {
    RemovalRunView {
        targets,
        rel_path,
        index: 0,
        confirmed: false,
        report: ReportView { done: Seq::empty(), failed: Seq::empty() },
    }
}

/// The path that the run `v` is at.
pub open spec fn removal_path(v: RemovalRunView) -> Seq<char> {
    join(v.targets[v.index as int].path, v.rel_path)
}

/// The step that the run `v` asks for: to remove, only where a symbolic
/// link is known to lie at the path; else to look.
pub open spec fn removal_action(v: RemovalRunView) -> RemovalActionView {
    if v.index >= v.targets.len() {
        RemovalActionView::Finish
    } else if v.confirmed {
        RemovalActionView::Remove { path: removal_path(v) }
    } else {
        RemovalActionView::Probe { path: removal_path(v) }
    }
}

/// The run `v` at its next target.
pub open spec fn removal_next(v: RemovalRunView) -> RemovalRunView {
    RemovalRunView { index: v.index + 1, confirmed: false, ..v }
}

/// The run `v` after its step was answered by `event`. A path that holds
/// a symbolic link is removed next; one that holds nothing is passed over;
/// one that holds something else is left as it is and recorded as a
/// failure, and so is one that could not be looked at or whose link could
/// not be removed. An answer that does not fit the step changes nothing.
pub open spec fn removal_after(v: RemovalRunView, event: RemovalEventView) -> RemovalRunView {
    match (removal_action(v), event) {
        (RemovalActionView::Probe { .. }, RemovalEventView::Symlink) => RemovalRunView {
            confirmed: true,
            ..v
        },
        (RemovalActionView::Probe { path }, RemovalEventView::Other) => removal_next(
            RemovalRunView {
                report: with_failed(
                    v.report,
                    v.targets[v.index as int].name,
                    path,
                    "not a symlink"@,
                ),
                ..v
            },
        ),
        (RemovalActionView::Probe { .. }, RemovalEventView::Absent) => removal_next(v),
        (RemovalActionView::Probe { path }, RemovalEventView::ProbeFailed(why)) => removal_next(
            RemovalRunView {
                report: with_failed(v.report, v.targets[v.index as int].name, path, why),
                ..v
            },
        ),
        (RemovalActionView::Remove { path }, RemovalEventView::Removed) => removal_next(
            RemovalRunView {
                report: with_done(v.report, v.targets[v.index as int].name, path),
                ..v
            },
        ),
        (RemovalActionView::Remove { path }, RemovalEventView::RemoveFailed(why)) => removal_next(
            RemovalRunView {
                report: with_failed(v.report, v.targets[v.index as int].name, path, why),
                ..v
            },
        ),
        _ => v,
    }
}

/// Whether the run `v` stands at a place that it can have reached: at a
/// target or behind the last one, and sure of a symbolic link only where
/// there is such a target.
pub open spec fn removal_in_bounds(v: RemovalRunView) -> bool {
    &&& v.index <= v.targets.len()
    &&& v.confirmed ==> v.index < v.targets.len()
}

/// A run of removals starts in bounds and stays there whatever it is told.
pub proof fn lemma_removal_stays_in_bounds(v: RemovalRunView, event: RemovalEventView)
    ensures
        removal_in_bounds(removal_start(v.targets, v.rel_path)),
        removal_in_bounds(v) ==> removal_in_bounds(removal_after(v, event)),
{
}

/// Starts removing the link at `rel_path` from every one of `worktrees`.
pub fn remove_symlinks_from_worktrees(worktrees: Vec<Worktree>, rel_path: &str) -> (out: RemovalRun)
    ensures
        out@ == removal_start(worktrees.deep_view(), rel_path@),
{
    let out = RemovalRun {
        targets: worktrees,
        rel_path: rel_path.to_owned(),
        index: 0,
        confirmed: false,
        report: SymlinkRemovalReport { removed: Vec::new(), failed: Vec::new() },
    };
    assert(out@.report.done =~= Seq::empty());
    assert(out@.report.failed =~= Seq::empty());
    out
}

impl RemovalRun {
    /// The step to take now.
    pub fn action(&self) -> (out: RemovalAction)
        ensures
            out@ == removal_action(self@),
    {
        if self.index >= self.targets.len() {
            return RemovalAction::Finish;
        }
        let path = path_join(self.targets[self.index].path.as_str(), self.rel_path.as_str());
        if self.confirmed {
            RemovalAction::Remove { path }
        } else {
            RemovalAction::Probe { path }
        }
    }

    /// Takes in what came of the step that `action` gave.
    pub fn advance(&mut self, event: RemovalEvent)
        ensures
            final(self)@ == removal_after(old(self)@, event@),
    {
        let count = self.targets.len();
        if self.index >= count {
            return ;
        }
        let name = self.targets[self.index].name.clone();
        let path = path_join(self.targets[self.index].path.as_str(), self.rel_path.as_str());
        let ghost before = self.report@;
        if self.confirmed {
            match event {
                RemovalEvent::Removed => {
                    self.report.removed.push((name, path));
                    assert(self.report@.done =~= before.done.push((name@, path@)));
                    self.index = self.index + 1;
                    self.confirmed = false;
                },
                RemovalEvent::RemoveFailed(why) => {
                    self.report.failed.push((name, path, why));
                    assert(self.report@.failed =~= before.failed.push((name@, path@, why@)));
                    self.index = self.index + 1;
                    self.confirmed = false;
                },
                _ => {},
            }
        } else {
            match event {
                RemovalEvent::Symlink => {
                    self.confirmed = true;
                },
                RemovalEvent::Other => {
                    let why = "not a symlink".to_owned();
                    self.report.failed.push((name, path, why));
                    assert(self.report@.failed =~= before.failed.push((name@, path@, why@)));
                    self.index = self.index + 1;
                },
                RemovalEvent::Absent => {
                    self.index = self.index + 1;
                },
                RemovalEvent::ProbeFailed(why) => {
                    self.report.failed.push((name, path, why));
                    assert(self.report@.failed =~= before.failed.push((name@, path@, why@)));
                    self.index = self.index + 1;
                },
                _ => {},
            }
        }
    }
}

/// Nothing is removed that was not seen to be a symbolic link: a run asks
/// to remove a path only after a look at that very path has shown a
/// symbolic link there, and keeps asking only while nothing has happened.
pub proof fn lemma_removes_only_symlinks(v: RemovalRunView, event: RemovalEventView)
    ensures
        !(removal_action(removal_start(v.targets, v.rel_path)) is Remove),
        removal_action(removal_after(v, event)) is Remove && !(removal_action(v) is Remove) ==> event
            == RemovalEventView::Symlink && removal_action(v) == (RemovalActionView::Probe {
            path: removal_action(removal_after(v, event))->Remove_path,
        }),
        removal_action(removal_after(v, event)) is Remove && removal_action(v) is Remove
            ==> removal_after(v, event) == v,
{
}

/// What is no symbolic link is left alone: where a look shows something
/// else at the path, or nothing, the run moves on to the next target
/// without asking to remove anything and without a row among the removed.
/// Nothing at the path leaves the report as it is; something else adds one failure.
pub proof fn lemma_other_data_is_kept(v: RemovalRunView, event: RemovalEventView)
    requires
        removal_action(v) is Probe,
        event == RemovalEventView::Other || event == RemovalEventView::Absent,
    ensures
        removal_after(v, event).index == v.index + 1,
        removal_after(v, event).report.done == v.report.done,
        !(removal_action(removal_after(v, event)) is Remove),
        event == RemovalEventView::Absent ==> removal_after(v, event).report == v.report,
        event == RemovalEventView::Other ==> removal_after(v, event).report.failed.len()
            == v.report.failed.len() + 1,
{
}

} // verus!
