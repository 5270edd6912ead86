//! Importing working trees that lie outside the managed directory: each is
//! moved to a fresh place below it, and the configured files are linked
//! into it again. What comes of each working tree is recorded on its own.
//!
//! Moving and linking is the caller's work: a run names the step to take
//! and is told what came of it.

use crate::config::{get_trees_dir, lemma_trees_dir_components, trees_dir};
use crate::path::{
    components, dot_dot, file_name, is_simple_name, is_under, join, lemma_components_join,
    lemma_file_name_is_simple, lemma_join_lies_below, path_eq, path_join, path_starts_with,
    same_path,
};
use crate::text::{
    decimal, decimal_of, has_char, joined, lemma_decimal_has_no_slash, lemma_decimal_injective,
    lemma_decimal_nonempty, lemma_has_char_concat,
};
use crate::vcs::{GitWorktree, GitWorktreeView};
use crate::worktree::{name_of, worktree_name};
use vstd::prelude::*;
use vstd::set_lib::lemma_len_subset;

verus! {

/// The name that an imported worktree is first tried under: the name
/// `base_name` of its directory, or `worktree` where that is empty.
pub open spec fn import_base(base_name: Seq<char>) -> Seq<char> {
    if base_name.len() == 0 {
        "worktree"@
    } else {
        base_name
    }
}

/// The `k`-th name that is tried for `base`: `base` itself, then `base-2`,
/// `base-3` and so on.
pub open spec fn candidate(base: Seq<char>, k: nat) -> Seq<char> {
    if k <= 1 {
        base
    } else {
        base + "-"@ + decimal(k)
    }
}

/// Whether the `k`-th name for `base` is the first that is not in `taken`.
pub open spec fn first_free(base: Seq<char>, taken: Seq<Seq<char>>, k: nat) -> bool {
    &&& k >= 1
    &&& !taken.contains(candidate(base, k))
    &&& forall|j: nat| 1 <= j < k ==> taken.contains(#[trigger] candidate(base, j))
}

/// The first of the names for `base` that is not in `taken`.
pub open spec fn import_name(base: Seq<char>, taken: Seq<Seq<char>>) -> Seq<char> {
    candidate(base, choose|k: nat| first_free(base, taken, k))
}

/// Different turns give different names.
pub proof fn lemma_candidate_injective(base: Seq<char>, a: nat, b: nat)
    requires
        a >= 1,
        b >= 1,
        candidate(base, a) == candidate(base, b),
    ensures
        a == b,
{
    reveal_strlit("-");
    let lead = base + "-"@;
    if a >= 2 && b >= 2 {
        assert((lead + decimal(a)).skip(lead.len() as int) =~= decimal(a));
        assert((lead + decimal(b)).skip(lead.len() as int) =~= decimal(b));
        lemma_decimal_injective(a, b);
    } else if a >= 2 {
        assert(candidate(base, a).len() == base.len() + 1 + decimal(a).len());
    } else if b >= 2 {
        assert(candidate(base, b).len() == base.len() + 1 + decimal(b).len());
    }
}

/// Where the first `m` names for `base` are all taken, `taken` holds at least `m` names.
pub proof fn lemma_candidates_fit(base: Seq<char>, taken: Seq<Seq<char>>, m: nat)
    requires
        forall|j: nat| 1 <= j <= m ==> taken.contains(#[trigger] candidate(base, j)),
    ensures
        m <= taken.len(),
{
    let tried = Seq::new(m, |i: int| candidate(base, (i + 1) as nat));
    assert forall|i: int, j: int| 0 <= i < tried.len() && 0 <= j < tried.len() && i != j implies tried[i]
        != tried[j] by {
        if tried[i] == tried[j] {
            lemma_candidate_injective(base, (i + 1) as nat, (j + 1) as nat);
        }
    }
    tried.unique_seq_to_set();
    assert forall|t: Seq<char>| tried.to_set().contains(t) implies taken.to_set().contains(t) by {
        let i = choose|i: int| 0 <= i < tried.len() && tried[i] == t;
        assert(taken.contains(candidate(base, (i + 1) as nat)));
    }
    vstd::seq_lib::seq_to_set_is_finite(taken);
    lemma_len_subset(tried.to_set(), taken.to_set());
    taken.lemma_cardinality_of_set();
}

/// Only one turn is the first whose name is free.
pub proof fn lemma_first_free_unique(base: Seq<char>, taken: Seq<Seq<char>>, a: nat, b: nat)
    requires
        first_free(base, taken, a),
        first_free(base, taken, b),
    ensures
        a == b,
{
    if a < b {
        assert(taken.contains(candidate(base, a)));
    } else if b < a {
        assert(taken.contains(candidate(base, b)));
    }
}

/// Whether `name` is one of `taken`.
pub fn is_taken(taken: &Vec<String>, name: &str) -> (r: bool)
    ensures
        r == taken.deep_view().contains(name@),
{
    let owned = name.to_owned();
    let mut i: usize = 0;
    while i < taken.len()
        invariant
            i <= taken@.len(),
            owned@ == name@,
            forall|k: int| 0 <= k < i ==> taken.deep_view()[k] != name@,
        decreases taken@.len() - i,
    {
        if taken[i] == owned {
            assert(taken.deep_view()[i as int] == name@);
            return true;
        }
        i += 1;
    }
    false
}

/// The name under which a working tree whose directory is called
/// `base_name` is imported: the first of `base_name`, `base_name-2`,
/// `base_name-3`, ... that is not in `taken`, with `worktree` in place of an
/// empty `base_name`.
pub fn unique_import_name(base_name: &str, taken: &Vec<String>) -> (out: String)
    ensures
        out@ == import_name(import_base(base_name@), taken.deep_view()),
        !taken.deep_view().contains(out@),
{
    let base = if base_name.unicode_len() == 0 {
        "worktree"
    } else {
        base_name
    };
    let ghost b = import_base(base_name@);
    let ghost names = taken.deep_view();
    assert(base@ == b);
    if !is_taken(taken, base) {
        proof {
            assert(first_free(b, names, 1));
            let k = choose|k: nat| first_free(b, names, k);
            lemma_first_free_unique(b, names, 1, k);
        }
        return base.to_owned();
    }
    let limit = taken.len();
    let mut index: u128 = 2;
    proof {
        assert forall|j: nat| 1 <= j <= 1 implies names.contains(#[trigger] candidate(b, j)) by {}
        lemma_candidates_fit(b, names, 1);
    }
    loop
        invariant
            2 <= index <= taken@.len() + 1,
            limit == taken@.len(),
            base@ == b,
            b == import_base(base_name@),
            names == taken.deep_view(),
            forall|j: nat| 1 <= j < index ==> names.contains(#[trigger] candidate(b, j)),
        decreases taken@.len() + 2 - index,
    {
        let number = decimal_of(index);
        let mut name = joined(base, "-");
        name.append(number.as_str());
        assert(name@ =~= candidate(b, index as nat));
        if !is_taken(taken, name.as_str()) {
            proof {
                assert(first_free(b, names, index as nat));
                let k = choose|k: nat| first_free(b, names, k);
                lemma_first_free_unique(b, names, index as nat, k);
            }
            return name;
        }
        proof {
            lemma_candidates_fit(b, names, index as nat);
        }
        index = index + 1;
    }
}

/// The place to which a working tree whose directory is called `base_name`
/// is imported: below `trees_dir`, under the first name that is not in `taken`.
pub fn unique_import_path(trees_dir: &str, base_name: &str, taken: &Vec<String>) -> (out: String)
    ensures
        out@ == join(trees_dir@, import_name(import_base(base_name@), taken.deep_view())),
{
    let name = unique_import_name(base_name, taken);
    path_join(trees_dir, name.as_str())
}

/// Some turn is the first whose name is free, given that all turns before `m` are taken.
proof fn lemma_first_free_from(base: Seq<char>, taken: Seq<Seq<char>>, m: nat) -> (k: nat)
    requires
        m >= 1,
        forall|j: nat| 1 <= j < m ==> taken.contains(#[trigger] candidate(base, j)),
    ensures
        first_free(base, taken, k),
    decreases taken.len() + 2 - m,
{
    lemma_candidates_fit(base, taken, (m - 1) as nat);
    if !taken.contains(candidate(base, m)) {
        m
    } else {
        lemma_candidates_fit(base, taken, m);
        lemma_first_free_from(base, taken, m + 1)
    }
}

/// The name that is chosen is the first free one, and so not taken.
pub proof fn lemma_import_name_is_free(base: Seq<char>, taken: Seq<Seq<char>>)
    ensures
        first_free(base, taken, choose|k: nat| first_free(base, taken, k)),
        !taken.contains(import_name(base, taken)),
{
    let k = lemma_first_free_from(base, taken, 1);
}

/// A working tree that was moved under the managed directory.
#[derive(Debug, Clone, PartialEq, Eq)]
pub struct ImportMove {
    pub from: String,
    pub to: String,
    /// Why linking the configured files into it again failed, if it did.
    pub relink_error: Option<String>,
}

/// The mathematical value of an `ImportMove`.
pub struct ImportMoveView {
    pub from: Seq<char>,
    pub to: Seq<char>,
    pub relink_error: Option<Seq<char>>,
}

impl View for ImportMove {
    type V = ImportMoveView;

    open spec fn view(&self) -> ImportMoveView {
        ImportMoveView {
            from: self.from@,
            to: self.to@,
            relink_error: self.relink_error.deep_view(),
        }
    }
}

impl DeepView for ImportMove {
    type V = ImportMoveView;

    open spec fn deep_view(&self) -> ImportMoveView {
        self@
    }
}

/// A working tree that was left where it is.
#[derive(Debug, Clone, PartialEq, Eq)]
pub struct ImportSkip {
    pub path: String,
    pub reason: String,
}

/// The mathematical value of an `ImportSkip`.
pub struct ImportSkipView {
    pub path: Seq<char>,
    pub reason: Seq<char>,
}

impl View for ImportSkip {
    type V = ImportSkipView;

    open spec fn view(&self) -> ImportSkipView {
        ImportSkipView { path: self.path@, reason: self.reason@ }
    }
}

impl DeepView for ImportSkip {
    type V = ImportSkipView;

    open spec fn deep_view(&self) -> ImportSkipView {
        self@
    }
}

/// A working tree that could not be moved.
#[derive(Debug, Clone, PartialEq, Eq)]
pub struct ImportFailure {
    pub path: String,
    pub error: String,
}

/// The mathematical value of an `ImportFailure`.
pub struct ImportFailureView {
    pub path: Seq<char>,
    pub error: Seq<char>,
}

impl View for ImportFailure {
    type V = ImportFailureView;

    open spec fn view(&self) -> ImportFailureView {
        ImportFailureView { path: self.path@, error: self.error@ }
    }
}

impl DeepView for ImportFailure {
    type V = ImportFailureView;

    open spec fn deep_view(&self) -> ImportFailureView {
        self@
    }
}

/// What came of importing the working trees.
#[derive(Debug, Clone, PartialEq, Eq)]
pub struct ImportReport {
    pub moved: Vec<ImportMove>,
    pub skipped: Vec<ImportSkip>,
    pub failed: Vec<ImportFailure>,
}

/// The mathematical value of an `ImportReport`.
pub struct ImportReportView {
    pub moved: Seq<ImportMoveView>,
    pub skipped: Seq<ImportSkipView>,
    pub failed: Seq<ImportFailureView>,
}

impl View for ImportReport {
    type V = ImportReportView;

    open spec fn view(&self) -> ImportReportView {
        ImportReportView {
            moved: self.moved.deep_view(),
            skipped: self.skipped.deep_view(),
            failed: self.failed.deep_view(),
        }
    }
}

impl Default for ImportReport {
    fn default() -> (r: Self)
        ensures
            r@ == empty_report(),
    {
        let r = ImportReport { moved: Vec::new(), skipped: Vec::new(), failed: Vec::new() };
        assert(r@.moved =~= Seq::empty());
        assert(r@.skipped =~= Seq::empty());
        assert(r@.failed =~= Seq::empty());
        r
    }
}

/// The report that records nothing.
pub open spec fn empty_report() -> ImportReportView {
    ImportReportView { moved: Seq::empty(), skipped: Seq::empty(), failed: Seq::empty() }
}

/// How a listed working tree stands to the repository.
#[derive(Debug, Clone, Copy, PartialEq, Eq, Structural)]
pub enum Standing {
    /// It is the repository's main working tree.
    Main,
    /// It lies under the managed directory.
    Managed,
    /// It lies elsewhere.
    Foreign,
}

/// How the working tree at `path` stands to the repository at `root`.
pub open spec fn standing(path: Seq<char>, root: Seq<char>) -> Standing {
    if same_path(path, root) {
        Standing::Main
    } else if is_under(path, trees_dir(root)) {
        Standing::Managed
    } else {
        Standing::Foreign
    }
}

/// How the working tree at `path` stands to the repository at `root`.
pub fn classify(path: &str, root: &str) -> (r: Standing)
    ensures
        r == standing(path@, root@),
{
    if path_eq(path, root) {
        Standing::Main
    } else {
        let dir = get_trees_dir(root);
        if path_starts_with(path, dir.as_str()) {
            Standing::Managed
        } else {
            Standing::Foreign
        }
    }
}

/// The step that an import asks for.
#[derive(Debug, Clone, PartialEq, Eq)]
pub enum ImportAction {
    /// Leave the working tree at `path` where it is, for this reason.
    Skip { path: String, reason: String },
    /// Move the working tree at `from` to `to`.
    Move { from: String, to: String },
    /// Link the configured files into the worktree called `name` again.
    Relink { name: String },
    /// Nothing is left to do.
    Finish,
}

/// The mathematical value of an `ImportAction`.
pub enum ImportActionView {
    Skip { path: Seq<char>, reason: Seq<char> },
    Move { from: Seq<char>, to: Seq<char> },
    Relink { name: Seq<char> },
    Finish,
}

impl View for ImportAction {
    type V = ImportActionView;

    open spec fn view(&self) -> ImportActionView {
        match self {
            ImportAction::Skip { path, reason } => ImportActionView::Skip {
                path: path@,
                reason: reason@,
            },
            ImportAction::Move { from, to } => ImportActionView::Move { from: from@, to: to@ },
            ImportAction::Relink { name } => ImportActionView::Relink { name: name@ },
            ImportAction::Finish => ImportActionView::Finish,
        }
    }
}

/// What came of a step of an import.
#[derive(Debug, Clone, PartialEq, Eq)]
pub enum ImportEvent {
    /// The working tree was left where it is.
    Noted,
    /// The working tree was moved.
    Moved,
    /// The move command ended unsuccessfully, with this on its error stream.
    MoveFailed(String),
    /// The files were linked again, or could not be, for the reason given.
    Relinked(Option<String>),
}

/// The mathematical value of an `ImportEvent`.
pub enum ImportEventView {
    Noted,
    Moved,
    MoveFailed(Seq<char>),
    Relinked(Option<Seq<char>>),
}

impl View for ImportEvent {
    type V = ImportEventView;

    open spec fn view(&self) -> ImportEventView {
        match self {
            ImportEvent::Noted => ImportEventView::Noted,
            ImportEvent::Moved => ImportEventView::Moved,
            ImportEvent::MoveFailed(why) => ImportEventView::MoveFailed(why@),
            ImportEvent::Relinked(why) => ImportEventView::Relinked(why.deep_view()),
        }
    }
}

/// An import under way: each listed working tree in turn.
#[derive(Debug, Clone, PartialEq, Eq)]
pub struct ImportRun {
    /// The repository root.
    pub root: String,
    /// The working trees that the version-control system lists.
    pub all: Vec<GitWorktree>,
    /// The names that are in use under the managed directory.
    pub taken: Vec<String>,
    /// The working tree that is being looked at.
    pub index: usize,
    /// Whether that working tree has been moved and awaits its files.
    pub relinking: bool,
    pub report: ImportReport,
}

/// The mathematical value of an `ImportRun`.
pub struct ImportRunView {
    pub root: Seq<char>,
    pub all: Seq<GitWorktreeView>,
    pub taken: Seq<Seq<char>>,
    pub index: nat,
    pub relinking: bool,
    pub report: ImportReportView,
}

impl View for ImportRun {
    type V = ImportRunView;

    open spec fn view(&self) -> ImportRunView {
        ImportRunView {
            root: self.root@,
            all: self.all.deep_view(),
            taken: self.taken.deep_view(),
            index: self.index as nat,
            relinking: self.relinking,
            report: self.report@,
        }
    }
}

/// An import at its start.
pub open spec fn import_start(root: Seq<char>, all: Seq<GitWorktreeView>, taken: Seq<Seq<char>>) -> ImportRunView {
    ImportRunView { root, all, taken, index: 0, relinking: false, report: empty_report() }
}

/// The path of the working tree that `v` is at.
pub open spec fn import_source(v: ImportRunView) -> Seq<char> {
    v.all[v.index as int].path
}

/// The name under which the working tree that `v` is at is imported.
pub open spec fn import_as(v: ImportRunView) -> Seq<char> {
    import_name(import_base(name_of(import_source(v))), v.taken)
}

/// The place to which the working tree that `v` is at is moved.
pub open spec fn import_target(v: ImportRunView) -> Seq<char> {
    join(trees_dir(v.root), import_as(v))
}

/// The step that the import `v` asks for. The main working tree and those
/// under the managed directory are left where they are; every other one is
/// moved and then has its files linked again.
pub open spec fn import_action(v: ImportRunView) -> ImportActionView {
    if v.index >= v.all.len() {
        ImportActionView::Finish
    } else {
        match standing(import_source(v), v.root) {
            Standing::Main => ImportActionView::Skip {
                path: import_source(v),
                reason: "main worktree"@,
            },
            Standing::Managed => ImportActionView::Skip {
                path: import_source(v),
                reason: "already managed"@,
            },
            Standing::Foreign => if v.relinking {
                ImportActionView::Relink { name: name_of(import_target(v)) }
            } else {
                ImportActionView::Move { from: import_source(v), to: import_target(v) }
            },
        }
    }
}

/// The import `v` after the working tree that it is at was moved, with
/// `relink_error` telling what came of linking: the move is recorded, the
/// name is in use from now on, and the next working tree has its turn.
pub open spec fn import_moved(v: ImportRunView, relink_error: Option<Seq<char>>) -> ImportRunView {
    ImportRunView {
        taken: v.taken.push(import_as(v)),
        index: v.index + 1,
        relinking: false,
        report: ImportReportView {
            moved: v.report.moved.push(
                ImportMoveView { from: import_source(v), to: import_target(v), relink_error },
            ),
            ..v.report
        },
        ..v
    }
}

/// What a move records of linking that failed for the reason `why`.
pub open spec fn relink_failure(why: Seq<char>) -> Seq<char> {
    "relink failed: "@ + why
}

/// The import `v` after its step was answered by `event`. A move that
/// failed is recorded as a failure of its own, with what the command wrote
/// to its error stream, and the import goes on. Linking that failed is
/// recorded with the move and is no failure of the move. An answer that
/// does not fit the step changes nothing.
pub open spec fn import_after(v: ImportRunView, event: ImportEventView) -> ImportRunView {
    match (import_action(v), event) {
        (ImportActionView::Skip { path, reason }, ImportEventView::Noted) => ImportRunView {
            index: v.index + 1,
            report: ImportReportView {
                skipped: v.report.skipped.push(ImportSkipView { path, reason }),
                ..v.report
            },
            ..v
        },
        (ImportActionView::Move { from, to }, ImportEventView::Moved) => if name_of(to).len() == 0 {
            import_moved(v, Some(relink_failure("unable to determine worktree name"@)))
        } else {
            ImportRunView { relinking: true, ..v }
        },
        (ImportActionView::Move { from, .. }, ImportEventView::MoveFailed(why)) => ImportRunView {
            index: v.index + 1,
            report: ImportReportView {
                failed: v.report.failed.push(
                    ImportFailureView { path: from, error: "git worktree move failed: "@ + why },
                ),
                ..v.report
            },
            ..v
        },
        (ImportActionView::Relink { .. }, ImportEventView::Relinked(why)) => import_moved(
            v,
            match why {
                Some(text) => Some(relink_failure(text)),
                None => None,
            },
        ),
        _ => v,
    }
}

/// Starts importing the listed working trees `all` into the repository at
/// `project_root`, where `taken` are the names in use under the managed directory.
pub fn import_all_worktrees(project_root: &str, all: Vec<GitWorktree>, taken: Vec<String>) -> (out: ImportRun)
    ensures
        out@ == import_start(project_root@, all.deep_view(), taken.deep_view()),
{
    ImportRun {
        root: project_root.to_owned(),
        all,
        taken,
        index: 0,
        relinking: false,
        report: ImportReport::default(),
    }
}

impl ImportRun {
    /// The name and the place under which the current working tree is imported.
    fn target(&self) -> (r: (String, String))
        requires
            self.index < self.all@.len(),
        ensures
            r.0@ == import_as(self@),
            r.1@ == import_target(self@),
    {
        let base = worktree_name(self.all[self.index].path.as_str());
        let name = unique_import_name(base.as_str(), &self.taken);
        let dir = get_trees_dir(self.root.as_str());
        let to = path_join(dir.as_str(), name.as_str());
        (name, to)
    }

    /// The step to take now.
    pub fn action(&self) -> (out: ImportAction)
        ensures
            out@ == import_action(self@),
    {
        if self.index >= self.all.len() {
            return ImportAction::Finish;
        }
        let path = self.all[self.index].path.clone();
        match classify(path.as_str(), self.root.as_str()) {
            Standing::Main => ImportAction::Skip { path, reason: "main worktree".to_owned() },
            Standing::Managed => ImportAction::Skip { path, reason: "already managed".to_owned() },
            Standing::Foreign => {
                let (_, to) = self.target();
                if self.relinking {
                    ImportAction::Relink { name: worktree_name(to.as_str()) }
                } else {
                    ImportAction::Move { from: path, to }
                }
            },
        }
    }

    /// Records the move of the current working tree and goes on.
    fn record_move(&mut self, relink_error: Option<String>)
        requires
            old(self).index < old(self).all@.len(),
        ensures
            final(self)@ == import_moved(old(self)@, relink_error.deep_view()),
    {
        let count = self.all.len();
        let (name, to) = self.target();
        let from = self.all[self.index].path.clone();
        let ghost before = self@;
        let moved = ImportMove { from, to, relink_error };
        self.report.moved.push(moved);
        self.taken.push(name);
        self.index = self.index + 1;
        self.relinking = false;
        assert(self@.report.moved =~= before.report.moved.push(moved@));
        assert(self@.taken =~= before.taken.push(name@));
    }

    /// Takes in what came of the step that `action` gave.
    pub fn advance(&mut self, event: ImportEvent)
        ensures
            final(self)@ == import_after(old(self)@, event@),
    {
        let count = self.all.len();
        if self.index >= count {
            return ;
        }
        let ghost before = self@;
        let path = self.all[self.index].path.clone();
        match classify(path.as_str(), self.root.as_str()) {
            Standing::Foreign => {
                if self.relinking {
                    match event {
                        ImportEvent::Relinked(why) => {
                            let relink_error = match why {
                                Some(text) => Some(joined("relink failed: ", text.as_str())),
                                None => None,
                            };
                            self.record_move(relink_error);
                        },
                        _ => {},
                    }
                } else {
                    match event {
                        ImportEvent::Moved => {
                            let (_, to) = self.target();
                            let name = worktree_name(to.as_str());
                            if name.as_str().unicode_len() == 0 {
                                self.record_move(
                                    Some(
                                        joined(
                                            "relink failed: ",
                                            "unable to determine worktree name",
                                        ),
                                    ),
                                );
                            } else {
                                self.relinking = true;
                            }
                        },
                        ImportEvent::MoveFailed(why) => {
                            let failure = ImportFailure {
                                path,
                                error: joined("git worktree move failed: ", why.as_str()),
                            };
                            self.report.failed.push(failure);
                            self.index = self.index + 1;
                            assert(self@.report.failed =~= before.report.failed.push(failure@));
                        },
                        _ => {},
                    }
                }
            },
            place => {
                match event {
                    ImportEvent::Noted => {
                        let reason = match place {
                            Standing::Main => "main worktree".to_owned(),
                            _ => "already managed".to_owned(),
                        };
                        let skip = ImportSkip { path, reason };
                        self.report.skipped.push(skip);
                        self.index = self.index + 1;
                        assert(self@.report.skipped =~= before.report.skipped.push(skip@));
                    },
                    _ => {},
                }
            },
        }
    }
}

/// The number of working trees that `report` tells of.
pub open spec fn recorded(report: ImportReportView) -> nat {
    report.moved.len() + report.skipped.len() + report.failed.len()
}

/// Every working tree that was looked at is told of once: at the start the
/// report is empty, and whenever an answer moves the import on to the next
/// working tree, one row is added to one of the three lists; no other
/// answer changes the report.
pub proof fn lemma_import_accounts(v: ImportRunView, event: ImportEventView)
    ensures
        recorded(import_start(v.root, v.all, v.taken).report) == 0,
        recorded(import_after(v, event).report) - recorded(v.report) == import_after(v, event).index
            - v.index,
        import_after(v, event).index == v.index || import_after(v, event).index == v.index + 1,
        import_after(v, event).index == v.index ==> import_after(v, event).report == v.report,
{
}

/// Whether the import `v` is in a state that it can have reached: it
/// stands at a working tree or behind the last one, has told of every one
/// that it has gone past, and waits for files only of a working tree that
/// lies elsewhere.
pub open spec fn import_is_sound(v: ImportRunView) -> bool {
    &&& v.index <= v.all.len()
    &&& recorded(v.report) == v.index
    &&& v.relinking ==> v.index < v.all.len() && standing(import_source(v), v.root)
        == Standing::Foreign
}

/// An import starts sound and stays sound whatever it is told.
pub proof fn lemma_import_stays_sound(v: ImportRunView, event: ImportEventView)
    ensures
        import_is_sound(import_start(v.root, v.all, v.taken)),
        import_is_sound(v) ==> import_is_sound(import_after(v, event)),
{
}

/// The import `v` after its steps were answered by `events`, in order.
pub open spec fn import_through(v: ImportRunView, events: Seq<ImportEventView>) -> ImportRunView
    decreases events.len(),
{
    if events.len() == 0 {
        v
    } else {
        import_after(import_through(v, events.drop_last()), events.last())
    }
}

/// Whatever the answers, an import tells of exactly the working trees
/// that it has gone past, each once, and asks for nothing more when it has
/// gone past them all.
pub proof fn lemma_import_tells_of_each_once(
    root: Seq<char>,
    all: Seq<GitWorktreeView>,
    taken: Seq<Seq<char>>,
    events: Seq<ImportEventView>,
)
    ensures
        recorded(import_through(import_start(root, all, taken), events).report) == import_through(
            import_start(root, all, taken),
            events,
        ).index,
        import_through(import_start(root, all, taken), events).index <= all.len(),
        import_through(import_start(root, all, taken), events).all == all,
        import_through(import_start(root, all, taken), events).index == all.len()
            ==> import_action(import_through(import_start(root, all, taken), events))
            == ImportActionView::Finish,
    decreases events.len(),
{
    if events.len() > 0 {
        let before = import_through(import_start(root, all, taken), events.drop_last());
        lemma_import_tells_of_each_once(root, all, taken, events.drop_last());
        lemma_import_accounts(before, events.last());
    }
}

/// A working tree is never moved onto a name that is in use, and the name
/// it gets is in use for those that follow.
pub proof fn lemma_import_never_collides(v: ImportRunView, relink_error: Option<Seq<char>>)
    ensures
        !v.taken.contains(import_as(v)),
        import_moved(v, relink_error).taken.contains(import_as(v)),
{
    lemma_import_name_is_free(import_base(name_of(import_source(v))), v.taken);
    let after = import_moved(v, relink_error).taken;
    assert(after[v.taken.len() as int] == import_as(v));
}

/// Every name that is tried for a simple name is simple itself, and none is the `..` piece.
pub proof fn lemma_candidate_is_simple(base: Seq<char>, k: nat)
    requires
        is_simple_name(base),
        base != dot_dot(),
    ensures
        is_simple_name(candidate(base, k)),
        candidate(base, k) != dot_dot(),
{
    if k >= 2 {
        reveal_strlit("-");
        let c = candidate(base, k);
        lemma_decimal_nonempty(k);
        lemma_decimal_has_no_slash(k);
        lemma_has_char_concat(base, "-"@, '/');
        lemma_has_char_concat(base + "-"@, decimal(k), '/');
        assert(!has_char("-"@, '/')) by {
            if has_char("-"@, '/') {
                let i = choose|i: int| 0 <= i < "-"@.len() && "-"@[i] == '/';
                assert("-"@[0] == '-');
            }
        }
        assert(c.len() >= 3);
    }
}

/// The name that an imported worktree is first tried under is simple, and
/// is not the `..` piece.
pub proof fn lemma_import_base_is_simple(path: Seq<char>)
    ensures
        is_simple_name(import_base(name_of(path))),
        import_base(name_of(path)) != dot_dot(),
{
    match file_name(path) {
        Some(n) => {
            lemma_file_name_is_simple(path);
        },
        None => {
            reveal_strlit("worktree");
            let w = "worktree"@;
            assert(!has_char(w, '/')) by {
                if has_char(w, '/') {
                    let i = choose|i: int| 0 <= i < w.len() && w[i] == '/';
                    assert(w[0] != '/' && w[1] != '/' && w[2] != '/' && w[3] != '/' && w[4] != '/'
                        && w[5] != '/' && w[6] != '/' && w[7] != '/');
                }
            }
        },
    }
}

/// An imported worktree is a managed one: the place that it is moved to
/// lies directly below the managed directory, is called by the name that
/// was chosen for it, and stands as managed from then on.
pub proof fn lemma_import_lands_in_managed_dir(v: ImportRunView)
    ensures
        is_under(import_target(v), trees_dir(v.root)),
        name_of(import_target(v)) == import_as(v),
        standing(import_target(v), v.root) == Standing::Managed,
{
    let base = import_base(name_of(import_source(v)));
    lemma_import_base_is_simple(import_source(v));
    let k = choose|k: nat| first_free(base, v.taken, k);
    lemma_candidate_is_simple(base, k);
    let name = import_as(v);
    let dir = trees_dir(v.root);
    lemma_join_lies_below(dir, name);
    lemma_components_join(dir, name);
    lemma_trees_dir_components(v.root);
    assert(components(import_target(v)).len() == components(v.root).len() + 3);
}

} // verus!
