//! Managed worktrees: which of the listed working trees lie under the
//! managed directory, which one the current directory belongs to, and how a
//! worktree is named, found and shown.

use crate::config::{get_trees_dir, trees_dir};
use crate::error::{message_of, WorktreeError, WorktreeErrorView};
use crate::path::{
    components, dot_dot, file_name, first_below, is_simple_name, is_under, join,
    lemma_components_join, lemma_join_lies_below, lemma_under_transitive, path_file_name,
    path_first_below, path_join, path_starts_with,
};
use crate::text::{joined, lines, same_text, trim, trim_end, trimmed_end};
use crate::vcs::{
    command_failure, get_current_branch, list_git_worktrees, records, CommandOutput, GitWorktree,
    GitWorktreeView,
};
use vstd::prelude::*;

verus! {

/// A working tree under the managed directory.
#[derive(Debug, Clone, PartialEq, Eq)]
pub struct Worktree {
    /// The last component of `path`.
    pub name: String,
    pub path: String,
    /// The branch that is checked out; empty when the head is detached.
    pub branch: String,
}

/// The mathematical value of a `Worktree`.
pub struct WorktreeView {
    pub name: Seq<char>,
    pub path: Seq<char>,
    pub branch: Seq<char>,
}

impl View for Worktree {
    type V = WorktreeView;

    open spec fn view(&self) -> WorktreeView {
        WorktreeView { name: self.name@, path: self.path@, branch: self.branch@ }
    }
}

impl DeepView for Worktree {
    type V = WorktreeView;

    open spec fn deep_view(&self) -> WorktreeView {
        self@
    }
}

/// How a worktree is shown on one line: its name, its branch in square
/// brackets unless it has none, and its path, two spaces between them.
pub open spec fn shown(w: WorktreeView) -> Seq<char> {
    if w.branch.len() == 0 {
        w.name + "  "@ + w.path
    } else {
        w.name + "  ["@ + w.branch + "]  "@ + w.path
    }
}

impl Worktree {
    /// This worktree on one line.
    pub fn to_text(&self) -> (out: String)
        ensures
            out@ == shown(self@),
    {
        let mut out = self.name.clone();
        if self.branch.as_str().unicode_len() == 0 {
            out.append("  ");
        } else {
            out.append("  [");
            out.append(self.branch.as_str());
            out.append("]  ");
        }
        out.append(self.path.as_str());
        out
    }

    /// A copy of this worktree.
    pub fn duplicate(&self) -> (out: Worktree)
        ensures
            out@ == self@,
    {
        Worktree { name: self.name.clone(), path: self.path.clone(), branch: self.branch.clone() }
    }
}

/// The name that a path gives a worktree: its last component, or nothing
/// where it has none.
pub open spec fn name_of(path: Seq<char>) -> Seq<char> {
    match file_name(path) {
        Some(name) => name,
        None => Seq::empty(),
    }
}

/// The managed worktree that a listed working tree is, if it lies under `dir`.
pub open spec fn managed_record(rec: GitWorktreeView, dir: Seq<char>) -> Option<WorktreeView> {
    if is_under(rec.path, dir) {
        Some(WorktreeView { name: name_of(rec.path), path: rec.path, branch: rec.branch })
    } else {
        None
    }
}

/// The managed worktrees among `records`: those under `dir`, in the order of the listing.
pub open spec fn managed(records: Seq<GitWorktreeView>, dir: Seq<char>) -> Seq<WorktreeView> {
    records.filter_map(|rec: GitWorktreeView| managed_record(rec, dir))
}

/// The name that `path` gives a worktree.
pub fn worktree_name(path: &str) -> (out: String)
    ensures
        out@ == name_of(path@),
{
    match path_file_name(path) {
        Some(name) => name,
        None => String::new(),
    }
}

/// The managed worktrees among the listed working trees `all`: those whose
/// path lies under `trees_dir`, in the order of the listing.
pub fn list_managed(all: &Vec<GitWorktree>, trees_dir: &str) -> (out: Vec<Worktree>)
    ensures
        out.deep_view() == managed(all.deep_view(), trees_dir@),
{
    let ghost recs = all.deep_view();
    let ghost dir = trees_dir@;
    let mut out: Vec<Worktree> = Vec::new();
    let mut k: usize = 0;
    assert(recs.take(0) =~= Seq::<GitWorktreeView>::empty());
    assert(out.deep_view() =~= Seq::<WorktreeView>::empty());
    while k < all.len()
        invariant
            k <= all@.len(),
            recs == all.deep_view(),
            dir == trees_dir@,
            out.deep_view() == managed(recs.take(k as int), dir),
        decreases all@.len() - k,
    {
        let rec = &all[k];
        proof {
            assert(recs.take(k + 1).drop_last() =~= recs.take(k as int));
            assert(recs.take(k + 1).last() == rec@);
        }
        if path_starts_with(rec.path.as_str(), trees_dir) {
            let tree = Worktree {
                name: worktree_name(rec.path.as_str()),
                path: rec.path.clone(),
                branch: rec.branch.clone(),
            };
            let ghost before = out.deep_view();
            out.push(tree);
            assert(out.deep_view() =~= before + seq![tree@]);
        }
        k += 1;
    }
    assert(recs.take(k as int) =~= recs);
    out
}

/// The managed worktrees of the repository at `project_root`. `listing` is
/// the output of the list command, or `None` where the managed directory is
/// not there and the command was not run: then there are no managed
/// worktrees. An unsuccessful command is an error that carries its error stream.
pub fn list_worktrees(project_root: &str, listing: Option<&CommandOutput>) -> (r: Result<
    Vec<Worktree>,
    WorktreeError,
>)
    ensures
        listing is None ==> r is Ok && r->Ok_0.deep_view() == Seq::<WorktreeView>::empty(),
        listing is Some && listing->0.success ==> r is Ok && r->Ok_0.deep_view() == managed(
            records(lines(listing->0.stdout@)),
            trees_dir(project_root@),
        ),
        listing is Some && !listing->0.success ==> r is Err && r->Err_0@ == command_failure(
            "git worktree list failed: "@,
            *listing->0,
        ),
{
    match listing {
        None => {
            let none: Vec<Worktree> = Vec::new();
            assert(none.deep_view() =~= Seq::<WorktreeView>::empty());
            Ok(none)
        },
        Some(out) => {
            match list_git_worktrees(out) {
                Err(e) => Err(e),
                Ok(all) => {
                    let dir = get_trees_dir(project_root);
                    Ok(list_managed(&all, dir.as_str()))
                },
            }
        },
    }
}

/// Whether `w` is the managed worktree of one of `records` that lies under `dir`.
pub open spec fn comes_from(w: WorktreeView, records: Seq<GitWorktreeView>, dir: Seq<char>) -> bool {
    exists|i: int|
        0 <= i < records.len() && is_under((#[trigger] records[i]).path, dir) && managed_record(
            records[i],
            dir,
        ) == Some(w)
}

/// A listed working tree is among the managed ones exactly when its path
/// lies under the managed directory, and it is there with its own path and
/// branch and the name that its path gives it.
pub proof fn lemma_managed_is_prefix_filter(records: Seq<GitWorktreeView>, dir: Seq<char>)
    ensures
        forall|i: int|
            0 <= i < records.len() && is_under((#[trigger] records[i]).path, dir) ==> managed(
                records,
                dir,
            ).contains(managed_record(records[i], dir)->0),
        forall|j: int|
            0 <= j < managed(records, dir).len() ==> comes_from(
                #[trigger] managed(records, dir)[j],
                records,
                dir,
            ),
    decreases records.len(),
{
    let out = managed(records, dir);
    if records.len() > 0 {
        let rest = records.drop_last();
        let last = records.last();
        let before = managed(rest, dir);
        lemma_managed_is_prefix_filter(rest, dir);
        assert forall|i: int|
            0 <= i < records.len() && is_under((#[trigger] records[i]).path, dir) implies out.contains(
            managed_record(records[i], dir)->0,
        ) by {
            if i < rest.len() {
                assert(records[i] == rest[i]);
                let w = managed_record(rest[i], dir)->0;
                assert(before.contains(w));
                let j = choose|j: int| 0 <= j < before.len() && before[j] == w;
                assert(out[j] == w);
            } else {
                assert(out.last() == managed_record(last, dir)->0);
            }
        }
        assert forall|j: int| 0 <= j < out.len() implies comes_from(
            #[trigger] out[j],
            records,
            dir,
        ) by {
            if j < before.len() {
                assert(out[j] == before[j]);
                assert(comes_from(before[j], rest, dir));
                let i = choose|i: int|
                    0 <= i < rest.len() && is_under((#[trigger] rest[i]).path, dir)
                        && managed_record(rest[i], dir) == Some(before[j]);
                assert(records[i] == rest[i]);
            } else {
                assert(managed_record(last, dir) is Some);
                assert(out =~= before + seq![managed_record(last, dir)->0]);
                assert(out[j] == managed_record(last, dir)->0);
                assert(records[records.len() - 1] == last);
            }
        }
    } else {
        assert(out.len() == 0);
    }
}

/// Every managed worktree is named by the last component of its path.
pub proof fn lemma_managed_names(records: Seq<GitWorktreeView>, dir: Seq<char>)
    ensures
        forall|j: int|
            0 <= j < managed(records, dir).len() ==> (#[trigger] managed(records, dir)[j]).name
                == name_of(managed(records, dir)[j].path),
{
    lemma_managed_is_prefix_filter(records, dir);
    let out = managed(records, dir);
    assert forall|j: int| 0 <= j < out.len() implies (#[trigger] out[j]).name == name_of(
        out[j].path,
    ) by {
        assert(comes_from(out[j], records, dir));
    }
}

/// A path is the path of a managed worktree exactly when it is the path of
/// a listed working tree and lies under the managed directory.
pub proof fn lemma_managed_membership(records: Seq<GitWorktreeView>, dir: Seq<char>, p: Seq<char>)
    ensures
        (exists|j: int| 0 <= j < managed(records, dir).len() && managed(records, dir)[j].path == p)
            <==> (is_under(p, dir) && exists|i: int| 0 <= i < records.len() && records[i].path == p),
{
    lemma_managed_is_prefix_filter(records, dir);
    let out = managed(records, dir);
    if exists|j: int| 0 <= j < out.len() && out[j].path == p {
        let j = choose|j: int| 0 <= j < out.len() && out[j].path == p;
        assert(comes_from(out[j], records, dir));
        let i = choose|i: int|
            0 <= i < records.len() && is_under((#[trigger] records[i]).path, dir) && managed_record(
                records[i],
                dir,
            ) == Some(out[j]);
        assert(records[i].path == p);
    }
    if is_under(p, dir) && exists|i: int| 0 <= i < records.len() && records[i].path == p {
        let i = choose|i: int| 0 <= i < records.len() && records[i].path == p;
        let w = managed_record(records[i], dir)->0;
        assert(out.contains(w));
        let j = choose|j: int| 0 <= j < out.len() && out[j] == w;
        assert(out[j].path == p);
    }
}

/// What `ensure_on_main_branch` answers to the output `out` of the
/// current-branch command when `main_branch` is configured.
pub open spec fn main_branch_check(out: CommandOutput, main_branch: Seq<char>) -> Result<
    (),
    WorktreeErrorView,
> {
    if !out.success {
        Err(command_failure("git rev-parse failed: "@, out))
    } else if trim(out.stdout@) == main_branch {
        Ok(())
    } else {
        Err(WorktreeErrorView::WrongBranch { current: trim(out.stdout@), expected: main_branch })
    }
}

/// Succeeds only where the branch that is checked out, as the output `out`
/// of the current-branch command gives it, is `main_branch`.
pub fn ensure_on_main_branch(out: &CommandOutput, main_branch: &str) -> (r: Result<
    (),
    WorktreeError,
>)
    ensures
        match main_branch_check(*out, main_branch@) {
            Ok(_) => r is Ok,
            Err(e) => r is Err && r->Err_0@ == e,
        },
{
    match get_current_branch(out) {
        Err(e) => Err(e),
        Ok(current) => {
            if same_text(current.as_str(), main_branch) {
                Ok(())
            } else {
                Err(WorktreeError::WrongBranch { current, expected: main_branch.to_owned() })
            }
        },
    }
}

/// The path of the worktree called `name` in the repository at `project_root`.
pub open spec fn worktree_dir(project_root: Seq<char>, name: Seq<char>) -> Seq<char> {
    join(trees_dir(project_root), name)
}

/// The path of the worktree called `name` in the repository at `project_root`.
pub fn worktree_path(project_root: &str, name: &str) -> (out: String)
    ensures
        out@ == worktree_dir(project_root@, name@),
{
    let dir = get_trees_dir(project_root);
    path_join(dir.as_str(), name)
}

/// One row of the listing of worktrees.
pub open spec fn listing_row(w: WorktreeView) -> Seq<char> {
    "  "@ + w.name + "\t"@ + w.branch + "\t"@ + w.path + "\n"@
}

/// The rows of the listing of `worktrees`, one after the other.
pub open spec fn listing_rows(worktrees: Seq<WorktreeView>) -> Seq<char>
    decreases worktrees.len(),
{
    if worktrees.len() == 0 {
        Seq::empty()
    } else {
        listing_rows(worktrees.drop_last()) + listing_row(worktrees.last())
    }
}

/// The listing of `worktrees` that goes with an error: a heading and one
/// row for each, without trailing white space; or a sentence that says
/// that there are none.
pub open spec fn worktree_listing(worktrees: Seq<WorktreeView>) -> Seq<char> {
    if worktrees.len() == 0 {
        "No worktrees found."@
    } else {
        trim_end("Current worktrees:\n"@ + listing_rows(worktrees))
    }
}

/// The listing of `worktrees` that goes with an error.
pub fn format_worktree_list(worktrees: &Vec<Worktree>) -> (out: String)
    ensures
        out@ == worktree_listing(worktrees.deep_view()),
{
    if worktrees.len() == 0 {
        return "No worktrees found.".to_owned();
    }
    let ghost all = worktrees.deep_view();
    let mut text = "Current worktrees:\n".to_owned();
    let mut k: usize = 0;
    assert(all.take(0) =~= Seq::<WorktreeView>::empty());
    assert(text@ =~= "Current worktrees:\n"@ + listing_rows(all.take(0)));
    while k < worktrees.len()
        invariant
            k <= worktrees@.len(),
            all == worktrees.deep_view(),
            text@ == "Current worktrees:\n"@ + listing_rows(all.take(k as int)),
        decreases worktrees@.len() - k,
    {
        let w = &worktrees[k];
        proof {
            assert(all.take(k + 1).drop_last() =~= all.take(k as int));
            assert(all.take(k + 1).last() == w@);
        }
        let ghost before = text@;
        text.append("  ");
        text.append(w.name.as_str());
        text.append("\t");
        text.append(w.branch.as_str());
        text.append("\t");
        text.append(w.path.as_str());
        text.append("\n");
        assert(text@ =~= before + listing_row(w@));
        assert(text@ =~= "Current worktrees:\n"@ + listing_rows(all.take(k + 1)));
        k += 1;
    }
    assert(all.take(k as int) =~= all);
    trimmed_end(text.as_str())
}

/// The managed worktree that `current_dir` may lie in: the first component
/// of `current_dir` below the managed directory.
pub fn worktree_candidate(project_root: &str, current_dir: &str) -> (r: Option<String>)
    ensures
        r.deep_view() == first_below(current_dir@, trees_dir(project_root@)),
{
    let dir = get_trees_dir(project_root);
    path_first_below(current_dir, dir.as_str())
}

/// The managed worktree that `current_dir` lies in, given whether the
/// directory of its candidate is there.
pub open spec fn detected(project_root: Seq<char>, current_dir: Seq<char>, present: bool) -> Option<
    Seq<char>,
> {
    if present {
        first_below(current_dir, trees_dir(project_root))
    } else {
        None
    }
}

/// The name of the managed worktree that `current_dir` lies in, if any:
/// the first component of `current_dir` below the managed directory, where
/// `current_dir` lies below it and `present` says that the candidate's
/// directory (see `worktree_candidate`) is there.
pub fn detect_current_worktree(project_root: &str, current_dir: &str, present: bool) -> (r: Option<
    String,
>)
    ensures
        r.deep_view() == detected(project_root@, current_dir@, present),
{
    if present {
        worktree_candidate(project_root, current_dir)
    } else {
        None
    }
}

/// What an error says of the worktrees that are there: their listing, or,
/// where they could not be listed, why.
pub open spec fn known_text(known: Result<Vec<Worktree>, WorktreeError>) -> Seq<char> {
    match known {
        Ok(worktrees) => worktree_listing(worktrees.deep_view()),
        Err(e) => "Failed to list worktrees: "@ + message_of(e@),
    }
}

/// The name of the worktree to act on: `name` where one is given, as it is;
/// else the worktree that `current_dir` lies in. Where there is neither,
/// the error carries what `known` tells of the worktrees that are there.
pub fn resolve_worktree_name(
    project_root: &str,
    name: Option<&str>,
    current_dir: &str,
    present: bool,
    known: &Result<Vec<Worktree>, WorktreeError>,
) -> (r: Result<String, WorktreeError>)
    ensures
        name is Some ==> r is Ok && r->Ok_0@ == name->0@,
        name is None && detected(project_root@, current_dir@, present) is Some ==> r is Ok
            && r->Ok_0@ == detected(project_root@, current_dir@, present)->0,
        name is None && detected(project_root@, current_dir@, present) is None ==> r is Err
            && r->Err_0@ == (WorktreeErrorView::AmbiguousContext { listing: known_text(*known) }),
{
    match name {
        Some(given) => Ok(given.to_owned()),
        None => match detect_current_worktree(project_root, current_dir, present) {
            Some(found) => Ok(found),
            None => {
                let listing = match known {
                    Ok(worktrees) => format_worktree_list(worktrees),
                    Err(e) => {
                        let why = e.message();
                        joined("Failed to list worktrees: ", why.as_str())
                    },
                };
                Err(WorktreeError::AmbiguousContext { listing })
            },
        },
    }
}

/// The path of the worktree called `name`, which must be there: `present`
/// says whether its directory is. Where it is not, the error carries the
/// listing of the worktrees `known`, or is the error that kept them from
/// being listed.
pub fn get_worktree_path(
    project_root: &str,
    name: &str,
    present: bool,
    known: &Result<Vec<Worktree>, WorktreeError>,
) -> (r: Result<String, WorktreeError>)
    ensures
        present ==> r is Ok && r->Ok_0@ == worktree_dir(project_root@, name@),
        !present && known is Ok ==> r is Err && r->Err_0@ == (WorktreeErrorView::NotFound {
            name: name@,
            known: Some(worktree_listing(known->Ok_0.deep_view())),
        }),
        !present && known is Err ==> r is Err && r->Err_0@ == known->Err_0@,
{
    if present {
        return Ok(worktree_path(project_root, name));
    }
    match known {
        Ok(worktrees) => Err(
            WorktreeError::NotFound {
                name: name.to_owned(),
                known: Some(format_worktree_list(worktrees)),
            },
        ),
        Err(e) => Err(e.duplicate()),
    }
}

/// How the worktree to enter is chosen.
#[derive(Debug, Clone, PartialEq, Eq)]
pub enum Selection {
    /// There is one worktree only: it is chosen.
    Only(String),
    /// The user is asked to pick one of these names.
    Ask(Vec<String>),
}

/// The names of `worktrees`, in order.
pub open spec fn names_of(worktrees: Seq<WorktreeView>) -> Seq<Seq<char>> {
    worktrees.map_values(|w: WorktreeView| w.name)
}

/// How the worktree to enter is chosen among `worktrees`: none is an error,
/// a single one is taken, and among several the user is asked.
pub fn select_worktree_name(worktrees: &Vec<Worktree>) -> (r: Result<Selection, WorktreeError>)
    ensures
        worktrees@.len() == 0 ==> r is Err && r->Err_0@ == WorktreeErrorView::NoWorktrees,
        worktrees@.len() == 1 ==> r is Ok && r->Ok_0 is Only && r->Ok_0->Only_0@
            == worktrees@[0]@.name,
        worktrees@.len() > 1 ==> r is Ok && r->Ok_0 is Ask && r->Ok_0->Ask_0.deep_view()
            == names_of(worktrees.deep_view()),
{
    if worktrees.len() == 0 {
        return Err(WorktreeError::NoWorktrees);
    }
    if worktrees.len() == 1 {
        return Ok(Selection::Only(worktrees[0].name.clone()));
    }
    let mut names: Vec<String> = Vec::new();
    let mut k: usize = 0;
    while k < worktrees.len()
        invariant
            k <= worktrees@.len(),
            names@.len() == k,
            forall|i: int| 0 <= i < k ==> (#[trigger] names@[i])@ == worktrees@[i]@.name,
        decreases worktrees@.len() - k,
    {
        names.push(worktrees[k].name.clone());
        k += 1;
    }
    assert(names.deep_view() =~= names_of(worktrees.deep_view()));
    Ok(Selection::Ask(names))
}

/// How asking the user ended.
#[derive(Debug, Clone, PartialEq, Eq)]
pub enum PromptOutcome {
    /// The user picked this name.
    Chosen(String),
    /// The user cancelled or interrupted the question.
    Cancelled,
    /// The question could not be asked.
    Failed(String),
}

/// The name that the user picked, none where the user declined, and an
/// error where the question could not be asked.
pub fn selected_name(outcome: PromptOutcome) -> (r: Result<Option<String>, WorktreeError>)
    ensures
        outcome matches PromptOutcome::Chosen(name) ==> r is Ok && r->Ok_0 is Some
            && r->Ok_0->0@ == name@,
        outcome is Cancelled ==> r is Ok && r->Ok_0 is None,
        outcome is Failed ==> r is Err && r->Err_0@ == (WorktreeErrorView::Prompt {
            message: "Failed to prompt for worktree selection"@,
        }),
{
    match outcome {
        PromptOutcome::Chosen(name) => Ok(Some(name)),
        PromptOutcome::Cancelled => Ok(None),
        PromptOutcome::Failed(_) => Err(
            WorktreeError::Prompt { message: "Failed to prompt for worktree selection".to_owned() },
        ),
    }
}

/// How the shell that was started in a worktree ended.
#[derive(Debug, Clone, Copy, PartialEq, Eq)]
pub struct ShellExit {
    pub success: bool,
    /// The exit code, where the shell ended with one.
    pub code: Option<i32>,
}

/// The shell to start: the configured one, or `/bin/sh` where none is configured.
pub fn shell_program(configured: Option<String>) -> (out: String)
    ensures
        configured is Some ==> out@ == configured->0@,
        configured is None ==> out@ == "/bin/sh"@,
{
    match configured {
        Some(shell) => shell,
        None => "/bin/sh".to_owned(),
    }
}

/// The exit code that the program itself ends with after the shell in a
/// worktree has ended: that of the shell where it was unsuccessful and had
/// one, and none otherwise.
pub fn enter_worktree(exit: &ShellExit) -> (leave: Option<i32>)
    ensures
        leave == (if exit.success {
            None
        } else {
            exit.code
        }),
{
    if !exit.success {
        exit.code
    } else {
        None
    }
}

/// A worktree with a simple name is a managed one: its directory lies
/// directly below the managed directory, and from anywhere inside it the
/// worktree is found again by its name.
pub proof fn lemma_worktree_dir_is_managed(root: Seq<char>, name: Seq<char>)
    requires
        is_simple_name(name),
    ensures
        is_under(worktree_dir(root, name), trees_dir(root)),
        detected(root, worktree_dir(root, name), true) == Some(name),
        name != dot_dot() ==> name_of(worktree_dir(root, name)) == name,
        forall|deeper: Seq<char>|
            is_under(deeper, worktree_dir(root, name)) ==> #[trigger] detected(root, deeper, true)
                == Some(name),
{
    let dir = trees_dir(root);
    let here = worktree_dir(root, name);
    lemma_join_lies_below(dir, name);
    lemma_components_join(dir, name);
    assert forall|deeper: Seq<char>| is_under(deeper, here) implies #[trigger] detected(
        root,
        deeper,
        true,
    ) == Some(name) by {
        lemma_under_transitive(deeper, here, dir);
        let c = components(deeper);
        let h = components(here);
        assert(h[components(dir).len() as int] == name);
        assert(c.subrange(0, h.len() as int)[components(dir).len() as int] == c[components(
            dir,
        ).len() as int]);
    }
}

} // verus!
