//! Finding the repository that a directory belongs to, one directory at a
//! time: the caller looks for the `.git` entry of a directory and is told
//! whether the root is found, or which directory to look at next.

use crate::error::{WorktreeError, WorktreeErrorView};
use crate::path::{join, parent, path_join, path_parent};
use crate::text::{is_prefix, joined, strip_prefix, trim, trimmed};
use vstd::prelude::*;

verus! {

/// What lies at the `.git` entry of a directory.
#[derive(Debug, Clone, PartialEq, Eq)]
pub enum GitEntry {
    /// Nothing.
    Missing,
    /// A directory: this is the main working tree.
    Directory,
    /// A file with this content: this is a linked working tree.
    File { content: String },
    /// A file that could not be read.
    Unreadable,
}

/// The mathematical value of a `GitEntry`.
pub enum GitEntryView {
    Missing,
    Directory,
    File { content: Seq<char> },
    Unreadable,
}

impl View for GitEntry {
    type V = GitEntryView;

    open spec fn view(&self) -> GitEntryView {
        match self {
            GitEntry::Missing => GitEntryView::Missing,
            GitEntry::Directory => GitEntryView::Directory,
            GitEntry::File { content } => GitEntryView::File { content: content@ },
            GitEntry::Unreadable => GitEntryView::Unreadable,
        }
    }
}

/// What to do after a look at one directory.
#[derive(Debug, Clone, PartialEq, Eq)]
pub enum RootStep {
    /// The repository root is this.
    Found(String),
    /// Look at this directory next.
    Ascend(String),
    /// The search is over without a root.
    Failed(WorktreeError),
}

/// The mathematical value of a `RootStep`.
pub enum RootStepView {
    Found(Seq<char>),
    Ascend(Seq<char>),
    Failed(WorktreeErrorView),
}

impl View for RootStep {
    type V = RootStepView;

    open spec fn view(&self) -> RootStepView {
        match self {
            RootStep::Found(path) => RootStepView::Found(path@),
            RootStep::Ascend(path) => RootStepView::Ascend(path@),
            RootStep::Failed(e) => RootStepView::Failed(e@),
        }
    }
}

/// The directory three levels above `path`.
pub open spec fn third_parent(path: Seq<char>) -> Option<Seq<char>> {
    match parent(path) {
        None => None,
        Some(first) => match parent(first) {
            None => None,
            Some(second) => parent(second),
        },
    }
}

/// The repository root that the content of a `.git` file names: the file
/// holds `gitdir: ` and the path of the working tree's own directory inside
/// the repository's `.git/worktrees`, three levels below the root.
pub open spec fn gitdir_root(content: Seq<char>) -> Option<Seq<char>> {
    if is_prefix("gitdir: "@, content) {
        third_parent(trim(content.skip("gitdir: "@.len() as int)))
    } else {
        None
    }
}

/// What follows from `entry` lying at the `.git` entry of `dir`. A `.git`
/// directory makes `dir` the root. A `.git` file names the root, and where
/// it does not, `dir` is taken. Where nothing is there, the directory that
/// holds `dir` is next, and without one the search fails.
pub open spec fn root_step(dir: Seq<char>, entry: GitEntryView) -> RootStepView {
    match entry {
        GitEntryView::Directory => RootStepView::Found(dir),
        GitEntryView::File { content } => match gitdir_root(content) {
            Some(root) => RootStepView::Found(root),
            None => RootStepView::Found(dir),
        },
        GitEntryView::Unreadable => RootStepView::Failed(
            WorktreeErrorView::Io {
                message: "Failed to read .git file: "@ + join(dir, ".git"@),
            },
        ),
        GitEntryView::Missing => match parent(dir) {
            Some(above) => RootStepView::Ascend(above),
            None => RootStepView::Failed(WorktreeErrorView::NotARepository),
        },
    }
}

/// The path of the `.git` entry of `dir`.
pub fn git_entry_path(dir: &str) -> (out: String)
    ensures
        out@ == join(dir@, ".git"@),
{
    path_join(dir, ".git")
}

/// The directory three levels above `path`.
fn third_parent_of(path: &str) -> (r: Option<String>)
    ensures
        r.deep_view() == third_parent(path@),
{
    match path_parent(path) {
        None => None,
        Some(first) => match path_parent(first.as_str()) {
            None => None,
            Some(second) => path_parent(second.as_str()),
        },
    }
}

/// What to do after `entry` was found at the `.git` entry of `dir`.
pub fn find_project_root(dir: &str, entry: &GitEntry) -> (out: RootStep)
    ensures
        out@ == root_step(dir@, entry@),
{
    match entry {
        GitEntry::Directory => RootStep::Found(dir.to_owned()),
        GitEntry::File { content } => {
            let named = match strip_prefix(content.as_str(), "gitdir: ") {
                Some(rest) => {
                    let gitdir = trimmed(rest.as_str());
                    third_parent_of(gitdir.as_str())
                },
                None => None,
            };
            match named {
                Some(root) => RootStep::Found(root),
                None => RootStep::Found(dir.to_owned()),
            }
        },
        GitEntry::Unreadable => {
            let path = git_entry_path(dir);
            RootStep::Failed(
                WorktreeError::Io { message: joined("Failed to read .git file: ", path.as_str()) },
            )
        },
        GitEntry::Missing => match path_parent(dir) {
            Some(above) => RootStep::Ascend(above),
            None => RootStep::Failed(WorktreeError::NotARepository),
        },
    }
}

} // verus!
