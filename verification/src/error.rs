//! The ways an operation on worktrees can fail.

use crate::text::joined;
use vstd::prelude::*;

verus! {

/// Why an operation failed.
#[derive(Debug, Clone, PartialEq, Eq)]
pub enum WorktreeError {
    /// A version-control command ended unsuccessfully; `message` names the
    /// command and carries what it wrote to its error stream.
    VcsCommand { message: String },
    /// A worktree was to be created while another branch than the main one was checked out.
    WrongBranch { current: String, expected: String },
    /// A worktree of that name is already there.
    AlreadyExists { name: String },
    /// No worktree of that name is there; `known` describes those that are.
    NotFound { name: String, known: Option<String> },
    /// No name was given and the current directory lies in no managed worktree.
    AmbiguousContext { listing: String },
    /// There is no managed worktree to choose from.
    NoWorktrees,
    /// One step of bringing `source` to `destination` failed.
    Link { source: String, destination: String, message: String },
    /// The user could not be asked to choose.
    Prompt { message: String },
    /// A step on the file system, outside any link operation, failed.
    Io { message: String },
    /// The current directory lies in no repository.
    NotARepository,
}

/// The mathematical value of a `WorktreeError`.
pub enum WorktreeErrorView {
    VcsCommand { message: Seq<char> },
    WrongBranch { current: Seq<char>, expected: Seq<char> },
    AlreadyExists { name: Seq<char> },
    NotFound { name: Seq<char>, known: Option<Seq<char>> },
    AmbiguousContext { listing: Seq<char> },
    NoWorktrees,
    Link { source: Seq<char>, destination: Seq<char>, message: Seq<char> },
    Prompt { message: Seq<char> },
    Io { message: Seq<char> },
    NotARepository,
}

impl View for WorktreeError {
    type V = WorktreeErrorView;

    open spec fn view(&self) -> WorktreeErrorView {
        match self {
            WorktreeError::VcsCommand { message } => WorktreeErrorView::VcsCommand {
                message: message@,
            },
            WorktreeError::WrongBranch { current, expected } => WorktreeErrorView::WrongBranch {
                current: current@,
                expected: expected@,
            },
            WorktreeError::AlreadyExists { name } => WorktreeErrorView::AlreadyExists {
                name: name@,
            },
            WorktreeError::NotFound { name, known } => WorktreeErrorView::NotFound {
                name: name@,
                known: known.deep_view(),
            },
            WorktreeError::AmbiguousContext { listing } => WorktreeErrorView::AmbiguousContext {
                listing: listing@,
            },
            WorktreeError::NoWorktrees => WorktreeErrorView::NoWorktrees,
            WorktreeError::Link { source, destination, message } => WorktreeErrorView::Link {
                source: source@,
                destination: destination@,
                message: message@,
            },
            WorktreeError::Prompt { message } => WorktreeErrorView::Prompt { message: message@ },
            WorktreeError::Io { message } => WorktreeErrorView::Io { message: message@ },
            WorktreeError::NotARepository => WorktreeErrorView::NotARepository,
        }
    }
}

/// What the user is told of the failure `e`.
pub open spec fn message_of(e: WorktreeErrorView) -> Seq<char> {
    match e {
        WorktreeErrorView::VcsCommand { message } => message,
        WorktreeErrorView::WrongBranch { current, expected } => {
            "Not on main branch. Current branch is '"@ + current + "', expected '"@ + expected
                + "'. Switch to the main branch before creating a worktree."@
        },
        WorktreeErrorView::AlreadyExists { name } => "Worktree '"@ + name + "' already exists"@,
        WorktreeErrorView::NotFound { name, known } => match known {
            Some(text) => "Worktree '"@ + name + "' does not exist.\n"@ + text,
            None => "Worktree '"@ + name + "' does not exist"@,
        },
        WorktreeErrorView::AmbiguousContext { listing } => {
            "Not inside a worktree. Please specify a worktree name.\n"@ + listing
        },
        WorktreeErrorView::NoWorktrees => "No worktrees found."@,
        WorktreeErrorView::Link { source, destination, message } => message,
        WorktreeErrorView::Prompt { message } => message,
        WorktreeErrorView::Io { message } => message,
        WorktreeErrorView::NotARepository => "Not in a git repository"@,
    }
}

impl WorktreeError {
    /// What the user is told of this failure.
    pub fn message(&self) -> (out: String)
        ensures
            out@ == message_of(self@),
    {
        match self {
            WorktreeError::VcsCommand { message } => message.clone(),
            WorktreeError::WrongBranch { current, expected } => {
                let mut out = joined("Not on main branch. Current branch is '", current.as_str());
                out.append("', expected '");
                out.append(expected.as_str());
                out.append("'. Switch to the main branch before creating a worktree.");
                out
            },
            WorktreeError::AlreadyExists { name } => {
                let mut out = joined("Worktree '", name.as_str());
                out.append("' already exists");
                out
            },
            WorktreeError::NotFound { name, known } => {
                let mut out = joined("Worktree '", name.as_str());
                match known {
                    Some(text) => {
                        out.append("' does not exist.\n");
                        out.append(text.as_str());
                    },
                    None => {
                        out.append("' does not exist");
                    },
                }
                out
            },
            WorktreeError::AmbiguousContext { listing } => joined(
                "Not inside a worktree. Please specify a worktree name.\n",
                listing.as_str(),
            ),
            WorktreeError::NoWorktrees => "No worktrees found.".to_owned(),
            WorktreeError::Link { source, destination, message } => message.clone(),
            WorktreeError::Prompt { message } => message.clone(),
            WorktreeError::Io { message } => message.clone(),
            WorktreeError::NotARepository => "Not in a git repository".to_owned(),
        }
    }

    /// A copy of this failure.
    pub fn duplicate(&self) -> (out: WorktreeError)
        ensures
            out@ == self@,
    {
        match self {
            WorktreeError::VcsCommand { message } => WorktreeError::VcsCommand {
                message: message.clone(),
            },
            WorktreeError::WrongBranch { current, expected } => WorktreeError::WrongBranch {
                current: current.clone(),
                expected: expected.clone(),
            },
            WorktreeError::AlreadyExists { name } => WorktreeError::AlreadyExists {
                name: name.clone(),
            },
            WorktreeError::NotFound { name, known } => WorktreeError::NotFound {
                name: name.clone(),
                known: match known {
                    Some(text) => Some(text.clone()),
                    None => None,
                },
            },
            WorktreeError::AmbiguousContext { listing } => WorktreeError::AmbiguousContext {
                listing: listing.clone(),
            },
            WorktreeError::NoWorktrees => WorktreeError::NoWorktrees,
            WorktreeError::Link { source, destination, message } => WorktreeError::Link {
                source: source.clone(),
                destination: destination.clone(),
                message: message.clone(),
            },
            WorktreeError::Prompt { message } => WorktreeError::Prompt { message: message.clone() },
            WorktreeError::Io { message } => WorktreeError::Io { message: message.clone() },
            WorktreeError::NotARepository => WorktreeError::NotARepository,
        }
    }
}

} // verus!
