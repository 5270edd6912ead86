//! Creating a managed worktree: the branch check, the managed directory,
//! the choice of the branch, the command that creates the working tree, and
//! the linking of the configured files.
//!
//! Commands and steps on the file system are the caller's work: a run names
//! the step to take and is told what came of it.

use crate::config::{get_trees_dir, trees_dir, Config};
use crate::error::{WorktreeError, WorktreeErrorView};
use crate::text::{joined, trim};
use crate::vcs::{
    add_worktree_args, add_worktree_command, branch_exists_args, branch_exists_command,
    current_branch_args, current_branch_command, CommandOutput,
};
use crate::worktree::{ensure_on_main_branch, main_branch_check, worktree_dir, worktree_path};
use vstd::prelude::*;

verus! {

/// The step that the creation of a worktree is about to take.
#[derive(Debug, Clone, Copy, PartialEq, Eq, Structural)]
pub enum AddStage {
    /// Ask which branch is checked out.
    Branch,
    /// Create the managed directory.
    Directory,
    /// Find out whether the worktree's directory is there already.
    Path,
    /// Ask whether a branch with the worktree's name exists.
    Lookup,
    /// Create the working tree.
    Create,
    /// Link the configured files into it.
    Files,
    /// Nothing is left to do.
    Finished,
}

/// The step that the creation of a worktree asks for.
#[derive(Debug, Clone, PartialEq, Eq)]
pub enum AddAction {
    /// Run the version-control command with these arguments.
    Run { args: Vec<String> },
    /// Create the directory and those above it.
    CreateDirAll { path: String },
    /// Find out whether anything lies at the path.
    ProbePath { path: String },
    /// Link the configured files into the worktree at the path.
    LinkFiles { path: String },
    /// Nothing is left to do.
    Finish,
}

/// The mathematical value of an `AddAction`.
pub enum AddActionView {
    Run { args: Seq<Seq<char>> },
    CreateDirAll { path: Seq<char> },
    ProbePath { path: Seq<char> },
    LinkFiles { path: Seq<char> },
    Finish,
}

impl View for AddAction {
    type V = AddActionView;

    open spec fn view(&self) -> AddActionView {
        match self {
            AddAction::Run { args } => AddActionView::Run { args: args.deep_view() },
            AddAction::CreateDirAll { path } => AddActionView::CreateDirAll { path: path@ },
            AddAction::ProbePath { path } => AddActionView::ProbePath { path: path@ },
            AddAction::LinkFiles { path } => AddActionView::LinkFiles { path: path@ },
            AddAction::Finish => AddActionView::Finish,
        }
    }
}

/// What came of a step of the creation of a worktree.
#[derive(Debug, Clone, PartialEq, Eq)]
pub enum AddEvent {
    /// The command ran and left this.
    Output(CommandOutput),
    /// The step on the file system was carried out.
    Done,
    /// The step on the file system failed, with this description.
    Failed(String),
    /// Whether something lies at the path.
    Present(bool),
    /// The files were linked, or linking failed with this error.
    Linked(Option<WorktreeError>),
}

/// The mathematical value of an `AddEvent`.
pub enum AddEventView {
    Output(CommandOutput),
    Done,
    Failed(Seq<char>),
    Present(bool),
    Linked(Option<WorktreeErrorView>),
}

impl View for AddEvent {
    type V = AddEventView;

    open spec fn view(&self) -> AddEventView {
        match self {
            AddEvent::Output(out) => AddEventView::Output(*out),
            AddEvent::Done => AddEventView::Done,
            AddEvent::Failed(why) => AddEventView::Failed(why@),
            AddEvent::Present(there) => AddEventView::Present(*there),
            AddEvent::Linked(failure) => AddEventView::Linked(
                match failure {
                    Some(e) => Some(e@),
                    None => None,
                },
            ),
        }
    }
}

/// The creation of a worktree under way.
#[derive(Debug, Clone, PartialEq, Eq)]
pub struct AddRun {
    /// The repository root.
    pub root: String,
    /// The name of the worktree.
    pub name: String,
    /// The branch to check out, where one was asked for.
    pub branch: Option<String>,
    /// The branch from which worktrees are created.
    pub main_branch: String,
    pub stage: AddStage,
    /// Whether the working tree is created on a new branch.
    pub create_new: bool,
    /// The failure that ended the creation.
    pub failure: Option<WorktreeError>,
}

/// The mathematical value of an `AddRun`.
pub struct AddRunView {
    pub root: Seq<char>,
    pub name: Seq<char>,
    pub branch: Option<Seq<char>>,
    pub main_branch: Seq<char>,
    pub stage: AddStage,
    pub create_new: bool,
    pub failure: Option<WorktreeErrorView>,
}

impl View for AddRun {
    type V = AddRunView;

    open spec fn view(&self) -> AddRunView {
        AddRunView {
            root: self.root@,
            name: self.name@,
            branch: self.branch.deep_view(),
            main_branch: self.main_branch@,
            stage: self.stage,
            create_new: self.create_new,
            failure: match self.failure {
                Some(e) => Some(e@),
                None => None,
            },
        }
    }
}

/// The creation of a worktree at its start.
pub open spec fn add_start(
    root: Seq<char>,
    name: Seq<char>,
    branch: Option<Seq<char>>,
    main_branch: Seq<char>,
) -> AddRunView {
    AddRunView {
        root,
        name,
        branch,
        main_branch,
        stage: AddStage::Branch,
        create_new: false,
        failure: None,
    }
}

/// The branch of the new working tree: the one asked for, else the one
/// called like the worktree.
pub open spec fn add_branch(v: AddRunView) -> Seq<char> {
    match v.branch {
        Some(b) => b,
        None => v.name,
    }
}

/// The step that the creation `v` asks for.
pub open spec fn add_action(v: AddRunView) -> AddActionView {
    match v.stage {
        AddStage::Branch => AddActionView::Run { args: current_branch_args() },
        AddStage::Directory => AddActionView::CreateDirAll { path: trees_dir(v.root) },
        AddStage::Path => AddActionView::ProbePath { path: worktree_dir(v.root, v.name) },
        AddStage::Lookup => AddActionView::Run { args: branch_exists_args(v.name) },
        AddStage::Create => AddActionView::Run {
            args: add_worktree_args(worktree_dir(v.root, v.name), add_branch(v), v.create_new),
        },
        AddStage::Files => AddActionView::LinkFiles { path: worktree_dir(v.root, v.name) },
        AddStage::Finished => AddActionView::Finish,
    }
}

/// The creation `v` ended by the failure `e`.
pub open spec fn add_failed(v: AddRunView, e: WorktreeErrorView) -> AddRunView {
    AddRunView { stage: AddStage::Finished, failure: Some(e), ..v }
}

/// The creation `v` at the step `stage`.
pub open spec fn add_at(v: AddRunView, stage: AddStage) -> AddRunView {
    AddRunView { stage, ..v }
}

/// The creation `v` after its step was answered by `event`.
///
/// It goes on only while the main branch is checked out and no directory
/// of the worktree's name is there. A branch that was asked for is checked
/// out as it is; else the branch called like the worktree is checked out
/// where it exists and created where it does not. Every failure ends the
/// creation; an answer that does not fit the step changes nothing.
pub open spec fn add_after(v: AddRunView, event: AddEventView) -> AddRunView {
    match (v.stage, event) {
        (AddStage::Branch, AddEventView::Output(out)) => match main_branch_check(
            out,
            v.main_branch,
        ) {
            Ok(_) => add_at(v, AddStage::Directory),
            Err(e) => add_failed(v, e),
        },
        (AddStage::Directory, AddEventView::Done) => add_at(v, AddStage::Path),
        (AddStage::Directory, AddEventView::Failed(_)) => add_failed(
            v,
            WorktreeErrorView::Io { message: "Failed to create trees dir: "@ + trees_dir(v.root) },
        ),
        (AddStage::Path, AddEventView::Present(true)) => add_failed(
            v,
            WorktreeErrorView::AlreadyExists { name: v.name },
        ),
        (AddStage::Path, AddEventView::Present(false)) => if v.branch is Some {
            add_at(v, AddStage::Create)
        } else {
            add_at(v, AddStage::Lookup)
        },
        (AddStage::Lookup, AddEventView::Output(out)) => AddRunView {
            stage: AddStage::Create,
            create_new: !out.success,
            ..v
        },
        (AddStage::Create, AddEventView::Output(out)) => if out.success {
            add_at(v, AddStage::Files)
        } else {
            add_failed(
                v,
                WorktreeErrorView::VcsCommand {
                    message: "git worktree add failed: "@ + out.stderr@,
                },
            )
        },
        (AddStage::Files, AddEventView::Linked(None)) => add_at(v, AddStage::Finished),
        (AddStage::Files, AddEventView::Linked(Some(e))) => add_failed(v, e),
        _ => v,
    }
}

/// Whether the creation `v` is in a state that it can have reached: it has
/// a failure only when it is over, looks for a branch of the worktree's
/// name only where no branch was asked for, and creates a new branch only
/// where none was asked for.
pub open spec fn add_is_sound(v: AddRunView) -> bool {
    &&& v.failure is Some ==> v.stage == AddStage::Finished
    &&& v.stage == AddStage::Lookup ==> v.branch is None
    &&& v.create_new ==> v.branch is None
}

/// The creation of a worktree starts sound and stays sound whatever it is told.
pub proof fn lemma_add_stays_sound(v: AddRunView, event: AddEventView)
    ensures
        add_is_sound(add_start(v.root, v.name, v.branch, v.main_branch)),
        add_is_sound(v) ==> add_is_sound(add_after(v, event)),
{
}

/// How the creation `v` ended, once it has: with the path of the new
/// worktree, or with the failure that ended it.
pub open spec fn add_result(v: AddRunView) -> Option<Result<Seq<char>, WorktreeErrorView>> {
    if v.stage != AddStage::Finished {
        None
    } else {
        match v.failure {
            None => Some(Ok(worktree_dir(v.root, v.name))),
            Some(e) => Some(Err(e)),
        }
    }
}

/// Starts creating the worktree called `name` in the repository at
/// `project_root`, with `branch` checked out where one is given, under the
/// configuration `config`.
pub fn add_worktree(project_root: &str, name: &str, branch: Option<&str>, config: &Config) -> (out: AddRun)
    ensures
        out@ == add_start(
            project_root@,
            name@,
            match branch {
                Some(b) => Some(b@),
                None => None,
            },
            config@.main_branch,
        ),
{
    AddRun {
        root: project_root.to_owned(),
        name: name.to_owned(),
        branch: match branch {
            Some(b) => Some(b.to_owned()),
            None => None,
        },
        main_branch: config.main_branch.clone(),
        stage: AddStage::Branch,
        create_new: false,
        failure: None,
    }
}

impl AddRun {
    /// The step to take now.
    pub fn action(&self) -> (out: AddAction)
        ensures
            out@ == add_action(self@),
    {
        match self.stage {
            AddStage::Branch => AddAction::Run { args: current_branch_command() },
            AddStage::Directory => AddAction::CreateDirAll {
                path: get_trees_dir(self.root.as_str()),
            },
            AddStage::Path => AddAction::ProbePath {
                path: worktree_path(self.root.as_str(), self.name.as_str()),
            },
            AddStage::Lookup => AddAction::Run { args: branch_exists_command(self.name.as_str()) },
            AddStage::Create => {
                let path = worktree_path(self.root.as_str(), self.name.as_str());
                let branch = match &self.branch {
                    Some(b) => b.as_str(),
                    None => self.name.as_str(),
                };
                AddAction::Run { args: add_worktree_command(path.as_str(), branch, self.create_new) }
            },
            AddStage::Files => AddAction::LinkFiles {
                path: worktree_path(self.root.as_str(), self.name.as_str()),
            },
            AddStage::Finished => AddAction::Finish,
        }
    }

    /// Ends the creation with the failure `e`.
    fn fail(&mut self, e: WorktreeError)
        ensures
            final(self)@ == add_failed(old(self)@, e@),
    {
        self.failure = Some(e);
        self.stage = AddStage::Finished;
    }

    /// Takes in what came of the step that `action` gave.
    pub fn advance(&mut self, event: AddEvent)
        ensures
            final(self)@ == add_after(old(self)@, event@),
    {
        match self.stage {
            AddStage::Branch => match event {
                AddEvent::Output(out) => {
                    match ensure_on_main_branch(&out, self.main_branch.as_str()) {
                        Ok(_) => {
                            self.stage = AddStage::Directory;
                        },
                        Err(e) => {
                            self.fail(e);
                        },
                    }
                },
                _ => {},
            },
            AddStage::Directory => match event {
                AddEvent::Done => {
                    self.stage = AddStage::Path;
                },
                AddEvent::Failed(_) => {
                    let dir = get_trees_dir(self.root.as_str());
                    self.fail(
                        WorktreeError::Io {
                            message: joined("Failed to create trees dir: ", dir.as_str()),
                        },
                    );
                },
                _ => {},
            },
            AddStage::Path => match event {
                AddEvent::Present(true) => {
                    let name = self.name.clone();
                    self.fail(WorktreeError::AlreadyExists { name });
                },
                AddEvent::Present(false) => {
                    if self.branch.is_some() {
                        self.stage = AddStage::Create;
                    } else {
                        self.stage = AddStage::Lookup;
                    }
                },
                _ => {},
            },
            AddStage::Lookup => match event {
                AddEvent::Output(out) => {
                    self.create_new = !out.success;
                    self.stage = AddStage::Create;
                },
                _ => {},
            },
            AddStage::Create => match event {
                AddEvent::Output(out) => {
                    if out.success {
                        self.stage = AddStage::Files;
                    } else {
                        self.fail(
                            WorktreeError::VcsCommand {
                                message: joined("git worktree add failed: ", out.stderr.as_str()),
                            },
                        );
                    }
                },
                _ => {},
            },
            AddStage::Files => match event {
                AddEvent::Linked(None) => {
                    self.stage = AddStage::Finished;
                },
                AddEvent::Linked(Some(e)) => {
                    self.fail(e);
                },
                _ => {},
            },
            AddStage::Finished => {},
        }
    }

    /// How the creation ended, once it has.
    pub fn result(&self) -> (out: Option<Result<String, WorktreeError>>)
        ensures
            match add_result(self@) {
                None => out is None,
                Some(Ok(path)) => out is Some && out->0 is Ok && out->0->Ok_0@ == path,
                Some(Err(e)) => out is Some && out->0 is Err && out->0->Err_0@ == e,
            },
    {
        match self.stage {
            AddStage::Finished => match &self.failure {
                None => Some(Ok(worktree_path(self.root.as_str(), self.name.as_str()))),
                Some(e) => Some(Err(e.duplicate())),
            },
            _ => None,
        }
    }
}

/// Whether the step `action` is the command that creates a working tree.
pub open spec fn creates_worktree(action: AddActionView) -> bool {
    action matches AddActionView::Run { args } && args.len() >= 2 && args[0] == "worktree"@
        && args[1] == "add"@
}

/// A worktree is created only from the main branch: where the answer to
/// the first step shows another branch checked out, the creation ends at
/// once with that error, and from then on it asks for nothing, whatever it
/// is told. The first step itself is the question for the branch.
pub proof fn lemma_wrong_branch_stops(v: AddRunView, out: CommandOutput, later: AddEventView)
    requires
        v.stage == AddStage::Branch,
        out.success,
        trim(out.stdout@) != v.main_branch,
    ensures
        add_action(v) == (AddActionView::Run { args: current_branch_args() }),
        add_result(add_after(v, AddEventView::Output(out))) == Some(
            Err::<Seq<char>, WorktreeErrorView>(
                WorktreeErrorView::WrongBranch {
                    current: trim(out.stdout@),
                    expected: v.main_branch,
                },
            ),
        ),
        add_action(add_after(v, AddEventView::Output(out))) == AddActionView::Finish,
        add_after(add_after(v, AddEventView::Output(out)), later) == add_after(
            v,
            AddEventView::Output(out),
        ),
{
}

/// The command that creates the working tree is asked for at one step
/// only, which is reached only after the main branch was seen checked out
/// and the worktree's directory was seen not to be there.
pub proof fn lemma_create_needs_checks(v: AddRunView, event: AddEventView)
    ensures
        creates_worktree(add_action(v)) ==> v.stage == AddStage::Create,
        add_after(v, event).stage == AddStage::Create && v.stage != AddStage::Create ==> (v.stage
            == AddStage::Path && event == AddEventView::Present(false)) || v.stage
            == AddStage::Lookup,
        add_after(v, event).stage == AddStage::Path && v.stage != AddStage::Path ==> v.stage
            == AddStage::Directory,
        add_after(v, event).stage == AddStage::Directory && v.stage != AddStage::Directory ==> v.stage
            == AddStage::Branch && event is Output && main_branch_check(
            event->Output_0,
            v.main_branch,
        ) is Ok,
{
    reveal_strlit("worktree");
    reveal_strlit("rev-parse");
    reveal_strlit("show-ref");
    if v.stage == AddStage::Branch {
        assert(current_branch_args()[0] == "rev-parse"@);
        assert("rev-parse"@.len() != "worktree"@.len());
    }
    if v.stage == AddStage::Lookup {
        assert(branch_exists_args(v.name)[0] == "show-ref"@);
        assert("show-ref"@[0] != "worktree"@[0]);
    }
}

} // verus!
