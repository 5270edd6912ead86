//! Bringing one shared file into one worktree: the steps on the file system
//! that replace whatever occupies the destination by a link to the source
//! or a copy of it.
//!
//! The steps are decided here and carried out by the caller, who answers
//! each step with what came of it.

use crate::config::LinkType;
use crate::error::{WorktreeError, WorktreeErrorView};
use crate::path::{parent, path_parent};
use crate::text::joined;
use vstd::prelude::*;

verus! {

/// What lies at a destination, links not followed.
#[derive(Debug, Clone, Copy, PartialEq, Eq, Structural)]
pub enum Occupant {
    /// Nothing.
    Vacant,
    /// A directory of its own, not a link to one.
    Directory,
    /// A file or a symbolic link.
    Entry,
}

/// One step on the file system.
#[derive(Debug, Clone, PartialEq, Eq)]
pub enum FsAction {
    /// Create the directory and those above it.
    CreateDirAll { path: String },
    /// Find out what lies at the destination, links not followed.
    ProbeDestination { path: String },
    /// Remove the directory with all that it holds.
    RemoveDirAll { path: String },
    /// Remove the file or the link.
    RemoveFile { path: String },
    /// Find out whether the source is a directory.
    ProbeSource { path: String },
    /// Create a symbolic link at `destination` that points at `source`.
    Symlink { source: String, destination: String },
    /// Copy the directory `source`, with all that it holds, to `destination`.
    CopyTree { source: String, destination: String },
    /// Copy the file `source` to `destination`.
    CopyFile { source: String, destination: String },
    /// Nothing is left to do.
    Finish,
}

/// The mathematical value of an `FsAction`.
pub enum FsActionView {
    CreateDirAll { path: Seq<char> },
    ProbeDestination { path: Seq<char> },
    RemoveDirAll { path: Seq<char> },
    RemoveFile { path: Seq<char> },
    ProbeSource { path: Seq<char> },
    Symlink { source: Seq<char>, destination: Seq<char> },
    CopyTree { source: Seq<char>, destination: Seq<char> },
    CopyFile { source: Seq<char>, destination: Seq<char> },
    Finish,
}

impl View for FsAction {
    type V = FsActionView;

    open spec fn view(&self) -> FsActionView {
        match self {
            FsAction::CreateDirAll { path } => FsActionView::CreateDirAll { path: path@ },
            FsAction::ProbeDestination { path } => FsActionView::ProbeDestination { path: path@ },
            FsAction::RemoveDirAll { path } => FsActionView::RemoveDirAll { path: path@ },
            FsAction::RemoveFile { path } => FsActionView::RemoveFile { path: path@ },
            FsAction::ProbeSource { path } => FsActionView::ProbeSource { path: path@ },
            FsAction::Symlink { source, destination } => FsActionView::Symlink {
                source: source@,
                destination: destination@,
            },
            FsAction::CopyTree { source, destination } => FsActionView::CopyTree {
                source: source@,
                destination: destination@,
            },
            FsAction::CopyFile { source, destination } => FsActionView::CopyFile {
                source: source@,
                destination: destination@,
            },
            FsAction::Finish => FsActionView::Finish,
        }
    }
}

/// What came of a step on the file system.
#[derive(Debug, Clone, PartialEq, Eq)]
pub enum FsEvent {
    /// The step was carried out.
    Done,
    /// The step failed, with this description.
    Failed(String),
    /// The destination holds this.
    Occupant(Occupant),
    /// Whether the source is a directory.
    Directory(bool),
}

/// The mathematical value of an `FsEvent`.
pub enum FsEventView {
    Done,
    Failed(Seq<char>),
    Occupant(Occupant),
    Directory(bool),
}

impl View for FsEvent {
    type V = FsEventView;

    open spec fn view(&self) -> FsEventView {
        match self {
            FsEvent::Done => FsEventView::Done,
            FsEvent::Failed(why) => FsEventView::Failed(why@),
            FsEvent::Occupant(o) => FsEventView::Occupant(*o),
            FsEvent::Directory(d) => FsEventView::Directory(*d),
        }
    }
}

/// The step that a link operation is about to take.
#[derive(Debug, Clone, Copy, PartialEq, Eq, Structural)]
pub enum LinkStage {
    /// Create the directory that holds the destination.
    Parent,
    /// Find out what occupies the destination.
    Inspect,
    /// Remove the directory that occupies the destination.
    ClearTree,
    /// Remove the file or link that occupies the destination.
    ClearEntry,
    /// Find out whether the source is a directory.
    Measure,
    /// Create the symbolic link.
    Symlink,
    /// Copy the source directory.
    CopyTree,
    /// Copy the source file.
    CopyFile,
    /// Nothing is left to do.
    Finished,
}

/// A link operation under way.
#[derive(Debug, Clone, PartialEq, Eq)]
pub struct LinkEntry {
    pub source: String,
    pub destination: String,
    pub link_type: LinkType,
    pub stage: LinkStage,
    /// Why the operation failed, once it has.
    pub failure: Option<String>,
}

/// The mathematical value of a `LinkEntry`.
pub struct LinkEntryView {
    pub source: Seq<char>,
    pub destination: Seq<char>,
    pub link_type: LinkType,
    pub stage: LinkStage,
    pub failure: Option<Seq<char>>,
}

impl View for LinkEntry {
    type V = LinkEntryView;

    open spec fn view(&self) -> LinkEntryView {
        LinkEntryView {
            source: self.source@,
            destination: self.destination@,
            link_type: self.link_type,
            stage: self.stage,
            failure: self.failure.deep_view(),
        }
    }
}

/// The first step of bringing `source` to `destination`: to create the
/// directory that holds the destination where the destination has one, else
/// to look at the destination.
pub open spec fn link_start(source: Seq<char>, destination: Seq<char>, link_type: LinkType) -> LinkEntryView {
    LinkEntryView {
        source,
        destination,
        link_type,
        stage: if parent(destination) is Some {
            LinkStage::Parent
        } else {
            LinkStage::Inspect
        },
        failure: None,
    }
}

/// The step that creates what the destination is to hold, or leads to it.
pub open spec fn create_stage(link_type: LinkType) -> LinkStage {
    match link_type {
        LinkType::Symlink => LinkStage::Symlink,
        LinkType::Copy => LinkStage::Measure,
    }
}

/// The step that `v` is about to take.
pub open spec fn link_action(v: LinkEntryView) -> FsActionView {
    match v.stage {
        LinkStage::Parent => FsActionView::CreateDirAll {
            path: match parent(v.destination) {
                Some(dir) => dir,
                None => Seq::empty(),
            },
        },
        LinkStage::Inspect => FsActionView::ProbeDestination { path: v.destination },
        LinkStage::ClearTree => FsActionView::RemoveDirAll { path: v.destination },
        LinkStage::ClearEntry => FsActionView::RemoveFile { path: v.destination },
        LinkStage::Measure => FsActionView::ProbeSource { path: v.source },
        LinkStage::Symlink => FsActionView::Symlink {
            source: v.source,
            destination: v.destination,
        },
        LinkStage::CopyTree => FsActionView::CopyTree {
            source: v.source,
            destination: v.destination,
        },
        LinkStage::CopyFile => FsActionView::CopyFile {
            source: v.source,
            destination: v.destination,
        },
        LinkStage::Finished => FsActionView::Finish,
    }
}

/// `v` at the step `stage`.
pub open spec fn at_stage(v: LinkEntryView, stage: LinkStage) -> LinkEntryView {
    LinkEntryView { stage, ..v }
}

/// `v` failed for the reason `why`.
pub open spec fn failed_with(v: LinkEntryView, why: Seq<char>) -> LinkEntryView {
    LinkEntryView { stage: LinkStage::Finished, failure: Some(why), ..v }
}

/// What is said of a step that failed: for the steps that create the
/// parent directory, the link or the copy of a file, a sentence that names
/// the paths; for the others, the description `why` that came with the failure.
pub open spec fn failure_text(v: LinkEntryView, why: Seq<char>) -> Seq<char> {
    match v.stage {
        LinkStage::Parent => "Failed to create parent dir: "@ + (match parent(v.destination) {
            Some(dir) => dir,
            None => Seq::empty(),
        }),
        LinkStage::Symlink => "Failed to symlink "@ + v.source + " -> "@ + v.destination,
        LinkStage::CopyFile => "Failed to copy "@ + v.source + " -> "@ + v.destination,
        _ => why,
    }
}

/// The operation `v` after its step was answered by `event`. A failed step
/// ends the operation; an answer that does not fit the step changes nothing.
pub open spec fn link_after(v: LinkEntryView, event: FsEventView) -> LinkEntryView {
    match (v.stage, event) {
        (LinkStage::Finished, _) => v,
        (LinkStage::Inspect, FsEventView::Occupant(Occupant::Vacant)) => at_stage(
            v,
            create_stage(v.link_type),
        ),
        (LinkStage::Inspect, FsEventView::Occupant(Occupant::Directory)) => at_stage(
            v,
            LinkStage::ClearTree,
        ),
        (LinkStage::Inspect, FsEventView::Occupant(Occupant::Entry)) => at_stage(
            v,
            LinkStage::ClearEntry,
        ),
        (LinkStage::Inspect, _) => v,
        (LinkStage::Measure, FsEventView::Directory(true)) => at_stage(v, LinkStage::CopyTree),
        (LinkStage::Measure, FsEventView::Directory(false)) => at_stage(v, LinkStage::CopyFile),
        (LinkStage::Measure, _) => v,
        (_, FsEventView::Failed(why)) => failed_with(v, failure_text(v, why)),
        (LinkStage::Parent, FsEventView::Done) => at_stage(v, LinkStage::Inspect),
        (LinkStage::ClearTree, FsEventView::Done) => at_stage(v, create_stage(v.link_type)),
        (LinkStage::ClearEntry, FsEventView::Done) => at_stage(v, create_stage(v.link_type)),
        (LinkStage::Symlink, FsEventView::Done) => at_stage(v, LinkStage::Finished),
        (LinkStage::CopyTree, FsEventView::Done) => at_stage(v, LinkStage::Finished),
        (LinkStage::CopyFile, FsEventView::Done) => at_stage(v, LinkStage::Finished),
        _ => v,
    }
}

/// Whether the operation `v` is in a state that it can have reached: it
/// has a failure only when it is over, and creates the parent directory
/// only of a destination that has one.
pub open spec fn link_is_sound(v: LinkEntryView) -> bool {
    &&& v.failure is Some ==> v.stage == LinkStage::Finished
    &&& v.stage == LinkStage::Parent ==> parent(v.destination) is Some
    &&& v.link_type == LinkType::Symlink ==> v.stage != LinkStage::Measure && v.stage
        != LinkStage::CopyTree && v.stage != LinkStage::CopyFile
    &&& v.link_type == LinkType::Copy ==> v.stage != LinkStage::Symlink
}

/// A link operation starts sound and stays sound whatever it is told.
pub proof fn lemma_link_stays_sound(v: LinkEntryView, event: FsEventView)
    ensures
        link_is_sound(link_start(v.source, v.destination, v.link_type)),
        link_is_sound(v) ==> link_is_sound(link_after(v, event)),
{
}

/// How the operation `v` ended, once it has: well, or with a link error
/// that names both paths.
pub open spec fn link_result(v: LinkEntryView) -> Option<Result<(), WorktreeErrorView>> {
    if v.stage != LinkStage::Finished {
        None
    } else {
        match v.failure {
            None => Some(Ok(())),
            Some(why) => Some(
                Err(
                    WorktreeErrorView::Link {
                        source: v.source,
                        destination: v.destination,
                        message: why,
                    },
                ),
            ),
        }
    }
}

/// Starts bringing `source` to `destination` as `link_type` says.
pub fn link_entry(source: &str, destination: &str, link_type: LinkType) -> (out: LinkEntry)
    ensures
        out@ == link_start(source@, destination@, link_type),
{
    let stage = match path_parent(destination) {
        Some(_) => LinkStage::Parent,
        None => LinkStage::Inspect,
    };
    LinkEntry {
        source: source.to_owned(),
        destination: destination.to_owned(),
        link_type,
        stage,
        failure: None,
    }
}

impl LinkEntry {
    /// The step to take now.
    pub fn action(&self) -> (out: FsAction)
        ensures
            out@ == link_action(self@),
    {
        match self.stage {
            LinkStage::Parent => FsAction::CreateDirAll {
                path: match path_parent(self.destination.as_str()) {
                    Some(dir) => dir,
                    None => String::new(),
                },
            },
            LinkStage::Inspect => FsAction::ProbeDestination { path: self.destination.clone() },
            LinkStage::ClearTree => FsAction::RemoveDirAll { path: self.destination.clone() },
            LinkStage::ClearEntry => FsAction::RemoveFile { path: self.destination.clone() },
            LinkStage::Measure => FsAction::ProbeSource { path: self.source.clone() },
            LinkStage::Symlink => FsAction::Symlink {
                source: self.source.clone(),
                destination: self.destination.clone(),
            },
            LinkStage::CopyTree => FsAction::CopyTree {
                source: self.source.clone(),
                destination: self.destination.clone(),
            },
            LinkStage::CopyFile => FsAction::CopyFile {
                source: self.source.clone(),
                destination: self.destination.clone(),
            },
            LinkStage::Finished => FsAction::Finish,
        }
    }

    /// What is said of the current step when it fails with the description `why`.
    fn failure_message(&self, why: String) -> (out: String)
        ensures
            out@ == failure_text(self@, why@),
    {
        match self.stage {
            LinkStage::Parent => {
                let dir = match path_parent(self.destination.as_str()) {
                    Some(dir) => dir,
                    None => String::new(),
                };
                joined("Failed to create parent dir: ", dir.as_str())
            },
            LinkStage::Symlink => {
                let mut out = joined("Failed to symlink ", self.source.as_str());
                out.append(" -> ");
                out.append(self.destination.as_str());
                out
            },
            LinkStage::CopyFile => {
                let mut out = joined("Failed to copy ", self.source.as_str());
                out.append(" -> ");
                out.append(self.destination.as_str());
                out
            },
            _ => why,
        }
    }

    /// Takes in what came of the step that `action` gave.
    pub fn advance(&mut self, event: FsEvent)
        ensures
            final(self)@ == link_after(old(self)@, event@),
    {
        let next = match self.link_type {
            LinkType::Symlink => LinkStage::Symlink,
            LinkType::Copy => LinkStage::Measure,
        };
        match self.stage {
            LinkStage::Finished => {},
            LinkStage::Inspect => {
                match event {
                    FsEvent::Occupant(Occupant::Vacant) => {
                        self.stage = next;
                    },
                    FsEvent::Occupant(Occupant::Directory) => {
                        self.stage = LinkStage::ClearTree;
                    },
                    FsEvent::Occupant(Occupant::Entry) => {
                        self.stage = LinkStage::ClearEntry;
                    },
                    _ => {},
                }
            },
            LinkStage::Measure => {
                match event {
                    FsEvent::Directory(true) => {
                        self.stage = LinkStage::CopyTree;
                    },
                    FsEvent::Directory(false) => {
                        self.stage = LinkStage::CopyFile;
                    },
                    _ => {},
                }
            },
            stage => {
                match event {
                    FsEvent::Failed(why) => {
                        let text = self.failure_message(why);
                        self.failure = Some(text);
                        self.stage = LinkStage::Finished;
                    },
                    FsEvent::Done => {
                        self.stage = match stage {
                            LinkStage::Parent => LinkStage::Inspect,
                            LinkStage::ClearTree => next,
                            LinkStage::ClearEntry => next,
                            _ => LinkStage::Finished,
                        };
                    },
                    _ => {},
                }
            },
        }
    }

    /// How the operation ended, once it has.
    pub fn result(&self) -> (out: Option<Result<(), WorktreeError>>)
        ensures
            match link_result(self@) {
                None => out is None,
                Some(Ok(_)) => out is Some && out->0 is Ok,
                Some(Err(e)) => out is Some && out->0 is Err && out->0->Err_0@ == e,
            },
    {
        match self.stage {
            LinkStage::Finished => match &self.failure {
                None => Some(Ok(())),
                Some(why) => Some(
                    Err(
                        WorktreeError::Link {
                            source: self.source.clone(),
                            destination: self.destination.clone(),
                            message: why.clone(),
                        },
                    ),
                ),
            },
            _ => None,
        }
    }
}

/// What a destination holds, as far as a link operation can tell or change it.
pub enum Slot {
    /// Nothing.
    Vacant,
    /// Some directory.
    Directory,
    /// Some file or link.
    Entry,
    /// A symbolic link that points at this source.
    LinkTo(Seq<char>),
    /// A copy of this source directory.
    TreeCopy(Seq<char>),
    /// A copy of this source file.
    FileCopy(Seq<char>),
}

/// What a look at the destination shows of `slot`.
pub open spec fn occupant_of(slot: Slot) -> Occupant {
    match slot {
        Slot::Vacant => Occupant::Vacant,
        Slot::Directory => Occupant::Directory,
        Slot::TreeCopy(_) => Occupant::Directory,
        _ => Occupant::Entry,
    }
}

/// Whether the step `action` can be carried out on `slot`: a directory is
/// removed as a directory, anything else as a file, and a link or copy is
/// only created where nothing is in the way.
pub open spec fn can_do(action: FsActionView, slot: Slot) -> bool {
    match action {
        FsActionView::RemoveDirAll { .. } => occupant_of(slot) == Occupant::Directory,
        FsActionView::RemoveFile { .. } => occupant_of(slot) == Occupant::Entry,
        FsActionView::Symlink { .. } => slot == Slot::Vacant,
        FsActionView::CopyTree { .. } => slot == Slot::Vacant,
        FsActionView::CopyFile { .. } => slot == Slot::Vacant,
        _ => true,
    }
}

/// What the destination holds after the step `action` was tried on `slot`.
pub open spec fn slot_after(action: FsActionView, slot: Slot) -> Slot {
    if !can_do(action, slot) {
        slot
    } else {
        match action {
            FsActionView::RemoveDirAll { .. } => Slot::Vacant,
            FsActionView::RemoveFile { .. } => Slot::Vacant,
            FsActionView::Symlink { source, .. } => Slot::LinkTo(source),
            FsActionView::CopyTree { source, .. } => Slot::TreeCopy(source),
            FsActionView::CopyFile { source, .. } => Slot::FileCopy(source),
            _ => slot,
        }
    }
}

/// What comes of the step `action` when the destination holds `slot` and
/// the source is a directory or not, as `source_is_dir` says.
pub open spec fn answer_to(action: FsActionView, slot: Slot, source_is_dir: bool) -> FsEventView {
    match action {
        FsActionView::ProbeDestination { .. } => FsEventView::Occupant(occupant_of(slot)),
        FsActionView::ProbeSource { .. } => FsEventView::Directory(source_is_dir),
        _ => if can_do(action, slot) {
            FsEventView::Done
        } else {
            FsEventView::Failed("cannot be done"@)
        },
    }
}

/// The operation `v` and the destination after at most `steps` steps, each
/// answered as `answer_to` says.
pub open spec fn carried_out(v: LinkEntryView, slot: Slot, source_is_dir: bool, steps: nat) -> (
    LinkEntryView,
    Slot,
)
    decreases steps,
{
    if steps == 0 || v.stage == LinkStage::Finished {
        (v, slot)
    } else {
        let action = link_action(v);
        carried_out(
            link_after(v, answer_to(action, slot, source_is_dir)),
            slot_after(action, slot),
            source_is_dir,
            (steps - 1) as nat,
        )
    }
}

/// What the destination is to hold in the end.
pub open spec fn wanted(source: Seq<char>, link_type: LinkType, source_is_dir: bool) -> Slot {
    match link_type {
        LinkType::Symlink => Slot::LinkTo(source),
        LinkType::Copy => if source_is_dir {
            Slot::TreeCopy(source)
        } else {
            Slot::FileCopy(source)
        },
    }
}

/// Whatever the destination holds, a link operation ends well within five
/// steps and leaves there the link or the copy that was asked for.
pub proof fn lemma_link_replaces(
    source: Seq<char>,
    destination: Seq<char>,
    link_type: LinkType,
    slot: Slot,
    source_is_dir: bool,
)
    ensures
        carried_out(link_start(source, destination, link_type), slot, source_is_dir, 5).0 == (
            LinkEntryView {
                stage: LinkStage::Finished,
                failure: None,
                ..link_start(source, destination, link_type)
            }
        ),
        carried_out(link_start(source, destination, link_type), slot, source_is_dir, 5).1 == wanted(
            source,
            link_type,
            source_is_dir,
        ),
{
    reveal_with_fuel(carried_out, 6);
}

/// Linking twice leaves what linking once leaves: the second operation,
/// run on what the first has left, ends well and leaves the same.
pub proof fn lemma_link_idempotent(
    source: Seq<char>,
    destination: Seq<char>,
    link_type: LinkType,
    slot: Slot,
    source_is_dir: bool,
)
    ensures
        ({
            let start = link_start(source, destination, link_type);
            let once = carried_out(start, slot, source_is_dir, 5);
            let twice = carried_out(start, once.1, source_is_dir, 5);
            twice == once
        }),
{
    let start = link_start(source, destination, link_type);
    let once = carried_out(start, slot, source_is_dir, 5);
    lemma_link_replaces(source, destination, link_type, slot, source_is_dir);
    lemma_link_replaces(source, destination, link_type, once.1, source_is_dir);
}

} // verus!
