use epiphyte::config::LinkType;
use epiphyte::error::WorktreeError;
use epiphyte::link::{link_entry, FsAction, FsEvent, LinkEntry, LinkStage, Occupant};

const SRC: &str = "/repo/.env";
const DST: &str = "/repo/.epi/trees/feature-a/.env";

fn parent_step() -> FsAction {
    FsAction::CreateDirAll { path: "/repo/.epi/trees/feature-a".to_string() }
}

fn probe_step() -> FsAction {
    FsAction::ProbeDestination { path: DST.to_string() }
}

fn symlink_step() -> FsAction {
    FsAction::Symlink { source: SRC.to_string(), destination: DST.to_string() }
}

fn link_error(message: &str) -> WorktreeError {
    WorktreeError::Link {
        source: SRC.to_string(),
        destination: DST.to_string(),
        message: message.to_string(),
    }
}

/// Carries the operation out on a destination that holds `occupant`, with
/// every step succeeding, and returns the steps that were asked for.
fn carry_out(op: &mut LinkEntry, occupant: Occupant, source_is_dir: bool) -> Vec<FsAction> {
    let mut steps = Vec::new();
    loop {
        let action = op.action();
        let event = match &action {
            FsAction::Finish => break,
            FsAction::ProbeDestination { .. } => FsEvent::Occupant(occupant),
            FsAction::ProbeSource { .. } => FsEvent::Directory(source_is_dir),
            _ => FsEvent::Done,
        };
        steps.push(action);
        op.advance(event);
        assert!(steps.len() <= 5);
    }
    steps
}

#[test]
fn a_symlink_is_created_at_a_vacant_destination() {
    let mut op = link_entry(SRC, DST, LinkType::Symlink);
    assert_eq!(op.result(), None);
    let steps = carry_out(&mut op, Occupant::Vacant, false);
    assert_eq!(steps, vec![parent_step(), probe_step(), symlink_step()]);
    assert_eq!(op.result(), Some(Ok(())));
}

#[test]
fn a_file_in_the_way_is_removed_before_the_link_is_made() {
    let mut op = link_entry(SRC, DST, LinkType::Symlink);
    let steps = carry_out(&mut op, Occupant::Entry, false);
    assert_eq!(
        steps,
        vec![parent_step(), probe_step(), FsAction::RemoveFile { path: DST.to_string() }, symlink_step()]
    );
    assert_eq!(op.result(), Some(Ok(())));
}

#[test]
fn a_directory_in_the_way_is_removed_with_all_it_holds() {
    let mut op = link_entry(SRC, DST, LinkType::Symlink);
    let steps = carry_out(&mut op, Occupant::Directory, false);
    assert_eq!(
        steps,
        vec![parent_step(), probe_step(), FsAction::RemoveDirAll { path: DST.to_string() }, symlink_step()]
    );
}

#[test]
fn linking_again_replaces_the_link_that_is_there() {
    let mut first = link_entry(SRC, DST, LinkType::Symlink);
    let once = carry_out(&mut first, Occupant::Vacant, false);
    let mut second = link_entry(SRC, DST, LinkType::Symlink);
    let twice = carry_out(&mut second, Occupant::Entry, false);
    assert_eq!(once.last(), twice.last());
    assert_eq!(first.result(), Some(Ok(())));
    assert_eq!(second.result(), Some(Ok(())));
    assert!(twice.contains(&FsAction::RemoveFile { path: DST.to_string() }));
}

#[test]
fn a_file_is_copied() {
    let mut op = link_entry(SRC, DST, LinkType::Copy);
    let steps = carry_out(&mut op, Occupant::Vacant, false);
    assert_eq!(
        steps,
        vec![
            parent_step(),
            probe_step(),
            FsAction::ProbeSource { path: SRC.to_string() },
            FsAction::CopyFile { source: SRC.to_string(), destination: DST.to_string() },
        ]
    );
    assert_eq!(op.result(), Some(Ok(())));
}

#[test]
fn a_directory_is_copied_with_all_it_holds() {
    let mut op = link_entry(SRC, DST, LinkType::Copy);
    let steps = carry_out(&mut op, Occupant::Directory, true);
    assert_eq!(
        steps,
        vec![
            parent_step(),
            probe_step(),
            FsAction::RemoveDirAll { path: DST.to_string() },
            FsAction::ProbeSource { path: SRC.to_string() },
            FsAction::CopyTree { source: SRC.to_string(), destination: DST.to_string() },
        ]
    );
}

#[test]
fn a_destination_without_a_parent_is_looked_at_first() {
    let op = link_entry("/src", "/", LinkType::Symlink);
    assert_eq!(op.stage, LinkStage::Inspect);
    assert_eq!(op.action(), FsAction::ProbeDestination { path: "/".to_string() });
    let relative = link_entry("/src", "name", LinkType::Symlink);
    assert_eq!(relative.action(), FsAction::CreateDirAll { path: String::new() });
}

#[test]
fn a_parent_that_cannot_be_created_ends_the_operation() {
    let mut op = link_entry(SRC, DST, LinkType::Symlink);
    op.advance(FsEvent::Failed("Permission denied (os error 13)".to_string()));
    assert_eq!(op.action(), FsAction::Finish);
    assert_eq!(
        op.result(),
        Some(Err(link_error("Failed to create parent dir: /repo/.epi/trees/feature-a")))
    );
}

#[test]
fn a_removal_that_fails_is_told_in_its_own_words() {
    let mut op = link_entry(SRC, DST, LinkType::Symlink);
    op.advance(FsEvent::Done);
    op.advance(FsEvent::Occupant(Occupant::Entry));
    op.advance(FsEvent::Failed("Permission denied (os error 13)".to_string()));
    assert_eq!(op.result(), Some(Err(link_error("Permission denied (os error 13)"))));
    let mut dir = link_entry(SRC, DST, LinkType::Copy);
    dir.advance(FsEvent::Done);
    dir.advance(FsEvent::Occupant(Occupant::Directory));
    dir.advance(FsEvent::Failed("Directory not empty".to_string()));
    assert_eq!(dir.result(), Some(Err(link_error("Directory not empty"))));
}

#[test]
fn a_link_or_copy_that_fails_names_both_paths() {
    let mut op = link_entry(SRC, DST, LinkType::Symlink);
    op.advance(FsEvent::Done);
    op.advance(FsEvent::Occupant(Occupant::Vacant));
    op.advance(FsEvent::Failed("File exists".to_string()));
    assert_eq!(
        op.result(),
        Some(Err(link_error("Failed to symlink /repo/.env -> /repo/.epi/trees/feature-a/.env")))
    );
    let mut copy = link_entry(SRC, DST, LinkType::Copy);
    copy.advance(FsEvent::Done);
    copy.advance(FsEvent::Occupant(Occupant::Vacant));
    copy.advance(FsEvent::Directory(false));
    copy.advance(FsEvent::Failed("No space left".to_string()));
    assert_eq!(
        copy.result(),
        Some(Err(link_error("Failed to copy /repo/.env -> /repo/.epi/trees/feature-a/.env")))
    );
    let mut tree = link_entry(SRC, DST, LinkType::Copy);
    tree.advance(FsEvent::Done);
    tree.advance(FsEvent::Occupant(Occupant::Vacant));
    tree.advance(FsEvent::Directory(true));
    tree.advance(FsEvent::Failed("No space left".to_string()));
    assert_eq!(tree.result(), Some(Err(link_error("No space left"))));
}

#[test]
fn an_answer_that_does_not_fit_changes_nothing() {
    let mut op = link_entry(SRC, DST, LinkType::Symlink);
    let before = op.clone();
    op.advance(FsEvent::Occupant(Occupant::Vacant));
    assert_eq!(op, before);
    op.advance(FsEvent::Directory(true));
    assert_eq!(op, before);
    op.advance(FsEvent::Done);
    let inspecting = op.clone();
    op.advance(FsEvent::Done);
    assert_eq!(op, inspecting);
    op.advance(FsEvent::Failed("x".to_string()));
    assert_eq!(op, inspecting);
    let mut done = link_entry(SRC, DST, LinkType::Symlink);
    carry_out(&mut done, Occupant::Vacant, false);
    let finished = done.clone();
    done.advance(FsEvent::Failed("late".to_string()));
    assert_eq!(done, finished);
}
