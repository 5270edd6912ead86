use epiphyte::config::{Config, FileEntry, LinkType};
use epiphyte::error::WorktreeError;
use epiphyte::fanout::{
    copy_entries, link_entries_to_worktrees, link_files, relink_worktree,
    remove_symlinks_from_worktrees, LinkReport, LinkRun, RemovalAction, RemovalEvent, RunAction,
    RunEvent,
};
use epiphyte::worktree::Worktree;

fn tree(name: &str) -> Worktree {
    Worktree {
        name: name.to_string(),
        path: format!("/repo/.epi/trees/{}", name),
        branch: name.to_string(),
    }
}

fn entry(path: &str, link_type: LinkType) -> FileEntry {
    FileEntry { path: path.to_string(), link_type }
}

fn link_error(destination: &str, message: &str) -> WorktreeError {
    WorktreeError::Link {
        source: "/repo/.env".to_string(),
        destination: destination.to_string(),
        message: message.to_string(),
    }
}

fn link_step(source: &str, destination: &str, link_type: LinkType) -> RunAction {
    RunAction::Link { source: source.to_string(), destination: destination.to_string(), link_type }
}

/// Runs to the end: sources in `missing` are not there, and links to
/// destinations in `unwritable` fail. Returns the steps that were asked for.
fn run(run: &mut LinkRun, missing: &[&str], unwritable: &[&str]) -> Vec<RunAction> {
    let mut steps = Vec::new();
    loop {
        let action = run.action();
        let event = match &action {
            RunAction::Finish => break,
            RunAction::Probe { source } => {
                if missing.contains(&source.as_str()) {
                    RunEvent::Missing
                } else {
                    RunEvent::Found
                }
            }
            RunAction::Link { source, destination, .. } => {
                if unwritable.contains(&destination.as_str()) {
                    RunEvent::Failed(WorktreeError::Link {
                        source: source.clone(),
                        destination: destination.clone(),
                        message: "Permission denied (os error 13)".to_string(),
                    })
                } else {
                    RunEvent::Linked
                }
            }
        };
        steps.push(action);
        run.advance(event);
        assert!(steps.len() < 100);
    }
    steps
}

#[test]
fn a_file_is_linked_into_a_worktree() {
    let mut r = link_entries_to_worktrees(
        "/repo",
        vec![entry(".env", LinkType::Symlink)],
        vec![tree("feature-a")],
    );
    let steps = run(&mut r, &[], &[]);
    assert_eq!(
        steps,
        vec![
            RunAction::Probe { source: "/repo/.env".to_string() },
            link_step("/repo/.env", "/repo/.epi/trees/feature-a/.env", LinkType::Symlink),
        ]
    );
    assert_eq!(
        r.report.linked,
        vec![("feature-a".to_string(), "/repo/.epi/trees/feature-a/.env".to_string())]
    );
    assert!(r.report.failed.is_empty());
}

#[test]
fn one_worktree_that_fails_does_not_stop_the_others() {
    let mut r = link_entries_to_worktrees(
        "/repo",
        vec![entry(".env", LinkType::Symlink)],
        vec![tree("one"), tree("two"), tree("three")],
    );
    let steps = run(&mut r, &[], &["/repo/.epi/trees/two/.env"]);
    assert_eq!(steps.len(), 4);
    assert_eq!(
        r.report.linked,
        vec![
            ("one".to_string(), "/repo/.epi/trees/one/.env".to_string()),
            ("three".to_string(), "/repo/.epi/trees/three/.env".to_string()),
        ]
    );
    assert_eq!(
        r.report.failed,
        vec![(
            "two".to_string(),
            "/repo/.epi/trees/two/.env".to_string(),
            "Permission denied (os error 13)".to_string()
        )]
    );
    assert_eq!(r.result(), Some(Ok(())));
}

#[test]
fn every_pair_is_reported_once_in_the_order_of_entries_then_worktrees() {
    let mut r = link_entries_to_worktrees(
        "/repo",
        vec![entry(".env", LinkType::Symlink), entry("secrets/key", LinkType::Copy)],
        vec![tree("a"), tree("b")],
    );
    let steps = run(&mut r, &[], &["/repo/.epi/trees/a/secrets/key", "/repo/.epi/trees/b/.env"]);
    assert_eq!(
        steps,
        vec![
            RunAction::Probe { source: "/repo/.env".to_string() },
            link_step("/repo/.env", "/repo/.epi/trees/a/.env", LinkType::Symlink),
            link_step("/repo/.env", "/repo/.epi/trees/b/.env", LinkType::Symlink),
            RunAction::Probe { source: "/repo/secrets/key".to_string() },
            link_step("/repo/secrets/key", "/repo/.epi/trees/a/secrets/key", LinkType::Copy),
            link_step("/repo/secrets/key", "/repo/.epi/trees/b/secrets/key", LinkType::Copy),
        ]
    );
    assert_eq!(
        r.report.linked,
        vec![
            ("a".to_string(), "/repo/.epi/trees/a/.env".to_string()),
            ("b".to_string(), "/repo/.epi/trees/b/secrets/key".to_string()),
        ]
    );
    assert_eq!(r.report.failed.len(), 2);
    assert_eq!(r.report.failed[0].0, "b");
    assert_eq!(r.report.failed[1].0, "a");
    assert_eq!(r.report.linked.len() + r.report.failed.len(), 4);
}

#[test]
fn a_missing_source_is_passed_over_for_every_worktree() {
    let mut r = link_entries_to_worktrees(
        "/repo",
        vec![entry("gone", LinkType::Symlink), entry(".env", LinkType::Symlink)],
        vec![tree("a"), tree("b")],
    );
    let steps = run(&mut r, &["/repo/gone"], &[]);
    assert_eq!(steps.len(), 4);
    assert_eq!(steps[0], RunAction::Probe { source: "/repo/gone".to_string() });
    assert_eq!(steps[1], RunAction::Probe { source: "/repo/.env".to_string() });
    assert_eq!(r.report.linked.len(), 2);
    assert!(r.report.failed.is_empty());
}

#[test]
fn without_worktrees_or_entries_nothing_is_asked() {
    let none = link_entries_to_worktrees("/repo", vec![entry(".env", LinkType::Symlink)], Vec::new());
    assert_eq!(none.action(), RunAction::Finish);
    let empty = link_entries_to_worktrees("/repo", Vec::new(), vec![tree("a")]);
    assert_eq!(empty.action(), RunAction::Finish);
    assert_eq!(empty.report, LinkReport { linked: Vec::new(), failed: Vec::new() });
    assert_eq!(LinkReport::default(), LinkReport { linked: Vec::new(), failed: Vec::new() });
}

#[test]
fn linking_the_files_of_one_worktree_stops_at_the_first_failure() {
    let config = Config {
        main_branch: "main".to_string(),
        files: vec![entry(".env", LinkType::Symlink), entry("later", LinkType::Copy)],
    };
    let mut r = link_files("/repo", "/repo/.epi/trees/a", &config);
    assert_eq!(r.result(), None);
    let steps = run(&mut r, &[], &["/repo/.epi/trees/a/.env"]);
    assert_eq!(steps.len(), 2);
    assert_eq!(
        r.result(),
        Some(Err(link_error("/repo/.epi/trees/a/.env", "Permission denied (os error 13)")))
    );
    assert!(r.report.failed.is_empty());
}

#[test]
fn linking_the_files_of_one_worktree_passes_over_missing_sources() {
    let config = Config {
        main_branch: "main".to_string(),
        files: vec![entry("gone", LinkType::Symlink), entry(".env", LinkType::Copy)],
    };
    let mut r = link_files("/repo", "/repo/.epi/trees/a", &config);
    let steps = run(&mut r, &["/repo/gone"], &[]);
    assert_eq!(
        steps,
        vec![
            RunAction::Probe { source: "/repo/gone".to_string() },
            RunAction::Probe { source: "/repo/.env".to_string() },
            link_step("/repo/.env", "/repo/.epi/trees/a/.env", LinkType::Copy),
        ]
    );
    assert_eq!(r.result(), Some(Ok(())));
    assert_eq!(r.report.linked, vec![("a".to_string(), "/repo/.epi/trees/a/.env".to_string())]);
}

#[test]
fn relinking_needs_the_worktree_to_be_there() {
    let config = Config { main_branch: "main".to_string(), files: vec![entry(".env", LinkType::Symlink)] };
    assert_eq!(
        relink_worktree("/repo", "ghost", false, &config),
        Err(WorktreeError::NotFound { name: "ghost".to_string(), known: None })
    );
    let mut r = relink_worktree("/repo", "feature-a", true, &config).unwrap();
    let steps = run(&mut r, &[], &[]);
    assert_eq!(
        steps[1],
        link_step("/repo/.env", "/repo/.epi/trees/feature-a/.env", LinkType::Symlink)
    );
    assert_eq!(r.result(), Some(Ok(())));
}

#[test]
fn copy_entries_copies() {
    let files = vec![entry(".env", LinkType::Symlink), entry("x", LinkType::Copy)];
    assert_eq!(copy_entries(&files), files);
}

#[test]
fn an_answer_that_does_not_fit_leaves_the_run_as_it_is() {
    let mut r = link_entries_to_worktrees("/repo", vec![entry(".env", LinkType::Symlink)], vec![tree("a")]);
    let before = r.clone();
    r.advance(RunEvent::Linked);
    assert_eq!(r, before);
    r.advance(RunEvent::Found);
    let probed = r.clone();
    r.advance(RunEvent::Missing);
    assert_eq!(r, probed);
}

#[test]
fn a_symlink_is_removed_from_every_worktree_that_has_one() {
    let mut r = remove_symlinks_from_worktrees(vec![tree("a"), tree("b"), tree("c")], ".env");
    assert_eq!(r.action(), RemovalAction::Probe { path: "/repo/.epi/trees/a/.env".to_string() });
    r.advance(RemovalEvent::Symlink);
    assert_eq!(r.action(), RemovalAction::Remove { path: "/repo/.epi/trees/a/.env".to_string() });
    r.advance(RemovalEvent::Removed);
    assert_eq!(r.action(), RemovalAction::Probe { path: "/repo/.epi/trees/b/.env".to_string() });
    r.advance(RemovalEvent::Absent);
    assert_eq!(r.action(), RemovalAction::Probe { path: "/repo/.epi/trees/c/.env".to_string() });
    r.advance(RemovalEvent::Symlink);
    r.advance(RemovalEvent::RemoveFailed("Permission denied".to_string()));
    assert_eq!(r.action(), RemovalAction::Finish);
    assert_eq!(r.report.removed, vec![("a".to_string(), "/repo/.epi/trees/a/.env".to_string())]);
    assert_eq!(
        r.report.failed,
        vec![("c".to_string(), "/repo/.epi/trees/c/.env".to_string(), "Permission denied".to_string())]
    );
}

#[test]
fn what_is_no_symlink_is_never_removed() {
    let mut r = remove_symlinks_from_worktrees(vec![tree("a"), tree("b")], ".env");
    r.advance(RemovalEvent::Other);
    assert_eq!(r.action(), RemovalAction::Probe { path: "/repo/.epi/trees/b/.env".to_string() });
    r.advance(RemovalEvent::Other);
    assert_eq!(r.action(), RemovalAction::Finish);
    assert!(r.report.removed.is_empty());
    assert_eq!(
        r.report.failed,
        vec![
            ("a".to_string(), "/repo/.epi/trees/a/.env".to_string(), "not a symlink".to_string()),
            ("b".to_string(), "/repo/.epi/trees/b/.env".to_string(), "not a symlink".to_string()),
        ]
    );
}

#[test]
fn a_path_that_holds_nothing_is_no_failure() {
    let mut r = remove_symlinks_from_worktrees(vec![tree("a")], ".env");
    r.advance(RemovalEvent::Absent);
    assert_eq!(r.action(), RemovalAction::Finish);
    assert!(r.report.removed.is_empty());
    assert!(r.report.failed.is_empty());
}

#[test]
fn a_path_that_cannot_be_looked_at_is_a_failure() {
    let mut r = remove_symlinks_from_worktrees(vec![tree("a")], "dir/.env");
    r.advance(RemovalEvent::ProbeFailed("Permission denied".to_string()));
    assert_eq!(r.action(), RemovalAction::Finish);
    assert_eq!(
        r.report.failed,
        vec![("a".to_string(), "/repo/.epi/trees/a/dir/.env".to_string(), "Permission denied".to_string())]
    );
}

#[test]
fn removal_is_not_asked_for_without_a_look() {
    let mut r = remove_symlinks_from_worktrees(vec![tree("a")], ".env");
    let before = r.clone();
    r.advance(RemovalEvent::Removed);
    assert_eq!(r, before);
    r.advance(RemovalEvent::RemoveFailed("x".to_string()));
    assert_eq!(r, before);
    assert_eq!(r.action(), RemovalAction::Probe { path: "/repo/.epi/trees/a/.env".to_string() });
    let none = remove_symlinks_from_worktrees(Vec::new(), ".env");
    assert_eq!(none.action(), RemovalAction::Finish);
}
