use epiphyte::import::{
    classify, import_all_worktrees, is_taken, unique_import_name, unique_import_path, ImportAction,
    ImportEvent, ImportFailure, ImportMove, ImportReport, ImportSkip, Standing,
};
use epiphyte::vcs::GitWorktree;

fn listed(path: &str) -> GitWorktree {
    GitWorktree { path: path.to_string(), branch: "b".to_string() }
}

fn owned(items: &[&str]) -> Vec<String> {
    items.iter().map(|s| s.to_string()).collect()
}

#[test]
fn a_name_that_is_in_use_gets_the_next_number() {
    assert_eq!(unique_import_path("/repo/.epi/trees", "sibling", &owned(&["sibling"])), "/repo/.epi/trees/sibling-2");
    assert_eq!(unique_import_name("sibling", &owned(&["sibling"])), "sibling-2");
}

#[test]
fn a_free_name_is_taken_as_it_is() {
    assert_eq!(unique_import_name("sibling", &Vec::new()), "sibling");
    assert_eq!(unique_import_name("sibling", &owned(&["sibling-2", "other"])), "sibling");
    assert_eq!(unique_import_path("/repo/.epi/trees", "x", &owned(&["y"])), "/repo/.epi/trees/x");
}

#[test]
fn numbers_are_tried_in_order() {
    assert_eq!(unique_import_name("w", &owned(&["w", "w-2", "w-3", "w-5"])), "w-4");
    assert_eq!(unique_import_name("w", &owned(&["w-3", "w", "w-2", "w", "w-2"])), "w-4");
    let mut taken = vec!["w".to_string()];
    for k in 2..=11 {
        taken.push(format!("w-{}", k));
    }
    assert_eq!(unique_import_name("w", &taken), "w-12");
}

#[test]
fn an_empty_name_becomes_worktree() {
    assert_eq!(unique_import_name("", &Vec::new()), "worktree");
    assert_eq!(unique_import_name("", &owned(&["worktree"])), "worktree-2");
}

#[test]
fn is_taken_looks_through_the_names() {
    assert!(is_taken(&owned(&["a", "b"]), "b"));
    assert!(!is_taken(&owned(&["a", "b"]), "c"));
    assert!(!is_taken(&Vec::new(), ""));
}

#[test]
fn working_trees_are_classified() {
    assert_eq!(classify("/repo", "/repo"), Standing::Main);
    assert_eq!(classify("/repo/", "/repo"), Standing::Main);
    assert_eq!(classify("/repo/.epi/trees/a", "/repo"), Standing::Managed);
    assert_eq!(classify("/repo/../sibling", "/repo"), Standing::Foreign);
    assert_eq!(classify("/repo/.epi/other", "/repo"), Standing::Foreign);
}

#[test]
fn a_foreign_worktree_is_moved_next_to_the_one_that_has_its_name() {
    let mut run = import_all_worktrees("/repo", vec![listed("/repo/../sibling")], owned(&["sibling"]));
    assert_eq!(
        run.action(),
        ImportAction::Move {
            from: "/repo/../sibling".to_string(),
            to: "/repo/.epi/trees/sibling-2".to_string()
        }
    );
    run.advance(ImportEvent::Moved);
    assert_eq!(run.action(), ImportAction::Relink { name: "sibling-2".to_string() });
    run.advance(ImportEvent::Relinked(None));
    assert_eq!(run.action(), ImportAction::Finish);
    assert_eq!(
        run.report.moved,
        vec![ImportMove {
            from: "/repo/../sibling".to_string(),
            to: "/repo/.epi/trees/sibling-2".to_string(),
            relink_error: None
        }]
    );
    assert_eq!(run.taken, owned(&["sibling", "sibling-2"]));
}

#[test]
fn an_import_tells_of_every_working_tree_once() {
    let all = vec![
        listed("/repo"),
        listed("/repo/.epi/trees/feature-a"),
        listed("/elsewhere/feature-a"),
        listed("/broken/tree"),
        listed("/other/feature-a"),
    ];
    let mut run = import_all_worktrees("/repo", all, owned(&["feature-a"]));
    assert_eq!(
        run.action(),
        ImportAction::Skip { path: "/repo".to_string(), reason: "main worktree".to_string() }
    );
    run.advance(ImportEvent::Noted);
    assert_eq!(
        run.action(),
        ImportAction::Skip {
            path: "/repo/.epi/trees/feature-a".to_string(),
            reason: "already managed".to_string()
        }
    );
    run.advance(ImportEvent::Noted);
    assert_eq!(
        run.action(),
        ImportAction::Move {
            from: "/elsewhere/feature-a".to_string(),
            to: "/repo/.epi/trees/feature-a-2".to_string()
        }
    );
    run.advance(ImportEvent::Moved);
    run.advance(ImportEvent::Relinked(Some("Worktree 'feature-a-2' does not exist".to_string())));
    assert_eq!(
        run.action(),
        ImportAction::Move { from: "/broken/tree".to_string(), to: "/repo/.epi/trees/tree".to_string() }
    );
    run.advance(ImportEvent::MoveFailed("fatal: locked\n".to_string()));
    assert_eq!(
        run.action(),
        ImportAction::Move {
            from: "/other/feature-a".to_string(),
            to: "/repo/.epi/trees/feature-a-3".to_string()
        }
    );
    run.advance(ImportEvent::Moved);
    run.advance(ImportEvent::Relinked(None));
    assert_eq!(run.action(), ImportAction::Finish);
    assert_eq!(
        run.report,
        ImportReport {
            moved: vec![
                ImportMove {
                    from: "/elsewhere/feature-a".to_string(),
                    to: "/repo/.epi/trees/feature-a-2".to_string(),
                    relink_error: Some("relink failed: Worktree 'feature-a-2' does not exist".to_string()),
                },
                ImportMove {
                    from: "/other/feature-a".to_string(),
                    to: "/repo/.epi/trees/feature-a-3".to_string(),
                    relink_error: None,
                },
            ],
            skipped: vec![
                ImportSkip { path: "/repo".to_string(), reason: "main worktree".to_string() },
                ImportSkip {
                    path: "/repo/.epi/trees/feature-a".to_string(),
                    reason: "already managed".to_string()
                },
            ],
            failed: vec![ImportFailure {
                path: "/broken/tree".to_string(),
                error: "git worktree move failed: fatal: locked\n".to_string()
            }],
        }
    );
    assert_eq!(run.report.moved.len() + run.report.skipped.len() + run.report.failed.len(), 5);
}

#[test]
fn a_working_tree_without_a_name_is_imported_as_worktree() {
    let mut run = import_all_worktrees("/repo", vec![listed("/"), listed("/x/..")], Vec::new());
    assert_eq!(
        run.action(),
        ImportAction::Move { from: "/".to_string(), to: "/repo/.epi/trees/worktree".to_string() }
    );
    run.advance(ImportEvent::Moved);
    run.advance(ImportEvent::Relinked(None));
    assert_eq!(
        run.action(),
        ImportAction::Move { from: "/x/..".to_string(), to: "/repo/.epi/trees/worktree-2".to_string() }
    );
}

#[test]
fn an_import_of_nothing_is_over_at_once() {
    let run = import_all_worktrees("/repo", Vec::new(), Vec::new());
    assert_eq!(run.action(), ImportAction::Finish);
    assert_eq!(run.report, ImportReport::default());
}

#[test]
fn an_import_ignores_answers_that_do_not_fit() {
    let mut run = import_all_worktrees("/repo", vec![listed("/repo"), listed("/x/y")], Vec::new());
    let before = run.clone();
    run.advance(ImportEvent::Moved);
    assert_eq!(run, before);
    run.advance(ImportEvent::Noted);
    let moving = run.clone();
    run.advance(ImportEvent::Noted);
    assert_eq!(run, moving);
    run.advance(ImportEvent::Relinked(None));
    assert_eq!(run, moving);
}
