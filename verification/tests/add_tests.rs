use epiphyte::add::{add_worktree, AddAction, AddEvent, AddRun, AddStage};
use epiphyte::config::Config;
use epiphyte::error::WorktreeError;
use epiphyte::vcs::CommandOutput;

fn output(success: bool, stdout: &str, stderr: &str) -> CommandOutput {
    CommandOutput { success, stdout: stdout.to_string(), stderr: stderr.to_string() }
}

fn owned(items: &[&str]) -> Vec<String> {
    items.iter().map(|s| s.to_string()).collect()
}

fn config() -> Config {
    Config { main_branch: "main".to_string(), files: Vec::new() }
}

fn on_main(run: &mut AddRun) {
    assert_eq!(run.action(), AddAction::Run { args: owned(&["rev-parse", "--abbrev-ref", "HEAD"]) });
    run.advance(AddEvent::Output(output(true, "main\n", "")));
    assert_eq!(run.action(), AddAction::CreateDirAll { path: "/repo/.epi/trees".to_string() });
    run.advance(AddEvent::Done);
}

#[test]
fn a_worktree_is_not_added_from_another_branch() {
    let mut run = add_worktree("/repo", "hotfix", None, &config());
    assert_eq!(run.action(), AddAction::Run { args: owned(&["rev-parse", "--abbrev-ref", "HEAD"]) });
    run.advance(AddEvent::Output(output(true, "develop\n", "")));
    assert_eq!(run.action(), AddAction::Finish);
    assert_eq!(
        run.result(),
        Some(Err(WorktreeError::WrongBranch {
            current: "develop".to_string(),
            expected: "main".to_string()
        }))
    );
    let ended = run.clone();
    run.advance(AddEvent::Done);
    run.advance(AddEvent::Present(false));
    run.advance(AddEvent::Output(output(true, "", "")));
    assert_eq!(run, ended);
    assert_eq!(run.action(), AddAction::Finish);
}

#[test]
fn a_new_branch_is_created_where_none_has_the_name() {
    let mut run = add_worktree("/repo", "hotfix", None, &config());
    assert_eq!(run.result(), None);
    on_main(&mut run);
    assert_eq!(run.action(), AddAction::ProbePath { path: "/repo/.epi/trees/hotfix".to_string() });
    run.advance(AddEvent::Present(false));
    assert_eq!(
        run.action(),
        AddAction::Run { args: owned(&["show-ref", "--verify", "--quiet", "refs/heads/hotfix"]) }
    );
    run.advance(AddEvent::Output(output(false, "", "")));
    assert_eq!(
        run.action(),
        AddAction::Run { args: owned(&["worktree", "add", "-b", "hotfix", "/repo/.epi/trees/hotfix"]) }
    );
    run.advance(AddEvent::Output(output(true, "Preparing worktree", "")));
    assert_eq!(run.action(), AddAction::LinkFiles { path: "/repo/.epi/trees/hotfix".to_string() });
    run.advance(AddEvent::Linked(None));
    assert_eq!(run.action(), AddAction::Finish);
    assert_eq!(run.result(), Some(Ok("/repo/.epi/trees/hotfix".to_string())));
}

#[test]
fn a_branch_that_has_the_name_is_checked_out() {
    let mut run = add_worktree("/repo", "hotfix", None, &config());
    on_main(&mut run);
    run.advance(AddEvent::Present(false));
    run.advance(AddEvent::Output(output(true, "", "")));
    assert_eq!(
        run.action(),
        AddAction::Run { args: owned(&["worktree", "add", "/repo/.epi/trees/hotfix", "hotfix"]) }
    );
}

#[test]
fn a_branch_that_is_asked_for_is_checked_out_as_it_is() {
    let mut run = add_worktree("/repo", "staging", Some("release/1.2"), &config());
    on_main(&mut run);
    run.advance(AddEvent::Present(false));
    assert_eq!(
        run.action(),
        AddAction::Run { args: owned(&["worktree", "add", "/repo/.epi/trees/staging", "release/1.2"]) }
    );
}

#[test]
fn a_worktree_that_is_there_is_not_added_again() {
    let mut run = add_worktree("/repo", "hotfix", None, &config());
    on_main(&mut run);
    run.advance(AddEvent::Present(true));
    assert_eq!(run.action(), AddAction::Finish);
    assert_eq!(run.result(), Some(Err(WorktreeError::AlreadyExists { name: "hotfix".to_string() })));
}

#[test]
fn every_failed_step_ends_the_creation() {
    let mut branch = add_worktree("/repo", "hotfix", None, &config());
    branch.advance(AddEvent::Output(output(false, "", "fatal: no repo")));
    assert_eq!(
        branch.result(),
        Some(Err(WorktreeError::VcsCommand { message: "git rev-parse failed: fatal: no repo".to_string() }))
    );

    let mut dir = add_worktree("/repo", "hotfix", None, &config());
    dir.advance(AddEvent::Output(output(true, "main", "")));
    dir.advance(AddEvent::Failed("Read-only file system".to_string()));
    assert_eq!(
        dir.result(),
        Some(Err(WorktreeError::Io { message: "Failed to create trees dir: /repo/.epi/trees".to_string() }))
    );

    let mut create = add_worktree("/repo", "hotfix", Some("main"), &config());
    on_main(&mut create);
    create.advance(AddEvent::Present(false));
    create.advance(AddEvent::Output(output(false, "", "fatal: 'main' is already checked out")));
    assert_eq!(
        create.result(),
        Some(Err(WorktreeError::VcsCommand {
            message: "git worktree add failed: fatal: 'main' is already checked out".to_string()
        }))
    );

    let mut files = add_worktree("/repo", "hotfix", Some("x"), &config());
    on_main(&mut files);
    files.advance(AddEvent::Present(false));
    files.advance(AddEvent::Output(output(true, "", "")));
    let failure = WorktreeError::Link {
        source: "/repo/.env".to_string(),
        destination: "/repo/.epi/trees/hotfix/.env".to_string(),
        message: "Failed to symlink /repo/.env -> /repo/.epi/trees/hotfix/.env".to_string(),
    };
    files.advance(AddEvent::Linked(Some(failure.clone())));
    assert_eq!(files.result(), Some(Err(failure)));
}

#[test]
fn the_creation_ignores_answers_that_do_not_fit() {
    let mut run = add_worktree("/repo", "hotfix", None, &config());
    let before = run.clone();
    run.advance(AddEvent::Done);
    run.advance(AddEvent::Present(false));
    run.advance(AddEvent::Linked(None));
    run.advance(AddEvent::Failed("x".to_string()));
    assert_eq!(run, before);
    assert_eq!(run.stage, AddStage::Branch);
}
