use epiphyte::config::{
    chosen_files, config_path, get_trees_dir, select_ignored_files, Config, FileEntry,
    FilesOutcome, LinkType, CONFIG_DIR, CONFIG_FILE, TREES_DIR,
};
use epiphyte::error::WorktreeError;

fn entry(path: &str, link_type: LinkType) -> FileEntry {
    FileEntry { path: path.to_string(), link_type }
}

fn owned(items: &[&str]) -> Vec<String> {
    items.iter().map(|s| s.to_string()).collect()
}

#[test]
fn defaults() {
    assert_eq!(LinkType::default(), LinkType::Symlink);
    assert_eq!(Config::default(), Config { main_branch: "main".to_string(), files: Vec::new() });
}

#[test]
fn the_managed_directory_lies_below_the_configuration_directory() {
    assert_eq!(get_trees_dir("/repo"), "/repo/.epi/trees");
    assert_eq!(get_trees_dir("/repo/"), "/repo/.epi/trees");
    assert_eq!(get_trees_dir(""), ".epi/trees");
    assert_eq!(config_path("/repo"), "/repo/.epi/config.toml");
    assert_eq!((CONFIG_DIR, CONFIG_FILE, TREES_DIR), (".epi", "config.toml", "trees"));
}

#[test]
fn files_are_added_after_those_that_are_there() {
    let mut config = Config { main_branch: "trunk".to_string(), files: vec![entry(".env", LinkType::Symlink)] };
    assert!(config.has_file(".env"));
    assert!(!config.has_file(".env.local"));
    let added = config.add_files(&owned(&["a", "b"]), LinkType::Copy);
    assert_eq!(added, vec![entry("a", LinkType::Copy), entry("b", LinkType::Copy)]);
    assert_eq!(
        config,
        Config {
            main_branch: "trunk".to_string(),
            files: vec![entry(".env", LinkType::Symlink), entry("a", LinkType::Copy), entry("b", LinkType::Copy)],
        }
    );
}

#[test]
fn a_file_is_removed_wherever_it_is_listed() {
    let mut config = Config {
        main_branch: "main".to_string(),
        files: vec![entry("a", LinkType::Symlink), entry("b", LinkType::Copy), entry("a", LinkType::Copy)],
    };
    assert!(config.remove_file("a"));
    assert_eq!(config.files, vec![entry("b", LinkType::Copy)]);
    assert!(!config.remove_file("a"));
    assert_eq!(config.files, vec![entry("b", LinkType::Copy)]);
}

#[test]
fn only_files_that_are_not_configured_can_be_chosen() {
    let config = Config { main_branch: "main".to_string(), files: vec![entry(".env", LinkType::Symlink)] };
    assert_eq!(
        select_ignored_files(&owned(&[".env", ".env.local", "notes"]), &config),
        owned(&[".env.local", "notes"])
    );
    assert_eq!(select_ignored_files(&owned(&[".env"]), &config), Vec::<String>::new());
}

#[test]
fn a_declined_question_chooses_no_file() {
    assert_eq!(chosen_files(FilesOutcome::Chosen(owned(&["a"]))), Ok(owned(&["a"])));
    assert_eq!(chosen_files(FilesOutcome::Cancelled), Ok(Vec::new()));
    assert_eq!(
        chosen_files(FilesOutcome::Failed("no tty".to_string())),
        Err(WorktreeError::Prompt { message: "Failed to prompt for ignored file selection".to_string() })
    );
}
