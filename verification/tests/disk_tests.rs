use epiphyte::config::{FileEntry, LinkType};
use epiphyte::error::WorktreeError;
use epiphyte::fanout::{
    link_entries_to_worktrees, remove_symlinks_from_worktrees, LinkRun, RemovalAction,
    RemovalEvent, RunAction, RunEvent,
};
use epiphyte::link::{link_entry, FsAction, FsEvent, Occupant};
use epiphyte::path::{path_parent, path_starts_with};
use epiphyte::worktree::Worktree;
use std::collections::BTreeMap;

/// What a path holds on the disk that these tests keep in memory.
#[derive(Clone, Debug, PartialEq, Eq)]
enum Node {
    File(String),
    Dir,
    Link(String),
}

/// A file system in memory: paths are absolute and written with single slashes.
#[derive(Clone, Debug, PartialEq, Eq)]
struct Disk {
    nodes: BTreeMap<String, Node>,
    unwritable: Vec<String>,
}

impl Disk {
    fn new() -> Disk {
        let mut nodes = BTreeMap::new();
        nodes.insert("/".to_string(), Node::Dir);
        Disk { nodes, unwritable: Vec::new() }
    }

    fn with(mut self, path: &str, node: Node) -> Disk {
        if let Some(dir) = path_parent(path) {
            self.create_dir_all(&dir).unwrap();
        }
        self.nodes.insert(path.to_string(), node);
        self
    }

    fn writable(&self, path: &str) -> Result<(), String> {
        if self.unwritable.iter().any(|dir| path_starts_with(path, dir)) {
            Err("Permission denied (os error 13)".to_string())
        } else {
            Ok(())
        }
    }

    fn resolve(&self, path: &str) -> Option<&Node> {
        match self.nodes.get(path) {
            Some(Node::Link(target)) => self.nodes.get(target),
            other => other,
        }
    }

    fn is_there(&self, path: &str) -> bool {
        self.resolve(path).is_some()
    }

    fn is_dir(&self, path: &str) -> bool {
        self.resolve(path) == Some(&Node::Dir)
    }

    fn occupant(&self, path: &str) -> Occupant {
        match self.nodes.get(path) {
            None => Occupant::Vacant,
            Some(Node::Dir) => Occupant::Directory,
            Some(_) => Occupant::Entry,
        }
    }

    fn create_dir_all(&mut self, path: &str) -> Result<(), String> {
        if path.is_empty() {
            return Ok(());
        }
        match self.nodes.get(path) {
            Some(Node::Dir) => return Ok(()),
            Some(Node::Link(_)) if self.is_dir(path) => return Ok(()),
            Some(_) => return Err("File exists (os error 17)".to_string()),
            None => {}
        }
        if let Some(dir) = path_parent(path) {
            self.create_dir_all(&dir)?;
        }
        self.writable(path)?;
        self.nodes.insert(path.to_string(), Node::Dir);
        Ok(())
    }

    fn parent_is_dir(&self, path: &str) -> Result<(), String> {
        match path_parent(path) {
            Some(dir) if self.is_dir(&dir) => Ok(()),
            _ => Err("No such file or directory (os error 2)".to_string()),
        }
    }

    fn remove_file(&mut self, path: &str) -> Result<(), String> {
        self.writable(path)?;
        match self.nodes.get(path) {
            None => Err("No such file or directory (os error 2)".to_string()),
            Some(Node::Dir) => Err("Is a directory (os error 21)".to_string()),
            Some(_) => {
                self.nodes.remove(path);
                Ok(())
            }
        }
    }

    fn remove_dir_all(&mut self, path: &str) -> Result<(), String> {
        self.writable(path)?;
        if self.nodes.get(path) != Some(&Node::Dir) {
            return Err("Not a directory (os error 20)".to_string());
        }
        let inside: Vec<String> =
            self.nodes.keys().filter(|key| path_starts_with(key, path)).cloned().collect();
        for key in inside {
            self.nodes.remove(&key);
        }
        Ok(())
    }

    fn symlink(&mut self, source: &str, destination: &str) -> Result<(), String> {
        self.writable(destination)?;
        self.parent_is_dir(destination)?;
        if self.nodes.contains_key(destination) {
            return Err("File exists (os error 17)".to_string());
        }
        self.nodes.insert(destination.to_string(), Node::Link(source.to_string()));
        Ok(())
    }

    fn copy_file(&mut self, source: &str, destination: &str) -> Result<(), String> {
        self.writable(destination)?;
        self.parent_is_dir(destination)?;
        let content = match self.resolve(source) {
            Some(Node::File(content)) => content.clone(),
            _ => return Err("No such file or directory (os error 2)".to_string()),
        };
        if self.nodes.get(destination) == Some(&Node::Dir) {
            return Err("Is a directory (os error 21)".to_string());
        }
        self.nodes.insert(destination.to_string(), Node::File(content));
        Ok(())
    }

    fn copy_tree(&mut self, source: &str, destination: &str) -> Result<(), String> {
        self.create_dir_all(destination)?;
        let inside: Vec<(String, Node)> = self
            .nodes
            .iter()
            .filter(|(key, _)| path_starts_with(key, source) && key.as_str() != source)
            .map(|(key, node)| (key.clone(), node.clone()))
            .collect();
        for (key, node) in inside {
            let target = format!("{}{}", destination, &key[source.len()..]);
            self.writable(&target)?;
            self.nodes.insert(target, node);
        }
        Ok(())
    }

    fn answer(result: Result<(), String>) -> FsEvent {
        match result {
            Ok(()) => FsEvent::Done,
            Err(why) => FsEvent::Failed(why),
        }
    }

    /// Brings `source` to `destination`, every step decided by the library.
    fn link(&mut self, source: &str, destination: &str, link_type: LinkType) -> Result<(), WorktreeError> {
        let mut operation = link_entry(source, destination, link_type);
        for _ in 0..10 {
            let event = match operation.action() {
                FsAction::CreateDirAll { path } => Disk::answer(self.create_dir_all(&path)),
                FsAction::ProbeDestination { path } => FsEvent::Occupant(self.occupant(&path)),
                FsAction::RemoveDirAll { path } => Disk::answer(self.remove_dir_all(&path)),
                FsAction::RemoveFile { path } => Disk::answer(self.remove_file(&path)),
                FsAction::ProbeSource { path } => FsEvent::Directory(self.is_dir(&path)),
                FsAction::Symlink { source, destination } => {
                    Disk::answer(self.symlink(&source, &destination))
                }
                FsAction::CopyTree { source, destination } => {
                    Disk::answer(self.copy_tree(&source, &destination))
                }
                FsAction::CopyFile { source, destination } => {
                    Disk::answer(self.copy_file(&source, &destination))
                }
                FsAction::Finish => return operation.result().unwrap(),
            };
            operation.advance(event);
        }
        panic!("the link operation did not end");
    }

    /// Runs the links to their end on this disk.
    fn run_links(&mut self, mut run: LinkRun) -> LinkRun {
        for _ in 0..1000 {
            let event = match run.action() {
                RunAction::Probe { source } => {
                    if self.is_there(&source) {
                        RunEvent::Found
                    } else {
                        RunEvent::Missing
                    }
                }
                RunAction::Link { source, destination, link_type } => {
                    match self.link(&source, &destination, link_type) {
                        Ok(()) => RunEvent::Linked,
                        Err(error) => RunEvent::Failed(error),
                    }
                }
                RunAction::Finish => return run,
            };
            run.advance(event);
        }
        panic!("the run did not end");
    }
}

fn tree(name: &str) -> Worktree {
    Worktree {
        name: name.to_string(),
        path: format!("/repo/.epi/trees/{}", name),
        branch: name.to_string(),
    }
}

fn repository() -> Disk {
    Disk::new()
        .with("/repo/.env", Node::File("SECRET=1".to_string()))
        .with("/repo/assets/logo", Node::File("png".to_string()))
        .with("/repo/assets/fonts/a", Node::File("ttf".to_string()))
        .with("/repo/.epi/trees/feature-a", Node::Dir)
        .with("/repo/.epi/trees/feature-b", Node::Dir)
        .with("/repo/.epi/trees/feature-c", Node::Dir)
}

#[test]
fn linking_creates_a_symlink_that_points_at_the_source() {
    let mut disk = repository();
    let run = link_entries_to_worktrees(
        "/repo",
        vec![FileEntry { path: ".env".to_string(), link_type: LinkType::Symlink }],
        vec![tree("feature-a")],
    );
    let run = disk.run_links(run);
    assert_eq!(
        disk.nodes.get("/repo/.epi/trees/feature-a/.env"),
        Some(&Node::Link("/repo/.env".to_string()))
    );
    assert_eq!(
        run.report.linked,
        vec![("feature-a".to_string(), "/repo/.epi/trees/feature-a/.env".to_string())]
    );
    assert!(run.report.failed.is_empty());
}

#[test]
fn linking_twice_leaves_what_linking_once_leaves() {
    let occupied = [
        None,
        Some(Node::File("local".to_string())),
        Some(Node::Dir),
        Some(Node::Link("/elsewhere".to_string())),
        Some(Node::Link("/repo/assets".to_string())),
    ];
    let sources = [("/repo/.env", ".env"), ("/repo/assets", "assets")];
    for link_type in [LinkType::Symlink, LinkType::Copy] {
        for (source, rel) in sources {
            for before in &occupied {
                let destination = format!("/repo/.epi/trees/feature-a/{}", rel);
                let mut disk = repository();
                if let Some(node) = before {
                    disk = disk.with(&destination, node.clone());
                    if *node == Node::Dir {
                        disk = disk.with(&format!("{}/old", destination), Node::File("x".to_string()));
                    }
                }
                assert_eq!(disk.link(source, &destination, link_type), Ok(()));
                let once = disk.clone();
                assert_eq!(disk.link(source, &destination, link_type), Ok(()));
                assert_eq!(disk, once, "{:?} of {} over {:?}", link_type, source, before);
                assert!(!disk.nodes.contains_key(&format!("{}/old", destination)));
                match link_type {
                    LinkType::Symlink => {
                        assert_eq!(disk.nodes.get(&destination), Some(&Node::Link(source.to_string())))
                    }
                    LinkType::Copy => assert_eq!(disk.nodes.get(&destination), disk.nodes.get(source)),
                }
            }
        }
    }
}

#[test]
fn a_copied_directory_holds_what_the_source_holds() {
    let mut disk = repository();
    assert_eq!(disk.link("/repo/assets", "/repo/.epi/trees/feature-a/assets", LinkType::Copy), Ok(()));
    assert_eq!(disk.nodes.get("/repo/.epi/trees/feature-a/assets"), Some(&Node::Dir));
    assert_eq!(
        disk.nodes.get("/repo/.epi/trees/feature-a/assets/fonts/a"),
        Some(&Node::File("ttf".to_string()))
    );
    assert_eq!(
        disk.nodes.get("/repo/.epi/trees/feature-a/assets/logo"),
        Some(&Node::File("png".to_string()))
    );
}

#[test]
fn the_directories_above_the_destination_are_created() {
    let mut disk = repository();
    assert_eq!(
        disk.link("/repo/.env", "/repo/.epi/trees/feature-a/config/local/.env", LinkType::Symlink),
        Ok(())
    );
    assert_eq!(disk.nodes.get("/repo/.epi/trees/feature-a/config/local"), Some(&Node::Dir));
}

#[test]
fn an_unwritable_worktree_fails_alone() {
    let mut disk = repository();
    disk.unwritable.push("/repo/.epi/trees/feature-b".to_string());
    let run = link_entries_to_worktrees(
        "/repo",
        vec![FileEntry { path: ".env".to_string(), link_type: LinkType::Symlink }],
        vec![tree("feature-a"), tree("feature-b"), tree("feature-c")],
    );
    let run = disk.run_links(run);
    assert_eq!(
        run.report.linked,
        vec![
            ("feature-a".to_string(), "/repo/.epi/trees/feature-a/.env".to_string()),
            ("feature-c".to_string(), "/repo/.epi/trees/feature-c/.env".to_string()),
        ]
    );
    assert_eq!(
        run.report.failed,
        vec![(
            "feature-b".to_string(),
            "/repo/.epi/trees/feature-b/.env".to_string(),
            "Failed to symlink /repo/.env -> /repo/.epi/trees/feature-b/.env".to_string()
        )]
    );
    assert!(disk.nodes.contains_key("/repo/.epi/trees/feature-c/.env"));
    assert!(!disk.nodes.contains_key("/repo/.epi/trees/feature-b/.env"));
}

#[test]
fn removal_leaves_files_and_directories_where_they_are() {
    let mut disk = repository()
        .with("/repo/.epi/trees/feature-a/.env", Node::Link("/repo/.env".to_string()))
        .with("/repo/.epi/trees/feature-b/.env", Node::File("local".to_string()))
        .with("/repo/.epi/trees/feature-c/.env", Node::Dir);
    let mut run = remove_symlinks_from_worktrees(
        vec![tree("feature-a"), tree("feature-b"), tree("feature-c"), tree("feature-d")],
        ".env",
    );
    for _ in 0..20 {
        let event = match run.action() {
            RemovalAction::Probe { path } => match disk.nodes.get(&path) {
                Some(Node::Link(_)) => RemovalEvent::Symlink,
                Some(_) => RemovalEvent::Other,
                None => RemovalEvent::Absent,
            },
            RemovalAction::Remove { path } => {
                assert!(matches!(disk.nodes.get(&path), Some(Node::Link(_))));
                match disk.remove_file(&path) {
                    Ok(()) => RemovalEvent::Removed,
                    Err(why) => RemovalEvent::RemoveFailed(why),
                }
            }
            RemovalAction::Finish => break,
        };
        run.advance(event);
    }
    assert_eq!(run.action(), RemovalAction::Finish);
    assert_eq!(
        run.report.removed,
        vec![("feature-a".to_string(), "/repo/.epi/trees/feature-a/.env".to_string())]
    );
    assert_eq!(run.report.failed.len(), 2);
    assert!(!disk.nodes.contains_key("/repo/.epi/trees/feature-a/.env"));
    assert_eq!(disk.nodes.get("/repo/.epi/trees/feature-b/.env"), Some(&Node::File("local".to_string())));
    assert_eq!(disk.nodes.get("/repo/.epi/trees/feature-c/.env"), Some(&Node::Dir));
    assert_eq!(disk.nodes.get("/repo/.env"), Some(&Node::File("SECRET=1".to_string())));
}
