//! The configuration record: the main branch and the files that every
//! managed worktree shares.

use crate::error::{WorktreeError, WorktreeErrorView};
use crate::path::{components, join, lemma_components_join, path_join};
use crate::text::{has_char, same_text};
use vstd::prelude::*;

verus! {

/// The directory, below the repository root, that holds the configuration.
pub const CONFIG_DIR: &'static str = ".epi";

/// The configuration file inside `CONFIG_DIR`.
pub const CONFIG_FILE: &'static str = "config.toml";

/// The directory, inside `CONFIG_DIR`, that holds the managed worktrees.
pub const TREES_DIR: &'static str = "trees";

/// How a shared file reaches a worktree.
#[derive(Debug, Clone, Copy, PartialEq, Eq, Structural)]
pub enum LinkType {
    Copy,
    Symlink,
}

impl Default for LinkType {
    fn default() -> (r: Self)
        ensures
            r == LinkType::Symlink,
    {
        LinkType::Symlink
    }
}

/// One shared file or directory: its path from the repository root, and how
/// it is brought into each worktree.
#[derive(Debug, Clone, PartialEq, Eq)]
pub struct FileEntry {
    pub path: String,
    pub link_type: LinkType,
}

/// The mathematical value of a `FileEntry`.
pub struct FileEntryView {
    pub path: Seq<char>,
    pub link_type: LinkType,
}

impl View for FileEntry {
    type V = FileEntryView;

    open spec fn view(&self) -> FileEntryView {
        FileEntryView { path: self.path@, link_type: self.link_type }
    }
}

impl DeepView for FileEntry {
    type V = FileEntryView;

    open spec fn deep_view(&self) -> FileEntryView {
        self@
    }
}

/// The configuration of one repository.
#[derive(Debug, PartialEq, Eq)]
pub struct Config {
    pub main_branch: String,
    pub files: Vec<FileEntry>,
}

/// The mathematical value of a `Config`.
pub struct ConfigView {
    pub main_branch: Seq<char>,
    pub files: Seq<FileEntryView>,
}

impl View for Config {
    type V = ConfigView;

    open spec fn view(&self) -> ConfigView {
        ConfigView { main_branch: self.main_branch@, files: self.files.deep_view() }
    }
}

/// The main branch of a repository whose configuration names none.
pub fn default_main_branch() -> (out: String)
    ensures
        out@ == "main"@,
{
    "main".to_owned()
}

impl Default for Config {
    fn default() -> (r: Self)
        ensures
            r@.main_branch == "main"@,
            r@.files == Seq::<FileEntryView>::empty(),
    {
        let r = Config { main_branch: default_main_branch(), files: Vec::new() };
        assert(r.files.deep_view() =~= Seq::<FileEntryView>::empty());
        r
    }
}

/// The directory of the managed worktrees of the repository at `project_root`.
pub open spec fn trees_dir(project_root: Seq<char>) -> Seq<char> {
    join(join(project_root, CONFIG_DIR@), TREES_DIR@)
}

/// The directory of the managed worktrees of the repository at `project_root`.
pub fn get_trees_dir(project_root: &str) -> (out: String)
    ensures
        out@ == trees_dir(project_root@),
{
    let config_dir = path_join(project_root, CONFIG_DIR);
    path_join(config_dir.as_str(), TREES_DIR)
}

/// The managed directory lies two components below the repository root.
pub proof fn lemma_trees_dir_components(root: Seq<char>)
    ensures
        components(trees_dir(root)) == components(root).push(CONFIG_DIR@).push(TREES_DIR@),
{
    reveal_strlit(".epi");
    reveal_strlit("trees");
    let a = ".epi"@;
    let b = "trees"@;
    assert(!has_char(a, '/')) by {
        if has_char(a, '/') {
            let i = choose|i: int| 0 <= i < a.len() && a[i] == '/';
            assert(a[0] != '/' && a[1] != '/' && a[2] != '/' && a[3] != '/');
        }
    }
    assert(!has_char(b, '/')) by {
        if has_char(b, '/') {
            let i = choose|i: int| 0 <= i < b.len() && b[i] == '/';
            assert(b[0] != '/' && b[1] != '/' && b[2] != '/' && b[3] != '/' && b[4] != '/');
        }
    }
    assert(a.len() == 4 && b.len() == 5);
    lemma_components_join(root, a);
    lemma_components_join(join(root, a), b);
}

/// The configuration file of the repository at `project_root`.
pub open spec fn config_file(project_root: Seq<char>) -> Seq<char> {
    join(join(project_root, CONFIG_DIR@), CONFIG_FILE@)
}

/// The configuration file of the repository at `project_root`.
pub fn config_path(project_root: &str) -> (out: String)
    ensures
        out@ == config_file(project_root@),
{
    let config_dir = path_join(project_root, CONFIG_DIR);
    path_join(config_dir.as_str(), CONFIG_FILE)
}

/// Whether one of `files` has the path `path`.
pub open spec fn configured(files: Seq<FileEntryView>, path: Seq<char>) -> bool {
    exists|i: int| 0 <= i < files.len() && (#[trigger] files[i]).path == path
}

/// The entries that `paths` make, each with `link_type`, in order.
pub open spec fn entries_of(paths: Seq<Seq<char>>, link_type: LinkType) -> Seq<FileEntryView> {
    paths.map_values(|path: Seq<char>| FileEntryView { path, link_type })
}

/// `files` without the entries whose path is `path`.
pub open spec fn without_path(files: Seq<FileEntryView>, path: Seq<char>) -> Seq<FileEntryView> {
    files.filter(|f: FileEntryView| f.path != path)
}

impl Config {
    /// Whether a file with the path `path` is configured.
    pub fn has_file(&self, path: &str) -> (r: bool)
        ensures
            r == configured(self@.files, path@),
    {
        let mut i: usize = 0;
        while i < self.files.len()
            invariant
                i <= self.files@.len(),
                forall|k: int| 0 <= k < i ==> self.files@[k]@.path != path@,
            decreases self.files@.len() - i,
        {
            if same_text(self.files[i].path.as_str(), path) {
                assert(self@.files[i as int].path == path@);
                return true;
            }
            i += 1;
        }
        assert forall|k: int| 0 <= k < self@.files.len() implies (#[trigger] self@.files[k]).path
            != path@ by {
            assert(self@.files[k] == self.files@[k]@);
        }
        false
    }

    /// Adds one entry for each of `paths`, with `link_type`, after the
    /// entries that are there, and returns the entries added.
    pub fn add_files(&mut self, paths: &Vec<String>, link_type: LinkType) -> (added: Vec<FileEntry>)
        ensures
            added.deep_view() == entries_of(paths.deep_view(), link_type),
            final(self)@.files == old(self)@.files + entries_of(paths.deep_view(), link_type),
            final(self)@.main_branch == old(self)@.main_branch,
    {
        let ghost before = self@.files;
        let ghost all = entries_of(paths.deep_view(), link_type);
        let mut added: Vec<FileEntry> = Vec::new();
        let mut k: usize = 0;
        assert(self@.files =~= before + all.take(0));
        assert(added.deep_view() =~= all.take(0));
        while k < paths.len()
            invariant
                k <= paths@.len(),
                all == entries_of(paths.deep_view(), link_type),
                self@.files == before + all.take(k as int),
                self@.main_branch == old(self)@.main_branch,
                added.deep_view() == all.take(k as int),
            decreases paths@.len() - k,
        {
            let ghost files_now = self@.files;
            let ghost added_now = added.deep_view();
            let one = FileEntry { path: paths[k].clone(), link_type };
            let other = FileEntry { path: paths[k].clone(), link_type };
            assert(one@ == all[k as int]);
            self.files.push(one);
            added.push(other);
            assert(self@.files =~= files_now.push(all[k as int]));
            assert(added.deep_view() =~= added_now.push(all[k as int]));
            assert(all.take(k + 1) =~= all.take(k as int).push(all[k as int]));
            k += 1;
        }
        assert(all.take(k as int) =~= all);
        added
    }

    /// Removes the entries whose path is `path`, and tells whether there was one.
    pub fn remove_file(&mut self, path: &str) -> (removed: bool)
        ensures
            final(self)@.files == without_path(old(self)@.files, path@),
            final(self)@.main_branch == old(self)@.main_branch,
            removed == configured(old(self)@.files, path@),
    {
        let ghost before = self@.files;
        let found = self.has_file(path);
        let mut kept: Vec<FileEntry> = Vec::new();
        let mut k: usize = 0;
        proof {
            reveal(Seq::filter);
            assert(before.take(0) =~= Seq::<FileEntryView>::empty());
            assert(kept.deep_view() =~= Seq::<FileEntryView>::empty());
        }
        while k < self.files.len()
            invariant
                k <= self.files@.len(),
                before == self@.files,
                self@.main_branch == old(self)@.main_branch,
                kept.deep_view() == without_path(before.take(k as int), path@),
            decreases self.files@.len() - k,
        {
            let ghost kept_now = kept.deep_view();
            proof {
                reveal(Seq::filter);
                assert(before.take(k + 1).drop_last() =~= before.take(k as int));
                assert(before.take(k + 1).last() == self.files@[k as int]@);
            }
            if !same_text(self.files[k].path.as_str(), path) {
                let one = FileEntry {
                    path: self.files[k].path.clone(),
                    link_type: self.files[k].link_type,
                };
                kept.push(one);
                assert(kept.deep_view() =~= kept_now.push(one@));
            }
            k += 1;
        }
        assert(before.take(k as int) =~= before);
        self.files = kept;
        found
    }
}

/// The files, among those that the repository ignores, that can still be
/// added to the configuration: those of `ignored` that are not configured
/// yet, in order.
pub fn select_ignored_files(ignored: &Vec<String>, config: &Config) -> (out: Vec<String>)
    ensures
        out.deep_view() == ignored.deep_view().filter(
            |path: Seq<char>| !configured(config@.files, path),
        ),
{
    let ghost all = ignored.deep_view();
    let ghost fresh = |path: Seq<char>| !configured(config@.files, path);
    let mut out: Vec<String> = Vec::new();
    let mut k: usize = 0;
    proof {
        reveal(Seq::filter);
        assert(all.take(0) =~= Seq::<Seq<char>>::empty());
        assert(out.deep_view() =~= Seq::<Seq<char>>::empty());
    }
    while k < ignored.len()
        invariant
            k <= ignored@.len(),
            all == ignored.deep_view(),
            fresh == (|path: Seq<char>| !configured(config@.files, path)),
            out.deep_view() == all.take(k as int).filter(fresh),
        decreases ignored@.len() - k,
    {
        let ghost out_now = out.deep_view();
        proof {
            reveal(Seq::filter);
            assert(all.take(k + 1).drop_last() =~= all.take(k as int));
            assert(all.take(k + 1).last() == ignored@[k as int]@);
        }
        if !config.has_file(ignored[k].as_str()) {
            let one = ignored[k].clone();
            out.push(one);
            assert(out.deep_view() =~= out_now.push(one@));
        }
        k += 1;
    }
    assert(all.take(k as int) =~= all);
    out
}

/// How asking the user for files ended.
#[derive(Debug, Clone, PartialEq, Eq)]
pub enum FilesOutcome {
    /// The user picked these files.
    Chosen(Vec<String>),
    /// The user cancelled or interrupted the question.
    Cancelled,
    /// The question could not be asked.
    Failed(String),
}

/// The files that the user picked: none where the user declined, and an
/// error where the question could not be asked.
pub fn chosen_files(outcome: FilesOutcome) -> (r: Result<Vec<String>, WorktreeError>)
    ensures
        outcome matches FilesOutcome::Chosen(files) ==> r is Ok && r->Ok_0.deep_view()
            == files.deep_view(),
        outcome is Cancelled ==> r is Ok && r->Ok_0@.len() == 0,
        outcome is Failed ==> r is Err && r->Err_0@ == (WorktreeErrorView::Prompt {
            message: "Failed to prompt for ignored file selection"@,
        }),
{
    match outcome {
        FilesOutcome::Chosen(files) => Ok(files),
        FilesOutcome::Cancelled => Ok(Vec::new()),
        FilesOutcome::Failed(_) => Err(
            WorktreeError::Prompt {
                message: "Failed to prompt for ignored file selection".to_owned(),
            },
        ),
    }
}

} // verus!
