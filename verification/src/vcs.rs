//! The version-control gateway: the arguments of each command that is run,
//! and what its captured output means.
//!
//! Running a command is left to the caller; a finished run comes back as a
//! `CommandOutput`.

use crate::error::{WorktreeError, WorktreeErrorView};
use crate::text::{
    chars_of, contains_char, has_char, is_prefix, joined, lemma_precedes_total,
    lemma_precedes_transitive, lines, lines_of, precedes, rank, strip_prefix, trim, trimmed, Rank,
};
use vstd::prelude::*;

verus! {

/// What a finished command left behind.
#[derive(Debug, Clone, PartialEq, Eq)]
pub struct CommandOutput {
    /// Whether the command ended with success.
    pub success: bool,
    /// What it wrote to its output stream.
    pub stdout: String,
    /// What it wrote to its error stream.
    pub stderr: String,
}

/// One working tree as the version-control system lists it.
#[derive(Debug, Clone, PartialEq, Eq)]
pub struct GitWorktree {
    pub path: String,
    /// The branch that is checked out; empty when the head is detached.
    pub branch: String,
}

/// The mathematical value of a `GitWorktree`.
pub struct GitWorktreeView {
    pub path: Seq<char>,
    pub branch: Seq<char>,
}

impl View for GitWorktree {
    type V = GitWorktreeView;

    open spec fn view(&self) -> GitWorktreeView {
        GitWorktreeView { path: self.path@, branch: self.branch@ }
    }
}

impl DeepView for GitWorktree {
    type V = GitWorktreeView;

    open spec fn deep_view(&self) -> GitWorktreeView {
        self@
    }
}

/// The failure of a command: `what` followed by the command's error stream.
pub open spec fn command_failure(what: Seq<char>, out: CommandOutput) -> WorktreeErrorView {
    WorktreeErrorView::VcsCommand { message: what + out.stderr@ }
}

/// The failure of a command: `what` followed by the command's error stream.
fn failure(what: &str, out: &CommandOutput) -> (e: WorktreeError)
    ensures
        e@ == command_failure(what@, *out),
{
    WorktreeError::VcsCommand { message: joined(what, out.stderr.as_str()) }
}

/// The branch that is checked out, from the output of the current-branch
/// command: its output stream without surrounding white space. An
/// unsuccessful command is an error that carries its error stream.
pub fn get_current_branch(out: &CommandOutput) -> (r: Result<String, WorktreeError>)
    ensures
        out.success ==> r is Ok && r->Ok_0@ == trim(out.stdout@),
        !out.success ==> r is Err && r->Err_0@ == command_failure(
            "git rev-parse failed: "@,
            *out,
        ),
{
    if !out.success {
        return Err(failure("git rev-parse failed: ", out));
    }
    Ok(trimmed(out.stdout.as_str()))
}

/// Whether the branch exists, from the output of the branch-verify command.
/// An unsuccessful command means that it does not; it is no error.
pub fn branch_exists(out: &CommandOutput) -> (r: bool)
    ensures
        r == out.success,
{
    out.success
}

/// Whether the path is tracked, from the output of the tracked-files command.
/// An unsuccessful command means that it is not; it is no error.
pub fn is_path_tracked(out: &CommandOutput) -> (r: bool)
    ensures
        r == out.success,
{
    out.success
}

/// The line that opens a record of the worktree listing.
pub open spec fn worktree_tag() -> Seq<char> {
    "worktree "@
}

/// The line that names a record's branch.
pub open spec fn branch_tag() -> Seq<char> {
    "branch "@
}

/// The line that names a record's branch by its full reference.
pub open spec fn head_tag() -> Seq<char> {
    "branch refs/heads/"@
}

/// Whether `line` opens a record.
pub open spec fn is_worktree_line(line: Seq<char>) -> bool {
    is_prefix(worktree_tag(), line)
}

/// Whether `line` names a branch.
pub open spec fn is_branch_line(line: Seq<char>) -> bool {
    !is_worktree_line(line) && is_prefix(branch_tag(), line)
}

/// The path that a worktree line carries.
pub open spec fn path_named(line: Seq<char>) -> Seq<char> {
    line.skip(worktree_tag().len() as int)
}

/// The branch that a branch line names: what follows `refs/heads/` where the
/// line gives the full reference, else what follows the word `branch`.
pub open spec fn branch_named(line: Seq<char>) -> Seq<char> {
    if is_prefix(head_tag(), line) {
        line.skip(head_tag().len() as int)
    } else {
        line.skip(branch_tag().len() as int)
    }
}

/// `records` with the branch of its last record set to `branch`.
pub open spec fn with_branch(records: Seq<GitWorktreeView>, branch: Seq<char>) -> Seq<
    GitWorktreeView,
> {
    records.drop_last().push(GitWorktreeView { path: records.last().path, branch })
}

/// The records that the listing `lines` describe. A worktree line opens a
/// record with an empty branch; a branch line names the branch of the record
/// that is open; every other line, and a branch line before the first
/// record, says nothing.
pub open spec fn records(lines: Seq<Seq<char>>) -> Seq<GitWorktreeView>
    decreases lines.len(),
{
    if lines.len() == 0 {
        Seq::empty()
    } else {
        let before = records(lines.drop_last());
        let line = lines.last();
        if is_worktree_line(line) {
            before.push(GitWorktreeView { path: path_named(line), branch: Seq::empty() })
        } else if is_branch_line(line) && before.len() > 0 {
            with_branch(before, branch_named(line))
        } else {
            before
        }
    }
}

/// The working trees that the output stream `listing` of the list command describes.
pub fn parse_worktree_listing(listing: &str) -> (out: Vec<GitWorktree>)
    ensures
        out.deep_view() == records(lines(listing@)),
{
    let all = lines_of(listing);
    let ghost texts = all.deep_view();
    let mut out: Vec<GitWorktree> = Vec::new();
    let mut k: usize = 0;
    assert(texts.take(0) =~= Seq::<Seq<char>>::empty());
    assert(out.deep_view() =~= Seq::<GitWorktreeView>::empty());
    while k < all.len()
        invariant
            k <= all@.len(),
            texts == all.deep_view(),
            texts == lines(listing@),
            out.deep_view() == records(texts.take(k as int)),
        decreases all@.len() - k,
    {
        let line = all[k].as_str();
        proof {
            assert(texts.take(k + 1).drop_last() =~= texts.take(k as int));
            assert(texts.take(k + 1).last() == line@);
        }
        let ghost before = out.deep_view();
        match strip_prefix(line, "worktree ") {
            Some(path) => {
                let rec = GitWorktree { path, branch: String::new() };
                out.push(rec);
                assert(out.deep_view() =~= before.push(rec@));
            },
            None => {
                match strip_prefix(line, "branch ") {
                    Some(short) => {
                        let branch = match strip_prefix(line, "branch refs/heads/") {
                            Some(name) => name,
                            None => short,
                        };
                        match out.pop() {
                            Some(open) => {
                                let rec = GitWorktree { path: open.path, branch };
                                out.push(rec);
                                assert(out.deep_view() =~= with_branch(before, branch@));
                            },
                            None => {
                                assert(out.deep_view() =~= before);
                            },
                        }
                    },
                    None => {},
                }
            },
        }
        k += 1;
    }
    assert(texts.take(k as int) =~= texts);
    out
}

/// The working trees that the version-control system knows, from the output
/// of the list command. An unsuccessful command is an error that carries its
/// error stream.
pub fn list_git_worktrees(out: &CommandOutput) -> (r: Result<Vec<GitWorktree>, WorktreeError>)
    ensures
        out.success ==> r is Ok && r->Ok_0.deep_view() == records(lines(out.stdout@)),
        !out.success ==> r is Err && r->Err_0@ == command_failure(
            "git worktree list failed: "@,
            *out,
        ),
{
    if !out.success {
        return Err(failure("git worktree list failed: ", out));
    }
    Ok(parse_worktree_listing(out.stdout.as_str()))
}

/// The worktree lines among `lines`, in order.
pub open spec fn worktree_lines(lines: Seq<Seq<char>>) -> Seq<Seq<char>> {
    lines.filter(|line: Seq<char>| is_worktree_line(line))
}

/// The branch that a block of lines gives to the record they follow: the one
/// that its last branch line names, and none where it has no branch line.
pub open spec fn block_branch(block: Seq<Seq<char>>) -> Seq<char>
    decreases block.len(),
{
    if block.len() == 0 {
        Seq::empty()
    } else if is_branch_line(block.last()) {
        branch_named(block.last())
    } else {
        block_branch(block.drop_last())
    }
}

/// A listing yields one record for each of its worktree lines, in the order
/// of those lines, each with the path that its line carries.
pub proof fn lemma_records_follow_worktree_lines(lines: Seq<Seq<char>>)
    ensures
        records(lines).len() == worktree_lines(lines).len(),
        forall|k: int|
            0 <= k < records(lines).len() ==> (#[trigger] records(lines)[k]).path == path_named(
                worktree_lines(lines)[k],
            ),
    decreases lines.len(),
{
    reveal(Seq::filter);
    if lines.len() > 0 {
        lemma_records_follow_worktree_lines(lines.drop_last());
    }
}

/// A record holds exactly what its own lines say: a worktree line followed
/// by a block without worktree lines yields, after the records of everything
/// before it, one record with the line's path and the block's branch. The
/// record that the input ends with is there like any other.
pub proof fn lemma_record_of_block(before: Seq<Seq<char>>, opener: Seq<char>, block: Seq<Seq<char>>)
    requires
        is_worktree_line(opener),
        forall|i: int| 0 <= i < block.len() ==> !is_worktree_line(block[i]),
    ensures
        records(before + seq![opener] + block) == records(before).push(
            GitWorktreeView { path: path_named(opener), branch: block_branch(block) },
        ),
    decreases block.len(),
{
    let all = before + seq![opener] + block;
    if block.len() == 0 {
        assert(all.drop_last() =~= before);
        assert(all.last() == opener);
    } else {
        let shorter = block.drop_last();
        lemma_record_of_block(before, opener, shorter);
        assert(all.drop_last() =~= before + seq![opener] + shorter);
        assert(all.last() == block.last());
        let open = records(before).push(
            GitWorktreeView { path: path_named(opener), branch: block_branch(shorter) },
        );
        if is_branch_line(block.last()) {
            assert(with_branch(open, branch_named(block.last())) =~= records(before).push(
                GitWorktreeView { path: path_named(opener), branch: branch_named(block.last()) },
            ));
        }
    }
}

/// A listing that begins with a worktree line yields at least one record.
pub proof fn lemma_records_nonempty(lines: Seq<Seq<char>>)
    requires
        lines.len() > 0,
        is_worktree_line(lines[0]),
    ensures
        records(lines).len() >= 1,
    decreases lines.len(),
{
    if lines.len() > 1 {
        let shorter = lines.drop_last();
        assert(shorter[0] == lines[0]);
        lemma_records_nonempty(shorter);
    }
}

/// Records do not reach across a worktree line: where `after` begins with
/// one, the records of `before` followed by `after` are those of `before`
/// followed by those of `after`.
pub proof fn lemma_records_concat(before: Seq<Seq<char>>, after: Seq<Seq<char>>)
    requires
        after.len() == 0 || is_worktree_line(after[0]),
    ensures
        records(before + after) == records(before) + records(after),
    decreases after.len(),
{
    let all = before + after;
    if after.len() == 0 {
        assert(all =~= before);
        assert(records(before) + records(after) =~= records(before));
    } else {
        let rest = after.drop_last();
        let line = after.last();
        assert(all.drop_last() =~= before + rest);
        assert(all.last() == line);
        if rest.len() == 0 {
            assert(line == after[0]);
            assert(before + rest =~= before);
            assert(records(rest) =~= Seq::<GitWorktreeView>::empty());
            assert(records(all) =~= records(before) + records(after));
        } else {
            assert(rest[0] == after[0]);
            lemma_records_concat(before, rest);
            lemma_records_nonempty(rest);
            let joint = records(before) + records(rest);
            if is_worktree_line(line) {
                assert(records(all) =~= records(before) + records(after));
            } else if is_branch_line(line) {
                assert(with_branch(joint, branch_named(line)) =~= records(before) + with_branch(
                    records(rest),
                    branch_named(line),
                ));
            } else {
            }
        }
    }
}

/// Whether a line of the ignored-files listing names a file directly in the
/// repository root: it is not empty and holds no slash.
pub open spec fn is_candidate(line: Seq<char>) -> bool {
    line.len() > 0 && !has_char(line, '/')
}

/// Whether each text of `v` precedes all that follow it.
pub open spec fn strictly_sorted(v: Seq<Seq<char>>) -> bool {
    forall|i: int, j: int| 0 <= i < j < v.len() ==> precedes(#[trigger] v[i], #[trigger] v[j])
}

/// Putting `x` between the texts before it and those after it keeps the order.
proof fn lemma_insert_sorted(v: Seq<Seq<char>>, p: int, x: Seq<char>)
    requires
        strictly_sorted(v),
        0 <= p <= v.len(),
        forall|i: int| 0 <= i < p ==> precedes(v[i], x),
        p < v.len() ==> precedes(x, v[p]),
    ensures
        strictly_sorted(v.insert(p, x)),
{
    let w = v.insert(p, x);
    assert forall|i: int, j: int| 0 <= i < j < w.len() implies precedes(
        #[trigger] w[i],
        #[trigger] w[j],
    ) by {
        if j < p {
            assert(w[i] == v[i] && w[j] == v[j]);
        } else if j == p {
            assert(w[i] == v[i]);
        } else if i < p {
            assert(w[i] == v[i] && w[j] == v[j - 1]);
        } else if i == p {
            assert(w[j] == v[j - 1]);
            if j - 1 > p {
                assert(precedes(v[p], v[j - 1]));
                lemma_precedes_transitive(x, v[p], v[j - 1]);
            }
        } else {
            assert(w[i] == v[i - 1] && w[j] == v[j - 1]);
        }
    }
}

/// Whether `files` holds exactly the candidate lines among `lines`.
pub open spec fn holds_candidates(files: Seq<Seq<char>>, lines: Seq<Seq<char>>) -> bool {
    forall|t: Seq<char>| #[trigger]
        files.contains(t) <==> lines.contains(t) && is_candidate(t)
}

/// Only one listing is in order and holds given texts, each once: two
/// lists that are both strictly sorted and hold the same texts are equal.
pub proof fn lemma_sorted_listing_is_unique(a: Seq<Seq<char>>, b: Seq<Seq<char>>)
    requires
        strictly_sorted(a),
        strictly_sorted(b),
        forall|t: Seq<char>| #[trigger] a.contains(t) <==> b.contains(t),
    ensures
        a == b,
    decreases a.len(),
{
    if a.len() == 0 {
        if b.len() > 0 {
            assert(b.contains(b[0]));
            assert(a.contains(b[0]));
        }
        assert(a =~= b);
    } else {
        assert(a.contains(a[0]));
        assert(b.contains(a[0]));
        let j = choose|j: int| 0 <= j < b.len() && b[j] == a[0];
        assert(b.contains(b[0]));
        assert(a.contains(b[0]));
        let i = choose|i: int| 0 <= i < a.len() && a[i] == b[0];
        if j > 0 {
            assert(precedes(b[0], b[j]));
            if i > 0 {
                assert(precedes(a[0], a[i]));
                lemma_precedes_transitive(a[0], b[0], a[0]);
            }
            lemma_precedes_total(a[0], a[0]);
        }
        assert(a[0] == b[0]);
        let x = a.skip(1);
        let y = b.skip(1);
        assert forall|t: Seq<char>| #[trigger] x.contains(t) <==> y.contains(t) by {
            lemma_precedes_total(a[0], a[0]);
            if x.contains(t) {
                let k = choose|k: int| 0 <= k < x.len() && x[k] == t;
                assert(a[k + 1] == t);
                assert(precedes(a[0], a[k + 1]));
                assert(a.contains(t));
                assert(b.contains(t));
                let m = choose|m: int| 0 <= m < b.len() && b[m] == t;
                assert(m > 0);
                assert(y[m - 1] == t);
            }
            if y.contains(t) {
                let k = choose|k: int| 0 <= k < y.len() && y[k] == t;
                assert(b[k + 1] == t);
                assert(precedes(b[0], b[k + 1]));
                assert(b.contains(t));
                assert(a.contains(t));
                let m = choose|m: int| 0 <= m < a.len() && a[m] == t;
                assert(m > 0);
                assert(x[m - 1] == t);
            }
        }
        assert(strictly_sorted(x)) by {
            assert forall|p: int, q: int| 0 <= p < q < x.len() implies precedes(
                #[trigger] x[p],
                #[trigger] x[q],
            ) by {
                assert(precedes(a[p + 1], a[q + 1]));
            }
        }
        assert(strictly_sorted(y)) by {
            assert forall|p: int, q: int| 0 <= p < q < y.len() implies precedes(
                #[trigger] y[p],
                #[trigger] y[q],
            ) by {
                assert(precedes(b[p + 1], b[q + 1]));
            }
        }
        lemma_sorted_listing_is_unique(x, y);
        assert(a =~= seq![a[0]] + x);
        assert(b =~= seq![b[0]] + y);
    }
}

/// A list with one more text at its end holds that text and what it held before.
proof fn lemma_contains_push(v: Seq<Seq<char>>, x: Seq<char>, t: Seq<char>)
    ensures
        v.push(x).contains(t) <==> v.contains(t) || t == x,
{
    let w = v.push(x);
    if w.contains(t) {
        let i = choose|i: int| 0 <= i < w.len() && w[i] == t;
        if i < v.len() {
            assert(v[i] == t);
        }
    }
    if v.contains(t) {
        let i = choose|i: int| 0 <= i < v.len() && v[i] == t;
        assert(w[i] == t);
    }
    if t == x {
        assert(w[v.len() as int] == t);
    }
}

/// A list with one more text put in holds that text and what it held before.
proof fn lemma_contains_insert(v: Seq<Seq<char>>, p: int, x: Seq<char>, t: Seq<char>)
    requires
        0 <= p <= v.len(),
    ensures
        v.insert(p, x).contains(t) <==> v.contains(t) || t == x,
{
    let w = v.insert(p, x);
    if w.contains(t) {
        let i = choose|i: int| 0 <= i < w.len() && w[i] == t;
        if i < p {
            assert(v[i] == t);
        } else if i > p {
            assert(v[i - 1] == t);
        }
    }
    if v.contains(t) {
        let i = choose|i: int| 0 <= i < v.len() && v[i] == t;
        if i < p {
            assert(w[i] == t);
        } else {
            assert(w[i + 1] == t);
        }
    }
    if t == x {
        assert(w[p] == t);
    }
}

/// The files that the ignored-files listing names directly in the repository
/// root: the candidate lines of the command's output stream, each once, in
/// the order of texts. An unsuccessful command is an error that carries its
/// error stream.
pub fn list_ignored_files(out: &CommandOutput) -> (r: Result<Vec<String>, WorktreeError>)
    ensures
        out.success ==> r is Ok && strictly_sorted(r->Ok_0.deep_view()) && holds_candidates(
            r->Ok_0.deep_view(),
            lines(out.stdout@),
        ),
        !out.success ==> r is Err && r->Err_0@ == command_failure(
            "git ls-files failed: "@,
            *out,
        ),
{
    if !out.success {
        return Err(failure("git ls-files failed: ", out));
    }
    let all = lines_of(out.stdout.as_str());
    let ghost texts = all.deep_view();
    let mut files: Vec<String> = Vec::new();
    let mut keys: Vec<Vec<char>> = Vec::new();
    let mut k: usize = 0;
    while k < all.len()
        invariant
            k <= all@.len(),
            texts == all.deep_view(),
            texts == lines(out.stdout@),
            keys@.len() == files@.len(),
            forall|i: int| 0 <= i < keys@.len() ==> (#[trigger] keys@[i])@ == files@[i]@,
            strictly_sorted(files.deep_view()),
            holds_candidates(files.deep_view(), texts.take(k as int)),
        decreases all@.len() - k,
    {
        let line = all[k].as_str();
        let ghost seen = texts.take(k as int);
        let ghost next = texts.take(k + 1);
        let ghost old_files = files.deep_view();
        assert(next =~= seen.push(line@));
        let key = chars_of(line);
        if key.len() > 0 && !contains_char(line, '/') {
            let mut p: usize = 0;
            let mut found = false;
            while p < keys.len()
                invariant_except_break
                    !found,
                invariant
                    p <= keys@.len(),
                    keys@.len() == files@.len(),
                    key@ == line@,
                    forall|i: int| 0 <= i < keys@.len() ==> (#[trigger] keys@[i])@ == files@[i]@,
                    forall|i: int| 0 <= i < p ==> precedes(files.deep_view()[i], key@),
                ensures
                    p <= keys@.len(),
                    found ==> p < keys@.len() && files.deep_view()[p as int] == key@,
                    !found ==> (p < keys@.len() ==> precedes(key@, files.deep_view()[p as int])),
                decreases keys@.len() - p,
            {
                let place = rank(&keys[p], &key);
                proof {
                    lemma_precedes_total(keys@[p as int]@, key@);
                }
                match place {
                    Rank::Before => {
                        p += 1;
                    },
                    Rank::Same => {
                        found = true;
                        break ;
                    },
                    Rank::After => {
                        break ;
                    },
                }
            }
            if found {
                proof {
                    assert(old_files.contains(line@));
                    assert forall|t: Seq<char>| #[trigger]
                        old_files.contains(t) <==> next.contains(t) && is_candidate(t) by {
                        lemma_contains_push(seen, line@, t);
                    }
                }
            } else {
                files.insert(p, line.to_owned());
                keys.insert(p, key);
                proof {
                    let new_files = files.deep_view();
                    assert(new_files =~= old_files.insert(p as int, line@));
                    lemma_insert_sorted(old_files, p as int, line@);
                    assert forall|t: Seq<char>| #[trigger]
                        new_files.contains(t) <==> next.contains(t) && is_candidate(t) by {
                        lemma_contains_push(seen, line@, t);
                        lemma_contains_insert(old_files, p as int, line@, t);
                        assert(old_files.contains(t) <==> seen.contains(t) && is_candidate(t));
                    }
                }
            }
        } else {
            proof {
                assert forall|t: Seq<char>| #[trigger]
                    old_files.contains(t) <==> next.contains(t) && is_candidate(t) by {
                    lemma_contains_push(seen, line@, t);
                }
            }
        }
        k += 1;
    }
    assert(texts.take(k as int) =~= texts);
    Ok(files)
}

/// The arguments of the command that names the branch that is checked out.
pub open spec fn current_branch_args() -> Seq<Seq<char>> {
    seq!["rev-parse"@, "--abbrev-ref"@, "HEAD"@]
}

/// The arguments of the command that succeeds only where the branch `name` exists.
pub open spec fn branch_exists_args(name: Seq<char>) -> Seq<Seq<char>> {
    seq!["show-ref"@, "--verify"@, "--quiet"@, "refs/heads/"@ + name]
}

/// The arguments of the command that succeeds only where `path` is tracked.
pub open spec fn path_tracked_args(path: Seq<char>) -> Seq<Seq<char>> {
    seq!["ls-files"@, "--error-unmatch"@, "--"@, path]
}

/// The arguments of the command that lists the files that are ignored and not tracked.
pub open spec fn ignored_files_args() -> Seq<Seq<char>> {
    seq!["ls-files"@, "-i"@, "-o"@, "--exclude-standard"@]
}

/// The arguments of the command that lists the working trees.
pub open spec fn list_worktrees_args() -> Seq<Seq<char>> {
    seq!["worktree"@, "list"@, "--porcelain"@]
}

/// The arguments of the command that creates a working tree at `path`: on
/// the new branch `branch` where `create_new` says so, else with the
/// existing branch `branch` checked out.
pub open spec fn add_worktree_args(path: Seq<char>, branch: Seq<char>, create_new: bool) -> Seq<
    Seq<char>,
> {
    if create_new {
        seq!["worktree"@, "add"@, "-b"@, branch, path]
    } else {
        seq!["worktree"@, "add"@, path, branch]
    }
}

/// The arguments of the command that moves the working tree at `from` to `to`.
pub open spec fn move_worktree_args(from: Seq<char>, to: Seq<char>) -> Seq<Seq<char>> {
    seq!["worktree"@, "move"@, from, to]
}

/// The arguments of the command that names the branch that is checked out.
pub fn current_branch_command() -> (out: Vec<String>)
    ensures
        out.deep_view() == current_branch_args(),
{
    let mut out: Vec<String> = Vec::new();
    out.push("rev-parse".to_owned());
    out.push("--abbrev-ref".to_owned());
    out.push("HEAD".to_owned());
    assert(out.deep_view() =~= current_branch_args());
    out
}

/// The arguments of the command that succeeds only where the branch `name` exists.
pub fn branch_exists_command(name: &str) -> (out: Vec<String>)
    ensures
        out.deep_view() == branch_exists_args(name@),
{
    let mut out: Vec<String> = Vec::new();
    out.push("show-ref".to_owned());
    out.push("--verify".to_owned());
    out.push("--quiet".to_owned());
    out.push(joined("refs/heads/", name));
    assert(out.deep_view() =~= branch_exists_args(name@));
    out
}

/// The arguments of the command that succeeds only where `path` is tracked.
pub fn path_tracked_command(path: &str) -> (out: Vec<String>)
    ensures
        out.deep_view() == path_tracked_args(path@),
{
    let mut out: Vec<String> = Vec::new();
    out.push("ls-files".to_owned());
    out.push("--error-unmatch".to_owned());
    out.push("--".to_owned());
    out.push(path.to_owned());
    assert(out.deep_view() =~= path_tracked_args(path@));
    out
}

/// The arguments of the command that lists the files that are ignored and not tracked.
pub fn ignored_files_command() -> (out: Vec<String>)
    ensures
        out.deep_view() == ignored_files_args(),
{
    let mut out: Vec<String> = Vec::new();
    out.push("ls-files".to_owned());
    out.push("-i".to_owned());
    out.push("-o".to_owned());
    out.push("--exclude-standard".to_owned());
    assert(out.deep_view() =~= ignored_files_args());
    out
}

/// The arguments of the command that lists the working trees.
pub fn list_worktrees_command() -> (out: Vec<String>)
    ensures
        out.deep_view() == list_worktrees_args(),
{
    let mut out: Vec<String> = Vec::new();
    out.push("worktree".to_owned());
    out.push("list".to_owned());
    out.push("--porcelain".to_owned());
    assert(out.deep_view() =~= list_worktrees_args());
    out
}

/// The arguments of the command that creates a working tree at `path`.
pub fn add_worktree_command(path: &str, branch: &str, create_new: bool) -> (out: Vec<String>)
    ensures
        out.deep_view() == add_worktree_args(path@, branch@, create_new),
{
    let mut out: Vec<String> = Vec::new();
    out.push("worktree".to_owned());
    out.push("add".to_owned());
    if create_new {
        out.push("-b".to_owned());
        out.push(branch.to_owned());
        out.push(path.to_owned());
    } else {
        out.push(path.to_owned());
        out.push(branch.to_owned());
    }
    assert(out.deep_view() =~= add_worktree_args(path@, branch@, create_new));
    out
}

/// The arguments of the command that moves the working tree at `from` to `to`.
pub fn move_worktree_command(from: &str, to: &str) -> (out: Vec<String>)
    ensures
        out.deep_view() == move_worktree_args(from@, to@),
{
    let mut out: Vec<String> = Vec::new();
    out.push("worktree".to_owned());
    out.push("move".to_owned());
    out.push(from.to_owned());
    out.push(to.to_owned());
    assert(out.deep_view() =~= move_worktree_args(from@, to@));
    out
}

} // verus!
