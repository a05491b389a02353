//! The object store: what the queries read from a repository, as plain
//! records, and the calls that fetch it. Nothing here is proved of the store's
//! answers; the queries are verified for every answer it can give. What the
//! store finds on disk is left open. Of a change-set at hand the calls say
//! how many deltas it holds and which paths they have; of a tree at hand,
//! which entries it holds; of a patch and of a blob at hand, what they hold.

use crate::model::opt_view;
use vstd::prelude::*;

verus! {

#[verifier::external_type_specification]
#[verifier::external_body]
pub struct ExRepository(git2::Repository);

#[verifier::external_type_specification]
#[verifier::external_body]
pub struct ExStoreError(git2::Error);

#[verifier::external_type_specification]
#[verifier::external_body]
pub struct ExOid(git2::Oid);

#[verifier::external_type_specification]
#[verifier::external_body]
pub struct ExRevwalk<'r>(git2::Revwalk<'r>);

#[verifier::external_type_specification]
#[verifier::external_body]
pub struct ExTree<'r>(git2::Tree<'r>);

#[verifier::external_type_specification]
#[verifier::external_body]
pub struct ExDiff<'r>(git2::Diff<'r>);

#[verifier::external_type_specification]
#[verifier::external_body]
pub struct ExPatch<'b>(git2::Patch<'b>);

#[verifier::external_type_specification]
#[verifier::external_body]
pub struct ExBlame<'r>(git2::Blame<'r>);

#[verifier::external_type_specification]
#[verifier::external_body]
pub struct ExBranch<'r>(git2::Branch<'r>);

#[verifier::external_type_specification]
#[verifier::external_body]
pub struct ExBlob<'r>(git2::Blob<'r>);

/// How many characters the hexadecimal form of an object id has.
pub const ID_LEN: usize = 40;

/// A commit, as the queries read it.
#[derive(Debug)]
pub struct CommitRecord {
    /// The id in hexadecimal.
    pub id: String,
    /// The message, where it is valid text.
    pub message: Option<String>,
    /// The author's name, where it is valid text.
    pub author_name: Option<String>,
    /// The author's address, where it is valid text.
    pub author_email: Option<String>,
    /// The commit time in seconds since the epoch.
    pub seconds: i64,
    /// The number of parents: more than one for a merge.
    pub parent_count: usize,
}

/// A local branch, as the store lists it.
#[derive(Debug)]
pub struct BranchRecord {
    /// The name, where it is valid text.
    pub name: Option<String>,
    /// The time of the commit at the tip, where the tip leads to a commit.
    pub tip_seconds: Option<i64>,
    /// The id of that commit in hexadecimal.
    pub tip_id: Option<String>,
    /// Whether HEAD points at this branch.
    pub is_head: bool,
}

/// A remote, as the store holds it.
#[derive(Debug)]
pub struct RemoteRecord {
    /// The address to fetch from, where it is valid text.
    pub url: Option<String>,
    /// The address to push to, where one is set and is valid text.
    pub push_url: Option<String>,
}

/// The kind of a file-level change, as the store reports it.
#[derive(Debug, Clone, Copy, PartialEq, Eq, Structural)]
pub enum DeltaKind {
    Unmodified,
    Added,
    Deleted,
    Modified,
    Renamed,
    Copied,
    Ignored,
    Untracked,
    Typechange,
    Unreadable,
    Conflicted,
}

/// One side's path in a change: `None` where that side has none, `Some(None)`
/// where it has one that is no valid text.
pub type SidePath = Option<Option<String>>;

/// A file-level change between two trees, or a tree and the index.
#[derive(Debug)]
pub struct DeltaRecord {
    pub kind: DeltaKind,
    pub new_path: SidePath,
    pub old_path: SidePath,
    pub new_binary: bool,
    pub old_binary: bool,
}

/// A line of a patch, as the store hands it out.
#[derive(Debug)]
pub struct RawLine {
    /// The sigil: `+`, `-`, a space for context, or another for the rest.
    pub origin: char,
    /// The line's bytes, its newline included.
    pub content: Vec<u8>,
    pub old_lineno: Option<u32>,
    pub new_lineno: Option<u32>,
}

/// The size and nature of a blob.
#[derive(Debug)]
pub struct BlobHeader {
    pub is_binary: bool,
    pub size: usize,
}

/// The kind of object that a tree entry names, as the entry itself says.
#[derive(Debug, Clone, Copy, PartialEq, Eq, Structural)]
pub enum EntryKind {
    Tree,
    Blob,
    Commit,
    Tag,
    Any,
    Unknown,
}

/// An entry of a tree.
pub struct EntryRecord {
    /// The entry's name, where it is valid text.
    pub name: Option<String>,
    /// The id of the object that the entry names.
    pub id: git2::Oid,
    pub kind: EntryKind,
}

/// The staging state of a path.
#[derive(Debug)]
pub struct StatusRecord {
    /// The path, where it is valid text.
    pub path: Option<String>,
    pub index_new: bool,
    pub index_modified: bool,
    pub index_deleted: bool,
    pub index_renamed: bool,
    pub index_typechange: bool,
}

/// An entry of the stash list. Its position in the list is its index.
pub struct StashRecord {
    /// The message, where it is valid text.
    pub message: Option<String>,
    /// The id of the stash commit.
    pub id: git2::Oid,
}

/// A well-formed id in hexadecimal: one to forty hexadecimal digits.
pub open spec fn is_hex_id(s: Seq<char>) -> bool {
    &&& 1 <= s.len() <= ID_LEN
    &&& forall|i: int| 0 <= i < s.len() ==> is_hex_digit(#[trigger] s[i])
}

pub open spec fn is_hex_digit(c: char) -> bool {
    ||| '0' <= c <= '9'
    ||| 'a' <= c <= 'f'
    ||| 'A' <= c <= 'F'
}

/// `git2::Repository::open` on a path. Nothing is claimed of the outcome.
#[verifier::external_body]
pub(crate) fn open_repository(path: &str) -> (r: Result<git2::Repository, git2::Error>) {
    git2::Repository::open(std::path::Path::new(path))
}

/// `git2::Repository::discover`: the repository that holds the path, searched
/// upwards. Nothing is claimed of the outcome.
#[verifier::external_body]
pub(crate) fn discover_repository(path: &str) -> (r: Result<git2::Repository, git2::Error>) {
    git2::Repository::discover(std::path::Path::new(path))
}

/// The text of a `git2::Error`, as its `Display` writes it.
#[verifier::external_body]
pub(crate) fn error_text(e: &git2::Error) -> (r: String) {
    e.to_string()
}

/// `git2::Oid::from_str`. It refuses the empty string, one longer than forty
/// characters and one with a character that is no hexadecimal digit, and
/// nothing else: a shorter id is filled up with zeros.
#[verifier::external_body]
pub(crate) fn parse_oid(s: &str) -> (r: Result<git2::Oid, git2::Error>)
    ensures
        r is Ok <==> is_hex_id(s@),
{
    git2::Oid::from_str(s)
}

/// `git2::Repository::branches` for the local branches, read to the end or to
/// the first failure.
#[verifier::external_body]
pub(crate) fn local_branches<'r>(repo: &'r git2::Repository) -> (r: Result<
    Vec<git2::Branch<'r>>,
    git2::Error,
>) {
    repo.branches(Some(git2::BranchType::Local))?.map(|item| item.map(|(branch, _)| branch)).collect()
}

/// A `git2::Branch` as a record: its `name`, the time and the id of the
/// commit that its reference peels to, and `is_head`.
#[verifier::external_body]
pub(crate) fn read_branch(branch: &git2::Branch<'_>) -> (r: Result<BranchRecord, git2::Error>) {
    let name = branch.name()?.map(|n| n.to_string());
    let tip = branch.get().peel_to_commit().ok();
    Ok(
        BranchRecord {
            name,
            tip_seconds: tip.as_ref().map(|c| c.time().seconds()),
            tip_id: tip.as_ref().map(|c| c.id().to_string()),
            is_head: branch.is_head(),
        },
    )
}

/// The `Display` of a `git2::Oid`: the twenty bytes of the id in
/// hexadecimal, two digits each.
#[verifier::external_body]
pub(crate) fn oid_text(oid: &git2::Oid) -> (r: String)
    ensures
        r@.len() == ID_LEN,
{
    oid.to_string()
}

/// `git2::Repository::remotes`: the names of the remotes, `None` for one that
/// is no valid text.
#[verifier::external_body]
pub(crate) fn remote_names(repo: &git2::Repository) -> (r: Result<Vec<Option<String>>, git2::Error>) {
    Ok(repo.remotes()?.iter().map(|n| n.map(|s| s.to_string())).collect())
}

/// `git2::Repository::find_remote`, with the remote's `url` and `pushurl`.
#[verifier::external_body]
pub(crate) fn read_remote(repo: &git2::Repository, name: &str) -> (r: Result<
    RemoteRecord,
    git2::Error,
>) {
    let remote = repo.find_remote(name)?;
    Ok(
        RemoteRecord {
            url: remote.url().map(|u| u.to_string()),
            push_url: remote.pushurl().map(|u| u.to_string()),
        },
    )
}

/// `git2::Repository::find_branch` among the local branches, then the commit
/// that the branch peels to: `None` where there is no such branch.
#[verifier::external_body]
pub(crate) fn branch_tip(repo: &git2::Repository, name: &str) -> (r: Option<
    Result<git2::Oid, git2::Error>,
>) {
    let branch = repo.find_branch(name, git2::BranchType::Local).ok()?;
    Some(branch.get().peel_to_commit().map(|c| c.id()))
}

/// `git2::Repository::head`, then the commit that it peels to.
#[verifier::external_body]
pub(crate) fn head_commit(repo: &git2::Repository) -> (r: Result<git2::Oid, git2::Error>) {
    repo.head()?.peel_to_commit().map(|c| c.id())
}

/// `git2::Repository::revwalk`, started at one commit, with the sorting that
/// the bits of `sorting` name to `git2::Sort`.
#[verifier::external_body]
pub(crate) fn start_walk<'r>(repo: &'r git2::Repository, start: &git2::Oid, sorting: u32) -> (r:
    Result<git2::Revwalk<'r>, git2::Error>) {
    let mut walk = repo.revwalk()?;
    walk.push(*start)?;
    walk.set_sorting(git2::Sort::from_bits_truncate(sorting))?;
    Ok(walk)
}

/// The next id of a `git2::Revwalk`, `None` at the end of the history.
#[verifier::external_body]
pub(crate) fn walk_next(walk: &mut git2::Revwalk<'_>) -> (r: Option<Result<git2::Oid, git2::Error>>) {
    walk.next()
}

/// `git2::Repository::find_commit`, with the commit read into a record. The
/// record's id is the commit's id as the `Display` of `git2::Oid` writes it:
/// the twenty bytes of the id in hexadecimal, two digits each.
#[verifier::external_body]
pub(crate) fn read_commit(repo: &git2::Repository, oid: &git2::Oid) -> (r: Result<
    CommitRecord,
    git2::Error,
>)
    ensures
        r is Ok ==> r->Ok_0.id@.len() == ID_LEN,
{
    let commit = repo.find_commit(*oid)?;
    let record = CommitRecord {
        id: commit.id().to_string(),
        message: commit.message().map(|m| m.to_string()),
        author_name: commit.author().name().map(|n| n.to_string()),
        author_email: commit.author().email().map(|n| n.to_string()),
        seconds: commit.time().seconds(),
        parent_count: commit.parent_count(),
    };
    Ok(record)
}

/// The tree of a commit: `git2::Repository::find_commit`, then
/// `git2::Commit::tree`.
#[verifier::external_body]
pub(crate) fn commit_tree<'r>(repo: &'r git2::Repository, oid: &git2::Oid) -> (r: Result<
    git2::Tree<'r>,
    git2::Error,
>) {
    repo.find_commit(*oid)?.tree()
}

/// The tree of one of a commit's parents: `git2::Commit::parent` with the
/// parent's position, then `git2::Commit::tree`.
#[verifier::external_body]
pub(crate) fn parent_tree<'r>(repo: &'r git2::Repository, oid: &git2::Oid, position: usize) -> (r:
    Result<git2::Tree<'r>, git2::Error>) {
    repo.find_commit(*oid)?.parent(position)?.tree()
}

/// The tree of the commit that HEAD peels to, `None` where HEAD cannot be
/// had, as in a repository without commits.
#[verifier::external_body]
pub(crate) fn head_tree<'r>(repo: &'r git2::Repository) -> (r: Option<
    Result<git2::Tree<'r>, git2::Error>,
>) {
    let head = repo.head().ok()?;
    Some(head.peel_to_commit().and_then(|c| c.tree()))
}

/// `git2::Repository::diff_tree_to_tree` with the store's own options.
#[verifier::external_body]
pub(crate) fn diff_trees<'r>(
    repo: &'r git2::Repository,
    old: Option<&git2::Tree<'_>>,
    new: &git2::Tree<'_>,
) -> (r: Result<git2::Diff<'r>, git2::Error>) {
    repo.diff_tree_to_tree(old, Some(new), None)
}

/// `git2::Repository::diff_tree_to_tree` with a number of context lines and
/// a size above which a blob counts as binary.
#[verifier::external_body]
pub(crate) fn diff_trees_bounded<'r>(
    repo: &'r git2::Repository,
    old: Option<&git2::Tree<'_>>,
    new: &git2::Tree<'_>,
    context_lines: u32,
    max_size: i64,
) -> (r: Result<git2::Diff<'r>, git2::Error>) {
    let mut options = git2::DiffOptions::new();
    options.context_lines(context_lines);
    options.max_size(max_size);
    repo.diff_tree_to_tree(old, Some(new), Some(&mut options))
}

/// `git2::Repository::diff_tree_to_index` against the repository's index,
/// with a number of context lines and a size above which a blob counts as
/// binary.
#[verifier::external_body]
pub(crate) fn diff_tree_to_index_bounded<'r>(
    repo: &'r git2::Repository,
    old: Option<&git2::Tree<'_>>,
    context_lines: u32,
    max_size: i64,
) -> (r: Result<git2::Diff<'r>, git2::Error>) {
    let index = repo.index()?;
    let mut options = git2::DiffOptions::new();
    options.context_lines(context_lines);
    options.max_size(max_size);
    repo.diff_tree_to_index(old, Some(&index), Some(&mut options))
}

/// `git2::Diff::find_similar` with the store's own options: renames and
/// copies are marked in place.
#[verifier::external_body]
pub(crate) fn mark_similar(diff: &mut git2::Diff<'_>) -> (r: Result<(), git2::Error>) {
    diff.find_similar(None)
}

/// `git2::Diff::stats`: the lines inserted and the lines deleted over the
/// whole diff.
#[verifier::external_body]
pub(crate) fn diff_totals(diff: &git2::Diff<'_>) -> (r: Result<(usize, usize), git2::Error>) {
    diff.stats().map(|stats| (stats.insertions(), stats.deletions()))
}

/// One side's path as a plain value.
pub open spec fn side_view(path: SidePath) -> Option<Option<Seq<char>>> {
    match path {
        Some(Some(p)) => Some(Some(p@)),
        Some(None) => Some(None),
        None => None,
    }
}

/// The paths of the deltas that a `git2::Diff` holds, in its order: for each
/// delta the path of its new side, then that of its old side.
pub uninterp spec fn delta_paths(diff: git2::Diff<'_>) -> Seq<
    (Option<Option<Seq<char>>>, Option<Option<Seq<char>>>),
>;

/// The number of deltas of a `git2::Diff`: the length of the list that it
/// holds.
#[verifier::external_body]
pub(crate) fn delta_count(diff: &git2::Diff<'_>) -> (r: usize)
    ensures
        r == delta_paths(*diff).len(),
{
    diff.deltas().len()
}

/// The status of the delta at a position of a `git2::Diff`. `get_delta`
/// returns the delta at a position below the length of the diff's list, and
/// `None` at any other. Nothing is claimed of the status itself: the store
/// may settle it only when the patch is made.
#[verifier::external_body]
pub(crate) fn delta_kind(diff: &git2::Diff<'_>, at: usize) -> (r: Option<DeltaKind>)
    ensures
        r is Some <==> at < delta_paths(*diff).len(),
{
    diff.get_delta(at).map(|delta| match delta.status() {
        git2::Delta::Unmodified => DeltaKind::Unmodified,
        git2::Delta::Added => DeltaKind::Added,
        git2::Delta::Deleted => DeltaKind::Deleted,
        git2::Delta::Modified => DeltaKind::Modified,
        git2::Delta::Renamed => DeltaKind::Renamed,
        git2::Delta::Copied => DeltaKind::Copied,
        git2::Delta::Ignored => DeltaKind::Ignored,
        git2::Delta::Untracked => DeltaKind::Untracked,
        git2::Delta::Typechange => DeltaKind::Typechange,
        git2::Delta::Unreadable => DeltaKind::Unreadable,
        git2::Delta::Conflicted => DeltaKind::Conflicted,
    })
}

/// The two files of the delta at a position of a `git2::Diff`: the path and
/// the binary flag of the new side, then those of the old side. A path is
/// read as bytes by `DiffFile::path_bytes` and is text where the bytes are
/// valid UTF-8. There is a
/// delta at a position below the length of the diff's list and at no other,
/// and the paths are those of that delta. Nothing is claimed of the binary
/// flags: the store may settle them only when the patch is made.
#[verifier::external_body]
pub(crate) fn delta_files(diff: &git2::Diff<'_>, at: usize) -> (r: Option<
    (SidePath, bool, SidePath, bool),
>)
    ensures
        r is Some <==> at < delta_paths(*diff).len(),
        r matches Some(files) ==> side_view(files.0) == delta_paths(*diff)[at as int].0
            && side_view(files.2) == delta_paths(*diff)[at as int].1,
{
    let delta = diff.get_delta(at)?;
    let new = delta.new_file();
    let old = delta.old_file();
    Some(
        (
            new.path_bytes().map(|b| std::str::from_utf8(b).ok().map(|s| s.to_string())),
            new.is_binary(),
            old.path_bytes().map(|b| std::str::from_utf8(b).ok().map(|s| s.to_string())),
            old.is_binary(),
        ),
    )
}

/// `git2::Patch::from_diff`: the text changes of one delta, `None` where the
/// store has none for it.
#[verifier::external_body]
pub(crate) fn load_patch<'r>(diff: &git2::Diff<'r>, at: usize) -> (r: Result<
    Option<git2::Patch<'r>>,
    git2::Error,
>) {
    git2::Patch::from_diff(diff, at)
}

/// A patch line as plain values: its sigil, its bytes, and its numbers in
/// the old and in the new file.
pub type PlainLine = (char, Seq<u8>, Option<u32>, Option<u32>);

/// A line as plain values.
pub open spec fn line_view(line: RawLine) -> PlainLine {
    (line.origin, line.content@, line.old_lineno, line.new_lineno)
}

/// The hunks that a `git2::Patch` holds, in its order, each with its lines.
pub uninterp spec fn patch_hunks(patch: git2::Patch<'_>) -> Seq<
    Seq<(char, Seq<u8>, Option<u32>, Option<u32>)>,
>;

/// `git2::Patch::num_hunks`: the number of hunks that the patch holds.
#[verifier::external_body]
pub(crate) fn hunk_count(patch: &git2::Patch<'_>) -> (r: usize)
    ensures
        r == patch_hunks(*patch).len(),
{
    patch.num_hunks()
}

/// The number of lines of a hunk, the second part of what `git2::Patch::hunk`
/// returns. The store fails for a position at which the patch has no hunk,
/// and for no other.
#[verifier::external_body]
pub(crate) fn hunk_line_count(patch: &git2::Patch<'_>, hunk: usize) -> (r: Result<
    usize,
    git2::Error,
>)
    ensures
        r is Ok <==> hunk < patch_hunks(*patch).len(),
        r is Ok ==> r->Ok_0 == patch_hunks(*patch)[hunk as int].len(),
{
    patch.hunk(hunk).map(|(_, lines)| lines)
}

/// `git2::Patch::line_in_hunk`, with the line read into a record. The store
/// fails for a position at which the patch has no hunk or the hunk no line,
/// and for no other.
#[verifier::external_body]
pub(crate) fn read_line(patch: &git2::Patch<'_>, hunk: usize, line: usize) -> (r: Result<
    RawLine,
    git2::Error,
>)
    ensures
        r is Ok <==> (hunk < patch_hunks(*patch).len() && line < patch_hunks(*patch)[hunk as int].len()),
        r is Ok ==> line_view(r->Ok_0) == patch_hunks(*patch)[hunk as int][line as int],
{
    let l = patch.line_in_hunk(hunk, line)?;
    Ok(
        RawLine {
            origin: l.origin(),
            content: l.content().to_vec(),
            old_lineno: l.old_lineno(),
            new_lineno: l.new_lineno(),
        },
    )
}

/// `git2::Tree::get_path`: the id of the object that a path names in a tree.
#[verifier::external_body]
pub(crate) fn find_path(tree: &git2::Tree<'_>, path: &str) -> (r: Result<git2::Oid, git2::Error>) {
    tree.get_path(std::path::Path::new(path)).map(|entry| entry.id())
}

/// `git2::Repository::find_blob`. Nothing is claimed of the outcome.
#[verifier::external_body]
pub(crate) fn find_blob<'r>(repo: &'r git2::Repository, oid: &git2::Oid) -> (r: Result<
    git2::Blob<'r>,
    git2::Error,
>) {
    repo.find_blob(*oid)
}

/// The bytes that a `git2::Blob` holds.
pub uninterp spec fn blob_content(blob: git2::Blob<'_>) -> Seq<u8>;

/// What the store's check for binary content says of a run of bytes. The
/// store looks for a zero byte and weighs the printable characters against
/// the others, at the start of the content.
pub uninterp spec fn binary_mark(bytes: Seq<u8>) -> bool;

/// `git2::Blob::size`: the number of bytes that the blob holds.
#[verifier::external_body]
pub(crate) fn blob_size(blob: &git2::Blob<'_>) -> (r: usize)
    ensures
        r == blob_content(*blob).len(),
{
    blob.size()
}

/// `git2::Blob::is_binary`: the store's check, on the bytes of the blob.
#[verifier::external_body]
pub(crate) fn blob_is_binary(blob: &git2::Blob<'_>) -> (r: bool)
    ensures
        r == binary_mark(blob_content(*blob)),
{
    blob.is_binary()
}

/// `git2::Blob::content`: the bytes of the blob, copied.
#[verifier::external_body]
pub(crate) fn blob_bytes(blob: &git2::Blob<'_>) -> (r: Vec<u8>)
    ensures
        r@ == blob_content(*blob),
{
    blob.content().to_vec()
}

/// `git2::Repository::find_tree`.
#[verifier::external_body]
pub(crate) fn find_tree<'r>(repo: &'r git2::Repository, oid: &git2::Oid) -> (r: Result<
    git2::Tree<'r>,
    git2::Error,
>) {
    repo.find_tree(*oid)
}

/// The entries that a `git2::Tree` holds, in its order: for each its name,
/// where that is valid text, and its kind.
pub uninterp spec fn tree_entries(tree: git2::Tree<'_>) -> Seq<(Option<Seq<char>>, EntryKind)>;

/// `git2::Tree::len`: the number of entries that the tree holds.
#[verifier::external_body]
pub(crate) fn entry_count(tree: &git2::Tree<'_>) -> (r: usize)
    ensures
        r == tree_entries(*tree).len(),
{
    tree.len()
}

/// `git2::Tree::get`: the entry at a position below the number of entries,
/// and `None` at any other, with its `name`, its `id` and its `kind`, which
/// the store reads from the entry's mode.
#[verifier::external_body]
pub(crate) fn read_entry(tree: &git2::Tree<'_>, at: usize) -> (r: Option<EntryRecord>)
    ensures
        r is Some <==> at < tree_entries(*tree).len(),
        r matches Some(e) ==> (opt_view(e.name), e.kind) == tree_entries(*tree)[at as int],
{
    let entry = tree.get(at)?;
    Some(EntryRecord {
        name: entry.name().map(|n| n.to_string()),
        id: entry.id(),
        kind: match entry.kind() {
            Some(git2::ObjectType::Tree) => EntryKind::Tree,
            Some(git2::ObjectType::Blob) => EntryKind::Blob,
            Some(git2::ObjectType::Commit) => EntryKind::Commit,
            Some(git2::ObjectType::Tag) => EntryKind::Tag,
            Some(git2::ObjectType::Any) => EntryKind::Any,
            None => EntryKind::Unknown,
        },
    })
}

/// `git2::Repository::blame_file` for a path as of a commit, with the two
/// switches that track lines moved or copied within one commit.
#[verifier::external_body]
pub(crate) fn blame_path<'r>(
    repo: &'r git2::Repository,
    path: &str,
    newest: &git2::Oid,
    track_moves: bool,
    track_copies: bool,
) -> (r: Result<git2::Blame<'r>, git2::Error>) {
    let mut options = git2::BlameOptions::new();
    options.newest_commit(*newest);
    options.track_copies_same_commit_moves(track_moves);
    options.track_copies_same_commit_copies(track_copies);
    repo.blame_file(std::path::Path::new(path), Some(&mut options))
}

/// `git2::Blame::get_line`: the commit that last changed a line, counted
/// from 1, `None` where the store attributes the line to none.
#[verifier::external_body]
pub(crate) fn blamed_commit(blame: &git2::Blame<'_>, line: usize) -> (r: Option<git2::Oid>) {
    blame.get_line(line).map(|hunk| hunk.final_commit_id())
}

/// `git2::Repository::statuses` with the two inclusion switches, each entry
/// read into a record.
#[verifier::external_body]
pub(crate) fn read_statuses(repo: &git2::Repository, untracked: bool, ignored: bool) -> (r: Result<
    Vec<StatusRecord>,
    git2::Error,
>) {
    let mut options = git2::StatusOptions::new();
    options.include_untracked(untracked);
    options.include_ignored(ignored);
    Ok(repo.statuses(Some(&mut options))?.iter().map(|e| StatusRecord {
        path: e.path().map(|p| p.to_string()),
        index_new: e.status().contains(git2::Status::INDEX_NEW),
        index_modified: e.status().contains(git2::Status::INDEX_MODIFIED),
        index_deleted: e.status().contains(git2::Status::INDEX_DELETED),
        index_renamed: e.status().contains(git2::Status::INDEX_RENAMED),
        index_typechange: e.status().contains(git2::Status::INDEX_TYPECHANGE),
    }).collect())
}

/// `git2::Repository::find_reference`, with the reference dropped: the call
/// says whether the store finds the reference. Nothing is claimed of the
/// outcome.
#[verifier::external_body]
pub(crate) fn find_reference(repo: &git2::Repository, name: &str) -> (r: Result<(), git2::Error>) {
    repo.find_reference(name).map(|_| ())
}

/// Whether the `code` of a `git2::Error` is `ErrorCode::NotFound`: the store
/// looked and what was asked for is not there.
#[verifier::external_body]
pub(crate) fn is_not_found(e: &git2::Error) -> (r: bool) {
    e.code() == git2::ErrorCode::NotFound
}

/// `git2::Repository::reflog` for a reference, each entry read into a record
/// by `ReflogEntry::message` and `ReflogEntry::id_new`, in the reflog's own
/// order, which has the newest entry first. For a reference without a
/// reflog the store makes an empty one on disk: the call is for a reference
/// that the repository has.
#[verifier::external_body]
pub(crate) fn read_reflog(repo: &git2::Repository, name: &str) -> (r: Result<
    Vec<StashRecord>,
    git2::Error,
>) {
    let log = repo.reflog(name)?;
    Ok(log.iter().map(|entry| StashRecord {
        message: entry.message().map(|m| m.to_string()),
        id: entry.id_new(),
    }).collect())
}

} // verus!
