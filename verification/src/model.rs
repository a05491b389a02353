//! The projections that the queries return, and the failures they report.
//! Each projection has a view: the same record with its texts as sequences of
//! characters, which is what the contracts speak of.

use vstd::prelude::*;

verus! {

/// A local branch.
#[derive(Debug)]
pub struct GitBranch {
    pub name: String,
    /// Whether HEAD points at the branch.
    pub is_current: bool,
    /// The time of the last commit in seconds since the epoch, 0 where the
    /// tip leads to no commit.
    pub last_commit_date: i64,
}

pub ghost struct GitBranchView {
    pub name: Seq<char>,
    pub is_current: bool,
    pub last_commit_date: i64,
}

impl View for GitBranch {
    type V = GitBranchView;

    open spec fn view(&self) -> GitBranchView {
        GitBranchView {
            name: self.name@,
            is_current: self.is_current,
            last_commit_date: self.last_commit_date,
        }
    }
}

/// An address of a remote, to fetch from or to push to.
#[derive(Debug)]
pub struct GitRemote {
    pub name: String,
    pub url: String,
    pub is_push: bool,
}

pub ghost struct GitRemoteView {
    pub name: Seq<char>,
    pub url: Seq<char>,
    pub is_push: bool,
}

impl View for GitRemote {
    type V = GitRemoteView;

    open spec fn view(&self) -> GitRemoteView {
        GitRemoteView { name: self.name@, url: self.url@, is_push: self.is_push }
    }
}

/// The summary of a commit.
#[derive(Debug)]
pub struct GitCommit {
    /// The id in hexadecimal.
    pub id: String,
    /// The first line of the message.
    pub message: String,
    pub author: String,
    /// The commit time, as `YYYY-MM-DD hh:mm:ss` in UTC.
    pub date: String,
    /// The first eight characters of the id.
    pub short_id: String,
}

pub ghost struct GitCommitView {
    pub id: Seq<char>,
    pub message: Seq<char>,
    pub author: Seq<char>,
    pub date: Seq<char>,
    pub short_id: Seq<char>,
}

impl View for GitCommit {
    type V = GitCommitView;

    open spec fn view(&self) -> GitCommitView {
        GitCommitView {
            id: self.id@,
            message: self.message@,
            author: self.author@,
            date: self.date@,
            short_id: self.short_id@,
        }
    }
}

/// A changed path with the kind of change.
#[derive(Debug)]
pub struct FileChange {
    pub path: String,
    /// `added`, `modified`, `deleted`, `renamed`, `copied` or `unknown`.
    pub status: String,
    /// Lines added in the whole change-set that the path belongs to.
    pub additions: u32,
    /// Lines deleted in the whole change-set that the path belongs to.
    pub deletions: u32,
}

pub ghost struct FileChangeView {
    pub path: Seq<char>,
    pub status: Seq<char>,
    pub additions: u32,
    pub deletions: u32,
}

impl View for FileChange {
    type V = FileChangeView;

    open spec fn view(&self) -> FileChangeView {
        FileChangeView {
            path: self.path@,
            status: self.status@,
            additions: self.additions,
            deletions: self.deletions,
        }
    }
}

/// A path whose change is staged.
#[derive(Debug)]
pub struct StagedChange {
    pub path: String,
    /// `added`, `modified`, `deleted` or `renamed`.
    pub status: String,
    /// The former path of a renamed file; not filled in.
    pub old_path: Option<String>,
}

pub ghost struct StagedChangeView {
    pub path: Seq<char>,
    pub status: Seq<char>,
    pub old_path: Option<Seq<char>>,
}

/// The view of an optional text.
pub open spec fn opt_view(s: Option<String>) -> Option<Seq<char>> {
    match s {
        Some(t) => Some(t@),
        None => None,
    }
}

impl View for StagedChange {
    type V = StagedChangeView;

    open spec fn view(&self) -> StagedChangeView {
        StagedChangeView {
            path: self.path@,
            status: self.status@,
            old_path: opt_view(self.old_path),
        }
    }
}

/// An entry of the stash list.
#[derive(Debug)]
pub struct GitStash {
    /// The position in the list, from 0; it holds for one listing only.
    pub index: u32,
    pub message: String,
    pub commit_id: String,
    /// The author as `name <address>`.
    pub author: String,
    /// The commit time, as `YYYY-MM-DD hh:mm:ss` in UTC.
    pub date: String,
}

pub ghost struct GitStashView {
    pub index: u32,
    pub message: Seq<char>,
    pub commit_id: Seq<char>,
    pub author: Seq<char>,
    pub date: Seq<char>,
}

impl View for GitStash {
    type V = GitStashView;

    open spec fn view(&self) -> GitStashView {
        GitStashView {
            index: self.index,
            message: self.message@,
            commit_id: self.commit_id@,
            author: self.author@,
            date: self.date@,
        }
    }
}

/// A line of a patch.
#[derive(Debug)]
pub struct DiffLine {
    /// `context`, `addition` or `deletion`.
    pub line_type: String,
    /// The line without its trailing newlines.
    pub content: String,
    pub old_line_number: Option<u32>,
    pub new_line_number: Option<u32>,
}

pub ghost struct DiffLineView {
    pub line_type: Seq<char>,
    pub content: Seq<char>,
    pub old_line_number: Option<u32>,
    pub new_line_number: Option<u32>,
}

impl View for DiffLine {
    type V = DiffLineView;

    open spec fn view(&self) -> DiffLineView {
        DiffLineView {
            line_type: self.line_type@,
            content: self.content@,
            old_line_number: self.old_line_number,
            new_line_number: self.new_line_number,
        }
    }
}

/// The views of a run of patch lines.
pub open spec fn line_views(lines: Seq<DiffLine>) -> Seq<DiffLineView> {
    lines.map_values(|l: DiffLine| l@)
}

/// The patch of one file.
#[derive(Debug)]
pub struct FileDiff {
    pub path: String,
    pub status: String,
    /// Never filled in.
    pub old_content: Option<String>,
    /// Never filled in.
    pub new_content: Option<String>,
    /// The lines of all hunks, in order; empty for a binary file.
    pub diff_lines: Vec<DiffLine>,
    pub is_binary: bool,
}

pub ghost struct FileDiffView {
    pub path: Seq<char>,
    pub status: Seq<char>,
    pub old_content: Option<Seq<char>>,
    pub new_content: Option<Seq<char>>,
    pub diff_lines: Seq<DiffLineView>,
    pub is_binary: bool,
}

impl View for FileDiff {
    type V = FileDiffView;

    open spec fn view(&self) -> FileDiffView {
        FileDiffView {
            path: self.path@,
            status: self.status@,
            old_content: opt_view(self.old_content),
            new_content: opt_view(self.new_content),
            diff_lines: line_views(self.diff_lines@),
            is_binary: self.is_binary,
        }
    }
}

/// A hit of the search.
#[derive(Debug)]
pub struct SearchResult {
    /// `commit`, `file` or `content`.
    pub result_type: String,
    pub commit_id: String,
    pub commit_message: String,
    pub commit_author: String,
    pub commit_date: String,
    /// The changed path, for a hit on a path or on content.
    pub file_path: Option<String>,
    pub content_preview: Option<String>,
    /// The line of the hit, for a hit on content.
    pub line_number: Option<u32>,
}

pub ghost struct SearchResultView {
    pub result_type: Seq<char>,
    pub commit_id: Seq<char>,
    pub commit_message: Seq<char>,
    pub commit_author: Seq<char>,
    pub commit_date: Seq<char>,
    pub file_path: Option<Seq<char>>,
    pub content_preview: Option<Seq<char>>,
    pub line_number: Option<u32>,
}

impl View for SearchResult {
    type V = SearchResultView;

    open spec fn view(&self) -> SearchResultView {
        SearchResultView {
            result_type: self.result_type@,
            commit_id: self.commit_id@,
            commit_message: self.commit_message@,
            commit_author: self.commit_author@,
            commit_date: self.commit_date@,
            file_path: opt_view(self.file_path),
            content_preview: opt_view(self.content_preview),
            line_number: self.line_number,
        }
    }
}

/// The views of a run of hits.
pub open spec fn result_views(results: Seq<SearchResult>) -> Seq<SearchResultView> {
    results.map_values(|r: SearchResult| r@)
}

/// The attribution of one line of a file.
#[derive(Debug)]
pub struct BlameInfo {
    pub commit_id: String,
    pub commit_short_id: String,
    pub author: String,
    /// The commit date, as `YYYY-MM-DD` in UTC.
    pub date: String,
    /// The line's number, from 1.
    pub line_number: u32,
    pub content: String,
    /// The first line of the commit message.
    pub commit_message: String,
}

pub ghost struct BlameInfoView {
    pub commit_id: Seq<char>,
    pub commit_short_id: Seq<char>,
    pub author: Seq<char>,
    pub date: Seq<char>,
    pub line_number: u32,
    pub content: Seq<char>,
    pub commit_message: Seq<char>,
}

impl View for BlameInfo {
    type V = BlameInfoView;

    open spec fn view(&self) -> BlameInfoView {
        BlameInfoView {
            commit_id: self.commit_id@,
            commit_short_id: self.commit_short_id@,
            author: self.author@,
            date: self.date@,
            line_number: self.line_number,
            content: self.content@,
            commit_message: self.commit_message@,
        }
    }
}

/// The attribution of every line of a file.
#[derive(Debug)]
pub struct FileBlame {
    pub path: String,
    pub blame_lines: Vec<BlameInfo>,
}

/// An entry of a commit's file tree.
#[derive(Debug)]
pub struct FileTreeItem {
    pub name: String,
    /// The path from the root, its parts joined by `/`.
    pub path: String,
    pub is_directory: bool,
    /// The entries of a directory, sorted; `None` for a file.
    pub children: Option<Vec<FileTreeItem>>,
    /// The size of a file in bytes; `None` for a directory.
    pub size: Option<u64>,
    /// `folder` for a directory, else the tag of the file's extension.
    pub file_type: String,
}

/// Why a query failed.
#[derive(Debug)]
pub enum QueryError {
    /// The path leads to no repository.
    RepositoryNotFound { message: String },
    /// Neither the named branch nor HEAD leads to a commit, or the stash list
    /// has no such entry.
    RefNotFound { message: String },
    /// The commit id is no hexadecimal id.
    InvalidCommitId { message: String },
    /// The store has no such commit.
    CommitNotFound { message: String },
    /// The path is not in the tree or the change-set asked for; `place` says
    /// where it was looked for.
    FileNotFound { path: String, place: String },
    /// The file is binary and the query needs text.
    BinaryUnsupported,
    /// The content is larger than the query accepts; the size is in bytes.
    TooLarge { size: usize },
    /// The file has more lines than the query accepts.
    TooManyLines { lines: usize },
    /// The content is no valid UTF-8.
    InvalidEncoding,
    /// Kept for the validation of queries; no query returns it.
    InvalidQuery { message: String },
    /// The store failed in another way.
    Store { message: String },
}

} // verus!
