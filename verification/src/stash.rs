//! The stash indexer: the entries of the stash list, and the changes of one
//! of them against the commit it was taken from.

use crate::dates::{date_time_text, format_date_time};
use crate::diff::{
    change_views, changes_of, commit_diff, is_patch, is_patch_failure, line_count, patch_of,
    summarize_diff, well_formed_changes, well_formed_diff, CONTEXT_LINES, PATCH_BLOB_LIMIT,
};
use crate::log::{author_of, author_text, message_text};
use crate::model::{FileChange, FileDiff, GitStash, GitStashView, QueryError};
use crate::session::{is_missing, open, store_failure};
use crate::store::{
    delta_count, diff_totals, find_reference, is_not_found, read_commit, read_reflog,
    CommitRecord, DeltaRecord, StashRecord,
};
use vstd::prelude::*;
use vstd::string::*;

verus! {

/// The address of an author, `unknown@email.com` where the store has none
/// that is valid text.
pub open spec fn email_text(email: Option<String>) -> Seq<char> {
    match email {
        Some(e) => e@,
        None => "unknown@email.com"@,
    }
}

/// The author of a stash as `name <address>`.
pub open spec fn stash_author(c: CommitRecord) -> Seq<char> {
    author_text(c.author_name) + " <"@ + email_text(c.author_email) + ">"@
}

/// A position as the listing holds it: the largest `u32` stands for all
/// positions above it.
pub open spec fn position_of(index: usize) -> u32 {
    if index > u32::MAX {
        u32::MAX
    } else {
        index as u32
    }
}

/// The entry of a stash with its commit.
pub open spec fn stash_of(index: usize, message: Seq<char>, c: CommitRecord) -> GitStashView {
    GitStashView {
        index: position_of(index),
        message,
        commit_id: c.id@,
        author: stash_author(c),
        date: date_time_text(c.seconds),
    }
}

/// The reference under which the store keeps the stash list.
pub const STASH_LOG: &'static str = "refs/stash";

/// The words of the failure for a position that the stash list lacks.
pub open spec fn no_stash_text() -> Seq<char> {
    "Stash not found"@
}

/// The message of a stash, `No message` where the store has none that is
/// valid text.
pub fn stash_message(record: &StashRecord) -> (r: String)
    ensures
        r@ == message_text(record.message),
{
    match &record.message {
        Some(m) => m.clone(),
        None => String::from_str("No message"),
    }
}

/// The entry of a stash with its commit.
pub fn make_stash(index: usize, message: &String, commit: &CommitRecord) -> (r: GitStash)
    ensures
        r@ == stash_of(index, message@, *commit),
{
    let email = match &commit.author_email {
        Some(e) => e.clone(),
        None => String::from_str("unknown@email.com"),
    };
    GitStash {
        index: line_count(index),
        message: message.clone(),
        commit_id: commit.id.clone(),
        author: author_of(commit).concat(" <").concat(email.as_str()).concat(">"),
        date: format_date_time(commit.seconds),
    }
}

/// The failures of a query on one stash, before its change-set is read.
pub open spec fn is_stash_failure(e: QueryError) -> bool {
    ||| e is RepositoryNotFound
    ||| e is RefNotFound
    ||| e is Store
}

/// The stash list of a repository, newest first. The reference is looked up
/// first, and its log is read only where the repository has it: a
/// repository without stashes has the empty list, and nothing is written
/// into it.
pub(crate) fn stash_records(repo: &git2::Repository) -> (r: Result<Vec<StashRecord>, QueryError>)
    ensures
        r is Err ==> r->Err_0 is Store,
{
    match find_reference(repo, STASH_LOG) {
        Ok(()) => {},
        Err(e) => {
            if is_not_found(&e) {
                return Ok(Vec::new());
            }
            return Err(store_failure(&e));
        },
    }
    match read_reflog(repo, STASH_LOG) {
        Ok(records) => Ok(records),
        Err(e) => Err(store_failure(&e)),
    }
}

/// The stash at a position of a stash list: the id of the entry at that
/// position, counted from 0. A position that the list lacks is refused.
pub fn stash_at(records: &Vec<StashRecord>, stash_index: u32) -> (r: Result<git2::Oid, QueryError>)
    ensures
        stash_index < records@.len() ==> r == Ok::<git2::Oid, QueryError>(
            records@[stash_index as int].id,
        ),
        stash_index >= records@.len() ==> (r matches Err(QueryError::RefNotFound { message })
            && message@ == no_stash_text()),
{
    let at = stash_index as usize;
    if at < records.len() {
        Ok(records[at].id)
    } else {
        Err(QueryError::RefNotFound { message: String::from_str("Stash not found") })
    }
}

/// The views of a run of stash entries.
pub open spec fn stash_views(stashes: Seq<GitStash>) -> Seq<GitStashView> {
    stashes.map_values(|s: GitStash| s@)
}

/// The entries of the first `n` stashes of a list, each with the commit that
/// the store handed out for it, `None` where it handed out none: one entry
/// for each stash with a commit, in the list's order, each with its
/// position in the list.
pub open spec fn listed_until(
    records: Seq<StashRecord>,
    commits: Seq<Option<CommitRecord>>,
    n: nat,
) -> Seq<GitStashView>
    decreases n,
{
    if n == 0 {
        Seq::empty()
    } else {
        let front = listed_until(records, commits, (n - 1) as nat);
        match commits[n - 1] {
            Some(c) => front.push(
                stash_of((n - 1) as usize, message_text(records[n - 1].message), c),
            ),
            None => front,
        }
    }
}

/// The listing of a stash list with the commits of its stashes: as far as
/// both reach.
pub open spec fn stash_listing(
    records: Seq<StashRecord>,
    commits: Seq<Option<CommitRecord>>,
) -> Seq<GitStashView> {
    if commits.len() <= records.len() {
        listed_until(records, commits, commits.len())
    } else {
        listed_until(records, commits, records.len())
    }
}

/// The listing of a stash list: one entry for each stash whose commit the
/// store handed out, in the list's order, each with its position in the
/// list, its message and its commit. A stash without a commit is left out,
/// and the others keep their positions.
pub fn list_stashes(records: &Vec<StashRecord>, commits: &Vec<Option<CommitRecord>>) -> (r: Vec<
    GitStash,
>)
    ensures
        stash_views(r@) == stash_listing(records@, commits@),
{
    let n = if commits.len() <= records.len() {
        commits.len()
    } else {
        records.len()
    };
    let mut out: Vec<GitStash> = Vec::new();
    let mut i: usize = 0;
    proof {
        assert(stash_views(out@) == Seq::<GitStashView>::empty());
    }
    while i < n
        invariant
            i <= n,
            n <= records.len(),
            n <= commits.len(),
            stash_views(out@) == listed_until(records@, commits@, i as nat),
        decreases n - i,
    {
        match &commits[i] {
            Some(commit) => {
                let message = stash_message(&records[i]);
                let stash = make_stash(i, &message, commit);
                proof {
                    assert(stash_views(out@.push(stash)) == stash_views(out@).push(stash@));
                }
                out.push(stash);
            },
            None => {},
        }
        i += 1;
    }
    out
}

/// The entries of the stash list of the repository at a path, in the store's
/// order. A stash whose commit the store cannot hand out is left out: the
/// result is the listing of the store's list with the commits that the
/// store handed out.
pub fn get_stashes(path: String) -> (r: Result<Vec<GitStash>, QueryError>)
    ensures
        r is Ok ==> exists|records: Seq<StashRecord>, commits: Seq<Option<CommitRecord>>|
            commits.len() == records.len() && stash_views(r->Ok_0@) == #[trigger] stash_listing(
                records,
                commits,
            ),
        r is Err ==> r->Err_0 is RepositoryNotFound || r->Err_0 is Store,
{
    let repo = open(path.as_str())?;
    let records = stash_records(&repo)?;
    let mut commits: Vec<Option<CommitRecord>> = Vec::new();
    let mut i: usize = 0;
    while i < records.len()
        invariant
            i <= records.len(),
            commits@.len() == i,
        decreases records.len() - i,
    {
        match read_commit(&repo, &records[i].id) {
            Ok(commit) => commits.push(Some(commit)),
            Err(_) => commits.push(None),
        }
        i += 1;
    }
    Ok(list_stashes(&records, &commits))
}

/// The paths that a stash changed against the commit it was taken from.
/// Every entry carries the lines added and deleted over the whole stash.
pub fn get_stash_diff(path: String, stash_index: u32) -> (r: Result<Vec<FileChange>, QueryError>)
    ensures
        r is Ok ==> exists|deltas: Seq<DeltaRecord>, additions: u32, deletions: u32|
            change_views(r->Ok_0@) == #[trigger] changes_of(deltas, additions, deletions),
        r is Ok ==> well_formed_changes(change_views(r->Ok_0@)),
        r is Err ==> is_stash_failure(r->Err_0),
{
    let repo = open(path.as_str())?;
    let records = stash_records(&repo)?;
    let stash = stash_at(&records, stash_index)?;
    let diff = commit_diff(&repo, &stash, 1, None)?;
    let totals = if delta_count(&diff) > 0 {
        match diff_totals(&diff) {
            Ok(totals) => totals,
            Err(e) => {
                return Err(store_failure(&e));
            },
        }
    } else {
        (0, 0)
    };
    Ok(summarize_diff(&diff, line_count(totals.0), line_count(totals.1)))
}

/// The patch of one file in a stash, against the commit the stash was taken
/// from. A patch with more than `MAX_DIFF_BYTES` of changed content is
/// refused.
pub fn get_stash_file_diff(path: String, stash_index: u32, file_path: String) -> (r: Result<
    FileDiff,
    QueryError,
>)
    ensures
        r is Ok ==> is_patch(r->Ok_0@, file_path@),
        r is Ok ==> r->Ok_0@.path == file_path@ && well_formed_diff(r->Ok_0@),
        r is Err ==> is_stash_failure(r->Err_0) || is_patch_failure(r->Err_0, file_path@),
        r is Err && r->Err_0 is FileNotFound ==> is_missing(
            r->Err_0,
            file_path@,
            "stash changes"@,
        ),
{
    let repo = open(path.as_str())?;
    let records = stash_records(&repo)?;
    let stash = stash_at(&records, stash_index)?;
    let diff = commit_diff(&repo, &stash, 1, Some((CONTEXT_LINES, PATCH_BLOB_LIMIT)))?;
    patch_of(&diff, file_path, "stash changes")
}

} // verus!
