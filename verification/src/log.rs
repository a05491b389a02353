//! The commit log walker: the summaries of the commits that a walk visits,
//! up to a cap.

use crate::dates::{date_time_text, format_date_time};
use crate::model::{GitCommit, GitCommitView, QueryError};
use crate::refs::{head_tip, named_tip, resolve_start, unresolved_text};
use crate::session::{find_commit, open, store_failure};
use crate::store::{start_walk, walk_next, CommitRecord, ID_LEN};
use crate::text::{chars_of, first_line, first_line_of, text_of};
use vstd::prelude::*;
use vstd::slice::*;
use vstd::string::*;

verus! {

/// The most commits that a log listing returns.
pub const LOG_CAP: usize = 50;

/// The store's number for a walk in the order of commit time, newest first.
pub const WALK_BY_TIME: u32 = 2;

/// The length of a short id.
pub const SHORT_ID_LEN: usize = 8;

/// The message of a commit, `No message` where the store has none that is
/// valid text.
pub open spec fn message_text(message: Option<String>) -> Seq<char> {
    match message {
        Some(m) => m@,
        None => "No message"@,
    }
}

/// The name of an author, `Unknown` where the store has none that is valid
/// text.
pub open spec fn author_text(name: Option<String>) -> Seq<char> {
    match name {
        Some(n) => n@,
        None => "Unknown"@,
    }
}

/// The first eight characters of an id; all of a shorter one.
pub open spec fn short_id_of(id: Seq<char>) -> Seq<char> {
    if id.len() >= SHORT_ID_LEN {
        id.take(SHORT_ID_LEN as int)
    } else {
        id
    }
}

/// The summary of a commit.
pub open spec fn summary_of(c: CommitRecord) -> GitCommitView {
    GitCommitView {
        id: c.id@,
        message: first_line(message_text(c.message)),
        author: author_text(c.author_name),
        date: date_time_text(c.seconds),
        short_id: short_id_of(c.id@),
    }
}

/// The summaries of the first `cap` commits of a history, in its order; of
/// all of them where it has fewer.
pub open spec fn log_of(history: Seq<CommitRecord>, cap: nat) -> Seq<GitCommitView> {
    let n = if cap <= history.len() {
        cap as int
    } else {
        history.len() as int
    };
    history.take(n).map_values(|c: CommitRecord| summary_of(c))
}

/// The views of a run of summaries.
pub open spec fn commit_views(commits: Seq<GitCommit>) -> Seq<GitCommitView> {
    commits.map_values(|c: GitCommit| c@)
}

/// A log never holds more than its cap: under a cap of `cap`, a history of
/// `n` commits gives the smaller of `cap` and `n` summaries, those of its
/// first commits in their order.
pub proof fn lemma_log_length(history: Seq<CommitRecord>, cap: nat)
    ensures
        log_of(history, cap).len() <= cap,
        log_of(history, cap).len() == if cap <= history.len() {
            cap
        } else {
            history.len()
        },
        forall|i: int|
            0 <= i < log_of(history, cap).len() ==> #[trigger] log_of(history, cap)[i] == summary_of(
                history[i],
            ),
{
}

/// The message of a commit.
pub fn message_of(c: &CommitRecord) -> (r: String)
    ensures
        r@ == message_text(c.message),
{
    match &c.message {
        Some(m) => m.clone(),
        None => String::from_str("No message"),
    }
}

/// The name of a commit's author.
pub fn author_of(c: &CommitRecord) -> (r: String)
    ensures
        r@ == author_text(c.author_name),
{
    match &c.author_name {
        Some(n) => n.clone(),
        None => String::from_str("Unknown"),
    }
}

/// The short form of an id.
pub fn short_id(id: &str) -> (r: String)
    ensures
        r@ == short_id_of(id@),
        id@.len() >= SHORT_ID_LEN ==> r@.len() == SHORT_ID_LEN,
{
    let chars = chars_of(id);
    if chars.len() >= SHORT_ID_LEN {
        text_of(slice_subrange(chars.as_slice(), 0, SHORT_ID_LEN))
    } else {
        proof {
            assert(chars@.subrange(0, chars@.len() as int) == chars@);
        }
        text_of(slice_subrange(chars.as_slice(), 0, chars.len()))
    }
}

/// The summary of a commit.
pub fn summarize_commit(c: &CommitRecord) -> (r: GitCommit)
    ensures
        r@ == summary_of(*c),
        c.id@.len() >= SHORT_ID_LEN ==> r.short_id@.len() == SHORT_ID_LEN,
{
    let message = message_of(c);
    GitCommit {
        id: c.id.clone(),
        message: first_line_of(message.as_str()),
        author: author_of(c),
        date: format_date_time(c.seconds),
        short_id: short_id(c.id.as_str()),
    }
}

/// The log of a history under a cap: the summaries of its first `cap`
/// commits in the history's own order, so `min(cap, history.len())` entries.
/// A longer history is cut without complaint.
pub fn summarize_history(history: &Vec<CommitRecord>, cap: usize) -> (r: Vec<GitCommit>)
    ensures
        commit_views(r@) == log_of(history@, cap as nat),
        r@.len() == if cap <= history@.len() {
            cap as int
        } else {
            history@.len() as int
        },
{
    let n = if cap <= history.len() {
        cap
    } else {
        history.len()
    };
    let mut out: Vec<GitCommit> = Vec::new();
    let mut i: usize = 0;
    while i < n
        invariant
            i <= n <= history.len(),
            out@.len() == i,
            commit_views(out@) == history@.take(i as int).map_values(|c: CommitRecord| summary_of(c)),
        decreases n - i,
    {
        let summary = summarize_commit(&history[i]);
        proof {
            assert(history@.take(i + 1) == history@.take(i as int).push(history@[i as int]));
            assert(commit_views(out@.push(summary)) == commit_views(out@).push(summary@));
            assert(history@.take(i + 1).map_values(|c: CommitRecord| summary_of(c)) == history@.take(
                i as int,
            ).map_values(|c: CommitRecord| summary_of(c)).push(summary_of(history@[i as int])));
        }
        out.push(summary);
        i += 1;
    }
    out
}

/// The first `cap` commits that a walk from `start` visits, newest first, in
/// the store's order; fewer where the history ends before.
pub(crate) fn walk_history(repo: &git2::Repository, start: &git2::Oid, cap: usize) -> (r: Result<
    Vec<CommitRecord>,
    QueryError,
>)
    ensures
        r is Ok ==> r->Ok_0@.len() <= cap,
        r is Ok ==> forall|i: int|
            0 <= i < r->Ok_0@.len() ==> (#[trigger] r->Ok_0@[i]).id@.len() == ID_LEN,
        r is Err ==> r->Err_0 is Store || r->Err_0 is CommitNotFound,
{
    let mut walk = match start_walk(repo, start, WALK_BY_TIME) {
        Ok(walk) => walk,
        Err(e) => {
            return Err(store_failure(&e));
        },
    };
    let mut out: Vec<CommitRecord> = Vec::new();
    while out.len() < cap
        invariant
            out@.len() <= cap,
            forall|i: int| 0 <= i < out@.len() ==> (#[trigger] out@[i]).id@.len() == ID_LEN,
        decreases cap - out@.len(),
    {
        match walk_next(&mut walk) {
            None => {
                return Ok(out);
            },
            Some(Err(e)) => {
                return Err(store_failure(&e));
            },
            Some(Ok(oid)) => {
                let commit = find_commit(repo, &oid)?;
                out.push(commit);
            },
        }
    }
    Ok(out)
}

/// The log of a branch: the summaries of at most `LOG_CAP` commits, newest
/// first, from the tip of the named branch, or from HEAD where the name
/// leads to no commit.
pub fn get_commits_from_path(path: String, branch_name: String) -> (r: Result<
    Vec<GitCommit>,
    QueryError,
>)
    ensures
        r is Ok ==> exists|history: Seq<CommitRecord>|
            commit_views(r->Ok_0@) == #[trigger] log_of(history, LOG_CAP as nat),
        r is Ok ==> r->Ok_0@.len() <= LOG_CAP,
        r is Ok ==> forall|i: int|
            0 <= i < r->Ok_0@.len() ==> (#[trigger] r->Ok_0@[i]).id@.len() == ID_LEN
                && r->Ok_0@[i].short_id@.len() == SHORT_ID_LEN,
        r is Err ==> {
            ||| r->Err_0 is RepositoryNotFound
            ||| r->Err_0 is RefNotFound
            ||| r->Err_0 is CommitNotFound
            ||| r->Err_0 is Store
        },
        r matches Err(QueryError::RefNotFound { message }) ==> message@ == unresolved_text(
            Some(branch_name@),
        ),
{
    let repo = open(path.as_str())?;
    let name = Some(branch_name.as_str());
    let start = resolve_start(name, named_tip(&repo, name), head_tip(&repo))?;
    let history = walk_history(&repo, &start, LOG_CAP)?;
    let log = summarize_history(&history, LOG_CAP);
    proof {
        assert(commit_views(log@).len() == log@.len());
        assert forall|i: int| 0 <= i < log@.len() implies (#[trigger] log@[i]).id@.len() == ID_LEN
            && log@[i].short_id@.len() == SHORT_ID_LEN by {
            assert(commit_views(log@)[i] == log@[i]@);
            assert(log_of(history@, LOG_CAP as nat)[i] == summary_of(history@[i]));
            assert(history@[i].id@.len() == ID_LEN);
        }
    }
    Ok(log)
}

} // verus!
