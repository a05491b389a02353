//! The search engine: one free-text query against the messages of the
//! commits that a walk visits, the paths they changed, and the lines they
//! changed, under a cap on the commits visited and a cap on the hits.

use crate::dates::{date_time_text, format_date_time};
use crate::diff::{commit_diff, flat, is_binary_change, path_of};
use crate::log::{author_of, author_text, message_of, message_text, WALK_BY_TIME};
use crate::model::{opt_view, result_views, QueryError, SearchResult, SearchResultView};
use crate::refs::{head_tip, named_tip, resolve_start, unresolved_text};
use crate::session::{find_commit, load_deltas, load_hunks, open, store_failure};
use crate::store::{start_walk, walk_next, CommitRecord, RawLine};
use crate::text::{
    blank, chars_of, first_line, first_line_of, is_blank, lossy_text, lossy_text_of, lowercase,
    lowercase_of, make_preview, matches_query, preview_of, text_matches, PREVIEW_LIMIT,
};
use vstd::prelude::*;
use vstd::string::*;
use vstd::utf8::{decode_utf8, valid_utf8};

verus! {

/// The most hits that a search returns.
pub const MAX_RESULTS: usize = 50;

/// The commits that a search visits where the caller names no cap.
pub const DEFAULT_SCAN_CAP: u32 = 100;

/// The context lines around a change in the patches that a search reads.
pub const SEARCH_CONTEXT_LINES: u32 = 2;

/// The size in bytes above which a blob counts as binary in a search.
pub const SEARCH_MAX_BYTES: i64 = 524_288;

/// A changed file as a search reads it.
pub struct ChangeScan {
    /// The path of the change.
    pub path: String,
    /// Whether either side is binary: then the lines are not searched.
    pub binary: bool,
    /// The hunks of the patch, each with its lines.
    pub hunks: Vec<Vec<RawLine>>,
}

/// A commit as a search reads it.
pub struct CommitScan {
    pub commit: CommitRecord,
    /// The changes against the first parent; not read for a merge.
    pub changes: Vec<ChangeScan>,
}

/// A merge is a commit with more than one parent.
pub open spec fn is_merge(c: CommitRecord) -> bool {
    c.parent_count > 1
}

/// The cap on the commits visited.
pub open spec fn scan_cap(max_commits: Option<u32>) -> nat {
    match max_commits {
        Some(n) => n as nat,
        None => DEFAULT_SCAN_CAP as nat,
    }
}

/// The hit on a commit's message.
pub open spec fn commit_hit(c: CommitRecord) -> SearchResultView {
    SearchResultView {
        result_type: "commit"@,
        commit_id: c.id@,
        commit_message: message_text(c.message),
        commit_author: author_text(c.author_name),
        commit_date: date_time_text(c.seconds),
        file_path: None,
        content_preview: Some(first_line(message_text(c.message))),
        line_number: None,
    }
}

/// The hit on the path of a change.
pub open spec fn file_hit(c: CommitRecord, path: Seq<char>) -> SearchResultView {
    SearchResultView {
        result_type: "file"@,
        commit_id: c.id@,
        commit_message: first_line(message_text(c.message)),
        commit_author: author_text(c.author_name),
        commit_date: date_time_text(c.seconds),
        file_path: Some(path),
        content_preview: Some("File: "@ + path),
        line_number: None,
    }
}

/// The number of a changed line: in the new file where it has one there,
/// else in the old file.
pub open spec fn hit_line_number(line: RawLine) -> Option<u32> {
    match line.new_lineno {
        Some(n) => Some(n),
        None => line.old_lineno,
    }
}

/// The hit on a changed line.
pub open spec fn content_hit(c: CommitRecord, path: Seq<char>, line: RawLine) -> SearchResultView {
    SearchResultView {
        result_type: "content"@,
        commit_id: c.id@,
        commit_message: first_line(message_text(c.message)),
        commit_author: author_text(c.author_name),
        commit_date: date_time_text(c.seconds),
        file_path: Some(path),
        content_preview: Some(preview_of(lossy_text_of(line.content@))),
        line_number: hit_line_number(line),
    }
}

/// A changed line matches when the query stands in its text.
pub open spec fn line_matches(line: RawLine, query: Seq<char>) -> bool {
    matches_query(lossy_text_of(line.content@), query)
}

/// The first line that matches, if one does.
pub open spec fn first_match(lines: Seq<RawLine>, query: Seq<char>) -> Option<RawLine>
    decreases lines.len(),
{
    if lines.len() == 0 {
        None
    } else {
        match first_match(lines.drop_last(), query) {
            Some(line) => Some(line),
            None => if line_matches(lines.last(), query) {
                Some(lines.last())
            } else {
                None
            },
        }
    }
}

/// The hits in one change: one on its path where that matches, then one on
/// its first matching line, where it is text and a line matches.
pub open spec fn change_hits(c: CommitRecord, change: ChangeScan, query: Seq<char>) -> Seq<
    SearchResultView,
> {
    let on_path = if matches_query(change.path@, query) {
        seq![file_hit(c, change.path@)]
    } else {
        Seq::empty()
    };
    let on_content = if change.binary {
        Seq::empty()
    } else {
        match first_match(flat(change.hunks@), query) {
            Some(line) => seq![content_hit(c, change.path@, line)],
            None => Seq::empty(),
        }
    };
    on_path + on_content
}

/// The hits in a run of changes, in their order.
pub open spec fn changes_hits(c: CommitRecord, changes: Seq<ChangeScan>, query: Seq<char>) -> Seq<
    SearchResultView,
>
    decreases changes.len(),
{
    if changes.len() == 0 {
        Seq::empty()
    } else {
        changes_hits(c, changes.drop_last(), query) + change_hits(c, changes.last(), query)
    }
}

/// The hit on a commit's message, where that matches.
pub open spec fn message_hits(c: CommitRecord, query: Seq<char>) -> Seq<SearchResultView> {
    if matches_query(message_text(c.message), query) {
        seq![commit_hit(c)]
    } else {
        Seq::empty()
    }
}

/// The hits in one commit with the changes read for it: none for a merge;
/// else the hit on its message, then the hits in its changes.
pub open spec fn visit_hits(c: CommitRecord, changes: Seq<ChangeScan>, query: Seq<char>) -> Seq<
    SearchResultView,
> {
    if is_merge(c) {
        Seq::empty()
    } else {
        message_hits(c, query) + changes_hits(c, changes, query)
    }
}

/// The hits in one commit.
pub open spec fn commit_hits(scan: CommitScan, query: Seq<char>) -> Seq<SearchResultView> {
    visit_hits(scan.commit, scan.changes@, query)
}

/// The hits in a walk, in its order: each visit is a commit with the changes
/// that were read for it.
pub open spec fn walk_hits(visits: Seq<(CommitRecord, Seq<ChangeScan>)>, query: Seq<char>) -> Seq<
    SearchResultView,
>
    decreases visits.len(),
{
    if visits.len() == 0 {
        Seq::empty()
    } else {
        walk_hits(visits.drop_last(), query) + visit_hits(
            visits.last().0,
            visits.last().1,
            query,
        )
    }
}

/// A history as a walk.
pub open spec fn visits_of(history: Seq<CommitScan>) -> Seq<(CommitRecord, Seq<ChangeScan>)> {
    history.map_values(|s: CommitScan| (s.commit, s.changes@))
}

/// The hits in a history, in the order of the walk.
pub open spec fn history_hits(history: Seq<CommitScan>, query: Seq<char>) -> Seq<SearchResultView>
    decreases history.len(),
{
    if history.len() == 0 {
        Seq::empty()
    } else {
        history_hits(history.drop_last(), query) + commit_hits(history.last(), query)
    }
}

/// The first `MAX_RESULTS` of a run of hits.
pub open spec fn clipped(hits: Seq<SearchResultView>) -> Seq<SearchResultView> {
    if hits.len() > MAX_RESULTS {
        hits.take(MAX_RESULTS as int)
    } else {
        hits
    }
}

/// A run of hits with more hits behind it, as far as there is room under
/// `MAX_RESULTS`.
pub open spec fn extended(hits: Seq<SearchResultView>, more: Seq<SearchResultView>) -> Seq<
    SearchResultView,
> {
    if hits.len() >= MAX_RESULTS {
        hits
    } else if hits.len() + more.len() > MAX_RESULTS {
        hits + more.take(MAX_RESULTS - hits.len())
    } else {
        hits + more
    }
}

/// The commits that a search visits: the first `cap` of the history.
pub open spec fn visited(history: Seq<CommitScan>, cap: nat) -> Seq<CommitScan> {
    if cap < history.len() {
        history.take(cap as int)
    } else {
        history
    }
}

/// What a search returns: nothing for a blank query; else the first
/// `MAX_RESULTS` hits of the query in lowercase in the commits visited.
pub open spec fn search_results(history: Seq<CommitScan>, query: Seq<char>, cap: nat) -> Seq<
    SearchResultView,
> {
    if is_blank(query) {
        Seq::empty()
    } else {
        clipped(history_hits(visited(history, cap), lowercase_of(query)))
    }
}

/// Putting hits behind hits in two steps is putting all of them at once.
pub proof fn lemma_extended_twice(
    hits: Seq<SearchResultView>,
    a: Seq<SearchResultView>,
    b: Seq<SearchResultView>,
)
    ensures
        extended(extended(hits, a), b) == extended(hits, a + b),
{
    if hits.len() < MAX_RESULTS {
        if hits.len() + a.len() > MAX_RESULTS {
            assert((a + b).take(MAX_RESULTS - hits.len()) == a.take(MAX_RESULTS - hits.len()));
        } else if hits.len() + a.len() + b.len() > MAX_RESULTS {
            assert(hits + a + b.take(MAX_RESULTS - hits.len() - a.len()) == hits + (a + b).take(
                MAX_RESULTS - hits.len(),
            ));
        } else {
            assert(hits + a + b == hits + (a + b));
        }
    }
}

/// Clipping, then extending, is extending, then clipping.
pub proof fn lemma_extended_clipped(all: Seq<SearchResultView>, more: Seq<SearchResultView>)
    ensures
        extended(clipped(all), more) == clipped(all + more),
{
    if all.len() >= MAX_RESULTS {
        assert((all + more).take(MAX_RESULTS as int) == all.take(MAX_RESULTS as int));
    } else if all.len() + more.len() > MAX_RESULTS {
        assert(all + more.take(MAX_RESULTS - all.len()) == (all + more).take(MAX_RESULTS as int));
    }
}

/// The first match of two runs of lines is that of the first run, where it
/// has one, else that of the second.
pub proof fn lemma_first_match_split(a: Seq<RawLine>, b: Seq<RawLine>, query: Seq<char>)
    ensures
        first_match(a + b, query) == match first_match(a, query) {
            Some(line) => Some(line),
            None => first_match(b, query),
        },
    decreases b.len(),
{
    if b.len() == 0 {
        assert(a + b == a);
    } else {
        assert((a + b).drop_last() == a + b.drop_last());
        assert((a + b).last() == b.last());
        lemma_first_match_split(a, b.drop_last(), query);
    }
}

/// The lines of two runs of hunks are those of the first, then those of the
/// second.
pub proof fn lemma_flat_split(a: Seq<Vec<RawLine>>, b: Seq<Vec<RawLine>>)
    ensures
        flat(a + b) == flat(a) + flat(b),
    decreases b.len(),
{
    if b.len() == 0 {
        assert(a + b == a);
    } else {
        assert((a + b).drop_last() == a + b.drop_last());
        assert((a + b).last() == b.last());
        lemma_flat_split(a, b.drop_last());
        assert(flat(a) + flat(b.drop_last()) + b.last()@ == flat(a) + (flat(b.drop_last())
            + b.last()@));
    }
}

/// The hits in the first commits of a history stand first among its hits.
pub proof fn lemma_history_hits_prefix(history: Seq<CommitScan>, n: int, query: Seq<char>)
    requires
        0 <= n <= history.len(),
    ensures
        history_hits(history.take(n), query).len() <= history_hits(history, query).len(),
        history_hits(history, query).take(history_hits(history.take(n), query).len() as int)
            == history_hits(history.take(n), query),
    decreases history.len(),
{
    if n == history.len() {
        assert(history.take(n) == history);
    } else {
        lemma_history_hits_prefix(history.drop_last(), n, query);
        assert(history.drop_last().take(n) == history.take(n));
    }
}

/// The hits in the first changes of a commit stand first among the hits in
/// its changes.
pub proof fn lemma_changes_hits_prefix(
    c: CommitRecord,
    changes: Seq<ChangeScan>,
    n: int,
    query: Seq<char>,
)
    requires
        0 <= n <= changes.len(),
    ensures
        changes_hits(c, changes.take(n), query).len() <= changes_hits(c, changes, query).len(),
        changes_hits(c, changes, query).take(changes_hits(c, changes.take(n), query).len() as int)
            == changes_hits(c, changes.take(n), query),
    decreases changes.len(),
{
    if n == changes.len() {
        assert(changes.take(n) == changes);
    } else {
        lemma_changes_hits_prefix(c, changes.drop_last(), n, query);
        assert(changes.drop_last().take(n) == changes.take(n));
    }
}

/// Every hit in the changes of a commit carries the commit's id.
pub proof fn lemma_changes_hits_ids(c: CommitRecord, changes: Seq<ChangeScan>, query: Seq<char>)
    ensures
        forall|k: int|
            0 <= k < changes_hits(c, changes, query).len() ==> (#[trigger] changes_hits(
                c,
                changes,
                query,
            )[k]).commit_id == c.id@,
    decreases changes.len(),
{
    if changes.len() > 0 {
        lemma_changes_hits_ids(c, changes.drop_last(), query);
    }
}

/// No hit stems from a merge: every hit in a walk carries the id of a commit
/// that the walk visited and that has at most one parent, and a hit on a
/// message is the hit on the message of such a commit.
pub proof fn lemma_walk_skips_merges(
    visits: Seq<(CommitRecord, Seq<ChangeScan>)>,
    query: Seq<char>,
    k: int,
)
    requires
        0 <= k < walk_hits(visits, query).len(),
    ensures
        exists|i: int|
            0 <= i < visits.len() && !is_merge((#[trigger] visits[i]).0) && walk_hits(
                visits,
                query,
            )[k].commit_id == visits[i].0.id@ && (walk_hits(visits, query)[k].result_type
                == "commit"@ ==> walk_hits(visits, query)[k] == commit_hit(visits[i].0)),
    decreases visits.len(),
{
    let front = visits.drop_last();
    let before = walk_hits(front, query);
    if k < before.len() {
        lemma_walk_skips_merges(front, query, k);
        let i = choose|i: int|
            0 <= i < front.len() && !is_merge((#[trigger] front[i]).0) && before[k].commit_id
                == front[i].0.id@ && (before[k].result_type == "commit"@ ==> before[k]
                == commit_hit(front[i].0));
        assert(visits[i] == front[i]);
    } else {
        let last = visits.last();
        let i = visits.len() - 1;
        assert(!is_merge(last.0));
        lemma_changes_hits_ids(last.0, last.1, query);
        let on_message = message_hits(last.0, query);
        let j = k - before.len();
        if j >= on_message.len() {
            let hit = changes_hits(last.0, last.1, query)[j - on_message.len()];
            lemma_changes_hits_kinds(last.0, last.1, query, j - on_message.len());
            reveal_strlit("commit");
            reveal_strlit("file");
            reveal_strlit("content");
            assert("commit"@ != "file"@) by {
                assert("commit"@[0] != "file"@[0]);
            }
            assert("commit"@ != "content"@) by {
                assert("commit"@.len() != "content"@.len());
            }
        }
        assert(visits[i] == last);
    }
}

/// No hit stems from a merge: every hit in a history carries the id of a
/// commit of that history with at most one parent, and a hit on a message
/// is the hit on the message of such a commit.
pub proof fn lemma_hits_skip_merges(history: Seq<CommitScan>, query: Seq<char>, k: int)
    requires
        0 <= k < history_hits(history, query).len(),
    ensures
        exists|i: int|
            0 <= i < history.len() && !is_merge((#[trigger] history[i]).commit) && history_hits(
                history,
                query,
            )[k].commit_id == history[i].commit.id@ && (history_hits(history, query)[k].result_type
                == "commit"@ ==> history_hits(history, query)[k] == commit_hit(history[i].commit)),
{
    let visits = visits_of(history);
    lemma_history_is_walk(history, query);
    lemma_walk_skips_merges(visits, query, k);
    let i = choose|i: int|
        0 <= i < visits.len() && !is_merge((#[trigger] visits[i]).0) && walk_hits(
            visits,
            query,
        )[k].commit_id == visits[i].0.id@ && (walk_hits(visits, query)[k].result_type
            == "commit"@ ==> walk_hits(visits, query)[k] == commit_hit(visits[i].0));
    assert(visits[i].0 == history[i].commit);
}

/// Every hit in the changes of a commit is a hit on a path or on content.
pub proof fn lemma_changes_hits_kinds(
    c: CommitRecord,
    changes: Seq<ChangeScan>,
    query: Seq<char>,
    k: int,
)
    requires
        0 <= k < changes_hits(c, changes, query).len(),
    ensures
        changes_hits(c, changes, query)[k].result_type == "file"@ || changes_hits(
            c,
            changes,
            query,
        )[k].result_type == "content"@,
    decreases changes.len(),
{
    let before = changes_hits(c, changes.drop_last(), query);
    if k < before.len() {
        lemma_changes_hits_kinds(c, changes.drop_last(), query, k);
    }
}

/// A search visits no more commits than its cap: what lies behind the first
/// `cap` commits of a history has no part in the result.
pub proof fn lemma_search_stays_under_cap(
    history: Seq<CommitScan>,
    other: Seq<CommitScan>,
    query: Seq<char>,
    cap: nat,
)
    requires
        visited(history, cap) == visited(other, cap),
    ensures
        search_results(history, query, cap) == search_results(other, query, cap),
        visited(history, cap).len() <= cap,
{
}

/// What a search returns: nothing for a blank query, never more than
/// `MAX_RESULTS` hits, and no hit that stems from a merge.
pub proof fn lemma_search_results(history: Seq<CommitScan>, query: Seq<char>, cap: nat, k: int)
    requires
        0 <= k < search_results(history, query, cap).len(),
    ensures
        !is_blank(query),
        search_results(history, query, cap).len() <= MAX_RESULTS,
        exists|i: int|
            0 <= i < visited(history, cap).len() && !is_merge(
                (#[trigger] visited(history, cap)[i]).commit,
            ) && search_results(history, query, cap)[k].commit_id == visited(
                history,
                cap,
            )[i].commit.id@ && (search_results(history, query, cap)[k].result_type == "commit"@
                ==> search_results(history, query, cap)[k] == commit_hit(
                visited(history, cap)[i].commit,
            )),
{
    let seen = visited(history, cap);
    let all = history_hits(seen, lowercase_of(query));
    assert(search_results(history, query, cap)[k] == all[k]);
    lemma_hits_skip_merges(seen, lowercase_of(query), k);
}

/// The hits in a history are the hits in the walk that visits it.
pub proof fn lemma_history_is_walk(history: Seq<CommitScan>, query: Seq<char>)
    ensures
        history_hits(history, query) == walk_hits(visits_of(history), query),
    decreases history.len(),
{
    if history.len() > 0 {
        lemma_history_is_walk(history.drop_last(), query);
        assert(visits_of(history).drop_last() == visits_of(history.drop_last()));
    }
}

/// A search of a history returns what a search of the repository returns
/// where its walk visits that history: for a query that is not blank, the
/// first `MAX_RESULTS` hits of the query in lowercase in the first `cap`
/// visits.
pub proof fn lemma_search_is_walk(history: Seq<CommitScan>, query: Seq<char>, cap: nat)
    requires
        !is_blank(query),
    ensures
        visits_of(visited(history, cap)).len() <= cap,
        search_results(history, query, cap) == clipped(
            walk_hits(visits_of(visited(history, cap)), lowercase_of(query)),
        ),
{
    lemma_history_is_walk(visited(history, cap), lowercase_of(query));
}

/// Where the hits so far fill the cap, the hits of a longer run clip to the
/// same.
pub proof fn lemma_clipped_prefix(part: Seq<SearchResultView>, all: Seq<SearchResultView>)
    requires
        part.len() <= all.len(),
        all.take(part.len() as int) == part,
        part.len() >= MAX_RESULTS,
    ensures
        clipped(all) == clipped(part),
{
    assert(all.take(MAX_RESULTS as int) == part.take(MAX_RESULTS as int));
}

/// The cap on the commits visited, as a machine integer.
pub fn commit_cap(max_commits: Option<u32>) -> (r: usize)
    ensures
        r == scan_cap(max_commits),
{
    match max_commits {
        Some(n) => n as usize,
        None => DEFAULT_SCAN_CAP as usize,
    }
}

/// Puts a hit behind the others where there is room.
pub fn push_hit(results: &mut Vec<SearchResult>, hit: SearchResult)
    ensures
        result_views(final(results)@) == extended(result_views(old(results)@), seq![hit@]),
        final(results)@.len() == if old(results)@.len() >= MAX_RESULTS {
            old(results)@.len()
        } else {
            old(results)@.len() + 1
        },
{
    proof {
        assert(result_views(results@).len() == results@.len());
    }
    if results.len() < MAX_RESULTS {
        proof {
            assert(result_views(results@.push(hit)) == result_views(results@) + seq![hit@]);
        }
        results.push(hit);
    }
}

/// The hit on a commit's message.
pub fn make_commit_hit(c: &CommitRecord) -> (r: SearchResult)
    ensures
        r@ == commit_hit(*c),
{
    let message = message_of(c);
    SearchResult {
        result_type: String::from_str("commit"),
        commit_id: c.id.clone(),
        content_preview: Some(first_line_of(message.as_str())),
        commit_message: message,
        commit_author: author_of(c),
        commit_date: format_date_time(c.seconds),
        file_path: None,
        line_number: None,
    }
}

/// The hit on the path of a change.
pub fn make_file_hit(c: &CommitRecord, path: &String) -> (r: SearchResult)
    ensures
        r@ == file_hit(*c, path@),
{
    let message = message_of(c);
    SearchResult {
        result_type: String::from_str("file"),
        commit_id: c.id.clone(),
        commit_message: first_line_of(message.as_str()),
        commit_author: author_of(c),
        commit_date: format_date_time(c.seconds),
        file_path: Some(path.clone()),
        content_preview: Some(String::from_str("File: ").concat(path.as_str())),
        line_number: None,
    }
}

/// The hit on a changed line.
pub fn make_content_hit(c: &CommitRecord, path: &String, line: &RawLine) -> (r: SearchResult)
    ensures
        r@ == content_hit(*c, path@, *line),
        valid_utf8(line.content@) ==> r@.content_preview == Some(
            preview_of(decode_utf8(line.content@)),
        ),
{
    let message = message_of(c);
    let text = lossy_text(line.content.as_slice());
    let chars = chars_of(text.as_str());
    SearchResult {
        result_type: String::from_str("content"),
        commit_id: c.id.clone(),
        commit_message: first_line_of(message.as_str()),
        commit_author: author_of(c),
        commit_date: format_date_time(c.seconds),
        file_path: Some(path.clone()),
        content_preview: Some(make_preview(&chars)),
        line_number: match line.new_lineno {
            Some(n) => Some(n),
            None => line.old_lineno,
        },
    }
}

/// Whether a changed line matches the query in lowercase.
pub fn line_hit(line: &RawLine, query: &Vec<char>) -> (r: bool)
    ensures
        r == line_matches(*line, query@),
        valid_utf8(line.content@) ==> r == matches_query(decode_utf8(line.content@), query@),
{
    let text = lossy_text(line.content.as_slice());
    text_matches(text.as_str(), query)
}

/// Where the first matching line of a patch stands: the hunk, and the line
/// in the hunk.
pub fn find_hit_line(hunks: &Vec<Vec<RawLine>>, query: &Vec<char>) -> (r: Option<(usize, usize)>)
    ensures
        match r {
            Some((h, k)) => h < hunks@.len() && k < hunks@[h as int]@.len() && first_match(
                flat(hunks@),
                query@,
            ) == Some(hunks@[h as int]@[k as int]),
            None => first_match(flat(hunks@), query@) is None,
        },
{
    let mut h: usize = 0;
    while h < hunks.len()
        invariant
            h <= hunks.len(),
            first_match(flat(hunks@.take(h as int)), query@) is None,
        decreases hunks.len() - h,
    {
        let hunk = &hunks[h];
        let mut k: usize = 0;
        while k < hunk.len()
            invariant
                k <= hunk.len(),
                h < hunks.len(),
                *hunk == hunks@[h as int],
                first_match(flat(hunks@.take(h as int)), query@) is None,
                first_match(hunk@.take(k as int), query@) is None,
            decreases hunk.len() - k,
        {
            proof {
                assert(hunk@.take(k + 1).drop_last() == hunk@.take(k as int));
                assert(hunk@.take(k + 1).last() == hunk@[k as int]);
            }
            if line_hit(&hunk[k], query) {
                proof {
                    let before = flat(hunks@.take(h as int));
                    assert(hunk@ == hunk@.take(k + 1) + hunk@.skip(k + 1));
                    lemma_first_match_split(hunk@.take(k + 1), hunk@.skip(k + 1), query@);
                    lemma_first_match_split(before, hunk@, query@);
                    assert(hunks@.take(h + 1).drop_last() == hunks@.take(h as int));
                    assert(hunks@.take(h + 1).last() == *hunk);
                    assert(hunks@ == hunks@.take(h + 1) + hunks@.skip(h + 1));
                    lemma_flat_split(hunks@.take(h + 1), hunks@.skip(h + 1));
                    lemma_first_match_split(
                        flat(hunks@.take(h + 1)),
                        flat(hunks@.skip(h + 1)),
                        query@,
                    );
                }
                return Some((h, k));
            }
            k += 1;
        }
        proof {
            assert(hunk@.take(hunk@.len() as int) == hunk@);
            lemma_first_match_split(flat(hunks@.take(h as int)), hunk@, query@);
            assert(hunks@.take(h + 1).drop_last() == hunks@.take(h as int));
            assert(hunks@.take(h + 1).last() == *hunk);
        }
        h += 1;
    }
    proof {
        assert(hunks@.take(hunks@.len() as int) == hunks@);
    }
    None
}

/// Searches one change of a commit: its path, then its lines up to the
/// first that matches. The hits go behind the others while there is room.
pub fn scan_change(
    commit: &CommitRecord,
    change: &ChangeScan,
    query: &Vec<char>,
    results: &mut Vec<SearchResult>,
)
    ensures
        result_views(final(results)@) == extended(
            result_views(old(results)@),
            change_hits(*commit, *change, query@),
        ),
        old(results)@.len() <= MAX_RESULTS ==> final(results)@.len() <= MAX_RESULTS,
{
    let ghost before = result_views(results@);
    let ghost on_path = if matches_query(change.path@, query@) {
        seq![file_hit(*commit, change.path@)]
    } else {
        Seq::empty()
    };
    if text_matches(change.path.as_str(), query) {
        push_hit(results, make_file_hit(commit, &change.path));
    }
    proof {
        assert(result_views(results@) == extended(before, on_path)) by {
            assert(result_views(results@).len() == results@.len());
        }
    }
    let ghost on_content: Seq<SearchResultView> = if change.binary {
        Seq::empty()
    } else {
        match first_match(flat(change.hunks@), query@) {
            Some(line) => seq![content_hit(*commit, change.path@, line)],
            None => Seq::empty(),
        }
    };
    let ghost middle = result_views(results@);
    if !change.binary {
        match find_hit_line(&change.hunks, query) {
            Some((h, k)) => {
                push_hit(results, make_content_hit(commit, &change.path, &change.hunks[h][k]));
            },
            None => {},
        }
    }
    proof {
        assert(result_views(results@) == extended(middle, on_content));
        lemma_extended_twice(before, on_path, on_content);
    }
}

/// Searches the changes of a commit, in their order, until the cap on the
/// hits is reached.
pub fn scan_changes(
    commit: &CommitRecord,
    changes: &Vec<ChangeScan>,
    query: &Vec<char>,
    results: &mut Vec<SearchResult>,
)
    ensures
        result_views(final(results)@) == extended(
            result_views(old(results)@),
            changes_hits(*commit, changes@, query@),
        ),
        old(results)@.len() <= MAX_RESULTS ==> final(results)@.len() <= MAX_RESULTS,
{
    let ghost before = result_views(results@);
    let ghost start = results@.len();
    let mut i: usize = 0;
    proof {
        assert(result_views(results@).len() == results@.len());
    }
    while i < changes.len() && results.len() < MAX_RESULTS
        invariant
            i <= changes.len(),
            before == result_views(old(results)@),
            start == old(results)@.len(),
            result_views(results@) == extended(
                before,
                changes_hits(*commit, changes@.take(i as int), query@),
            ),
            start <= MAX_RESULTS ==> results@.len() <= MAX_RESULTS,
        decreases changes.len() - i,
    {
        proof {
            assert(changes@.take(i + 1).drop_last() == changes@.take(i as int));
            assert(changes@.take(i + 1).last() == changes@[i as int]);
            lemma_extended_twice(
                before,
                changes_hits(*commit, changes@.take(i as int), query@),
                change_hits(*commit, changes@[i as int], query@),
            );
        }
        scan_change(commit, &changes[i], query, results);
        i += 1;
    }
    proof {
        assert(result_views(results@).len() == results@.len());
        let part = changes_hits(*commit, changes@.take(i as int), query@);
        let all = changes_hits(*commit, changes@, query@);
        if i < changes.len() {
            lemma_changes_hits_prefix(*commit, changes@, i as int, query@);
            if before.len() < MAX_RESULTS {
                assert(before.len() + part.len() >= MAX_RESULTS);
                assert(all.take(MAX_RESULTS - before.len()) == part.take(
                    MAX_RESULTS - before.len(),
                ));
            }
        } else {
            assert(changes@.take(i as int) == changes@);
        }
    }
}

/// Searches the message of a commit.
pub fn scan_message(commit: &CommitRecord, query: &Vec<char>, results: &mut Vec<SearchResult>)
    ensures
        result_views(final(results)@) == extended(
            result_views(old(results)@),
            message_hits(*commit, query@),
        ),
        old(results)@.len() <= MAX_RESULTS ==> final(results)@.len() <= MAX_RESULTS,
        old(results)@.len() <= final(results)@.len(),
{
    let ghost before = result_views(results@);
    let message = message_of(commit);
    if text_matches(message.as_str(), query) {
        push_hit(results, make_commit_hit(commit));
    }
    proof {
        assert(result_views(results@).len() == results@.len());
        assert(before + Seq::<SearchResultView>::empty() == before);
    }
}

/// Searches one commit. A merge yields nothing: neither its message nor its
/// changes are searched.
pub fn scan_commit(scan: &CommitScan, query: &Vec<char>, results: &mut Vec<SearchResult>)
    ensures
        result_views(final(results)@) == extended(
            result_views(old(results)@),
            commit_hits(*scan, query@),
        ),
        old(results)@.len() <= MAX_RESULTS ==> final(results)@.len() <= MAX_RESULTS,
{
    let ghost before = result_views(results@);
    if scan.commit.parent_count > 1 {
        proof {
            assert(before + Seq::<SearchResultView>::empty() == before);
        }
        return ;
    }
    scan_message(&scan.commit, query, results);
    proof {
        lemma_extended_twice(
            before,
            message_hits(scan.commit, query@),
            changes_hits(scan.commit, scan.changes@, query@),
        );
    }
    scan_changes(&scan.commit, &scan.changes, query, results);
}

/// The search over a history that is at hand: the hits of the query, without
/// regard to case, in the first `max_commits` commits of the history, 100
/// where no cap is named, and at most `MAX_RESULTS` of them. A blank query
/// has no hits.
pub fn search_history(history: &Vec<CommitScan>, query: &str, max_commits: Option<u32>) -> (r: Vec<
    SearchResult,
>)
    ensures
        result_views(r@) == search_results(history@, query@, scan_cap(max_commits)),
        r@.len() <= MAX_RESULTS,
        is_blank(query@) ==> r@.len() == 0,
{
    let mut results: Vec<SearchResult> = Vec::new();
    if blank(query) {
        proof {
            assert(result_views(results@) == Seq::<SearchResultView>::empty());
        }
        return results;
    }
    let lower = lowercase(query);
    let needle = chars_of(lower.as_str());
    let cap = commit_cap(max_commits);
    let n = if cap < history.len() {
        cap
    } else {
        history.len()
    };
    let ghost seen = visited(history@, scan_cap(max_commits));
    let mut i: usize = 0;
    proof {
        assert(result_views(results@) == Seq::<SearchResultView>::empty());
        assert(seen == history@.take(n as int));
    }
    while i < n && results.len() < MAX_RESULTS
        invariant
            i <= n <= history.len(),
            seen == history@.take(n as int),
            needle@ == lowercase_of(query@),
            results@.len() <= MAX_RESULTS,
            result_views(results@) == clipped(history_hits(history@.take(i as int), needle@)),
        decreases n - i,
    {
        proof {
            assert(history@.take(i + 1).drop_last() == history@.take(i as int));
            assert(history@.take(i + 1).last() == history@[i as int]);
            lemma_extended_clipped(
                history_hits(history@.take(i as int), needle@),
                commit_hits(history@[i as int], needle@),
            );
        }
        scan_commit(&history[i], &needle, &mut results);
        i += 1;
    }
    proof {
        assert(result_views(results@).len() == results@.len());
        if i < n {
            assert(seen.take(i as int) == history@.take(i as int));
            lemma_history_hits_prefix(seen, i as int, needle@);
            lemma_clipped_prefix(
                history_hits(history@.take(i as int), needle@),
                history_hits(seen, needle@),
            );
        }
    }
    results
}

/// What holds of every hit: on a message it names no path and no line; on a
/// path it names the path and no line; on content it names the path. Each
/// has a preview, and that of a content hit has at most `PREVIEW_LIMIT`
/// characters.
pub open spec fn well_formed_hit(hit: SearchResultView) -> bool {
    &&& hit.content_preview is Some
    &&& {
        ||| hit.result_type == "commit"@ && hit.file_path is None && hit.line_number is None
        ||| hit.result_type == "file"@ && hit.file_path is Some && hit.line_number is None
        ||| hit.result_type == "content"@ && hit.file_path is Some && hit.content_preview->0.len()
            <= PREVIEW_LIMIT
    }
}

/// Every hit of a run is well formed.
pub open spec fn well_formed_hits(hits: Seq<SearchResultView>) -> bool {
    forall|i: int| 0 <= i < hits.len() ==> well_formed_hit(#[trigger] hits[i])
}

/// The hit in a commit's message is well formed.
pub proof fn lemma_message_hits_well_formed(c: CommitRecord, query: Seq<char>)
    ensures
        well_formed_hits(message_hits(c, query)),
{
}

/// The hits in a change are well formed.
pub proof fn lemma_change_hits_well_formed(c: CommitRecord, change: ChangeScan, query: Seq<char>)
    ensures
        well_formed_hits(change_hits(c, change, query)),
{
}

/// Well-formed hits behind well-formed hits are well-formed hits.
pub proof fn lemma_extended_well_formed(hits: Seq<SearchResultView>, more: Seq<SearchResultView>)
    requires
        well_formed_hits(hits),
        well_formed_hits(more),
    ensures
        well_formed_hits(extended(hits, more)),
{
    let out = extended(hits, more);
    assert forall|i: int| 0 <= i < out.len() implies well_formed_hit(#[trigger] out[i]) by {
        if i >= hits.len() {
            assert(out[i] == more[i - hits.len()]);
        } else {
            assert(out[i] == hits[i]);
        }
    }
}

/// Searches the changes of one commit against its first parent, reading the
/// patch of each change only while there is room for hits. What the store
/// fails to hand out of a patch is not searched. Whether or not the store
/// fails, the hits are those in the changes that were read, put behind the
/// others as far as there is room.
pub(crate) fn search_commit_files_and_content(
    repo: &git2::Repository,
    oid: &git2::Oid,
    commit: &CommitRecord,
    query: &Vec<char>,
    results: &mut Vec<SearchResult>,
) -> (r: Result<(), QueryError>)
    ensures
        exists|changes: Seq<ChangeScan>|
            result_views(final(results)@) == extended(
                result_views(old(results)@),
                #[trigger] changes_hits(*commit, changes, query@),
            ),
        well_formed_hits(result_views(old(results)@)) ==> well_formed_hits(
            result_views(final(results)@),
        ),
        old(results)@.len() <= MAX_RESULTS ==> final(results)@.len() <= MAX_RESULTS,
        r is Err ==> r->Err_0 is Store,
{
    let ghost before = result_views(results@);
    let ghost mut read: Seq<ChangeScan> = Seq::empty();
    proof {
        assert(before + Seq::<SearchResultView>::empty() == before);
    }
    let diff = match commit_diff(
        repo,
        oid,
        commit.parent_count,
        Some((SEARCH_CONTEXT_LINES, SEARCH_MAX_BYTES)),
    ) {
        Ok(diff) => diff,
        Err(e) => {
            proof {
                assert(result_views(results@) == extended(
                    before,
                    changes_hits(*commit, read, query@),
                ));
            }
            return Err(e);
        },
    };
    let deltas = load_deltas(&diff);
    let mut at: usize = 0;
    while at < deltas.len() && results.len() < MAX_RESULTS
        invariant
            at <= deltas.len(),
            before == result_views(old(results)@),
            result_views(results@) == extended(before, changes_hits(*commit, read, query@)),
            well_formed_hits(before) ==> well_formed_hits(result_views(results@)),
            old(results)@.len() <= MAX_RESULTS ==> results@.len() <= MAX_RESULTS,
        decreases deltas.len() - at,
    {
        let binary = is_binary_change(&deltas[at]);
        let hunks = if binary {
            Vec::new()
        } else {
            match load_hunks(&diff, at, true, None) {
                Ok(hunks) => hunks,
                Err(_) => Vec::new(),
            }
        };
        let change = ChangeScan { path: path_of(&deltas[at]), binary, hunks };
        proof {
            lemma_change_hits_well_formed(*commit, change, query@);
            if well_formed_hits(result_views(results@)) {
                lemma_extended_well_formed(
                    result_views(results@),
                    change_hits(*commit, change, query@),
                );
            }
            assert(read.push(change).drop_last() == read);
            lemma_extended_twice(
                before,
                changes_hits(*commit, read, query@),
                change_hits(*commit, change, query@),
            );
            read = read.push(change);
        }
        scan_change(commit, &change, query, results);
        at += 1;
    }
    Ok(())
}

/// Searches the commits that a walk visits, newest first, until `max_commits`
/// commits are visited, 100 where no cap is named, or `MAX_RESULTS` hits are
/// found. A merge counts as visited and is not searched. Returns the hits and
/// the number of commits visited: the hits are the first `MAX_RESULTS` of
/// those in the visits, each visit a commit with the changes read for it.
pub(crate) fn search_commits_and_content(
    repo: &git2::Repository,
    walk: &mut git2::Revwalk<'_>,
    query: &Vec<char>,
    max_commits: Option<u32>,
) -> (r: Result<(Vec<SearchResult>, usize), QueryError>)
    ensures
        r is Ok ==> exists|visits: Seq<(CommitRecord, Seq<ChangeScan>)>|
            visits.len() == r->Ok_0.1 && result_views(r->Ok_0.0@) == clipped(
                #[trigger] walk_hits(visits, query@),
            ),
        r is Ok ==> r->Ok_0.0@.len() <= MAX_RESULTS,
        r is Ok ==> r->Ok_0.1 <= scan_cap(max_commits),
        r is Ok ==> well_formed_hits(result_views(r->Ok_0.0@)),
        r is Err ==> r->Err_0 is Store || r->Err_0 is CommitNotFound,
{
    let cap = commit_cap(max_commits);
    let mut results: Vec<SearchResult> = Vec::new();
    let mut count: usize = 0;
    let ghost mut visits: Seq<(CommitRecord, Seq<ChangeScan>)> = Seq::empty();
    proof {
        assert(result_views(results@) == Seq::<SearchResultView>::empty());
    }
    while count < cap && results.len() < MAX_RESULTS
        invariant
            count <= cap,
            cap == scan_cap(max_commits),
            results@.len() <= MAX_RESULTS,
            well_formed_hits(result_views(results@)),
            visits.len() == count,
            result_views(results@) == clipped(walk_hits(visits, query@)),
        decreases cap - count,
    {
        let oid = match walk_next(walk) {
            None => {
                return Ok((results, count));
            },
            Some(Err(e)) => {
                return Err(store_failure(&e));
            },
            Some(Ok(oid)) => oid,
        };
        let commit = find_commit(repo, &oid)?;
        let ghost before = result_views(results@);
        let ghost mut read: Seq<ChangeScan> = Seq::empty();
        if commit.parent_count <= 1 {
            proof {
                lemma_message_hits_well_formed(commit, query@);
                lemma_extended_well_formed(result_views(results@), message_hits(commit, query@));
            }
            scan_message(&commit, query, &mut results);
            let ghost middle = result_views(results@);
            let _ = search_commit_files_and_content(repo, &oid, &commit, query, &mut results);
            proof {
                read = choose|changes: Seq<ChangeScan>|
                    result_views(results@) == extended(
                        middle,
                        #[trigger] changes_hits(commit, changes, query@),
                    );
                lemma_extended_twice(
                    before,
                    message_hits(commit, query@),
                    changes_hits(commit, read, query@),
                );
            }
        } else {
            proof {
                assert(before + Seq::<SearchResultView>::empty() == before);
            }
        }
        proof {
            assert(result_views(results@) == extended(before, visit_hits(commit, read, query@)));
            lemma_extended_clipped(walk_hits(visits, query@), visit_hits(commit, read, query@));
            assert(visits.push((commit, read)).drop_last() == visits);
            visits = visits.push((commit, read));
        }
        count += 1;
    }
    Ok((results, count))
}

/// The failures of a search.
pub open spec fn is_search_failure(e: QueryError) -> bool {
    ||| e is RepositoryNotFound
    ||| e is RefNotFound
    ||| e is CommitNotFound
    ||| e is Store
}

/// The search of a repository: the hits of the query, without regard to case,
/// in the messages, the changed paths and the changed lines of the commits
/// that a walk visits from the named branch, or from HEAD where no name is
/// given or the name leads to no commit. A blank query has no hits, and the
/// repository is not opened for it. For any other query the result is the
/// first `MAX_RESULTS` hits of the query in lowercase in the visits of the
/// walk, of which there are no more than the cap on the commits.
pub fn global_search(
    path: String,
    query: String,
    branch_name: Option<String>,
    max_commits: Option<u32>,
) -> (r: Result<Vec<SearchResult>, QueryError>)
    ensures
        is_blank(query@) ==> r is Ok && r->Ok_0@.len() == 0,
        r is Ok && !is_blank(query@) ==> exists|visits: Seq<(CommitRecord, Seq<ChangeScan>)>|
            visits.len() <= scan_cap(max_commits) && result_views(r->Ok_0@) == clipped(
                #[trigger] walk_hits(visits, lowercase_of(query@)),
            ),
        r is Ok ==> r->Ok_0@.len() <= MAX_RESULTS,
        r is Ok ==> well_formed_hits(result_views(r->Ok_0@)),
        r is Err ==> is_search_failure(r->Err_0),
        r matches Err(QueryError::RefNotFound { message }) ==> message@ == unresolved_text(
            opt_view(branch_name),
        ),
{
    if blank(query.as_str()) {
        let none: Vec<SearchResult> = Vec::new();
        proof {
            assert(result_views(none@).len() == 0);
        }
        return Ok(none);
    }
    let repo = open(path.as_str())?;
    let lower = lowercase(query.as_str());
    let needle = chars_of(lower.as_str());
    let name = match &branch_name {
        Some(name) => Some(name.as_str()),
        None => None,
    };
    let start = resolve_start(name, named_tip(&repo, name), head_tip(&repo))?;
    let mut walk = match start_walk(&repo, &start, WALK_BY_TIME) {
        Ok(walk) => walk,
        Err(e) => {
            return Err(store_failure(&e));
        },
    };
    let found = search_commits_and_content(&repo, &mut walk, &needle, max_commits)?;
    Ok(found.0)
}

} // verus!
