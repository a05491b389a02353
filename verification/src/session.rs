//! What every query does first: open the repository, read an id, and fetch
//! a change-set from the store as plain records.

use crate::model::QueryError;
use crate::store::{
    delta_count, delta_files, delta_kind, delta_paths, error_text, hunk_count, hunk_line_count,
    is_hex_id, line_view, load_patch, open_repository, parse_oid, patch_hunks, read_commit,
    read_line, side_view, CommitRecord, DeltaRecord, PlainLine, RawLine, ID_LEN,
};
use vstd::prelude::*;
use vstd::string::*;

verus! {

/// A failure of the store, with the store's own words.
pub(crate) fn store_failure(e: &git2::Error) -> (r: QueryError)
    ensures
        r is Store,
{
    QueryError::Store { message: error_text(e) }
}

/// The repository at a path.
pub(crate) fn open(path: &str) -> (r: Result<git2::Repository, QueryError>)
    ensures
        r is Err ==> r->Err_0 is RepositoryNotFound,
{
    match open_repository(path) {
        Ok(repo) => Ok(repo),
        Err(e) => Err(QueryError::RepositoryNotFound { message: error_text(&e) }),
    }
}

/// The id that a text in hexadecimal stands for. A text that is no
/// well-formed id is refused, and no other.
pub(crate) fn read_id(commit_id: &str) -> (r: Result<git2::Oid, QueryError>)
    ensures
        r is Ok <==> is_hex_id(commit_id@),
        r is Err ==> r->Err_0 is InvalidCommitId,
{
    match parse_oid(commit_id) {
        Ok(oid) => Ok(oid),
        Err(e) => Err(QueryError::InvalidCommitId { message: error_text(&e) }),
    }
}

/// Where a file of a commit is looked for: the commit, named by the id that
/// was asked for.
pub open spec fn commit_place(commit_id: Seq<char>) -> Seq<char> {
    "commit '"@ + commit_id + "'"@
}

/// The failure for a path that is not where it was looked for.
pub open spec fn is_missing(e: QueryError, file_path: Seq<char>, place: Seq<char>) -> bool {
    e matches QueryError::FileNotFound { path, place: looked } && path@ == file_path && looked@
        == place
}

/// The failure for a file that a commit's tree lacks.
pub fn missing_in_commit(file_path: String, commit_id: &str) -> (r: QueryError)
    ensures
        is_missing(r, file_path@, commit_place(commit_id@)),
{
    QueryError::FileNotFound {
        path: file_path,
        place: String::from_str("commit '").concat(commit_id).concat("'"),
    }
}

/// The commit with an id.
pub(crate) fn find_commit(repo: &git2::Repository, oid: &git2::Oid) -> (r: Result<
    CommitRecord,
    QueryError,
>)
    ensures
        r is Ok ==> r->Ok_0.id@.len() == ID_LEN,
        r is Err ==> r->Err_0 is CommitNotFound,
{
    match read_commit(repo, oid) {
        Ok(commit) => Ok(commit),
        Err(e) => Err(QueryError::CommitNotFound { message: error_text(&e) }),
    }
}

/// The delta at a position of a change-set, as the store has it at the time
/// of the call: there is one at a position below the number of deltas and at
/// no other, and its paths are those of that delta. The store may settle the
/// kind and the binary marks of a delta only when its patch is made.
pub(crate) fn read_delta(diff: &git2::Diff<'_>, at: usize) -> (r: Option<DeltaRecord>)
    ensures
        r is Some <==> at < delta_paths(*diff).len(),
        r matches Some(d) ==> side_view(d.new_path) == delta_paths(*diff)[at as int].0 && side_view(
            d.old_path,
        ) == delta_paths(*diff)[at as int].1,
{
    match (delta_kind(diff, at), delta_files(diff, at)) {
        (Some(kind), Some(files)) => Some(
            DeltaRecord {
                kind,
                new_path: files.0,
                new_binary: files.1,
                old_path: files.2,
                old_binary: files.3,
            },
        ),
        _ => None,
    }
}

/// The changes of a change-set, in the store's order: one for each delta
/// that it holds, with the paths of that delta. The kind and the binary
/// marks are those that the store gives at the time of the call.
pub(crate) fn load_deltas(diff: &git2::Diff<'_>) -> (r: Vec<DeltaRecord>)
    ensures
        r@.len() == delta_paths(*diff).len(),
        forall|i: int|
            0 <= i < r@.len() ==> side_view((#[trigger] r@[i]).new_path) == delta_paths(*diff)[i].0
                && side_view(r@[i].old_path) == delta_paths(*diff)[i].1,
{
    let count = delta_count(diff);
    let mut out: Vec<DeltaRecord> = Vec::new();
    let mut at: usize = 0;
    while at < count
        invariant
            at <= count,
            count == delta_paths(*diff).len(),
            out@.len() == at,
            forall|i: int|
                0 <= i < at ==> side_view((#[trigger] out@[i]).new_path) == delta_paths(*diff)[i].0
                    && side_view(out@[i].old_path) == delta_paths(*diff)[i].1,
        decreases count - at,
    {
        match read_delta(diff, at) {
            Some(record) => {
                out.push(record);
            },
            None => {
                return out;
            },
        }
        at += 1;
    }
    out
}

/// The hunks of a run as plain values.
pub open spec fn hunk_views(hunks: Seq<Vec<RawLine>>) -> Seq<Seq<PlainLine>> {
    hunks.map_values(|hunk: Vec<RawLine>| hunk@.map_values(|line: RawLine| line_view(line)))
}

/// The bytes of changed content in a run of lines: those of the added and
/// of the deleted lines.
pub open spec fn lines_changed(lines: Seq<PlainLine>) -> nat
    decreases lines.len(),
{
    if lines.len() == 0 {
        0
    } else {
        lines_changed(lines.drop_last()) + if lines.last().0 == '+' || lines.last().0 == '-' {
            lines.last().1.len()
        } else {
            0
        }
    }
}

/// The bytes of changed content in a run of hunks.
pub open spec fn hunks_changed(hunks: Seq<Seq<PlainLine>>) -> nat
    decreases hunks.len(),
{
    if hunks.len() == 0 {
        0
    } else {
        hunks_changed(hunks.drop_last()) + lines_changed(hunks.last())
    }
}

/// Whether a count is over a bound; none is where there is no bound.
pub open spec fn over_bound(count: nat, bound: Option<usize>) -> bool {
    match bound {
        Some(max) => count > max,
        None => false,
    }
}

/// The first lines of a run hold no more changed content than the run.
pub proof fn lemma_lines_changed_grows(lines: Seq<PlainLine>, n: int)
    requires
        0 <= n <= lines.len(),
    ensures
        lines_changed(lines.take(n)) <= lines_changed(lines),
    decreases lines.len(),
{
    if n == lines.len() {
        assert(lines.take(n) == lines);
    } else {
        lemma_lines_changed_grows(lines.drop_last(), n);
        assert(lines.drop_last().take(n) == lines.take(n));
    }
}

/// The first hunks of a run, with the first lines of the next, hold no more
/// changed content than the run.
pub proof fn lemma_hunks_changed_grows(hunks: Seq<Seq<PlainLine>>, h: int, l: int)
    requires
        0 <= h < hunks.len(),
        0 <= l <= hunks[h].len(),
    ensures
        hunks_changed(hunks.take(h)) + lines_changed(hunks[h].take(l)) <= hunks_changed(hunks),
    decreases hunks.len(),
{
    if h == hunks.len() - 1 {
        assert(hunks.take(h) == hunks.drop_last());
        lemma_lines_changed_grows(hunks[h], l);
    } else {
        lemma_hunks_changed_grows(hunks.drop_last(), h, l);
        assert(hunks.drop_last().take(h) == hunks.take(h));
    }
}

/// The hunks that a patch at hand holds, in its order, each with all its
/// lines in their order. With a bound, the changed content is counted while
/// the lines are read, and the reading ends with the first line that takes
/// the count over the bound: the patch is refused with the count at that
/// line, the largest machine integer standing for all counts above it.
pub(crate) fn read_hunks(patch: &git2::Patch<'_>, bound: Option<usize>) -> (r: Result<
    Vec<Vec<RawLine>>,
    QueryError,
>)
    ensures
        !over_bound(hunks_changed(patch_hunks(*patch)), bound) ==> r is Ok && hunk_views(r->Ok_0@)
            == patch_hunks(*patch),
        over_bound(hunks_changed(patch_hunks(*patch)), bound) ==> (r matches Err(
            QueryError::TooLarge { size },
        ) && size <= hunks_changed(patch_hunks(*patch)) && (over_bound(size as nat, bound) || size
            == usize::MAX)),
{
    let ghost all = patch_hunks(*patch);
    let mut out: Vec<Vec<RawLine>> = Vec::new();
    let mut total: usize = 0;
    let hunks = hunk_count(patch);
    let mut h: usize = 0;
    while h < hunks
        invariant
            h <= hunks,
            all == patch_hunks(*patch),
            hunks == all.len(),
            hunk_views(out@) == all.take(h as int),
            bound matches Some(max) ==> total == hunks_changed(all.take(h as int)) && total <= max,
        decreases hunks - h,
    {
        let lines = match hunk_line_count(patch, h) {
            Ok(lines) => lines,
            Err(e) => {
                return Err(store_failure(&e));
            },
        };
        let ghost held = all[h as int];
        let mut hunk: Vec<RawLine> = Vec::new();
        let mut l: usize = 0;
        while l < lines
            invariant
                l <= lines,
                h < all.len(),
                all == patch_hunks(*patch),
                held == all[h as int],
                lines == held.len(),
                hunk@.map_values(|line: RawLine| line_view(line)) == held.take(l as int),
                bound matches Some(max) ==> total == hunks_changed(all.take(h as int))
                    + lines_changed(held.take(l as int)) && total <= max,
            decreases lines - l,
        {
            let raw = match read_line(patch, h, l) {
                Ok(raw) => raw,
                Err(e) => {
                    return Err(store_failure(&e));
                },
            };
            proof {
                assert(hunk@.push(raw).map_values(|line: RawLine| line_view(line)) == hunk@.map_values(
                    |line: RawLine| line_view(line),
                ).push(line_view(raw)));
                assert(held.take(l + 1) == held.take(l as int).push(held[l as int]));
                assert(held.take(l + 1).drop_last() == held.take(l as int));
                lemma_hunks_changed_grows(all, h as int, l + 1);
            }
            match bound {
                Some(max) => {
                    if raw.origin == '+' || raw.origin == '-' {
                        let len = raw.content.len();
                        if len > max - total {
                            let size = if len > usize::MAX - total {
                                usize::MAX
                            } else {
                                total + len
                            };
                            return Err(QueryError::TooLarge { size });
                        }
                        total = total + len;
                    }
                },
                None => {},
            }
            hunk.push(raw);
            l += 1;
        }
        proof {
            assert(held.take(lines as int) == held);
            assert(hunk_views(out@.push(hunk)) == hunk_views(out@).push(
                hunk@.map_values(|line: RawLine| line_view(line)),
            ));
            assert(all.take(h + 1) == all.take(h as int).push(held));
            assert(all.take(h + 1).drop_last() == all.take(h as int));
        }
        out.push(hunk);
        h += 1;
    }
    proof {
        assert(all.take(hunks as int) == all);
    }
    Ok(out)
}

/// The hunks that the store holds for one change, each with its lines: those
/// of the patch that the store makes for it, and none where it makes none.
/// With `skip_failures`, a change for which the store fails has no hunks;
/// without, the failure ends the call. With a bound, a patch with more
/// changed content is refused while it is read.
pub(crate) fn load_hunks(
    diff: &git2::Diff<'_>,
    at: usize,
    skip_failures: bool,
    bound: Option<usize>,
) -> (r: Result<Vec<Vec<RawLine>>, QueryError>)
    ensures
        skip_failures && bound is None ==> r is Ok,
        r is Err ==> r->Err_0 is Store || r->Err_0 is TooLarge,
        r is Err && bound is None ==> r->Err_0 is Store,
{
    match load_patch(diff, at) {
        Ok(Some(patch)) => read_hunks(&patch, bound),
        Ok(None) => Ok(Vec::new()),
        Err(e) => {
            if skip_failures {
                Ok(Vec::new())
            } else {
                Err(store_failure(&e))
            }
        },
    }
}

} // verus!
