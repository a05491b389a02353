//! The diff materializer: from a change-set to file-level summaries and to
//! the patch of one file.

use crate::model::{
    line_views, DiffLine, DiffLineView, FileChange, FileChangeView, FileDiff, FileDiffView,
    QueryError,
};
use crate::session::{
    find_commit, is_missing, load_deltas, load_hunks, open, read_delta, read_id, store_failure,
};
use crate::store::{
    commit_tree, delta_paths, diff_totals, diff_tree_to_index_bounded, diff_trees,
    diff_trees_bounded, head_tree, is_hex_id, mark_similar, parent_tree, side_view, DeltaKind,
    DeltaRecord, RawLine,
};
use crate::text::{chars_of, lossy_text, lossy_text_of, trim_line, trim_newlines};
use vstd::prelude::*;
use vstd::string::*;
use vstd::utf8::{decode_utf8, valid_utf8};

verus! {

/// The context lines around a change in the patch of one file.
pub const CONTEXT_LINES: u32 = 3;

/// The position of the parent against which a commit is compared.
pub const FIRST_PARENT: usize = 0;

/// The most changed content, in bytes, that the patch of one file may hold.
pub const MAX_DIFF_BYTES: usize = 1_048_576;

/// The size in bytes above which the store takes a blob for binary when the
/// patch of one file is read: the store's own default. The bound on a patch
/// is `MAX_DIFF_BYTES` of changed content, and a patch above it is refused,
/// not emptied.
pub const PATCH_BLOB_LIMIT: i64 = 536_870_912;

/// The label of a kind of change.
pub open spec fn change_label(kind: DeltaKind) -> Seq<char> {
    match kind {
        DeltaKind::Added => "added"@,
        DeltaKind::Deleted => "deleted"@,
        DeltaKind::Modified => "modified"@,
        DeltaKind::Renamed => "renamed"@,
        DeltaKind::Copied => "copied"@,
        _ => "unknown"@,
    }
}

/// The label of a patch line, by its sigil.
pub open spec fn line_label(origin: char) -> Seq<char> {
    if origin == '+' {
        "addition"@
    } else if origin == '-' {
        "deletion"@
    } else {
        "context"@
    }
}

/// A side's path as text: `unknown` where it is no valid text.
pub open spec fn side_text(path: Option<String>) -> Seq<char> {
    match path {
        Some(p) => p@,
        None => "unknown"@,
    }
}

/// The path of a change: that of the new side where it has one, else that of
/// the old side, and `unknown` where neither has one.
pub open spec fn delta_path(d: DeltaRecord) -> Seq<char> {
    match d.new_path {
        Some(p) => side_text(p),
        None => match d.old_path {
            Some(p) => side_text(p),
            None => "unknown"@,
        },
    }
}

/// The two paths of a delta as plain values: that of the new side, then
/// that of the old side.
pub type PathPair = (Option<Option<Seq<char>>>, Option<Option<Seq<char>>>);

/// A side's path as text, from a plain value.
pub open spec fn plain_side_text(path: Option<Seq<char>>) -> Seq<char> {
    match path {
        Some(p) => p,
        None => "unknown"@,
    }
}

/// The path under which a delta is listed: that of the new side where it
/// has one, else that of the old side, and `unknown` where neither has one
/// or the one that counts is no valid text.
pub open spec fn listed_path(paths: PathPair) -> Seq<char> {
    match paths.0 {
        Some(p) => plain_side_text(p),
        None => match paths.1 {
            Some(p) => plain_side_text(p),
            None => "unknown"@,
        },
    }
}

/// `at` is the first delta listed under the path.
pub open spec fn is_first_listed(all: Seq<PathPair>, path: Seq<char>, at: int) -> bool {
    &&& 0 <= at < all.len()
    &&& listed_path(all[at]) == path
    &&& forall|j: int| 0 <= j < at ==> listed_path(#[trigger] all[j]) != path
}

/// No delta is listed under the path.
pub open spec fn no_listed_path(all: Seq<PathPair>, path: Seq<char>) -> bool {
    forall|j: int| 0 <= j < all.len() ==> listed_path(#[trigger] all[j]) != path
}

/// The records are those of the deltas with these paths, one for one.
pub open spec fn records_of(deltas: Seq<DeltaRecord>, all: Seq<PathPair>) -> bool {
    &&& deltas.len() == all.len()
    &&& forall|i: int|
        0 <= i < deltas.len() ==> side_view((#[trigger] deltas[i]).new_path) == all[i].0
            && side_view(deltas[i].old_path) == all[i].1
}

/// The path of a record is the path under which its delta is listed.
pub proof fn lemma_record_paths(deltas: Seq<DeltaRecord>, all: Seq<PathPair>)
    requires
        records_of(deltas, all),
    ensures
        forall|i: int|
            0 <= i < deltas.len() ==> delta_path(#[trigger] deltas[i]) == listed_path(all[i]),
{
    assert forall|i: int| 0 <= i < deltas.len() implies delta_path(#[trigger] deltas[i])
        == listed_path(all[i]) by {
        assert(side_view(deltas[i].new_path) == all[i].0);
        assert(side_view(deltas[i].old_path) == all[i].1);
    }
}

/// A change is binary when either side is.
pub open spec fn delta_is_binary(d: DeltaRecord) -> bool {
    d.new_binary || d.old_binary
}

/// The summary of one change.
pub open spec fn change_of(d: DeltaRecord, additions: u32, deletions: u32) -> FileChangeView {
    FileChangeView { path: delta_path(d), status: change_label(d.kind), additions, deletions }
}

/// The summaries of a change-set, in its order.
pub open spec fn changes_of(deltas: Seq<DeltaRecord>, additions: u32, deletions: u32) -> Seq<
    FileChangeView,
> {
    deltas.map_values(|d: DeltaRecord| change_of(d, additions, deletions))
}

/// The views of a run of summaries.
pub open spec fn change_views(changes: Seq<FileChange>) -> Seq<FileChangeView> {
    changes.map_values(|c: FileChange| c@)
}

/// `at` is the first change of the set whose path is `path`.
pub open spec fn is_first_match(deltas: Seq<DeltaRecord>, path: Seq<char>, at: int) -> bool {
    &&& 0 <= at < deltas.len()
    &&& delta_path(deltas[at]) == path
    &&& forall|j: int| 0 <= j < at ==> delta_path(#[trigger] deltas[j]) != path
}

/// No change of the set has the path.
pub open spec fn no_match(deltas: Seq<DeltaRecord>, path: Seq<char>) -> bool {
    forall|j: int| 0 <= j < deltas.len() ==> delta_path(#[trigger] deltas[j]) != path
}

/// The lines of all hunks, in order.
pub open spec fn flat(hunks: Seq<Vec<RawLine>>) -> Seq<RawLine>
    decreases hunks.len(),
{
    if hunks.len() == 0 {
        Seq::empty()
    } else {
        flat(hunks.drop_last()) + hunks.last()@
    }
}

/// A patch line as it is shown: its label, its text without trailing
/// newlines, and the store's line numbers.
pub open spec fn shown_line(raw: RawLine) -> DiffLineView {
    DiffLineView {
        line_type: line_label(raw.origin),
        content: trim_newlines(lossy_text_of(raw.content@)),
        old_line_number: raw.old_lineno,
        new_line_number: raw.new_lineno,
    }
}

/// The lines as they are shown.
pub open spec fn shown_lines(lines: Seq<RawLine>) -> Seq<DiffLineView> {
    lines.map_values(|l: RawLine| shown_line(l))
}

/// The bytes of changed content: those of the added and the deleted lines.
pub open spec fn changed_bytes(lines: Seq<RawLine>) -> nat
    decreases lines.len(),
{
    if lines.len() == 0 {
        0
    } else {
        let l = lines.last();
        changed_bytes(lines.drop_last()) + if l.origin == '+' || l.origin == '-' {
            l.content@.len()
        } else {
            0
        }
    }
}

/// A count as a machine integer, the largest one standing for all above it.
pub open spec fn capped(n: nat) -> usize {
    if n > usize::MAX {
        usize::MAX
    } else {
        n as usize
    }
}

/// The patch of a binary file: marked so, and without lines.
pub open spec fn binary_diff_of(path: Seq<char>, kind: DeltaKind) -> FileDiffView {
    FileDiffView {
        path,
        status: change_label(kind),
        old_content: None,
        new_content: None,
        diff_lines: Seq::empty(),
        is_binary: true,
    }
}

/// The patch of a text file: the lines of its hunks as they are shown.
pub open spec fn text_diff_of(path: Seq<char>, kind: DeltaKind, hunks: Seq<Vec<RawLine>>) -> FileDiffView {
    FileDiffView {
        path,
        status: change_label(kind),
        old_content: None,
        new_content: None,
        diff_lines: shown_lines(flat(hunks)),
        is_binary: false,
    }
}

/// The label of a kind of change.
pub fn status_label(kind: DeltaKind) -> (r: String)
    ensures
        r@ == change_label(kind),
{
    match kind {
        DeltaKind::Added => String::from_str("added"),
        DeltaKind::Deleted => String::from_str("deleted"),
        DeltaKind::Modified => String::from_str("modified"),
        DeltaKind::Renamed => String::from_str("renamed"),
        DeltaKind::Copied => String::from_str("copied"),
        _ => String::from_str("unknown"),
    }
}

/// The label of a patch line.
pub fn line_type_label(origin: char) -> (r: String)
    ensures
        r@ == line_label(origin),
{
    if origin == '+' {
        String::from_str("addition")
    } else if origin == '-' {
        String::from_str("deletion")
    } else {
        String::from_str("context")
    }
}

/// The path of a change.
pub fn path_of(d: &DeltaRecord) -> (r: String)
    ensures
        r@ == delta_path(*d),
{
    let side = match &d.new_path {
        Some(p) => p,
        None => match &d.old_path {
            Some(p) => p,
            None => {
                return String::from_str("unknown");
            },
        },
    };
    match side {
        Some(p) => p.clone(),
        None => String::from_str("unknown"),
    }
}

/// Whether a change is binary.
pub fn is_binary_change(d: &DeltaRecord) -> (r: bool)
    ensures
        r == delta_is_binary(*d),
{
    d.new_binary || d.old_binary
}

/// The summaries of a change-set: one per change, in its order, each with
/// the two counts given.
pub fn summarize_changes(deltas: &Vec<DeltaRecord>, additions: u32, deletions: u32) -> (r: Vec<
    FileChange,
>)
    ensures
        change_views(r@) == changes_of(deltas@, additions, deletions),
{
    let mut out: Vec<FileChange> = Vec::new();
    let mut i: usize = 0;
    while i < deltas.len()
        invariant
            i <= deltas.len(),
            change_views(out@) == changes_of(deltas@.take(i as int), additions, deletions),
        decreases deltas.len() - i,
    {
        let change = FileChange {
            path: path_of(&deltas[i]),
            status: status_label(deltas[i].kind),
            additions,
            deletions,
        };
        proof {
            assert(deltas@.take(i + 1) == deltas@.take(i as int).push(deltas@[i as int]));
            assert(change_views(out@.push(change)) == change_views(out@).push(change@));
            assert(changes_of(deltas@.take(i + 1), additions, deletions) == changes_of(
                deltas@.take(i as int),
                additions,
                deletions,
            ).push(change_of(deltas@[i as int], additions, deletions)));
        }
        out.push(change);
        i += 1;
    }
    proof {
        assert(deltas@.take(deltas.len() as int) == deltas@);
    }
    out
}

/// The first change whose path is exactly `path`, if there is one.
pub fn locate(deltas: &Vec<DeltaRecord>, path: &String) -> (r: Option<usize>)
    ensures
        match r {
            Some(at) => is_first_match(deltas@, path@, at as int),
            None => no_match(deltas@, path@),
        },
{
    let mut i: usize = 0;
    while i < deltas.len()
        invariant
            i <= deltas.len(),
            forall|j: int| 0 <= j < i ==> delta_path(#[trigger] deltas@[j]) != path@,
        decreases deltas.len() - i,
    {
        let candidate = path_of(&deltas[i]);
        if candidate == *path {
            return Some(i);
        }
        i += 1;
    }
    None
}

/// One patch line as it is shown.
pub fn show_line(raw: &RawLine) -> (r: DiffLine)
    ensures
        r@ == shown_line(*raw),
        valid_utf8(raw.content@) ==> r@.content == trim_newlines(decode_utf8(raw.content@)),
{
    let text = lossy_text(raw.content.as_slice());
    let chars = chars_of(text.as_str());
    DiffLine {
        line_type: line_type_label(raw.origin),
        content: trim_line(&chars),
        old_line_number: raw.old_lineno,
        new_line_number: raw.new_lineno,
    }
}

/// The lines of all hunks as they are shown, in order, unless their changed
/// content is larger than `MAX_DIFF_BYTES`: then the patch is refused with
/// its size.
pub fn flatten_patch(hunks: &Vec<Vec<RawLine>>) -> (r: Result<Vec<DiffLine>, QueryError>)
    ensures
        changed_bytes(flat(hunks@)) <= MAX_DIFF_BYTES ==> r is Ok && line_views(r->Ok_0@)
            == shown_lines(flat(hunks@)),
        changed_bytes(flat(hunks@)) > MAX_DIFF_BYTES ==> (r matches Err(
            QueryError::TooLarge { size },
        ) && size == capped(changed_bytes(flat(hunks@)))),
{
    let mut out: Vec<DiffLine> = Vec::new();
    let mut total: usize = 0;
    let mut h: usize = 0;
    while h < hunks.len()
        invariant
            h <= hunks.len(),
            line_views(out@) == shown_lines(flat(hunks@.take(h as int))),
            total == capped(changed_bytes(flat(hunks@.take(h as int)))),
        decreases hunks.len() - h,
    {
        let hunk = &hunks[h];
        let ghost before = flat(hunks@.take(h as int));
        let mut k: usize = 0;
        while k < hunk.len()
            invariant
                k <= hunk.len(),
                line_views(out@) == shown_lines(before + hunk@.take(k as int)),
                total == capped(changed_bytes(before + hunk@.take(k as int))),
            decreases hunk.len() - k,
        {
            let raw = &hunk[k];
            let line = show_line(raw);
            proof {
                let sofar = before + hunk@.take(k as int);
                let next = before + hunk@.take(k + 1);
                assert(next == sofar.push(*raw));
                assert(next.drop_last() == sofar);
                assert(line_views(out@.push(line)) == line_views(out@).push(line@));
                assert(shown_lines(next) == shown_lines(sofar).push(shown_line(*raw)));
            }
            if raw.origin == '+' || raw.origin == '-' {
                let len = raw.content.len();
                total = if len > usize::MAX - total {
                    usize::MAX
                } else {
                    total + len
                };
            }
            out.push(line);
            k += 1;
        }
        proof {
            assert(hunk@.take(hunk.len() as int) == hunk@);
            assert(hunks@.take(h + 1).drop_last() == hunks@.take(h as int));
            assert(hunks@.take(h + 1).last() == *hunk);
        }
        h += 1;
    }
    proof {
        assert(hunks@.take(hunks.len() as int) == hunks@);
    }
    if total > MAX_DIFF_BYTES {
        Err(QueryError::TooLarge { size: total })
    } else {
        Ok(out)
    }
}

/// The patch of a binary file.
pub fn binary_diff(path: String, kind: DeltaKind) -> (r: FileDiff)
    ensures
        r@ == binary_diff_of(path@, kind),
{
    let r = FileDiff {
        path,
        status: status_label(kind),
        old_content: None,
        new_content: None,
        diff_lines: Vec::new(),
        is_binary: true,
    };
    proof {
        assert(line_views(r.diff_lines@) == Seq::<DiffLineView>::empty());
    }
    r
}

/// The patch of a text file from the hunks that the store holds for it.
pub fn text_diff(path: String, kind: DeltaKind, hunks: &Vec<Vec<RawLine>>) -> (r: Result<
    FileDiff,
    QueryError,
>)
    ensures
        changed_bytes(flat(hunks@)) <= MAX_DIFF_BYTES ==> r is Ok && r->Ok_0@ == text_diff_of(
            path@,
            kind,
            hunks@,
        ),
        changed_bytes(flat(hunks@)) > MAX_DIFF_BYTES ==> (r matches Err(
            QueryError::TooLarge { size },
        ) && size == capped(changed_bytes(flat(hunks@)))),
{
    match flatten_patch(hunks) {
        Ok(lines) => Ok(
            FileDiff {
                path,
                status: status_label(kind),
                old_content: None,
                new_content: None,
                diff_lines: lines,
                is_binary: false,
            },
        ),
        Err(e) => Err(e),
    }
}

/// One of the six labels of a kind of change.
pub open spec fn is_change_label(s: Seq<char>) -> bool {
    ||| s == "added"@
    ||| s == "modified"@
    ||| s == "deleted"@
    ||| s == "renamed"@
    ||| s == "copied"@
    ||| s == "unknown"@
}

/// One of the three labels of a patch line.
pub open spec fn is_line_label(s: Seq<char>) -> bool {
    ||| s == "context"@
    ||| s == "addition"@
    ||| s == "deletion"@
}

/// What holds of every patch of one file: its status is a label, the
/// contents of the two sides are not filled in, a binary file has no lines,
/// and every line has one of the three labels.
pub open spec fn well_formed_diff(d: FileDiffView) -> bool {
    &&& is_change_label(d.status)
    &&& d.old_content is None
    &&& d.new_content is None
    &&& d.is_binary ==> d.diff_lines.len() == 0
    &&& forall|i: int| 0 <= i < d.diff_lines.len() ==> is_line_label(#[trigger] d.diff_lines[i].line_type)
}

/// What holds of every summary of a change-set: each status is a label.
pub open spec fn well_formed_changes(changes: Seq<FileChangeView>) -> bool {
    forall|i: int| 0 <= i < changes.len() ==> is_change_label(#[trigger] changes[i].status)
}

/// The failures of a query for the patch of one file: the path is not in
/// the change-set, the patch is too large, or the store failed.
pub open spec fn is_patch_failure(e: QueryError, file_path: Seq<char>) -> bool {
    ||| (e matches QueryError::FileNotFound { path, place } && path@ == file_path)
    ||| e is TooLarge
    ||| e is Store
}

/// The failures of a query on a commit, before its change-set is read.
pub open spec fn is_commit_failure(e: QueryError) -> bool {
    ||| e is RepositoryNotFound
    ||| e is InvalidCommitId
    ||| e is CommitNotFound
    ||| e is Store
}

/// Every patch that `text_diff_of` and `binary_diff_of` describe is well formed.
pub proof fn lemma_diffs_are_well_formed(path: Seq<char>, kind: DeltaKind, hunks: Seq<Vec<RawLine>>)
    ensures
        well_formed_diff(binary_diff_of(path, kind)),
        well_formed_diff(text_diff_of(path, kind, hunks)),
{
}

/// Every summary that `changes_of` describes is well formed.
pub proof fn lemma_changes_are_well_formed(deltas: Seq<DeltaRecord>, additions: u32, deletions: u32)
    ensures
        well_formed_changes(changes_of(deltas, additions, deletions)),
{
}

/// A path stands in the summary of a change-set exactly where the lookup of
/// the patch of one file finds it there: a path of the summary has a first
/// change with that path, and a path that the summary lacks has none.
pub proof fn lemma_summary_and_lookup_agree(
    deltas: Seq<DeltaRecord>,
    additions: u32,
    deletions: u32,
    path: Seq<char>,
)
    ensures
        (exists|i: int|
            0 <= i < deltas.len() && (#[trigger] changes_of(deltas, additions, deletions)[i]).path
                == path) <==> (exists|at: int| is_first_match(deltas, path, at)),
        !(exists|i: int|
            0 <= i < deltas.len() && (#[trigger] changes_of(deltas, additions, deletions)[i]).path
                == path) <==> no_match(deltas, path),
{
    let summary = changes_of(deltas, additions, deletions);
    if exists|i: int| 0 <= i < deltas.len() && (#[trigger] summary[i]).path == path {
        let i = choose|i: int| 0 <= i < deltas.len() && (#[trigger] summary[i]).path == path;
        assert(delta_path(deltas[i]) == path);
        lemma_first_match_exists(deltas, path, i);
    }
    if exists|at: int| is_first_match(deltas, path, at) {
        let at = choose|at: int| is_first_match(deltas, path, at);
        assert(summary[at].path == path);
    }
    if no_match(deltas, path) {
        assert forall|i: int| 0 <= i < deltas.len() implies (#[trigger] summary[i]).path
            != path by {
            assert(delta_path(deltas[i]) != path);
        }
    } else {
        let j = choose|j: int| 0 <= j < deltas.len() && delta_path(#[trigger] deltas[j]) == path;
        assert(summary[j].path == path);
    }
}

/// Where some change has a path, a first change has it.
pub proof fn lemma_first_match_exists(deltas: Seq<DeltaRecord>, path: Seq<char>, i: int)
    requires
        0 <= i < deltas.len(),
        delta_path(deltas[i]) == path,
    ensures
        exists|at: int| is_first_match(deltas, path, at),
    decreases i,
{
    if exists|j: int| 0 <= j < i && delta_path(#[trigger] deltas[j]) == path {
        let j = choose|j: int| 0 <= j < i && delta_path(#[trigger] deltas[j]) == path;
        lemma_first_match_exists(deltas, path, j);
    } else {
        assert(is_first_match(deltas, path, i));
    }
}

/// Where the store reports every change as an addition, as it does for a
/// commit without parents, whose old side is the empty tree, every path of
/// the summary has the status `added`.
pub proof fn lemma_additions_are_added(deltas: Seq<DeltaRecord>, additions: u32, deletions: u32)
    requires
        forall|i: int| 0 <= i < deltas.len() ==> (#[trigger] deltas[i]).kind == DeltaKind::Added,
    ensures
        forall|i: int|
            0 <= i < deltas.len() ==> (#[trigger] changes_of(deltas, additions, deletions)[i]).status
                == "added"@,
{
    assert forall|i: int| 0 <= i < deltas.len() implies (#[trigger] changes_of(
        deltas,
        additions,
        deletions,
    )[i]).status == "added"@ by {
        assert(deltas[i].kind == DeltaKind::Added);
    }
}

/// A count of lines as the summaries hold it: the largest `u32` stands for
/// all counts above it.
pub fn line_count(n: usize) -> (r: u32)
    ensures
        n <= u32::MAX ==> r == n,
        n > u32::MAX ==> r == u32::MAX,
{
    if n > u32::MAX as usize {
        u32::MAX
    } else {
        n as u32
    }
}

/// The patch of one file from its delta and the hunks that the store holds
/// for it: a delta with a binary side gives the patch of a binary file,
/// without lines; any other gives the patch of a text file from the hunks,
/// unless their changed content is larger than `MAX_DIFF_BYTES`: then the
/// patch is refused with its size. Either patch carries the label of the
/// delta's kind.
pub fn patch_from(file_path: String, record: &DeltaRecord, hunks: &Vec<Vec<RawLine>>) -> (r: Result<
    FileDiff,
    QueryError,
>)
    ensures
        delta_is_binary(*record) ==> r is Ok && r->Ok_0@ == binary_diff_of(file_path@, record.kind),
        !delta_is_binary(*record) && changed_bytes(flat(hunks@)) <= MAX_DIFF_BYTES ==> r is Ok
            && r->Ok_0@ == text_diff_of(file_path@, record.kind, hunks@),
        !delta_is_binary(*record) && changed_bytes(flat(hunks@)) > MAX_DIFF_BYTES ==> (r matches Err(
            QueryError::TooLarge { size },
        ) && size == capped(changed_bytes(flat(hunks@)))),
{
    if is_binary_change(record) {
        Ok(binary_diff(file_path, record.kind))
    } else {
        text_diff(file_path, record.kind, hunks)
    }
}

/// What a patch of one file is: that of a binary file, or that of a text
/// file from some hunks, under the path asked for and with the label of
/// some kind of change.
pub open spec fn is_patch(d: FileDiffView, file_path: Seq<char>) -> bool {
    ||| exists|kind: DeltaKind| d == #[trigger] binary_diff_of(file_path, kind)
    ||| exists|kind: DeltaKind, hunks: Seq<Vec<RawLine>>|
        d == #[trigger] text_diff_of(file_path, kind, hunks)
}

/// The patch of the file at `file_path` in a change-set: the first delta
/// listed under exactly that path decides. The path is refused exactly
/// where no delta of the change-set is listed under it. Whether the file is
/// binary is read when the store has made the patch, which is when the
/// store settles it.
pub(crate) fn patch_of(diff: &git2::Diff<'_>, file_path: String, place: &str) -> (r: Result<
    FileDiff,
    QueryError,
>)
    ensures
        no_listed_path(delta_paths(*diff), file_path@) <==> (r is Err && is_missing(
            r->Err_0,
            file_path@,
            place@,
        )),
        r is Err && r->Err_0 is FileNotFound ==> is_missing(r->Err_0, file_path@, place@),
        r is Ok ==> exists|at: int| is_first_listed(delta_paths(*diff), file_path@, at),
        r is Ok ==> is_patch(r->Ok_0@, file_path@),
        r is Ok ==> r->Ok_0@.path == file_path@ && well_formed_diff(r->Ok_0@),
        r is Err ==> is_patch_failure(r->Err_0, file_path@),
{
    let deltas = load_deltas(diff);
    proof {
        lemma_record_paths(deltas@, delta_paths(*diff));
    }
    let at = match locate(&deltas, &file_path) {
        Some(at) => at,
        None => {
            proof {
                assert forall|j: int| 0 <= j < delta_paths(*diff).len() implies listed_path(
                    #[trigger] delta_paths(*diff)[j],
                ) != file_path@ by {
                    assert(delta_path(deltas@[j]) != file_path@);
                }
            }
            return Err(
                QueryError::FileNotFound { path: file_path, place: String::from_str(place) },
            );
        },
    };
    proof {
        assert forall|j: int| 0 <= j < at implies listed_path(#[trigger] delta_paths(*diff)[j])
            != file_path@ by {
            assert(delta_path(deltas@[j]) != file_path@);
        }
        assert(delta_path(deltas@[at as int]) == file_path@);
        assert(is_first_listed(delta_paths(*diff), file_path@, at as int));
    }
    let hunks = match load_hunks(diff, at, false, Some(MAX_DIFF_BYTES)) {
        Ok(hunks) => hunks,
        Err(e) => {
            return Err(e);
        },
    };
    let settled = match read_delta(diff, at) {
        Some(record) => record,
        None => {
            return Err(QueryError::Store { message: String::from_str("the change-set ends early") });
        },
    };
    proof {
        lemma_diffs_are_well_formed(file_path@, settled.kind, hunks@);
    }
    patch_from(file_path, &settled, &hunks)
}

/// The summary of a change-set at hand: one entry for each delta that it
/// holds, in its order, each with the path under which the delta is listed
/// and with the two counts given.
pub(crate) fn summarize_diff(diff: &git2::Diff<'_>, additions: u32, deletions: u32) -> (r: Vec<
    FileChange,
>)
    ensures
        r@.len() == delta_paths(*diff).len(),
        forall|i: int|
            0 <= i < r@.len() ==> (#[trigger] r@[i]).path@ == listed_path(delta_paths(*diff)[i]),
        exists|deltas: Seq<DeltaRecord>|
            change_views(r@) == #[trigger] changes_of(deltas, additions, deletions),
        well_formed_changes(change_views(r@)),
{
    let deltas = load_deltas(diff);
    let changes = summarize_changes(&deltas, additions, deletions);
    proof {
        lemma_record_paths(deltas@, delta_paths(*diff));
        lemma_changes_are_well_formed(deltas@, additions, deletions);
        assert(change_views(changes@).len() == changes@.len());
        assert forall|i: int| 0 <= i < changes@.len() implies (#[trigger] changes@[i]).path@
            == listed_path(delta_paths(*diff)[i]) by {
            assert(change_views(changes@)[i] == changes@[i]@);
            assert(changes_of(deltas@, additions, deletions)[i] == change_of(
                deltas@[i],
                additions,
                deletions,
            ));
        }
    }
    changes
}

/// A path stands in the summary of a change-set exactly where the patch of
/// one file is looked up with success: a path that the summary holds is the
/// path of a first delta, and a path that it lacks is that of none.
pub proof fn lemma_round_trip(all: Seq<PathPair>, summary: Seq<FileChange>, path: Seq<char>)
    requires
        summary.len() == all.len(),
        forall|i: int| 0 <= i < summary.len() ==> (#[trigger] summary[i]).path@ == listed_path(all[i]),
    ensures
        (exists|i: int| 0 <= i < summary.len() && (#[trigger] summary[i]).path@ == path) <==> (
        exists|at: int| is_first_listed(all, path, at)),
        !(exists|i: int| 0 <= i < summary.len() && (#[trigger] summary[i]).path@ == path)
            <==> no_listed_path(all, path),
{
    if exists|i: int| 0 <= i < summary.len() && (#[trigger] summary[i]).path@ == path {
        let i = choose|i: int| 0 <= i < summary.len() && (#[trigger] summary[i]).path@ == path;
        lemma_first_listed_exists(all, path, i);
    }
    if exists|at: int| is_first_listed(all, path, at) {
        let at = choose|at: int| is_first_listed(all, path, at);
        assert(summary[at].path@ == path);
    }
    if no_listed_path(all, path) {
        assert forall|i: int| 0 <= i < summary.len() implies (#[trigger] summary[i]).path@
            != path by {
            assert(listed_path(all[i]) != path);
        }
    } else {
        let j = choose|j: int| 0 <= j < all.len() && listed_path(#[trigger] all[j]) == path;
        assert(summary[j].path@ == path);
    }
}

/// Where some delta is listed under a path, a first delta is.
pub proof fn lemma_first_listed_exists(all: Seq<PathPair>, path: Seq<char>, i: int)
    requires
        0 <= i < all.len(),
        listed_path(all[i]) == path,
    ensures
        exists|at: int| is_first_listed(all, path, at),
    decreases i,
{
    if exists|j: int| 0 <= j < i && listed_path(#[trigger] all[j]) == path {
        let j = choose|j: int| 0 <= j < i && listed_path(#[trigger] all[j]) == path;
        lemma_first_listed_exists(all, path, j);
    } else {
        assert(is_first_listed(all, path, i));
    }
}

/// The change-set of a commit against its first parent, or against the empty
/// tree where it has no parent. With `bounds`, the store is given a number of
/// context lines and a size above which a blob counts as binary.
pub(crate) fn commit_diff<'r>(
    repo: &'r git2::Repository,
    oid: &git2::Oid,
    parent_count: usize,
    bounds: Option<(u32, i64)>,
) -> (r: Result<git2::Diff<'r>, QueryError>)
    ensures
        r is Err ==> r->Err_0 is Store,
{
    let tree = match commit_tree(repo, oid) {
        Ok(tree) => tree,
        Err(e) => {
            return Err(store_failure(&e));
        },
    };
    let old = if parent_count > 0 {
        match parent_tree(repo, oid, FIRST_PARENT) {
            Ok(tree) => Some(tree),
            Err(e) => {
                return Err(store_failure(&e));
            },
        }
    } else {
        None
    };
    let old_side = match &old {
        Some(tree) => Some(tree),
        None => None,
    };
    let made = match bounds {
        Some((context_lines, max_size)) => diff_trees_bounded(
            repo,
            old_side,
            &tree,
            context_lines,
            max_size,
        ),
        None => diff_trees(repo, old_side, &tree),
    };
    match made {
        Ok(diff) => Ok(diff),
        Err(e) => Err(store_failure(&e)),
    }
}

/// The failures of a query on a commit whose id is no well-formed id.
pub open spec fn is_id_failure(e: QueryError) -> bool {
    e is RepositoryNotFound || e is InvalidCommitId
}

/// The paths that a commit changed against its first parent, with renames
/// and copies marked; against the empty tree where it has no parent. The
/// two counts are 0.
pub fn get_commit_changes(path: String, commit_id: String) -> (r: Result<Vec<FileChange>, QueryError>)
    ensures
        !is_hex_id(commit_id@) ==> r is Err && is_id_failure(r->Err_0),
        r is Err && r->Err_0 is InvalidCommitId ==> !is_hex_id(commit_id@),
        r is Ok ==> exists|deltas: Seq<DeltaRecord>|
            change_views(r->Ok_0@) == #[trigger] changes_of(deltas, 0, 0),
        r is Ok ==> well_formed_changes(change_views(r->Ok_0@)),
        r is Ok ==> forall|i: int|
            0 <= i < r->Ok_0@.len() ==> (#[trigger] r->Ok_0@[i]).additions == 0 && r->Ok_0@[i].deletions
                == 0,
        r is Err ==> is_commit_failure(r->Err_0),
{
    let repo = open(path.as_str())?;
    let oid = read_id(commit_id.as_str())?;
    let commit = find_commit(&repo, &oid)?;
    let mut diff = commit_diff(&repo, &oid, commit.parent_count, None)?;
    match mark_similar(&mut diff) {
        Ok(()) => {},
        Err(e) => {
            return Err(store_failure(&e));
        },
    }
    let changes = summarize_diff(&diff, 0, 0);
    proof {
        let deltas = choose|deltas: Seq<DeltaRecord>|
            change_views(changes@) == #[trigger] changes_of(deltas, 0, 0);
        assert(change_views(changes@).len() == changes@.len());
        assert forall|i: int| 0 <= i < changes@.len() implies (#[trigger] changes@[i]).additions
            == 0 && changes@[i].deletions == 0 by {
            assert(change_views(changes@)[i] == changes@[i]@);
            assert(changes_of(deltas, 0, 0)[i] == change_of(deltas[i], 0, 0));
        }
    }
    Ok(changes)
}

/// The patch of one file in a commit, against the commit's first parent,
/// looked up in the change-set that the summary of the commit shows: with
/// renames and copies marked. A patch with more than `MAX_DIFF_BYTES` of
/// changed content is refused.
pub fn get_file_diff(path: String, commit_id: String, file_path: String) -> (r: Result<
    FileDiff,
    QueryError,
>)
    ensures
        !is_hex_id(commit_id@) ==> r is Err && is_id_failure(r->Err_0),
        r is Err && r->Err_0 is InvalidCommitId ==> !is_hex_id(commit_id@),
        r is Ok ==> is_patch(r->Ok_0@, file_path@),
        r is Ok ==> r->Ok_0@.path == file_path@ && well_formed_diff(r->Ok_0@),
        r is Err ==> is_commit_failure(r->Err_0) || is_patch_failure(r->Err_0, file_path@),
        r is Err && r->Err_0 is FileNotFound ==> is_missing(
            r->Err_0,
            file_path@,
            "commit changes"@,
        ),
{
    let repo = open(path.as_str())?;
    let oid = read_id(commit_id.as_str())?;
    let commit = find_commit(&repo, &oid)?;
    let mut diff = commit_diff(
        &repo,
        &oid,
        commit.parent_count,
        Some((CONTEXT_LINES, PATCH_BLOB_LIMIT)),
    )?;
    match mark_similar(&mut diff) {
        Ok(()) => {},
        Err(e) => {
            return Err(store_failure(&e));
        },
    }
    patch_of(&diff, file_path, "commit changes")
}

/// The patch of one file as it is staged: the index against the tree of
/// HEAD, or against the empty tree in a repository without commits. A patch
/// with more than `MAX_DIFF_BYTES` of changed content is refused.
pub fn get_staged_file_diff(path: String, file_path: String) -> (r: Result<FileDiff, QueryError>)
    ensures
        r is Ok ==> is_patch(r->Ok_0@, file_path@),
        r is Ok ==> r->Ok_0@.path == file_path@ && well_formed_diff(r->Ok_0@),
        r is Err ==> r->Err_0 is RepositoryNotFound || is_patch_failure(r->Err_0, file_path@),
        r is Err && r->Err_0 is FileNotFound ==> is_missing(
            r->Err_0,
            file_path@,
            "staged changes"@,
        ),
{
    let repo = open(path.as_str())?;
    let old = match head_tree(&repo) {
        Some(Ok(tree)) => Some(tree),
        Some(Err(e)) => {
            return Err(store_failure(&e));
        },
        None => None,
    };
    let old_side = match &old {
        Some(tree) => Some(tree),
        None => None,
    };
    let diff = match diff_tree_to_index_bounded(&repo, old_side, CONTEXT_LINES, PATCH_BLOB_LIMIT) {
        Ok(diff) => diff,
        Err(e) => {
            return Err(store_failure(&e));
        },
    };
    patch_of(&diff, file_path, "staged changes")
}

} // verus!
