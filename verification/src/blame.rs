//! The blame reconstructor: every line of a file, as of a commit, with the
//! commit that last touched it.

use crate::dates::{date_text, format_date};
use crate::log::{
    author_of, author_text, message_of, message_text, short_id, short_id_of, SHORT_ID_LEN,
};
use crate::model::{BlameInfo, BlameInfoView, FileBlame, QueryError};
use crate::diff::is_id_failure;
use crate::session::{
    commit_place, find_commit, is_missing, missing_in_commit, open, read_id, store_failure,
};
use crate::store::{
    binary_mark, blame_path, blamed_commit, blob_bytes, blob_content, blob_is_binary, blob_size,
    commit_tree, find_blob, find_path, is_hex_id, BlobHeader, CommitRecord,
};
use crate::text::{chars_of, decode_text, first_line, first_line_of, split_lines, text_lines, views};
use vstd::prelude::*;
use vstd::string::*;
use vstd::utf8::{decode_utf8, valid_utf8};

verus! {

/// The largest file, in bytes, that is blamed.
pub const MAX_BLAME_BYTES: usize = 1_048_576;

/// The most lines of a file that is blamed.
pub const MAX_BLAME_LINES: usize = 3000;

/// A line of a file with the commit that last touched it, where the store
/// attributes it to one.
pub struct SourcedLine {
    pub content: String,
    pub source: Option<CommitRecord>,
}

/// The attribution of the line with the given number. A line that the store
/// attributes to no commit carries the id asked for and `Unknown` in the
/// other fields.
pub open spec fn blame_entry(requested: Seq<char>, number: u32, line: SourcedLine) -> BlameInfoView {
    match line.source {
        Some(c) => BlameInfoView {
            commit_id: c.id@,
            commit_short_id: short_id_of(c.id@),
            author: author_text(c.author_name),
            date: date_text(c.seconds),
            line_number: number,
            content: line.content@,
            commit_message: first_line(message_text(c.message)),
        },
        None => BlameInfoView {
            commit_id: requested,
            commit_short_id: short_id_of(requested),
            author: "Unknown"@,
            date: "Unknown"@,
            line_number: number,
            content: line.content@,
            commit_message: "Unknown"@,
        },
    }
}

/// The attributions of the lines of a file, numbered from 1.
pub open spec fn blame_of(requested: Seq<char>, lines: Seq<SourcedLine>) -> Seq<BlameInfoView> {
    Seq::new(lines.len(), |i: int| blame_entry(requested, (i + 1) as u32, lines[i]))
}

/// The views of a run of attributions.
pub open spec fn blame_views(entries: Seq<BlameInfo>) -> Seq<BlameInfoView> {
    entries.map_values(|e: BlameInfo| e@)
}

/// A blame has as many entries as the file has lines: the entry at position
/// `i` is that of line `i + 1` and carries that line's content.
pub proof fn lemma_blame_covers_lines(requested: Seq<char>, lines: Seq<SourcedLine>)
    requires
        lines.len() <= MAX_BLAME_LINES,
    ensures
        blame_of(requested, lines).len() == lines.len(),
        forall|i: int|
            0 <= i < lines.len() ==> (#[trigger] blame_of(requested, lines)[i]).line_number == i + 1
                && blame_of(requested, lines)[i].content == lines[i].content@,
{
}

/// The two cheap guards, on what the store says of the blob before its
/// content is read: a binary file is refused, then one larger than
/// `MAX_BLAME_BYTES`.
pub fn check_blob(header: &BlobHeader) -> (r: Result<(), QueryError>)
    ensures
        header.is_binary ==> r is Err && r->Err_0 is BinaryUnsupported,
        !header.is_binary && header.size > MAX_BLAME_BYTES ==> (r matches Err(
            QueryError::TooLarge { size },
        ) && size == header.size),
        !header.is_binary && header.size <= MAX_BLAME_BYTES ==> r is Ok,
{
    if header.is_binary {
        Err(QueryError::BinaryUnsupported)
    } else if header.size > MAX_BLAME_BYTES {
        Err(QueryError::TooLarge { size: header.size })
    } else {
        Ok(())
    }
}

/// The lines of a file's content. Content that is no valid UTF-8 is refused,
/// then content of more than `MAX_BLAME_LINES` lines.
pub fn read_lines(bytes: Vec<u8>) -> (r: Result<Vec<String>, QueryError>)
    ensures
        !valid_utf8(bytes@) ==> r is Err && r->Err_0 is InvalidEncoding,
        valid_utf8(bytes@) && text_lines(decode_utf8(bytes@)).len() > MAX_BLAME_LINES ==> (r matches Err(
            QueryError::TooManyLines { lines },
        ) && lines == text_lines(decode_utf8(bytes@)).len()),
        valid_utf8(bytes@) && text_lines(decode_utf8(bytes@)).len() <= MAX_BLAME_LINES ==> r is Ok
            && views(r->Ok_0@) == text_lines(decode_utf8(bytes@)),
{
    let ghost given = bytes@;
    let text = match decode_text(bytes) {
        Some(text) => text,
        None => {
            return Err(QueryError::InvalidEncoding);
        },
    };
    let chars = chars_of(text.as_str());
    let lines = split_lines(&chars);
    proof {
        assert(views(lines@).len() == lines@.len());
    }
    if lines.len() > MAX_BLAME_LINES {
        Err(QueryError::TooManyLines { lines: lines.len() })
    } else {
        Ok(lines)
    }
}

/// Content that is blamed: the store takes it for text, it has at most
/// `MAX_BLAME_BYTES` bytes, it is valid UTF-8, and its text has at most
/// `MAX_BLAME_LINES` lines.
pub open spec fn is_blamed_content(bytes: Seq<u8>) -> bool {
    &&& !binary_mark(bytes)
    &&& bytes.len() <= MAX_BLAME_BYTES
    &&& valid_utf8(bytes)
    &&& text_lines(decode_utf8(bytes)).len() <= MAX_BLAME_LINES
}

/// The lines of a blob at hand, after the guards: a binary blob is refused,
/// then one of more than `MAX_BLAME_BYTES` bytes, then one whose bytes are
/// no valid UTF-8, then one of more than `MAX_BLAME_LINES` lines. Of any
/// other the result is the lines of its text.
pub(crate) fn blob_lines(blob: &git2::Blob<'_>) -> (r: Result<Vec<String>, QueryError>)
    ensures
        binary_mark(blob_content(*blob)) ==> r is Err && r->Err_0 is BinaryUnsupported,
        !binary_mark(blob_content(*blob)) && blob_content(*blob).len() > MAX_BLAME_BYTES ==> (
        r matches Err(QueryError::TooLarge { size }) && size == blob_content(*blob).len()),
        !binary_mark(blob_content(*blob)) && blob_content(*blob).len() <= MAX_BLAME_BYTES
            && !valid_utf8(blob_content(*blob)) ==> r is Err && r->Err_0 is InvalidEncoding,
        !binary_mark(blob_content(*blob)) && blob_content(*blob).len() <= MAX_BLAME_BYTES
            && valid_utf8(blob_content(*blob)) && text_lines(
            decode_utf8(blob_content(*blob)),
        ).len() > MAX_BLAME_LINES ==> (r matches Err(QueryError::TooManyLines { lines }) && lines
            == text_lines(decode_utf8(blob_content(*blob))).len()),
        is_blamed_content(blob_content(*blob)) <==> r is Ok,
        r is Ok ==> views(r->Ok_0@) == text_lines(decode_utf8(blob_content(*blob))),
{
    let header = BlobHeader { is_binary: blob_is_binary(blob), size: blob_size(blob) };
    check_blob(&header)?;
    read_lines(blob_bytes(blob))
}

/// The attribution of one line.
pub fn attribute_line(requested: &str, number: u32, line: &SourcedLine) -> (r: BlameInfo)
    ensures
        r@ == blame_entry(requested@, number, *line),
{
    match &line.source {
        Some(c) => {
            let message = message_of(c);
            BlameInfo {
                commit_id: c.id.clone(),
                commit_short_id: short_id(c.id.as_str()),
                author: author_of(c),
                date: format_date(c.seconds),
                line_number: number,
                content: line.content.clone(),
                commit_message: first_line_of(message.as_str()),
            }
        },
        None => BlameInfo {
            commit_id: String::from_str(requested),
            commit_short_id: short_id(requested),
            author: String::from_str("Unknown"),
            date: String::from_str("Unknown"),
            line_number: number,
            content: line.content.clone(),
            commit_message: String::from_str("Unknown"),
        },
    }
}

/// The attributions of the lines of a file: one entry per line, in order and
/// numbered from 1, so as many entries as the file has lines. More than
/// `MAX_BLAME_LINES` lines are refused.
pub fn attribute_lines(requested: &str, lines: &Vec<SourcedLine>) -> (r: Result<
    Vec<BlameInfo>,
    QueryError,
>)
    ensures
        lines@.len() > MAX_BLAME_LINES ==> (r matches Err(QueryError::TooManyLines { lines: n }) && n
            == lines@.len()),
        lines@.len() <= MAX_BLAME_LINES ==> r is Ok && blame_views(r->Ok_0@) == blame_of(
            requested@,
            lines@,
        ) && r->Ok_0@.len() == lines@.len(),
{
    if lines.len() > MAX_BLAME_LINES {
        return Err(QueryError::TooManyLines { lines: lines.len() });
    }
    let mut out: Vec<BlameInfo> = Vec::new();
    let mut i: usize = 0;
    while i < lines.len()
        invariant
            i <= lines.len() <= MAX_BLAME_LINES,
            out@.len() == i,
            blame_views(out@) == blame_of(requested@, lines@.take(i as int)),
        decreases lines.len() - i,
    {
        let entry = attribute_line(requested, (i + 1) as u32, &lines[i]);
        proof {
            assert(blame_views(out@.push(entry)) == blame_views(out@).push(entry@));
            assert(blame_of(requested@, lines@.take(i + 1)) == blame_of(
                requested@,
                lines@.take(i as int),
            ).push(blame_entry(requested@, (i + 1) as u32, lines@[i as int])));
        }
        out.push(entry);
        i += 1;
    }
    proof {
        assert(lines@.take(lines.len() as int) == lines@);
    }
    Ok(out)
}

/// The failures of a blame query.
pub open spec fn is_blame_failure(e: QueryError, file_path: Seq<char>) -> bool {
    ||| e is RepositoryNotFound
    ||| e is InvalidCommitId
    ||| e is CommitNotFound
    ||| (e matches QueryError::FileNotFound { path, place } && path@ == file_path)
    ||| e is BinaryUnsupported
    ||| e is TooLarge
    ||| e is InvalidEncoding
    ||| e is TooManyLines
    ||| e is Store
}

/// The lines of a file with the commits that the store attributes them to:
/// one for each line, in order, with that line's content. Lines are tracked where they moved or were copied within one commit, and
/// not across commits.
pub(crate) fn source_lines(
    repo: &git2::Repository,
    oid: &git2::Oid,
    file_path: &str,
    lines: &Vec<String>,
) -> (r: Result<Vec<SourcedLine>, QueryError>)
    ensures
        r is Ok ==> r->Ok_0@.len() == lines@.len(),
        r is Ok ==> forall|i: int|
            0 <= i < lines@.len() ==> (#[trigger] r->Ok_0@[i]).content@ == lines@[i]@,
        r is Err ==> r->Err_0 is Store || r->Err_0 is CommitNotFound,
{
    let blame = match blame_path(repo, file_path, oid, true, true) {
        Ok(blame) => blame,
        Err(e) => {
            return Err(store_failure(&e));
        },
    };
    let mut out: Vec<SourcedLine> = Vec::new();
    let mut i: usize = 0;
    while i < lines.len()
        invariant
            i <= lines.len(),
            out@.len() == i,
            forall|k: int| 0 <= k < i ==> (#[trigger] out@[k]).content@ == lines@[k]@,
        decreases lines.len() - i,
    {
        let source = match blamed_commit(&blame, i + 1) {
            Some(commit) => Some(find_commit(repo, &commit)?),
            None => None,
        };
        out.push(SourcedLine { content: lines[i].clone(), source });
        i += 1;
    }
    Ok(out)
}

/// The lines are those of a file with the content `bytes`: the content is
/// valid UTF-8, and there is one line for each line of its text, in order,
/// with that line's content.
pub open spec fn are_lines_of(lines: Seq<SourcedLine>, bytes: Seq<u8>) -> bool {
    &&& valid_utf8(bytes)
    &&& lines.len() == text_lines(decode_utf8(bytes)).len()
    &&& forall|i: int|
        0 <= i < lines.len() ==> (#[trigger] lines[i]).content@ == text_lines(decode_utf8(bytes))[i]
}

/// The blame of a file as of a commit. The file must be in the commit's
/// tree, be text of at most `MAX_BLAME_BYTES` bytes in valid UTF-8, and have
/// at most `MAX_BLAME_LINES` lines; the store's line attribution is asked
/// for only then. The result has one entry per line of the file.
pub fn get_file_blame(path: String, commit_id: String, file_path: String) -> (r: Result<
    FileBlame,
    QueryError,
>)
    ensures
        !is_hex_id(commit_id@) ==> r is Err && is_id_failure(r->Err_0),
        r is Err && r->Err_0 is InvalidCommitId ==> !is_hex_id(commit_id@),
        r is Err && r->Err_0 is FileNotFound ==> is_missing(
            r->Err_0,
            file_path@,
            commit_place(commit_id@),
        ),
        r is Ok ==> r->Ok_0.path@ == file_path@,
        r is Ok ==> r->Ok_0.blame_lines@.len() <= MAX_BLAME_LINES,
        r is Ok ==> exists|data: Seq<u8>, attributed: Seq<SourcedLine>|
            #[trigger] are_lines_of(attributed, data) && is_blamed_content(data) && blame_views(
                r->Ok_0.blame_lines@,
            ) == blame_of(commit_id@, attributed),
        r is Ok ==> forall|i: int|
            0 <= i < r->Ok_0.blame_lines@.len() ==> (#[trigger] r->Ok_0.blame_lines@[i]).line_number
                == i + 1,
        r is Err ==> is_blame_failure(r->Err_0, file_path@),
{
    let repo = open(path.as_str())?;
    let oid = read_id(commit_id.as_str())?;
    let _ = find_commit(&repo, &oid)?;
    let tree = match commit_tree(&repo, &oid) {
        Ok(tree) => tree,
        Err(e) => {
            return Err(store_failure(&e));
        },
    };
    let blob = match find_path(&tree, file_path.as_str()) {
        Ok(blob) => blob,
        Err(_) => {
            return Err(missing_in_commit(file_path, commit_id.as_str()));
        },
    };
    let blob = match find_blob(&repo, &blob) {
        Ok(blob) => blob,
        Err(e) => {
            return Err(store_failure(&e));
        },
    };
    let ghost content = blob_content(blob);
    let lines = blob_lines(&blob)?;
    let sourced = source_lines(&repo, &oid, file_path.as_str(), &lines)?;
    let entries = attribute_lines(commit_id.as_str(), &sourced)?;
    proof {
        assert forall|i: int| 0 <= i < sourced@.len() implies (#[trigger] sourced@[i]).content@
            == text_lines(decode_utf8(content))[i] by {
            assert(views(lines@)[i] == lines@[i]@);
        }
        assert(are_lines_of(sourced@, content));
        assert(blame_views(entries@).len() == entries@.len());
        assert forall|i: int| 0 <= i < entries@.len() implies (#[trigger] entries@[i]).line_number
            == i + 1 by {
            assert(blame_views(entries@)[i] == entries@[i]@);
        }
    }
    Ok(FileBlame { path: file_path, blame_lines: entries })
}

} // verus!
