//! The content of one file as of a commit.

use crate::log::{short_id, short_id_of};
use crate::model::QueryError;
use crate::session::{
    commit_place, find_commit, is_missing, missing_in_commit, open, read_id, store_failure,
};
use crate::diff::is_id_failure;
use crate::store::{
    binary_mark, blob_bytes, blob_content, blob_is_binary, blob_size, commit_tree, find_blob,
    find_path, is_hex_id, BlobHeader,
};
use crate::text::decode_text;
use vstd::prelude::*;
use vstd::string::*;
use vstd::utf8::{decode_utf8, valid_utf8};

verus! {

/// The largest file, in bytes, whose content is shown.
pub const MAX_FILE_BYTES: usize = 1_048_576;

/// Whether a size is over a limit; none is where there is no limit.
pub open spec fn over_limit(size: nat, limit: Option<usize>) -> bool {
    match limit {
        Some(max) => size > max,
        None => false,
    }
}

/// The guards on what the store says of a blob before its content is read:
/// a binary file is refused, then one over the limit.
pub fn check_header(header: &BlobHeader, limit: Option<usize>) -> (r: Result<(), QueryError>)
    ensures
        header.is_binary ==> r is Err && r->Err_0 is BinaryUnsupported,
        !header.is_binary && over_limit(header.size as nat, limit) ==> (r matches Err(
            QueryError::TooLarge { size },
        ) && size == header.size),
        !header.is_binary && !over_limit(header.size as nat, limit) ==> r is Ok,
{
    if header.is_binary {
        return Err(QueryError::BinaryUnsupported);
    }
    match limit {
        Some(max) => {
            if header.size > max {
                return Err(QueryError::TooLarge { size: header.size });
            }
        },
        None => {},
    }
    Ok(())
}

/// The text that a file's bytes hold: content that is no valid UTF-8 is
/// refused.
pub fn decode_content(bytes: Vec<u8>) -> (r: Result<String, QueryError>)
    ensures
        valid_utf8(bytes@) ==> r is Ok && r->Ok_0@ == decode_utf8(bytes@),
        !valid_utf8(bytes@) ==> r is Err && r->Err_0 is InvalidEncoding,
{
    match decode_text(bytes) {
        Some(text) => Ok(text),
        None => Err(QueryError::InvalidEncoding),
    }
}

/// The text of a blob at hand: a binary blob is refused, then one over the
/// limit, then one whose bytes are no valid UTF-8; of any other the result is
/// the text that its bytes hold.
pub(crate) fn blob_text(blob: &git2::Blob<'_>, limit: Option<usize>) -> (r: Result<
    String,
    QueryError,
>)
    ensures
        binary_mark(blob_content(*blob)) ==> r is Err && r->Err_0 is BinaryUnsupported,
        !binary_mark(blob_content(*blob)) && over_limit(blob_content(*blob).len(), limit) ==> (
        r matches Err(QueryError::TooLarge { size }) && size == blob_content(*blob).len()),
        !binary_mark(blob_content(*blob)) && !over_limit(blob_content(*blob).len(), limit)
            && !valid_utf8(blob_content(*blob)) ==> r is Err && r->Err_0 is InvalidEncoding,
        is_shown_content(blob_content(*blob), limit) <==> r is Ok,
        r is Ok ==> r->Ok_0@ == decode_utf8(blob_content(*blob)),
{
    let header = BlobHeader { is_binary: blob_is_binary(blob), size: blob_size(blob) };
    check_header(&header, limit)?;
    decode_content(blob_bytes(blob))
}

/// The name of the temporary file under which a file of a commit is handed
/// to an editor: `git_viewer_`, the short id of the commit, `_`, and the
/// file's name.
pub open spec fn editor_name(commit_id: Seq<char>, file_name: Seq<char>) -> Seq<char> {
    "git_viewer_"@ + short_id_of(commit_id) + "_"@ + file_name
}

/// The name of the temporary file for an editor.
pub fn editor_file_name(commit_id: &str, file_name: &str) -> (r: String)
    ensures
        r@ == editor_name(commit_id@, file_name@),
{
    let short = short_id(commit_id);
    String::from_str("git_viewer_").concat(short.as_str()).concat("_").concat(file_name)
}

/// The failures of a query for the content of a file.
pub open spec fn is_content_failure(e: QueryError, file_path: Seq<char>) -> bool {
    ||| e is RepositoryNotFound
    ||| e is InvalidCommitId
    ||| e is CommitNotFound
    ||| (e matches QueryError::FileNotFound { path, place } && path@ == file_path)
    ||| e is BinaryUnsupported
    ||| e is TooLarge
    ||| e is InvalidEncoding
    ||| e is Store
}

/// Content that is shown: the store takes it for text, it is within the
/// limit where one is given, and it is valid UTF-8.
pub open spec fn is_shown_content(bytes: Seq<u8>, limit: Option<usize>) -> bool {
    &&& !binary_mark(bytes)
    &&& !over_limit(bytes.len(), limit)
    &&& valid_utf8(bytes)
}

/// The content of a file as of a commit, as text. The file must be in the
/// commit's tree, be no binary file, be no larger than the limit where one
/// is given, and hold valid UTF-8.
pub fn read_file(path: String, commit_id: String, file_path: String, limit: Option<usize>) -> (r:
    Result<String, QueryError>)
    ensures
        !is_hex_id(commit_id@) ==> r is Err && is_id_failure(r->Err_0),
        r is Err && r->Err_0 is InvalidCommitId ==> !is_hex_id(commit_id@),
        r is Err && r->Err_0 is FileNotFound ==> is_missing(
            r->Err_0,
            file_path@,
            commit_place(commit_id@),
        ),
        r is Ok ==> exists|data: Seq<u8>|
            #[trigger] is_shown_content(data, limit) && r->Ok_0@ == decode_utf8(data),
        r is Err ==> is_content_failure(r->Err_0, file_path@),
        r is Err && limit is None ==> !(r->Err_0 is TooLarge),
{
    let repo = open(path.as_str())?;
    let oid = read_id(commit_id.as_str())?;
    let _ = find_commit(&repo, &oid)?;
    let tree = match commit_tree(&repo, &oid) {
        Ok(tree) => tree,
        Err(e) => {
            return Err(store_failure(&e));
        },
    };
    let blob = match find_path(&tree, file_path.as_str()) {
        Ok(blob) => blob,
        Err(_) => {
            return Err(missing_in_commit(file_path, commit_id.as_str()));
        },
    };
    let blob = match find_blob(&repo, &blob) {
        Ok(blob) => blob,
        Err(e) => {
            return Err(store_failure(&e));
        },
    };
    blob_text(&blob, limit)
}

/// The content of a file as of a commit, for display: a file of more than
/// `MAX_FILE_BYTES` bytes is refused.
pub fn get_file_content(path: String, commit_id: String, file_path: String) -> (r: Result<
    String,
    QueryError,
>)
    ensures
        !is_hex_id(commit_id@) ==> r is Err && is_id_failure(r->Err_0),
        r is Err && r->Err_0 is InvalidCommitId ==> !is_hex_id(commit_id@),
        r is Err && r->Err_0 is FileNotFound ==> is_missing(
            r->Err_0,
            file_path@,
            commit_place(commit_id@),
        ),
        r is Ok ==> exists|data: Seq<u8>|
            #[trigger] is_shown_content(data, Some(MAX_FILE_BYTES)) && r->Ok_0@ == decode_utf8(
                data,
            ),
        r is Err ==> is_content_failure(r->Err_0, file_path@),
{
    read_file(path, commit_id, file_path, Some(MAX_FILE_BYTES))
}

} // verus!
