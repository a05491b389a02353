//! The reference resolver: from an optional branch name to the commit at
//! which a walk starts.

use crate::model::QueryError;
use crate::store::{branch_tip, head_commit};
use vstd::string::*;
use vstd::prelude::*;

verus! {

/// The resolution order: the named branch's tip where it resolves, else what
/// HEAD resolves to.
pub open spec fn first_resolved<T>(named: Option<T>, head: Option<T>) -> Option<T> {
    match named {
        Some(tip) => Some(tip),
        None => head,
    }
}

/// Which of two resolutions counts: the named branch comes first, HEAD
/// second, and there is none only where neither resolved.
pub fn pick_start<T>(named: Option<T>, head: Option<T>) -> (r: Option<T>)
    ensures
        r == first_resolved(named, head),
        r is None <==> named is None && head is None,
{
    match named {
        Some(tip) => Some(tip),
        None => head,
    }
}

/// The words of the failure where nothing resolves. They name the branch
/// that was asked for, where one was.
pub open spec fn unresolved_text(branch_name: Option<Seq<char>>) -> Seq<char> {
    match branch_name {
        Some(name) => "Neither branch '"@ + name + "' nor HEAD leads to a commit"@,
        None => "HEAD leads to no commit"@,
    }
}

/// A name that may be absent, as a plain value.
pub open spec fn name_text(branch_name: Option<&str>) -> Option<Seq<char>> {
    match branch_name {
        Some(name) => Some(name@),
        None => None,
    }
}

/// The commit at which a walk starts, from what the store resolved: the tip
/// of the named branch where that resolved, else the commit of HEAD,
/// attached or detached. The call fails exactly where neither resolved, and
/// the failure names the branch.
pub fn resolve_start<T>(branch_name: Option<&str>, named: Option<T>, head: Option<T>) -> (r: Result<
    T,
    QueryError,
>)
    ensures
        r is Ok <==> named is Some || head is Some,
        r matches Ok(start) ==> Some(start) == first_resolved(named, head),
        r is Err ==> (r matches Err(QueryError::RefNotFound { message }) && message@
            == unresolved_text(name_text(branch_name))),
{
    match pick_start(named, head) {
        Some(start) => Ok(start),
        None => {
            let message = match branch_name {
                Some(name) => String::from_str("Neither branch '").concat(name).concat(
                    "' nor HEAD leads to a commit",
                ),
                None => String::from_str("HEAD leads to no commit"),
            };
            Err(QueryError::RefNotFound { message })
        },
    }
}

/// The tip of the named local branch, where a name is given and the store
/// finds a commit for it.
pub(crate) fn named_tip(repo: &git2::Repository, branch_name: Option<&str>) -> (r: Option<git2::Oid>)
    ensures
        branch_name is None ==> r is None,
{
    match branch_name {
        Some(name) => match branch_tip(repo, name) {
            Some(Ok(tip)) => Some(tip),
            _ => None,
        },
        None => None,
    }
}

/// The commit of HEAD, where the store finds one.
pub(crate) fn head_tip(repo: &git2::Repository) -> (r: Option<git2::Oid>) {
    match head_commit(repo) {
        Ok(commit) => Some(commit),
        Err(_) => None,
    }
}

} // verus!
