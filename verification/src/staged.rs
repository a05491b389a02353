//! The staged changes: what the index holds that HEAD does not.

use crate::model::{opt_view, QueryError, StagedChange, StagedChangeView};
use crate::session::{open, store_failure};
use crate::store::{read_statuses, StatusRecord};
use vstd::prelude::*;
use vstd::string::*;

verus! {

/// The label of a path's staged change: the first that applies of added,
/// modified, deleted and renamed; a change of type counts as modified. `None`
/// where nothing is staged for the path.
pub open spec fn staged_label(r: StatusRecord) -> Option<Seq<char>> {
    if r.index_new {
        Some("added"@)
    } else if r.index_modified {
        Some("modified"@)
    } else if r.index_deleted {
        Some("deleted"@)
    } else if r.index_renamed {
        Some("renamed"@)
    } else if r.index_typechange {
        Some("modified"@)
    } else {
        None
    }
}

/// The path of a record, `unknown` where it is no valid text.
pub open spec fn status_path(r: StatusRecord) -> Seq<char> {
    match r.path {
        Some(p) => p@,
        None => "unknown"@,
    }
}

/// The staged change of a record, where it has one. The former path of a
/// renamed file is not filled in.
pub open spec fn staged_of(r: StatusRecord) -> Option<StagedChangeView> {
    match staged_label(r) {
        Some(label) => Some(StagedChangeView { path: status_path(r), status: label, old_path: None }),
        None => None,
    }
}

/// The staged changes of a run of records, in its order.
pub open spec fn staged_list(records: Seq<StatusRecord>) -> Seq<StagedChangeView>
    decreases records.len(),
{
    if records.len() == 0 {
        Seq::empty()
    } else {
        let front = staged_list(records.drop_last());
        match staged_of(records.last()) {
            Some(change) => front.push(change),
            None => front,
        }
    }
}

/// The views of a run of staged changes.
pub open spec fn staged_views(changes: Seq<StagedChange>) -> Seq<StagedChangeView> {
    changes.map_values(|c: StagedChange| c@)
}

/// The view of an optional staged change.
pub open spec fn staged_view(change: Option<StagedChange>) -> Option<StagedChangeView> {
    match change {
        Some(c) => Some(c@),
        None => None,
    }
}

/// The staged change of a record, where it has one.
pub fn staged_change(record: &StatusRecord) -> (r: Option<StagedChange>)
    ensures
        staged_view(r) == staged_of(*record),
{
    let label = if record.index_new {
        "added"
    } else if record.index_modified {
        "modified"
    } else if record.index_deleted {
        "deleted"
    } else if record.index_renamed {
        "renamed"
    } else if record.index_typechange {
        "modified"
    } else {
        return None;
    };
    let path = match &record.path {
        Some(p) => p.clone(),
        None => String::from_str("unknown"),
    };
    Some(StagedChange { path, status: String::from_str(label), old_path: None })
}

/// The staged changes of a run of records: one for each record with a
/// change in the index, in the store's order.
pub fn staged_changes(records: &Vec<StatusRecord>) -> (r: Vec<StagedChange>)
    ensures
        staged_views(r@) == staged_list(records@),
{
    let mut out: Vec<StagedChange> = Vec::new();
    let mut i: usize = 0;
    proof {
        assert(staged_views(out@) == Seq::<StagedChangeView>::empty());
        assert(records@.take(0) == Seq::<StatusRecord>::empty());
    }
    while i < records.len()
        invariant
            i <= records.len(),
            staged_views(out@) == staged_list(records@.take(i as int)),
        decreases records.len() - i,
    {
        proof {
            assert(records@.take(i + 1).drop_last() == records@.take(i as int));
            assert(records@.take(i + 1).last() == records@[i as int]);
        }
        match staged_change(&records[i]) {
            Some(change) => {
                proof {
                    assert(staged_views(out@.push(change)) == staged_views(out@).push(change@));
                }
                out.push(change);
            },
            None => {},
        }
        i += 1;
    }
    proof {
        assert(records@.take(records.len() as int) == records@);
    }
    out
}

/// The staged changes of the repository at a path: those of the records
/// that the store hands out, in its order. Untracked and ignored files are
/// not looked at.
pub fn get_staged_changes(path: String) -> (r: Result<Vec<StagedChange>, QueryError>)
    ensures
        r is Ok ==> exists|records: Seq<StatusRecord>|
            staged_views(r->Ok_0@) == #[trigger] staged_list(records),
        r is Err ==> r->Err_0 is RepositoryNotFound || r->Err_0 is Store,
{
    let repo = open(path.as_str())?;
    match read_statuses(&repo, false, false) {
        Ok(records) => Ok(staged_changes(&records)),
        Err(e) => Err(store_failure(&e)),
    }
}

} // verus!
