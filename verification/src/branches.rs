//! The listing of local branches, newest first, and of the remotes.

use crate::model::{opt_view, GitBranch, GitBranchView, GitRemote, GitRemoteView, QueryError};
use crate::session::{open, store_failure};
use crate::store::{
    discover_repository, error_text, head_commit, local_branches, oid_text, read_branch,
    read_remote, remote_names, BranchRecord, RemoteRecord,
};
use vstd::prelude::*;
use vstd::string::*;

verus! {

/// The time of a branch's last commit: 0 where its tip leads to no commit.
pub open spec fn tip_time(tip_seconds: Option<i64>) -> i64 {
    match tip_seconds {
        Some(t) => t,
        None => 0,
    }
}

/// How many records the store marks as the branch that HEAD points at.
pub open spec fn head_count(records: Seq<BranchRecord>) -> nat
    decreases records.len(),
{
    if records.len() == 0 {
        0
    } else {
        head_count(records.drop_last()) + if records.last().is_head {
            1nat
        } else {
            0nat
        }
    }
}

/// A branch is current where the store marks it as the one that HEAD points
/// at, no record before it is marked so, and its tip is the commit that HEAD
/// resolved to, or neither resolved.
pub open spec fn marks_current(
    records: Seq<BranchRecord>,
    head: Option<Seq<char>>,
    at: int,
) -> bool {
    &&& records[at].is_head
    &&& head_count(records.take(at)) == 0
    &&& opt_view(records[at].tip_id) == head
}

/// The branches of a run of records, in its order: one for each record
/// whose name is valid text. `head` is the id of the commit that HEAD
/// resolved to. There is never more than one current branch.
pub open spec fn named_branches(records: Seq<BranchRecord>, head: Option<Seq<char>>) -> Seq<
    GitBranchView,
>
    decreases records.len(),
{
    if records.len() == 0 {
        Seq::empty()
    } else {
        let front = named_branches(records.drop_last(), head);
        let r = records.last();
        match r.name {
            Some(name) => front.push(
                GitBranchView {
                    name: name@,
                    is_current: r.is_head && head_count(records.drop_last()) == 0 && opt_view(
                        r.tip_id,
                    ) == head,
                    last_commit_date: tip_time(r.tip_seconds),
                },
            ),
            None => front,
        }
    }
}

/// Where a branch goes into a run sorted newest first: behind the last
/// branch that is not older.
pub open spec fn date_point(sorted: Seq<GitBranchView>, item: GitBranchView) -> int
    decreases sorted.len(),
{
    if sorted.len() == 0 {
        0
    } else if sorted.last().last_commit_date >= item.last_commit_date {
        sorted.len() as int
    } else {
        date_point(sorted.drop_last(), item)
    }
}

/// The branches newest first; branches of one date keep the order in which
/// they came.
pub open spec fn newest_first(items: Seq<GitBranchView>) -> Seq<GitBranchView>
    decreases items.len(),
{
    if items.len() == 0 {
        items
    } else {
        let rest = newest_first(items.drop_last());
        rest.insert(date_point(rest, items.last()), items.last())
    }
}

/// No branch stands before a newer one.
pub open spec fn date_sorted(items: Seq<GitBranchView>) -> bool {
    forall|i: int, j: int|
        0 <= i < j < items.len() ==> items[i].last_commit_date >= items[j].last_commit_date
}

/// The listing of the branches that the store holds.
pub open spec fn branches_of(records: Seq<BranchRecord>, head: Option<Seq<char>>) -> Seq<
    GitBranchView,
> {
    newest_first(named_branches(records, head))
}

/// The views of a run of branches.
pub open spec fn branch_views(branches: Seq<GitBranch>) -> Seq<GitBranchView> {
    branches.map_values(|b: GitBranch| b@)
}

/// How many branches of a listing are marked as the current one.
pub open spec fn current_count(items: Seq<GitBranchView>) -> nat
    decreases items.len(),
{
    if items.len() == 0 {
        0
    } else {
        current_count(items.drop_last()) + if items.last().is_current {
            1nat
        } else {
            0nat
        }
    }
}

/// Before the insert point no branch is older than the new one; from it on
/// every branch is.
pub proof fn lemma_date_point(sorted: Seq<GitBranchView>, item: GitBranchView)
    requires
        date_sorted(sorted),
    ensures
        0 <= date_point(sorted, item) <= sorted.len(),
        forall|j: int|
            0 <= j < date_point(sorted, item) ==> (#[trigger] sorted[j]).last_commit_date
                >= item.last_commit_date,
        forall|j: int|
            date_point(sorted, item) <= j < sorted.len() ==> (#[trigger] sorted[j]).last_commit_date
                < item.last_commit_date,
    decreases sorted.len(),
{
    if sorted.len() > 0 {
        if sorted.last().last_commit_date >= item.last_commit_date {
        } else {
            let front = sorted.drop_last();
            assert forall|i: int, j: int| 0 <= i < j < front.len() implies front[i].last_commit_date
                >= front[j].last_commit_date by {
                assert(front[i] == sorted[i] && front[j] == sorted[j]);
            }
            lemma_date_point(front, item);
            assert forall|j: int| date_point(sorted, item) <= j < sorted.len() implies (
            #[trigger] sorted[j]).last_commit_date < item.last_commit_date by {
                if j < sorted.len() - 1 {
                    assert(sorted[j] == front[j]);
                }
            }
            assert forall|j: int| 0 <= j < date_point(sorted, item) implies (
            #[trigger] sorted[j]).last_commit_date >= item.last_commit_date by {
                assert(sorted[j] == front[j]);
            }
        }
    }
}

/// Putting a branch into a run marks as many as current as before, and one
/// more where the new branch is.
pub proof fn lemma_current_count_insert(items: Seq<GitBranchView>, at: int, item: GitBranchView)
    requires
        0 <= at <= items.len(),
    ensures
        current_count(items.insert(at, item)) == current_count(items) + if item.is_current {
            1nat
        } else {
            0nat
        },
    decreases items.len(),
{
    let out = items.insert(at, item);
    if at == items.len() {
        assert(out.drop_last() == items);
    } else {
        assert(out.drop_last() == items.drop_last().insert(at, item));
        assert(out.last() == items.last());
        lemma_current_count_insert(items.drop_last(), at, item);
    }
}

/// A listing is sorted newest first, has one entry for each named record,
/// and marks at most one branch as current, and none where the store marks
/// none.
pub proof fn lemma_branches_of(records: Seq<BranchRecord>, head: Option<Seq<char>>)
    ensures
        date_sorted(branches_of(records, head)),
        branches_of(records, head).len() == named_branches(records, head).len(),
        branches_of(records, head).len() <= records.len(),
        current_count(branches_of(records, head)) == current_count(named_branches(records, head)),
        current_count(branches_of(records, head)) <= 1,
        current_count(branches_of(records, head)) <= head_count(records),
{
    lemma_named_branches(records, head);
    lemma_newest_first(named_branches(records, head));
}

/// A listing marks at most one branch as current, whatever the store holds.
pub proof fn lemma_at_most_one_current(records: Seq<BranchRecord>, head: Option<Seq<char>>)
    ensures
        current_count(branches_of(records, head)) <= 1,
{
    lemma_branches_of(records, head);
}

/// The named branches are no more than the records, and mark at most one
/// as current, and none where the store marks none.
pub proof fn lemma_named_branches(records: Seq<BranchRecord>, head: Option<Seq<char>>)
    ensures
        named_branches(records, head).len() <= records.len(),
        current_count(named_branches(records, head)) <= 1,
        current_count(named_branches(records, head)) <= head_count(records),
    decreases records.len(),
{
    if records.len() > 0 {
        lemma_named_branches(records.drop_last(), head);
        let front = named_branches(records.drop_last(), head);
        if records.last().name is Some {
            assert(named_branches(records, head).drop_last() == front);
        }
    }
}

/// Sorting keeps the entries: as many, as many marked current, newest first.
pub proof fn lemma_newest_first(items: Seq<GitBranchView>)
    ensures
        date_sorted(newest_first(items)),
        newest_first(items).len() == items.len(),
        current_count(newest_first(items)) == current_count(items),
    decreases items.len(),
{
    if items.len() > 0 {
        lemma_newest_first(items.drop_last());
        let rest = newest_first(items.drop_last());
        let item = items.last();
        lemma_date_point(rest, item);
        let p = date_point(rest, item);
        lemma_current_count_insert(rest, p, item);
        let out = rest.insert(p, item);
        assert forall|i: int, j: int| 0 <= i < j < out.len() implies out[i].last_commit_date
            >= out[j].last_commit_date by {
            if j < p {
                assert(out[i] == rest[i] && out[j] == rest[j]);
            } else if j == p {
                assert(out[i] == rest[i]);
            } else if i == p {
                assert(out[j] == rest[j - 1]);
            } else if i < p {
                assert(out[i] == rest[i] && out[j] == rest[j - 1]);
            } else {
                assert(out[i] == rest[i - 1] && out[j] == rest[j - 1]);
            }
        }
    }
}

/// Sorting adds no entry: every entry of the sorted run is one of the run.
pub proof fn lemma_newest_first_keeps(items: Seq<GitBranchView>, k: int)
    requires
        0 <= k < newest_first(items).len(),
    ensures
        exists|j: int| 0 <= j < items.len() && newest_first(items)[k] == #[trigger] items[j],
    decreases items.len(),
{
    lemma_newest_first(items);
    if items.len() > 0 {
        let front = items.drop_last();
        let rest = newest_first(front);
        let item = items.last();
        lemma_newest_first(front);
        lemma_date_point(rest, item);
        let p = date_point(rest, item);
        if k == p {
            assert(newest_first(items)[k] == items[items.len() - 1]);
        } else {
            let before = if k < p {
                k
            } else {
                k - 1
            };
            lemma_newest_first_keeps(front, before);
            let j = choose|j: int| 0 <= j < front.len() && rest[before] == #[trigger] front[j];
            assert(newest_first(items)[k] == items[j]);
        }
    }
}

/// A current entry among the named branches stems from a record that marks
/// it so.
pub proof fn lemma_named_current(records: Seq<BranchRecord>, head: Option<Seq<char>>, k: int)
    requires
        0 <= k < named_branches(records, head).len(),
        named_branches(records, head)[k].is_current,
    ensures
        exists|i: int|
            0 <= i < records.len() && marks_current(records, head, i) && opt_view(
                (#[trigger] records[i]).name,
            ) == Some(named_branches(records, head)[k].name),
    decreases records.len(),
{
    let front = records.drop_last();
    let before = named_branches(front, head);
    if k < before.len() {
        lemma_named_current(front, head, k);
        let i = choose|i: int|
            0 <= i < front.len() && marks_current(front, head, i) && opt_view(
                (#[trigger] front[i]).name,
            ) == Some(before[k].name);
        assert(front.take(i) == records.take(i));
        assert(records[i] == front[i]);
        assert(marks_current(records, head, i));
    } else {
        let i = records.len() - 1;
        assert(records.take(i) == front);
        assert(marks_current(records, head, i));
        assert(records[i] == records.last());
    }
}

/// The current branch is HEAD's: an entry of a listing that is marked
/// current stems from a record that the store marks as the branch that HEAD
/// points at, the first such, whose tip is the commit that HEAD resolved
/// to.
pub proof fn lemma_current_is_head(records: Seq<BranchRecord>, head: Option<Seq<char>>, k: int)
    requires
        0 <= k < branches_of(records, head).len(),
        branches_of(records, head)[k].is_current,
    ensures
        exists|i: int|
            0 <= i < records.len() && marks_current(records, head, i) && opt_view(
                (#[trigger] records[i]).name,
            ) == Some(branches_of(records, head)[k].name),
{
    let named = named_branches(records, head);
    lemma_newest_first_keeps(named, k);
    let j = choose|j: int| 0 <= j < named.len() && newest_first(named)[k] == #[trigger] named[j];
    lemma_named_current(records, head, j);
}

/// The branches newest first.
pub fn sort_branches(branches: Vec<GitBranch>) -> (r: Vec<GitBranch>)
    ensures
        branch_views(r@) == newest_first(branch_views(branches@)),
        r@.len() == branches@.len(),
{
    let ghost given = branch_views(branches@);
    let mut input = branches;
    let mut out: Vec<GitBranch> = Vec::new();
    let ghost mut taken: int = 0;
    proof {
        assert(branch_views(out@) == Seq::<GitBranchView>::empty());
        assert(given.take(0) == Seq::<GitBranchView>::empty());
        assert(given.skip(0) == given);
    }
    while input.len() > 0
        invariant
            0 <= taken,
            taken + input@.len() == given.len(),
            branch_views(input@) == given.skip(taken),
            branch_views(out@) == newest_first(given.take(taken)),
            out@.len() == taken,
        decreases input@.len(),
    {
        let ghost before = input@;
        let item = input.remove(0);
        proof {
            assert(branch_views(before)[0] == item@);
            assert(given.take(taken + 1).drop_last() == given.take(taken));
            assert(given.take(taken + 1).last() == item@);
            assert(branch_views(input@) == given.skip(taken + 1)) by {
                assert forall|k: int| 0 <= k < input@.len() implies branch_views(input@)[k]
                    == given.skip(taken + 1)[k] by {
                    assert(input@[k] == before[k + 1]);
                    assert(branch_views(before)[k + 1] == before[k + 1]@);
                }
            }
            assert(branch_views(out@).take(out@.len() as int) == branch_views(out@));
        }
        let mut at: usize = out.len();
        while at > 0 && out[at - 1].last_commit_date < item.last_commit_date
            invariant
                at <= out@.len(),
                date_point(branch_views(out@), item@) == date_point(
                    branch_views(out@).take(at as int),
                    item@,
                ),
            decreases at,
        {
            proof {
                assert(branch_views(out@).take(at as int).drop_last() == branch_views(out@).take(
                    at - 1,
                ));
                assert(branch_views(out@).take(at as int).last() == out@[at - 1]@);
            }
            at -= 1;
        }
        proof {
            assert(at == date_point(branch_views(out@), item@)) by {
                if at > 0 {
                    assert(branch_views(out@).take(at as int).last() == out@[at - 1]@);
                }
            }
            assert(branch_views(out@.insert(at as int, item)) == branch_views(out@).insert(
                at as int,
                item@,
            ));
            taken = taken + 1;
        }
        out.insert(at, item);
    }
    proof {
        assert(given.take(given.len() as int) == given);
    }
    out
}

/// Whether two texts that may be absent are the same.
pub fn same_text(a: &Option<String>, b: &Option<String>) -> (r: bool)
    ensures
        r == (opt_view(*a) == opt_view(*b)),
{
    match (a, b) {
        (Some(x), Some(y)) => *x == *y,
        (None, None) => true,
        _ => false,
    }
}

/// The listing of the branches in a run of records: one branch for each
/// record with a name, newest first, branches of one date in the store's
/// order. A branch is current where the store marks its record so, as the
/// first, and its tip is the commit that HEAD resolved to.
pub fn list_branches(records: &Vec<BranchRecord>, head: &Option<String>) -> (r: Vec<GitBranch>)
    ensures
        branch_views(r@) == branches_of(records@, opt_view(*head)),
        date_sorted(branch_views(r@)),
        current_count(branch_views(r@)) <= 1,
        current_count(branch_views(r@)) <= head_count(records@),
{
    let mut named: Vec<GitBranch> = Vec::new();
    let mut marked = false;
    let mut i: usize = 0;
    proof {
        assert(branch_views(named@) == Seq::<GitBranchView>::empty());
        assert(records@.take(0) == Seq::<BranchRecord>::empty());
    }
    while i < records.len()
        invariant
            i <= records.len(),
            branch_views(named@) == named_branches(records@.take(i as int), opt_view(*head)),
            marked == (head_count(records@.take(i as int)) > 0),
        decreases records.len() - i,
    {
        proof {
            assert(records@.take(i + 1).drop_last() == records@.take(i as int));
            assert(records@.take(i + 1).last() == records@[i as int]);
        }
        match &records[i].name {
            Some(name) => {
                let branch = GitBranch {
                    name: name.clone(),
                    is_current: records[i].is_head && !marked && same_text(
                        &records[i].tip_id,
                        head,
                    ),
                    last_commit_date: match records[i].tip_seconds {
                        Some(t) => t,
                        None => 0,
                    },
                };
                proof {
                    assert(branch_views(named@.push(branch)) == branch_views(named@).push(branch@));
                }
                named.push(branch);
            },
            None => {},
        }
        if records[i].is_head {
            marked = true;
        }
        i += 1;
    }
    proof {
        assert(records@.take(records.len() as int) == records@);
        lemma_branches_of(records@, opt_view(*head));
    }
    sort_branches(named)
}

/// The addresses of one remote: the one to fetch from, where it is valid
/// text, then the one to push to, where one is set that differs from it.
pub open spec fn remotes_of(name: Seq<char>, record: RemoteRecord) -> Seq<GitRemoteView> {
    let fetch = match record.url {
        Some(url) => seq![GitRemoteView { name, url: url@, is_push: false }],
        None => Seq::empty(),
    };
    let fetch_text = match record.url {
        Some(url) => url@,
        None => Seq::empty(),
    };
    let push = match record.push_url {
        Some(url) => if url@ != fetch_text {
            seq![GitRemoteView { name: name + " (push)"@, url: url@, is_push: true }]
        } else {
            Seq::empty()
        },
        None => Seq::empty(),
    };
    fetch + push
}

/// The views of a run of remote addresses.
pub open spec fn remote_views(remotes: Seq<GitRemote>) -> Seq<GitRemoteView> {
    remotes.map_values(|r: GitRemote| r@)
}

/// Puts the addresses of one remote behind the others.
pub fn push_remote(name: &str, record: &RemoteRecord, remotes: &mut Vec<GitRemote>)
    ensures
        remote_views(final(remotes)@) == remote_views(old(remotes)@) + remotes_of(name@, *record),
{
    let ghost before = remote_views(remotes@);
    let fetch_text = match &record.url {
        Some(url) => {
            let entry = GitRemote { name: String::from_str(name), url: url.clone(), is_push: false };
            proof {
                assert(remote_views(remotes@.push(entry)) == before.push(entry@));
            }
            remotes.push(entry);
            url.clone()
        },
        None => {
            proof {
                assert(before + Seq::<GitRemoteView>::empty() == before);
            }
            String::new()
        },
    };
    let ghost middle = remote_views(remotes@);
    match &record.push_url {
        Some(url) => {
            if *url != fetch_text {
                let entry = GitRemote {
                    name: String::from_str(name).concat(" (push)"),
                    url: url.clone(),
                    is_push: true,
                };
                proof {
                    assert(remote_views(remotes@.push(entry)) == middle.push(entry@));
                }
                remotes.push(entry);
            }
        },
        None => {},
    }
    proof {
        assert(remote_views(remotes@) =~= before + remotes_of(name@, *record));
    }
}

/// The branches that a repository's store lists. A branch that the store
/// cannot hand out is left out.
pub(crate) fn read_branches(repo: &git2::Repository) -> (r: Result<Vec<GitBranch>, QueryError>)
    ensures
        r is Ok ==> exists|records: Seq<BranchRecord>, head: Option<Seq<char>>|
            branch_views(r->Ok_0@) == #[trigger] branches_of(records, head),
        r is Ok ==> date_sorted(branch_views(r->Ok_0@)),
        r is Ok ==> current_count(branch_views(r->Ok_0@)) <= 1,
        r is Err ==> r->Err_0 is Store,
{
    let handles = match local_branches(repo) {
        Ok(handles) => handles,
        Err(e) => {
            return Err(store_failure(&e));
        },
    };
    let mut records: Vec<BranchRecord> = Vec::new();
    let mut i: usize = 0;
    while i < handles.len()
        invariant
            i <= handles.len(),
        decreases handles.len() - i,
    {
        match read_branch(&handles[i]) {
            Ok(record) => records.push(record),
            Err(_) => {},
        }
        i += 1;
    }
    let head = match head_commit(repo) {
        Ok(commit) => Some(oid_text(&commit)),
        Err(_) => None,
    };
    Ok(list_branches(&records, &head))
}

/// The local branches of the repository at a path, newest first.
pub fn get_git_branches_from_path(path: String) -> (r: Result<Vec<GitBranch>, QueryError>)
    ensures
        r is Ok ==> exists|records: Seq<BranchRecord>, head: Option<Seq<char>>|
            branch_views(r->Ok_0@) == #[trigger] branches_of(records, head),
        r is Ok ==> date_sorted(branch_views(r->Ok_0@)),
        r is Ok ==> current_count(branch_views(r->Ok_0@)) <= 1,
        r is Err ==> r->Err_0 is RepositoryNotFound || r->Err_0 is Store,
{
    let repo = open(path.as_str())?;
    read_branches(&repo)
}

/// The local branches of the repository that holds a directory, searched
/// upwards from it, newest first.
pub fn get_git_branches(current_dir: String) -> (r: Result<Vec<GitBranch>, QueryError>)
    ensures
        r is Ok ==> exists|records: Seq<BranchRecord>, head: Option<Seq<char>>|
            branch_views(r->Ok_0@) == #[trigger] branches_of(records, head),
        r is Ok ==> date_sorted(branch_views(r->Ok_0@)),
        r is Ok ==> current_count(branch_views(r->Ok_0@)) <= 1,
        r is Err ==> r->Err_0 is RepositoryNotFound || r->Err_0 is Store,
{
    let repo = match discover_repository(current_dir.as_str()) {
        Ok(repo) => repo,
        Err(e) => {
            return Err(QueryError::RepositoryNotFound { message: error_text(&e) });
        },
    };
    read_branches(&repo)
}

/// The addresses of a run of remotes, each with its name, in the run's
/// order.
pub open spec fn remote_list(entries: Seq<(Seq<char>, RemoteRecord)>) -> Seq<GitRemoteView>
    decreases entries.len(),
{
    if entries.len() == 0 {
        Seq::empty()
    } else {
        remote_list(entries.drop_last()) + remotes_of(entries.last().0, entries.last().1)
    }
}

/// The remotes of the repository at a path, in the store's order: for each
/// its address to fetch from, then its address to push to where that is
/// another. A remote whose name is no valid text, or that the store cannot
/// hand out, is left out: the result is the addresses of the remotes that
/// the store handed out.
pub fn get_git_remotes_from_path(path: String) -> (r: Result<Vec<GitRemote>, QueryError>)
    ensures
        r is Ok ==> exists|entries: Seq<(Seq<char>, RemoteRecord)>|
            remote_views(r->Ok_0@) == #[trigger] remote_list(entries),
        r is Err ==> r->Err_0 is RepositoryNotFound || r->Err_0 is Store,
{
    let repo = open(path.as_str())?;
    let names = match remote_names(&repo) {
        Ok(names) => names,
        Err(e) => {
            return Err(store_failure(&e));
        },
    };
    let mut remotes: Vec<GitRemote> = Vec::new();
    let ghost mut entries: Seq<(Seq<char>, RemoteRecord)> = Seq::empty();
    let mut i: usize = 0;
    proof {
        assert(remote_views(remotes@) == Seq::<GitRemoteView>::empty());
    }
    while i < names.len()
        invariant
            i <= names.len(),
            remote_views(remotes@) == remote_list(entries),
        decreases names.len() - i,
    {
        match &names[i] {
            Some(name) => {
                match read_remote(&repo, name.as_str()) {
                    Ok(record) => {
                        push_remote(name.as_str(), &record, &mut remotes);
                        proof {
                            assert(entries.push((name@, record)).drop_last() == entries);
                            entries = entries.push((name@, record));
                        }
                    },
                    Err(_) => {},
                }
            },
            None => {},
        }
        i += 1;
    }
    Ok(remotes)
}

} // verus!
