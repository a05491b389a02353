use git_viewer::blame::get_file_blame;
use git_viewer::branches::{get_git_branches, get_git_branches_from_path, get_git_remotes_from_path};
use git_viewer::content::{get_file_content, read_file};
use git_viewer::diff::{get_commit_changes, get_file_diff, get_staged_file_diff};
use git_viewer::log::get_commits_from_path;
use git_viewer::model::QueryError;
use git_viewer::search::global_search;
use git_viewer::staged::get_staged_changes;
use git_viewer::stash::{get_stash_diff, get_stash_file_diff, get_stashes};
use git_viewer::tree::get_commit_file_tree;
use std::io::Write;
use tempfile::TempDir;

fn signature(seconds: i64) -> git2::Signature<'static> {
    git2::Signature::new("Test User", "test@example.com", &git2::Time::new(seconds, 0))
        .expect("Failed to make signature")
}

fn next_time(repo: &git2::Repository) -> i64 {
    match repo.head().ok().and_then(|h| h.peel_to_commit().ok()) {
        Some(commit) => commit.time().seconds() + 60,
        None => 1_700_000_000,
    }
}

fn commit_bytes(repo: &git2::Repository, name: &str, content: &[u8], message: &str) -> git2::Oid {
    let blob = repo.blob(content).expect("Failed to write blob");
    let parent = repo.head().ok().and_then(|h| h.peel_to_commit().ok());
    let base = parent.as_ref().map(|c| c.tree().expect("Failed to read tree"));
    let mut builder = repo.treebuilder(base.as_ref()).expect("Failed to build tree");
    builder.insert(name, blob, 0o100644).expect("Failed to insert entry");
    let tree = repo.find_tree(builder.write().expect("Failed to write tree")).expect("no tree");
    let sig = signature(next_time(repo));
    let parents: Vec<&git2::Commit> = parent.iter().collect();
    repo.commit(Some("HEAD"), &sig, &sig, message, &tree, &parents).expect("Failed to commit")
}

fn commit_file(repo: &git2::Repository, name: &str, content: &str, message: &str) -> git2::Oid {
    commit_bytes(repo, name, content.as_bytes(), message)
}

fn create_test_git_repo() -> TempDir {
    let temp_dir = TempDir::new().expect("Failed to create temp directory");
    let mut options = git2::RepositoryInitOptions::new();
    options.initial_head("main");
    let repo = git2::Repository::init_opts(temp_dir.path(), &options).expect("Failed to init");
    commit_file(&repo, "README.md", "# Test Repo", "Initial commit");
    temp_dir
}

fn open(dir: &TempDir) -> git2::Repository {
    git2::Repository::open(dir.path()).expect("Failed to open test repo")
}

fn path_of(dir: &TempDir) -> String {
    dir.path().to_string_lossy().to_string()
}

fn write_work_file(dir: &TempDir, name: &str, content: &str) {
    let mut file = tempfile::NamedTempFile::new_in(dir.path()).expect("Failed to create file");
    file.write_all(content.as_bytes()).expect("Failed to write file");
    file.persist(dir.path().join(name)).expect("Failed to place file");
}

#[test]
fn test_get_git_branches_from_path_main_branch() {
    let temp_repo = create_test_git_repo();
    let repo_path = path_of(&temp_repo);

    let result = get_git_branches_from_path(repo_path);
    assert!(result.is_ok());

    let branches = result.unwrap();
    assert_eq!(branches.len(), 1);
    assert_eq!(branches[0].name, "main");
    assert!(branches[0].is_current);
}

#[test]
fn test_get_git_branches_from_path_multiple_branches() {
    let temp_repo = create_test_git_repo();
    {
        let repo = open(&temp_repo);
        let head = repo.head().unwrap().peel_to_commit().unwrap();
        repo.branch("feature-branch", &head, false).expect("Failed to create feature branch");
    }

    let result = get_git_branches_from_path(path_of(&temp_repo));
    assert!(result.is_ok());

    let branches = result.unwrap();
    assert_eq!(branches.len(), 2);

    let main_branch = branches.iter().find(|b| b.name == "main").unwrap();
    let feature_branch = branches.iter().find(|b| b.name == "feature-branch").unwrap();

    assert!(main_branch.is_current);
    assert!(!feature_branch.is_current);
}

#[test]
fn test_get_git_branches_from_path_invalid_path() {
    let result = get_git_branches_from_path("/invalid/path".to_string());
    assert!(result.is_err());
}

#[test]
fn test_get_git_branches_from_path_non_git_directory() {
    let temp_dir = TempDir::new().expect("Failed to create temp directory");
    let non_git_path = temp_dir.path().to_string_lossy().to_string();

    let result = get_git_branches_from_path(non_git_path);
    assert!(result.is_err());
}

#[test]
fn test_get_commits_from_path() {
    let temp_repo = create_test_git_repo();
    let repo_path = path_of(&temp_repo);

    let result = get_commits_from_path(repo_path, "main".to_string());
    assert!(result.is_ok());

    let commits = result.unwrap();
    assert_eq!(commits.len(), 1);
    assert_eq!(commits[0].message, "Initial commit");
    assert!(commits[0].author.contains("Test User"));
    assert!(commits[0].short_id.len() == 8);
}

#[test]
fn test_get_commits_from_path_invalid_branch() {
    let temp_repo = create_test_git_repo();
    let repo_path = path_of(&temp_repo);

    // A name that leads to no branch falls back to HEAD.
    let result = get_commits_from_path(repo_path, "nonexistent-branch".to_string());
    assert!(result.is_ok());
    let commits = result.unwrap();
    assert_eq!(commits.len(), 1);
    assert_eq!(commits[0].message, "Initial commit");
}

#[test]
fn test_get_commit_changes() {
    let temp_repo = create_test_git_repo();

    let commits_result = get_commits_from_path(path_of(&temp_repo), "main".to_string());
    assert!(commits_result.is_ok());
    let commits = commits_result.unwrap();
    assert!(!commits.is_empty());

    let commit_id = &commits[0].id;
    let result = get_commit_changes(path_of(&temp_repo), commit_id.clone());
    assert!(result.is_ok());

    let changes = result.unwrap();
    assert_eq!(changes.len(), 1);
    assert_eq!(changes[0].path, "README.md");
    assert_eq!(changes[0].status, "added");
}

#[test]
fn test_get_file_diff() {
    let temp_repo = create_test_git_repo();

    let commits_result = get_commits_from_path(path_of(&temp_repo), "main".to_string());
    assert!(commits_result.is_ok());
    let commits = commits_result.unwrap();
    assert!(!commits.is_empty());

    let commit_id = &commits[0].id;
    let result = get_file_diff(path_of(&temp_repo), commit_id.clone(), "README.md".to_string());
    assert!(result.is_ok());

    let diff = result.unwrap();
    assert_eq!(diff.path, "README.md");
    assert_eq!(diff.status, "added");
    assert!(!diff.is_binary);
    assert!(!diff.diff_lines.is_empty());
}

#[test]
fn test_global_search_empty_query() {
    let temp_repo = create_test_git_repo();
    let repo_path = path_of(&temp_repo);

    let result = global_search(repo_path, "".to_string(), Some("main".to_string()), None);
    assert!(result.is_ok());
    let results = result.unwrap();
    assert_eq!(results.len(), 0);
}

#[test]
fn test_global_search_commit_message() {
    let temp_repo = create_test_git_repo();
    let repo_path = path_of(&temp_repo);

    let result = global_search(repo_path, "Initial".to_string(), Some("main".to_string()), None);
    assert!(result.is_ok());
    let results = result.unwrap();

    assert!(!results.is_empty());
    let commit_result = results.iter().find(|r| r.result_type == "commit");
    assert!(commit_result.is_some());

    let commit_result = commit_result.unwrap();
    assert!(commit_result.commit_message.to_lowercase().contains("initial"));
    assert_eq!(commit_result.result_type, "commit");
    assert!(commit_result.file_path.is_none());
}

#[test]
fn test_global_search_file_name() {
    let temp_repo = create_test_git_repo();
    let repo_path = path_of(&temp_repo);

    let result = global_search(repo_path, "README".to_string(), Some("main".to_string()), None);
    assert!(result.is_ok());
    let results = result.unwrap();

    assert!(!results.is_empty());
    let file_result = results.iter().find(|r| r.result_type == "file");
    assert!(file_result.is_some());

    let file_result = file_result.unwrap();
    assert_eq!(file_result.result_type, "file");
    assert!(file_result.file_path.is_some());
    assert!(file_result.file_path.as_ref().unwrap().contains("README"));
}

#[test]
fn test_global_search_file_content() {
    let temp_repo = create_test_git_repo();
    commit_file(
        &open(&temp_repo),
        "test.txt",
        "This is a test file with specific content",
        "Add test file",
    );

    let result =
        global_search(path_of(&temp_repo), "specific".to_string(), Some("main".to_string()), None);
    assert!(result.is_ok());
    let results = result.unwrap();

    assert!(!results.is_empty());
    let content_result = results.iter().find(|r| r.result_type == "content");
    assert!(content_result.is_some());

    let content_result = content_result.unwrap();
    assert_eq!(content_result.result_type, "content");
    assert!(content_result.file_path.is_some());
    assert_eq!(content_result.file_path.as_ref().unwrap(), "test.txt");
    assert!(content_result.content_preview.is_some());
    assert!(content_result.content_preview.as_ref().unwrap().to_lowercase().contains("specific"));
    assert!(content_result.line_number.is_some());
}

#[test]
fn test_global_search_case_insensitive() {
    let temp_repo = create_test_git_repo();
    let repo_path = path_of(&temp_repo);

    let result =
        global_search(repo_path.clone(), "INITIAL".to_string(), Some("main".to_string()), None);
    assert!(result.is_ok());
    let results = result.unwrap();

    assert!(!results.is_empty());
    let commit_result = results.iter().find(|r| r.result_type == "commit");
    assert!(commit_result.is_some());
}

#[test]
fn test_global_search_no_results() {
    let temp_repo = create_test_git_repo();
    let repo_path = path_of(&temp_repo);

    let result = global_search(
        repo_path,
        "nonexistentstring123".to_string(),
        Some("main".to_string()),
        None,
    );
    assert!(result.is_ok());
    let results = result.unwrap();
    assert_eq!(results.len(), 0);
}

#[test]
fn test_global_search_invalid_repository() {
    let result = global_search(
        "/invalid/path".to_string(),
        "test".to_string(),
        Some("main".to_string()),
        None,
    );
    assert!(result.is_err());
}

#[test]
fn test_global_search_invalid_branch() {
    let temp_repo = create_test_git_repo();
    let repo_path = path_of(&temp_repo);

    // Should still work by falling back to HEAD
    let result = global_search(
        repo_path,
        "Initial".to_string(),
        Some("nonexistent-branch".to_string()),
        None,
    );
    assert!(result.is_ok());
    let results = result.unwrap();
    assert!(!results.is_empty());
}

#[test]
fn test_global_search_multiple_commits() {
    let temp_repo = create_test_git_repo();
    {
        let repo = open(&temp_repo);
        for i in 1..=3 {
            let filename = format!("file{}.txt", i);
            let content = format!("Content for file {} with keyword searchable", i);
            commit_file(
                &repo,
                &filename,
                &content,
                &format!("Add {} with searchable content", filename),
            );
        }
    }

    let result = global_search(
        path_of(&temp_repo),
        "searchable".to_string(),
        Some("main".to_string()),
        None,
    );
    assert!(result.is_ok());
    let results = result.unwrap();

    assert!(results.len() >= 3);

    let commit_results: Vec<_> = results.iter().filter(|r| r.result_type == "commit").collect();
    let content_results: Vec<_> = results.iter().filter(|r| r.result_type == "content").collect();

    assert!(commit_results.len() >= 3);
    assert!(content_results.len() >= 3);
}

#[test]
fn test_global_search_result_limit() {
    let temp_repo = create_test_git_repo();
    {
        let repo = open(&temp_repo);
        for i in 1..=30 {
            let filename = format!("limitfile{}.txt", i);
            commit_file(&repo, &filename, "uniquelimitsearch content", "uniquelimitsearch commit");
        }
    }

    let result = global_search(
        path_of(&temp_repo),
        "uniquelimitsearch".to_string(),
        Some("main".to_string()),
        None,
    );
    assert!(result.is_ok());
    let results = result.unwrap();

    assert!(results.len() <= 50);
    assert!(results.len() > 10);

    let commit_results: Vec<_> = results.iter().filter(|r| r.result_type == "commit").collect();
    let content_results: Vec<_> = results.iter().filter(|r| r.result_type == "content").collect();

    assert!(!commit_results.is_empty());
    assert!(!content_results.is_empty());
}

#[test]
fn test_global_search_filters_merge_commits() {
    let temp_repo = create_test_git_repo();
    {
        let repo = open(&temp_repo);
        let base = repo.head().unwrap().peel_to_commit().unwrap();

        // A commit on a feature branch.
        let blob = repo.blob(b"mergetest content").unwrap();
        let mut builder = repo.treebuilder(Some(&base.tree().unwrap())).unwrap();
        builder.insert("feature.txt", blob, 0o100644).unwrap();
        let tree = repo.find_tree(builder.write().unwrap()).unwrap();
        let sig = signature(base.time().seconds() + 60);
        let feature = repo
            .commit(
                Some("refs/heads/feature"),
                &sig,
                &sig,
                "mergetest feature commit",
                &tree,
                &[&base],
            )
            .expect("Failed to commit feature");
        let feature = repo.find_commit(feature).unwrap();

        // A merge of the feature branch into main.
        let sig = signature(base.time().seconds() + 120);
        repo.commit(
            Some("HEAD"),
            &sig,
            &sig,
            "mergetest merge commit",
            &tree,
            &[&base, &feature],
        )
        .expect("Failed to merge feature branch");
    }

    let result = global_search(
        path_of(&temp_repo),
        "mergetest".to_string(),
        Some("main".to_string()),
        None,
    );
    assert!(result.is_ok());
    let results = result.unwrap();

    assert!(!results.is_empty());

    let commit_results: Vec<_> = results.iter().filter(|r| r.result_type == "commit").collect();
    assert!(!commit_results.is_empty());

    let has_merge_commit = commit_results.iter().any(|r| r.commit_message.contains("merge commit"));
    assert!(!has_merge_commit, "Should not find merge commit in results");

    let has_feature_commit =
        commit_results.iter().any(|r| r.commit_message.contains("feature commit"));
    assert!(has_feature_commit, "Should find the feature commit in results");
}

#[test]
fn test_global_search_custom_limit() {
    let temp_repo = create_test_git_repo();
    {
        let repo = open(&temp_repo);
        for i in 1..=5 {
            let filename = format!("limitfile{}.txt", i);
            commit_file(&repo, &filename, "customlimit content", "customlimit commit");
        }
    }

    let result = global_search(
        path_of(&temp_repo),
        "customlimit".to_string(),
        Some("main".to_string()),
        Some(3),
    );
    assert!(result.is_ok());
    let results = result.unwrap();
    assert!(!results.is_empty());

    let result_unlimited = global_search(
        path_of(&temp_repo),
        "customlimit".to_string(),
        Some("main".to_string()),
        None,
    );
    assert!(result_unlimited.is_ok());
    let results_unlimited = result_unlimited.unwrap();
    assert!(!results_unlimited.is_empty());
}

#[test]
fn search_visits_no_more_commits_than_the_cap() {
    let temp_repo = create_test_git_repo();
    {
        let repo = open(&temp_repo);
        for i in 1..=5 {
            commit_file(&repo, &format!("capfile{}.txt", i), "plain", &format!("capword {}", i));
        }
    }
    let results = global_search(
        path_of(&temp_repo),
        "capword".to_string(),
        Some("main".to_string()),
        Some(2),
    )
    .unwrap();
    let commits: Vec<_> =
        results.iter().filter(|r| r.result_type == "commit").map(|r| r.commit_message.clone()).collect();
    assert_eq!(commits, vec!["capword 5".to_string(), "capword 4".to_string()]);
    let none = global_search(path_of(&temp_repo), "capword".to_string(), None, Some(0)).unwrap();
    assert!(none.is_empty());
}

#[test]
fn search_without_branch_starts_at_head() {
    let temp_repo = create_test_git_repo();
    let results = global_search(path_of(&temp_repo), "initial".to_string(), None, None).unwrap();
    assert_eq!(results.len(), 1);
    assert_eq!(results[0].result_type, "commit");
    assert_eq!(results[0].commit_id.len(), 40);
    assert_eq!(results[0].commit_author, "Test User");
    assert_eq!(results[0].commit_date, "2023-11-14 22:13:20");
    assert_eq!(results[0].content_preview.as_deref(), Some("Initial commit"));
}

#[test]
fn blank_query_needs_no_repository() {
    let results =
        global_search("/invalid/path".to_string(), "  \t ".to_string(), None, None).unwrap();
    assert!(results.is_empty());
}

#[test]
fn commit_log_is_newest_first_and_capped() {
    let temp_repo = create_test_git_repo();
    {
        let repo = open(&temp_repo);
        for i in 1..=60 {
            commit_file(&repo, "counter.txt", &format!("{}", i), &format!("Commit {}", i));
        }
    }
    let commits = get_commits_from_path(path_of(&temp_repo), "main".to_string()).unwrap();
    assert_eq!(commits.len(), 50);
    assert_eq!(commits[0].message, "Commit 60");
    assert_eq!(commits[49].message, "Commit 11");
    for commit in &commits {
        assert_eq!(commit.id.len(), 40);
        assert_eq!(commit.short_id, commit.id[..8]);
        assert_eq!(commit.author, "Test User");
    }
    assert_eq!(commits[0].date, "2023-11-14 23:13:20");
}

#[test]
fn detached_head_is_a_starting_point() {
    let temp_repo = create_test_git_repo();
    {
        let repo = open(&temp_repo);
        let first = repo.head().unwrap().peel_to_commit().unwrap().id();
        commit_file(&repo, "second.txt", "two", "Second commit");
        repo.set_head_detached(first).expect("Failed to detach HEAD");
    }
    let commits = get_commits_from_path(path_of(&temp_repo), "no-such-branch".to_string()).unwrap();
    assert_eq!(commits.len(), 1);
    assert_eq!(commits[0].message, "Initial commit");
    let on_main = get_commits_from_path(path_of(&temp_repo), "main".to_string()).unwrap();
    assert_eq!(on_main.len(), 2);
    let branches = get_git_branches_from_path(path_of(&temp_repo)).unwrap();
    assert_eq!(branches.iter().filter(|b| b.is_current).count(), 0);
}

#[test]
fn repository_without_commits_has_no_reference() {
    let temp_dir = TempDir::new().expect("Failed to create temp directory");
    git2::Repository::init(temp_dir.path()).expect("Failed to init");
    let result = get_commits_from_path(path_of(&temp_dir), "main".to_string());
    match result {
        Err(QueryError::RefNotFound { message }) => assert!(message.contains("'main'")),
        other => panic!("unexpected: {:?}", other),
    }
    let search = global_search(path_of(&temp_dir), "x".to_string(), None, None);
    assert!(matches!(search, Err(QueryError::RefNotFound { .. })));
}

#[test]
fn branches_are_listed_newest_first() {
    let temp_repo = create_test_git_repo();
    {
        let repo = open(&temp_repo);
        let first = repo.head().unwrap().peel_to_commit().unwrap();
        repo.branch("old", &first, false).unwrap();
        commit_file(&repo, "new.txt", "new", "Newer commit");
    }
    let branches = get_git_branches_from_path(path_of(&temp_repo)).unwrap();
    let names: Vec<_> = branches.iter().map(|b| b.name.as_str()).collect();
    assert_eq!(names, vec!["main", "old"]);
    assert_eq!(branches[0].last_commit_date, 1_700_000_060);
    assert_eq!(branches[1].last_commit_date, 1_700_000_000);
    assert_eq!(branches.iter().filter(|b| b.is_current).count(), 1);

    let found = get_git_branches(path_of(&temp_repo)).unwrap();
    assert_eq!(found.len(), 2);
    assert!(get_git_branches("/invalid/path".to_string()).is_err());
}

#[test]
fn remotes_list_fetch_and_push_addresses() {
    let temp_repo = create_test_git_repo();
    {
        let repo = open(&temp_repo);
        repo.remote("origin", "https://example.com/repo.git").unwrap();
        repo.remote("mirror", "https://example.com/mirror.git").unwrap();
        repo.remote_set_pushurl("mirror", Some("ssh://example.com/mirror.git")).unwrap();
    }
    let mut remotes = get_git_remotes_from_path(path_of(&temp_repo)).unwrap();
    remotes.sort_by(|a, b| a.name.cmp(&b.name));
    let seen: Vec<_> =
        remotes.iter().map(|r| (r.name.as_str(), r.url.as_str(), r.is_push)).collect();
    assert_eq!(
        seen,
        vec![
            ("mirror", "https://example.com/mirror.git", false),
            ("mirror (push)", "ssh://example.com/mirror.git", true),
            ("origin", "https://example.com/repo.git", false),
        ]
    );
}

#[test]
fn changes_of_a_later_commit_are_against_its_parent() {
    let temp_repo = create_test_git_repo();
    let second = commit_file(&open(&temp_repo), "README.md", "# Test Repo\nmore\n", "Extend");
    let changes = get_commit_changes(path_of(&temp_repo), second.to_string()).unwrap();
    assert_eq!(changes.len(), 1);
    assert_eq!(changes[0].path, "README.md");
    assert_eq!(changes[0].status, "modified");
    assert_eq!(changes[0].additions, 0);
    assert_eq!(changes[0].deletions, 0);

    let diff = get_file_diff(path_of(&temp_repo), second.to_string(), "README.md".to_string())
        .unwrap();
    assert_eq!(diff.status, "modified");
    let kinds: Vec<_> = diff.diff_lines.iter().map(|l| l.line_type.as_str()).collect();
    assert!(kinds.contains(&"addition"));
    assert!(kinds.contains(&"deletion"));
    let added: Vec<_> = diff
        .diff_lines
        .iter()
        .filter(|l| l.line_type == "addition")
        .map(|l| (l.content.as_str(), l.old_line_number, l.new_line_number))
        .collect();
    assert_eq!(added, vec![("# Test Repo", None, Some(1)), ("more", None, Some(2))]);
    assert!(diff.old_content.is_none() && diff.new_content.is_none());
}

#[test]
fn a_path_outside_the_change_set_is_not_found() {
    let temp_repo = create_test_git_repo();
    let second = commit_file(&open(&temp_repo), "other.txt", "x", "Other");
    let changes = get_commit_changes(path_of(&temp_repo), second.to_string()).unwrap();
    for change in &changes {
        let found = get_file_diff(path_of(&temp_repo), second.to_string(), change.path.clone());
        assert!(found.is_ok());
    }
    let missing = get_file_diff(path_of(&temp_repo), second.to_string(), "README.md".to_string());
    match missing {
        Err(QueryError::FileNotFound { path, place }) => {
            assert_eq!(path, "README.md");
            assert_eq!(place, "commit changes");
        }
        other => panic!("unexpected: {:?}", other),
    }
    let prefix = get_file_diff(path_of(&temp_repo), second.to_string(), "other".to_string());
    assert!(matches!(prefix, Err(QueryError::FileNotFound { .. })));
}

#[test]
fn commit_ids_are_checked() {
    let temp_repo = create_test_git_repo();
    let bad = get_commit_changes(path_of(&temp_repo), "not-a-commit".to_string());
    assert!(matches!(bad, Err(QueryError::InvalidCommitId { .. })));
    let empty = get_file_diff(path_of(&temp_repo), "".to_string(), "README.md".to_string());
    assert!(matches!(empty, Err(QueryError::InvalidCommitId { .. })));
    let absent = get_commit_changes(path_of(&temp_repo), "0123456789".repeat(4));
    assert!(matches!(absent, Err(QueryError::CommitNotFound { .. })));
    let nowhere = get_commit_changes("/invalid/path".to_string(), "0123456789".repeat(4));
    assert!(matches!(nowhere, Err(QueryError::RepositoryNotFound { .. })));
}

#[test]
fn binary_files_have_no_diff_lines() {
    let temp_repo = create_test_git_repo();
    let commit = commit_bytes(&open(&temp_repo), "image.bin", &[0, 159, 146, 150, 0, 1, 2], "Bin");
    let diff =
        get_file_diff(path_of(&temp_repo), commit.to_string(), "image.bin".to_string()).unwrap();
    assert!(diff.diff_lines.is_empty());
    assert!(diff.is_binary);
    assert_eq!(diff.status, "added");
    assert_eq!(diff.path, "image.bin");
}

#[test]
fn blame_has_one_entry_per_line() {
    let temp_repo = create_test_git_repo();
    let repo = open(&temp_repo);
    let first = commit_file(&repo, "notes.txt", "alpha\nbeta\n", "Write notes");
    let second = commit_file(&repo, "notes.txt", "alpha\nbeta\ngamma\n", "Add gamma");

    let blame =
        get_file_blame(path_of(&temp_repo), second.to_string(), "notes.txt".to_string()).unwrap();
    assert_eq!(blame.path, "notes.txt");
    assert_eq!(blame.blame_lines.len(), 3);
    let lines: Vec<_> = blame
        .blame_lines
        .iter()
        .map(|l| (l.line_number, l.content.as_str(), l.commit_message.as_str()))
        .collect();
    assert_eq!(
        lines,
        vec![(1, "alpha", "Write notes"), (2, "beta", "Write notes"), (3, "gamma", "Add gamma")]
    );
    assert_eq!(blame.blame_lines[0].commit_id, first.to_string());
    assert_eq!(blame.blame_lines[2].commit_id, second.to_string());
    assert_eq!(blame.blame_lines[2].commit_short_id, second.to_string()[..8]);
    assert_eq!(blame.blame_lines[0].author, "Test User");
    assert_eq!(blame.blame_lines[0].date, "2023-11-14");

    let earlier =
        get_file_blame(path_of(&temp_repo), first.to_string(), "notes.txt".to_string()).unwrap();
    assert_eq!(earlier.blame_lines.len(), 2);
}

#[test]
fn blame_guards_refuse_what_is_not_small_text() {
    let temp_repo = create_test_git_repo();
    let repo = open(&temp_repo);
    let head = commit_bytes(&repo, "image.bin", &[0, 1, 2, 0, 255], "Bin");
    let id = head.to_string();
    let binary = get_file_blame(path_of(&temp_repo), id.clone(), "image.bin".to_string());
    assert!(matches!(binary, Err(QueryError::BinaryUnsupported)));
    let missing = get_file_blame(path_of(&temp_repo), id.clone(), "absent.txt".to_string());
    match missing {
        Err(QueryError::FileNotFound { path, place }) => {
            assert_eq!(path, "absent.txt");
            assert_eq!(place, format!("commit '{}'", id));
        }
        other => panic!("unexpected: {:?}", other),
    }

    let many: String = std::iter::repeat("line\n").take(3001).collect();
    let head = commit_file(&repo, "many.txt", &many, "Many lines");
    let too_many = get_file_blame(path_of(&temp_repo), head.to_string(), "many.txt".to_string());
    assert!(matches!(too_many, Err(QueryError::TooManyLines { lines: 3001 })));

    let big: String = std::iter::repeat('a').take(1024 * 1024 + 1).collect();
    let head = commit_file(&repo, "big.txt", &big, "Big file");
    let too_large = get_file_blame(path_of(&temp_repo), head.to_string(), "big.txt".to_string());
    assert!(matches!(too_large, Err(QueryError::TooLarge { size: 1_048_577 })));

    let head = commit_bytes(&repo, "latin.txt", &[b'c', b'a', b'f', 0xe9, b'\n'], "Latin-1");
    let encoding = get_file_blame(path_of(&temp_repo), head.to_string(), "latin.txt".to_string());
    assert!(matches!(encoding, Err(QueryError::InvalidEncoding)));
    let bad_id = get_file_blame(path_of(&temp_repo), "xyz".to_string(), "big.txt".to_string());
    assert!(matches!(bad_id, Err(QueryError::InvalidCommitId { .. })));
}

#[test]
fn file_content_is_read_as_text() {
    let temp_repo = create_test_git_repo();
    let repo = open(&temp_repo);
    let head = commit_file(&repo, "notes.txt", "caf\u{e9}\nline two\n", "Notes");
    let content =
        get_file_content(path_of(&temp_repo), head.to_string(), "notes.txt".to_string()).unwrap();
    assert_eq!(content, "caf\u{e9}\nline two\n");

    let big: String = std::iter::repeat('b').take(1024 * 1024 + 5).collect();
    let head = commit_file(&repo, "big.txt", &big, "Big file");
    let shown = get_file_content(path_of(&temp_repo), head.to_string(), "big.txt".to_string());
    assert!(matches!(shown, Err(QueryError::TooLarge { size: 1_048_581 })));
    let whole = read_file(path_of(&temp_repo), head.to_string(), "big.txt".to_string(), None);
    assert_eq!(whole.unwrap().len(), 1024 * 1024 + 5);

    let head = commit_bytes(&repo, "image.bin", &[1, 0, 2], "Bin");
    let binary = get_file_content(path_of(&temp_repo), head.to_string(), "image.bin".to_string());
    assert!(matches!(binary, Err(QueryError::BinaryUnsupported)));
    let missing = get_file_content(path_of(&temp_repo), head.to_string(), "nope".to_string());
    assert!(matches!(missing, Err(QueryError::FileNotFound { .. })));
}

#[test]
fn file_tree_is_sorted_at_every_level() {
    let temp_repo = create_test_git_repo();
    let repo = open(&temp_repo);
    let blob = repo.blob(b"fn main() {}\n").unwrap();
    let mut inner = repo.treebuilder(None).unwrap();
    inner.insert("main.rs", blob, 0o100644).unwrap();
    inner.insert("Lib.rs", blob, 0o100644).unwrap();
    inner.insert("build.RS", blob, 0o100644).unwrap();
    let src = inner.write().unwrap();
    let mut nested = repo.treebuilder(None).unwrap();
    nested.insert("deep.txt", blob, 0o100644).unwrap();
    let docs_inner = nested.write().unwrap();
    let mut docs = repo.treebuilder(None).unwrap();
    docs.insert("guide", docs_inner, 0o040000).unwrap();
    docs.insert("a.md", blob, 0o100644).unwrap();
    let docs = docs.write().unwrap();
    let base = repo.head().unwrap().peel_to_commit().unwrap();
    let mut root = repo.treebuilder(Some(&base.tree().unwrap())).unwrap();
    root.insert("src", src, 0o040000).unwrap();
    root.insert("Docs", docs, 0o040000).unwrap();
    root.insert("Zebra.toml", blob, 0o100644).unwrap();
    root.insert("apple.json", blob, 0o100644).unwrap();
    root.insert("Dockerfile", blob, 0o100644).unwrap();
    root.insert(".gitignore", blob, 0o100644).unwrap();
    let tree = repo.find_tree(root.write().unwrap()).unwrap();
    let sig = signature(1_700_000_100);
    let head = repo.commit(Some("HEAD"), &sig, &sig, "Tree", &tree, &[&base]).unwrap();

    let items = get_commit_file_tree(path_of(&temp_repo), head.to_string()).unwrap();
    let top: Vec<_> = items
        .iter()
        .map(|i| (i.name.as_str(), i.is_directory, i.file_type.as_str()))
        .collect();
    assert_eq!(
        top,
        vec![
            ("Docs", true, "folder"),
            ("src", true, "folder"),
            (".gitignore", false, "git"),
            ("apple.json", false, "json"),
            ("Dockerfile", false, "file"),
            ("README.md", false, "markdown"),
            ("Zebra.toml", false, "toml"),
        ]
    );
    let src_items = items[1].children.as_ref().unwrap();
    let names: Vec<_> = src_items.iter().map(|i| (i.name.as_str(), i.path.as_str())).collect();
    assert_eq!(
        names,
        vec![("build.RS", "src/build.RS"), ("Lib.rs", "src/Lib.rs"), ("main.rs", "src/main.rs")]
    );
    assert!(src_items.iter().all(|i| i.file_type == "rust" && i.size == Some(13)));
    assert!(src_items.iter().all(|i| i.children.is_none()));
    let docs_items = items[0].children.as_ref().unwrap();
    assert_eq!(docs_items[0].name, "guide");
    assert!(docs_items[0].size.is_none());
    assert_eq!(docs_items[0].children.as_ref().unwrap()[0].path, "Docs/guide/deep.txt");
    assert_eq!(docs_items[1].path, "Docs/a.md");

    let bad = get_commit_file_tree(path_of(&temp_repo), "zz".to_string());
    assert!(matches!(bad, Err(QueryError::InvalidCommitId { .. })));
}

#[test]
fn staged_changes_are_read_from_the_index() {
    let temp_repo = create_test_git_repo();
    let repo = open(&temp_repo);
    repo.checkout_head(Some(git2::build::CheckoutBuilder::new().force())).unwrap();
    write_work_file(&temp_repo, "staged.txt", "staged line\n");
    write_work_file(&temp_repo, "README.md", "# Test Repo\nchanged\n");
    write_work_file(&temp_repo, "untracked.txt", "left alone\n");
    let mut index = repo.index().unwrap();
    index.add_path(std::path::Path::new("staged.txt")).unwrap();
    index.add_path(std::path::Path::new("README.md")).unwrap();
    index.write().unwrap();

    let mut changes = get_staged_changes(path_of(&temp_repo)).unwrap();
    changes.sort_by(|a, b| a.path.cmp(&b.path));
    let seen: Vec<_> = changes.iter().map(|c| (c.path.as_str(), c.status.as_str())).collect();
    assert_eq!(seen, vec![("README.md", "modified"), ("staged.txt", "added")]);
    assert!(changes.iter().all(|c| c.old_path.is_none()));

    let diff = get_staged_file_diff(path_of(&temp_repo), "staged.txt".to_string()).unwrap();
    assert_eq!(diff.status, "added");
    assert_eq!(diff.diff_lines.len(), 1);
    assert_eq!(diff.diff_lines[0].line_type, "addition");
    assert_eq!(diff.diff_lines[0].content, "staged line");
    let missing = get_staged_file_diff(path_of(&temp_repo), "untracked.txt".to_string());
    match missing {
        Err(QueryError::FileNotFound { place, .. }) => assert_eq!(place, "staged changes"),
        other => panic!("unexpected: {:?}", other),
    }
}

#[test]
fn stashes_are_listed_and_diffed() {
    let temp_repo = create_test_git_repo();
    let mut repo = open(&temp_repo);
    repo.checkout_head(Some(git2::build::CheckoutBuilder::new().force())).unwrap();
    assert!(get_stashes(path_of(&temp_repo)).unwrap().is_empty());
    assert!(matches!(get_stash_diff(path_of(&temp_repo), 0), Err(QueryError::RefNotFound { .. })));
    assert!(!temp_repo.path().join(".git").join("logs").join("refs").join("stash").exists());
    write_work_file(&temp_repo, "README.md", "# Test Repo\nstashed work\n");
    let sig = signature(1_700_000_500);
    let stash = repo.stash_save(&sig, "work in progress", None).expect("Failed to stash");

    let stashes = get_stashes(path_of(&temp_repo)).unwrap();
    assert_eq!(stashes.len(), 1);
    assert_eq!(stashes[0].index, 0);
    assert!(stashes[0].message.contains("work in progress"));
    assert_eq!(stashes[0].commit_id, stash.to_string());
    assert_eq!(stashes[0].author, "Test User <test@example.com>");
    assert_eq!(stashes[0].date, "2023-11-14 22:21:40");

    let changes = get_stash_diff(path_of(&temp_repo), 0).unwrap();
    assert_eq!(changes.len(), 1);
    assert_eq!(changes[0].path, "README.md");
    assert_eq!(changes[0].status, "modified");
    assert_eq!(changes[0].additions, 2);
    assert_eq!(changes[0].deletions, 1);

    let diff = get_stash_file_diff(path_of(&temp_repo), 0, "README.md".to_string()).unwrap();
    assert_eq!(diff.path, "README.md");
    assert!(diff.diff_lines.iter().any(|l| l.content == "stashed work"));

    assert!(matches!(get_stash_diff(path_of(&temp_repo), 7), Err(QueryError::RefNotFound { .. })));
    let missing = get_stash_file_diff(path_of(&temp_repo), 0, "absent.txt".to_string());
    match missing {
        Err(QueryError::FileNotFound { place, .. }) => assert_eq!(place, "stash changes"),
        other => panic!("unexpected: {:?}", other),
    }
}

#[test]
fn a_patch_with_too_much_changed_content_is_refused() {
    let temp_repo = create_test_git_repo();
    let line = "0123456789abcdef0123456789abcdef0123456789abcdef0123456789abcde\n";
    let large = line.repeat(16_400);
    assert!(large.len() > 1_048_576);
    let commit = commit_file(&open(&temp_repo), "large.txt", &large, "Large");
    let refused = get_file_diff(path_of(&temp_repo), commit.to_string(), "large.txt".to_string());
    match refused {
        Err(QueryError::TooLarge { size }) => assert_eq!(size, 1_048_640),
        other => panic!("unexpected: {:?}", other.map(|d| (d.is_binary, d.diff_lines.len()))),
    }
    let small = line.repeat(16_000);
    let commit = commit_file(&open(&temp_repo), "small.txt", &small, "Small");
    let shown =
        get_file_diff(path_of(&temp_repo), commit.to_string(), "small.txt".to_string()).unwrap();
    assert!(!shown.is_binary);
    assert_eq!(shown.diff_lines.len(), 16_000);
}

#[test]
fn a_renamed_file_is_found_under_its_new_path_only() {
    let temp_repo = create_test_git_repo();
    let repo = open(&temp_repo);
    let text = "one\ntwo\nthree\nfour\nfive\nsix\nseven\neight\n";
    commit_file(&repo, "old_name.txt", text, "Add");
    let parent = repo.head().unwrap().peel_to_commit().unwrap();
    let blob = parent.tree().unwrap().get_name("old_name.txt").unwrap().id();
    let mut builder = repo.treebuilder(Some(&parent.tree().unwrap())).unwrap();
    builder.remove("old_name.txt").unwrap();
    builder.insert("new_name.txt", blob, 0o100644).unwrap();
    let tree = repo.find_tree(builder.write().unwrap()).unwrap();
    let sig = signature(next_time(&repo));
    let renamed = repo.commit(Some("HEAD"), &sig, &sig, "Rename", &tree, &[&parent]).unwrap();

    let changes = get_commit_changes(path_of(&temp_repo), renamed.to_string()).unwrap();
    let seen: Vec<_> = changes.iter().map(|c| (c.path.as_str(), c.status.as_str())).collect();
    assert_eq!(seen, vec![("new_name.txt", "renamed")]);
    let found =
        get_file_diff(path_of(&temp_repo), renamed.to_string(), "new_name.txt".to_string())
            .unwrap();
    assert_eq!(found.status, "renamed");
    assert_eq!(found.path, "new_name.txt");
    let old = get_file_diff(path_of(&temp_repo), renamed.to_string(), "old_name.txt".to_string());
    match old {
        Err(QueryError::FileNotFound { path, .. }) => assert_eq!(path, "old_name.txt"),
        other => panic!("unexpected: {:?}", other),
    }
}

#[test]
fn a_missing_branch_falls_back_to_head() {
    let temp_repo = create_test_git_repo();
    let named = get_commits_from_path(path_of(&temp_repo), "main".to_string()).unwrap();
    let fallen =
        get_commits_from_path(path_of(&temp_repo), "nonexistent-branch".to_string()).unwrap();
    assert_eq!(fallen.len(), 1);
    assert_eq!(fallen[0].message, "Initial commit");
    assert_eq!(fallen[0].id, named[0].id);
    assert_eq!(fallen[0].id.len(), 40);
}
