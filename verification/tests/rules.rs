use git_viewer::blame::{attribute_lines, check_blob, read_lines, SourcedLine};
use git_viewer::branches::{list_branches, push_remote};
use git_viewer::content::{check_header, decode_content, editor_file_name};
use git_viewer::dates::{format_date, format_date_time};
use git_viewer::diff::{
    binary_diff, flatten_patch, line_count, line_type_label, locate, patch_from, path_of,
    show_line, status_label, summarize_changes, text_diff,
};
use git_viewer::log::{short_id, summarize_commit, summarize_history};
use git_viewer::model::{FileTreeItem, QueryError};
use git_viewer::refs::{pick_start, resolve_start};
use git_viewer::report::{decimal, describe};
use git_viewer::search::{
    commit_cap, find_hit_line, scan_commit, search_history, ChangeScan, CommitScan,
};
use git_viewer::staged::{staged_change, staged_changes};
use git_viewer::stash::{list_stashes, make_stash, stash_at, stash_message};
use git_viewer::store::{
    BlobHeader, BranchRecord, CommitRecord, DeltaKind, DeltaRecord, EntryKind, RawLine,
    RemoteRecord, StashRecord, StatusRecord,
};
use git_viewer::text::{chars_of, is_white_space, lex_before, text_matches, trim_line};
use git_viewer::tree::{
    get_file_type, join_path, make_item, render_level, sort_level, tag_of_extension,
    EntryContent, TreeNode,
};

fn commit(id: &str, message: &str, parents: usize) -> CommitRecord {
    CommitRecord {
        id: id.to_string(),
        message: Some(message.to_string()),
        author_name: Some("Ada".to_string()),
        author_email: Some("ada@example.com".to_string()),
        seconds: 1_431_648_000,
        parent_count: parents,
    }
}

fn delta(kind: DeltaKind, new_path: Option<&str>, old_path: Option<&str>) -> DeltaRecord {
    DeltaRecord {
        kind,
        new_path: new_path.map(|p| Some(p.to_string())),
        old_path: old_path.map(|p| Some(p.to_string())),
        new_binary: false,
        old_binary: false,
    }
}

fn line(origin: char, content: &str, old: Option<u32>, new: Option<u32>) -> RawLine {
    RawLine { origin, content: content.as_bytes().to_vec(), old_lineno: old, new_lineno: new }
}

fn change(path: &str, lines: Vec<RawLine>) -> ChangeScan {
    ChangeScan { path: path.to_string(), binary: false, hunks: vec![lines] }
}

fn file_item(name: &str) -> FileTreeItem {
    make_item("", Some(name.to_string()), EntryContent::File(1)).unwrap()
}

fn dir_item(name: &str) -> FileTreeItem {
    make_item("", Some(name.to_string()), EntryContent::Directory(Vec::new())).unwrap()
}

#[test]
fn white_space_is_the_unicode_property() {
    for c in ['\t', '\n', '\u{b}', '\u{c}', '\r', ' ', '\u{85}', '\u{a0}', '\u{1680}', '\u{2000}',
        '\u{200a}', '\u{2028}', '\u{2029}', '\u{202f}', '\u{205f}', '\u{3000}']
    {
        assert!(is_white_space(c), "{:?}", c);
    }
    for c in ['a', '0', '\u{200b}', '\u{feff}', '\u{8}', '\u{e}', '\u{180e}'] {
        assert!(!is_white_space(c), "{:?}", c);
    }
    for code in 0..0x3100u32 {
        if let Some(c) = char::from_u32(code) {
            assert_eq!(is_white_space(c), c.is_whitespace(), "{:x}", code);
        }
    }
}

#[test]
fn matching_ignores_case() {
    let query = chars_of("initial");
    assert!(text_matches("Initial commit", &query));
    assert!(text_matches("An INITIAL step", &query));
    assert!(!text_matches("Init", &query));
    assert!(text_matches("STRASSE \u{c4}", &chars_of("\u{e4}")));
}

#[test]
fn trailing_newlines_are_trimmed() {
    assert_eq!(trim_line(&chars_of("text\n\n")), "text");
    assert_eq!(trim_line(&chars_of("text\r\n")), "text\r");
    assert_eq!(trim_line(&chars_of("\n")), "");
    assert_eq!(trim_line(&chars_of("a\nb")), "a\nb");
}

#[test]
fn texts_are_ordered_by_code_point() {
    let pairs = [("", ""), ("", "a"), ("a", "b"), ("a", "ab"), ("ab", "b"), ("Z", "a"),
        ("a", "\u{e9}"), ("\u{e9}", "\u{1f600}"), ("same", "same")];
    for (a, b) in pairs {
        assert!(lex_before(&chars_of(a), &chars_of(b)), "{:?} {:?}", a, b);
        assert_eq!(lex_before(&chars_of(b), &chars_of(a)), a == b, "{:?} {:?}", b, a);
        assert_eq!(lex_before(&chars_of(a), &chars_of(b)), a <= b);
    }
}

#[test]
fn labels_of_changes_and_lines() {
    assert_eq!(status_label(DeltaKind::Added), "added");
    assert_eq!(status_label(DeltaKind::Deleted), "deleted");
    assert_eq!(status_label(DeltaKind::Modified), "modified");
    assert_eq!(status_label(DeltaKind::Renamed), "renamed");
    assert_eq!(status_label(DeltaKind::Copied), "copied");
    for kind in [DeltaKind::Unmodified, DeltaKind::Ignored, DeltaKind::Untracked,
        DeltaKind::Typechange, DeltaKind::Unreadable, DeltaKind::Conflicted]
    {
        assert_eq!(status_label(kind), "unknown");
    }
    assert_eq!(line_type_label('+'), "addition");
    assert_eq!(line_type_label('-'), "deletion");
    assert_eq!(line_type_label(' '), "context");
    assert_eq!(line_type_label('='), "context");
    assert_eq!(line_type_label('H'), "context");
}

#[test]
fn path_of_a_change_prefers_the_new_side() {
    assert_eq!(path_of(&delta(DeltaKind::Renamed, Some("new.txt"), Some("old.txt"))), "new.txt");
    assert_eq!(path_of(&delta(DeltaKind::Deleted, None, Some("old.txt"))), "old.txt");
    assert_eq!(path_of(&delta(DeltaKind::Added, None, None)), "unknown");
    let unreadable = DeltaRecord {
        kind: DeltaKind::Modified,
        new_path: Some(None),
        old_path: Some(Some("old.txt".to_string())),
        new_binary: false,
        old_binary: false,
    };
    assert_eq!(path_of(&unreadable), "unknown");
}

#[test]
fn summary_keeps_the_order_of_the_change_set() {
    let deltas = vec![
        delta(DeltaKind::Added, Some("b.txt"), None),
        delta(DeltaKind::Deleted, None, Some("a.txt")),
        delta(DeltaKind::Typechange, Some("c.txt"), Some("c.txt")),
    ];
    let changes = summarize_changes(&deltas, 4, 9);
    let seen: Vec<_> = changes
        .iter()
        .map(|c| (c.path.as_str(), c.status.as_str(), c.additions, c.deletions))
        .collect();
    assert_eq!(
        seen,
        vec![("b.txt", "added", 4, 9), ("a.txt", "deleted", 4, 9), ("c.txt", "unknown", 4, 9)]
    );
    assert!(summarize_changes(&Vec::new(), 0, 0).is_empty());
}

#[test]
fn root_commit_changes_are_all_added() {
    let deltas = vec![
        delta(DeltaKind::Added, Some("README.md"), None),
        delta(DeltaKind::Added, Some("src/main.rs"), None),
    ];
    assert!(summarize_changes(&deltas, 0, 0).iter().all(|c| c.status == "added"));
}

#[test]
fn lookup_takes_the_first_exact_match() {
    let deltas = vec![
        delta(DeltaKind::Added, Some("dir/file.txt"), None),
        delta(DeltaKind::Modified, Some("file.txt"), Some("file.txt")),
        delta(DeltaKind::Deleted, None, Some("file.txt")),
    ];
    assert_eq!(locate(&deltas, &"file.txt".to_string()), Some(1));
    assert_eq!(locate(&deltas, &"dir/file.txt".to_string()), Some(0));
    assert_eq!(locate(&deltas, &"dir".to_string()), None);
    assert_eq!(locate(&deltas, &"file".to_string()), None);
    assert_eq!(locate(&Vec::new(), &"file.txt".to_string()), None);
    for change in summarize_changes(&deltas, 0, 0) {
        assert!(locate(&deltas, &change.path).is_some());
    }
}

#[test]
fn hunks_are_flattened_in_order() {
    let hunks = vec![
        vec![line(' ', "keep\n", Some(1), Some(1)), line('-', "old\n", Some(2), None)],
        Vec::new(),
        vec![line('+', "new\n\n", None, Some(2)), line('>', "\\ No newline\n", None, None)],
    ];
    let lines = flatten_patch(&hunks).unwrap();
    let seen: Vec<_> = lines
        .iter()
        .map(|l| (l.line_type.as_str(), l.content.as_str(), l.old_line_number, l.new_line_number))
        .collect();
    assert_eq!(
        seen,
        vec![
            ("context", "keep", Some(1), Some(1)),
            ("deletion", "old", Some(2), None),
            ("addition", "new", None, Some(2)),
            ("context", "\\ No newline", None, None),
        ]
    );
    assert!(flatten_patch(&Vec::new()).unwrap().is_empty());
}

#[test]
fn invalid_bytes_in_a_line_are_replaced() {
    let raw = RawLine {
        origin: '+',
        content: vec![b'c', b'a', b'f', 0xe9, b'\n'],
        old_lineno: None,
        new_lineno: Some(3),
    };
    let shown = show_line(&raw);
    assert_eq!(shown.content, "caf\u{fffd}");
    assert_eq!(shown.line_type, "addition");
    assert_eq!(shown.new_line_number, Some(3));
}

#[test]
fn oversized_patches_are_refused() {
    let half: String = std::iter::repeat('x').take(524_288).collect();
    let at_limit = vec![vec![
        line('+', &half, None, Some(1)),
        line('-', &half, Some(1), None),
        line(' ', &half, Some(2), Some(2)),
    ]];
    assert_eq!(flatten_patch(&at_limit).unwrap().len(), 3);
    let over = vec![
        vec![line('+', &half, None, Some(1))],
        vec![line('-', &half, Some(1), None), line('+', "y", None, Some(2))],
    ];
    assert!(matches!(flatten_patch(&over), Err(QueryError::TooLarge { size: 1_048_577 })));
    let refused = text_diff("big.txt".to_string(), DeltaKind::Modified, &over);
    assert!(matches!(refused, Err(QueryError::TooLarge { size: 1_048_577 })));
}

#[test]
fn diffs_of_one_file() {
    let binary = binary_diff("logo.png".to_string(), DeltaKind::Added);
    assert!(binary.is_binary);
    assert!(binary.diff_lines.is_empty());
    assert_eq!(binary.path, "logo.png");
    assert_eq!(binary.status, "added");
    let text = text_diff(
        "a.txt".to_string(),
        DeltaKind::Deleted,
        &vec![vec![line('-', "gone\n", Some(1), None)]],
    )
    .unwrap();
    assert!(!text.is_binary);
    assert_eq!(text.status, "deleted");
    assert_eq!(text.diff_lines.len(), 1);
    assert!(text.old_content.is_none() && text.new_content.is_none());
}

#[test]
fn counts_of_lines_stop_at_the_largest_u32() {
    assert_eq!(line_count(0), 0);
    assert_eq!(line_count(17), 17);
    assert_eq!(line_count(u32::MAX as usize), u32::MAX);
    assert_eq!(line_count(u32::MAX as usize + 1), u32::MAX);
}

#[test]
fn dates_are_written_in_utc() {
    assert_eq!(format_date_time(0), "1970-01-01 00:00:00");
    assert_eq!(format_date_time(1_431_648_000), "2015-05-15 00:00:00");
    assert_eq!(format_date_time(-1), "1969-12-31 23:59:59");
    assert_eq!(format_date_time(i64::MAX), "1970-01-01 00:00:00");
    assert_eq!(format_date(1_431_648_000), "2015-05-15");
    assert_eq!(format_date(86_399), "1970-01-01");
    assert_eq!(format_date(i64::MIN), "Unknown");
}

#[test]
fn resolution_prefers_the_named_branch() {
    assert_eq!(pick_start(Some(1), Some(2)), Some(1));
    assert_eq!(pick_start(None, Some(2)), Some(2));
    assert_eq!(pick_start(Some(1), None), Some(1));
    assert_eq!(pick_start::<u8>(None, None), None);
}

#[test]
fn commit_summaries() {
    let id = "0123456789abcdef0123456789abcdef01234567";
    let summary = summarize_commit(&commit(id, "Subject line\n\nBody text\n", 1));
    assert_eq!(summary.id, id);
    assert_eq!(summary.short_id, "01234567");
    assert_eq!(summary.message, "Subject line");
    assert_eq!(summary.author, "Ada");
    assert_eq!(summary.date, "2015-05-15 00:00:00");
    let bare = CommitRecord {
        id: id.to_string(),
        message: None,
        author_name: None,
        author_email: None,
        seconds: 0,
        parent_count: 0,
    };
    let summary = summarize_commit(&bare);
    assert_eq!(summary.message, "No message");
    assert_eq!(summary.author, "Unknown");
    assert_eq!(short_id("abc"), "abc");
    assert_eq!(short_id("abcdefgh"), "abcdefgh");
    assert_eq!(short_id("abcdefghi"), "abcdefgh");
}

#[test]
fn log_length_is_the_smaller_of_cap_and_history() {
    let history: Vec<CommitRecord> = (0..7)
        .map(|i| commit(&format!("{:040x}", i), &format!("Commit {}", i), 1))
        .collect();
    for cap in [0usize, 1, 6, 7, 8, 50] {
        let log = summarize_history(&history, cap);
        assert_eq!(log.len(), cap.min(7));
        for (i, entry) in log.iter().enumerate() {
            assert_eq!(entry.message, format!("Commit {}", i));
        }
    }
    assert!(summarize_history(&Vec::new(), 50).is_empty());
}

#[test]
fn blob_guards_come_in_order() {
    let ok = check_blob(&BlobHeader { is_binary: false, size: 1_048_576 });
    assert!(ok.is_ok());
    let large = check_blob(&BlobHeader { is_binary: false, size: 1_048_577 });
    assert!(matches!(large, Err(QueryError::TooLarge { size: 1_048_577 })));
    let binary = check_blob(&BlobHeader { is_binary: true, size: 9_999_999 });
    assert!(matches!(binary, Err(QueryError::BinaryUnsupported)));

    assert!(check_header(&BlobHeader { is_binary: false, size: 10 }, Some(10)).is_ok());
    let over = check_header(&BlobHeader { is_binary: false, size: 11 }, Some(10));
    assert!(matches!(over, Err(QueryError::TooLarge { size: 11 })));
    assert!(check_header(&BlobHeader { is_binary: false, size: usize::MAX }, None).is_ok());
    let binary = check_header(&BlobHeader { is_binary: true, size: 1 }, None);
    assert!(matches!(binary, Err(QueryError::BinaryUnsupported)));
}

#[test]
fn content_is_split_into_lines() {
    let lines = read_lines(b"one\ntwo\r\n\nfour".to_vec()).unwrap();
    assert_eq!(lines, vec!["one", "two", "", "four"]);
    assert!(read_lines(Vec::new()).unwrap().is_empty());
    assert!(matches!(read_lines(vec![b'a', 0xff]), Err(QueryError::InvalidEncoding)));
    let limit: Vec<u8> = std::iter::repeat(b'\n').take(3000).collect();
    assert_eq!(read_lines(limit).unwrap().len(), 3000);
    let over: Vec<u8> = std::iter::repeat(b'\n').take(3001).collect();
    assert!(matches!(read_lines(over), Err(QueryError::TooManyLines { lines: 3001 })));
    assert_eq!(decode_content("gr\u{fc}n".as_bytes().to_vec()).unwrap(), "gr\u{fc}n");
    assert!(matches!(decode_content(vec![0xc3]), Err(QueryError::InvalidEncoding)));
}

#[test]
fn unattributed_lines_fall_back_to_the_requested_commit() {
    let requested = "fedcba9876543210fedcba9876543210fedcba98";
    let source = commit("0123456789abcdef0123456789abcdef01234567", "Fix bug\nDetails", 1);
    let lines = vec![
        SourcedLine { content: "first".to_string(), source: Some(source) },
        SourcedLine { content: "second".to_string(), source: None },
    ];
    let blame = attribute_lines(requested, &lines).unwrap();
    assert_eq!(blame.len(), 2);
    assert_eq!(blame[0].commit_id, "0123456789abcdef0123456789abcdef01234567");
    assert_eq!(blame[0].commit_short_id, "01234567");
    assert_eq!(blame[0].author, "Ada");
    assert_eq!(blame[0].date, "2015-05-15");
    assert_eq!(blame[0].line_number, 1);
    assert_eq!(blame[0].content, "first");
    assert_eq!(blame[0].commit_message, "Fix bug");
    assert_eq!(blame[1].commit_id, requested);
    assert_eq!(blame[1].commit_short_id, "fedcba98");
    assert_eq!(blame[1].author, "Unknown");
    assert_eq!(blame[1].date, "Unknown");
    assert_eq!(blame[1].line_number, 2);
    assert_eq!(blame[1].content, "second");
    assert_eq!(blame[1].commit_message, "Unknown");

    let many: Vec<SourcedLine> =
        (0..3001).map(|_| SourcedLine { content: String::new(), source: None }).collect();
    assert!(matches!(
        attribute_lines(requested, &many),
        Err(QueryError::TooManyLines { lines: 3001 })
    ));
    assert!(attribute_lines(requested, &Vec::new()).unwrap().is_empty());
}

#[test]
fn file_types_follow_the_extension() {
    let cases = [
        ("app.js", "javascript"), ("view.JSX", "javascript"), ("main.ts", "typescript"),
        ("x.tsx", "typescript"), ("tool.py", "python"), ("lib.rs", "rust"), ("A.java", "java"),
        ("main.go", "go"), ("a.c", "c"), ("a.h", "c"), ("a.cpp", "cpp"), ("a.cc", "cpp"),
        ("a.cxx", "cpp"), ("a.hpp", "cpp"), ("s.css", "css"), ("s.scss", "css"),
        ("s.sass", "css"), ("i.html", "html"), ("i.htm", "html"), ("p.json", "json"),
        ("c.yaml", "yaml"), ("c.yml", "yaml"), ("README.md", "markdown"),
        ("notes.markdown", "markdown"), ("run.sh", "shell"), ("run.bash", "shell"),
        ("run.zsh", "shell"), ("q.sql", "sql"), ("d.xml", "xml"), ("Cargo.toml", "toml"),
        ("a.ini", "config"), ("a.cfg", "config"), ("a.conf", "config"), ("Dockerfile", "file"),
        ("build.dockerfile", "docker"), ("go", "file"), ("json", "file"), ("Main.RS", "rust"),
        ("a.tar.xyz", "file"),
        (".gitignore", "git"), ("notes.txt", "text"), ("archive.tar.gz", "file"),
        ("Makefile", "file"), ("trailing.", "file"), ("", "file"), ("rs", "file"),
        ("photo.PNG", "file"), ("a.b.RS", "rust"),
    ];
    for (name, tag) in cases {
        assert_eq!(get_file_type(name), tag, "{:?}", name);
    }
    assert_eq!(tag_of_extension(&"yml".to_string()), "yaml");
    assert_eq!(tag_of_extension(&"YML".to_string()), "file");
}

#[test]
fn paths_are_joined_with_a_slash() {
    assert_eq!(join_path("", "README.md"), "README.md");
    assert_eq!(join_path("src", "main.rs"), "src/main.rs");
    assert_eq!(join_path("a/b", "c"), "a/b/c");
}

#[test]
fn tree_entries_are_made_from_store_entries() {
    let file = make_item("src", Some("main.rs".to_string()), EntryContent::File(42)).unwrap();
    assert_eq!(file.name, "main.rs");
    assert_eq!(file.path, "src/main.rs");
    assert!(!file.is_directory);
    assert!(file.children.is_none());
    assert_eq!(file.size, Some(42));
    assert_eq!(file.file_type, "rust");
    let dir = make_item("", None, EntryContent::Directory(vec![file])).unwrap();
    assert_eq!(dir.name, "unknown");
    assert_eq!(dir.path, "unknown");
    assert!(dir.is_directory);
    assert_eq!(dir.children.as_ref().unwrap().len(), 1);
    assert!(dir.size.is_none());
    assert_eq!(dir.file_type, "folder");
    assert!(make_item("", Some("link".to_string()), EntryContent::Other).is_none());
}

#[test]
fn levels_are_sorted_directories_first() {
    let items = vec![
        file_item("zeta.txt"),
        dir_item("src"),
        file_item("Alpha.txt"),
        dir_item("Docs"),
        file_item("alpha.TXT"),
        file_item("ALPHA.txt"),
        dir_item("assets"),
    ];
    let sorted = sort_level(items);
    let names: Vec<_> = sorted.iter().map(|i| i.name.as_str()).collect();
    assert_eq!(
        names,
        vec!["assets", "Docs", "src", "Alpha.txt", "alpha.TXT", "ALPHA.txt", "zeta.txt"]
    );
    assert!(sort_level(Vec::new()).is_empty());
}

#[test]
fn at_most_one_branch_is_current() {
    let records = vec![
        BranchRecord { name: Some("a".to_string()), tip_seconds: Some(1), tip_id: None, is_head: false },
        BranchRecord { name: Some("b".to_string()), tip_seconds: Some(2), tip_id: None, is_head: true },
        BranchRecord { name: Some("c".to_string()), tip_seconds: Some(3), tip_id: None, is_head: true },
    ];
    let branches = list_branches(&records, &None);
    let seen: Vec<_> = branches.iter().map(|b| (b.name.as_str(), b.is_current)).collect();
    assert_eq!(seen, vec![("c", false), ("b", true), ("a", false)]);
    let detached = vec![
        BranchRecord { name: Some("a".to_string()), tip_seconds: Some(1), tip_id: None, is_head: false },
    ];
    assert!(list_branches(&detached, &None).iter().all(|b| !b.is_current));
}

#[test]
fn the_current_branch_has_the_tip_of_head() {
    let tip = |id: &str| Some(id.repeat(40));
    let records = vec![
        BranchRecord {
            name: Some("main".to_string()),
            tip_seconds: Some(5),
            tip_id: tip("a"),
            is_head: true,
        },
        BranchRecord {
            name: Some("topic".to_string()),
            tip_seconds: Some(9),
            tip_id: tip("b"),
            is_head: false,
        },
    ];
    let attached = list_branches(&records, &tip("a"));
    let seen: Vec<_> = attached.iter().map(|b| (b.name.as_str(), b.is_current)).collect();
    assert_eq!(seen, vec![("topic", false), ("main", true)]);
    assert!(list_branches(&records, &tip("b")).iter().all(|b| !b.is_current));
    assert!(list_branches(&records, &None).iter().all(|b| !b.is_current));
}

#[test]
fn branches_are_sorted_by_date() {
    let records = vec![
        BranchRecord { name: Some("old".to_string()), tip_seconds: Some(100), tip_id: None, is_head: false },
        BranchRecord { name: None, tip_seconds: Some(900), tip_id: None, is_head: false },
        BranchRecord { name: Some("main".to_string()), tip_seconds: Some(300), tip_id: None, is_head: true },
        BranchRecord { name: Some("broken".to_string()), tip_seconds: None, tip_id: None, is_head: false },
        BranchRecord { name: Some("twin".to_string()), tip_seconds: Some(300), tip_id: None, is_head: false },
        BranchRecord { name: Some("ancient".to_string()), tip_seconds: Some(-5), tip_id: None, is_head: false },
    ];
    let branches = list_branches(&records, &None);
    let seen: Vec<_> = branches
        .iter()
        .map(|b| (b.name.as_str(), b.last_commit_date, b.is_current))
        .collect();
    assert_eq!(
        seen,
        vec![
            ("main", 300, true),
            ("twin", 300, false),
            ("old", 100, false),
            ("broken", 0, false),
            ("ancient", -5, false),
        ]
    );
    assert_eq!(branches.iter().filter(|b| b.is_current).count(), 1);
    assert!(list_branches(&Vec::new(), &None).is_empty());
}

#[test]
fn remote_addresses() {
    let mut remotes = Vec::new();
    let both = RemoteRecord {
        url: Some("https://a".to_string()),
        push_url: Some("ssh://a".to_string()),
    };
    push_remote("origin", &both, &mut remotes);
    let same = RemoteRecord {
        url: Some("https://b".to_string()),
        push_url: Some("https://b".to_string()),
    };
    push_remote("same", &same, &mut remotes);
    push_remote("none", &RemoteRecord { url: None, push_url: None }, &mut remotes);
    let only_push = RemoteRecord { url: None, push_url: Some("ssh://c".to_string()) };
    push_remote("push", &only_push, &mut remotes);
    let seen: Vec<_> =
        remotes.iter().map(|r| (r.name.as_str(), r.url.as_str(), r.is_push)).collect();
    assert_eq!(
        seen,
        vec![
            ("origin", "https://a", false),
            ("origin (push)", "ssh://a", true),
            ("same", "https://b", false),
            ("push (push)", "ssh://c", true),
        ]
    );
}

#[test]
fn staged_status_takes_the_first_flag_that_applies() {
    let record = |flags: [bool; 5]| StatusRecord {
        path: Some("file.txt".to_string()),
        index_new: flags[0],
        index_modified: flags[1],
        index_deleted: flags[2],
        index_renamed: flags[3],
        index_typechange: flags[4],
    };
    let label = |flags: [bool; 5]| staged_change(&record(flags)).map(|c| c.status);
    assert_eq!(label([true, true, false, false, false]).as_deref(), Some("added"));
    assert_eq!(label([false, true, true, false, false]).as_deref(), Some("modified"));
    assert_eq!(label([false, false, true, true, false]).as_deref(), Some("deleted"));
    assert_eq!(label([false, false, false, true, true]).as_deref(), Some("renamed"));
    assert_eq!(label([false, false, false, false, true]).as_deref(), Some("modified"));
    assert_eq!(label([false, false, false, false, false]), None);
    let mut unnamed = record([true, false, false, false, false]);
    unnamed.path = None;
    let records = vec![
        record([false, false, false, false, false]),
        record([false, false, true, false, false]),
        unnamed,
    ];
    let changes = staged_changes(&records);
    let seen: Vec<_> = changes.iter().map(|c| (c.path.as_str(), c.status.as_str())).collect();
    assert_eq!(seen, vec![("file.txt", "deleted"), ("unknown", "added")]);
    assert!(changes.iter().all(|c| c.old_path.is_none()));
}

#[test]
fn stash_entries() {
    let record = commit("0123456789abcdef0123456789abcdef01234567", "WIP on main", 2);
    let stash = make_stash(3, &"On main: work".to_string(), &record);
    assert_eq!(stash.index, 3);
    assert_eq!(stash.message, "On main: work");
    assert_eq!(stash.commit_id, "0123456789abcdef0123456789abcdef01234567");
    assert_eq!(stash.author, "Ada <ada@example.com>");
    assert_eq!(stash.date, "2015-05-15 00:00:00");
    let anonymous = CommitRecord { author_name: None, author_email: None, ..record };
    assert_eq!(make_stash(0, &String::new(), &anonymous).author, "Unknown <unknown@email.com>");

    let ids: Vec<git2::Oid> = ["0a", "0b", "0c"]
        .iter()
        .map(|hex| git2::Oid::from_str(hex).expect("a short id"))
        .collect();
    let records: Vec<StashRecord> = ids
        .iter()
        .enumerate()
        .map(|(i, id)| StashRecord { message: Some(format!("stash {}", i)), id: *id })
        .collect();
    assert_eq!(stash_at(&records, 0).unwrap(), ids[0]);
    assert_eq!(stash_at(&records, 2).unwrap(), ids[2]);
    match stash_at(&records, 3) {
        Err(QueryError::RefNotFound { message }) => assert_eq!(message, "Stash not found"),
        other => panic!("unexpected: {:?}", other),
    }
    assert!(matches!(stash_at(&Vec::new(), 0), Err(QueryError::RefNotFound { .. })));
    assert_eq!(stash_message(&records[1]), "stash 1");
    let wordless = StashRecord { message: None, id: ids[0] };
    assert_eq!(stash_message(&wordless), "No message");
}

#[test]
fn the_named_branch_comes_before_head() {
    assert_eq!(resolve_start(Some("topic"), Some(1), Some(2)).unwrap(), 1);
    assert_eq!(resolve_start(Some("topic"), None, Some(2)).unwrap(), 2);
    assert_eq!(resolve_start(Some("topic"), Some(1), None).unwrap(), 1);
    assert_eq!(resolve_start(None, None, Some(2)).unwrap(), 2);
    match resolve_start::<u8>(Some("topic"), None, None) {
        Err(QueryError::RefNotFound { message }) => {
            assert_eq!(message, "Neither branch 'topic' nor HEAD leads to a commit")
        }
        other => panic!("unexpected: {:?}", other),
    }
    match resolve_start::<u8>(None, None, None) {
        Err(QueryError::RefNotFound { message }) => assert_eq!(message, "HEAD leads to no commit"),
        other => panic!("unexpected: {:?}", other),
    }
}

#[test]
fn numbers_in_decimal() {
    for n in [0usize, 1, 9, 10, 11, 99, 100, 1024, 3000, 1_048_576, usize::MAX] {
        assert_eq!(decimal(n), n.to_string());
    }
}

#[test]
fn failures_in_words() {
    let text = |e: QueryError| describe(&e);
    assert_eq!(
        text(QueryError::RepositoryNotFound { message: "no such path".to_string() }),
        "Failed to open repository: no such path"
    );
    assert_eq!(
        text(QueryError::RefNotFound { message: "unborn".to_string() }),
        "Reference not found: unborn"
    );
    assert_eq!(
        text(QueryError::InvalidCommitId { message: "bad hex".to_string() }),
        "Invalid commit ID: bad hex"
    );
    assert_eq!(
        text(QueryError::CommitNotFound { message: "gone".to_string() }),
        "Commit not found: gone"
    );
    assert_eq!(
        text(QueryError::FileNotFound {
            path: "src/a.rs".to_string(),
            place: "commit 'abc'".to_string(),
        }),
        "File 'src/a.rs' not found in commit 'abc'"
    );
    assert_eq!(text(QueryError::BinaryUnsupported), "Binary files cannot be shown as text");
    assert_eq!(text(QueryError::TooLarge { size: 2_097_152 }), "File too large (2048KB > 1MB)");
    assert_eq!(
        text(QueryError::TooManyLines { lines: 3001 }),
        "File has too many lines (3001 > 3000)"
    );
    assert_eq!(text(QueryError::InvalidEncoding), "File is not valid UTF-8");
    assert_eq!(
        text(QueryError::InvalidQuery { message: "empty".to_string() }),
        "Invalid query: empty"
    );
    assert_eq!(text(QueryError::Store { message: "odb failure".to_string() }), "odb failure");
}

#[test]
fn editor_file_names() {
    assert_eq!(
        editor_file_name("0123456789abcdef0123456789abcdef01234567", "main.rs"),
        "git_viewer_01234567_main.rs"
    );
    assert_eq!(editor_file_name("abc", "x"), "git_viewer_abc_x");
}

#[test]
fn scan_cap_defaults_to_one_hundred() {
    assert_eq!(commit_cap(None), 100);
    assert_eq!(commit_cap(Some(0)), 0);
    assert_eq!(commit_cap(Some(7)), 7);
}

#[test]
fn first_matching_line_is_found_across_hunks() {
    let hunks = vec![
        vec![line(' ', "nothing\n", Some(1), Some(1))],
        Vec::new(),
        vec![line('+', "a Needle here\n", None, Some(9)), line('+', "needle again\n", None, Some(10))],
    ];
    assert_eq!(find_hit_line(&hunks, &chars_of("needle")), Some((2, 0)));
    assert_eq!(find_hit_line(&hunks, &chars_of("again")), Some((2, 1)));
    assert_eq!(find_hit_line(&hunks, &chars_of("absent")), None);
    assert_eq!(find_hit_line(&Vec::new(), &chars_of("needle")), None);
}

#[test]
fn search_of_a_history() {
    let history = vec![
        CommitScan {
            commit: commit(&"a".repeat(40), "Add Token parser\n\nlong body", 1),
            changes: vec![
                change(
                    "src/token.rs",
                    vec![
                        line('+', "fn token() {}\n", None, Some(1)),
                        line('+', "// token again\n", None, Some(2)),
                    ],
                ),
                ChangeScan {
                    path: "assets/token.bin".to_string(),
                    binary: true,
                    hunks: vec![vec![line('+', "token", None, Some(1))]],
                },
                change("README.md", vec![line('-', "old TOKEN docs\n", Some(4), None)]),
            ],
        },
        CommitScan {
            commit: commit(&"b".repeat(40), "Merge token branch", 2),
            changes: vec![change("merged_token.txt", vec![line('+', "token", None, Some(1))])],
        },
        CommitScan { commit: commit(&"c".repeat(40), "Unrelated", 0), changes: Vec::new() },
    ];
    let results = search_history(&history, "TOKEN", None);
    let seen: Vec<_> = results
        .iter()
        .map(|r| {
            (
                r.result_type.as_str(),
                r.file_path.as_deref(),
                r.content_preview.as_deref(),
                r.line_number,
            )
        })
        .collect();
    assert_eq!(
        seen,
        vec![
            ("commit", None, Some("Add Token parser"), None),
            ("file", Some("src/token.rs"), Some("File: src/token.rs"), None),
            ("content", Some("src/token.rs"), Some("fn token() {}"), Some(1)),
            ("file", Some("assets/token.bin"), Some("File: assets/token.bin"), None),
            ("content", Some("README.md"), Some("old TOKEN docs"), Some(4)),
        ]
    );
    assert_eq!(results[0].commit_message, "Add Token parser\n\nlong body");
    assert_eq!(results[1].commit_message, "Add Token parser");
    assert!(results.iter().all(|r| r.commit_id == "a".repeat(40)));
    assert!(results.iter().all(|r| r.commit_author == "Ada"));
    assert!(results.iter().all(|r| r.commit_date == "2015-05-15 00:00:00"));

    assert!(search_history(&history, "", None).is_empty());
    assert!(search_history(&history, " \n\t", Some(5)).is_empty());
    assert!(search_history(&history, "token", Some(0)).is_empty());
    assert_eq!(search_history(&history, "unrelated", Some(2)).len(), 0);
    assert_eq!(search_history(&history, "unrelated", Some(3)).len(), 1);
    assert!(search_history(&history, "merge", None).is_empty());
}

#[test]
fn search_stops_at_fifty_results() {
    let history: Vec<CommitScan> = (0..30)
        .map(|i| CommitScan {
            commit: commit(&format!("{:040x}", i), "limit commit", 1),
            changes: vec![change(
                &format!("limitfile{}.txt", i),
                vec![line('+', "limit content\n", None, Some(1))],
            )],
        })
        .collect();
    let results = search_history(&history, "limit", None);
    assert_eq!(results.len(), 50);
    let kinds: Vec<_> = results.iter().take(4).map(|r| r.result_type.as_str()).collect();
    assert_eq!(kinds, vec!["commit", "file", "content", "commit"]);
    assert_eq!(results[49].result_type, "file");
    assert_eq!(results[49].commit_id, format!("{:040x}", 16));
    assert_eq!(search_history(&history, "limit", Some(2)).len(), 6);

    let mut partly_full = search_history(&history, "limit", Some(16));
    assert_eq!(partly_full.len(), 48);
    scan_commit(&history[20], &chars_of("limit"), &mut partly_full);
    assert_eq!(partly_full.len(), 50);
    scan_commit(&history[21], &chars_of("limit"), &mut partly_full);
    assert_eq!(partly_full.len(), 50);
}

#[test]
fn long_previews_end_in_an_ellipsis() {
    let long: String = std::iter::repeat("word ").take(40).collect();
    let history = vec![CommitScan {
        commit: commit(&"d".repeat(40), "plain", 1),
        changes: vec![change("long.txt", vec![line('+', &format!("{}\n", long), None, Some(1))])],
    }];
    let results = search_history(&history, "word", None);
    assert_eq!(results.len(), 1);
    let preview = results[0].content_preview.as_ref().unwrap();
    assert_eq!(preview.chars().count(), 100);
    assert_eq!(preview.as_str(), format!("{}...", &long[..97]));
}

#[test]
fn stashes_keep_their_positions() {
    let ids: Vec<git2::Oid> =
        ["0a", "0b", "0c"].iter().map(|hex| git2::Oid::from_str(hex).expect("an id")).collect();
    let records: Vec<StashRecord> = ids
        .iter()
        .enumerate()
        .map(|(i, id)| StashRecord { message: Some(format!("stash {}", i)), id: *id })
        .collect();
    let first = commit("1111111111111111111111111111111111111111", "WIP one", 2);
    let third = commit("3333333333333333333333333333333333333333", "WIP three", 2);
    let listed = list_stashes(&records, &vec![Some(first), None, Some(third)]);
    let seen: Vec<_> = listed
        .iter()
        .map(|s| (s.index, s.message.as_str(), s.commit_id.as_str()))
        .collect();
    assert_eq!(
        seen,
        vec![
            (0, "stash 0", "1111111111111111111111111111111111111111"),
            (2, "stash 2", "3333333333333333333333333333333333333333"),
        ]
    );
    assert!(list_stashes(&Vec::new(), &Vec::new()).is_empty());
}

#[test]
fn a_patch_takes_its_form_from_its_delta() {
    let hunks = vec![vec![line('+', "one\n", None, Some(1)), line(' ', "two\n", Some(1), Some(2))]];
    let text = DeltaRecord { new_binary: false, ..delta(DeltaKind::Modified, Some("a.txt"), Some("a.txt")) };
    let shown = patch_from("a.txt".to_string(), &text, &hunks).unwrap();
    assert!(!shown.is_binary);
    assert_eq!(shown.status, "modified");
    assert_eq!(shown.diff_lines.len(), 2);
    assert_eq!(shown.diff_lines[0].content, "one");

    let binary = DeltaRecord { old_binary: true, ..delta(DeltaKind::Deleted, None, Some("a.bin")) };
    let marked = patch_from("a.bin".to_string(), &binary, &hunks).unwrap();
    assert!(marked.is_binary);
    assert_eq!(marked.status, "deleted");
    assert!(marked.diff_lines.is_empty());

    let large = vec![vec![line('+', &"x".repeat(1_048_577), None, Some(1))]];
    match patch_from("a.txt".to_string(), &text, &large) {
        Err(QueryError::TooLarge { size }) => assert_eq!(size, 1_048_577),
        other => panic!("unexpected: {:?}", other),
    }
}

fn node(name: &str, kind: EntryKind, size: usize, children: Vec<TreeNode>) -> TreeNode {
    TreeNode { name: Some(name.to_string()), kind, size, children }
}

#[test]
fn a_tree_is_rendered_at_every_level() {
    let nodes = vec![
        node("zeta.txt", EntryKind::Blob, 7, Vec::new()),
        node("module", EntryKind::Commit, 0, Vec::new()),
        node(
            "src",
            EntryKind::Tree,
            0,
            vec![
                node("main.rs", EntryKind::Blob, 12, Vec::new()),
                node(
                    "deep",
                    EntryKind::Tree,
                    0,
                    vec![TreeNode {
                        name: None,
                        kind: EntryKind::Blob,
                        size: 3,
                        children: Vec::new(),
                    }],
                ),
                node("Lib.rs", EntryKind::Blob, 5, Vec::new()),
            ],
        ),
        node("Alpha", EntryKind::Blob, 1, Vec::new()),
    ];
    let items = render_level(&nodes, "");
    let top: Vec<_> = items
        .iter()
        .map(|i| (i.name.as_str(), i.path.as_str(), i.is_directory, i.size, i.file_type.as_str()))
        .collect();
    assert_eq!(
        top,
        vec![
            ("src", "src", true, None, "folder"),
            ("Alpha", "Alpha", false, Some(1), "file"),
            ("zeta.txt", "zeta.txt", false, Some(7), "text"),
        ]
    );
    let src = items[0].children.as_ref().unwrap();
    let inner: Vec<_> = src.iter().map(|i| (i.path.as_str(), i.is_directory, i.size)).collect();
    assert_eq!(
        inner,
        vec![("src/deep", true, None), ("src/Lib.rs", false, Some(5)), ("src/main.rs", false, Some(12))]
    );
    let deep = src[0].children.as_ref().unwrap();
    assert_eq!(deep.len(), 1);
    assert_eq!(deep[0].path, "src/deep/unknown");
    assert_eq!(deep[0].size, Some(3));
    assert!(render_level(&Vec::new(), "base").is_empty());
}
