use git_viewer::text::{blank, chars_of, contains_text, first_line_of, make_preview, split_lines};

#[test]
fn blank_queries_are_recognised() {
    assert!(blank(""));
    assert!(blank(" \t\n"));
    assert!(blank("\u{3000}\u{2003}"));
    assert!(!blank(" a "));
}

#[test]
fn first_line_stops_at_the_newline() {
    assert_eq!(first_line_of("Initial commit\n\nbody"), "Initial commit");
    assert_eq!(first_line_of("one\r\ntwo"), "one");
    assert_eq!(first_line_of("no newline\r"), "no newline\r");
    assert_eq!(first_line_of(""), "");
    assert_eq!(first_line_of("\nsecond"), "");
}

#[test]
fn lines_are_split_as_std_splits_them() {
    for text in ["", "a", "a\n", "a\nb", "a\n\nb\n", "a\r\nb\r\n", "\n", "\r\n\r", "x\ny\n\n"] {
        let expected: Vec<String> = text.lines().map(|l| l.to_string()).collect();
        assert_eq!(split_lines(&chars_of(text)), expected, "{:?}", text);
    }
}

#[test]
fn previews_are_cut_at_one_hundred_characters() {
    let long: String = std::iter::repeat('x').take(150).collect();
    let preview = make_preview(&chars_of(&long));
    assert_eq!(preview.chars().count(), 100);
    assert!(preview.ends_with("..."));
    assert_eq!(&preview[..97], &long[..97]);
    let exact: String = std::iter::repeat('y').take(100).collect();
    assert_eq!(make_preview(&chars_of(&format!("{}\n", exact))), exact);
    assert_eq!(make_preview(&chars_of("short\n\n")), "short");
}

#[test]
fn containment_finds_every_position() {
    let hay = chars_of("the quick brown fox");
    assert!(contains_text(&hay, &chars_of("the")));
    assert!(contains_text(&hay, &chars_of("fox")));
    assert!(contains_text(&hay, &chars_of("k b")));
    assert!(contains_text(&hay, &chars_of("")));
    assert!(!contains_text(&hay, &chars_of("foxes")));
    assert!(!contains_text(&chars_of(""), &chars_of("a")));
}
