use ezio::scan::{
    cut_at_boundary, find_boundary, find_line_feed, split, split_last, trim_line_feed,
};

#[test]
fn find_line_feed_gives_the_first_position() {
    assert_eq!(find_line_feed(b"line 1\nline 2\n"), 6);
    assert_eq!(find_line_feed(b"\n"), 0);
    assert_eq!(find_line_feed(b"\r\n"), 1);
}

#[test]
fn find_line_feed_gives_the_length_without_one() {
    assert_eq!(find_line_feed(b"line 1"), 6);
    assert_eq!(find_line_feed(b""), 0);
    assert_eq!(find_line_feed("\u{4e16}".as_bytes()), 3);
}

#[test]
fn split_around_a_line_feed() {
    let p = split("line 1\n line 2\nline 3");
    assert_eq!(p.line, "line 1");
    assert_eq!(p.chunk, "line 1\n");
    assert_eq!(p.rest, " line 2\nline 3");
    assert!(p.terminated);
}

#[test]
fn split_without_a_line_feed() {
    let p = split(" line 2");
    assert_eq!(p.line, " line 2");
    assert_eq!(p.chunk, " line 2");
    assert_eq!(p.rest, "");
    assert!(!p.terminated);
}

#[test]
fn split_of_empty_text() {
    let p = split("");
    assert_eq!((p.line, p.chunk, p.rest, p.terminated), ("", "", "", false));
}

#[test]
fn split_at_a_leading_or_trailing_line_feed() {
    let p = split("\nx");
    assert_eq!((p.line, p.chunk, p.rest, p.terminated), ("", "\n", "x", true));
    let p = split("x\n");
    assert_eq!((p.line, p.chunk, p.rest, p.terminated), ("x", "x\n", "", true));
    let p = split("\n");
    assert_eq!((p.line, p.chunk, p.rest, p.terminated), ("", "\n", "", true));
}

#[test]
fn split_between_characters_of_several_bytes() {
    let p = split("\u{e9}\u{1f600}\n\u{4e16}\n");
    assert_eq!(p.line, "\u{e9}\u{1f600}");
    assert_eq!(p.chunk, "\u{e9}\u{1f600}\n");
    assert_eq!(p.rest, "\u{4e16}\n");
}

#[test]
fn split_last_cuts_before_the_last_character() {
    assert_eq!(split_last("abc"), ("ab", "c"));
    assert_eq!(split_last("a\n"), ("a", "\n"));
    assert_eq!(split_last("x"), ("", "x"));
    assert_eq!(split_last(""), ("", ""));
    assert_eq!(split_last("a\u{e9}"), ("a", "\u{e9}"));
    assert_eq!(split_last("a\u{4e16}"), ("a", "\u{4e16}"));
    assert_eq!(split_last("\u{e9}\u{1f600}"), ("\u{e9}", "\u{1f600}"));
}

#[test]
fn trim_line_feed_takes_one_from_the_end() {
    assert_eq!(trim_line_feed("a\n"), "a");
    assert_eq!(trim_line_feed("a\n\n"), "a\n");
    assert_eq!(trim_line_feed("\n"), "");
    assert_eq!(trim_line_feed("a\r\n"), "a\r");
    assert_eq!(trim_line_feed("\u{4e16}\n"), "\u{4e16}");
}

#[test]
fn trim_line_feed_leaves_any_other_end() {
    assert_eq!(trim_line_feed("\na"), "\na");
    assert_eq!(trim_line_feed("a"), "a");
    assert_eq!(trim_line_feed("a\r"), "a\r");
    assert_eq!(trim_line_feed(""), "");
    assert_eq!(trim_line_feed("\u{e9}"), "\u{e9}");
    assert_eq!(trim_line_feed("\u{10a}"), "\u{10a}");
}

#[test]
fn cut_at_boundary_cuts_between_characters() {
    assert_eq!(cut_at_boundary("a\u{e9}b", 0), ("", "a\u{e9}b"));
    assert_eq!(cut_at_boundary("a\u{e9}b", 1), ("a", "\u{e9}b"));
    assert_eq!(cut_at_boundary("a\u{e9}b", 3), ("a\u{e9}", "b"));
    assert_eq!(cut_at_boundary("a\u{e9}b", 4), ("a\u{e9}b", ""));
    assert_eq!(cut_at_boundary("", 0), ("", ""));
}

#[test]
fn find_boundary_gives_the_end_of_the_character() {
    let bytes = "a\u{4e16}\u{e9}".as_bytes();
    assert_eq!(find_boundary(bytes, 0), 0);
    assert_eq!(find_boundary(bytes, 1), 1);
    assert_eq!(find_boundary(bytes, 2), 4);
    assert_eq!(find_boundary(bytes, 3), 4);
    assert_eq!(find_boundary(bytes, 4), 4);
    assert_eq!(find_boundary(bytes, 5), 6);
    assert_eq!(find_boundary(bytes, 6), 6);
    assert_eq!(find_boundary(bytes, 9), 9);
    assert_eq!(find_boundary(b"", 0), 0);
}
