use ezio::read::{line_of_chunk, read, strip_terminator, ReadIterator};
use ezio::string::{reader, writer};
use ezio::{Read, Write};

#[test]
fn strip_terminator_takes_the_line_feed() {
    assert_eq!(strip_terminator(String::from("line 2 \n")), "line 2 ");
    assert_eq!(strip_terminator(String::from("\n")), "");
    assert_eq!(strip_terminator(String::from("a\r\n")), "a\r");
}

#[test]
fn strip_terminator_takes_any_last_character() {
    assert_eq!(strip_terminator(String::from("line 3")), "line ");
    assert_eq!(strip_terminator(String::from("x")), "");
    assert_eq!(strip_terminator(String::from("caf\u{e9}")), "caf");
    assert_eq!(strip_terminator(String::from("ok\u{1f600}")), "ok");
    assert_eq!(strip_terminator(String::from("\u{4e16}\u{754c}")), "\u{4e16}");
}

#[test]
fn line_of_chunk_tells_the_end_from_an_empty_line() {
    assert_eq!(line_of_chunk(String::new()), None);
    assert_eq!(line_of_chunk(String::from("\n")), Some(String::new()));
    assert_eq!(line_of_chunk(String::from("a\n")), Some(String::from("a")));
}

#[test]
fn line_of_chunk_takes_a_line_feed_and_nothing_else() {
    assert_eq!(line_of_chunk(String::from("ab")), Some(String::from("ab")));
    assert_eq!(line_of_chunk(String::from("a\r\n")), Some(String::from("a\r")));
    assert_eq!(line_of_chunk(String::from("a\r")), Some(String::from("a\r")));
    assert_eq!(line_of_chunk(String::from("\u{e9}")), Some(String::from("\u{e9}")));
    assert_eq!(line_of_chunk(String::from("\u{4e16}\n")), Some(String::from("\u{4e16}")));
    assert_eq!(line_of_chunk(String::from("\u{10a}")), Some(String::from("\u{10a}")));
}

#[test]
fn read_iterator_yields_each_terminated_line() {
    let mut iter = ReadIterator::new(reader("line 1\nline 2 \nline 3\n"));
    assert_eq!(iter.next(), Some(String::from("line 1")));
    assert_eq!(iter.next(), Some(String::from("line 2 ")));
    assert_eq!(iter.next(), Some(String::from("line 3")));
    assert_eq!(iter.next(), None);
}

#[test]
fn read_iterator_stays_at_the_end() {
    let mut iter = ReadIterator::new(reader("a\n"));
    assert_eq!(iter.next(), Some(String::from("a")));
    for _ in 0..5 {
        assert_eq!(iter.next(), None);
    }
}

#[test]
fn read_iterator_yields_an_open_last_line_whole() {
    let all = ReadIterator::new(reader("line 0\nline 1")).collect();
    assert_eq!(all, vec!["line 0", "line 1"]);
    let mut iter = ReadIterator::new(reader("a\nb"));
    assert_eq!(iter.next(), Some(String::from("a")));
    assert_eq!(iter.next(), Some(String::from("b")));
    assert_eq!(iter.next(), None);
}

#[test]
fn read_iterator_collects_in_order() {
    let all = ReadIterator::new(reader("a\n\nb\r\n\u{e9}\n")).collect();
    assert_eq!(all, vec!["a", "", "b\r", "\u{e9}"]);
    let none = ReadIterator::new(reader("")).collect();
    assert_eq!(none, Vec::<String>::new());
}

#[test]
fn read_iterator_goes_on_where_the_reader_stands() {
    let mut r = reader("a\nb\nc\n");
    assert_eq!(r.read_line(), "a");
    assert_eq!(ReadIterator::new(r).collect(), vec!["b", "c"]);
}

#[test]
fn read_returns_all_that_is_left() {
    assert_eq!(read(reader("line 1\nline 2 \nline 3\n")), "line 1\nline 2 \nline 3\n");
    let mut r = reader("a\nb");
    r.read_line();
    assert_eq!(read(r), "b");
    assert_eq!(read(reader("")), "");
}

#[test]
fn write_appends_and_hands_the_sink_back() {
    let w = ezio::write::write(writer(), "Some text\n");
    let w = ezio::write::write(w, "Some more text");
    assert_eq!(w.as_ref(), "Some text\nSome more text");
}

#[test]
fn written_text_reads_back_unchanged() {
    let texts = [
        "",
        "\n",
        "line 1\nline 2 \nline 3\n",
        "no line feed at the end",
        "\r\n\t \u{e9}\u{4e16}\u{1f600}\n\n",
    ];
    for text in texts {
        let mut w = writer();
        w.write(text);
        let held: String = w.into();
        assert_eq!(reader(&held).read_all(), text);
        assert_eq!(read(reader(&held)), text);
    }
}

#[test]
fn text_written_in_pieces_reads_back_as_one() {
    let mut w = writer();
    w.write("line 1\nli");
    w.write_any("ne ");
    w.write_any(2);
    w.write("\n");
    let held: String = w.into();
    assert_eq!(reader(&held).read_all(), "line 1\nline 2\n");
    let mut r = reader(&held);
    assert_eq!(r.read_line(), "line 1");
    assert_eq!(r.read_line(), "line 2");
}
