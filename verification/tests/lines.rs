use ezio::read::{strip_terminator, ReadIterator};
use ezio::string::reader;
use ezio::Read;

fn read_lines(text: &str) -> Vec<String> {
    let mut r = reader(text);
    let mut lines = Vec::new();
    while !r.clone().read_all().is_empty() {
        lines.push(r.read_line());
    }
    lines
}

fn terminated(lines: &[&str]) -> String {
    let mut text = String::new();
    for line in lines {
        text.push_str(line);
        text.push('\n');
    }
    text
}

#[test]
fn lines_joined_give_the_text_again() {
    let texts = [
        "",
        "a",
        "a\nb",
        "line 1\n line 2",
        "a\n\nb",
        "\nb",
        "a\r\nb",
        "\u{e9}\n\u{1f600}",
    ];
    for text in texts {
        assert_eq!(read_lines(text).join("\n"), text);
    }
}

#[test]
fn lines_joined_lack_only_the_last_line_feed() {
    let texts = ["\n", "a\n", "a\nb\n", "a\n\n", "\n\n\n", "line 1\nline 2 \nline 3\n"];
    for text in texts {
        assert_eq!(read_lines(text).join("\n") + "\n", text);
    }
}

#[test]
fn iterated_lines_joined_give_the_text_again() {
    let open = ["", "a", "a\nb", "line 0\nline 1", "a\rb\n\rc", "a\r\nb", "\u{e9}\n\u{1f600}"];
    for text in open {
        assert_eq!(ReadIterator::new(reader(text)).collect().join("\n"), text);
        assert_eq!(reader(text).into_iter().collect().join("\n"), text);
    }
    let closed = ["\n", "a\n", "a\nb\n", "a\n\n", "a\r\n\u{e9}\n", "\r\r\r\n"];
    for text in closed {
        assert_eq!(ReadIterator::new(reader(text)).collect().join("\n") + "\n", text);
        assert_eq!(reader(text).into_iter().collect().join("\n") + "\n", text);
    }
}

#[test]
fn both_iterations_yield_what_line_reads_take() {
    let texts = ["", "\n", "a", "a\nb", "a\r\nb\n", "\n\n\u{4e16}", "x\n\ny\n"];
    for text in texts {
        let lines = read_lines(text);
        assert_eq!(ReadIterator::new(reader(text)).collect(), lines);
        assert_eq!(reader(text).into_iter().collect(), lines);
    }
}

#[test]
fn stripped_chunks_joined_give_closed_text_again() {
    let closed = ["a\n", "a\nb\n", "\n", "a\r\n\u{e9}\n"];
    for text in closed {
        let mut r = reader(text);
        let mut lines = Vec::new();
        loop {
            let chunk = r.read_chunk();
            if chunk.is_empty() {
                break;
            }
            lines.push(strip_terminator(chunk));
        }
        assert_eq!(lines.join("\n") + "\n", text);
    }
}

#[test]
fn stripped_chunks_of_open_text_lose_a_character() {
    let mut r = reader("a\nb");
    assert_eq!(strip_terminator(r.read_chunk()), "a");
    assert_eq!(strip_terminator(r.read_chunk()), "");
}

#[test]
fn every_terminated_line_is_yielded_once_and_in_order() {
    let cases: [&[&str]; 5] = [
        &[],
        &[""],
        &["line 0", "line 1"],
        &["", "", ""],
        &["a", "", " b ", "\u{e9}\u{4e16}", "c\rd"],
    ];
    for lines in cases {
        let text = terminated(lines);
        assert_eq!(read_lines(&text), lines);
        assert_eq!(ReadIterator::new(reader(&text)).collect(), lines);
        assert_eq!(reader(&text).into_iter().collect(), lines);

        let mut iter = ReadIterator::new(reader(&text));
        for line in lines {
            assert_eq!(iter.next().as_deref(), Some(*line));
        }
        assert_eq!(iter.next(), None);
        assert_eq!(iter.next(), None);
    }
}
