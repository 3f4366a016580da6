//! Finding line boundaries in UTF-8 text.
//!
//! A `&str` is cut at byte positions, while the contracts of this crate speak
//! of characters. The functions here look for the line feed among the bytes,
//! cut there, and prove that the pieces are the ones that [`crate::text`]
//! names.

use crate::text::{
    first_chunk, first_line, is_line_end, is_terminated, lemma_chunk_and_rest, lemma_line_end,
    lemma_line_end_unique, rest, stripped, without_line_feed, LINE_FEED,
};
use vstd::prelude::*;
use vstd::string::StringSliceAdditionalSpecFns;
use vstd::utf8::{
    char_u32_cast, decode_utf8_split, encode_scalar, encode_utf8, encode_utf8_decode_utf8,
    encode_utf8_valid_utf8, has_width_1_encoding, has_width_2_encoding, has_width_3_encoding,
    is_char_boundary, is_char_boundary_iff_not_is_continuation_byte,
    is_char_boundary_start_end_of_seq, is_continuation_byte, last_continuation_byte,
    leading_byte_width_1, leading_byte_width_2, leading_byte_width_3, leading_byte_width_4,
    second_last_continuation_byte, third_last_continuation_byte,
};

verus! {

/// The byte that encodes a line feed.
pub const LINE_FEED_BYTE: u8 = 0x0A;

/// The encoding of one character is never empty and starts with a byte that is
/// no continuation byte. A character `a` of the ASCII range is encoded as the
/// one byte with its number, and that byte occurs in the encoding of no other
/// character.
proof fn lemma_encode_scalar_bytes(c: char, a: char)
    requires
        a as u32 <= 0x7F,
    ensures
        encode_scalar(c as u32).len() >= 1,
        !is_continuation_byte(encode_scalar(c as u32)[0]),
        c == a ==> encode_scalar(c as u32) == seq![a as u8],
        c != a ==> !encode_scalar(c as u32).contains(a as u8),
{
    let v = c as u32;
    char_u32_cast(c, v);
    char_u32_cast(a, a as u32);
    if has_width_1_encoding(v) {
        assert(leading_byte_width_1(v) == v && leading_byte_width_1(v) <= 0x7F) by (bit_vector)
            requires
                has_width_1_encoding(v),
        ;
        assert(encode_scalar(v) =~= seq![leading_byte_width_1(v)]);
    } else if has_width_2_encoding(v) {
        assert(leading_byte_width_2(v) >= 0xC0 && last_continuation_byte(v) >= 0x80)
            by (bit_vector);
    } else if has_width_3_encoding(v) {
        assert(leading_byte_width_3(v) >= 0xE0 && second_last_continuation_byte(v) >= 0x80
            && last_continuation_byte(v) >= 0x80) by (bit_vector);
    } else {
        assert(leading_byte_width_4(v) >= 0xF0 && third_last_continuation_byte(v) >= 0x80
            && second_last_continuation_byte(v) >= 0x80 && last_continuation_byte(v) >= 0x80)
            by (bit_vector);
    }
}

/// An encoding has at least as many bytes as the text has characters.
proof fn lemma_encoding_len(chars: Seq<char>)
    ensures
        encode_utf8(chars).len() >= chars.len(),
    decreases chars.len(),
{
    if chars.len() > 0 {
        lemma_encode_scalar_bytes(chars[0], LINE_FEED);
        lemma_encoding_len(chars.drop_first());
    }
}

/// The encoding of a text that is not empty starts with the encoding of its
/// first character, so with a byte that is no continuation byte.
proof fn lemma_encoding_starts(chars: Seq<char>)
    requires
        chars.len() > 0,
    ensures
        encode_utf8(chars).len() >= 1,
        !is_continuation_byte(encode_utf8(chars)[0]),
        encode_utf8(chars) == encode_scalar(chars[0] as u32) + encode_utf8(chars.drop_first()),
{
    lemma_encode_scalar_bytes(chars[0], LINE_FEED);
}

/// A text holds a line feed exactly when its encoding holds the line feed
/// byte.
proof fn lemma_line_feed_in_encoding(chars: Seq<char>)
    ensures
        chars.contains(LINE_FEED) <==> encode_utf8(chars).contains(LINE_FEED_BYTE),
    decreases chars.len(),
{
    let bytes = encode_utf8(chars);
    if chars.len() == 0 {
    } else {
        let head = encode_scalar(chars[0] as u32);
        let tail = chars.drop_first();
        lemma_encode_scalar_bytes(chars[0], LINE_FEED);
        lemma_line_feed_in_encoding(tail);
        assert(bytes == head + encode_utf8(tail));
        if chars.contains(LINE_FEED) {
            let i = choose|i: int| 0 <= i < chars.len() && chars[i] == LINE_FEED;
            if i == 0 {
                assert(bytes[0] == LINE_FEED_BYTE);
            } else {
                assert(tail[i - 1] == LINE_FEED);
                let j = choose|j: int|
                    0 <= j < encode_utf8(tail).len() && encode_utf8(tail)[j] == LINE_FEED_BYTE;
                assert(bytes[head.len() + j] == LINE_FEED_BYTE);
            }
        }
        if bytes.contains(LINE_FEED_BYTE) {
            let j = choose|j: int| 0 <= j < bytes.len() && bytes[j] == LINE_FEED_BYTE;
            if j < head.len() {
                assert(head[j] == LINE_FEED_BYTE);
                assert(chars[0] == LINE_FEED);
            } else {
                assert(encode_utf8(tail)[j - head.len()] == LINE_FEED_BYTE);
                let i = choose|i: int| 0 <= i < tail.len() && tail[i] == LINE_FEED;
                assert(chars[i + 1] == LINE_FEED);
            }
        }
    }
}

/// A text that is encoded as the one byte of a character of the ASCII range
/// is that character alone.
proof fn lemma_single_ascii(chars: Seq<char>, a: char)
    requires
        a as u32 <= 0x7F,
        encode_utf8(chars) == seq![a as u8],
    ensures
        chars == seq![a],
{
    lemma_encoding_len(chars);
    lemma_encode_scalar_bytes(chars[0], a);
    lemma_encoding_len(chars.drop_first());
    if chars[0] != a {
        assert(encode_scalar(chars[0] as u32)[0] == a as u8);
    }
    assert(chars =~= seq![a]);
}

/// The position of the first line feed byte in `bytes`, or their number if
/// there is none.
pub fn find_line_feed(bytes: &[u8]) -> (n: usize)
    ensures
        n <= bytes@.len(),
        forall|j: int| 0 <= j < n ==> bytes@[j] != LINE_FEED_BYTE,
        n < bytes@.len() ==> bytes@[n as int] == LINE_FEED_BYTE,
{
    let mut i: usize = 0;
    while i < bytes.len()
        invariant
            i <= bytes@.len(),
            forall|j: int| 0 <= j < i ==> bytes@[j] != LINE_FEED_BYTE,
        decreases bytes@.len() - i,
    {
        if bytes[i] == LINE_FEED_BYTE {
            return i;
        }
        i += 1;
    }
    i
}

/// The first position at or behind `from` where no continuation byte stands:
/// `from` itself if it lies between two characters of UTF-8 text or at its
/// end, and else the end of the character that `from` lies in.
pub open spec fn next_boundary(bytes: Seq<u8>, from: int) -> int
    decreases bytes.len() - from,
{
    if 0 <= from < bytes.len() && is_continuation_byte(bytes[from]) {
        next_boundary(bytes, from + 1)
    } else {
        from
    }
}

/// Finds the first position at or behind `from` where no continuation byte
/// stands.
pub fn find_boundary(bytes: &[u8], from: usize) -> (end: usize)
    ensures
        end == next_boundary(bytes@, from as int),
        from <= end,
        from <= bytes@.len() ==> end <= bytes@.len(),
        end < bytes@.len() ==> !is_continuation_byte(bytes@[end as int]),
{
    let mut end: usize = from;
    while end < bytes.len() && 0x80 <= bytes[end] && bytes[end] <= 0xBF
        invariant
            from <= end,
            from <= bytes@.len() ==> end <= bytes@.len(),
            next_boundary(bytes@, end as int) == next_boundary(bytes@, from as int),
        decreases bytes@.len() - end,
    {
        end += 1;
    }
    end
}

/// Cuts `s` at the byte position `mid`, which lies between two characters.
pub fn cut_at_boundary<'a>(s: &'a str, mid: usize) -> (parts: (&'a str, &'a str))
    requires
        is_char_boundary(s.spec_bytes(), mid as int),
    ensures
        s@ == parts.0@ + parts.1@,
        parts.0.spec_bytes() == s.spec_bytes().subrange(0, mid as int),
        parts.1.spec_bytes() == s.spec_bytes().subrange(mid as int, s.spec_bytes().len() as int),
{
    let ghost bytes = s.spec_bytes();
    let parts = s.split_at(mid);
    proof {
        encode_utf8_valid_utf8(s@);
        decode_utf8_split(bytes, mid as int);
        encode_utf8_decode_utf8(s@);
        encode_utf8_decode_utf8(parts.0@);
        encode_utf8_decode_utf8(parts.1@);
    }
    parts
}

/// Cuts `s` at the byte position `mid`, where no continuation byte stands.
fn cut<'a>(s: &'a str, mid: usize) -> (parts: (&'a str, &'a str))
    requires
        mid <= s.spec_bytes().len(),
        mid < s.spec_bytes().len() ==> !is_continuation_byte(s.spec_bytes()[mid as int]),
    ensures
        s@ == parts.0@ + parts.1@,
        parts.0.spec_bytes() == s.spec_bytes().subrange(0, mid as int),
        parts.1.spec_bytes() == s.spec_bytes().subrange(mid as int, s.spec_bytes().len() as int),
{
    let ghost bytes = s.spec_bytes();
    proof {
        encode_utf8_valid_utf8(s@);
        if mid < bytes.len() {
            is_char_boundary_iff_not_is_continuation_byte(bytes, mid as int);
        } else {
            is_char_boundary_start_end_of_seq(bytes);
        }
    }
    cut_at_boundary(s, mid)
}

/// The three pieces of a text around its first line end.
pub struct Pieces<'a> {
    /// The first line, without its terminator.
    pub line: &'a str,
    /// The first line with its line feed, if it has one.
    pub chunk: &'a str,
    /// What follows the first chunk.
    pub rest: &'a str,
    /// Whether a line feed closes the first line.
    pub terminated: bool,
}

/// Cuts `s` around the end of its first line.
pub fn split(s: &str) -> (pieces: Pieces<'_>)
    ensures
        pieces.line@ == first_line(s@),
        pieces.chunk@ == first_chunk(s@),
        pieces.rest@ == rest(s@),
        pieces.terminated == is_terminated(s@),
{
    let bytes = s.as_bytes();
    let n = find_line_feed(bytes);
    let (line, tail) = cut(s, n);
    proof {
        lemma_line_feed_in_encoding(line@);
        lemma_line_end(s@);
        lemma_chunk_and_rest(s@);
        lemma_encoding_len(tail@);
        assert forall|j: int| 0 <= j < line@.len() implies line@[j] != LINE_FEED by {
            if line@[j] == LINE_FEED {
                let i = choose|i: int|
                    0 <= i < line.spec_bytes().len() && line.spec_bytes()[i] == LINE_FEED_BYTE;
                assert(bytes@[i] == LINE_FEED_BYTE);
            }
        }
    }
    if n < bytes.len() {
        proof {
            lemma_encoding_starts(tail@);
            lemma_encode_scalar_bytes(tail@[0], LINE_FEED);
            assert(tail.spec_bytes()[0] == LINE_FEED_BYTE);
            assert(tail@[0] == LINE_FEED);
            if tail@.len() > 1 {
                lemma_encoding_starts(tail@.drop_first());
                assert(tail.spec_bytes()[1] == encode_utf8(tail@.drop_first())[0]);
            } else {
                assert(encode_utf8(tail@.drop_first()).len() == 0);
            }
            assert(s@[line@.len() as int] == tail@[0]);
            assert(is_line_end(s@, line@.len() as int));
            lemma_line_end_unique(s@, line@.len() as int);
        }
        let (feed, after) = cut(tail, 1);
        proof {
            assert(feed.spec_bytes() =~= seq![LINE_FEED_BYTE]);
            lemma_single_ascii(feed@, LINE_FEED);
            if n + 1 < bytes@.len() {
                assert(bytes@[n + 1] == tail.spec_bytes()[1]);
            }
        }
        let (chunk, behind) = cut(s, n + 1);
        proof {
            assert(behind.spec_bytes() =~= after.spec_bytes());
            encode_utf8_decode_utf8(behind@);
            encode_utf8_decode_utf8(after@);
            assert(after@ =~= rest(s@));
            assert(line@ =~= first_line(s@));
            assert(chunk@ =~= first_chunk(s@)) by {
                assert(chunk@.len() == first_chunk(s@).len());
                assert forall|i: int| 0 <= i < chunk@.len() implies chunk@[i] == first_chunk(
                    s@,
                )[i] by {
                    assert(chunk@[i] == (chunk@ + behind@)[i]);
                }
            }
        }
        Pieces { line, chunk, rest: after, terminated: true }
    } else {
        proof {
            assert(tail@.len() == 0);
            assert(s@ =~= line@);
            assert(is_line_end(s@, s@.len() as int));
            lemma_line_end_unique(s@, s@.len() as int);
            assert(tail@ =~= rest(s@));
        }
        Pieces { line, chunk: line, rest: tail, terminated: false }
    }
}

/// Cuts `s` before its last character. An empty text gives two empty pieces.
pub fn split_last(s: &str) -> (parts: (&str, &str))
    ensures
        s@ == parts.0@ + parts.1@,
        s@.len() == 0 ==> parts.0@.len() == 0 && parts.1@.len() == 0,
        s@.len() > 0 ==> parts.0@ == stripped(s@) && parts.1@ == seq![s@.last()],
{
    let bytes = s.as_bytes();
    let len = bytes.len();
    proof {
        lemma_encoding_len(s@);
    }
    if len == 0 {
        proof {
            assert(s@ =~= s@ + s@);
        }
        return (s, s);
    }
    let mut k: usize = len - 1;
    while k > 0 && 0x80 <= bytes[k] && bytes[k] <= 0xBF
        invariant
            k < len,
            len == bytes@.len(),
            forall|j: int| k < j < len ==> is_continuation_byte(#[trigger] bytes@[j]),
        decreases k,
    {
        k -= 1;
    }
    proof {
        if k == 0 {
            lemma_encoding_starts(s@);
        }
    }
    let (front, last) = cut(s, k);
    proof {
        let tail = last.spec_bytes();
        lemma_encoding_len(last@);
        if last@.len() >= 2 {
            lemma_encoding_starts(last@);
            lemma_encoding_starts(last@.drop_first());
            let width = encode_scalar(last@[0] as u32).len() as int;
            assert(tail[width] == encode_utf8(last@.drop_first())[0]);
            assert(tail[width] == bytes@[k + width]);
        }
        assert(last@ =~= seq![s@.last()]);
        assert(front@ =~= s@.drop_last());
    }
    (front, last)
}

/// The text without a line feed at its end.
pub fn trim_line_feed(chunk: &str) -> (trimmed: &str)
    ensures
        trimmed@ == without_line_feed(chunk@),
{
    let (front, last) = split_last(chunk);
    let bytes = last.as_bytes();
    proof {
        if chunk@.len() > 0 {
            lemma_encoding_starts(last@);
            lemma_encode_scalar_bytes(chunk@.last(), LINE_FEED);
            assert(encode_utf8(last@.drop_first()).len() == 0);
        }
    }
    if bytes.len() > 0 && bytes[0] == LINE_FEED_BYTE {
        front
    } else {
        chunk
    }
}

} // verus!
