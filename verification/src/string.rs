//! Text in memory as a source and as a sink.
//!
//! A [`Reader`] looks at borrowed text, a [`Writer`] gathers what is written
//! into a `String`. Neither touches the outside world, so they stand in for
//! files and streams wherever code is written against [`Read`] and [`Write`].

use crate::read::{texts, Read, ReadIterator};
use crate::scan::{cut_at_boundary, find_boundary, next_boundary, split};
use crate::text::{first_line, lines, rest};
use crate::write::Write;
use vstd::math::min;
use vstd::prelude::*;
use vstd::slice::slice_subrange;
use vstd::string::{StringExecFns, StringSliceAdditionalSpecFns};
use vstd::utf8::{
    decode_utf8, encode_utf8, encode_utf8_decode_utf8, encode_utf8_valid_utf8,
    is_char_boundary_iff_not_is_continuation_byte, is_char_boundary_start_end_of_seq, valid_utf8,
};

verus! {

/// A reader over `s`.
pub fn reader(s: &str) -> (r: Reader<'_>)
    ensures
        r@ == s@,
        r.pending().len() == 0,
{
    Reader { text: s, begun: None }
}

/// A writer that has received nothing yet.
pub fn writer() -> (w: Writer)
    ensures
        w@ == Seq::<char>::empty(),
{
    Writer(String::new())
}

/// A source that reads from borrowed text, and no read from it fails.
///
/// It holds the text that is left. A byte read may end inside a character:
/// the reader then also holds the bytes of that character which are still to
/// come. They go to the next byte reads; a read of text passes them over and
/// starts with the next whole character.
#[derive(Clone, Debug)]
pub struct Reader<'a> {
    text: &'a str,
    begun: Option<&'a [u8]>,
}

/// A sink that gathers what is written to it.
#[derive(Clone, Debug)]
pub struct Writer(String);

/// Iterates over the lines of borrowed text.
pub struct StrIterReader<'a>(ReadIterator<Reader<'a>>);

impl<'a> View for Reader<'a> {
    type V = Seq<char>;

    /// The text that is left to read: the whole characters that no read has
    /// touched.
    closed spec fn view(&self) -> Seq<char> {
        self.text@
    }
}

impl View for Writer {
    type V = Seq<char>;

    /// The text gathered so far.
    closed spec fn view(&self) -> Seq<char> {
        self.0@
    }
}

impl<'a> View for StrIterReader<'a> {
    type V = Seq<char>;

    /// The text that the iteration has yet to go through.
    closed spec fn view(&self) -> Seq<char> {
        self.0.unread()
    }
}

impl Writer {
    /// The text gathered so far.
    pub fn as_ref(&self) -> (text: &str)
        ensures
            text@ == self@,
    {
        self.0.as_str()
    }

    /// Gives up the writer for the text it gathered.
    pub fn into(self) -> (text: String)
        ensures
            text@ == self@,
    {
        self.0
    }

    /// Appends the text that `b` encodes in UTF-8, and returns the number of
    /// bytes taken, which is all of them. Bytes that are no text are an error
    /// of the caller.
    pub fn write_bytes(&mut self, b: &[u8]) -> (n: usize)
        requires
            valid_utf8(b@),
        ensures
            n == b@.len(),
            final(self)@ == old(self)@ + decode_utf8(b@),
    {
        if let Some(s) = text_of(b) {
            proof {
                encode_utf8_decode_utf8(s@);
            }
            self.0.append(s);
        }
        b.len()
    }
}

/// Calls `std::str::from_utf8`, which returns the bytes as text if they are
/// well-formed UTF-8, and an error, here `None`, if they are not.
#[verifier::external_body]
fn text_of(bytes: &[u8]) -> (text: Option<&str>)
    ensures
        text.is_some() == valid_utf8(bytes@),
        text matches Some(s) ==> s.spec_bytes() == bytes@,
{
    std::str::from_utf8(bytes).ok()
}

impl Write for Writer {
    open spec fn written(&self) -> Seq<char> {
        self@
    }

    fn write(&mut self, s: &str) {
        self.0.append(s);
    }
}

impl<'a> Read for Reader<'a> {
    open spec fn unread(&self) -> Seq<char> {
        self@
    }

    open spec fn empty_line_at_end() -> bool {
        true
    }

    /// Returns the text that is left, and leaves nothing.
    fn read_all(&mut self) -> (text: String)
        ensures
            final(self).pending().len() == 0,
    {
        let text = self.text.to_owned();
        proof {
            reveal_strlit("");
        }
        self.text = "";
        self.begun = None;
        text
    }

    /// Returns the text before the next line feed and goes on behind that
    /// line feed; without a line feed, returns all that is left. At the end of
    /// the text the line is empty.
    fn read_line(&mut self) -> (line: String)
        ensures
            line@ == first_line(old(self)@),
            final(self).pending().len() == 0,
    {
        let pieces = split(self.text);
        self.text = pieces.rest;
        self.begun = None;
        pieces.line.to_owned()
    }

    /// Returns the text up to and with the next line feed and goes on behind
    /// it; without a line feed, returns all that is left.
    fn read_chunk(&mut self) -> (chunk: String)
        ensures
            final(self).pending().len() == 0,
    {
        let pieces = split(self.text);
        self.text = pieces.rest;
        self.begun = None;
        pieces.chunk.to_owned()
    }
}

impl<'a> From<&'a str> for Reader<'a> {
    /// A reader over `s`, as `reader` gives it.
    fn from(s: &'a str) -> (r: Reader<'a>)
        ensures
            r@ == s@,
            r.pending().len() == 0,
    {
        Reader { text: s, begun: None }
    }
}

impl<'a> vstd::std_specs::convert::FromSpecImpl<&'a str> for Reader<'a> {
    open spec fn obeys_from_spec() -> bool {
        true
    }

    closed spec fn from_spec(s: &'a str) -> Reader<'a> {
        Reader { text: s, begun: None }
    }
}

/// Copies bytes of `src` into `buf` from position `at` on, as many as `src`
/// has and `buf` has room for, and returns their number.
fn copy_into(src: &[u8], buf: &mut [u8], at: usize) -> (count: usize)
    requires
        at <= old(buf)@.len(),
    ensures
        count == min(src@.len() as int, old(buf)@.len() - at),
        final(buf)@ == old(buf)@.subrange(0, at as int) + src@.subrange(0, count as int) + old(
            buf,
        )@.subrange(at + count, old(buf)@.len() as int),
{
    let len = buf.len();
    let room = len - at;
    let count = if src.len() < room {
        src.len()
    } else {
        room
    };
    let mut i: usize = 0;
    while i < count
        invariant
            i <= count,
            at + count <= len,
            count <= src@.len(),
            buf@.len() == len,
            old(buf)@.len() == len,
            forall|j: int| 0 <= j < at ==> buf@[j] == old(buf)@[j],
            forall|j: int| 0 <= j < i ==> buf@[at + j] == src@[j],
            forall|j: int| at + i <= j < buf@.len() ==> buf@[j] == old(buf)@[j],
        decreases count - i,
    {
        buf[at + i] = src[i];
        i += 1;
    }
    assert(buf@ =~= old(buf)@.subrange(0, at as int) + src@.subrange(0, count as int) + old(
        buf,
    )@.subrange(at + count, old(buf)@.len() as int));
    count
}

impl<'a> Reader<'a> {
    /// The bytes of a character that a byte read has begun and not finished.
    /// They are empty unless the last read was a byte read that ended inside a
    /// character.
    pub closed spec fn pending(&self) -> Seq<u8> {
        match self.begun {
            Some(bytes) => bytes@,
            None => Seq::empty(),
        }
    }

    /// All the bytes that are left to read: those of a begun character, then
    /// the text that is left, in UTF-8.
    pub open spec fn bytes_left(&self) -> Seq<u8> {
        self.pending() + encode_utf8(self@)
    }

    /// Turns the reader into an iteration over the lines that are left.
    pub fn into_iter(self) -> (iter: StrIterReader<'a>)
        ensures
            iter@ == self@,
    {
        StrIterReader(ReadIterator::new(self))
    }

    /// Copies the bytes that are left to the front of `buf`, as many as there
    /// are and as `buf` can hold, and consumes them. It returns their number,
    /// which is 0 only at the end of the bytes or for an empty `buf`.
    ///
    /// The read may end inside a character. The text that is left then starts
    /// behind that character, and the bytes of it that were not taken are
    /// pending.
    pub fn read(&mut self, buf: &mut [u8]) -> (n: usize)
        ensures
            n == min(old(self).bytes_left().len() as int, old(buf)@.len() as int),
            final(buf)@ == old(self).bytes_left().subrange(0, n as int) + old(buf)@.subrange(
                n as int,
                old(buf)@.len() as int,
            ),
            final(self).bytes_left() == old(self).bytes_left().subrange(
                n as int,
                old(self).bytes_left().len() as int,
            ),
            n < old(self).pending().len() ==> final(self)@ == old(self)@ && final(self).pending()
                == old(self).pending().subrange(n as int, old(self).pending().len() as int),
            n >= old(self).pending().len() ==> ({
                let text = encode_utf8(old(self)@);
                let from = n - old(self).pending().len();
                let end = next_boundary(text, from);
                &&& final(self).pending() == text.subrange(from, end)
                &&& encode_utf8(final(self)@) == text.subrange(end, text.len() as int)
                &&& old(self)@ == decode_utf8(text.subrange(0, end)) + final(self)@
            }),
    {
        let ghost before = old(self).pending();
        let room = buf.len();
        let mut n: usize = 0;
        if let Some(begun) = self.begun {
            n = copy_into(begun, buf, 0);
            if n < begun.len() {
                self.begun = Some(slice_subrange(begun, n, begun.len()));
                proof {
                    assert(self.bytes_left() =~= old(self).bytes_left().subrange(
                        n as int,
                        old(self).bytes_left().len() as int,
                    ));
                    assert(buf@ =~= old(self).bytes_left().subrange(0, n as int) + old(
                        buf,
                    )@.subrange(n as int, old(buf)@.len() as int));
                }
                return n;
            }
            self.begun = None;
        }
        assert(n == before.len());
        let bytes = self.text.as_bytes();
        let from = copy_into(bytes, buf, n);
        assert(n + from <= room);
        let end = find_boundary(bytes, from);
        proof {
            encode_utf8_valid_utf8(self@);
            if end < bytes@.len() {
                is_char_boundary_iff_not_is_continuation_byte(bytes@, end as int);
            } else {
                is_char_boundary_start_end_of_seq(bytes@);
            }
        }
        let (taken, left) = cut_at_boundary(self.text, end);
        if from < end {
            self.begun = Some(slice_subrange(bytes, from, end));
        }
        self.text = left;
        proof {
            encode_utf8_decode_utf8(taken@);
            assert(self.pending() =~= bytes@.subrange(from as int, end as int));
            assert(self.bytes_left() =~= old(self).bytes_left().subrange(
                n + from,
                old(self).bytes_left().len() as int,
            ));
            assert(buf@ =~= old(self).bytes_left().subrange(0, n + from) + old(buf)@.subrange(
                n + from,
                old(buf)@.len() as int,
            ));
        }
        n + from
    }
}

impl<'a> StrIterReader<'a> {
    /// The next line, or `None` once the text is used up. The line comes
    /// without its line feed; a last line that no line feed closes comes
    /// whole.
    pub fn next(&mut self) -> (item: Option<String>)
        ensures
            item.is_some() == (old(self)@.len() > 0),
            item matches Some(line) ==> line@ == first_line(old(self)@),
            final(self)@ == rest(old(self)@),
            item is None ==> final(self)@.len() == 0,
    {
        self.0.next()
    }

    /// All the lines that are left, in their order.
    pub fn collect(self) -> (all: Vec<String>)
        ensures
            texts(all@) == lines(self@),
    {
        self.0.collect()
    }
}

} // verus!
