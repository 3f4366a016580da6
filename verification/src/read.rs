//! Sources of text, and iteration over their lines.

use crate::scan::{split_last, trim_line_feed};
use crate::text::{
    first_chunk, first_line, lemma_chunk_and_rest, lemma_first_chunk_without_line_feed,
    lemma_lines_step, lines, rest, stripped, without_line_feed,
};
use crate::write::Write;
use std::str::FromStr;
use vstd::prelude::*;

verus! {

/// A source of text that is read as a whole or line by line.
///
/// The contracts speak of `unread`, the text that the source has yet to
/// deliver. Every read consumes what it returns. Sources differ in their line
/// reads, and `empty_line_at_end` tells the two kinds apart: text in memory
/// gives the empty line when it is read past its end, and gives a last line
/// without line feed whole; a handle on a file must not be read past its end,
/// and cuts the last character off every chunk, line feed or not.
pub trait Read: Sized {
    /// The text that this source has not delivered yet.
    spec fn unread(&self) -> Seq<char>;

    /// Whether a line read from the exhausted source gives the empty line.
    /// Where this is false, reading a line from the exhausted source is an
    /// error of the caller.
    spec fn empty_line_at_end() -> bool;

    /// Reads all the text that is left, and leaves nothing.
    fn read_all(&mut self) -> (text: String)
        ensures
            text@ == old(self).unread(),
            final(self).unread().len() == 0,
    ;

    /// Reads one line and returns it without its line feed.
    ///
    /// A source that gives the empty line at its end returns a last line that
    /// no line feed closes whole. Any other source returns such a line without
    /// its last character.
    fn read_line(&mut self) -> (line: String)
        requires
            old(self).unread().len() > 0 || Self::empty_line_at_end(),
        ensures
            Self::empty_line_at_end() ==> line@ == first_line(old(self).unread()),
            !Self::empty_line_at_end() ==> line@ == stripped(first_chunk(old(self).unread())),
            final(self).unread() == rest(old(self).unread()),
    ;

    /// Reads one chunk: the next line with its line feed, or what is left of
    /// the text if no line feed follows. The chunk is empty only at the end of
    /// the source.
    fn read_chunk(&mut self) -> (chunk: String)
        ensures
            chunk@ == first_chunk(old(self).unread()),
            final(self).unread() == rest(old(self).unread()),
    ;

    /// Reads one line and parses it by the rule of `T`. Returns `None` if the
    /// line is no `T`; the line is consumed all the same.
    fn read_line_any<T: FromStr>(&mut self) -> (value: Option<T>)
        requires
            old(self).unread().len() > 0 || Self::empty_line_at_end(),
        ensures
            final(self).unread() == rest(old(self).unread()),
    {
        let line = self.read_line();
        parse(line.as_str())
    }
}

/// Calls `str::parse`, which hands the text to `T::from_str`. What comes back
/// is up to that implementation, so nothing is claimed of it; a failure is
/// `None`.
#[verifier::external_body]
fn parse<T: FromStr>(text: &str) -> (value: Option<T>) {
    text.parse().ok()
}

/// Round trip. Text that is written to a sink which held nothing is all that
/// the sink then holds, and a source over what the sink holds has exactly that
/// text to deliver: `read_all` returns it unchanged, line feeds and all.
pub proof fn lemma_write_read_round_trip<W: Write, R: Read>(
    fresh: W,
    filled: W,
    source: R,
    text: Seq<char>,
)
    requires
        fresh.written().len() == 0,
        filled.written() == fresh.written() + text,
        source.unread() == filled.written(),
    ensures
        source.unread() == text,
{
    assert(fresh.written() + text =~= text);
}

/// Reads all that a source has left and releases the source.
pub fn read<R: Read>(source: R) -> (text: String)
    ensures
        text@ == source.unread(),
{
    let mut source = source;
    source.read_all()
}

/// Takes the last character off a chunk, whatever it is. A chunk that a line
/// feed closes becomes the line before it. This is what a line read makes of
/// a chunk on a source that does not give the empty line at its end; the empty
/// chunk, which only the end of such a source gives, is no line.
pub fn strip_terminator(chunk: String) -> (line: String)
    requires
        chunk@.len() > 0,
    ensures
        line@ == stripped(chunk@),
{
    let (line, _) = split_last(chunk.as_str());
    line.to_owned()
}

/// What line iteration yields for a chunk: nothing for the empty chunk, which
/// only the end of a source gives, and else the chunk without the line feed at
/// its end. A chunk that no line feed closes is yielded whole.
pub fn line_of_chunk(chunk: String) -> (item: Option<String>)
    ensures
        item.is_some() == (chunk@.len() > 0),
        item matches Some(line) ==> line@ == without_line_feed(chunk@),
{
    if chunk.as_str().is_empty() {
        None
    } else {
        Some(trim_line_feed(chunk.as_str()).to_owned())
    }
}

/// The views of a vector of owned texts.
pub open spec fn texts(v: Seq<String>) -> Seq<Seq<char>> {
    v.map_values(|s: String| s@)
}

/// Iterates over the lines of a source, which it owns from then on.
///
/// Each step reads one chunk and yields it without its line feed; the empty
/// chunk ends the iteration, and once ended it stays so.
pub struct ReadIterator<T: Read> {
    reader: T,
}

impl<T: Read> ReadIterator<T> {
    /// The text that the iteration has yet to go through.
    pub closed spec fn unread(&self) -> Seq<char> {
        self.reader.unread()
    }

    /// Starts the iteration where `reader` stands.
    pub fn new(reader: T) -> (iter: Self)
        ensures
            iter.unread() == reader.unread(),
    {
        ReadIterator { reader }
    }

    /// The next line, or `None` at the end of the source.
    pub fn next(&mut self) -> (item: Option<String>)
        ensures
            item.is_some() == (old(self).unread().len() > 0),
            item matches Some(line) ==> line@ == first_line(old(self).unread()),
            final(self).unread() == rest(old(self).unread()),
            item is None ==> final(self).unread().len() == 0,
    {
        let chunk = self.reader.read_chunk();
        proof {
            lemma_chunk_and_rest(old(self).unread());
            lemma_first_chunk_without_line_feed(old(self).unread());
        }
        line_of_chunk(chunk)
    }

    /// All the lines that are left, in their order.
    pub fn collect(self) -> (all: Vec<String>)
        ensures
            texts(all@) == lines(self.unread()),
    {
        let mut iter = self;
        let mut all: Vec<String> = Vec::new();
        loop
            invariant
                texts(all@) + lines(iter.unread()) == lines(self.unread()),
            decreases iter.unread().len(),
        {
            let ghost before = iter.unread();
            let ghost done = texts(all@);
            proof {
                lemma_lines_step(done, before);
                lemma_chunk_and_rest(before);
            }
            match iter.next() {
                None => {
                    return all;
                },
                Some(line) => {
                    all.push(line);
                    assert(texts(all@) =~= done.push(line@));
                },
            }
        }
    }
}

} // verus!
