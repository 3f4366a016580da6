//! The line structure of text.
//!
//! Text is a sequence of characters. A line ends at a line feed; the last line
//! of a text may lack one. Everything here is specification and proof: the
//! handles in the other modules state what they return in these terms.

use vstd::prelude::*;

verus! {

/// The character that ends a line.
pub const LINE_FEED: char = '\n';

/// `k` is where the first line of `s` ends: no line feed stands before `k`, and
/// at `k` stands a line feed or the end of `s`.
pub open spec fn is_line_end(s: Seq<char>, k: int) -> bool {
    &&& 0 <= k <= s.len()
    &&& forall|j: int| 0 <= j < k ==> s[j] != LINE_FEED
    &&& k < s.len() ==> s[k] == LINE_FEED
}

/// The number of characters before the first line feed of `s`, or the length
/// of `s` if it holds none.
pub open spec fn line_end(s: Seq<char>) -> int
    decreases s.len(),
{
    if s.len() == 0 || s[0] == LINE_FEED {
        0
    } else {
        1 + line_end(s.drop_first())
    }
}

/// Whether the first line of `s` is closed by a line feed.
pub open spec fn is_terminated(s: Seq<char>) -> bool {
    line_end(s) < s.len()
}

/// The length of the first chunk of `s`: its first line and, where there is
/// one, the line feed behind it.
pub open spec fn chunk_end(s: Seq<char>) -> int {
    if is_terminated(s) {
        line_end(s) + 1
    } else {
        line_end(s)
    }
}

/// The first line of `s`, without its terminator.
pub open spec fn first_line(s: Seq<char>) -> Seq<char> {
    s.subrange(0, line_end(s))
}

/// The first line of `s` together with its line feed, if it has one.
pub open spec fn first_chunk(s: Seq<char>) -> Seq<char> {
    s.subrange(0, chunk_end(s))
}

/// What is left of `s` once its first chunk is taken away.
pub open spec fn rest(s: Seq<char>) -> Seq<char> {
    s.subrange(chunk_end(s), s.len() as int)
}

/// A chunk without its last character. Only the end of a source gives an
/// empty chunk, and of that no line is made.
pub open spec fn stripped(chunk: Seq<char>) -> Seq<char>
    recommends
        chunk.len() > 0,
{
    chunk.drop_last()
}

/// Whether the last character of `s` is a line feed.
pub open spec fn ends_with_line_feed(s: Seq<char>) -> bool {
    s.len() > 0 && s.last() == LINE_FEED
}

/// A chunk without the line feed at its end; a chunk that ends otherwise
/// stays as it is.
pub open spec fn without_line_feed(chunk: Seq<char>) -> Seq<char> {
    if ends_with_line_feed(chunk) {
        chunk.drop_last()
    } else {
        chunk
    }
}

/// `line_end` is the one position that `is_line_end` describes.
pub proof fn lemma_line_end(s: Seq<char>)
    ensures
        is_line_end(s, line_end(s)),
    decreases s.len(),
{
    if s.len() == 0 || s[0] == LINE_FEED {
    } else {
        let t = s.drop_first();
        lemma_line_end(t);
        let k = line_end(s);
        assert forall|j: int| 0 <= j < k implies s[j] != LINE_FEED by {
            if j > 0 {
                assert(s[j] == t[j - 1]);
            }
        }
        if k < s.len() {
            assert(s[k] == t[k - 1]);
        }
    }
}

/// A position that satisfies `is_line_end` is `line_end`.
pub proof fn lemma_line_end_unique(s: Seq<char>, k: int)
    requires
        is_line_end(s, k),
    ensures
        k == line_end(s),
{
    lemma_line_end(s);
    let e = line_end(s);
    if k < e {
        assert(s[k] != LINE_FEED);
    } else if e < k {
        assert(s[e] != LINE_FEED);
    }
}

/// The first chunk and the rest make up the text, and a text that is not empty
/// has a first chunk that is not empty.
pub proof fn lemma_chunk_and_rest(s: Seq<char>)
    ensures
        0 <= line_end(s) <= chunk_end(s) <= s.len(),
        s.len() > 0 ==> chunk_end(s) > 0,
        s == first_chunk(s) + rest(s),
        rest(s).len() == s.len() - chunk_end(s),
        is_terminated(s) ==> first_chunk(s) == first_line(s).push(LINE_FEED),
        !is_terminated(s) ==> first_chunk(s) == s && first_line(s) == s && rest(s).len() == 0,
{
    lemma_line_end(s);
    assert(s =~= first_chunk(s) + rest(s));
    if is_terminated(s) {
        assert(first_chunk(s) =~= first_line(s).push(LINE_FEED));
    } else {
        assert(first_chunk(s) =~= s);
        assert(first_line(s) =~= s);
    }
}

/// The first chunk ends with a line feed exactly when a line feed closes the
/// first line, and without that line feed it is the first line.
pub proof fn lemma_first_chunk_without_line_feed(s: Seq<char>)
    ensures
        ends_with_line_feed(first_chunk(s)) == is_terminated(s),
        without_line_feed(first_chunk(s)) == first_line(s),
        is_terminated(s) ==> stripped(first_chunk(s)) == first_line(s),
{
    lemma_chunk_and_rest(s);
    lemma_line_end(s);
    if is_terminated(s) {
        assert(first_line(s).push(LINE_FEED).drop_last() =~= first_line(s));
    } else if s.len() > 0 {
        assert(s.last() == s[s.len() - 1]);
    }
}

/// The lines of `s`, as line reads on text in memory take them until nothing
/// is left, and as iteration yields them: each without its line feed, the last
/// one whole even if no line feed closes it.
pub open spec fn lines(s: Seq<char>) -> Seq<Seq<char>>
    decreases s.len(),
    via lines_decreases
{
    if s.len() == 0 {
        Seq::empty()
    } else {
        seq![first_line(s)] + lines(rest(s))
    }
}

#[via_fn]
proof fn lines_decreases(s: Seq<char>) {
    lemma_chunk_and_rest(s);
}

/// One step of gathering the lines of `s` behind the lines `done`: at the end
/// of `s` nothing is to come, and before it the first line of `s` comes next
/// and the lines of the rest follow.
pub proof fn lemma_lines_step(done: Seq<Seq<char>>, s: Seq<char>)
    ensures
        s.len() == 0 ==> done + lines(s) == done,
        s.len() > 0 ==> done.push(first_line(s)) + lines(rest(s)) == done + lines(s),
{
    if s.len() == 0 {
        assert(done + lines(s) =~= done);
    } else {
        assert(done.push(first_line(s)) + lines(rest(s)) =~= done + lines(s));
    }
}

/// The lines that line reads take from `s` where every chunk loses its last
/// character, line feed or not, as on a handle on a file.
pub open spec fn stripped_lines(s: Seq<char>) -> Seq<Seq<char>>
    decreases s.len(),
    via stripped_lines_decreases
{
    if s.len() == 0 {
        Seq::empty()
    } else {
        seq![stripped(first_chunk(s))] + stripped_lines(rest(s))
    }
}

#[via_fn]
proof fn stripped_lines_decreases(s: Seq<char>) {
    lemma_chunk_and_rest(s);
}

/// The lines put together again, with one line feed between each two.
pub open spec fn joined(ls: Seq<Seq<char>>) -> Seq<char>
    decreases ls.len(),
{
    if ls.len() == 0 {
        Seq::empty()
    } else if ls.len() == 1 {
        ls[0]
    } else {
        ls[0] + seq![LINE_FEED] + joined(ls.drop_first())
    }
}

/// The text that holds the given lines, each closed by a line feed.
pub open spec fn terminated(ls: Seq<Seq<char>>) -> Seq<char>
    decreases ls.len(),
{
    if ls.len() == 0 {
        Seq::empty()
    } else {
        ls[0].push(LINE_FEED) + terminated(ls.drop_first())
    }
}

/// The text before a line feed is the first line, and the text behind it is
/// the rest, if no line feed stands before that one.
pub proof fn lemma_first_line_of(line: Seq<char>, after: Seq<char>)
    requires
        !line.contains(LINE_FEED),
    ensures
        is_terminated(line.push(LINE_FEED) + after),
        first_line(line.push(LINE_FEED) + after) == line,
        first_chunk(line.push(LINE_FEED) + after) == line.push(LINE_FEED),
        rest(line.push(LINE_FEED) + after) == after,
{
    let s = line.push(LINE_FEED) + after;
    let k = line.len() as int;
    assert forall|j: int| 0 <= j < k implies s[j] != LINE_FEED by {
        assert(s[j] == line[j]);
    }
    assert(s[k] == LINE_FEED);
    lemma_line_end_unique(s, k);
    assert(first_line(s) =~= line);
    assert(first_chunk(s) =~= line.push(LINE_FEED));
    assert(rest(s) =~= after);
}

/// Line round trip. The lines of a text, as line reads on text in memory and
/// iteration give them, joined by single line feeds, are the text again, up to
/// the line feed at its very end, which the join does not bring back.
pub proof fn lemma_lines_round_trip(s: Seq<char>)
    ensures
        s == if ends_with_line_feed(s) {
            joined(lines(s)).push(LINE_FEED)
        } else {
            joined(lines(s))
        },
    decreases s.len(),
{
    if s.len() > 0 {
        lemma_chunk_and_rest(s);
        lemma_line_end(s);
        let line = first_line(s);
        let after = rest(s);
        lemma_lines_round_trip(after);
        if !is_terminated(s) {
            assert(lines(after) =~= Seq::<Seq<char>>::empty());
            assert(lines(s) =~= seq![s]);
            assert(s.last() == s[s.len() - 1]);
        } else if after.len() == 0 {
            assert(lines(after) =~= Seq::<Seq<char>>::empty());
            assert(lines(s) =~= seq![line]);
            assert(s =~= line.push(LINE_FEED));
        } else {
            assert(lines(s).drop_first() =~= lines(after));
            assert(s.last() == after.last());
            assert(s =~= line + seq![LINE_FEED] + after);
            if ends_with_line_feed(after) {
                assert(s =~= (line + seq![LINE_FEED] + joined(lines(after))).push(LINE_FEED));
            }
        }
    }
}

/// On a text that is empty or ends with a line feed, line reads that cut the
/// last character off every chunk take the lines of the text.
pub proof fn lemma_stripped_lines_of_closed_text(s: Seq<char>)
    requires
        s.len() == 0 || ends_with_line_feed(s),
    ensures
        stripped_lines(s) == lines(s),
    decreases s.len(),
{
    if s.len() > 0 {
        lemma_chunk_and_rest(s);
        lemma_line_end(s);
        lemma_first_chunk_without_line_feed(s);
        let after = rest(s);
        if after.len() > 0 {
            assert(s.last() == after.last());
        }
        lemma_stripped_lines_of_closed_text(after);
    }
}

/// Line round trip for line reads that cut the last character off every
/// chunk. It holds of a text that is empty or ends with a line feed: of any
/// other text the last line loses a character.
pub proof fn lemma_stripped_lines_round_trip(s: Seq<char>)
    requires
        s.len() == 0 || ends_with_line_feed(s),
    ensures
        s == if s.len() == 0 {
            joined(stripped_lines(s))
        } else {
            joined(stripped_lines(s)).push(LINE_FEED)
        },
{
    lemma_stripped_lines_of_closed_text(s);
    lemma_lines_round_trip(s);
}

/// Iteration is total. Of a text that holds the lines `ls`, each closed by a
/// line feed, reading by lines yields exactly `ls`, in their order, be it by
/// iteration or by line reads of either kind. Behind the last line the text is
/// used up, and of a text that is used up nothing is yielded.
pub proof fn lemma_iteration_total(ls: Seq<Seq<char>>)
    requires
        forall|i: int| 0 <= i < ls.len() ==> !(#[trigger] ls[i]).contains(LINE_FEED),
    ensures
        lines(terminated(ls)) == ls,
        stripped_lines(terminated(ls)) == ls,
        lines(Seq::empty()) == Seq::<Seq<char>>::empty(),
    decreases ls.len(),
{
    if ls.len() > 0 {
        let tail = ls.drop_first();
        let after = terminated(tail);
        let s = terminated(ls);
        assert forall|i: int| 0 <= i < tail.len() implies !(#[trigger] tail[i]).contains(
            LINE_FEED,
        ) by {
            assert(tail[i] == ls[i + 1]);
        }
        lemma_iteration_total(tail);
        lemma_first_line_of(ls[0], after);
        assert(ls[0].push(LINE_FEED).drop_last() =~= ls[0]);
        assert(lines(s) =~= ls);
        assert(stripped_lines(s) =~= ls);
    }
}

} // verus!
