//! Sinks of text.

use std::fmt::Display;
use vstd::prelude::*;
use vstd::string::to_string_from_display_ensures;

verus! {

/// A sink that text is written to.
///
/// The contracts speak of `written`, all the text that the sink has received.
pub trait Write: Sized {
    /// All the text that this sink has received, in the order of the writes.
    spec fn written(&self) -> Seq<char>;

    /// Appends `s` as it is: nothing is added, nothing escaped.
    fn write(&mut self, s: &str)
        ensures
            final(self).written() == old(self).written() + s@,
    ;

    /// Appends the text that `o` displays as.
    fn write_any<T: Display>(&mut self, o: T)
        ensures
            exists|text: String| #[trigger]
                to_string_from_display_ensures::<T>(&o, text) && final(self).written() == old(
                    self,
                ).written() + text@,
    {
        let text = o.to_string();
        self.write(text.as_str());
    }
}

/// Writes `s` to a sink and hands the sink back, to be released or used on.
pub fn write<W: Write>(sink: W, s: &str) -> (used: W)
    ensures
        used.written() == sink.written() + s@,
{
    let mut sink = sink;
    sink.write(s);
    sink
}

} // verus!
