//! Easy, line-oriented text input and output behind one pair of traits.
//!
//! A source of text implements [`Read`], a sink implements [`Write`]. The
//! contracts of both are stated over the text a handle has yet to deliver, or
//! has received so far, as a sequence of characters.
//!
//! - [`text`] holds the model of lines that the contracts share, and the laws
//!   that relate reading by lines to the text itself.
//! - [`scan`] finds the line ends in UTF-8 text and cuts it there.
//! - [`read`] and [`write`] hold the two traits, the iteration over the lines
//!   of any source, and the rules for what a line is once a chunk of text has
//!   been read: handles on files and streams, which are no part of this
//!   crate, read the chunk and leave the rest to [`read::strip_terminator`]
//!   and [`read::line_of_chunk`].
//! - [`string`] holds a source and a sink for text in memory.
//! - [`random`] draws uniform random numbers.
//!
//! No function of this crate panics on an input that its precondition
//! admits. What a caller must not do is stated there. The one stop that no
//! precondition covers is that of [`random`] on a system without entropy.

pub mod random;
pub mod read;
pub mod scan;
pub mod string;
pub mod text;
pub mod write;

pub use read::Read;
pub use write::Write;
