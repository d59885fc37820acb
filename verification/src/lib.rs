//! Extended grapheme cluster segmentation of Unicode text.
//!
//! A text is cut into the units that a reader perceives as single characters,
//! by the rules of Unicode text segmentation. The clusters of a string can be
//! walked from the front and from the back. Offsets into a string count
//! bytes; the contracts speak of the characters of the text and give the
//! byte offset of each character position.

/// Byte offsets of the characters of a text in UTF-8.
pub mod encoding;
/// The table of code point ranges and their classes.
pub mod data;
/// Classification of code points.
pub mod lookup;
/// Iterators over the clusters of a string.
pub mod iter;
/// The rules that decide where a cluster ends.
pub mod logic;
/// What the clusters of a text are, and what holds of them.
pub mod cluster;
/// What the context of a scan means.
pub mod context;
/// The boundaries of a text by the rules alone.
pub mod rule;
/// Whole walks over a text, forward and backward, and what holds of them.
pub mod walk;

pub use crate::iter::Egc;
