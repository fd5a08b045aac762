//! Word counting for translation work: the text of a file is extracted, cut into
//! segments, each segment is reduced to a content hash with its word and character
//! counts, and the resulting stream is classified against itself (repetitions) and
//! against a translation memory (matches).
//!
//! Segments are compared by a 64-bit hash of their text, not by the text: two
//! different segments count as the same where their hashes collide, which is
//! accepted as negligible.

pub mod analysis;
pub mod default_extractors;
pub mod error;
pub mod extract;
pub mod hash;
pub mod memory;
pub mod segmentation;
pub mod text;
pub mod unicode;
pub mod xml_extensions;
pub mod zip_extensions;
