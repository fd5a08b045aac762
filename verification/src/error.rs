//! The kinds of failure that reading a document or a translation memory can end in.

use vstd::prelude::*;

verus! {

/// Why a document or a translation memory could not be read.
#[derive(Clone, Copy, Debug, PartialEq, Eq, Structural)]
pub enum ErrorKind {
    /// No extraction rule takes the file.
    UnsupportedFormat,
    /// The bytes are not the UTF-8 encoding of a text.
    InvalidEncoding,
    /// The text is not well-formed XML, JSON or HTML.
    MalformedMarkup,
    /// The bytes are not a zip archive, or the archive lacks the entry that was asked for.
    MalformedArchive,
    /// The translation memory lacks its header or the source language in it.
    MissingMetadata,
}

} // verus!
