//! Plain text files.

use crate::error::ErrorKind;
use crate::extract::Extract;
use crate::extract::ExtractionError;
use crate::text::same_text;
use core::str::from_utf8;
use vstd::prelude::*;
use vstd::utf8::decode_utf8;
use vstd::utf8::valid_utf8;

verus! {

/// The rule for plain text: a file with the extension `txt` is one section of text.
pub struct Txt;

/// What the rule extracts from the bytes of a text file.
pub open spec fn txt_extraction(buf: Seq<u8>) -> Result<Seq<Seq<char>>, ErrorKind> {
    if valid_utf8(buf) {
        Ok(seq![decode_utf8(buf)])
    } else {
        Err(ErrorKind::InvalidEncoding)
    }
}

impl Extract for Txt {
    open spec fn accepts(&self, buf: Seq<u8>, extension: Option<Seq<char>>) -> bool {
        extension == Some("txt"@)
    }

    open spec fn yields(&self, buf: Seq<u8>, outcome: Result<Seq<Seq<char>>, ErrorKind>) -> bool {
        outcome == txt_extraction(buf)
    }

    fn can_extract(&self, _buf: &[u8], extension: Option<&str>) -> (accepted: bool) {
        match extension {
            Some(x) => same_text(x, "txt"),
            None => false,
        }
    }

    fn extract(&self, buf: &[u8]) -> (result: Result<Vec<String>, ExtractionError>) {
        match from_utf8(buf) {
            Ok(text) => {
                let sections = vec![text.to_string()];
                assert(crate::segmentation::section_texts(sections@) =~= seq![text@]);
                Ok(sections)
            },
            Err(error) => Err(
                ExtractionError { kind: ErrorKind::InvalidEncoding, message: error.to_string() },
            ),
        }
    }
}

} // verus!
