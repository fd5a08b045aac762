//! XML files.

use crate::error::ErrorKind;
use crate::extract::Extract;
use crate::extract::ExtractionError;
use crate::text::same_text;
use crate::xml_extensions::extract_text_from_node;
use crate::xml_extensions::parse_xml;
use crate::xml_extensions::texts_under;
use crate::xml_extensions::xml_nodes;
use crate::xml_extensions::XmlNode;
use core::str::from_utf8;
use vstd::prelude::*;
use vstd::utf8::decode_utf8;
use vstd::utf8::valid_utf8;

verus! {

/// The rule for XML: every text node of the document is a section of text.
pub struct Xml;

/// Whether `infer` takes a buffer for XML by its first bytes.
pub uninterp spec fn xml_signature(buf: Seq<u8>) -> bool;

/// `infer::text::is_xml` looks at the bytes alone.
pub assume_specification[ infer::text::is_xml ](buf: &[u8]) -> (found: bool)
    ensures
        found == xml_signature(buf@),
;

/// The nodes of the XML document that some bytes hold.
pub open spec fn xml_document(buf: Seq<u8>) -> Result<Seq<XmlNode>, ErrorKind> {
    if !valid_utf8(buf) {
        Err(ErrorKind::InvalidEncoding)
    } else {
        match xml_nodes(decode_utf8(buf)) {
            Some(nodes) => Ok(nodes),
            None => Err(ErrorKind::MalformedMarkup),
        }
    }
}

/// Reads the bytes as UTF-8 and the text as XML.
///
/// # Errors
/// `InvalidEncoding` where the bytes are not UTF-8, `MalformedMarkup` where the
/// text is not well-formed XML.
pub fn read_xml(buf: &[u8]) -> (result: Result<Vec<XmlNode>, ExtractionError>)
    ensures
        match result {
            Ok(nodes) => xml_document(buf@) == Ok::<Seq<XmlNode>, ErrorKind>(nodes@),
            Err(error) => xml_document(buf@) == Err::<Seq<XmlNode>, ErrorKind>(error.kind),
        },
{
    match from_utf8(buf) {
        Err(error) => Err(
            ExtractionError { kind: ErrorKind::InvalidEncoding, message: error.to_string() },
        ),
        Ok(text) => read_xml_text(text),
    }
}

/// Reads a text as XML.
///
/// # Errors
/// `MalformedMarkup` where the text is not well-formed XML.
pub fn read_xml_text(text: &str) -> (result: Result<Vec<XmlNode>, ExtractionError>)
    ensures
        match result {
            Ok(nodes) => xml_nodes(text@) == Some(nodes@),
            Err(error) => xml_nodes(text@) is None && error.kind == ErrorKind::MalformedMarkup,
        },
{
    match parse_xml(text) {
        Ok(nodes) => Ok(nodes),
        Err(error) => Err(
            ExtractionError { kind: ErrorKind::MalformedMarkup, message: error.to_string() },
        ),
    }
}

/// What the rule extracts from the bytes of an XML file.
pub open spec fn xml_extraction(buf: Seq<u8>) -> Result<Seq<Seq<char>>, ErrorKind> {
    match xml_document(buf) {
        Ok(nodes) => Ok(texts_under(nodes, 0)),
        Err(kind) => Err(kind),
    }
}

impl Extract for Xml {
    open spec fn accepts(&self, buf: Seq<u8>, extension: Option<Seq<char>>) -> bool {
        extension == Some("xml"@) || xml_signature(buf)
    }

    open spec fn yields(&self, buf: Seq<u8>, outcome: Result<Seq<Seq<char>>, ErrorKind>) -> bool {
        outcome == xml_extraction(buf)
    }

    fn can_extract(&self, buf: &[u8], extension: Option<&str>) -> (accepted: bool) {
        let by_extension = match extension {
            Some(x) => same_text(x, "xml"),
            None => false,
        };
        by_extension || infer::text::is_xml(buf)
    }

    fn extract(&self, buf: &[u8]) -> (result: Result<Vec<String>, ExtractionError>) {
        match read_xml(buf) {
            Ok(nodes) => Ok(extract_text_from_node(&nodes, 0)),
            Err(error) => Err(error),
        }
    }
}

} // verus!
