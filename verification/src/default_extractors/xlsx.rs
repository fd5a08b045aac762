//! Excel workbooks.

use crate::default_extractors::xml::read_xml_text;
use crate::error::ErrorKind;
use crate::extract::Extract;
use crate::extract::ExtractionError;
use crate::segmentation::section_texts;
use crate::xml_extensions::extract_text_from_nodes;
use crate::xml_extensions::has_tag_name;
use crate::xml_extensions::is_element_named;
use crate::xml_extensions::texts_under_all;
use crate::xml_extensions::xml_nodes;
use crate::xml_extensions::XmlNode;
use crate::zip_extensions::read_file_from_zip;
use crate::zip_extensions::zip_text_named;
use vstd::prelude::*;

verus! {

/// The rule for Excel workbooks: every shared string is a section of text.
pub struct Xlsx;

/// Whether `infer` takes a buffer for an Excel workbook by its first bytes.
pub uninterp spec fn xlsx_signature(buf: Seq<u8>) -> bool;

/// Calls `infer::doc::is_xlsx`. Trusted: it looks at the bytes alone. It adds
/// offsets that it reads from the buffer, which fit where a `usize` has 64 bits.
#[verifier::external_body]
fn is_xlsx(buf: &[u8]) -> (found: bool)
    requires
        usize::BITS >= 64,
    ensures
        found == xlsx_signature(buf@),
{
    infer::doc::is_xlsx(buf)
}

/// The places of the elements with the given tag name, in document order.
pub open spec fn places_of_elements(nodes: Seq<XmlNode>, name: Seq<char>) -> Seq<usize> {
    Seq::new(nodes.len(), |k: int| k as usize).filter(
        |k: usize| is_element_named(nodes[k as int], name),
    )
}

/// The places of the elements with the given tag name, in document order.
pub fn find_elements(nodes: &Vec<XmlNode>, name: &str) -> (places: Vec<usize>)
    ensures
        places@ == places_of_elements(nodes@, name@),
{
    let ghost every = |k: int| k as usize;
    let ghost named = |k: usize| is_element_named(nodes@[k as int], name@);
    let mut places: Vec<usize> = Vec::new();
    let mut k: usize = 0;
    proof {
        assert(Seq::new(0, every).filter(named) =~= Seq::<usize>::empty()) by {
            Seq::new(0, every).lemma_filter_len(named);
        }
    }
    while k < nodes.len()
        invariant
            k <= nodes.len(),
            every == |k: int| k as usize,
            named == |k: usize| is_element_named(nodes@[k as int], name@),
            places@ == Seq::new(k as nat, every).filter(named),
        decreases nodes.len() - k,
    {
        proof {
            let done = Seq::new(k as nat, every);
            assert(done.push(k) =~= Seq::new((k + 1) as nat, every));
            done.lemma_filter_push(k, named);
        }
        if has_tag_name(&nodes[k], name) {
            places.push(k);
        }
        k += 1;
    }
    places
}

/// The texts of the text nodes at and below each element with the tag name `t`.
pub open spec fn texts_of_runs(nodes: Seq<XmlNode>) -> Seq<Seq<char>> {
    texts_under_all(nodes, places_of_elements(nodes, "t"@))
}

/// The texts of the text nodes at and below each element with the tag name `t`.
pub fn extract_texts_of_runs(nodes: &Vec<XmlNode>) -> (sections: Vec<String>)
    ensures
        section_texts(sections@) == texts_of_runs(nodes@),
{
    let places = find_elements(nodes, "t");
    extract_text_from_nodes(nodes, &places)
}

/// What the rule extracts from the bytes of an Excel workbook.
pub open spec fn xlsx_extraction(buf: Seq<u8>) -> Result<Seq<Seq<char>>, ErrorKind> {
    match zip_text_named(buf, "xl/sharedStrings.xml"@) {
        Err(kind) => Err(kind),
        Ok(text) => match xml_nodes(text) {
            None => Err(ErrorKind::MalformedMarkup),
            Some(nodes) => Ok(texts_of_runs(nodes)),
        },
    }
}

impl Extract for Xlsx {
    open spec fn accepts(&self, buf: Seq<u8>, extension: Option<Seq<char>>) -> bool {
        usize::BITS >= 64 && xlsx_signature(buf)
    }

    open spec fn yields(&self, buf: Seq<u8>, outcome: Result<Seq<Seq<char>>, ErrorKind>) -> bool {
        outcome == xlsx_extraction(buf)
    }

    fn can_extract(&self, buf: &[u8], _extension: Option<&str>) -> (accepted: bool) {
        usize::BITS >= 64 && is_xlsx(buf)
    }

    fn extract(&self, buf: &[u8]) -> (result: Result<Vec<String>, ExtractionError>) {
        let shared_strings = match read_file_from_zip(buf, "xl/sharedStrings.xml") {
            Ok(file) => file,
            Err(error) => {
                return Err(error);
            },
        };
        match read_xml_text(shared_strings.as_str()) {
            Ok(nodes) => Ok(extract_texts_of_runs(&nodes)),
            Err(error) => Err(error),
        }
    }
}

} // verus!
