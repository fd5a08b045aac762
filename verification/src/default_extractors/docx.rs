//! Word documents.

use crate::default_extractors::xml::read_xml_text;
use crate::error::ErrorKind;
use crate::extract::Extract;
use crate::extract::ExtractionError;
use crate::segmentation::section_texts;
use crate::xml_extensions::find_subtree_end;
use crate::xml_extensions::has_tag_name;
use crate::xml_extensions::is_element_named;
use crate::xml_extensions::subtree;
use crate::xml_extensions::xml_nodes;
use crate::xml_extensions::XmlNode;
use crate::xml_extensions::XmlNodeKind;
use crate::zip_extensions::read_file_from_zip;
use crate::zip_extensions::zip_text_named;
use vstd::prelude::*;
use vstd::string::StringExecFns;

verus! {

/// The rule for Word documents: every paragraph is a section of text.
pub struct Docx;

/// Whether `infer` takes a buffer for a Word document by its first bytes.
pub uninterp spec fn docx_signature(buf: Seq<u8>) -> bool;

/// Calls `infer::doc::is_docx`. Trusted: it looks at the bytes alone. It adds
/// offsets that it reads from the buffer, which fit where a `usize` has 64 bits.
#[verifier::external_body]
fn is_docx(buf: &[u8]) -> (found: bool)
    requires
        usize::BITS >= 64,
    ensures
        found == docx_signature(buf@),
{
    infer::doc::is_docx(buf)
}

/// What a node adds to the text of the paragraph that it stands in: a text node
/// its text, a `tab` element two spaces, any other node nothing.
pub open spec fn paragraph_piece(node: XmlNode) -> Seq<char> {
    if node.kind == XmlNodeKind::Text {
        match node.text {
            Some(text) => text@,
            None => Seq::empty(),
        }
    } else if is_element_named(node, "tab"@) {
        "  "@
    } else {
        Seq::empty()
    }
}

/// The text of a paragraph, given the nodes at and below it.
pub open spec fn paragraph_text(nodes: Seq<XmlNode>) -> Seq<char> {
    nodes.map_values(|node: XmlNode| paragraph_piece(node)).flatten()
}

/// The sections that the node at `k` gives: where it is a `p` element, the text of
/// the paragraph; none otherwise.
pub open spec fn docx_sections_at(nodes: Seq<XmlNode>, k: int) -> Seq<Seq<char>> {
    if is_element_named(nodes[k], "p"@) {
        seq![paragraph_text(subtree(nodes, k))]
    } else {
        Seq::empty()
    }
}

/// The sections of the main part of a Word document, in document order.
pub open spec fn docx_sections(nodes: Seq<XmlNode>) -> Seq<Seq<char>> {
    Seq::new(nodes.len(), |k: int| docx_sections_at(nodes, k)).flatten()
}

/// The text of the paragraph whose nodes stand from `from` up to `to`.
fn collect_paragraph(nodes: &Vec<XmlNode>, from: usize, to: usize) -> (text: String)
    requires
        from <= to <= nodes.len(),
    ensures
        text@ == paragraph_text(nodes@.subrange(from as int, to as int)),
{
    let ghost piece = |node: XmlNode| paragraph_piece(node);
    let mut text = String::new();
    let mut k: usize = from;
    proof {
        assert(nodes@.subrange(from as int, from as int).map_values(piece) =~= Seq::<
            Seq<char>,
        >::empty());
        assert(text@ =~= Seq::<Seq<char>>::empty().flatten());
    }
    while k < to
        invariant
            from <= k <= to <= nodes.len(),
            piece == |node: XmlNode| paragraph_piece(node),
            text@ == nodes@.subrange(from as int, k as int).map_values(piece).flatten(),
        decreases to - k,
    {
        let node = &nodes[k];
        proof {
            let seen = nodes@.subrange(from as int, k as int);
            assert(seen.push(*node) =~= nodes@.subrange(from as int, k + 1));
            assert(seen.push(*node).map_values(piece) =~= seen.map_values(piece).push(
                piece(*node),
            ));
            seen.map_values(piece).lemma_flatten_push(piece(*node));
        }
        let ghost before = text@;
        match node.kind {
            XmlNodeKind::Text => match &node.text {
                Some(t) => {
                    text.append(t.as_str());
                },
                None => {},
            },
            _ => {
                if has_tag_name(node, "tab") {
                    text.append("  ");
                }
            },
        }
        assert(text@ =~= before + piece(*node));
        k += 1;
    }
    text
}

/// The sections of the main part of a Word document: the text of each `p` element.
pub fn extract_docx_sections(nodes: &Vec<XmlNode>) -> (sections: Vec<String>)
    ensures
        section_texts(sections@) == docx_sections(nodes@),
{
    let ghost per_node = |k: int| docx_sections_at(nodes@, k);
    let mut sections: Vec<String> = Vec::new();
    let mut k: usize = 0;
    assert(section_texts(sections@) =~= Seq::new(0, per_node).flatten());
    while k < nodes.len()
        invariant
            k <= nodes.len(),
            per_node == |k: int| docx_sections_at(nodes@, k),
            section_texts(sections@) == Seq::new(k as nat, per_node).flatten(),
        decreases nodes.len() - k,
    {
        proof {
            let done = Seq::new(k as nat, per_node);
            assert(done.push(per_node(k as int)) =~= Seq::new((k + 1) as nat, per_node));
            done.lemma_flatten_push(per_node(k as int));
        }
        let ghost before = sections@;
        if has_tag_name(&nodes[k], "p") {
            let end = find_subtree_end(nodes, k);
            let paragraph = collect_paragraph(nodes, k, end);
            sections.push(paragraph);
            assert(section_texts(sections@) =~= section_texts(before).push(paragraph@));
        }
        assert(section_texts(sections@) =~= section_texts(before) + per_node(k as int));
        k += 1;
    }
    sections
}

/// What the rule extracts from the bytes of a Word document.
pub open spec fn docx_extraction(buf: Seq<u8>) -> Result<Seq<Seq<char>>, ErrorKind> {
    match zip_text_named(buf, "word/document.xml"@) {
        Err(kind) => Err(kind),
        Ok(text) => match xml_nodes(text) {
            None => Err(ErrorKind::MalformedMarkup),
            Some(nodes) => Ok(docx_sections(nodes)),
        },
    }
}

impl Extract for Docx {
    open spec fn accepts(&self, buf: Seq<u8>, extension: Option<Seq<char>>) -> bool {
        usize::BITS >= 64 && docx_signature(buf)
    }

    open spec fn yields(&self, buf: Seq<u8>, outcome: Result<Seq<Seq<char>>, ErrorKind>) -> bool {
        outcome == docx_extraction(buf)
    }

    fn can_extract(&self, buf: &[u8], _extension: Option<&str>) -> (accepted: bool) {
        usize::BITS >= 64 && is_docx(buf)
    }

    fn extract(&self, buf: &[u8]) -> (result: Result<Vec<String>, ExtractionError>) {
        let file = match read_file_from_zip(buf, "word/document.xml") {
            Ok(file) => file,
            Err(error) => {
                return Err(error);
            },
        };
        match read_xml_text(file.as_str()) {
            Ok(nodes) => Ok(extract_docx_sections(&nodes)),
            Err(error) => Err(error),
        }
    }
}

} // verus!
