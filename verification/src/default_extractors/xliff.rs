//! XLIFF files.

use crate::default_extractors::xml::read_xml;
use crate::default_extractors::xml::xml_document;
use crate::error::ErrorKind;
use crate::extract::Extract;
use crate::extract::ExtractionError;
use crate::segmentation::section_texts;
use crate::text::same_text;
use crate::xml_extensions::find_subtree_end;
use crate::xml_extensions::has_tag_name;
use crate::xml_extensions::is_element_named;
use crate::xml_extensions::subtree;
use crate::xml_extensions::XmlNode;
use vstd::prelude::*;

verus! {

/// The rule for XLIFF: the sources of the segments that have no translation yet.
pub struct Xliff;

/// Whether a node is a `target` element with a text that is not empty.
pub open spec fn is_translation(node: XmlNode) -> bool {
    is_element_named(node, "target"@) && node.text is Some && node.text->0@.len() > 0
}

/// Whether some node among the given ones is a translation.
pub open spec fn has_translation(nodes: Seq<XmlNode>) -> bool {
    exists|i: int| 0 <= i < nodes.len() && is_translation(#[trigger] nodes[i])
}

/// Whether a node is a `source` element with a text.
pub open spec fn is_source(node: XmlNode) -> bool {
    is_element_named(node, "source"@) && node.text is Some
}

/// The texts of the `source` elements among the given nodes, in order.
pub open spec fn sources_among(nodes: Seq<XmlNode>) -> Seq<Seq<char>> {
    nodes.filter(|node: XmlNode| is_source(node)).map_values(|node: XmlNode| node.text->0@)
}

/// The sections that the node at `k` gives: where it is a `segment` element with
/// no translation at or below it, the texts of the `source` elements at and below
/// it; none otherwise.
pub open spec fn xliff_sections_at(nodes: Seq<XmlNode>, k: int) -> Seq<Seq<char>> {
    if is_element_named(nodes[k], "segment"@) && !has_translation(subtree(nodes, k)) {
        sources_among(subtree(nodes, k))
    } else {
        Seq::empty()
    }
}

/// The sections of an XLIFF document, in document order.
pub open spec fn xliff_sections(nodes: Seq<XmlNode>) -> Seq<Seq<char>> {
    Seq::new(nodes.len(), |k: int| xliff_sections_at(nodes, k)).flatten()
}

/// Whether a node is a `target` element with a text that is not empty.
pub fn holds_translation(node: &XmlNode) -> (found: bool)
    ensures
        found == is_translation(*node),
{
    has_tag_name(node, "target") && match &node.text {
        Some(text) => !text.as_str().is_empty(),
        None => false,
    }
}

/// Whether a translation stands among the nodes from `from` up to `to`.
fn any_translation(nodes: &Vec<XmlNode>, from: usize, to: usize) -> (found: bool)
    requires
        from <= to <= nodes.len(),
    ensures
        found == has_translation(nodes@.subrange(from as int, to as int)),
{
    let mut k: usize = from;
    while k < to
        invariant
            from <= k <= to <= nodes.len(),
            forall|j: int| from <= j < k ==> !is_translation(#[trigger] nodes[j]),
        decreases to - k,
    {
        if holds_translation(&nodes[k]) {
            assert(nodes@.subrange(from as int, to as int)[k - from] == nodes[k as int]);
            return true;
        }
        k += 1;
    }
    assert forall|i: int| 0 <= i < to - from implies !is_translation(
        #[trigger] nodes@.subrange(from as int, to as int)[i],
    ) by {
        assert(nodes@.subrange(from as int, to as int)[i] == nodes[from + i]);
    }
    false
}

/// Appends the texts of the `source` elements from `from` up to `to`.
fn push_sources(sections: &mut Vec<String>, nodes: &Vec<XmlNode>, from: usize, to: usize)
    requires
        from <= to <= nodes.len(),
    ensures
        section_texts(final(sections)@) == section_texts(old(sections)@) + sources_among(
            nodes@.subrange(from as int, to as int),
        ),
{
    let mut k: usize = from;
    proof {
        assert(nodes@.subrange(from as int, from as int) =~= Seq::<XmlNode>::empty());
        assert(sources_among(Seq::<XmlNode>::empty()) =~= Seq::<Seq<char>>::empty());
        assert(section_texts(sections@) =~= section_texts(old(sections)@) + Seq::<
            Seq<char>,
        >::empty());
    }
    while k < to
        invariant
            from <= k <= to <= nodes.len(),
            section_texts(sections@) == section_texts(old(sections)@) + sources_among(
                nodes@.subrange(from as int, k as int),
            ),
        decreases to - k,
    {
        let node = &nodes[k];
        proof {
            let seen = nodes@.subrange(from as int, k as int);
            seen.lemma_filter_push(*node, |node: XmlNode| is_source(node));
            assert(seen.push(*node) =~= nodes@.subrange(from as int, k + 1));
            assert(sources_among(seen.push(*node)) =~= if is_source(*node) {
                sources_among(seen).push(node.text->0@)
            } else {
                sources_among(seen)
            });
        }
        if has_tag_name(node, "source") {
            match &node.text {
                Some(text) => {
                    let ghost before = sections@;
                    sections.push(text.clone());
                    assert(section_texts(sections@) =~= section_texts(before).push(text@));
                },
                None => {},
            }
        }
        proof {
            assert(section_texts(sections@) =~= section_texts(old(sections)@) + sources_among(
                nodes@.subrange(from as int, k + 1),
            ));
        }
        k += 1;
    }
}

/// The sections of an XLIFF document: for each `segment` element that holds no
/// `target` with text, the text of each `source` element in it.
pub fn extract_xliff_sections(nodes: &Vec<XmlNode>) -> (sections: Vec<String>)
    ensures
        section_texts(sections@) == xliff_sections(nodes@),
{
    let ghost per_node = |k: int| xliff_sections_at(nodes@, k);
    let mut sections: Vec<String> = Vec::new();
    let mut k: usize = 0;
    assert(section_texts(sections@) =~= Seq::new(0, per_node).flatten());
    while k < nodes.len()
        invariant
            k <= nodes.len(),
            per_node == |k: int| xliff_sections_at(nodes@, k),
            section_texts(sections@) == Seq::new(k as nat, per_node).flatten(),
        decreases nodes.len() - k,
    {
        proof {
            let done = Seq::new(k as nat, per_node);
            assert(done.push(per_node(k as int)) =~= Seq::new((k + 1) as nat, per_node));
            done.lemma_flatten_push(per_node(k as int));
        }
        let ghost before = sections@;
        if has_tag_name(&nodes[k], "segment") {
            let end = find_subtree_end(nodes, k);
            if !any_translation(nodes, k, end) {
                push_sources(&mut sections, nodes, k, end);
            }
        }
        assert(section_texts(sections@) =~= section_texts(before) + per_node(k as int));
        k += 1;
    }
    sections
}

/// What the rule extracts from the bytes of an XLIFF file.
pub open spec fn xliff_extraction(buf: Seq<u8>) -> Result<Seq<Seq<char>>, ErrorKind> {
    match xml_document(buf) {
        Ok(nodes) => Ok(xliff_sections(nodes)),
        Err(kind) => Err(kind),
    }
}

impl Extract for Xliff {
    open spec fn accepts(&self, buf: Seq<u8>, extension: Option<Seq<char>>) -> bool {
        extension == Some("xlf"@) || extension == Some("xliff"@)
    }

    open spec fn yields(&self, buf: Seq<u8>, outcome: Result<Seq<Seq<char>>, ErrorKind>) -> bool {
        outcome == xliff_extraction(buf)
    }

    fn can_extract(&self, _buf: &[u8], extension: Option<&str>) -> (accepted: bool) {
        match extension {
            Some(x) => same_text(x, "xlf") || same_text(x, "xliff"),
            None => false,
        }
    }

    fn extract(&self, buf: &[u8]) -> (result: Result<Vec<String>, ExtractionError>) {
        match read_xml(buf) {
            Ok(nodes) => Ok(extract_xliff_sections(&nodes)),
            Err(error) => Err(error),
        }
    }
}

} // verus!
