//! The translation memory: the set of content hashes of segments seen before.

use crate::error::ErrorKind;
use crate::hash::hash;
use crate::hash::identifier_of;
use core::str::from_utf8;
use crate::xml_extensions::attribute;
use crate::xml_extensions::attribute_value;
use crate::xml_extensions::find_subtree_end;
use crate::xml_extensions::has_tag_name;
use crate::xml_extensions::is_element_named;
use crate::xml_extensions::lemma_texts_of_text_nodes_push;
use crate::xml_extensions::parse_xml;
use crate::xml_extensions::texts_of_text_nodes;
use crate::xml_extensions::texts_under;
use crate::xml_extensions::xml_nodes;
use crate::xml_extensions::XmlNode;
use crate::xml_extensions::XmlNodeKind;
use std::collections::BTreeSet;
use vstd::prelude::*;
use vstd::std_specs::iter::IteratorSpec;
use vstd::utf8::decode_utf8;
use vstd::utf8::valid_utf8;

verus! {

/// A translation memory optimized in a binary tree datastructure for performant analysis.
/// Most functions defined in this struct have a segment and a hash variant. This is for
/// convenience only, the segment variants simply make use of the included hashing
/// implementation.
///
/// The memory holds hashes, not texts: a segment counts as present when its hash is,
/// which two different texts share only by a collision of the 64-bit hash.
#[derive(Debug)]
pub struct HashedMemory(BTreeSet<u64>);

/// Why a translation memory could not be read from a TMX file.
#[derive(Debug)]
pub struct MemoryParseError {
    pub kind: ErrorKind,
    pub message: String,
}

impl View for HashedMemory {
    type V = Set<u64>;

    /// The hashes that the memory holds.
    closed spec fn view(&self) -> Set<u64> {
        self.0@
    }
}

impl HashedMemory {
    /// Add a segment to the memory [O(log(n)]
    pub fn add(&mut self, segment: &str)
        ensures
            final(self)@ == old(self)@.insert(identifier_of(segment@)),
    {
        self.add_hash(hash(segment));
    }

    /// Adds the hash of a segment to the memory [O(log(n)]
    pub fn add_hash(&mut self, hash: u64)
        ensures
            final(self)@ == old(self)@.insert(hash),
    {
        self.0.insert(hash);
    }

    /// Delete a segment from the memory [O(log(n)]
    pub fn delete(&mut self, segment: &str) -> (removed: bool)
        ensures
            final(self)@ == old(self)@.remove(identifier_of(segment@)),
            removed == old(self)@.contains(identifier_of(segment@)),
    {
        let id = hash(segment);
        self.0.remove(&id)
    }

    /// Checks to see if a segment exists in the memory [O(log(n)]
    pub fn contains(&self, segment: &str) -> (found: bool)
        ensures
            found == self@.contains(identifier_of(segment@)),
    {
        let id = hash(segment);
        self.contains_hash(&id)
    }

    /// Checks to see if the hash of a segment exists in the memory [O(log(n)]
    pub fn contains_hash(&self, hash: &u64) -> (found: bool)
        ensures
            found == self@.contains(*hash),
    {
        self.0.contains(hash)
    }

    /// Instantiate a new empty HashedMemory
    pub fn new() -> (memory: Self)
        ensures
            memory@ == Set::<u64>::empty(),
    {
        Self(BTreeSet::new())
    }

    /// The hashes that the memory holds, each of them once.
    pub fn hashes(&self) -> (hashes: Vec<u64>)
        ensures
            hashes@.to_set() == self@,
            hashes@.no_duplicates(),
    {
        let mut hashes: Vec<u64> = Vec::new();
        for hash in it: self.0.iter()
            invariant
                it.seq() == vstd::std_specs::btree::spec_btree_keys_iter(&self.0).remaining(),
                hashes@ == it.seq().unref().take(it.index()),
        {
            hashes.push(*hash);
            assert(hashes@ =~= it.seq().unref().take(it.index() + 1));
        }
        proof {
            vstd::std_specs::btree::axiom_spec_btree_keys_iter(&self.0);
            assert(hashes@ =~= vstd::std_specs::btree::spec_btree_keys_iter(
                &self.0,
            ).remaining().unref());
        }
        hashes
    }

    /// Adds the text of every text node at and below the node at `i`.
    fn add_texts_under(&mut self, nodes: &Vec<XmlNode>, i: usize)
        requires
            i < nodes.len(),
        ensures
            final(self)@ == old(self)@.union(hashes_of(texts_under(nodes@, i as int))),
    {
        let end = find_subtree_end(nodes, i);
        let mut k: usize = i;
        proof {
            assert(nodes@.subrange(i as int, i as int) =~= Seq::<XmlNode>::empty());
            assert(texts_of_text_nodes(Seq::<XmlNode>::empty()) =~= Seq::<Seq<char>>::empty());
            assert(hashes_of(Seq::<Seq<char>>::empty()) =~= Set::<u64>::empty());
            assert(self@ =~= old(self)@.union(Set::<u64>::empty()));
        }
        while k < end
            invariant
                i <= k <= end <= nodes.len(),
                self@ == old(self)@.union(
                    hashes_of(texts_of_text_nodes(nodes@.subrange(i as int, k as int))),
                ),
            decreases end - k,
        {
            let node = &nodes[k];
            proof {
                let seen = nodes@.subrange(i as int, k as int);
                lemma_texts_of_text_nodes_push(seen, *node);
                assert(seen.push(*node) =~= nodes@.subrange(i as int, k + 1));
                if node.kind == XmlNodeKind::Text && node.text is Some {
                    lemma_hashes_of_push(texts_of_text_nodes(seen), node.text->0@);
                }
            }
            match node.kind {
                XmlNodeKind::Text => match &node.text {
                    Some(text) => {
                        self.add(text.as_str());
                    },
                    None => {},
                },
                _ => {},
            }
            proof {
                assert(self@ =~= old(self)@.union(
                    hashes_of(texts_of_text_nodes(nodes@.subrange(i as int, k + 1))),
                ));
            }
            k += 1;
        }
    }

    /// The memory of a TMX document that was parsed into its nodes: the text of every
    /// text node below a `tuv` element whose `lang` attribute is the source language
    /// that the `header` element names in `srclang`.
    ///
    /// # Errors
    /// `MissingMetadata` where the document has no `header` element, or where the
    /// first one has no `srclang` attribute.
    pub fn from_tmx_nodes(nodes: &Vec<XmlNode>) -> (result: Result<Self, MemoryParseError>)
        ensures
            match result {
                Ok(memory) => tmx_memory(nodes@) == Some(memory@),
                Err(error) => tmx_memory(nodes@) is None && error.kind
                    == ErrorKind::MissingMetadata && error.message@ == missing_metadata(nodes@),
            },
    {
        let mut h: usize = 0;
        while h < nodes.len() && !has_tag_name(&nodes[h], "header")
            invariant
                h <= nodes.len(),
                forall|j: int| 0 <= j < h ==> !is_element_named(#[trigger] nodes[j], "header"@),
            decreases nodes.len() - h,
        {
            h += 1;
        }
        if h >= nodes.len() {
            return Err(
                MemoryParseError {
                    kind: ErrorKind::MissingMetadata,
                    message: "Missing header in tmx".to_string(),
                },
            );
        }
        assert(is_first_element_named(nodes@, "header"@, h as int));
        let srclang = match attribute(&nodes[h], "srclang") {
            Some(srclang) => srclang,
            None => {
                return Err(
                    MemoryParseError {
                        kind: ErrorKind::MissingMetadata,
                        message: "Missing srclang in tmx header".to_string(),
                    },
                );
            },
        };
        let ghost per_node = |k: int| source_texts_at(nodes@, srclang@, k);
        let mut memory = Self::new();
        let mut k: usize = 0;
        proof {
            assert(Seq::new(0, per_node).flatten() =~= Seq::<Seq<char>>::empty());
            assert(hashes_of(Seq::<Seq<char>>::empty()) =~= Set::<u64>::empty());
        }
        while k < nodes.len()
            invariant
                k <= nodes.len(),
                per_node == |k: int| source_texts_at(nodes@, srclang@, k),
                memory@ == hashes_of(Seq::new(k as nat, per_node).flatten()),
            decreases nodes.len() - k,
        {
            proof {
                let done = Seq::new(k as nat, per_node);
                assert(done.push(per_node(k as int)) =~= Seq::new((k + 1) as nat, per_node));
                done.lemma_flatten_push(per_node(k as int));
                lemma_hashes_of_concat(done.flatten(), per_node(k as int));
            }
            if is_source_variant(&nodes[k], srclang) {
                memory.add_texts_under(nodes, k);
            } else {
                assert(hashes_of(Seq::<Seq<char>>::empty()) =~= Set::<u64>::empty());
                assert(memory@ =~= memory@.union(Set::<u64>::empty()));
            }
            k += 1;
        }
        Ok(memory)
    }

    /// Create a HashedMemory from a .tmx file binary.
    ///
    /// # Errors
    /// `InvalidEncoding` where the bytes are not UTF-8, `MalformedMarkup` where the text
    /// is not well-formed XML, and `MissingMetadata` where the tmx lacks a header or the
    /// header lacks a srclang.
    pub fn from_tmx(buf: &[u8]) -> (result: Result<Self, MemoryParseError>)
        ensures
            match result {
                Ok(memory) => tmx_outcome(buf@) == Ok::<Set<u64>, ErrorKind>(memory@),
                Err(error) => tmx_outcome(buf@) == Err::<Set<u64>, ErrorKind>(error.kind) && (
                error.kind == ErrorKind::MissingMetadata ==> error.message@ == missing_metadata(
                    xml_nodes(decode_utf8(buf@))->0,
                )),
            },
    {
        let text = match from_utf8(buf) {
            Ok(text) => text,
            Err(error) => {
                return Err(
                    MemoryParseError { kind: ErrorKind::InvalidEncoding, message: error.to_string() },
                );
            },
        };
        let nodes = match parse_xml(text) {
            Ok(nodes) => nodes,
            Err(error) => {
                return Err(
                    MemoryParseError { kind: ErrorKind::MalformedMarkup, message: error.to_string() },
                );
            },
        };
        Self::from_tmx_nodes(&nodes)
    }
}

/// The hashes of a list of texts.
pub open spec fn hashes_of(texts: Seq<Seq<char>>) -> Set<u64> {
    Set::new(|id: u64| exists|i: int| 0 <= i < texts.len() && identifier_of(#[trigger] texts[i]) == id)
}

/// Whether `i` is the place of the first element with the given tag name.
pub open spec fn is_first_element_named(nodes: Seq<XmlNode>, name: Seq<char>, i: int) -> bool {
    &&& 0 <= i < nodes.len()
    &&& is_element_named(nodes[i], name)
    &&& forall|j: int| 0 <= j < i ==> !is_element_named(#[trigger] nodes[j], name)
}

/// The source language of a TMX document: the `srclang` attribute of its first
/// `header` element. None where either is missing.
pub open spec fn source_language(nodes: Seq<XmlNode>) -> Option<Seq<char>> {
    if exists|i: int| is_first_element_named(nodes, "header"@, i) {
        attribute_value(nodes[choose|i: int| is_first_element_named(nodes, "header"@, i)], "srclang"@)
    } else {
        None
    }
}

/// Whether a node is a variant of a translation unit in the given language: a
/// `tuv` element with an attribute `lang`, of whatever namespace, of that value.
pub open spec fn is_source_variant_node(node: XmlNode, language: Seq<char>) -> bool {
    &&& is_element_named(node, "tuv"@)
    &&& exists|i: int|
        0 <= i < node.attributes.len() && (#[trigger] node.attributes[i]).name@ == "lang"@
            && node.attributes[i].value@ == language
}

/// The texts that the node at `k` brings into the memory: those at and below it
/// where it is a variant in the source language, none otherwise.
pub open spec fn source_texts_at(nodes: Seq<XmlNode>, language: Seq<char>, k: int) -> Seq<
    Seq<char>,
> {
    if is_source_variant_node(nodes[k], language) {
        texts_under(nodes, k)
    } else {
        Seq::empty()
    }
}

/// The texts of a TMX document in the given language, in document order.
pub open spec fn source_texts(nodes: Seq<XmlNode>, language: Seq<char>) -> Seq<Seq<char>> {
    Seq::new(nodes.len(), |k: int| source_texts_at(nodes, language, k)).flatten()
}

/// What a TMX document that names no source language is told to lack.
pub open spec fn missing_metadata(nodes: Seq<XmlNode>) -> Seq<char> {
    if exists|i: int| is_first_element_named(nodes, "header"@, i) {
        "Missing srclang in tmx header"@
    } else {
        "Missing header in tmx"@
    }
}

/// The hashes that the memory of a TMX document holds: those of its texts in its
/// source language. None where the document names no source language.
pub open spec fn tmx_memory(nodes: Seq<XmlNode>) -> Option<Set<u64>> {
    match source_language(nodes) {
        Some(language) => Some(hashes_of(source_texts(nodes, language))),
        None => None,
    }
}

/// What reading a TMX file ends in: the hashes of its memory, or the kind of failure.
pub open spec fn tmx_outcome(bytes: Seq<u8>) -> Result<Set<u64>, ErrorKind> {
    if !valid_utf8(bytes) {
        Err(ErrorKind::InvalidEncoding)
    } else {
        match xml_nodes(decode_utf8(bytes)) {
            None => Err(ErrorKind::MalformedMarkup),
            Some(nodes) => match tmx_memory(nodes) {
                Some(hashes) => Ok(hashes),
                None => Err(ErrorKind::MissingMetadata),
            },
        }
    }
}

/// One more text at the end of a list adds its hash to those of the list.
pub proof fn lemma_hashes_of_push(texts: Seq<Seq<char>>, text: Seq<char>)
    ensures
        hashes_of(texts.push(text)) == hashes_of(texts).insert(identifier_of(text)),
{
    let longer = texts.push(text);
    assert forall|id: u64| hashes_of(longer).contains(id) <==> hashes_of(texts).insert(
        identifier_of(text),
    ).contains(id) by {
        if hashes_of(longer).contains(id) {
            let i = choose|i: int| 0 <= i < longer.len() && identifier_of(#[trigger] longer[i]) == id;
            if i < texts.len() {
                assert(identifier_of(texts[i]) == id);
            }
        }
        if hashes_of(texts).contains(id) {
            let i = choose|i: int| 0 <= i < texts.len() && identifier_of(#[trigger] texts[i]) == id;
            assert(identifier_of(longer[i]) == id);
        }
        if id == identifier_of(text) {
            assert(identifier_of(longer[texts.len() as int]) == id);
        }
    }
    assert(hashes_of(longer) =~= hashes_of(texts).insert(identifier_of(text)));
}

/// The hashes of two lists of texts put together are those of the one and those
/// of the other.
pub proof fn lemma_hashes_of_concat(first: Seq<Seq<char>>, second: Seq<Seq<char>>)
    ensures
        hashes_of(first + second) == hashes_of(first).union(hashes_of(second)),
{
    let both = first + second;
    assert forall|id: u64| hashes_of(both).contains(id) <==> hashes_of(first).union(
        hashes_of(second),
    ).contains(id) by {
        if hashes_of(both).contains(id) {
            let i = choose|i: int| 0 <= i < both.len() && identifier_of(#[trigger] both[i]) == id;
            if i < first.len() {
                assert(identifier_of(first[i]) == id);
            } else {
                assert(identifier_of(second[i - first.len()]) == id);
            }
        }
        if hashes_of(first).contains(id) {
            let i = choose|i: int| 0 <= i < first.len() && identifier_of(#[trigger] first[i]) == id;
            assert(identifier_of(both[i]) == id);
        }
        if hashes_of(second).contains(id) {
            let i = choose|i: int|
                0 <= i < second.len() && identifier_of(#[trigger] second[i]) == id;
            assert(identifier_of(both[first.len() + i]) == id);
        }
    }
    assert(hashes_of(both) =~= hashes_of(first).union(hashes_of(second)));
}

/// Whether a node is a `tuv` element with an attribute `lang` of the given value.
pub fn is_source_variant(node: &XmlNode, language: &str) -> (found: bool)
    ensures
        found == is_source_variant_node(*node, language@),
{
    if !has_tag_name(node, "tuv") {
        return false;
    }
    let mut i: usize = 0;
    while i < node.attributes.len()
        invariant
            i <= node.attributes.len(),
            is_element_named(*node, "tuv"@),
            forall|j: int|
                0 <= j < i ==> !((#[trigger] node.attributes[j]).name@ == "lang"@
                    && node.attributes[j].value@ == language@),
        decreases node.attributes.len() - i,
    {
        let candidate = &node.attributes[i];
        if crate::text::same_text(candidate.name.as_str(), "lang") && crate::text::same_text(
            candidate.value.as_str(),
            language,
        ) {
            assert(node.attributes[i as int].name@ == "lang"@);
            return true;
        }
        i += 1;
    }
    false
}

/// A segment that was added is found, whatever the memory held before, and
/// adding it once more changes nothing.
pub proof fn lemma_added_segment_is_contained(memory: Set<u64>, segment: Seq<char>)
    ensures
        memory.insert(identifier_of(segment)).contains(identifier_of(segment)),
        memory.insert(identifier_of(segment)).insert(identifier_of(segment)) == memory.insert(
            identifier_of(segment),
        ),
{
}

/// A segment that was deleted is no longer found, and deleting it once more
/// removes nothing.
pub proof fn lemma_deleted_segment_is_absent(memory: Set<u64>, segment: Seq<char>)
    ensures
        !memory.remove(identifier_of(segment)).contains(identifier_of(segment)),
        memory.remove(identifier_of(segment)).remove(identifier_of(segment)) == memory.remove(
            identifier_of(segment),
        ),
{
}

/// Deleting a segment that the memory does not hold leaves the memory as it was.
pub proof fn lemma_delete_of_absent_segment(memory: Set<u64>, segment: Seq<char>)
    requires
        !memory.contains(identifier_of(segment)),
    ensures
        memory.remove(identifier_of(segment)) == memory,
{
}

} // verus!
