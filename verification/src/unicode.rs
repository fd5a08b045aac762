//! Segmentation by the rules of Unicode Standard Annex #29.

use crate::segmentation::texts;
use crate::segmentation::SegmentationRules;
use unicode_segmentation::UnicodeSegmentation;
use vstd::prelude::*;
use vstd::string::StringSliceAdditionalSpecFns;
use vstd::utf8::encode_utf8;

verus! {

/// As a standard default segmentation ruleset this library uses the sentence and word
/// boundaries of [Unicode Standard Annex #29](http://www.unicode.org/reports/tr29/), as the
/// `unicode-segmentation` crate finds them.
pub struct UnicodeRules;

/// The pieces that `split_sentence_bounds` cuts a text into, in order.
pub uninterp spec fn sentence_bounds(section: Seq<char>) -> Seq<Seq<char>>;

/// The words that `unicode_words` finds in a text, in order.
pub uninterp spec fn unicode_words(segment: Seq<char>) -> Seq<Seq<char>>;

/// Whether a character has the Unicode property `White_Space`: the controls from
/// tab to carriage return, the space, next line, the no-break space, the ogham
/// space mark, the spaces from en quad to hair space, the line and the paragraph
/// separator, the narrow no-break space, the medium mathematical space and the
/// ideographic space.
pub open spec fn is_whitespace(c: char) -> bool {
    let code = c as u32;
    ||| 0x0009 <= code <= 0x000d
    ||| code == 0x0020
    ||| code == 0x0085
    ||| code == 0x00a0
    ||| code == 0x1680
    ||| 0x2000 <= code <= 0x200a
    ||| code == 0x2028
    ||| code == 0x2029
    ||| code == 0x202f
    ||| code == 0x205f
    ||| code == 0x3000
}

/// The characters of a segment that are not whitespace.
pub open spec fn visible_characters(segment: Seq<char>) -> Seq<char> {
    segment.filter(|c: char| !is_whitespace(c))
}

/// Calls `UnicodeSegmentation::split_sentence_bounds` and collects the pieces.
/// Trusted: the pieces depend on the text alone, none of them is empty, and put
/// together in order they give the text back.
#[verifier::external_body]
fn split_at_sentence_bounds<'a>(section: &'a str) -> (units: Vec<&'a str>)
    ensures
        texts(units@) == sentence_bounds(section@),
        texts(units@).flatten() == section@,
        forall|i: int| 0 <= i < units.len() ==> (#[trigger] units[i])@.len() > 0,
{
    section.split_sentence_bounds().collect()
}

/// Calls `UnicodeSegmentation::unicode_words` and collects the words.
/// Trusted: the words depend on the text alone.
#[verifier::external_body]
fn collect_unicode_words<'a>(segment: &'a str) -> (words: Vec<&'a str>)
    ensures
        texts(words@) == unicode_words(segment@),
{
    segment.unicode_words().collect()
}

/// Calls `char::is_whitespace`. Trusted: it tells whether the character has the
/// Unicode property `White_Space`.
#[verifier::external_body]
fn char_is_whitespace(c: char) -> (b: bool)
    ensures
        b == is_whitespace(c),
{
    c.is_whitespace()
}

/// A text has at most as many characters as its UTF-8 encoding has bytes.
proof fn lemma_characters_within_bytes(text: Seq<char>)
    ensures
        text.len() <= encode_utf8(text).len(),
    decreases text.len(),
{
    if text.len() > 0 {
        lemma_characters_within_bytes(text.drop_first());
    }
}

/// Pieces that are not empty and give an empty text when put together are none.
pub proof fn lemma_no_piece_of_nothing(pieces: Seq<Seq<char>>)
    requires
        pieces.flatten().len() == 0,
        forall|i: int| 0 <= i < pieces.len() ==> (#[trigger] pieces[i]).len() > 0,
    ensures
        pieces.len() == 0,
{
    if pieces.len() > 0 {
        pieces.lemma_flatten_and_flatten_alt_are_equivalent();
        pieces.lemma_flatten_length_ge_single_element_length(0);
    }
}

/// Split a section into multiple string references by unicode segmentation rules
///
/// The segments follow each other without gap or overlap and cover the section;
/// none is empty, so an empty section has no segment.
pub fn segment(section: &str) -> (units: Vec<&str>)
    ensures
        texts(units@) == sentence_bounds(section@),
        texts(units@).flatten() == section@,
        forall|i: int| 0 <= i < units.len() ==> (#[trigger] units[i])@.len() > 0,
        section@.len() == 0 ==> units.len() == 0,
{
    let units = split_at_sentence_bounds(section);
    proof {
        if section@.len() == 0 {
            assert forall|i: int| 0 <= i < texts(units@).len() implies (#[trigger] texts(
                units@,
            )[i]).len() > 0 by {
                assert(texts(units@)[i] == units[i]@);
            }
            lemma_no_piece_of_nothing(texts(units@));
        }
    }
    units
}

/// Counts the words in a segment according to unicode rules
pub fn count_words(segment: &str) -> (n: usize)
    ensures
        n == unicode_words(segment@).len(),
{
    let words = collect_unicode_words(segment);
    words.len()
}

/// Counts the characters in a segment naively, only counting non-whitespace characters
pub fn count_characters(segment: &str) -> (n: usize)
    ensures
        n == visible_characters(segment@).len(),
{
    let byte_count = segment.as_bytes().len();
    proof {
        lemma_characters_within_bytes(segment@);
    }
    let mut n: usize = 0;
    for c in it: segment.chars()
        invariant
            it.seq() == segment@,
            segment@.len() <= byte_count,
            n <= it.index(),
            n == visible_characters(segment@.take(it.index() as int)).len(),
    {
        proof {
            segment@.take(it.index() as int).lemma_filter_push(c, |c: char| !is_whitespace(c));
            assert(segment@.take(it.index() as int).push(c) =~= segment@.take(it.index() + 1));
        }
        if !char_is_whitespace(c) {
            n += 1;
        }
    }
    assert(segment@.take(segment@.len() as int) =~= segment@);
    n
}

/// The Segmentation rules implementation for UnicodeRules
impl SegmentationRules for UnicodeRules {
    open spec fn segments(&self, section: Seq<char>) -> Seq<Seq<char>> {
        sentence_bounds(section)
    }

    open spec fn words(&self, segment: Seq<char>) -> nat {
        unicode_words(segment).len()
    }

    open spec fn characters(&self, segment: Seq<char>) -> nat {
        visible_characters(segment).len()
    }

    fn segment<'a>(&self, section: &'a str) -> (units: Vec<&'a str>)
        ensures
            texts(units@).flatten() == section@,
            forall|i: int| 0 <= i < units.len() ==> (#[trigger] units[i])@.len() > 0,
            section@.len() == 0 ==> units.len() == 0,
    {
        segment(section)
    }

    fn count_words(&self, segment: &str) -> (n: usize) {
        count_words(segment)
    }

    fn count_characters(&self, segment: &str) -> (n: usize) {
        count_characters(segment)
    }
}

} // verus!
