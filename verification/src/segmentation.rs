//! Turning sections of text into hashments.

use crate::hash::hash;
use crate::hash::identifier_of;
use vstd::prelude::*;

verus! {

/// A hashment (hashed segment) represents the relevant information of an analyzed segment.
/// We turn segments into hashments in order to perform a time and memory optimized TM and
/// repetition analysis.
#[derive(Clone, Copy, Debug, PartialEq, Eq, Structural)]
pub struct Hashment {
    pub hash: u64,
    pub words: usize,
    pub characters: usize,
}

/// The texts of a list of string slices.
pub open spec fn texts(units: Seq<&str>) -> Seq<Seq<char>> {
    units.map_values(|unit: &str| unit@)
}

/// Trait to define custom segmentation rules.
///
/// The three operations are pure: what each returns is a function of the text
/// it is given. The spec functions `segments`, `words` and `characters` name these
/// functions. A verified implementation defines them and proves that its
/// operations compute them; what this library proves of a set of rules holds as
/// far as that is true of it.
pub trait SegmentationRules {
    /// The segments that a section is cut into, in order.
    open spec fn segments(&self, section: Seq<char>) -> Seq<Seq<char>> {
        arbitrary()
    }

    /// The number of words in a segment.
    open spec fn words(&self, segment: Seq<char>) -> nat {
        arbitrary()
    }

    /// The number of non-whitespace characters in a segment.
    open spec fn characters(&self, segment: Seq<char>) -> nat {
        arbitrary()
    }

    /// Given a section of text, most likely containing multiple sentences, segment the text
    /// into translatable units.
    fn segment<'a>(&self, section: &'a str) -> (units: Vec<&'a str>)
        ensures
            texts(units@) == self.segments(section@),
    ;

    /// The amount of words in a particular segment
    fn count_words(&self, segment: &str) -> (n: usize)
        ensures
            n == self.words(segment@),
    ;

    /// The amount of non-whitespace characters in a particular segment
    fn count_characters(&self, segment: &str) -> (n: usize)
        ensures
            n == self.characters(segment@),
    ;
}

/// The hashment of one segment under `rules`.
pub open spec fn hashment_of<T: SegmentationRules>(rules: &T, segment: Seq<char>) -> Hashment {
    Hashment {
        hash: identifier_of(segment),
        words: rules.words(segment) as usize,
        characters: rules.characters(segment) as usize,
    }
}

/// The hashments of a list of segments: one for each segment that has a word,
/// in the order of the segments.
pub open spec fn hashments_of_segments<T: SegmentationRules>(
    rules: &T,
    segments: Seq<Seq<char>>,
) -> Seq<Hashment> {
    segments.filter(|segment: Seq<char>| rules.words(segment) > 0).map_values(
        |segment: Seq<char>| hashment_of(rules, segment),
    )
}

/// The hashments of a section: those of its segments.
pub open spec fn hashments_of<T: SegmentationRules>(rules: &T, section: Seq<char>) -> Seq<
    Hashment,
> {
    hashments_of_segments(rules, rules.segments(section))
}

/// Taking one more segment into account appends its hashment if it has a word
/// and changes nothing otherwise.
pub proof fn lemma_hashments_of_segments_push<T: SegmentationRules>(
    rules: &T,
    segments: Seq<Seq<char>>,
    segment: Seq<char>,
)
    ensures
        hashments_of_segments(rules, segments.push(segment)) == if rules.words(segment) > 0 {
            hashments_of_segments(rules, segments).push(hashment_of(rules, segment))
        } else {
            hashments_of_segments(rules, segments)
        },
{
    segments.lemma_filter_push(segment, |segment: Seq<char>| rules.words(segment) > 0);
    assert(hashments_of_segments(rules, segments.push(segment)) =~= if rules.words(segment) > 0 {
        hashments_of_segments(rules, segments).push(hashment_of(rules, segment))
    } else {
        hashments_of_segments(rules, segments)
    });
}

/// A section whose segments have no word gives no hashment: text of nothing but
/// punctuation and whitespace takes no part in any count.
pub proof fn lemma_wordless_section_gives_nothing<T: SegmentationRules>(
    rules: &T,
    section: Seq<char>,
)
    requires
        forall|i: int|
            0 <= i < rules.segments(section).len() ==> rules.words(
                #[trigger] rules.segments(section)[i],
            ) == 0,
    ensures
        hashments_of(rules, section) == Seq::<Hashment>::empty(),
{
    let has_word = |segment: Seq<char>| rules.words(segment) > 0;
    rules.segments(section).lemma_all_neg_filter_empty(has_word);
    assert(hashments_of(rules, section) =~= Seq::<Hashment>::empty());
}

/// Hashmenting a section turns it into a vector of analyzable data.
/// Define and inject your own segmentation rules to modify the segmentation behaviour.
///
/// Segments without a word are dropped: they take no part in any count.
pub fn hashment<T: SegmentationRules>(section: &str, rules: &T) -> (hashments: Vec<Hashment>)
    ensures
        hashments@ == hashments_of(rules, section@),
        forall|i: int| 0 <= i < hashments.len() ==> (#[trigger] hashments[i]).words > 0,
{
    let mut hashments: Vec<Hashment> = Vec::new();
    let units = rules.segment(section);
    let mut i: usize = 0;
    while i < units.len()
        invariant
            i <= units.len(),
            texts(units@) == rules.segments(section@),
            hashments@ == hashments_of_segments(rules, texts(units@).take(i as int)),
            forall|k: int| 0 <= k < hashments.len() ==> (#[trigger] hashments[k]).words > 0,
        decreases units.len() - i,
    {
        let unit = units[i];
        proof {
            lemma_hashments_of_segments_push(rules, texts(units@).take(i as int), unit@);
            assert(texts(units@).take(i as int).push(unit@) =~= texts(units@).take(i + 1));
        }
        let word_count = rules.count_words(unit);
        if word_count > 0 {
            let character_count = rules.count_characters(unit);
            hashments.push(
                Hashment { hash: hash(unit), words: word_count, characters: character_count },
            );
        }
        i += 1;
    }
    assert(texts(units@).take(units.len() as int) =~= texts(units@));
    hashments
}

/// The texts of a list of strings.
pub open spec fn section_texts(sections: Seq<String>) -> Seq<Seq<char>> {
    sections.map_values(|section: String| section@)
}

/// The hashments of a list of sections: those of each section, one section
/// after the other. No segment reaches across two sections.
pub open spec fn hashments_of_many<T: SegmentationRules>(
    rules: &T,
    sections: Seq<Seq<char>>,
) -> Seq<Hashment> {
    sections.map_values(|section: Seq<char>| hashments_of(rules, section)).flatten()
}

/// Utility function that allows you to hashment a vector of strings at once.
/// Often used in conjunction with extract().
/// Define and inject your own segmentation rules to modify the segmentation behaviour.
pub fn hashment_many<T: SegmentationRules>(sections: Vec<String>, rules: &T) -> (hashments: Vec<
    Hashment,
>)
    ensures
        hashments@ == hashments_of_many(rules, section_texts(sections@)),
        forall|i: int| 0 <= i < hashments.len() ==> (#[trigger] hashments[i]).words > 0,
{
    let ghost per_section = |section: Seq<char>| hashments_of(rules, section);
    let mut hashments: Vec<Hashment> = Vec::new();
    let mut i: usize = 0;
    while i < sections.len()
        invariant
            i <= sections.len(),
            per_section == |section: Seq<char>| hashments_of(rules, section),
            hashments@ == section_texts(sections@).take(i as int).map_values(
                per_section,
            ).flatten(),
            forall|k: int| 0 <= k < hashments.len() ==> (#[trigger] hashments[k]).words > 0,
        decreases sections.len() - i,
    {
        let mut part = hashment(sections[i].as_str(), rules);
        proof {
            let done = section_texts(sections@).take(i as int);
            assert(done.push(sections[i as int]@) =~= section_texts(sections@).take(i + 1));
            assert(done.push(sections[i as int]@).map_values(per_section) =~= done.map_values(
                per_section,
            ).push(part@));
            done.map_values(per_section).lemma_flatten_push(part@);
        }
        hashments.append(&mut part);
        i += 1;
    }
    assert(section_texts(sections@).take(sections.len() as int) =~= section_texts(sections@));
    hashments
}

} // verus!
