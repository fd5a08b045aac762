use file_count::hash::hash;
use file_count::segmentation::hashment;
use file_count::segmentation::hashment_many;
use file_count::segmentation::Hashment;
use file_count::segmentation::SegmentationRules;
use file_count::unicode::count_characters;
use file_count::unicode::count_words;
use file_count::unicode::segment;
use file_count::unicode::UnicodeRules;

/// Rules that cut at every line feed and count space-separated words.
struct LineRules;

impl SegmentationRules for LineRules {
    fn segment<'a>(&self, section: &'a str) -> Vec<&'a str> {
        section.split('\n').collect()
    }

    fn count_words(&self, segment: &str) -> usize {
        segment.split(' ').filter(|word| !word.is_empty()).count()
    }

    fn count_characters(&self, segment: &str) -> usize {
        segment.chars().filter(|c| *c != ' ').count()
    }
}

#[test]
fn two_sentences_give_two_hashments() {
    let hashments = hashment("This is a sentence. This is another sentence.", &UnicodeRules);
    assert_eq!(2, hashments.len());
    assert_eq!(
        hashments[0],
        Hashment { hash: hash("This is a sentence. "), words: 4, characters: 16 }
    );
    assert_eq!(
        hashments[1],
        Hashment { hash: hash("This is another sentence."), words: 4, characters: 22 }
    );
}

#[test]
fn segments_cover_the_section_in_order() {
    let section = "Mr. Fox jumped. [...] The dog was too lazy.";
    let units = segment(section);
    assert_eq!(units, vec!["Mr. ", "Fox jumped. ", "[...] ", "The dog was too lazy."]);
    assert_eq!(units.concat(), section);
    assert_eq!(UnicodeRules.segment(section), units);
}

#[test]
fn empty_section_has_no_segment() {
    assert!(segment("").is_empty());
    assert!(hashment("", &UnicodeRules).is_empty());
}

#[test]
fn words_are_counted_by_unicode_rules() {
    assert_eq!(count_words("The quick (\"brown\") fox can't jump 32.3 feet, right?"), 9);
    assert_eq!(count_words("hello"), 1);
    assert_eq!(count_words(""), 0);
    assert_eq!(count_words(" \t\n"), 0);
    assert_eq!(count_words("?! ... ---"), 0);
    assert_eq!(UnicodeRules.count_words("one two"), 2);
}

#[test]
fn characters_are_counted_without_whitespace() {
    assert_eq!(count_characters("a b\tc\nd"), 4);
    assert_eq!(count_characters(""), 0);
    assert_eq!(count_characters("  \u{a0}\u{2003} "), 0);
    assert_eq!(count_characters("h\u{e9}llo w\u{f6}rld!"), 11);
    assert_eq!(count_characters("\u{65e5}\u{672c}\u{8a9e}"), 3);
    assert_eq!(UnicodeRules.count_characters("x y"), 2);
}

#[test]
fn white_space_is_not_counted() {
    let white = "\u{9}\u{a}\u{b}\u{c}\u{d}\u{20}\u{85}\u{a0}\u{1680}\u{2000}\u{2001}\u{2002}\
\u{2003}\u{2004}\u{2005}\u{2006}\u{2007}\u{2008}\u{2009}\u{200a}\u{2028}\u{2029}\u{202f}\
\u{205f}\u{3000}";
    assert_eq!(white.chars().count(), 25);
    assert_eq!(count_characters(white), 0);
    let black = "\u{8}\u{e}\u{1c}\u{1f}\u{21}\u{84}\u{86}\u{9f}\u{a1}\u{167f}\u{1681}\u{180e}\
\u{1fff}\u{200b}\u{2027}\u{202a}\u{202e}\u{2030}\u{205e}\u{2060}\u{2fff}\u{3001}\u{feff}";
    assert_eq!(count_characters(black), black.chars().count());
    assert_eq!(count_characters(black), 23);
}

#[test]
fn no_segment_is_empty() {
    for section in ["", " ", "a", "One. Two! Three?", "\n\n", "... ", "Mr. Fox jumped. [...]"] {
        let units = segment(section);
        assert!(units.iter().all(|unit| !unit.is_empty()));
        assert_eq!(units.concat(), section);
        assert_eq!(units.is_empty(), section.is_empty());
    }
}

#[test]
fn text_without_words_gives_no_hashment() {
    assert!(hashment("... !!! ???", &UnicodeRules).is_empty());
    assert!(hashment("   \n\t  ", &UnicodeRules).is_empty());
    assert!(hashment("-- (,) --", &UnicodeRules).is_empty());
    assert!(hashment_many(vec![String::from("?!"), String::from(" ")], &UnicodeRules).is_empty());
}

#[test]
fn segments_without_words_are_dropped_among_others() {
    let hashments = hashment("Mr. Fox jumped. [...] The dog was too lazy.", &UnicodeRules);
    let hashes: Vec<u64> = hashments.iter().map(|h| h.hash).collect();
    assert_eq!(hashes, vec![hash("Mr. "), hash("Fox jumped. "), hash("The dog was too lazy.")]);
    assert!(hashments.iter().all(|h| h.words > 0));
}

#[test]
fn custom_rules_are_used() {
    let hashments = hashment("one two\n\nthree", &LineRules);
    assert_eq!(
        hashments,
        vec![
            Hashment { hash: hash("one two"), words: 2, characters: 6 },
            Hashment { hash: hash("three"), words: 1, characters: 5 },
        ]
    );
}

#[test]
fn sections_are_hashmented_in_order() {
    let sections = vec![String::from("b\nc"), String::new(), String::from("a")];
    let hashments = hashment_many(sections, &LineRules);
    let hashes: Vec<u64> = hashments.iter().map(|h| h.hash).collect();
    assert_eq!(hashes, vec![hash("b"), hash("c"), hash("a")]);
}

#[test]
fn sections_are_segmented_one_by_one() {
    let sections = vec![String::from("No full stop"), String::from("here either")];
    let hashments = hashment_many(sections, &UnicodeRules);
    assert_eq!(
        hashments,
        vec![
            Hashment { hash: hash("No full stop"), words: 3, characters: 10 },
            Hashment { hash: hash("here either"), words: 2, characters: 10 },
        ]
    );
}

#[test]
fn no_section_gives_no_hashment() {
    assert!(hashment_many(Vec::new(), &UnicodeRules).is_empty());
}
