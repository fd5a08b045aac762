//! The analysis of a stream of hashments: how much text there is, how much of
//! it repeats earlier text of the same stream, and how much of it the
//! translation memory already holds.

use crate::memory::HashedMemory;
use crate::segmentation::Hashment;
use vstd::prelude::*;
use vstd::std_specs::convert::FromSpecImpl;
use vstd::std_specs::ops::AddSpecImpl;

verus! {

/// An amount of text in exact numbers, however large.
pub struct Quantity {
    pub segments: nat,
    pub words: nat,
    pub characters: nat,
}

impl Quantity {
    /// No text at all.
    pub open spec fn zero() -> Quantity {
        Quantity { segments: 0, words: 0, characters: 0 }
    }

    /// Two amounts taken together.
    pub open spec fn plus(self, other: Quantity) -> Quantity {
        Quantity {
            segments: self.segments + other.segments,
            words: self.words + other.words,
            characters: self.characters + other.characters,
        }
    }

    /// What one hashment contributes: itself as one segment, with its words and
    /// characters.
    pub open spec fn of(hashment: Hashment) -> Quantity {
        Quantity {
            segments: 1,
            words: hashment.words as nat,
            characters: hashment.characters as nat,
        }
    }
}

/// The number that a `usize` counter shows after counting to `n`: `n` itself as
/// long as it fits, `n` modulo `usize::MAX + 1` beyond.
pub open spec fn counter(n: nat) -> usize {
    (n % (usize::MAX as nat + 1)) as usize
}

/// Primitive struct to encapsulate the different analysis results.
///
/// Each count is a `usize` counter: sums that grow beyond `usize::MAX` wrap around.
#[derive(Clone, Copy, Debug, PartialEq, Eq, Structural)]
pub struct Counts {
    /// The amount of analyzed segments
    pub segments: usize,
    /// The amount of analyzed words
    pub words: usize,
    /// The amount of analyzed characters (non-whitespace)
    pub characters: usize,
}

impl Counts {
    /// The counts that show a quantity.
    pub open spec fn showing(quantity: Quantity) -> Counts {
        Counts {
            segments: counter(quantity.segments),
            words: counter(quantity.words),
            characters: counter(quantity.characters),
        }
    }

    /// The counts of no text at all.
    pub open spec fn zero() -> Counts {
        Counts { segments: 0, words: 0, characters: 0 }
    }

    /// The counts of one hashment: itself as one segment, with its words and
    /// characters.
    pub open spec fn of(hashment: Hashment) -> Counts {
        Counts { segments: 1, words: hashment.words, characters: hashment.characters }
    }

    /// The sum of two counts, number by number, on `usize` counters.
    pub open spec fn plus(self, other: Counts) -> Counts {
        Counts {
            segments: vstd::wrapping::usize_specs::wrapping_add(self.segments, other.segments),
            words: vstd::wrapping::usize_specs::wrapping_add(self.words, other.words),
            characters: vstd::wrapping::usize_specs::wrapping_add(
                self.characters,
                other.characters,
            ),
        }
    }
}

impl Default for Counts {
    fn default() -> (counts: Counts)
        ensures
            counts == Counts::zero(),
    {
        Counts { segments: 0, words: 0, characters: 0 }
    }
}

impl core::ops::Add for Counts {
    type Output = Counts;

    fn add(self, rhs: Counts) -> (sum: Counts) {
        Counts {
            segments: self.segments.wrapping_add(rhs.segments),
            words: self.words.wrapping_add(rhs.words),
            characters: self.characters.wrapping_add(rhs.characters),
        }
    }
}

impl AddSpecImpl for Counts {
    open spec fn obeys_add_spec() -> bool {
        true
    }

    open spec fn add_req(self, rhs: Counts) -> bool {
        true
    }

    open spec fn add_spec(self, rhs: Counts) -> Counts {
        self.plus(rhs)
    }
}

impl From<&Hashment> for Counts {
    fn from(hashment: &Hashment) -> (counts: Counts) {
        Counts { segments: 1, words: hashment.words, characters: hashment.characters }
    }
}

impl FromSpecImpl<&Hashment> for Counts {
    open spec fn obeys_from_spec() -> bool {
        true
    }

    open spec fn from_spec(hashment: &Hashment) -> Counts {
        Counts::of(*hashment)
    }
}

/// Wrapper around the different elements common in a translation analysis
#[derive(Clone, Copy, Debug, PartialEq, Eq, Structural)]
pub struct Analysis {
    /// The plain total counts. Not taking repetitions or matches into account.
    pub total: Counts,
    /// The counts for repeated segments.
    /// Given a hashment vector only containing 2 identical hashments, the total counts will
    /// be 2 and the repetitions will be 1 (as the second segment is a repeat of the first).
    pub repetitions: Counts,
    /// The counts for segments matched with the translation memory.
    pub matches: Counts,
}

impl Analysis {
    /// Default constructor for analyses
    pub fn new() -> (analysis: Analysis)
        ensures
            analysis == Analysis::zero(),
            analysis == Analysis::of(Seq::<Hashment>::empty(), Set::<u64>::empty()),
    {
        proof {
            lemma_analysis_of_nothing(Set::<u64>::empty());
        }
        Analysis {
            total: Counts { segments: 0, words: 0, characters: 0 },
            repetitions: Counts { segments: 0, words: 0, characters: 0 },
            matches: Counts { segments: 0, words: 0, characters: 0 },
        }
    }

    /// The analysis in which every count is zero.
    pub open spec fn zero() -> Analysis {
        Analysis { total: Counts::zero(), repetitions: Counts::zero(), matches: Counts::zero() }
    }

    /// The analysis of a stream of hashments against the hashes that a translation
    /// memory holds.
    pub open spec fn of(hashments: Seq<Hashment>, known: Set<u64>) -> Analysis {
        Analysis {
            total: Counts::showing(total_of(hashments)),
            repetitions: Counts::showing(repetitions_of(hashments)),
            matches: Counts::showing(matches_of(hashments, known)),
        }
    }
}

/// The hashes that occur in a stream of hashments.
pub open spec fn hashes_in(hashments: Seq<Hashment>) -> Set<u64> {
    Set::new(|hash: u64| exists|i: int| 0 <= i < hashments.len() && hashments[i].hash == hash)
}

/// All the text of a stream: each hashment counted once.
pub open spec fn total_of(hashments: Seq<Hashment>) -> Quantity
    decreases hashments.len(),
{
    if hashments.len() == 0 {
        Quantity::zero()
    } else {
        total_of(hashments.drop_last()).plus(Quantity::of(hashments.last()))
    }
}

/// The text of a stream that the memory holds: each hashment whose hash is
/// known counted once, wherever it stands.
pub open spec fn matches_of(hashments: Seq<Hashment>, known: Set<u64>) -> Quantity {
    total_of(hashments.filter(|hashment: Hashment| known.contains(hashment.hash)))
}

/// The text of a stream that repeats earlier text of it: each hashment whose
/// hash occurs before it counted once.
pub open spec fn repetitions_of(hashments: Seq<Hashment>) -> Quantity
    decreases hashments.len(),
{
    if hashments.len() == 0 {
        Quantity::zero()
    } else if hashes_in(hashments.drop_last()).contains(hashments.last().hash) {
        repetitions_of(hashments.drop_last()).plus(Quantity::of(hashments.last()))
    } else {
        repetitions_of(hashments.drop_last())
    }
}

/// The hashes that a memory holds, none where there is no memory.
pub open spec fn known_hashes(memory: Option<&HashedMemory>) -> Set<u64> {
    match memory {
        Some(memory) => memory@,
        None => Set::empty(),
    }
}

/// The analysis of an empty stream is zero in all nine counts, whatever the
/// memory holds.
pub proof fn lemma_analysis_of_nothing(known: Set<u64>)
    ensures
        Analysis::of(Seq::<Hashment>::empty(), known) == Analysis::zero(),
{
    let nothing = Seq::<Hashment>::empty();
    nothing.lemma_filter_len(|hashment: Hashment| known.contains(hashment.hash));
    assert(nothing.filter(|hashment: Hashment| known.contains(hashment.hash)) =~= nothing);
    vstd::arithmetic::div_mod::lemma_small_mod(0, usize::MAX as nat + 1);
}

/// A counter that shows `n` and counts `more` shows `n + more`.
pub proof fn lemma_counter_adds(n: nat, more: usize)
    ensures
        vstd::wrapping::usize_specs::wrapping_add(counter(n), more) == counter(n + more as nat),
{
    let m = usize::MAX as nat + 1;
    vstd::arithmetic::div_mod::lemma_add_mod_noop(n as int, more as int, m as int);
    vstd::arithmetic::div_mod::lemma_small_mod(more as nat, m);
    vstd::arithmetic::div_mod::lemma_mod_bound(n as int, m as int);
    let r = (n % m) as int;
    if r + more >= m {
        vstd::arithmetic::div_mod::lemma_mod_sub_multiples_vanish(r + more, m as int);
        vstd::arithmetic::div_mod::lemma_small_mod((r + more - m) as nat, m);
    } else {
        vstd::arithmetic::div_mod::lemma_small_mod((r + more) as nat, m);
    }
}

/// Counts that show a quantity, with the counts of one hashment added, show the
/// quantity with that hashment.
pub proof fn lemma_showing_plus(quantity: Quantity, hashment: Hashment)
    ensures
        Counts::showing(quantity).plus(Counts::of(hashment)) == Counts::showing(
            quantity.plus(Quantity::of(hashment)),
        ),
{
    lemma_counter_adds(quantity.segments, 1);
    lemma_counter_adds(quantity.words, hashment.words);
    lemma_counter_adds(quantity.characters, hashment.characters);
}

/// One more hashment at the end of a stream adds its hash to those that occur.
pub proof fn lemma_hashes_in_push(hashments: Seq<Hashment>, hashment: Hashment)
    ensures
        hashes_in(hashments.push(hashment)) == hashes_in(hashments).insert(hashment.hash),
{
    let longer = hashments.push(hashment);
    assert forall|hash: u64| #[trigger]
        hashes_in(longer).contains(hash) <==> hashes_in(hashments).insert(
            hashment.hash,
        ).contains(hash) by {
        if hashes_in(longer).contains(hash) {
            let i = choose|i: int| 0 <= i < longer.len() && longer[i].hash == hash;
            if i < hashments.len() {
                assert(hashments[i].hash == hash);
            }
        }
        if hashes_in(hashments).contains(hash) {
            let i = choose|i: int| 0 <= i < hashments.len() && hashments[i].hash == hash;
            assert(longer[i].hash == hash);
        }
        if hash == hashment.hash {
            assert(longer[hashments.len() as int].hash == hash);
        }
    }
    assert(hashes_in(longer) =~= hashes_in(hashments).insert(hashment.hash));
}

/// What one more hashment at the end of a stream does to the three quantities:
/// it always counts toward the total, it counts as a match exactly if the memory
/// holds its hash, and it counts as a repetition exactly if its hash occurs
/// before it. The two classifications do not depend on each other.
pub proof fn lemma_analysis_step(hashments: Seq<Hashment>, hashment: Hashment, known: Set<u64>)
    ensures
        total_of(hashments.push(hashment)) == total_of(hashments).plus(Quantity::of(hashment)),
        matches_of(hashments.push(hashment), known) == if known.contains(hashment.hash) {
            matches_of(hashments, known).plus(Quantity::of(hashment))
        } else {
            matches_of(hashments, known)
        },
        repetitions_of(hashments.push(hashment)) == if hashes_in(hashments).contains(
            hashment.hash,
        ) {
            repetitions_of(hashments).plus(Quantity::of(hashment))
        } else {
            repetitions_of(hashments)
        },
{
    let is_known = |hashment: Hashment| known.contains(hashment.hash);
    assert(hashments.push(hashment).drop_last() =~= hashments);
    hashments.lemma_filter_push(hashment, is_known);
    if known.contains(hashment.hash) {
        assert(hashments.filter(is_known).push(hashment).drop_last() =~= hashments.filter(
            is_known,
        ));
    }
}

/// Counts are a commutative monoid under their sum: the order and the grouping of
/// the summands do not matter, and the counts of no text change nothing.
pub proof fn lemma_counts_are_a_monoid(a: Counts, b: Counts, c: Counts)
    ensures
        a.plus(b) == b.plus(a),
        a.plus(b).plus(c) == a.plus(b.plus(c)),
        a.plus(Counts::zero()) == a,
        Counts::zero().plus(a) == a,
{
}

/// Quantities are a commutative monoid under their sum.
pub proof fn lemma_quantities_are_a_monoid(a: Quantity, b: Quantity, c: Quantity)
    ensures
        a.plus(b) == b.plus(a),
        a.plus(b).plus(c) == a.plus(b.plus(c)),
        a.plus(Quantity::zero()) == a,
        Quantity::zero().plus(a) == a,
{
}

/// The repetitions and the matches are part of the stream: in segments, in words
/// and in characters they stay within the total.
pub proof fn lemma_parts_within_total(hashments: Seq<Hashment>, known: Set<u64>)
    ensures
        repetitions_of(hashments).segments <= total_of(hashments).segments,
        repetitions_of(hashments).words <= total_of(hashments).words,
        repetitions_of(hashments).characters <= total_of(hashments).characters,
        matches_of(hashments, known).segments <= total_of(hashments).segments,
        matches_of(hashments, known).words <= total_of(hashments).words,
        matches_of(hashments, known).characters <= total_of(hashments).characters,
    decreases hashments.len(),
{
    if hashments.len() == 0 {
        lemma_analysis_of_nothing(known);
        assert(hashments =~= Seq::<Hashment>::empty());
        hashments.lemma_filter_len(|hashment: Hashment| known.contains(hashment.hash));
    } else {
        let earlier = hashments.drop_last();
        lemma_parts_within_total(earlier, known);
        lemma_analysis_step(earlier, hashments.last(), known);
        assert(earlier.push(hashments.last()) =~= hashments);
    }
}

/// Where the words and the characters of a stream fit in a `usize`, the analysis
/// shows the exact quantities in all nine counts.
pub proof fn lemma_analysis_is_exact_where_it_fits(hashments: Seq<Hashment>, known: Set<u64>)
    requires
        hashments.len() <= usize::MAX,
        total_of(hashments).words <= usize::MAX,
        total_of(hashments).characters <= usize::MAX,
    ensures
        Analysis::of(hashments, known).total.segments == total_of(hashments).segments,
        Analysis::of(hashments, known).total.words == total_of(hashments).words,
        Analysis::of(hashments, known).total.characters == total_of(hashments).characters,
        Analysis::of(hashments, known).repetitions.segments == repetitions_of(
            hashments,
        ).segments,
        Analysis::of(hashments, known).repetitions.words == repetitions_of(hashments).words,
        Analysis::of(hashments, known).repetitions.characters == repetitions_of(
            hashments,
        ).characters,
        Analysis::of(hashments, known).matches.segments == matches_of(hashments, known).segments,
        Analysis::of(hashments, known).matches.words == matches_of(hashments, known).words,
        Analysis::of(hashments, known).matches.characters == matches_of(
            hashments,
            known,
        ).characters,
{
    lemma_total_segments(hashments);
    lemma_parts_within_total(hashments, known);
    lemma_counter_exact(total_of(hashments).segments);
    lemma_counter_exact(total_of(hashments).words);
    lemma_counter_exact(total_of(hashments).characters);
    lemma_counter_exact(repetitions_of(hashments).segments);
    lemma_counter_exact(repetitions_of(hashments).words);
    lemma_counter_exact(repetitions_of(hashments).characters);
    lemma_counter_exact(matches_of(hashments, known).segments);
    lemma_counter_exact(matches_of(hashments, known).words);
    lemma_counter_exact(matches_of(hashments, known).characters);
}

/// A counter shows what it counted as long as that fits in a `usize`.
pub proof fn lemma_counter_exact(n: nat)
    requires
        n <= usize::MAX,
    ensures
        counter(n) == n,
{
    vstd::arithmetic::div_mod::lemma_small_mod(n, usize::MAX as nat + 1);
}

/// The total has one segment for each hashment of the stream.
pub proof fn lemma_total_segments(hashments: Seq<Hashment>)
    ensures
        total_of(hashments).segments == hashments.len(),
    decreases hashments.len(),
{
    if hashments.len() > 0 {
        lemma_total_segments(hashments.drop_last());
    }
}

/// The hashes that occur in a stream are finitely many, and the repetitions have
/// one segment for each hashment but the first of each hash: whatever the order
/// of the stream, exactly one occurrence of each hash is not a repetition.
pub proof fn lemma_repetition_segments(hashments: Seq<Hashment>)
    ensures
        hashes_in(hashments).finite(),
        repetitions_of(hashments).segments + hashes_in(hashments).len() == hashments.len(),
    decreases hashments.len(),
{
    if hashments.len() == 0 {
        assert(hashes_in(hashments) =~= Set::<u64>::empty());
    } else {
        let earlier = hashments.drop_last();
        lemma_repetition_segments(earlier);
        lemma_hashes_in_push(earlier, hashments.last());
        assert(earlier.push(hashments.last()) =~= hashments);
    }
}

/// The number of repeated segments does not depend on the order of the stream.
pub proof fn lemma_repetition_segments_ignore_order(first: Seq<Hashment>, second: Seq<Hashment>)
    requires
        first.to_multiset() == second.to_multiset(),
    ensures
        repetitions_of(first).segments == repetitions_of(second).segments,
{
    vstd::seq_lib::to_multiset_len(first);
    vstd::seq_lib::to_multiset_len(second);
    lemma_repetition_segments(first);
    lemma_repetition_segments(second);
    assert forall|hash: u64| hashes_in(first).contains(hash) <==> hashes_in(second).contains(
        hash,
    ) by {
        if hashes_in(first).contains(hash) {
            let i = choose|i: int| 0 <= i < first.len() && first[i].hash == hash;
            vstd::seq_lib::to_multiset_contains(first, first[i]);
            vstd::seq_lib::to_multiset_contains(second, first[i]);
            let k = choose|k: int| 0 <= k < second.len() && second[k] == first[i];
            assert(second[k].hash == hash);
        }
        if hashes_in(second).contains(hash) {
            let i = choose|i: int| 0 <= i < second.len() && second[i].hash == hash;
            vstd::seq_lib::to_multiset_contains(second, second[i]);
            vstd::seq_lib::to_multiset_contains(first, second[i]);
            let k = choose|k: int| 0 <= k < first.len() && first[k] == second[i];
            assert(first[k].hash == hash);
        }
    }
    assert(hashes_in(first) =~= hashes_in(second));
}

/// The matches are part of the stream: they have no more segments than it has
/// hashments.
pub proof fn lemma_match_segments(hashments: Seq<Hashment>, known: Set<u64>)
    ensures
        matches_of(hashments, known).segments <= hashments.len(),
{
    let is_known = |hashment: Hashment| known.contains(hashment.hash);
    hashments.lemma_filter_len(is_known);
    lemma_total_segments(hashments.filter(is_known));
}

/// In a stream whose hashments all have the same hash, every hashment but the
/// first is a repetition: the repetitions are the total of the rest of the stream,
/// one segment less than the stream has.
pub proof fn lemma_repetitions_of_one_hash(hashments: Seq<Hashment>, hash: u64)
    requires
        hashments.len() > 0,
        forall|i: int| 0 <= i < hashments.len() ==> (#[trigger] hashments[i]).hash == hash,
    ensures
        repetitions_of(hashments) == total_of(hashments.drop_first()),
        repetitions_of(hashments).segments == hashments.len() - 1,
    decreases hashments.len(),
{
    let earlier = hashments.drop_last();
    let later = hashments.drop_first();
    if hashments.len() == 1 {
        assert(hashes_in(earlier) =~= Set::<u64>::empty());
        assert(repetitions_of(earlier) == Quantity::zero());
        assert(total_of(later) == Quantity::zero());
    } else {
        lemma_repetitions_of_one_hash(earlier, hash);
        assert(earlier[0].hash == hashments.last().hash);
        assert(hashes_in(earlier).contains(hashments.last().hash));
        assert(later.drop_last() =~= earlier.drop_first());
        assert(later.last() == hashments.last());
    }
    lemma_total_segments(hashments.drop_first());
}

/// A stream of equal hashments: the total of it has the words and characters of
/// one hashment times the length of the stream.
pub proof fn lemma_total_of_equal_hashments(hashments: Seq<Hashment>, hashment: Hashment)
    requires
        forall|i: int| 0 <= i < hashments.len() ==> hashments[i] == hashment,
    ensures
        total_of(hashments).segments == hashments.len(),
        total_of(hashments).words == hashments.len() * hashment.words,
        total_of(hashments).characters == hashments.len() * hashment.characters,
    decreases hashments.len(),
{
    if hashments.len() > 0 {
        lemma_total_of_equal_hashments(hashments.drop_last(), hashment);
        assert(hashments.len() * hashment.words == (hashments.len() - 1) * hashment.words
            + hashment.words) by (nonlinear_arith);
        assert(hashments.len() * hashment.characters == (hashments.len() - 1)
            * hashment.characters + hashment.characters) by (nonlinear_arith);
    } else {
        assert(0 * hashment.words == 0) by (nonlinear_arith);
        assert(0 * hashment.characters == 0) by (nonlinear_arith);
    }
}

/// A stream of `n` equal hashments has `n - 1` repetitions, with the words and
/// characters of one hashment that many times.
pub proof fn lemma_repetitions_of_equal_hashments(hashments: Seq<Hashment>, hashment: Hashment)
    requires
        hashments.len() > 0,
        forall|i: int| 0 <= i < hashments.len() ==> hashments[i] == hashment,
    ensures
        repetitions_of(hashments).segments == hashments.len() - 1,
        repetitions_of(hashments).words == (hashments.len() - 1) * hashment.words,
        repetitions_of(hashments).characters == (hashments.len() - 1) * hashment.characters,
{
    lemma_repetitions_of_one_hash(hashments, hashment.hash);
    lemma_total_of_equal_hashments(hashments.drop_first(), hashment);
}

/// Taking one hashment out of a stream takes its contribution out of the total,
/// and out of the matches if the memory holds its hash, wherever it stood.
pub proof fn lemma_without_one(hashments: Seq<Hashment>, k: int, known: Set<u64>)
    requires
        0 <= k < hashments.len(),
    ensures
        total_of(hashments) == total_of(hashments.remove(k)).plus(Quantity::of(hashments[k])),
        matches_of(hashments, known) == if known.contains(hashments[k].hash) {
            matches_of(hashments.remove(k), known).plus(Quantity::of(hashments[k]))
        } else {
            matches_of(hashments.remove(k), known)
        },
    decreases hashments.len(),
{
    let last = hashments.last();
    let earlier = hashments.drop_last();
    assert(earlier.push(last) =~= hashments);
    lemma_analysis_step(earlier, last, known);
    if k == hashments.len() - 1 {
        assert(hashments.remove(k) =~= earlier);
    } else {
        lemma_without_one(earlier, k, known);
        assert(earlier.remove(k).push(last) =~= hashments.remove(k));
        lemma_analysis_step(earlier.remove(k), last, known);
    }
}

/// The total and the matches do not depend on the order of the stream: two
/// streams that hold the same hashments, each as often as the other, have the
/// same total and, against the same memory, the same matches.
pub proof fn lemma_order_is_irrelevant(first: Seq<Hashment>, second: Seq<Hashment>, known: Set<u64>)
    requires
        first.to_multiset() == second.to_multiset(),
    ensures
        total_of(first) == total_of(second),
        matches_of(first, known) == matches_of(second, known),
    decreases first.len(),
{
    vstd::seq_lib::to_multiset_len(first);
    vstd::seq_lib::to_multiset_len(second);
    if first.len() == 0 {
        assert(first =~= second);
    } else {
        let last = first.last();
        let earlier = first.drop_last();
        assert(earlier.push(last) =~= first);
        lemma_analysis_step(earlier, last, known);
        vstd::seq_lib::to_multiset_contains(first, last);
        vstd::seq_lib::to_multiset_contains(second, last);
        assert(first[first.len() - 1] == last);
        let k = choose|k: int| 0 <= k < second.len() && second[k] == last;
        lemma_without_one(second, k, known);
        vstd::seq_lib::to_multiset_remove(first, first.len() - 1);
        assert(first.remove(first.len() - 1) =~= earlier);
        vstd::seq_lib::to_multiset_remove(second, k);
        lemma_order_is_irrelevant(earlier, second.remove(k), known);
    }
}

/// The analysis is a function of the stream and of what the memory holds: two
/// analyses of the same stream against the same memory are equal in all counts.
pub proof fn lemma_analysis_is_determined(
    first: Analysis,
    second: Analysis,
    hashments: Seq<Hashment>,
    known: Set<u64>,
)
    requires
        first == Analysis::of(hashments, known),
        second == Analysis::of(hashments, known),
    ensures
        first == second,
{
}

/// Given hashments and an optional hashed translation memory, this function will perform
/// the final analysis.
///
/// Every hashment counts toward `total`. It counts toward `matches` if the memory
/// holds its hash, and toward `repetitions` if an earlier hashment of the same call
/// has its hash. The memory is only read.
pub fn analyze(hashments: Vec<Hashment>, memory: Option<&HashedMemory>) -> (analysis: Analysis)
    ensures
        analysis == Analysis::of(hashments@, known_hashes(memory)),
        hashments.len() == 0 ==> analysis == Analysis::zero(),
        analysis.total.segments == hashments.len(),
        analysis.repetitions.segments <= analysis.total.segments,
        analysis.matches.segments <= analysis.total.segments,
{
    let ghost known = known_hashes(memory);
    let mut repetition_memory = HashedMemory::new();
    let mut total = Counts::default();
    let mut repetitions = Counts::default();
    let mut matches = Counts::default();
    proof {
        assert(hashments@.take(0) =~= Seq::<Hashment>::empty());
        lemma_analysis_of_nothing(known);
        assert(hashes_in(hashments@.take(0)) =~= Set::<u64>::empty());
    }

    let mut i: usize = 0;
    while i < hashments.len()
        invariant
            i <= hashments.len(),
            known == known_hashes(memory),
            repetition_memory@ == hashes_in(hashments@.take(i as int)),
            total == Counts::showing(total_of(hashments@.take(i as int))),
            repetitions == Counts::showing(repetitions_of(hashments@.take(i as int))),
            matches == Counts::showing(matches_of(hashments@.take(i as int), known)),
        decreases hashments.len() - i,
    {
        let hashment = &hashments[i];
        proof {
            let seen = hashments@.take(i as int);
            assert(seen.push(*hashment) =~= hashments@.take(i + 1));
            lemma_analysis_step(seen, *hashment, known);
            lemma_hashes_in_push(seen, *hashment);
            lemma_showing_plus(total_of(seen), *hashment);
            lemma_showing_plus(repetitions_of(seen), *hashment);
            lemma_showing_plus(matches_of(seen, known), *hashment);
        }
        total = total + Counts::from(hashment);

        let matched = match memory {
            Some(memory) => memory.contains_hash(&hashment.hash),
            None => false,
        };
        if matched {
            matches = matches + Counts::from(hashment);
        }
        if repetition_memory.contains_hash(&hashment.hash) {
            repetitions = repetitions + Counts::from(hashment);
        }
        repetition_memory.add_hash(hashment.hash);
        i += 1;
    }
    proof {
        assert(hashments@.take(hashments.len() as int) =~= hashments@);
        if hashments.len() == 0 {
            assert(hashments@ =~= Seq::<Hashment>::empty());
            lemma_analysis_of_nothing(known);
        }
        lemma_total_segments(hashments@);
        lemma_repetition_segments(hashments@);
        lemma_match_segments(hashments@, known);
        lemma_counter_exact(total_of(hashments@).segments);
        lemma_counter_exact(repetitions_of(hashments@).segments);
        lemma_counter_exact(matches_of(hashments@, known).segments);
    }
    Analysis { total, repetitions, matches }
}

} // verus!
