//! Content hashing of segments.
//!
//! A segment is identified by a 64-bit hash of its text. Two segments with the
//! same text always get the same identifier. Two different texts get different
//! identifiers with overwhelming probability only: the hash is not
//! cryptographic, and every consumer of an identifier treats an equal hash as
//! equal content, accepting the negligible chance of a collision.

use std::collections::hash_map::DefaultHasher;
use std::hash::Hash;
use std::hash::Hasher;
use vstd::prelude::*;
use vstd::std_specs::hash::DefaultHasherAdditionalSpecFns;

verus! {

/// The writes that the `Hash` impl of `str` performs on a hasher for `text`.
pub uninterp spec fn str_hash_writes(text: Seq<char>) -> Seq<Seq<u8>>;

/// The identifier of `text`: the digest of a fresh `DefaultHasher` that was fed
/// `text` and nothing else.
pub open spec fn identifier_of(text: Seq<char>) -> u64 {
    DefaultHasher::spec_finish(str_hash_writes(text))
}

/// Calls `<str as Hash>::hash`. Trusted: the writes that reach the hasher
/// depend on the text alone and are appended to those already made.
#[verifier::external_body]
fn feed_str(s: &str, hasher: &mut DefaultHasher)
    ensures
        final(hasher)@ == old(hasher)@ + str_hash_writes(s@),
{
    s.hash(hasher)
}

/// Used to hash segments into hashments.
pub fn hash(s: &str) -> (id: u64)
    ensures
        id == identifier_of(s@),
{
    let mut hasher = DefaultHasher::new();
    feed_str(s, &mut hasher);
    assert(hasher@ =~= str_hash_writes(s@));
    hasher.finish()
}

} // verus!
