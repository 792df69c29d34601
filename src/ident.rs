use std::hash::{Hash, Hasher};
use vstd::prelude::*;

verus! {

/// The key that std's default hasher gives to an identifier's spelling.
pub uninterp spec fn hash_of(s: Seq<char>) -> u64;

/// Relies on `std::collections::hash_map::DefaultHasher`: a hasher made by
/// `new` always starts from the same keys, so the key depends on the
/// spelling alone.
#[verifier::external_body]
fn default_hash(x: &str) -> (r: u64)
    ensures
        r == hash_of(x@),
{
    let mut h = std::collections::hash_map::DefaultHasher::new();
    x.hash(&mut h);
    h.finish()
}

/// The key of an identifier: the same spelling always gives the same key.
pub fn hash_string(x: &str) -> (r: u64)
    ensures
        r == hash_of(x@),
{
    default_hash(x)
}

} // verus!
