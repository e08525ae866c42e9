//! Randomness, taken from the operating system through `rand` and `uuid`.
//!
//! Nothing here is proved: each function states what holds of every value
//! the outside call can hand back, and no more.

use rand::seq::SliceRandom;
use vstd::prelude::*;

verus! {

/// `rand::seq::SliceRandom::choose` on a slice of bytes, with
/// `rand::rngs::OsRng`: an element of the slice at a random index, or `None`
/// exactly when the slice is empty.
#[verifier::external_body]
pub(crate) fn choose_byte(items: &[u8]) -> (chosen: Option<u8>)
    ensures
        chosen is None <==> items@.len() == 0,
        chosen matches Some(b) ==> items@.contains(b),
{
    items.choose(&mut rand::rngs::OsRng).copied()
}

/// `rand::seq::SliceRandom::shuffle` on the bytes of a vector, with
/// `rand::rngs::OsRng`: the bytes change places by a run of swaps, so the
/// vector holds the same bytes as before, each as often as before.
#[verifier::external_body]
pub(crate) fn shuffle_bytes(items: &mut Vec<u8>)
    ensures
        final(items)@.to_multiset() == old(items)@.to_multiset(),
{
    items.shuffle(&mut rand::rngs::OsRng);
}

/// `uuid::Uuid::new_v4().to_string()`: a random UUID of version 4, written
/// in its hyphenated form, which has 36 characters.
#[verifier::external_body]
pub(crate) fn random_token_value() -> (value: String)
    ensures
        value@.len() == 36,
{
    uuid::Uuid::new_v4().to_string()
}

} // verus!
