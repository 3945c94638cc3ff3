//! Lists of bounded length, as the decoder of JSON fills them: `heapless::Vec`.
use vstd::prelude::*;

use crate::pages::environment::Reading;

verus! {

/// `heapless::Vec`, a list that holds at most `N` items.
#[verifier::external_type_specification]
#[verifier::external_body]
#[verifier::reject_recursive_types(T)]
pub struct ExBoundedVec<T, const N: usize>(heapless::Vec<T, N>);

/// The readings that a list holds.
pub uninterp spec fn readings_in(v: heapless::Vec<Reading, 8>) -> Seq<Reading>;

/// The numbers that a list holds.
pub uninterp spec fn codes_in(v: heapless::Vec<u16, 3>) -> Seq<u16>;

/// The texts that a list holds.
pub uninterp spec fn texts_in(v: heapless::Vec<String, 3>) -> Seq<String>;

/// `heapless::Vec::as_slice` on readings: all items in their order, which are
/// no more than the list has room for.
#[verifier::external_body]
pub(crate) fn readings_slice(v: &heapless::Vec<Reading, 8>) -> (r: &[Reading])
    ensures
        r@ == readings_in(*v),
        r@.len() <= 8,
{
    v.as_slice()
}

/// `heapless::Vec::as_slice` on numbers: all items in their order, which are no
/// more than the list has room for.
#[verifier::external_body]
pub(crate) fn codes_slice(v: &heapless::Vec<u16, 3>) -> (r: &[u16])
    ensures
        r@ == codes_in(*v),
        r@.len() <= 3,
{
    v.as_slice()
}

/// `heapless::Vec::as_slice` on texts: all items in their order, which are no
/// more than the list has room for.
#[verifier::external_body]
pub(crate) fn texts_slice(v: &heapless::Vec<String, 3>) -> (r: &[String])
    ensures
        r@ == texts_in(*v),
        r@.len() <= 3,
{
    v.as_slice()
}

} // verus!
