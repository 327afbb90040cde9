//! The set of owners that hold a binding, kept in a hash set with the Fx hasher.

use fxhash::FxBuildHasher;
use std::collections::HashSet;
use vstd::prelude::*;

verus! {

/// `fxhash::FxHasher`, carried as an opaque value.
#[verifier::external_type_specification]
#[verifier::external_body]
pub struct ExFxHasher(fxhash::FxHasher);

/// `std::hash::BuildHasherDefault`, the builder that `fxhash::FxBuildHasher`
/// is made of, carried as an opaque value.
#[verifier::external_type_specification]
#[verifier::external_body]
#[verifier::reject_recursive_types(H)]
pub struct ExBuildHasherDefault<H>(std::hash::BuildHasherDefault<H>);

/// `HashSet::insert` on a set built with `fxhash::FxBuildHasher`. The Fx hasher
/// starts from a fixed state and hashes the same bytes to the same value, and
/// `u32` keys are equal exactly when they are the same number, so the set
/// afterwards holds what it held and `id`. This is believed, not proved.
#[verifier::external_body]
pub(crate) fn owners_insert(set: &mut HashSet<u32, FxBuildHasher>, id: u32)
    ensures
        final(set)@ == old(set)@.insert(id),
{
    set.insert(id);
}

/// `HashSet::contains` on a set built with `fxhash::FxBuildHasher`: whether
/// `id` is in the set. Believed for the reason given at `owners_insert`.
#[verifier::external_body]
pub(crate) fn owners_contains(set: &HashSet<u32, FxBuildHasher>, id: u32) -> (res: bool)
    ensures
        res == set@.contains(id),
{
    set.contains(&id)
}

/// `HashSet::remove` on a set built with `fxhash::FxBuildHasher`: the set
/// afterwards holds what it held, without `id`. Believed for the reason given
/// at `owners_insert`.
#[verifier::external_body]
pub(crate) fn owners_remove(set: &mut HashSet<u32, FxBuildHasher>, id: u32)
    ensures
        final(set)@ == old(set)@.remove(id),
{
    set.remove(&id);
}

} // verus!
