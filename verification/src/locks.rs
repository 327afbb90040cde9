//! Reader-writer locks of `parking_lot`, for callers that want to choose for
//! themselves how to lock each of two records.

use crate::mixture::{GasMixture, GasMixtureView};
use parking_lot::RwLock;
use vstd::prelude::*;

verus! {

/// `parking_lot::RawRwLock`, carried as an opaque value.
#[verifier::external_type_specification]
#[verifier::external_body]
pub struct ExRawRwLock(parking_lot::RawRwLock);

/// `lock_api::RwLock`, which `parking_lot::RwLock` is made of, carried as an
/// opaque value: nothing is known of what a lock guards.
#[verifier::external_type_specification]
#[verifier::external_body]
#[verifier::reject_recursive_types(R)]
#[verifier::reject_recursive_types(T)]
pub struct ExRwLock<R, T: ?Sized>(parking_lot::lock_api::RwLock<R, T>);

/// The lock that `RwLock::new` makes around a record: unlocked, and guarding
/// that record.
pub uninterp spec fn lock_around(mix: GasMixtureView) -> RwLock<GasMixture>;

/// `RwLock::new`: an unlocked lock around the record. The result is named by
/// the record that went in; nothing is claimed of what the lock guards later,
/// since whoever holds a reference to it can write under it.
#[verifier::external_body]
pub(crate) fn lock_new(mix: GasMixture) -> (res: RwLock<GasMixture>)
    ensures
        res == lock_around(mix@),
{
    RwLock::new(mix)
}

/// `RwLock::into_inner`: the record that the lock guards by now. Nothing is
/// claimed of the record, since it may have been written under the lock.
#[verifier::external_body]
pub(crate) fn lock_into_inner(lock: RwLock<GasMixture>) -> (res: GasMixture) {
    lock.into_inner()
}

} // verus!
