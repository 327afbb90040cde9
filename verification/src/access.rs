//! Access by what an owner carries: the index of its slot in 32 bits, or
//! nothing where the owner's field held no number.

use crate::locks::lock_around;
use crate::mixture::{GasMixture, GasMixtureView};
use crate::model::PoolView;
use crate::pool::{pair_written, GasMixtures, PoolError};
use parking_lot::RwLock;
use vstd::prelude::*;

verus! {

/// Calls `f` on the record that the owner's index names and returns what it
/// returns. Without an index, or where the index names no slot, `f` is not
/// called.
pub fn with_mix<T, F: FnOnce(&GasMixture) -> T>(pool: &GasMixtures, mix: Option<u32>, f: F) -> (res:
    Result<T, PoolError>)
    requires
        mix is Some && mix.unwrap() < pool@.mixtures.len() ==> forall|gas: &GasMixture|
            gas@ == pool@.mixtures[mix.unwrap() as int] ==> #[trigger] f.requires((gas,)),
    ensures
        mix is None ==> res == Err::<T, PoolError>(PoolError::NotANumber),
        mix is Some && mix.unwrap() >= pool@.mixtures.len() ==> res == Err::<T, PoolError>(
            PoolError::NotFound(mix.unwrap() as usize),
        ),
        mix is Some && mix.unwrap() < pool@.mixtures.len() ==> exists|gas: &GasMixture, out: T|
            res == Ok::<T, PoolError>(out) && gas@ == pool@.mixtures[mix.unwrap() as int]
                && #[trigger] f.ensures((gas,), out),
{
    match mix {
        None => Err(PoolError::NotANumber),
        Some(idx) => pool.with_gas_mixture(idx as usize, f),
    }
}

/// As `with_mix`, but `f` may change the record. Where `f` is not called,
/// nothing changes.
pub fn with_mix_mut<T, F: FnOnce(&mut GasMixture) -> T>(
    pool: &mut GasMixtures,
    mix: Option<u32>,
    f: F,
) -> (res: Result<T, PoolError>)
    requires
        mix is Some && mix.unwrap() < old(pool)@.mixtures.len() ==> forall|gas: &mut GasMixture|
            (*gas)@ == old(pool)@.mixtures[mix.unwrap() as int] ==> #[trigger] f.requires((gas,)),
    ensures
        mix is None ==> res == Err::<T, PoolError>(PoolError::NotANumber),
        mix is Some && mix.unwrap() >= old(pool)@.mixtures.len() ==> res == Err::<T, PoolError>(
            PoolError::NotFound(mix.unwrap() as usize),
        ),
        res is Err ==> final(pool)@ == old(pool)@,
        mix is Some && mix.unwrap() < old(pool)@.mixtures.len() ==> exists|
            gas: &mut GasMixture,
            out: T,
        |
            res == Ok::<T, PoolError>(out) && (*gas)@ == old(pool)@.mixtures[mix.unwrap() as int]
                && #[trigger] f.ensures((gas,), out) && final(pool)@ == (PoolView {
                mixtures: old(pool)@.mixtures.update(mix.unwrap() as int, (*final(gas))@),
                ..old(pool)@
            }),
{
    match mix {
        None => Err(PoolError::NotANumber),
        Some(idx) => pool.with_gas_mixture_mut(idx as usize, f),
    }
}

/// As `with_mix`, but with the records of two owners. The first thing that
/// is amiss decides the error: no index for `src_mix`, no index for
/// `arg_mix`, no slot for `src_mix`, no slot for `arg_mix`.
pub fn with_mixes<T, F: FnOnce(&GasMixture, &GasMixture) -> T>(
    pool: &GasMixtures,
    src_mix: Option<u32>,
    arg_mix: Option<u32>,
    f: F,
) -> (res: Result<T, PoolError>)
    requires
        both_found(pool@, src_mix, arg_mix) ==> forall|src_gas: &GasMixture, arg_gas: &GasMixture|
            src_gas@ == pool@.mixtures[src_mix.unwrap() as int] && arg_gas@
                == pool@.mixtures[arg_mix.unwrap() as int] ==> #[trigger] f.requires(
                (src_gas, arg_gas),
            ),
    ensures
        pair_error(pool@, src_mix, arg_mix) is Some ==> res == Err::<T, PoolError>(
            pair_error(pool@, src_mix, arg_mix).unwrap(),
        ),
        both_found(pool@, src_mix, arg_mix) ==> exists|
            src_gas: &GasMixture,
            arg_gas: &GasMixture,
            out: T,
        |
            res == Ok::<T, PoolError>(out) && src_gas@ == pool@.mixtures[src_mix.unwrap() as int]
                && arg_gas@ == pool@.mixtures[arg_mix.unwrap() as int] && #[trigger] f.ensures(
                (src_gas, arg_gas),
                out,
            ),
{
    let src: usize = match src_mix {
        None => {
            return Err(PoolError::NotANumber);
        },
        Some(idx) => idx as usize,
    };
    let arg: usize = match arg_mix {
        None => {
            return Err(PoolError::NotANumber);
        },
        Some(idx) => idx as usize,
    };
    pool.with_gas_mixtures(src, arg, f)
}

/// As `with_mixes`, but `f` may change both records. Where the two owners
/// carry the same index, `f` gets the slot's record first and a copy of it
/// second, and only what it does to the first stays. Where `f` is not
/// called, nothing changes.
pub fn with_mixes_mut<T, F: FnOnce(&mut GasMixture, &mut GasMixture) -> T>(
    pool: &mut GasMixtures,
    src_mix: Option<u32>,
    arg_mix: Option<u32>,
    f: F,
) -> (res: Result<T, PoolError>)
    requires
        both_found(old(pool)@, src_mix, arg_mix) ==> forall|
            src_gas: &mut GasMixture,
            arg_gas: &mut GasMixture,
        |
            (*src_gas)@ == old(pool)@.mixtures[src_mix.unwrap() as int]
                && (*arg_gas)@ == old(pool)@.mixtures[arg_mix.unwrap() as int]
                ==> #[trigger] f.requires((src_gas, arg_gas)),
    ensures
        pair_error(old(pool)@, src_mix, arg_mix) is Some ==> res == Err::<T, PoolError>(
            pair_error(old(pool)@, src_mix, arg_mix).unwrap(),
        ) && final(pool)@ == old(pool)@,
        both_found(old(pool)@, src_mix, arg_mix) ==> exists|
            src_gas: &mut GasMixture,
            arg_gas: &mut GasMixture,
            out: T,
        |
            res == Ok::<T, PoolError>(out)
                && (*src_gas)@ == old(pool)@.mixtures[src_mix.unwrap() as int]
                && (*arg_gas)@ == old(pool)@.mixtures[arg_mix.unwrap() as int]
                && #[trigger] f.ensures((src_gas, arg_gas), out)
                && final(pool)@ == (PoolView {
                mixtures: pair_written(
                    old(pool)@.mixtures,
                    src_mix.unwrap() as int,
                    arg_mix.unwrap() as int,
                    (*final(src_gas))@,
                    (*final(arg_gas))@,
                ),
                ..old(pool)@
            }),
{
    let src: usize = match src_mix {
        None => {
            return Err(PoolError::NotANumber);
        },
        Some(idx) => idx as usize,
    };
    let arg: usize = match arg_mix {
        None => {
            return Err(PoolError::NotANumber);
        },
        Some(idx) => idx as usize,
    };
    pool.with_gas_mixtures_mut(src, arg, f)
}

/// As `with_mixes_mut`, but `f` gets each record behind a lock of its own and
/// chooses how to lock each. The first lock is made around the record of
/// `src_mix`, the second around the record of `arg_mix`, or around a copy
/// where the two owners carry the same index. What the locks guard afterwards
/// is written back as `put_pair` does it, so that for one slot what `f` wrote
/// under the second lock is thrown away. Where `f` is not called, nothing
/// changes.
///
/// While `f` runs, the two slots hold empty mixtures of volume 0. If `f`
/// unwinds, they stay so, and what they held is lost.
pub fn with_mixes_custom<T, F: FnOnce(&RwLock<GasMixture>, &RwLock<GasMixture>) -> T>(
    pool: &mut GasMixtures,
    src_mix: Option<u32>,
    arg_mix: Option<u32>,
    f: F,
) -> (res: Result<T, PoolError>)
    requires
        both_found(old(pool)@, src_mix, arg_mix) ==> forall|
            src_lock: &RwLock<GasMixture>,
            arg_lock: &RwLock<GasMixture>,
        |
            *src_lock == lock_around(old(pool)@.mixtures[src_mix.unwrap() as int])
                && *arg_lock == lock_around(old(pool)@.mixtures[arg_mix.unwrap() as int])
                ==> #[trigger] f.requires((src_lock, arg_lock)),
    ensures
        pair_error(old(pool)@, src_mix, arg_mix) is Some ==> res == Err::<T, PoolError>(
            pair_error(old(pool)@, src_mix, arg_mix).unwrap(),
        ) && final(pool)@ == old(pool)@,
        both_found(old(pool)@, src_mix, arg_mix) ==> exists|
            src_lock: &RwLock<GasMixture>,
            arg_lock: &RwLock<GasMixture>,
            out: T,
        |
            res == Ok::<T, PoolError>(out)
                && *src_lock == lock_around(old(pool)@.mixtures[src_mix.unwrap() as int])
                && *arg_lock == lock_around(old(pool)@.mixtures[arg_mix.unwrap() as int])
                && #[trigger] f.ensures((src_lock, arg_lock), out),
        both_found(old(pool)@, src_mix, arg_mix) ==> exists|
            src_gas: GasMixtureView,
            arg_gas: GasMixtureView,
        |
            final(pool)@ == (PoolView {
                mixtures: #[trigger] pair_written(
                    old(pool)@.mixtures,
                    src_mix.unwrap() as int,
                    arg_mix.unwrap() as int,
                    src_gas,
                    arg_gas,
                ),
                ..old(pool)@
            }),
{
    let src: usize = match src_mix {
        None => {
            return Err(PoolError::NotANumber);
        },
        Some(idx) => idx as usize,
    };
    let arg: usize = match arg_mix {
        None => {
            return Err(PoolError::NotANumber);
        },
        Some(idx) => idx as usize,
    };
    pool.with_gas_mixtures_custom(src, arg, f)
}

/// The error of an access to two records, if there is one: a missing index
/// before a missing slot, and the first owner before the second.
pub open spec fn pair_error(pool: PoolView, src_mix: Option<u32>, arg_mix: Option<u32>) -> Option<
    PoolError,
> {
    if src_mix is None || arg_mix is None {
        Some(PoolError::NotANumber)
    } else if src_mix.unwrap() >= pool.mixtures.len() {
        Some(PoolError::NotFound(src_mix.unwrap() as usize))
    } else if arg_mix.unwrap() >= pool.mixtures.len() {
        Some(PoolError::NotFound(arg_mix.unwrap() as usize))
    } else {
        None
    }
}

/// Both owners carry an index, and each index names a slot.
pub open spec fn both_found(pool: PoolView, src_mix: Option<u32>, arg_mix: Option<u32>) -> bool {
    pair_error(pool, src_mix, arg_mix) is None
}

} // verus!
