//! A handle-indirected pool of gas mixture records.
//!
//! Owners outside the pool refer to a record only by the index of its slot.
//! The pool hands out slots, takes them back for reuse, and gives checked
//! access to one record, to two records at once, or to all of them.

pub mod locks;
pub mod mixture;
pub mod model;
pub mod owners;
pub mod pool;
pub mod access;

pub use access::{
    both_found, pair_error, with_mix, with_mix_mut, with_mixes, with_mixes_custom, with_mixes_mut,
};
pub use locks::lock_around;
pub use mixture::{GasMixture, GasMixtureView};
pub use model::PoolView;
pub use pool::{
    is_registered_mix, lemma_pair_written, pair_written, register_mix, unregister_mix, GasMixtures, PoolError,
};
