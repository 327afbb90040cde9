//! The pool itself: the slot store, the free stack and the set of bound
//! owners, with the operations that bind, release and reach records.

use crate::mixture::{views_of, GasMixture, GasMixtureView};
use crate::model::{lemma_free_within_store, lemma_register_wf, lemma_unregister_wf, PoolView};
use crate::locks::{lock_around, lock_into_inner, lock_new};
use crate::owners::{owners_contains, owners_insert, owners_remove};
use fxhash::FxBuildHasher;
use parking_lot::RwLock;
use std::collections::HashSet;
use vstd::prelude::*;

verus! {

/// Why the pool turned a request down.
#[derive(Debug, PartialEq, Eq)]
pub enum PoolError {
    /// No slot with this index exists.
    NotFound(usize),
    /// The owner's field did not hold a number.
    NotANumber,
}

/// A pool of gas mixtures. Owners reach a mixture by the index of its slot.
pub struct GasMixtures {
    gas_mixtures: Vec<GasMixture>,
    next_gas_ids: Vec<usize>,
    registered: HashSet<u32, FxBuildHasher>,
}

impl View for GasMixtures {
    type V = PoolView;

    closed spec fn view(&self) -> PoolView {
        PoolView {
            mixtures: views_of(self.gas_mixtures@),
            next_gas_ids: self.next_gas_ids@,
            registered: self.registered@,
        }
    }
}

impl GasMixtures {
    /// An empty pool, with room set aside for the slots and free indices of
    /// an ordinary run.
    pub fn new() -> (res: GasMixtures)
        ensures
            res@ == PoolView::empty(),
            res@.wf(),
    {
        let res = GasMixtures {
            gas_mixtures: Vec::with_capacity(120_000),
            next_gas_ids: Vec::with_capacity(2000),
            registered: HashSet::default(),
        };
        assert(res@.mixtures =~= Seq::empty());
        res
    }

    /// Drops every slot, every free index and every owner.
    pub fn shut_down(&mut self)
        ensures
            final(self)@ == PoolView::empty(),
    {
        self.gas_mixtures = Vec::new();
        self.next_gas_ids = Vec::new();
        self.registered.clear();
        assert(self@.mixtures =~= Seq::empty());
    }

    /// The number of slots, free ones included.
    pub fn tot_gases(&self) -> (res: usize)
        ensures
            res == self@.mixtures.len(),
    {
        self.gas_mixtures.len()
    }

    /// The number of slots that are not free. The free stack must not be
    /// longer than the store, which holds of every pool in good order.
    pub fn amt_gases(&self) -> (res: usize)
        requires
            self@.wf() || self@.live_count() >= 0,
        ensures
            res == self@.live_count(),
    {
        proof {
            if self@.wf() {
                lemma_free_within_store(self@);
            }
        }
        self.gas_mixtures.len() - self.next_gas_ids.len()
    }

    /// The number of free slots.
    pub fn free_gases(&self) -> (res: usize)
        ensures
            res == self@.next_gas_ids.len(),
    {
        self.next_gas_ids.len()
    }

    /// Whether a registration can be made: the slot on top of the free
    /// stack, if there is one, exists.
    pub fn can_register(&self) -> (res: bool)
        ensures
            res == self@.can_register(),
            self@.wf() ==> res,
    {
        let n = self.next_gas_ids.len();
        if n == 0 {
            true
        } else {
            self.next_gas_ids[n - 1] < self.gas_mixtures.len()
        }
    }

    /// Whether the slot is on the free stack.
    pub fn is_free(&self, slot: usize) -> (res: bool)
        ensures
            res == self@.is_free(slot),
    {
        let mut i: usize = 0;
        while i < self.next_gas_ids.len()
            invariant
                i <= self.next_gas_ids.len(),
                forall|j: int| 0 <= j < i ==> self.next_gas_ids@[j] != slot,
            decreases self.next_gas_ids.len() - i,
        {
            if self.next_gas_ids[i] == slot {
                return true;
            }
            i = i + 1;
        }
        false
    }

    /// Whether the pool is in good order: every free slot exists, and none is
    /// listed twice.
    pub fn is_well_formed(&self) -> (res: bool)
        ensures
            res == self@.wf(),
    {
        let n = self.next_gas_ids.len();
        let len = self.gas_mixtures.len();
        let mut i: usize = 0;
        while i < n
            invariant
                n == self.next_gas_ids@.len(),
                len == self@.mixtures.len(),
                i <= n,
                forall|a: int| 0 <= a < i ==> self.next_gas_ids@[a] < len,
                forall|a: int, b: int| 0 <= a < b < i ==> self.next_gas_ids@[a] != self.next_gas_ids@[b],
            decreases n - i,
        {
            let slot = self.next_gas_ids[i];
            if slot >= len {
                assert(!(self@.next_gas_ids[i as int] < self@.mixtures.len()));
                return false;
            }
            let mut j: usize = 0;
            while j < i
                invariant
                    n == self.next_gas_ids@.len(),
                    i < n,
                    j <= i,
                    slot == self.next_gas_ids@[i as int],
                    forall|a: int| 0 <= a < j ==> self.next_gas_ids@[a] != slot,
                decreases i - j,
            {
                if self.next_gas_ids[j] == slot {
                    assert(self@.next_gas_ids[j as int] == self@.next_gas_ids[i as int]);
                    return false;
                }
                j = j + 1;
            }
            i = i + 1;
        }
        assert forall|a: int, b: int|
            0 <= a < n && 0 <= b < n && a != b implies self@.next_gas_ids[a]
            != self@.next_gas_ids[b] by {
            if a < b {
                assert(self.next_gas_ids@[a] != self.next_gas_ids@[b]);
            } else {
                assert(self.next_gas_ids@[b] != self.next_gas_ids@[a]);
            }
        }
        true
    }

    /// Whether a release by `mix`, who carries `pointer`, may be made: it
    /// frees nothing, or the slot that it frees exists and is not free yet.
    pub fn may_release(&self, mix: u32, pointer: Option<u32>) -> (res: bool)
        ensures
            res == self@.may_release(mix, pointer),
    {
        if !owners_contains(&self.registered, mix) {
            return true;
        }
        match pointer {
            None => true,
            Some(idx) => {
                let slot: usize = idx as usize;
                slot < self.gas_mixtures.len() && !self.is_free(slot)
            },
        }
    }

    /// Binds a slot for the owner `mix`, whose requested volume is
    /// `initial_volume` (`None` where the owner's field held no number).
    ///
    /// The slot on top of the free stack is reused and its record reset;
    /// only when no slot is free does the store grow by one. The result is
    /// the slot's index as the owner carries it, in 32 bits. Without a
    /// volume nothing changes.
    ///
    /// The slot on top of the free stack must exist, as it does in every
    /// pool in good order.
    pub fn register_gasmix(&mut self, mix: u32, initial_volume: Option<u32>) -> (res: Result<
        u32,
        PoolError,
    >)
        requires
            old(self)@.wf() || old(self)@.can_register(),
        ensures
            old(self)@.wf() ==> final(self)@.wf(),
            final(self)@.mixtures.len() >= old(self)@.mixtures.len(),
            final(self)@.mixtures.len() > old(self)@.mixtures.len() ==> old(self)@.next_gas_ids.len() == 0,
            match initial_volume {
                None => res == Err::<u32, PoolError>(PoolError::NotANumber) && final(self)@ == old(self)@,
                Some(volume) => res == Ok::<u32, PoolError>(old(self)@.next_slot() as u32)
                    && final(self)@ == old(self)@.register(mix, volume),
            },
    {
        let volume: u32 = match initial_volume {
            Some(volume) => volume,
            None => {
                return Err(PoolError::NotANumber);
            },
        };
        proof {
            if self@.wf() {
                lemma_register_wf(self@, mix, volume);
            }
        }
        let idx: usize;
        if self.next_gas_ids.is_empty() {
            idx = self.gas_mixtures.len();
            self.gas_mixtures.push(GasMixture::from_vol(volume));
        } else {
            idx = self.next_gas_ids.pop().unwrap();
            let entry = &mut self.gas_mixtures[idx];
            entry.clear_with_vol(volume);
        }
        owners_insert(&mut self.registered, mix);
        assert(self@.mixtures =~= old(self)@.register(mix, volume).mixtures);
        assert(self@.next_gas_ids =~= old(self)@.register(mix, volume).next_gas_ids);
        Ok(#[verifier::truncate] (idx as u32))
    }

    /// Releases the binding of the owner `mix`, who carries the slot index
    /// `pointer` (`None` where no index could be read back from the owner).
    ///
    /// Nothing happens if the owner holds no binding, or carries no index.
    /// Otherwise the index goes on the free stack and the owner is unbound.
    /// The record is left as it is until the slot is bound again.
    ///
    /// The index is taken on trust. The pool stays in good order if the
    /// index names a slot that is not free already (`may_release`); an owner
    /// that carries anything else leaves the free stack out of order.
    pub fn unregister_gasmix(&mut self, mix: u32, pointer: Option<u32>)
        ensures
            final(self)@ == old(self)@.unregister(mix, pointer),
            old(self)@.wf() && old(self)@.may_release(mix, pointer) ==> final(self)@.wf(),
    {
        proof {
            if self@.wf() && self@.may_release(mix, pointer) {
                lemma_unregister_wf(self@, mix, pointer);
            }
        }
        if owners_contains(&self.registered, mix) {
            match pointer {
                Some(idx) => {
                    self.next_gas_ids.push(idx as usize);
                    owners_remove(&mut self.registered, mix);
                },
                None => {},
            }
        }
    }

    /// Releases as `unregister_gasmix` does where that release may be made,
    /// and says so; where it may not, changes nothing and returns `false`.
    pub fn try_unregister_gasmix(&mut self, mix: u32, pointer: Option<u32>) -> (res: bool)
        ensures
            res == old(self)@.may_release(mix, pointer),
            res ==> final(self)@ == old(self)@.unregister(mix, pointer),
            !res ==> final(self)@ == old(self)@,
            old(self)@.wf() ==> final(self)@.wf(),
    {
        if self.may_release(mix, pointer) {
            self.unregister_gasmix(mix, pointer);
            true
        } else {
            false
        }
    }
}

impl GasMixtures {
    /// Calls `f` on all the slots, free ones included, and returns what it
    /// returns.
    pub fn with_all_mixtures<T, F: FnOnce(&[GasMixture]) -> T>(&self, f: F) -> (res: T)
        requires
            forall|all: &[GasMixture]| views_of(all@) == self@.mixtures ==> #[trigger] f.requires((all,)),
        ensures
            exists|all: &[GasMixture]| views_of(all@) == self@.mixtures && #[trigger] f.ensures((all,), res),
    {
        f(self.gas_mixtures.as_slice())
    }

    /// Calls `f` on the record of slot `id` and returns what it returns; where
    /// no such slot exists, `f` is not called.
    pub fn with_gas_mixture<T, F: FnOnce(&GasMixture) -> T>(&self, id: usize, f: F) -> (res:
        Result<T, PoolError>)
        requires
            id < self@.mixtures.len() ==> forall|mix: &GasMixture|
                mix@ == self@.mixtures[id as int] ==> #[trigger] f.requires((mix,)),
        ensures
            id >= self@.mixtures.len() ==> res == Err::<T, PoolError>(PoolError::NotFound(id)),
            id < self@.mixtures.len() ==> exists|mix: &GasMixture, out: T|
                res == Ok::<T, PoolError>(out) && mix@ == self@.mixtures[id as int]
                    && #[trigger] f.ensures((mix,), out),
    {
        if id >= self.gas_mixtures.len() {
            return Err(PoolError::NotFound(id));
        }
        assert(self@.mixtures[id as int] == self.gas_mixtures@[id as int]@);
        let mix = &self.gas_mixtures[id];
        Ok(f(mix))
    }

    /// Calls `f` on the record of slot `id`, which `f` may change, and returns
    /// what it returns. No other slot changes; where no such slot exists, `f`
    /// is not called and nothing changes.
    pub fn with_gas_mixture_mut<T, F: FnOnce(&mut GasMixture) -> T>(
        &mut self,
        id: usize,
        f: F,
    ) -> (res: Result<T, PoolError>)
        requires
            id < old(self)@.mixtures.len() ==> forall|mix: &mut GasMixture|
                (*mix)@ == old(self)@.mixtures[id as int] ==> #[trigger] f.requires((mix,)),
        ensures
            id >= old(self)@.mixtures.len() ==> res == Err::<T, PoolError>(PoolError::NotFound(id))
                && final(self)@ == old(self)@,
            id < old(self)@.mixtures.len() ==> exists|mix: &mut GasMixture, out: T|
                res == Ok::<T, PoolError>(out) && (*mix)@ == old(self)@.mixtures[id as int]
                    && #[trigger] f.ensures((mix,), out) && final(self)@ == (PoolView {
                    mixtures: old(self)@.mixtures.update(id as int, (*final(mix))@),
                    ..old(self)@
                }),
    {
        if id >= self.gas_mixtures.len() {
            return Err(PoolError::NotFound(id));
        }
        assert(self@.mixtures[id as int] == self.gas_mixtures@[id as int]@);
        let mix = &mut self.gas_mixtures[id];
        let out = f(mix);
        assert(self@.mixtures =~= old(self)@.mixtures.update(id as int, self.gas_mixtures@[id as int]@));
        Ok(out)
    }

    /// Calls `f` on the records of slots `src` and `arg` and returns what it
    /// returns. Where one of the slots does not exist, `f` is not called, and
    /// the error names `src` if that is missing, else `arg`.
    pub fn with_gas_mixtures<T, F: FnOnce(&GasMixture, &GasMixture) -> T>(
        &self,
        src: usize,
        arg: usize,
        f: F,
    ) -> (res: Result<T, PoolError>)
        requires
            src < self@.mixtures.len() && arg < self@.mixtures.len() ==> forall|
                src_gas: &GasMixture,
                arg_gas: &GasMixture,
            |
                src_gas@ == self@.mixtures[src as int] && arg_gas@ == self@.mixtures[arg as int]
                    ==> #[trigger] f.requires((src_gas, arg_gas)),
        ensures
            src >= self@.mixtures.len() ==> res == Err::<T, PoolError>(PoolError::NotFound(src)),
            src < self@.mixtures.len() && arg >= self@.mixtures.len() ==> res == Err::<
                T,
                PoolError,
            >(PoolError::NotFound(arg)),
            src < self@.mixtures.len() && arg < self@.mixtures.len() ==> exists|
                src_gas: &GasMixture,
                arg_gas: &GasMixture,
                out: T,
            |
                res == Ok::<T, PoolError>(out) && src_gas@ == self@.mixtures[src as int] && arg_gas@
                    == self@.mixtures[arg as int] && #[trigger] f.ensures((src_gas, arg_gas), out),
    {
        if src >= self.gas_mixtures.len() {
            return Err(PoolError::NotFound(src));
        }
        if arg >= self.gas_mixtures.len() {
            return Err(PoolError::NotFound(arg));
        }
        assert(self@.mixtures[src as int] == self.gas_mixtures@[src as int]@);
        assert(self@.mixtures[arg as int] == self.gas_mixtures@[arg as int]@);
        let src_gas = &self.gas_mixtures[src];
        let arg_gas = &self.gas_mixtures[arg];
        Ok(f(src_gas, arg_gas))
    }

    /// Calls `f` on the records of slots `src` and `arg`, both of which `f`
    /// may change, and returns what it returns.
    ///
    /// Where `src` and `arg` are the same slot, `f` gets the slot's record
    /// first and a copy of it second: what `f` does to the copy is thrown
    /// away, and the slot ends as `f` left its first argument.
    ///
    /// Where one of the slots does not exist, `f` is not called and nothing
    /// changes; the error names `src` if that is missing, else `arg`.
    ///
    /// While `f` runs on two slots, slot `arg` holds an empty mixture of
    /// volume 0. If `f` unwinds, it stays so, and what it held is lost.
    pub fn with_gas_mixtures_mut<T, F: FnOnce(&mut GasMixture, &mut GasMixture) -> T>(
        &mut self,
        src: usize,
        arg: usize,
        f: F,
    ) -> (res: Result<T, PoolError>)
        requires
            src < old(self)@.mixtures.len() && arg < old(self)@.mixtures.len() ==> forall|
                src_gas: &mut GasMixture,
                arg_gas: &mut GasMixture,
            |
                (*src_gas)@ == old(self)@.mixtures[src as int]
                    && (*arg_gas)@ == old(self)@.mixtures[arg as int]
                    ==> #[trigger] f.requires((src_gas, arg_gas)),
        ensures
            src >= old(self)@.mixtures.len() ==> res == Err::<T, PoolError>(
                PoolError::NotFound(src),
            ),
            src < old(self)@.mixtures.len() && arg >= old(self)@.mixtures.len() ==> res == Err::<
                T,
                PoolError,
            >(PoolError::NotFound(arg)),
            res is Err ==> final(self)@ == old(self)@,
            src < old(self)@.mixtures.len() && arg < old(self)@.mixtures.len() ==> exists|
                src_gas: &mut GasMixture,
                arg_gas: &mut GasMixture,
                out: T,
            |
                res == Ok::<T, PoolError>(out) && (*src_gas)@ == old(self)@.mixtures[src as int]
                    && (*arg_gas)@ == old(self)@.mixtures[arg as int] && #[trigger] f.ensures(
                    (src_gas, arg_gas),
                    out,
                ) && final(self)@ == (PoolView {
                    mixtures: pair_written(
                        old(self)@.mixtures,
                        src as int,
                        arg as int,
                        (*final(src_gas))@,
                        (*final(arg_gas))@,
                    ),
                    ..old(self)@
                }),
    {
        if src >= self.gas_mixtures.len() {
            return Err(PoolError::NotFound(src));
        }
        assert(self@.mixtures[src as int] == self.gas_mixtures@[src as int]@);
        if src == arg {
            let mut copied = self.gas_mixtures[src].clone();
            let mix = &mut self.gas_mixtures[src];
            let out = f(mix, &mut copied);
            assert(self@.mixtures =~= pair_written(
                old(self)@.mixtures,
                src as int,
                arg as int,
                self.gas_mixtures@[src as int]@,
                copied@,
            ));
            Ok(out)
        } else {
            if arg >= self.gas_mixtures.len() {
                return Err(PoolError::NotFound(arg));
            }
            assert(self@.mixtures[arg as int] == self.gas_mixtures@[arg as int]@);
            let mut arg_gas = GasMixture::from_vol(0);
            std::mem::swap(&mut self.gas_mixtures[arg], &mut arg_gas);
            let src_gas = &mut self.gas_mixtures[src];
            let out = f(src_gas, &mut arg_gas);
            std::mem::swap(&mut self.gas_mixtures[arg], &mut arg_gas);
            assert(self@.mixtures =~= pair_written(
                old(self)@.mixtures,
                src as int,
                arg as int,
                self.gas_mixtures@[src as int]@,
                self.gas_mixtures@[arg as int]@,
            ));
            Ok(out)
        }
    }
}

impl GasMixtures {
    /// Writes two records back into the pool: `src_gas` into slot `src` and
    /// `arg_gas` into slot `arg`. Where the two are one slot, `src_gas` stays
    /// and `arg_gas` is dropped.
    pub fn put_pair(&mut self, src: usize, arg: usize, src_gas: GasMixture, arg_gas: GasMixture)
        requires
            src < old(self)@.mixtures.len(),
            arg < old(self)@.mixtures.len(),
        ensures
            final(self)@ == (PoolView {
                mixtures: pair_written(
                    old(self)@.mixtures,
                    src as int,
                    arg as int,
                    src_gas@,
                    arg_gas@,
                ),
                ..old(self)@
            }),
    {
        if src != arg {
            self.gas_mixtures[arg] = arg_gas;
        }
        self.gas_mixtures[src] = src_gas;
        assert(self@.mixtures =~= pair_written(
            old(self)@.mixtures,
            src as int,
            arg as int,
            src_gas@,
            arg_gas@,
        ));
    }

    /// Calls `f` on the records of slots `src` and `arg`, each behind a lock
    /// of its own, so that `f` can choose how to lock each, and returns what
    /// it returns. The pool is held exclusively for the length of the call.
    ///
    /// The first lock is made around the record of `src`, the second around
    /// the record of `arg`; where `src` and `arg` are the same slot, the
    /// second is made around a copy. Afterwards what the two locks guard is
    /// written back as `put_pair` does it: each record into its slot, and
    /// for one slot the first record only, so that what `f` wrote under the
    /// second lock is thrown away.
    ///
    /// What `f` writes under a lock is not known here, so the two slots end
    /// as some pair of records written back in that way. Where one of the
    /// slots does not exist, `f` is not called and nothing changes; the error
    /// names `src` if that is missing, else `arg`.
    ///
    /// While `f` runs, the two slots hold empty mixtures of volume 0. If `f`
    /// unwinds, they stay so, and what they held is lost.
    pub fn with_gas_mixtures_custom<T, F: FnOnce(&RwLock<GasMixture>, &RwLock<GasMixture>) -> T>(
        &mut self,
        src: usize,
        arg: usize,
        f: F,
    ) -> (res: Result<T, PoolError>)
        requires
            src < old(self)@.mixtures.len() && arg < old(self)@.mixtures.len() ==> forall|
                src_lock: &RwLock<GasMixture>,
                arg_lock: &RwLock<GasMixture>,
            |
                *src_lock == lock_around(old(self)@.mixtures[src as int])
                    && *arg_lock == lock_around(old(self)@.mixtures[arg as int])
                    ==> #[trigger] f.requires((src_lock, arg_lock)),
        ensures
            src >= old(self)@.mixtures.len() ==> res == Err::<T, PoolError>(
                PoolError::NotFound(src),
            ),
            src < old(self)@.mixtures.len() && arg >= old(self)@.mixtures.len() ==> res == Err::<
                T,
                PoolError,
            >(PoolError::NotFound(arg)),
            res is Err ==> final(self)@ == old(self)@,
            src < old(self)@.mixtures.len() && arg < old(self)@.mixtures.len() ==> exists|
                src_lock: &RwLock<GasMixture>,
                arg_lock: &RwLock<GasMixture>,
                out: T,
            |
                res == Ok::<T, PoolError>(out)
                    && *src_lock == lock_around(old(self)@.mixtures[src as int])
                    && *arg_lock == lock_around(old(self)@.mixtures[arg as int])
                    && #[trigger] f.ensures((src_lock, arg_lock), out),
            src < old(self)@.mixtures.len() && arg < old(self)@.mixtures.len() ==> exists|
                src_gas: GasMixtureView,
                arg_gas: GasMixtureView,
            |
                final(self)@ == (PoolView {
                    mixtures: #[trigger] pair_written(
                        old(self)@.mixtures,
                        src as int,
                        arg as int,
                        src_gas,
                        arg_gas,
                    ),
                    ..old(self)@
                }),
    {
        if src >= self.gas_mixtures.len() {
            return Err(PoolError::NotFound(src));
        }
        if arg >= self.gas_mixtures.len() {
            return Err(PoolError::NotFound(arg));
        }
        assert(self@.mixtures[src as int] == self.gas_mixtures@[src as int]@);
        assert(self@.mixtures[arg as int] == self.gas_mixtures@[arg as int]@);
        let mut src_gas = GasMixture::from_vol(0);
        let mut arg_gas = GasMixture::from_vol(0);
        if src == arg {
            arg_gas = self.gas_mixtures[src].clone();
        } else {
            std::mem::swap(&mut self.gas_mixtures[arg], &mut arg_gas);
        }
        std::mem::swap(&mut self.gas_mixtures[src], &mut src_gas);
        let src_lock = lock_new(src_gas);
        let arg_lock = lock_new(arg_gas);
        let out = f(&src_lock, &arg_lock);
        let src_gas = lock_into_inner(src_lock);
        let arg_gas = lock_into_inner(arg_lock);
        self.put_pair(src, arg, src_gas, arg_gas);
        assert(self@.mixtures =~= pair_written(
            old(self)@.mixtures,
            src as int,
            arg as int,
            src_gas@,
            arg_gas@,
        ));
        Ok(out)
    }

    /// Calls `f` on all the slots, free ones included, each of which `f` may
    /// change, and returns what it returns. The free stack and the owners
    /// stay as they are, and the slots end as `f` left them.
    ///
    /// A slice keeps its length, so the number of slots stays as it is too;
    /// the contract says so by way of what `f` ensures of the slice it was
    /// handed, since nothing else is known here of a borrowed slice's length.
    pub fn with_all_mixtures_mut<T, F: FnOnce(&mut [GasMixture]) -> T>(&mut self, f: F) -> (res: T)
        requires
            forall|all: &mut [GasMixture]|
                views_of((*all)@) == old(self)@.mixtures ==> #[trigger] f.requires((all,)),
        ensures
            exists|all: &mut [GasMixture]|
                views_of((*all)@) == old(self)@.mixtures && #[trigger] f.ensures((all,), res)
                    && final(self)@ == (PoolView {
                    mixtures: views_of((*final(all))@),
                    ..old(self)@
                }),
    {
        let all = self.gas_mixtures.as_mut_slice();
        f(all)
    }
}

/// The records after a call that wrote `src_gas` through its first argument,
/// for slot `src`, and `arg_gas` through its second, for slot `arg`. Where
/// the two are one slot, only what was written through the first stays.
pub open spec fn pair_written(
    mixtures: Seq<GasMixtureView>,
    src: int,
    arg: int,
    src_gas: GasMixtureView,
    arg_gas: GasMixtureView,
) -> Seq<GasMixtureView> {
    if src == arg {
        mixtures.update(src, src_gas)
    } else {
        mixtures.update(src, src_gas).update(arg, arg_gas)
    }
}

/// Where both arguments of a pair write name one slot, the slot ends as the
/// first was left, whatever was written through the second; no other slot
/// changes. Where they name two slots, each ends as its argument was left.
pub proof fn lemma_pair_written(
    mixtures: Seq<GasMixtureView>,
    src: int,
    arg: int,
    src_gas: GasMixtureView,
    arg_gas: GasMixtureView,
    other: GasMixtureView,
)
    requires
        0 <= src < mixtures.len(),
        0 <= arg < mixtures.len(),
    ensures
        pair_written(mixtures, src, arg, src_gas, arg_gas).len() == mixtures.len(),
        pair_written(mixtures, src, arg, src_gas, arg_gas)[src] == src_gas,
        src != arg ==> pair_written(mixtures, src, arg, src_gas, arg_gas)[arg] == arg_gas,
        src == arg ==> pair_written(mixtures, src, arg, src_gas, arg_gas) == pair_written(
            mixtures,
            src,
            arg,
            src_gas,
            other,
        ),
        forall|i: int|
            0 <= i < mixtures.len() && i != src && i != arg ==> pair_written(
                mixtures,
                src,
                arg,
                src_gas,
                arg_gas,
            )[i] == mixtures[i],
{
}

/// Whether the owner holds a binding.
pub fn is_registered_mix(pool: &GasMixtures, i: u32) -> (res: bool)
    ensures
        res == pool@.registered.contains(i),
{
    owners_contains(&pool.registered, i)
}

/// Records that the owner holds a binding.
pub fn register_mix(pool: &mut GasMixtures, i: u32)
    ensures
        final(pool)@ == (PoolView { registered: old(pool)@.registered.insert(i), ..old(pool)@ }),
{
    owners_insert(&mut pool.registered, i);
}

/// Records that the owner holds no binding.
pub fn unregister_mix(pool: &mut GasMixtures, i: u32)
    ensures
        final(pool)@ == (PoolView { registered: old(pool)@.registered.remove(i), ..old(pool)@ }),
{
    owners_remove(&mut pool.registered, i);
}

} // verus!
