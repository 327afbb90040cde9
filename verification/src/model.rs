//! The pool as a mathematical value, the transitions that registering and
//! releasing make on it, and what holds of them.

use crate::mixture::GasMixtureView;
use vstd::prelude::*;

verus! {

/// The state of a pool: the record of every slot, the stack of slots that are
/// free for reuse (its top is its last entry), and the owners that hold a
/// binding.
pub struct PoolView {
    pub mixtures: Seq<GasMixtureView>,
    pub next_gas_ids: Seq<usize>,
    pub registered: Set<u32>,
}

impl PoolView {
    /// The pool with no slot, no free slot and no owner.
    pub open spec fn empty() -> PoolView {
        PoolView { mixtures: Seq::empty(), next_gas_ids: Seq::empty(), registered: Set::empty() }
    }

    /// Every free slot exists, and none is listed twice.
    pub open spec fn wf(self) -> bool {
        &&& self.next_gas_ids.no_duplicates()
        &&& forall|i: int|
            0 <= i < self.next_gas_ids.len() ==> (#[trigger] self.next_gas_ids[i])
                < self.mixtures.len()
    }

    /// Whether the slot is on the free stack.
    pub open spec fn is_free(self, slot: usize) -> bool {
        self.next_gas_ids.contains(slot)
    }

    /// Whether the slot holds a record that is in use: it exists and is not
    /// free.
    pub open spec fn is_live(self, slot: usize) -> bool {
        slot < self.mixtures.len() && !self.is_free(slot)
    }

    /// Whether a registration can be made: the slot on top of the free stack,
    /// if there is one, exists. A pool in good order can always register.
    pub open spec fn can_register(self) -> bool {
        self.next_gas_ids.len() > 0 ==> self.next_gas_ids.last() < self.mixtures.len()
    }

    /// The slot that the next registration binds: the top of the free stack,
    /// or, if the stack is empty, the slot that the store grows by.
    pub open spec fn next_slot(self) -> int {
        if self.next_gas_ids.len() == 0 {
            self.mixtures.len() as int
        } else {
            self.next_gas_ids.last() as int
        }
    }

    /// The pool after `owner` has registered with the given volume.
    pub open spec fn register(self, owner: u32, volume: u32) -> PoolView {
        if self.next_gas_ids.len() == 0 {
            PoolView {
                mixtures: self.mixtures.push(GasMixtureView::from_vol(volume)),
                next_gas_ids: self.next_gas_ids,
                registered: self.registered.insert(owner),
            }
        } else {
            PoolView {
                mixtures: self.mixtures.update(
                    self.next_gas_ids.last() as int,
                    GasMixtureView::from_vol(volume),
                ),
                next_gas_ids: self.next_gas_ids.drop_last(),
                registered: self.registered.insert(owner),
            }
        }
    }

    /// Whether a release by `owner`, who carries `pointer`, frees a slot: the
    /// owner holds a binding and its slot could be read back.
    pub open spec fn releases(self, owner: u32, pointer: Option<u32>) -> bool {
        self.registered.contains(owner) && pointer is Some
    }

    /// What the one who releases must guarantee: a slot that is about to be
    /// freed exists and is not free already.
    pub open spec fn may_release(self, owner: u32, pointer: Option<u32>) -> bool {
        self.releases(owner, pointer) ==> pointer.unwrap() < self.mixtures.len() && !self.is_free(
            pointer.unwrap() as usize,
        )
    }

    /// The pool after `owner`, who carries `pointer`, has released.
    pub open spec fn unregister(self, owner: u32, pointer: Option<u32>) -> PoolView {
        if self.releases(owner, pointer) {
            PoolView {
                mixtures: self.mixtures,
                next_gas_ids: self.next_gas_ids.push(pointer.unwrap() as usize),
                registered: self.registered.remove(owner),
            }
        } else {
            self
        }
    }

    /// The number of slots that are not free.
    pub open spec fn live_count(self) -> int {
        self.mixtures.len() - self.next_gas_ids.len()
    }
}

/// A list of distinct numbers below `bound` has at most `bound` entries.
/// (`bound` is a length, so it is not negative.)
pub proof fn lemma_distinct_below(s: Seq<usize>, bound: int)
    requires
        0 <= bound,
        s.no_duplicates(),
        forall|i: int| 0 <= i < s.len() ==> (#[trigger] s[i]) < bound,
    ensures
        s.len() <= bound,
    decreases s.len(),
{
    if s.len() > 0 {
        let top = s.last();
        let rest = s.drop_last();
        assert(s[s.len() - 1] < bound);
        if exists|k: int| 0 <= k < rest.len() && rest[k] == bound - 1 {
            let k = choose|k: int| 0 <= k < rest.len() && rest[k] == bound - 1;
            // put the top where the largest number stood: all are then below bound - 1
            let moved = rest.update(k, top);
            assert(s[k] == rest[k]);
            assert forall|i: int| 0 <= i < moved.len() implies (#[trigger] moved[i]) < bound - 1 by {
                if i == k {
                    assert(s[s.len() - 1] != s[k]);
                } else {
                    assert(moved[i] == s[i]);
                    assert(s[i] != s[k]);
                }
            }
            assert forall|i: int, j: int|
                0 <= i < moved.len() && 0 <= j < moved.len() && i != j implies moved[i]
                != moved[j] by {
                let a = if i == k { s.len() - 1 } else { i };
                let b = if j == k { s.len() - 1 } else { j };
                assert(moved[i] == s[a]);
                assert(moved[j] == s[b]);
            }
            lemma_distinct_below(moved, bound - 1);
        } else {
            assert forall|i: int| 0 <= i < rest.len() implies (#[trigger] rest[i]) < bound - 1 by {
                assert(rest[i] == s[i]);
            }
            assert forall|i: int, j: int|
                0 <= i < rest.len() && 0 <= j < rest.len() && i != j implies rest[i]
                != rest[j] by {
                assert(rest[i] == s[i]);
                assert(rest[j] == s[j]);
            }
            lemma_distinct_below(rest, bound - 1);
        }
    }
}

/// A pool in good order has no more free slots than slots.
pub proof fn lemma_free_within_store(s: PoolView)
    requires
        s.wf(),
    ensures
        s.next_gas_ids.len() <= s.mixtures.len(),
        s.live_count() >= 0,
{
    lemma_distinct_below(s.next_gas_ids, s.mixtures.len() as int);
}

/// A pool in good order can register. Registering keeps it in good order,
/// binds the slot that `next_slot` names, and leaves that slot holding an empty mixture of the requested
/// volume, whatever it held before.
pub proof fn lemma_register_wf(s: PoolView, owner: u32, volume: u32)
    requires
        s.wf(),
    ensures
        s.can_register(),
        s.register(owner, volume).wf(),
        0 <= s.next_slot() < s.register(owner, volume).mixtures.len(),
        s.register(owner, volume).mixtures[s.next_slot()] == GasMixtureView::from_vol(volume),
        !s.register(owner, volume).is_free(s.next_slot() as usize),
        s.register(owner, volume).registered.contains(owner),
{
    let r = s.register(owner, volume);
    if s.next_gas_ids.len() > 0 {
        let n = s.next_gas_ids.len() as int;
        assert(s.next_gas_ids[n - 1] < s.mixtures.len());
        assert forall|i: int| 0 <= i < r.next_gas_ids.len() implies (#[trigger] r.next_gas_ids[i])
            < r.mixtures.len() && r.next_gas_ids[i] != s.next_gas_ids[n - 1] by {
            assert(r.next_gas_ids[i] == s.next_gas_ids[i]);
        }
    } else {
        assert forall|i: int| 0 <= i < r.next_gas_ids.len() implies (#[trigger] r.next_gas_ids[i])
            != s.mixtures.len() by {
            assert(r.next_gas_ids[i] == s.next_gas_ids[i]);
        }
    }
}

/// Releasing keeps the pool in good order, provided that a slot that is freed
/// exists and was not free already.
pub proof fn lemma_unregister_wf(s: PoolView, owner: u32, pointer: Option<u32>)
    requires
        s.wf(),
        s.may_release(owner, pointer),
    ensures
        s.unregister(owner, pointer).wf(),
{
    let u = s.unregister(owner, pointer);
    if s.releases(owner, pointer) {
        let p = pointer.unwrap() as usize;
        let n = s.next_gas_ids.len() as int;
        assert forall|i: int| 0 <= i < u.next_gas_ids.len() implies (#[trigger] u.next_gas_ids[i])
            < u.mixtures.len() by {
            if i < n {
                assert(u.next_gas_ids[i] == s.next_gas_ids[i]);
            }
        }
        assert forall|i: int, j: int|
            0 <= i < u.next_gas_ids.len() && 0 <= j < u.next_gas_ids.len() && i != j implies u.next_gas_ids[i]
            != u.next_gas_ids[j] by {
            if i < n {
                assert(u.next_gas_ids[i] == s.next_gas_ids[i]);
            }
            if j < n {
                assert(u.next_gas_ids[j] == s.next_gas_ids[j]);
            }
        }
    }
}

/// A slot that is released is reused first. After a bound owner has released
/// slot `pointer`, that slot is free; the next registration binds exactly it,
/// does not grow the store, resets its record to an empty mixture of the new
/// volume, and leaves the free stack as it was before the release.
pub proof fn lemma_release_then_reuse(
    s: PoolView,
    owner: u32,
    pointer: u32,
    next_owner: u32,
    volume: u32,
)
    requires
        s.wf(),
        s.registered.contains(owner),
        s.may_release(owner, Some(pointer)),
    ensures
        s.unregister(owner, Some(pointer)).is_free(pointer as usize),
        !s.unregister(owner, Some(pointer)).registered.contains(owner),
        s.unregister(owner, Some(pointer)).next_slot() == pointer,
        s.unregister(owner, Some(pointer)).register(next_owner, volume).mixtures.len()
            == s.mixtures.len(),
        s.unregister(owner, Some(pointer)).register(next_owner, volume).mixtures[pointer as int]
            == GasMixtureView::from_vol(volume),
        s.unregister(owner, Some(pointer)).register(next_owner, volume).next_gas_ids
            == s.next_gas_ids,
        forall|i: int|
            0 <= i < s.mixtures.len() && i != pointer ==> s.unregister(
                owner,
                Some(pointer),
            ).register(next_owner, volume).mixtures[i] == s.mixtures[i],
{
    let u = s.unregister(owner, Some(pointer));
    let r = u.register(next_owner, volume);
    assert(u.next_gas_ids[s.next_gas_ids.len() as int] == pointer as usize);
    assert(u.next_gas_ids.last() == pointer as usize);
    assert(r.next_gas_ids =~= s.next_gas_ids);
}

/// The store grows only when no slot is free, and then by one slot; it never
/// shrinks, neither by a registration nor by a release.
pub proof fn lemma_growth(s: PoolView, owner: u32, volume: u32, pointer: Option<u32>)
    requires
        s.wf(),
    ensures
        s.next_gas_ids.len() == 0 ==> s.register(owner, volume).mixtures.len() == s.mixtures.len()
            + 1,
        s.next_gas_ids.len() > 0 ==> s.register(owner, volume).mixtures.len()
            == s.mixtures.len(),
        s.unregister(owner, pointer).mixtures.len() == s.mixtures.len(),
{
    if s.next_gas_ids.len() > 0 {
        assert(s.next_gas_ids[s.next_gas_ids.len() - 1] < s.mixtures.len());
    }
}

/// Releasing twice is releasing once: the second release of an owner changes
/// nothing, whatever the owner carries by then, so the free stack still lists
/// no slot twice.
pub proof fn lemma_release_idempotent(
    s: PoolView,
    owner: u32,
    pointer: Option<u32>,
    again: Option<u32>,
)
    requires
        s.wf(),
        s.registered.contains(owner),
        pointer is Some,
        s.may_release(owner, pointer),
    ensures
        s.unregister(owner, pointer).unregister(owner, again) == s.unregister(owner, pointer),
        s.unregister(owner, pointer).may_release(owner, again),
        s.unregister(owner, pointer).unregister(owner, again).wf(),
{
    lemma_unregister_wf(s, owner, pointer);
}

/// A registration never hands out a slot that is in use. The slot that it
/// binds was not in use before and is in use after; no other slot changes
/// between in use and not in use, and no other record changes.
pub proof fn lemma_register_binds_unused_slot(s: PoolView, owner: u32, volume: u32)
    requires
        s.wf(),
        s.next_slot() <= usize::MAX,
    ensures
        !s.is_live(s.next_slot() as usize),
        s.register(owner, volume).is_live(s.next_slot() as usize),
        forall|slot: usize|
            slot != s.next_slot() ==> s.register(owner, volume).is_live(slot) == s.is_live(slot),
        forall|slot: int|
            0 <= slot < s.mixtures.len() && slot != s.next_slot() ==> s.register(
                owner,
                volume,
            ).mixtures[slot] == s.mixtures[slot],
{
    let r = s.register(owner, volume);
    let n = s.next_gas_ids.len() as int;
    lemma_register_wf(s, owner, volume);
    if n > 0 {
        assert(s.next_gas_ids[n - 1] == s.next_slot());
        assert forall|slot: usize| slot != s.next_slot() implies r.is_free(slot) == s.is_free(slot) by {
            if s.is_free(slot) {
                let i = choose|i: int| 0 <= i < n && s.next_gas_ids[i] == slot;
                assert(r.next_gas_ids[i] == slot);
            }
            if r.is_free(slot) {
                let i = choose|i: int| 0 <= i < n - 1 && r.next_gas_ids[i] == slot;
                assert(s.next_gas_ids[i] == slot);
            }
        }
    } else {
        assert forall|slot: usize| slot != s.next_slot() implies r.is_live(slot) == s.is_live(slot) by {}
    }
}

/// Two registrations in a row bind two different slots.
pub proof fn lemma_successive_slots_differ(s: PoolView, owner: u32, volume: u32)
    requires
        s.wf(),
    ensures
        s.register(owner, volume).next_slot() != s.next_slot(),
{
    let r = s.register(owner, volume);
    let n = s.next_gas_ids.len() as int;
    if n > 0 {
        assert(s.next_gas_ids[n - 1] < s.mixtures.len());
        if n > 1 {
            assert(r.next_gas_ids[n - 2] == s.next_gas_ids[n - 2]);
            assert(s.next_gas_ids[n - 2] != s.next_gas_ids[n - 1]);
        }
    }
}

/// A release makes the released slot unused and changes no other slot and
/// no record.
pub proof fn lemma_release_frees_one_slot(s: PoolView, owner: u32, pointer: u32)
    requires
        s.wf(),
        s.registered.contains(owner),
        s.may_release(owner, Some(pointer)),
    ensures
        s.is_live(pointer as usize),
        !s.unregister(owner, Some(pointer)).is_live(pointer as usize),
        forall|slot: usize|
            slot != pointer ==> s.unregister(owner, Some(pointer)).is_live(slot) == s.is_live(slot),
        s.unregister(owner, Some(pointer)).mixtures == s.mixtures,
        s.unregister(owner, Some(pointer)).live_count() == s.live_count() - 1,
{
    let u = s.unregister(owner, Some(pointer));
    let n = s.next_gas_ids.len() as int;
    assert(u.next_gas_ids[n] == pointer as usize);
    assert forall|slot: usize| slot != pointer implies u.is_free(slot) == s.is_free(slot) by {
        if s.is_free(slot) {
            let i = choose|i: int| 0 <= i < n && s.next_gas_ids[i] == slot;
            assert(u.next_gas_ids[i] == slot);
        }
        if u.is_free(slot) {
            let i = choose|i: int| 0 <= i < n + 1 && u.next_gas_ids[i] == slot;
            assert(s.next_gas_ids[i] == slot);
        }
    }
}

/// A release by an owner that holds no binding changes nothing.
pub proof fn lemma_release_unbound(s: PoolView, owner: u32, pointer: Option<u32>)
    requires
        !s.registered.contains(owner),
    ensures
        s.unregister(owner, pointer) == s,
        s.may_release(owner, pointer),
{
}

} // verus!
