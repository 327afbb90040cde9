//! The record that one slot of the pool holds.

use vstd::prelude::*;

verus! {

/// What a gas mixture is to the pool: its volume and the amount of each gas.
pub struct GasMixtureView {
    pub volume: u32,
    pub moles: Seq<u32>,
}

impl GasMixtureView {
    /// The mixture that holds no gas in the given volume.
    pub open spec fn from_vol(volume: u32) -> GasMixtureView {
        GasMixtureView { volume, moles: Seq::empty() }
    }
}

/// A gas mixture. Volume and amounts are single-precision numbers, carried
/// here as their bit patterns: the pool stores them and never computes on them.
#[derive(Debug, PartialEq, Eq)]
pub struct GasMixture {
    pub volume: u32,
    pub moles: Vec<u32>,
}

impl View for GasMixture {
    type V = GasMixtureView;

    open spec fn view(&self) -> GasMixtureView {
        GasMixtureView { volume: self.volume, moles: self.moles@ }
    }
}

impl GasMixture {
    /// A fresh, empty mixture of the given volume.
    pub fn from_vol(volume: u32) -> (res: GasMixture)
        ensures
            res@ == GasMixtureView::from_vol(volume),
    {
        GasMixture { volume, moles: Vec::new() }
    }

    /// Drops whatever the mixture held and makes it an empty mixture of the
    /// given volume, as `from_vol` would have built it.
    pub fn clear_with_vol(&mut self, volume: u32)
        ensures
            final(self)@ == GasMixtureView::from_vol(volume),
    {
        self.moles.clear();
        self.volume = volume;
    }
}

impl Clone for GasMixture {
    fn clone(&self) -> (res: GasMixture)
        ensures
            res@ == self@,
    {
        let moles = self.moles.clone();
        GasMixture { volume: self.volume, moles }
    }
}

/// The views of a run of mixtures, slot by slot.
pub open spec fn views_of(mixtures: Seq<GasMixture>) -> Seq<GasMixtureView> {
    Seq::new(mixtures.len(), |i: int| mixtures[i]@)
}

} // verus!
