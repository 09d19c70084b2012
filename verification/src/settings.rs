//! The one value that the host configures.
use vstd::prelude::*;
use crate::geometry::{HalfSize, Vec2};

verus! {

/// The width and height of every object that carries no size of its own.
#[derive(Clone, Copy, Debug, PartialEq, Eq, Structural)]
pub struct BevyCardsSettings {
    pub card_size: Vec2,
}

impl BevyCardsSettings {
    /// Half of the default width and height.
    pub fn half_size(&self) -> (half: HalfSize)
        ensures
            half.twice == self.card_size,
    {
        HalfSize { twice: self.card_size }
    }
}

} // verus!
