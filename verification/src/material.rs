//! The closed set of materials a cell can hold.

use vstd::prelude::*;

verus! {

/// What a cell is made of.
#[derive(Clone, Copy, Debug, PartialEq, Eq, Structural)]
pub enum MaterialKind {
    Empty,
    Sand,
    Clay,
    Water,
    WetSand,
    Fire,
    Glass,
    Smoke,
    Steam,
}

impl MaterialKind {
    /// Number of ticks a freshly made cell of this kind lasts; 0 means it
    /// never expires.
    pub open spec fn lifetime(self) -> u64 {
        match self {
            MaterialKind::Fire => 30,
            MaterialKind::Glass => 30,
            MaterialKind::Smoke => 400,
            MaterialKind::Steam => 200,
            _ => 0,
        }
    }

    /// Whether the tick dispatches a rule for this kind. Empty cells and the
    /// inert solids (clay, glass) only ever act as obstacles.
    pub open spec fn is_active(self) -> bool {
        !(self == MaterialKind::Empty || self == MaterialKind::Clay || self == MaterialKind::Glass)
    }

    /// Default maximum age of a cell of this kind.
    pub fn max_age(self) -> (ticks: u64)
        ensures
            ticks == self.lifetime(),
    {
        match self {
            MaterialKind::Fire => 30,
            MaterialKind::Glass => 30,
            MaterialKind::Smoke => 400,
            MaterialKind::Steam => 200,
            _ => 0,
        }
    }
}

} // verus!
