//! A single grid slot: its material, its brightness and its age.

use crate::chance::{is_tint, random_tint, TINT_HIGH, TINT_LOW, TINT_PLAIN};
use crate::material::MaterialKind;
use vstd::prelude::*;

verus! {

/// One slot of the grid.
///
/// `tint` is the brightness, in thousandths, by which the material's base
/// colour is multiplied when the cell is drawn. It is chosen when the cell is
/// made and travels with it.
#[derive(Clone, Copy, Debug, PartialEq, Eq, Structural)]
pub struct Cell {
    pub kind: MaterialKind,
    pub tint: u16,
    pub age: u64,
    pub max_age: u64,
}

impl Cell {
    /// The cell a material starts as: age 0, the material's lifetime, and the
    /// given tint. An empty cell is always plain.
    pub open spec fn fresh(kind: MaterialKind, tint: u16) -> Cell {
        Cell {
            kind,
            tint: if kind == MaterialKind::Empty {
                TINT_PLAIN
            } else {
                tint
            },
            age: 0,
            max_age: kind.lifetime(),
        }
    }

    /// The empty cell.
    pub open spec fn blank() -> Cell {
        Cell::fresh(MaterialKind::Empty, TINT_PLAIN)
    }

    /// A cell is well formed when it carries its material's lifetime, has not
    /// outlived it, and has a tint in range.
    pub open spec fn wf(self) -> bool {
        &&& self.max_age == self.kind.lifetime()
        &&& self.age < self.max_age || (self.age == 0 && self.max_age == 0)
        &&& is_tint(self.tint)
        &&& self.kind == MaterialKind::Empty ==> self.tint == TINT_PLAIN
    }

    /// Whether the cell is a just-made cell of `kind`, whatever its tint.
    pub open spec fn is_fresh(self, kind: MaterialKind) -> bool {
        exists|tint: u16| is_tint(tint) && self == Cell::fresh(kind, tint)
    }

    /// Whether the cell holds any material.
    pub open spec fn occupied(self) -> bool {
        self.kind != MaterialKind::Empty
    }

    /// What the cell adds to the count of occupied cells.
    pub open spec fn weight(self) -> int {
        if self.occupied() {
            1
        } else {
            0
        }
    }

    /// Whether one more tick of ageing ends the cell's life.
    pub open spec fn expiring(self) -> bool {
        self.age + 1 >= self.max_age
    }

    /// The cell one tick older, or the empty cell if that ends its life.
    pub open spec fn older(self) -> Cell {
        if self.expiring() {
            Cell::blank()
        } else {
            Cell { age: (self.age + 1) as u64, ..self }
        }
    }

    /// Makes a cell of `kind` with the given tint, or `None` if the tint is
    /// out of range.
    pub fn with_tint(kind: MaterialKind, tint: u16) -> (made: Option<Cell>)
        ensures
            made.is_some() == is_tint(tint),
            is_tint(tint) ==> made == Some(Cell::fresh(kind, tint)),
    {
        if TINT_LOW <= tint && tint < TINT_HIGH {
            Some(Cell::tinted(kind, tint))
        } else {
            None
        }
    }

    /// Makes a cell of `kind` with a tint known to be in range.
    pub(crate) fn tinted(kind: MaterialKind, tint: u16) -> (cell: Cell)
        requires
            is_tint(tint),
        ensures
            cell == Cell::fresh(kind, tint),
            cell.wf(),
    {
        let tint = match kind {
            MaterialKind::Empty => TINT_PLAIN,
            _ => tint,
        };
        Cell { kind, tint, age: 0, max_age: kind.max_age() }
    }

    /// Makes a freshly coloured cell of `kind`.
    pub fn make(kind: MaterialKind) -> (cell: Cell)
        ensures
            cell.is_fresh(kind),
            cell.wf(),
    {
        match kind {
            MaterialKind::Empty => Cell::tinted(kind, TINT_PLAIN),
            _ => Cell::tinted(kind, random_tint()),
        }
    }

    pub fn new_empty() -> (cell: Cell)
        ensures
            cell == Cell::blank(),
    {
        Cell::tinted(MaterialKind::Empty, TINT_PLAIN)
    }

    pub fn new_sand() -> (cell: Cell)
        ensures
            cell.is_fresh(MaterialKind::Sand),
    {
        Cell::make(MaterialKind::Sand)
    }

    pub fn new_clay() -> (cell: Cell)
        ensures
            cell.is_fresh(MaterialKind::Clay),
    {
        Cell::make(MaterialKind::Clay)
    }

    pub fn new_water() -> (cell: Cell)
        ensures
            cell.is_fresh(MaterialKind::Water),
    {
        Cell::make(MaterialKind::Water)
    }

    pub fn new_wet_sand() -> (cell: Cell)
        ensures
            cell.is_fresh(MaterialKind::WetSand),
    {
        Cell::make(MaterialKind::WetSand)
    }

    pub fn new_fire() -> (cell: Cell)
        ensures
            cell.is_fresh(MaterialKind::Fire),
    {
        Cell::make(MaterialKind::Fire)
    }

    pub fn new_glass() -> (cell: Cell)
        ensures
            cell.is_fresh(MaterialKind::Glass),
    {
        Cell::make(MaterialKind::Glass)
    }

    pub fn new_smoke() -> (cell: Cell)
        ensures
            cell.is_fresh(MaterialKind::Smoke),
    {
        Cell::make(MaterialKind::Smoke)
    }

    pub fn new_steam() -> (cell: Cell)
        ensures
            cell.is_fresh(MaterialKind::Steam),
    {
        Cell::make(MaterialKind::Steam)
    }

    /// Ages the cell by one tick; a cell that reaches the end of its life
    /// becomes empty.
    pub fn aged(self) -> (cell: Cell)
        requires
            self.wf(),
        ensures
            cell == self.older(),
            cell.wf(),
    {
        if self.age + 1 >= self.max_age {
            Cell::new_empty()
        } else {
            Cell { kind: self.kind, tint: self.tint, age: self.age + 1, max_age: self.max_age }
        }
    }
}

} // verus!
