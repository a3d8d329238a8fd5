//! The mathematical model of the grid and of every rule that acts on it.
//!
//! A [`Board`] is what a grid *is*: its size, the cell at each spot and the set
//! of spots already moved into during the current tick. Each rule is a
//! function from a board, a spot and a [`Draw`] to the next board.

use crate::cell::Cell;
use crate::chance::Draw;
use crate::material::MaterialKind;
use vstd::prelude::*;

verus! {

/// A grid coordinate `(x, y)`; `y` grows downwards.
pub type Spot = (int, int);

/// The spot one row below `p`.
pub open spec fn below(p: Spot) -> Spot {
    (p.0, p.1 + 1)
}

/// The spot at `offset` from `p`.
pub open spec fn toward(p: Spot, offset: (i64, i64)) -> Spot {
    (p.0 + offset.0, p.1 + offset.1)
}

/// Whether `q` lies in the 3×3 block centred on `p`.
pub open spec fn near(p: Spot, q: Spot) -> bool {
    p.0 - 1 <= q.0 <= p.0 + 1 && p.1 - 1 <= q.1 <= p.1 + 1
}

/// Position of `q` within the 3×3 block centred on `p`, counted row by row
/// from the top-left corner.
pub open spec fn slot_of(p: Spot, q: Spot) -> int {
    (q.1 - p.1 + 1) * 3 + (q.0 - p.0 + 1)
}

/// The spot at position `slot` of the 3×3 block centred on `p`.
pub open spec fn slot_spot(p: Spot, slot: int) -> Spot {
    (p.0 + slot % 3 - 1, p.1 + slot / 3 - 1)
}

/// Whether `a` comes before `b` in row-major order, top row first.
pub open spec fn precedes(a: Spot, b: Spot) -> bool {
    a.1 < b.1 || (a.1 == b.1 && a.0 < b.0)
}

/// The spots named by a list of 32-bit coordinates.
pub open spec fn spots(positions: Seq<(i32, i32)>) -> Seq<Spot> {
    Seq::new(positions.len(), |i: int| (positions[i].0 as int, positions[i].1 as int))
}

/// The spots named by a list of coordinates.
pub open spec fn wide_spots(positions: Seq<(i64, i64)>) -> Seq<Spot> {
    Seq::new(positions.len(), |i: int| (positions[i].0 as int, positions[i].1 as int))
}

/// The state of a grid.
#[verifier::ext_equal]
pub struct Board {
    pub width: int,
    pub height: int,
    /// The cell at each spot of the grid.
    pub cells: Map<Spot, Cell>,
    /// The spots written into as a destination since the tick began.
    pub moved: Set<Spot>,
}

impl Board {
    pub open spec fn in_bounds(self, p: Spot) -> bool {
        0 <= p.0 < self.width && 0 <= p.1 < self.height
    }

    /// A board is well formed when it has a cell, itself well formed, at
    /// exactly the spots within its bounds, and only such spots are marked.
    pub open spec fn wf(self) -> bool {
        &&& self.width > 0
        &&& self.height > 0
        &&& forall|p: Spot| #[trigger] self.cells.dom().contains(p) <==> self.in_bounds(p)
        &&& forall|p: Spot| self.in_bounds(p) ==> (#[trigger] self.cells[p]).wf()
        &&& forall|p: Spot| #[trigger] self.moved.contains(p) ==> self.in_bounds(p)
    }

    /// The board of the given size with every cell empty and nothing moved.
    pub open spec fn blank(width: int, height: int) -> Board {
        Board {
            width,
            height,
            cells: Map::new(
                |p: Spot| 0 <= p.0 < width && 0 <= p.1 < height,
                |p: Spot| Cell::blank(),
            ),
            moved: Set::empty(),
        }
    }

    /// Whether the brush of the given centre and radius covers `q`: the
    /// filled disc `(x - cx)² + (y - cy)² <= r²`, clipped to the grid and to
    /// the 32-bit coordinates a brush is addressed by. A negative radius
    /// covers nothing.
    pub open spec fn in_brush(self, centre: Spot, radius: int, q: Spot) -> bool {
        &&& radius >= 0
        &&& self.in_bounds(q)
        &&& q.0 <= i32::MAX
        &&& q.1 <= i32::MAX
        &&& (q.0 - centre.0) * (q.0 - centre.0) + (q.1 - centre.1) * (q.1 - centre.1) <= radius
            * radius
    }

    /// Whether placing `kind` may overwrite the cell at `q`: erasing always
    /// does, material only fills empty cells.
    pub open spec fn accepts(self, kind: MaterialKind, q: Spot) -> bool {
        kind == MaterialKind::Empty || !self.cells[q].occupied()
    }

    /// Whether `after` is this board with `kind` placed by the given brush:
    /// every covered cell that accepts the material is a fresh cell of that
    /// kind, and nothing else differs.
    pub open spec fn painted(
        self,
        after: Board,
        centre: Spot,
        radius: int,
        kind: MaterialKind,
    ) -> bool {
        &&& after.width == self.width
        &&& after.height == self.height
        &&& after.moved == self.moved
        &&& after.cells.dom() == self.cells.dom()
        &&& forall|q: Spot|
            self.in_bounds(q) ==> if self.in_brush(centre, radius, q) && self.accepts(kind, q) {
                (#[trigger] after.cells[q]).is_fresh(kind)
            } else {
                after.cells[q] == self.cells[q]
            }
    }

    /// Whether `p` is within bounds and holds no material.
    pub open spec fn open_at(self, p: Spot) -> bool {
        self.in_bounds(p) && !self.cells[p].occupied()
    }

    /// The board with `cell` at `p`.
    pub open spec fn put(self, p: Spot, cell: Cell) -> Board {
        Board { cells: self.cells.insert(p, cell), ..self }
    }

    /// The movement primitive: the cell at `from` goes to `to`, `from`
    /// becomes empty and `to` is marked moved.
    pub open spec fn relocate(self, from: Spot, to: Spot) -> Board {
        Board {
            cells: self.cells.insert(to, self.cells[from]).insert(from, Cell::blank()),
            moved: self.moved.insert(to),
            ..self
        }
    }

    /// The swap primitive: the cells at `a` and `b` change places and `b` is
    /// marked moved.
    pub open spec fn exchange(self, a: Spot, b: Spot) -> Board {
        Board {
            cells: self.cells.insert(b, self.cells[a]).insert(a, self.cells[b]),
            moved: self.moved.insert(b),
            ..self
        }
    }

    /// Moves from `from` into `to` if `to` is open; otherwise nothing happens.
    pub open spec fn attempt(self, from: Spot, to: Spot) -> Board {
        if self.open_at(to) {
            self.relocate(from, to)
        } else {
            self
        }
    }

    /// Moves from `from` into `to` if `to` is open; otherwise the outcome is
    /// `otherwise`.
    pub open spec fn or_move(self, from: Spot, to: Spot, otherwise: Board) -> Board {
        if self.open_at(to) {
            self.relocate(from, to)
        } else {
            otherwise
        }
    }

    /// The board with the moved marks cleared.
    pub open spec fn rested(self) -> Board {
        Board { moved: Set::empty(), ..self }
    }

    /// The board with the cell at `p` one tick older.
    pub open spec fn grown_old(self, p: Spot) -> Board {
        self.put(p, self.cells[p].older())
    }

    /// The board with every cell of kind `from` in the 3×3 block around `p`
    /// replaced by a fresh cell of kind `to`, tinted by its slot.
    pub open spec fn transmuted(
        self,
        p: Spot,
        from: MaterialKind,
        to: MaterialKind,
        tints: Seq<u16>,
    ) -> Board {
        Board {
            cells: Map::new(
                |q: Spot| self.in_bounds(q),
                |q: Spot|
                    if near(p, q) && self.cells[q].kind == from {
                        Cell::fresh(to, tints[slot_of(p, q)])
                    } else {
                        self.cells[q]
                    },
            ),
            ..self
        }
    }

    /// The in-bounds spots among the first `slots` slots of the 3×3 block
    /// around `p`, in slot order.
    pub open spec fn neighbours(self, p: Spot, slots: nat) -> Seq<Spot>
        decreases slots,
    {
        if slots == 0 {
            Seq::empty()
        } else {
            let rest = self.neighbours(p, (slots - 1) as nat);
            let q = slot_spot(p, slots - 1);
            if self.in_bounds(q) {
                rest.push(q)
            } else {
                rest
            }
        }
    }

    /// Every listed neighbour is inside the board and within the block.
    pub proof fn lemma_neighbours_inside(self, p: Spot, slots: nat)
        requires
            slots <= 9,
        ensures
            forall|i: int|
                0 <= i < self.neighbours(p, slots).len() ==> {
                    let q = #[trigger] self.neighbours(p, slots)[i];
                    self.in_bounds(q) && near(p, q) && slot_of(p, q) < slots
                },
        decreases slots,
    {
        if slots > 0 {
            self.lemma_neighbours_inside(p, (slots - 1) as nat);
            let rest = self.neighbours(p, (slots - 1) as nat);
            let last = slot_spot(p, slots - 1);
            assert(slot_of(p, last) == slots - 1);
            assert forall|i: int| 0 <= i < self.neighbours(p, slots).len() implies {
                let q = #[trigger] self.neighbours(p, slots)[i];
                self.in_bounds(q) && near(p, q) && slot_of(p, q) < slots
            } by {
                if i < rest.len() {
                    assert(self.neighbours(p, slots)[i] == rest[i]);
                }
            }
        }
    }

    /// Every in-bounds spot of the block is listed once its slot is reached.
    pub proof fn lemma_neighbours_hold(self, p: Spot, q: Spot, slots: nat)
        requires
            self.in_bounds(q),
            near(p, q),
            slot_of(p, q) < slots,
        ensures
            self.neighbours(p, slots).contains(q),
        decreases slots,
    {
        let rest = self.neighbours(p, (slots - 1) as nat);
        let last = slot_spot(p, slots - 1);
        if slot_of(p, q) == slots - 1 {
            assert(last == q);
            assert(self.neighbours(p, slots)[rest.len() as int] == q);
        } else {
            self.lemma_neighbours_hold(p, q, (slots - 1) as nat);
            let i = choose|i: int| 0 <= i < rest.len() && rest[i] == q;
            assert(self.neighbours(p, slots)[i] == q);
        }
    }

    /// The in-bounds spots of the 3×3 block around `p`, row by row.
    pub open spec fn neighbourhood(self, p: Spot) -> Seq<Spot> {
        self.neighbours(p, 9)
    }

    /// Whether the draw makes a fire at `p` spawn smoke.
    pub open spec fn spawns(self, p: Spot, draw: Draw) -> bool {
        draw.roll > 98 && draw.pick < self.neighbourhood(p).len()
    }

    /// Where the smoke spawned by a fire at `p` goes.
    pub open spec fn spawn_spot(self, p: Spot, draw: Draw) -> Spot {
        self.neighbourhood(p)[draw.pick as int]
    }

    /// The board after a fire at `p` has had its chance to spawn smoke: on a
    /// roll above 98, fresh smoke replaces the picked neighbour.
    pub open spec fn smoked(self, p: Spot, draw: Draw) -> Board {
        if self.spawns(p, draw) {
            self.put(
                self.spawn_spot(p, draw),
                Cell::fresh(MaterialKind::Smoke, draw.smoke_tint),
            )
        } else {
            self
        }
    }

    /// Settling: the cell at `p` moves into the first open target among
    /// straight down and the two diagonals in drawn order.
    pub open spec fn settle(self, p: Spot, draw: Draw) -> Board {
        self.or_move(
            p,
            below(p),
            self.or_move(
                p,
                toward(p, draw.fall@[0]),
                self.or_move(p, toward(p, draw.fall@[1]), self),
            ),
        )
    }

    /// Flowing: like settling, with the two horizontal targets in drawn order
    /// as a last resort.
    pub open spec fn flow(self, p: Spot, draw: Draw) -> Board {
        self.or_move(
            p,
            below(p),
            self.or_move(
                p,
                toward(p, draw.fall@[0]),
                self.or_move(
                    p,
                    toward(p, draw.fall@[1]),
                    self.or_move(
                        p,
                        toward(p, draw.side@[0]),
                        self.or_move(p, toward(p, draw.side@[1]), self),
                    ),
                ),
            ),
        )
    }

    /// Drifting: a move from `p` is attempted into each upward target and then
    /// each horizontal target in drawn order, every attempt on its own.
    pub open spec fn drift(self, p: Spot, draw: Draw) -> Board {
        self.attempt(p, toward(p, draw.rise@[0])).attempt(p, toward(p, draw.rise@[1])).attempt(
            p,
            toward(p, draw.rise@[2]),
        ).attempt(p, toward(p, draw.side@[0])).attempt(p, toward(p, draw.side@[1]))
    }

    /// Lifting: the cell at `p` moves into the first open target among the
    /// upward targets and then the horizontal targets in drawn order.
    pub open spec fn lift(self, p: Spot, draw: Draw) -> Board {
        self.or_move(
            p,
            toward(p, draw.rise@[0]),
            self.or_move(
                p,
                toward(p, draw.rise@[1]),
                self.or_move(
                    p,
                    toward(p, draw.rise@[2]),
                    self.or_move(
                        p,
                        toward(p, draw.side@[0]),
                        self.or_move(p, toward(p, draw.side@[1]), self),
                    ),
                ),
            ),
        )
    }

    /// `t` if it is open, else `otherwise`.
    pub open spec fn first_open(self, t: Spot, otherwise: Option<Spot>) -> Option<Spot> {
        if self.open_at(t) {
            Some(t)
        } else {
            otherwise
        }
    }

    /// The first open target for settling from `p`, if any.
    pub open spec fn settle_target(self, p: Spot, draw: Draw) -> Option<Spot> {
        self.first_open(
            below(p),
            self.first_open(
                toward(p, draw.fall@[0]),
                self.first_open(toward(p, draw.fall@[1]), None),
            ),
        )
    }

    /// The first open target for flowing from `p`, if any.
    pub open spec fn flow_target(self, p: Spot, draw: Draw) -> Option<Spot> {
        self.first_open(
            below(p),
            self.first_open(
                toward(p, draw.fall@[0]),
                self.first_open(
                    toward(p, draw.fall@[1]),
                    self.first_open(
                        toward(p, draw.side@[0]),
                        self.first_open(toward(p, draw.side@[1]), None),
                    ),
                ),
            ),
        )
    }

    /// The first open target for rising from `p`, if any.
    pub open spec fn rise_target(self, p: Spot, draw: Draw) -> Option<Spot> {
        self.first_open(
            toward(p, draw.rise@[0]),
            self.first_open(
                toward(p, draw.rise@[1]),
                self.first_open(
                    toward(p, draw.rise@[2]),
                    self.first_open(
                        toward(p, draw.side@[0]),
                        self.first_open(toward(p, draw.side@[1]), None),
                    ),
                ),
            ),
        )
    }

    /// The sand rule.
    pub open spec fn sand_step(self, p: Spot, draw: Draw) -> Board {
        self.settle(p, draw)
    }

    /// The water rule: nearby sand becomes wet sand, then the water flows.
    pub open spec fn water_step(self, p: Spot, draw: Draw) -> Board {
        self.transmuted(p, MaterialKind::Sand, MaterialKind::WetSand, draw.tints@).flow(p, draw)
    }

    /// The wet sand rule: fall straight down, or sink through water.
    pub open spec fn wet_sand_step(self, p: Spot) -> Board {
        if self.open_at(below(p)) {
            self.relocate(p, below(p))
        } else if self.in_bounds(below(p)) && self.cells[below(p)].kind == MaterialKind::Water {
            self.exchange(p, below(p))
        } else {
            self
        }
    }

    /// The board after a fire at `p` has aged and acted on its surroundings:
    /// nearby sand is glass, smoke may have been spawned, nearby water is
    /// steam.
    pub open spec fn burnt(self, p: Spot, draw: Draw) -> Board {
        self.grown_old(p).transmuted(
            p,
            MaterialKind::Sand,
            MaterialKind::Glass,
            draw.tints@,
        ).smoked(p, draw).transmuted(p, MaterialKind::Water, MaterialKind::Steam, draw.tints@)
    }

    /// The fire rule: age, act on the surroundings, then drift unless the
    /// fire just expired.
    pub open spec fn fire_step(self, p: Spot, draw: Draw) -> Board {
        if self.cells[p].expiring() {
            self.burnt(p, draw)
        } else {
            self.burnt(p, draw).drift(p, draw)
        }
    }

    /// The smoke rule: age, then drift unless the smoke just expired.
    pub open spec fn smoke_step(self, p: Spot, draw: Draw) -> Board {
        if self.cells[p].expiring() {
            self.grown_old(p)
        } else {
            self.grown_old(p).drift(p, draw)
        }
    }

    /// The steam rule: age, then lift unless the steam just expired.
    pub open spec fn steam_step(self, p: Spot, draw: Draw) -> Board {
        if self.cells[p].expiring() {
            self.grown_old(p)
        } else {
            self.grown_old(p).lift(p, draw)
        }
    }

    /// Dispatch: a spot already moved into this tick is left alone; otherwise
    /// the rule of the material at `p` applies.
    pub open spec fn step(self, p: Spot, draw: Draw) -> Board {
        if self.moved.contains(p) {
            self
        } else {
            match self.cells[p].kind {
                MaterialKind::Sand => self.sand_step(p, draw),
                MaterialKind::Water => self.water_step(p, draw),
                MaterialKind::WetSand => self.wet_sand_step(p),
                MaterialKind::Fire => self.fire_step(p, draw),
                MaterialKind::Smoke => self.smoke_step(p, draw),
                MaterialKind::Steam => self.steam_step(p, draw),
                _ => self,
            }
        }
    }

    /// The board part-way through a tick: the marks were cleared and every
    /// spot before `(x, y)` in row-major order, top row first, was dispatched
    /// with its draw.
    pub open spec fn scan(self, draws: Map<Spot, Draw>, y: nat, x: nat) -> Board
        decreases y, x,
    {
        if x > 0 {
            let p = (x - 1, y as int);
            self.scan(draws, y, (x - 1) as nat).step(p, draws[p])
        } else if y > 0 {
            self.scan(draws, (y - 1) as nat, self.width as nat)
        } else {
            self.rested()
        }
    }

    /// No rule changes the size of the board.
    pub proof fn lemma_step_keeps_size(self, p: Spot, draw: Draw)
        ensures
            self.step(p, draw).width == self.width,
            self.step(p, draw).height == self.height,
    {
    }

    /// The board part-way through a tick depends only on the draws of the
    /// spots already dispatched.
    pub proof fn lemma_scan_reads_past(
        self,
        draws: Map<Spot, Draw>,
        others: Map<Spot, Draw>,
        y: nat,
        x: nat,
    )
        requires
            self.width > 0,
            x <= self.width,
            forall|p: Spot|
                0 <= p.0 < self.width && 0 <= p.1 && precedes(p, (x as int, y as int))
                    ==> #[trigger] draws[p] == others[p],
        ensures
            self.scan(draws, y, x) == self.scan(others, y, x),
        decreases y, x,
    {
        if x > 0 {
            self.lemma_scan_reads_past(draws, others, y, (x - 1) as nat);
        } else if y > 0 {
            self.lemma_scan_reads_past(draws, others, (y - 1) as nat, self.width as nat);
        }
    }

    /// One tick under the given draws.
    pub open spec fn tick(self, draws: Map<Spot, Draw>) -> Board {
        self.scan(draws, self.height as nat, 0)
    }

    /// The draws that give every spot the same draw.
    pub open spec fn same_draw(draw: Draw) -> Map<Spot, Draw> {
        Map::new(|p: Spot| true, |p: Spot| draw)
    }

    /// Whether the draw that `draws` gives each spot is well formed.
    pub open spec fn fair(draws: Map<Spot, Draw>) -> bool {
        forall|p: Spot| (#[trigger] draws[p]).wf()
    }

    /// Where the material dispatched at `p` lands as the destination of a
    /// move or a swap, if it goes anywhere.
    pub open spec fn landing(self, p: Spot, draw: Draw) -> Option<Spot> {
        if self.moved.contains(p) {
            None
        } else {
            match self.cells[p].kind {
                MaterialKind::Sand => self.settle_target(p, draw),
                MaterialKind::Water => self.transmuted(
                    p,
                    MaterialKind::Sand,
                    MaterialKind::WetSand,
                    draw.tints@,
                ).flow_target(p, draw),
                MaterialKind::WetSand => if self.open_at(below(p)) || self.sinks(p) {
                    Some(below(p))
                } else {
                    None
                },
                MaterialKind::Fire => if self.cells[p].expiring() {
                    None
                } else {
                    self.burnt(p, draw).rise_target(p, draw)
                },
                MaterialKind::Smoke | MaterialKind::Steam => if self.cells[p].expiring() {
                    None
                } else {
                    self.grown_old(p).rise_target(p, draw)
                },
                _ => None,
            }
        }
    }

    /// Whether the cell at `p` has water directly below it to sink through.
    pub open spec fn sinks(self, p: Spot) -> bool {
        self.in_bounds(below(p)) && self.cells[below(p)].kind == MaterialKind::Water
    }

    /// Whether dispatching `p` makes wet sand sink into water that was itself
    /// moved into during this tick.
    pub open spec fn sinks_into_moved(self, p: Spot) -> bool {
        &&& !self.moved.contains(p)
        &&& self.cells[p].kind == MaterialKind::WetSand
        &&& self.sinks(p)
        &&& self.moved.contains(below(p))
    }

    /// The destinations material landed on in the part of a tick that `scan`
    /// covers, in the order they were written.
    pub open spec fn landings(self, draws: Map<Spot, Draw>, y: nat, x: nat) -> Seq<Spot>
        decreases y, x,
    {
        if x > 0 {
            let p = (x - 1, y as int);
            let sofar = self.landings(draws, y, (x - 1) as nat);
            match self.scan(draws, y, (x - 1) as nat).landing(p, draws[p]) {
                Some(t) => sofar.push(t),
                None => sofar,
            }
        } else if y > 0 {
            self.landings(draws, (y - 1) as nat, self.width as nat)
        } else {
            Seq::empty()
        }
    }

    /// Whether, in the part of a tick that `scan` covers, wet sand sank into
    /// water that had been moved into during the same tick.
    pub open spec fn resinks(self, draws: Map<Spot, Draw>, y: nat, x: nat) -> bool
        decreases y, x,
    {
        if x > 0 {
            let p = (x - 1, y as int);
            self.resinks(draws, y, (x - 1) as nat) || self.scan(
                draws,
                y,
                (x - 1) as nat,
            ).sinks_into_moved(p)
        } else if y > 0 {
            self.resinks(draws, (y - 1) as nat, self.width as nat)
        } else {
            false
        }
    }

    /// Whether dispatching `p` ends the life of the cell there.
    pub open spec fn fades(self, p: Spot) -> bool {
        &&& !self.moved.contains(p)
        &&& self.cells[p].expiring()
        &&& self.cells[p].kind == MaterialKind::Fire || self.cells[p].kind == MaterialKind::Smoke
            || self.cells[p].kind == MaterialKind::Steam
    }

    /// Whether dispatching `p` makes a fire spawn smoke into an empty cell.
    pub open spec fn kindles(self, p: Spot, draw: Draw) -> bool {
        &&& !self.moved.contains(p)
        &&& self.cells[p].kind == MaterialKind::Fire
        &&& self.spawns(p, draw)
        &&& !self.grown_old(p).cells[self.spawn_spot(p, draw)].occupied()
    }

    /// The number of cells whose life ended in the part of a tick that
    /// `scan` covers.
    pub open spec fn faded(self, draws: Map<Spot, Draw>, y: nat, x: nat) -> nat
        decreases y, x,
    {
        if x > 0 {
            let p = (x - 1, y as int);
            self.faded(draws, y, (x - 1) as nat) + if self.scan(draws, y, (x - 1) as nat).fades(
                p,
            ) {
                1nat
            } else {
                0nat
            }
        } else if y > 0 {
            self.faded(draws, (y - 1) as nat, self.width as nat)
        } else {
            0
        }
    }

    /// The number of times smoke was spawned into an empty cell in the part
    /// of a tick that `scan` covers.
    pub open spec fn kindled(self, draws: Map<Spot, Draw>, y: nat, x: nat) -> nat
        decreases y, x,
    {
        if x > 0 {
            let p = (x - 1, y as int);
            self.kindled(draws, y, (x - 1) as nat) + if self.scan(
                draws,
                y,
                (x - 1) as nat,
            ).kindles(p, draws[p]) {
                1nat
            } else {
                0nat
            }
        } else if y > 0 {
            self.kindled(draws, (y - 1) as nat, self.width as nat)
        } else {
            0
        }
    }

    /// The number of occupied cells among the first `x` cells of row `y` and
    /// all rows above it.
    pub open spec fn mass_upto(self, y: nat, x: nat) -> nat
        decreases y, x,
    {
        if x > 0 {
            self.mass_upto(y, (x - 1) as nat) + self.cells[(x - 1, y as int)].weight() as nat
        } else if y > 0 {
            self.mass_upto((y - 1) as nat, self.width as nat)
        } else {
            0
        }
    }

    /// The number of occupied cells on the board.
    pub open spec fn mass(self) -> nat {
        self.mass_upto(self.height as nat, 0)
    }
}

} // verus!
