//! The per-material rules and the tick that dispatches them.
//!
//! Every rule comes in two forms. The form ending in `_with` takes the random
//! outcomes as a [`Draw`] and computes exactly what the model prescribes. The
//! plain form draws the outcomes and applies the first.

use crate::board::{slot_of, slot_spot, toward, wide_spots, Board, Spot};
use crate::cell::Cell;
use crate::chance::{is_tint, Draw};
use crate::grid::Grid;
use crate::material::MaterialKind;
use vstd::prelude::*;

verus! {

impl Grid {
    /// Moves the cell at `(x, y)` into `(tx, ty)` if that spot is inside the
    /// grid and empty, and says whether it did.
    pub fn try_move(&mut self, x: i64, y: i64, tx: i64, ty: i64) -> (went: bool)
        requires
            old(self).wf(),
            old(self)@.in_bounds((x as int, y as int)),
        ensures
            final(self).wf(),
            went == old(self)@.open_at((tx as int, ty as int)),
            final(self)@ == old(self)@.attempt((x as int, y as int), (tx as int, ty as int)),
    {
        if self.is_open(tx, ty) {
            self.move_particle(x, y, tx, ty);
            true
        } else {
            false
        }
    }

    /// Moves the cell at `(x, y)` by `offset` if the spot there is inside the
    /// grid and empty, and says whether it did.
    fn try_step(&mut self, x: i64, y: i64, offset: (i64, i64)) -> (went: bool)
        requires
            old(self).wf(),
            old(self)@.in_bounds((x as int, y as int)),
            -1 <= offset.0 <= 1,
            -1 <= offset.1 <= 1,
        ensures
            final(self).wf(),
            went == old(self)@.open_at(toward((x as int, y as int), offset)),
            final(self)@ == old(self)@.attempt(
                (x as int, y as int),
                toward((x as int, y as int), offset),
            ),
    {
        proof {
            self.lemma_wf_board();
        }
        self.try_move(x, y, x + offset.0, y + offset.1)
    }

    /// The sand rule under the given draw: straight down, else the two
    /// diagonals in drawn order; the first open target wins.
    pub fn update_sand_with(&mut self, x: i64, y: i64, draw: &Draw)
        requires
            old(self).wf(),
            old(self)@.in_bounds((x as int, y as int)),
            draw.wf(),
        ensures
            final(self).wf(),
            final(self)@ == old(self)@.sand_step((x as int, y as int), *draw),
    {
        proof {
            draw.lemma_offsets_unit();
        }
        if self.try_step(x, y, (0, 1)) {
            return ;
        }
        if self.try_step(x, y, draw.fall[0]) {
            return ;
        }
        self.try_step(x, y, draw.fall[1]);
    }

    /// The sand rule with the diagonals in random order.
    pub fn update_sand(&mut self, x: i64, y: i64)
        requires
            old(self).wf(),
            old(self)@.in_bounds((x as int, y as int)),
        ensures
            final(self).wf(),
            exists|draw: Draw|
                draw.wf() && final(self)@ == #[trigger] old(self)@.sand_step(
                    (x as int, y as int),
                    draw,
                ),
    {
        let draw = Draw::random_for(MaterialKind::Sand, 1);
        self.update_sand_with(x, y, &draw);
    }
    /// Replaces every cell of kind `from` in the 3×3 block around `(x, y)` by
    /// a fresh cell of kind `to`, tinted by its slot.
    fn convert_around(
        &mut self,
        x: i64,
        y: i64,
        from: MaterialKind,
        to: MaterialKind,
        tints: &[u16; 9],
    )
        requires
            old(self).wf(),
            old(self)@.in_bounds((x as int, y as int)),
            from != to,
            forall|slot: int| 0 <= slot < 9 ==> is_tint(#[trigger] tints@[slot]),
        ensures
            final(self).wf(),
            final(self)@ == old(self)@.transmuted((x as int, y as int), from, to, tints@),
    {
        let ghost start = self@;
        let ghost p: Spot = (x as int, y as int);
        proof {
            self.lemma_wf_board();
        }
        let mut slot: usize = 0;
        while slot < 9
            invariant
                self.wf(),
                start.wf(),
                start.in_bounds(p),
                p == (x as int, y as int),
                start.width <= i64::MAX,
                start.height <= i64::MAX,
                from != to,
                slot <= 9,
                forall|k: int| 0 <= k < 9 ==> is_tint(#[trigger] tints@[k]),
                self@.width == start.width,
                self@.height == start.height,
                self@.moved == start.moved,
                self@.cells.dom() == start.cells.dom(),
                forall|q: Spot|
                    start.in_bounds(q) ==> #[trigger] self@.cells[q] == if crate::board::near(p, q)
                        && slot_of(p, q) < slot && start.cells[q].kind == from {
                        Cell::fresh(to, tints@[slot_of(p, q)])
                    } else {
                        start.cells[q]
                    },
            decreases 9 - slot,
        {
            let qx = x - 1 + (slot % 3) as i64;
            let qy = y - 1 + (slot / 3) as i64;
            let ghost q: Spot = (qx as int, qy as int);
            assert(q == slot_spot(p, slot as int));
            assert(slot_of(p, q) == slot);
            if self.in_bounds(qx, qy) {
                let found = self.peek(qx, qy);
                if found.kind == from {
                    self.set_cell(qx, qy, Cell::tinted(to, tints[slot]));
                    assert(self@.cells.dom() =~= start.cells.dom());
                }
            }
            slot = slot + 1;
        }
        proof {
            let after = start.transmuted(p, from, to, tints@);
            assert(self@.cells =~= after.cells);
        }
    }

    /// The in-bounds cells of the 3×3 block around `(x, y)`, row by row.
    pub fn get_square_area(&self, x: i64, y: i64) -> (cells: Vec<(i64, i64)>)
        requires
            self.wf(),
            self@.in_bounds((x as int, y as int)),
        ensures
            wide_spots(cells@) == self@.neighbourhood((x as int, y as int)),
    {
        let ghost p: Spot = (x as int, y as int);
        let ghost board = self@;
        proof {
            self.lemma_wf_board();
        }
        let mut cells: Vec<(i64, i64)> = Vec::new();
        let mut slot: usize = 0;
        assert(wide_spots(cells@) =~= board.neighbours(p, 0));
        while slot < 9
            invariant
                self.wf(),
                board == self@,
                board.in_bounds(p),
                p == (x as int, y as int),
                board.width <= i64::MAX,
                board.height <= i64::MAX,
                slot <= 9,
                wide_spots(cells@) == board.neighbours(p, slot as nat),
            decreases 9 - slot,
        {
            let qx = x - 1 + (slot % 3) as i64;
            let qy = y - 1 + (slot / 3) as i64;
            assert((qx as int, qy as int) == slot_spot(p, slot as int));
            let ghost before = cells@;
            if self.in_bounds(qx, qy) {
                cells.push((qx, qy));
                assert(wide_spots(cells@) =~= wide_spots(before).push((qx as int, qy as int)));
            }
            slot = slot + 1;
        }
        cells
    }

    /// Water wets the sand around it.
    fn water_to_wet_sand(&mut self, x: i64, y: i64, tints: &[u16; 9])
        requires
            old(self).wf(),
            old(self)@.in_bounds((x as int, y as int)),
            forall|slot: int| 0 <= slot < 9 ==> is_tint(#[trigger] tints@[slot]),
        ensures
            final(self).wf(),
            final(self)@ == old(self)@.transmuted(
                (x as int, y as int),
                MaterialKind::Sand,
                MaterialKind::WetSand,
                tints@,
            ),
    {
        self.convert_around(x, y, MaterialKind::Sand, MaterialKind::WetSand, tints);
    }

    /// Fire melts the sand around it into glass.
    fn fire_to_glass(&mut self, x: i64, y: i64, tints: &[u16; 9])
        requires
            old(self).wf(),
            old(self)@.in_bounds((x as int, y as int)),
            forall|slot: int| 0 <= slot < 9 ==> is_tint(#[trigger] tints@[slot]),
        ensures
            final(self).wf(),
            final(self)@ == old(self)@.transmuted(
                (x as int, y as int),
                MaterialKind::Sand,
                MaterialKind::Glass,
                tints@,
            ),
    {
        self.convert_around(x, y, MaterialKind::Sand, MaterialKind::Glass, tints);
    }

    /// Fire boils the water around it into steam.
    fn fire_to_steam(&mut self, x: i64, y: i64, tints: &[u16; 9])
        requires
            old(self).wf(),
            old(self)@.in_bounds((x as int, y as int)),
            forall|slot: int| 0 <= slot < 9 ==> is_tint(#[trigger] tints@[slot]),
        ensures
            final(self).wf(),
            final(self)@ == old(self)@.transmuted(
                (x as int, y as int),
                MaterialKind::Water,
                MaterialKind::Steam,
                tints@,
            ),
    {
        self.convert_around(x, y, MaterialKind::Water, MaterialKind::Steam, tints);
    }

    /// On a roll above 98, puts fresh smoke on the picked cell of the
    /// neighbourhood of `(x, y)`.
    fn fire_make_smoke(&mut self, x: i64, y: i64, draw: &Draw)
        requires
            old(self).wf(),
            old(self)@.in_bounds((x as int, y as int)),
            draw.wf(),
        ensures
            final(self).wf(),
            final(self)@ == old(self)@.smoked((x as int, y as int), *draw),
    {
        if draw.roll > 98 {
            let cells = self.get_square_area(x, y);
            if draw.pick < cells.len() {
                let (sx, sy) = cells[draw.pick];
                proof {
                    let p: Spot = (x as int, y as int);
                    let around = self@.neighbourhood(p);
                    assert(wide_spots(cells@)[draw.pick as int] == (sx as int, sy as int));
                    Board::lemma_neighbours_inside(self@, p, 9);
                    assert(self@.in_bounds(around[draw.pick as int]));
                }
                self.set_cell(sx, sy, Cell::tinted(MaterialKind::Smoke, draw.smoke_tint));
            }
        }
    }

    /// Ages the cell at `(x, y)` by one tick and says whether that ended its
    /// life; an expired cell becomes empty.
    pub fn update_life_time(&mut self, x: i64, y: i64) -> (expired: bool)
        requires
            old(self).wf(),
            old(self)@.in_bounds((x as int, y as int)),
        ensures
            final(self).wf(),
            expired == old(self)@.cells[(x as int, y as int)].expiring(),
            final(self)@ == old(self)@.grown_old((x as int, y as int)),
    {
        let cell = self.peek(x, y);
        let expired = cell.age + 1 >= cell.max_age;
        self.set_cell(x, y, cell.aged());
        expired
    }
    /// Falls straight down, else into the diagonals and then sideways in
    /// drawn order; the first open target wins.
    fn flow(&mut self, x: i64, y: i64, draw: &Draw)
        requires
            old(self).wf(),
            old(self)@.in_bounds((x as int, y as int)),
            draw.wf(),
        ensures
            final(self).wf(),
            final(self)@ == old(self)@.flow((x as int, y as int), *draw),
    {
        proof {
            draw.lemma_offsets_unit();
        }
        if self.try_step(x, y, (0, 1)) {
            return ;
        }
        if self.try_step(x, y, draw.fall[0]) {
            return ;
        }
        if self.try_step(x, y, draw.fall[1]) {
            return ;
        }
        if self.try_step(x, y, draw.side[0]) {
            return ;
        }
        self.try_step(x, y, draw.side[1]);
    }

    /// Attempts a move into each upward target and then each horizontal
    /// target in drawn order, every attempt on its own.
    fn drift(&mut self, x: i64, y: i64, draw: &Draw)
        requires
            old(self).wf(),
            old(self)@.in_bounds((x as int, y as int)),
            draw.wf(),
        ensures
            final(self).wf(),
            final(self)@ == old(self)@.drift((x as int, y as int), *draw),
    {
        proof {
            draw.lemma_offsets_unit();
        }
        self.try_step(x, y, draw.rise[0]);
        self.try_step(x, y, draw.rise[1]);
        self.try_step(x, y, draw.rise[2]);
        self.try_step(x, y, draw.side[0]);
        self.try_step(x, y, draw.side[1]);
    }

    /// Moves into the first open target among the upward targets and then
    /// the horizontal targets in drawn order.
    fn lift(&mut self, x: i64, y: i64, draw: &Draw)
        requires
            old(self).wf(),
            old(self)@.in_bounds((x as int, y as int)),
            draw.wf(),
        ensures
            final(self).wf(),
            final(self)@ == old(self)@.lift((x as int, y as int), *draw),
    {
        proof {
            draw.lemma_offsets_unit();
        }
        if self.try_step(x, y, draw.rise[0]) {
            return ;
        }
        if self.try_step(x, y, draw.rise[1]) {
            return ;
        }
        if self.try_step(x, y, draw.rise[2]) {
            return ;
        }
        if self.try_step(x, y, draw.side[0]) {
            return ;
        }
        self.try_step(x, y, draw.side[1]);
    }

    /// The water rule under the given draw: wet the sand around, then fall
    /// straight down, else diagonally, else sideways.
    pub fn update_water_with(&mut self, x: i64, y: i64, draw: &Draw)
        requires
            old(self).wf(),
            old(self)@.in_bounds((x as int, y as int)),
            draw.wf(),
        ensures
            final(self).wf(),
            final(self)@ == old(self)@.water_step((x as int, y as int), *draw),
    {
        self.water_to_wet_sand(x, y, &draw.tints);
        self.flow(x, y, draw);
    }

    /// The water rule with random orders and tints.
    pub fn update_water(&mut self, x: i64, y: i64)
        requires
            old(self).wf(),
            old(self)@.in_bounds((x as int, y as int)),
        ensures
            final(self).wf(),
            exists|draw: Draw|
                draw.wf() && final(self)@ == #[trigger] old(self)@.water_step(
                    (x as int, y as int),
                    draw,
                ),
    {
        let draw = Draw::random_for(MaterialKind::Water, 1);
        self.update_water_with(x, y, &draw);
    }

    /// The wet sand rule: fall straight down into an empty cell, or change
    /// places with water directly below.
    pub fn update_wet_sand(&mut self, x: i64, y: i64)
        requires
            old(self).wf(),
            old(self)@.in_bounds((x as int, y as int)),
        ensures
            final(self).wf(),
            final(self)@ == old(self)@.wet_sand_step((x as int, y as int)),
    {
        proof {
            self.lemma_wf_board();
        }
        let ty = y + 1;
        if self.try_move(x, y, x, ty) {
            return ;
        }
        if self.in_bounds(x, ty) {
            match self.peek(x, ty).kind {
                MaterialKind::Water => {
                    self.swap_particle(x, y, x, ty);
                },
                _ => {},
            }
        }
    }

    /// The fire rule under the given draw: age; melt nearby sand, maybe spawn
    /// smoke, boil nearby water; then drift, unless the fire just expired.
    pub fn update_fire_with(&mut self, x: i64, y: i64, draw: &Draw)
        requires
            old(self).wf(),
            old(self)@.in_bounds((x as int, y as int)),
            draw.wf(),
        ensures
            final(self).wf(),
            final(self)@ == old(self)@.fire_step((x as int, y as int), *draw),
    {
        let expired = self.update_life_time(x, y);
        self.fire_to_glass(x, y, &draw.tints);
        self.fire_make_smoke(x, y, draw);
        self.fire_to_steam(x, y, &draw.tints);
        if !expired {
            self.drift(x, y, draw);
        }
    }

    /// The number of in-bounds cells in the 3×3 block around `(x, y)`.
    fn count_square_area(&self, x: i64, y: i64) -> (count: usize)
        requires
            self.wf(),
            self@.in_bounds((x as int, y as int)),
        ensures
            count == self@.neighbourhood((x as int, y as int)).len(),
            count > 0,
    {
        let cells = self.get_square_area(x, y);
        proof {
            let p: Spot = (x as int, y as int);
            assert(wide_spots(cells@).len() == cells@.len());
            Board::lemma_neighbours_hold(self@, p, p, 9);
        }
        cells.len()
    }

    /// The fire rule with random orders, roll, pick and tints.
    pub fn update_fire(&mut self, x: i64, y: i64)
        requires
            old(self).wf(),
            old(self)@.in_bounds((x as int, y as int)),
        ensures
            final(self).wf(),
            exists|draw: Draw|
                draw.wf() && final(self)@ == #[trigger] old(self)@.fire_step(
                    (x as int, y as int),
                    draw,
                ),
    {
        let around = self.count_square_area(x, y);
        let draw = Draw::random_for(MaterialKind::Fire, around);
        self.update_fire_with(x, y, &draw);
    }

    /// The smoke rule under the given draw: age, then drift, unless the
    /// smoke just expired.
    pub fn update_smoke_with(&mut self, x: i64, y: i64, draw: &Draw)
        requires
            old(self).wf(),
            old(self)@.in_bounds((x as int, y as int)),
            draw.wf(),
        ensures
            final(self).wf(),
            final(self)@ == old(self)@.smoke_step((x as int, y as int), *draw),
    {
        let expired = self.update_life_time(x, y);
        if !expired {
            self.drift(x, y, draw);
        }
    }

    /// The smoke rule with random orders.
    pub fn update_smoke(&mut self, x: i64, y: i64)
        requires
            old(self).wf(),
            old(self)@.in_bounds((x as int, y as int)),
        ensures
            final(self).wf(),
            exists|draw: Draw|
                draw.wf() && final(self)@ == #[trigger] old(self)@.smoke_step(
                    (x as int, y as int),
                    draw,
                ),
    {
        let draw = Draw::random_for(MaterialKind::Smoke, 1);
        self.update_smoke_with(x, y, &draw);
    }

    /// The steam rule under the given draw: age, then move into the first
    /// open target, unless the steam just expired.
    pub fn update_steam_with(&mut self, x: i64, y: i64, draw: &Draw)
        requires
            old(self).wf(),
            old(self)@.in_bounds((x as int, y as int)),
            draw.wf(),
        ensures
            final(self).wf(),
            final(self)@ == old(self)@.steam_step((x as int, y as int), *draw),
    {
        let expired = self.update_life_time(x, y);
        if !expired {
            self.lift(x, y, draw);
        }
    }

    /// The steam rule with random orders.
    pub fn update_steam(&mut self, x: i64, y: i64)
        requires
            old(self).wf(),
            old(self)@.in_bounds((x as int, y as int)),
        ensures
            final(self).wf(),
            exists|draw: Draw|
                draw.wf() && final(self)@ == #[trigger] old(self)@.steam_step(
                    (x as int, y as int),
                    draw,
                ),
    {
        let draw = Draw::random_for(MaterialKind::Steam, 1);
        self.update_steam_with(x, y, &draw);
    }

    /// Dispatches the cell at `(x, y)` under the given draw: nothing happens
    /// to a spot already moved into this tick; otherwise the rule of the
    /// cell's material applies.
    pub fn dispatch_with(&mut self, x: i64, y: i64, draw: &Draw)
        requires
            old(self).wf(),
            old(self)@.in_bounds((x as int, y as int)),
            draw.wf(),
        ensures
            final(self).wf(),
            final(self)@ == old(self)@.step((x as int, y as int), *draw),
    {
        if self.was_moved(x, y) {
            return ;
        }
        match self.peek(x, y).kind {
            MaterialKind::Sand => self.update_sand_with(x, y, draw),
            MaterialKind::Water => self.update_water_with(x, y, draw),
            MaterialKind::WetSand => self.update_wet_sand(x, y),
            MaterialKind::Fire => self.update_fire_with(x, y, draw),
            MaterialKind::Smoke => self.update_smoke_with(x, y, draw),
            MaterialKind::Steam => self.update_steam_with(x, y, draw),
            _ => {},
        }
    }
    /// Dispatches the cell at `(x, y)`, drawing what its rule consumes.
    pub fn dispatch(&mut self, x: i64, y: i64)
        requires
            old(self).wf(),
            old(self)@.in_bounds((x as int, y as int)),
        ensures
            final(self).wf(),
            exists|draw: Draw|
                draw.wf() && final(self)@ == #[trigger] old(self)@.step(
                    (x as int, y as int),
                    draw,
                ),
    {
        let ghost before = self@;
        let ghost p: Spot = (x as int, y as int);
        proof {
            Draw::lemma_plain_wf();
        }
        if self.was_moved(x, y) {
            assert(self@ == before.step(p, Draw::plain()));
            return ;
        }
        match self.peek(x, y).kind {
            MaterialKind::Sand => {
                self.update_sand(x, y);
                proof {
                    let draw = choose|draw: Draw|
                        draw.wf() && self@ == #[trigger] before.sand_step(p, draw);
                    assert(self@ == before.step(p, draw));
                }
            },
            MaterialKind::Water => {
                self.update_water(x, y);
                proof {
                    let draw = choose|draw: Draw|
                        draw.wf() && self@ == #[trigger] before.water_step(p, draw);
                    assert(self@ == before.step(p, draw));
                }
            },
            MaterialKind::WetSand => {
                self.update_wet_sand(x, y);
                assert(self@ == before.step(p, Draw::plain()));
            },
            MaterialKind::Fire => {
                self.update_fire(x, y);
                proof {
                    let draw = choose|draw: Draw|
                        draw.wf() && self@ == #[trigger] before.fire_step(p, draw);
                    assert(self@ == before.step(p, draw));
                }
            },
            MaterialKind::Smoke => {
                self.update_smoke(x, y);
                proof {
                    let draw = choose|draw: Draw|
                        draw.wf() && self@ == #[trigger] before.smoke_step(p, draw);
                    assert(self@ == before.step(p, draw));
                }
            },
            MaterialKind::Steam => {
                self.update_steam(x, y);
                proof {
                    let draw = choose|draw: Draw|
                        draw.wf() && self@ == #[trigger] before.steam_step(p, draw);
                    assert(self@ == before.step(p, draw));
                }
            },
            _ => {
                assert(self@ == before.step(p, Draw::plain()));
            },
        }
    }

    /// One tick: clears the moved mask, then dispatches every cell once in
    /// row-major order, top row first. With `fixed` every dispatch uses that
    /// draw; without, each dispatch draws its own.
    fn sweep(&mut self, fixed: Option<&Draw>)
        requires
            old(self).wf(),
            fixed matches Some(draw) ==> draw.wf(),
        ensures
            final(self).wf(),
            final(self)@.width == old(self)@.width,
            final(self)@.height == old(self)@.height,
            exists|draws: Map<Spot, Draw>|
                Board::fair(draws) && final(self)@ == #[trigger] old(self)@.tick(draws) && (
                fixed matches Some(draw) ==> draws == Board::same_draw(*draw)),
    {
        let ghost start = self@;
        let ghost mut draws: Map<Spot, Draw> = Board::same_draw(
            match fixed {
                Some(draw) => *draw,
                None => Draw::plain(),
            },
        );
        proof {
            self.lemma_wf_board();
            Draw::lemma_plain_wf();
        }
        self.clear_moved();
        let width = self.width();
        let height = self.height();
        let mut y: i64 = 0;
        while y < height
            invariant
                self.wf(),
                start.wf(),
                width == start.width,
                height == start.height,
                self@.width == start.width,
                self@.height == start.height,
                0 <= y <= height,
                fixed matches Some(draw) ==> draw.wf() && draws == Board::same_draw(*draw),
                Board::fair(draws),
                self@ == start.scan(draws, y as nat, 0),
            decreases height - y,
        {
            let mut x: i64 = 0;
            while x < width
                invariant
                    self.wf(),
                    start.wf(),
                    width == start.width,
                    height == start.height,
                    self@.width == start.width,
                    self@.height == start.height,
                    0 <= y < height,
                    0 <= x <= width,
                    fixed matches Some(draw) ==> draw.wf() && draws == Board::same_draw(*draw),
                    Board::fair(draws),
                    self@ == start.scan(draws, y as nat, x as nat),
                decreases width - x,
            {
                let ghost before = self@;
                let ghost p: Spot = (x as int, y as int);
                match fixed {
                    Some(draw) => self.dispatch_with(x, y, draw),
                    None => self.dispatch(x, y),
                }
                proof {
                    let drawn = match fixed {
                        Some(draw) => *draw,
                        None => choose|draw: Draw| draw.wf() && self@ == before.step(p, draw),
                    };
                    let next = draws.insert(p, drawn);
                    start.lemma_scan_reads_past(draws, next, y as nat, x as nat);
                    assert(next[p] == drawn);
                    assert(start.scan(next, y as nat, (x + 1) as nat) == start.scan(
                        next,
                        y as nat,
                        x as nat,
                    ).step(p, next[p]));
                    Board::lemma_step_keeps_size(before, p, drawn);
                    assert forall|q: Spot| (#[trigger] next[q]).wf() by {
                        if q != p {
                            assert(draws[q].wf());
                        }
                    }
                    if fixed is Some {
                        assert(next =~= draws);
                    }
                    draws = next;
                }
                x = x + 1;
            }
            proof {
                assert(start.scan(draws, (y + 1) as nat, 0) == start.scan(
                    draws,
                    y as nat,
                    start.width as nat,
                ));
            }
            y = y + 1;
        }
        assert(self@ == start.tick(draws));
    }

    /// Advances the simulation by one tick: clears the moved mask, then
    /// dispatches every cell once in row-major order, top row first, each
    /// dispatch drawing what its rule consumes.
    pub fn update(&mut self)
        requires
            old(self).wf(),
        ensures
            final(self).wf(),
            final(self)@.width == old(self)@.width,
            final(self)@.height == old(self)@.height,
            exists|draws: Map<Spot, Draw>|
                Board::fair(draws) && final(self)@ == #[trigger] old(self)@.tick(draws),
    {
        self.sweep(None);
    }

    /// Advances the simulation by one tick in which every dispatch uses the
    /// given draw, so that the outcome is determined.
    pub fn update_with(&mut self, draw: &Draw)
        requires
            old(self).wf(),
            draw.wf(),
        ensures
            final(self).wf(),
            final(self)@ == old(self)@.tick(Board::same_draw(*draw)),
    {
        self.sweep(Some(draw));
    }
}

} // verus!
