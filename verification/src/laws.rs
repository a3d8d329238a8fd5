//! Laws of the simulation, each proved of the model for every board and
//! every draw.

use crate::board::{below, near, precedes, slot_of, spots, toward, Board, Spot};
use crate::cell::Cell;
use crate::chance::Draw;
use crate::material::MaterialKind;
use vstd::prelude::*;

verus! {

/// Placing material leaves every occupied cell as it was.
pub proof fn lemma_placing_spares_occupied(
    before: Board,
    after: Board,
    centre: Spot,
    radius: int,
    kind: MaterialKind,
    q: Spot,
)
    requires
        before.painted(after, centre, radius, kind),
        kind != MaterialKind::Empty,
        before.in_bounds(q),
        before.cells[q].occupied(),
    ensures
        after.cells[q] == before.cells[q],
{
}

/// Erasing empties every cell the brush covers.
pub proof fn lemma_erasing_clears(before: Board, after: Board, centre: Spot, radius: int, q: Spot)
    requires
        before.painted(after, centre, radius, MaterialKind::Empty),
        before.in_brush(centre, radius, q),
    ensures
        after.cells[q] == Cell::blank(),
{
    assert(after.cells[q].is_fresh(MaterialKind::Empty));
}

/// The cells a placement changes are among the positions the brush reports,
/// and every reported position that accepts the material receives it: the
/// brush preview and the brush agree on every cell.
pub proof fn lemma_brush_matches_placement(
    before: Board,
    after: Board,
    centre: Spot,
    radius: int,
    kind: MaterialKind,
    positions: Seq<(i32, i32)>,
)
    requires
        before.painted(after, centre, radius, kind),
        forall|q: Spot|
            #![trigger before.in_brush(centre, radius, q)]
            #![trigger spots(positions).contains(q)]
            before.in_brush(centre, radius, q) <==> spots(positions).contains(q),
    ensures
        forall|q: Spot|
            before.in_bounds(q) && #[trigger] after.cells[q] != before.cells[q] ==> spots(
                positions,
            ).contains(q),
        forall|i: int|
            0 <= i < positions.len() && before.accepts(kind, #[trigger] spots(positions)[i])
                ==> after.cells[spots(positions)[i]].is_fresh(kind),
        forall|i: int|
            0 <= i < positions.len() && !before.accepts(kind, #[trigger] spots(positions)[i])
                ==> after.cells[spots(positions)[i]] == before.cells[spots(positions)[i]],
{
    assert forall|i: int| 0 <= i < positions.len() implies before.in_brush(
        centre,
        radius,
        #[trigger] spots(positions)[i],
    ) by {
        assert(spots(positions).contains(spots(positions)[i]));
    }
}

/// Sand with an empty cell below falls exactly one row, whatever the draw.
pub proof fn lemma_sand_falls(board: Board, p: Spot, draw: Draw)
    requires
        board.open_at(below(p)),
    ensures
        board.sand_step(p, draw) == board.relocate(p, below(p)),
        board.sand_step(p, draw).cells[below(p)] == board.cells[p],
        board.sand_step(p, draw).cells[p] == Cell::blank(),
        forall|q: Spot|
            q != p && q != below(p) ==> #[trigger] board.sand_step(p, draw).cells[q]
                == board.cells[q],
{
}

/// Sand that is boxed in below stays where it is.
pub proof fn lemma_sand_rests(board: Board, p: Spot, draw: Draw)
    requires
        draw.wf(),
        !board.open_at((p.0 - 1, p.1 + 1)),
        !board.open_at((p.0, p.1 + 1)),
        !board.open_at((p.0 + 1, p.1 + 1)),
    ensures
        board.sand_step(p, draw) == board,
{
}

/// Water turns every sand cell in the 3×3 block around it into fresh wet
/// sand, and that wet sand is still there when the water has moved.
pub proof fn lemma_water_wets_sand(board: Board, p: Spot, draw: Draw, q: Spot)
    requires
        board.wf(),
        board.in_bounds(p),
        board.cells[p].kind == MaterialKind::Water,
        board.in_bounds(q),
        near(p, q),
        board.cells[q].kind == MaterialKind::Sand,
    ensures
        board.water_step(p, draw).cells[q] == Cell::fresh(
            MaterialKind::WetSand,
            draw.tints@[slot_of(p, q)],
        ),
{
}

/// Water leaves no sand in the 3×3 block around where it stood.
pub proof fn lemma_water_leaves_no_sand(board: Board, p: Spot, draw: Draw, q: Spot)
    requires
        board.wf(),
        board.in_bounds(p),
        board.cells[p].kind == MaterialKind::Water,
        board.in_bounds(q),
        near(p, q),
    ensures
        board.water_step(p, draw).cells[q].kind != MaterialKind::Sand,
{
}

/// Wet sand directly above water changes places with it: afterwards the
/// water is where the wet sand was and the wet sand where the water was, and
/// no other cell differs.
pub proof fn lemma_wet_sand_sinks(board: Board, p: Spot)
    requires
        board.in_bounds(below(p)),
        board.cells[below(p)].kind == MaterialKind::Water,
    ensures
        board.wet_sand_step(p) == board.exchange(p, below(p)),
        board.wet_sand_step(p).cells[below(p)] == board.cells[p],
        board.wet_sand_step(p).cells[p] == board.cells[below(p)],
        forall|q: Spot|
            q != p && q != below(p) ==> #[trigger] board.wet_sand_step(p).cells[q]
                == board.cells[q],
{
}

/// Every offset of a well-formed draw leads to a neighbouring spot.
pub proof fn lemma_targets_adjacent(draw: Draw, p: Spot)
    requires
        draw.wf(),
    ensures
        forall|i: int| 0 <= i < 2 ==> toward(p, #[trigger] draw.fall@[i]) != p,
        forall|i: int| 0 <= i < 3 ==> toward(p, #[trigger] draw.rise@[i]) != p,
        forall|i: int| 0 <= i < 2 ==> toward(p, #[trigger] draw.side@[i]) != p,
{
    draw.lemma_offsets_unit();
}

/// Drifting moves the cell once: the cells after all five attempts are those
/// after a single move into the first open target, and unchanged if no
/// target is open.
pub proof fn lemma_drift_moves_once(board: Board, p: Spot, draw: Draw)
    requires
        board.wf(),
        board.in_bounds(p),
        draw.wf(),
    ensures
        board.drift(p, draw).cells == match board.rise_target(p, draw) {
            Some(t) => board.relocate(p, t).cells,
            None => board.cells,
        },
        board.drift(p, draw).width == board.width,
        board.drift(p, draw).height == board.height,
        board.drift(p, draw).wf(),
        forall|q: Spot| board.moved.contains(q) ==> board.drift(p, draw).moved.contains(q),
        board.rise_target(p, draw) matches Some(t) ==> board.drift(p, draw).moved.contains(t),
{
    lemma_targets_adjacent(draw, p);
    let t0 = toward(p, draw.rise@[0]);
    let t1 = toward(p, draw.rise@[1]);
    let t2 = toward(p, draw.rise@[2]);
    let t3 = toward(p, draw.side@[0]);
    let t4 = toward(p, draw.side@[1]);
    let b1 = board.attempt(p, t0);
    lemma_attempt_once(board, p, t0, board);
    let b2 = b1.attempt(p, t1);
    lemma_attempt_once(b1, p, t1, board);
    let b3 = b2.attempt(p, t2);
    lemma_attempt_once(b2, p, t2, board);
    let b4 = b3.attempt(p, t3);
    lemma_attempt_once(b3, p, t3, board);
    let b5 = b4.attempt(p, t4);
    lemma_attempt_once(b4, p, t4, board);
    assert(b5 == board.drift(p, draw));
}

/// One attempt in a series made from `p` on `start`: as long as nothing has
/// moved, the cells are those of `start`; once the cell has moved into a
/// spot, further attempts change no cell.
proof fn lemma_attempt_once(now: Board, p: Spot, t: Spot, start: Board)
    requires
        start.wf(),
        start.in_bounds(p),
        t != p,
        now.wf(),
        now.width == start.width,
        now.height == start.height,
        now.cells == start.cells || (exists|u: Spot|
            start.open_at(u) && u != p && now.cells == #[trigger] start.relocate(p, u).cells),
    ensures
        now.attempt(p, t).wf(),
        now.attempt(p, t).width == start.width,
        now.attempt(p, t).height == start.height,
        forall|q: Spot| now.moved.contains(q) ==> now.attempt(p, t).moved.contains(q),
        now.cells == start.cells ==> now.attempt(p, t).cells == if start.open_at(t) {
            start.relocate(p, t).cells
        } else {
            start.cells
        },
        now.cells != start.cells ==> now.attempt(p, t).cells == now.cells,
        now.cells == start.cells && start.open_at(t) ==> now.attempt(p, t).moved.contains(t),
{
    let next = now.attempt(p, t);
    if now.open_at(t) {
        assert(next.cells.dom() =~= now.cells.dom());
        if now.cells != start.cells {
            let u = choose|u: Spot|
                start.open_at(u) && u != p && now.cells == #[trigger] start.relocate(p, u).cells;
            assert(now.cells[p] == Cell::blank());
            assert(now.cells[t] == Cell::blank());
            assert(next.cells =~= now.cells);
        }
    }
}

/// Smoke whose age reaches its lifetime becomes empty and does not move.
pub proof fn lemma_smoke_expires(board: Board, p: Spot, draw: Draw)
    requires
        board.cells[p].expiring(),
    ensures
        board.smoke_step(p, draw) == board.put(p, Cell::blank()),
        board.smoke_step(p, draw).moved == board.moved,
{
}

/// Steam whose age reaches its lifetime becomes empty and does not move.
pub proof fn lemma_steam_expires(board: Board, p: Spot, draw: Draw)
    requires
        board.cells[p].expiring(),
    ensures
        board.steam_step(p, draw) == board.put(p, Cell::blank()),
        board.steam_step(p, draw).moved == board.moved,
{
}

/// Fire whose age reaches its lifetime becomes empty and does not move,
/// unless the smoke it spawns on that tick lands on its own spot.
pub proof fn lemma_fire_expires(board: Board, p: Spot, draw: Draw)
    requires
        board.wf(),
        board.in_bounds(p),
        board.cells[p].expiring(),
        !(board.spawns(p, draw) && board.spawn_spot(p, draw) == p),
    ensures
        board.fire_step(p, draw).cells[p] == Cell::blank(),
        board.fire_step(p, draw).moved == board.moved,
{
    let aged = board.grown_old(p);
    let glazed = aged.transmuted(p, MaterialKind::Sand, MaterialKind::Glass, draw.tints@);
    assert(glazed.cells[p] == Cell::blank());
    assert(glazed.neighbourhood(p) == board.neighbourhood(p)) by {
        lemma_neighbours_by_size(glazed, board, p, 9);
    }
    let smoky = glazed.smoked(p, draw);
    assert(smoky.cells[p] == Cell::blank());
}

/// The neighbourhood of a spot depends only on the size of the board.
pub proof fn lemma_neighbours_by_size(a: Board, b: Board, p: Spot, slots: nat)
    requires
        a.width == b.width,
        a.height == b.height,
    ensures
        a.neighbours(p, slots) == b.neighbours(p, slots),
    decreases slots,
{
    if slots > 0 {
        lemma_neighbours_by_size(a, b, p, (slots - 1) as nat);
    }
}

/// Fire younger than its lifetime burns on, one tick older: it ends the
/// dispatch in the first open target, or where it was if none is open,
/// unless the smoke it spawns lands on its own spot.
pub proof fn lemma_fire_burns_on(board: Board, p: Spot, draw: Draw)
    requires
        board.wf(),
        board.in_bounds(p),
        draw.wf(),
        board.cells[p].kind == MaterialKind::Fire,
        !board.cells[p].expiring(),
        !(board.spawns(p, draw) && board.spawn_spot(p, draw) == p),
    ensures
        ({
            let lit = Cell { age: (board.cells[p].age + 1) as u64, ..board.cells[p] };
            let after = board.fire_step(p, draw);
            match board.burnt(p, draw).rise_target(p, draw) {
                Some(t) => after.cells[t] == lit && after.cells[p] == Cell::blank(),
                None => after.cells[p] == lit,
            }
        }),
{
    let aged = board.grown_old(p);
    let glazed = aged.transmuted(p, MaterialKind::Sand, MaterialKind::Glass, draw.tints@);
    assert(glazed.neighbourhood(p) == board.neighbourhood(p)) by {
        lemma_neighbours_by_size(glazed, board, p, 9);
    }
    let smoky = glazed.smoked(p, draw);
    let burnt = board.burnt(p, draw);
    lemma_burnt_wf(board, p, draw);
    lemma_drift_moves_once(burnt, p, draw);
    lemma_targets_adjacent(draw, p);
}

/// Ageing a fire and letting it act on its surroundings keeps the board
/// well formed.
pub proof fn lemma_burnt_wf(board: Board, p: Spot, draw: Draw)
    requires
        board.wf(),
        board.in_bounds(p),
        draw.wf(),
    ensures
        board.burnt(p, draw).wf(),
        board.burnt(p, draw).width == board.width,
        board.burnt(p, draw).height == board.height,
        board.burnt(p, draw).moved == board.moved,
{
    let aged = board.grown_old(p);
    assert(aged.wf()) by {
        assert(aged.cells.dom() =~= board.cells.dom());
    }
    let glazed = aged.transmuted(p, MaterialKind::Sand, MaterialKind::Glass, draw.tints@);
    lemma_transmuted_wf(aged, p, MaterialKind::Sand, MaterialKind::Glass, draw);
    assert(glazed.neighbourhood(p) == board.neighbourhood(p)) by {
        lemma_neighbours_by_size(glazed, board, p, 9);
    }
    let smoky = glazed.smoked(p, draw);
    assert(smoky.wf()) by {
        if glazed.spawns(p, draw) {
            glazed.lemma_neighbours_inside(p, 9);
            assert(glazed.in_bounds(glazed.neighbourhood(p)[draw.pick as int]));
            assert(smoky.cells.dom() =~= glazed.cells.dom());
        }
    }
    lemma_transmuted_wf(smoky, p, MaterialKind::Water, MaterialKind::Steam, draw);
}

/// Converting the cells around a spot keeps the board well formed.
pub proof fn lemma_transmuted_wf(
    board: Board,
    p: Spot,
    from: MaterialKind,
    to: MaterialKind,
    draw: Draw,
)
    requires
        board.wf(),
        draw.wf(),
    ensures
        board.transmuted(p, from, to, draw.tints@).wf(),
{
    let after = board.transmuted(p, from, to, draw.tints@);
    assert forall|q: Spot| after.in_bounds(q) implies (#[trigger] after.cells[q]).wf() by {
        if near(p, q) && board.cells[q].kind == from {
            assert(0 <= slot_of(p, q) < 9);
        } else {
            assert(board.cells[q].wf());
        }
    }
}

/// The count of occupied cells reads nothing but which cells are occupied.
pub proof fn lemma_mass_by_occupancy(a: Board, b: Board, y: nat, x: nat)
    requires
        a.width == b.width,
        a.width > 0,
        x <= a.width,
        forall|p: Spot|
            0 <= p.0 < a.width && 0 <= p.1 && precedes(p, (x as int, y as int)) ==> (
            #[trigger] a.cells[p]).occupied() == b.cells[p].occupied(),
    ensures
        a.mass_upto(y, x) == b.mass_upto(y, x),
    decreases y, x,
{
    if x > 0 {
        lemma_mass_by_occupancy(a, b, y, (x - 1) as nat);
        let p: Spot = (x - 1, y as int);
        assert(a.cells[p].occupied() == b.cells[p].occupied());
    } else if y > 0 {
        lemma_mass_by_occupancy(a, b, (y - 1) as nat, a.width as nat);
    }
}

/// Overwriting one cell changes the count of occupied cells by the
/// difference in weight, once the count has reached that cell.
pub proof fn lemma_mass_put_upto(board: Board, p: Spot, cell: Cell, y: nat, x: nat)
    requires
        board.width > 0,
        x <= board.width,
        0 <= p.0 < board.width,
        0 <= p.1,
    ensures
        board.put(p, cell).mass_upto(y, x) == board.mass_upto(y, x) + if precedes(
            p,
            (x as int, y as int),
        ) {
            cell.weight() - board.cells[p].weight()
        } else {
            0
        },
    decreases y, x,
{
    if x > 0 {
        lemma_mass_put_upto(board, p, cell, y, (x - 1) as nat);
    } else if y > 0 {
        lemma_mass_put_upto(board, p, cell, (y - 1) as nat, board.width as nat);
    }
}

/// Overwriting one cell changes the count of occupied cells by the
/// difference in weight.
pub proof fn lemma_mass_put(board: Board, p: Spot, cell: Cell)
    requires
        board.wf(),
        board.in_bounds(p),
    ensures
        board.put(p, cell).mass() == board.mass() + cell.weight() - board.cells[p].weight(),
{
    lemma_mass_put_upto(board, p, cell, board.height as nat, 0);
}

/// Boards of one size with the same cells hold the same number of occupied
/// cells.
pub proof fn lemma_mass_reads_cells(a: Board, b: Board)
    requires
        a.width == b.width,
        a.height == b.height,
        a.width > 0,
        a.height > 0,
        a.cells == b.cells,
    ensures
        a.mass() == b.mass(),
{
    lemma_mass_by_occupancy(a, b, a.height as nat, 0);
}

/// The movement primitive removes from the count of occupied cells exactly
/// what it overwrites: a move into an empty cell neither creates nor
/// destroys material.
pub proof fn lemma_move_keeps_mass(board: Board, from: Spot, to: Spot)
    requires
        board.wf(),
        board.in_bounds(from),
        board.in_bounds(to),
    ensures
        board.relocate(from, to).mass() == board.mass() - board.cells[to].weight(),
        board.open_at(to) ==> board.relocate(from, to).mass() == board.mass(),
{
    let first = board.put(to, board.cells[from]);
    lemma_mass_put(board, to, board.cells[from]);
    assert(first.wf()) by {
        assert(first.cells.dom() =~= board.cells.dom());
    }
    lemma_mass_put(first, from, Cell::blank());
    lemma_mass_reads_cells(first.put(from, Cell::blank()), board.relocate(from, to));
}

/// The swap primitive neither creates nor destroys material.
pub proof fn lemma_swap_keeps_mass(board: Board, a: Spot, b: Spot)
    requires
        board.wf(),
        board.in_bounds(a),
        board.in_bounds(b),
    ensures
        board.exchange(a, b).mass() == board.mass(),
{
    let first = board.put(b, board.cells[a]);
    lemma_mass_put(board, b, board.cells[a]);
    assert(first.wf()) by {
        assert(first.cells.dom() =~= board.cells.dom());
    }
    lemma_mass_put(first, a, board.cells[b]);
    lemma_mass_reads_cells(first.put(a, board.cells[b]), board.exchange(a, b));
}

/// An attempted move neither creates nor destroys material, and keeps the
/// board well formed.
pub proof fn lemma_attempt_keeps_mass(board: Board, from: Spot, to: Spot)
    requires
        board.wf(),
        board.in_bounds(from),
    ensures
        board.attempt(from, to).mass() == board.mass(),
        board.attempt(from, to).wf(),
        board.attempt(from, to).width == board.width,
        board.attempt(from, to).height == board.height,
{
    if board.open_at(to) {
        lemma_move_keeps_mass(board, from, to);
        assert(board.relocate(from, to).cells.dom() =~= board.cells.dom());
    }
}

/// Converting one occupied material into another neither creates nor
/// destroys material.
pub proof fn lemma_transmuted_keeps_mass(
    board: Board,
    p: Spot,
    from: MaterialKind,
    to: MaterialKind,
    tints: Seq<u16>,
)
    requires
        board.width > 0,
        board.height > 0,
        from != MaterialKind::Empty,
        to != MaterialKind::Empty,
    ensures
        board.transmuted(p, from, to, tints).mass() == board.mass(),
{
    let after = board.transmuted(p, from, to, tints);
    assert forall|q: Spot|
        0 <= q.0 < board.width && 0 <= q.1 && precedes(q, (0, board.height)) implies (
    #[trigger] after.cells[q]).occupied() == board.cells[q].occupied() by {
        assert(board.in_bounds(q));
    }
    lemma_mass_by_occupancy(after, board, board.height as nat, 0);
}

/// Settling, flowing and lifting each make at most one move into an open
/// cell: they neither create nor destroy material.
pub proof fn lemma_first_move_keeps_mass(board: Board, p: Spot, draw: Draw)
    requires
        board.wf(),
        board.in_bounds(p),
    ensures
        board.settle(p, draw).mass() == board.mass(),
        board.settle(p, draw).wf(),
        board.settle(p, draw).width == board.width,
        board.settle(p, draw).height == board.height,
        board.flow(p, draw).mass() == board.mass(),
        board.flow(p, draw).wf(),
        board.flow(p, draw).width == board.width,
        board.flow(p, draw).height == board.height,
        board.lift(p, draw).mass() == board.mass(),
        board.lift(p, draw).wf(),
        board.lift(p, draw).width == board.width,
        board.lift(p, draw).height == board.height,
{
    lemma_attempt_keeps_mass(board, p, below(p));
    lemma_attempt_keeps_mass(board, p, toward(p, draw.fall@[0]));
    lemma_attempt_keeps_mass(board, p, toward(p, draw.fall@[1]));
    lemma_attempt_keeps_mass(board, p, toward(p, draw.side@[0]));
    lemma_attempt_keeps_mass(board, p, toward(p, draw.side@[1]));
    lemma_attempt_keeps_mass(board, p, toward(p, draw.rise@[0]));
    lemma_attempt_keeps_mass(board, p, toward(p, draw.rise@[1]));
    lemma_attempt_keeps_mass(board, p, toward(p, draw.rise@[2]));
}

/// Drifting neither creates nor destroys material.
pub proof fn lemma_drift_keeps_mass(board: Board, p: Spot, draw: Draw)
    requires
        board.wf(),
        board.in_bounds(p),
    ensures
        board.drift(p, draw).mass() == board.mass(),
        board.drift(p, draw).wf(),
        board.drift(p, draw).width == board.width,
        board.drift(p, draw).height == board.height,
{
    let b1 = board.attempt(p, toward(p, draw.rise@[0]));
    lemma_attempt_keeps_mass(board, p, toward(p, draw.rise@[0]));
    let b2 = b1.attempt(p, toward(p, draw.rise@[1]));
    lemma_attempt_keeps_mass(b1, p, toward(p, draw.rise@[1]));
    let b3 = b2.attempt(p, toward(p, draw.rise@[2]));
    lemma_attempt_keeps_mass(b2, p, toward(p, draw.rise@[2]));
    let b4 = b3.attempt(p, toward(p, draw.side@[0]));
    lemma_attempt_keeps_mass(b3, p, toward(p, draw.side@[0]));
    lemma_attempt_keeps_mass(b4, p, toward(p, draw.side@[1]));
}

/// Ageing removes a cell from the count of occupied cells exactly when it
/// ends the life of an occupied cell.
pub proof fn lemma_grown_old_mass(board: Board, p: Spot)
    requires
        board.wf(),
        board.in_bounds(p),
    ensures
        board.grown_old(p).mass() == board.mass() - if board.cells[p].expiring() {
            board.cells[p].weight()
        } else {
            0
        },
        board.grown_old(p).wf(),
        board.grown_old(p).width == board.width,
        board.grown_old(p).height == board.height,
        board.grown_old(p).moved == board.moved,
{
    lemma_mass_put(board, p, board.cells[p].older());
    assert(board.grown_old(p).cells.dom() =~= board.cells.dom());
    assert(board.cells[p].wf());
}

/// The sand, water and wet sand rules neither create nor destroy material.
pub proof fn lemma_falling_keeps_mass(board: Board, p: Spot, draw: Draw)
    requires
        board.wf(),
        board.in_bounds(p),
        draw.wf(),
    ensures
        board.sand_step(p, draw).mass() == board.mass(),
        board.sand_step(p, draw).wf(),
        board.water_step(p, draw).mass() == board.mass(),
        board.water_step(p, draw).wf(),
        board.wet_sand_step(p).mass() == board.mass(),
        board.wet_sand_step(p).wf(),
{
    lemma_first_move_keeps_mass(board, p, draw);
    let wet = board.transmuted(p, MaterialKind::Sand, MaterialKind::WetSand, draw.tints@);
    lemma_transmuted_wf(board, p, MaterialKind::Sand, MaterialKind::WetSand, draw);
    lemma_transmuted_keeps_mass(board, p, MaterialKind::Sand, MaterialKind::WetSand, draw.tints@);
    lemma_first_move_keeps_mass(wet, p, draw);
    lemma_attempt_keeps_mass(board, p, below(p));
    if board.in_bounds(below(p)) {
        lemma_swap_keeps_mass(board, p, below(p));
        assert(board.exchange(p, below(p)).cells.dom() =~= board.cells.dom());
    }
}

/// The smoke and steam rules remove one occupied cell when the cell they
/// are dispatched on expires, and otherwise none.
pub proof fn lemma_gas_mass(board: Board, p: Spot, draw: Draw)
    requires
        board.wf(),
        board.in_bounds(p),
        draw.wf(),
    ensures
        board.smoke_step(p, draw).mass() == board.mass() - if board.cells[p].expiring() {
            board.cells[p].weight()
        } else {
            0
        },
        board.smoke_step(p, draw).wf(),
        board.steam_step(p, draw).mass() == board.mass() - if board.cells[p].expiring() {
            board.cells[p].weight()
        } else {
            0
        },
        board.steam_step(p, draw).wf(),
{
    lemma_grown_old_mass(board, p);
    lemma_drift_keeps_mass(board.grown_old(p), p, draw);
    lemma_first_move_keeps_mass(board.grown_old(p), p, draw);
}

/// The fire rule removes one occupied cell when the fire expires and adds
/// one when its smoke is spawned into an empty cell.
pub proof fn lemma_fire_mass(board: Board, p: Spot, draw: Draw)
    requires
        board.wf(),
        board.in_bounds(p),
        draw.wf(),
    ensures
        board.fire_step(p, draw).mass() == board.mass() - (if board.cells[p].expiring() {
            board.cells[p].weight()
        } else {
            0
        }) + (if board.spawns(p, draw) && !board.grown_old(p).cells[board.spawn_spot(
            p,
            draw,
        )].occupied() {
            1int
        } else {
            0int
        }),
        board.fire_step(p, draw).wf(),
{
    let aged = board.grown_old(p);
    lemma_grown_old_mass(board, p);
    let glazed = aged.transmuted(p, MaterialKind::Sand, MaterialKind::Glass, draw.tints@);
    lemma_transmuted_wf(aged, p, MaterialKind::Sand, MaterialKind::Glass, draw);
    lemma_transmuted_keeps_mass(aged, p, MaterialKind::Sand, MaterialKind::Glass, draw.tints@);
    lemma_neighbours_by_size(glazed, board, p, 9);
    let smoky = glazed.smoked(p, draw);
    if glazed.spawns(p, draw) {
        let spot = glazed.spawn_spot(p, draw);
        glazed.lemma_neighbours_inside(p, 9);
        assert(glazed.in_bounds(spot));
        lemma_mass_put(glazed, spot, Cell::fresh(MaterialKind::Smoke, draw.smoke_tint));
        assert(glazed.cells[spot].occupied() == aged.cells[spot].occupied());
    }
    lemma_burnt_wf(board, p, draw);
    lemma_transmuted_keeps_mass(smoky, p, MaterialKind::Water, MaterialKind::Steam, draw.tints@);
    lemma_drift_keeps_mass(board.burnt(p, draw), p, draw);
}

/// One dispatch changes the count of occupied cells by the cell it lets
/// expire and the smoke it spawns into an empty cell, and by nothing else:
/// movement never creates or destroys material.
pub proof fn lemma_step_mass(board: Board, p: Spot, draw: Draw)
    requires
        board.wf(),
        board.in_bounds(p),
        draw.wf(),
    ensures
        board.step(p, draw).mass() + (if board.fades(p) {
            1int
        } else {
            0int
        }) == board.mass() + (if board.kindles(p, draw) {
            1int
        } else {
            0int
        }),
        board.step(p, draw).wf(),
        board.step(p, draw).width == board.width,
        board.step(p, draw).height == board.height,
{
    lemma_falling_keeps_mass(board, p, draw);
    lemma_gas_mass(board, p, draw);
    lemma_fire_mass(board, p, draw);
}

/// Part-way through a tick the board is well formed and of the size it
/// started with, and the occupied cells it has lost are those that expired,
/// less the smoke spawned into empty cells.
pub proof fn lemma_scan_mass(board: Board, draws: Map<Spot, Draw>, y: nat, x: nat)
    requires
        board.wf(),
        Board::fair(draws),
        y < board.height || (y == board.height && x == 0),
        x <= board.width,
    ensures
        board.scan(draws, y, x).wf(),
        board.scan(draws, y, x).width == board.width,
        board.scan(draws, y, x).height == board.height,
        board.scan(draws, y, x).mass() + board.faded(draws, y, x) == board.mass() + board.kindled(
            draws,
            y,
            x,
        ),
    decreases y, x,
{
    if x > 0 {
        let p: Spot = (x - 1, y as int);
        lemma_scan_mass(board, draws, y, (x - 1) as nat);
        lemma_step_mass(board.scan(draws, y, (x - 1) as nat), p, draws[p]);
    } else if y > 0 {
        lemma_scan_mass(board, draws, (y - 1) as nat, board.width as nat);
    } else {
        lemma_mass_reads_cells(board.rested(), board);
    }
}

/// Mass conservation: over one tick, the occupied cells before, less those
/// that expired, are the occupied cells after, less the smoke newly spawned
/// into empty cells.
pub proof fn lemma_tick_mass(board: Board, draws: Map<Spot, Draw>)
    requires
        board.wf(),
        Board::fair(draws),
    ensures
        board.mass() - board.faded(draws, board.height as nat, 0) == board.tick(draws).mass()
            - board.kindled(draws, board.height as nat, 0),
        board.tick(draws).wf(),
{
    lemma_scan_mass(board, draws, board.height as nat, 0);
}

/// Single move per tick, at one dispatch: a spot already moved into is left
/// alone.
pub proof fn lemma_moved_is_skipped(board: Board, p: Spot, draw: Draw)
    requires
        board.moved.contains(p),
    ensures
        board.step(p, draw) == board,
{
}

/// Material that was moved into a spot this tick is still there, and the
/// spot still marked, after any later dispatch.
pub proof fn lemma_step_keeps_settled(board: Board, p: Spot, draw: Draw, q: Spot)
    requires
        board.wf(),
        board.in_bounds(p),
        draw.wf(),
        board.moved.contains(q),
        board.cells[q].occupied(),
    ensures
        board.step(p, draw).moved.contains(q),
        board.step(p, draw).cells[q].occupied(),
{
    lemma_targets_adjacent(draw, p);
    if !board.moved.contains(p) {
        let aged = board.grown_old(p);
        lemma_grown_old_mass(board, p);
        match board.cells[p].kind {
            MaterialKind::Fire => {
                let burnt = board.burnt(p, draw);
                lemma_burnt_keeps_occupied(board, p, draw, q);
                lemma_burnt_wf(board, p, draw);
                if !board.cells[p].expiring() {
                    lemma_drift_moves_once(burnt, p, draw);
                }
            },
            MaterialKind::Smoke => {
                if !board.cells[p].expiring() {
                    lemma_drift_moves_once(aged, p, draw);
                }
            },
            _ => {},
        }
    }
}

/// Whatever was occupied before a fire acted on its surroundings is
/// occupied after, the fire's own spot aside.
proof fn lemma_burnt_keeps_occupied(board: Board, p: Spot, draw: Draw, q: Spot)
    requires
        board.wf(),
        board.in_bounds(p),
        board.in_bounds(q),
        draw.wf(),
        board.cells[q].occupied(),
        q != p || !board.cells[p].expiring(),
    ensures
        board.burnt(p, draw).cells[q].occupied(),
{
    let aged = board.grown_old(p);
    let glazed = aged.transmuted(p, MaterialKind::Sand, MaterialKind::Glass, draw.tints@);
    assert(glazed.cells[q].occupied());
    let smoky = glazed.smoked(p, draw);
    assert(smoky.cells[q].occupied());
}

/// Whatever is empty after a fire has acted on its surroundings was empty
/// before, the fire's own spot aside.
proof fn lemma_burnt_gap_was_gap(board: Board, p: Spot, draw: Draw, t: Spot)
    requires
        board.wf(),
        board.in_bounds(p),
        draw.wf(),
        board.burnt(p, draw).open_at(t),
        t != p,
    ensures
        board.open_at(t),
{
    if board.cells[t].occupied() {
        lemma_burnt_keeps_occupied(board, p, draw, t);
    }
}

/// Where a dispatch lands material: the destination was not holding material
/// moved into it earlier in the tick, and afterwards it is marked and
/// occupied. The one exception is wet sand sinking into water that itself
/// arrived during the tick.
pub proof fn lemma_step_lands(board: Board, p: Spot, draw: Draw)
    requires
        board.wf(),
        board.in_bounds(p),
        draw.wf(),
        board.landing(p, draw).is_some(),
        !board.sinks_into_moved(p),
    ensures
        ({
            let t = board.landing(p, draw).unwrap();
            &&& board.in_bounds(t)
            &&& !(board.moved.contains(t) && board.cells[t].occupied())
            &&& board.step(p, draw).moved.contains(t)
            &&& board.step(p, draw).cells[t].occupied()
        }),
{
    lemma_targets_adjacent(draw, p);
    let t = board.landing(p, draw).unwrap();
    let aged = board.grown_old(p);
    lemma_grown_old_mass(board, p);
    match board.cells[p].kind {
        MaterialKind::Fire => {
            let burnt = board.burnt(p, draw);
            lemma_burnt_wf(board, p, draw);
            lemma_burnt_keeps_occupied(board, p, draw, p);
            lemma_burnt_gap_was_gap(board, p, draw, t);
            lemma_drift_moves_once(burnt, p, draw);
        },
        MaterialKind::Smoke => {
            lemma_drift_moves_once(aged, p, draw);
        },
        _ => {},
    }
}

/// Part-way through a tick in which no wet sand sinks into newly arrived
/// water, every destination landed on so far is marked and occupied, and
/// none was landed on twice.
pub proof fn lemma_scan_lands_once(board: Board, draws: Map<Spot, Draw>, y: nat, x: nat)
    requires
        board.wf(),
        Board::fair(draws),
        y < board.height || (y == board.height && x == 0),
        x <= board.width,
        !board.resinks(draws, y, x),
    ensures
        board.landings(draws, y, x).no_duplicates(),
        forall|i: int|
            0 <= i < board.landings(draws, y, x).len() ==> {
                let t = #[trigger] board.landings(draws, y, x)[i];
                board.scan(draws, y, x).moved.contains(t) && board.scan(
                    draws,
                    y,
                    x,
                ).cells[t].occupied()
            },
    decreases y, x,
{
    if x > 0 {
        let p: Spot = (x - 1, y as int);
        let before = board.scan(draws, y, (x - 1) as nat);
        let sofar = board.landings(draws, y, (x - 1) as nat);
        let after = board.scan(draws, y, x);
        let now = board.landings(draws, y, x);
        lemma_scan_lands_once(board, draws, y, (x - 1) as nat);
        lemma_scan_mass(board, draws, y, (x - 1) as nat);
        assert forall|i: int| 0 <= i < sofar.len() implies after.moved.contains(sofar[i])
            && after.cells[sofar[i]].occupied() by {
            lemma_step_keeps_settled(before, p, draws[p], sofar[i]);
        }
        if before.landing(p, draws[p]).is_some() {
            lemma_step_lands(before, p, draws[p]);
            let t = before.landing(p, draws[p]).unwrap();
            assert(now == sofar.push(t));
            assert forall|i: int, j: int| 0 <= i < now.len() && 0 <= j < now.len() && i != j implies now[i] != now[j] by {
                if i < sofar.len() && j < sofar.len() {
                    assert(sofar[i] != sofar[j]);
                } else if i < sofar.len() {
                    assert(before.moved.contains(sofar[i]) && before.cells[sofar[i]].occupied());
                } else {
                    assert(before.moved.contains(sofar[j]) && before.cells[sofar[j]].occupied());
                }
            }
        }
    } else if y > 0 {
        lemma_scan_lands_once(board, draws, (y - 1) as nat, board.width as nat);
    }
}

/// Single move per tick: in one tick no coordinate is written as the
/// destination of material more than once, given that no wet sand sinks into
/// water that itself arrived during the tick.
pub proof fn lemma_tick_lands_once(board: Board, draws: Map<Spot, Draw>)
    requires
        board.wf(),
        Board::fair(draws),
        !board.resinks(draws, board.height as nat, 0),
    ensures
        board.landings(draws, board.height as nat, 0).no_duplicates(),
        forall|i: int|
            0 <= i < board.landings(draws, board.height as nat, 0).len() ==> {
                let t = #[trigger] board.landings(draws, board.height as nat, 0)[i];
                board.tick(draws).moved.contains(t) && board.tick(draws).cells[t].occupied()
            },
{
    lemma_scan_lands_once(board, draws, board.height as nat, 0);
}

/// The board part-way through a tick in which the only cell with a rule is
/// a grain of sand above an empty cell: untouched until the scan has passed
/// the grain, and from then on the grain is one row down.
proof fn lemma_lone_sand_scan(board: Board, p: Spot, draws: Map<Spot, Draw>, y: nat, x: nat)
    requires
        board.wf(),
        board.in_bounds(p),
        board.open_at(below(p)),
        board.cells[p].kind == MaterialKind::Sand,
        forall|q: Spot| board.in_bounds(q) && q != p ==> !(#[trigger] board.cells[q]).kind.is_active(),
        y < board.height || (y == board.height && x == 0),
        x <= board.width,
    ensures
        board.scan(draws, y, x) == if precedes(p, (x as int, y as int)) {
            board.rested().relocate(p, below(p))
        } else {
            board.rested()
        },
    decreases y, x,
{
    if x > 0 {
        let q: Spot = (x - 1, y as int);
        lemma_lone_sand_scan(board, p, draws, y, (x - 1) as nat);
        let before = board.scan(draws, y, (x - 1) as nat);
        if q == p {
            lemma_sand_falls(before, p, draws[q]);
        } else if q != below(p) {
            assert(!board.cells[q].kind.is_active());
        }
    } else if y > 0 {
        lemma_lone_sand_scan(board, p, draws, (y - 1) as nat, board.width as nat);
    }
}

/// Sand settling: where the only cell with a rule is one grain of sand with
/// an empty cell below, one tick moves the grain exactly one row down and
/// changes no other cell, whatever is drawn.
pub proof fn lemma_lone_sand_settles(board: Board, p: Spot, draws: Map<Spot, Draw>)
    requires
        board.wf(),
        board.in_bounds(p),
        board.open_at(below(p)),
        board.cells[p].kind == MaterialKind::Sand,
        forall|q: Spot| board.in_bounds(q) && q != p ==> !(#[trigger] board.cells[q]).kind.is_active(),
    ensures
        board.tick(draws) == board.rested().relocate(p, below(p)),
        board.tick(draws).cells[below(p)] == board.cells[p],
        board.tick(draws).cells[p] == Cell::blank(),
        forall|q: Spot|
            q != p && q != below(p) ==> #[trigger] board.tick(draws).cells[q] == board.cells[q],
{
    lemma_lone_sand_scan(board, p, draws, board.height as nat, 0);
}

/// The board part-way through a tick in which the only cells with a rule are
/// wet sand and the water directly below it: untouched until the scan has
/// passed the wet sand, and from then on the two have changed places.
proof fn lemma_lone_wet_sand_scan(board: Board, p: Spot, draws: Map<Spot, Draw>, y: nat, x: nat)
    requires
        board.wf(),
        board.in_bounds(p),
        board.in_bounds(below(p)),
        board.cells[p].kind == MaterialKind::WetSand,
        board.cells[below(p)].kind == MaterialKind::Water,
        forall|q: Spot|
            board.in_bounds(q) && q != p && q != below(p) ==> !(
            #[trigger] board.cells[q]).kind.is_active(),
        y < board.height || (y == board.height && x == 0),
        x <= board.width,
    ensures
        board.scan(draws, y, x) == if precedes(p, (x as int, y as int)) {
            board.rested().exchange(p, below(p))
        } else {
            board.rested()
        },
    decreases y, x,
{
    if x > 0 {
        let q: Spot = (x - 1, y as int);
        lemma_lone_wet_sand_scan(board, p, draws, y, (x - 1) as nat);
        let before = board.scan(draws, y, (x - 1) as nat);
        if q == p {
            lemma_wet_sand_sinks(before, p);
        } else if q != below(p) {
            assert(!board.cells[q].kind.is_active());
        }
    } else if y > 0 {
        lemma_lone_wet_sand_scan(board, p, draws, (y - 1) as nat, board.width as nat);
    }
}

/// Wet sand sinks through water: where the only cells with a rule are wet
/// sand and the water directly below it, one tick makes the two change
/// places, with neither duplicated and no other cell changed.
pub proof fn lemma_lone_wet_sand_sinks(board: Board, p: Spot, draws: Map<Spot, Draw>)
    requires
        board.wf(),
        board.in_bounds(p),
        board.in_bounds(below(p)),
        board.cells[p].kind == MaterialKind::WetSand,
        board.cells[below(p)].kind == MaterialKind::Water,
        forall|q: Spot|
            board.in_bounds(q) && q != p && q != below(p) ==> !(
            #[trigger] board.cells[q]).kind.is_active(),
    ensures
        board.tick(draws) == board.rested().exchange(p, below(p)),
        board.tick(draws).cells[below(p)] == board.cells[p],
        board.tick(draws).cells[p] == board.cells[below(p)],
        forall|q: Spot|
            q != p && q != below(p) ==> #[trigger] board.tick(draws).cells[q] == board.cells[q],
{
    lemma_lone_wet_sand_scan(board, p, draws, board.height as nat, 0);
}

} // verus!
