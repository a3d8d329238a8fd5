//! The brush: which cells a placement covers, and placing material on them.

use crate::board::{precedes, spots, Board, Spot};
use crate::cell::Cell;
use crate::grid::Grid;
use crate::material::MaterialKind;
use vstd::prelude::*;

verus! {

/// A distance beyond the radius has a square beyond the radius's square.
proof fn lemma_square_exceeds(d: int, r: int)
    requires
        r >= 0,
        d > r || d < -r,
    ensures
        d * d > r * r,
{
    assert(d * d > r * r) by (nonlinear_arith)
        requires
            r >= 0,
            d > r || d < -r,
    ;
}

/// A distance within the radius has a square within the radius's square.
proof fn lemma_square_within(d: int, r: int)
    requires
        -r <= d <= r,
    ensures
        0 <= d * d <= r * r,
{
    assert(0 <= d * d <= r * r) by (nonlinear_arith)
        requires
            -r <= d <= r,
    ;
}

/// A square is never negative.
proof fn lemma_square_nonneg(d: int)
    ensures
        d * d >= 0,
{
    assert(d * d >= 0) by (nonlinear_arith);
}

/// Appending a position appends its spot.
proof fn lemma_spots_push(positions: Seq<(i32, i32)>, last: (i32, i32))
    ensures
        spots(positions.push(last)) == spots(positions).push((last.0 as int, last.1 as int)),
{
    assert(spots(positions.push(last)) =~= spots(positions).push((last.0 as int, last.1 as int)));
}

fn min_of(a: i64, b: i64) -> (m: i64)
    ensures
        m == if a <= b { a } else { b },
{
    if a <= b {
        a
    } else {
        b
    }
}

fn max_of(a: i64, b: i64) -> (m: i64)
    ensures
        m == if a >= b { a } else { b },
{
    if a >= b {
        a
    } else {
        b
    }
}

impl Grid {
    /// The cells a brush covers, in row-major order, top row first.
    pub fn get_circle_positions(&self, center_x: i32, center_y: i32, radius: i32) -> (positions:
        Vec<(i32, i32)>)
        requires
            self.wf(),
        ensures
            forall|q: Spot|
                #![trigger self@.in_brush((center_x as int, center_y as int), radius as int, q)]
                #![trigger spots(positions@).contains(q)]
                self@.in_brush((center_x as int, center_y as int), radius as int, q) <==> spots(
                    positions@,
                ).contains(q),
            forall|i: int, j: int|
                0 <= i < j < positions@.len() ==> precedes(
                    #[trigger] spots(positions@)[i],
                    #[trigger] spots(positions@)[j],
                ),
    {
        let mut positions: Vec<(i32, i32)> = Vec::new();
        let ghost board = self@;
        let ghost centre: Spot = (center_x as int, center_y as int);
        if radius < 0 {
            return positions;
        }
        let r = radius as i64;
        let cx = center_x as i64;
        let cy = center_y as i64;
        let top = i32::MAX as i64;
        proof {
            self.lemma_wf_board();
            lemma_square_within(r as int, r as int);
            lemma_square_within(r as int, i32::MAX as int);
        }
        let x_lo = max_of(0, cx - r);
        let x_hi = min_of(min_of(self.width() - 1, cx + r), top);
        let y_lo = max_of(0, cy - r);
        let y_hi = min_of(min_of(self.height() - 1, cy + r), top);
        let rr = r * r;
        let mut y = y_lo;
        proof {
            assert forall|q: Spot| board.in_brush(centre, r as int, q) && q.1 < y_lo implies false by {
                if q.1 >= 0 {
                    lemma_square_exceeds(q.1 - cy, r as int);
                    lemma_square_nonneg(q.0 - cx);
                }
            }
        }
        while y <= y_hi
            invariant
                self.wf(),
                board == self@,
                board.wf(),
                centre == (cx as int, cy as int),
                0 <= r <= i32::MAX,
                rr == r * r,
                i32::MIN <= cx <= i32::MAX,
                i32::MIN <= cy <= i32::MAX,
                x_lo == if cx - r >= 0 { cx - r } else { 0 },
                x_hi <= board.width - 1,
                x_hi <= cx + r,
                x_hi <= i32::MAX,
                x_hi == board.width - 1 || x_hi == cx + r || x_hi == i32::MAX,
                0 <= rr <= 0x3fff_ffff_0000_0001,
                y_lo <= y,
                y_lo >= 0,
                y_lo >= cy - r,
                y_hi <= board.height - 1,
                y_hi <= cy + r,
                y_hi <= i32::MAX,
                y_hi == board.height - 1 || y_hi == cy + r || y_hi == i32::MAX,
                forall|i: int|
                    0 <= i < positions@.len() ==> board.in_brush(
                        centre,
                        r as int,
                        #[trigger] spots(positions@)[i],
                    ),
                forall|i: int| 0 <= i < positions@.len() ==> (#[trigger] spots(positions@)[i]).1 < y,
                forall|q: Spot|
                    board.in_brush(centre, r as int, q) && q.1 < y ==> spots(positions@).contains(q),
                forall|i: int, j: int|
                    0 <= i < j < positions@.len() ==> precedes(
                        #[trigger] spots(positions@)[i],
                        #[trigger] spots(positions@)[j],
                    ),
            decreases y_hi + 1 - y,
        {
            let dy = y - cy;
            proof {
                lemma_square_within(dy as int, r as int);
                assert forall|q: Spot|
                    board.in_brush(centre, r as int, q) && q.1 == y && q.0 < x_lo implies false by {
                    if q.0 >= 0 {
                        lemma_square_exceeds(q.0 - cx, r as int);
                        lemma_square_nonneg(q.1 - cy);
                    }
                }
            }
            let dyy = dy * dy;
            let mut x = x_lo;
            while x <= x_hi
                invariant
                    self.wf(),
                    board == self@,
                    board.wf(),
                    centre == (cx as int, cy as int),
                    0 <= r <= i32::MAX,
                    rr == r * r,
                    0 <= rr <= 0x3fff_ffff_0000_0001,
                    dy == y - cy,
                    dyy == dy * dy,
                    0 <= dyy <= rr,
                    i32::MIN <= cx <= i32::MAX,
                    x_lo == if cx - r >= 0 { cx - r } else { 0 },
                    x_lo <= x,
                    x_hi <= board.width - 1,
                    x_hi <= cx + r,
                    x_hi <= i32::MAX,
                    0 <= y <= y_hi,
                    y_hi <= board.height - 1,
                    y_hi <= i32::MAX,
                    forall|i: int|
                        0 <= i < positions@.len() ==> board.in_brush(
                            centre,
                            r as int,
                            #[trigger] spots(positions@)[i],
                        ),
                    forall|i: int|
                        0 <= i < positions@.len() ==> precedes(
                            #[trigger] spots(positions@)[i],
                            (x as int, y as int),
                        ),
                    forall|q: Spot|
                        board.in_brush(centre, r as int, q) && precedes(q, (x as int, y as int))
                            ==> spots(positions@).contains(q),
                    forall|i: int, j: int|
                        0 <= i < j < positions@.len() ==> precedes(
                            #[trigger] spots(positions@)[i],
                            #[trigger] spots(positions@)[j],
                        ),
                decreases x_hi + 1 - x,
            {
                let dx = x - cx;
                proof {
                    lemma_square_within(dx as int, r as int);
                }
                let ghost before = positions@;
                if dx * dx + dyy <= rr {
                    positions.push((x as i32, y as i32));
                    proof {
                        lemma_spots_push(before, (x as i32, y as i32));
                        let now = spots(positions@);
                        assert(now[before.len() as int] == (x as int, y as int));
                        assert forall|q: Spot| spots(before).contains(q) implies now.contains(
                            q,
                        ) by {
                            let k = choose|k: int| 0 <= k < before.len() && spots(before)[k] == q;
                            assert(now[k] == q);
                        }
                    }
                }
                x = x + 1;
            }
            proof {
                assert forall|q: Spot|
                    board.in_brush(centre, r as int, q) && q.1 == y && q.0 > x_hi implies false by {
                    if q.0 <= board.width - 1 && q.0 <= i32::MAX {
                        lemma_square_exceeds(q.0 - cx, r as int);
                        lemma_square_nonneg(q.1 - cy);
                    }
                }
            }
            y = y + 1;
        }
        proof {
            assert forall|q: Spot| board.in_brush(centre, r as int, q) && q.1 > y_hi implies false by {
                if q.1 <= board.height - 1 && q.1 <= i32::MAX {
                    lemma_square_exceeds(q.1 - cy, r as int);
                    lemma_square_nonneg(q.0 - cx);
                }
            }
            assert forall|q: Spot| spots(positions@).contains(q) implies board.in_brush(
                centre,
                radius as int,
                q,
            ) by {
                let k = choose|k: int| 0 <= k < positions@.len() && spots(positions@)[k] == q;
                assert(board.in_brush(centre, r as int, spots(positions@)[k]));
            }
        }
        positions
    }

    /// Places `selected_element` with a filled-disc brush. Material goes only
    /// onto empty cells; placing `Empty` erases whatever is covered. Cells
    /// outside the grid are skipped.
    pub fn place_element(&mut self, x: i32, y: i32, selected_element: MaterialKind, brush_size: i32)
        requires
            old(self).wf(),
        ensures
            final(self).wf(),
            old(self)@.painted(
                final(self)@,
                (x as int, y as int),
                brush_size as int,
                selected_element,
            ),
    {
        let positions = self.get_circle_positions(x, y, brush_size);
        let ghost start = self@;
        let ghost centre: Spot = (x as int, y as int);
        let ghost covered = spots(positions@);
        proof {
            self.lemma_wf_board();
        }
        let mut i: usize = 0;
        while i < positions.len()
            invariant
                self.wf(),
                start.wf(),
                i <= positions@.len(),
                covered == spots(positions@),
                self@.width == start.width,
                self@.height == start.height,
                self@.moved == start.moved,
                self@.cells.dom() == start.cells.dom(),
                forall|q: Spot|
                    #![trigger start.in_brush(centre, brush_size as int, q)]
                    #![trigger covered.contains(q)]
                    start.in_brush(centre, brush_size as int, q) <==> covered.contains(q),
                forall|a: int, b: int|
                    0 <= a < b < covered.len() ==> precedes(
                        #[trigger] covered[a],
                        #[trigger] covered[b],
                    ),
                forall|j: int|
                    0 <= j < i ==> if start.accepts(selected_element, #[trigger] covered[j]) {
                        self@.cells[covered[j]].is_fresh(selected_element)
                    } else {
                        self@.cells[covered[j]] == start.cells[covered[j]]
                    },
                forall|j: int|
                    i <= j < covered.len() ==> self@.cells[#[trigger] covered[j]]
                        == start.cells[covered[j]],
                forall|q: Spot|
                    start.in_bounds(q) && !start.in_brush(centre, brush_size as int, q)
                        ==> #[trigger] self@.cells[q] == start.cells[q],
            decreases positions@.len() - i,
        {
            let (px, py) = positions[i];
            let ghost q: Spot = (px as int, py as int);
            let ghost before = self@;
            proof {
                assert(covered[i as int] == q);
                assert(covered.contains(q));
                assert(start.in_brush(centre, brush_size as int, q));
            }
            let occupied = match self.peek(px as i64, py as i64).kind {
                MaterialKind::Empty => false,
                _ => true,
            };
            let erasing = match selected_element {
                MaterialKind::Empty => true,
                _ => false,
            };
            if erasing || !occupied {
                self.set_cell(px as i64, py as i64, Cell::make(selected_element));
                proof {
                    assert forall|j: int| 0 <= j < covered.len() && j != i implies covered[j]
                        != q by {
                        if j < i {
                            assert(precedes(covered[j], covered[i as int]));
                        } else {
                            assert(precedes(covered[i as int], covered[j]));
                        }
                    }
                    assert(self@.cells.dom() =~= start.cells.dom());
                }
            }
            i = i + 1;
        }
        proof {
            assert forall|q: Spot| start.in_bounds(q) implies if start.in_brush(
                centre,
                brush_size as int,
                q,
            ) && start.accepts(selected_element, q) {
                (#[trigger] self@.cells[q]).is_fresh(selected_element)
            } else {
                self@.cells[q] == start.cells[q]
            } by {
                if start.in_brush(centre, brush_size as int, q) {
                    let k = choose|k: int| 0 <= k < covered.len() && covered[k] == q;
                    assert(covered[k] == q);
                }
            }
        }
    }
}

} // verus!
