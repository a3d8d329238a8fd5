//! The grid: a dense array of cells with a moved mask, and the primitives
//! that read and write single cells.

use crate::board::{Board, Spot};
use crate::cell::Cell;
use vstd::prelude::*;

verus! {

/// A simulation grid of fixed size.
pub struct Grid {
    width: i64,
    height: i64,
    grid: Vec<Vec<Cell>>,
    processed: Vec<Vec<bool>>,
}

impl View for Grid {
    type V = Board;

    closed spec fn view(&self) -> Board {
        Board {
            width: self.width as int,
            height: self.height as int,
            cells: Map::new(
                |p: Spot| 0 <= p.0 < self.width && 0 <= p.1 < self.height,
                |p: Spot| self.grid@[p.1]@[p.0],
            ),
            moved: Set::new(
                |p: Spot|
                    0 <= p.0 < self.width && 0 <= p.1 < self.height && self.processed@[p.1]@[p.0],
            ),
        }
    }
}

impl Grid {
    /// The storage invariant: both arrays have `height` rows of `width`
    /// entries, and the board they represent is well formed.
    pub closed spec fn wf(&self) -> bool {
        &&& 0 < self.width <= usize::MAX
        &&& 0 < self.height <= usize::MAX
        &&& self.grid@.len() == self.height
        &&& self.processed@.len() == self.height
        &&& forall|y: int| 0 <= y < self.height ==> (#[trigger] self.grid@[y])@.len() == self.width
        &&& forall|y: int|
            0 <= y < self.height ==> (#[trigger] self.processed@[y])@.len() == self.width
        &&& self@.wf()
    }

    /// A well-formed grid represents a well-formed board whose sides fit the
    /// coordinate type.
    pub proof fn lemma_wf_board(&self)
        requires
            self.wf(),
        ensures
            self@.wf(),
            self@.width <= i64::MAX,
            self@.height <= i64::MAX,
    {
    }

    /// Creates a grid of the given size with every cell empty.
    pub fn new(width: i64, height: i64) -> (made: Grid)
        requires
            0 < width <= usize::MAX,
            0 < height <= usize::MAX,
        ensures
            made.wf(),
            made@ == Board::blank(width as int, height as int),
    {
        let mut grid: Vec<Vec<Cell>> = Vec::new();
        let mut processed: Vec<Vec<bool>> = Vec::new();
        let mut y: i64 = 0;
        while y < height
            invariant
                0 <= y <= height,
                0 < width <= usize::MAX,
                grid@.len() == y,
                processed@.len() == y,
                forall|j: int| 0 <= j < y ==> (#[trigger] grid@[j])@.len() == width,
                forall|j: int| 0 <= j < y ==> (#[trigger] processed@[j])@.len() == width,
                forall|j: int, i: int|
                    0 <= j < y && 0 <= i < width ==> #[trigger] grid@[j]@[i] == Cell::blank(),
                forall|j: int, i: int|
                    0 <= j < y && 0 <= i < width ==> !(#[trigger] processed@[j]@[i]),
            decreases height - y,
        {
            let mut cells: Vec<Cell> = Vec::new();
            let mut marks: Vec<bool> = Vec::new();
            let mut x: i64 = 0;
            while x < width
                invariant
                    0 <= x <= width,
                    cells@.len() == x,
                    marks@.len() == x,
                    forall|i: int| 0 <= i < x ==> #[trigger] cells@[i] == Cell::blank(),
                    forall|i: int| 0 <= i < x ==> !(#[trigger] marks@[i]),
                decreases width - x,
            {
                cells.push(Cell::new_empty());
                marks.push(false);
                x = x + 1;
            }
            grid.push(cells);
            processed.push(marks);
            y = y + 1;
        }
        let made = Grid { width, height, grid, processed };
        proof {
            let blank = Board::blank(width as int, height as int);
            assert(made@.cells =~= blank.cells);
            assert(made@.moved =~= blank.moved);
        }
        made
    }

    pub fn width(&self) -> (width: i64)
        ensures
            width == self@.width,
    {
        self.width
    }

    pub fn height(&self) -> (height: i64)
        ensures
            height == self@.height,
    {
        self.height
    }

    /// The bounds check every neighbour lookup goes through.
    pub fn in_bounds(&self, x: i64, y: i64) -> (inside: bool)
        ensures
            inside == self@.in_bounds((x as int, y as int)),
    {
        0 <= x && x < self.width && 0 <= y && y < self.height
    }

    /// The cell at `(x, y)`, or `None` outside the grid.
    pub fn cell_at(&self, x: i64, y: i64) -> (found: Option<Cell>)
        requires
            self.wf(),
        ensures
            found == if self@.in_bounds((x as int, y as int)) {
                Some(self@.cells[(x as int, y as int)])
            } else {
                None
            },
    {
        if self.in_bounds(x, y) {
            Some(self.grid[y as usize][x as usize])
        } else {
            None
        }
    }

    /// Whether `(x, y)` was moved into since the current tick began; `false`
    /// outside the grid.
    pub fn was_moved(&self, x: i64, y: i64) -> (marked: bool)
        requires
            self.wf(),
        ensures
            marked == self@.moved.contains((x as int, y as int)),
    {
        self.in_bounds(x, y) && self.processed[y as usize][x as usize]
    }

    /// The cell at a spot known to be inside the grid.
    pub(crate) fn peek(&self, x: i64, y: i64) -> (cell: Cell)
        requires
            self.wf(),
            self@.in_bounds((x as int, y as int)),
        ensures
            cell == self@.cells[(x as int, y as int)],
            cell.wf(),
    {
        self.grid[y as usize][x as usize]
    }

    /// Whether `(x, y)` is inside the grid and empty.
    pub(crate) fn is_open(&self, x: i64, y: i64) -> (open: bool)
        requires
            self.wf(),
        ensures
            open == self@.open_at((x as int, y as int)),
    {
        if self.in_bounds(x, y) {
            match self.grid[y as usize][x as usize].kind {
                crate::material::MaterialKind::Empty => true,
                _ => false,
            }
        } else {
            false
        }
    }

    /// Overwrites the cell at `(x, y)`.
    pub(crate) fn set_cell(&mut self, x: i64, y: i64, cell: Cell)
        requires
            old(self).wf(),
            old(self)@.in_bounds((x as int, y as int)),
            cell.wf(),
        ensures
            final(self).wf(),
            final(self)@ == old(self)@.put((x as int, y as int), cell),
    {
        self.grid[y as usize][x as usize] = cell;
        proof {
            let after = old(self)@.put((x as int, y as int), cell);
            assert(self@.cells =~= after.cells);
            assert(self@.moved =~= after.moved);
        }
    }

    /// Moves the cell at `(x, y)` to `(tx, ty)`: the source becomes empty and
    /// the destination is marked moved.
    pub fn move_particle(&mut self, x: i64, y: i64, tx: i64, ty: i64)
        requires
            old(self).wf(),
            old(self)@.in_bounds((x as int, y as int)),
            old(self)@.in_bounds((tx as int, ty as int)),
        ensures
            final(self).wf(),
            final(self)@ == old(self)@.relocate((x as int, y as int), (tx as int, ty as int)),
    {
        let cell = self.grid[y as usize][x as usize];
        self.grid[ty as usize][tx as usize] = cell;
        self.grid[y as usize][x as usize] = Cell::new_empty();
        self.processed[ty as usize][tx as usize] = true;
        proof {
            let after = old(self)@.relocate((x as int, y as int), (tx as int, ty as int));
            assert(self@.cells =~= after.cells);
            assert(self@.moved =~= after.moved);
        }
    }

    /// Exchanges the cells at `(x, y)` and `(tx, ty)` and marks `(tx, ty)`
    /// moved.
    pub fn swap_particle(&mut self, x: i64, y: i64, tx: i64, ty: i64)
        requires
            old(self).wf(),
            old(self)@.in_bounds((x as int, y as int)),
            old(self)@.in_bounds((tx as int, ty as int)),
        ensures
            final(self).wf(),
            final(self)@ == old(self)@.exchange((x as int, y as int), (tx as int, ty as int)),
    {
        let buffer = self.grid[ty as usize][tx as usize];
        let cell = self.grid[y as usize][x as usize];
        self.grid[ty as usize][tx as usize] = cell;
        self.grid[y as usize][x as usize] = buffer;
        self.processed[ty as usize][tx as usize] = true;
        proof {
            let after = old(self)@.exchange((x as int, y as int), (tx as int, ty as int));
            assert(self@.cells =~= after.cells);
            assert(self@.moved =~= after.moved);
        }
    }

    /// Clears the moved mask.
    pub(crate) fn clear_moved(&mut self)
        requires
            old(self).wf(),
        ensures
            final(self).wf(),
            final(self)@ == old(self)@.rested(),
    {
        let mut y: usize = 0;
        while y < self.processed.len()
            invariant
                self.width == old(self).width,
                self.height == old(self).height,
                self.grid == old(self).grid,
                0 < self.width <= usize::MAX,
                0 < self.height <= usize::MAX,
                self.processed@.len() == self.height,
                y <= self.processed@.len(),
                forall|j: int|
                    0 <= j < self.height ==> (#[trigger] self.processed@[j])@.len() == self.width,
                forall|j: int, i: int|
                    0 <= j < y && 0 <= i < self.width ==> !(#[trigger] self.processed@[j]@[i]),
            decreases self.processed@.len() - y,
        {
            let mut x: usize = 0;
            while x < self.processed[y].len()
                invariant
                    self.width == old(self).width,
                    self.height == old(self).height,
                    self.grid == old(self).grid,
                    0 < self.width <= usize::MAX,
                    0 < self.height <= usize::MAX,
                    self.processed@.len() == self.height,
                    y < self.processed@.len(),
                    x <= self.width,
                    forall|j: int|
                        0 <= j < self.height ==> (#[trigger] self.processed@[j])@.len()
                            == self.width,
                    forall|j: int, i: int|
                        0 <= j < y && 0 <= i < self.width ==> !(#[trigger] self.processed@[j]@[i]),
                    forall|i: int| 0 <= i < x ==> !(#[trigger] self.processed@[y as int]@[i]),
                decreases self.width - x,
            {
                self.processed[y][x] = false;
                x = x + 1;
            }
            y = y + 1;
        }
        proof {
            let after = old(self)@.rested();
            assert(self@.cells =~= after.cells);
            assert(self@.moved =~= after.moved);
        }
    }
}

} // verus!
