use vstd::prelude::*;

use rand::Rng;

verus! {

/// The occupancy tag of one grid cell.
#[derive(Copy, Clone, PartialEq, Eq, Structural, Debug)]
pub enum CellType {
    Empty,
    Snake,
    Food,
    SnakeHead,
}

/// One grid position together with its occupancy tag. The position is
/// fixed when the board is built; only the tag changes afterwards.
#[derive(Copy, Clone, PartialEq, Eq, Structural, Debug)]
pub struct Cell {
    pub col: usize,
    pub row: usize,
    pub cell: CellType,
}

impl Cell {
    /// The column of this cell.
    pub fn col(&self) -> (c: usize)
        ensures
            c == self.col,
    {
        self.col
    }

    /// The row of this cell.
    pub fn row(&self) -> (r: usize)
        ensures
            r == self.row,
    {
        self.row
    }

    /// The current occupancy tag of this cell.
    pub fn cell_type(&self) -> (t: CellType)
        ensures
            t == self.cell,
    {
        self.cell
    }
}

/// A gameplay event, queued on the board for an outside observer
/// (for example a sound player) to drain and act on.
#[derive(Copy, Clone, PartialEq, Eq, Structural, Debug)]
pub enum GameEvent {
    FoodEaten,
    SnakeDied,
    SnakeChangedDirection,
}

/// A fixed-size grid of cells in row-major order, the game-over and pause
/// flags, and the queue of events not yet handed to the observer.
pub struct Board {
    pub rows: usize,
    pub columns: usize,
    pub cells: Vec<Cell>,
    pub game_over: bool,
    pub paused: bool,
    pub events: Vec<GameEvent>,
}

/// The row-major index of the cell at the given coordinates on a grid
/// with the given number of columns.
pub open spec fn grid_index(col: int, row: int, columns: int) -> int {
    col + row * columns
}

/// In-range coordinates address a cell inside the grid.
pub proof fn lemma_grid_index_bounds(col: int, row: int, rows: int, columns: int)
    by (nonlinear_arith)
    requires
        0 <= col < columns,
        0 <= row < rows,
    ensures
        0 <= grid_index(col, row, columns) < rows * columns,
{
}

impl Board {
    /// The grid as the sequence of its occupancy tags, row-major.
    pub open spec fn grid(self) -> Seq<CellType> {
        self.cells@.map(|i: int, c: Cell| c.cell)
    }

    /// The tag of the cell at the given coordinates.
    pub open spec fn at(self, col: int, row: int) -> CellType {
        self.grid()[grid_index(col, row, self.columns as int)]
    }

    /// Well-formedness: positive dimensions, one cell per coordinate pair,
    /// and each cell carrying the position its index encodes.
    pub open spec fn wf(self) -> bool {
        &&& self.rows >= 1
        &&& self.columns >= 1
        &&& self.rows * self.columns <= usize::MAX
        &&& self.cells@.len() == self.rows * self.columns
        &&& forall|i: int|
            0 <= i < self.cells@.len() ==> (#[trigger] self.cells@[i]).col == i % (
            self.columns as int) && self.cells@[i].row == i / (self.columns as int)
    }

    /// Builds a grid of the given positive dimensions with every cell
    /// empty, the flags cleared and the event queue empty.
    pub fn new(rows: usize, columns: usize) -> (b: Board)
        requires
            rows >= 1,
            columns >= 1,
            rows * columns <= usize::MAX,
        ensures
            b.wf(),
            b.rows == rows,
            b.columns == columns,
            b.grid().len() == rows * columns,
            forall|i: int| 0 <= i < b.grid().len() ==> b.grid()[i] == CellType::Empty,
            !b.game_over,
            !b.paused,
            b.events@ == Seq::<GameEvent>::empty(),
    {
        let mut cells: Vec<Cell> = Vec::new();
        let mut row: usize = 0;
        while row < rows
            invariant
                row <= rows,
                rows >= 1,
                columns >= 1,
                rows * columns <= usize::MAX,
                cells@.len() == row * columns,
                forall|i: int|
                    0 <= i < cells@.len() ==> (#[trigger] cells@[i]).col == i % (columns as int)
                        && cells@[i].row == i / (columns as int) && cells@[i].cell
                        == CellType::Empty,
            decreases rows - row,
        {
            let mut col: usize = 0;
            while col < columns
                invariant
                    row < rows,
                    col <= columns,
                    rows >= 1,
                    columns >= 1,
                    rows * columns <= usize::MAX,
                    cells@.len() == row * columns + col,
                    forall|i: int|
                        0 <= i < cells@.len() ==> (#[trigger] cells@[i]).col == i % (columns as int)
                            && cells@[i].row == i / (columns as int) && cells@[i].cell
                            == CellType::Empty,
                decreases columns - col,
            {
                proof {
                    lemma_grid_index_bounds(col as int, row as int, rows as int, columns as int);
                    vstd::arithmetic::div_mod::lemma_fundamental_div_mod_converse(
                        row as int * columns as int + col as int,
                        columns as int,
                        row as int,
                        col as int,
                    );
                }
                cells.push(Cell { col, row, cell: CellType::Empty });
                col = col + 1;
            }
            proof {
                assert((row as int + 1) * (columns as int) == row as int * (columns as int)
                    + columns as int) by (nonlinear_arith);
            }
            row = row + 1;
        }
        Board { rows, columns, cells, game_over: false, paused: false, events: Vec::new() }
    }

    /// Whether the game is paused.
    pub fn paused(&self) -> (p: bool)
        ensures
            p == self.paused,
    {
        self.paused
    }

    /// Flips the paused flag and changes nothing else.
    pub fn toggle_pause(&mut self)
        ensures
            final(self).paused == !old(self).paused,
            final(self).rows == old(self).rows,
            final(self).columns == old(self).columns,
            final(self).cells@ == old(self).cells@,
            final(self).game_over == old(self).game_over,
            final(self).events@ == old(self).events@,
    {
        self.paused = !self.paused;
    }

    /// Whether the game has ended.
    pub fn game_over(&self) -> (g: bool)
        ensures
            g == self.game_over,
    {
        self.game_over
    }

    /// Ends the game and queues the death event. A repeated call finds the
    /// game already over and changes nothing, so the event is queued at
    /// most once per ended game.
    pub fn end_game(&mut self)
        ensures
            final(self).game_over,
            final(self).rows == old(self).rows,
            final(self).columns == old(self).columns,
            final(self).cells@ == old(self).cells@,
            final(self).paused == old(self).paused,
            final(self).events@ == if old(self).game_over {
                old(self).events@
            } else {
                old(self).events@.push(GameEvent::SnakeDied)
            },
    {
        if !self.game_over {
            self.events.push(GameEvent::SnakeDied);
            self.game_over = true;
        }
    }

    /// The number of rows.
    pub fn rows(&self) -> (r: usize)
        ensures
            r == self.rows,
    {
        self.rows
    }

    /// The number of columns.
    pub fn columns(&self) -> (c: usize)
        ensures
            c == self.columns,
    {
        self.columns
    }

    /// A read-only view of the cells, row-major.
    pub fn cells(&self) -> (cs: &Vec<Cell>)
        ensures
            cs@ == self.cells@,
    {
        &self.cells
    }

    /// Writes the tag of the cell at the given coordinates. Callers pass
    /// coordinates already reduced modulo the grid dimensions, so the
    /// row-major index lands inside the grid.
    pub fn set_cell(&mut self, col: usize, row: usize, cell: CellType)
        requires
            old(self).wf(),
            col < old(self).columns,
            row < old(self).rows,
        ensures
            final(self).wf(),
            final(self).rows == old(self).rows,
            final(self).columns == old(self).columns,
            final(self).game_over == old(self).game_over,
            final(self).paused == old(self).paused,
            final(self).events@ == old(self).events@,
            final(self).grid() == old(self).grid().update(
                grid_index(col as int, row as int, old(self).columns as int),
                cell,
            ),
    {
        proof {
            lemma_grid_index_bounds(
                col as int,
                row as int,
                self.rows as int,
                self.columns as int,
            );
            vstd::arithmetic::div_mod::lemma_small_mod(
                (col + row * self.columns) as nat,
                self.cells@.len() as nat,
            );
        }
        let index: usize = (col + row * self.columns) % self.cells.len();
        let old_cell = self.cells[index];
        self.cells.set(index, Cell { col: old_cell.col, row: old_cell.row, cell });
        proof {
            assert(self.grid() =~= old(self).grid().update(
                grid_index(col as int, row as int, self.columns as int),
                cell,
            ));
        }
    }

    /// Reads the tag of the cell at the given coordinates.
    pub fn get_cell(&self, col: usize, row: usize) -> (t: CellType)
        requires
            self.wf(),
            col < self.columns,
            row < self.rows,
        ensures
            t == self.at(col as int, row as int),
    {
        proof {
            lemma_grid_index_bounds(
                col as int,
                row as int,
                self.rows as int,
                self.columns as int,
            );
            vstd::arithmetic::div_mod::lemma_small_mod(
                (col + row * self.columns) as nat,
                self.cells@.len() as nat,
            );
        }
        let index: usize = (col + row * self.columns) % self.cells.len();
        self.cells[index].cell
    }

    /// Whether the cell at the given coordinates holds food.
    pub fn is_food(&self, col: usize, row: usize) -> (r: bool)
        requires
            self.wf(),
            col < self.columns,
            row < self.rows,
        ensures
            r == (self.at(col as int, row as int) == CellType::Food),
    {
        self.get_cell(col, row) == CellType::Food
    }

    /// Whether the cell at the given coordinates is empty.
    pub fn is_empty(&self, col: usize, row: usize) -> (r: bool)
        requires
            self.wf(),
            col < self.columns,
            row < self.rows,
        ensures
            r == (self.at(col as int, row as int) == CellType::Empty),
    {
        self.get_cell(col, row) == CellType::Empty
    }

    /// Whether the cell at the given coordinates holds a body segment.
    pub fn is_snake(&self, col: usize, row: usize) -> (r: bool)
        requires
            self.wf(),
            col < self.columns,
            row < self.rows,
        ensures
            r == (self.at(col as int, row as int) == CellType::Snake),
    {
        self.get_cell(col, row) == CellType::Snake
    }

    /// Sets every cell to empty, clears the game-over flag and places new
    /// food. The pause flag and the event queue stay as they were.
    pub fn reset(&mut self)
        requires
            old(self).wf(),
        ensures
            final(self).wf(),
            final(self).rows == old(self).rows,
            final(self).columns == old(self).columns,
            !final(self).game_over,
            final(self).paused == old(self).paused,
            final(self).events@ == old(self).events@,
            exists|f: int|
                0 <= f < final(self).grid().len() && #[trigger] final(self).grid()[f]
                    == CellType::Food && (forall|i: int|
                    0 <= i < final(self).grid().len() && i != f ==> final(self).grid()[i]
                        == CellType::Empty),
    {
        let ghost b0 = *self;
        let mut i: usize = 0;
        while i < self.cells.len()
            invariant
                i <= self.cells@.len(),
                self.wf(),
                self.rows == b0.rows,
                self.columns == b0.columns,
                self.game_over == b0.game_over,
                self.paused == b0.paused,
                self.events@ == b0.events@,
                forall|k: int| 0 <= k < i ==> self.grid()[k] == CellType::Empty,
            decreases self.cells@.len() - i,
        {
            let ghost gprev = self.grid();
            let old_cell = self.cells[i];
            self.cells.set(i, Cell { col: old_cell.col, row: old_cell.row, cell: CellType::Empty });
            proof {
                assert(self.grid() =~= gprev.update(i as int, CellType::Empty));
            }
            i = i + 1;
        }
        proof {
            assert(forall|k: int| 0 <= k < self.grid().len() ==> self.grid()[k] == CellType::Empty);
        }
        self.game_over = false;
        proof {
            assert(self.grid().len() >= 1) by {
                assert(self.rows * self.columns >= 1 * 1) by (nonlinear_arith)
                    requires
                        self.rows >= 1,
                        self.columns >= 1,
                ;
            }
            assert(self.grid()[0] == CellType::Empty);
        }
        let ghost g_clear = self.grid();
        self.generate_food();
        proof {
            let f = choose|f: int|
                0 <= f < g_clear.len() && g_clear[f] == CellType::Empty && self.grid()
                    == g_clear.update(f, CellType::Food);
            assert(self.grid()[f] == CellType::Food);
        }
    }

    /// Marks a uniformly sampled empty cell as food: it samples positions
    /// at random until one is empty, giving up after as many failed draws
    /// as the grid has cells, in which case it falls back to the first
    /// empty cell in row-major order. Some cell is empty by precondition,
    /// so food is always placed.
    pub fn generate_food(&mut self)
        requires
            old(self).wf(),
            exists|i: int|
                0 <= i < old(self).grid().len() && old(self).grid()[i] == CellType::Empty,
        ensures
            final(self).wf(),
            final(self).rows == old(self).rows,
            final(self).columns == old(self).columns,
            final(self).game_over == old(self).game_over,
            final(self).paused == old(self).paused,
            final(self).events@ == old(self).events@,
            exists|f: int|
                0 <= f < old(self).grid().len() && old(self).grid()[f] == CellType::Empty
                    && final(self).grid() == old(self).grid().update(f, CellType::Food),
    {
        let mut tries: usize = self.cells.len();
        let mut rand_row: usize = random_below(self.rows);
        let mut rand_col: usize = random_below(self.columns);

        while tries > 0 && !self.is_empty(rand_col, rand_row)
            invariant
                self.wf(),
                rand_col < self.columns,
                rand_row < self.rows,
            decreases tries,
        {
            rand_row = random_below(self.rows);
            rand_col = random_below(self.columns);
            tries = tries - 1;
        }

        if self.is_empty(rand_col, rand_row) {
            proof {
                lemma_grid_index_bounds(
                    rand_col as int,
                    rand_row as int,
                    self.rows as int,
                    self.columns as int,
                );
            }
            self.set_cell(rand_col, rand_row, CellType::Food);
        } else {
            let j: usize = self.find_first_empty();
            let target = self.cells[j];
            proof {
                vstd::arithmetic::div_mod::lemma_mod_bound(j as int, self.columns as int);
                vstd::arithmetic::div_mod::lemma_fundamental_div_mod(j as int, self.columns as int);
                assert(j as int == target.col + target.row * self.columns) by (nonlinear_arith)
                    requires
                        target.col == j as int % (self.columns as int),
                        target.row == j as int / (self.columns as int),
                        self.columns >= 1,
                        j >= 0,
                ;
                assert(target.row < self.rows) by {
                    assert((j as int) < self.rows * self.columns);
                    assert(target.row * self.columns <= j as int);
                    assert(target.row * self.columns < self.rows * self.columns);
                    assert(target.row < self.rows) by (nonlinear_arith)
                        requires
                            target.row * self.columns < self.rows * self.columns,
                            self.columns >= 1,
                    ;
                }
            }
            self.set_cell(target.col, target.row, CellType::Food);
        }
    }

    /// The row-major index of the first empty cell.
    fn find_first_empty(&self) -> (j: usize)
        requires
            self.wf(),
            exists|i: int| 0 <= i < self.grid().len() && self.grid()[i] == CellType::Empty,
        ensures
            j < self.grid().len(),
            self.grid()[j as int] == CellType::Empty,
    {
        let mut j: usize = 0;
        while j < self.cells.len()
            invariant
                self.wf(),
                j <= self.cells@.len(),
                exists|i: int| 0 <= i < self.grid().len() && self.grid()[i] == CellType::Empty,
                forall|k: int| 0 <= k < j ==> self.grid()[k] != CellType::Empty,
            decreases self.cells@.len() - j,
        {
            if self.cells[j].cell == CellType::Empty {
                return j;
            }
            j = j + 1;
        }
        proof {
            assert(false);
        }
        0
    }

    /// Queues the food-eaten event for the observer.
    pub(crate) fn food_eaten_event(&mut self)
        ensures
            final(self).events@ == old(self).events@.push(GameEvent::FoodEaten),
            final(self).rows == old(self).rows,
            final(self).columns == old(self).columns,
            final(self).cells@ == old(self).cells@,
            final(self).game_over == old(self).game_over,
            final(self).paused == old(self).paused,
    {
        self.events.push(GameEvent::FoodEaten);
    }

    /// Queues the direction-changed event for the observer.
    pub(crate) fn change_direction_event(&mut self)
        ensures
            final(self).events@ == old(self).events@.push(GameEvent::SnakeChangedDirection),
            final(self).rows == old(self).rows,
            final(self).columns == old(self).columns,
            final(self).cells@ == old(self).cells@,
            final(self).game_over == old(self).game_over,
            final(self).paused == old(self).paused,
    {
        self.events.push(GameEvent::SnakeChangedDirection);
    }

    /// Hands out the queued events and leaves the queue empty.
    pub fn take_events(&mut self) -> (evs: Vec<GameEvent>)
        ensures
            evs@ == old(self).events@,
            final(self).events@ == Seq::<GameEvent>::empty(),
            final(self).rows == old(self).rows,
            final(self).columns == old(self).columns,
            final(self).cells@ == old(self).cells@,
            final(self).game_over == old(self).game_over,
            final(self).paused == old(self).paused,
    {
        let mut out: Vec<GameEvent> = Vec::new();
        core::mem::swap(&mut self.events, &mut out);
        out
    }
}

/// Generated food is the only food: placing food on an empty cell of a
/// grid that held no food leaves exactly one food cell, and no cell that
/// held anything is overwritten.
pub proof fn lemma_generated_food_is_unique(g: Seq<CellType>, f: int)
    requires
        0 <= f < g.len(),
        g[f] == CellType::Empty,
        forall|i: int| 0 <= i < g.len() ==> g[i] != CellType::Food,
    ensures
        g.update(f, CellType::Food)[f] == CellType::Food,
        forall|i: int|
            0 <= i < g.len() && i != f ==> #[trigger] g.update(f, CellType::Food)[i]
                != CellType::Food,
        forall|i: int|
            0 <= i < g.len() && i != f ==> #[trigger] g.update(f, CellType::Food)[i] == g[i],
{
}

/// Relies on `rand`: `thread_rng().gen_range(0..n)` returns a uniformly
/// distributed value of the half-open range, and panics only when the
/// range is empty.
#[verifier::external_body]
fn random_below(n: usize) -> (r: usize)
    requires
        n > 0,
    ensures
        r < n,
{
    rand::thread_rng().gen_range(0..n)
}

} // verus!
