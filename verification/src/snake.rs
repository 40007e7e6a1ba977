use vstd::prelude::*;

use crate::board::{grid_index, Board, CellType, GameEvent};

verus! {

/// One body segment: a grid position occupied by the snake.
#[derive(Copy, Clone, PartialEq, Eq, Structural, Debug)]
pub struct Part {
    pub col: usize,
    pub row: usize,
}

/// The heading of the snake.
#[derive(Copy, Clone, PartialEq, Eq, Structural, Debug)]
pub enum Direction {
    Up,
    Left,
    Down,
    Right,
}

/// The heading that would reverse the given one on the same axis.
pub open spec fn opposite(d: Direction) -> Direction {
    match d {
        Direction::Up => Direction::Down,
        Direction::Down => Direction::Up,
        Direction::Left => Direction::Right,
        Direction::Right => Direction::Left,
    }
}

/// The row-major index of the cell a segment occupies on a grid with the
/// given number of columns.
pub open spec fn part_index(p: Part, columns: int) -> int {
    grid_index(p.col as int, p.row as int, columns)
}

/// The position one step from `head` in direction `d`, wrapping at the
/// edges of a grid of the given dimensions.
pub open spec fn stepped(head: Part, d: Direction, rows: int, columns: int) -> Part {
    match d {
        Direction::Up => Part {
            col: head.col,
            row: if head.row == 0 {
                (rows - 1) as usize
            } else {
                (head.row - 1) as usize
            },
        },
        Direction::Down => Part { col: head.col, row: ((head.row + 1) % rows) as usize },
        Direction::Left => Part {
            col: if head.col == 0 {
                (columns - 1) as usize
            } else {
                (head.col - 1) as usize
            },
            row: head.row,
        },
        Direction::Right => Part { col: ((head.col + 1) % columns) as usize, row: head.row },
    }
}

/// How one movement step in direction `d` relates the snake and the board
/// before and after. The head moves one cell in `d` with wraparound; when
/// the target cell holds a body segment the snake does not move and the
/// game ends instead; otherwise the new head is pushed on the front of
/// the body, the tail segment is dropped and its cell is cleared.
pub open spec fn advanced(pre_s: Snake, pre_b: Board, post_s: Snake, post_b: Board, d: Direction) -> bool {
    let nh = stepped(pre_s.parts@[0], d, pre_b.rows as int, pre_b.columns as int);
    let nidx = part_index(nh, pre_b.columns as int);
    let tidx = part_index(pre_s.parts@.last(), pre_b.columns as int);
    if pre_b.grid()[nidx] == CellType::Snake {
        &&& post_s == pre_s
        &&& post_b.rows == pre_b.rows
        &&& post_b.columns == pre_b.columns
        &&& post_b.cells@ == pre_b.cells@
        &&& post_b.paused == pre_b.paused
        &&& post_b.game_over
        &&& post_b.events@ == if pre_b.game_over {
            pre_b.events@
        } else {
            pre_b.events@.push(GameEvent::SnakeDied)
        }
    } else {
        &&& post_s.direction == pre_s.direction
        &&& post_s.parts@ == seq![nh] + pre_s.parts@.drop_last()
        &&& post_b.rows == pre_b.rows
        &&& post_b.columns == pre_b.columns
        &&& post_b.game_over == pre_b.game_over
        &&& post_b.paused == pre_b.paused
        &&& post_b.events@ == pre_b.events@
        &&& post_b.grid() == pre_b.grid().update(tidx, CellType::Empty)
    }
}

/// Wraparound at the grid edges: a head at column zero stepping left
/// reaches the last column and one at the last column stepping right
/// reaches column zero, and likewise for the top and bottom rows.
pub proof fn lemma_wraparound(head: Part, rows: int, columns: int)
    requires
        0 < rows <= usize::MAX,
        0 < columns <= usize::MAX,
        head.col < columns,
        head.row < rows,
    ensures
        head.col == 0 ==> stepped(head, Direction::Left, rows, columns).col == columns - 1,
        head.col == columns - 1 ==> stepped(head, Direction::Right, rows, columns).col == 0,
        head.row == 0 ==> stepped(head, Direction::Up, rows, columns).row == rows - 1,
        head.row == rows - 1 ==> stepped(head, Direction::Down, rows, columns).row == 0,
{
    if head.col == columns - 1 {
        vstd::arithmetic::div_mod::lemma_mod_self_0(columns);
    }
    if head.row == rows - 1 {
        vstd::arithmetic::div_mod::lemma_mod_self_0(rows);
    }
}

/// Self-collision: when a movement step would put the head on a cell
/// tagged as a body segment, the step leaves the snake exactly as it was
/// and ends the game instead.
pub proof fn lemma_self_collision(pre_s: Snake, pre_b: Board, post_s: Snake, post_b: Board, d: Direction)
    requires
        advanced(pre_s, pre_b, post_s, post_b, d),
        pre_b.grid()[part_index(
            stepped(pre_s.parts@[0], d, pre_b.rows as int, pre_b.columns as int),
            pre_b.columns as int,
        )] == CellType::Snake,
    ensures
        post_s == pre_s,
        post_b.game_over,
        post_b.cells@ == pre_b.cells@,
{
}

/// The grid after the segments from index `k` on are painted: segments
/// are written back to front, so the head (index 0) is written last and
/// tagged `SnakeHead`, every other segment `Snake`.
pub open spec fn painted_from(g: Seq<CellType>, parts: Seq<Part>, columns: int, k: int) -> Seq<
    CellType,
>
    decreases parts.len() - k,
{
    if k < 0 || k >= parts.len() {
        g
    } else {
        painted_from(g, parts, columns, k + 1).update(
            part_index(parts[k], columns),
            if k == 0 {
                CellType::SnakeHead
            } else {
                CellType::Snake
            },
        )
    }
}

/// The grid after the whole body is painted onto it.
pub open spec fn painted(g: Seq<CellType>, parts: Seq<Part>, columns: int) -> Seq<CellType> {
    painted_from(g, parts, columns, 0)
}

/// Painting never changes the length of the grid.
pub proof fn lemma_painted_from_len(g: Seq<CellType>, parts: Seq<Part>, columns: int, k: int)
    requires
        forall|m: int|
            0 <= m < parts.len() ==> 0 <= #[trigger] part_index(parts[m], columns) < g.len(),
    ensures
        painted_from(g, parts, columns, k).len() == g.len(),
    decreases parts.len() - k,
{
    if 0 <= k < parts.len() {
        lemma_painted_from_len(g, parts, columns, k + 1);
    }
}

/// Painting the segments from index `k` on leaves every cell that none
/// of them occupies as it was.
proof fn lemma_painted_from_preserves(
    g: Seq<CellType>,
    parts: Seq<Part>,
    columns: int,
    i: int,
    k: int,
)
    requires
        0 <= i < g.len(),
        forall|m: int|
            0 <= m < parts.len() ==> 0 <= #[trigger] part_index(parts[m], columns) < g.len(),
        forall|m: int| k <= m < parts.len() ==> #[trigger] part_index(parts[m], columns) != i,
    ensures
        painted_from(g, parts, columns, k)[i] == g[i],
    decreases parts.len() - k,
{
    if 0 <= k < parts.len() {
        lemma_painted_from_preserves(g, parts, columns, i, k + 1);
        lemma_painted_from_len(g, parts, columns, k + 1);
    }
}

/// Painting the body leaves every cell outside the body as it was.
pub proof fn lemma_painted_preserves_unoccupied(
    g: Seq<CellType>,
    parts: Seq<Part>,
    columns: int,
    i: int,
)
    requires
        0 <= i < g.len(),
        forall|m: int|
            0 <= m < parts.len() ==> 0 <= #[trigger] part_index(parts[m], columns) < g.len(),
        forall|m: int| 0 <= m < parts.len() ==> #[trigger] part_index(parts[m], columns) != i,
    ensures
        painted(g, parts, columns)[i] == g[i],
{
    lemma_painted_from_preserves(g, parts, columns, i, 0);
}

/// The head's cell is tagged `SnakeHead` after the body is painted, even
/// when another segment shares the head's position: the head is painted
/// last.
pub proof fn lemma_painted_head(g: Seq<CellType>, parts: Seq<Part>, columns: int)
    requires
        parts.len() >= 1,
        forall|m: int|
            0 <= m < parts.len() ==> 0 <= #[trigger] part_index(parts[m], columns) < g.len(),
    ensures
        painted(g, parts, columns)[part_index(parts[0], columns)] == CellType::SnakeHead,
{
    lemma_painted_from_len(g, parts, columns, 1);
}

/// A cell some segment from index `k` on occupies is tagged `Snake` or
/// `SnakeHead` after those segments are painted.
proof fn lemma_painted_from_covers(
    g: Seq<CellType>,
    parts: Seq<Part>,
    columns: int,
    i: int,
    k: int,
)
    requires
        0 <= k,
        0 <= i < g.len(),
        forall|m: int|
            0 <= m < parts.len() ==> 0 <= #[trigger] part_index(parts[m], columns) < g.len(),
        exists|j: int| k <= j < parts.len() && #[trigger] part_index(parts[j], columns) == i,
    ensures
        painted_from(g, parts, columns, k)[i] == CellType::Snake || painted_from(
            g,
            parts,
            columns,
            k,
        )[i] == CellType::SnakeHead,
    decreases parts.len() - k,
{
    let j: int = choose|j: int| k <= j < parts.len() && #[trigger] part_index(parts[j], columns) == i;
    lemma_painted_from_len(g, parts, columns, k + 1);
    if part_index(parts[k], columns) != i {
        assert(k + 1 <= j);
        lemma_painted_from_covers(g, parts, columns, i, k + 1);
    }
}

/// Every cell the body occupies is tagged `Snake` or `SnakeHead` after
/// the body is painted.
pub proof fn lemma_painted_covers_body(g: Seq<CellType>, parts: Seq<Part>, columns: int, m: int)
    requires
        0 <= m < parts.len(),
        forall|j: int|
            0 <= j < parts.len() ==> 0 <= #[trigger] part_index(parts[j], columns) < g.len(),
    ensures
        painted(g, parts, columns)[part_index(parts[m], columns)] == CellType::Snake || painted(
            g,
            parts,
            columns,
        )[part_index(parts[m], columns)] == CellType::SnakeHead,
{
    lemma_painted_from_covers(g, parts, columns, part_index(parts[m], columns), 0);
}

/// Fresh food stays visible through a repaint: when the food lands on a
/// cell that was empty while every body segment sits on a cell that is
/// not, painting the body afterwards leaves the food cell tagged `Food`.
pub proof fn lemma_fresh_food_survives_paint(
    g: Seq<CellType>,
    parts: Seq<Part>,
    columns: int,
    f: int,
)
    requires
        0 <= f < g.len(),
        g[f] == CellType::Empty,
        forall|m: int|
            0 <= m < parts.len() ==> 0 <= #[trigger] part_index(parts[m], columns) < g.len(),
        forall|m: int|
            0 <= m < parts.len() ==> g[#[trigger] part_index(parts[m], columns)]
                != CellType::Empty,
    ensures
        painted(g.update(f, CellType::Food), parts, columns)[f] == CellType::Food,
{
    assert forall|m: int| 0 <= m < parts.len() implies #[trigger] part_index(parts[m], columns)
        != f by {
        assert(g[part_index(parts[m], columns)] != CellType::Empty);
    }
    lemma_painted_from_preserves(g.update(f, CellType::Food), parts, columns, f, 0);
}

/// The body segments, head first, and the current heading.
pub struct Snake {
    pub direction: Direction,
    pub parts: Vec<Part>,
}

impl Snake {
    /// The body is never empty.
    pub open spec fn wf(self) -> bool {
        self.parts@.len() >= 1
    }

    /// Every segment lies on the given board's grid.
    pub open spec fn in_bounds(self, b: Board) -> bool {
        forall|i: int|
            0 <= i < self.parts@.len() ==> (#[trigger] self.parts@[i]).col < b.columns
                && self.parts@[i].row < b.rows
    }

    /// The starting configuration: four segments in row 2, head at
    /// column 5 and the body trailing left to column 2.
    pub open spec fn start_parts() -> Seq<Part> {
        seq![
            Part { col: 5, row: 2 },
            Part { col: 4, row: 2 },
            Part { col: 3, row: 2 },
            Part { col: 2, row: 2 },
        ]
    }

    /// Creates the snake in its starting configuration, heading right.
    pub fn new() -> (s: Snake)
        ensures
            s.wf(),
            s.parts@ == Snake::start_parts(),
            s.direction == Direction::Right,
    {
        let mut parts: Vec<Part> = Vec::new();
        parts.push(Part { col: 5, row: 2 });
        parts.push(Part { col: 4, row: 2 });
        parts.push(Part { col: 3, row: 2 });
        parts.push(Part { col: 2, row: 2 });
        proof {
            assert(parts@ =~= Snake::start_parts());
        }
        Snake { parts, direction: Direction::Right }
    }

    /// Restores the starting configuration in place, whatever the state.
    pub fn reset(&mut self)
        ensures
            final(self).wf(),
            final(self).parts@ == Snake::start_parts(),
            final(self).direction == Direction::Right,
    {
        self.parts.clear();
        self.parts.push(Part { col: 5, row: 2 });
        self.parts.push(Part { col: 4, row: 2 });
        self.parts.push(Part { col: 3, row: 2 });
        self.parts.push(Part { col: 2, row: 2 });
        self.direction = Direction::Right;
        proof {
            assert(self.parts@ =~= Snake::start_parts());
        }
    }

    /// Removes the tail segment, if any, and clears its cell on the board.
    pub fn pop_end(&mut self, board: &mut Board)
        requires
            old(board).wf(),
            old(self).in_bounds(*old(board)),
        ensures
            final(board).wf(),
            final(self).in_bounds(*final(board)),
            final(self).direction == old(self).direction,
            final(board).rows == old(board).rows,
            final(board).columns == old(board).columns,
            final(board).game_over == old(board).game_over,
            final(board).paused == old(board).paused,
            final(board).events@ == old(board).events@,
            old(self).parts@.len() == 0 ==> final(self).parts@ == old(self).parts@
                && final(board).cells@ == old(board).cells@,
            old(self).parts@.len() >= 1 ==> final(self).parts@ == old(self).parts@.drop_last()
                && final(board).grid() == old(board).grid().update(
                part_index(old(self).parts@.last(), old(board).columns as int),
                CellType::Empty,
            ),
    {
        match self.parts.pop() {
            Some(cell) => {
                board.set_cell(cell.col, cell.row, CellType::Empty);
            },
            None => {},
        };
    }

    /// One step up: the head moves to the row above, wrapping to the
    /// bottom row from row zero; a step onto a body cell ends the game
    /// and leaves the body unchanged.
    pub fn move_up(&mut self, board: &mut Board)
        requires
            old(self).wf(),
            old(board).wf(),
            old(self).in_bounds(*old(board)),
        ensures
            final(self).wf(),
            final(board).wf(),
            final(self).in_bounds(*final(board)),
            advanced(*old(self), *old(board), *final(self), *final(board), Direction::Up),
    {
        let head = self.parts[0];
        let new_head = Part {
            col: head.col,
            row: if head.row == 0 {
                board.rows() - 1
            } else {
                head.row - 1
            },
        };

        if board.is_snake(new_head.col, new_head.row) {
            board.end_game();
            return ;
        }

        self.parts.insert(0, new_head);
        self.pop_end(board);
        proof {
            assert(self.parts@ =~= seq![new_head] + old(self).parts@.drop_last());
        }
    }

    /// One step down: the head moves to the row below, wrapping to row
    /// zero past the bottom row; a step onto a body cell ends the game
    /// and leaves the body unchanged.
    pub fn move_down(&mut self, board: &mut Board)
        requires
            old(self).wf(),
            old(board).wf(),
            old(self).in_bounds(*old(board)),
        ensures
            final(self).wf(),
            final(board).wf(),
            final(self).in_bounds(*final(board)),
            advanced(*old(self), *old(board), *final(self), *final(board), Direction::Down),
    {
        let head = self.parts[0];
        let new_head = Part { col: head.col, row: (head.row + 1) % board.rows() };

        if board.is_snake(new_head.col, new_head.row) {
            board.end_game();
            return ;
        }

        self.parts.insert(0, new_head);
        self.pop_end(board);
        proof {
            assert(self.parts@ =~= seq![new_head] + old(self).parts@.drop_last());
        }
    }

    /// One step left: the head moves to the column on its left, wrapping
    /// to the last column from column zero; a step onto a body cell ends
    /// the game and leaves the body unchanged.
    pub fn move_left(&mut self, board: &mut Board)
        requires
            old(self).wf(),
            old(board).wf(),
            old(self).in_bounds(*old(board)),
        ensures
            final(self).wf(),
            final(board).wf(),
            final(self).in_bounds(*final(board)),
            advanced(*old(self), *old(board), *final(self), *final(board), Direction::Left),
    {
        let head = self.parts[0];
        let new_head = Part {
            col: if head.col == 0 {
                board.columns() - 1
            } else {
                head.col - 1
            },
            row: head.row,
        };

        if board.is_snake(new_head.col, new_head.row) {
            board.end_game();
            return ;
        }

        self.parts.insert(0, new_head);
        self.pop_end(board);
        proof {
            assert(self.parts@ =~= seq![new_head] + old(self).parts@.drop_last());
        }
    }

    /// One step right: the head moves to the column on its right,
    /// wrapping to column zero past the last column; a step onto a body
    /// cell ends the game and leaves the body unchanged.
    pub fn move_right(&mut self, board: &mut Board)
        requires
            old(self).wf(),
            old(board).wf(),
            old(self).in_bounds(*old(board)),
        ensures
            final(self).wf(),
            final(board).wf(),
            final(self).in_bounds(*final(board)),
            advanced(*old(self), *old(board), *final(self), *final(board), Direction::Right),
    {
        let head = self.parts[0];
        let new_head = Part { col: (head.col + 1) % board.columns(), row: head.row };

        if board.is_snake(new_head.col, new_head.row) {
            board.end_game();
            return ;
        }

        self.parts.insert(0, new_head);
        self.pop_end(board);
        proof {
            assert(self.parts@ =~= seq![new_head] + old(self).parts@.drop_last());
        }
    }

    /// Duplicates the tail segment and paints it on the board, so the
    /// body lengthens by one without moving the head.
    pub fn grow(&mut self, board: &mut Board)
        requires
            old(self).wf(),
            old(board).wf(),
            old(self).in_bounds(*old(board)),
        ensures
            final(self).wf(),
            final(board).wf(),
            final(self).in_bounds(*final(board)),
            final(self).parts@ == old(self).parts@.push(old(self).parts@.last()),
            final(self).direction == old(self).direction,
            final(board).rows == old(board).rows,
            final(board).columns == old(board).columns,
            final(board).game_over == old(board).game_over,
            final(board).paused == old(board).paused,
            final(board).events@ == old(board).events@,
            final(board).grid() == old(board).grid().update(
                part_index(old(self).parts@.last(), old(board).columns as int),
                CellType::Snake,
            ),
    {
        let tail = self.parts[self.parts.len() - 1];
        board.set_cell(tail.col, tail.row, CellType::Snake);
        self.parts.push(tail);
    }

    /// Adopts the requested heading unless it is the exact opposite of
    /// the current one, which is silently ignored; an accepted request
    /// queues the direction-changed event.
    pub fn change_direction(&mut self, dir: Direction, board: &mut Board)
        ensures
            final(self).parts@ == old(self).parts@,
            final(self).direction == if dir == opposite(old(self).direction) {
                old(self).direction
            } else {
                dir
            },
            final(board).rows == old(board).rows,
            final(board).columns == old(board).columns,
            final(board).cells@ == old(board).cells@,
            final(board).game_over == old(board).game_over,
            final(board).paused == old(board).paused,
            final(board).events@ == if dir == opposite(old(self).direction) {
                old(board).events@
            } else {
                old(board).events@.push(GameEvent::SnakeChangedDirection)
            },
    {
        let accepted = match self.direction {
            Direction::Up => dir != Direction::Down,
            Direction::Down => dir != Direction::Up,
            Direction::Left => dir != Direction::Right,
            Direction::Right => dir != Direction::Left,
        };
        if accepted {
            self.direction = dir;
            board.change_direction_event();
        }
    }

    /// Paints the body onto the board, head tagged `SnakeHead` and every
    /// other segment `Snake`. Before painting it checks the head's cell:
    /// when the head sits on food the tail segment is duplicated, fresh
    /// food is placed on a random empty cell and the food-eaten event is
    /// queued. The precondition asks for an empty cell beyond the tail's
    /// whenever the head sits on food, so fresh food can be placed.
    pub fn update(&mut self, board: &mut Board)
        requires
            old(self).wf(),
            old(board).wf(),
            old(self).in_bounds(*old(board)),
            old(board).grid()[part_index(old(self).parts@[0], old(board).columns as int)]
                == CellType::Food ==> exists|i: int|
                0 <= i < old(board).grid().len() && i != part_index(
                    old(self).parts@.last(),
                    old(board).columns as int,
                ) && old(board).grid()[i] == CellType::Empty,
        ensures
            final(self).wf(),
            final(board).wf(),
            final(self).in_bounds(*final(board)),
            final(self).direction == old(self).direction,
            final(board).rows == old(board).rows,
            final(board).columns == old(board).columns,
            final(board).game_over == old(board).game_over,
            final(board).paused == old(board).paused,
            old(board).grid()[part_index(old(self).parts@[0], old(board).columns as int)]
                != CellType::Food ==> final(self).parts@ == old(self).parts@
                && final(board).events@ == old(board).events@ && final(board).grid() == painted(
                old(board).grid(),
                old(self).parts@,
                old(board).columns as int,
            ),
            old(board).grid()[part_index(old(self).parts@[0], old(board).columns as int)]
                == CellType::Food ==> final(self).parts@ == old(self).parts@.push(
                old(self).parts@.last(),
            ) && final(board).events@ == old(board).events@.push(GameEvent::FoodEaten) && exists|
                f: int,
            |
                0 <= f < old(board).grid().len() && old(board).grid().update(
                    part_index(old(self).parts@.last(), old(board).columns as int),
                    CellType::Snake,
                )[f] == CellType::Empty && final(board).grid() == painted(
                    old(board).grid().update(
                        part_index(old(self).parts@.last(), old(board).columns as int),
                        CellType::Snake,
                    ).update(f, CellType::Food),
                    old(self).parts@.push(old(self).parts@.last()),
                    old(board).columns as int,
                ),
    {
        let head = self.parts[0];
        if board.is_food(head.col, head.row) {
            self.grow(board);
            proof {
                let tail = old(self).parts@.last();
                assert(old(self).parts@[old(self).parts@.len() - 1].col < old(board).columns);
                crate::board::lemma_grid_index_bounds(
                    tail.col as int,
                    tail.row as int,
                    old(board).rows as int,
                    old(board).columns as int,
                );
                let w = choose|i: int|
                    0 <= i < old(board).grid().len() && i != part_index(
                        old(self).parts@.last(),
                        old(board).columns as int,
                    ) && old(board).grid()[i] == CellType::Empty;
                assert(board.grid()[w] == CellType::Empty);
            }
            board.generate_food();
            board.food_eaten_event();
        }
        let ghost s1 = *self;
        let ghost b1 = *board;
        let mut i: usize = self.parts.len();
        while i > 0
            invariant
                *self == s1,
                self.wf(),
                board.wf(),
                self.in_bounds(*board),
                i <= self.parts@.len(),
                board.rows == b1.rows,
                board.columns == b1.columns,
                board.game_over == b1.game_over,
                board.paused == b1.paused,
                board.events@ == b1.events@,
                board.grid() == painted_from(b1.grid(), s1.parts@, b1.columns as int, i as int),
            decreases i,
        {
            i = i - 1;
            let p = self.parts[i];
            if i == 0 {
                board.set_cell(p.col, p.row, CellType::SnakeHead);
            } else {
                board.set_cell(p.col, p.row, CellType::Snake);
            }
        }
    }

    /// One movement step in the current heading.
    pub fn update_movement(&mut self, board: &mut Board)
        requires
            old(self).wf(),
            old(board).wf(),
            old(self).in_bounds(*old(board)),
        ensures
            final(self).wf(),
            final(board).wf(),
            final(self).in_bounds(*final(board)),
            advanced(
                *old(self),
                *old(board),
                *final(self),
                *final(board),
                old(self).direction,
            ),
    {
        match self.direction {
            Direction::Up => self.move_up(board),
            Direction::Down => self.move_down(board),
            Direction::Left => self.move_left(board),
            Direction::Right => self.move_right(board),
        };
    }

    /// The current heading, read-only.
    pub fn direction(&self) -> (d: &Direction)
        ensures
            *d == self.direction,
    {
        &self.direction
    }

    /// The number of food items eaten so far: the body length beyond the
    /// four starting segments.
    pub fn score(&self) -> (s: usize)
        requires
            self.parts@.len() >= 4,
        ensures
            s == self.parts@.len() - 4,
    {
        self.parts.len() - 4
    }
}

} // verus!
