use vstd::prelude::*;
use crate::cell::{CellType, is_block, row_full, empty_row, empty_grid};
use crate::errors::SpawnError;

verus! {

/// The falling piece: its own grid of cells (empty cells are transparent) and
/// the board position (`row`, `col`) of its local (0, 0) cell.
pub struct PieceModel {
    pub cells: Seq<Seq<CellType>>,
    pub row: nat,
    pub col: nat,
}

/// What a board is: its size, its grid of placed cells (row 0 on top), its
/// score and the falling piece, if any.
pub struct BoardModel {
    pub width: nat,
    pub height: nat,
    pub grid: Seq<Seq<CellType>>,
    pub score: u32,
    pub piece: Option<PieceModel>,
}

/// Whether the cell of `cells` at local position (`r`, `c`) exists and is solid.
pub open spec fn solid(cells: Seq<Seq<CellType>>, r: int, c: int) -> bool {
    0 <= r < cells.len() && 0 <= c < cells[r].len() && is_block(cells[r][c])
}

/// The piece one row lower. Its origin row is a `usize`, so at the largest
/// `usize` it stays where it is; only a piece with no solid cell, which never
/// grounds, can fall that far.
pub open spec fn moved_down(p: PieceModel) -> PieceModel {
    if p.row < usize::MAX {
        PieceModel { row: p.row + 1, ..p }
    } else {
        p
    }
}

/// Whether a solid cell of the piece lies over board position (`row`, `col`).
pub open spec fn covers(p: PieceModel, row: int, col: int) -> bool {
    solid(p.cells, row - p.row, col - p.col)
}

/// The rows of `grid` that are not full, in their order.
pub open spec fn kept_rows(grid: Seq<Seq<CellType>>) -> Seq<Seq<CellType>> {
    grid.filter(|row: Seq<CellType>| !row_full(row))
}

/// The rows of `grid` that are full, in their order.
pub open spec fn full_rows(grid: Seq<Seq<CellType>>) -> Seq<Seq<CellType>> {
    grid.filter(|row: Seq<CellType>| row_full(row))
}

/// How many rows of `grid` are full.
pub open spec fn full_row_count(grid: Seq<Seq<CellType>>) -> nat {
    full_rows(grid).len()
}

/// `grid` after every full row has been cleared: the rows that are not full,
/// in their order, below one new empty row for each row removed.
pub open spec fn collapse(grid: Seq<Seq<CellType>>, width: nat) -> Seq<Seq<CellType>> {
    empty_grid(width, full_row_count(grid)) + kept_rows(grid)
}

/// Points for clearing `n` rows in one tick.
pub open spec fn line_points(n: nat) -> nat {
    if n == 0 {
        0
    } else if n == 1 {
        40
    } else if n == 2 {
        100
    } else if n == 3 {
        300
    } else if n == 4 {
        1200
    } else {
        (1200 * (n - 3)) as nat
    }
}

/// `score` raised by `points`, held at the largest `u32`.
pub open spec fn add_score(score: u32, points: nat) -> u32 {
    if score + points > u32::MAX {
        u32::MAX
    } else {
        (score + points) as u32
    }
}

/// A fresh board: all cells empty, score 0, no piece.
pub open spec fn new_board(width: nat, height: nat) -> BoardModel {
    BoardModel { width, height, grid: empty_grid(width, height), score: 0, piece: None }
}

impl BoardModel {
    /// Whether (`row`, `col`) lies on the board.
    pub open spec fn in_grid(self, row: int, col: int) -> bool {
        0 <= row < self.height && 0 <= col < self.width
    }

    /// Whether (`row`, `col`) lies on the board and holds a placed block.
    pub open spec fn is_placed_block(self, row: int, col: int) -> bool {
        self.in_grid(row, col) && is_block(self.grid[row][col])
    }

    /// The grid has `height` rows of `width` cells each, both non-zero and
    /// each at most the largest `usize`.
    pub open spec fn dims_ok(self) -> bool {
        &&& 0 < self.width <= usize::MAX
        &&& 0 < self.height <= usize::MAX
        &&& self.grid.len() == self.height
        &&& forall|r: int| 0 <= r < self.height ==> (#[trigger] self.grid[r]).len() == self.width
    }

    /// The board's invariant: its dimensions hold, no full row is left in the
    /// grid, and every solid cell of the falling piece lies on the board.
    pub open spec fn is_valid(self) -> bool {
        &&& self.dims_ok()
        &&& forall|r: int| 0 <= r < self.height ==> !row_full(#[trigger] self.grid[r])
        &&& self.piece matches Some(p) ==> self.on_board(p)
    }

    /// Every solid cell of the piece lies on the board.
    pub open spec fn on_board(self, p: PieceModel) -> bool {
        forall|r: int, c: int|
            #[trigger] solid(p.cells, r, c) ==> self.in_grid(p.row + r, p.col + c)
    }

    /// The cell shown at (`row`, `col`): a solid cell of the falling piece
    /// where one lies there, else the grid's own cell.
    pub open spec fn visible(self, row: int, col: int) -> CellType {
        match self.piece {
            Some(p) => if covers(p, row, col) {
                p.cells[row - p.row][col - p.col]
            } else {
                self.grid[row][col]
            },
            None => self.grid[row][col],
        }
    }

    /// Every solid cell of `cells`, with its local (0, 0) put at (`row`, `col`),
    /// lands on the board on an empty cell.
    pub open spec fn has_room(self, cells: Seq<Seq<CellType>>, row: int, col: int) -> bool {
        forall|r: int, c: int|
            #[trigger] solid(cells, r, c) ==> self.in_grid(row + r, col + c) && self.grid[row
                + r][col + c] == CellType::Empty
    }

    /// The piece can fall no further: below one of its solid cells lies the
    /// floor or a placed block. A piece with no solid cell is never grounded.
    pub open spec fn grounded(self, p: PieceModel) -> bool {
        exists|r: int, c: int|
            #[trigger] solid(p.cells, r, c) && (p.row + r + 1 >= self.height
                || self.is_placed_block(p.row + r + 1, p.col + c))
    }

    /// A solid cell of the piece lies over a placed block at (`row`, `col`).
    pub open spec fn conflict_at(self, p: PieceModel, row: int, col: int) -> bool {
        covers(p, row, col) && self.is_placed_block(row, col)
    }

    /// Some solid cell of the piece lies over a placed block.
    pub open spec fn has_conflict(self, p: PieceModel) -> bool {
        exists|r: int, c: int|
            #[trigger] solid(p.cells, r, c) && self.is_placed_block(p.row + r, p.col + c)
    }

    /// The grid with the falling piece's solid cells written into it.
    pub open spec fn merged_grid(self) -> Seq<Seq<CellType>> {
        Seq::new(self.height, |r: int| Seq::new(self.width, |c: int| self.visible(r, c)))
    }

    /// `clear_row(row)`: the row is removed and an empty row is put on top.
    pub open spec fn after_clear_row(self, row: int) -> BoardModel {
        BoardModel { grid: seq![empty_row(self.width)] + self.grid.remove(row), ..self }
    }

    /// The outcome of `spawn(cells, col)`.
    pub open spec fn spawn_result(self, cells: Seq<Seq<CellType>>, col: nat) -> Result<
        (),
        SpawnError,
    > {
        if self.piece is Some {
            Err(SpawnError::LiveTetrominoExists)
        } else if !self.has_room(cells, 0, col as int) {
            Err(SpawnError::NoRoom)
        } else {
            Ok(())
        }
    }

    /// The board after a successful `spawn(cells, col)`.
    pub open spec fn after_spawn(self, cells: Seq<Seq<CellType>>, col: nat) -> BoardModel {
        BoardModel { piece: Some(PieceModel { cells, row: 0, col }), ..self }
    }

    /// `update` fails only where a grounded piece would overwrite a placed block.
    pub open spec fn update_fails(self) -> bool {
        match self.piece {
            Some(p) => self.grounded(p) && self.has_conflict(p),
            None => false,
        }
    }

    /// The board after a successful `update`: without a piece, unchanged; a
    /// piece that is not grounded moves down one row (see `moved_down`); a
    /// grounded one is merged
    /// into the grid, the full rows are cleared and the score rises by the
    /// points for their number.
    pub open spec fn after_update(self) -> BoardModel {
        match self.piece {
            None => self,
            Some(p) => if !self.grounded(p) {
                BoardModel { piece: Some(moved_down(p)), ..self }
            } else {
                let g = self.merged_grid();
                BoardModel {
                    grid: collapse(g, self.width),
                    score: add_score(self.score, line_points(full_row_count(g))),
                    piece: None,
                    ..self
                }
            },
        }
    }
}


/// The rows of a grid of cells, as sequences.
pub open spec fn rows_of(v: &Vec<Vec<CellType>>) -> Seq<Seq<CellType>> {
    v@.map_values(|row: Vec<CellType>| row@)
}


/// Adding a row to a grid keeps it among the kept rows exactly when it is not full.
pub proof fn lemma_kept_rows_push(s: Seq<Seq<CellType>>, x: Seq<CellType>)
    ensures
        kept_rows(s.push(x)) == if row_full(x) {
            kept_rows(s)
        } else {
            kept_rows(s).push(x)
        },
{
    reveal(Seq::filter);
    assert(s.push(x).drop_last() =~= s);
}

/// Each row of a grid is either kept or full.
pub proof fn lemma_kept_and_full(g: Seq<Seq<CellType>>)
    ensures
        kept_rows(g).len() + full_row_count(g) == g.len(),
    decreases g.len(),
{
    reveal(Seq::filter);
    if g.len() > 0 {
        lemma_kept_and_full(g.drop_last());
    }
}

/// The rows kept by a clear all have `width` cells and none of them is full.
pub proof fn lemma_kept_rows_shape(g: Seq<Seq<CellType>>, width: nat)
    requires
        forall|r: int| 0 <= r < g.len() ==> (#[trigger] g[r]).len() == width,
    ensures
        kept_rows(g).len() <= g.len(),
        forall|r: int|
            0 <= r < kept_rows(g).len() ==> (#[trigger] kept_rows(g)[r]).len() == width
                && !row_full(kept_rows(g)[r]),
    decreases g.len(),
{
    if g.len() > 0 {
        let s = g.drop_last();
        lemma_kept_rows_shape(s, width);
        lemma_kept_rows_push(s, g.last());
        assert(s.push(g.last()) =~= g);
    }
}

/// An empty row of positive width is not full.
pub proof fn lemma_empty_row_not_full(width: nat)
    requires
        width > 0,
    ensures
        !row_full(empty_row(width)),
        empty_row(width).len() == width,
{
    assert(!is_block(empty_row(width)[0]));
}

/// A clear of a valid grid has its dimensions and no full row.
pub proof fn lemma_collapse_shape(g: Seq<Seq<CellType>>, width: nat)
    requires
        width > 0,
        forall|r: int| 0 <= r < g.len() ==> (#[trigger] g[r]).len() == width,
    ensures
        collapse(g, width).len() == g.len(),
        forall|r: int|
            0 <= r < g.len() ==> (#[trigger] collapse(g, width)[r]).len() == width
                && !row_full(collapse(g, width)[r]),
{
    lemma_kept_rows_shape(g, width);
    lemma_kept_and_full(g);
    lemma_empty_row_not_full(width);
    let n = full_row_count(g);
    let k = kept_rows(g);
    assert forall|r: int| 0 <= r < g.len() implies (#[trigger] collapse(g, width)[r]).len()
        == width && !row_full(collapse(g, width)[r]) by {
        if r < n {
            assert(collapse(g, width)[r] == empty_row(width));
        } else {
            assert(collapse(g, width)[r] == k[r - n]);
        }
    }
}

impl BoardModel {
    /// Clearing a row keeps a valid board valid.
    pub proof fn lemma_clear_row_valid(self, row: int)
        requires
            self.is_valid(),
            0 <= row < self.height,
        ensures
            self.after_clear_row(row).is_valid(),
    {
        let b = self.after_clear_row(row);
        lemma_empty_row_not_full(self.width);
        assert forall|r: int| 0 <= r < self.height implies (#[trigger] b.grid[r]).len()
            == self.width && !row_full(b.grid[r]) by {
            if r == 0 {
            } else if r - 1 < row {
                assert(b.grid[r] == self.grid[r - 1]);
            } else {
                assert(b.grid[r] == self.grid[r]);
            }
        }
    }

    /// A successful spawn keeps a valid board valid.
    pub proof fn lemma_spawn_valid(self, cells: Seq<Seq<CellType>>, col: nat)
        requires
            self.is_valid(),
            self.spawn_result(cells, col) is Ok,
        ensures
            self.after_spawn(cells, col).is_valid(),
    {
    }

    /// A successful update keeps a valid board valid.
    pub proof fn lemma_update_valid(self)
        requires
            self.is_valid(),
            !self.update_fails(),
        ensures
            self.after_update().is_valid(),
    {
        match self.piece {
            None => {},
            Some(p) => {
                if !self.grounded(p) {
                    let q = moved_down(p);
                    assert forall|r: int, c: int| #[trigger] solid(q.cells, r, c) implies self.in_grid(
                        q.row + r,
                        q.col + c,
                    ) by {
                        assert(solid(p.cells, r, c));
                    }
                } else {
                    let g = self.merged_grid();
                    assert forall|r: int| 0 <= r < g.len() implies (#[trigger] g[r]).len()
                        == self.width by {}
                    lemma_collapse_shape(g, self.width);
                }
            },
        }
    }
}


/// The rows of a vector of rows are its elements' views.
pub proof fn lemma_rows_of(v: &Vec<Vec<CellType>>)
    ensures
        rows_of(v).len() == v@.len(),
        forall|i: int| 0 <= i < v@.len() ==> #[trigger] rows_of(v)[i] == v@[i]@,
{
}

/// A fresh board of positive size is valid.
pub proof fn lemma_new_board_valid(width: nat, height: nat)
    requires
        0 < width <= usize::MAX,
        0 < height <= usize::MAX,
    ensures
        new_board(width, height).is_valid(),
{
    lemma_empty_row_not_full(width);
    let b = new_board(width, height);
    assert forall|r: int| 0 <= r < height implies (#[trigger] b.grid[r]).len() == width
        && !row_full(b.grid[r]) by {
        assert(b.grid[r] == empty_row(width));
    }
}

/// One step of the top-down clearing scan: before it the grid is `n` empty
/// rows, the kept rows of the first `i` rows and the rest as it was; after
/// it, the same holds of `i + 1`, whether row `i` was full and cleared or not.
pub proof fn lemma_scan_step(g0: Seq<Seq<CellType>>, i: int, n: nat, width: nat)
    requires
        0 <= i < g0.len(),
        kept_rows(g0.take(i)).len() + n == i,
    ensures
        (empty_grid(width, n) + kept_rows(g0.take(i)) + g0.skip(i))[i] == g0[i],
        row_full(g0[i]) ==> seq![empty_row(width)] + (empty_grid(width, n) + kept_rows(
            g0.take(i),
        ) + g0.skip(i)).remove(i) == empty_grid(width, n + 1) + kept_rows(g0.take(i + 1))
            + g0.skip(i + 1),
        !row_full(g0[i]) ==> empty_grid(width, n) + kept_rows(g0.take(i)) + g0.skip(i)
            == empty_grid(width, n) + kept_rows(g0.take(i + 1)) + g0.skip(i + 1),
{
    let k = kept_rows(g0.take(i));
    let cur = empty_grid(width, n) + k + g0.skip(i);
    assert(g0.take(i).push(g0[i]) =~= g0.take(i + 1));
    lemma_kept_rows_push(g0.take(i), g0[i]);
    assert(cur[i] == g0.skip(i)[0]);
    if row_full(g0[i]) {
        assert(seq![empty_row(width)] + cur.remove(i) =~= empty_grid(width, n + 1) + kept_rows(
            g0.take(i + 1),
        ) + g0.skip(i + 1));
    } else {
        assert(cur =~= empty_grid(width, n) + kept_rows(g0.take(i + 1)) + g0.skip(i + 1));
    }
}

} // verus!
