use vstd::prelude::*;
use crate::board_trait::ITetrisBoard;
use crate::cell::{CellType, is_block, row_full, row_empty, empty_row, empty_grid};
use crate::errors::{CellExistsError, DegenerateGridError, OutsideGridError, SpawnError};
use crate::model::{
    BoardModel, PieceModel, covers, solid, rows_of, new_board, kept_rows, full_row_count, collapse,
    line_points, lemma_scan_step, lemma_rows_of, lemma_new_board_valid, lemma_kept_and_full,
};

verus! {

/// A game of Tetris: a piece is spawned at the top of a grid of cells, falls
/// one row per update until it rests on the floor or on placed blocks, and is
/// then placed; full rows are cleared and scored.
pub struct TetrisBoard {
    score: u32,
    width: usize,
    grid: Vec<Vec<CellType>>,
    tetromino_blocks: Option<Vec<Vec<CellType>>>,
    tetromino_pos: (usize, usize),
}

/// Whether every cell of `row` is a block.
fn row_is_full(row: &Vec<CellType>) -> (r: bool)
    ensures
        r == row_full(row@),
{
    let mut i: usize = 0;
    while i < row.len()
        invariant
            i <= row@.len(),
            forall|c: int| 0 <= c < i ==> is_block(#[trigger] row@[c]),
        decreases row@.len() - i,
    {
        if !row[i].is_block() {
            return false;
        }
        i = i + 1;
    }
    true
}

/// Whether every cell of `row` is empty.
fn row_is_empty(row: &Vec<CellType>) -> (r: bool)
    ensures
        r == row_empty(row@),
{
    let mut i: usize = 0;
    while i < row.len()
        invariant
            i <= row@.len(),
            forall|c: int| 0 <= c < i ==> #[trigger] row@[c] == CellType::Empty,
        decreases row@.len() - i,
    {
        if row[i] != CellType::Empty {
            return false;
        }
        i = i + 1;
    }
    true
}

/// Removes row `row` of `grid` and puts a row of `width` empty cells on top.
fn remove_and_top_up(grid: &mut Vec<Vec<CellType>>, row: usize, width: usize)
    requires
        row < old(grid)@.len(),
    ensures
        rows_of(final(grid)) == seq![empty_row(width as nat)] + rows_of(old(grid)).remove(row as int),
{
    let ghost before = rows_of(grid);
    grid.remove(row);
    let top = TetrisBoard::empty_row(width);
    grid.insert(0, top);
    assert(rows_of(grid) =~= seq![empty_row(width as nat)] + before.remove(row as int));
}

/// Clears every full row of `grid`, scanning from the top, and returns how
/// many were cleared.
fn collapse_full_rows(grid: &mut Vec<Vec<CellType>>, width: usize) -> (n: usize)
    ensures
        rows_of(final(grid)) == collapse(rows_of(old(grid)), width as nat),
        n == full_row_count(rows_of(old(grid))),
{
    let ghost g0 = rows_of(grid);
    let mut i: usize = 0;
    let mut n: usize = 0;
    proof {
        reveal(Seq::filter);
        assert(g0.take(0) =~= Seq::<Seq<CellType>>::empty());
        assert(rows_of(grid) =~= empty_grid(width as nat, 0) + kept_rows(g0.take(0)) + g0.skip(0));
    }
    while i < grid.len()
        invariant
            grid@.len() == g0.len(),
            i <= g0.len(),
            rows_of(grid) == empty_grid(width as nat, n as nat) + kept_rows(g0.take(i as int))
                + g0.skip(i as int),
            kept_rows(g0.take(i as int)).len() + n == i,
        decreases g0.len() - i,
    {
        proof {
            lemma_scan_step(g0, i as int, n as nat, width as nat);
            lemma_rows_of(grid);
            assert(rows_of(grid)[i as int] == g0[i as int]);
        }
        if row_is_full(&grid[i]) {
            remove_and_top_up(grid, i, width);
            n = n + 1;
        }
        proof {
            lemma_rows_of(grid);
        }
        i = i + 1;
    }
    proof {
        assert(g0.take(g0.len() as int) =~= g0);
        lemma_kept_and_full(g0);
        assert(rows_of(grid) =~= collapse(g0, width as nat));
    }
    n
}

/// Points for clearing `n` rows in one tick, held at the largest `u32`.
fn line_clear_points(n: usize) -> (r: u32)
    ensures
        r == if line_points(n as nat) > u32::MAX {
            u32::MAX as nat
        } else {
            line_points(n as nat)
        },
{
    if n == 0 {
        0
    } else if n == 1 {
        40
    } else if n == 2 {
        100
    } else if n == 3 {
        300
    } else if n == 4 {
        1200
    } else if n - 3 > 3579139 {
        u32::MAX
    } else {
        1200 * ((n - 3) as u32)
    }
}

impl TetrisBoard {
    /// A `width` by `height` board of empty cells, with score 0 and no piece.
    pub fn new(width: usize, height: usize) -> (r: Result<TetrisBoard, DegenerateGridError>)
        ensures
            r is Ok <==> width > 0 && height > 0,
            r matches Ok(b) ==> b.board().is_valid() && b.board() == new_board(
                width as nat,
                height as nat,
            ),
            r matches Err(e) ==> e == (DegenerateGridError { width, height }),
    {
        if width == 0 || height == 0 {
            return Err(DegenerateGridError { width, height });
        }
        let b = TetrisBoard {
            score: 0,
            width,
            grid: TetrisBoard::empty_board(width, height),
            tetromino_blocks: None,
            tetromino_pos: (0, 0),
        };
        proof {
            lemma_rows_of(&b.grid);
            lemma_new_board_valid(width as nat, height as nat);
        }
        assert(b.board().grid =~= new_board(width as nat, height as nat).grid);
        Ok(b)
    }

    /// The classic 10 by 20 board.
    pub fn default() -> (r: TetrisBoard)
        ensures
            r.board().is_valid(),
            r.board() == new_board(10, 20),
    {
        TetrisBoard::new(10, 20).unwrap()
    }

    /// `height` rows of `width` empty cells.
    pub fn empty_board(width: usize, height: usize) -> (r: Vec<Vec<CellType>>)
        ensures
            rows_of(&r) == empty_grid(width as nat, height as nat),
    {
        let mut result: Vec<Vec<CellType>> = Vec::new();
        let mut i: usize = 0;
        while i < height
            invariant
                i <= height,
                rows_of(&result) == empty_grid(width as nat, i as nat),
            decreases height - i,
        {
            let row = TetrisBoard::empty_row(width);
            proof {
                assert(rows_of(&result).push(row@) =~= empty_grid(width as nat, (i + 1) as nat));
            }
            result.push(row);
            assert(rows_of(&result) =~= empty_grid(width as nat, (i + 1) as nat));
            i = i + 1;
        }
        result
    }

    /// A row of `width` empty cells.
    pub fn empty_row(width: usize) -> (r: Vec<CellType>)
        ensures
            r@ == empty_row(width as nat),
    {
        let mut result: Vec<CellType> = Vec::new();
        let mut i: usize = 0;
        while i < width
            invariant
                i <= width,
                result@ == empty_row(i as nat),
            decreases width - i,
        {
            result.push(CellType::Empty);
            assert(result@ =~= empty_row((i + 1) as nat));
            i = i + 1;
        }
        result
    }

    /// The solid cell of the falling piece that lies over (`row`, `col`), if any.
    fn piece_cell_at(&self, row: usize, col: usize) -> (r: Option<CellType>)
        ensures
            r == (match self.board().piece {
                Some(p) => if covers(p, row as int, col as int) {
                    Some(p.cells[row - p.row][col - p.col])
                } else {
                    None
                },
                None => None,
            }),
    {
        match &self.tetromino_blocks {
            None => None,
            Some(t) => {
                let (pr, pc) = self.tetromino_pos;
                if row >= pr && col >= pc {
                    let r = row - pr;
                    let c = col - pc;
                    if r < t.len() && c < t[r].len() && t[r][c].is_block() {
                        Some(t[r][c])
                    } else {
                        None
                    }
                } else {
                    None
                }
            },
        }
    }

    /// Whether (`row`, `col`) lies on the board and holds a placed block.
    fn is_cell_filled(&self, row: usize, col: usize) -> (r: bool)
        requires
            self.board().dims_ok(),
        ensures
            r == self.board().is_placed_block(row as int, col as int),
    {
        if row < self.grid.len() && col < self.width {
            proof {
                lemma_rows_of(&self.grid);
                assert(rows_of(&self.grid)[row as int].len() == self.width);
            }
            self.grid[row][col].is_block()
        } else {
            false
        }
    }

    /// Whether `row` is the bottom-most row of the board, or lies below it.
    fn is_cell_ground(&self, row: usize) -> (r: bool)
        ensures
            r == (row + 1 >= self.board().height),
    {
        row >= self.grid.len() || row == self.grid.len() - 1
    }

    /// Whether the falling piece can fall no further; false without a piece.
    pub fn is_tetromino_grounded(&self) -> (r: bool)
        requires
            self.board().is_valid(),
        ensures
            r == match self.board().piece {
                Some(p) => self.board().grounded(p),
                None => false,
            },
    {
        let t = match &self.tetromino_blocks {
            None => {
                return false;
            },
            Some(t) => t,
        };
        let ghost m = self.board();
        let ghost p = m.piece.unwrap();
        let (pr, pc) = self.tetromino_pos;
        let mut r: usize = 0;
        while r < t.len()
            invariant
                m == self.board(),
                m.is_valid(),
                m.piece == Some(p),
                p.cells == rows_of(t),
                p.row == pr,
                p.col == pc,
                r <= p.cells.len(),
                forall|rr: int, c: int|
                    0 <= rr < r && #[trigger] solid(p.cells, rr, c) ==> !(p.row + rr + 1
                        >= m.height || m.is_placed_block(p.row + rr + 1, p.col + c)),
            decreases p.cells.len() - r,
        {
            let mut c: usize = 0;
            while c < t[r].len()
                invariant
                    m == self.board(),
                    m.is_valid(),
                    m.piece == Some(p),
                    p.cells == rows_of(t),
                    p.row == pr,
                    p.col == pc,
                    r < p.cells.len(),
                    c <= p.cells[r as int].len(),
                    forall|rr: int, cc: int|
                        (0 <= rr < r || (rr == r && 0 <= cc < c)) && #[trigger] solid(
                            p.cells,
                            rr,
                            cc,
                        ) ==> !(p.row + rr + 1 >= m.height || m.is_placed_block(
                            p.row + rr + 1,
                            p.col + cc,
                        )),
                decreases p.cells[r as int].len() - c,
            {
                if t[r][c].is_block() {
                    assert(solid(p.cells, r as int, c as int));
                    let row = pr + r;
                    let col = pc + c;
                    if self.is_cell_ground(row) || self.is_cell_filled(row + 1, col) {
                        return true;
                    }
                }
                c = c + 1;
            }
            r = r + 1;
        }
        false
    }

    /// A board position where a solid cell of the falling piece lies over a
    /// placed block, if there is one.
    fn find_conflict(&self) -> (r: Option<(usize, usize)>)
        requires
            self.board().is_valid(),
            self.board().piece is Some,
        ensures
            r is None <==> !self.board().has_conflict(self.board().piece.unwrap()),
            r matches Some(pos) ==> self.board().conflict_at(
                self.board().piece.unwrap(),
                pos.0 as int,
                pos.1 as int,
            ),
    {
        let t = match &self.tetromino_blocks {
            None => {
                return None;
            },
            Some(t) => t,
        };
        let ghost m = self.board();
        let ghost p = m.piece.unwrap();
        let (pr, pc) = self.tetromino_pos;
        let mut r: usize = 0;
        while r < t.len()
            invariant
                m == self.board(),
                m.is_valid(),
                m.piece == Some(p),
                p.cells == rows_of(t),
                p.row == pr,
                p.col == pc,
                r <= p.cells.len(),
                forall|rr: int, c: int|
                    0 <= rr < r && #[trigger] solid(p.cells, rr, c) ==> !m.is_placed_block(
                        p.row + rr,
                        p.col + c,
                    ),
            decreases p.cells.len() - r,
        {
            let mut c: usize = 0;
            while c < t[r].len()
                invariant
                    m == self.board(),
                    m.is_valid(),
                    m.piece == Some(p),
                    p.cells == rows_of(t),
                    p.row == pr,
                    p.col == pc,
                    r < p.cells.len(),
                    c <= p.cells[r as int].len(),
                    forall|rr: int, cc: int|
                        (0 <= rr < r || (rr == r && 0 <= cc < c)) && #[trigger] solid(
                            p.cells,
                            rr,
                            cc,
                        ) ==> !m.is_placed_block(p.row + rr, p.col + cc),
                decreases p.cells[r as int].len() - c,
            {
                if t[r][c].is_block() {
                    assert(solid(p.cells, r as int, c as int));
                    let row = pr + r;
                    let col = pc + c;
                    if self.is_cell_filled(row, col) {
                        assert(covers(p, row as int, col as int));
                        return Some((row, col));
                    }
                }
                c = c + 1;
            }
            r = r + 1;
        }
        None
    }

    /// The grid with the falling piece's solid cells written into it.
    fn merged_rows(&self) -> (r: Vec<Vec<CellType>>)
        requires
            self.board().is_valid(),
        ensures
            rows_of(&r) == self.board().merged_grid(),
    {
        let ghost m = self.board();
        let mut result: Vec<Vec<CellType>> = Vec::new();
        let mut row: usize = 0;
        while row < self.grid.len()
            invariant
                m == self.board(),
                m.is_valid(),
                row <= m.height,
                rows_of(&result) == m.merged_grid().take(row as int),
            decreases m.height - row,
        {
            let mut line: Vec<CellType> = Vec::new();
            let mut col: usize = 0;
            while col < self.width
                invariant
                    m == self.board(),
                    m.is_valid(),
                    row < m.height,
                    col <= m.width,
                    line@ == m.merged_grid()[row as int].take(col as int),
                decreases m.width - col,
            {
                proof {
                    lemma_rows_of(&self.grid);
                    assert(rows_of(&self.grid)[row as int].len() == self.width);
                }
                let cell = match self.piece_cell_at(row, col) {
                    Some(c) => c,
                    None => self.grid[row][col],
                };
                line.push(cell);
                assert(line@ =~= m.merged_grid()[row as int].take(col + 1));
                col = col + 1;
            }
            assert(line@ =~= m.merged_grid()[row as int]);
            let ghost prev = rows_of(&result);
            result.push(line);
            proof {
                lemma_rows_of(&result);
                assert(rows_of(&result) =~= prev.push(line@));
                assert(prev.push(line@) =~= m.merged_grid().take(row + 1));
            }
            row = row + 1;
        }
        assert(rows_of(&result) =~= m.merged_grid());
        proof {
            lemma_rows_of(&result);
        }
        result
    }

    /// Writes the falling piece's solid cells into the grid and removes the
    /// piece; fails, changing nothing, where one of them would overwrite a
    /// placed block.
    fn place_tetromino(&mut self) -> (r: Result<(), CellExistsError>)
        requires
            old(self).board().is_valid(),
            old(self).board().piece is Some,
        ensures
            r is Err <==> old(self).board().has_conflict(old(self).board().piece.unwrap()),
            r matches Err(e) ==> final(self).board() == old(self).board() && old(
                self,
            ).board().conflict_at(old(self).board().piece.unwrap(), e.0 as int, e.1 as int),
            r is Ok ==> final(self).board() == (BoardModel {
                grid: old(self).board().merged_grid(),
                piece: None,
                ..old(self).board()
            }),
    {
        if let Some((row, col)) = self.find_conflict() {
            return Err(CellExistsError(row, col));
        }
        let merged = self.merged_rows();
        self.grid = merged;
        proof {
            lemma_rows_of(&self.grid);
        }
        self.tetromino_blocks = None;
        Ok(())
    }
}

impl ITetrisBoard for TetrisBoard {
    closed spec fn board(&self) -> BoardModel {
        BoardModel {
            width: self.width as nat,
            height: self.grid.len() as nat,
            grid: rows_of(&self.grid),
            score: self.score,
            piece: match self.tetromino_blocks {
                Some(t) => Some(
                    PieceModel {
                        cells: rows_of(&t),
                        row: self.tetromino_pos.0 as nat,
                        col: self.tetromino_pos.1 as nat,
                    },
                ),
                None => None,
            },
        }
    }

    fn score(&self) -> (r: u32) {
        self.score
    }

    fn width(&self) -> (r: usize) {
        self.width
    }

    fn height(&self) -> (r: usize) {
        self.grid.len()
    }

    fn cell_at(&self, row: &usize, col: &usize) -> (r: Result<CellType, OutsideGridError>) {
        if *row >= self.grid.len() || *col >= self.width {
            return Err(OutsideGridError::OutsidePos(*row, *col));
        }
        match self.piece_cell_at(*row, *col) {
            Some(c) => Ok(c),
            None => Ok(self.grid[*row][*col]),
        }
    }

    fn is_row_empty(&self, row: &usize) -> (r: Result<bool, OutsideGridError>) {
        if *row >= self.grid.len() {
            return Err(OutsideGridError::OutsideRow(*row));
        }
        Ok(row_is_empty(&self.grid[*row]))
    }

    fn is_row_full(&self, row: &usize) -> (r: Result<bool, OutsideGridError>) {
        if *row >= self.grid.len() {
            return Err(OutsideGridError::OutsideRow(*row));
        }
        Ok(row_is_full(&self.grid[*row]))
    }

    fn clear_row(&mut self, row: &usize) -> (r: Result<(), OutsideGridError>) {
        if *row >= self.grid.len() {
            return Err(OutsideGridError::OutsideRow(*row));
        }
        let ghost before = self.board();
        remove_and_top_up(&mut self.grid, *row, self.width);
        proof {
            lemma_rows_of(&self.grid);
            assert(self.board() == before.after_clear_row(*row as int));
            before.lemma_clear_row_valid(*row as int);
        }
        Ok(())
    }

    fn update(&mut self) -> (r: Result<(), CellExistsError>) {
        let ghost before = self.board();
        if self.tetromino_blocks.is_none() {
            return Ok(());
        }
        if !self.is_tetromino_grounded() {
            if self.tetromino_pos.0 < usize::MAX {
                self.tetromino_pos = (self.tetromino_pos.0 + 1, self.tetromino_pos.1);
            }
            proof {
                before.lemma_update_valid();
            }
            return Ok(());
        }
        match self.place_tetromino() {
            Err(e) => {
                return Err(e);
            },
            Ok(()) => {},
        }
        let n = collapse_full_rows(&mut self.grid, self.width);
        let points = line_clear_points(n);
        if points > u32::MAX - self.score {
            self.score = u32::MAX;
        } else {
            self.score = self.score + points;
        }
        proof {
            before.lemma_update_valid();
            assert(self.board() == before.after_update());
        }
        Ok(())
    }

    fn can_spawn(&self, tetromino: &Vec<Vec<CellType>>, col: usize) -> (r: bool) {
        if self.tetromino_blocks.is_some() {
            return false;
        }
        let ghost m = self.board();
        let ghost cells = rows_of(tetromino);
        let mut r: usize = 0;
        while r < tetromino.len()
            invariant
                m == self.board(),
                m.is_valid(),
                cells == rows_of(tetromino),
                r <= cells.len(),
                forall|rr: int, c: int|
                    0 <= rr < r && #[trigger] solid(cells, rr, c) ==> m.in_grid(rr, col + c)
                        && m.grid[rr][col + c] == CellType::Empty,
            decreases cells.len() - r,
        {
            let mut c: usize = 0;
            while c < tetromino[r].len()
                invariant
                    m == self.board(),
                    m.is_valid(),
                    cells == rows_of(tetromino),
                    r < cells.len(),
                    c <= cells[r as int].len(),
                    forall|rr: int, cc: int|
                        (0 <= rr < r || (rr == r && 0 <= cc < c)) && #[trigger] solid(
                            cells,
                            rr,
                            cc,
                        ) ==> m.in_grid(rr, col + cc) && m.grid[rr][col + cc] == CellType::Empty,
                decreases cells[r as int].len() - c,
            {
                if tetromino[r][c].is_block() {
                    assert(solid(cells, r as int, c as int));
                    if r >= self.grid.len() || c >= self.width || col >= self.width - c {
                        return false;
                    }
                    if self.grid[r][col + c] != CellType::Empty {
                        return false;
                    }
                }
                c = c + 1;
            }
            r = r + 1;
        }
        true
    }

    fn spawn(&mut self, tetromino: Vec<Vec<CellType>>, col: usize) -> (r: Result<(), SpawnError>) {
        if self.tetromino_blocks.is_some() {
            return Err(SpawnError::LiveTetrominoExists);
        }
        if !self.can_spawn(&tetromino, col) {
            return Err(SpawnError::NoRoom);
        }
        let ghost before = self.board();
        self.tetromino_blocks = Some(tetromino);
        self.tetromino_pos = (0, col);
        proof {
            before.lemma_spawn_valid(rows_of(&tetromino), col as nat);
            assert(self.board() == before.after_spawn(rows_of(&tetromino), col as nat));
        }
        Ok(())
    }
}

} // verus!
