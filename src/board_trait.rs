use vstd::prelude::*;
use crate::cell::{CellType, row_empty, row_full};
use crate::errors::{CellExistsError, OutsideGridError, SpawnError};
use crate::model::{BoardModel, rows_of};

verus! {

/// The board of a game of Tetris: pieces fall from the top of a grid and are
/// stacked until no further piece can be placed.
pub trait ITetrisBoard {
    /// What the board is, as a mathematical value.
    spec fn board(&self) -> BoardModel;

    /// The score of the game.
    fn score(&self) -> (r: u32)
        requires
            self.board().is_valid(),
        ensures
            r == self.board().score,
    ;

    /// The number of columns.
    fn width(&self) -> (r: usize)
        requires
            self.board().is_valid(),
        ensures
            r == self.board().width,
    ;

    /// The number of rows.
    fn height(&self) -> (r: usize)
        requires
            self.board().is_valid(),
        ensures
            r == self.board().height,
    ;

    /// The cell shown at (`row`, `col`), the falling piece included.
    fn cell_at(&self, row: &usize, col: &usize) -> (r: Result<CellType, OutsideGridError>)
        requires
            self.board().is_valid(),
        ensures
            self.board().in_grid(*row as int, *col as int) ==> r == Ok::<
                CellType,
                OutsideGridError,
            >(self.board().visible(*row as int, *col as int)),
            !self.board().in_grid(*row as int, *col as int) ==> r == Err::<
                CellType,
                OutsideGridError,
            >(OutsideGridError::OutsidePos(*row, *col)),
    ;

    /// Whether every placed cell of `row` is empty.
    fn is_row_empty(&self, row: &usize) -> (r: Result<bool, OutsideGridError>)
        requires
            self.board().is_valid(),
        ensures
            *row < self.board().height ==> r == Ok::<bool, OutsideGridError>(
                row_empty(self.board().grid[*row as int]),
            ),
            *row >= self.board().height ==> r == Err::<bool, OutsideGridError>(
                OutsideGridError::OutsideRow(*row),
            ),
    ;

    /// Whether every placed cell of `row` is a block.
    fn is_row_full(&self, row: &usize) -> (r: Result<bool, OutsideGridError>)
        requires
            self.board().is_valid(),
        ensures
            *row < self.board().height ==> r == Ok::<bool, OutsideGridError>(
                row_full(self.board().grid[*row as int]),
            ),
            *row >= self.board().height ==> r == Err::<bool, OutsideGridError>(
                OutsideGridError::OutsideRow(*row),
            ),
    ;

    /// Removes `row` from the grid and puts an empty row on top, so that the
    /// rows above it move down by one. The score is not touched.
    fn clear_row(&mut self, row: &usize) -> (r: Result<(), OutsideGridError>)
        requires
            old(self).board().is_valid(),
        ensures
            final(self).board().is_valid(),
            *row < old(self).board().height ==> r == Ok::<(), OutsideGridError>(())
                && final(self).board() == old(self).board().after_clear_row(*row as int),
            *row >= old(self).board().height ==> r == Err::<(), OutsideGridError>(
                OutsideGridError::OutsideRow(*row),
            ) && final(self).board() == old(self).board(),
    ;

    /// One tick of gravity: a falling piece that is not grounded moves down a
    /// row; a grounded one is placed into the grid, then the full rows are
    /// cleared and scored together. Fails, changing nothing, where placing
    /// would overwrite a placed block.
    fn update(&mut self) -> (r: Result<(), CellExistsError>)
        requires
            old(self).board().is_valid(),
        ensures
            final(self).board().is_valid(),
            r is Ok <==> !old(self).board().update_fails(),
            r is Ok ==> final(self).board() == old(self).board().after_update(),
            r matches Err(e) ==> final(self).board() == old(self).board() && old(
                self,
            ).board().conflict_at(old(self).board().piece.unwrap(), e.0 as int, e.1 as int),
    ;

    /// Whether `tetromino` can be spawned with its top-left cell at (0, `col`):
    /// no piece is falling and each of its solid cells lands on an empty cell
    /// of the board.
    fn can_spawn(&self, tetromino: &Vec<Vec<CellType>>, col: usize) -> (r: bool)
        requires
            self.board().is_valid(),
        ensures
            r == (self.board().piece is None && self.board().has_room(
                rows_of(tetromino),
                0,
                col as int,
            )),
    ;

    /// Makes `tetromino` the falling piece, its top-left cell at (0, `col`).
    fn spawn(&mut self, tetromino: Vec<Vec<CellType>>, col: usize) -> (r: Result<(), SpawnError>)
        requires
            old(self).board().is_valid(),
        ensures
            final(self).board().is_valid(),
            r == old(self).board().spawn_result(rows_of(&tetromino), col as nat),
            r is Ok ==> final(self).board() == old(self).board().after_spawn(
                rows_of(&tetromino),
                col as nat,
            ),
            r is Err ==> final(self).board() == old(self).board(),
    ;
}

} // verus!
