use vstd::prelude::*;

verus! {

/// An attempt to read or change something outside the boundaries of the grid.
#[derive(PartialEq, Eq, Structural, Copy, Clone, Debug)]
pub enum OutsideGridError {
    OutsideRow(usize),
    OutsideCol(usize),
    OutsidePos(usize, usize),
}

/// Why a piece could not be spawned: there is no room for it at the top of
/// the board, or a piece is already falling.
#[derive(PartialEq, Eq, Structural, Copy, Clone, Debug)]
pub enum SpawnError {
    NoRoom,
    LiveTetrominoExists,
}

/// Placing a grounded piece would overwrite the block at this (row, column).
#[derive(PartialEq, Eq, Structural, Copy, Clone, Debug)]
pub struct CellExistsError(pub usize, pub usize);

/// A board needs at least one row and one column.
#[derive(PartialEq, Eq, Structural, Copy, Clone, Debug)]
pub struct DegenerateGridError {
    pub width: usize,
    pub height: usize,
}

} // verus!
