//! A single-board Tetris state model: a fixed grid of cells, one falling piece,
//! gravity steps, placement, full-row clearing and classic line-clear scoring.

mod cell;
mod errors;
mod laws;
mod model;
mod board_trait;
mod tetris_board;

pub use board_trait::ITetrisBoard;
pub use tetris_board::TetrisBoard;
pub use cell::{CellType, is_block, row_full, row_empty, empty_row, empty_grid};
pub use errors::{CellExistsError, DegenerateGridError, OutsideGridError, SpawnError};
pub use model::{
    PieceModel, BoardModel, moved_down, solid, covers, kept_rows, full_rows, full_row_count, collapse,
    line_points, add_score, new_board, rows_of,
};
pub use laws::{
    law_dimensions, law_single_piece, law_spawn_validity, law_clear_row, law_line_points,
    law_scoring, law_gravity, law_placement_terminal, law_piece_stays_clear,
};
