use vstd::prelude::*;
use crate::cell::{CellType, row_empty, empty_row, is_block};
use crate::errors::SpawnError;
use crate::model::{BoardModel, moved_down, solid, full_row_count, line_points, add_score};

verus! {

/// Every board keeps `height` rows of `width` cells: a valid board has them,
/// and clearing a row, a successful spawn and a successful update each leave
/// a valid board of the same width and height.
pub proof fn law_dimensions(m: BoardModel, row: int, cells: Seq<Seq<CellType>>, col: nat)
    requires
        m.is_valid(),
    ensures
        m.grid.len() == m.height,
        forall|r: int| 0 <= r < m.height ==> (#[trigger] m.grid[r]).len() == m.width,
        0 <= row < m.height ==> m.after_clear_row(row).is_valid() && m.after_clear_row(row).width
            == m.width && m.after_clear_row(row).height == m.height,
        m.spawn_result(cells, col) is Ok ==> m.after_spawn(cells, col).is_valid() && m.after_spawn(
            cells,
            col,
        ).width == m.width && m.after_spawn(cells, col).height == m.height,
        !m.update_fails() ==> m.after_update().is_valid() && m.after_update().width == m.width
            && m.after_update().height == m.height,
{
    if 0 <= row < m.height {
        m.lemma_clear_row_valid(row);
    }
    if m.spawn_result(cells, col) is Ok {
        m.lemma_spawn_valid(cells, col);
    }
    if !m.update_fails() {
        m.lemma_update_valid();
    }
}

/// After a successful spawn, and after every tick that does not ground the
/// piece, a further spawn is refused with `LiveTetrominoExists`, whatever the
/// piece and column.
pub proof fn law_single_piece(
    m: BoardModel,
    cells: Seq<Seq<CellType>>,
    col: nat,
    other: Seq<Seq<CellType>>,
    other_col: nat,
)
    requires
        m.is_valid(),
    ensures
        m.spawn_result(cells, col) is Ok ==> m.after_spawn(cells, col).spawn_result(
            other,
            other_col,
        ) == Err::<(), SpawnError>(SpawnError::LiveTetrominoExists),
        m.piece matches Some(p) && !m.grounded(p) ==> m.after_update().spawn_result(
            other,
            other_col,
        ) == Err::<(), SpawnError>(SpawnError::LiveTetrominoExists),
{
}

/// On a board with no falling piece, a spawn is refused with `NoRoom` exactly
/// when some solid cell of the piece would land off the board or on a placed
/// block; otherwise it succeeds.
pub proof fn law_spawn_validity(m: BoardModel, cells: Seq<Seq<CellType>>, col: nat)
    requires
        m.is_valid(),
        m.piece is None,
    ensures
        (exists|r: int, c: int|
            #[trigger] solid(cells, r, c) && (!m.in_grid(r, col + c) || m.is_placed_block(
                r,
                col + c,
            ))) <==> m.spawn_result(cells, col) == Err::<(), SpawnError>(SpawnError::NoRoom),
        m.spawn_result(cells, col) is Ok <==> m.has_room(cells, 0, col as int),
{
    if m.spawn_result(cells, col) == Err::<(), SpawnError>(SpawnError::NoRoom) {
        let (r, c) = choose|r: int, c: int|
            #[trigger] solid(cells, r, c) && !(m.in_grid(0 + r, col + c) && m.grid[0 + r][col + c]
                == CellType::Empty);
        assert(solid(cells, r, c) && (!m.in_grid(r, col + c) || m.is_placed_block(r, col + c)));
    }
}

/// Clearing row `row` keeps the number of rows, moves every row above it down
/// by one, leaves the rows below it in place and puts an empty row on top.
pub proof fn law_clear_row(m: BoardModel, row: int)
    requires
        m.is_valid(),
        0 <= row < m.height,
    ensures
        m.after_clear_row(row).grid.len() == m.height,
        row_empty(m.after_clear_row(row).grid[0]),
        m.after_clear_row(row).grid[0].len() == m.width,
        forall|i: int| 0 <= i < row ==> #[trigger] m.after_clear_row(row).grid[i + 1] == m.grid[i],
        forall|i: int| row < i < m.height ==> #[trigger] m.after_clear_row(row).grid[i] == m.grid[i],
        m.after_clear_row(row).score == m.score,
        m.after_clear_row(row).piece == m.piece,
{
    let g = m.after_clear_row(row).grid;
    assert(g[0] == empty_row(m.width));
    assert forall|i: int| 0 <= i < row implies #[trigger] g[i + 1] == m.grid[i] by {}
    assert forall|i: int| row < i < m.height implies #[trigger] g[i] == m.grid[i] by {}
}

/// The points for the rows cleared in one tick follow the classic table.
pub proof fn law_line_points()
    ensures
        line_points(0) == 0,
        line_points(1) == 40,
        line_points(2) == 100,
        line_points(3) == 300,
        line_points(4) == 1200,
        forall|n: nat| n >= 5 ==> #[trigger] line_points(n) == 1200 * (n - 3),
{
}

/// A tick that places a piece adds, once, the points for the number of rows
/// that the placement made full; where none became full the score stays.
pub proof fn law_scoring(m: BoardModel)
    requires
        m.is_valid(),
        m.piece is Some,
        m.grounded(m.piece.unwrap()),
        !m.update_fails(),
    ensures
        m.after_update().score == add_score(m.score, line_points(full_row_count(m.merged_grid()))),
        m.score + line_points(full_row_count(m.merged_grid())) <= u32::MAX
            ==> m.after_update().score == m.score + line_points(full_row_count(m.merged_grid())),
        full_row_count(m.merged_grid()) == 0 ==> m.after_update().score == m.score,
{
}

/// A tick on a falling piece that is not grounded succeeds, moves the piece
/// straight down one row, and leaves the grid and the score unchanged. A
/// piece with a solid cell always has room in its `usize` origin row for that
/// step; one without, which never grounds, stops counting at the largest
/// `usize`.
pub proof fn law_gravity(m: BoardModel)
    requires
        m.is_valid(),
        m.piece is Some,
        !m.grounded(m.piece.unwrap()),
    ensures
        !m.update_fails(),
        m.after_update().piece == Some(moved_down(m.piece.unwrap())),
        m.after_update().grid == m.grid,
        m.after_update().score == m.score,
        (exists|r: int, c: int| #[trigger] solid(m.piece.unwrap().cells, r, c))
            ==> m.after_update().piece.unwrap().row == m.piece.unwrap().row + 1
            && m.after_update().piece.unwrap().col == m.piece.unwrap().col
            && m.after_update().piece.unwrap().cells == m.piece.unwrap().cells,
{
    let p = m.piece.unwrap();
    if exists|r: int, c: int| #[trigger] solid(p.cells, r, c) {
        let (r, c) = choose|r: int, c: int| #[trigger] solid(p.cells, r, c);
        assert(m.on_board(p));
        assert(m.in_grid(p.row + r, p.col + c));
    }
}

/// Once a tick places a grounded piece no piece is falling, and the next
/// spawn succeeds wherever the piece has room.
pub proof fn law_placement_terminal(m: BoardModel, cells: Seq<Seq<CellType>>, col: nat)
    requires
        m.is_valid(),
        m.piece is Some,
        m.grounded(m.piece.unwrap()),
        !m.update_fails(),
    ensures
        m.after_update().piece is None,
        m.after_update().spawn_result(cells, col) != Err::<(), SpawnError>(
            SpawnError::LiveTetrominoExists,
        ),
        m.after_update().has_room(cells, 0, col as int) ==> m.after_update().spawn_result(
            cells,
            col,
        ) is Ok,
{
}

/// A falling piece that lies over empty cells only, as every spawned piece
/// does, still does so after a tick that moves it down; and placing it never
/// fails.
pub proof fn law_piece_stays_clear(m: BoardModel)
    requires
        m.is_valid(),
        m.piece matches Some(p) && m.has_room(p.cells, p.row as int, p.col as int),
    ensures
        !m.update_fails(),
        m.after_update().piece matches Some(q) ==> m.after_update().has_room(
            q.cells,
            q.row as int,
            q.col as int,
        ),
{
    let p = m.piece.unwrap();
    assert forall|r: int, c: int| #[trigger] solid(p.cells, r, c) implies !m.is_placed_block(
        p.row + r,
        p.col + c,
    ) by {}
    if !m.grounded(p) {
        let q = m.after_update().piece.unwrap();
        assert forall|r: int, c: int| #[trigger] solid(q.cells, r, c) implies m.in_grid(
            q.row + r,
            q.col + c,
        ) && m.grid[q.row + r][q.col + c] == CellType::Empty by {
            assert(solid(p.cells, r, c));
            assert(!is_block(m.grid[p.row + r + 1][p.col + c]));
        }
    }
}

} // verus!
