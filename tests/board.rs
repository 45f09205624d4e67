use tetris::CellType::{Block, Empty};
use tetris::{CellExistsError, CellType, DegenerateGridError, ITetrisBoard, OutsideGridError, SpawnError, TetrisBoard};

fn board(width: usize, height: usize) -> TetrisBoard {
    match TetrisBoard::new(width, height) {
        Ok(b) => b,
        Err(e) => panic!("no board: {:?}", e),
    }
}

fn column(cells: &[CellType]) -> Vec<Vec<CellType>> {
    cells.iter().map(|c| vec![*c]).collect()
}

fn solid_block(rows: usize, cols: usize, id: usize) -> Vec<Vec<CellType>> {
    vec![vec![Block(id); cols]; rows]
}

fn run_until_placed(b: &mut TetrisBoard) -> usize {
    let mut ticks = 0;
    while !b.can_spawn(&vec![], 0) {
        assert_eq!(b.update(), Ok(()));
        ticks += 1;
        assert!(ticks < 1000);
    }
    ticks
}

#[test]
fn new_board_is_empty() {
    let b = board(10, 20);
    assert_eq!(b.width(), 10);
    assert_eq!(b.height(), 20);
    assert_eq!(b.score(), 0);
    for row in 0..20 {
        assert_eq!(b.is_row_empty(&row), Ok(true));
        assert_eq!(b.is_row_full(&row), Ok(false));
        for col in 0..10 {
            assert_eq!(b.cell_at(&row, &col), Ok(Empty));
        }
    }
    assert!(!b.is_tetromino_grounded());
}

#[test]
fn default_board_is_ten_by_twenty() {
    let b = TetrisBoard::default();
    assert_eq!(b.width(), 10);
    assert_eq!(b.height(), 20);
    assert_eq!(b.score(), 0);
}

#[test]
fn degenerate_sizes_are_rejected() {
    assert_eq!(TetrisBoard::new(0, 5).err(), Some(DegenerateGridError { width: 0, height: 5 }));
    assert_eq!(TetrisBoard::new(5, 0).err(), Some(DegenerateGridError { width: 5, height: 0 }));
    assert!(TetrisBoard::new(1, 1).is_ok());
}

#[test]
fn empty_rows_and_boards() {
    assert_eq!(TetrisBoard::empty_row(3), vec![Empty, Empty, Empty]);
    assert_eq!(TetrisBoard::empty_board(2, 3), vec![vec![Empty, Empty]; 3]);
    assert!(TetrisBoard::empty_board(2, 0).is_empty());
}

#[test]
fn cell_type_is_block() {
    assert!(Block(0).is_block());
    assert!(!Empty.is_block());
}

#[test]
fn out_of_bounds_queries_fail() {
    let mut b = board(10, 20);
    assert_eq!(b.cell_at(&20, &0), Err(OutsideGridError::OutsidePos(20, 0)));
    assert_eq!(b.cell_at(&0, &10), Err(OutsideGridError::OutsidePos(0, 10)));
    assert_eq!(b.cell_at(&25, &15), Err(OutsideGridError::OutsidePos(25, 15)));
    assert_eq!(b.is_row_empty(&20), Err(OutsideGridError::OutsideRow(20)));
    assert_eq!(b.is_row_full(&21), Err(OutsideGridError::OutsideRow(21)));
    assert_eq!(b.clear_row(&20), Err(OutsideGridError::OutsideRow(20)));
    assert_eq!(b.height(), 20);
    assert_eq!(b.cell_at(&19, &9), Ok(Empty));
}

#[test]
fn second_spawn_is_refused() {
    let mut b = board(10, 20);
    assert_eq!(b.spawn(solid_block(2, 2, 1), 0), Ok(()));
    assert!(!b.can_spawn(&solid_block(1, 1, 2), 5));
    assert_eq!(b.spawn(solid_block(1, 1, 2), 5), Err(SpawnError::LiveTetrominoExists));
    assert_eq!(b.update(), Ok(()));
    assert_eq!(b.spawn(solid_block(1, 1, 2), 5), Err(SpawnError::LiveTetrominoExists));
}

#[test]
fn spawn_off_the_right_edge_is_refused() {
    let mut b = board(10, 4);
    assert!(!b.can_spawn(&solid_block(2, 2, 1), 9));
    assert_eq!(b.spawn(solid_block(2, 2, 1), 9), Err(SpawnError::NoRoom));
    assert_eq!(b.cell_at(&0, &9), Ok(Empty));
    assert!(b.can_spawn(&solid_block(2, 2, 1), 8));
    assert_eq!(b.spawn(solid_block(2, 2, 1), 8), Ok(()));
    assert_eq!(b.cell_at(&0, &8), Ok(Block(1)));
    assert_eq!(b.cell_at(&1, &9), Ok(Block(1)));
    assert_eq!(b.is_row_empty(&0), Ok(true));
}

#[test]
fn spawn_below_the_floor_is_refused() {
    let mut b = board(3, 2);
    assert_eq!(b.spawn(solid_block(3, 1, 1), 0), Err(SpawnError::NoRoom));
    assert_eq!(b.spawn(column(&[Empty, Empty, Empty]), 2), Ok(()));
}

#[test]
fn spawn_onto_a_block_is_refused() {
    let mut b = board(3, 2);
    assert_eq!(b.spawn(solid_block(2, 1, 1), 0), Ok(()));
    assert!(b.is_tetromino_grounded());
    assert_eq!(b.update(), Ok(()));
    assert_eq!(b.cell_at(&0, &0), Ok(Block(1)));
    assert_eq!(b.spawn(solid_block(1, 1, 2), 0), Err(SpawnError::NoRoom));
    assert!(b.can_spawn(&solid_block(1, 1, 2), 1));
    assert!(b.can_spawn(&vec![vec![Empty, Block(2)]], 0));
    assert!(!b.can_spawn(&vec![vec![Block(2), Empty]], 0));
}

#[test]
fn clear_row_moves_rows_above_down() {
    let mut b = board(3, 4);
    // rows 0 and 2 of the piece are solid: it lands with blocks in rows 1 and 3
    assert_eq!(b.spawn(column(&[Block(1), Empty, Block(2)]), 0), Ok(()));
    run_until_placed(&mut b);
    assert_eq!(b.cell_at(&1, &0), Ok(Block(1)));
    assert_eq!(b.cell_at(&3, &0), Ok(Block(2)));
    assert_eq!(b.clear_row(&2), Ok(()));
    assert_eq!(b.height(), 4);
    assert_eq!(b.is_row_empty(&0), Ok(true));
    assert_eq!(b.is_row_empty(&1), Ok(true));
    assert_eq!(b.cell_at(&2, &0), Ok(Block(1)));
    assert_eq!(b.cell_at(&3, &0), Ok(Block(2)));
    assert_eq!(b.score(), 0);
    assert_eq!(b.clear_row(&3), Ok(()));
    assert_eq!(b.cell_at(&3, &0), Ok(Block(1)));
    assert_eq!(b.is_row_empty(&2), Ok(true));
    assert_eq!(b.clear_row(&0), Ok(()));
    assert_eq!(b.cell_at(&3, &0), Ok(Block(1)));
    assert_eq!(b.score(), 0);
}

fn score_for_rows(n: usize) -> u32 {
    let mut b = board(1, n + 2);
    assert_eq!(b.spawn(solid_block(n, 1, 7), 0), Ok(()));
    run_until_placed(&mut b);
    for row in 0..n + 2 {
        assert_eq!(b.is_row_empty(&row), Ok(true));
    }
    b.score()
}

#[test]
fn scoring_follows_the_table() {
    assert_eq!(score_for_rows(1), 40);
    assert_eq!(score_for_rows(2), 100);
    assert_eq!(score_for_rows(3), 300);
    assert_eq!(score_for_rows(4), 1200);
    assert_eq!(score_for_rows(5), 2400);
    assert_eq!(score_for_rows(6), 3600);
}

#[test]
fn scores_add_up_over_placements() {
    let mut b = board(2, 3);
    assert_eq!(b.spawn(solid_block(1, 2, 1), 0), Ok(()));
    run_until_placed(&mut b);
    assert_eq!(b.score(), 40);
    assert_eq!(b.spawn(solid_block(2, 2, 1), 0), Ok(()));
    run_until_placed(&mut b);
    assert_eq!(b.score(), 140);
}

#[test]
fn partial_rows_are_kept() {
    let mut b = board(3, 3);
    // an L: the bottom row of the piece fills row 2, its top cell stays
    assert_eq!(b.spawn(vec![vec![Empty, Empty, Block(4)], vec![Block(4), Block(4), Block(4)]], 0), Ok(()));
    run_until_placed(&mut b);
    assert_eq!(b.score(), 40);
    assert_eq!(b.is_row_empty(&0), Ok(true));
    assert_eq!(b.is_row_empty(&1), Ok(true));
    assert_eq!(b.cell_at(&2, &2), Ok(Block(4)));
    assert_eq!(b.cell_at(&2, &0), Ok(Empty));
}

#[test]
fn full_row_placed_below_a_partial_row_only_clears_full_ones() {
    let mut b = board(2, 4);
    assert_eq!(b.spawn(vec![vec![Block(1), Empty], vec![Block(1), Block(1)], vec![Block(1), Empty]], 0), Ok(()));
    run_until_placed(&mut b);
    assert_eq!(b.score(), 40);
    assert_eq!(b.is_row_empty(&0), Ok(true));
    assert_eq!(b.is_row_empty(&1), Ok(true));
    assert_eq!(b.cell_at(&2, &0), Ok(Block(1)));
    assert_eq!(b.cell_at(&3, &0), Ok(Block(1)));
    assert_eq!(b.cell_at(&3, &1), Ok(Empty));
}

#[test]
fn gravity_moves_the_piece_one_row_per_tick() {
    let mut b = board(5, 6);
    assert_eq!(b.spawn(solid_block(1, 2, 3), 1), Ok(()));
    for tick in 0..5 {
        assert_eq!(b.cell_at(&tick, &1), Ok(Block(3)));
        assert_eq!(b.cell_at(&tick, &2), Ok(Block(3)));
        assert!(!b.is_tetromino_grounded());
        assert_eq!(b.update(), Ok(()));
        assert_eq!(b.cell_at(&tick, &1), Ok(Empty));
        assert_eq!(b.cell_at(&(tick + 1), &1), Ok(Block(3)));
        for row in 0..6 {
            assert_eq!(b.is_row_empty(&row), Ok(true));
        }
        assert_eq!(b.score(), 0);
    }
    assert!(b.is_tetromino_grounded());
}

#[test]
fn update_without_a_piece_changes_nothing() {
    let mut b = board(4, 4);
    assert_eq!(b.update(), Ok(()));
    assert_eq!(b.score(), 0);
    assert_eq!(b.is_row_empty(&3), Ok(true));
}

#[test]
fn spawn_is_legal_again_after_placement() {
    let mut b = board(4, 5);
    assert_eq!(b.spawn(solid_block(1, 1, 1), 0), Ok(()));
    let ticks = run_until_placed(&mut b);
    assert_eq!(ticks, 5);
    assert!(!b.is_tetromino_grounded());
    assert_eq!(b.cell_at(&4, &0), Ok(Block(1)));
    assert_eq!(b.spawn(solid_block(1, 1, 2), 0), Ok(()));
    let ticks = run_until_placed(&mut b);
    assert_eq!(ticks, 4);
    assert_eq!(b.cell_at(&3, &0), Ok(Block(2)));
}

#[test]
fn vertical_piece_lands_on_the_floor() {
    let mut b = board(10, 20);
    assert_eq!(b.spawn(solid_block(2, 1, 1), 3), Ok(()));
    for _ in 0..18 {
        assert_eq!(b.update(), Ok(()));
    }
    // grounded at origin row 18, its bottom cell on the floor row
    assert!(b.is_tetromino_grounded());
    assert_eq!(b.cell_at(&17, &3), Ok(Empty));
    assert_eq!(b.cell_at(&18, &3), Ok(Block(1)));
    assert_eq!(b.cell_at(&19, &3), Ok(Block(1)));
    assert_eq!(b.spawn(solid_block(1, 1, 2), 0), Err(SpawnError::LiveTetrominoExists));
    // the next tick writes it into the grid
    assert_eq!(b.update(), Ok(()));
    assert_eq!(b.is_row_empty(&18), Ok(false));
    assert_eq!(b.is_row_empty(&19), Ok(false));
    assert_eq!(b.cell_at(&18, &3), Ok(Block(1)));
    assert_eq!(b.cell_at(&19, &3), Ok(Block(1)));
    assert_eq!(b.score(), 0);
    assert!(b.can_spawn(&solid_block(2, 1, 1), 3));
}

#[test]
fn placement_onto_a_shifted_block_fails() {
    let mut b = board(2, 4);
    assert_eq!(b.spawn(column(&[Block(1), Empty, Block(1)]), 0), Ok(()));
    run_until_placed(&mut b);
    assert_eq!(b.cell_at(&1, &0), Ok(Block(1)));
    assert_eq!(b.cell_at(&3, &0), Ok(Block(1)));
    // a piece whose only solid cell sits in the gap at row 2
    assert_eq!(b.spawn(column(&[Empty, Empty, Block(2)]), 0), Ok(()));
    assert!(b.is_tetromino_grounded());
    // clearing the gap row moves the block of row 1 under the piece
    assert_eq!(b.clear_row(&2), Ok(()));
    assert_eq!(b.update(), Err(CellExistsError(2, 0)));
    assert_eq!(b.update(), Err(CellExistsError(2, 0)));
    assert_eq!(b.cell_at(&2, &0), Ok(Block(2)));
}

#[test]
fn piece_without_solid_cells_keeps_falling() {
    let mut b = board(1, 1);
    assert_eq!(b.spawn(vec![vec![Empty]], 0), Ok(()));
    for _ in 0..5 {
        assert_eq!(b.update(), Ok(()));
        assert!(!b.is_tetromino_grounded());
        assert_eq!(b.spawn(solid_block(1, 1, 2), 0), Err(SpawnError::LiveTetrominoExists));
        assert_eq!(b.cell_at(&0, &0), Ok(Empty));
        assert_eq!(b.is_row_empty(&0), Ok(true));
    }
    assert_eq!(b.score(), 0);
}
