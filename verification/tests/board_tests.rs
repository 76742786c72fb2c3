use rustris::board::{Board, Cell, BOARD_HEIGHT, BOARD_WIDTH};
use rustris::tetromino::Color;

fn fill_row(board: &mut Board, y: usize, color: Color) {
    for x in 0..BOARD_WIDTH {
        board.set_cell(x, y, color);
    }
}

fn count_cells(board: &Board) -> usize {
    board.rows().iter().flatten().filter(|cell| cell.is_some()).count()
}

fn empty_row() -> Vec<Cell> {
    vec![None; BOARD_WIDTH]
}

#[test]
fn the_board_is_ten_by_twenty() {
    assert_eq!(BOARD_WIDTH, 10);
    assert_eq!(BOARD_HEIGHT, 20);
    let board = Board::new();
    assert_eq!(board.rows().len(), 20);
    for row in board.rows() {
        assert_eq!(row.len(), 10);
    }
}

#[test]
fn a_new_board_is_empty() {
    let board = Board::new();
    assert_eq!(count_cells(&board), 0);
    for y in 0..20 {
        for x in 0..10 {
            assert!(!board.is_occupied(x, y));
            assert_eq!(board.get_cell(x as usize, y as usize), None);
        }
    }
}

#[test]
fn places_off_the_board_count_as_occupied() {
    let board = Board::new();
    assert!(board.is_occupied(-1, 0));
    assert!(board.is_occupied(10, 0));
    assert!(board.is_occupied(0, -1));
    assert!(board.is_occupied(0, 20));
    assert!(board.is_occupied(-1, -1));
    assert!(board.is_occupied(10, 20));
    assert!(board.is_occupied(i32::MIN, 5));
    assert!(board.is_occupied(5, i32::MAX));
    assert!(!board.is_occupied(0, 0));
    assert!(!board.is_occupied(9, 19));
}

#[test]
fn set_cell_takes_one_cell_and_keeps_its_colour() {
    let mut board = Board::new();
    board.set_cell(4, 7, Color::Green);
    assert!(board.is_occupied(4, 7));
    assert_eq!(board.get_cell(4, 7), Some(Color::Green));
    assert_eq!(count_cells(&board), 1);
    assert!(!board.is_occupied(7, 4));
    assert!(!board.is_occupied(3, 7));
    assert!(!board.is_occupied(4, 8));
    board.set_cell(4, 7, Color::Red);
    assert_eq!(board.get_cell(4, 7), Some(Color::Red));
    assert_eq!(count_cells(&board), 1);
}

#[test]
fn scan_finds_no_full_row_on_an_empty_board() {
    assert_eq!(Board::new().scan_full_rows(), Vec::<usize>::new());
}

#[test]
fn scan_lists_the_full_rows_from_the_top_down() {
    let mut board = Board::new();
    fill_row(&mut board, 19, Color::Red);
    fill_row(&mut board, 5, Color::Blue);
    fill_row(&mut board, 12, Color::Cyan);
    assert_eq!(board.scan_full_rows(), vec![5, 12, 19]);
}

#[test]
fn a_row_with_one_gap_is_not_full() {
    let mut board = Board::new();
    for x in 0..9 {
        board.set_cell(x, 19, Color::Red);
    }
    assert_eq!(board.scan_full_rows(), Vec::<usize>::new());
    board.set_cell(9, 19, Color::Red);
    assert_eq!(board.scan_full_rows(), vec![19]);
}

#[test]
fn clearing_a_full_row_lowers_the_rows_above_it() {
    let mut board = Board::new();
    fill_row(&mut board, 19, Color::Red);
    board.set_cell(2, 18, Color::Blue);
    board.set_cell(7, 17, Color::Green);
    board.set_cell(0, 0, Color::Cyan);
    let before = count_cells(&board);
    assert_eq!(before, 13);
    let full = board.scan_full_rows();
    assert_eq!(full, vec![19]);
    board.clear_rows(&full);
    assert_eq!(count_cells(&board), before - 10);
    assert_eq!(board.rows().len(), 20);
    assert_eq!(board.rows()[0], empty_row());
    assert_eq!(board.get_cell(0, 1), Some(Color::Cyan));
    assert_eq!(board.get_cell(7, 18), Some(Color::Green));
    assert_eq!(board.get_cell(2, 19), Some(Color::Blue));
    assert_eq!(board.get_cell(2, 18), None);
    assert_eq!(count_cells(&board), 3);
}

#[test]
fn clearing_a_row_in_the_middle_leaves_the_rows_below_it() {
    let mut board = Board::new();
    fill_row(&mut board, 10, Color::Yellow);
    board.set_cell(1, 9, Color::Blue);
    board.set_cell(3, 11, Color::Green);
    board.set_cell(5, 19, Color::Red);
    board.clear_rows(&vec![10]);
    assert_eq!(board.rows()[0], empty_row());
    assert_eq!(board.get_cell(1, 10), Some(Color::Blue));
    assert_eq!(board.get_cell(1, 9), None);
    assert_eq!(board.get_cell(3, 11), Some(Color::Green));
    assert_eq!(board.get_cell(5, 19), Some(Color::Red));
    assert_eq!(count_cells(&board), 3);
}

#[test]
fn clearing_two_rows_next_to_each_other_takes_both() {
    let mut board = Board::new();
    fill_row(&mut board, 18, Color::Red);
    fill_row(&mut board, 19, Color::Blue);
    board.set_cell(4, 17, Color::Green);
    board.set_cell(6, 16, Color::Cyan);
    let full = board.scan_full_rows();
    assert_eq!(full, vec![18, 19]);
    board.clear_rows(&full);
    assert_eq!(count_cells(&board), 2);
    assert_eq!(board.get_cell(4, 19), Some(Color::Green));
    assert_eq!(board.get_cell(6, 18), Some(Color::Cyan));
    assert_eq!(board.rows()[0], empty_row());
    assert_eq!(board.rows()[1], empty_row());
    assert_eq!(board.scan_full_rows(), Vec::<usize>::new());
}

#[test]
fn clearing_rows_apart_lowers_each_row_by_the_rows_cleared_below_it() {
    let mut board = Board::new();
    fill_row(&mut board, 19, Color::Red);
    fill_row(&mut board, 17, Color::Blue);
    board.set_cell(0, 18, Color::Green);
    board.set_cell(1, 16, Color::Cyan);
    board.clear_rows(&vec![17, 19]);
    assert_eq!(board.get_cell(0, 19), Some(Color::Green));
    assert_eq!(board.get_cell(1, 18), Some(Color::Cyan));
    assert_eq!(count_cells(&board), 2);
}

#[test]
fn the_order_of_the_indices_does_not_matter() {
    let mut a = Board::new();
    let mut b = Board::new();
    for board in [&mut a, &mut b] {
        fill_row(board, 19, Color::Red);
        fill_row(board, 17, Color::Blue);
        board.set_cell(0, 18, Color::Green);
        board.set_cell(1, 3, Color::Cyan);
    }
    a.clear_rows(&vec![17, 19]);
    b.clear_rows(&vec![19, 17]);
    assert_eq!(a.rows(), b.rows());
}

#[test]
fn an_index_listed_twice_or_off_the_board_clears_nothing_more() {
    let mut board = Board::new();
    fill_row(&mut board, 19, Color::Red);
    board.set_cell(3, 18, Color::Blue);
    board.clear_rows(&vec![19, 19, 20, 400]);
    assert_eq!(count_cells(&board), 1);
    assert_eq!(board.get_cell(3, 19), Some(Color::Blue));
    assert_eq!(board.rows().len(), 20);
}

#[test]
fn clearing_no_row_changes_nothing() {
    let mut board = Board::new();
    board.set_cell(3, 18, Color::Blue);
    board.clear_rows(&Vec::new());
    assert_eq!(count_cells(&board), 1);
    assert_eq!(board.get_cell(3, 18), Some(Color::Blue));
}

#[test]
fn clear_rows_removes_a_row_that_is_not_full_when_asked_to() {
    let mut board = Board::new();
    board.set_cell(3, 18, Color::Blue);
    board.set_cell(4, 17, Color::Red);
    board.clear_rows(&vec![18]);
    assert_eq!(count_cells(&board), 1);
    assert_eq!(board.get_cell(4, 18), Some(Color::Red));
}

#[test]
fn merge_writes_the_filled_cells_in_colour() {
    let mut board = Board::new();
    let t = vec![
        vec![false, true, false],
        vec![true, true, true],
        vec![false, false, false],
    ];
    board.merge(&t, 3, 17, Color::Magenta);
    assert_eq!(count_cells(&board), 4);
    assert_eq!(board.get_cell(4, 17), Some(Color::Magenta));
    assert_eq!(board.get_cell(3, 18), Some(Color::Magenta));
    assert_eq!(board.get_cell(4, 18), Some(Color::Magenta));
    assert_eq!(board.get_cell(5, 18), Some(Color::Magenta));
    assert_eq!(board.get_cell(3, 17), None);
}

#[test]
fn merge_leaves_out_the_cells_off_the_board() {
    let mut board = Board::new();
    let o = vec![vec![true, true], vec![true, true]];
    board.merge(&o, -1, 19, Color::Yellow);
    assert_eq!(count_cells(&board), 1);
    assert_eq!(board.get_cell(0, 19), Some(Color::Yellow));
    board.merge(&o, 50, 50, Color::Yellow);
    assert_eq!(count_cells(&board), 1);
}
