use rustris::board::{Board, Cell};
use rustris::controller::GameController;
use rustris::input::{command_for, Command, Key};
use rustris::tetromino::{Color, Tetromino, TetrominoKind};

fn game_with(current: TetrominoKind, first: TetrominoKind, second: TetrominoKind) -> GameController {
    GameController::from_parts(
        Board::new(),
        Tetromino::new(current),
        Tetromino::new(first),
        Tetromino::new(second),
        0,
    )
}

fn blocked_board() -> Board {
    let mut board = Board::new();
    for y in 0..2 {
        for x in 3..7 {
            board.set_cell(x, y, Color::Red);
        }
    }
    board
}

fn snapshot(game: &GameController) -> (Vec<Vec<Cell>>, Vec<Vec<bool>>, (i32, i32), bool, bool, u64, u64) {
    (
        game.board().rows().clone(),
        game.current_tetromino().get_shape(),
        game.tetromino_pos(),
        game.is_game_over(),
        game.is_paused(),
        game.last_drop_time(),
        game.drop_interval(),
    )
}

#[test]
fn a_piece_that_enters_on_taken_cells_ends_the_game() {
    for kind in [
        TetrominoKind::I,
        TetrominoKind::J,
        TetrominoKind::L,
        TetrominoKind::O,
        TetrominoKind::S,
        TetrominoKind::T,
        TetrominoKind::Z,
    ] {
        let game = GameController::from_parts(
            blocked_board(),
            Tetromino::new(kind),
            Tetromino::new(TetrominoKind::O),
            Tetromino::new(TetrominoKind::O),
            0,
        );
        assert!(game.is_game_over());
        assert_eq!(game.board().rows(), blocked_board().rows());
        assert_eq!(game.tetromino_pos(), (3, 0));
    }
}

#[test]
fn spawning_on_taken_cells_ends_the_game_and_leaves_the_board() {
    let mut game = game_with(TetrominoKind::O, TetrominoKind::T, TetrominoKind::I);
    game.lock_tetromino();
    let locked = game.board().rows().clone();
    assert_eq!(game.board().get_cell(3, 0), Some(Color::Yellow));
    assert_eq!(game.board().get_cell(4, 1), Some(Color::Yellow));
    assert!(!game.is_game_over());
    game.spawn_tetromino(Tetromino::new(TetrominoKind::Z));
    assert!(game.is_game_over());
    assert_eq!(game.board().rows(), &locked);
    assert_eq!(game.tetromino_pos(), (3, 0));
    assert_eq!(game.current_tetromino().kind(), TetrominoKind::T);
    assert_eq!(game.preview_tetrominos()[0].kind(), TetrominoKind::I);
    assert_eq!(game.preview_tetrominos()[1].kind(), TetrominoKind::Z);
}

#[test]
fn spawning_with_room_keeps_the_game_running() {
    let mut game = game_with(TetrominoKind::O, TetrominoKind::T, TetrominoKind::I);
    game.move_right();
    game.move_down(5);
    game.spawn_tetromino(Tetromino::new(TetrominoKind::S));
    assert!(!game.is_game_over());
    assert_eq!(game.tetromino_pos(), (3, 0));
    assert_eq!(game.current_tetromino().kind(), TetrominoKind::T);
    assert_eq!(game.preview_tetrominos().len(), 2);
    assert_eq!(game.preview_tetrominos()[0].kind(), TetrominoKind::I);
    assert_eq!(game.preview_tetrominos()[1].kind(), TetrominoKind::S);
}

#[test]
fn spawn_new_tetromino_queues_a_piece_as_it_starts() {
    let mut game = game_with(TetrominoKind::O, TetrominoKind::T, TetrominoKind::I);
    game.spawn_new_tetromino();
    assert_eq!(game.current_tetromino().kind(), TetrominoKind::T);
    assert_eq!(game.preview_tetrominos().len(), 2);
    assert_eq!(game.preview_tetrominos()[0].kind(), TetrominoKind::I);
    let queued = &game.preview_tetrominos()[1];
    assert_eq!(queued.get_shape(), Tetromino::new(queued.kind()).get_shape());
}

#[test]
fn stacking_to_the_top_ends_the_game_and_leaves_the_board_as_locked() {
    let mut game = game_with(TetrominoKind::O, TetrominoKind::O, TetrominoKind::O);
    for round in 1..=9 {
        game.hard_drop();
        for _ in 0..3 {
            game.spawn_tetromino(Tetromino::new(TetrominoKind::O));
        }
        assert!(!game.is_game_over(), "round {}", round);
        assert_eq!(game.current_tetromino().kind(), TetrominoKind::O);
    }
    let cells = |g: &GameController| g.board().rows().iter().flatten().filter(|c| c.is_some()).count();
    assert_eq!(cells(&game), 36);
    game.hard_drop();
    assert!(game.is_game_over());
    assert_eq!(cells(&game), 40);
    for y in 0..20 {
        assert_eq!(game.board().get_cell(3, y), Some(Color::Yellow));
        assert_eq!(game.board().get_cell(4, y), Some(Color::Yellow));
        assert_eq!(game.board().get_cell(5, y), None);
    }
}

#[test]
fn a_game_that_is_over_takes_no_command() {
    let mut game = GameController::from_parts(
        blocked_board(),
        Tetromino::new(TetrominoKind::T),
        Tetromino::new(TetrominoKind::O),
        Tetromino::new(TetrominoKind::I),
        10,
    );
    assert!(game.is_game_over());
    let before = snapshot(&game);
    game.move_left();
    game.move_right();
    game.rotate();
    game.move_down(700);
    game.hard_drop();
    game.toggle_pause();
    game.update(5000);
    game.tick(Some(Key::Down), 9000);
    for key in [Key::Up, Key::Down, Key::Left, Key::Right, Key::Esc, Key::Char(' ')] {
        game.handle_input(key, 6000);
    }
    assert_eq!(snapshot(&game), before);
    assert_eq!(game.current_tetromino().kind(), TetrominoKind::T);
    assert_eq!(game.preview_tetrominos()[0].kind(), TetrominoKind::O);
    assert_eq!(game.preview_tetrominos()[1].kind(), TetrominoKind::I);
}

#[test]
fn toggle_pause_flips_the_pause() {
    let mut game = game_with(TetrominoKind::O, TetrominoKind::T, TetrominoKind::I);
    assert!(!game.is_paused());
    game.toggle_pause();
    assert!(game.is_paused());
    game.toggle_pause();
    assert!(!game.is_paused());
}

#[test]
fn a_pause_holds_gravity_back_and_nothing_else() {
    let mut game = game_with(TetrominoKind::O, TetrominoKind::T, TetrominoKind::I);
    game.toggle_pause();
    game.update(10_000);
    assert_eq!(game.tetromino_pos(), (3, 0));
    assert_eq!(game.last_drop_time(), 0);
    game.move_left();
    assert_eq!(game.tetromino_pos(), (2, 0));
    game.move_down(10_001);
    assert_eq!(game.tetromino_pos(), (2, 1));
    game.rotate();
    game.handle_input(Key::Right, 10_002);
    assert_eq!(game.tetromino_pos(), (3, 1));
    assert!(game.is_paused());
    game.toggle_pause();
    game.update(10_501);
    assert_eq!(game.tetromino_pos(), (3, 2));
}

#[test]
fn gravity_waits_for_the_interval() {
    let mut game = GameController::from_parts(
        Board::new(),
        Tetromino::new(TetrominoKind::O),
        Tetromino::new(TetrominoKind::T),
        Tetromino::new(TetrominoKind::I),
        1000,
    );
    game.update(1000);
    assert_eq!(game.tetromino_pos(), (3, 0));
    game.update(1499);
    assert_eq!(game.tetromino_pos(), (3, 0));
    assert_eq!(game.last_drop_time(), 1000);
    game.update(1500);
    assert_eq!(game.tetromino_pos(), (3, 1));
    assert_eq!(game.last_drop_time(), 1500);
    game.update(1999);
    assert_eq!(game.tetromino_pos(), (3, 1));
    game.update(2700);
    assert_eq!(game.tetromino_pos(), (3, 2));
    assert_eq!(game.last_drop_time(), 2700);
}

#[test]
fn a_clock_that_reads_earlier_counts_as_no_time_passed() {
    let mut game = GameController::from_parts(
        Board::new(),
        Tetromino::new(TetrominoKind::O),
        Tetromino::new(TetrominoKind::T),
        Tetromino::new(TetrominoKind::I),
        1000,
    );
    game.update(10);
    assert_eq!(game.tetromino_pos(), (3, 0));
    assert_eq!(game.last_drop_time(), 1000);
    game.set_drop_interval(0);
    game.update(10);
    assert_eq!(game.tetromino_pos(), (3, 1));
    assert_eq!(game.last_drop_time(), 10);
}

#[test]
fn set_drop_interval_changes_the_interval_only() {
    let mut game = game_with(TetrominoKind::O, TetrominoKind::T, TetrominoKind::I);
    game.update(100);
    game.set_drop_interval(100);
    assert_eq!(game.drop_interval(), 100);
    assert_eq!(game.last_drop_time(), 0);
    assert_eq!(game.tetromino_pos(), (3, 0));
    game.update(100);
    assert_eq!(game.tetromino_pos(), (3, 1));
    game.set_drop_interval(1_000_000);
    game.update(1_000_099);
    assert_eq!(game.tetromino_pos(), (3, 1));
    game.update(1_000_100);
    assert_eq!(game.tetromino_pos(), (3, 2));
}

#[test]
fn gravity_locks_a_piece_that_lies_on_the_floor() {
    let mut game = game_with(TetrominoKind::O, TetrominoKind::T, TetrominoKind::I);
    for step in 1..=18 {
        game.update(step * 500);
    }
    assert_eq!(game.tetromino_pos(), (3, 18));
    game.update(19 * 500);
    assert_eq!(game.tetromino_pos(), (3, 0));
    assert_eq!(game.current_tetromino().kind(), TetrominoKind::T);
    assert_eq!(game.board().get_cell(3, 19), Some(Color::Yellow));
    assert_eq!(game.last_drop_time(), 19 * 500);
}

#[test]
fn every_key_has_its_command() {
    assert_eq!(command_for(Key::Up), Some(Command::Rotate));
    assert_eq!(command_for(Key::Down), Some(Command::MoveDown));
    assert_eq!(command_for(Key::Left), Some(Command::MoveLeft));
    assert_eq!(command_for(Key::Right), Some(Command::MoveRight));
    assert_eq!(command_for(Key::Char(' ')), Some(Command::HardDrop));
    assert_eq!(command_for(Key::Esc), Some(Command::TogglePause));
    assert_eq!(command_for(Key::Enter), None);
    assert_eq!(command_for(Key::Char('a')), None);
    assert_eq!(command_for(Key::Char('\n')), None);
    assert_eq!(command_for(Key::Other), None);
}

#[test]
fn handle_input_carries_out_the_command_of_the_key() {
    let mut game = game_with(TetrominoKind::T, TetrominoKind::O, TetrominoKind::I);
    game.handle_input(Key::Left, 1);
    assert_eq!(game.tetromino_pos(), (2, 0));
    game.handle_input(Key::Right, 2);
    game.handle_input(Key::Right, 3);
    assert_eq!(game.tetromino_pos(), (4, 0));
    game.handle_input(Key::Down, 4);
    assert_eq!(game.tetromino_pos(), (4, 1));
    assert_eq!(game.last_drop_time(), 4);
    game.handle_input(Key::Up, 5);
    assert_eq!(
        game.current_tetromino().get_shape(),
        vec![
            vec![false, true, false],
            vec![false, true, true],
            vec![false, true, false],
        ]
    );
    game.handle_input(Key::Esc, 6);
    assert!(game.is_paused());
    game.handle_input(Key::Esc, 7);
    assert!(!game.is_paused());
    game.handle_input(Key::Char(' '), 8);
    assert_eq!(game.tetromino_pos(), (3, 0));
    assert_eq!(game.current_tetromino().kind(), TetrominoKind::O);
    assert_eq!(game.board().get_cell(5, 17), Some(Color::Magenta));
    assert_eq!(game.board().get_cell(5, 18), Some(Color::Magenta));
    assert_eq!(game.board().get_cell(6, 18), Some(Color::Magenta));
    assert_eq!(game.board().get_cell(5, 19), Some(Color::Magenta));
}

#[test]
fn keys_without_a_command_change_nothing() {
    let mut game = game_with(TetrominoKind::T, TetrominoKind::O, TetrominoKind::I);
    let before = snapshot(&game);
    for key in [Key::Enter, Key::Other, Key::Char('x'), Key::Char('q')] {
        game.handle_input(key, 99_999);
    }
    assert_eq!(snapshot(&game), before);
}

#[test]
fn apply_carries_out_each_command() {
    let mut game = game_with(TetrominoKind::L, TetrominoKind::O, TetrominoKind::I);
    game.apply(Command::MoveLeft, 0);
    assert_eq!(game.tetromino_pos(), (2, 0));
    game.apply(Command::MoveRight, 0);
    assert_eq!(game.tetromino_pos(), (3, 0));
    game.apply(Command::MoveDown, 77);
    assert_eq!(game.tetromino_pos(), (3, 1));
    assert_eq!(game.last_drop_time(), 77);
    game.apply(Command::Rotate, 0);
    assert_eq!(
        game.current_tetromino().get_shape(),
        vec![
            vec![false, true, false],
            vec![false, true, false],
            vec![false, true, true],
        ]
    );
    game.apply(Command::TogglePause, 0);
    assert!(game.is_paused());
    game.apply(Command::HardDrop, 0);
    assert_eq!(game.current_tetromino().kind(), TetrominoKind::O);
    assert_eq!(game.board().get_cell(4, 17), Some(Color::DarkYellow));
    assert_eq!(game.board().get_cell(4, 19), Some(Color::DarkYellow));
    assert_eq!(game.board().get_cell(5, 19), Some(Color::DarkYellow));
}

#[test]
fn a_tick_takes_the_key_first_and_gravity_after() {
    let mut game = game_with(TetrominoKind::O, TetrominoKind::T, TetrominoKind::I);
    game.tick(Some(Key::Left), 100);
    assert_eq!(game.tetromino_pos(), (2, 0));
    assert_eq!(game.last_drop_time(), 0);
    game.tick(None, 499);
    assert_eq!(game.tetromino_pos(), (2, 0));
    game.tick(Some(Key::Right), 500);
    assert_eq!(game.tetromino_pos(), (3, 1));
    assert_eq!(game.last_drop_time(), 500);
    game.tick(Some(Key::Down), 1000);
    assert_eq!(game.tetromino_pos(), (3, 2));
    assert_eq!(game.last_drop_time(), 1000);
    game.tick(Some(Key::Down), 1600);
    assert_eq!(game.tetromino_pos(), (3, 3));
    assert_eq!(game.last_drop_time(), 1600);
}

#[test]
fn guide_columns_are_the_columns_under_the_piece() {
    let mut game = game_with(TetrominoKind::T, TetrominoKind::O, TetrominoKind::I);
    assert_eq!(game.guide_columns(), vec![3, 4, 5]);
    game.rotate();
    assert_eq!(game.guide_columns(), vec![4, 5]);
    game.move_left();
    assert_eq!(game.guide_columns(), vec![3, 4]);
    let mut upright = game_with(TetrominoKind::I, TetrominoKind::O, TetrominoKind::I);
    assert_eq!(upright.guide_columns(), vec![3, 4, 5, 6]);
    upright.rotate();
    for _ in 0..8 {
        upright.move_left();
    }
    assert_eq!(upright.tetromino_pos(), (-2, 0));
    assert_eq!(upright.guide_columns(), vec![0]);
    for _ in 0..12 {
        upright.move_right();
    }
    assert_eq!(upright.tetromino_pos(), (7, 0));
    assert_eq!(upright.guide_columns(), vec![9]);
}
