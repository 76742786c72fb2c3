//! The engine: it owns the board, the falling piece and the preview, and
//! carries out the commands of the player and the steps of gravity.

use crate::board::{empty_grid, lists, Board, BOARD_WIDTH};
use crate::collision::{collides, collision};
use crate::input::{command_for, Command, Key};
use crate::rules::{landing_y, lemma_room_is_near, lemma_spawn_has_room, GameView,
    DEFAULT_DROP_INTERVAL, SPAWN_X, SPAWN_Y};
use crate::shape::{has_filled_in_column, rotate_clockwise, rows_of};
use crate::tetromino::{lemma_rotated_piece_wf, lemma_spawn_wf, PieceView, Tetromino,
    TetrominoKind, TetrominoType};
use vstd::prelude::*;

verus! {

/// The engine of one game.
#[derive(Debug)]
pub struct GameController {
    is_game_over: bool,
    is_game_pause: bool,
    board: Board,
    current_tetromino: Tetromino,
    preview_tetrominos: Vec<Tetromino>,
    tetromino_pos: (i32, i32),
    last_drop_time: u64,
    drop_interval: u64,
}

impl View for GameController {
    type V = GameView;

    closed spec fn view(&self) -> GameView {
        GameView {
            board: self.board@,
            current: self.current_tetromino@,
            preview: Seq::new(
                self.preview_tetrominos.len() as nat,
                |i: int| self.preview_tetrominos[i]@,
            ),
            x: self.tetromino_pos.0 as int,
            y: self.tetromino_pos.1 as int,
            game_over: self.is_game_over,
            paused: self.is_game_pause,
            drop_interval: self.drop_interval as int,
            last_drop_time: self.last_drop_time as int,
        }
    }
}

impl GameController {
    /// The board and the pieces have their fixed sizes, two pieces wait, and
    /// the falling piece is within a matrix's reach of the board.
    pub open spec fn wf(&self) -> bool {
        self@.wf()
    }

    /// A new game on an empty board, with three pieces drawn at random: one
    /// that enters and two that wait. `now` is the clock reading, in
    /// milliseconds, from which gravity counts.
    pub fn new(now: u64) -> (game: Self)
        ensures
            game.wf(),
            game@.current.is_spawn(),
            game@.preview[0].is_spawn(),
            game@.preview[1].is_spawn(),
            game@ == GameView::start(empty_grid(), game@.current, game@.preview, now as int),
            !game@.game_over,
    {
        let current = Tetromino::generate_random_tetromino();
        let first = Tetromino::generate_random_tetromino();
        let second = Tetromino::generate_random_tetromino();
        proof {
            lemma_spawn_has_room(current@.kind);
        }
        Self::from_parts(Board::new(), current, first, second, now)
    }

    /// A game on `board` in which `current` enters, `first` comes next and
    /// `second` after it. The game is over at once if the entering piece
    /// finds no room.
    pub fn from_parts(
        board: Board,
        current: Tetromino,
        first: Tetromino,
        second: Tetromino,
        now: u64,
    ) -> (game: Self)
        requires
            board.wf(),
            current.wf(),
            first.wf(),
            second.wf(),
        ensures
            game@ == GameView::start(board@, current@, seq![first@, second@], now as int),
            game.wf(),
    {
        let shape = current.get_shape();
        let is_game_over = collides(&shape, SPAWN_X, SPAWN_Y, &board);
        let mut preview_tetrominos: Vec<Tetromino> = Vec::new();
        preview_tetrominos.push(first);
        preview_tetrominos.push(second);
        let game = Self {
            is_game_over,
            is_game_pause: false,
            board,
            current_tetromino: current,
            preview_tetrominos,
            tetromino_pos: (SPAWN_X, SPAWN_Y),
            last_drop_time: now,
            drop_interval: DEFAULT_DROP_INTERVAL,
        };
        assert(game@.preview =~= seq![first@, second@]);
        game
    }

    /// Whether the game has ended.
    pub fn is_game_over(&self) -> (over: bool)
        ensures
            over == self@.game_over,
    {
        self.is_game_over
    }

    /// Whether gravity is suspended.
    pub fn is_paused(&self) -> (paused: bool)
        ensures
            paused == self@.paused,
    {
        self.is_game_pause
    }

    /// The cells locked so far.
    pub fn board(&self) -> (board: &Board)
        ensures
            board@ == self@.board,
    {
        &self.board
    }

    /// The piece that falls.
    pub fn current_tetromino(&self) -> (piece: &Tetromino)
        ensures
            piece@ == self@.current,
    {
        &self.current_tetromino
    }

    /// The pieces that come next, the next one first.
    pub fn preview_tetrominos(&self) -> (pieces: &Vec<Tetromino>)
        ensures
            pieces.len() == self@.preview.len(),
            forall|i: int| 0 <= i < pieces.len() ==> (#[trigger] pieces[i])@ == self@.preview[i],
    {
        &self.preview_tetrominos
    }

    /// Column and row of the top-left corner of the falling piece's matrix.
    pub fn tetromino_pos(&self) -> (pos: (i32, i32))
        ensures
            pos.0 == self@.x,
            pos.1 == self@.y,
    {
        self.tetromino_pos
    }

    /// Milliseconds between two steps of gravity.
    pub fn drop_interval(&self) -> (millis: u64)
        ensures
            millis == self@.drop_interval,
    {
        self.drop_interval
    }

    /// The clock reading, in milliseconds, from which gravity counts.
    pub fn last_drop_time(&self) -> (millis: u64)
        ensures
            millis == self@.last_drop_time,
    {
        self.last_drop_time
    }

    /// The columns of the board over which the falling piece has a filled
    /// cell, from left to right.
    pub fn guide_columns(&self) -> (columns: Vec<usize>)
        requires
            self.wf(),
        ensures
            forall|column: int| lists(columns@, column) <==> self@.over_column(column),
            forall|i: int, j: int| 0 <= i < j < columns.len() ==> columns[i] < columns[j],
    {
        let shape = self.current_tetromino.get_shape();
        let x = self.tetromino_pos.0;
        let mut columns: Vec<usize> = Vec::new();
        let mut column: usize = 0;
        while column < BOARD_WIDTH
            invariant
                self.wf(),
                rows_of(shape) == self@.current.shape,
                x == self@.x,
                column <= BOARD_WIDTH,
                forall|k: int| 0 <= k < columns.len() ==> columns[k] < column,
                forall|c: int|
                    lists(columns@, c) <==> 0 <= c < column && #[trigger] self@.over_column(c),
                forall|i: int, j: int| 0 <= i < j < columns.len() ==> columns[i] < columns[j],
            decreases BOARD_WIDTH - column,
        {
            let c: i32 = column as i32 - x;
            let ghost before = columns@;
            if c >= 0 && has_filled_in_column(&shape, c as usize) {
                columns.push(column);
                assert(columns@[before.len() as int] == column);
                assert forall|k: int| lists(before, k) implies lists(columns@, k) by {
                    let i = choose|i: int| 0 <= i < before.len() && #[trigger] before[i] == k;
                    assert(columns@[i] == k);
                }
            }
            assert forall|k: int| lists(columns@, k) <==> 0 <= k < column + 1
                && #[trigger] self@.over_column(k) by {
                if lists(columns@, k) {
                    let i = choose|i: int| 0 <= i < columns.len() && #[trigger] columns@[i] == k;
                    if i < before.len() {
                        assert(before[i] == k);
                        assert(lists(before, k));
                    }
                }
                if 0 <= k < column && self@.over_column(k) {
                    assert(lists(before, k));
                }
            }
            column += 1;
        }
        columns
    }

    /// Carries out the command that `key` stands for, if it stands for one.
    /// `now` is the clock reading in milliseconds.
    pub fn handle_input(&mut self, key: Key, now: u64)
        requires
            old(self).wf(),
        ensures
            exists|incoming: PieceView| #[trigger]
                incoming.is_spawn() && final(self)@ == old(self)@.handle_input(
                    key,
                    now as int,
                    incoming,
                ),
            final(self).wf(),
    {
        match command_for(key) {
            Some(command) => {
                self.apply(command, now);
            },
            None => {
                proof {
                    lemma_spawn_wf(TetrominoKind::I);
                }
            },
        }
    }

    /// Carries out a command. `now` is the clock reading in milliseconds.
    pub fn apply(&mut self, command: Command, now: u64)
        requires
            old(self).wf(),
        ensures
            exists|incoming: PieceView| #[trigger]
                incoming.is_spawn() && final(self)@ == old(self)@.apply(
                    command,
                    now as int,
                    incoming,
                ),
            final(self).wf(),
    {
        proof {
            lemma_spawn_wf(TetrominoKind::I);
        }
        match command {
            Command::Rotate => self.rotate(),
            Command::MoveDown => self.move_down(now),
            Command::MoveLeft => self.move_left(),
            Command::MoveRight => self.move_right(),
            Command::HardDrop => self.hard_drop(),
            Command::TogglePause => self.toggle_pause(),
        }
    }

    /// Turns the piece a quarter turn clockwise where it stands, if the
    /// turned piece has room there.
    pub fn rotate(&mut self)
        requires
            old(self).wf(),
        ensures
            final(self)@ == old(self)@.rotate(),
            final(self).wf(),
    {
        if self.is_game_over {
            return ;
        }
        let block = rotate_clockwise(&self.current_tetromino.get_shape());
        let (x, y) = self.tetromino_pos;
        if !self.check_collision(&block, x, y) {
            proof {
                lemma_rotated_piece_wf(self.current_tetromino@);
            }
            self.current_tetromino.set_shape(block);
        }
    }

    /// Moves the piece one row down, and gravity counts anew from `now`; or,
    /// if the piece has no room below, locks it, clears the full rows and
    /// lets the next piece enter.
    pub fn move_down(&mut self, now: u64)
        requires
            old(self).wf(),
        ensures
            exists|incoming: PieceView| #[trigger]
                incoming.is_spawn() && final(self)@ == old(self)@.move_down(now as int, incoming),
            final(self).wf(),
    {
        proof {
            lemma_spawn_wf(TetrominoKind::I);
        }
        if self.is_game_over {
            return ;
        }
        let shape = self.current_tetromino.get_shape();
        let (x, y) = self.tetromino_pos;
        let new_y = y + 1;
        if !self.check_collision(&shape, x, new_y) {
            proof {
                lemma_room_is_near(self.current_tetromino@, x as int, new_y as int, self.board@);
            }
            self.tetromino_pos.1 = new_y;
            self.last_drop_time = now;
        } else {
            self.lock_tetromino();
            self.clear_lines();
            self.spawn_new_tetromino();
        }
    }

    /// Moves the piece one column to the left, if it has room there.
    pub fn move_left(&mut self)
        requires
            old(self).wf(),
        ensures
            final(self)@ == old(self)@.move_left(),
            final(self).wf(),
    {
        if self.is_game_over {
            return ;
        }
        let shape = self.current_tetromino.get_shape();
        let (x, y) = self.tetromino_pos;
        let new_x = x - 1;
        if !self.check_collision(&shape, new_x, y) {
            proof {
                lemma_room_is_near(self.current_tetromino@, new_x as int, y as int, self.board@);
            }
            self.tetromino_pos.0 = new_x;
        }
    }

    /// Moves the piece one column to the right, if it has room there.
    pub fn move_right(&mut self)
        requires
            old(self).wf(),
        ensures
            final(self)@ == old(self)@.move_right(),
            final(self).wf(),
    {
        if self.is_game_over {
            return ;
        }
        let shape = self.current_tetromino.get_shape();
        let (x, y) = self.tetromino_pos;
        let new_x = x + 1;
        if !self.check_collision(&shape, new_x, y) {
            proof {
                lemma_room_is_near(self.current_tetromino@, new_x as int, y as int, self.board@);
            }
            self.tetromino_pos.0 = new_x;
        }
    }

    /// Suspends gravity if it runs, resumes it if it is suspended. The other
    /// commands are carried out as before while the game is paused.
    pub fn toggle_pause(&mut self)
        requires
            old(self).wf(),
        ensures
            final(self)@ == old(self)@.toggle_pause(),
            final(self).wf(),
    {
        if self.is_game_over {
            return ;
        }
        self.is_game_pause = !self.is_game_pause;
    }

    /// Lets the piece fall as far as it can, locks it there, clears the full
    /// rows and lets the next piece enter.
    pub fn hard_drop(&mut self)
        requires
            old(self).wf(),
        ensures
            exists|incoming: PieceView| #[trigger]
                incoming.is_spawn() && final(self)@ == old(self)@.hard_drop(incoming),
            final(self).wf(),
    {
        proof {
            lemma_spawn_wf(TetrominoKind::I);
        }
        if self.is_game_over {
            return ;
        }
        let shape = self.current_tetromino.get_shape();
        let (x, y0) = self.tetromino_pos;
        let mut y = y0;
        while !self.check_collision(&shape, x, y + 1)
            invariant
                self.wf(),
                *self == *old(self),
                rows_of(shape) == self@.current.shape,
                x == self@.x,
                -4 < y < 20,
                landing_y(rows_of(shape), x as int, y as int, self@.board) == landing_y(
                    rows_of(shape),
                    x as int,
                    y0 as int,
                    self@.board,
                ),
            decreases 20 - y,
        {
            proof {
                lemma_room_is_near(self.current_tetromino@, x as int, y + 1, self.board@);
            }
            y += 1;
        }
        self.tetromino_pos.1 = y;
        self.lock_tetromino();
        self.clear_lines();
        self.spawn_new_tetromino();
    }

    /// Whether a piece with matrix `shape`, its top-left corner at column
    /// `x`, row `y`, would leave the board or overlap a cell already taken.
    pub fn check_collision(&self, shape: &TetrominoType, x: i32, y: i32) -> (hit: bool)
        requires
            self.wf(),
        ensures
            hit == collision(rows_of(*shape), x as int, y as int, self@.board),
    {
        collides(shape, x, y, &self.board)
    }

    /// Writes the falling piece into the board where it stands.
    pub fn lock_tetromino(&mut self)
        requires
            old(self).wf(),
        ensures
            final(self)@ == old(self)@.lock(),
            final(self).wf(),
    {
        let shape = self.current_tetromino.get_shape();
        let color = self.current_tetromino.get_color();
        let (x, y) = self.tetromino_pos;
        self.board.merge(&shape, x, y, color);
    }

    /// Clears every full row: the rows above sink, and empty rows come in at
    /// the top.
    pub fn clear_lines(&mut self)
        requires
            old(self).wf(),
        ensures
            final(self)@ == old(self)@.clear_lines(),
            final(self).wf(),
    {
        let lines_to_clear = self.board.scan_full_rows();
        self.board.clear_rows(&lines_to_clear);
    }

    /// Lets the next piece enter and a piece drawn at random join the end of
    /// the preview. The game is over if the entering piece finds no room.
    pub fn spawn_new_tetromino(&mut self)
        requires
            old(self).wf(),
        ensures
            exists|incoming: PieceView| #[trigger]
                incoming.is_spawn() && final(self)@ == old(self)@.spawn(incoming),
            final(self).wf(),
    {
        let incoming = Tetromino::generate_random_tetromino();
        self.spawn_tetromino(incoming);
    }

    /// Lets the next piece enter and `incoming` join the end of the preview.
    /// The game is over if the entering piece finds no room.
    pub fn spawn_tetromino(&mut self, incoming: Tetromino)
        requires
            old(self).wf(),
            incoming.wf(),
        ensures
            final(self)@ == old(self)@.spawn(incoming@),
            final(self).wf(),
    {
        self.current_tetromino = self.preview_tetrominos.remove(0);
        self.preview_tetrominos.push(incoming);
        self.tetromino_pos = (SPAWN_X, SPAWN_Y);
        let shape = self.current_tetromino.get_shape();
        if self.check_collision(&shape, self.tetromino_pos.0, self.tetromino_pos.1) {
            self.is_game_over = true;
        }
        assert(self@.preview =~= seq![old(self)@.preview[1], incoming@]);
    }

    /// A tick of the clock, which reads `now` milliseconds: if the game runs
    /// and is not paused and the interval has passed since the last step of
    /// gravity, the piece moves down and gravity counts from `now`.
    pub fn update(&mut self, now: u64)
        requires
            old(self).wf(),
        ensures
            exists|incoming: PieceView| #[trigger]
                incoming.is_spawn() && final(self)@ == old(self)@.update(now as int, incoming),
            final(self).wf(),
    {
        proof {
            lemma_spawn_wf(TetrominoKind::I);
        }
        if self.is_game_over || self.is_game_pause {
            return ;
        }
        let elapsed = now.saturating_sub(self.last_drop_time);
        if elapsed >= self.drop_interval {
            self.move_down(now);
            self.last_drop_time = now;
        }
    }

    /// One round of the game loop: carries out the command of the key that
    /// was pressed, if one was, and then lets the clock tick. `now` is the
    /// clock reading in milliseconds.
    pub fn tick(&mut self, key: Option<Key>, now: u64)
        requires
            old(self).wf(),
        ensures
            exists|first: PieceView, second: PieceView|
                #![trigger first.is_spawn(), second.is_spawn()]
                first.is_spawn() && second.is_spawn() && final(self)@ == old(self)@.tick(
                    key,
                    now as int,
                    first,
                    second,
                ),
            final(self).wf(),
    {
        proof {
            lemma_spawn_wf(TetrominoKind::I);
        }
        match key {
            Some(pressed) => {
                self.handle_input(pressed, now);
            },
            None => {},
        }
        self.update(now);
    }

    /// Sets the interval between two steps of gravity, in milliseconds. The
    /// time that has passed since the last step still counts as it is.
    pub fn set_drop_interval(&mut self, millis: u64)
        ensures
            final(self)@ == old(self)@.set_drop_interval(millis as int),
            old(self).wf() ==> final(self).wf(),
    {
        self.drop_interval = millis;
    }
}

} // verus!
