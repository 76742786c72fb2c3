//! The rules of the game, as functions from one state of play to the next.

use crate::board::{cleared, empty_grid, full_rows, grid_wf, in_bounds, lemma_kept_rows, merged,
    occupied, Grid, BOARD_HEIGHT, BOARD_WIDTH};
use crate::collision::collision;
use crate::input::{command_of, Command, Key};
use crate::shape::{column_filled, filled, rotated};
use crate::tetromino::{color_of, lemma_rotated_piece_wf, lemma_spawn_wf, spawn_shape, PieceView,
    TetrominoKind};
use vstd::prelude::*;

verus! {

/// The column at which every piece enters the board.
pub const SPAWN_X: i32 = 3;

/// The row at which every piece enters the board.
pub const SPAWN_Y: i32 = 0;

/// Milliseconds between two steps of gravity, unless set otherwise.
pub const DEFAULT_DROP_INTERVAL: u64 = 500;

/// How many pieces wait in the preview.
pub const PREVIEW_LEN: usize = 2;

/// The row at which a piece comes to rest when it falls from row `y`: it
/// goes down one row at a time for as long as the row below is free.
pub open spec fn landing_y(shape: Seq<Seq<bool>>, x: int, y: int, g: Grid) -> int
    decreases BOARD_HEIGHT - y,
{
    if y >= BOARD_HEIGHT || collision(shape, x, y + 1, g) {
        y
    } else {
        landing_y(shape, x, y + 1, g)
    }
}

/// A state of play.
#[verifier::ext_equal]
pub struct GameView {
    /// The cells locked so far.
    pub board: Grid,
    /// The piece that falls.
    pub current: PieceView,
    /// The pieces that come next, the next one first.
    pub preview: Seq<PieceView>,
    /// Column of the top-left corner of the falling piece's matrix.
    pub x: int,
    /// Row of the top-left corner of the falling piece's matrix.
    pub y: int,
    /// The game has ended.
    pub game_over: bool,
    /// Gravity is suspended.
    pub paused: bool,
    /// Milliseconds between two steps of gravity.
    pub drop_interval: int,
    /// The clock reading, in milliseconds, from which gravity counts.
    pub last_drop_time: int,
}

impl GameView {
    /// The state a game starts in on `board`, with `current` entering and
    /// `preview` waiting. The game is over at once if the piece finds no
    /// room.
    pub open spec fn start(board: Grid, current: PieceView, preview: Seq<PieceView>, now: int) -> GameView {
        GameView {
            board,
            current,
            preview,
            x: SPAWN_X as int,
            y: SPAWN_Y as int,
            game_over: collision(current.shape, SPAWN_X as int, SPAWN_Y as int, board),
            paused: false,
            drop_interval: DEFAULT_DROP_INTERVAL as int,
            last_drop_time: now,
        }
    }

    /// The board and the pieces have their fixed sizes, two pieces wait, and
    /// the falling piece is within a matrix's reach of the board.
    pub open spec fn wf(self) -> bool {
        &&& grid_wf(self.board)
        &&& self.current.wf()
        &&& self.preview.len() == PREVIEW_LEN
        &&& self.preview[0].wf()
        &&& self.preview[1].wf()
        &&& -4 < self.x < BOARD_WIDTH
        &&& -4 < self.y < BOARD_HEIGHT
    }

    /// While the game runs, the falling piece lies on the board and on no
    /// cell that is taken.
    pub open spec fn placed(self) -> bool {
        !self.game_over ==> !collision(self.current.shape, self.x, self.y, self.board)
    }

    /// The falling piece has a filled cell over column `column` of the
    /// board.
    pub open spec fn over_column(self, column: int) -> bool {
        0 <= column < BOARD_WIDTH && column_filled(self.current.shape, column - self.x)
    }

    /// The piece moved `dx` columns sideways, if it has room there.
    pub open spec fn shifted_by(self, dx: int) -> GameView {
        if !self.game_over && !collision(self.current.shape, self.x + dx, self.y, self.board) {
            GameView { x: self.x + dx, ..self }
        } else {
            self
        }
    }

    /// One column to the left, if the piece has room there.
    pub open spec fn move_left(self) -> GameView {
        self.shifted_by(-1)
    }

    /// One column to the right, if the piece has room there.
    pub open spec fn move_right(self) -> GameView {
        self.shifted_by(1)
    }

    /// A quarter turn clockwise where the piece stands, if the turned piece
    /// has room there. There is no second try at another place.
    pub open spec fn rotate(self) -> GameView {
        let turned = rotated(self.current.shape);
        if !self.game_over && !collision(turned, self.x, self.y, self.board) {
            GameView { current: self.current.with_shape(turned), ..self }
        } else {
            self
        }
    }

    /// The falling piece written into the board where it stands.
    pub open spec fn lock(self) -> GameView {
        GameView {
            board: merged(
                self.board,
                self.current.shape,
                self.x,
                self.y,
                color_of(self.current.kind),
            ),
            ..self
        }
    }

    /// Every full row cleared.
    pub open spec fn clear_lines(self) -> GameView {
        GameView { board: cleared(self.board, full_rows(self.board)), ..self }
    }

    /// The next piece enters at the spawn place and `incoming` joins the end
    /// of the preview. The game is over if the entering piece finds no room.
    pub open spec fn spawn(self, incoming: PieceView) -> GameView {
        GameView {
            current: self.preview[0],
            preview: seq![self.preview[1], incoming],
            x: SPAWN_X as int,
            y: SPAWN_Y as int,
            game_over: self.game_over || collision(
                self.preview[0].shape,
                SPAWN_X as int,
                SPAWN_Y as int,
                self.board,
            ),
            ..self
        }
    }

    /// What follows when the piece can fall no further: it is locked, full
    /// rows are cleared, and the next piece enters.
    pub open spec fn settle(self, incoming: PieceView) -> GameView {
        self.lock().clear_lines().spawn(incoming)
    }

    /// One row down, from which gravity counts anew; or, if the piece has
    /// no room below, it settles.
    pub open spec fn move_down(self, now: int, incoming: PieceView) -> GameView {
        if self.game_over {
            self
        } else if !collision(self.current.shape, self.x, self.y + 1, self.board) {
            GameView { y: self.y + 1, last_drop_time: now, ..self }
        } else {
            self.settle(incoming)
        }
    }

    /// The piece falls as far as it can and settles there.
    pub open spec fn hard_drop(self, incoming: PieceView) -> GameView {
        if self.game_over {
            self
        } else {
            GameView {
                y: landing_y(self.current.shape, self.x, self.y, self.board),
                ..self
            }.settle(incoming)
        }
    }

    /// Gravity suspended if it ran, resumed if it was suspended.
    pub open spec fn toggle_pause(self) -> GameView {
        if self.game_over {
            self
        } else {
            GameView { paused: !self.paused, ..self }
        }
    }

    /// Milliseconds from the last step of gravity to `now`; none if the
    /// clock reads earlier than it did then.
    pub open spec fn elapsed(self, now: int) -> int {
        if now >= self.last_drop_time {
            now - self.last_drop_time
        } else {
            0
        }
    }

    /// Gravity takes a step at `now`: the game runs, is not paused, and the
    /// interval has passed.
    pub open spec fn gravity_due(self, now: int) -> bool {
        !self.game_over && !self.paused && self.elapsed(now) >= self.drop_interval
    }

    /// A tick of the clock: if gravity is due the piece moves down, and
    /// gravity counts from `now`.
    pub open spec fn update(self, now: int, incoming: PieceView) -> GameView {
        if self.gravity_due(now) {
            GameView { last_drop_time: now, ..self.move_down(now, incoming) }
        } else {
            self
        }
    }

    /// Another interval between two steps of gravity. The time that has
    /// passed since the last step still counts as it is.
    pub open spec fn set_drop_interval(self, millis: int) -> GameView {
        GameView { drop_interval: millis, ..self }
    }

    /// One round of the game loop: the command of the key that was pressed,
    /// if one was, and then the tick of the clock. `first` is the piece that
    /// joins the preview if the command settles the falling piece, `second`
    /// the one that joins it if gravity does.
    pub open spec fn tick(
        self,
        key: Option<Key>,
        now: int,
        first: PieceView,
        second: PieceView,
    ) -> GameView {
        let handled = match key {
            Some(pressed) => self.handle_input(pressed, now, first),
            None => self,
        };
        handled.update(now, second)
    }

    /// The same state with gravity counting from `time`.
    pub open spec fn with_timer(self, time: int) -> GameView {
        GameView { last_drop_time: time, ..self }
    }

    /// The state after `count` moves down, one after the other.
    pub open spec fn steps_down(self, count: nat, now: int, incoming: PieceView) -> GameView
        decreases count,
    {
        if count == 0 {
            self
        } else {
            self.steps_down((count - 1) as nat, now, incoming).move_down(now, incoming)
        }
    }

    /// The state after a command.
    pub open spec fn apply(self, command: Command, now: int, incoming: PieceView) -> GameView {
        match command {
            Command::Rotate => self.rotate(),
            Command::MoveDown => self.move_down(now, incoming),
            Command::MoveLeft => self.move_left(),
            Command::MoveRight => self.move_right(),
            Command::HardDrop => self.hard_drop(incoming),
            Command::TogglePause => self.toggle_pause(),
        }
    }

    /// The state after a key press: that of the key's command, or the same
    /// state if the key stands for none.
    pub open spec fn handle_input(self, key: Key, now: int, incoming: PieceView) -> GameView {
        match command_of(key) {
            Some(command) => self.apply(command, now, incoming),
            None => self,
        }
    }
}

/// A piece that has room stands within a matrix's reach of the board.
pub proof fn lemma_room_is_near(piece: PieceView, x: int, y: int, g: Grid)
    requires
        piece.wf(),
        !collision(piece.shape, x, y, g),
    ensures
        -4 < x < BOARD_WIDTH,
        -4 < y < BOARD_HEIGHT,
{
    let (r, c) = choose|r: int, c: int| filled(piece.shape, r, c);
    assert(filled(piece.shape, r, c));
    assert(piece.shape[r].len() == piece.shape.len());
    assert(in_bounds(x + c, y + r));
}

/// On an empty board every kind of piece has room where it enters.
pub proof fn lemma_spawn_has_room(kind: TetrominoKind)
    ensures
        !collision(spawn_shape(kind), SPAWN_X as int, SPAWN_Y as int, empty_grid()),
{
    let s = spawn_shape(kind);
    lemma_spawn_wf(kind);
    assert forall|r: int, c: int| #[trigger] filled(s, r, c) implies !occupied(
        empty_grid(),
        SPAWN_X + c,
        SPAWN_Y + r,
    ) by {
        assert(s[r].len() == s.len());
        assert(in_bounds(SPAWN_X + c, SPAWN_Y + r));
    }
}

/// The steps of settling keep the state well formed.
pub proof fn lemma_settle_wf(s: GameView, incoming: PieceView)
    requires
        s.wf(),
        incoming.wf(),
    ensures
        s.lock().wf(),
        s.clear_lines().wf(),
        s.spawn(incoming).wf(),
        s.settle(incoming).wf(),
{
    lemma_kept_rows(s.board, full_rows(s.board));
    let locked = s.lock();
    lemma_kept_rows(locked.board, full_rows(locked.board));
}

/// Every command, and every tick of the clock, takes a well-formed state to
/// a well-formed state: the board and the pieces keep their sizes, two
/// pieces wait, and the falling piece stays within reach of the board.
pub proof fn lemma_commands_keep_wf(s: GameView, command: Command, now: int, incoming: PieceView)
    requires
        s.wf(),
        incoming.wf(),
    ensures
        s.apply(command, now, incoming).wf(),
        s.update(now, incoming).wf(),
{
    let shape = s.current.shape;
    lemma_rotated_piece_wf(s.current);
    if !collision(shape, s.x - 1, s.y, s.board) {
        lemma_room_is_near(s.current, s.x - 1, s.y, s.board);
    }
    if !collision(shape, s.x + 1, s.y, s.board) {
        lemma_room_is_near(s.current, s.x + 1, s.y, s.board);
    }
    if !collision(shape, s.x, s.y + 1, s.board) {
        lemma_room_is_near(s.current, s.x, s.y + 1, s.board);
    }
    lemma_settle_wf(s, incoming);
    lemma_landing(s.current, s.x, s.y, s.board);
    lemma_settle_wf(GameView { y: landing_y(shape, s.x, s.y, s.board), ..s }, incoming);
}

/// Where a falling piece lands: no higher than it started, within reach of
/// the board, with room on every row it passed on the way, and with no room
/// one row further down.
pub proof fn lemma_landing(piece: PieceView, x: int, y: int, g: Grid)
    requires
        piece.wf(),
        -4 < y < BOARD_HEIGHT,
    ensures
        y <= landing_y(piece.shape, x, y, g) < BOARD_HEIGHT,
        forall|row: int|
            y < row <= landing_y(piece.shape, x, y, g) ==> !#[trigger] collision(
                piece.shape,
                x,
                row,
                g,
            ),
        collision(piece.shape, x, landing_y(piece.shape, x, y, g) + 1, g),
    decreases BOARD_HEIGHT - y,
{
    if !collision(piece.shape, x, y + 1, g) {
        lemma_room_is_near(piece, x, y + 1, g);
        lemma_landing(piece, x, y + 1, g);
    }
}

/// While the game runs the falling piece never overlaps a cell or leaves
/// the board: no command and no tick of the clock puts it where it has no
/// room.
pub proof fn lemma_commands_keep_placed(
    s: GameView,
    command: Command,
    now: int,
    incoming: PieceView,
)
    requires
        s.placed(),
    ensures
        s.apply(command, now, incoming).placed(),
        s.update(now, incoming).placed(),
{
}

/// A game that is over stays over, and nothing changes it: every command
/// and every tick of the clock leaves the state as it is.
pub proof fn lemma_game_over_is_final(
    s: GameView,
    command: Command,
    key: Key,
    now: int,
    incoming: PieceView,
)
    requires
        s.game_over,
    ensures
        s.apply(command, now, incoming) == s,
        s.handle_input(key, now, incoming) == s,
        s.update(now, incoming) == s,
{
}

/// No command and no tick of the clock brings a game that is over back to
/// life.
pub proof fn lemma_game_over_one_way(
    s: GameView,
    command: Command,
    now: int,
    incoming: PieceView,
)
    ensures
        s.game_over ==> s.apply(command, now, incoming).game_over,
        s.game_over ==> s.update(now, incoming).game_over,
{
}

/// A pause holds gravity back and nothing else: a tick of the clock leaves a
/// paused game as it is, whatever the clock reads.
pub proof fn lemma_pause_suspends_gravity(s: GameView, now: int, incoming: PieceView)
    requires
        s.paused,
    ensures
        s.update(now, incoming) == s,
{
}

/// A piece that finds no room where it enters ends the game, and the board
/// stays as it was before the piece entered; a piece that finds room ends
/// nothing.
pub proof fn lemma_spawn_without_room(s: GameView, incoming: PieceView)
    ensures
        s.spawn(incoming).board == s.board,
        collision(s.preview[0].shape, SPAWN_X as int, SPAWN_Y as int, s.board) ==> s.spawn(
            incoming,
        ).game_over,
        !collision(s.preview[0].shape, SPAWN_X as int, SPAWN_Y as int, s.board) ==> s.spawn(
            incoming,
        ).game_over == s.game_over,
        s.spawn(incoming).placed(),
{
}

/// The preview is a queue of two: the piece that enters is the one that
/// waited longest, the other moves up, and the new piece waits last.
pub proof fn lemma_spawn_queue(s: GameView, incoming: PieceView)
    requires
        s.wf(),
    ensures
        s.spawn(incoming).current == s.preview[0],
        s.spawn(incoming).preview.len() == PREVIEW_LEN,
        s.spawn(incoming).preview[0] == s.preview[1],
        s.spawn(incoming).preview[1] == incoming,
        s.spawn(incoming).x == SPAWN_X,
        s.spawn(incoming).y == SPAWN_Y,
{
}

/// A piece that has room where it stands is written into the board whole:
/// each of its filled cells lands on a free cell of the board and takes the
/// colour of the piece, and every other cell stays as it was.
pub proof fn lemma_lock_writes_piece(s: GameView)
    requires
        s.wf(),
        !collision(s.current.shape, s.x, s.y, s.board),
    ensures
        forall|r: int, c: int| #[trigger]
            filled(s.current.shape, r, c) ==> {
                &&& in_bounds(s.x + c, s.y + r)
                &&& s.board[s.y + r][s.x + c] is None
                &&& s.lock().board[s.y + r][s.x + c] == Some(color_of(s.current.kind))
            },
        forall|bx: int, by: int|
            in_bounds(bx, by) && !filled(s.current.shape, by - s.y, bx - s.x)
                ==> #[trigger] s.lock().board[by][bx] == s.board[by][bx],
{
    assert forall|r: int, c: int| #[trigger] filled(s.current.shape, r, c) implies {
        &&& in_bounds(s.x + c, s.y + r)
        &&& s.board[s.y + r][s.x + c] is None
        &&& s.lock().board[s.y + r][s.x + c] == Some(color_of(s.current.kind))
    } by {
        assert(!occupied(s.board, s.x + c, s.y + r));
        assert(filled(s.current.shape, (s.y + r) - s.y, (s.x + c) - s.x));
    }
}

/// A hard drop is a run of moves down: the piece goes down one row with
/// each move for as many moves as there are rows to where it lands, and
/// the next move settles it there. The two ways end in the same state, but
/// for the time from which gravity counts, which a move down that finds
/// room sets anew and a hard drop leaves alone.
pub proof fn lemma_hard_drop_by_steps(s: GameView, now: int, incoming: PieceView)
    requires
        s.wf(),
        !s.game_over,
    ensures
        landing_y(s.current.shape, s.x, s.y, s.board) >= s.y,
        forall|count: nat|
            count <= landing_y(s.current.shape, s.x, s.y, s.board) - s.y ==> #[trigger] s.steps_down(
                count,
                now,
                incoming,
            ) == (GameView { y: s.y + count, ..s }).with_timer(
                if count == 0 {
                    s.last_drop_time
                } else {
                    now
                },
            ),
        s.steps_down(
            (landing_y(s.current.shape, s.x, s.y, s.board) - s.y + 1) as nat,
            now,
            incoming,
        ) == s.hard_drop(incoming).with_timer(
            if landing_y(s.current.shape, s.x, s.y, s.board) == s.y {
                s.last_drop_time
            } else {
                now
            },
        ),
{
    let shape = s.current.shape;
    let land = landing_y(shape, s.x, s.y, s.board);
    lemma_landing(s.current, s.x, s.y, s.board);
    assert forall|count: nat| count <= land - s.y implies #[trigger] s.steps_down(
        count,
        now,
        incoming,
    ) == (GameView { y: s.y + count, ..s }).with_timer(
        if count == 0 {
            s.last_drop_time
        } else {
            now
        },
    ) by {
        lemma_steps_down(s, count, now, incoming);
    }
    let rows = (land - s.y) as nat;
    lemma_steps_down(s, rows, now, incoming);
    let low = s.steps_down(rows, now, incoming);
    assert(s.steps_down(rows + 1, now, incoming) == low.move_down(now, incoming));
    assert(low.move_down(now, incoming) == low.settle(incoming));
    assert(low.settle(incoming) =~= s.hard_drop(incoming).with_timer(low.last_drop_time));
}

proof fn lemma_steps_down(s: GameView, count: nat, now: int, incoming: PieceView)
    requires
        s.wf(),
        !s.game_over,
        count <= landing_y(s.current.shape, s.x, s.y, s.board) - s.y,
    ensures
        s.steps_down(count, now, incoming) == (GameView { y: s.y + count, ..s }).with_timer(
            if count == 0 {
                s.last_drop_time
            } else {
                now
            },
        ),
    decreases count,
{
    if count > 0 {
        lemma_steps_down(s, (count - 1) as nat, now, incoming);
        lemma_landing(s.current, s.x, s.y, s.board);
        let before = s.steps_down((count - 1) as nat, now, incoming);
        assert(!collision(s.current.shape, s.x, s.y + count, s.board));
        assert(before.move_down(now, incoming) =~= (GameView { y: s.y + count, ..s }).with_timer(
            now,
        ));
    } else {
        assert(s =~= (GameView { y: s.y + 0, ..s }).with_timer(s.last_drop_time));
    }
}

/// On an empty board a piece that has room where it stands has room on
/// every row down to where it lands and on no row below: a hard drop takes
/// it to the lowest row at which it lies on the board.
pub proof fn lemma_landing_on_empty_board(piece: PieceView, x: int, y: int)
    requires
        piece.wf(),
        !collision(piece.shape, x, y, empty_grid()),
    ensures
        forall|row: int|
            y <= row ==> (!#[trigger] collision(piece.shape, x, row, empty_grid()) <==> row
                <= landing_y(piece.shape, x, y, empty_grid())),
{
    let g = empty_grid();
    let land = landing_y(piece.shape, x, y, g);
    lemma_room_is_near(piece, x, y, g);
    lemma_landing(piece, x, y, g);
    let (r, c) = choose|r: int, c: int| #[trigger]
        filled(piece.shape, r, c) && occupied(g, x + c, land + 1 + r);
    assert(!occupied(g, x + c, y + r));
    assert forall|row: int| row > land implies #[trigger] collision(piece.shape, x, row, g) by {
        assert(filled(piece.shape, r, c) && occupied(g, x + c, row + r));
    }
}

} // verus!
