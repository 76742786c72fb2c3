//! The seven piece kinds, their starting matrices and colours, and the piece
//! that falls.

use crate::shape::{filled, has_filled_cell, is_square, lemma_rotated_cells,
    lemma_rotated_four_times, lemma_rotated_keeps_filled, rotated, rows_of};
use vstd::prelude::*;

verus! {

const SHAPE_I: [[bool; 4]; 4] = [
    [false, false, false, false],
    [true, true, true, true],
    [false, false, false, false],
    [false, false, false, false],
];

const SHAPE_J: [[bool; 3]; 3] = [
    [true, false, false],
    [true, true, true],
    [false, false, false],
];

const SHAPE_L: [[bool; 3]; 3] = [
    [false, false, true],
    [true, true, true],
    [false, false, false],
];

const SHAPE_O: [[bool; 2]; 2] = [[true, true], [true, true]];

const SHAPE_S: [[bool; 3]; 3] = [
    [false, true, true],
    [true, true, false],
    [false, false, false],
];

const SHAPE_T: [[bool; 3]; 3] = [
    [false, true, false],
    [true, true, true],
    [false, false, false],
];

const SHAPE_Z: [[bool; 3]; 3] = [
    [true, true, false],
    [false, true, true],
    [false, false, false],
];

/// The matrix of a piece: rows of cells, `true` where the piece is solid.
pub type TetrominoType = Vec<Vec<bool>>;

/// How many kinds of piece there are.
pub const KIND_COUNT: usize = 7;

#[derive(Debug, Clone, Copy, PartialEq, Eq, Structural)]
pub enum TetrominoKind {
    I,
    J,
    L,
    O,
    S,
    T,
    Z,
}

/// The colour a piece is painted in, and that its cells keep on the board.
#[derive(Debug, Clone, Copy, PartialEq, Eq, Structural)]
pub enum Color {
    Cyan,
    Blue,
    DarkYellow,
    Yellow,
    Green,
    Magenta,
    Red,
}

/// The kind that stands at `index` in the order I, J, L, O, S, T, Z.
pub open spec fn kind_at(index: int) -> TetrominoKind {
    if index == 0 {
        TetrominoKind::I
    } else if index == 1 {
        TetrominoKind::J
    } else if index == 2 {
        TetrominoKind::L
    } else if index == 3 {
        TetrominoKind::O
    } else if index == 4 {
        TetrominoKind::S
    } else if index == 5 {
        TetrominoKind::T
    } else {
        TetrominoKind::Z
    }
}

/// The side of the square matrix that holds a piece of this kind.
pub open spec fn side(kind: TetrominoKind) -> nat {
    match kind {
        TetrominoKind::I => 4,
        TetrominoKind::O => 2,
        _ => 3,
    }
}

/// The matrix a piece of this kind starts with, before any rotation.
pub open spec fn spawn_shape(kind: TetrominoKind) -> Seq<Seq<bool>> {
    match kind {
        TetrominoKind::I => seq![
            seq![false, false, false, false],
            seq![true, true, true, true],
            seq![false, false, false, false],
            seq![false, false, false, false],
        ],
        TetrominoKind::J => seq![
            seq![true, false, false],
            seq![true, true, true],
            seq![false, false, false],
        ],
        TetrominoKind::L => seq![
            seq![false, false, true],
            seq![true, true, true],
            seq![false, false, false],
        ],
        TetrominoKind::O => seq![seq![true, true], seq![true, true]],
        TetrominoKind::S => seq![
            seq![false, true, true],
            seq![true, true, false],
            seq![false, false, false],
        ],
        TetrominoKind::T => seq![
            seq![false, true, false],
            seq![true, true, true],
            seq![false, false, false],
        ],
        TetrominoKind::Z => seq![
            seq![true, true, false],
            seq![false, true, true],
            seq![false, false, false],
        ],
    }
}

/// The colour of each kind.
pub open spec fn color_of(kind: TetrominoKind) -> Color {
    match kind {
        TetrominoKind::I => Color::Cyan,
        TetrominoKind::J => Color::Blue,
        TetrominoKind::L => Color::DarkYellow,
        TetrominoKind::O => Color::Yellow,
        TetrominoKind::S => Color::Green,
        TetrominoKind::T => Color::Magenta,
        TetrominoKind::Z => Color::Red,
    }
}

/// What a piece is: its matrix in its present orientation, and its kind.
pub struct PieceView {
    pub shape: Seq<Seq<bool>>,
    pub kind: TetrominoKind,
}

impl PieceView {
    /// A piece of `kind` as it enters the game.
    pub open spec fn spawn(kind: TetrominoKind) -> PieceView {
        PieceView { shape: spawn_shape(kind), kind }
    }

    /// The piece has not been turned since it entered the game.
    pub open spec fn is_spawn(self) -> bool {
        self.shape == spawn_shape(self.kind)
    }

    /// The matrix is square, of the side its kind asks for, and not empty.
    pub open spec fn wf(self) -> bool {
        &&& self.shape.len() == side(self.kind)
        &&& is_square(self.shape)
        &&& has_filled_cell(self.shape)
    }

    /// The same piece with another matrix.
    pub open spec fn with_shape(self, shape: Seq<Seq<bool>>) -> PieceView {
        PieceView { shape, kind: self.kind }
    }
}

/// Every kind starts as a well-formed piece.
pub proof fn lemma_spawn_wf(kind: TetrominoKind)
    ensures
        PieceView::spawn(kind).wf(),
        PieceView::spawn(kind).is_spawn(),
{
    let s = spawn_shape(kind);
    assert(is_square(s)) by {
        assert forall|r: int| 0 <= r < s.len() implies (#[trigger] s[r]).len() == s.len() by {
            if r == 0 {
            } else if r == 1 {
            } else if r == 2 {
            } else {
            }
        }
    }
    assert(filled(s, 1, 1));
}

/// The seven kinds have seven different colours.
pub proof fn lemma_colors_distinct(a: TetrominoKind, b: TetrominoKind)
    ensures
        color_of(a) == color_of(b) <==> a == b,
{
}

/// A quarter turn of a well-formed piece is a well-formed piece.
pub proof fn lemma_rotated_piece_wf(piece: PieceView)
    requires
        piece.wf(),
    ensures
        piece.with_shape(rotated(piece.shape)).wf(),
{
    lemma_rotated_cells(piece.shape);
    lemma_rotated_keeps_filled(piece.shape);
}

/// Turned four times, the starting matrix of every kind is itself again, and
/// the O piece is the same after one turn.
pub proof fn lemma_spawn_shape_turns(kind: TetrominoKind)
    ensures
        rotated(rotated(rotated(rotated(spawn_shape(kind))))) == spawn_shape(kind),
        rotated(spawn_shape(TetrominoKind::O)) == spawn_shape(TetrominoKind::O),
{
    lemma_spawn_wf(kind);
    lemma_rotated_four_times(spawn_shape(kind));
    let o = spawn_shape(TetrominoKind::O);
    lemma_spawn_wf(TetrominoKind::O);
    lemma_rotated_cells(o);
    assert forall|r: int| 0 <= r < 2 implies #[trigger] rotated(o)[r] == o[r] by {
        assert forall|c: int| 0 <= c < 2 implies rotated(o)[r][c] == o[r][c] by {
            assert(rotated(o)[r][c] == o[2 - 1 - c][r]);
        }
        assert(rotated(o)[r] =~= o[r]);
    }
    assert(rotated(o) =~= o);
}

/// Picks a number below `upper` with `rand::random_range(0..upper)`, which
/// samples the thread-local generator. The range must not be empty, or the
/// call panics. All that is claimed of the outcome is that it lies in the
/// range.
#[verifier::external_body]
fn random_index(upper: usize) -> (index: usize)
    requires
        upper > 0,
    ensures
        index < upper,
{
    rand::random_range(0..upper)
}

/// Copies a square array of cells into a matrix.
pub fn convert_to_vec<const N: usize>(arr: &[[bool; N]; N]) -> (out: TetrominoType)
    ensures
        rows_of(out) == Seq::new(N as nat, |r: int| arr[r]@),
{
    let mut out: Vec<Vec<bool>> = Vec::new();
    let mut r: usize = 0;
    while r < N
        invariant
            r <= N,
            out.len() == r,
            forall|i: int| 0 <= i < r ==> (#[trigger] out[i])@ == arr[i]@,
        decreases N - r,
    {
        let mut row: Vec<bool> = Vec::new();
        let mut c: usize = 0;
        while c < N
            invariant
                r < N,
                c <= N,
                row.len() == c,
                forall|j: int| 0 <= j < c ==> row[j] == arr[r as int][j],
            decreases N - c,
        {
            row.push(arr[r][c]);
            c += 1;
        }
        assert(row@ =~= arr[r as int]@);
        out.push(row);
        r += 1;
    }
    assert(rows_of(out) =~= Seq::new(N as nat, |r: int| arr[r]@));
    out
}

impl TetrominoKind {
    /// The kind at `index` in the order I, J, L, O, S, T, Z.
    pub fn from_index(index: usize) -> (kind: TetrominoKind)
        requires
            index < KIND_COUNT,
        ensures
            kind == kind_at(index as int),
    {
        if index == 0 {
            TetrominoKind::I
        } else if index == 1 {
            TetrominoKind::J
        } else if index == 2 {
            TetrominoKind::L
        } else if index == 3 {
            TetrominoKind::O
        } else if index == 4 {
            TetrominoKind::S
        } else if index == 5 {
            TetrominoKind::T
        } else {
            TetrominoKind::Z
        }
    }
}

/// A piece: a square matrix of cells in its present orientation, and the
/// kind it was made as.
#[derive(Debug, Clone)]
pub struct Tetromino {
    tetromino: TetrominoType,
    kind: TetrominoKind,
}

impl View for Tetromino {
    type V = PieceView;

    closed spec fn view(&self) -> PieceView {
        PieceView { shape: rows_of(self.tetromino), kind: self.kind }
    }
}

impl Tetromino {
    /// The piece is square, of the side its kind asks for, and not empty.
    pub open spec fn wf(&self) -> bool {
        self@.wf()
    }

    /// A piece of `kind` as it enters the game.
    pub fn new(kind: TetrominoKind) -> (piece: Self)
        ensures
            piece@ == PieceView::spawn(kind),
            piece.wf(),
    {
        let tetromino = match kind {
            TetrominoKind::I => convert_to_vec(&SHAPE_I),
            TetrominoKind::J => convert_to_vec(&SHAPE_J),
            TetrominoKind::L => convert_to_vec(&SHAPE_L),
            TetrominoKind::O => convert_to_vec(&SHAPE_O),
            TetrominoKind::S => convert_to_vec(&SHAPE_S),
            TetrominoKind::T => convert_to_vec(&SHAPE_T),
            TetrominoKind::Z => convert_to_vec(&SHAPE_Z),
        };
        proof {
            assert(rows_of(tetromino) =~~= spawn_shape(kind));
            lemma_spawn_wf(kind);
        }
        Self { tetromino, kind }
    }

    /// A piece of a kind drawn at random, as it enters the game.
    pub fn generate_random_tetromino() -> (piece: Self)
        ensures
            piece@.is_spawn(),
            piece.wf(),
    {
        let rand_idx = random_index(KIND_COUNT);
        Self::new(TetrominoKind::from_index(rand_idx))
    }

    /// A copy of the matrix in its present orientation.
    pub fn get_shape(&self) -> (shape: TetrominoType)
        ensures
            rows_of(shape) == self@.shape,
    {
        let shape = self.tetromino.clone();
        assert(rows_of(shape) =~~= rows_of(self.tetromino));
        shape
    }

    /// Replaces the matrix, as a rotation does. The new matrix is square, has
    /// the size of the old one, and holds at least one filled cell: a piece
    /// without cells would fall for ever.
    pub fn set_shape(&mut self, shape: TetrominoType)
        requires
            old(self)@.with_shape(rows_of(shape)).wf(),
        ensures
            final(self)@ == old(self)@.with_shape(rows_of(shape)),
            final(self).wf(),
    {
        self.tetromino = shape;
    }

    /// The kind the piece was made as.
    pub fn kind(&self) -> (kind: TetrominoKind)
        ensures
            kind == self@.kind,
    {
        self.kind
    }

    /// The colour of the piece, which goes by its kind.
    pub fn get_color(&self) -> (color: Color)
        ensures
            color == color_of(self@.kind),
    {
        match self.kind {
            TetrominoKind::I => Color::Cyan,
            TetrominoKind::J => Color::Blue,
            TetrominoKind::L => Color::DarkYellow,
            TetrominoKind::O => Color::Yellow,
            TetrominoKind::S => Color::Green,
            TetrominoKind::T => Color::Magenta,
            TetrominoKind::Z => Color::Red,
        }
    }
}

} // verus!
