//! The one test of whether a piece may stand at a place on the board.

use crate::board::{occupied, Board, Grid, BOARD_HEIGHT, BOARD_WIDTH};
use crate::shape::{filled, rows_of};
use vstd::prelude::*;

verus! {

/// A piece with matrix `shape`, its top-left corner at column `x`, row `y`,
/// has a filled cell that lies off the board or on a cell already taken.
pub open spec fn collision(shape: Seq<Seq<bool>>, x: int, y: int, g: Grid) -> bool {
    exists|r: int, c: int| #[trigger] filled(shape, r, c) && occupied(g, x + c, y + r)
}

/// The places, as (column, row), that the filled cells of a piece cover when
/// its top-left corner is at column `x`, row `y`.
pub open spec fn footprint(shape: Seq<Seq<bool>>, x: int, y: int) -> Set<(int, int)> {
    Set::new(|place: (int, int)| filled(shape, place.1 - y, place.0 - x))
}

/// A set of places moved by `dx` columns and `dy` rows.
pub open spec fn shifted(places: Set<(int, int)>, dx: int, dy: int) -> Set<(int, int)> {
    Set::new(|place: (int, int)| places.contains((place.0 - dx, place.1 - dy)))
}

/// One of the places lies off the board or on a cell already taken.
pub open spec fn touches(places: Set<(int, int)>, g: Grid) -> bool {
    exists|place: (int, int)| #[trigger] places.contains(place) && occupied(g, place.0, place.1)
}

/// The verdict depends on nothing but the places that the piece covers.
pub proof fn lemma_collision_by_footprint(shape: Seq<Seq<bool>>, x: int, y: int, g: Grid)
    ensures
        collision(shape, x, y, g) == touches(footprint(shape, x, y), g),
{
    let places = footprint(shape, x, y);
    if collision(shape, x, y, g) {
        let (r, c) = choose|r: int, c: int| #[trigger]
            filled(shape, r, c) && occupied(g, x + c, y + r);
        assert(places.contains((x + c, y + r)));
    }
    if touches(places, g) {
        let place = choose|place: (int, int)| #[trigger]
            places.contains(place) && occupied(g, place.0, place.1);
        assert(filled(shape, place.1 - y, place.0 - x));
    }
}

/// A shifted probe: a piece probed `dx` columns and `dy` rows from where it
/// stood covers the places it covered, each moved by as much, and the
/// verdict there is the verdict on those moved places. Two pieces that
/// cover the same places get the same verdict.
pub proof fn lemma_collision_shifted_probe(
    shape: Seq<Seq<bool>>,
    x: int,
    y: int,
    dx: int,
    dy: int,
    g: Grid,
)
    ensures
        footprint(shape, x + dx, y + dy) == shifted(footprint(shape, x, y), dx, dy),
        collision(shape, x + dx, y + dy, g) == touches(shifted(footprint(shape, x, y), dx, dy), g),
        forall|other: Seq<Seq<bool>>, ox: int, oy: int|
            #[trigger] footprint(other, ox, oy) == footprint(shape, x + dx, y + dy) ==> collision(
                other,
                ox,
                oy,
                g,
            ) == collision(shape, x + dx, y + dy, g),
{
    assert(footprint(shape, x + dx, y + dy) =~= shifted(footprint(shape, x, y), dx, dy));
    lemma_collision_by_footprint(shape, x + dx, y + dy, g);
    assert forall|other: Seq<Seq<bool>>, ox: int, oy: int|
        #[trigger] footprint(other, ox, oy) == footprint(shape, x + dx, y + dy) implies collision(
        other,
        ox,
        oy,
        g,
    ) == collision(shape, x + dx, y + dy, g) by {
        lemma_collision_by_footprint(other, ox, oy, g);
    }
}

/// A shift with the surroundings: if what blocks a piece lies, seen from
/// the piece, the same way on a second board `dx` columns and `dy` rows
/// further on, the piece gets the same verdict there.
pub proof fn lemma_collision_shifted_scene(
    shape: Seq<Seq<bool>>,
    x: int,
    y: int,
    dx: int,
    dy: int,
    g: Grid,
    moved: Grid,
)
    requires
        forall|r: int, c: int| #[trigger]
            filled(shape, r, c) ==> occupied(moved, x + dx + c, y + dy + r) == occupied(
                g,
                x + c,
                y + r,
            ),
    ensures
        collision(shape, x + dx, y + dy, moved) == collision(shape, x, y, g),
{
    if collision(shape, x, y, g) {
        let (r, c) = choose|r: int, c: int| #[trigger]
            filled(shape, r, c) && occupied(g, x + c, y + r);
        assert(filled(shape, r, c) && occupied(moved, x + dx + c, y + dy + r));
    }
    if collision(shape, x + dx, y + dy, moved) {
        let (r, c) = choose|r: int, c: int| #[trigger]
            filled(shape, r, c) && occupied(moved, x + dx + c, y + dy + r);
        assert(filled(shape, r, c) && occupied(g, x + c, y + r));
    }
}

/// Whether a piece with matrix `shape`, its top-left corner at column `x`,
/// row `y`, would leave the board or overlap a cell already taken.
pub fn collides(shape: &Vec<Vec<bool>>, x: i32, y: i32, board: &Board) -> (hit: bool)
    requires
        board.wf(),
    ensures
        hit == collision(rows_of(*shape), x as int, y as int, board@),
{
    let ghost s = rows_of(*shape);
    let mut r: usize = 0;
    while r < shape.len()
        invariant
            board.wf(),
            s == rows_of(*shape),
            r <= shape.len(),
            forall|i: int, j: int|
                0 <= i < r && #[trigger] filled(s, i, j) ==> !occupied(board@, x + j, y + i),
        decreases shape.len() - r,
    {
        let row = &shape[r];
        let mut c: usize = 0;
        while c < row.len()
            invariant
                board.wf(),
                s == rows_of(*shape),
                r < shape.len(),
                row@ == s[r as int],
                c <= row.len(),
                forall|j: int|
                    0 <= j < c && #[trigger] filled(s, r as int, j) ==> !occupied(
                        board@,
                        x + j,
                        y + r,
                    ),
            decreases row.len() - c,
        {
            if row[c] {
                let bx: i128 = x as i128 + c as i128;
                let by: i128 = y as i128 + r as i128;
                assert(filled(s, r as int, c as int));
                if bx < 0 || bx >= BOARD_WIDTH as i128 || by < 0 || by >= BOARD_HEIGHT as i128 {
                    return true;
                }
                if board.is_occupied(bx as i32, by as i32) {
                    return true;
                }
            }
            c += 1;
        }
        r += 1;
    }
    false
}

} // verus!
