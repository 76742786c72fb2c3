//! The playing field: a grid of fixed size whose cells are empty or hold the
//! colour of the piece that was locked there.

use crate::shape::{filled, rows_of};
use crate::tetromino::Color;
use vstd::prelude::*;

verus! {

/// Columns of the board.
pub const BOARD_WIDTH: usize = 10;

/// Rows of the board.
pub const BOARD_HEIGHT: usize = 20;

/// A cell of the board: empty, or the colour of the piece locked there.
pub type Cell = Option<Color>;

/// The board as rows of cells, top row first.
pub type Grid = Seq<Seq<Cell>>;

/// The grid has the fixed number of rows and columns.
pub open spec fn grid_wf(g: Grid) -> bool {
    &&& g.len() == BOARD_HEIGHT
    &&& forall|y: int| 0 <= y < g.len() ==> (#[trigger] g[y]).len() == BOARD_WIDTH
}

/// Column `x`, row `y` lies on the board.
pub open spec fn in_bounds(x: int, y: int) -> bool {
    0 <= x < BOARD_WIDTH && 0 <= y < BOARD_HEIGHT
}

/// A place blocks a piece when it lies off the board or holds a cell.
pub open spec fn occupied(g: Grid, x: int, y: int) -> bool {
    !in_bounds(x, y) || g[y][x] is Some
}

/// A row with no cell in it.
pub open spec fn empty_row() -> Seq<Cell> {
    Seq::new(BOARD_WIDTH as nat, |x: int| None::<Color>)
}

/// A board with no cell in it.
pub open spec fn empty_grid() -> Grid {
    Seq::new(BOARD_HEIGHT as nat, |y: int| empty_row())
}

/// Every cell of the row is taken.
pub open spec fn row_full(row: Seq<Cell>) -> bool {
    forall|x: int| 0 <= x < row.len() ==> #[trigger] row[x] is Some
}

/// The indices of the full rows.
pub open spec fn full_rows(g: Grid) -> Set<int> {
    Set::new(|y: int| 0 <= y < g.len() && row_full(g[y]))
}

/// The number `y` occurs in a list of row indices.
pub open spec fn lists(indices: Seq<usize>, y: int) -> bool {
    exists|k: int| 0 <= k < indices.len() && #[trigger] indices[k] == y
}

/// The numbers that occur in a list of row indices.
pub open spec fn index_set(indices: Seq<usize>) -> Set<int> {
    Set::new(|y: int| lists(indices, y))
}

/// The rows that stay when those in `removed` are taken out, in their old
/// order.
pub open spec fn kept_rows(g: Grid, removed: Set<int>) -> Grid
    decreases g.len(),
{
    if g.len() == 0 {
        Seq::empty()
    } else if removed.contains(g.len() - 1) {
        kept_rows(g.drop_last(), removed)
    } else {
        kept_rows(g.drop_last(), removed).push(g.last())
    }
}

/// `count` empty rows.
pub open spec fn empty_rows(count: nat) -> Grid {
    Seq::new(count, |y: int| empty_row())
}

/// The grid after the rows in `removed` are cleared: the rows that stay sink
/// to the bottom in their old order, and as many empty rows as were taken
/// out come in at the top.
pub open spec fn cleared(g: Grid, removed: Set<int>) -> Grid {
    let kept = kept_rows(g, removed);
    empty_rows((g.len() - kept.len()) as nat) + kept
}

/// The grid with the filled cells of a piece written into it in `color`, the
/// top-left corner of the piece's matrix at column `x`, row `y`. Cells of the
/// piece that lie off the grid are left out.
pub open spec fn merged(g: Grid, shape: Seq<Seq<bool>>, x: int, y: int, color: Color) -> Grid {
    Seq::new(
        g.len(),
        |by: int|
            Seq::new(
                g[by].len(),
                |bx: int|
                    if filled(shape, by - y, bx - x) {
                        Some(color)
                    } else {
                        g[by][bx]
                    },
            ),
    )
}

/// How many of the rows from `lo` up to, not including, `hi` are in
/// `removed`.
pub open spec fn rows_removed(removed: Set<int>, lo: int, hi: int) -> nat
    decreases hi - lo,
{
    if hi <= lo {
        0
    } else {
        rows_removed(removed, lo, hi - 1) + if removed.contains(hi - 1) {
            1nat
        } else {
            0nat
        }
    }
}

/// How many cells of a row are taken.
pub open spec fn row_cells(row: Seq<Cell>) -> nat
    decreases row.len(),
{
    if row.len() == 0 {
        0
    } else {
        row_cells(row.drop_last()) + if row.last() is Some {
            1nat
        } else {
            0nat
        }
    }
}

/// How many cells of a grid are taken.
pub open spec fn grid_cells(g: Grid) -> nat
    decreases g.len(),
{
    if g.len() == 0 {
        0
    } else {
        grid_cells(g.drop_last()) + row_cells(g.last())
    }
}

/// The playing field.
#[derive(Debug)]
pub struct Board {
    cells: Vec<Vec<Cell>>,
}

impl View for Board {
    type V = Grid;

    closed spec fn view(&self) -> Grid {
        rows_of(self.cells)
    }
}

fn new_row() -> (row: Vec<Cell>)
    ensures
        row@ == empty_row(),
{
    let mut row: Vec<Cell> = Vec::new();
    while row.len() < BOARD_WIDTH
        invariant
            row.len() <= BOARD_WIDTH,
            forall|x: int| 0 <= x < row.len() ==> row[x] == None::<Color>,
        decreases BOARD_WIDTH - row.len(),
    {
        row.push(None);
    }
    assert(row@ =~= empty_row());
    row
}

fn copy_row(row: &Vec<Cell>) -> (out: Vec<Cell>)
    ensures
        out@ == row@,
{
    let mut out: Vec<Cell> = Vec::new();
    let mut x: usize = 0;
    while x < row.len()
        invariant
            x <= row.len(),
            out.len() == x,
            forall|i: int| 0 <= i < x ==> out[i] == row[i],
        decreases row.len() - x,
    {
        out.push(row[x]);
        x += 1;
    }
    assert(out@ =~= row@);
    out
}

fn is_row_full(row: &Vec<Cell>) -> (full: bool)
    ensures
        full == row_full(row@),
{
    let mut x: usize = 0;
    while x < row.len()
        invariant
            x <= row.len(),
            forall|i: int| 0 <= i < x ==> #[trigger] row@[i] is Some,
        decreases row.len() - x,
    {
        if row[x].is_none() {
            assert(!(row@[x as int] is Some));
            return false;
        }
        x += 1;
    }
    true
}

fn lists_index(indices: &Vec<usize>, y: usize) -> (found: bool)
    ensures
        found == index_set(indices@).contains(y as int),
{
    let mut k: usize = 0;
    while k < indices.len()
        invariant
            k <= indices.len(),
            forall|i: int| 0 <= i < k ==> indices[i] != y,
        decreases indices.len() - k,
    {
        if indices[k] == y {
            return true;
        }
        k += 1;
    }
    false
}

impl Board {
    /// The board has the fixed number of rows and columns.
    pub open spec fn wf(&self) -> bool {
        grid_wf(self@)
    }

    /// An empty board.
    pub fn new() -> (board: Self)
        ensures
            board@ == empty_grid(),
            board.wf(),
    {
        let mut cells: Vec<Vec<Cell>> = Vec::new();
        while cells.len() < BOARD_HEIGHT
            invariant
                cells.len() <= BOARD_HEIGHT,
                forall|y: int| 0 <= y < cells.len() ==> (#[trigger] cells[y])@ == empty_row(),
            decreases BOARD_HEIGHT - cells.len(),
        {
            cells.push(new_row());
        }
        assert(rows_of(cells) =~= empty_grid());
        Board { cells }
    }

    /// Whether a place blocks a piece: any place off the board does, and on
    /// the board a place that holds a cell.
    pub fn is_occupied(&self, x: i32, y: i32) -> (blocked: bool)
        requires
            self.wf(),
        ensures
            blocked == occupied(self@, x as int, y as int),
    {
        if x < 0 || x >= BOARD_WIDTH as i32 || y < 0 || y >= BOARD_HEIGHT as i32 {
            return true;
        }
        assert(self@[y as int].len() == BOARD_WIDTH);
        self.cells[y as usize][x as usize].is_some()
    }

    /// The cell at column `x`, row `y`.
    pub fn get_cell(&self, x: usize, y: usize) -> (cell: Cell)
        requires
            self.wf(),
            in_bounds(x as int, y as int),
        ensures
            cell == self@[y as int][x as int],
    {
        assert(self@[y as int].len() == BOARD_WIDTH);
        self.cells[y][x]
    }

    /// The rows of the board, top row first.
    pub fn rows(&self) -> (rows: &Vec<Vec<Cell>>)
        ensures
            rows_of(*rows) == self@,
    {
        &self.cells
    }

    /// Takes the cell at column `x`, row `y` for a piece of colour
    /// `attribute`.
    pub fn set_cell(&mut self, x: usize, y: usize, attribute: Color)
        requires
            old(self).wf(),
            in_bounds(x as int, y as int),
        ensures
            final(self)@ == old(self)@.update(
                y as int,
                old(self)@[y as int].update(x as int, Some(attribute)),
            ),
            final(self).wf(),
    {
        assert(self@[y as int].len() == BOARD_WIDTH);
        self.cells[y][x] = Some(attribute);
        assert(self@ =~~= old(self)@.update(
            y as int,
            old(self)@[y as int].update(x as int, Some(attribute)),
        ));
    }

    /// Writes the filled cells of a piece into the board in `color`, the
    /// top-left corner of the piece's matrix at column `x`, row `y`. Cells
    /// of the piece that lie off the board are left out.
    pub fn merge(&mut self, shape: &Vec<Vec<bool>>, x: i32, y: i32, color: Color)
        requires
            old(self).wf(),
        ensures
            final(self)@ == merged(old(self)@, rows_of(*shape), x as int, y as int, color),
            final(self).wf(),
    {
        let ghost s = rows_of(*shape);
        let ghost before = self@;
        let mut r: usize = 0;
        while r < shape.len()
            invariant
                self.wf(),
                grid_wf(before),
                s == rows_of(*shape),
                r <= shape.len(),
                forall|by: int, bx: int|
                    in_bounds(bx, by) ==> #[trigger] self@[by][bx] == if filled(s, by - y, bx - x)
                        && by - y < r {
                        Some(color)
                    } else {
                        before[by][bx]
                    },
            decreases shape.len() - r,
        {
            let row = &shape[r];
            let mut c: usize = 0;
            while c < row.len()
                invariant
                    self.wf(),
                    grid_wf(before),
                    s == rows_of(*shape),
                    r < shape.len(),
                    row@ == s[r as int],
                    c <= row.len(),
                    forall|by: int, bx: int|
                        in_bounds(bx, by) ==> #[trigger] self@[by][bx] == if filled(
                            s,
                            by - y,
                            bx - x,
                        ) && (by - y < r || (by - y == r && bx - x < c)) {
                            Some(color)
                        } else {
                            before[by][bx]
                        },
                decreases row.len() - c,
            {
                if row[c] {
                    let bx: i128 = x as i128 + c as i128;
                    let by: i128 = y as i128 + r as i128;
                    if 0 <= bx && bx < BOARD_WIDTH as i128 && 0 <= by && by < BOARD_HEIGHT as i128 {
                        let ghost prev = self@;
                        self.set_cell(bx as usize, by as usize, color);
                        assert forall|ay: int, ax: int| in_bounds(ax, ay) implies #[trigger] self@[ay][ax]
                            == if filled(s, ay - y, ax - x) && (ay - y < r || (ay - y == r && ax - x
                            < c + 1)) {
                            Some(color)
                        } else {
                            before[ay][ax]
                        } by {
                            assert(prev[ay].len() == BOARD_WIDTH);
                            if ay == by && ax == bx {
                            } else {
                                assert(self@[ay][ax] == prev[ay][ax]);
                            }
                        }
                    }
                }
                c += 1;
            }
            r += 1;
        }
        assert(self@ =~~= merged(before, s, x as int, y as int, color)) by {
            assert forall|by: int| 0 <= by < BOARD_HEIGHT implies #[trigger] self@[by] =~= merged(
                before,
                s,
                x as int,
                y as int,
                color,
            )[by] by {
                assert(self@[by].len() == BOARD_WIDTH);
                assert(before[by].len() == BOARD_WIDTH);
                assert forall|bx: int| 0 <= bx < BOARD_WIDTH implies self@[by][bx] == merged(
                    before,
                    s,
                    x as int,
                    y as int,
                    color,
                )[by][bx] by {
                    assert(in_bounds(bx, by));
                }
            }
        }
    }

    /// The indices of the full rows, from the top down.
    pub fn scan_full_rows(&self) -> (rows: Vec<usize>)
        requires
            self.wf(),
        ensures
            index_set(rows@) == full_rows(self@),
            forall|i: int, j: int| 0 <= i < j < rows.len() ==> rows[i] < rows[j],
    {
        let mut rows: Vec<usize> = Vec::new();
        let mut y: usize = 0;
        while y < BOARD_HEIGHT
            invariant
                self.wf(),
                y <= BOARD_HEIGHT,
                forall|i: int| 0 <= i < rows.len() ==> rows[i] < y && row_full(self@[rows[i] as int]),
                forall|r: int| 0 <= r < y && row_full(self@[r]) ==> lists(rows@, r),
                forall|i: int, j: int| 0 <= i < j < rows.len() ==> rows[i] < rows[j],
            decreases BOARD_HEIGHT - y,
        {
            if is_row_full(&self.cells[y]) {
                let ghost before = rows@;
                rows.push(y);
                assert(rows@[before.len() as int] == y);
                assert forall|r: int| 0 <= r < y + 1 && row_full(self@[r]) implies lists(
                    rows@,
                    r,
                ) by {
                    if r < y {
                        assert(lists(before, r));
                        let k = choose|k: int| 0 <= k < before.len() && #[trigger] before[k] == r;
                        assert(rows@[k] == r);
                    }
                }
            }
            y += 1;
        }
        assert(index_set(rows@) =~= full_rows(self@));
        rows
    }

    /// Clears the rows listed in `indices`: the rows above a cleared row
    /// sink, and an empty row comes in at the top for every row cleared. A
    /// number that is no row of the board, or is listed twice, changes
    /// nothing.
    pub fn clear_rows(&mut self, indices: &Vec<usize>)
        requires
            old(self).wf(),
        ensures
            final(self)@ == cleared(old(self)@, index_set(indices@)),
            final(self).wf(),
    {
        let ghost removed = index_set(indices@);
        let ghost before = self@;
        let mut kept: Vec<Vec<Cell>> = Vec::new();
        let mut y: usize = 0;
        while y < BOARD_HEIGHT
            invariant
                self.wf(),
                self@ == before,
                removed == index_set(indices@),
                y <= BOARD_HEIGHT,
                kept.len() <= y,
                rows_of(kept) == kept_rows(before.take(y as int), removed),
            decreases BOARD_HEIGHT - y,
        {
            proof {
                assert(before.take(y + 1).drop_last() =~= before.take(y as int));
                assert(before.take(y + 1).last() == before[y as int]);
            }
            if !lists_index(indices, y) {
                let ghost kept_before = rows_of(kept);
                kept.push(copy_row(&self.cells[y]));
                assert(rows_of(kept) =~= kept_before.push(before[y as int]));
            }
            y += 1;
        }
        assert(before.take(BOARD_HEIGHT as int) =~= before);
        let missing = BOARD_HEIGHT - kept.len();
        let mut cells: Vec<Vec<Cell>> = Vec::new();
        while cells.len() < missing
            invariant
                cells.len() <= missing,
                forall|i: int| 0 <= i < cells.len() ==> (#[trigger] cells[i])@ == empty_row(),
            decreases missing - cells.len(),
        {
            cells.push(new_row());
        }
        let ghost top = rows_of(cells);
        let ghost bottom = rows_of(kept);
        assert(top =~= empty_rows(missing as nat));
        cells.append(&mut kept);
        assert(rows_of(cells) =~= top + bottom);
        proof {
            lemma_kept_rows(before, removed);
        }
        self.cells = cells;
    }
}

/// The rows that stay are rows of the old grid, no more of them than there
/// were.
pub proof fn lemma_kept_rows(g: Grid, removed: Set<int>)
    ensures
        kept_rows(g, removed).len() <= g.len(),
        forall|i: int|
            0 <= i < kept_rows(g, removed).len() ==> exists|y: int|
                0 <= y < g.len() && !removed.contains(y) && g[y] == #[trigger] kept_rows(g, removed)[i],
        grid_wf(g) ==> grid_wf(cleared(g, removed)),
    decreases g.len(),
{
    if g.len() > 0 {
        let rest = g.drop_last();
        lemma_kept_rows(rest, removed);
        let kept = kept_rows(g, removed);
        assert forall|i: int| 0 <= i < kept.len() implies exists|y: int|
            0 <= y < g.len() && !removed.contains(y) && g[y] == #[trigger] kept[i] by {
            if i < kept_rows(rest, removed).len() {
                let y = choose|y: int|
                    0 <= y < rest.len() && !removed.contains(y) && rest[y] == kept_rows(
                        rest,
                        removed,
                    )[i];
                assert(g[y] == kept[i]);
            } else {
                assert(g[g.len() - 1] == kept[i]);
            }
        }
    }
    if grid_wf(g) {
        let kept = kept_rows(g, removed);
        let c = cleared(g, removed);
        assert forall|y: int| 0 <= y < c.len() implies (#[trigger] c[y]).len() == BOARD_WIDTH by {
            let top = g.len() - kept.len();
            if y >= top {
                let src = choose|s: int|
                    0 <= s < g.len() && !removed.contains(s) && g[s] == kept[y - top];
                assert(g[src].len() == BOARD_WIDTH);
            }
        }
    }
}

/// Counting the removed rows of a range in two parts gives the count of the
/// whole, which is no more than the range holds.
pub proof fn lemma_rows_removed_split(removed: Set<int>, lo: int, mid: int, hi: int)
    requires
        lo <= mid <= hi,
    ensures
        rows_removed(removed, lo, hi) == rows_removed(removed, lo, mid) + rows_removed(
            removed,
            mid,
            hi,
        ),
        rows_removed(removed, lo, hi) <= hi - lo,
    decreases hi - lo,
{
    if hi > mid {
        lemma_rows_removed_split(removed, lo, mid, hi - 1);
    } else if hi > lo {
        lemma_rows_removed_split(removed, lo, mid - 1, hi - 1);
    }
}

/// Each row that stays keeps its place among those that stay: row `y` comes
/// after as many rows as stay above it.
pub proof fn lemma_kept_rows_places(g: Grid, removed: Set<int>)
    ensures
        kept_rows(g, removed).len() == g.len() - rows_removed(removed, 0, g.len() as int),
        forall|y: int|
            0 <= y < g.len() && !#[trigger] removed.contains(y) ==> 0 <= y - rows_removed(
                removed,
                0,
                y,
            ) < kept_rows(g, removed).len(),
        forall|y: int|
            0 <= y < g.len() && !removed.contains(y) ==> kept_rows(g, removed)[y - rows_removed(
                removed,
                0,
                y,
            )] == #[trigger] g[y],
    decreases g.len(),
{
    let n = g.len() as int;
    if n > 0 {
        let rest = g.drop_last();
        let kept = kept_rows(g, removed);
        lemma_kept_rows_places(rest, removed);
        lemma_rows_removed_split(removed, 0, n - 1, n);
        assert(rows_removed(removed, n - 1, n - 1) == 0);
        assert(kept.len() == n - rows_removed(removed, 0, n));
        assert forall|y: int| 0 <= y < n && !#[trigger] removed.contains(y) implies 0 <= y
            - rows_removed(removed, 0, y) < kept.len() && kept[y - rows_removed(removed, 0, y)]
            == g[y] by {
            lemma_rows_removed_split(removed, 0, y, y);
            if y < n - 1 {
                assert(rest[y] == g[y]);
                assert(y - rows_removed(removed, 0, y) < kept_rows(rest, removed).len());
            } else {
                assert(kept == kept_rows(rest, removed).push(g.last()));
            }
        }
    }
}

/// Where the rows are after a clearing: as many empty rows at the top as
/// rows of the board were cleared, and every other row lower by the number
/// of rows cleared below it.
pub proof fn lemma_cleared_rows(g: Grid, removed: Set<int>)
    requires
        grid_wf(g),
    ensures
        grid_wf(cleared(g, removed)),
        forall|i: int|
            0 <= i < rows_removed(removed, 0, BOARD_HEIGHT as int) ==> #[trigger] cleared(
                g,
                removed,
            )[i] == empty_row(),
        forall|y: int|
            0 <= y < BOARD_HEIGHT && !removed.contains(y) ==> cleared(g, removed)[y + rows_removed(
                removed,
                y + 1,
                BOARD_HEIGHT as int,
            )] == #[trigger] g[y],
{
    let h = BOARD_HEIGHT as int;
    let kept = kept_rows(g, removed);
    let c = cleared(g, removed);
    let top = rows_removed(removed, 0, h);
    assert(grid_wf(c)) by {
        lemma_kept_rows(g, removed);
    }
    assert(kept.len() == h - top) by {
        lemma_kept_rows_places(g, removed);
    }
    assert forall|i: int| 0 <= i < top implies #[trigger] c[i] == empty_row() by {
        assert(c[i] == empty_rows(top)[i]);
    }
    assert forall|y: int| 0 <= y < h && !removed.contains(y) implies c[y + rows_removed(
        removed,
        y + 1,
        h,
    )] == #[trigger] g[y] by {
        lemma_rows_removed_split(removed, 0, y + 1, h);
        lemma_rows_removed_split(removed, 0, y, y + 1);
        assert(rows_removed(removed, y, y + 1) == 0) by {
            assert(rows_removed(removed, y, y) == 0);
        }
        let place = y - rows_removed(removed, 0, y);
        assert(0 <= place < kept.len() && kept[place] == g[y]) by {
            lemma_kept_rows_places(g, removed);
        }
        assert(c[top + place] == kept[place]);
    }
}

/// After the full rows are cleared no row is full.
pub proof fn lemma_cleared_has_no_full_row(g: Grid)
    requires
        grid_wf(g),
    ensures
        full_rows(cleared(g, full_rows(g))) == Set::<int>::empty(),
{
    let removed = full_rows(g);
    let kept = kept_rows(g, removed);
    let c = cleared(g, removed);
    lemma_kept_rows(g, removed);
    assert forall|y: int| 0 <= y < c.len() implies !row_full(#[trigger] c[y]) by {
        let top = g.len() - kept.len();
        if y < top {
            assert(c[y] == empty_row());
            assert(!(c[y][0] is Some));
        } else {
            let from = choose|from: int|
                0 <= from < g.len() && !removed.contains(from) && g[from] == kept[y - top];
            assert(c[y] == g[from]);
        }
    }
    assert(full_rows(c) =~= Set::<int>::empty());
}

/// A row with no cell counts none, and a full row counts its length.
pub proof fn lemma_row_cells(row: Seq<Cell>)
    ensures
        row_cells(row) <= row.len(),
        row_full(row) ==> row_cells(row) == row.len(),
        (forall|x: int| 0 <= x < row.len() ==> #[trigger] row[x] is None) ==> row_cells(row) == 0,
    decreases row.len(),
{
    if row.len() > 0 {
        let rest = row.drop_last();
        lemma_row_cells(rest);
        if row_full(row) {
            assert forall|x: int| 0 <= x < rest.len() implies #[trigger] rest[x] is Some by {
                assert(row[x] is Some);
            }
            assert(row[row.len() - 1] is Some);
        }
        if forall|x: int| 0 <= x < row.len() ==> #[trigger] row[x] is None {
            assert forall|x: int| 0 <= x < rest.len() implies #[trigger] rest[x] is None by {
                assert(row[x] is None);
            }
            assert(row[row.len() - 1] is None);
        }
    }
}

/// The cells of two grids, one above the other, are counted together.
pub proof fn lemma_grid_cells_concat(above: Grid, below: Grid)
    ensures
        grid_cells(above + below) == grid_cells(above) + grid_cells(below),
    decreases below.len(),
{
    if below.len() == 0 {
        assert(above + below =~= above);
    } else {
        lemma_grid_cells_concat(above, below.drop_last());
        assert((above + below).drop_last() =~= above + below.drop_last());
        assert((above + below).last() == below.last());
    }
}

/// Empty rows hold no cell.
pub proof fn lemma_empty_rows_cells(count: nat)
    ensures
        grid_cells(empty_rows(count)) == 0,
    decreases count,
{
    if count > 0 {
        lemma_empty_rows_cells((count - 1) as nat);
        assert(empty_rows(count).drop_last() =~= empty_rows((count - 1) as nat));
        lemma_row_cells(empty_row());
    }
}

/// Clearing full rows takes a board's width of cells off the count for each
/// row cleared.
pub proof fn lemma_cleared_cells(g: Grid, removed: Set<int>)
    requires
        grid_wf(g),
        forall|y: int| 0 <= y < BOARD_HEIGHT && removed.contains(y) ==> row_full(#[trigger] g[y]),
    ensures
        grid_cells(cleared(g, removed)) + BOARD_WIDTH * rows_removed(
            removed,
            0,
            BOARD_HEIGHT as int,
        ) == grid_cells(g),
{
    lemma_kept_cells(g, removed);
    let kept = kept_rows(g, removed);
    lemma_kept_rows(g, removed);
    let top = (g.len() - kept.len()) as nat;
    lemma_empty_rows_cells(top);
    lemma_grid_cells_concat(empty_rows(top), kept);
}

proof fn lemma_kept_cells(g: Grid, removed: Set<int>)
    requires
        forall|y: int| 0 <= y < g.len() ==> (#[trigger] g[y]).len() == BOARD_WIDTH,
        forall|y: int| 0 <= y < g.len() && removed.contains(y) ==> row_full(#[trigger] g[y]),
    ensures
        grid_cells(kept_rows(g, removed)) + BOARD_WIDTH * rows_removed(removed, 0, g.len() as int)
            == grid_cells(g),
    decreases g.len(),
{
    if g.len() > 0 {
        let rest = g.drop_last();
        assert forall|y: int| 0 <= y < rest.len() implies (#[trigger] rest[y]).len()
            == BOARD_WIDTH by {
            assert(g[y].len() == BOARD_WIDTH);
        }
        assert forall|y: int| 0 <= y < rest.len() && removed.contains(y) implies row_full(
            #[trigger] rest[y],
        ) by {
            assert(row_full(g[y]));
        }
        lemma_kept_cells(rest, removed);
        let last = g.len() - 1;
        if removed.contains(last) {
            assert(row_full(g[last]));
            lemma_row_cells(g[last]);
        } else {
            let kept = kept_rows(g, removed);
            assert(kept.drop_last() =~= kept_rows(rest, removed));
        }
    }
}

/// A full row is found by the scan, and clearing it alone puts an empty row
/// at the top, lowers every row above it by one, leaves the rows below it
/// where they were, and takes a board's width of cells off the count.
pub proof fn lemma_clear_full_row(g: Grid, row: int)
    requires
        grid_wf(g),
        0 <= row < BOARD_HEIGHT,
        row_full(g[row]),
    ensures
        full_rows(g).contains(row),
        grid_wf(cleared(g, set![row])),
        cleared(g, set![row])[0] == empty_row(),
        forall|y: int| 0 <= y < row ==> cleared(g, set![row])[y + 1] == #[trigger] g[y],
        forall|y: int| row < y < BOARD_HEIGHT ==> cleared(g, set![row])[y] == #[trigger] g[y],
        grid_cells(cleared(g, set![row])) + BOARD_WIDTH == grid_cells(g),
{
    let removed = set![row];
    let h = BOARD_HEIGHT as int;
    lemma_one_row_removed(row, 0, h);
    lemma_cleared_rows(g, removed);
    lemma_cleared_cells(g, removed);
    let c = cleared(g, removed);
    assert forall|y: int| 0 <= y < row implies c[y + 1] == #[trigger] g[y] by {
        lemma_one_row_removed(row, y + 1, h);
    }
    assert forall|y: int| row < y < h implies c[y] == #[trigger] g[y] by {
        lemma_one_row_removed(row, y + 1, h);
    }
}

proof fn lemma_one_row_removed(row: int, lo: int, hi: int)
    ensures
        rows_removed(set![row], lo, hi) == if lo <= row < hi {
            1nat
        } else {
            0nat
        },
    decreases hi - lo,
{
    if hi > lo {
        lemma_one_row_removed(row, lo, hi - 1);
    }
}

} // verus!
