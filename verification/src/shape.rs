//! Square boolean matrices: the bitmask of a piece, and its quarter turn.

use vstd::prelude::*;

verus! {

/// The rows of a matrix stored as a vector of vectors, top row first.
pub open spec fn rows_of<T>(m: Vec<Vec<T>>) -> Seq<Seq<T>> {
    Seq::new(m.len() as nat, |r: int| m[r]@)
}

/// Every row is as long as the matrix is high.
pub open spec fn is_square(s: Seq<Seq<bool>>) -> bool {
    forall|r: int| 0 <= r < s.len() ==> (#[trigger] s[r]).len() == s.len()
}

/// Row `r`, column `c` lies inside the matrix and is filled.
pub open spec fn filled(s: Seq<Seq<bool>>, r: int, c: int) -> bool {
    0 <= r < s.len() && 0 <= c < s[r].len() && s[r][c]
}

/// The matrix has at least one filled cell.
pub open spec fn has_filled_cell(s: Seq<Seq<bool>>) -> bool {
    exists|r: int, c: int| filled(s, r, c)
}

/// Column `c` of the matrix holds a filled cell.
pub open spec fn column_filled(s: Seq<Seq<bool>>, c: int) -> bool {
    exists|r: int| filled(s, r, c)
}

/// The matrix flipped along its main diagonal.
pub open spec fn transposed(s: Seq<Seq<bool>>) -> Seq<Seq<bool>> {
    Seq::new(s.len(), |r: int| Seq::new(s.len(), |c: int| s[c][r]))
}

/// The matrix with every row read right to left.
pub open spec fn rows_reversed(s: Seq<Seq<bool>>) -> Seq<Seq<bool>> {
    Seq::new(s.len(), |r: int| s[r].reverse())
}

/// A quarter turn clockwise: transpose, then reverse each row.
pub open spec fn rotated(s: Seq<Seq<bool>>) -> Seq<Seq<bool>> {
    rows_reversed(transposed(s))
}

/// A quarter turn keeps the matrix square and of the same size, and the cell
/// at row `r`, column `c` of the result is the cell at row `n - 1 - c`,
/// column `r` of the matrix that was turned.
pub proof fn lemma_rotated_cells(s: Seq<Seq<bool>>)
    requires
        is_square(s),
    ensures
        rotated(s).len() == s.len(),
        is_square(rotated(s)),
        forall|r: int, c: int|
            0 <= r < s.len() && 0 <= c < s.len() ==> #[trigger] rotated(s)[r][c] == s[s.len() - 1
                - c][r],
{
    let n = s.len() as int;
    let t = transposed(s);
    assert forall|r: int| 0 <= r < n implies (#[trigger] rotated(s)[r]).len() == n by {
        assert(t[r].len() == n);
    }
    assert forall|r: int, c: int| 0 <= r < n && 0 <= c < n implies #[trigger] rotated(s)[r][c]
        == s[n - 1 - c][r] by {
        assert(t[r].len() == n);
        assert(rotated(s)[r] == t[r].reverse());
        assert(t[r].reverse()[c] == t[r][n - 1 - c]);
    }
}

/// Four quarter turns give back the matrix they started from.
pub proof fn lemma_rotated_four_times(s: Seq<Seq<bool>>)
    requires
        is_square(s),
    ensures
        rotated(rotated(rotated(rotated(s)))) == s,
{
    let s1 = rotated(s);
    let s2 = rotated(s1);
    let s3 = rotated(s2);
    let s4 = rotated(s3);
    lemma_rotated_cells(s);
    lemma_rotated_cells(s1);
    lemma_rotated_cells(s2);
    lemma_rotated_cells(s3);
    let n = s.len() as int;
    assert forall|r: int| 0 <= r < n implies #[trigger] s4[r] == s[r] by {
        assert forall|c: int| 0 <= c < n implies s4[r][c] == s[r][c] by {
            assert(s4[r][c] == s3[n - 1 - c][r]);
            assert(s3[n - 1 - c][r] == s2[n - 1 - r][n - 1 - c]);
            assert(s2[n - 1 - r][n - 1 - c] == s1[c][n - 1 - r]);
            assert(s1[c][n - 1 - r] == s[r][c]);
        }
        assert(s4[r] =~= s[r]);
    }
    assert(s4 =~= s);
}

/// A quarter turn moves every filled cell and loses none: the cell at row
/// `r`, column `c` goes to row `c`, column `n - 1 - r`.
pub proof fn lemma_rotated_keeps_filled(s: Seq<Seq<bool>>)
    requires
        is_square(s),
    ensures
        forall|r: int, c: int| filled(s, r, c) <==> #[trigger] filled(rotated(s), c, s.len() - 1 - r),
        has_filled_cell(s) <==> has_filled_cell(rotated(s)),
{
    let n = s.len() as int;
    let t = rotated(s);
    lemma_rotated_cells(s);
    assert forall|r: int, c: int| filled(s, r, c) <==> #[trigger] filled(t, c, n - 1 - r) by {
        if 0 <= r < n && 0 <= c < n {
            assert(t[c][n - 1 - r] == s[n - 1 - (n - 1 - r)][c]);
        }
    }
    if has_filled_cell(s) {
        let (r, c) = choose|r: int, c: int| filled(s, r, c);
        assert(filled(t, c, n - 1 - r));
    }
    if has_filled_cell(t) {
        let (r, c) = choose|r: int, c: int| filled(t, r, c);
        assert(filled(t, r, n - 1 - (n - 1 - c)));
        assert(filled(s, n - 1 - c, r));
    }
}

/// Flips a square matrix along its main diagonal.
pub fn transpose(m: &Vec<Vec<bool>>) -> (out: Vec<Vec<bool>>)
    requires
        is_square(rows_of(*m)),
    ensures
        rows_of(out) == transposed(rows_of(*m)),
{
    let n = m.len();
    let mut out: Vec<Vec<bool>> = Vec::new();
    let mut r: usize = 0;
    while r < n
        invariant
            n == m.len(),
            is_square(rows_of(*m)),
            r <= n,
            out.len() == r,
            forall|i: int| 0 <= i < r ==> (#[trigger] out[i])@ == transposed(rows_of(*m))[i],
        decreases n - r,
    {
        let mut row: Vec<bool> = Vec::new();
        let mut c: usize = 0;
        while c < n
            invariant
                n == m.len(),
                is_square(rows_of(*m)),
                r < n,
                c <= n,
                row.len() == c,
                forall|j: int| 0 <= j < c ==> row[j] == m[j][r as int],
            decreases n - c,
        {
            assert(rows_of(*m)[c as int].len() == n);
            row.push(m[c][r]);
            c += 1;
        }
        assert(row@ =~= transposed(rows_of(*m))[r as int]);
        out.push(row);
        r += 1;
    }
    assert(rows_of(out) =~= transposed(rows_of(*m)));
    out
}

/// Reads every row of a matrix right to left.
pub fn reverse_rows(m: &Vec<Vec<bool>>) -> (out: Vec<Vec<bool>>)
    ensures
        rows_of(out) == rows_reversed(rows_of(*m)),
{
    let n = m.len();
    let mut out: Vec<Vec<bool>> = Vec::new();
    let mut r: usize = 0;
    while r < n
        invariant
            n == m.len(),
            r <= n,
            out.len() == r,
            forall|i: int| 0 <= i < r ==> (#[trigger] out[i])@ == m[i]@.reverse(),
        decreases n - r,
    {
        let w = m[r].len();
        let mut row: Vec<bool> = Vec::new();
        let mut c: usize = 0;
        while c < w
            invariant
                r < m.len(),
                w == m[r as int].len(),
                c <= w,
                row.len() == c,
                forall|j: int| 0 <= j < c ==> row[j] == m[r as int][w - 1 - j],
            decreases w - c,
        {
            row.push(m[r][w - 1 - c]);
            c += 1;
        }
        assert(row@ =~= m[r as int]@.reverse());
        out.push(row);
        r += 1;
    }
    assert(rows_of(out) =~= rows_reversed(rows_of(*m)));
    out
}

/// Turns a square matrix a quarter turn clockwise.
pub fn rotate_clockwise(shape: &Vec<Vec<bool>>) -> (out: Vec<Vec<bool>>)
    requires
        is_square(rows_of(*shape)),
    ensures
        rows_of(out) == rotated(rows_of(*shape)),
{
    let flipped = transpose(shape);
    reverse_rows(&flipped)
}

/// Whether column `c` of a matrix holds a filled cell.
pub fn has_filled_in_column(shape: &Vec<Vec<bool>>, c: usize) -> (found: bool)
    ensures
        found == column_filled(rows_of(*shape), c as int),
{
    let mut r: usize = 0;
    while r < shape.len()
        invariant
            r <= shape.len(),
            forall|i: int| 0 <= i < r ==> !filled(rows_of(*shape), i, c as int),
        decreases shape.len() - r,
    {
        if c < shape[r].len() && shape[r][c] {
            assert(filled(rows_of(*shape), r as int, c as int));
            return true;
        }
        r += 1;
    }
    false
}

} // verus!
