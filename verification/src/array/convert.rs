//! Conversions between arrays and plain vectors.
//!
//! A vector of vectors lists the columns of a matrix: the length of the
//! first vector becomes the row count of the array and the number of
//! vectors its column count, and the storage is filled with one vector after
//! the other. A list of vectors of one length comes back from the array as
//! it went in.

use crate::array::{FortranArray, Grid};
use crate::ieee;
use vstd::prelude::*;

verus! {

/// The elements of all the vectors, one vector after the other.
pub open spec fn flattened(parts: Seq<Vec<u64>>) -> Seq<u64>
    decreases parts.len(),
{
    if parts.len() == 0 {
        Seq::empty()
    } else {
        flattened(parts.drop_last()) + parts.last()@
    }
}

/// The length of the first vector, or zero if there is none.
pub open spec fn first_len(parts: Seq<Vec<u64>>) -> int {
    if parts.len() == 0 {
        0
    } else {
        parts[0]@.len() as int
    }
}

/// The array that stands for a list of columns.
pub open spec fn matrix_grid(parts: Seq<Vec<u64>>) -> Grid {
    Grid {
        cells: flattened(parts),
        rows: (first_len(parts) as i32) as int,
        cols: (parts.len() as i32) as int,
    }
}

/// Whether all the vectors have the length of the first.
pub open spec fn rectangular(parts: Seq<Vec<u64>>) -> bool {
    forall|c: int| 0 <= c < parts.len() ==> (#[trigger] parts[c])@.len() == first_len(parts)
}

/// The vectors as sequences.
pub open spec fn lists(parts: Seq<Vec<u64>>) -> Seq<Seq<u64>> {
    Seq::new(parts.len(), |c: int| parts[c]@)
}

/// The columns of a matrix, each from the first row to the last.
pub open spec fn columns_of(g: Grid) -> Seq<Seq<u64>> {
    Seq::new(g.cols as nat, |c: int| Seq::new(g.rows as nat, |i: int| g.get_at(i + 1, c + 1)))
}

/// In a list of vectors of one length `r`, element `i` of vector `c` is
/// cell `c * r + i` of the storage.
pub proof fn lemma_flattened(parts: Seq<Vec<u64>>, c: int, i: int)
    requires
        rectangular(parts),
        0 <= c < parts.len(),
        0 <= i < first_len(parts),
    ensures
        flattened(parts).len() == parts.len() * first_len(parts),
        0 <= c * first_len(parts) + i < flattened(parts).len(),
        flattened(parts)[c * first_len(parts) + i] == parts[c]@[i],
    decreases parts.len(),
{
    let r = first_len(parts);
    let n = parts.len() as int;
    let front = parts.drop_last();
    assert(parts.last()@.len() == r);
    lemma_flattened_len(parts);
    lemma_flattened_len(front);
    assert(c * r + i < n * r && c * r >= 0) by (nonlinear_arith)
        requires
            0 <= c < n,
            0 <= i < r,
    ;
    if c < n - 1 {
        assert(rectangular(front)) by {
            assert forall|d: int| 0 <= d < front.len() implies (#[trigger] front[d])@.len()
                == first_len(front) by {
                assert(front[d] == parts[d]);
                assert(front[0] == parts[0]);
            }
        }
        assert(first_len(front) == r) by {
            assert(front[0] == parts[0]);
        }
        lemma_flattened(front, c, i);
        assert(front[c] == parts[c]);
    } else {
        assert(c * r == (n - 1) * r) by (nonlinear_arith)
            requires
                c == n - 1,
        ;
    }
}

/// A list of `n` vectors of one length `r` fills `n * r` cells.
pub proof fn lemma_flattened_len(parts: Seq<Vec<u64>>)
    requires
        forall|c: int| 0 <= c < parts.len() ==> (#[trigger] parts[c])@.len() == first_len(parts),
    ensures
        flattened(parts).len() == parts.len() * first_len(parts),
    decreases parts.len(),
{
    let r = first_len(parts);
    let n = parts.len() as int;
    if n > 0 {
        let front = parts.drop_last();
        assert(parts.last()@.len() == r);
        if n > 1 {
            assert(front[0] == parts[0]);
            assert forall|d: int| 0 <= d < front.len() implies (#[trigger] front[d])@.len()
                == first_len(front) by {
                assert(front[d] == parts[d]);
            }
            lemma_flattened_len(front);
            assert((n - 1) * r + r == n * r) by (nonlinear_arith);
        } else {
            assert(flattened(front) =~= Seq::<u64>::empty());
            assert(n * r == r) by (nonlinear_arith)
                requires
                    n == 1,
            ;
        }
    } else {
        assert(n * r == 0) by (nonlinear_arith)
            requires
                n == 0,
        ;
    }
}

/// A list of vectors of one length comes back as it went in: the columns of
/// the array that stands for it are its vectors.
pub proof fn lemma_round_trip(parts: Seq<Vec<u64>>)
    requires
        rectangular(parts),
        parts.len() <= i32::MAX,
        first_len(parts) <= i32::MAX,
    ensures
        columns_of(matrix_grid(parts)) == lists(parts),
        matrix_grid(parts).rows >= 0,
        matrix_grid(parts).cols >= 0,
        matrix_grid(parts).cells.len() == matrix_grid(parts).rows * matrix_grid(parts).cols,
{
    let g = matrix_grid(parts);
    let r = first_len(parts);
    lemma_flattened_len(parts);
    assert(g.cells.len() == g.rows * g.cols) by (nonlinear_arith)
        requires
            g.cells.len() == parts.len() * r,
            g.rows == r,
            g.cols == parts.len(),
    ;
    assert forall|c: int| 0 <= c < parts.len() implies #[trigger] columns_of(g)[c] == lists(
        parts,
    )[c] by {
        assert forall|i: int| 0 <= i < r implies g.get_at(i + 1, c + 1) == parts[c]@[i] by {
            lemma_flattened(parts, c, i);
            assert(g.offset(i + 1, c + 1) == c * r + i) by (nonlinear_arith)
                requires
                    g.offset(i + 1, c + 1) == (c + 1 - 1) * g.rows + (i + 1 - 1),
                    g.rows == r,
            ;
        }
        assert(columns_of(g)[c] =~= parts[c]@);
    }
    assert(columns_of(g) =~= lists(parts));
}

/// What a value holds when it is taken as an array.
pub trait ToFortranArray {
    /// The cells and the shape of the array that stands for `self`.
    spec fn grid(&self) -> Grid;

    /// An array that holds a copy of `self`.
    fn to_fortran_array(&self) -> (r: FortranArray)
        ensures
            r@ == self.grid(),
    ;
}

impl ToFortranArray for Vec<u64> {
    open spec fn grid(&self) -> Grid {
        Grid { cells: self@, rows: (self@.len() as i32) as int, cols: 0 }
    }

    fn to_fortran_array(&self) -> (r: FortranArray) {
        let data = self.clone();
        assert(data@ =~= self@);
        let rows: i32 = #[verifier::truncate]
        (self.len() as i32);
        FortranArray::from_parts(data, rows, 0)
    }
}

impl ToFortranArray for Vec<Vec<u64>> {
    open spec fn grid(&self) -> Grid {
        matrix_grid(self@)
    }

    fn to_fortran_array(&self) -> (r: FortranArray) {
        let cols: i32 = #[verifier::truncate]
        (self.len() as i32);
        let rows: i32 = if self.len() > 0 {
            #[verifier::truncate]
            (self[0].len() as i32)
        } else {
            0
        };
        FortranArray::from_parts(flatten(self), rows, cols)
    }
}

impl ToFortranArray for FortranArray {
    open spec fn grid(&self) -> Grid {
        self@
    }

    fn to_fortran_array(&self) -> (r: FortranArray) {
        self.clone()
    }
}

/// The elements of all the vectors, one vector after the other.
pub fn flatten(parts: &Vec<Vec<u64>>) -> (r: Vec<u64>)
    ensures
        r@ == flattened(parts@),
{
    let mut out: Vec<u64> = Vec::new();
    let mut c: usize = 0;
    while c < parts.len()
        invariant
            c <= parts@.len(),
            out@ == flattened(parts@.take(c as int)),
        decreases parts@.len() - c,
    {
        let part = &parts[c];
        let ghost before = out@;
        let mut i: usize = 0;
        while i < part.len()
            invariant
                i <= part@.len(),
                out@ == before + part@.take(i as int),
            decreases part@.len() - i,
        {
            out.push(part[i]);
            assert(part@.take(i + 1) =~= part@.take(i as int).push(part@[i as int]));
            i = i + 1;
        }
        proof {
            assert(part@.take(part@.len() as int) =~= part@);
            assert(parts@.take(c + 1).drop_last() =~= parts@.take(c as int));
            assert(parts@.take(c + 1).last() == parts@[c as int]);
        }
        c = c + 1;
    }
    assert(parts@.take(parts@.len() as int) =~= parts@);
    out
}

impl FortranArray {
    /// The matrix as the list of its columns. The array made from a list of
    /// vectors of one length gives that list back.
    pub fn to_columns(&self) -> (r: Vec<Vec<u64>>)
        requires
            self@.rows >= 0,
            self@.cols >= 0,
            self@.cells.len() == self@.rows * self@.cols,
        ensures
            lists(r@) == columns_of(self@),
            r@.len() == self@.cols,
            forall|c: int| 0 <= c < self@.cols ==> (#[trigger] r@[c])@.len() == self@.rows,
            forall|c: int, i: int|
                0 <= c < self@.cols && 0 <= i < self@.rows ==> #[trigger] r@[c]@[i]
                    == self@.get_at(i + 1, c + 1),
    {
        let rows: i32 = self.rows();
        let cols: i32 = self.cols();
        let mut out: Vec<Vec<u64>> = Vec::new();
        let mut c: i32 = 0;
        while c < cols
            invariant
                0 <= c <= cols,
                rows == self@.rows,
                cols == self@.cols,
                rows >= 0,
                out@.len() == c,
                forall|d: int| 0 <= d < c ==> (#[trigger] out@[d])@.len() == rows,
                forall|d: int, i: int|
                    0 <= d < c && 0 <= i < rows ==> #[trigger] out@[d]@[i] == self@.get_at(
                        i + 1,
                        d + 1,
                    ),
            decreases cols - c,
        {
            let mut column: Vec<u64> = Vec::new();
            let mut i: i32 = 0;
            while i < rows
                invariant
                    0 <= i <= rows,
                    0 <= c < cols,
                    column@.len() == i,
                    forall|t: int| 0 <= t < i ==> column@[t] == self@.get_at(t + 1, c + 1),
                decreases rows - i,
            {
                column.push(self.get_at(i + 1, c + 1));
                i = i + 1;
            }
            out.push(column);
            c = c + 1;
        }
        assert(lists(out@) =~= columns_of(self@)) by {
            assert forall|d: int| 0 <= d < cols implies #[trigger] lists(out@)[d] =~= columns_of(
                self@,
            )[d] by {
                assert(out@[d]@.len() == rows);
            }
        }
        out
    }
}

impl From<Vec<u64>> for FortranArray {
    fn from(data: Vec<u64>) -> (r: Self)
        ensures
            r@ == data.grid(),
            r.spare() == ieee::NAN,
    {
        let rows: i32 = #[verifier::truncate]
        (data.len() as i32);
        FortranArray::from_parts(data, rows, 0)
    }
}

impl vstd::std_specs::convert::FromSpecImpl<Vec<u64>> for FortranArray {
    open spec fn obeys_from_spec() -> bool {
        true
    }

    open spec fn from_spec(data: Vec<u64>) -> Self {
        FortranArray::of_parts(data, data@.len() as i32, 0)
    }
}

impl From<Vec<Vec<u64>>> for FortranArray {
    fn from(parts: Vec<Vec<u64>>) -> (r: Self)
        ensures
            r@ == parts.grid(),
            r.spare() == ieee::NAN,
    {
        let cols: i32 = #[verifier::truncate]
        (parts.len() as i32);
        let rows: i32 = if parts.len() > 0 {
            #[verifier::truncate]
            (parts[0].len() as i32)
        } else {
            0
        };
        FortranArray::from_parts(flatten(&parts), rows, cols)
    }
}

impl vstd::std_specs::convert::FromSpecImpl<Vec<Vec<u64>>> for FortranArray {
    open spec fn obeys_from_spec() -> bool {
        false
    }

    open spec fn from_spec(parts: Vec<Vec<u64>>) -> Self {
        arbitrary()
    }
}

impl From<FortranArray> for Vec<u64> {
    fn from(array: FortranArray) -> (r: Self)
        ensures
            r@ == array@.cells,
    {
        array.to_vec()
    }
}

impl vstd::std_specs::convert::FromSpecImpl<FortranArray> for Vec<u64> {
    open spec fn obeys_from_spec() -> bool {
        false
    }

    open spec fn from_spec(array: FortranArray) -> Self {
        arbitrary()
    }
}

} // verus!
