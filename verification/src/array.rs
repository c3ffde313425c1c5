//! Flat storage addressed as a one-based vector or a one-based column-major
//! matrix.
//!
//! No access fails. A read of what the array does not hold gives
//! [`ieee::MIN_POSITIVE`], and a write to it goes to a spare slot that no
//! read ever returns.
//!
//! A vector holds the elements `1..=len` of its storage. A matrix holds the
//! entry `(i, j)` if `i` is one of its rows, `1 <= i <= rows`, if `j >= 1`,
//! and if the storage has the cell `(j - 1) * rows + (i - 1)`. Row 0, a row
//! beyond `rows` and column 0 name nothing, whatever their offset would be.
//! The column count is no bound of its own. Where the shape fits the
//! storage, a column beyond `cols` lies outside the storage anyway. Where
//! the storage is longer than `rows * cols`, as in the tail of a matrix that
//! is given the rows of that matrix again, the cells behind the last full
//! column are the top of one more column and can be read and written as
//! such.

use crate::ieee;
use vstd::prelude::*;

pub mod convert;
pub mod region;

verus! {

/// What an array holds: its cells in storage order and its declared shape.
pub struct Grid {
    pub cells: Seq<u64>,
    pub rows: int,
    pub cols: int,
}

impl Grid {
    /// Storage offset of the matrix position `(i, j)`.
    pub open spec fn offset(self, i: int, j: int) -> int {
        (j - 1) * self.rows + (i - 1)
    }

    /// Whether `o` is an offset into the storage.
    pub open spec fn within(self, o: int) -> bool {
        0 <= o < self.cells.len()
    }

    /// The declared number of elements: `rows * cols` for a matrix with
    /// positive dimensions, else `rows`.
    pub open spec fn extent(self) -> int {
        if self.rows > 0 && self.cols > 0 {
            self.rows * self.cols
        } else {
            self.rows
        }
    }

    /// The shape matches the storage: a vector (`cols == 0`) has `rows`
    /// cells, a matrix has `rows * cols`.
    pub open spec fn wf(self) -> bool {
        &&& self.rows >= 0
        &&& self.cols >= 0
        &&& self.cols == 0 ==> self.cells.len() == self.rows
        &&& self.cols != 0 ==> self.cells.len() == self.rows * self.cols
    }

    /// Element `i` of the vector, counted from one.
    pub open spec fn get(self, i: int) -> u64 {
        if self.within(i - 1) {
            self.cells[i - 1]
        } else {
            ieee::MIN_POSITIVE
        }
    }

    /// Whether the matrix holds the entry `(i, j)`: `i` is one of its rows,
    /// `j` is a column from 1 on, and the storage has the cell.
    pub open spec fn has(self, i: int, j: int) -> bool {
        1 <= i <= self.rows && 1 <= j && self.within(self.offset(i, j))
    }

    /// Element `(i, j)` of the matrix, counted from one.
    pub open spec fn get_at(self, i: int, j: int) -> u64 {
        if self.has(i, j) {
            self.cells[self.offset(i, j)]
        } else {
            ieee::MIN_POSITIVE
        }
    }

    /// The array after element `i` of the vector is set to `v`.
    pub open spec fn set(self, i: int, v: u64) -> Grid {
        if self.within(i - 1) {
            Grid { cells: self.cells.update(i - 1, v), ..self }
        } else {
            self
        }
    }

    /// The array after element `(i, j)` of the matrix is set to `v`.
    pub open spec fn set_at(self, i: int, j: int, v: u64) -> Grid {
        if self.has(i, j) {
            Grid { cells: self.cells.update(self.offset(i, j), v), ..self }
        } else {
            self
        }
    }

    /// The cells from element `i` of the vector to the end of the storage;
    /// empty when `i` is not an element.
    pub open spec fn tail(self, i: int) -> Seq<u64> {
        if 1 <= i <= self.extent() && self.within(i - 1) {
            self.cells.subrange(i - 1, self.cells.len() as int)
        } else {
            Seq::empty()
        }
    }

    /// The cells from element `(i, j)` of the matrix to the end of the
    /// storage; empty when the matrix does not hold that entry, or holds it
    /// behind its last full column.
    pub open spec fn tail_at(self, i: int, j: int) -> Seq<u64> {
        if self.has(i, j) {
            self.tail(self.offset(i, j) + 1)
        } else {
            Seq::empty()
        }
    }

    /// The array with `rows` set to `r` and `cols` to the storage length
    /// divided by `r`, rounded toward zero.
    pub open spec fn reshaped(self, r: int) -> Grid {
        Grid {
            cells: self.cells,
            rows: r,
            cols: if r > 0 {
                (self.cells.len() as int) / r
            } else {
                -((self.cells.len() as int) / (-r))
            },
        }
    }

    /// The array after `v` is put in front of element `i` of the vector.
    /// Nothing happens unless `1 <= i < extent`, and the shape stays.
    pub open spec fn inserted(self, i: int, v: u64) -> Grid {
        if 1 <= i < self.extent() && i - 1 <= self.cells.len() {
            Grid { cells: self.cells.insert(i - 1, v), ..self }
        } else {
            self
        }
    }

    /// Equal shapes, equal lengths, and numerically equal cells.
    pub open spec fn same(self, other: Grid) -> bool {
        &&& self.rows == other.rows
        &&& self.cols == other.cols
        &&& self.cells.len() == other.cells.len()
        &&& forall|k: int| 0 <= k < self.cells.len() ==> ieee::equal(self.cells[k], other.cells[k])
    }
}

/// Two positions in rows of the matrix that share a cell are the same
/// position.
pub proof fn lemma_offset_injective(b: Grid, i: int, j: int, i2: int, j2: int)
    requires
        1 <= i <= b.rows,
        1 <= i2 <= b.rows,
        b.offset(i, j) == b.offset(i2, j2),
    ensures
        i == i2,
        j == j2,
{
    let r = b.rows;
    assert((j - j2) * r == i2 - i) by (nonlinear_arith)
        requires
            (j - 1) * r + (i - 1) == (j2 - 1) * r + (i2 - 1),
    ;
    assert(j == j2) by (nonlinear_arith)
        requires
            (j - j2) * r == i2 - i,
            -r < i2 - i < r,
            r >= 1,
    ;
}

/// In a matrix whose shape fits its storage, the entries that the matrix
/// holds are those of its shape.
pub proof fn lemma_has_in_shape(b: Grid, i: int, j: int)
    requires
        b.wf(),
        b.cols >= 1,
    ensures
        b.has(i, j) <==> 1 <= i <= b.rows && 1 <= j <= b.cols,
{
    let r = b.rows;
    let c = b.cols;
    if 1 <= i <= r && 1 <= j {
        if j <= c {
            assert(0 <= (j - 1) * r && (j - 1) * r + r <= r * c) by (nonlinear_arith)
                requires
                    1 <= j <= c,
                    r >= 1,
            ;
        } else {
            assert((j - 1) * r >= r * c) by (nonlinear_arith)
                requires
                    j > c,
                    c >= 0,
                    r >= 1,
            ;
        }
    }
}

/// A write to an entry that the matrix holds is read back there and changes
/// no other entry; a write to anything else changes no entry. The shape
/// stays, and so does its fit to the storage.
pub proof fn lemma_set_at_then_get_at(b: Grid, i: int, j: int, v: u64, i2: int, j2: int)
    ensures
        b.set_at(i, j, v).get_at(i2, j2) == (if i2 == i && j2 == j && b.has(i, j) {
            v
        } else {
            b.get_at(i2, j2)
        }),
        b.set_at(i, j, v).has(i2, j2) == b.has(i2, j2),
        b.set_at(i, j, v).rows == b.rows,
        b.set_at(i, j, v).cols == b.cols,
        b.set_at(i, j, v).cells.len() == b.cells.len(),
        b.wf() ==> b.set_at(i, j, v).wf(),
{
    if b.has(i, j) && b.has(i2, j2) && b.offset(i, j) == b.offset(i2, j2) {
        lemma_offset_injective(b, i, j, i2, j2);
    }
}

/// A write to an element of a vector is read back there, if the vector has
/// that element, and changes no other element.
pub proof fn lemma_set_then_get(b: Grid, i: int, v: u64, i2: int)
    ensures
        b.set(i, v).get(i2) == (if i2 == i && b.within(i - 1) {
            v
        } else {
            b.get(i2)
        }),
        b.set(i, v).rows == b.rows,
        b.set(i, v).cols == b.cols,
        b.wf() ==> b.set(i, v).wf(),
{
}

/// Flat storage of binary64 patterns with a row count and a column count.
/// A column count of zero makes it a plain vector.
#[derive(Debug)]
pub struct FortranArray {
    data: Vec<u64>,
    rows: i32,
    cols: i32,
    default_value: u64,
}

impl View for FortranArray {
    type V = Grid;

    closed spec fn view(&self) -> Grid {
        Grid { cells: self.data@, rows: self.rows as int, cols: self.cols as int }
    }
}

impl FortranArray {
    /// The content of the spare slot, where writes outside the storage go.
    pub closed spec fn spare(&self) -> u64 {
        self.default_value
    }

    /// The shape fits the storage.
    pub open spec fn wf(&self) -> bool {
        self@.wf()
    }

    /// The array with the given storage and shape and a NaN in the spare
    /// slot.
    pub closed spec fn of_parts(data: Vec<u64>, rows: i32, cols: i32) -> FortranArray {
        FortranArray { data, rows, cols, default_value: ieee::NAN }
    }

    /// What [`FortranArray::of_parts`] holds.
    pub broadcast proof fn lemma_of_parts(data: Vec<u64>, rows: i32, cols: i32)
        ensures
            (#[trigger] FortranArray::of_parts(data, rows, cols))@ == (Grid {
                cells: data@,
                rows: rows as int,
                cols: cols as int,
            }),
            FortranArray::of_parts(data, rows, cols).spare() == ieee::NAN,
    {
    }

    /// An array over the given storage, with the given shape.
    pub fn from_parts(data: Vec<u64>, rows: i32, cols: i32) -> (r: Self)
        ensures
            r == FortranArray::of_parts(data, rows, cols),
            r@ == (Grid { cells: data@, rows: rows as int, cols: cols as int }),
            r.spare() == ieee::NAN,
    {
        FortranArray { data, rows, cols, default_value: ieee::NAN }
    }

    /// An array without cells, of shape 0 by 0.
    pub fn empty() -> (r: Self)
        ensures
            r@ == (Grid { cells: Seq::empty(), rows: 0, cols: 0 }),
            r.spare() == ieee::NAN,
            r.wf(),
    {
        FortranArray { data: Vec::new(), rows: 0, cols: 0, default_value: ieee::NAN }
    }

    /// `rows * cols` cells holding positive zero.
    pub fn zeros(rows: i32, cols: i32) -> (r: Self)
        requires
            0 <= rows * cols <= i32::MAX,
        ensures
            r@ == (Grid {
                cells: Seq::new((rows * cols) as nat, |k: int| ieee::ZERO),
                rows: rows as int,
                cols: cols as int,
            }),
            r.spare() == ieee::NAN,
            (cols != 0 || rows == 0) && rows >= 0 && cols >= 0 ==> r.wf(),
    {
        let n: i64 = (rows as i64) * (cols as i64);
        let mut data: Vec<u64> = Vec::new();
        let mut k: i64 = 0;
        while k < n
            invariant
                0 <= k <= n,
                n == rows * cols,
                data@ == Seq::new(k as nat, |k: int| ieee::ZERO),
            decreases n - k,
        {
            data.push(ieee::ZERO);
            k = k + 1;
            assert(data@ =~= Seq::new(k as nat, |k: int| ieee::ZERO));
        }
        FortranArray { data, rows, cols, default_value: ieee::NAN }
    }

    /// A vector of one element.
    pub fn single(data: u64) -> (r: Self)
        ensures
            r@ == (Grid { cells: seq![data], rows: 1, cols: 0 }),
            r.spare() == ieee::NAN,
            r.wf(),
    {
        let mut cells: Vec<u64> = Vec::new();
        cells.push(data);
        assert(cells@ =~= seq![data]);
        FortranArray { data: cells, rows: 1, cols: 0, default_value: ieee::NAN }
    }

    /// A vector holding a copy of `data`.
    pub fn vector(data: &[u64]) -> (r: Self)
        requires
            data@.len() <= i32::MAX,
        ensures
            r@ == (Grid { cells: data@, rows: data@.len() as int, cols: 0 }),
            r.spare() == ieee::NAN,
            r.wf(),
    {
        let rows: i32 = data.len() as i32;
        FortranArray {
            data: vstd::slice::slice_to_vec(data),
            rows,
            cols: 0,
            default_value: ieee::NAN,
        }
    }

    /// A matrix of the given shape holding a copy of `data`, column after
    /// column.
    pub fn matrix(data: &[u64], rows: i32, cols: i32) -> (r: Self)
        requires
            data@.len() == rows * cols,
        ensures
            r@ == (Grid { cells: data@, rows: rows as int, cols: cols as int }),
            r.spare() == ieee::NAN,
            rows >= 0 && cols > 0 ==> r.wf(),
    {
        FortranArray {
            data: vstd::slice::slice_to_vec(data),
            rows,
            cols,
            default_value: ieee::NAN,
        }
    }

    /// The declared number of rows.
    pub fn rows(&self) -> (r: i32)
        ensures
            r == self@.rows,
    {
        self.rows
    }

    /// The declared number of columns.
    pub fn cols(&self) -> (r: i32)
        ensures
            r == self@.cols,
    {
        self.cols
    }

    /// The number of cells in the storage.
    pub fn storage_len(&self) -> (r: usize)
        ensures
            r == self@.cells.len(),
    {
        self.data.len()
    }

    /// Whether the array is a plain vector.
    pub fn is_1d(&self) -> (r: bool)
        ensures
            r == (self@.cols == 0),
    {
        self.cols == 0
    }

    /// Whether the array is a matrix with positive dimensions.
    pub fn is_2d(&self) -> (r: bool)
        ensures
            r == (self@.rows > 0 && self@.cols > 0),
    {
        self.rows > 0 && self.cols > 0
    }

    /// The declared number of elements.
    pub fn len(&self) -> (r: i64)
        ensures
            r == self@.extent(),
    {
        if self.is_2d() {
            assert(0 < self.rows * self.cols <= 0x7fff_ffff * 0x7fff_ffff) by (nonlinear_arith)
                requires
                    0 < self.rows <= 0x7fff_ffff,
                    0 < self.cols <= 0x7fff_ffff,
            ;
            (self.rows as i64) * (self.cols as i64)
        } else {
            self.rows as i64
        }
    }

    /// The one-based vector index of the matrix position `(i, j)`.
    pub fn idx(&self, i: i32, j: i32) -> (r: i64)
        ensures
            r == self@.offset(i as int, j as int) + 1,
    {
        let r: i64 = self.rows as i64;
        let c: i64 = j as i64 - 1;
        assert(-0x8000_0001 * 0x8000_0000 <= c * r <= 0x8000_0001 * 0x8000_0000)
            by (nonlinear_arith)
            requires
                -0x8000_0001 <= c <= 0x8000_0000,
                -0x8000_0000 <= r <= 0x8000_0000,
        ;
        c * r + i as i64
    }

    /// The storage offset of vector element `index`, if it has one.
    fn slot(&self, index: i64) -> (r: Option<usize>)
        ensures
            match r {
                Some(o) => self@.within(index - 1) && o == index - 1,
                None => !self@.within(index - 1),
            },
    {
        if index >= 1 && ((index - 1) as u64) < self.data.len() as u64 {
            Some((index - 1) as usize)
        } else {
            None
        }
    }

    /// Reads element `i` of the vector.
    pub fn get(&self, i: i32) -> (r: u64)
        ensures
            r == self@.get(i as int),
    {
        match self.slot(i as i64) {
            Some(o) => self.data[o],
            None => ieee::MIN_POSITIVE,
        }
    }

    /// Reads element `index` of the vector, for an index of any size.
    pub fn get_wide(&self, index: i64) -> (r: u64)
        ensures
            r == self@.get(index as int),
    {
        match self.slot(index) {
            Some(o) => self.data[o],
            None => ieee::MIN_POSITIVE,
        }
    }

    /// Writes element `index` of the vector, for an index of any size.
    pub fn set_wide(&mut self, index: i64, v: u64)
        ensures
            final(self)@ == old(self)@.set(index as int, v),
            old(self)@.within(index - 1) ==> final(self).spare() == old(self).spare(),
            !old(self)@.within(index - 1) ==> final(self).spare() == v,
    {
        match self.slot(index) {
            Some(o) => {
                self.data.set(o, v);
            },
            None => {
                self.default_value = v;
            },
        }
    }

    /// The storage offset of the matrix entry `(i, j)`, if the matrix holds
    /// it.
    fn slot_at(&self, i: i32, j: i32) -> (r: Option<usize>)
        ensures
            match r {
                Some(o) => self@.has(i as int, j as int) && o == self@.offset(i as int, j as int),
                None => !self@.has(i as int, j as int),
            },
    {
        if 1 <= i && i <= self.rows && 1 <= j {
            self.slot(self.idx(i, j))
        } else {
            None
        }
    }

    /// Reads element `(i, j)` of the matrix.
    pub fn get_at(&self, i: i32, j: i32) -> (r: u64)
        ensures
            r == self@.get_at(i as int, j as int),
    {
        match self.slot_at(i, j) {
            Some(o) => self.data[o],
            None => ieee::MIN_POSITIVE,
        }
    }

    /// The cells from element `i` of the vector to the end of the storage.
    pub fn slice_from(&self, i: i32) -> (r: &[u64])
        ensures
            r@ == self@.tail(i as int),
    {
        self.run_from(i as i64)
    }

    /// The cells from element `(i, j)` of the matrix to the end of the
    /// storage.
    pub fn slice_from_at(&self, i: i32, j: i32) -> (r: &[u64])
        ensures
            r@ == self@.tail_at(i as int, j as int),
    {
        if 1 <= i && i <= self.rows && 1 <= j {
            self.run_from(self.idx(i, j))
        } else {
            self.run_from(0)
        }
    }

    /// The cells from vector element `index` on.
    fn run_from(&self, index: i64) -> (r: &[u64])
        ensures
            r@ == self@.tail(index as int),
    {
        let all: &[u64] = self.data.as_slice();
        match self.slot(index) {
            Some(o) => {
                if index <= self.len() {
                    vstd::slice::slice_subrange(all, o, all.len())
                } else {
                    vstd::slice::slice_subrange(all, 0, 0)
                }
            },
            None => vstd::slice::slice_subrange(all, 0, 0),
        }
    }

    /// Sets the row count to `r` and the column count to the storage length
    /// divided by `r`, rounded toward zero.
    pub fn as_2d(&mut self, r: i32)
        requires
            r != 0,
            old(self)@.cells.len() <= i32::MAX,
        ensures
            final(self)@ == old(self)@.reshaped(r as int),
            final(self).spare() == old(self).spare(),
            r > 0 && (old(self)@.cells.len() as int) % (r as int) == 0 && old(self)@.cells.len() > 0
                ==> final(self).wf(),
    {
        let len: i64 = self.data.len() as i64;
        let cols: i64 = if r > 0 {
            len / (r as i64)
        } else {
            -(len / (-(r as i64)))
        };
        proof {
            let n = len as int;
            if r > 0 {
                assert(0 <= n / (r as int) <= n) by (nonlinear_arith)
                    requires
                        0 <= n,
                        r > 0,
                ;
                if n % (r as int) == 0 && n > 0 {
                    assert(n == (r as int) * (n / (r as int)) && n / (r as int) > 0)
                        by (nonlinear_arith)
                        requires
                            n % (r as int) == 0,
                            n > 0,
                            r > 0,
                    ;
                }
            } else {
                assert(0 <= n / (-(r as int)) <= n) by (nonlinear_arith)
                    requires
                        0 <= n,
                        r < 0,
                ;
            }
        }
        self.rows = r;
        self.cols = cols as i32;
    }

    /// Puts `v` in front of element `index` of the vector when
    /// `1 <= index < len()`. The shape is left as it is.
    pub fn insert(&mut self, index: i32, v: u64)
        ensures
            final(self)@ == old(self)@.inserted(index as int, v),
            final(self).spare() == old(self).spare(),
    {
        if index >= 1 && (index as i64) < self.len() && (index as u64 - 1) <= self.data.len() as u64 {
            self.data.insert((index - 1) as usize, v);
        }
    }

    /// Gives up the storage.
    pub fn to_vec(self) -> (r: Vec<u64>)
        ensures
            r@ == self@.cells,
    {
        self.data
    }

    /// Writes element `i` of the vector.
    pub fn set(&mut self, i: i32, v: u64)
        ensures
            final(self)@ == old(self)@.set(i as int, v),
            old(self)@.within(i - 1) ==> final(self).spare() == old(self).spare(),
            !old(self)@.within(i - 1) ==> final(self).spare() == v,
    {
        match self.slot(i as i64) {
            Some(o) => {
                self.data.set(o, v);
            },
            None => {
                self.default_value = v;
            },
        }
    }

    /// Writes element `(i, j)` of the matrix.
    pub fn set_at(&mut self, i: i32, j: i32, v: u64)
        ensures
            final(self)@ == old(self)@.set_at(i as int, j as int, v),
            old(self)@.has(i as int, j as int) ==> final(self).spare() == old(self).spare(),
            !old(self)@.has(i as int, j as int) ==> final(self).spare() == v,
    {
        match self.slot_at(i, j) {
            Some(o) => {
                self.data.set(o, v);
            },
            None => {
                self.default_value = v;
            },
        }
    }
}

impl Clone for FortranArray {
    fn clone(&self) -> (r: Self)
        ensures
            r@ == self@,
            r.spare() == self.spare(),
    {
        let data = self.data.clone();
        assert(data@ =~= self.data@);
        FortranArray { data, rows: self.rows, cols: self.cols, default_value: self.default_value }
    }
}

impl Default for FortranArray {
    fn default() -> (r: Self)
        ensures
            r@ == (Grid { cells: Seq::empty(), rows: 0, cols: 0 }),
            r.spare() == ieee::NAN,
    {
        FortranArray::empty()
    }
}

impl PartialEq for FortranArray {
    fn eq(&self, other: &Self) -> (r: bool) {
        if self.rows != other.rows || self.cols != other.cols || self.data.len()
            != other.data.len() {
            return false;
        }
        let n = self.data.len();
        let mut k: usize = 0;
        while k < n
            invariant
                k <= n,
                n == self.data@.len(),
                n == other.data@.len(),
                forall|t: int| 0 <= t < k ==> ieee::equal(self.data@[t], other.data@[t]),
            decreases n - k,
        {
            if !ieee::eq(self.data[k], other.data[k]) {
                return false;
            }
            k = k + 1;
        }
        true
    }
}

impl vstd::std_specs::cmp::PartialEqSpecImpl for FortranArray {
    open spec fn obeys_eq_spec() -> bool {
        true
    }

    open spec fn eq_spec(&self, other: &Self) -> bool {
        self@.same(other@)
    }
}

} // verus!
