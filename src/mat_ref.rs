//! Shared views: a read-only window onto a buffer described by an offset,
//! a shape and a pair of signed strides.
use vstd::prelude::*;
use vstd::std_specs::cmp::{PartialEqSpec, PartialOrdSpec};
use vstd::std_specs::ops::{DivSpec, MulSpec};
use core::cmp::Ordering;

use crate::mat::{cm_index, lemma_cm_index_bounds, shape_fits, Grid, Mat};
use crate::scalar::Scalar;

verus! {

/// `x` limited to `lo..=hi`: `lo` when `x < lo`, `hi` when `x > hi`, else `x`.
pub open spec fn clamped<T: PartialOrd>(x: T, lo: T, hi: T) -> T {
    if x.partial_cmp_spec(&lo) == Some(Ordering::Less) {
        lo
    } else if x.partial_cmp_spec(&hi) == Some(Ordering::Greater) {
        hi
    } else {
        x
    }
}

/// Whether `f(i, j)` holds at every position of an `nrows` x `ncols` shape,
/// asking column by column and stopping at the first `false`.
pub fn all_cells<F: Fn(usize, usize) -> bool>(nrows: usize, ncols: usize, f: F) -> (r: bool)
    requires
        forall|i: usize, j: usize| i < nrows && j < ncols ==> #[trigger] f.requires((i, j)),
    ensures
        r ==> forall|i: usize, j: usize| i < nrows && j < ncols ==> #[trigger] f.ensures((i, j), true),
        !r ==> exists|i: usize, j: usize| i < nrows && j < ncols && #[trigger] f.ensures((i, j), false),
{
    let mut j: usize = 0;
    while j < ncols
        invariant
            j <= ncols,
            forall|i: usize, j: usize| i < nrows && j < ncols ==> #[trigger] f.requires((i, j)),
            forall|a: usize, b: usize| a < nrows && b < j ==> #[trigger] f.ensures((a, b), true),
        decreases ncols - j,
    {
        let mut i: usize = 0;
        while i < nrows
            invariant
                i <= nrows,
                j < ncols,
                forall|i: usize, j: usize| i < nrows && j < ncols ==> #[trigger] f.requires((i, j)),
                forall|a: usize, b: usize| (a < nrows && b < j) || (a < i && b == j) ==> #[trigger] f.ensures((a, b), true),
            decreases nrows - i,
        {
            if !f(i, j) {
                return false;
            }
            i += 1;
        }
        j += 1;
    }
    true
}

/// Position `k` of a column-major layout with `nrows` rows lies in the
/// column `k / nrows` and the row `k % nrows`.
pub proof fn lemma_cm_split(k: int, nrows: int, ncols: int)
    requires
        0 <= nrows,
        0 <= ncols,
        0 <= k < nrows * ncols,
    ensures
        nrows > 0,
        0 <= k % nrows < nrows,
        0 <= k / nrows < ncols,
        k == cm_index(k % nrows, k / nrows, nrows),
{
    if nrows == 0 {
        assert(nrows * ncols == 0);
    }
    vstd::arithmetic::div_mod::lemma_fundamental_div_mod(k, nrows);
    vstd::arithmetic::div_mod::lemma_mod_bound(k, nrows);
    let q = k / nrows;
    let r = k % nrows;
    assert(k == nrows * q + r);
    if q < 0 {
        assert(nrows * q <= -nrows) by (nonlinear_arith)
            requires
                q < 0,
                nrows > 0,
        ;
    }
    if q >= ncols {
        assert(nrows * q >= nrows * ncols) by (nonlinear_arith)
            requires
                q >= ncols,
                nrows > 0,
        ;
    }
    assert(q * nrows == nrows * q) by (nonlinear_arith);
}

/// Moving `(i, j)` steps from position `(r0, c0)` of a strided layout.
pub proof fn lemma_shift(offset: int, rs: int, cs: int, r0: int, c0: int, i: int, j: int)
    ensures
        offset + (r0 + i) * rs + (c0 + j) * cs == (offset + r0 * rs + c0 * cs) + i * rs + j * cs,
{
    assert((r0 + i) * rs == r0 * rs + i * rs) by (nonlinear_arith);
    assert((c0 + j) * cs == c0 * cs + j * cs) by (nonlinear_arith);
}

/// A read-only strided view. Element `(i, j)` lives at
/// `offset + i * row_stride + j * col_stride` in `data`.
#[derive(Debug)]
pub struct MatRef<'a, T> {
    pub data: &'a [T],
    pub offset: usize,
    pub nrows: usize,
    pub ncols: usize,
    pub row_stride: isize,
    pub col_stride: isize,
}

impl<'a, T> Clone for MatRef<'a, T> {
    fn clone(&self) -> (r: Self)
        ensures
            r == *self,
    {
        *self
    }
}

impl<'a, T> Copy for MatRef<'a, T> {

}

impl<'a, T> MatRef<'a, T> {
    /// Buffer position of element `(i, j)`.
    pub open spec fn addr(self, i: int, j: int) -> int {
        self.offset + i * self.row_stride + j * self.col_stride
    }

    pub open spec fn in_shape(self, i: int, j: int) -> bool {
        0 <= i < self.nrows && 0 <= j < self.ncols
    }

    /// Every element of the shape addresses the buffer, and all counts and
    /// strides stay clear of the limits of `isize`.
    pub open spec fn wf(self) -> bool {
        &&& self.data@.len() <= isize::MAX
        &&& shape_fits(self.nrows as int, self.ncols as int)
        &&& self.row_stride != isize::MIN
        &&& self.col_stride != isize::MIN
        &&& forall|i: int, j: int| self.in_shape(i, j) ==> 0 <= #[trigger] self.addr(i, j) < self.data@.len()
    }

    /// Element `(i, j)` of the view.
    pub open spec fn elem(self, i: int, j: int) -> T {
        self.data@[self.addr(i, j)]
    }

    /// Same shape as `m` and the same element at every position.
    pub open spec fn matches(self, m: Grid<T>) -> bool {
        &&& self.nrows == m.nrows
        &&& self.ncols == m.ncols
        &&& forall|i: int, j: int| self.in_shape(i, j) ==> #[trigger] m.elem(i, j) == self.elem(i, j)
    }

    fn index_of(self, i: usize, j: usize) -> (k: usize)
        requires
            self.wf(),
            i < self.nrows,
            j < self.ncols,
        ensures
            k == self.addr(i as int, j as int),
    {
        assert(0 <= self.addr(0, 0) < self.data@.len());
        assert(0 <= self.addr(i as int, 0) < self.data@.len());
        assert(0 <= self.addr(0, j as int) < self.data@.len());
        assert(0 <= self.addr(i as int, j as int) < self.data@.len());
        let base = self.offset as isize;
        let a = base + (i as isize) * self.row_stride;
        let b = a + (j as isize) * self.col_stride;
        b as usize
    }

    /// Element `(i, j)`; the indices must be in range.
    pub fn at(self, i: usize, j: usize) -> (r: &'a T)
        requires
            self.wf(),
            i < self.nrows,
            j < self.ncols,
        ensures
            *r == self.elem(i as int, j as int),
    {
        let k = self.index_of(i, j);
        &self.data[k]
    }

    pub fn nrows(self) -> (r: usize)
        ensures
            r == self.nrows,
    {
        self.nrows
    }

    pub fn ncols(self) -> (r: usize)
        ensures
            r == self.ncols,
    {
        self.ncols
    }

    /// Element `(i, j)`, or `None` when the indices are out of range.
    pub fn get(self, i: usize, j: usize) -> (r: Option<&'a T>)
        requires
            self.wf(),
        ensures
            r.is_some() == (i < self.nrows && j < self.ncols),
            r.is_some() ==> *r.unwrap() == self.elem(i as int, j as int),
    {
        if i < self.nrows && j < self.ncols {
            Some(self.at(i, j))
        } else {
            None
        }
    }

    /// The `h` x `w` window whose top-left corner is `(r0, c0)`. An empty
    /// window keeps the offset, which then addresses nothing.
    pub open spec fn window(self, r0: int, c0: int, h: int, w: int) -> MatRef<'a, T> {
        MatRef {
            data: self.data,
            offset: if h > 0 && w > 0 { self.addr(r0, c0) as usize } else { self.offset },
            nrows: h as usize,
            ncols: w as usize,
            row_stride: self.row_stride,
            col_stride: self.col_stride,
        }
    }

    /// The view with the order of its rows reversed.
    pub open spec fn rows_reversed(self) -> MatRef<'a, T> {
        if self.nrows == 0 {
            self
        } else {
            MatRef {
                data: self.data,
                offset: if self.ncols > 0 { self.addr(self.nrows - 1, 0) as usize } else { self.offset },
                nrows: self.nrows,
                ncols: self.ncols,
                row_stride: (-self.row_stride) as isize,
                col_stride: self.col_stride,
            }
        }
    }

    /// The view with the order of its columns reversed.
    pub open spec fn cols_reversed(self) -> MatRef<'a, T> {
        if self.ncols == 0 {
            self
        } else {
            MatRef {
                data: self.data,
                offset: if self.nrows > 0 { self.addr(0, self.ncols - 1) as usize } else { self.offset },
                nrows: self.nrows,
                ncols: self.ncols,
                row_stride: self.row_stride,
                col_stride: (-self.col_stride) as isize,
            }
        }
    }

    /// The view with rows and columns exchanged.
    pub open spec fn transposed(self) -> MatRef<'a, T> {
        MatRef {
            data: self.data,
            offset: self.offset,
            nrows: self.ncols,
            ncols: self.nrows,
            row_stride: self.col_stride,
            col_stride: self.row_stride,
        }
    }

    /// Length of the main diagonal.
    pub open spec fn diag_len(self) -> int {
        if self.nrows <= self.ncols { self.nrows as int } else { self.ncols as int }
    }

    /// Step between consecutive diagonal elements: the sum of the strides,
    /// or 0 for a diagonal too short to need one whose sum leaves `isize`.
    pub open spec fn diag_stride(self) -> isize {
        if isize::MIN < self.row_stride + self.col_stride <= isize::MAX {
            (self.row_stride + self.col_stride) as isize
        } else {
            0
        }
    }

    /// The `n` x 1 view over the diagonal, `n = min(nrows, ncols)`.
    pub open spec fn diag_view(self) -> MatRef<'a, T> {
        MatRef {
            data: self.data,
            offset: self.offset,
            nrows: self.diag_len() as usize,
            ncols: 1,
            row_stride: self.diag_stride(),
            col_stride: self.diag_stride(),
        }
    }

    /// A window inside the view is well formed and addresses the elements it
    /// covers.
    pub proof fn lemma_window(self, r0: int, c0: int, h: int, w: int)
        requires
            self.wf(),
            0 <= r0,
            0 <= c0,
            0 <= h,
            0 <= w,
            r0 + h <= self.nrows,
            c0 + w <= self.ncols,
        ensures
            self.window(r0, c0, h, w).wf(),
            forall|i: int, j: int| #![trigger self.window(r0, c0, h, w).addr(i, j)]
                0 <= i < h && 0 <= j < w ==> self.window(r0, c0, h, w).addr(i, j) == self.addr(r0 + i, c0 + j),
            forall|i: int, j: int| #![trigger self.window(r0, c0, h, w).elem(i, j)]
                0 <= i < h && 0 <= j < w ==> self.window(r0, c0, h, w).elem(i, j) == self.elem(r0 + i, c0 + j),
    {
        let v = self.window(r0, c0, h, w);
        assert(shape_fits(h, w)) by {
            assert(h * w <= self.nrows * self.ncols) by (nonlinear_arith)
                requires
                    0 <= h <= self.nrows,
                    0 <= w <= self.ncols,
            ;
        }
        assert forall|i: int, j: int| 0 <= i < h && 0 <= j < w implies v.addr(i, j) == self.addr(r0 + i, c0 + j) by {
            assert(0 <= self.addr(r0, c0) < self.data@.len());
            lemma_shift(self.offset as int, self.row_stride as int, self.col_stride as int, r0, c0, i, j);
        }
        assert forall|i: int, j: int| v.in_shape(i, j) implies 0 <= #[trigger] v.addr(i, j) < v.data@.len() by {
            assert(self.in_shape(r0 + i, c0 + j));
        }
    }

    /// The row-reversed view is well formed and reads the rows backwards.
    pub proof fn lemma_rows_reversed(self)
        requires
            self.wf(),
        ensures
            self.rows_reversed().wf(),
            forall|i: int, j: int| #![trigger self.rows_reversed().elem(i, j)]
                self.in_shape(i, j) ==> self.rows_reversed().elem(i, j) == self.elem(self.nrows - 1 - i, j),
    {
        let v = self.rows_reversed();
        if self.nrows > 0 {
            assert forall|i: int, j: int| self.in_shape(i, j) implies v.addr(i, j) == self.addr(self.nrows - 1 - i, j) by {
                assert(0 <= self.addr(self.nrows - 1, 0) < self.data@.len());
                lemma_shift(self.offset as int, self.row_stride as int, self.col_stride as int, self.nrows - 1, 0, -i, j);
                assert((self.nrows - 1) * self.row_stride + (-i) * self.row_stride == (self.nrows - 1) * self.row_stride + i * (-self.row_stride)) by (nonlinear_arith);
            }
            assert forall|i: int, j: int| v.in_shape(i, j) implies 0 <= #[trigger] v.addr(i, j) < v.data@.len() by {
                assert(self.in_shape(self.nrows - 1 - i, j));
            }
        }
    }

    /// The column-reversed view is well formed and reads the columns
    /// backwards.
    pub proof fn lemma_cols_reversed(self)
        requires
            self.wf(),
        ensures
            self.cols_reversed().wf(),
            forall|i: int, j: int| #![trigger self.cols_reversed().elem(i, j)]
                self.in_shape(i, j) ==> self.cols_reversed().elem(i, j) == self.elem(i, self.ncols - 1 - j),
    {
        let v = self.cols_reversed();
        if self.ncols > 0 {
            assert forall|i: int, j: int| self.in_shape(i, j) implies v.addr(i, j) == self.addr(i, self.ncols - 1 - j) by {
                assert(0 <= self.addr(0, self.ncols - 1) < self.data@.len());
                lemma_shift(self.offset as int, self.row_stride as int, self.col_stride as int, 0, self.ncols - 1, i, -j);
                assert((self.ncols - 1) * self.col_stride + (-j) * self.col_stride == (self.ncols - 1) * self.col_stride + j * (-self.col_stride)) by (nonlinear_arith);
            }
            assert forall|i: int, j: int| v.in_shape(i, j) implies 0 <= #[trigger] v.addr(i, j) < v.data@.len() by {
                assert(self.in_shape(i, self.ncols - 1 - j));
            }
        }
    }

    /// The diagonal view is well formed and reads the diagonal elements.
    pub proof fn lemma_diag(self)
        requires
            self.wf(),
        ensures
            self.diag_view().wf(),
            forall|k: int| #![trigger self.diag_view().elem(k, 0)]
                0 <= k < self.diag_len() ==> self.diag_view().elem(k, 0) == self.elem(k, k),
    {
        let v = self.diag_view();
        let n = self.diag_len();
        if n >= 2 {
            assert(0 <= self.addr(1, 1) < self.data@.len());
            assert(0 <= self.addr(0, 0) < self.data@.len());
        }
        assert(n * 1 <= self.nrows * self.ncols) by (nonlinear_arith)
            requires
                0 <= n <= self.nrows,
                n <= self.ncols,
        ;
        assert forall|k: int| 0 <= k < n implies v.addr(k, 0) == self.addr(k, k) by {
            if n >= 2 {
                assert(k * (self.row_stride + self.col_stride) == k * self.row_stride + k * self.col_stride) by (nonlinear_arith);
            } else {
                assert(k == 0);
            }
        }
        assert forall|i: int, j: int| v.in_shape(i, j) implies 0 <= #[trigger] v.addr(i, j) < v.data@.len() by {
            assert(j == 0);
            assert(self.in_shape(i, i));
        }
    }

    pub fn shape(self) -> (r: (usize, usize))
        ensures
            r == (self.nrows, self.ncols),
    {
        (self.nrows, self.ncols)
    }

    /// Number of elements.
    pub fn size(self) -> (r: usize)
        requires
            self.wf(),
        ensures
            r == self.nrows * self.ncols,
    {
        self.nrows * self.ncols
    }

    pub fn row_stride(self) -> (r: isize)
        ensures
            r == self.row_stride,
    {
        self.row_stride
    }

    pub fn col_stride(self) -> (r: isize)
        ensures
            r == self.col_stride,
    {
        self.col_stride
    }

    pub fn is_empty(self) -> (r: bool)
        ensures
            r == (self.nrows == 0 || self.ncols == 0),
    {
        self.nrows == 0 || self.ncols == 0
    }

    pub fn is_square(self) -> (r: bool)
        ensures
            r == (self.nrows == self.ncols),
    {
        self.nrows == self.ncols
    }

    pub fn is_row_vector(self) -> (r: bool)
        ensures
            r == (self.nrows == 1),
    {
        self.nrows == 1
    }

    pub fn is_col_vector(self) -> (r: bool)
        ensures
            r == (self.ncols == 1),
    {
        self.ncols == 1
    }

    pub fn is_scalar(self) -> (r: bool)
        ensures
            r == (self.nrows == 1 && self.ncols == 1),
    {
        self.nrows == 1 && self.ncols == 1
    }

    /// The `nrows` x `ncols` window with top-left corner `(row_start, col_start)`.
    pub fn submatrix(self, row_start: usize, col_start: usize, nrows: usize, ncols: usize) -> (r: MatRef<'a, T>)
        requires
            self.wf(),
            row_start + nrows <= self.nrows,
            col_start + ncols <= self.ncols,
        ensures
            r == self.window(row_start as int, col_start as int, nrows as int, ncols as int),
            r.wf(),
            forall|i: int, j: int| r.in_shape(i, j) ==> #[trigger] r.elem(i, j) == self.elem(row_start + i, col_start + j),
    {
        proof {
            self.lemma_window(row_start as int, col_start as int, nrows as int, ncols as int);
        }
        let offset = if nrows > 0 && ncols > 0 {
            self.index_of(row_start, col_start)
        } else {
            self.offset
        };
        MatRef {
            data: self.data,
            offset,
            nrows,
            ncols,
            row_stride: self.row_stride,
            col_stride: self.col_stride,
        }
    }

    /// Row `i` as a 1 x ncols view.
    pub fn row(self, i: usize) -> (r: MatRef<'a, T>)
        requires
            self.wf(),
            i < self.nrows,
        ensures
            r == self.window(i as int, 0, 1, self.ncols as int),
            r.wf(),
            forall|j: int| 0 <= j < self.ncols ==> #[trigger] r.elem(0, j) == self.elem(i as int, j),
    {
        let r = self.submatrix(i, 0, 1, self.ncols);
        assert forall|j: int| 0 <= j < self.ncols implies #[trigger] r.elem(0, j) == self.elem(i as int, j) by {
            assert(r.in_shape(0, j));
        }
        r
    }

    /// Column `j` as an nrows x 1 view.
    pub fn col(self, j: usize) -> (r: MatRef<'a, T>)
        requires
            self.wf(),
            j < self.ncols,
        ensures
            r == self.window(0, j as int, self.nrows as int, 1),
            r.wf(),
            forall|i: int| 0 <= i < self.nrows ==> #[trigger] r.elem(i, 0) == self.elem(i, j as int),
    {
        let r = self.submatrix(0, j, self.nrows, 1);
        assert forall|i: int| 0 <= i < self.nrows implies #[trigger] r.elem(i, 0) == self.elem(i, j as int) by {
            assert(r.in_shape(i, 0));
        }
        r
    }

    /// The main diagonal as a min(nrows, ncols) x 1 view.
    pub fn diagonal(self) -> (r: MatRef<'a, T>)
        requires
            self.wf(),
        ensures
            r == self.diag_view(),
            r.wf(),
            forall|k: int| 0 <= k < self.diag_len() ==> #[trigger] r.elem(k, 0) == self.elem(k, k),
    {
        proof {
            self.lemma_diag();
        }
        let len = if self.nrows <= self.ncols { self.nrows } else { self.ncols };
        let stride = match self.row_stride.checked_add(self.col_stride) {
            Some(s) => if s != isize::MIN { s } else { 0 },
            None => 0,
        };
        MatRef {
            data: self.data,
            offset: self.offset,
            nrows: len,
            ncols: 1,
            row_stride: stride,
            col_stride: stride,
        }
    }

    /// Rows `start..end`.
    pub fn rows_range(self, range: core::ops::Range<usize>) -> (r: MatRef<'a, T>)
        requires
            self.wf(),
            range.start <= range.end,
            range.end <= self.nrows,
        ensures
            r == self.window(range.start as int, 0, range.end - range.start, self.ncols as int),
            r.wf(),
            forall|i: int, j: int| r.in_shape(i, j) ==> #[trigger] r.elem(i, j) == self.elem(range.start + i, j),
    {
        self.submatrix(range.start, 0, range.end - range.start, self.ncols)
    }

    /// Columns `start..end`.
    pub fn cols_range(self, range: core::ops::Range<usize>) -> (r: MatRef<'a, T>)
        requires
            self.wf(),
            range.start <= range.end,
            range.end <= self.ncols,
        ensures
            r == self.window(0, range.start as int, self.nrows as int, range.end - range.start),
            r.wf(),
            forall|i: int, j: int| r.in_shape(i, j) ==> #[trigger] r.elem(i, j) == self.elem(i, range.start + j),
    {
        self.submatrix(0, range.start, self.nrows, range.end - range.start)
    }

    /// Rows `0..i` and rows `i..nrows`.
    pub fn split_at_row(self, i: usize) -> (r: (MatRef<'a, T>, MatRef<'a, T>))
        requires
            self.wf(),
            i <= self.nrows,
        ensures
            r.0 == self.window(0, 0, i as int, self.ncols as int),
            r.1 == self.window(i as int, 0, self.nrows - i, self.ncols as int),
            r.0.wf(),
            r.1.wf(),
            forall|a: int, b: int| r.0.in_shape(a, b) ==> #[trigger] r.0.elem(a, b) == self.elem(a, b),
            forall|a: int, b: int| r.1.in_shape(a, b) ==> #[trigger] r.1.elem(a, b) == self.elem(i + a, b),
    {
        (self.submatrix(0, 0, i, self.ncols), self.submatrix(i, 0, self.nrows - i, self.ncols))
    }

    /// Columns `0..j` and columns `j..ncols`.
    pub fn split_at_col(self, j: usize) -> (r: (MatRef<'a, T>, MatRef<'a, T>))
        requires
            self.wf(),
            j <= self.ncols,
        ensures
            r.0 == self.window(0, 0, self.nrows as int, j as int),
            r.1 == self.window(0, j as int, self.nrows as int, self.ncols - j),
            r.0.wf(),
            r.1.wf(),
            forall|a: int, b: int| r.0.in_shape(a, b) ==> #[trigger] r.0.elem(a, b) == self.elem(a, b),
            forall|a: int, b: int| r.1.in_shape(a, b) ==> #[trigger] r.1.elem(a, b) == self.elem(a, j + b),
    {
        (self.submatrix(0, 0, self.nrows, j), self.submatrix(0, j, self.nrows, self.ncols - j))
    }

    /// The same elements with the row order reversed; an empty row axis is
    /// left as it is.
    pub fn reverse_rows(self) -> (r: MatRef<'a, T>)
        requires
            self.wf(),
        ensures
            r == self.rows_reversed(),
            r.wf(),
            forall|i: int, j: int| r.in_shape(i, j) ==> #[trigger] r.elem(i, j) == self.elem(self.nrows - 1 - i, j),
    {
        proof {
            self.lemma_rows_reversed();
        }
        if self.nrows == 0 {
            return self;
        }
        let offset = if self.ncols > 0 {
            self.index_of(self.nrows - 1, 0)
        } else {
            self.offset
        };
        MatRef {
            data: self.data,
            offset,
            nrows: self.nrows,
            ncols: self.ncols,
            row_stride: -self.row_stride,
            col_stride: self.col_stride,
        }
    }

    /// The same elements with the column order reversed; an empty column
    /// axis is left as it is.
    pub fn reverse_cols(self) -> (r: MatRef<'a, T>)
        requires
            self.wf(),
        ensures
            r == self.cols_reversed(),
            r.wf(),
            forall|i: int, j: int| r.in_shape(i, j) ==> #[trigger] r.elem(i, j) == self.elem(i, self.ncols - 1 - j),
    {
        proof {
            self.lemma_cols_reversed();
        }
        if self.ncols == 0 {
            return self;
        }
        let offset = if self.nrows > 0 {
            self.index_of(0, self.ncols - 1)
        } else {
            self.offset
        };
        MatRef {
            data: self.data,
            offset,
            nrows: self.nrows,
            ncols: self.ncols,
            row_stride: self.row_stride,
            col_stride: -self.col_stride,
        }
    }

    /// The view with rows and columns exchanged; no element moves.
    pub fn transpose(self) -> (r: MatRef<'a, T>)
        requires
            self.wf(),
        ensures
            r == self.transposed(),
            r.wf(),
            forall|i: int, j: int| r.in_shape(i, j) ==> #[trigger] r.elem(i, j) == self.elem(j, i),
    {
        let r = MatRef {
            data: self.data,
            offset: self.offset,
            nrows: self.ncols,
            ncols: self.nrows,
            row_stride: self.col_stride,
            col_stride: self.row_stride,
        };
        assert forall|i: int, j: int| r.in_shape(i, j) implies #[trigger] r.addr(i, j) == self.addr(j, i) by {
        }
        r
    }
}

impl<'a, T> MatRef<'a, T> {
    /// Element number `k` when the view is read column by column.
    pub open spec fn cm_elem(self, k: int) -> T {
        self.elem(k % (self.nrows as int), k / (self.nrows as int))
    }

    /// The column views, left to right.
    pub fn col_iter(self) -> (r: Vec<MatRef<'a, T>>)
        requires
            self.wf(),
        ensures
            r@.len() == self.ncols,
            forall|k: int| 0 <= k < self.ncols ==> #[trigger] r@[k] == self.window(0, k, self.nrows as int, 1),
    {
        let mut r: Vec<MatRef<'a, T>> = Vec::new();
        let mut j: usize = 0;
        while j < self.ncols
            invariant
                self.wf(),
                j <= self.ncols,
                r@.len() == j,
                forall|k: int| 0 <= k < j ==> #[trigger] r@[k] == self.window(0, k, self.nrows as int, 1),
            decreases self.ncols - j,
        {
            r.push(self.col(j));
            j += 1;
        }
        r
    }

    /// The row views, top to bottom.
    pub fn row_iter(self) -> (r: Vec<MatRef<'a, T>>)
        requires
            self.wf(),
        ensures
            r@.len() == self.nrows,
            forall|k: int| 0 <= k < self.nrows ==> #[trigger] r@[k] == self.window(k, 0, 1, self.ncols as int),
    {
        let mut r: Vec<MatRef<'a, T>> = Vec::new();
        let mut i: usize = 0;
        while i < self.nrows
            invariant
                self.wf(),
                i <= self.nrows,
                r@.len() == i,
                forall|k: int| 0 <= k < i ==> #[trigger] r@[k] == self.window(k, 0, 1, self.ncols as int),
            decreases self.nrows - i,
        {
            r.push(self.row(i));
            i += 1;
        }
        r
    }

    /// References to the diagonal elements, in order.
    pub fn diag_iter(self) -> (r: Vec<&'a T>)
        requires
            self.wf(),
        ensures
            r@.len() == self.diag_len(),
            forall|k: int| 0 <= k < self.diag_len() ==> *#[trigger] r@[k] == self.elem(k, k),
    {
        let len = if self.nrows <= self.ncols { self.nrows } else { self.ncols };
        let mut r: Vec<&'a T> = Vec::new();
        let mut k: usize = 0;
        while k < len
            invariant
                self.wf(),
                len == self.diag_len(),
                k <= len,
                r@.len() == k,
                forall|a: int| 0 <= a < k ==> *#[trigger] r@[a] == self.elem(a, a),
            decreases len - k,
        {
            r.push(self.at(k, k));
            k += 1;
        }
        r
    }

    /// Every position with its element, in row-major order.
    pub fn enumerate(self) -> (r: Vec<((usize, usize), &'a T)>)
        requires
            self.wf(),
        ensures
            r@.len() == self.nrows * self.ncols,
            forall|i: int, j: int|
                self.in_shape(i, j) ==> (#[trigger] r@[cm_index(j, i, self.ncols as int)]).0 == (i as usize, j as usize)
                    && *r@[cm_index(j, i, self.ncols as int)].1 == self.elem(i, j),
    {
        let mut r: Vec<((usize, usize), &'a T)> = Vec::new();
        let mut i: usize = 0;
        while i < self.nrows
            invariant
                self.wf(),
                i <= self.nrows,
                r@.len() == i * self.ncols,
                forall|a: int, b: int|
                    0 <= a < i && 0 <= b < self.ncols ==> (#[trigger] r@[cm_index(b, a, self.ncols as int)]).0 == (a as usize, b as usize)
                        && *r@[cm_index(b, a, self.ncols as int)].1 == self.elem(a, b),
            decreases self.nrows - i,
        {
            let mut j: usize = 0;
            while j < self.ncols
                invariant
                    self.wf(),
                    i < self.nrows,
                    j <= self.ncols,
                    r@.len() == i * self.ncols + j,
                    forall|a: int, b: int|
                        (0 <= a < i && 0 <= b < self.ncols) || (a == i && 0 <= b < j) ==> (#[trigger] r@[cm_index(b, a, self.ncols as int)]).0 == (a as usize, b as usize)
                            && *r@[cm_index(b, a, self.ncols as int)].1 == self.elem(a, b),
                decreases self.ncols - j,
            {
                let ghost before = r@;
                r.push(((i, j), self.at(i, j)));
                proof {
                    assert forall|a: int, b: int|
                        (0 <= a < i && 0 <= b < self.ncols) || (a == i && 0 <= b <= j) implies (#[trigger] r@[cm_index(b, a, self.ncols as int)]).0 == (a as usize, b as usize)
                            && *r@[cm_index(b, a, self.ncols as int)].1 == self.elem(a, b) by {
                        if a < i {
                            lemma_cm_index_bounds(b, a, self.ncols as int, i as int);
                            assert(r@[cm_index(b, a, self.ncols as int)] == before[cm_index(b, a, self.ncols as int)]);
                        } else if b < j {
                            assert(r@[cm_index(b, a, self.ncols as int)] == before[cm_index(b, a, self.ncols as int)]);
                        }
                    }
                }
                j += 1;
            }
            proof {
                assert((i + 1) * self.ncols == i * self.ncols + self.ncols) by (nonlinear_arith);
            }
            i += 1;
        }
        proof {
            assert(self.nrows * self.ncols == i * self.ncols);
        }
        r
    }

}

impl<'a, T: PartialEq> MatRef<'a, T> {
    /// Square, and each element equals its mirror across the diagonal.
    pub open spec fn symmetric(self) -> bool {
        &&& self.nrows == self.ncols
        &&& forall|i: int, j: int| 0 <= i < j < self.ncols ==> #[trigger] self.elem(i, j).eq_spec(&self.elem(j, i))
    }

    /// Whether the view is square and equal to its transpose; exact for
    /// element types whose `==` follows its specification.
    pub fn is_symmetric(self) -> (r: bool)
        requires
            self.wf(),
        ensures
            T::obeys_eq_spec() ==> r == self.symmetric(),
    {
        if self.nrows != self.ncols {
            return false;
        }
        let cell = |i: usize, j: usize| -> (b: bool)
            requires
                self.wf(),
                self.nrows == self.ncols,
                i < self.nrows,
                j < self.ncols,
            ensures
                T::obeys_eq_spec() ==> b == (i < j ==> self.elem(i as int, j as int).eq_spec(&self.elem(j as int, i as int))),
        {
            if i < j {
                self.at(i, j).eq(self.at(j, i))
            } else {
                true
            }
        };
        let r = all_cells(self.nrows, self.ncols, cell);
        proof {
            if T::obeys_eq_spec() {
                if r {
                    assert forall|i: int, j: int| 0 <= i < j < self.ncols implies #[trigger] self.elem(i, j).eq_spec(&self.elem(j, i)) by {
                        assert(cell.ensures((i as usize, j as usize), true));
                    }
                }
            }
        }
        r
    }
}

impl<'a, T: Scalar> MatRef<'a, T> {
    /// Every element off the main diagonal is zero.
    pub open spec fn diagonal_only(self) -> bool {
        forall|i: int, j: int| self.in_shape(i, j) && i != j ==> #[trigger] self.elem(i, j) == T::zero_spec()
    }

    /// Every element below the main diagonal is zero.
    pub open spec fn upper_triangular(self) -> bool {
        forall|i: int, j: int| self.in_shape(i, j) && i > j ==> #[trigger] self.elem(i, j) == T::zero_spec()
    }

    /// Every element above the main diagonal is zero.
    pub open spec fn lower_triangular(self) -> bool {
        forall|i: int, j: int| self.in_shape(i, j) && i < j ==> #[trigger] self.elem(i, j) == T::zero_spec()
    }

    /// Square, with ones on the diagonal and zeros elsewhere.
    pub open spec fn identity_like(self) -> bool {
        &&& self.nrows == self.ncols
        &&& forall|i: int, j: int| #[trigger] self.in_shape(i, j) ==> self.elem(i, j) == (if i == j {
            T::one_spec()
        } else {
            T::zero_spec()
        })
    }

    /// Whether every element off the main diagonal is zero.
    pub fn is_diagonal(self) -> (r: bool)
        requires
            self.wf(),
        ensures
            r == self.diagonal_only(),
    {
        let z = T::zero();
        let cell = |i: usize, j: usize| -> (b: bool)
            requires
                self.wf(),
                i < self.nrows,
                j < self.ncols,
            ensures
                b == (i != j ==> self.elem(i as int, j as int) == z),
        {
            proof {
                T::lemma_eq_is_equality();
            }
            if i != j {
                self.at(i, j).eq(&z)
            } else {
                true
            }
        };
        let r = all_cells(self.nrows, self.ncols, cell);
        proof {
            if r {
                assert forall|i: int, j: int| self.in_shape(i, j) && i != j implies #[trigger] self.elem(i, j) == T::zero_spec() by {
                    assert(cell.ensures((i as usize, j as usize), true));
                }
            }
        }
        r
    }

    /// Whether every element below the main diagonal is zero.
    pub fn is_upper_triangular(self) -> (r: bool)
        requires
            self.wf(),
        ensures
            r == self.upper_triangular(),
    {
        let z = T::zero();
        let cell = |i: usize, j: usize| -> (b: bool)
            requires
                self.wf(),
                i < self.nrows,
                j < self.ncols,
            ensures
                b == (i > j ==> self.elem(i as int, j as int) == z),
        {
            proof {
                T::lemma_eq_is_equality();
            }
            if i > j {
                self.at(i, j).eq(&z)
            } else {
                true
            }
        };
        let r = all_cells(self.nrows, self.ncols, cell);
        proof {
            if r {
                assert forall|i: int, j: int| self.in_shape(i, j) && i > j implies #[trigger] self.elem(i, j) == T::zero_spec() by {
                    assert(cell.ensures((i as usize, j as usize), true));
                }
            }
        }
        r
    }

    /// Whether every element above the main diagonal is zero.
    pub fn is_lower_triangular(self) -> (r: bool)
        requires
            self.wf(),
        ensures
            r == self.lower_triangular(),
    {
        let z = T::zero();
        let cell = |i: usize, j: usize| -> (b: bool)
            requires
                self.wf(),
                i < self.nrows,
                j < self.ncols,
            ensures
                b == (i < j ==> self.elem(i as int, j as int) == z),
        {
            proof {
                T::lemma_eq_is_equality();
            }
            if i < j {
                self.at(i, j).eq(&z)
            } else {
                true
            }
        };
        let r = all_cells(self.nrows, self.ncols, cell);
        proof {
            if r {
                assert forall|i: int, j: int| self.in_shape(i, j) && i < j implies #[trigger] self.elem(i, j) == T::zero_spec() by {
                    assert(cell.ensures((i as usize, j as usize), true));
                }
            }
        }
        r
    }

    /// Whether the matrix is square with ones on the diagonal and zeros
    /// elsewhere.
    pub fn is_identity(self) -> (r: bool)
        requires
            self.wf(),
        ensures
            r == self.identity_like(),
    {
        if self.nrows != self.ncols {
            return false;
        }
        let z = T::zero();
        let o = T::one();
        let cell = |i: usize, j: usize| -> (b: bool)
            requires
                self.wf(),
                i < self.nrows,
                j < self.ncols,
            ensures
                b == (self.elem(i as int, j as int) == (if i == j { o } else { z })),
        {
            proof {
                T::lemma_eq_is_equality();
            }
            if i == j {
                self.at(i, j).eq(&o)
            } else {
                self.at(i, j).eq(&z)
            }
        };
        let r = all_cells(self.nrows, self.ncols, cell);
        proof {
            if r {
                assert forall|i: int, j: int| #[trigger] self.in_shape(i, j) implies self.elem(i, j) == (if i == j {
                    T::one_spec()
                } else {
                    T::zero_spec()
                }) by {
                    assert(cell.ensures((i as usize, j as usize), true));
                }
            } else {
                let (i, j) = choose|i: usize, j: usize| i < self.nrows && j < self.ncols && #[trigger] cell.ensures((i, j), false);
                assert(self.in_shape(i as int, j as int));
            }
        }
        r
    }

    /// A copy keeping the elements with `j - i <= k` and zeroing the rest.
    pub fn tril(self, k: isize) -> (r: Mat<T>)
        requires
            self.wf(),
        ensures
            r.wf(),
            r@.nrows == self.nrows,
            r@.ncols == self.ncols,
            forall|i: int, j: int| #[trigger] r@.in_shape(i, j) ==> r@.elem(i, j) == (if j - i <= k {
                self.elem(i, j)
            } else {
                T::zero_spec()
            }),
    {
        let z = T::zero();
        let cell = |i: usize, j: usize| -> (x: T)
            requires
                self.wf(),
                i < self.nrows,
                j < self.ncols,
            ensures
                x == (if j - i <= k { self.elem(i as int, j as int) } else { z }),
        {
            if (j as isize) - (i as isize) <= k {
                *self.at(i, j)
            } else {
                z
            }
        };
        Mat::from_fn(self.nrows, self.ncols, cell)
    }

    /// A copy keeping the elements with `j - i >= k` and zeroing the rest.
    pub fn triu(self, k: isize) -> (r: Mat<T>)
        requires
            self.wf(),
        ensures
            r.wf(),
            r@.nrows == self.nrows,
            r@.ncols == self.ncols,
            forall|i: int, j: int| #[trigger] r@.in_shape(i, j) ==> r@.elem(i, j) == (if j - i >= k {
                self.elem(i, j)
            } else {
                T::zero_spec()
            }),
    {
        let z = T::zero();
        let cell = |i: usize, j: usize| -> (x: T)
            requires
                self.wf(),
                i < self.nrows,
                j < self.ncols,
            ensures
                x == (if j - i >= k { self.elem(i as int, j as int) } else { z }),
        {
            if (j as isize) - (i as isize) >= k {
                *self.at(i, j)
            } else {
                z
            }
        };
        Mat::from_fn(self.nrows, self.ncols, cell)
    }
}

impl<'a, T> MatRef<'a, T> {
    /// `(i, j)` is in the shape, its address and each partial sum of it fit
    /// in `i128`, and the address lies in the buffer.
    pub open spec fn readable(self, i: int, j: int) -> bool {
        &&& self.in_shape(i, j)
        &&& i128::MIN <= i * self.row_stride <= i128::MAX
        &&& i128::MIN <= j * self.col_stride <= i128::MAX
        &&& i128::MIN <= self.offset + i * self.row_stride <= i128::MAX
        &&& i128::MIN <= self.addr(i, j) <= i128::MAX
        &&& 0 <= self.addr(i, j) < self.data@.len()
    }

    /// Element `(i, j)` when it is readable; works on any view, well-formed
    /// or not, by checking every step of the address arithmetic.
    pub fn try_get(self, i: usize, j: usize) -> (r: Option<&'a T>)
        ensures
            r.is_some() == self.readable(i as int, j as int),
            r.is_some() ==> *r.unwrap() == self.elem(i as int, j as int),
    {
        if i >= self.nrows || j >= self.ncols {
            return None;
        }
        let a = match (i as i128).checked_mul(self.row_stride as i128) {
            Some(a) => a,
            None => return None,
        };
        let b = match (j as i128).checked_mul(self.col_stride as i128) {
            Some(b) => b,
            None => return None,
        };
        let c = match (self.offset as i128).checked_add(a) {
            Some(c) => c,
            None => return None,
        };
        let k = match c.checked_add(b) {
            Some(k) => k,
            None => return None,
        };
        if k < 0 || k >= self.data.len() as i128 {
            return None;
        }
        Some(&self.data[k as usize])
    }
}

impl<'a, T: PartialEq> PartialEq for MatRef<'a, T> {
    fn eq(&self, other: &Self) -> (r: bool) {
        if self.nrows != other.nrows || self.ncols != other.ncols {
            return false;
        }
        let a = *self;
        let b = *other;
        let cell = |i: usize, j: usize| -> (x: bool)
            ensures
                T::obeys_eq_spec() ==> x == (a.readable(i as int, j as int) && b.readable(i as int, j as int)
                    && a.elem(i as int, j as int).eq_spec(&b.elem(i as int, j as int))),
        {
            match (a.try_get(i, j), b.try_get(i, j)) {
                (Some(x), Some(y)) => x.eq(y),
                _ => false,
            }
        };
        let r = all_cells(a.nrows, a.ncols, cell);
        proof {
            if T::obeys_eq_spec() {
                if r {
                    assert forall|i: int, j: int| #[trigger] a.in_shape(i, j) implies a.readable(i, j) && b.readable(i, j)
                        && a.elem(i, j).eq_spec(&b.elem(i, j)) by {
                        assert(cell.ensures((i as usize, j as usize), true));
                    }
                } else {
                    let (i, j) = choose|i: usize, j: usize| i < a.nrows && j < a.ncols && #[trigger] cell.ensures((i, j), false);
                    assert(a.in_shape(i as int, j as int));
                }
            }
        }
        r
    }
}

impl<'a, T: PartialEq> vstd::std_specs::cmp::PartialEqSpecImpl for MatRef<'a, T> {
    open spec fn obeys_eq_spec() -> bool {
        T::obeys_eq_spec()
    }

    /// Same shape, and at every position both elements are readable and `==`.
    open spec fn eq_spec(&self, other: &MatRef<'a, T>) -> bool {
        &&& self.nrows == other.nrows
        &&& self.ncols == other.ncols
        &&& forall|i: int, j: int| #[trigger] self.in_shape(i, j) ==> self.readable(i, j) && other.readable(i, j)
            && self.elem(i, j).eq_spec(&other.elem(i, j))
    }
}

impl<'a, T> core::ops::Index<(usize, usize)> for MatRef<'a, T> {
    type Output = T;

    fn index(&self, idx: (usize, usize)) -> (r: &T)
        ensures
            *r == self.elem(idx.0 as int, idx.1 as int),
    {
        self.at(idx.0, idx.1)
    }
}

impl<'a, T> vstd::std_specs::core::IndexSpecImpl<(usize, usize)> for MatRef<'a, T> {
    open spec fn index_req(&self, idx: &(usize, usize)) -> bool {
        self.wf() && idx.0 < self.nrows && idx.1 < self.ncols
    }
}

impl<'a, T: Copy> MatRef<'a, T> {
    /// The matrix of `f` applied to every element.
    pub fn map<U, F: Fn(&T) -> U>(self, f: F) -> (r: Mat<U>)
        requires
            self.wf(),
            forall|i: int, j: int| self.in_shape(i, j) ==> #[trigger] f.requires((&self.elem(i, j),)),
        ensures
            r.wf(),
            r@.nrows == self.nrows,
            r@.ncols == self.ncols,
            forall|i: int, j: int| self.in_shape(i, j) ==> f.ensures((&self.elem(i, j),), #[trigger] r@.elem(i, j)),
    {
        let m = self.to_owned();
        m.map(f)
    }

    /// The matrix of `f` applied to the elements of `self` and `other` at
    /// each position; both have the same shape.
    pub fn zip_map<U, F: Fn(&T, &T) -> U>(self, other: MatRef<'_, T>, f: F) -> (r: Mat<U>)
        requires
            self.wf(),
            other.wf(),
            self.nrows == other.nrows,
            self.ncols == other.ncols,
            forall|i: int, j: int| self.in_shape(i, j) ==> #[trigger] f.requires((&self.elem(i, j), &other.elem(i, j))),
        ensures
            r.wf(),
            r@.nrows == self.nrows,
            r@.ncols == self.ncols,
            forall|i: int, j: int| self.in_shape(i, j) ==> f.ensures((&self.elem(i, j), &other.elem(i, j)), #[trigger] r@.elem(i, j)),
    {
        let a = self.to_owned();
        let b = other.to_owned();
        a.zip_cells(&b, f)
    }

    /// Copies the view into a fresh contiguous matrix.
    pub fn to_owned(self) -> (r: Mat<T>)
        requires
            self.wf(),
        ensures
            r.wf(),
            self.matches(r@),
    {
        let cell = |i: usize, j: usize| -> (x: T)
            requires
                self.wf(),
                i < self.nrows,
                j < self.ncols,
            ensures
                x == self.elem(i as int, j as int),
        {
            *self.at(i, j)
        };
        let r = Mat::from_fn(self.nrows, self.ncols, cell);
        r
    }

    /// The rows listed in `indices`, in that order; an index may repeat.
    pub fn take_rows(self, indices: &[usize]) -> (r: Mat<T>)
        requires
            self.wf(),
            shape_fits(indices@.len() as int, self.ncols as int),
            forall|k: int| 0 <= k < indices@.len() ==> #[trigger] indices@[k] < self.nrows,
        ensures
            r.wf(),
            r@.nrows == indices@.len(),
            r@.ncols == self.ncols,
            forall|i: int, j: int| r@.in_shape(i, j) ==> #[trigger] r@.elem(i, j) == self.elem(indices@[i] as int, j),
    {
        let cell = |i: usize, j: usize| -> (x: T)
            requires
                self.wf(),
                forall|k: int| 0 <= k < indices@.len() ==> #[trigger] indices@[k] < self.nrows,
                i < indices@.len(),
                j < self.ncols,
            ensures
                x == self.elem(indices@[i as int] as int, j as int),
        {
            *self.at(indices[i], j)
        };
        Mat::from_fn(indices.len(), self.ncols, cell)
    }

    /// The columns listed in `indices`, in that order; an index may repeat.
    pub fn take_cols(self, indices: &[usize]) -> (r: Mat<T>)
        requires
            self.wf(),
            shape_fits(self.nrows as int, indices@.len() as int),
            forall|k: int| 0 <= k < indices@.len() ==> #[trigger] indices@[k] < self.ncols,
        ensures
            r.wf(),
            r@.nrows == self.nrows,
            r@.ncols == indices@.len(),
            forall|i: int, j: int| r@.in_shape(i, j) ==> #[trigger] r@.elem(i, j) == self.elem(i, indices@[j] as int),
    {
        let cell = |i: usize, j: usize| -> (x: T)
            requires
                self.wf(),
                forall|k: int| 0 <= k < indices@.len() ==> #[trigger] indices@[k] < self.ncols,
                i < self.nrows,
                j < indices@.len(),
            ensures
                x == self.elem(i as int, indices@[j as int] as int),
        {
            *self.at(i, indices[j])
        };
        Mat::from_fn(self.nrows, indices.len(), cell)
    }

    /// A fresh `nrows` x `ncols` matrix holding the elements of the view in
    /// column-major order.
    pub fn reshape(self, nrows: usize, ncols: usize) -> (r: Mat<T>)
        requires
            self.wf(),
            shape_fits(nrows as int, ncols as int),
            nrows * ncols == self.nrows * self.ncols,
        ensures
            r.wf(),
            r@.nrows == nrows,
            r@.ncols == ncols,
            forall|i: int, j: int| r@.in_shape(i, j) ==> #[trigger] r@.elem(i, j) == self.cm_elem(cm_index(i, j, nrows as int)),
    {
        let cell = |i: usize, j: usize| -> (x: T)
            requires
                self.wf(),
                shape_fits(nrows as int, ncols as int),
                nrows * ncols == self.nrows * self.ncols,
                i < nrows,
                j < ncols,
            ensures
                x == self.cm_elem(cm_index(i as int, j as int, nrows as int)),
        {
            proof {
                lemma_cm_index_bounds(i as int, j as int, nrows as int, ncols as int);
                lemma_cm_split(i + j * nrows, self.nrows as int, self.ncols as int);
            }
            let k = i + j * nrows;
            *self.at(k % self.nrows, k / self.nrows)
        };
        Mat::from_fn(nrows, ncols, cell)
    }

    /// The elements as one column, in column-major order.
    pub fn flatten(self) -> (r: Mat<T>)
        requires
            self.wf(),
        ensures
            r.wf(),
            r@.nrows == self.nrows * self.ncols,
            r@.ncols == 1,
            forall|k: int| 0 <= k < self.nrows * self.ncols ==> #[trigger] r@.elem(k, 0) == self.cm_elem(k),
    {
        let size = self.nrows * self.ncols;
        let r = self.reshape(size, 1);
        assert forall|k: int| 0 <= k < self.nrows * self.ncols implies #[trigger] r@.elem(k, 0) == self.cm_elem(k) by {
            assert(r@.in_shape(k, 0));
        }
        r
    }

    /// The elements as one row, in column-major order.
    pub fn flatten_row(self) -> (r: Mat<T>)
        requires
            self.wf(),
        ensures
            r.wf(),
            r@.nrows == 1,
            r@.ncols == self.nrows * self.ncols,
            forall|k: int| 0 <= k < self.nrows * self.ncols ==> #[trigger] r@.elem(0, k) == self.cm_elem(k),
    {
        let size = self.nrows * self.ncols;
        let r = self.reshape(1, size);
        assert forall|k: int| 0 <= k < self.nrows * self.ncols implies #[trigger] r@.elem(0, k) == self.cm_elem(k) by {
            assert(r@.in_shape(0, k));
        }
        r
    }

    /// Same as `flatten`.
    pub fn to_col_vector(self) -> (r: Mat<T>)
        requires
            self.wf(),
        ensures
            r.wf(),
            r@.nrows == self.nrows * self.ncols,
            r@.ncols == 1,
            forall|k: int| 0 <= k < self.nrows * self.ncols ==> #[trigger] r@.elem(k, 0) == self.cm_elem(k),
    {
        self.flatten()
    }

    /// Same as `flatten_row`.
    pub fn to_row_vector(self) -> (r: Mat<T>)
        requires
            self.wf(),
        ensures
            r.wf(),
            r@.nrows == 1,
            r@.ncols == self.nrows * self.ncols,
            forall|k: int| 0 <= k < self.nrows * self.ncols ==> #[trigger] r@.elem(0, k) == self.cm_elem(k),
    {
        self.flatten_row()
    }

    /// A copy with `row` inserted so that it becomes row `i`.
    pub fn insert_row(self, i: usize, row: &[T]) -> (r: Mat<T>)
        requires
            self.wf(),
            i <= self.nrows,
            row@.len() == self.ncols,
            shape_fits(self.nrows + 1, self.ncols as int),
        ensures
            r.wf(),
            r@.nrows == self.nrows + 1,
            r@.ncols == self.ncols,
            forall|a: int, b: int| #[trigger] r@.in_shape(a, b) ==> r@.elem(a, b) == (if a < i {
                self.elem(a, b)
            } else if a == i {
                row@[b]
            } else {
                self.elem(a - 1, b)
            }),
    {
        let cell = |a: usize, b: usize| -> (x: T)
            requires
                self.wf(),
                i <= self.nrows,
                row@.len() == self.ncols,
                a < self.nrows + 1,
                b < self.ncols,
            ensures
                x == (if a < i {
                    self.elem(a as int, b as int)
                } else if a == i {
                    row@[b as int]
                } else {
                    self.elem(a - 1, b as int)
                }),
        {
            if a < i {
                *self.at(a, b)
            } else if a == i {
                row[b]
            } else {
                *self.at(a - 1, b)
            }
        };
        Mat::from_fn(self.nrows + 1, self.ncols, cell)
    }

    /// A copy with `col` inserted so that it becomes column `j`.
    pub fn insert_col(self, j: usize, col: &[T]) -> (r: Mat<T>)
        requires
            self.wf(),
            j <= self.ncols,
            col@.len() == self.nrows,
            shape_fits(self.nrows as int, self.ncols + 1),
        ensures
            r.wf(),
            r@.nrows == self.nrows,
            r@.ncols == self.ncols + 1,
            forall|a: int, b: int| #[trigger] r@.in_shape(a, b) ==> r@.elem(a, b) == (if b < j {
                self.elem(a, b)
            } else if b == j {
                col@[a]
            } else {
                self.elem(a, b - 1)
            }),
    {
        let cell = |a: usize, b: usize| -> (x: T)
            requires
                self.wf(),
                j <= self.ncols,
                col@.len() == self.nrows,
                a < self.nrows,
                b < self.ncols + 1,
            ensures
                x == (if b < j {
                    self.elem(a as int, b as int)
                } else if b == j {
                    col@[a as int]
                } else {
                    self.elem(a as int, b - 1)
                }),
        {
            if b < j {
                *self.at(a, b)
            } else if b == j {
                col[a]
            } else {
                *self.at(a, b - 1)
            }
        };
        Mat::from_fn(self.nrows, self.ncols + 1, cell)
    }

    /// A copy without row `i`.
    pub fn remove_row(self, i: usize) -> (r: Mat<T>)
        requires
            self.wf(),
            i < self.nrows,
        ensures
            r.wf(),
            r@.nrows == self.nrows - 1,
            r@.ncols == self.ncols,
            forall|a: int, b: int| #[trigger] r@.in_shape(a, b) ==> r@.elem(a, b) == (if a < i {
                self.elem(a, b)
            } else {
                self.elem(a + 1, b)
            }),
    {
        let cell = |a: usize, b: usize| -> (x: T)
            requires
                self.wf(),
                i < self.nrows,
                a < self.nrows - 1,
                b < self.ncols,
            ensures
                x == (if a < i {
                    self.elem(a as int, b as int)
                } else {
                    self.elem(a + 1, b as int)
                }),
        {
            if a < i {
                *self.at(a, b)
            } else {
                *self.at(a + 1, b)
            }
        };
        proof {
            assert((self.nrows - 1) * self.ncols <= self.nrows * self.ncols) by (nonlinear_arith)
                requires
                    self.nrows >= 1,
            ;
        }
        Mat::from_fn(self.nrows - 1, self.ncols, cell)
    }

    /// A copy without column `j`.
    pub fn remove_col(self, j: usize) -> (r: Mat<T>)
        requires
            self.wf(),
            j < self.ncols,
        ensures
            r.wf(),
            r@.nrows == self.nrows,
            r@.ncols == self.ncols - 1,
            forall|a: int, b: int| #[trigger] r@.in_shape(a, b) ==> r@.elem(a, b) == (if b < j {
                self.elem(a, b)
            } else {
                self.elem(a, b + 1)
            }),
    {
        let cell = |a: usize, b: usize| -> (x: T)
            requires
                self.wf(),
                j < self.ncols,
                a < self.nrows,
                b < self.ncols - 1,
            ensures
                x == (if b < j {
                    self.elem(a as int, b as int)
                } else {
                    self.elem(a as int, b + 1)
                }),
        {
            if b < j {
                *self.at(a, b)
            } else {
                *self.at(a, b + 1)
            }
        };
        proof {
            assert(self.nrows * (self.ncols - 1) <= self.nrows * self.ncols) by (nonlinear_arith)
                requires
                    self.ncols >= 1,
            ;
        }
        Mat::from_fn(self.nrows, self.ncols - 1, cell)
    }

    /// A copy with `row` added below the last row.
    pub fn append_row(self, row: &[T]) -> (r: Mat<T>)
        requires
            self.wf(),
            row@.len() == self.ncols,
            shape_fits(self.nrows + 1, self.ncols as int),
        ensures
            r.wf(),
            r@.nrows == self.nrows + 1,
            r@.ncols == self.ncols,
            forall|a: int, b: int| #[trigger] r@.in_shape(a, b) ==> r@.elem(a, b) == (if a < self.nrows {
                self.elem(a, b)
            } else {
                row@[b]
            }),
    {
        self.insert_row(self.nrows, row)
    }

    /// A copy with `col` added after the last column.
    pub fn append_col(self, col: &[T]) -> (r: Mat<T>)
        requires
            self.wf(),
            col@.len() == self.nrows,
            shape_fits(self.nrows as int, self.ncols + 1),
        ensures
            r.wf(),
            r@.nrows == self.nrows,
            r@.ncols == self.ncols + 1,
            forall|a: int, b: int| #[trigger] r@.in_shape(a, b) ==> r@.elem(a, b) == (if b < self.ncols {
                self.elem(a, b)
            } else {
                col@[a]
            }),
    {
        self.insert_col(self.ncols, col)
    }
}

impl<'a, T: Copy + core::ops::Mul<Output = T>> MatRef<'a, T> {
    /// The element-wise product with `other`, which has the same shape; no
    /// product may overflow.
    pub fn element_mul(self, other: MatRef<'_, T>) -> (r: Mat<T>)
        requires
            self.wf(),
            other.wf(),
            self.nrows == other.nrows,
            self.ncols == other.ncols,
            forall|i: int, j: int| #[trigger] self.in_shape(i, j) ==> self.elem(i, j).mul_req(other.elem(i, j)),
        ensures
            r.wf(),
            r@.nrows == self.nrows,
            r@.ncols == self.ncols,
            T::obeys_mul_spec() ==> forall|i: int, j: int| #[trigger] r@.in_shape(i, j) ==> r@.elem(i, j) == self.elem(i, j).mul_spec(other.elem(i, j)),
    {
        let f = |a: &T, b: &T| -> (x: T)
            requires
                a.mul_req(*b),
            ensures
                T::obeys_mul_spec() ==> x == a.mul_spec(*b),
        { *a * *b };
        let r = self.zip_map(other, f);
        assert forall|i: int, j: int| #[trigger] r@.in_shape(i, j) implies f.ensures((&self.elem(i, j), &other.elem(i, j)), r@.elem(i, j)) by {
            assert(self.in_shape(i, j));
        }
        r
    }
}

impl<'a, T: Copy + core::ops::Div<Output = T>> MatRef<'a, T> {
    /// The element-wise quotient by `other`, which has the same shape; every
    /// quotient must be defined.
    pub fn element_div(self, other: MatRef<'_, T>) -> (r: Mat<T>)
        requires
            self.wf(),
            other.wf(),
            self.nrows == other.nrows,
            self.ncols == other.ncols,
            forall|i: int, j: int| #[trigger] self.in_shape(i, j) ==> self.elem(i, j).div_req(other.elem(i, j)),
        ensures
            r.wf(),
            r@.nrows == self.nrows,
            r@.ncols == self.ncols,
            T::obeys_div_spec() ==> forall|i: int, j: int| #[trigger] r@.in_shape(i, j) ==> r@.elem(i, j) == self.elem(i, j).div_spec(other.elem(i, j)),
    {
        let f = |a: &T, b: &T| -> (x: T)
            requires
                a.div_req(*b),
            ensures
                T::obeys_div_spec() ==> x == a.div_spec(*b),
        { *a / *b };
        let r = self.zip_map(other, f);
        assert forall|i: int, j: int| #[trigger] r@.in_shape(i, j) implies f.ensures((&self.elem(i, j), &other.elem(i, j)), r@.elem(i, j)) by {
            assert(self.in_shape(i, j));
        }
        r
    }
}

impl<'a, T: Copy + PartialOrd> MatRef<'a, T> {
    /// Every element limited to `min..=max`.
    pub fn clamp(self, min: T, max: T) -> (r: Mat<T>)
        requires
            self.wf(),
        ensures
            r.wf(),
            r@.nrows == self.nrows,
            r@.ncols == self.ncols,
            T::obeys_partial_cmp_spec() ==> forall|i: int, j: int| #[trigger] r@.in_shape(i, j) ==> r@.elem(i, j) == clamped(self.elem(i, j), min, max),
    {
        let f = |x: &T| -> (y: T)
            ensures
                T::obeys_partial_cmp_spec() ==> y == clamped(*x, min, max),
        {
            if *x < min {
                min
            } else if *x > max {
                max
            } else {
                *x
            }
        };
        let r = self.map(f);
        assert forall|i: int, j: int| #[trigger] r@.in_shape(i, j) implies f.ensures((&self.elem(i, j),), r@.elem(i, j)) by {
            assert(self.in_shape(i, j));
        }
        r
    }
}

} // verus!
