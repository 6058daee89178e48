//! Exclusive views: a strided window through which elements can be written.
use vstd::prelude::*;
use vstd::std_specs::cmp::PartialEqSpec;

use crate::mat::{cm_index, lemma_cm_index_bounds, shape_fits, Grid, Mat};
use crate::mat_ref::{lemma_shift, MatRef};
use crate::scalar::Scalar;

verus! {

/// Position `offset + i * rs + j * cs` of a strided layout.
pub open spec fn strided(offset: int, rs: int, cs: int, i: int, j: int) -> int {
    offset + i * rs + j * cs
}

/// A writable strided view. Element `(i, j)` lives at
/// `offset + i * row_stride + j * col_stride` in `data`.
#[derive(Debug)]
pub struct MatMut<'a, T> {
    pub data: &'a mut [T],
    pub offset: usize,
    pub nrows: usize,
    pub ncols: usize,
    pub row_stride: isize,
    pub col_stride: isize,
}

impl<'a, T> MatMut<'a, T> {
    /// Buffer position of element `(i, j)`.
    pub open spec fn addr(&self, i: int, j: int) -> int {
        strided(self.offset as int, self.row_stride as int, self.col_stride as int, i, j)
    }

    pub open spec fn in_shape(&self, i: int, j: int) -> bool {
        0 <= i < self.nrows && 0 <= j < self.ncols
    }

    /// Every element of the shape addresses the buffer, and all counts and
    /// strides stay clear of the limits of `isize`.
    pub open spec fn wf(&self) -> bool {
        &&& self.data@.len() <= isize::MAX
        &&& shape_fits(self.nrows as int, self.ncols as int)
        &&& self.row_stride != isize::MIN
        &&& self.col_stride != isize::MIN
        &&& forall|i: int, j: int| self.in_shape(i, j) ==> 0 <= #[trigger] self.addr(i, j) < self.data@.len()
    }

    /// Distinct positions address distinct buffer slots.
    pub open spec fn injective(&self) -> bool {
        forall|i: int, j: int, a: int, b: int|
            self.in_shape(i, j) && self.in_shape(a, b) && #[trigger] self.addr(i, j) == #[trigger] self.addr(a, b) ==> i == a && j == b
    }

    /// Element `(i, j)` of the view.
    pub open spec fn elem(&self, i: int, j: int) -> T {
        self.data@[self.addr(i, j)]
    }

    /// Same buffer contents, offset, shape and strides as `v`.
    pub open spec fn same_as(&self, v: MatRef<'_, T>) -> bool {
        &&& v.data@ == self.data@
        &&& v.offset == self.offset
        &&& v.nrows == self.nrows
        &&& v.ncols == self.ncols
        &&& v.row_stride == self.row_stride
        &&& v.col_stride == self.col_stride
    }

    /// A read-only view of the same region.
    pub fn rb(&self) -> (r: MatRef<'_, T>)
        ensures
            self.same_as(r),
            self.wf() ==> r.wf(),
    {
        let r = MatRef {
            data: &*self.data,
            offset: self.offset,
            nrows: self.nrows,
            ncols: self.ncols,
            row_stride: self.row_stride,
            col_stride: self.col_stride,
        };
        proof {
            if self.wf() {
                assert forall|i: int, j: int| r.in_shape(i, j) implies 0 <= #[trigger] r.addr(i, j) < r.data@.len() by {
                    assert(self.in_shape(i, j));
                    assert(r.addr(i, j) == self.addr(i, j));
                }
            }
        }
        r
    }

    /// A fresh writable view of the same region, for a shorter borrow.
    pub fn rb_mut(&mut self) -> (r: MatMut<'_, T>)
        ensures
            r.data@ == old(self).data@,
            r.offset == old(self).offset,
            r.nrows == old(self).nrows,
            r.ncols == old(self).ncols,
            r.row_stride == old(self).row_stride,
            r.col_stride == old(self).col_stride,
            final(self).data@ == (*final(r.data))@,
            final(self).offset == old(self).offset,
            final(self).nrows == old(self).nrows,
            final(self).ncols == old(self).ncols,
            final(self).row_stride == old(self).row_stride,
            final(self).col_stride == old(self).col_stride,
    {
        MatMut {
            data: &mut *self.data,
            offset: self.offset,
            nrows: self.nrows,
            ncols: self.ncols,
            row_stride: self.row_stride,
            col_stride: self.col_stride,
        }
    }

    pub fn nrows(&self) -> (r: usize)
        ensures
            r == self.nrows,
    {
        self.nrows
    }

    pub fn ncols(&self) -> (r: usize)
        ensures
            r == self.ncols,
    {
        self.ncols
    }

    pub fn shape(&self) -> (r: (usize, usize))
        ensures
            r == (self.nrows, self.ncols),
    {
        (self.nrows, self.ncols)
    }

    /// Number of elements.
    pub fn size(&self) -> (r: usize)
        requires
            self.wf(),
        ensures
            r == self.nrows * self.ncols,
    {
        self.nrows * self.ncols
    }

    pub fn row_stride(&self) -> (r: isize)
        ensures
            r == self.row_stride,
    {
        self.row_stride
    }

    pub fn col_stride(&self) -> (r: isize)
        ensures
            r == self.col_stride,
    {
        self.col_stride
    }

    pub fn is_empty(&self) -> (r: bool)
        ensures
            r == (self.nrows == 0 || self.ncols == 0),
    {
        self.nrows == 0 || self.ncols == 0
    }

    pub fn is_square(&self) -> (r: bool)
        ensures
            r == (self.nrows == self.ncols),
    {
        self.nrows == self.ncols
    }

    pub fn is_row_vector(&self) -> (r: bool)
        ensures
            r == (self.nrows == 1),
    {
        self.nrows == 1
    }

    pub fn is_col_vector(&self) -> (r: bool)
        ensures
            r == (self.ncols == 1),
    {
        self.ncols == 1
    }

    pub fn is_scalar(&self) -> (r: bool)
        ensures
            r == (self.nrows == 1 && self.ncols == 1),
    {
        self.nrows == 1 && self.ncols == 1
    }

    fn index_of(&self, i: usize, j: usize) -> (k: usize)
        requires
            self.wf(),
            i < self.nrows,
            j < self.ncols,
        ensures
            k == self.addr(i as int, j as int),
    {
        assert(0 <= self.addr(0, 0) < self.data@.len());
        assert(0 <= self.addr(i as int, 0) < self.data@.len());
        assert(0 <= self.addr(0, j as int) < self.data@.len());
        assert(0 <= self.addr(i as int, j as int) < self.data@.len());
        let base = self.offset as isize;
        let a = base + (i as isize) * self.row_stride;
        let b = a + (j as isize) * self.col_stride;
        b as usize
    }

    /// Element `(i, j)`, or `None` when the indices are out of range.
    pub fn get(&self, i: usize, j: usize) -> (r: Option<&T>)
        requires
            self.wf(),
        ensures
            r.is_some() == (i < self.nrows && j < self.ncols),
            r.is_some() ==> *r.unwrap() == self.elem(i as int, j as int),
    {
        if i < self.nrows && j < self.ncols {
            let k = self.index_of(i, j);
            Some(&self.data[k])
        } else {
            None
        }
    }

    /// A writable reference to element `(i, j)`, or `None` when the indices
    /// are out of range.
    pub fn get_mut(&mut self, i: usize, j: usize) -> (r: Option<&mut T>)
        requires
            old(self).wf(),
        ensures
            r.is_some() == (i < old(self).nrows && j < old(self).ncols),
            r.is_some() ==> *r->Some_0 == old(self).elem(i as int, j as int)
                && final(self).data@ == old(self).data@.update(old(self).addr(i as int, j as int), *final(r->Some_0)),
            r.is_none() ==> final(self).data@ == old(self).data@,
            final(self).offset == old(self).offset,
            final(self).nrows == old(self).nrows,
            final(self).ncols == old(self).ncols,
            final(self).row_stride == old(self).row_stride,
            final(self).col_stride == old(self).col_stride,
    {
        if i < self.nrows && j < self.ncols {
            let k = self.index_of(i, j);
            Some(&mut self.data[k])
        } else {
            None
        }
    }

    /// Writes `value` at `(i, j)`.
    pub fn set(&mut self, i: usize, j: usize, value: T)
        requires
            old(self).wf(),
            i < old(self).nrows,
            j < old(self).ncols,
        ensures
            final(self).data@ == old(self).data@.update(old(self).addr(i as int, j as int), value),
            final(self).offset == old(self).offset,
            final(self).nrows == old(self).nrows,
            final(self).ncols == old(self).ncols,
            final(self).row_stride == old(self).row_stride,
            final(self).col_stride == old(self).col_stride,
            final(self).wf(),
            final(self).elem(i as int, j as int) == value,
            old(self).injective() ==> final(self).injective(),
            old(self).injective() ==> forall|a: int, b: int| #[trigger] final(self).in_shape(a, b) && !(a == i && b == j) ==> final(self).elem(a, b) == old(self).elem(a, b),
    {
        let k = self.index_of(i, j);
        self.data[k] = value;
        proof {
            assert forall|a: int, b: int| self.in_shape(a, b) implies 0 <= #[trigger] self.addr(a, b) < self.data@.len() by {
                assert(old(self).in_shape(a, b));
                assert(0 <= old(self).addr(a, b) < old(self).data@.len());
            }
            if old(self).injective() {
                assert forall|a: int, b: int, c: int, d: int|
                    self.in_shape(a, b) && self.in_shape(c, d) && #[trigger] self.addr(a, b) == #[trigger] self.addr(c, d) implies a == c && b == d by {
                    assert(old(self).addr(a, b) == old(self).addr(c, d));
                }
                assert forall|a: int, b: int| #[trigger] self.in_shape(a, b) && !(a == i && b == j) implies self.elem(a, b) == old(self).elem(a, b) by {
                    assert(old(self).addr(a, b) != old(self).addr(i as int, j as int));
                }
            }
        }
    }

    /// Sets every element to `value`.
    pub fn fill(&mut self, value: T)
        where T: Copy,
        requires
            old(self).wf(),
        ensures
            final(self).wf(),
            final(self).offset == old(self).offset,
            final(self).nrows == old(self).nrows,
            final(self).ncols == old(self).ncols,
            final(self).row_stride == old(self).row_stride,
            final(self).col_stride == old(self).col_stride,
            forall|i: int, j: int| #[trigger] final(self).in_shape(i, j) ==> final(self).elem(i, j) == value,
    {
        let ghost start = *self;
        let mut j: usize = 0;
        while j < self.ncols
            invariant
                self.wf(),
                self.offset == start.offset,
                self.nrows == start.nrows,
                self.ncols == start.ncols,
                self.row_stride == start.row_stride,
                self.col_stride == start.col_stride,
                j <= self.ncols,
                forall|a: int, b: int| 0 <= a < self.nrows && 0 <= b < j ==> #[trigger] self.elem(a, b) == value,
            decreases self.ncols - j,
        {
            let mut i: usize = 0;
            while i < self.nrows
                invariant
                    self.wf(),
                    self.offset == start.offset,
                    self.nrows == start.nrows,
                    self.ncols == start.ncols,
                    self.row_stride == start.row_stride,
                    self.col_stride == start.col_stride,
                    i <= self.nrows,
                    j < self.ncols,
                    forall|a: int, b: int| (0 <= a < self.nrows && 0 <= b < j) || (0 <= a < i && b == j) ==> #[trigger] self.elem(a, b) == value,
                decreases self.nrows - i,
            {
                let ghost before = self.data@;
                proof {
                    assert forall|a: int, b: int| (0 <= a < self.nrows && 0 <= b < j) || (0 <= a < i && b == j) implies before[#[trigger] start.addr(a, b)] == value by {
                        assert(self.elem(a, b) == value);
                    }
                }
                self.set(i, j, value);
                proof {
                    assert forall|a: int, b: int| (0 <= a < self.nrows && 0 <= b < j) || (0 <= a <= i && b == j) implies #[trigger] self.elem(a, b) == value by {
                        assert(self.addr(a, b) == start.addr(a, b));
                        if start.addr(a, b) != start.addr(i as int, j as int) {
                            assert(self.data@[start.addr(a, b)] == before[start.addr(a, b)]);
                        } else {
                            assert(self.elem(i as int, j as int) == value);
                        }
                    }
                }
                i += 1;
            }
            j += 1;
        }
    }
}

impl<'a, T> core::ops::Index<(usize, usize)> for MatMut<'a, T> {
    type Output = T;

    fn index(&self, idx: (usize, usize)) -> (r: &T)
        ensures
            *r == self.elem(idx.0 as int, idx.1 as int),
    {
        let k = self.index_of(idx.0, idx.1);
        &self.data[k]
    }
}

impl<'a, T> vstd::std_specs::core::IndexSpecImpl<(usize, usize)> for MatMut<'a, T> {
    open spec fn index_req(&self, idx: &(usize, usize)) -> bool {
        self.wf() && idx.0 < self.nrows && idx.1 < self.ncols
    }
}

impl<'a, T> MatMut<'a, T> {
    /// The same borrow with another layout.
    fn relayout(self, offset: usize, nrows: usize, ncols: usize, row_stride: isize, col_stride: isize) -> (r: MatMut<'a, T>)
        ensures
            r.data@ == old(self.data)@,
            (*final(r.data))@ == (*final(self.data))@,
            r.offset == offset,
            r.nrows == nrows,
            r.ncols == ncols,
            r.row_stride == row_stride,
            r.col_stride == col_stride,
    {
        MatMut { data: self.data, offset, nrows, ncols, row_stride, col_stride }
    }

    /// The writable `nrows` x `ncols` window with top-left corner
    /// `(row_start, col_start)`.
    pub fn submatrix_mut(self, row_start: usize, col_start: usize, nrows: usize, ncols: usize) -> (r: MatMut<'a, T>)
        requires
            self.wf(),
            row_start + nrows <= self.nrows,
            col_start + ncols <= self.ncols,
        ensures
            r.wf(),
            r.data@ == old(self.data)@,
            (*final(r.data))@ == (*final(self.data))@,
            r.nrows == nrows,
            r.ncols == ncols,
            r.row_stride == self.row_stride,
            r.col_stride == self.col_stride,
            forall|i: int, j: int| #[trigger] r.in_shape(i, j) ==> r.addr(i, j) == self.addr(row_start + i, col_start + j),
    {
        let offset = if nrows > 0 && ncols > 0 {
            self.index_of(row_start, col_start)
        } else {
            self.offset
        };
        let ghost o = self.offset as int;
        let ghost rs = self.row_stride as int;
        let ghost cs = self.col_stride as int;
        let ghost len = self.data@.len();
        proof {
            assert(nrows * ncols <= self.nrows * self.ncols) by (nonlinear_arith)
                requires
                    nrows <= self.nrows,
                    ncols <= self.ncols,
            ;
            assert forall|i: int, j: int| 0 <= i < nrows && 0 <= j < ncols implies
                #[trigger] strided(offset as int, rs, cs, i, j) == strided(o, rs, cs, row_start + i, col_start + j)
                && 0 <= strided(offset as int, rs, cs, i, j) < len by {
                lemma_shift(o, rs, cs, row_start as int, col_start as int, i, j);
                assert(self.in_shape(row_start + i, col_start + j));
                assert(0 <= self.addr(row_start + i, col_start + j) < self.data@.len());
            }
        }
        let rs0 = self.row_stride;
        let cs0 = self.col_stride;
        let r = self.relayout(offset, nrows, ncols, rs0, cs0);
        proof {
            assert forall|i: int, j: int| r.in_shape(i, j) implies 0 <= #[trigger] r.addr(i, j) < r.data@.len() by {
                assert(r.addr(i, j) == strided(offset as int, rs, cs, i, j));
            }
        }
        r
    }

    /// Row `i` as a writable 1 x ncols view.
    pub fn row_mut(self, i: usize) -> (r: MatMut<'a, T>)
        requires
            self.wf(),
            i < self.nrows,
        ensures
            r.wf(),
            r.data@ == old(self.data)@,
            (*final(r.data))@ == (*final(self.data))@,
            r.nrows == 1,
            r.ncols == self.ncols,
            forall|j: int| 0 <= j < self.ncols ==> #[trigger] r.addr(0, j) == self.addr(i as int, j),
    {
        let n = self.ncols;
        let r = self.submatrix_mut(i, 0, 1, n);
        assert forall|j: int| 0 <= j < n implies #[trigger] r.addr(0, j) == self.addr(i as int, j) by {
            assert(r.in_shape(0, j));
        }
        r
    }

    /// Column `j` as a writable nrows x 1 view.
    pub fn col_mut(self, j: usize) -> (r: MatMut<'a, T>)
        requires
            self.wf(),
            j < self.ncols,
        ensures
            r.wf(),
            r.data@ == old(self.data)@,
            (*final(r.data))@ == (*final(self.data))@,
            r.nrows == self.nrows,
            r.ncols == 1,
            forall|i: int| 0 <= i < self.nrows ==> #[trigger] r.addr(i, 0) == self.addr(i, j as int),
    {
        let n = self.nrows;
        let r = self.submatrix_mut(0, j, n, 1);
        assert forall|i: int| 0 <= i < n implies #[trigger] r.addr(i, 0) == self.addr(i, j as int) by {
            assert(r.in_shape(i, 0));
        }
        r
    }

    /// Rows `start..end` as a writable view.
    pub fn rows_range_mut(self, range: core::ops::Range<usize>) -> (r: MatMut<'a, T>)
        requires
            self.wf(),
            range.start <= range.end,
            range.end <= self.nrows,
        ensures
            r.wf(),
            r.data@ == old(self.data)@,
            (*final(r.data))@ == (*final(self.data))@,
            r.nrows == range.end - range.start,
            r.ncols == self.ncols,
            forall|i: int, j: int| #[trigger] r.in_shape(i, j) ==> r.addr(i, j) == self.addr(range.start + i, j),
    {
        let n = self.ncols;
        self.submatrix_mut(range.start, 0, range.end - range.start, n)
    }

    /// Columns `start..end` as a writable view.
    pub fn cols_range_mut(self, range: core::ops::Range<usize>) -> (r: MatMut<'a, T>)
        requires
            self.wf(),
            range.start <= range.end,
            range.end <= self.ncols,
        ensures
            r.wf(),
            r.data@ == old(self.data)@,
            (*final(r.data))@ == (*final(self.data))@,
            r.nrows == self.nrows,
            r.ncols == range.end - range.start,
            forall|i: int, j: int| #[trigger] r.in_shape(i, j) ==> r.addr(i, j) == self.addr(i, range.start + j),
    {
        let n = self.nrows;
        self.submatrix_mut(0, range.start, n, range.end - range.start)
    }

    /// The writable transposed view.
    pub fn transpose_mut(self) -> (r: MatMut<'a, T>)
        requires
            self.wf(),
        ensures
            r.wf(),
            r.data@ == old(self.data)@,
            (*final(r.data))@ == (*final(self.data))@,
            r.nrows == self.ncols,
            r.ncols == self.nrows,
            r.offset == self.offset,
            r.row_stride == self.col_stride,
            r.col_stride == self.row_stride,
            forall|i: int, j: int| #[trigger] r.in_shape(i, j) ==> r.addr(i, j) == self.addr(j, i),
    {
        let ghost o = self.offset as int;
        let ghost rs = self.row_stride as int;
        let ghost cs = self.col_stride as int;
        let ghost len = self.data@.len();
        proof {
            assert forall|i: int, j: int| 0 <= i < self.ncols && 0 <= j < self.nrows implies
                0 <= #[trigger] strided(o, cs, rs, i, j) < len by {
                assert(self.in_shape(j, i));
                assert(strided(o, cs, rs, i, j) == self.addr(j, i));
            }
            assert(self.ncols * self.nrows == self.nrows * self.ncols) by (nonlinear_arith);
        }
        let (offset, nrows, ncols, rs0, cs0) = (self.offset, self.ncols, self.nrows, self.col_stride, self.row_stride);
        let r = self.relayout(offset, nrows, ncols, rs0, cs0);
        proof {
            assert forall|i: int, j: int| r.in_shape(i, j) implies 0 <= #[trigger] r.addr(i, j) < r.data@.len() by {
                assert(r.addr(i, j) == strided(o, cs, rs, i, j));
            }
        }
        r
    }

    /// The writable view with the row order reversed.
    pub fn reverse_rows_mut(self) -> (r: MatMut<'a, T>)
        requires
            self.wf(),
        ensures
            r.wf(),
            r.data@ == old(self.data)@,
            (*final(r.data))@ == (*final(self.data))@,
            r.nrows == self.nrows,
            r.ncols == self.ncols,
            forall|i: int, j: int| #[trigger] r.in_shape(i, j) ==> r.addr(i, j) == self.addr(self.nrows - 1 - i, j),
    {
        if self.nrows == 0 {
            return self;
        }
        let offset = if self.ncols > 0 {
            self.index_of(self.nrows - 1, 0)
        } else {
            self.offset
        };
        let ghost o = self.offset as int;
        let ghost rs = self.row_stride as int;
        let ghost cs = self.col_stride as int;
        let ghost len = self.data@.len();
        let ghost n = self.nrows as int;
        proof {
            assert forall|i: int, j: int| 0 <= i < self.nrows && 0 <= j < self.ncols implies
                #[trigger] strided(offset as int, -rs, cs, i, j) == strided(o, rs, cs, n - 1 - i, j)
                && 0 <= strided(offset as int, -rs, cs, i, j) < len by {
                lemma_shift(o, rs, cs, n - 1, 0, -i, j);
                assert((-i) * rs == i * (-rs)) by (nonlinear_arith);
                assert(self.in_shape(n - 1 - i, j));
                assert(0 <= self.addr(n - 1 - i, j) < self.data@.len());
            }
        }
        let (nrows, ncols, rs0, cs0) = (self.nrows, self.ncols, -self.row_stride, self.col_stride);
        let r = self.relayout(offset, nrows, ncols, rs0, cs0);
        proof {
            assert forall|i: int, j: int| r.in_shape(i, j) implies 0 <= #[trigger] r.addr(i, j) < r.data@.len() by {
                assert(r.addr(i, j) == strided(offset as int, -rs, cs, i, j));
            }
        }
        r
    }

    /// The writable view with the column order reversed.
    pub fn reverse_cols_mut(self) -> (r: MatMut<'a, T>)
        requires
            self.wf(),
        ensures
            r.wf(),
            r.data@ == old(self.data)@,
            (*final(r.data))@ == (*final(self.data))@,
            r.nrows == self.nrows,
            r.ncols == self.ncols,
            forall|i: int, j: int| #[trigger] r.in_shape(i, j) ==> r.addr(i, j) == self.addr(i, self.ncols - 1 - j),
    {
        if self.ncols == 0 {
            return self;
        }
        let offset = if self.nrows > 0 {
            self.index_of(0, self.ncols - 1)
        } else {
            self.offset
        };
        let ghost o = self.offset as int;
        let ghost rs = self.row_stride as int;
        let ghost cs = self.col_stride as int;
        let ghost len = self.data@.len();
        let ghost m = self.ncols as int;
        proof {
            assert forall|i: int, j: int| 0 <= i < self.nrows && 0 <= j < self.ncols implies
                #[trigger] strided(offset as int, rs, -cs, i, j) == strided(o, rs, cs, i, m - 1 - j)
                && 0 <= strided(offset as int, rs, -cs, i, j) < len by {
                lemma_shift(o, rs, cs, 0, m - 1, i, -j);
                assert((-j) * cs == j * (-cs)) by (nonlinear_arith);
                assert(self.in_shape(i, m - 1 - j));
                assert(0 <= self.addr(i, m - 1 - j) < self.data@.len());
            }
        }
        let (nrows, ncols, rs0, cs0) = (self.nrows, self.ncols, self.row_stride, -self.col_stride);
        let r = self.relayout(offset, nrows, ncols, rs0, cs0);
        proof {
            assert forall|i: int, j: int| r.in_shape(i, j) implies 0 <= #[trigger] r.addr(i, j) < r.data@.len() by {
                assert(r.addr(i, j) == strided(offset as int, rs, -cs, i, j));
            }
        }
        r
    }

    /// The main diagonal as a writable min(nrows, ncols) x 1 view.
    pub fn diagonal_mut(self) -> (r: MatMut<'a, T>)
        requires
            self.wf(),
        ensures
            r.wf(),
            r.data@ == old(self.data)@,
            (*final(r.data))@ == (*final(self.data))@,
            r.nrows == (if self.nrows <= self.ncols { self.nrows } else { self.ncols }),
            r.ncols == 1,
            forall|k: int| 0 <= k < r.nrows ==> #[trigger] r.addr(k, 0) == self.addr(k, k),
    {
        let len = if self.nrows <= self.ncols { self.nrows } else { self.ncols };
        let stride = match self.row_stride.checked_add(self.col_stride) {
            Some(s) => if s != isize::MIN { s } else { 0 },
            None => 0,
        };
        let ghost o = self.offset as int;
        let ghost rs = self.row_stride as int;
        let ghost cs = self.col_stride as int;
        let ghost dlen = self.data@.len();
        proof {
            if len >= 2 {
                assert(0 <= self.addr(1, 1) < self.data@.len());
                assert(0 <= self.addr(0, 0) < self.data@.len());
                assert(stride == self.row_stride + self.col_stride);
            }
            assert(len * 1 <= self.nrows * self.ncols) by (nonlinear_arith)
                requires
                    0 <= len <= self.nrows,
                    len <= self.ncols,
            ;
            assert forall|k: int| 0 <= k < len implies #[trigger] strided(o, stride as int, stride as int, k, 0) == strided(o, rs, cs, k, k)
                && 0 <= strided(o, stride as int, stride as int, k, 0) < dlen by {
                if len >= 2 {
                    assert(k * (rs + cs) == k * rs + k * cs) by (nonlinear_arith);
                } else {
                    assert(k == 0);
                }
                assert(self.in_shape(k, k));
                assert(0 <= self.addr(k, k) < self.data@.len());
            }
        }
        let offset = self.offset;
        let r = self.relayout(offset, len, 1, stride, stride);
        proof {
            assert forall|i: int, j: int| r.in_shape(i, j) implies 0 <= #[trigger] r.addr(i, j) < r.data@.len() by {
                assert(j == 0);
                assert(r.addr(i, 0) == strided(o, stride as int, stride as int, i, 0));
            }
            assert forall|k: int| 0 <= k < r.nrows implies #[trigger] r.addr(k, 0) == strided(o, rs, cs, k, k) by {
                assert(r.addr(k, 0) == strided(o, stride as int, stride as int, k, 0));
            }
        }
        r
    }

    /// Row `i` as a 1 x ncols view.
    pub fn row(&self, i: usize) -> (r: MatRef<'_, T>)
        requires
            self.wf(),
            i < self.nrows,
        ensures
            r.wf(),
            r.nrows == 1,
            r.ncols == self.ncols,
            forall|j: int| 0 <= j < self.ncols ==> #[trigger] r.elem(0, j) == self.elem(i as int, j),
    {
        self.rb().row(i)
    }

    /// Column `j` as an nrows x 1 view.
    pub fn col(&self, j: usize) -> (r: MatRef<'_, T>)
        requires
            self.wf(),
            j < self.ncols,
        ensures
            r.wf(),
            r.nrows == self.nrows,
            r.ncols == 1,
            forall|i: int| 0 <= i < self.nrows ==> #[trigger] r.elem(i, 0) == self.elem(i, j as int),
    {
        self.rb().col(j)
    }

    /// The main diagonal as a min(nrows, ncols) x 1 view.
    pub fn diagonal(&self) -> (r: MatRef<'_, T>)
        requires
            self.wf(),
        ensures
            r.wf(),
            r.nrows == (if self.nrows <= self.ncols { self.nrows } else { self.ncols }),
            r.ncols == 1,
            forall|k: int| 0 <= k < r.nrows ==> #[trigger] r.elem(k, 0) == self.elem(k, k),
    {
        self.rb().diagonal()
    }

    /// The `nrows` x `ncols` window with top-left corner `(row_start, col_start)`.
    pub fn submatrix(&self, row_start: usize, col_start: usize, nrows: usize, ncols: usize) -> (r: MatRef<'_, T>)
        requires
            self.wf(),
            row_start + nrows <= self.nrows,
            col_start + ncols <= self.ncols,
        ensures
            r.wf(),
            r.nrows == nrows,
            r.ncols == ncols,
            forall|i: int, j: int| r.in_shape(i, j) ==> #[trigger] r.elem(i, j) == self.elem(row_start + i, col_start + j),
    {
        self.rb().submatrix(row_start, col_start, nrows, ncols)
    }

    /// Rows `start..end`.
    pub fn rows_range(&self, range: core::ops::Range<usize>) -> (r: MatRef<'_, T>)
        requires
            self.wf(),
            range.start <= range.end,
            range.end <= self.nrows,
        ensures
            r.wf(),
            r.nrows == range.end - range.start,
            r.ncols == self.ncols,
            forall|i: int, j: int| r.in_shape(i, j) ==> #[trigger] r.elem(i, j) == self.elem(range.start + i, j),
    {
        self.rb().rows_range(range)
    }

    /// Columns `start..end`.
    pub fn cols_range(&self, range: core::ops::Range<usize>) -> (r: MatRef<'_, T>)
        requires
            self.wf(),
            range.start <= range.end,
            range.end <= self.ncols,
        ensures
            r.wf(),
            r.nrows == self.nrows,
            r.ncols == range.end - range.start,
            forall|i: int, j: int| r.in_shape(i, j) ==> #[trigger] r.elem(i, j) == self.elem(i, range.start + j),
    {
        self.rb().cols_range(range)
    }

    /// Rows `0..i` and rows `i..nrows`.
    pub fn split_at_row(&self, i: usize) -> (r: (MatRef<'_, T>, MatRef<'_, T>))
        requires
            self.wf(),
            i <= self.nrows,
        ensures
            r.0.wf(),
            r.1.wf(),
            r.0.nrows == i,
            r.1.nrows == self.nrows - i,
            forall|a: int, b: int| r.0.in_shape(a, b) ==> #[trigger] r.0.elem(a, b) == self.elem(a, b),
            forall|a: int, b: int| r.1.in_shape(a, b) ==> #[trigger] r.1.elem(a, b) == self.elem(i + a, b),
    {
        self.rb().split_at_row(i)
    }

    /// Columns `0..j` and columns `j..ncols`.
    pub fn split_at_col(&self, j: usize) -> (r: (MatRef<'_, T>, MatRef<'_, T>))
        requires
            self.wf(),
            j <= self.ncols,
        ensures
            r.0.wf(),
            r.1.wf(),
            r.0.ncols == j,
            r.1.ncols == self.ncols - j,
            forall|a: int, b: int| r.0.in_shape(a, b) ==> #[trigger] r.0.elem(a, b) == self.elem(a, b),
            forall|a: int, b: int| r.1.in_shape(a, b) ==> #[trigger] r.1.elem(a, b) == self.elem(a, j + b),
    {
        self.rb().split_at_col(j)
    }

    /// The transposed view.
    pub fn transpose(&self) -> (r: MatRef<'_, T>)
        requires
            self.wf(),
        ensures
            r.wf(),
            r.nrows == self.ncols,
            r.ncols == self.nrows,
            forall|i: int, j: int| r.in_shape(i, j) ==> #[trigger] r.elem(i, j) == self.elem(j, i),
    {
        self.rb().transpose()
    }

    /// The view with the row order reversed.
    pub fn reverse_rows(&self) -> (r: MatRef<'_, T>)
        requires
            self.wf(),
        ensures
            r.wf(),
            r.nrows == self.nrows,
            r.ncols == self.ncols,
            forall|i: int, j: int| r.in_shape(i, j) ==> #[trigger] r.elem(i, j) == self.elem(self.nrows - 1 - i, j),
    {
        self.rb().reverse_rows()
    }

    /// The view with the column order reversed.
    pub fn reverse_cols(&self) -> (r: MatRef<'_, T>)
        requires
            self.wf(),
        ensures
            r.wf(),
            r.nrows == self.nrows,
            r.ncols == self.ncols,
            forall|i: int, j: int| r.in_shape(i, j) ==> #[trigger] r.elem(i, j) == self.elem(i, self.ncols - 1 - j),
    {
        self.rb().reverse_cols()
    }

    /// The column views, left to right.
    pub fn col_iter(&self) -> (r: Vec<MatRef<'_, T>>)
        requires
            self.wf(),
        ensures
            r@.len() == self.ncols,
            forall|k: int| 0 <= k < self.ncols ==> (#[trigger] r@[k]).wf() && r@[k].nrows == self.nrows && r@[k].ncols == 1
                && forall|i: int| 0 <= i < self.nrows ==> #[trigger] r@[k].elem(i, 0) == self.elem(i, k),
    {
        let v = self.rb();
        let r = v.col_iter();
        proof {
            assert forall|k: int| 0 <= k < self.ncols implies (#[trigger] r@[k]).wf() && r@[k].nrows == self.nrows && r@[k].ncols == 1
                && forall|i: int| 0 <= i < self.nrows ==> #[trigger] r@[k].elem(i, 0) == self.elem(i, k) by {
                v.lemma_window(0, k, self.nrows as int, 1);
                assert forall|i: int| 0 <= i < self.nrows implies #[trigger] r@[k].elem(i, 0) == self.elem(i, k) by {
                    assert(v.in_shape(i, k));
                }
            }
        }
        r
    }

    /// The row views, top to bottom.
    pub fn row_iter(&self) -> (r: Vec<MatRef<'_, T>>)
        requires
            self.wf(),
        ensures
            r@.len() == self.nrows,
            forall|k: int| 0 <= k < self.nrows ==> (#[trigger] r@[k]).wf() && r@[k].nrows == 1 && r@[k].ncols == self.ncols
                && forall|j: int| 0 <= j < self.ncols ==> #[trigger] r@[k].elem(0, j) == self.elem(k, j),
    {
        let v = self.rb();
        let r = v.row_iter();
        proof {
            assert forall|k: int| 0 <= k < self.nrows implies (#[trigger] r@[k]).wf() && r@[k].nrows == 1 && r@[k].ncols == self.ncols
                && forall|j: int| 0 <= j < self.ncols ==> #[trigger] r@[k].elem(0, j) == self.elem(k, j) by {
                v.lemma_window(k, 0, 1, self.ncols as int);
                assert forall|j: int| 0 <= j < self.ncols implies #[trigger] r@[k].elem(0, j) == self.elem(k, j) by {
                    assert(v.in_shape(k, j));
                }
            }
        }
        r
    }

    /// References to the diagonal elements, in order.
    pub fn diag_iter(&self) -> (r: Vec<&T>)
        requires
            self.wf(),
        ensures
            r@.len() == (if self.nrows <= self.ncols { self.nrows } else { self.ncols }),
            forall|k: int| 0 <= k < r@.len() ==> *#[trigger] r@[k] == self.elem(k, k),
    {
        self.rb().diag_iter()
    }

    /// Every position with its element, in row-major order.
    pub fn enumerate(&self) -> (r: Vec<((usize, usize), &T)>)
        requires
            self.wf(),
        ensures
            r@.len() == self.nrows * self.ncols,
            forall|i: int, j: int|
                self.in_shape(i, j) ==> (#[trigger] r@[cm_index(j, i, self.ncols as int)]).0 == (i as usize, j as usize)
                    && *r@[cm_index(j, i, self.ncols as int)].1 == self.elem(i, j),
    {
        self.rb().enumerate()
    }
}

impl<'a, T: Copy> MatMut<'a, T> {
    /// Overwrites every element with the one at the same position of `src`,
    /// which has the same shape.
    pub fn copy_from(&mut self, src: MatRef<'_, T>)
        requires
            old(self).wf(),
            old(self).injective(),
            src.wf(),
            src.nrows == old(self).nrows,
            src.ncols == old(self).ncols,
        ensures
            final(self).wf(),
            final(self).injective(),
            final(self).offset == old(self).offset,
            final(self).nrows == old(self).nrows,
            final(self).ncols == old(self).ncols,
            final(self).row_stride == old(self).row_stride,
            final(self).col_stride == old(self).col_stride,
            forall|i: int, j: int| #[trigger] final(self).in_shape(i, j) ==> final(self).elem(i, j) == src.elem(i, j),
    {
        let ghost start = *self;
        let mut j: usize = 0;
        while j < self.ncols
            invariant
                self.wf(),
                self.injective(),
                src.wf(),
                src.nrows == self.nrows,
                src.ncols == self.ncols,
                self.offset == start.offset,
                self.nrows == start.nrows,
                self.ncols == start.ncols,
                self.row_stride == start.row_stride,
                self.col_stride == start.col_stride,
                j <= self.ncols,
                forall|a: int, b: int| 0 <= a < self.nrows && 0 <= b < j ==> #[trigger] self.elem(a, b) == src.elem(a, b),
            decreases self.ncols - j,
        {
            let mut i: usize = 0;
            while i < self.nrows
                invariant
                    self.wf(),
                    self.injective(),
                    src.wf(),
                    src.nrows == self.nrows,
                    src.ncols == self.ncols,
                    self.offset == start.offset,
                    self.nrows == start.nrows,
                    self.ncols == start.ncols,
                    self.row_stride == start.row_stride,
                    self.col_stride == start.col_stride,
                    i <= self.nrows,
                    j < self.ncols,
                    forall|a: int, b: int| (0 <= a < self.nrows && 0 <= b < j) || (0 <= a < i && b == j) ==> #[trigger] self.elem(a, b) == src.elem(a, b),
                decreases self.nrows - i,
            {
                let ghost prev = self.data@;
                proof {
                    assert forall|a: int, b: int| (0 <= a < self.nrows && 0 <= b < j) || (0 <= a < i && b == j) implies prev[#[trigger] start.addr(a, b)] == src.elem(a, b) by {
                        assert(self.elem(a, b) == src.elem(a, b));
                    }
                }
                let x = *src.at(i, j);
                self.set(i, j, x);
                proof {
                    assert forall|a: int, b: int| (0 <= a < self.nrows && 0 <= b < j) || (0 <= a <= i && b == j) implies #[trigger] self.elem(a, b) == src.elem(a, b) by {
                        assert(self.addr(a, b) == start.addr(a, b));
                        if !(a == i && b == j) {
                            assert(start.addr(a, b) != start.addr(i as int, j as int));
                            assert(self.data@[start.addr(a, b)] == prev[start.addr(a, b)]);
                        }
                    }
                }
                i += 1;
            }
            j += 1;
        }
    }

    /// Sets element `(i, j)` to `f(i, j)` at every position.
    pub fn fill_with_fn<F: Fn(usize, usize) -> T>(&mut self, f: F)
        requires
            old(self).wf(),
            old(self).injective(),
            forall|i: usize, j: usize| i < old(self).nrows && j < old(self).ncols ==> #[trigger] f.requires((i, j)),
        ensures
            final(self).wf(),
            final(self).offset == old(self).offset,
            final(self).nrows == old(self).nrows,
            final(self).ncols == old(self).ncols,
            final(self).row_stride == old(self).row_stride,
            final(self).col_stride == old(self).col_stride,
            forall|i: int, j: int| #[trigger] final(self).in_shape(i, j) ==> f.ensures((i as usize, j as usize), final(self).elem(i, j)),
    {
        let m = Mat::from_fn(self.nrows, self.ncols, f);
        let v = m.as_ref();
        self.copy_from(v);
        proof {
            assert forall|i: int, j: int| #[trigger] self.in_shape(i, j) implies f.ensures((i as usize, j as usize), self.elem(i, j)) by {
                assert(m@.in_shape(i, j));
                assert(v.elem(i, j) == m@.elem(i, j));
            }
        }
    }

    /// Exchanges rows `i1` and `i2`.
    pub fn swap_rows(&mut self, i1: usize, i2: usize)
        requires
            old(self).wf(),
            old(self).injective(),
            i1 < old(self).nrows,
            i2 < old(self).nrows,
        ensures
            final(self).wf(),
            final(self).offset == old(self).offset,
            final(self).nrows == old(self).nrows,
            final(self).ncols == old(self).ncols,
            final(self).row_stride == old(self).row_stride,
            final(self).col_stride == old(self).col_stride,
            forall|a: int, b: int| #[trigger] final(self).in_shape(a, b) ==> final(self).elem(a, b) == old(self).elem(
                if a == i1 { i2 as int } else if a == i2 { i1 as int } else { a },
                b,
            ),
    {
        let v = self.rb();
        let m = v.to_owned();
        let src = m.as_ref();
        let cell = |a: usize, b: usize| -> (x: T)
            requires
                src.wf(),
                i1 < src.nrows,
                i2 < src.nrows,
                a < src.nrows,
                b < src.ncols,
            ensures
                x == src.elem(if a == i1 { i2 as int } else if a == i2 { i1 as int } else { a as int }, b as int),
        {
            if a == i1 {
                *src.at(i2, b)
            } else if a == i2 {
                *src.at(i1, b)
            } else {
                *src.at(a, b)
            }
        };
        let swapped = Mat::from_fn(self.nrows, self.ncols, cell);
        let w = swapped.as_ref();
        self.copy_from(w);
        proof {
            assert forall|a: int, b: int| #[trigger] self.in_shape(a, b) implies self.elem(a, b) == old(self).elem(
                if a == i1 { i2 as int } else if a == i2 { i1 as int } else { a },
                b,
            ) by {
                let a2 = if a == i1 { i2 as int } else if a == i2 { i1 as int } else { a };
                assert(swapped@.in_shape(a, b));
                assert(m@.in_shape(a2, b));
                assert(v.in_shape(a2, b));
            }
        }
    }

    /// Exchanges columns `j1` and `j2`.
    pub fn swap_cols(&mut self, j1: usize, j2: usize)
        requires
            old(self).wf(),
            old(self).injective(),
            j1 < old(self).ncols,
            j2 < old(self).ncols,
        ensures
            final(self).wf(),
            final(self).offset == old(self).offset,
            final(self).nrows == old(self).nrows,
            final(self).ncols == old(self).ncols,
            final(self).row_stride == old(self).row_stride,
            final(self).col_stride == old(self).col_stride,
            forall|a: int, b: int| #[trigger] final(self).in_shape(a, b) ==> final(self).elem(a, b) == old(self).elem(
                a,
                if b == j1 { j2 as int } else if b == j2 { j1 as int } else { b },
            ),
    {
        let v = self.rb();
        let m = v.to_owned();
        let src = m.as_ref();
        let cell = |a: usize, b: usize| -> (x: T)
            requires
                src.wf(),
                j1 < src.ncols,
                j2 < src.ncols,
                a < src.nrows,
                b < src.ncols,
            ensures
                x == src.elem(a as int, if b == j1 { j2 as int } else if b == j2 { j1 as int } else { b as int }),
        {
            if b == j1 {
                *src.at(a, j2)
            } else if b == j2 {
                *src.at(a, j1)
            } else {
                *src.at(a, b)
            }
        };
        let swapped = Mat::from_fn(self.nrows, self.ncols, cell);
        let w = swapped.as_ref();
        self.copy_from(w);
        proof {
            assert forall|a: int, b: int| #[trigger] self.in_shape(a, b) implies self.elem(a, b) == old(self).elem(
                a,
                if b == j1 { j2 as int } else if b == j2 { j1 as int } else { b },
            ) by {
                let b2 = if b == j1 { j2 as int } else if b == j2 { j1 as int } else { b };
                assert(swapped@.in_shape(a, b));
                assert(m@.in_shape(a, b2));
                assert(v.in_shape(a, b2));
            }
        }
    }
}

impl<'a, T: PartialEq> MatMut<'a, T> {
    /// Square, and each element equals its mirror across the diagonal.
    pub open spec fn symmetric(&self) -> bool {
        &&& self.nrows == self.ncols
        &&& forall|i: int, j: int| 0 <= i < j < self.ncols ==> #[trigger] self.elem(i, j).eq_spec(&self.elem(j, i))
    }

    /// Whether the view is square and equal to its transpose; exact for
    /// element types whose `==` follows its specification.
    pub fn is_symmetric(&self) -> (r: bool)
        requires
            self.wf(),
        ensures
            T::obeys_eq_spec() ==> r == self.symmetric(),
    {
        let v = self.rb();
        let r = v.is_symmetric();
        assert forall|i: int, j: int| #![trigger self.elem(i, j)] #![trigger v.elem(i, j)] #![trigger self.in_shape(i, j)]
            true implies self.elem(i, j) == v.elem(i, j) && (self.in_shape(i, j) == v.in_shape(i, j)) by {}
        r
    }
}

impl<'a, T: Scalar> MatMut<'a, T> {
    /// Every element off the main diagonal is zero.
    pub open spec fn diagonal_only(&self) -> bool {
        forall|i: int, j: int| self.in_shape(i, j) && i != j ==> #[trigger] self.elem(i, j) == T::zero_spec()
    }

    /// Every element below the main diagonal is zero.
    pub open spec fn upper_triangular(&self) -> bool {
        forall|i: int, j: int| self.in_shape(i, j) && i > j ==> #[trigger] self.elem(i, j) == T::zero_spec()
    }

    /// Every element above the main diagonal is zero.
    pub open spec fn lower_triangular(&self) -> bool {
        forall|i: int, j: int| self.in_shape(i, j) && i < j ==> #[trigger] self.elem(i, j) == T::zero_spec()
    }

    /// Square, with ones on the diagonal and zeros elsewhere.
    pub open spec fn identity_like(&self) -> bool {
        &&& self.nrows == self.ncols
        &&& forall|i: int, j: int| #[trigger] self.in_shape(i, j) ==> self.elem(i, j) == (if i == j {
            T::one_spec()
        } else {
            T::zero_spec()
        })
    }

    /// Whether every element off the main diagonal is zero.
    pub fn is_diagonal(&self) -> (r: bool)
        requires
            self.wf(),
        ensures
            r == self.diagonal_only(),
    {
        let v = self.rb();
        let r = v.is_diagonal();
        assert forall|i: int, j: int| #![trigger self.elem(i, j)] #![trigger v.elem(i, j)] #![trigger self.in_shape(i, j)]
            true implies self.elem(i, j) == v.elem(i, j) && (self.in_shape(i, j) == v.in_shape(i, j)) by {}
        r
    }

    /// Whether every element below the main diagonal is zero.
    pub fn is_upper_triangular(&self) -> (r: bool)
        requires
            self.wf(),
        ensures
            r == self.upper_triangular(),
    {
        let v = self.rb();
        let r = v.is_upper_triangular();
        assert forall|i: int, j: int| #![trigger self.elem(i, j)] #![trigger v.elem(i, j)] #![trigger self.in_shape(i, j)]
            true implies self.elem(i, j) == v.elem(i, j) && (self.in_shape(i, j) == v.in_shape(i, j)) by {}
        r
    }

    /// Whether every element above the main diagonal is zero.
    pub fn is_lower_triangular(&self) -> (r: bool)
        requires
            self.wf(),
        ensures
            r == self.lower_triangular(),
    {
        let v = self.rb();
        let r = v.is_lower_triangular();
        assert forall|i: int, j: int| #![trigger self.elem(i, j)] #![trigger v.elem(i, j)] #![trigger self.in_shape(i, j)]
            true implies self.elem(i, j) == v.elem(i, j) && (self.in_shape(i, j) == v.in_shape(i, j)) by {}
        r
    }

    /// Whether the matrix is square with ones on the diagonal and zeros
    /// elsewhere.
    pub fn is_identity(&self) -> (r: bool)
        requires
            self.wf(),
        ensures
            r == self.identity_like(),
    {
        let v = self.rb();
        let r = v.is_identity();
        assert forall|i: int, j: int| #![trigger self.elem(i, j)] #![trigger v.elem(i, j)] #![trigger self.in_shape(i, j)]
            true implies self.elem(i, j) == v.elem(i, j) && (self.in_shape(i, j) == v.in_shape(i, j)) by {}
        r
    }

    /// A copy keeping the elements with `j - i <= k` and zeroing the rest.
    pub fn tril(&self, k: isize) -> (r: Mat<T>)
        requires
            self.wf(),
        ensures
            r.wf(),
            r@.nrows == self.nrows,
            r@.ncols == self.ncols,
            forall|i: int, j: int| #[trigger] r@.in_shape(i, j) ==> r@.elem(i, j) == (if j - i <= k {
                self.elem(i, j)
            } else {
                T::zero_spec()
            }),
    {
        self.rb().tril(k)
    }

    /// A copy keeping the elements with `j - i >= k` and zeroing the rest.
    pub fn triu(&self, k: isize) -> (r: Mat<T>)
        requires
            self.wf(),
        ensures
            r.wf(),
            r@.nrows == self.nrows,
            r@.ncols == self.ncols,
            forall|i: int, j: int| #[trigger] r@.in_shape(i, j) ==> r@.elem(i, j) == (if j - i >= k {
                self.elem(i, j)
            } else {
                T::zero_spec()
            }),
    {
        self.rb().triu(k)
    }
}

impl<'a, T: Copy> MatMut<'a, T> {
    /// Element number `k` when the view is read column by column.
    pub open spec fn cm_elem(&self, k: int) -> T {
        self.elem(k % (self.nrows as int), k / (self.nrows as int))
    }

    /// Copies the view into a fresh contiguous matrix.
    pub fn to_owned(&self) -> (r: Mat<T>)
        requires
            self.wf(),
        ensures
            r.wf(),
            forall|i: int, j: int| self.in_shape(i, j) ==> #[trigger] r@.elem(i, j) == self.elem(i, j),
            r@.nrows == self.nrows,
            r@.ncols == self.ncols,
    {
        self.rb().to_owned()
    }

    /// The rows listed in `indices`, in that order; an index may repeat.
    pub fn take_rows(&self, indices: &[usize]) -> (r: Mat<T>)
        requires
            self.wf(),
            shape_fits(indices@.len() as int, self.ncols as int),
            forall|k: int| 0 <= k < indices@.len() ==> #[trigger] indices@[k] < self.nrows,
        ensures
            r.wf(),
            r@.nrows == indices@.len(),
            r@.ncols == self.ncols,
            forall|i: int, j: int| r@.in_shape(i, j) ==> #[trigger] r@.elem(i, j) == self.elem(indices@[i] as int, j),
    {
        self.rb().take_rows(indices)
    }

    /// The columns listed in `indices`, in that order; an index may repeat.
    pub fn take_cols(&self, indices: &[usize]) -> (r: Mat<T>)
        requires
            self.wf(),
            shape_fits(self.nrows as int, indices@.len() as int),
            forall|k: int| 0 <= k < indices@.len() ==> #[trigger] indices@[k] < self.ncols,
        ensures
            r.wf(),
            r@.nrows == self.nrows,
            r@.ncols == indices@.len(),
            forall|i: int, j: int| r@.in_shape(i, j) ==> #[trigger] r@.elem(i, j) == self.elem(i, indices@[j] as int),
    {
        self.rb().take_cols(indices)
    }

    /// A fresh `nrows` x `ncols` matrix holding the elements of the view in
    /// column-major order.
    pub fn reshape(&self, nrows: usize, ncols: usize) -> (r: Mat<T>)
        requires
            self.wf(),
            shape_fits(nrows as int, ncols as int),
            nrows * ncols == self.nrows * self.ncols,
        ensures
            r.wf(),
            r@.nrows == nrows,
            r@.ncols == ncols,
            forall|i: int, j: int| r@.in_shape(i, j) ==> #[trigger] r@.elem(i, j) == self.cm_elem(cm_index(i, j, nrows as int)),
    {
        self.rb().reshape(nrows, ncols)
    }

    /// The elements as one column, in column-major order.
    pub fn flatten(&self) -> (r: Mat<T>)
        requires
            self.wf(),
        ensures
            r.wf(),
            r@.nrows == self.nrows * self.ncols,
            r@.ncols == 1,
            forall|k: int| 0 <= k < self.nrows * self.ncols ==> #[trigger] r@.elem(k, 0) == self.cm_elem(k),
    {
        self.rb().flatten()
    }

    /// The elements as one row, in column-major order.
    pub fn flatten_row(&self) -> (r: Mat<T>)
        requires
            self.wf(),
        ensures
            r.wf(),
            r@.nrows == 1,
            r@.ncols == self.nrows * self.ncols,
            forall|k: int| 0 <= k < self.nrows * self.ncols ==> #[trigger] r@.elem(0, k) == self.cm_elem(k),
    {
        self.rb().flatten_row()
    }

    /// Same as `flatten`.
    pub fn to_col_vector(&self) -> (r: Mat<T>)
        requires
            self.wf(),
        ensures
            r.wf(),
            r@.nrows == self.nrows * self.ncols,
            r@.ncols == 1,
            forall|k: int| 0 <= k < self.nrows * self.ncols ==> #[trigger] r@.elem(k, 0) == self.cm_elem(k),
    {
        self.rb().to_col_vector()
    }

    /// Same as `flatten_row`.
    pub fn to_row_vector(&self) -> (r: Mat<T>)
        requires
            self.wf(),
        ensures
            r.wf(),
            r@.nrows == 1,
            r@.ncols == self.nrows * self.ncols,
            forall|k: int| 0 <= k < self.nrows * self.ncols ==> #[trigger] r@.elem(0, k) == self.cm_elem(k),
    {
        self.rb().to_row_vector()
    }

    /// A copy with `row` inserted so that it becomes row `i`.
    pub fn insert_row(&self, i: usize, row: &[T]) -> (r: Mat<T>)
        requires
            self.wf(),
            i <= self.nrows,
            row@.len() == self.ncols,
            shape_fits(self.nrows + 1, self.ncols as int),
        ensures
            r.wf(),
            r@.nrows == self.nrows + 1,
            r@.ncols == self.ncols,
            forall|a: int, b: int| #[trigger] r@.in_shape(a, b) ==> r@.elem(a, b) == (if a < i {
                self.elem(a, b)
            } else if a == i {
                row@[b]
            } else {
                self.elem(a - 1, b)
            }),
    {
        self.rb().insert_row(i, row)
    }

    /// A copy with `col` inserted so that it becomes column `j`.
    pub fn insert_col(&self, j: usize, col: &[T]) -> (r: Mat<T>)
        requires
            self.wf(),
            j <= self.ncols,
            col@.len() == self.nrows,
            shape_fits(self.nrows as int, self.ncols + 1),
        ensures
            r.wf(),
            r@.nrows == self.nrows,
            r@.ncols == self.ncols + 1,
            forall|a: int, b: int| #[trigger] r@.in_shape(a, b) ==> r@.elem(a, b) == (if b < j {
                self.elem(a, b)
            } else if b == j {
                col@[a]
            } else {
                self.elem(a, b - 1)
            }),
    {
        self.rb().insert_col(j, col)
    }

    /// A copy without row `i`.
    pub fn remove_row(&self, i: usize) -> (r: Mat<T>)
        requires
            self.wf(),
            i < self.nrows,
        ensures
            r.wf(),
            r@.nrows == self.nrows - 1,
            r@.ncols == self.ncols,
            forall|a: int, b: int| #[trigger] r@.in_shape(a, b) ==> r@.elem(a, b) == (if a < i {
                self.elem(a, b)
            } else {
                self.elem(a + 1, b)
            }),
    {
        self.rb().remove_row(i)
    }

    /// A copy without column `j`.
    pub fn remove_col(&self, j: usize) -> (r: Mat<T>)
        requires
            self.wf(),
            j < self.ncols,
        ensures
            r.wf(),
            r@.nrows == self.nrows,
            r@.ncols == self.ncols - 1,
            forall|a: int, b: int| #[trigger] r@.in_shape(a, b) ==> r@.elem(a, b) == (if b < j {
                self.elem(a, b)
            } else {
                self.elem(a, b + 1)
            }),
    {
        self.rb().remove_col(j)
    }

    /// A copy with `row` added below the last row.
    pub fn append_row(&self, row: &[T]) -> (r: Mat<T>)
        requires
            self.wf(),
            row@.len() == self.ncols,
            shape_fits(self.nrows + 1, self.ncols as int),
        ensures
            r.wf(),
            r@.nrows == self.nrows + 1,
            r@.ncols == self.ncols,
            forall|a: int, b: int| #[trigger] r@.in_shape(a, b) ==> r@.elem(a, b) == (if a < self.nrows {
                self.elem(a, b)
            } else {
                row@[b]
            }),
    {
        self.rb().append_row(row)
    }

    /// A copy with `col` added after the last column.
    pub fn append_col(&self, col: &[T]) -> (r: Mat<T>)
        requires
            self.wf(),
            col@.len() == self.nrows,
            shape_fits(self.nrows as int, self.ncols + 1),
        ensures
            r.wf(),
            r@.nrows == self.nrows,
            r@.ncols == self.ncols + 1,
            forall|a: int, b: int| #[trigger] r@.in_shape(a, b) ==> r@.elem(a, b) == (if b < self.ncols {
                self.elem(a, b)
            } else {
                col@[a]
            }),
    {
        self.rb().append_col(col)
    }
}

} // verus!
