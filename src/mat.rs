//! Owned matrices: a contiguous column-major buffer with its shape.
use vstd::prelude::*;

use crate::mat_mut::MatMut;
use crate::mat_ref::{all_cells, clamped, lemma_cm_split, MatRef};
use vstd::std_specs::ops::{DivSpec, MulSpec};
use vstd::std_specs::cmp::PartialOrdSpec;
use crate::scalar::Scalar;
use vstd::std_specs::cmp::PartialEqSpec;

verus! {

/// Position of element `(i, j)` in a contiguous column-major buffer with
/// `nrows` rows.
pub open spec fn cm_index(i: int, j: int, nrows: int) -> int {
    i + j * nrows
}

/// Whether a matrix of this shape can be stored: every count fits in `isize`.
pub open spec fn shape_fits(nrows: int, ncols: int) -> bool {
    &&& 0 <= nrows <= isize::MAX
    &&& 0 <= ncols <= isize::MAX
    &&& nrows * ncols <= isize::MAX
}

/// A position inside the shape has a column-major index inside the buffer,
/// within its own column.
pub proof fn lemma_cm_index_bounds(i: int, j: int, nrows: int, ncols: int)
    requires
        0 <= i < nrows,
        0 <= j < ncols,
    ensures
        0 <= cm_index(i, j, nrows) < nrows * ncols,
        cm_index(i, j, nrows) < ncols * nrows,
        cm_index(i, j, nrows) < (j + 1) * nrows,
        j * nrows <= cm_index(i, j, nrows),
{
    assert(0 <= i + j * nrows < nrows * ncols) by (nonlinear_arith)
        requires
            0 <= i < nrows,
            0 <= j < ncols,
    ;
    assert((j + 1) * nrows == j * nrows + nrows) by (nonlinear_arith);
    assert(nrows * ncols == ncols * nrows) by (nonlinear_arith);
    assert(0 <= j * nrows) by (nonlinear_arith)
        requires
            0 <= j,
            0 <= nrows,
    ;
}

/// Total number of rows of the first `k` views.
pub open spec fn rows_before<'a, T>(ms: Seq<MatRef<'a, T>>, k: int) -> int
    decreases k,
{
    if k <= 0 {
        0
    } else {
        rows_before(ms, k - 1) + ms[k - 1].nrows
    }
}

/// Total number of columns of the first `k` views.
pub open spec fn cols_before<'a, T>(ms: Seq<MatRef<'a, T>>, k: int) -> int
    decreases k,
{
    if k <= 0 {
        0
    } else {
        cols_before(ms, k - 1) + ms[k - 1].ncols
    }
}

/// Each view starts below all the views before it.
pub proof fn lemma_rows_before_mono<'a, T>(ms: Seq<MatRef<'a, T>>, a: int, b: int)
    requires
        0 <= a < b <= ms.len(),
    ensures
        0 <= rows_before(ms, a),
        rows_before(ms, a) + ms[a].nrows <= rows_before(ms, b),
    decreases b - a,
{
    if a + 1 < b {
        lemma_rows_before_mono(ms, a, b - 1);
    } else {
        lemma_rows_before_nonneg(ms, a);
    }
}

/// Row totals are never negative.
pub proof fn lemma_rows_before_nonneg<'a, T>(ms: Seq<MatRef<'a, T>>, k: int)
    ensures
        0 <= rows_before(ms, k),
    decreases k,
{
    if k > 0 {
        lemma_rows_before_nonneg(ms, k - 1);
    }
}

/// Each view starts right of all the views before it.
pub proof fn lemma_cols_before_mono<'a, T>(ms: Seq<MatRef<'a, T>>, a: int, b: int)
    requires
        0 <= a < b <= ms.len(),
    ensures
        0 <= cols_before(ms, a),
        cols_before(ms, a) + ms[a].ncols <= cols_before(ms, b),
    decreases b - a,
{
    if a + 1 < b {
        lemma_cols_before_mono(ms, a, b - 1);
    } else {
        lemma_cols_before_nonneg(ms, a);
    }
}

/// Column totals are never negative.
pub proof fn lemma_cols_before_nonneg<'a, T>(ms: Seq<MatRef<'a, T>>, k: int)
    ensures
        0 <= cols_before(ms, k),
    decreases k,
{
    if k > 0 {
        lemma_cols_before_nonneg(ms, k - 1);
    }
}

/// Row totals depend only on the row counts.
pub proof fn lemma_rows_before_ext<'a, 'b, T>(xs: Seq<MatRef<'a, T>>, ys: Seq<MatRef<'b, T>>, k: int)
    requires
        0 <= k <= xs.len(),
        k <= ys.len(),
        forall|c: int| 0 <= c < k ==> #[trigger] xs[c].nrows == ys[c].nrows,
    ensures
        rows_before(xs, k) == rows_before(ys, k),
    decreases k,
{
    if k > 0 {
        lemma_rows_before_ext(xs, ys, k - 1);
    }
}

/// Column totals depend only on the column counts.
pub proof fn lemma_cols_before_ext<'a, 'b, T>(xs: Seq<MatRef<'a, T>>, ys: Seq<MatRef<'b, T>>, k: int)
    requires
        0 <= k <= xs.len(),
        k <= ys.len(),
        forall|c: int| 0 <= c < k ==> #[trigger] xs[c].ncols == ys[c].ncols,
    ensures
        cols_before(xs, k) == cols_before(ys, k),
    decreases k,
{
    if k > 0 {
        lemma_cols_before_ext(xs, ys, k - 1);
    }
}

/// The first block of every block row.
pub open spec fn first_blocks<'a, T>(blocks: Seq<&'a [MatRef<'a, T>]>) -> Seq<MatRef<'a, T>> {
    Seq::new(blocks.len(), |k: int| blocks[k]@[0])
}

/// A grid of blocks in which every block row has as many blocks as the
/// first, the blocks of a block row share their height, and the blocks of
/// a block column share their width.
pub open spec fn blocks_consistent<'a, T>(blocks: Seq<&'a [MatRef<'a, T>]>) -> bool {
    &&& forall|bi: int| 0 <= bi < blocks.len() ==> (#[trigger] blocks[bi])@.len() == blocks[0]@.len()
    &&& forall|bi: int, bj: int| 0 <= bi < blocks.len() && 0 <= bj < blocks[0]@.len() ==> (#[trigger] blocks[bi]@[bj]).wf()
        && blocks[bi]@[bj].nrows == blocks[bi]@[0].nrows && blocks[bi]@[bj].ncols == blocks[0]@[bj].ncols
}

/// Distinct positions of a column-major layout have distinct indices.
pub proof fn lemma_cm_index_injective(a: int, b: int, c: int, d: int, nrows: int, ncols: int)
    requires
        0 <= a < nrows,
        0 <= c < nrows,
        0 <= b < ncols,
        0 <= d < ncols,
        cm_index(a, b, nrows) == cm_index(c, d, nrows),
    ensures
        a == c,
        b == d,
{
    if b < d {
        lemma_cm_index_bounds(a, b, nrows, d);
        lemma_cm_index_bounds(c, d, nrows, ncols);
    } else if d < b {
        lemma_cm_index_bounds(c, d, nrows, b);
        lemma_cm_index_bounds(a, b, nrows, ncols);
    }
}

/// The mathematical model of a matrix: its shape and its elements in
/// column-major order.
pub struct Grid<T> {
    pub nrows: nat,
    pub ncols: nat,
    pub data: Seq<T>,
}

impl<T> Grid<T> {
    pub open spec fn in_shape(self, i: int, j: int) -> bool {
        0 <= i < self.nrows && 0 <= j < self.ncols
    }

    /// Element `(i, j)`.
    pub open spec fn elem(self, i: int, j: int) -> T {
        self.data[cm_index(i, j, self.nrows as int)]
    }

    pub open spec fn wf(self) -> bool {
        &&& self.data.len() == self.nrows * self.ncols
        &&& shape_fits(self.nrows as int, self.ncols as int)
    }
}

impl<T: Scalar> Grid<T> {
    /// Every element off the main diagonal is zero.
    pub open spec fn diagonal_only(self) -> bool {
        forall|i: int, j: int| #[trigger] self.in_shape(i, j) && i != j ==> self.elem(i, j) == T::zero_spec()
    }

    /// Every element below the main diagonal is zero.
    pub open spec fn upper_triangular(self) -> bool {
        forall|i: int, j: int| #[trigger] self.in_shape(i, j) && i > j ==> self.elem(i, j) == T::zero_spec()
    }

    /// Every element above the main diagonal is zero.
    pub open spec fn lower_triangular(self) -> bool {
        forall|i: int, j: int| #[trigger] self.in_shape(i, j) && i < j ==> self.elem(i, j) == T::zero_spec()
    }

    /// Square, with ones on the diagonal and zeros elsewhere.
    pub open spec fn identity_like(self) -> bool {
        &&& self.nrows == self.ncols
        &&& forall|i: int, j: int| #[trigger] self.in_shape(i, j) ==> self.elem(i, j) == (if i == j {
            T::one_spec()
        } else {
            T::zero_spec()
        })
    }
}

impl<T: PartialEq> Grid<T> {
    /// Square, and each element `==` its mirror across the diagonal.
    pub open spec fn symmetric(self) -> bool {
        &&& self.nrows == self.ncols
        &&& forall|i: int, j: int| 0 <= i < j < self.ncols ==> #[trigger] self.elem(i, j).eq_spec(&self.elem(j, i))
    }
}

/// An owned matrix whose elements are stored contiguously, column by column.
#[derive(Debug)]
pub struct Mat<T> {
    data: Vec<T>,
    nrows: usize,
    ncols: usize,
}

impl<T> View for Mat<T> {
    type V = Grid<T>;

    closed spec fn view(&self) -> Grid<T> {
        Grid { nrows: self.nrows as nat, ncols: self.ncols as nat, data: self.data@ }
    }
}

impl<T> Mat<T> {
    /// The buffer holds exactly `nrows * ncols` elements.
    pub open spec fn wf(&self) -> bool {
        self@.wf()
    }

    /// An empty 0x0 matrix.
    pub fn new() -> (r: Self)
        ensures
            r.wf(),
            r@.nrows == 0,
            r@.ncols == 0,
    {
        Mat { data: Vec::new(), nrows: 0, ncols: 0 }
    }

    pub fn nrows(&self) -> (r: usize)
        ensures
            r == self@.nrows,
    {
        self.nrows
    }

    pub fn ncols(&self) -> (r: usize)
        ensures
            r == self@.ncols,
    {
        self.ncols
    }

    /// Wraps a column-major buffer of `nrows * ncols` elements.
    pub fn from_vec_col(nrows: usize, ncols: usize, data: Vec<T>) -> (r: Self)
        requires
            shape_fits(nrows as int, ncols as int),
            data@.len() == nrows * ncols,
        ensures
            r.wf(),
            r@ == (Grid { nrows: nrows as nat, ncols: ncols as nat, data: data@ }),
    {
        Mat { data, nrows, ncols }
    }

    /// Builds the matrix whose element `(i, j)` is `f(i, j)`; `f` is called
    /// column by column.
    pub fn from_fn<F: Fn(usize, usize) -> T>(nrows: usize, ncols: usize, f: F) -> (r: Self)
        requires
            shape_fits(nrows as int, ncols as int),
            forall|i: usize, j: usize| i < nrows && j < ncols ==> #[trigger] f.requires((i, j)),
        ensures
            r.wf(),
            r@.nrows == nrows,
            r@.ncols == ncols,
            forall|i: int, j: int|
                0 <= i < nrows && 0 <= j < ncols ==> f.ensures(
                    (i as usize, j as usize),
                    #[trigger] r@.elem(i, j),
                ),
    {
        let mut data: Vec<T> = Vec::new();
        let mut j: usize = 0;
        while j < ncols
            invariant
                j <= ncols,
                shape_fits(nrows as int, ncols as int),
                forall|i: usize, j: usize| i < nrows && j < ncols ==> #[trigger] f.requires((i, j)),
                data@.len() == j * nrows,
                forall|a: int, b: int|
                    0 <= a < nrows && 0 <= b < j ==> f.ensures(
                        (a as usize, b as usize),
                        #[trigger] data@[cm_index(a, b, nrows as int)],
                    ),
            decreases ncols - j,
        {
            let mut i: usize = 0;
            while i < nrows
                invariant
                    i <= nrows,
                    j < ncols,
                    shape_fits(nrows as int, ncols as int),
                    forall|i: usize, j: usize| i < nrows && j < ncols ==> #[trigger] f.requires((i, j)),
                    data@.len() == j * nrows + i,
                    forall|a: int, b: int|
                        (0 <= a < nrows && 0 <= b < j) || (b == j && 0 <= a < i) ==> f.ensures(
                            (a as usize, b as usize),
                            #[trigger] data@[cm_index(a, b, nrows as int)],
                        ),
                decreases nrows - i,
            {
                let x = f(i, j);
                let ghost old_data = data@;
                data.push(x);
                proof {
                    assert forall|a: int, b: int|
                        (0 <= a < nrows && 0 <= b < j) || (b == j && 0 <= a <= i) implies f.ensures(
                            (a as usize, b as usize),
                            #[trigger] data@[cm_index(a, b, nrows as int)],
                        ) by {
                        if b < j {
                            lemma_cm_index_bounds(a, b, nrows as int, j as int);
                            assert(data@[cm_index(a, b, nrows as int)] == old_data[cm_index(a, b, nrows as int)]);
                        } else if a < i {
                            assert(data@[cm_index(a, b, nrows as int)] == old_data[cm_index(a, b, nrows as int)]);
                        }
                    }
                }
                i += 1;
            }
            proof {
                assert((j + 1) * nrows == j * nrows + nrows) by (nonlinear_arith);
            }
            j += 1;
        }
        proof {
            assert(ncols * nrows == nrows * ncols) by (nonlinear_arith);
        }
        Mat { data, nrows, ncols }
    }

    /// The matrix of `f` applied to every element.
    pub fn map<U, F: Fn(&T) -> U>(&self, f: F) -> (r: Mat<U>)
        requires
            self.wf(),
            forall|i: int, j: int| self@.in_shape(i, j) ==> #[trigger] f.requires((&self@.elem(i, j),)),
        ensures
            r.wf(),
            r@.nrows == self@.nrows,
            r@.ncols == self@.ncols,
            forall|i: int, j: int| self@.in_shape(i, j) ==> f.ensures((&self@.elem(i, j),), #[trigger] r@.elem(i, j)),
    {
        let n = self.data.len();
        let mut out: Vec<U> = Vec::new();
        let mut k: usize = 0;
        while k < n
            invariant
                self.wf(),
                n == self.data@.len(),
                k <= n,
                out@.len() == k,
                forall|i: int, j: int| self@.in_shape(i, j) ==> #[trigger] f.requires((&self@.elem(i, j),)),
                forall|c: int| 0 <= c < k ==> f.ensures((&self.data@[c],), #[trigger] out@[c]),
            decreases n - k,
        {
            proof {
                lemma_cm_split(k as int, self.nrows as int, self.ncols as int);
                let i = (k as int) % (self.nrows as int);
                let j = (k as int) / (self.nrows as int);
                assert(self@.in_shape(i, j));
                assert(f.requires((&self@.elem(i, j),)));
            }
            let y = f(&self.data[k]);
            out.push(y);
            k += 1;
        }
        let r = Mat { data: out, nrows: self.nrows, ncols: self.ncols };
        assert forall|i: int, j: int| self@.in_shape(i, j) implies f.ensures((&self@.elem(i, j),), #[trigger] r@.elem(i, j)) by {
            lemma_cm_index_bounds(i, j, self.nrows as int, self.ncols as int);
        }
        r
    }

    /// The matrix of `f` applied to the elements of `self` and `other` at
    /// each position; both have the same shape.
    pub(crate) fn zip_cells<U, F: Fn(&T, &T) -> U>(&self, other: &Mat<T>, f: F) -> (r: Mat<U>)
        requires
            self.wf(),
            other.wf(),
            self@.nrows == other@.nrows,
            self@.ncols == other@.ncols,
            forall|i: int, j: int| self@.in_shape(i, j) ==> #[trigger] f.requires((&self@.elem(i, j), &other@.elem(i, j))),
        ensures
            r.wf(),
            r@.nrows == self@.nrows,
            r@.ncols == self@.ncols,
            forall|i: int, j: int| self@.in_shape(i, j) ==> f.ensures((&self@.elem(i, j), &other@.elem(i, j)), #[trigger] r@.elem(i, j)),
    {
        let n = self.data.len();
        let mut out: Vec<U> = Vec::new();
        let mut k: usize = 0;
        while k < n
            invariant
                self.wf(),
                other.wf(),
                self@.nrows == other@.nrows,
                self@.ncols == other@.ncols,
                n == self.data@.len(),
                k <= n,
                out@.len() == k,
                forall|i: int, j: int| self@.in_shape(i, j) ==> #[trigger] f.requires((&self@.elem(i, j), &other@.elem(i, j))),
                forall|c: int| 0 <= c < k ==> f.ensures((&self.data@[c], &other.data@[c]), #[trigger] out@[c]),
            decreases n - k,
        {
            proof {
                lemma_cm_split(k as int, self.nrows as int, self.ncols as int);
                let i = (k as int) % (self.nrows as int);
                let j = (k as int) / (self.nrows as int);
                assert(self@.in_shape(i, j));
                assert(f.requires((&self@.elem(i, j), &other@.elem(i, j))));
            }
            let y = f(&self.data[k], &other.data[k]);
            out.push(y);
            k += 1;
        }
        let r = Mat { data: out, nrows: self.nrows, ncols: self.ncols };
        assert forall|i: int, j: int| self@.in_shape(i, j) implies f.ensures((&self@.elem(i, j), &other@.elem(i, j)), #[trigger] r@.elem(i, j)) by {
            lemma_cm_index_bounds(i, j, self.nrows as int, self.ncols as int);
        }
        r
    }

    /// A shared view of the whole matrix.
    pub fn as_ref(&self) -> (r: MatRef<'_, T>)
        requires
            self.wf(),
        ensures
            r.wf(),
            r.nrows == self@.nrows,
            r.ncols == self@.ncols,
            r.row_stride == 1,
            r.col_stride == self@.nrows,
            r.offset == 0,
            r.data@ == self@.data,
            forall|i: int, j: int| self@.in_shape(i, j) ==> #[trigger] r.elem(i, j) == self@.elem(i, j),
    {
        let r = MatRef {
            data: self.data.as_slice(),
            offset: 0,
            nrows: self.nrows,
            ncols: self.ncols,
            row_stride: 1,
            col_stride: self.nrows as isize,
        };
        proof {
            assert forall|i: int, j: int| r.in_shape(i, j) implies 0 <= #[trigger] r.addr(i, j) < r.data@.len()
                && r.addr(i, j) == cm_index(i, j, self.nrows as int) by {
                lemma_cm_index_bounds(i, j, self.nrows as int, self.ncols as int);
            }
        }
        r
    }
}

impl<T> Mat<T> {
    pub fn shape(&self) -> (r: (usize, usize))
        ensures
            r == (self@.nrows as usize, self@.ncols as usize),
            r.0 == self@.nrows,
            r.1 == self@.ncols,
    {
        (self.nrows, self.ncols)
    }

    /// Number of elements.
    pub fn size(&self) -> (r: usize)
        requires
            self.wf(),
        ensures
            r == self@.nrows * self@.ncols,
    {
        self.nrows * self.ncols
    }

    /// Step between consecutive rows in the buffer: always 1.
    pub fn row_stride(&self) -> (r: isize)
        ensures
            r == 1,
    {
        1
    }

    /// Step between consecutive columns in the buffer: the number of rows.
    pub fn col_stride(&self) -> (r: isize)
        requires
            self.wf(),
        ensures
            r == self@.nrows,
    {
        self.nrows as isize
    }

    /// The column-major buffer.
    pub fn as_slice(&self) -> (r: &[T])
        ensures
            r@ == self@.data,
    {
        self.data.as_slice()
    }

    /// The column-major buffer, writable; the shape stays as it is.
    pub fn as_slice_mut(&mut self) -> (r: &mut [T])
        ensures
            r@ == old(self)@.data,
            final(self)@ == (Grid { data: final(r)@, ..old(self)@ }),
    {
        self.data.as_mut_slice()
    }

    /// Element `(i, j)`, or `None` when the indices are out of range.
    pub fn get(&self, i: usize, j: usize) -> (r: Option<&T>)
        requires
            self.wf(),
        ensures
            r.is_some() == (i < self@.nrows && j < self@.ncols),
            r.is_some() ==> *r.unwrap() == self@.elem(i as int, j as int),
    {
        if i < self.nrows && j < self.ncols {
            proof {
                lemma_cm_index_bounds(i as int, j as int, self.nrows as int, self.ncols as int);
            }
            Some(&self.data[i + j * self.nrows])
        } else {
            None
        }
    }

    /// A writable reference to element `(i, j)`, or `None` when the indices
    /// are out of range.
    pub fn get_mut(&mut self, i: usize, j: usize) -> (r: Option<&mut T>)
        requires
            old(self).wf(),
        ensures
            r.is_some() == (i < old(self)@.nrows && j < old(self)@.ncols),
            r.is_some() ==> *r->Some_0 == old(self)@.elem(i as int, j as int)
                && final(self)@ == (Grid {
                    data: old(self)@.data.update(cm_index(i as int, j as int, old(self)@.nrows as int), *final(r->Some_0)),
                    ..old(self)@
                }),
            r.is_none() ==> final(self)@ == old(self)@,
    {
        if i < self.nrows && j < self.ncols {
            proof {
                lemma_cm_index_bounds(i as int, j as int, self.nrows as int, self.ncols as int);
            }
            let k = i + j * self.nrows;
            Some(&mut self.data[k])
        } else {
            None
        }
    }

    /// Replaces element `(i, j)` with `value`.
    pub fn set(&mut self, i: usize, j: usize, value: T)
        requires
            old(self).wf(),
            i < old(self)@.nrows,
            j < old(self)@.ncols,
        ensures
            final(self).wf(),
            final(self)@.nrows == old(self)@.nrows,
            final(self)@.ncols == old(self)@.ncols,
            forall|a: int, b: int| #[trigger] final(self)@.in_shape(a, b) ==> final(self)@.elem(a, b) == (if a == i && b == j {
                value
            } else {
                old(self)@.elem(a, b)
            }),
    {
        proof {
            lemma_cm_index_bounds(i as int, j as int, self.nrows as int, self.ncols as int);
        }
        let k = i + j * self.nrows;
        let ghost before = self@;
        self.data.set(k, value);
        proof {
            assert forall|a: int, b: int| #[trigger] self@.in_shape(a, b) implies self@.elem(a, b) == (if a == i && b == j {
                value
            } else {
                before.elem(a, b)
            }) by {
                lemma_cm_index_bounds(a, b, self.nrows as int, self.ncols as int);
                if b < j {
                    lemma_cm_index_bounds(a, b, self.nrows as int, j as int);
                } else if b > j {
                    lemma_cm_index_bounds(i as int, j as int, self.nrows as int, b as int);
                }
            }
        }
    }

    /// Grows the buffer's capacity by room for `additional_cols` more
    /// columns; shape and contents stay as they are.
    pub fn reserve(&mut self, additional_cols: usize)
        requires
            additional_cols * old(self)@.nrows <= usize::MAX,
        ensures
            final(self)@ == old(self)@,
    {
        self.data.reserve(additional_cols * self.nrows);
    }
}

impl<T: Copy> Mat<T> {
    /// An `nrows` x `ncols` matrix with every element `value`.
    pub fn full(nrows: usize, ncols: usize, value: T) -> (r: Self)
        requires
            shape_fits(nrows as int, ncols as int),
        ensures
            r.wf(),
            r@.nrows == nrows,
            r@.ncols == ncols,
            forall|i: int, j: int| #[trigger] r@.in_shape(i, j) ==> r@.elem(i, j) == value,
    {
        let cell = |i: usize, j: usize| -> (x: T)
            ensures
                x == value,
        { value };
        Mat::from_fn(nrows, ncols, cell)
    }

    /// Builds a matrix from a row-major buffer of `nrows * ncols` elements.
    pub fn from_vec_row(nrows: usize, ncols: usize, data: Vec<T>) -> (r: Self)
        requires
            shape_fits(nrows as int, ncols as int),
            data@.len() == nrows * ncols,
        ensures
            r.wf(),
            r@.nrows == nrows,
            r@.ncols == ncols,
            forall|i: int, j: int| #[trigger] r@.in_shape(i, j) ==> r@.elem(i, j) == data@[cm_index(j, i, ncols as int)],
    {
        let cell = |i: usize, j: usize| -> (x: T)
            requires
                data@.len() == nrows * ncols,
                i < nrows,
                j < ncols,
            ensures
                x == data@[cm_index(j as int, i as int, ncols as int)],
        {
            proof {
                lemma_cm_index_bounds(j as int, i as int, ncols as int, nrows as int);
            }
            data[i * ncols + j]
        };
        Mat::from_fn(nrows, ncols, cell)
    }

    /// Builds a matrix from equally long rows; no rows gives the 0x0 matrix.
    pub fn from_rows(rows: &[&[T]]) -> (r: Self)
        requires
            rows@.len() > 0 ==> shape_fits(rows@.len() as int, rows@[0]@.len() as int),
            forall|k: int| 0 <= k < rows@.len() ==> #[trigger] rows@[k]@.len() == rows@[0]@.len(),
        ensures
            r.wf(),
            r@.nrows == rows@.len(),
            r@.ncols == (if rows@.len() == 0 { 0 } else { rows@[0]@.len() }),
            forall|i: int, j: int| #[trigger] r@.in_shape(i, j) ==> r@.elem(i, j) == rows@[i]@[j],
    {
        if rows.len() == 0 {
            return Mat::new();
        }
        let ncols = rows[0].len();
        let cell = |i: usize, j: usize| -> (x: T)
            requires
                forall|k: int| 0 <= k < rows@.len() ==> #[trigger] rows@[k]@.len() == rows@[0]@.len(),
                rows@.len() > 0,
                i < rows@.len(),
                j < rows@[0]@.len(),
            ensures
                x == rows@[i as int]@[j as int],
        {
            rows[i][j]
        };
        Mat::from_fn(rows.len(), ncols, cell)
    }

    /// Builds a matrix from equally long columns; no columns gives the 0x0
    /// matrix.
    pub fn from_cols(cols: &[&[T]]) -> (r: Self)
        requires
            cols@.len() > 0 ==> shape_fits(cols@[0]@.len() as int, cols@.len() as int),
            forall|k: int| 0 <= k < cols@.len() ==> #[trigger] cols@[k]@.len() == cols@[0]@.len(),
        ensures
            r.wf(),
            r@.nrows == (if cols@.len() == 0 { 0 } else { cols@[0]@.len() }),
            r@.ncols == cols@.len(),
            forall|i: int, j: int| #[trigger] r@.in_shape(i, j) ==> r@.elem(i, j) == cols@[j]@[i],
    {
        if cols.len() == 0 {
            return Mat::new();
        }
        let nrows = cols[0].len();
        let cell = |i: usize, j: usize| -> (x: T)
            requires
                forall|k: int| 0 <= k < cols@.len() ==> #[trigger] cols@[k]@.len() == cols@[0]@.len(),
                cols@.len() > 0,
                i < cols@[0]@.len(),
                j < cols@.len(),
            ensures
                x == cols@[j as int]@[i as int],
        {
            cols[j][i]
        };
        Mat::from_fn(nrows, cols.len(), cell)
    }

    /// Builds a matrix from equally long nested rows; no rows gives the 0x0
    /// matrix.
    pub fn from_nested_vec(rows: Vec<Vec<T>>) -> (r: Self)
        requires
            rows@.len() > 0 ==> shape_fits(rows@.len() as int, rows@[0]@.len() as int),
            forall|k: int| 0 <= k < rows@.len() ==> #[trigger] rows@[k]@.len() == rows@[0]@.len(),
        ensures
            r.wf(),
            r@.nrows == rows@.len(),
            r@.ncols == (if rows@.len() == 0 { 0 } else { rows@[0]@.len() }),
            forall|i: int, j: int| #[trigger] r@.in_shape(i, j) ==> r@.elem(i, j) == rows@[i]@[j],
    {
        if rows.len() == 0 {
            return Mat::new();
        }
        let ncols = rows[0].len();
        let cell = |i: usize, j: usize| -> (x: T)
            requires
                forall|k: int| 0 <= k < rows@.len() ==> #[trigger] rows@[k]@.len() == rows@[0]@.len(),
                rows@.len() > 0,
                i < rows@.len(),
                j < rows@[0]@.len(),
            ensures
                x == rows@[i as int]@[j as int],
        {
            rows[i][j]
        };
        Mat::from_fn(rows.len(), ncols, cell)
    }

    /// Sets every element to `value`.
    pub fn fill(&mut self, value: T)
        requires
            old(self).wf(),
        ensures
            final(self).wf(),
            final(self)@.nrows == old(self)@.nrows,
            final(self)@.ncols == old(self)@.ncols,
            forall|i: int, j: int| #[trigger] final(self)@.in_shape(i, j) ==> final(self)@.elem(i, j) == value,
    {
        let n = self.data.len();
        let mut k: usize = 0;
        while k < n
            invariant
                self.wf(),
                self@.nrows == old(self)@.nrows,
                self@.ncols == old(self)@.ncols,
                n == self.data@.len(),
                k <= n,
                forall|c: int| 0 <= c < k ==> #[trigger] self.data@[c] == value,
            decreases n - k,
        {
            self.data.set(k, value);
            k += 1;
        }
        proof {
            assert forall|i: int, j: int| #[trigger] self@.in_shape(i, j) implies self@.elem(i, j) == value by {
                lemma_cm_index_bounds(i, j, self.nrows as int, self.ncols as int);
            }
        }
    }

    /// Sets element `(i, j)` to `f(i, j)` at every position.
    pub fn fill_with_fn<F: Fn(usize, usize) -> T>(&mut self, f: F)
        requires
            old(self).wf(),
            forall|i: usize, j: usize| i < old(self)@.nrows && j < old(self)@.ncols ==> #[trigger] f.requires((i, j)),
        ensures
            final(self).wf(),
            final(self)@.nrows == old(self)@.nrows,
            final(self)@.ncols == old(self)@.ncols,
            forall|i: int, j: int| #[trigger] final(self)@.in_shape(i, j) ==> f.ensures((i as usize, j as usize), final(self)@.elem(i, j)),
    {
        *self = Mat::from_fn(self.nrows, self.ncols, f);
    }

    /// Overwrites every element with the one at the same position of `src`,
    /// which has the same shape.
    pub fn copy_from(&mut self, src: MatRef<'_, T>)
        requires
            old(self).wf(),
            src.wf(),
            src.nrows == old(self)@.nrows,
            src.ncols == old(self)@.ncols,
        ensures
            final(self).wf(),
            src.matches(final(self)@),
    {
        *self = src.to_owned();
    }

    /// Exchanges rows `i1` and `i2`.
    pub fn swap_rows(&mut self, i1: usize, i2: usize)
        requires
            old(self).wf(),
            i1 < old(self)@.nrows,
            i2 < old(self)@.nrows,
        ensures
            final(self).wf(),
            final(self)@.nrows == old(self)@.nrows,
            final(self)@.ncols == old(self)@.ncols,
            forall|a: int, b: int| #[trigger] final(self)@.in_shape(a, b) ==> final(self)@.elem(a, b) == old(self)@.elem(
                if a == i1 { i2 as int } else if a == i2 { i1 as int } else { a },
                b,
            ),
    {
        let src = self.as_ref();
        let cell = |a: usize, b: usize| -> (x: T)
            requires
                src.wf(),
                i1 < src.nrows,
                i2 < src.nrows,
                a < src.nrows,
                b < src.ncols,
            ensures
                x == src.elem(if a == i1 { i2 as int } else if a == i2 { i1 as int } else { a as int }, b as int),
        {
            if a == i1 {
                *src.at(i2, b)
            } else if a == i2 {
                *src.at(i1, b)
            } else {
                *src.at(a, b)
            }
        };
        let r = Mat::from_fn(self.nrows, self.ncols, cell);
        *self = r;
    }

    /// Exchanges columns `j1` and `j2`.
    pub fn swap_cols(&mut self, j1: usize, j2: usize)
        requires
            old(self).wf(),
            j1 < old(self)@.ncols,
            j2 < old(self)@.ncols,
        ensures
            final(self).wf(),
            final(self)@.nrows == old(self)@.nrows,
            final(self)@.ncols == old(self)@.ncols,
            forall|a: int, b: int| #[trigger] final(self)@.in_shape(a, b) ==> final(self)@.elem(a, b) == old(self)@.elem(
                a,
                if b == j1 { j2 as int } else if b == j2 { j1 as int } else { b },
            ),
    {
        let src = self.as_ref();
        let cell = |a: usize, b: usize| -> (x: T)
            requires
                src.wf(),
                j1 < src.ncols,
                j2 < src.ncols,
                a < src.nrows,
                b < src.ncols,
            ensures
                x == src.elem(a as int, if b == j1 { j2 as int } else if b == j2 { j1 as int } else { b as int }),
        {
            if b == j1 {
                *src.at(a, j2)
            } else if b == j2 {
                *src.at(a, j1)
            } else {
                *src.at(a, b)
            }
        };
        let r = Mat::from_fn(self.nrows, self.ncols, cell);
        *self = r;
    }

    /// Changes the shape to `nrows` x `ncols`, keeping the elements of the
    /// overlapping top-left region in place and setting every new element
    /// to `fill_value`.
    pub fn resize(&mut self, nrows: usize, ncols: usize, fill_value: T)
        requires
            old(self).wf(),
            shape_fits(nrows as int, ncols as int),
        ensures
            final(self).wf(),
            final(self)@.nrows == nrows,
            final(self)@.ncols == ncols,
            forall|i: int, j: int| #[trigger] final(self)@.in_shape(i, j) ==> final(self)@.elem(i, j) == (if old(self)@.in_shape(i, j) {
                old(self)@.elem(i, j)
            } else {
                fill_value
            }),
    {
        let src = self.as_ref();
        let cell = |a: usize, b: usize| -> (x: T)
            requires
                src.wf(),
            ensures
                x == (if src.in_shape(a as int, b as int) { src.elem(a as int, b as int) } else { fill_value }),
        {
            if a < src.nrows && b < src.ncols {
                *src.at(a, b)
            } else {
                fill_value
            }
        };
        let r = Mat::from_fn(nrows, ncols, cell);
        *self = r;
    }

    /// Shrinks the shape to `nrows` x `ncols`, keeping the top-left region.
    pub fn truncate(&mut self, nrows: usize, ncols: usize)
        requires
            old(self).wf(),
            nrows <= old(self)@.nrows,
            ncols <= old(self)@.ncols,
        ensures
            final(self).wf(),
            final(self)@.nrows == nrows,
            final(self)@.ncols == ncols,
            forall|i: int, j: int| #[trigger] final(self)@.in_shape(i, j) ==> final(self)@.elem(i, j) == old(self)@.elem(i, j),
    {
        if nrows == self.nrows && ncols == self.ncols {
            return;
        }
        let src = self.as_ref();
        let cell = |a: usize, b: usize| -> (x: T)
            requires
                src.wf(),
                a < nrows,
                b < ncols,
                nrows <= src.nrows,
                ncols <= src.ncols,
            ensures
                x == src.elem(a as int, b as int),
        {
            *src.at(a, b)
        };
        proof {
            assert(nrows * ncols <= self.nrows * self.ncols) by (nonlinear_arith)
                requires
                    nrows <= self.nrows,
                    ncols <= self.ncols,
            ;
        }
        let r = Mat::from_fn(nrows, ncols, cell);
        *self = r;
    }
}

impl<T: Scalar> Mat<T> {
    /// The `nrows` x `ncols` matrix of zeros.
    pub fn zeros(nrows: usize, ncols: usize) -> (r: Self)
        requires
            shape_fits(nrows as int, ncols as int),
        ensures
            r.wf(),
            r@.nrows == nrows,
            r@.ncols == ncols,
            forall|i: int, j: int| #[trigger] r@.in_shape(i, j) ==> r@.elem(i, j) == T::zero_spec(),
    {
        Mat::full(nrows, ncols, T::zero())
    }

    /// The `nrows` x `ncols` matrix of ones.
    pub fn ones(nrows: usize, ncols: usize) -> (r: Self)
        requires
            shape_fits(nrows as int, ncols as int),
        ensures
            r.wf(),
            r@.nrows == nrows,
            r@.ncols == ncols,
            forall|i: int, j: int| #[trigger] r@.in_shape(i, j) ==> r@.elem(i, j) == T::one_spec(),
    {
        Mat::full(nrows, ncols, T::one())
    }

    /// The `n` x `n` identity matrix.
    pub fn identity(n: usize) -> (r: Self)
        requires
            shape_fits(n as int, n as int),
        ensures
            r.wf(),
            r@.nrows == n,
            r@.ncols == n,
            forall|i: int, j: int| #[trigger] r@.in_shape(i, j) ==> r@.elem(i, j) == (if i == j {
                T::one_spec()
            } else {
                T::zero_spec()
            }),
    {
        Mat::eye(n, n, 0)
    }

    /// Ones on the diagonal `j - i == k` (above the main one for `k > 0`,
    /// below it for `k < 0`) and zeros elsewhere.
    pub fn eye(nrows: usize, ncols: usize, k: isize) -> (r: Self)
        requires
            shape_fits(nrows as int, ncols as int),
        ensures
            r.wf(),
            r@.nrows == nrows,
            r@.ncols == ncols,
            forall|i: int, j: int| #[trigger] r@.in_shape(i, j) ==> r@.elem(i, j) == (if j - i == k {
                T::one_spec()
            } else {
                T::zero_spec()
            }),
    {
        let z = T::zero();
        let o = T::one();
        let cell = |i: usize, j: usize| -> (x: T)
            requires
                i < nrows,
                j < ncols,
                shape_fits(nrows as int, ncols as int),
            ensures
                x == (if j - i == k { o } else { z }),
        {
            if (j as isize) - (i as isize) == k {
                o
            } else {
                z
            }
        };
        Mat::from_fn(nrows, ncols, cell)
    }

    /// The square matrix with `values` on its diagonal and zeros elsewhere.
    pub fn diag(values: &[T]) -> (r: Self)
        requires
            shape_fits(values@.len() as int, values@.len() as int),
        ensures
            r.wf(),
            r@.nrows == values@.len(),
            r@.ncols == values@.len(),
            forall|i: int, j: int| #[trigger] r@.in_shape(i, j) ==> r@.elem(i, j) == (if i == j {
                values@[i]
            } else {
                T::zero_spec()
            }),
    {
        let z = T::zero();
        let cell = |i: usize, j: usize| -> (x: T)
            requires
                i < values@.len(),
                j < values@.len(),
            ensures
                x == (if i == j { values@[i as int] } else { z }),
        {
            if i == j {
                values[i]
            } else {
                z
            }
        };
        Mat::from_fn(values.len(), values.len(), cell)
    }
}

impl<T: PartialEq> PartialEq for Mat<T> {
    fn eq(&self, other: &Self) -> (r: bool) {
        if self.nrows != other.nrows || self.ncols != other.ncols || self.data.len() != other.data.len() {
            return false;
        }
        let n = self.data.len();
        let mut k: usize = 0;
        while k < n
            invariant
                n == self.data@.len(),
                n == other.data@.len(),
                k <= n,
                T::obeys_eq_spec() ==> forall|c: int| 0 <= c < k ==> #[trigger] self.data@[c].eq_spec(&other.data@[c]),
            decreases n - k,
        {
            if !self.data[k].eq(&other.data[k]) {
                return false;
            }
            k += 1;
        }
        true
    }
}

impl<T: PartialEq> vstd::std_specs::cmp::PartialEqSpecImpl for Mat<T> {
    open spec fn obeys_eq_spec() -> bool {
        T::obeys_eq_spec()
    }

    /// Same shape and `==` elements at every position of the buffer.
    open spec fn eq_spec(&self, other: &Mat<T>) -> bool {
        &&& self@.nrows == other@.nrows
        &&& self@.ncols == other@.ncols
        &&& self@.data.len() == other@.data.len()
        &&& forall|c: int| 0 <= c < self@.data.len() ==> #[trigger] self@.data[c].eq_spec(&other@.data[c])
    }
}

impl<T> Mat<T> {
    /// `(i, j)` is in the shape and its column-major index lies in the
    /// buffer.
    pub open spec fn readable(&self, i: int, j: int) -> bool {
        self@.in_shape(i, j) && cm_index(i, j, self@.nrows as int) < self@.data.len()
    }
}

impl<'a, T: PartialEq> PartialEq<MatRef<'a, T>> for Mat<T> {
    fn eq(&self, other: &MatRef<'a, T>) -> (r: bool) {
        if self.nrows != other.nrows || self.ncols != other.ncols {
            return false;
        }
        let b = *other;
        let cell = |i: usize, j: usize| -> (x: bool)
            ensures
                T::obeys_eq_spec() ==> x == (self.readable(i as int, j as int) && b.readable(i as int, j as int)
                    && self@.elem(i as int, j as int).eq_spec(&b.elem(i as int, j as int))),
        {
            let len = self.data.len();
            if i >= self.nrows || j >= self.ncols {
                return false;
            }
            let k = match j.checked_mul(self.nrows) {
                Some(p) => match p.checked_add(i) {
                    Some(k) => k,
                    None => return false,
                },
                None => return false,
            };
            if k >= len {
                return false;
            }
            match b.try_get(i, j) {
                Some(y) => self.data[k].eq(y),
                None => false,
            }
        };
        let r = all_cells(self.nrows, self.ncols, cell);
        proof {
            if T::obeys_eq_spec() {
                if r {
                    assert forall|i: int, j: int| #[trigger] self@.in_shape(i, j) implies self.readable(i, j) && b.readable(i, j)
                        && self@.elem(i, j).eq_spec(&b.elem(i, j)) by {
                        assert(cell.ensures((i as usize, j as usize), true));
                    }
                } else {
                    let (i, j) = choose|i: usize, j: usize| i < self.nrows && j < self.ncols && #[trigger] cell.ensures((i, j), false);
                    assert(self@.in_shape(i as int, j as int));
                }
            }
        }
        r
    }
}

impl<'a, T: PartialEq> vstd::std_specs::cmp::PartialEqSpecImpl<MatRef<'a, T>> for Mat<T> {
    open spec fn obeys_eq_spec() -> bool {
        T::obeys_eq_spec()
    }

    /// Same shape, and at every position both elements are readable and `==`.
    open spec fn eq_spec(&self, other: &MatRef<'a, T>) -> bool {
        &&& self@.nrows == other.nrows
        &&& self@.ncols == other.ncols
        &&& forall|i: int, j: int| #[trigger] self@.in_shape(i, j) ==> self.readable(i, j) && other.readable(i, j)
            && self@.elem(i, j).eq_spec(&other.elem(i, j))
    }
}

impl<'a, T: PartialEq> PartialEq<Mat<T>> for MatRef<'a, T> {
    fn eq(&self, other: &Mat<T>) -> (r: bool) {
        other.eq(self)
    }
}

impl<'a, T: PartialEq> vstd::std_specs::cmp::PartialEqSpecImpl<Mat<T>> for MatRef<'a, T> {
    open spec fn obeys_eq_spec() -> bool {
        T::obeys_eq_spec()
    }

    /// The comparison of `other` with `self`, read the other way round.
    open spec fn eq_spec(&self, other: &Mat<T>) -> bool {
        <Mat<T> as PartialEqSpec<MatRef<'a, T>>>::eq_spec(other, self)
    }
}

impl<T> core::ops::Index<(usize, usize)> for Mat<T> {
    type Output = T;

    fn index(&self, idx: (usize, usize)) -> (r: &T)
        ensures
            *r == self@.elem(idx.0 as int, idx.1 as int),
    {
        proof {
            lemma_cm_index_bounds(idx.0 as int, idx.1 as int, self.nrows as int, self.ncols as int);
        }
        &self.data[idx.0 + idx.1 * self.nrows]
    }
}

impl<T> vstd::std_specs::core::IndexSpecImpl<(usize, usize)> for Mat<T> {
    open spec fn index_req(&self, idx: &(usize, usize)) -> bool {
        self.wf() && idx.0 < self@.nrows && idx.1 < self@.ncols
    }
}

impl<T> Default for Mat<T> {
    fn default() -> (r: Self)
        ensures
            r.wf(),
            r@.nrows == 0,
            r@.ncols == 0,
    {
        Mat::new()
    }
}

impl<T: Copy> Clone for Mat<T> {
    fn clone(&self) -> (r: Self)
        ensures
            r@ == self@,
    {
        let n = self.data.len();
        let mut data: Vec<T> = Vec::new();
        let mut k: usize = 0;
        while k < n
            invariant
                n == self.data@.len(),
                k <= n,
                data@ == self.data@.take(k as int),
            decreases n - k,
        {
            data.push(self.data[k]);
            k += 1;
            assert(data@ =~= self.data@.take(k as int));
        }
        assert(data@ =~= self.data@);
        Mat { data, nrows: self.nrows, ncols: self.ncols }
    }
}

impl<T> Mat<T> {
    pub fn is_empty(&self) -> (r: bool)
        ensures
            r == (self@.nrows == 0 || self@.ncols == 0),
    {
        self.nrows == 0 || self.ncols == 0
    }

    pub fn is_square(&self) -> (r: bool)
        ensures
            r == (self@.nrows == self@.ncols),
    {
        self.nrows == self.ncols
    }

    pub fn is_row_vector(&self) -> (r: bool)
        ensures
            r == (self@.nrows == 1),
    {
        self.nrows == 1
    }

    pub fn is_col_vector(&self) -> (r: bool)
        ensures
            r == (self@.ncols == 1),
    {
        self.ncols == 1
    }

    pub fn is_scalar(&self) -> (r: bool)
        ensures
            r == (self@.nrows == 1 && self@.ncols == 1),
    {
        self.nrows == 1 && self.ncols == 1
    }

    /// Row `i` as a 1 x ncols view.
    pub fn row(&self, i: usize) -> (r: MatRef<'_, T>)
        requires
            self.wf(),
            i < self@.nrows,
        ensures
            r.wf(),
            r.nrows == 1,
            r.ncols == self@.ncols,
            forall|j: int| 0 <= j < self@.ncols ==> #[trigger] r.elem(0, j) == self@.elem(i as int, j),
    {
        self.as_ref().row(i)
    }

    /// Column `j` as an nrows x 1 view.
    pub fn col(&self, j: usize) -> (r: MatRef<'_, T>)
        requires
            self.wf(),
            j < self@.ncols,
        ensures
            r.wf(),
            r.nrows == self@.nrows,
            r.ncols == 1,
            forall|i: int| 0 <= i < self@.nrows ==> #[trigger] r.elem(i, 0) == self@.elem(i, j as int),
    {
        self.as_ref().col(j)
    }

    /// The main diagonal as a min(nrows, ncols) x 1 view.
    pub fn diagonal(&self) -> (r: MatRef<'_, T>)
        requires
            self.wf(),
        ensures
            r.wf(),
            r.nrows == (if self@.nrows <= self@.ncols { self@.nrows } else { self@.ncols }),
            r.ncols == 1,
            forall|k: int| 0 <= k < r.nrows ==> #[trigger] r.elem(k, 0) == self@.elem(k, k),
    {
        self.as_ref().diagonal()
    }

    /// The `nrows` x `ncols` window with top-left corner `(row_start, col_start)`.
    pub fn submatrix(&self, row_start: usize, col_start: usize, nrows: usize, ncols: usize) -> (r: MatRef<'_, T>)
        requires
            self.wf(),
            row_start + nrows <= self@.nrows,
            col_start + ncols <= self@.ncols,
        ensures
            r.wf(),
            r.nrows == nrows,
            r.ncols == ncols,
            forall|i: int, j: int| r.in_shape(i, j) ==> #[trigger] r.elem(i, j) == self@.elem(row_start + i, col_start + j),
    {
        self.as_ref().submatrix(row_start, col_start, nrows, ncols)
    }

    /// Rows `start..end`.
    pub fn rows_range(&self, range: core::ops::Range<usize>) -> (r: MatRef<'_, T>)
        requires
            self.wf(),
            range.start <= range.end,
            range.end <= self@.nrows,
        ensures
            r.wf(),
            r.nrows == range.end - range.start,
            r.ncols == self@.ncols,
            forall|i: int, j: int| r.in_shape(i, j) ==> #[trigger] r.elem(i, j) == self@.elem(range.start + i, j),
    {
        self.as_ref().rows_range(range)
    }

    /// Columns `start..end`.
    pub fn cols_range(&self, range: core::ops::Range<usize>) -> (r: MatRef<'_, T>)
        requires
            self.wf(),
            range.start <= range.end,
            range.end <= self@.ncols,
        ensures
            r.wf(),
            r.nrows == self@.nrows,
            r.ncols == range.end - range.start,
            forall|i: int, j: int| r.in_shape(i, j) ==> #[trigger] r.elem(i, j) == self@.elem(i, range.start + j),
    {
        self.as_ref().cols_range(range)
    }

    /// Rows `0..i` and rows `i..nrows`.
    pub fn split_at_row(&self, i: usize) -> (r: (MatRef<'_, T>, MatRef<'_, T>))
        requires
            self.wf(),
            i <= self@.nrows,
        ensures
            r.0.wf(),
            r.1.wf(),
            r.0.nrows == i,
            r.1.nrows == self@.nrows - i,
            r.0.ncols == self@.ncols,
            r.1.ncols == self@.ncols,
            forall|a: int, b: int| r.0.in_shape(a, b) ==> #[trigger] r.0.elem(a, b) == self@.elem(a, b),
            forall|a: int, b: int| r.1.in_shape(a, b) ==> #[trigger] r.1.elem(a, b) == self@.elem(i + a, b),
    {
        self.as_ref().split_at_row(i)
    }

    /// Columns `0..j` and columns `j..ncols`.
    pub fn split_at_col(&self, j: usize) -> (r: (MatRef<'_, T>, MatRef<'_, T>))
        requires
            self.wf(),
            j <= self@.ncols,
        ensures
            r.0.wf(),
            r.1.wf(),
            r.0.nrows == self@.nrows,
            r.1.nrows == self@.nrows,
            r.0.ncols == j,
            r.1.ncols == self@.ncols - j,
            forall|a: int, b: int| r.0.in_shape(a, b) ==> #[trigger] r.0.elem(a, b) == self@.elem(a, b),
            forall|a: int, b: int| r.1.in_shape(a, b) ==> #[trigger] r.1.elem(a, b) == self@.elem(a, j + b),
    {
        self.as_ref().split_at_col(j)
    }

    /// The transposed view; no element moves.
    pub fn transpose(&self) -> (r: MatRef<'_, T>)
        requires
            self.wf(),
        ensures
            r.wf(),
            r.nrows == self@.ncols,
            r.ncols == self@.nrows,
            forall|i: int, j: int| r.in_shape(i, j) ==> #[trigger] r.elem(i, j) == self@.elem(j, i),
    {
        self.as_ref().transpose()
    }

    /// The view with the row order reversed.
    pub fn reverse_rows(&self) -> (r: MatRef<'_, T>)
        requires
            self.wf(),
        ensures
            r.wf(),
            r.nrows == self@.nrows,
            r.ncols == self@.ncols,
            forall|i: int, j: int| r.in_shape(i, j) ==> #[trigger] r.elem(i, j) == self@.elem(self@.nrows - 1 - i, j),
    {
        self.as_ref().reverse_rows()
    }

    /// The view with the column order reversed.
    pub fn reverse_cols(&self) -> (r: MatRef<'_, T>)
        requires
            self.wf(),
        ensures
            r.wf(),
            r.nrows == self@.nrows,
            r.ncols == self@.ncols,
            forall|i: int, j: int| r.in_shape(i, j) ==> #[trigger] r.elem(i, j) == self@.elem(i, self@.ncols - 1 - j),
    {
        self.as_ref().reverse_cols()
    }

    /// The column views, left to right.
    pub fn col_iter(&self) -> (r: Vec<MatRef<'_, T>>)
        requires
            self.wf(),
        ensures
            r@.len() == self@.ncols,
            forall|k: int| 0 <= k < self@.ncols ==> (#[trigger] r@[k]).wf() && r@[k].nrows == self@.nrows && r@[k].ncols == 1
                && forall|i: int| 0 <= i < self@.nrows ==> #[trigger] r@[k].elem(i, 0) == self@.elem(i, k),
    {
        let v = self.as_ref();
        let r = v.col_iter();
        proof {
            assert forall|k: int| 0 <= k < self@.ncols implies (#[trigger] r@[k]).wf() && r@[k].nrows == self@.nrows && r@[k].ncols == 1
                && forall|i: int| 0 <= i < self@.nrows ==> #[trigger] r@[k].elem(i, 0) == self@.elem(i, k) by {
                v.lemma_window(0, k, self@.nrows as int, 1);
                assert forall|i: int| 0 <= i < self@.nrows implies #[trigger] r@[k].elem(i, 0) == self@.elem(i, k) by {
                    assert(v.in_shape(i, k));
                }
            }
        }
        r
    }

    /// The row views, top to bottom.
    pub fn row_iter(&self) -> (r: Vec<MatRef<'_, T>>)
        requires
            self.wf(),
        ensures
            r@.len() == self@.nrows,
            forall|k: int| 0 <= k < self@.nrows ==> (#[trigger] r@[k]).wf() && r@[k].nrows == 1 && r@[k].ncols == self@.ncols
                && forall|j: int| 0 <= j < self@.ncols ==> #[trigger] r@[k].elem(0, j) == self@.elem(k, j),
    {
        let v = self.as_ref();
        let r = v.row_iter();
        proof {
            assert forall|k: int| 0 <= k < self@.nrows implies (#[trigger] r@[k]).wf() && r@[k].nrows == 1 && r@[k].ncols == self@.ncols
                && forall|j: int| 0 <= j < self@.ncols ==> #[trigger] r@[k].elem(0, j) == self@.elem(k, j) by {
                v.lemma_window(k, 0, 1, self@.ncols as int);
                assert forall|j: int| 0 <= j < self@.ncols implies #[trigger] r@[k].elem(0, j) == self@.elem(k, j) by {
                    assert(v.in_shape(k, j));
                }
            }
        }
        r
    }

    /// References to the diagonal elements, in order.
    pub fn diag_iter(&self) -> (r: Vec<&T>)
        requires
            self.wf(),
        ensures
            r@.len() == (if self@.nrows <= self@.ncols { self@.nrows } else { self@.ncols }),
            forall|k: int| 0 <= k < r@.len() ==> *#[trigger] r@[k] == self@.elem(k, k),
    {
        self.as_ref().diag_iter()
    }

    /// Every position with its element, in row-major order.
    pub fn enumerate(&self) -> (r: Vec<((usize, usize), &T)>)
        requires
            self.wf(),
        ensures
            r@.len() == self@.nrows * self@.ncols,
            forall|i: int, j: int|
                self@.in_shape(i, j) ==> (#[trigger] r@[cm_index(j, i, self@.ncols as int)]).0 == (i as usize, j as usize)
                    && *r@[cm_index(j, i, self@.ncols as int)].1 == self@.elem(i, j),
    {
        self.as_ref().enumerate()
    }
}

impl<T: Copy> Mat<T> {
    /// The matrix of `f` applied to the elements of `self` and `other` at
    /// each position; both have the same shape, or the call is refused.
    pub fn zip_map<U, F: Fn(&T, &T) -> U>(&self, other: MatRef<'_, T>, f: F) -> (r: Mat<U>)
        requires
            self.wf(),
            other.wf(),
            self@.nrows == other.nrows,
            self@.ncols == other.ncols,
            forall|i: int, j: int| self@.in_shape(i, j) ==> #[trigger] f.requires((&self@.elem(i, j), &other.elem(i, j))),
        ensures
            r.wf(),
            r@.nrows == self@.nrows,
            r@.ncols == self@.ncols,
            forall|i: int, j: int| self@.in_shape(i, j) ==> f.ensures((&self@.elem(i, j), &other.elem(i, j)), #[trigger] r@.elem(i, j)),
    {
        let v = self.as_ref();
        proof {
            assert forall|i: int, j: int| v.in_shape(i, j) implies #[trigger] f.requires((&v.elem(i, j), &other.elem(i, j))) by {
                assert(self@.in_shape(i, j));
            }
        }
        let r = v.zip_map(other, f);
        proof {
            assert forall|i: int, j: int| self@.in_shape(i, j) implies f.ensures((&self@.elem(i, j), &other.elem(i, j)), #[trigger] r@.elem(i, j)) by {
                assert(v.in_shape(i, j));
            }
        }
        r
    }

    /// The rows listed in `indices`, in that order.
    pub fn take_rows(&self, indices: &[usize]) -> (r: Mat<T>)
        requires
            self.wf(),
            shape_fits(indices@.len() as int, self@.ncols as int),
            forall|k: int| 0 <= k < indices@.len() ==> #[trigger] indices@[k] < self@.nrows,
        ensures
            r.wf(),
            r@.nrows == indices@.len(),
            r@.ncols == self@.ncols,
            forall|i: int, j: int| r@.in_shape(i, j) ==> #[trigger] r@.elem(i, j) == self@.elem(indices@[i] as int, j),
    {
        self.as_ref().take_rows(indices)
    }

    /// The columns listed in `indices`, in that order.
    pub fn take_cols(&self, indices: &[usize]) -> (r: Mat<T>)
        requires
            self.wf(),
            shape_fits(self@.nrows as int, indices@.len() as int),
            forall|k: int| 0 <= k < indices@.len() ==> #[trigger] indices@[k] < self@.ncols,
        ensures
            r.wf(),
            r@.nrows == self@.nrows,
            r@.ncols == indices@.len(),
            forall|i: int, j: int| r@.in_shape(i, j) ==> #[trigger] r@.elem(i, j) == self@.elem(i, indices@[j] as int),
    {
        self.as_ref().take_cols(indices)
    }

    /// A fresh `nrows` x `ncols` matrix over the same column-major buffer
    /// contents.
    pub fn reshape(&self, nrows: usize, ncols: usize) -> (r: Mat<T>)
        requires
            self.wf(),
            shape_fits(nrows as int, ncols as int),
            nrows * ncols == self@.nrows * self@.ncols,
        ensures
            r.wf(),
            r@.nrows == nrows,
            r@.ncols == ncols,
            r@.data == self@.data,
    {
        let v = self.as_ref();
        let r = v.reshape(nrows, ncols);
        proof {
            assert forall|k: int| 0 <= k < r@.data.len() implies #[trigger] r@.data[k] == self@.data[k] by {
                lemma_cm_split(k, nrows as int, ncols as int);
                let i = k % (nrows as int);
                let j = k / (nrows as int);
                assert(r@.in_shape(i, j));
                assert(r@.elem(i, j) == r@.data[k]);
                assert(r@.elem(i, j) == v.cm_elem(k));
                lemma_cm_split(k, self@.nrows as int, self@.ncols as int);
                let a = k % (self@.nrows as int);
                let b = k / (self@.nrows as int);
                assert(v.in_shape(a, b));
                assert(v.elem(a, b) == self@.elem(a, b));
                assert(self@.elem(a, b) == self@.data[k]);
            }
            assert(r@.data =~= self@.data);
        }
        r
    }

    /// The elements as one column, in column-major order.
    pub fn flatten(&self) -> (r: Mat<T>)
        requires
            self.wf(),
        ensures
            r.wf(),
            r@.nrows == self@.nrows * self@.ncols,
            r@.ncols == 1,
            r@.data == self@.data,
    {
        self.reshape(self.nrows * self.ncols, 1)
    }

    /// The elements as one row, in column-major order.
    pub fn flatten_row(&self) -> (r: Mat<T>)
        requires
            self.wf(),
        ensures
            r.wf(),
            r@.nrows == 1,
            r@.ncols == self@.nrows * self@.ncols,
            r@.data == self@.data,
    {
        self.reshape(1, self.nrows * self.ncols)
    }

    /// Same as `flatten`.
    pub fn to_col_vector(&self) -> (r: Mat<T>)
        requires
            self.wf(),
        ensures
            r.wf(),
            r@.nrows == self@.nrows * self@.ncols,
            r@.ncols == 1,
            r@.data == self@.data,
    {
        self.flatten()
    }

    /// Same as `flatten_row`.
    pub fn to_row_vector(&self) -> (r: Mat<T>)
        requires
            self.wf(),
        ensures
            r.wf(),
            r@.nrows == 1,
            r@.ncols == self@.nrows * self@.ncols,
            r@.data == self@.data,
    {
        self.flatten_row()
    }

    /// A copy with `row` inserted so that it becomes row `i`.
    pub fn insert_row(&self, i: usize, row: &[T]) -> (r: Mat<T>)
        requires
            self.wf(),
            i <= self@.nrows,
            row@.len() == self@.ncols,
            shape_fits(self@.nrows + 1 as int, self@.ncols as int),
        ensures
            r.wf(),
            r@.nrows == self@.nrows + 1,
            r@.ncols == self@.ncols,
            forall|a: int, b: int| #[trigger] r@.in_shape(a, b) ==> r@.elem(a, b) == (if a < i {
                self@.elem(a, b)
            } else if a == i {
                row@[b]
            } else {
                self@.elem(a - 1, b)
            }),
    {
        self.as_ref().insert_row(i, row)
    }

    /// A copy with `col` inserted so that it becomes column `j`.
    pub fn insert_col(&self, j: usize, col: &[T]) -> (r: Mat<T>)
        requires
            self.wf(),
            j <= self@.ncols,
            col@.len() == self@.nrows,
            shape_fits(self@.nrows as int, self@.ncols + 1 as int),
        ensures
            r.wf(),
            r@.nrows == self@.nrows,
            r@.ncols == self@.ncols + 1,
            forall|a: int, b: int| #[trigger] r@.in_shape(a, b) ==> r@.elem(a, b) == (if b < j {
                self@.elem(a, b)
            } else if b == j {
                col@[a]
            } else {
                self@.elem(a, b - 1)
            }),
    {
        self.as_ref().insert_col(j, col)
    }

    /// A copy without row `i`.
    pub fn remove_row(&self, i: usize) -> (r: Mat<T>)
        requires
            self.wf(),
            i < self@.nrows,
        ensures
            r.wf(),
            r@.nrows == self@.nrows - 1,
            r@.ncols == self@.ncols,
            forall|a: int, b: int| #[trigger] r@.in_shape(a, b) ==> r@.elem(a, b) == (if a < i {
                self@.elem(a, b)
            } else {
                self@.elem(a + 1, b)
            }),
    {
        self.as_ref().remove_row(i)
    }

    /// A copy without column `j`.
    pub fn remove_col(&self, j: usize) -> (r: Mat<T>)
        requires
            self.wf(),
            j < self@.ncols,
        ensures
            r.wf(),
            r@.nrows == self@.nrows,
            r@.ncols == self@.ncols - 1,
            forall|a: int, b: int| #[trigger] r@.in_shape(a, b) ==> r@.elem(a, b) == (if b < j {
                self@.elem(a, b)
            } else {
                self@.elem(a, b + 1)
            }),
    {
        self.as_ref().remove_col(j)
    }

    /// A copy with `row` added below the last row.
    pub fn append_row(&self, row: &[T]) -> (r: Mat<T>)
        requires
            self.wf(),
            row@.len() == self@.ncols,
            shape_fits(self@.nrows + 1 as int, self@.ncols as int),
        ensures
            r.wf(),
            r@.nrows == self@.nrows + 1,
            r@.ncols == self@.ncols,
            forall|a: int, b: int| #[trigger] r@.in_shape(a, b) ==> r@.elem(a, b) == (if a < self@.nrows {
                self@.elem(a, b)
            } else {
                row@[b]
            }),
    {
        self.as_ref().append_row(row)
    }

    /// A copy with `col` added after the last column.
    pub fn append_col(&self, col: &[T]) -> (r: Mat<T>)
        requires
            self.wf(),
            col@.len() == self@.nrows,
            shape_fits(self@.nrows as int, self@.ncols + 1 as int),
        ensures
            r.wf(),
            r@.nrows == self@.nrows,
            r@.ncols == self@.ncols + 1,
            forall|a: int, b: int| #[trigger] r@.in_shape(a, b) ==> r@.elem(a, b) == (if b < self@.ncols {
                self@.elem(a, b)
            } else {
                col@[a]
            }),
    {
        self.as_ref().append_col(col)
    }
}

impl<T: PartialEq> Mat<T> {
    /// Whether the matrix is square and equal to its transpose; exact for
    /// element types whose `==` follows its specification.
    pub fn is_symmetric(&self) -> (r: bool)
        requires
            self.wf(),
        ensures
            T::obeys_eq_spec() ==> r == self@.symmetric(),
    {
        let v = self.as_ref();
        let r = v.is_symmetric();
        proof {
            if T::obeys_eq_spec() && self@.nrows == self@.ncols {
                if r {
                    assert forall|i: int, j: int| 0 <= i < j < self@.ncols implies #[trigger] self@.elem(i, j).eq_spec(&self@.elem(j, i)) by {
                        assert(v.in_shape(i, j) && v.in_shape(j, i));
                        assert(v.elem(i, j).eq_spec(&v.elem(j, i)));
                    }
                } else {
                    let (i, j) = choose|i: int, j: int| 0 <= i < j < v.ncols && !#[trigger] v.elem(i, j).eq_spec(&v.elem(j, i));
                    assert(v.in_shape(i, j) && v.in_shape(j, i));
                    assert(!self@.elem(i, j).eq_spec(&self@.elem(j, i)));
                }
            }
        }
        r
    }
}

impl<T: Scalar> Mat<T> {
    /// Whether every element off the main diagonal is zero.
    pub fn is_diagonal(&self) -> (r: bool)
        requires
            self.wf(),
        ensures
            r == self@.diagonal_only(),
    {
        let v = self.as_ref();
        let r = v.is_diagonal();
        assert(r == forall|i: int, j: int| #[trigger] self@.in_shape(i, j) && i != j ==> self@.elem(i, j) == T::zero_spec()) by {
            assert forall|i: int, j: int| #[trigger] self@.in_shape(i, j) implies self@.elem(i, j) == v.elem(i, j) by {}
        }
        r
    }

    /// Whether every element below the main diagonal is zero.
    pub fn is_upper_triangular(&self) -> (r: bool)
        requires
            self.wf(),
        ensures
            r == self@.upper_triangular(),
    {
        let v = self.as_ref();
        let r = v.is_upper_triangular();
        assert(r == forall|i: int, j: int| #[trigger] self@.in_shape(i, j) && i > j ==> self@.elem(i, j) == T::zero_spec()) by {
            assert forall|i: int, j: int| #[trigger] self@.in_shape(i, j) implies self@.elem(i, j) == v.elem(i, j) by {}
        }
        r
    }

    /// Whether every element above the main diagonal is zero.
    pub fn is_lower_triangular(&self) -> (r: bool)
        requires
            self.wf(),
        ensures
            r == self@.lower_triangular(),
    {
        let v = self.as_ref();
        let r = v.is_lower_triangular();
        assert(r == forall|i: int, j: int| #[trigger] self@.in_shape(i, j) && i < j ==> self@.elem(i, j) == T::zero_spec()) by {
            assert forall|i: int, j: int| #[trigger] self@.in_shape(i, j) implies self@.elem(i, j) == v.elem(i, j) by {}
        }
        r
    }

    /// Whether the matrix is square with ones on the diagonal and zeros
    /// elsewhere.
    pub fn is_identity(&self) -> (r: bool)
        requires
            self.wf(),
        ensures
            r == self@.identity_like(),
    {
        let v = self.as_ref();
        let r = v.is_identity();
        assert forall|i: int, j: int| #[trigger] self@.in_shape(i, j) implies self@.elem(i, j) == v.elem(i, j) by {}
        r
    }

    /// A copy keeping the elements with `j - i <= k` and zeroing the rest.
    pub fn tril(&self, k: isize) -> (r: Mat<T>)
        requires
            self.wf(),
        ensures
            r.wf(),
            r@.nrows == self@.nrows,
            r@.ncols == self@.ncols,
            forall|i: int, j: int| #[trigger] r@.in_shape(i, j) ==> r@.elem(i, j) == (if j - i <= k {
                self@.elem(i, j)
            } else {
                T::zero_spec()
            }),
    {
        self.as_ref().tril(k)
    }

    /// A copy keeping the elements with `j - i >= k` and zeroing the rest.
    pub fn triu(&self, k: isize) -> (r: Mat<T>)
        requires
            self.wf(),
        ensures
            r.wf(),
            r@.nrows == self@.nrows,
            r@.ncols == self@.ncols,
            forall|i: int, j: int| #[trigger] r@.in_shape(i, j) ==> r@.elem(i, j) == (if j - i >= k {
                self@.elem(i, j)
            } else {
                T::zero_spec()
            }),
    {
        self.as_ref().triu(k)
    }
}

impl<T> Mat<T> {
    /// A writable view of the whole matrix; writes through it land in this
    /// matrix's buffer.
    pub fn as_mut(&mut self) -> (r: MatMut<'_, T>)
        requires
            old(self).wf(),
        ensures
            r.wf(),
            r.injective(),
            r.data@ == old(self)@.data,
            r.offset == 0,
            r.nrows == old(self)@.nrows,
            r.ncols == old(self)@.ncols,
            r.row_stride == 1,
            r.col_stride == old(self)@.nrows,
            forall|i: int, j: int| #[trigger] r.in_shape(i, j) ==> r.addr(i, j) == cm_index(i, j, old(self)@.nrows as int),
            final(self)@ == (Grid { data: (*final(r.data))@, ..old(self)@ }),
    {
        let nrows = self.nrows;
        let ncols = self.ncols;
        let ghost len = self.data@.len();
        let r = MatMut {
            data: self.data.as_mut_slice(),
            offset: 0,
            nrows,
            ncols,
            row_stride: 1,
            col_stride: nrows as isize,
        };
        proof {
            assert forall|i: int, j: int| #[trigger] r.in_shape(i, j) implies r.addr(i, j) == cm_index(i, j, nrows as int)
                && 0 <= r.addr(i, j) < r.data@.len() by {
                lemma_cm_index_bounds(i, j, nrows as int, ncols as int);
            }
            assert forall|i: int, j: int, a: int, b: int|
                r.in_shape(i, j) && r.in_shape(a, b) && #[trigger] r.addr(i, j) == #[trigger] r.addr(a, b) implies i == a && j == b by {
                lemma_cm_index_injective(i, j, a, b, nrows as int, ncols as int);
            }
        }
        r
    }

    /// Row `i` as a writable view.
    pub fn row_mut(&mut self, i: usize) -> (r: MatMut<'_, T>)
        requires
            old(self).wf(),
            i < old(self)@.nrows,
        ensures
            r.wf(),
            r.data@ == old(self)@.data,
            r.nrows == 1,
            r.ncols == old(self)@.ncols,
            forall|j: int| 0 <= j < r.ncols ==> #[trigger] r.addr(0, j) == cm_index(i as int, j, old(self)@.nrows as int),
            final(self)@ == (Grid { data: (*final(r.data))@, ..old(self)@ }),
    {
        self.as_mut().row_mut(i)
    }

    /// Column `j` as a writable view.
    pub fn col_mut(&mut self, j: usize) -> (r: MatMut<'_, T>)
        requires
            old(self).wf(),
            j < old(self)@.ncols,
        ensures
            r.wf(),
            r.data@ == old(self)@.data,
            r.nrows == old(self)@.nrows,
            r.ncols == 1,
            forall|i: int| 0 <= i < r.nrows ==> #[trigger] r.addr(i, 0) == cm_index(i, j as int, old(self)@.nrows as int),
            final(self)@ == (Grid { data: (*final(r.data))@, ..old(self)@ }),
    {
        self.as_mut().col_mut(j)
    }

    /// The main diagonal as a writable view.
    pub fn diagonal_mut(&mut self) -> (r: MatMut<'_, T>)
        requires
            old(self).wf(),
        ensures
            r.wf(),
            r.data@ == old(self)@.data,
            r.nrows == (if old(self)@.nrows <= old(self)@.ncols { old(self)@.nrows } else { old(self)@.ncols }),
            r.ncols == 1,
            forall|k: int| 0 <= k < r.nrows ==> #[trigger] r.addr(k, 0) == cm_index(k, k, old(self)@.nrows as int),
            final(self)@ == (Grid { data: (*final(r.data))@, ..old(self)@ }),
    {
        self.as_mut().diagonal_mut()
    }

    /// The writable `nrows` x `ncols` window with top-left corner
    /// `(row_start, col_start)`.
    pub fn submatrix_mut(&mut self, row_start: usize, col_start: usize, nrows: usize, ncols: usize) -> (r: MatMut<'_, T>)
        requires
            old(self).wf(),
            row_start + nrows <= old(self)@.nrows,
            col_start + ncols <= old(self)@.ncols,
        ensures
            r.wf(),
            r.data@ == old(self)@.data,
            r.nrows == nrows,
            r.ncols == ncols,
            forall|i: int, j: int| #[trigger] r.in_shape(i, j) ==> r.addr(i, j) == cm_index(row_start + i, col_start + j, old(self)@.nrows as int),
            final(self)@ == (Grid { data: (*final(r.data))@, ..old(self)@ }),
    {
        self.as_mut().submatrix_mut(row_start, col_start, nrows, ncols)
    }

    /// Rows `start..end` as a writable view.
    pub fn rows_range_mut(&mut self, range: core::ops::Range<usize>) -> (r: MatMut<'_, T>)
        requires
            old(self).wf(),
            range.start <= range.end,
            range.end <= old(self)@.nrows,
        ensures
            r.wf(),
            r.data@ == old(self)@.data,
            r.nrows == range.end - range.start,
            r.ncols == old(self)@.ncols,
            forall|i: int, j: int| #[trigger] r.in_shape(i, j) ==> r.addr(i, j) == cm_index(range.start + i, j, old(self)@.nrows as int),
            final(self)@ == (Grid { data: (*final(r.data))@, ..old(self)@ }),
    {
        self.as_mut().rows_range_mut(range)
    }

    /// Columns `start..end` as a writable view.
    pub fn cols_range_mut(&mut self, range: core::ops::Range<usize>) -> (r: MatMut<'_, T>)
        requires
            old(self).wf(),
            range.start <= range.end,
            range.end <= old(self)@.ncols,
        ensures
            r.wf(),
            r.data@ == old(self)@.data,
            r.nrows == old(self)@.nrows,
            r.ncols == range.end - range.start,
            forall|i: int, j: int| #[trigger] r.in_shape(i, j) ==> r.addr(i, j) == cm_index(i, range.start + j, old(self)@.nrows as int),
            final(self)@ == (Grid { data: (*final(r.data))@, ..old(self)@ }),
    {
        self.as_mut().cols_range_mut(range)
    }

    /// The writable transposed view.
    pub fn transpose_mut(&mut self) -> (r: MatMut<'_, T>)
        requires
            old(self).wf(),
        ensures
            r.wf(),
            r.data@ == old(self)@.data,
            r.nrows == old(self)@.ncols,
            r.ncols == old(self)@.nrows,
            forall|i: int, j: int| #[trigger] r.in_shape(i, j) ==> r.addr(i, j) == cm_index(j, i, old(self)@.nrows as int),
            final(self)@ == (Grid { data: (*final(r.data))@, ..old(self)@ }),
    {
        self.as_mut().transpose_mut()
    }

    /// The writable view with the row order reversed.
    pub fn reverse_rows_mut(&mut self) -> (r: MatMut<'_, T>)
        requires
            old(self).wf(),
        ensures
            r.wf(),
            r.data@ == old(self)@.data,
            r.nrows == old(self)@.nrows,
            r.ncols == old(self)@.ncols,
            forall|i: int, j: int| #[trigger] r.in_shape(i, j) ==> r.addr(i, j) == cm_index(old(self)@.nrows - 1 - i, j, old(self)@.nrows as int),
            final(self)@ == (Grid { data: (*final(r.data))@, ..old(self)@ }),
    {
        self.as_mut().reverse_rows_mut()
    }

    /// The writable view with the column order reversed.
    pub fn reverse_cols_mut(&mut self) -> (r: MatMut<'_, T>)
        requires
            old(self).wf(),
        ensures
            r.wf(),
            r.data@ == old(self)@.data,
            r.nrows == old(self)@.nrows,
            r.ncols == old(self)@.ncols,
            forall|i: int, j: int| #[trigger] r.in_shape(i, j) ==> r.addr(i, j) == cm_index(i, old(self)@.ncols - 1 - j, old(self)@.nrows as int),
            final(self)@ == (Grid { data: (*final(r.data))@, ..old(self)@ }),
    {
        self.as_mut().reverse_cols_mut()
    }
}

impl<T: Copy> Mat<T> {
    /// `top` with `bottom` placed below it.
    fn vcat(top: MatRef<'_, T>, bottom: MatRef<'_, T>) -> (r: Mat<T>)
        requires
            top.wf(),
            bottom.wf(),
            top.ncols == bottom.ncols,
            shape_fits(top.nrows + bottom.nrows, top.ncols as int),
        ensures
            r.wf(),
            r@.nrows == top.nrows + bottom.nrows,
            r@.ncols == top.ncols,
            forall|i: int, j: int| #[trigger] r@.in_shape(i, j) ==> r@.elem(i, j) == (if i < top.nrows {
                top.elem(i, j)
            } else {
                bottom.elem(i - top.nrows, j)
            }),
    {
        let cell = |i: usize, j: usize| -> (x: T)
            requires
                top.wf(),
                bottom.wf(),
                top.ncols == bottom.ncols,
                i < top.nrows + bottom.nrows,
                j < top.ncols,
            ensures
                x == (if i < top.nrows { top.elem(i as int, j as int) } else { bottom.elem(i - top.nrows, j as int) }),
        {
            if i < top.nrows {
                *top.at(i, j)
            } else {
                *bottom.at(i - top.nrows, j)
            }
        };
        Mat::from_fn(top.nrows + bottom.nrows, top.ncols, cell)
    }

    /// `left` with `right` placed beside it.
    fn hcat(left: MatRef<'_, T>, right: MatRef<'_, T>) -> (r: Mat<T>)
        requires
            left.wf(),
            right.wf(),
            left.nrows == right.nrows,
            shape_fits(left.nrows as int, left.ncols + right.ncols),
        ensures
            r.wf(),
            r@.nrows == left.nrows,
            r@.ncols == left.ncols + right.ncols,
            forall|i: int, j: int| #[trigger] r@.in_shape(i, j) ==> r@.elem(i, j) == (if j < left.ncols {
                left.elem(i, j)
            } else {
                right.elem(i, j - left.ncols)
            }),
    {
        let cell = |i: usize, j: usize| -> (x: T)
            requires
                left.wf(),
                right.wf(),
                left.nrows == right.nrows,
                i < left.nrows,
                j < left.ncols + right.ncols,
            ensures
                x == (if j < left.ncols { left.elem(i as int, j as int) } else { right.elem(i as int, j - left.ncols) }),
        {
            if j < left.ncols {
                *left.at(i, j)
            } else {
                *right.at(i, j - left.ncols)
            }
        };
        Mat::from_fn(left.nrows, left.ncols + right.ncols, cell)
    }

    /// The views stacked top to bottom; they all have the same number of
    /// columns. No views give the 0x0 matrix.
    pub fn vstack(matrices: &[MatRef<'_, T>]) -> (r: Mat<T>)
        requires
            forall|k: int| 0 <= k < matrices@.len() ==> (#[trigger] matrices@[k]).wf(),
            forall|k: int| 0 <= k < matrices@.len() ==> #[trigger] matrices@[k].ncols == matrices@[0].ncols,
            matrices@.len() > 0 ==> shape_fits(rows_before(matrices@, matrices@.len() as int), matrices@[0].ncols as int),
        ensures
            r.wf(),
            matrices@.len() == 0 ==> r@.nrows == 0 && r@.ncols == 0,
            matrices@.len() > 0 ==> r@.nrows == rows_before(matrices@, matrices@.len() as int) && r@.ncols == matrices@[0].ncols,
            forall|b: int, i: int, j: int|
                0 <= b < matrices@.len() && matrices@[b].in_shape(i, j) ==> r@.elem(rows_before(matrices@, b) + i, j) == #[trigger] matrices@[b].elem(i, j),
    {
        let ghost ms = matrices@;
        let n = matrices.len();
        if n == 0 {
            return Mat::new();
        }
        let mut acc = matrices[0].to_owned();
        proof {
            assert(rows_before(ms, 0) == 0);
            assert(rows_before(ms, 1) == ms[0].nrows);
        }
        let mut b: usize = 1;
        while b < n
            invariant
                n == ms.len(),
                ms == matrices@,
                1 <= b <= n,
                forall|k: int| 0 <= k < ms.len() ==> (#[trigger] ms[k]).wf(),
                forall|k: int| 0 <= k < ms.len() ==> #[trigger] ms[k].ncols == ms[0].ncols,
                shape_fits(rows_before(ms, n as int), ms[0].ncols as int),
                acc.wf(),
                acc@.nrows == rows_before(ms, b as int),
                acc@.ncols == ms[0].ncols,
                forall|c: int, i: int, j: int|
                    0 <= c < b && ms[c].in_shape(i, j) ==> acc@.elem(rows_before(ms, c) + i, j) == #[trigger] ms[c].elem(i, j),
            decreases n - b,
        {
            let next = matrices[b];
            proof {
                if b + 1 < n {
                    lemma_rows_before_mono(ms, b as int + 1, n as int);
                }
                lemma_rows_before_nonneg(ms, b as int + 1);
                let t = rows_before(ms, b as int + 1);
                let m = ms[0].ncols as int;
                assert(t * m <= rows_before(ms, n as int) * m) by (nonlinear_arith)
                    requires
                        0 <= t <= rows_before(ms, n as int),
                        0 <= m,
                ;
            }
            let top = acc.as_ref();
            let joined = Mat::vcat(top, next);
            proof {
                assert forall|c: int, i: int, j: int|
                    0 <= c <= b && ms[c].in_shape(i, j) implies joined@.elem(rows_before(ms, c) + i, j) == #[trigger] ms[c].elem(i, j) by {
                    if c < b {
                        lemma_rows_before_mono(ms, c, b as int);
                        assert(joined@.in_shape(rows_before(ms, c) + i, j));
                        assert(top.in_shape(rows_before(ms, c) + i, j));
                    } else {
                        lemma_rows_before_nonneg(ms, c);
                        assert(joined@.in_shape(rows_before(ms, c) + i, j));
                    }
                }
            }
            acc = joined;
            b += 1;
        }
        acc
    }

    /// The views placed left to right; they all have the same number of
    /// rows. No views give the 0x0 matrix.
    pub fn hstack(matrices: &[MatRef<'_, T>]) -> (r: Mat<T>)
        requires
            forall|k: int| 0 <= k < matrices@.len() ==> (#[trigger] matrices@[k]).wf(),
            forall|k: int| 0 <= k < matrices@.len() ==> #[trigger] matrices@[k].nrows == matrices@[0].nrows,
            matrices@.len() > 0 ==> shape_fits(matrices@[0].nrows as int, cols_before(matrices@, matrices@.len() as int)),
        ensures
            r.wf(),
            matrices@.len() == 0 ==> r@.nrows == 0 && r@.ncols == 0,
            matrices@.len() > 0 ==> r@.nrows == matrices@[0].nrows && r@.ncols == cols_before(matrices@, matrices@.len() as int),
            forall|b: int, i: int, j: int|
                0 <= b < matrices@.len() && matrices@[b].in_shape(i, j) ==> r@.elem(i, cols_before(matrices@, b) + j) == #[trigger] matrices@[b].elem(i, j),
    {
        let ghost ms = matrices@;
        let n = matrices.len();
        if n == 0 {
            return Mat::new();
        }
        let mut acc = matrices[0].to_owned();
        proof {
            assert(cols_before(ms, 0) == 0);
            assert(cols_before(ms, 1) == ms[0].ncols);
        }
        let mut b: usize = 1;
        while b < n
            invariant
                n == ms.len(),
                ms == matrices@,
                1 <= b <= n,
                forall|k: int| 0 <= k < ms.len() ==> (#[trigger] ms[k]).wf(),
                forall|k: int| 0 <= k < ms.len() ==> #[trigger] ms[k].nrows == ms[0].nrows,
                shape_fits(ms[0].nrows as int, cols_before(ms, n as int)),
                acc.wf(),
                acc@.nrows == ms[0].nrows,
                acc@.ncols == cols_before(ms, b as int),
                forall|c: int, i: int, j: int|
                    0 <= c < b && ms[c].in_shape(i, j) ==> acc@.elem(i, cols_before(ms, c) + j) == #[trigger] ms[c].elem(i, j),
            decreases n - b,
        {
            let next = matrices[b];
            proof {
                if b + 1 < n {
                    lemma_cols_before_mono(ms, b as int + 1, n as int);
                }
                lemma_cols_before_nonneg(ms, b as int + 1);
                let t = cols_before(ms, b as int + 1);
                let m = ms[0].nrows as int;
                assert(m * t <= m * cols_before(ms, n as int)) by (nonlinear_arith)
                    requires
                        0 <= t <= cols_before(ms, n as int),
                        0 <= m,
                ;
            }
            let left = acc.as_ref();
            let joined = Mat::hcat(left, next);
            proof {
                assert forall|c: int, i: int, j: int|
                    0 <= c <= b && ms[c].in_shape(i, j) implies joined@.elem(i, cols_before(ms, c) + j) == #[trigger] ms[c].elem(i, j) by {
                    if c < b {
                        lemma_cols_before_mono(ms, c, b as int);
                        assert(joined@.in_shape(i, cols_before(ms, c) + j));
                        assert(left.in_shape(i, cols_before(ms, c) + j));
                    } else {
                        lemma_cols_before_nonneg(ms, c);
                        assert(joined@.in_shape(i, cols_before(ms, c) + j));
                    }
                }
            }
            acc = joined;
            b += 1;
        }
        acc
    }
}

impl<T: Copy> Mat<T> {
    /// Joins a grid of blocks into one matrix: block `(bi, bj)` lands with
    /// its top-left corner below the blocks above it and right of the blocks
    /// before it. An empty grid gives the 0x0 matrix.
    pub fn from_blocks<'a>(block_rows: &'a [&'a [MatRef<'a, T>]]) -> (r: Mat<T>)
        requires
            blocks_consistent(block_rows@),
            block_rows@.len() > 0 && block_rows@[0]@.len() > 0 ==> shape_fits(
                rows_before(first_blocks(block_rows@), block_rows@.len() as int),
                cols_before(block_rows@[0]@, block_rows@[0]@.len() as int),
            ),
        ensures
            r.wf(),
            block_rows@.len() == 0 || block_rows@[0]@.len() == 0 ==> r@.nrows == 0 && r@.ncols == 0,
            block_rows@.len() > 0 && block_rows@[0]@.len() > 0 ==> r@.nrows == rows_before(first_blocks(block_rows@), block_rows@.len() as int)
                && r@.ncols == cols_before(block_rows@[0]@, block_rows@[0]@.len() as int),
            forall|bi: int, bj: int, i: int, j: int|
                0 <= bi < block_rows@.len() && 0 <= bj < block_rows@[0]@.len() && block_rows@[bi]@[bj].in_shape(i, j) ==> r@.elem(
                    rows_before(first_blocks(block_rows@), bi) + i,
                    cols_before(block_rows@[0]@, bj) + j,
                ) == #[trigger] block_rows@[bi]@[bj].elem(i, j),
    {
        let ghost bs = block_rows@;
        let nbr = block_rows.len();
        if nbr == 0 {
            return Mat::new();
        }
        let nbc = block_rows[0].len();
        if nbc == 0 {
            return Mat::new();
        }
        let ghost firsts = first_blocks(bs);
        let ghost row0 = bs[0]@;
        let ghost total_rows = rows_before(firsts, nbr as int);
        let ghost total_cols = cols_before(row0, nbc as int);
        let mut hs: Vec<Mat<T>> = Vec::new();
        let mut bi: usize = 0;
        while bi < nbr
            invariant
                bs == block_rows@,
                nbr == bs.len(),
                nbc == bs[0]@.len(),
                nbc > 0,
                firsts == first_blocks(bs),
                row0 == bs[0]@,
                total_rows == rows_before(firsts, nbr as int),
                total_cols == cols_before(row0, nbc as int),
                blocks_consistent(bs),
                shape_fits(total_rows, total_cols),
                bi <= nbr,
                hs@.len() == bi,
                forall|k: int| 0 <= k < bi ==> (#[trigger] hs@[k]).wf() && hs@[k]@.nrows == bs[k]@[0].nrows && hs@[k]@.ncols == total_cols,
                forall|k: int, bj: int, i: int, j: int|
                    0 <= k < bi && 0 <= bj < nbc && bs[k]@[bj].in_shape(i, j) ==> hs@[k]@.elem(i, cols_before(row0, bj) + j) == #[trigger] bs[k]@[bj].elem(i, j),
            decreases nbr - bi,
        {
            let row = block_rows[bi];
            proof {
                let rw = row@;
                assert forall|c: int| 0 <= c < nbc implies #[trigger] rw[c].ncols == row0[c].ncols by {
                    assert(bs[bi as int]@[c].ncols == bs[0]@[c].ncols);
                }
                lemma_cols_before_ext(rw, row0, nbc as int);
                assert(firsts[bi as int] == bs[bi as int]@[0]);
                if bi + 1 < nbr {
                    lemma_rows_before_mono(firsts, bi as int, nbr as int);
                } else {
                    lemma_rows_before_mono(firsts, bi as int, nbr as int);
                }
                let h = rw[0].nrows as int;
                assert(h * total_cols <= total_rows * total_cols) by (nonlinear_arith)
                    requires
                        0 <= h <= total_rows,
                        0 <= total_cols,
                ;
                assert forall|k: int| 0 <= k < rw.len() implies #[trigger] rw[k].nrows == rw[0].nrows by {
                    assert(bs[bi as int]@[k].nrows == bs[bi as int]@[0].nrows);
                }
                assert forall|k: int| 0 <= k < rw.len() implies (#[trigger] rw[k]).wf() by {
                    assert(bs[bi as int]@[k].wf());
                }
            }
            let h = Mat::hstack(row);
            proof {
                let rw = row@;
                assert forall|c: int| 0 <= c < nbc implies #[trigger] rw[c].ncols == row0[c].ncols by {
                    assert(bs[bi as int]@[c].ncols == bs[0]@[c].ncols);
                }
                assert forall|bj: int| 0 <= bj <= nbc implies #[trigger] cols_before(rw, bj) == cols_before(row0, bj) by {
                    lemma_cols_before_ext(rw, row0, bj);
                }
            }
            hs.push(h);
            bi += 1;
        }
        let mut refs: Vec<MatRef<'_, T>> = Vec::new();
        let mut k: usize = 0;
        while k < nbr
            invariant
                nbr == hs@.len(),
                k <= nbr,
                refs@.len() == k,
                forall|c: int| 0 <= c < nbr ==> (#[trigger] hs@[c]).wf() && hs@[c]@.nrows == bs[c]@[0].nrows && hs@[c]@.ncols == total_cols,
                forall|c: int| 0 <= c < k ==> (#[trigger] refs@[c]).wf() && refs@[c].nrows == hs@[c]@.nrows && refs@[c].ncols == total_cols
                    && forall|i: int, j: int| #[trigger] hs@[c]@.in_shape(i, j) ==> refs@[c].elem(i, j) == hs@[c]@.elem(i, j),
            decreases nbr - k,
        {
            refs.push(hs[k].as_ref());
            k += 1;
        }
        proof {
            assert forall|c: int| 0 <= c < nbr implies #[trigger] refs@[c].nrows == firsts[c].nrows by {
                assert(firsts[c] == bs[c]@[0]);
            }
            lemma_rows_before_ext(refs@, firsts, nbr as int);
            assert forall|c: int| 0 <= c < refs@.len() implies #[trigger] refs@[c].ncols == refs@[0].ncols by {}
        }
        let r = Mat::vstack(refs.as_slice());
        proof {
            assert forall|bi: int, bj: int, i: int, j: int|
                0 <= bi < nbr && 0 <= bj < nbc && bs[bi]@[bj].in_shape(i, j) implies r@.elem(
                    rows_before(firsts, bi) + i,
                    cols_before(row0, bj) + j,
                ) == #[trigger] bs[bi]@[bj].elem(i, j) by {
                lemma_rows_before_ext(refs@, firsts, bi);
                lemma_cols_before_mono(row0, bj, nbc as int);
                let jj = cols_before(row0, bj) + j;
                assert(bs[bi]@[bj].nrows == bs[bi]@[0].nrows);
                assert(bs[bi]@[bj].ncols == bs[0]@[bj].ncols);
                assert(hs@[bi]@.in_shape(i, jj));
                assert(refs@[bi].in_shape(i, jj));
                assert(refs@[bi].elem(i, jj) == hs@[bi]@.elem(i, jj));
            }
        }
        r
    }
}

impl<T: Copy + core::ops::Mul<Output = T>> Mat<T> {
    /// The element-wise product with `other`, which has the same shape; no
    /// product may overflow.
    pub fn component_mul(&self, other: MatRef<'_, T>) -> (r: Mat<T>)
        requires
            self.wf(),
            other.wf(),
            self@.nrows == other.nrows,
            self@.ncols == other.ncols,
            forall|i: int, j: int| #[trigger] self@.in_shape(i, j) ==> self@.elem(i, j).mul_req(other.elem(i, j)),
        ensures
            r.wf(),
            r@.nrows == self@.nrows,
            r@.ncols == self@.ncols,
            T::obeys_mul_spec() ==> forall|i: int, j: int| #[trigger] r@.in_shape(i, j) ==> r@.elem(i, j) == self@.elem(i, j).mul_spec(other.elem(i, j)),
    {
        let v = self.as_ref();
        assert forall|i: int, j: int| #[trigger] v.in_shape(i, j) implies v.elem(i, j).mul_req(other.elem(i, j)) by {
            assert(self@.in_shape(i, j));
        }
        let r = v.element_mul(other);
        assert forall|i: int, j: int| #[trigger] r@.in_shape(i, j) implies self@.elem(i, j) == v.elem(i, j) by {}
        r
    }
}

impl<T: Copy + core::ops::Div<Output = T>> Mat<T> {
    /// The element-wise quotient by `other`, which has the same shape; every
    /// quotient must be defined.
    pub fn component_div(&self, other: MatRef<'_, T>) -> (r: Mat<T>)
        requires
            self.wf(),
            other.wf(),
            self@.nrows == other.nrows,
            self@.ncols == other.ncols,
            forall|i: int, j: int| #[trigger] self@.in_shape(i, j) ==> self@.elem(i, j).div_req(other.elem(i, j)),
        ensures
            r.wf(),
            r@.nrows == self@.nrows,
            r@.ncols == self@.ncols,
            T::obeys_div_spec() ==> forall|i: int, j: int| #[trigger] r@.in_shape(i, j) ==> r@.elem(i, j) == self@.elem(i, j).div_spec(other.elem(i, j)),
    {
        let v = self.as_ref();
        assert forall|i: int, j: int| #[trigger] v.in_shape(i, j) implies v.elem(i, j).div_req(other.elem(i, j)) by {
            assert(self@.in_shape(i, j));
        }
        let r = v.element_div(other);
        assert forall|i: int, j: int| #[trigger] r@.in_shape(i, j) implies self@.elem(i, j) == v.elem(i, j) by {}
        r
    }
}

impl<T: Copy + PartialOrd> Mat<T> {
    /// Every element limited to `min..=max`.
    pub fn clamp(&self, min: T, max: T) -> (r: Mat<T>)
        requires
            self.wf(),
        ensures
            r.wf(),
            r@.nrows == self@.nrows,
            r@.ncols == self@.ncols,
            T::obeys_partial_cmp_spec() ==> forall|i: int, j: int| #[trigger] r@.in_shape(i, j) ==> r@.elem(i, j) == clamped(self@.elem(i, j), min, max),
    {
        let v = self.as_ref();
        let r = v.clamp(min, max);
        assert forall|i: int, j: int| #[trigger] r@.in_shape(i, j) implies self@.elem(i, j) == v.elem(i, j) by {}
        r
    }
}

} // verus!
