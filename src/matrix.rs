//! A plain row-major matrix with element-wise arithmetic and the matrix
//! product.
use vstd::prelude::*;
use vstd::std_specs::cmp::PartialEqSpec;
use vstd::std_specs::ops::{AddSpec, MulSpec, SubSpec};

use crate::mat::{cm_index, lemma_cm_index_bounds};
use crate::mat_ref::lemma_cm_split;
use crate::scalar::Scalar;

verus! {

/// The mathematical model of a row-major matrix.
pub struct RowGrid<T> {
    pub rows: nat,
    pub cols: nat,
    pub data: Seq<T>,
}

impl<T> RowGrid<T> {
    pub open spec fn in_shape(self, i: int, j: int) -> bool {
        0 <= i < self.rows && 0 <= j < self.cols
    }

    /// Element `(i, j)`, stored at `i * cols + j`.
    pub open spec fn elem(self, i: int, j: int) -> T {
        self.data[cm_index(j, i, self.cols as int)]
    }
}

/// A dense matrix stored row by row.
#[derive(Debug)]
pub struct Matrix<T> {
    rows: usize,
    cols: usize,
    data: Vec<T>,
}

impl<T> View for Matrix<T> {
    type V = RowGrid<T>;

    closed spec fn view(&self) -> RowGrid<T> {
        RowGrid { rows: self.rows as nat, cols: self.cols as nat, data: self.data@ }
    }
}

/// The sum of the first `k` products of row `i` of `a` with column `j` of `b`.
pub open spec fn dot_prefix<T: Scalar + core::ops::Add<Output = T> + core::ops::Mul<Output = T>>(
    a: RowGrid<T>,
    b: RowGrid<T>,
    i: int,
    j: int,
    k: int,
) -> T
    decreases k,
{
    if k <= 0 {
        T::zero_spec()
    } else {
        dot_prefix(a, b, i, j, k - 1).add_spec(a.elem(i, k - 1).mul_spec(b.elem(k - 1, j)))
    }
}

impl<T> Matrix<T> {
    /// The buffer holds exactly `rows * cols` elements, a count that fits
    /// in `usize`.
    pub open spec fn wf(&self) -> bool {
        &&& self@.data.len() == self@.rows * self@.cols
        &&& self@.rows * self@.cols <= usize::MAX
    }

    pub fn rows(&self) -> (r: usize)
        ensures
            r == self@.rows,
    {
        self.rows
    }

    pub fn cols(&self) -> (r: usize)
        ensures
            r == self@.cols,
    {
        self.cols
    }

    /// Wraps a row-major buffer of `rows * cols` elements.
    pub fn from_vec(shape: (usize, usize), data: Vec<T>) -> (r: Self)
        requires
            data@.len() == shape.0 * shape.1,
            shape.0 * shape.1 <= usize::MAX,
        ensures
            r.wf(),
            r@ == (RowGrid { rows: shape.0 as nat, cols: shape.1 as nat, data: data@ }),
    {
        Matrix { rows: shape.0, cols: shape.1, data }
    }

    /// The element at position `row * cols + col` of the buffer, if there is
    /// one there.
    pub fn get(&self, pos: (usize, usize)) -> (r: Option<&T>)
        requires
            pos.0 * self@.cols + pos.1 <= usize::MAX,
        ensures
            r.is_some() == (pos.0 * self@.cols + pos.1 < self@.data.len()),
            r.is_some() ==> *r.unwrap() == self@.data[pos.0 * self@.cols + pos.1],
    {
        let k = pos.0 * self.cols + pos.1;
        if k < self.data.len() {
            Some(&self.data[k])
        } else {
            None
        }
    }

    /// Replaces element `(i, j)` with `value`.
    pub fn set(&mut self, i: usize, j: usize, value: T)
        requires
            old(self).wf(),
            i < old(self)@.rows,
            j < old(self)@.cols,
        ensures
            final(self).wf(),
            final(self)@.rows == old(self)@.rows,
            final(self)@.cols == old(self)@.cols,
            forall|a: int, b: int| #[trigger] final(self)@.in_shape(a, b) ==> final(self)@.elem(a, b) == (if a == i && b == j {
                value
            } else {
                old(self)@.elem(a, b)
            }),
    {
        proof {
            lemma_cm_index_bounds(j as int, i as int, self.cols as int, self.rows as int);
        }
        let k = i * self.cols + j;
        let ghost before = self@;
        self.data.set(k, value);
        proof {
            assert forall|a: int, b: int| #[trigger] self@.in_shape(a, b) implies self@.elem(a, b) == (if a == i && b == j {
                value
            } else {
                before.elem(a, b)
            }) by {
                lemma_cm_index_bounds(b, a, self.cols as int, self.rows as int);
                if a < i {
                    lemma_cm_index_bounds(b, a, self.cols as int, i as int);
                } else if a > i {
                    lemma_cm_index_bounds(j as int, i as int, self.cols as int, a as int);
                }
            }
        }
    }
}

impl<T: Copy> Matrix<T> {
    /// Builds the matrix whose element `(i, j)` is `f(i, j)`; `f` is called
    /// row by row.
    pub fn from_fn<F: Fn(usize, usize) -> T>(shape: (usize, usize), f: F) -> (r: Self)
        requires
            shape.0 * shape.1 <= usize::MAX,
            forall|i: usize, j: usize| i < shape.0 && j < shape.1 ==> #[trigger] f.requires((i, j)),
        ensures
            r.wf(),
            r@.rows == shape.0,
            r@.cols == shape.1,
            forall|i: int, j: int| 0 <= i < shape.0 && 0 <= j < shape.1 ==> f.ensures((i as usize, j as usize), #[trigger] r@.elem(i, j)),
    {
        let (rows, cols) = shape;
        let mut data: Vec<T> = Vec::new();
        let mut i: usize = 0;
        while i < rows
            invariant
                i <= rows,
                rows * cols <= usize::MAX,
                forall|i: usize, j: usize| i < rows && j < cols ==> #[trigger] f.requires((i, j)),
                data@.len() == i * cols,
                forall|a: int, b: int|
                    0 <= a < i && 0 <= b < cols ==> f.ensures((a as usize, b as usize), #[trigger] data@[cm_index(b, a, cols as int)]),
            decreases rows - i,
        {
            let mut j: usize = 0;
            while j < cols
                invariant
                    j <= cols,
                    i < rows,
                    forall|i: usize, j: usize| i < rows && j < cols ==> #[trigger] f.requires((i, j)),
                    data@.len() == i * cols + j,
                    forall|a: int, b: int|
                        (0 <= a < i && 0 <= b < cols) || (a == i && 0 <= b < j) ==> f.ensures(
                            (a as usize, b as usize),
                            #[trigger] data@[cm_index(b, a, cols as int)],
                        ),
                decreases cols - j,
            {
                let x = f(i, j);
                let ghost old_data = data@;
                data.push(x);
                proof {
                    assert forall|a: int, b: int|
                        (0 <= a < i && 0 <= b < cols) || (a == i && 0 <= b <= j) implies f.ensures(
                            (a as usize, b as usize),
                            #[trigger] data@[cm_index(b, a, cols as int)],
                        ) by {
                        if a < i {
                            lemma_cm_index_bounds(b, a, cols as int, i as int);
                            assert(data@[cm_index(b, a, cols as int)] == old_data[cm_index(b, a, cols as int)]);
                        } else if b < j {
                            assert(data@[cm_index(b, a, cols as int)] == old_data[cm_index(b, a, cols as int)]);
                        }
                    }
                }
                j += 1;
            }
            proof {
                assert((i + 1) * cols == i * cols + cols) by (nonlinear_arith);
            }
            i += 1;
        }
        Matrix { rows, cols, data }
    }

    /// A `rows` x `cols` matrix with every element `value`.
    pub fn from_value(shape: (usize, usize), value: T) -> (r: Self)
        requires
            shape.0 * shape.1 <= usize::MAX,
        ensures
            r.wf(),
            r@.rows == shape.0,
            r@.cols == shape.1,
            forall|i: int, j: int| #[trigger] r@.in_shape(i, j) ==> r@.elem(i, j) == value,
    {
        let cell = |i: usize, j: usize| -> (x: T)
            ensures
                x == value,
        { value };
        Matrix::from_fn(shape, cell)
    }

    /// Builds a matrix from its rows; every row has as many elements as the
    /// first, and no rows give the 0x0 matrix.
    pub fn from_nested_vec(nested: Vec<Vec<T>>) -> (r: Self)
        requires
            nested@.len() > 0 ==> nested@.len() * nested@[0]@.len() <= usize::MAX,
            forall|k: int| 0 <= k < nested@.len() ==> #[trigger] nested@[k]@.len() == nested@[0]@.len(),
        ensures
            r.wf(),
            r@.rows == nested@.len(),
            r@.cols == (if nested@.len() == 0 { 0 } else { nested@[0]@.len() }),
            forall|i: int, j: int| #[trigger] r@.in_shape(i, j) ==> r@.elem(i, j) == nested@[i]@[j],
    {
        let rows = nested.len();
        let cols = if rows == 0 { 0 } else { nested[0].len() };
        let cell = |i: usize, j: usize| -> (x: T)
            requires
                forall|k: int| 0 <= k < nested@.len() ==> #[trigger] nested@[k]@.len() == nested@[0]@.len(),
                i < nested@.len(),
                j < nested@[0]@.len(),
            ensures
                x == nested@[i as int]@[j as int],
        {
            nested[i][j]
        };
        proof {
            if rows == 0 {
                assert(rows * cols == 0);
            }
        }
        Matrix::from_fn((rows, cols), cell)
    }

    /// The `cols` x `rows` matrix with rows and columns exchanged.
    pub fn transpose(&self) -> (r: Matrix<T>)
        requires
            self.wf(),
        ensures
            r.wf(),
            r@.rows == self@.cols,
            r@.cols == self@.rows,
            forall|i: int, j: int| #[trigger] r@.in_shape(i, j) ==> r@.elem(i, j) == self@.elem(j, i),
    {
        let cell = |i: usize, j: usize| -> (x: T)
            requires
                self.wf(),
                i < self@.cols,
                j < self@.rows,
            ensures
                x == self@.elem(j as int, i as int),
        {
            proof {
                lemma_cm_index_bounds(i as int, j as int, self.cols as int, self.rows as int);
            }
            self.data[j * self.cols + i]
        };
        proof {
            assert(self.cols * self.rows == self.rows * self.cols) by (nonlinear_arith);
        }
        Matrix::from_fn((self.cols, self.rows), cell)
    }
}

impl<T: Scalar> Matrix<T> {
    /// The `rows` x `cols` matrix of zeros.
    pub fn zeros(shape: (usize, usize)) -> (r: Self)
        requires
            shape.0 * shape.1 <= usize::MAX,
        ensures
            r.wf(),
            r@.rows == shape.0,
            r@.cols == shape.1,
            forall|i: int, j: int| #[trigger] r@.in_shape(i, j) ==> r@.elem(i, j) == T::zero_spec(),
    {
        Matrix::from_value(shape, T::zero())
    }
}

impl<T: Copy> Matrix<T> {
    /// The element-wise combination of `self` and `other` by `f`; both have
    /// the same shape.
    fn zip_cells<F: Fn(&T, &T) -> T>(&self, other: &Matrix<T>, f: F) -> (r: Matrix<T>)
        requires
            self.wf(),
            other.wf(),
            self@.rows == other@.rows,
            self@.cols == other@.cols,
            forall|i: int, j: int| #[trigger] self@.in_shape(i, j) ==> f.requires((&self@.elem(i, j), &other@.elem(i, j))),
        ensures
            r.wf(),
            r@.rows == self@.rows,
            r@.cols == self@.cols,
            forall|i: int, j: int| #[trigger] r@.in_shape(i, j) ==> f.ensures((&self@.elem(i, j), &other@.elem(i, j)), r@.elem(i, j)),
    {
        let n = self.data.len();
        let mut out: Vec<T> = Vec::new();
        let mut k: usize = 0;
        while k < n
            invariant
                self.wf(),
                other.wf(),
                self@.rows == other@.rows,
                self@.cols == other@.cols,
                n == self.data@.len(),
                k <= n,
                out@.len() == k,
                forall|i: int, j: int| #[trigger] self@.in_shape(i, j) ==> f.requires((&self@.elem(i, j), &other@.elem(i, j))),
                forall|c: int| 0 <= c < k ==> f.ensures((&self.data@[c], &other.data@[c]), #[trigger] out@[c]),
            decreases n - k,
        {
            proof {
                lemma_cm_split(k as int, self.cols as int, self.rows as int);
                let j = (k as int) % (self.cols as int);
                let i = (k as int) / (self.cols as int);
                assert(self@.in_shape(i, j));
                assert(f.requires((&self@.elem(i, j), &other@.elem(i, j))));
            }
            let y = f(&self.data[k], &other.data[k]);
            out.push(y);
            k += 1;
        }
        let r = Matrix { rows: self.rows, cols: self.cols, data: out };
        assert forall|i: int, j: int| #[trigger] r@.in_shape(i, j) implies f.ensures((&self@.elem(i, j), &other@.elem(i, j)), r@.elem(i, j)) by {
            lemma_cm_index_bounds(j, i, self.cols as int, self.rows as int);
            assert(self.cols * self.rows == self.rows * self.cols) by (nonlinear_arith);
        }
        r
    }
}

impl<T: Copy + core::ops::Mul<Output = T>> Matrix<T> {
    /// The element-wise product with `other`, which has the same shape; no
    /// product may overflow.
    pub fn component_mul(&self, other: &Matrix<T>) -> (r: Matrix<T>)
        requires
            self.wf(),
            other.wf(),
            self@.rows == other@.rows,
            self@.cols == other@.cols,
            forall|i: int, j: int| #[trigger] self@.in_shape(i, j) ==> self@.elem(i, j).mul_req(other@.elem(i, j)),
        ensures
            r.wf(),
            r@.rows == self@.rows,
            r@.cols == self@.cols,
            T::obeys_mul_spec() ==> forall|i: int, j: int| #[trigger] r@.in_shape(i, j) ==> r@.elem(i, j) == self@.elem(i, j).mul_spec(other@.elem(i, j)),
    {
        let f = |a: &T, b: &T| -> (x: T)
            requires
                a.mul_req(*b),
            ensures
                T::obeys_mul_spec() ==> x == a.mul_spec(*b),
        { *a * *b };
        self.zip_cells(other, f)
    }
}

impl<T: Copy + core::ops::Add<Output = T>> Matrix<T> {
    /// The element-wise sum with `other`, which has the same shape; no sum
    /// may overflow.
    pub fn sum(&self, other: &Matrix<T>) -> (r: Matrix<T>)
        requires
            self.wf(),
            other.wf(),
            self@.rows == other@.rows,
            self@.cols == other@.cols,
            forall|i: int, j: int| #[trigger] self@.in_shape(i, j) ==> self@.elem(i, j).add_req(other@.elem(i, j)),
        ensures
            r.wf(),
            r@.rows == self@.rows,
            r@.cols == self@.cols,
            T::obeys_add_spec() ==> forall|i: int, j: int| #[trigger] r@.in_shape(i, j) ==> r@.elem(i, j) == self@.elem(i, j).add_spec(other@.elem(i, j)),
    {
        let f = |a: &T, b: &T| -> (x: T)
            requires
                a.add_req(*b),
            ensures
                T::obeys_add_spec() ==> x == a.add_spec(*b),
        { *a + *b };
        self.zip_cells(other, f)
    }
}

impl<T: Copy + core::ops::Sub<Output = T>> Matrix<T> {
    /// The element-wise difference with `other`, which has the same shape;
    /// no difference may overflow.
    pub fn difference(&self, other: &Matrix<T>) -> (r: Matrix<T>)
        requires
            self.wf(),
            other.wf(),
            self@.rows == other@.rows,
            self@.cols == other@.cols,
            forall|i: int, j: int| #[trigger] self@.in_shape(i, j) ==> self@.elem(i, j).sub_req(other@.elem(i, j)),
        ensures
            r.wf(),
            r@.rows == self@.rows,
            r@.cols == self@.cols,
            T::obeys_sub_spec() ==> forall|i: int, j: int| #[trigger] r@.in_shape(i, j) ==> r@.elem(i, j) == self@.elem(i, j).sub_spec(other@.elem(i, j)),
    {
        let f = |a: &T, b: &T| -> (x: T)
            requires
                a.sub_req(*b),
            ensures
                T::obeys_sub_spec() ==> x == a.sub_spec(*b),
        { *a - *b };
        self.zip_cells(other, f)
    }
}

impl<T: Scalar + core::ops::Add<Output = T> + core::ops::Mul<Output = T>> Matrix<T> {
    /// No product and no partial sum of the matrix product overflows.
    pub open spec fn dot_defined(&self, other: &Matrix<T>) -> bool {
        forall|i: int, j: int, k: int|
            0 <= i < self@.rows && 0 <= j < other@.cols && 0 <= k < self@.cols ==> {
                &&& self@.elem(i, k).mul_req(other@.elem(k, j))
                &&& (#[trigger] dot_prefix(self@, other@, i, j, k)).add_req(self@.elem(i, k).mul_spec(other@.elem(k, j)))
            }
    }

    /// The matrix product; `self` has as many columns as `other` has rows.
    pub fn dot(&self, other: &Matrix<T>) -> (r: Matrix<T>)
        requires
            self.wf(),
            other.wf(),
            self@.cols == other@.rows,
            self@.rows * other@.cols <= usize::MAX,
            T::obeys_add_spec(),
            T::obeys_mul_spec(),
            self.dot_defined(other),
        ensures
            r.wf(),
            r@.rows == self@.rows,
            r@.cols == other@.cols,
            forall|i: int, j: int| #[trigger] r@.in_shape(i, j) ==> r@.elem(i, j) == dot_prefix(self@, other@, i, j, self@.cols as int),
    {
        let cell = |i: usize, j: usize| -> (x: T)
            requires
                self.wf(),
                other.wf(),
                self@.cols == other@.rows,
                T::obeys_add_spec(),
                T::obeys_mul_spec(),
                self.dot_defined(other),
                i < self@.rows,
                j < other@.cols,
            ensures
                x == dot_prefix(self@, other@, i as int, j as int, self@.cols as int),
        {
            let mut sum = T::zero();
            let mut k: usize = 0;
            while k < self.cols
                invariant
                    self.wf(),
                    other.wf(),
                    self@.cols == other@.rows,
                    T::obeys_add_spec(),
                    T::obeys_mul_spec(),
                    self.dot_defined(other),
                    i < self@.rows,
                    j < other@.cols,
                    k <= self.cols,
                    sum == dot_prefix(self@, other@, i as int, j as int, k as int),
                decreases self.cols - k,
            {
                proof {
                    lemma_cm_index_bounds(k as int, i as int, self.cols as int, self.rows as int);
                    lemma_cm_index_bounds(j as int, k as int, other.cols as int, other.rows as int);
                    assert(dot_prefix(self@, other@, i as int, j as int, k as int).add_req(
                        self@.elem(i as int, k as int).mul_spec(other@.elem(k as int, j as int)),
                    ));
                }
                let a = self.data[i * self.cols + k];
                let b = other.data[k * other.cols + j];
                let p = a * b;
                sum = sum + p;
                k += 1;
            }
            sum
        };
        Matrix::from_fn((self.rows, other.cols), cell)
    }
}

impl<T: PartialEq> PartialEq for Matrix<T> {
    fn eq(&self, other: &Self) -> (r: bool) {
        if self.rows != other.rows || self.cols != other.cols || self.data.len() != other.data.len() {
            return false;
        }
        let n = self.data.len();
        let mut k: usize = 0;
        while k < n
            invariant
                n == self.data@.len(),
                n == other.data@.len(),
                k <= n,
                T::obeys_eq_spec() ==> forall|c: int| 0 <= c < k ==> #[trigger] self.data@[c].eq_spec(&other.data@[c]),
            decreases n - k,
        {
            if !self.data[k].eq(&other.data[k]) {
                return false;
            }
            k += 1;
        }
        true
    }
}

impl<T: PartialEq> vstd::std_specs::cmp::PartialEqSpecImpl for Matrix<T> {
    open spec fn obeys_eq_spec() -> bool {
        T::obeys_eq_spec()
    }

    /// Same shape and `==` elements at every position of the buffer.
    open spec fn eq_spec(&self, other: &Matrix<T>) -> bool {
        &&& self@.rows == other@.rows
        &&& self@.cols == other@.cols
        &&& self@.data.len() == other@.data.len()
        &&& forall|c: int| 0 <= c < self@.data.len() ==> #[trigger] self@.data[c].eq_spec(&other@.data[c])
    }
}

impl<T: Copy> Clone for Matrix<T> {
    fn clone(&self) -> (r: Self)
        ensures
            r@ == self@,
    {
        let n = self.data.len();
        let mut data: Vec<T> = Vec::new();
        let mut k: usize = 0;
        while k < n
            invariant
                n == self.data@.len(),
                k <= n,
                data@ == self.data@.take(k as int),
            decreases n - k,
        {
            data.push(self.data[k]);
            k += 1;
            assert(data@ =~= self.data@.take(k as int));
        }
        assert(data@ =~= self.data@);
        Matrix { rows: self.rows, cols: self.cols, data }
    }
}

impl<T> core::ops::Index<(usize, usize)> for Matrix<T> {
    type Output = T;

    fn index(&self, pos: (usize, usize)) -> (r: &T)
        ensures
            *r == self@.elem(pos.0 as int, pos.1 as int),
    {
        proof {
            lemma_cm_index_bounds(pos.1 as int, pos.0 as int, self.cols as int, self.rows as int);
        }
        &self.data[pos.0 * self.cols + pos.1]
    }
}

impl<T> vstd::std_specs::core::IndexSpecImpl<(usize, usize)> for Matrix<T> {
    open spec fn index_req(&self, pos: &(usize, usize)) -> bool {
        self.wf() && pos.0 < self@.rows && pos.1 < self@.cols
    }
}

impl<'a, 'b, T: Copy + core::ops::Add<Output = T>> core::ops::Add<&'b Matrix<T>> for &'a Matrix<T> {
    type Output = Matrix<T>;

    fn add(self, rhs: &'b Matrix<T>) -> (r: Matrix<T>)
        ensures
            r.wf(),
            r@.rows == self@.rows,
            r@.cols == self@.cols,
            T::obeys_add_spec() ==> forall|i: int, j: int| #[trigger] r@.in_shape(i, j) ==> r@.elem(i, j) == self@.elem(i, j).add_spec(rhs@.elem(i, j)),
    {
        Matrix::sum(self, rhs)
    }
}

impl<'a, 'b, T: Copy + core::ops::Add<Output = T>> vstd::std_specs::ops::AddSpecImpl<&'b Matrix<T>> for &'a Matrix<T> {
    open spec fn obeys_add_spec() -> bool {
        false
    }

    /// Both matrices are well formed, of one shape, and no sum overflows.
    open spec fn add_req(self, rhs: &'b Matrix<T>) -> bool {
        &&& self.wf()
        &&& rhs.wf()
        &&& self@.rows == rhs@.rows
        &&& self@.cols == rhs@.cols
        &&& forall|i: int, j: int| #[trigger] self@.in_shape(i, j) ==> self@.elem(i, j).add_req(rhs@.elem(i, j))
    }

    open spec fn add_spec(self, rhs: &'b Matrix<T>) -> Matrix<T> {
        arbitrary()
    }
}

impl<T: Copy + core::ops::Add<Output = T>> core::ops::Add<Matrix<T>> for Matrix<T> {
    type Output = Matrix<T>;

    fn add(self, rhs: Matrix<T>) -> (r: Matrix<T>)
        ensures
            r.wf(),
            r@.rows == self@.rows,
            r@.cols == self@.cols,
            T::obeys_add_spec() ==> forall|i: int, j: int| #[trigger] r@.in_shape(i, j) ==> r@.elem(i, j) == self@.elem(i, j).add_spec(rhs@.elem(i, j)),
    {
        Matrix::sum(&self, &rhs)
    }
}

impl<T: Copy + core::ops::Add<Output = T>> vstd::std_specs::ops::AddSpecImpl<Matrix<T>> for Matrix<T> {
    open spec fn obeys_add_spec() -> bool {
        false
    }

    /// Both matrices are well formed, of one shape, and no sum overflows.
    open spec fn add_req(self, rhs: Matrix<T>) -> bool {
        &&& self.wf()
        &&& rhs.wf()
        &&& self@.rows == rhs@.rows
        &&& self@.cols == rhs@.cols
        &&& forall|i: int, j: int| #[trigger] self@.in_shape(i, j) ==> self@.elem(i, j).add_req(rhs@.elem(i, j))
    }

    open spec fn add_spec(self, rhs: Matrix<T>) -> Matrix<T> {
        arbitrary()
    }
}

impl<'b, T: Copy + core::ops::Add<Output = T>> core::ops::Add<&'b Matrix<T>> for Matrix<T> {
    type Output = Matrix<T>;

    fn add(self, rhs: &'b Matrix<T>) -> (r: Matrix<T>)
        ensures
            r.wf(),
            r@.rows == self@.rows,
            r@.cols == self@.cols,
            T::obeys_add_spec() ==> forall|i: int, j: int| #[trigger] r@.in_shape(i, j) ==> r@.elem(i, j) == self@.elem(i, j).add_spec(rhs@.elem(i, j)),
    {
        Matrix::sum(&self, rhs)
    }
}

impl<'b, T: Copy + core::ops::Add<Output = T>> vstd::std_specs::ops::AddSpecImpl<&'b Matrix<T>> for Matrix<T> {
    open spec fn obeys_add_spec() -> bool {
        false
    }

    /// Both matrices are well formed, of one shape, and no sum overflows.
    open spec fn add_req(self, rhs: &'b Matrix<T>) -> bool {
        &&& self.wf()
        &&& rhs.wf()
        &&& self@.rows == rhs@.rows
        &&& self@.cols == rhs@.cols
        &&& forall|i: int, j: int| #[trigger] self@.in_shape(i, j) ==> self@.elem(i, j).add_req(rhs@.elem(i, j))
    }

    open spec fn add_spec(self, rhs: &'b Matrix<T>) -> Matrix<T> {
        arbitrary()
    }
}

impl<'a, T: Copy + core::ops::Add<Output = T>> core::ops::Add<Matrix<T>> for &'a Matrix<T> {
    type Output = Matrix<T>;

    fn add(self, rhs: Matrix<T>) -> (r: Matrix<T>)
        ensures
            r.wf(),
            r@.rows == self@.rows,
            r@.cols == self@.cols,
            T::obeys_add_spec() ==> forall|i: int, j: int| #[trigger] r@.in_shape(i, j) ==> r@.elem(i, j) == self@.elem(i, j).add_spec(rhs@.elem(i, j)),
    {
        Matrix::sum(self, &rhs)
    }
}

impl<'a, T: Copy + core::ops::Add<Output = T>> vstd::std_specs::ops::AddSpecImpl<Matrix<T>> for &'a Matrix<T> {
    open spec fn obeys_add_spec() -> bool {
        false
    }

    /// Both matrices are well formed, of one shape, and no sum overflows.
    open spec fn add_req(self, rhs: Matrix<T>) -> bool {
        &&& self.wf()
        &&& rhs.wf()
        &&& self@.rows == rhs@.rows
        &&& self@.cols == rhs@.cols
        &&& forall|i: int, j: int| #[trigger] self@.in_shape(i, j) ==> self@.elem(i, j).add_req(rhs@.elem(i, j))
    }

    open spec fn add_spec(self, rhs: Matrix<T>) -> Matrix<T> {
        arbitrary()
    }
}

impl<'a, 'b, T: Copy + core::ops::Sub<Output = T>> core::ops::Sub<&'b Matrix<T>> for &'a Matrix<T> {
    type Output = Matrix<T>;

    fn sub(self, rhs: &'b Matrix<T>) -> (r: Matrix<T>)
        ensures
            r.wf(),
            r@.rows == self@.rows,
            r@.cols == self@.cols,
            T::obeys_sub_spec() ==> forall|i: int, j: int| #[trigger] r@.in_shape(i, j) ==> r@.elem(i, j) == self@.elem(i, j).sub_spec(rhs@.elem(i, j)),
    {
        Matrix::difference(self, rhs)
    }
}

impl<'a, 'b, T: Copy + core::ops::Sub<Output = T>> vstd::std_specs::ops::SubSpecImpl<&'b Matrix<T>> for &'a Matrix<T> {
    open spec fn obeys_sub_spec() -> bool {
        false
    }

    /// Both matrices are well formed, of one shape, and no difference overflows.
    open spec fn sub_req(self, rhs: &'b Matrix<T>) -> bool {
        &&& self.wf()
        &&& rhs.wf()
        &&& self@.rows == rhs@.rows
        &&& self@.cols == rhs@.cols
        &&& forall|i: int, j: int| #[trigger] self@.in_shape(i, j) ==> self@.elem(i, j).sub_req(rhs@.elem(i, j))
    }

    open spec fn sub_spec(self, rhs: &'b Matrix<T>) -> Matrix<T> {
        arbitrary()
    }
}

impl<T: Copy + core::ops::Sub<Output = T>> core::ops::Sub<Matrix<T>> for Matrix<T> {
    type Output = Matrix<T>;

    fn sub(self, rhs: Matrix<T>) -> (r: Matrix<T>)
        ensures
            r.wf(),
            r@.rows == self@.rows,
            r@.cols == self@.cols,
            T::obeys_sub_spec() ==> forall|i: int, j: int| #[trigger] r@.in_shape(i, j) ==> r@.elem(i, j) == self@.elem(i, j).sub_spec(rhs@.elem(i, j)),
    {
        Matrix::difference(&self, &rhs)
    }
}

impl<T: Copy + core::ops::Sub<Output = T>> vstd::std_specs::ops::SubSpecImpl<Matrix<T>> for Matrix<T> {
    open spec fn obeys_sub_spec() -> bool {
        false
    }

    /// Both matrices are well formed, of one shape, and no difference overflows.
    open spec fn sub_req(self, rhs: Matrix<T>) -> bool {
        &&& self.wf()
        &&& rhs.wf()
        &&& self@.rows == rhs@.rows
        &&& self@.cols == rhs@.cols
        &&& forall|i: int, j: int| #[trigger] self@.in_shape(i, j) ==> self@.elem(i, j).sub_req(rhs@.elem(i, j))
    }

    open spec fn sub_spec(self, rhs: Matrix<T>) -> Matrix<T> {
        arbitrary()
    }
}

impl<'b, T: Copy + core::ops::Sub<Output = T>> core::ops::Sub<&'b Matrix<T>> for Matrix<T> {
    type Output = Matrix<T>;

    fn sub(self, rhs: &'b Matrix<T>) -> (r: Matrix<T>)
        ensures
            r.wf(),
            r@.rows == self@.rows,
            r@.cols == self@.cols,
            T::obeys_sub_spec() ==> forall|i: int, j: int| #[trigger] r@.in_shape(i, j) ==> r@.elem(i, j) == self@.elem(i, j).sub_spec(rhs@.elem(i, j)),
    {
        Matrix::difference(&self, rhs)
    }
}

impl<'b, T: Copy + core::ops::Sub<Output = T>> vstd::std_specs::ops::SubSpecImpl<&'b Matrix<T>> for Matrix<T> {
    open spec fn obeys_sub_spec() -> bool {
        false
    }

    /// Both matrices are well formed, of one shape, and no difference overflows.
    open spec fn sub_req(self, rhs: &'b Matrix<T>) -> bool {
        &&& self.wf()
        &&& rhs.wf()
        &&& self@.rows == rhs@.rows
        &&& self@.cols == rhs@.cols
        &&& forall|i: int, j: int| #[trigger] self@.in_shape(i, j) ==> self@.elem(i, j).sub_req(rhs@.elem(i, j))
    }

    open spec fn sub_spec(self, rhs: &'b Matrix<T>) -> Matrix<T> {
        arbitrary()
    }
}

impl<'a, T: Copy + core::ops::Sub<Output = T>> core::ops::Sub<Matrix<T>> for &'a Matrix<T> {
    type Output = Matrix<T>;

    fn sub(self, rhs: Matrix<T>) -> (r: Matrix<T>)
        ensures
            r.wf(),
            r@.rows == self@.rows,
            r@.cols == self@.cols,
            T::obeys_sub_spec() ==> forall|i: int, j: int| #[trigger] r@.in_shape(i, j) ==> r@.elem(i, j) == self@.elem(i, j).sub_spec(rhs@.elem(i, j)),
    {
        Matrix::difference(self, &rhs)
    }
}

impl<'a, T: Copy + core::ops::Sub<Output = T>> vstd::std_specs::ops::SubSpecImpl<Matrix<T>> for &'a Matrix<T> {
    open spec fn obeys_sub_spec() -> bool {
        false
    }

    /// Both matrices are well formed, of one shape, and no difference overflows.
    open spec fn sub_req(self, rhs: Matrix<T>) -> bool {
        &&& self.wf()
        &&& rhs.wf()
        &&& self@.rows == rhs@.rows
        &&& self@.cols == rhs@.cols
        &&& forall|i: int, j: int| #[trigger] self@.in_shape(i, j) ==> self@.elem(i, j).sub_req(rhs@.elem(i, j))
    }

    open spec fn sub_spec(self, rhs: Matrix<T>) -> Matrix<T> {
        arbitrary()
    }
}

impl<'a, 'b, T: Scalar + core::ops::Add<Output = T> + core::ops::Mul<Output = T>> core::ops::Mul<&'b Matrix<T>> for &'a Matrix<T> {
    type Output = Matrix<T>;

    fn mul(self, rhs: &'b Matrix<T>) -> (r: Matrix<T>)
        ensures
            r.wf(),
            r@.rows == self@.rows,
            r@.cols == rhs@.cols,
            forall|i: int, j: int| #[trigger] r@.in_shape(i, j) ==> r@.elem(i, j) == dot_prefix(self@, rhs@, i, j, self@.cols as int),
    {
        Matrix::dot(self, rhs)
    }
}

impl<'a, 'b, T: Scalar + core::ops::Add<Output = T> + core::ops::Mul<Output = T>> vstd::std_specs::ops::MulSpecImpl<&'b Matrix<T>> for &'a Matrix<T> {
    open spec fn obeys_mul_spec() -> bool {
        false
    }

    /// The matrix product is defined: the inner sizes agree, the result fits,
    /// and no product or partial sum overflows.
    open spec fn mul_req(self, rhs: &'b Matrix<T>) -> bool {
        &&& self.wf()
        &&& rhs.wf()
        &&& self@.cols == rhs@.rows
        &&& self@.rows * rhs@.cols <= usize::MAX
        &&& T::obeys_add_spec()
        &&& T::obeys_mul_spec()
        &&& self.dot_defined(&rhs)
    }

    open spec fn mul_spec(self, rhs: &'b Matrix<T>) -> Matrix<T> {
        arbitrary()
    }
}

impl<T: Scalar + core::ops::Add<Output = T> + core::ops::Mul<Output = T>> core::ops::Mul<Matrix<T>> for Matrix<T> {
    type Output = Matrix<T>;

    fn mul(self, rhs: Matrix<T>) -> (r: Matrix<T>)
        ensures
            r.wf(),
            r@.rows == self@.rows,
            r@.cols == rhs@.cols,
            forall|i: int, j: int| #[trigger] r@.in_shape(i, j) ==> r@.elem(i, j) == dot_prefix(self@, rhs@, i, j, self@.cols as int),
    {
        Matrix::dot(&self, &rhs)
    }
}

impl<T: Scalar + core::ops::Add<Output = T> + core::ops::Mul<Output = T>> vstd::std_specs::ops::MulSpecImpl<Matrix<T>> for Matrix<T> {
    open spec fn obeys_mul_spec() -> bool {
        false
    }

    /// The matrix product is defined: the inner sizes agree, the result fits,
    /// and no product or partial sum overflows.
    open spec fn mul_req(self, rhs: Matrix<T>) -> bool {
        &&& self.wf()
        &&& rhs.wf()
        &&& self@.cols == rhs@.rows
        &&& self@.rows * rhs@.cols <= usize::MAX
        &&& T::obeys_add_spec()
        &&& T::obeys_mul_spec()
        &&& self.dot_defined(&rhs)
    }

    open spec fn mul_spec(self, rhs: Matrix<T>) -> Matrix<T> {
        arbitrary()
    }
}

impl<'b, T: Scalar + core::ops::Add<Output = T> + core::ops::Mul<Output = T>> core::ops::Mul<&'b Matrix<T>> for Matrix<T> {
    type Output = Matrix<T>;

    fn mul(self, rhs: &'b Matrix<T>) -> (r: Matrix<T>)
        ensures
            r.wf(),
            r@.rows == self@.rows,
            r@.cols == rhs@.cols,
            forall|i: int, j: int| #[trigger] r@.in_shape(i, j) ==> r@.elem(i, j) == dot_prefix(self@, rhs@, i, j, self@.cols as int),
    {
        Matrix::dot(&self, rhs)
    }
}

impl<'b, T: Scalar + core::ops::Add<Output = T> + core::ops::Mul<Output = T>> vstd::std_specs::ops::MulSpecImpl<&'b Matrix<T>> for Matrix<T> {
    open spec fn obeys_mul_spec() -> bool {
        false
    }

    /// The matrix product is defined: the inner sizes agree, the result fits,
    /// and no product or partial sum overflows.
    open spec fn mul_req(self, rhs: &'b Matrix<T>) -> bool {
        &&& self.wf()
        &&& rhs.wf()
        &&& self@.cols == rhs@.rows
        &&& self@.rows * rhs@.cols <= usize::MAX
        &&& T::obeys_add_spec()
        &&& T::obeys_mul_spec()
        &&& self.dot_defined(&rhs)
    }

    open spec fn mul_spec(self, rhs: &'b Matrix<T>) -> Matrix<T> {
        arbitrary()
    }
}

impl<'a, T: Scalar + core::ops::Add<Output = T> + core::ops::Mul<Output = T>> core::ops::Mul<Matrix<T>> for &'a Matrix<T> {
    type Output = Matrix<T>;

    fn mul(self, rhs: Matrix<T>) -> (r: Matrix<T>)
        ensures
            r.wf(),
            r@.rows == self@.rows,
            r@.cols == rhs@.cols,
            forall|i: int, j: int| #[trigger] r@.in_shape(i, j) ==> r@.elem(i, j) == dot_prefix(self@, rhs@, i, j, self@.cols as int),
    {
        Matrix::dot(self, &rhs)
    }
}

impl<'a, T: Scalar + core::ops::Add<Output = T> + core::ops::Mul<Output = T>> vstd::std_specs::ops::MulSpecImpl<Matrix<T>> for &'a Matrix<T> {
    open spec fn obeys_mul_spec() -> bool {
        false
    }

    /// The matrix product is defined: the inner sizes agree, the result fits,
    /// and no product or partial sum overflows.
    open spec fn mul_req(self, rhs: Matrix<T>) -> bool {
        &&& self.wf()
        &&& rhs.wf()
        &&& self@.cols == rhs@.rows
        &&& self@.rows * rhs@.cols <= usize::MAX
        &&& T::obeys_add_spec()
        &&& T::obeys_mul_spec()
        &&& self.dot_defined(&rhs)
    }

    open spec fn mul_spec(self, rhs: Matrix<T>) -> Matrix<T> {
        arbitrary()
    }
}

} // verus!
