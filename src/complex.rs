//! Real and imaginary parts of matrices of complex numbers.
use vstd::prelude::*;

use crate::mat::Mat;
use crate::mat_mut::MatMut;
use crate::mat_ref::MatRef;
use num_complex::Complex;

verus! {

/// `num_complex::Complex`, whose two public fields `re` and `im` verified
/// code reads directly.
#[verifier::external_type_specification]
#[verifier::reject_recursive_types(T)]
pub struct ExComplex<T>(Complex<T>);

impl<'a, T: Copy> MatRef<'a, Complex<T>> {
    /// The matrix of real parts.
    pub fn re(self) -> (r: Mat<T>)
        requires
            self.wf(),
        ensures
            r.wf(),
            r@.nrows == self.nrows,
            r@.ncols == self.ncols,
            forall|i: int, j: int| #[trigger] r@.in_shape(i, j) ==> r@.elem(i, j) == self.elem(i, j).re,
    {
        let part = |c: &Complex<T>| -> (x: T)
            ensures
                x == c.re,
        { c.re };
        let r = self.map(part);
        assert forall|i: int, j: int| #[trigger] r@.in_shape(i, j) implies r@.elem(i, j) == self.elem(i, j).re by {
            assert(self.in_shape(i, j));
        }
        r
    }

    /// The matrix of imaginary parts.
    pub fn im(self) -> (r: Mat<T>)
        requires
            self.wf(),
        ensures
            r.wf(),
            r@.nrows == self.nrows,
            r@.ncols == self.ncols,
            forall|i: int, j: int| #[trigger] r@.in_shape(i, j) ==> r@.elem(i, j) == self.elem(i, j).im,
    {
        let part = |c: &Complex<T>| -> (x: T)
            ensures
                x == c.im,
        { c.im };
        let r = self.map(part);
        assert forall|i: int, j: int| #[trigger] r@.in_shape(i, j) implies r@.elem(i, j) == self.elem(i, j).im by {
            assert(self.in_shape(i, j));
        }
        r
    }
}

impl<T: Copy> Mat<Complex<T>> {
    /// The matrix of real parts.
    pub fn re(&self) -> (r: Mat<T>)
        requires
            self.wf(),
        ensures
            r.wf(),
            r@.nrows == self@.nrows,
            r@.ncols == self@.ncols,
            forall|i: int, j: int| #[trigger] r@.in_shape(i, j) ==> r@.elem(i, j) == self@.elem(i, j).re,
    {
        let v = self.as_ref();
        let r = v.re();
        assert forall|i: int, j: int| #[trigger] r@.in_shape(i, j) implies r@.elem(i, j) == self@.elem(i, j).re by {
            assert(v.in_shape(i, j));
        }
        r
    }

    /// The matrix of imaginary parts.
    pub fn im(&self) -> (r: Mat<T>)
        requires
            self.wf(),
        ensures
            r.wf(),
            r@.nrows == self@.nrows,
            r@.ncols == self@.ncols,
            forall|i: int, j: int| #[trigger] r@.in_shape(i, j) ==> r@.elem(i, j) == self@.elem(i, j).im,
    {
        let v = self.as_ref();
        let r = v.im();
        assert forall|i: int, j: int| #[trigger] r@.in_shape(i, j) implies r@.elem(i, j) == self@.elem(i, j).im by {
            assert(v.in_shape(i, j));
        }
        r
    }
}

impl<'a, T: Copy> MatMut<'a, Complex<T>> {
    /// The matrix of real parts.
    pub fn re(&self) -> (r: Mat<T>)
        requires
            self.wf(),
        ensures
            r.wf(),
            r@.nrows == self.nrows,
            r@.ncols == self.ncols,
            forall|i: int, j: int| #[trigger] r@.in_shape(i, j) ==> r@.elem(i, j) == self.elem(i, j).re,
    {
        let v = self.rb();
        let r = v.re();
        assert forall|i: int, j: int| #[trigger] r@.in_shape(i, j) implies r@.elem(i, j) == self.elem(i, j).re by {
            assert(v.in_shape(i, j));
        }
        r
    }

    /// The matrix of imaginary parts.
    pub fn im(&self) -> (r: Mat<T>)
        requires
            self.wf(),
        ensures
            r.wf(),
            r@.nrows == self.nrows,
            r@.ncols == self.ncols,
            forall|i: int, j: int| #[trigger] r@.in_shape(i, j) ==> r@.elem(i, j) == self.elem(i, j).im,
    {
        let v = self.rb();
        let r = v.im();
        assert forall|i: int, j: int| #[trigger] r@.in_shape(i, j) implies r@.elem(i, j) == self.elem(i, j).im by {
            assert(v.in_shape(i, j));
        }
        r
    }
}

} // verus!
