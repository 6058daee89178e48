//! Element-wise arithmetic operators between matrices, and between a matrix
//! and a scalar.
use vstd::prelude::*;
use vstd::std_specs::ops::{AddSpec, DivSpec, MulSpec, NegSpec, SubSpec};

use crate::mat::Mat;
use crate::mat_mut::MatMut;
use crate::mat_ref::MatRef;

verus! {

/// `a + b`, element by element; both have the same shape and no sum may
/// overflow.
pub fn add_views<T: Copy + core::ops::Add<Output = T>>(a: MatRef<'_, T>, b: MatRef<'_, T>) -> (r: Mat<T>)
    requires
        a.wf(),
        b.wf(),
        a.nrows == b.nrows,
        a.ncols == b.ncols,
        forall|i: int, j: int| #[trigger] a.in_shape(i, j) ==> a.elem(i, j).add_req(b.elem(i, j)),
    ensures
        r.wf(),
        r@.nrows == a.nrows,
        r@.ncols == a.ncols,
        T::obeys_add_spec() ==> forall|i: int, j: int| #[trigger] r@.in_shape(i, j) ==> r@.elem(i, j) == a.elem(i, j).add_spec(b.elem(i, j)),
{
    let f = |x: &T, y: &T| -> (z: T)
        requires
            x.add_req(*y),
        ensures
            T::obeys_add_spec() ==> z == x.add_spec(*y),
    { *x + *y };
    let r = a.zip_map(b, f);
    assert forall|i: int, j: int| #[trigger] r@.in_shape(i, j) implies f.ensures((&a.elem(i, j), &b.elem(i, j)), r@.elem(i, j)) by {
        assert(a.in_shape(i, j));
    }
    r
}

/// `a - b`, element by element; both have the same shape and no
/// difference may overflow.
pub fn sub_views<T: Copy + core::ops::Sub<Output = T>>(a: MatRef<'_, T>, b: MatRef<'_, T>) -> (r: Mat<T>)
    requires
        a.wf(),
        b.wf(),
        a.nrows == b.nrows,
        a.ncols == b.ncols,
        forall|i: int, j: int| #[trigger] a.in_shape(i, j) ==> a.elem(i, j).sub_req(b.elem(i, j)),
    ensures
        r.wf(),
        r@.nrows == a.nrows,
        r@.ncols == a.ncols,
        T::obeys_sub_spec() ==> forall|i: int, j: int| #[trigger] r@.in_shape(i, j) ==> r@.elem(i, j) == a.elem(i, j).sub_spec(b.elem(i, j)),
{
    let f = |x: &T, y: &T| -> (z: T)
        requires
            x.sub_req(*y),
        ensures
            T::obeys_sub_spec() ==> z == x.sub_spec(*y),
    { *x - *y };
    let r = a.zip_map(b, f);
    assert forall|i: int, j: int| #[trigger] r@.in_shape(i, j) implies f.ensures((&a.elem(i, j), &b.elem(i, j)), r@.elem(i, j)) by {
        assert(a.in_shape(i, j));
    }
    r
}

/// Every element of `a` times `s`; no product may overflow.
pub fn mul_scalar<T: Copy + core::ops::Mul<Output = T>>(a: MatRef<'_, T>, s: T) -> (r: Mat<T>)
    requires
        a.wf(),
        forall|i: int, j: int| #[trigger] a.in_shape(i, j) ==> a.elem(i, j).mul_req(s),
    ensures
        r.wf(),
        r@.nrows == a.nrows,
        r@.ncols == a.ncols,
        T::obeys_mul_spec() ==> forall|i: int, j: int| #[trigger] r@.in_shape(i, j) ==> r@.elem(i, j) == a.elem(i, j).mul_spec(s),
{
    let f = |x: &T| -> (z: T)
        requires
            x.mul_req(s),
        ensures
            T::obeys_mul_spec() ==> z == x.mul_spec(s),
    { *x * s };
    let r = a.map(f);
    assert forall|i: int, j: int| #[trigger] r@.in_shape(i, j) implies f.ensures((&a.elem(i, j),), r@.elem(i, j)) by {
        assert(a.in_shape(i, j));
    }
    r
}

/// Every element of `a` divided by `s`; every quotient must be defined.
pub fn div_scalar<T: Copy + core::ops::Div<Output = T>>(a: MatRef<'_, T>, s: T) -> (r: Mat<T>)
    requires
        a.wf(),
        forall|i: int, j: int| #[trigger] a.in_shape(i, j) ==> a.elem(i, j).div_req(s),
    ensures
        r.wf(),
        r@.nrows == a.nrows,
        r@.ncols == a.ncols,
        T::obeys_div_spec() ==> forall|i: int, j: int| #[trigger] r@.in_shape(i, j) ==> r@.elem(i, j) == a.elem(i, j).div_spec(s),
{
    let f = |x: &T| -> (z: T)
        requires
            x.div_req(s),
        ensures
            T::obeys_div_spec() ==> z == x.div_spec(s),
    { *x / s };
    let r = a.map(f);
    assert forall|i: int, j: int| #[trigger] r@.in_shape(i, j) implies f.ensures((&a.elem(i, j),), r@.elem(i, j)) by {
        assert(a.in_shape(i, j));
    }
    r
}

/// Every element of `a` negated; no negation may overflow.
pub fn neg_view<T: Copy + core::ops::Neg<Output = T>>(a: MatRef<'_, T>) -> (r: Mat<T>)
    requires
        a.wf(),
        forall|i: int, j: int| #[trigger] a.in_shape(i, j) ==> a.elem(i, j).neg_req(),
    ensures
        r.wf(),
        r@.nrows == a.nrows,
        r@.ncols == a.ncols,
        T::obeys_neg_spec() ==> forall|i: int, j: int| #[trigger] r@.in_shape(i, j) ==> r@.elem(i, j) == a.elem(i, j).neg_spec(),
{
    let f = |x: &T| -> (z: T)
        requires
            x.neg_req(),
        ensures
            T::obeys_neg_spec() ==> z == x.neg_spec(),
    { core::ops::Neg::neg(*x) };
    let r = a.map(f);
    assert forall|i: int, j: int| #[trigger] r@.in_shape(i, j) implies f.ensures((&a.elem(i, j),), r@.elem(i, j)) by {
        assert(a.in_shape(i, j));
    }
    r
}

impl<'a, 'b, T: Copy + core::ops::Add<Output = T>> core::ops::Add<MatRef<'b, T>> for MatRef<'a, T> {
    type Output = Mat<T>;

    fn add(self, rhs: MatRef<'b, T>) -> (r: Mat<T>)
        ensures
            r.wf(),
            r@.nrows == self.nrows,
            r@.ncols == self.ncols,
            T::obeys_add_spec() ==> forall|i: int, j: int| #[trigger] r@.in_shape(i, j) ==> r@.elem(i, j) == self.elem(i, j).add_spec(rhs.elem(i, j)),
    {
        let a = self;
        let b = rhs;
        assert forall|i: int, j: int| #[trigger] a.in_shape(i, j) implies a.elem(i, j).add_req(b.elem(i, j)) by {
            assert(self.in_shape(i, j));
            assert(rhs.in_shape(i, j));
        }
        let r = add_views(a, b);
        assert forall|i: int, j: int| #[trigger] r@.in_shape(i, j) implies self.elem(i, j) == a.elem(i, j) && rhs.elem(i, j) == b.elem(i, j) by {
            assert(self.in_shape(i, j));
            assert(rhs.in_shape(i, j));
        }
        r
    }
}

impl<'a, 'b, T: Copy + core::ops::Add<Output = T>> vstd::std_specs::ops::AddSpecImpl<MatRef<'b, T>> for MatRef<'a, T> {
    open spec fn obeys_add_spec() -> bool {
        false
    }

    /// Both operands are well formed, of one shape, and no sum overflows.
    open spec fn add_req(self, rhs: MatRef<'b, T>) -> bool {
        &&& self.wf()
        &&& rhs.wf()
        &&& self.nrows == rhs.nrows
        &&& self.ncols == rhs.ncols
        &&& forall|i: int, j: int| #[trigger] self.in_shape(i, j) ==> self.elem(i, j).add_req(rhs.elem(i, j))
    }

    open spec fn add_spec(self, rhs: MatRef<'b, T>) -> Mat<T> {
        arbitrary()
    }
}

impl<'a, 'b, T: Copy + core::ops::Add<Output = T>> core::ops::Add<&'b Mat<T>> for &'a Mat<T> {
    type Output = Mat<T>;

    fn add(self, rhs: &'b Mat<T>) -> (r: Mat<T>)
        ensures
            r.wf(),
            r@.nrows == self@.nrows,
            r@.ncols == self@.ncols,
            T::obeys_add_spec() ==> forall|i: int, j: int| #[trigger] r@.in_shape(i, j) ==> r@.elem(i, j) == self@.elem(i, j).add_spec(rhs@.elem(i, j)),
    {
        let a = self.as_ref();
        let b = rhs.as_ref();
        assert forall|i: int, j: int| #[trigger] a.in_shape(i, j) implies a.elem(i, j).add_req(b.elem(i, j)) by {
            assert(self@.in_shape(i, j));
            assert(rhs@.in_shape(i, j));
        }
        let r = add_views(a, b);
        assert forall|i: int, j: int| #[trigger] r@.in_shape(i, j) implies self@.elem(i, j) == a.elem(i, j) && rhs@.elem(i, j) == b.elem(i, j) by {
            assert(self@.in_shape(i, j));
            assert(rhs@.in_shape(i, j));
        }
        r
    }
}

impl<'a, 'b, T: Copy + core::ops::Add<Output = T>> vstd::std_specs::ops::AddSpecImpl<&'b Mat<T>> for &'a Mat<T> {
    open spec fn obeys_add_spec() -> bool {
        false
    }

    /// Both operands are well formed, of one shape, and no sum overflows.
    open spec fn add_req(self, rhs: &'b Mat<T>) -> bool {
        &&& self.wf()
        &&& rhs.wf()
        &&& self@.nrows == rhs@.nrows
        &&& self@.ncols == rhs@.ncols
        &&& forall|i: int, j: int| #[trigger] self@.in_shape(i, j) ==> self@.elem(i, j).add_req(rhs@.elem(i, j))
    }

    open spec fn add_spec(self, rhs: &'b Mat<T>) -> Mat<T> {
        arbitrary()
    }
}

impl<T: Copy + core::ops::Add<Output = T>> core::ops::Add<Mat<T>> for Mat<T> {
    type Output = Mat<T>;

    fn add(self, rhs: Mat<T>) -> (r: Mat<T>)
        ensures
            r.wf(),
            r@.nrows == self@.nrows,
            r@.ncols == self@.ncols,
            T::obeys_add_spec() ==> forall|i: int, j: int| #[trigger] r@.in_shape(i, j) ==> r@.elem(i, j) == self@.elem(i, j).add_spec(rhs@.elem(i, j)),
    {
        let a = self.as_ref();
        let b = rhs.as_ref();
        assert forall|i: int, j: int| #[trigger] a.in_shape(i, j) implies a.elem(i, j).add_req(b.elem(i, j)) by {
            assert(self@.in_shape(i, j));
            assert(rhs@.in_shape(i, j));
        }
        let r = add_views(a, b);
        assert forall|i: int, j: int| #[trigger] r@.in_shape(i, j) implies self@.elem(i, j) == a.elem(i, j) && rhs@.elem(i, j) == b.elem(i, j) by {
            assert(self@.in_shape(i, j));
            assert(rhs@.in_shape(i, j));
        }
        r
    }
}

impl<T: Copy + core::ops::Add<Output = T>> vstd::std_specs::ops::AddSpecImpl<Mat<T>> for Mat<T> {
    open spec fn obeys_add_spec() -> bool {
        false
    }

    /// Both operands are well formed, of one shape, and no sum overflows.
    open spec fn add_req(self, rhs: Mat<T>) -> bool {
        &&& self.wf()
        &&& rhs.wf()
        &&& self@.nrows == rhs@.nrows
        &&& self@.ncols == rhs@.ncols
        &&& forall|i: int, j: int| #[trigger] self@.in_shape(i, j) ==> self@.elem(i, j).add_req(rhs@.elem(i, j))
    }

    open spec fn add_spec(self, rhs: Mat<T>) -> Mat<T> {
        arbitrary()
    }
}

impl<'b, T: Copy + core::ops::Add<Output = T>> core::ops::Add<&'b Mat<T>> for Mat<T> {
    type Output = Mat<T>;

    fn add(self, rhs: &'b Mat<T>) -> (r: Mat<T>)
        ensures
            r.wf(),
            r@.nrows == self@.nrows,
            r@.ncols == self@.ncols,
            T::obeys_add_spec() ==> forall|i: int, j: int| #[trigger] r@.in_shape(i, j) ==> r@.elem(i, j) == self@.elem(i, j).add_spec(rhs@.elem(i, j)),
    {
        let a = self.as_ref();
        let b = rhs.as_ref();
        assert forall|i: int, j: int| #[trigger] a.in_shape(i, j) implies a.elem(i, j).add_req(b.elem(i, j)) by {
            assert(self@.in_shape(i, j));
            assert(rhs@.in_shape(i, j));
        }
        let r = add_views(a, b);
        assert forall|i: int, j: int| #[trigger] r@.in_shape(i, j) implies self@.elem(i, j) == a.elem(i, j) && rhs@.elem(i, j) == b.elem(i, j) by {
            assert(self@.in_shape(i, j));
            assert(rhs@.in_shape(i, j));
        }
        r
    }
}

impl<'b, T: Copy + core::ops::Add<Output = T>> vstd::std_specs::ops::AddSpecImpl<&'b Mat<T>> for Mat<T> {
    open spec fn obeys_add_spec() -> bool {
        false
    }

    /// Both operands are well formed, of one shape, and no sum overflows.
    open spec fn add_req(self, rhs: &'b Mat<T>) -> bool {
        &&& self.wf()
        &&& rhs.wf()
        &&& self@.nrows == rhs@.nrows
        &&& self@.ncols == rhs@.ncols
        &&& forall|i: int, j: int| #[trigger] self@.in_shape(i, j) ==> self@.elem(i, j).add_req(rhs@.elem(i, j))
    }

    open spec fn add_spec(self, rhs: &'b Mat<T>) -> Mat<T> {
        arbitrary()
    }
}

impl<'a, T: Copy + core::ops::Add<Output = T>> core::ops::Add<Mat<T>> for &'a Mat<T> {
    type Output = Mat<T>;

    fn add(self, rhs: Mat<T>) -> (r: Mat<T>)
        ensures
            r.wf(),
            r@.nrows == self@.nrows,
            r@.ncols == self@.ncols,
            T::obeys_add_spec() ==> forall|i: int, j: int| #[trigger] r@.in_shape(i, j) ==> r@.elem(i, j) == self@.elem(i, j).add_spec(rhs@.elem(i, j)),
    {
        let a = self.as_ref();
        let b = rhs.as_ref();
        assert forall|i: int, j: int| #[trigger] a.in_shape(i, j) implies a.elem(i, j).add_req(b.elem(i, j)) by {
            assert(self@.in_shape(i, j));
            assert(rhs@.in_shape(i, j));
        }
        let r = add_views(a, b);
        assert forall|i: int, j: int| #[trigger] r@.in_shape(i, j) implies self@.elem(i, j) == a.elem(i, j) && rhs@.elem(i, j) == b.elem(i, j) by {
            assert(self@.in_shape(i, j));
            assert(rhs@.in_shape(i, j));
        }
        r
    }
}

impl<'a, T: Copy + core::ops::Add<Output = T>> vstd::std_specs::ops::AddSpecImpl<Mat<T>> for &'a Mat<T> {
    open spec fn obeys_add_spec() -> bool {
        false
    }

    /// Both operands are well formed, of one shape, and no sum overflows.
    open spec fn add_req(self, rhs: Mat<T>) -> bool {
        &&& self.wf()
        &&& rhs.wf()
        &&& self@.nrows == rhs@.nrows
        &&& self@.ncols == rhs@.ncols
        &&& forall|i: int, j: int| #[trigger] self@.in_shape(i, j) ==> self@.elem(i, j).add_req(rhs@.elem(i, j))
    }

    open spec fn add_spec(self, rhs: Mat<T>) -> Mat<T> {
        arbitrary()
    }
}

impl<'a, 'b, T: Copy + core::ops::Add<Output = T>> core::ops::Add<&'b Mat<T>> for MatRef<'a, T> {
    type Output = Mat<T>;

    fn add(self, rhs: &'b Mat<T>) -> (r: Mat<T>)
        ensures
            r.wf(),
            r@.nrows == self.nrows,
            r@.ncols == self.ncols,
            T::obeys_add_spec() ==> forall|i: int, j: int| #[trigger] r@.in_shape(i, j) ==> r@.elem(i, j) == self.elem(i, j).add_spec(rhs@.elem(i, j)),
    {
        let a = self;
        let b = rhs.as_ref();
        assert forall|i: int, j: int| #[trigger] a.in_shape(i, j) implies a.elem(i, j).add_req(b.elem(i, j)) by {
            assert(self.in_shape(i, j));
            assert(rhs@.in_shape(i, j));
        }
        let r = add_views(a, b);
        assert forall|i: int, j: int| #[trigger] r@.in_shape(i, j) implies self.elem(i, j) == a.elem(i, j) && rhs@.elem(i, j) == b.elem(i, j) by {
            assert(self.in_shape(i, j));
            assert(rhs@.in_shape(i, j));
        }
        r
    }
}

impl<'a, 'b, T: Copy + core::ops::Add<Output = T>> vstd::std_specs::ops::AddSpecImpl<&'b Mat<T>> for MatRef<'a, T> {
    open spec fn obeys_add_spec() -> bool {
        false
    }

    /// Both operands are well formed, of one shape, and no sum overflows.
    open spec fn add_req(self, rhs: &'b Mat<T>) -> bool {
        &&& self.wf()
        &&& rhs.wf()
        &&& self.nrows == rhs@.nrows
        &&& self.ncols == rhs@.ncols
        &&& forall|i: int, j: int| #[trigger] self.in_shape(i, j) ==> self.elem(i, j).add_req(rhs@.elem(i, j))
    }

    open spec fn add_spec(self, rhs: &'b Mat<T>) -> Mat<T> {
        arbitrary()
    }
}

impl<'a, 'b, T: Copy + core::ops::Add<Output = T>> core::ops::Add<MatRef<'b, T>> for &'a Mat<T> {
    type Output = Mat<T>;

    fn add(self, rhs: MatRef<'b, T>) -> (r: Mat<T>)
        ensures
            r.wf(),
            r@.nrows == self@.nrows,
            r@.ncols == self@.ncols,
            T::obeys_add_spec() ==> forall|i: int, j: int| #[trigger] r@.in_shape(i, j) ==> r@.elem(i, j) == self@.elem(i, j).add_spec(rhs.elem(i, j)),
    {
        let a = self.as_ref();
        let b = rhs;
        assert forall|i: int, j: int| #[trigger] a.in_shape(i, j) implies a.elem(i, j).add_req(b.elem(i, j)) by {
            assert(self@.in_shape(i, j));
            assert(rhs.in_shape(i, j));
        }
        let r = add_views(a, b);
        assert forall|i: int, j: int| #[trigger] r@.in_shape(i, j) implies self@.elem(i, j) == a.elem(i, j) && rhs.elem(i, j) == b.elem(i, j) by {
            assert(self@.in_shape(i, j));
            assert(rhs.in_shape(i, j));
        }
        r
    }
}

impl<'a, 'b, T: Copy + core::ops::Add<Output = T>> vstd::std_specs::ops::AddSpecImpl<MatRef<'b, T>> for &'a Mat<T> {
    open spec fn obeys_add_spec() -> bool {
        false
    }

    /// Both operands are well formed, of one shape, and no sum overflows.
    open spec fn add_req(self, rhs: MatRef<'b, T>) -> bool {
        &&& self.wf()
        &&& rhs.wf()
        &&& self@.nrows == rhs.nrows
        &&& self@.ncols == rhs.ncols
        &&& forall|i: int, j: int| #[trigger] self@.in_shape(i, j) ==> self@.elem(i, j).add_req(rhs.elem(i, j))
    }

    open spec fn add_spec(self, rhs: MatRef<'b, T>) -> Mat<T> {
        arbitrary()
    }
}

impl<'b, T: Copy + core::ops::Add<Output = T>> core::ops::Add<MatRef<'b, T>> for Mat<T> {
    type Output = Mat<T>;

    fn add(self, rhs: MatRef<'b, T>) -> (r: Mat<T>)
        ensures
            r.wf(),
            r@.nrows == self@.nrows,
            r@.ncols == self@.ncols,
            T::obeys_add_spec() ==> forall|i: int, j: int| #[trigger] r@.in_shape(i, j) ==> r@.elem(i, j) == self@.elem(i, j).add_spec(rhs.elem(i, j)),
    {
        let a = self.as_ref();
        let b = rhs;
        assert forall|i: int, j: int| #[trigger] a.in_shape(i, j) implies a.elem(i, j).add_req(b.elem(i, j)) by {
            assert(self@.in_shape(i, j));
            assert(rhs.in_shape(i, j));
        }
        let r = add_views(a, b);
        assert forall|i: int, j: int| #[trigger] r@.in_shape(i, j) implies self@.elem(i, j) == a.elem(i, j) && rhs.elem(i, j) == b.elem(i, j) by {
            assert(self@.in_shape(i, j));
            assert(rhs.in_shape(i, j));
        }
        r
    }
}

impl<'b, T: Copy + core::ops::Add<Output = T>> vstd::std_specs::ops::AddSpecImpl<MatRef<'b, T>> for Mat<T> {
    open spec fn obeys_add_spec() -> bool {
        false
    }

    /// Both operands are well formed, of one shape, and no sum overflows.
    open spec fn add_req(self, rhs: MatRef<'b, T>) -> bool {
        &&& self.wf()
        &&& rhs.wf()
        &&& self@.nrows == rhs.nrows
        &&& self@.ncols == rhs.ncols
        &&& forall|i: int, j: int| #[trigger] self@.in_shape(i, j) ==> self@.elem(i, j).add_req(rhs.elem(i, j))
    }

    open spec fn add_spec(self, rhs: MatRef<'b, T>) -> Mat<T> {
        arbitrary()
    }
}

impl<'a, T: Copy + core::ops::Add<Output = T>> core::ops::Add<Mat<T>> for MatRef<'a, T> {
    type Output = Mat<T>;

    fn add(self, rhs: Mat<T>) -> (r: Mat<T>)
        ensures
            r.wf(),
            r@.nrows == self.nrows,
            r@.ncols == self.ncols,
            T::obeys_add_spec() ==> forall|i: int, j: int| #[trigger] r@.in_shape(i, j) ==> r@.elem(i, j) == self.elem(i, j).add_spec(rhs@.elem(i, j)),
    {
        let a = self;
        let b = rhs.as_ref();
        assert forall|i: int, j: int| #[trigger] a.in_shape(i, j) implies a.elem(i, j).add_req(b.elem(i, j)) by {
            assert(self.in_shape(i, j));
            assert(rhs@.in_shape(i, j));
        }
        let r = add_views(a, b);
        assert forall|i: int, j: int| #[trigger] r@.in_shape(i, j) implies self.elem(i, j) == a.elem(i, j) && rhs@.elem(i, j) == b.elem(i, j) by {
            assert(self.in_shape(i, j));
            assert(rhs@.in_shape(i, j));
        }
        r
    }
}

impl<'a, T: Copy + core::ops::Add<Output = T>> vstd::std_specs::ops::AddSpecImpl<Mat<T>> for MatRef<'a, T> {
    open spec fn obeys_add_spec() -> bool {
        false
    }

    /// Both operands are well formed, of one shape, and no sum overflows.
    open spec fn add_req(self, rhs: Mat<T>) -> bool {
        &&& self.wf()
        &&& rhs.wf()
        &&& self.nrows == rhs@.nrows
        &&& self.ncols == rhs@.ncols
        &&& forall|i: int, j: int| #[trigger] self.in_shape(i, j) ==> self.elem(i, j).add_req(rhs@.elem(i, j))
    }

    open spec fn add_spec(self, rhs: Mat<T>) -> Mat<T> {
        arbitrary()
    }
}

impl<'a, 'b, T: Copy + core::ops::Add<Output = T>> core::ops::Add<MatRef<'b, T>> for MatMut<'a, T> {
    type Output = Mat<T>;

    fn add(self, rhs: MatRef<'b, T>) -> (r: Mat<T>)
        ensures
            r.wf(),
            r@.nrows == self.nrows,
            r@.ncols == self.ncols,
            T::obeys_add_spec() ==> forall|i: int, j: int| #[trigger] r@.in_shape(i, j) ==> r@.elem(i, j) == self.elem(i, j).add_spec(rhs.elem(i, j)),
    {
        let a = self.rb();
        let b = rhs;
        assert forall|i: int, j: int| #[trigger] a.in_shape(i, j) implies a.elem(i, j).add_req(b.elem(i, j)) by {
            assert(self.in_shape(i, j));
            assert(rhs.in_shape(i, j));
        }
        let r = add_views(a, b);
        assert forall|i: int, j: int| #[trigger] r@.in_shape(i, j) implies self.elem(i, j) == a.elem(i, j) && rhs.elem(i, j) == b.elem(i, j) by {
            assert(self.in_shape(i, j));
            assert(rhs.in_shape(i, j));
        }
        r
    }
}

impl<'a, 'b, T: Copy + core::ops::Add<Output = T>> vstd::std_specs::ops::AddSpecImpl<MatRef<'b, T>> for MatMut<'a, T> {
    open spec fn obeys_add_spec() -> bool {
        false
    }

    /// Both operands are well formed, of one shape, and no sum overflows.
    open spec fn add_req(self, rhs: MatRef<'b, T>) -> bool {
        &&& self.wf()
        &&& rhs.wf()
        &&& self.nrows == rhs.nrows
        &&& self.ncols == rhs.ncols
        &&& forall|i: int, j: int| #[trigger] self.in_shape(i, j) ==> self.elem(i, j).add_req(rhs.elem(i, j))
    }

    open spec fn add_spec(self, rhs: MatRef<'b, T>) -> Mat<T> {
        arbitrary()
    }
}

impl<'a, 'b, T: Copy + core::ops::Add<Output = T>> core::ops::Add<MatMut<'b, T>> for MatRef<'a, T> {
    type Output = Mat<T>;

    fn add(self, rhs: MatMut<'b, T>) -> (r: Mat<T>)
        ensures
            r.wf(),
            r@.nrows == self.nrows,
            r@.ncols == self.ncols,
            T::obeys_add_spec() ==> forall|i: int, j: int| #[trigger] r@.in_shape(i, j) ==> r@.elem(i, j) == self.elem(i, j).add_spec(rhs.elem(i, j)),
    {
        let a = self;
        let b = rhs.rb();
        assert forall|i: int, j: int| #[trigger] a.in_shape(i, j) implies a.elem(i, j).add_req(b.elem(i, j)) by {
            assert(self.in_shape(i, j));
            assert(rhs.in_shape(i, j));
        }
        let r = add_views(a, b);
        assert forall|i: int, j: int| #[trigger] r@.in_shape(i, j) implies self.elem(i, j) == a.elem(i, j) && rhs.elem(i, j) == b.elem(i, j) by {
            assert(self.in_shape(i, j));
            assert(rhs.in_shape(i, j));
        }
        r
    }
}

impl<'a, 'b, T: Copy + core::ops::Add<Output = T>> vstd::std_specs::ops::AddSpecImpl<MatMut<'b, T>> for MatRef<'a, T> {
    open spec fn obeys_add_spec() -> bool {
        false
    }

    /// Both operands are well formed, of one shape, and no sum overflows.
    open spec fn add_req(self, rhs: MatMut<'b, T>) -> bool {
        &&& self.wf()
        &&& rhs.wf()
        &&& self.nrows == rhs.nrows
        &&& self.ncols == rhs.ncols
        &&& forall|i: int, j: int| #[trigger] self.in_shape(i, j) ==> self.elem(i, j).add_req(rhs.elem(i, j))
    }

    open spec fn add_spec(self, rhs: MatMut<'b, T>) -> Mat<T> {
        arbitrary()
    }
}

impl<'a, 'b, T: Copy + core::ops::Add<Output = T>> core::ops::Add<MatMut<'b, T>> for MatMut<'a, T> {
    type Output = Mat<T>;

    fn add(self, rhs: MatMut<'b, T>) -> (r: Mat<T>)
        ensures
            r.wf(),
            r@.nrows == self.nrows,
            r@.ncols == self.ncols,
            T::obeys_add_spec() ==> forall|i: int, j: int| #[trigger] r@.in_shape(i, j) ==> r@.elem(i, j) == self.elem(i, j).add_spec(rhs.elem(i, j)),
    {
        let a = self.rb();
        let b = rhs.rb();
        assert forall|i: int, j: int| #[trigger] a.in_shape(i, j) implies a.elem(i, j).add_req(b.elem(i, j)) by {
            assert(self.in_shape(i, j));
            assert(rhs.in_shape(i, j));
        }
        let r = add_views(a, b);
        assert forall|i: int, j: int| #[trigger] r@.in_shape(i, j) implies self.elem(i, j) == a.elem(i, j) && rhs.elem(i, j) == b.elem(i, j) by {
            assert(self.in_shape(i, j));
            assert(rhs.in_shape(i, j));
        }
        r
    }
}

impl<'a, 'b, T: Copy + core::ops::Add<Output = T>> vstd::std_specs::ops::AddSpecImpl<MatMut<'b, T>> for MatMut<'a, T> {
    open spec fn obeys_add_spec() -> bool {
        false
    }

    /// Both operands are well formed, of one shape, and no sum overflows.
    open spec fn add_req(self, rhs: MatMut<'b, T>) -> bool {
        &&& self.wf()
        &&& rhs.wf()
        &&& self.nrows == rhs.nrows
        &&& self.ncols == rhs.ncols
        &&& forall|i: int, j: int| #[trigger] self.in_shape(i, j) ==> self.elem(i, j).add_req(rhs.elem(i, j))
    }

    open spec fn add_spec(self, rhs: MatMut<'b, T>) -> Mat<T> {
        arbitrary()
    }
}

impl<'a, 'c, 'b, T: Copy + core::ops::Add<Output = T>> core::ops::Add<MatRef<'b, T>> for &'a MatMut<'c, T> {
    type Output = Mat<T>;

    fn add(self, rhs: MatRef<'b, T>) -> (r: Mat<T>)
        ensures
            r.wf(),
            r@.nrows == self.nrows,
            r@.ncols == self.ncols,
            T::obeys_add_spec() ==> forall|i: int, j: int| #[trigger] r@.in_shape(i, j) ==> r@.elem(i, j) == self.elem(i, j).add_spec(rhs.elem(i, j)),
    {
        let a = self.rb();
        let b = rhs;
        assert forall|i: int, j: int| #[trigger] a.in_shape(i, j) implies a.elem(i, j).add_req(b.elem(i, j)) by {
            assert(self.in_shape(i, j));
            assert(rhs.in_shape(i, j));
        }
        let r = add_views(a, b);
        assert forall|i: int, j: int| #[trigger] r@.in_shape(i, j) implies self.elem(i, j) == a.elem(i, j) && rhs.elem(i, j) == b.elem(i, j) by {
            assert(self.in_shape(i, j));
            assert(rhs.in_shape(i, j));
        }
        r
    }
}

impl<'a, 'c, 'b, T: Copy + core::ops::Add<Output = T>> vstd::std_specs::ops::AddSpecImpl<MatRef<'b, T>> for &'a MatMut<'c, T> {
    open spec fn obeys_add_spec() -> bool {
        false
    }

    /// Both operands are well formed, of one shape, and no sum overflows.
    open spec fn add_req(self, rhs: MatRef<'b, T>) -> bool {
        &&& self.wf()
        &&& rhs.wf()
        &&& self.nrows == rhs.nrows
        &&& self.ncols == rhs.ncols
        &&& forall|i: int, j: int| #[trigger] self.in_shape(i, j) ==> self.elem(i, j).add_req(rhs.elem(i, j))
    }

    open spec fn add_spec(self, rhs: MatRef<'b, T>) -> Mat<T> {
        arbitrary()
    }
}

impl<'a, 'b, 'd, T: Copy + core::ops::Add<Output = T>> core::ops::Add<&'b MatMut<'d, T>> for MatRef<'a, T> {
    type Output = Mat<T>;

    fn add(self, rhs: &'b MatMut<'d, T>) -> (r: Mat<T>)
        ensures
            r.wf(),
            r@.nrows == self.nrows,
            r@.ncols == self.ncols,
            T::obeys_add_spec() ==> forall|i: int, j: int| #[trigger] r@.in_shape(i, j) ==> r@.elem(i, j) == self.elem(i, j).add_spec(rhs.elem(i, j)),
    {
        let a = self;
        let b = rhs.rb();
        assert forall|i: int, j: int| #[trigger] a.in_shape(i, j) implies a.elem(i, j).add_req(b.elem(i, j)) by {
            assert(self.in_shape(i, j));
            assert(rhs.in_shape(i, j));
        }
        let r = add_views(a, b);
        assert forall|i: int, j: int| #[trigger] r@.in_shape(i, j) implies self.elem(i, j) == a.elem(i, j) && rhs.elem(i, j) == b.elem(i, j) by {
            assert(self.in_shape(i, j));
            assert(rhs.in_shape(i, j));
        }
        r
    }
}

impl<'a, 'b, 'd, T: Copy + core::ops::Add<Output = T>> vstd::std_specs::ops::AddSpecImpl<&'b MatMut<'d, T>> for MatRef<'a, T> {
    open spec fn obeys_add_spec() -> bool {
        false
    }

    /// Both operands are well formed, of one shape, and no sum overflows.
    open spec fn add_req(self, rhs: &'b MatMut<'d, T>) -> bool {
        &&& self.wf()
        &&& rhs.wf()
        &&& self.nrows == rhs.nrows
        &&& self.ncols == rhs.ncols
        &&& forall|i: int, j: int| #[trigger] self.in_shape(i, j) ==> self.elem(i, j).add_req(rhs.elem(i, j))
    }

    open spec fn add_spec(self, rhs: &'b MatMut<'d, T>) -> Mat<T> {
        arbitrary()
    }
}

impl<'a, 'c, 'b, 'd, T: Copy + core::ops::Add<Output = T>> core::ops::Add<&'b MatMut<'d, T>> for &'a MatMut<'c, T> {
    type Output = Mat<T>;

    fn add(self, rhs: &'b MatMut<'d, T>) -> (r: Mat<T>)
        ensures
            r.wf(),
            r@.nrows == self.nrows,
            r@.ncols == self.ncols,
            T::obeys_add_spec() ==> forall|i: int, j: int| #[trigger] r@.in_shape(i, j) ==> r@.elem(i, j) == self.elem(i, j).add_spec(rhs.elem(i, j)),
    {
        let a = self.rb();
        let b = rhs.rb();
        assert forall|i: int, j: int| #[trigger] a.in_shape(i, j) implies a.elem(i, j).add_req(b.elem(i, j)) by {
            assert(self.in_shape(i, j));
            assert(rhs.in_shape(i, j));
        }
        let r = add_views(a, b);
        assert forall|i: int, j: int| #[trigger] r@.in_shape(i, j) implies self.elem(i, j) == a.elem(i, j) && rhs.elem(i, j) == b.elem(i, j) by {
            assert(self.in_shape(i, j));
            assert(rhs.in_shape(i, j));
        }
        r
    }
}

impl<'a, 'c, 'b, 'd, T: Copy + core::ops::Add<Output = T>> vstd::std_specs::ops::AddSpecImpl<&'b MatMut<'d, T>> for &'a MatMut<'c, T> {
    open spec fn obeys_add_spec() -> bool {
        false
    }

    /// Both operands are well formed, of one shape, and no sum overflows.
    open spec fn add_req(self, rhs: &'b MatMut<'d, T>) -> bool {
        &&& self.wf()
        &&& rhs.wf()
        &&& self.nrows == rhs.nrows
        &&& self.ncols == rhs.ncols
        &&& forall|i: int, j: int| #[trigger] self.in_shape(i, j) ==> self.elem(i, j).add_req(rhs.elem(i, j))
    }

    open spec fn add_spec(self, rhs: &'b MatMut<'d, T>) -> Mat<T> {
        arbitrary()
    }
}

impl<'a, 'b, T: Copy + core::ops::Add<Output = T>> core::ops::Add<&'b Mat<T>> for MatMut<'a, T> {
    type Output = Mat<T>;

    fn add(self, rhs: &'b Mat<T>) -> (r: Mat<T>)
        ensures
            r.wf(),
            r@.nrows == self.nrows,
            r@.ncols == self.ncols,
            T::obeys_add_spec() ==> forall|i: int, j: int| #[trigger] r@.in_shape(i, j) ==> r@.elem(i, j) == self.elem(i, j).add_spec(rhs@.elem(i, j)),
    {
        let a = self.rb();
        let b = rhs.as_ref();
        assert forall|i: int, j: int| #[trigger] a.in_shape(i, j) implies a.elem(i, j).add_req(b.elem(i, j)) by {
            assert(self.in_shape(i, j));
            assert(rhs@.in_shape(i, j));
        }
        let r = add_views(a, b);
        assert forall|i: int, j: int| #[trigger] r@.in_shape(i, j) implies self.elem(i, j) == a.elem(i, j) && rhs@.elem(i, j) == b.elem(i, j) by {
            assert(self.in_shape(i, j));
            assert(rhs@.in_shape(i, j));
        }
        r
    }
}

impl<'a, 'b, T: Copy + core::ops::Add<Output = T>> vstd::std_specs::ops::AddSpecImpl<&'b Mat<T>> for MatMut<'a, T> {
    open spec fn obeys_add_spec() -> bool {
        false
    }

    /// Both operands are well formed, of one shape, and no sum overflows.
    open spec fn add_req(self, rhs: &'b Mat<T>) -> bool {
        &&& self.wf()
        &&& rhs.wf()
        &&& self.nrows == rhs@.nrows
        &&& self.ncols == rhs@.ncols
        &&& forall|i: int, j: int| #[trigger] self.in_shape(i, j) ==> self.elem(i, j).add_req(rhs@.elem(i, j))
    }

    open spec fn add_spec(self, rhs: &'b Mat<T>) -> Mat<T> {
        arbitrary()
    }
}

impl<'a, 'b, T: Copy + core::ops::Add<Output = T>> core::ops::Add<MatMut<'b, T>> for &'a Mat<T> {
    type Output = Mat<T>;

    fn add(self, rhs: MatMut<'b, T>) -> (r: Mat<T>)
        ensures
            r.wf(),
            r@.nrows == self@.nrows,
            r@.ncols == self@.ncols,
            T::obeys_add_spec() ==> forall|i: int, j: int| #[trigger] r@.in_shape(i, j) ==> r@.elem(i, j) == self@.elem(i, j).add_spec(rhs.elem(i, j)),
    {
        let a = self.as_ref();
        let b = rhs.rb();
        assert forall|i: int, j: int| #[trigger] a.in_shape(i, j) implies a.elem(i, j).add_req(b.elem(i, j)) by {
            assert(self@.in_shape(i, j));
            assert(rhs.in_shape(i, j));
        }
        let r = add_views(a, b);
        assert forall|i: int, j: int| #[trigger] r@.in_shape(i, j) implies self@.elem(i, j) == a.elem(i, j) && rhs.elem(i, j) == b.elem(i, j) by {
            assert(self@.in_shape(i, j));
            assert(rhs.in_shape(i, j));
        }
        r
    }
}

impl<'a, 'b, T: Copy + core::ops::Add<Output = T>> vstd::std_specs::ops::AddSpecImpl<MatMut<'b, T>> for &'a Mat<T> {
    open spec fn obeys_add_spec() -> bool {
        false
    }

    /// Both operands are well formed, of one shape, and no sum overflows.
    open spec fn add_req(self, rhs: MatMut<'b, T>) -> bool {
        &&& self.wf()
        &&& rhs.wf()
        &&& self@.nrows == rhs.nrows
        &&& self@.ncols == rhs.ncols
        &&& forall|i: int, j: int| #[trigger] self@.in_shape(i, j) ==> self@.elem(i, j).add_req(rhs.elem(i, j))
    }

    open spec fn add_spec(self, rhs: MatMut<'b, T>) -> Mat<T> {
        arbitrary()
    }
}

impl<'a, 'c, 'b, T: Copy + core::ops::Add<Output = T>> core::ops::Add<&'b Mat<T>> for &'a MatMut<'c, T> {
    type Output = Mat<T>;

    fn add(self, rhs: &'b Mat<T>) -> (r: Mat<T>)
        ensures
            r.wf(),
            r@.nrows == self.nrows,
            r@.ncols == self.ncols,
            T::obeys_add_spec() ==> forall|i: int, j: int| #[trigger] r@.in_shape(i, j) ==> r@.elem(i, j) == self.elem(i, j).add_spec(rhs@.elem(i, j)),
    {
        let a = self.rb();
        let b = rhs.as_ref();
        assert forall|i: int, j: int| #[trigger] a.in_shape(i, j) implies a.elem(i, j).add_req(b.elem(i, j)) by {
            assert(self.in_shape(i, j));
            assert(rhs@.in_shape(i, j));
        }
        let r = add_views(a, b);
        assert forall|i: int, j: int| #[trigger] r@.in_shape(i, j) implies self.elem(i, j) == a.elem(i, j) && rhs@.elem(i, j) == b.elem(i, j) by {
            assert(self.in_shape(i, j));
            assert(rhs@.in_shape(i, j));
        }
        r
    }
}

impl<'a, 'c, 'b, T: Copy + core::ops::Add<Output = T>> vstd::std_specs::ops::AddSpecImpl<&'b Mat<T>> for &'a MatMut<'c, T> {
    open spec fn obeys_add_spec() -> bool {
        false
    }

    /// Both operands are well formed, of one shape, and no sum overflows.
    open spec fn add_req(self, rhs: &'b Mat<T>) -> bool {
        &&& self.wf()
        &&& rhs.wf()
        &&& self.nrows == rhs@.nrows
        &&& self.ncols == rhs@.ncols
        &&& forall|i: int, j: int| #[trigger] self.in_shape(i, j) ==> self.elem(i, j).add_req(rhs@.elem(i, j))
    }

    open spec fn add_spec(self, rhs: &'b Mat<T>) -> Mat<T> {
        arbitrary()
    }
}

impl<'a, 'b, 'd, T: Copy + core::ops::Add<Output = T>> core::ops::Add<&'b MatMut<'d, T>> for &'a Mat<T> {
    type Output = Mat<T>;

    fn add(self, rhs: &'b MatMut<'d, T>) -> (r: Mat<T>)
        ensures
            r.wf(),
            r@.nrows == self@.nrows,
            r@.ncols == self@.ncols,
            T::obeys_add_spec() ==> forall|i: int, j: int| #[trigger] r@.in_shape(i, j) ==> r@.elem(i, j) == self@.elem(i, j).add_spec(rhs.elem(i, j)),
    {
        let a = self.as_ref();
        let b = rhs.rb();
        assert forall|i: int, j: int| #[trigger] a.in_shape(i, j) implies a.elem(i, j).add_req(b.elem(i, j)) by {
            assert(self@.in_shape(i, j));
            assert(rhs.in_shape(i, j));
        }
        let r = add_views(a, b);
        assert forall|i: int, j: int| #[trigger] r@.in_shape(i, j) implies self@.elem(i, j) == a.elem(i, j) && rhs.elem(i, j) == b.elem(i, j) by {
            assert(self@.in_shape(i, j));
            assert(rhs.in_shape(i, j));
        }
        r
    }
}

impl<'a, 'b, 'd, T: Copy + core::ops::Add<Output = T>> vstd::std_specs::ops::AddSpecImpl<&'b MatMut<'d, T>> for &'a Mat<T> {
    open spec fn obeys_add_spec() -> bool {
        false
    }

    /// Both operands are well formed, of one shape, and no sum overflows.
    open spec fn add_req(self, rhs: &'b MatMut<'d, T>) -> bool {
        &&& self.wf()
        &&& rhs.wf()
        &&& self@.nrows == rhs.nrows
        &&& self@.ncols == rhs.ncols
        &&& forall|i: int, j: int| #[trigger] self@.in_shape(i, j) ==> self@.elem(i, j).add_req(rhs.elem(i, j))
    }

    open spec fn add_spec(self, rhs: &'b MatMut<'d, T>) -> Mat<T> {
        arbitrary()
    }
}

impl<'a, T: Copy + core::ops::Add<Output = T>> core::ops::Add<Mat<T>> for MatMut<'a, T> {
    type Output = Mat<T>;

    fn add(self, rhs: Mat<T>) -> (r: Mat<T>)
        ensures
            r.wf(),
            r@.nrows == self.nrows,
            r@.ncols == self.ncols,
            T::obeys_add_spec() ==> forall|i: int, j: int| #[trigger] r@.in_shape(i, j) ==> r@.elem(i, j) == self.elem(i, j).add_spec(rhs@.elem(i, j)),
    {
        let a = self.rb();
        let b = rhs.as_ref();
        assert forall|i: int, j: int| #[trigger] a.in_shape(i, j) implies a.elem(i, j).add_req(b.elem(i, j)) by {
            assert(self.in_shape(i, j));
            assert(rhs@.in_shape(i, j));
        }
        let r = add_views(a, b);
        assert forall|i: int, j: int| #[trigger] r@.in_shape(i, j) implies self.elem(i, j) == a.elem(i, j) && rhs@.elem(i, j) == b.elem(i, j) by {
            assert(self.in_shape(i, j));
            assert(rhs@.in_shape(i, j));
        }
        r
    }
}

impl<'a, T: Copy + core::ops::Add<Output = T>> vstd::std_specs::ops::AddSpecImpl<Mat<T>> for MatMut<'a, T> {
    open spec fn obeys_add_spec() -> bool {
        false
    }

    /// Both operands are well formed, of one shape, and no sum overflows.
    open spec fn add_req(self, rhs: Mat<T>) -> bool {
        &&& self.wf()
        &&& rhs.wf()
        &&& self.nrows == rhs@.nrows
        &&& self.ncols == rhs@.ncols
        &&& forall|i: int, j: int| #[trigger] self.in_shape(i, j) ==> self.elem(i, j).add_req(rhs@.elem(i, j))
    }

    open spec fn add_spec(self, rhs: Mat<T>) -> Mat<T> {
        arbitrary()
    }
}

impl<'b, T: Copy + core::ops::Add<Output = T>> core::ops::Add<MatMut<'b, T>> for Mat<T> {
    type Output = Mat<T>;

    fn add(self, rhs: MatMut<'b, T>) -> (r: Mat<T>)
        ensures
            r.wf(),
            r@.nrows == self@.nrows,
            r@.ncols == self@.ncols,
            T::obeys_add_spec() ==> forall|i: int, j: int| #[trigger] r@.in_shape(i, j) ==> r@.elem(i, j) == self@.elem(i, j).add_spec(rhs.elem(i, j)),
    {
        let a = self.as_ref();
        let b = rhs.rb();
        assert forall|i: int, j: int| #[trigger] a.in_shape(i, j) implies a.elem(i, j).add_req(b.elem(i, j)) by {
            assert(self@.in_shape(i, j));
            assert(rhs.in_shape(i, j));
        }
        let r = add_views(a, b);
        assert forall|i: int, j: int| #[trigger] r@.in_shape(i, j) implies self@.elem(i, j) == a.elem(i, j) && rhs.elem(i, j) == b.elem(i, j) by {
            assert(self@.in_shape(i, j));
            assert(rhs.in_shape(i, j));
        }
        r
    }
}

impl<'b, T: Copy + core::ops::Add<Output = T>> vstd::std_specs::ops::AddSpecImpl<MatMut<'b, T>> for Mat<T> {
    open spec fn obeys_add_spec() -> bool {
        false
    }

    /// Both operands are well formed, of one shape, and no sum overflows.
    open spec fn add_req(self, rhs: MatMut<'b, T>) -> bool {
        &&& self.wf()
        &&& rhs.wf()
        &&& self@.nrows == rhs.nrows
        &&& self@.ncols == rhs.ncols
        &&& forall|i: int, j: int| #[trigger] self@.in_shape(i, j) ==> self@.elem(i, j).add_req(rhs.elem(i, j))
    }

    open spec fn add_spec(self, rhs: MatMut<'b, T>) -> Mat<T> {
        arbitrary()
    }
}

impl<'a, 'b, T: Copy + core::ops::Sub<Output = T>> core::ops::Sub<MatRef<'b, T>> for MatRef<'a, T> {
    type Output = Mat<T>;

    fn sub(self, rhs: MatRef<'b, T>) -> (r: Mat<T>)
        ensures
            r.wf(),
            r@.nrows == self.nrows,
            r@.ncols == self.ncols,
            T::obeys_sub_spec() ==> forall|i: int, j: int| #[trigger] r@.in_shape(i, j) ==> r@.elem(i, j) == self.elem(i, j).sub_spec(rhs.elem(i, j)),
    {
        let a = self;
        let b = rhs;
        assert forall|i: int, j: int| #[trigger] a.in_shape(i, j) implies a.elem(i, j).sub_req(b.elem(i, j)) by {
            assert(self.in_shape(i, j));
            assert(rhs.in_shape(i, j));
        }
        let r = sub_views(a, b);
        assert forall|i: int, j: int| #[trigger] r@.in_shape(i, j) implies self.elem(i, j) == a.elem(i, j) && rhs.elem(i, j) == b.elem(i, j) by {
            assert(self.in_shape(i, j));
            assert(rhs.in_shape(i, j));
        }
        r
    }
}

impl<'a, 'b, T: Copy + core::ops::Sub<Output = T>> vstd::std_specs::ops::SubSpecImpl<MatRef<'b, T>> for MatRef<'a, T> {
    open spec fn obeys_sub_spec() -> bool {
        false
    }

    /// Both operands are well formed, of one shape, and no difference overflows.
    open spec fn sub_req(self, rhs: MatRef<'b, T>) -> bool {
        &&& self.wf()
        &&& rhs.wf()
        &&& self.nrows == rhs.nrows
        &&& self.ncols == rhs.ncols
        &&& forall|i: int, j: int| #[trigger] self.in_shape(i, j) ==> self.elem(i, j).sub_req(rhs.elem(i, j))
    }

    open spec fn sub_spec(self, rhs: MatRef<'b, T>) -> Mat<T> {
        arbitrary()
    }
}

impl<'a, 'b, T: Copy + core::ops::Sub<Output = T>> core::ops::Sub<&'b Mat<T>> for &'a Mat<T> {
    type Output = Mat<T>;

    fn sub(self, rhs: &'b Mat<T>) -> (r: Mat<T>)
        ensures
            r.wf(),
            r@.nrows == self@.nrows,
            r@.ncols == self@.ncols,
            T::obeys_sub_spec() ==> forall|i: int, j: int| #[trigger] r@.in_shape(i, j) ==> r@.elem(i, j) == self@.elem(i, j).sub_spec(rhs@.elem(i, j)),
    {
        let a = self.as_ref();
        let b = rhs.as_ref();
        assert forall|i: int, j: int| #[trigger] a.in_shape(i, j) implies a.elem(i, j).sub_req(b.elem(i, j)) by {
            assert(self@.in_shape(i, j));
            assert(rhs@.in_shape(i, j));
        }
        let r = sub_views(a, b);
        assert forall|i: int, j: int| #[trigger] r@.in_shape(i, j) implies self@.elem(i, j) == a.elem(i, j) && rhs@.elem(i, j) == b.elem(i, j) by {
            assert(self@.in_shape(i, j));
            assert(rhs@.in_shape(i, j));
        }
        r
    }
}

impl<'a, 'b, T: Copy + core::ops::Sub<Output = T>> vstd::std_specs::ops::SubSpecImpl<&'b Mat<T>> for &'a Mat<T> {
    open spec fn obeys_sub_spec() -> bool {
        false
    }

    /// Both operands are well formed, of one shape, and no difference overflows.
    open spec fn sub_req(self, rhs: &'b Mat<T>) -> bool {
        &&& self.wf()
        &&& rhs.wf()
        &&& self@.nrows == rhs@.nrows
        &&& self@.ncols == rhs@.ncols
        &&& forall|i: int, j: int| #[trigger] self@.in_shape(i, j) ==> self@.elem(i, j).sub_req(rhs@.elem(i, j))
    }

    open spec fn sub_spec(self, rhs: &'b Mat<T>) -> Mat<T> {
        arbitrary()
    }
}

impl<T: Copy + core::ops::Sub<Output = T>> core::ops::Sub<Mat<T>> for Mat<T> {
    type Output = Mat<T>;

    fn sub(self, rhs: Mat<T>) -> (r: Mat<T>)
        ensures
            r.wf(),
            r@.nrows == self@.nrows,
            r@.ncols == self@.ncols,
            T::obeys_sub_spec() ==> forall|i: int, j: int| #[trigger] r@.in_shape(i, j) ==> r@.elem(i, j) == self@.elem(i, j).sub_spec(rhs@.elem(i, j)),
    {
        let a = self.as_ref();
        let b = rhs.as_ref();
        assert forall|i: int, j: int| #[trigger] a.in_shape(i, j) implies a.elem(i, j).sub_req(b.elem(i, j)) by {
            assert(self@.in_shape(i, j));
            assert(rhs@.in_shape(i, j));
        }
        let r = sub_views(a, b);
        assert forall|i: int, j: int| #[trigger] r@.in_shape(i, j) implies self@.elem(i, j) == a.elem(i, j) && rhs@.elem(i, j) == b.elem(i, j) by {
            assert(self@.in_shape(i, j));
            assert(rhs@.in_shape(i, j));
        }
        r
    }
}

impl<T: Copy + core::ops::Sub<Output = T>> vstd::std_specs::ops::SubSpecImpl<Mat<T>> for Mat<T> {
    open spec fn obeys_sub_spec() -> bool {
        false
    }

    /// Both operands are well formed, of one shape, and no difference overflows.
    open spec fn sub_req(self, rhs: Mat<T>) -> bool {
        &&& self.wf()
        &&& rhs.wf()
        &&& self@.nrows == rhs@.nrows
        &&& self@.ncols == rhs@.ncols
        &&& forall|i: int, j: int| #[trigger] self@.in_shape(i, j) ==> self@.elem(i, j).sub_req(rhs@.elem(i, j))
    }

    open spec fn sub_spec(self, rhs: Mat<T>) -> Mat<T> {
        arbitrary()
    }
}

impl<'b, T: Copy + core::ops::Sub<Output = T>> core::ops::Sub<&'b Mat<T>> for Mat<T> {
    type Output = Mat<T>;

    fn sub(self, rhs: &'b Mat<T>) -> (r: Mat<T>)
        ensures
            r.wf(),
            r@.nrows == self@.nrows,
            r@.ncols == self@.ncols,
            T::obeys_sub_spec() ==> forall|i: int, j: int| #[trigger] r@.in_shape(i, j) ==> r@.elem(i, j) == self@.elem(i, j).sub_spec(rhs@.elem(i, j)),
    {
        let a = self.as_ref();
        let b = rhs.as_ref();
        assert forall|i: int, j: int| #[trigger] a.in_shape(i, j) implies a.elem(i, j).sub_req(b.elem(i, j)) by {
            assert(self@.in_shape(i, j));
            assert(rhs@.in_shape(i, j));
        }
        let r = sub_views(a, b);
        assert forall|i: int, j: int| #[trigger] r@.in_shape(i, j) implies self@.elem(i, j) == a.elem(i, j) && rhs@.elem(i, j) == b.elem(i, j) by {
            assert(self@.in_shape(i, j));
            assert(rhs@.in_shape(i, j));
        }
        r
    }
}

impl<'b, T: Copy + core::ops::Sub<Output = T>> vstd::std_specs::ops::SubSpecImpl<&'b Mat<T>> for Mat<T> {
    open spec fn obeys_sub_spec() -> bool {
        false
    }

    /// Both operands are well formed, of one shape, and no difference overflows.
    open spec fn sub_req(self, rhs: &'b Mat<T>) -> bool {
        &&& self.wf()
        &&& rhs.wf()
        &&& self@.nrows == rhs@.nrows
        &&& self@.ncols == rhs@.ncols
        &&& forall|i: int, j: int| #[trigger] self@.in_shape(i, j) ==> self@.elem(i, j).sub_req(rhs@.elem(i, j))
    }

    open spec fn sub_spec(self, rhs: &'b Mat<T>) -> Mat<T> {
        arbitrary()
    }
}

impl<'a, T: Copy + core::ops::Sub<Output = T>> core::ops::Sub<Mat<T>> for &'a Mat<T> {
    type Output = Mat<T>;

    fn sub(self, rhs: Mat<T>) -> (r: Mat<T>)
        ensures
            r.wf(),
            r@.nrows == self@.nrows,
            r@.ncols == self@.ncols,
            T::obeys_sub_spec() ==> forall|i: int, j: int| #[trigger] r@.in_shape(i, j) ==> r@.elem(i, j) == self@.elem(i, j).sub_spec(rhs@.elem(i, j)),
    {
        let a = self.as_ref();
        let b = rhs.as_ref();
        assert forall|i: int, j: int| #[trigger] a.in_shape(i, j) implies a.elem(i, j).sub_req(b.elem(i, j)) by {
            assert(self@.in_shape(i, j));
            assert(rhs@.in_shape(i, j));
        }
        let r = sub_views(a, b);
        assert forall|i: int, j: int| #[trigger] r@.in_shape(i, j) implies self@.elem(i, j) == a.elem(i, j) && rhs@.elem(i, j) == b.elem(i, j) by {
            assert(self@.in_shape(i, j));
            assert(rhs@.in_shape(i, j));
        }
        r
    }
}

impl<'a, T: Copy + core::ops::Sub<Output = T>> vstd::std_specs::ops::SubSpecImpl<Mat<T>> for &'a Mat<T> {
    open spec fn obeys_sub_spec() -> bool {
        false
    }

    /// Both operands are well formed, of one shape, and no difference overflows.
    open spec fn sub_req(self, rhs: Mat<T>) -> bool {
        &&& self.wf()
        &&& rhs.wf()
        &&& self@.nrows == rhs@.nrows
        &&& self@.ncols == rhs@.ncols
        &&& forall|i: int, j: int| #[trigger] self@.in_shape(i, j) ==> self@.elem(i, j).sub_req(rhs@.elem(i, j))
    }

    open spec fn sub_spec(self, rhs: Mat<T>) -> Mat<T> {
        arbitrary()
    }
}

impl<'a, 'b, T: Copy + core::ops::Sub<Output = T>> core::ops::Sub<&'b Mat<T>> for MatRef<'a, T> {
    type Output = Mat<T>;

    fn sub(self, rhs: &'b Mat<T>) -> (r: Mat<T>)
        ensures
            r.wf(),
            r@.nrows == self.nrows,
            r@.ncols == self.ncols,
            T::obeys_sub_spec() ==> forall|i: int, j: int| #[trigger] r@.in_shape(i, j) ==> r@.elem(i, j) == self.elem(i, j).sub_spec(rhs@.elem(i, j)),
    {
        let a = self;
        let b = rhs.as_ref();
        assert forall|i: int, j: int| #[trigger] a.in_shape(i, j) implies a.elem(i, j).sub_req(b.elem(i, j)) by {
            assert(self.in_shape(i, j));
            assert(rhs@.in_shape(i, j));
        }
        let r = sub_views(a, b);
        assert forall|i: int, j: int| #[trigger] r@.in_shape(i, j) implies self.elem(i, j) == a.elem(i, j) && rhs@.elem(i, j) == b.elem(i, j) by {
            assert(self.in_shape(i, j));
            assert(rhs@.in_shape(i, j));
        }
        r
    }
}

impl<'a, 'b, T: Copy + core::ops::Sub<Output = T>> vstd::std_specs::ops::SubSpecImpl<&'b Mat<T>> for MatRef<'a, T> {
    open spec fn obeys_sub_spec() -> bool {
        false
    }

    /// Both operands are well formed, of one shape, and no difference overflows.
    open spec fn sub_req(self, rhs: &'b Mat<T>) -> bool {
        &&& self.wf()
        &&& rhs.wf()
        &&& self.nrows == rhs@.nrows
        &&& self.ncols == rhs@.ncols
        &&& forall|i: int, j: int| #[trigger] self.in_shape(i, j) ==> self.elem(i, j).sub_req(rhs@.elem(i, j))
    }

    open spec fn sub_spec(self, rhs: &'b Mat<T>) -> Mat<T> {
        arbitrary()
    }
}

impl<'a, 'b, T: Copy + core::ops::Sub<Output = T>> core::ops::Sub<MatRef<'b, T>> for &'a Mat<T> {
    type Output = Mat<T>;

    fn sub(self, rhs: MatRef<'b, T>) -> (r: Mat<T>)
        ensures
            r.wf(),
            r@.nrows == self@.nrows,
            r@.ncols == self@.ncols,
            T::obeys_sub_spec() ==> forall|i: int, j: int| #[trigger] r@.in_shape(i, j) ==> r@.elem(i, j) == self@.elem(i, j).sub_spec(rhs.elem(i, j)),
    {
        let a = self.as_ref();
        let b = rhs;
        assert forall|i: int, j: int| #[trigger] a.in_shape(i, j) implies a.elem(i, j).sub_req(b.elem(i, j)) by {
            assert(self@.in_shape(i, j));
            assert(rhs.in_shape(i, j));
        }
        let r = sub_views(a, b);
        assert forall|i: int, j: int| #[trigger] r@.in_shape(i, j) implies self@.elem(i, j) == a.elem(i, j) && rhs.elem(i, j) == b.elem(i, j) by {
            assert(self@.in_shape(i, j));
            assert(rhs.in_shape(i, j));
        }
        r
    }
}

impl<'a, 'b, T: Copy + core::ops::Sub<Output = T>> vstd::std_specs::ops::SubSpecImpl<MatRef<'b, T>> for &'a Mat<T> {
    open spec fn obeys_sub_spec() -> bool {
        false
    }

    /// Both operands are well formed, of one shape, and no difference overflows.
    open spec fn sub_req(self, rhs: MatRef<'b, T>) -> bool {
        &&& self.wf()
        &&& rhs.wf()
        &&& self@.nrows == rhs.nrows
        &&& self@.ncols == rhs.ncols
        &&& forall|i: int, j: int| #[trigger] self@.in_shape(i, j) ==> self@.elem(i, j).sub_req(rhs.elem(i, j))
    }

    open spec fn sub_spec(self, rhs: MatRef<'b, T>) -> Mat<T> {
        arbitrary()
    }
}

impl<'b, T: Copy + core::ops::Sub<Output = T>> core::ops::Sub<MatRef<'b, T>> for Mat<T> {
    type Output = Mat<T>;

    fn sub(self, rhs: MatRef<'b, T>) -> (r: Mat<T>)
        ensures
            r.wf(),
            r@.nrows == self@.nrows,
            r@.ncols == self@.ncols,
            T::obeys_sub_spec() ==> forall|i: int, j: int| #[trigger] r@.in_shape(i, j) ==> r@.elem(i, j) == self@.elem(i, j).sub_spec(rhs.elem(i, j)),
    {
        let a = self.as_ref();
        let b = rhs;
        assert forall|i: int, j: int| #[trigger] a.in_shape(i, j) implies a.elem(i, j).sub_req(b.elem(i, j)) by {
            assert(self@.in_shape(i, j));
            assert(rhs.in_shape(i, j));
        }
        let r = sub_views(a, b);
        assert forall|i: int, j: int| #[trigger] r@.in_shape(i, j) implies self@.elem(i, j) == a.elem(i, j) && rhs.elem(i, j) == b.elem(i, j) by {
            assert(self@.in_shape(i, j));
            assert(rhs.in_shape(i, j));
        }
        r
    }
}

impl<'b, T: Copy + core::ops::Sub<Output = T>> vstd::std_specs::ops::SubSpecImpl<MatRef<'b, T>> for Mat<T> {
    open spec fn obeys_sub_spec() -> bool {
        false
    }

    /// Both operands are well formed, of one shape, and no difference overflows.
    open spec fn sub_req(self, rhs: MatRef<'b, T>) -> bool {
        &&& self.wf()
        &&& rhs.wf()
        &&& self@.nrows == rhs.nrows
        &&& self@.ncols == rhs.ncols
        &&& forall|i: int, j: int| #[trigger] self@.in_shape(i, j) ==> self@.elem(i, j).sub_req(rhs.elem(i, j))
    }

    open spec fn sub_spec(self, rhs: MatRef<'b, T>) -> Mat<T> {
        arbitrary()
    }
}

impl<'a, T: Copy + core::ops::Sub<Output = T>> core::ops::Sub<Mat<T>> for MatRef<'a, T> {
    type Output = Mat<T>;

    fn sub(self, rhs: Mat<T>) -> (r: Mat<T>)
        ensures
            r.wf(),
            r@.nrows == self.nrows,
            r@.ncols == self.ncols,
            T::obeys_sub_spec() ==> forall|i: int, j: int| #[trigger] r@.in_shape(i, j) ==> r@.elem(i, j) == self.elem(i, j).sub_spec(rhs@.elem(i, j)),
    {
        let a = self;
        let b = rhs.as_ref();
        assert forall|i: int, j: int| #[trigger] a.in_shape(i, j) implies a.elem(i, j).sub_req(b.elem(i, j)) by {
            assert(self.in_shape(i, j));
            assert(rhs@.in_shape(i, j));
        }
        let r = sub_views(a, b);
        assert forall|i: int, j: int| #[trigger] r@.in_shape(i, j) implies self.elem(i, j) == a.elem(i, j) && rhs@.elem(i, j) == b.elem(i, j) by {
            assert(self.in_shape(i, j));
            assert(rhs@.in_shape(i, j));
        }
        r
    }
}

impl<'a, T: Copy + core::ops::Sub<Output = T>> vstd::std_specs::ops::SubSpecImpl<Mat<T>> for MatRef<'a, T> {
    open spec fn obeys_sub_spec() -> bool {
        false
    }

    /// Both operands are well formed, of one shape, and no difference overflows.
    open spec fn sub_req(self, rhs: Mat<T>) -> bool {
        &&& self.wf()
        &&& rhs.wf()
        &&& self.nrows == rhs@.nrows
        &&& self.ncols == rhs@.ncols
        &&& forall|i: int, j: int| #[trigger] self.in_shape(i, j) ==> self.elem(i, j).sub_req(rhs@.elem(i, j))
    }

    open spec fn sub_spec(self, rhs: Mat<T>) -> Mat<T> {
        arbitrary()
    }
}

impl<'a, 'b, T: Copy + core::ops::Sub<Output = T>> core::ops::Sub<MatRef<'b, T>> for MatMut<'a, T> {
    type Output = Mat<T>;

    fn sub(self, rhs: MatRef<'b, T>) -> (r: Mat<T>)
        ensures
            r.wf(),
            r@.nrows == self.nrows,
            r@.ncols == self.ncols,
            T::obeys_sub_spec() ==> forall|i: int, j: int| #[trigger] r@.in_shape(i, j) ==> r@.elem(i, j) == self.elem(i, j).sub_spec(rhs.elem(i, j)),
    {
        let a = self.rb();
        let b = rhs;
        assert forall|i: int, j: int| #[trigger] a.in_shape(i, j) implies a.elem(i, j).sub_req(b.elem(i, j)) by {
            assert(self.in_shape(i, j));
            assert(rhs.in_shape(i, j));
        }
        let r = sub_views(a, b);
        assert forall|i: int, j: int| #[trigger] r@.in_shape(i, j) implies self.elem(i, j) == a.elem(i, j) && rhs.elem(i, j) == b.elem(i, j) by {
            assert(self.in_shape(i, j));
            assert(rhs.in_shape(i, j));
        }
        r
    }
}

impl<'a, 'b, T: Copy + core::ops::Sub<Output = T>> vstd::std_specs::ops::SubSpecImpl<MatRef<'b, T>> for MatMut<'a, T> {
    open spec fn obeys_sub_spec() -> bool {
        false
    }

    /// Both operands are well formed, of one shape, and no difference overflows.
    open spec fn sub_req(self, rhs: MatRef<'b, T>) -> bool {
        &&& self.wf()
        &&& rhs.wf()
        &&& self.nrows == rhs.nrows
        &&& self.ncols == rhs.ncols
        &&& forall|i: int, j: int| #[trigger] self.in_shape(i, j) ==> self.elem(i, j).sub_req(rhs.elem(i, j))
    }

    open spec fn sub_spec(self, rhs: MatRef<'b, T>) -> Mat<T> {
        arbitrary()
    }
}

impl<'a, 'b, T: Copy + core::ops::Sub<Output = T>> core::ops::Sub<MatMut<'b, T>> for MatRef<'a, T> {
    type Output = Mat<T>;

    fn sub(self, rhs: MatMut<'b, T>) -> (r: Mat<T>)
        ensures
            r.wf(),
            r@.nrows == self.nrows,
            r@.ncols == self.ncols,
            T::obeys_sub_spec() ==> forall|i: int, j: int| #[trigger] r@.in_shape(i, j) ==> r@.elem(i, j) == self.elem(i, j).sub_spec(rhs.elem(i, j)),
    {
        let a = self;
        let b = rhs.rb();
        assert forall|i: int, j: int| #[trigger] a.in_shape(i, j) implies a.elem(i, j).sub_req(b.elem(i, j)) by {
            assert(self.in_shape(i, j));
            assert(rhs.in_shape(i, j));
        }
        let r = sub_views(a, b);
        assert forall|i: int, j: int| #[trigger] r@.in_shape(i, j) implies self.elem(i, j) == a.elem(i, j) && rhs.elem(i, j) == b.elem(i, j) by {
            assert(self.in_shape(i, j));
            assert(rhs.in_shape(i, j));
        }
        r
    }
}

impl<'a, 'b, T: Copy + core::ops::Sub<Output = T>> vstd::std_specs::ops::SubSpecImpl<MatMut<'b, T>> for MatRef<'a, T> {
    open spec fn obeys_sub_spec() -> bool {
        false
    }

    /// Both operands are well formed, of one shape, and no difference overflows.
    open spec fn sub_req(self, rhs: MatMut<'b, T>) -> bool {
        &&& self.wf()
        &&& rhs.wf()
        &&& self.nrows == rhs.nrows
        &&& self.ncols == rhs.ncols
        &&& forall|i: int, j: int| #[trigger] self.in_shape(i, j) ==> self.elem(i, j).sub_req(rhs.elem(i, j))
    }

    open spec fn sub_spec(self, rhs: MatMut<'b, T>) -> Mat<T> {
        arbitrary()
    }
}

impl<'a, 'b, T: Copy + core::ops::Sub<Output = T>> core::ops::Sub<MatMut<'b, T>> for MatMut<'a, T> {
    type Output = Mat<T>;

    fn sub(self, rhs: MatMut<'b, T>) -> (r: Mat<T>)
        ensures
            r.wf(),
            r@.nrows == self.nrows,
            r@.ncols == self.ncols,
            T::obeys_sub_spec() ==> forall|i: int, j: int| #[trigger] r@.in_shape(i, j) ==> r@.elem(i, j) == self.elem(i, j).sub_spec(rhs.elem(i, j)),
    {
        let a = self.rb();
        let b = rhs.rb();
        assert forall|i: int, j: int| #[trigger] a.in_shape(i, j) implies a.elem(i, j).sub_req(b.elem(i, j)) by {
            assert(self.in_shape(i, j));
            assert(rhs.in_shape(i, j));
        }
        let r = sub_views(a, b);
        assert forall|i: int, j: int| #[trigger] r@.in_shape(i, j) implies self.elem(i, j) == a.elem(i, j) && rhs.elem(i, j) == b.elem(i, j) by {
            assert(self.in_shape(i, j));
            assert(rhs.in_shape(i, j));
        }
        r
    }
}

impl<'a, 'b, T: Copy + core::ops::Sub<Output = T>> vstd::std_specs::ops::SubSpecImpl<MatMut<'b, T>> for MatMut<'a, T> {
    open spec fn obeys_sub_spec() -> bool {
        false
    }

    /// Both operands are well formed, of one shape, and no difference overflows.
    open spec fn sub_req(self, rhs: MatMut<'b, T>) -> bool {
        &&& self.wf()
        &&& rhs.wf()
        &&& self.nrows == rhs.nrows
        &&& self.ncols == rhs.ncols
        &&& forall|i: int, j: int| #[trigger] self.in_shape(i, j) ==> self.elem(i, j).sub_req(rhs.elem(i, j))
    }

    open spec fn sub_spec(self, rhs: MatMut<'b, T>) -> Mat<T> {
        arbitrary()
    }
}

impl<'a, 'c, 'b, T: Copy + core::ops::Sub<Output = T>> core::ops::Sub<MatRef<'b, T>> for &'a MatMut<'c, T> {
    type Output = Mat<T>;

    fn sub(self, rhs: MatRef<'b, T>) -> (r: Mat<T>)
        ensures
            r.wf(),
            r@.nrows == self.nrows,
            r@.ncols == self.ncols,
            T::obeys_sub_spec() ==> forall|i: int, j: int| #[trigger] r@.in_shape(i, j) ==> r@.elem(i, j) == self.elem(i, j).sub_spec(rhs.elem(i, j)),
    {
        let a = self.rb();
        let b = rhs;
        assert forall|i: int, j: int| #[trigger] a.in_shape(i, j) implies a.elem(i, j).sub_req(b.elem(i, j)) by {
            assert(self.in_shape(i, j));
            assert(rhs.in_shape(i, j));
        }
        let r = sub_views(a, b);
        assert forall|i: int, j: int| #[trigger] r@.in_shape(i, j) implies self.elem(i, j) == a.elem(i, j) && rhs.elem(i, j) == b.elem(i, j) by {
            assert(self.in_shape(i, j));
            assert(rhs.in_shape(i, j));
        }
        r
    }
}

impl<'a, 'c, 'b, T: Copy + core::ops::Sub<Output = T>> vstd::std_specs::ops::SubSpecImpl<MatRef<'b, T>> for &'a MatMut<'c, T> {
    open spec fn obeys_sub_spec() -> bool {
        false
    }

    /// Both operands are well formed, of one shape, and no difference overflows.
    open spec fn sub_req(self, rhs: MatRef<'b, T>) -> bool {
        &&& self.wf()
        &&& rhs.wf()
        &&& self.nrows == rhs.nrows
        &&& self.ncols == rhs.ncols
        &&& forall|i: int, j: int| #[trigger] self.in_shape(i, j) ==> self.elem(i, j).sub_req(rhs.elem(i, j))
    }

    open spec fn sub_spec(self, rhs: MatRef<'b, T>) -> Mat<T> {
        arbitrary()
    }
}

impl<'a, 'b, 'd, T: Copy + core::ops::Sub<Output = T>> core::ops::Sub<&'b MatMut<'d, T>> for MatRef<'a, T> {
    type Output = Mat<T>;

    fn sub(self, rhs: &'b MatMut<'d, T>) -> (r: Mat<T>)
        ensures
            r.wf(),
            r@.nrows == self.nrows,
            r@.ncols == self.ncols,
            T::obeys_sub_spec() ==> forall|i: int, j: int| #[trigger] r@.in_shape(i, j) ==> r@.elem(i, j) == self.elem(i, j).sub_spec(rhs.elem(i, j)),
    {
        let a = self;
        let b = rhs.rb();
        assert forall|i: int, j: int| #[trigger] a.in_shape(i, j) implies a.elem(i, j).sub_req(b.elem(i, j)) by {
            assert(self.in_shape(i, j));
            assert(rhs.in_shape(i, j));
        }
        let r = sub_views(a, b);
        assert forall|i: int, j: int| #[trigger] r@.in_shape(i, j) implies self.elem(i, j) == a.elem(i, j) && rhs.elem(i, j) == b.elem(i, j) by {
            assert(self.in_shape(i, j));
            assert(rhs.in_shape(i, j));
        }
        r
    }
}

impl<'a, 'b, 'd, T: Copy + core::ops::Sub<Output = T>> vstd::std_specs::ops::SubSpecImpl<&'b MatMut<'d, T>> for MatRef<'a, T> {
    open spec fn obeys_sub_spec() -> bool {
        false
    }

    /// Both operands are well formed, of one shape, and no difference overflows.
    open spec fn sub_req(self, rhs: &'b MatMut<'d, T>) -> bool {
        &&& self.wf()
        &&& rhs.wf()
        &&& self.nrows == rhs.nrows
        &&& self.ncols == rhs.ncols
        &&& forall|i: int, j: int| #[trigger] self.in_shape(i, j) ==> self.elem(i, j).sub_req(rhs.elem(i, j))
    }

    open spec fn sub_spec(self, rhs: &'b MatMut<'d, T>) -> Mat<T> {
        arbitrary()
    }
}

impl<'a, 'c, 'b, 'd, T: Copy + core::ops::Sub<Output = T>> core::ops::Sub<&'b MatMut<'d, T>> for &'a MatMut<'c, T> {
    type Output = Mat<T>;

    fn sub(self, rhs: &'b MatMut<'d, T>) -> (r: Mat<T>)
        ensures
            r.wf(),
            r@.nrows == self.nrows,
            r@.ncols == self.ncols,
            T::obeys_sub_spec() ==> forall|i: int, j: int| #[trigger] r@.in_shape(i, j) ==> r@.elem(i, j) == self.elem(i, j).sub_spec(rhs.elem(i, j)),
    {
        let a = self.rb();
        let b = rhs.rb();
        assert forall|i: int, j: int| #[trigger] a.in_shape(i, j) implies a.elem(i, j).sub_req(b.elem(i, j)) by {
            assert(self.in_shape(i, j));
            assert(rhs.in_shape(i, j));
        }
        let r = sub_views(a, b);
        assert forall|i: int, j: int| #[trigger] r@.in_shape(i, j) implies self.elem(i, j) == a.elem(i, j) && rhs.elem(i, j) == b.elem(i, j) by {
            assert(self.in_shape(i, j));
            assert(rhs.in_shape(i, j));
        }
        r
    }
}

impl<'a, 'c, 'b, 'd, T: Copy + core::ops::Sub<Output = T>> vstd::std_specs::ops::SubSpecImpl<&'b MatMut<'d, T>> for &'a MatMut<'c, T> {
    open spec fn obeys_sub_spec() -> bool {
        false
    }

    /// Both operands are well formed, of one shape, and no difference overflows.
    open spec fn sub_req(self, rhs: &'b MatMut<'d, T>) -> bool {
        &&& self.wf()
        &&& rhs.wf()
        &&& self.nrows == rhs.nrows
        &&& self.ncols == rhs.ncols
        &&& forall|i: int, j: int| #[trigger] self.in_shape(i, j) ==> self.elem(i, j).sub_req(rhs.elem(i, j))
    }

    open spec fn sub_spec(self, rhs: &'b MatMut<'d, T>) -> Mat<T> {
        arbitrary()
    }
}

impl<'a, 'b, T: Copy + core::ops::Sub<Output = T>> core::ops::Sub<&'b Mat<T>> for MatMut<'a, T> {
    type Output = Mat<T>;

    fn sub(self, rhs: &'b Mat<T>) -> (r: Mat<T>)
        ensures
            r.wf(),
            r@.nrows == self.nrows,
            r@.ncols == self.ncols,
            T::obeys_sub_spec() ==> forall|i: int, j: int| #[trigger] r@.in_shape(i, j) ==> r@.elem(i, j) == self.elem(i, j).sub_spec(rhs@.elem(i, j)),
    {
        let a = self.rb();
        let b = rhs.as_ref();
        assert forall|i: int, j: int| #[trigger] a.in_shape(i, j) implies a.elem(i, j).sub_req(b.elem(i, j)) by {
            assert(self.in_shape(i, j));
            assert(rhs@.in_shape(i, j));
        }
        let r = sub_views(a, b);
        assert forall|i: int, j: int| #[trigger] r@.in_shape(i, j) implies self.elem(i, j) == a.elem(i, j) && rhs@.elem(i, j) == b.elem(i, j) by {
            assert(self.in_shape(i, j));
            assert(rhs@.in_shape(i, j));
        }
        r
    }
}

impl<'a, 'b, T: Copy + core::ops::Sub<Output = T>> vstd::std_specs::ops::SubSpecImpl<&'b Mat<T>> for MatMut<'a, T> {
    open spec fn obeys_sub_spec() -> bool {
        false
    }

    /// Both operands are well formed, of one shape, and no difference overflows.
    open spec fn sub_req(self, rhs: &'b Mat<T>) -> bool {
        &&& self.wf()
        &&& rhs.wf()
        &&& self.nrows == rhs@.nrows
        &&& self.ncols == rhs@.ncols
        &&& forall|i: int, j: int| #[trigger] self.in_shape(i, j) ==> self.elem(i, j).sub_req(rhs@.elem(i, j))
    }

    open spec fn sub_spec(self, rhs: &'b Mat<T>) -> Mat<T> {
        arbitrary()
    }
}

impl<'a, 'b, T: Copy + core::ops::Sub<Output = T>> core::ops::Sub<MatMut<'b, T>> for &'a Mat<T> {
    type Output = Mat<T>;

    fn sub(self, rhs: MatMut<'b, T>) -> (r: Mat<T>)
        ensures
            r.wf(),
            r@.nrows == self@.nrows,
            r@.ncols == self@.ncols,
            T::obeys_sub_spec() ==> forall|i: int, j: int| #[trigger] r@.in_shape(i, j) ==> r@.elem(i, j) == self@.elem(i, j).sub_spec(rhs.elem(i, j)),
    {
        let a = self.as_ref();
        let b = rhs.rb();
        assert forall|i: int, j: int| #[trigger] a.in_shape(i, j) implies a.elem(i, j).sub_req(b.elem(i, j)) by {
            assert(self@.in_shape(i, j));
            assert(rhs.in_shape(i, j));
        }
        let r = sub_views(a, b);
        assert forall|i: int, j: int| #[trigger] r@.in_shape(i, j) implies self@.elem(i, j) == a.elem(i, j) && rhs.elem(i, j) == b.elem(i, j) by {
            assert(self@.in_shape(i, j));
            assert(rhs.in_shape(i, j));
        }
        r
    }
}

impl<'a, 'b, T: Copy + core::ops::Sub<Output = T>> vstd::std_specs::ops::SubSpecImpl<MatMut<'b, T>> for &'a Mat<T> {
    open spec fn obeys_sub_spec() -> bool {
        false
    }

    /// Both operands are well formed, of one shape, and no difference overflows.
    open spec fn sub_req(self, rhs: MatMut<'b, T>) -> bool {
        &&& self.wf()
        &&& rhs.wf()
        &&& self@.nrows == rhs.nrows
        &&& self@.ncols == rhs.ncols
        &&& forall|i: int, j: int| #[trigger] self@.in_shape(i, j) ==> self@.elem(i, j).sub_req(rhs.elem(i, j))
    }

    open spec fn sub_spec(self, rhs: MatMut<'b, T>) -> Mat<T> {
        arbitrary()
    }
}

impl<'a, 'c, 'b, T: Copy + core::ops::Sub<Output = T>> core::ops::Sub<&'b Mat<T>> for &'a MatMut<'c, T> {
    type Output = Mat<T>;

    fn sub(self, rhs: &'b Mat<T>) -> (r: Mat<T>)
        ensures
            r.wf(),
            r@.nrows == self.nrows,
            r@.ncols == self.ncols,
            T::obeys_sub_spec() ==> forall|i: int, j: int| #[trigger] r@.in_shape(i, j) ==> r@.elem(i, j) == self.elem(i, j).sub_spec(rhs@.elem(i, j)),
    {
        let a = self.rb();
        let b = rhs.as_ref();
        assert forall|i: int, j: int| #[trigger] a.in_shape(i, j) implies a.elem(i, j).sub_req(b.elem(i, j)) by {
            assert(self.in_shape(i, j));
            assert(rhs@.in_shape(i, j));
        }
        let r = sub_views(a, b);
        assert forall|i: int, j: int| #[trigger] r@.in_shape(i, j) implies self.elem(i, j) == a.elem(i, j) && rhs@.elem(i, j) == b.elem(i, j) by {
            assert(self.in_shape(i, j));
            assert(rhs@.in_shape(i, j));
        }
        r
    }
}

impl<'a, 'c, 'b, T: Copy + core::ops::Sub<Output = T>> vstd::std_specs::ops::SubSpecImpl<&'b Mat<T>> for &'a MatMut<'c, T> {
    open spec fn obeys_sub_spec() -> bool {
        false
    }

    /// Both operands are well formed, of one shape, and no difference overflows.
    open spec fn sub_req(self, rhs: &'b Mat<T>) -> bool {
        &&& self.wf()
        &&& rhs.wf()
        &&& self.nrows == rhs@.nrows
        &&& self.ncols == rhs@.ncols
        &&& forall|i: int, j: int| #[trigger] self.in_shape(i, j) ==> self.elem(i, j).sub_req(rhs@.elem(i, j))
    }

    open spec fn sub_spec(self, rhs: &'b Mat<T>) -> Mat<T> {
        arbitrary()
    }
}

impl<'a, 'b, 'd, T: Copy + core::ops::Sub<Output = T>> core::ops::Sub<&'b MatMut<'d, T>> for &'a Mat<T> {
    type Output = Mat<T>;

    fn sub(self, rhs: &'b MatMut<'d, T>) -> (r: Mat<T>)
        ensures
            r.wf(),
            r@.nrows == self@.nrows,
            r@.ncols == self@.ncols,
            T::obeys_sub_spec() ==> forall|i: int, j: int| #[trigger] r@.in_shape(i, j) ==> r@.elem(i, j) == self@.elem(i, j).sub_spec(rhs.elem(i, j)),
    {
        let a = self.as_ref();
        let b = rhs.rb();
        assert forall|i: int, j: int| #[trigger] a.in_shape(i, j) implies a.elem(i, j).sub_req(b.elem(i, j)) by {
            assert(self@.in_shape(i, j));
            assert(rhs.in_shape(i, j));
        }
        let r = sub_views(a, b);
        assert forall|i: int, j: int| #[trigger] r@.in_shape(i, j) implies self@.elem(i, j) == a.elem(i, j) && rhs.elem(i, j) == b.elem(i, j) by {
            assert(self@.in_shape(i, j));
            assert(rhs.in_shape(i, j));
        }
        r
    }
}

impl<'a, 'b, 'd, T: Copy + core::ops::Sub<Output = T>> vstd::std_specs::ops::SubSpecImpl<&'b MatMut<'d, T>> for &'a Mat<T> {
    open spec fn obeys_sub_spec() -> bool {
        false
    }

    /// Both operands are well formed, of one shape, and no difference overflows.
    open spec fn sub_req(self, rhs: &'b MatMut<'d, T>) -> bool {
        &&& self.wf()
        &&& rhs.wf()
        &&& self@.nrows == rhs.nrows
        &&& self@.ncols == rhs.ncols
        &&& forall|i: int, j: int| #[trigger] self@.in_shape(i, j) ==> self@.elem(i, j).sub_req(rhs.elem(i, j))
    }

    open spec fn sub_spec(self, rhs: &'b MatMut<'d, T>) -> Mat<T> {
        arbitrary()
    }
}

impl<'a, T: Copy + core::ops::Sub<Output = T>> core::ops::Sub<Mat<T>> for MatMut<'a, T> {
    type Output = Mat<T>;

    fn sub(self, rhs: Mat<T>) -> (r: Mat<T>)
        ensures
            r.wf(),
            r@.nrows == self.nrows,
            r@.ncols == self.ncols,
            T::obeys_sub_spec() ==> forall|i: int, j: int| #[trigger] r@.in_shape(i, j) ==> r@.elem(i, j) == self.elem(i, j).sub_spec(rhs@.elem(i, j)),
    {
        let a = self.rb();
        let b = rhs.as_ref();
        assert forall|i: int, j: int| #[trigger] a.in_shape(i, j) implies a.elem(i, j).sub_req(b.elem(i, j)) by {
            assert(self.in_shape(i, j));
            assert(rhs@.in_shape(i, j));
        }
        let r = sub_views(a, b);
        assert forall|i: int, j: int| #[trigger] r@.in_shape(i, j) implies self.elem(i, j) == a.elem(i, j) && rhs@.elem(i, j) == b.elem(i, j) by {
            assert(self.in_shape(i, j));
            assert(rhs@.in_shape(i, j));
        }
        r
    }
}

impl<'a, T: Copy + core::ops::Sub<Output = T>> vstd::std_specs::ops::SubSpecImpl<Mat<T>> for MatMut<'a, T> {
    open spec fn obeys_sub_spec() -> bool {
        false
    }

    /// Both operands are well formed, of one shape, and no difference overflows.
    open spec fn sub_req(self, rhs: Mat<T>) -> bool {
        &&& self.wf()
        &&& rhs.wf()
        &&& self.nrows == rhs@.nrows
        &&& self.ncols == rhs@.ncols
        &&& forall|i: int, j: int| #[trigger] self.in_shape(i, j) ==> self.elem(i, j).sub_req(rhs@.elem(i, j))
    }

    open spec fn sub_spec(self, rhs: Mat<T>) -> Mat<T> {
        arbitrary()
    }
}

impl<'b, T: Copy + core::ops::Sub<Output = T>> core::ops::Sub<MatMut<'b, T>> for Mat<T> {
    type Output = Mat<T>;

    fn sub(self, rhs: MatMut<'b, T>) -> (r: Mat<T>)
        ensures
            r.wf(),
            r@.nrows == self@.nrows,
            r@.ncols == self@.ncols,
            T::obeys_sub_spec() ==> forall|i: int, j: int| #[trigger] r@.in_shape(i, j) ==> r@.elem(i, j) == self@.elem(i, j).sub_spec(rhs.elem(i, j)),
    {
        let a = self.as_ref();
        let b = rhs.rb();
        assert forall|i: int, j: int| #[trigger] a.in_shape(i, j) implies a.elem(i, j).sub_req(b.elem(i, j)) by {
            assert(self@.in_shape(i, j));
            assert(rhs.in_shape(i, j));
        }
        let r = sub_views(a, b);
        assert forall|i: int, j: int| #[trigger] r@.in_shape(i, j) implies self@.elem(i, j) == a.elem(i, j) && rhs.elem(i, j) == b.elem(i, j) by {
            assert(self@.in_shape(i, j));
            assert(rhs.in_shape(i, j));
        }
        r
    }
}

impl<'b, T: Copy + core::ops::Sub<Output = T>> vstd::std_specs::ops::SubSpecImpl<MatMut<'b, T>> for Mat<T> {
    open spec fn obeys_sub_spec() -> bool {
        false
    }

    /// Both operands are well formed, of one shape, and no difference overflows.
    open spec fn sub_req(self, rhs: MatMut<'b, T>) -> bool {
        &&& self.wf()
        &&& rhs.wf()
        &&& self@.nrows == rhs.nrows
        &&& self@.ncols == rhs.ncols
        &&& forall|i: int, j: int| #[trigger] self@.in_shape(i, j) ==> self@.elem(i, j).sub_req(rhs.elem(i, j))
    }

    open spec fn sub_spec(self, rhs: MatMut<'b, T>) -> Mat<T> {
        arbitrary()
    }
}

impl<'a, T: Copy + core::ops::Mul<Output = T>> core::ops::Mul<T> for MatRef<'a, T> {
    type Output = Mat<T>;

    fn mul(self, rhs: T) -> (r: Mat<T>)
        ensures
            r.wf(),
            r@.nrows == self.nrows,
            r@.ncols == self.ncols,
            T::obeys_mul_spec() ==> forall|i: int, j: int| #[trigger] r@.in_shape(i, j) ==> r@.elem(i, j) == self.elem(i, j).mul_spec(rhs),
    {
        let a = self;
        assert forall|i: int, j: int| #[trigger] a.in_shape(i, j) implies a.elem(i, j).mul_req(rhs) by {
            assert(self.in_shape(i, j));
        }
        let r = mul_scalar(a, rhs);
        assert forall|i: int, j: int| #[trigger] r@.in_shape(i, j) implies self.elem(i, j) == a.elem(i, j) by {
            assert(self.in_shape(i, j));
        }
        r
    }
}

impl<'a, T: Copy + core::ops::Mul<Output = T>> vstd::std_specs::ops::MulSpecImpl<T> for MatRef<'a, T> {
    open spec fn obeys_mul_spec() -> bool {
        false
    }

    /// The matrix is well formed and no product with `rhs` fails.
    open spec fn mul_req(self, rhs: T) -> bool {
        &&& self.wf()
        &&& forall|i: int, j: int| #[trigger] self.in_shape(i, j) ==> self.elem(i, j).mul_req(rhs)
    }

    open spec fn mul_spec(self, rhs: T) -> Mat<T> {
        arbitrary()
    }
}

impl<'a, T: Copy + core::ops::Mul<Output = T>> core::ops::Mul<T> for &'a Mat<T> {
    type Output = Mat<T>;

    fn mul(self, rhs: T) -> (r: Mat<T>)
        ensures
            r.wf(),
            r@.nrows == self@.nrows,
            r@.ncols == self@.ncols,
            T::obeys_mul_spec() ==> forall|i: int, j: int| #[trigger] r@.in_shape(i, j) ==> r@.elem(i, j) == self@.elem(i, j).mul_spec(rhs),
    {
        let a = self.as_ref();
        assert forall|i: int, j: int| #[trigger] a.in_shape(i, j) implies a.elem(i, j).mul_req(rhs) by {
            assert(self@.in_shape(i, j));
        }
        let r = mul_scalar(a, rhs);
        assert forall|i: int, j: int| #[trigger] r@.in_shape(i, j) implies self@.elem(i, j) == a.elem(i, j) by {
            assert(self@.in_shape(i, j));
        }
        r
    }
}

impl<'a, T: Copy + core::ops::Mul<Output = T>> vstd::std_specs::ops::MulSpecImpl<T> for &'a Mat<T> {
    open spec fn obeys_mul_spec() -> bool {
        false
    }

    /// The matrix is well formed and no product with `rhs` fails.
    open spec fn mul_req(self, rhs: T) -> bool {
        &&& self.wf()
        &&& forall|i: int, j: int| #[trigger] self@.in_shape(i, j) ==> self@.elem(i, j).mul_req(rhs)
    }

    open spec fn mul_spec(self, rhs: T) -> Mat<T> {
        arbitrary()
    }
}

impl<T: Copy + core::ops::Mul<Output = T>> core::ops::Mul<T> for Mat<T> {
    type Output = Mat<T>;

    fn mul(self, rhs: T) -> (r: Mat<T>)
        ensures
            r.wf(),
            r@.nrows == self@.nrows,
            r@.ncols == self@.ncols,
            T::obeys_mul_spec() ==> forall|i: int, j: int| #[trigger] r@.in_shape(i, j) ==> r@.elem(i, j) == self@.elem(i, j).mul_spec(rhs),
    {
        let a = self.as_ref();
        assert forall|i: int, j: int| #[trigger] a.in_shape(i, j) implies a.elem(i, j).mul_req(rhs) by {
            assert(self@.in_shape(i, j));
        }
        let r = mul_scalar(a, rhs);
        assert forall|i: int, j: int| #[trigger] r@.in_shape(i, j) implies self@.elem(i, j) == a.elem(i, j) by {
            assert(self@.in_shape(i, j));
        }
        r
    }
}

impl<T: Copy + core::ops::Mul<Output = T>> vstd::std_specs::ops::MulSpecImpl<T> for Mat<T> {
    open spec fn obeys_mul_spec() -> bool {
        false
    }

    /// The matrix is well formed and no product with `rhs` fails.
    open spec fn mul_req(self, rhs: T) -> bool {
        &&& self.wf()
        &&& forall|i: int, j: int| #[trigger] self@.in_shape(i, j) ==> self@.elem(i, j).mul_req(rhs)
    }

    open spec fn mul_spec(self, rhs: T) -> Mat<T> {
        arbitrary()
    }
}

impl<'a, T: Copy + core::ops::Mul<Output = T>> core::ops::Mul<T> for MatMut<'a, T> {
    type Output = Mat<T>;

    fn mul(self, rhs: T) -> (r: Mat<T>)
        ensures
            r.wf(),
            r@.nrows == self.nrows,
            r@.ncols == self.ncols,
            T::obeys_mul_spec() ==> forall|i: int, j: int| #[trigger] r@.in_shape(i, j) ==> r@.elem(i, j) == self.elem(i, j).mul_spec(rhs),
    {
        let a = self.rb();
        assert forall|i: int, j: int| #[trigger] a.in_shape(i, j) implies a.elem(i, j).mul_req(rhs) by {
            assert(self.in_shape(i, j));
        }
        let r = mul_scalar(a, rhs);
        assert forall|i: int, j: int| #[trigger] r@.in_shape(i, j) implies self.elem(i, j) == a.elem(i, j) by {
            assert(self.in_shape(i, j));
        }
        r
    }
}

impl<'a, T: Copy + core::ops::Mul<Output = T>> vstd::std_specs::ops::MulSpecImpl<T> for MatMut<'a, T> {
    open spec fn obeys_mul_spec() -> bool {
        false
    }

    /// The matrix is well formed and no product with `rhs` fails.
    open spec fn mul_req(self, rhs: T) -> bool {
        &&& self.wf()
        &&& forall|i: int, j: int| #[trigger] self.in_shape(i, j) ==> self.elem(i, j).mul_req(rhs)
    }

    open spec fn mul_spec(self, rhs: T) -> Mat<T> {
        arbitrary()
    }
}

impl<'a, 'c, T: Copy + core::ops::Mul<Output = T>> core::ops::Mul<T> for &'a MatMut<'c, T> {
    type Output = Mat<T>;

    fn mul(self, rhs: T) -> (r: Mat<T>)
        ensures
            r.wf(),
            r@.nrows == self.nrows,
            r@.ncols == self.ncols,
            T::obeys_mul_spec() ==> forall|i: int, j: int| #[trigger] r@.in_shape(i, j) ==> r@.elem(i, j) == self.elem(i, j).mul_spec(rhs),
    {
        let a = self.rb();
        assert forall|i: int, j: int| #[trigger] a.in_shape(i, j) implies a.elem(i, j).mul_req(rhs) by {
            assert(self.in_shape(i, j));
        }
        let r = mul_scalar(a, rhs);
        assert forall|i: int, j: int| #[trigger] r@.in_shape(i, j) implies self.elem(i, j) == a.elem(i, j) by {
            assert(self.in_shape(i, j));
        }
        r
    }
}

impl<'a, 'c, T: Copy + core::ops::Mul<Output = T>> vstd::std_specs::ops::MulSpecImpl<T> for &'a MatMut<'c, T> {
    open spec fn obeys_mul_spec() -> bool {
        false
    }

    /// The matrix is well formed and no product with `rhs` fails.
    open spec fn mul_req(self, rhs: T) -> bool {
        &&& self.wf()
        &&& forall|i: int, j: int| #[trigger] self.in_shape(i, j) ==> self.elem(i, j).mul_req(rhs)
    }

    open spec fn mul_spec(self, rhs: T) -> Mat<T> {
        arbitrary()
    }
}

impl<'a, T: Copy + core::ops::Div<Output = T>> core::ops::Div<T> for MatRef<'a, T> {
    type Output = Mat<T>;

    fn div(self, rhs: T) -> (r: Mat<T>)
        ensures
            r.wf(),
            r@.nrows == self.nrows,
            r@.ncols == self.ncols,
            T::obeys_div_spec() ==> forall|i: int, j: int| #[trigger] r@.in_shape(i, j) ==> r@.elem(i, j) == self.elem(i, j).div_spec(rhs),
    {
        let a = self;
        assert forall|i: int, j: int| #[trigger] a.in_shape(i, j) implies a.elem(i, j).div_req(rhs) by {
            assert(self.in_shape(i, j));
        }
        let r = div_scalar(a, rhs);
        assert forall|i: int, j: int| #[trigger] r@.in_shape(i, j) implies self.elem(i, j) == a.elem(i, j) by {
            assert(self.in_shape(i, j));
        }
        r
    }
}

impl<'a, T: Copy + core::ops::Div<Output = T>> vstd::std_specs::ops::DivSpecImpl<T> for MatRef<'a, T> {
    open spec fn obeys_div_spec() -> bool {
        false
    }

    /// The matrix is well formed and no quotient with `rhs` fails.
    open spec fn div_req(self, rhs: T) -> bool {
        &&& self.wf()
        &&& forall|i: int, j: int| #[trigger] self.in_shape(i, j) ==> self.elem(i, j).div_req(rhs)
    }

    open spec fn div_spec(self, rhs: T) -> Mat<T> {
        arbitrary()
    }
}

impl<'a, T: Copy + core::ops::Div<Output = T>> core::ops::Div<T> for &'a Mat<T> {
    type Output = Mat<T>;

    fn div(self, rhs: T) -> (r: Mat<T>)
        ensures
            r.wf(),
            r@.nrows == self@.nrows,
            r@.ncols == self@.ncols,
            T::obeys_div_spec() ==> forall|i: int, j: int| #[trigger] r@.in_shape(i, j) ==> r@.elem(i, j) == self@.elem(i, j).div_spec(rhs),
    {
        let a = self.as_ref();
        assert forall|i: int, j: int| #[trigger] a.in_shape(i, j) implies a.elem(i, j).div_req(rhs) by {
            assert(self@.in_shape(i, j));
        }
        let r = div_scalar(a, rhs);
        assert forall|i: int, j: int| #[trigger] r@.in_shape(i, j) implies self@.elem(i, j) == a.elem(i, j) by {
            assert(self@.in_shape(i, j));
        }
        r
    }
}

impl<'a, T: Copy + core::ops::Div<Output = T>> vstd::std_specs::ops::DivSpecImpl<T> for &'a Mat<T> {
    open spec fn obeys_div_spec() -> bool {
        false
    }

    /// The matrix is well formed and no quotient with `rhs` fails.
    open spec fn div_req(self, rhs: T) -> bool {
        &&& self.wf()
        &&& forall|i: int, j: int| #[trigger] self@.in_shape(i, j) ==> self@.elem(i, j).div_req(rhs)
    }

    open spec fn div_spec(self, rhs: T) -> Mat<T> {
        arbitrary()
    }
}

impl<T: Copy + core::ops::Div<Output = T>> core::ops::Div<T> for Mat<T> {
    type Output = Mat<T>;

    fn div(self, rhs: T) -> (r: Mat<T>)
        ensures
            r.wf(),
            r@.nrows == self@.nrows,
            r@.ncols == self@.ncols,
            T::obeys_div_spec() ==> forall|i: int, j: int| #[trigger] r@.in_shape(i, j) ==> r@.elem(i, j) == self@.elem(i, j).div_spec(rhs),
    {
        let a = self.as_ref();
        assert forall|i: int, j: int| #[trigger] a.in_shape(i, j) implies a.elem(i, j).div_req(rhs) by {
            assert(self@.in_shape(i, j));
        }
        let r = div_scalar(a, rhs);
        assert forall|i: int, j: int| #[trigger] r@.in_shape(i, j) implies self@.elem(i, j) == a.elem(i, j) by {
            assert(self@.in_shape(i, j));
        }
        r
    }
}

impl<T: Copy + core::ops::Div<Output = T>> vstd::std_specs::ops::DivSpecImpl<T> for Mat<T> {
    open spec fn obeys_div_spec() -> bool {
        false
    }

    /// The matrix is well formed and no quotient with `rhs` fails.
    open spec fn div_req(self, rhs: T) -> bool {
        &&& self.wf()
        &&& forall|i: int, j: int| #[trigger] self@.in_shape(i, j) ==> self@.elem(i, j).div_req(rhs)
    }

    open spec fn div_spec(self, rhs: T) -> Mat<T> {
        arbitrary()
    }
}

impl<'a, T: Copy + core::ops::Div<Output = T>> core::ops::Div<T> for MatMut<'a, T> {
    type Output = Mat<T>;

    fn div(self, rhs: T) -> (r: Mat<T>)
        ensures
            r.wf(),
            r@.nrows == self.nrows,
            r@.ncols == self.ncols,
            T::obeys_div_spec() ==> forall|i: int, j: int| #[trigger] r@.in_shape(i, j) ==> r@.elem(i, j) == self.elem(i, j).div_spec(rhs),
    {
        let a = self.rb();
        assert forall|i: int, j: int| #[trigger] a.in_shape(i, j) implies a.elem(i, j).div_req(rhs) by {
            assert(self.in_shape(i, j));
        }
        let r = div_scalar(a, rhs);
        assert forall|i: int, j: int| #[trigger] r@.in_shape(i, j) implies self.elem(i, j) == a.elem(i, j) by {
            assert(self.in_shape(i, j));
        }
        r
    }
}

impl<'a, T: Copy + core::ops::Div<Output = T>> vstd::std_specs::ops::DivSpecImpl<T> for MatMut<'a, T> {
    open spec fn obeys_div_spec() -> bool {
        false
    }

    /// The matrix is well formed and no quotient with `rhs` fails.
    open spec fn div_req(self, rhs: T) -> bool {
        &&& self.wf()
        &&& forall|i: int, j: int| #[trigger] self.in_shape(i, j) ==> self.elem(i, j).div_req(rhs)
    }

    open spec fn div_spec(self, rhs: T) -> Mat<T> {
        arbitrary()
    }
}

impl<'a, 'c, T: Copy + core::ops::Div<Output = T>> core::ops::Div<T> for &'a MatMut<'c, T> {
    type Output = Mat<T>;

    fn div(self, rhs: T) -> (r: Mat<T>)
        ensures
            r.wf(),
            r@.nrows == self.nrows,
            r@.ncols == self.ncols,
            T::obeys_div_spec() ==> forall|i: int, j: int| #[trigger] r@.in_shape(i, j) ==> r@.elem(i, j) == self.elem(i, j).div_spec(rhs),
    {
        let a = self.rb();
        assert forall|i: int, j: int| #[trigger] a.in_shape(i, j) implies a.elem(i, j).div_req(rhs) by {
            assert(self.in_shape(i, j));
        }
        let r = div_scalar(a, rhs);
        assert forall|i: int, j: int| #[trigger] r@.in_shape(i, j) implies self.elem(i, j) == a.elem(i, j) by {
            assert(self.in_shape(i, j));
        }
        r
    }
}

impl<'a, 'c, T: Copy + core::ops::Div<Output = T>> vstd::std_specs::ops::DivSpecImpl<T> for &'a MatMut<'c, T> {
    open spec fn obeys_div_spec() -> bool {
        false
    }

    /// The matrix is well formed and no quotient with `rhs` fails.
    open spec fn div_req(self, rhs: T) -> bool {
        &&& self.wf()
        &&& forall|i: int, j: int| #[trigger] self.in_shape(i, j) ==> self.elem(i, j).div_req(rhs)
    }

    open spec fn div_spec(self, rhs: T) -> Mat<T> {
        arbitrary()
    }
}

impl<'b> core::ops::Mul<MatRef<'b, i8>> for i8 {
    type Output = Mat<i8>;

    fn mul(self, rhs: MatRef<'b, i8>) -> (r: Mat<i8>)
        ensures
            r.wf(),
            r@.nrows == rhs.nrows,
            r@.ncols == rhs.ncols,
            forall|i: int, j: int| #[trigger] r@.in_shape(i, j) ==> r@.elem(i, j) == rhs.elem(i, j) * self,
    {
        let a = rhs;
        assert forall|i: int, j: int| #[trigger] a.in_shape(i, j) implies a.elem(i, j).mul_req(self) by {
            assert(rhs.in_shape(i, j));
        }
        let r = mul_scalar(a, self);
        assert forall|i: int, j: int| #[trigger] r@.in_shape(i, j) implies r@.elem(i, j) == rhs.elem(i, j) * self by {
            assert(rhs.in_shape(i, j));
            assert(a.in_shape(i, j));
            assert(rhs.elem(i, j) == a.elem(i, j));
            assert(a.elem(i, j).mul_req(self));
            assert(r@.elem(i, j) == a.elem(i, j).mul_spec(self));
        }
        r
    }
}

impl<'b> vstd::std_specs::ops::MulSpecImpl<MatRef<'b, i8>> for i8 {
    open spec fn obeys_mul_spec() -> bool {
        false
    }

    /// The matrix is well formed and no product with `self` overflows.
    open spec fn mul_req(self, rhs: MatRef<'b, i8>) -> bool {
        &&& rhs.wf()
        &&& forall|i: int, j: int| #[trigger] rhs.in_shape(i, j) ==> i8::MIN <= rhs.elem(i, j) * self <= i8::MAX
    }

    open spec fn mul_spec(self, rhs: MatRef<'b, i8>) -> Mat<i8> {
        arbitrary()
    }
}

impl<'b> core::ops::Mul<&'b Mat<i8>> for i8 {
    type Output = Mat<i8>;

    fn mul(self, rhs: &'b Mat<i8>) -> (r: Mat<i8>)
        ensures
            r.wf(),
            r@.nrows == rhs@.nrows,
            r@.ncols == rhs@.ncols,
            forall|i: int, j: int| #[trigger] r@.in_shape(i, j) ==> r@.elem(i, j) == rhs@.elem(i, j) * self,
    {
        let a = rhs.as_ref();
        assert forall|i: int, j: int| #[trigger] a.in_shape(i, j) implies a.elem(i, j).mul_req(self) by {
            assert(rhs@.in_shape(i, j));
        }
        let r = mul_scalar(a, self);
        assert forall|i: int, j: int| #[trigger] r@.in_shape(i, j) implies r@.elem(i, j) == rhs@.elem(i, j) * self by {
            assert(rhs@.in_shape(i, j));
            assert(a.in_shape(i, j));
            assert(rhs@.elem(i, j) == a.elem(i, j));
            assert(a.elem(i, j).mul_req(self));
            assert(r@.elem(i, j) == a.elem(i, j).mul_spec(self));
        }
        r
    }
}

impl<'b> vstd::std_specs::ops::MulSpecImpl<&'b Mat<i8>> for i8 {
    open spec fn obeys_mul_spec() -> bool {
        false
    }

    /// The matrix is well formed and no product with `self` overflows.
    open spec fn mul_req(self, rhs: &'b Mat<i8>) -> bool {
        &&& rhs.wf()
        &&& forall|i: int, j: int| #[trigger] rhs@.in_shape(i, j) ==> i8::MIN <= rhs@.elem(i, j) * self <= i8::MAX
    }

    open spec fn mul_spec(self, rhs: &'b Mat<i8>) -> Mat<i8> {
        arbitrary()
    }
}

impl core::ops::Mul<Mat<i8>> for i8 {
    type Output = Mat<i8>;

    fn mul(self, rhs: Mat<i8>) -> (r: Mat<i8>)
        ensures
            r.wf(),
            r@.nrows == rhs@.nrows,
            r@.ncols == rhs@.ncols,
            forall|i: int, j: int| #[trigger] r@.in_shape(i, j) ==> r@.elem(i, j) == rhs@.elem(i, j) * self,
    {
        let a = rhs.as_ref();
        assert forall|i: int, j: int| #[trigger] a.in_shape(i, j) implies a.elem(i, j).mul_req(self) by {
            assert(rhs@.in_shape(i, j));
        }
        let r = mul_scalar(a, self);
        assert forall|i: int, j: int| #[trigger] r@.in_shape(i, j) implies r@.elem(i, j) == rhs@.elem(i, j) * self by {
            assert(rhs@.in_shape(i, j));
            assert(a.in_shape(i, j));
            assert(rhs@.elem(i, j) == a.elem(i, j));
            assert(a.elem(i, j).mul_req(self));
            assert(r@.elem(i, j) == a.elem(i, j).mul_spec(self));
        }
        r
    }
}

impl vstd::std_specs::ops::MulSpecImpl<Mat<i8>> for i8 {
    open spec fn obeys_mul_spec() -> bool {
        false
    }

    /// The matrix is well formed and no product with `self` overflows.
    open spec fn mul_req(self, rhs: Mat<i8>) -> bool {
        &&& rhs.wf()
        &&& forall|i: int, j: int| #[trigger] rhs@.in_shape(i, j) ==> i8::MIN <= rhs@.elem(i, j) * self <= i8::MAX
    }

    open spec fn mul_spec(self, rhs: Mat<i8>) -> Mat<i8> {
        arbitrary()
    }
}

impl<'b> core::ops::Mul<MatMut<'b, i8>> for i8 {
    type Output = Mat<i8>;

    fn mul(self, rhs: MatMut<'b, i8>) -> (r: Mat<i8>)
        ensures
            r.wf(),
            r@.nrows == rhs.nrows,
            r@.ncols == rhs.ncols,
            forall|i: int, j: int| #[trigger] r@.in_shape(i, j) ==> r@.elem(i, j) == rhs.elem(i, j) * self,
    {
        let a = rhs.rb();
        assert forall|i: int, j: int| #[trigger] a.in_shape(i, j) implies a.elem(i, j).mul_req(self) by {
            assert(rhs.in_shape(i, j));
        }
        let r = mul_scalar(a, self);
        assert forall|i: int, j: int| #[trigger] r@.in_shape(i, j) implies r@.elem(i, j) == rhs.elem(i, j) * self by {
            assert(rhs.in_shape(i, j));
            assert(a.in_shape(i, j));
            assert(rhs.elem(i, j) == a.elem(i, j));
            assert(a.elem(i, j).mul_req(self));
            assert(r@.elem(i, j) == a.elem(i, j).mul_spec(self));
        }
        r
    }
}

impl<'b> vstd::std_specs::ops::MulSpecImpl<MatMut<'b, i8>> for i8 {
    open spec fn obeys_mul_spec() -> bool {
        false
    }

    /// The matrix is well formed and no product with `self` overflows.
    open spec fn mul_req(self, rhs: MatMut<'b, i8>) -> bool {
        &&& rhs.wf()
        &&& forall|i: int, j: int| #[trigger] rhs.in_shape(i, j) ==> i8::MIN <= rhs.elem(i, j) * self <= i8::MAX
    }

    open spec fn mul_spec(self, rhs: MatMut<'b, i8>) -> Mat<i8> {
        arbitrary()
    }
}

impl<'b, 'd> core::ops::Mul<&'b MatMut<'d, i8>> for i8 {
    type Output = Mat<i8>;

    fn mul(self, rhs: &'b MatMut<'d, i8>) -> (r: Mat<i8>)
        ensures
            r.wf(),
            r@.nrows == rhs.nrows,
            r@.ncols == rhs.ncols,
            forall|i: int, j: int| #[trigger] r@.in_shape(i, j) ==> r@.elem(i, j) == rhs.elem(i, j) * self,
    {
        let a = rhs.rb();
        assert forall|i: int, j: int| #[trigger] a.in_shape(i, j) implies a.elem(i, j).mul_req(self) by {
            assert(rhs.in_shape(i, j));
        }
        let r = mul_scalar(a, self);
        assert forall|i: int, j: int| #[trigger] r@.in_shape(i, j) implies r@.elem(i, j) == rhs.elem(i, j) * self by {
            assert(rhs.in_shape(i, j));
            assert(a.in_shape(i, j));
            assert(rhs.elem(i, j) == a.elem(i, j));
            assert(a.elem(i, j).mul_req(self));
            assert(r@.elem(i, j) == a.elem(i, j).mul_spec(self));
        }
        r
    }
}

impl<'b, 'd> vstd::std_specs::ops::MulSpecImpl<&'b MatMut<'d, i8>> for i8 {
    open spec fn obeys_mul_spec() -> bool {
        false
    }

    /// The matrix is well formed and no product with `self` overflows.
    open spec fn mul_req(self, rhs: &'b MatMut<'d, i8>) -> bool {
        &&& rhs.wf()
        &&& forall|i: int, j: int| #[trigger] rhs.in_shape(i, j) ==> i8::MIN <= rhs.elem(i, j) * self <= i8::MAX
    }

    open spec fn mul_spec(self, rhs: &'b MatMut<'d, i8>) -> Mat<i8> {
        arbitrary()
    }
}

impl<'b> core::ops::Mul<MatRef<'b, i16>> for i16 {
    type Output = Mat<i16>;

    fn mul(self, rhs: MatRef<'b, i16>) -> (r: Mat<i16>)
        ensures
            r.wf(),
            r@.nrows == rhs.nrows,
            r@.ncols == rhs.ncols,
            forall|i: int, j: int| #[trigger] r@.in_shape(i, j) ==> r@.elem(i, j) == rhs.elem(i, j) * self,
    {
        let a = rhs;
        assert forall|i: int, j: int| #[trigger] a.in_shape(i, j) implies a.elem(i, j).mul_req(self) by {
            assert(rhs.in_shape(i, j));
        }
        let r = mul_scalar(a, self);
        assert forall|i: int, j: int| #[trigger] r@.in_shape(i, j) implies r@.elem(i, j) == rhs.elem(i, j) * self by {
            assert(rhs.in_shape(i, j));
            assert(a.in_shape(i, j));
            assert(rhs.elem(i, j) == a.elem(i, j));
            assert(a.elem(i, j).mul_req(self));
            assert(r@.elem(i, j) == a.elem(i, j).mul_spec(self));
        }
        r
    }
}

impl<'b> vstd::std_specs::ops::MulSpecImpl<MatRef<'b, i16>> for i16 {
    open spec fn obeys_mul_spec() -> bool {
        false
    }

    /// The matrix is well formed and no product with `self` overflows.
    open spec fn mul_req(self, rhs: MatRef<'b, i16>) -> bool {
        &&& rhs.wf()
        &&& forall|i: int, j: int| #[trigger] rhs.in_shape(i, j) ==> i16::MIN <= rhs.elem(i, j) * self <= i16::MAX
    }

    open spec fn mul_spec(self, rhs: MatRef<'b, i16>) -> Mat<i16> {
        arbitrary()
    }
}

impl<'b> core::ops::Mul<&'b Mat<i16>> for i16 {
    type Output = Mat<i16>;

    fn mul(self, rhs: &'b Mat<i16>) -> (r: Mat<i16>)
        ensures
            r.wf(),
            r@.nrows == rhs@.nrows,
            r@.ncols == rhs@.ncols,
            forall|i: int, j: int| #[trigger] r@.in_shape(i, j) ==> r@.elem(i, j) == rhs@.elem(i, j) * self,
    {
        let a = rhs.as_ref();
        assert forall|i: int, j: int| #[trigger] a.in_shape(i, j) implies a.elem(i, j).mul_req(self) by {
            assert(rhs@.in_shape(i, j));
        }
        let r = mul_scalar(a, self);
        assert forall|i: int, j: int| #[trigger] r@.in_shape(i, j) implies r@.elem(i, j) == rhs@.elem(i, j) * self by {
            assert(rhs@.in_shape(i, j));
            assert(a.in_shape(i, j));
            assert(rhs@.elem(i, j) == a.elem(i, j));
            assert(a.elem(i, j).mul_req(self));
            assert(r@.elem(i, j) == a.elem(i, j).mul_spec(self));
        }
        r
    }
}

impl<'b> vstd::std_specs::ops::MulSpecImpl<&'b Mat<i16>> for i16 {
    open spec fn obeys_mul_spec() -> bool {
        false
    }

    /// The matrix is well formed and no product with `self` overflows.
    open spec fn mul_req(self, rhs: &'b Mat<i16>) -> bool {
        &&& rhs.wf()
        &&& forall|i: int, j: int| #[trigger] rhs@.in_shape(i, j) ==> i16::MIN <= rhs@.elem(i, j) * self <= i16::MAX
    }

    open spec fn mul_spec(self, rhs: &'b Mat<i16>) -> Mat<i16> {
        arbitrary()
    }
}

impl core::ops::Mul<Mat<i16>> for i16 {
    type Output = Mat<i16>;

    fn mul(self, rhs: Mat<i16>) -> (r: Mat<i16>)
        ensures
            r.wf(),
            r@.nrows == rhs@.nrows,
            r@.ncols == rhs@.ncols,
            forall|i: int, j: int| #[trigger] r@.in_shape(i, j) ==> r@.elem(i, j) == rhs@.elem(i, j) * self,
    {
        let a = rhs.as_ref();
        assert forall|i: int, j: int| #[trigger] a.in_shape(i, j) implies a.elem(i, j).mul_req(self) by {
            assert(rhs@.in_shape(i, j));
        }
        let r = mul_scalar(a, self);
        assert forall|i: int, j: int| #[trigger] r@.in_shape(i, j) implies r@.elem(i, j) == rhs@.elem(i, j) * self by {
            assert(rhs@.in_shape(i, j));
            assert(a.in_shape(i, j));
            assert(rhs@.elem(i, j) == a.elem(i, j));
            assert(a.elem(i, j).mul_req(self));
            assert(r@.elem(i, j) == a.elem(i, j).mul_spec(self));
        }
        r
    }
}

impl vstd::std_specs::ops::MulSpecImpl<Mat<i16>> for i16 {
    open spec fn obeys_mul_spec() -> bool {
        false
    }

    /// The matrix is well formed and no product with `self` overflows.
    open spec fn mul_req(self, rhs: Mat<i16>) -> bool {
        &&& rhs.wf()
        &&& forall|i: int, j: int| #[trigger] rhs@.in_shape(i, j) ==> i16::MIN <= rhs@.elem(i, j) * self <= i16::MAX
    }

    open spec fn mul_spec(self, rhs: Mat<i16>) -> Mat<i16> {
        arbitrary()
    }
}

impl<'b> core::ops::Mul<MatMut<'b, i16>> for i16 {
    type Output = Mat<i16>;

    fn mul(self, rhs: MatMut<'b, i16>) -> (r: Mat<i16>)
        ensures
            r.wf(),
            r@.nrows == rhs.nrows,
            r@.ncols == rhs.ncols,
            forall|i: int, j: int| #[trigger] r@.in_shape(i, j) ==> r@.elem(i, j) == rhs.elem(i, j) * self,
    {
        let a = rhs.rb();
        assert forall|i: int, j: int| #[trigger] a.in_shape(i, j) implies a.elem(i, j).mul_req(self) by {
            assert(rhs.in_shape(i, j));
        }
        let r = mul_scalar(a, self);
        assert forall|i: int, j: int| #[trigger] r@.in_shape(i, j) implies r@.elem(i, j) == rhs.elem(i, j) * self by {
            assert(rhs.in_shape(i, j));
            assert(a.in_shape(i, j));
            assert(rhs.elem(i, j) == a.elem(i, j));
            assert(a.elem(i, j).mul_req(self));
            assert(r@.elem(i, j) == a.elem(i, j).mul_spec(self));
        }
        r
    }
}

impl<'b> vstd::std_specs::ops::MulSpecImpl<MatMut<'b, i16>> for i16 {
    open spec fn obeys_mul_spec() -> bool {
        false
    }

    /// The matrix is well formed and no product with `self` overflows.
    open spec fn mul_req(self, rhs: MatMut<'b, i16>) -> bool {
        &&& rhs.wf()
        &&& forall|i: int, j: int| #[trigger] rhs.in_shape(i, j) ==> i16::MIN <= rhs.elem(i, j) * self <= i16::MAX
    }

    open spec fn mul_spec(self, rhs: MatMut<'b, i16>) -> Mat<i16> {
        arbitrary()
    }
}

impl<'b, 'd> core::ops::Mul<&'b MatMut<'d, i16>> for i16 {
    type Output = Mat<i16>;

    fn mul(self, rhs: &'b MatMut<'d, i16>) -> (r: Mat<i16>)
        ensures
            r.wf(),
            r@.nrows == rhs.nrows,
            r@.ncols == rhs.ncols,
            forall|i: int, j: int| #[trigger] r@.in_shape(i, j) ==> r@.elem(i, j) == rhs.elem(i, j) * self,
    {
        let a = rhs.rb();
        assert forall|i: int, j: int| #[trigger] a.in_shape(i, j) implies a.elem(i, j).mul_req(self) by {
            assert(rhs.in_shape(i, j));
        }
        let r = mul_scalar(a, self);
        assert forall|i: int, j: int| #[trigger] r@.in_shape(i, j) implies r@.elem(i, j) == rhs.elem(i, j) * self by {
            assert(rhs.in_shape(i, j));
            assert(a.in_shape(i, j));
            assert(rhs.elem(i, j) == a.elem(i, j));
            assert(a.elem(i, j).mul_req(self));
            assert(r@.elem(i, j) == a.elem(i, j).mul_spec(self));
        }
        r
    }
}

impl<'b, 'd> vstd::std_specs::ops::MulSpecImpl<&'b MatMut<'d, i16>> for i16 {
    open spec fn obeys_mul_spec() -> bool {
        false
    }

    /// The matrix is well formed and no product with `self` overflows.
    open spec fn mul_req(self, rhs: &'b MatMut<'d, i16>) -> bool {
        &&& rhs.wf()
        &&& forall|i: int, j: int| #[trigger] rhs.in_shape(i, j) ==> i16::MIN <= rhs.elem(i, j) * self <= i16::MAX
    }

    open spec fn mul_spec(self, rhs: &'b MatMut<'d, i16>) -> Mat<i16> {
        arbitrary()
    }
}

impl<'b> core::ops::Mul<MatRef<'b, i32>> for i32 {
    type Output = Mat<i32>;

    fn mul(self, rhs: MatRef<'b, i32>) -> (r: Mat<i32>)
        ensures
            r.wf(),
            r@.nrows == rhs.nrows,
            r@.ncols == rhs.ncols,
            forall|i: int, j: int| #[trigger] r@.in_shape(i, j) ==> r@.elem(i, j) == rhs.elem(i, j) * self,
    {
        let a = rhs;
        assert forall|i: int, j: int| #[trigger] a.in_shape(i, j) implies a.elem(i, j).mul_req(self) by {
            assert(rhs.in_shape(i, j));
        }
        let r = mul_scalar(a, self);
        assert forall|i: int, j: int| #[trigger] r@.in_shape(i, j) implies r@.elem(i, j) == rhs.elem(i, j) * self by {
            assert(rhs.in_shape(i, j));
            assert(a.in_shape(i, j));
            assert(rhs.elem(i, j) == a.elem(i, j));
            assert(a.elem(i, j).mul_req(self));
            assert(r@.elem(i, j) == a.elem(i, j).mul_spec(self));
        }
        r
    }
}

impl<'b> vstd::std_specs::ops::MulSpecImpl<MatRef<'b, i32>> for i32 {
    open spec fn obeys_mul_spec() -> bool {
        false
    }

    /// The matrix is well formed and no product with `self` overflows.
    open spec fn mul_req(self, rhs: MatRef<'b, i32>) -> bool {
        &&& rhs.wf()
        &&& forall|i: int, j: int| #[trigger] rhs.in_shape(i, j) ==> i32::MIN <= rhs.elem(i, j) * self <= i32::MAX
    }

    open spec fn mul_spec(self, rhs: MatRef<'b, i32>) -> Mat<i32> {
        arbitrary()
    }
}

impl<'b> core::ops::Mul<&'b Mat<i32>> for i32 {
    type Output = Mat<i32>;

    fn mul(self, rhs: &'b Mat<i32>) -> (r: Mat<i32>)
        ensures
            r.wf(),
            r@.nrows == rhs@.nrows,
            r@.ncols == rhs@.ncols,
            forall|i: int, j: int| #[trigger] r@.in_shape(i, j) ==> r@.elem(i, j) == rhs@.elem(i, j) * self,
    {
        let a = rhs.as_ref();
        assert forall|i: int, j: int| #[trigger] a.in_shape(i, j) implies a.elem(i, j).mul_req(self) by {
            assert(rhs@.in_shape(i, j));
        }
        let r = mul_scalar(a, self);
        assert forall|i: int, j: int| #[trigger] r@.in_shape(i, j) implies r@.elem(i, j) == rhs@.elem(i, j) * self by {
            assert(rhs@.in_shape(i, j));
            assert(a.in_shape(i, j));
            assert(rhs@.elem(i, j) == a.elem(i, j));
            assert(a.elem(i, j).mul_req(self));
            assert(r@.elem(i, j) == a.elem(i, j).mul_spec(self));
        }
        r
    }
}

impl<'b> vstd::std_specs::ops::MulSpecImpl<&'b Mat<i32>> for i32 {
    open spec fn obeys_mul_spec() -> bool {
        false
    }

    /// The matrix is well formed and no product with `self` overflows.
    open spec fn mul_req(self, rhs: &'b Mat<i32>) -> bool {
        &&& rhs.wf()
        &&& forall|i: int, j: int| #[trigger] rhs@.in_shape(i, j) ==> i32::MIN <= rhs@.elem(i, j) * self <= i32::MAX
    }

    open spec fn mul_spec(self, rhs: &'b Mat<i32>) -> Mat<i32> {
        arbitrary()
    }
}

impl core::ops::Mul<Mat<i32>> for i32 {
    type Output = Mat<i32>;

    fn mul(self, rhs: Mat<i32>) -> (r: Mat<i32>)
        ensures
            r.wf(),
            r@.nrows == rhs@.nrows,
            r@.ncols == rhs@.ncols,
            forall|i: int, j: int| #[trigger] r@.in_shape(i, j) ==> r@.elem(i, j) == rhs@.elem(i, j) * self,
    {
        let a = rhs.as_ref();
        assert forall|i: int, j: int| #[trigger] a.in_shape(i, j) implies a.elem(i, j).mul_req(self) by {
            assert(rhs@.in_shape(i, j));
        }
        let r = mul_scalar(a, self);
        assert forall|i: int, j: int| #[trigger] r@.in_shape(i, j) implies r@.elem(i, j) == rhs@.elem(i, j) * self by {
            assert(rhs@.in_shape(i, j));
            assert(a.in_shape(i, j));
            assert(rhs@.elem(i, j) == a.elem(i, j));
            assert(a.elem(i, j).mul_req(self));
            assert(r@.elem(i, j) == a.elem(i, j).mul_spec(self));
        }
        r
    }
}

impl vstd::std_specs::ops::MulSpecImpl<Mat<i32>> for i32 {
    open spec fn obeys_mul_spec() -> bool {
        false
    }

    /// The matrix is well formed and no product with `self` overflows.
    open spec fn mul_req(self, rhs: Mat<i32>) -> bool {
        &&& rhs.wf()
        &&& forall|i: int, j: int| #[trigger] rhs@.in_shape(i, j) ==> i32::MIN <= rhs@.elem(i, j) * self <= i32::MAX
    }

    open spec fn mul_spec(self, rhs: Mat<i32>) -> Mat<i32> {
        arbitrary()
    }
}

impl<'b> core::ops::Mul<MatMut<'b, i32>> for i32 {
    type Output = Mat<i32>;

    fn mul(self, rhs: MatMut<'b, i32>) -> (r: Mat<i32>)
        ensures
            r.wf(),
            r@.nrows == rhs.nrows,
            r@.ncols == rhs.ncols,
            forall|i: int, j: int| #[trigger] r@.in_shape(i, j) ==> r@.elem(i, j) == rhs.elem(i, j) * self,
    {
        let a = rhs.rb();
        assert forall|i: int, j: int| #[trigger] a.in_shape(i, j) implies a.elem(i, j).mul_req(self) by {
            assert(rhs.in_shape(i, j));
        }
        let r = mul_scalar(a, self);
        assert forall|i: int, j: int| #[trigger] r@.in_shape(i, j) implies r@.elem(i, j) == rhs.elem(i, j) * self by {
            assert(rhs.in_shape(i, j));
            assert(a.in_shape(i, j));
            assert(rhs.elem(i, j) == a.elem(i, j));
            assert(a.elem(i, j).mul_req(self));
            assert(r@.elem(i, j) == a.elem(i, j).mul_spec(self));
        }
        r
    }
}

impl<'b> vstd::std_specs::ops::MulSpecImpl<MatMut<'b, i32>> for i32 {
    open spec fn obeys_mul_spec() -> bool {
        false
    }

    /// The matrix is well formed and no product with `self` overflows.
    open spec fn mul_req(self, rhs: MatMut<'b, i32>) -> bool {
        &&& rhs.wf()
        &&& forall|i: int, j: int| #[trigger] rhs.in_shape(i, j) ==> i32::MIN <= rhs.elem(i, j) * self <= i32::MAX
    }

    open spec fn mul_spec(self, rhs: MatMut<'b, i32>) -> Mat<i32> {
        arbitrary()
    }
}

impl<'b, 'd> core::ops::Mul<&'b MatMut<'d, i32>> for i32 {
    type Output = Mat<i32>;

    fn mul(self, rhs: &'b MatMut<'d, i32>) -> (r: Mat<i32>)
        ensures
            r.wf(),
            r@.nrows == rhs.nrows,
            r@.ncols == rhs.ncols,
            forall|i: int, j: int| #[trigger] r@.in_shape(i, j) ==> r@.elem(i, j) == rhs.elem(i, j) * self,
    {
        let a = rhs.rb();
        assert forall|i: int, j: int| #[trigger] a.in_shape(i, j) implies a.elem(i, j).mul_req(self) by {
            assert(rhs.in_shape(i, j));
        }
        let r = mul_scalar(a, self);
        assert forall|i: int, j: int| #[trigger] r@.in_shape(i, j) implies r@.elem(i, j) == rhs.elem(i, j) * self by {
            assert(rhs.in_shape(i, j));
            assert(a.in_shape(i, j));
            assert(rhs.elem(i, j) == a.elem(i, j));
            assert(a.elem(i, j).mul_req(self));
            assert(r@.elem(i, j) == a.elem(i, j).mul_spec(self));
        }
        r
    }
}

impl<'b, 'd> vstd::std_specs::ops::MulSpecImpl<&'b MatMut<'d, i32>> for i32 {
    open spec fn obeys_mul_spec() -> bool {
        false
    }

    /// The matrix is well formed and no product with `self` overflows.
    open spec fn mul_req(self, rhs: &'b MatMut<'d, i32>) -> bool {
        &&& rhs.wf()
        &&& forall|i: int, j: int| #[trigger] rhs.in_shape(i, j) ==> i32::MIN <= rhs.elem(i, j) * self <= i32::MAX
    }

    open spec fn mul_spec(self, rhs: &'b MatMut<'d, i32>) -> Mat<i32> {
        arbitrary()
    }
}

impl<'b> core::ops::Mul<MatRef<'b, i64>> for i64 {
    type Output = Mat<i64>;

    fn mul(self, rhs: MatRef<'b, i64>) -> (r: Mat<i64>)
        ensures
            r.wf(),
            r@.nrows == rhs.nrows,
            r@.ncols == rhs.ncols,
            forall|i: int, j: int| #[trigger] r@.in_shape(i, j) ==> r@.elem(i, j) == rhs.elem(i, j) * self,
    {
        let a = rhs;
        assert forall|i: int, j: int| #[trigger] a.in_shape(i, j) implies a.elem(i, j).mul_req(self) by {
            assert(rhs.in_shape(i, j));
        }
        let r = mul_scalar(a, self);
        assert forall|i: int, j: int| #[trigger] r@.in_shape(i, j) implies r@.elem(i, j) == rhs.elem(i, j) * self by {
            assert(rhs.in_shape(i, j));
            assert(a.in_shape(i, j));
            assert(rhs.elem(i, j) == a.elem(i, j));
            assert(a.elem(i, j).mul_req(self));
            assert(r@.elem(i, j) == a.elem(i, j).mul_spec(self));
        }
        r
    }
}

impl<'b> vstd::std_specs::ops::MulSpecImpl<MatRef<'b, i64>> for i64 {
    open spec fn obeys_mul_spec() -> bool {
        false
    }

    /// The matrix is well formed and no product with `self` overflows.
    open spec fn mul_req(self, rhs: MatRef<'b, i64>) -> bool {
        &&& rhs.wf()
        &&& forall|i: int, j: int| #[trigger] rhs.in_shape(i, j) ==> i64::MIN <= rhs.elem(i, j) * self <= i64::MAX
    }

    open spec fn mul_spec(self, rhs: MatRef<'b, i64>) -> Mat<i64> {
        arbitrary()
    }
}

impl<'b> core::ops::Mul<&'b Mat<i64>> for i64 {
    type Output = Mat<i64>;

    fn mul(self, rhs: &'b Mat<i64>) -> (r: Mat<i64>)
        ensures
            r.wf(),
            r@.nrows == rhs@.nrows,
            r@.ncols == rhs@.ncols,
            forall|i: int, j: int| #[trigger] r@.in_shape(i, j) ==> r@.elem(i, j) == rhs@.elem(i, j) * self,
    {
        let a = rhs.as_ref();
        assert forall|i: int, j: int| #[trigger] a.in_shape(i, j) implies a.elem(i, j).mul_req(self) by {
            assert(rhs@.in_shape(i, j));
        }
        let r = mul_scalar(a, self);
        assert forall|i: int, j: int| #[trigger] r@.in_shape(i, j) implies r@.elem(i, j) == rhs@.elem(i, j) * self by {
            assert(rhs@.in_shape(i, j));
            assert(a.in_shape(i, j));
            assert(rhs@.elem(i, j) == a.elem(i, j));
            assert(a.elem(i, j).mul_req(self));
            assert(r@.elem(i, j) == a.elem(i, j).mul_spec(self));
        }
        r
    }
}

impl<'b> vstd::std_specs::ops::MulSpecImpl<&'b Mat<i64>> for i64 {
    open spec fn obeys_mul_spec() -> bool {
        false
    }

    /// The matrix is well formed and no product with `self` overflows.
    open spec fn mul_req(self, rhs: &'b Mat<i64>) -> bool {
        &&& rhs.wf()
        &&& forall|i: int, j: int| #[trigger] rhs@.in_shape(i, j) ==> i64::MIN <= rhs@.elem(i, j) * self <= i64::MAX
    }

    open spec fn mul_spec(self, rhs: &'b Mat<i64>) -> Mat<i64> {
        arbitrary()
    }
}

impl core::ops::Mul<Mat<i64>> for i64 {
    type Output = Mat<i64>;

    fn mul(self, rhs: Mat<i64>) -> (r: Mat<i64>)
        ensures
            r.wf(),
            r@.nrows == rhs@.nrows,
            r@.ncols == rhs@.ncols,
            forall|i: int, j: int| #[trigger] r@.in_shape(i, j) ==> r@.elem(i, j) == rhs@.elem(i, j) * self,
    {
        let a = rhs.as_ref();
        assert forall|i: int, j: int| #[trigger] a.in_shape(i, j) implies a.elem(i, j).mul_req(self) by {
            assert(rhs@.in_shape(i, j));
        }
        let r = mul_scalar(a, self);
        assert forall|i: int, j: int| #[trigger] r@.in_shape(i, j) implies r@.elem(i, j) == rhs@.elem(i, j) * self by {
            assert(rhs@.in_shape(i, j));
            assert(a.in_shape(i, j));
            assert(rhs@.elem(i, j) == a.elem(i, j));
            assert(a.elem(i, j).mul_req(self));
            assert(r@.elem(i, j) == a.elem(i, j).mul_spec(self));
        }
        r
    }
}

impl vstd::std_specs::ops::MulSpecImpl<Mat<i64>> for i64 {
    open spec fn obeys_mul_spec() -> bool {
        false
    }

    /// The matrix is well formed and no product with `self` overflows.
    open spec fn mul_req(self, rhs: Mat<i64>) -> bool {
        &&& rhs.wf()
        &&& forall|i: int, j: int| #[trigger] rhs@.in_shape(i, j) ==> i64::MIN <= rhs@.elem(i, j) * self <= i64::MAX
    }

    open spec fn mul_spec(self, rhs: Mat<i64>) -> Mat<i64> {
        arbitrary()
    }
}

impl<'b> core::ops::Mul<MatMut<'b, i64>> for i64 {
    type Output = Mat<i64>;

    fn mul(self, rhs: MatMut<'b, i64>) -> (r: Mat<i64>)
        ensures
            r.wf(),
            r@.nrows == rhs.nrows,
            r@.ncols == rhs.ncols,
            forall|i: int, j: int| #[trigger] r@.in_shape(i, j) ==> r@.elem(i, j) == rhs.elem(i, j) * self,
    {
        let a = rhs.rb();
        assert forall|i: int, j: int| #[trigger] a.in_shape(i, j) implies a.elem(i, j).mul_req(self) by {
            assert(rhs.in_shape(i, j));
        }
        let r = mul_scalar(a, self);
        assert forall|i: int, j: int| #[trigger] r@.in_shape(i, j) implies r@.elem(i, j) == rhs.elem(i, j) * self by {
            assert(rhs.in_shape(i, j));
            assert(a.in_shape(i, j));
            assert(rhs.elem(i, j) == a.elem(i, j));
            assert(a.elem(i, j).mul_req(self));
            assert(r@.elem(i, j) == a.elem(i, j).mul_spec(self));
        }
        r
    }
}

impl<'b> vstd::std_specs::ops::MulSpecImpl<MatMut<'b, i64>> for i64 {
    open spec fn obeys_mul_spec() -> bool {
        false
    }

    /// The matrix is well formed and no product with `self` overflows.
    open spec fn mul_req(self, rhs: MatMut<'b, i64>) -> bool {
        &&& rhs.wf()
        &&& forall|i: int, j: int| #[trigger] rhs.in_shape(i, j) ==> i64::MIN <= rhs.elem(i, j) * self <= i64::MAX
    }

    open spec fn mul_spec(self, rhs: MatMut<'b, i64>) -> Mat<i64> {
        arbitrary()
    }
}

impl<'b, 'd> core::ops::Mul<&'b MatMut<'d, i64>> for i64 {
    type Output = Mat<i64>;

    fn mul(self, rhs: &'b MatMut<'d, i64>) -> (r: Mat<i64>)
        ensures
            r.wf(),
            r@.nrows == rhs.nrows,
            r@.ncols == rhs.ncols,
            forall|i: int, j: int| #[trigger] r@.in_shape(i, j) ==> r@.elem(i, j) == rhs.elem(i, j) * self,
    {
        let a = rhs.rb();
        assert forall|i: int, j: int| #[trigger] a.in_shape(i, j) implies a.elem(i, j).mul_req(self) by {
            assert(rhs.in_shape(i, j));
        }
        let r = mul_scalar(a, self);
        assert forall|i: int, j: int| #[trigger] r@.in_shape(i, j) implies r@.elem(i, j) == rhs.elem(i, j) * self by {
            assert(rhs.in_shape(i, j));
            assert(a.in_shape(i, j));
            assert(rhs.elem(i, j) == a.elem(i, j));
            assert(a.elem(i, j).mul_req(self));
            assert(r@.elem(i, j) == a.elem(i, j).mul_spec(self));
        }
        r
    }
}

impl<'b, 'd> vstd::std_specs::ops::MulSpecImpl<&'b MatMut<'d, i64>> for i64 {
    open spec fn obeys_mul_spec() -> bool {
        false
    }

    /// The matrix is well formed and no product with `self` overflows.
    open spec fn mul_req(self, rhs: &'b MatMut<'d, i64>) -> bool {
        &&& rhs.wf()
        &&& forall|i: int, j: int| #[trigger] rhs.in_shape(i, j) ==> i64::MIN <= rhs.elem(i, j) * self <= i64::MAX
    }

    open spec fn mul_spec(self, rhs: &'b MatMut<'d, i64>) -> Mat<i64> {
        arbitrary()
    }
}

impl<'b> core::ops::Mul<MatRef<'b, i128>> for i128 {
    type Output = Mat<i128>;

    fn mul(self, rhs: MatRef<'b, i128>) -> (r: Mat<i128>)
        ensures
            r.wf(),
            r@.nrows == rhs.nrows,
            r@.ncols == rhs.ncols,
            forall|i: int, j: int| #[trigger] r@.in_shape(i, j) ==> r@.elem(i, j) == rhs.elem(i, j) * self,
    {
        let a = rhs;
        assert forall|i: int, j: int| #[trigger] a.in_shape(i, j) implies a.elem(i, j).mul_req(self) by {
            assert(rhs.in_shape(i, j));
        }
        let r = mul_scalar(a, self);
        assert forall|i: int, j: int| #[trigger] r@.in_shape(i, j) implies r@.elem(i, j) == rhs.elem(i, j) * self by {
            assert(rhs.in_shape(i, j));
            assert(a.in_shape(i, j));
            assert(rhs.elem(i, j) == a.elem(i, j));
            assert(a.elem(i, j).mul_req(self));
            assert(r@.elem(i, j) == a.elem(i, j).mul_spec(self));
        }
        r
    }
}

impl<'b> vstd::std_specs::ops::MulSpecImpl<MatRef<'b, i128>> for i128 {
    open spec fn obeys_mul_spec() -> bool {
        false
    }

    /// The matrix is well formed and no product with `self` overflows.
    open spec fn mul_req(self, rhs: MatRef<'b, i128>) -> bool {
        &&& rhs.wf()
        &&& forall|i: int, j: int| #[trigger] rhs.in_shape(i, j) ==> i128::MIN <= rhs.elem(i, j) * self <= i128::MAX
    }

    open spec fn mul_spec(self, rhs: MatRef<'b, i128>) -> Mat<i128> {
        arbitrary()
    }
}

impl<'b> core::ops::Mul<&'b Mat<i128>> for i128 {
    type Output = Mat<i128>;

    fn mul(self, rhs: &'b Mat<i128>) -> (r: Mat<i128>)
        ensures
            r.wf(),
            r@.nrows == rhs@.nrows,
            r@.ncols == rhs@.ncols,
            forall|i: int, j: int| #[trigger] r@.in_shape(i, j) ==> r@.elem(i, j) == rhs@.elem(i, j) * self,
    {
        let a = rhs.as_ref();
        assert forall|i: int, j: int| #[trigger] a.in_shape(i, j) implies a.elem(i, j).mul_req(self) by {
            assert(rhs@.in_shape(i, j));
        }
        let r = mul_scalar(a, self);
        assert forall|i: int, j: int| #[trigger] r@.in_shape(i, j) implies r@.elem(i, j) == rhs@.elem(i, j) * self by {
            assert(rhs@.in_shape(i, j));
            assert(a.in_shape(i, j));
            assert(rhs@.elem(i, j) == a.elem(i, j));
            assert(a.elem(i, j).mul_req(self));
            assert(r@.elem(i, j) == a.elem(i, j).mul_spec(self));
        }
        r
    }
}

impl<'b> vstd::std_specs::ops::MulSpecImpl<&'b Mat<i128>> for i128 {
    open spec fn obeys_mul_spec() -> bool {
        false
    }

    /// The matrix is well formed and no product with `self` overflows.
    open spec fn mul_req(self, rhs: &'b Mat<i128>) -> bool {
        &&& rhs.wf()
        &&& forall|i: int, j: int| #[trigger] rhs@.in_shape(i, j) ==> i128::MIN <= rhs@.elem(i, j) * self <= i128::MAX
    }

    open spec fn mul_spec(self, rhs: &'b Mat<i128>) -> Mat<i128> {
        arbitrary()
    }
}

impl core::ops::Mul<Mat<i128>> for i128 {
    type Output = Mat<i128>;

    fn mul(self, rhs: Mat<i128>) -> (r: Mat<i128>)
        ensures
            r.wf(),
            r@.nrows == rhs@.nrows,
            r@.ncols == rhs@.ncols,
            forall|i: int, j: int| #[trigger] r@.in_shape(i, j) ==> r@.elem(i, j) == rhs@.elem(i, j) * self,
    {
        let a = rhs.as_ref();
        assert forall|i: int, j: int| #[trigger] a.in_shape(i, j) implies a.elem(i, j).mul_req(self) by {
            assert(rhs@.in_shape(i, j));
        }
        let r = mul_scalar(a, self);
        assert forall|i: int, j: int| #[trigger] r@.in_shape(i, j) implies r@.elem(i, j) == rhs@.elem(i, j) * self by {
            assert(rhs@.in_shape(i, j));
            assert(a.in_shape(i, j));
            assert(rhs@.elem(i, j) == a.elem(i, j));
            assert(a.elem(i, j).mul_req(self));
            assert(r@.elem(i, j) == a.elem(i, j).mul_spec(self));
        }
        r
    }
}

impl vstd::std_specs::ops::MulSpecImpl<Mat<i128>> for i128 {
    open spec fn obeys_mul_spec() -> bool {
        false
    }

    /// The matrix is well formed and no product with `self` overflows.
    open spec fn mul_req(self, rhs: Mat<i128>) -> bool {
        &&& rhs.wf()
        &&& forall|i: int, j: int| #[trigger] rhs@.in_shape(i, j) ==> i128::MIN <= rhs@.elem(i, j) * self <= i128::MAX
    }

    open spec fn mul_spec(self, rhs: Mat<i128>) -> Mat<i128> {
        arbitrary()
    }
}

impl<'b> core::ops::Mul<MatMut<'b, i128>> for i128 {
    type Output = Mat<i128>;

    fn mul(self, rhs: MatMut<'b, i128>) -> (r: Mat<i128>)
        ensures
            r.wf(),
            r@.nrows == rhs.nrows,
            r@.ncols == rhs.ncols,
            forall|i: int, j: int| #[trigger] r@.in_shape(i, j) ==> r@.elem(i, j) == rhs.elem(i, j) * self,
    {
        let a = rhs.rb();
        assert forall|i: int, j: int| #[trigger] a.in_shape(i, j) implies a.elem(i, j).mul_req(self) by {
            assert(rhs.in_shape(i, j));
        }
        let r = mul_scalar(a, self);
        assert forall|i: int, j: int| #[trigger] r@.in_shape(i, j) implies r@.elem(i, j) == rhs.elem(i, j) * self by {
            assert(rhs.in_shape(i, j));
            assert(a.in_shape(i, j));
            assert(rhs.elem(i, j) == a.elem(i, j));
            assert(a.elem(i, j).mul_req(self));
            assert(r@.elem(i, j) == a.elem(i, j).mul_spec(self));
        }
        r
    }
}

impl<'b> vstd::std_specs::ops::MulSpecImpl<MatMut<'b, i128>> for i128 {
    open spec fn obeys_mul_spec() -> bool {
        false
    }

    /// The matrix is well formed and no product with `self` overflows.
    open spec fn mul_req(self, rhs: MatMut<'b, i128>) -> bool {
        &&& rhs.wf()
        &&& forall|i: int, j: int| #[trigger] rhs.in_shape(i, j) ==> i128::MIN <= rhs.elem(i, j) * self <= i128::MAX
    }

    open spec fn mul_spec(self, rhs: MatMut<'b, i128>) -> Mat<i128> {
        arbitrary()
    }
}

impl<'b, 'd> core::ops::Mul<&'b MatMut<'d, i128>> for i128 {
    type Output = Mat<i128>;

    fn mul(self, rhs: &'b MatMut<'d, i128>) -> (r: Mat<i128>)
        ensures
            r.wf(),
            r@.nrows == rhs.nrows,
            r@.ncols == rhs.ncols,
            forall|i: int, j: int| #[trigger] r@.in_shape(i, j) ==> r@.elem(i, j) == rhs.elem(i, j) * self,
    {
        let a = rhs.rb();
        assert forall|i: int, j: int| #[trigger] a.in_shape(i, j) implies a.elem(i, j).mul_req(self) by {
            assert(rhs.in_shape(i, j));
        }
        let r = mul_scalar(a, self);
        assert forall|i: int, j: int| #[trigger] r@.in_shape(i, j) implies r@.elem(i, j) == rhs.elem(i, j) * self by {
            assert(rhs.in_shape(i, j));
            assert(a.in_shape(i, j));
            assert(rhs.elem(i, j) == a.elem(i, j));
            assert(a.elem(i, j).mul_req(self));
            assert(r@.elem(i, j) == a.elem(i, j).mul_spec(self));
        }
        r
    }
}

impl<'b, 'd> vstd::std_specs::ops::MulSpecImpl<&'b MatMut<'d, i128>> for i128 {
    open spec fn obeys_mul_spec() -> bool {
        false
    }

    /// The matrix is well formed and no product with `self` overflows.
    open spec fn mul_req(self, rhs: &'b MatMut<'d, i128>) -> bool {
        &&& rhs.wf()
        &&& forall|i: int, j: int| #[trigger] rhs.in_shape(i, j) ==> i128::MIN <= rhs.elem(i, j) * self <= i128::MAX
    }

    open spec fn mul_spec(self, rhs: &'b MatMut<'d, i128>) -> Mat<i128> {
        arbitrary()
    }
}

impl<'b> core::ops::Mul<MatRef<'b, isize>> for isize {
    type Output = Mat<isize>;

    fn mul(self, rhs: MatRef<'b, isize>) -> (r: Mat<isize>)
        ensures
            r.wf(),
            r@.nrows == rhs.nrows,
            r@.ncols == rhs.ncols,
            forall|i: int, j: int| #[trigger] r@.in_shape(i, j) ==> r@.elem(i, j) == rhs.elem(i, j) * self,
    {
        let a = rhs;
        assert forall|i: int, j: int| #[trigger] a.in_shape(i, j) implies a.elem(i, j).mul_req(self) by {
            assert(rhs.in_shape(i, j));
        }
        let r = mul_scalar(a, self);
        assert forall|i: int, j: int| #[trigger] r@.in_shape(i, j) implies r@.elem(i, j) == rhs.elem(i, j) * self by {
            assert(rhs.in_shape(i, j));
            assert(a.in_shape(i, j));
            assert(rhs.elem(i, j) == a.elem(i, j));
            assert(a.elem(i, j).mul_req(self));
            assert(r@.elem(i, j) == a.elem(i, j).mul_spec(self));
        }
        r
    }
}

impl<'b> vstd::std_specs::ops::MulSpecImpl<MatRef<'b, isize>> for isize {
    open spec fn obeys_mul_spec() -> bool {
        false
    }

    /// The matrix is well formed and no product with `self` overflows.
    open spec fn mul_req(self, rhs: MatRef<'b, isize>) -> bool {
        &&& rhs.wf()
        &&& forall|i: int, j: int| #[trigger] rhs.in_shape(i, j) ==> isize::MIN <= rhs.elem(i, j) * self <= isize::MAX
    }

    open spec fn mul_spec(self, rhs: MatRef<'b, isize>) -> Mat<isize> {
        arbitrary()
    }
}

impl<'b> core::ops::Mul<&'b Mat<isize>> for isize {
    type Output = Mat<isize>;

    fn mul(self, rhs: &'b Mat<isize>) -> (r: Mat<isize>)
        ensures
            r.wf(),
            r@.nrows == rhs@.nrows,
            r@.ncols == rhs@.ncols,
            forall|i: int, j: int| #[trigger] r@.in_shape(i, j) ==> r@.elem(i, j) == rhs@.elem(i, j) * self,
    {
        let a = rhs.as_ref();
        assert forall|i: int, j: int| #[trigger] a.in_shape(i, j) implies a.elem(i, j).mul_req(self) by {
            assert(rhs@.in_shape(i, j));
        }
        let r = mul_scalar(a, self);
        assert forall|i: int, j: int| #[trigger] r@.in_shape(i, j) implies r@.elem(i, j) == rhs@.elem(i, j) * self by {
            assert(rhs@.in_shape(i, j));
            assert(a.in_shape(i, j));
            assert(rhs@.elem(i, j) == a.elem(i, j));
            assert(a.elem(i, j).mul_req(self));
            assert(r@.elem(i, j) == a.elem(i, j).mul_spec(self));
        }
        r
    }
}

impl<'b> vstd::std_specs::ops::MulSpecImpl<&'b Mat<isize>> for isize {
    open spec fn obeys_mul_spec() -> bool {
        false
    }

    /// The matrix is well formed and no product with `self` overflows.
    open spec fn mul_req(self, rhs: &'b Mat<isize>) -> bool {
        &&& rhs.wf()
        &&& forall|i: int, j: int| #[trigger] rhs@.in_shape(i, j) ==> isize::MIN <= rhs@.elem(i, j) * self <= isize::MAX
    }

    open spec fn mul_spec(self, rhs: &'b Mat<isize>) -> Mat<isize> {
        arbitrary()
    }
}

impl core::ops::Mul<Mat<isize>> for isize {
    type Output = Mat<isize>;

    fn mul(self, rhs: Mat<isize>) -> (r: Mat<isize>)
        ensures
            r.wf(),
            r@.nrows == rhs@.nrows,
            r@.ncols == rhs@.ncols,
            forall|i: int, j: int| #[trigger] r@.in_shape(i, j) ==> r@.elem(i, j) == rhs@.elem(i, j) * self,
    {
        let a = rhs.as_ref();
        assert forall|i: int, j: int| #[trigger] a.in_shape(i, j) implies a.elem(i, j).mul_req(self) by {
            assert(rhs@.in_shape(i, j));
        }
        let r = mul_scalar(a, self);
        assert forall|i: int, j: int| #[trigger] r@.in_shape(i, j) implies r@.elem(i, j) == rhs@.elem(i, j) * self by {
            assert(rhs@.in_shape(i, j));
            assert(a.in_shape(i, j));
            assert(rhs@.elem(i, j) == a.elem(i, j));
            assert(a.elem(i, j).mul_req(self));
            assert(r@.elem(i, j) == a.elem(i, j).mul_spec(self));
        }
        r
    }
}

impl vstd::std_specs::ops::MulSpecImpl<Mat<isize>> for isize {
    open spec fn obeys_mul_spec() -> bool {
        false
    }

    /// The matrix is well formed and no product with `self` overflows.
    open spec fn mul_req(self, rhs: Mat<isize>) -> bool {
        &&& rhs.wf()
        &&& forall|i: int, j: int| #[trigger] rhs@.in_shape(i, j) ==> isize::MIN <= rhs@.elem(i, j) * self <= isize::MAX
    }

    open spec fn mul_spec(self, rhs: Mat<isize>) -> Mat<isize> {
        arbitrary()
    }
}

impl<'b> core::ops::Mul<MatMut<'b, isize>> for isize {
    type Output = Mat<isize>;

    fn mul(self, rhs: MatMut<'b, isize>) -> (r: Mat<isize>)
        ensures
            r.wf(),
            r@.nrows == rhs.nrows,
            r@.ncols == rhs.ncols,
            forall|i: int, j: int| #[trigger] r@.in_shape(i, j) ==> r@.elem(i, j) == rhs.elem(i, j) * self,
    {
        let a = rhs.rb();
        assert forall|i: int, j: int| #[trigger] a.in_shape(i, j) implies a.elem(i, j).mul_req(self) by {
            assert(rhs.in_shape(i, j));
        }
        let r = mul_scalar(a, self);
        assert forall|i: int, j: int| #[trigger] r@.in_shape(i, j) implies r@.elem(i, j) == rhs.elem(i, j) * self by {
            assert(rhs.in_shape(i, j));
            assert(a.in_shape(i, j));
            assert(rhs.elem(i, j) == a.elem(i, j));
            assert(a.elem(i, j).mul_req(self));
            assert(r@.elem(i, j) == a.elem(i, j).mul_spec(self));
        }
        r
    }
}

impl<'b> vstd::std_specs::ops::MulSpecImpl<MatMut<'b, isize>> for isize {
    open spec fn obeys_mul_spec() -> bool {
        false
    }

    /// The matrix is well formed and no product with `self` overflows.
    open spec fn mul_req(self, rhs: MatMut<'b, isize>) -> bool {
        &&& rhs.wf()
        &&& forall|i: int, j: int| #[trigger] rhs.in_shape(i, j) ==> isize::MIN <= rhs.elem(i, j) * self <= isize::MAX
    }

    open spec fn mul_spec(self, rhs: MatMut<'b, isize>) -> Mat<isize> {
        arbitrary()
    }
}

impl<'b, 'd> core::ops::Mul<&'b MatMut<'d, isize>> for isize {
    type Output = Mat<isize>;

    fn mul(self, rhs: &'b MatMut<'d, isize>) -> (r: Mat<isize>)
        ensures
            r.wf(),
            r@.nrows == rhs.nrows,
            r@.ncols == rhs.ncols,
            forall|i: int, j: int| #[trigger] r@.in_shape(i, j) ==> r@.elem(i, j) == rhs.elem(i, j) * self,
    {
        let a = rhs.rb();
        assert forall|i: int, j: int| #[trigger] a.in_shape(i, j) implies a.elem(i, j).mul_req(self) by {
            assert(rhs.in_shape(i, j));
        }
        let r = mul_scalar(a, self);
        assert forall|i: int, j: int| #[trigger] r@.in_shape(i, j) implies r@.elem(i, j) == rhs.elem(i, j) * self by {
            assert(rhs.in_shape(i, j));
            assert(a.in_shape(i, j));
            assert(rhs.elem(i, j) == a.elem(i, j));
            assert(a.elem(i, j).mul_req(self));
            assert(r@.elem(i, j) == a.elem(i, j).mul_spec(self));
        }
        r
    }
}

impl<'b, 'd> vstd::std_specs::ops::MulSpecImpl<&'b MatMut<'d, isize>> for isize {
    open spec fn obeys_mul_spec() -> bool {
        false
    }

    /// The matrix is well formed and no product with `self` overflows.
    open spec fn mul_req(self, rhs: &'b MatMut<'d, isize>) -> bool {
        &&& rhs.wf()
        &&& forall|i: int, j: int| #[trigger] rhs.in_shape(i, j) ==> isize::MIN <= rhs.elem(i, j) * self <= isize::MAX
    }

    open spec fn mul_spec(self, rhs: &'b MatMut<'d, isize>) -> Mat<isize> {
        arbitrary()
    }
}

impl<'b> core::ops::Mul<MatRef<'b, u8>> for u8 {
    type Output = Mat<u8>;

    fn mul(self, rhs: MatRef<'b, u8>) -> (r: Mat<u8>)
        ensures
            r.wf(),
            r@.nrows == rhs.nrows,
            r@.ncols == rhs.ncols,
            forall|i: int, j: int| #[trigger] r@.in_shape(i, j) ==> r@.elem(i, j) == rhs.elem(i, j) * self,
    {
        let a = rhs;
        assert forall|i: int, j: int| #[trigger] a.in_shape(i, j) implies a.elem(i, j).mul_req(self) by {
            assert(rhs.in_shape(i, j));
        }
        let r = mul_scalar(a, self);
        assert forall|i: int, j: int| #[trigger] r@.in_shape(i, j) implies r@.elem(i, j) == rhs.elem(i, j) * self by {
            assert(rhs.in_shape(i, j));
            assert(a.in_shape(i, j));
            assert(rhs.elem(i, j) == a.elem(i, j));
            assert(a.elem(i, j).mul_req(self));
            assert(r@.elem(i, j) == a.elem(i, j).mul_spec(self));
        }
        r
    }
}

impl<'b> vstd::std_specs::ops::MulSpecImpl<MatRef<'b, u8>> for u8 {
    open spec fn obeys_mul_spec() -> bool {
        false
    }

    /// The matrix is well formed and no product with `self` overflows.
    open spec fn mul_req(self, rhs: MatRef<'b, u8>) -> bool {
        &&& rhs.wf()
        &&& forall|i: int, j: int| #[trigger] rhs.in_shape(i, j) ==> u8::MIN <= rhs.elem(i, j) * self <= u8::MAX
    }

    open spec fn mul_spec(self, rhs: MatRef<'b, u8>) -> Mat<u8> {
        arbitrary()
    }
}

impl<'b> core::ops::Mul<&'b Mat<u8>> for u8 {
    type Output = Mat<u8>;

    fn mul(self, rhs: &'b Mat<u8>) -> (r: Mat<u8>)
        ensures
            r.wf(),
            r@.nrows == rhs@.nrows,
            r@.ncols == rhs@.ncols,
            forall|i: int, j: int| #[trigger] r@.in_shape(i, j) ==> r@.elem(i, j) == rhs@.elem(i, j) * self,
    {
        let a = rhs.as_ref();
        assert forall|i: int, j: int| #[trigger] a.in_shape(i, j) implies a.elem(i, j).mul_req(self) by {
            assert(rhs@.in_shape(i, j));
        }
        let r = mul_scalar(a, self);
        assert forall|i: int, j: int| #[trigger] r@.in_shape(i, j) implies r@.elem(i, j) == rhs@.elem(i, j) * self by {
            assert(rhs@.in_shape(i, j));
            assert(a.in_shape(i, j));
            assert(rhs@.elem(i, j) == a.elem(i, j));
            assert(a.elem(i, j).mul_req(self));
            assert(r@.elem(i, j) == a.elem(i, j).mul_spec(self));
        }
        r
    }
}

impl<'b> vstd::std_specs::ops::MulSpecImpl<&'b Mat<u8>> for u8 {
    open spec fn obeys_mul_spec() -> bool {
        false
    }

    /// The matrix is well formed and no product with `self` overflows.
    open spec fn mul_req(self, rhs: &'b Mat<u8>) -> bool {
        &&& rhs.wf()
        &&& forall|i: int, j: int| #[trigger] rhs@.in_shape(i, j) ==> u8::MIN <= rhs@.elem(i, j) * self <= u8::MAX
    }

    open spec fn mul_spec(self, rhs: &'b Mat<u8>) -> Mat<u8> {
        arbitrary()
    }
}

impl core::ops::Mul<Mat<u8>> for u8 {
    type Output = Mat<u8>;

    fn mul(self, rhs: Mat<u8>) -> (r: Mat<u8>)
        ensures
            r.wf(),
            r@.nrows == rhs@.nrows,
            r@.ncols == rhs@.ncols,
            forall|i: int, j: int| #[trigger] r@.in_shape(i, j) ==> r@.elem(i, j) == rhs@.elem(i, j) * self,
    {
        let a = rhs.as_ref();
        assert forall|i: int, j: int| #[trigger] a.in_shape(i, j) implies a.elem(i, j).mul_req(self) by {
            assert(rhs@.in_shape(i, j));
        }
        let r = mul_scalar(a, self);
        assert forall|i: int, j: int| #[trigger] r@.in_shape(i, j) implies r@.elem(i, j) == rhs@.elem(i, j) * self by {
            assert(rhs@.in_shape(i, j));
            assert(a.in_shape(i, j));
            assert(rhs@.elem(i, j) == a.elem(i, j));
            assert(a.elem(i, j).mul_req(self));
            assert(r@.elem(i, j) == a.elem(i, j).mul_spec(self));
        }
        r
    }
}

impl vstd::std_specs::ops::MulSpecImpl<Mat<u8>> for u8 {
    open spec fn obeys_mul_spec() -> bool {
        false
    }

    /// The matrix is well formed and no product with `self` overflows.
    open spec fn mul_req(self, rhs: Mat<u8>) -> bool {
        &&& rhs.wf()
        &&& forall|i: int, j: int| #[trigger] rhs@.in_shape(i, j) ==> u8::MIN <= rhs@.elem(i, j) * self <= u8::MAX
    }

    open spec fn mul_spec(self, rhs: Mat<u8>) -> Mat<u8> {
        arbitrary()
    }
}

impl<'b> core::ops::Mul<MatMut<'b, u8>> for u8 {
    type Output = Mat<u8>;

    fn mul(self, rhs: MatMut<'b, u8>) -> (r: Mat<u8>)
        ensures
            r.wf(),
            r@.nrows == rhs.nrows,
            r@.ncols == rhs.ncols,
            forall|i: int, j: int| #[trigger] r@.in_shape(i, j) ==> r@.elem(i, j) == rhs.elem(i, j) * self,
    {
        let a = rhs.rb();
        assert forall|i: int, j: int| #[trigger] a.in_shape(i, j) implies a.elem(i, j).mul_req(self) by {
            assert(rhs.in_shape(i, j));
        }
        let r = mul_scalar(a, self);
        assert forall|i: int, j: int| #[trigger] r@.in_shape(i, j) implies r@.elem(i, j) == rhs.elem(i, j) * self by {
            assert(rhs.in_shape(i, j));
            assert(a.in_shape(i, j));
            assert(rhs.elem(i, j) == a.elem(i, j));
            assert(a.elem(i, j).mul_req(self));
            assert(r@.elem(i, j) == a.elem(i, j).mul_spec(self));
        }
        r
    }
}

impl<'b> vstd::std_specs::ops::MulSpecImpl<MatMut<'b, u8>> for u8 {
    open spec fn obeys_mul_spec() -> bool {
        false
    }

    /// The matrix is well formed and no product with `self` overflows.
    open spec fn mul_req(self, rhs: MatMut<'b, u8>) -> bool {
        &&& rhs.wf()
        &&& forall|i: int, j: int| #[trigger] rhs.in_shape(i, j) ==> u8::MIN <= rhs.elem(i, j) * self <= u8::MAX
    }

    open spec fn mul_spec(self, rhs: MatMut<'b, u8>) -> Mat<u8> {
        arbitrary()
    }
}

impl<'b, 'd> core::ops::Mul<&'b MatMut<'d, u8>> for u8 {
    type Output = Mat<u8>;

    fn mul(self, rhs: &'b MatMut<'d, u8>) -> (r: Mat<u8>)
        ensures
            r.wf(),
            r@.nrows == rhs.nrows,
            r@.ncols == rhs.ncols,
            forall|i: int, j: int| #[trigger] r@.in_shape(i, j) ==> r@.elem(i, j) == rhs.elem(i, j) * self,
    {
        let a = rhs.rb();
        assert forall|i: int, j: int| #[trigger] a.in_shape(i, j) implies a.elem(i, j).mul_req(self) by {
            assert(rhs.in_shape(i, j));
        }
        let r = mul_scalar(a, self);
        assert forall|i: int, j: int| #[trigger] r@.in_shape(i, j) implies r@.elem(i, j) == rhs.elem(i, j) * self by {
            assert(rhs.in_shape(i, j));
            assert(a.in_shape(i, j));
            assert(rhs.elem(i, j) == a.elem(i, j));
            assert(a.elem(i, j).mul_req(self));
            assert(r@.elem(i, j) == a.elem(i, j).mul_spec(self));
        }
        r
    }
}

impl<'b, 'd> vstd::std_specs::ops::MulSpecImpl<&'b MatMut<'d, u8>> for u8 {
    open spec fn obeys_mul_spec() -> bool {
        false
    }

    /// The matrix is well formed and no product with `self` overflows.
    open spec fn mul_req(self, rhs: &'b MatMut<'d, u8>) -> bool {
        &&& rhs.wf()
        &&& forall|i: int, j: int| #[trigger] rhs.in_shape(i, j) ==> u8::MIN <= rhs.elem(i, j) * self <= u8::MAX
    }

    open spec fn mul_spec(self, rhs: &'b MatMut<'d, u8>) -> Mat<u8> {
        arbitrary()
    }
}

impl<'b> core::ops::Mul<MatRef<'b, u16>> for u16 {
    type Output = Mat<u16>;

    fn mul(self, rhs: MatRef<'b, u16>) -> (r: Mat<u16>)
        ensures
            r.wf(),
            r@.nrows == rhs.nrows,
            r@.ncols == rhs.ncols,
            forall|i: int, j: int| #[trigger] r@.in_shape(i, j) ==> r@.elem(i, j) == rhs.elem(i, j) * self,
    {
        let a = rhs;
        assert forall|i: int, j: int| #[trigger] a.in_shape(i, j) implies a.elem(i, j).mul_req(self) by {
            assert(rhs.in_shape(i, j));
        }
        let r = mul_scalar(a, self);
        assert forall|i: int, j: int| #[trigger] r@.in_shape(i, j) implies r@.elem(i, j) == rhs.elem(i, j) * self by {
            assert(rhs.in_shape(i, j));
            assert(a.in_shape(i, j));
            assert(rhs.elem(i, j) == a.elem(i, j));
            assert(a.elem(i, j).mul_req(self));
            assert(r@.elem(i, j) == a.elem(i, j).mul_spec(self));
        }
        r
    }
}

impl<'b> vstd::std_specs::ops::MulSpecImpl<MatRef<'b, u16>> for u16 {
    open spec fn obeys_mul_spec() -> bool {
        false
    }

    /// The matrix is well formed and no product with `self` overflows.
    open spec fn mul_req(self, rhs: MatRef<'b, u16>) -> bool {
        &&& rhs.wf()
        &&& forall|i: int, j: int| #[trigger] rhs.in_shape(i, j) ==> u16::MIN <= rhs.elem(i, j) * self <= u16::MAX
    }

    open spec fn mul_spec(self, rhs: MatRef<'b, u16>) -> Mat<u16> {
        arbitrary()
    }
}

impl<'b> core::ops::Mul<&'b Mat<u16>> for u16 {
    type Output = Mat<u16>;

    fn mul(self, rhs: &'b Mat<u16>) -> (r: Mat<u16>)
        ensures
            r.wf(),
            r@.nrows == rhs@.nrows,
            r@.ncols == rhs@.ncols,
            forall|i: int, j: int| #[trigger] r@.in_shape(i, j) ==> r@.elem(i, j) == rhs@.elem(i, j) * self,
    {
        let a = rhs.as_ref();
        assert forall|i: int, j: int| #[trigger] a.in_shape(i, j) implies a.elem(i, j).mul_req(self) by {
            assert(rhs@.in_shape(i, j));
        }
        let r = mul_scalar(a, self);
        assert forall|i: int, j: int| #[trigger] r@.in_shape(i, j) implies r@.elem(i, j) == rhs@.elem(i, j) * self by {
            assert(rhs@.in_shape(i, j));
            assert(a.in_shape(i, j));
            assert(rhs@.elem(i, j) == a.elem(i, j));
            assert(a.elem(i, j).mul_req(self));
            assert(r@.elem(i, j) == a.elem(i, j).mul_spec(self));
        }
        r
    }
}

impl<'b> vstd::std_specs::ops::MulSpecImpl<&'b Mat<u16>> for u16 {
    open spec fn obeys_mul_spec() -> bool {
        false
    }

    /// The matrix is well formed and no product with `self` overflows.
    open spec fn mul_req(self, rhs: &'b Mat<u16>) -> bool {
        &&& rhs.wf()
        &&& forall|i: int, j: int| #[trigger] rhs@.in_shape(i, j) ==> u16::MIN <= rhs@.elem(i, j) * self <= u16::MAX
    }

    open spec fn mul_spec(self, rhs: &'b Mat<u16>) -> Mat<u16> {
        arbitrary()
    }
}

impl core::ops::Mul<Mat<u16>> for u16 {
    type Output = Mat<u16>;

    fn mul(self, rhs: Mat<u16>) -> (r: Mat<u16>)
        ensures
            r.wf(),
            r@.nrows == rhs@.nrows,
            r@.ncols == rhs@.ncols,
            forall|i: int, j: int| #[trigger] r@.in_shape(i, j) ==> r@.elem(i, j) == rhs@.elem(i, j) * self,
    {
        let a = rhs.as_ref();
        assert forall|i: int, j: int| #[trigger] a.in_shape(i, j) implies a.elem(i, j).mul_req(self) by {
            assert(rhs@.in_shape(i, j));
        }
        let r = mul_scalar(a, self);
        assert forall|i: int, j: int| #[trigger] r@.in_shape(i, j) implies r@.elem(i, j) == rhs@.elem(i, j) * self by {
            assert(rhs@.in_shape(i, j));
            assert(a.in_shape(i, j));
            assert(rhs@.elem(i, j) == a.elem(i, j));
            assert(a.elem(i, j).mul_req(self));
            assert(r@.elem(i, j) == a.elem(i, j).mul_spec(self));
        }
        r
    }
}

impl vstd::std_specs::ops::MulSpecImpl<Mat<u16>> for u16 {
    open spec fn obeys_mul_spec() -> bool {
        false
    }

    /// The matrix is well formed and no product with `self` overflows.
    open spec fn mul_req(self, rhs: Mat<u16>) -> bool {
        &&& rhs.wf()
        &&& forall|i: int, j: int| #[trigger] rhs@.in_shape(i, j) ==> u16::MIN <= rhs@.elem(i, j) * self <= u16::MAX
    }

    open spec fn mul_spec(self, rhs: Mat<u16>) -> Mat<u16> {
        arbitrary()
    }
}

impl<'b> core::ops::Mul<MatMut<'b, u16>> for u16 {
    type Output = Mat<u16>;

    fn mul(self, rhs: MatMut<'b, u16>) -> (r: Mat<u16>)
        ensures
            r.wf(),
            r@.nrows == rhs.nrows,
            r@.ncols == rhs.ncols,
            forall|i: int, j: int| #[trigger] r@.in_shape(i, j) ==> r@.elem(i, j) == rhs.elem(i, j) * self,
    {
        let a = rhs.rb();
        assert forall|i: int, j: int| #[trigger] a.in_shape(i, j) implies a.elem(i, j).mul_req(self) by {
            assert(rhs.in_shape(i, j));
        }
        let r = mul_scalar(a, self);
        assert forall|i: int, j: int| #[trigger] r@.in_shape(i, j) implies r@.elem(i, j) == rhs.elem(i, j) * self by {
            assert(rhs.in_shape(i, j));
            assert(a.in_shape(i, j));
            assert(rhs.elem(i, j) == a.elem(i, j));
            assert(a.elem(i, j).mul_req(self));
            assert(r@.elem(i, j) == a.elem(i, j).mul_spec(self));
        }
        r
    }
}

impl<'b> vstd::std_specs::ops::MulSpecImpl<MatMut<'b, u16>> for u16 {
    open spec fn obeys_mul_spec() -> bool {
        false
    }

    /// The matrix is well formed and no product with `self` overflows.
    open spec fn mul_req(self, rhs: MatMut<'b, u16>) -> bool {
        &&& rhs.wf()
        &&& forall|i: int, j: int| #[trigger] rhs.in_shape(i, j) ==> u16::MIN <= rhs.elem(i, j) * self <= u16::MAX
    }

    open spec fn mul_spec(self, rhs: MatMut<'b, u16>) -> Mat<u16> {
        arbitrary()
    }
}

impl<'b, 'd> core::ops::Mul<&'b MatMut<'d, u16>> for u16 {
    type Output = Mat<u16>;

    fn mul(self, rhs: &'b MatMut<'d, u16>) -> (r: Mat<u16>)
        ensures
            r.wf(),
            r@.nrows == rhs.nrows,
            r@.ncols == rhs.ncols,
            forall|i: int, j: int| #[trigger] r@.in_shape(i, j) ==> r@.elem(i, j) == rhs.elem(i, j) * self,
    {
        let a = rhs.rb();
        assert forall|i: int, j: int| #[trigger] a.in_shape(i, j) implies a.elem(i, j).mul_req(self) by {
            assert(rhs.in_shape(i, j));
        }
        let r = mul_scalar(a, self);
        assert forall|i: int, j: int| #[trigger] r@.in_shape(i, j) implies r@.elem(i, j) == rhs.elem(i, j) * self by {
            assert(rhs.in_shape(i, j));
            assert(a.in_shape(i, j));
            assert(rhs.elem(i, j) == a.elem(i, j));
            assert(a.elem(i, j).mul_req(self));
            assert(r@.elem(i, j) == a.elem(i, j).mul_spec(self));
        }
        r
    }
}

impl<'b, 'd> vstd::std_specs::ops::MulSpecImpl<&'b MatMut<'d, u16>> for u16 {
    open spec fn obeys_mul_spec() -> bool {
        false
    }

    /// The matrix is well formed and no product with `self` overflows.
    open spec fn mul_req(self, rhs: &'b MatMut<'d, u16>) -> bool {
        &&& rhs.wf()
        &&& forall|i: int, j: int| #[trigger] rhs.in_shape(i, j) ==> u16::MIN <= rhs.elem(i, j) * self <= u16::MAX
    }

    open spec fn mul_spec(self, rhs: &'b MatMut<'d, u16>) -> Mat<u16> {
        arbitrary()
    }
}

impl<'b> core::ops::Mul<MatRef<'b, u32>> for u32 {
    type Output = Mat<u32>;

    fn mul(self, rhs: MatRef<'b, u32>) -> (r: Mat<u32>)
        ensures
            r.wf(),
            r@.nrows == rhs.nrows,
            r@.ncols == rhs.ncols,
            forall|i: int, j: int| #[trigger] r@.in_shape(i, j) ==> r@.elem(i, j) == rhs.elem(i, j) * self,
    {
        let a = rhs;
        assert forall|i: int, j: int| #[trigger] a.in_shape(i, j) implies a.elem(i, j).mul_req(self) by {
            assert(rhs.in_shape(i, j));
        }
        let r = mul_scalar(a, self);
        assert forall|i: int, j: int| #[trigger] r@.in_shape(i, j) implies r@.elem(i, j) == rhs.elem(i, j) * self by {
            assert(rhs.in_shape(i, j));
            assert(a.in_shape(i, j));
            assert(rhs.elem(i, j) == a.elem(i, j));
            assert(a.elem(i, j).mul_req(self));
            assert(r@.elem(i, j) == a.elem(i, j).mul_spec(self));
        }
        r
    }
}

impl<'b> vstd::std_specs::ops::MulSpecImpl<MatRef<'b, u32>> for u32 {
    open spec fn obeys_mul_spec() -> bool {
        false
    }

    /// The matrix is well formed and no product with `self` overflows.
    open spec fn mul_req(self, rhs: MatRef<'b, u32>) -> bool {
        &&& rhs.wf()
        &&& forall|i: int, j: int| #[trigger] rhs.in_shape(i, j) ==> u32::MIN <= rhs.elem(i, j) * self <= u32::MAX
    }

    open spec fn mul_spec(self, rhs: MatRef<'b, u32>) -> Mat<u32> {
        arbitrary()
    }
}

impl<'b> core::ops::Mul<&'b Mat<u32>> for u32 {
    type Output = Mat<u32>;

    fn mul(self, rhs: &'b Mat<u32>) -> (r: Mat<u32>)
        ensures
            r.wf(),
            r@.nrows == rhs@.nrows,
            r@.ncols == rhs@.ncols,
            forall|i: int, j: int| #[trigger] r@.in_shape(i, j) ==> r@.elem(i, j) == rhs@.elem(i, j) * self,
    {
        let a = rhs.as_ref();
        assert forall|i: int, j: int| #[trigger] a.in_shape(i, j) implies a.elem(i, j).mul_req(self) by {
            assert(rhs@.in_shape(i, j));
        }
        let r = mul_scalar(a, self);
        assert forall|i: int, j: int| #[trigger] r@.in_shape(i, j) implies r@.elem(i, j) == rhs@.elem(i, j) * self by {
            assert(rhs@.in_shape(i, j));
            assert(a.in_shape(i, j));
            assert(rhs@.elem(i, j) == a.elem(i, j));
            assert(a.elem(i, j).mul_req(self));
            assert(r@.elem(i, j) == a.elem(i, j).mul_spec(self));
        }
        r
    }
}

impl<'b> vstd::std_specs::ops::MulSpecImpl<&'b Mat<u32>> for u32 {
    open spec fn obeys_mul_spec() -> bool {
        false
    }

    /// The matrix is well formed and no product with `self` overflows.
    open spec fn mul_req(self, rhs: &'b Mat<u32>) -> bool {
        &&& rhs.wf()
        &&& forall|i: int, j: int| #[trigger] rhs@.in_shape(i, j) ==> u32::MIN <= rhs@.elem(i, j) * self <= u32::MAX
    }

    open spec fn mul_spec(self, rhs: &'b Mat<u32>) -> Mat<u32> {
        arbitrary()
    }
}

impl core::ops::Mul<Mat<u32>> for u32 {
    type Output = Mat<u32>;

    fn mul(self, rhs: Mat<u32>) -> (r: Mat<u32>)
        ensures
            r.wf(),
            r@.nrows == rhs@.nrows,
            r@.ncols == rhs@.ncols,
            forall|i: int, j: int| #[trigger] r@.in_shape(i, j) ==> r@.elem(i, j) == rhs@.elem(i, j) * self,
    {
        let a = rhs.as_ref();
        assert forall|i: int, j: int| #[trigger] a.in_shape(i, j) implies a.elem(i, j).mul_req(self) by {
            assert(rhs@.in_shape(i, j));
        }
        let r = mul_scalar(a, self);
        assert forall|i: int, j: int| #[trigger] r@.in_shape(i, j) implies r@.elem(i, j) == rhs@.elem(i, j) * self by {
            assert(rhs@.in_shape(i, j));
            assert(a.in_shape(i, j));
            assert(rhs@.elem(i, j) == a.elem(i, j));
            assert(a.elem(i, j).mul_req(self));
            assert(r@.elem(i, j) == a.elem(i, j).mul_spec(self));
        }
        r
    }
}

impl vstd::std_specs::ops::MulSpecImpl<Mat<u32>> for u32 {
    open spec fn obeys_mul_spec() -> bool {
        false
    }

    /// The matrix is well formed and no product with `self` overflows.
    open spec fn mul_req(self, rhs: Mat<u32>) -> bool {
        &&& rhs.wf()
        &&& forall|i: int, j: int| #[trigger] rhs@.in_shape(i, j) ==> u32::MIN <= rhs@.elem(i, j) * self <= u32::MAX
    }

    open spec fn mul_spec(self, rhs: Mat<u32>) -> Mat<u32> {
        arbitrary()
    }
}

impl<'b> core::ops::Mul<MatMut<'b, u32>> for u32 {
    type Output = Mat<u32>;

    fn mul(self, rhs: MatMut<'b, u32>) -> (r: Mat<u32>)
        ensures
            r.wf(),
            r@.nrows == rhs.nrows,
            r@.ncols == rhs.ncols,
            forall|i: int, j: int| #[trigger] r@.in_shape(i, j) ==> r@.elem(i, j) == rhs.elem(i, j) * self,
    {
        let a = rhs.rb();
        assert forall|i: int, j: int| #[trigger] a.in_shape(i, j) implies a.elem(i, j).mul_req(self) by {
            assert(rhs.in_shape(i, j));
        }
        let r = mul_scalar(a, self);
        assert forall|i: int, j: int| #[trigger] r@.in_shape(i, j) implies r@.elem(i, j) == rhs.elem(i, j) * self by {
            assert(rhs.in_shape(i, j));
            assert(a.in_shape(i, j));
            assert(rhs.elem(i, j) == a.elem(i, j));
            assert(a.elem(i, j).mul_req(self));
            assert(r@.elem(i, j) == a.elem(i, j).mul_spec(self));
        }
        r
    }
}

impl<'b> vstd::std_specs::ops::MulSpecImpl<MatMut<'b, u32>> for u32 {
    open spec fn obeys_mul_spec() -> bool {
        false
    }

    /// The matrix is well formed and no product with `self` overflows.
    open spec fn mul_req(self, rhs: MatMut<'b, u32>) -> bool {
        &&& rhs.wf()
        &&& forall|i: int, j: int| #[trigger] rhs.in_shape(i, j) ==> u32::MIN <= rhs.elem(i, j) * self <= u32::MAX
    }

    open spec fn mul_spec(self, rhs: MatMut<'b, u32>) -> Mat<u32> {
        arbitrary()
    }
}

impl<'b, 'd> core::ops::Mul<&'b MatMut<'d, u32>> for u32 {
    type Output = Mat<u32>;

    fn mul(self, rhs: &'b MatMut<'d, u32>) -> (r: Mat<u32>)
        ensures
            r.wf(),
            r@.nrows == rhs.nrows,
            r@.ncols == rhs.ncols,
            forall|i: int, j: int| #[trigger] r@.in_shape(i, j) ==> r@.elem(i, j) == rhs.elem(i, j) * self,
    {
        let a = rhs.rb();
        assert forall|i: int, j: int| #[trigger] a.in_shape(i, j) implies a.elem(i, j).mul_req(self) by {
            assert(rhs.in_shape(i, j));
        }
        let r = mul_scalar(a, self);
        assert forall|i: int, j: int| #[trigger] r@.in_shape(i, j) implies r@.elem(i, j) == rhs.elem(i, j) * self by {
            assert(rhs.in_shape(i, j));
            assert(a.in_shape(i, j));
            assert(rhs.elem(i, j) == a.elem(i, j));
            assert(a.elem(i, j).mul_req(self));
            assert(r@.elem(i, j) == a.elem(i, j).mul_spec(self));
        }
        r
    }
}

impl<'b, 'd> vstd::std_specs::ops::MulSpecImpl<&'b MatMut<'d, u32>> for u32 {
    open spec fn obeys_mul_spec() -> bool {
        false
    }

    /// The matrix is well formed and no product with `self` overflows.
    open spec fn mul_req(self, rhs: &'b MatMut<'d, u32>) -> bool {
        &&& rhs.wf()
        &&& forall|i: int, j: int| #[trigger] rhs.in_shape(i, j) ==> u32::MIN <= rhs.elem(i, j) * self <= u32::MAX
    }

    open spec fn mul_spec(self, rhs: &'b MatMut<'d, u32>) -> Mat<u32> {
        arbitrary()
    }
}

impl<'b> core::ops::Mul<MatRef<'b, u64>> for u64 {
    type Output = Mat<u64>;

    fn mul(self, rhs: MatRef<'b, u64>) -> (r: Mat<u64>)
        ensures
            r.wf(),
            r@.nrows == rhs.nrows,
            r@.ncols == rhs.ncols,
            forall|i: int, j: int| #[trigger] r@.in_shape(i, j) ==> r@.elem(i, j) == rhs.elem(i, j) * self,
    {
        let a = rhs;
        assert forall|i: int, j: int| #[trigger] a.in_shape(i, j) implies a.elem(i, j).mul_req(self) by {
            assert(rhs.in_shape(i, j));
        }
        let r = mul_scalar(a, self);
        assert forall|i: int, j: int| #[trigger] r@.in_shape(i, j) implies r@.elem(i, j) == rhs.elem(i, j) * self by {
            assert(rhs.in_shape(i, j));
            assert(a.in_shape(i, j));
            assert(rhs.elem(i, j) == a.elem(i, j));
            assert(a.elem(i, j).mul_req(self));
            assert(r@.elem(i, j) == a.elem(i, j).mul_spec(self));
        }
        r
    }
}

impl<'b> vstd::std_specs::ops::MulSpecImpl<MatRef<'b, u64>> for u64 {
    open spec fn obeys_mul_spec() -> bool {
        false
    }

    /// The matrix is well formed and no product with `self` overflows.
    open spec fn mul_req(self, rhs: MatRef<'b, u64>) -> bool {
        &&& rhs.wf()
        &&& forall|i: int, j: int| #[trigger] rhs.in_shape(i, j) ==> u64::MIN <= rhs.elem(i, j) * self <= u64::MAX
    }

    open spec fn mul_spec(self, rhs: MatRef<'b, u64>) -> Mat<u64> {
        arbitrary()
    }
}

impl<'b> core::ops::Mul<&'b Mat<u64>> for u64 {
    type Output = Mat<u64>;

    fn mul(self, rhs: &'b Mat<u64>) -> (r: Mat<u64>)
        ensures
            r.wf(),
            r@.nrows == rhs@.nrows,
            r@.ncols == rhs@.ncols,
            forall|i: int, j: int| #[trigger] r@.in_shape(i, j) ==> r@.elem(i, j) == rhs@.elem(i, j) * self,
    {
        let a = rhs.as_ref();
        assert forall|i: int, j: int| #[trigger] a.in_shape(i, j) implies a.elem(i, j).mul_req(self) by {
            assert(rhs@.in_shape(i, j));
        }
        let r = mul_scalar(a, self);
        assert forall|i: int, j: int| #[trigger] r@.in_shape(i, j) implies r@.elem(i, j) == rhs@.elem(i, j) * self by {
            assert(rhs@.in_shape(i, j));
            assert(a.in_shape(i, j));
            assert(rhs@.elem(i, j) == a.elem(i, j));
            assert(a.elem(i, j).mul_req(self));
            assert(r@.elem(i, j) == a.elem(i, j).mul_spec(self));
        }
        r
    }
}

impl<'b> vstd::std_specs::ops::MulSpecImpl<&'b Mat<u64>> for u64 {
    open spec fn obeys_mul_spec() -> bool {
        false
    }

    /// The matrix is well formed and no product with `self` overflows.
    open spec fn mul_req(self, rhs: &'b Mat<u64>) -> bool {
        &&& rhs.wf()
        &&& forall|i: int, j: int| #[trigger] rhs@.in_shape(i, j) ==> u64::MIN <= rhs@.elem(i, j) * self <= u64::MAX
    }

    open spec fn mul_spec(self, rhs: &'b Mat<u64>) -> Mat<u64> {
        arbitrary()
    }
}

impl core::ops::Mul<Mat<u64>> for u64 {
    type Output = Mat<u64>;

    fn mul(self, rhs: Mat<u64>) -> (r: Mat<u64>)
        ensures
            r.wf(),
            r@.nrows == rhs@.nrows,
            r@.ncols == rhs@.ncols,
            forall|i: int, j: int| #[trigger] r@.in_shape(i, j) ==> r@.elem(i, j) == rhs@.elem(i, j) * self,
    {
        let a = rhs.as_ref();
        assert forall|i: int, j: int| #[trigger] a.in_shape(i, j) implies a.elem(i, j).mul_req(self) by {
            assert(rhs@.in_shape(i, j));
        }
        let r = mul_scalar(a, self);
        assert forall|i: int, j: int| #[trigger] r@.in_shape(i, j) implies r@.elem(i, j) == rhs@.elem(i, j) * self by {
            assert(rhs@.in_shape(i, j));
            assert(a.in_shape(i, j));
            assert(rhs@.elem(i, j) == a.elem(i, j));
            assert(a.elem(i, j).mul_req(self));
            assert(r@.elem(i, j) == a.elem(i, j).mul_spec(self));
        }
        r
    }
}

impl vstd::std_specs::ops::MulSpecImpl<Mat<u64>> for u64 {
    open spec fn obeys_mul_spec() -> bool {
        false
    }

    /// The matrix is well formed and no product with `self` overflows.
    open spec fn mul_req(self, rhs: Mat<u64>) -> bool {
        &&& rhs.wf()
        &&& forall|i: int, j: int| #[trigger] rhs@.in_shape(i, j) ==> u64::MIN <= rhs@.elem(i, j) * self <= u64::MAX
    }

    open spec fn mul_spec(self, rhs: Mat<u64>) -> Mat<u64> {
        arbitrary()
    }
}

impl<'b> core::ops::Mul<MatMut<'b, u64>> for u64 {
    type Output = Mat<u64>;

    fn mul(self, rhs: MatMut<'b, u64>) -> (r: Mat<u64>)
        ensures
            r.wf(),
            r@.nrows == rhs.nrows,
            r@.ncols == rhs.ncols,
            forall|i: int, j: int| #[trigger] r@.in_shape(i, j) ==> r@.elem(i, j) == rhs.elem(i, j) * self,
    {
        let a = rhs.rb();
        assert forall|i: int, j: int| #[trigger] a.in_shape(i, j) implies a.elem(i, j).mul_req(self) by {
            assert(rhs.in_shape(i, j));
        }
        let r = mul_scalar(a, self);
        assert forall|i: int, j: int| #[trigger] r@.in_shape(i, j) implies r@.elem(i, j) == rhs.elem(i, j) * self by {
            assert(rhs.in_shape(i, j));
            assert(a.in_shape(i, j));
            assert(rhs.elem(i, j) == a.elem(i, j));
            assert(a.elem(i, j).mul_req(self));
            assert(r@.elem(i, j) == a.elem(i, j).mul_spec(self));
        }
        r
    }
}

impl<'b> vstd::std_specs::ops::MulSpecImpl<MatMut<'b, u64>> for u64 {
    open spec fn obeys_mul_spec() -> bool {
        false
    }

    /// The matrix is well formed and no product with `self` overflows.
    open spec fn mul_req(self, rhs: MatMut<'b, u64>) -> bool {
        &&& rhs.wf()
        &&& forall|i: int, j: int| #[trigger] rhs.in_shape(i, j) ==> u64::MIN <= rhs.elem(i, j) * self <= u64::MAX
    }

    open spec fn mul_spec(self, rhs: MatMut<'b, u64>) -> Mat<u64> {
        arbitrary()
    }
}

impl<'b, 'd> core::ops::Mul<&'b MatMut<'d, u64>> for u64 {
    type Output = Mat<u64>;

    fn mul(self, rhs: &'b MatMut<'d, u64>) -> (r: Mat<u64>)
        ensures
            r.wf(),
            r@.nrows == rhs.nrows,
            r@.ncols == rhs.ncols,
            forall|i: int, j: int| #[trigger] r@.in_shape(i, j) ==> r@.elem(i, j) == rhs.elem(i, j) * self,
    {
        let a = rhs.rb();
        assert forall|i: int, j: int| #[trigger] a.in_shape(i, j) implies a.elem(i, j).mul_req(self) by {
            assert(rhs.in_shape(i, j));
        }
        let r = mul_scalar(a, self);
        assert forall|i: int, j: int| #[trigger] r@.in_shape(i, j) implies r@.elem(i, j) == rhs.elem(i, j) * self by {
            assert(rhs.in_shape(i, j));
            assert(a.in_shape(i, j));
            assert(rhs.elem(i, j) == a.elem(i, j));
            assert(a.elem(i, j).mul_req(self));
            assert(r@.elem(i, j) == a.elem(i, j).mul_spec(self));
        }
        r
    }
}

impl<'b, 'd> vstd::std_specs::ops::MulSpecImpl<&'b MatMut<'d, u64>> for u64 {
    open spec fn obeys_mul_spec() -> bool {
        false
    }

    /// The matrix is well formed and no product with `self` overflows.
    open spec fn mul_req(self, rhs: &'b MatMut<'d, u64>) -> bool {
        &&& rhs.wf()
        &&& forall|i: int, j: int| #[trigger] rhs.in_shape(i, j) ==> u64::MIN <= rhs.elem(i, j) * self <= u64::MAX
    }

    open spec fn mul_spec(self, rhs: &'b MatMut<'d, u64>) -> Mat<u64> {
        arbitrary()
    }
}

impl<'b> core::ops::Mul<MatRef<'b, u128>> for u128 {
    type Output = Mat<u128>;

    fn mul(self, rhs: MatRef<'b, u128>) -> (r: Mat<u128>)
        ensures
            r.wf(),
            r@.nrows == rhs.nrows,
            r@.ncols == rhs.ncols,
            forall|i: int, j: int| #[trigger] r@.in_shape(i, j) ==> r@.elem(i, j) == rhs.elem(i, j) * self,
    {
        let a = rhs;
        assert forall|i: int, j: int| #[trigger] a.in_shape(i, j) implies a.elem(i, j).mul_req(self) by {
            assert(rhs.in_shape(i, j));
        }
        let r = mul_scalar(a, self);
        assert forall|i: int, j: int| #[trigger] r@.in_shape(i, j) implies r@.elem(i, j) == rhs.elem(i, j) * self by {
            assert(rhs.in_shape(i, j));
            assert(a.in_shape(i, j));
            assert(rhs.elem(i, j) == a.elem(i, j));
            assert(a.elem(i, j).mul_req(self));
            assert(r@.elem(i, j) == a.elem(i, j).mul_spec(self));
        }
        r
    }
}

impl<'b> vstd::std_specs::ops::MulSpecImpl<MatRef<'b, u128>> for u128 {
    open spec fn obeys_mul_spec() -> bool {
        false
    }

    /// The matrix is well formed and no product with `self` overflows.
    open spec fn mul_req(self, rhs: MatRef<'b, u128>) -> bool {
        &&& rhs.wf()
        &&& forall|i: int, j: int| #[trigger] rhs.in_shape(i, j) ==> u128::MIN <= rhs.elem(i, j) * self <= u128::MAX
    }

    open spec fn mul_spec(self, rhs: MatRef<'b, u128>) -> Mat<u128> {
        arbitrary()
    }
}

impl<'b> core::ops::Mul<&'b Mat<u128>> for u128 {
    type Output = Mat<u128>;

    fn mul(self, rhs: &'b Mat<u128>) -> (r: Mat<u128>)
        ensures
            r.wf(),
            r@.nrows == rhs@.nrows,
            r@.ncols == rhs@.ncols,
            forall|i: int, j: int| #[trigger] r@.in_shape(i, j) ==> r@.elem(i, j) == rhs@.elem(i, j) * self,
    {
        let a = rhs.as_ref();
        assert forall|i: int, j: int| #[trigger] a.in_shape(i, j) implies a.elem(i, j).mul_req(self) by {
            assert(rhs@.in_shape(i, j));
        }
        let r = mul_scalar(a, self);
        assert forall|i: int, j: int| #[trigger] r@.in_shape(i, j) implies r@.elem(i, j) == rhs@.elem(i, j) * self by {
            assert(rhs@.in_shape(i, j));
            assert(a.in_shape(i, j));
            assert(rhs@.elem(i, j) == a.elem(i, j));
            assert(a.elem(i, j).mul_req(self));
            assert(r@.elem(i, j) == a.elem(i, j).mul_spec(self));
        }
        r
    }
}

impl<'b> vstd::std_specs::ops::MulSpecImpl<&'b Mat<u128>> for u128 {
    open spec fn obeys_mul_spec() -> bool {
        false
    }

    /// The matrix is well formed and no product with `self` overflows.
    open spec fn mul_req(self, rhs: &'b Mat<u128>) -> bool {
        &&& rhs.wf()
        &&& forall|i: int, j: int| #[trigger] rhs@.in_shape(i, j) ==> u128::MIN <= rhs@.elem(i, j) * self <= u128::MAX
    }

    open spec fn mul_spec(self, rhs: &'b Mat<u128>) -> Mat<u128> {
        arbitrary()
    }
}

impl core::ops::Mul<Mat<u128>> for u128 {
    type Output = Mat<u128>;

    fn mul(self, rhs: Mat<u128>) -> (r: Mat<u128>)
        ensures
            r.wf(),
            r@.nrows == rhs@.nrows,
            r@.ncols == rhs@.ncols,
            forall|i: int, j: int| #[trigger] r@.in_shape(i, j) ==> r@.elem(i, j) == rhs@.elem(i, j) * self,
    {
        let a = rhs.as_ref();
        assert forall|i: int, j: int| #[trigger] a.in_shape(i, j) implies a.elem(i, j).mul_req(self) by {
            assert(rhs@.in_shape(i, j));
        }
        let r = mul_scalar(a, self);
        assert forall|i: int, j: int| #[trigger] r@.in_shape(i, j) implies r@.elem(i, j) == rhs@.elem(i, j) * self by {
            assert(rhs@.in_shape(i, j));
            assert(a.in_shape(i, j));
            assert(rhs@.elem(i, j) == a.elem(i, j));
            assert(a.elem(i, j).mul_req(self));
            assert(r@.elem(i, j) == a.elem(i, j).mul_spec(self));
        }
        r
    }
}

impl vstd::std_specs::ops::MulSpecImpl<Mat<u128>> for u128 {
    open spec fn obeys_mul_spec() -> bool {
        false
    }

    /// The matrix is well formed and no product with `self` overflows.
    open spec fn mul_req(self, rhs: Mat<u128>) -> bool {
        &&& rhs.wf()
        &&& forall|i: int, j: int| #[trigger] rhs@.in_shape(i, j) ==> u128::MIN <= rhs@.elem(i, j) * self <= u128::MAX
    }

    open spec fn mul_spec(self, rhs: Mat<u128>) -> Mat<u128> {
        arbitrary()
    }
}

impl<'b> core::ops::Mul<MatMut<'b, u128>> for u128 {
    type Output = Mat<u128>;

    fn mul(self, rhs: MatMut<'b, u128>) -> (r: Mat<u128>)
        ensures
            r.wf(),
            r@.nrows == rhs.nrows,
            r@.ncols == rhs.ncols,
            forall|i: int, j: int| #[trigger] r@.in_shape(i, j) ==> r@.elem(i, j) == rhs.elem(i, j) * self,
    {
        let a = rhs.rb();
        assert forall|i: int, j: int| #[trigger] a.in_shape(i, j) implies a.elem(i, j).mul_req(self) by {
            assert(rhs.in_shape(i, j));
        }
        let r = mul_scalar(a, self);
        assert forall|i: int, j: int| #[trigger] r@.in_shape(i, j) implies r@.elem(i, j) == rhs.elem(i, j) * self by {
            assert(rhs.in_shape(i, j));
            assert(a.in_shape(i, j));
            assert(rhs.elem(i, j) == a.elem(i, j));
            assert(a.elem(i, j).mul_req(self));
            assert(r@.elem(i, j) == a.elem(i, j).mul_spec(self));
        }
        r
    }
}

impl<'b> vstd::std_specs::ops::MulSpecImpl<MatMut<'b, u128>> for u128 {
    open spec fn obeys_mul_spec() -> bool {
        false
    }

    /// The matrix is well formed and no product with `self` overflows.
    open spec fn mul_req(self, rhs: MatMut<'b, u128>) -> bool {
        &&& rhs.wf()
        &&& forall|i: int, j: int| #[trigger] rhs.in_shape(i, j) ==> u128::MIN <= rhs.elem(i, j) * self <= u128::MAX
    }

    open spec fn mul_spec(self, rhs: MatMut<'b, u128>) -> Mat<u128> {
        arbitrary()
    }
}

impl<'b, 'd> core::ops::Mul<&'b MatMut<'d, u128>> for u128 {
    type Output = Mat<u128>;

    fn mul(self, rhs: &'b MatMut<'d, u128>) -> (r: Mat<u128>)
        ensures
            r.wf(),
            r@.nrows == rhs.nrows,
            r@.ncols == rhs.ncols,
            forall|i: int, j: int| #[trigger] r@.in_shape(i, j) ==> r@.elem(i, j) == rhs.elem(i, j) * self,
    {
        let a = rhs.rb();
        assert forall|i: int, j: int| #[trigger] a.in_shape(i, j) implies a.elem(i, j).mul_req(self) by {
            assert(rhs.in_shape(i, j));
        }
        let r = mul_scalar(a, self);
        assert forall|i: int, j: int| #[trigger] r@.in_shape(i, j) implies r@.elem(i, j) == rhs.elem(i, j) * self by {
            assert(rhs.in_shape(i, j));
            assert(a.in_shape(i, j));
            assert(rhs.elem(i, j) == a.elem(i, j));
            assert(a.elem(i, j).mul_req(self));
            assert(r@.elem(i, j) == a.elem(i, j).mul_spec(self));
        }
        r
    }
}

impl<'b, 'd> vstd::std_specs::ops::MulSpecImpl<&'b MatMut<'d, u128>> for u128 {
    open spec fn obeys_mul_spec() -> bool {
        false
    }

    /// The matrix is well formed and no product with `self` overflows.
    open spec fn mul_req(self, rhs: &'b MatMut<'d, u128>) -> bool {
        &&& rhs.wf()
        &&& forall|i: int, j: int| #[trigger] rhs.in_shape(i, j) ==> u128::MIN <= rhs.elem(i, j) * self <= u128::MAX
    }

    open spec fn mul_spec(self, rhs: &'b MatMut<'d, u128>) -> Mat<u128> {
        arbitrary()
    }
}

impl<'b> core::ops::Mul<MatRef<'b, usize>> for usize {
    type Output = Mat<usize>;

    fn mul(self, rhs: MatRef<'b, usize>) -> (r: Mat<usize>)
        ensures
            r.wf(),
            r@.nrows == rhs.nrows,
            r@.ncols == rhs.ncols,
            forall|i: int, j: int| #[trigger] r@.in_shape(i, j) ==> r@.elem(i, j) == rhs.elem(i, j) * self,
    {
        let a = rhs;
        assert forall|i: int, j: int| #[trigger] a.in_shape(i, j) implies a.elem(i, j).mul_req(self) by {
            assert(rhs.in_shape(i, j));
        }
        let r = mul_scalar(a, self);
        assert forall|i: int, j: int| #[trigger] r@.in_shape(i, j) implies r@.elem(i, j) == rhs.elem(i, j) * self by {
            assert(rhs.in_shape(i, j));
            assert(a.in_shape(i, j));
            assert(rhs.elem(i, j) == a.elem(i, j));
            assert(a.elem(i, j).mul_req(self));
            assert(r@.elem(i, j) == a.elem(i, j).mul_spec(self));
        }
        r
    }
}

impl<'b> vstd::std_specs::ops::MulSpecImpl<MatRef<'b, usize>> for usize {
    open spec fn obeys_mul_spec() -> bool {
        false
    }

    /// The matrix is well formed and no product with `self` overflows.
    open spec fn mul_req(self, rhs: MatRef<'b, usize>) -> bool {
        &&& rhs.wf()
        &&& forall|i: int, j: int| #[trigger] rhs.in_shape(i, j) ==> usize::MIN <= rhs.elem(i, j) * self <= usize::MAX
    }

    open spec fn mul_spec(self, rhs: MatRef<'b, usize>) -> Mat<usize> {
        arbitrary()
    }
}

impl<'b> core::ops::Mul<&'b Mat<usize>> for usize {
    type Output = Mat<usize>;

    fn mul(self, rhs: &'b Mat<usize>) -> (r: Mat<usize>)
        ensures
            r.wf(),
            r@.nrows == rhs@.nrows,
            r@.ncols == rhs@.ncols,
            forall|i: int, j: int| #[trigger] r@.in_shape(i, j) ==> r@.elem(i, j) == rhs@.elem(i, j) * self,
    {
        let a = rhs.as_ref();
        assert forall|i: int, j: int| #[trigger] a.in_shape(i, j) implies a.elem(i, j).mul_req(self) by {
            assert(rhs@.in_shape(i, j));
        }
        let r = mul_scalar(a, self);
        assert forall|i: int, j: int| #[trigger] r@.in_shape(i, j) implies r@.elem(i, j) == rhs@.elem(i, j) * self by {
            assert(rhs@.in_shape(i, j));
            assert(a.in_shape(i, j));
            assert(rhs@.elem(i, j) == a.elem(i, j));
            assert(a.elem(i, j).mul_req(self));
            assert(r@.elem(i, j) == a.elem(i, j).mul_spec(self));
        }
        r
    }
}

impl<'b> vstd::std_specs::ops::MulSpecImpl<&'b Mat<usize>> for usize {
    open spec fn obeys_mul_spec() -> bool {
        false
    }

    /// The matrix is well formed and no product with `self` overflows.
    open spec fn mul_req(self, rhs: &'b Mat<usize>) -> bool {
        &&& rhs.wf()
        &&& forall|i: int, j: int| #[trigger] rhs@.in_shape(i, j) ==> usize::MIN <= rhs@.elem(i, j) * self <= usize::MAX
    }

    open spec fn mul_spec(self, rhs: &'b Mat<usize>) -> Mat<usize> {
        arbitrary()
    }
}

impl core::ops::Mul<Mat<usize>> for usize {
    type Output = Mat<usize>;

    fn mul(self, rhs: Mat<usize>) -> (r: Mat<usize>)
        ensures
            r.wf(),
            r@.nrows == rhs@.nrows,
            r@.ncols == rhs@.ncols,
            forall|i: int, j: int| #[trigger] r@.in_shape(i, j) ==> r@.elem(i, j) == rhs@.elem(i, j) * self,
    {
        let a = rhs.as_ref();
        assert forall|i: int, j: int| #[trigger] a.in_shape(i, j) implies a.elem(i, j).mul_req(self) by {
            assert(rhs@.in_shape(i, j));
        }
        let r = mul_scalar(a, self);
        assert forall|i: int, j: int| #[trigger] r@.in_shape(i, j) implies r@.elem(i, j) == rhs@.elem(i, j) * self by {
            assert(rhs@.in_shape(i, j));
            assert(a.in_shape(i, j));
            assert(rhs@.elem(i, j) == a.elem(i, j));
            assert(a.elem(i, j).mul_req(self));
            assert(r@.elem(i, j) == a.elem(i, j).mul_spec(self));
        }
        r
    }
}

impl vstd::std_specs::ops::MulSpecImpl<Mat<usize>> for usize {
    open spec fn obeys_mul_spec() -> bool {
        false
    }

    /// The matrix is well formed and no product with `self` overflows.
    open spec fn mul_req(self, rhs: Mat<usize>) -> bool {
        &&& rhs.wf()
        &&& forall|i: int, j: int| #[trigger] rhs@.in_shape(i, j) ==> usize::MIN <= rhs@.elem(i, j) * self <= usize::MAX
    }

    open spec fn mul_spec(self, rhs: Mat<usize>) -> Mat<usize> {
        arbitrary()
    }
}

impl<'b> core::ops::Mul<MatMut<'b, usize>> for usize {
    type Output = Mat<usize>;

    fn mul(self, rhs: MatMut<'b, usize>) -> (r: Mat<usize>)
        ensures
            r.wf(),
            r@.nrows == rhs.nrows,
            r@.ncols == rhs.ncols,
            forall|i: int, j: int| #[trigger] r@.in_shape(i, j) ==> r@.elem(i, j) == rhs.elem(i, j) * self,
    {
        let a = rhs.rb();
        assert forall|i: int, j: int| #[trigger] a.in_shape(i, j) implies a.elem(i, j).mul_req(self) by {
            assert(rhs.in_shape(i, j));
        }
        let r = mul_scalar(a, self);
        assert forall|i: int, j: int| #[trigger] r@.in_shape(i, j) implies r@.elem(i, j) == rhs.elem(i, j) * self by {
            assert(rhs.in_shape(i, j));
            assert(a.in_shape(i, j));
            assert(rhs.elem(i, j) == a.elem(i, j));
            assert(a.elem(i, j).mul_req(self));
            assert(r@.elem(i, j) == a.elem(i, j).mul_spec(self));
        }
        r
    }
}

impl<'b> vstd::std_specs::ops::MulSpecImpl<MatMut<'b, usize>> for usize {
    open spec fn obeys_mul_spec() -> bool {
        false
    }

    /// The matrix is well formed and no product with `self` overflows.
    open spec fn mul_req(self, rhs: MatMut<'b, usize>) -> bool {
        &&& rhs.wf()
        &&& forall|i: int, j: int| #[trigger] rhs.in_shape(i, j) ==> usize::MIN <= rhs.elem(i, j) * self <= usize::MAX
    }

    open spec fn mul_spec(self, rhs: MatMut<'b, usize>) -> Mat<usize> {
        arbitrary()
    }
}

impl<'b, 'd> core::ops::Mul<&'b MatMut<'d, usize>> for usize {
    type Output = Mat<usize>;

    fn mul(self, rhs: &'b MatMut<'d, usize>) -> (r: Mat<usize>)
        ensures
            r.wf(),
            r@.nrows == rhs.nrows,
            r@.ncols == rhs.ncols,
            forall|i: int, j: int| #[trigger] r@.in_shape(i, j) ==> r@.elem(i, j) == rhs.elem(i, j) * self,
    {
        let a = rhs.rb();
        assert forall|i: int, j: int| #[trigger] a.in_shape(i, j) implies a.elem(i, j).mul_req(self) by {
            assert(rhs.in_shape(i, j));
        }
        let r = mul_scalar(a, self);
        assert forall|i: int, j: int| #[trigger] r@.in_shape(i, j) implies r@.elem(i, j) == rhs.elem(i, j) * self by {
            assert(rhs.in_shape(i, j));
            assert(a.in_shape(i, j));
            assert(rhs.elem(i, j) == a.elem(i, j));
            assert(a.elem(i, j).mul_req(self));
            assert(r@.elem(i, j) == a.elem(i, j).mul_spec(self));
        }
        r
    }
}

impl<'b, 'd> vstd::std_specs::ops::MulSpecImpl<&'b MatMut<'d, usize>> for usize {
    open spec fn obeys_mul_spec() -> bool {
        false
    }

    /// The matrix is well formed and no product with `self` overflows.
    open spec fn mul_req(self, rhs: &'b MatMut<'d, usize>) -> bool {
        &&& rhs.wf()
        &&& forall|i: int, j: int| #[trigger] rhs.in_shape(i, j) ==> usize::MIN <= rhs.elem(i, j) * self <= usize::MAX
    }

    open spec fn mul_spec(self, rhs: &'b MatMut<'d, usize>) -> Mat<usize> {
        arbitrary()
    }
}

impl<'a, T: Copy + core::ops::Neg<Output = T>> core::ops::Neg for MatRef<'a, T> {
    type Output = Mat<T>;

    fn neg(self) -> (r: Mat<T>)
        ensures
            r.wf(),
            r@.nrows == self.nrows,
            r@.ncols == self.ncols,
            T::obeys_neg_spec() ==> forall|i: int, j: int| #[trigger] r@.in_shape(i, j) ==> r@.elem(i, j) == self.elem(i, j).neg_spec(),
    {
        let a = self;
        assert forall|i: int, j: int| #[trigger] a.in_shape(i, j) implies a.elem(i, j).neg_req() by {
            assert(self.in_shape(i, j));
        }
        let r = neg_view(a);
        assert forall|i: int, j: int| #[trigger] r@.in_shape(i, j) implies self.elem(i, j) == a.elem(i, j) by {
            assert(self.in_shape(i, j));
        }
        r
    }
}

impl<'a, T: Copy + core::ops::Neg<Output = T>> vstd::std_specs::ops::NegSpecImpl for MatRef<'a, T> {
    open spec fn obeys_neg_spec() -> bool {
        false
    }

    /// The matrix is well formed and no negation overflows.
    open spec fn neg_req(self) -> bool {
        &&& self.wf()
        &&& forall|i: int, j: int| #[trigger] self.in_shape(i, j) ==> self.elem(i, j).neg_req()
    }

    open spec fn neg_spec(self) -> Mat<T> {
        arbitrary()
    }
}

impl<'a, T: Copy + core::ops::Neg<Output = T>> core::ops::Neg for &'a Mat<T> {
    type Output = Mat<T>;

    fn neg(self) -> (r: Mat<T>)
        ensures
            r.wf(),
            r@.nrows == self@.nrows,
            r@.ncols == self@.ncols,
            T::obeys_neg_spec() ==> forall|i: int, j: int| #[trigger] r@.in_shape(i, j) ==> r@.elem(i, j) == self@.elem(i, j).neg_spec(),
    {
        let a = self.as_ref();
        assert forall|i: int, j: int| #[trigger] a.in_shape(i, j) implies a.elem(i, j).neg_req() by {
            assert(self@.in_shape(i, j));
        }
        let r = neg_view(a);
        assert forall|i: int, j: int| #[trigger] r@.in_shape(i, j) implies self@.elem(i, j) == a.elem(i, j) by {
            assert(self@.in_shape(i, j));
        }
        r
    }
}

impl<'a, T: Copy + core::ops::Neg<Output = T>> vstd::std_specs::ops::NegSpecImpl for &'a Mat<T> {
    open spec fn obeys_neg_spec() -> bool {
        false
    }

    /// The matrix is well formed and no negation overflows.
    open spec fn neg_req(self) -> bool {
        &&& self.wf()
        &&& forall|i: int, j: int| #[trigger] self@.in_shape(i, j) ==> self@.elem(i, j).neg_req()
    }

    open spec fn neg_spec(self) -> Mat<T> {
        arbitrary()
    }
}

impl<T: Copy + core::ops::Neg<Output = T>> core::ops::Neg for Mat<T> {
    type Output = Mat<T>;

    fn neg(self) -> (r: Mat<T>)
        ensures
            r.wf(),
            r@.nrows == self@.nrows,
            r@.ncols == self@.ncols,
            T::obeys_neg_spec() ==> forall|i: int, j: int| #[trigger] r@.in_shape(i, j) ==> r@.elem(i, j) == self@.elem(i, j).neg_spec(),
    {
        let a = self.as_ref();
        assert forall|i: int, j: int| #[trigger] a.in_shape(i, j) implies a.elem(i, j).neg_req() by {
            assert(self@.in_shape(i, j));
        }
        let r = neg_view(a);
        assert forall|i: int, j: int| #[trigger] r@.in_shape(i, j) implies self@.elem(i, j) == a.elem(i, j) by {
            assert(self@.in_shape(i, j));
        }
        r
    }
}

impl<T: Copy + core::ops::Neg<Output = T>> vstd::std_specs::ops::NegSpecImpl for Mat<T> {
    open spec fn obeys_neg_spec() -> bool {
        false
    }

    /// The matrix is well formed and no negation overflows.
    open spec fn neg_req(self) -> bool {
        &&& self.wf()
        &&& forall|i: int, j: int| #[trigger] self@.in_shape(i, j) ==> self@.elem(i, j).neg_req()
    }

    open spec fn neg_spec(self) -> Mat<T> {
        arbitrary()
    }
}

impl<'a, T: Copy + core::ops::Neg<Output = T>> core::ops::Neg for MatMut<'a, T> {
    type Output = Mat<T>;

    fn neg(self) -> (r: Mat<T>)
        ensures
            r.wf(),
            r@.nrows == self.nrows,
            r@.ncols == self.ncols,
            T::obeys_neg_spec() ==> forall|i: int, j: int| #[trigger] r@.in_shape(i, j) ==> r@.elem(i, j) == self.elem(i, j).neg_spec(),
    {
        let a = self.rb();
        assert forall|i: int, j: int| #[trigger] a.in_shape(i, j) implies a.elem(i, j).neg_req() by {
            assert(self.in_shape(i, j));
        }
        let r = neg_view(a);
        assert forall|i: int, j: int| #[trigger] r@.in_shape(i, j) implies self.elem(i, j) == a.elem(i, j) by {
            assert(self.in_shape(i, j));
        }
        r
    }
}

impl<'a, T: Copy + core::ops::Neg<Output = T>> vstd::std_specs::ops::NegSpecImpl for MatMut<'a, T> {
    open spec fn obeys_neg_spec() -> bool {
        false
    }

    /// The matrix is well formed and no negation overflows.
    open spec fn neg_req(self) -> bool {
        &&& self.wf()
        &&& forall|i: int, j: int| #[trigger] self.in_shape(i, j) ==> self.elem(i, j).neg_req()
    }

    open spec fn neg_spec(self) -> Mat<T> {
        arbitrary()
    }
}

impl<'a, 'c, T: Copy + core::ops::Neg<Output = T>> core::ops::Neg for &'a MatMut<'c, T> {
    type Output = Mat<T>;

    fn neg(self) -> (r: Mat<T>)
        ensures
            r.wf(),
            r@.nrows == self.nrows,
            r@.ncols == self.ncols,
            T::obeys_neg_spec() ==> forall|i: int, j: int| #[trigger] r@.in_shape(i, j) ==> r@.elem(i, j) == self.elem(i, j).neg_spec(),
    {
        let a = self.rb();
        assert forall|i: int, j: int| #[trigger] a.in_shape(i, j) implies a.elem(i, j).neg_req() by {
            assert(self.in_shape(i, j));
        }
        let r = neg_view(a);
        assert forall|i: int, j: int| #[trigger] r@.in_shape(i, j) implies self.elem(i, j) == a.elem(i, j) by {
            assert(self.in_shape(i, j));
        }
        r
    }
}

impl<'a, 'c, T: Copy + core::ops::Neg<Output = T>> vstd::std_specs::ops::NegSpecImpl for &'a MatMut<'c, T> {
    open spec fn obeys_neg_spec() -> bool {
        false
    }

    /// The matrix is well formed and no negation overflows.
    open spec fn neg_req(self) -> bool {
        &&& self.wf()
        &&& forall|i: int, j: int| #[trigger] self.in_shape(i, j) ==> self.elem(i, j).neg_req()
    }

    open spec fn neg_spec(self) -> Mat<T> {
        arbitrary()
    }
}

} // verus!
