//! Laws that relate the operations of the library.
use vstd::prelude::*;
use vstd::std_specs::cmp::PartialEqSpec;

use crate::mat::Grid;
use crate::mat_mut::MatMut;
use crate::mat_ref::MatRef;
use crate::scalar::Scalar;

verus! {

/// After `value` is written at `(i, j)` of a writable view, every view over
/// the written buffer reads `value` at each position that addresses the
/// same slot; `MatMut::set` leaves the buffer in exactly that state, and
/// `MatMut::rb` reads it.
pub proof fn law_write_then_read<'a, 'b, T>(
    w: &MatMut<'a, T>,
    i: int,
    j: int,
    value: T,
    reader: MatRef<'b, T>,
    a: int,
    b: int,
)
    requires
        w.wf(),
        w.in_shape(i, j),
        reader.wf(),
        reader.in_shape(a, b),
        reader.data@ == w.data@.update(w.addr(i, j), value),
        reader.addr(a, b) == w.addr(i, j),
    ensures
        reader.elem(a, b) == value,
{
}

/// Transposing twice gives back the same view, for every shape.
pub proof fn law_transpose_twice<'a, T>(v: MatRef<'a, T>)
    ensures
        v.transposed().transposed() == v,
{
}

/// Reversing the rows twice gives back the same view; so does reversing the
/// columns twice. An empty axis is left alone both times.
pub proof fn law_reverse_twice<'a, T>(v: MatRef<'a, T>)
    requires
        v.wf(),
    ensures
        v.rows_reversed().rows_reversed() == v,
        v.cols_reversed().cols_reversed() == v,
{
    if v.nrows > 0 && v.ncols > 0 {
        let n = v.nrows as int;
        let rs = v.row_stride as int;
        assert(0 <= v.addr(n - 1, 0) < v.data@.len());
        assert((n - 1) * (-rs) == -((n - 1) * rs)) by (nonlinear_arith);
        let m = v.ncols as int;
        let cs = v.col_stride as int;
        assert(0 <= v.addr(0, m - 1) < v.data@.len());
        assert((m - 1) * (-cs) == -((m - 1) * cs)) by (nonlinear_arith);
    }
}

/// The identity matrix is recognised as the identity, as diagonal, as both
/// upper and lower triangular, and as symmetric.
pub proof fn law_identity_predicates<T: Scalar>(g: Grid<T>)
    requires
        g.nrows == g.ncols,
        forall|i: int, j: int| #[trigger] g.in_shape(i, j) ==> g.elem(i, j) == (if i == j {
            T::one_spec()
        } else {
            T::zero_spec()
        }),
    ensures
        g.identity_like(),
        g.diagonal_only(),
        g.upper_triangular(),
        g.lower_triangular(),
        T::obeys_eq_spec(),
        g.symmetric(),
{
    T::lemma_eq_is_equality();
    assert forall|i: int, j: int| 0 <= i < j < g.ncols implies #[trigger] g.elem(i, j).eq_spec(&g.elem(j, i)) by {
        assert(g.in_shape(i, j) && g.in_shape(j, i));
    }
}

/// A matrix built from diagonal values is diagonal and, being square,
/// symmetric.
pub proof fn law_diag_predicates<T: Scalar>(values: Seq<T>, g: Grid<T>)
    requires
        g.nrows == values.len(),
        g.ncols == values.len(),
        forall|i: int, j: int| #[trigger] g.in_shape(i, j) ==> g.elem(i, j) == (if i == j {
            values[i]
        } else {
            T::zero_spec()
        }),
    ensures
        g.diagonal_only(),
        T::obeys_eq_spec(),
        g.symmetric(),
{
    T::lemma_eq_is_equality();
    assert forall|i: int, j: int| 0 <= i < j < g.ncols implies #[trigger] g.elem(i, j).eq_spec(&g.elem(j, i)) by {
        assert(g.in_shape(i, j) && g.in_shape(j, i));
    }
}

} // verus!
