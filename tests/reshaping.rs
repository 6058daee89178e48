use aris::{Mat, MatMut, MatRef};

#[test]
fn full_creates_filled_matrix() {
    let m = Mat::full(2, 3, 42);
    assert_eq!(m.shape(), (2, 3));
    for j in 0..3 {
        for i in 0..2 {
            assert_eq!(m[(i, j)], 42);
        }
    }
}

#[test]
fn mat_fill_macro() {
    let m = Mat::full(3, 2, 7);
    assert_eq!(m.shape(), (3, 2));
    for j in 0..2 {
        for i in 0..3 {
            assert_eq!(m[(i, j)], 7);
        }
    }
}

#[test]
fn from_blocks_vertical_stack() {
    let a = Mat::from_rows(&[&[1, 2], &[3, 4]]);
    let b = Mat::from_rows(&[&[5, 6]]);
    let m = Mat::from_blocks(&[&[a.as_ref()], &[b.as_ref()]]);
    let expected = Mat::from_rows(&[&[1, 2], &[3, 4], &[5, 6]]);
    assert_eq!(m, expected);
}

#[test]
fn tril_k0() {
    let m = Mat::from_rows(&[&[1, 2, 3], &[4, 5, 6], &[7, 8, 9]]);
    let t = m.tril(0);
    let expected = Mat::from_rows(&[&[1, 0, 0], &[4, 5, 0], &[7, 8, 9]]);
    assert_eq!(t, expected);
}

#[test]
fn tril_k1() {
    let m = Mat::from_rows(&[&[1, 2, 3], &[4, 5, 6], &[7, 8, 9]]);
    let t = m.tril(1);
    let expected = Mat::from_rows(&[&[1, 2, 0], &[4, 5, 6], &[7, 8, 9]]);
    assert_eq!(t, expected);
}

#[test]
fn tril_k_neg1() {
    let m = Mat::from_rows(&[&[1, 2, 3], &[4, 5, 6], &[7, 8, 9]]);
    let t = m.tril(-1);
    let expected = Mat::from_rows(&[&[0, 0, 0], &[4, 0, 0], &[7, 8, 0]]);
    assert_eq!(t, expected);
}

#[test]
fn triu_k0() {
    let m = Mat::from_rows(&[&[1, 2, 3], &[4, 5, 6], &[7, 8, 9]]);
    let t = m.triu(0);
    let expected = Mat::from_rows(&[&[1, 2, 3], &[0, 5, 6], &[0, 0, 9]]);
    assert_eq!(t, expected);
}

#[test]
fn triu_k1() {
    let m = Mat::from_rows(&[&[1, 2, 3], &[4, 5, 6], &[7, 8, 9]]);
    let t = m.triu(1);
    let expected = Mat::from_rows(&[&[0, 2, 3], &[0, 0, 6], &[0, 0, 0]]);
    assert_eq!(t, expected);
}

#[test]
fn triu_k_neg1() {
    let m = Mat::from_rows(&[&[1, 2, 3], &[4, 5, 6], &[7, 8, 9]]);
    let t = m.triu(-1);
    let expected = Mat::from_rows(&[&[1, 2, 3], &[4, 5, 6], &[0, 8, 9]]);
    assert_eq!(t, expected);
}

#[test]
fn tril_non_square() {
    let m = Mat::from_rows(&[&[1, 2, 3], &[4, 5, 6]]);
    let t = m.tril(0);
    let expected = Mat::from_rows(&[&[1, 0, 0], &[4, 5, 0]]);
    assert_eq!(t, expected);
}

#[test]
fn triu_non_square() {
    let m = Mat::from_rows(&[&[1, 2], &[3, 4], &[5, 6]]);
    let t = m.triu(0);
    let expected = Mat::from_rows(&[&[1, 2], &[0, 4], &[0, 0]]);
    assert_eq!(t, expected);
}

#[test]
fn take_rows_subset() {
    let m = Mat::from_rows(&[&[1, 2], &[3, 4], &[5, 6], &[7, 8]]);
    let t = m.take_rows(&[0, 2, 3]);
    let expected = Mat::from_rows(&[&[1, 2], &[5, 6], &[7, 8]]);
    assert_eq!(t, expected);
}

#[test]
fn take_rows_reorder() {
    let m = Mat::from_rows(&[&[1, 2], &[3, 4], &[5, 6]]);
    let t = m.take_rows(&[2, 0, 1]);
    let expected = Mat::from_rows(&[&[5, 6], &[1, 2], &[3, 4]]);
    assert_eq!(t, expected);
}

#[test]
fn take_rows_duplicate() {
    let m = Mat::from_rows(&[&[1, 2], &[3, 4]]);
    let t = m.take_rows(&[0, 0, 1, 1]);
    let expected = Mat::from_rows(&[&[1, 2], &[1, 2], &[3, 4], &[3, 4]]);
    assert_eq!(t, expected);
}

#[test]
fn take_rows_empty() {
    let m = Mat::from_rows(&[&[1, 2], &[3, 4]]);
    let t = m.take_rows(&[]);
    assert_eq!(t.shape(), (0, 2));
}

#[test]
fn take_cols_subset() {
    let m = Mat::from_rows(&[&[1, 2, 3, 4], &[5, 6, 7, 8]]);
    let t = m.take_cols(&[1, 3]);
    let expected = Mat::from_rows(&[&[2, 4], &[6, 8]]);
    assert_eq!(t, expected);
}

#[test]
fn take_cols_reorder() {
    let m = Mat::from_rows(&[&[1, 2, 3], &[4, 5, 6]]);
    let t = m.take_cols(&[2, 0, 1]);
    let expected = Mat::from_rows(&[&[3, 1, 2], &[6, 4, 5]]);
    assert_eq!(t, expected);
}

#[test]
fn take_cols_empty() {
    let m = Mat::from_rows(&[&[1, 2], &[3, 4]]);
    let t = m.take_cols(&[]);
    assert_eq!(t.shape(), (2, 0));
}

#[test]
fn copy_from_full_matrix() {
    let a = Mat::from_rows(&[&[1, 2], &[3, 4]]);
    let mut b = Mat::zeros(2, 2);
    b.copy_from(a.as_ref());
    assert_eq!(b, a);
}

#[test]
fn copy_from_to_submatrix() {
    let src = Mat::from_rows(&[&[10, 20], &[30, 40]]);
    let mut dst = Mat::zeros(4, 4);
    dst.submatrix_mut(1, 1, 2, 2).copy_from(src.as_ref());
    assert_eq!(dst[(0, 0)], 0);
    assert_eq!(dst[(1, 1)], 10);
    assert_eq!(dst[(1, 2)], 20);
    assert_eq!(dst[(2, 1)], 30);
    assert_eq!(dst[(2, 2)], 40);
    assert_eq!(dst[(3, 3)], 0);
}

#[test]
fn fill_entire_matrix() {
    let mut m = Mat::zeros(2, 3);
    m.fill(7);
    for i in 0..2 {
        for j in 0..3 {
            assert_eq!(m[(i, j)], 7);
        }
    }
}

#[test]
fn fill_submatrix() {
    let mut m = Mat::zeros(3, 3);
    m.submatrix_mut(0, 0, 2, 2).fill(5);
    assert_eq!(m[(0, 0)], 5);
    assert_eq!(m[(0, 1)], 5);
    assert_eq!(m[(1, 0)], 5);
    assert_eq!(m[(1, 1)], 5);
    assert_eq!(m[(2, 2)], 0);
    assert_eq!(m[(0, 2)], 0);
}

#[test]
fn fill_with_fn_whole_matrix() {
    let mut m = Mat::zeros(2, 3);
    m.fill_with_fn(|i, j| (i * 10 + j) as i32);
    assert_eq!(m[(0, 0)], 0);
    assert_eq!(m[(0, 2)], 2);
    assert_eq!(m[(1, 0)], 10);
    assert_eq!(m[(1, 2)], 12);
}

#[test]
fn swap_rows_basic() {
    let mut m = Mat::from_rows(&[&[1, 2], &[3, 4], &[5, 6]]);
    m.swap_rows(0, 2);
    assert_eq!(m[(0, 0)], 5);
    assert_eq!(m[(0, 1)], 6);
    assert_eq!(m[(2, 0)], 1);
    assert_eq!(m[(2, 1)], 2);
    assert_eq!(m[(1, 0)], 3);
}

#[test]
fn swap_rows_same() {
    let mut m = Mat::from_rows(&[&[1, 2], &[3, 4]]);
    m.swap_rows(0, 0);
    assert_eq!(m[(0, 0)], 1);
    assert_eq!(m[(1, 0)], 3);
}

#[test]
fn swap_cols_basic() {
    let mut m = Mat::from_rows(&[&[1, 2, 3], &[4, 5, 6]]);
    m.swap_cols(0, 2);
    assert_eq!(m[(0, 0)], 3);
    assert_eq!(m[(1, 0)], 6);
    assert_eq!(m[(0, 2)], 1);
    assert_eq!(m[(1, 2)], 4);
    assert_eq!(m[(0, 1)], 2);
}

#[test]
fn swap_cols_same() {
    let mut m = Mat::from_rows(&[&[1, 2], &[3, 4]]);
    m.swap_cols(0, 0);
    assert_eq!(m[(0, 0)], 1);
    assert_eq!(m[(0, 1)], 2);
}

#[test]
fn mat_mut_tril() {
    let mut m = Mat::from_rows(&[&[1, 2, 3], &[4, 5, 6], &[7, 8, 9]]);
    let v = m.as_mut();
    let t = v.tril(0);
    let expected = Mat::from_rows(&[&[1, 0, 0], &[4, 5, 0], &[7, 8, 9]]);
    assert_eq!(t, expected);
}

#[test]
fn mat_mut_take_rows() {
    let mut m = Mat::from_rows(&[&[1, 2], &[3, 4], &[5, 6]]);
    let v = m.as_mut();
    let t = v.take_rows(&[2, 0]);
    let expected = Mat::from_rows(&[&[5, 6], &[1, 2]]);
    assert_eq!(t, expected);
}

#[test]
fn reshape_2x3_to_3x2() {
    let m = Mat::from_rows(&[&[1, 2, 3], &[4, 5, 6]]);
    let r = m.reshape(3, 2);
    assert_eq!(r.shape(), (3, 2));
    assert_eq!(r[(0, 0)], 1);
    assert_eq!(r[(1, 0)], 4);
    assert_eq!(r[(2, 0)], 2);
    assert_eq!(r[(0, 1)], 5);
    assert_eq!(r[(1, 1)], 3);
    assert_eq!(r[(2, 1)], 6);
}

#[test]
fn reshape_2x3_to_6x1() {
    let m = Mat::from_rows(&[&[1, 2, 3], &[4, 5, 6]]);
    let r = m.reshape(6, 1);
    assert_eq!(r.shape(), (6, 1));
    assert_eq!(r[(0, 0)], 1);
    assert_eq!(r[(1, 0)], 4);
    assert_eq!(r[(2, 0)], 2);
    assert_eq!(r[(3, 0)], 5);
    assert_eq!(r[(4, 0)], 3);
    assert_eq!(r[(5, 0)], 6);
}

#[test]
fn reshape_2x3_to_1x6() {
    let m = Mat::from_rows(&[&[1, 2, 3], &[4, 5, 6]]);
    let r = m.reshape(1, 6);
    assert_eq!(r.shape(), (1, 6));
    assert_eq!(r[(0, 0)], 1);
    assert_eq!(r[(0, 1)], 4);
    assert_eq!(r[(0, 2)], 2);
    assert_eq!(r[(0, 3)], 5);
    assert_eq!(r[(0, 4)], 3);
    assert_eq!(r[(0, 5)], 6);
}

#[test]
fn reshape_same_shape() {
    let m = Mat::from_rows(&[&[1, 2], &[3, 4]]);
    let r = m.reshape(2, 2);
    assert_eq!(r, m);
}

#[test]
fn flatten_2x3() {
    let m = Mat::from_rows(&[&[1, 2, 3], &[4, 5, 6]]);
    let f = m.flatten();
    assert_eq!(f.shape(), (6, 1));
    assert_eq!(f[(0, 0)], 1);
    assert_eq!(f[(1, 0)], 4);
    assert_eq!(f[(2, 0)], 2);
    assert_eq!(f[(3, 0)], 5);
}

#[test]
fn flatten_row_2x3() {
    let m = Mat::from_rows(&[&[1, 2, 3], &[4, 5, 6]]);
    let f = m.flatten_row();
    assert_eq!(f.shape(), (1, 6));
    assert_eq!(f[(0, 0)], 1);
    assert_eq!(f[(0, 1)], 4);
}

#[test]
fn flatten_1x1() {
    let m = Mat::from_rows(&[&[42]]);
    let f = m.flatten();
    assert_eq!(f.shape(), (1, 1));
    assert_eq!(f[(0, 0)], 42);
}

#[test]
fn to_col_vector_equals_flatten() {
    let m = Mat::from_rows(&[&[1, 2], &[3, 4]]);
    assert_eq!(m.to_col_vector(), m.flatten());
}

#[test]
fn to_row_vector_equals_flatten_row() {
    let m = Mat::from_rows(&[&[1, 2], &[3, 4]]);
    assert_eq!(m.to_row_vector(), m.flatten_row());
}

#[test]
fn vstack_basic() {
    let a = Mat::from_rows(&[&[1, 2], &[3, 4]]);
    let b = Mat::from_rows(&[&[5, 6]]);
    let m = Mat::vstack(&[a.as_ref(), b.as_ref()]);
    let expected = Mat::from_rows(&[&[1, 2], &[3, 4], &[5, 6]]);
    assert_eq!(m, expected);
}

#[test]
fn vstack_three_matrices() {
    let a = Mat::from_rows(&[&[1, 2]]);
    let b = Mat::from_rows(&[&[3, 4]]);
    let c = Mat::from_rows(&[&[5, 6]]);
    let m = Mat::vstack(&[a.as_ref(), b.as_ref(), c.as_ref()]);
    let expected = Mat::from_rows(&[&[1, 2], &[3, 4], &[5, 6]]);
    assert_eq!(m, expected);
}

#[test]
fn vstack_single() {
    let a = Mat::from_rows(&[&[1, 2], &[3, 4]]);
    let m = Mat::vstack(&[a.as_ref()]);
    assert_eq!(m, a);
}

#[test]
fn vstack_empty() {
    let m: Mat<i32> = Mat::vstack(&[]);
    assert_eq!(m.shape(), (0, 0));
}

#[test]
fn hstack_basic() {
    let a = Mat::from_rows(&[&[1, 2], &[3, 4]]);
    let b = Mat::from_rows(&[&[5], &[6]]);
    let m = Mat::hstack(&[a.as_ref(), b.as_ref()]);
    let expected = Mat::from_rows(&[&[1, 2, 5], &[3, 4, 6]]);
    assert_eq!(m, expected);
}

#[test]
fn hstack_three_matrices() {
    let a = Mat::from_rows(&[&[1], &[4]]);
    let b = Mat::from_rows(&[&[2], &[5]]);
    let c = Mat::from_rows(&[&[3], &[6]]);
    let m = Mat::hstack(&[a.as_ref(), b.as_ref(), c.as_ref()]);
    let expected = Mat::from_rows(&[&[1, 2, 3], &[4, 5, 6]]);
    assert_eq!(m, expected);
}

#[test]
fn hstack_single() {
    let a = Mat::from_rows(&[&[1, 2], &[3, 4]]);
    let m = Mat::hstack(&[a.as_ref()]);
    assert_eq!(m, a);
}

#[test]
fn hstack_empty() {
    let m: Mat<i32> = Mat::hstack(&[]);
    assert_eq!(m.shape(), (0, 0));
}

#[test]
fn resize_larger() {
    let mut m = Mat::from_rows(&[&[1, 2], &[3, 4]]);
    m.resize(3, 4, 0);
    assert_eq!(m.shape(), (3, 4));
    assert_eq!(m[(0, 0)], 1);
    assert_eq!(m[(1, 1)], 4);
    assert_eq!(m[(2, 0)], 0);
    assert_eq!(m[(0, 2)], 0);
    assert_eq!(m[(2, 3)], 0);
}

#[test]
fn resize_smaller() {
    let mut m = Mat::from_rows(&[&[1, 2, 3], &[4, 5, 6], &[7, 8, 9]]);
    m.resize(2, 2, 0);
    assert_eq!(m.shape(), (2, 2));
    assert_eq!(m[(0, 0)], 1);
    assert_eq!(m[(0, 1)], 2);
    assert_eq!(m[(1, 0)], 4);
    assert_eq!(m[(1, 1)], 5);
}

#[test]
fn resize_same() {
    let mut m = Mat::from_rows(&[&[1, 2], &[3, 4]]);
    m.resize(2, 2, 0);
    assert_eq!(m, Mat::from_rows(&[&[1, 2], &[3, 4]]));
}

#[test]
fn resize_add_rows_only() {
    let mut m = Mat::from_rows(&[&[1, 2], &[3, 4]]);
    m.resize(4, 2, 0);
    assert_eq!(m.shape(), (4, 2));
    assert_eq!(m[(0, 0)], 1);
    assert_eq!(m[(1, 1)], 4);
    assert_eq!(m[(2, 0)], 0);
    assert_eq!(m[(3, 1)], 0);
}

#[test]
fn resize_add_cols_only() {
    let mut m = Mat::from_rows(&[&[1, 2], &[3, 4]]);
    m.resize(2, 4, 9);
    assert_eq!(m.shape(), (2, 4));
    assert_eq!(m[(0, 0)], 1);
    assert_eq!(m[(1, 1)], 4);
    assert_eq!(m[(0, 2)], 9);
    assert_eq!(m[(1, 3)], 9);
}

#[test]
fn reserve_increases_capacity() {
    let mut m: Mat<i32> = Mat::zeros(2, 3);
    let before = m.as_slice().len();
    m.reserve(10);
    assert_eq!(m.as_slice().len(), before);
    assert_eq!(m.shape(), (2, 3));
}

#[test]
fn truncate_rows_and_cols() {
    let mut m = Mat::from_rows(&[&[1, 2, 3], &[4, 5, 6], &[7, 8, 9]]);
    m.truncate(2, 2);
    assert_eq!(m.shape(), (2, 2));
    assert_eq!(m[(0, 0)], 1);
    assert_eq!(m[(0, 1)], 2);
    assert_eq!(m[(1, 0)], 4);
    assert_eq!(m[(1, 1)], 5);
}

#[test]
fn truncate_same_size() {
    let mut m = Mat::from_rows(&[&[1, 2], &[3, 4]]);
    m.truncate(2, 2);
    assert_eq!(m, Mat::from_rows(&[&[1, 2], &[3, 4]]));
}

#[test]
fn insert_row_beginning() {
    let m = Mat::from_rows(&[&[1, 2], &[3, 4]]);
    let r = m.insert_row(0, &[5, 6]);
    assert_eq!(r, Mat::from_rows(&[&[5, 6], &[1, 2], &[3, 4]]));
}

#[test]
fn insert_row_middle() {
    let m = Mat::from_rows(&[&[1, 2], &[3, 4]]);
    let r = m.insert_row(1, &[5, 6]);
    assert_eq!(r, Mat::from_rows(&[&[1, 2], &[5, 6], &[3, 4]]));
}

#[test]
fn insert_row_end() {
    let m = Mat::from_rows(&[&[1, 2], &[3, 4]]);
    let r = m.insert_row(2, &[5, 6]);
    assert_eq!(r, Mat::from_rows(&[&[1, 2], &[3, 4], &[5, 6]]));
}

#[test]
fn insert_col_beginning() {
    let m = Mat::from_rows(&[&[1, 2], &[3, 4]]);
    let r = m.insert_col(0, &[5, 6]);
    assert_eq!(r, Mat::from_rows(&[&[5, 1, 2], &[6, 3, 4]]));
}

#[test]
fn insert_col_middle() {
    let m = Mat::from_rows(&[&[1, 2], &[3, 4]]);
    let r = m.insert_col(1, &[5, 6]);
    assert_eq!(r, Mat::from_rows(&[&[1, 5, 2], &[3, 6, 4]]));
}

#[test]
fn insert_col_end() {
    let m = Mat::from_rows(&[&[1, 2], &[3, 4]]);
    let r = m.insert_col(2, &[5, 6]);
    assert_eq!(r, Mat::from_rows(&[&[1, 2, 5], &[3, 4, 6]]));
}

#[test]
fn remove_row_first() {
    let m = Mat::from_rows(&[&[1, 2], &[3, 4], &[5, 6]]);
    assert_eq!(m.remove_row(0), Mat::from_rows(&[&[3, 4], &[5, 6]]));
}

#[test]
fn remove_row_middle() {
    let m = Mat::from_rows(&[&[1, 2], &[3, 4], &[5, 6]]);
    assert_eq!(m.remove_row(1), Mat::from_rows(&[&[1, 2], &[5, 6]]));
}

#[test]
fn remove_row_last() {
    let m = Mat::from_rows(&[&[1, 2], &[3, 4], &[5, 6]]);
    assert_eq!(m.remove_row(2), Mat::from_rows(&[&[1, 2], &[3, 4]]));
}

#[test]
fn remove_col_first() {
    let m = Mat::from_rows(&[&[1, 2, 3], &[4, 5, 6]]);
    assert_eq!(m.remove_col(0), Mat::from_rows(&[&[2, 3], &[5, 6]]));
}

#[test]
fn remove_col_middle() {
    let m = Mat::from_rows(&[&[1, 2, 3], &[4, 5, 6]]);
    assert_eq!(m.remove_col(1), Mat::from_rows(&[&[1, 3], &[4, 6]]));
}

#[test]
fn remove_col_last() {
    let m = Mat::from_rows(&[&[1, 2, 3], &[4, 5, 6]]);
    assert_eq!(m.remove_col(2), Mat::from_rows(&[&[1, 2], &[4, 5]]));
}

#[test]
fn append_row_basic() {
    let m = Mat::from_rows(&[&[1, 2], &[3, 4]]);
    let r = m.append_row(&[5, 6]);
    assert_eq!(r, Mat::from_rows(&[&[1, 2], &[3, 4], &[5, 6]]));
}

#[test]
fn append_col_basic() {
    let m = Mat::from_rows(&[&[1, 2], &[3, 4]]);
    let r = m.append_col(&[5, 6]);
    assert_eq!(r, Mat::from_rows(&[&[1, 2, 5], &[3, 4, 6]]));
}

#[test]
fn mat_ref_reshape() {
    let m = Mat::from_rows(&[&[1, 2, 3], &[4, 5, 6]]);
    let r = m.as_ref().reshape(3, 2);
    assert_eq!(r.shape(), (3, 2));
    assert_eq!(r[(0, 0)], 1);
    assert_eq!(r[(1, 0)], 4);
}

#[test]
fn mat_ref_insert_row() {
    let m = Mat::from_rows(&[&[1, 2], &[3, 4]]);
    let r = m.as_ref().insert_row(1, &[5, 6]);
    assert_eq!(r, Mat::from_rows(&[&[1, 2], &[5, 6], &[3, 4]]));
}

#[test]
fn mat_mut_reshape() {
    let mut m = Mat::from_rows(&[&[1, 2, 3], &[4, 5, 6]]);
    let v = m.as_mut();
    let r = v.reshape(3, 2);
    assert_eq!(r.shape(), (3, 2));
}

#[test]
fn mat_mut_flatten() {
    let mut m = Mat::from_rows(&[&[1, 2], &[3, 4]]);
    let v = m.as_mut();
    let f = v.flatten();
    assert_eq!(f.shape(), (4, 1));
}

#[test]
fn reshape_transposed_view() {
    let m = Mat::from_rows(&[&[1, 2, 3], &[4, 5, 6]]);
    let t = m.transpose();
    let r = t.reshape(2, 3);
    assert_eq!(r.shape(), (2, 3));
    assert_eq!(r[(0, 0)], 1);
    assert_eq!(r[(1, 0)], 2);
    assert_eq!(r[(0, 1)], 3);
    assert_eq!(r[(1, 1)], 4);
    assert_eq!(r[(0, 2)], 5);
    assert_eq!(r[(1, 2)], 6);
}
