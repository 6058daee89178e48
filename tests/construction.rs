use aris::{Mat, MatMut, MatRef};

#[test]
fn new_creates_empty_matrix() {
    let m: Mat<f64> = Mat::new();
    assert_eq!(m.nrows(), 0);
    assert_eq!(m.ncols(), 0);
    assert_eq!(m.shape(), (0, 0));
    assert_eq!(m.size(), 0);
    assert!(m.as_slice().is_empty());
}

#[test]
fn default_creates_empty_matrix() {
    let m: Mat<i32> = Mat::default();
    assert_eq!(m.shape(), (0, 0));
}

#[test]
fn ones_creates_ones_matrix() {
    let m: Mat<i32> = Mat::ones(2, 3);
    assert_eq!(m.shape(), (2, 3));
    for j in 0..3 {
        for i in 0..2 {
            assert_eq!(m[(i, j)], 1);
        }
    }
}

#[test]
fn identity_1x1() {
    let m: Mat<i32> = Mat::identity(1);
    assert_eq!(m[(0, 0)], 1);
}

#[test]
fn eye_positive_offset() {
    let m: Mat<i32> = Mat::eye(3, 4, 1);
    assert_eq!(m[(0, 0)], 0);
    assert_eq!(m[(0, 1)], 1);
    assert_eq!(m[(1, 2)], 1);
    assert_eq!(m[(2, 3)], 1);
    assert_eq!(m[(1, 1)], 0);
}

#[test]
fn eye_negative_offset() {
    let m: Mat<i32> = Mat::eye(4, 3, -1);
    assert_eq!(m[(0, 0)], 0);
    assert_eq!(m[(1, 0)], 1);
    assert_eq!(m[(2, 1)], 1);
    assert_eq!(m[(3, 2)], 1);
}

#[test]
fn from_vec_col_stores_correctly() {
    let m = Mat::from_vec_col(2, 3, vec![1, 2, 3, 4, 5, 6]);
    assert_eq!(m.shape(), (2, 3));
    assert_eq!(m[(0, 0)], 1);
    assert_eq!(m[(1, 0)], 2);
    assert_eq!(m[(0, 1)], 3);
    assert_eq!(m[(1, 1)], 4);
    assert_eq!(m[(0, 2)], 5);
    assert_eq!(m[(1, 2)], 6);
    assert_eq!(m.as_slice(), &[1, 2, 3, 4, 5, 6]);
}

#[test]
fn from_vec_row_converts_to_vec_col() {
    let m = Mat::from_vec_row(2, 3, vec![1, 2, 3, 4, 5, 6]);
    assert_eq!(m.shape(), (2, 3));
    assert_eq!(m[(0, 0)], 1);
    assert_eq!(m[(0, 1)], 2);
    assert_eq!(m[(0, 2)], 3);
    assert_eq!(m[(1, 0)], 4);
    assert_eq!(m[(1, 1)], 5);
    assert_eq!(m[(1, 2)], 6);
    assert_eq!(m.as_slice(), &[1, 4, 2, 5, 3, 6]);
}

#[test]
fn from_fn_generates_matrix() {
    let m = Mat::from_fn(3, 2, |i, j| (i * 10 + j) as f64);
    assert_eq!(m.shape(), (3, 2));
    assert_eq!(m[(0, 0)], 0.0);
    assert_eq!(m[(1, 0)], 10.0);
    assert_eq!(m[(2, 0)], 20.0);
    assert_eq!(m[(0, 1)], 1.0);
    assert_eq!(m[(1, 1)], 11.0);
    assert_eq!(m[(2, 1)], 21.0);
}

#[test]
fn from_rows_creates_matrix() {
    let m = Mat::from_rows(&[&[1, 2, 3], &[4, 5, 6]]);
    assert_eq!(m.shape(), (2, 3));
    assert_eq!(m[(0, 0)], 1);
    assert_eq!(m[(0, 1)], 2);
    assert_eq!(m[(0, 2)], 3);
    assert_eq!(m[(1, 0)], 4);
    assert_eq!(m[(1, 1)], 5);
    assert_eq!(m[(1, 2)], 6);
}

#[test]
fn from_rows_empty() {
    let m: Mat<i32> = Mat::from_rows(&[]);
    assert_eq!(m.shape(), (0, 0));
}

#[test]
fn from_cols_creates_matrix() {
    let m = Mat::from_cols(&[&[1, 4], &[2, 5], &[3, 6]]);
    assert_eq!(m.shape(), (2, 3));
    assert_eq!(m[(0, 0)], 1);
    assert_eq!(m[(1, 0)], 4);
    assert_eq!(m[(0, 1)], 2);
    assert_eq!(m[(1, 1)], 5);
    assert_eq!(m[(0, 2)], 3);
    assert_eq!(m[(1, 2)], 6);
}

#[test]
fn from_cols_empty() {
    let m: Mat<i32> = Mat::from_cols(&[]);
    assert_eq!(m.shape(), (0, 0));
}

#[test]
fn col_major_storage_layout() {
    let m = Mat::from_rows(&[&[1, 2, 3], &[4, 5, 6]]);
    assert_eq!(m.row_stride(), 1);
    assert_eq!(m.col_stride(), 2);
    assert_eq!(m.as_slice(), &[1, 4, 2, 5, 3, 6]);
}

#[test]
fn index_and_index_mut() {
    let mut m = Mat::from_rows(&[&[1, 2], &[3, 4]]);
    assert_eq!(m[(0, 0)], 1);
    assert_eq!(m[(1, 1)], 4);
    m.set(0, 1, 20);
    assert_eq!(m[(0, 1)], 20);
}

#[test]
fn get_returns_some_for_valid_indices() {
    let m = Mat::from_rows(&[&[10, 20], &[30, 40]]);
    assert_eq!(m.get(0, 0), Some(&10));
    assert_eq!(m.get(1, 1), Some(&40));
}

#[test]
fn get_returns_none_for_invalid_indices() {
    let m = Mat::from_rows(&[&[10, 20], &[30, 40]]);
    assert_eq!(m.get(2, 0), None);
    assert_eq!(m.get(0, 2), None);
}

#[test]
fn get_mut_modifies_element() {
    let mut m = Mat::from_rows(&[&[1, 2], &[3, 4]]);
    *m.get_mut(1, 0).unwrap() = 99;
    assert_eq!(m[(1, 0)], 99);
}

#[test]
fn clone_creates_independent_copy() {
    let m = Mat::from_rows(&[&[1, 2], &[3, 4]]);
    let c = m.clone();
    assert_eq!(m, c);
}

#[test]
fn partial_eq_same_content() {
    let a = Mat::from_rows(&[&[1, 2], &[3, 4]]);
    let b = Mat::from_rows(&[&[1, 2], &[3, 4]]);
    assert_eq!(a, b);
}

#[test]
fn partial_eq_different_content() {
    let a = Mat::from_rows(&[&[1, 2], &[3, 4]]);
    let b = Mat::from_rows(&[&[1, 2], &[3, 5]]);
    assert_ne!(a, b);
}

#[test]
fn partial_eq_different_shape() {
    let a = Mat::from_rows(&[&[1, 2, 3]]);
    let b = Mat::from_rows(&[&[1], &[2], &[3]]);
    assert_ne!(a, b);
}

#[test]
fn partial_eq_mat_and_mat_ref() {
    let m = Mat::from_rows(&[&[1, 2], &[3, 4]]);
    let r = m.as_ref();
    assert_eq!(m, r);
    assert_eq!(r, m);
}

#[test]
fn mat_fn_macro() {
    let m = Mat::from_fn(2, 3, |i,j| i + j);
    assert_eq!(m.shape(), (2, 3));
    assert_eq!(m[(0, 0)], 0);
    assert_eq!(m[(0, 2)], 2);
    assert_eq!(m[(1, 1)], 2);
    assert_eq!(m[(1, 2)], 3);
}

#[test]
fn col_macro() {
    let c = Mat::from_rows(&[&[1], &[2], &[3]]);
    assert_eq!(c.shape(), (3, 1));
    assert_eq!(c[(0, 0)], 1);
    assert_eq!(c[(1, 0)], 2);
    assert_eq!(c[(2, 0)], 3);
}

#[test]
fn row_macro() {
    let r = Mat::from_rows(&[&[1, 2, 3]]);
    assert_eq!(r.shape(), (1, 3));
    assert_eq!(r[(0, 0)], 1);
    assert_eq!(r[(0, 1)], 2);
    assert_eq!(r[(0, 2)], 3);
}

#[test]
fn single_element_matrix() {
    let m = Mat::from_rows(&[&[42]]);
    assert_eq!(m.shape(), (1, 1));
    assert_eq!(m[(0, 0)], 42);
    assert_eq!(m.as_slice(), &[42]);

    let diag: Vec<_> = m.diag_iter().into_iter().collect();
    assert_eq!(diag, vec![&42]);
}

#[test]
fn col_vector_operations() {
    let c = Mat::from_rows(&[&[10], &[20], &[30]]);
    assert_eq!(c.nrows(), 3);
    assert_eq!(c.ncols(), 1);
    let cols: Vec<_> = c.col_iter().into_iter().collect();
    assert_eq!(cols.len(), 1);
    assert_eq!(cols[0][(0, 0)], 10);
    assert_eq!(cols[0][(1, 0)], 20);
    assert_eq!(cols[0][(2, 0)], 30);
}

#[test]
fn row_vector_operations() {
    let r = Mat::from_rows(&[&[10, 20, 30]]);
    assert_eq!(r.nrows(), 1);
    assert_eq!(r.ncols(), 3);
    let rows: Vec<_> = r.row_iter().into_iter().collect();
    assert_eq!(rows.len(), 1);
    assert_eq!(rows[0][(0, 0)], 10);
    assert_eq!(rows[0][(0, 1)], 20);
    assert_eq!(rows[0][(0, 2)], 30);
}

#[test]
fn large_matrix_from_fn() {
    let n = 100;
    let m = Mat::from_fn(n, n, |i, j| i * n + j);
    assert_eq!(m.shape(), (n, n));
    assert_eq!(m[(0, 0)], 0);
    assert_eq!(m[(99, 99)], 99 * 100 + 99);
    assert_eq!(m[(50, 25)], 50 * 100 + 25);
}

#[test]
fn from_rows_equals_from_row_major() {
    let a = Mat::from_rows(&[&[1, 2, 3], &[4, 5, 6]]);
    let b = Mat::from_vec_row(2, 3, vec![1, 2, 3, 4, 5, 6]);
    assert_eq!(a, b);
}

#[test]
fn from_cols_equals_from_col_major() {
    let a = Mat::from_cols(&[&[1, 4], &[2, 5], &[3, 6]]);
    let b = Mat::from_vec_col(2, 3, vec![1, 4, 2, 5, 3, 6]);
    assert_eq!(a, b);
}

#[test]
fn from_blocks_2x2() {
    let a = Mat::from_rows(&[&[1, 2], &[3, 4]]);
    let b = Mat::from_rows(&[&[5], &[6]]);
    let c = Mat::from_rows(&[&[7, 8]]);
    let d = Mat::from_rows(&[&[9]]);

    let m = Mat::from_blocks(&[&[a.as_ref(), b.as_ref()], &[c.as_ref(), d.as_ref()]]);

    let expected = Mat::from_rows(&[&[1, 2, 5], &[3, 4, 6], &[7, 8, 9]]);
    assert_eq!(m, expected);
}

#[test]
fn from_blocks_single_block() {
    let a = Mat::from_rows(&[&[1, 2], &[3, 4]]);
    let m = Mat::from_blocks(&[&[a.as_ref()]]);
    assert_eq!(m, a);
}

#[test]
fn from_blocks_horizontal_concat() {
    let a = Mat::from_rows(&[&[1, 2], &[3, 4]]);
    let b = Mat::from_rows(&[&[5, 6], &[7, 8]]);
    let m = Mat::from_blocks(&[&[a.as_ref(), b.as_ref()]]);
    let expected = Mat::from_rows(&[&[1, 2, 5, 6], &[3, 4, 7, 8]]);
    assert_eq!(m, expected);
}

#[test]
fn from_blocks_empty() {
    let m: Mat<i32> = Mat::from_blocks(&[]);
    assert_eq!(m.shape(), (0, 0));
}

#[test]
fn from_blocks_empty_rows() {
    let m: Mat<i32> = Mat::from_blocks(&[&[], &[]]);
    assert_eq!(m.shape(), (0, 0));
}

#[test]
fn block_macro_2x2() {
    let a = Mat::from_rows(&[&[1, 2], &[3, 4]]);
    let b = Mat::from_rows(&[&[5], &[6]]);
    let c = Mat::from_rows(&[&[7, 8]]);
    let d = Mat::from_rows(&[&[9]]);

    let m = Mat::from_blocks(&[&[a.as_ref(), b.as_ref()], &[c.as_ref(), d.as_ref()]]);
    let expected = Mat::from_rows(&[&[1, 2, 5], &[3, 4, 6], &[7, 8, 9]]);
    assert_eq!(m, expected);
}

#[test]
fn block_macro_single_row() {
    let a = Mat::from_rows(&[&[1, 2], &[3, 4]]);
    let b = Mat::from_rows(&[&[5, 6], &[7, 8]]);
    let m = Mat::from_blocks(&[&[a.as_ref(), b.as_ref()]]);
    let expected = Mat::from_rows(&[&[1, 2, 5, 6], &[3, 4, 7, 8]]);
    assert_eq!(m, expected);
}

#[test]
fn block_macro_single_column() {
    let a = Mat::from_rows(&[&[1, 2]]);
    let b = Mat::from_rows(&[&[3, 4]]);
    let c = Mat::from_rows(&[&[5, 6]]);
    let m = Mat::from_blocks(&[&[a.as_ref()], &[b.as_ref()], &[c.as_ref()]]);
    let expected = Mat::from_rows(&[&[1, 2], &[3, 4], &[5, 6]]);
    assert_eq!(m, expected);
}

#[test]
fn block_macro_with_identity() {
    let eye: Mat<i32> = Mat::identity(2);
    let z: Mat<i32> = Mat::zeros(2, 2);
    let m = Mat::from_blocks(&[&[eye.as_ref(), z.as_ref()]]);
    let expected = Mat::from_rows(&[&[1, 0, 0, 0], &[0, 1, 0, 0]]);
    assert_eq!(m, expected);
}

#[test]
fn block_macro_trailing_comma() {
    let a = Mat::from_rows(&[&[1, 2], &[3, 4]]);
    let b = Mat::from_rows(&[&[5, 6], &[7, 8]]);
    let m = Mat::from_blocks(&[&[a.as_ref(), b.as_ref()], &[b.as_ref(), a.as_ref()]]);
    let expected = Mat::from_rows(&[&[1, 2, 5, 6], &[3, 4, 7, 8], &[5, 6, 1, 2], &[7, 8, 3, 4]]);
    assert_eq!(m, expected);
}
