use aris::{Mat, MatRef};
use num_complex::Complex;

fn filled_3x4() -> Mat<i32> {
    Mat::from_vec_row(3, 4, (1..=12).collect())
}

#[test]
fn write_through_exclusive_view_is_read_back_everywhere() {
    let mut m = filled_3x4();
    {
        let mut w = m.as_mut();
        w.set(1, 2, 99);
        assert_eq!(w[(1, 2)], 99);
        assert_eq!(w.rb()[(1, 2)], 99);
    }
    assert_eq!(*m.get(1, 2).unwrap(), 99);
    assert_eq!(m.transpose()[(2, 1)], 99);
    assert_eq!(m.row(1)[(0, 2)], 99);
    assert_eq!(m.submatrix(1, 1, 2, 2)[(0, 1)], 99);
    assert_eq!(m.reverse_rows()[(1, 2)], 99);
    assert_eq!(m[(0, 2)], 3);
}

#[test]
fn write_through_derived_exclusive_view() {
    let mut m = filled_3x4();
    {
        let mut t = m.as_mut().transpose_mut().reverse_rows_mut();
        t.set(0, 2, -5);
    }
    assert_eq!(m[(2, 3)], -5);
    assert_eq!(m[(2, 2)], 11);
}

#[test]
fn transpose_twice_is_identity_on_all_shapes() {
    let shapes: [(usize, usize); 4] = [(0, 0), (1, 1), (2, 3), (4, 1)];
    for (r, c) in shapes {
        let m = Mat::from_fn(r, c, |i, j| (i * 10 + j) as i64);
        let v = m.as_ref();
        let back = v.transpose().transpose();
        assert_eq!(back, v);
        assert_eq!(back.row_stride(), v.row_stride());
        assert_eq!(back.col_stride(), v.col_stride());
        assert_eq!(back.shape(), (r, c));
    }
}

#[test]
fn reverse_twice_is_identity_including_empty_axes() {
    let shapes: [(usize, usize); 5] = [(0, 3), (3, 0), (0, 0), (2, 3), (1, 1)];
    for (r, c) in shapes {
        let m = Mat::from_fn(r, c, |i, j| (i * 10 + j) as i64);
        let v = m.as_ref();
        let rr = v.reverse_rows().reverse_rows();
        let cc = v.reverse_cols().reverse_cols();
        assert_eq!(rr, v);
        assert_eq!(cc, v);
        assert_eq!(rr.row_stride(), v.row_stride());
        assert_eq!(cc.col_stride(), v.col_stride());
    }
}

#[test]
fn reversing_an_empty_axis_changes_nothing() {
    let m: Mat<i32> = Mat::from_vec_col(0, 3, vec![]);
    let v = m.as_ref();
    let r = v.reverse_rows();
    assert_eq!(r.row_stride(), v.row_stride());
    assert_eq!(r.shape(), (0, 3));
}

#[test]
fn to_owned_matches_enumeration_of_each_view() {
    let m = filled_3x4();
    let views: Vec<MatRef<'_, i32>> = vec![
        m.as_ref(),
        m.transpose(),
        m.reverse_rows(),
        m.reverse_cols(),
        m.submatrix(1, 1, 2, 3),
    ];
    for v in views {
        let owned = v.to_owned();
        assert_eq!(owned.shape(), v.shape());
        for i in 0..v.nrows() {
            for j in 0..v.ncols() {
                assert_eq!(owned[(i, j)], v[(i, j)]);
            }
        }
        let listed: Vec<i32> = v.enumerate().into_iter().map(|(_, x)| *x).collect();
        let mut expected = Vec::new();
        for i in 0..owned.nrows() {
            for j in 0..owned.ncols() {
                expected.push(owned[(i, j)]);
            }
        }
        assert_eq!(listed, expected);
    }
}

#[test]
fn transposed_view_materialises_in_column_major_order() {
    let m = Mat::from_rows(&[&[1, 2, 3], &[4, 5, 6]]);
    let t = m.transpose().to_owned();
    assert_eq!(t.as_slice(), &[1, 2, 3, 4, 5, 6]);
}

#[test]
fn elementwise_sum_and_difference_keep_the_shape() {
    let a = Mat::from_rows(&[&[1, 2, 3], &[4, 5, 6]]);
    let b = Mat::from_rows(&[&[10, 20, 30], &[40, 50, 60]]);
    let s = &a + &b;
    let d = &b - &a;
    assert_eq!(s.shape(), (2, 3));
    assert_eq!(d.shape(), (2, 3));
    assert_eq!(s, Mat::from_rows(&[&[11, 22, 33], &[44, 55, 66]]));
    assert_eq!(d, Mat::from_rows(&[&[9, 18, 27], &[36, 45, 54]]));
    let e: Mat<i32> = Mat::new();
    assert_eq!((&e + &e).shape(), (0, 0));
}

#[test]
fn identity_is_identity_symmetric_and_diagonal() {
    for n in 0..5usize {
        let m: Mat<i32> = Mat::identity(n);
        assert!(m.is_identity());
        assert!(m.is_symmetric());
        assert!(m.is_diagonal());
        assert!(m.is_upper_triangular());
        assert!(m.is_lower_triangular());
    }
}

#[test]
fn diag_is_diagonal_and_symmetric() {
    let m = Mat::diag(&[3i64, -1, 7]);
    assert!(m.is_diagonal());
    assert!(m.is_symmetric());
    assert!(!m.is_identity());
    let e: Mat<i64> = Mat::diag(&[]);
    assert!(e.is_diagonal());
    assert!(e.is_symmetric());
}

#[test]
fn from_rows_layout_and_transpose() {
    let m = Mat::from_rows(&[&[1, 2, 3], &[4, 5, 6]]);
    assert_eq!(m.shape(), (2, 3));
    assert_eq!(m.as_slice(), &[1, 4, 2, 5, 3, 6]);
    let t = m.transpose();
    assert_eq!(t.shape(), (3, 2));
    assert_eq!(t[(0, 1)], 4);
}

#[test]
fn submatrix_of_row_major_fill() {
    let m = filled_3x4();
    let s = m.submatrix(1, 1, 2, 2);
    assert_eq!(s.to_owned(), Mat::from_rows(&[&[6, 7], &[10, 11]]));
}

#[test]
fn swap_rows_outer() {
    let mut m = Mat::from_rows(&[&[1, 2], &[3, 4], &[5, 6]]);
    m.swap_rows(0, 2);
    assert_eq!(m, Mat::from_rows(&[&[5, 6], &[3, 4], &[1, 2]]));
}

#[test]
fn rows_scaled_through_exclusive_row_views() {
    let mut m = Mat::from_rows(&[&[1, 2], &[3, 4]]);
    for i in 0..m.nrows() {
        let mut r = m.row_mut(i);
        let x = r[(0, 0)];
        r.set(0, 0, x * 10);
    }
    assert_eq!(m, Mat::from_rows(&[&[10, 2], &[30, 4]]));
}

#[test]
fn resize_keeps_old_region_and_fills_the_rest() {
    let mut m = Mat::from_rows(&[&[1, 2], &[3, 4]]);
    m.resize(3, 4, 0);
    assert_eq!(m.shape(), (3, 4));
    for i in 0..3 {
        for j in 0..4 {
            let expected = if i < 2 && j < 2 { [[1, 2], [3, 4]][i][j] } else { 0 };
            assert_eq!(m[(i, j)], expected);
        }
    }
}

#[test]
fn real_and_imaginary_parts() {
    let m = Mat::from_rows(&[&[Complex::new(1, -2), Complex::new(3, 4)]]);
    assert_eq!(m.re(), Mat::from_rows(&[&[1, 3]]));
    assert_eq!(m.im(), Mat::from_rows(&[&[-2, 4]]));
    assert_eq!(m.transpose().re(), Mat::from_rows(&[&[1], &[3]]));
}

#[test]
fn clamp_limits_every_element() {
    let m = Mat::from_rows(&[&[-5, 0, 5], &[10, 3, -1]]);
    assert_eq!(m.clamp(-1, 4), Mat::from_rows(&[&[-1, 0, 4], &[4, 3, -1]]));
}

#[test]
fn elementwise_product_and_quotient() {
    let a = Mat::from_rows(&[&[2, 4], &[6, 8]]);
    let b = Mat::from_rows(&[&[1, 2], &[3, 4]]);
    assert_eq!(a.component_mul(b.as_ref()), Mat::from_rows(&[&[2, 8], &[18, 32]]));
    assert_eq!(a.component_div(b.as_ref()), Mat::from_rows(&[&[2, 2], &[2, 2]]));
    assert_eq!(a.as_ref().element_mul(b.transpose()), Mat::from_rows(&[&[2, 12], &[12, 32]]));
    assert_eq!(3 * &b, Mat::from_rows(&[&[3, 6], &[9, 12]]));
    assert_eq!(&a / 2, Mat::from_rows(&[&[1, 2], &[3, 4]]));
}

#[test]
fn blocks_of_uneven_sizes() {
    let a = Mat::from_rows(&[&[1], &[2]]);
    let b = Mat::from_rows(&[&[3, 4, 5], &[6, 7, 8]]);
    let c = Mat::from_rows(&[&[9]]);
    let d = Mat::from_rows(&[&[10, 11, 12]]);
    let m = Mat::from_blocks(&[&[a.as_ref(), b.as_ref()], &[c.as_ref(), d.as_ref()]]);
    assert_eq!(
        m,
        Mat::from_rows(&[&[1, 3, 4, 5], &[2, 6, 7, 8], &[9, 10, 11, 12]])
    );
}

#[test]
fn view_equality_needs_same_shape_and_elements() {
    let m = Mat::from_rows(&[&[1, 2], &[2, 1]]);
    assert_eq!(m.transpose(), m.as_ref());
    assert_ne!(m.row(0), m.col(0));
    assert_eq!(m.row(0).transpose(), m.col(0));
    let bad = MatRef { data: m.as_slice(), offset: 3, nrows: 1, ncols: 2, row_stride: 1, col_stride: 1 };
    assert_ne!(bad, bad);
    assert_eq!(bad.try_get(0, 0), Some(&1));
    assert_eq!(bad.try_get(0, 1), None);
}

#[test]
fn eye_offsets_and_reshape_order() {
    let e: Mat<i32> = Mat::eye(3, 4, -1);
    assert_eq!(e, Mat::from_rows(&[&[0, 0, 0, 0], &[1, 0, 0, 0], &[0, 1, 0, 0]]));
    let m = Mat::from_rows(&[&[1, 2, 3], &[4, 5, 6]]);
    let r = m.transpose().reshape(2, 3);
    assert_eq!(r, Mat::from_rows(&[&[1, 3, 5], &[2, 4, 6]]));
}

#[test]
fn copy_into_a_reversed_window() {
    let mut m: Mat<i32> = Mat::zeros(3, 3);
    let src = Mat::from_rows(&[&[1, 2], &[3, 4]]);
    m.as_mut().submatrix_mut(1, 1, 2, 2).reverse_cols_mut().copy_from(src.as_ref());
    assert_eq!(m, Mat::from_rows(&[&[0, 0, 0], &[0, 2, 1], &[0, 4, 3]]));
}

#[test]
fn negation_of_each_kind_of_matrix() {
    let mut m = Mat::from_rows(&[&[1, -2], &[0, 4]]);
    let expected = Mat::from_rows(&[&[-1, 2], &[0, -4]]);
    assert_eq!(-&m, expected);
    assert_eq!(-m.as_ref(), expected);
    assert_eq!(-m.transpose(), expected.transpose().to_owned());
    assert_eq!(-m.as_mut(), expected);
    assert_eq!(-m.clone(), expected);
}
