use aris::Matrix;

#[test]
fn matrix_product_of_rectangular_factors() {
    let a = Matrix::from_nested_vec(vec![vec![1, 2, 3], vec![4, 5, 6]]);
    let b = Matrix::from_nested_vec(vec![vec![7, 8], vec![9, 10], vec![11, 12]]);
    let p = a.dot(&b);
    assert_eq!(p, Matrix::from_nested_vec(vec![vec![58, 64], vec![139, 154]]));
    assert_eq!(&a * &b, p);
    assert_eq!(a.clone() * b.clone(), p);
}

#[test]
fn matrix_product_with_empty_inner_dimension_is_zero() {
    let a: Matrix<i32> = Matrix::from_vec((2, 0), vec![]);
    let b: Matrix<i32> = Matrix::from_vec((0, 3), vec![]);
    assert_eq!(a.dot(&b), Matrix::zeros((2, 3)));
}

#[test]
fn row_major_layout_and_flat_lookup() {
    let m = Matrix::from_vec((2, 3), vec![1, 2, 3, 4, 5, 6]);
    assert_eq!(m[(1, 0)], 4);
    assert_eq!(m.get((0, 3)), Some(&4));
    assert_eq!(m.get((2, 0)), None);
    let t = m.transpose();
    assert_eq!((t.rows(), t.cols()), (3, 2));
    assert_eq!(t[(2, 1)], 6);
}

#[test]
fn row_major_elementwise_operators() {
    let a = Matrix::from_fn((2, 2), |i, j| (i * 2 + j) as i64);
    let b = Matrix::from_value((2, 2), 10i64);
    assert_eq!(&a + &b, Matrix::from_nested_vec(vec![vec![10, 11], vec![12, 13]]));
    assert_eq!(b.clone() - a.clone(), Matrix::from_nested_vec(vec![vec![10, 9], vec![8, 7]]));
    assert_eq!(a.component_mul(&b), Matrix::from_nested_vec(vec![vec![0, 10], vec![20, 30]]));
}
