use aris::Matrix;

#[test]
fn test_get() {
    let m = Matrix::from_nested_vec(vec![vec![1, 2], vec![3, 4]]);
    assert_eq!(m.get((0, 0)), Some(&1));
    assert_eq!(m.get((1, 1)), Some(&4));
    assert_eq!(m.get((1, 2)), None);
    assert_eq!(m.get((2, 1)), None);
}

#[test]
fn test_index() {
    let m = Matrix::from_nested_vec(vec![vec![1, 2, 3], vec![4, 5, 6]]);
    assert_eq!(m[(0, 0)], 1);
    assert_eq!(m[(0, 2)], 3);
    assert_eq!(m[(1, 1)], 5);
}

#[test]
fn test_index_mut() {
    let mut m = Matrix::from_nested_vec(vec![vec![1, 2], vec![3, 4]]);
    m.set(0, 1, 10);
    m.set(1, 0, 20);
    assert_eq!(m[(0, 1)], 10);
    assert_eq!(m[(1, 0)], 20);
}

#[test]
fn test_add() {
    let m1 = Matrix::from_nested_vec(vec![vec![1, 2], vec![3, 4]]);
    let m2 = Matrix::from_nested_vec(vec![vec![5, 6], vec![7, 8]]);

    let result = &m1 + &m2;
    assert_eq!(result, Matrix::from_nested_vec(vec![vec![6, 8], vec![10, 12]]));

    let m1 = Matrix::from_nested_vec(vec![vec![1, 2], vec![3, 4]]);
    let m2 = Matrix::from_nested_vec(vec![vec![5, 6], vec![7, 8]]);

    let result = &m1 + m2;
    assert_eq!(result, Matrix::from_nested_vec(vec![vec![6, 8], vec![10, 12]]));

    let m1 = Matrix::from_nested_vec(vec![vec![1, 2], vec![3, 4]]);
    let m2 = Matrix::from_nested_vec(vec![vec![5, 6], vec![7, 8]]);

    let result = m1 + &m2;
    assert_eq!(result, Matrix::from_nested_vec(vec![vec![6, 8], vec![10, 12]]));

    let m1 = Matrix::from_nested_vec(vec![vec![1, 2], vec![3, 4]]);
    let m2 = Matrix::from_nested_vec(vec![vec![5, 6], vec![7, 8]]);

    let result = m1 + m2;
    assert_eq!(result, Matrix::from_nested_vec(vec![vec![6, 8], vec![10, 12]]));
}

#[test]
fn test_sub() {
    let m1 = Matrix::from_nested_vec(vec![vec![5, 6], vec![7, 8]]);
    let m2 = Matrix::from_nested_vec(vec![vec![1, 2], vec![3, 4]]);
    let result = &m1 - &m2;
    assert_eq!(result, Matrix::from_nested_vec(vec![vec![4, 4], vec![4, 4]]));

    let m1 = Matrix::from_nested_vec(vec![vec![5, 6], vec![7, 8]]);
    let m2 = Matrix::from_nested_vec(vec![vec![1, 2], vec![3, 4]]);
    let result = &m1 - m2;
    assert_eq!(result, Matrix::from_nested_vec(vec![vec![4, 4], vec![4, 4]]));
    let m1 = Matrix::from_nested_vec(vec![vec![5, 6], vec![7, 8]]);
    let m2 = Matrix::from_nested_vec(vec![vec![1, 2], vec![3, 4]]);
    let result = m1 - &m2;
    assert_eq!(result, Matrix::from_nested_vec(vec![vec![4, 4], vec![4, 4]]));
    let m1 = Matrix::from_nested_vec(vec![vec![5, 6], vec![7, 8]]);
    let m2 = Matrix::from_nested_vec(vec![vec![1, 2], vec![3, 4]]);
    let result = m1 - m2;
    assert_eq!(result, Matrix::from_nested_vec(vec![vec![4, 4], vec![4, 4]]));
}

#[test]
fn test_mul_operator() {
    let m1 = Matrix::from_nested_vec(vec![vec![1, 2], vec![3, 4]]);
    let m2 = Matrix::from_nested_vec(vec![vec![5, 6], vec![7, 8]]);
    let result = &m1 * &m2;
    assert_eq!(result, Matrix::from_nested_vec(vec![vec![19, 22], vec![43, 50]]));
}

#[test]
fn test_component_mul() {
    let m1 = Matrix::from_nested_vec(vec![vec![1, 2], vec![3, 4]]);
    let m2 = Matrix::from_nested_vec(vec![vec![5, 6], vec![7, 8]]);
    let result = m1.component_mul(&m2);
    assert_eq!(result, Matrix::from_nested_vec(vec![vec![5, 12], vec![21, 32]]));
}

#[test]
fn test_transpose_square() {
    let m = Matrix::from_nested_vec(vec![vec![1, 2], vec![3, 4]]);
    let t = m.transpose();
    assert_eq!(t, Matrix::from_nested_vec(vec![vec![1, 3], vec![2, 4]]));
}

#[test]
fn test_transpose_twice() {
    let m = Matrix::from_nested_vec(vec![vec![1, 2, 3], vec![4, 5, 6]]);
    let t = m.transpose().transpose();
    assert_eq!(t, m);
}

#[test]
fn test_clone() {
    let m1 = Matrix::from_nested_vec(vec![vec![1, 2], vec![3, 4]]);
    let m2 = m1.clone();
    assert_eq!(m1, m2);
}

#[test]
fn test_partial_eq() {
    let m1 = Matrix::from_nested_vec(vec![vec![1, 2], vec![3, 4]]);
    let m2 = Matrix::from_nested_vec(vec![vec![1, 2], vec![3, 4]]);
    let m3 = Matrix::from_nested_vec(vec![vec![1, 2], vec![3, 5]]);
    assert_eq!(m1, m2);
    assert_ne!(m1, m3);
}

#[test]
fn test_debug() {
    let m = Matrix::from_nested_vec(vec![vec![1, 2], vec![3, 4]]);
    let debug_str = format!("{:?}", m);
    assert!(debug_str.contains("Matrix"));
}
