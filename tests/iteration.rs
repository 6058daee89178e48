use aris::{Mat, MatMut, MatRef};

#[test]
fn col_iter_yields_columns() {
    let m = Mat::from_rows(&[&[1, 2, 3], &[4, 5, 6]]);
    let cols: Vec<_> = m.col_iter().into_iter().collect();
    assert_eq!(cols.len(), 3);
    assert_eq!(cols[0][(0, 0)], 1);
    assert_eq!(cols[0][(1, 0)], 4);
    assert_eq!(cols[1][(0, 0)], 2);
    assert_eq!(cols[1][(1, 0)], 5);
    assert_eq!(cols[2][(0, 0)], 3);
    assert_eq!(cols[2][(1, 0)], 6);
}

#[test]
fn col_iter_exact_size() {
    let m = Mat::from_rows(&[&[1, 2, 3], &[4, 5, 6]]);
    let iter = m.col_iter().into_iter();
    assert_eq!(iter.len(), 3);
}

#[test]
fn row_iter_yields_rows() {
    let m = Mat::from_rows(&[&[1, 2, 3], &[4, 5, 6]]);
    let rows: Vec<_> = m.row_iter().into_iter().collect();
    assert_eq!(rows.len(), 2);
    assert_eq!(rows[0][(0, 0)], 1);
    assert_eq!(rows[0][(0, 1)], 2);
    assert_eq!(rows[0][(0, 2)], 3);
    assert_eq!(rows[1][(0, 0)], 4);
    assert_eq!(rows[1][(0, 1)], 5);
    assert_eq!(rows[1][(0, 2)], 6);
}

#[test]
fn row_iter_exact_size() {
    let m = Mat::from_rows(&[&[1, 2, 3], &[4, 5, 6]]);
    let iter = m.row_iter().into_iter();
    assert_eq!(iter.len(), 2);
}

#[test]
fn diag_iter_yields_diagonal() {
    let m = Mat::from_rows(&[&[1, 2, 3], &[4, 5, 6], &[7, 8, 9]]);
    let diag: Vec<_> = m.diag_iter().into_iter().collect();
    assert_eq!(diag, vec![&1, &5, &9]);
}

#[test]
fn diag_iter_non_square() {
    let m = Mat::from_rows(&[&[1, 2, 3], &[4, 5, 6]]);
    let diag: Vec<_> = m.diag_iter().into_iter().collect();
    assert_eq!(diag, vec![&1, &5]);
}

#[test]
fn diag_iter_exact_size() {
    let m = Mat::from_rows(&[&[1, 2, 3], &[4, 5, 6]]);
    let iter = m.diag_iter().into_iter();
    assert_eq!(iter.len(), 2);
}

#[test]
fn enumerate_yields_row_major_order() {
    let m = Mat::from_rows(&[&[1, 2], &[3, 4]]);
    let items: Vec<_> = m.enumerate().into_iter().collect();
    assert_eq!(
        items,
        vec![((0, 0), &1), ((0, 1), &2), ((1, 0), &3), ((1, 1), &4),]
    );
}

#[test]
fn enumerate_exact_size() {
    let m = Mat::from_rows(&[&[1, 2, 3], &[4, 5, 6]]);
    let iter = m.enumerate().into_iter();
    assert_eq!(iter.len(), 6);
}

#[test]
fn mat_literal_macro() {
    let m = Mat::from_rows(&[&[1, 2, 3], &[4, 5, 6]]);
    assert_eq!(m.shape(), (2, 3));
    assert_eq!(m[(0, 0)], 1);
    assert_eq!(m[(1, 2)], 6);
}

#[test]
fn mat_literal_macro_trailing_comma() {
    let m = Mat::from_rows(&[&[1, 2], &[3, 4]]);
    assert_eq!(m.shape(), (2, 2));
    assert_eq!(m[(1, 1)], 4);
}

#[test]
fn col_iter_empty_matrix() {
    let m: Mat<i32> = Mat::new();
    assert_eq!(m.col_iter().into_iter().count(), 0);
}

#[test]
fn row_iter_empty_matrix() {
    let m: Mat<i32> = Mat::new();
    assert_eq!(m.row_iter().into_iter().count(), 0);
}

#[test]
fn diag_iter_empty_matrix() {
    let m: Mat<i32> = Mat::new();
    assert_eq!(m.diag_iter().into_iter().count(), 0);
}

#[test]
fn enumerate_empty_matrix() {
    let m: Mat<i32> = Mat::new();
    assert_eq!(m.enumerate().into_iter().count(), 0);
}

#[test]
fn mat_mut_enumerate() {
    let mut m = Mat::from_rows(&[&[1, 2], &[3, 4]]);
    let v = m.as_mut();
    let items: Vec<_> = v.enumerate().into_iter().collect();
    assert_eq!(items.len(), 4);
    assert_eq!(items[0], ((0, 0), &1));
    assert_eq!(items[3], ((1, 1), &4));
}

#[test]
fn mat_mut_diag_iter() {
    let mut m = Mat::from_rows(&[&[1, 2], &[3, 4]]);
    let v = m.as_mut();
    let diag: Vec<_> = v.diag_iter().into_iter().collect();
    assert_eq!(diag, vec![&1, &4]);
}
