use aris::{Mat, MatMut, MatRef};

#[test]
fn add_matref_matref() {
    let a = Mat::from_rows(&[&[1, 2], &[3, 4]]);
    let b = Mat::from_rows(&[&[10, 20], &[30, 40]]);
    let c = a.as_ref() + b.as_ref();
    assert_eq!(c, Mat::from_rows(&[&[11, 22], &[33, 44]]));
}

#[test]
fn add_ref_mat_ref_mat() {
    let a = Mat::from_rows(&[&[1, 2], &[3, 4]]);
    let b = Mat::from_rows(&[&[5, 6], &[7, 8]]);
    let c = &a + &b;
    assert_eq!(c, Mat::from_rows(&[&[6, 8], &[10, 12]]));
}

#[test]
fn add_mat_mat() {
    let a = Mat::from_rows(&[&[1, 2], &[3, 4]]);
    let b = Mat::from_rows(&[&[5, 6], &[7, 8]]);
    let c = a + b;
    assert_eq!(c, Mat::from_rows(&[&[6, 8], &[10, 12]]));
}

#[test]
fn add_mat_ref_mat() {
    let a = Mat::from_rows(&[&[1, 2], &[3, 4]]);
    let b = Mat::from_rows(&[&[5, 6], &[7, 8]]);
    let c = a + &b;
    assert_eq!(c, Mat::from_rows(&[&[6, 8], &[10, 12]]));
}

#[test]
fn add_ref_mat_mat() {
    let a = Mat::from_rows(&[&[1, 2], &[3, 4]]);
    let b = Mat::from_rows(&[&[5, 6], &[7, 8]]);
    let c = &a + b;
    assert_eq!(c, Mat::from_rows(&[&[6, 8], &[10, 12]]));
}

#[test]
fn add_matref_ref_mat() {
    let a = Mat::from_rows(&[&[1, 2], &[3, 4]]);
    let b = Mat::from_rows(&[&[5, 6], &[7, 8]]);
    let c = a.as_ref() + &b;
    assert_eq!(c, Mat::from_rows(&[&[6, 8], &[10, 12]]));
}

#[test]
fn add_ref_mat_matref() {
    let a = Mat::from_rows(&[&[1, 2], &[3, 4]]);
    let b = Mat::from_rows(&[&[5, 6], &[7, 8]]);
    let c = &a + b.as_ref();
    assert_eq!(c, Mat::from_rows(&[&[6, 8], &[10, 12]]));
}

#[test]
fn add_mat_matref() {
    let a = Mat::from_rows(&[&[1, 2], &[3, 4]]);
    let b = Mat::from_rows(&[&[5, 6], &[7, 8]]);
    let c = a + b.as_ref();
    assert_eq!(c, Mat::from_rows(&[&[6, 8], &[10, 12]]));
}

#[test]
fn add_matref_mat() {
    let a = Mat::from_rows(&[&[1, 2], &[3, 4]]);
    let b = Mat::from_rows(&[&[5, 6], &[7, 8]]);
    let c = a.as_ref() + b;
    assert_eq!(c, Mat::from_rows(&[&[6, 8], &[10, 12]]));
}

#[test]
fn add_matmut_matref() {
    let mut a = Mat::from_rows(&[&[1, 2], &[3, 4]]);
    let b = Mat::from_rows(&[&[5, 6], &[7, 8]]);
    let c = a.as_mut() + b.as_ref();
    assert_eq!(c, Mat::from_rows(&[&[6, 8], &[10, 12]]));
}

#[test]
fn add_matref_matmut() {
    let a = Mat::from_rows(&[&[1, 2], &[3, 4]]);
    let mut b = Mat::from_rows(&[&[5, 6], &[7, 8]]);
    let c = a.as_ref() + b.as_mut();
    assert_eq!(c, Mat::from_rows(&[&[6, 8], &[10, 12]]));
}

#[test]
fn add_ref_matmut_ref_matmut() {
    let mut a = Mat::from_rows(&[&[1, 2], &[3, 4]]);
    let mut b = Mat::from_rows(&[&[5, 6], &[7, 8]]);
    let am = a.as_mut();
    let bm = b.as_mut();
    let c = &am + &bm;
    assert_eq!(c, Mat::from_rows(&[&[6, 8], &[10, 12]]));
}

#[test]
fn sub_matref_matref() {
    let a = Mat::from_rows(&[&[10, 20], &[30, 40]]);
    let b = Mat::from_rows(&[&[1, 2], &[3, 4]]);
    let c = a.as_ref() - b.as_ref();
    assert_eq!(c, Mat::from_rows(&[&[9, 18], &[27, 36]]));
}

#[test]
fn sub_ref_mat_ref_mat() {
    let a = Mat::from_rows(&[&[10, 20], &[30, 40]]);
    let b = Mat::from_rows(&[&[1, 2], &[3, 4]]);
    let c = &a - &b;
    assert_eq!(c, Mat::from_rows(&[&[9, 18], &[27, 36]]));
}

#[test]
fn sub_mat_mat() {
    let a = Mat::from_rows(&[&[10, 20], &[30, 40]]);
    let b = Mat::from_rows(&[&[1, 2], &[3, 4]]);
    let c = a - b;
    assert_eq!(c, Mat::from_rows(&[&[9, 18], &[27, 36]]));
}

#[test]
fn sub_matmut_matref() {
    let mut a = Mat::from_rows(&[&[10, 20], &[30, 40]]);
    let b = Mat::from_rows(&[&[1, 2], &[3, 4]]);
    let c = a.as_mut() - b.as_ref();
    assert_eq!(c, Mat::from_rows(&[&[9, 18], &[27, 36]]));
}

#[test]
fn mul_matref_scalar() {
    let a = Mat::from_rows(&[&[1, 2], &[3, 4]]);
    let c = a.as_ref() * 10;
    assert_eq!(c, Mat::from_rows(&[&[10, 20], &[30, 40]]));
}

#[test]
fn mul_ref_mat_scalar() {
    let a = Mat::from_rows(&[&[1, 2], &[3, 4]]);
    let c = &a * 10;
    assert_eq!(c, Mat::from_rows(&[&[10, 20], &[30, 40]]));
}

#[test]
fn mul_mat_scalar() {
    let a = Mat::from_rows(&[&[1, 2], &[3, 4]]);
    let c = a * 10;
    assert_eq!(c, Mat::from_rows(&[&[10, 20], &[30, 40]]));
}

#[test]
fn mul_matmut_scalar() {
    let mut a = Mat::from_rows(&[&[1, 2], &[3, 4]]);
    let c = a.as_mut() * 10;
    assert_eq!(c, Mat::from_rows(&[&[10, 20], &[30, 40]]));
}

#[test]
fn mul_scalar_matref() {
    let a = Mat::from_rows(&[&[1, 2], &[3, 4]]);
    let c = 10 * a.as_ref();
    assert_eq!(c, Mat::from_rows(&[&[10, 20], &[30, 40]]));
}

#[test]
fn mul_scalar_ref_mat() {
    let a = Mat::from_rows(&[&[1, 2], &[3, 4]]);
    let c = 10 * &a;
    assert_eq!(c, Mat::from_rows(&[&[10, 20], &[30, 40]]));
}

#[test]
fn mul_scalar_mat() {
    let a = Mat::from_rows(&[&[1, 2], &[3, 4]]);
    let c = 10 * a;
    assert_eq!(c, Mat::from_rows(&[&[10, 20], &[30, 40]]));
}

#[test]
fn mul_scalar_matmut() {
    let mut a = Mat::from_rows(&[&[1, 2], &[3, 4]]);
    let c = 10 * a.as_mut();
    assert_eq!(c, Mat::from_rows(&[&[10, 20], &[30, 40]]));
}

#[test]
fn div_matref_scalar() {
    let a = Mat::from_rows(&[&[10, 20], &[30, 40]]);
    let c = a.as_ref() / 10;
    assert_eq!(c, Mat::from_rows(&[&[1, 2], &[3, 4]]));
}
