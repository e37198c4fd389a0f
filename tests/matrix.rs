use rustyengine::enums::MatrixifyErr;
use rustyengine::matrixified::{Matrix, Matrixified, Vector};
use rustyengine::num::Num;
use rustyengine::pair::Pair;

fn m(rows: &[&[i64]]) -> Matrix<i64> {
    Matrix::from_rows(rows.iter().map(|r| r.to_vec()).collect()).unwrap()
}

fn rows_of<T: Num + Copy>(x: &Matrix<T>) -> Vec<Vec<T>> {
    let size = x.size();
    (0..size.y).map(|r| (0..size.x).map(|c| x.elem(r, c)).collect()).collect()
}

fn vec_of(v: &Vector<i64>) -> Vec<i64> {
    let size = v.size();
    let mut out = Vec::new();
    for r in 0..size.y {
        for c in 0..size.x {
            out.push(v.elem(r, c));
        }
    }
    out
}

#[test]
fn identity_two_by_two() {
    let mut id = Matrix::<i64>::identity(Pair::new(2, 2)).unwrap();
    assert_eq!(rows_of(&id), vec![vec![1, 0], vec![0, 1]]);
    assert_eq!(id.determinant, Some(1));
    assert_eq!(id.comp_determ(), Ok(()));
    assert_eq!(id.determinant, Some(1));
    let inv = id.inverse().unwrap();
    assert_eq!(rows_of(&inv), rows_of(&id));
}

#[test]
fn identity_needs_square_size() {
    assert_eq!(Matrix::<i64>::identity(Pair::new(2, 3)).err(), Some(MatrixifyErr::NonSquareMatrix));
}

#[test]
fn determinant_and_inverse_of_two_by_two() {
    let mut a = m(&[&[1, 2], &[3, 4]]);
    assert_eq!(a.inverse().err(), Some(MatrixifyErr::UnknownDeterminant));
    a.comp_determ().unwrap();
    assert_eq!(a.determinant, Some(-2));
    // integer division truncates 1.5 to 1 and -0.5 to 0
    assert_eq!(rows_of(&a.inverse().unwrap()), vec![vec![-2, 1], vec![1, 0]]);
}

#[test]
fn determinant_of_three_by_three() {
    let mut a = m(&[&[2, 0, 1], &[1, 1, 0], &[1, 0, 1]]);
    a.comp_determ().unwrap();
    assert_eq!(a.determinant, Some(1));
    let inv = a.inverse().unwrap();
    assert_eq!(rows_of(&inv), vec![vec![1, 0, -1], vec![-1, 1, 1], vec![-1, 0, 2]]);
    let p = a.mul(&inv).unwrap();
    assert_eq!(rows_of(&p), vec![vec![1, 0, 0], vec![0, 1, 0], vec![0, 0, 1]]);
}

#[test]
fn comp_determ_keeps_cached_value() {
    let mut a = m(&[&[1, 2], &[3, 4]]);
    a.determinant = Some(5);
    a.comp_determ().unwrap();
    assert_eq!(a.determinant, Some(5));
}

#[test]
fn comp_determ_needs_square() {
    let mut a = m(&[&[1, 2, 3], &[3, 4, 5]]);
    assert_eq!(a.comp_determ(), Err(MatrixifyErr::NonSquareMatrix));
    assert_eq!(a.determinant, None);
    assert_eq!(a.inverse().err(), Some(MatrixifyErr::NonSquareMatrix));
}

#[test]
fn zero_row_is_singular() {
    let mut a = m(&[&[1, 2, 3], &[0, 0, 0], &[4, 5, 6]]);
    a.comp_determ().unwrap();
    assert_eq!(a.determinant, Some(0));
    assert_eq!(a.inverse().err(), Some(MatrixifyErr::ZeroDeterminant));
}

#[test]
fn equal_rows_are_singular() {
    let mut a = m(&[&[1, 2, 3], &[4, 5, 6], &[1, 2, 3]]);
    a.comp_determ().unwrap();
    assert_eq!(a.determinant, Some(0));
    assert_eq!(a.inverse().err(), Some(MatrixifyErr::ZeroDeterminant));
}

#[test]
fn add_two_by_two() {
    let a = m(&[&[1, 2], &[3, 4]]);
    let b = m(&[&[1, 1], &[1, 1]]);
    assert_eq!(rows_of(&a.add(&b).unwrap()), vec![vec![2, 3], vec![4, 5]]);
    assert_eq!(rows_of(&a.sub(&b).unwrap()), vec![vec![0, 1], vec![2, 3]]);
}

#[test]
fn add_needs_equal_sizes() {
    let a = m(&[&[1, 2], &[3, 4]]);
    let b = m(&[&[1, 2, 3], &[3, 4, 5]]);
    assert_eq!(a.add(&b).err(), Some(MatrixifyErr::InappropriateSizes));
    assert_eq!(a.sub(&b).err(), Some(MatrixifyErr::InappropriateSizes));
}

#[test]
fn multiply_sizes() {
    let a = m(&[&[1, 2, 3], &[4, 5, 6]]);
    let b = m(&[&[7, 8], &[9, 10], &[11, 12]]);
    let ab = a.mul(&b).unwrap();
    assert_eq!(ab.size(), Pair::new(2, 2));
    assert_eq!(rows_of(&ab), vec![vec![58, 64], vec![139, 154]]);
    let ba = b.mul(&a).unwrap();
    assert_eq!(ba.size(), Pair::new(3, 3));
    assert_eq!(rows_of(&ba), vec![vec![39, 54, 69], vec![49, 68, 87], vec![59, 82, 105]]);
}

#[test]
fn multiply_needs_matching_sizes() {
    let a = m(&[&[1, 2, 3], &[4, 5, 6]]);
    assert_eq!(a.mul(&a).err(), Some(MatrixifyErr::InappropriateSizes));
}

#[test]
fn identity_is_neutral_for_product() {
    let a = m(&[&[1, 2, 3], &[4, 5, 6]]);
    let left = Matrix::<i64>::identity(Pair::new(2, 2)).unwrap();
    let right = Matrix::<i64>::identity(Pair::new(3, 3)).unwrap();
    assert_eq!(rows_of(&left.mul(&a).unwrap()), rows_of(&a));
    assert_eq!(rows_of(&a.mul(&right).unwrap()), rows_of(&a));
}

#[test]
fn transpose_is_lazy_and_involutive() {
    let mut a = m(&[&[1, 2, 3], &[4, 5, 6]]);
    assert!(!a.is_transposed());
    a.transpose();
    assert!(a.is_transposed());
    assert_eq!(a.size(), Pair::new(2, 3));
    assert_eq!(rows_of(&a), vec![vec![1, 4], vec![2, 5], vec![3, 6]]);
    a.transpose();
    assert_eq!(a.size(), Pair::new(3, 2));
    assert_eq!(rows_of(&a), vec![vec![1, 2, 3], vec![4, 5, 6]]);
}

#[test]
fn inverse_keeps_orientation() {
    let mut a = m(&[&[1, 0], &[2, 1]]);
    a.comp_determ().unwrap();
    a.transpose();
    let inv = a.inverse().unwrap();
    assert!(inv.is_transposed());
    assert_eq!(rows_of(&inv), vec![vec![1, -2], vec![0, 1]]);
}

#[test]
fn divide_by_matrix() {
    let a = m(&[&[1, 2], &[3, 4]]);
    let mut id = Matrix::<i64>::identity(Pair::new(2, 2)).unwrap();
    id.m(-1);
    assert_eq!(rows_of(&a.div(&id).unwrap()), vec![vec![-1, -2], vec![-3, -4]]);
    let b = m(&[&[1, 2], &[3, 4]]);
    assert_eq!(a.div(&b).err(), Some(MatrixifyErr::UnknownDeterminant));
}

#[test]
fn scalar_updates() {
    let mut a = m(&[&[1, 2], &[3, 4]]);
    a.a(10);
    assert_eq!(rows_of(&a), vec![vec![11, 12], vec![13, 14]]);
    a.s(1);
    assert_eq!(rows_of(&a), vec![vec![10, 11], vec![12, 13]]);
    a.m(2);
    assert_eq!(rows_of(&a), vec![vec![20, 22], vec![24, 26]]);
    a.d(4);
    assert_eq!(rows_of(&a), vec![vec![5, 5], vec![6, 6]]);
    let n = a.neg();
    assert_eq!(rows_of(&n), vec![vec![-5, -5], vec![-6, -6]]);
}

#[test]
fn integer_scalars_wrap() {
    let mut a = m(&[&[i64::MAX, i64::MIN]]);
    a.a(1);
    assert_eq!(rows_of(&a), vec![vec![i64::MIN, i64::MIN + 1]]);
    assert_eq!(i64::MIN.div(-1), i64::MIN);
    assert_eq!(7i64.div(-2), -3);
}

#[test]
fn matrix_as_vector() {
    let row = m(&[&[1, 2, 3]]);
    let v = row.as_vector().unwrap();
    assert!(!v.is_transposed());
    assert_eq!(v.size(), Pair::new(3, 1));
    assert_eq!(vec_of(&v), vec![1, 2, 3]);
    let col = m(&[&[4], &[5], &[6]]);
    let v = col.as_vector().unwrap();
    assert_eq!(v.size(), Pair::new(3, 1));
    assert_eq!(vec_of(&v), vec![4, 5, 6]);
    let square = m(&[&[1, 2], &[3, 4]]);
    assert_eq!(square.as_vector().err(), Some(MatrixifyErr::NotAVector));
}

#[test]
fn vector_arithmetic() {
    let mut a = Vector::<i64>::fill_with(Pair::new(3, 1), 2);
    let mut b = Vector::<i64>::zeros(Pair::new(3, 1));
    b.set_elem(0, 1, 5);
    assert_eq!(vec_of(&a.add(&b).unwrap()), vec![2, 7, 2]);
    assert_eq!(vec_of(&a.sub(&b).unwrap()), vec![2, -3, 2]);
    a.transpose();
    assert_eq!(a.size(), Pair::new(1, 3));
    assert_eq!(a.add(&b).err(), Some(MatrixifyErr::InappropriateSizes));
    let outer = a.mul(&b).unwrap();
    assert_eq!(rows_of(&outer), vec![vec![0, 10, 0], vec![0, 10, 0], vec![0, 10, 0]]);
    let inner = b.mul(&a).unwrap();
    assert_eq!(rows_of(&inner), vec![vec![10]]);
    b.transpose();
    let sum = a.add(&b).unwrap();
    assert!(!sum.is_transposed());
    assert_eq!(vec_of(&sum), vec![2, 7, 2]);
    assert_eq!(vec_of(&a.neg()), vec![-2, -2, -2]);
}

#[test]
fn vector_and_matrix_combine() {
    let v = Vector::<i64>::fill_with(Pair::new(2, 1), 1);
    let a = m(&[&[1, 2]]);
    assert_eq!(rows_of(&a.add(&v).unwrap()), vec![vec![2, 3]]);
    assert_eq!(vec_of(&v.add(&a).unwrap()), vec![2, 3]);
    let sq = m(&[&[1, 2], &[3, 4]]);
    assert_eq!(rows_of(&v.mul(&sq).unwrap()), vec![vec![4, 6]]);
}


#[test]
fn transpose_flips_flag_and_keeps_determinant() {
    let mut a = m(&[&[1, 2], &[3, 4]]);
    a.comp_determ().unwrap();
    a.transpose();
    assert!(a.is_transposed());
    assert_eq!(a.determinant, Some(-2));
    a.transpose();
    assert!(!a.is_transposed());
    assert_eq!(a.determinant, Some(-2));
}

#[test]
fn results_are_fresh_untransposed_matrices() {
    let mut a = m(&[&[1, 2], &[3, 4]]);
    a.comp_determ().unwrap();
    a.transpose();
    let s = a.add(&a).unwrap();
    assert!(!s.is_transposed());
    assert_eq!(s.determinant, None);
    let p = a.mul(&a).unwrap();
    assert!(!p.is_transposed());
    assert_eq!(p.determinant, None);
    assert_eq!(rows_of(&p), vec![vec![7, 15], vec![10, 22]]);
}

#[test]
fn scalar_update_keeps_flag_and_stale_determinant() {
    let mut a = m(&[&[1, 2], &[3, 4]]);
    a.comp_determ().unwrap();
    a.transpose();
    a.m(2);
    assert!(a.is_transposed());
    assert_eq!(a.determinant, Some(-2));
    assert_eq!(rows_of(&a), vec![vec![2, 6], vec![4, 8]]);
}

#[test]
fn one_element_vector_tracks_flag() {
    let mut v = Vector::<i64>::zeros(Pair::new(1, 1));
    assert!(!v.is_transposed());
    v.transpose();
    assert!(v.is_transposed());
    assert_eq!(v.size(), Pair::new(1, 1));
    let z = Matrix::<i64>::zeros(Pair::new(3, 2));
    assert!(!z.is_transposed());
    assert_eq!(z.determinant, None);
}

#[test]
fn equal_rows_two_by_two_are_singular() {
    let mut a = m(&[&[3, -7], &[3, -7]]);
    a.comp_determ().unwrap();
    assert_eq!(a.determinant, Some(0));
    assert_eq!(a.inverse().err(), Some(MatrixifyErr::ZeroDeterminant));
}
