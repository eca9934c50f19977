use structured_grid::utils::matrices::{
    AugmentedMatrix, ColumnVector, Matrix, RowVector, SquareMatrix, Vector,
};

#[test]
fn test_add() {
    let m1 = Matrix::<i32, 2, 2>::from_vec(&vec![1, 2, 3, 4]).unwrap();
    let m2 = Matrix::<i32, 2, 2>::from_vec(&vec![5, 6, 7, 8]).unwrap();
    let result = m1 + m2;
    let expected = Matrix::<i32, 2, 2>::from_vec(&vec![6, 8, 10, 12]).unwrap();
    assert_eq!(result.as_vec(), expected.as_vec());
}

#[test]
fn test_sub() {
    let m1 = Matrix::<i32, 2, 2>::from_vec(&vec![5, 6, 7, 8]).unwrap();
    let m2 = Matrix::<i32, 2, 2>::from_vec(&vec![1, 2, 3, 4]).unwrap();
    let result = m1 - m2;
    let expected = Matrix::<i32, 2, 2>::from_vec(&vec![4, 4, 4, 4]).unwrap();
    assert_eq!(result.as_vec(), expected.as_vec());
}

#[test]
fn test_mul() {
    let m1 = Matrix::<i32, 2, 3>::from_vec(&vec![1, 2, 3, 4, 5, 6]).unwrap();
    let m2 = Matrix::<i32, 3, 2>::from_vec(&vec![7, 8, 9, 10, 11, 12]).unwrap();
    let result = m1 * m2;
    let expected = Matrix::<i32, 2, 2>::from_vec(&vec![58, 64, 139, 154]).unwrap();
    assert_eq!(result.as_vec(), expected.as_vec());
}

#[test]
fn a_vector_of_the_wrong_length_is_refused() {
    assert_eq!(
        Matrix::<i32, 2, 2>::from_vec(&vec![1, 2, 3]).err(),
        Some("vec length does not match matrix dimensions")
    );
    assert_eq!(
        Matrix::<i32, 2, 2>::from_vec(&vec![1, 2, 3, 4, 5]).err(),
        Some("vec length does not match matrix dimensions")
    );
    assert!(Matrix::<u8, 0, 3>::from_vec(&vec![]).is_ok());
}

#[test]
fn constant_matrices() {
    assert_eq!(Matrix::<i64, 2, 3>::new().as_vec(), &vec![0; 6]);
    assert_eq!(Matrix::<i64, 2, 3>::zeros().as_vec(), &vec![0; 6]);
    assert_eq!(Matrix::<u16, 3, 1>::ones().as_vec(), &vec![1; 3]);
    assert_eq!(Vector::<u16, 3>::ones().as_vec(), &vec![1; 3]);
    assert_eq!(RowVector::<i8, 4>::fill(-7).as_vec(), &vec![-7; 4]);
    assert_eq!(SquareMatrix::<i32, 3>::identity().as_vec(), &vec![1, 0, 0, 0, 1, 0, 0, 0, 1]);
    assert_eq!(SquareMatrix::<i32, 1>::identity().as_vec(), &vec![1]);
    let m = Matrix::<i32, 2, 5>::new();
    assert_eq!((m.rows(), m.cols(), m.dims()), (2, 5, (2, 5)));
}

#[test]
fn a_transpose_swaps_rows_and_columns() {
    let m = Matrix::<i32, 2, 3>::from_vec(&vec![1, 2, 3, 4, 5, 6]).unwrap();
    let t = m.transpose().unwrap();
    assert_eq!(t.as_vec(), &vec![1, 4, 2, 5, 3, 6]);
    assert_eq!(t.dims(), (3, 2));
    assert_eq!(t[(2, 1)], 6);
    assert_eq!(m[(1, 2)], 6);
    assert_eq!(t.transpose().unwrap().as_vec(), m.as_vec());
}

#[test]
fn entries_are_read_and_set_by_flat_position() {
    let mut m = Matrix::<i32, 2, 2>::from_vec(&vec![1, 2, 3, 4]).unwrap();
    assert_eq!((m[(0, 0)], m[(0, 1)], m[(1, 0)], m[(1, 1)]), (1, 2, 3, 4));
    m.set((1, 0), 30);
    assert_eq!(m.as_vec(), &vec![1, 2, 30, 4]);
    // a column vector answers for any pair inside its flat range
    let v = ColumnVector::<u8, 10>::ones();
    assert_eq!(v[(1, 1)], 1);
}

#[test]
fn the_identity_is_neutral_for_the_product() {
    let m = Matrix::<i32, 3, 3>::from_vec(&vec![2, -1, 0, 4, 5, -6, 7, 0, 9]).unwrap();
    let left = SquareMatrix::<i32, 3>::identity() * m.clone();
    let right = m.clone() * SquareMatrix::<i32, 3>::identity();
    assert_eq!(left.as_vec(), m.as_vec());
    assert_eq!(right.as_vec(), m.as_vec());
    let row = RowVector::<i32, 3>::from_vec(&vec![1, 2, 3]).unwrap();
    let column = ColumnVector::<i32, 3>::from_vec(&vec![4, 5, 6]).unwrap();
    assert_eq!((row * column).as_vec(), &vec![32]);
}

#[test]
fn elimination_splits_a_matrix_into_two_factors() {
    let a = SquareMatrix::<i64, 3>::from_vec(&vec![2, 1, 1, 4, 3, 3, 8, 7, 9]).unwrap();
    let b = Vector::<i64, 3>::from_vec(&vec![1, 2, 3]).unwrap();
    let (l, u) = AugmentedMatrix::assemble(&a, &b).lu_decomposition();
    assert_eq!(l.as_vec(), &vec![1, 0, 0, 2, 1, 0, 4, 3, 1]);
    assert_eq!(u.as_vec(), &vec![2, 1, 1, 0, 1, 1, 0, 0, 2]);
    // the factors multiply back to the matrix where every division was exact
    assert_eq!((l * u).as_vec(), a.as_vec());
}

#[test]
fn elimination_rounds_its_factors_towards_zero() {
    let a = SquareMatrix::<i32, 2>::from_vec(&vec![2, 0, -3, 1]).unwrap();
    let b = Vector::<i32, 2>::zeros();
    let (l, u) = AugmentedMatrix::assemble(&a, &b).lu_decomposition();
    assert_eq!(l.as_vec(), &vec![1, 0, -1, 1]);
    assert_eq!(u.as_vec(), &vec![2, 0, -1, 1]);
    let one = SquareMatrix::<u8, 1>::from_vec(&vec![0]).unwrap();
    let (l, u) = AugmentedMatrix::assemble(&one, &Vector::<u8, 1>::ones()).lu_decomposition();
    assert_eq!((l.as_vec(), u.as_vec()), (&vec![1], &vec![0]));
}
