use structured_grid::point::{DynamicPoint, Point, Point1D, Point2D, Point3D};

#[test]
fn test_point_creation() {
    let point = Point::<i32, 3>::from([1, 2, 3]);
    assert_eq!(point.to_array(), [1, 2, 3]);
}

#[test]
fn test_point_origin() {
    let origin = Point::<i32, 3>::origin();
    assert_eq!(origin.to_array(), [0, 0, 0]);
}

#[test]
fn test_point_addition() {
    let p1 = Point::<i32, 3>::from([1, 2, 3]);
    let p2 = Point::<i32, 3>::from([4, 5, 6]);
    let result = p1 + p2;
    assert_eq!(result.to_array(), [5, 7, 9]);
}

#[test]
fn test_point_subtraction() {
    let p1 = Point3D::<i32>::from([4, 5, 6]);
    let p2 = Point3D::<i32>::from([1, 2, 3]);
    let result = p1 - p2;
    assert_eq!(result.to_array(), [3, 3, 3]);
}

#[test]
fn test_point_from_tuple() {
    let point = Point::<i32, 2>::from((4, 5));
    assert_eq!(point.to_array(), [4, 5]);
}

#[test]
fn a_new_point_is_the_origin() {
    assert_eq!(Point::<u8, 4>::new().to_array(), [0, 0, 0, 0]);
    assert_eq!(Point::<i64, 2>::new(), Point::<i64, 2>::origin());
    assert_eq!(Point::<i64, 0>::new().to_array(), []);
}

#[test]
fn coordinates_are_read_by_name_and_by_index() {
    let p = Point3D::<i16>::from_array([7, -8, 9]);
    assert_eq!((p.x(), p.y(), p.z()), (7, -8, 9));
    assert_eq!((p[0], p[1], p[2]), (7, -8, 9));
    let q = Point2D::<u64>::from_array([10, 20]);
    assert_eq!((q.x(), q.y()), (10, 20));
    let r = Point1D::<usize>::from_array([5]);
    assert_eq!(r.x(), 5);
    let mut m = Point3D::<i16>::from_array([1, 2, 3]);
    m.set(1, 40);
    assert_eq!(m.to_array(), [1, 40, 3]);
}

#[test]
fn sums_reach_the_ends_of_the_type() {
    let a = Point::<i8, 2>::from_array([100, -100]);
    let b = Point::<i8, 2>::from_array([27, -28]);
    assert_eq!((a + b).to_array(), [127, -128]);
    let c = Point::<u8, 2>::from_array([255, 1]);
    let d = Point::<u8, 2>::from_array([255, 1]);
    assert_eq!((c - d).to_array(), [0, 0]);
}

#[test]
fn dynamic_points_have_a_chosen_length() {
    for n in 0..3usize {
        let p = DynamicPoint::<i32>::new(n);
        assert_eq!(p.dimensions(), n);
        assert_eq!(p.as_vec(), &vec![0; n]);
        assert_eq!(p, DynamicPoint::<i32>::origin(n));
    }
    let mut p = DynamicPoint::<i32>::from(vec![3, 1, 4]);
    assert_eq!(p.dimensions(), 3);
    assert_eq!((p[0], p[1], p[2]), (3, 1, 4));
    p.set(2, 5);
    assert_eq!(p.as_vec(), &vec![3, 1, 5]);
    let q = DynamicPoint::<u8>::from([1u8, 2u8]);
    assert_eq!(q, DynamicPoint::<u8>::from_vec(vec![1, 2]));
}

#[test]
fn test_point_display() {
    let point = Point::<i32, 3>::from([1, 2, 3]);
    assert_eq!(point.to_text(), "(1, 2, 3)");
}

#[test]
fn points_of_any_length_are_written_between_brackets() {
    assert_eq!(Point::<i8, 0>::new().to_text(), "()");
    assert_eq!(Point1D::<i8>::from_array([-5]).to_text(), "(-5)");
    assert_eq!(Point2D::<u64>::from_array([0, 18446744073709551615]).to_text(), "(0, 18446744073709551615)");
    assert_eq!(DynamicPoint::<i32>::from_vec(vec![]).to_text(), "()");
    assert_eq!(DynamicPoint::<i32>::from_vec(vec![7, -8, 9, 10]).to_text(), "(7, -8, 9, 10)");
}
