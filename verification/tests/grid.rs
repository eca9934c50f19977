use structured_grid::double::Double;
use structured_grid::grid::{Grid2D, GridPoint2D};

fn dbl(x: f64) -> Double {
    Double::from_bits(x.to_bits())
}

fn value(x: Double) -> f64 {
    f64::from_bits(x.to_bits())
}

fn extents_of(points: &[(f64, f64)]) -> (f64, f64, f64, f64) {
    let mut grid = Grid2D::new(points.len().max(1), 1);
    for (x, y) in points {
        grid.add_point(dbl(*x), dbl(*y));
    }
    let (a, b, c, d) = grid.extents();
    (value(a), value(b), value(c), value(d))
}

#[test]
fn points_fill_rows_along_x() {
    let mut grid = Grid2D::new(3, 2);
    assert_eq!(grid.num_pts(), 0);
    for k in 0..6 {
        grid.add_point(dbl(k as f64), dbl(-(k as f64)));
        assert_eq!(grid.num_pts(), k + 1);
    }
    // a full grid takes no more points
    grid.add_point(dbl(100.0), dbl(100.0));
    assert_eq!(grid.num_pts(), 6);
    let (min_x, max_x, min_y, max_y) = grid.extents();
    assert_eq!((value(min_x), value(max_x)), (0.0, 5.0));
    assert_eq!((value(min_y), value(max_y)), (-5.0, 0.0));
}

#[test]
fn a_grid_point_keeps_what_it_was_given() {
    let p = GridPoint2D::new(2, 3, dbl(0.5), dbl(-0.25));
    assert_eq!((p.i, p.j), (2, 3));
    assert_eq!((value(p.x), value(p.y)), (0.5, -0.25));
}

#[test]
fn extents_include_the_origin() {
    assert_eq!(extents_of(&[]), (0.0, 0.0, 0.0, 0.0));
    assert_eq!(extents_of(&[(2.0, 3.0), (5.0, 4.0)]), (0.0, 5.0, 0.0, 4.0));
    assert_eq!(extents_of(&[(-2.0, -3.0), (-5.0, -4.0)]), (-5.0, 0.0, -4.0, 0.0));
    assert_eq!(extents_of(&[(1.0, -1.0), (-1.0, 1.0), (3.0, -3.0)]), (-1.0, 3.0, -3.0, 1.0));
}

#[test]
fn extents_pass_over_what_is_no_number() {
    let (min_x, max_x, min_y, max_y) =
        extents_of(&[(f64::NAN, 1.0), (2.0, f64::NAN), (f64::NEG_INFINITY, f64::INFINITY)]);
    assert_eq!((min_x, max_x), (f64::NEG_INFINITY, 2.0));
    assert_eq!((min_y, max_y), (0.0, f64::INFINITY));
    // a negative zero does not displace the zero that the extents start from
    let (min_x, _, _, _) = extents_of(&[(-0.0, 0.0)]);
    assert!(min_x.is_sign_positive());
}

#[test]
fn numbers_compare_by_their_bit_patterns() {
    let samples = [
        0.0,
        -0.0,
        1.0,
        -1.0,
        1.5,
        -1.5,
        5e-324,
        -5e-324,
        f64::MAX,
        f64::MIN,
        f64::INFINITY,
        f64::NEG_INFINITY,
        f64::NAN,
    ];
    for a in samples {
        for b in samples {
            assert_eq!(dbl(a).lt(&dbl(b)), a < b, "{a} < {b}");
            assert_eq!(dbl(a).gt(&dbl(b)), a > b, "{a} > {b}");
        }
    }
}
