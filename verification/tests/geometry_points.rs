use structured_grid::double::Double;
use structured_grid::geometry::point::{Point2D, Point3D};
use structured_grid::geometry::traits::{Dimensioned, Point};
use structured_grid::geometry::vertex::{Dimensions, Direction, Vertex, WriteOrder};
use structured_grid::geometry::vertices::VertexCollectionBuilder;
use structured_grid::utils::error::{GeometryError, MeshError};

fn dbl(x: f64) -> Double {
    Double::from_bits(x.to_bits())
}

fn value(x: Double) -> f64 {
    f64::from_bits(x.to_bits())
}

#[test]
fn test_point2d_creation() {
    let p1 = Point2D::new(dbl(1.0), dbl(2.0));
    assert_eq!(value(p1.x), 1.0);
    assert_eq!(value(p1.y), 2.0);

    let p2 = Point2D::from_coordinates((dbl(3.0), dbl(4.0)));
    assert_eq!(value(p2.x), 3.0);
    assert_eq!(value(p2.y), 4.0);

    let origin = Point2D::origin();
    assert_eq!(value(origin.x), 0.0);
    assert_eq!(value(origin.y), 0.0);
}

#[test]
fn test_point2d_dimensioned() {
    let p = Point2D::new(dbl(1.0), dbl(2.0));
    assert!(p.is_2d());
    assert_eq!(p.dimensions(), 2);
}

#[test]
fn test_point2d_coordinates() {
    let p = Point2D::new(dbl(1.0), dbl(2.0));
    let (x, y) = p.coordinates();
    assert_eq!((value(x), value(y)), (1.0, 2.0));
}

#[test]
fn test_point3d_creation() {
    let p1 = Point3D::new(dbl(1.0), dbl(2.0), dbl(3.0));
    assert_eq!(value(p1.x), 1.0);
    assert_eq!(value(p1.y), 2.0);
    assert_eq!(value(p1.z), 3.0);

    let p2 = Point3D::from_coordinates((dbl(4.0), dbl(5.0), dbl(6.0)));
    assert_eq!(value(p2.x), 4.0);
    assert_eq!(value(p2.y), 5.0);
    assert_eq!(value(p2.z), 6.0);

    let origin = Point3D::origin();
    assert_eq!(value(origin.x), 0.0);
    assert_eq!(value(origin.y), 0.0);
    assert_eq!(value(origin.z), 0.0);
}

#[test]
fn test_point3d_dimensioned() {
    let p = Point3D::new(dbl(1.0), dbl(2.0), dbl(3.0));
    assert!(!p.is_2d());
    assert_eq!(p.dimensions(), 3);
}

#[test]
fn test_point3d_coordinates() {
    let p = Point3D::new(dbl(1.0), dbl(2.0), dbl(3.0));
    let (x, y, z) = p.coordinates();
    assert_eq!((value(x), value(y), value(z)), (1.0, 2.0, 3.0));
}

#[test]
fn test_point_equality() {
    let p1 = Point2D::new(dbl(1.0), dbl(2.0));
    let p2 = Point2D::new(dbl(1.0), dbl(2.0));
    let p3 = Point2D::new(dbl(2.0), dbl(1.0));
    assert_eq!(p1, p2);
    assert_ne!(p1, p3);

    let p4 = Point3D::new(dbl(1.0), dbl(2.0), dbl(3.0));
    let p5 = Point3D::new(dbl(1.0), dbl(2.0), dbl(3.0));
    let p6 = Point3D::new(dbl(3.0), dbl(2.0), dbl(1.0));
    assert_eq!(p4, p5);
    assert_ne!(p4, p6);
}

#[test]
fn test_point_clone() {
    let p1 = Point2D::new(dbl(1.0), dbl(2.0));
    let p2 = p1.clone();
    assert_eq!(p1, p2);

    let p3 = Point3D::new(dbl(1.0), dbl(2.0), dbl(3.0));
    let p4 = p3.clone();
    assert_eq!(p3, p4);
}

#[test]
fn old_test_vertex_creation() {
    let vertex = Vertex { id: 1, coords: Point3D { x: dbl(1.0), y: dbl(2.0), z: dbl(1.0) } };

    assert_eq!(vertex.id, 1);
    assert_eq!(value(vertex.coords.x), 1.0);
    assert_eq!(value(vertex.coords.y), 2.0);
    assert_eq!(value(vertex.coords.z), 1.0);
}

#[test]
fn a_vertex_takes_no_zero_id() {
    assert!(matches!(
        Vertex::new(0, dbl(0.0), dbl(0.0), dbl(1.0)),
        Err(GeometryError::InvalidVertexID)
    ));
    let vertex = Vertex::new(7, dbl(0.5), dbl(-2.0), dbl(1.0)).unwrap();
    assert_eq!(vertex.id, 7);
    assert_eq!(value(vertex.coords.x), 0.5);
    assert_eq!(value(vertex.coords.y), -2.0);
    assert_eq!(value(vertex.coords.z), 1.0);
}

#[test]
fn points_compare_as_numbers_do() {
    // the two zeros are equal, and a NaN equals nothing, itself included
    assert_eq!(Point2D::new(dbl(0.0), dbl(1.0)), Point2D::new(dbl(-0.0), dbl(1.0)));
    assert_ne!(Point2D::new(dbl(f64::NAN), dbl(1.0)), Point2D::new(dbl(f64::NAN), dbl(1.0)));
    assert!(dbl(0.0) == dbl(-0.0));
    assert!(dbl(1.5) == dbl(1.5));
    assert!(dbl(1.5) != dbl(-1.5));
    assert!(dbl(f64::INFINITY) == dbl(f64::INFINITY));
    assert!(dbl(f64::INFINITY) != dbl(f64::NEG_INFINITY));
}

#[test]
fn bit_patterns_are_classified_as_the_numbers_they_stand_for() {
    let samples = [
        0.0,
        -0.0,
        1.0,
        -1.0,
        2.0,
        5e-324,
        -5e-324,
        f64::MAX,
        f64::MIN,
        f64::MIN_POSITIVE,
        f64::INFINITY,
        f64::NEG_INFINITY,
        f64::NAN,
        -f64::NAN,
    ];
    for x in samples {
        let d = dbl(x);
        assert_eq!(d.is_nan(), x.is_nan(), "{x}");
        assert_eq!(d.is_finite(), x.is_finite(), "{x}");
        assert_eq!(d.is_sign_negative(), x.is_sign_negative(), "{x}");
        assert_eq!(d.is_zero(), x == 0.0, "{x}");
        assert_eq!(d.is_positive(), x > 0.0, "{x}");
        assert_eq!(d.is_negative(), x < 0.0, "{x}");
        assert_eq!(d.is_one(), x == 1.0, "{x}");
        for y in samples {
            assert_eq!(d == dbl(y), x == y, "{x} {y}");
        }
    }
    assert_eq!(value(Double::one()), 1.0);
    assert_eq!(value(Double::zero()), 0.0);
    assert!(!Double::zero().is_sign_negative());
}

#[test]
fn test_creation_2d() {
    let builder = VertexCollectionBuilder::new(3, 2);
    assert!(builder.can_build_2d());
    assert!(!builder.can_build_3d());
    let mut collection = builder.build_2d();
    assert!(collection.is_empty());
    for _ in 0..6 {
        collection.add_vertex(dbl(0.0), dbl(0.0), dbl(1.0)).unwrap();
    }
    assert!(matches!(
        collection.add_vertex(dbl(0.0), dbl(0.0), dbl(1.0)),
        Err(GeometryError::VertexLimitExceeded { limit: 6, attempted: 7 })
    ));
}

#[test]
fn a_builder_keeps_layers_and_order() {
    let builder = VertexCollectionBuilder::new(2, 2).with_z(2).with_write_order(WriteOrder::JIK);
    assert!(builder.can_build_3d());
    let mut collection = builder.build_3d();
    for k in 0..8 {
        collection.add_vertex(dbl(0.0), dbl(0.0), dbl(k as f64)).unwrap();
    }
    assert_eq!(collection.total_vertices().unwrap(), 8);
    // under JIK the step north is one id, the step east a column of two
    assert_eq!(
        collection.find_adjacent_vertex(1, Direction::North).unwrap().id,
        2
    );
    assert_eq!(
        collection.find_adjacent_vertex(1, Direction::East).unwrap().id,
        3
    );
    assert!(!VertexCollectionBuilder::new(0, 2).can_build_2d());
    assert!(!VertexCollectionBuilder::new(2, 2).with_z(0).can_build_3d());
    assert!(Dimensions::ThreeDimensions { nx: 2, ny: 2, nz: 2 }.is_valid());
}

#[test]
fn add_f32_f64() {
    let float1: f32 = 1.0;
    let float2: f64 = 2.0;

    // floats have to be of the same type to implement add
    let result = float1 as f64 + float2;
    assert_eq!(result, 3.0);
}

fn plain(x: Double) -> String {
    format!("{}", value(x))
}

fn four_places(x: Double) -> String {
    format!("{:.4}", value(x))
}

#[test]
fn test_point2d_display() {
    let p = Point2D::new(dbl(1.0), dbl(2.0));
    assert_eq!(p.to_text(plain), "Point2D (1, 2)");
}

#[test]
fn test_point3d_display() {
    let p = Point3D::new(dbl(1.0), dbl(2.0), dbl(3.0));
    assert_eq!(p.to_text(plain), "Point3D(1, 2, 3)");
}

#[test]
fn a_vertex_is_written_with_its_id() {
    let vertex = Vertex::new(12, dbl(0.5), dbl(-2.0), dbl(1.0)).unwrap();
    assert_eq!(vertex.to_text(&plain), "vertex 12 at (0.5, -2, 1)");
    assert_eq!(vertex.dump_line(&four_places), "vertex id: 12, x: 0.5000, y: -2.0000, z: 1.0000");
    assert_eq!(vertex.coords.bracketed(&plain), "(0.5, -2, 1)");
}

#[test]
fn geometry_errors_have_messages() {
    let cases = [
        (GeometryError::IncompleteNode { node_id: 3 }, "node: 3 is incomplete"),
        (GeometryError::VertexNotFound { vertex_id: 10 }, "vertex: 10 not found"),
        (
            GeometryError::InvalidDirection { direction: Direction::Up },
            "up not possible for 2D mesh",
        ),
        (
            GeometryError::BoundaryVertex { vertex_id: 9, direction: Direction::North },
            "vertex: 9 is a boundary vertex, nothing exists north of it",
        ),
        (GeometryError::InvalidVertexID, "vertex must have non zero id"),
        (
            GeometryError::VertexLimitExceeded { limit: 9, attempted: 10 },
            "vertex limit exceeded 10 of 9",
        ),
        (
            GeometryError::InvalidVertexCoordinate {
                coordinate: 'z',
                expected: dbl(1.0),
                received: dbl(2.5),
            },
            "z-coordinate must be 1 for a 2D mesh, received 2.5",
        ),
    ];
    for (error, message) in cases {
        assert_eq!(error.message(&plain), message);
    }
}

#[test]
fn mesh_errors_have_messages() {
    let v1 = Vertex::new(1, dbl(0.0), dbl(0.0), dbl(1.0)).unwrap();
    let v2 = Vertex::new(1, dbl(1.0), dbl(0.5), dbl(1.0)).unwrap();
    let cases = [
        (MeshError::EmptyMesh, "mesh is empty"),
        (
            MeshError::DuplicateVertexIds { v1, v2 },
            "duplicate vertices found: vertex 1 at (0, 0, 1), vertex 1 at (1, 0.5, 1)",
        ),
        (
            MeshError::DegenerateGrid { nx: 1, ny: 5 },
            "a mesh needs two points or more along each axis, not 1 by 5",
        ),
        (
            MeshError::GridTooLarge { nx: 65536, ny: 65536 },
            "a mesh of 65536 by 65536 points has more vertices than ids",
        ),
        (
            MeshError::InvalidLength { lenx: dbl(-2.0) },
            "domain length must be greater than zero, received -2",
        ),
        (
            MeshError::InvalidHeight { column: 4, height: dbl(f64::INFINITY) },
            "domain height at column 4 must be finite and not negative, received inf",
        ),
        (MeshError::ColumnCount { expected: 3, received: 2 }, "expected 3 columns, received 2"),
        (
            MeshError::RowCount { column: 1, expected: 5, received: 7 },
            "expected 5 rows in column 1, received 7",
        ),
    ];
    for (error, message) in cases {
        assert_eq!(error.message(&plain), message);
    }
}
