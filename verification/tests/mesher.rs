use structured_grid::double::Double;
use structured_grid::geometry::vertex::Direction;
use structured_grid::mesher::{
    build_grid, check_height, check_request, Column, Mesh, WallDistribution,
};
use structured_grid::utils::error::MeshError;

fn dbl(x: f64) -> Double {
    Double::from_bits(x.to_bits())
}

fn value(x: Double) -> f64 {
    f64::from_bits(x.to_bits())
}

/// The columns of a uniform grid under the contour `height`.
fn uniform_columns(nx: u32, ny: u32, lenx: f64, height: impl Fn(f64) -> f64) -> Vec<Column> {
    let dx = lenx / (nx as f64 - 1.0);
    let mut columns = Vec::new();
    for i in 0..nx {
        let x = i as f64 * dx;
        let leny = height(x);
        let dy = leny / (ny as f64 - 1.0);
        let rows = (0..ny).map(|j| dbl(j as f64 * dy)).collect();
        columns.push(Column { x: dbl(x), height: dbl(leny), rows });
    }
    columns
}

#[test]
fn uniform_two_by_two_grid() {
    let columns = uniform_columns(2, 2, 1.0, |_| 1.0);
    let grid = build_grid(2, 2, dbl(1.0), &columns).unwrap();
    let expected = [(0.0, 0.0), (0.0, 1.0), (1.0, 0.0), (1.0, 1.0)];
    assert_eq!(grid.len(), 4);
    for (k, (x, y)) in expected.iter().enumerate() {
        let vertex = grid.find_vertex(k as u32 + 1).unwrap();
        assert_eq!(vertex.id, k as u32 + 1);
        assert_eq!(value(vertex.coords.x), *x);
        assert_eq!(value(vertex.coords.y), *y);
        assert_eq!(value(vertex.coords.z), 1.0);
    }
    assert!(grid.find_vertex(5).is_err());
}

#[test]
fn a_built_three_by_three_grid_is_dense() {
    let columns = uniform_columns(3, 3, 2.0, |x| 1.0 + x);
    let grid = build_grid(3, 3, dbl(2.0), &columns).unwrap();
    for k in 1..=9 {
        assert_eq!(grid.find_vertex(k).unwrap().id, k);
    }
    assert!(grid.find_vertex(0).is_err());
    assert!(grid.find_vertex(10).is_err());
    // vertex 6 is the top of the second column, where the domain is 2 high
    let top = grid.find_vertex(6).unwrap();
    assert_eq!(value(top.coords.x), 1.0);
    assert_eq!(value(top.coords.y), 2.0);
    // the grid is indexed in IJK order
    assert_eq!(grid.find_adjacent_vertex(5, Direction::North).unwrap().id, 8);
    assert_eq!(grid.find_adjacent_vertex(5, Direction::East).unwrap().id, 6);
    let (xs, ys) = grid.coordinate_columns();
    assert_eq!(xs.len(), 9);
    assert_eq!(value(xs[3]), 1.0);
    assert_eq!(value(ys[8]), 3.0);
}

#[test]
fn a_request_is_tested_before_anything_else() {
    let none: Vec<Column> = Vec::new();
    assert!(matches!(
        build_grid(1, 5, dbl(1.0), &none),
        Err(MeshError::DegenerateGrid { nx: 1, ny: 5 })
    ));
    assert!(matches!(
        build_grid(5, 1, dbl(-1.0), &none),
        Err(MeshError::DegenerateGrid { nx: 5, ny: 1 })
    ));
    assert!(matches!(
        check_request(0, 0, dbl(1.0)),
        Err(MeshError::DegenerateGrid { nx: 0, ny: 0 })
    ));
    assert!(matches!(
        check_request(65536, 65536, dbl(1.0)),
        Err(MeshError::GridTooLarge { nx: 65536, ny: 65536 })
    ));
    assert!(matches!(
        check_request(65535, 65537, dbl(1.0)),
        Err(MeshError::GridTooLarge { .. })
    ));
    assert!(check_request(65535, 65536, dbl(1.0)).is_ok());
    for lenx in [0.0, -0.0, -2.5, f64::NAN, f64::NEG_INFINITY] {
        match build_grid(2, 2, dbl(lenx), &none) {
            Err(MeshError::InvalidLength { lenx: got }) => {
                assert_eq!(got.to_bits(), lenx.to_bits())
            }
            other => panic!("expected an invalid length, got {:?}", other.map(|_| ())),
        }
    }
    assert!(check_request(2, 2, dbl(1e-300)).is_ok());
    assert!(matches!(
        build_grid(2, 2, dbl(1.0), &none),
        Err(MeshError::ColumnCount { expected: 2, received: 0 })
    ));
}

#[test]
fn the_first_faulty_column_is_reported() {
    let mut columns = uniform_columns(3, 2, 1.0, |_| 1.0);
    columns[2].rows.pop();
    assert!(matches!(
        build_grid(3, 2, dbl(1.0), &columns),
        Err(MeshError::RowCount { column: 2, expected: 2, received: 1 })
    ));
    columns[1].height = dbl(-0.5);
    match build_grid(3, 2, dbl(1.0), &columns) {
        Err(MeshError::InvalidHeight { column: 1, height }) => assert_eq!(value(height), -0.5),
        other => panic!("expected an invalid height, got {:?}", other.map(|_| ())),
    }
    columns[0].height = dbl(f64::INFINITY);
    columns[0].rows.clear();
    assert!(matches!(
        build_grid(3, 2, dbl(1.0), &columns),
        Err(MeshError::InvalidHeight { column: 0, .. })
    ));
}

#[test]
fn heights_must_be_finite_and_not_negative() {
    for h in [0.0, -0.0, 1.0, 1e308, 5e-324] {
        assert!(check_height(3, dbl(h)).is_ok(), "{h}");
    }
    for h in [-1.0, -5e-324, f64::INFINITY, f64::NEG_INFINITY, f64::NAN] {
        assert!(
            matches!(check_height(3, dbl(h)), Err(MeshError::InvalidHeight { column: 3, .. })),
            "{h}"
        );
    }
}

#[test]
fn the_clustering_factor_defaults_to_two() {
    assert_eq!(WallDistribution::Uniform.clustering_factor(None), None);
    assert_eq!(WallDistribution::Uniform.clustering_factor(Some(dbl(5.0))), None);
    let kinds = [WallDistribution::HyperbolicTangent, WallDistribution::TopClusteredTangent];
    for kind in kinds {
        assert_eq!(value(kind.clustering_factor(None).unwrap()), 2.0);
        assert_eq!(value(kind.clustering_factor(Some(dbl(5.0))).unwrap()), 5.0);
    }
}

#[test]
fn a_tangent_column_is_stored_as_computed() {
    // the hyperbolic-tangent rows span twice the local height
    let (nx, ny, beta) = (2u32, 5u32, 2.0f64);
    let mut columns = Vec::new();
    for i in 0..nx {
        let x = i as f64 * 1.0;
        let leny = 1.0 + x;
        let rows = (0..ny)
            .map(|j| {
                let eta = j as f64 / (ny as f64 - 1.0);
                dbl(leny * (1.0 + (beta * (eta - 0.5)).tanh() / (beta / 2.0).tanh()))
            })
            .collect();
        columns.push(Column { x: dbl(x), height: dbl(leny), rows });
    }
    let grid = build_grid(nx, ny, dbl(1.0), &columns).unwrap();
    assert_eq!(value(grid.find_vertex(1).unwrap().coords.y), 0.0);
    assert_eq!(value(grid.find_vertex(3).unwrap().coords.y), 1.0);
    assert_eq!(value(grid.find_vertex(5).unwrap().coords.y), 2.0);
    assert_eq!(value(grid.find_vertex(10).unwrap().coords.y), 4.0);
    assert_eq!(value(grid.find_vertex(10).unwrap().coords.x), 1.0);
}

fn four_places(x: Double) -> String {
    format!("{:.4}", value(x))
}

#[test]
fn a_mesh_holds_the_grid_built_last() {
    let mut mesh = Mesh::new();
    assert!(mesh.grid().is_none());
    assert!(mesh.vertex_dump(&four_places).is_empty());
    assert_eq!(mesh.points().0.len(), 0);

    let columns = uniform_columns(2, 2, 1.0, |_| 1.0);
    mesh.create_mesh_2d(2, 2, dbl(1.0), &columns).unwrap();
    assert_eq!(mesh.grid().unwrap().len(), 4);
    assert_eq!(
        mesh.vertex_dump(&four_places),
        vec![
            "vertex id: 1, x: 0.0000, y: 0.0000, z: 1.0000",
            "vertex id: 2, x: 0.0000, y: 1.0000, z: 1.0000",
            "vertex id: 3, x: 1.0000, y: 0.0000, z: 1.0000",
            "vertex id: 4, x: 1.0000, y: 1.0000, z: 1.0000",
        ]
    );
    let (xs, ys) = mesh.points();
    assert_eq!(xs.iter().map(|x| value(*x)).collect::<Vec<_>>(), vec![0.0, 0.0, 1.0, 1.0]);
    assert_eq!(ys.iter().map(|y| value(*y)).collect::<Vec<_>>(), vec![0.0, 1.0, 0.0, 1.0]);

    // a fault leaves the mesh as it was
    assert!(matches!(
        mesh.create_mesh_2d(3, 2, dbl(1.0), &columns),
        Err(MeshError::ColumnCount { expected: 3, received: 2 })
    ));
    assert_eq!(mesh.grid().unwrap().len(), 4);
}
