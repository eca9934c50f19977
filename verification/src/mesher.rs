//! Meshes over a domain of varying height: the request, the columns that the
//! wall-distribution formulas give, and their assembly into a grid.

use vstd::prelude::*;
use crate::double::{Double, ONE_BITS, TWO_BITS};
use crate::geometry::point::Point3D;
use crate::geometry::vertex::{Dimensions, Vertex, VertexCollection, WriteOrder};
use crate::text::writes_all;
use crate::utils::error::MeshError;
use crate::utils::flat_index::lemma_join;

verus! {

/// How the rows of a column are spaced between the wall at `y = 0` and the
/// local height of the domain.
#[derive(Debug, Clone, Copy, PartialEq, Eq, Structural)]
pub enum WallDistribution {
    /// Equal spacing.
    Uniform,
    /// Spacing by a hyperbolic tangent centred on mid-height.
    HyperbolicTangent,
    /// Spacing by a hyperbolic tangent anchored at the wall.
    TopClusteredTangent,
}

impl WallDistribution {
    /// The clustering factor that a distribution works with: none for
    /// `Uniform`; for the tangent kinds the caller's, or `2.0` without one.
    pub open spec fn clustering_factor_spec(self, beta: Option<Double>) -> Option<Double> {
        match self {
            WallDistribution::Uniform => None,
            _ => match beta {
                Some(b) => Some(b),
                None => Some(Double { bits: TWO_BITS }),
            },
        }
    }

    pub fn clustering_factor(self, beta: Option<Double>) -> (r: Option<Double>)
        ensures
            r == self.clustering_factor_spec(beta),
    {
        match self {
            WallDistribution::Uniform => None,
            _ => match beta {
                Some(b) => Some(b),
                None => Some(Double::from_bits(TWO_BITS)),
            },
        }
    }
}

/// One column of a grid as the coordinate formulas left it: its position
/// along x, the height of the domain there, and its rows from the wall up.
#[derive(Debug)]
pub struct Column {
    pub x: Double,
    pub height: Double,
    pub rows: Vec<Double>,
}

/// A height is usable when it is finite and not below zero.
pub open spec fn height_usable(height: Double) -> bool {
    height.is_finite_spec() && !height.is_negative_spec()
}

/// What is wrong with a request for an `nx` by `ny` grid over a domain of
/// length `lenx`, if anything: the first of too few points along an axis,
/// more vertices than ids, and a length that is not greater than zero.
pub open spec fn request_fault(nx: u32, ny: u32, lenx: Double) -> Option<MeshError> {
    if nx < 2 || ny < 2 {
        Some(MeshError::DegenerateGrid { nx, ny })
    } else if nx * ny >= u32::MAX {
        Some(MeshError::GridTooLarge { nx, ny })
    } else if !lenx.is_positive_spec() {
        Some(MeshError::InvalidLength { lenx })
    } else {
        None
    }
}

/// What is wrong with the column at `index` of a grid with `ny` rows, if
/// anything: an unusable height first, then a wrong number of rows.
pub open spec fn column_fault(column: Column, index: int, ny: u32) -> Option<MeshError> {
    if !height_usable(column.height) {
        Some(MeshError::InvalidHeight { column: index as u32, height: column.height })
    } else if column.rows@.len() != ny {
        Some(
            MeshError::RowCount {
                column: index as u32,
                expected: ny,
                received: column.rows@.len() as usize,
            },
        )
    } else {
        None
    }
}

/// The vertex at position `k` of a grid built from `columns`: vertices run
/// up each column in turn, so it is row `k % ny` of column `k / ny`.
pub open spec fn mesh_vertex(columns: Seq<Column>, ny: u32, k: int) -> Vertex {
    Vertex {
        id: (k + 1) as u32,
        coords: Point3D {
            x: columns[k / (ny as int)].x,
            y: columns[k / (ny as int)].rows@[k % (ny as int)],
            z: Double { bits: ONE_BITS },
        },
    }
}

/// Row `j` of column `i` becomes the vertex with the id `i * ny + j + 1`, at
/// the column's `x` and the row's `y`, in the plane `z = 1.0`.
pub proof fn lemma_mesh_vertex_of_row(columns: Seq<Column>, nx: u32, ny: u32, i: int, j: int)
    requires
        0 <= i < nx,
        0 <= j < ny,
        nx * ny < u32::MAX,
    ensures
        0 <= i * ny + j < nx * ny,
        mesh_vertex(columns, ny, i * ny + j) == (Vertex {
            id: (i * ny + j + 1) as u32,
            coords: Point3D { x: columns[i].x, y: columns[i].rows@[j], z: Double { bits: ONE_BITS } },
        }),
{
    lemma_join(i, j, ny as int, nx as int);
    assert(ny * nx == nx * ny) by (nonlinear_arith);
}

/// Tests a height that a contour gave for a column.
pub fn check_height(column: u32, height: Double) -> (r: Result<(), MeshError>)
    ensures
        height_usable(height) ==> r == Ok::<(), MeshError>(()),
        !height_usable(height) ==> r == Err::<(), MeshError>(
            MeshError::InvalidHeight { column, height },
        ),
{
    if height.is_finite() && !height.is_negative() {
        Ok(())
    } else {
        Err(MeshError::InvalidHeight { column, height })
    }
}

/// Tests a request for a grid before any coordinate is computed.
pub fn check_request(nx: u32, ny: u32, lenx: Double) -> (r: Result<(), MeshError>)
    ensures
        r == (match request_fault(nx, ny, lenx) {
            Some(e) => Err::<(), MeshError>(e),
            None => Ok::<(), MeshError>(()),
        }),
{
    if nx < 2 || ny < 2 {
        return Err(MeshError::DegenerateGrid { nx, ny });
    }
    assert(nx * ny <= 0xFFFF_FFFF * 0xFFFF_FFFF) by (nonlinear_arith)
        requires
            0 <= nx <= 0xFFFF_FFFF,
            0 <= ny <= 0xFFFF_FFFF,
    ;
    let count: u64 = (nx as u64) * (ny as u64);
    if count >= 0xFFFF_FFFF {
        return Err(MeshError::GridTooLarge { nx, ny });
    }
    if !lenx.is_positive() {
        return Err(MeshError::InvalidLength { lenx });
    }
    Ok(())
}

/// Whether `e` is the first fault of a request for an `nx` by `ny` grid over
/// a domain of length `lenx` with the given columns: the request is tested
/// first, then the number of columns, then the columns from the first on.
pub open spec fn is_first_fault(
    nx: u32,
    ny: u32,
    lenx: Double,
    columns: Seq<Column>,
    e: MeshError,
) -> bool {
    ||| request_fault(nx, ny, lenx) == Some(e)
    ||| {
        &&& request_fault(nx, ny, lenx) is None
        &&& columns.len() != nx
        &&& e == (MeshError::ColumnCount { expected: nx, received: columns.len() as usize })
    }
    ||| {
        &&& request_fault(nx, ny, lenx) is None
        &&& columns.len() == nx
        &&& exists|i: int|
            {
                &&& 0 <= i < nx
                &&& #[trigger] column_fault(columns[i], i, ny) == Some(e)
                &&& forall|j: int| 0 <= j < i ==> column_fault(#[trigger] columns[j], j, ny) is None
            }
    }
}

/// Whether nothing is wrong with the request and the columns.
pub open spec fn is_faultless(nx: u32, ny: u32, lenx: Double, columns: Seq<Column>) -> bool {
    &&& request_fault(nx, ny, lenx) is None
    &&& columns.len() == nx
    &&& forall|i: int| 0 <= i < nx ==> column_fault(#[trigger] columns[i], i, ny) is None
}

/// Whether `grid` is the full two-dimensional grid of `nx` by `ny` vertices
/// with the given columns, under the `IJK` order: vertex `k` is
/// `mesh_vertex(columns, ny, k - 1)`.
pub open spec fn is_grid_of(grid: VertexCollection, nx: u32, ny: u32, columns: Seq<Column>) -> bool {
    &&& grid.wf()
    &&& grid.shape() == (Dimensions::TwoDimensions { nx, ny })
    &&& grid.order() == WriteOrder::IJK
    &&& grid.is_full()
    &&& grid@.len() == nx * ny
    &&& forall|k: int| 0 <= k < nx * ny ==> #[trigger] grid@[k] == mesh_vertex(columns, ny, k)
}

/// Builds the two-dimensional grid of `nx` by `ny` vertices whose columns
/// are given, under the `IJK` order.
///
/// The request is tested first, then the number of columns, then the columns
/// from the first on; the first fault found is the error. Without a fault
/// the grid is full, with `z` pinned to `1.0`.
pub fn build_grid(nx: u32, ny: u32, lenx: Double, columns: &Vec<Column>) -> (r: Result<
    VertexCollection,
    MeshError,
>)
    ensures
        match r {
            Ok(grid) => is_faultless(nx, ny, lenx, columns@) && is_grid_of(grid, nx, ny, columns@),
            Err(e) => is_first_fault(nx, ny, lenx, columns@, e),
        },
{
    match check_request(nx, ny, lenx) {
        Ok(()) => {},
        Err(e) => {
            return Err(e);
        },
    }
    if columns.len() != nx as usize {
        return Err(MeshError::ColumnCount { expected: nx, received: columns.len() });
    }
    let shape = Dimensions::TwoDimensions { nx, ny };
    assert(shape.total() == nx * ny) by (nonlinear_arith)
        requires
            shape.total() == (nx as int) * (ny as int) * 1,
    ;
    let mut collection = VertexCollection::new(shape, WriteOrder::IJK);
    let mut i: u32 = 0;
    while i < nx
        invariant
            0 <= i <= nx,
            ny >= 2,
            request_fault(nx, ny, lenx) is None,
            columns@.len() == nx,
            nx * ny < u32::MAX,
            collection.wf(),
            collection.shape() == (Dimensions::TwoDimensions { nx, ny }),
            collection.shape().total() == nx * ny,
            collection.order() == WriteOrder::IJK,
            collection@.len() == i * ny,
            forall|c: int| 0 <= c < i ==> column_fault(#[trigger] columns@[c], c, ny) is None,
            forall|k: int|
                0 <= k < i * ny ==> #[trigger] collection@[k] == mesh_vertex(columns@, ny, k),
        decreases nx - i,
    {
        let column = &columns[i as usize];
        match check_height(i, column.height) {
            Ok(()) => {},
            Err(e) => {
                assert(column_fault(columns@[i as int], i as int, ny) == Some(e));
                return Err(e);
            },
        }
        if column.rows.len() != ny as usize {
            let e = MeshError::RowCount {
                column: i,
                expected: ny,
                received: column.rows.len(),
            };
            assert(column_fault(columns@[i as int], i as int, ny) == Some(e));
            return Err(e);
        }
        let mut j: u32 = 0;
        while j < ny
            invariant
                0 <= i < nx,
                0 <= j <= ny,
                ny >= 2,
                columns@.len() == nx,
                *column == columns@[i as int],
                column.rows@.len() == ny,
                nx * ny < u32::MAX,
                collection.wf(),
                collection.shape() == (Dimensions::TwoDimensions { nx, ny }),
                collection.shape().total() == nx * ny,
                collection.order() == WriteOrder::IJK,
                collection@.len() == i * ny + j,
                forall|k: int|
                    0 <= k < i * ny + j ==> #[trigger] collection@[k] == mesh_vertex(
                        columns@,
                        ny,
                        k,
                    ),
            decreases ny - j,
        {
            proof {
                lemma_join(i as int, j as int, ny as int, nx as int);
                assert(ny * nx == nx * ny) by (nonlinear_arith);
            }
            let ghost before = collection@;
            match collection.add_vertex(column.x, column.rows[j as usize], Double::one()) {
                Ok(()) => {},
                Err(_) => {
                    assert(false);
                },
            }
            assert(collection@[i * ny + j] == mesh_vertex(columns@, ny, i * ny + j));
            assert forall|k: int| 0 <= k < i * ny + j + 1 implies #[trigger] collection@[k]
                == mesh_vertex(columns@, ny, k) by {
                if k < i * ny + j {
                    assert(collection@[k] == before[k]);
                }
            }
            j = j + 1;
        }
        assert((i + 1) * ny == i * ny + ny) by (nonlinear_arith);
        i = i + 1;
    }
    Ok(collection)
}

/// A mesh over a domain: empty at first, then the grid that was built last.
pub struct Mesh {
    vertices: Option<VertexCollection>,
}

impl View for Mesh {
    type V = Seq<Vertex>;

    /// The vertices in ascending order of id; none before a grid is built.
    closed spec fn view(&self) -> Seq<Vertex> {
        match self.vertices {
            Some(grid) => grid@,
            None => Seq::empty(),
        }
    }
}

impl Mesh {
    /// The grid of the mesh, once one has been built.
    pub closed spec fn grid_spec(&self) -> Option<VertexCollection> {
        self.vertices
    }

    /// A mesh without a grid.
    pub fn new() -> (mesh: Mesh)
        ensures
            mesh.grid_spec() is None,
            mesh@ == Seq::<Vertex>::empty(),
    {
        Mesh { vertices: None }
    }

    /// The grid of the mesh, once one has been built.
    pub fn grid(&self) -> (grid: Option<&VertexCollection>)
        ensures
            match grid {
                Some(g) => self.grid_spec() == Some(*g) && g@ == self@,
                None => self.grid_spec() is None && self@.len() == 0,
            },
    {
        self.vertices.as_ref()
    }

    /// Builds the grid of `nx` by `ny` vertices with the given columns and
    /// makes it the grid of the mesh. A fault leaves the mesh as it was.
    pub fn create_mesh_2d(
        &mut self,
        nx: u32,
        ny: u32,
        lenx: Double,
        columns: &Vec<Column>,
    ) -> (r: Result<(), MeshError>)
        ensures
            match r {
                Ok(()) => {
                    &&& is_faultless(nx, ny, lenx, columns@)
                    &&& final(self).grid_spec() is Some
                    &&& is_grid_of(final(self).grid_spec()->Some_0, nx, ny, columns@)
                    &&& final(self)@ == final(self).grid_spec()->Some_0@
                },
                Err(e) => is_first_fault(nx, ny, lenx, columns@, e) && *final(self) == *old(self),
            },
    {
        match build_grid(nx, ny, lenx, columns) {
            Ok(grid) => {
                self.vertices = Some(grid);
                Ok(())
            },
            Err(e) => Err(e),
        }
    }

    /// The lines of a dump of the mesh: one for each vertex, in ascending
    /// order of id, with the coordinates as `number` writes them.
    pub fn vertex_dump<F: Fn(Double) -> String>(&self, number: &F) -> (lines: Vec<String>)
        requires
            writes_all(*number),
        ensures
            lines@.len() == self@.len(),
            forall|k: int|
                0 <= k < self@.len() ==> (#[trigger] self@[k]).is_dump_line(*number, lines@[k]@),
    {
        let mut lines: Vec<String> = Vec::new();
        match &self.vertices {
            Some(grid) => {
                let vertices = grid.vertices();
                let n: usize = vertices.len();
                let mut k: usize = 0;
                while k < n
                    invariant
                        k <= n,
                        n == vertices@.len(),
                        vertices@ == self@,
                        writes_all(*number),
                        lines@.len() == k,
                        forall|i: int|
                            0 <= i < k ==> (#[trigger] self@[i]).is_dump_line(
                                *number,
                                lines@[i]@,
                            ),
                    decreases n - k,
                {
                    lines.push(vertices[k].dump_line(number));
                    k = k + 1;
                }
            },
            None => {},
        }
        lines
    }

    /// The x and the y of every vertex, as two sequences in ascending order
    /// of id: the points that a plot of the mesh shows.
    pub fn points(&self) -> (r: (Vec<Double>, Vec<Double>))
        ensures
            r.0@.len() == self@.len(),
            r.1@.len() == self@.len(),
            forall|i: int| 0 <= i < self@.len() ==> r.0@[i] == (#[trigger] self@[i]).coords.x,
            forall|i: int| 0 <= i < self@.len() ==> r.1@[i] == (#[trigger] self@[i]).coords.y,
    {
        match &self.vertices {
            Some(grid) => grid.coordinate_columns(),
            None => (Vec::new(), Vec::new()),
        }
    }
}

} // verus!
