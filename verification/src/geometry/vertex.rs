//! Vertices, the shape and index order of a grid, and the collection that
//! numbers, stores and connects the vertices.

use vstd::prelude::*;
use vstd::string::StringExecFns;
use crate::double::{Double, ONE_BITS};
use crate::geometry::point::Point3D;
use crate::text::{shown, shows, writes, writes_all, written};
use crate::utils::error::{GeometryError, MeshError};

verus! {

/// An identified point of a grid. Ids start at one.
#[derive(Debug)]
pub struct Vertex {
    pub id: u32,
    pub coords: Point3D,
}

impl Vertex {
    /// Makes a vertex, refusing the id zero.
    pub fn new(id: u32, x: Double, y: Double, z: Double) -> (r: Result<Vertex, GeometryError>)
        ensures
            id == 0 ==> r == Err::<Vertex, GeometryError>(GeometryError::InvalidVertexID),
            id != 0 ==> r == Ok::<Vertex, GeometryError>(
                Vertex { id, coords: Point3D { x, y, z } },
            ),
    {
        if id == 0 {
            return Err(GeometryError::InvalidVertexID);
        }
        Ok(Vertex { id, coords: Point3D::new(x, y, z) })
    }

    /// Whether `text` is the vertex as text, `vertex 7 at (x, y, z)`, with
    /// the coordinates as `number` writes them.
    pub open spec fn is_text<F: Fn(Double) -> String>(self, number: F, text: Seq<char>) -> bool {
        exists|id: Seq<char>, coordinates: Seq<char>|
            {
                &&& #[trigger] shows(self.id, id)
                &&& #[trigger] self.coords.is_bracketed(number, coordinates)
                &&& text == "vertex "@ + id + " at "@ + coordinates
            }
    }

    /// Whether `text` is the line of the vertex in a dump,
    /// `vertex id: 7, x: .., y: .., z: ..`, with the coordinates as `number`
    /// writes them.
    pub open spec fn is_dump_line<F: Fn(Double) -> String>(
        self,
        number: F,
        text: Seq<char>,
    ) -> bool {
        exists|id: Seq<char>, x: Seq<char>, y: Seq<char>, z: Seq<char>|
            {
                &&& #[trigger] shows(self.id, id)
                &&& #[trigger] writes(number, self.coords.x, x)
                &&& #[trigger] writes(number, self.coords.y, y)
                &&& #[trigger] writes(number, self.coords.z, z)
                &&& text == "vertex id: "@ + id + ", x: "@ + x + ", y: "@ + y + ", z: "@ + z
            }
    }

    /// The vertex as text: `vertex 7 at (1, 2, 1)`.
    pub fn to_text<F: Fn(Double) -> String>(&self, number: &F) -> (text: String)
        requires
            writes_all(*number),
        ensures
            self.is_text(*number, text@),
    {
        let id = shown(&self.id);
        let coordinates = self.coords.bracketed(number);
        let mut text = String::from_str("vertex ");
        text.append(id.as_str());
        text.append(" at ");
        text.append(coordinates.as_str());
        assert(shows(self.id, id@) && self.coords.is_bracketed(*number, coordinates@));
        text
    }

    /// The line of the vertex in a dump: `vertex id: 7, x: 1.0000, y:
    /// 2.0000, z: 1.0000` where `number` writes four decimal places.
    pub fn dump_line<F: Fn(Double) -> String>(&self, number: &F) -> (text: String)
        requires
            writes_all(*number),
        ensures
            self.is_dump_line(*number, text@),
    {
        let id = shown(&self.id);
        let x = written(number, self.coords.x);
        let y = written(number, self.coords.y);
        let z = written(number, self.coords.z);
        let mut text = String::from_str("vertex id: ");
        text.append(id.as_str());
        text.append(", x: ");
        text.append(x.as_str());
        text.append(", y: ");
        text.append(y.as_str());
        text.append(", z: ");
        text.append(z.as_str());
        assert(shows(self.id, id@) && writes(*number, self.coords.x, x@) && writes(
            *number,
            self.coords.y,
            y@,
        ) && writes(*number, self.coords.z, z@));
        text
    }
}

/// A step along one logical axis of the grid: `North` is +y, `South` is -y,
/// `East` is +x, `West` is -x, `Up` is +z and `Down` is -z.
#[derive(Debug, Clone, Copy, PartialEq, Eq, Structural)]
pub enum Direction {
    North,
    South,
    East,
    West,
    Up,
    Down,
}

impl Direction {
    /// The direction that undoes a step along this one.
    pub open spec fn opposite_spec(self) -> Direction {
        match self {
            Direction::North => Direction::South,
            Direction::South => Direction::North,
            Direction::East => Direction::West,
            Direction::West => Direction::East,
            Direction::Up => Direction::Down,
            Direction::Down => Direction::Up,
        }
    }

    /// Whether the direction leaves the xy-plane.
    pub open spec fn is_vertical(self) -> bool {
        self == Direction::Up || self == Direction::Down
    }

    pub fn opposite(self) -> (r: Direction)
        ensures
            r == self.opposite_spec(),
    {
        match self {
            Direction::North => Direction::South,
            Direction::South => Direction::North,
            Direction::East => Direction::West,
            Direction::West => Direction::East,
            Direction::Up => Direction::Down,
            Direction::Down => Direction::Up,
        }
    }

    /// The lower-case English name of the direction.
    pub open spec fn name_spec(self) -> Seq<char> {
        match self {
            Direction::North => "north"@,
            Direction::South => "south"@,
            Direction::East => "east"@,
            Direction::West => "west"@,
            Direction::Up => "up"@,
            Direction::Down => "down"@,
        }
    }

    /// The lower-case English name of the direction.
    pub fn name(self) -> (s: &'static str)
        ensures
            s@ == self.name_spec(),
    {
        match self {
            Direction::North => "north",
            Direction::South => "south",
            Direction::East => "east",
            Direction::West => "west",
            Direction::Up => "up",
            Direction::Down => "down",
        }
    }
}

/// The order in which logical coordinates are flattened into ids.
#[derive(Debug, Clone, Copy, PartialEq, Eq, Structural)]
pub enum WriteOrder {
    /// Ids run fastest along x, then y, then z.
    IJK,
    /// Ids run fastest along y, then x, then z.
    JIK,
}

/// The logical extents of a grid.
#[derive(Debug)]
pub enum Dimensions {
    TwoDimensions { nx: u32, ny: u32 },
    ThreeDimensions { nx: u32, ny: u32, nz: u32 },
}

impl Dimensions {
    pub open spec fn is_2d_spec(self) -> bool {
        self is TwoDimensions
    }

    pub open spec fn nx(self) -> int {
        match self {
            Dimensions::TwoDimensions { nx, .. } => nx as int,
            Dimensions::ThreeDimensions { nx, .. } => nx as int,
        }
    }

    pub open spec fn ny(self) -> int {
        match self {
            Dimensions::TwoDimensions { ny, .. } => ny as int,
            Dimensions::ThreeDimensions { ny, .. } => ny as int,
        }
    }

    /// The number of layers; a two-dimensional grid has one.
    pub open spec fn nz(self) -> int {
        match self {
            Dimensions::TwoDimensions { .. } => 1,
            Dimensions::ThreeDimensions { nz, .. } => nz as int,
        }
    }

    /// The number of vertices in one xy-plane.
    pub open spec fn plane(self) -> int {
        self.nx() * self.ny()
    }

    /// The number of vertices of a full grid.
    pub open spec fn total(self) -> int {
        self.nx() * self.ny() * self.nz()
    }

    /// Every extent is at least one, and the last id and the one after it
    /// fit in `u32`.
    pub open spec fn valid(self) -> bool {
        &&& self.nx() >= 1
        &&& self.ny() >= 1
        &&& self.nz() >= 1
        &&& self.total() < u32::MAX
    }

    /// Whether a step along `direction` stays inside a grid of this shape:
    /// a two-dimensional grid has no `Up` and no `Down`.
    pub open spec fn admits(self, direction: Direction) -> bool {
        !(self.is_2d_spec() && direction.is_vertical())
    }

    /// Whether `id` lies on the face that `direction` points at, so that it
    /// has no neighbour there.
    pub open spec fn on_boundary(self, order: WriteOrder, id: int, direction: Direction) -> bool {
        match (direction, order) {
            (Direction::South, WriteOrder::IJK) => id <= self.nx(),
            (Direction::North, WriteOrder::IJK) => id > self.nx() * (self.ny() - 1),
            (Direction::West, WriteOrder::IJK) => (id - 1) % self.nx() == 0,
            (Direction::East, WriteOrder::IJK) => id % self.nx() == 0,
            (Direction::South, WriteOrder::JIK) => id % self.ny() == 1,
            (Direction::North, WriteOrder::JIK) => id % self.ny() == 0,
            (Direction::West, WriteOrder::JIK) => id <= self.ny(),
            (Direction::East, WriteOrder::JIK) => id > self.ny() * (self.nx() - 1),
            (Direction::Up, _) => id > self.plane() * (self.nz() - 1),
            (Direction::Down, _) => id <= self.plane(),
        }
    }

    /// The id one step from `id` along `direction`.
    pub open spec fn neighbour(self, order: WriteOrder, id: int, direction: Direction) -> int {
        match (direction, order) {
            (Direction::North, WriteOrder::IJK) => id + self.nx(),
            (Direction::South, WriteOrder::IJK) => id - self.nx(),
            (Direction::East, WriteOrder::IJK) => id + 1,
            (Direction::West, WriteOrder::IJK) => id - 1,
            (Direction::North, WriteOrder::JIK) => id + 1,
            (Direction::South, WriteOrder::JIK) => id - 1,
            (Direction::East, WriteOrder::JIK) => id + self.ny(),
            (Direction::West, WriteOrder::JIK) => id - self.ny(),
            (Direction::Up, _) => id + self.plane(),
            (Direction::Down, _) => id - self.plane(),
        }
    }

    /// In a valid shape the partial products that the boundary tests and the
    /// steps use are bounded by the total.
    pub proof fn lemma_products_bounded(self)
        requires
            self.valid(),
        ensures
            1 <= self.plane() <= self.total() < u32::MAX,
            self.nx() <= self.plane(),
            self.ny() <= self.plane(),
            0 <= self.nx() * (self.ny() - 1) == self.plane() - self.nx(),
            0 <= self.ny() * (self.nx() - 1) == self.plane() - self.ny(),
            0 <= self.plane() * (self.nz() - 1) == self.total() - self.plane(),
            self.is_2d_spec() ==> self.total() == self.plane(),
            self.total() % self.nx() == 0,
            self.total() % self.ny() == 0,
    {
        let nx = self.nx();
        let ny = self.ny();
        let nz = self.nz();
        assert(nx * ny >= 1 && nx * ny >= nx && nx * ny >= ny) by (nonlinear_arith)
            requires
                nx >= 1,
                ny >= 1,
        ;
        assert(nx * (ny - 1) == nx * ny - nx && ny * (nx - 1) == nx * ny - ny)
            by (nonlinear_arith);
        assert((nx * ny) * nz >= nx * ny && (nx * ny) * (nz - 1) == (nx * ny) * nz - nx * ny)
            by (nonlinear_arith)
            requires
                nx * ny >= 1,
                nz >= 1,
        ;
        assert((nx * ny) * 1 == nx * ny) by (nonlinear_arith);
        assert(nx * ny * nz == (ny * nz) * nx && nx * ny * nz == (nx * nz) * ny)
            by (nonlinear_arith);
        vstd::arithmetic::div_mod::lemma_mod_multiples_basic(ny * nz, nx);
        vstd::arithmetic::div_mod::lemma_mod_multiples_basic(nx * nz, ny);
    }

    pub fn is_2d(&self) -> (r: bool)
        ensures
            r == self.is_2d_spec(),
    {
        matches!(self, Dimensions::TwoDimensions { .. })
    }

    pub fn get_nx(&self) -> (r: u32)
        ensures
            r == self.nx(),
    {
        match self {
            Dimensions::TwoDimensions { nx, .. } => *nx,
            Dimensions::ThreeDimensions { nx, .. } => *nx,
        }
    }

    pub fn get_ny(&self) -> (r: u32)
        ensures
            r == self.ny(),
    {
        match self {
            Dimensions::TwoDimensions { ny, .. } => *ny,
            Dimensions::ThreeDimensions { ny, .. } => *ny,
        }
    }

    pub fn get_nz(&self) -> (r: u32)
        ensures
            r == self.nz(),
    {
        match self {
            Dimensions::TwoDimensions { .. } => 1,
            Dimensions::ThreeDimensions { nz, .. } => *nz,
        }
    }

    pub fn get_dimensions(&self) -> (r: (u32, u32, u32))
        ensures
            r.0 == self.nx(),
            r.1 == self.ny(),
            r.2 == self.nz(),
    {
        match self {
            Dimensions::TwoDimensions { nx, ny } => (*nx, *ny, 1),
            Dimensions::ThreeDimensions { nx, ny, nz } => (*nx, *ny, *nz),
        }
    }

    pub fn set_nx(&mut self, new_nx: u32)
        ensures
            final(self).nx() == new_nx,
            final(self).ny() == old(self).ny(),
            final(self).nz() == old(self).nz(),
            final(self).is_2d_spec() == old(self).is_2d_spec(),
    {
        match self {
            Dimensions::TwoDimensions { nx, .. } => *nx = new_nx,
            Dimensions::ThreeDimensions { nx, .. } => *nx = new_nx,
        }
    }

    pub fn set_ny(&mut self, new_ny: u32)
        ensures
            final(self).nx() == old(self).nx(),
            final(self).ny() == new_ny,
            final(self).nz() == old(self).nz(),
            final(self).is_2d_spec() == old(self).is_2d_spec(),
    {
        match self {
            Dimensions::TwoDimensions { ny, .. } => *ny = new_ny,
            Dimensions::ThreeDimensions { ny, .. } => *ny = new_ny,
        }
    }

    /// Sets the number of layers of a three-dimensional shape; a
    /// two-dimensional shape has none to set and is left as it was.
    pub fn set_nz(&mut self, new_nz: u32) -> (r: Result<(), &'static str>)
        ensures
            old(self).is_2d_spec() ==> r is Err && *final(self) == *old(self)
                && r->Err_0@ == "cannot set nz for 2D dimensions"@,
            !old(self).is_2d_spec() ==> r is Ok && *final(self) == (Dimensions::ThreeDimensions {
                nx: old(self).nx() as u32,
                ny: old(self).ny() as u32,
                nz: new_nz,
            }),
    {
        match self {
            Dimensions::TwoDimensions { .. } => Err("cannot set nz for 2D dimensions"),
            Dimensions::ThreeDimensions { nz, .. } => {
                *nz = new_nz;
                Ok(())
            },
        }
    }

    /// Tests the shape: every extent at least one, and the count of vertices
    /// below `u32::MAX`.
    pub fn is_valid(&self) -> (r: bool)
        ensures
            r == self.valid(),
    {
        let (nx, ny, nz) = self.get_dimensions();
        if nx == 0 || ny == 0 || nz == 0 {
            return false;
        }
        assert((nx as int) * (ny as int) <= 0xFFFF_FFFF * 0xFFFF_FFFF) by (nonlinear_arith)
            requires
                0 <= nx <= 0xFFFF_FFFF,
                0 <= ny <= 0xFFFF_FFFF,
        ;
        let product: u128 = (nx as u128) * (ny as u128);
        assert(product * (nz as int) <= 0xFFFF_FFFF * 0xFFFF_FFFF * 0xFFFF_FFFF) by (nonlinear_arith)
            requires
                0 <= product <= 0xFFFF_FFFF * 0xFFFF_FFFF,
                0 <= nz <= 0xFFFF_FFFF,
        ;
        let total: u128 = product * (nz as u128);
        total < 0xFFFF_FFFF
    }

    /// The number of vertices of a full grid of this shape.
    pub fn total_vertices(&self) -> (r: u32)
        requires
            self.valid(),
        ensures
            r == self.total(),
    {
        let (nx, ny, nz) = self.get_dimensions();
        proof {
            self.lemma_products_bounded();
        }
        nx * ny * nz
    }
}

/// The vertices of one grid, in the order of their ids.
///
/// Vertices are only ever appended, and the collection numbers them itself:
/// the n-th vertex added carries the id n.
pub struct VertexCollection {
    vertices: Vec<Vertex>,
    dimensions: Dimensions,
    write_order: WriteOrder,
}

impl View for VertexCollection {
    type V = Seq<Vertex>;

    /// The vertices in insertion order; the vertex with id `k` is at `k - 1`.
    closed spec fn view(&self) -> Seq<Vertex> {
        self.vertices@
    }
}

impl VertexCollection {
    /// The shape the collection was made with.
    pub closed spec fn shape(&self) -> Dimensions {
        self.dimensions
    }

    /// The index order the collection was made with.
    pub closed spec fn order(&self) -> WriteOrder {
        self.write_order
    }

    /// What holds of every collection: the shape is valid, the collection
    /// is no longer than the shape allows, ids are dense from one in
    /// insertion order, and in two dimensions every `z` is exactly `1.0`.
    pub open spec fn wf(&self) -> bool {
        &&& self.shape().valid()
        &&& self@.len() <= self.shape().total()
        &&& forall|i: int| 0 <= i < self@.len() ==> (#[trigger] self@[i]).id == i + 1
        &&& self.shape().is_2d_spec() ==> forall|i: int|
            0 <= i < self@.len() ==> (#[trigger] self@[i]).coords.z.bits == ONE_BITS
    }

    #[verifier::type_invariant]
    pub(crate) open spec fn inv(&self) -> bool {
        self.wf()
    }

    /// Whether a vertex with this id has been added.
    pub open spec fn has(&self, id: int) -> bool {
        1 <= id <= self@.len()
    }

    /// Whether `add_vertex` refuses `z`: in two dimensions it must be `1.0`.
    pub open spec fn refuses_z(&self, z: Double) -> bool {
        self.shape().is_2d_spec() && !z.ieee_eq(Double { bits: ONE_BITS })
    }

    /// Whether the collection holds as many vertices as its shape allows.
    pub open spec fn is_full(&self) -> bool {
        self@.len() >= self.shape().total()
    }

    /// What `find_adjacent_vertex` answers for `id` and `direction`.
    pub open spec fn adjacent(&self, id: int, direction: Direction) -> Result<
        Vertex,
        GeometryError,
    > {
        let next = self.shape().neighbour(self.order(), id, direction);
        if !self.has(id) {
            Err(GeometryError::VertexNotFound { vertex_id: id as u32 })
        } else if !self.shape().admits(direction) {
            Err(GeometryError::InvalidDirection { direction })
        } else if self.shape().on_boundary(self.order(), id, direction) {
            Err(GeometryError::BoundaryVertex { vertex_id: id as u32, direction })
        } else if self.has(next) {
            Ok(self@[next - 1])
        } else {
            Err(GeometryError::VertexNotFound { vertex_id: next as u32 })
        }
    }

    /// An empty collection for a grid of the given shape and index order.
    pub fn new(dimensions: Dimensions, write_order: WriteOrder) -> (c: VertexCollection)
        requires
            dimensions.valid(),
        ensures
            c@ == Seq::<Vertex>::empty(),
            c.shape() == dimensions,
            c.order() == write_order,
            c.wf(),
    {
        VertexCollection { vertices: Vec::new(), dimensions, write_order }
    }

    /// The shape the collection was made with.
    pub fn dimensions(&self) -> (d: &Dimensions)
        ensures
            *d == self.shape(),
    {
        &self.dimensions
    }

    /// The index order the collection was made with.
    pub fn write_order(&self) -> (o: WriteOrder)
        ensures
            o == self.order(),
    {
        self.write_order
    }

    pub fn is_empty(&self) -> (r: bool)
        ensures
            r == (self@.len() == 0),
    {
        self.vertices.len() == 0
    }

    /// The number of vertices added so far, which is also the largest id.
    pub fn len(&self) -> (n: u32)
        ensures
            self.wf(),
            n == self@.len(),
    {
        proof {
            use_type_invariant(self);
        }
        self.vertices.len() as u32
    }

    /// The number of vertices of the full grid, once the first one is there.
    pub fn total_vertices(&self) -> (r: Result<u32, MeshError>)
        ensures
            self@.len() == 0 ==> r == Err::<u32, MeshError>(MeshError::EmptyMesh),
            self@.len() > 0 ==> r == Ok::<u32, MeshError>(self.shape().total() as u32),
    {
        proof {
            use_type_invariant(self);
        }
        if self.is_empty() {
            return Err(MeshError::EmptyMesh);
        }
        Ok(self.dimensions.total_vertices())
    }

    /// The vertex added last.
    pub fn get_final_vertex(&self) -> (r: Result<&Vertex, MeshError>)
        ensures
            match r {
                Ok(v) => self@.len() > 0 && *v == self@.last() && v.id == self@.len(),
                Err(e) => self@.len() == 0 && e == MeshError::EmptyMesh,
            },
    {
        proof {
            use_type_invariant(self);
        }
        let n: usize = self.vertices.len();
        if n == 0 {
            return Err(MeshError::EmptyMesh);
        }
        Ok(&self.vertices[n - 1])
    }

    /// Appends a vertex at `(x, y, z)` under the next id.
    ///
    /// A two-dimensional collection takes no `z` but `1.0`, and no collection
    /// takes more vertices than its shape holds. A refusal leaves the
    /// collection as it was.
    pub fn add_vertex(&mut self, x: Double, y: Double, z: Double) -> (r: Result<(), GeometryError>)
        ensures
            final(self).wf(),
            final(self).shape() == old(self).shape(),
            final(self).order() == old(self).order(),
            old(self).refuses_z(z) ==> final(self)@ == old(self)@ && r == Err::<(), GeometryError>(
                GeometryError::InvalidVertexCoordinate {
                    coordinate: 'z',
                    expected: Double { bits: ONE_BITS },
                    received: z,
                },
            ),
            !old(self).refuses_z(z) && old(self).is_full() ==> final(self)@ == old(self)@ && r
                == Err::<(), GeometryError>(
                GeometryError::VertexLimitExceeded {
                    limit: old(self).shape().total() as u32,
                    attempted: (old(self)@.len() + 1) as u32,
                },
            ),
            !old(self).refuses_z(z) && !old(self).is_full() ==> r == Ok::<(), GeometryError>(())
                && final(self)@ == old(self)@.push(
                Vertex { id: (old(self)@.len() + 1) as u32, coords: Point3D { x, y, z } },
            ),
    {
        proof {
            use_type_invariant(&*self);
        }
        if self.dimensions.is_2d() && !z.is_one() {
            return Err(
                GeometryError::InvalidVertexCoordinate {
                    coordinate: 'z',
                    expected: Double::one(),
                    received: z,
                },
            );
        }
        let total: u32 = self.dimensions.total_vertices();
        let next_id: u32 = self.vertices.len() as u32 + 1;
        if next_id > total {
            return Err(GeometryError::VertexLimitExceeded { limit: total, attempted: next_id });
        }
        match Vertex::new(next_id, x, y, z) {
            Ok(vertex) => {
                // the vector leaves the collection while it grows, so that
                // the collection is whole at every step
                let mut vertices: Vec<Vertex> = Vec::new();
                core::mem::swap(&mut self.vertices, &mut vertices);
                vertices.push(vertex);
                core::mem::swap(&mut self.vertices, &mut vertices);
                Ok(())
            },
            Err(e) => Err(e),
        }
    }

    /// Whether a vertex with this id has been added.
    pub fn vertex_exists(&self, id: u32) -> (r: bool)
        ensures
            r == self.has(id as int),
    {
        1 <= id && id as usize <= self.vertices.len()
    }

    /// The vertex with this id.
    pub fn find_vertex(&self, id: u32) -> (r: Result<&Vertex, GeometryError>)
        ensures
            match r {
                Ok(v) => self.has(id as int) && *v == self@[id - 1] && v.id == id,
                Err(e) => !self.has(id as int) && e == (GeometryError::VertexNotFound {
                    vertex_id: id,
                }),
            },
    {
        proof {
            use_type_invariant(self);
        }
        if !self.vertex_exists(id) {
            return Err(GeometryError::VertexNotFound { vertex_id: id });
        }
        Ok(&self.vertices[(id - 1) as usize])
    }

    /// Whether `id` lies on the face of the grid that `direction` points at.
    ///
    /// The id is classified by its number alone, whether or not a vertex
    /// carries it yet. A two-dimensional grid has no `Up` and no `Down`.
    pub fn is_boundary_vertex(&self, id: u32, direction: Direction) -> (r: Result<
        bool,
        GeometryError,
    >)
        ensures
            !self.shape().admits(direction) ==> r == Err::<bool, GeometryError>(
                GeometryError::InvalidDirection { direction },
            ),
            self.shape().admits(direction) ==> r == Ok::<bool, GeometryError>(
                self.shape().on_boundary(self.order(), id as int, direction),
            ),
    {
        proof {
            use_type_invariant(self);
            self.dimensions.lemma_products_bounded();
        }
        if self.dimensions.is_2d() && matches!(direction, Direction::Up | Direction::Down) {
            return Err(GeometryError::InvalidDirection { direction });
        }
        let (nx, ny, nz) = self.dimensions.get_dimensions();
        let on_face: bool = match (direction, self.write_order) {
            (Direction::South, WriteOrder::IJK) => id <= nx,
            (Direction::North, WriteOrder::IJK) => id > nx * (ny - 1),
            (Direction::West, WriteOrder::IJK) => {
                proof {
                    lemma_minus_one_mod(nx as int);
                }
                if id == 0 {
                    nx == 1
                } else {
                    (id - 1) % nx == 0
                }
            },
            (Direction::East, WriteOrder::IJK) => id % nx == 0,
            (Direction::South, WriteOrder::JIK) => id % ny == 1,
            (Direction::North, WriteOrder::JIK) => id % ny == 0,
            (Direction::West, WriteOrder::JIK) => id <= ny,
            (Direction::East, WriteOrder::JIK) => id > ny * (nx - 1),
            (Direction::Up, _) => id > nx * ny * (nz - 1),
            (Direction::Down, _) => id <= nx * ny,
        };
        Ok(on_face)
    }

    /// The neighbour of the vertex `id` one step along `direction`.
    ///
    /// Fails with `VertexNotFound` where no vertex carries `id`, with
    /// `InvalidDirection` for `Up` and `Down` in two dimensions, with
    /// `BoundaryVertex` where `id` lies on the face in that direction, and
    /// with `VertexNotFound` for the neighbour's id where the neighbour has
    /// not been added yet.
    pub fn find_adjacent_vertex(&self, id: u32, direction: Direction) -> (r: Result<
        &Vertex,
        GeometryError,
    >)
        ensures
            match r {
                Ok(v) => self.adjacent(id as int, direction) == Ok::<Vertex, GeometryError>(*v),
                Err(e) => self.adjacent(id as int, direction) == Err::<Vertex, GeometryError>(e),
            },
    {
        proof {
            use_type_invariant(self);
            self.dimensions.lemma_products_bounded();
        }
        if !self.vertex_exists(id) {
            return Err(GeometryError::VertexNotFound { vertex_id: id });
        }
        if self.dimensions.is_2d() && matches!(direction, Direction::Up | Direction::Down) {
            return Err(GeometryError::InvalidDirection { direction });
        }
        let (nx, ny, _) = self.dimensions.get_dimensions();
        match self.is_boundary_vertex(id, direction) {
            Ok(on_face) => {
                if on_face {
                    return Err(GeometryError::BoundaryVertex { vertex_id: id, direction });
                }
            },
            Err(e) => {
                return Err(e);
            },
        }
        proof {
            lemma_not_multiple_is_below(id as int, nx as int, self.dimensions.total());
            lemma_not_multiple_is_below(id as int, ny as int, self.dimensions.total());
        }
        let adjacent_id: u32 = match (direction, self.write_order) {
            (Direction::North, WriteOrder::IJK) => id + nx,
            (Direction::South, WriteOrder::IJK) => id - nx,
            (Direction::East, WriteOrder::IJK) => id + 1,
            (Direction::West, WriteOrder::IJK) => id - 1,
            (Direction::North, WriteOrder::JIK) => id + 1,
            (Direction::South, WriteOrder::JIK) => id - 1,
            (Direction::East, WriteOrder::JIK) => id + ny,
            (Direction::West, WriteOrder::JIK) => id - ny,
            (Direction::Up, _) => id + (nx * ny),
            (Direction::Down, _) => id - (nx * ny),
        };
        self.find_vertex(adjacent_id)
    }

    /// The vertices in ascending order of id.
    pub fn vertices(&self) -> (v: &Vec<Vertex>)
        ensures
            v@ == self@,
            self.wf(),
    {
        proof {
            use_type_invariant(self);
        }
        &self.vertices
    }

    /// The x and the y of every vertex, as two sequences in ascending order
    /// of id.
    pub fn coordinate_columns(&self) -> (r: (Vec<Double>, Vec<Double>))
        ensures
            r.0@.len() == self@.len(),
            r.1@.len() == self@.len(),
            forall|i: int| 0 <= i < self@.len() ==> r.0@[i] == (#[trigger] self@[i]).coords.x,
            forall|i: int| 0 <= i < self@.len() ==> r.1@[i] == (#[trigger] self@[i]).coords.y,
    {
        let mut xs: Vec<Double> = Vec::new();
        let mut ys: Vec<Double> = Vec::new();
        let n: usize = self.vertices.len();
        let mut i: usize = 0;
        while i < n
            invariant
                n == self@.len(),
                i <= n,
                xs@.len() == i,
                ys@.len() == i,
                forall|k: int| 0 <= k < i ==> xs@[k] == (#[trigger] self@[k]).coords.x,
                forall|k: int| 0 <= k < i ==> ys@[k] == (#[trigger] self@[k]).coords.y,
            decreases n - i,
        {
            xs.push(self.vertices[i].coords.x);
            ys.push(self.vertices[i].coords.y);
            i = i + 1;
        }
        (xs, ys)
    }
}

/// Minus one leaves the remainder `n - 1`, so it is a multiple of `n` only
/// for `n == 1`.
proof fn lemma_minus_one_mod(n: int)
    requires
        n >= 1,
    ensures
        ((0 - 1) % n == 0) == (n == 1),
{
    vstd::arithmetic::div_mod::lemma_fundamental_div_mod_converse(-1, n, -1, n - 1);
}

/// An id that is no multiple of `n` lies strictly below every multiple of `n`
/// that it does not exceed.
pub(crate) proof fn lemma_not_multiple_is_below(id: int, n: int, total: int)
    requires
        n >= 1,
        0 <= id <= total,
        total % n == 0,
    ensures
        id % n != 0 ==> id < total,
{
}

} // verus!
