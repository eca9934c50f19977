//! Logical coordinates: the place `(i, j, k)` of a vertex in its row, column
//! and layer, and how the boundary tests and the steps read it.

use vstd::prelude::*;
use vstd::arithmetic::div_mod::{lemma_basic_div, lemma_mod_mod, lemma_small_mod};
use crate::geometry::vertex::{Dimensions, Direction, VertexCollection, WriteOrder};
use crate::utils::error::GeometryError;
use crate::utils::flat_index::{
    lemma_join, lemma_quotient_ends, lemma_remainder_ends, lemma_split,
};

verus! {

impl Dimensions {
    /// The logical coordinate `(i, j, k)` of the vertex `id`: its place
    /// along x, along y and along z, each counted from zero.
    ///
    /// Within a layer, `IJK` runs along x first and `JIK` along y first.
    pub open spec fn logical(self, order: WriteOrder, id: int) -> (int, int, int) {
        let in_layer = (id - 1) % self.plane();
        let k = (id - 1) / self.plane();
        match order {
            WriteOrder::IJK => (in_layer % self.nx(), in_layer / self.nx(), k),
            WriteOrder::JIK => (in_layer / self.ny(), in_layer % self.ny(), k),
        }
    }

    /// The id of the vertex at the logical coordinate `(i, j, k)`.
    pub open spec fn id_at(self, order: WriteOrder, i: int, j: int, k: int) -> int {
        match order {
            WriteOrder::IJK => k * self.plane() + j * self.nx() + i + 1,
            WriteOrder::JIK => k * self.plane() + i * self.ny() + j + 1,
        }
    }

    /// Whether `(i, j, k)` is a logical coordinate of the grid.
    pub open spec fn holds(self, i: int, j: int, k: int) -> bool {
        0 <= i < self.nx() && 0 <= j < self.ny() && 0 <= k < self.nz()
    }

    /// Whether the logical coordinate is the last or the first one along
    /// the axis of `direction`, on the side the direction points at.
    pub open spec fn at_end(self, coordinate: (int, int, int), direction: Direction) -> bool {
        match direction {
            Direction::West => coordinate.0 == 0,
            Direction::East => coordinate.0 == self.nx() - 1,
            Direction::South => coordinate.1 == 0,
            Direction::North => coordinate.1 == self.ny() - 1,
            Direction::Down => coordinate.2 == 0,
            Direction::Up => coordinate.2 == self.nz() - 1,
        }
    }

    /// The logical coordinate one step from another along `direction`.
    pub open spec fn shifted(coordinate: (int, int, int), direction: Direction) -> (
        int,
        int,
        int,
    ) {
        match direction {
            Direction::West => (coordinate.0 - 1, coordinate.1, coordinate.2),
            Direction::East => (coordinate.0 + 1, coordinate.1, coordinate.2),
            Direction::South => (coordinate.0, coordinate.1 - 1, coordinate.2),
            Direction::North => (coordinate.0, coordinate.1 + 1, coordinate.2),
            Direction::Down => (coordinate.0, coordinate.1, coordinate.2 - 1),
            Direction::Up => (coordinate.0, coordinate.1, coordinate.2 + 1),
        }
    }

    /// Whether `direction` runs along the axis that ids run along first:
    /// x under `IJK`, y under `JIK`.
    pub open spec fn along_fast_axis(order: WriteOrder, direction: Direction) -> bool {
        match order {
            WriteOrder::IJK => direction == Direction::East || direction == Direction::West,
            WriteOrder::JIK => direction == Direction::North || direction == Direction::South,
        }
    }

    /// Whether the tests and steps for `direction` read `id` as its logical
    /// coordinate does: always for `Up` and `Down` and along the fast axis,
    /// and in the first layer, which is all of a two-dimensional grid, along
    /// the other in-plane axis too. Left out is `South` under `JIK` with rows
    /// of a single vertex, where the test never holds.
    pub open spec fn reads_logically(self, order: WriteOrder, id: int, direction: Direction) -> bool {
        &&& direction.is_vertical() || Self::along_fast_axis(order, direction) || id
            <= self.plane()
        &&& !(order == WriteOrder::JIK && direction == Direction::South && self.ny() == 1)
    }

    /// Every id of the grid has a logical coordinate inside it, and that
    /// coordinate leads back to the id.
    pub proof fn lemma_logical_of_id(self, order: WriteOrder, id: int)
        requires
            self.valid(),
            1 <= id <= self.total(),
        ensures
            ({
                let (i, j, k) = self.logical(order, id);
                self.holds(i, j, k) && self.id_at(order, i, j, k) == id
            }),
    {
        self.lemma_products_bounded();
        let plane = self.plane();
        assert(self.total() == plane * self.nz());
        lemma_split(id - 1, plane, self.nz());
        let in_layer = (id - 1) % plane;
        match order {
            WriteOrder::IJK => {
                lemma_split(in_layer, self.nx(), self.ny());
            },
            WriteOrder::JIK => {
                assert(self.ny() * self.nx() == plane) by (nonlinear_arith)
                    requires
                        plane == self.nx() * self.ny(),
                ;
                lemma_split(in_layer, self.ny(), self.nx());
            },
        }
    }

    /// Every logical coordinate of the grid has an id in it, and that id
    /// leads back to the coordinate.
    pub proof fn lemma_id_of_logical(self, order: WriteOrder, i: int, j: int, k: int)
        requires
            self.valid(),
            self.holds(i, j, k),
        ensures
            1 <= self.id_at(order, i, j, k) <= self.total(),
            self.logical(order, self.id_at(order, i, j, k)) == (i, j, k),
    {
        self.lemma_products_bounded();
        let plane = self.plane();
        assert(self.total() == plane * self.nz());
        match order {
            WriteOrder::IJK => {
                lemma_join(j, i, self.nx(), self.ny());
                lemma_join(k, j * self.nx() + i, plane, self.nz());
            },
            WriteOrder::JIK => {
                assert(self.ny() * self.nx() == plane) by (nonlinear_arith)
                    requires
                        plane == self.nx() * self.ny(),
                ;
                lemma_join(i, j, self.ny(), self.nx());
                lemma_join(k, i * self.ny() + j, plane, self.nz());
            },
        }
    }

    /// An id is on the face that a direction points at exactly when its
    /// logical coordinate is at that end of the axis, wherever the test reads
    /// the id logically.
    pub proof fn lemma_boundary_is_end_of_axis(self, order: WriteOrder, id: int, direction: Direction)
        requires
            self.valid(),
            1 <= id <= self.total(),
            self.reads_logically(order, id, direction),
        ensures
            self.on_boundary(order, id, direction) == self.at_end(
                self.logical(order, id),
                direction,
            ),
    {
        self.lemma_products_bounded();
        let plane = self.plane();
        let nx = self.nx();
        let ny = self.ny();
        let a = id - 1;
        assert(self.total() == plane * self.nz());
        assert(ny * nx == plane) by (nonlinear_arith)
            requires
                plane == nx * ny,
        ;
        if direction.is_vertical() {
            lemma_quotient_ends(a, plane, self.nz());
        } else if Self::along_fast_axis(order, direction) {
            lemma_mod_mod(a, nx, ny);
            lemma_mod_mod(a, ny, nx);
            lemma_remainder_ends(a, nx);
            lemma_remainder_ends(a, ny);
        } else {
            lemma_small_mod(a as nat, plane as nat);
            lemma_quotient_ends(a, nx, ny);
            lemma_quotient_ends(a, ny, nx);
        }
    }

    /// A step from an id that is not on the face there moves the logical
    /// coordinate by one along the axis of the direction, wherever the step
    /// reads the id logically. A step within the first layer stays in it.
    pub proof fn lemma_step_moves_one(self, order: WriteOrder, id: int, direction: Direction)
        requires
            self.valid(),
            1 <= id <= self.total(),
            self.reads_logically(order, id, direction),
            !self.on_boundary(order, id, direction),
        ensures
            1 <= self.neighbour(order, id, direction) <= self.total(),
            !direction.is_vertical() && id <= self.plane() ==> self.neighbour(order, id, direction)
                <= self.plane(),
            self.logical(order, self.neighbour(order, id, direction)) == Self::shifted(
                self.logical(order, id),
                direction,
            ),
    {
        self.lemma_boundary_is_end_of_axis(order, id, direction);
        self.lemma_logical_of_id(order, id);
        let (i, j, k) = self.logical(order, id);
        let (i2, j2, k2) = Self::shifted((i, j, k), direction);
        assert(self.holds(i2, j2, k2));
        self.lemma_id_of_logical(order, i2, j2, k2);
        self.lemma_products_bounded();
        let plane = self.plane();
        assert(self.id_at(order, i2, j2, k2) == self.neighbour(order, id, direction))
            by (nonlinear_arith)
            requires
                self.id_at(order, i, j, k) == id,
                (i2, j2, k2) == Self::shifted((i, j, k), direction),
                plane == self.plane(),
                self.id_at(order, i2, j2, k2) == (match order {
                    WriteOrder::IJK => k2 * plane + j2 * self.nx() + i2 + 1,
                    WriteOrder::JIK => k2 * plane + i2 * self.ny() + j2 + 1,
                }),
                self.id_at(order, i, j, k) == (match order {
                    WriteOrder::IJK => k * plane + j * self.nx() + i + 1,
                    WriteOrder::JIK => k * plane + i * self.ny() + j + 1,
                }),
                self.neighbour(order, id, direction) == (match (direction, order) {
                    (Direction::North, WriteOrder::IJK) => id + self.nx(),
                    (Direction::South, WriteOrder::IJK) => id - self.nx(),
                    (Direction::East, WriteOrder::IJK) => id + 1,
                    (Direction::West, WriteOrder::IJK) => id - 1,
                    (Direction::North, WriteOrder::JIK) => id + 1,
                    (Direction::South, WriteOrder::JIK) => id - 1,
                    (Direction::East, WriteOrder::JIK) => id + self.ny(),
                    (Direction::West, WriteOrder::JIK) => id - self.ny(),
                    (Direction::Up, _) => id + plane,
                    (Direction::Down, _) => id - plane,
                }),
        ;
        if !direction.is_vertical() && id <= plane {
            assert(k == 0) by {
                lemma_basic_div(id - 1, plane);
            }
            assert(k2 == 0);
            assert(self.id_at(order, i2, j2, k2) <= plane) by {
                match order {
                    WriteOrder::IJK => {
                        lemma_join(j2, i2, self.nx(), self.ny());
                    },
                    WriteOrder::JIK => {
                        lemma_join(i2, j2, self.ny(), self.nx());
                        assert(self.ny() * self.nx() == plane) by (nonlinear_arith)
                            requires
                                plane == self.nx() * self.ny(),
                        ;
                    },
                }
                assert(0 * plane == 0);
            }
        }
    }

    /// The logical coordinate of the vertex `id`.
    pub fn logical_coordinate(&self, order: WriteOrder, id: u32) -> (r: (u32, u32, u32))
        requires
            self.valid(),
            1 <= id <= self.total(),
        ensures
            (r.0 as int, r.1 as int, r.2 as int) == self.logical(order, id as int),
            self.holds(r.0 as int, r.1 as int, r.2 as int),
    {
        proof {
            self.lemma_products_bounded();
            self.lemma_logical_of_id(order, id as int);
        }
        let (nx, ny, _) = self.get_dimensions();
        let plane: u32 = nx * ny;
        let in_layer: u32 = (id - 1) % plane;
        let k: u32 = (id - 1) / plane;
        match order {
            WriteOrder::IJK => (in_layer % nx, in_layer / nx, k),
            WriteOrder::JIK => (in_layer / ny, in_layer % ny, k),
        }
    }
}

impl VertexCollection {
    /// The logical coordinate `(i, j, k)` of the vertex `id`, each counted
    /// from zero.
    pub fn logical_coordinate(&self, id: u32) -> (r: Result<(u32, u32, u32), GeometryError>)
        ensures
            match r {
                Ok(c) => self.has(id as int) && (c.0 as int, c.1 as int, c.2 as int)
                    == self.shape().logical(self.order(), id as int) && self.shape().holds(
                    c.0 as int,
                    c.1 as int,
                    c.2 as int,
                ),
                Err(e) => !self.has(id as int) && e == (GeometryError::VertexNotFound {
                    vertex_id: id,
                }),
            },
    {
        proof {
            use_type_invariant(self);
        }
        if !self.vertex_exists(id) {
            return Err(GeometryError::VertexNotFound { vertex_id: id });
        }
        Ok(self.dimensions().logical_coordinate(self.write_order(), id))
    }
}

} // verus!
