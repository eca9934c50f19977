//! A builder for vertex collections.

use vstd::prelude::*;
use crate::geometry::vertex::{Dimensions, Vertex, VertexCollection, WriteOrder};

verus! {

/// Collects the extents and the index order of a grid, then makes the empty
/// collection for it.
pub struct VertexCollectionBuilder {
    nx: u32,
    ny: u32,
    nz: Option<u32>,
    write_order: WriteOrder,
}

impl VertexCollectionBuilder {
    /// The extents in x and y.
    pub closed spec fn plane(self) -> (u32, u32) {
        (self.nx, self.ny)
    }

    /// The number of layers, once it has been given.
    pub closed spec fn layers(self) -> Option<u32> {
        self.nz
    }

    pub closed spec fn order(self) -> WriteOrder {
        self.write_order
    }

    /// The shape of the two-dimensional grid that `build_2d` makes.
    pub open spec fn shape_2d(self) -> Dimensions {
        Dimensions::TwoDimensions { nx: self.plane().0, ny: self.plane().1 }
    }

    /// The shape of the three-dimensional grid that `build_3d` makes.
    pub open spec fn shape_3d(self) -> Dimensions
        recommends
            self.layers() is Some,
    {
        Dimensions::ThreeDimensions {
            nx: self.plane().0,
            ny: self.plane().1,
            nz: self.layers()->Some_0,
        }
    }

    /// A builder for `nx` by `ny` vertices, without layers, in `IJK` order.
    pub fn new(nx: u32, ny: u32) -> (b: Self)
        ensures
            b.plane() == (nx, ny),
            b.layers() is None,
            b.order() == WriteOrder::IJK,
    {
        VertexCollectionBuilder { nx, ny, nz: None, write_order: WriteOrder::IJK }
    }

    pub fn with_z(self, nz: u32) -> (b: Self)
        ensures
            b.plane() == self.plane(),
            b.layers() == Some(nz),
            b.order() == self.order(),
    {
        VertexCollectionBuilder {
            nx: self.nx,
            ny: self.ny,
            nz: Some(nz),
            write_order: self.write_order,
        }
    }

    pub fn with_write_order(self, write_order: WriteOrder) -> (b: Self)
        ensures
            b.plane() == self.plane(),
            b.layers() == self.layers(),
            b.order() == write_order,
    {
        VertexCollectionBuilder { nx: self.nx, ny: self.ny, nz: self.nz, write_order }
    }

    /// Whether `build_2d` can make a collection: the shape must be valid.
    pub fn can_build_2d(&self) -> (r: bool)
        ensures
            r == self.shape_2d().valid(),
    {
        (Dimensions::TwoDimensions { nx: self.nx, ny: self.ny }).is_valid()
    }

    /// Whether `build_3d` can make a collection: the number of layers must
    /// be given and the shape valid.
    pub fn can_build_3d(&self) -> (r: bool)
        ensures
            r == (self.layers() is Some && self.shape_3d().valid()),
    {
        match self.nz {
            Some(nz) => (Dimensions::ThreeDimensions { nx: self.nx, ny: self.ny, nz }).is_valid(),
            None => false,
        }
    }

    /// The empty two-dimensional collection; a number of layers, if one was
    /// given, is not used.
    pub fn build_2d(self) -> (c: VertexCollection)
        requires
            self.shape_2d().valid(),
        ensures
            c.wf(),
            c@ == Seq::<Vertex>::empty(),
            c.shape() == self.shape_2d(),
            c.order() == self.order(),
    {
        VertexCollection::new(
            Dimensions::TwoDimensions { nx: self.nx, ny: self.ny },
            self.write_order,
        )
    }

    /// The empty three-dimensional collection.
    pub fn build_3d(self) -> (c: VertexCollection)
        requires
            self.layers() is Some,
            self.shape_3d().valid(),
        ensures
            c.wf(),
            c@ == Seq::<Vertex>::empty(),
            c.shape() == self.shape_3d(),
            c.order() == self.order(),
    {
        match self.nz {
            Some(nz) => VertexCollection::new(
                Dimensions::ThreeDimensions { nx: self.nx, ny: self.ny, nz },
                self.write_order,
            ),
            None => vstd::pervasive::unreached(),
        }
    }
}

} // verus!
