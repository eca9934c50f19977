//! What points and other dimensioned values have in common.

use vstd::prelude::*;

verus! {

/// Marks types that live in a plane or in space.
pub trait Dimensioned {
    spec fn is_2d_spec(&self) -> bool;

    /// Whether the value lives in a plane.
    fn is_2d(&self) -> (r: bool)
        ensures
            r == self.is_2d_spec(),
    ;

    /// The number of dimensions: two or three.
    fn dimensions(&self) -> (n: usize)
        ensures
            n == (if self.is_2d_spec() { 2usize } else { 3usize }),
    {
        if self.is_2d() {
            2
        } else {
            3
        }
    }
}

/// A geometric point that can be made from, and read back as, a tuple of
/// coordinates.
pub trait Point: Dimensioned + Sized {
    /// `(x, y)` in the plane, `(x, y, z)` in space.
    type Coordinates;

    spec fn coordinates_spec(&self) -> Self::Coordinates;

    spec fn origin_spec() -> Self::Coordinates;

    /// The point whose coordinates are all `+0.0`.
    fn origin() -> (p: Self)
        ensures
            p.coordinates_spec() == Self::origin_spec(),
    ;

    fn from_coordinates(coords: Self::Coordinates) -> (p: Self)
        ensures
            p.coordinates_spec() == coords,
    ;

    fn coordinates(&self) -> (coords: Self::Coordinates)
        ensures
            coords == self.coordinates_spec(),
    ;
}

} // verus!
