//! Points in the plane and in space, with double-precision coordinates.

use vstd::prelude::*;
use vstd::string::StringExecFns;
use crate::double::Double;
use crate::geometry::traits::{Dimensioned, Point};
use crate::text::{writes, writes_all, written};

verus! {

/// A point in the plane.
#[derive(Debug, Clone, Copy, PartialEq)]
pub struct Point2D {
    pub x: Double,
    pub y: Double,
}

impl Point2D {
    pub fn new(x: Double, y: Double) -> (p: Point2D)
        ensures
            p.x == x,
            p.y == y,
    {
        Point2D::from_coordinates((x, y))
    }

    /// Whether `text` is the point as text, `Point2D (x, y)`, with the
    /// coordinates as `number` writes them.
    pub open spec fn is_text<F: Fn(Double) -> String>(self, number: F, text: Seq<char>) -> bool {
        exists|x: Seq<char>, y: Seq<char>|
            {
                &&& #[trigger] writes(number, self.x, x)
                &&& #[trigger] writes(number, self.y, y)
                &&& text == "Point2D ("@ + x + ", "@ + y + ")"@
            }
    }

    /// The point as text: `Point2D (1, 2)`.
    pub fn to_text<F: Fn(Double) -> String>(&self, number: F) -> (text: String)
        requires
            writes_all(number),
        ensures
            self.is_text(number, text@),
    {
        let x = written(&number, self.x);
        let y = written(&number, self.y);
        let mut text = String::from_str("Point2D (");
        text.append(x.as_str());
        text.append(", ");
        text.append(y.as_str());
        text.append(")");
        assert(writes(number, self.x, x@) && writes(number, self.y, y@));
        text
    }
}

impl Dimensioned for Point2D {
    open spec fn is_2d_spec(&self) -> bool {
        true
    }

    fn is_2d(&self) -> (r: bool) {
        true
    }
}

impl Point for Point2D {
    type Coordinates = (Double, Double);

    open spec fn coordinates_spec(&self) -> (Double, Double) {
        (self.x, self.y)
    }

    open spec fn origin_spec() -> (Double, Double) {
        (Double { bits: 0 }, Double { bits: 0 })
    }

    fn origin() -> (p: Point2D) {
        Point2D { x: Double::zero(), y: Double::zero() }
    }

    fn from_coordinates(coords: (Double, Double)) -> (p: Point2D) {
        Point2D { x: coords.0, y: coords.1 }
    }

    fn coordinates(&self) -> (coords: (Double, Double)) {
        (self.x, self.y)
    }
}

/// A point in space.
#[derive(Debug, Clone, Copy, PartialEq)]
pub struct Point3D {
    pub x: Double,
    pub y: Double,
    pub z: Double,
}

impl Point3D {
    pub fn new(x: Double, y: Double, z: Double) -> (p: Point3D)
        ensures
            p.x == x,
            p.y == y,
            p.z == z,
    {
        Point3D::from_coordinates((x, y, z))
    }

    /// Whether `text` is the coordinates between round brackets,
    /// `(x, y, z)`, as `number` writes them.
    pub open spec fn is_bracketed<F: Fn(Double) -> String>(
        self,
        number: F,
        text: Seq<char>,
    ) -> bool {
        exists|x: Seq<char>, y: Seq<char>, z: Seq<char>|
            {
                &&& #[trigger] writes(number, self.x, x)
                &&& #[trigger] writes(number, self.y, y)
                &&& #[trigger] writes(number, self.z, z)
                &&& text == "("@ + x + ", "@ + y + ", "@ + z + ")"@
            }
    }

    /// Whether `text` is the point as text, `Point3D(x, y, z)`.
    pub open spec fn is_text<F: Fn(Double) -> String>(self, number: F, text: Seq<char>) -> bool {
        exists|coordinates: Seq<char>|
            #[trigger] self.is_bracketed(number, coordinates) && text == "Point3D"@ + coordinates
    }

    /// The coordinates between round brackets: `(1, 2, 3)`.
    pub fn bracketed<F: Fn(Double) -> String>(&self, number: &F) -> (text: String)
        requires
            writes_all(*number),
        ensures
            self.is_bracketed(*number, text@),
    {
        let x = written(number, self.x);
        let y = written(number, self.y);
        let z = written(number, self.z);
        let mut text = String::from_str("(");
        text.append(x.as_str());
        text.append(", ");
        text.append(y.as_str());
        text.append(", ");
        text.append(z.as_str());
        text.append(")");
        assert(writes(*number, self.x, x@) && writes(*number, self.y, y@) && writes(
            *number,
            self.z,
            z@,
        ));
        text
    }

    /// The point as text: `Point3D(1, 2, 3)`.
    pub fn to_text<F: Fn(Double) -> String>(&self, number: F) -> (text: String)
        requires
            writes_all(number),
        ensures
            self.is_text(number, text@),
    {
        let coordinates = self.bracketed(&number);
        let mut text = String::from_str("Point3D");
        text.append(coordinates.as_str());
        assert(self.is_bracketed(number, coordinates@));
        text
    }
}

impl Dimensioned for Point3D {
    open spec fn is_2d_spec(&self) -> bool {
        false
    }

    fn is_2d(&self) -> (r: bool) {
        false
    }
}

impl Point for Point3D {
    type Coordinates = (Double, Double, Double);

    open spec fn coordinates_spec(&self) -> (Double, Double, Double) {
        (self.x, self.y, self.z)
    }

    open spec fn origin_spec() -> (Double, Double, Double) {
        (Double { bits: 0 }, Double { bits: 0 }, Double { bits: 0 })
    }

    fn origin() -> (p: Point3D) {
        Point3D { x: Double::zero(), y: Double::zero(), z: Double::zero() }
    }

    fn from_coordinates(coords: (Double, Double, Double)) -> (p: Point3D) {
        Point3D { x: coords.0, y: coords.1, z: coords.2 }
    }

    fn coordinates(&self) -> (coords: (Double, Double, Double)) {
        (self.x, self.y, self.z)
    }
}

} // verus!
