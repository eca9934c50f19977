//! Errors and their messages.

use vstd::prelude::*;
use vstd::string::StringExecFns;
use crate::double::Double;
use crate::geometry::vertex::{Direction, Vertex};
use crate::text::{shown, shows, writes, writes_all, written};

verus! {

/// What a vertex or topology operation can report.
#[derive(Debug)]
pub enum GeometryError {
    /// A cell is missing one of its bounding edges.
    IncompleteNode { node_id: u32 },
    /// No vertex carries this id.
    VertexNotFound { vertex_id: u32 },
    /// The direction leaves the plane of a two-dimensional grid.
    InvalidDirection { direction: Direction },
    /// The vertex lies on the face the direction points at.
    BoundaryVertex { vertex_id: u32, direction: Direction },
    /// A vertex would carry the id zero.
    InvalidVertexID,
    /// The grid already holds as many vertices as its shape allows.
    VertexLimitExceeded { limit: u32, attempted: u32 },
    /// A coordinate that the grid pins to one value holds another.
    InvalidVertexCoordinate { coordinate: char, expected: Double, received: Double },
}

impl GeometryError {
    /// Whether `text` is the message of the error, with the coordinates in
    /// it as `number` writes them.
    pub open spec fn is_message<F: Fn(Double) -> String>(self, number: F, text: Seq<char>) -> bool {
        match self {
            GeometryError::IncompleteNode { node_id } => exists|id: Seq<char>|
                #[trigger] shows(node_id, id) && text == "node: "@ + id + " is incomplete"@,
            GeometryError::VertexNotFound { vertex_id } => exists|id: Seq<char>|
                #[trigger] shows(vertex_id, id) && text == "vertex: "@ + id + " not found"@,
            GeometryError::InvalidDirection { direction } => text == direction.name_spec()
                + " not possible for 2D mesh"@,
            GeometryError::BoundaryVertex { vertex_id, direction } => exists|id: Seq<char>|
                #[trigger] shows(vertex_id, id) && text == "vertex: "@ + id
                    + " is a boundary vertex, nothing exists "@ + direction.name_spec()
                    + " of it"@,
            GeometryError::InvalidVertexID => text == "vertex must have non zero id"@,
            GeometryError::VertexLimitExceeded { limit, attempted } => exists|
                most: Seq<char>,
                asked: Seq<char>,
            |
                {
                    &&& #[trigger] shows(limit, most)
                    &&& #[trigger] shows(attempted, asked)
                    &&& text == "vertex limit exceeded "@ + asked + " of "@ + most
                },
            GeometryError::InvalidVertexCoordinate { coordinate, expected, received } => exists|
                axis: Seq<char>,
                wanted: Seq<char>,
                got: Seq<char>,
            |
                {
                    &&& #[trigger] shows(coordinate, axis)
                    &&& #[trigger] writes(number, expected, wanted)
                    &&& #[trigger] writes(number, received, got)
                    &&& text == axis + "-coordinate must be "@ + wanted
                        + " for a 2D mesh, received "@ + got
                },
        }
    }

    /// The message of the error.
    pub fn message<F: Fn(Double) -> String>(&self, number: &F) -> (text: String)
        requires
            writes_all(*number),
        ensures
            self.is_message(*number, text@),
    {
        match self {
            GeometryError::IncompleteNode { node_id } => {
                let id = shown(node_id);
                let mut text = String::from_str("node: ");
                text.append(id.as_str());
                text.append(" is incomplete");
                assert(shows(*node_id, id@));
                text
            },
            GeometryError::VertexNotFound { vertex_id } => {
                let id = shown(vertex_id);
                let mut text = String::from_str("vertex: ");
                text.append(id.as_str());
                text.append(" not found");
                assert(shows(*vertex_id, id@));
                text
            },
            GeometryError::InvalidDirection { direction } => {
                let mut text = String::from_str(direction.name());
                text.append(" not possible for 2D mesh");
                text
            },
            GeometryError::BoundaryVertex { vertex_id, direction } => {
                let id = shown(vertex_id);
                let mut text = String::from_str("vertex: ");
                text.append(id.as_str());
                text.append(" is a boundary vertex, nothing exists ");
                text.append(direction.name());
                text.append(" of it");
                assert(shows(*vertex_id, id@));
                text
            },
            GeometryError::InvalidVertexID => String::from_str("vertex must have non zero id"),
            GeometryError::VertexLimitExceeded { limit, attempted } => {
                let most = shown(limit);
                let asked = shown(attempted);
                let mut text = String::from_str("vertex limit exceeded ");
                text.append(asked.as_str());
                text.append(" of ");
                text.append(most.as_str());
                assert(shows(*limit, most@) && shows(*attempted, asked@));
                text
            },
            GeometryError::InvalidVertexCoordinate { coordinate, expected, received } => {
                let mut text = shown(coordinate);
                let ghost axis = text@;
                let wanted = written(number, *expected);
                let got = written(number, *received);
                text.append("-coordinate must be ");
                text.append(wanted.as_str());
                text.append(" for a 2D mesh, received ");
                text.append(got.as_str());
                assert(shows(*coordinate, axis) && writes(*number, *expected, wanted@) && writes(
                    *number,
                    *received,
                    got@,
                ));
                text
            },
        }
    }
}

/// What building or querying a grid as a whole can report.
#[derive(Debug)]
pub enum MeshError {
    /// The grid holds no vertex yet.
    EmptyMesh,
    /// Two vertices carry one id.
    DuplicateVertexIds { v1: Vertex, v2: Vertex },
    /// A grid needs two points or more along each axis.
    DegenerateGrid { nx: u32, ny: u32 },
    /// The grid would hold more vertices than ids can number.
    GridTooLarge { nx: u32, ny: u32 },
    /// The length of the domain is not greater than zero.
    InvalidLength { lenx: Double },
    /// The height of the domain at a column is negative, infinite or no
    /// number at all.
    InvalidHeight { column: u32, height: Double },
    /// The number of columns handed over is not the grid's `nx`.
    ColumnCount { expected: u32, received: usize },
    /// The number of rows handed over for a column is not the grid's `ny`.
    RowCount { column: u32, expected: u32, received: usize },
}

impl MeshError {
    /// Whether `text` is the message of the error, with the numbers in it as
    /// `number` writes them.
    pub open spec fn is_message<F: Fn(Double) -> String>(self, number: F, text: Seq<char>) -> bool {
        match self {
            MeshError::EmptyMesh => text == "mesh is empty"@,
            MeshError::DuplicateVertexIds { v1, v2 } => exists|first: Seq<char>, second: Seq<char>|
                {
                    &&& #[trigger] v1.is_text(number, first)
                    &&& #[trigger] v2.is_text(number, second)
                    &&& text == "duplicate vertices found: "@ + first + ", "@ + second
                },
            MeshError::DegenerateGrid { nx, ny } => exists|along_x: Seq<char>, along_y: Seq<char>|
                {
                    &&& #[trigger] shows(nx, along_x)
                    &&& #[trigger] shows(ny, along_y)
                    &&& text == "a mesh needs two points or more along each axis, not "@ + along_x
                        + " by "@ + along_y
                },
            MeshError::GridTooLarge { nx, ny } => exists|along_x: Seq<char>, along_y: Seq<char>|
                {
                    &&& #[trigger] shows(nx, along_x)
                    &&& #[trigger] shows(ny, along_y)
                    &&& text == "a mesh of "@ + along_x + " by "@ + along_y
                        + " points has more vertices than ids"@
                },
            MeshError::InvalidLength { lenx } => exists|length: Seq<char>|
                #[trigger] writes(number, lenx, length) && text
                    == "domain length must be greater than zero, received "@ + length,
            MeshError::InvalidHeight { column, height } => exists|at: Seq<char>, got: Seq<char>|
                {
                    &&& #[trigger] shows(column, at)
                    &&& #[trigger] writes(number, height, got)
                    &&& text == "domain height at column "@ + at
                        + " must be finite and not negative, received "@ + got
                },
            MeshError::ColumnCount { expected, received } => exists|
                wanted: Seq<char>,
                got: Seq<char>,
            |
                {
                    &&& #[trigger] shows(expected, wanted)
                    &&& #[trigger] shows(received, got)
                    &&& text == "expected "@ + wanted + " columns, received "@ + got
                },
            MeshError::RowCount { column, expected, received } => exists|
                at: Seq<char>,
                wanted: Seq<char>,
                got: Seq<char>,
            |
                {
                    &&& #[trigger] shows(column, at)
                    &&& #[trigger] shows(expected, wanted)
                    &&& #[trigger] shows(received, got)
                    &&& text == "expected "@ + wanted + " rows in column "@ + at + ", received "@
                        + got
                },
        }
    }

    /// The message of the error.
    pub fn message<F: Fn(Double) -> String>(&self, number: &F) -> (text: String)
        requires
            writes_all(*number),
        ensures
            self.is_message(*number, text@),
    {
        match self {
            MeshError::EmptyMesh => String::from_str("mesh is empty"),
            MeshError::DuplicateVertexIds { v1, v2 } => {
                let first = v1.to_text(number);
                let second = v2.to_text(number);
                let mut text = String::from_str("duplicate vertices found: ");
                text.append(first.as_str());
                text.append(", ");
                text.append(second.as_str());
                assert(v1.is_text(*number, first@) && v2.is_text(*number, second@));
                text
            },
            MeshError::DegenerateGrid { nx, ny } => {
                let along_x = shown(nx);
                let along_y = shown(ny);
                let mut text = String::from_str(
                    "a mesh needs two points or more along each axis, not ",
                );
                text.append(along_x.as_str());
                text.append(" by ");
                text.append(along_y.as_str());
                assert(shows(*nx, along_x@) && shows(*ny, along_y@));
                text
            },
            MeshError::GridTooLarge { nx, ny } => {
                let along_x = shown(nx);
                let along_y = shown(ny);
                let mut text = String::from_str("a mesh of ");
                text.append(along_x.as_str());
                text.append(" by ");
                text.append(along_y.as_str());
                text.append(" points has more vertices than ids");
                assert(shows(*nx, along_x@) && shows(*ny, along_y@));
                text
            },
            MeshError::InvalidLength { lenx } => {
                let length = written(number, *lenx);
                let mut text = String::from_str(
                    "domain length must be greater than zero, received ",
                );
                text.append(length.as_str());
                assert(writes(*number, *lenx, length@));
                text
            },
            MeshError::InvalidHeight { column, height } => {
                let at = shown(column);
                let got = written(number, *height);
                let mut text = String::from_str("domain height at column ");
                text.append(at.as_str());
                text.append(" must be finite and not negative, received ");
                text.append(got.as_str());
                assert(shows(*column, at@) && writes(*number, *height, got@));
                text
            },
            MeshError::ColumnCount { expected, received } => {
                let wanted = shown(expected);
                let got = shown(received);
                let mut text = String::from_str("expected ");
                text.append(wanted.as_str());
                text.append(" columns, received ");
                text.append(got.as_str());
                assert(shows(*expected, wanted@) && shows(*received, got@));
                text
            },
            MeshError::RowCount { column, expected, received } => {
                let at = shown(column);
                let wanted = shown(expected);
                let got = shown(received);
                let mut text = String::from_str("expected ");
                text.append(wanted.as_str());
                text.append(" rows in column ");
                text.append(at.as_str());
                text.append(", received ");
                text.append(got.as_str());
                assert(shows(*column, at@) && shows(*expected, wanted@) && shows(*received, got@));
                text
            },
        }
    }
}

} // verus!
