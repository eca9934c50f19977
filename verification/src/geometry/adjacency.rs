//! What holds of stepping between neighbours.

use vstd::prelude::*;
use vstd::arithmetic::div_mod::lemma_small_mod;
use crate::geometry::vertex::{
    lemma_not_multiple_is_below, Dimensions, Direction, Vertex, VertexCollection, WriteOrder,
};
use crate::utils::error::GeometryError;
use crate::utils::flat_index::lemma_remainder_ends;

verus! {

/// Ids are dense and never reused: the vertex at position `k` carries the id
/// `k + 1`, so no two vertices share an id and every id from one to the
/// length is taken.
pub proof fn lemma_ids_dense(c: VertexCollection)
    requires
        c.wf(),
    ensures
        forall|k: int| 0 <= k < c@.len() ==> (#[trigger] c@[k]).id == k + 1,
        forall|j: int, k: int|
            0 <= j < c@.len() && 0 <= k < c@.len() && j != k ==> (#[trigger] c@[j]).id != (
            #[trigger] c@[k]).id,
        forall|id: int| c.has(id) ==> (#[trigger] c@[id - 1]).id == id,
{
}

/// The steps on which going there and back fails although the step there
/// succeeds.
///
/// With rows of a single vertex the `JIK` test for the southern face never
/// holds, so a step `South` leaves a vertex that has nothing to its north.
/// Above the first layer of a three-dimensional grid, the step against the
/// slow in-plane axis (`South` under `IJK`, `West` under `JIK`) leaves a
/// vertex that the test for the opposite face counts as on it.
pub open spec fn one_way_step(
    shape: Dimensions,
    order: WriteOrder,
    id: int,
    direction: Direction,
) -> bool {
    ||| order == WriteOrder::JIK && direction == Direction::South && shape.ny() == 1
    ||| order == WriteOrder::IJK && direction == Direction::South && id > shape.plane()
    ||| order == WriteOrder::JIK && direction == Direction::West && id > shape.plane()
}

/// Adjacency is symmetric: where a vertex has a neighbour in some direction,
/// that neighbour's neighbour in the opposite direction is the vertex itself.
///
/// This holds of every step but the one-way steps, none of which occurs in a
/// two-dimensional grid whose rows hold two vertices or more.
pub proof fn lemma_adjacency_symmetric(c: VertexCollection, id: int, direction: Direction)
    requires
        c.wf(),
        c.adjacent(id, direction) is Ok,
        !one_way_step(c.shape(), c.order(), id, direction),
    ensures
        c.has(id),
        c.adjacent(c.adjacent(id, direction)->Ok_0.id as int, direction.opposite_spec()) == Ok::<
            Vertex,
            GeometryError,
        >(c@[id - 1]),
{
    let shape = c.shape();
    let order = c.order();
    let nx = shape.nx();
    let ny = shape.ny();
    let next = shape.neighbour(order, id, direction);
    let back = direction.opposite_spec();
    shape.lemma_products_bounded();
    assert(c.has(next));
    assert(c@[next - 1].id == next);
    assert(shape.admits(back));
    if ny >= 2 && id >= 1 {
        lemma_remainder_ends(id - 1, ny);
        lemma_remainder_ends(id, ny);
    }
    assert(!shape.on_boundary(order, next, back));
    assert(shape.neighbour(order, next, back) == id);
}

/// In a full grid a vertex that is not on the face it is asked about has its
/// neighbour: the boundary test alone decides whether the step succeeds.
///
/// The one exception is the first vertex under `JIK` with rows of a single
/// vertex: the test does not count it as on the southern face, and the step
/// `South` leads to the id zero.
pub proof fn lemma_full_grid_has_every_neighbour(
    c: VertexCollection,
    id: int,
    direction: Direction,
)
    requires
        c.wf(),
        c.is_full(),
        c.has(id),
        c.shape().admits(direction),
        !(c.order() == WriteOrder::JIK && direction == Direction::South && c.shape().ny() == 1
            && id == 1),
    ensures
        c.adjacent(id, direction) is Ok <==> !c.shape().on_boundary(c.order(), id, direction),
{
    let shape = c.shape();
    shape.lemma_products_bounded();
    if !shape.on_boundary(c.order(), id, direction) {
        let next = shape.neighbour(c.order(), id, direction);
        lemma_not_multiple_is_below(id, shape.nx(), shape.total());
        lemma_not_multiple_is_below(id, shape.ny(), shape.total());
        if shape.ny() >= 2 {
            lemma_small_mod(1, shape.ny() as nat);
        }
        lemma_small_mod(0, shape.nx() as nat);
        assert(1 <= next <= shape.total());
    }
}

} // verus!
