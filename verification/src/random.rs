use vstd::prelude::*;
use rand::Rng;
use rand::rngs::SmallRng;

verus! {

#[verifier::external_type_specification]
#[verifier::external_body]
pub struct ExSmallRng(rand::rngs::SmallRng);

/// Draws an integer from `0..high` with `rand`'s `Rng::gen_range` on a
/// `SmallRng`.  Claimed of it: the result lies in the half-open range
/// (its documented contract for a non-empty range); which value comes out
/// depends on the generator's state, of which nothing is stated.
#[verifier::external_body]
fn gen_below(rng: &mut SmallRng, high: i32) -> (r: i32)
    requires
        high > 0,
    ensures
        0 <= r < high,
{
    rng.gen_range(0..high)
}

/// The edge of the arena on which a respawned fighter appears.
#[derive(Clone, Copy, Debug, PartialEq, Eq, Structural)]
pub enum SpawnEdge {
    Left,
    Right,
    Bottom,
    Top,
}

/// The edge that a draw from `0..4` selects.
pub open spec fn spec_edge_of(draw: i32) -> SpawnEdge {
    if draw == 0 {
        SpawnEdge::Left
    } else if draw == 1 {
        SpawnEdge::Right
    } else if draw == 2 {
        SpawnEdge::Bottom
    } else {
        SpawnEdge::Top
    }
}

/// The edge that a draw from `0..4` selects: 0 left, 1 right, 2 bottom,
/// 3 top.
pub fn edge_of(draw: i32) -> (r: SpawnEdge)
    requires
        0 <= draw < 4,
    ensures
        r == spec_edge_of(draw),
{
    if draw == 0 {
        SpawnEdge::Left
    } else if draw == 1 {
        SpawnEdge::Right
    } else if draw == 2 {
        SpawnEdge::Bottom
    } else {
        SpawnEdge::Top
    }
}

/// Picks the edge for a respawning fighter: one draw from `0..4` with the
/// game's generator, mapped by `edge_of`.  Every edge can come out; which
/// one does depends on the generator's state.
pub fn choose_spawn_edge(rng: &mut SmallRng) -> SpawnEdge {
    let draw = gen_below(rng, 4);
    edge_of(draw)
}

} // verus!
