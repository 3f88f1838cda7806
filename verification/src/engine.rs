//! The full per-tile resolution: sample the neighbors, resolve the catalog,
//! pick the variant; and the batch driver over a dirty set of coordinates.

use vstd::prelude::*;

use crate::coords::TileCoord;
use crate::descriptor::TileDescriptor;
use crate::grid::{lookup, neighbor_is_solid, solidity_mask_spec, Block, TileGrid};
use crate::resolver::{best_match_index, pick_variant, TileSpriteBuilder};
use crate::seed::{derive_seed, seed_for};
use crate::tiles::{Adjacencies, TileSprite};

verus! {

/// The resolved sprite of the tile at `c`: a pure function of the placement
/// at `c`, the placements of its eight neighbors, the catalog, and (for the
/// `Random` directive) the coordinate-derived seed. `None` when no placement
/// is at `c`, when no descriptor matches (a resolution miss), or when the
/// directive picks no variant.
pub open spec fn resolution(
    catalog: Seq<TileDescriptor>,
    blocks: Seq<Block>,
    c: TileCoord,
) -> Option<TileSprite> {
    match lookup(blocks, c) {
        Some(bl) => match best_match_index(
            catalog,
            Some(bl.color),
            Some(bl.tile),
            solidity_mask_spec(blocks, c),
        ) {
            Some(w) => pick_variant(catalog[w], bl.variant, seed_for(c.x, c.y, c.z)),
            None => None,
        },
        None => None,
    }
}

/// Whether a resolution outcome, where it produced a sprite, picked it from
/// the winning descriptor's candidate list.
pub open spec fn outcome_in_winner_list(
    catalog: Seq<TileDescriptor>,
    blocks: Seq<Block>,
    c: TileCoord,
    r: Option<TileSprite>,
) -> bool {
    match (lookup(blocks, c), r) {
        (Some(bl), Some(v)) => match best_match_index(
            catalog,
            Some(bl.color),
            Some(bl.tile),
            solidity_mask_spec(blocks, c),
        ) {
            Some(w) => catalog[w].variants@.contains(v),
            None => true,
        },
        _ => true,
    }
}

/// Resolve the tile at `c` against the catalog and the grid. A resolved
/// sprite is always one of the winning descriptor's candidates.
pub fn resolve_tile(catalog: &Vec<TileDescriptor>, grid: &TileGrid, c: TileCoord) -> (r: Option<
    TileSprite,
>)
    ensures
        r == resolution(catalog@, grid@, c),
        outcome_in_winner_list(catalog@, grid@, c, r),
{
    let bl = match grid.get(c) {
        Some(b) => b,
        None => { return None },
    };
    let mut builder = TileSpriteBuilder::new(catalog);
    builder.set_team(bl.color);
    builder.set_tile(bl.tile);
    builder.set_variant(bl.variant);
    builder.set_adjacent(Adjacencies::UpLeft, neighbor_is_solid(grid, c, Adjacencies::UpLeft));
    builder.set_adjacent(Adjacencies::Up, neighbor_is_solid(grid, c, Adjacencies::Up));
    builder.set_adjacent(Adjacencies::UpRight, neighbor_is_solid(grid, c, Adjacencies::UpRight));
    builder.set_adjacent(Adjacencies::Right, neighbor_is_solid(grid, c, Adjacencies::Right));
    builder.set_adjacent(
        Adjacencies::DownRight,
        neighbor_is_solid(grid, c, Adjacencies::DownRight),
    );
    builder.set_adjacent(Adjacencies::Down, neighbor_is_solid(grid, c, Adjacencies::Down));
    builder.set_adjacent(Adjacencies::DownLeft, neighbor_is_solid(grid, c, Adjacencies::DownLeft));
    builder.set_adjacent(Adjacencies::Left, neighbor_is_solid(grid, c, Adjacencies::Left));
    builder.set_seed(derive_seed(c.x, c.y, c.z));
    proof {
        assert(builder.adjacent_solid@ =~= solidity_mask_spec(grid@, c));
    }
    builder.resolve();
    proof {
        crate::resolver::lemma_best_match_properties(
            catalog@,
            Some(bl.color),
            Some(bl.tile),
            solidity_mask_spec(grid@, c),
        );
    }
    builder.result()
}

/// Resolve every coordinate of a dirty set, in order; entry i is the outcome
/// for coordinate i.
pub fn resolve_batch(
    catalog: &Vec<TileDescriptor>,
    grid: &TileGrid,
    dirty: &Vec<TileCoord>,
) -> (r: Vec<Option<TileSprite>>)
    ensures
        r@.len() == dirty@.len(),
        forall|i: int| 0 <= i < dirty@.len() ==> r@[i] == resolution(catalog@, grid@, dirty@[i]),
        forall|i: int|
            0 <= i < dirty@.len() ==> outcome_in_winner_list(catalog@, grid@, dirty@[i], r@[i]),
{
    let n = dirty.len();
    let mut r: Vec<Option<TileSprite>> = Vec::new();
    let mut i: usize = 0;
    while i < n
        invariant
            0 <= i <= n,
            n == dirty@.len(),
            r@.len() == i,
            forall|j: int| 0 <= j < i ==> r@[j] == resolution(catalog@, grid@, dirty@[j]),
            forall|j: int|
                0 <= j < i ==> outcome_in_winner_list(catalog@, grid@, dirty@[j], r@[j]),
        decreases n - i,
    {
        r.push(resolve_tile(catalog, grid, dirty[i]));
        i = i + 1;
    }
    r
}

/// The sprite a tile shows after one resolution pass: the resolved sprite, or
/// the previous one on a resolution miss.
pub open spec fn updated_sprite(prev: TileSprite, outcome: Option<TileSprite>) -> TileSprite {
    match outcome {
        Some(s) => s,
        None => prev,
    }
}

/// Apply one resolution outcome to a tile's current sprite: a miss leaves the
/// sprite unchanged.
pub fn apply_resolution(prev: TileSprite, outcome: Option<TileSprite>) -> (r: TileSprite)
    ensures
        r == updated_sprite(prev, outcome),
{
    match outcome {
        Some(s) => s,
        None => prev,
    }
}

/// Resolving a tile twice with unchanged inputs yields the identical sprite:
/// a second pass over an already-updated tile never changes it again, whether
/// the first pass resolved it or missed.
pub proof fn lemma_resolution_idempotent(
    catalog: Seq<TileDescriptor>,
    blocks: Seq<Block>,
    c: TileCoord,
    prev: TileSprite,
)
    ensures
        ({
            let once = updated_sprite(prev, resolution(catalog, blocks, c));
            updated_sprite(once, resolution(catalog, blocks, c)) == once
        }),
{
}

} // verus!
