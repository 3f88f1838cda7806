//! Tile placements, the coordinate-keyed grid that holds them, and the
//! 8-neighbor solidity sampler.

use vstd::prelude::*;

use crate::coords::TileCoord;
use crate::tiles::{Adjacencies, Team, Tile, Variant};

verus! {

/// One entry of a loaded level: a placement of a material at a coordinate,
/// with its team and variant directive.
#[derive(Clone, Copy, PartialEq, Eq, Structural, Debug)]
pub struct Block {
    pub tile: Tile,
    pub color: Team,
    pub translation: TileCoord,
    pub variant: Variant,
}

/// The placements of a loaded level, in script order.
pub struct MapData {
    pub blocks: Vec<Block>,
}

/// The first placement in `blocks` that claims coordinate `c`, if any.
pub open spec fn lookup(blocks: Seq<Block>, c: TileCoord) -> Option<Block>
    decreases blocks.len(),
{
    if blocks.len() == 0 {
        None
    } else if blocks[0].translation == c {
        Some(blocks[0])
    } else {
        lookup(blocks.drop_first(), c)
    }
}

/// No two placements share a coordinate.
pub open spec fn distinct_coords(blocks: Seq<Block>) -> bool {
    forall|i: int, j: int|
        0 <= i < j < blocks.len() ==> blocks[i].translation != blocks[j].translation
}

/// Looking up one more placement at the back changes nothing but the
/// coordinates that were absent before.
pub proof fn lemma_lookup_push(blocks: Seq<Block>, b: Block, c: TileCoord)
    ensures
        lookup(blocks.push(b), c) == if lookup(blocks, c) is Some {
            lookup(blocks, c)
        } else if b.translation == c {
            Some(b)
        } else {
            None::<Block>
        },
    decreases blocks.len(),
{
    if blocks.len() == 0 {
        assert(blocks.push(b).drop_first() =~= Seq::<Block>::empty());
    } else {
        assert(blocks.push(b).drop_first() =~= blocks.drop_first().push(b));
        lemma_lookup_push(blocks.drop_first(), b, c);
    }
}

/// A lookup misses exactly when no placement claims the coordinate.
pub proof fn lemma_lookup_none(blocks: Seq<Block>, c: TileCoord)
    ensures
        lookup(blocks, c) is None <==> forall|i: int|
            0 <= i < blocks.len() ==> blocks[i].translation != c,
    decreases blocks.len(),
{
    if blocks.len() > 0 {
        lemma_lookup_none(blocks.drop_first(), c);
        assert(forall|i: int|
            1 <= i < blocks.len() ==> blocks[i] == blocks.drop_first()[i - 1]);
    }
}

/// The placements of a level, keyed by coordinate: the first placement that
/// claims a coordinate is kept, later ones are silently dropped. Lookups
/// scan the placements linearly, which is plenty for hand-authored levels.
pub struct TileGrid {
    blocks: Vec<Block>,
}

impl View for TileGrid {
    type V = Seq<Block>;

    closed spec fn view(&self) -> Seq<Block> {
        self.blocks@
    }
}

impl TileGrid {
    /// An empty grid.
    pub fn new() -> (r: TileGrid)
        ensures
            r@ == Seq::<Block>::empty(),
    {
        TileGrid { blocks: Vec::new() }
    }

    /// The placement at coordinate `c`, if any.
    pub fn get(&self, c: TileCoord) -> (r: Option<Block>)
        ensures
            r == lookup(self@, c),
    {
        let n = self.blocks.len();
        let mut i: usize = 0;
        proof {
            assert(self@.skip(0) =~= self@);
        }
        while i < n
            invariant
                0 <= i <= n,
                n == self.blocks@.len(),
                lookup(self@, c) == lookup(self@.skip(i as int), c),
            decreases n - i,
        {
            proof {
                assert(self@.skip(i as int)[0] == self@[i as int]);
                assert(self@.skip(i as int).drop_first() =~= self@.skip(i as int + 1));
            }
            if self.blocks[i].translation == c {
                return Some(self.blocks[i]);
            }
            i = i + 1;
        }
        proof {
            assert(self@.skip(n as int) =~= Seq::<Block>::empty());
        }
        None
    }

    /// Whether no placement claims coordinate `c`.
    pub fn empty(&self, c: TileCoord) -> (r: bool)
        ensures
            r == (lookup(self@, c) is None),
    {
        match self.get(c) {
            Some(_) => false,
            None => true,
        }
    }

    /// Insert a placement unless its coordinate is already claimed; returns
    /// whether the placement was kept.
    pub fn add(&mut self, b: Block) -> (r: bool)
        ensures
            lookup(old(self)@, b.translation) is Some ==> r == false && final(self)@ == old(
                self,
            )@,
            lookup(old(self)@, b.translation) is None ==> r == true && final(self)@ == old(
                self,
            )@.push(b),
    {
        if self.empty(b.translation) {
            self.blocks.push(b);
            true
        } else {
            false
        }
    }
}

/// Build the grid of a loaded level: placements are inserted in script order
/// and the first placement claiming a coordinate wins.
pub fn build_grid(map: &MapData) -> (r: TileGrid)
    ensures
        distinct_coords(r@),
        forall|c: TileCoord| lookup(r@, c) == lookup(map.blocks@, c),
{
    let n = map.blocks.len();
    let mut grid = TileGrid::new();
    let mut i: usize = 0;
    while i < n
        invariant
            0 <= i <= n,
            n == map.blocks@.len(),
            distinct_coords(grid@),
            forall|c: TileCoord| lookup(grid@, c) == lookup(#[trigger] map.blocks@.take(i as int), c),
        decreases n - i,
    {
        let ghost pre = grid@;
        let b = map.blocks[i];
        let kept = grid.add(b);
        proof {
            lemma_lookup_none(pre, b.translation);
            if kept {
                assert forall|k: int, j: int|
                    0 <= k < j < grid@.len() implies grid@[k].translation != grid@[j].translation by {
                    if j < pre.len() {
                    } else {
                        assert(grid@[j] == b);
                    }
                }
            }
            assert forall|c: TileCoord|
                #[trigger] lookup(grid@, c) == lookup(map.blocks@.take(i as int + 1), c) by {
                assert(map.blocks@.take(i as int + 1) =~= map.blocks@.take(i as int).push(b));
                lemma_lookup_push(map.blocks@.take(i as int), b, c);
                if kept {
                    lemma_lookup_push(pre, b, c);
                }
            }
        }
        i = i + 1;
    }
    proof {
        assert(map.blocks@.take(n as int) =~= map.blocks@);
    }
    grid
}

/// Whether the neighbor of `c` one step in direction `dir` holds a solid
/// tile. An absent neighbor is not solid.
pub open spec fn neighbor_solid(blocks: Seq<Block>, c: TileCoord, dir: Adjacencies) -> bool {
    match lookup(blocks, c.neighbor_spec(dir)) {
        Some(b) => b.tile.is_solid_spec(),
        None => false,
    }
}

/// The 8-neighbor solidity mask of `c`, in mask order.
pub open spec fn solidity_mask_spec(blocks: Seq<Block>, c: TileCoord) -> Seq<bool> {
    Seq::new(8, |i: int| neighbor_solid(blocks, c, Adjacencies::from_index_spec(i)))
}

/// Whether the neighbor of `c` in direction `dir` holds a solid tile.
pub fn neighbor_is_solid(grid: &TileGrid, c: TileCoord, dir: Adjacencies) -> (r: bool)
    ensures
        r == neighbor_solid(grid@, c, dir),
{
    match grid.get(c.neighbor(dir)) {
        Some(b) => b.tile.is_solid(),
        None => false,
    }
}

/// Sample the 8-neighbor solidity mask of `c`, in mask order.
pub fn solidity_mask(grid: &TileGrid, c: TileCoord) -> (r: [bool; 8])
    ensures
        r@ == solidity_mask_spec(grid@, c),
{
    let r: [bool; 8] = [
        neighbor_is_solid(grid, c, Adjacencies::UpLeft),
        neighbor_is_solid(grid, c, Adjacencies::Up),
        neighbor_is_solid(grid, c, Adjacencies::UpRight),
        neighbor_is_solid(grid, c, Adjacencies::Right),
        neighbor_is_solid(grid, c, Adjacencies::DownRight),
        neighbor_is_solid(grid, c, Adjacencies::Down),
        neighbor_is_solid(grid, c, Adjacencies::DownLeft),
        neighbor_is_solid(grid, c, Adjacencies::Left),
    ];
    proof {
        assert(r@ =~= solidity_mask_spec(grid@, c));
    }
    r
}

} // verus!
