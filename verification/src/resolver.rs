//! The rule resolver and variant picker: filter the catalog by team,
//! material and solidity compatibility, select the winning descriptor by
//! priority (catalog order breaks ties), then pick one of its variants.

use vstd::prelude::*;

use rand::seq::IteratorRandom;
use rand::SeedableRng;

use crate::coords::TileCoord;
use crate::descriptor::{mask_compatible, team_filter_matches, TileDescriptor};
use crate::grid::{lookup, solidity_mask_spec, TileGrid};
use crate::seed::{derive_seed, seed_for};
use crate::tiles::{Adjacencies, Team, Tile, TileSprite, Variant};

verus! {

/// Whether a descriptor passes the resolver's filters: the team filter (if a
/// team is set), the material filter (if a material is set), and mask
/// compatibility with the sampled solidity pattern.
pub open spec fn builder_matches(
    d: TileDescriptor,
    team: Option<Team>,
    tile: Option<Tile>,
    solid: Seq<bool>,
) -> bool {
    &&& (team matches Some(t) ==> team_filter_matches(d.team, t))
    &&& (tile matches Some(t) ==> d.tile == t)
    &&& mask_compatible(d.can_be_solid@, d.must_be_solid@, solid)
}

/// The index of the winning descriptor: among those that pass the filters,
/// the one of highest priority, and of those the one listed first.
pub open spec fn best_match_index(
    s: Seq<TileDescriptor>,
    team: Option<Team>,
    tile: Option<Tile>,
    solid: Seq<bool>,
) -> Option<int>
    decreases s.len(),
{
    if s.len() == 0 {
        None
    } else {
        let rest = best_match_index(s.drop_last(), team, tile, solid);
        if !builder_matches(s.last(), team, tile, solid) {
            rest
        } else {
            match rest {
                None => Some(s.len() - 1),
                Some(b) => if s.last().priority > s[b].priority {
                    Some(s.len() - 1)
                } else {
                    Some(b)
                },
            }
        }
    }
}

/// What makes the winner the winner: it passes the filters, no descriptor
/// that passes them has a higher priority, and every earlier one that passes
/// them has a strictly lower priority; and there is no winner exactly when no
/// descriptor passes the filters.
pub proof fn lemma_best_match_properties(
    s: Seq<TileDescriptor>,
    team: Option<Team>,
    tile: Option<Tile>,
    solid: Seq<bool>,
)
    ensures
        match best_match_index(s, team, tile, solid) {
            None => forall|j: int|
                0 <= j < s.len() ==> !builder_matches(s[j], team, tile, solid),
            Some(b) => {
                &&& 0 <= b < s.len()
                &&& builder_matches(s[b], team, tile, solid)
                &&& forall|j: int|
                    0 <= j < s.len() && builder_matches(s[j], team, tile, solid) ==> s[j].priority
                        <= s[b].priority
                &&& forall|j: int|
                    0 <= j < b && builder_matches(s[j], team, tile, solid) ==> s[j].priority
                        < s[b].priority
            },
        },
    decreases s.len(),
{
    if s.len() > 0 {
        lemma_best_match_properties(s.drop_last(), team, tile, solid);
        assert(forall|j: int| 0 <= j < s.len() - 1 ==> s.drop_last()[j] == s[j]);
    }
}

/// Of two descriptors that both pass the filters, the higher-priority one
/// wins no matter which order the catalog lists them in; with equal
/// priorities the one listed first wins.
pub proof fn lemma_priority_order(
    a: TileDescriptor,
    b: TileDescriptor,
    team: Option<Team>,
    tile: Option<Tile>,
    solid: Seq<bool>,
)
    requires
        builder_matches(a, team, tile, solid),
        builder_matches(b, team, tile, solid),
    ensures
        a.priority > b.priority ==> best_match_index(seq![a, b], team, tile, solid) == Some(0int)
            && best_match_index(seq![b, a], team, tile, solid) == Some(1int),
        a.priority == b.priority ==> best_match_index(seq![a, b], team, tile, solid) == Some(0int)
            && best_match_index(seq![b, a], team, tile, solid) == Some(0int),
{
    let ab = seq![a, b];
    let ba = seq![b, a];
    let e = Seq::<TileDescriptor>::empty();
    assert(best_match_index(e, team, tile, solid) is None);
    assert(seq![a].drop_last() =~= e);
    assert(seq![b].drop_last() =~= e);
    assert(best_match_index(seq![a], team, tile, solid) == Some(0int));
    assert(best_match_index(seq![b], team, tile, solid) == Some(0int));
    assert(ab.drop_last() =~= seq![a]);
    assert(ba.drop_last() =~= seq![b]);
    assert(ab.last() == b && ab[0] == a);
    assert(ba.last() == a && ba[0] == b);
    if a.priority > b.priority {
        assert(best_match_index(ab, team, tile, solid) == Some(0int));
        assert(best_match_index(ba, team, tile, solid) == Some(1int));
    }
    if a.priority == b.priority {
        assert(best_match_index(ab, team, tile, solid) == Some(0int));
        assert(best_match_index(ba, team, tile, solid) == Some(0int));
    }
}

/// A descriptor with conflicting masks (a direction required solid but not
/// allowed solid) is never the winner, whatever the catalog around it and
/// whatever the sampled mask: it is excluded from matching by construction.
pub proof fn lemma_conflicting_descriptor_never_wins(
    s: Seq<TileDescriptor>,
    team: Option<Team>,
    tile: Option<Tile>,
    solid: Seq<bool>,
    j: int,
)
    requires
        0 <= j < s.len(),
        solid.len() == 8,
        !crate::descriptor::masks_well_formed(s[j].can_be_solid@, s[j].must_be_solid@),
    ensures
        best_match_index(s, team, tile, solid) != Some(j),
{
    crate::descriptor::lemma_conflicting_masks_never_match(
        s[j].can_be_solid@,
        s[j].must_be_solid@,
    );
    if best_match_index(s, team, tile, solid) == Some(j) {
        lemma_best_match_properties(s, team, tile, solid);
        assert(builder_matches(s[j], team, tile, solid));
    }
}

/// The index that rand's seeded generator picks among `n` items: a pure
/// function of the seed and the item count.
pub uninterp spec fn random_pick_index(seed: u64, n: nat) -> int;

/// Relies on rand's `IteratorRandom::choose` over a slice iterator, driven by
/// `StdRng::seed_from_u64`. A slice iterator reports an exact size, so
/// `choose` returns `None` exactly on an empty slice and otherwise the
/// element at one generated in-range index; `StdRng` is a portable seeded
/// generator, so that index depends on the seed and the length alone.
#[verifier::external_body]
fn choose_sprite(seed: u64, variants: &Vec<TileSprite>) -> (r: Option<TileSprite>)
    ensures
        r is None <==> variants@.len() == 0,
        r matches Some(s) ==> s == variants@[random_pick_index(seed, variants@.len())],
        r matches Some(s) ==> 0 <= random_pick_index(seed, variants@.len()) < variants@.len(),
{
    variants.iter().choose(&mut rand::rngs::StdRng::seed_from_u64(seed)).copied()
}

/// The sprite a variant directive picks from the winning descriptor's
/// candidate list: the first entry for `Default`, the seeded random entry for
/// `Random`, the indexed entry for `Fixed`; `None` when the list is empty or
/// the index is out of range.
pub open spec fn pick_variant(d: TileDescriptor, directive: Variant, seed: u64) -> Option<
    TileSprite,
> {
    match directive {
        Variant::Default => if d.variants@.len() == 0 {
            None
        } else {
            Some(d.variants@[0])
        },
        Variant::Random => if d.variants@.len() == 0 {
            None
        } else {
            Some(d.variants@[random_pick_index(seed, d.variants@.len())])
        },
        Variant::Fixed(i) => if (i as int) < d.variants@.len() {
            Some(d.variants@[i as int])
        } else {
            None
        },
    }
}

/// Builds up the inputs of one tile's resolution, then resolves and picks.
pub struct TileSpriteBuilder<'a> {
    /// The seed for the random variant pick.
    pub seed: u64,
    /// The descriptor catalog, in authored order.
    pub tiles: &'a Vec<TileDescriptor>,
    /// The tile's material, if set; unset means no material filtering.
    pub tile: Option<Tile>,
    /// The tile's team, if set; unset means no team filtering.
    pub team: Option<Team>,
    /// The tile's variant directive.
    pub variant: Variant,
    /// The sampled 8-neighbor solidity mask.
    pub adjacent_solid: [bool; 8],
    /// The index of the winning descriptor, once resolved.
    pub winner: Option<usize>,
}

/// Whether an executable winner index agrees with the specified one.
pub open spec fn winner_agrees(w: Option<usize>, b: Option<int>) -> bool {
    match (w, b) {
        (Option::None, Option::None) => true,
        (Option::Some(w), Option::Some(b)) => w as int == b,
        _ => false,
    }
}

/// The sprite the builder's current state resolves to.
pub open spec fn result_spec(b: TileSpriteBuilder<'_>) -> Option<TileSprite> {
    match b.winner {
        Some(w) => if (w as int) < b.tiles@.len() {
            pick_variant(b.tiles@[w as int], b.variant, b.seed)
        } else {
            None
        },
        None => None,
    }
}

impl<'a> TileSpriteBuilder<'a> {
    /// A fresh builder over a catalog: no filters set, no neighbor solid, the
    /// default variant directive, seed zero, not yet resolved.
    pub fn new(tiles: &'a Vec<TileDescriptor>) -> (r: TileSpriteBuilder<'a>)
        ensures
            r.seed == 0,
            r.tiles == tiles,
            r.tile is None,
            r.team is None,
            r.variant == Variant::Default,
            r.adjacent_solid@ =~= Seq::new(8, |i: int| false),
            r.winner is None,
    {
        let r = TileSpriteBuilder {
            seed: 0,
            tiles,
            variant: Variant::Default,
            tile: None,
            team: None,
            adjacent_solid: [false, false, false, false, false, false, false, false],
            winner: None,
        };
        proof {
            assert(r.adjacent_solid@ =~= Seq::new(8, |i: int| false));
        }
        r
    }

    /// Record whether the neighbor in direction `place` is solid.
    pub fn set_adjacent(&mut self, place: Adjacencies, to: bool)
        ensures
            final(self).adjacent_solid@ == old(self).adjacent_solid@.update(
                place.index_spec(),
                to,
            ),
            final(self).seed == old(self).seed,
            final(self).tiles == old(self).tiles,
            final(self).tile == old(self).tile,
            final(self).team == old(self).team,
            final(self).variant == old(self).variant,
            final(self).winner == old(self).winner,
    {
        let i = place.index();
        self.adjacent_solid[i] = to;
    }

    /// Set the tile's material.
    pub fn set_tile(&mut self, tile: Tile)
        ensures
            final(self).tile == Some(tile),
            final(self).seed == old(self).seed,
            final(self).tiles == old(self).tiles,
            final(self).team == old(self).team,
            final(self).variant == old(self).variant,
            final(self).adjacent_solid == old(self).adjacent_solid,
            final(self).winner == old(self).winner,
    {
        self.tile = Some(tile)
    }

    /// Set the tile's variant directive.
    pub fn set_variant(&mut self, variant: Variant)
        ensures
            final(self).variant == variant,
            final(self).seed == old(self).seed,
            final(self).tiles == old(self).tiles,
            final(self).tile == old(self).tile,
            final(self).team == old(self).team,
            final(self).adjacent_solid == old(self).adjacent_solid,
            final(self).winner == old(self).winner,
    {
        self.variant = variant
    }

    /// Set the tile's team.
    pub fn set_team(&mut self, team: Team)
        ensures
            final(self).team == Some(team),
            final(self).seed == old(self).seed,
            final(self).tiles == old(self).tiles,
            final(self).tile == old(self).tile,
            final(self).variant == old(self).variant,
            final(self).adjacent_solid == old(self).adjacent_solid,
            final(self).winner == old(self).winner,
    {
        self.team = Some(team)
    }

    /// Set the seed for the random variant pick.
    pub fn set_seed(&mut self, seed: u64)
        ensures
            final(self).seed == seed,
            final(self).tiles == old(self).tiles,
            final(self).tile == old(self).tile,
            final(self).team == old(self).team,
            final(self).variant == old(self).variant,
            final(self).adjacent_solid == old(self).adjacent_solid,
            final(self).winner == old(self).winner,
    {
        self.seed = seed;
    }

    /// Run the rule resolver: find the winning descriptor for the filters
    /// set so far.
    pub fn resolve(&mut self) -> (r: bool)
        ensures
            r == true,
            final(self).seed == old(self).seed,
            final(self).tiles == old(self).tiles,
            final(self).tile == old(self).tile,
            final(self).team == old(self).team,
            final(self).variant == old(self).variant,
            final(self).adjacent_solid == old(self).adjacent_solid,
            winner_agrees(
                final(self).winner,
                best_match_index(
                    old(self).tiles@,
                    old(self).team,
                    old(self).tile,
                    old(self).adjacent_solid@,
                ),
            ),
    {
        let n = self.tiles.len();
        let mut best: Option<usize> = None;
        let mut i: usize = 0;
        proof {
            assert(self.tiles@.take(0) =~= Seq::<TileDescriptor>::empty());
        }
        while i < n
            invariant
                0 <= i <= n,
                n == self.tiles@.len(),
                *self == *old(self),
                winner_agrees(
                    best,
                    best_match_index(
                        self.tiles@.take(i as int),
                        self.team,
                        self.tile,
                        self.adjacent_solid@,
                    ),
                ),
                best matches Some(b) ==> b < i,
            decreases n - i,
        {
            let ghost pre = self.tiles@.take(i as int);
            let d = &self.tiles[i];
            let team_ok = match self.team {
                Some(t) => d.is_team(t),
                None => true,
            };
            let tile_ok = match self.tile {
                Some(t) => d.is_tile(t),
                None => true,
            };
            let solid_ok = d.test_solid(self.adjacent_solid);
            if team_ok && tile_ok && solid_ok {
                best = match best {
                    None => Some(i),
                    Some(b) => if d.priority > self.tiles[b].priority {
                        Some(i)
                    } else {
                        Some(b)
                    },
                };
            }
            proof {
                let cur = self.tiles@.take(i as int + 1);
                assert(cur.drop_last() =~= pre);
                assert(cur.last() == self.tiles@[i as int]);
            }
            i = i + 1;
        }
        proof {
            assert(self.tiles@.take(n as int) =~= self.tiles@);
        }
        self.winner = best;
        true
    }

    /// Run the variant picker on the winning descriptor: the resolved sprite,
    /// or `None` on a resolution miss.
    pub fn result(&self) -> (r: Option<TileSprite>)
        ensures
            r == result_spec(*self),
            r matches Some(v) ==> (self.winner matches Some(w) && (w as int) < self.tiles@.len()
                && self.tiles@[w as int].variants@.contains(v)),
    {
        let w = match self.winner {
            Some(w) => w,
            None => { return None },
        };
        if w >= self.tiles.len() {
            return None;
        }
        let d = &self.tiles[w];
        match self.variant {
            Variant::Default => {
                if d.variants.len() == 0 {
                    None
                } else {
                    let v = d.variants[0];
                    proof {
                        assert(d.variants@[0] == v);
                    }
                    Some(v)
                }
            },
            Variant::Random => {
                let r = choose_sprite(self.seed, &d.variants);
                proof {
                    match r {
                        Some(v) => {
                            assert(d.variants@[random_pick_index(self.seed, d.variants@.len())]
                                == v);
                        },
                        None => {},
                    }
                }
                r
            },
            Variant::Fixed(index) => {
                if (index as usize) < d.variants.len() {
                    let v = d.variants[index as usize];
                    proof {
                        assert(d.variants@[index as int] == v);
                    }
                    Some(v)
                } else {
                    None
                }
            },
        }
    }
}

} // verus!
