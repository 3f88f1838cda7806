//! Tile descriptors: the authored sprite-selection rules of the catalog.

use vstd::prelude::*;

use crate::bytes::push_str_bytes;
use crate::tiles::{Team, Tile, TileSprite};

verus! {

/// An authored rule mapping a (material, team, solidity-pattern) condition to
/// a priority and an ordered list of candidate sprites. Descriptors are data,
/// loaded from the catalog; the resolver never mutates them.
#[derive(Clone, Debug, PartialEq, Eq)]
pub struct TileDescriptor {
    /// A human label; never matched against.
    pub name: Vec<u8>,
    /// Higher priority wins; catalog order breaks ties.
    pub priority: i8,
    /// The material this rule applies to.
    pub tile: Tile,
    /// The team filter: `Team::Any` matches every team.
    pub team: Team,
    /// Per direction, whether a solid neighbor is allowed there.
    pub can_be_solid: [bool; 8],
    /// Per direction, whether a solid neighbor is required there.
    pub must_be_solid: [bool; 8],
    /// The ordered candidate sprites.
    pub variants: Vec<TileSprite>,
}

/// The mathematical value of a descriptor.
pub struct DescriptorView {
    pub name: Seq<u8>,
    pub priority: i8,
    pub tile: Tile,
    pub team: Team,
    pub can_be_solid: Seq<bool>,
    pub must_be_solid: Seq<bool>,
    pub variants: Seq<TileSprite>,
}

impl View for TileDescriptor {
    type V = DescriptorView;

    open spec fn view(&self) -> DescriptorView {
        DescriptorView {
            name: self.name@,
            priority: self.priority,
            tile: self.tile,
            team: self.team,
            can_be_solid: self.can_be_solid@,
            must_be_solid: self.must_be_solid@,
            variants: self.variants@,
        }
    }
}

/// Whether a descriptor's team filter accepts a tile's team: `Any` accepts
/// every team, otherwise the teams must be equal.
pub open spec fn team_filter_matches(filter: Team, team: Team) -> bool {
    filter is Any || filter == team
}

/// Whether descriptor masks accept a sampled 8-neighbor solidity mask: a
/// solid neighbor must be allowed by `can`, and a non-solid neighbor must not
/// be required by `must`.
pub open spec fn mask_compatible(can: Seq<bool>, must: Seq<bool>, solid: Seq<bool>) -> bool
    recommends
        can.len() == 8,
        must.len() == 8,
        solid.len() == 8,
{
    forall|i: int| 0 <= i < 8 ==> ((solid[i] ==> can[i]) && (!solid[i] ==> !must[i]))
}

/// Whether the two masks are free of authoring conflicts: no direction is
/// both required solid and not allowed solid.
pub open spec fn masks_well_formed(can: Seq<bool>, must: Seq<bool>) -> bool
    recommends
        can.len() == 8,
        must.len() == 8,
{
    forall|i: int| 0 <= i < 8 ==> (must[i] ==> can[i])
}

/// A descriptor whose masks conflict in some direction is excluded from
/// matching by construction: no sampled solidity mask is compatible with it.
pub proof fn lemma_conflicting_masks_never_match(can: Seq<bool>, must: Seq<bool>)
    requires
        can.len() == 8,
        must.len() == 8,
        !masks_well_formed(can, must),
    ensures
        forall|solid: Seq<bool>| solid.len() == 8 ==> !mask_compatible(can, must, solid),
{
    let i = choose|i: int| 0 <= i < 8 && must[i] && !can[i];
    assert forall|solid: Seq<bool>| solid.len() == 8 implies !mask_compatible(
        can,
        must,
        solid,
    ) by {
        if solid[i] {
            assert(!(solid[i] ==> can[i]));
        } else {
            assert(!(!solid[i] ==> !must[i]));
        }
    }
}

impl TileDescriptor {
    /// Whether this descriptor's team filter accepts `team`.
    pub fn is_team(&self, team: Team) -> (r: bool)
        ensures
            r == team_filter_matches(self.team, team),
    {
        if let Team::Any = self.team {
            return true;
        }
        self.team == team
    }

    /// Whether this descriptor targets material `tile`.
    pub fn is_tile(&self, tile: Tile) -> (r: bool)
        ensures
            r == (self.tile == tile),
    {
        self.tile == tile
    }

    /// Whether this descriptor's masks accept the sampled solidity mask.
    pub fn test_solid(&self, solid: [bool; 8]) -> (r: bool)
        ensures
            r == mask_compatible(self.can_be_solid@, self.must_be_solid@, solid@),
    {
        let mut i: usize = 0;
        while i < 8
            invariant
                0 <= i <= 8,
                forall|j: int|
                    0 <= j < i ==> ((solid@[j] ==> self.can_be_solid@[j]) && (!solid@[j]
                        ==> !self.must_be_solid@[j])),
            decreases 8 - i,
        {
            if solid[i] {
                if !self.can_be_solid[i] {
                    return false;
                }
            } else if self.must_be_solid[i] {
                return false;
            }
            i = i + 1;
        }
        true
    }

    /// Whether this descriptor is free of authoring conflicts in its masks.
    pub fn is_well_formed(&self) -> (r: bool)
        ensures
            r == masks_well_formed(self.can_be_solid@, self.must_be_solid@),
    {
        let mut i: usize = 0;
        while i < 8
            invariant
                0 <= i <= 8,
                forall|j: int| 0 <= j < i ==> (self.must_be_solid@[j] ==> self.can_be_solid@[j]),
            decreases 8 - i,
        {
            if self.must_be_solid[i] && !self.can_be_solid[i] {
                return false;
            }
            i = i + 1;
        }
        true
    }
}

/// The built-in descriptor for yellow grass-topped dirt.
pub open spec fn grass_yellow_up_view() -> DescriptorView {
    DescriptorView {
        name: seq![
            'G' as u8, 'r' as u8, 'a' as u8, 's' as u8, 's' as u8, ' ' as u8, 'Y' as u8,
            'e' as u8, 'l' as u8, 'l' as u8, 'o' as u8, 'w' as u8, ' ' as u8, 'U' as u8,
            'p' as u8,
        ],
        priority: 1i8,
        tile: Tile::Dirt,
        team: Team::Yellow,
        can_be_solid: seq![true, false, true, true, true, true, true, true],
        must_be_solid: seq![false, false, false, true, false, false, false, true],
        variants: seq![TileSprite::DirtEmpty, TileSprite::DirtBone, TileSprite::DirtBones],
    }
}

/// The built-in catch-all dirt descriptor.
pub open spec fn dirt_view() -> DescriptorView {
    DescriptorView {
        name: seq!['D' as u8, 'i' as u8, 'r' as u8, 't' as u8],
        priority: -1i8,
        tile: Tile::Dirt,
        team: Team::Any,
        can_be_solid: seq![true, true, true, true, true, true, true, true],
        must_be_solid: seq![false, false, false, false, false, false, false, false],
        variants: seq![TileSprite::DirtEmpty, TileSprite::DirtBone, TileSprite::DirtBones],
    }
}

impl TileDescriptor {
    /// The built-in descriptors that ship with the library.
    pub fn all() -> (r: Vec<TileDescriptor>)
        ensures
            r@.len() == 2,
            r@[0]@ == grass_yellow_up_view(),
            r@[1]@ == dirt_view(),
    {
        let mut grass_name: Vec<u8> = Vec::new();
        push_str_bytes(&mut grass_name, "Grass Yellow Up");
        let grass = TileDescriptor {
            name: grass_name,
            priority: 1,
            tile: Tile::Dirt,
            team: Team::Yellow,
            can_be_solid: [true, false, true, true, true, true, true, true],
            must_be_solid: [false, false, false, true, false, false, false, true],
            variants: vec![TileSprite::DirtEmpty, TileSprite::DirtBone, TileSprite::DirtBones],
        };
        let mut dirt_name: Vec<u8> = Vec::new();
        push_str_bytes(&mut dirt_name, "Dirt");
        let dirt = TileDescriptor {
            name: dirt_name,
            priority: -1,
            tile: Tile::Dirt,
            team: Team::Any,
            can_be_solid: [true, true, true, true, true, true, true, true],
            must_be_solid: [false, false, false, false, false, false, false, false],
            variants: vec![TileSprite::DirtEmpty, TileSprite::DirtBone, TileSprite::DirtBones],
        };
        proof {
            reveal_strlit("Grass Yellow Up");
            reveal_strlit("Dirt");
            assert(grass@.name =~= grass_yellow_up_view().name);
            assert(grass@.can_be_solid =~= grass_yellow_up_view().can_be_solid);
            assert(grass@.must_be_solid =~= grass_yellow_up_view().must_be_solid);
            assert(grass@.variants =~= grass_yellow_up_view().variants);
            assert(dirt@.name =~= dirt_view().name);
            assert(dirt@.can_be_solid =~= dirt_view().can_be_solid);
            assert(dirt@.must_be_solid =~= dirt_view().must_be_solid);
            assert(dirt@.variants =~= dirt_view().variants);
        }
        let r = vec![grass, dirt];
        r
    }
}

} // verus!
