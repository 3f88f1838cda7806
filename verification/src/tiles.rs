//! The tile materials, teams, variant directives, sprite identifiers and
//! compass adjacency directions that the resolution engine works over.

use vstd::prelude::*;

verus! {

/// The structural kind of a tile. It determines the solidity that
/// neighboring tiles sample, and which descriptors may apply.
#[derive(Clone, Copy, PartialEq, Eq, Structural, Debug)]
pub enum Tile {
    Dirt,
    Tree,
    Spring,
    Platform,
    Collectable,
}

impl Tile {
    /// Whether a placed tile of this material blocks its neighbors.
    pub open spec fn is_solid_spec(self) -> bool {
        self is Dirt
    }

    /// Whether a placed tile of this material is solid.
    pub fn is_solid(&self) -> (r: bool)
        ensures
            r == self.is_solid_spec(),
    {
        match self {
            Tile::Dirt => true,
            Tile::Tree => false,
            Tile::Spring => false,
            Tile::Platform => false,
            Tile::Collectable => false,
        }
    }
}

/// A palette/faction tag, used purely for descriptor filtering. `Any` is a
/// wildcard that matches every team; `Neutral` means the tile has no team.
#[derive(Clone, Copy, PartialEq, Eq, Structural, Debug)]
pub enum Team {
    Yellow,
    Pink,
    Any,
    Neutral,
}

/// A per-placement instruction for choosing among a winning descriptor's
/// candidate sprites: the first listed variant, a seeded pseudo-random pick,
/// or an explicit index into the variant list.
#[derive(Clone, Copy, PartialEq, Eq, Structural, Debug)]
pub enum Variant {
    Default,
    Random,
    Fixed(u8),
}

/// The eight compass-adjacent directions, in the fixed clockwise-from-up-left
/// order that descriptor masks are indexed by.
#[derive(Clone, Copy, PartialEq, Eq, Structural, Debug)]
pub enum Adjacencies {
    UpLeft,
    Up,
    UpRight,
    Right,
    DownRight,
    Down,
    DownLeft,
    Left,
}

impl Adjacencies {
    /// The position of this direction in an 8-element mask.
    pub open spec fn index_spec(self) -> int {
        match self {
            Adjacencies::UpLeft => 0,
            Adjacencies::Up => 1,
            Adjacencies::UpRight => 2,
            Adjacencies::Right => 3,
            Adjacencies::DownRight => 4,
            Adjacencies::Down => 5,
            Adjacencies::DownLeft => 6,
            Adjacencies::Left => 7,
        }
    }

    /// The position of this direction in an 8-element mask.
    pub fn index(&self) -> (r: usize)
        ensures
            r as int == self.index_spec(),
    {
        match self {
            Adjacencies::UpLeft => 0,
            Adjacencies::Up => 1,
            Adjacencies::UpRight => 2,
            Adjacencies::Right => 3,
            Adjacencies::DownRight => 4,
            Adjacencies::Down => 5,
            Adjacencies::DownLeft => 6,
            Adjacencies::Left => 7,
        }
    }

    /// The direction at a given mask position.
    pub open spec fn from_index_spec(i: int) -> Adjacencies {
        if i == 0 { Adjacencies::UpLeft }
        else if i == 1 { Adjacencies::Up }
        else if i == 2 { Adjacencies::UpRight }
        else if i == 3 { Adjacencies::Right }
        else if i == 4 { Adjacencies::DownRight }
        else if i == 5 { Adjacencies::Down }
        else if i == 6 { Adjacencies::DownLeft }
        else { Adjacencies::Left }
    }

    /// The direction at a given mask position.
    pub fn from_index(i: usize) -> (r: Adjacencies)
        requires
            i < 8,
        ensures
            r == Adjacencies::from_index_spec(i as int),
    {
        if i == 0 { Adjacencies::UpLeft }
        else if i == 1 { Adjacencies::Up }
        else if i == 2 { Adjacencies::UpRight }
        else if i == 3 { Adjacencies::Right }
        else if i == 4 { Adjacencies::DownRight }
        else if i == 5 { Adjacencies::Down }
        else if i == 6 { Adjacencies::DownLeft }
        else { Adjacencies::Left }
    }

    /// All eight directions, in mask order.
    pub fn all() -> (r: Vec<Adjacencies>)
        ensures
            r@.len() == 8,
            forall|i: int| 0 <= i < 8 ==> r@[i] == Adjacencies::from_index_spec(i),
    {
        let mut v: Vec<Adjacencies> = Vec::new();
        v.push(Adjacencies::UpLeft);
        v.push(Adjacencies::Up);
        v.push(Adjacencies::UpRight);
        v.push(Adjacencies::Right);
        v.push(Adjacencies::DownRight);
        v.push(Adjacencies::Down);
        v.push(Adjacencies::DownLeft);
        v.push(Adjacencies::Left);
        v
    }
}

/// A concrete sprite in the tile atlas, the final product of resolution.
#[derive(Clone, Copy, PartialEq, Eq, Structural, Debug)]
pub enum TileSprite {
    Air,
    TreeTopYellow,
    DirtEmpty,
    DirtLowLeftYellow,
    DirtLowYellow,
    DirtLowRightYellow,
    DirtTopSlopeUpYellow,
    DirtTopSlopeDownYellow,
    TreeTopPink,
    DirtBones,
    DirtLowLeftPink,
    DirtLowPink,
    DirtLowRightPink,
    DirtTopSlopeUpPink,
    DirtTopSlopeDownPink,
    SpringDown,
    TreeMiddleYellow,
    DirtSpots,
    DirtRightYellow,
    DirtFullYellow,
    DirtLeftYellow,
    DirtRightDotYellow,
    DirtLeftDotYellow,
    TreeMiddlePink,
    DirtBone,
    DirtRightPink,
    DirtFullPink,
    DirtLeftPink,
    DirtRightDotPink,
    DirtLeftDotPink,
    SpringUp,
    TreeBottomYellow,
    DirtCross,
    DirtTopRightYellow,
    DirtTopYellow,
    DirtTopLeftYellow,
    DirtBottomRightDotYellow,
    DirtBottomLeftDotYellow,
    TreeBottomPink,
    DirtSkull,
    DirtTopRightPink,
    DirtTopPink,
    DirtTopLeftPink,
    DirtBottomRightDotPink,
    DirtBottomLeftDotPink,
    PlatformOff,
    TreeStemYellow,
    AllBarBottomYellow,
    AllBarRightYellow,
    TopBottomYellow,
    AllBarLeftYellow,
    DirtBottomSlopeDownYellow,
    DirtBottomSlopeUpYellow,
    TreeStemPink,
    AllBarBottomPink,
    AllBarRightPink,
    TopBottomPink,
    AllBarLeftPink,
    DirtBottomSlopeDownPink,
    DirtBottomSlopeUpPink,
    PlatformOn,
    TreeTrunkYellow,
    LeftRightYellow,
    TopLeftYellow,
    TopRightYellow,
    GrassYellow,
    Key,
    Lock,
    TreeTrunkPink,
    LeftRightPink,
    TopLeftPink,
    TopRightPink,
    GrassPink,
    Flag,
    Pole,
    Spike,
    Void,
    AllBarTopYellow,
    BottomLeftYellow,
    BottomRightYellow,
    HeartFlowerYellow,
    Cloud,
    Smoke,
    Steam,
    AllBarTopPink,
    BottomLeftPink,
    BottomRightPink,
    HeartFlowerPink,
    Coin,
    Magnet,
    PlayerRedStand,
    PlayerRedWalk,
    PlayerRedJump,
    PlayerRedDie,
    RedCubeFace,
    RedCircle,
    RedDot,
    BlueCircleFace,
    BlueDiamond,
    BlueDots,
}

impl TileSprite {
    /// Whether a tile rendered with this sprite counts as solid.
    pub open spec fn is_solid_spec(self) -> bool {
        match self {
            TileSprite::Air => false,
            TileSprite::TreeTopYellow => true,
            TileSprite::DirtEmpty => true,
            TileSprite::DirtLowLeftYellow => true,
            TileSprite::DirtLowYellow => true,
            TileSprite::DirtLowRightYellow => true,
            TileSprite::DirtTopSlopeUpYellow => true,
            TileSprite::DirtTopSlopeDownYellow => true,
            TileSprite::TreeTopPink => true,
            TileSprite::DirtBones => true,
            TileSprite::DirtLowLeftPink => true,
            TileSprite::DirtLowPink => true,
            TileSprite::DirtLowRightPink => true,
            TileSprite::DirtTopSlopeUpPink => true,
            TileSprite::DirtTopSlopeDownPink => true,
            TileSprite::SpringDown => false,
            TileSprite::TreeMiddleYellow => true,
            TileSprite::DirtSpots => true,
            TileSprite::DirtRightYellow => true,
            TileSprite::DirtFullYellow => true,
            TileSprite::DirtLeftYellow => true,
            TileSprite::DirtRightDotYellow => true,
            TileSprite::DirtLeftDotYellow => true,
            TileSprite::TreeMiddlePink => true,
            TileSprite::DirtBone => true,
            TileSprite::DirtRightPink => true,
            TileSprite::DirtFullPink => true,
            TileSprite::DirtLeftPink => true,
            TileSprite::DirtRightDotPink => true,
            TileSprite::DirtLeftDotPink => true,
            TileSprite::SpringUp => false,
            TileSprite::TreeBottomYellow => true,
            TileSprite::DirtCross => true,
            TileSprite::DirtTopRightYellow => true,
            TileSprite::DirtTopYellow => true,
            TileSprite::DirtTopLeftYellow => true,
            TileSprite::DirtBottomRightDotYellow => true,
            TileSprite::DirtBottomLeftDotYellow => true,
            TileSprite::TreeBottomPink => true,
            TileSprite::DirtSkull => true,
            TileSprite::DirtTopRightPink => true,
            TileSprite::DirtTopPink => true,
            TileSprite::DirtTopLeftPink => true,
            TileSprite::DirtBottomRightDotPink => true,
            TileSprite::DirtBottomLeftDotPink => true,
            TileSprite::PlatformOff => false,
            TileSprite::TreeStemYellow => false,
            TileSprite::AllBarBottomYellow => true,
            TileSprite::AllBarRightYellow => true,
            TileSprite::TopBottomYellow => true,
            TileSprite::AllBarLeftYellow => true,
            TileSprite::DirtBottomSlopeDownYellow => true,
            TileSprite::DirtBottomSlopeUpYellow => true,
            TileSprite::TreeStemPink => false,
            TileSprite::AllBarBottomPink => true,
            TileSprite::AllBarRightPink => true,
            TileSprite::TopBottomPink => true,
            TileSprite::AllBarLeftPink => true,
            TileSprite::DirtBottomSlopeDownPink => true,
            TileSprite::DirtBottomSlopeUpPink => true,
            TileSprite::PlatformOn => false,
            TileSprite::TreeTrunkYellow => false,
            TileSprite::LeftRightYellow => true,
            TileSprite::TopLeftYellow => true,
            TileSprite::TopRightYellow => true,
            TileSprite::GrassYellow => false,
            TileSprite::Key => false,
            TileSprite::Lock => false,
            TileSprite::TreeTrunkPink => false,
            TileSprite::LeftRightPink => true,
            TileSprite::TopLeftPink => true,
            TileSprite::TopRightPink => true,
            TileSprite::GrassPink => false,
            TileSprite::Flag => false,
            TileSprite::Pole => false,
            TileSprite::Spike => false,
            TileSprite::Void => false,
            TileSprite::AllBarTopYellow => true,
            TileSprite::BottomLeftYellow => true,
            TileSprite::BottomRightYellow => true,
            TileSprite::HeartFlowerYellow => true,
            TileSprite::Cloud => false,
            TileSprite::Smoke => false,
            TileSprite::Steam => false,
            TileSprite::AllBarTopPink => true,
            TileSprite::BottomLeftPink => true,
            TileSprite::BottomRightPink => true,
            TileSprite::HeartFlowerPink => false,
            TileSprite::Coin => false,
            TileSprite::Magnet => false,
            TileSprite::PlayerRedStand => false,
            TileSprite::PlayerRedWalk => false,
            TileSprite::PlayerRedJump => false,
            TileSprite::PlayerRedDie => false,
            TileSprite::RedCubeFace => false,
            TileSprite::RedCircle => false,
            TileSprite::RedDot => false,
            TileSprite::BlueCircleFace => false,
            TileSprite::BlueDiamond => false,
            TileSprite::BlueDots => false,
        }
    }

    /// Whether a tile rendered with this sprite counts as solid.
    pub fn is_solid(&self) -> (r: bool)
        ensures
            r == self.is_solid_spec(),
    {
        match self {
            TileSprite::Air => false,
            TileSprite::TreeTopYellow => true,
            TileSprite::DirtEmpty => true,
            TileSprite::DirtLowLeftYellow => true,
            TileSprite::DirtLowYellow => true,
            TileSprite::DirtLowRightYellow => true,
            TileSprite::DirtTopSlopeUpYellow => true,
            TileSprite::DirtTopSlopeDownYellow => true,
            TileSprite::TreeTopPink => true,
            TileSprite::DirtBones => true,
            TileSprite::DirtLowLeftPink => true,
            TileSprite::DirtLowPink => true,
            TileSprite::DirtLowRightPink => true,
            TileSprite::DirtTopSlopeUpPink => true,
            TileSprite::DirtTopSlopeDownPink => true,
            TileSprite::SpringDown => false,
            TileSprite::TreeMiddleYellow => true,
            TileSprite::DirtSpots => true,
            TileSprite::DirtRightYellow => true,
            TileSprite::DirtFullYellow => true,
            TileSprite::DirtLeftYellow => true,
            TileSprite::DirtRightDotYellow => true,
            TileSprite::DirtLeftDotYellow => true,
            TileSprite::TreeMiddlePink => true,
            TileSprite::DirtBone => true,
            TileSprite::DirtRightPink => true,
            TileSprite::DirtFullPink => true,
            TileSprite::DirtLeftPink => true,
            TileSprite::DirtRightDotPink => true,
            TileSprite::DirtLeftDotPink => true,
            TileSprite::SpringUp => false,
            TileSprite::TreeBottomYellow => true,
            TileSprite::DirtCross => true,
            TileSprite::DirtTopRightYellow => true,
            TileSprite::DirtTopYellow => true,
            TileSprite::DirtTopLeftYellow => true,
            TileSprite::DirtBottomRightDotYellow => true,
            TileSprite::DirtBottomLeftDotYellow => true,
            TileSprite::TreeBottomPink => true,
            TileSprite::DirtSkull => true,
            TileSprite::DirtTopRightPink => true,
            TileSprite::DirtTopPink => true,
            TileSprite::DirtTopLeftPink => true,
            TileSprite::DirtBottomRightDotPink => true,
            TileSprite::DirtBottomLeftDotPink => true,
            TileSprite::PlatformOff => false,
            TileSprite::TreeStemYellow => false,
            TileSprite::AllBarBottomYellow => true,
            TileSprite::AllBarRightYellow => true,
            TileSprite::TopBottomYellow => true,
            TileSprite::AllBarLeftYellow => true,
            TileSprite::DirtBottomSlopeDownYellow => true,
            TileSprite::DirtBottomSlopeUpYellow => true,
            TileSprite::TreeStemPink => false,
            TileSprite::AllBarBottomPink => true,
            TileSprite::AllBarRightPink => true,
            TileSprite::TopBottomPink => true,
            TileSprite::AllBarLeftPink => true,
            TileSprite::DirtBottomSlopeDownPink => true,
            TileSprite::DirtBottomSlopeUpPink => true,
            TileSprite::PlatformOn => false,
            TileSprite::TreeTrunkYellow => false,
            TileSprite::LeftRightYellow => true,
            TileSprite::TopLeftYellow => true,
            TileSprite::TopRightYellow => true,
            TileSprite::GrassYellow => false,
            TileSprite::Key => false,
            TileSprite::Lock => false,
            TileSprite::TreeTrunkPink => false,
            TileSprite::LeftRightPink => true,
            TileSprite::TopLeftPink => true,
            TileSprite::TopRightPink => true,
            TileSprite::GrassPink => false,
            TileSprite::Flag => false,
            TileSprite::Pole => false,
            TileSprite::Spike => false,
            TileSprite::Void => false,
            TileSprite::AllBarTopYellow => true,
            TileSprite::BottomLeftYellow => true,
            TileSprite::BottomRightYellow => true,
            TileSprite::HeartFlowerYellow => true,
            TileSprite::Cloud => false,
            TileSprite::Smoke => false,
            TileSprite::Steam => false,
            TileSprite::AllBarTopPink => true,
            TileSprite::BottomLeftPink => true,
            TileSprite::BottomRightPink => true,
            TileSprite::HeartFlowerPink => false,
            TileSprite::Coin => false,
            TileSprite::Magnet => false,
            TileSprite::PlayerRedStand => false,
            TileSprite::PlayerRedWalk => false,
            TileSprite::PlayerRedJump => false,
            TileSprite::PlayerRedDie => false,
            TileSprite::RedCubeFace => false,
            TileSprite::RedCircle => false,
            TileSprite::RedDot => false,
            TileSprite::BlueCircleFace => false,
            TileSprite::BlueDiamond => false,
            TileSprite::BlueDots => false,
        }
    }

    /// The position of this sprite in the texture atlas.
    pub open spec fn atlas_index_spec(self) -> int {
        match self {
            TileSprite::Air => 0,
            TileSprite::TreeTopYellow => 1,
            TileSprite::DirtEmpty => 2,
            TileSprite::DirtLowLeftYellow => 3,
            TileSprite::DirtLowYellow => 4,
            TileSprite::DirtLowRightYellow => 5,
            TileSprite::DirtTopSlopeUpYellow => 6,
            TileSprite::DirtTopSlopeDownYellow => 7,
            TileSprite::TreeTopPink => 8,
            TileSprite::DirtBones => 9,
            TileSprite::DirtLowLeftPink => 10,
            TileSprite::DirtLowPink => 11,
            TileSprite::DirtLowRightPink => 12,
            TileSprite::DirtTopSlopeUpPink => 13,
            TileSprite::DirtTopSlopeDownPink => 14,
            TileSprite::SpringDown => 15,
            TileSprite::TreeMiddleYellow => 16,
            TileSprite::DirtSpots => 17,
            TileSprite::DirtRightYellow => 18,
            TileSprite::DirtFullYellow => 19,
            TileSprite::DirtLeftYellow => 20,
            TileSprite::DirtRightDotYellow => 21,
            TileSprite::DirtLeftDotYellow => 22,
            TileSprite::TreeMiddlePink => 23,
            TileSprite::DirtBone => 24,
            TileSprite::DirtRightPink => 25,
            TileSprite::DirtFullPink => 26,
            TileSprite::DirtLeftPink => 27,
            TileSprite::DirtRightDotPink => 28,
            TileSprite::DirtLeftDotPink => 29,
            TileSprite::SpringUp => 30,
            TileSprite::TreeBottomYellow => 31,
            TileSprite::DirtCross => 32,
            TileSprite::DirtTopRightYellow => 33,
            TileSprite::DirtTopYellow => 34,
            TileSprite::DirtTopLeftYellow => 35,
            TileSprite::DirtBottomRightDotYellow => 36,
            TileSprite::DirtBottomLeftDotYellow => 37,
            TileSprite::TreeBottomPink => 38,
            TileSprite::DirtSkull => 39,
            TileSprite::DirtTopRightPink => 40,
            TileSprite::DirtTopPink => 41,
            TileSprite::DirtTopLeftPink => 42,
            TileSprite::DirtBottomRightDotPink => 43,
            TileSprite::DirtBottomLeftDotPink => 44,
            TileSprite::PlatformOff => 45,
            TileSprite::TreeStemYellow => 46,
            TileSprite::AllBarBottomYellow => 47,
            TileSprite::AllBarRightYellow => 48,
            TileSprite::TopBottomYellow => 49,
            TileSprite::AllBarLeftYellow => 50,
            TileSprite::DirtBottomSlopeDownYellow => 51,
            TileSprite::DirtBottomSlopeUpYellow => 52,
            TileSprite::TreeStemPink => 53,
            TileSprite::AllBarBottomPink => 54,
            TileSprite::AllBarRightPink => 55,
            TileSprite::TopBottomPink => 56,
            TileSprite::AllBarLeftPink => 57,
            TileSprite::DirtBottomSlopeDownPink => 58,
            TileSprite::DirtBottomSlopeUpPink => 59,
            TileSprite::PlatformOn => 60,
            TileSprite::TreeTrunkYellow => 61,
            TileSprite::LeftRightYellow => 62,
            TileSprite::TopLeftYellow => 63,
            TileSprite::TopRightYellow => 64,
            TileSprite::GrassYellow => 65,
            TileSprite::Key => 66,
            TileSprite::Lock => 67,
            TileSprite::TreeTrunkPink => 68,
            TileSprite::LeftRightPink => 69,
            TileSprite::TopLeftPink => 70,
            TileSprite::TopRightPink => 71,
            TileSprite::GrassPink => 72,
            TileSprite::Flag => 73,
            TileSprite::Pole => 74,
            TileSprite::Spike => 75,
            TileSprite::Void => 76,
            TileSprite::AllBarTopYellow => 77,
            TileSprite::BottomLeftYellow => 78,
            TileSprite::BottomRightYellow => 79,
            TileSprite::HeartFlowerYellow => 80,
            TileSprite::Cloud => 81,
            TileSprite::Smoke => 82,
            TileSprite::Steam => 83,
            TileSprite::AllBarTopPink => 84,
            TileSprite::BottomLeftPink => 85,
            TileSprite::BottomRightPink => 86,
            TileSprite::HeartFlowerPink => 87,
            TileSprite::Coin => 88,
            TileSprite::Magnet => 89,
            TileSprite::PlayerRedStand => 90,
            TileSprite::PlayerRedWalk => 91,
            TileSprite::PlayerRedJump => 92,
            TileSprite::PlayerRedDie => 93,
            TileSprite::RedCubeFace => 94,
            TileSprite::RedCircle => 95,
            TileSprite::RedDot => 96,
            TileSprite::BlueCircleFace => 97,
            TileSprite::BlueDiamond => 98,
            TileSprite::BlueDots => 99,
        }
    }

    /// The position of this sprite in the texture atlas.
    pub fn atlas_index(&self) -> (r: usize)
        ensures
            r as int == self.atlas_index_spec(),
    {
        match self {
            TileSprite::Air => 0,
            TileSprite::TreeTopYellow => 1,
            TileSprite::DirtEmpty => 2,
            TileSprite::DirtLowLeftYellow => 3,
            TileSprite::DirtLowYellow => 4,
            TileSprite::DirtLowRightYellow => 5,
            TileSprite::DirtTopSlopeUpYellow => 6,
            TileSprite::DirtTopSlopeDownYellow => 7,
            TileSprite::TreeTopPink => 8,
            TileSprite::DirtBones => 9,
            TileSprite::DirtLowLeftPink => 10,
            TileSprite::DirtLowPink => 11,
            TileSprite::DirtLowRightPink => 12,
            TileSprite::DirtTopSlopeUpPink => 13,
            TileSprite::DirtTopSlopeDownPink => 14,
            TileSprite::SpringDown => 15,
            TileSprite::TreeMiddleYellow => 16,
            TileSprite::DirtSpots => 17,
            TileSprite::DirtRightYellow => 18,
            TileSprite::DirtFullYellow => 19,
            TileSprite::DirtLeftYellow => 20,
            TileSprite::DirtRightDotYellow => 21,
            TileSprite::DirtLeftDotYellow => 22,
            TileSprite::TreeMiddlePink => 23,
            TileSprite::DirtBone => 24,
            TileSprite::DirtRightPink => 25,
            TileSprite::DirtFullPink => 26,
            TileSprite::DirtLeftPink => 27,
            TileSprite::DirtRightDotPink => 28,
            TileSprite::DirtLeftDotPink => 29,
            TileSprite::SpringUp => 30,
            TileSprite::TreeBottomYellow => 31,
            TileSprite::DirtCross => 32,
            TileSprite::DirtTopRightYellow => 33,
            TileSprite::DirtTopYellow => 34,
            TileSprite::DirtTopLeftYellow => 35,
            TileSprite::DirtBottomRightDotYellow => 36,
            TileSprite::DirtBottomLeftDotYellow => 37,
            TileSprite::TreeBottomPink => 38,
            TileSprite::DirtSkull => 39,
            TileSprite::DirtTopRightPink => 40,
            TileSprite::DirtTopPink => 41,
            TileSprite::DirtTopLeftPink => 42,
            TileSprite::DirtBottomRightDotPink => 43,
            TileSprite::DirtBottomLeftDotPink => 44,
            TileSprite::PlatformOff => 45,
            TileSprite::TreeStemYellow => 46,
            TileSprite::AllBarBottomYellow => 47,
            TileSprite::AllBarRightYellow => 48,
            TileSprite::TopBottomYellow => 49,
            TileSprite::AllBarLeftYellow => 50,
            TileSprite::DirtBottomSlopeDownYellow => 51,
            TileSprite::DirtBottomSlopeUpYellow => 52,
            TileSprite::TreeStemPink => 53,
            TileSprite::AllBarBottomPink => 54,
            TileSprite::AllBarRightPink => 55,
            TileSprite::TopBottomPink => 56,
            TileSprite::AllBarLeftPink => 57,
            TileSprite::DirtBottomSlopeDownPink => 58,
            TileSprite::DirtBottomSlopeUpPink => 59,
            TileSprite::PlatformOn => 60,
            TileSprite::TreeTrunkYellow => 61,
            TileSprite::LeftRightYellow => 62,
            TileSprite::TopLeftYellow => 63,
            TileSprite::TopRightYellow => 64,
            TileSprite::GrassYellow => 65,
            TileSprite::Key => 66,
            TileSprite::Lock => 67,
            TileSprite::TreeTrunkPink => 68,
            TileSprite::LeftRightPink => 69,
            TileSprite::TopLeftPink => 70,
            TileSprite::TopRightPink => 71,
            TileSprite::GrassPink => 72,
            TileSprite::Flag => 73,
            TileSprite::Pole => 74,
            TileSprite::Spike => 75,
            TileSprite::Void => 76,
            TileSprite::AllBarTopYellow => 77,
            TileSprite::BottomLeftYellow => 78,
            TileSprite::BottomRightYellow => 79,
            TileSprite::HeartFlowerYellow => 80,
            TileSprite::Cloud => 81,
            TileSprite::Smoke => 82,
            TileSprite::Steam => 83,
            TileSprite::AllBarTopPink => 84,
            TileSprite::BottomLeftPink => 85,
            TileSprite::BottomRightPink => 86,
            TileSprite::HeartFlowerPink => 87,
            TileSprite::Coin => 88,
            TileSprite::Magnet => 89,
            TileSprite::PlayerRedStand => 90,
            TileSprite::PlayerRedWalk => 91,
            TileSprite::PlayerRedJump => 92,
            TileSprite::PlayerRedDie => 93,
            TileSprite::RedCubeFace => 94,
            TileSprite::RedCircle => 95,
            TileSprite::RedDot => 96,
            TileSprite::BlueCircleFace => 97,
            TileSprite::BlueDiamond => 98,
            TileSprite::BlueDots => 99,
        }
    }
}

/// How many sprites the atlas holds.
pub const SPRITE_COUNT: usize = 100;

/// The sprite at a given atlas position, if any.
pub open spec fn sprite_of_index_spec(n: int) -> Option<TileSprite> {
    if n == 0 { Some(TileSprite::Air) }
    else if n == 1 { Some(TileSprite::TreeTopYellow) }
    else if n == 2 { Some(TileSprite::DirtEmpty) }
    else if n == 3 { Some(TileSprite::DirtLowLeftYellow) }
    else if n == 4 { Some(TileSprite::DirtLowYellow) }
    else if n == 5 { Some(TileSprite::DirtLowRightYellow) }
    else if n == 6 { Some(TileSprite::DirtTopSlopeUpYellow) }
    else if n == 7 { Some(TileSprite::DirtTopSlopeDownYellow) }
    else if n == 8 { Some(TileSprite::TreeTopPink) }
    else if n == 9 { Some(TileSprite::DirtBones) }
    else if n == 10 { Some(TileSprite::DirtLowLeftPink) }
    else if n == 11 { Some(TileSprite::DirtLowPink) }
    else if n == 12 { Some(TileSprite::DirtLowRightPink) }
    else if n == 13 { Some(TileSprite::DirtTopSlopeUpPink) }
    else if n == 14 { Some(TileSprite::DirtTopSlopeDownPink) }
    else if n == 15 { Some(TileSprite::SpringDown) }
    else if n == 16 { Some(TileSprite::TreeMiddleYellow) }
    else if n == 17 { Some(TileSprite::DirtSpots) }
    else if n == 18 { Some(TileSprite::DirtRightYellow) }
    else if n == 19 { Some(TileSprite::DirtFullYellow) }
    else if n == 20 { Some(TileSprite::DirtLeftYellow) }
    else if n == 21 { Some(TileSprite::DirtRightDotYellow) }
    else if n == 22 { Some(TileSprite::DirtLeftDotYellow) }
    else if n == 23 { Some(TileSprite::TreeMiddlePink) }
    else if n == 24 { Some(TileSprite::DirtBone) }
    else if n == 25 { Some(TileSprite::DirtRightPink) }
    else if n == 26 { Some(TileSprite::DirtFullPink) }
    else if n == 27 { Some(TileSprite::DirtLeftPink) }
    else if n == 28 { Some(TileSprite::DirtRightDotPink) }
    else if n == 29 { Some(TileSprite::DirtLeftDotPink) }
    else if n == 30 { Some(TileSprite::SpringUp) }
    else if n == 31 { Some(TileSprite::TreeBottomYellow) }
    else if n == 32 { Some(TileSprite::DirtCross) }
    else if n == 33 { Some(TileSprite::DirtTopRightYellow) }
    else if n == 34 { Some(TileSprite::DirtTopYellow) }
    else if n == 35 { Some(TileSprite::DirtTopLeftYellow) }
    else if n == 36 { Some(TileSprite::DirtBottomRightDotYellow) }
    else if n == 37 { Some(TileSprite::DirtBottomLeftDotYellow) }
    else if n == 38 { Some(TileSprite::TreeBottomPink) }
    else if n == 39 { Some(TileSprite::DirtSkull) }
    else if n == 40 { Some(TileSprite::DirtTopRightPink) }
    else if n == 41 { Some(TileSprite::DirtTopPink) }
    else if n == 42 { Some(TileSprite::DirtTopLeftPink) }
    else if n == 43 { Some(TileSprite::DirtBottomRightDotPink) }
    else if n == 44 { Some(TileSprite::DirtBottomLeftDotPink) }
    else if n == 45 { Some(TileSprite::PlatformOff) }
    else if n == 46 { Some(TileSprite::TreeStemYellow) }
    else if n == 47 { Some(TileSprite::AllBarBottomYellow) }
    else if n == 48 { Some(TileSprite::AllBarRightYellow) }
    else if n == 49 { Some(TileSprite::TopBottomYellow) }
    else if n == 50 { Some(TileSprite::AllBarLeftYellow) }
    else if n == 51 { Some(TileSprite::DirtBottomSlopeDownYellow) }
    else if n == 52 { Some(TileSprite::DirtBottomSlopeUpYellow) }
    else if n == 53 { Some(TileSprite::TreeStemPink) }
    else if n == 54 { Some(TileSprite::AllBarBottomPink) }
    else if n == 55 { Some(TileSprite::AllBarRightPink) }
    else if n == 56 { Some(TileSprite::TopBottomPink) }
    else if n == 57 { Some(TileSprite::AllBarLeftPink) }
    else if n == 58 { Some(TileSprite::DirtBottomSlopeDownPink) }
    else if n == 59 { Some(TileSprite::DirtBottomSlopeUpPink) }
    else if n == 60 { Some(TileSprite::PlatformOn) }
    else if n == 61 { Some(TileSprite::TreeTrunkYellow) }
    else if n == 62 { Some(TileSprite::LeftRightYellow) }
    else if n == 63 { Some(TileSprite::TopLeftYellow) }
    else if n == 64 { Some(TileSprite::TopRightYellow) }
    else if n == 65 { Some(TileSprite::GrassYellow) }
    else if n == 66 { Some(TileSprite::Key) }
    else if n == 67 { Some(TileSprite::Lock) }
    else if n == 68 { Some(TileSprite::TreeTrunkPink) }
    else if n == 69 { Some(TileSprite::LeftRightPink) }
    else if n == 70 { Some(TileSprite::TopLeftPink) }
    else if n == 71 { Some(TileSprite::TopRightPink) }
    else if n == 72 { Some(TileSprite::GrassPink) }
    else if n == 73 { Some(TileSprite::Flag) }
    else if n == 74 { Some(TileSprite::Pole) }
    else if n == 75 { Some(TileSprite::Spike) }
    else if n == 76 { Some(TileSprite::Void) }
    else if n == 77 { Some(TileSprite::AllBarTopYellow) }
    else if n == 78 { Some(TileSprite::BottomLeftYellow) }
    else if n == 79 { Some(TileSprite::BottomRightYellow) }
    else if n == 80 { Some(TileSprite::HeartFlowerYellow) }
    else if n == 81 { Some(TileSprite::Cloud) }
    else if n == 82 { Some(TileSprite::Smoke) }
    else if n == 83 { Some(TileSprite::Steam) }
    else if n == 84 { Some(TileSprite::AllBarTopPink) }
    else if n == 85 { Some(TileSprite::BottomLeftPink) }
    else if n == 86 { Some(TileSprite::BottomRightPink) }
    else if n == 87 { Some(TileSprite::HeartFlowerPink) }
    else if n == 88 { Some(TileSprite::Coin) }
    else if n == 89 { Some(TileSprite::Magnet) }
    else if n == 90 { Some(TileSprite::PlayerRedStand) }
    else if n == 91 { Some(TileSprite::PlayerRedWalk) }
    else if n == 92 { Some(TileSprite::PlayerRedJump) }
    else if n == 93 { Some(TileSprite::PlayerRedDie) }
    else if n == 94 { Some(TileSprite::RedCubeFace) }
    else if n == 95 { Some(TileSprite::RedCircle) }
    else if n == 96 { Some(TileSprite::RedDot) }
    else if n == 97 { Some(TileSprite::BlueCircleFace) }
    else if n == 98 { Some(TileSprite::BlueDiamond) }
    else if n == 99 { Some(TileSprite::BlueDots) }
    else { None }
}

/// The sprite at a given atlas position, if any.
pub fn sprite_of_index(n: usize) -> (r: Option<TileSprite>)
    ensures
        r == sprite_of_index_spec(n as int),
{
    if n == 0 { Some(TileSprite::Air) }
    else if n == 1 { Some(TileSprite::TreeTopYellow) }
    else if n == 2 { Some(TileSprite::DirtEmpty) }
    else if n == 3 { Some(TileSprite::DirtLowLeftYellow) }
    else if n == 4 { Some(TileSprite::DirtLowYellow) }
    else if n == 5 { Some(TileSprite::DirtLowRightYellow) }
    else if n == 6 { Some(TileSprite::DirtTopSlopeUpYellow) }
    else if n == 7 { Some(TileSprite::DirtTopSlopeDownYellow) }
    else if n == 8 { Some(TileSprite::TreeTopPink) }
    else if n == 9 { Some(TileSprite::DirtBones) }
    else if n == 10 { Some(TileSprite::DirtLowLeftPink) }
    else if n == 11 { Some(TileSprite::DirtLowPink) }
    else if n == 12 { Some(TileSprite::DirtLowRightPink) }
    else if n == 13 { Some(TileSprite::DirtTopSlopeUpPink) }
    else if n == 14 { Some(TileSprite::DirtTopSlopeDownPink) }
    else if n == 15 { Some(TileSprite::SpringDown) }
    else if n == 16 { Some(TileSprite::TreeMiddleYellow) }
    else if n == 17 { Some(TileSprite::DirtSpots) }
    else if n == 18 { Some(TileSprite::DirtRightYellow) }
    else if n == 19 { Some(TileSprite::DirtFullYellow) }
    else if n == 20 { Some(TileSprite::DirtLeftYellow) }
    else if n == 21 { Some(TileSprite::DirtRightDotYellow) }
    else if n == 22 { Some(TileSprite::DirtLeftDotYellow) }
    else if n == 23 { Some(TileSprite::TreeMiddlePink) }
    else if n == 24 { Some(TileSprite::DirtBone) }
    else if n == 25 { Some(TileSprite::DirtRightPink) }
    else if n == 26 { Some(TileSprite::DirtFullPink) }
    else if n == 27 { Some(TileSprite::DirtLeftPink) }
    else if n == 28 { Some(TileSprite::DirtRightDotPink) }
    else if n == 29 { Some(TileSprite::DirtLeftDotPink) }
    else if n == 30 { Some(TileSprite::SpringUp) }
    else if n == 31 { Some(TileSprite::TreeBottomYellow) }
    else if n == 32 { Some(TileSprite::DirtCross) }
    else if n == 33 { Some(TileSprite::DirtTopRightYellow) }
    else if n == 34 { Some(TileSprite::DirtTopYellow) }
    else if n == 35 { Some(TileSprite::DirtTopLeftYellow) }
    else if n == 36 { Some(TileSprite::DirtBottomRightDotYellow) }
    else if n == 37 { Some(TileSprite::DirtBottomLeftDotYellow) }
    else if n == 38 { Some(TileSprite::TreeBottomPink) }
    else if n == 39 { Some(TileSprite::DirtSkull) }
    else if n == 40 { Some(TileSprite::DirtTopRightPink) }
    else if n == 41 { Some(TileSprite::DirtTopPink) }
    else if n == 42 { Some(TileSprite::DirtTopLeftPink) }
    else if n == 43 { Some(TileSprite::DirtBottomRightDotPink) }
    else if n == 44 { Some(TileSprite::DirtBottomLeftDotPink) }
    else if n == 45 { Some(TileSprite::PlatformOff) }
    else if n == 46 { Some(TileSprite::TreeStemYellow) }
    else if n == 47 { Some(TileSprite::AllBarBottomYellow) }
    else if n == 48 { Some(TileSprite::AllBarRightYellow) }
    else if n == 49 { Some(TileSprite::TopBottomYellow) }
    else if n == 50 { Some(TileSprite::AllBarLeftYellow) }
    else if n == 51 { Some(TileSprite::DirtBottomSlopeDownYellow) }
    else if n == 52 { Some(TileSprite::DirtBottomSlopeUpYellow) }
    else if n == 53 { Some(TileSprite::TreeStemPink) }
    else if n == 54 { Some(TileSprite::AllBarBottomPink) }
    else if n == 55 { Some(TileSprite::AllBarRightPink) }
    else if n == 56 { Some(TileSprite::TopBottomPink) }
    else if n == 57 { Some(TileSprite::AllBarLeftPink) }
    else if n == 58 { Some(TileSprite::DirtBottomSlopeDownPink) }
    else if n == 59 { Some(TileSprite::DirtBottomSlopeUpPink) }
    else if n == 60 { Some(TileSprite::PlatformOn) }
    else if n == 61 { Some(TileSprite::TreeTrunkYellow) }
    else if n == 62 { Some(TileSprite::LeftRightYellow) }
    else if n == 63 { Some(TileSprite::TopLeftYellow) }
    else if n == 64 { Some(TileSprite::TopRightYellow) }
    else if n == 65 { Some(TileSprite::GrassYellow) }
    else if n == 66 { Some(TileSprite::Key) }
    else if n == 67 { Some(TileSprite::Lock) }
    else if n == 68 { Some(TileSprite::TreeTrunkPink) }
    else if n == 69 { Some(TileSprite::LeftRightPink) }
    else if n == 70 { Some(TileSprite::TopLeftPink) }
    else if n == 71 { Some(TileSprite::TopRightPink) }
    else if n == 72 { Some(TileSprite::GrassPink) }
    else if n == 73 { Some(TileSprite::Flag) }
    else if n == 74 { Some(TileSprite::Pole) }
    else if n == 75 { Some(TileSprite::Spike) }
    else if n == 76 { Some(TileSprite::Void) }
    else if n == 77 { Some(TileSprite::AllBarTopYellow) }
    else if n == 78 { Some(TileSprite::BottomLeftYellow) }
    else if n == 79 { Some(TileSprite::BottomRightYellow) }
    else if n == 80 { Some(TileSprite::HeartFlowerYellow) }
    else if n == 81 { Some(TileSprite::Cloud) }
    else if n == 82 { Some(TileSprite::Smoke) }
    else if n == 83 { Some(TileSprite::Steam) }
    else if n == 84 { Some(TileSprite::AllBarTopPink) }
    else if n == 85 { Some(TileSprite::BottomLeftPink) }
    else if n == 86 { Some(TileSprite::BottomRightPink) }
    else if n == 87 { Some(TileSprite::HeartFlowerPink) }
    else if n == 88 { Some(TileSprite::Coin) }
    else if n == 89 { Some(TileSprite::Magnet) }
    else if n == 90 { Some(TileSprite::PlayerRedStand) }
    else if n == 91 { Some(TileSprite::PlayerRedWalk) }
    else if n == 92 { Some(TileSprite::PlayerRedJump) }
    else if n == 93 { Some(TileSprite::PlayerRedDie) }
    else if n == 94 { Some(TileSprite::RedCubeFace) }
    else if n == 95 { Some(TileSprite::RedCircle) }
    else if n == 96 { Some(TileSprite::RedDot) }
    else if n == 97 { Some(TileSprite::BlueCircleFace) }
    else if n == 98 { Some(TileSprite::BlueDiamond) }
    else if n == 99 { Some(TileSprite::BlueDots) }
    else { None }
}

/// Every sprite sits at an atlas position below `SPRITE_COUNT`, and looking
/// that position up yields the sprite back.
pub proof fn lemma_sprite_index_round_trip(s: TileSprite)
    ensures
        0 <= s.atlas_index_spec() < SPRITE_COUNT,
        sprite_of_index_spec(s.atlas_index_spec()) == Some(s),
{
}

/// Every atlas position below `SPRITE_COUNT` holds a sprite, whose atlas
/// position is that same index.
pub proof fn lemma_index_sprite_round_trip(n: int)
    requires
        0 <= n < SPRITE_COUNT,
    ensures
        sprite_of_index_spec(n) matches Some(s) && s.atlas_index_spec() == n,
{
}

} // verus!
