//! Integer 3D grid coordinates and compass-direction stepping.

use vstd::prelude::*;

use crate::tiles::Adjacencies;

verus! {

/// An integer 3D grid coordinate: x and y give the plane position, z the
/// layer, so several placements may share an (x, y) footprint on different
/// layers.
#[derive(Clone, Copy, PartialEq, Eq, Structural, Debug)]
pub struct TileCoord {
    pub x: i32,
    pub y: i32,
    pub z: i32,
}

/// The x offset of one step in a compass direction.
pub open spec fn delta_x(dir: Adjacencies) -> i32 {
    match dir {
        Adjacencies::UpLeft => -1i32,
        Adjacencies::Up => 0i32,
        Adjacencies::UpRight => 1i32,
        Adjacencies::Right => 1i32,
        Adjacencies::DownRight => 1i32,
        Adjacencies::Down => 0i32,
        Adjacencies::DownLeft => -1i32,
        Adjacencies::Left => -1i32,
    }
}

/// The y offset of one step in a compass direction.
pub open spec fn delta_y(dir: Adjacencies) -> i32 {
    match dir {
        Adjacencies::UpLeft => 1i32,
        Adjacencies::Up => 1i32,
        Adjacencies::UpRight => 1i32,
        Adjacencies::Right => 0i32,
        Adjacencies::DownRight => -1i32,
        Adjacencies::Down => -1i32,
        Adjacencies::DownLeft => -1i32,
        Adjacencies::Left => 0i32,
    }
}

impl TileCoord {
    /// The coordinate one step away in a compass direction. The z layer is
    /// unchanged; x and y wrap around at the i32 boundary.
    pub open spec fn neighbor_spec(self, dir: Adjacencies) -> TileCoord {
        TileCoord {
            x: self.x.wrapping_add(delta_x(dir)),
            y: self.y.wrapping_add(delta_y(dir)),
            z: self.z,
        }
    }

    /// Step one tile in a compass direction.
    pub fn neighbor(&self, dir: Adjacencies) -> (r: TileCoord)
        ensures
            r == self.neighbor_spec(dir),
    {
        let dx: i32 = match dir {
            Adjacencies::UpLeft => -1,
            Adjacencies::Up => 0,
            Adjacencies::UpRight => 1,
            Adjacencies::Right => 1,
            Adjacencies::DownRight => 1,
            Adjacencies::Down => 0,
            Adjacencies::DownLeft => -1,
            Adjacencies::Left => -1,
        };
        let dy: i32 = match dir {
            Adjacencies::UpLeft => 1,
            Adjacencies::Up => 1,
            Adjacencies::UpRight => 1,
            Adjacencies::Right => 0,
            Adjacencies::DownRight => -1,
            Adjacencies::Down => -1,
            Adjacencies::DownLeft => -1,
            Adjacencies::Left => 0,
        };
        TileCoord { x: self.x.wrapping_add(dx), y: self.y.wrapping_add(dy), z: self.z }
    }
}

} // verus!
