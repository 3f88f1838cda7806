use autotile::coords::TileCoord;
use autotile::descriptor::TileDescriptor;
use autotile::engine::{apply_resolution, resolve_batch, resolve_tile};
use autotile::grid::{build_grid, Block, MapData, TileGrid};
use autotile::resolver::TileSpriteBuilder;
use autotile::seed::derive_seed;
use autotile::tiles::{Adjacencies, Team, Tile, TileSprite, Variant};

fn coord(x: i32, y: i32, z: i32) -> TileCoord {
    TileCoord { x, y, z }
}

fn block(x: i32, y: i32, z: i32, tile: Tile, color: Team, variant: Variant) -> Block {
    Block { tile, color, translation: coord(x, y, z), variant }
}

fn descriptor(
    name: &str,
    priority: i8,
    tile: Tile,
    team: Team,
    can_be_solid: [bool; 8],
    must_be_solid: [bool; 8],
    variants: Vec<TileSprite>,
) -> TileDescriptor {
    TileDescriptor {
        name: name.as_bytes().to_vec(),
        priority,
        tile,
        team,
        can_be_solid,
        must_be_solid,
        variants,
    }
}

fn catch_all_dirt(priority: i8, variants: Vec<TileSprite>) -> TileDescriptor {
    descriptor(
        "dirt",
        priority,
        Tile::Dirt,
        Team::Any,
        [true; 8],
        [false; 8],
        variants,
    )
}

#[test]
fn derive_seed_formula() {
    // the documented formula, bit for bit
    assert_eq!(
        derive_seed(3, -2, 0),
        (((3i32 as u64) << 32) ^ (-2i32 as u64)).wrapping_add(0i32 as u64)
    );
    assert_eq!(derive_seed(3, -2, 0), 0xFFFF_FFFC_FFFF_FFFE);
    assert_eq!(derive_seed(0, 0, 0), 0);
    assert_eq!(derive_seed(1, 0, -1), (1u64 << 32).wrapping_add(u64::MAX));
    assert_eq!(
        derive_seed(i32::MIN, i32::MAX, -1),
        (((i32::MIN as u64) << 32) ^ (i32::MAX as u64)).wrapping_add(-1i32 as u64)
    );
}

#[test]
fn derive_seed_is_pure() {
    for &(x, y, z) in &[(3, -2, 0), (0, 0, 0), (-7, 13, 2), (i32::MAX, i32::MIN, -1)] {
        assert_eq!(derive_seed(x, y, z), derive_seed(x, y, z));
    }
}

#[test]
fn scenario_a_default_variant_on_lonely_tile() {
    // one catch-all dirt descriptor at priority -1, all eight neighbors absent
    let catalog = vec![catch_all_dirt(-1, vec![TileSprite::DirtEmpty])];
    let mut grid = TileGrid::new();
    assert!(grid.add(block(0, 0, 0, Tile::Dirt, Team::Neutral, Variant::Default)));
    assert_eq!(
        resolve_tile(&catalog, &grid, coord(0, 0, 0)),
        Some(TileSprite::DirtEmpty)
    );
}

#[test]
fn scenario_b_priority_wins_regardless_of_order() {
    let high = catch_all_dirt(1, vec![TileSprite::DirtBone, TileSprite::DirtBones]);
    let low = catch_all_dirt(-1, vec![TileSprite::DirtEmpty]);
    let mut grid = TileGrid::new();
    grid.add(block(0, 0, 0, Tile::Dirt, Team::Neutral, Variant::Default));

    let catalog = vec![high.clone(), low.clone()];
    assert_eq!(
        resolve_tile(&catalog, &grid, coord(0, 0, 0)),
        Some(TileSprite::DirtBone)
    );
    let reordered = vec![low, high];
    assert_eq!(
        resolve_tile(&reordered, &grid, coord(0, 0, 0)),
        Some(TileSprite::DirtBone)
    );
}

#[test]
fn equal_priority_keeps_catalog_order() {
    let first = catch_all_dirt(3, vec![TileSprite::DirtBone]);
    let second = catch_all_dirt(3, vec![TileSprite::DirtBones]);
    let mut grid = TileGrid::new();
    grid.add(block(0, 0, 0, Tile::Dirt, Team::Neutral, Variant::Default));

    let catalog = vec![first.clone(), second.clone()];
    assert_eq!(
        resolve_tile(&catalog, &grid, coord(0, 0, 0)),
        Some(TileSprite::DirtBone)
    );
    let reordered = vec![second, first];
    assert_eq!(
        resolve_tile(&reordered, &grid, coord(0, 0, 0)),
        Some(TileSprite::DirtBones)
    );
}

#[test]
fn scenario_c_missing_required_neighbor_is_a_miss() {
    // requires the Up neighbor solid, but it is absent
    let mut must = [false; 8];
    must[1] = true; // Up
    let needy = descriptor(
        "needs up",
        5,
        Tile::Dirt,
        Team::Any,
        [true; 8],
        must,
        vec![TileSprite::DirtBone],
    );
    let catalog = vec![needy];
    let mut grid = TileGrid::new();
    grid.add(block(0, 0, 0, Tile::Dirt, Team::Neutral, Variant::Default));
    let outcome = resolve_tile(&catalog, &grid, coord(0, 0, 0));
    assert_eq!(outcome, None);
    // the previous sprite is retained on a miss
    assert_eq!(
        apply_resolution(TileSprite::DirtSpots, outcome),
        TileSprite::DirtSpots
    );
}

#[test]
fn required_neighbor_present_matches() {
    let mut must = [false; 8];
    must[1] = true; // Up
    let needy = descriptor(
        "needs up",
        5,
        Tile::Dirt,
        Team::Any,
        [true; 8],
        must,
        vec![TileSprite::DirtBone],
    );
    let catalog = vec![needy];
    let mut grid = TileGrid::new();
    grid.add(block(0, 0, 0, Tile::Dirt, Team::Neutral, Variant::Default));
    grid.add(block(0, 1, 0, Tile::Dirt, Team::Neutral, Variant::Default));
    assert_eq!(
        resolve_tile(&catalog, &grid, coord(0, 0, 0)),
        Some(TileSprite::DirtBone)
    );
}

#[test]
fn solid_neighbor_where_not_allowed_excludes() {
    let mut can = [true; 8];
    can[3] = false; // Right must not be solid
    let picky = descriptor(
        "no right",
        5,
        Tile::Dirt,
        Team::Any,
        can,
        [false; 8],
        vec![TileSprite::DirtBone],
    );
    let catalog = vec![picky];
    let mut grid = TileGrid::new();
    grid.add(block(0, 0, 0, Tile::Dirt, Team::Neutral, Variant::Default));
    grid.add(block(1, 0, 0, Tile::Dirt, Team::Neutral, Variant::Default));
    assert_eq!(resolve_tile(&catalog, &grid, coord(0, 0, 0)), None);
    // a non-solid occupant (a tree) does not count as solid
    let mut grid2 = TileGrid::new();
    grid2.add(block(0, 0, 0, Tile::Dirt, Team::Neutral, Variant::Default));
    grid2.add(block(1, 0, 0, Tile::Tree, Team::Neutral, Variant::Default));
    assert_eq!(
        resolve_tile(&catalog, &grid2, coord(0, 0, 0)),
        Some(TileSprite::DirtBone)
    );
}

#[test]
fn scenario_d_random_pick_is_deterministic() {
    let variants = vec![
        TileSprite::DirtEmpty,
        TileSprite::DirtBone,
        TileSprite::DirtBones,
    ];
    let catalog = vec![catch_all_dirt(-1, variants.clone())];
    let mut grid = TileGrid::new();
    grid.add(block(3, -2, 0, Tile::Dirt, Team::Neutral, Variant::Random));
    let first = resolve_tile(&catalog, &grid, coord(3, -2, 0));
    let second = resolve_tile(&catalog, &grid, coord(3, -2, 0));
    assert_eq!(first, second);
    let picked = first.expect("a random pick among three variants");
    assert!(variants.contains(&picked));
}

#[test]
fn random_pick_of_single_variant_is_that_variant() {
    let catalog = vec![catch_all_dirt(-1, vec![TileSprite::DirtSkull])];
    let mut grid = TileGrid::new();
    grid.add(block(7, 9, 1, Tile::Dirt, Team::Neutral, Variant::Random));
    assert_eq!(
        resolve_tile(&catalog, &grid, coord(7, 9, 1)),
        Some(TileSprite::DirtSkull)
    );
}

#[test]
fn random_pick_of_empty_list_is_a_miss() {
    let catalog = vec![catch_all_dirt(-1, vec![])];
    let mut grid = TileGrid::new();
    grid.add(block(0, 0, 0, Tile::Dirt, Team::Neutral, Variant::Random));
    assert_eq!(resolve_tile(&catalog, &grid, coord(0, 0, 0)), None);
}

#[test]
fn scenario_e_fixed_index_out_of_range_is_a_miss() {
    let variants = vec![
        TileSprite::DirtEmpty,
        TileSprite::DirtBone,
        TileSprite::DirtBones,
    ];
    let catalog = vec![catch_all_dirt(-1, variants)];
    let mut grid = TileGrid::new();
    grid.add(block(0, 0, 0, Tile::Dirt, Team::Neutral, Variant::Fixed(5)));
    assert_eq!(resolve_tile(&catalog, &grid, coord(0, 0, 0)), None);
}

#[test]
fn fixed_index_in_range_picks_that_variant() {
    let variants = vec![
        TileSprite::DirtEmpty,
        TileSprite::DirtBone,
        TileSprite::DirtBones,
    ];
    let catalog = vec![catch_all_dirt(-1, variants)];
    let mut grid = TileGrid::new();
    grid.add(block(0, 0, 0, Tile::Dirt, Team::Neutral, Variant::Fixed(2)));
    assert_eq!(
        resolve_tile(&catalog, &grid, coord(0, 0, 0)),
        Some(TileSprite::DirtBones)
    );
}

#[test]
fn resolving_twice_with_unchanged_inputs_is_idempotent() {
    let catalog = TileDescriptor::all();
    let mut grid = TileGrid::new();
    grid.add(block(0, 0, 0, Tile::Dirt, Team::Yellow, Variant::Default));
    grid.add(block(5, 5, 0, Tile::Dirt, Team::Pink, Variant::Random));
    for c in [coord(0, 0, 0), coord(5, 5, 0), coord(9, 9, 9)] {
        let once = apply_resolution(TileSprite::Air, resolve_tile(&catalog, &grid, c));
        let twice = apply_resolution(once, resolve_tile(&catalog, &grid, c));
        assert_eq!(once, twice);
    }
}

#[test]
fn team_filter_any_matches_every_team() {
    let catalog = vec![catch_all_dirt(-1, vec![TileSprite::DirtEmpty])];
    for team in [Team::Yellow, Team::Pink, Team::Any, Team::Neutral] {
        let mut grid = TileGrid::new();
        grid.add(block(0, 0, 0, Tile::Dirt, team, Variant::Default));
        assert_eq!(
            resolve_tile(&catalog, &grid, coord(0, 0, 0)),
            Some(TileSprite::DirtEmpty)
        );
    }
}

#[test]
fn team_filter_exact_requires_equality() {
    let yellow_only = descriptor(
        "yellow only",
        0,
        Tile::Dirt,
        Team::Yellow,
        [true; 8],
        [false; 8],
        vec![TileSprite::GrassYellow],
    );
    let catalog = vec![yellow_only];
    let mut grid = TileGrid::new();
    grid.add(block(0, 0, 0, Tile::Dirt, Team::Yellow, Variant::Default));
    grid.add(block(9, 0, 0, Tile::Dirt, Team::Pink, Variant::Default));
    assert_eq!(
        resolve_tile(&catalog, &grid, coord(0, 0, 0)),
        Some(TileSprite::GrassYellow)
    );
    assert_eq!(resolve_tile(&catalog, &grid, coord(9, 0, 0)), None);
}

#[test]
fn material_filter_requires_equality() {
    let catalog = vec![catch_all_dirt(-1, vec![TileSprite::DirtEmpty])];
    let mut grid = TileGrid::new();
    grid.add(block(0, 0, 0, Tile::Tree, Team::Neutral, Variant::Default));
    assert_eq!(resolve_tile(&catalog, &grid, coord(0, 0, 0)), None);
}

#[test]
fn grid_first_write_wins() {
    let mut grid = TileGrid::new();
    let first = block(2, 3, 0, Tile::Dirt, Team::Yellow, Variant::Default);
    let second = block(2, 3, 0, Tile::Tree, Team::Pink, Variant::Random);
    assert!(grid.add(first));
    assert!(!grid.add(second));
    let got = grid.get(coord(2, 3, 0)).expect("the first placement");
    assert_eq!(got.tile, Tile::Dirt);
    assert_eq!(got.color, Team::Yellow);
    assert!(grid.empty(coord(2, 4, 0)));
    // different z layers share an (x, y) footprint
    assert!(grid.add(block(2, 3, 1, Tile::Tree, Team::Pink, Variant::Default)));
}

#[test]
fn build_grid_drops_later_duplicates() {
    let map = MapData {
        blocks: vec![
            block(0, 0, 0, Tile::Dirt, Team::Yellow, Variant::Default),
            block(0, 0, 0, Tile::Tree, Team::Pink, Variant::Default),
            block(1, 0, 0, Tile::Dirt, Team::Pink, Variant::Default),
        ],
    };
    let grid = build_grid(&map);
    assert_eq!(grid.get(coord(0, 0, 0)).unwrap().tile, Tile::Dirt);
    assert_eq!(grid.get(coord(1, 0, 0)).unwrap().color, Team::Pink);
    assert!(grid.get(coord(2, 0, 0)).is_none());
}

#[test]
fn resolve_batch_matches_per_tile_resolution() {
    let catalog = TileDescriptor::all();
    let mut grid = TileGrid::new();
    grid.add(block(0, 0, 0, Tile::Dirt, Team::Yellow, Variant::Default));
    grid.add(block(1, 0, 0, Tile::Dirt, Team::Pink, Variant::Default));
    let dirty = vec![coord(0, 0, 0), coord(1, 0, 0), coord(3, 3, 3)];
    let outcomes = resolve_batch(&catalog, &grid, &dirty);
    assert_eq!(outcomes.len(), dirty.len());
    for (c, got) in dirty.iter().zip(outcomes.iter()) {
        assert_eq!(*got, resolve_tile(&catalog, &grid, *c));
    }
}

#[test]
fn builder_steps_mirror_resolution() {
    let catalog = TileDescriptor::all();
    let mut builder = TileSpriteBuilder::new(&catalog);
    builder.set_team(Team::Yellow);
    builder.set_tile(Tile::Dirt);
    builder.set_variant(Variant::Default);
    // all eight neighbors solid except Up: the grass descriptor's shape
    for dir in [
        Adjacencies::UpLeft,
        Adjacencies::UpRight,
        Adjacencies::Right,
        Adjacencies::DownRight,
        Adjacencies::Down,
        Adjacencies::DownLeft,
        Adjacencies::Left,
    ] {
        builder.set_adjacent(dir, true);
    }
    builder.set_seed(derive_seed(0, 0, 0));
    assert!(builder.resolve());
    // grass (priority 1) beats catch-all dirt (priority -1)
    assert_eq!(builder.result(), Some(TileSprite::DirtEmpty));
    assert_eq!(builder.winner, Some(0));
}

#[test]
fn builder_without_matching_descriptor_misses() {
    let catalog = vec![catch_all_dirt(-1, vec![TileSprite::DirtEmpty])];
    let mut builder = TileSpriteBuilder::new(&catalog);
    builder.set_team(Team::Neutral);
    builder.set_tile(Tile::Spring);
    assert!(builder.resolve());
    assert_eq!(builder.winner, None);
    assert_eq!(builder.result(), None);
}

#[test]
fn neighbor_stepping_matches_mask_order() {
    let c = coord(10, 20, 3);
    let expect = [
        (9, 21),
        (10, 21),
        (11, 21),
        (11, 20),
        (11, 19),
        (10, 19),
        (9, 19),
        (9, 20),
    ];
    let dirs = Adjacencies::all();
    assert_eq!(dirs.len(), 8);
    for (dir, (x, y)) in dirs.iter().zip(expect.iter()) {
        let n = c.neighbor(*dir);
        assert_eq!((n.x, n.y, n.z), (*x, *y, 3));
    }
}

#[test]
fn sprite_solidity_spot_checks() {
    assert!(!TileSprite::Air.is_solid());
    assert!(TileSprite::DirtEmpty.is_solid());
    assert!(TileSprite::TreeTopYellow.is_solid());
    assert!(!TileSprite::GrassYellow.is_solid());
    assert!(!TileSprite::Coin.is_solid());
    assert!(TileSprite::BottomRightPink.is_solid());
    assert!(!TileSprite::HeartFlowerPink.is_solid());
    assert!(TileSprite::HeartFlowerYellow.is_solid());
    assert!(Tile::Dirt.is_solid());
    assert!(!Tile::Tree.is_solid());
    assert!(!Tile::Platform.is_solid());
}
