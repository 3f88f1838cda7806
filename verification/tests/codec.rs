use autotile::catalog::{load_catalog, save_catalog, CatalogError};
use autotile::descriptor::TileDescriptor;
use autotile::script::{parse_map, parse_script_line};
use autotile::tiles::{sprite_of_index, Team, Tile, TileSprite, Variant};

fn descriptor(
    name: &str,
    priority: i8,
    tile: Tile,
    team: Team,
    can_be_solid: [bool; 8],
    must_be_solid: [bool; 8],
    variants: Vec<TileSprite>,
) -> TileDescriptor {
    TileDescriptor {
        name: name.as_bytes().to_vec(),
        priority,
        tile,
        team,
        can_be_solid,
        must_be_solid,
        variants,
    }
}

#[test]
fn ron_out() {
    let all = TileDescriptor::all();
    let text = save_catalog(&all).unwrap();
    println!("{}", String::from_utf8_lossy(&text));
}

#[test]
fn catalog_round_trip_preserves_every_field() {
    let mut catalog = TileDescriptor::all();
    catalog.push(descriptor(
        "spring pad",
        -100,
        Tile::Spring,
        Team::Pink,
        [true, false, true, false, true, false, true, false],
        [false, false, true, false, false, false, true, false],
        vec![TileSprite::SpringDown, TileSprite::SpringUp],
    ));
    catalog.push(descriptor(
        "",
        127,
        Tile::Collectable,
        Team::Neutral,
        [false; 8],
        [false; 8],
        vec![],
    ));
    let text = save_catalog(&catalog).expect("serializable catalog");
    let loaded = load_catalog(&text).expect("well-formed serialization");
    assert_eq!(loaded, catalog);
}

#[test]
fn empty_catalog_round_trips() {
    let catalog: Vec<TileDescriptor> = Vec::new();
    let text = save_catalog(&catalog).unwrap();
    assert!(text.is_empty());
    let loaded = load_catalog(&text).unwrap();
    assert!(loaded.is_empty());
}

#[test]
fn save_rejects_name_with_newline() {
    let bad = descriptor(
        "two\nlines",
        0,
        Tile::Dirt,
        Team::Any,
        [true; 8],
        [false; 8],
        vec![TileSprite::DirtEmpty],
    );
    assert_eq!(
        save_catalog(&vec![bad]),
        Err(CatalogError::UnserializableName)
    );
}

#[test]
fn load_rejects_malformed_input() {
    for bad in [
        &b"garbage"[..],                        // no terminated lines
        &b"-1 dirt any 11111111 00000000 1 2\n"[..], // name line missing
        &b"-1 mud any 11111111 00000000 0\nname\n"[..], // unknown material
        &b"-1 dirt nobody 11111111 00000000 0\nname\n"[..], // unknown team
        &b"x dirt any 11111111 00000000 0\nname\n"[..], // bad priority
        &b"-1 dirt any 1111 00000000 0\nname\n"[..], // short mask
        &b"-1 dirt any 11111111 00000000 2 3\nname\n"[..], // count mismatch
        &b"-1 dirt any 11111111 00000000 1 250\nname\n"[..], // no such sprite
        &b"999 dirt any 11111111 00000000 0\nname\n"[..], // priority out of range
    ] {
        assert_eq!(
            load_catalog(&bad.to_vec()),
            Err(CatalogError::Malformed),
            "input {:?} should be rejected",
            String::from_utf8_lossy(bad)
        );
    }
}

#[test]
fn load_accepts_a_hand_written_catalog() {
    let text = b"5 dirt yellow 10111111 00000010 3 2 24 9\nGrassy\n".to_vec();
    let loaded = load_catalog(&text).unwrap();
    assert_eq!(loaded.len(), 1);
    let d = &loaded[0];
    assert_eq!(d.name, b"Grassy".to_vec());
    assert_eq!(d.priority, 5);
    assert_eq!(d.tile, Tile::Dirt);
    assert_eq!(d.team, Team::Yellow);
    assert_eq!(
        d.can_be_solid,
        [true, false, true, true, true, true, true, true]
    );
    assert_eq!(
        d.must_be_solid,
        [false, false, false, false, false, false, true, false]
    );
    assert_eq!(
        d.variants,
        vec![
            sprite_of_index(2).unwrap(),
            sprite_of_index(24).unwrap(),
            sprite_of_index(9).unwrap()
        ]
    );
}

#[test]
fn builtin_catalog_contents() {
    let all = TileDescriptor::all();
    assert_eq!(all.len(), 2);
    let grass = &all[0];
    assert_eq!(grass.name, b"Grass Yellow Up".to_vec());
    assert_eq!(grass.priority, 1);
    assert_eq!(grass.tile, Tile::Dirt);
    assert_eq!(grass.team, Team::Yellow);
    assert_eq!(
        grass.can_be_solid,
        [true, false, true, true, true, true, true, true]
    );
    assert_eq!(
        grass.must_be_solid,
        [false, false, false, true, false, false, false, true]
    );
    assert_eq!(
        grass.variants,
        vec![
            TileSprite::DirtEmpty,
            TileSprite::DirtBone,
            TileSprite::DirtBones
        ]
    );
    let dirt = &all[1];
    assert_eq!(dirt.name, b"Dirt".to_vec());
    assert_eq!(dirt.priority, -1);
    assert_eq!(dirt.team, Team::Any);
    assert_eq!(dirt.can_be_solid, [true; 8]);
    assert_eq!(dirt.must_be_solid, [false; 8]);
}

#[test]
fn atlas_indices_round_trip() {
    for i in 0..100usize {
        let s = sprite_of_index(i).expect("an atlas slot below 100");
        assert_eq!(s.atlas_index(), i);
    }
    assert_eq!(sprite_of_index(100), None);
    assert_eq!(TileSprite::Air.atlas_index(), 0);
    assert_eq!(sprite_of_index(0), Some(TileSprite::Air));
    assert_eq!(sprite_of_index(99), Some(TileSprite::BlueDots));
}

#[test]
fn script_line_reads_every_directive() {
    let line = b"dirt x 3 y -2 z 1 yellow variant 4".to_vec();
    let b = parse_script_line(&line).expect("a well-formed directive");
    assert_eq!(b.tile, Tile::Dirt);
    assert_eq!((b.translation.x, b.translation.y, b.translation.z), (3, -2, 1));
    assert_eq!(b.color, Team::Yellow);
    assert!(matches!(b.variant, Variant::Fixed(4)));
}

#[test]
fn script_line_defaults() {
    let b = parse_script_line(&b"dirt".to_vec()).unwrap();
    assert_eq!(b.tile, Tile::Dirt);
    assert_eq!((b.translation.x, b.translation.y, b.translation.z), (0, 0, 0));
    assert_eq!(b.color, Team::Neutral);
    assert!(matches!(b.variant, Variant::Default));
}

#[test]
fn script_line_rand_and_case_folding() {
    let b = parse_script_line(&b"DIRT X 7 Rand PINK".to_vec()).unwrap();
    assert_eq!(b.translation.x, 7);
    assert_eq!(b.color, Team::Pink);
    assert!(matches!(b.variant, Variant::Random));
    let b2 = parse_script_line(&b"dirt random".to_vec()).unwrap();
    assert!(matches!(b2.variant, Variant::Random));
}

#[test]
fn script_line_accepts_plus_signed_numerals() {
    let b = parse_script_line(&b"dirt x +3 y -2 variant +1".to_vec()).unwrap();
    assert_eq!(b.translation.x, 3);
    assert_eq!(b.translation.y, -2);
    assert!(matches!(b.variant, Variant::Fixed(1)));
    // a bare sign is not a numeral
    assert_eq!(parse_script_line(&b"dirt x +".to_vec()), None);
    assert_eq!(parse_script_line(&b"dirt x -".to_vec()), None);
}

#[test]
fn script_line_splits_on_tabs_and_spaces() {
    let b = parse_script_line(&b"dirt\tx\t4\tpink".to_vec()).unwrap();
    assert_eq!(b.translation.x, 4);
    assert_eq!(b.color, Team::Pink);
    let b2 = parse_script_line(&b"\tdirt \t y 9".to_vec()).unwrap();
    assert_eq!(b2.translation.y, 9);
    // a line of only whitespace is blank, not an error
    let (map, skipped) = parse_map(&b"\t \t\ndirt x 1\n".to_vec());
    assert_eq!(map.blocks.len(), 1);
    assert_eq!(skipped, 0);
}

#[test]
fn script_line_skips_unknown_words() {
    let b = parse_script_line(&b"dirt sparkly x 2 wobbly".to_vec()).unwrap();
    assert_eq!(b.translation.x, 2);
}

#[test]
fn script_line_failures() {
    // a key missing its value
    assert_eq!(parse_script_line(&b"dirt x".to_vec()), None);
    // a value that is not a number
    assert_eq!(parse_script_line(&b"dirt x eleven".to_vec()), None);
    // a variant index beyond u8
    assert_eq!(parse_script_line(&b"dirt variant 300".to_vec()), None);
    // an unknown material
    assert_eq!(parse_script_line(&b"lava x 1".to_vec()), None);
    // a blank line
    assert_eq!(parse_script_line(&b"   ".to_vec()), None);
}

#[test]
fn parse_map_skips_bad_lines_and_continues() {
    let script = b"dirt x 1\n\nlava x 2\ndirt x 3 y -4 pink\ndirt z\n".to_vec();
    let (map, skipped) = parse_map(&script);
    assert_eq!(map.blocks.len(), 2);
    assert_eq!(map.blocks[0].translation.x, 1);
    assert_eq!(map.blocks[1].translation.x, 3);
    assert_eq!(map.blocks[1].translation.y, -4);
    assert_eq!(map.blocks[1].color, Team::Pink);
    // the unknown material and the key without a value are counted;
    // the blank line is not
    assert_eq!(skipped, 2);
}

#[test]
fn parse_map_handles_carriage_returns() {
    let script = b"dirt x 5\r\ndirt x 6\r\n".to_vec();
    let (map, skipped) = parse_map(&script);
    assert_eq!(map.blocks.len(), 2);
    assert_eq!(map.blocks[0].translation.x, 5);
    assert_eq!(map.blocks[1].translation.x, 6);
    assert_eq!(skipped, 0);
}

#[test]
fn all_builtin_descriptors_are_well_formed() {
    for d in TileDescriptor::all() {
        assert!(d.is_well_formed());
    }
}

#[test]
fn conflicting_masks_never_match_any_pattern() {
    // required solid where not allowed solid: excluded from matching
    let mut must = [false; 8];
    must[2] = true;
    let mut can = [true; 8];
    can[2] = false;
    let conflicted = descriptor(
        "conflicted",
        0,
        Tile::Dirt,
        Team::Any,
        can,
        must,
        vec![TileSprite::DirtEmpty],
    );
    assert!(!conflicted.is_well_formed());
    for pattern in 0..256u32 {
        let mut solid = [false; 8];
        for (i, s) in solid.iter_mut().enumerate() {
            *s = pattern & (1 << i) != 0;
        }
        assert!(!conflicted.test_solid(solid));
    }
}
