use wolf3d_rs::assets::maps::{carmack_decompress, parse_map_header, rlew_decompress, MapCache};
use wolf3d_rs::game::actor::{ActorKind, ActorList};
use wolf3d_rs::game::door::DoorList;
use wolf3d_rs::game::map::GameMap;

const TAG: u16 = 0xABCD;

fn maphead(first: u32) -> Vec<u8> {
    let mut h = Vec::new();
    h.extend_from_slice(&TAG.to_le_bytes());
    h.extend_from_slice(&first.to_le_bytes());
    for _ in 1..100 {
        h.extend_from_slice(&0u32.to_le_bytes());
    }
    h
}

/// One level at offset 2: plane 0 is all walls (an RLEW run), plane 1 holds
/// a player facing north at (1, 0) and a guard at (2, 0).
fn gamemaps() -> Vec<u8> {
    let mut b = vec![0u8, 0u8];
    for v in [40i32, 50, 0] {
        b.extend_from_slice(&v.to_le_bytes());
    }
    for v in [10u16, 10, 0] {
        b.extend_from_slice(&v.to_le_bytes());
    }
    b.extend_from_slice(&64u16.to_le_bytes());
    b.extend_from_slice(&64u16.to_le_bytes());
    let mut name = [0u8; 16];
    name[..4].copy_from_slice(b"E1M1");
    b.extend_from_slice(&name);
    assert_eq!(b.len(), 40);
    // Each plane: byte count, then the size word (8192) and the RLEW stream.
    b.extend_from_slice(&[8, 0, 0x00, 0x20, 0xCD, 0xAB, 0x00, 0x10, 0x01, 0x00]);
    b.extend_from_slice(&[8, 0, 0x00, 0x20, 0, 0, 19, 0, 108, 0]);
    b
}

#[test]
fn carmack_literal_words() {
    assert_eq!(carmack_decompress(&[0x34, 0x12, 0x78, 0x56], 4), Some(vec![0x1234, 0x5678]));
}

#[test]
fn carmack_escaped_tags() {
    assert_eq!(carmack_decompress(&[0x00, 0xA7, 0x12, 0x00, 0xA8, 0x34], 4), Some(vec![0xA712, 0xA834]));
}

#[test]
fn carmack_near_and_far_copies() {
    // 1, 2, then copy 2 words from 2 back, then copy 3 words from index 1.
    let src = [0x01, 0x00, 0x02, 0x00, 0x02, 0xA7, 0x02, 0x03, 0xA8, 0x01, 0x00];
    assert_eq!(carmack_decompress(&src, 14), Some(vec![1, 2, 1, 2, 2, 1, 2]));
}

#[test]
fn carmack_rejects_malformed_input() {
    // A near copy reaching before the start.
    assert_eq!(carmack_decompress(&[0x01, 0x00, 0x01, 0xA7, 0x05], 4), None);
    // Input ends before the owed words.
    assert_eq!(carmack_decompress(&[0x01, 0x00], 4), None);
    // A far copy from a word not yet produced.
    assert_eq!(carmack_decompress(&[0x01, 0xA8, 0x00, 0x00], 2), None);
}

#[test]
fn rlew_runs_and_literals() {
    assert_eq!(rlew_decompress(vec![5, TAG, 3, 7, 9], TAG), Some(vec![5, 7, 7, 7, 9]));
    assert_eq!(rlew_decompress(vec![TAG, 0, 1], TAG), Some(vec![]));
    assert_eq!(rlew_decompress(vec![TAG, 1], TAG), None);
}

#[test]
fn map_header_needs_402_bytes() {
    assert!(parse_map_header(&[0u8; 401]).is_none());
    let h = parse_map_header(&maphead(1234)).unwrap();
    assert_eq!(h.rlewtag, TAG);
    assert_eq!(h.headeroffsets[0], 1234);
    assert_eq!(h.headeroffsets[99], 0);
}

#[test]
fn map_cache_decodes_a_level() {
    let cache = MapCache::from_archives(&maphead(2), &gamemaps()).unwrap();
    assert_eq!(cache.levels.len(), 60);
    let level = cache.level(0, 0).unwrap();
    assert_eq!(level.name, "E1M1");
    assert_eq!(level.width, 64);
    assert_eq!(level.wall_at(3, 4), 1);
    assert!(level.is_solid_wall(63, 63));
    assert!(!level.is_door(10, 10));
    assert_eq!(level.sprite_at(1, 0), 19);
    assert_eq!(level.sprite_at(2, 0), 108);
    assert_eq!(level.sprite_at(3, 0), 0);
    assert_eq!(level.prop_at(0, 0), 0);
    assert!(cache.level(0, 1).is_none());
    assert!(cache.level(9, 9).is_none());
}

#[test]
fn map_cache_empty_slots() {
    let cache = MapCache::from_archives(&maphead(0), &[]).unwrap();
    assert!(cache.levels.iter().all(|l| l.is_none()));
}

#[test]
fn map_cache_rejects_short_header() {
    assert!(MapCache::from_archives(&[0u8; 10], &gamemaps()).is_none());
}

#[test]
fn spawn_things_places_player_and_guard() {
    let cache = MapCache::from_archives(&maphead(2), &gamemaps()).unwrap();
    let level = cache.levels.into_iter().next().unwrap().unwrap();
    let map = GameMap::from_level(level);
    let mut actors = ActorList::new();
    let mut doors = DoorList::new();
    let player = map.spawn_things(&mut actors, &mut doors);
    assert_eq!(player.x.0, 65536 + 32768);
    assert_eq!(player.y.0, 32768);
    assert_eq!(player.angle, 0);
    assert_eq!(actors.actors.len(), 1);
    assert_eq!(actors.actors[0].kind, ActorKind::Guard);
    assert_eq!(actors.actors[0].x.0, 2 * 65536 + 32768);
    assert_eq!(doors.doors.len(), 0);
}

/// One level whose row 0 starts with floor code 107 beside a horizontal
/// door (91); the rest of the wall plane is empty.
fn gamemaps_with_door() -> Vec<u8> {
    let mut b = vec![0u8, 0u8];
    for v in [40i32, 54, 0] {
        b.extend_from_slice(&v.to_le_bytes());
    }
    for v in [14u16, 10, 0] {
        b.extend_from_slice(&v.to_le_bytes());
    }
    b.extend_from_slice(&64u16.to_le_bytes());
    b.extend_from_slice(&64u16.to_le_bytes());
    b.extend_from_slice(&[0u8; 16]);
    b.extend_from_slice(&[12, 0, 0x00, 0x20, 107, 0, 91, 0, 0xCD, 0xAB, 0xFE, 0x0F, 0, 0]);
    b.extend_from_slice(&[8, 0, 0x00, 0x20, 0, 0, 0, 0, 0, 0]);
    b
}

#[test]
fn floor_beside_a_door_is_not_solid() {
    let cache = MapCache::from_archives(&maphead(2), &gamemaps_with_door()).unwrap();
    let level = cache.level(0, 0).unwrap();
    assert_eq!(level.door_spawns.len(), 1);
    assert_eq!((level.door_spawns[0].tile_x, level.door_spawns[0].tile_y), (1, 0));
    assert!(!level.door_spawns[0].is_vertical);
    assert_eq!(level.wall_at(1, 0), 0x80);
    assert!(level.is_door(1, 0));
    assert_eq!(level.wall_at(0, 0), 107);
    assert!(!level.is_solid_wall(0, 0));
    assert!(!level.is_solid_wall(1, 0));
    assert_eq!(level.wall_at(2, 0), 0);
    assert_eq!(level.wall_at(63, 63), 0);
}
