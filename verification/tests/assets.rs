use wolf3d_rs::assets::graphics::GraphicsCache;
use wolf3d_rs::assets::bytes::{lossy_utf8_string, read_le_i32, read_le_u16, read_le_u24, read_le_u32, trim_whitespace};
use wolf3d_rs::assets::loader::{ArchiveBytes, AssetError, AssetLoader};
use wolf3d_rs::assets::sounds::SoundCache;

#[test]
fn little_endian_reads() {
    let b = [0xAAu8, 0x34, 0x12, 0x56, 0x78, 0xFF, 0xFF, 0xFF, 0xFF];
    assert_eq!(read_le_u16(&b, 1), 0x1234);
    assert_eq!(read_le_u24(&b, 1), 0x561234);
    assert_eq!(read_le_u32(&b, 1), 0x78561234);
    assert_eq!(read_le_i32(&b, 5), -1);
    assert_eq!(read_le_i32(&b, 0), 0x561234AAu32 as i32);
}

#[test]
fn lossy_decoding_and_trimming() {
    assert_eq!(lossy_utf8_string(b"E1M1"), "E1M1");
    assert_eq!(lossy_utf8_string(b"ab\xFFc"), "ab\u{FFFD}c");
    assert_eq!(trim_whitespace("  Wolf 3D \t\n"), "Wolf 3D");
    assert_eq!(trim_whitespace("   "), "");
    assert_eq!(trim_whitespace("\u{3000}x y\u{a0}\u{85}"), "x y");
}

fn empty_archives() -> ArchiveBytes {
    ArchiveBytes {
        vgahead: Vec::new(),
        vgadict: Vec::new(),
        vgagraph: Vec::new(),
        vswap: Vec::new(),
        gamepal: Vec::new(),
        maphead: Vec::new(),
        gamemaps: Vec::new(),
    }
}

#[test]
fn asset_loader_reports_graphics_first() {
    match AssetLoader::load("assets".to_string(), &empty_archives()) {
        Err(e) => assert_eq!(e, AssetError::Graphics),
        Ok(_) => panic!("empty archives decoded"),
    }
}

#[test]
fn sound_cache_starts_empty() {
    let c = SoundCache::load("assets");
    assert!(c.sfx(0).is_none());
    assert!(c.music(0).is_none());
    assert_eq!(c.sfx.len(), 0);
    assert_eq!(c.music.len(), 0);
}

fn gamepal() -> Vec<u8> {
    let mut d = vec![0xA0];
    d.extend_from_slice(&772u16.to_le_bytes());
    d.extend_from_slice(&[1, 0, 0]);
    for i in 0..768usize {
        d.push((i % 64) as u8);
    }
    d.push(0);
    d
}

/// A page file with one wall page, no sprites and no sounds.
fn one_wall_vswap() -> Vec<u8> {
    let mut b = Vec::new();
    for v in [1u16, 1, 1] {
        b.extend_from_slice(&v.to_le_bytes());
    }
    b.extend_from_slice(&12u32.to_le_bytes());
    b.extend_from_slice(&4096u16.to_le_bytes());
    b.extend_from_slice(&vec![2u8; 4096]);
    b
}

/// VGAHEAD, VGADICT and VGAGRAPH with a picture table that gives the first
/// picture a size of 1 x 1 and every other chunk empty.
fn vga_archives() -> (Vec<u8>, Vec<u8>, Vec<u8>) {
    let mut dict = vec![0u8; 255 * 4];
    dict[254 * 4 + 2] = 1;
    let mut graph = Vec::new();
    graph.extend_from_slice(&528u32.to_le_bytes());
    graph.push(0x05);
    graph.extend_from_slice(&[0u8; 65]);
    for _ in 1..135 {
        graph.extend_from_slice(&0u32.to_le_bytes());
    }
    let mut head = Vec::new();
    let mut off = 0u32;
    for k in 0..136 {
        head.extend_from_slice(&off.to_le_bytes()[..3]);
        off += if k == 0 { 70 } else { 4 };
    }
    (head, dict, graph)
}

#[test]
fn graphics_cache_from_minimal_archives() {
    let (head, dict, graph) = vga_archives();
    let gc = GraphicsCache::from_archives(&head, &dict, &graph, &one_wall_vswap(), &gamepal()).unwrap();
    assert_eq!(gc.palette.len(), 256);
    assert_eq!(gc.palette[1], (12, 16, 20));
    assert_eq!(gc.wall_textures.len(), 1);
    assert!(gc.sprites.is_empty());
    assert_eq!(gc.chunks.len(), 135);
    assert!(gc.chunk(0).is_none());
    assert!(gc.chunk(2).is_none());
    let c = gc.chunk(3).unwrap();
    assert_eq!((c.index, c.width, c.height), (3, 1, 1));
    assert!(c.data.is_empty());
    let c = gc.chunk(4).unwrap();
    assert_eq!((c.index, c.width, c.height), (4, 0, 0));
    assert!(gc.chunk(135).is_none());
}

#[test]
fn asset_loader_reports_maps_after_graphics() {
    let (head, dict, graph) = vga_archives();
    let files = ArchiveBytes {
        vgahead: head,
        vgadict: dict,
        vgagraph: graph,
        vswap: one_wall_vswap(),
        gamepal: gamepal(),
        maphead: vec![0u8; 10],
        gamemaps: Vec::new(),
    };
    match AssetLoader::load("assets".to_string(), &files) {
        Err(e) => assert_eq!(e, AssetError::Maps),
        Ok(_) => panic!("a short map header decoded"),
    }
}
