use wolf3d_rs::assets::graphics::{
    decompress_graphics_chunk, deplanarize, huffman_decode, load_game_palette, read_page_file,
    read_vga_file_offsets, read_vga_huffman_tree, GfxChunk, GraphicsCache, HuffmanNode,
};

/// A tree whose root (node 254) decodes bit 0 as 'A' and bit 1 as 'B'.
fn ab_tree() -> Vec<HuffmanNode> {
    let mut t = vec![HuffmanNode { val1: 0, val2: 0 }; 255];
    t[254] = HuffmanNode { val1: 0x41, val2: 0x42 };
    t
}

#[test]
fn huffman_decodes_lsb_first_and_stops_at_the_limit() {
    let tree = ab_tree();
    assert_eq!(huffman_decode(&[0b0000_0010], 3, &tree), Some(vec![0x41, 0x42, 0x41]));
    // A zero limit decodes nothing; a limit past the codes stops at their end.
    assert_eq!(huffman_decode(&[0xFF], 0, &tree), Some(vec![]));
    assert_eq!(huffman_decode(&[0xFF], 20, &tree), Some(vec![0x42; 8]));
}

#[test]
fn huffman_follows_internal_nodes() {
    let mut tree = ab_tree();
    // Root bit 1 goes to node 3, whose bit 0 emits 'C'.
    tree[254].val2 = 0x100 + 3;
    tree[3] = HuffmanNode { val1: 0x43, val2: 0x44 };
    assert_eq!(huffman_decode(&[0b0000_0001], 1, &tree), Some(vec![0x43]));
}

#[test]
fn huffman_rejects_codes_outside_the_tree() {
    let mut tree = ab_tree();
    tree[254].val1 = 0x100 + 400;
    assert_eq!(huffman_decode(&[0], 1, &tree), None);
    assert_eq!(huffman_decode(&[0], 1, &[]), None);
}

#[test]
fn graphics_chunk_has_a_length_prefix() {
    let tree = ab_tree();
    assert_eq!(decompress_graphics_chunk(&[3, 0, 0, 0, 0b10], &tree), Some(vec![0x41, 0x42, 0x41]));
    assert_eq!(decompress_graphics_chunk(&[3, 0, 0], &tree), None);
}

#[test]
fn vga_offsets_are_24_bit() {
    assert_eq!(read_vga_file_offsets(&[1, 0, 0, 0x56, 0x34, 0x12, 9]), vec![1, 0x123456]);
    assert_eq!(read_vga_file_offsets(&[]), Vec::<u32>::new());
}

#[test]
fn huffman_tree_file() {
    let t = read_vga_huffman_tree(&[1, 0, 2, 0, 3]).unwrap();
    assert_eq!(t, vec![HuffmanNode { val1: 1, val2: 2 }]);
    assert!(read_vga_huffman_tree(&[1, 0, 2, 0, 3, 0]).is_none());
    assert!(read_vga_huffman_tree(&[1, 0, 2, 0, 3, 0, 4]).is_none());
}

fn gamepal() -> Vec<u8> {
    let mut d = vec![0x80, 2, 0, 9, 9];
    d.push(0xA0);
    d.extend_from_slice(&772u16.to_le_bytes());
    d.extend_from_slice(&[1, 0, 0]);
    for i in 0..768usize {
        d.push((i % 64) as u8);
    }
    d.push(0);
    d
}

#[test]
fn game_palette_from_object_file() {
    let p = load_game_palette(&gamepal()).unwrap();
    assert_eq!(p.len(), 256);
    assert_eq!(p[0], (0, 4, 8));
    assert_eq!(p[1], (12, 16, 20));
    assert_eq!(p[21], (252, 0, 4));
}

#[test]
fn game_palette_missing_or_out_of_range() {
    assert!(load_game_palette(&[0x80, 2, 0, 9, 9]).is_none());
    let mut bad = gamepal();
    bad[11] = 64;
    assert!(load_game_palette(&bad).is_none());
}

fn grey_palette() -> Vec<(u8, u8, u8)> {
    (0..256).map(|i| (i as u8, i as u8, i as u8)).collect()
}

#[test]
fn deplanarize_reads_column_major_pages() {
    let mut planar = vec![0u8; 4096];
    // Texel (x = 5, y = 2): column 5, row 2.
    planar[5 * 64 + 2] = 77;
    let rgb = deplanarize(&planar, &grey_palette());
    assert_eq!(rgb.len(), 64 * 64 * 3);
    let dst = (2 * 64 + 5) * 3;
    assert_eq!(&rgb[dst..dst + 3], &[77, 77, 77]);
    assert_eq!(rgb.iter().filter(|&&b| b != 0).count(), 3);
}

fn vswap() -> Vec<u8> {
    // 3 pages: wall 0, sprite 1, sound 2.
    let header = 6 + 3 * 6;
    let wall_off = header;
    let sprite_off = wall_off + 4096;
    let sound_off = sprite_off + 132;
    let mut b = Vec::new();
    for v in [3u16, 1, 2] {
        b.extend_from_slice(&v.to_le_bytes());
    }
    for v in [wall_off, sprite_off, sound_off] {
        b.extend_from_slice(&(v as u32).to_le_bytes());
    }
    for v in [4096u16, 132, 5] {
        b.extend_from_slice(&v.to_le_bytes());
    }
    let mut wall = vec![0u8; 4096];
    wall[0] = 9;
    b.extend_from_slice(&wall);
    let mut sprite = vec![0u8; 132];
    sprite[0] = 3;
    sprite[2] = 4;
    sprite[4] = 0x34;
    sprite[5] = 0x12;
    b.extend_from_slice(&sprite);
    b.extend_from_slice(&[1, 2, 3, 4, 5]);
    b
}

#[test]
fn page_file_pages_by_kind() {
    let info = read_page_file(&vswap(), &grey_palette()).unwrap();
    assert_eq!(info.total_page_count, 3);
    assert_eq!(info.wall_pages.len(), 1);
    assert_eq!(&info.wall_pages[0][0..3], &[9, 9, 9]);
    assert_eq!(info.sprite_pages.len(), 1);
    assert_eq!(info.sprite_pages[0].leftpix, 3);
    assert_eq!(info.sprite_pages[0].rightpix, 4);
    assert_eq!(info.sprite_pages[0].dataofs[0], 0x1234);
    assert_eq!(info.sound_pages, vec![vec![1, 2, 3, 4, 5]]);
}

#[test]
fn page_file_rejects_truncation() {
    let b = vswap();
    assert!(read_page_file(&b[..b.len() - 1], &grey_palette()).is_none());
    assert!(read_page_file(&b[..10], &grey_palette()).is_none());
    // A wall texture whose colours are not all in the palette.
    assert!(read_page_file(&b, &grey_palette()[..5]).is_none());
}

fn cache() -> GraphicsCache {
    GraphicsCache {
        chunks: vec![
            None,
            None,
            None,
            Some(GfxChunk { index: 3, data: vec![1, 2], width: 2, height: 1 }),
            None,
        ],
        palette: vec![(0, 0, 0), (10, 20, 30), (40, 50, 60)],
        sprites: Vec::new(),
        wall_textures: Vec::new(),
    }
}

#[test]
fn cache_chunk_lookup() {
    let c = cache();
    assert_eq!(c.chunk(3).unwrap().index, 3);
    assert!(c.chunk(0).is_none());
    assert!(c.chunk(4).is_none());
    assert!(c.chunk(5).is_none());
}

#[test]
fn cache_picture_to_rgba() {
    let c = cache();
    let (px, w, h) = c.pic_rgba(3).unwrap();
    assert_eq!((w, h), (2, 1));
    assert_eq!(px, vec![10, 20, 30, 255, 40, 50, 60, 255]);
    assert!(c.pic_rgba(4).is_none());
    assert!(c.pic_rgba(0).is_none());
}

#[test]
fn cache_from_archives_rejects_bad_dictionary() {
    assert!(GraphicsCache::from_archives(&[], &[1, 2], &[], &vswap(), &gamepal()).is_none());
}
