use wolf3d_rs::assets::graphics::HuffmanNode;
use wolf3d_rs::assets::maps::carmack_decompress;
use wolf3d_rs::tools::extract::{
    carmack_expand, depic_planar, encode_wav_u8, extract_audiot, extract_digi, extract_fonts, extract_maps,
    extract_pics, extract_sprites, extract_tile8s, extract_walls, huffman_expand, json_string, load_game_palette,
    load_vga_graph, load_vswap, rlew_expand, AudioKind, PaletteError, VSwap, VgaGraph,
};
use wolf3d_rs::tools::mapdump::{parse_and_decompress_game_maps, read_map_header, render_plane};

fn grey() -> Vec<(u8, u8, u8)> {
    (0..256).map(|i| (i as u8, i as u8, i as u8)).collect()
}

#[test]
fn carmack_expand_literals_copies_and_truncation() {
    let src = [0x01, 0x00, 0x02, 0x00, 0x02, 0xA7, 0x02, 0x03, 0xA8, 0x01, 0x00];
    assert_eq!(carmack_expand(&src, 14), vec![1, 2, 1, 2, 2, 1, 2]);
    // A near copy from before the start reads from the start; a far copy
    // beyond the output reads zeros.
    assert_eq!(carmack_expand(&[0x07, 0x00, 0x02, 0xA7, 0x09], 6), vec![7, 7, 7]);
    assert_eq!(carmack_expand(&[0x07, 0x00, 0x02, 0xA8, 0x05, 0x00], 6), vec![7, 0, 0]);
    // Input cut short ends the expansion.
    assert_eq!(carmack_expand(&[0x07, 0x00, 0x02, 0xA8], 6), vec![7]);
    assert_eq!(carmack_expand(&[0x07], 6), Vec::<u16>::new());
    // Stops after the wanted words.
    assert_eq!(carmack_expand(&[1, 0, 2, 0, 3, 0], 4), vec![1, 2]);
}

#[test]
fn rlew_expand_is_bounded() {
    assert_eq!(rlew_expand(&[5, 0xFEFE, 4, 7, 9], 0xFEFE, 100), vec![5, 7, 7, 7, 7, 9]);
    assert_eq!(rlew_expand(&[5, 0xFEFE, 4, 7, 9], 0xFEFE, 3), vec![5, 7, 7]);
    assert_eq!(rlew_expand(&[5, 0xFEFE, 4], 0xFEFE, 10), vec![5]);
}

#[test]
fn json_string_escapes() {
    let s: String = json_string("a\"b\\c\nd\te\u{1}").into_iter().collect();
    assert_eq!(s, "\"a\\\"b\\\\c\\nd\\te\\u0001\"");
    let t: String = json_string("Wolf\u{1f}é").into_iter().collect();
    assert_eq!(t, "\"Wolf\\u001fé\"");
}

#[test]
fn wav_for_digitized_sound() {
    let wav = encode_wav_u8(&[128, 129], 7000);
    assert_eq!(wav.len(), 46);
    assert_eq!(&wav[0..4], b"RIFF");
    assert_eq!(&wav[4..8], &38u32.to_le_bytes());
    assert_eq!(&wav[8..16], b"WAVEfmt ");
    assert_eq!(&wav[24..28], &7000u32.to_le_bytes());
    assert_eq!(&wav[28..32], &7000u32.to_le_bytes());
    assert_eq!(&wav[32..36], &[1, 0, 8, 0]);
    assert_eq!(&wav[36..40], b"data");
    assert_eq!(&wav[40..44], &2u32.to_le_bytes());
    assert_eq!(&wav[44..], &[128, 129]);
}

#[test]
fn palette_tool_scan() {
    let mut d = vec![0x80, 2, 0, 9, 9, 0xA0];
    d.extend_from_slice(&772u16.to_le_bytes());
    d.extend_from_slice(&[1, 0, 0]);
    for i in 0..768usize {
        d.push((i % 100) as u8);
    }
    d.push(0);
    let p = load_game_palette(&d).unwrap();
    assert_eq!(p[0], (0, 4, 8));
    // Values past 6 bits wrap.
    assert_eq!(p[22], (8, 12, 16));
    assert_eq!(load_game_palette(&[0x80, 2, 0]), Err(PaletteError::NotFound));
    assert_eq!(load_game_palette(&[0xA0, 2, 0, 9, 9]), Err(PaletteError::Malformed));
}

#[test]
fn depic_planar_small_picture() {
    // 4x2 picture: planes of 1x2 bytes.
    let data = [1, 2, 3, 4, 5, 6, 7, 8];
    let rgb = depic_planar(&data, 4, 2, &grey());
    let px: Vec<u8> = rgb.chunks(3).map(|c| c[0]).collect();
    assert_eq!(px, vec![1, 3, 5, 7, 2, 4, 6, 8]);
    // Missing data reads as colour 0.
    let short = depic_planar(&[9], 4, 1, &grey());
    assert_eq!(short, vec![9, 9, 9, 0, 0, 0, 0, 0, 0, 0, 0, 0]);
}

fn graph_with(chunks: Vec<Vec<u8>>, pic_dims: Vec<(u16, u16)>) -> VgaGraph {
    VgaGraph { chunks, pic_dims }
}

#[test]
fn pics_skip_empty_and_need_all_chunks() {
    let mut chunks = vec![Vec::new(); 135];
    chunks[3] = vec![1, 2, 3, 4, 5, 6, 7, 8];
    let mut dims = vec![(0u16, 0u16); 132];
    dims[0] = (4, 2);
    dims[1] = (4, 2);
    let pics = extract_pics(&graph_with(chunks.clone(), dims.clone()), &grey()).unwrap();
    assert_eq!(pics.len(), 1);
    assert_eq!((pics[0].chunk, pics[0].width, pics[0].height), (3, 4, 2));
    assert_eq!(pics[0].rgb.len(), 24);
    assert!(extract_pics(&graph_with(chunks[..100].to_vec(), dims), &grey()).is_none());
}

fn font_chunk() -> Vec<u8> {
    let mut d = vec![0u8; 770];
    d[0] = 2; // height
    // glyph 'A' (65) width 2 at offset 770; glyph 'B' width 1 at 774.
    d[2 + 2 * 65] = (770 & 0xFF) as u8;
    d[3 + 2 * 65] = (770 >> 8) as u8;
    d[514 + 65] = 2;
    d[2 + 2 * 66] = (774 & 0xFF) as u8;
    d[3 + 2 * 66] = (774 >> 8) as u8;
    d[514 + 66] = 1;
    // 'C' has a width but its bitmap is past the end.
    d[514 + 67] = 3;
    d[2 + 2 * 67] = 0xFF;
    d[3 + 2 * 67] = 0xFF;
    d.extend_from_slice(&[1, 0, 0, 1, 5, 0]);
    d
}

#[test]
fn font_atlas_places_glyphs_side_by_side() {
    let graph = graph_with(vec![Vec::new(), font_chunk(), vec![0u8; 10]], Vec::new());
    let fonts = extract_fonts(&graph).unwrap();
    assert_eq!(fonts.len(), 1);
    let f = &fonts[0];
    assert_eq!((f.chunk, f.height, f.atlas_width), (1, 2, 6));
    assert_eq!(f.glyphs, vec![(65, 0, 2), (66, 2, 1)]);
    let white: Vec<bool> = f.atlas.chunks(4).map(|p| p == [255, 255, 255, 255]).collect();
    assert_eq!(white, vec![true, false, true, false, false, false, false, true, false, false, false, false]);
    assert!(extract_fonts(&graph_with(vec![Vec::new()], Vec::new())).is_none());
}

#[test]
fn tile8s_need_a_full_chunk() {
    let mut chunks = vec![Vec::new(); 136];
    assert!(extract_tile8s(&graph_with(chunks.clone(), Vec::new()), &grey()).is_none());
    let mut tiles = vec![0u8; 72 * 64];
    tiles[64 + 16] = 5; // tile 1, pixel (1, 0)
    chunks[135] = tiles;
    let out = extract_tile8s(&graph_with(chunks, Vec::new()), &grey()).unwrap();
    assert_eq!(out.len(), 72);
    assert_eq!(&out[1][3..6], &[5, 5, 5]);
    assert_eq!(&out[0][3..6], &[0, 0, 0]);
}

#[test]
fn vga_graph_for_export() {
    let mut tree = vec![0u8; 255 * 4];
    tree[254 * 4] = 0x41;
    tree[254 * 4 + 2] = 0x42;
    // Offsets: chunk 0 = [3,0,0,0,0b10] (bytes 0..5), chunk 1 empty (5..5).
    let head = [0, 0, 0, 5, 0, 0, 5, 0, 0];
    let graph = [3, 0, 0, 0, 0b10];
    let g = load_vga_graph(&head, &tree, &graph).unwrap();
    assert_eq!(g.chunks, vec![vec![0x41, 0x42, 0x41], vec![]]);
    assert_eq!(g.pic_dims.len(), 132);
    assert_eq!(g.pic_dims[0], (0, 0));
    assert!(load_vga_graph(&head[..3], &tree, &graph).is_none());
    assert!(load_vga_graph(&head, &tree[..6], &graph).is_none());
    let tree_nodes: Vec<HuffmanNode> = vec![HuffmanNode { val1: 0, val2: 0 }; 255];
    assert_eq!(huffman_expand(&[1, 2], &tree_nodes), Some(vec![]));
}

fn swap_bytes() -> Vec<u8> {
    // 4 pages: wall (4096), sprite, sound, digi list.
    let pages: Vec<Vec<u8>> = vec![vec![3u8; 4096], sprite_page(), vec![10, 11, 12], vec![0, 0, 2, 0, 0, 0, 0, 0]];
    let mut b = Vec::new();
    for v in [4u16, 1, 2] {
        b.extend_from_slice(&v.to_le_bytes());
    }
    let mut off = 6 + 4 * 6;
    for p in &pages {
        b.extend_from_slice(&(off as u32).to_le_bytes());
        off += p.len();
    }
    for p in &pages {
        b.extend_from_slice(&(p.len() as u16).to_le_bytes());
    }
    for p in &pages {
        b.extend_from_slice(p);
    }
    b
}

/// A sprite with one column (x = 5) holding one post over rows 1..3, whose
/// pixels are the bytes 40 and 41.
fn sprite_page() -> Vec<u8> {
    let mut p = vec![5, 0, 5, 0, 6, 0];
    // post at 6: end row 3 (doubled), pixel base so that page[base + y] is
    // the pixel of row y, start row 1 (doubled); then the terminating 0.
    let base: u16 = 14 - 1;
    p.extend_from_slice(&6u16.to_le_bytes());
    p.extend_from_slice(&base.to_le_bytes());
    p.extend_from_slice(&2u16.to_le_bytes());
    p.extend_from_slice(&[0, 0]);
    assert_eq!(p.len(), 14);
    p.extend_from_slice(&[40, 41]);
    p
}

#[test]
fn vswap_pages_walls_sprites_and_digi() {
    let swap = load_vswap(&swap_bytes()).unwrap();
    assert_eq!((swap.pages.len(), swap.sprite_start, swap.sound_start), (4, 1, 2));
    let walls = extract_walls(&swap, &grey()).unwrap();
    assert_eq!(walls.len(), 1);
    assert_eq!(&walls[0].1[0..3], &[3, 3, 3]);
    let sprites = extract_sprites(&swap, &grey()).unwrap();
    assert_eq!(sprites.len(), 1);
    let img = &sprites[0].1;
    let at = |x: usize, y: usize| &img[(y * 64 + x) * 4..(y * 64 + x) * 4 + 4];
    assert_eq!(at(5, 1), &[40, 40, 40, 255]);
    assert_eq!(at(5, 2), &[41, 41, 41, 255]);
    assert_eq!(at(5, 0), &[0, 0, 0, 0]);
    assert_eq!(at(5, 3), &[0, 0, 0, 0]);
    let digi = extract_digi(&swap).unwrap();
    assert_eq!(digi, vec![(0, vec![10, 11])]);
    assert!(load_vswap(&swap_bytes()[..20]).is_none());
    let empty = VSwap { pages: Vec::new(), sprite_start: 0, sound_start: 0 };
    assert!(extract_digi(&empty).is_none());
}

#[test]
fn audiot_chunks_by_kind() {
    let mut offs: Vec<u32> = vec![0; 289];
    // chunk 0 (PC) = bytes 0..2, chunk 90 (AdLib 3) = 2..3, chunk 200
    // (digitized, skipped) = 3..4, chunk 262 (music 1) = 4..6.
    for (i, o) in offs.iter_mut().enumerate() {
        *o = if i == 0 { 0 } else if i <= 90 { 2 } else if i <= 200 { 3 } else if i <= 262 { 4 } else { 6 };
    }
    let head: Vec<u8> = offs.iter().flat_map(|o| o.to_le_bytes()).collect();
    let body = [1, 2, 3, 4, 5, 6];
    let out = extract_audiot(&head, &body);
    assert_eq!(
        out,
        vec![
            (AudioKind::PcSpeaker, 0, vec![1, 2]),
            (AudioKind::AdLib, 3, vec![3]),
            (AudioKind::Music, 1, vec![5, 6]),
        ]
    );
}

fn maphead() -> Vec<u8> {
    let mut h = Vec::new();
    h.extend_from_slice(&0xABCDu16.to_le_bytes());
    h.extend_from_slice(&2u32.to_le_bytes());
    for _ in 1..100 {
        h.extend_from_slice(&0u32.to_le_bytes());
    }
    h
}

/// A 2x2 level at offset 2 whose wall plane carmack-expands to
/// [size word, tag, 4, 1] (RLEW: four 1s) and whose object plane is empty.
fn gamemaps() -> Vec<u8> {
    let mut b = vec![0u8, 0u8];
    for v in [40i32, 0, 0] {
        b.extend_from_slice(&v.to_le_bytes());
    }
    for v in [10u16, 0, 0] {
        b.extend_from_slice(&v.to_le_bytes());
    }
    b.extend_from_slice(&2u16.to_le_bytes());
    b.extend_from_slice(&2u16.to_le_bytes());
    let mut name = [0u8; 16];
    name[..6].copy_from_slice(b" Hall ");
    b.extend_from_slice(&name);
    b.extend_from_slice(&[8, 0, 8, 0, 0xCD, 0xAB, 4, 0, 1, 0]);
    b
}

#[test]
fn maps_for_export() {
    let maps = extract_maps(&maphead(), &gamemaps()).unwrap();
    assert_eq!(maps.len(), 1);
    let m = &maps[0];
    assert_eq!((m.index, m.width, m.height), (0, 2, 2));
    assert_eq!(m.name, "Hall");
    assert_eq!(m.planes, vec![vec![1, 1, 1, 1], vec![]]);
    assert!(extract_maps(&maphead()[..401], &gamemaps()).is_none());
}

/// Every slot points at one 2x2 level whose wall plane is four walls and
/// whose object plane is empty.
fn dump_archives() -> (Vec<u8>, Vec<u8>) {
    let mut h = Vec::new();
    h.extend_from_slice(&0xABCDu16.to_le_bytes());
    for _ in 0..100 {
        h.extend_from_slice(&2u32.to_le_bytes());
    }
    let mut b = vec![0u8, 0u8];
    for v in [40i32, 50, 0] {
        b.extend_from_slice(&v.to_le_bytes());
    }
    for v in [10u16, 2, 0] {
        b.extend_from_slice(&v.to_le_bytes());
    }
    b.extend_from_slice(&2u16.to_le_bytes());
    b.extend_from_slice(&2u16.to_le_bytes());
    let mut name = [0u8; 16];
    name[..4].copy_from_slice(b"Hall");
    b.extend_from_slice(&name);
    b.extend_from_slice(&[8, 0, 8, 0, 0xCD, 0xAB, 4, 0, 1, 0]);
    b.extend_from_slice(&[0, 0]);
    (h, b)
}

#[test]
fn map_dump_draws_every_level_named_like_the_first() {
    let (h, b) = dump_archives();
    let header = read_map_header(&h).unwrap();
    let (maps, drawings) = parse_and_decompress_game_maps(&b, &header).unwrap();
    assert_eq!(maps.len(), 60);
    assert_eq!(maps[0].name, "Hall");
    assert_eq!((maps[0].width, maps[0].height), (2, 2));
    assert_eq!(maps[0].planestart, [40, 50, 0]);
    assert_eq!(drawings.len(), 60);
    let text: Vec<String> = drawings[59].iter().map(|r| r.iter().collect()).collect();
    assert_eq!(text, vec!["##".to_string(), "##".to_string()]);
}

#[test]
fn map_dump_tool() {
    let header = read_map_header(&maphead()).unwrap();
    assert_eq!(header.rlewtag, 0xABCD);
    assert!(header.tileinfo.is_empty());
    assert!(read_map_header(&[0u8; 12]).is_none());
    // Both planes of every level must decompress: the level's object
    // plane has no data.
    assert!(parse_and_decompress_game_maps(&gamemaps(), &header).is_none());
    let rows = render_plane(&[0, 1, 95, 106, 200, 63], 3, 2).unwrap();
    let text: Vec<String> = rows.into_iter().map(|r| r.into_iter().collect()).collect();
    assert_eq!(text, vec![".#D".to_string(), "W #".to_string()]);
    assert!(render_plane(&[0], 2, 2).is_none());
}

#[test]
fn carmack_expanders_agree_on_well_formed_input() {
    // 1, 2, a near copy of 2 words from 2 back, a far copy of 3 from index 1.
    let src = [0x01, 0x00, 0x02, 0x00, 0x02, 0xA7, 0x02, 0x03, 0xA8, 0x01, 0x00];
    let strict = carmack_decompress(&src, 14).unwrap();
    assert_eq!(carmack_expand(&src, 14), strict);
    assert_eq!(strict, vec![1, 2, 1, 2, 2, 1, 2]);
}
