use wolf3d_rs::assets::colors::{BKGDCOLOR, TEXTCOLOR};
use wolf3d_rs::assets::text::{FontGlyph, FontMetadata, FontStruct, TextDrawContext, TextError};
use wolf3d_rs::tools::audio::{split_audio_chunks, AudioChunk};

/// A 3-pixel-wide, 2-high atlas: glyph 'A' is columns 0..2, 'B' column 2.
fn font() -> FontStruct {
    let mut glyphs = vec![None; 256];
    glyphs[65] = Some(FontGlyph { x: 0, width: 2 });
    glyphs[66] = Some(FontGlyph { x: 2, width: 1 });
    let data: Vec<u8> = (0..24).collect();
    FontStruct { data, metadata: FontMetadata { height: 2, atlas_width: 3, glyphs } }
}

#[test]
fn context_defaults() {
    let ctx = TextDrawContext::new(font(), font());
    assert_eq!(ctx.font_color, TEXTCOLOR);
    assert_eq!(ctx.back_color, BKGDCOLOR);
    assert_eq!(ctx.current_font, 0);
    assert_eq!(font().character(66), (2, 1));
}

#[test]
fn draw_string_copies_glyph_rows() {
    let mut ctx = TextDrawContext::new(font(), font());
    let mut fb = vec![0u8; 320 * 4 * 3];
    let r = ctx.draw_string("AB\0A", &mut fb, 1, 1, 1);
    assert_eq!(r, Ok((4, 2)));
    // Row 1 of the screen, from column 1: 'A' row 0 = atlas bytes 0..8,
    // then 'B' row 0 = atlas bytes 8..12.
    let row1 = 320 * 4;
    assert_eq!(&fb[row1 + 4..row1 + 16], &(0..12).collect::<Vec<u8>>()[..]);
    let row2 = 2 * 320 * 4;
    assert_eq!(&fb[row2 + 4..row2 + 16], &(12..24).collect::<Vec<u8>>()[..]);
    assert_eq!(&fb[0..4], &[0, 0, 0, 0]);
}

#[test]
fn draw_string_errors() {
    let mut ctx = TextDrawContext::new(font(), font());
    let mut fb = vec![0u8; 320 * 4 * 3];
    assert_eq!(ctx.draw_string("A", &mut fb, 0, 0, 3), Err(TextError::InvalidFont(3)));
    assert!(fb.iter().all(|&b| b == 0));
    assert_eq!(ctx.draw_string("AC", &mut fb, 0, 0, 2), Err(TextError::MissingGlyph(67)));
    // The last row does not fit in the framebuffer.
    assert_eq!(ctx.draw_string("A", &mut fb, 0, 2, 1), Err(TextError::OutOfRange));
}

#[test]
fn audio_chunks_by_range() {
    let mut offs: Vec<u32> = vec![0, 1];
    for _ in 0..100 {
        offs.push(2);
    }
    let head: Vec<u8> = offs.iter().flat_map(|o| o.to_le_bytes()).collect();
    let body = [7, 8];
    let chunks = split_audio_chunks(&head, &body).unwrap();
    assert_eq!(chunks.len(), 101);
    assert!(matches!(&chunks[0], AudioChunk::PCSound(v) if v == &vec![7]));
    assert!(matches!(&chunks[1], AudioChunk::PCSound(v) if v == &vec![8]));
    assert!(matches!(&chunks[90], AudioChunk::AdLib(v) if v.is_empty()));
    let bad: Vec<u8> = [0u32, 5].iter().flat_map(|o| o.to_le_bytes()).collect();
    assert!(split_audio_chunks(&bad, &body).is_none());
}
