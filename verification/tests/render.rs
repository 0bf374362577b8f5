use wolf3d_rs::assets::maps::Level;
use wolf3d_rs::engine::renderer::{Renderer, View, VIEW_HEIGHT, VIEW_WIDTH};
use wolf3d_rs::engine::scaler::{draw_sprites, SpriteInst};
use wolf3d_rs::engine::video::{blit_indexed, fill_pixels, include_palette, palette_to_rgba, parse_palette, write_px};
use wolf3d_rs::math::fixed::Fixed;
use wolf3d_rs::math::tables::{TrigTables, FINEANGLES};

fn trig() -> TrigTables {
    let mut sin = Vec::new();
    let mut cos = Vec::new();
    let mut tan = Vec::new();
    for i in 0..FINEANGLES {
        let r = i as f64 * std::f64::consts::TAU / FINEANGLES as f64;
        sin.push(Fixed((r.sin() as f32 * 65536.0) as i32));
        cos.push(Fixed((r.cos() as f32 * 65536.0) as i32));
        tan.push(Fixed((r.tan().clamp(-32767.0, 32767.0) as f32 * 65536.0) as i32));
    }
    let finetangent = tan.clone();
    TrigTables { sin, cos, tan, finetangent }
}

/// A 16x16 room in the top-left corner, bordered by wall tile 1.
fn make_test_level() -> Level {
    let mut planes = [[0u16; 4096]; 3];
    let room = 16usize;
    for y in 0..room {
        for x in 0..room {
            let is_border = x == 0 || y == 0 || x == room - 1 || y == room - 1;
            planes[0][y * 64 + x] = if is_border { 1 } else { 0 };
        }
    }
    Level { name: "test".to_string(), planes, width: 64, height: 64, door_spawns: Vec::new() }
}

#[test]
fn renderer_starts_blank() {
    let r = Renderer::new(trig());
    assert_eq!(r.columns.len(), VIEW_WIDTH);
    assert!(r.depth_buf.iter().all(|d| d.0 == 0));
}

#[test]
fn frame_in_a_room() {
    let level = make_test_level();
    let view = View { x: Fixed(8 * 65536 + 32768), y: Fixed(8 * 65536 + 32768), angle: 120 };
    let mut renderer = Renderer::new(trig());
    let mut fb = vec![0u8; VIEW_WIDTH * VIEW_HEIGHT * 4];
    assert!(renderer.draw_frame(&mut fb, VIEW_WIDTH, &view, &level, &[], &[]).is_ok());
    // Every ray hits the room's wall (texture 1, missing: plain red).
    for c in 0..VIEW_WIDTH {
        assert_eq!(renderer.columns[c].texture, 1);
        assert!(renderer.depth_buf[c].0 > 0);
        assert!(renderer.depth_buf[c].0 < 12 * 65536);
    }
    // Top-left corner is ceiling, bottom-left is floor.
    assert_eq!(&fb[0..4], &[0x39, 0x39, 0x39, 0xFF]);
    let last_row = (VIEW_HEIGHT - 1) * VIEW_WIDTH * 4;
    assert_eq!(&fb[last_row..last_row + 4], &[0x70, 0x70, 0x70, 0xFF]);
    // The horizon row of the middle column is wall.
    let mid = (76 * VIEW_WIDTH + 128) * 4;
    let px = &fb[mid..mid + 4];
    assert!(px == [0xFF, 0x00, 0x00, 0xFF] || px == [0x55, 0x00, 0x00, 0xFF]);
}

#[test]
fn frame_with_a_texture() {
    let level = make_test_level();
    let view = View { x: Fixed(8 * 65536 + 32768), y: Fixed(8 * 65536 + 32768), angle: 0 };
    let mut renderer = Renderer::new(trig());
    let mut textures = vec![Vec::new(), vec![200u8; 64 * 64 * 3]];
    textures[1][0] = 1;
    let mut fb = vec![0u8; VIEW_WIDTH * VIEW_HEIGHT * 4];
    renderer.draw_frame(&mut fb, VIEW_WIDTH, &view, &level, &textures, &[]).unwrap();
    let mid = (76 * VIEW_WIDTH + 128) * 4;
    let px = &fb[mid..mid + 4];
    assert!(px == [200, 200, 200, 0xFF] || px == [100, 100, 100, 0xFF]);
}

#[test]
fn ray_leaving_the_map_keeps_the_column() {
    // An open level with no walls: rays heading to negative coordinates
    // leave the map and keep their previous (blank) entry.
    let level = Level { name: String::new(), planes: [[0u16; 4096]; 3], width: 64, height: 64, door_spawns: Vec::new() };
    let view = View { x: Fixed(2 * 65536), y: Fixed(2 * 65536), angle: 1800 };
    let mut renderer = Renderer::new(trig());
    let mut fb = vec![0u8; VIEW_WIDTH * VIEW_HEIGHT * 4];
    renderer.draw_frame(&mut fb, VIEW_WIDTH, &view, &level, &[], &[]).unwrap();
    assert_eq!(renderer.columns[128].dist.0, 0);
}

#[test]
fn sprite_is_drawn_centred_and_transparent_texels_skipped() {
    let mut fb = vec![0u8; 320 * 152 * 4];
    let mut gfx = vec![255u8; 64 * 64 * 4];
    // Column 0 of the texture transparent.
    for y in 0..64 {
        gfx[(y * 64) * 4 + 3] = 0;
    }
    let s = SpriteInst { world_x: Fixed(0), world_y: Fixed(0), sprite_index: 0, screen_x: 100, screen_h: 64 };
    draw_sprites(&mut fb, 320, &[], &[s], &[gfx]);
    // Rows 44..108, columns 68..132.
    let inside = ((44 + 10) * 320 + 100) * 4;
    assert_eq!(&fb[inside..inside + 4], &[255, 255, 255, 255]);
    let left = ((44 + 10) * 320 + 68) * 4;
    assert_eq!(&fb[left..left + 4], &[0, 0, 0, 0]);
    let above = ((43) * 320 + 100) * 4;
    assert_eq!(&fb[above..above + 4], &[0, 0, 0, 0]);
}

#[test]
fn sprite_columns_behind_nearer_walls_are_clipped() {
    let mut fb = vec![0u8; 320 * 152 * 4];
    let gfx = vec![255u8; 64 * 64 * 4];
    // A sprite 64 pixels high lies at 152 * 65536 / 64 = 155648.
    let mut depth = vec![Fixed(200_000); 320];
    depth[90] = Fixed(155_647);
    depth[91] = Fixed(155_648);
    let s = SpriteInst { world_x: Fixed(0), world_y: Fixed(0), sprite_index: 0, screen_x: 100, screen_h: 64 };
    draw_sprites(&mut fb, 320, &depth, &[s], &[gfx]);
    let px = |x: usize| ((44 + 10) * 320 + x) * 4;
    assert_eq!(&fb[px(90)..px(90) + 4], &[0, 0, 0, 0]);
    assert_eq!(&fb[px(91)..px(91) + 4], &[255, 255, 255, 255]);
    assert_eq!(&fb[px(100)..px(100) + 4], &[255, 255, 255, 255]);
}

#[test]
fn sprite_with_missing_graphics_is_skipped() {
    let mut fb = vec![0u8; 320 * 152 * 4];
    let s = SpriteInst { world_x: Fixed(0), world_y: Fixed(0), sprite_index: 3, screen_x: 100, screen_h: 64 };
    draw_sprites(&mut fb, 320, &[], &[s], &[]);
    assert!(fb.iter().all(|&b| b == 0));
}

#[test]
fn palette_and_blits() {
    let p = include_palette();
    assert_eq!(p[1], (0, 0, 170));
    assert_eq!(p[200], (0, 0, 0));
    assert_eq!(palette_to_rgba(4), [170, 0, 0, 0xFF]);
    let mut dst = vec![9u8; 10];
    blit_indexed(&[15, 2, 3], &mut dst);
    assert_eq!(dst, vec![255, 255, 255, 255, 0, 170, 0, 255, 9, 9]);
    let mut fb = vec![1u8; 9];
    fill_pixels(&mut fb, [1, 2, 3, 4]);
    assert_eq!(fb, vec![1, 2, 3, 4, 1, 2, 3, 4, 1]);
    write_px(&mut fb, 6, [7, 7, 7, 7]);
    assert_eq!(fb, vec![1, 2, 3, 4, 1, 2, 3, 4, 1]);
    write_px(&mut fb, 4, [7, 7, 7, 7]);
    assert_eq!(fb, vec![1, 2, 3, 4, 7, 7, 7, 7, 1]);
    let raw: Vec<u8> = (0..768).map(|i| (i % 64) as u8).collect();
    let pal = parse_palette(&raw);
    assert_eq!(pal.len(), 256);
    assert_eq!(pal[0], (0, 4, 8));
}
