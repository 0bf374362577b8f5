use wolf3d_rs::game::player::Player;
use wolf3d_rs::ui::hud::{self, HUD_HEIGHT};
use wolf3d_rs::ui::intermission::{Intermission, LevelStats};
use wolf3d_rs::ui::menu::{Menu, MenuAction};

fn stats() -> LevelStats {
    LevelStats {
        time_secs: 90,
        kills: 3,
        total_kills: 10,
        secrets: 1,
        total_secrets: 2,
        treasure: 4,
        total_treasure: 8,
        par_time_secs: 120,
    }
}

#[test]
fn main_menu_items_and_labels() {
    let m = Menu::main_menu();
    assert_eq!(m.cursor, 0);
    let labels: Vec<&str> = m.items.iter().map(|i| i.label).collect();
    assert_eq!(labels, vec!["New Game", "Load Game", "Save Game", "View Scores", "Back to Demo", "Quit Game"]);
    let enabled: Vec<bool> = m.items.iter().map(|i| i.enabled).collect();
    assert_eq!(enabled, vec![true, true, false, true, true, true]);
    assert_eq!(m.items[5].action, MenuAction::QuitGame);
}

#[test]
fn menu_cursor_wraps_both_ways() {
    let mut m = Menu::main_menu();
    m.cursor_up();
    assert_eq!(m.cursor, 5);
    m.cursor_down();
    assert_eq!(m.cursor, 0);
    m.cursor_down();
    m.cursor_down();
    assert_eq!(m.cursor, 2);
    m.cursor_up();
    assert_eq!(m.cursor, 1);
}

#[test]
fn menu_cursor_round_trip_on_every_item() {
    let mut m = Menu::main_menu();
    for start in 0..6 {
        m.cursor = start;
        m.cursor_down();
        m.cursor_up();
        assert_eq!(m.cursor, start);
        m.cursor_up();
        m.cursor_down();
        assert_eq!(m.cursor, start);
    }
}

#[test]
fn menu_select_skips_disabled_items() {
    let mut m = Menu::main_menu();
    assert_eq!(m.select(), Some(MenuAction::NewGame));
    m.cursor = 2;
    assert_eq!(m.select(), None);
    m.cursor = 3;
    assert_eq!(m.select(), Some(MenuAction::ViewScores));
    m.cursor = 6;
    assert_eq!(m.select(), None);
    let mut fb = vec![7u8; 16];
    m.draw(&mut fb, 2, 2);
    assert_eq!(fb, vec![7u8; 16]);
}

#[test]
fn intermission_counts_ticks_and_clears_to_black() {
    let mut s = Intermission::new(stats());
    assert_eq!(s.ticks, 0);
    s.tick();
    s.tick();
    assert_eq!(s.ticks, 2);
    assert_eq!(s.stats.total_kills, 10);
    let mut fb = vec![9u8; 4 * 6];
    s.draw(&mut fb, 3, 2);
    for px in fb.chunks(4) {
        assert_eq!(px, &[0, 0, 0, 0xFF]);
    }
}

#[test]
fn hud_fills_the_bottom_rows() {
    let (w, h) = (4usize, 42usize);
    let mut fb = vec![0u8; w * h * 4];
    hud::draw(&mut fb, w, h, &Player::new());
    let px = |x: usize, y: usize| fb[(y * w + x) * 4..(y * w + x) * 4 + 4].to_vec();
    assert_eq!(px(0, 1), vec![0, 0, 0, 0]);
    assert_eq!(px(3, h - HUD_HEIGHT - 1), vec![0, 0, 0, 0]);
    assert_eq!(px(0, h - HUD_HEIGHT), vec![0x38, 0x24, 0x18, 0xFF]);
    assert_eq!(px(3, h - 1), vec![0x38, 0x24, 0x18, 0xFF]);
}
