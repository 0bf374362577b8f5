use wolf3d_rs::assets::maps::{DoorSpawn, Level};
use wolf3d_rs::game::map::GameMap;
use wolf3d_rs::game::actor::{Actor, ActorKind, ActorList, ActorMode};
use wolf3d_rs::game::ai::think;
use wolf3d_rs::game::door::{Door, DoorKind, DoorList, DoorState};
use wolf3d_rs::game::player::{Heading, Player};
use wolf3d_rs::game::state::{GameState, Menu, MenuHandler, MenuItemInfo, MenuScreen, MenuScreenOption, Screen};
use wolf3d_rs::input::handler::{InputHandler, Key};
use wolf3d_rs::math::fixed::Fixed;
use wolf3d_rs::math::tables::{TrigTables, FINEANGLES};

#[test]
fn door_opens_stays_and_closes() {
    let mut d = Door::new(3, 4, DoorKind::Normal, true);
    assert_eq!(d.state, DoorState::Closed);
    d.update();
    assert_eq!(d.state, DoorState::Closed);
    d.open();
    assert_eq!(d.state, DoorState::Opening);
    for _ in 0..16 {
        d.update();
    }
    assert_eq!((d.state, d.position), (DoorState::Opening, 63));
    d.update();
    assert_eq!((d.state, d.position, d.tic_count), (DoorState::Open, 63, 300));
    for _ in 0..300 {
        d.update();
    }
    assert_eq!(d.state, DoorState::Closing);
    // Opening an open or closing door changes nothing.
    d.open();
    assert_eq!(d.state, DoorState::Closing);
    // The door slides shut from 63: 15 steps to 3, then to 0, then closed.
    for _ in 0..15 {
        d.update();
    }
    assert_eq!(d.position, 3);
    d.update();
    assert_eq!((d.state, d.position), (DoorState::Closing, 0));
    d.update();
    assert_eq!((d.state, d.position), (DoorState::Closed, 0));
    d.update();
    assert_eq!((d.state, d.position), (DoorState::Closed, 0));
}

#[test]
fn door_list_lookup() {
    let mut list = DoorList::new();
    list.doors.push(Door::new(1, 1, DoorKind::Gold, false));
    list.doors.push(Door::new(2, 5, DoorKind::Silver, true));
    assert_eq!(list.at(2, 5).unwrap().kind, DoorKind::Silver);
    assert!(list.at(5, 2).is_none());
    list.at_mut(1, 1).unwrap().open();
    assert_eq!(list.doors[0].state, DoorState::Opening);
    list.update();
    assert_eq!(list.doors[0].position, 4);
}

#[test]
fn actor_spawn_and_think() {
    let mut list = ActorList::new();
    let id = list.spawn(ActorKind::Guard, Fixed::from_int(3), Fixed::from_int(3));
    assert_eq!(id, 0);
    let a = &list.actors[0];
    assert_eq!((a.mode, a.health, a.speed), (ActorMode::Stand, 25, Fixed(3276)));
    assert!(a.is_alive());
    // A standing actor whose timer runs out looks for the player (2 tiles
    // away: in sight) and starts chasing.
    let player = Player::spawn(5, 3, 0);
    list.update_all(&player);
    assert_eq!(list.actors[0].mode, ActorMode::Chase);
    assert_eq!(list.actors[0].tic_count, 10);
}

#[test]
fn chasing_actor_steps_toward_the_player() {
    let mut a = Actor::new(ActorKind::Dog, Fixed::from_int(2), Fixed::from_int(2));
    a.mode = ActorMode::Chase;
    let player = Player::spawn(6, 1, 0);
    think(&mut a, &player);
    assert!(a.x.0 > Fixed::from_int(2).0);
    assert!(a.x.0 - Fixed::from_int(2).0 <= 3276);
    let dead = Actor { mode: ActorMode::Dead, ..Actor::new(ActorKind::Dog, Fixed(0), Fixed(0)) };
    assert!(!dead.is_alive());
}

fn heading() -> Heading {
    let mut cos = Vec::new();
    let mut sin = Vec::new();
    for i in 0..FINEANGLES {
        let a = i as f32 * std::f32::consts::TAU / FINEANGLES as f32;
        cos.push(Fixed((a.cos() * 65536.0) as i32));
        sin.push(Fixed((a.sin() * 65536.0) as i32));
    }
    Heading { cos, sin }
}

fn trig() -> TrigTables {
    let mut sin = Vec::new();
    let mut cos = Vec::new();
    let mut tan = Vec::new();
    for i in 0..FINEANGLES {
        let r = i as f64 * std::f64::consts::TAU / FINEANGLES as f64;
        sin.push(Fixed((r.sin() as f32 * 65536.0) as i32));
        cos.push(Fixed((r.cos() as f32 * 65536.0) as i32));
        tan.push(Fixed((r.tan().clamp(-32767.0, 32767.0) as f32 * 65536.0) as i32));
    }
    let finetangent = tan.clone();
    TrigTables { sin, cos, tan, finetangent }
}

#[test]
fn input_press_release_and_events() {
    let mut input = InputHandler::new();
    input.handle_key(Key::KeyW, true);
    assert!(input.move_forward());
    input.handle_key(Key::KeyW, false);
    assert!(!input.move_forward());
    input.handle_key(Key::Enter, true);
    assert!(input.start_pressed());
    input.handle_key(Key::Enter, false);
    assert!(input.start_pressed());
    input.clear_events();
    assert!(!input.start_pressed());
    input.handle_key(Key::Escape, true);
    assert!(input.quit_requested());
}

#[test]
fn game_starts_at_menu_and_enter_starts_play() {
    let mut g = GameState::new(trig(), heading());
    assert_eq!(g.screen, Screen::Menu);
    assert_eq!(g.tick, 0);
    assert_eq!(g.menu.current, MenuScreenOption::MainMenu);
    let mut input = InputHandler::new();
    g.tick(&input);
    assert_eq!(g.screen, Screen::Menu);
    input.handle_key(Key::Enter, true);
    g.tick(&input);
    assert_eq!(g.screen, Screen::Playing);
    assert_eq!(g.tick, 2);
    assert_eq!((g.episode, g.map_num), (0, 0));
}

#[test]
fn world_bounds_check() {
    let mut g = GameState::new(trig(), heading());
    assert!(g.world_in_bounds());
    g.doors.doors.push(Door::new(1, 1, DoorKind::Normal, false));
    assert!(g.world_in_bounds());
    g.player.x = Fixed(-1);
    assert!(!g.world_in_bounds());
    g.player.x = Fixed(65536);
    g.actors.spawn(ActorKind::Dog, Fixed(64 * 65536 + 1), Fixed(0));
    assert!(!g.world_in_bounds());
}

#[test]
fn start_and_quit_latch_across_key_events() {
    let mut h = InputHandler::new();
    h.handle_key(Key::Enter, true);
    h.handle_key(Key::Enter, false);
    h.handle_key(Key::KeyW, true);
    h.handle_key(Key::Escape, true);
    h.handle_key(Key::Escape, false);
    h.handle_key(Key::KeyW, false);
    assert!(h.start_pressed());
    assert!(h.quit_requested());
    assert!(!h.escape);
    h.clear_events();
    assert!(!h.start_pressed());
    assert!(h.quit_requested());
}

#[test]
fn menu_background_fills_the_frame() {
    let mut g = GameState::new(trig(), heading());
    let mut fb = vec![0u8; 320 * 200 * 4 + 2];
    g.draw(&mut fb, 320, 200).unwrap();
    assert_eq!(&fb[0..4], &[0x1C, 0x1C, 0x1C, 0xFF]);
    assert_eq!(&fb[320 * 200 * 4 - 4..320 * 200 * 4], &[0x1C, 0x1C, 0x1C, 0xFF]);
    assert_eq!(&fb[320 * 200 * 4..], &[0, 0]);
}

#[test]
fn playing_without_a_level_clears_the_frame() {
    let mut g = GameState::new(trig(), heading());
    g.screen = Screen::Playing;
    let mut fb = vec![7u8; 64];
    g.draw(&mut fb, 4, 4).unwrap();
    assert!(fb.iter().all(|&b| b == 0));
}

#[test]
fn menus_hold_their_items() {
    let m = Menu::new();
    assert_eq!(m.main_menu.items.len(), 1);
    assert_eq!(m.main_menu.items[0].title, "New Game");
    assert_eq!(m.main_menu.items[0].handler, MenuHandler::NewGame);
    assert_eq!(m.main_menu.items[0].item_info, MenuItemInfo::new(76, 55, 10, 0, 24));
    assert_eq!(m.sound_menu.items[0].title, "PC Speaker");
    assert_eq!(MenuScreen::sound().items[0].item_info.indent, 52);
}

#[test]
fn player_moves_forward_and_is_blocked_by_walls() {
    let mut planes = [[0u16; 4096]; 3];
    for x in 0..64 {
        planes[0][x] = 1;
    }
    let level = Level { name: String::from("t"), planes, width: 64, height: 64, door_spawns: Vec::new() };
    let map = GameMap::from_level(level);
    let h = heading();
    let mut p = Player::spawn(5, 5, 0);
    let mut input = InputHandler::new();
    input.handle_key(Key::ArrowUp, true);
    p.update(&input, &map, &h);
    assert_eq!(p.x.0, 5 * 65536 + 32768 + 6553);
    assert_eq!(p.y.0, 5 * 65536 + 32768);
    // Facing north (angle 2700, sin = -1) into the wall row at y = 0.
    let mut q = Player::spawn(5, 1, 2700);
    for _ in 0..10 {
        q.update(&input, &map, &h);
    }
    assert!(q.y.0 >= 65536);
    assert!(q.is_alive());
    // Facing north-east into the same wall row: y is blocked, x slides on.
    let mut r = Player::spawn(5, 1, 3150);
    for _ in 0..10 {
        r.update(&input, &map, &h);
    }
    assert!(r.y.0 >= 65536);
    assert!(r.x.0 > 5 * 65536 + 32768 + 6 * 4000);
}

#[test]
fn level_walls_doors_and_jambs() {
    let mut planes = [[0u16; 4096]; 3];
    planes[0][10 * 64 + 10] = 0x80;
    planes[0][9 * 64 + 10] = 5;
    planes[0][11 * 64 + 10] = 107;
    planes[0][3 * 64 + 3] = 107;
    planes[0][4 * 64 + 4] = 130;
    planes[0][6 * 64 + 6] = 63;
    let door_spawns = vec![DoorSpawn { tile_x: 10, tile_y: 10, is_vertical: true, lock: 1 }];
    let level = Level { name: String::from("t"), planes, width: 64, height: 64, door_spawns };
    assert!(level.is_solid_wall(10, 9));
    assert!(!level.is_solid_wall(10, 11));
    assert!(level.is_solid_wall(6, 6));
    assert!(!level.is_solid_wall(3, 3));
    assert!(!level.is_solid_wall(4, 4));
    assert!(!level.is_solid_wall(10, 10));
    assert!(!level.is_solid_wall(0, 0));
    assert!(level.is_door(10, 10));
    assert!(!level.is_door(4, 4));
    assert!(!level.is_door(10, 9));
    let map = GameMap::from_level(level);
    let mut actors = ActorList::new();
    let mut doors = DoorList::new();
    map.spawn_things(&mut actors, &mut doors);
    assert_eq!(doors.doors.len(), 1);
    assert_eq!(doors.doors[0].kind, DoorKind::Gold);
    assert!(!doors.doors[0].horizontal);
    assert_eq!((doors.doors[0].tile_x, doors.doors[0].tile_y), (10, 10));
}

#[test]
fn turning_wraps_and_cancels_and_standing_keeps_position() {
    let level = Level { name: String::from("t"), planes: [[0u16; 4096]; 3], width: 64, height: 64, door_spawns: Vec::new() };
    let map = GameMap::from_level(level);
    let h = heading();
    let mut p = Player::spawn(5, 5, 10);
    let mut input = InputHandler::new();
    input.handle_key(Key::ArrowLeft, true);
    p.update(&input, &map, &h);
    assert_eq!(p.angle, 3570);
    input.handle_key(Key::ArrowRight, true);
    p.update(&input, &map, &h);
    assert_eq!(p.angle, 3570);
    input.handle_key(Key::ArrowLeft, false);
    p.update(&input, &map, &h);
    assert_eq!(p.angle, 10);
    assert_eq!((p.x.0, p.y.0), (5 * 65536 + 32768, 5 * 65536 + 32768));
}
