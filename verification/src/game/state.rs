//! Top-level game state: which screen is shown, the player, the level and
//! its actors and doors, and the per-frame update and drawing.
use vstd::prelude::*;
use crate::assets::graphics::GraphicsCache;
use crate::engine::renderer::{frame_drawn, stride_fits, RayFault, Renderer};
use crate::engine::renderer as view;
use crate::engine::video::{fill_pixels, filled};
use crate::game::actor::{tick_actor, ActorList};
use crate::game::ai::{in_world, WORLD_EXTENT};
use crate::game::door::{door_step, door_step_ok, Door, DoorList, DoorState};
use crate::game::map::GameMap;
use crate::game::player::{law_update_stays_in_world, update_spec, Heading, Player};
use crate::input::handler::InputHandler;
use crate::math::tables::{TrigTables, FINEANGLES};

verus! {

#[derive(Debug, Clone, Copy, PartialEq, Eq, Structural)]
pub enum Screen {
    /// Main game view.
    Playing,
    /// Title / main menu.
    Menu,
    /// Between-level stats.
    Intermission,
    /// Game over.
    GameOver,
}

#[derive(Debug, Clone, Copy, PartialEq, Eq, Structural)]
pub enum MenuScreenOption {
    MainMenu,
    SoundMenu,
    ControlMenu,
}

#[derive(Debug, Clone, Copy, PartialEq, Eq, Structural)]
pub enum MainMenuOption {
    NewGame,
    Sound,
    Control,
    LoadGame,
    SaveGame,
    ChangeView,
    ReadThis,
    ViewScores,
    BackToDemo,
    Quit,
}

/// Left edge and top of the main menu.
pub const MENU_X: i16 = 76;
pub const MENU_Y: i16 = 55;

/// Left edge and top of the first block of the sound menu.
pub const SM_X: i16 = 48;
pub const SM_Y1: i16 = 20;

/// Placement of a menu's items on screen and the cursor position.
#[derive(Debug, Clone, Copy, PartialEq, Eq, Structural)]
pub struct MenuItemInfo {
    pub x: i16,
    pub y: i16,
    pub amount: u16,
    pub current_position: i16,
    pub indent: u16,
}

impl MenuItemInfo {
    pub fn new(x: i16, y: i16, amount: u16, current_position: i16, indent: u16) -> (r: MenuItemInfo)
        ensures
            r == (MenuItemInfo { x, y, amount, current_position, indent }),
    {
        MenuItemInfo { x, y, amount, current_position, indent }
    }
}

/// The routine a menu item runs when chosen.
#[derive(Debug, Clone, Copy, PartialEq, Eq, Structural)]
pub enum MenuHandler {
    NewGame,
    SoundPcSpeaker,
}

pub struct MenuItem {
    pub active: bool,
    pub title: String,
    pub handler: MenuHandler,
    pub item_info: MenuItemInfo,
}

impl MenuItem {
    pub fn new(active: bool, title: String, handler: MenuHandler, item_info: MenuItemInfo) -> (r: MenuItem)
        ensures
            r.active == active,
            r.title@ == title@,
            r.handler == handler,
            r.item_info == item_info,
    {
        MenuItem { active, title, handler, item_info }
    }
}

pub struct MenuScreen {
    pub items: Vec<MenuItem>,
    pub current: u16,
}

/// `m` has one active item with the given title, routine and placement,
/// and its cursor on the first item.
pub open spec fn single_item_menu(m: MenuScreen, title: Seq<char>, handler: MenuHandler, info: MenuItemInfo) -> bool {
    &&& m.items@.len() == 1
    &&& m.items@[0].active
    &&& m.items@[0].title@ == title
    &&& m.items@[0].handler == handler
    &&& m.items@[0].item_info == info
    &&& m.current == 0
}

impl MenuScreen {
    /// Starts a new game (no effect yet).
    pub fn new_game(i: i32) {
    }

    /// Selects the PC speaker for sound effects (no effect yet).
    pub fn sound_pc_speaker(i: i32) {
    }

    /// The main menu: "New Game".
    pub fn main() -> (m: MenuScreen)
        ensures
            single_item_menu(m, "New Game"@, MenuHandler::NewGame, MenuItemInfo { x: MENU_X, y: MENU_Y, amount: 10, current_position: 0, indent: 24 }),
    {
        let title = "New Game".to_owned();
        let items = vec![MenuItem::new(true, title, MenuHandler::NewGame, MenuItemInfo::new(MENU_X, MENU_Y, 10, 0, 24))];
        MenuScreen { items, current: 0 }
    }

    /// The sound menu: "PC Speaker".
    pub fn sound() -> (m: MenuScreen)
        ensures
            single_item_menu(m, "PC Speaker"@, MenuHandler::SoundPcSpeaker, MenuItemInfo { x: SM_X, y: SM_Y1, amount: 12, current_position: 0, indent: 52 }),
    {
        let title = "PC Speaker".to_owned();
        let items = vec![
            MenuItem::new(true, title, MenuHandler::SoundPcSpeaker, MenuItemInfo::new(SM_X, SM_Y1, 12, 0, 52)),
        ];
        MenuScreen { items, current: 0 }
    }
}

pub struct Menu {
    pub main_menu: MenuScreen,
    pub sound_menu: MenuScreen,
    pub current: MenuScreenOption,
}

impl Menu {
    /// The main and sound menus, showing the main menu.
    pub fn new() -> (m: Menu)
        ensures
            single_item_menu(m.main_menu, "New Game"@, MenuHandler::NewGame, MenuItemInfo { x: MENU_X, y: MENU_Y, amount: 10, current_position: 0, indent: 24 }),
            single_item_menu(m.sound_menu, "PC Speaker"@, MenuHandler::SoundPcSpeaker, MenuItemInfo { x: SM_X, y: SM_Y1, amount: 12, current_position: 0, indent: 52 }),
            m.current == MenuScreenOption::MainMenu,
    {
        let main_menu = MenuScreen::main();
        let sound_menu = MenuScreen::sound();
        Menu { main_menu, sound_menu, current: MenuScreenOption::MainMenu }
    }
}

pub struct GameState {
    pub screen: Screen,
    pub player: Player,
    pub map: Option<GameMap>,
    pub actors: ActorList,
    pub doors: DoorList,
    pub renderer: Renderer,
    pub graphics: Option<GraphicsCache>,
    /// Current episode (0-based) and map number (0-based within episode).
    pub episode: usize,
    pub map_num: usize,
    pub tick: u64,
    /// Per-angle movement directions for the player.
    pub heading: Heading,
    pub menu: Menu,
}

/// The door positions (0 = closed, 63 = open), by door index.
pub open spec fn door_positions(doors: Seq<Door>) -> Seq<u8> {
    doors.map_values(|d: Door| d.position)
}

/// The player after a frame of play: moved by the input when a level is
/// loaded, as it was otherwise.
pub open spec fn player_after(g: GameState, input: InputHandler) -> Player {
    match g.map {
        Some(m) => update_spec(g.player, input, m.level, g.heading)->0,
        None => g.player,
    }
}

/// A frame of play cannot overflow: the player's move stays in range, no
/// door steps out of range, and every actor can think about the moved
/// player.
pub open spec fn play_ok(g: GameState, input: InputHandler) -> bool {
    &&& (g.map matches Some(m) ==> g.player.angle < FINEANGLES && g.heading.wf() && m.level.wf() && update_spec(
        g.player,
        input,
        m.level,
        g.heading,
    ) is Some)
    &&& forall|i: int| 0 <= i < g.doors.doors@.len() ==> door_step_ok(#[trigger] g.doors.doors@[i])
    &&& forall|i: int|
        0 <= i < g.actors.actors@.len() ==> (#[trigger] tick_actor(g.actors.actors@[i], player_after(g, input))) is Some
}

/// The textures a frame is drawn with: the wall textures of the loaded
/// graphics, or none.
pub open spec fn frame_textures(g: Option<GraphicsCache>) -> Seq<Vec<u8>> {
    match g {
        Some(gc) => gc.wall_textures@,
        None => Seq::<Vec<u8>>::empty(),
    }
}

/// The view of the player.
pub open spec fn player_view(p: Player) -> view::View {
    view::View { x: p.x, y: p.y, angle: p.angle }
}

/// Background colour of the menu screen.
pub open spec fn menu_background() -> [u8; 4] {
    [0x1Cu8, 0x1Cu8, 0x1Cu8, 0xFFu8]
}

impl GameState {
    /// A game at the main menu, with no level or graphics loaded.  The
    /// renderer is built over `trig`; the player moves along `heading`.
    pub fn new(trig: TrigTables, heading: Heading) -> (g: GameState)
        ensures
            g.screen == Screen::Menu,
            g.player == crate::game::player::player_new_spec(),
            g.map is None,
            g.actors.actors@.len() == 0,
            g.doors.doors@.len() == 0,
            g.renderer.trig == trig,
            g.renderer.columns@.len() == crate::engine::renderer::VIEW_WIDTH,
            g.renderer.depth_buf@.len() == crate::engine::renderer::VIEW_WIDTH,
            g.graphics is None,
            g.episode == 0,
            g.map_num == 0,
            g.tick == 0,
            g.heading == heading,
            g.menu.current == MenuScreenOption::MainMenu,
    {
        let menu = Menu::new();
        GameState {
            screen: Screen::Menu,
            player: Player::new(),
            map: None,
            actors: ActorList::new(),
            doors: DoorList::new(),
            renderer: Renderer::new(trig),
            graphics: None,
            episode: 0,
            map_num: 0,
            tick: 0,
            heading,
            menu,
        }
    }

    /// Installs the graphics read from the data files; when they could not
    /// be read the game goes on without them.
    pub fn load_assets(&mut self, graphics: Option<GraphicsCache>)
        ensures
            final(self).graphics == (if graphics is Some { graphics } else { old(self).graphics }),
            final(self).screen == old(self).screen,
            final(self).player == old(self).player,
            final(self).map == old(self).map,
            final(self).actors == old(self).actors,
            final(self).doors == old(self).doors,
            final(self).renderer == old(self).renderer,
            final(self).tick == old(self).tick,
    {
        match graphics {
            Some(gc) => {
                self.graphics = Some(gc);
            },
            None => {},
        }
    }

    /// One frame of game logic.  While playing, the player moves by the
    /// input (when a level is loaded), every door steps and every living
    /// actor thinks about the moved player.  At the menu, the start key
    /// begins play.  The frame counter always advances.
    pub fn tick(&mut self, input: &InputHandler)
        requires
            old(self).tick < u64::MAX,
            old(self).screen == Screen::Playing ==> play_ok(*old(self), *input),
        ensures
            final(self).tick == old(self).tick + 1,
            final(self).map == old(self).map,
            final(self).renderer == old(self).renderer,
            final(self).graphics == old(self).graphics,
            final(self).heading == old(self).heading,
            final(self).episode == old(self).episode,
            final(self).map_num == old(self).map_num,
            final(self).menu == old(self).menu,
            final(self).screen == (if old(self).screen == Screen::Menu && input.start {
                Screen::Playing
            } else {
                old(self).screen
            }),
            old(self).screen == Screen::Playing ==> {
                &&& final(self).player == player_after(*old(self), *input)
                &&& final(self).doors.doors@.len() == old(self).doors.doors@.len()
                &&& forall|i: int|
                    0 <= i < old(self).doors.doors@.len() ==> #[trigger] final(self).doors.doors@[i] == door_step(
                        old(self).doors.doors@[i],
                    )
                &&& final(self).actors.actors@.len() == old(self).actors.actors@.len()
                &&& forall|i: int|
                    0 <= i < old(self).actors.actors@.len() ==> Some(#[trigger] final(self).actors.actors@[i])
                        == tick_actor(old(self).actors.actors@[i], player_after(*old(self), *input))
            },
            old(self).screen != Screen::Playing ==> {
                &&& final(self).player == old(self).player
                &&& final(self).doors == old(self).doors
                &&& final(self).actors == old(self).actors
            },
    {
        self.tick = self.tick + 1;
        match self.screen {
            Screen::Playing => {
                match &self.map {
                    Some(map) => {
                        self.player.update(input, map, &self.heading);
                    },
                    None => {},
                }
                self.doors.update();
                self.actors.update_all(&self.player);
            },
            Screen::Menu => {
                if input.start_pressed() {
                    self.screen = Screen::Playing;
                }
            },
            Screen::Intermission | Screen::GameOver => {},
        }
    }

    /// Draws the current screen into the RGBA8888 framebuffer `fb` of
    /// `width` pixels per row.  Fails only when a ray of the game view
    /// faults.
    pub fn draw(&mut self, fb: &mut [u8], width: usize, height: usize) -> (r: Result<(), RayFault>)
        requires
            old(self).screen == Screen::Playing && old(self).map is Some ==> old(self).renderer.wf()
                && old(self).player.angle < FINEANGLES && stride_fits(width as int),
        ensures
            final(self).screen == old(self).screen,
            final(self).player == old(self).player,
            final(self).map == old(self).map,
            final(self).doors == old(self).doors,
            final(self).actors == old(self).actors,
            final(self).tick == old(self).tick,
            old(self).screen == Screen::Playing ==> game_frame(*old(self), *final(self), old(fb)@, final(fb)@, width as int, r),
            old(self).screen == Screen::Menu ==> r is Ok && final(fb)@ == filled(old(fb)@, menu_background())
                && final(self).renderer == old(self).renderer,
            (old(self).screen == Screen::Intermission || old(self).screen == Screen::GameOver) ==> r is Ok
                && final(fb)@ == old(fb)@ && final(self).renderer == old(self).renderer,
    {
        match self.screen {
            Screen::Playing => self.draw_game(fb, width, height),
            Screen::Menu => {
                self.draw_menu(fb, width, height);
                Ok(())
            },
            Screen::Intermission => Ok(()),
            Screen::GameOver => Ok(()),
        }
    }

    /// Draws the 3D view from the player; without a level the framebuffer
    /// is cleared to zero.
    fn draw_game(&mut self, fb: &mut [u8], width: usize, _height: usize) -> (r: Result<(), RayFault>)
        requires
            old(self).map is Some ==> old(self).renderer.wf() && old(self).player.angle < FINEANGLES && stride_fits(
                width as int,
            ),
        ensures
            final(self).screen == old(self).screen,
            final(self).player == old(self).player,
            final(self).map == old(self).map,
            final(self).doors == old(self).doors,
            final(self).actors == old(self).actors,
            final(self).tick == old(self).tick,
            game_frame(*old(self), *final(self), old(fb)@, final(fb)@, width as int, r),
    {
        let view = view::View { x: self.player.x, y: self.player.y, angle: self.player.angle };
        let mut door_pos: Vec<u8> = Vec::new();
        let mut i: usize = 0;
        while i < self.doors.doors.len()
            invariant
                i <= self.doors.doors@.len(),
                door_pos@ == door_positions(self.doors.doors@).subrange(0, i as int),
            decreases self.doors.doors@.len() - i,
        {
            door_pos.push(self.doors.doors[i].position);
            i = i + 1;
            assert(door_pos@ =~= door_positions(self.doors.doors@).subrange(0, i as int));
        }
        assert(door_pos@ =~= door_positions(self.doors.doors@));
        let empty: Vec<Vec<u8>> = Vec::new();
        let textures: &[Vec<u8>] = match &self.graphics {
            Some(g) => g.wall_textures.as_slice(),
            None => empty.as_slice(),
        };
        assert(textures@ == frame_textures(self.graphics));
        match &self.map {
            Some(map) => self.renderer.draw_frame(fb, width, &view, &map.level, textures, door_pos.as_slice()),
            None => {
                clear(fb);
                Ok(())
            },
        }
    }

    /// Paints the menu background over the whole framebuffer.
    fn draw_menu(&self, fb: &mut [u8], _width: usize, _height: usize)
        ensures
            final(fb)@ == filled(old(fb)@, menu_background()),
    {
        fill_pixels(fb, [0x1C, 0x1C, 0x1C, 0xFF]);
        match self.menu.current {
            MenuScreenOption::MainMenu => {},
            _ => {},
        }
    }

    /// Draws the menu cursor gun (nothing yet).
    fn draw_menu_gun(&self, fb: &mut [u8])
        ensures
            final(fb)@ == old(fb)@,
    {
    }

    /// Draws a text string (nothing yet).
    fn draw_text_string(&self, fb: &mut [u8], text: &str)
        ensures
            final(fb)@ == old(fb)@,
    {
    }
}

/// The game view drawn from state `g0` into `fb0`, giving `g1` and `fb1`:
/// with a level loaded, the frame of the player's view over the level, the
/// loaded wall textures and the door positions; without one, a cleared
/// framebuffer.
pub open spec fn game_frame(
    g0: GameState,
    g1: GameState,
    fb0: Seq<u8>,
    fb1: Seq<u8>,
    stride: int,
    r: Result<(), RayFault>,
) -> bool {
    match g0.map {
        Some(m) => g1.renderer.wf() && frame_drawn(
            g0.renderer,
            g1.renderer,
            fb0,
            fb1,
            stride,
            player_view(g0.player),
            m.level,
            frame_textures(g0.graphics),
            door_positions(g0.doors.doors@),
            r,
        ),
        None => r is Ok && fb1 == Seq::new(fb0.len(), |_i: int| 0u8) && g1.renderer == g0.renderer,
    }
}

/// Sets every byte of `fb` to zero.
fn clear(fb: &mut [u8])
    ensures
        final(fb)@ == Seq::new(old(fb)@.len(), |_i: int| 0u8),
{
    let ghost n = fb@.len();
    let mut i: usize = 0;
    while i < fb.len()
        invariant
            fb@.len() == n,
            i <= n,
            forall|j: int| 0 <= j < i ==> #[trigger] fb@[j] == 0u8,
        decreases n - i,
    {
        fb[i] = 0;
        i = i + 1;
    }
    assert(fb@ =~= Seq::new(n, |_i: int| 0u8));
}

/// A frame of play keeps everyone on the map: when the player and every
/// actor lie within the map, the actors move at most a tile per tick and
/// their timers can count down, the frame cannot overflow in the player's
/// move or in any actor's thinking, and afterwards the player and every
/// actor still lie within the map.
pub proof fn law_tick_stays_in_world(g: GameState, input: InputHandler)
    requires
        in_world(g.player.x),
        in_world(g.player.y),
        g.player.angle < FINEANGLES,
        g.heading.wf(),
        g.map matches Some(m) ==> m.level.wf(),
        forall|i: int|
            0 <= i < g.actors.actors@.len() ==> {
                let a = #[trigger] g.actors.actors@[i];
                in_world(a.x) && in_world(a.y) && 0 <= a.speed.0 <= 65536 && a.tic_count > i32::MIN
            },
    ensures
        g.map matches Some(m) ==> update_spec(g.player, input, m.level, g.heading) is Some,
        in_world(player_after(g, input).x),
        in_world(player_after(g, input).y),
        player_after(g, input).angle < FINEANGLES,
        forall|i: int|
            0 <= i < g.actors.actors@.len() ==> (#[trigger] tick_actor(g.actors.actors@[i], player_after(g, input))) is Some,
        forall|i: int|
            0 <= i < g.actors.actors@.len() ==> in_world(
                (#[trigger] tick_actor(g.actors.actors@[i], player_after(g, input)))->0.x,
            ) && in_world(tick_actor(g.actors.actors@[i], player_after(g, input))->0.y),
{
    match g.map {
        Some(m) => {
            law_update_stays_in_world(g.player, input, m.level, g.heading);
        },
        None => {},
    }
    let p = player_after(g, input);
    assert forall|i: int| 0 <= i < g.actors.actors@.len() implies (#[trigger] tick_actor(
        g.actors.actors@[i],
        p,
    )) is Some && in_world(tick_actor(g.actors.actors@[i], p)->0.x) && in_world(
        tick_actor(g.actors.actors@[i], p)->0.y,
    ) by {
        let a = g.actors.actors@[i];
        crate::game::ai::law_think_stays_in_world(a, p);
    }
}

/// The state lies within the bounds under which play is safe: the player
/// and every actor on the map, actors moving at most a tile per tick with
/// timers that can count down, the heading tables and level of full size,
/// and every door able to step.
pub open spec fn world_ok(g: GameState) -> bool {
    &&& in_world(g.player.x)
    &&& in_world(g.player.y)
    &&& g.player.angle < FINEANGLES
    &&& g.heading.wf()
    &&& g.map matches Some(m) ==> m.level.wf()
    &&& forall|i: int|
        0 <= i < g.actors.actors@.len() ==> {
            let a = #[trigger] g.actors.actors@[i];
            in_world(a.x) && in_world(a.y) && 0 <= a.speed.0 <= 65536 && a.tic_count > i32::MIN
        }
    &&& forall|i: int| 0 <= i < g.doors.doors@.len() ==> door_step_ok(#[trigger] g.doors.doors@[i])
}

impl GameState {
    /// Whether the state is within the bounds of `world_ok`; when it is, a
    /// frame of play can be stepped on any input.
    pub fn world_in_bounds(&self) -> (r: bool)
        ensures
            r == world_ok(*self),
            r ==> forall|input: InputHandler| #[trigger] play_ok(*self, input),
    {
        let p = &self.player;
        let mut ok = 0 <= p.x.0 && p.x.0 <= WORLD_EXTENT && 0 <= p.y.0 && p.y.0 <= WORLD_EXTENT
            && p.angle < FINEANGLES && self.heading.cos.len() == FINEANGLES && self.heading.sin.len()
            == FINEANGLES;
        match &self.map {
            Some(m) => {
                ok = ok && m.level.width == 64 && m.level.height == 64;
            },
            None => {},
        }
        let n = self.actors.actors.len();
        let mut i: usize = 0;
        let mut actors_ok = true;
        while i < n
            invariant
                n == self.actors.actors@.len(),
                i <= n,
                actors_ok == forall|j: int|
                    0 <= j < i ==> {
                        let a = #[trigger] self.actors.actors@[j];
                        in_world(a.x) && in_world(a.y) && 0 <= a.speed.0 <= 65536 && a.tic_count > i32::MIN
                    },
            decreases n - i,
        {
            let a = &self.actors.actors[i];
            let this = 0 <= a.x.0 && a.x.0 <= WORLD_EXTENT && 0 <= a.y.0 && a.y.0 <= WORLD_EXTENT && 0 <= a.speed.0
                && a.speed.0 <= 65536 && a.tic_count > i32::MIN;
            actors_ok = actors_ok && this;
            i = i + 1;
        }
        let m = self.doors.doors.len();
        let mut k: usize = 0;
        let mut doors_ok = true;
        while k < m
            invariant
                m == self.doors.doors@.len(),
                k <= m,
                doors_ok == forall|j: int| 0 <= j < k ==> door_step_ok(#[trigger] self.doors.doors@[j]),
            decreases m - k,
        {
            let d = &self.doors.doors[k];
            let this = !(d.state == DoorState::Open && d.tic_count == i32::MIN);
            doors_ok = doors_ok && this;
            k = k + 1;
        }
        let r = ok && actors_ok && doors_ok;
        proof {
            if r {
                assert forall|input: InputHandler| #[trigger] play_ok(*self, input) by {
                    law_tick_stays_in_world(*self, input);
                }
            }
        }
        r
    }
}

} // verus!
