//! Input handler: key presses and releases become abstract game actions.
//!
//! Key bindings are the game's defaults.
use vstd::prelude::*;

verus! {

/// The keys the game reacts to; every other key is `Other`.
#[derive(Debug, Clone, Copy, PartialEq, Eq, Structural)]
pub enum Key {
    ArrowUp,
    ArrowDown,
    ArrowLeft,
    ArrowRight,
    KeyW,
    KeyA,
    KeyS,
    KeyD,
    KeyE,
    ControlLeft,
    Space,
    Enter,
    ShiftLeft,
    ShiftRight,
    Escape,
    Other,
}

pub struct InputHandler {
    pub forward: bool,
    pub back: bool,
    pub turn_left: bool,
    pub turn_right: bool,
    pub strafe_left: bool,
    pub strafe_right: bool,
    pub fire: bool,
    /// The "use" key, which opens doors.
    pub open: bool,
    pub run: bool,
    /// Enter / confirm, pressed this frame.
    pub start: bool,
    pub escape: bool,
    pub quit: bool,
}

/// No key held and no event pending.
pub open spec fn idle_input() -> InputHandler {
    InputHandler {
        forward: false,
        back: false,
        turn_left: false,
        turn_right: false,
        strafe_left: false,
        strafe_right: false,
        fire: false,
        open: false,
        run: false,
        start: false,
        escape: false,
        quit: false,
    }
}

/// The handler after `key` is pressed (`pressed`) or released.
pub open spec fn key_effect(h: InputHandler, key: Key, pressed: bool) -> InputHandler {
    InputHandler {
        forward: if key == Key::ArrowUp || key == Key::KeyW { pressed } else { h.forward },
        back: if key == Key::ArrowDown || key == Key::KeyS { pressed } else { h.back },
        turn_left: if key == Key::ArrowLeft { pressed } else { h.turn_left },
        turn_right: if key == Key::ArrowRight { pressed } else { h.turn_right },
        strafe_left: if key == Key::KeyA { pressed } else { h.strafe_left },
        strafe_right: if key == Key::KeyD { pressed } else { h.strafe_right },
        fire: if key == Key::ControlLeft || key == Key::Space { pressed } else { h.fire },
        open: if key == Key::KeyE { pressed } else { h.open },
        run: if key == Key::ShiftLeft || key == Key::ShiftRight { pressed } else { h.run },
        start: if key == Key::Enter && pressed { true } else { h.start },
        escape: if key == Key::Escape { pressed } else { h.escape },
        quit: if key == Key::Escape && pressed { true } else { h.quit },
    }
}

impl InputHandler {
    /// No key held and no event pending.
    pub fn new() -> (r: InputHandler)
        ensures
            r == idle_input(),
    {
        InputHandler {
            forward: false,
            back: false,
            turn_left: false,
            turn_right: false,
            strafe_left: false,
            strafe_right: false,
            fire: false,
            open: false,
            run: false,
            start: false,
            escape: false,
            quit: false,
        }
    }

    /// Records a key press (`pressed`) or release (see `key_effect`).  Held
    /// keys follow the key's state; Enter and Escape set their one-shot
    /// flags only when pressed, and Escape also requests quitting.
    pub fn handle_key(&mut self, key: Key, pressed: bool)
        ensures
            *final(self) == key_effect(*old(self), key, pressed),
    {
        match key {
            Key::ArrowUp | Key::KeyW => self.forward = pressed,
            Key::ArrowDown | Key::KeyS => self.back = pressed,
            Key::ArrowLeft => self.turn_left = pressed,
            Key::ArrowRight => self.turn_right = pressed,
            Key::KeyA => self.strafe_left = pressed,
            Key::KeyD => self.strafe_right = pressed,
            Key::ControlLeft | Key::Space => self.fire = pressed,
            Key::Enter => {
                if pressed {
                    self.start = true;
                }
            },
            Key::KeyE => self.open = pressed,
            Key::ShiftLeft | Key::ShiftRight => self.run = pressed,
            Key::Escape => {
                self.escape = pressed;
                if pressed {
                    self.quit = true;
                }
            },
            Key::Other => {},
        }
    }

    /// Clears single-frame events ("start pressed this frame").
    pub fn clear_events(&mut self)
        ensures
            *final(self) == (InputHandler { start: false, ..*old(self) }),
    {
        self.start = false;
    }

    pub fn move_forward(&self) -> (r: bool)
        ensures
            r == self.forward,
    {
        self.forward
    }

    pub fn move_back(&self) -> (r: bool)
        ensures
            r == self.back,
    {
        self.back
    }

    pub fn turn_left(&self) -> (r: bool)
        ensures
            r == self.turn_left,
    {
        self.turn_left
    }

    pub fn turn_right(&self) -> (r: bool)
        ensures
            r == self.turn_right,
    {
        self.turn_right
    }

    pub fn strafe_left(&self) -> (r: bool)
        ensures
            r == self.strafe_left,
    {
        self.strafe_left
    }

    pub fn strafe_right(&self) -> (r: bool)
        ensures
            r == self.strafe_right,
    {
        self.strafe_right
    }

    pub fn fire(&self) -> (r: bool)
        ensures
            r == self.fire,
    {
        self.fire
    }

    pub fn open_door(&self) -> (r: bool)
        ensures
            r == self.open,
    {
        self.open
    }

    pub fn start_pressed(&self) -> (r: bool)
        ensures
            r == self.start,
    {
        self.start
    }

    pub fn quit_requested(&self) -> (r: bool)
        ensures
            r == self.quit,
    {
        self.quit
    }
}

impl Default for InputHandler {
    fn default() -> (r: InputHandler)
        ensures
            r == idle_input(),
    {
        InputHandler::new()
    }
}

/// Pressing then releasing a held-action key leaves that action released,
/// and pressing Escape always requests quitting, whatever came before.
pub proof fn law_press_release(h: InputHandler, key: Key)
    requires
        key != Key::Enter,
        key != Key::Escape,
    ensures
        key_effect(key_effect(h, key, true), key, false) == key_effect(h, key, false),
        key_effect(h, Key::Escape, true).quit,
{
}

/// Clearing events forgets a pending Enter press and nothing else.
pub proof fn law_clear_after_enter(h: InputHandler)
    ensures
        (InputHandler { start: false, ..key_effect(h, Key::Enter, true) }) == (InputHandler {
            start: false,
            ..h
        }),
{
}

/// The handler after a sequence of key events, applied in order.
pub open spec fn apply_keys(h: InputHandler, events: Seq<(Key, bool)>) -> InputHandler
    decreases events.len(),
{
    if events.len() == 0 {
        h
    } else {
        key_effect(apply_keys(h, events.drop_last()), events.last().0, events.last().1)
    }
}

/// Start and quit latch: once set they stay set through any key events
/// (only clearing events forgets a start), and an Enter or Escape press
/// anywhere in a sequence leaves start or quit set at its end.
pub proof fn law_start_and_quit_latch(h: InputHandler, events: Seq<(Key, bool)>)
    ensures
        h.start ==> apply_keys(h, events).start,
        h.quit ==> apply_keys(h, events).quit,
        (exists|i: int| 0 <= i < events.len() && #[trigger] events[i] == (Key::Enter, true)) ==> apply_keys(
            h,
            events,
        ).start,
        (exists|i: int| 0 <= i < events.len() && #[trigger] events[i] == (Key::Escape, true)) ==> apply_keys(
            h,
            events,
        ).quit,
    decreases events.len(),
{
    if events.len() > 0 {
        let prefix = events.drop_last();
        law_start_and_quit_latch(h, prefix);
        if exists|i: int| 0 <= i < events.len() && #[trigger] events[i] == (Key::Enter, true) {
            let i = choose|i: int| 0 <= i < events.len() && #[trigger] events[i] == (Key::Enter, true);
            if i < events.len() - 1 {
                assert(prefix[i] == events[i]);
            }
        }
        if exists|i: int| 0 <= i < events.len() && #[trigger] events[i] == (Key::Escape, true) {
            let i = choose|i: int| 0 <= i < events.len() && #[trigger] events[i] == (Key::Escape, true);
            if i < events.len() - 1 {
                assert(prefix[i] == events[i]);
            }
        }
    }
}

/// A held flag after `events`: the press state of the last event on one of
/// its keys (`keys`), or `init` when none of the events is on its keys.
pub open spec fn held_after(init: bool, events: Seq<(Key, bool)>, keys: spec_fn(Key) -> bool) -> bool
    decreases events.len(),
{
    if events.len() == 0 {
        init
    } else if keys(events.last().0) {
        events.last().1
    } else {
        held_after(init, events.drop_last(), keys)
    }
}

/// Over any sequence of key events, each held flag is whether the last event
/// on one of its keys was a press (its earlier value when there was none).
pub proof fn law_held_flags(h: InputHandler, events: Seq<(Key, bool)>)
    ensures
        apply_keys(h, events).forward == held_after(h.forward, events, |k: Key| k == Key::ArrowUp || k == Key::KeyW),
        apply_keys(h, events).back == held_after(h.back, events, |k: Key| k == Key::ArrowDown || k == Key::KeyS),
        apply_keys(h, events).turn_left == held_after(h.turn_left, events, |k: Key| k == Key::ArrowLeft),
        apply_keys(h, events).turn_right == held_after(h.turn_right, events, |k: Key| k == Key::ArrowRight),
        apply_keys(h, events).strafe_left == held_after(h.strafe_left, events, |k: Key| k == Key::KeyA),
        apply_keys(h, events).strafe_right == held_after(h.strafe_right, events, |k: Key| k == Key::KeyD),
        apply_keys(h, events).fire == held_after(h.fire, events, |k: Key| k == Key::ControlLeft || k == Key::Space),
        apply_keys(h, events).open == held_after(h.open, events, |k: Key| k == Key::KeyE),
        apply_keys(h, events).run == held_after(h.run, events, |k: Key| k == Key::ShiftLeft || k == Key::ShiftRight),
        apply_keys(h, events).escape == held_after(h.escape, events, |k: Key| k == Key::Escape),
    decreases events.len(),
{
    if events.len() > 0 {
        law_held_flags(h, events.drop_last());
    }
}

} // verus!
