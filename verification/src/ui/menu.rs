//! Main menu: a list of labelled actions with a cursor.
//!
//! Navigation uses up/down (wrapping at either end); Enter selects.
use vstd::prelude::*;

verus! {

#[derive(Debug, Clone, Copy, PartialEq, Eq, Structural)]
pub enum MenuAction {
    NewGame,
    LoadGame,
    SaveGame,
    ViewScores,
    BackToDemo,
    QuitGame,
}

pub struct MenuItem {
    pub label: &'static str,
    pub action: MenuAction,
    pub enabled: bool,
}

pub struct Menu {
    pub items: Vec<MenuItem>,
    pub cursor: usize,
}

/// The main menu's actions, in order.
pub open spec fn main_menu_actions() -> Seq<MenuAction> {
    seq![
        MenuAction::NewGame,
        MenuAction::LoadGame,
        MenuAction::SaveGame,
        MenuAction::ViewScores,
        MenuAction::BackToDemo,
        MenuAction::QuitGame,
    ]
}

/// The cursor after moving up: one item up, wrapping from the top to the
/// last item.
pub open spec fn cursor_up_spec(cursor: int, len: int) -> int {
    if cursor > 0 { cursor - 1 } else { len - 1 }
}

/// The cursor after moving down: one item down, wrapping past the end.
pub open spec fn cursor_down_spec(cursor: int, len: int) -> int {
    (cursor + 1) % len
}

impl Menu {
    /// The main menu: New Game, Load Game, Save Game (disabled), View
    /// Scores, Back to Demo, Quit Game; the cursor on the first item.
    pub fn main_menu() -> (m: Menu)
        ensures
            m.cursor == 0,
            m.items@.len() == 6,
            forall|i: int| 0 <= i < 6 ==> #[trigger] m.items@[i].action == main_menu_actions()[i],
            forall|i: int| 0 <= i < 6 ==> (#[trigger] m.items@[i].enabled <==> i != 2),
            m.items@[0].label@ == "New Game"@,
            m.items@[1].label@ == "Load Game"@,
            m.items@[2].label@ == "Save Game"@,
            m.items@[3].label@ == "View Scores"@,
            m.items@[4].label@ == "Back to Demo"@,
            m.items@[5].label@ == "Quit Game"@,
    {
        let mut items: Vec<MenuItem> = Vec::new();
        items.push(MenuItem { label: "New Game", action: MenuAction::NewGame, enabled: true });
        items.push(MenuItem { label: "Load Game", action: MenuAction::LoadGame, enabled: true });
        items.push(MenuItem { label: "Save Game", action: MenuAction::SaveGame, enabled: false });
        items.push(MenuItem { label: "View Scores", action: MenuAction::ViewScores, enabled: true });
        items.push(MenuItem { label: "Back to Demo", action: MenuAction::BackToDemo, enabled: true });
        items.push(MenuItem { label: "Quit Game", action: MenuAction::QuitGame, enabled: true });
        Menu { cursor: 0, items }
    }

    /// Moves the cursor up one item, wrapping to the last item.  An empty
    /// menu with the cursor at 0 has no last item and is excluded.
    pub fn cursor_up(&mut self)
        requires
            old(self).cursor > 0 || old(self).items@.len() > 0,
        ensures
            final(self).cursor == cursor_up_spec(old(self).cursor as int, old(self).items@.len() as int),
            final(self).items@ == old(self).items@,
    {
        if self.cursor > 0 {
            self.cursor = self.cursor - 1;
        } else {
            self.cursor = self.items.len() - 1;
        }
    }

    /// Moves the cursor down one item, wrapping to the first item.
    pub fn cursor_down(&mut self)
        requires
            old(self).items@.len() > 0,
            old(self).cursor < usize::MAX,
        ensures
            final(self).cursor == cursor_down_spec(old(self).cursor as int, old(self).items@.len() as int),
            final(self).items@ == old(self).items@,
    {
        self.cursor = (self.cursor + 1) % self.items.len();
    }

    /// The action under the cursor, if the cursor is on an enabled item.
    pub fn select(&self) -> (r: Option<MenuAction>)
        ensures
            r == (if self.cursor < self.items@.len() && self.items@[self.cursor as int].enabled {
                Some(self.items@[self.cursor as int].action)
            } else {
                None
            }),
    {
        if self.cursor < self.items.len() {
            let item = &self.items[self.cursor];
            if item.enabled {
                Some(item.action)
            } else {
                None
            }
        } else {
            None
        }
    }

    /// Draws the menu; the framebuffer is left unchanged.
    pub fn draw(&self, fb: &mut [u8], width: usize, height: usize)
        ensures
            final(fb)@ == old(fb)@,
    {
    }
}

/// Moving the cursor down and then up, or up and then down, returns it to
/// where it was; either move keeps a cursor that is on an item on an item.
pub proof fn law_cursor_round_trip(cursor: int, len: int)
    requires
        0 <= cursor < len,
    ensures
        cursor_up_spec(cursor_down_spec(cursor, len), len) == cursor,
        cursor_down_spec(cursor_up_spec(cursor, len), len) == cursor,
        0 <= cursor_up_spec(cursor, len) < len,
        0 <= cursor_down_spec(cursor, len) < len,
{
    if cursor + 1 < len {
        vstd::arithmetic::div_mod::lemma_small_mod((cursor + 1) as nat, len as nat);
    } else {
        vstd::arithmetic::div_mod::lemma_mod_self_0(len);
    }
    if cursor > 0 {
        vstd::arithmetic::div_mod::lemma_small_mod(cursor as nat, len as nat);
    } else {
        vstd::arithmetic::div_mod::lemma_mod_self_0(len);
    }
}

} // verus!
