//! Navigation state of the dashboard and its reaction to key presses.

use vstd::prelude::*;

verus! {

/// The screens of the dashboard.
#[derive(Debug, Clone, Copy, PartialEq, Eq, Structural)]
pub enum AppScreen {
    MainMenu,
    Transactions,
    Budgets,
    Reports,
}

/// A key press, reduced to what the dashboard distinguishes.
#[derive(Debug, Clone, Copy, PartialEq, Eq, Structural)]
pub enum Key {
    Up,
    Down,
    Enter,
    Char(char),
    Other,
}

/// Number of entries of the main menu: Transactions, Budgets, Reports, Quit.
pub const MENU_LEN: usize = 4;

/// Current screen and position of the menu cursor.
#[derive(Debug, Clone, Copy, PartialEq, Eq, Structural)]
pub struct App {
    pub screen: AppScreen,
    pub menu_index: usize,
}

impl App {
    /// The cursor points at a menu entry.
    pub open spec fn cursor_in_menu(self) -> bool {
        self.menu_index < MENU_LEN
    }

    /// Whether `key`, pressed in this state, ends the session.
    pub open spec fn ends_session(self, key: Key) -> bool {
        match key {
            Key::Char(c) => c == 'q',
            Key::Enter => self.screen == AppScreen::MainMenu && self.menu_index == 3,
            _ => false,
        }
    }

    /// The state after `key` was pressed in this state.
    pub open spec fn after_key(self, key: Key) -> App {
        match key {
            Key::Up => App {
                screen: self.screen,
                menu_index: if self.menu_index > 0 {
                    (self.menu_index - 1) as usize
                } else {
                    0
                },
            },
            Key::Down => App {
                screen: self.screen,
                menu_index: if self.menu_index + 1 < MENU_LEN {
                    (self.menu_index + 1) as usize
                } else {
                    self.menu_index
                },
            },
            Key::Enter => if self.screen == AppScreen::MainMenu {
                if self.menu_index == 0 {
                    App { screen: AppScreen::Transactions, menu_index: self.menu_index }
                } else if self.menu_index == 1 {
                    App { screen: AppScreen::Budgets, menu_index: self.menu_index }
                } else if self.menu_index == 2 {
                    App { screen: AppScreen::Reports, menu_index: self.menu_index }
                } else {
                    self
                }
            } else {
                self
            },
            Key::Char(c) => if c == 'm' {
                App { screen: AppScreen::MainMenu, menu_index: self.menu_index }
            } else {
                self
            },
            Key::Other => self,
        }
    }

    /// The state in which the dashboard starts: the main menu, cursor on the
    /// first entry.
    pub fn new() -> (app: App)
        ensures
            app.screen == AppScreen::MainMenu,
            app.menu_index == 0,
    {
        App { screen: AppScreen::MainMenu, menu_index: 0 }
    }

    /// Processes one key press. Returns `true` when the key ends the session.
    pub fn handle_key(&mut self, key: Key) -> (quit: bool)
        ensures
            *final(self) == old(self).after_key(key),
            quit == old(self).ends_session(key),
    {
        match key {
            Key::Up => {
                if self.menu_index > 0 {
                    self.menu_index = self.menu_index - 1;
                }
                false
            },
            Key::Down => {
                if self.menu_index < MENU_LEN - 1 {
                    self.menu_index = self.menu_index + 1;
                }
                false
            },
            Key::Enter => {
                if self.screen == AppScreen::MainMenu {
                    if self.menu_index == 0 {
                        self.screen = AppScreen::Transactions;
                        false
                    } else if self.menu_index == 1 {
                        self.screen = AppScreen::Budgets;
                        false
                    } else if self.menu_index == 2 {
                        self.screen = AppScreen::Reports;
                        false
                    } else {
                        self.menu_index == 3
                    }
                } else {
                    false
                }
            },
            Key::Char(c) => {
                if c == 'q' {
                    true
                } else {
                    if c == 'm' {
                        self.screen = AppScreen::MainMenu;
                    }
                    false
                }
            },
            Key::Other => false,
        }
    }
}

/// The state after a run of key presses, or `None` once one of them has
/// ended the session.
pub open spec fn after_keys(app: App, keys: Seq<Key>) -> Option<App>
    decreases keys.len(),
{
    if keys.len() == 0 {
        Some(app)
    } else {
        match after_keys(app, keys.drop_last()) {
            Some(state) => if state.ends_session(keys.last()) {
                None
            } else {
                Some(state.after_key(keys.last()))
            },
            None => None,
        }
    }
}

/// From any screen, `m` leads back to the main menu and leaves the cursor
/// where it was; it never ends the session.
pub proof fn lemma_m_returns_to_menu(app: App)
    ensures
        app.after_key(Key::Char('m')).screen == AppScreen::MainMenu,
        app.after_key(Key::Char('m')).menu_index == app.menu_index,
        !app.ends_session(Key::Char('m')),
{
}

/// Only the arrow keys move the cursor.
pub proof fn lemma_cursor_moves_on_arrows_only(app: App, key: Key)
    requires
        key != Key::Up,
        key != Key::Down,
    ensures
        app.after_key(key).menu_index == app.menu_index,
{
}

/// Only `Enter` in the main menu and `m` change the screen.
pub proof fn lemma_screen_changes(app: App, key: Key)
    requires
        app.after_key(key).screen != app.screen,
    ensures
        key == Key::Char('m') || (key == Key::Enter && app.screen == AppScreen::MainMenu),
{
}

/// A cursor on a menu entry stays on a menu entry.
pub proof fn lemma_cursor_stays_in_menu(app: App, key: Key)
    requires
        app.cursor_in_menu(),
    ensures
        app.after_key(key).cursor_in_menu(),
{
}

/// Leaving the main menu through `Enter` and coming back with `m` restores
/// the state in which the menu was left, cursor included.
pub proof fn lemma_enter_then_m_restores(app: App)
    requires
        app.screen == AppScreen::MainMenu,
        !app.ends_session(Key::Enter),
    ensures
        app.after_key(Key::Enter).after_key(Key::Char('m')) == app,
{
}

/// After a run of keys that holds no arrow key and does not end the session,
/// the cursor is where it was before the run. In particular `m`, pressed
/// after any such run, shows the main menu with the cursor at the entry
/// through which the menu was left.
pub proof fn lemma_cursor_kept_without_arrows(app: App, keys: Seq<Key>)
    requires
        forall|i: int| 0 <= i < keys.len() ==> keys[i] != Key::Up && keys[i] != Key::Down,
        after_keys(app, keys) is Some,
    ensures
        after_keys(app, keys)->0.menu_index == app.menu_index,
    decreases keys.len(),
{
    if keys.len() > 0 {
        let earlier = keys.drop_last();
        assert forall|i: int| 0 <= i < earlier.len() implies earlier[i] != Key::Up && earlier[i]
            != Key::Down by {
            assert(earlier[i] == keys[i]);
        }
        lemma_cursor_kept_without_arrows(app, earlier);
        lemma_cursor_moves_on_arrows_only(after_keys(app, earlier)->0, keys.last());
    }
}

} // verus!
