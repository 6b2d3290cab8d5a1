//! The lose screen: restart, back to the title, or quit.
use vstd::prelude::*;

use crate::config::Config;
use crate::screen::game::GameScreen;
use crate::screen::title::TitleScreen;
use crate::screen::{AppScreen, Key, Tick};
use crate::state::State;

verus! {

/// The lose screen's choices, left to right.
#[derive(Clone, Copy, Debug, PartialEq, Eq, Structural)]
pub enum MenuChoice {
    Restart,
    Title,
    Quit,
}

impl MenuChoice {
    /// The choice to the left, wrapping around.
    pub open spec fn previous_spec(self) -> MenuChoice {
        match self {
            MenuChoice::Restart => MenuChoice::Quit,
            MenuChoice::Title => MenuChoice::Restart,
            MenuChoice::Quit => MenuChoice::Title,
        }
    }

    /// The choice to the right, wrapping around.
    pub open spec fn next_spec(self) -> MenuChoice {
        match self {
            MenuChoice::Restart => MenuChoice::Title,
            MenuChoice::Title => MenuChoice::Quit,
            MenuChoice::Quit => MenuChoice::Restart,
        }
    }

    /// The choice to the left, wrapping around.
    pub fn previous(self) -> (r: Self)
        ensures
            r == self.previous_spec(),
    {
        match self {
            Self::Restart => Self::Quit,
            Self::Title => Self::Restart,
            Self::Quit => Self::Title,
        }
    }

    /// The choice to the right, wrapping around.
    pub fn next(self) -> (r: Self)
        ensures
            r == self.next_spec(),
    {
        match self {
            Self::Restart => Self::Title,
            Self::Title => Self::Quit,
            Self::Quit => Self::Restart,
        }
    }
}

/// Going right then left, or left then right, comes back to the same
/// choice; three steps either way go all the way round.
pub proof fn lemma_lose_menu_cycle(c: MenuChoice)
    ensures
        c.next_spec().previous_spec() == c,
        c.previous_spec().next_spec() == c,
        c.next_spec().next_spec().next_spec() == c,
{
}

/// The lose screen: which choice is highlighted and which, if any, was
/// picked.
#[derive(Debug, PartialEq, Eq, Structural)]
pub struct LoseScreen {
    pub selected: MenuChoice,
    pub activated: Option<MenuChoice>,
}

impl LoseScreen {
    /// A fresh lose screen: restart highlighted, nothing picked.
    pub open spec fn default_spec() -> LoseScreen {
        LoseScreen { selected: MenuChoice::Restart, activated: None }
    }

    /// The lose screen after `key`: left/a and right/d move the highlight,
    /// enter picks it, r, t and q pick restart, title and quit.
    pub open spec fn after_key(self, key: Key) -> LoseScreen {
        match key {
            Key::Left | Key::Char('a') => LoseScreen { selected: self.selected.previous_spec(), ..self },
            Key::Right | Key::Char('d') => LoseScreen { selected: self.selected.next_spec(), ..self },
            Key::Enter => LoseScreen { activated: Some(self.selected), ..self },
            Key::Char('r') => LoseScreen { activated: Some(MenuChoice::Restart), ..self },
            Key::Char('t') => LoseScreen { activated: Some(MenuChoice::Title), ..self },
            Key::Char('q') => LoseScreen { activated: Some(MenuChoice::Quit), ..self },
            _ => self,
        }
    }

    /// Reacts to a key (see `after_key`).
    pub fn handle_keypress(&mut self, key: Key)
        ensures
            *final(self) == old(self).after_key(key),
    {
        match key {
            Key::Left | Key::Char('a') => self.selected = self.selected.previous(),
            Key::Right | Key::Char('d') => self.selected = self.selected.next(),
            Key::Enter => self.activated = Some(self.selected),
            Key::Char('r') => self.activated = Some(MenuChoice::Restart),
            Key::Char('t') => self.activated = Some(MenuChoice::Title),
            Key::Char('q') => self.activated = Some(MenuChoice::Quit),
            _ => {},
        }
    }

    /// The next screen once a choice is picked: a fresh game (with a new
    /// state from `config`) on restart, the title screen, or quitting.
    pub fn update(&self, state: &mut State, config: &Config, tick: Tick) -> (r: Option<AppScreen>)
        requires
            config.valid(),
            tick.valid(),
        ensures
            r == match self.activated {
                Some(MenuChoice::Restart) => Some(AppScreen::Game(GameScreen {})),
                Some(MenuChoice::Title) => Some(AppScreen::Title(TitleScreen::default_spec())),
                Some(MenuChoice::Quit) => Some(AppScreen::Quit),
                None => None,
            },
            self.activated == Some(MenuChoice::Restart) ==> final(state).fresh(config, tick.start, tick.now_ms),
            self.activated != Some(MenuChoice::Restart) ==> *final(state) == *old(state),
    {
        match self.activated {
            Some(MenuChoice::Restart) => {
                *state = State::new(config, tick.start, tick.now_ms);
                Some(AppScreen::Game(GameScreen {}))
            },
            Some(MenuChoice::Title) => Some(AppScreen::Title(TitleScreen::default())),
            Some(MenuChoice::Quit) => Some(AppScreen::Quit),
            None => None,
        }
    }
}

impl Default for LoseScreen {
    fn default() -> (r: Self)
        ensures
            r == LoseScreen::default_spec(),
    {
        LoseScreen { selected: MenuChoice::Restart, activated: None }
    }
}

} // verus!
