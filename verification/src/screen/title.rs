//! The title screen: play, options or quit, and a scrollable leaderboard
//! when playing online.
use vstd::prelude::*;

use crate::config::Config;
use crate::piece::{layout_spec, rotated, spawn_pos, Piece, O_PIECE, PIECE_COUNT};
use crate::screen::game::GameScreen;
use crate::screen::options::OptionsScreen;
use crate::screen::{AppScreen, Key, Tick};
use crate::state::{shuffle_tail, State};

verus! {

/// How many leaderboard rows the title screen shows at once.
pub const LEADERBOARD_PAGE: usize = 20;

/// How many leaderboard rows stay in view when the board is refreshed.
pub const LEADERBOARD_KEEP: usize = 10;

/// How many pieces the title screen shows beside its menu.
pub const TITLE_PIECES: usize = 6;

/// A piece as the title screen shows it: one of the seven at spawn,
/// upright or turned upside down.
pub open spec fn title_piece(p: Piece) -> bool {
    &&& p.id < PIECE_COUNT
    &&& p.pos == spawn_pos()
    &&& (p.layout == layout_spec(p.id as int) || p.layout == rotated(rotated(layout_spec(p.id as int))))
}

/// Draws 0 or 1 with `rand::random_range(0..2)` on the thread-local
/// generator. Only the range is claimed: which value comes is chance. The
/// thread-local generator panics if the operating system cannot seed it,
/// which no clause excludes.
#[verifier::external_body]
fn random_bit() -> (r: u8)
    ensures
        r < 2,
{
    rand::random_range(0..2u8)
}

/// The title screen's pieces for the piece order `order` and the draws
/// `flips`: piece `order[i]` at spawn, turned upside down exactly when
/// `flips[i]` is 1 (the O piece looks the same either way).
pub fn title_pieces_from(order: &Vec<usize>, flips: &Vec<u8>) -> (r: Vec<Piece>)
    requires
        order@.len() >= TITLE_PIECES,
        flips@.len() >= TITLE_PIECES,
        forall|i: int| 0 <= i < order@.len() ==> order@[i] < PIECE_COUNT,
    ensures
        r@.len() == TITLE_PIECES,
        forall|i: int|
            0 <= i < TITLE_PIECES ==> {
                &&& (#[trigger] r@[i]).id == order@[i]
                &&& r@[i].pos == spawn_pos()
                &&& r@[i].layout == if flips@[i] == 1 && order@[i] != O_PIECE {
                    rotated(rotated(layout_spec(order@[i] as int)))
                } else {
                    layout_spec(order@[i] as int)
                }
            },
{
    let mut pieces: Vec<Piece> = Vec::new();
    let mut i: usize = 0;
    while i < TITLE_PIECES
        invariant
            i <= TITLE_PIECES,
            order@.len() >= TITLE_PIECES,
            flips@.len() >= TITLE_PIECES,
            forall|j: int| 0 <= j < order@.len() ==> order@[j] < PIECE_COUNT,
            pieces@.len() == i,
            forall|j: int|
                0 <= j < i ==> {
                    &&& (#[trigger] pieces@[j]).id == order@[j]
                    &&& pieces@[j].pos == spawn_pos()
                    &&& pieces@[j].layout == if flips@[j] == 1 && order@[j] != O_PIECE {
                        rotated(rotated(layout_spec(order@[j] as int)))
                    } else {
                        layout_spec(order@[j] as int)
                    }
                },
        decreases TITLE_PIECES - i,
    {
        let mut p = Piece::from_id(order[i]);
        if flips[i] == 1 {
            proof {
                crate::piece::lemma_spawn_wf(p.id as int);
                crate::piece::lemma_rotation_keeps_small(p.layout);
            }
            p.rotate();
            p.rotate();
        }
        pieces.push(p);
        i += 1;
    }
    pieces
}

/// The pieces shown on the title screen: six different ones in random
/// order, each upright or upside down at random.
pub fn title_pieces() -> (r: Vec<Piece>)
    ensures
        r@.len() == TITLE_PIECES,
        forall|i: int| 0 <= i < r@.len() ==> title_piece(#[trigger] r@[i]),
        forall|i: int, j: int| 0 <= i < j < r@.len() ==> r@[i].id != r@[j].id,
{
    let mut ids: Vec<usize> = Vec::new();
    let mut k: usize = 0;
    while k < PIECE_COUNT
        invariant
            k <= PIECE_COUNT,
            ids@ =~= Seq::new(k as nat, |i: int| i as usize),
        decreases PIECE_COUNT - k,
    {
        ids.push(k);
        k += 1;
    }
    let ghost ordered = ids@;
    shuffle_tail(&mut ids, 0);
    proof {
        broadcast use vstd::seq_lib::to_multiset_contains;

        assert(ordered.no_duplicates());
        ordered.lemma_multiset_has_no_duplicates();
        assert(ids@.subrange(0, ids@.len() as int) =~= ids@);
        assert(ordered.subrange(0, ordered.len() as int) =~= ordered);
        ids@.lemma_multiset_has_no_duplicates_conv();
        assert forall|i: int| 0 <= i < ids@.len() implies ids@[i] < PIECE_COUNT by {
            assert(ids@.contains(ids@[i]));
            assert(ids@.to_multiset().count(ids@[i]) > 0);
            assert(ordered.to_multiset().count(ids@[i]) > 0);
            assert(ordered.contains(ids@[i]));
        }
    }
    let mut flips: Vec<u8> = Vec::new();
    let mut n: usize = 0;
    while n < TITLE_PIECES
        invariant
            n <= TITLE_PIECES,
            flips@.len() == n,
        decreases TITLE_PIECES - n,
    {
        flips.push(random_bit());
        n += 1;
    }
    let r = title_pieces_from(&ids, &flips);
    proof {
        assert forall|i: int| 0 <= i < r@.len() implies title_piece(#[trigger] r@[i]) by {
            assert(r@[i].id == ids@[i]);
        }
        assert forall|i: int, j: int| 0 <= i < j < r@.len() implies r@[i].id != r@[j].id by {
            assert(r@[i].id == ids@[i]);
            assert(r@[j].id == ids@[j]);
        }
    }
    r
}

/// How a menu item is drawn.
#[derive(Clone, Copy, Debug, PartialEq, Eq, Structural)]
pub enum ItemLook {
    Disabled,
    Selected,
    Plain,
}

/// How a menu item is drawn: greyed out when disabled, highlighted when
/// selected, plain otherwise.
pub fn item_look(selected: bool, disabled: bool) -> (r: ItemLook)
    ensures
        r == (if disabled {
            ItemLook::Disabled
        } else if selected {
            ItemLook::Selected
        } else {
            ItemLook::Plain
        }),
{
    if disabled {
        ItemLook::Disabled
    } else if selected {
        ItemLook::Selected
    } else {
        ItemLook::Plain
    }
}

/// The colour of a leaderboard row.
#[derive(Clone, Copy, Debug, PartialEq, Eq, Structural)]
pub enum RowLook {
    Gold,
    Silver,
    Bronze,
    Own,
    Other,
}

/// The colour of the leaderboard row at `index` (from 0): the first three
/// get medals, then the player's own row stands out from the others.
pub fn row_look(index: usize, is_current: bool) -> (r: RowLook)
    ensures
        r == (if index == 0 {
            RowLook::Gold
        } else if index == 1 {
            RowLook::Silver
        } else if index == 2 {
            RowLook::Bronze
        } else if is_current {
            RowLook::Own
        } else {
            RowLook::Other
        }),
{
    if index == 0 {
        RowLook::Gold
    } else if index == 1 {
        RowLook::Silver
    } else if index == 2 {
        RowLook::Bronze
    } else if is_current {
        RowLook::Own
    } else {
        RowLook::Other
    }
}

/// The title screen's choices, top to bottom.
#[derive(Clone, Copy, Debug, PartialEq, Eq, Structural)]
pub enum MenuChoice {
    Play,
    Options,
    Quit,
}

impl MenuChoice {
    /// The choice above, wrapping around.
    pub open spec fn previous_spec(self) -> MenuChoice {
        match self {
            MenuChoice::Play => MenuChoice::Quit,
            MenuChoice::Options => MenuChoice::Play,
            MenuChoice::Quit => MenuChoice::Options,
        }
    }

    /// The choice below, wrapping around.
    pub open spec fn next_spec(self) -> MenuChoice {
        match self {
            MenuChoice::Play => MenuChoice::Options,
            MenuChoice::Options => MenuChoice::Quit,
            MenuChoice::Quit => MenuChoice::Play,
        }
    }

    /// The choice above, wrapping around.
    pub fn previous(self) -> (r: Self)
        ensures
            r == self.previous_spec(),
    {
        match self {
            Self::Play => Self::Quit,
            Self::Options => Self::Play,
            Self::Quit => Self::Options,
        }
    }

    /// The choice below, wrapping around.
    pub fn next(self) -> (r: Self)
        ensures
            r == self.next_spec(),
    {
        match self {
            Self::Play => Self::Options,
            Self::Options => Self::Quit,
            Self::Quit => Self::Play,
        }
    }
}

/// Going down then up, or up then down, comes back to the same choice;
/// three steps either way go all the way round.
pub proof fn lemma_title_menu_cycle(c: MenuChoice)
    ensures
        c.next_spec().previous_spec() == c,
        c.previous_spec().next_spec() == c,
        c.next_spec().next_spec().next_spec() == c,
{
}

/// `a - b`, or 0 when `b` is larger.
pub open spec fn sat_sub(a: int, b: int) -> int {
    if a < b {
        0
    } else {
        a - b
    }
}

/// The title screen: the highlighted and picked choices, whether play is
/// disabled (the terminal is too small), and the first leaderboard row in
/// view.
#[derive(Debug, PartialEq, Eq, Structural)]
pub struct TitleScreen {
    pub selected: MenuChoice,
    pub activated: Option<MenuChoice>,
    pub play_disabled: bool,
    pub leaderboard_offset: usize,
}

impl TitleScreen {
    /// A fresh title screen: play highlighted, nothing picked, play enabled,
    /// the leaderboard at its top.
    pub open spec fn default_spec() -> TitleScreen {
        TitleScreen { selected: MenuChoice::Play, activated: None, play_disabled: false, leaderboard_offset: 0 }
    }

    /// The leaderboard scrolled up a row, stopping at the top.
    pub open spec fn scrolled_up(self) -> TitleScreen {
        TitleScreen { leaderboard_offset: sat_sub(self.leaderboard_offset as int, 1) as usize, ..self }
    }

    /// The leaderboard of `n` rows scrolled down a row, stopping a page
    /// before the end.
    pub open spec fn scrolled_down(self, n: int) -> TitleScreen {
        let up = self.leaderboard_offset + 1;
        let cap = sat_sub(n, LEADERBOARD_PAGE as int);
        TitleScreen { leaderboard_offset: (if up < cap { up } else { cap }) as usize, ..self }
    }

    /// The title screen after `key`, with `entries` leaderboard rows when
    /// online: up/w and down/s move the highlight, enter picks it (not play
    /// while play is disabled), p, o and q pick play (when enabled), options
    /// and quit, and online, left/a and right/d scroll the leaderboard.
    pub open spec fn after_key(self, key: Key, entries: Option<usize>) -> TitleScreen {
        match key {
            Key::Up | Key::Char('w') => TitleScreen { selected: self.selected.previous_spec(), ..self },
            Key::Down | Key::Char('s') => TitleScreen { selected: self.selected.next_spec(), ..self },
            Key::Enter => if self.selected != MenuChoice::Play || !self.play_disabled {
                TitleScreen { activated: Some(self.selected), ..self }
            } else {
                self
            },
            Key::Char('p') => if !self.play_disabled {
                TitleScreen { activated: Some(MenuChoice::Play), ..self }
            } else {
                self
            },
            Key::Char('o') => TitleScreen { activated: Some(MenuChoice::Options), ..self },
            Key::Char('q') => TitleScreen { activated: Some(MenuChoice::Quit), ..self },
            Key::Left | Key::Char('a') => if entries.is_some() {
                self.scrolled_up()
            } else {
                self
            },
            Key::Right | Key::Char('d') => if entries.is_some() {
                self.scrolled_down(entries.unwrap() as int)
            } else {
                self
            },
            _ => self,
        }
    }

    /// Reacts to a key (see `after_key`); `entries` is the number of
    /// leaderboard rows when playing online.
    pub fn handle_keypress(&mut self, key: Key, entries: Option<usize>)
        requires
            old(self).leaderboard_offset < usize::MAX,
        ensures
            *final(self) == old(self).after_key(key, entries),
    {
        match key {
            Key::Up | Key::Char('w') => self.selected = self.selected.previous(),
            Key::Down | Key::Char('s') => self.selected = self.selected.next(),
            Key::Enter => {
                if self.selected != MenuChoice::Play || !self.play_disabled {
                    self.activated = Some(self.selected);
                }
            },
            Key::Char('p') => {
                if !self.play_disabled {
                    self.activated = Some(MenuChoice::Play);
                }
            },
            Key::Char('o') => self.activated = Some(MenuChoice::Options),
            Key::Char('q') => self.activated = Some(MenuChoice::Quit),
            Key::Left | Key::Char('a') => {
                if entries.is_some() {
                    self.scroll_up();
                }
            },
            Key::Right | Key::Char('d') => {
                if entries.is_some() {
                    self.scroll_down(entries);
                }
            },
            _ => {},
        }
    }

    /// Scrolls the leaderboard up a row.
    fn scroll_up(&mut self)
        ensures
            *final(self) == old(self).scrolled_up(),
    {
        self.leaderboard_offset = self.leaderboard_offset.saturating_sub(1);
    }

    /// Scrolls the leaderboard of `entries` rows down a row.
    fn scroll_down(&mut self, entries: Option<usize>)
        requires
            entries.is_some(),
            old(self).leaderboard_offset < usize::MAX,
        ensures
            *final(self) == old(self).scrolled_down(entries.unwrap() as int),
    {
        let n = match entries {
            Some(n) => n,
            None => 0,
        };
        let up = self.leaderboard_offset + 1;
        let cap = n.saturating_sub(LEADERBOARD_PAGE);
        self.leaderboard_offset = if up < cap { up } else { cap };
    }

    /// The next screen once a choice is picked: a fresh game (with a new
    /// state from `config`) when play is enabled, the options screen, or
    /// quitting; picking play while it is disabled does nothing.
    pub fn update(&self, state: &mut State, config: &Config, tick: Tick) -> (r: Option<AppScreen>)
        requires
            config.valid(),
            tick.valid(),
        ensures
            match self.activated {
                Some(MenuChoice::Play) => if !self.play_disabled {
                    &&& r == Some(AppScreen::Game(GameScreen {}))
                    &&& final(state).fresh(config, tick.start, tick.now_ms)
                } else {
                    &&& r.is_none()
                    &&& *final(state) == *old(state)
                },
                Some(MenuChoice::Quit) => r == Some(AppScreen::Quit) && *final(state) == *old(state),
                Some(MenuChoice::Options) => (r matches Some(AppScreen::Options(o)) && o.fresh(config, tick))
                    && *final(state) == *old(state),
                None => r.is_none() && *final(state) == *old(state),
            },
    {
        match self.activated {
            Some(MenuChoice::Play) => {
                if !self.play_disabled {
                    *state = State::new(config, tick.start, tick.now_ms);
                    Some(AppScreen::Game(GameScreen {}))
                } else {
                    None
                }
            },
            Some(MenuChoice::Quit) => Some(AppScreen::Quit),
            Some(MenuChoice::Options) => Some(AppScreen::Options(OptionsScreen::new(config, tick))),
            None => None,
        }
    }

    /// The title screen with at least `LEADERBOARD_KEEP` of `entry_count`
    /// leaderboard rows in view.
    pub open spec fn clamped(self, entry_count: int) -> TitleScreen {
        let cap = sat_sub(entry_count, LEADERBOARD_KEEP as int);
        TitleScreen {
            leaderboard_offset: (if self.leaderboard_offset < cap { self.leaderboard_offset as int } else { cap }) as usize,
            ..self
        }
    }

    /// Called on arriving at the title screen with the number of
    /// leaderboard rows, when online: keeps at least `LEADERBOARD_KEEP` rows
    /// in view.
    pub fn init(&mut self, entries: Option<usize>)
        ensures
            *final(self) == (match entries {
                Some(n) => old(self).clamped(n as int),
                None => *old(self),
            }),
    {
        if let Some(n) = entries {
            self.clamp_leaderboard_offset(n);
        }
    }

    /// Keeps at least `LEADERBOARD_KEEP` of `entry_count` rows in view.
    pub fn clamp_leaderboard_offset(&mut self, entry_count: usize)
        ensures
            *final(self) == old(self).clamped(entry_count as int),
    {
        let cap = entry_count.saturating_sub(LEADERBOARD_KEEP);
        if cap < self.leaderboard_offset {
            self.leaderboard_offset = cap;
        }
    }

    /// The leaderboard rows in view, as a range `start..end` of `entries`
    /// rows: a page from the offset, cut at the last row.
    pub fn visible_rows(&self, entries: usize) -> (r: (usize, usize))
        requires
            self.leaderboard_offset <= usize::MAX - LEADERBOARD_PAGE,
        ensures
            r.0 == self.leaderboard_offset,
            r.1 == if self.leaderboard_offset + LEADERBOARD_PAGE < entries {
                self.leaderboard_offset + LEADERBOARD_PAGE
            } else {
                entries as int
            },
    {
        let end = self.leaderboard_offset + LEADERBOARD_PAGE;
        (self.leaderboard_offset, if end < entries { end } else { entries })
    }
}

impl Default for TitleScreen {
    fn default() -> (r: Self)
        ensures
            r == TitleScreen::default_spec(),
    {
        TitleScreen { selected: MenuChoice::Play, activated: None, play_disabled: false, leaderboard_offset: 0 }
    }
}

} // verus!
