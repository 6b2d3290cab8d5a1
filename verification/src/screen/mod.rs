//! The screens of the game and the keys they react to.
use vstd::prelude::*;

use crate::config::Config;
use crate::powerup::lands_on_board;
use crate::state::{Pacing, State, MAX_TIME_MS};
use game::{landed, landing_handled, GameScreen};
use crate::state::rows_checked;
use crate::task::{Task, TaskAction};
use lose::LoseScreen;
use options::OptionsScreen;
use title::TitleScreen;

pub mod game;
pub mod lose;
pub mod options;
pub mod title;

verus! {

/// A key the player pressed.
#[derive(Clone, Copy, Debug, PartialEq, Eq, Structural)]
pub enum Key {
    Up,
    Down,
    Left,
    Right,
    Enter,
    Esc,
    Char(char),
    Other,
}

/// What a frame needs to know of time: the game time now, the pace of a
/// new game, and the pace after a level-up of the current game.
#[derive(Clone, Copy, Debug, PartialEq, Eq, Structural)]
pub struct Tick {
    pub now_ms: u64,
    pub start: Pacing,
    pub next: Pacing,
}

impl Tick {
    /// Both paces are valid and the time is in range.
    pub open spec fn valid(&self) -> bool {
        &&& self.now_ms <= MAX_TIME_MS
        &&& self.start.valid()
        &&& self.next.valid()
    }
}

/// The screen being shown.
#[derive(Debug)]
pub enum AppScreen {
    Game(GameScreen),
    Title(TitleScreen),
    Options(OptionsScreen),
    Lose(LoseScreen),
    Quit,
}

/// The two outcomes of a screen update that the caller acts on: whether a
/// new screen came up, and whether the settings should be saved (on
/// leaving the options screen).
#[derive(Clone, Copy, Debug, PartialEq, Eq, Structural)]
pub struct ScreenUpdate {
    pub changed: bool,
    pub save_config: bool,
}

/// `s` is a game just started: fresh (see `State::fresh_but_tasks`), with
/// the first drop of the piece scheduled.
pub open spec fn started(s: &State, config: &Config, tick: Tick) -> bool {
    &&& s.fresh_but_tasks(config, tick.start, tick.now_ms)
    &&& s.task_queue@ == seq![Task { time: (tick.now_ms + tick.start.gravity_ms) as u64, action: TaskAction::Fall }]
}

/// The screen `new` and the state `new_state` are what updating the screen
/// `old` over the state `old_state` gives, and `r` tells what happened:
/// - the game, unless paused, checks for a landing (and the lose screen
///   comes when the game is then over);
/// - the title screen starts a game (unless play is disabled), opens the
///   options or quits, as picked;
/// - the options screen goes back to the title screen (saving the
///   settings) when asked;
/// - the lose screen restarts, goes to the title screen or quits, as
///   picked.
pub open spec fn screen_updated(
    old: &AppScreen,
    new: &AppScreen,
    old_state: &State,
    new_state: &State,
    config: &Config,
    tick: Tick,
    r: ScreenUpdate,
) -> bool {
    &&& r.save_config == (*old matches AppScreen::Options(o) && o.go_back)
    &&& !r.changed ==> *new == *old
    &&& match *old {
        AppScreen::Game(_) => if old_state.paused {
            !r.changed && *new_state == *old_state
        } else {
            &&& r.changed == (landed(old_state) && new_state.game_ended)
            &&& r.changed ==> *new == AppScreen::Lose(lose::LoseScreen::default_spec())
            &&& !landed(old_state) ==> rows_checked(old_state, new_state)
            &&& landed(old_state) ==> landing_handled(old_state, new_state, tick.next)
        },
        AppScreen::Title(t) => match t.activated {
            Some(title::MenuChoice::Play) => if t.play_disabled {
                !r.changed && *new_state == *old_state
            } else {
                r.changed && *new == AppScreen::Game(GameScreen {}) && started(new_state, config, tick)
            },
            Some(title::MenuChoice::Options) => r.changed && (*new matches AppScreen::Options(o) && o.fresh(
                config,
                tick,
            )) && *new_state == *old_state,
            Some(title::MenuChoice::Quit) => r.changed && *new == AppScreen::Quit && *new_state == *old_state,
            None => !r.changed && *new_state == *old_state,
        },
        AppScreen::Options(o) => r.changed == o.go_back && (o.go_back ==> *new == AppScreen::Title(
            title::TitleScreen::default_spec(),
        )) && *new_state == *old_state,
        AppScreen::Lose(l) => match l.activated {
            Some(lose::MenuChoice::Restart) => r.changed && *new == AppScreen::Game(GameScreen {}) && started(
                new_state,
                config,
                tick,
            ),
            Some(lose::MenuChoice::Title) => r.changed && *new == AppScreen::Title(title::TitleScreen::default_spec())
                && *new_state == *old_state,
            Some(lose::MenuChoice::Quit) => r.changed && *new == AppScreen::Quit && *new_state == *old_state,
            None => !r.changed && *new_state == *old_state,
        },
        AppScreen::Quit => !r.changed && *new_state == *old_state,
    }
}

impl AppScreen {
    /// Leaving the screen is asked for.
    pub open spec fn quits(&self) -> bool {
        self matches AppScreen::Quit
    }

    /// Prepares a screen just switched to: a game starts its piece falling.
    /// (A title screen is brought up to date with the leaderboard by its own
    /// `init`.)
    pub fn init(&mut self, state: &mut State)
        requires
            old(state).wf(),
        ensures
            final(state).wf(),
            *final(self) == *old(self),
            *old(self) matches AppScreen::Game(_) ==> {
                &&& final(state).task_queue@ == old(state).task_queue@.push(
                    Task { time: (old(state).now_ms + old(state).gravity_ms) as u64, action: TaskAction::Fall },
                )
                &&& final(state).tiles@ == old(state).tiles@
                &&& final(state).score == old(state).score
                &&& final(state).same_but_effects(old(state))
            },
            !(*old(self) matches AppScreen::Game(_)) ==> *final(state) == *old(state),
    {
        match self {
            AppScreen::Game(screen) => screen.init(state),
            _ => {},
        }
    }

    /// Updates the screen, switching to the next one when it asks for it
    /// (and preparing it with `init`); see `screen_updated`.
    pub fn update(&mut self, state: &mut State, config: &Config, tick: Tick) -> (r: ScreenUpdate)
        requires
            old(state).wf(),
            config.valid(),
            tick.valid(),
            *old(self) matches AppScreen::Game(_) && !old(state).paused ==> lands_on_board(old(state)),
        ensures
            final(state).wf(),
            screen_updated(&*old(self), &*final(self), old(state), final(state), config, tick, r),
    {
        let save_config = match self {
            AppScreen::Options(o) => o.go_back,
            _ => false,
        };
        let next_screen = match self {
            AppScreen::Game(screen) => screen.update(state, tick.next),
            AppScreen::Title(screen) => screen.update(state, config, tick),
            AppScreen::Lose(screen) => screen.update(state, config, tick),
            AppScreen::Options(screen) => screen.update(),
            AppScreen::Quit => None,
        };
        let ghost mid = *state;
        match next_screen {
            Some(mut next_screen_inst) => {
                next_screen_inst.init(state);
                proof {
                    if next_screen_inst matches AppScreen::Game(_) {
                        let first = Task { time: (mid.now_ms + mid.gravity_ms) as u64, action: TaskAction::Fall };
                        assert(state.task_queue@ =~= mid.task_queue@.push(first));
                        if mid.task_queue@.len() == 0 {
                            assert(state.task_queue@ =~= seq![first]);
                        }
                    }
                }
                *self = next_screen_inst;
                ScreenUpdate { changed: true, save_config }
            },
            None => ScreenUpdate { changed: false, save_config },
        }
    }

    /// Hands a key to the screen.  `entries` is the number of leaderboard
    /// rows when playing online.
    pub fn handle_keypress(&mut self, state: &mut State, config: &mut Config, key: Key, tick: Tick, entries: Option<usize>)
        requires
            old(state).wf(),
            old(config).valid(),
            tick.valid(),
            *old(self) matches AppScreen::Title(t) ==> t.leaderboard_offset < usize::MAX,
            *old(self) matches AppScreen::Game(_) && key == Key::Char(' ') ==> lands_on_board(old(state)),
        ensures
            final(state).wf(),
            final(config).valid(),
            match *old(self) {
                AppScreen::Game(_) => game::game_key_handled(old(state), final(state), key, tick.next) && *final(config)
                    == *old(config) && *final(self) == *old(self),
                AppScreen::Title(t) => *final(self) == AppScreen::Title(t.after_key(key, entries)) && *final(state)
                    == *old(state) && *final(config) == *old(config),
                AppScreen::Lose(l) => *final(self) == AppScreen::Lose(l.after_key(key)) && *final(state) == *old(state)
                    && *final(config) == *old(config),
                AppScreen::Options(o) => (*final(self) matches AppScreen::Options(n) && options::options_key_handled(
                    &o,
                    &n,
                    *old(config),
                    *final(config),
                    key,
                )) && *final(state) == *old(state),
                AppScreen::Quit => *final(self) == *old(self) && *final(state) == *old(state) && *final(config)
                    == *old(config),
            },
    {
        match self {
            AppScreen::Game(screen) => screen.handle_keypress(state, key, tick.next),
            AppScreen::Title(screen) => screen.handle_keypress(key, entries),
            AppScreen::Lose(screen) => screen.handle_keypress(key),
            AppScreen::Options(screen) => {
                screen.handle_keypress(config, key);
                proof {
                    options::lemma_options_keep_valid(*old(config), screen.selected, -1);
                    options::lemma_options_keep_valid(*old(config), screen.selected, 1);
                }
            },
            AppScreen::Quit => {},
        }
    }

    /// Whether the game should quit.
    pub fn should_quit(&self) -> (r: bool)
        ensures
            r == self.quits(),
    {
        matches!(self, AppScreen::Quit)
    }
}

impl Default for AppScreen {
    fn default() -> (r: Self)
        ensures
            r == AppScreen::Title(TitleScreen::default_spec()),
    {
        AppScreen::Title(TitleScreen::default())
    }
}

/// Width of everything around the board, in terminal columns.
pub const MINIMUM_FIXED_WIDTH: u32 = 64;

/// Height the screens need at least, in terminal rows.
pub const MINIMUM_HEIGHT: u32 = 24;

/// The terminal size the game screen needs for a board of `board_width` by
/// `board_height` cells drawn `scale_x` by `scale_y` characters each: the
/// board's width plus `MINIMUM_FIXED_WIDTH`, and its height plus its two
/// borders but at least `MINIMUM_HEIGHT`.
pub fn required_terminal_size_for(board_width: u16, board_height: u16, scale_x: u16, scale_y: u16) -> (r: (u32, u32))
    ensures
        r.0 == MINIMUM_FIXED_WIDTH + board_width * scale_x,
        r.1 == if board_height * scale_y + 2 > MINIMUM_HEIGHT { board_height * scale_y + 2 } else { MINIMUM_HEIGHT as int },
{
    proof {
        assert(board_width * scale_x <= 65535 * 65535) by (nonlinear_arith);
        assert(board_height * scale_y <= 65535 * 65535) by (nonlinear_arith);
    }
    let w = MINIMUM_FIXED_WIDTH + (board_width as u32) * (scale_x as u32);
    let h = (board_height as u32) * (scale_y as u32) + 2;
    (w, if h > MINIMUM_HEIGHT { h } else { MINIMUM_HEIGHT })
}

/// The terminal size the game screen needs with the settings `config`.
pub fn required_terminal_size(config: &Config) -> (r: (u32, u32))
    ensures
        r.0 == MINIMUM_FIXED_WIDTH + config.board_width * config.scale_x,
        r.1 == if config.board_height * config.scale_y + 2 > MINIMUM_HEIGHT {
            config.board_height * config.scale_y + 2
        } else {
            MINIMUM_HEIGHT as int
        },
{
    required_terminal_size_for(config.board_width, config.board_height, config.scale_x, config.scale_y)
}

/// Whether a terminal of `width` by `height` is too small for the game
/// screen with the settings `config`.
pub fn terminal_too_small(width: u16, height: u16, config: &Config) -> (r: bool)
    ensures
        r == (width < MINIMUM_FIXED_WIDTH + config.board_width * config.scale_x || height < (if config.board_height
            * config.scale_y + 2 > MINIMUM_HEIGHT {
            config.board_height * config.scale_y + 2
        } else {
            MINIMUM_HEIGHT as int
        })),
{
    let (required_width, required_height) = required_terminal_size(config);
    (width as u32) < required_width || (height as u32) < required_height
}

/// Whether a key press quits the game from any screen: q, or c with
/// control (and no other modifier) held.
pub fn is_quit_key(key: Key, control_only: bool) -> (r: bool)
    ensures
        r == (key == Key::Char('q') || (key == Key::Char('c') && control_only)),
{
    match key {
        Key::Char('q') => true,
        Key::Char('c') => control_only,
        _ => false,
    }
}

/// The decimal digit `d` as a character.
pub open spec fn digit_char(d: int) -> char {
    if d == 0 {
        '0'
    } else if d == 1 {
        '1'
    } else if d == 2 {
        '2'
    } else if d == 3 {
        '3'
    } else if d == 4 {
        '4'
    } else if d == 5 {
        '5'
    } else if d == 6 {
        '6'
    } else if d == 7 {
        '7'
    } else if d == 8 {
        '8'
    } else {
        '9'
    }
}

/// `n` written in decimal.
pub open spec fn decimal(n: nat) -> Seq<char>
    decreases n,
{
    if n < 10 {
        seq![digit_char(n as int)]
    } else {
        decimal(n / 10) + seq![digit_char((n % 10) as int)]
    }
}

/// `n` written in decimal with at least two digits.
pub open spec fn two_digits(n: nat) -> Seq<char> {
    if n < 10 {
        seq!['0'] + decimal(n)
    } else {
        decimal(n)
    }
}

/// The decimal digit `d` as a string.
fn digit_str(d: u64) -> (r: &'static str)
    requires
        d < 10,
    ensures
        r@ == seq![digit_char(d as int)],
{
    if d == 0 {
        proof { reveal_strlit("0"); }
        "0"
    } else if d == 1 {
        proof { reveal_strlit("1"); }
        "1"
    } else if d == 2 {
        proof { reveal_strlit("2"); }
        "2"
    } else if d == 3 {
        proof { reveal_strlit("3"); }
        "3"
    } else if d == 4 {
        proof { reveal_strlit("4"); }
        "4"
    } else if d == 5 {
        proof { reveal_strlit("5"); }
        "5"
    } else if d == 6 {
        proof { reveal_strlit("6"); }
        "6"
    } else if d == 7 {
        proof { reveal_strlit("7"); }
        "7"
    } else if d == 8 {
        proof { reveal_strlit("8"); }
        "8"
    } else {
        proof { reveal_strlit("9"); }
        "9"
    }
}

/// Appends `n` in decimal to `s`.
fn push_decimal(s: &mut String, n: u64)
    ensures
        final(s)@ == old(s)@ + decimal(n as nat),
    decreases n,
{
    if n >= 10 {
        push_decimal(s, n / 10);
    }
    s.append(digit_str(n % 10));
    proof {
        if n >= 10 {
            assert(final(s)@ =~= old(s)@ + decimal(n as nat));
        }
    }
}

/// Appends `n` in decimal with at least two digits to `s`.
fn push_two_digits(s: &mut String, n: u64)
    ensures
        final(s)@ == old(s)@ + two_digits(n as nat),
{
    if n < 10 {
        s.append(digit_str(0));
    }
    push_decimal(s, n);
    proof {
        assert(final(s)@ =~= old(s)@ + two_digits(n as nat));
    }
}

/// An elapsed time of `total_seconds` as minutes and seconds, each with at
/// least two digits: `MM:SS`.
pub fn format_elapsed(total_seconds: u64) -> (r: String)
    ensures
        r@ == two_digits((total_seconds / 60) as nat) + seq![':'] + two_digits((total_seconds % 60) as nat),
{
    let mut s = String::new();
    push_two_digits(&mut s, total_seconds / 60);
    proof {
        reveal_strlit(":");
    }
    s.append(":");
    push_two_digits(&mut s, total_seconds % 60);
    proof {
        assert(s@ =~= two_digits((total_seconds / 60) as nat) + seq![':'] + two_digits((total_seconds % 60) as nat));
    }
    s
}

} // verus!
