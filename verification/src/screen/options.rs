//! The options screen: adjusting the settings, with a preview board.
use vstd::prelude::*;

use crate::color::Color;
use crate::config::{clamp_spec, default_config, default_spec, Config};
use crate::piece::Piece;
use crate::powerup::PowerUpType;
use crate::screen::game::moved;
use crate::screen::title::TitleScreen;
use crate::screen::{AppScreen, Key, Tick};
use crate::state::State;

verus! {

/// The options screen's entries, top to bottom.
#[derive(Clone, Copy, Debug, PartialEq, Eq, Structural)]
pub enum OptionChoice {
    ScaleX,
    ScaleY,
    BoardWidth,
    BoardHeight,
    StartLevel,
    Back,
}

impl OptionChoice {
    /// The entry above, wrapping around.
    pub open spec fn previous_spec(self) -> OptionChoice {
        match self {
            OptionChoice::ScaleX => OptionChoice::Back,
            OptionChoice::ScaleY => OptionChoice::ScaleX,
            OptionChoice::BoardWidth => OptionChoice::ScaleY,
            OptionChoice::BoardHeight => OptionChoice::BoardWidth,
            OptionChoice::StartLevel => OptionChoice::BoardHeight,
            OptionChoice::Back => OptionChoice::StartLevel,
        }
    }

    /// The entry below, wrapping around.
    pub open spec fn next_spec(self) -> OptionChoice {
        match self {
            OptionChoice::ScaleX => OptionChoice::ScaleY,
            OptionChoice::ScaleY => OptionChoice::BoardWidth,
            OptionChoice::BoardWidth => OptionChoice::BoardHeight,
            OptionChoice::BoardHeight => OptionChoice::StartLevel,
            OptionChoice::StartLevel => OptionChoice::Back,
            OptionChoice::Back => OptionChoice::ScaleX,
        }
    }

    /// The entry above, wrapping around.
    pub fn previous(self) -> (r: Self)
        ensures
            r == self.previous_spec(),
    {
        match self {
            Self::ScaleX => Self::Back,
            Self::ScaleY => Self::ScaleX,
            Self::BoardWidth => Self::ScaleY,
            Self::BoardHeight => Self::BoardWidth,
            Self::StartLevel => Self::BoardHeight,
            Self::Back => Self::StartLevel,
        }
    }

    /// The entry below, wrapping around.
    pub fn next(self) -> (r: Self)
        ensures
            r == self.next_spec(),
    {
        match self {
            Self::ScaleX => Self::ScaleY,
            Self::ScaleY => Self::BoardWidth,
            Self::BoardWidth => Self::BoardHeight,
            Self::BoardHeight => Self::StartLevel,
            Self::StartLevel => Self::Back,
            Self::Back => Self::ScaleX,
        }
    }
}

/// Going down then up, or up then down, comes back to the same entry; six
/// steps either way go all the way round.
pub proof fn lemma_options_menu_cycle(c: OptionChoice)
    ensures
        c.next_spec().previous_spec() == c,
        c.previous_spec().next_spec() == c,
        c.next_spec().next_spec().next_spec().next_spec().next_spec().next_spec() == c,
{
}

/// The setting an entry adjusts.
pub open spec fn setting(c: Config, o: OptionChoice) -> int {
    match o {
        OptionChoice::ScaleX => c.scale_x as int,
        OptionChoice::ScaleY => c.scale_y as int,
        OptionChoice::BoardWidth => c.board_width as int,
        OptionChoice::BoardHeight => c.board_height as int,
        OptionChoice::StartLevel => c.start_level as int,
        OptionChoice::Back => 0,
    }
}

/// The settings with the one an entry adjusts set to `v`.
pub open spec fn with_setting(c: Config, o: OptionChoice, v: int) -> Config {
    match o {
        OptionChoice::ScaleX => Config { scale_x: v as u16, ..c },
        OptionChoice::ScaleY => Config { scale_y: v as u16, ..c },
        OptionChoice::BoardWidth => Config { board_width: v as u16, ..c },
        OptionChoice::BoardHeight => Config { board_height: v as u16, ..c },
        OptionChoice::StartLevel => Config { start_level: v as u16, ..c },
        OptionChoice::Back => c,
    }
}

/// The smallest value the options screen lets an entry take.
pub open spec fn setting_min(o: OptionChoice) -> int {
    match o {
        OptionChoice::ScaleX | OptionChoice::ScaleY => 1,
        OptionChoice::StartLevel => 0,
        OptionChoice::BoardWidth | OptionChoice::BoardHeight => 4,
        OptionChoice::Back => 0,
    }
}

/// The largest value the options screen lets an entry take.
pub open spec fn setting_max(o: OptionChoice) -> int {
    match o {
        OptionChoice::ScaleX => 8,
        OptionChoice::ScaleY => 5,
        OptionChoice::BoardWidth | OptionChoice::BoardHeight => 50,
        OptionChoice::StartLevel => 30,
        OptionChoice::Back => 0,
    }
}

/// The settings after stepping entry `o` by `direction`, kept within the
/// entry's range; the back entry adjusts nothing.
pub open spec fn adjusted(c: Config, o: OptionChoice, direction: int) -> Config {
    if o == OptionChoice::Back {
        c
    } else {
        with_setting(c, o, clamp_spec(setting(c, o) + direction, setting_min(o), setting_max(o)))
    }
}

/// The settings with entry `o` back at its default.
pub open spec fn reset_setting(c: Config, o: OptionChoice) -> Config {
    with_setting(c, o, setting(default_spec(), o))
}

/// The value entry `o` has in `config`, and the default to show beside its
/// name when the value differs from it (never for the back entry).
pub fn entry_value(config: &Config, o: OptionChoice) -> (r: (u16, Option<u16>))
    ensures
        r.0 == setting(*config, o),
        r.1 == (if o == OptionChoice::Back || setting(*config, o) == setting(default_spec(), o) {
            None
        } else {
            Some(setting(default_spec(), o) as u16)
        }),
{
    let d = default_config();
    let (value, default) = match o {
        OptionChoice::ScaleX => (config.scale_x, d.scale_x),
        OptionChoice::ScaleY => (config.scale_y, d.scale_y),
        OptionChoice::BoardWidth => (config.board_width, d.board_width),
        OptionChoice::BoardHeight => (config.board_height, d.board_height),
        OptionChoice::StartLevel => (config.start_level, d.start_level),
        OptionChoice::Back => {
            return (0, None);
        },
    };
    (value, if value == default { None } else { Some(default) })
}

/// The block colour of cell `(x, y)` of the preview board (three placed
/// pieces on the bottom rows), or `Reset`.
pub open spec fn preview_color(x: int, y: int) -> Color {
    if y == 0 && 4 <= x <= 7 {
        Color::Blue
    } else if (y == 1 && (x == 6 || x == 7)) || (y == 2 && (x == 7 || x == 8)) {
        Color::Magenta
    } else if (y == 0 || y == 1) && (x == 8 || x == 9) {
        Color::Yellow
    } else {
        Color::Reset
    }
}

/// `s` is the preview game for `config`: a fresh game with the preview
/// blocks that fit on its board and the piece two rows below spawn.
pub open spec fn is_preview(s: &State, config: &Config, tick: Tick) -> bool {
    &&& s.wf()
    &&& s.width() == config.board_width
    &&& s.height() == config.board_height
    &&& forall|x: int, y: int| 0 <= x < s.width() && 0 <= y < s.height() ==> #[trigger] s.cell(x, y) == preview_color(x, y)
    &&& s.current() == moved(Piece::spawned(s.current().id as int), 0, -2)
    &&& s.score == 0
    &&& s.piece_queue_ind == 0
    &&& !s.game_ended
    &&& s.placed_pieces == 0
    &&& s.powerup.p_type == PowerUpType::Inactive
    &&& s.task_queue@.len() == 0
    &&& s.level == config.start_level
    &&& s.levelup_pieces == tick.start.levelup_pieces
    &&& s.gravity_ms == tick.start.gravity_ms
    &&& s.now_ms == tick.now_ms
}

/// The options screen: the highlighted entry, whether to go back, and the
/// preview game.
#[derive(Debug)]
pub struct OptionsScreen {
    pub selected: OptionChoice,
    pub go_back: bool,
    pub test_state: State,
}

/// Cell `i` of the preview blocks, and its colour.
fn preview_block(i: usize) -> (r: (usize, usize, Color))
    requires
        i < 12,
    ensures
        r.2 == preview_color(r.0 as int, r.1 as int),
        r.2 != Color::Reset,
        r.0 < 10 && r.1 < 3,
        (r.0 as int, r.1 as int) == preview_block_spec(i as int),
{
    if i < 4 {
        (4 + i, 0, Color::Blue)
    } else if i == 4 {
        (6, 1, Color::Magenta)
    } else if i == 5 {
        (7, 1, Color::Magenta)
    } else if i == 6 {
        (7, 2, Color::Magenta)
    } else if i == 7 {
        (8, 2, Color::Magenta)
    } else if i == 8 {
        (8, 0, Color::Yellow)
    } else if i == 9 {
        (9, 0, Color::Yellow)
    } else if i == 10 {
        (8, 1, Color::Yellow)
    } else {
        (9, 1, Color::Yellow)
    }
}

/// Every coloured cell of the preview is one of the preview blocks.
proof fn lemma_preview_cells(x: int, y: int)
    requires
        preview_color(x, y) != Color::Reset,
    ensures
        exists|i: int| 0 <= i < 12 && #[trigger] preview_block_spec(i) == (x, y),
{
    if y == 0 && 4 <= x <= 7 {
        assert(preview_block_spec(x - 4) == (x, y));
    } else if y == 1 && x == 6 {
        assert(preview_block_spec(4) == (x, y));
    } else if y == 1 && x == 7 {
        assert(preview_block_spec(5) == (x, y));
    } else if y == 2 && x == 7 {
        assert(preview_block_spec(6) == (x, y));
    } else if y == 2 && x == 8 {
        assert(preview_block_spec(7) == (x, y));
    } else if y == 0 && x == 8 {
        assert(preview_block_spec(8) == (x, y));
    } else if y == 0 && x == 9 {
        assert(preview_block_spec(9) == (x, y));
    } else if y == 1 && x == 8 {
        assert(preview_block_spec(10) == (x, y));
    } else {
        assert(preview_block_spec(11) == (x, y));
    }
}

/// Where preview block `i` goes.
pub open spec fn preview_block_spec(i: int) -> (int, int) {
    if i < 4 {
        (4 + i, 0)
    } else if i == 4 {
        (6, 1)
    } else if i == 5 {
        (7, 1)
    } else if i == 6 {
        (7, 2)
    } else if i == 7 {
        (8, 2)
    } else if i == 8 {
        (8, 0)
    } else if i == 9 {
        (9, 0)
    } else if i == 10 {
        (8, 1)
    } else {
        (9, 1)
    }
}

/// Colours cell `(x, y)` when it is on the board.
pub fn place_if_valid(state: &mut State, x: usize, y: usize, col: Color)
    requires
        old(state).board_wf(),
    ensures
        final(state).board_wf(),
        final(state).width() == old(state).width(),
        final(state).height() == old(state).height(),
        forall|i: int, j: int|
            0 <= i < old(state).width() && 0 <= j < old(state).height() ==> #[trigger] final(state).cell(i, j) == (if i == x && j
                == y {
                col
            } else {
                old(state).cell(i, j)
            }),
        final(state).same_but_board(old(state)),
        final(state).score == old(state).score,
{
    if x >= state.tiles.len() || y >= state.tiles[0].len() {
        return;
    }
    state.set_cell(x, y, col);
}

/// The preview game for `config` (see `is_preview`).
pub fn build_preview_state(config: &Config, tick: Tick) -> (r: State)
    requires
        config.valid(),
        tick.valid(),
    ensures
        is_preview(&r, config, tick),
{
    let mut state = State::new(config, tick.start, tick.now_ms);
    let mut i: usize = 0;
    while i < 12
        invariant
            state.wf(),
            state.fresh(config, tick.start, tick.now_ms) || i > 0,
            state.width() == config.board_width,
            state.height() == config.board_height,
            i <= 12,
            forall|x: int, y: int|
                0 <= x < state.width() && 0 <= y < state.height() ==> #[trigger] state.cell(x, y) == (if exists|k: int|
                    0 <= k < i && #[trigger] preview_block_spec(k) == (x, y) {
                    preview_color(x, y)
                } else {
                    Color::Reset
                }),
            state.current() == Piece::spawned(state.current().id as int),
            state.score == 0,
            state.piece_queue_ind == 0,
            !state.game_ended,
            state.placed_pieces == 0,
            state.powerup.p_type == PowerUpType::Inactive,
            state.task_queue@.len() == 0,
            state.level == config.start_level,
            state.levelup_pieces == tick.start.levelup_pieces,
            state.gravity_ms == tick.start.gravity_ms,
            state.now_ms == tick.now_ms,
        decreases 12 - i,
    {
        let (x, y, col) = preview_block(i);
        assert(preview_block_spec(i as int) == (x as int, y as int));
        let ghost before = state;
        place_if_valid(&mut state, x, y, col);
        proof {
            assert forall|xx: int, yy: int| 0 <= xx < state.width() && 0 <= yy < state.height() implies #[trigger] state.cell(
                xx,
                yy,
            ) == (if exists|k: int| 0 <= k < i + 1 && #[trigger] preview_block_spec(k) == (xx, yy) {
                preview_color(xx, yy)
            } else {
                Color::Reset
            }) by {
                if xx == x && yy == y {
                    assert(preview_block_spec(i as int) == (xx, yy));
                } else {
                    assert(state.cell(xx, yy) == before.cell(xx, yy));
                    if exists|k: int| 0 <= k < i + 1 && #[trigger] preview_block_spec(k) == (xx, yy) {
                        let k = choose|k: int| 0 <= k < i + 1 && #[trigger] preview_block_spec(k) == (xx, yy);
                        assert(k != i);
                    }
                }
            }
        }
        i += 1;
    }
    proof {
        assert forall|x: int, y: int| 0 <= x < state.width() && 0 <= y < state.height() implies #[trigger] state.cell(x, y)
            == preview_color(x, y) by {
            if preview_color(x, y) != Color::Reset {
                lemma_preview_cells(x, y);
            }
        }
        crate::piece::lemma_spawn_wf(state.current().id as int);
    }
    let ghost before = state.current();
    let ghost q0 = state.piece_queue@;
    state.piece().nudge(0, -2);
    proof {
        assert(state.current().pos =~= moved(before, 0, -2).pos);
        assert(state.current() == moved(before, 0, -2));
        assert(state.piece_queue@.update(0, Piece::spawned(state.current().id as int)) =~= q0);
        assert(q0.update(0, Piece::spawned(before.id as int)) =~= q0);
    }
    state
}

/// The options screen `new` and settings `nc` are what `key` makes of the
/// screen `old` and settings `c`: up/w and down/s move the highlight,
/// left/a and right/d step the setting down or up, r resets it, enter on
/// back or esc goes back; the preview game stays.
pub open spec fn options_key_handled(old: &OptionsScreen, new: &OptionsScreen, c: Config, nc: Config, key: Key) -> bool {
    &&& new.test_state == old.test_state
    &&& match key {
        Key::Up | Key::Char('w') => new.selected == old.selected.previous_spec() && new.go_back == old.go_back && nc == c,
        Key::Down | Key::Char('s') => new.selected == old.selected.next_spec() && new.go_back == old.go_back && nc == c,
        Key::Left | Key::Char('a') => new.selected == old.selected && new.go_back == old.go_back && nc == adjusted(
            c,
            old.selected,
            -1,
        ),
        Key::Right | Key::Char('d') => new.selected == old.selected && new.go_back == old.go_back && nc == adjusted(
            c,
            old.selected,
            1,
        ),
        Key::Char('r') => new.selected == old.selected && new.go_back == old.go_back && nc == reset_setting(
            c,
            old.selected,
        ),
        Key::Enter => new.selected == old.selected && new.go_back == (old.go_back || old.selected
            == OptionChoice::Back) && nc == c,
        Key::Esc => new.selected == old.selected && new.go_back && nc == c,
        _ => new.selected == old.selected && new.go_back == old.go_back && nc == c,
    }
}

impl OptionsScreen {
    /// `self` is a fresh options screen for `config`: the first entry
    /// highlighted, not going back, and the preview game.
    pub open spec fn fresh(&self, config: &Config, tick: Tick) -> bool {
        &&& self.selected == OptionChoice::ScaleX
        &&& !self.go_back
        &&& is_preview(&self.test_state, config, tick)
    }

    /// A fresh options screen for `config` (see `fresh`).
    pub fn new(config: &Config, tick: Tick) -> (r: Self)
        requires
            config.valid(),
            tick.valid(),
        ensures
            r.fresh(config, tick),
    {
        OptionsScreen { selected: OptionChoice::ScaleX, go_back: false, test_state: build_preview_state(config, tick) }
    }

    /// Rebuilds the preview game when the board size in `config` no longer
    /// matches it.
    pub fn refresh_preview(&mut self, config: &Config, tick: Tick)
        requires
            config.valid(),
            tick.valid(),
            old(self).test_state.wf(),
        ensures
            final(self).test_state.wf(),
            final(self).selected == old(self).selected,
            final(self).go_back == old(self).go_back,
            if config.board_width != old(self).test_state.width() || config.board_height != old(self).test_state.height() {
                is_preview(&final(self).test_state, config, tick)
            } else {
                final(self).test_state == old(self).test_state
            },
    {
        if config.board_width as usize != self.test_state.tiles.len() || config.board_height as usize
            != self.test_state.tiles[0].len() {
            self.test_state = build_preview_state(config, tick);
        }
    }

    /// Steps the highlighted setting by `direction` within its range (see
    /// `adjusted`).
    pub fn adjust(&self, config: &mut Config, direction: i8)
        requires
            old(config).valid(),
        ensures
            *final(config) == adjusted(*old(config), self.selected, direction as int),
    {
        let (value, min, max): (u16, i16, i16) = match self.selected {
            OptionChoice::ScaleX => (config.scale_x, 1, 8),
            OptionChoice::ScaleY => (config.scale_y, 1, 5),
            OptionChoice::BoardWidth => (config.board_width, 4, 50),
            OptionChoice::BoardHeight => (config.board_height, 4, 50),
            OptionChoice::StartLevel => (config.start_level, 0, 30),
            OptionChoice::Back => return ,
        };
        let v = value as i16 + direction as i16;
        let clamped = if v < min {
            min
        } else if v > max {
            max
        } else {
            v
        };
        let nv = clamped as u16;
        match self.selected {
            OptionChoice::ScaleX => config.scale_x = nv,
            OptionChoice::ScaleY => config.scale_y = nv,
            OptionChoice::BoardWidth => config.board_width = nv,
            OptionChoice::BoardHeight => config.board_height = nv,
            OptionChoice::StartLevel => config.start_level = nv,
            OptionChoice::Back => {},
        }
    }

    /// Puts the highlighted setting back to its default.
    pub fn reset(&self, config: &mut Config)
        ensures
            *final(config) == reset_setting(*old(config), self.selected),
    {
        let default = crate::config::default_config();
        match self.selected {
            OptionChoice::ScaleX => config.scale_x = default.scale_x,
            OptionChoice::ScaleY => config.scale_y = default.scale_y,
            OptionChoice::BoardWidth => config.board_width = default.board_width,
            OptionChoice::BoardHeight => config.board_height = default.board_height,
            OptionChoice::StartLevel => config.start_level = default.start_level,
            OptionChoice::Back => {},
        }
    }

    /// Reacts to a key: up/w and down/s move the highlight, left/a and
    /// right/d step the setting down or up, r resets it, enter on back or
    /// esc goes back.
    pub fn handle_keypress(&mut self, config: &mut Config, key: Key)
        requires
            old(config).valid(),
        ensures
            options_key_handled(&*old(self), &*final(self), *old(config), *final(config), key),
    {
        match key {
            Key::Up | Key::Char('w') => self.selected = self.selected.previous(),
            Key::Down | Key::Char('s') => self.selected = self.selected.next(),
            Key::Left | Key::Char('a') => self.adjust(config, -1),
            Key::Right | Key::Char('d') => self.adjust(config, 1),
            Key::Char('r') => self.reset(config),
            Key::Enter => {
                if self.selected == OptionChoice::Back {
                    self.go_back = true;
                }
            },
            Key::Esc => self.go_back = true,
            _ => {},
        }
    }

    /// Back to the title screen once asked to go back.
    pub fn update(&self) -> (r: Option<AppScreen>)
        ensures
            r == if self.go_back {
                Some(AppScreen::Title(TitleScreen::default_spec()))
            } else {
                None
            },
    {
        if self.go_back {
            Some(AppScreen::Title(TitleScreen::default()))
        } else {
            None
        }
    }
}

/// Stepping or resetting a setting on the options screen keeps valid
/// settings valid.
pub proof fn lemma_options_keep_valid(c: Config, o: OptionChoice, direction: int)
    requires
        c.valid(),
    ensures
        adjusted(c, o, direction).valid(),
        reset_setting(c, o).valid(),
{
}

} // verus!
