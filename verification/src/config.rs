//! Player settings: display scale, board size and starting level.
use vstd::prelude::*;

verus! {

/// The player's settings.
#[derive(Clone, Copy, Debug, PartialEq, Eq, Structural)]
pub struct Config {
    /// Horizontal scale of a cell, 1-8.
    pub scale_x: u16,
    /// Vertical scale of a cell, 1-5.
    pub scale_y: u16,
    /// Board width in cells, 4-50.
    pub board_width: u16,
    /// Board height in cells, 4-50.
    pub board_height: u16,
    /// Level a new game starts at, 0-30.
    pub start_level: u16,
}

/// `v` brought into `lo..=hi`.
pub open spec fn clamp_spec(v: int, lo: int, hi: int) -> int {
    if v < lo {
        lo
    } else if v > hi {
        hi
    } else {
        v
    }
}

/// The settings a new player starts with.
pub open spec fn default_spec() -> Config {
    Config { scale_x: 4, scale_y: 2, board_width: 10, board_height: 20, start_level: 1 }
}

impl Default for Config {
    fn default() -> (r: Self)
        ensures
            r == default_spec(),
    {
        Self { scale_x: 4, scale_y: 2, board_width: 10, board_height: 20, start_level: 1 }
    }
}

/// `v` brought into `lo..=hi`.
fn clamp_u16(v: u16, lo: u16, hi: u16) -> (r: u16)
    requires
        lo <= hi,
    ensures
        r == clamp_spec(v as int, lo as int, hi as int),
{
    if v < lo {
        lo
    } else if v > hi {
        hi
    } else {
        v
    }
}

/// The default settings.
pub fn default_config() -> (r: Config)
    ensures
        r == default_spec(),
{
    Config::default()
}

impl Config {
    /// Every setting lies in its allowed range.
    pub open spec fn valid(&self) -> bool {
        &&& 1 <= self.scale_x <= 8
        &&& 1 <= self.scale_y <= 5
        &&& 4 <= self.board_width <= 50
        &&& 4 <= self.board_height <= 50
        &&& self.start_level <= 30
    }

    /// The settings with every field brought into its allowed range.
    pub open spec fn normalized_spec(self) -> Config {
        Config {
            scale_x: clamp_spec(self.scale_x as int, 1, 8) as u16,
            scale_y: clamp_spec(self.scale_y as int, 1, 5) as u16,
            board_width: clamp_spec(self.board_width as int, 4, 50) as u16,
            board_height: clamp_spec(self.board_height as int, 4, 50) as u16,
            start_level: clamp_spec(self.start_level as int, 0, 30) as u16,
        }
    }

    /// Brings every field into its allowed range.
    pub fn normalized(self) -> (r: Self)
        ensures
            r == self.normalized_spec(),
            r.valid(),
    {
        let mut c = self;
        c.scale_x = clamp_u16(c.scale_x, 1, 8);
        c.scale_y = clamp_u16(c.scale_y, 1, 5);
        c.board_width = clamp_u16(c.board_width, 4, 50);
        c.board_height = clamp_u16(c.board_height, 4, 50);
        c.start_level = clamp_u16(c.start_level, 0, 30);
        c
    }

    /// The settings to use given what was read from the saved file: the
    /// defaults when nothing could be read or parsed, else the saved
    /// settings brought into range.
    pub fn from_saved(saved: Option<Config>) -> (r: Config)
        ensures
            r == (match saved {
                Some(c) => c.normalized_spec(),
                None => default_spec(),
            }),
            r.valid(),
    {
        match saved {
            Some(c) => c.normalized(),
            None => Config::default(),
        }
    }
}

/// The defaults are valid, and normalizing valid settings changes nothing,
/// so normalizing twice is normalizing once.
pub proof fn lemma_normalized_idempotent(c: Config)
    ensures
        default_spec().valid(),
        c.valid() ==> c.normalized_spec() == c,
        c.normalized_spec().normalized_spec() == c.normalized_spec(),
        c.normalized_spec().valid(),
{
}

} // verus!
