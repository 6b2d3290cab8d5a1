//! The game state: the board, the piece queue, the score and the level.
use vstd::prelude::*;

use rand::seq::SliceRandom;

use crate::color::{is_filled, Color};
use crate::config::Config;
use crate::piece::{Piece, PIECE_COUNT, QUEUE_SIZE};
use crate::powerup::{PowerUp, PowerUpType};
use crate::task::{action_wf, Task};

verus! {

broadcast use vstd::seq_lib::group_to_multiset_ensures;

/// Width of the standard board, where pieces and power-ups spawn.
pub const BOARD_WIDTH: usize = 10;

/// Height of the standard board, where pieces and power-ups spawn.
pub const BOARD_HEIGHT: usize = 20;

/// How many upcoming pieces the game shows.
pub const NEXT_LOOKUP: usize = 3;

/// Pieces to place for the first level-up, before scaling by the level.
pub const PIECES_PER_LEVEL: i32 = 16;

/// The longest delay a task is ever scheduled with, in milliseconds.
pub const MAX_DELAY_MS: u64 = 60_000;

/// The latest game time, in milliseconds, the state is driven to.
pub const MAX_TIME_MS: u64 = 0x4000_0000_0000_0000;

/// The smallest board side.
pub const MIN_SIDE: usize = 4;

/// The largest board side.
pub const MAX_SIDE: usize = 50;

/// The level-dependent pace of the game: how many pieces to place before
/// the next level-up, and how often the piece drops a row.
#[derive(Clone, Copy, Debug, PartialEq, Eq, Structural)]
pub struct Pacing {
    pub levelup_pieces: u32,
    pub gravity_ms: u64,
}

impl Pacing {
    /// The piece drops at least once a minute and never twice at once.
    pub open spec fn valid(&self) -> bool {
        1 <= self.gravity_ms <= MAX_DELAY_MS
    }
}

/// The queue a game starts from, before shuffling: the seven pieces twice,
/// then the first `NEXT_LOOKUP` once more.
pub open spec fn initial_queue() -> Seq<Piece> {
    Seq::new(QUEUE_SIZE as nat, |i: int| Piece::spawned(i % PIECE_COUNT as int))
}

/// `a + b`, or `u32::MAX` when that does not fit.
pub open spec fn sat_add(a: int, b: int) -> u32 {
    if a + b > u32::MAX {
        u32::MAX
    } else {
        (a + b) as u32
    }
}

/// A whole game.
#[derive(Debug)]
pub struct State {
    pub score: u32,
    /// `tiles[x][y]`, with `y` growing upwards.
    pub tiles: Vec<Vec<Color>>,
    pub piece_queue_ind: usize,
    pub game_ended: bool,
    pub paused: bool,
    pub placed_pieces: u32,
    pub powerup: PowerUp,
    pub task_queue: Vec<Task>,
    pub level: u32,
    pub levelup_pieces: u32,
    pub piece_queue: Vec<Piece>,
    pub gravity_ms: u64,
    /// Game time of the current frame, in milliseconds.
    pub now_ms: u64,
}

/// Row `y` of board `b`, `w` wide, is full.
pub open spec fn row_full(b: Seq<Seq<Color>>, w: int, y: int) -> bool {
    forall|x: int| 0 <= x < w ==> is_filled(#[trigger] b[x][y])
}

impl State {
    /// The board as columns of cells.
    pub open spec fn board(&self) -> Seq<Seq<Color>> {
        self.tiles@.map_values(|c: Vec<Color>| c@)
    }

    /// The number of columns.
    pub open spec fn width(&self) -> int {
        self.tiles@.len() as int
    }

    /// The number of rows.
    pub open spec fn height(&self) -> int {
        self.tiles@[0]@.len() as int
    }

    /// The cell in column `x`, row `y`.
    #[verifier::inline]
    pub open spec fn cell(&self, x: int, y: int) -> Color {
        self.tiles@[x]@[y]
    }

    /// The piece being played.
    pub open spec fn current(&self) -> Piece {
        self.piece_queue@[self.piece_queue_ind as int]
    }

    /// The board has between `MIN_SIDE` and `MAX_SIDE` columns, all of one
    /// height between `MIN_SIDE` and `MAX_SIDE`.
    pub open spec fn board_wf(&self) -> bool {
        &&& MIN_SIDE <= self.width() <= MAX_SIDE
        &&& MIN_SIDE <= self.height() <= MAX_SIDE
        &&& forall|x: int| 0 <= x < self.width() ==> #[trigger] self.tiles@[x]@.len() == self.height()
    }

    /// The queue holds the starting pieces in some order, all at spawn
    /// except the one being played, which is well-formed.
    pub open spec fn queue_wf(&self) -> bool {
        &&& self.piece_queue@.len() == QUEUE_SIZE
        &&& self.piece_queue_ind < QUEUE_SIZE - NEXT_LOOKUP
        &&& self.current().wf()
        &&& forall|i: int|
            0 <= i < QUEUE_SIZE && i != self.piece_queue_ind ==> #[trigger] self.piece_queue@[i] == Piece::spawned(
                self.piece_queue@[i].id as int,
            )
        &&& self.piece_queue@.update(self.piece_queue_ind as int, Piece::spawned(self.current().id as int)).to_multiset()
            == initial_queue().to_multiset()
    }

    /// Pending tasks touch only cells of the board and are due within the
    /// time range the state is driven in.
    pub open spec fn tasks_wf(&self) -> bool {
        &&& self.now_ms <= MAX_TIME_MS
        &&& 1 <= self.gravity_ms <= MAX_DELAY_MS
        &&& forall|i: int|
            0 <= i < self.task_queue@.len() ==> {
                &&& (#[trigger] self.task_queue@[i]).time <= MAX_TIME_MS + MAX_DELAY_MS
                &&& action_wf(self.task_queue@[i].action, self.width(), self.height())
            }
    }

    /// The state as the game keeps it.
    pub open spec fn wf(&self) -> bool {
        &&& self.board_wf()
        &&& self.queue_wf()
        &&& self.powerup.wf()
        &&& self.tasks_wf()
    }

    /// `self` is a fresh game on a board of the configured size, at the
    /// configured starting level, with `pacing`, at game time `now_ms`, with a
    /// shuffled queue, whatever tasks are pending.
    pub open spec fn fresh_but_tasks(&self, config: &Config, pacing: Pacing, now_ms: u64) -> bool {
        &&& self.wf()
        &&& self.width() == config.board_width
        &&& self.height() == config.board_height
        &&& forall|x: int, y: int| 0 <= x < self.width() && 0 <= y < self.height() ==> self.cell(x, y) == Color::Reset
        &&& self.score == 0
        &&& self.piece_queue_ind == 0
        &&& !self.game_ended
        &&& !self.paused
        &&& self.placed_pieces == 0
        &&& self.powerup.p_type == PowerUpType::Inactive
        &&& self.powerup.count == 5
        &&& self.level == config.start_level
        &&& self.levelup_pieces == pacing.levelup_pieces
        &&& self.piece_queue@.to_multiset() == initial_queue().to_multiset()
        &&& self.current() == Piece::spawned(self.current().id as int)
        &&& self.gravity_ms == pacing.gravity_ms
        &&& self.now_ms == now_ms
    }

    /// `self` is a fresh game (see `fresh_but_tasks`) with nothing pending
    /// (see `State::new`).
    pub open spec fn fresh(&self, config: &Config, pacing: Pacing, now_ms: u64) -> bool {
        &&& self.fresh_but_tasks(config, pacing, now_ms)
        &&& self.task_queue@.len() == 0
    }

    pub fn new(config: &Config, pacing: Pacing, now_ms: u64) -> (r: State)
        requires
            config.valid(),
            pacing.valid(),
            now_ms <= MAX_TIME_MS,
        ensures
            r.fresh(config, pacing, now_ms),
    {
        let w = config.board_width as usize;
        let h = config.board_height as usize;
        let mut tiles: Vec<Vec<Color>> = Vec::new();
        let mut x: usize = 0;
        while x < w
            invariant
                x <= w,
                h == config.board_height,
                tiles@.len() == x,
                forall|i: int| 0 <= i < x ==> (#[trigger] tiles@[i])@.len() == h,
                forall|i: int, j: int| 0 <= i < x && 0 <= j < h ==> tiles@[i]@[j] == Color::Reset,
            decreases w - x,
        {
            let mut column: Vec<Color> = Vec::new();
            let mut y: usize = 0;
            while y < h
                invariant
                    y <= h,
                    column@.len() == y,
                    forall|j: int| 0 <= j < y ==> column@[j] == Color::Reset,
                decreases h - y,
            {
                column.push(Color::Reset);
                y += 1;
            }
            tiles.push(column);
            x += 1;
        }
        let piece_queue = State::create_pieces();
        let s = State {
            score: 0,
            tiles,
            piece_queue_ind: 0,
            game_ended: false,
            paused: false,
            placed_pieces: 0,
            powerup: PowerUp::default(),
            task_queue: Vec::new(),
            level: config.start_level as u32,
            levelup_pieces: pacing.levelup_pieces,
            piece_queue,
            gravity_ms: pacing.gravity_ms,
            now_ms,
        };
        proof {
            lemma_queue_of_spawned(s.piece_queue@);
            assert(s.piece_queue@.update(0, Piece::spawned(s.current().id as int)) =~= s.piece_queue@);
        }
        s
    }

    /// The starting queue, shuffled.
    pub fn create_pieces() -> (r: Vec<Piece>)
        ensures
            r@.len() == QUEUE_SIZE,
            r@.to_multiset() == initial_queue().to_multiset(),
    {
        let mut ordered: Vec<Piece> = Vec::new();
        let mut id: usize = 0;
        while id < QUEUE_SIZE
            invariant
                id <= QUEUE_SIZE,
                ordered@ =~= initial_queue().subrange(0, id as int),
            decreases QUEUE_SIZE - id,
        {
            ordered.push(Piece::from_id(id % PIECE_COUNT));
            id += 1;
        }
        assert(ordered@ =~= initial_queue());
        shuffle_tail(&mut ordered, 0);
        assert(ordered@.subrange(0, QUEUE_SIZE as int) =~= ordered@);
        assert(initial_queue().subrange(0, QUEUE_SIZE as int) =~= initial_queue());
        ordered
    }
}

impl State {
    /// Every field but the piece queue is the same in `self` and `other`.
    pub open spec fn same_but_queue(&self, other: &State) -> bool {
        &&& self.score == other.score
        &&& self.tiles@ == other.tiles@
        &&& self.piece_queue_ind == other.piece_queue_ind
        &&& self.game_ended == other.game_ended
        &&& self.paused == other.paused
        &&& self.placed_pieces == other.placed_pieces
        &&& self.powerup == other.powerup
        &&& self.task_queue@ == other.task_queue@
        &&& self.level == other.level
        &&& self.levelup_pieces == other.levelup_pieces
        &&& self.gravity_ms == other.gravity_ms
        &&& self.now_ms == other.now_ms
    }

    /// The piece being played, to move or turn it.
    pub fn piece(&mut self) -> (r: &mut Piece)
        requires
            old(self).piece_queue_ind < old(self).piece_queue@.len(),
        ensures
            *r == old(self).current(),
            final(self).piece_queue@ == old(self).piece_queue@.update(old(self).piece_queue_ind as int, *final(r)),
            final(self).same_but_queue(old(self)),
    {
        let i = self.piece_queue_ind;
        &mut self.piece_queue[i]
    }

    /// Puts the current piece back at spawn and moves on to the next one in
    /// the queue.  After the last piece before the look-ahead, the queue
    /// wraps: the look-ahead pieces move to the front and the rest are
    /// shuffled behind them.  Every placed piece counts towards the next
    /// level; on levelling up the level goes up by one, the score by ten
    /// times the new level, the pace becomes `next`, and every third level
    /// brings one more power-up.  Counters stop at their largest value.
    pub fn next_piece(&mut self, next: Pacing)
        requires
            old(self).wf(),
            next.valid(),
        ensures
            advanced(old(self), final(self), next),
    {
        let ind = self.piece_queue_ind;
        let id = self.piece_queue[ind].id;
        self.piece_queue.set(ind, Piece::from_id(id));
        let ghost q = self.piece_queue@;
        proof {
            assert(q.to_multiset() == initial_queue().to_multiset());
            lemma_queue_of_spawned(q);
        }
        self.piece_queue_ind = ind + 1;
        if self.piece_queue_ind >= QUEUE_SIZE - NEXT_LOOKUP {
            self.piece_queue_ind = 0;
            let rotated = rotate_right_by_lookup(&self.piece_queue);
            self.piece_queue = rotated;
            let ghost r = self.piece_queue@;
            shuffle_tail(&mut self.piece_queue, NEXT_LOOKUP);
            proof {
                let f = self.piece_queue@;
                let a = q.subrange(0, (QUEUE_SIZE - NEXT_LOOKUP) as int);
                let b = q.subrange((QUEUE_SIZE - NEXT_LOOKUP) as int, QUEUE_SIZE as int);
                assert(q =~= a + b);
                assert(r =~= b + a);
                vstd::seq_lib::lemma_seq_union_to_multiset_commutative(a, b);
                assert(f =~= f.subrange(0, NEXT_LOOKUP as int) + f.subrange(NEXT_LOOKUP as int, QUEUE_SIZE as int));
                assert(r =~= r.subrange(0, NEXT_LOOKUP as int) + r.subrange(NEXT_LOOKUP as int, QUEUE_SIZE as int));
                vstd::seq_lib::lemma_multiset_commutative(
                    f.subrange(0, NEXT_LOOKUP as int),
                    f.subrange(NEXT_LOOKUP as int, QUEUE_SIZE as int),
                );
                vstd::seq_lib::lemma_multiset_commutative(
                    r.subrange(0, NEXT_LOOKUP as int),
                    r.subrange(NEXT_LOOKUP as int, QUEUE_SIZE as int),
                );
                assert(f.to_multiset() == initial_queue().to_multiset());
                assert(r.subrange(0, NEXT_LOOKUP as int) =~= b);
                assert(r.subrange(NEXT_LOOKUP as int, QUEUE_SIZE as int) =~= a);
                lemma_queue_of_spawned(f);
                assert(f.update(0, Piece::spawned(f[0].id as int)) =~= f);
            }
        } else {
            proof {
                assert(q.update(self.piece_queue_ind as int, Piece::spawned(q[self.piece_queue_ind as int].id as int)) =~= q);
            }
        }
        self.placed_pieces = self.placed_pieces.saturating_add(1);
        if self.placed_pieces > self.levelup_pieces {
            self.level = self.level.saturating_add(1);
            let bonus: u32 = if self.level > u32::MAX / 10 { u32::MAX } else { self.level * 10 };
            self.score = self.score.saturating_add(bonus);
            self.levelup_pieces = next.levelup_pieces;
            self.gravity_ms = next.gravity_ms;
            if self.level % 3 == 0 {
                self.powerup.count = self.powerup.count.saturating_add(1);
            }
        }
    }
}

/// The board `b` after deleting row `r` of its `h` rows: the rows above
/// slide down one and the top row is empty.
pub open spec fn drop_row_spec(b: Seq<Seq<Color>>, r: int, h: int, x: int, y: int) -> Color {
    if y < r {
        b[x][y]
    } else if y < h - 1 {
        b[x][y + 1]
    } else {
        Color::Reset
    }
}

/// One of the first `n` cells of piece `p` is `(x, y)`.
pub open spec fn covered_upto(p: Piece, n: int, x: int, y: int) -> bool {
    exists|k: int| 0 <= k < n && #[trigger] p.abs_spec(k, 0) == x && p.abs_spec(k, 1) == y
}

/// Row `r` is the lowest full row of board `b`, `w` wide.
pub open spec fn lowest_full(b: Seq<Seq<Color>>, w: int, r: int) -> bool {
    row_full(b, w, r) && forall|y: int| 0 <= y < r ==> !row_full(b, w, y)
}

/// `new` is `old` after the lowest full row (if any) is deleted, scoring one
/// point per column.
pub open spec fn eliminated(old: &State, new: &State) -> bool {
    let (w, h) = (old.width(), old.height());
    &&& new.board_wf()
    &&& new.width() == w
    &&& new.height() == h
    &&& (forall|y: int| 0 <= y < h ==> !row_full(old.board(), w, y)) ==> {
        &&& new.tiles@ == old.tiles@
        &&& new.score == old.score
    }
    &&& forall|r: int|
        0 <= r < h && #[trigger] lowest_full(old.board(), w, r) ==> {
            &&& new.score == sat_add(old.score as int, w)
            &&& forall|x: int, y: int|
                0 <= x < w && 0 <= y < h ==> new.cell(x, y) == drop_row_spec(old.board(), r, h, x, y)
        }
}

/// When some row is full, one of them is the lowest.
pub proof fn lemma_lowest_full_exists(b: Seq<Seq<Color>>, w: int, h: int, y: int)
    requires
        0 <= y < h,
        row_full(b, w, y),
    ensures
        exists|r: int| 0 <= r < h && #[trigger] lowest_full(b, w, r),
    decreases y,
{
    if forall|z: int| 0 <= z < y ==> !row_full(b, w, z) {
        assert(lowest_full(b, w, y));
    } else {
        let z = choose|z: int| 0 <= z < y && row_full(b, w, z);
        lemma_lowest_full_exists(b, w, h, z);
    }
}

/// Deleting full rows never lowers the score.
pub proof fn lemma_rows_checked_keep_score(old: &State, new: &State)
    requires
        rows_checked(old, new),
    ensures
        new.score >= old.score,
{
    let (w, h) = (old.width(), old.height());
    if exists|y: int| 0 <= y < h && row_full(old.board(), w, y) {
        let y = choose|y: int| 0 <= y < h && row_full(old.board(), w, y);
        lemma_lowest_full_exists(old.board(), w, h, y);
    }
}

/// Some cell of row `y` of `s`, in any column, is empty.
pub open spec fn row_has_gap(s: &State, y: int) -> bool {
    exists|x: int| 0 <= x < s.width() && !is_filled(#[trigger] s.tiles@[x]@[y])
}

/// A row goes only when it is full: when every row of the board has an
/// empty cell (in any column, the first one included), checking the rows
/// leaves the board and the score as they were.
pub proof fn lemma_no_full_row_no_change(old: &State, new: &State)
    requires
        old.board_wf(),
        rows_checked(old, new),
        forall|y: int| 0 <= y < old.height() ==> #[trigger] row_has_gap(old, y),
    ensures
        new.tiles@ == old.tiles@,
        new.score == old.score,
{
    let (w, h) = (old.width(), old.height());
    assert forall|y: int| 0 <= y < h implies !row_full(old.board(), w, y) by {
        assert(row_has_gap(old, y));
        let x = choose|x: int| 0 <= x < w && !is_filled(#[trigger] old.tiles@[x]@[y]);
        assert(old.board()[x][y] == old.cell(x, y));
    }
}

/// A row whose every cell holds a block is cleared: the score goes up by
/// one point per column (up to `u32::MAX`).
pub proof fn lemma_full_row_scores(old: &State, new: &State, y: int)
    requires
        old.board_wf(),
        rows_checked(old, new),
        0 <= y < old.height(),
        forall|x: int| 0 <= x < old.width() ==> is_filled(#[trigger] old.tiles@[x]@[y]),
    ensures
        new.score == sat_add(old.score as int, old.width()),
{
    let (w, h) = (old.width(), old.height());
    assert forall|x: int| 0 <= x < w implies is_filled(#[trigger] old.board()[x][y]) by {
        assert(old.board()[x][y] == old.cell(x, y));
    }
    lemma_lowest_full_exists(old.board(), w, h, y);
}

/// `eliminated` depends only on the new board and score.
pub proof fn lemma_eliminated_frame(old: &State, mid: &State, new: &State)
    requires
        eliminated(old, mid),
        new.tiles@ == mid.tiles@,
        new.score == mid.score,
    ensures
        eliminated(old, new),
{
    assert forall|x: int, y: int| true implies #[trigger] new.cell(x, y) == mid.cell(x, y) by {}
    assert(new.board() =~= mid.board());
}

impl State {
    /// Every field but the board and the score is the same in `self` and
    /// `other`.
    pub open spec fn same_but_board(&self, other: &State) -> bool {
        &&& self.piece_queue_ind == other.piece_queue_ind
        &&& self.piece_queue@ == other.piece_queue@
        &&& self.game_ended == other.game_ended
        &&& self.paused == other.paused
        &&& self.placed_pieces == other.placed_pieces
        &&& self.powerup == other.powerup
        &&& self.task_queue@ == other.task_queue@
        &&& self.level == other.level
        &&& self.levelup_pieces == other.levelup_pieces
        &&& self.gravity_ms == other.gravity_ms
        &&& self.now_ms == other.now_ms
    }

    /// Sets the cell in column `x`, row `y`.
    pub fn set_cell(&mut self, x: usize, y: usize, c: Color)
        requires
            old(self).board_wf(),
            x < old(self).width(),
            y < old(self).height(),
        ensures
            final(self).board_wf(),
            final(self).width() == old(self).width(),
            final(self).height() == old(self).height(),
            forall|i: int, j: int|
                0 <= i < old(self).width() && 0 <= j < old(self).height() ==> #[trigger] final(self).cell(i, j) == (if i
                    == x && j == y {
                    c
                } else {
                    old(self).cell(i, j)
                }),
            final(self).same_but_board(old(self)),
            final(self).score == old(self).score,
    {
        self.tiles[x][y] = c;
    }

    /// Whether every cell of row `y` holds a block.
    pub fn row_is_full(&self, y: usize) -> (r: bool)
        requires
            self.board_wf(),
            y < self.height(),
        ensures
            r == row_full(self.board(), self.width(), y as int),
    {
        let w = self.tiles.len();
        let mut x: usize = 0;
        while x < w
            invariant
                self.board_wf(),
                y < self.height(),
                w == self.width(),
                x <= w,
                forall|i: int| 0 <= i < x ==> is_filled(#[trigger] self.board()[i][y as int]),
            decreases w - x,
        {
            if !self.tiles[x][y].has_tile() {
                assert(!is_filled(self.board()[x as int][y as int]));
                return false;
            }
            x += 1;
        }
        true
    }

    /// Deletes row `r`: every column loses that cell, the cells above slide
    /// down one, and the top cell becomes empty.
    fn drop_row(&mut self, r: usize)
        requires
            old(self).board_wf(),
            r < old(self).height(),
        ensures
            final(self).board_wf(),
            final(self).width() == old(self).width(),
            final(self).height() == old(self).height(),
            forall|x: int, y: int|
                0 <= x < old(self).width() && 0 <= y < old(self).height() ==> #[trigger] final(self).cell(x, y)
                    == drop_row_spec(old(self).board(), r as int, old(self).height(), x, y),
            final(self).same_but_board(old(self)),
            final(self).score == old(self).score,
    {
        let w = self.tiles.len();
        let h = self.tiles[0].len();
        let ghost old_board = self.board();
        let mut x: usize = 0;
        while x < w
            invariant
                self.board_wf(),
                w == self.width(),
                h == self.height(),
                r < h,
                x <= w,
                old_board.len() == w,
                forall|i: int| 0 <= i < w ==> #[trigger] old_board[i].len() == h,
                forall|i: int, j: int|
                    x <= i < w && 0 <= j < h ==> #[trigger] self.cell(i, j) == old_board[i][j],
                forall|i: int, j: int|
                    0 <= i < x && 0 <= j < h ==> #[trigger] self.cell(i, j) == drop_row_spec(old_board, r as int, h as int, i, j),
                self.same_but_board(old(self)),
                self.score == old(self).score,
            decreases w - x,
        {
            let mut column: Vec<Color> = Vec::new();
            let mut y: usize = 0;
            while y < h
                invariant
                    self.board_wf(),
                    w == self.width(),
                    h == self.height(),
                    x < w,
                    r < h,
                    y <= h,
                    column@.len() == y,
                    forall|j: int| 0 <= j < h ==> #[trigger] self.cell(x as int, j) == old_board[x as int][j],
                    forall|j: int| 0 <= j < y ==> #[trigger] column@[j] == drop_row_spec(old_board, r as int, h as int, x as int, j),
                decreases h - y,
            {
                let c = if y < r {
                    assert(self.cell(x as int, y as int) == old_board[x as int][y as int]);
                    self.tiles[x][y]
                } else if y + 1 < h {
                    assert(self.cell(x as int, y as int + 1) == old_board[x as int][y as int + 1]);
                    self.tiles[x][y + 1]
                } else {
                    Color::Reset
                };
                column.push(c);
                y += 1;
            }
            let ghost before = self.tiles@;
            let ghost pre = *self;
            self.tiles[x] = column;
            proof {
                assert(self.tiles@ == before.update(x as int, column));
                assert forall|i: int, j: int| x < i < w && 0 <= j < h implies #[trigger] self.cell(i, j) == old_board[i][j] by {
                    assert(self.tiles@[i] == before[i]);
                    assert(pre.cell(i, j) == old_board[i][j]);
                }
                assert forall|i: int, j: int|
                    0 <= i <= x && 0 <= j < h implies #[trigger] self.cell(i, j) == drop_row_spec(old_board, r as int, h as int, i, j) by {
                    if i < x {
                        assert(self.tiles@[i] == before[i]);
                        assert(pre.cell(i, j) == drop_row_spec(old_board, r as int, h as int, i, j));
                    }
                }
                assert forall|i: int| 0 <= i < self.width() implies #[trigger] self.tiles@[i]@.len() == self.height() by {
                    if i != x {
                        assert(self.tiles@[i] == before[i]);
                    }
                    assert(self.tiles@[0]@.len() == h);
                }
            }
            x += 1;
        }
    }

    /// Deletes the lowest full row, if there is one, and scores one point
    /// per column for it.
    pub fn eliminate_full_rows(&mut self)
        requires
            old(self).board_wf(),
        ensures
            eliminated(old(self), final(self)),
            final(self).same_but_board(old(self)),
    {
        let h = self.tiles[0].len();
        let w = self.tiles.len();
        let mut y: usize = 0;
        while y < h
            invariant
                self.board_wf(),
                h == self.height(),
                w == self.width(),
                y <= h,
                forall|j: int| 0 <= j < y ==> !row_full(self.board(), w as int, j),
                self == old(self),
            decreases h - y,
        {
            if self.row_is_full(y) {
                let ghost b = self.board();
                self.drop_row(y);
                let ghost d = *self;
                self.score = self.score.saturating_add(w as u32);
                proof {
                    assert(row_full(b, w as int, y as int));
                    assert forall|i: int, j: int| 0 <= i < w && 0 <= j < h implies #[trigger] self.cell(i, j)
                        == drop_row_spec(b, y as int, h as int, i, j) by {
                        assert(d.cell(i, j) == drop_row_spec(b, y as int, h as int, i, j));
                    }
                    assert forall|r: int| 0 <= r < h && #[trigger] lowest_full(b, w as int, r) implies r == y by {
                        if r < y {
                        } else if r > y {
                            assert(!row_full(b, w as int, y as int));
                        }
                    }
                    assert(lowest_full(b, w as int, y as int));
                }
                return;
            }
            y += 1;
        }
    }

    /// Deletes the lowest full row, if any, and ends the game when the top
    /// row then holds a block.
    pub fn check_rows(&mut self)
        requires
            old(self).board_wf(),
        ensures
            rows_checked(old(self), final(self)),
    {
        self.eliminate_full_rows();
        let w = self.tiles.len();
        let top = self.tiles[0].len() - 1;
        let mut x: usize = 0;
        while x < w
            invariant
                self.board_wf(),
                w == self.width(),
                top == self.height() - 1,
                x <= w,
                forall|i: int| 0 <= i < x ==> !is_filled(#[trigger] self.cell(i, top as int)),
                eliminated(old(self), self),
                self.same_but_board(old(self)),
            decreases w - x,
        {
            if self.tiles[x][top].has_tile() {
                let ghost mid = *self;
                assert(is_filled(self.cell(x as int, top as int)));
                self.game_ended = true;
                proof {
                    lemma_eliminated_frame(old(self), &mid, self);
                    assert(is_filled(self.cell(x as int, self.height() - 1)));
                }
                return;
            }
            x += 1;
        }
    }

    /// Writes the current piece's colour into the cells it covers on the
    /// board; cells of the piece off the board are skipped.
    pub fn blit_active_piece_to_tiles(&mut self)
        requires
            old(self).board_wf(),
            old(self).queue_wf(),
        ensures
            blitted(old(self), final(self)),
    {
        let p = self.piece_queue[self.piece_queue_ind];
        proof {
            crate::piece::lemma_wf_in_range(p);
        }
        let positions = p.abs_pos();
        let color = p.color();
        let w = self.tiles.len();
        let h = self.tiles[0].len();
        let mut i: usize = 0;
        while i < 4
            invariant
                self.board_wf(),
                w == self.width(),
                h == self.height(),
                w == old(self).width(),
                h == old(self).height(),
                p == old(self).current(),
                i <= 4,
                color == crate::piece::color_spec(p.id as int),
                forall|k: int, j: int| 0 <= k < 4 && 0 <= j < 2 ==> positions[k][j] == p.abs_spec(k, j),
                forall|x: int, y: int|
                    0 <= x < w && 0 <= y < h ==> #[trigger] self.cell(x, y) == (if covered_upto(p, i as int, x, y) {
                        color
                    } else {
                        old(self).cell(x, y)
                    }),
                self.same_but_board(old(self)),
                self.score == old(self).score,
            decreases 4 - i,
        {
            let abs_x = positions[i][0];
            let abs_y = positions[i][1];
            let ghost before = *self;
            if abs_x >= 0 && (abs_x as usize) < w && abs_y >= 0 && (abs_y as usize) < h {
                self.set_cell(abs_x as usize, abs_y as usize, color);
            }
            proof {
                assert forall|x: int, y: int| 0 <= x < w && 0 <= y < h implies #[trigger] self.cell(x, y) == (
                    if covered_upto(p, i + 1, x, y) {
                        color
                    } else {
                        old(self).cell(x, y)
                    }) by {
                    if p.abs_spec(i as int, 0) == x && p.abs_spec(i as int, 1) == y {
                        assert(covered_upto(p, i + 1, x, y));
                    } else {
                        assert(before.cell(x, y) == self.cell(x, y));
                        if covered_upto(p, i + 1, x, y) {
                            let k = choose|k: int| 0 <= k < i + 1 && #[trigger] p.abs_spec(k, 0) == x && p.abs_spec(k, 1) == y;
                            assert(covered_upto(p, i as int, x, y));
                        } else {
                            assert(!covered_upto(p, i as int, x, y));
                        }
                    }
                }
            }
            i += 1;
        }
    }
}

impl State {
    /// Arms the power-up `p_type` (or disarms it when none are left) and
    /// puts the current piece back at spawn.
    pub fn activate_powerup(&mut self, p_type: PowerUpType)
        requires
            old(self).wf(),
        ensures
            final(self).wf(),
            final(self).powerup.p_type == (if old(self).powerup.count == 0 { PowerUpType::Inactive } else { p_type }),
            final(self).powerup.x == old(self).powerup.x,
            final(self).powerup.y == old(self).powerup.y,
            final(self).powerup.count == old(self).powerup.count,
            final(self).piece_queue@ == old(self).piece_queue@.update(
                old(self).piece_queue_ind as int,
                Piece::spawned(old(self).current().id as int),
            ),
            final(self).tiles@ == old(self).tiles@,
            final(self).score == old(self).score,
            final(self).piece_queue_ind == old(self).piece_queue_ind,
            final(self).game_ended == old(self).game_ended,
            final(self).paused == old(self).paused,
            final(self).placed_pieces == old(self).placed_pieces,
            final(self).task_queue@ == old(self).task_queue@,
            final(self).level == old(self).level,
            final(self).levelup_pieces == old(self).levelup_pieces,
            final(self).gravity_ms == old(self).gravity_ms,
            final(self).now_ms == old(self).now_ms,
    {
        self.powerup.toggle_type(p_type);
        self.piece().reset();
        proof {
            let q = self.piece_queue@;
            crate::piece::lemma_spawn_wf(self.current().id as int);
            assert(q.update(self.piece_queue_ind as int, Piece::spawned(self.current().id as int)) =~= q);
            assert(q =~= old(self).piece_queue@.update(
                old(self).piece_queue_ind as int,
                Piece::spawned(old(self).current().id as int),
            ));
        }
    }
}

/// What one cell of the board shows.
#[derive(Clone, Copy, Debug, PartialEq, Eq, Structural)]
pub enum FieldCell {
    /// The falling power-up.
    PowerUp,
    /// A cell of the falling piece, in its colour.
    Piece(Color),
    /// A block left on the board.
    Block(Color),
    /// Nothing.
    Empty,
}

/// What the cell `(x, y)` of `s` shows: the power-up where it falls, else
/// the falling piece when no power-up is armed, else the board.
pub open spec fn field_cell_spec(s: &State, x: int, y: int) -> FieldCell {
    if s.powerup.active() && s.powerup.x == x && s.powerup.y == y {
        FieldCell::PowerUp
    } else if !s.powerup.active() && s.current().covers(x, y) {
        FieldCell::Piece(crate::piece::color_spec(s.current().id as int))
    } else if is_filled(s.cell(x, y)) {
        FieldCell::Block(s.cell(x, y))
    } else {
        FieldCell::Empty
    }
}

impl State {
    /// What the cell `(x, y)` shows when the board is drawn.
    pub fn field_cell(&self, x: usize, y: usize) -> (r: FieldCell)
        requires
            self.wf(),
            x < self.width(),
            y < self.height(),
        ensures
            r == field_cell_spec(self, x as int, y as int),
    {
        let ind = self.piece_queue_ind;
        let active = self.powerup.is_active();
        if active && self.powerup.x as i16 == x as i16 && self.powerup.y as i16 == y as i16 {
            return FieldCell::PowerUp;
        }
        proof {
            crate::piece::lemma_wf_in_range(self.current());
        }
        if !active && self.piece_queue[ind].is_tile_active(x as i8, y as i8) {
            return FieldCell::Piece(self.piece_queue[ind].color());
        }
        let c = self.tiles[x][y];
        if c.has_tile() {
            FieldCell::Block(c)
        } else {
            FieldCell::Empty
        }
    }

    /// The `i`-th piece after the current one, as the game shows it
    /// coming up.
    pub fn upcoming(&self, i: usize) -> (r: Piece)
        requires
            self.wf(),
            i < NEXT_LOOKUP,
        ensures
            r == self.piece_queue@[self.piece_queue_ind + i + 1],
    {
        self.piece_queue[self.piece_queue_ind + i + 1]
    }
}

impl State {
    /// Every field but the board, the score and the pending tasks is the
    /// same in `self` and `other`.
    pub open spec fn same_but_effects(&self, other: &State) -> bool {
        &&& self.piece_queue_ind == other.piece_queue_ind
        &&& self.piece_queue@ == other.piece_queue@
        &&& self.game_ended == other.game_ended
        &&& self.paused == other.paused
        &&& self.placed_pieces == other.placed_pieces
        &&& self.powerup == other.powerup
        &&& self.level == other.level
        &&& self.levelup_pieces == other.levelup_pieces
        &&& self.gravity_ms == other.gravity_ms
        &&& self.now_ms == other.now_ms
    }
}

/// `new` is `old` after moving on to the next piece with pace `next` for
/// a level-up (see `State::next_piece`).
pub open spec fn advanced(old: &State, new: &State, next: Pacing) -> bool {
    &&& new.wf()
    &&& ({
        let q = old.piece_queue@.update(
            old.piece_queue_ind as int,
            Piece::spawned(old.current().id as int),
        );
        let i = old.piece_queue_ind + 1;
        if i < QUEUE_SIZE - NEXT_LOOKUP {
            &&& new.piece_queue_ind == i
            &&& new.piece_queue@ == q
        } else {
            &&& new.piece_queue_ind == 0
            &&& new.piece_queue@.subrange(0, NEXT_LOOKUP as int) == q.subrange(
                (QUEUE_SIZE - NEXT_LOOKUP) as int,
                QUEUE_SIZE as int,
            )
            &&& new.piece_queue@.subrange(NEXT_LOOKUP as int, QUEUE_SIZE as int).to_multiset()
                == q.subrange(0, (QUEUE_SIZE - NEXT_LOOKUP) as int).to_multiset()
        }
    })
    &&& new.piece_queue@.to_multiset() == initial_queue().to_multiset()
    &&& new.placed_pieces == sat_add(old.placed_pieces as int, 1)
    &&& if new.placed_pieces > old.levelup_pieces {
        &&& new.level == sat_add(old.level as int, 1)
        &&& new.score == sat_add(old.score as int, new.level * 10)
        &&& new.levelup_pieces == next.levelup_pieces
        &&& new.gravity_ms == next.gravity_ms
        &&& new.powerup.count == (if new.level % 3 == 0 {
            if old.powerup.count == u8::MAX { u8::MAX } else { (old.powerup.count + 1) as u8 }
        } else {
            old.powerup.count
        })
    } else {
        &&& new.level == old.level
        &&& new.score == old.score
        &&& new.levelup_pieces == old.levelup_pieces
        &&& new.gravity_ms == old.gravity_ms
        &&& new.powerup.count == old.powerup.count
    }
    &&& new.tiles@ == old.tiles@
    &&& new.powerup.p_type == old.powerup.p_type
    &&& new.powerup.x == old.powerup.x
    &&& new.powerup.y == old.powerup.y
    &&& new.task_queue@ == old.task_queue@
    &&& new.game_ended == old.game_ended
    &&& new.paused == old.paused
    &&& new.now_ms == old.now_ms
}

/// `new` is `old` after the lowest full row (if any) is deleted and the
/// game is over if the top row then holds a block (see `State::check_rows`).
pub open spec fn rows_checked(old: &State, new: &State) -> bool {
    &&& eliminated(old, new)
    &&& new.game_ended == (old.game_ended || exists|x: int|
        0 <= x < new.width() && is_filled(#[trigger] new.cell(x, new.height() - 1)))
    &&& new.piece_queue_ind == old.piece_queue_ind
    &&& new.piece_queue@ == old.piece_queue@
    &&& new.paused == old.paused
    &&& new.placed_pieces == old.placed_pieces
    &&& new.powerup == old.powerup
    &&& new.task_queue@ == old.task_queue@
    &&& new.level == old.level
    &&& new.levelup_pieces == old.levelup_pieces
    &&& new.gravity_ms == old.gravity_ms
    &&& new.now_ms == old.now_ms
}

/// `new` is `old` with the current piece written into the board in its
/// colour (see `State::blit_active_piece_to_tiles`).
pub open spec fn blitted(old: &State, new: &State) -> bool {
    &&& new.board_wf()
    &&& new.width() == old.width()
    &&& new.height() == old.height()
    &&& forall|x: int, y: int|
        0 <= x < old.width() && 0 <= y < old.height() ==> #[trigger] new.cell(x, y) == (if old.current().covers(x, y) {
            crate::piece::color_spec(old.current().id as int)
        } else {
            old.cell(x, y)
        })
    &&& new.same_but_board(old)
    &&& new.score == old.score
}

/// The queue with its last `NEXT_LOOKUP` pieces moved to the front.
fn rotate_right_by_lookup(q: &Vec<Piece>) -> (r: Vec<Piece>)
    requires
        q@.len() == QUEUE_SIZE,
    ensures
        r@ == q@.subrange((QUEUE_SIZE - NEXT_LOOKUP) as int, QUEUE_SIZE as int) + q@.subrange(
            0,
            (QUEUE_SIZE - NEXT_LOOKUP) as int,
        ),
{
    let mut r: Vec<Piece> = Vec::new();
    let mut i: usize = QUEUE_SIZE - NEXT_LOOKUP;
    while i < QUEUE_SIZE
        invariant
            QUEUE_SIZE - NEXT_LOOKUP <= i <= QUEUE_SIZE,
            q@.len() == QUEUE_SIZE,
            r@ =~= q@.subrange((QUEUE_SIZE - NEXT_LOOKUP) as int, i as int),
        decreases QUEUE_SIZE - i,
    {
        r.push(q[i]);
        i += 1;
    }
    let mut j: usize = 0;
    while j < QUEUE_SIZE - NEXT_LOOKUP
        invariant
            j <= QUEUE_SIZE - NEXT_LOOKUP,
            q@.len() == QUEUE_SIZE,
            r@ =~= q@.subrange((QUEUE_SIZE - NEXT_LOOKUP) as int, QUEUE_SIZE as int) + q@.subrange(0, j as int),
        decreases QUEUE_SIZE - NEXT_LOOKUP - j,
    {
        r.push(q[j]);
        j += 1;
    }
    r
}

/// Shuffles `v[start..]` in place with `rand`'s `SliceRandom::shuffle` and
/// the thread-local generator.  The shuffle only swaps elements, so the
/// claim is that `v[..start]` is kept and `v[start..]` holds the same
/// elements as before, in some order; which order is left open, as it rests
/// on chance.  The thread-local generator panics if the operating system
/// cannot seed it, which no clause excludes.
#[verifier::external_body]
pub(crate) fn shuffle_tail<T>(v: &mut Vec<T>, start: usize)
    requires
        start <= old(v)@.len(),
    ensures
        final(v)@.len() == old(v)@.len(),
        final(v)@.subrange(0, start as int) == old(v)@.subrange(0, start as int),
        final(v)@.subrange(start as int, final(v)@.len() as int).to_multiset() == old(v)@.subrange(
            start as int,
            old(v)@.len() as int,
        ).to_multiset(),
{
    v[start..].shuffle(&mut rand::rng());
}

/// Every piece of a queue with the starting pieces is one of the seven at
/// spawn.
pub proof fn lemma_queue_of_spawned(q: Seq<Piece>)
    requires
        q.to_multiset() == initial_queue().to_multiset(),
    ensures
        forall|i: int| 0 <= i < q.len() ==> #[trigger] q[i] == Piece::spawned(q[i].id as int) && q[i].wf(),
        q.len() == QUEUE_SIZE,
{
    vstd::seq_lib::to_multiset_len(q);
    vstd::seq_lib::to_multiset_len(initial_queue());
    assert forall|i: int| 0 <= i < q.len() implies #[trigger] q[i] == Piece::spawned(q[i].id as int) && q[i].wf() by {
        vstd::seq_lib::to_multiset_contains(q, q[i]);
        vstd::seq_lib::to_multiset_contains(initial_queue(), q[i]);
        assert(q.contains(q[i]));
        let j = choose|j: int| 0 <= j < initial_queue().len() && initial_queue()[j] == q[i];
        crate::piece::lemma_spawn_wf(j % PIECE_COUNT as int);
    }
}

} // verus!
