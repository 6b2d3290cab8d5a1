//! The game screen: moving, turning and dropping the piece (or the armed
//! power-up), and what happens when it lands.
use vstd::prelude::*;

use crate::color::is_filled;
use crate::piece::{negatable, rotated, small_layout, unrotated, Piece, O_PIECE, POS_LIMIT};
use crate::powerup::{
    lands_on_board,
    powerup_landed, BombPowerup, PaintballPowerup, PowerUp, PowerUpType, RollerPowerup,
};
use crate::screen::lose::LoseScreen;
use crate::screen::{AppScreen, Key};
use crate::state::{advanced, blitted, rows_checked, Pacing, State, BOARD_HEIGHT};
use crate::task::{add_task, Task, TaskAction};

verus! {

broadcast use vstd::array::group_array_axioms;

/// The game screen.
#[derive(Debug, Default, PartialEq, Eq, Structural)]
pub struct GameScreen {}

/// Piece `p` may stand on the board of `s`: each of its cells within the
/// board's rows is within its columns and empty.  Cells above or below the
/// board are not checked.
pub open spec fn piece_fits(s: &State, p: Piece) -> bool {
    forall|i: int|
        0 <= i < 4 && 0 <= #[trigger] p.abs_spec(i, 1) < s.height() ==> 0 <= p.abs_spec(i, 0) < s.width() && !is_filled(
            s.cell(p.abs_spec(i, 0), p.abs_spec(i, 1)),
        )
}

/// A power-up may stand at `(x, y)`: an empty cell of the board.
pub open spec fn powerup_fits(s: &State, x: int, y: int) -> bool {
    0 <= x < s.width() && 0 <= y < s.height() && !is_filled(s.cell(x, y))
}

/// What is falling may stand where it is.
pub open spec fn falling_fits(s: &State) -> bool {
    if s.powerup.active() {
        powerup_fits(s, s.powerup.x as int, s.powerup.y as int)
    } else {
        piece_fits(s, s.current())
    }
}

/// What is falling has landed: the armed power-up is at the bottom, off the
/// board's left, or over a block, the right or the top of the board; or a
/// cell of the piece within the board's columns and no more than one row
/// above the board is at the bottom or right over a block.
pub open spec fn landed(s: &State) -> bool {
    if s.powerup.active() {
        let (x, y) = (s.powerup.x as int, s.powerup.y as int);
        x < 0 || y <= 0 || x >= s.width() || y - 1 >= s.height() || is_filled(s.cell(x, y - 1))
    } else {
        let p = s.current();
        exists|i: int|
            0 <= i < 4 && #[trigger] p.abs_spec(i, 1) <= s.height() && 0 <= p.abs_spec(i, 0) < s.width() && (p.abs_spec(i, 1)
                <= 0 || is_filled(s.cell(p.abs_spec(i, 0), p.abs_spec(i, 1) - 1)))
    }
}

/// Piece `p` moved by `(x, y)`.
pub open spec fn moved(p: Piece, x: int, y: int) -> Piece {
    Piece { pos: [(p.pos[0] + x) as i8, (p.pos[1] + y) as i8], ..p }
}

/// Piece `p` turned a quarter turn clockwise (the O piece does not turn).
pub open spec fn turned(p: Piece) -> Piece {
    if p.id == O_PIECE {
        p
    } else {
        Piece { layout: rotated(p.layout), ..p }
    }
}

/// A coordinate the falling thing may be moved to.
pub open spec fn in_limits(v: int) -> bool {
    -POS_LIMIT <= v <= POS_LIMIT
}

impl State {
    /// Every field but the current piece and the power-up is the same in
    /// `self` and `other`.
    pub open spec fn same_but_falling(&self, other: &State) -> bool {
        &&& self.score == other.score
        &&& self.tiles@ == other.tiles@
        &&& self.piece_queue_ind == other.piece_queue_ind
        &&& self.piece_queue@.len() == other.piece_queue@.len()
        &&& forall|i: int| 0 <= i < self.piece_queue@.len() && i != self.piece_queue_ind ==> #[trigger] self.piece_queue@[i] == other.piece_queue@[i]
        &&& self.current().id == other.current().id
        &&& self.game_ended == other.game_ended
        &&& self.paused == other.paused
        &&& self.placed_pieces == other.placed_pieces
        &&& self.powerup.p_type == other.powerup.p_type
        &&& self.powerup.count == other.powerup.count
        &&& self.task_queue@ == other.task_queue@
        &&& self.level == other.level
        &&& self.levelup_pieces == other.levelup_pieces
        &&& self.gravity_ms == other.gravity_ms
        &&& self.now_ms == other.now_ms
    }
}

/// `new` is `old` after trying to move what is falling by `(x, y)`: it moves
/// when it stays within `POS_LIMIT` and fits there, else nothing changes.
pub open spec fn moved_if_valid(old: &State, new: &State, x: int, y: int) -> bool {
    &&& new.same_but_falling(old)
    &&& if old.powerup.active() {
        let (nx, ny) = (old.powerup.x + x, old.powerup.y + y);
        &&& new.current() == old.current()
        &&& if in_limits(nx) && in_limits(ny) && powerup_fits(old, nx, ny) {
            new.powerup.x == nx && new.powerup.y == ny
        } else {
            new.powerup.x == old.powerup.x && new.powerup.y == old.powerup.y
        }
    } else {
        let m = moved(old.current(), x, y);
        &&& new.powerup == old.powerup
        &&& new.current() == if in_limits(old.current().pos[0] + x) && in_limits(old.current().pos[1] + y) && piece_fits(
            old,
            m,
        ) {
            m
        } else {
            old.current()
        }
    }
}

/// `new` is `old` after what is falling dropped a row (unless it is already
/// `POS_LIMIT` rows down) and the next drop was scheduled.
pub open spec fn fell(old: &State, new: &State) -> bool {
    &&& new.task_queue@ == old.task_queue@.push(Task { time: (old.now_ms + old.gravity_ms) as u64, action: TaskAction::Fall })
    &&& new.score == old.score
    &&& new.tiles@ == old.tiles@
    &&& new.piece_queue_ind == old.piece_queue_ind
    &&& new.piece_queue@.len() == old.piece_queue@.len()
    &&& forall|i: int| 0 <= i < new.piece_queue@.len() && i != new.piece_queue_ind ==> #[trigger] new.piece_queue@[i] == old.piece_queue@[i]
    &&& new.game_ended == old.game_ended
    &&& new.paused == old.paused
    &&& new.placed_pieces == old.placed_pieces
    &&& new.level == old.level
    &&& new.levelup_pieces == old.levelup_pieces
    &&& new.gravity_ms == old.gravity_ms
    &&& new.now_ms == old.now_ms
    &&& new.powerup.p_type == old.powerup.p_type
    &&& new.powerup.count == old.powerup.count
    &&& new.powerup.x == old.powerup.x
    &&& if old.powerup.active() {
        &&& new.current() == old.current()
        &&& new.powerup.y == if old.powerup.y > -POS_LIMIT { old.powerup.y - 1 } else { old.powerup.y as int }
    } else {
        &&& new.powerup.y == old.powerup.y
        &&& new.current() == if old.current().pos[1] > -POS_LIMIT { moved(old.current(), 0, -1) } else { old.current() }
    }
}

/// Drops what is falling a row and schedules the next drop (see `fell`).
pub fn fall(state: &mut State)
    requires
        old(state).wf(),
    ensures
        final(state).wf(),
        fell(old(state), final(state)),
{
    if state.powerup.is_active() {
        if state.powerup.y > -POS_LIMIT {
            state.powerup.nudge(0, -1);
        }
    } else {
        let ind = state.piece_queue_ind;
        if state.piece_queue[ind].pos[1] > -POS_LIMIT {
            let ghost before = state.current();
            state.piece().nudge(0, -1);
            proof {
                assert(state.current().pos =~= moved(before, 0, -1).pos);
                assert(state.piece_queue@.update(state.piece_queue_ind as int, Piece::spawned(state.current().id as int))
                    =~= old(state).piece_queue@.update(state.piece_queue_ind as int, Piece::spawned(state.current().id as int)));
            }
        }
    }
    GameScreen::add_gravity_task(state);
}

/// `new` is `old` after checking for a landing with pace `next` for a
/// level-up, when what was falling had `landed` (see
/// `GameScreen::check_collision`).
pub open spec fn landing_handled(old: &State, new: &State, next: Pacing) -> bool {
    exists|mid: State|
        #[trigger] rows_checked(old, &mid) && mid.wf() && if old.powerup.active() {
            powerup_landed(&mid, new)
        } else {
            exists|placed: State| #[trigger] blitted(&mid, &placed) && placed.wf() && advanced(&placed, new, next)
        }
}

/// `new` is `old` after trying to turn the piece: it turns when no
/// power-up is armed and it fits turned, else nothing changes.
pub open spec fn turned_if_valid(old: &State, new: &State) -> bool {
    &&& new.same_but_falling(old)
    &&& new.powerup == old.powerup
    &&& new.current() == if !old.powerup.active() && piece_fits(old, turned(old.current())) {
        turned(old.current())
    } else {
        old.current()
    }
}

/// `new` is `old` after arming power-up `t` (or disarming it when none are
/// left) and putting the piece back at spawn.
pub open spec fn armed(old: &State, new: &State, t: PowerUpType) -> bool {
    &&& new.powerup.p_type == (if old.powerup.count == 0 { PowerUpType::Inactive } else { t })
    &&& new.powerup.x == old.powerup.x
    &&& new.powerup.y == old.powerup.y
    &&& new.powerup.count == old.powerup.count
    &&& new.piece_queue@ == old.piece_queue@.update(old.piece_queue_ind as int, Piece::spawned(old.current().id as int))
    &&& new.tiles@ == old.tiles@
    &&& new.score == old.score
    &&& new.piece_queue_ind == old.piece_queue_ind
    &&& new.game_ended == old.game_ended
    &&& new.paused == old.paused
    &&& new.placed_pieces == old.placed_pieces
    &&& new.task_queue@ == old.task_queue@
    &&& new.level == old.level
    &&& new.levelup_pieces == old.levelup_pieces
    &&& new.gravity_ms == old.gravity_ms
    &&& new.now_ms == old.now_ms
}

/// `new` is `old` after a hard drop that may still move `budget` rows: when
/// what is falling has landed, the landing is handled; otherwise the lowest
/// full row is deleted and, unless it no longer fits or the budget is
/// spent, it moves down a row and the drop goes on.
pub open spec fn hard_dropped(old: &State, new: &State, next: Pacing, budget: nat) -> bool
    decreases budget,
{
    if landed(old) {
        landing_handled(old, new, next)
    } else {
        exists|mid: State|
            #[trigger] rows_checked(old, &mid) && mid.wf() && if budget == 0 || !falling_fits(&mid) {
                *new == mid
            } else {
                exists|down: State|
                    #[trigger] moved_if_valid(&mid, &down, 0, -1) && down.wf() && hard_dropped(
                        &down,
                        new,
                        next,
                        (budget - 1) as nat,
                    )
            }
    }
}

/// `new` is `old` after the game screen handled `key`, with pace `next`
/// for a level-up (see `GameScreen::handle_keypress`): esc and p pause or
/// resume, and while paused no other key does anything.
pub open spec fn game_key_handled(old: &State, new: &State, key: Key, next: Pacing) -> bool {
    if key == Key::Esc || key == Key::Char('p') {
        *new == (State { paused: !old.paused, ..*old })
    } else if old.paused {
        *new == *old
    } else {
        match key {
            Key::Up | Key::Char('w') | Key::Char('i') => turned_if_valid(old, new),
            Key::Left | Key::Char('a') | Key::Char('j') => moved_if_valid(old, new, -1, 0),
            Key::Right | Key::Char('d') | Key::Char('l') => moved_if_valid(old, new, 1, 0),
            Key::Down | Key::Char('s') | Key::Char('k') => moved_if_valid(old, new, 0, -1),
            Key::Char('1') => armed(old, new, PowerUpType::Bomb(BombPowerup {})),
            Key::Char('2') => armed(old, new, PowerUpType::Paintball(PaintballPowerup {})),
            Key::Char('3') => armed(old, new, PowerUpType::Roller(RollerPowerup {})),
            Key::Char(' ') => hard_dropped(old, new, next, BOARD_HEIGHT as nat),
            _ => *new == *old,
        }
    }
}

impl GameScreen {
    /// Checks what is falling for a landing; when it has landed and the game
    /// is over, the lose screen comes next.  A paused game is left as it is.
    pub fn update(&mut self, state: &mut State, next: Pacing) -> (r: Option<AppScreen>)
        requires
            old(state).wf(),
            next.valid(),
            !old(state).paused ==> lands_on_board(old(state)),
        ensures
            final(state).wf(),
            old(state).paused ==> *final(state) == *old(state) && r.is_none(),
            !old(state).paused && !landed(old(state)) ==> rows_checked(old(state), final(state)),
            !old(state).paused && landed(old(state)) ==> landing_handled(old(state), final(state), next),
            r == if !old(state).paused && landed(old(state)) && final(state).game_ended {
                Some(AppScreen::Lose(LoseScreen::default_spec()))
            } else {
                None
            },
    {
        if state.paused {
            return None;
        }
        let collided = self.check_collision(state, next);
        if collided && state.game_ended {
            return Some(AppScreen::Lose(LoseScreen::default()));
        }
        None
    }

    /// Reacts to a key: turn (up, w, i), move left (left, a, j), right
    /// (right, d, l) or down (down, s, k), arm a power-up (1 bomb,
    /// 2 paintball, 3 roller), hard-drop (space: check for a landing and
    /// move down, at most `BOARD_HEIGHT` times, until it lands or no longer
    /// fits), or pause and resume (esc, p); while paused only esc and p
    /// act.
    pub fn handle_keypress(&mut self, state: &mut State, key: Key, next: Pacing)
        requires
            old(state).wf(),
            next.valid(),
            key == Key::Char(' ') ==> lands_on_board(old(state)),
        ensures
            final(state).wf(),
            game_key_handled(old(state), final(state), key, next),
    {
        if key == Key::Esc || key == Key::Char('p') {
            state.paused = !state.paused;
            return;
        }
        if state.paused {
            return;
        }
        match key {
            Key::Up | Key::Char('w') | Key::Char('i') => self.rotate_if_valid(state),
            Key::Left | Key::Char('a') | Key::Char('j') => self.move_if_valid(state, -1, 0),
            Key::Right | Key::Char('d') | Key::Char('l') => self.move_if_valid(state, 1, 0),
            Key::Down | Key::Char('s') | Key::Char('k') => self.move_if_valid(state, 0, -1),
            Key::Char('1') => state.activate_powerup(PowerUpType::Bomb(BombPowerup {})),
            Key::Char('2') => state.activate_powerup(PowerUpType::Paintball(PaintballPowerup {})),
            Key::Char('3') => state.activate_powerup(PowerUpType::Roller(RollerPowerup {})),
            Key::Char(' ') => self.hard_drop(state, next, BOARD_HEIGHT),
            _ => {},
        }
    }

    /// Drops what is falling until it lands (and the landing is handled),
    /// no longer fits, or has moved `budget` rows (see `hard_dropped`).
    fn hard_drop(&mut self, state: &mut State, next: Pacing, budget: usize)
        requires
            old(state).wf(),
            next.valid(),
            lands_on_board(old(state)),
        ensures
            final(state).wf(),
            hard_dropped(old(state), final(state), next, budget as nat),
        decreases budget,
    {
        if self.check_collision(state, next) {
            return;
        }
        let ghost mid = *state;
        if budget == 0 || !self.validate(state) {
            assert(rows_checked(old(state), &mid));
            return;
        }
        self.move_if_valid(state, 0, -1);
        let ghost down = *state;
        self.hard_drop(state, next, budget - 1);
        assert(rows_checked(old(state), &mid));
        assert(moved_if_valid(&mid, &down, 0, -1));
    }

    /// Checks whether what is falling has landed, deletes the lowest full
    /// row (ending the game if the top row then holds a block), and when it
    /// has landed, sets off the power-up or writes the piece into the board
    /// and moves on to the next piece.  Returns whether it had landed.
    pub fn check_collision(&mut self, state: &mut State, next: Pacing) -> (r: bool)
        requires
            old(state).wf(),
            next.valid(),
            lands_on_board(old(state)),
        ensures
            final(state).wf(),
            r == landed(old(state)),
            !r ==> rows_checked(old(state), final(state)),
            r ==> landing_handled(old(state), final(state), next),
    {
        let collided = self.has_collided(state);
        state.check_rows();
        let ghost mid = *state;
        proof {
            assert(state.wf());
        }
        if collided {
            if state.powerup.is_active() {
                PowerUp::on_collide(state);
                assert(rows_checked(old(state), &mid));
            } else {
                state.blit_active_piece_to_tiles();
                let ghost placed = *state;
                proof {
                    assert(state.wf());
                }
                state.next_piece(next);
                assert(rows_checked(old(state), &mid));
                assert(blitted(&mid, &placed));
            }
        }
        collided
    }

    /// Starts the piece falling.
    pub fn init(&mut self, state: &mut State)
        requires
            old(state).wf(),
        ensures
            final(state).wf(),
            final(state).task_queue@ == old(state).task_queue@.push(
                Task { time: (old(state).now_ms + old(state).gravity_ms) as u64, action: TaskAction::Fall },
            ),
            final(state).tiles@ == old(state).tiles@,
            final(state).score == old(state).score,
            final(state).same_but_effects(old(state)),
    {
        Self::add_gravity_task(state);
    }

    /// Schedules the next drop of what is falling.
    fn add_gravity_task(state: &mut State)
        requires
            old(state).wf(),
        ensures
            final(state).wf(),
            final(state).task_queue@ == old(state).task_queue@.push(
                Task { time: (old(state).now_ms + old(state).gravity_ms) as u64, action: TaskAction::Fall },
            ),
            final(state).tiles@ == old(state).tiles@,
            final(state).score == old(state).score,
            final(state).same_but_effects(old(state)),
    {
        let delay = state.gravity_ms;
        add_task(delay, TaskAction::Fall, state);
    }

    /// Whether what is falling may stand where it is.
    pub fn validate(&self, state: &State) -> (r: bool)
        requires
            state.wf(),
        ensures
            r == falling_fits(state),
    {
        let w = state.tiles.len();
        let h = state.tiles[0].len();
        if state.powerup.is_active() {
            if state.powerup.x < 0 || state.powerup.y < 0 {
                return false;
            }
            let x = state.powerup.x as usize;
            let y = state.powerup.y as usize;
            return x < w && y < h && !state.tiles[x][y].has_tile();
        }
        let p = state.piece_queue[state.piece_queue_ind];
        proof {
            crate::piece::lemma_wf_in_range(p);
        }
        let cells = p.abs_pos();
        let mut i: usize = 0;
        while i < 4
            invariant
                state.wf(),
                !state.powerup.active(),
                p == state.current(),
                w == state.width(),
                h == state.height(),
                i <= 4,
                forall|k: int, j: int| 0 <= k < 4 && 0 <= j < 2 ==> cells[k][j] == p.abs_spec(k, j),
                forall|k: int|
                    0 <= k < i && 0 <= #[trigger] p.abs_spec(k, 1) < h ==> 0 <= p.abs_spec(k, 0) < w && !is_filled(
                        state.cell(p.abs_spec(k, 0), p.abs_spec(k, 1)),
                    ),
            decreases 4 - i,
        {
            let abs_x = cells[i][0];
            let abs_y = cells[i][1];
            if abs_y < 0 || abs_y as usize >= h {
                i += 1;
                continue;
            }
            if abs_x < 0 || abs_x as usize >= w || state.tiles[abs_x as usize][abs_y as usize].has_tile() {
                assert(0 <= p.abs_spec(i as int, 1) < h);
                return false;
            }
            i += 1;
        }
        true
    }

    /// Whether what is falling has landed (see `landed`).
    fn has_collided(&self, state: &State) -> (r: bool)
        requires
            state.wf(),
        ensures
            r == landed(state),
    {
        let w = state.tiles.len();
        let h = state.tiles[0].len();
        if state.powerup.is_active() {
            if state.powerup.x < 0 || state.powerup.y <= 0 {
                return true;
            }
            let x = state.powerup.x as usize;
            let y = state.powerup.y as usize - 1;
            return x >= w || y >= h || state.tiles[x][y].has_tile();
        }
        let p = state.piece_queue[state.piece_queue_ind];
        proof {
            crate::piece::lemma_wf_in_range(p);
        }
        let cells = p.abs_pos();
        let mut i: usize = 0;
        while i < 4
            invariant
                state.wf(),
                !state.powerup.active(),
                p == state.current(),
                w == state.width(),
                h == state.height(),
                i <= 4,
                forall|k: int, j: int| 0 <= k < 4 && 0 <= j < 2 ==> cells[k][j] == p.abs_spec(k, j),
                forall|k: int|
                    0 <= k < i ==> !(#[trigger] p.abs_spec(k, 1) <= h && 0 <= p.abs_spec(k, 0) < w && (p.abs_spec(k, 1) <= 0
                        || is_filled(state.cell(p.abs_spec(k, 0), p.abs_spec(k, 1) - 1)))),
            decreases 4 - i,
        {
            let abs_x = cells[i][0];
            let abs_y = cells[i][1];
            if abs_y > 0 && abs_y as usize > h {
                i += 1;
                continue;
            }
            if abs_x < 0 || abs_x as usize >= w {
                i += 1;
                continue;
            }
            if abs_y <= 0 || state.tiles[abs_x as usize][abs_y as usize - 1].has_tile() {
                assert(p.abs_spec(i as int, 1) <= h);
                return true;
            }
            i += 1;
        }
        false
    }

    /// Moves what is falling by `(x, y)` when it stays within `POS_LIMIT`
    /// and fits there (see `moved_if_valid`).
    fn move_if_valid(&self, state: &mut State, x: i8, y: i8)
        requires
            old(state).wf(),
        ensures
            final(state).wf(),
            moved_if_valid(old(state), final(state), x as int, y as int),
    {
        if state.powerup.is_active() {
            let nx = state.powerup.x as i16 + x as i16;
            let ny = state.powerup.y as i16 + y as i16;
            if nx < -(POS_LIMIT as i16) || nx > POS_LIMIT as i16 || ny < -(POS_LIMIT as i16) || ny > POS_LIMIT as i16 {
                return;
            }
            let (ox, oy) = (state.powerup.x, state.powerup.y);
            state.powerup.nudge(x, y);
            if !self.validate(state) {
                state.powerup.x = ox;
                state.powerup.y = oy;
            }
        } else {
            let ind = state.piece_queue_ind;
            let saved = state.piece_queue[ind];
            let nx = saved.pos[0] as i16 + x as i16;
            let ny = saved.pos[1] as i16 + y as i16;
            if nx < -(POS_LIMIT as i16) || nx > POS_LIMIT as i16 || ny < -(POS_LIMIT as i16) || ny > POS_LIMIT as i16 {
                return;
            }
            state.piece().nudge(x, y);
            proof {
                assert(state.current().pos =~= moved(saved, x as int, y as int).pos);
                assert(state.current() == moved(saved, x as int, y as int));
                assert(state.piece_queue@.update(state.piece_queue_ind as int, Piece::spawned(state.current().id as int))
                    =~= old(state).piece_queue@.update(state.piece_queue_ind as int, Piece::spawned(state.current().id as int)));
            }
            if !self.validate(state) {
                state.piece_queue.set(ind, saved);
                proof {
                    assert(state.piece_queue@ =~= old(state).piece_queue@);
                }
            }
        }
    }

    /// Turns the piece a quarter turn when it fits turned; an armed
    /// power-up does not turn.
    fn rotate_if_valid(&self, state: &mut State)
        requires
            old(state).wf(),
        ensures
            final(state).wf(),
            turned_if_valid(old(state), final(state)),
    {
        if state.powerup.is_active() {
            return;
        }
        proof {
            crate::piece::lemma_wf_in_range(state.current());
            crate::piece::lemma_rotation_keeps_small(state.current().layout);
            crate::piece::lemma_rotate_unrotate(state.current().layout);
        }
        state.piece().rotate();
        proof {
            assert(state.piece_queue@.update(state.piece_queue_ind as int, Piece::spawned(state.current().id as int))
                =~= old(state).piece_queue@.update(state.piece_queue_ind as int, Piece::spawned(state.current().id as int)));
        }
        if !self.validate(state) {
            state.piece().unrotate();
            proof {
                assert(state.piece_queue@ =~= old(state).piece_queue@);
            }
        }
    }
}

/// A landing never lowers the score.
pub proof fn lemma_landing_keeps_score(old: &State, new: &State, next: Pacing)
    requires
        landing_handled(old, new, next),
    ensures
        new.score >= old.score,
{
    let mid = choose|mid: State|
        #[trigger] rows_checked(old, &mid) && mid.wf() && if old.powerup.active() {
            powerup_landed(&mid, new)
        } else {
            exists|placed: State| #[trigger] blitted(&mid, &placed) && placed.wf() && advanced(&placed, new, next)
        };
    crate::state::lemma_rows_checked_keep_score(old, &mid);
    if !old.powerup.active() {
        let placed = choose|placed: State| #[trigger] blitted(&mid, &placed) && placed.wf() && advanced(&placed, new, next);
    }
}

/// A hard drop never lowers the score.
proof fn lemma_hard_drop_keeps_score(old: &State, new: &State, next: Pacing, budget: nat)
    requires
        hard_dropped(old, new, next, budget),
    ensures
        new.score >= old.score,
    decreases budget,
{
    if landed(old) {
        lemma_landing_keeps_score(old, new, next);
    } else {
        let mid = choose|mid: State|
            #[trigger] rows_checked(old, &mid) && mid.wf() && if budget == 0 || !falling_fits(&mid) {
                *new == mid
            } else {
                exists|down: State|
                    #[trigger] moved_if_valid(&mid, &down, 0, -1) && down.wf() && hard_dropped(
                        &down,
                        new,
                        next,
                        (budget - 1) as nat,
                    )
            };
        crate::state::lemma_rows_checked_keep_score(old, &mid);
        if !(budget == 0 || !falling_fits(&mid)) {
            let down = choose|down: State|
                #[trigger] moved_if_valid(&mid, &down, 0, -1) && down.wf() && hard_dropped(
                    &down,
                    new,
                    next,
                    (budget - 1) as nat,
                );
            lemma_hard_drop_keeps_score(&down, new, next, (budget - 1) as nat);
        }
    }
}

/// No key lowers the score: moving, turning and arming keep it, and a hard
/// drop only adds to it.
pub proof fn lemma_keys_keep_score(old: &State, new: &State, key: Key, next: Pacing)
    requires
        game_key_handled(old, new, key, next),
    ensures
        new.score >= old.score,
{
    if key == Key::Char(' ') && !old.paused {
        lemma_hard_drop_keeps_score(old, new, next, BOARD_HEIGHT as nat);
    }
}

/// Cell `i` of the falling piece of `s`, within the board's columns and at
/// most one row above the board, is on the bottom row or right over a
/// block.
pub open spec fn cell_rests(s: &State, i: int) -> bool {
    let p = s.current();
    let (cx, cy) = (p.layout[i][0] + p.pos[0], p.layout[i][1] + p.pos[1]);
    &&& 0 <= cx < s.width()
    &&& cy <= s.height()
    &&& (cy <= 0 || is_filled(s.tiles@[cx]@[cy - 1]))
}

/// A falling piece has landed exactly when one of its four cells rests
/// (see `cell_rests`): any one of them is enough.
pub proof fn lemma_piece_lands_on_any_cell(s: &State)
    requires
        !s.powerup.active(),
    ensures
        landed(s) <==> exists|i: int| 0 <= i < 4 && #[trigger] cell_rests(s, i),
        forall|i: int| 0 <= i < 4 && #[trigger] cell_rests(s, i) ==> landed(s),
{
    let p = s.current();
    assert forall|i: int| 0 <= i < 4 && #[trigger] cell_rests(s, i) implies landed(s) by {
        assert(p.abs_spec(i, 0) == p.layout[i][0] + p.pos[0]);
        assert(p.abs_spec(i, 1) == p.layout[i][1] + p.pos[1]);
    }
    if landed(s) {
        let i = choose|i: int|
            0 <= i < 4 && #[trigger] p.abs_spec(i, 1) <= s.height() && 0 <= p.abs_spec(i, 0) < s.width() && (
            p.abs_spec(i, 1) <= 0 || is_filled(s.cell(p.abs_spec(i, 0), p.abs_spec(i, 1) - 1)));
        assert(cell_rests(s, i));
    }
}

} // verus!
