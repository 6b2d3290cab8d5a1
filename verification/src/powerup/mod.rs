//! Power-ups: a single cell that falls in place of the piece and acts where
//! it lands.
use vstd::prelude::*;

use crate::color::{is_filled, Color};
use crate::piece::POS_LIMIT;
use crate::state::State;
use crate::task::{add_task, in_board, Task, TaskAction};

use bomb::bomb_effect;
use paintball::paint_start;
use roller::roll_start;
use crate::state::{BOARD_HEIGHT, BOARD_WIDTH};

pub mod bomb;
pub mod paintball;
pub mod roller;

pub use bomb::BombPowerup;
pub use paintball::PaintballPowerup;
pub use roller::RollerPowerup;

verus! {

/// Which power-up is falling, if any.
#[derive(Debug, PartialEq, Eq, Structural)]
pub enum PowerUpType {
    Inactive,
    Bomb(BombPowerup),
    Paintball(PaintballPowerup),
    Roller(RollerPowerup),
}

/// The icon each power-up is drawn with.
pub open spec fn icon_spec(t: PowerUpType) -> Seq<char> {
    match t {
        PowerUpType::Bomb(_) => "💣 "@,
        PowerUpType::Paintball(_) => "🎨 "@,
        PowerUpType::Roller(_) => "🖌️ "@,
        PowerUpType::Inactive => " "@,
    }
}

impl Default for PowerUpType {
    fn default() -> (r: Self)
        ensures
            r == PowerUpType::Inactive,
    {
        PowerUpType::Inactive
    }
}

impl PowerUpType {
    /// The icon the power-up is drawn with.
    pub fn get_icon(&self) -> (r: &'static str)
        ensures
            r@ == icon_spec(*self),
    {
        match self {
            PowerUpType::Bomb(_) => "💣 ",
            PowerUpType::Paintball(_) => "🎨 ",
            PowerUpType::Roller(_) => "🖌️ ",
            PowerUpType::Inactive => " ",
        }
    }
}

/// The player's power-up: the one falling (if any), where it is, and how
/// many are left to use.
#[derive(Debug)]
pub struct PowerUp {
    pub p_type: PowerUpType,
    pub x: i8,
    pub y: i8,
    pub count: u8,
}

/// Where a power-up spawns: the middle of the top row of the standard board.
pub open spec fn powerup_spawn_x() -> i8 {
    (BOARD_WIDTH as i8 / 2) as i8
}

/// Where a power-up spawns: the middle of the top row of the standard board.
pub open spec fn powerup_spawn_y() -> i8 {
    (BOARD_HEIGHT as i8 - 1) as i8
}

impl Default for PowerUp {
    fn default() -> (r: Self)
        ensures
            r.p_type == PowerUpType::Inactive,
            r.x == powerup_spawn_x(),
            r.y == powerup_spawn_y(),
            r.count == 5,
    {
        PowerUp { p_type: PowerUpType::Inactive, x: BOARD_WIDTH as i8 / 2, y: BOARD_HEIGHT as i8 - 1, count: 5 }
    }
}

impl PowerUp {
    /// A power-up is falling.
    pub open spec fn active(&self) -> bool {
        self.p_type != PowerUpType::Inactive
    }

    /// The power-up as the game keeps it: one is falling only while some
    /// are left, and it stays within `POS_LIMIT` of the origin.
    pub open spec fn wf(&self) -> bool {
        &&& self.active() ==> self.count >= 1
        &&& -POS_LIMIT <= self.x <= POS_LIMIT
        &&& -POS_LIMIT <= self.y <= POS_LIMIT
    }

    /// Whether a power-up is falling.
    pub fn is_active(&self) -> (r: bool)
        ensures
            r == self.active(),
    {
        !matches!(self.p_type, PowerUpType::Inactive)
    }

    /// Moves the power-up by `(x, y)`.
    pub fn nudge(&mut self, x: i8, y: i8)
        requires
            i8::MIN <= old(self).x + x <= i8::MAX,
            i8::MIN <= old(self).y + y <= i8::MAX,
        ensures
            final(self).x == old(self).x + x,
            final(self).y == old(self).y + y,
            final(self).p_type == old(self).p_type,
            final(self).count == old(self).count,
    {
        self.x = self.x + x;
        self.y = self.y + y;
    }

    /// Arms the power-up `p_type`, or disarms it when none are left.
    pub fn toggle_type(&mut self, p_type: PowerUpType)
        ensures
            final(self).p_type == (if old(self).count == 0 { PowerUpType::Inactive } else { p_type }),
            final(self).x == old(self).x,
            final(self).y == old(self).y,
            final(self).count == old(self).count,
    {
        self.p_type = if self.count == 0 { PowerUpType::Inactive } else { p_type };
    }

    /// Puts the power-up back at its spawn cell, disarmed.
    pub fn reset(&mut self)
        ensures
            final(self).p_type == PowerUpType::Inactive,
            final(self).x == powerup_spawn_x(),
            final(self).y == powerup_spawn_y(),
            final(self).count == old(self).count,
    {
        self.x = BOARD_WIDTH as i8 / 2;
        self.y = BOARD_HEIGHT as i8 - 1;
        self.p_type = PowerUpType::Inactive;
    }
}

/// The column offset of each of the eight directions a power-up spreads in.
pub open spec fn dir_x(d: int) -> int {
    if d == 0 || d == 4 || d == 6 {
        1
    } else if d == 1 || d == 5 || d == 7 {
        -1
    } else {
        0
    }
}

/// The row offset of each of the eight directions a power-up spreads in.
pub open spec fn dir_y(d: int) -> int {
    if d == 2 || d == 4 || d == 7 {
        1
    } else if d == 3 || d == 5 || d == 6 {
        -1
    } else {
        0
    }
}

/// Direction `d` of the eight, as `(dx, dy)`.
pub fn direction(d: usize) -> (r: (i8, i8))
    requires
        d < 8,
    ensures
        r.0 == dir_x(d as int),
        r.1 == dir_y(d as int),
{
    if d == 0 {
        (1, 0)
    } else if d == 1 {
        (-1, 0)
    } else if d == 2 {
        (0, 1)
    } else if d == 3 {
        (0, -1)
    } else if d == 4 {
        (1, 1)
    } else if d == 5 {
        (-1, -1)
    } else if d == 6 {
        (1, -1)
    } else {
        (-1, 1)
    }
}

/// `(i, j)` is one of the eight cells around `(x, y)`.
pub open spec fn neighbor(i: int, j: int, x: int, y: int) -> bool {
    -1 <= i - x <= 1 && -1 <= j - y <= 1 && !(i == x && j == y)
}

/// Each neighbour of a cell lies in exactly one of the eight directions.
pub proof fn lemma_directions(x: int, y: int)
    ensures
        forall|d: int| 0 <= d < 8 ==> neighbor(#[trigger] (x + dir_x(d)), y + dir_y(d), x, y),
        forall|d: int, e: int|
            0 <= d < 8 && 0 <= e < 8 && d != e ==> !(#[trigger] dir_x(d) == #[trigger] dir_x(e) && dir_y(d) == dir_y(e)),
        forall|i: int, j: int|
            neighbor(i, j, x, y) ==> exists|d: int| 0 <= d < 8 && i == x + #[trigger] dir_x(d) && j == y + dir_y(d),
{
    assert forall|i: int, j: int| neighbor(i, j, x, y) implies exists|d: int|
        0 <= d < 8 && i == x + #[trigger] dir_x(d) && j == y + dir_y(d) by {
        if i == x + 1 && j == y {
            assert(dir_x(0) == 1 && dir_y(0) == 0);
        } else if i == x - 1 && j == y {
            assert(dir_x(1) == -1 && dir_y(1) == 0);
        } else if i == x && j == y + 1 {
            assert(dir_x(2) == 0 && dir_y(2) == 1);
        } else if i == x && j == y - 1 {
            assert(dir_x(3) == 0 && dir_y(3) == -1);
        } else if i == x + 1 && j == y + 1 {
            assert(dir_x(4) == 1 && dir_y(4) == 1);
        } else if i == x - 1 && j == y - 1 {
            assert(dir_x(5) == -1 && dir_y(5) == -1);
        } else if i == x + 1 && j == y - 1 {
            assert(dir_x(6) == 1 && dir_y(6) == -1);
        } else {
            assert(dir_x(7) == -1 && dir_y(7) == 1);
        }
    }
}

/// How long the board waits between settling steps, in milliseconds.
pub const SETTLE_DELAY_MS: u64 = 200;

/// `new` is `old` with a settling step scheduled `SETTLE_DELAY_MS` later.
pub open spec fn settle_scheduled(old: &State, new: &State) -> bool {
    &&& new.task_queue@ == old.task_queue@.push(
        Task { time: (old.now_ms + SETTLE_DELAY_MS) as u64, action: TaskAction::Settle }
    )
    &&& new.tiles@ == old.tiles@
    &&& new.score == old.score
    &&& new.same_but_effects(old)
}

/// Schedules one step of the board settling.
pub fn add_gravity_task(state: &mut State)
    requires
        old(state).wf(),
    ensures
        final(state).wf(),
        settle_scheduled(old(state), final(state)),
{
    add_task(SETTLE_DELAY_MS, TaskAction::Settle, state);
}

/// The index of the first empty cell of column `c` at or after `i`, or its
/// length when there is none.
pub open spec fn first_gap(c: Seq<Color>, i: int) -> int
    decreases c.len() - i,
{
    if i >= c.len() {
        c.len() as int
    } else if !is_filled(c[i]) {
        i
    } else {
        first_gap(c, i + 1)
    }
}

/// Column `c` has an empty cell with a block somewhere above it.
pub open spec fn can_settle(c: Seq<Color>) -> bool {
    let p = first_gap(c, 0);
    p < c.len() && exists|j: int| p <= j < c.len() && is_filled(#[trigger] c[j])
}

/// Column `c` after one settling step: when it has an empty cell with a
/// block above, the cells above the lowest empty one slide down one and the
/// top cell keeps its value; otherwise it is unchanged.
pub open spec fn settled(c: Seq<Color>) -> Seq<Color> {
    if can_settle(c) {
        let p = first_gap(c, 0);
        c.subrange(0, p) + c.subrange(p + 1, c.len() as int) + seq![c[c.len() - 1]]
    } else {
        c
    }
}

/// When the first `i` cells are all blocks, the first gap from the bottom
/// is the first gap from `i`.
proof fn lemma_first_gap_skip(c: Seq<Color>, i: int)
    requires
        0 <= i <= c.len(),
        forall|k: int| 0 <= k < i ==> is_filled(#[trigger] c[k]),
    ensures
        first_gap(c, 0) == first_gap(c, i),
    decreases i,
{
    if i > 0 {
        lemma_first_gap_skip(c, i - 1);
    }
}

/// The first gap from `i` lies between `i` and the column's length.
proof fn lemma_first_gap_bounds(c: Seq<Color>, i: int)
    requires
        0 <= i <= c.len(),
    ensures
        i <= first_gap(c, i) <= c.len(),
    decreases c.len() - i,
{
    if i < c.len() && is_filled(c[i]) {
        lemma_first_gap_bounds(c, i + 1);
    }
}

/// Settling keeps the column's length.
pub proof fn lemma_settled_len(c: Seq<Color>)
    ensures
        settled(c).len() == c.len(),
{
    lemma_first_gap_bounds(c, 0);
}

/// The first gap from `k` comes no later than any empty cell at or after
/// `k`, and when it is within the column that cell is empty.
proof fn lemma_first_gap_is_lowest(c: Seq<Color>, k: int)
    requires
        0 <= k <= c.len(),
    ensures
        forall|i: int| k <= i < c.len() && !is_filled(#[trigger] c[i]) ==> first_gap(c, k) <= i,
        first_gap(c, k) < c.len() ==> !is_filled(c[first_gap(c, k)]),
        k <= first_gap(c, k) <= c.len(),
    decreases c.len() - k,
{
    if k < c.len() && is_filled(c[k]) {
        lemma_first_gap_is_lowest(c, k + 1);
    }
}

/// Column `c` has an empty cell with a block somewhere above it.
pub open spec fn floats(c: Seq<Color>) -> bool {
    exists|i: int, j: int| 0 <= i < j < c.len() && !is_filled(#[trigger] c[i]) && is_filled(#[trigger] c[j])
}

/// A column settles exactly when some block lies anywhere above an empty
/// cell, however far above.
pub proof fn lemma_settles_when_a_block_floats(c: Seq<Color>)
    ensures
        can_settle(c) <==> floats(c),
{
    lemma_first_gap_is_lowest(c, 0);
    let p = first_gap(c, 0);
    if can_settle(c) {
        let j = choose|j: int| p <= j < c.len() && is_filled(#[trigger] c[j]);
        assert(!is_filled(c[p]));
        assert(p < j);
        assert(!is_filled(c[p]) && is_filled(c[j]));
    }
    if floats(c) {
        let (i, j) = choose|i: int, j: int| 0 <= i < j < c.len() && !is_filled(#[trigger] c[i]) && is_filled(#[trigger] c[j]);
        assert(p <= i);
        assert(is_filled(c[j]));
    }
}

/// Settling goes on while anything floats: after one step of the board, a
/// further step is scheduled exactly when some column has a block above an
/// empty cell, and every column with nothing floating stays as it was.
pub proof fn lemma_settling_goes_on_while_blocks_float(old: &State, new: &State)
    requires
        old.board_wf(),
        settle_stepped(old, new),
    ensures
        new.task_queue@.len() > old.task_queue@.len() <==> exists|x: int|
            0 <= x < old.width() && #[trigger] floats(old.tiles@[x]@),
        new.task_queue@.len() > old.task_queue@.len() ==> new.task_queue@.last() == (Task {
            time: (old.now_ms + SETTLE_DELAY_MS) as u64,
            action: TaskAction::Settle,
        }),
        forall|x: int| 0 <= x < old.width() && !#[trigger] floats(old.tiles@[x]@) ==> new.tiles@[x]@ == old.tiles@[x]@,
{
    let w = old.width();
    assert forall|x: int| 0 <= x < w implies #[trigger] can_settle(old.board()[x]) == floats(old.tiles@[x]@) by {
        assert(old.board()[x] == old.tiles@[x]@);
        lemma_settles_when_a_block_floats(old.tiles@[x]@);
    }
    assert forall|x: int| 0 <= x < w && !#[trigger] floats(old.tiles@[x]@) implies new.tiles@[x]@ == old.tiles@[x]@ by {
        assert(old.board()[x] == old.tiles@[x]@);
        assert(new.board()[x] == new.tiles@[x]@);
        lemma_settles_when_a_block_floats(old.tiles@[x]@);
    }
    if exists|x: int| 0 <= x < w && #[trigger] floats(old.tiles@[x]@) {
        let x = choose|x: int| 0 <= x < w && #[trigger] floats(old.tiles@[x]@);
        assert(can_settle(old.board()[x]));
    }
    if exists|x: int| 0 <= x < w && #[trigger] can_settle(old.board()[x]) {
        let x = choose|x: int| 0 <= x < w && #[trigger] can_settle(old.board()[x]);
        assert(floats(old.tiles@[x]@));
    }
}

/// A copy of the column.
fn copy_column(col: &Vec<Color>) -> (r: Vec<Color>)
    ensures
        r@ == col@,
{
    let mut r: Vec<Color> = Vec::new();
    let mut i: usize = 0;
    while i < col.len()
        invariant
            i <= col@.len(),
            r@ =~= col@.subrange(0, i as int),
        decreases col@.len() - i,
    {
        r.push(col[i]);
        i += 1;
    }
    r
}

/// One settling step of column `col`, and whether anything moved.
fn settle_column(col: &Vec<Color>) -> (r: (Vec<Color>, bool))
    requires
        col@.len() >= 1,
    ensures
        r.0@ == settled(col@),
        r.1 == can_settle(col@),
{
    let n = col.len();
    let mut p: usize = 0;
    while p < n && col[p].has_tile()
        invariant
            n == col@.len(),
            p <= n,
            forall|k: int| 0 <= k < p ==> is_filled(#[trigger] col@[k]),
        decreases n - p,
    {
        p += 1;
    }
    proof {
        lemma_first_gap_skip(col@, p as int);
    }
    if p == n {
        return (copy_column(col), false);
    }
    let mut j: usize = p;
    while j < n && !col[j].has_tile()
        invariant
            n == col@.len(),
            p <= j <= n,
            forall|k: int| p <= k < j ==> !is_filled(#[trigger] col@[k]),
        decreases n - j,
    {
        j += 1;
    }
    if j == n {
        return (copy_column(col), false);
    }
    assert(is_filled(col@[j as int]));
    let mut r: Vec<Color> = Vec::new();
    let mut i: usize = 0;
    while i < n
        invariant
            n == col@.len(),
            p < n,
            i <= n,
            r@ =~= (col@.subrange(0, p as int) + col@.subrange(p + 1, n as int) + seq![col@[n - 1]]).subrange(0, i as int),
        decreases n - i,
    {
        let c = if i < p {
            col[i]
        } else if i + 1 < n {
            col[i + 1]
        } else {
            col[n - 1]
        };
        r.push(c);
        i += 1;
    }
    (r, true)
}

/// `new` is `old` after one settling step: every column settled one cell
/// (see `settled`), and another step scheduled while any column could.
pub open spec fn settle_stepped(old: &State, new: &State) -> bool {
    &&& new.same_but_effects(old)
    &&& new.width() == old.width()
    &&& new.height() == old.height()
    &&& forall|x: int| 0 <= x < old.width() ==> #[trigger] new.board()[x] == settled(old.board()[x])
    &&& new.score == old.score
    &&& new.task_queue@ == if exists|x: int| 0 <= x < old.width() && can_settle(#[trigger] old.board()[x]) {
        old.task_queue@.push(Task { time: (old.now_ms + SETTLE_DELAY_MS) as u64, action: TaskAction::Settle })
    } else {
        old.task_queue@
    }
}

/// One step of the board settling: every column with an empty cell under a
/// block slides down one above its lowest empty cell; while anything moved,
/// the next step is scheduled.
pub fn settle_step(state: &mut State)
    requires
        old(state).wf(),
    ensures
        final(state).wf(),
        settle_stepped(old(state), final(state)),
{
    let w = state.tiles.len();
    let ghost b = old(state).board();
    let mut reschedule = false;
    let mut x: usize = 0;
    while x < w
        invariant
            state.wf(),
            state.same_but_effects(old(state)),
            state.width() == old(state).width(),
            state.height() == old(state).height(),
            w == state.width(),
            b == old(state).board(),
            x <= w,
            forall|i: int| 0 <= i < x ==> #[trigger] state.board()[i] == settled(b[i]),
            forall|i: int| x <= i < w ==> #[trigger] state.board()[i] == b[i],
            state.score == old(state).score,
            state.task_queue@ == old(state).task_queue@,
            reschedule == exists|i: int| 0 <= i < x && can_settle(#[trigger] b[i]),
        decreases w - x,
    {
        let ghost before = state.tiles@;
        let ghost pre_board = state.board();
        proof {
            assert(state.board()[x as int] == before[x as int]@);
            assert(b[x as int] == before[x as int]@);
        }
        let (column, moved) = settle_column(&state.tiles[x]);
        state.tiles[x] = column;
        proof {
            assert(state.board()[x as int] == column@);
            assert forall|i: int| 0 <= i < w && i != x implies #[trigger] state.board()[i] == pre_board[i] by {
                assert(state.tiles@[i] == before[i]);
                assert(pre_board[i] == before[i]@);
            }
            assert(state.tiles@ == before.update(x as int, column));
            lemma_settled_len(b[x as int]);
            assert(state.board()[x as int] == settled(b[x as int]));
            assert forall|i: int| 0 <= i < state.width() implies #[trigger] state.tiles@[i]@.len() == state.height() by {
                assert(state.tiles@[0]@.len() == old(state).height());
            }
        }
        if moved {
            reschedule = true;
        }
        x += 1;
    }
    let ghost mid = *state;
    if reschedule {
        add_gravity_task(state);
    }
    proof {
        assert(state.board() == mid.board());
    }
}

/// The cell an armed power-up acts on when it lands: the one under it, or
/// its own on the bottom row.
pub open spec fn landing_x(s: &State) -> int {
    s.powerup.x as int
}

/// See `landing_x`.
pub open spec fn landing_y(s: &State) -> int {
    if s.powerup.y - 1 < 0 {
        0
    } else {
        s.powerup.y - 1
    }
}

/// The power-up of `s` would act on a cell of the board if it landed now,
/// or it needs none: a paintball or a roller reads the cell it lands on,
/// a bomb only reaches the cells of the board around it.
pub open spec fn lands_on_board(s: &State) -> bool {
    match s.powerup.p_type {
        PowerUpType::Paintball(_) | PowerUpType::Roller(_) => in_board(landing_x(s), landing_y(s), s.width(), s.height()),
        _ => true,
    }
}

/// The power-up lands: it acts on the cell under it (see `landing_x`), then
/// goes back to spawn, disarmed, one fewer left.
pub open spec fn landing_effect(old: &State, new: &State) -> bool {
    let (x, y) = (landing_x(old), landing_y(old));
    match old.powerup.p_type {
        PowerUpType::Bomb(_) => bomb_effect(old, new, x, y),
        PowerUpType::Paintball(_) => paint_start(old, new, x, y),
        PowerUpType::Roller(_) => roll_start(old, new, x, y),
        PowerUpType::Inactive => unchanged_board(old, new),
    }
}

/// The board, the score and the pending tasks are the same.
pub open spec fn unchanged_board(old: &State, new: &State) -> bool {
    &&& new.tiles@ == old.tiles@
    &&& new.score == old.score
    &&& new.task_queue@ == old.task_queue@
}

/// `new` is `old` after the armed power-up landed (see `PowerUp::on_collide`).
pub open spec fn powerup_landed(old: &State, new: &State) -> bool {
    &&& landing_effect(old, new)
    &&& new.powerup.p_type == PowerUpType::Inactive
    &&& new.powerup.x == powerup_spawn_x()
    &&& new.powerup.y == powerup_spawn_y()
    &&& new.powerup.count == old.powerup.count - 1
    &&& new.piece_queue_ind == old.piece_queue_ind
    &&& new.piece_queue@ == old.piece_queue@
    &&& new.game_ended == old.game_ended
    &&& new.paused == old.paused
    &&& new.placed_pieces == old.placed_pieces
    &&& new.level == old.level
    &&& new.levelup_pieces == old.levelup_pieces
    &&& new.gravity_ms == old.gravity_ms
    &&& new.now_ms == old.now_ms
}

impl PowerUp {
    /// The armed power-up lands (see `landing_effect`).
    pub fn on_collide(state: &mut State)
        requires
            old(state).wf(),
            old(state).powerup.count >= 1,
            lands_on_board(old(state)),
        ensures
            final(state).wf(),
            powerup_landed(old(state), final(state)),
    {
        let x = state.powerup.x;
        let y = if state.powerup.y - 1 < 0 { 0 } else { state.powerup.y - 1 };
        let mut powerup_type = PowerUpType::Inactive;
        std::mem::swap(&mut powerup_type, &mut state.powerup.p_type);
        match powerup_type {
            PowerUpType::Bomb(bomb) => bomb.on_collide(x, y, state),
            PowerUpType::Paintball(paintball) => paintball.on_collide(x, y, state),
            PowerUpType::Roller(roller) => roller.on_collide(x, y, state),
            PowerUpType::Inactive => {},
        }
        state.powerup.reset();
        state.powerup.count = state.powerup.count - 1;
    }
}

impl State {
    /// Whether the power-up would act on a cell of the board if it landed
    /// now (see `lands_on_board`).
    pub fn powerup_lands_on_board(&self) -> (r: bool)
        requires
            self.board_wf(),
        ensures
            r == lands_on_board(self),
    {
        let x = self.powerup.x;
        let y = if self.powerup.y < 1 { 0 } else { self.powerup.y - 1 };
        match self.powerup.p_type {
            PowerUpType::Paintball(_) | PowerUpType::Roller(_) => x >= 0 && (x as usize) < self.tiles.len() && (y
                as usize) < self.tiles[0].len(),
            _ => true,
        }
    }
}

/// Arming a power-up never leaves one falling with none left.
pub proof fn lemma_toggle_keeps_wf(p: PowerUp, t: PowerUpType, q: PowerUp)
    requires
        p.wf(),
        q.p_type == (if p.count == 0 { PowerUpType::Inactive } else { t }),
        q.x == p.x,
        q.y == p.y,
        q.count == p.count,
    ensures
        q.wf(),
{
}

} // verus!
