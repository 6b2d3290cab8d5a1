//! The roller: spreads from where it lands through the blocks of that
//! cell's colour, darkening each (a point apiece) and clearing it a moment
//! later, then lets the board settle.
use vstd::prelude::*;

use crate::color::Color;
use crate::powerup::{dir_x, dir_y, direction, lemma_directions, neighbor};
use crate::state::{sat_add, State};
use crate::task::{add_task, in_board, Task, TaskAction};

verus! {

/// How long each step of the spread takes, in milliseconds.
pub const ROLL_WAVE_MS: u64 = 40;

/// How long a darkened block stays before it clears, in milliseconds, plus
/// `ROLL_STEP_DELETE_MS` for each step of the spread.
pub const ROLL_DELETE_MS: u64 = 200;

/// Extra delay before clearing, per step of the spread, in milliseconds.
pub const ROLL_STEP_DELETE_MS: u64 = 80;

/// How long after landing the board starts settling, in milliseconds.
pub const ROLL_SETTLE_MS: u64 = 250;

/// The roller power-up.
#[derive(Debug, Default, PartialEq, Eq, Structural)]
pub struct RollerPowerup {}

/// `depth + 1`, or `i8::MAX` when that does not fit.
pub open spec fn next_depth(depth: int) -> i8 {
    if depth >= i8::MAX {
        i8::MAX
    } else {
        (depth + 1) as i8
    }
}

/// The two tasks reaching cell `(x, y)` at spread step `depth` schedules:
/// clearing the cell, and spreading on from it.
pub open spec fn reach_tasks(x: int, y: int, color: Color, depth: int, now: int) -> Seq<Task> {
    seq![
        Task { time: (now + ROLL_DELETE_MS + depth * ROLL_STEP_DELETE_MS) as u64, action: TaskAction::ClearCell { x: x as i8, y: y as i8 } },
        Task { time: (now + ROLL_WAVE_MS) as u64, action: TaskAction::Roll { x: x as i8, y: y as i8, depth: next_depth(depth), color } },
    ]
}

/// The tasks scheduled by a spread step at `(x, y)` looking in the first
/// `d` directions: `reach_tasks` for each neighbour on the board of the
/// rolled colour.
pub open spec fn roll_children(
    b: Seq<Seq<Color>>,
    w: int,
    h: int,
    x: int,
    y: int,
    depth: int,
    color: Color,
    now: int,
    d: int,
) -> Seq<Task>
    decreases d,
{
    if d <= 0 {
        Seq::empty()
    } else {
        let (nx, ny) = (x + dir_x(d - 1), y + dir_y(d - 1));
        roll_children(b, w, h, x, y, depth, color, now, d - 1) + if in_board(nx, ny, w, h) && b[nx][ny] == color {
            reach_tasks(nx, ny, color, depth, now)
        } else {
            Seq::empty()
        }
    }
}

/// How many of the first `d` directions from `(x, y)` lead to a cell on the
/// board of the rolled colour.
pub open spec fn roll_hits(b: Seq<Seq<Color>>, w: int, h: int, x: int, y: int, color: Color, d: int) -> nat
    decreases d,
{
    if d <= 0 {
        0
    } else {
        let (nx, ny) = (x + dir_x(d - 1), y + dir_y(d - 1));
        roll_hits(b, w, h, x, y, color, d - 1) + if in_board(nx, ny, w, h) && b[nx][ny] == color {
            1nat
        } else {
            0nat
        }
    }
}

/// `new` is `old` after a roller landed at `(cx, cy)`: on an empty cell
/// nothing happens; otherwise that cell is reached (darkened, scored, and
/// scheduled to clear and to spread on) and settling is scheduled
/// `ROLL_SETTLE_MS` later.
pub open spec fn roll_start(old: &State, new: &State, cx: int, cy: int) -> bool {
    let col = old.cell(cx, cy);
    &&& new.board_wf()
    &&& new.width() == old.width()
    &&& new.height() == old.height()
    &&& if col == Color::Reset {
        &&& new.tiles@ == old.tiles@
        &&& new.score == old.score
        &&& new.task_queue@ == old.task_queue@
    } else {
        &&& forall|i: int, j: int|
            0 <= i < old.width() && 0 <= j < old.height() ==> #[trigger] new.cell(i, j) == (if i == cx && j == cy {
                Color::DarkGray
            } else {
                old.cell(i, j)
            })
        &&& new.score == sat_add(old.score as int, 1)
        &&& new.task_queue@ == old.task_queue@ + reach_tasks(cx, cy, col, 1, old.now_ms as int).push(
            Task { time: (old.now_ms + ROLL_SETTLE_MS) as u64, action: TaskAction::StartSettling },
        )
    }
}

impl RollerPowerup {
    /// Starts the roll from `(cx, cy)` in that cell's colour; an empty cell
    /// starts nothing.  The board starts settling `ROLL_SETTLE_MS` later.
    pub fn on_collide(&self, cx: i8, cy: i8, state: &mut State)
        requires
            old(state).wf(),
            in_board(cx as int, cy as int, old(state).width(), old(state).height()),
        ensures
            final(state).wf(),
            final(state).same_but_effects(old(state)),
            final(state).width() == old(state).width(),
            final(state).height() == old(state).height(),
            roll_start(old(state), final(state), cx as int, cy as int),
    {
        let col = state.tiles[cx as usize][cy as usize];
        if col == Color::Reset {
            return;
        }
        Self::reach(cx, cy, col, 1, state);
        let ghost mid = state.task_queue@;
        add_task(ROLL_SETTLE_MS, TaskAction::StartSettling, state);
        proof {
            assert(state.task_queue@ =~= old(state).task_queue@ + reach_tasks(
                cx as int,
                cy as int,
                col,
                1,
                old(state).now_ms as int,
            ).push(Task { time: (old(state).now_ms + ROLL_SETTLE_MS) as u64, action: TaskAction::StartSettling }));
        }
    }

    /// Darkens cell `(x, y)`, scores a point for it, schedules clearing it
    /// (later the further the spread has gone) and spreading on from it.
    fn reach(x: i8, y: i8, col: Color, depth: i8, state: &mut State)
        requires
            old(state).wf(),
            in_board(x as int, y as int, old(state).width(), old(state).height()),
            depth >= 1,
        ensures
            final(state).wf(),
            final(state).same_but_effects(old(state)),
            final(state).width() == old(state).width(),
            final(state).height() == old(state).height(),
            forall|i: int, j: int|
                0 <= i < old(state).width() && 0 <= j < old(state).height() ==> #[trigger] final(state).cell(i, j) == (if i == x
                    && j == y {
                    Color::DarkGray
                } else {
                    old(state).cell(i, j)
                }),
            final(state).score == sat_add(old(state).score as int, 1),
            final(state).task_queue@ == old(state).task_queue@ + reach_tasks(x as int, y as int, col, depth as int, old(state).now_ms as int),
    {
        state.set_cell(x as usize, y as usize, Color::DarkGray);
        state.score = state.score.saturating_add(1);
        let delay = ROLL_DELETE_MS + (depth as u64) * ROLL_STEP_DELETE_MS;
        add_task(delay, TaskAction::ClearCell { x, y }, state);
        let next = if depth == i8::MAX { i8::MAX } else { depth + 1 };
        Self::schedule_expansion(x, y, col, next, state);
        proof {
            assert(state.task_queue@ =~= old(state).task_queue@ + reach_tasks(x as int, y as int, col, depth as int, old(state).now_ms as int));
        }
    }

    /// Schedules a spread step from `(x, y)`.
    fn schedule_expansion(x: i8, y: i8, col: Color, depth: i8, state: &mut State)
        requires
            old(state).wf(),
            in_board(x as int, y as int, old(state).width(), old(state).height()),
            depth >= 1,
        ensures
            final(state).wf(),
            final(state).same_but_effects(old(state)),
            final(state).tiles@ == old(state).tiles@,
            final(state).score == old(state).score,
            final(state).task_queue@ == old(state).task_queue@.push(
                Task { time: (old(state).now_ms + ROLL_WAVE_MS) as u64, action: TaskAction::Roll { x, y, depth, color: col } },
            ),
    {
        add_task(ROLL_WAVE_MS, TaskAction::Roll { x, y, depth, color: col }, state);
    }
}

/// `new` is `old` after one step of a roller's spread from `(x, y)`
/// (see `roll_wave`).
pub open spec fn rolled(old: &State, new: &State, x: i8, y: i8, depth: i8, col: Color) -> bool {
    &&& new.same_but_effects(old)
    &&& new.width() == old.width()
    &&& new.height() == old.height()
    &&& forall|i: int, j: int|
        0 <= i < old.width() && 0 <= j < old.height() ==> #[trigger] new.cell(i, j) == (if neighbor(
            i,
            j,
            x as int,
            y as int,
        ) && old.cell(i, j) == col {
            Color::DarkGray
        } else {
            old.cell(i, j)
        })
    &&& new.score == sat_add(
        old.score as int,
        roll_hits(old.board(), old.width(), old.height(), x as int, y as int, col, 8) as int
    )
    &&& new.task_queue@ == old.task_queue@ + roll_children(
        old.board(),
        old.width(),
        old.height(),
        x as int,
        y as int,
        depth as int,
        col,
        old.now_ms as int,
        8
    )
}

/// One step of the roll from `(x, y)`: every one of the eight cells around
/// it of the rolled colour is reached (darkened, scored, and scheduled to
/// clear and to spread on).
pub fn roll_wave(x: i8, y: i8, depth: i8, col: Color, state: &mut State)
    requires
        old(state).wf(),
        in_board(x as int, y as int, old(state).width(), old(state).height()),
        depth >= 1,
    ensures
        final(state).wf(),
        rolled(old(state), final(state), x, y, depth, col),
{
    let w = state.tiles.len();
    let h = state.tiles[0].len();
    let ghost b = old(state).board();
    proof {
        lemma_directions(x as int, y as int);
    }
    let mut d: usize = 0;
    while d < 8
        invariant
            state.wf(),
            state.same_but_effects(old(state)),
            state.width() == old(state).width(),
            state.height() == old(state).height(),
            w == state.width(),
            h == state.height(),
            b == old(state).board(),
            in_board(x as int, y as int, w as int, h as int),
            depth >= 1,
            d <= 8,
            forall|e: int, f: int|
                0 <= e < 8 && 0 <= f < 8 && e != f ==> !(#[trigger] dir_x(e) == #[trigger] dir_x(f) && dir_y(e) == dir_y(f)),
            forall|i: int, j: int|
                0 <= i < w && 0 <= j < h ==> #[trigger] state.cell(i, j) == (if (exists|e: int|
                    0 <= e < d && i == x + #[trigger] dir_x(e) && j == y + dir_y(e)) && old(state).cell(i, j) == col {
                    Color::DarkGray
                } else {
                    old(state).cell(i, j)
                }),
            state.score == sat_add(old(state).score as int, roll_hits(b, w as int, h as int, x as int, y as int, col, d as int) as int),
            state.task_queue@ == old(state).task_queue@ + roll_children(
                b,
                w as int,
                h as int,
                x as int,
                y as int,
                depth as int,
                col,
                old(state).now_ms as int,
                d as int,
            ),
        decreases 8 - d,
    {
        let (dx, dy) = direction(d);
        let new_x = x + dx;
        let new_y = y + dy;
        if new_x >= 0 && (new_x as usize) < w && new_y >= 0 && (new_y as usize) < h {
            let (nxu, nyu) = (new_x as usize, new_y as usize);
            proof {
                assert forall|e: int| 0 <= e < d implies !(nxu == x + #[trigger] dir_x(e) && nyu == y + dir_y(e)) by {
                    assert(dir_x(e) != dir_x(d as int) || dir_y(e) != dir_y(d as int));
                }
                assert(state.cell(nxu as int, nyu as int) == old(state).cell(nxu as int, nyu as int));
            }
            if state.tiles[nxu][nyu] == col {
                RollerPowerup::reach(new_x, new_y, col, depth, state);
            }
        }
        proof {
            assert(state.task_queue@ =~= old(state).task_queue@ + roll_children(
                b, w as int, h as int, x as int, y as int, depth as int, col, old(state).now_ms as int, d + 1,
            ));
            assert forall|i: int, j: int| 0 <= i < w && 0 <= j < h implies #[trigger] state.cell(i, j) == (if (exists|e: int|
                0 <= e < d + 1 && i == x + #[trigger] dir_x(e) && j == y + dir_y(e)) && old(state).cell(i, j) == col {
                Color::DarkGray
            } else {
                old(state).cell(i, j)
            }) by {
                if i == x + dir_x(d as int) && j == y + dir_y(d as int) {
                } else {
                    if exists|e: int| 0 <= e < d + 1 && i == x + #[trigger] dir_x(e) && j == y + dir_y(e) {
                        let e = choose|e: int| 0 <= e < d + 1 && i == x + #[trigger] dir_x(e) && j == y + dir_y(e);
                        assert(e < d);
                    }
                }
            }
        }
        d += 1;
    }
    proof {
        assert forall|i: int, j: int| 0 <= i < w && 0 <= j < h implies (exists|e: int|
            0 <= e < 8 && i == x + #[trigger] dir_x(e) && j == y + dir_y(e)) == neighbor(i, j, x as int, y as int) by {
            if exists|e: int| 0 <= e < 8 && i == x + #[trigger] dir_x(e) && j == y + dir_y(e) {
                let e = choose|e: int| 0 <= e < 8 && i == x + #[trigger] dir_x(e) && j == y + dir_y(e);
                assert(neighbor(x + dir_x(e), y + dir_y(e), x as int, y as int));
            }
        }
    }
}

/// `new` is `old` with cell `(x, y)` emptied.
pub open spec fn cell_cleared(old: &State, new: &State, x: i8, y: i8) -> bool {
    &&& new.same_but_effects(old)
    &&& new.width() == old.width()
    &&& new.height() == old.height()
    &&& forall|i: int, j: int|
        0 <= i < old.width() && 0 <= j < old.height() ==> #[trigger] new.cell(i, j) == (if i == x
            && j == y {
            Color::Reset
        } else {
            old.cell(i, j)
        })
    &&& new.score == old.score
    &&& new.task_queue@ == old.task_queue@
}

/// Empties cell `(x, y)`.
pub fn clear_cell(x: i8, y: i8, state: &mut State)
    requires
        old(state).wf(),
        in_board(x as int, y as int, old(state).width(), old(state).height()),
    ensures
        final(state).wf(),
        cell_cleared(old(state), final(state), x, y),
{
    state.set_cell(x as usize, y as usize, Color::Reset);
}

} // verus!
