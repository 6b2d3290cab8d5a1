//! The bomb: darkens every cell within two steps of where it lands, scoring
//! a point per block, and clears them half a second later.
use vstd::prelude::*;

use crate::color::{is_filled, Color};
use crate::state::{sat_add, State};
use crate::task::{add_task, in_board, Task, TaskAction};

verus! {

/// How many steps (across and up) the blast reaches.
pub const BOMB_RADIUS: usize = 2;

/// How long the darkened cells stay before they clear, in milliseconds.
pub const BOMB_CLEAR_MS: u64 = 500;

/// The bomb power-up.
#[derive(Debug, Default, PartialEq, Eq, Structural)]
pub struct BombPowerup {}

/// `|a - b|`.
pub open spec fn dist(a: int, b: int) -> int {
    if a < b {
        b - a
    } else {
        a - b
    }
}

/// Cell `(x, y)` is within the blast of a bomb landing at `(cx, cy)`.  A
/// landing point left of or below the board reaches no cell.
pub open spec fn in_blast(x: int, y: int, cx: int, cy: int) -> bool {
    cx >= 0 && cy >= 0 && dist(x, cx) + dist(y, cy) <= BOMB_RADIUS
}

/// Blocks within the blast among the first `n` cells of column `x`.
pub open spec fn column_hits(b: Seq<Seq<Color>>, x: int, n: int, cx: int, cy: int) -> nat
    decreases n,
{
    if n <= 0 {
        0
    } else {
        column_hits(b, x, n - 1, cx, cy) + (if in_blast(x, n - 1, cx, cy) && is_filled(b[x][n - 1]) {
            1nat
        } else {
            0nat
        })
    }
}

/// Blocks within the blast among the first `n` columns of height `h`.
pub open spec fn blast_hits(b: Seq<Seq<Color>>, n: int, h: int, cx: int, cy: int) -> nat
    decreases n,
{
    if n <= 0 {
        0
    } else {
        blast_hits(b, n - 1, h, cx, cy) + column_hits(b, n - 1, h, cx, cy)
    }
}

/// `new` is `old` after a bomb landed at `(cx, cy)`: the cells within the
/// blast are dark, the score went up by the blocks among them, and clearing
/// exactly those cells is scheduled `BOMB_CLEAR_MS` later.
pub open spec fn bomb_effect(old: &State, new: &State, cx: int, cy: int) -> bool {
    let (w, h) = (old.width(), old.height());
    &&& new.board_wf()
    &&& new.width() == w
    &&& new.height() == h
    &&& forall|x: int, y: int|
        0 <= x < w && 0 <= y < h ==> #[trigger] new.cell(x, y) == (if in_blast(x, y, cx, cy) {
            Color::DarkGray
        } else {
            old.cell(x, y)
        })
    &&& new.score == sat_add(old.score as int, blast_hits(old.board(), w, h, cx, cy) as int)
    &&& new.task_queue@.len() == old.task_queue@.len() + 1
    &&& new.task_queue@.subrange(0, old.task_queue@.len() as int) == old.task_queue@
    &&& new.task_queue@.last().time == old.now_ms + BOMB_CLEAR_MS
    &&& new.task_queue@.last().action matches TaskAction::ClearCells(cells) && {
        &&& forall|i: int|
            0 <= i < cells@.len() ==> in_board(#[trigger] cells@[i].0 as int, cells@[i].1 as int, w, h)
                && in_blast(cells@[i].0 as int, cells@[i].1 as int, cx, cy)
        &&& forall|x: int, y: int|
            0 <= x < w && 0 <= y < h && in_blast(x, y, cx, cy) ==> exists|i: int|
                0 <= i < cells@.len() && #[trigger] cells@[i] == (x as usize, y as usize)
    }
}

/// The number of steps, across and up or down, from `(cx, cy)` to `(x, y)`.
pub open spec fn steps_between(x: int, y: int, cx: int, cy: int) -> int {
    (if x >= cx { x - cx } else { cx - x }) + (if y >= cy { y - cy } else { cy - y })
}

/// No block of column `x` among its first `n` cells is in the blast, so
/// none is counted.
proof fn lemma_column_hits_none(b: Seq<Seq<Color>>, x: int, n: int, cx: int, cy: int)
    requires
        forall|y: int| 0 <= y < n && in_blast(x, y, cx, cy) ==> !is_filled(#[trigger] b[x][y]),
    ensures
        column_hits(b, x, n, cx, cy) == 0,
    decreases n,
{
    if n > 0 {
        lemma_column_hits_none(b, x, n - 1, cx, cy);
    }
}

/// No block of the first `n` columns is in the blast, so none is counted.
proof fn lemma_blast_hits_none(b: Seq<Seq<Color>>, n: int, h: int, cx: int, cy: int)
    requires
        forall|x: int, y: int| 0 <= x < n && 0 <= y < h && in_blast(x, y, cx, cy) ==> !is_filled(#[trigger] b[x][y]),
    ensures
        blast_hits(b, n, h, cx, cy) == 0,
    decreases n,
{
    if n > 0 {
        lemma_blast_hits_none(b, n - 1, h, cx, cy);
        lemma_column_hits_none(b, n - 1, h, cx, cy);
    }
}

/// A bomb landing on the board at `(cx, cy)` darkens exactly the cells at
/// most two steps away (across plus up or down, so not the corners of the
/// surrounding square): every farther cell keeps its colour, and when no
/// block is within two steps the score does not move.
pub proof fn lemma_bomb_reaches_two_steps(old: &State, new: &State, cx: int, cy: int)
    requires
        old.board_wf(),
        bomb_effect(old, new, cx, cy),
        0 <= cx,
        0 <= cy,
    ensures
        forall|x: int, y: int|
            0 <= x < old.width() && 0 <= y < old.height() && steps_between(x, y, cx, cy) <= 2 ==> #[trigger] new.tiles@[x]@[y]
                == Color::DarkGray,
        forall|x: int, y: int|
            0 <= x < old.width() && 0 <= y < old.height() && steps_between(x, y, cx, cy) > 2 ==> #[trigger] new.tiles@[x]@[y]
                == old.tiles@[x]@[y],
        (forall|x: int, y: int|
            0 <= x < old.width() && 0 <= y < old.height() && steps_between(x, y, cx, cy) <= 2 ==> !is_filled(
                #[trigger] old.tiles@[x]@[y],
            )) ==> new.score == old.score,
{
    let (w, h) = (old.width(), old.height());
    if forall|x: int, y: int|
        0 <= x < w && 0 <= y < h && steps_between(x, y, cx, cy) <= 2 ==> !is_filled(#[trigger] old.tiles@[x]@[y]) {
        assert forall|x: int, y: int| 0 <= x < w && 0 <= y < h && in_blast(x, y, cx, cy) implies !is_filled(
            #[trigger] old.board()[x][y],
        ) by {
            assert(old.board()[x][y] == old.tiles@[x]@[y]);
            assert(steps_between(x, y, cx, cy) <= 2);
        }
        lemma_blast_hits_none(old.board(), w, h, cx, cy);
    }
}

/// The cells a bomb schedules for clearing are on the board and at most two
/// steps from where it landed, and every such cell is among them.
pub proof fn lemma_bomb_clears_two_steps(old: &State, new: &State, cx: int, cy: int)
    requires
        bomb_effect(old, new, cx, cy),
        0 <= cx,
        0 <= cy,
    ensures
        new.task_queue@.last().action matches TaskAction::ClearCells(cells) && {
            &&& forall|i: int|
                0 <= i < cells@.len() ==> in_board(#[trigger] cells@[i].0 as int, cells@[i].1 as int, old.width(), old.height())
                    && steps_between(cells@[i].0 as int, cells@[i].1 as int, cx, cy) <= 2
            &&& forall|x: int, y: int|
                0 <= x < old.width() && 0 <= y < old.height() && steps_between(x, y, cx, cy) <= 2 ==> exists|i: int|
                    0 <= i < cells@.len() && #[trigger] cells@[i] == (x as usize, y as usize)
        },
{
    if let TaskAction::ClearCells(cells) = new.task_queue@.last().action {
        assert forall|x: int, y: int|
            0 <= x < old.width() && 0 <= y < old.height() && steps_between(x, y, cx, cy) <= 2 implies exists|i: int|
            0 <= i < cells@.len() && #[trigger] cells@[i] == (x as usize, y as usize) by {
            assert(in_blast(x, y, cx, cy));
        }
    }
}

/// Whether cell `(x, y)` is within the blast of a bomb at `(cx, cy)`.
fn blast_reaches(x: usize, y: usize, cx: i8, cy: i8) -> (r: bool)
    requires
        x <= 100,
        y <= 100,
    ensures
        r == in_blast(x as int, y as int, cx as int, cy as int),
{
    if cx < 0 || cy < 0 {
        return false;
    }
    let (cxu, cyu) = (cx as usize, cy as usize);
    let dx = if x < cxu { cxu - x } else { x - cxu };
    let dy = if y < cyu { cyu - y } else { y - cyu };
    dx + dy <= BOMB_RADIUS
}

impl BombPowerup {
    /// Darkens every cell within `BOMB_RADIUS` steps of `(cx, cy)`, scores
    /// a point for each block among them, and schedules clearing them.
    pub fn on_collide(&self, cx: i8, cy: i8, state: &mut State)
        requires
            old(state).wf(),
        ensures
            final(state).wf(),
            final(state).same_but_effects(old(state)),
            bomb_effect(old(state), final(state), cx as int, cy as int),
    {
        let w = state.tiles.len();
        let h = state.tiles[0].len();
        let ghost b = state.board();
        let ghost w_i = w as int;
        let ghost h_i = h as int;
        let mut reset_tiles: Vec<(usize, usize)> = Vec::new();
        let mut x: usize = 0;
        while x < w
            invariant
                state.wf(),
                state.same_but_effects(old(state)),
                state.task_queue@ == old(state).task_queue@,
                w == state.width(),
                h == state.height(),
                w == old(state).width(),
                h == old(state).height(),
                b == old(state).board(),
                x <= w,
                forall|i: int, j: int|
                    0 <= i < w && 0 <= j < h ==> #[trigger] state.cell(i, j) == (if i < x && in_blast(i, j, cx as int, cy as int) {
                        Color::DarkGray
                    } else {
                        old(state).cell(i, j)
                    }),
                state.score == sat_add(old(state).score as int, blast_hits(b, x as int, h as int, cx as int, cy as int) as int),
                forall|k: int|
                    0 <= k < reset_tiles@.len() ==> in_board(#[trigger] reset_tiles@[k].0 as int, reset_tiles@[k].1 as int, w as int, h as int)
                        && reset_tiles@[k].0 < x && in_blast(reset_tiles@[k].0 as int, reset_tiles@[k].1 as int, cx as int, cy as int),
                forall|i: int, j: int|
                    0 <= i < x && 0 <= j < h && in_blast(i, j, cx as int, cy as int) ==> exists|k: int|
                        0 <= k < reset_tiles@.len() && #[trigger] reset_tiles@[k] == (i as usize, j as usize),
            decreases w - x,
        {
            let mut y: usize = 0;
            while y < h
                invariant
                    state.wf(),
                    state.same_but_effects(old(state)),
                    state.task_queue@ == old(state).task_queue@,
                    w == state.width(),
                    h == state.height(),
                    w == old(state).width(),
                    h == old(state).height(),
                    b == old(state).board(),
                    x < w,
                    y <= h,
                    forall|i: int, j: int|
                        0 <= i < w && 0 <= j < h ==> #[trigger] state.cell(i, j) == (if (i < x || (i == x && j < y))
                            && in_blast(i, j, cx as int, cy as int) {
                            Color::DarkGray
                        } else {
                            old(state).cell(i, j)
                        }),
                    state.score == sat_add(
                        old(state).score as int,
                        (blast_hits(b, x as int, h as int, cx as int, cy as int) + column_hits(b, x as int, y as int, cx as int, cy as int)) as int,
                    ),
                    forall|k: int|
                        0 <= k < reset_tiles@.len() ==> in_board(#[trigger] reset_tiles@[k].0 as int, reset_tiles@[k].1 as int, w as int, h as int)
                            && reset_tiles@[k].0 <= x && in_blast(reset_tiles@[k].0 as int, reset_tiles@[k].1 as int, cx as int, cy as int),
                    forall|i: int, j: int|
                        ((0 <= i < x && 0 <= j < h) || (i == x && 0 <= j < y)) && in_blast(i, j, cx as int, cy as int) ==> exists|k: int|
                            0 <= k < reset_tiles@.len() && #[trigger] reset_tiles@[k] == (i as usize, j as usize),
                decreases h - y,
            {
                if blast_reaches(x, y, cx, cy) {
                    proof {
                        assert(state.cell(x as int, y as int) == old(state).cell(x as int, y as int));
                    }
                    if state.tiles[x][y].has_tile() {
                        state.score = state.score.saturating_add(1);
                    }
                    state.set_cell(x, y, Color::DarkGray);
                    let ghost before = reset_tiles@;
                    reset_tiles.push((x, y));
                    proof {
                        assert(reset_tiles@[reset_tiles@.len() - 1] == (x, y));
                        assert forall|i: int, j: int|
                            ((0 <= i < x && 0 <= j < h) || (i == x && 0 <= j < y + 1)) && in_blast(i, j, cx as int, cy as int)
                            implies exists|k: int| 0 <= k < reset_tiles@.len() && #[trigger] reset_tiles@[k] == (i as usize, j as usize) by {
                            if i == x && j == y {
                                assert(reset_tiles@[before.len() as int] == (i as usize, j as usize));
                            } else {
                                let k = choose|k: int| 0 <= k < before.len() && #[trigger] before[k] == (i as usize, j as usize);
                                assert(reset_tiles@[k] == before[k]);
                            }
                        }
                    }
                }
                y += 1;
            }
            x += 1;
        }
        let ghost cells = reset_tiles;
        let ghost mid = *state;
        add_task(BOMB_CLEAR_MS, TaskAction::ClearCells(reset_tiles), state);
        proof {
            let n = old(state).task_queue@.len() as int;
            assert(state.task_queue@.subrange(0, n) =~= old(state).task_queue@);
            assert(state.task_queue@.last().action == TaskAction::ClearCells(cells));
        }
    }
}

/// `new` is `old` with the listed cells emptied and settling scheduled.
pub open spec fn cells_cleared(old: &State, new: &State, cells: Seq<(usize, usize)>) -> bool {
    &&& new.same_but_effects(old)
    &&& new.width() == old.width()
    &&& new.height() == old.height()
    &&& forall|x: int, y: int|
        0 <= x < old.width() && 0 <= y < old.height() ==> #[trigger] new.cell(x, y) == (if exists|i: int|
            0 <= i < cells.len() && #[trigger] cells[i] == (x as usize, y as usize) {
            Color::Reset
        } else {
            old.cell(x, y)
        })
    &&& new.score == old.score
    &&& new.task_queue@ == old.task_queue@.push(
        Task { time: (old.now_ms + crate::powerup::SETTLE_DELAY_MS) as u64, action: TaskAction::Settle }
    )
}

/// Empties the listed cells, then starts the board settling.
pub fn clear_cells(cells: Vec<(usize, usize)>, state: &mut State)
    requires
        old(state).wf(),
        forall|i: int| 0 <= i < cells@.len() ==> in_board(#[trigger] cells@[i].0 as int, cells@[i].1 as int, old(state).width(), old(state).height()),
    ensures
        final(state).wf(),
        cells_cleared(old(state), final(state), cells@),
{
    let n = cells.len();
    let mut i: usize = 0;
    while i < n
        invariant
            state.wf(),
            state.same_but_effects(old(state)),
            state.task_queue@ == old(state).task_queue@,
            state.score == old(state).score,
            state.width() == old(state).width(),
            state.height() == old(state).height(),
            n == cells@.len(),
            i <= n,
            forall|k: int| 0 <= k < cells@.len() ==> in_board(#[trigger] cells@[k].0 as int, cells@[k].1 as int, old(state).width(), old(state).height()),
            forall|x: int, y: int|
                0 <= x < old(state).width() && 0 <= y < old(state).height() ==> #[trigger] state.cell(x, y) == (if exists|k: int|
                    0 <= k < i && #[trigger] cells@[k] == (x as usize, y as usize) {
                    Color::Reset
                } else {
                    old(state).cell(x, y)
                }),
        decreases n - i,
    {
        let (x, y) = cells[i];
        proof {
            assert(in_board(cells@[i as int].0 as int, cells@[i as int].1 as int, old(state).width(), old(state).height()));
        }
        let ghost before = *state;
        state.set_cell(x, y, Color::Reset);
        proof {
            assert forall|xx: int, yy: int| 0 <= xx < old(state).width() && 0 <= yy < old(state).height() implies #[trigger] state.cell(xx, yy) == (
                if exists|k: int| 0 <= k < i + 1 && #[trigger] cells@[k] == (xx as usize, yy as usize) {
                    Color::Reset
                } else {
                    old(state).cell(xx, yy)
                }) by {
                if xx == x && yy == y {
                    assert(cells@[i as int] == (xx as usize, yy as usize));
                } else {
                    assert(state.cell(xx, yy) == before.cell(xx, yy));
                    if exists|k: int| 0 <= k < i + 1 && #[trigger] cells@[k] == (xx as usize, yy as usize) {
                        let k = choose|k: int| 0 <= k < i + 1 && #[trigger] cells@[k] == (xx as usize, yy as usize);
                        assert(k != i);
                    }
                }
            }
        }
        i += 1;
    }
    crate::powerup::add_gravity_task(state);
}

} // verus!
