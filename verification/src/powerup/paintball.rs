//! The paintball: spreads outwards from where it lands, one ring at a time,
//! repainting every block it reaches in the colour of the landing cell.
use vstd::prelude::*;

use crate::color::{is_filled, Color};
use crate::powerup::{dir_x, dir_y, direction, lemma_directions, neighbor};
use crate::state::State;
use crate::task::{add_task, in_board, Task, TaskAction, PAINT_RADIUS};

verus! {

/// How long each ring of paint takes, in milliseconds.
pub const PAINT_WAVE_MS: u64 = 80;

/// The paintball power-up.
#[derive(Debug, Default, PartialEq, Eq, Structural)]
pub struct PaintballPowerup {}

/// The next rings scheduled from a ring step at `(x, y)`, looking in the
/// first `d` directions: a ring `ring + 1` at each neighbour on the board
/// that does not already have the paint colour, unless the paint has gone
/// `PAINT_RADIUS` rings.
pub open spec fn paint_children(
    b: Seq<Seq<Color>>,
    w: int,
    h: int,
    x: int,
    y: int,
    ring: int,
    color: Color,
    now: int,
    d: int,
) -> Seq<Task>
    decreases d,
{
    if d <= 0 {
        Seq::empty()
    } else {
        let (nx, ny) = (x + dir_x(d - 1), y + dir_y(d - 1));
        paint_children(b, w, h, x, y, ring, color, now, d - 1) + if in_board(nx, ny, w, h) && b[nx][ny] != color && ring
            + 1 < PAINT_RADIUS {
            seq![Task { time: (now + PAINT_WAVE_MS) as u64, action: TaskAction::Paint { x: nx as i8, y: ny as i8, ring: (ring + 1) as u8, color } }]
        } else {
            Seq::empty()
        }
    }
}

/// `new` is `old` after a paintball landed at `(cx, cy)`: the first ring of
/// paint, in the colour of that cell, is scheduled.
pub open spec fn paint_start(old: &State, new: &State, cx: int, cy: int) -> bool {
    &&& new.tiles@ == old.tiles@
    &&& new.score == old.score
    &&& new.task_queue@ == old.task_queue@.push(
        Task {
            time: (old.now_ms + PAINT_WAVE_MS) as u64,
            action: TaskAction::Paint { x: cx as i8, y: cy as i8, ring: 0, color: old.cell(cx, cy) },
        },
    )
}

impl PaintballPowerup {
    /// Starts the paint spreading from `(cx, cy)` in that cell's colour.
    pub fn on_collide(&self, cx: i8, cy: i8, state: &mut State)
        requires
            old(state).wf(),
            in_board(cx as int, cy as int, old(state).width(), old(state).height()),
        ensures
            final(state).wf(),
            final(state).same_but_effects(old(state)),
            paint_start(old(state), final(state), cx as int, cy as int),
    {
        let color = state.tiles[cx as usize][cy as usize];
        Self::schedule_expansion(cx, cy, 0, color, state);
    }

    /// Schedules ring `depth` of the paint at `(x, y)`, unless the paint
    /// has gone `PAINT_RADIUS` rings.
    fn schedule_expansion(x: i8, y: i8, depth: u8, color: Color, state: &mut State)
        requires
            old(state).wf(),
            in_board(x as int, y as int, old(state).width(), old(state).height()),
            depth <= PAINT_RADIUS,
        ensures
            final(state).wf(),
            final(state).same_but_effects(old(state)),
            final(state).tiles@ == old(state).tiles@,
            final(state).score == old(state).score,
            final(state).task_queue@ == if depth == PAINT_RADIUS {
                old(state).task_queue@
            } else {
                old(state).task_queue@.push(
                    Task {
                        time: (old(state).now_ms + PAINT_WAVE_MS) as u64,
                        action: TaskAction::Paint { x, y, ring: depth, color },
                    },
                )
            },
    {
        if depth == PAINT_RADIUS {
            return;
        }
        add_task(PAINT_WAVE_MS, TaskAction::Paint { x, y, ring: depth, color }, state);
    }
}

/// `new` is `old` after one ring of paint around `(x, y)` (see
/// `paint_wave`).
pub open spec fn painted(old: &State, new: &State, x: i8, y: i8, ring: u8, color: Color) -> bool {
    &&& new.same_but_effects(old)
    &&& new.width() == old.width()
    &&& new.height() == old.height()
    &&& forall|i: int, j: int|
        0 <= i < old.width() && 0 <= j < old.height() ==> #[trigger] new.cell(i, j) == (if neighbor(
            i,
            j,
            x as int,
            y as int,
        ) && is_filled(old.cell(i, j)) {
            color
        } else {
            old.cell(i, j)
        })
    &&& new.score == old.score
    &&& new.task_queue@ == old.task_queue@ + paint_children(
        old.board(),
        old.width(),
        old.height(),
        x as int,
        y as int,
        ring as int,
        color,
        old.now_ms as int,
        8
    )
}

/// The next ring at direction `e` (one of the first `d`) is among the rings
/// scheduled, when that neighbour is on the board and not yet of the paint
/// colour.
proof fn lemma_paint_children_has(
    b: Seq<Seq<Color>>,
    w: int,
    h: int,
    x: int,
    y: int,
    ring: int,
    color: Color,
    now: int,
    d: int,
    e: int,
)
    requires
        0 <= e < d,
        in_board(x + dir_x(e), y + dir_y(e), w, h),
        b[x + dir_x(e)][y + dir_y(e)] != color,
        ring + 1 < PAINT_RADIUS,
    ensures
        exists|k: int|
            0 <= k < paint_children(b, w, h, x, y, ring, color, now, d).len() && #[trigger] paint_children(
                b,
                w,
                h,
                x,
                y,
                ring,
                color,
                now,
                d,
            )[k] == (Task {
                time: (now + PAINT_WAVE_MS) as u64,
                action: TaskAction::Paint {
                    x: (x + dir_x(e)) as i8,
                    y: (y + dir_y(e)) as i8,
                    ring: (ring + 1) as u8,
                    color,
                },
            }),
    decreases d,
{
    let prev = paint_children(b, w, h, x, y, ring, color, now, d - 1);
    let all = paint_children(b, w, h, x, y, ring, color, now, d);
    if e == d - 1 {
        assert(all[prev.len() as int] == (Task {
            time: (now + PAINT_WAVE_MS) as u64,
            action: TaskAction::Paint {
                x: (x + dir_x(e)) as i8,
                y: (y + dir_y(e)) as i8,
                ring: (ring + 1) as u8,
                color,
            },
        }));
    } else {
        lemma_paint_children_has(b, w, h, x, y, ring, color, now, d - 1, e);
        let k = choose|k: int| 0 <= k < prev.len() && #[trigger] prev[k] == (Task {
            time: (now + PAINT_WAVE_MS) as u64,
            action: TaskAction::Paint {
                x: (x + dir_x(e)) as i8,
                y: (y + dir_y(e)) as i8,
                ring: (ring + 1) as u8,
                color,
            },
        });
        assert(all[k] == prev[k]);
    }
}

/// Every ring scheduled from a ring step is at a neighbour, among the first
/// `d` directions, that is on the board and not of the paint colour.
proof fn lemma_paint_children_only(
    b: Seq<Seq<Color>>,
    w: int,
    h: int,
    x: int,
    y: int,
    ring: int,
    color: Color,
    now: int,
    d: int,
)
    requires
        d <= 8,
    ensures
        forall|k: int|
            0 <= k < paint_children(b, w, h, x, y, ring, color, now, d).len() ==> exists|e: int|
                0 <= e < d && in_board(x + dir_x(e), y + dir_y(e), w, h) && b[x + dir_x(e)][y + dir_y(e)] != color
                    && ring + 1 < PAINT_RADIUS && #[trigger] paint_children(b, w, h, x, y, ring, color, now, d)[k] == (Task {
                    time: (now + PAINT_WAVE_MS) as u64,
                    action: TaskAction::Paint {
                        x: (x + dir_x(e)) as i8,
                        y: (y + dir_y(e)) as i8,
                        ring: (ring + 1) as u8,
                        color,
                    },
                }),
    decreases d,
{
    if d > 0 {
        lemma_paint_children_only(b, w, h, x, y, ring, color, now, d - 1);
        let prev = paint_children(b, w, h, x, y, ring, color, now, d - 1);
        let all = paint_children(b, w, h, x, y, ring, color, now, d);
        assert forall|k: int| 0 <= k < all.len() implies exists|e: int|
            0 <= e < d && in_board(x + dir_x(e), y + dir_y(e), w, h) && b[x + dir_x(e)][y + dir_y(e)] != color && ring
                + 1 < PAINT_RADIUS && #[trigger] all[k] == (Task {
                time: (now + PAINT_WAVE_MS) as u64,
                action: TaskAction::Paint {
                    x: (x + dir_x(e)) as i8,
                    y: (y + dir_y(e)) as i8,
                    ring: (ring + 1) as u8,
                    color,
                },
            }) by {
            if k < prev.len() {
                assert(all[k] == prev[k]);
            } else {
                assert(all[k] == (Task {
                    time: (now + PAINT_WAVE_MS) as u64,
                    action: TaskAction::Paint {
                        x: (x + dir_x(d - 1)) as i8,
                        y: (y + dir_y(d - 1)) as i8,
                        ring: (ring + 1) as u8,
                        color,
                    },
                }));
            }
        }
    }
}

/// Paint spreads only to cells around the ring that are on the board and
/// not yet of its colour, one ring further, and only before its last ring.
pub proof fn lemma_paint_spreads_only_to_other_colours(
    old: &State,
    new: &State,
    x: i8,
    y: i8,
    ring: u8,
    color: Color,
)
    requires
        old.board_wf(),
        painted(old, new, x, y, ring, color),
    ensures
        forall|k: int|
            old.task_queue@.len() <= k < new.task_queue@.len() ==> exists|nx: int, ny: int|
                neighbor(nx, ny, x as int, y as int) && 0 <= nx < old.width() && 0 <= ny < old.height() && old.tiles@[nx]@[ny]
                    != color && ring + 1 < PAINT_RADIUS && #[trigger] new.task_queue@[k] == (Task {
                    time: (old.now_ms + PAINT_WAVE_MS) as u64,
                    action: TaskAction::Paint { x: nx as i8, y: ny as i8, ring: (ring + 1) as u8, color },
                }),
{
    let (w, h) = (old.width(), old.height());
    let b = old.board();
    let now = old.now_ms as int;
    let c = paint_children(b, w, h, x as int, y as int, ring as int, color, now, 8);
    lemma_directions(x as int, y as int);
    lemma_paint_children_only(b, w, h, x as int, y as int, ring as int, color, now, 8);
    assert forall|k: int| old.task_queue@.len() <= k < new.task_queue@.len() implies exists|nx: int, ny: int|
        neighbor(nx, ny, x as int, y as int) && 0 <= nx < w && 0 <= ny < h && old.tiles@[nx]@[ny] != color && ring + 1
            < PAINT_RADIUS && #[trigger] new.task_queue@[k] == (Task {
            time: (old.now_ms + PAINT_WAVE_MS) as u64,
            action: TaskAction::Paint { x: nx as i8, y: ny as i8, ring: (ring + 1) as u8, color },
        }) by {
        let i = k - old.task_queue@.len();
        assert(new.task_queue@[k] == c[i]);
        let e = choose|e: int|
            0 <= e < 8 && in_board(x + dir_x(e), y + dir_y(e), w, h) && b[x + dir_x(e)][y + dir_y(e)] != color && ring + 1
                < PAINT_RADIUS && #[trigger] c[i] == (Task {
                time: (now + PAINT_WAVE_MS) as u64,
                action: TaskAction::Paint {
                    x: (x + dir_x(e)) as i8,
                    y: (y + dir_y(e)) as i8,
                    ring: (ring + 1) as u8,
                    color,
                },
            });
        let (nx, ny) = (x + dir_x(e), y + dir_y(e));
        assert(b[nx][ny] == old.tiles@[nx]@[ny]);
        assert(neighbor(nx, ny, x as int, y as int));
    }
}

/// Paint spreads through every cell around a ring that is not yet of its
/// colour, empty cells included: unless the paint has gone its last ring,
/// a ring at `(x, y)` schedules the next ring, `PAINT_WAVE_MS` later, at
/// each neighbour on the board whose colour differs from the paint.
pub proof fn lemma_paint_spreads_to_every_other_colour(
    old: &State,
    new: &State,
    x: i8,
    y: i8,
    ring: u8,
    color: Color,
)
    requires
        old.board_wf(),
        painted(old, new, x, y, ring, color),
        ring + 1 < PAINT_RADIUS,
    ensures
        forall|nx: int, ny: int|
            neighbor(nx, ny, x as int, y as int) && 0 <= nx < old.width() && 0 <= ny < old.height() && #[trigger] old.tiles@[nx]@[ny]
                != color ==> exists|k: int|
                old.task_queue@.len() <= k < new.task_queue@.len() && #[trigger] new.task_queue@[k] == (Task {
                    time: (old.now_ms + PAINT_WAVE_MS) as u64,
                    action: TaskAction::Paint { x: nx as i8, y: ny as i8, ring: (ring + 1) as u8, color },
                }),
{
    let (w, h) = (old.width(), old.height());
    let b = old.board();
    let now = old.now_ms as int;
    lemma_directions(x as int, y as int);
    assert forall|nx: int, ny: int|
        neighbor(nx, ny, x as int, y as int) && 0 <= nx < w && 0 <= ny < h && #[trigger] old.tiles@[nx]@[ny] != color implies exists|k: int|
        old.task_queue@.len() <= k < new.task_queue@.len() && #[trigger] new.task_queue@[k] == (Task {
            time: (old.now_ms + PAINT_WAVE_MS) as u64,
            action: TaskAction::Paint { x: nx as i8, y: ny as i8, ring: (ring + 1) as u8, color },
        }) by {
        let e = choose|e: int| 0 <= e < 8 && nx == x + #[trigger] dir_x(e) && ny == y + dir_y(e);
        assert(b[nx][ny] == old.tiles@[nx]@[ny]);
        lemma_paint_children_has(b, w, h, x as int, y as int, ring as int, color, now, 8, e);
        let c = paint_children(b, w, h, x as int, y as int, ring as int, color, now, 8);
        let k = choose|k: int| 0 <= k < c.len() && #[trigger] c[k] == (Task {
            time: (now + PAINT_WAVE_MS) as u64,
            action: TaskAction::Paint {
                x: (x + dir_x(e)) as i8,
                y: (y + dir_y(e)) as i8,
                ring: (ring + 1) as u8,
                color,
            },
        });
        assert(new.task_queue@[old.task_queue@.len() + k] == c[k]);
    }
}

/// One ring of paint around `(x, y)`: every block in the eight cells around
/// it takes the paint colour, and the next ring is scheduled from each of
/// those cells on the board that did not already have it.
pub fn paint_wave(x: i8, y: i8, ring: u8, color: Color, state: &mut State)
    requires
        old(state).wf(),
        in_board(x as int, y as int, old(state).width(), old(state).height()),
        ring < PAINT_RADIUS,
    ensures
        final(state).wf(),
        painted(old(state), final(state), x, y, ring, color),
{
    let w = state.tiles.len();
    let h = state.tiles[0].len();
    let ghost b = old(state).board();
    proof {
        lemma_directions(x as int, y as int);
    }
    let mut d: usize = 0;
    while d < 8
        invariant
            state.wf(),
            state.same_but_effects(old(state)),
            state.width() == old(state).width(),
            state.height() == old(state).height(),
            w == state.width(),
            h == state.height(),
            b == old(state).board(),
            in_board(x as int, y as int, w as int, h as int),
            ring < PAINT_RADIUS,
            d <= 8,
            forall|e: int, f: int|
                0 <= e < 8 && 0 <= f < 8 && e != f ==> !(#[trigger] dir_x(e) == #[trigger] dir_x(f) && dir_y(e) == dir_y(f)),
            forall|i: int, j: int|
                0 <= i < w && 0 <= j < h ==> #[trigger] state.cell(i, j) == (if (exists|e: int|
                    0 <= e < d && i == x + #[trigger] dir_x(e) && j == y + dir_y(e)) && is_filled(old(state).cell(i, j)) {
                    color
                } else {
                    old(state).cell(i, j)
                }),
            state.score == old(state).score,
            state.task_queue@ == old(state).task_queue@ + paint_children(
                b,
                w as int,
                h as int,
                x as int,
                y as int,
                ring as int,
                color,
                old(state).now_ms as int,
                d as int,
            ),
        decreases 8 - d,
    {
        let (dx, dy) = direction(d);
        let new_x = x + dx;
        let new_y = y + dy;
        let ghost before = *state;
        if new_x >= 0 && (new_x as usize) < w && new_y >= 0 && (new_y as usize) < h {
            let (nxu, nyu) = (new_x as usize, new_y as usize);
            proof {
                assert forall|e: int| 0 <= e < d implies !(nxu == x + #[trigger] dir_x(e) && nyu == y + dir_y(e)) by {
                    assert(dir_x(e) != dir_x(d as int) || dir_y(e) != dir_y(d as int));
                }
                assert(state.cell(nxu as int, nyu as int) == old(state).cell(nxu as int, nyu as int));
            }
            if state.tiles[nxu][nyu] != color {
                if state.tiles[nxu][nyu].has_tile() {
                    state.set_cell(nxu, nyu, color);
                }
                let ghost mid = *state;
                PaintballPowerup::schedule_expansion(new_x, new_y, ring + 1, color, state);
                proof {
                    assert(state.task_queue@ =~= old(state).task_queue@ + paint_children(
                        b, w as int, h as int, x as int, y as int, ring as int, color, old(state).now_ms as int, d + 1,
                    ));
                }
            } else {
                proof {
                    assert(state.task_queue@ =~= old(state).task_queue@ + paint_children(
                        b, w as int, h as int, x as int, y as int, ring as int, color, old(state).now_ms as int, d + 1,
                    ));
                }
            }
        } else {
            proof {
                assert(state.task_queue@ =~= old(state).task_queue@ + paint_children(
                    b, w as int, h as int, x as int, y as int, ring as int, color, old(state).now_ms as int, d + 1,
                ));
            }
        }
        proof {
            assert forall|i: int, j: int| 0 <= i < w && 0 <= j < h implies #[trigger] state.cell(i, j) == (if (exists|e: int|
                0 <= e < d + 1 && i == x + #[trigger] dir_x(e) && j == y + dir_y(e)) && is_filled(old(state).cell(i, j)) {
                color
            } else {
                old(state).cell(i, j)
            }) by {
                if i == x + dir_x(d as int) && j == y + dir_y(d as int) {
                } else {
                    if exists|e: int| 0 <= e < d + 1 && i == x + #[trigger] dir_x(e) && j == y + dir_y(e) {
                        let e = choose|e: int| 0 <= e < d + 1 && i == x + #[trigger] dir_x(e) && j == y + dir_y(e);
                        assert(e < d);
                    }
                }
            }
        }
        d += 1;
    }
    proof {
        assert forall|i: int, j: int| 0 <= i < w && 0 <= j < h implies (exists|e: int|
            0 <= e < 8 && i == x + #[trigger] dir_x(e) && j == y + dir_y(e)) == neighbor(i, j, x as int, y as int) by {
            if exists|e: int| 0 <= e < 8 && i == x + #[trigger] dir_x(e) && j == y + dir_y(e) {
                let e = choose|e: int| 0 <= e < 8 && i == x + #[trigger] dir_x(e) && j == y + dir_y(e);
                assert(neighbor(x + dir_x(e), y + dir_y(e), x as int, y as int));
            }
        }
    }
}

} // verus!
