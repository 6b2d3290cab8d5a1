//! Delayed work: power-up effects unfold over time and pieces fall on a
//! timer.  A task is plain data, run by `update_tasks` once it is due.
use vstd::prelude::*;

use crate::color::Color;
use crate::powerup::bomb::{cells_cleared, clear_cells};
use crate::powerup::paintball::{paint_children, paint_wave, painted, PAINT_WAVE_MS};
use crate::powerup::roller::{
    cell_cleared, clear_cell, reach_tasks, roll_children, roll_wave, rolled, ROLL_DELETE_MS, ROLL_STEP_DELETE_MS,
    ROLL_WAVE_MS,
};
use crate::powerup::{add_gravity_task, settle_scheduled, settle_step, settle_stepped};
use crate::screen::game::{fall, fell};
use crate::state::{State, MAX_DELAY_MS, MAX_TIME_MS};

verus! {

/// How many rings a paintball spreads.
pub const PAINT_RADIUS: u8 = 4;

/// Something to do later.
#[derive(Debug)]
pub enum TaskAction {
    /// The piece, or the armed power-up, drops one row; then the next drop
    /// is scheduled.
    Fall,
    /// Every column with a gap under a block slides down one cell; while
    /// anything moved, another step is scheduled.
    Settle,
    /// Schedules the first `Settle` step.
    StartSettling,
    /// Empties the listed cells (left by a bomb), then starts settling.
    ClearCells(Vec<(usize, usize)>),
    /// One ring of a paintball's spread, around cell `(x, y)`.
    Paint { x: i8, y: i8, ring: u8, color: Color },
    /// Empties one cell (left by a roller).
    ClearCell { x: i8, y: i8 },
    /// One step of a roller's spread from cell `(x, y)`.
    Roll { x: i8, y: i8, depth: i8, color: Color },
}

/// A task and the time (in milliseconds of game time) it is due.
#[derive(Debug)]
pub struct Task {
    pub time: u64,
    pub action: TaskAction,
}

/// `(x, y)` is a cell of a `w` by `h` board.
pub open spec fn in_board(x: int, y: int, w: int, h: int) -> bool {
    0 <= x < w && 0 <= y < h
}

/// The cells a task touches lie on a `w` by `h` board.
pub open spec fn action_wf(a: TaskAction, w: int, h: int) -> bool {
    match a {
        TaskAction::ClearCells(cells) => forall|i: int|
            0 <= i < cells@.len() ==> in_board(#[trigger] cells@[i].0 as int, cells@[i].1 as int, w, h),
        TaskAction::Paint { x, y, ring, color } => in_board(x as int, y as int, w, h) && ring < PAINT_RADIUS,
        TaskAction::ClearCell { x, y } => in_board(x as int, y as int, w, h),
        TaskAction::Roll { x, y, depth, color } => in_board(x as int, y as int, w, h) && depth >= 1,
        _ => true,
    }
}

/// Schedules `action` to run `time` milliseconds after the current frame.
pub fn add_task(time: u64, action: TaskAction, state: &mut State)
    requires
        old(state).wf(),
        time <= MAX_DELAY_MS,
        action_wf(action, old(state).width(), old(state).height()),
    ensures
        final(state).wf(),
        final(state).task_queue@ == old(state).task_queue@.push(Task { time: (old(state).now_ms + time) as u64, action }),
        final(state).tiles@ == old(state).tiles@,
        final(state).score == old(state).score,
        final(state).same_but_effects(old(state)),
{
    let t = Task { time: state.now_ms + time, action };
    state.task_queue.push(t);
}

/// How many tasks of `q` are due at `now`.
pub open spec fn count_due(q: Seq<Task>, now: int) -> nat
    decreases q.len(),
{
    if q.len() == 0 {
        0
    } else {
        count_due(q.drop_last(), now) + if q.last().time <= now {
            1nat
        } else {
            0nat
        }
    }
}

/// Counting due tasks adds up over concatenation.
pub proof fn lemma_count_due_add(a: Seq<Task>, b: Seq<Task>, now: int)
    ensures
        count_due(a + b, now) == count_due(a, now) + count_due(b, now),
    decreases b.len(),
{
    if b.len() > 0 {
        lemma_count_due_add(a, b.drop_last(), now);
        assert((a + b).drop_last() =~= a + b.drop_last());
    } else {
        assert(a + b =~= a);
    }
}

/// A queue with no task due at `now` has none to count, and the other way
/// round.
pub proof fn lemma_count_due_zero(q: Seq<Task>, now: int)
    ensures
        (forall|i: int| 0 <= i < q.len() ==> (#[trigger] q[i]).time > now) <==> count_due(q, now) == 0,
    decreases q.len(),
{
    if q.len() > 0 {
        lemma_count_due_zero(q.drop_last(), now);
        if count_due(q, now) == 0 {
            assert forall|i: int| 0 <= i < q.len() implies (#[trigger] q[i]).time > now by {
                if i < q.len() - 1 {
                    assert(q[i] == q.drop_last()[i]);
                }
            }
        }
        if forall|i: int| 0 <= i < q.len() ==> (#[trigger] q[i]).time > now {
            assert forall|i: int| 0 <= i < q.drop_last().len() implies (#[trigger] q.drop_last()[i]).time > now by {
                assert(q.drop_last()[i] == q[i]);
            }
        }
    }
}

/// Removing a task from the queue removes it from the count when it is due.
pub proof fn lemma_count_due_remove(q: Seq<Task>, i: int, now: int)
    requires
        0 <= i < q.len(),
    ensures
        count_due(q.remove(i), now) + (if q[i].time <= now { 1int } else { 0int }) == count_due(q, now),
{
    let a = q.subrange(0, i);
    let b = q.subrange(i + 1, q.len() as int);
    assert(q.remove(i) =~= a + b);
    assert(q =~= a + seq![q[i]] + b);
    lemma_count_due_add(a, b, now);
    lemma_count_due_add(a + seq![q[i]], b, now);
    lemma_count_due_add(a, seq![q[i]], now);
    assert(seq![q[i]].drop_last() =~= Seq::<Task>::empty());
    assert(count_due(Seq::<Task>::empty(), now) == 0);
    assert(count_due(seq![q[i]], now) == (if q[i].time <= now { 1int } else { 0int }));
}

/// `new_q` is `old_q` with tasks added at its end, all due after `now`.
pub open spec fn extends_later(old_q: Seq<Task>, new_q: Seq<Task>, now: int) -> bool {
    &&& old_q.len() <= new_q.len()
    &&& new_q.subrange(0, old_q.len() as int) == old_q
    &&& forall|i: int| old_q.len() <= i < new_q.len() ==> (#[trigger] new_q[i]).time > now
}

/// Every ring scheduled by a paint step is due `PAINT_WAVE_MS` later.
proof fn lemma_paint_children_later(
    b: Seq<Seq<crate::color::Color>>,
    w: int,
    h: int,
    x: int,
    y: int,
    ring: int,
    color: crate::color::Color,
    now: int,
    d: int,
)
    requires
        0 <= now <= MAX_TIME_MS,
    ensures
        forall|i: int| 0 <= i < paint_children(b, w, h, x, y, ring, color, now, d).len()
            ==> (#[trigger] paint_children(b, w, h, x, y, ring, color, now, d)[i]).time == now + PAINT_WAVE_MS,
    decreases d,
{
    if d > 0 {
        lemma_paint_children_later(b, w, h, x, y, ring, color, now, d - 1);
    }
}

/// Every task scheduled by a roll step is due later than now.
proof fn lemma_roll_children_later(
    b: Seq<Seq<crate::color::Color>>,
    w: int,
    h: int,
    x: int,
    y: int,
    depth: int,
    color: crate::color::Color,
    now: int,
    d: int,
)
    requires
        0 <= now <= MAX_TIME_MS,
        1 <= depth <= i8::MAX,
    ensures
        forall|i: int| 0 <= i < roll_children(b, w, h, x, y, depth, color, now, d).len()
            ==> (#[trigger] roll_children(b, w, h, x, y, depth, color, now, d)[i]).time > now,
    decreases d,
{
    if d > 0 {
        lemma_roll_children_later(b, w, h, x, y, depth, color, now, d - 1);
        let (nx, ny) = (x + crate::powerup::dir_x(d - 1), y + crate::powerup::dir_y(d - 1));
        let r = reach_tasks(nx, ny, color, depth, now);
        assert(r[0].time == now + ROLL_DELETE_MS + depth * ROLL_STEP_DELETE_MS) by (nonlinear_arith)
            requires
                r[0].time == (now + ROLL_DELETE_MS + depth * ROLL_STEP_DELETE_MS) as u64,
                0 <= now <= MAX_TIME_MS,
                1 <= depth <= i8::MAX,
        ;
    }
}

/// `new` is `old` after running `action` (see `TaskAction`).
pub open spec fn ran(action: TaskAction, old: &State, new: &State) -> bool {
    match action {
        TaskAction::Fall => fell(old, new),
        TaskAction::Settle => settle_stepped(old, new),
        TaskAction::StartSettling => settle_scheduled(old, new),
        TaskAction::ClearCells(cells) => cells_cleared(old, new, cells@),
        TaskAction::Paint { x, y, ring, color } => painted(old, new, x, y, ring, color),
        TaskAction::ClearCell { x, y } => cell_cleared(old, new, x, y),
        TaskAction::Roll { x, y, depth, color } => rolled(old, new, x, y, depth, color),
    }
}

/// Runs one task (see `TaskAction`).
pub fn run_task(action: TaskAction, state: &mut State)
    requires
        old(state).wf(),
        action_wf(action, old(state).width(), old(state).height()),
    ensures
        final(state).wf(),
        final(state).width() == old(state).width(),
        final(state).height() == old(state).height(),
        final(state).now_ms == old(state).now_ms,
        extends_later(old(state).task_queue@, final(state).task_queue@, old(state).now_ms as int),
        ran(action, old(state), final(state)),
{
    let ghost now = state.now_ms as int;
    let ghost q = state.task_queue@;
    match action {
        TaskAction::Fall => {
            fall(state);
            proof {
                assert(state.task_queue@.subrange(0, q.len() as int) =~= q);
            }
        },
        TaskAction::Settle => {
            settle_step(state);
            proof {
                assert(state.task_queue@.subrange(0, q.len() as int) =~= q);
            }
        },
        TaskAction::StartSettling => {
            add_gravity_task(state);
            proof {
                assert(state.task_queue@.subrange(0, q.len() as int) =~= q);
            }
        },
        TaskAction::ClearCells(cells) => {
            clear_cells(cells, state);
            proof {
                assert(state.task_queue@.subrange(0, q.len() as int) =~= q);
            }
        },
        TaskAction::Paint { x, y, ring, color } => {
            let ghost b = state.board();
            let ghost (w, h) = (state.width(), state.height());
            paint_wave(x, y, ring, color, state);
            proof {
                lemma_paint_children_later(b, w, h, x as int, y as int, ring as int, color, now, 8);
                assert(state.task_queue@.subrange(0, q.len() as int) =~= q);
                let c = paint_children(b, w, h, x as int, y as int, ring as int, color, now, 8);
                assert forall|i: int| q.len() <= i < state.task_queue@.len() implies (#[trigger] state.task_queue@[i]).time > now by {
                    assert(state.task_queue@[i] == c[i - q.len()]);
                }
            }
        },
        TaskAction::ClearCell { x, y } => {
            clear_cell(x, y, state);
            proof {
                assert(state.task_queue@.subrange(0, q.len() as int) =~= q);
            }
        },
        TaskAction::Roll { x, y, depth, color } => {
            let ghost b = state.board();
            let ghost (w, h) = (state.width(), state.height());
            roll_wave(x, y, depth, color, state);
            proof {
                lemma_roll_children_later(b, w, h, x as int, y as int, depth as int, color, now, 8);
                assert(state.task_queue@.subrange(0, q.len() as int) =~= q);
                let c = roll_children(b, w, h, x as int, y as int, depth as int, color, now, 8);
                assert forall|i: int| q.len() <= i < state.task_queue@.len() implies (#[trigger] state.task_queue@[i]).time > now by {
                    assert(state.task_queue@[i] == c[i - q.len()]);
                }
            }
        },
    }
}

/// Task `i` of `q` runs first: none is due earlier, and none added before
/// it is due at the same time.
pub open spec fn runs_first(q: Seq<Task>, i: int) -> bool {
    &&& 0 <= i < q.len()
    &&& forall|j: int| 0 <= j < q.len() ==> q[i].time <= (#[trigger] q[j]).time
    &&& forall|j: int| 0 <= j < i ==> q[i].time < (#[trigger] q[j]).time
}

/// `new` is `old` with task `i` taken out of its queue.
pub open spec fn taken_out(old: &State, new: &State, i: int) -> bool {
    &&& new.task_queue@ == old.task_queue@.remove(i)
    &&& new.tiles@ == old.tiles@
    &&& new.score == old.score
    &&& new.same_but_effects(old)
}

/// `new` is `old` after `steps` rounds of taking out the task that runs
/// first, due by `now`, and running it.
pub open spec fn ran_due(old: &State, new: &State, now: int, steps: nat) -> bool
    decreases steps,
{
    if steps == 0 {
        *new == *old
    } else {
        exists|i: int, taken: State, mid: State|
            #![trigger taken_out(old, &taken, i), ran(old.task_queue@[i].action, &taken, &mid)]
            {
                &&& runs_first(old.task_queue@, i)
                &&& old.task_queue@[i].time <= now
                &&& taken_out(old, &taken, i)
                &&& ran(old.task_queue@[i].action, &taken, &mid)
                &&& mid.wf()
                &&& ran_due(&mid, new, now, (steps - 1) as nat)
            }
    }
}

/// One more round after `steps` rounds makes `steps + 1`.
proof fn lemma_ran_due_step(a: State, b: State, c: State, now: int, steps: nat, i: int, taken: State)
    requires
        ran_due(&a, &b, now, steps),
        runs_first(b.task_queue@, i),
        b.task_queue@[i].time <= now,
        taken_out(&b, &taken, i),
        ran(b.task_queue@[i].action, &taken, &c),
        c.wf(),
    ensures
        ran_due(&a, &c, now, steps + 1),
    decreases steps,
{
    if steps == 0 {
        assert(b == a);
        assert(ran_due(&c, &c, now, 0));
        assert(taken_out(&a, &taken, i));
        assert(ran(a.task_queue@[i].action, &taken, &c));
    } else {
        let (i0, t0, m0) = choose|i0: int, t0: State, m0: State|
            #![trigger taken_out(&a, &t0, i0), ran(a.task_queue@[i0].action, &t0, &m0)]
            {
                &&& runs_first(a.task_queue@, i0)
                &&& a.task_queue@[i0].time <= now
                &&& taken_out(&a, &t0, i0)
                &&& ran(a.task_queue@[i0].action, &t0, &m0)
                &&& m0.wf()
                &&& ran_due(&m0, &b, now, (steps - 1) as nat)
            };
        lemma_ran_due_step(m0, b, c, now, (steps - 1) as nat, i, taken);
        assert(taken_out(&a, &t0, i0));
        assert(ran(a.task_queue@[i0].action, &t0, &m0));
    }
}

/// The index of a task with the earliest due time in a non-empty queue.
fn earliest(q: &Vec<Task>) -> (r: usize)
    requires
        q@.len() > 0,
    ensures
        runs_first(q@, r as int),
{
    let mut best: usize = 0;
    let mut i: usize = 1;
    while i < q.len()
        invariant
            q@.len() > 0,
            best < q@.len(),
            1 <= i <= q@.len(),
            forall|j: int| 0 <= j < i ==> q@[best as int].time <= (#[trigger] q@[j]).time,
            forall|j: int| 0 <= j < best ==> q@[best as int].time < (#[trigger] q@[j]).time,
        decreases q@.len() - i,
    {
        if q[i].time < q[best].time {
            best = i;
        }
        i += 1;
    }
    best
}

/// Advances game time to `now` and runs every task due by then, earliest
/// first (tasks due at the same time run in the order they were added);
/// tasks the run ones schedule are due later than `now`, so they wait.  A
/// paused game is left as it is: its time stands still and nothing runs.
pub fn update_tasks(state: &mut State, now: u64)
    requires
        old(state).wf(),
        now <= MAX_TIME_MS,
    ensures
        final(state).wf(),
        old(state).paused ==> *final(state) == *old(state),
        !old(state).paused ==> {
            &&& final(state).now_ms == now
            &&& final(state).width() == old(state).width()
            &&& final(state).height() == old(state).height()
            &&& ran_due(
                &State { now_ms: now, ..*old(state) },
                final(state),
                now as int,
                count_due(old(state).task_queue@, now as int),
            )
            &&& forall|i: int|
                0 <= i < final(state).task_queue@.len() ==> (#[trigger] final(state).task_queue@[i]).time > now
            &&& (forall|i: int| 0 <= i < old(state).task_queue@.len() ==> (#[trigger] old(state).task_queue@[i]).time > now)
                ==> *final(state) == (State { now_ms: now, ..*old(state) })
        },
{
    if state.paused {
        return;
    }
    state.now_ms = now;
    let ghost start = *state;
    let ghost mut steps: nat = 0;
    proof {
        lemma_count_due_zero(old(state).task_queue@, now as int);
        assert(ran_due(&start, state, now as int, 0));
    }
    loop
        invariant
            state.wf(),
            state.now_ms == now,
            state.width() == old(state).width(),
            state.height() == old(state).height(),
            start == (State { now_ms: now, ..*old(state) }),
            ran_due(&start, state, now as int, steps),
            steps + count_due(state.task_queue@, now as int) == count_due(old(state).task_queue@, now as int),
        ensures
            state.wf(),
            state.now_ms == now,
            state.width() == old(state).width(),
            state.height() == old(state).height(),
            ran_due(&start, state, now as int, steps),
            steps == count_due(old(state).task_queue@, now as int),
            forall|i: int| 0 <= i < state.task_queue@.len() ==> (#[trigger] state.task_queue@[i]).time > now,
        decreases count_due(state.task_queue@, now as int),
    {
        proof {
            lemma_count_due_zero(state.task_queue@, now as int);
        }
        if state.task_queue.len() == 0 {
            break;
        }
        let best = earliest(&state.task_queue);
        if state.task_queue[best].time > now {
            break;
        }
        let ghost prev = *state;
        let ghost q = state.task_queue@;
        let task = state.task_queue.remove(best);
        let ghost taken = *state;
        proof {
            lemma_count_due_remove(q, best as int, now as int);
            assert(state.wf());
            assert(taken_out(&prev, &taken, best as int));
        }
        let ghost q1 = state.task_queue@;
        run_task(task.action, state);
        proof {
            let q2 = state.task_queue@;
            let extra = q2.subrange(q1.len() as int, q2.len() as int);
            assert(q2 =~= q1 + extra);
            lemma_count_due_add(q1, extra, now as int);
            lemma_count_due_zero(extra, now as int);
            lemma_ran_due_step(start, prev, *state, now as int, steps, best as int, taken);
            steps = steps + 1;
        }
    }
    proof {
        lemma_count_due_zero(state.task_queue@, now as int);
        lemma_count_due_zero(old(state).task_queue@, now as int);
    }
}

/// No task lowers the score.
pub proof fn lemma_task_keeps_score(action: TaskAction, old: &State, new: &State)
    requires
        ran(action, old, new),
    ensures
        new.score >= old.score,
{
}

/// The score never drops while the due tasks run: after `update_tasks`
/// it is at least what it was.
pub proof fn lemma_due_tasks_keep_score(old: &State, new: &State, now: int, steps: nat)
    requires
        ran_due(old, new, now, steps),
    ensures
        new.score >= old.score,
    decreases steps,
{
    if steps > 0 {
        let (i, taken, mid) = choose|i: int, taken: State, mid: State|
            #![trigger taken_out(old, &taken, i), ran(old.task_queue@[i].action, &taken, &mid)]
            {
                &&& runs_first(old.task_queue@, i)
                &&& old.task_queue@[i].time <= now
                &&& taken_out(old, &taken, i)
                &&& ran(old.task_queue@[i].action, &taken, &mid)
                &&& mid.wf()
                &&& ran_due(&mid, new, now, (steps - 1) as nat)
            };
        lemma_task_keeps_score(old.task_queue@[i].action, &taken, &mid);
        lemma_due_tasks_keep_score(&mid, new, now, (steps - 1) as nat);
    }
}

} // verus!
