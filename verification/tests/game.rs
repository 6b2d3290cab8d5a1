use cursed_tetris::color::Color;
use cursed_tetris::config::{default_config, Config};
use cursed_tetris::piece::{Piece, QUEUE_SIZE};
use cursed_tetris::powerup::{BombPowerup, PowerUpType};
use cursed_tetris::screen::game::{fall, GameScreen};
use cursed_tetris::screen::{AppScreen, Key};
use cursed_tetris::state::{FieldCell, Pacing, State, NEXT_LOOKUP};
use cursed_tetris::task::{add_task, update_tasks, TaskAction};

fn pacing() -> Pacing {
    Pacing { levelup_pieces: 16, gravity_ms: 750 }
}

/// A fresh default game whose current piece is `id`.
fn game_with(id: usize) -> State {
    let mut state = State::new(&default_config(), pacing(), 0);
    let j = state.piece_queue.iter().position(|p| p.id == id).unwrap();
    state.piece_queue.swap(0, j);
    state
}

fn count_ids(queue: &[Piece]) -> [usize; 7] {
    let mut counts = [0; 7];
    for p in queue {
        counts[p.id] += 1;
    }
    counts
}

#[test]
fn a_new_game_is_empty_and_at_the_starting_level() {
    let config = Config { start_level: 4, ..default_config() };
    let state = State::new(&config, pacing(), 1234);
    assert_eq!(state.tiles.len(), 10);
    assert!(state.tiles.iter().all(|c| c.len() == 20 && c.iter().all(|&t| t == Color::Reset)));
    assert_eq!(state.score, 0);
    assert_eq!(state.level, 4);
    assert_eq!(state.levelup_pieces, 16);
    assert_eq!(state.gravity_ms, 750);
    assert_eq!(state.now_ms, 1234);
    assert_eq!(state.piece_queue_ind, 0);
    assert_eq!(state.powerup.count, 5);
    assert_eq!(state.powerup.p_type, PowerUpType::Inactive);
    assert!(state.task_queue.is_empty());
    assert!(!state.game_ended);
}

#[test]
fn the_queue_holds_every_piece_twice_and_the_first_three_once_more() {
    let queue = State::create_pieces();
    assert_eq!(queue.len(), QUEUE_SIZE);
    assert_eq!(count_ids(&queue), [3, 3, 3, 2, 2, 2, 2]);
    assert!(queue.iter().all(|p| p.pos == [5, 19] && p.layout == Piece::from_id(p.id).layout));
}

#[test]
fn next_piece_walks_the_queue_and_wraps() {
    let mut state = game_with(0);
    for k in 1..(QUEUE_SIZE - NEXT_LOOKUP) {
        state.next_piece(pacing());
        assert_eq!(state.piece_queue_ind, k);
    }
    let lookahead: Vec<usize> =
        state.piece_queue[QUEUE_SIZE - NEXT_LOOKUP..].iter().map(|p| p.id).collect();
    state.next_piece(pacing());
    assert_eq!(state.piece_queue_ind, 0);
    let front: Vec<usize> = state.piece_queue[..NEXT_LOOKUP].iter().map(|p| p.id).collect();
    assert_eq!(front, lookahead);
    assert_eq!(count_ids(&state.piece_queue), [3, 3, 3, 2, 2, 2, 2]);
    assert_eq!(state.placed_pieces, 14);
}

#[test]
fn placing_more_pieces_than_the_level_needs_levels_up() {
    let mut state = game_with(0);
    state.level = 2;
    state.placed_pieces = 16;
    let faster = Pacing { levelup_pieces: 40, gravity_ms: 500 };
    state.next_piece(faster);
    assert_eq!(state.level, 3);
    assert_eq!(state.score, 30);
    assert_eq!(state.levelup_pieces, 40);
    assert_eq!(state.gravity_ms, 500);
    // Every third level brings a power-up.
    assert_eq!(state.powerup.count, 6);
}

#[test]
fn a_full_row_is_deleted_and_the_rows_above_slide_down() {
    let mut state = game_with(0);
    for x in 0..10 {
        state.tiles[x][0] = Color::Red;
    }
    state.tiles[3][1] = Color::Green;
    state.tiles[3][2] = Color::Blue;
    state.check_rows();
    assert_eq!(state.score, 10);
    assert_eq!(state.tiles[3][0], Color::Green);
    assert_eq!(state.tiles[3][1], Color::Blue);
    assert_eq!(state.tiles[3][2], Color::Reset);
    assert_eq!(state.tiles[0][0], Color::Reset);
    assert!(!state.game_ended);
}

#[test]
fn a_block_in_the_top_row_ends_the_game() {
    let mut state = game_with(0);
    state.tiles[2][19] = Color::Cyan;
    state.check_rows();
    assert!(state.game_ended);
}

#[test]
fn blitting_writes_the_piece_in_its_colour() {
    let mut state = game_with(0);
    state.blit_active_piece_to_tiles();
    for x in 4..8 {
        assert_eq!(state.tiles[x][19], Color::Blue);
    }
    assert_eq!(state.tiles[3][19], Color::Reset);
}

#[test]
fn the_field_shows_piece_blocks_and_power_up() {
    let mut state = game_with(0);
    state.tiles[0][0] = Color::Red;
    assert_eq!(state.field_cell(5, 19), FieldCell::Piece(Color::Blue));
    assert_eq!(state.field_cell(0, 0), FieldCell::Block(Color::Red));
    assert_eq!(state.field_cell(1, 0), FieldCell::Empty);
    state.powerup.p_type = PowerUpType::Bomb(BombPowerup {});
    assert_eq!(state.field_cell(5, 19), FieldCell::PowerUp);
    assert_eq!(state.field_cell(6, 19), FieldCell::Empty);
}

#[test]
fn upcoming_pieces_follow_the_current_one() {
    let state = game_with(3);
    for i in 0..NEXT_LOOKUP {
        assert_eq!(state.upcoming(i).id, state.piece_queue[i + 1].id);
    }
}

#[test]
fn keys_move_and_turn_the_piece() {
    let mut screen = GameScreen::default();
    let mut state = game_with(5);
    screen.handle_keypress(&mut state, Key::Left, pacing());
    assert_eq!(state.piece_queue[0].pos, [4, 19]);
    screen.handle_keypress(&mut state, Key::Char('d'), pacing());
    screen.handle_keypress(&mut state, Key::Char('l'), pacing());
    assert_eq!(state.piece_queue[0].pos, [6, 19]);
    screen.handle_keypress(&mut state, Key::Down, pacing());
    assert_eq!(state.piece_queue[0].pos, [6, 18]);
    screen.handle_keypress(&mut state, Key::Up, pacing());
    assert_eq!(state.piece_queue[0].layout, [[1, 0], [0, 1], [0, 0], [0, -1]]);
    screen.handle_keypress(&mut state, Key::Other, pacing());
    assert_eq!(state.piece_queue[0].pos, [6, 18]);
}

#[test]
fn pieces_stop_at_the_walls() {
    let mut screen = GameScreen::default();
    let mut state = game_with(0);
    for _ in 0..10 {
        screen.handle_keypress(&mut state, Key::Left, pacing());
    }
    assert_eq!(state.piece_queue[0].pos, [1, 19]);
    for _ in 0..10 {
        screen.handle_keypress(&mut state, Key::Right, pacing());
    }
    assert_eq!(state.piece_queue[0].pos, [7, 19]);
}

#[test]
fn a_hard_drop_lands_the_piece_on_the_floor() {
    let mut screen = GameScreen::default();
    let mut state = game_with(0);
    screen.handle_keypress(&mut state, Key::Char(' '), pacing());
    for x in 4..8 {
        assert_eq!(state.tiles[x][0], Color::Blue);
    }
    assert_eq!(state.piece_queue_ind, 1);
    assert_eq!(state.placed_pieces, 1);
}

#[test]
fn power_ups_are_armed_by_number_keys_while_some_are_left() {
    let mut screen = GameScreen::default();
    let mut state = game_with(2);
    screen.handle_keypress(&mut state, Key::Char('2'), pacing());
    assert!(matches!(state.powerup.p_type, PowerUpType::Paintball(_)));
    screen.handle_keypress(&mut state, Key::Char('3'), pacing());
    assert!(matches!(state.powerup.p_type, PowerUpType::Roller(_)));
    state.powerup.count = 0;
    screen.handle_keypress(&mut state, Key::Char('1'), pacing());
    assert_eq!(state.powerup.p_type, PowerUpType::Inactive);
}

#[test]
fn gravity_drops_the_piece_on_time() {
    let mut screen = AppScreen::Game(GameScreen::default());
    let mut state = game_with(0);
    screen.init(&mut state);
    assert_eq!(state.task_queue.len(), 1);
    assert_eq!(state.task_queue[0].time, 750);
    update_tasks(&mut state, 749);
    assert_eq!(state.piece_queue[0].pos, [5, 19]);
    update_tasks(&mut state, 750);
    assert_eq!(state.piece_queue[0].pos, [5, 18]);
    assert_eq!(state.task_queue.len(), 1);
    assert_eq!(state.task_queue[0].time, 1500);
    // A late frame runs the overdue drop once; the next one is a full
    // period after that frame.
    update_tasks(&mut state, 3000);
    assert_eq!(state.now_ms, 3000);
    assert_eq!(state.piece_queue[0].pos, [5, 17]);
    assert_eq!(state.task_queue.len(), 1);
    assert_eq!(state.task_queue[0].time, 3750);
}

#[test]
fn fall_moves_down_and_schedules_the_next_drop() {
    let mut state = game_with(6);
    fall(&mut state);
    assert_eq!(state.piece_queue[0].pos, [5, 18]);
    assert_eq!(state.task_queue.len(), 1);
    assert!(matches!(state.task_queue[0].action, TaskAction::Fall));
}

#[test]
fn tasks_run_in_time_order() {
    let mut state = game_with(0);
    add_task(300, TaskAction::ClearCell { x: 1, y: 0 }, &mut state);
    add_task(100, TaskAction::Paint { x: 5, y: 10, ring: 3, color: Color::Red }, &mut state);
    state.tiles[1][0] = Color::Green;
    state.tiles[6][11] = Color::Green;
    update_tasks(&mut state, 200);
    assert_eq!(state.task_queue.len(), 1);
    assert_eq!(state.tiles[6][11], Color::Red);
    assert_eq!(state.tiles[1][0], Color::Green);
    update_tasks(&mut state, 300);
    assert_eq!(state.tiles[1][0], Color::Reset);
    assert!(state.task_queue.is_empty());
}

#[test]
fn landing_on_a_full_top_row_loses_the_game() {
    let mut screen = GameScreen::default();
    let mut state = game_with(0);
    for x in 0..9 {
        state.tiles[x][18] = Color::Red;
    }
    state.tiles[0][19] = Color::Red;
    let next = screen.update(&mut state, pacing());
    assert!(matches!(next, Some(AppScreen::Lose(_))));
    assert!(state.game_ended);
}

#[test]
fn tasks_due_at_the_same_time_run_in_the_order_they_were_added() {
    let mut state = game_with(0);
    state.tiles[1][0] = Color::Green;
    add_task(100, TaskAction::Paint { x: 0, y: 0, ring: 3, color: Color::Red }, &mut state);
    add_task(100, TaskAction::Paint { x: 0, y: 0, ring: 3, color: Color::Blue }, &mut state);
    update_tasks(&mut state, 100);
    assert_eq!(state.tiles[1][0], Color::Blue);
    assert!(state.task_queue.is_empty());
}

#[test]
fn the_score_never_drops_through_a_game() {
    let mut screen = GameScreen::default();
    let mut state = game_with(0);
    let mut last = state.score;
    for step in 0..200u64 {
        let key = [Key::Char(' '), Key::Left, Key::Up, Key::Right, Key::Down][(step % 5) as usize];
        screen.handle_keypress(&mut state, key, pacing());
        assert!(state.score >= last);
        last = state.score;
        let _ = screen.update(&mut state, pacing());
        assert!(state.score >= last);
        last = state.score;
        if state.game_ended {
            break;
        }
    }
}

#[test]
fn the_starting_queue_is_shuffled() {
    let ordered: Vec<usize> = (0..QUEUE_SIZE).map(|i| i % 7).collect();
    let shuffled = (0..20).any(|_| {
        let ids: Vec<usize> = State::create_pieces().iter().map(|p| p.id).collect();
        ids != ordered
    });
    assert!(shuffled);
}

#[test]
fn esc_and_p_pause_and_resume() {
    let mut screen = GameScreen::default();
    let mut state = game_with(4);
    assert!(!state.paused);
    screen.handle_keypress(&mut state, Key::Esc, pacing());
    assert!(state.paused);
    assert_eq!(state.piece_queue[0].pos, [5, 19]);
    screen.handle_keypress(&mut state, Key::Char('p'), pacing());
    assert!(!state.paused);
    screen.handle_keypress(&mut state, Key::Char('p'), pacing());
    assert!(state.paused);
}

#[test]
fn a_paused_game_stands_still() {
    let mut screen = GameScreen::default();
    let mut state = game_with(0);
    fall(&mut state);
    screen.handle_keypress(&mut state, Key::Esc, pacing());
    assert!(state.paused);
    // Keys other than esc and p do nothing while paused.
    screen.handle_keypress(&mut state, Key::Left, pacing());
    screen.handle_keypress(&mut state, Key::Char(' '), pacing());
    assert_eq!(state.piece_queue[0].pos, [5, 18]);
    // Time stands still and no task runs.
    update_tasks(&mut state, 5000);
    assert_eq!(state.now_ms, 0);
    assert_eq!(state.piece_queue[0].pos, [5, 18]);
    assert_eq!(state.task_queue.len(), 1);
    // Landings are not checked.
    for x in 0..10 {
        state.tiles[x][17] = Color::Red;
    }
    assert!(screen.update(&mut state, pacing()).is_none());
    assert_eq!(state.piece_queue_ind, 0);
    // Resuming lets the overdue drop run once.
    screen.handle_keypress(&mut state, Key::Char('p'), pacing());
    update_tasks(&mut state, 5000);
    assert_eq!(state.now_ms, 5000);
    assert_eq!(state.task_queue[0].time, 5750);
}
