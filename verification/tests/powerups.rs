use cursed_tetris::color::Color;
use cursed_tetris::config::default_config;
use cursed_tetris::powerup::{direction, BombPowerup, PaintballPowerup, PowerUp, PowerUpType};
use cursed_tetris::state::{Pacing, State};
use cursed_tetris::task::{update_tasks, TaskAction};

fn game() -> State {
    State::new(&default_config(), Pacing { levelup_pieces: 16, gravity_ms: 750 }, 0)
}

#[test]
fn power_up_icons() {
    assert_eq!(PowerUpType::Bomb(BombPowerup {}).get_icon(), "💣 ");
    assert_eq!(PowerUpType::Paintball(PaintballPowerup {}).get_icon(), "🎨 ");
    assert_eq!(PowerUpType::Inactive.get_icon(), " ");
}

#[test]
fn a_power_up_spawns_disarmed_at_the_top() {
    let p = PowerUp::default();
    assert!(!p.is_active());
    assert_eq!((p.x, p.y, p.count), (5, 19, 5));
}

#[test]
fn toggling_needs_power_ups_left() {
    let mut p = PowerUp::default();
    p.toggle_type(PowerUpType::Paintball(PaintballPowerup {}));
    assert!(p.is_active());
    p.count = 0;
    p.toggle_type(PowerUpType::Bomb(BombPowerup {}));
    assert!(!p.is_active());
}

#[test]
fn nudge_and_reset_move_the_power_up() {
    let mut p = PowerUp::default();
    p.nudge(-3, -4);
    assert_eq!((p.x, p.y), (2, 15));
    p.toggle_type(PowerUpType::Bomb(BombPowerup {}));
    p.reset();
    assert_eq!((p.x, p.y), (5, 19));
    assert!(!p.is_active());
    assert_eq!(p.count, 5);
}

#[test]
fn the_eight_directions() {
    assert_eq!(direction(0), (1, 0));
    let all: Vec<(i8, i8)> = (0..8).map(direction).collect();
    for dx in -1..=1 {
        for dy in -1..=1 {
            assert_eq!(all.contains(&(dx, dy)), (dx, dy) != (0, 0));
        }
    }
}

#[test]
fn a_bomb_darkens_its_blast_scores_its_blocks_and_clears_them_later() {
    let mut state = game();
    state.tiles[5][0] = Color::Red;
    state.tiles[5][1] = Color::Red;
    state.tiles[0][0] = Color::Green;
    state.activate_powerup(PowerUpType::Bomb(BombPowerup {}));
    state.powerup.y = 2;
    PowerUp::on_collide(&mut state);
    assert_eq!(state.score, 2);
    for (x, y) in [(5, 0), (5, 1), (5, 3), (3, 1), (7, 1), (4, 2), (6, 0)] {
        assert_eq!(state.tiles[x][y], Color::DarkGray);
    }
    assert_eq!(state.tiles[5][4], Color::Reset);
    assert_eq!(state.tiles[2][1], Color::Reset);
    assert_eq!(state.tiles[0][0], Color::Green);
    assert_eq!(state.powerup.p_type, PowerUpType::Inactive);
    assert_eq!((state.powerup.x, state.powerup.y, state.powerup.count), (5, 19, 4));
    assert_eq!(state.task_queue.len(), 1);
    assert_eq!(state.task_queue[0].time, 500);
    assert!(matches!(state.task_queue[0].action, TaskAction::ClearCells(_)));

    update_tasks(&mut state, 500);
    assert_eq!(state.tiles[5][0], Color::Reset);
    assert_eq!(state.tiles[5][1], Color::Reset);
    assert_eq!(state.tiles[0][0], Color::Green);
}

#[test]
fn a_paintball_paints_the_blocks_around_where_it_lands() {
    let mut state = game();
    for x in 2..9 {
        state.tiles[x][0] = Color::Blue;
    }
    state.tiles[5][0] = Color::Yellow;
    state.activate_powerup(PowerUpType::Paintball(PaintballPowerup {}));
    state.powerup.y = 1;
    PowerUp::on_collide(&mut state);
    assert_eq!(state.powerup.count, 4);
    assert_eq!(state.task_queue.len(), 1);
    // Each ring runs one wave after the one before it.
    for t in [80, 160, 240, 320] {
        update_tasks(&mut state, t);
    }
    for x in 2..9 {
        assert_eq!(state.tiles[x][0], Color::Yellow);
    }
    assert!(state.task_queue.is_empty());
}

#[test]
fn a_paintball_or_roller_must_land_on_the_board() {
    let mut state = game();
    assert!(state.powerup_lands_on_board());
    state.activate_powerup(PowerUpType::Paintball(PaintballPowerup {}));
    assert!(state.powerup_lands_on_board());
    state.powerup.x = 12;
    assert!(!state.powerup_lands_on_board());

    let short = cursed_tetris::config::Config { board_height: 10, ..default_config() };
    let mut state = State::new(&short, Pacing { levelup_pieces: 16, gravity_ms: 750 }, 0);
    state.activate_powerup(PowerUpType::Roller(cursed_tetris::powerup::RollerPowerup {}));
    assert!(!state.powerup_lands_on_board());
    state.activate_powerup(PowerUpType::Bomb(BombPowerup {}));
    assert!(state.powerup_lands_on_board());
}
