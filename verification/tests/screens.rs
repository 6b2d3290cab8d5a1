use cursed_tetris::config::{default_config, Config};
use cursed_tetris::piece::Piece;
use cursed_tetris::screen::lose::{LoseScreen, MenuChoice as LoseChoice};
use cursed_tetris::screen::options::{entry_value, OptionChoice, OptionsScreen};
use cursed_tetris::screen::title::{
    item_look, row_look, title_pieces, title_pieces_from, ItemLook, MenuChoice as TitleChoice, RowLook, TitleScreen, TITLE_PIECES,
};
use cursed_tetris::screen::{
    format_elapsed, is_quit_key, required_terminal_size, required_terminal_size_for, terminal_too_small,
    AppScreen, Key, Tick,
};
use cursed_tetris::state::{Pacing, State};

fn tick() -> Tick {
    let pacing = Pacing { levelup_pieces: 16, gravity_ms: 750 };
    Tick { now_ms: 0, start: pacing, next: pacing }
}

#[test]
fn title_menu_wraps_both_ways() {
    assert_eq!(TitleChoice::Play.previous(), TitleChoice::Quit);
    assert_eq!(TitleChoice::Quit.next(), TitleChoice::Play);
    for c in [TitleChoice::Play, TitleChoice::Options, TitleChoice::Quit] {
        assert_eq!(c.next().previous(), c);
        assert_eq!(c.previous().next(), c);
        assert_eq!(c.next().next().next(), c);
    }
}

#[test]
fn lose_menu_wraps_both_ways() {
    assert_eq!(LoseChoice::Restart.previous(), LoseChoice::Quit);
    assert_eq!(LoseChoice::Restart.next(), LoseChoice::Title);
    for c in [LoseChoice::Restart, LoseChoice::Title, LoseChoice::Quit] {
        assert_eq!(c.next().previous(), c);
        assert_eq!(c.next().next().next(), c);
    }
}

#[test]
fn option_entries_wrap_both_ways() {
    let all = [
        OptionChoice::ScaleX,
        OptionChoice::ScaleY,
        OptionChoice::BoardWidth,
        OptionChoice::BoardHeight,
        OptionChoice::StartLevel,
        OptionChoice::Back,
    ];
    assert_eq!(OptionChoice::ScaleX.previous(), OptionChoice::Back);
    assert_eq!(OptionChoice::Back.next(), OptionChoice::ScaleX);
    for c in all {
        assert_eq!(c.next().previous(), c);
        let mut d = c;
        for _ in 0..6 {
            d = d.next();
        }
        assert_eq!(d, c);
    }
}

#[test]
fn title_keys_move_and_pick() {
    let mut t = TitleScreen::default();
    assert_eq!(t.selected, TitleChoice::Play);
    t.handle_keypress(Key::Down, None);
    assert_eq!(t.selected, TitleChoice::Options);
    t.handle_keypress(Key::Char('w'), None);
    assert_eq!(t.selected, TitleChoice::Play);
    t.handle_keypress(Key::Enter, None);
    assert_eq!(t.activated, Some(TitleChoice::Play));

    let mut t = TitleScreen::default();
    t.handle_keypress(Key::Char('o'), None);
    assert_eq!(t.activated, Some(TitleChoice::Options));
    t.handle_keypress(Key::Char('q'), None);
    assert_eq!(t.activated, Some(TitleChoice::Quit));
}

#[test]
fn play_cannot_be_picked_while_disabled() {
    let mut t = TitleScreen::default();
    t.play_disabled = true;
    t.handle_keypress(Key::Enter, None);
    assert_eq!(t.activated, None);
    t.handle_keypress(Key::Char('p'), None);
    assert_eq!(t.activated, None);
    t.handle_keypress(Key::Down, None);
    t.handle_keypress(Key::Enter, None);
    assert_eq!(t.activated, Some(TitleChoice::Options));
}

#[test]
fn the_leaderboard_scrolls_only_online() {
    let mut t = TitleScreen::default();
    t.handle_keypress(Key::Right, None);
    assert_eq!(t.leaderboard_offset, 0);
    t.handle_keypress(Key::Right, Some(50));
    t.handle_keypress(Key::Char('d'), Some(50));
    assert_eq!(t.leaderboard_offset, 2);
    t.handle_keypress(Key::Left, Some(50));
    assert_eq!(t.leaderboard_offset, 1);
    t.handle_keypress(Key::Char('a'), Some(50));
    t.handle_keypress(Key::Char('a'), Some(50));
    assert_eq!(t.leaderboard_offset, 0);
    for _ in 0..100 {
        t.handle_keypress(Key::Right, Some(50));
    }
    assert_eq!(t.leaderboard_offset, 30);
    t.handle_keypress(Key::Right, Some(10));
    assert_eq!(t.leaderboard_offset, 0);
}

#[test]
fn the_leaderboard_offset_is_clamped_on_refresh_and_pages_are_cut() {
    let mut t = TitleScreen::default();
    t.leaderboard_offset = 30;
    t.init(None);
    assert_eq!(t.leaderboard_offset, 30);
    assert_eq!(t.visible_rows(50), (30, 50));
    t.init(Some(25));
    assert_eq!(t.leaderboard_offset, 15);
    assert_eq!(t.visible_rows(25), (15, 25));
    t.clamp_leaderboard_offset(3);
    assert_eq!(t.leaderboard_offset, 0);
    assert_eq!(t.visible_rows(50), (0, 20));
}

#[test]
fn title_pieces_are_six_different_pieces() {
    for _ in 0..20 {
        let pieces = title_pieces();
        assert_eq!(pieces.len(), TITLE_PIECES);
        for (i, p) in pieces.iter().enumerate() {
            assert!(p.id < 7);
            assert_eq!(p.pos, [5, 19]);
            for q in &pieces[i + 1..] {
                assert_ne!(p.id, q.id);
            }
        }
    }
}

#[test]
fn looks() {
    assert_eq!(item_look(true, true), ItemLook::Disabled);
    assert_eq!(item_look(true, false), ItemLook::Selected);
    assert_eq!(item_look(false, false), ItemLook::Plain);
    assert_eq!(row_look(0, false), RowLook::Gold);
    assert_eq!(row_look(1, true), RowLook::Silver);
    assert_eq!(row_look(2, false), RowLook::Bronze);
    assert_eq!(row_look(3, true), RowLook::Own);
    assert_eq!(row_look(40, false), RowLook::Other);
}

#[test]
fn lose_keys() {
    let mut l = LoseScreen::default();
    assert_eq!(l.selected, LoseChoice::Restart);
    l.handle_keypress(Key::Right);
    assert_eq!(l.selected, LoseChoice::Title);
    l.handle_keypress(Key::Char('a'));
    l.handle_keypress(Key::Char('a'));
    assert_eq!(l.selected, LoseChoice::Quit);
    l.handle_keypress(Key::Enter);
    assert_eq!(l.activated, Some(LoseChoice::Quit));
    l.handle_keypress(Key::Char('r'));
    assert_eq!(l.activated, Some(LoseChoice::Restart));
    l.handle_keypress(Key::Char('t'));
    assert_eq!(l.activated, Some(LoseChoice::Title));
}

#[test]
fn restarting_from_the_lose_screen_starts_a_fresh_game() {
    let config = default_config();
    let mut state = State::new(&config, tick().start, 0);
    state.score = 1234;
    let mut l = LoseScreen::default();
    l.handle_keypress(Key::Char('r'));
    let next = l.update(&mut state, &config, tick());
    assert!(matches!(next, Some(AppScreen::Game(_))));
    assert_eq!(state.score, 0);

    let mut l = LoseScreen::default();
    l.handle_keypress(Key::Char('q'));
    assert!(matches!(l.update(&mut state, &config, tick()), Some(AppScreen::Quit)));
    assert!(LoseScreen::default().update(&mut state, &config, tick()).is_none());
}

#[test]
fn options_adjust_within_range_and_reset() {
    let mut config = default_config();
    let mut o = OptionsScreen::new(&config, tick());
    assert_eq!(o.selected, OptionChoice::ScaleX);
    for _ in 0..10 {
        o.handle_keypress(&mut config, Key::Right);
    }
    assert_eq!(config.scale_x, 8);
    for _ in 0..10 {
        o.handle_keypress(&mut config, Key::Char('a'));
    }
    assert_eq!(config.scale_x, 1);
    o.handle_keypress(&mut config, Key::Char('r'));
    assert_eq!(config.scale_x, 4);

    o.handle_keypress(&mut config, Key::Down);
    o.handle_keypress(&mut config, Key::Down);
    assert_eq!(o.selected, OptionChoice::BoardWidth);
    o.handle_keypress(&mut config, Key::Left);
    assert_eq!(config.board_width, 9);
    assert_eq!(entry_value(&config, OptionChoice::BoardWidth), (9, Some(10)));
    assert_eq!(entry_value(&config, OptionChoice::BoardHeight), (20, None));
    assert_eq!(entry_value(&config, OptionChoice::Back), (0, None));

    o.handle_keypress(&mut config, Key::Down);
    o.handle_keypress(&mut config, Key::Down);
    assert_eq!(o.selected, OptionChoice::StartLevel);
    o.handle_keypress(&mut config, Key::Left);
    assert_eq!(config.start_level, 0);
    o.handle_keypress(&mut config, Key::Left);
    assert_eq!(config.start_level, 0);
    o.handle_keypress(&mut config, Key::Right);
    assert_eq!(config.start_level, 1);
}

#[test]
fn leaving_options_saves_and_returns_to_the_title() {
    let mut config = default_config();
    let mut o = OptionsScreen::new(&config, tick());
    assert!(o.update().is_none());
    o.handle_keypress(&mut config, Key::Enter);
    assert!(!o.go_back);
    o.handle_keypress(&mut config, Key::Esc);
    assert!(o.go_back);

    let mut screen = AppScreen::Options(o);
    let mut state = State::new(&config, tick().start, 0);
    let update = screen.update(&mut state, &config, tick());
    assert!(update.changed);
    assert!(update.save_config);
    assert!(matches!(screen, AppScreen::Title(_)));
}

#[test]
fn the_preview_board_follows_the_settings() {
    let mut config = default_config();
    let mut o = OptionsScreen::new(&config, tick());
    assert_eq!(o.test_state.tiles.len(), 10);
    config.board_width = 6;
    o.refresh_preview(&config, tick());
    assert_eq!(o.test_state.tiles.len(), 6);
    assert_eq!(o.test_state.tiles[0].len(), 20);
}

#[test]
fn playing_from_the_title_starts_a_game() {
    let config = default_config();
    let mut state = State::new(&config, tick().start, 0);
    state.score = 99;
    let mut screen = AppScreen::default();
    screen.handle_keypress(&mut state, &mut config.clone(), Key::Char('p'), tick(), None);
    let update = screen.update(&mut state, &config, tick());
    assert!(update.changed);
    assert!(!update.save_config);
    assert!(matches!(screen, AppScreen::Game(_)));
    assert_eq!(state.score, 0);
    assert_eq!(state.task_queue.len(), 1);
    assert!(!screen.should_quit());
}

#[test]
fn quitting_from_the_title() {
    let config = default_config();
    let mut state = State::new(&config, tick().start, 0);
    let mut screen = AppScreen::default();
    screen.handle_keypress(&mut state, &mut config.clone(), Key::Char('q'), tick(), None);
    screen.update(&mut state, &config, tick());
    assert!(screen.should_quit());
}

#[test]
fn terminal_sizes() {
    assert_eq!(required_terminal_size_for(10, 20, 4, 2), (104, 42));
    assert_eq!(required_terminal_size_for(4, 4, 1, 1), (68, 24));
    let config = default_config();
    assert_eq!(required_terminal_size(&config), (104, 42));
    assert!(terminal_too_small(103, 42, &config));
    assert!(terminal_too_small(104, 41, &config));
    assert!(!terminal_too_small(104, 42, &config));
    let small = Config { scale_x: 1, scale_y: 1, board_width: 4, board_height: 4, start_level: 0 };
    assert!(!terminal_too_small(68, 24, &small));
}

#[test]
fn quit_keys() {
    assert!(is_quit_key(Key::Char('q'), false));
    assert!(is_quit_key(Key::Char('q'), true));
    assert!(is_quit_key(Key::Char('c'), true));
    assert!(!is_quit_key(Key::Char('c'), false));
    assert!(!is_quit_key(Key::Esc, true));
}

#[test]
fn elapsed_time_as_minutes_and_seconds() {
    assert_eq!(format_elapsed(0), "00:00");
    assert_eq!(format_elapsed(59), "00:59");
    assert_eq!(format_elapsed(61), "01:01");
    assert_eq!(format_elapsed(754), "12:34");
    assert_eq!(format_elapsed(6000), "100:00");
}

#[test]
fn title_pieces_come_in_random_order_and_turns() {
    let mut orders = std::collections::HashSet::new();
    let mut turned = false;
    let mut upright = false;
    for _ in 0..50 {
        let pieces = title_pieces();
        orders.insert(pieces.iter().map(|p| p.id).collect::<Vec<_>>());
        for p in &pieces {
            let spawn = Piece::from_id(p.id).layout;
            if p.id != 3 && p.layout != spawn {
                turned = true;
            }
            if p.id != 3 && p.layout == spawn {
                upright = true;
            }
        }
    }
    assert!(orders.len() > 1);
    assert!(turned && upright);
}

#[test]
fn title_pieces_follow_the_order_and_the_draws() {
    let order = vec![6, 0, 3, 5, 1, 2, 4];
    let flips = vec![1, 0, 1, 0, 1, 1];
    let pieces = title_pieces_from(&order, &flips);
    assert_eq!(pieces.iter().map(|p| p.id).collect::<Vec<_>>(), vec![6, 0, 3, 5, 1, 2]);
    // Z turned upside down.
    let mut z = Piece::from_id(6);
    z.rotate();
    z.rotate();
    assert_eq!(pieces[0].layout, z.layout);
    assert_eq!(pieces[1].layout, Piece::from_id(0).layout);
    // The O piece looks the same either way.
    assert_eq!(pieces[2].layout, Piece::from_id(3).layout);
    assert_eq!(pieces[3].layout, Piece::from_id(5).layout);
    assert_ne!(pieces[4].layout, Piece::from_id(1).layout);
    assert!(pieces.iter().all(|p| p.pos == [5, 19]));
}
