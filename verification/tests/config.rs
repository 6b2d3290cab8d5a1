use cursed_tetris::config::{default_config, Config};

#[test]
fn defaults() {
    let c = default_config();
    assert_eq!(c.scale_x, 4);
    assert_eq!(c.scale_y, 2);
    assert_eq!(c.board_width, 10);
    assert_eq!(c.board_height, 20);
    assert_eq!(c.start_level, 1);
    assert_eq!(Config::default(), c);
}

#[test]
fn normalized_clamps_every_setting() {
    let wild = Config { scale_x: 0, scale_y: 9, board_width: 2, board_height: 70, start_level: 99 };
    let n = wild.normalized();
    assert_eq!(n, Config { scale_x: 1, scale_y: 5, board_width: 4, board_height: 50, start_level: 30 });
    let ok = Config { scale_x: 8, scale_y: 1, board_width: 50, board_height: 4, start_level: 0 };
    assert_eq!(ok.normalized(), ok);
}

#[test]
fn normalizing_twice_changes_nothing_more() {
    let wild = Config { scale_x: 100, scale_y: 0, board_width: 0, board_height: 1000, start_level: 31 };
    let once = wild.normalized();
    assert_eq!(once.normalized(), once);
}

#[test]
fn saved_settings_are_normalized_and_missing_ones_defaulted() {
    assert_eq!(Config::from_saved(None), default_config());
    let saved = Config { scale_x: 12, scale_y: 3, board_width: 12, board_height: 3, start_level: 5 };
    assert_eq!(
        Config::from_saved(Some(saved)),
        Config { scale_x: 8, scale_y: 3, board_width: 12, board_height: 4, start_level: 5 }
    );
}
