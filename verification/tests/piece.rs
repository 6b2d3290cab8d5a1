use cursed_tetris::color::Color;
use cursed_tetris::piece::{piece_color, piece_layout, Piece, O_PIECE, PIECE_COUNT, QUEUE_SIZE};

#[test]
fn pieces_spawn_in_the_middle_of_the_top_row() {
    for id in 0..PIECE_COUNT {
        let p = Piece::from_id(id);
        assert_eq!(p.id, id);
        assert_eq!(p.x(), 5);
        assert_eq!(p.y(), 19);
        assert_eq!(p.layout, piece_layout(id));
    }
    assert_eq!(QUEUE_SIZE, 17);
}

#[test]
fn piece_colours_follow_their_ids() {
    let expected = [
        Color::Blue,
        Color::Green,
        Color::Red,
        Color::Yellow,
        Color::Magenta,
        Color::Cyan,
        Color::White,
    ];
    for id in 0..PIECE_COUNT {
        assert_eq!(Piece::from_id(id).color(), expected[id]);
        assert_eq!(piece_color(id), expected[id]);
    }
}

#[test]
fn the_i_piece_lies_flat() {
    assert_eq!(piece_layout(0), [[-1, 0], [0, 0], [1, 0], [2, 0]]);
    let p = Piece::from_id(0);
    assert_eq!(p.abs_pos(), [[4, 19], [5, 19], [6, 19], [7, 19]]);
}

#[test]
fn rotate_turns_clockwise() {
    let mut p = Piece::from_id(0);
    p.rotate();
    assert_eq!(p.layout, [[0, 1], [0, 0], [0, -1], [0, -2]]);
    assert_eq!(p.pos, [5, 19]);
}

#[test]
fn rotate_then_unrotate_gives_back_the_layout() {
    for id in 0..PIECE_COUNT {
        let mut p = Piece::from_id(id);
        let start = p.layout;
        p.rotate();
        p.unrotate();
        assert_eq!(p.layout, start);
        p.unrotate();
        p.rotate();
        assert_eq!(p.layout, start);
    }
}

#[test]
fn four_quarter_turns_are_a_full_turn() {
    for id in 0..PIECE_COUNT {
        let mut p = Piece::from_id(id);
        let start = p.layout;
        for _ in 0..4 {
            p.rotate();
        }
        assert_eq!(p.layout, start);
    }
}

#[test]
fn the_o_piece_does_not_rotate() {
    let mut p = Piece::from_id(O_PIECE);
    let start = p.layout;
    p.rotate();
    assert_eq!(p.layout, start);
    p.unrotate();
    assert_eq!(p.layout, start);
}

#[test]
fn nudge_moves_and_reset_returns_to_spawn() {
    let mut p = Piece::from_id(5);
    p.nudge(-2, -7);
    assert_eq!((p.x(), p.y()), (3, 12));
    p.rotate();
    p.reset();
    assert_eq!(p.layout, piece_layout(5));
    assert_eq!((p.x(), p.y()), (5, 19));
}

#[test]
fn tile_activity_follows_the_cells() {
    // T piece: (0,1), (-1,0), (0,0), (1,0) around (5,19).
    let p = Piece::from_id(5);
    assert!(p.is_tile_active(5, 20));
    assert!(p.is_tile_active(4, 19));
    assert!(p.is_tile_active(6, 19));
    assert!(!p.is_tile_active(4, 20));
    assert!(!p.is_tile_active(5, 18));
    assert!(!p.is_tile_active(0, 0));
}

#[test]
fn bounds_box_the_layout() {
    assert_eq!(Piece::from_id(0).bounds(), (-1, 2, 0, 0));
    assert_eq!(Piece::from_id(1).bounds(), (-1, 1, 0, 1));
    let mut i = Piece::from_id(0);
    i.rotate();
    assert_eq!(i.bounds(), (0, 0, -2, 1));
}

#[test]
fn layout_contains_relative_cells() {
    let s = Piece::from_id(4);
    assert!(s.layout_contains(0, 1));
    assert!(s.layout_contains(-1, 0));
    assert!(!s.layout_contains(1, 0));
    assert!(!s.layout_contains(-1, 1));
}
