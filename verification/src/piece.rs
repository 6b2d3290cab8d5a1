//! Tetromino shapes and the moves of a falling piece.
use vstd::prelude::*;

use crate::color::Color;
use crate::state::{BOARD_HEIGHT, BOARD_WIDTH, NEXT_LOOKUP};

verus! {

/// A cell position `[x, y]`, with `y` growing upwards.
pub type Position = [i8; 2];

/// The four cells of a piece, relative to its position.
pub type PieceLayout = [Position; 4];

/// The number of distinct pieces (I, J, L, O, S, T, Z).
pub const PIECE_COUNT: usize = 7;

/// The id of the O piece, which does not rotate.
pub const O_PIECE: usize = 3;

/// The length of the piece queue: two of each piece plus the look-ahead.
pub const QUEUE_SIZE: usize = 17;

/// Bound on the coordinates of a piece's position kept by the game.
pub const POS_LIMIT: i8 = 120;

/// The spawn layout of each piece.
pub open spec fn layout_spec(id: int) -> PieceLayout {
    if id == 0 {
        [[-1i8, 0i8], [0i8, 0i8], [1i8, 0i8], [2i8, 0i8]]  // I
    } else if id == 1 {
        [[-1i8, 1i8], [-1i8, 0i8], [0i8, 0i8], [1i8, 0i8]]  // J
    } else if id == 2 {
        [[1i8, 1i8], [-1i8, 0i8], [0i8, 0i8], [1i8, 0i8]]  // L
    } else if id == 3 {
        [[0i8, 1i8], [1i8, 1i8], [0i8, 0i8], [1i8, 0i8]]  // O
    } else if id == 4 {
        [[0i8, 1i8], [1i8, 1i8], [-1i8, 0i8], [0i8, 0i8]]  // S
    } else if id == 5 {
        [[0i8, 1i8], [-1i8, 0i8], [0i8, 0i8], [1i8, 0i8]]  // T
    } else {
        [[-1i8, 1i8], [0i8, 1i8], [0i8, 0i8], [1i8, 0i8]]  // Z
    }
}

/// The colour of each piece.
pub open spec fn color_spec(id: int) -> Color {
    if id == 0 {
        Color::Blue
    } else if id == 1 {
        Color::Green
    } else if id == 2 {
        Color::Red
    } else if id == 3 {
        Color::Yellow
    } else if id == 4 {
        Color::Magenta
    } else if id == 5 {
        Color::Cyan
    } else {
        Color::White
    }
}

/// The spawn layout of piece `id`.
pub fn piece_layout(id: usize) -> (r: PieceLayout)
    requires
        id < PIECE_COUNT,
    ensures
        r == layout_spec(id as int),
{
    if id == 0 {
        [[-1, 0], [0, 0], [1, 0], [2, 0]]
    } else if id == 1 {
        [[-1, 1], [-1, 0], [0, 0], [1, 0]]
    } else if id == 2 {
        [[1, 1], [-1, 0], [0, 0], [1, 0]]
    } else if id == 3 {
        [[0, 1], [1, 1], [0, 0], [1, 0]]
    } else if id == 4 {
        [[0, 1], [1, 1], [-1, 0], [0, 0]]
    } else if id == 5 {
        [[0, 1], [-1, 0], [0, 0], [1, 0]]
    } else {
        [[-1, 1], [0, 1], [0, 0], [1, 0]]
    }
}

/// The colour of piece `id`.
pub fn piece_color(id: usize) -> (r: Color)
    requires
        id < PIECE_COUNT,
    ensures
        r == color_spec(id as int),
{
    if id == 0 {
        Color::Blue
    } else if id == 1 {
        Color::Green
    } else if id == 2 {
        Color::Red
    } else if id == 3 {
        Color::Yellow
    } else if id == 4 {
        Color::Magenta
    } else if id == 5 {
        Color::Cyan
    } else {
        Color::White
    }
}

/// The spawn position: the middle of the top row of the standard board.
pub open spec fn spawn_pos() -> Position {
    [(BOARD_WIDTH / 2) as i8, (BOARD_HEIGHT - 1) as i8]
}

/// A falling piece: which piece it is, its (possibly rotated) layout, and
/// its position on the board.
#[derive(Clone, Copy, Debug)]
pub struct Piece {
    pub id: usize,
    pub layout: PieceLayout,
    pub pos: Position,
}

/// A layout rotated a quarter turn clockwise.
pub open spec fn rotated(l: PieceLayout) -> PieceLayout {
    [
        [l[0][1], (-l[0][0]) as i8],
        [l[1][1], (-l[1][0]) as i8],
        [l[2][1], (-l[2][0]) as i8],
        [l[3][1], (-l[3][0]) as i8],
    ]
}

/// A layout rotated a quarter turn counter-clockwise.
pub open spec fn unrotated(l: PieceLayout) -> PieceLayout {
    [
        [(-l[0][1]) as i8, l[0][0]],
        [(-l[1][1]) as i8, l[1][0]],
        [(-l[2][1]) as i8, l[2][0]],
        [(-l[3][1]) as i8, l[3][0]],
    ]
}

/// No coordinate of the layout is `i8::MIN`, so it can be negated.
pub open spec fn negatable(l: PieceLayout) -> bool {
    forall|i: int, j: int| 0 <= i < 4 && 0 <= j < 2 ==> #[trigger] l[i][j] != i8::MIN
}

/// Every coordinate of the layout lies in `-2..=2`.
pub open spec fn small_layout(l: PieceLayout) -> bool {
    forall|i: int, j: int| 0 <= i < 4 && 0 <= j < 2 ==> -2 <= #[trigger] l[i][j] <= 2
}

impl Piece {
    /// The absolute cell `i` of the piece, coordinate `j`.
    pub open spec fn abs_spec(&self, i: int, j: int) -> int {
        self.layout[i][j] + self.pos[j]
    }

    /// The absolute cells of the piece fit in `i8`.
    pub open spec fn abs_in_range(&self) -> bool {
        forall|i: int, j: int| 0 <= i < 4 && 0 <= j < 2 ==> i8::MIN <= #[trigger] self.abs_spec(i, j) <= i8::MAX
    }

    /// A piece as the game keeps it: a known id, a layout within two cells
    /// of its position, and a position within `POS_LIMIT` of the origin.
    pub open spec fn wf(&self) -> bool {
        &&& self.id < PIECE_COUNT
        &&& small_layout(self.layout)
        &&& -POS_LIMIT <= self.pos[0] <= POS_LIMIT
        &&& -POS_LIMIT <= self.pos[1] <= POS_LIMIT
    }

    /// Whether the piece covers the cell `(x, y)`.
    pub open spec fn covers(&self, x: int, y: int) -> bool {
        exists|i: int| 0 <= i < 4 && #[trigger] self.abs_spec(i, 0) == x && self.abs_spec(i, 1) == y
    }

    /// The piece `id` at its spawn position.
    pub open spec fn spawned(id: int) -> Piece {
        Piece { id: id as usize, layout: layout_spec(id), pos: spawn_pos() }
    }

    /// A new piece of kind `id` in spawn layout at the spawn position.
    pub fn from_id(id: usize) -> (r: Self)
        requires
            id < PIECE_COUNT,
        ensures
            r == Piece::spawned(id as int),
            r.wf(),
    {
        Self { id: id, layout: piece_layout(id), pos: [(BOARD_WIDTH as i8) / 2, BOARD_HEIGHT as i8 - 1] }
    }

    /// The column of the piece's position.
    pub fn x(&self) -> (r: i8)
        ensures
            r == self.pos[0],
    {
        self.pos[0]
    }

    /// The row of the piece's position.
    pub fn y(&self) -> (r: i8)
        ensures
            r == self.pos[1],
    {
        self.pos[1]
    }

    /// The piece's colour.
    pub fn color(&self) -> (r: Color)
        requires
            self.id < PIECE_COUNT,
        ensures
            r == color_spec(self.id as int),
    {
        piece_color(self.id)
    }

    /// The absolute board cells of the piece.
    pub fn abs_pos(&self) -> (r: [[i8; 2]; 4])
        requires
            self.abs_in_range(),
        ensures
            forall|i: int, j: int| 0 <= i < 4 && 0 <= j < 2 ==> r[i][j] == self.abs_spec(i, j),
    {
        assert(self.abs_spec(0, 0) == self.layout[0][0] + self.pos[0]);
        assert(self.abs_spec(0, 1) == self.layout[0][1] + self.pos[1]);
        assert(self.abs_spec(1, 0) == self.layout[1][0] + self.pos[0]);
        assert(self.abs_spec(1, 1) == self.layout[1][1] + self.pos[1]);
        assert(self.abs_spec(2, 0) == self.layout[2][0] + self.pos[0]);
        assert(self.abs_spec(2, 1) == self.layout[2][1] + self.pos[1]);
        assert(self.abs_spec(3, 0) == self.layout[3][0] + self.pos[0]);
        assert(self.abs_spec(3, 1) == self.layout[3][1] + self.pos[1]);
        let l = self.layout;
        let x = self.x();
        let y = self.y();
        [[l[0][0] + x, l[0][1] + y], [l[1][0] + x, l[1][1] + y], [l[2][0] + x, l[2][1] + y], [l[3][0] + x, l[3][1] + y]]
    }

    /// Moves the piece by `(x, y)`.
    pub fn nudge(&mut self, x: i8, y: i8)
        requires
            i8::MIN <= old(self).pos[0] + x <= i8::MAX,
            i8::MIN <= old(self).pos[1] + y <= i8::MAX,
        ensures
            final(self).pos[0] == old(self).pos[0] + x,
            final(self).pos[1] == old(self).pos[1] + y,
            final(self).id == old(self).id,
            final(self).layout == old(self).layout,
    {
        self.pos = [self.pos[0] + x, self.pos[1] + y];
    }

    /// Turns the piece a quarter turn clockwise; the O piece stays as it is.
    pub fn rotate(&mut self)
        requires
            old(self).id != O_PIECE ==> negatable(old(self).layout),
        ensures
            final(self).id == old(self).id,
            final(self).pos == old(self).pos,
            final(self).layout == (if old(self).id == O_PIECE { old(self).layout } else { rotated(old(self).layout) }),
    {
        if self.id == O_PIECE {
            return;
        }
        let l = self.layout;
        self.layout = [[l[0][1], -l[0][0]], [l[1][1], -l[1][0]], [l[2][1], -l[2][0]], [l[3][1], -l[3][0]]];
    }

    /// Turns the piece a quarter turn counter-clockwise; the O piece stays
    /// as it is.
    pub fn unrotate(&mut self)
        requires
            old(self).id != O_PIECE ==> negatable(old(self).layout),
        ensures
            final(self).id == old(self).id,
            final(self).pos == old(self).pos,
            final(self).layout == (if old(self).id == O_PIECE { old(self).layout } else { unrotated(old(self).layout) }),
    {
        if self.id == O_PIECE {
            return;
        }
        let l = self.layout;
        self.layout = [[-l[0][1], l[0][0]], [-l[1][1], l[1][0]], [-l[2][1], l[2][0]], [-l[3][1], l[3][0]]];
    }

    /// Puts the piece back in its spawn layout and position.
    pub fn reset(&mut self)
        requires
            old(self).id < PIECE_COUNT,
        ensures
            *final(self) == Piece::spawned(old(self).id as int),
    {
        *self = Piece::from_id(self.id);
    }

    /// Whether the piece covers the cell `(x, y)`; cells more than two
    /// columns or rows away from the piece's position never count.
    pub fn is_tile_active(&self, x: i8, y: i8) -> (r: bool)
        requires
            self.abs_in_range(),
        ensures
            r == (-2 <= x - self.pos[0] <= 2 && -2 <= y - self.pos[1] <= 2 && self.covers(x as int, y as int)),
    {
        let dx = x as i16 - self.x() as i16;
        let dy = y as i16 - self.y() as i16;
        if dx > 2 || dx < -2 || dy > 2 || dy < -2 {
            return false;
        }
        let mut i: usize = 0;
        while i < 4
            invariant
                0 <= i <= 4,
                self.abs_in_range(),
                -2 <= x - self.pos[0] <= 2,
                -2 <= y - self.pos[1] <= 2,
                forall|k: int| 0 <= k < i ==> !(#[trigger] self.abs_spec(k, 0) == x && self.abs_spec(k, 1) == y),
            decreases 4 - i,
        {
            assert(self.abs_spec(i as int, 0) == self.layout[i as int][0] + self.pos[0]);
            assert(self.abs_spec(i as int, 1) == self.layout[i as int][1] + self.pos[1]);
            let rel = self.layout[i];
            if rel[0] + self.x() == x && rel[1] + self.y() == y {
                assert(self.abs_spec(i as int, 0) == x && self.abs_spec(i as int, 1) == y);
                return true;
            }
            i += 1;
        }
        false
    }
}

/// The smaller of two coordinates.
pub open spec fn min2(a: i8, b: i8) -> i8 {
    if a <= b {
        a
    } else {
        b
    }
}

/// The larger of two coordinates.
pub open spec fn max2(a: i8, b: i8) -> i8 {
    if a >= b {
        a
    } else {
        b
    }
}

/// The smallest coordinate `j` over the four cells of a layout.
pub open spec fn layout_min(l: PieceLayout, j: int) -> i8 {
    min2(min2(min2(l[0][j], l[1][j]), l[2][j]), l[3][j])
}

/// The largest coordinate `j` over the four cells of a layout.
pub open spec fn layout_max(l: PieceLayout, j: int) -> i8 {
    max2(max2(max2(l[0][j], l[1][j]), l[2][j]), l[3][j])
}

/// Whether a layout has a cell at `(x, y)`.
pub open spec fn layout_has(l: PieceLayout, x: int, y: int) -> bool {
    exists|i: int| 0 <= i < 4 && #[trigger] l[i][0] == x && l[i][1] == y
}

impl Piece {
    /// The box around the piece's cells, relative to its position:
    /// `(min_x, max_x, min_y, max_y)`.
    pub fn bounds(&self) -> (r: (i8, i8, i8, i8))
        ensures
            r.0 == layout_min(self.layout, 0),
            r.1 == layout_max(self.layout, 0),
            r.2 == layout_min(self.layout, 1),
            r.3 == layout_max(self.layout, 1),
    {
        let l = self.layout;
        let mut r = (l[0][0], l[0][0], l[0][1], l[0][1]);
        let mut i: usize = 1;
        while i < 4
            invariant
                1 <= i <= 4,
                l == self.layout,
                r.0 == (if i == 1 { l[0][0] } else if i == 2 { min2(l[0][0], l[1][0]) } else if i == 3 {
                    min2(min2(l[0][0], l[1][0]), l[2][0])
                } else {
                    layout_min(l, 0)
                }),
                r.1 == (if i == 1 { l[0][0] } else if i == 2 { max2(l[0][0], l[1][0]) } else if i == 3 {
                    max2(max2(l[0][0], l[1][0]), l[2][0])
                } else {
                    layout_max(l, 0)
                }),
                r.2 == (if i == 1 { l[0][1] } else if i == 2 { min2(l[0][1], l[1][1]) } else if i == 3 {
                    min2(min2(l[0][1], l[1][1]), l[2][1])
                } else {
                    layout_min(l, 1)
                }),
                r.3 == (if i == 1 { l[0][1] } else if i == 2 { max2(l[0][1], l[1][1]) } else if i == 3 {
                    max2(max2(l[0][1], l[1][1]), l[2][1])
                } else {
                    layout_max(l, 1)
                }),
            decreases 4 - i,
        {
            let x = l[i][0];
            let y = l[i][1];
            if x < r.0 {
                r.0 = x;
            }
            if x > r.1 {
                r.1 = x;
            }
            if y < r.2 {
                r.2 = y;
            }
            if y > r.3 {
                r.3 = y;
            }
            i += 1;
        }
        r
    }

    /// Whether the piece's layout has a cell at `(x, y)`, relative to its
    /// position.
    pub fn layout_contains(&self, x: i8, y: i8) -> (r: bool)
        ensures
            r == layout_has(self.layout, x as int, y as int),
    {
        let mut i: usize = 0;
        while i < 4
            invariant
                0 <= i <= 4,
                forall|k: int| 0 <= k < i ==> !(#[trigger] self.layout[k][0] == x && self.layout[k][1] == y),
            decreases 4 - i,
        {
            if self.layout[i][0] == x && self.layout[i][1] == y {
                return true;
            }
            i += 1;
        }
        false
    }
}

/// A well-formed piece has its cells in `i8` range and a negatable layout.
pub proof fn lemma_wf_in_range(p: Piece)
    requires
        p.wf(),
    ensures
        p.abs_in_range(),
        negatable(p.layout),
{
}

/// Rotating a well-formed piece keeps it well-formed.
pub proof fn lemma_rotation_keeps_small(l: PieceLayout)
    requires
        small_layout(l),
    ensures
        small_layout(rotated(l)),
        small_layout(unrotated(l)),
{
}

/// A clockwise quarter turn followed by a counter-clockwise one (or the
/// other way round) gives back the layout, and four clockwise quarter turns
/// do too.
pub proof fn lemma_rotate_unrotate(l: PieceLayout)
    requires
        small_layout(l),
    ensures
        unrotated(rotated(l)) == l,
        rotated(unrotated(l)) == l,
        rotated(rotated(rotated(rotated(l)))) == l,
{
    broadcast use vstd::array::group_array_axioms;

    let a = unrotated(rotated(l));
    let b = rotated(unrotated(l));
    let c = rotated(rotated(rotated(rotated(l))));
    assert forall|i: int| 0 <= i < 4 implies a[i] =~= l[i] && b[i] =~= l[i] && c[i] =~= l[i] by {
        assert(small_layout(l));
        assert(-2 <= l[i][0] <= 2 && -2 <= l[i][1] <= 2);
    }
    assert(a =~= l);
    assert(b =~= l);
    assert(c =~= l);
}

/// Every spawn layout is small and every piece colour is a filled cell.
pub proof fn lemma_spawn_wf(id: int)
    requires
        0 <= id < PIECE_COUNT,
    ensures
        small_layout(layout_spec(id)),
        color_spec(id) != Color::Reset,
        Piece::spawned(id).wf(),
{
}

} // verus!
