//! The seven pieces: their names, their shapes where they enter the field,
//! and how a piece is shifted and turned.

use vstd::prelude::*;
use crate::rgb::RGB;
use crate::tetris::tile::{Tile, SQUARE, SQUARE_OUTLINE};

verus! {

/// How many names of pieces there are.
pub const PIECE_KINDS: usize = 7;

/// The name of a piece, after the letter that its shape resembles.
#[derive(Copy, Clone, Debug, PartialEq, Eq, Structural)]
pub enum PieceName {
    I,
    O,
    T,
    S,
    Z,
    J,
    L,
}

impl PieceName {
    /// The place of the name in the list `I, O, T, S, Z, J, L`, from 0.
    pub open spec fn spec_index(self) -> usize {
        match self {
            PieceName::I => 0,
            PieceName::O => 1,
            PieceName::T => 2,
            PieceName::S => 3,
            PieceName::Z => 4,
            PieceName::J => 5,
            PieceName::L => 6,
        }
    }

    /// The four positions that a piece of this name takes when it enters the
    /// field, as `(row, column)`.
    pub open spec fn spawn_cells(self) -> [(usize, usize); 4] {
        match self {
            PieceName::I => [(0, 3), (0, 4), (0, 5), (0, 6)],
            PieceName::O => [(0, 4), (0, 5), (1, 4), (1, 5)],
            PieceName::T => [(0, 4), (1, 3), (1, 4), (1, 5)],
            PieceName::S => [(0, 4), (0, 5), (1, 3), (1, 4)],
            PieceName::Z => [(0, 3), (0, 4), (1, 4), (1, 5)],
            PieceName::J => [(0, 3), (1, 3), (1, 4), (1, 5)],
            PieceName::L => [(0, 5), (1, 3), (1, 4), (1, 5)],
        }
    }

    /// The point about which a piece of this name turns when it enters the
    /// field, in half tiles: twice its row, twice its column.
    pub open spec fn spawn_pivot(self) -> (i128, i128) {
        match self {
            PieceName::I => (1, 9),
            PieceName::O => (1, 9),
            PieceName::T => (2, 8),
            PieceName::S => (2, 8),
            PieceName::Z => (2, 8),
            PieceName::J => (2, 8),
            PieceName::L => (2, 8),
        }
    }

    /// The colour of the pieces of this name.
    pub open spec fn spec_color(self) -> RGB {
        match self {
            PieceName::I => RGB { r: 0, g: 255, b: 255 },
            PieceName::O => RGB { r: 255, g: 255, b: 0 },
            PieceName::T => RGB { r: 128, g: 0, b: 128 },
            PieceName::S => RGB { r: 0, g: 255, b: 0 },
            PieceName::Z => RGB { r: 255, g: 0, b: 0 },
            PieceName::J => RGB { r: 0, g: 0, b: 255 },
            PieceName::L => RGB { r: 255, g: 165, b: 0 },
        }
    }

    /// The picture of a piece of this name for a preview: two lines of four
    /// tiles, each tile a glyph or two spaces, and a blank line.
    pub open spec fn spec_preview(self) -> Seq<char> {
        match self {
            PieceName::I => "■ ■ ■ ■ \n        \n\n"@,
            PieceName::O => "  ■ ■   \n  ■ ■   \n\n"@,
            PieceName::T => "  ■     \n■ ■ ■   \n\n"@,
            PieceName::S => "  ■ ■   \n■ ■     \n\n"@,
            PieceName::Z => "■ ■     \n  ■ ■   \n\n"@,
            PieceName::J => "■       \n■ ■ ■   \n\n"@,
            PieceName::L => "    ■   \n■ ■ ■   \n\n"@,
        }
    }

    /// The place of the name in the list `I, O, T, S, Z, J, L`, from 0.
    #[verifier::when_used_as_spec(spec_index)]
    pub fn index(self) -> (index: usize)
        ensures
            index == self.spec_index(),
            index < PIECE_KINDS,
    {
        match self {
            PieceName::I => 0,
            PieceName::O => 1,
            PieceName::T => 2,
            PieceName::S => 3,
            PieceName::Z => 4,
            PieceName::J => 5,
            PieceName::L => 6,
        }
    }

    /// The name at place `index` of the list `I, O, T, S, Z, J, L`, if the
    /// list is that long.
    pub fn from_index(index: usize) -> (name: Option<PieceName>)
        ensures
            name is Some <==> index < PIECE_KINDS,
            name matches Some(n) ==> n.spec_index() == index,
    {
        if index == 0 {
            Some(PieceName::I)
        } else if index == 1 {
            Some(PieceName::O)
        } else if index == 2 {
            Some(PieceName::T)
        } else if index == 3 {
            Some(PieceName::S)
        } else if index == 4 {
            Some(PieceName::Z)
        } else if index == 5 {
            Some(PieceName::J)
        } else if index == 6 {
            Some(PieceName::L)
        } else {
            None
        }
    }

    /// The colour of the pieces of this name.
    #[verifier::when_used_as_spec(spec_color)]
    pub fn color(self) -> (color: RGB)
        ensures
            color == self.spec_color(),
    {
        match self {
            PieceName::I => RGB { r: 0, g: 255, b: 255 },
            PieceName::O => RGB { r: 255, g: 255, b: 0 },
            PieceName::T => RGB { r: 128, g: 0, b: 128 },
            PieceName::S => RGB { r: 0, g: 255, b: 0 },
            PieceName::Z => RGB { r: 255, g: 0, b: 0 },
            PieceName::J => RGB { r: 0, g: 0, b: 255 },
            PieceName::L => RGB { r: 255, g: 165, b: 0 },
        }
    }

    /// The picture of a piece of this name for a preview.
    pub fn preview_text(self) -> (text: &'static str)
        ensures
            text@ == self.spec_preview(),
    {
        match self {
            PieceName::I => "■ ■ ■ ■ \n        \n\n",
            PieceName::O => "  ■ ■   \n  ■ ■   \n\n",
            PieceName::T => "  ■     \n■ ■ ■   \n\n",
            PieceName::S => "  ■ ■   \n■ ■     \n\n",
            PieceName::Z => "■ ■     \n  ■ ■   \n\n",
            PieceName::J => "■       \n■ ■ ■   \n\n",
            PieceName::L => "    ■   \n■ ■ ■   \n\n",
        }
    }
}

/// The tile `t` of a piece after the piece went `dr` rows down and `dc`
/// columns to the right.
pub open spec fn tile_shifted(t: Tile, dr: int, dc: int) -> Tile {
    Tile { row: (t.row + dr) as usize, column: (t.column + dc) as usize, ..t }
}

/// Whether `(r, c)` can be the position of a tile.
pub open spec fn representable(r: int, c: int) -> bool {
    0 <= r <= usize::MAX && 0 <= c <= usize::MAX
}

/// The coordinate of a pivot that comes of `n`: `n` itself, unless `n` lies
/// beyond what the type of the coordinate holds, and then the nearest number
/// that it holds.
pub open spec fn pivot_held(n: int) -> i128 {
    if n > i128::MAX {
        i128::MAX
    } else if n < i128::MIN {
        i128::MIN
    } else {
        n as i128
    }
}

/// Where the position `(r, c)` comes to lie by a quarter turn about `pivot`,
/// which is given in half tiles. The turn takes the offset of the position
/// from the pivot, `(r - p, c - q)`, to `(-(c - q), r - p)` when it goes
/// left, and to `(c - q, -(r - p))` when it goes right. Where the result
/// falls between two positions, it is the one with the lower row or column.
pub open spec fn quarter_turn(pivot: (i128, i128), r: int, c: int, left: bool) -> (int, int) {
    if left {
        ((pivot.0 + pivot.1 - 2 * c) / 2, (2 * r - pivot.0 + pivot.1) / 2)
    } else {
        ((2 * c - pivot.1 + pivot.0) / 2, (pivot.0 + pivot.1 - 2 * r) / 2)
    }
}

/// The tile `t` after a quarter turn about `pivot`.
pub open spec fn tile_turned(t: Tile, pivot: (i128, i128), left: bool) -> Tile {
    let to = quarter_turn(pivot, t.row as int, t.column as int, left);
    Tile { row: to.0 as usize, column: to.1 as usize, ..t }
}

/// Whether the quarter turn of `t` about `pivot` is the position of a tile.
pub open spec fn tile_can_turn(t: Tile, pivot: (i128, i128), left: bool) -> bool {
    let to = quarter_turn(pivot, t.row as int, t.column as int, left);
    representable(to.0, to.1)
}

/// A piece: four tiles, each with its own position in the field, and the
/// point about which they turn.
///
/// The pivot is given in half tiles, as twice its row and twice its column,
/// so that a point midway between two tiles has whole coordinates: `(3, 8)`
/// is the point one and a half rows down and four columns across. The pivot
/// is a point and no position: it may lie left of column 0 or above row 0,
/// as it does when a piece that turns about a point beside its tiles stands
/// at the wall.
#[derive(Copy, Clone, Debug)]
pub struct Piece {
    pub name: PieceName,
    pub tiles: [Tile; 4],
    pub pivot: (i128, i128),
}

impl Piece {
    /// The piece of the given name where it enters the field: its tiles are
    /// taken, filled squares in the colour of the name.
    pub open spec fn spawn(name: PieceName) -> Piece {
        let at = name.spawn_cells();
        let color = name.spec_color();
        Piece {
            name,
            tiles: [
                Tile { empty: false, color, utf8: SQUARE, row: at[0].0, column: at[0].1 },
                Tile { empty: false, color, utf8: SQUARE, row: at[1].0, column: at[1].1 },
                Tile { empty: false, color, utf8: SQUARE, row: at[2].0, column: at[2].1 },
                Tile { empty: false, color, utf8: SQUARE, row: at[3].0, column: at[3].1 },
            ],
            pivot: name.spawn_pivot(),
        }
    }

    /// Whether the piece can go `dr` rows down and `dc` columns to the right
    /// without a tile leaving the range of positions.
    pub open spec fn can_shift(self, dr: int, dc: int) -> bool {
        &&& representable(self.tiles[0].row + dr, self.tiles[0].column + dc)
        &&& representable(self.tiles[1].row + dr, self.tiles[1].column + dc)
        &&& representable(self.tiles[2].row + dr, self.tiles[2].column + dc)
        &&& representable(self.tiles[3].row + dr, self.tiles[3].column + dc)
    }

    /// The piece `dr` rows further down and `dc` columns further right, its
    /// pivot with it.
    pub open spec fn shifted(self, dr: int, dc: int) -> Piece {
        Piece {
            name: self.name,
            tiles: [
                tile_shifted(self.tiles[0], dr, dc),
                tile_shifted(self.tiles[1], dr, dc),
                tile_shifted(self.tiles[2], dr, dc),
                tile_shifted(self.tiles[3], dr, dc),
            ],
            pivot: (pivot_held(self.pivot.0 + 2 * dr), pivot_held(self.pivot.1 + 2 * dc)),
        }
    }

    /// Whether a quarter turn takes every tile to a position.
    pub open spec fn can_turn(self, left: bool) -> bool {
        &&& tile_can_turn(self.tiles[0], self.pivot, left)
        &&& tile_can_turn(self.tiles[1], self.pivot, left)
        &&& tile_can_turn(self.tiles[2], self.pivot, left)
        &&& tile_can_turn(self.tiles[3], self.pivot, left)
    }

    /// The piece after a quarter turn about its pivot, which stays.
    pub open spec fn turned(self, left: bool) -> Piece {
        Piece {
            name: self.name,
            tiles: [
                tile_turned(self.tiles[0], self.pivot, left),
                tile_turned(self.tiles[1], self.pivot, left),
                tile_turned(self.tiles[2], self.pivot, left),
                tile_turned(self.tiles[3], self.pivot, left),
            ],
            pivot: self.pivot,
        }
    }

    /// The piece drawn as outlines.
    pub open spec fn outlined(self) -> Piece {
        Piece {
            name: self.name,
            tiles: [
                Tile { utf8: SQUARE_OUTLINE, ..self.tiles[0] },
                Tile { utf8: SQUARE_OUTLINE, ..self.tiles[1] },
                Tile { utf8: SQUARE_OUTLINE, ..self.tiles[2] },
                Tile { utf8: SQUARE_OUTLINE, ..self.tiles[3] },
            ],
            pivot: self.pivot,
        }
    }

    /// Whether the two pieces take the same four positions, tile by tile in
    /// order.
    pub open spec fn spec_same_position(self, other: Piece) -> bool {
        forall|i: int|
            0 <= i < 4 ==> (#[trigger] self.tiles[i]).row == other.tiles[i].row
                && self.tiles[i].column == other.tiles[i].column
    }

    /// The piece of the given name where it enters the field.
    pub fn new_by_name(name: PieceName) -> (piece: Piece)
        ensures
            piece == Piece::spawn(name),
    {
        let color = name.color();
        let (at, pivot): ([(usize, usize); 4], (i128, i128)) = match name {
            PieceName::I => ([(0, 3), (0, 4), (0, 5), (0, 6)], (1, 9)),
            PieceName::O => ([(0, 4), (0, 5), (1, 4), (1, 5)], (1, 9)),
            PieceName::T => ([(0, 4), (1, 3), (1, 4), (1, 5)], (2, 8)),
            PieceName::S => ([(0, 4), (0, 5), (1, 3), (1, 4)], (2, 8)),
            PieceName::Z => ([(0, 3), (0, 4), (1, 4), (1, 5)], (2, 8)),
            PieceName::J => ([(0, 3), (1, 3), (1, 4), (1, 5)], (2, 8)),
            PieceName::L => ([(0, 5), (1, 3), (1, 4), (1, 5)], (2, 8)),
        };
        let piece = Piece {
            name,
            tiles: [
                Tile::filled(at[0].0, at[0].1, color, SQUARE),
                Tile::filled(at[1].0, at[1].1, color, SQUARE),
                Tile::filled(at[2].0, at[2].1, color, SQUARE),
                Tile::filled(at[3].0, at[3].1, color, SQUARE),
            ],
            pivot,
        };
        assert(piece.tiles =~= Piece::spawn(name).tiles);
        piece
    }

    /// The picture of the piece for a preview.
    pub fn preview_text(&self) -> (text: &'static str)
        ensures
            text@ == self.name.spec_preview(),
    {
        self.name.preview_text()
    }

    /// The positions of the four tiles, as `(row, column)`, in order.
    pub fn get_position(&self) -> (at: Vec<(usize, usize)>)
        ensures
            at@.len() == 4,
            forall|i: int|
                0 <= i < 4 ==> #[trigger] at@[i] == (self.tiles[i].row, self.tiles[i].column),
    {
        let mut at: Vec<(usize, usize)> = Vec::new();
        at.push((self.tiles[0].row, self.tiles[0].column));
        at.push((self.tiles[1].row, self.tiles[1].column));
        at.push((self.tiles[2].row, self.tiles[2].column));
        at.push((self.tiles[3].row, self.tiles[3].column));
        at
    }

    /// Whether the two pieces take the same four positions, tile by tile in
    /// order.
    #[verifier::when_used_as_spec(spec_same_position)]
    pub fn same_position(self, other: Piece) -> (same: bool)
        ensures
            same == self.spec_same_position(other),
    {
        let mut i: usize = 0;
        while i < 4
            invariant
                i <= 4,
                forall|k: int|
                    0 <= k < i ==> (#[trigger] self.tiles[k]).row == other.tiles[k].row
                        && self.tiles[k].column == other.tiles[k].column,
            decreases 4 - i,
        {
            if self.tiles[i].row != other.tiles[i].row || self.tiles[i].column
                != other.tiles[i].column {
                return false;
            }
            i += 1;
        }
        true
    }

    /// The piece `down` rows further down and `across` columns further to
    /// the right, or to the left if `leftward`; `None` if a tile would leave
    /// the range of positions.
    pub fn shift(&self, down: usize, across: usize, leftward: bool) -> (to: Option<Piece>)
        ensures
            to is Some <==> self.can_shift(down as int, if leftward { -across } else { across as int }),
            to matches Some(p) ==> p == self.shifted(
                down as int,
                if leftward { -across } else { across as int },
            ),
    {
        let ghost dc: int = if leftward { -across } else { across as int };
        let t0 = shift_tile(self.tiles[0], down, across, leftward);
        let t1 = shift_tile(self.tiles[1], down, across, leftward);
        let t2 = shift_tile(self.tiles[2], down, across, leftward);
        let t3 = shift_tile(self.tiles[3], down, across, leftward);
        match (t0, t1, t2, t3) {
            (Some(t0), Some(t1), Some(t2), Some(t3)) => {
                let pivot = (
                    shift_pivot(self.pivot.0, down, false),
                    shift_pivot(self.pivot.1, across, leftward),
                );
                let p = Piece { name: self.name, tiles: [t0, t1, t2, t3], pivot };
                assert(p.tiles =~= self.shifted(down as int, dc).tiles);
                Some(p)
            },
            _ => None,
        }
    }

    /// The piece one column to the left, if no tile stands in column 0.
    pub fn moved_left(&self) -> (to: Option<Piece>)
        ensures
            to is Some <==> self.can_shift(0, -1),
            to matches Some(p) ==> p == self.shifted(0, -1),
    {
        self.shift(0, 1, true)
    }

    /// The piece one column to the right.
    pub fn moved_right(&self) -> (to: Option<Piece>)
        ensures
            to is Some <==> self.can_shift(0, 1),
            to matches Some(p) ==> p == self.shifted(0, 1),
    {
        self.shift(0, 1, false)
    }

    /// The piece one row further down.
    pub fn moved_down(&self) -> (to: Option<Piece>)
        ensures
            to is Some <==> self.can_shift(1, 0),
            to matches Some(p) ==> p == self.shifted(1, 0),
    {
        self.shift(1, 0, false)
    }

    /// The piece after a quarter turn about its pivot, to the left if `left`
    /// and to the right if not; `None` if a tile would leave the range of
    /// positions, as it does when the turn takes it above row 0 or left of
    /// column 0.
    pub fn rotated(&self, left: bool) -> (to: Option<Piece>)
        ensures
            to is Some <==> self.can_turn(left),
            to matches Some(p) ==> p == self.turned(left),
    {
        let t0 = turn_tile(self.tiles[0], self.pivot, left);
        let t1 = turn_tile(self.tiles[1], self.pivot, left);
        let t2 = turn_tile(self.tiles[2], self.pivot, left);
        let t3 = turn_tile(self.tiles[3], self.pivot, left);
        match (t0, t1, t2, t3) {
            (Some(t0), Some(t1), Some(t2), Some(t3)) => {
                let p = Piece { name: self.name, tiles: [t0, t1, t2, t3], pivot: self.pivot };
                assert(p.tiles =~= self.turned(left).tiles);
                Some(p)
            },
            _ => None,
        }
    }

    /// The piece after a quarter turn to the left.
    pub fn rotated_left(&self) -> (to: Option<Piece>)
        ensures
            to is Some <==> self.can_turn(true),
            to matches Some(p) ==> p == self.turned(true),
    {
        self.rotated(true)
    }

    /// The piece after a quarter turn to the right.
    pub fn rotated_right(&self) -> (to: Option<Piece>)
        ensures
            to is Some <==> self.can_turn(false),
            to matches Some(p) ==> p == self.turned(false),
    {
        self.rotated(false)
    }

    /// The piece drawn as outlines: every tile gets the outline glyph and
    /// keeps the rest.
    pub fn as_outline(&self) -> (drawn: Piece)
        ensures
            drawn == self.outlined(),
    {
        let t0 = self.tiles[0];
        let t1 = self.tiles[1];
        let t2 = self.tiles[2];
        let t3 = self.tiles[3];
        let p = Piece {
            name: self.name,
            tiles: [
                Tile { utf8: SQUARE_OUTLINE, ..t0 },
                Tile { utf8: SQUARE_OUTLINE, ..t1 },
                Tile { utf8: SQUARE_OUTLINE, ..t2 },
                Tile { utf8: SQUARE_OUTLINE, ..t3 },
            ],
            pivot: self.pivot,
        };
        assert(p.tiles =~= self.outlined().tiles);
        p
    }
}

/// How far a quarter turn and the quarter turn back move a piece that turns
/// about `pivot`: one tile if the pivot lies midway between tiles along
/// exactly one of the two axes, and not at all otherwise.
pub open spec fn turn_drift(pivot: (i128, i128)) -> int {
    (pivot.0 + pivot.1) % 2
}

/// A quarter turn keeps the shape of a piece. The offset from any tile to any
/// other is itself turned by a quarter, so tiles that touched still touch; and
/// every tile keeps what it shows, the piece its name and its pivot.
pub proof fn lemma_turn_keeps_shape(p: Piece, left: bool)
    requires
        p.can_turn(left),
    ensures
        p.turned(left).name == p.name,
        p.turned(left).pivot == p.pivot,
        forall|i: int|
            0 <= i < 4 ==> ({
                let t = #[trigger] p.turned(left).tiles[i];
                &&& t.empty == p.tiles[i].empty
                &&& t.color == p.tiles[i].color
                &&& t.utf8 == p.tiles[i].utf8
            }),
        forall|i: int, j: int|
            0 <= i < 4 && 0 <= j < 4 ==> ({
                let a = #[trigger] p.turned(left).tiles[i];
                let b = #[trigger] p.turned(left).tiles[j];
                if left {
                    &&& a.row - b.row == p.tiles[j].column - p.tiles[i].column
                    &&& a.column - b.column == p.tiles[i].row - p.tiles[j].row
                } else {
                    &&& a.row - b.row == p.tiles[i].column - p.tiles[j].column
                    &&& a.column - b.column == p.tiles[j].row - p.tiles[i].row
                }
            }),
{
}

/// A quarter turn of a position and then the quarter turn the other way:
/// the position is back where it was, but for the drift, which goes up after
/// left-then-right and to the left after right-then-left.
pub proof fn lemma_turn_and_back(pivot: (i128, i128), r: int, c: int, left: bool)
    ensures
        ({
            let there = quarter_turn(pivot, r, c, left);
            quarter_turn(pivot, there.0, there.1, !left)
        }) == (if left {
            (r - turn_drift(pivot), c)
        } else {
            (r, c - turn_drift(pivot))
        }),
{
    let p = pivot.0 as int;
    let q = pivot.1 as int;
    let drift = (p + q) % 2;
    let half = (p + q) / 2;
    let gap = (q - p) / 2;
    assert(p + q == 2 * half + drift);
    assert(q - p == 2 * gap + drift) by {
        assert((q - p) % 2 == drift) by {
            assert(q - p == (p + q) - 2 * p);
        }
    }
    if left {
        let there = ((p + q - 2 * c) / 2, (2 * r - p + q) / 2);
        assert(there.0 == half - c);
        assert(there.1 == r + gap);
        assert((2 * there.1 - q + p) / 2 == r - drift);
        assert((p + q - 2 * there.0) / 2 == c);
    } else {
        let there = ((2 * c - q + p) / 2, (p + q - 2 * r) / 2);
        assert(2 * c - q + p == 2 * (c - gap - drift) + drift);
        assert(there.0 == c - gap - drift);
        assert(there.1 == half - r);
        assert((p + q - 2 * there.1) / 2 == r);
        assert((2 * there.0 - p + q) / 2 == c - drift);
    }
}

/// A turn to the left and then one to the right do not always bring a piece
/// back: every tile returns to its column, and to its row only if
/// `turn_drift` of the pivot is 0. If it is 1, the piece ends one row higher.
/// Either way the result is the same shape as before, tile for tile.
pub proof fn lemma_left_then_right(p: Piece)
    requires
        p.can_turn(true),
        p.turned(true).can_turn(false),
    ensures
        p.turned(true).turned(false).name == p.name,
        p.turned(true).turned(false).pivot == p.pivot,
        forall|i: int|
            0 <= i < 4 ==> #[trigger] p.turned(true).turned(false).tiles[i] == tile_shifted(
                p.tiles[i],
                -turn_drift(p.pivot),
                0,
            ),
{
    assert forall|i: int| 0 <= i < 4 implies #[trigger] p.turned(true).turned(false).tiles[i]
        == tile_shifted(p.tiles[i], -turn_drift(p.pivot), 0) by {
        lemma_turn_and_back(p.pivot, p.tiles[i].row as int, p.tiles[i].column as int, true);
    }
}

/// A turn to the right and then one to the left: every tile returns to its
/// row, and to its column only if `turn_drift` of the pivot is 0. If it is 1,
/// the piece ends one column further left.
pub proof fn lemma_right_then_left(p: Piece)
    requires
        p.can_turn(false),
        p.turned(false).can_turn(true),
    ensures
        p.turned(false).turned(true).name == p.name,
        p.turned(false).turned(true).pivot == p.pivot,
        forall|i: int|
            0 <= i < 4 ==> #[trigger] p.turned(false).turned(true).tiles[i] == tile_shifted(
                p.tiles[i],
                0,
                -turn_drift(p.pivot),
            ),
{
    assert forall|i: int| 0 <= i < 4 implies #[trigger] p.turned(false).turned(true).tiles[i]
        == tile_shifted(p.tiles[i], 0, -turn_drift(p.pivot)) by {
        lemma_turn_and_back(p.pivot, p.tiles[i].row as int, p.tiles[i].column as int, false);
    }
}

/// The pieces as they enter the field turn about a pivot without drift.
pub proof fn lemma_spawned_pieces_do_not_drift(name: PieceName)
    ensures
        turn_drift(Piece::spawn(name).pivot) == 0,
{
}

/// One tile of a piece that is shifted.
fn shift_tile(t: Tile, down: usize, across: usize, leftward: bool) -> (to: Option<Tile>)
    ensures
        to is Some <==> representable(
            t.row + down,
            t.column + if leftward { -across } else { across as int },
        ),
        to matches Some(s) ==> s == tile_shifted(
            t,
            down as int,
            if leftward { -across } else { across as int },
        ),
{
    let row = t.row.checked_add(down);
    let column = if leftward {
        t.column.checked_sub(across)
    } else {
        t.column.checked_add(across)
    };
    match (row, column) {
        (Some(row), Some(column)) => Some(Tile { row, column, ..t }),
        _ => None,
    }
}

/// One coordinate of the pivot of a piece that is shifted by `by` tiles,
/// backwards if `back`.
fn shift_pivot(at: i128, by: usize, back: bool) -> (to: i128)
    ensures
        to == pivot_held(at + (if back { -2 * by } else { 2 * by })),
{
    let twice: i128 = 2 * (by as i128);
    if back {
        match at.checked_sub(twice) {
            Some(to) => to,
            None => i128::MIN,
        }
    } else {
        match at.checked_add(twice) {
            Some(to) => to,
            None => i128::MAX,
        }
    }
}

/// No tile turns to a position about a pivot further than this from the
/// origin, in half tiles.
const PIVOT_REACH: i128 = 1180591620717411303424;

/// One tile of a piece that is turned.
fn turn_tile(t: Tile, pivot: (i128, i128), left: bool) -> (to: Option<Tile>)
    ensures
        to is Some <==> tile_can_turn(t, pivot, left),
        to matches Some(s) ==> s == tile_turned(t, pivot, left),
{
    let p: i128 = pivot.0;
    let q: i128 = pivot.1;
    if p < -PIVOT_REACH || p > PIVOT_REACH || q < -PIVOT_REACH || q > PIVOT_REACH {
        return None;
    }
    let r: i128 = t.row as i128;
    let c: i128 = t.column as i128;
    let row2: i128 = if left { p + q - 2 * c } else { 2 * c - q + p };
    let column2: i128 = if left { 2 * r - p + q } else { p + q - 2 * r };
    if row2 < 0 || column2 < 0 {
        return None;
    }
    let row: u128 = (row2 as u128) / 2;
    let column: u128 = (column2 as u128) / 2;
    if row > usize::MAX as u128 || column > usize::MAX as u128 {
        return None;
    }
    Some(Tile { row: row as usize, column: column as usize, ..t })
}

} // verus!
