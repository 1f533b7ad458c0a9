//! One position of the playing field.

use vstd::prelude::*;
use crate::depict::Depict;
use crate::rgb::RGB;

verus! {

/// Glyph of a filled square, as UTF-8 followed by a space.
pub const SQUARE: [u8; 4] = [0xE2, 0x96, 0xA0, 0x20];

/// Glyph of a square drawn as an outline only.
pub const SQUARE_OUTLINE: [u8; 4] = [0xE2, 0x96, 0xA1, 0x20];

/// Glyph of a square with a second square inside it.
pub const OUTLINED_SQUARE: [u8; 4] = [0xE2, 0x96, 0xA3, 0x20];

/// Colour of a position on which nothing lies.
pub open spec fn background() -> RGB {
    RGB { r: 47, g: 79, b: 79 }
}

/// One position of the field, or one cell of a piece.
///
/// `empty` alone says whether the position is taken: an empty tile keeps a
/// colour and a glyph, which mean nothing.
#[derive(Copy, Clone, Debug)]
pub struct Tile {
    pub empty: bool,
    pub color: RGB,
    pub utf8: [u8; 4],
    pub row: usize,
    pub column: usize,
}

impl Tile {
    /// The empty tile at a position.
    pub open spec fn blank(row: usize, column: usize) -> Tile {
        Tile { empty: true, color: background(), utf8: SQUARE, row, column }
    }

    /// Whether something lies on this tile.
    pub open spec fn occupied(self) -> bool {
        !self.empty
    }

    /// This tile, taken.
    pub open spec fn solid(self) -> Tile {
        Tile { empty: false, ..self }
    }

    /// This tile at another row.
    pub open spec fn at_row(self, row: usize) -> Tile {
        Tile { row, ..self }
    }

    /// An empty tile at `(row, column)`, in the background colour.
    pub fn new(row: usize, column: usize) -> (tile: Tile)
        ensures
            tile == Tile::blank(row, column),
    {
        Tile { empty: true, color: RGB { r: 47, g: 79, b: 79 }, utf8: SQUARE, row, column }
    }

    /// A taken tile at `(row, column)` with the given colour and glyph.
    pub fn filled(row: usize, column: usize, color: RGB, utf8: [u8; 4]) -> (tile: Tile)
        ensures
            tile == (Tile { empty: false, color, utf8, row, column }),
    {
        Tile { empty: false, color, utf8, row, column }
    }

    /// Whether something lies on this tile.
    pub fn is_occupied(&self) -> (occupied: bool)
        ensures
            occupied == self.occupied(),
    {
        !self.empty
    }
}

impl Default for Tile {
    /// The empty tile at the origin.
    fn default() -> (tile: Tile)
        ensures
            tile == Tile::blank(0, 0),
    {
        Tile::new(0, 0)
    }
}

impl Depict for Tile {
    open spec fn shown_color(&self) -> RGB {
        self.color
    }

    open spec fn shown_utf8(&self) -> [u8; 4] {
        self.utf8
    }

    fn color(&self) -> (color: RGB) {
        self.color
    }

    fn utf8(&self) -> (utf8: [u8; 4]) {
        self.utf8
    }
}

} // verus!
