use grid::depict::Depict;
use grid::rgb::RGB;
use grid::tetris::tile::{Tile, OUTLINED_SQUARE, SQUARE, SQUARE_OUTLINE};

#[test]
fn new_tile_is_empty_at_its_position() {
    let tile = Tile::new(3, 7);
    assert!(tile.empty);
    assert!(!tile.is_occupied());
    assert_eq!(tile.row, 3);
    assert_eq!(tile.column, 7);
    assert_eq!(tile.utf8, SQUARE);
    assert_eq!(tile.color, RGB { r: 47, g: 79, b: 79 });
}

#[test]
fn default_tile_is_the_empty_tile_at_the_origin() {
    let tile = Tile::default();
    assert!(tile.empty);
    assert_eq!((tile.row, tile.column), (0, 0));
    assert_eq!(tile.utf8, SQUARE);
    assert_eq!(tile.color, RGB { r: 47, g: 79, b: 79 });
}

#[test]
fn filled_tile_is_taken_and_keeps_what_it_was_given() {
    let tile = Tile::filled(2, 9, RGB { r: 1, g: 2, b: 3 }, SQUARE_OUTLINE);
    assert!(!tile.empty);
    assert!(tile.is_occupied());
    assert_eq!((tile.row, tile.column), (2, 9));
    assert_eq!(tile.utf8, SQUARE_OUTLINE);
    assert_eq!(tile.color, RGB { r: 1, g: 2, b: 3 });
}

#[test]
fn a_tile_is_drawn_in_its_colour_and_glyph() {
    let tile = Tile::filled(0, 0, RGB { r: 200, g: 100, b: 50 }, OUTLINED_SQUARE);
    assert_eq!(tile.color(), RGB { r: 200, g: 100, b: 50 });
    assert_eq!(tile.utf8(), OUTLINED_SQUARE);
    let blank = Tile::new(0, 0);
    assert_eq!(blank.color(), RGB { r: 47, g: 79, b: 79 });
    assert_eq!(blank.utf8(), SQUARE);
}

#[test]
fn the_glyphs_are_squares_in_utf8() {
    assert_eq!(std::str::from_utf8(&SQUARE).unwrap(), "\u{25A0} ");
    assert_eq!(std::str::from_utf8(&SQUARE_OUTLINE).unwrap(), "\u{25A1} ");
    assert_eq!(std::str::from_utf8(&OUTLINED_SQUARE).unwrap(), "\u{25A3} ");
}
