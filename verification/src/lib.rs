//! Rules engine of a falling-block puzzle game on a grid of tiles.
//!
//! The library keeps the field, lets pieces enter, move, turn and fall,
//! clears the rows that they fill, and counts score, lines and level. It
//! reads no key and draws nothing: [`tetris::session::Session`] takes
//! commands and clock ticks from whoever runs the game, and hands out its
//! state to be drawn.
//!
//! The contracts of its functions are stated over [`tetris::surface`], the
//! field as a sequence of rows of tiles. The field is stored in an array of
//! the `ndarray` crate and new pieces are drawn with the `rand` crate; what
//! is taken on trust of either is said where the call stands, in
//! [`tetris::field`] and [`tetris::source`].

pub mod depict;
pub mod rgb;
pub mod tetris;
