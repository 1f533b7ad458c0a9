//! The game: tiles, the field they lie in, the pieces that fall through it,
//! and the play.
//!
//! - [`tile`]: one position of the field.
//! - [`piece`]: the seven pieces, shifted and turned.
//! - [`surface`]: the field as a sequence of rows, and what it is to lay a
//!   piece down, to let it fall, and to clear rows.
//! - [`field`]: the field as it is stored, with its operations.
//! - [`clearing`]: what holds of a field once rows were cleared.
//! - [`source`]: the queue of coming pieces.
//! - [`scoring`]: score, level and the pace of the fall.
//! - [`game`]: the state of a game and its moves.
//! - [`session`]: a game driven by commands and clock ticks.

pub mod clearing;
pub mod field;
pub mod game;
pub mod piece;
pub mod scoring;
pub mod session;
pub mod source;
pub mod surface;
pub mod tile;
