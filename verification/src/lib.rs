//! The rules of chess over an 8x8 board, verified.
//!
//! * `tile`, `color`, `pieces`: squares, sides and pieces, with the
//!   destinations that each kind of piece has in a position.
//! * `game`: a position and the transition that plays one move, with the
//!   record of the squares that the move changed.
//! * `fen`: reading a position from its record of six fields.
//! * `chessmove`: reading a move such as `e2e4`.
//! * `destinations`: the destinations of a piece form a set.
//! * `text`: names and drawings.
//! * `net`: games with their players, and the bytes that clients and
//!   server exchange.
//!
//! Moves are pseudo-legal: they obey the movement of the pieces and the
//! blocking of their paths; whether a king is left attacked plays no part.

pub mod chessmove;
pub mod color;
pub mod destinations;
pub mod fen;
pub mod game;
pub mod net;
pub mod pieces;
pub mod text;
pub mod tile;
