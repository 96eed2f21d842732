//! A hexagonal game board laid out on a square tile grid.
//!
//! The board is the hexagonal disk of tiles within a fixed radius of a
//! center tile, with the two components of a tile position read as axial
//! hex coordinates (column orientation). The crate proves which tile
//! positions belong to the board, enumerates them in a fixed order, and
//! decides which tile a mouse click highlights.

pub mod board;
pub mod click;
pub mod hex;
