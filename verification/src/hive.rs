//! The game of Hive: its pieces, which may stand on one another, and its
//! board.

pub mod hivegrid;
pub mod pieces;
