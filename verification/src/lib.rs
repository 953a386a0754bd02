//! A sparse, unbounded hexagonal board for tile-placement games, and the
//! stacking piece model of Hive that lives on it.

pub mod grid;

pub mod hive;
