//! Grid geometry, path-finding flow maps, noise configuration and terminal
//! layout logic, with their contracts checked by Verus.
pub mod geometry;
pub mod noise;
pub mod pathfinding;
pub mod terminal;
