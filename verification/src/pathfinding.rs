//! Flow maps over a graph of tiles: breadth-first, Dijkstra and
//! Floyd-Warshall.
//!
//! A map's exits are given as `exits[idx]`, the list of `(target, cost)`
//! pairs leaving tile `idx`. Depths and costs are unsigned integers;
//! `UNREACHED` marks a tile that no search has reached.
pub mod bfs;
pub mod dijkstra;
pub mod floyd_warshall;
pub mod flow;
pub mod lightest_path;
pub mod parallel;
