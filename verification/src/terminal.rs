//! Terminal layout logic: screen scaling and gutters, key mapping, and the
//! console grids.
pub mod frame;
pub mod grid;
pub mod keycodes;
pub mod scaler;
pub mod simple_console;
pub mod spans;
pub mod sparse_console;
pub mod virtual_console;
pub mod window;
pub mod wrap;
