//! Integer points, rectangles, capsules and curves.
pub mod capsule;
pub mod curve;
pub mod point;
pub mod rect;
