//! Tracks which items of a long, append-ordered list sit at the edge of the
//! viewport, and decides when the rendered window of that list grows.
pub mod boundary_list;
pub mod controller;
pub mod event;
