//! Scrolling tile-viewport engine: a camera over a layered tile grid, the
//! window of slots that shows it, and the clocks that animate sprite sheets.

pub mod camera;
pub mod clock;
pub mod game;
pub mod input;
pub mod tiled;
pub mod tilemap;
pub mod viewport;
