//! A tiny "fantasy console" framework: a fixed-size indexed-color framebuffer
//! with a small packed-RGB palette, a generic pixel-drawing abstraction
//! (rectangle, circle, callback fills), a six-button input model, and two
//! demo programs that exercise it — a static checkerboard and a Snake game
//! whose whole per-frame state machine is specified and verified.
//!
//! A host drives a session by calling `SnakeGame::update` once per frame with
//! two packed input bytes, then reads the framebuffer (one palette index per
//! pixel) and the palette (two bytes per color) back.

use vstd::prelude::*;

pub mod buffer;
pub mod checker;
pub mod color;
pub mod input;
pub mod pixel;
pub mod rng;
pub mod snake;
pub mod tile;
pub mod vec2;

verus! {

/// Width of the screen buffer in pixels.
pub const SCREEN_WIDTH: usize = 320;

/// Height of the screen buffer in pixels.
pub const SCREEN_HEIGHT: usize = 240;

/// Number of pixels in the screen buffer.
pub const OUTPUT_BUFFER_SIZE: usize = SCREEN_WIDTH * SCREEN_HEIGHT;

/// Number of colors in the palette buffer.
pub const PALETTE_COLORS: usize = 32;

/// Side length, in pixels, of one board tile.
pub const TILE_SIZE: i32 = 10;

/// Width of the Snake board, in tiles.
pub const MAP_WIDTH: i32 = 25;

/// Height of the Snake board, in tiles.
pub const MAP_HEIGHT: i32 = 20;

/// Screen x of the board's left edge: the 250-pixel-wide tile grid is
/// centered in the 320-pixel-wide screen.
pub const MAP_POS_X: i32 = 35;

/// Screen y of the board's top edge: the 200-pixel-tall tile grid is
/// centered in the 240-pixel-tall screen.
pub const MAP_POS_Y: i32 = 20;

/// A simulation step happens once every this many `update` calls.
pub const TICKS_PER_STEP: u64 = 5;

} // verus!
