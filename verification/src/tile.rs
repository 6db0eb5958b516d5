//! Board-tile coordinates: the Snake board is a 25×20 grid of 10×10-pixel
//! tiles, centered in the screen.

use vstd::prelude::*;

use crate::buffer::OutputBuffer;
use crate::pixel;
use crate::pixel::PixelBuffer;
use crate::vec2::IVec2;
use crate::{MAP_HEIGHT, MAP_POS_X, MAP_POS_Y, MAP_WIDTH, SCREEN_HEIGHT, SCREEN_WIDTH, TILE_SIZE};

verus! {

/// A position on the Snake board, in tile units; distinct from pixel-space
/// coordinates.
#[derive(Clone, Copy, PartialEq, Eq, Structural, Debug)]
pub struct TilePos {
    pub x: i32,
    pub y: i32,
}

/// True when screen pixel `(x, y)` lies inside the 10×10-pixel square of
/// tile `t`.
pub open spec fn in_tile(t: TilePos, x: int, y: int) -> bool {
    &&& MAP_POS_X + t.x * TILE_SIZE <= x < MAP_POS_X + t.x * TILE_SIZE + TILE_SIZE
    &&& MAP_POS_Y + t.y * TILE_SIZE <= y < MAP_POS_Y + t.y * TILE_SIZE + TILE_SIZE
}

impl TilePos {
    /// Builds the tile position `(x, y)`.
    pub fn new(x: i32, y: i32) -> (t: TilePos)
        ensures
            t == (TilePos { x, y }),
    {
        TilePos { x, y }
    }

    /// True when the tile lies on the board.
    pub open spec fn in_board(self) -> bool {
        0 <= self.x < MAP_WIDTH && 0 <= self.y < MAP_HEIGHT
    }

    /// The screen pixel of this tile's top-left corner: the board origin
    /// plus the tile position scaled by the tile size.
    pub fn to_screen_pos(self) -> (p: IVec2)
        requires
            self.in_board(),
        ensures
            p.x == MAP_POS_X + self.x * TILE_SIZE,
            p.y == MAP_POS_Y + self.y * TILE_SIZE,
    {
        IVec2::new(MAP_POS_X + self.x * TILE_SIZE, MAP_POS_Y + self.y * TILE_SIZE)
    }

    /// Fills this tile's square of the screen with `color`.
    pub fn draw_filled(&self, buffer: &mut OutputBuffer, color: u8)
        requires
            self.in_board(),
            old(buffer).inv(),
        ensures
            final(buffer).inv(),
            forall|i: int, j: int|
                0 <= i < SCREEN_WIDTH && 0 <= j < SCREEN_HEIGHT ==> #[trigger] final(buffer).pixel(
                    i,
                    j,
                ) == (if in_tile(*self, i, j) {
                    color
                } else {
                    old(buffer).pixel(i, j)
                }),
    {
        let p = self.to_screen_pos();
        pixel::draw_rect(buffer, p, IVec2::new(TILE_SIZE, TILE_SIZE), color);
    }
}

} // verus!
