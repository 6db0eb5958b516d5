//! The checkerboard demo: a static pattern of alternating 10×10-pixel
//! squares, with a two-entry palette.

use vstd::prelude::*;

use crate::buffer::OutputBuffer;
use crate::color::{Color, PaletteBuffer};
use crate::pixel::PixelBuffer;
use crate::{SCREEN_HEIGHT, SCREEN_WIDTH};

verus! {

/// The palette index the checkerboard gives pixel `(x, y)`: 0 on dark
/// squares, 1 on light ones, alternating every 10 pixels on each axis.
pub open spec fn checker_color(x: int, y: int) -> u8 {
    if (y / 10) % 2 != (x / 10) % 2 {
        0u8
    } else {
        1u8
    }
}

/// Renders the checkerboard frame: every pixel gets its checker color, and
/// palette entries 0 and 1 are set to the two square colors (entry 0 mixes
/// green and blue, entry 1 is pure red). The input bytes of the host's
/// per-frame call are ignored by this demo.
pub fn update(out: &mut OutputBuffer, palette: &mut PaletteBuffer)
    requires
        old(out).inv(),
        old(palette).inv(),
    ensures
        final(out).inv(),
        final(palette).inv(),
        forall|i: int, j: int|
            0 <= i < SCREEN_WIDTH && 0 <= j < SCREEN_HEIGHT ==> #[trigger] final(out).pixel(i, j)
                == checker_color(i, j),
        final(palette)@ == old(palette)@.update(0, (Color(0x00, 0x06))).update(
            1,
            (Color(0x06, 0x00)),
        ),
{
    let mut y: usize = 0;
    while y < SCREEN_HEIGHT
        invariant
            out.inv(),
            y <= SCREEN_HEIGHT,
            forall|i: int, j: int|
                0 <= i < SCREEN_WIDTH && 0 <= j < y ==> #[trigger] out.pixel(i, j)
                    == checker_color(i, j),
        decreases SCREEN_HEIGHT - y,
    {
        let mut x: usize = 0;
        while x < SCREEN_WIDTH
            invariant
                out.inv(),
                y < SCREEN_HEIGHT,
                x <= SCREEN_WIDTH,
                forall|i: int, j: int|
                    0 <= i < SCREEN_WIDTH && 0 <= j < y ==> #[trigger] out.pixel(i, j)
                        == checker_color(i, j),
                forall|i: int| 0 <= i < x ==> #[trigger] out.pixel(i, y as int) == checker_color(
                    i,
                    y as int,
                ),
            decreases SCREEN_WIDTH - x,
        {
            let is_dark_square = (y / 10) % 2 != (x / 10) % 2;
            let color: u8 = if is_dark_square { 0 } else { 1 };
            out.set_pixel(x, y, color);
            x += 1;
        }
        y += 1;
    }

    palette.set(0, Color(0x00, 0x06));
    palette.set(1, Color(0x06, 0x00));
}

} // verus!
