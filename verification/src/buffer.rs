//! The screen buffer: a fixed 320×240 array of palette indices, one byte per
//! pixel, stored row-major.

use vstd::prelude::*;

use crate::pixel::PixelBuffer;
use crate::{OUTPUT_BUFFER_SIZE, SCREEN_HEIGHT, SCREEN_WIDTH};

verus! {

/// Error raised by the checked pixel accessors when a coordinate lies
/// outside the screen.
#[derive(Clone, Copy, PartialEq, Eq, Structural, Debug)]
pub enum DrawError {
    IndexOutOfRange,
}

/// The screen buffer. Each byte is a palette index; the pixel at `(x, y)`
/// lives at offset `y * SCREEN_WIDTH + x`.
pub struct OutputBuffer {
    pixels: Vec<u8>,
}

impl View for OutputBuffer {
    type V = Seq<u8>;

    closed spec fn view(&self) -> Seq<u8> {
        self.pixels@
    }
}

impl OutputBuffer {
    /// Sets the pixel at `(x, y)` to the palette index `color`.
    pub fn set_pixel(&mut self, x: usize, y: usize, color: u8)
        requires
            old(self).inv(),
            x < SCREEN_WIDTH,
            y < SCREEN_HEIGHT,
        ensures
            final(self).inv(),
            final(self)@ == old(self)@.update(y * SCREEN_WIDTH + x, color),
            final(self).pixel(x as int, y as int) == color,
            forall|i: int, j: int|
                0 <= i < SCREEN_WIDTH && 0 <= j < SCREEN_HEIGHT && !(i == x && j == y)
                    ==> #[trigger] final(self).pixel(i, j) == old(self).pixel(i, j),
    {
        let i = x + y * SCREEN_WIDTH;
        self.pixels[i] = color;
        proof {
            assert forall|i2: int, j2: int|
                0 <= i2 < SCREEN_WIDTH && 0 <= j2 < SCREEN_HEIGHT && !(i2 == x && j2 == y) implies #[trigger] self.pixel(
                i2,
                j2,
            ) == old(self).pixel(i2, j2) by {
                assert(j2 * SCREEN_WIDTH + i2 != y * SCREEN_WIDTH + x);
            }
        }
    }

    /// Reads the palette index of the pixel at `(x, y)`.
    pub fn get_pixel(&self, x: usize, y: usize) -> (color: u8)
        requires
            self.inv(),
            x < SCREEN_WIDTH,
            y < SCREEN_HEIGHT,
        ensures
            color == self@[y * SCREEN_WIDTH + x],
    {
        let i = x + y * SCREEN_WIDTH;
        self.pixels[i]
    }

    /// Sets the pixel at `(x, y)`, rejecting out-of-range coordinates
    /// instead of treating them as a caller error.
    pub fn try_set_pixel(&mut self, x: usize, y: usize, color: u8) -> (r: Result<(), DrawError>)
        requires
            old(self).inv(),
        ensures
            final(self).inv(),
            x < SCREEN_WIDTH && y < SCREEN_HEIGHT ==> r == Ok::<(), DrawError>(())
                && final(self)@ == old(self)@.update(y * SCREEN_WIDTH + x, color),
            !(x < SCREEN_WIDTH && y < SCREEN_HEIGHT) ==> r == Err::<(), DrawError>(
                DrawError::IndexOutOfRange,
            ) && final(self)@ == old(self)@,
    {
        if x < SCREEN_WIDTH && y < SCREEN_HEIGHT {
            self.set_pixel(x, y, color);
            Ok(())
        } else {
            Err(DrawError::IndexOutOfRange)
        }
    }

    /// Reads the pixel at `(x, y)`, rejecting out-of-range coordinates
    /// instead of treating them as a caller error.
    pub fn try_get_pixel(&self, x: usize, y: usize) -> (r: Result<u8, DrawError>)
        requires
            self.inv(),
        ensures
            x < SCREEN_WIDTH && y < SCREEN_HEIGHT ==> r == Ok::<u8, DrawError>(
                self@[y * SCREEN_WIDTH + x],
            ),
            !(x < SCREEN_WIDTH && y < SCREEN_HEIGHT) ==> r == Err::<u8, DrawError>(
                DrawError::IndexOutOfRange,
            ),
    {
        if x < SCREEN_WIDTH && y < SCREEN_HEIGHT {
            Ok(self.get_pixel(x, y))
        } else {
            Err(DrawError::IndexOutOfRange)
        }
    }

    /// The raw bytes of the screen buffer, for a host to hand out.
    pub fn bytes(&self) -> (b: &Vec<u8>)
        ensures
            b@ == self@,
    {
        &self.pixels
    }
}

impl Default for OutputBuffer {
    /// A screen buffer with every pixel set to palette index 0.
    fn default() -> (b: OutputBuffer)
        ensures
            b.inv(),
            forall|i: int| 0 <= i < OUTPUT_BUFFER_SIZE ==> b@[i] == 0u8,
    {
        OutputBuffer { pixels: vec![0u8; OUTPUT_BUFFER_SIZE] }
    }
}

/// A screen-sized buffer in a four-bytes-per-pixel RGBA format: the
/// drawing operations are generic over the pixel format, and this is the
/// multi-byte one.
pub struct RgbaBuffer {
    pixels: Vec<[u8; 4]>,
}

impl View for RgbaBuffer {
    type V = Seq<[u8; 4]>;

    closed spec fn view(&self) -> Seq<[u8; 4]> {
        self.pixels@
    }
}

impl Default for RgbaBuffer {
    /// An RGBA buffer with every pixel fully transparent black.
    fn default() -> (b: RgbaBuffer)
        ensures
            b.inv(),
            forall|i: int| 0 <= i < OUTPUT_BUFFER_SIZE ==> b@[i] == [0u8, 0u8, 0u8, 0u8],
    {
        RgbaBuffer { pixels: vec![[0u8, 0u8, 0u8, 0u8]; OUTPUT_BUFFER_SIZE] }
    }
}

impl PixelBuffer<[u8; 4]> for RgbaBuffer {
    /// The buffer always holds exactly one RGBA quadruple per pixel.
    open spec fn inv(&self) -> bool {
        self@.len() == OUTPUT_BUFFER_SIZE
    }

    open spec fn width_spec(&self) -> int {
        SCREEN_WIDTH as int
    }

    open spec fn height_spec(&self) -> int {
        SCREEN_HEIGHT as int
    }

    open spec fn pixel(&self, x: int, y: int) -> [u8; 4] {
        self@[y * SCREEN_WIDTH + x]
    }

    fn width(&self) -> (w: i32) {
        SCREEN_WIDTH as i32
    }

    fn height(&self) -> (h: i32) {
        SCREEN_HEIGHT as i32
    }

    fn get_pixel(&self, x: i32, y: i32) -> (c: [u8; 4]) {
        let i = x as usize + y as usize * SCREEN_WIDTH;
        self.pixels[i]
    }

    fn set_pixel(&mut self, x: i32, y: i32, color: [u8; 4]) {
        let i = x as usize + y as usize * SCREEN_WIDTH;
        self.pixels[i] = color;
        proof {
            assert forall|i2: int, j2: int|
                0 <= i2 < SCREEN_WIDTH && 0 <= j2 < SCREEN_HEIGHT && !(i2 == x && j2 == y) implies #[trigger] self.pixel(
                i2,
                j2,
            ) == old(self).pixel(i2, j2) by {
                assert(j2 * SCREEN_WIDTH + i2 != y * SCREEN_WIDTH + x);
            }
        }
    }
}

impl PixelBuffer<u8> for OutputBuffer {
    /// The buffer always holds exactly one byte per screen pixel.
    open spec fn inv(&self) -> bool {
        self@.len() == OUTPUT_BUFFER_SIZE
    }

    open spec fn width_spec(&self) -> int {
        SCREEN_WIDTH as int
    }

    open spec fn height_spec(&self) -> int {
        SCREEN_HEIGHT as int
    }

    open spec fn pixel(&self, x: int, y: int) -> u8 {
        self@[y * SCREEN_WIDTH + x]
    }

    fn width(&self) -> (w: i32) {
        SCREEN_WIDTH as i32
    }

    fn height(&self) -> (h: i32) {
        SCREEN_HEIGHT as i32
    }

    fn get_pixel(&self, x: i32, y: i32) -> (c: u8) {
        self.get_pixel(x as usize, y as usize)
    }

    fn set_pixel(&mut self, x: i32, y: i32, color: u8) {
        self.set_pixel(x as usize, y as usize, color);
    }
}

} // verus!
