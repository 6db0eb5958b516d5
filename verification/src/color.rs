//! Packed 4-bit-per-channel RGB colors and the fixed-size palette table.

use vstd::prelude::*;

use crate::PALETTE_COLORS;

verus! {

/// A palette color: two bytes packing a 4-bit-per-channel RGB value.
/// Byte 0 holds the red nibble; byte 1 holds `(green << 4) | blue`.
#[derive(Clone, Copy, PartialEq, Eq, Structural, Debug)]
pub struct Color(pub u8, pub u8);

/// The red channel of a 24-bit RGB value, truncated to its top 4 bits.
pub open spec fn red_nibble(rgb: u32) -> u8 {
    ((rgb >> 20) & 0xf) as u8
}

/// The green channel of a 24-bit RGB value, truncated to its top 4 bits.
pub open spec fn green_nibble(rgb: u32) -> u8 {
    ((rgb >> 12) & 0xf) as u8
}

/// The blue channel of a 24-bit RGB value, truncated to its top 4 bits.
pub open spec fn blue_nibble(rgb: u32) -> u8 {
    ((rgb >> 4) & 0xf) as u8
}

/// The two packed bytes that a 24-bit RGB value quantizes to.
pub open spec fn rgb_color(rgb: u32) -> Color {
    Color(red_nibble(rgb), (green_nibble(rgb) << 4) | blue_nibble(rgb))
}

impl Color {
    /// Quantizes a 24-bit RGB value (`0xRRGGBB`) to 4 bits per channel by
    /// keeping only the top 4 bits of each 8-bit channel, and packs it.
    pub fn from_rgb(rgb: u32) -> (c: Color)
        ensures
            c == rgb_color(rgb),
            c.0 == red_nibble(rgb),
            c.1 == ((green_nibble(rgb) << 4) | blue_nibble(rgb)),
    {
        let r = ((rgb >> 20) & 0xf) as u8;
        let g = ((rgb >> 12) & 0xf) as u8;
        let b = ((rgb >> 4) & 0xf) as u8;
        Color(r, (g << 4) | b)
    }
}

/// The palette: a fixed-size ordered table of 32 colors, indexed 0–31.
pub struct PaletteBuffer {
    colors: Vec<Color>,
}

impl View for PaletteBuffer {
    type V = Seq<Color>;

    closed spec fn view(&self) -> Seq<Color> {
        self.colors@
    }
}

impl PaletteBuffer {
    /// The palette always holds exactly `PALETTE_COLORS` entries.
    pub open spec fn inv(&self) -> bool {
        self@.len() == PALETTE_COLORS
    }

    /// The color stored at palette index `i`.
    pub fn get(&self, i: usize) -> (c: Color)
        requires
            self.inv(),
            i < PALETTE_COLORS,
        ensures
            c == self@[i as int],
    {
        self.colors[i]
    }

    /// Replaces the color at palette index `i`.
    pub fn set(&mut self, i: usize, c: Color)
        requires
            old(self).inv(),
            i < PALETTE_COLORS,
        ensures
            final(self).inv(),
            final(self)@ == old(self)@.update(i as int, c),
    {
        self.colors[i] = c;
    }
}

impl Default for PaletteBuffer {
    /// A palette with every entry black (all channels zero).
    fn default() -> (p: PaletteBuffer)
        ensures
            p.inv(),
            forall|i: int| 0 <= i < PALETTE_COLORS ==> p@[i] == (Color(0, 0)),
    {
        PaletteBuffer { colors: vec![Color(0, 0); PALETTE_COLORS] }
    }
}

} // verus!
