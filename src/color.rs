use vstd::prelude::*;

verus! {

/// A colour of three 8-bit channels.
#[derive(Clone, Copy, Debug, PartialEq, Eq, Structural)]
pub struct Color {
    pub r: u8,
    pub g: u8,
    pub b: u8,
}

/// The packed form of a colour: red in bits 16..24, blue in bits 8..16 and
/// green in bits 0..8 (blue and green sit in swapped byte positions).
pub open spec fn packed(r: u8, g: u8, b: u8) -> int {
    r as int * 65536 + b as int * 256 + g as int
}

/// Packs the three channels into one pixel value.
pub fn pack_color(r: u8, g: u8, b: u8) -> (p: u32)
    ensures
        p as int == packed(r, g, b),
{
    let red: u32 = r as u32;
    let green: u32 = g as u32;
    let blue: u32 = b as u32;
    red * 65536 + blue * 256 + green
}

impl Color {
    pub fn new(r: u8, g: u8, b: u8) -> (c: Color)
        ensures
            c.r == r && c.g == g && c.b == b,
    {
        Color { r, g, b }
    }

    /// The packed pixel value of this colour.
    pub fn to_pixel(&self) -> (p: u32)
        ensures
            p as int == packed(self.r, self.g, self.b),
    {
        pack_color(self.r, self.g, self.b)
    }
}

/// The packed value of the gray colour with all channels at `c`.
pub open spec fn gray(c: u8) -> u32 {
    packed(c, c, c) as u32
}

} // verus!
