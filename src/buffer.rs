use vstd::prelude::*;
use crate::color::{gray, pack_color, packed};

verus! {

/// Brightness is held in fixed point: `FULL` stands for full brightness.
pub const FULL: u32 = 256;

/// The 8-bit intensity of a brightness `b` in `0..=FULL`: `255 * b / FULL`,
/// rounded to the nearest integer (halves round up).
pub open spec fn intensity(b: int) -> int {
    (255 * b + 128) / 256
}

/// The linear index of the pixel that a plot at `(x, y)` lands on: the
/// coordinates count from one, rows are `width` pixels long.
pub open spec fn pixel_index(width: int, x: int, y: int) -> int {
    (y - 1) * width + (x - 1)
}

/// The pixels after plotting `(x, y)` at brightness `b`: the pixel at the
/// linear index is set to gray, or nothing changes when the index falls
/// outside the buffer.
pub open spec fn plotted(pixels: Seq<u32>, width: int, x: int, y: int, b: int) -> Seq<u32> {
    let i = pixel_index(width, x, y);
    if 0 <= i < pixels.len() {
        pixels.update(i, gray(intensity(b) as u8))
    } else {
        pixels
    }
}

/// However far out of range `x` and `y` are, a plot keeps the buffer's
/// size and changes no pixel but the one at its linear index, which lies
/// inside the buffer.
pub proof fn law_plot_stays_inside(pixels: Seq<u32>, width: int, x: int, y: int, b: int)
    ensures
        plotted(pixels, width, x, y, b).len() == pixels.len(),
        forall|i: int|
            0 <= i < pixels.len() && i != pixel_index(width, x, y) ==> #[trigger] plotted(pixels, width, x, y, b)[i]
                == pixels[i],
{
}

/// A flat, row-major buffer of packed pixels.
pub struct PixelBuffer {
    pub width: u32,
    pub height: u32,
    pub pixels: Vec<u32>,
}

impl PixelBuffer {
    /// The buffer holds exactly one pixel for each position of the screen.
    pub open spec fn wf(&self) -> bool {
        self.pixels@.len() == self.width as int * self.height as int
    }

    /// A black buffer of `width` by `height` pixels.
    pub fn new(width: u32, height: u32) -> (buf: PixelBuffer)
        requires
            width as int * height as int <= usize::MAX,
        ensures
            buf.wf(),
            buf.width == width,
            buf.height == height,
            forall|i: int| 0 <= i < buf.pixels@.len() ==> buf.pixels@[i] == 0,
    {
        let n: usize = (width as usize) * (height as usize);
        let mut pixels: Vec<u32> = Vec::with_capacity(n);
        let mut k: usize = 0;
        while k < n
            invariant
                k <= n,
                pixels@.len() == k,
                forall|i: int| 0 <= i < k ==> pixels@[i] == 0,
            decreases n - k,
        {
            pixels.push(0);
            k = k + 1;
        }
        PixelBuffer { width, height, pixels }
    }

    /// Plots one point at brightness `b` (in `0..=FULL`). The write lands
    /// on linear index `(y - 1) * width + (x - 1)` and is dropped when that
    /// index is outside the buffer.
    pub fn plot(&mut self, x: i64, y: i64, b: u32)
        requires
            old(self).wf(),
            b <= FULL,
        ensures
            final(self).wf(),
            final(self).width == old(self).width,
            final(self).height == old(self).height,
            final(self).pixels@ == plotted(old(self).pixels@, old(self).width as int, x as int, y as int, b as int),
    {
        let w: i128 = self.width as i128;
        let row: i128 = y as i128 - 1;
        proof {
            assert(-0x8000_0000_0000_0001 <= row <= 0x7fff_ffff_ffff_fffe);
            assert(0 <= w <= 0xffff_ffff);
            assert(-0x8000_0000_0000_0001 * 0xffff_ffff <= row * w <= 0x7fff_ffff_ffff_fffe * 0xffff_ffff)
                by (nonlinear_arith)
                requires -0x8000_0000_0000_0001 <= row <= 0x7fff_ffff_ffff_fffe, 0 <= w <= 0xffff_ffff;
        }
        let idx: i128 = row * w + (x as i128 - 1);
        let n: usize = self.pixels.len();
        if 0 <= idx && idx < n as i128 {
            let c: u8 = ((255 * b + 128) / 256) as u8;
            self.pixels.set(idx as usize, pack_color(c, c, c));
        }
    }
}

} // verus!
