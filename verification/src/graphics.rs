//! The frame buffer: a 64x32 grid of 1-bit pixels.
//!
//! The interpreter is the only writer: `00E0` (CLS) resets every pixel and
//! `Dxyn` (DRW) XOR-blends a sprite in. A rendering adapter outside the
//! library reads the grid back through [`Graphics::get`] after each redraw
//! request.

use vstd::prelude::*;

verus! {

/// Pixels per row of the display.
pub const FB_WIDTH: usize = 64;

/// Rows of the display.
pub const FB_HEIGHT: usize = 32;

/// Total number of pixels, `FB_WIDTH * FB_HEIGHT`.
pub const FB_SIZE: usize = 2048;

/// Index of pixel (`row`, `col`) in the row-major pixel sequence.
pub open spec fn pixel_index(row: int, col: int) -> int {
    row * 64 + col
}

/// True when every pixel of `s` is off.
pub open spec fn all_off(s: Seq<bool>) -> bool {
    forall|i: int| 0 <= i < s.len() ==> !s[i]
}

/// The 64x32 monochrome frame buffer, stored row-major.
pub struct Graphics {
    pixels: Vec<bool>,
}

impl View for Graphics {
    type V = Seq<bool>;

    closed spec fn view(&self) -> Seq<bool> {
        self.pixels@
    }
}

impl Graphics {
    /// A well-formed frame buffer holds exactly 64 * 32 pixels.
    pub open spec fn wf(&self) -> bool {
        self@.len() == FB_SIZE
    }

    /// A fresh frame buffer with every pixel off.
    pub fn new() -> (g: Graphics)
        ensures
            g.wf(),
            all_off(g@),
    {
        let mut pixels: Vec<bool> = Vec::new();
        while pixels.len() < FB_SIZE
            invariant
                pixels@.len() <= FB_SIZE,
                all_off(pixels@),
            decreases FB_SIZE - pixels.len(),
        {
            pixels.push(false);
        }
        Graphics { pixels }
    }

    /// Turn every pixel off (the CLS instruction).
    pub fn clear(&mut self)
        requires
            old(self).wf(),
        ensures
            final(self).wf(),
            all_off(final(self)@),
    {
        let mut i: usize = 0;
        while i < FB_SIZE
            invariant
                self@.len() == FB_SIZE,
                i <= FB_SIZE,
                forall|j: int| 0 <= j < i ==> !self@[j],
            decreases FB_SIZE - i,
        {
            self.pixels[i] = false;
            i = i + 1;
        }
    }

    /// Read the pixel at (`row`, `col`).
    pub fn get(&self, row: usize, col: usize) -> (b: bool)
        requires
            self.wf(),
            row < FB_HEIGHT,
            col < FB_WIDTH,
        ensures
            b == self@[pixel_index(row as int, col as int)],
    {
        self.pixels[row * 64 + col]
    }

    /// Write the pixel at (`row`, `col`).
    pub fn set(&mut self, row: usize, col: usize, b: bool)
        requires
            old(self).wf(),
            row < FB_HEIGHT,
            col < FB_WIDTH,
        ensures
            final(self).wf(),
            final(self)@ == old(self)@.update(pixel_index(row as int, col as int), b),
    {
        self.pixels[row * 64 + col] = b;
    }
}

} // verus!
