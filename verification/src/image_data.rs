//! The in-memory raster: a rectangle of RGB pixels stored row by row.

use vstd::prelude::*;

verus! {

/// One truecolor pixel.
#[derive(Clone, Copy, PartialEq, Eq, Structural, Debug)]
pub struct Rgb {
    pub r: u8,
    pub g: u8,
    pub b: u8,
}

/// A decoded image: `width * height` pixels, row-major
/// (the pixel at column `x`, row `y` sits at index `y * width + x`).
pub struct Raster {
    width: u32,
    height: u32,
    pixels: Vec<Rgb>,
}

impl Raster {
    /// Row-major storage holds exactly one pixel per coordinate.
    pub closed spec fn wf(self) -> bool {
        self.pixels@.len() == self.width as int * self.height as int
    }

    pub closed spec fn spec_width(self) -> u32 {
        self.width
    }

    pub closed spec fn spec_height(self) -> u32 {
        self.height
    }

    /// The pixel at column `x`, row `y`.
    pub closed spec fn pixel_at(self, x: int, y: int) -> Rgb {
        self.pixels@[y * self.width as int + x]
    }

    /// Build a raster from its dimensions and row-major pixel data.
    pub fn new(width: u32, height: u32, pixels: Vec<Rgb>) -> (r: Raster)
        requires
            pixels@.len() == width as int * height as int,
        ensures
            r.wf(),
            r.spec_width() == width,
            r.spec_height() == height,
            forall|x: int, y: int|
                0 <= x < width && 0 <= y < height ==> r.pixel_at(x, y) == pixels@[y * width + x],
    {
        Raster { width, height, pixels }
    }

    pub fn width(&self) -> (w: u32)
        ensures
            w == self.spec_width(),
    {
        self.width
    }

    pub fn height(&self) -> (h: u32)
        ensures
            h == self.spec_height(),
    {
        self.height
    }

    /// Read the pixel at column `x`, row `y`.
    pub fn pixel(&self, x: u32, y: u32) -> (p: Rgb)
        requires
            self.wf(),
            x < self.spec_width(),
            y < self.spec_height(),
        ensures
            p == self.pixel_at(x as int, y as int),
    {
        let n: usize = self.pixels.len();
        proof {
            let w: int = self.width as int;
            let h: int = self.height as int;
            assert(0 <= (y as int) * w && (y as int) * w + (x as int) < w * h)
                by (nonlinear_arith)
                requires
                    0 <= (x as int) < w,
                    0 <= (y as int) < h,
            ;
        }
        let idx: usize = (y as usize) * (self.width as usize) + (x as usize);
        self.pixels[idx]
    }
}

} // verus!
