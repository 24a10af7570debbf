//! Grayscale rasters.
use vstd::prelude::*;

verus! {

/// An 8-bit grayscale raster stored row by row.
#[derive(Clone, Debug)]
pub struct GrayImage {
    pub width: u32,
    pub height: u32,
    /// Intensity of row `r`, column `c` at index `r * width + c`.
    pub pixels: Vec<u8>,
}

impl GrayImage {
    /// The pixel buffer holds exactly one intensity per cell.
    pub open spec fn wf(&self) -> bool {
        self.pixels@.len() == self.width as int * self.height as int
    }

    /// Intensity at row `r`, column `c`.
    pub open spec fn pixel(&self, r: int, c: int) -> int {
        self.pixels@[r * self.width as int + c] as int
    }

    /// Builds an image from its rows laid end to end; `None` when the buffer
    /// does not hold `width * height` intensities.
    pub fn new(width: u32, height: u32, pixels: Vec<u8>) -> (r: Option<GrayImage>)
        ensures
            r is Some <==> pixels@.len() == width as int * height as int,
            r matches Some(img) ==> img.width == width && img.height == height
                && img.pixels@ == pixels@,
    {
        assert((width as u64) * (height as u64) <= u64::MAX) by (nonlinear_arith);
        if (width as u64) * (height as u64) == pixels.len() as u64 {
            Some(GrayImage { width, height, pixels })
        } else {
            None
        }
    }

    /// An image in which every cell has intensity `value`.
    pub fn filled(width: u32, height: u32, value: u8) -> (r: GrayImage)
        requires
            width as int * height as int <= usize::MAX,
        ensures
            r.wf(),
            r.width == width,
            r.height == height,
            forall|i: int| 0 <= i < r.pixels@.len() ==> r.pixels@[i] == value,
    {
        assert((width as u64) * (height as u64) <= u64::MAX) by (nonlinear_arith);
        let n: usize = (width as u64 * height as u64) as usize;
        let mut pixels: Vec<u8> = Vec::new();
        while pixels.len() < n
            invariant
                pixels@.len() <= n,
                forall|i: int| 0 <= i < pixels@.len() ==> pixels@[i] == value,
            decreases n - pixels@.len(),
        {
            pixels.push(value);
        }
        GrayImage { width, height, pixels }
    }
}

} // verus!
