//! The raster image buffer: a grid of 8-bit RGB pixels.

use vstd::prelude::*;

verus! {

/// One 8-bit RGB pixel.
#[derive(Clone, Copy, PartialEq, Eq, Structural, Debug)]
pub struct Rgb {
    pub r: u8,
    pub g: u8,
    pub b: u8,
}

/// A height-by-width grid of pixels, written once per pixel during
/// rendering and handed to an external writer afterwards.
pub struct Image {
    pub height: usize,
    pub width: usize,
    pub pixelmap: Vec<Vec<Rgb>>,
}

impl Image {
    /// The grid matches the stated dimensions.
    pub open spec fn wf(self) -> bool {
        self.pixelmap@.len() == self.height && forall|i: int|
            0 <= i < self.height ==> (#[trigger] self.pixelmap@[i])@.len() == self.width
    }

    /// The pixel at row `i`, column `j`.
    pub open spec fn pixel(self, i: int, j: int) -> Rgb {
        self.pixelmap@[i]@[j]
    }

    /// A black image of the given dimensions.
    pub fn new(height: usize, width: usize) -> (img: Image)
        ensures
            img.wf(),
            img.height == height,
            img.width == width,
            forall|i: int, j: int|
                0 <= i < height && 0 <= j < width ==> img.pixel(i, j) == (Rgb {
                    r: 0,
                    g: 0,
                    b: 0,
                }),
    {
        let mut pixelmap: Vec<Vec<Rgb>> = Vec::new();
        let mut i: usize = 0;
        while i < height
            invariant
                0 <= i <= height,
                pixelmap@.len() == i,
                forall|k: int| 0 <= k < i ==> (#[trigger] pixelmap@[k])@.len() == width,
                forall|k: int, j: int|
                    0 <= k < i && 0 <= j < width ==> (#[trigger] pixelmap@[k]@[j]) == (Rgb {
                        r: 0,
                        g: 0,
                        b: 0,
                    }),
            decreases height - i,
        {
            let mut row: Vec<Rgb> = Vec::new();
            let mut j: usize = 0;
            while j < width
                invariant
                    0 <= j <= width,
                    row@.len() == j,
                    forall|k: int| 0 <= k < j ==> (#[trigger] row@[k]) == (Rgb { r: 0, g: 0, b: 0 }),
                decreases width - j,
            {
                row.push(Rgb { r: 0, g: 0, b: 0 });
                j = j + 1;
            }
            pixelmap.push(row);
            i = i + 1;
        }
        Image { height, width, pixelmap }
    }

    pub fn get_height(&self) -> (h: usize)
        ensures
            h == self.height,
    {
        self.height
    }

    pub fn get_width(&self) -> (w: usize)
        ensures
            w == self.width,
    {
        self.width
    }

    /// Read one pixel.
    pub fn get_pixel(&self, i: usize, j: usize) -> (p: Rgb)
        requires
            self.wf(),
            i < self.height,
            j < self.width,
        ensures
            p == self.pixel(i as int, j as int),
    {
        self.pixelmap[i][j]
    }

    /// Write one pixel; every other pixel and the dimensions are untouched.
    pub fn set_pixel(&mut self, i: usize, j: usize, p: Rgb)
        requires
            old(self).wf(),
            i < old(self).height,
            j < old(self).width,
        ensures
            final(self).wf(),
            final(self).height == old(self).height,
            final(self).width == old(self).width,
            final(self).pixel(i as int, j as int) == p,
            forall|a: int, b: int|
                0 <= a < old(self).height && 0 <= b < old(self).width && (a != i || b != j)
                    ==> final(self).pixel(a, b) == old(self).pixel(a, b),
    {
        let row = &mut self.pixelmap[i];
        row.set(j, p);
    }
}

} // verus!
