//! The flat image buffer and its row-major addressing.
//!
//! An image is an ordered sequence of pixels of length `width * height`,
//! stored row by row: the pixel at column `x` of row `y` sits at position
//! `y * width + x`. That length equation is the type's invariant, and every
//! pixel access below is proved in bounds from it — no write ever relies on
//! an unchecked index.
//!
//! The pixel type is a parameter: addressing does not look inside a pixel.

use vstd::prelude::*;

use crate::error::BlurError;

verus! {

/// A `width` by `height` image as a flat, row-major pixel buffer.
pub struct Image<T> {
    pixels: Vec<T>,
    width: usize,
    height: usize,
}

impl<T> View for Image<T> {
    type V = Seq<T>;

    closed spec fn view(&self) -> Seq<T> {
        self.pixels@
    }
}

/// The position of column `x`, row `y` in a row-major buffer of width `w`.
pub open spec fn row_major(x: int, y: int, w: int) -> int {
    y * w + x
}

/// Row-major positions of in-range coordinates lie inside the buffer.
pub proof fn lemma_row_major_in_bounds(x: int, y: int, w: int, h: int)
    requires
        0 <= x < w,
        0 <= y < h,
    ensures
        0 <= row_major(x, y, w) < w * h,
{
    assert(y * w + x < w * h) by (nonlinear_arith)
        requires
            0 <= x < w,
            0 <= y < h,
    ;
    assert(y * w + x >= 0) by (nonlinear_arith)
        requires
            0 <= x,
            0 <= y,
            0 < w,
    ;
}

impl<T> Image<T> {
    /// The buffer invariant: one pixel for every coordinate pair.
    pub open spec fn wf(&self) -> bool {
        self@.len() == self.spec_width() * self.spec_height()
    }

    /// The image width, in pixels.
    pub closed spec fn spec_width(&self) -> int {
        self.width as int
    }

    /// The image height, in pixels.
    pub closed spec fn spec_height(&self) -> int {
        self.height as int
    }

    /// Wraps a flat pixel buffer, rejecting one whose length is not
    /// `width * height`.
    pub fn new(pixels: Vec<T>, width: usize, height: usize) -> (r: Result<Image<T>, BlurError>)
        ensures
            r is Ok <==> pixels@.len() == width * height,
            r matches Ok(img) ==> img@ == pixels@ && img.spec_width() == width
                && img.spec_height() == height && img.wf(),
            r is Err ==> r == Err::<Image<T>, BlurError>(BlurError::Dimension),
    {
        let n = pixels.len();
        match width.checked_mul(height) {
            Some(m) => {
                if m == n {
                    Ok(Image { pixels, width, height })
                } else {
                    Err(BlurError::Dimension)
                }
            },
            None => Err(BlurError::Dimension),
        }
    }

    /// The image width, in pixels.
    pub fn width(&self) -> (w: usize)
        ensures
            w == self.spec_width(),
    {
        self.width
    }

    /// The image height, in pixels.
    pub fn height(&self) -> (h: usize)
        ensures
            h == self.spec_height(),
    {
        self.height
    }

    /// How many pixels the image holds.
    pub fn pixel_count(&self) -> (n: usize)
        ensures
            n == self@.len(),
    {
        self.pixels.len()
    }

    /// Borrows the flat pixel buffer.
    pub fn pixels(&self) -> (r: &Vec<T>)
        ensures
            r@ == self@,
    {
        &self.pixels
    }

    /// Gives the flat pixel buffer back to the caller.
    pub fn into_pixels(self) -> (r: Vec<T>)
        ensures
            r@ == self@,
    {
        self.pixels
    }
}

impl<T: Copy> Image<T> {
    /// The pixel at column `x`, row `y`.
    pub fn pixel(&self, x: usize, y: usize) -> (r: T)
        requires
            self.wf(),
            x < self.spec_width(),
            y < self.spec_height(),
        ensures
            r == self@[row_major(x as int, y as int, self.spec_width())],
    {
        let n = self.pixels.len();
        proof {
            lemma_row_major_in_bounds(x as int, y as int, self.spec_width(), self.spec_height());
        }
        self.pixels[y * self.width + x]
    }

    /// Replaces the pixel at column `x`, row `y`, leaving every other pixel
    /// and the dimensions as they were.
    pub fn set_pixel(&mut self, x: usize, y: usize, value: T)
        requires
            old(self).wf(),
            x < old(self).spec_width(),
            y < old(self).spec_height(),
        ensures
            final(self)@ == old(self)@.update(
                row_major(x as int, y as int, old(self).spec_width()),
                value,
            ),
            final(self).spec_width() == old(self).spec_width(),
            final(self).spec_height() == old(self).spec_height(),
            final(self).wf(),
    {
        let n = self.pixels.len();
        proof {
            lemma_row_major_in_bounds(x as int, y as int, self.spec_width(), self.spec_height());
        }
        let p = y * self.width + x;
        self.pixels[p] = value;
    }
}

} // verus!
