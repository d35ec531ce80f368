//! Pixel buffers: a four-channel color image and a one-channel scalar field.
//!
//! Both are flat row-major byte vectors with explicit dimensions. The
//! dimensions are capped so that every index computation fits comfortably in
//! the machine integer types.

use vstd::prelude::*;

verus! {

/// Largest accepted width or height of a buffer, so that `4 * width * height`
/// fits a 32-bit `usize`.
pub const MAX_DIM: usize = 16384;

/// A color image: RGBA, 8 bits per channel, row-major.
/// The byte of channel `c` of the pixel at `(x, y)` sits at index
/// `4 * (y * width + x) + c`.
pub struct RgbaBuffer {
    pub width: usize,
    pub height: usize,
    pub data: Vec<u8>,
}

/// A scalar field: one 8-bit sample per pixel, row-major.
/// The sample at `(x, y)` sits at index `y * width + x`.
pub struct GrayBuffer {
    pub width: usize,
    pub height: usize,
    pub data: Vec<u8>,
}

impl RgbaBuffer {
    /// Well-formed: the data vector holds exactly four bytes per pixel and
    /// the dimensions are within the machine cap.
    pub open spec fn wf(&self) -> bool {
        &&& self.data@.len() == 4 * (self.width * self.height)
        &&& self.width <= MAX_DIM
        &&& self.height <= MAX_DIM
    }

    /// Channel `c` of the pixel at `(x, y)`.
    pub open spec fn chan(&self, x: int, y: int, c: int) -> u8 {
        self.data@[4 * (y * self.width + x) + c]
    }

    /// A zero-filled (transparent black) image.
    pub fn new(width: usize, height: usize) -> (r: Self)
        requires
            width <= MAX_DIM,
            height <= MAX_DIM,
        ensures
            r.wf(),
            r.width == width,
            r.height == height,
            forall|i: int| 0 <= i < r.data@.len() ==> r.data@[i] == 0u8,
    {
        Self::filled(width, height, 0, 0, 0, 0)
    }

    /// An image with every pixel set to the given RGBA value.
    pub fn filled(width: usize, height: usize, r: u8, g: u8, b: u8, a: u8) -> (img: Self)
        requires
            width <= MAX_DIM,
            height <= MAX_DIM,
        ensures
            img.wf(),
            img.width == width,
            img.height == height,
            forall|i: int|
                0 <= i < img.data@.len() ==> img.data@[i] == spec_rgba_byte(r, g, b, a, i),
    {
        proof {
            lemma_dim_product_bound(width as int, height as int);
        }
        let count: usize = width * height;
        let mut data: Vec<u8> = Vec::new();
        let mut p: usize = 0;
        while p < count
            invariant
                p <= count,
                count == width * height,
                4 * count <= usize::MAX,
                data@.len() == 4 * p,
                forall|i: int| 0 <= i < data@.len() ==> data@[i] == spec_rgba_byte(r, g, b, a, i),
            decreases count - p,
        {
            data.push(r);
            data.push(g);
            data.push(b);
            data.push(a);
            p = p + 1;
        }
        RgbaBuffer { width, height, data }
    }
}

/// The byte a uniform RGBA fill puts at flat index `i`: the channel is `i % 4`.
pub open spec fn spec_rgba_byte(r: u8, g: u8, b: u8, a: u8, i: int) -> u8 {
    if i % 4 == 0 {
        r
    } else if i % 4 == 1 {
        g
    } else if i % 4 == 2 {
        b
    } else {
        a
    }
}

impl GrayBuffer {
    /// Well-formed: one byte per pixel, dimensions within the machine cap.
    pub open spec fn wf(&self) -> bool {
        &&& self.data@.len() == self.width * self.height
        &&& self.width <= MAX_DIM
        &&& self.height <= MAX_DIM
    }

    /// The sample at `(x, y)`.
    pub open spec fn at(&self, x: int, y: int) -> u8 {
        self.data@[y * self.width + x]
    }

    /// A field with every sample set to the given value.
    pub fn filled(width: usize, height: usize, v: u8) -> (r: Self)
        requires
            width <= MAX_DIM,
            height <= MAX_DIM,
        ensures
            r.wf(),
            r.width == width,
            r.height == height,
            forall|p: int| 0 <= p < width * height ==> r.data@[p] == v,
    {
        proof {
            lemma_dim_product_bound(width as int, height as int);
        }
        let count: usize = width * height;
        let mut data: Vec<u8> = Vec::new();
        let mut p: usize = 0;
        while p < count
            invariant
                p <= count,
                data@.len() == p,
                forall|q: int| 0 <= q < p ==> data@[q] == v,
            decreases count - p,
        {
            data.push(v);
            p = p + 1;
        }
        GrayBuffer { width, height, data }
    }

    /// A zero-filled field.
    pub fn new(width: usize, height: usize) -> (r: Self)
        requires
            width <= MAX_DIM,
            height <= MAX_DIM,
        ensures
            r.wf(),
            r.width == width,
            r.height == height,
            forall|p: int| 0 <= p < width * height ==> r.data@[p] == 0u8,
    {
        Self::filled(width, height, 0)
    }
}

/// The product of two dimensions under the cap stays well under `usize::MAX`,
/// even with the four channels of a color image.
pub proof fn lemma_dim_product_bound(width: int, height: int)
    requires
        0 <= width <= MAX_DIM,
        0 <= height <= MAX_DIM,
    ensures
        0 <= width * height <= MAX_DIM * MAX_DIM,
        4 * (width * height) < usize::MAX,
{
    assert(width * height <= MAX_DIM * MAX_DIM) by (nonlinear_arith)
        requires
            0 <= width <= MAX_DIM,
            0 <= height <= MAX_DIM,
    ;
    assert(0 <= width * height) by (nonlinear_arith)
        requires
            0 <= width,
            0 <= height,
    ;
}

/// A row-major pixel index is within the buffer.
pub proof fn lemma_row_major_bound(x: int, y: int, width: int, height: int)
    requires
        0 <= x < width,
        0 <= y < height,
    ensures
        0 <= y * width + x < width * height,
        y * width + x < height * width,
    {
    assert(y * width + x < width * height && y * width + x < height * width)
        by (nonlinear_arith)
        requires
            0 <= x < width,
            0 <= y < height,
    ;
}

} // verus!
