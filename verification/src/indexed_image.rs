//! Palette-indexed images with a drawing offset.
use vstd::prelude::*;

verus! {

/// What an image holds: its size, its pixels row by row, and its drawing offset.
pub ghost struct ImageView {
    pub width: int,
    pub height: int,
    pub pixels: Seq<u8>,
    pub offset_x: int,
    pub offset_y: int,
}

impl ImageView {
    /// The pixel at column `x`, row `y`.
    pub open spec fn pixel(self, x: int, y: int) -> u8 {
        self.pixels[y * self.width + x]
    }
}

/// `x < width` and `y < height` place pixel `(x, y)` inside a `width * height` buffer.
pub proof fn lemma_pixel_index(width: int, height: int, x: int, y: int)
    requires
        0 <= x < width,
        0 <= y < height,
    ensures
        0 <= y * width + x < width * height,
        y * width + width <= width * height,
{
    assert(0 <= y * width + x < width * height) by (nonlinear_arith)
        requires
            0 <= x < width,
            0 <= y < height,
    ;
    assert(y * width + width <= width * height) by (nonlinear_arith)
        requires
            0 <= x < width,
            0 <= y < height,
    ;
}

/// Two pixels at different places of a `width`-wide image have different indices.
pub proof fn lemma_pixel_index_distinct(width: int, x1: int, y1: int, x2: int, y2: int)
    requires
        0 <= x1 < width,
        0 <= x2 < width,
        0 <= y1,
        0 <= y2,
        x1 != x2 || y1 != y2,
    ensures
        y1 * width + x1 != y2 * width + x2,
{
    if y1 < y2 {
        assert(y1 * width + width <= y2 * width) by (nonlinear_arith)
            requires
                y1 < y2,
                0 < width,
        ;
    } else if y2 < y1 {
        assert(y2 * width + width <= y1 * width) by (nonlinear_arith)
            requires
                y2 < y1,
                0 < width,
        ;
    }
}

/// An image whose pixels are palette indices; index 0 is transparent.
pub struct IndexedImage {
    width: u16,
    height: u16,
    pixels: Vec<u8>,
    offset_x: i32,
    offset_y: i32,
}

impl View for IndexedImage {
    type V = ImageView;

    closed spec fn view(&self) -> ImageView {
        ImageView {
            width: self.width as int,
            height: self.height as int,
            pixels: self.pixels@,
            offset_x: self.offset_x as int,
            offset_y: self.offset_y as int,
        }
    }
}

impl IndexedImage {
    /// The buffer holds exactly `width * height` pixels.
    pub open spec fn wf(&self) -> bool {
        &&& self@.pixels.len() == self@.width * self@.height
        &&& 0 <= self@.width <= u16::MAX
        &&& 0 <= self@.height <= u16::MAX
    }

    /// A transparent image of the given size at offset zero.
    pub fn new(width: u16, height: u16) -> (r: Self)
        ensures
            r.wf(),
            r@.width == width,
            r@.height == height,
            r@.pixels == Seq::new((width * height) as nat, |i: int| 0u8),
            r@.offset_x == 0,
            r@.offset_y == 0,
    {
        assert(width as int * height as int <= 0xffff * 0xffff) by (nonlinear_arith)
            requires
                width <= 0xffff,
                height <= 0xffff,
        ;
        let n = width as usize * height as usize;
        let mut pixels: Vec<u8> = Vec::with_capacity(n);
        let mut i: usize = 0;
        while i < n
            invariant
                i <= n,
                pixels@ == Seq::new(i as nat, |k: int| 0u8),
            decreases n - i,
        {
            pixels.push(0);
            i = i + 1;
            assert(pixels@ =~= Seq::new(i as nat, |k: int| 0u8));
        }
        IndexedImage { width, height, pixels, offset_x: 0, offset_y: 0 }
    }

    /// An image over the given pixels, at offset zero.
    pub fn with_buffer(pixels: Vec<u8>, width: u16, height: u16) -> (r: Self)
        requires
            pixels@.len() == width * height,
        ensures
            r.wf(),
            r@ == (ImageView {
                width: width as int,
                height: height as int,
                pixels: pixels@,
                offset_x: 0,
                offset_y: 0,
            }),
    {
        IndexedImage { width, height, pixels, offset_x: 0, offset_y: 0 }
    }

    pub fn width(&self) -> (r: u16)
        ensures
            r == self@.width,
    {
        self.width
    }

    pub fn height(&self) -> (r: u16)
        ensures
            r == self@.height,
    {
        self.height
    }

    pub fn offset_x(&self) -> (r: i32)
        ensures
            r == self@.offset_x,
    {
        self.offset_x
    }

    pub fn offset_y(&self) -> (r: i32)
        ensures
            r == self@.offset_y,
    {
        self.offset_y
    }

    /// Moves the image's drawing offset.
    pub fn set_offset(&mut self, x: i32, y: i32)
        requires
            old(self).wf(),
        ensures
            final(self).wf(),
            final(self)@ == (ImageView { offset_x: x as int, offset_y: y as int, ..old(self)@ }),
    {
        self.offset_x = x;
        self.offset_y = y;
    }

    /// A copy of the image.
    pub fn duplicate(&self) -> (r: IndexedImage)
        ensures
            r@ == self@,
    {
        let pixels = self.pixels.clone();
        assert(pixels@ =~= self.pixels@);
        IndexedImage {
            width: self.width,
            height: self.height,
            pixels,
            offset_x: self.offset_x,
            offset_y: self.offset_y,
        }
    }

    /// The pixels, row by row.
    pub fn as_raw(&self) -> (r: &[u8])
        ensures
            r@ == self@.pixels,
    {
        self.pixels.as_slice()
    }

    /// The pixel at column `x`, row `y`.
    pub fn get_pixel(&self, x: usize, y: usize) -> (r: u8)
        requires
            self.wf(),
            x < self@.width,
            y < self@.height,
        ensures
            r == self@.pixel(x as int, y as int),
    {
        let n = self.pixels.len();
        proof {
            lemma_pixel_index(self.width as int, self.height as int, x as int, y as int);
        }
        self.pixels[y * (self.width as usize) + x]
    }

    /// Sets the pixel at column `x`, row `y`.
    pub fn set_pixel(&mut self, x: usize, y: usize, value: u8)
        requires
            old(self).wf(),
            x < old(self)@.width,
            y < old(self)@.height,
        ensures
            final(self).wf(),
            final(self)@ == (ImageView {
                pixels: old(self)@.pixels.update(y * old(self)@.width + x, value),
                ..old(self)@
            }),
    {
        let n = self.pixels.len();
        proof {
            lemma_pixel_index(self.width as int, self.height as int, x as int, y as int);
        }
        let i = y * (self.width as usize) + x;
        self.pixels.set(i, value);
    }
}

} // verus!
