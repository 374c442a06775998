//! Cropping an image to its visible pixels.
use vstd::prelude::*;
use vstd::view::View as _;

use crate::indexed_image::{lemma_pixel_index, lemma_pixel_index_distinct, ImageView, IndexedImage};

verus! {

/// The image of size `width` × `height` at offset `(offset_x, offset_y)` whose pixel `(x, y)`
/// is `f(x, y)`.
pub open spec fn image_from(
    width: int,
    height: int,
    offset_x: int,
    offset_y: int,
    f: spec_fn(int, int) -> u8,
) -> ImageView {
    ImageView {
        width,
        height,
        pixels: Seq::new((width * height) as nat, |k: int| f(k % width, k / width)),
        offset_x,
        offset_y,
    }
}

/// An image is the one [`image_from`] builds from its size, its offset and its pixels.
pub proof fn lemma_image_from(a: ImageView, f: spec_fn(int, int) -> u8)
    requires
        0 <= a.width,
        0 <= a.height,
        a.pixels.len() == a.width * a.height,
        forall|x: int, y: int| 0 <= x < a.width && 0 <= y < a.height ==> a.pixel(x, y) == f(x, y),
    ensures
        a == image_from(a.width, a.height, a.offset_x, a.offset_y, f),
{
    let b = image_from(a.width, a.height, a.offset_x, a.offset_y, f);
    assert forall|k: int| 0 <= k < a.pixels.len() implies a.pixels[k] == b.pixels[k] by {
        let w = a.width;
        let h = a.height;
        assert(w > 0) by (nonlinear_arith)
            requires
                0 <= k < w * h,
                0 <= h,
        ;
        vstd::arithmetic::div_mod::lemma_fundamental_div_mod(k, w);
        let x = k % w;
        let y = k / w;
        assert(0 <= x < w);
        assert(0 <= y < h) by (nonlinear_arith)
            requires
                0 <= k < w * h,
                w > 0,
                y == k / w,
        ;
        assert(y * w + x == k) by (nonlinear_arith)
            requires
                k == w * y + x,
        ;
        assert(a.pixel(x, y) == f(x, y));
    }
    assert(a.pixels =~= b.pixels);
}

/// Row `y` of `img` holds a visible pixel.
pub open spec fn row_used(img: ImageView, y: int) -> bool {
    exists|x: int| 0 <= x < img.width && img.pixel(x, y) != 0
}

/// Column `x` of `img` holds a visible pixel.
pub open spec fn col_used(img: ImageView, x: int) -> bool {
    exists|y: int| 0 <= y < img.height && img.pixel(x, y) != 0
}

/// Which rows of `img` hold a visible pixel.
pub open spec fn row_pred(img: ImageView) -> spec_fn(int) -> bool {
    |y: int| row_used(img, y)
}

/// Which columns of `img` hold a visible pixel.
pub open spec fn col_pred(img: ImageView) -> spec_fn(int) -> bool {
    |x: int| col_used(img, x)
}

/// The first of `a..n` where `p` holds; `n` where it holds nowhere.
pub open spec fn first_true(p: spec_fn(int) -> bool, a: int, n: int) -> int
    decreases n - a,
{
    if a >= n {
        n
    } else if p(a) {
        a
    } else {
        first_true(p, a + 1, n)
    }
}

/// One past the last of `0..b` where `p` holds; 0 where it holds nowhere.
pub open spec fn last_true_end(p: spec_fn(int) -> bool, b: int) -> int
    decreases b,
{
    if b <= 0 {
        0
    } else if p(b - 1) {
        b
    } else {
        last_true_end(p, b - 1)
    }
}

proof fn lemma_first_true(p: spec_fn(int) -> bool, a: int, y: int, n: int)
    requires
        a <= y <= n,
        forall|k: int| a <= k < y ==> !#[trigger] p(k),
        y == n || p(y),
    ensures
        first_true(p, a, n) == y,
    decreases y - a,
{
    if a < y {
        lemma_first_true(p, a + 1, y, n);
    }
}

proof fn lemma_last_true_end(p: spec_fn(int) -> bool, y: int, b: int)
    requires
        0 <= y <= b,
        forall|k: int| y <= k < b ==> !#[trigger] p(k),
        y == 0 || p(y - 1),
    ensures
        last_true_end(p, b) == y,
    decreases b - y,
{
    if y < b {
        lemma_last_true_end(p, y, b - 1);
    }
}

/// `img` has no visible pixel.
pub open spec fn is_blank(img: ImageView) -> bool {
    first_true(row_pred(img), 0, img.height) >= img.height
}

/// What cropping leaves of `img`: the smallest part that holds all its visible pixels, moved
/// so that they stay where they were drawn; a single transparent pixel at the image's offset
/// where there is none.
pub open spec fn crop_view(img: ImageView) -> ImageView {
    if is_blank(img) {
        ImageView { width: 1, height: 1, pixels: seq![0u8], offset_x: img.offset_x, offset_y: img.offset_y }
    } else {
        let x0 = first_true(col_pred(img), 0, img.width);
        let x1 = last_true_end(col_pred(img), img.width);
        let y0 = first_true(row_pred(img), 0, img.height);
        let y1 = last_true_end(row_pred(img), img.height);
        image_from(x1 - x0, y1 - y0, img.offset_x + x0, img.offset_y + y0, |x: int, y: int| img.pixel(x0 + x, y0 + y))
    }
}

/// The cropped offset fits `i32`.
pub open spec fn crop_fits(img: ImageView) -> bool {
    !is_blank(img) ==> {
        &&& img.offset_x + first_true(col_pred(img), 0, img.width) <= i32::MAX
        &&& img.offset_y + first_true(row_pred(img), 0, img.height) <= i32::MAX
    }
}

fn row_has_ink(image: &IndexedImage, y: u16) -> (r: bool)
    requires
        image.wf(),
        y < image@.height,
    ensures
        r == row_used(image@, y as int),
{
    let w = image.width();
    let mut x: u16 = 0;
    while x < w
        invariant
            image.wf(),
            y < image@.height,
            x <= w,
            w == image@.width,
            forall|k: int| 0 <= k < x ==> image@.pixel(k, y as int) == 0,
        decreases w - x,
    {
        if image.get_pixel(x as usize, y as usize) != 0 {
            return true;
        }
        x = x + 1;
    }
    false
}

fn col_has_ink(image: &IndexedImage, x: u16) -> (r: bool)
    requires
        image.wf(),
        x < image@.width,
    ensures
        r == col_used(image@, x as int),
{
    let h = image.height();
    let mut y: u16 = 0;
    while y < h
        invariant
            image.wf(),
            x < image@.width,
            y <= h,
            h == image@.height,
            forall|k: int| 0 <= k < y ==> image@.pixel(x as int, k) == 0,
        decreases h - y,
    {
        if image.get_pixel(x as usize, y as usize) != 0 {
            return true;
        }
        y = y + 1;
    }
    false
}

impl IndexedImage {
    /// Crops the image to its visible pixels, moving its offset so that they stay where they
    /// were drawn; an image without one becomes a single transparent pixel.
    pub fn crop(&mut self)
        requires
            old(self).wf(),
            crop_fits(old(self)@),
        ensures
            final(self).wf(),
            final(self)@ == crop_view(old(self)@),
    {
        let ghost img = self@;
        let w = self.width();
        let h = self.height();
        let mut y0: u16 = 0;
        while y0 < h
            invariant
                self.wf(),
                self@ == img,
                h == img.height,
                y0 <= h,
                forall|k: int| 0 <= k < y0 ==> !row_used(img, k),
            ensures
                y0 <= h,
                forall|k: int| 0 <= k < y0 ==> !row_used(img, k),
                y0 == h || row_used(img, y0 as int),
            decreases h - y0,
        {
            if row_has_ink(self, y0) {
                break;
            }
            y0 = y0 + 1;
        }
        proof {
            lemma_first_true(row_pred(img), 0, y0 as int, h as int);
        }
        if y0 == h {
            let mut blank = IndexedImage::new(1, 1);
            blank.set_offset(self.offset_x(), self.offset_y());
            assert(blank@.pixels =~= seq![0u8]);
            *self = blank;
            return;
        }
        let mut y1: u16 = h;
        while y1 > y0 + 1
            invariant
                self.wf(),
                self@ == img,
                h == img.height,
                y0 < y1 <= h,
                forall|k: int| y1 <= k < h ==> !row_used(img, k),
            ensures
                y0 < y1 <= h,
                forall|k: int| y1 <= k < h ==> !row_used(img, k),
                y1 == y0 + 1 || row_used(img, y1 - 1),
            decreases y1,
        {
            if row_has_ink(self, y1 - 1) {
                break;
            }
            y1 = y1 - 1;
        }
        proof {
            lemma_last_true_end(row_pred(img), y1 as int, h as int);
        }
        // A visible pixel of row y0 marks a used column.
        let ghost xv = choose|x: int| 0 <= x < img.width && img.pixel(x, y0 as int) != 0;
        assert(col_used(img, xv));
        let mut x0: u16 = 0;
        while x0 < w
            invariant
                self.wf(),
                self@ == img,
                w == img.width,
                x0 <= xv,
                0 <= xv < w,
                col_used(img, xv),
                forall|k: int| 0 <= k < x0 ==> !col_used(img, k),
            ensures
                x0 <= xv,
                forall|k: int| 0 <= k < x0 ==> !col_used(img, k),
                col_used(img, x0 as int),
            decreases w - x0,
        {
            if col_has_ink(self, x0) {
                break;
            }
            x0 = x0 + 1;
        }
        proof {
            lemma_first_true(col_pred(img), 0, x0 as int, w as int);
        }
        let mut x1: u16 = w;
        while x1 > x0 + 1
            invariant
                self.wf(),
                self@ == img,
                w == img.width,
                x0 < x1 <= w,
                forall|k: int| x1 <= k < w ==> !col_used(img, k),
            ensures
                x0 < x1 <= w,
                forall|k: int| x1 <= k < w ==> !col_used(img, k),
                x1 == x0 + 1 || col_used(img, x1 - 1),
            decreases x1,
        {
            if col_has_ink(self, x1 - 1) {
                break;
            }
            x1 = x1 - 1;
        }
        proof {
            if x1 == x0 + 1 {
                assert(col_used(img, x0 as int));
            }
            lemma_last_true_end(col_pred(img), x1 as int, w as int);
        }
        let cw = x1 - x0;
        let ch = y1 - y0;
        let mut out = IndexedImage::new(cw, ch);
        assert forall|px: int, py: int| 0 <= px < cw && 0 <= py < ch implies #[trigger] out@.pixel(px, py) == 0 by {
            lemma_pixel_index(cw as int, ch as int, px, py);
        }
        let mut y: u16 = 0;
        while y < ch
            invariant
                self.wf(),
                self@ == img,
                out.wf(),
                out@.width == cw && out@.height == ch,
                y <= ch,
                x0 as int + cw <= img.width,
                y0 as int + ch <= img.height,
                forall|px: int, py: int|
                    0 <= px < cw && 0 <= py < ch ==> #[trigger] out@.pixel(px, py) == if py < y {
                        img.pixel(x0 + px, y0 + py)
                    } else {
                        0
                    },
            decreases ch - y,
        {
            let mut x: u16 = 0;
            while x < cw
                invariant
                    self.wf(),
                    self@ == img,
                    out.wf(),
                    out@.width == cw && out@.height == ch,
                    x <= cw,
                    y < ch,
                    x0 as int + cw <= img.width,
                    y0 as int + ch <= img.height,
                    forall|px: int, py: int|
                        0 <= px < cw && 0 <= py < ch ==> #[trigger] out@.pixel(px, py) == if py < y || (py == y
                            && px < x) {
                            img.pixel(x0 + px, y0 + py)
                        } else {
                            0
                        },
                decreases cw - x,
            {
                let v = self.get_pixel((x0 + x) as usize, (y0 + y) as usize);
                let ghost before = out@;
                out.set_pixel(x as usize, y as usize, v);
                proof {
                    lemma_pixel_index(cw as int, ch as int, x as int, y as int);
                    assert forall|px: int, py: int|
                        0 <= px < cw && 0 <= py < ch && (px != x || py != y) implies #[trigger] out@.pixel(
                            px,
                            py,
                        ) == before.pixel(px, py) by {
                        lemma_pixel_index(cw as int, ch as int, px, py);
                        lemma_pixel_index_distinct(cw as int, px, py, x as int, y as int);
                    }
                }
                x = x + 1;
            }
            y = y + 1;
        }
        let ox = self.offset_x() + x0 as i32;
        let oy = self.offset_y() + y0 as i32;
        let ghost filled = out@;
        out.set_offset(ox, oy);
        proof {
            assert(out@.pixels == filled.pixels);
            let f = |x: int, y: int| img.pixel(x0 + x, y0 + y);
            assert forall|x: int, y: int| 0 <= x < out@.width && 0 <= y < out@.height implies out@.pixel(x, y)
                == f(x, y) by {
                assert(filled.pixel(x, y) == img.pixel(x0 + x, y0 + y));
            }
            lemma_image_from(out@, f);
            assert(!is_blank(img));
        }
        *self = out;
    }
}

} // verus!
