//! Drawing the lift chain onto a rendered track piece: the pixels painted with the chain's
//! marker colour take the colours of a repeating chain pattern.
use vstd::prelude::*;
use vstd::view::View as _;

use crate::indexed_image::{lemma_pixel_index, lemma_pixel_index_distinct, ImageView, IndexedImage};

verus! {

/// The shape of the piece the chain runs along.
#[derive(Clone, Copy, Debug, PartialEq, Eq, Structural)]
pub enum ChainType {
    Flat,
    Gentle,
    FlatDiag,
}

/// The palette index that marks where the chain is drawn.
pub const CHAIN_PALETTE_INDEX_START: u8 = 1;

/// A tile of the repeating chain pattern, aligned to the view's origin by its offset.
#[derive(Clone, Copy, Debug)]
pub struct ChainImage {
    pub pixels: [u8; 18],
    pub width: i32,
    pub height: i32,
    pub x_offset: i32,
    pub y_offset: i32,
}

/// The chain pattern of a piece shape in view `view`.
pub open spec fn spec_chain_image(chain_type: ChainType, view: usize) -> ChainImage {
    match (chain_type, view) {
        (ChainType::Flat, 0) => ChainImage {
            pixels: [1, 2, 3, 1, 2, 3, 3, 1, 2, 3, 1, 2, 2, 3, 1, 2, 3, 1],
            width: 3i32,
            height: 6i32,
            x_offset: 0i32,
            y_offset: -2i32,
        },
        (ChainType::Flat, 1) => ChainImage {
            pixels: [1, 2, 3, 1, 2, 3, 2, 3, 1, 2, 3, 1, 3, 1, 2, 3, 1, 2],
            width: 3i32,
            height: 6i32,
            x_offset: 0i32,
            y_offset: -1i32,
        },
        (ChainType::Flat, 2) => ChainImage {
            pixels: [1, 3, 2, 1, 3, 2, 2, 1, 3, 2, 1, 3, 3, 2, 1, 3, 2, 1],
            width: 3i32,
            height: 6i32,
            x_offset: 0i32,
            y_offset: 0i32,
        },
        (ChainType::Flat, 3) => ChainImage {
            pixels: [1, 3, 2, 1, 3, 2, 3, 2, 1, 3, 2, 1, 2, 1, 3, 2, 1, 3],
            width: 3i32,
            height: 6i32,
            x_offset: -1i32,
            y_offset: 0i32,
        },
        (ChainType::Gentle, 0) => ChainImage {
            pixels: [1, 1, 2, 2, 3, 3, 3, 3, 1, 1, 2, 2, 2, 2, 3, 3, 1, 1],
            width: 6i32,
            height: 3i32,
            x_offset: -3i32,
            y_offset: -1i32,
        },
        (ChainType::Gentle, 1) => ChainImage {
            pixels: [1, 2, 3, 0, 0, 0, 0, 0, 0, 0, 0, 0, 0, 0, 0, 0, 0, 0],
            width: 3i32,
            height: 1i32,
            x_offset: 1i32,
            y_offset: 0i32,
        },
        (ChainType::Gentle, 2) => ChainImage {
            pixels: [3, 2, 1, 0, 0, 0, 0, 0, 0, 0, 0, 0, 0, 0, 0, 0, 0, 0],
            width: 3i32,
            height: 1i32,
            x_offset: 1i32,
            y_offset: 0i32,
        },
        (ChainType::Gentle, 3) => ChainImage {
            pixels: [2, 2, 1, 1, 3, 3, 1, 1, 3, 3, 2, 2, 3, 3, 2, 2, 1, 1],
            width: 6i32,
            height: 3i32,
            x_offset: 0i32,
            y_offset: -1i32,
        },
        (ChainType::FlatDiag, 0) => ChainImage {
            pixels: [1, 2, 3, 0, 0, 0, 0, 0, 0, 0, 0, 0, 0, 0, 0, 0, 0, 0],
            width: 3i32,
            height: 1i32,
            x_offset: -2i32,
            y_offset: 0i32,
        },
        (ChainType::FlatDiag, 1) => ChainImage {
            pixels: [1, 2, 3, 0, 0, 0, 0, 0, 0, 0, 0, 0, 0, 0, 0, 0, 0, 0],
            width: 1i32,
            height: 3i32,
            x_offset: 0i32,
            y_offset: -2i32,
        },
        (ChainType::FlatDiag, 2) => ChainImage {
            pixels: [3, 2, 1, 0, 0, 0, 0, 0, 0, 0, 0, 0, 0, 0, 0, 0, 0, 0],
            width: 3i32,
            height: 1i32,
            x_offset: -1i32,
            y_offset: 0i32,
        },
        (ChainType::FlatDiag, 3) => ChainImage {
            pixels: [3, 2, 1, 0, 0, 0, 0, 0, 0, 0, 0, 0, 0, 0, 0, 0, 0, 0],
            width: 1i32,
            height: 3i32,
            x_offset: 0i32,
            y_offset: -1i32,
        },
        _ => ChainImage { pixels: [0u8, 0, 0, 0, 0, 0, 0, 0, 0, 0, 0, 0, 0, 0, 0, 0, 0, 0], width: 1i32, height: 1i32, x_offset: 0i32, y_offset: 0i32 },
    }
}

/// The chain pattern of a piece shape in view `view`.
pub fn chain_image(chain_type: ChainType, view: usize) -> (r: ChainImage)
    requires
        view < 4,
    ensures
        r == spec_chain_image(chain_type, view),
        1 <= r.width && 1 <= r.height && r.width * r.height <= 18,
        -3 <= r.x_offset <= 1 && -2 <= r.y_offset <= 0,
{
    match (chain_type, view) {
        (ChainType::Flat, 0) => ChainImage {
            pixels: [1, 2, 3, 1, 2, 3, 3, 1, 2, 3, 1, 2, 2, 3, 1, 2, 3, 1],
            width: 3,
            height: 6,
            x_offset: 0,
            y_offset: -2,
        },
        (ChainType::Flat, 1) => ChainImage {
            pixels: [1, 2, 3, 1, 2, 3, 2, 3, 1, 2, 3, 1, 3, 1, 2, 3, 1, 2],
            width: 3,
            height: 6,
            x_offset: 0,
            y_offset: -1,
        },
        (ChainType::Flat, 2) => ChainImage {
            pixels: [1, 3, 2, 1, 3, 2, 2, 1, 3, 2, 1, 3, 3, 2, 1, 3, 2, 1],
            width: 3,
            height: 6,
            x_offset: 0,
            y_offset: 0,
        },
        (ChainType::Flat, 3) => ChainImage {
            pixels: [1, 3, 2, 1, 3, 2, 3, 2, 1, 3, 2, 1, 2, 1, 3, 2, 1, 3],
            width: 3,
            height: 6,
            x_offset: -1,
            y_offset: 0,
        },
        (ChainType::Gentle, 0) => ChainImage {
            pixels: [1, 1, 2, 2, 3, 3, 3, 3, 1, 1, 2, 2, 2, 2, 3, 3, 1, 1],
            width: 6,
            height: 3,
            x_offset: -3,
            y_offset: -1,
        },
        (ChainType::Gentle, 1) => ChainImage {
            pixels: [1, 2, 3, 0, 0, 0, 0, 0, 0, 0, 0, 0, 0, 0, 0, 0, 0, 0],
            width: 3,
            height: 1,
            x_offset: 1,
            y_offset: 0,
        },
        (ChainType::Gentle, 2) => ChainImage {
            pixels: [3, 2, 1, 0, 0, 0, 0, 0, 0, 0, 0, 0, 0, 0, 0, 0, 0, 0],
            width: 3,
            height: 1,
            x_offset: 1,
            y_offset: 0,
        },
        (ChainType::Gentle, 3) => ChainImage {
            pixels: [2, 2, 1, 1, 3, 3, 1, 1, 3, 3, 2, 2, 3, 3, 2, 2, 1, 1],
            width: 6,
            height: 3,
            x_offset: 0,
            y_offset: -1,
        },
        (ChainType::FlatDiag, 0) => ChainImage {
            pixels: [1, 2, 3, 0, 0, 0, 0, 0, 0, 0, 0, 0, 0, 0, 0, 0, 0, 0],
            width: 3,
            height: 1,
            x_offset: -2,
            y_offset: 0,
        },
        (ChainType::FlatDiag, 1) => ChainImage {
            pixels: [1, 2, 3, 0, 0, 0, 0, 0, 0, 0, 0, 0, 0, 0, 0, 0, 0, 0],
            width: 1,
            height: 3,
            x_offset: 0,
            y_offset: -2,
        },
        (ChainType::FlatDiag, 2) => ChainImage {
            pixels: [3, 2, 1, 0, 0, 0, 0, 0, 0, 0, 0, 0, 0, 0, 0, 0, 0, 0],
            width: 3,
            height: 1,
            x_offset: -1,
            y_offset: 0,
        },
        (ChainType::FlatDiag, 3) => ChainImage {
            pixels: [3, 2, 1, 0, 0, 0, 0, 0, 0, 0, 0, 0, 0, 0, 0, 0, 0, 0],
            width: 1,
            height: 3,
            x_offset: 0,
            y_offset: -1,
        },
        _ => ChainImage { pixels: [0u8, 0, 0, 0, 0, 0, 0, 0, 0, 0, 0, 0, 0, 0, 0, 0, 0, 0], width: 1, height: 1, x_offset: 0, y_offset: 0 },
    }
}

/// The chain's colour at image coordinates `(x, y)` relative to the view's origin.
pub open spec fn chain_pixel(c: ChainImage, x: int, y: int) -> u8 {
    let cx = (x - c.x_offset) % (c.width as int);
    let cy = (y - c.y_offset) % (c.height as int);
    c.pixels@[cx + cy * c.width]
}

/// Every chain pixel of `img` can be placed on the chain pattern without leaving `i32`.
pub open spec fn chain_fits(c: ChainImage, img: ImageView) -> bool {
    forall|x: int, y: int|
        0 <= x < img.width && 0 <= y < img.height && #[trigger] img.pixel(x, y) == CHAIN_PALETTE_INDEX_START ==> {
            &&& i32::MIN <= x + img.offset_x <= i32::MAX
            &&& i32::MIN <= x + img.offset_x - c.x_offset <= i32::MAX
            &&& i32::MIN <= y + img.offset_y <= i32::MAX
            &&& i32::MIN <= y + img.offset_y - c.y_offset <= i32::MAX
        }
}

/// The pixel `(x, y)` of `img` once the chain is drawn on it.
pub open spec fn chained_pixel(c: ChainImage, img: ImageView, x: int, y: int) -> u8 {
    if img.pixel(x, y) == CHAIN_PALETTE_INDEX_START {
        chain_pixel(c, img.offset_x + x, img.offset_y + y)
    } else {
        img.pixel(x, y)
    }
}

/// Draws the chain of a piece of shape `chain_type` onto `image`, rendered in view `view`.
pub fn apply_chain(image: &mut IndexedImage, chain_type: ChainType, view: usize)
    requires
        old(image).wf(),
        view < 4,
        chain_fits(spec_chain_image(chain_type, view), old(image)@),
    ensures
        final(image).wf(),
        final(image)@.width == old(image)@.width,
        final(image)@.height == old(image)@.height,
        final(image)@.offset_x == old(image)@.offset_x,
        final(image)@.offset_y == old(image)@.offset_y,
        forall|x: int, y: int|
            0 <= x < old(image)@.width && 0 <= y < old(image)@.height ==> #[trigger] final(image)@.pixel(x, y)
                == chained_pixel(spec_chain_image(chain_type, view), old(image)@, x, y),
{
    let c = chain_image(chain_type, view);
    let ghost img = image@;
    let width = image.width();
    let height = image.height();
    let mut y: u16 = 0;
    while y < height
        invariant
            image.wf(),
            y <= height,
            width == img.width,
            height == img.height,
            img.pixels.len() == img.width * img.height,
            c == spec_chain_image(chain_type, view),
            1 <= c.width && 1 <= c.height && c.width * c.height <= 18,
            chain_fits(c, img),
            image@.width == img.width && image@.height == img.height,
            image@.offset_x == img.offset_x && image@.offset_y == img.offset_y,
            forall|px: int, py: int|
                0 <= px < img.width && 0 <= py < img.height ==> #[trigger] image@.pixel(px, py) == if py < y {
                    chained_pixel(c, img, px, py)
                } else {
                    img.pixel(px, py)
                },
        decreases height - y,
    {
        let mut x: u16 = 0;
        while x < width
            invariant
                image.wf(),
                x <= width,
                y < height,
                width == img.width,
                height == img.height,
                img.pixels.len() == img.width * img.height,
                c == spec_chain_image(chain_type, view),
                1 <= c.width && 1 <= c.height && c.width * c.height <= 18,
                chain_fits(c, img),
                image@.width == img.width && image@.height == img.height,
                image@.offset_x == img.offset_x && image@.offset_y == img.offset_y,
                forall|px: int, py: int|
                    0 <= px < img.width && 0 <= py < img.height ==> #[trigger] image@.pixel(px, py) == if py
                        < y || (py == y && px < x) {
                        chained_pixel(c, img, px, py)
                    } else {
                        img.pixel(px, py)
                    },
            decreases width - x,
        {
            assert(image@.pixel(x as int, y as int) == img.pixel(x as int, y as int));
            if image.get_pixel(x as usize, y as usize) == CHAIN_PALETTE_INDEX_START {
                assert(img.pixel(x as int, y as int) == CHAIN_PALETTE_INDEX_START);
                let chain_x = (x as i32 + image.offset_x() - c.x_offset).checked_rem_euclid(c.width).unwrap();
                let chain_y = (y as i32 + image.offset_y() - c.y_offset).checked_rem_euclid(c.height).unwrap();
                proof {
                    assert(chain_x + chain_y * c.width < c.width * c.height) by (nonlinear_arith)
                        requires
                            0 <= chain_x < c.width,
                            0 <= chain_y < c.height,
                    ;
                    assert(chain_y * c.width >= 0) by (nonlinear_arith)
                        requires
                            0 <= chain_y,
                            0 <= c.width,
                    ;
                }
                let chain_index = (chain_x + chain_y * c.width) as usize;
                let ghost before = image@;
                image.set_pixel(x as usize, y as usize, c.pixels[chain_index]);
                proof {
                    lemma_pixel_index(img.width, img.height, x as int, y as int);
                    assert forall|px: int, py: int|
                        0 <= px < img.width && 0 <= py < img.height && (px != x || py != y) implies #[trigger] image@.pixel(
                            px,
                            py,
                        ) == before.pixel(px, py) by {
                        lemma_pixel_index(img.width, img.height, px, py);
                        lemma_pixel_index_distinct(img.width, px, py, x as int, y as int);
                    }
                }
            }
            x = x + 1;
        }
        y = y + 1;
    }
}

} // verus!
