//! Cutting a rendered track piece into sprites where the cut also depends on depth: which of
//! the track and the piece's mask lies nearer the camera.
use vstd::prelude::*;
use vstd::view::View as _;

use crate::crop::{crop_fits, crop_view, image_from, lemma_image_from};
use crate::indexed_image::{lemma_pixel_index, lemma_pixel_index_distinct, ImageView, IndexedImage};
use crate::mask::{primary_index, secondary_index, Operation, Sprite, View};
use crate::split::{
    calculate_tile_image_offset, covers, get_coordinates, split_pixel, split_sprite, splittable, sprite_placeable,
    tile_coordinates, tile_image_offset,
};

verus! {

/// The rank that stands for an infinite depth: where nothing was drawn.
pub const FAR: u32 = 0xffff_ffff;

/// A depth buffer whose depths are given by rank: of two pixels, the one with the smaller rank
/// lies nearer the camera, equal ranks lie at equal depth, and [`FAR`] stands for an infinite
/// depth.
pub struct DepthRanks {
    pub width: usize,
    pub height: usize,
    pub offset_x: i32,
    pub offset_y: i32,
    pub ranks: Vec<u32>,
}

impl DepthRanks {
    /// The ranks hold one entry per pixel, row after row.
    pub open spec fn wf(&self) -> bool {
        self.ranks@.len() == self.width * self.height
    }

    /// The rank of pixel `(x, y)`.
    pub open spec fn rank(&self, x: int, y: int) -> u32 {
        self.ranks@[y * self.width + x]
    }

    /// The rank of the pixel at screen coordinates `(x, y)`: [`FAR`] outside the buffer.
    pub open spec fn rank_at(&self, x: int, y: int) -> u32 {
        let lx = x - self.offset_x;
        let ly = y - self.offset_y;
        if 0 <= lx < self.width && 0 <= ly < self.height {
            self.rank(lx, ly)
        } else {
            FAR
        }
    }

    fn get(&self, x: usize, y: usize) -> (r: u32)
        requires
            self.wf(),
            x < self.width,
            y < self.height,
        ensures
            r == self.rank(x as int, y as int),
    {
        let n = self.ranks.len();
        proof {
            lemma_pixel_index(self.width as int, self.height as int, x as int, y as int);
        }
        self.ranks[y * self.width + x]
    }

    /// The rank of the pixel at screen coordinates `(x, y)`.
    pub fn get_at(&self, x: i32, y: i32) -> (r: u32)
        requires
            self.wf(),
        ensures
            r == self.rank_at(x as int, y as int),
    {
        let lx = x as i64 - self.offset_x as i64;
        let ly = y as i64 - self.offset_y as i64;
        if 0 <= lx && 0 <= ly && (lx as usize) < self.width && (ly as usize) < self.height {
            self.get(lx as usize, ly as usize)
        } else {
            FAR
        }
    }
}

/// Whether pixel `(x, y)` of `img` leaves the sprite of section `index` cut by `operation`:
/// `track` is the rank of the track there, `mask` that of the piece's mask.
pub open spec fn depth_masked(
    view: View,
    img: ImageView,
    y_offset: int,
    index: u8,
    operation: Operation,
    track: u32,
    mask: u32,
    x: int,
    y: int,
) -> bool {
    let p = view.sample(img.offset_x + x, img.offset_y + y + y_offset);
    match operation {
        Operation::Intersect => primary_index(p) != index || track < mask,
        Operation::Difference => secondary_index(p) != index || track >= mask,
        Operation::TransferNext => !(primary_index(p) == index || (primary_index(p) == index + 1 && track > mask)),
    }
}

/// Pixel `(x, y)` of the sprite of section `index` cut by `operation` from `img`, with the track
/// at depth `track_depth` and the mask at depth `mask_depth`.
pub open spec fn depth_split_pixel(
    view: View,
    img: ImageView,
    y_offset: int,
    index: u8,
    operation: Operation,
    track_depth: DepthRanks,
    mask_depth: DepthRanks,
    x: int,
    y: int,
) -> u8 {
    let track = track_depth.rank(x, y);
    let mask = mask_depth.rank_at(img.offset_x + x, img.offset_y + y);
    if depth_masked(view, img, y_offset, index, operation, track, mask, x, y) {
        0
    } else {
        img.pixel(x, y)
    }
}

/// The depth buffers fit the image: the track's covers every pixel of it.
pub open spec fn depths_fit(img: ImageView, track_depth: DepthRanks, mask_depth: DepthRanks) -> bool {
    &&& track_depth.wf()
    &&& mask_depth.wf()
    &&& img.width <= track_depth.width
    &&& img.height <= track_depth.height
}

fn split_sprite_depth(
    view: &View,
    sprite: &Sprite,
    image: IndexedImage,
    y_offset: i32,
    track_depth: &DepthRanks,
    mask_depth: &DepthRanks,
    operation: Operation,
) -> (r: IndexedImage)
    requires
        image.wf(),
        splittable(*view, image@, y_offset as int),
        depths_fit(image@, *track_depth, *mask_depth),
    ensures
        r.wf(),
        r@.width == image@.width,
        r@.height == image@.height,
        r@.offset_x == image@.offset_x,
        r@.offset_y == image@.offset_y,
        forall|x: int, y: int|
            0 <= x < image@.width && 0 <= y < image@.height ==> #[trigger] r@.pixel(x, y) == depth_split_pixel(
                *view,
                image@,
                y_offset as int,
                sprite.index,
                operation,
                *track_depth,
                *mask_depth,
                x,
                y,
            ),
{
    let ghost img = image@;
    let mut image = image;
    let width = image.width();
    let height = image.height();
    let mut y: u16 = 0;
    while y < height
        invariant
            image.wf(),
            y <= height,
            width == img.width,
            height == img.height,
            splittable(*view, img, y_offset as int),
            depths_fit(img, *track_depth, *mask_depth),
            image@.width == img.width && image@.height == img.height,
            image@.offset_x == img.offset_x && image@.offset_y == img.offset_y,
            forall|px: int, py: int|
                0 <= px < img.width && 0 <= py < img.height ==> #[trigger] image@.pixel(px, py) == if py < y {
                    depth_split_pixel(*view, img, y_offset as int, sprite.index, operation, *track_depth, *mask_depth, px, py)
                } else {
                    img.pixel(px, py)
                },
        decreases height - y,
    {
        let mut x: u16 = 0;
        while x < width
            invariant
                image.wf(),
                x <= width,
                y < height,
                width == img.width,
                height == img.height,
                splittable(*view, img, y_offset as int),
                depths_fit(img, *track_depth, *mask_depth),
                image@.width == img.width && image@.height == img.height,
                image@.offset_x == img.offset_x && image@.offset_y == img.offset_y,
                forall|px: int, py: int|
                    0 <= px < img.width && 0 <= py < img.height ==> #[trigger] image@.pixel(px, py) == if py
                        < y || (py == y && px < x) {
                        depth_split_pixel(
                            *view,
                            img,
                            y_offset as int,
                            sprite.index,
                            operation,
                            *track_depth,
                            *mask_depth,
                            px,
                            py,
                        )
                    } else {
                        img.pixel(px, py)
                    },
            decreases width - x,
        {
            assert(covers(*view, img, y_offset as int, x as int, y as int));
            let mask_x = image.offset_x() + x as i32;
            let mask_y = image.offset_y() + y as i32;
            let track = track_depth.get(x as usize, y as usize);
            let mask = mask_depth.get_at(mask_x, mask_y);
            let sample_y = mask_y + y_offset;
            let masked = match operation {
                Operation::Intersect => !view.sample_primary(mask_x, sample_y, sprite.index) || track < mask,
                Operation::Difference => !view.sample_secondary(mask_x, sample_y, sprite.index) || track >= mask,
                Operation::TransferNext => !(view.sample_primary(mask_x, sample_y, sprite.index) || (sprite.index
                    < 255 && view.sample_primary(mask_x, sample_y, sprite.index + 1) && track > mask)),
            };
            proof {
                let p = view.sample(img.offset_x + x, img.offset_y + y + y_offset);
                assert(p & 0b111u8 < 8) by (bit_vector);
            }
            assert(masked == depth_masked(
                *view,
                img,
                y_offset as int,
                sprite.index,
                operation,
                track,
                mask,
                x as int,
                y as int,
            ));
            if masked {
                let ghost before = image@;
                image.set_pixel(x as usize, y as usize, 0);
                proof {
                    lemma_pixel_index(img.width, img.height, x as int, y as int);
                    assert forall|px: int, py: int|
                        0 <= px < img.width && 0 <= py < img.height && (px != x || py != y) implies #[trigger] image@.pixel(
                            px,
                            py,
                        ) == before.pixel(px, py) by {
                        lemma_pixel_index(img.width, img.height, px, py);
                        lemma_pixel_index_distinct(img.width, px, py, x as int, y as int);
                        assert(image@.pixels == before.pixels.update(y * img.width + x, 0));
                    }
                }
            }
            x = x + 1;
        }
        y = y + 1;
    }
    image
}

/// Pixel `(x, y)` of the sprite `sprite` cut from `img`: by depth where the sprite names an
/// operation, by the mask alone where it names none.
pub open spec fn depth_sprite_pixel(
    view: View,
    img: ImageView,
    y_offset: int,
    sprite: Sprite,
    track_depth: DepthRanks,
    mask_depth: DepthRanks,
    x: int,
    y: int,
) -> u8 {
    match sprite.operation {
        Some(operation) => depth_split_pixel(view, img, y_offset, sprite.index, operation, track_depth, mask_depth, x, y),
        None => split_pixel(view, img, y_offset, sprite.index, x, y),
    }
}

/// The pixels of the sprite `sprite` cut from `img` with the help of the depth buffers, by
/// position.
pub open spec fn depth_fn(
    view: View,
    img: ImageView,
    y_offset: int,
    sprite: Sprite,
    track_depth: DepthRanks,
    mask_depth: DepthRanks,
) -> spec_fn(int, int) -> u8 {
    |x: int, y: int| depth_sprite_pixel(view, img, y_offset, sprite, track_depth, mask_depth, x, y)
}

/// The sprite `sprite` cut from `img` with the help of the depth buffers and placed on its
/// tile, before cropping.
pub open spec fn depth_split_view(
    view: View,
    img: ImageView,
    sprite: Sprite,
    tiles: Seq<[i16; 3]>,
    rotation: int,
    y_offset: int,
    track_depth: DepthRanks,
    mask_depth: DepthRanks,
) -> ImageView {
    let (dx, dy) = tile_image_offset(tile_coordinates(sprite.tile, tiles), sprite.offset@, rotation);
    image_from(
        img.width,
        img.height,
        img.offset_x + dx,
        img.offset_y + dy,
        depth_fn(view, img, y_offset, sprite, track_depth, mask_depth),
    )
}

/// Cuts `image` into the sprites of `view`, each placed on its tile of `tiles` in a view turned
/// `rotation` quarter turns, then cropped to its visible pixels. A sprite that names an
/// operation is cut by comparing the depth of the track (`track_depth`, aligned with the image)
/// with that of the piece's mask (`mask_depth`, placed by its own offset); the others by the
/// mask alone.
pub fn split_image_depth(
    image: &IndexedImage,
    view: &View,
    tiles: &[[i16; 3]],
    rotation: usize,
    y_offset: i32,
    track_depth: &DepthRanks,
    mask_depth: &DepthRanks,
) -> (r: Vec<IndexedImage>)
    requires
        image.wf(),
        splittable(*view, image@, y_offset as int),
        depths_fit(image@, *track_depth, *mask_depth),
        forall|i: int|
            0 <= i < view.sprites@.len() ==> sprite_placeable(image@, #[trigger] view.sprites@[i], tiles@, rotation as int),
        forall|i: int|
            0 <= i < view.sprites@.len() ==> crop_fits(
                depth_split_view(
                    *view,
                    image@,
                    #[trigger] view.sprites@[i],
                    tiles@,
                    rotation as int,
                    y_offset as int,
                    *track_depth,
                    *mask_depth,
                ),
            ),
    ensures
        r@.len() == view.sprites@.len(),
        forall|i: int|
            0 <= i < r@.len() ==> (#[trigger] r@[i]).wf() && r@[i]@ == crop_view(
                depth_split_view(
                    *view,
                    image@,
                    view.sprites@[i],
                    tiles@,
                    rotation as int,
                    y_offset as int,
                    *track_depth,
                    *mask_depth,
                ),
            ),
{
    let mut out: Vec<IndexedImage> = Vec::new();
    let mut i: usize = 0;
    while i < view.sprites.len()
        invariant
            i <= view.sprites@.len(),
            out@.len() == i,
            image.wf(),
            splittable(*view, image@, y_offset as int),
            depths_fit(image@, *track_depth, *mask_depth),
            forall|k: int|
                0 <= k < view.sprites@.len() ==> sprite_placeable(image@, #[trigger] view.sprites@[k], tiles@, rotation as int),
            forall|k: int|
                0 <= k < view.sprites@.len() ==> crop_fits(
                    depth_split_view(
                        *view,
                        image@,
                        #[trigger] view.sprites@[k],
                        tiles@,
                        rotation as int,
                        y_offset as int,
                        *track_depth,
                        *mask_depth,
                    ),
                ),
            forall|k: int|
                0 <= k < i ==> (#[trigger] out@[k]).wf() && out@[k]@ == crop_view(
                    depth_split_view(
                        *view,
                        image@,
                        view.sprites@[k],
                        tiles@,
                        rotation as int,
                        y_offset as int,
                        *track_depth,
                        *mask_depth,
                    ),
                ),
        decreases view.sprites@.len() - i,
    {
        let sprite = &view.sprites[i];
        assert(sprite_placeable(image@, view.sprites@[i as int], tiles@, rotation as int));
        assert(crop_fits(
            depth_split_view(
                *view,
                image@,
                view.sprites@[i as int],
                tiles@,
                rotation as int,
                y_offset as int,
                *track_depth,
                *mask_depth,
            ),
        ));
        let mut split = match sprite.operation {
            Some(operation) => split_sprite_depth(
                view,
                sprite,
                image.duplicate(),
                y_offset,
                track_depth,
                mask_depth,
                operation,
            ),
            None => split_sprite(view, sprite, image.duplicate(), y_offset),
        };
        let ghost cut = split@;
        let coordinates = get_coordinates(sprite.tile, tiles);
        let (dx, dy) = calculate_tile_image_offset(&coordinates, &sprite.offset, rotation);
        let ox = split.offset_x() + dx;
        let oy = split.offset_y() + dy;
        split.set_offset(ox, oy);
        proof {
            let f = depth_fn(*view, image@, y_offset as int, *sprite, *track_depth, *mask_depth);
            assert forall|x: int, y: int| 0 <= x < split@.width && 0 <= y < split@.height implies split@.pixel(x, y)
                == f(x, y) by {
                assert(split@.pixel(x, y) == cut.pixel(x, y));
            }
            lemma_image_from(split@, f);
        }
        split.crop();
        out.push(split);
        i = i + 1;
    }
    out
}

} // verus!
