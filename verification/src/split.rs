//! Cutting a rendered track piece into the sprites of a view.
use vstd::prelude::*;
use vstd::view::View as _;

use crate::crop::{crop_fits, crop_view, image_from, lemma_image_from};
use crate::indexed_image::{lemma_pixel_index, lemma_pixel_index_distinct, ImageView, IndexedImage};
use crate::mask::{primary_index, Sprite, TileType, View};

verus! {

/// Pixel `(x, y)` of `img`, moved by `y_offset`, can be looked up in the view's mask.
pub open spec fn covers(view: View, img: ImageView, y_offset: int, x: int, y: int) -> bool {
    &&& i32::MIN <= img.offset_x + x <= i32::MAX
    &&& i32::MIN <= img.offset_y + y <= i32::MAX
    &&& i32::MIN <= img.offset_y + y + y_offset <= i32::MAX
    &&& view.translatable(img.offset_x + x, img.offset_y + y + y_offset)
}

/// Every pixel of `img`, moved by `y_offset`, can be looked up in the view's mask.
pub open spec fn splittable(view: View, img: ImageView, y_offset: int) -> bool {
    &&& view.sampleable()
    &&& forall|x: int, y: int|
        0 <= x < img.width && 0 <= y < img.height ==> #[trigger] covers(view, img, y_offset, x, y)
}

/// Pixel `(x, y)` of the sprite of section `index` cut from `img`: kept where the mask gives
/// the pixel to the section, else transparent.
pub open spec fn split_pixel(view: View, img: ImageView, y_offset: int, index: u8, x: int, y: int) -> u8 {
    if primary_index(view.sample(img.offset_x + x, img.offset_y + y + y_offset)) == index {
        img.pixel(x, y)
    } else {
        0
    }
}

/// Keeps the pixels of `image` that the mask gives to the sprite's section.
pub(crate) fn split_sprite(view: &View, sprite: &Sprite, image: IndexedImage, y_offset: i32) -> (r: IndexedImage)
    requires
        image.wf(),
        splittable(*view, image@, y_offset as int),
    ensures
        r.wf(),
        r@.width == image@.width,
        r@.height == image@.height,
        r@.offset_x == image@.offset_x,
        r@.offset_y == image@.offset_y,
        forall|x: int, y: int|
            0 <= x < image@.width && 0 <= y < image@.height ==> #[trigger] r@.pixel(x, y) == split_pixel(
                *view,
                image@,
                y_offset as int,
                sprite.index,
                x,
                y,
            ),
{
    let ghost img = image@;
    let mut image = image;
    let width = image.width();
    let height = image.height();
    let mut y: u16 = 0;
    while y < height
        invariant
            image.wf(),
            y <= height,
            width == img.width,
            height == img.height,
            splittable(*view, img, y_offset as int),
            image@.width == img.width && image@.height == img.height,
            image@.offset_x == img.offset_x && image@.offset_y == img.offset_y,
            forall|px: int, py: int|
                0 <= px < img.width && 0 <= py < img.height ==> #[trigger] image@.pixel(px, py) == if py < y {
                    split_pixel(*view, img, y_offset as int, sprite.index, px, py)
                } else {
                    img.pixel(px, py)
                },
        decreases height - y,
    {
        let mut x: u16 = 0;
        while x < width
            invariant
                image.wf(),
                x <= width,
                y < height,
                width == img.width,
                height == img.height,
                splittable(*view, img, y_offset as int),
                image@.width == img.width && image@.height == img.height,
                image@.offset_x == img.offset_x && image@.offset_y == img.offset_y,
                forall|px: int, py: int|
                    0 <= px < img.width && 0 <= py < img.height ==> #[trigger] image@.pixel(px, py) == if py
                        < y || (py == y && px < x) {
                        split_pixel(*view, img, y_offset as int, sprite.index, px, py)
                    } else {
                        img.pixel(px, py)
                    },
            decreases width - x,
        {
            assert(covers(*view, img, y_offset as int, x as int, y as int));
            let mask_x = image.offset_x() + x as i32;
            let mask_y = image.offset_y() + y as i32 + y_offset;
            let keep = view.sample_primary(mask_x, mask_y, sprite.index);
            if !keep {
                let ghost before = image@;
                image.set_pixel(x as usize, y as usize, 0);
                proof {
                    lemma_pixel_index(img.width, img.height, x as int, y as int);
                    assert forall|px: int, py: int|
                        0 <= px < img.width && 0 <= py < img.height && (px != x || py != y) implies #[trigger] image@.pixel(
                            px,
                            py,
                        ) == before.pixel(px, py) by {
                        lemma_pixel_index(img.width, img.height, px, py);
                        lemma_pixel_index_distinct(img.width, px, py, x as int, y as int);
                        assert(image@.pixels == before.pixels.update(y * img.width + x, 0));
                        assert(before.pixels.len() == img.width * img.height);
                    }
                    lemma_pixel_index(img.width, img.height, x as int, y as int);
                }
            }
            x = x + 1;
        }
        y = y + 1;
    }
    image
}

/// Whether a cut sprite is empty: what cropping leaves of a sprite without a visible pixel.
pub fn is_sprite_empty(image: &IndexedImage) -> (r: bool)
    requires
        image.wf(),
    ensures
        r == (image@.width == 1 && image@.height == 1 && image@.pixel(0, 0) == 0),
{
    image.width() == 1 && image.height() == 1 && image.get_pixel(0, 0) == 0
}

/// The coordinates of a sprite's tile among the piece's tiles; the origin where there is no
/// such tile.
pub open spec fn tile_coordinates(tile: TileType, tiles: Seq<[i16; 3]>) -> Seq<i16> {
    match tile {
        TileType::Index(i) => if i < tiles.len() {
            tiles[i as int]@
        } else {
            seq![0i16, 0i16, 0i16]
        },
        TileType::Last => if tiles.len() > 0 {
            tiles.last()@
        } else {
            seq![0i16, 0i16, 0i16]
        },
    }
}

/// The coordinates of a sprite's tile among the piece's tiles.
pub fn get_coordinates(tile: TileType, tiles: &[[i16; 3]]) -> (r: [i16; 3])
    ensures
        r@ == tile_coordinates(tile, tiles@),
{
    let r: [i16; 3] = match tile {
        TileType::Index(index) => if index < tiles.len() {
            tiles[index]
        } else {
            [0, 0, 0]
        },
        TileType::Last => if tiles.len() > 0 {
            tiles[tiles.len() - 1]
        } else {
            [0, 0, 0]
        },
    };
    assert(r@ =~= tile_coordinates(tile, tiles@));
    r
}

/// Integer division by two, rounding toward zero.
pub open spec fn half_toward_zero(v: int) -> int {
    if v >= 0 {
        v / 2
    } else {
        -((-v) / 2)
    }
}

/// The tile coordinates turned `rotation` quarter turns and moved by `offset`.
pub open spec fn rotated_tile(c: Seq<i16>, offset: Seq<i16>, rotation: int) -> (int, int, int) {
    let (x, y) = if rotation == 1 {
        (c[1] as int, -c[0])
    } else if rotation == 2 {
        (-c[0], -c[1])
    } else if rotation == 3 {
        (-c[1], c[0] as int)
    } else {
        (c[0] as int, c[1] as int)
    };
    (x + offset[0], y + offset[1], c[2] + offset[2])
}

/// Where a tile at `c`, moved by `offset` and turned `rotation` quarter turns, lands on screen.
pub open spec fn tile_image_offset(c: Seq<i16>, offset: Seq<i16>, rotation: int) -> (int, int) {
    let (x, y, z) = rotated_tile(c, offset, rotation);
    (x - y, half_toward_zero(-(x + y)) + z)
}

/// The tile coordinates `(x, y, z)` turned a quarter turn: `(y, -x, z)`.
pub open spec fn quarter_turn(c: Seq<i16>) -> Seq<i16> {
    seq![c[1], (-c[0]) as i16, c[2]]
}

/// The tile coordinates `(x, y, z)` turned a half turn: `(-x, -y, z)`.
pub open spec fn half_turn(c: Seq<i16>) -> Seq<i16> {
    seq![(-c[0]) as i16, (-c[1]) as i16, c[2]]
}

/// In an unturned view a tile at `(x, y, z)` moved by `(ox, oy, oz)` lands at
/// `(x + ox) - (y + oy)` across and `-((x + ox) + (y + oy)) / 2 + z + oz` down (the halving
/// rounds toward zero); a view turned by one more quarter turn places the tile as the view
/// before it places the tile turned a quarter turn; so the view turned three quarter turns
/// places `(x, y, z)` as the view turned one quarter turn places `(-x, -y, z)`.
pub proof fn lemma_tile_offset_turns(c: Seq<i16>, offset: Seq<i16>)
    requires
        c.len() == 3,
        offset.len() == 3,
        c[0] != i16::MIN,
        c[1] != i16::MIN,
    ensures
        tile_image_offset(c, offset, 0) == (
            (c[0] + offset[0]) - (c[1] + offset[1]),
            half_toward_zero(-((c[0] + offset[0]) + (c[1] + offset[1]))) + c[2] + offset[2],
        ),
        tile_image_offset(c, offset, 1) == tile_image_offset(quarter_turn(c), offset, 0),
        tile_image_offset(c, offset, 2) == tile_image_offset(quarter_turn(c), offset, 1),
        tile_image_offset(c, offset, 3) == tile_image_offset(quarter_turn(c), offset, 2),
        tile_image_offset(c, offset, 3) == tile_image_offset(half_turn(c), offset, 1),
{
}

/// The coordinates fit `i16` at every step of [`tile_image_offset`].
pub open spec fn tile_offset_fits(c: Seq<i16>, offset: Seq<i16>, rotation: int) -> bool {
    let (x, y, z) = rotated_tile(c, offset, rotation);
    let fits = |v: int| i16::MIN <= v <= i16::MAX;
    &&& (rotation == 1 || rotation == 2) ==> c[0] > i16::MIN
    &&& (rotation == 2 || rotation == 3) ==> c[1] > i16::MIN
    &&& fits(x) && fits(y) && fits(z)
    &&& fits(x - y) && fits(x + y) && fits(-(x + y))
    &&& fits(half_toward_zero(-(x + y)) + z)
}

/// Where a sprite drawn on the tile at `coordinates`, moved by `offset`, lands on screen in a
/// view turned `rotation` quarter turns.
pub fn calculate_tile_image_offset(coordinates: &[i16; 3], offset: &[i16; 3], rotation: usize) -> (r: (i32, i32))
    requires
        tile_offset_fits(coordinates@, offset@, rotation as int),
    ensures
        r.0 == tile_image_offset(coordinates@, offset@, rotation as int).0,
        r.1 == tile_image_offset(coordinates@, offset@, rotation as int).1,
{
    let x = coordinates[0];
    let y = coordinates[1];
    let z = coordinates[2];
    let (x, y) = if rotation == 1 {
        (y, -x)
    } else if rotation == 2 {
        (-x, -y)
    } else if rotation == 3 {
        (-y, x)
    } else {
        (x, y)
    };
    let x = x + offset[0];
    let y = y + offset[1];
    let z = z + offset[2];
    let offset_x = x - y;
    let offset_y = (-(x + y) / 2) + z;
    (offset_x as i32, offset_y as i32)
}


/// The sprite `sprite` of a view can be cut from `img` and placed.
pub open spec fn sprite_placeable(img: ImageView, sprite: Sprite, tiles: Seq<[i16; 3]>, rotation: int) -> bool {
    let c = tile_coordinates(sprite.tile, tiles);
    let (dx, dy) = tile_image_offset(c, sprite.offset@, rotation);
    &&& tile_offset_fits(c, sprite.offset@, rotation)
    &&& i32::MIN <= img.offset_x + dx <= i32::MAX
    &&& i32::MIN <= img.offset_y + dy <= i32::MAX
}

/// The pixels of the sprite of section `index` cut from `img`, by position.
pub open spec fn split_fn(view: View, img: ImageView, y_offset: int, index: u8) -> spec_fn(int, int) -> u8 {
    |x: int, y: int| split_pixel(view, img, y_offset, index, x, y)
}

/// The sprite `sprite` cut from `img` and placed on its tile, before cropping.
pub open spec fn split_view(
    view: View,
    img: ImageView,
    sprite: Sprite,
    tiles: Seq<[i16; 3]>,
    rotation: int,
    y_offset: int,
) -> ImageView {
    let (dx, dy) = tile_image_offset(tile_coordinates(sprite.tile, tiles), sprite.offset@, rotation);
    image_from(
        img.width,
        img.height,
        img.offset_x + dx,
        img.offset_y + dy,
        split_fn(view, img, y_offset, sprite.index),
    )
}

/// Cuts `image` into the sprites of `view`, each placed on its tile of `tiles` in a view turned
/// `rotation` quarter turns, then cropped to its visible pixels.
pub fn split_image(image: &IndexedImage, view: &View, tiles: &[[i16; 3]], rotation: usize, y_offset: i32) -> (r: Vec<IndexedImage>)
    requires
        image.wf(),
        splittable(*view, image@, y_offset as int),
        forall|i: int|
            0 <= i < view.sprites@.len() ==> sprite_placeable(image@, #[trigger] view.sprites@[i], tiles@, rotation as int),
        forall|i: int|
            0 <= i < view.sprites@.len() ==> crop_fits(
                split_view(*view, image@, #[trigger] view.sprites@[i], tiles@, rotation as int, y_offset as int),
            ),
    ensures
        r@.len() == view.sprites@.len(),
        forall|i: int|
            0 <= i < r@.len() ==> (#[trigger] r@[i]).wf() && r@[i]@ == crop_view(
                split_view(*view, image@, view.sprites@[i], tiles@, rotation as int, y_offset as int),
            ),
{
    let mut out: Vec<IndexedImage> = Vec::new();
    let mut i: usize = 0;
    while i < view.sprites.len()
        invariant
            i <= view.sprites@.len(),
            out@.len() == i,
            image.wf(),
            splittable(*view, image@, y_offset as int),
            forall|k: int|
                0 <= k < view.sprites@.len() ==> sprite_placeable(image@, #[trigger] view.sprites@[k], tiles@, rotation as int),
            forall|k: int|
                0 <= k < view.sprites@.len() ==> crop_fits(
                    split_view(*view, image@, #[trigger] view.sprites@[k], tiles@, rotation as int, y_offset as int),
                ),
            forall|k: int|
                0 <= k < i ==> (#[trigger] out@[k]).wf() && out@[k]@ == crop_view(
                    split_view(*view, image@, view.sprites@[k], tiles@, rotation as int, y_offset as int),
                ),
        decreases view.sprites@.len() - i,
    {
        let sprite = &view.sprites[i];
        assert(sprite_placeable(image@, view.sprites@[i as int], tiles@, rotation as int));
        assert(crop_fits(split_view(*view, image@, view.sprites@[i as int], tiles@, rotation as int, y_offset as int)));
        let mut split = split_sprite(view, sprite, image.duplicate(), y_offset);
        let ghost cut = split@;
        let coordinates = get_coordinates(sprite.tile, tiles);
        let (dx, dy) = calculate_tile_image_offset(&coordinates, &sprite.offset, rotation);
        let ox = split.offset_x() + dx;
        let oy = split.offset_y() + dy;
        split.set_offset(ox, oy);
        proof {
            let f = split_fn(*view, image@, y_offset as int, sprite.index);
            assert forall|x: int, y: int| 0 <= x < split@.width && 0 <= y < split@.height implies split@.pixel(x, y)
                == f(x, y) by {
                assert(split@.pixel(x, y) == cut.pixel(x, y));
            }
            lemma_image_from(split@, f);
            assert(split@ == split_view(*view, image@, *sprite, tiles@, rotation as int, y_offset as int));
        }
        split.crop();
        out.push(split);
        i = i + 1;
    }
    out
}


/// The sprites cut for different sections share no pixel, and each keeps the image's own
/// pixels or leaves them transparent.
pub proof fn lemma_split_sprites_disjoint(view: View, img: ImageView, y_offset: int, i: u8, j: u8, x: int, y: int)
    requires
        i != j,
    ensures
        split_pixel(view, img, y_offset, i, x, y) == 0 || split_pixel(view, img, y_offset, j, x, y) == 0,
        split_pixel(view, img, y_offset, i, x, y) == img.pixel(x, y) || split_pixel(view, img, y_offset, i, x, y) == 0,
{
}


/// Pixel `(x, y)` of `img` once the parts outside the view's sections are cleared: pixels on
/// which the mask marks no primary section become transparent.
pub open spec fn masked_pixel(view: View, img: ImageView, x: int, y: int) -> u8 {
    if primary_index(view.sample(img.offset_x + x, img.offset_y + y)) == 0 {
        0
    } else {
        img.pixel(x, y)
    }
}

/// Clears the pixels of a rendered image on which the view's mask marks no section, so that
/// the editor shows only what the view's sprites will hold.
pub fn clear_outside_mask(image: &mut IndexedImage, view: &View)
    requires
        old(image).wf(),
        splittable(*view, old(image)@, 0),
    ensures
        final(image).wf(),
        final(image)@.width == old(image)@.width,
        final(image)@.height == old(image)@.height,
        final(image)@.offset_x == old(image)@.offset_x,
        final(image)@.offset_y == old(image)@.offset_y,
        forall|x: int, y: int|
            0 <= x < old(image)@.width && 0 <= y < old(image)@.height ==> #[trigger] final(image)@.pixel(x, y)
                == masked_pixel(*view, old(image)@, x, y),
{
    let ghost img = image@;
    let width = image.width();
    let height = image.height();
    let mut y: u16 = 0;
    while y < height
        invariant
            image.wf(),
            y <= height,
            width == img.width,
            height == img.height,
            splittable(*view, img, 0),
            image@.width == img.width && image@.height == img.height,
            image@.offset_x == img.offset_x && image@.offset_y == img.offset_y,
            forall|px: int, py: int|
                0 <= px < img.width && 0 <= py < img.height ==> #[trigger] image@.pixel(px, py) == if py < y {
                    masked_pixel(*view, img, px, py)
                } else {
                    img.pixel(px, py)
                },
        decreases height - y,
    {
        let mut x: u16 = 0;
        while x < width
            invariant
                image.wf(),
                x <= width,
                y < height,
                width == img.width,
                height == img.height,
                splittable(*view, img, 0),
                image@.width == img.width && image@.height == img.height,
                image@.offset_x == img.offset_x && image@.offset_y == img.offset_y,
                forall|px: int, py: int|
                    0 <= px < img.width && 0 <= py < img.height ==> #[trigger] image@.pixel(px, py) == if py
                        < y || (py == y && px < x) {
                        masked_pixel(*view, img, px, py)
                    } else {
                        img.pixel(px, py)
                    },
            decreases width - x,
        {
            assert(covers(*view, img, 0, x as int, y as int));
            let mask_x = image.offset_x() + x as i32;
            let mask_y = image.offset_y() + y as i32;
            if view.sample_primary(mask_x, mask_y, 0) {
                let ghost before = image@;
                image.set_pixel(x as usize, y as usize, 0);
                proof {
                    lemma_pixel_index(img.width, img.height, x as int, y as int);
                    assert forall|px: int, py: int|
                        0 <= px < img.width && 0 <= py < img.height && (px != x || py != y) implies #[trigger] image@.pixel(
                            px,
                            py,
                        ) == before.pixel(px, py) by {
                        lemma_pixel_index(img.width, img.height, px, py);
                        lemma_pixel_index_distinct(img.width, px, py, x as int, y as int);
                        assert(image@.pixels == before.pixels.update(y * img.width + x, 0));
                    }
                }
            }
            x = x + 1;
        }
        y = y + 1;
    }
}

} // verus!
