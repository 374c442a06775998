//! Placing sprites on the editor's canvas: tile coordinates, draw order around a piece,
//! clipping to the canvas, and colour remapping.
use vstd::prelude::*;

use crate::colour::{Colour, COLOUR_RAMPS};
use crate::coords::{screen_fits, screen_of, Coords, ScreenCoords};

verus! {

/// How the editor draws the track piece.
#[derive(Clone, Copy, Debug, PartialEq, Eq, Structural)]
pub struct Options {
    /// Draw the palette-indexed image rather than the full-colour one.
    pub indexed: bool,
    /// Draw the pieces next to this one.
    pub adjacent_track: bool,
    /// Draw the game's own sprites of the piece.
    pub original_track: bool,
    pub colour_1: Colour,
    pub colour_2: Colour,
}

impl Default for Options {
    /// Indexed drawing in light blue and bright pink.
    fn default() -> (r: Options)
        ensures
            r.indexed && !r.adjacent_track && !r.original_track,
            r.colour_1 == Colour::LightBlue && r.colour_2 == Colour::BrightPink,
    {
        Options {
            indexed: true,
            adjacent_track: false,
            original_track: false,
            colour_1: Colour::LightBlue,
            colour_2: Colour::BrightPink,
        }
    }
}

/// The sum of two tile-relative positions fits `i16`.
pub open spec fn addable(a: Seq<i16>, b: Seq<i16>) -> bool {
    forall|k: int| 0 <= k < 3 ==> i16::MIN <= #[trigger] a[k] + b[k] <= i16::MAX
}

/// The sum of two tile-relative positions.
pub fn add_coords(a: &[i16; 3], b: &[i16; 3]) -> (r: [i16; 3])
    requires
        addable(a@, b@),
    ensures
        forall|k: int| 0 <= k < 3 ==> #[trigger] r@[k] == a@[k] + b@[k],
{
    proof {
        assert(i16::MIN <= a@[0] + b@[0] <= i16::MAX);
        assert(i16::MIN <= a@[1] + b@[1] <= i16::MAX);
        assert(i16::MIN <= a@[2] + b@[2] <= i16::MAX);
    }
    [a[0] + b[0], a[1] + b[1], a[2] + b[2]]
}

/// A tile-relative position after `rotation` quarter turns; other values of `rotation` leave
/// it as it is.
pub open spec fn spec_rotate_coords(c: Seq<i16>, rotation: int) -> Seq<i16> {
    if rotation == 1 {
        seq![c[1], (-c[0]) as i16, c[2]]
    } else if rotation == 2 {
        seq![(-c[0]) as i16, (-c[1]) as i16, c[2]]
    } else if rotation == 3 {
        seq![(-c[1]) as i16, c[0], c[2]]
    } else {
        seq![c[0], c[1], c[2]]
    }
}

/// No coordinate that a turn by `rotation` negates is `i16::MIN`.
pub open spec fn coords_rotatable(c: Seq<i16>, rotation: int) -> bool {
    &&& (rotation == 1 || rotation == 2) ==> c[0] != i16::MIN
    &&& (rotation == 2 || rotation == 3) ==> c[1] != i16::MIN
}

/// A tile-relative position after `rotation` quarter turns.
pub fn rotate_coords(coordinates: &[i16; 3], rotation: usize) -> (r: [i16; 3])
    requires
        coords_rotatable(coordinates@, rotation as int),
    ensures
        r@ == spec_rotate_coords(coordinates@, rotation as int),
{
    let x = coordinates[0];
    let y = coordinates[1];
    let z = coordinates[2];
    let r: [i16; 3] = match rotation {
        1 => [y, -x, z],
        2 => [-x, -y, z],
        3 => [-y, x, z],
        _ => [x, y, z],
    };
    assert(r@ =~= spec_rotate_coords(coordinates@, rotation as int));
    r
}

/// Four quarter turns, one after the other, bring a position back.
pub proof fn lemma_rotate_coords_full_turn(c: Seq<i16>)
    requires
        c.len() == 3,
        c[0] != i16::MIN,
        c[1] != i16::MIN,
    ensures
        spec_rotate_coords(spec_rotate_coords(spec_rotate_coords(spec_rotate_coords(c, 1), 1), 1), 1) == c,
        spec_rotate_coords(spec_rotate_coords(c, 1), 3) == c,
        spec_rotate_coords(spec_rotate_coords(c, 2), 2) == c,
{
    assert(spec_rotate_coords(spec_rotate_coords(spec_rotate_coords(spec_rotate_coords(c, 1), 1), 1), 1) =~= c);
    assert(spec_rotate_coords(spec_rotate_coords(c, 1), 3) =~= c);
    assert(spec_rotate_coords(spec_rotate_coords(c, 2), 2) =~= c);
}

/// Whether adjacent sprites are drawn before or after the piece.
#[derive(Clone, Copy, Debug, PartialEq, Eq, Structural)]
pub enum DrawOrder {
    Before,
    After,
}

/// Whether a sprite at `c`, relative to the piece, is drawn in the pass `draw_order`: sprites
/// behind the piece before it, those in front after it; those level with it in both passes.
pub open spec fn drawn_in(c: Seq<i16>, draw_order: DrawOrder) -> bool {
    match draw_order {
        DrawOrder::Before => c[0] + c[1] < 0 || (c[0] + c[1] == 0 && c[2] <= 0),
        DrawOrder::After => c[0] + c[1] > 0 || (c[0] + c[1] == 0 && c[2] >= 0),
    }
}

/// Whether a sprite at `coords`, relative to the piece, is drawn in the pass `draw_order`.
pub fn compare_coords(coords: &[i16; 3], draw_order: DrawOrder) -> (r: bool)
    requires
        i16::MIN <= coords@[0] + coords@[1] <= i16::MAX,
    ensures
        r == drawn_in(coords@, draw_order),
{
    match draw_order {
        DrawOrder::Before => coords[0] + coords[1] < 0 || (coords[0] + coords[1] == 0 && coords[2] <= 0),
        DrawOrder::After => coords[0] + coords[1] > 0 || (coords[0] + coords[1] == 0 && coords[2] >= 0),
    }
}

/// Every sprite is drawn in at least one of the two passes.
pub proof fn lemma_every_sprite_drawn(c: Seq<i16>)
    requires
        c.len() == 3,
    ensures
        drawn_in(c, DrawOrder::Before) || drawn_in(c, DrawOrder::After),
{
}

/// The part of a sprite that lands on the canvas: where it lands, where it starts in the sprite,
/// and its size.
#[derive(Clone, Copy, Debug, PartialEq, Eq, Structural)]
pub struct Clip {
    pub dest_x: i32,
    pub dest_y: i32,
    pub src_x: i32,
    pub src_y: i32,
    pub width: i32,
    pub height: i32,
}

/// The clip of a `src_width` × `src_height` sprite with offset `(sox, soy)` drawn at `(px, py)`
/// on a `dest_width` × `dest_height` canvas with offset `(dox, doy)`.
pub open spec fn spec_clip(
    px: int,
    py: int,
    dest_width: int,
    dest_height: int,
    dox: int,
    doy: int,
    src_width: int,
    src_height: int,
    sox: int,
    soy: int,
) -> (int, int, int, int, int, int) {
    let dx = dox + px + sox;
    let dy = doy + py + soy;
    let src_x = -vstd::math::min(dx, 0);
    let src_y = -vstd::math::min(dy, 0);
    let dest_x = vstd::math::max(dx, 0);
    let dest_y = vstd::math::max(dy, 0);
    let width = src_width - src_x;
    let height = src_height - src_y;
    let width = width - vstd::math::max(dest_x + width - dest_width, 0);
    let height = height - vstd::math::max(dest_y + height - dest_height, 0);
    (dest_x, dest_y, src_x, src_y, width, height)
}

/// Every `i32` step of clipping along one axis fits: the sprite's position `p` moved by the
/// canvas offset `dest_offset` and the sprite offset `src_offset`, its negation where it lies
/// before the canvas, and the far end of the sprite measured against the canvas size
/// `dest_size`.
pub open spec fn clip_axis_fits(p: int, dest_offset: int, src_offset: int, src_size: int, dest_size: int) -> bool {
    let fits = |v: int| i32::MIN <= v <= i32::MAX;
    let d = dest_offset + p + src_offset;
    let start = -vstd::math::min(d, 0);
    let dest = vstd::math::max(d, 0);
    let size = src_size - start;
    &&& fits(dest_offset + p)
    &&& fits(d)
    &&& d > i32::MIN
    &&& fits(dest + size)
    &&& fits(dest + size - dest_size)
}

/// Every step of [`spec_clip`] fits `i32`.
pub open spec fn clip_fits(
    px: int,
    py: int,
    dest_width: int,
    dest_height: int,
    dox: int,
    doy: int,
    src_width: int,
    src_height: int,
    sox: int,
    soy: int,
) -> bool {
    &&& clip_axis_fits(px, dox, sox, src_width, dest_width)
    &&& clip_axis_fits(py, doy, soy, src_height, dest_height)
}

/// The part of a sprite that lands on the canvas.
pub fn clip_image_to_buffer(
    position: &ScreenCoords,
    dest_width: usize,
    dest_height: usize,
    dest_offset: (i32, i32),
    src_width: u16,
    src_height: u16,
    src_offset: (i32, i32),
) -> (r: Clip)
    requires
        dest_width <= i32::MAX,
        dest_height <= i32::MAX,
        clip_fits(
            position.x as int,
            position.y as int,
            dest_width as int,
            dest_height as int,
            dest_offset.0 as int,
            dest_offset.1 as int,
            src_width as int,
            src_height as int,
            src_offset.0 as int,
            src_offset.1 as int,
        ),
    ensures
        (r.dest_x as int, r.dest_y as int, r.src_x as int, r.src_y as int, r.width as int, r.height as int)
            == spec_clip(
            position.x as int,
            position.y as int,
            dest_width as int,
            dest_height as int,
            dest_offset.0 as int,
            dest_offset.1 as int,
            src_width as int,
            src_height as int,
            src_offset.0 as int,
            src_offset.1 as int,
        ),
{
    let dest_x = dest_offset.0 + position.x + src_offset.0;
    let dest_y = dest_offset.1 + position.y + src_offset.1;
    let src_x = if dest_x < 0 {
        -dest_x
    } else {
        0
    };
    let src_y = if dest_y < 0 {
        -dest_y
    } else {
        0
    };
    let dest_x = if dest_x > 0 {
        dest_x
    } else {
        0
    };
    let dest_y = if dest_y > 0 {
        dest_y
    } else {
        0
    };
    let width = src_width as i32 - src_x;
    let height = src_height as i32 - src_y;
    let over_x = dest_x + width - dest_width as i32;
    let over_y = dest_y + height - dest_height as i32;
    let width = if over_x > 0 {
        width - over_x
    } else {
        width
    };
    let height = if over_y > 0 {
        height - over_y
    } else {
        height
    };
    Clip { dest_x, dest_y, src_x, src_y, width, height }
}

/// The palette entry a sprite pixel is drawn with: the two remappable ramps take the colours of
/// the two schemes.
pub open spec fn spec_remap_pixel(pixel: u8, colour_1: Colour, colour_2: Colour) -> u8 {
    if 243 <= pixel <= 254 {
        COLOUR_RAMPS@[colour_1.spec_index()]@[pixel - 243]
    } else if 202 <= pixel <= 213 {
        COLOUR_RAMPS@[colour_2.spec_index()]@[pixel - 202]
    } else {
        pixel
    }
}

/// The palette entry a sprite pixel is drawn with.
pub fn remap_pixel(pixel: u8, colour_1: Colour, colour_2: Colour) -> (r: u8)
    ensures
        r == spec_remap_pixel(pixel, colour_1, colour_2),
{
    if 243 <= pixel && pixel <= 254 {
        COLOUR_RAMPS[colour_1.index()][(pixel - 243) as usize]
    } else if 202 <= pixel && pixel <= 213 {
        COLOUR_RAMPS[colour_2.index()][(pixel - 202) as usize]
    } else {
        pixel
    }
}


/// A palette entry written to the canvas at `(x, y)`.
#[derive(Clone, Copy, Debug, PartialEq, Eq, Structural)]
pub struct PixelWrite {
    pub x: i32,
    pub y: i32,
    pub pixel: u8,
}

/// What drawing a sprite needs: its clip on the canvas, its row length, its pixels and the two
/// colour schemes.
pub ghost struct SpriteBlit {
    pub dest_x: int,
    pub dest_y: int,
    pub src_x: int,
    pub src_y: int,
    pub width: int,
    pub pixels: Seq<u8>,
    pub colour_1: Colour,
    pub colour_2: Colour,
}

/// The write for pixel `(x, y)` of the clip: the remapped pixel, unless it is transparent or
/// lies past the sprite's data.
pub open spec fn blit_pixel(b: SpriteBlit, x: int, y: int) -> Seq<PixelWrite> {
    let index = (b.src_x + x) + (b.src_y + y) * b.width;
    if index < b.pixels.len() && spec_remap_pixel(b.pixels[index], b.colour_1, b.colour_2) != 0 {
        seq![PixelWrite {
            x: (b.dest_x + x) as i32,
            y: (b.dest_y + y) as i32,
            pixel: spec_remap_pixel(b.pixels[index], b.colour_1, b.colour_2),
        }]
    } else {
        Seq::empty()
    }
}

/// The writes for the first `x` pixels of row `y` of the clip.
pub open spec fn blit_row(b: SpriteBlit, y: int, x: int) -> Seq<PixelWrite>
    decreases x,
{
    if x <= 0 {
        Seq::empty()
    } else {
        blit_row(b, y, x - 1) + blit_pixel(b, x - 1, y)
    }
}

/// The writes for the first `y` rows of the clip, `w` pixels each.
pub open spec fn blit_rows(b: SpriteBlit, w: int, y: int) -> Seq<PixelWrite>
    decreases y,
{
    if y <= 0 {
        Seq::empty()
    } else {
        blit_rows(b, w, y - 1) + blit_row(b, y - 1, w)
    }
}

/// The canvas and sprite fit the arithmetic of drawing: the sprite lands in `i32`, and its
/// pixels can be indexed.
pub open spec fn blit_fits(
    coords: Coords,
    canvas_width: usize,
    canvas_height: usize,
    canvas_offset: (i32, i32),
    width: u16,
    height: u16,
    offset: (i32, i32),
) -> bool {
    let (px, py) = screen_of(coords);
    &&& screen_fits(coords)
    &&& canvas_width <= i32::MAX
    &&& canvas_height <= i32::MAX
    &&& clip_fits(
        px,
        py,
        canvas_width as int,
        canvas_height as int,
        canvas_offset.0 as int,
        canvas_offset.1 as int,
        width as int,
        height as int,
        offset.0 as int,
        offset.1 as int,
    )
}

/// The palette entries that drawing a `width` × `height` sprite with offset `offset` at world
/// position `coords` writes to a `canvas_width` × `canvas_height` canvas with offset
/// `canvas_offset`, in drawing order: transparent pixels are skipped and the remappable ramps
/// take the colours of the two schemes.
pub fn draw_sprite(
    canvas_width: usize,
    canvas_height: usize,
    canvas_offset: (i32, i32),
    width: u16,
    height: u16,
    offset: (i32, i32),
    pixels: &[u8],
    coords: &Coords,
    colour_1: Colour,
    colour_2: Colour,
) -> (r: Vec<PixelWrite>)
    requires
        blit_fits(*coords, canvas_width, canvas_height, canvas_offset, width, height, offset),
    ensures
        ({
            let (px, py) = screen_of(*coords);
            let (dx, dy, sx, sy, cw, ch) = spec_clip(
                px,
                py,
                canvas_width as int,
                canvas_height as int,
                canvas_offset.0 as int,
                canvas_offset.1 as int,
                width as int,
                height as int,
                offset.0 as int,
                offset.1 as int,
            );
            let b = SpriteBlit {
                dest_x: dx,
                dest_y: dy,
                src_x: sx,
                src_y: sy,
                width: width as int,
                pixels: pixels@,
                colour_1,
                colour_2,
            };
            r@ == blit_rows(b, cw, ch)
        }),
{
    let position = ScreenCoords::from_coords(coords);
    let clip = clip_image_to_buffer(&position, canvas_width, canvas_height, canvas_offset, width, height, offset);
    let ghost b = SpriteBlit {
        dest_x: clip.dest_x as int,
        dest_y: clip.dest_y as int,
        src_x: clip.src_x as int,
        src_y: clip.src_y as int,
        width: width as int,
        pixels: pixels@,
        colour_1,
        colour_2,
    };
    let mut writes: Vec<PixelWrite> = Vec::new();
    let mut y: i32 = 0;
    while y < clip.height
        invariant
            0 <= y,
            clip.height >= 0 ==> y <= clip.height,
            clip.height < 0 ==> y == 0,
            canvas_width <= i32::MAX,
            canvas_height <= i32::MAX,
            b.dest_x == clip.dest_x && b.dest_y == clip.dest_y && b.src_x == clip.src_x && b.src_y == clip.src_y,
            b.width == width && b.pixels == pixels@ && b.colour_1 == colour_1 && b.colour_2 == colour_2,
            0 <= clip.src_x && 0 <= clip.src_y && 0 <= clip.dest_x && 0 <= clip.dest_y,
            clip.width <= width - clip.src_x,
            clip.height <= height - clip.src_y,
            clip.dest_x + clip.width <= canvas_width,
            clip.dest_y + clip.height <= canvas_height,
            writes@ == blit_rows(b, clip.width as int, y as int),
        decreases clip.height - y,
    {
        let ghost before = writes@;
        let mut x: i32 = 0;
        while x < clip.width
            invariant
                0 <= x,
                clip.width >= 0 ==> x <= clip.width,
                clip.width < 0 ==> x == 0,
                0 <= y < clip.height,
                canvas_width <= i32::MAX,
                canvas_height <= i32::MAX,
                b.dest_x == clip.dest_x && b.dest_y == clip.dest_y && b.src_x == clip.src_x && b.src_y == clip.src_y,
                b.width == width && b.pixels == pixels@ && b.colour_1 == colour_1 && b.colour_2 == colour_2,
                0 <= clip.src_x && 0 <= clip.src_y && 0 <= clip.dest_x && 0 <= clip.dest_y,
                clip.width <= width - clip.src_x,
                clip.height <= height - clip.src_y,
                clip.dest_x + clip.width <= canvas_width,
                clip.dest_y + clip.height <= canvas_height,
                writes@ == before + blit_row(b, y as int, x as int),
            decreases clip.width - x,
        {
            let sx = (clip.src_x + x) as usize;
            let sy = (clip.src_y + y) as usize;
            proof {
                assert(sy * (width as int) <= 65535 * 65535) by (nonlinear_arith)
                    requires
                        sy < 65536,
                        width <= 65535,
                ;
            }
            let index = sx + sy * (width as usize);
            let ghost w = writes@;
            if index < pixels.len() {
                let pixel = remap_pixel(pixels[index], colour_1, colour_2);
                if pixel != 0 {
                    writes.push(PixelWrite { x: clip.dest_x + x, y: clip.dest_y + y, pixel });
                }
            }
            assert(writes@ =~= w + blit_pixel(b, x as int, y as int));
            x = x + 1;
        }
        assert(blit_row(b, y as int, x as int) == blit_row(b, y as int, clip.width as int));
        y = y + 1;
    }
    assert(blit_rows(b, clip.width as int, y as int) == blit_rows(b, clip.width as int, clip.height as int));
    writes
}

} // verus!
