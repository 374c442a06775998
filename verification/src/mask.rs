//! Masks that split a rendered track piece into the sprites of its tiles.
//!
//! A mask image marks, in each pixel, a primary and a secondary section index (three bits
//! each, 1 to 7; 0 for none) and, in exactly one pixel, the origin.
use vstd::prelude::*;
use vstd::string::StringExecFns;
use vstd::view::View as _;

use crate::indexed_image::{lemma_pixel_index, ImageView, IndexedImage};

verus! {

/// A view has at most this many sections.
pub const MAX_SECTION_COUNT: usize = 7;

pub const PRIMARY_INDEX_MASK: u8 = 0b0000_0111;

pub const SECONDARY_INDEX_MASK: u8 = 0b0011_1000;

pub const SECONDARY_INDEX_SHIFT: u8 = 3;

pub const ORIGIN_MASK: u8 = 0b0100_0000;

/// The primary section index of a mask pixel.
pub open spec fn primary_index(p: u8) -> u8 {
    p & PRIMARY_INDEX_MASK
}

/// The secondary section index of a mask pixel.
pub open spec fn secondary_index(p: u8) -> u8 {
    (p & SECONDARY_INDEX_MASK) >> SECONDARY_INDEX_SHIFT
}

/// Whether a mask pixel marks the origin.
pub open spec fn is_origin(p: u8) -> bool {
    p & ORIGIN_MASK != 0
}

/// Whether bit `k` of a section set is set.
pub open spec fn has_bit(s: u8, k: int) -> bool {
    0 <= k < 8 && s & (1u8 << (k as u8)) != 0
}

/// Whether a mask pixel belongs to section `k` (0-based), as primary or secondary.
pub open spec fn marks_section(p: u8, k: int) -> bool {
    primary_index(p) as int == k + 1 || secondary_index(p) as int == k + 1
}

/// How many pixels of `pixels` mark the origin.
pub open spec fn origin_count(pixels: Seq<u8>) -> nat
    decreases pixels.len(),
{
    if pixels.len() == 0 {
        0
    } else {
        origin_count(pixels.drop_last()) + if is_origin(pixels.last()) { 1nat } else { 0nat }
    }
}

proof fn lemma_bit_or(s: u8, j: u8, k: u8)
    requires
        j < 8,
        k < 8,
    ensures
        (s | (1u8 << j)) & (1u8 << k) != 0 <==> (s & (1u8 << k) != 0 || j == k),
{
    assert(j < 8 && k < 8 ==> ((s | (1u8 << j)) & (1u8 << k) != 0 <==> (s & (1u8 << k) != 0 || j == k)))
        by (bit_vector);
}

proof fn lemma_bits_zero(k: u8)
    requires
        k < 8,
    ensures
        0u8 & (1u8 << k) == 0,
{
    assert(0u8 & (1u8 << k) == 0) by (bit_vector);
}

proof fn lemma_index_ranges(p: u8)
    ensures
        primary_index(p) < 8,
        secondary_index(p) < 8,
{
    assert(p & 7 < 8 && (p & 0x38) >> 3 < 8) by (bit_vector);
}

/// `s` with bit `index` set.
fn with_section(s: u8, index: u8) -> (r: u8)
    requires
        index < 8,
    ensures
        forall|k: int| 0 <= k < 8 ==> (has_bit(r, k) <==> has_bit(s, k) || k == index),
{
    proof {
        assert forall|k: int| 0 <= k < 8 implies (has_bit(s | (1u8 << index), k) <==> has_bit(s, k)
            || k == index) by {
            lemma_bit_or(s, index, k as u8);
        }
    }
    s | (1u8 << index)
}

/// A mask image: the image, its origin as offset, and the set of sections it marks.
pub struct MaskImage {
    image: IndexedImage,
    sections: u8,
}

/// Why a mask cannot be used.
#[derive(Clone, Copy, Debug, PartialEq, Eq, Structural)]
pub enum MaskError {
    /// More than one pixel marks the origin.
    MoreThanOneOrigin,
    /// No pixel marks the origin.
    NoOrigin,
    /// A transfer was asked of the last sprite of a view.
    TransferOnLastSprite,
}

/// The message that reports `e` for the mask file at `path`.
pub open spec fn spec_error_message(e: MaskError, path: Seq<char>) -> Seq<char> {
    match e {
        MaskError::MoreThanOneOrigin => "More than one origin in "@ + path,
        MaskError::NoOrigin => "No origin found in "@ + path,
        MaskError::TransferOnLastSprite => "Cannot use transfer on the last sprite"@,
    }
}

impl MaskError {
    /// The message that reports the error for the mask file at `path`.
    pub fn message(&self, path: &str) -> (r: String)
        ensures
            r@ == spec_error_message(*self, path@),
    {
        match self {
            MaskError::MoreThanOneOrigin => String::from_str("More than one origin in ").concat(path),
            MaskError::NoOrigin => String::from_str("No origin found in ").concat(path),
            MaskError::TransferOnLastSprite => String::from_str("Cannot use transfer on the last sprite"),
        }
    }
}

impl MaskImage {
    pub closed spec fn image_view(&self) -> ImageView {
        self.image@
    }

    pub closed spec fn spec_sections(&self) -> u8 {
        self.sections
    }

    /// Reads the sections and the origin of a mask image, scanning it row by row. The image's
    /// offset becomes the origin.
    pub fn new(image: IndexedImage) -> (r: Result<MaskImage, MaskError>)
        requires
            image.wf(),
        ensures
            origin_count(image@.pixels) == 0 <==> r == Err::<MaskImage, MaskError>(MaskError::NoOrigin),
            origin_count(image@.pixels) >= 2 <==> r == Err::<MaskImage, MaskError>(
                MaskError::MoreThanOneOrigin,
            ),
            origin_count(image@.pixels) == 1 <==> r is Ok,
            r matches Ok(m) ==> {
                let v = m.image_view();
                &&& v.width == image@.width
                &&& v.height == image@.height
                &&& v.pixels == image@.pixels
                &&& 0 <= v.offset_x < v.width
                &&& 0 <= v.offset_y < v.height
                &&& is_origin(v.pixel(v.offset_x, v.offset_y))
                &&& forall|k: int|
                    0 <= k < 8 ==> (has_bit(m.spec_sections(), k) <==> exists|i: int|
                        0 <= i < image@.pixels.len() && marks_section(
                            #[trigger] image@.pixels[i],
                            k,
                        ))
            },
    {
        let width = image.width() as usize;
        let height = image.height() as usize;
        let pixels = image.as_raw();
        let n = pixels.len();
        let ghost ps = pixels@;
        let mut sections: u8 = 0;
        let mut origin: Option<usize> = None;
        let mut i: usize = 0;
        proof {
            assert forall|k: int| 0 <= k < 8 implies !has_bit(sections, k) by {
                lemma_bits_zero(k as u8);
            }
        }
        while i < n
            invariant
                ps == pixels@,
                ps == image@.pixels,
                n == ps.len(),
                i <= n,
                origin is None ==> origin_count(ps.take(i as int)) == 0,
                origin matches Some(o) ==> o < i && is_origin(ps[o as int]) && origin_count(
                    ps.take(i as int),
                ) == 1,
                forall|k: int|
                    0 <= k < 8 ==> (has_bit(sections, k) <==> exists|j: int|
                        0 <= j < i && marks_section(#[trigger] ps[j], k)),
            decreases n - i,
        {
            let p = pixels[i];
            let primary = p & PRIMARY_INDEX_MASK;
            let secondary = (p & SECONDARY_INDEX_MASK) >> SECONDARY_INDEX_SHIFT;
            proof {
                lemma_index_ranges(p);
            }
            let ghost before = sections;
            if primary > 0 {
                sections = with_section(sections, primary - 1);
            }
            if secondary > 0 {
                sections = with_section(sections, secondary - 1);
            }
            proof {
                assert forall|k: int| 0 <= k < 8 implies (has_bit(sections, k) <==> exists|j: int|
                    0 <= j < i + 1 && marks_section(#[trigger] ps[j], k)) by {
                    assert(has_bit(sections, k) == (has_bit(before, k) || primary == k + 1
                        || secondary == k + 1));
                    assert(marks_section(ps[i as int], k) == (primary == k + 1 || secondary == k + 1));
                    if exists|j: int| 0 <= j < i && marks_section(#[trigger] ps[j], k) {
                        let j = choose|j: int| 0 <= j < i && marks_section(#[trigger] ps[j], k);
                        assert(0 <= j < i + 1 && marks_section(ps[j], k));
                    }
                    if !has_bit(sections, k) {
                        assert forall|j: int| 0 <= j < i + 1 implies !marks_section(#[trigger] ps[j], k) by {
                            if j == i {
                            }
                        }
                    }
                }
                assert(ps.take(i + 1).drop_last() =~= ps.take(i as int));
            }
            if p & ORIGIN_MASK != 0 {
                if origin.is_none() {
                    origin = Some(i);
                } else {
                    proof {
                        assert(origin_count(ps.take(i + 1)) == 2);
                        lemma_origin_count_monotone(ps, i + 1, n as int);
                        assert(ps.take(n as int) =~= ps);
                    }
                    return Err(MaskError::MoreThanOneOrigin);
                }
            }
            i = i + 1;
        }
        assert(ps.take(n as int) =~= ps);
        match origin {
            Some(o) => {
                proof {
                    assert(width > 0) by (nonlinear_arith)
                        requires
                            o < n,
                            n == width * image@.height,
                    ;
                    vstd::arithmetic::div_mod::lemma_fundamental_div_mod(o as int, width as int);
                    assert((o / width) < image@.height) by (nonlinear_arith)
                        requires
                            o < n,
                            n == width * image@.height,
                            width > 0,
                            o == width * (o / width) + o % width,
                            0 <= o % width < width,
                    ;
                    assert(width * (o / width) == (o / width) * width) by (nonlinear_arith);
                    assert(o % width < width <= 0xffff);
                    assert(o / width < height <= 0xffff);
                    assert((o / width) * width + o % width == o);
                }
                let mut image = image;
                let ox = (o % width) as i32;
                let oy = (o / width) as i32;
                image.set_offset(ox, oy);
                assert(image@.pixel(ox as int, oy as int) == ps[o as int]);
                Ok(MaskImage { image, sections })
            },
            None => Err(MaskError::NoOrigin),
        }
    }

    /// Whether the mask marks section `index` (0-based).
    pub fn has_section(&self, index: usize) -> (r: bool)
        requires
            index < 8,
        ensures
            r == has_bit(self.spec_sections(), index as int),
    {
        (self.sections & (1u8 << (index as u8))) != 0
    }

}

impl Default for MaskImage {
    /// The empty mask: a 0×0 image with no section.
    fn default() -> (r: MaskImage)
        ensures
            r.image_view().width == 0,
            r.image_view().height == 0,
            r.image_view().offset_x == 0,
            r.image_view().offset_y == 0,
            r.spec_sections() == 0,
    {
        MaskImage { image: IndexedImage::new(0, 0), sections: 0 }
    }
}

proof fn lemma_origin_count_monotone(ps: Seq<u8>, i: int, j: int)
    requires
        0 <= i <= j <= ps.len(),
    ensures
        origin_count(ps.take(i)) <= origin_count(ps.take(j)),
    decreases j - i,
{
    if i < j {
        lemma_origin_count_monotone(ps, i, j - 1);
        assert(ps.take(j).drop_last() =~= ps.take(j - 1));
    }
}


/// Whether any pixel of `pixels` belongs to section `k` (0-based).
pub open spec fn mask_marks(pixels: Seq<u8>, k: int) -> bool {
    exists|i: int| 0 <= i < pixels.len() && marks_section(#[trigger] pixels[i], k)
}

/// Which mesh a rendered extrusion of a view uses.
#[derive(Clone, Copy, Debug, PartialEq, Eq, Structural)]
pub enum MeshType {
    Normal,
    Mask,
}

/// How the pixels of a section are shared with its neighbours.
pub enum OperationDesc {
    /// For each section: whether it is split into the part inside the track and the rest.
    Split(heapless::Vec<bool, MAX_SECTION_COUNT>),
    /// Whether the first section is split, its rest drawn as the view's last sprite.
    SplitEnds(bool),
    /// For each section: whether what lies outside it passes on to the next section.
    Transfer(heapless::Vec<bool, MAX_SECTION_COUNT>),
}

/// How one view of a track piece is cut into sprites.
pub struct ViewDesc {
    /// The mask image's path, relative to the masks file.
    pub mask: String,
    pub mirror: bool,
    /// For each section: the sprite's offset.
    pub offset: heapless::Vec<[i16; 3], MAX_SECTION_COUNT>,
    /// For each section: the tile it is drawn with.
    pub tiles: heapless::Vec<u8, MAX_SECTION_COUNT>,
    /// For each section: whether it is present though no pixel marks it.
    pub empty: heapless::Vec<bool, MAX_SECTION_COUNT>,
    pub extrude_behind: bool,
    pub extrude_in_front: bool,
    pub mask_end: bool,
    pub operation: Option<OperationDesc>,
}


/// What a sprite cut from a view holds.
#[derive(Clone, Copy, Debug, PartialEq, Eq, Structural)]
pub enum Operation {
    /// The part of the section outside the track.
    Difference,
    /// The part of the section inside the track.
    Intersect,
    /// The section, with what lies outside it passed on to the next one.
    TransferNext,
}

/// The tile a sprite is drawn with.
#[derive(Clone, Copy, Debug, PartialEq, Eq, Structural)]
pub enum TileType {
    Index(usize),
    Last,
}

/// What a sprite holds, for contracts.
pub ghost struct SpriteView {
    pub index: int,
    pub offset: Seq<i16>,
    pub operation: Option<Operation>,
    pub tile: TileType,
}

/// One sprite cut from a view: the section it shows (1-based), its offset, how it is cut and
/// the tile it is drawn with.
#[derive(Clone, Copy, Debug)]
pub struct Sprite {
    pub index: u8,
    pub offset: [i16; 3],
    pub operation: Option<Operation>,
    pub tile: TileType,
}

impl Sprite {
    pub open spec fn spec_view(self) -> SpriteView {
        SpriteView {
            index: self.index as int,
            offset: self.offset@,
            operation: self.operation,
            tile: self.tile,
        }
    }

    /// A sprite of section `index`; without an offset it sits at the origin.
    pub fn new(index: usize, offset: Option<&[i16; 3]>, operation: Option<Operation>, tile: TileType) -> (r: Sprite)
        requires
            index <= u8::MAX,
        ensures
            r.spec_view() == (SpriteView {
                index: index as int,
                offset: match offset {
                    Some(o) => o@,
                    None => seq![0i16, 0i16, 0i16],
                },
                operation,
                tile,
            }),
    {
        let offset: [i16; 3] = match offset {
            Some(o) => *o,
            None => [0, 0, 0],
        };
        proof {
            assert(offset@ =~= (match offset { _ => offset@ }));
        }
        Sprite { index: index as u8, offset, operation, tile }
    }
}

/// The views of a list of sprites.
pub open spec fn sprite_views(s: Seq<Sprite>) -> Seq<SpriteView> {
    s.map_values(|x: Sprite| x.spec_view())
}

/// The flags of a per-section flag list.
pub uninterp spec fn flag_items(v: heapless::Vec<bool, MAX_SECTION_COUNT>) -> Seq<bool>;

/// The offsets of a per-section offset list.
pub uninterp spec fn offset_items(v: heapless::Vec<[i16; 3], MAX_SECTION_COUNT>) -> Seq<[i16; 3]>;

/// The tiles of a per-section tile list.
pub uninterp spec fn tile_items(v: heapless::Vec<u8, MAX_SECTION_COUNT>) -> Seq<u8>;

/// A per-section flag list as a slice.
/// Calls `heapless::Vec::as_slice`, which gives the list's items in order; a list holds at
/// most as many items as its capacity.
#[verifier::external_body]
fn flag_slice(v: &heapless::Vec<bool, MAX_SECTION_COUNT>) -> (r: &[bool])
    ensures
        r@ == flag_items(*v),
        r@.len() <= MAX_SECTION_COUNT,
{
    v.as_slice()
}

/// A per-section offset list as a slice.
/// Calls `heapless::Vec::as_slice`, which gives the list's items in order; a list holds at
/// most as many items as its capacity.
#[verifier::external_body]
fn offset_slice(v: &heapless::Vec<[i16; 3], MAX_SECTION_COUNT>) -> (r: &[[i16; 3]])
    ensures
        r@ == offset_items(*v),
        r@.len() <= MAX_SECTION_COUNT,
{
    v.as_slice()
}

/// A per-section tile list as a slice.
/// Calls `heapless::Vec::as_slice`, which gives the list's items in order; a list holds at
/// most as many items as its capacity.
#[verifier::external_body]
fn tile_slice(v: &heapless::Vec<u8, MAX_SECTION_COUNT>) -> (r: &[u8])
    ensures
        r@ == tile_items(*v),
        r@.len() <= MAX_SECTION_COUNT,
{
    v.as_slice()
}

/// Entry `i` of a per-section flag list; `false` past its end.
pub open spec fn flag_at(v: Seq<bool>, i: int) -> bool {
    0 <= i < v.len() && v[i]
}

/// The offset of section `i`'s sprites.
pub open spec fn offset_at(desc: ViewDesc, i: int) -> Seq<i16> {
    if 0 <= i < offset_items(desc.offset).len() {
        offset_items(desc.offset)[i]@
    } else {
        seq![0i16, 0i16, 0i16]
    }
}

/// The tile of section `i`'s sprites: the one given, else `i`.
pub open spec fn tile_at(desc: ViewDesc, i: int) -> usize {
    if 0 <= i < tile_items(desc.tiles).len() {
        tile_items(desc.tiles)[i] as usize
    } else {
        i as usize
    }
}

/// A sprite of section `i` (0-based).
pub open spec fn sprite_at(desc: ViewDesc, i: int, operation: Option<Operation>) -> SpriteView {
    SpriteView {
        index: i + 1,
        offset: offset_at(desc, i),
        operation,
        tile: TileType::Index(tile_at(desc, i)),
    }
}

/// How section `i` is cut when transfers are asked for.
pub open spec fn transfer_operation(transfers: Seq<bool>, i: int) -> Option<Operation> {
    if flag_at(transfers, i - 1) {
        Some(Operation::Difference)
    } else if flag_at(transfers, i) {
        Some(Operation::TransferNext)
    } else {
        None
    }
}

/// The sprites of section `i`, when the view holds it.
pub open spec fn section_part(desc: ViewDesc, s: u8, i: int) -> Seq<SpriteView> {
    if !has_bit(s, i) {
        Seq::empty()
    } else {
        match desc.operation {
            Some(OperationDesc::Split(splits)) => if flag_at(flag_items(splits), i) {
                seq![sprite_at(desc, i, Some(Operation::Intersect)), sprite_at(desc, i, Some(Operation::Difference))]
            } else {
                seq![sprite_at(desc, i, None)]
            },
            Some(OperationDesc::Transfer(transfers)) => seq![
                sprite_at(desc, i, transfer_operation(flag_items(transfers), i)),
            ],
            _ => seq![sprite_at(desc, i, None)],
        }
    }
}

/// The sprites of sections `lo` to `n - 1`, in order.
pub open spec fn sections_between(desc: ViewDesc, s: u8, lo: int, n: int) -> Seq<SpriteView>
    decreases n - lo,
{
    if n <= lo {
        Seq::empty()
    } else {
        sections_between(desc, s, lo, n - 1) + section_part(desc, s, n - 1)
    }
}

/// The lowest section from `k` on that `s` holds; 0 if there is none.
pub open spec fn lowest_from(s: u8, k: int) -> int
    decreases 8 - k,
{
    if k >= 8 {
        0
    } else if has_bit(s, k) {
        k
    } else {
        lowest_from(s, k + 1)
    }
}

/// The offset of the last entry of the offset list.
pub open spec fn last_offset(desc: ViewDesc) -> Seq<i16> {
    offset_at(desc, offset_items(desc.offset).len() - 1)
}

/// The sprites of a view whose sections are `s`.
pub open spec fn view_sprites(desc: ViewDesc, s: u8) -> Seq<SpriteView> {
    match desc.operation {
        Some(OperationDesc::SplitEnds(true)) => {
            let first = lowest_from(s, 0);
            seq![sprite_at(desc, first, Some(Operation::Intersect))] + sections_between(
                desc,
                s,
                first + 1,
                MAX_SECTION_COUNT as int,
            ) + seq![
                SpriteView {
                    index: first + 1,
                    offset: last_offset(desc),
                    operation: Some(Operation::Difference),
                    tile: TileType::Last,
                },
            ]
        },
        _ => sections_between(desc, s, 0, MAX_SECTION_COUNT as int),
    }
}

/// Whether transfers are asked of the last listed sprite.
pub open spec fn transfers_last(desc: ViewDesc) -> bool {
    match desc.operation {
        Some(OperationDesc::Transfer(t)) => flag_items(t).len() > 0 && flag_items(t)[flag_items(t).len() - 1],
        _ => false,
    }
}

/// A section list holding the sections of `pixels` and those given as `empty`.
pub open spec fn view_sections(s: u8, pixels: Seq<u8>, empty: Seq<bool>) -> bool {
    forall|k: int| 0 <= k < 8 ==> (has_bit(s, k) <==> mask_marks(pixels, k) || flag_at(empty, k))
}

/// One view of a track piece: its mask and the sprites cut from it.
pub struct View {
    pub image: MaskImage,
    pub mirror: bool,
    pub sprites: Vec<Sprite>,
    pub requires_track_mask: bool,
    pub extrude_behind_type: Option<MeshType>,
    pub extrude_ahead_type: Option<MeshType>,
    pub optional: bool,
}

impl Default for View {
    /// A view with an empty mask and no sprite.
    fn default() -> (r: View)
        ensures
            r.mask().width == 0,
            r.mask().height == 0,
            r.sections() == 0,
            !r.is_mirrored(),
            r.sprites@.len() == 0,
            !r.requires_track_mask,
            r.extrude_behind_type is None,
            r.extrude_ahead_type is None,
            !r.optional,
    {
        View {
            image: MaskImage::default(),
            mirror: false,
            sprites: Vec::new(),
            requires_track_mask: false,
            extrude_behind_type: None,
            extrude_ahead_type: None,
            optional: false,
        }
    }
}

proof fn lemma_lowest_bound(s: u8, k: int)
    requires
        0 <= k <= 7,
        !has_bit(s, 7),
    ensures
        0 <= lowest_from(s, k) < 7,
    decreases 8 - k,
{
    if k < 7 && !has_bit(s, k) {
        lemma_lowest_bound(s, k + 1);
    }
    assert(lowest_from(s, 8) == 0);
}

/// `v` clamped to `lo..=hi`.
pub open spec fn clamp(v: int, lo: int, hi: int) -> int {
    if v < lo {
        lo
    } else if v > hi {
        hi
    } else {
        v
    }
}

/// The sections of `s` from `k` to 7 that are set.
fn lowest_section(s: u8) -> (r: usize)
    ensures
        r == lowest_from(s, 0),
{
    let mut k: usize = 0;
    while k < 8
        invariant
            k <= 8,
            lowest_from(s, 0) == lowest_from(s, k as int),
        decreases 8 - k,
    {
        if s & (1u8 << (k as u8)) != 0 {
            return k;
        }
        k = k + 1;
    }
    0
}

/// Entry `i` of a flag list, `false` past its end.
fn flag(v: &[bool], i: usize) -> (r: bool)
    ensures
        r == flag_at(v@, i as int),
{
    i < v.len() && v[i]
}

/// The offset of section `i`'s sprites, if one is given.
fn offset_entry(desc: &ViewDesc, i: usize) -> (r: Option<&[i16; 3]>)
    ensures
        match r {
            Some(o) => o@ == offset_at(*desc, i as int),
            None => offset_at(*desc, i as int) == seq![0i16, 0i16, 0i16],
        },
{
    let offsets = offset_slice(&desc.offset);
    if i < offsets.len() {
        Some(&offsets[i])
    } else {
        None
    }
}

/// The tile of section `i`'s sprites.
fn tile_entry(desc: &ViewDesc, i: usize) -> (r: usize)
    ensures
        r == tile_at(*desc, i as int),
{
    let tiles = tile_slice(&desc.tiles);
    if i < tiles.len() {
        tiles[i] as usize
    } else {
        i
    }
}

/// Pushes one sprite of section `i`.
fn push_sprite(sprites: &mut Vec<Sprite>, desc: &ViewDesc, i: usize, operation: Option<Operation>)
    requires
        i < MAX_SECTION_COUNT,
    ensures
        sprite_views(final(sprites)@) == sprite_views(old(sprites)@).push(sprite_at(*desc, i as int, operation)),
{
    let sprite = Sprite::new(i + 1, offset_entry(desc, i), operation, TileType::Index(tile_entry(desc, i)));
    sprites.push(sprite);
    assert(sprite_views(sprites@) =~= sprite_views(old(sprites)@).push(sprite_at(*desc, i as int, operation)));
}

/// Pushes the sprites of sections `lo` to 6.
fn push_sections(sprites: &mut Vec<Sprite>, desc: &ViewDesc, s: u8, lo: usize)
    requires
        lo <= MAX_SECTION_COUNT,
    ensures
        sprite_views(final(sprites)@) == sprite_views(old(sprites)@) + sections_between(
            *desc,
            s,
            lo as int,
            MAX_SECTION_COUNT as int,
        ),
{
    let mut i: usize = lo;
    while i < MAX_SECTION_COUNT
        invariant
            lo <= i <= MAX_SECTION_COUNT,
            sprite_views(sprites@) == sprite_views(old(sprites)@) + sections_between(*desc, s, lo as int, i as int),
        decreases MAX_SECTION_COUNT - i,
    {
        let ghost before = sprite_views(sprites@);
        if s & (1u8 << (i as u8)) != 0 {
            match &desc.operation {
                Some(OperationDesc::Split(splits)) => {
                    if flag(flag_slice(splits), i) {
                        push_sprite(sprites, desc, i, Some(Operation::Intersect));
                        push_sprite(sprites, desc, i, Some(Operation::Difference));
                    } else {
                        push_sprite(sprites, desc, i, None);
                    }
                },
                Some(OperationDesc::Transfer(transfers)) => {
                    let transfers = flag_slice(transfers);
                    let operation = if i > 0 && flag(transfers, i - 1) {
                        Some(Operation::Difference)
                    } else if flag(transfers, i) {
                        Some(Operation::TransferNext)
                    } else {
                        None
                    };
                    push_sprite(sprites, desc, i, operation);
                },
                _ => {
                    push_sprite(sprites, desc, i, None);
                },
            }
        }
        assert(sprite_views(sprites@) =~= before + section_part(*desc, s, i as int));
        i = i + 1;
    }
}

impl View {
    /// The view's mask image; its offset is the origin.
    pub open spec fn mask(&self) -> ImageView {
        self.image.image_view()
    }

    /// The sections the view holds.
    pub open spec fn sections(&self) -> u8 {
        self.image.spec_sections()
    }

    pub open spec fn is_mirrored(&self) -> bool {
        self.mirror
    }

    /// The mask can be sampled: it has a pixel, and its origin lies on one.
    pub open spec fn sampleable(&self) -> bool {
        &&& self.mask().pixels.len() == self.mask().width * self.mask().height
        &&& 1 <= self.mask().width <= u16::MAX
        &&& 1 <= self.mask().height <= u16::MAX
        &&& 0 <= self.mask().offset_x < self.mask().width
        &&& 0 <= self.mask().offset_y < self.mask().height
    }

    /// Cuts a view into sprites. `image` is its mask image; `optional` marks a view that is
    /// drawn only for lift hills.
    pub fn new(view_desc: &ViewDesc, image: IndexedImage, optional: bool) -> (r: Result<View, MaskError>)
        requires
            image.wf(),
        ensures
            origin_count(image@.pixels) == 0 <==> r == Err::<View, MaskError>(MaskError::NoOrigin),
            origin_count(image@.pixels) >= 2 <==> r == Err::<View, MaskError>(
                MaskError::MoreThanOneOrigin,
            ),
            origin_count(image@.pixels) == 1 && transfers_last(*view_desc) <==> r
                == Err::<View, MaskError>(MaskError::TransferOnLastSprite),
            r matches Ok(v) ==> {
                let m = v.mask();
                &&& m.width == image@.width
                &&& m.height == image@.height
                &&& m.pixels == image@.pixels
                &&& v.sampleable()
                &&& is_origin(m.pixel(m.offset_x, m.offset_y))
                &&& view_sections(v.sections(), image@.pixels, flag_items(view_desc.empty))
                &&& v.is_mirrored() == view_desc.mirror
                &&& sprite_views(v.sprites@) == view_sprites(*view_desc, v.sections())
                &&& v.requires_track_mask == view_desc.operation is Some
                &&& v.extrude_behind_type == (if view_desc.extrude_behind {
                    Some(MeshType::Normal)
                } else {
                    None
                })
                &&& v.extrude_ahead_type == (if view_desc.extrude_in_front {
                    Some(MeshType::Normal)
                } else if view_desc.mask_end {
                    Some(MeshType::Mask)
                } else {
                    None
                })
                &&& v.optional == optional
            },
    {
        let ghost pixels = image@.pixels;
        let mut image = match MaskImage::new(image) {
            Ok(m) => m,
            Err(e) => {
                return Err(e);
            },
        };
        assert forall|k: int| 0 <= k < 8 implies (has_bit(image.sections, k) <==> mask_marks(pixels, k)
            || (k < 0 && flag_items(view_desc.empty)[k])) by {
            assert(has_bit(image.spec_sections(), k) <==> mask_marks(pixels, k));
        }
        let ghost iv = image.image_view();
        let empty = flag_slice(&view_desc.empty);
        let mut index: usize = 0;
        while index < empty.len()
            invariant
                empty@ == flag_items(view_desc.empty),
                index <= empty.len() <= MAX_SECTION_COUNT,
                image.image_view() == iv,
                forall|k: int|
                    0 <= k < 8 ==> (has_bit(image.sections, k) <==> mask_marks(pixels, k) || (k
                        < index && flag_items(view_desc.empty)[k])),
            decreases empty.len() - index,
        {
            let ghost before = image.sections;
            if empty[index] {
                image.sections = with_section(image.sections, index as u8);
            }
            let ghost after = image.sections;
            assert forall|k: int| 0 <= k < 8 implies (has_bit(after, k) <==> mask_marks(pixels, k)
                || (k <= index && flag_items(view_desc.empty)[k])) by {
                assert(has_bit(before, k) <==> mask_marks(pixels, k) || (k < index && flag_items(view_desc.empty)[k]));
                assert(has_bit(after, k) <==> has_bit(before, k) || (flag_items(view_desc.empty)[index as int]
                    && k == index));
            }
            index = index + 1;
        }
        let sections = image.sections;
        proof {
            if has_bit(sections, 7) {
                assert(mask_marks(pixels, 7));
                let i = choose|i: int| 0 <= i < pixels.len() && marks_section(#[trigger] pixels[i], 7);
                lemma_index_ranges(pixels[i]);
            }
            lemma_lowest_bound(sections, 0);
        }
        let mut sprites: Vec<Sprite> = Vec::new();
        match &view_desc.operation {
            Some(OperationDesc::SplitEnds(true)) => {
                let first = lowest_section(sections);
                push_sprite(&mut sprites, view_desc, first, Some(Operation::Intersect));
                push_sections(&mut sprites, view_desc, sections, first + 1);
                let offset = offset_slice(&view_desc.offset).last();
                let ghost middle = sprite_views(sprites@);
                let last = Sprite::new(first + 1, offset, Some(Operation::Difference), TileType::Last);
                sprites.push(last);
                assert(sprite_views(sprites@) =~= middle.push(last.spec_view()));
            },
            Some(OperationDesc::Transfer(transfers)) => {
                if flag_slice(transfers).last() == Some(&true) {
                    return Err(MaskError::TransferOnLastSprite);
                }
                push_sections(&mut sprites, view_desc, sections, 0);
            },
            _ => {
                push_sections(&mut sprites, view_desc, sections, 0);
            },
        }
        let extrude_behind_type = if view_desc.extrude_behind {
            Some(MeshType::Normal)
        } else {
            None
        };
        let extrude_ahead_type = if view_desc.extrude_in_front {
            Some(MeshType::Normal)
        } else if view_desc.mask_end {
            Some(MeshType::Mask)
        } else {
            None
        };
        assert forall|k: int| 0 <= k < 8 implies (has_bit(sections, k) <==> mask_marks(pixels, k) || flag_at(
            flag_items(view_desc.empty),
            k,
        )) by {
            assert(has_bit(sections, k) <==> mask_marks(pixels, k) || (k < index && flag_items(view_desc.empty)[k]));
        }
        Ok(View {
            image,
            mirror: view_desc.mirror,
            sprites,
            requires_track_mask: view_desc.operation.is_some(),
            extrude_behind_type,
            extrude_ahead_type,
            optional,
        })
    }
}

impl View {
    /// `x` as the mask sees it: mirrored views count columns from the other side.
    pub open spec fn mirrored_x(&self, x: int) -> int {
        if self.is_mirrored() {
            -x - 1
        } else {
            x
        }
    }

    /// The coordinates relative to the origin stay within `i32` once mirrored and moved to the
    /// mask.
    pub open spec fn translatable(&self, x: int, y: int) -> bool {
        &&& self.is_mirrored() ==> x > i32::MIN
        &&& i32::MIN <= self.mirrored_x(x) + self.mask().offset_x <= i32::MAX
        &&& i32::MIN <= y + self.mask().offset_y <= i32::MAX
    }

    /// The mask pixel that coordinates relative to the origin fall on, clamped to the mask.
    pub open spec fn translated(&self, x: int, y: int) -> (int, int) {
        (
            clamp(self.mirrored_x(x) + self.mask().offset_x, 0, self.mask().width - 1),
            clamp(y + self.mask().offset_y, 0, self.mask().height - 1),
        )
    }

    /// The mask pixel at coordinates relative to the origin.
    pub open spec fn sample(&self, x: int, y: int) -> u8 {
        let (tx, ty) = self.translated(x, y);
        self.mask().pixel(tx, ty)
    }

    fn translate_coords(&self, x: i32, y: i32) -> (r: (usize, usize))
        requires
            self.sampleable(),
            self.translatable(x as int, y as int),
        ensures
            r.0 == self.translated(x as int, y as int).0,
            r.1 == self.translated(x as int, y as int).1,
            r.0 < self.mask().width,
            r.1 < self.mask().height,
    {
        let x = if self.mirror {
            -x - 1
        } else {
            x
        };
        let x = x + self.image.image.offset_x();
        let y = y + self.image.image.offset_y();
        let max_x = self.image.image.width() as i32 - 1;
        let max_y = self.image.image.height() as i32 - 1;
        let x = if x < 0 {
            0
        } else if x > max_x {
            max_x
        } else {
            x
        };
        let y = if y < 0 {
            0
        } else if y > max_y {
            max_y
        } else {
            y
        };
        (x as usize, y as usize)
    }

    /// Whether the mask pixel at coordinates relative to the origin has primary index `index`.
    pub fn sample_primary(&self, x: i32, y: i32, index: u8) -> (r: bool)
        requires
            self.sampleable(),
            self.translatable(x as int, y as int),
        ensures
            r == (primary_index(self.sample(x as int, y as int)) == index),
    {
        let (x, y) = self.translate_coords(x, y);
        self.image.image.get_pixel(x, y) & PRIMARY_INDEX_MASK == index
    }

    /// Whether the mask pixel at coordinates relative to the origin has secondary index `index`.
    pub fn sample_secondary(&self, x: i32, y: i32, index: u8) -> (r: bool)
        requires
            self.sampleable(),
            self.translatable(x as int, y as int),
        ensures
            r == (secondary_index(self.sample(x as int, y as int)) == index),
    {
        let (x, y) = self.translate_coords(x, y);
        (self.image.image.get_pixel(x, y) & SECONDARY_INDEX_MASK) >> SECONDARY_INDEX_SHIFT == index
    }
}


/// The views of a track piece: two, used again for the other two views as parts drawn only
/// for lift hills, or four.
pub enum ViewsDesc {
    Two([ViewDesc; 2]),
    Four([ViewDesc; 4]),
}

/// For each of the four views of a piece described by `desc`: which described view it is cut
/// by, and whether it is drawn only for lift hills.
pub open spec fn spec_view_slots(desc: ViewsDesc) -> Seq<(usize, bool)> {
    match desc {
        ViewsDesc::Two(_) => seq![(0usize, false), (1usize, false), (0usize, true), (1usize, true)],
        ViewsDesc::Four(_) => seq![(0usize, false), (1usize, false), (2usize, false), (3usize, false)],
    }
}

impl ViewsDesc {
    /// For each of the four views: which described view cuts it, and whether it is drawn only
    /// for lift hills.
    pub fn view_slots(&self) -> (r: [(usize, bool); 4])
        ensures
            r@ == spec_view_slots(*self),
    {
        let r: [(usize, bool); 4] = match self {
            ViewsDesc::Two(_) => [(0, false), (1, false), (0, true), (1, true)],
            ViewsDesc::Four(_) => [(0, false), (1, false), (2, false), (3, false)],
        };
        assert(r@ =~= spec_view_slots(*self));
        r
    }

    /// The described view `index`.
    pub fn view(&self, index: usize) -> (r: &ViewDesc)
        requires
            index < match *self {
                ViewsDesc::Two(_) => 2int,
                ViewsDesc::Four(_) => 4int,
            },
        ensures
            *r == match *self {
                ViewsDesc::Two(v) => v@[index as int],
                ViewsDesc::Four(v) => v@[index as int],
            },
    {
        match self {
            ViewsDesc::Two(v) => &v[index],
            ViewsDesc::Four(v) => &v[index],
        }
    }
}

/// The masks of a set of track pieces, by piece name.
pub struct Masks {
    pub track_sections: Vec<(String, Vec<View>)>,
}

impl Masks {
    /// The names of the pieces, in order.
    pub open spec fn names(&self) -> Seq<Seq<char>> {
        self.track_sections@.map_values(|e: (String, Vec<View>)| e.0@)
    }

    /// No name appears twice.
    pub open spec fn wf(&self) -> bool {
        forall|i: int, j: int|
            0 <= i < j < self.track_sections@.len() ==> self.track_sections@[i].0@ != self.track_sections@[j].0@
    }

    /// Where the piece `name` is kept, if it is.
    pub open spec fn index_of(&self, name: Seq<char>) -> Option<int> {
        if self.names().contains(name) {
            Some(choose|i: int| 0 <= i < self.track_sections@.len() && self.track_sections@[i].0@ == name)
        } else {
            None
        }
    }

    proof fn lemma_index_of(&self, name: Seq<char>, i: int)
        requires
            self.wf(),
            0 <= i < self.track_sections@.len(),
            self.track_sections@[i].0@ == name,
        ensures
            self.index_of(name) == Some(i),
    {
        assert(self.names()[i] == name);
        let c = choose|c: int| 0 <= c < self.track_sections@.len() && self.track_sections@[c].0@ == name;
        if c != i {
            if c < i {
                assert(self.track_sections@[c].0@ != self.track_sections@[i].0@);
            } else {
                assert(self.track_sections@[i].0@ != self.track_sections@[c].0@);
            }
        }
    }

    /// No masks.
    pub fn new() -> (r: Masks)
        ensures
            r.wf(),
            r.track_sections@.len() == 0,
    {
        Masks { track_sections: Vec::new() }
    }

    /// Where the masks of the piece `name` are kept.
    fn find(&self, name: &str) -> (r: Option<usize>)
        ensures
            match r {
                Some(i) => i < self.track_sections@.len() && self.track_sections@[i as int].0@ == name@,
                None => forall|i: int| 0 <= i < self.track_sections@.len() ==> self.track_sections@[i].0@ != name@,
            },
    {
        let key = String::from_str(name);
        let mut i: usize = 0;
        while i < self.track_sections.len()
            invariant
                i <= self.track_sections@.len(),
                key@ == name@,
                forall|k: int| 0 <= k < i ==> self.track_sections@[k].0@ != name@,
            decreases self.track_sections@.len() - i,
        {
            if self.track_sections[i].0 == key {
                return Some(i);
            }
            i = i + 1;
        }
        None
    }

    /// Sets the views of the piece `name`, in place of any it had: a piece already present
    /// keeps its place, a new one comes last, and every other piece keeps its views and place.
    pub fn insert(&mut self, name: String, views: Vec<View>)
        requires
            old(self).wf(),
        ensures
            final(self).wf(),
            match old(self).index_of(name@) {
                Some(i) => final(self).track_sections@ == old(self).track_sections@.update(i, (name, views)),
                None => final(self).track_sections@ == old(self).track_sections@.push((name, views)),
            },
    {
        match self.find(name.as_str()) {
            Some(i) => {
                proof {
                    self.lemma_index_of(name@, i as int);
                }
                self.track_sections.set(i, (name, views));
            },
            None => {
                proof {
                    assert(!self.names().contains(name@)) by {
                        if self.names().contains(name@) {
                            let k = choose|k: int| 0 <= k < self.names().len() && self.names()[k] == name@;
                            assert(self.track_sections@[k].0@ == name@);
                        }
                    }
                }
                self.track_sections.push((name, views));
            },
        }
    }

    /// The views of the piece `name`, if it has masks.
    pub fn get_views(&self, track_section_name: &str) -> (r: Option<&[View]>)
        ensures
            match r {
                Some(v) => exists|i: int|
                    0 <= i < self.track_sections@.len() && self.track_sections@[i].0@ == track_section_name@
                        && v@ == self.track_sections@[i].1@,
                None => !self.names().contains(track_section_name@),
            },
    {
        match self.find(track_section_name) {
            Some(i) => Some(self.track_sections[i].1.as_slice()),
            None => {
                proof {
                    if self.names().contains(track_section_name@) {
                        let k = choose|k: int| 0 <= k < self.names().len() && self.names()[k] == track_section_name@;
                        assert(self.track_sections@[k].0@ == track_section_name@);
                    }
                }
                None
            },
        }
    }
}


proof fn lemma_sections_between_held(desc: ViewDesc, s: u8, lo: int, n: int)
    ensures
        forall|t: int|
            0 <= t < sections_between(desc, s, lo, n).len() ==> {
                let m = #[trigger] sections_between(desc, s, lo, n)[t];
                &&& lo + 1 <= m.index <= n
                &&& has_bit(s, m.index - 1)
            },
    decreases n - lo,
{
    if n > lo {
        lemma_sections_between_held(desc, s, lo, n - 1);
        let a = sections_between(desc, s, lo, n - 1);
        let b = section_part(desc, s, n - 1);
        assert forall|t: int| 0 <= t < (a + b).len() implies {
            let m = #[trigger] (a + b)[t];
            &&& lo + 1 <= m.index <= n
            &&& has_bit(s, m.index - 1)
        } by {
            if t >= a.len() {
                assert(b[t - a.len()].index == n);
            }
        }
    }
}

/// Every sprite of a view shows a section the view holds, and sprites come in section order;
/// with split ends, the first and last sprites show the view's lowest section.
pub proof fn lemma_view_sprites_held(desc: ViewDesc, s: u8)
    requires
        s != 0,
    ensures
        forall|t: int|
            0 <= t < view_sprites(desc, s).len() ==> has_bit(s, (#[trigger] view_sprites(desc, s)[t]).index - 1),
{
    lemma_sections_between_held(desc, s, 0, MAX_SECTION_COUNT as int);
    match desc.operation {
        Some(OperationDesc::SplitEnds(true)) => {
            let first = lowest_from(s, 0);
            lemma_nonzero_has_bit(s);
            lemma_lowest_held(s, 0);
            lemma_sections_between_held(desc, s, first + 1, MAX_SECTION_COUNT as int);
            let v = view_sprites(desc, s);
            let mid = sections_between(desc, s, first + 1, MAX_SECTION_COUNT as int);
            assert forall|t: int| 0 <= t < v.len() implies has_bit(s, (#[trigger] v[t]).index - 1) by {
                if t == 0 {
                } else if t < 1 + mid.len() {
                    assert(v[t] == mid[t - 1]);
                } else {
                }
            }
        },
        _ => {},
    }
}

proof fn lemma_nonzero_has_bit(s: u8)
    requires
        s != 0,
    ensures
        exists|j: int| 0 <= j < 8 && has_bit(s, j),
{
    assert(s != 0 ==> (s & (1u8 << 0u8) != 0 || s & (1u8 << 1u8) != 0 || s & (1u8 << 2u8) != 0 || s & (1u8
        << 3u8) != 0 || s & (1u8 << 4u8) != 0 || s & (1u8 << 5u8) != 0 || s & (1u8 << 6u8) != 0 || s & (1u8
        << 7u8) != 0)) by (bit_vector);
    if has_bit(s, 0) {
    } else if has_bit(s, 1) {
    } else if has_bit(s, 2) {
    } else if has_bit(s, 3) {
    } else if has_bit(s, 4) {
    } else if has_bit(s, 5) {
    } else if has_bit(s, 6) {
    } else {
        assert(has_bit(s, 7));
    }
}

proof fn lemma_lowest_held(s: u8, k: int)
    requires
        0 <= k <= 8,
        exists|j: int| k <= j < 8 && has_bit(s, j),
    ensures
        has_bit(s, lowest_from(s, k)),
    decreases 8 - k,
{
    if !has_bit(s, k) {
        lemma_lowest_held(s, k + 1);
    }
}

} // verus!
