//! Metal supports: where they stand as the view turns, and the sprites they are drawn with.
use vstd::prelude::*;

use crate::drawing::{add_coords, rotate_coords, spec_rotate_coords};

verus! {

/// Where on a tile a support stands.
#[derive(Clone, Copy, Debug, PartialEq, Eq, Structural)]
pub enum SupportPosition {
    TopCorner,
    LeftCorner,
    RightCorner,
    BottomCorner,
    Centre,
    TopLeftSide,
    TopRightSide,
    BottomLeftSide,
    BottomRightSide,
}

impl SupportPosition {
    /// The position seen in a view turned `rotation` quarter turns.
    pub open spec fn spec_rotate(self, rotation: int) -> SupportPosition {
        let r = rotation % 4;
        match self {
            SupportPosition::TopCorner => if r == 0 { SupportPosition::TopCorner } else if r == 1 { SupportPosition::RightCorner } else if r == 2 { SupportPosition::BottomCorner } else { SupportPosition::LeftCorner },
            SupportPosition::LeftCorner => if r == 0 { SupportPosition::LeftCorner } else if r == 1 { SupportPosition::TopCorner } else if r == 2 { SupportPosition::RightCorner } else { SupportPosition::BottomCorner },
            SupportPosition::RightCorner => if r == 0 { SupportPosition::RightCorner } else if r == 1 { SupportPosition::BottomCorner } else if r == 2 { SupportPosition::LeftCorner } else { SupportPosition::TopCorner },
            SupportPosition::BottomCorner => if r == 0 { SupportPosition::BottomCorner } else if r == 1 { SupportPosition::LeftCorner } else if r == 2 { SupportPosition::TopCorner } else { SupportPosition::RightCorner },
            SupportPosition::Centre => if r == 0 { SupportPosition::Centre } else if r == 1 { SupportPosition::Centre } else if r == 2 { SupportPosition::Centre } else { SupportPosition::Centre },
            SupportPosition::TopLeftSide => if r == 0 { SupportPosition::TopLeftSide } else if r == 1 { SupportPosition::TopRightSide } else if r == 2 { SupportPosition::BottomRightSide } else { SupportPosition::BottomLeftSide },
            SupportPosition::TopRightSide => if r == 0 { SupportPosition::TopRightSide } else if r == 1 { SupportPosition::BottomRightSide } else if r == 2 { SupportPosition::BottomLeftSide } else { SupportPosition::TopLeftSide },
            SupportPosition::BottomLeftSide => if r == 0 { SupportPosition::BottomLeftSide } else if r == 1 { SupportPosition::TopLeftSide } else if r == 2 { SupportPosition::TopRightSide } else { SupportPosition::BottomRightSide },
            SupportPosition::BottomRightSide => if r == 0 { SupportPosition::BottomRightSide } else if r == 1 { SupportPosition::BottomLeftSide } else if r == 2 { SupportPosition::TopLeftSide } else { SupportPosition::TopRightSide },
        }
    }

    /// The position seen in a view turned `rotation` quarter turns.
    pub fn rotate(self, rotation: usize) -> (r: SupportPosition)
        ensures
            r == self.spec_rotate(rotation as int),
    {
        let r = rotation % 4;
        match self {
            SupportPosition::TopCorner => match r {
                0 => SupportPosition::TopCorner,
                1 => SupportPosition::RightCorner,
                2 => SupportPosition::BottomCorner,
                _ => SupportPosition::LeftCorner,
            },
            SupportPosition::LeftCorner => match r {
                0 => SupportPosition::LeftCorner,
                1 => SupportPosition::TopCorner,
                2 => SupportPosition::RightCorner,
                _ => SupportPosition::BottomCorner,
            },
            SupportPosition::RightCorner => match r {
                0 => SupportPosition::RightCorner,
                1 => SupportPosition::BottomCorner,
                2 => SupportPosition::LeftCorner,
                _ => SupportPosition::TopCorner,
            },
            SupportPosition::BottomCorner => match r {
                0 => SupportPosition::BottomCorner,
                1 => SupportPosition::LeftCorner,
                2 => SupportPosition::TopCorner,
                _ => SupportPosition::RightCorner,
            },
            SupportPosition::Centre => match r {
                0 => SupportPosition::Centre,
                1 => SupportPosition::Centre,
                2 => SupportPosition::Centre,
                _ => SupportPosition::Centre,
            },
            SupportPosition::TopLeftSide => match r {
                0 => SupportPosition::TopLeftSide,
                1 => SupportPosition::TopRightSide,
                2 => SupportPosition::BottomRightSide,
                _ => SupportPosition::BottomLeftSide,
            },
            SupportPosition::TopRightSide => match r {
                0 => SupportPosition::TopRightSide,
                1 => SupportPosition::BottomRightSide,
                2 => SupportPosition::BottomLeftSide,
                _ => SupportPosition::TopLeftSide,
            },
            SupportPosition::BottomLeftSide => match r {
                0 => SupportPosition::BottomLeftSide,
                1 => SupportPosition::TopLeftSide,
                2 => SupportPosition::TopRightSide,
                _ => SupportPosition::BottomRightSide,
            },
            SupportPosition::BottomRightSide => match r {
                0 => SupportPosition::BottomRightSide,
                1 => SupportPosition::BottomLeftSide,
                2 => SupportPosition::TopLeftSide,
                _ => SupportPosition::TopRightSide,
            },
        }
    }
}

/// Turning a position by `a` and then by `b` quarter turns turns it by `a + b`.
pub proof fn lemma_rotate_compose(p: SupportPosition, a: int, b: int)
    requires
        0 <= a,
        0 <= b,
    ensures
        p.spec_rotate(a).spec_rotate(b) == p.spec_rotate(a + b),
{
    assert((a % 4 + b % 4) % 4 == (a + b) % 4) by (nonlinear_arith)
        requires
            0 <= a,
            0 <= b,
    ;
    assert(0 <= a % 4 < 4 && 0 <= b % 4 < 4) by (nonlinear_arith)
        requires
            0 <= a,
            0 <= b,
    ;
}

/// A kind of metal support.
#[derive(Clone, Copy, Debug, PartialEq, Eq, Structural)]
pub enum MetalSupportType {
    Tubes,
    Fork,
    Boxed,
    Stick,
    Thick,
    Truss,
    TubesInverted,
    BoxedCoated,
}

/// The drawing of a support, which for some kinds depends on the view.
#[derive(Clone, Copy, Debug, PartialEq, Eq, Structural)]
pub enum SupportGraphicType {
    Tubes,
    Fork,
    ForkAlt,
    Boxed,
    Stick,
    StickAlt,
    ThickCentred,
    Thick,
    ThickAlt,
    ThickAltCentred,
    Truss,
    TubesInverted,
    BoxedCoated,
}

/// The drawing of a kind of support in a view turned `rotation` quarter turns.
pub open spec fn spec_rotate_support_type(support_type: MetalSupportType, rotation: int) -> SupportGraphicType {
    let r = rotation % 4;
    match support_type {
        MetalSupportType::Tubes => if r == 0 { SupportGraphicType::Tubes } else if r == 1 { SupportGraphicType::Tubes } else if r == 2 { SupportGraphicType::Tubes } else { SupportGraphicType::Tubes },
        MetalSupportType::Fork => if r == 0 { SupportGraphicType::Fork } else if r == 1 { SupportGraphicType::ForkAlt } else if r == 2 { SupportGraphicType::Fork } else { SupportGraphicType::ForkAlt },
        MetalSupportType::Boxed => if r == 0 { SupportGraphicType::Boxed } else if r == 1 { SupportGraphicType::Boxed } else if r == 2 { SupportGraphicType::Boxed } else { SupportGraphicType::Boxed },
        MetalSupportType::Stick => if r == 0 { SupportGraphicType::Stick } else if r == 1 { SupportGraphicType::StickAlt } else if r == 2 { SupportGraphicType::Stick } else { SupportGraphicType::StickAlt },
        MetalSupportType::Thick => if r == 0 { SupportGraphicType::Thick } else if r == 1 { SupportGraphicType::ThickAlt } else if r == 2 { SupportGraphicType::ThickCentred } else { SupportGraphicType::ThickAltCentred },
        MetalSupportType::Truss => if r == 0 { SupportGraphicType::Truss } else if r == 1 { SupportGraphicType::Truss } else if r == 2 { SupportGraphicType::Truss } else { SupportGraphicType::Truss },
        MetalSupportType::TubesInverted => if r == 0 { SupportGraphicType::TubesInverted } else if r == 1 { SupportGraphicType::TubesInverted } else if r == 2 { SupportGraphicType::TubesInverted } else { SupportGraphicType::TubesInverted },
        MetalSupportType::BoxedCoated => if r == 0 { SupportGraphicType::BoxedCoated } else if r == 1 { SupportGraphicType::BoxedCoated } else if r == 2 { SupportGraphicType::BoxedCoated } else { SupportGraphicType::BoxedCoated },
    }
}

/// The drawing of a kind of support in a view turned `rotation` quarter turns.
pub fn rotate_support_type(support_type: MetalSupportType, rotation: usize) -> (r: SupportGraphicType)
    ensures
        r == spec_rotate_support_type(support_type, rotation as int),
{
    let r = rotation % 4;
    match support_type {
        MetalSupportType::Tubes => match r {
            0 => SupportGraphicType::Tubes,
            1 => SupportGraphicType::Tubes,
            2 => SupportGraphicType::Tubes,
            _ => SupportGraphicType::Tubes,
        },
        MetalSupportType::Fork => match r {
            0 => SupportGraphicType::Fork,
            1 => SupportGraphicType::ForkAlt,
            2 => SupportGraphicType::Fork,
            _ => SupportGraphicType::ForkAlt,
        },
        MetalSupportType::Boxed => match r {
            0 => SupportGraphicType::Boxed,
            1 => SupportGraphicType::Boxed,
            2 => SupportGraphicType::Boxed,
            _ => SupportGraphicType::Boxed,
        },
        MetalSupportType::Stick => match r {
            0 => SupportGraphicType::Stick,
            1 => SupportGraphicType::StickAlt,
            2 => SupportGraphicType::Stick,
            _ => SupportGraphicType::StickAlt,
        },
        MetalSupportType::Thick => match r {
            0 => SupportGraphicType::Thick,
            1 => SupportGraphicType::ThickAlt,
            2 => SupportGraphicType::ThickCentred,
            _ => SupportGraphicType::ThickAltCentred,
        },
        MetalSupportType::Truss => match r {
            0 => SupportGraphicType::Truss,
            1 => SupportGraphicType::Truss,
            2 => SupportGraphicType::Truss,
            _ => SupportGraphicType::Truss,
        },
        MetalSupportType::TubesInverted => match r {
            0 => SupportGraphicType::TubesInverted,
            1 => SupportGraphicType::TubesInverted,
            2 => SupportGraphicType::TubesInverted,
            _ => SupportGraphicType::TubesInverted,
        },
        MetalSupportType::BoxedCoated => match r {
            0 => SupportGraphicType::BoxedCoated,
            1 => SupportGraphicType::BoxedCoated,
            2 => SupportGraphicType::BoxedCoated,
            _ => SupportGraphicType::BoxedCoated,
        },
    }
}

/// The sprites a support drawing is made of: its base, if it has one, and its beam segments,
/// plain and capped.
#[derive(Clone, Copy, Debug, PartialEq, Eq, Structural)]
pub struct SpriteIndices {
    pub base: Option<u32>,
    pub beam: u32,
    pub beam_capped: u32,
}

pub open spec fn spec_sprite_indices(t: SupportGraphicType) -> SpriteIndices {
    match t {
        SupportGraphicType::Tubes => SpriteIndices { base: Some(3243), beam: 3209, beam_capped: 3226 },
        SupportGraphicType::Fork => SpriteIndices { base: Some(3279), beam: 3262, beam_capped: 3262 },
        SupportGraphicType::ForkAlt => SpriteIndices { base: Some(3298), beam: 3262, beam_capped: 3262 },
        SupportGraphicType::Boxed => SpriteIndices { base: Some(3334), beam: 3317, beam_capped: 3317 },
        SupportGraphicType::Stick => SpriteIndices { base: None, beam: 3658, beam_capped: 3658 },
        SupportGraphicType::StickAlt => SpriteIndices { base: None, beam: 3658, beam_capped: 3658 },
        SupportGraphicType::ThickCentred => SpriteIndices { base: None, beam: 3141, beam_capped: 3141 },
        SupportGraphicType::Thick => SpriteIndices { base: None, beam: 3158, beam_capped: 3158 },
        SupportGraphicType::ThickAlt => SpriteIndices { base: None, beam: 3175, beam_capped: 3175 },
        SupportGraphicType::ThickAltCentred => SpriteIndices { base: None, beam: 3192, beam_capped: 3192 },
        SupportGraphicType::Truss => SpriteIndices { base: None, beam: 3124, beam_capped: 3124 },
        SupportGraphicType::TubesInverted => SpriteIndices { base: Some(3243), beam: 3209, beam_capped: 3226 },
        SupportGraphicType::BoxedCoated => SpriteIndices { base: Some(3334), beam: 3353, beam_capped: 3353 },
    }
}

/// The sprites a support drawing is made of.
pub fn sprite_indices(t: SupportGraphicType) -> (r: SpriteIndices)
    ensures
        r == spec_sprite_indices(t),
        r.beam <= 4000 && r.beam_capped <= 4000,
{
    match t {
        SupportGraphicType::Tubes => SpriteIndices { base: Some(3243), beam: 3209, beam_capped: 3226 },
        SupportGraphicType::Fork => SpriteIndices { base: Some(3279), beam: 3262, beam_capped: 3262 },
        SupportGraphicType::ForkAlt => SpriteIndices { base: Some(3298), beam: 3262, beam_capped: 3262 },
        SupportGraphicType::Boxed => SpriteIndices { base: Some(3334), beam: 3317, beam_capped: 3317 },
        SupportGraphicType::Stick => SpriteIndices { base: None, beam: 3658, beam_capped: 3658 },
        SupportGraphicType::StickAlt => SpriteIndices { base: None, beam: 3658, beam_capped: 3658 },
        SupportGraphicType::ThickCentred => SpriteIndices { base: None, beam: 3141, beam_capped: 3141 },
        SupportGraphicType::Thick => SpriteIndices { base: None, beam: 3158, beam_capped: 3158 },
        SupportGraphicType::ThickAlt => SpriteIndices { base: None, beam: 3175, beam_capped: 3175 },
        SupportGraphicType::ThickAltCentred => SpriteIndices { base: None, beam: 3192, beam_capped: 3192 },
        SupportGraphicType::Truss => SpriteIndices { base: None, beam: 3124, beam_capped: 3124 },
        SupportGraphicType::TubesInverted => SpriteIndices { base: Some(3243), beam: 3209, beam_capped: 3226 },
        SupportGraphicType::BoxedCoated => SpriteIndices { base: Some(3334), beam: 3353, beam_capped: 3353 },
    }
}

/// Where on a tile a support at `p` stands, relative to the tile's corner.
pub open spec fn spec_position_offset(p: SupportPosition) -> Seq<i16> {
    match p {
        SupportPosition::TopCorner => seq![4, 4, 0],
        SupportPosition::LeftCorner => seq![28, 4, 0],
        SupportPosition::RightCorner => seq![4, 28, 0],
        SupportPosition::BottomCorner => seq![28, 28, 0],
        SupportPosition::Centre => seq![16, 16, 0],
        SupportPosition::TopLeftSide => seq![16, 4, 0],
        SupportPosition::TopRightSide => seq![4, 16, 0],
        SupportPosition::BottomLeftSide => seq![28, 16, 0],
        SupportPosition::BottomRightSide => seq![16, 28, 0],
    }
}

/// Where on a tile a support at `p` stands, relative to the tile's corner.
pub fn position_offset(p: SupportPosition) -> (r: [i16; 3])
    ensures
        r@ == spec_position_offset(p),
        0 <= r[0] <= 28 && 0 <= r[1] <= 28 && r[2] == 0,
{
    let r: [i16; 3] = match p {
        SupportPosition::TopCorner => [4, 4, 0],
        SupportPosition::LeftCorner => [28, 4, 0],
        SupportPosition::RightCorner => [4, 28, 0],
        SupportPosition::BottomCorner => [28, 28, 0],
        SupportPosition::Centre => [16, 16, 0],
        SupportPosition::TopLeftSide => [16, 4, 0],
        SupportPosition::TopRightSide => [4, 16, 0],
        SupportPosition::BottomLeftSide => [28, 16, 0],
        SupportPosition::BottomRightSide => [16, 28, 0],
    };
    assert(r@ =~= spec_position_offset(p));
    r
}


/// A metal support under a tile of a track piece.
#[derive(Clone, Copy, Debug, PartialEq, Eq)]
pub struct MetalSupport {
    pub position: SupportPosition,
    /// How high the track stands above its tile.
    pub height: u8,
    /// Quarter turns of the support's drawing against the piece.
    pub rotation: u8,
    /// For each view, the height of the beam added above the support; negative for a capped
    /// beam of that height.
    pub extra_heights: [i16; 4],
}

/// One sprite of a support: its index among the game's sprites, and where it is drawn.
#[derive(Clone, Copy, Debug, PartialEq, Eq)]
pub struct SupportDraw {
    pub index: u32,
    pub coords: [i16; 3],
}

/// What a support sprite shows, for contracts: index, then position.
pub open spec fn draw_view(d: SupportDraw) -> (int, int, int, int) {
    (d.index as int, d.coords@[0] as int, d.coords@[1] as int, d.coords@[2] as int)
}

pub open spec fn draw_views(ds: Seq<SupportDraw>) -> Seq<(int, int, int, int)> {
    ds.map_values(|d: SupportDraw| draw_view(d))
}

/// The tallest beam segment.
pub const MAX_SEGMENT_HEIGHT: i16 = 16;

/// Where supports start, below the tile.
pub const SUPPORT_START_HEIGHT: i16 = -32;

/// The beam segments that fill `height` from `z` up, at `(x, y)`: segments of at most 16,
/// each drawn with the sprite for its height.
pub open spec fn segment_draws(x: int, y: int, z: int, height: int, index: int) -> Seq<(int, int, int, int)>
    decreases height,
{
    if height <= 0 {
        Seq::empty()
    } else {
        let s = vstd::math::min(height, MAX_SEGMENT_HEIGHT as int);
        seq![(index + s - 1, x, y, z)] + segment_draws(x, y, z + s, height - s, index)
    }
}

/// The support's place in the view, and the sprites of its drawing.
pub open spec fn support_layout(c: Seq<i16>, support: MetalSupport, rotation: int, support_type: MetalSupportType) -> (int, int, SpriteIndices) {
    let rc = spec_rotate_coords(c, rotation);
    let off = spec_position_offset(support.position.spec_rotate(rotation));
    let t = spec_rotate_support_type(support_type, (rotation + support.rotation) % 4);
    (rc[0] + off[0], rc[1] + off[1], spec_sprite_indices(t))
}

/// The sprites of a support under a tile at `c`, bottom up: its base, its beam up to the track,
/// and the extra beam of the view.
pub open spec fn support_draws(c: Seq<i16>, support: MetalSupport, rotation: int, support_type: MetalSupportType) -> Seq<(int, int, int, int)> {
    let (x, y, si) = support_layout(c, support, rotation, support_type);
    let h0 = c[2] + support.height - SUPPORT_START_HEIGHT;
    let z0 = SUPPORT_START_HEIGHT as int;
    let (base, h1, z1) = match si.base {
        Some(b) => (seq![(b as int, x, y, z0)], h0 - 6, z0 + 6),
        None => (Seq::empty(), h0, z0),
    };
    let z2 = z1 + vstd::math::max(h1, 0);
    let e = support.extra_heights@[rotation % 4] as int;
    let (h3, z3, index) = if e < 0 {
        (-e, z2 - 1, si.beam_capped as int)
    } else {
        (e, z2, si.beam as int)
    };
    base + segment_draws(x, y, z1, h1, si.beam as int) + segment_draws(x, y, z3, h3, index)
}

/// Every coordinate of [`support_draws`] fits `i16`.
pub open spec fn support_fits(c: Seq<i16>, support: MetalSupport, rotation: int, support_type: MetalSupportType) -> bool {
    let (x, y, si) = support_layout(c, support, rotation, support_type);
    let h0 = c[2] + support.height - SUPPORT_START_HEIGHT;
    let e = support.extra_heights@[rotation % 4] as int;
    &&& c.len() == 3
    &&& (rotation == 1 || rotation == 2) ==> c[0] != i16::MIN
    &&& (rotation == 2 || rotation == 3) ==> c[1] != i16::MIN
    &&& i16::MIN <= x <= i16::MAX && i16::MIN <= y <= i16::MAX
    &&& h0 <= i16::MAX
    &&& e != i16::MIN
    &&& SUPPORT_START_HEIGHT + 6 + h0 + vstd::math::abs(e) <= i16::MAX
}

proof fn lemma_segments_step(x: int, y: int, z: int, height: int, index: int)
    requires
        height > 0,
    ensures
        segment_draws(x, y, z, height, index) == seq![
            (index + vstd::math::min(height, MAX_SEGMENT_HEIGHT as int) - 1, x, y, z),
        ] + segment_draws(
            x,
            y,
            z + vstd::math::min(height, MAX_SEGMENT_HEIGHT as int),
            height - vstd::math::min(height, MAX_SEGMENT_HEIGHT as int),
            index,
        ),
{
}

/// Pushes the beam segments that fill `height` from `coords[2]` up, and raises `coords[2]` past
/// them.
fn push_segments(draws: &mut Vec<SupportDraw>, coords: &mut [i16; 3], height: i16, index: u32)
    requires
        index <= 4000,
        old(coords)@[2] + vstd::math::max(height as int, 0) <= i16::MAX,
    ensures
        draw_views(final(draws)@) == draw_views(old(draws)@) + segment_draws(
            old(coords)@[0] as int,
            old(coords)@[1] as int,
            old(coords)@[2] as int,
            height as int,
            index as int,
        ),
        final(coords)@ == old(coords)@.update(2, (old(coords)@[2] + vstd::math::max(height as int, 0)) as i16),
{
    let ghost c0 = coords@;
    let ghost d0 = draw_views(draws@);
    let mut h = height;
    while h > 0
        invariant
            index <= 4000,
            coords@.len() == 3,
            coords@[0] == c0[0] && coords@[1] == c0[1],
            coords@[2] == c0[2] + vstd::math::max(height as int, 0) - vstd::math::max(h as int, 0),
            c0[2] + vstd::math::max(height as int, 0) <= i16::MAX,
            h <= vstd::math::max(height as int, 0),
            draw_views(draws@) + segment_draws(c0[0] as int, c0[1] as int, coords@[2] as int, h as int, index as int)
                == d0 + segment_draws(c0[0] as int, c0[1] as int, c0[2] as int, height as int, index as int),
        decreases h,
    {
        let segment = if h < MAX_SEGMENT_HEIGHT {
            h
        } else {
            MAX_SEGMENT_HEIGHT
        };
        proof {
            lemma_segments_step(c0[0] as int, c0[1] as int, coords@[2] as int, h as int, index as int);
        }
        let ghost before = draw_views(draws@);
        let ghost z = coords@[2];
        draws.push(SupportDraw { index: index + segment as u32 - 1, coords: *coords });
        assert(draw_views(draws@) =~= before.push((index + segment - 1, c0[0] as int, c0[1] as int, z as int)));
        h = h - segment;
        coords[2] = coords[2] + segment;
        assert(draw_views(draws@) + segment_draws(c0[0] as int, c0[1] as int, coords@[2] as int, h as int, index as int)
            =~= before + segment_draws(c0[0] as int, c0[1] as int, z as int, (h + segment) as int, index as int));
    }
    assert(segment_draws(c0[0] as int, c0[1] as int, coords@[2] as int, h as int, index as int) =~= Seq::empty());
    assert(coords@ =~= c0.update(2, (c0[2] + vstd::math::max(height as int, 0)) as i16));
}

/// The sprites of a metal support under a tile at `coords` of a piece, in a view turned
/// `rotation` quarter turns, bottom up.
pub fn draw_support(coords: &[i16; 3], support: &MetalSupport, rotation: usize, support_type: MetalSupportType) -> (r: Vec<SupportDraw>)
    requires
        rotation < 4,
        support_fits(coords@, *support, rotation as int, support_type),
    ensures
        draw_views(r@) == support_draws(coords@, *support, rotation as int, support_type),
{
    let mut draws: Vec<SupportDraw> = Vec::new();
    let mut height_remaining: i16 = coords[2] + support.height as i16 - SUPPORT_START_HEIGHT;
    let rotated = rotate_coords(coords, rotation);
    let position = support.position.rotate(rotation);
    let offset = position_offset(position);
    let mut c = add_coords(&rotated, &offset);
    c[2] = SUPPORT_START_HEIGHT;
    let graphic = rotate_support_type(support_type, (rotation + support.rotation as usize) % 4);
    let indices = sprite_indices(graphic);
    let ghost base_draws = draw_views(draws@);
    match indices.base {
        Some(base_index) => {
            draws.push(SupportDraw { index: base_index, coords: c });
            height_remaining = height_remaining - 6;
            c[2] = c[2] + 6;
        },
        None => {},
    }
    let ghost after_base = draw_views(draws@);
    push_segments(&mut draws, &mut c, height_remaining, indices.beam);
    let mut extra = support.extra_heights[rotation % 4];
    let index = if extra < 0 {
        extra = -extra;
        c[2] = c[2] - 1;
        indices.beam_capped
    } else {
        indices.beam
    };
    push_segments(&mut draws, &mut c, extra, index);
    proof {
        assert(draw_views(draws@) =~= support_draws(coords@, *support, rotation as int, support_type));
    }
    draws
}

} // verus!
