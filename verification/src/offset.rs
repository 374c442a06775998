//! Which offset table applies to a point of a track piece. The geometry (comparing the point's
//! tangent and normal with those of the standard slopes in each view) is measured by the
//! caller; the choices made from those measurements are here.
use vstd::prelude::*;

verus! {

/// The number of views of a track piece.
pub const VIEW_COUNT: usize = 4;

/// The kind of track a point lies on, which selects an offset table.
#[derive(Clone, Copy, Debug, PartialEq, Eq, Structural)]
pub enum OffsetType {
    Flat,
    Gentle,
    Steep,
    FlatBanked,
    GentleBanked,
    Inverted,
    Diagonal,
    DiagonalGentle,
    DiagonalSteep,
    DiagonalBanked,
    Vertical,
}

/// The offset table of a point, whether it is banked to the right, and the view in which it
/// matched a standard slope.
#[derive(Clone, Copy, Debug, PartialEq, Eq, Structural)]
pub struct OffsetDesc {
    pub offset_type: OffsetType,
    pub banked_right: bool,
    pub rotation_offset: usize,
}

/// How a point of a track compares, in one view, with the standard directions: whether its
/// tangent is that of flat, gentle, steep, diagonal, diagonal gentle or diagonal steep track,
/// whether its normal is that of vertical track, and how it is banked.
#[derive(Clone, Copy, Debug, PartialEq, Eq, Structural)]
pub struct PointMatch {
    pub flat: bool,
    pub gentle: bool,
    pub steep: bool,
    pub diagonal: bool,
    pub diagonal_gentle: bool,
    pub diagonal_steep: bool,
    pub vertical: bool,
    /// The point is banked by the track's bank angle.
    pub banked: bool,
    /// The point's binormal points down.
    pub binormal_down: bool,
    /// The point's normal points down: the track is upside down.
    pub upside_down: bool,
}

/// The offset table a point uses, and whether it is banked to the right; `None` where it
/// matches no standard direction. The first direction that matches, in the order of the
/// fields, decides.
pub open spec fn spec_offset_type(m: PointMatch) -> Option<(OffsetType, bool)> {
    let banked_right = m.banked && m.binormal_down;
    if m.flat {
        if m.banked {
            Some((OffsetType::FlatBanked, banked_right))
        } else if m.upside_down {
            Some((OffsetType::Inverted, false))
        } else {
            Some((OffsetType::Flat, false))
        }
    } else if m.gentle {
        if m.banked {
            Some((OffsetType::GentleBanked, banked_right))
        } else {
            Some((OffsetType::Gentle, false))
        }
    } else if m.steep {
        Some((OffsetType::Steep, false))
    } else if m.diagonal {
        if m.banked {
            Some((OffsetType::DiagonalBanked, banked_right))
        } else {
            Some((OffsetType::Diagonal, false))
        }
    } else if m.diagonal_gentle {
        if m.banked {
            Some((OffsetType::DiagonalBanked, banked_right))
        } else {
            Some((OffsetType::DiagonalGentle, false))
        }
    } else if m.diagonal_steep {
        Some((OffsetType::DiagonalSteep, false))
    } else if m.vertical {
        Some((OffsetType::Vertical, false))
    } else {
        None
    }
}

/// The offset table a point uses, and whether it is banked to the right.
pub fn get_offset_type(m: &PointMatch) -> (r: Option<(OffsetType, bool)>)
    ensures
        r == spec_offset_type(*m),
{
    let banked_right = m.banked && m.binormal_down;
    if m.flat {
        if m.banked {
            Some((OffsetType::FlatBanked, banked_right))
        } else if m.upside_down {
            Some((OffsetType::Inverted, false))
        } else {
            Some((OffsetType::Flat, false))
        }
    } else if m.gentle {
        if m.banked {
            Some((OffsetType::GentleBanked, banked_right))
        } else {
            Some((OffsetType::Gentle, false))
        }
    } else if m.steep {
        Some((OffsetType::Steep, false))
    } else if m.diagonal {
        if m.banked {
            Some((OffsetType::DiagonalBanked, banked_right))
        } else {
            Some((OffsetType::Diagonal, false))
        }
    } else if m.diagonal_gentle {
        if m.banked {
            Some((OffsetType::DiagonalBanked, banked_right))
        } else {
            Some((OffsetType::DiagonalGentle, false))
        }
    } else if m.diagonal_steep {
        Some((OffsetType::DiagonalSteep, false))
    } else if m.vertical {
        Some((OffsetType::Vertical, false))
    } else {
        None
    }
}

/// Whether `t` is one of the offset tables of banked track.
pub open spec fn is_banked_table(t: OffsetType) -> bool {
    t == OffsetType::FlatBanked || t == OffsetType::GentleBanked || t == OffsetType::DiagonalBanked
}

/// A point gets an offset table exactly when it matches some standard direction, and the table
/// is one of the first direction it matches, in the order flat, gentle, steep, diagonal,
/// diagonal gentle, diagonal steep, vertical: flat track gets the flat, flat banked or inverted
/// table; gentle track the gentle or gentle banked one; steep track the steep one; diagonal
/// track the diagonal or diagonal banked one; diagonal gentle track the diagonal gentle or
/// diagonal banked one; diagonal steep track the diagonal steep one; vertical track the
/// vertical one. Where the direction has a banked table, that table is taken exactly when the
/// point is banked; unbanked flat track is inverted exactly when it is upside down. A point is
/// banked to the right exactly when it takes a banked table and its binormal points down.
pub proof fn lemma_offset_type_follows_first_match(m: PointMatch)
    ensures
        spec_offset_type(m) is Some <==> (m.flat || m.gentle || m.steep || m.diagonal
            || m.diagonal_gentle || m.diagonal_steep || m.vertical),
        spec_offset_type(m) matches Some((t, banked_right)) ==> {
            &&& banked_right == (is_banked_table(t) && m.binormal_down)
            &&& m.flat ==> {
                &&& (t == OffsetType::Flat || t == OffsetType::FlatBanked || t == OffsetType::Inverted)
                &&& (t == OffsetType::FlatBanked) == m.banked
                &&& (t == OffsetType::Inverted) == (!m.banked && m.upside_down)
            }
            &&& (!m.flat && m.gentle) ==> {
                &&& (t == OffsetType::Gentle || t == OffsetType::GentleBanked)
                &&& (t == OffsetType::GentleBanked) == m.banked
            }
            &&& (!m.flat && !m.gentle && m.steep) ==> t == OffsetType::Steep
            &&& (!m.flat && !m.gentle && !m.steep && m.diagonal) ==> {
                &&& (t == OffsetType::Diagonal || t == OffsetType::DiagonalBanked)
                &&& (t == OffsetType::DiagonalBanked) == m.banked
            }
            &&& (!m.flat && !m.gentle && !m.steep && !m.diagonal && m.diagonal_gentle) ==> {
                &&& (t == OffsetType::DiagonalGentle || t == OffsetType::DiagonalBanked)
                &&& (t == OffsetType::DiagonalBanked) == m.banked
            }
            &&& (!m.flat && !m.gentle && !m.steep && !m.diagonal && !m.diagonal_gentle
                && m.diagonal_steep) ==> t == OffsetType::DiagonalSteep
            &&& (!m.flat && !m.gentle && !m.steep && !m.diagonal && !m.diagonal_gentle
                && !m.diagonal_steep) ==> t == OffsetType::Vertical
        },
{
}

/// The offset of a point: taken in the first view, in order, in which it matches a standard
/// direction; `None` where it matches none in any view. `matches[v]` is how the point compares
/// in view `v`.
pub fn get_offset_desc(matches: &[PointMatch; 4]) -> (r: Option<OffsetDesc>)
    ensures
        match r {
            Some(d) => {
                &&& d.rotation_offset < VIEW_COUNT
                &&& spec_offset_type(matches@[d.rotation_offset as int]) == Some(
                    (d.offset_type, d.banked_right),
                )
                &&& forall|v: int| 0 <= v < d.rotation_offset ==> spec_offset_type(#[trigger] matches@[v]) is None
            },
            None => forall|v: int| 0 <= v < VIEW_COUNT ==> spec_offset_type(#[trigger] matches@[v]) is None,
        },
{
    let mut rotation: usize = 0;
    while rotation < VIEW_COUNT
        invariant
            rotation <= VIEW_COUNT,
            forall|v: int| 0 <= v < rotation ==> spec_offset_type(#[trigger] matches@[v]) is None,
        decreases VIEW_COUNT - rotation,
    {
        if let Some((offset_type, banked_right)) = get_offset_type(&matches[rotation]) {
            return Some(OffsetDesc { offset_type, banked_right, rotation_offset: rotation });
        }
        rotation = rotation + 1;
    }
    None
}

/// Which entry of the offset table applies in a view turned `rotation` quarter turns: counted
/// from the view in which the point matched, and half a turn on for track banked right.
pub fn offset_index(desc: &OffsetDesc, rotation: usize) -> (r: usize)
    requires
        desc.rotation_offset <= VIEW_COUNT,
        rotation <= usize::MAX - 2 * VIEW_COUNT,
    ensures
        r == (rotation + (VIEW_COUNT - desc.rotation_offset) + if desc.banked_right {
            2int
        } else {
            0int
        }) % (VIEW_COUNT as int),
        r < VIEW_COUNT,
{
    let right_rotation_offset: usize = if desc.banked_right {
        2
    } else {
        0
    };
    (rotation + (VIEW_COUNT - desc.rotation_offset) + right_rotation_offset) % VIEW_COUNT
}

/// Whether the offset table is one of diagonal track.
pub fn is_diagonal(offset_type: OffsetType) -> (r: bool)
    ensures
        r == (offset_type == OffsetType::Diagonal || offset_type == OffsetType::DiagonalGentle
            || offset_type == OffsetType::DiagonalSteep || offset_type == OffsetType::DiagonalBanked),
{
    match offset_type {
        OffsetType::Diagonal | OffsetType::DiagonalGentle | OffsetType::DiagonalSteep | OffsetType::DiagonalBanked => true,
        _ => false,
    }
}

} // verus!
