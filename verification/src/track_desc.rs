//! The groups of track pieces a track can be made of.
use vstd::prelude::*;

verus! {

/// A group of track pieces that a track offers together.
#[derive(Clone, Copy, Debug, PartialEq, Eq, Hash, Structural)]
pub enum TrackGroup {
    Flat,
    Turns,
    GentleSlopes,
    SteepSlopes,
    VerticalSlopes,
    Diagonals,
    SlopedTurns,
    GentleSlopedTurns,
    BankedTurns,
    BankedSlopedTurns,
    LargeSlopedTurns,
    LargeBankedSlopedTurns,
    LargeSteepSlopedTurns,
    SBends,
    BankedSBends,
    Helices,
    MediumQuarterHelices,
    MediumBankedQuarterHelices,
    SmallSlopeTransitions,
    SmallSlopeTransitionsDiagonal,
    LargeSlopeTransitions,
    LargeSlopeTransitionsDiagonal,
    BarrelRolls,
    BankedBarrelRolls,
    InlineTwists,
    BankedInlineTwists,
    QuarterLoops,
    Corkscrews,
    LargeCorkscrews,
    HalfLoops,
    VerticalLoops,
    MediumHalfLoops,
    LargeHalfLoops,
    ZeroGRolls,
    BankedZeroGRolls,
    DiveLoops,
    TurnBankTransitions,
    SteepBankTransitions,
    VerySmallTurns,
}


/// The models a track is built from, by role.
pub struct Models<T> {
    pub track: T,
    pub mask: T,
    pub tie: Option<T>,
    pub track_tie: Option<T>,
    pub track_alt: Option<T>,
    pub support_flat: Option<T>,
    pub support_bank_sixth: Option<T>,
    pub support_bank_third: Option<T>,
    pub support_bank_half: Option<T>,
    pub support_bank_two_thirds: Option<T>,
    pub support_bank_five_sixths: Option<T>,
    pub support_bank: Option<T>,
    pub support_base: Option<T>,
}

/// The meshes of a built track piece that extend behind and ahead of it.
pub struct TrackSectionMeshIds {
    pub extrude_behind_mesh_ids: Vec<usize>,
    pub extrude_ahead_mesh_ids: Vec<usize>,
}

/// The default of flags that are on unless a description turns them off.
pub fn bool_true() -> (r: bool)
    ensures
        r,
{
    true
}

} // verus!
