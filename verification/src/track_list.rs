//! Which track pieces a track made of some groups of pieces is drawn with.
use vstd::prelude::*;

use crate::track_desc::TrackGroup;

verus! {

/// `s` when `c` holds, else nothing.
#[verifier::opaque]
pub open spec fn when(c: bool, s: Seq<&'static str>) -> Seq<&'static str> {
    if c {
        s
    } else {
        Seq::empty()
    }
}

/// The pieces of the slopes and turns that a track made of `groups` is drawn with.
pub open spec fn slope_and_turn_names(groups: Seq<TrackGroup>) -> Seq<&'static str> {
    when(
        groups.contains(TrackGroup::Flat),
        seq!["flat"],
    )
    + when(
        groups.contains(TrackGroup::GentleSlopes),
        seq!["flat_to_gentle", "gentle_to_flat", "gentle"],
    )
    + when(
        groups.contains(TrackGroup::SteepSlopes),
        seq!["gentle_to_steep", "steep_to_gentle", "steep"],
    )
    + when(
        groups.contains(TrackGroup::VerticalSlopes),
        seq!["steep_to_vertical", "vertical_to_steep", "vertical"],
    )
    + when(
        groups.contains(TrackGroup::SmallSlopeTransitions),
        seq!["small_flat_to_steep", "small_steep_to_flat"],
    )
    + when(
        groups.contains(TrackGroup::SmallSlopeTransitionsDiagonal),
        seq!["small_flat_to_steep_diag", "small_steep_to_flat_diag"],
    )
    + when(
        groups.contains(TrackGroup::LargeSlopeTransitions),
        seq!["flat_to_steep", "steep_to_flat"],
    )
    + when(
        groups.contains(TrackGroup::LargeSlopeTransitionsDiagonal),
        seq!["flat_to_steep_diag", "steep_to_flat_diag"],
    )
    + when(
        groups.contains(TrackGroup::VerySmallTurns),
        seq!["very_small_turn_left"],
    )
    + when(
        groups.contains(TrackGroup::Turns),
        seq![
            "small_turn_left",
            "medium_turn_left",
            "large_turn_left_to_diag",
            "large_turn_right_to_diag",
        ],
    )
}

/// The pieces of the diagonals, banks and sloped turns that a track made of `groups` is drawn with.
pub open spec fn bank_names(groups: Seq<TrackGroup>) -> Seq<&'static str> {
    when(
        groups.contains(TrackGroup::Diagonals),
        seq!["flat_diag"],
    )
    + when(
        groups.contains(TrackGroup::Diagonals) && groups.contains(TrackGroup::GentleSlopes),
        seq!["flat_to_gentle_diag", "gentle_to_flat_diag", "gentle_diag"],
    )
    + when(
        groups.contains(TrackGroup::Diagonals) && groups.contains(TrackGroup::SteepSlopes),
        seq!["gentle_to_steep_diag", "steep_to_gentle_diag", "steep_diag"],
    )
    + when(
        groups.contains(TrackGroup::BankedTurns),
        seq![
            "flat_to_left_bank",
            "flat_to_right_bank",
            "left_bank_to_gentle",
            "right_bank_to_gentle",
            "gentle_to_left_bank",
            "gentle_to_right_bank",
            "left_bank",
        ]
        + when(
            groups.contains(TrackGroup::Diagonals),
            seq![
                "flat_to_left_bank_diag",
                "flat_to_right_bank_diag",
                "left_bank_to_gentle_diag",
                "right_bank_to_gentle_diag",
                "gentle_to_left_bank_diag",
                "gentle_to_right_bank_diag",
                "left_bank_diag",
            ],
        )
        + seq![
            "small_turn_left_bank",
            "medium_turn_left_bank",
            "large_turn_left_to_diag_bank",
            "large_turn_right_to_diag_bank",
        ],
    )
    + when(
        groups.contains(TrackGroup::SlopedTurns) && groups.contains(TrackGroup::GentleSlopes),
        seq![
            "small_turn_left_gentle",
            "small_turn_right_gentle",
            "medium_turn_left_gentle",
            "medium_turn_right_gentle",
        ],
    )
    + when(
        groups.contains(TrackGroup::SlopedTurns) && groups.contains(TrackGroup::SteepSlopes),
        seq!["very_small_turn_left_steep", "very_small_turn_right_steep"],
    )
    + when(
        groups.contains(TrackGroup::SlopedTurns) && groups.contains(TrackGroup::VerticalSlopes),
        seq!["vertical_twist_left", "vertical_twist_right"],
    )
    + when(
        groups.contains(TrackGroup::BankedSlopedTurns),
        seq![
            "gentle_to_gentle_left_bank",
            "gentle_to_gentle_right_bank",
            "gentle_left_bank_to_gentle",
            "gentle_right_bank_to_gentle",
            "left_bank_to_gentle_left_bank",
            "right_bank_to_gentle_right_bank",
            "gentle_left_bank_to_left_bank",
            "gentle_right_bank_to_right_bank",
            "gentle_left_bank",
            "gentle_right_bank",
            "flat_to_gentle_left_bank",
            "flat_to_gentle_right_bank",
            "gentle_left_bank_to_flat",
            "gentle_right_bank_to_flat",
            "small_turn_left_bank_gentle",
            "small_turn_right_bank_gentle",
            "medium_turn_left_bank_gentle",
            "medium_turn_right_bank_gentle",
        ],
    )
    + when(
        groups.contains(TrackGroup::SBends),
        seq!["s_bend_left", "s_bend_right"],
    )
    + when(
        groups.contains(TrackGroup::BankedSBends),
        seq!["s_bend_left_bank", "s_bend_right_bank"],
    )
}

/// The pieces of the bends, helices, transitions and rolls that a track made of `groups` is drawn with.
pub open spec fn helix_and_roll_names(groups: Seq<TrackGroup>) -> Seq<&'static str> {
    when(
        groups.contains(TrackGroup::Helices),
        seq![
            "small_helix_left",
            "small_helix_right",
            "medium_helix_left",
            "medium_helix_right",
        ],
    )
    + when(
        groups.contains(TrackGroup::MediumQuarterHelices),
        seq!["medium_quarter_helix_left", "medium_quarter_helix_right"],
    )
    + when(
        groups.contains(TrackGroup::MediumBankedQuarterHelices),
        seq!["medium_quarter_helix_left_bank", "medium_quarter_helix_right_bank"],
    )
    + when(
        groups.contains(TrackGroup::TurnBankTransitions),
        seq!["small_turn_left_bank_to_gentle", "small_turn_right_bank_to_gentle"],
    )
    + when(
        groups.contains(TrackGroup::SteepBankTransitions),
        seq![
            "gentle_left_bank_to_steep",
            "gentle_right_bank_to_steep",
            "steep_to_gentle_left_bank",
            "steep_to_gentle_right_bank",
            "gentle_left_bank_to_steep_diag",
            "gentle_right_bank_to_steep_diag",
            "steep_to_gentle_left_bank_diag",
            "steep_to_gentle_right_bank_diag",
        ],
    )
    + when(
        groups.contains(TrackGroup::LargeSteepSlopedTurns),
        seq!["small_turn_left_steep", "small_turn_right_steep"],
    )
    + when(
        groups.contains(TrackGroup::BarrelRolls),
        seq!["barrel_roll_left", "barrel_roll_right"],
    )
    + when(
        groups.contains(TrackGroup::BankedBarrelRolls),
        seq!["banked_barrel_roll_left", "banked_barrel_roll_right"],
    )
    + when(
        groups.contains(TrackGroup::InlineTwists),
        seq!["inline_twist_left", "inline_twist_right"],
    )
    + when(
        groups.contains(TrackGroup::BankedInlineTwists),
        seq!["banked_inline_twist_left", "banked_inline_twist_right"],
    )
}

/// The pieces of the loops, dives and large sloped turns that a track made of `groups` is drawn with.
pub open spec fn loop_names(groups: Seq<TrackGroup>) -> Seq<&'static str> {
    when(
        groups.contains(TrackGroup::HalfLoops),
        seq!["half_loop"],
    )
    + when(
        groups.contains(TrackGroup::VerticalLoops),
        seq!["vertical_loop_left", "vertical_loop_right"],
    )
    + when(
        groups.contains(TrackGroup::QuarterLoops),
        seq!["quarter_loop"],
    )
    + when(
        groups.contains(TrackGroup::Corkscrews),
        seq!["corkscrew_left", "corkscrew_right"],
    )
    + when(
        groups.contains(TrackGroup::LargeCorkscrews),
        seq!["large_corkscrew_left", "large_corkscrew_right"],
    )
    + when(
        groups.contains(TrackGroup::MediumHalfLoops),
        seq!["medium_half_loop_left", "medium_half_loop_right"],
    )
    + when(
        groups.contains(TrackGroup::LargeHalfLoops),
        seq!["large_half_loop_left", "large_half_loop_right"],
    )
    + when(
        groups.contains(TrackGroup::ZeroGRolls),
        seq![
            "zero_g_roll_left",
            "zero_g_roll_right",
            "large_zero_g_roll_left",
            "large_zero_g_roll_right",
        ],
    )
    + when(
        groups.contains(TrackGroup::BankedZeroGRolls),
        seq!["banked_zero_g_roll_left", "banked_zero_g_roll_right"],
    )
    + when(
        groups.contains(TrackGroup::DiveLoops),
        seq!["dive_loop_45_left", "dive_loop_45_right"],
    )
    + when(
        groups.contains(TrackGroup::LargeSlopedTurns),
        seq![
            "large_turn_left_to_diag_gentle",
            "large_turn_right_to_diag_gentle",
            "large_turn_left_to_orthogonal_gentle",
            "large_turn_right_to_orthogonal_gentle",
        ],
    )
    + when(
        groups.contains(TrackGroup::LargeBankedSlopedTurns),
        seq![
            "gentle_to_gentle_left_bank_diag",
            "gentle_to_gentle_right_bank_diag",
            "gentle_left_bank_to_gentle_diag",
            "gentle_right_bank_to_gentle_diag",
            "left_bank_to_gentle_left_bank_diag",
            "right_bank_to_gentle_right_bank_diag",
            "gentle_left_bank_to_left_bank_diag",
            "gentle_right_bank_to_right_bank_diag",
            "gentle_left_bank_diag",
            "gentle_right_bank_diag",
            "flat_to_gentle_left_bank_diag",
            "flat_to_gentle_right_bank_diag",
            "gentle_left_bank_to_flat_diag",
            "gentle_right_bank_to_flat_diag",
            "large_turn_left_bank_to_diag_gentle",
            "large_turn_right_bank_to_diag_gentle",
            "large_turn_left_bank_to_orthogonal_gentle",
            "large_turn_right_bank_to_orthogonal_gentle",
        ],
    )
}

/// The names of the pieces drawn for a track made of `groups`, in drawing order.
pub open spec fn track_section_names(groups: Seq<TrackGroup>) -> Seq<&'static str> {
    slope_and_turn_names(groups) + bank_names(groups) + helix_and_roll_names(groups) + loop_names(groups)
}

/// Whether `sections` holds `group`.
fn contains_group(sections: &[TrackGroup], group: TrackGroup) -> (r: bool)
    ensures
        r == sections@.contains(group),
{
    let mut i: usize = 0;
    while i < sections.len()
        invariant
            i <= sections.len(),
            forall|j: int| 0 <= j < i ==> sections@[j] != group,
        decreases sections.len() - i,
    {
        if sections[i] == group {
            return true;
        }
        i = i + 1;
    }
    false
}

/// Appends `more` to `names`.
fn push_names(names: &mut Vec<&'static str>, more: &[&'static str])
    ensures
        final(names)@ == old(names)@ + more@,
{
    let mut i: usize = 0;
    while i < more.len()
        invariant
            i <= more.len(),
            names@ == old(names)@ + more@.take(i as int),
        decreases more.len() - i,
    {
        names.push(more[i]);
        i = i + 1;
        assert(names@ =~= old(names)@ + more@.take(i as int));
    }
    assert(more@.take(more.len() as int) =~= more@);
}

/// Appends `name` to `names` when `c` holds.
fn push_one_when(names: &mut Vec<&'static str>, c: bool, name: &'static str)
    ensures
        final(names)@ == old(names)@ + when(c, seq![name]),
{
    reveal(when);
    if c {
        names.push(name);
        assert(names@ =~= old(names)@ + seq![name]);
    } else {
        assert(names@ =~= old(names)@ + when(c, seq![name]));
    }
}

/// Appends `more` to `names` when `c` holds.
fn push_when(names: &mut Vec<&'static str>, c: bool, more: &[&'static str])
    ensures
        final(names)@ == old(names)@ + when(c, more@),
{
    reveal(when);
    if c {
        push_names(names, more);
    } else {
        assert(names@ =~= old(names)@ + when(c, more@));
    }
}

/// The banked turn pieces, with the diagonal ones where the track has diagonals.
fn banked_turn_names(sections: &[TrackGroup]) -> (r: Vec<&'static str>)
    ensures
        r@ == seq![
            "flat_to_left_bank",
            "flat_to_right_bank",
            "left_bank_to_gentle",
            "right_bank_to_gentle",
            "gentle_to_left_bank",
            "gentle_to_right_bank",
            "left_bank",
        ]
        + when(
            sections@.contains(TrackGroup::Diagonals),
            seq![
                "flat_to_left_bank_diag",
                "flat_to_right_bank_diag",
                "left_bank_to_gentle_diag",
                "right_bank_to_gentle_diag",
                "gentle_to_left_bank_diag",
                "gentle_to_right_bank_diag",
                "left_bank_diag",
            ],
        )
        + seq![
            "small_turn_left_bank",
            "medium_turn_left_bank",
            "large_turn_left_to_diag_bank",
            "large_turn_right_to_diag_bank",
        ],
{
    let mut names: Vec<&'static str> = Vec::new();
    push_names(&mut names, &[
        "flat_to_left_bank",
        "flat_to_right_bank",
        "left_bank_to_gentle",
        "right_bank_to_gentle",
        "gentle_to_left_bank",
        "gentle_to_right_bank",
        "left_bank",
    ]);
    assert(names@ =~= seq![
        "flat_to_left_bank",
        "flat_to_right_bank",
        "left_bank_to_gentle",
        "right_bank_to_gentle",
        "gentle_to_left_bank",
        "gentle_to_right_bank",
        "left_bank",
    ]);
    push_when(&mut names, contains_group(sections, TrackGroup::Diagonals), &[
        "flat_to_left_bank_diag",
        "flat_to_right_bank_diag",
        "left_bank_to_gentle_diag",
        "right_bank_to_gentle_diag",
        "gentle_to_left_bank_diag",
        "gentle_to_right_bank_diag",
        "left_bank_diag",
    ]);
    push_names(&mut names, &[
        "small_turn_left_bank",
        "medium_turn_left_bank",
        "large_turn_left_to_diag_bank",
        "large_turn_right_to_diag_bank",
    ]);
    names
}

fn list_slope_and_turn_names(sections: &[TrackGroup]) -> (r: Vec<&'static str>)
    ensures
        r@ == slope_and_turn_names(sections@),
{
    let mut names: Vec<&'static str> = Vec::new();
    push_one_when(&mut names, contains_group(sections, TrackGroup::Flat), "flat");
    assert(names@ =~= when(
        sections@.contains(TrackGroup::Flat),
        seq!["flat"],
    )) by {
        reveal(when);
    }
    push_when(&mut names, contains_group(sections, TrackGroup::GentleSlopes), &["flat_to_gentle", "gentle_to_flat", "gentle"]);
    push_when(&mut names, contains_group(sections, TrackGroup::SteepSlopes), &["gentle_to_steep", "steep_to_gentle", "steep"]);
    push_when(&mut names, contains_group(sections, TrackGroup::VerticalSlopes), &["steep_to_vertical", "vertical_to_steep", "vertical"]);
    push_when(&mut names, contains_group(sections, TrackGroup::SmallSlopeTransitions), &["small_flat_to_steep", "small_steep_to_flat"]);
    push_when(&mut names, contains_group(sections, TrackGroup::SmallSlopeTransitionsDiagonal), &["small_flat_to_steep_diag", "small_steep_to_flat_diag"]);
    push_when(&mut names, contains_group(sections, TrackGroup::LargeSlopeTransitions), &["flat_to_steep", "steep_to_flat"]);
    push_when(&mut names, contains_group(sections, TrackGroup::LargeSlopeTransitionsDiagonal), &["flat_to_steep_diag", "steep_to_flat_diag"]);
    push_one_when(&mut names, contains_group(sections, TrackGroup::VerySmallTurns), "very_small_turn_left");
    push_when(&mut names, contains_group(sections, TrackGroup::Turns), &[
            "small_turn_left",
            "medium_turn_left",
            "large_turn_left_to_diag",
            "large_turn_right_to_diag",
        ]);
    names
}

fn list_bank_names(sections: &[TrackGroup]) -> (r: Vec<&'static str>)
    ensures
        r@ == bank_names(sections@),
{
    let mut names: Vec<&'static str> = Vec::new();
    push_one_when(&mut names, contains_group(sections, TrackGroup::Diagonals), "flat_diag");
    assert(names@ =~= when(
        sections@.contains(TrackGroup::Diagonals),
        seq!["flat_diag"],
    )) by {
        reveal(when);
    }
    push_when(&mut names, contains_group(sections, TrackGroup::Diagonals) && contains_group(sections, TrackGroup::GentleSlopes), &["flat_to_gentle_diag", "gentle_to_flat_diag", "gentle_diag"]);
    push_when(&mut names, contains_group(sections, TrackGroup::Diagonals) && contains_group(sections, TrackGroup::SteepSlopes), &["gentle_to_steep_diag", "steep_to_gentle_diag", "steep_diag"]);
    push_when(&mut names, contains_group(sections, TrackGroup::BankedTurns), banked_turn_names(sections).as_slice());
    push_when(&mut names, contains_group(sections, TrackGroup::SlopedTurns) && contains_group(sections, TrackGroup::GentleSlopes), &[
            "small_turn_left_gentle",
            "small_turn_right_gentle",
            "medium_turn_left_gentle",
            "medium_turn_right_gentle",
        ]);
    push_when(&mut names, contains_group(sections, TrackGroup::SlopedTurns) && contains_group(sections, TrackGroup::SteepSlopes), &["very_small_turn_left_steep", "very_small_turn_right_steep"]);
    push_when(&mut names, contains_group(sections, TrackGroup::SlopedTurns) && contains_group(sections, TrackGroup::VerticalSlopes), &["vertical_twist_left", "vertical_twist_right"]);
    push_when(&mut names, contains_group(sections, TrackGroup::BankedSlopedTurns), &[
            "gentle_to_gentle_left_bank",
            "gentle_to_gentle_right_bank",
            "gentle_left_bank_to_gentle",
            "gentle_right_bank_to_gentle",
            "left_bank_to_gentle_left_bank",
            "right_bank_to_gentle_right_bank",
            "gentle_left_bank_to_left_bank",
            "gentle_right_bank_to_right_bank",
            "gentle_left_bank",
            "gentle_right_bank",
            "flat_to_gentle_left_bank",
            "flat_to_gentle_right_bank",
            "gentle_left_bank_to_flat",
            "gentle_right_bank_to_flat",
            "small_turn_left_bank_gentle",
            "small_turn_right_bank_gentle",
            "medium_turn_left_bank_gentle",
            "medium_turn_right_bank_gentle",
        ]);
    push_when(&mut names, contains_group(sections, TrackGroup::SBends), &["s_bend_left", "s_bend_right"]);
    push_when(&mut names, contains_group(sections, TrackGroup::BankedSBends), &["s_bend_left_bank", "s_bend_right_bank"]);
    names
}

fn list_helix_and_roll_names(sections: &[TrackGroup]) -> (r: Vec<&'static str>)
    ensures
        r@ == helix_and_roll_names(sections@),
{
    let mut names: Vec<&'static str> = Vec::new();
    push_when(&mut names, contains_group(sections, TrackGroup::Helices), &[
            "small_helix_left",
            "small_helix_right",
            "medium_helix_left",
            "medium_helix_right",
        ]);
    assert(names@ =~= when(
        sections@.contains(TrackGroup::Helices),
        seq![
            "small_helix_left",
            "small_helix_right",
            "medium_helix_left",
            "medium_helix_right",
        ],
    )) by {
        reveal(when);
    }
    push_when(&mut names, contains_group(sections, TrackGroup::MediumQuarterHelices), &["medium_quarter_helix_left", "medium_quarter_helix_right"]);
    push_when(&mut names, contains_group(sections, TrackGroup::MediumBankedQuarterHelices), &["medium_quarter_helix_left_bank", "medium_quarter_helix_right_bank"]);
    push_when(&mut names, contains_group(sections, TrackGroup::TurnBankTransitions), &["small_turn_left_bank_to_gentle", "small_turn_right_bank_to_gentle"]);
    push_when(&mut names, contains_group(sections, TrackGroup::SteepBankTransitions), &[
            "gentle_left_bank_to_steep",
            "gentle_right_bank_to_steep",
            "steep_to_gentle_left_bank",
            "steep_to_gentle_right_bank",
            "gentle_left_bank_to_steep_diag",
            "gentle_right_bank_to_steep_diag",
            "steep_to_gentle_left_bank_diag",
            "steep_to_gentle_right_bank_diag",
        ]);
    push_when(&mut names, contains_group(sections, TrackGroup::LargeSteepSlopedTurns), &["small_turn_left_steep", "small_turn_right_steep"]);
    push_when(&mut names, contains_group(sections, TrackGroup::BarrelRolls), &["barrel_roll_left", "barrel_roll_right"]);
    push_when(&mut names, contains_group(sections, TrackGroup::BankedBarrelRolls), &["banked_barrel_roll_left", "banked_barrel_roll_right"]);
    push_when(&mut names, contains_group(sections, TrackGroup::InlineTwists), &["inline_twist_left", "inline_twist_right"]);
    push_when(&mut names, contains_group(sections, TrackGroup::BankedInlineTwists), &["banked_inline_twist_left", "banked_inline_twist_right"]);
    names
}

fn list_loop_names(sections: &[TrackGroup]) -> (r: Vec<&'static str>)
    ensures
        r@ == loop_names(sections@),
{
    let mut names: Vec<&'static str> = Vec::new();
    push_one_when(&mut names, contains_group(sections, TrackGroup::HalfLoops), "half_loop");
    assert(names@ =~= when(
        sections@.contains(TrackGroup::HalfLoops),
        seq!["half_loop"],
    )) by {
        reveal(when);
    }
    push_when(&mut names, contains_group(sections, TrackGroup::VerticalLoops), &["vertical_loop_left", "vertical_loop_right"]);
    push_one_when(&mut names, contains_group(sections, TrackGroup::QuarterLoops), "quarter_loop");
    push_when(&mut names, contains_group(sections, TrackGroup::Corkscrews), &["corkscrew_left", "corkscrew_right"]);
    push_when(&mut names, contains_group(sections, TrackGroup::LargeCorkscrews), &["large_corkscrew_left", "large_corkscrew_right"]);
    push_when(&mut names, contains_group(sections, TrackGroup::MediumHalfLoops), &["medium_half_loop_left", "medium_half_loop_right"]);
    push_when(&mut names, contains_group(sections, TrackGroup::LargeHalfLoops), &["large_half_loop_left", "large_half_loop_right"]);
    push_when(&mut names, contains_group(sections, TrackGroup::ZeroGRolls), &[
            "zero_g_roll_left",
            "zero_g_roll_right",
            "large_zero_g_roll_left",
            "large_zero_g_roll_right",
        ]);
    push_when(&mut names, contains_group(sections, TrackGroup::BankedZeroGRolls), &["banked_zero_g_roll_left", "banked_zero_g_roll_right"]);
    push_when(&mut names, contains_group(sections, TrackGroup::DiveLoops), &["dive_loop_45_left", "dive_loop_45_right"]);
    push_when(&mut names, contains_group(sections, TrackGroup::LargeSlopedTurns), &[
            "large_turn_left_to_diag_gentle",
            "large_turn_right_to_diag_gentle",
            "large_turn_left_to_orthogonal_gentle",
            "large_turn_right_to_orthogonal_gentle",
        ]);
    push_when(&mut names, contains_group(sections, TrackGroup::LargeBankedSlopedTurns), &[
            "gentle_to_gentle_left_bank_diag",
            "gentle_to_gentle_right_bank_diag",
            "gentle_left_bank_to_gentle_diag",
            "gentle_right_bank_to_gentle_diag",
            "left_bank_to_gentle_left_bank_diag",
            "right_bank_to_gentle_right_bank_diag",
            "gentle_left_bank_to_left_bank_diag",
            "gentle_right_bank_to_right_bank_diag",
            "gentle_left_bank_diag",
            "gentle_right_bank_diag",
            "flat_to_gentle_left_bank_diag",
            "flat_to_gentle_right_bank_diag",
            "gentle_left_bank_to_flat_diag",
            "gentle_right_bank_to_flat_diag",
            "large_turn_left_bank_to_diag_gentle",
            "large_turn_right_bank_to_diag_gentle",
            "large_turn_left_bank_to_orthogonal_gentle",
            "large_turn_right_bank_to_orthogonal_gentle",
        ]);
    names
}

/// The names of the pieces drawn for a track made of the groups in `sections`, in drawing
/// order.
pub fn list_track_sections(sections: &[TrackGroup]) -> (r: Vec<&'static str>)
    ensures
        r@ == track_section_names(sections@),
{
    let mut names = list_slope_and_turn_names(sections);
    let mut more = list_bank_names(sections);
    names.append(&mut more);
    let mut more = list_helix_and_roll_names(sections);
    names.append(&mut more);
    let mut more = list_loop_names(sections);
    names.append(&mut more);
    names
}

/// The pieces of a track style depend only on which groups it has: neither the order of the
/// groups nor repeats change them.
#[verifier::rlimit(50)]
pub proof fn lemma_names_depend_on_groups_only(a: Seq<TrackGroup>, b: Seq<TrackGroup>)
    requires
        forall|g: TrackGroup| a.contains(g) <==> b.contains(g),
    ensures
        track_section_names(a) == track_section_names(b),
{
    assert(slope_and_turn_names(a) == slope_and_turn_names(b)) by {
        lemma_same_groups(a, b);
    }
    assert(bank_names(a) == bank_names(b)) by {
        lemma_same_groups(a, b);
    }
    assert(helix_and_roll_names(a) == helix_and_roll_names(b)) by {
        lemma_same_groups(a, b);
    }
    assert(loop_names(a) == loop_names(b)) by {
        lemma_same_groups(a, b);
    }
}

proof fn lemma_same_groups(a: Seq<TrackGroup>, b: Seq<TrackGroup>)
    requires
        forall|g: TrackGroup| a.contains(g) <==> b.contains(g),
    ensures
        a.contains(TrackGroup::Flat) == b.contains(TrackGroup::Flat),
        a.contains(TrackGroup::Turns) == b.contains(TrackGroup::Turns),
        a.contains(TrackGroup::GentleSlopes) == b.contains(TrackGroup::GentleSlopes),
        a.contains(TrackGroup::SteepSlopes) == b.contains(TrackGroup::SteepSlopes),
        a.contains(TrackGroup::VerticalSlopes) == b.contains(TrackGroup::VerticalSlopes),
        a.contains(TrackGroup::Diagonals) == b.contains(TrackGroup::Diagonals),
        a.contains(TrackGroup::SlopedTurns) == b.contains(TrackGroup::SlopedTurns),
        a.contains(TrackGroup::GentleSlopedTurns) == b.contains(TrackGroup::GentleSlopedTurns),
        a.contains(TrackGroup::BankedTurns) == b.contains(TrackGroup::BankedTurns),
        a.contains(TrackGroup::BankedSlopedTurns) == b.contains(TrackGroup::BankedSlopedTurns),
        a.contains(TrackGroup::LargeSlopedTurns) == b.contains(TrackGroup::LargeSlopedTurns),
        a.contains(TrackGroup::LargeBankedSlopedTurns) == b.contains(TrackGroup::LargeBankedSlopedTurns),
        a.contains(TrackGroup::LargeSteepSlopedTurns) == b.contains(TrackGroup::LargeSteepSlopedTurns),
        a.contains(TrackGroup::SBends) == b.contains(TrackGroup::SBends),
        a.contains(TrackGroup::BankedSBends) == b.contains(TrackGroup::BankedSBends),
        a.contains(TrackGroup::Helices) == b.contains(TrackGroup::Helices),
        a.contains(TrackGroup::MediumQuarterHelices) == b.contains(TrackGroup::MediumQuarterHelices),
        a.contains(TrackGroup::MediumBankedQuarterHelices) == b.contains(TrackGroup::MediumBankedQuarterHelices),
        a.contains(TrackGroup::SmallSlopeTransitions) == b.contains(TrackGroup::SmallSlopeTransitions),
        a.contains(TrackGroup::SmallSlopeTransitionsDiagonal) == b.contains(TrackGroup::SmallSlopeTransitionsDiagonal),
        a.contains(TrackGroup::LargeSlopeTransitions) == b.contains(TrackGroup::LargeSlopeTransitions),
        a.contains(TrackGroup::LargeSlopeTransitionsDiagonal) == b.contains(TrackGroup::LargeSlopeTransitionsDiagonal),
        a.contains(TrackGroup::BarrelRolls) == b.contains(TrackGroup::BarrelRolls),
        a.contains(TrackGroup::BankedBarrelRolls) == b.contains(TrackGroup::BankedBarrelRolls),
        a.contains(TrackGroup::InlineTwists) == b.contains(TrackGroup::InlineTwists),
        a.contains(TrackGroup::BankedInlineTwists) == b.contains(TrackGroup::BankedInlineTwists),
        a.contains(TrackGroup::QuarterLoops) == b.contains(TrackGroup::QuarterLoops),
        a.contains(TrackGroup::Corkscrews) == b.contains(TrackGroup::Corkscrews),
        a.contains(TrackGroup::LargeCorkscrews) == b.contains(TrackGroup::LargeCorkscrews),
        a.contains(TrackGroup::HalfLoops) == b.contains(TrackGroup::HalfLoops),
        a.contains(TrackGroup::VerticalLoops) == b.contains(TrackGroup::VerticalLoops),
        a.contains(TrackGroup::MediumHalfLoops) == b.contains(TrackGroup::MediumHalfLoops),
        a.contains(TrackGroup::LargeHalfLoops) == b.contains(TrackGroup::LargeHalfLoops),
        a.contains(TrackGroup::ZeroGRolls) == b.contains(TrackGroup::ZeroGRolls),
        a.contains(TrackGroup::BankedZeroGRolls) == b.contains(TrackGroup::BankedZeroGRolls),
        a.contains(TrackGroup::DiveLoops) == b.contains(TrackGroup::DiveLoops),
        a.contains(TrackGroup::TurnBankTransitions) == b.contains(TrackGroup::TurnBankTransitions),
        a.contains(TrackGroup::SteepBankTransitions) == b.contains(TrackGroup::SteepBankTransitions),
        a.contains(TrackGroup::VerySmallTurns) == b.contains(TrackGroup::VerySmallTurns),
{
}

/// `f` places the items of `x` in `y`, in order.
pub open spec fn embeds<A>(f: spec_fn(int) -> int, x: Seq<A>, y: Seq<A>) -> bool {
    &&& forall|i: int| 0 <= i < x.len() ==> 0 <= #[trigger] f(i) < y.len() && y[f(i)] == x[i]
    &&& forall|i: int, j: int| 0 <= i < j < x.len() ==> #[trigger] f(i) < #[trigger] f(j)
}

/// `x` is `y` with some items left out: the same items, in the same order.
pub open spec fn is_subsequence<A>(x: Seq<A>, y: Seq<A>) -> bool {
    exists|f: spec_fn(int) -> int| embeds(f, x, y)
}

proof fn lemma_subsequence_rules()
    ensures
        forall|x: Seq<&'static str>| #[trigger] is_subsequence(x, x),
        forall|a1: Seq<&'static str>, a2: Seq<&'static str>, b1: Seq<&'static str>, b2: Seq<&'static str>|
            is_subsequence(a1, b1) && is_subsequence(a2, b2) ==> #[trigger] is_subsequence(a1 + a2, b1 + b2),
        forall|c1: bool, c2: bool, s1: Seq<&'static str>, s2: Seq<&'static str>|
            (c1 ==> c2) && is_subsequence(s1, s2) ==> #[trigger] is_subsequence(when(c1, s1), when(c2, s2)),
{
    assert forall|x: Seq<&'static str>| #[trigger] is_subsequence(x, x) by {
        let f = |i: int| i;
        assert(embeds(f, x, x));
    }
    assert forall|a1: Seq<&'static str>, a2: Seq<&'static str>, b1: Seq<&'static str>, b2: Seq<&'static str>|
        is_subsequence(a1, b1) && is_subsequence(a2, b2) implies #[trigger] is_subsequence(a1 + a2, b1 + b2) by {
        let f1 = choose|f: spec_fn(int) -> int| embeds(f, a1, b1);
        let f2 = choose|f: spec_fn(int) -> int| embeds(f, a2, b2);
        let n = a1.len() as int;
        let m = b1.len() as int;
        let f = |i: int| if i < n { f1(i) } else { m + f2(i - n) };
        assert forall|i: int| 0 <= i < (a1 + a2).len() implies 0 <= #[trigger] f(i) < (b1 + b2).len() && (b1
            + b2)[f(i)] == (a1 + a2)[i] by {
            if i < n {
                assert(0 <= f1(i) < m);
            } else {
                assert(0 <= f2(i - n) < b2.len());
            }
        }
        assert forall|i: int, j: int| 0 <= i < j < (a1 + a2).len() implies #[trigger] f(i) < #[trigger] f(j) by {
            if j < n {
                assert(f1(i) < f1(j));
            } else if i < n {
                assert(f1(i) < m);
                assert(0 <= f2(j - n));
            } else {
                assert(f2(i - n) < f2(j - n));
            }
        }
        assert(embeds(f, a1 + a2, b1 + b2));
    }
    assert forall|c1: bool, c2: bool, s1: Seq<&'static str>, s2: Seq<&'static str>|
        (c1 ==> c2) && is_subsequence(s1, s2) implies #[trigger] is_subsequence(when(c1, s1), when(c2, s2)) by {
        reveal(when);
        if !c1 {
            let f = |i: int| i;
            assert(embeds(f, when(c1, s1), when(c2, s2)));
        }
    }
}

/// Adding groups to a track style only adds pieces: the pieces of a style whose groups all
/// belong to another come in the other's list too, in the same order.
#[verifier::rlimit(50)]
pub proof fn lemma_more_groups_more_names(a: Seq<TrackGroup>, b: Seq<TrackGroup>)
    requires
        forall|g: TrackGroup| a.contains(g) ==> b.contains(g),
    ensures
        is_subsequence(track_section_names(a), track_section_names(b)),
{
    lemma_subsequence_rules();
    assert(is_subsequence(slope_and_turn_names(a), slope_and_turn_names(b)));
    assert(is_subsequence(bank_names(a), bank_names(b)));
    assert(is_subsequence(helix_and_roll_names(a), helix_and_roll_names(b)));
    assert(is_subsequence(loop_names(a), loop_names(b)));
}

/// A track style without groups has no pieces.
pub proof fn lemma_no_groups_no_names()
    ensures
        track_section_names(Seq::<TrackGroup>::empty()).len() == 0,
{
    reveal(when);
    assert(track_section_names(Seq::<TrackGroup>::empty()) =~= Seq::empty());
}


/// The two steep corners of the sloped turns.
pub open spec fn is_steep_corner(name: &'static str) -> bool {
    name == "very_small_turn_left_steep" || name == "very_small_turn_right_steep"
}

proof fn lemma_contains_rules()
    ensures
        forall|c: bool, s: Seq<&'static str>, x: &'static str|
            #[trigger] when(c, s).contains(x) <==> c && s.contains(x),
        forall|a: Seq<&'static str>, b: Seq<&'static str>, x: &'static str|
            #[trigger] (a + b).contains(x) <==> a.contains(x) || b.contains(x),
{
    assert forall|c: bool, s: Seq<&'static str>, x: &'static str| #[trigger] when(c, s).contains(x) <==> c && s.contains(x) by {
        reveal(when);
    }
    assert forall|a: Seq<&'static str>, b: Seq<&'static str>, x: &'static str|
        #[trigger] (a + b).contains(x) <==> a.contains(x) || b.contains(x) by {
        if (a + b).contains(x) {
            let i = choose|i: int| 0 <= i < (a + b).len() && (a + b)[i] == x;
            if i >= a.len() {
                assert(b[i - a.len()] == x);
            }
        }
        if a.contains(x) {
            let i = choose|i: int| 0 <= i < a.len() && a[i] == x;
            assert((a + b)[i] == x);
        }
        if b.contains(x) {
            let i = choose|i: int| 0 <= i < b.len() && b[i] == x;
            assert((a + b)[a.len() + i] == x);
        }
    }
}

#[verifier::rlimit(100)]
proof fn lemma_steep_corners_in_slope_and_turn_names(groups: Seq<TrackGroup>)
    ensures
        !slope_and_turn_names(groups).contains("very_small_turn_left_steep"),
        !slope_and_turn_names(groups).contains("very_small_turn_right_steep"),
{
    lemma_contains_rules();
    reveal_strlit("very_small_turn_left_steep");
    reveal_strlit("very_small_turn_right_steep");
    reveal_strlit("flat");
    reveal_strlit("flat_to_gentle");
    reveal_strlit("gentle_to_flat");
    reveal_strlit("gentle");
    reveal_strlit("gentle_to_steep");
    reveal_strlit("steep_to_gentle");
    reveal_strlit("steep");
    reveal_strlit("steep_to_vertical");
    reveal_strlit("vertical_to_steep");
    reveal_strlit("vertical");
    reveal_strlit("small_flat_to_steep");
    reveal_strlit("small_steep_to_flat");
    reveal_strlit("small_flat_to_steep_diag");
    reveal_strlit("small_steep_to_flat_diag");
    reveal_strlit("flat_to_steep");
    reveal_strlit("steep_to_flat");
    reveal_strlit("flat_to_steep_diag");
    reveal_strlit("steep_to_flat_diag");
    reveal_strlit("very_small_turn_left");
    reveal_strlit("small_turn_left");
    reveal_strlit("medium_turn_left");
    reveal_strlit("large_turn_left_to_diag");
    reveal_strlit("large_turn_right_to_diag");
}

#[verifier::rlimit(100)]
proof fn lemma_steep_corners_in_bank_names(groups: Seq<TrackGroup>)
    ensures
        bank_names(groups).contains("very_small_turn_left_steep") <==> groups.contains(TrackGroup::SlopedTurns)
            && groups.contains(TrackGroup::SteepSlopes),
        bank_names(groups).contains("very_small_turn_right_steep") <==> groups.contains(TrackGroup::SlopedTurns)
            && groups.contains(TrackGroup::SteepSlopes),
{
    lemma_contains_rules();
    reveal_strlit("very_small_turn_left_steep");
    reveal_strlit("very_small_turn_right_steep");
    reveal_strlit("flat_diag");
    reveal_strlit("flat_to_gentle_diag");
    reveal_strlit("gentle_to_flat_diag");
    reveal_strlit("gentle_diag");
    reveal_strlit("gentle_to_steep_diag");
    reveal_strlit("steep_to_gentle_diag");
    reveal_strlit("steep_diag");
    reveal_strlit("flat_to_left_bank");
    reveal_strlit("flat_to_right_bank");
    reveal_strlit("left_bank_to_gentle");
    reveal_strlit("right_bank_to_gentle");
    reveal_strlit("gentle_to_left_bank");
    reveal_strlit("gentle_to_right_bank");
    reveal_strlit("left_bank");
    reveal_strlit("flat_to_left_bank_diag");
    reveal_strlit("flat_to_right_bank_diag");
    reveal_strlit("left_bank_to_gentle_diag");
    reveal_strlit("right_bank_to_gentle_diag");
    reveal_strlit("gentle_to_left_bank_diag");
    reveal_strlit("gentle_to_right_bank_diag");
    reveal_strlit("left_bank_diag");
    reveal_strlit("small_turn_left_bank");
    reveal_strlit("medium_turn_left_bank");
    reveal_strlit("large_turn_left_to_diag_bank");
    reveal_strlit("large_turn_right_to_diag_bank");
    reveal_strlit("small_turn_left_gentle");
    reveal_strlit("small_turn_right_gentle");
    reveal_strlit("medium_turn_left_gentle");
    reveal_strlit("medium_turn_right_gentle");
    reveal_strlit("vertical_twist_left");
    reveal_strlit("vertical_twist_right");
    reveal_strlit("gentle_to_gentle_left_bank");
    reveal_strlit("gentle_to_gentle_right_bank");
    reveal_strlit("gentle_left_bank_to_gentle");
    reveal_strlit("gentle_right_bank_to_gentle");
    reveal_strlit("left_bank_to_gentle_left_bank");
    reveal_strlit("right_bank_to_gentle_right_bank");
    reveal_strlit("gentle_left_bank_to_left_bank");
    reveal_strlit("gentle_right_bank_to_right_bank");
    reveal_strlit("gentle_left_bank");
    reveal_strlit("gentle_right_bank");
    reveal_strlit("flat_to_gentle_left_bank");
    reveal_strlit("flat_to_gentle_right_bank");
    reveal_strlit("gentle_left_bank_to_flat");
    reveal_strlit("gentle_right_bank_to_flat");
    reveal_strlit("small_turn_left_bank_gentle");
    reveal_strlit("small_turn_right_bank_gentle");
    reveal_strlit("medium_turn_left_bank_gentle");
    reveal_strlit("medium_turn_right_bank_gentle");
    reveal_strlit("s_bend_left");
    reveal_strlit("s_bend_right");
    reveal_strlit("s_bend_left_bank");
    reveal_strlit("s_bend_right_bank");
}

#[verifier::rlimit(100)]
proof fn lemma_steep_corners_in_helix_and_roll_names(groups: Seq<TrackGroup>)
    ensures
        !helix_and_roll_names(groups).contains("very_small_turn_left_steep"),
        !helix_and_roll_names(groups).contains("very_small_turn_right_steep"),
{
    lemma_contains_rules();
    reveal_strlit("very_small_turn_left_steep");
    reveal_strlit("very_small_turn_right_steep");
    reveal_strlit("small_helix_left");
    reveal_strlit("small_helix_right");
    reveal_strlit("medium_helix_left");
    reveal_strlit("medium_helix_right");
    reveal_strlit("medium_quarter_helix_left");
    reveal_strlit("medium_quarter_helix_right");
    reveal_strlit("medium_quarter_helix_left_bank");
    reveal_strlit("medium_quarter_helix_right_bank");
    reveal_strlit("small_turn_left_bank_to_gentle");
    reveal_strlit("small_turn_right_bank_to_gentle");
    reveal_strlit("gentle_left_bank_to_steep");
    reveal_strlit("gentle_right_bank_to_steep");
    reveal_strlit("steep_to_gentle_left_bank");
    reveal_strlit("steep_to_gentle_right_bank");
    reveal_strlit("gentle_left_bank_to_steep_diag");
    reveal_strlit("gentle_right_bank_to_steep_diag");
    reveal_strlit("steep_to_gentle_left_bank_diag");
    reveal_strlit("steep_to_gentle_right_bank_diag");
    reveal_strlit("small_turn_left_steep");
    reveal_strlit("small_turn_right_steep");
    reveal_strlit("barrel_roll_left");
    reveal_strlit("barrel_roll_right");
    reveal_strlit("banked_barrel_roll_left");
    reveal_strlit("banked_barrel_roll_right");
    reveal_strlit("inline_twist_left");
    reveal_strlit("inline_twist_right");
    reveal_strlit("banked_inline_twist_left");
    reveal_strlit("banked_inline_twist_right");
}

#[verifier::rlimit(100)]
proof fn lemma_steep_corners_in_loop_names(groups: Seq<TrackGroup>)
    ensures
        !loop_names(groups).contains("very_small_turn_left_steep"),
        !loop_names(groups).contains("very_small_turn_right_steep"),
{
    lemma_contains_rules();
    reveal_strlit("very_small_turn_left_steep");
    reveal_strlit("very_small_turn_right_steep");
    reveal_strlit("half_loop");
    reveal_strlit("vertical_loop_left");
    reveal_strlit("vertical_loop_right");
    reveal_strlit("quarter_loop");
    reveal_strlit("corkscrew_left");
    reveal_strlit("corkscrew_right");
    reveal_strlit("large_corkscrew_left");
    reveal_strlit("large_corkscrew_right");
    reveal_strlit("medium_half_loop_left");
    reveal_strlit("medium_half_loop_right");
    reveal_strlit("large_half_loop_left");
    reveal_strlit("large_half_loop_right");
    reveal_strlit("zero_g_roll_left");
    reveal_strlit("zero_g_roll_right");
    reveal_strlit("large_zero_g_roll_left");
    reveal_strlit("large_zero_g_roll_right");
    reveal_strlit("banked_zero_g_roll_left");
    reveal_strlit("banked_zero_g_roll_right");
    reveal_strlit("dive_loop_45_left");
    reveal_strlit("dive_loop_45_right");
    reveal_strlit("large_turn_left_to_diag_gentle");
    reveal_strlit("large_turn_right_to_diag_gentle");
    reveal_strlit("large_turn_left_to_orthogonal_gentle");
    reveal_strlit("large_turn_right_to_orthogonal_gentle");
    reveal_strlit("gentle_to_gentle_left_bank_diag");
    reveal_strlit("gentle_to_gentle_right_bank_diag");
    reveal_strlit("gentle_left_bank_to_gentle_diag");
    reveal_strlit("gentle_right_bank_to_gentle_diag");
    reveal_strlit("left_bank_to_gentle_left_bank_diag");
    reveal_strlit("right_bank_to_gentle_right_bank_diag");
    reveal_strlit("gentle_left_bank_to_left_bank_diag");
    reveal_strlit("gentle_right_bank_to_right_bank_diag");
    reveal_strlit("gentle_left_bank_diag");
    reveal_strlit("gentle_right_bank_diag");
    reveal_strlit("flat_to_gentle_left_bank_diag");
    reveal_strlit("flat_to_gentle_right_bank_diag");
    reveal_strlit("gentle_left_bank_to_flat_diag");
    reveal_strlit("gentle_right_bank_to_flat_diag");
    reveal_strlit("large_turn_left_bank_to_diag_gentle");
    reveal_strlit("large_turn_right_bank_to_diag_gentle");
    reveal_strlit("large_turn_left_bank_to_orthogonal_gentle");
    reveal_strlit("large_turn_right_bank_to_orthogonal_gentle");
}

/// The steep corners of the sloped turns are drawn exactly for styles that have both the
/// sloped turns and the steep slopes.
pub proof fn lemma_steep_corners_need_sloped_turns(groups: Seq<TrackGroup>, name: &'static str)
    requires
        is_steep_corner(name),
    ensures
        track_section_names(groups).contains(name) <==> groups.contains(TrackGroup::SlopedTurns) && groups.contains(
            TrackGroup::SteepSlopes,
        ),
{
    lemma_contains_rules();
    lemma_steep_corners_in_slope_and_turn_names(groups);
    lemma_steep_corners_in_bank_names(groups);
    lemma_steep_corners_in_helix_and_roll_names(groups);
    lemma_steep_corners_in_loop_names(groups);
}

} // verus!
