use rctgen::track_desc::TrackGroup;
use rctgen::track_list::list_track_sections;

#[test]
fn flat_track_has_one_piece() {
    assert_eq!(list_track_sections(&[TrackGroup::Flat]), vec!["flat"]);
}

#[test]
fn no_groups_give_no_pieces() {
    assert!(list_track_sections(&[]).is_empty());
}

#[test]
fn diagonal_slopes_need_both_groups() {
    let pieces = list_track_sections(&[TrackGroup::GentleSlopes, TrackGroup::Diagonals]);
    assert_eq!(
        pieces,
        vec![
            "flat_to_gentle",
            "gentle_to_flat",
            "gentle",
            "flat_diag",
            "flat_to_gentle_diag",
            "gentle_to_flat_diag",
            "gentle_diag",
        ]
    );
}

#[test]
fn banked_turns_include_diagonal_banks_with_diagonals() {
    let without = list_track_sections(&[TrackGroup::BankedTurns]);
    assert_eq!(without.len(), 11);
    assert_eq!(without[6], "left_bank");
    assert_eq!(without[7], "small_turn_left_bank");
    let with = list_track_sections(&[TrackGroup::Diagonals, TrackGroup::BankedTurns]);
    assert_eq!(with.len(), 1 + 18);
    assert_eq!(with[0], "flat_diag");
    assert_eq!(with[8], "flat_to_left_bank_diag");
    assert_eq!(with[18], "large_turn_right_to_diag_bank");
}

#[test]
fn order_of_groups_does_not_matter() {
    let a = list_track_sections(&[TrackGroup::Turns, TrackGroup::Flat, TrackGroup::Turns]);
    let b = list_track_sections(&[TrackGroup::Flat, TrackGroup::Turns]);
    assert_eq!(a, b);
    assert_eq!(
        a,
        vec!["flat", "small_turn_left", "medium_turn_left", "large_turn_left_to_diag", "large_turn_right_to_diag"]
    );
}

#[test]
fn loops_come_in_order() {
    let pieces = list_track_sections(&[TrackGroup::VerticalLoops, TrackGroup::HalfLoops, TrackGroup::QuarterLoops]);
    assert_eq!(pieces, vec!["half_loop", "vertical_loop_left", "vertical_loop_right", "quarter_loop"]);
}

#[test]
fn more_groups_only_add_pieces() {
    let small = list_track_sections(&[TrackGroup::GentleSlopes]);
    let large = list_track_sections(&[TrackGroup::Flat, TrackGroup::GentleSlopes, TrackGroup::SteepSlopes]);
    let mut rest = large.iter();
    for name in &small {
        assert!(rest.any(|n| n == name), "{name} missing or out of order");
    }
    assert!(list_track_sections(&[]).is_empty());
}
