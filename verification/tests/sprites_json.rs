use rctgen::image_file::ImageFile;
use rctgen::sprites_json::{collect_sprites, is_track_section_sprite, merge_sprites, TrackSectionSprites};

fn file(path: &str) -> ImageFile {
    ImageFile::new(String::from(path))
}

fn paths(list: &[ImageFile]) -> Vec<&str> {
    list.iter().map(|f| f.path.as_str()).collect()
}

fn section(track: &str, piece: &str, sprites: Vec<ImageFile>) -> TrackSectionSprites {
    TrackSectionSprites { track_name: String::from(track), track_section_name: String::from(piece), sprites }
}

#[test]
fn section_sprites_are_recognised_by_name_and_digit() {
    assert!(is_track_section_sprite("track/wood/flat_0.png", "track/wood/", "flat"));
    assert!(is_track_section_sprite("track/wood/flat_3_1.png", "track/wood/", "flat"));
    assert!(!is_track_section_sprite("track/wood/flat_to_gentle_0.png", "track/wood/", "flat"));
    assert!(!is_track_section_sprite("track/wood/flat", "track/wood/", "flat"));
    assert!(!is_track_section_sprite("track/steel/flat_0.png", "track/wood/", "flat"));
}

#[test]
fn new_sprites_replace_old_ones_in_place() {
    let existing = vec![
        file("track/wood/gentle_0.png"),
        file("track/wood/flat_0.png"),
        file("track/wood/flat_1.png"),
        file("other/x.png"),
    ];
    let mut new = file("track/wood/flat_0.png");
    new.x = Some(5);
    let merged = merge_sprites(existing, &vec![section("wood", "flat", vec![new])]);
    assert_eq!(paths(&merged), vec!["track/wood/gentle_0.png", "track/wood/flat_0.png", "other/x.png"]);
    assert_eq!(merged[1].x, Some(5));
}

#[test]
fn new_pieces_follow_their_track() {
    let existing = vec![file("track/wood/gentle_0.png"), file("other/x.png")];
    let merged = merge_sprites(
        existing,
        &vec![
            section("wood", "steep", vec![file("track/wood/steep_0.png")]),
            section("metal", "flat", vec![file("track/metal/flat_0.png")]),
            section("wood", "vertical", vec![]),
        ],
    );
    assert_eq!(
        paths(&merged),
        vec!["track/wood/gentle_0.png", "track/wood/steep_0.png", "other/x.png", "track/metal/flat_0.png"]
    );
}

#[test]
fn merging_twice_changes_nothing() {
    let existing = vec![file("track/wood/flat_0.png"), file("a.png")];
    let sections = vec![section("wood", "flat", vec![file("track/wood/flat_0.png"), file("track/wood/flat_1.png")])];
    let once = merge_sprites(existing, &sections);
    let copy: Vec<ImageFile> = once.iter().map(|f| f.duplicate()).collect();
    let twice = merge_sprites(copy, &sections);
    assert_eq!(paths(&once), paths(&twice));
}

#[test]
fn without_a_list_all_sprites_are_collected() {
    let collected = collect_sprites(&vec![
        section("wood", "flat", vec![file("track/wood/flat_0.png")]),
        section("wood", "steep", vec![file("track/wood/steep_0.png"), file("track/wood/steep_1.png")]),
    ]);
    assert_eq!(
        paths(&collected),
        vec!["track/wood/flat_0.png", "track/wood/steep_0.png", "track/wood/steep_1.png"]
    );
}
