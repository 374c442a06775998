use rctgen::adjacent::{list_track_sections, AdjacentTrackSection};
use rctgen::track_drawing::TileSprites;
use rctgen::atlas::atlas_layout;
use rctgen::indexed_image::IndexedImage;
use rctgen::offset::{get_offset_desc, get_offset_type, is_diagonal, offset_index, OffsetDesc, OffsetType, PointMatch};

fn no_match() -> PointMatch {
    PointMatch {
        flat: false,
        gentle: false,
        steep: false,
        diagonal: false,
        diagonal_gentle: false,
        diagonal_steep: false,
        vertical: false,
        banked: false,
        binormal_down: false,
        upside_down: false,
    }
}

#[test]
fn offset_types_follow_the_track_direction() {
    assert_eq!(get_offset_type(&no_match()), None);
    let flat = PointMatch { flat: true, ..no_match() };
    assert_eq!(get_offset_type(&flat), Some((OffsetType::Flat, false)));
    assert_eq!(get_offset_type(&PointMatch { upside_down: true, ..flat }), Some((OffsetType::Inverted, false)));
    assert_eq!(
        get_offset_type(&PointMatch { banked: true, binormal_down: true, ..flat }),
        Some((OffsetType::FlatBanked, true))
    );
    assert_eq!(
        get_offset_type(&PointMatch { diagonal_gentle: true, banked: true, ..no_match() }),
        Some((OffsetType::DiagonalBanked, false))
    );
    assert_eq!(get_offset_type(&PointMatch { vertical: true, ..no_match() }), Some((OffsetType::Vertical, false)));
    assert!(is_diagonal(OffsetType::DiagonalSteep));
    assert!(!is_diagonal(OffsetType::Steep));
}

#[test]
fn offset_is_taken_in_the_first_matching_view() {
    let gentle = PointMatch { gentle: true, ..no_match() };
    let steep = PointMatch { steep: true, ..no_match() };
    let desc = get_offset_desc(&[no_match(), gentle, steep, no_match()]).unwrap();
    assert_eq!(desc, OffsetDesc { offset_type: OffsetType::Gentle, banked_right: false, rotation_offset: 1 });
    assert_eq!(get_offset_desc(&[no_match(); 4]), None);
    let banked = OffsetDesc { offset_type: OffsetType::FlatBanked, banked_right: true, rotation_offset: 1 };
    assert_eq!(offset_index(&banked, 0), 1);
    assert_eq!(offset_index(&banked, 3), 0);
    assert_eq!(offset_index(&desc, 2), 1);
}

#[test]
fn atlas_cells_fit_every_sprite() {
    let mut a = IndexedImage::new(2, 2);
    a.set_offset(-1, -1);
    let b = IndexedImage::new(3, 1);
    let mut c = IndexedImage::new(1, 1);
    c.set_offset(-2, 0);
    let layout = atlas_layout(&[a, b, c], 2);
    assert_eq!((layout.width, layout.height), (10, 4));
    assert_eq!(layout.coords, vec![(1, 0), (7, 1), (0, 3)]);
}

#[test]
fn adjacent_pieces_need_sprites() {
    let mut pieces: heapless::Vec<AdjacentTrackSection, 2> = heapless::Vec::new();
    let _ = pieces.push(AdjacentTrackSection { track_section: String::from("gentle"), coords: [0, 32, 0], rotation: 0 });
    let _ = pieces.push(AdjacentTrackSection { track_section: String::from("steep"), coords: [0, -32, 0], rotation: 2 });
    let mut adjacent = indexmap::IndexMap::new();
    adjacent.insert(String::from("flat"), pieces);
    let mut sprites: indexmap::IndexMap<String, Vec<TileSprites>> = indexmap::IndexMap::new();
    sprites.insert(String::from("steep"), Vec::new());
    sprites.insert(String::from("gentle"), Vec::new());
    let listed = list_track_sections("flat", &adjacent, &sprites);
    let got: Vec<(&str, usize, u8)> =
        listed.iter().map(|x| (x.track_section.as_str(), x.sprites, x.rotation)).collect();
    assert_eq!(got, vec![("gentle", 1, 0), ("steep", 0, 2)]);
    assert_eq!(listed[1].coords, [0, -32, 0]);
    let mut only_gentle: indexmap::IndexMap<String, Vec<TileSprites>> = indexmap::IndexMap::new();
    only_gentle.insert(String::from("gentle"), Vec::new());
    let listed = list_track_sections("flat", &adjacent, &only_gentle);
    assert_eq!(listed.len(), 1);
    assert!(list_track_sections("steep", &adjacent, &sprites).is_empty());
}
