use rctgen::indexed_image::IndexedImage;
use rctgen::mask::{
    MaskError, MaskImage, Masks, MeshType, Operation, OperationDesc, TileType, View, ViewDesc, ViewsDesc,
};

const ORIGIN: u8 = 0b0100_0000;

fn desc(operation: Option<OperationDesc>) -> ViewDesc {
    ViewDesc {
        mask: String::from("mask.png"),
        mirror: false,
        offset: heapless::Vec::new(),
        tiles: heapless::Vec::new(),
        empty: heapless::Vec::new(),
        extrude_behind: false,
        extrude_in_front: false,
        mask_end: false,
        operation,
    }
}

/// A 3×2 mask: sections 1 and 3 on the top row (section 3 also secondary 2), origin at (1, 1).
fn mask_image() -> IndexedImage {
    let pixels = vec![1, 1, 3 | (2 << 3), 0, 1 | ORIGIN, 3];
    IndexedImage::with_buffer(pixels, 3, 2)
}

#[test]
fn mask_without_origin_is_refused() {
    let image = IndexedImage::with_buffer(vec![1, 2, 3, 4], 2, 2);
    assert!(matches!(MaskImage::new(image), Err(MaskError::NoOrigin)));
}

#[test]
fn mask_with_two_origins_is_refused() {
    let image = IndexedImage::with_buffer(vec![ORIGIN, 0, 0, ORIGIN | 1], 2, 2);
    assert!(matches!(MaskImage::new(image), Err(MaskError::MoreThanOneOrigin)));
}

#[test]
fn mask_records_its_sections() {
    let mask = MaskImage::new(mask_image()).unwrap();
    assert!(mask.has_section(0));
    assert!(mask.has_section(1));
    assert!(mask.has_section(2));
    assert!(!mask.has_section(3));
    assert!(!mask.has_section(6));
}

#[test]
fn plain_view_has_one_sprite_per_section() {
    let mut d = desc(None);
    d.offset = heapless::Vec::from_slice(&[[1, 2, 3]]).unwrap();
    d.tiles = heapless::Vec::from_slice(&[0, 5]).unwrap();
    let view = View::new(&d, mask_image(), false).unwrap();
    let indices: Vec<u8> = view.sprites.iter().map(|s| s.index).collect();
    assert_eq!(indices, vec![1, 2, 3]);
    assert_eq!(view.sprites[0].offset, [1, 2, 3]);
    assert_eq!(view.sprites[1].offset, [0, 0, 0]);
    assert_eq!(view.sprites[0].tile, TileType::Index(0));
    assert_eq!(view.sprites[1].tile, TileType::Index(5));
    assert_eq!(view.sprites[2].tile, TileType::Index(2));
    assert!(view.sprites.iter().all(|s| s.operation.is_none()));
    assert!(!view.requires_track_mask);
    assert_eq!(view.extrude_behind_type, None);
    assert_eq!(view.extrude_ahead_type, None);
}

#[test]
fn empty_sections_are_added() {
    let mut d = desc(None);
    d.empty = heapless::Vec::from_slice(&[false, false, false, false, true]).unwrap();
    let view = View::new(&d, mask_image(), true).unwrap();
    let indices: Vec<u8> = view.sprites.iter().map(|s| s.index).collect();
    assert_eq!(indices, vec![1, 2, 3, 5]);
    assert!(view.optional);
}

#[test]
fn split_view_cuts_marked_sections_in_two() {
    let d = desc(Some(OperationDesc::Split(heapless::Vec::from_slice(&[false, true]).unwrap())));
    let view = View::new(&d, mask_image(), false).unwrap();
    let cut: Vec<(u8, Option<Operation>)> = view.sprites.iter().map(|s| (s.index, s.operation)).collect();
    assert_eq!(
        cut,
        vec![
            (1, None),
            (2, Some(Operation::Intersect)),
            (2, Some(Operation::Difference)),
            (3, None),
        ]
    );
    assert!(view.requires_track_mask);
}

#[test]
fn split_ends_view_adds_the_first_section_last() {
    let mut d = desc(Some(OperationDesc::SplitEnds(true)));
    d.offset = heapless::Vec::from_slice(&[[1, 1, 1], [2, 2, 2], [9, 9, 9]]).unwrap();
    let view = View::new(&d, mask_image(), false).unwrap();
    let cut: Vec<(u8, Option<Operation>, TileType)> =
        view.sprites.iter().map(|s| (s.index, s.operation, s.tile)).collect();
    assert_eq!(
        cut,
        vec![
            (1, Some(Operation::Intersect), TileType::Index(0)),
            (2, None, TileType::Index(1)),
            (3, None, TileType::Index(2)),
            (1, Some(Operation::Difference), TileType::Last),
        ]
    );
    assert_eq!(view.sprites[3].offset, [9, 9, 9]);
}

#[test]
fn transfer_view_passes_on_to_the_next_section() {
    let d = desc(Some(OperationDesc::Transfer(heapless::Vec::from_slice(&[true, false]).unwrap())));
    let view = View::new(&d, mask_image(), false).unwrap();
    let cut: Vec<(u8, Option<Operation>)> = view.sprites.iter().map(|s| (s.index, s.operation)).collect();
    assert_eq!(
        cut,
        vec![
            (1, Some(Operation::TransferNext)),
            (2, Some(Operation::Difference)),
            (3, None),
        ]
    );
}

#[test]
fn transfer_on_the_last_sprite_is_refused() {
    let d = desc(Some(OperationDesc::Transfer(heapless::Vec::from_slice(&[false, true]).unwrap())));
    assert!(matches!(View::new(&d, mask_image(), false), Err(MaskError::TransferOnLastSprite)));
}

#[test]
fn extrusion_types_follow_the_description() {
    let mut d = desc(None);
    d.extrude_behind = true;
    d.mask_end = true;
    let view = View::new(&d, mask_image(), false).unwrap();
    assert_eq!(view.extrude_behind_type, Some(MeshType::Normal));
    assert_eq!(view.extrude_ahead_type, Some(MeshType::Mask));
    d.extrude_in_front = true;
    let view = View::new(&d, mask_image(), false).unwrap();
    assert_eq!(view.extrude_ahead_type, Some(MeshType::Normal));
}

#[test]
fn sampling_is_relative_to_the_origin_and_clamped() {
    let view = View::new(&desc(None), mask_image(), false).unwrap();
    // The origin (1, 1) holds primary section 1.
    assert!(view.sample_primary(0, 0, 1));
    // One row up, one column right: (2, 0) holds primary 3, secondary 2.
    assert!(view.sample_primary(1, -1, 3));
    assert!(view.sample_secondary(1, -1, 2));
    // Far away coordinates are clamped to the mask's edge: (0, 0) holds section 1.
    assert!(view.sample_primary(-100, -100, 1));
    // Clamped to the bottom right corner (2, 1): primary 3.
    assert!(view.sample_primary(100, 100, 3));
}

#[test]
fn mirrored_views_count_columns_from_the_other_side() {
    let mut d = desc(None);
    d.mirror = true;
    let view = View::new(&d, mask_image(), false).unwrap();
    // x = 0 mirrored is -1: column 0 of the bottom row, which is transparent.
    assert!(view.sample_primary(0, 0, 0));
    // x = -1 mirrored is 0: the origin itself.
    assert!(view.sample_primary(-1, 0, 1));
}

#[test]
fn two_views_are_reused_for_lift_hills() {
    let views = ViewsDesc::Two([desc(None), desc(None)]);
    assert_eq!(views.view_slots(), [(0, false), (1, false), (0, true), (1, true)]);
    let views = ViewsDesc::Four([desc(None), desc(None), desc(None), desc(None)]);
    assert_eq!(views.view_slots(), [(0, false), (1, false), (2, false), (3, false)]);
}

#[test]
fn masks_are_found_by_piece_name() {
    let mut masks = Masks::new();
    let view = View::new(&desc(None), mask_image(), false).unwrap();
    masks.insert(String::from("flat"), vec![view]);
    assert_eq!(masks.get_views("flat").unwrap().len(), 1);
    assert!(masks.get_views("gentle").is_none());
    masks.insert(String::from("flat"), Vec::new());
    assert_eq!(masks.get_views("flat").unwrap().len(), 0);
    assert_eq!(masks.track_sections.len(), 1);
}

#[test]
fn default_view_has_no_sprites() {
    let view = View::default();
    assert!(view.sprites.is_empty());
    assert!(!view.requires_track_mask);
}

#[test]
fn inserting_keeps_the_other_pieces_in_place() {
    let mut masks = Masks::new();
    let view = View::new(&desc(None), mask_image(), false).unwrap();
    masks.insert(String::from("flat"), vec![view]);
    masks.insert(String::from("gentle"), Vec::new());
    masks.insert(String::from("steep"), Vec::new());
    masks.insert(String::from("gentle"), vec![View::default(), View::default()]);
    let names: Vec<&str> = masks.track_sections.iter().map(|(n, _)| n.as_str()).collect();
    assert_eq!(names, vec!["flat", "gentle", "steep"]);
    assert_eq!(masks.get_views("flat").unwrap().len(), 1);
    assert_eq!(masks.get_views("gentle").unwrap().len(), 2);
    assert_eq!(masks.get_views("steep").unwrap().len(), 0);
}

#[test]
fn mask_errors_read_as_messages() {
    assert_eq!(MaskError::TransferOnLastSprite.message("m.png"), "Cannot use transfer on the last sprite");
    assert_eq!(MaskError::NoOrigin.message("m.png"), "No origin found in m.png");
    assert_eq!(MaskError::MoreThanOneOrigin.message("m.png"), "More than one origin in m.png");
}
