use rctgen::chain::{apply_chain, ChainType};
use rctgen::indexed_image::IndexedImage;
use rctgen::depth::{split_image_depth, DepthRanks, FAR};
use rctgen::mask::{Operation, Sprite, TileType, View, ViewDesc};
use rctgen::split::{calculate_tile_image_offset, is_sprite_empty, clear_outside_mask, get_coordinates, split_image};

fn plain_view() -> View {
    let desc = ViewDesc {
        mask: String::from("mask.png"),
        mirror: false,
        offset: heapless::Vec::new(),
        tiles: heapless::Vec::new(),
        empty: heapless::Vec::new(),
        extrude_behind: false,
        extrude_in_front: false,
        mask_end: false,
        operation: None,
    };
    // Sections 1 and 3 on the top row, origin (1, 1) in section 1.
    let mask = IndexedImage::with_buffer(vec![1, 1, 3 | (2 << 3), 0, 1 | 0b0100_0000, 3], 3, 2);
    View::new(&desc, mask, false).unwrap()
}

#[test]
fn tile_coordinates_default_to_the_origin() {
    let tiles = [[1, 2, 3], [4, 5, 6]];
    assert_eq!(get_coordinates(TileType::Index(1), &tiles), [4, 5, 6]);
    assert_eq!(get_coordinates(TileType::Index(5), &tiles), [0, 0, 0]);
    assert_eq!(get_coordinates(TileType::Last, &tiles), [4, 5, 6]);
    assert_eq!(get_coordinates(TileType::Last, &[]), [0, 0, 0]);
}

#[test]
fn tile_offsets_turn_with_the_view() {
    assert_eq!(calculate_tile_image_offset(&[32, 0, 0], &[0, 0, 0], 0), (32, -16));
    assert_eq!(calculate_tile_image_offset(&[32, 0, 0], &[0, 0, 0], 1), (32, 16));
    assert_eq!(calculate_tile_image_offset(&[32, 0, 0], &[0, 0, 0], 2), (-32, 16));
    assert_eq!(calculate_tile_image_offset(&[0, 0, 0], &[0, 16, 8], 3), (-16, 0));
    // Halving rounds toward zero.
    assert_eq!(calculate_tile_image_offset(&[1, 0, 0], &[0, 0, 0], 0), (1, 0));
    assert_eq!(calculate_tile_image_offset(&[-1, 0, 0], &[0, 0, 0], 0), (-1, 0));
}

#[test]
fn split_image_gives_each_section_its_pixels() {
    let view = plain_view();
    let image = IndexedImage::with_buffer(vec![5, 6], 2, 1);
    let sprites = split_image(&image, &view, &[[32, 0, 0]], 0, 0);
    assert_eq!(sprites.len(), 3);
    // Each sprite is cropped to its visible pixels.
    assert_eq!((sprites[0].width(), sprites[0].height()), (1, 1));
    assert_eq!(sprites[0].as_raw(), &[5]);
    assert_eq!((sprites[0].offset_x(), sprites[0].offset_y()), (32, -16));
    // Nothing of section 2: a single transparent pixel.
    assert_eq!(sprites[1].as_raw(), &[0]);
    assert!(is_sprite_empty(&sprites[1]));
    // Cropping the empty left column moves the offset one to the right.
    assert_eq!(sprites[2].as_raw(), &[6]);
    assert_eq!((sprites[2].offset_x(), sprites[2].offset_y()), (1, 0));
}

#[test]
fn split_image_moves_the_mask_by_the_y_offset() {
    let view = plain_view();
    let image = IndexedImage::with_buffer(vec![5, 6], 2, 1);
    // One row up in the mask: (1, 0) and (2, 0) hold sections 1 and 3.
    let sprites = split_image(&image, &view, &[], 0, -1);
    assert_eq!(sprites[0].as_raw(), &[5]);
    assert_eq!(sprites[2].as_raw(), &[6]);
}

#[test]
fn chain_replaces_only_marker_pixels() {
    let mut image = IndexedImage::with_buffer(vec![1, 0, 1], 3, 1);
    apply_chain(&mut image, ChainType::Flat, 0);
    assert_eq!(image.as_raw(), &[3, 0, 2]);
    let mut image = IndexedImage::with_buffer(vec![1, 1, 1, 7], 4, 1);
    image.set_offset(-1, 0);
    apply_chain(&mut image, ChainType::FlatDiag, 0);
    // width 3, x offset -2: columns -1..2 land on (x + 1) mod 3 = 1, 2, 0.
    assert_eq!(image.as_raw(), &[2, 3, 1, 7]);
}

#[test]
fn clear_outside_mask_keeps_only_sections() {
    let view = plain_view();
    let mut image = IndexedImage::with_buffer(vec![4, 5, 6], 3, 1);
    image.set_offset(-1, 0);
    clear_outside_mask(&mut image, &view);
    // Columns -1, 0, 1 fall on mask pixels 0, 1 and 3 of the lower row.
    assert_eq!(image.as_raw(), &[0, 5, 6]);
    assert_eq!((image.offset_x(), image.offset_y()), (-1, 0));
}

fn depth_view() -> View {
    let mut view = plain_view();
    view.sprites = vec![
        Sprite::new(1, None, Some(Operation::Intersect), TileType::Last),
        Sprite::new(0, None, Some(Operation::Difference), TileType::Last),
        Sprite::new(2, None, Some(Operation::TransferNext), TileType::Last),
        Sprite::new(3, None, None, TileType::Last),
    ];
    view
}

#[test]
fn split_image_depth_cuts_by_depth() {
    let view = depth_view();
    let image = IndexedImage::with_buffer(vec![5, 6], 2, 1);
    let track = DepthRanks { width: 2, height: 1, offset_x: 0, offset_y: 0, ranks: vec![10, 20] };
    let mask = DepthRanks { width: 2, height: 1, offset_x: 0, offset_y: 0, ranks: vec![15, 12] };
    let sprites = split_image_depth(&image, &view, &[], 0, 0, &track, &mask);
    assert_eq!(sprites.len(), 4);
    // Section 1 lies nearer than the mask: nothing of it is inside the track.
    assert_eq!(sprites[0].as_raw(), &[0]);
    // Secondary section 0 where the track is not behind the mask.
    assert_eq!(sprites[1].as_raw(), &[5]);
    // Section 3 follows section 2 and the track lies behind the mask there.
    assert_eq!(sprites[2].as_raw(), &[6]);
    assert_eq!((sprites[2].offset_x(), sprites[2].offset_y()), (1, 0));
    // Without an operation the mask alone decides.
    assert_eq!(sprites[3].as_raw(), &[6]);
    assert_eq!((sprites[0].offset_x(), sprites[0].offset_y()), (0, 0));
}

#[test]
fn split_image_depth_treats_outside_the_mask_as_far() {
    let view = depth_view();
    let image = IndexedImage::with_buffer(vec![5, 6], 2, 1);
    let track = DepthRanks { width: 2, height: 1, offset_x: 0, offset_y: 0, ranks: vec![FAR, 20] };
    let mask = DepthRanks { width: 1, height: 1, offset_x: 1, offset_y: 0, ranks: vec![12] };
    assert_eq!(mask.get_at(0, 0), FAR);
    assert_eq!(mask.get_at(1, 0), 12);
    let sprites = split_image_depth(&image, &view, &[], 0, 0, &track, &mask);
    // Equal depths: the track is not nearer, so section 1 stays.
    assert_eq!(sprites[0].as_raw(), &[5]);
    assert_eq!(sprites[1].as_raw(), &[0]);
}

#[test]
fn crop_trims_transparent_borders() {
    // 4 × 3 with visible pixels in columns 1..3 of rows 1..2.
    let mut image = IndexedImage::with_buffer(vec![0, 0, 0, 0, 0, 7, 0, 0, 0, 0, 8, 0], 4, 3);
    image.set_offset(-10, 5);
    image.crop();
    assert_eq!((image.width(), image.height()), (2, 2));
    assert_eq!(image.as_raw(), &[7, 0, 0, 8]);
    assert_eq!((image.offset_x(), image.offset_y()), (-9, 6));
    let mut blank = IndexedImage::with_buffer(vec![0, 0, 0], 3, 1);
    blank.set_offset(4, 4);
    blank.crop();
    assert_eq!((blank.width(), blank.height(), blank.offset_x(), blank.offset_y()), (1, 1, 4, 4));
    assert_eq!(blank.as_raw(), &[0]);
}
