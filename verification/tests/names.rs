use rctgen::atlas::{atlas_layout, sheet_entries};
use rctgen::csg::{Archive, EncodedSprite};
use rctgen::editor::{take_messages, TrackEditorMessage};
use rctgen::image_file::{Image, PaletteType};
use rctgen::indexed_image::IndexedImage;
use rctgen::names::{car_sheet_path, lgx_reference, push_decimal, sprite_image_name, track_sprite_entry};
use rctgen::split::is_sprite_empty;
use rctgen::sprite_archive::{SpriteCache, Sprites};

#[test]
fn numbers_are_written_in_decimal() {
    let mut s = String::from("n=");
    push_decimal(&mut s, 0);
    assert_eq!(s, "n=0");
    let mut s = String::new();
    push_decimal(&mut s, 1209);
    assert_eq!(s, "1209");
    assert_eq!(lgx_reference(34), "$LGX:images.dat[0..34]");
    assert_eq!(car_sheet_path(2), "images/car_2.png");
}

#[test]
fn sprite_files_are_named_after_piece_view_and_sprite() {
    assert_eq!(sprite_image_name("flat", None, 3, None), "flat_3");
    assert_eq!(sprite_image_name("flat", Some("lift"), 0, None), "flat_lift_0");
    assert_eq!(sprite_image_name("gentle", Some("alt"), 2, Some(10)), "gentle_alt_2_10");
    let entry = track_sprite_entry("wood", "flat_3", -4, 7);
    assert_eq!(entry.path, "track/wood/flat_3.png");
    assert_eq!((entry.x, entry.y), (Some(-4), Some(7)));
    assert_eq!(entry.palette, Some(PaletteType::Keep));
    assert_eq!(entry.src_x, None);
}

#[test]
fn empty_sprites_are_single_transparent_pixels() {
    assert!(is_sprite_empty(&IndexedImage::new(1, 1)));
    assert!(!is_sprite_empty(&IndexedImage::with_buffer(vec![3], 1, 1)));
    assert!(!is_sprite_empty(&IndexedImage::new(2, 1)));
}

#[test]
fn sheet_entries_point_into_the_sheet() {
    let mut a = IndexedImage::new(2, 2);
    a.set_offset(-1, -1);
    let b = IndexedImage::new(3, 1);
    let images = [a, b];
    let layout = atlas_layout(&images, 2);
    let entries = sheet_entries(1, &images, &layout);
    assert_eq!(entries.len(), 2);
    match &entries[1] {
        Image::ImageFile(f) => {
            assert_eq!(f.path, "images/car_1.png");
            assert_eq!((f.x, f.y), (Some(0), Some(0)));
            assert_eq!((f.src_x, f.src_y), (Some(layout.coords[1].0), Some(layout.coords[1].1)));
            assert_eq!((f.src_width, f.src_height), (Some(3), Some(1)));
        }
        Image::String(_) => panic!("sheet entry is a string"),
    }
}

#[test]
fn render_messages_report_frames_and_errors() {
    let messages = vec![
        TrackEditorMessage::Error(vec![String::from("a"), String::from("b")]),
        TrackEditorMessage::NewFrame,
        TrackEditorMessage::Error(vec![String::from("c")]),
    ];
    let mut errors = vec![String::from("old")];
    assert!(take_messages(&messages, &mut errors));
    assert_eq!(errors, vec!["old", "a", "b", "c"]);
    let mut errors = Vec::new();
    assert!(!take_messages(&vec![], &mut errors));
    assert!(errors.is_empty());
}

#[test]
fn game_sprites_are_read_from_the_archive_bytes() {
    let mut archive = Archive::with_capacity(1);
    archive.add_sprite(&[1, 2, 3, 4, 5, 6], 3, 2, 1, -1);
    let bytes = archive.to_bytes().unwrap();
    let sprites = Sprites::try_new(&bytes).unwrap();
    let (entry, pixels) = sprites.sprite_pixels(0).unwrap();
    assert_eq!((entry.width, entry.height, entry.offset_x, entry.offset_y), (3, 2, 1, -1));
    assert_eq!(pixels, vec![1, 2, 3, 4, 5, 6]);
    assert!(sprites.sprite_pixels(1).is_none());
    assert!(Sprites::try_new(&[1, 2, 3]).is_none());
}

#[test]
fn sprite_cache_gives_the_same_sprite_every_time() {
    let mut archive = Archive::with_capacity(2);
    archive.add_sprite(&[1, 2, 3, 4, 5, 6], 3, 2, 1, -1);
    let encoded = EncodedSprite::new(&[0, 9, 9, 0], 2, 2);
    archive.add_encoded_sprite(&encoded, -4, 7);
    let bytes = archive.to_bytes().unwrap();
    let mut cache = SpriteCache::try_new(&bytes).unwrap();
    for _ in 0..2 {
        let sprite = cache.get(0).unwrap();
        assert_eq!((sprite.width(), sprite.height()), (3, 2));
        assert_eq!((sprite.offset_x(), sprite.offset_y()), (1, -1));
        assert_eq!(sprite.as_raw(), &[1, 2, 3, 4, 5, 6]);
        let sprite = cache.get(1).unwrap();
        assert_eq!((sprite.offset_x(), sprite.offset_y()), (-4, 7));
        assert_eq!(sprite.as_raw(), &[0, 9, 9, 0]);
    }
    assert!(cache.get(2).is_none());
    assert!(SpriteCache::try_new(&[0, 1]).is_none());
}

#[test]
fn sprite_cache_retries_what_did_not_load() {
    let archive = Archive::with_capacity(0);
    let bytes = archive.to_bytes().unwrap();
    let mut cache = SpriteCache::try_new(&bytes).unwrap();
    assert!(cache.get(0).is_none());
    assert!(cache.get(0).is_none());
}
