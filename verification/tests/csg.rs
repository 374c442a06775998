use rctgen::csg::{Archive, EncodedSprite, Pixels};
use rctgen::indexed_image::IndexedImage;
use rctgen::vehicle_images::vehicle_images_archive;

fn sample_sprite() -> (Vec<u8>, u16, u16) {
    // A 4×3 sprite with transparent gaps.
    let pixels = vec![0, 5, 6, 0, 7, 0, 0, 8, 0, 0, 0, 0];
    (pixels, 4, 3)
}

#[test]
fn archive_round_trips_plain_and_encoded_sprites() {
    let (pixels, width, height) = sample_sprite();
    let mut archive = Archive::with_capacity(2);
    archive.add_sprite(&pixels, width, height, -2, 5);
    let encoded = EncodedSprite::new(&pixels, width, height);
    archive.add_encoded_sprite(&encoded, -2, 5);
    assert_eq!(archive.len(), 2);
    assert!(!archive.is_empty());

    let bytes = archive.to_bytes().unwrap();
    let loaded = Archive::from_bytes(&bytes).unwrap();
    assert_eq!(loaded.entries().len(), 2);
    assert_eq!(loaded.to_bytes().unwrap(), bytes);

    let entries = loaded.entries();
    assert_eq!(entries[0].offset_x, -2);
    assert_eq!(entries[0].offset_y, 5);
    match loaded.get_pixels(&entries[0]).unwrap() {
        Pixels::Uncompressed(p) => assert_eq!(p, pixels.as_slice()),
        Pixels::Compressed(_) => panic!("plain sprite came back compressed"),
    }
    match loaded.get_pixels(&entries[1]).unwrap() {
        Pixels::Compressed(p) => assert_eq!(p, pixels),
        Pixels::Uncompressed(_) => panic!("encoded sprite came back plain"),
    }
}

#[test]
fn empty_archive_has_no_entries() {
    let archive = Archive::with_capacity(0);
    assert!(archive.is_empty());
    assert_eq!(archive.len(), 0);
    let bytes = archive.to_bytes().unwrap();
    assert_eq!(bytes, vec![0, 0, 0, 0, 0, 0, 0, 0]);
}

#[test]
fn vehicle_archive_holds_preview_slots_then_cars() {
    let preview = IndexedImage::with_buffer(vec![3, 4], 2, 1);
    let mut car_a = IndexedImage::with_buffer(vec![0, 5, 6, 0], 2, 2);
    car_a.set_offset(-1, -2);
    let car_b = IndexedImage::with_buffer(vec![7], 1, 1);
    let archive = vehicle_images_archive(&preview, &vec![vec![car_a], vec![car_b]]);
    assert_eq!(archive.len(), 5);
    let entries = archive.entries();
    assert_eq!((entries[0].width, entries[0].height), (2, 1));
    assert_eq!((entries[1].width, entries[2].height), (1, 1));
    assert_eq!((entries[3].offset_x, entries[3].offset_y), (-1, -2));
    match archive.get_pixels(&entries[0]).unwrap() {
        Pixels::Uncompressed(p) => assert_eq!(p, &[3, 4]),
        Pixels::Compressed(_) => panic!("preview came back compressed"),
    }
    match archive.get_pixels(&entries[3]).unwrap() {
        Pixels::Compressed(p) => assert_eq!(p, vec![0, 5, 6, 0]),
        Pixels::Uncompressed(_) => panic!("car sprite came back plain"),
    }
    match archive.get_pixels(&entries[4]).unwrap() {
        Pixels::Compressed(p) => assert_eq!(p, vec![7]),
        Pixels::Uncompressed(_) => panic!("car sprite came back plain"),
    }
}

#[test]
fn vehicle_object_refers_to_every_archive_sprite() {
    let preview = IndexedImage::with_buffer(vec![3], 1, 1);
    let car = IndexedImage::with_buffer(vec![7], 1, 1);
    let archive = vehicle_images_archive(&preview, &vec![vec![car.duplicate(), car]]);
    let images = rctgen::names::dat_object_images(&archive);
    assert_eq!(images.len(), 1);
    match &images[0] {
        rctgen::image_file::Image::String(s) => assert_eq!(s, "$LGX:images.dat[0..4]"),
        rctgen::image_file::Image::ImageFile(_) => panic!("expected a reference"),
    }
}
