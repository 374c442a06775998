//! The sprite archive of a vehicle object: its preview, two empty preview slots, then the
//! sprites of every car, run-length encoded, car after car.
use vstd::prelude::*;
use vstd::view::View as _;

use crate::csg::{
    added_entry, encoded_row_offsets, le_i16s, Archive, ArchiveView, EncodedSprite, ENTRY_FLAG_RLE,
    ENTRY_FLAG_TRANSPARENT,
};
use crate::indexed_image::{ImageView, IndexedImage};
use crate::rle::{encode_rows, sprite_encodable};

verus! {

/// `a` with `img` added as a plain sprite drawn at the origin.
pub open spec fn add_plain(a: ArchiveView, img: ImageView) -> ArchiveView {
    ArchiveView {
        entries: a.entries.push(
            added_entry(a.data.len() as int, img.width as u16, img.height as u16, 0, 0, ENTRY_FLAG_TRANSPARENT),
        ),
        data: a.data + img.pixels,
    }
}

/// `a` with `img` added run-length encoded, drawn at its own offset.
pub open spec fn add_encoded(a: ArchiveView, img: ImageView) -> ArchiveView {
    ArchiveView {
        entries: a.entries.push(
            added_entry(
                a.data.len() as int,
                img.width as u16,
                img.height as u16,
                img.offset_x as i32,
                img.offset_y as i32,
                ENTRY_FLAG_TRANSPARENT | ENTRY_FLAG_RLE,
            ),
        ),
        data: a.data + le_i16s(encoded_row_offsets(img.pixels, img.width, img.height)) + encode_rows(
            img.pixels,
            img.width,
            img.height,
        ),
    }
}

/// `a` with `imgs` added run-length encoded, one after the other.
pub open spec fn add_all_encoded(a: ArchiveView, imgs: Seq<ImageView>) -> ArchiveView
    decreases imgs.len(),
{
    if imgs.len() == 0 {
        a
    } else {
        add_encoded(add_all_encoded(a, imgs.drop_last()), imgs.last())
    }
}

/// A transparent 1 × 1 image at the origin.
pub open spec fn empty_pixel() -> ImageView {
    ImageView { width: 1, height: 1, pixels: seq![0u8], offset_x: 0, offset_y: 0 }
}

/// The archive before any car sprite: the preview and two empty preview slots.
pub open spec fn preview_archive(preview: ImageView) -> ArchiveView {
    add_plain(
        add_plain(
            add_plain(ArchiveView { entries: Seq::empty(), data: Seq::empty() }, preview),
            empty_pixel(),
        ),
        empty_pixel(),
    )
}

/// The images of the cars, car after car.
pub open spec fn car_images(cars: Seq<Vec<IndexedImage>>) -> Seq<ImageView>
    decreases cars.len(),
{
    if cars.len() == 0 {
        Seq::empty()
    } else {
        car_images(cars.drop_last()) + cars.last()@.map_values(|img: IndexedImage| img@)
    }
}

/// The images of the cars before car `i`, then the first `j` images of car `i`.
pub open spec fn images_before(cars: Seq<Vec<IndexedImage>>, i: int, j: int) -> Seq<ImageView> {
    car_images(cars.take(i)) + cars[i]@.take(j).map_values(|img: IndexedImage| img@)
}

/// Every car image can be encoded and placed, and the archive's data stays addressable by
/// `u32` before each image is added.
pub open spec fn car_images_fit(preview: ImageView, cars: Seq<Vec<IndexedImage>>) -> bool {
    forall|i: int, j: int|
        0 <= i < cars.len() && 0 <= j < cars[i]@.len() ==> {
            let img = #[trigger] cars[i]@[j];
            &&& img.wf()
            &&& sprite_encodable(img@.pixels, img@.width, img@.height)
            &&& i16::MIN <= img@.offset_x <= i16::MAX
            &&& i16::MIN <= img@.offset_y <= i16::MAX
            &&& add_all_encoded(preview_archive(preview), images_before(cars, i, j)).data.len() <= u32::MAX
        }
}

/// The sprite archive of a vehicle object: the preview at the origin, two empty preview slots,
/// then every car's images, run-length encoded at their own offsets, car after car.
pub fn vehicle_images_archive(preview: &IndexedImage, cars: &Vec<Vec<IndexedImage>>) -> (r: Archive)
    requires
        preview.wf(),
        car_images_fit(preview@, cars@),
    ensures
        r@ == add_all_encoded(preview_archive(preview@), car_images(cars@)),
{
    let mut archive = Archive::with_capacity(3);
    assert(preview@.width * preview@.height <= 0xffff * 0xffff) by (nonlinear_arith)
        requires
            0 <= preview@.width <= 0xffff,
            0 <= preview@.height <= 0xffff,
    ;
    archive.add_sprite(preview.as_raw(), preview.width(), preview.height(), 0, 0);
    let empty = IndexedImage::new(1, 1);
    assert(empty@.pixels =~= seq![0u8]);
    archive.add_sprite(empty.as_raw(), 1, 1, 0, 0);
    archive.add_sprite(empty.as_raw(), 1, 1, 0, 0);
    let ghost base = preview_archive(preview@);
    assert(archive@ == base);
    let mut i: usize = 0;
    while i < cars.len()
        invariant
            i <= cars@.len(),
            base == preview_archive(preview@),
            car_images_fit(preview@, cars@),
            archive@ == add_all_encoded(base, car_images(cars@.take(i as int))),
        decreases cars@.len() - i,
    {
        let images = &cars[i];
        let mut j: usize = 0;
        assert(images_before(cars@, i as int, 0) =~= car_images(cars@.take(i as int)));
        while j < images.len()
            invariant
                i < cars@.len(),
                j <= images@.len(),
                images == cars@[i as int],
                base == preview_archive(preview@),
                car_images_fit(preview@, cars@),
                archive@ == add_all_encoded(base, images_before(cars@, i as int, j as int)),
            decreases images@.len() - j,
        {
            let image = &images[j];
            assert(image == cars@[i as int]@[j as int]);
            let sprite = EncodedSprite::new(image.as_raw(), image.width(), image.height());
            archive.add_encoded_sprite(&sprite, image.offset_x(), image.offset_y());
            proof {
                let prev = images_before(cars@, i as int, j as int);
                let next = images_before(cars@, i as int, j + 1);
                assert(next =~= prev.push(image@));
                assert(next.drop_last() =~= prev);
            }
            j = j + 1;
        }
        proof {
            assert(cars@.take(i + 1).drop_last() =~= cars@.take(i as int));
            assert(images@.take(images@.len() as int) =~= images@);
            assert(car_images(cars@.take(i + 1)) =~= images_before(cars@, i as int, images@.len() as int));
        }
        i = i + 1;
    }
    assert(cars@.take(cars@.len() as int) =~= cars@);
    archive
}

} // verus!
