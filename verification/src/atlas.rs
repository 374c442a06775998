//! Laying out a vehicle's sprites on a grid, for a sprite sheet.
use vstd::prelude::*;
use vstd::view::View as _;

use crate::image_file::{Image, ImageFile, PaletteType};
use crate::indexed_image::{ImageView, IndexedImage};
use crate::names::{car_sheet_path, decimal};

verus! {

/// The leftmost column any image reaches, relative to the origins; never right of the origin.
pub open spec fn min_x(s: Seq<ImageView>) -> int
    decreases s.len(),
{
    if s.len() == 0 {
        0
    } else {
        vstd::math::min(min_x(s.drop_last()), s.last().offset_x)
    }
}

/// The column past the rightmost one any image reaches; never left of the origin.
pub open spec fn max_x(s: Seq<ImageView>) -> int
    decreases s.len(),
{
    if s.len() == 0 {
        0
    } else {
        vstd::math::max(max_x(s.drop_last()), s.last().width + s.last().offset_x)
    }
}

/// The topmost row any image reaches; never below the origin.
pub open spec fn min_y(s: Seq<ImageView>) -> int
    decreases s.len(),
{
    if s.len() == 0 {
        0
    } else {
        vstd::math::min(min_y(s.drop_last()), s.last().offset_y)
    }
}

/// The row past the lowest one any image reaches; never above the origin.
pub open spec fn max_y(s: Seq<ImageView>) -> int
    decreases s.len(),
{
    if s.len() == 0 {
        0
    } else {
        vstd::math::max(max_y(s.drop_last()), s.last().height + s.last().offset_y)
    }
}

/// What the images hold.
pub open spec fn image_views(images: Seq<IndexedImage>) -> Seq<ImageView> {
    images.map_values(|i: IndexedImage| i@)
}

/// Where each sprite goes on a sheet, and the sheet's size.
pub struct AtlasLayout {
    pub width: u16,
    pub height: u16,
    pub coords: Vec<(i32, i32)>,
}

/// How many rows `count` sprites take in rows of `columns`.
pub open spec fn row_count(count: int, columns: int) -> int {
    if count % columns != 0 {
        count / columns + 1
    } else {
        count / columns
    }
}

/// The sheet can be laid out: a column count, offsets that keep every extent within `i32`,
/// and a sheet that fits `u16`.
pub open spec fn atlas_fits(s: Seq<ImageView>, columns: int) -> bool {
    let cw = max_x(s) - min_x(s);
    let rh = max_y(s) - min_y(s);
    &&& columns > 0
    &&& s.len() <= i32::MAX
    &&& forall|i: int|
        0 <= i < s.len() ==> i32::MIN <= #[trigger] s[i].offset_x && s[i].width + s[i].offset_x <= i32::MAX
            && i32::MIN <= s[i].offset_y && s[i].height + s[i].offset_y <= i32::MAX
    &&& cw <= i32::MAX && rh <= i32::MAX
    &&& 0 <= cw * columns <= u16::MAX
    &&& 0 <= rh * row_count(s.len() as int, columns) <= u16::MAX
}

proof fn lemma_extents(s: Seq<ImageView>)
    requires
        forall|i: int| 0 <= i < s.len() ==> 0 <= #[trigger] s[i].width && 0 <= s[i].height,
    ensures
        min_x(s) <= 0 <= max_x(s),
        min_y(s) <= 0 <= max_y(s),
        forall|i: int|
            0 <= i < s.len() ==> min_x(s) <= #[trigger] s[i].offset_x && s[i].width + s[i].offset_x <= max_x(s)
                && min_y(s) <= s[i].offset_y && s[i].height + s[i].offset_y <= max_y(s),
    decreases s.len(),
{
    if s.len() > 0 {
        lemma_extents(s.drop_last());
        assert forall|i: int| 0 <= i < s.len() - 1 implies #[trigger] s[i] == s.drop_last()[i] by {}
    }
}

/// Lays out `images` on a sheet `columns` sprites wide, each in a cell large enough for all of
/// them, with each sprite's origin at the same place in its cell.
pub fn atlas_layout(images: &[IndexedImage], columns: i32) -> (r: AtlasLayout)
    requires
        forall|i: int| 0 <= i < images@.len() ==> (#[trigger] images@[i]).wf(),
        atlas_fits(image_views(images@), columns as int),
    ensures
        ({
            let s = image_views(images@);
            let cw = max_x(s) - min_x(s);
            let rh = max_y(s) - min_y(s);
            &&& r.width == cw * columns
            &&& r.height == rh * row_count(s.len() as int, columns as int)
            &&& r.coords@.len() == s.len()
            &&& forall|i: int|
                0 <= i < s.len() ==> {
                    let row = i / (columns as int);
                    let column = i % (columns as int);
                    &&& (#[trigger] r.coords@[i]).0 == cw * column - min_x(s) + s[i].offset_x
                    &&& r.coords@[i].1 == rh * row - min_y(s) + s[i].offset_y
                }
        }),
{
    let ghost s = image_views(images@);
    let n = images.len();
    let mut x_min: i32 = 0;
    let mut y_min: i32 = 0;
    let mut x_max: i32 = 0;
    let mut y_max: i32 = 0;
    let mut i: usize = 0;
    while i < n
        invariant
            n == images@.len() == s.len(),
            i <= n,
            s == image_views(images@),
            forall|k: int| 0 <= k < images@.len() ==> (#[trigger] images@[k]).wf(),
            atlas_fits(s, columns as int),
            x_min == min_x(s.take(i as int)),
            x_max == max_x(s.take(i as int)),
            y_min == min_y(s.take(i as int)),
            y_max == max_y(s.take(i as int)),
        decreases n - i,
    {
        proof {
            assert(s.take(i + 1).drop_last() =~= s.take(i as int));
            assert(s[i as int] == images@[i as int]@);
            assert(s.take(i + 1).last() == s[i as int]);
        }
        let image = &images[i];
        let x_neg = image.offset_x();
        let x_pos = image.width() as i32 + image.offset_x();
        if x_neg < x_min {
            x_min = x_neg;
        }
        if x_pos > x_max {
            x_max = x_pos;
        }
        let y_neg = image.offset_y();
        let y_pos = image.height() as i32 + image.offset_y();
        if y_neg < y_min {
            y_min = y_neg;
        }
        if y_pos > y_max {
            y_max = y_pos;
        }
        i = i + 1;
    }
    proof {
        assert(s.take(n as int) =~= s);
        assert forall|k: int| 0 <= k < s.len() implies 0 <= #[trigger] s[k].width && 0 <= s[k].height by {
            assert(s[k] == images@[k]@);
        }
        lemma_extents(s);
    }
    let column_width = x_max - x_min;
    let row_height = y_max - y_min;
    let image_count = n as i32;
    let rows = image_count / columns;
    proof {
        assert(image_count % columns != 0 ==> rows < i32::MAX) by (nonlinear_arith)
            requires
                rows == image_count / columns,
                columns > 0,
                image_count >= 0,
        ;
    }
    let rows = if image_count % columns != 0 {
        rows + 1
    } else {
        rows
    };
    let width = (column_width * columns) as u16;
    let height = (row_height * rows) as u16;
    let mut coords: Vec<(i32, i32)> = Vec::new();
    let mut i: usize = 0;
    while i < n
        invariant
            n == images@.len() == s.len(),
            i <= n,
            s == image_views(images@),
            atlas_fits(s, columns as int),
            x_min == min_x(s) && y_min == min_y(s),
            column_width == max_x(s) - min_x(s),
            row_height == max_y(s) - min_y(s),
            min_x(s) <= 0 <= max_x(s) && min_y(s) <= 0 <= max_y(s),
            forall|k: int| 0 <= k < images@.len() ==> (#[trigger] images@[k]).wf(),
            forall|k: int|
                0 <= k < s.len() ==> min_x(s) <= #[trigger] s[k].offset_x && s[k].width + s[k].offset_x <= max_x(s)
                    && min_y(s) <= s[k].offset_y && s[k].height + s[k].offset_y <= max_y(s),
            coords@.len() == i,
            forall|k: int|
                0 <= k < i ==> {
                    let row = k / (columns as int);
                    let column = k % (columns as int);
                    &&& (#[trigger] coords@[k]).0 == column_width * column - min_x(s) + s[k].offset_x
                    &&& coords@[k].1 == row_height * row - min_y(s) + s[k].offset_y
                },
        decreases n - i,
    {
        let index = i as i32;
        let ghost rc = row_count(s.len() as int, columns as int);
        proof {
            assert(rc >= 1) by (nonlinear_arith)
                requires
                    index < s.len(),
                    index >= 0,
                    columns > 0,
                    rc == if (s.len() as int) % (columns as int) != 0 {
                        (s.len() as int) / (columns as int) + 1
                    } else {
                        (s.len() as int) / (columns as int)
                    },
            ;
        }
        let row = index / columns;
        proof {
            assert(0 <= row * columns <= index) by (nonlinear_arith)
                requires
                    row == index / columns,
                    columns > 0,
                    index >= 0,
            ;
        }
        let column = index - row * columns;
        proof {
            vstd::arithmetic::div_mod::lemma_fundamental_div_mod(index as int, columns as int);
            assert(row * columns == columns * row) by (nonlinear_arith);
            assert(column == (i as int) % (columns as int));
            assert(row == (i as int) / (columns as int));
            assert(s[i as int] == images@[i as int]@);
            assert(row * columns + column == index);
            assert(0 <= column < columns) by (nonlinear_arith)
                requires
                    row == index / columns,
                    column == index - row * columns,
                    columns > 0,
                    index >= 0,
            ;
            assert(column_width * column <= column_width * columns) by (nonlinear_arith)
                requires
                    0 <= column < columns,
                    column_width >= 0,
            ;
            assert(0 <= row <= index) by (nonlinear_arith)
                requires
                    row == index / columns,
                    columns > 0,
                    index >= 0,
            ;
            let len = s.len() as int;
            let c = columns as int;
            assert(row <= rc) by (nonlinear_arith)
                requires
                    row == index / columns,
                    index < len,
                    c == columns,
                    c > 0,
                    index >= 0,
                    rc == if len % c != 0 {
                        len / c + 1
                    } else {
                        len / c
                    },
            ;
            assert(row_height * row <= row_height * rc) by (nonlinear_arith)
                requires
                    0 <= row <= rc,
                    row_height >= 0,
            ;
            assert(column_width * column >= 0 && row_height * row >= 0) by (nonlinear_arith)
                requires
                    column >= 0,
                    row >= 0,
                    column_width >= 0,
                    row_height >= 0,
            ;
        }
        proof {
            assert(column_width <= column_width * columns) by (nonlinear_arith)
                requires
                    columns >= 1,
                    column_width >= 0,
            ;
            assert(row_height <= row_height * rc) by (nonlinear_arith)
                requires
                    rc >= 1,
                    row_height >= 0,
            ;
        }
        assert(images@[i as int].wf());
        assert(min_x(s) <= s[i as int].offset_x && s[i as int].width + s[i as int].offset_x <= max_x(s));
        assert(min_y(s) <= s[i as int].offset_y && s[i as int].height + s[i as int].offset_y <= max_y(s));
        let x = (column_width * column) - x_min + images[i].offset_x();
        let y = (row_height * row) - y_min + images[i].offset_y();
        coords.push((x, y));
        i = i + 1;
    }
    AtlasLayout { width, height, coords }
}


/// Each sprite of the sheet lies inside its own cell, so no two sprites overlap: sprite `i`
/// placed at its coordinates spans no more than cell `i % columns` of row `i / columns`.
pub proof fn lemma_sprite_in_cell(s: Seq<ImageView>, columns: int, i: int)
    requires
        columns > 0,
        0 <= i < s.len(),
        forall|k: int| 0 <= k < s.len() ==> 0 <= #[trigger] s[k].width && 0 <= s[k].height,
    ensures
        ({
            let cw = max_x(s) - min_x(s);
            let rh = max_y(s) - min_y(s);
            let column = i % columns;
            let row = i / columns;
            let x = cw * column - min_x(s) + s[i].offset_x;
            let y = rh * row - min_y(s) + s[i].offset_y;
            &&& cw * column <= x && x + s[i].width <= cw * (column + 1)
            &&& rh * row <= y && y + s[i].height <= rh * (row + 1)
        }),
{
    lemma_extents(s);
    let cw = max_x(s) - min_x(s);
    let rh = max_y(s) - min_y(s);
    let column = i % columns;
    let row = i / columns;
    assert(cw * (column + 1) == cw * column + cw) by (nonlinear_arith);
    assert(rh * (row + 1) == rh * row + rh) by (nonlinear_arith);
}


/// The entry of an object's image list for sprite `i` of car `car`'s sheet.
pub open spec fn sheet_entry(car: nat, img: ImageView, coords: (i32, i32), e: Image) -> bool {
    match e {
        Image::ImageFile(f) => {
            &&& f.path@ == "images/car_"@ + decimal(car) + ".png"@
            &&& f.x == Some(img.offset_x as i32) && f.y == Some(img.offset_y as i32)
            &&& f.src_x == Some(coords.0) && f.src_y == Some(coords.1)
            &&& f.src_width == Some(img.width as i32) && f.src_height == Some(img.height as i32)
            &&& f.format is None
            &&& f.palette == Some(PaletteType::Keep)
        },
        Image::String(_) => false,
    }
}

/// The entries of an object's image list for the sprites of car `car`, laid out on its sheet
/// as `layout` places them.
pub fn sheet_entries(car: usize, images: &[IndexedImage], layout: &AtlasLayout) -> (r: Vec<Image>)
    requires
        layout.coords@.len() == images@.len(),
    ensures
        r@.len() == images@.len(),
        forall|i: int|
            0 <= i < images@.len() ==> sheet_entry(car as nat, images@[i]@, layout.coords@[i], #[trigger] r@[i]),
{
    let mut out: Vec<Image> = Vec::new();
    let mut i: usize = 0;
    while i < images.len()
        invariant
            i <= images@.len(),
            layout.coords@.len() == images@.len(),
            out@.len() == i,
            forall|k: int|
                0 <= k < i ==> sheet_entry(car as nat, images@[k]@, layout.coords@[k], #[trigger] out@[k]),
        decreases images@.len() - i,
    {
        let image = &images[i];
        let (x, y) = layout.coords[i];
        let f = ImageFile {
            path: car_sheet_path(car),
            x: Some(image.offset_x()),
            y: Some(image.offset_y()),
            src_x: Some(x),
            src_y: Some(y),
            src_width: Some(image.width() as i32),
            src_height: Some(image.height() as i32),
            format: None,
            palette: Some(PaletteType::Keep),
        };
        out.push(Image::ImageFile(f));
        i = i + 1;
    }
    out
}

} // verus!
