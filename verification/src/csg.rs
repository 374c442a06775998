//! Sprite archives in the RCT2 `.dat` image format (`g1.dat`, `images.dat`).
use vstd::prelude::*;

use vstd::slice::slice_subrange;

use crate::le_bytes::{
    le_u16, le_u32, lemma_le_u16_bytes, lemma_le_u32_bytes, lemma_u16_le_roundtrip, lemma_u32_le_roundtrip,
    push_u16_le, push_u32_le, read_u16_le, read_u32_le, u16_le_bytes, u32_le_bytes,
};
use crate::rle::{
    blank, decode_rows, decode_runs, decode_sprite_data, lemma_decode_rows, stored_row_offset,
    encode_row, encode_rows, lemma_opaque_len_split, lemma_row_runs_first, lemma_runs_bytes_flag_last,
    row_encodable, row_offset, row_runs, run_plain, runs_bytes, runs_plain, sprite_encodable, sprite_row,
};

verus! {

/// One sprite of an archive: where its data starts, its size and drawing offset, and flags.
#[derive(Clone, Copy, Debug, PartialEq, Eq, Structural)]
pub struct Entry {
    pub data_offset: u32,
    pub width: u16,
    pub height: u16,
    pub offset_x: i16,
    pub offset_y: i16,
    pub flags: u16,
    pub zoom_offset: u16,
}

/// Added to all sprites that are not palettes, as for all vanilla sprites. OpenRCT2 does not
/// actually read it as transparency.
pub const ENTRY_FLAG_TRANSPARENT: u16 = 1;

/// The sprite's data is run-length encoded.
pub const ENTRY_FLAG_RLE: u16 = 4;

impl Entry {
    pub open spec fn is_rle(self) -> bool {
        self.flags & ENTRY_FLAG_RLE != 0
    }

    pub open spec fn is_transparent(self) -> bool {
        self.flags & ENTRY_FLAG_TRANSPARENT != 0
    }
}

/// A sprite in run-length encoded form, ready to be added to an archive.
pub struct EncodedSprite {
    width: u16,
    height: u16,
    row_offsets: Vec<i16>,
    data: Vec<u8>,
}

/// The row offset table and run data that encoding `pixels` gives.
pub open spec fn encoded_row_offsets(pixels: Seq<u8>, width: int, height: int) -> Seq<i16> {
    Seq::new(height as nat, |y: int| row_offset(pixels, width, height, y) as i16)
}

impl EncodedSprite {
    pub closed spec fn spec_width(&self) -> u16 {
        self.width
    }

    pub closed spec fn spec_height(&self) -> u16 {
        self.height
    }

    pub closed spec fn spec_row_offsets(&self) -> Seq<i16> {
        self.row_offsets@
    }

    pub closed spec fn spec_data(&self) -> Seq<u8> {
        self.data@
    }

    /// Encodes the first `width * height` pixels, row by row.
    pub fn new(pixels: &[u8], width: u16, height: u16) -> (r: Self)
        requires
            sprite_encodable(pixels@, width as int, height as int),
        ensures
            r.spec_width() == width,
            r.spec_height() == height,
            r.spec_row_offsets() == encoded_row_offsets(pixels@, width as int, height as int),
            r.spec_data() == encode_rows(pixels@, width as int, height as int),
    {
        let mut row_offsets: Vec<i16> = Vec::with_capacity(height as usize);
        let mut data: Vec<u8> = Vec::new();
        let mut y: usize = 0;
        while y < height as usize
            invariant
                y <= height,
                sprite_encodable(pixels@, width as int, height as int),
                data@ == encode_rows(pixels@, width as int, y as int),
                row_offsets@ == encoded_row_offsets(pixels@, width as int, height as int).take(y as int),
            decreases height - y,
        {
            assert(row_offset(pixels@, width as int, height as int, y as int) <= 0x7fff);
            let offset = (height as usize) * 2 + data.len();
            row_offsets.push(offset as i16);
            proof {
                let w = width as int;
                let h = height as int;
                let yy = y as int;
                assert((yy + 1) * w <= h * w) by (nonlinear_arith)
                    requires
                        yy + 1 <= h,
                        w >= 0,
                ;
                assert((yy + 1) * w == yy * w + w) by (nonlinear_arith);
                assert(h * w == w * h) by (nonlinear_arith);
                assert(row_encodable(sprite_row(pixels@, w, yy)));
            }
            encode_row_into(&mut data, pixels, width, y);
            assert(row_offsets@ =~= encoded_row_offsets(pixels@, width as int, height as int).take(
                y + 1,
            ));
            y = y + 1;
        }
        assert(row_offsets@ =~= encoded_row_offsets(pixels@, width as int, height as int));
        EncodedSprite { width, height, row_offsets, data }
    }
}

/// Appends the count byte, the x offset byte and the pixels of one run.
fn push_run(data: &mut Vec<u8>, pixels: &[u8], row_start: usize, x_offset: usize, count: usize)
    requires
        count <= 127,
        x_offset <= 255,
        row_start + x_offset + count <= pixels@.len(),
    ensures
        final(data)@ == old(data)@ + seq![count as u8, x_offset as u8] + pixels@.subrange(
            row_start + x_offset,
            row_start + x_offset + count,
        ),
{
    let n = pixels.len();
    assert(n == pixels@.len());
    data.push(count as u8);
    data.push(x_offset as u8);
    let mut i: usize = 0;
    while i < count
        invariant
            i <= count,
            n == pixels@.len(),
            row_start + x_offset + count <= pixels@.len(),
            data@ == old(data)@ + seq![count as u8, x_offset as u8] + pixels@.subrange(
                row_start + x_offset,
                row_start + x_offset + i,
            ),
        decreases count - i,
    {
        data.push(pixels[row_start + x_offset + i]);
        i = i + 1;
        assert(data@ =~= old(data)@ + seq![count as u8, x_offset as u8] + pixels@.subrange(
            row_start + x_offset,
            row_start + x_offset + i,
        ));
    }
}

/// Appends the encoding of row `y`.
fn encode_row_into(data: &mut Vec<u8>, pixels: &[u8], width: u16, y: usize)
    requires
        (y as int) * (width as int) + width <= pixels@.len(),
        row_encodable(sprite_row(pixels@, width as int, y as int)),
    ensures
        final(data)@ == old(data)@ + encode_row(sprite_row(pixels@, width as int, y as int)),
{
    let ghost row = sprite_row(pixels@, width as int, y as int);
    let ghost start = old(data)@;
    let w = width as usize;
    let n = pixels.len();
    assert(n == pixels@.len());
    let row_start = y * w;
    let mut last_count_index: Option<usize> = None;
    let mut x_offset: usize = 0;
    let mut pixel_count: usize = 0;
    let ghost mut completed: Seq<(int, int)> = seq![];
    let mut x: usize = 0;
    while x < w
        invariant
            x <= w,
            w == width,
            row_start == (y as int) * (width as int),
            row_start + w <= pixels@.len(),
            n == pixels@.len(),
            row == pixels@.subrange(row_start as int, row_start + w),
            row_encodable(row),
            data@ == start + runs_plain(row, completed),
            forall|k: int| 0 <= k < completed.len() ==> 0 <= #[trigger] completed[k].1 <= 127,
            pixel_count == 0 ==> x_offset == 0 && completed + row_runs(row, x as int) == row_runs(row, 0),
            pixel_count > 0 ==> {
                &&& pixel_count < 127
                &&& x_offset + pixel_count == x
                &&& completed + row_runs(row, x_offset as int) == row_runs(row, 0)
                &&& forall|i: int| x_offset <= i < x ==> row[i] != 0
            },
            last_count_index is None <==> completed.len() == 0,
            last_count_index matches Some(i) ==> i == start.len() + runs_plain(
                row,
                completed.drop_last(),
            ).len(),
        decreases w - x,
    {
        let p = pixels[row_start + x];
        assert(row[x as int] == p);
        if p == 0 {
            if pixel_count != 0 {
                proof {
                    lemma_opaque_len_split(row, x_offset as int, x as int);
                    lemma_row_runs_first(row, x_offset as int);
                    assert(row_runs(row, x_offset as int)[0] == (x_offset as int, pixel_count as int));
                    assert(row_runs(row, x as int) == row_runs(row, x + 1));
                    assert(row_runs(row, 0)[completed.len() as int] == (
                        x_offset as int,
                        pixel_count as int,
                    ));
                    assert(row_runs(row, 0)[completed.len() as int].0 <= 255);
                }
                let ghost before = data@;
                last_count_index = Some(data.len());
                push_run(data, pixels, row_start, x_offset, pixel_count);
                proof {
                    let r = (x_offset as int, pixel_count as int);
                    let c2 = completed.push(r);
                    assert(c2.drop_last() =~= completed);
                    assert(row.subrange(r.0, r.0 + r.1) =~= pixels@.subrange(
                        row_start + x_offset,
                        row_start + x_offset + pixel_count,
                    ));
                    assert(data@ =~= start + runs_plain(row, c2));
                    assert(c2 + row_runs(row, x + 1) =~= completed + row_runs(row, x_offset as int));
                    completed = c2;
                }
                x_offset = 0;
                pixel_count = 0;
            } else {
                assert(row_runs(row, x as int) == row_runs(row, x + 1));
            }
        } else {
            if pixel_count == 0 {
                x_offset = x;
            }
            pixel_count = pixel_count + 1;
        }
        if pixel_count == 127 {
            proof {
                lemma_opaque_len_split(row, x_offset as int, x + 1);
                lemma_row_runs_first(row, x_offset as int);
                assert(row_runs(row, x_offset as int)[0] == (x_offset as int, 127int));
                assert(row_runs(row, 0)[completed.len() as int] == (x_offset as int, 127int));
                assert(row_runs(row, 0)[completed.len() as int].0 <= 255);
            }
            last_count_index = Some(data.len());
            push_run(data, pixels, row_start, x_offset, pixel_count);
            proof {
                let r = (x_offset as int, 127int);
                let c2 = completed.push(r);
                assert(c2.drop_last() =~= completed);
                assert(row.subrange(r.0, r.0 + r.1) =~= pixels@.subrange(
                    row_start + x_offset,
                    row_start + x_offset + pixel_count,
                ));
                assert(data@ =~= start + runs_plain(row, c2));
                assert(c2 + row_runs(row, x + 1) =~= completed + row_runs(row, x_offset as int));
                completed = c2;
            }
            x_offset = 0;
            pixel_count = 0;
        }
        x = x + 1;
    }
    // The row ends: close the open run, or store an empty run for a row without one.
    let ghost empty_row = pixel_count == 0 && completed.len() == 0;
    assert(row_runs(row, w as int) =~= Seq::<(int, int)>::empty());
    if pixel_count > 0 || last_count_index.is_none() {
        proof {
            if pixel_count > 0 {
                lemma_opaque_len_split(row, x_offset as int, x as int);
                lemma_row_runs_first(row, x_offset as int);
                assert(row_runs(row, x_offset as int)[0] == (x_offset as int, pixel_count as int));
                assert(row_runs(row, 0)[completed.len() as int] == (
                    x_offset as int,
                    pixel_count as int,
                ));
                assert(row_runs(row, 0)[completed.len() as int].0 <= 255);
            }
        }
        last_count_index = Some(data.len());
        push_run(data, pixels, row_start, x_offset, pixel_count);
        proof {
            let r = (x_offset as int, pixel_count as int);
            let c2 = completed.push(r);
            assert(c2.drop_last() =~= completed);
            assert(row.subrange(r.0, r.0 + r.1) =~= pixels@.subrange(
                row_start + x_offset,
                row_start + x_offset + pixel_count,
            ));
            assert(data@ =~= start + runs_plain(row, c2));
            completed = c2;
        }
    }
    assert(completed.len() > 0);
    proof {
        lemma_runs_bytes_flag_last(row, completed);
    }
    match last_count_index {
        Some(i) => {
            let ghost r = completed.last();
            assert(i == start.len() + runs_plain(row, completed.drop_last()).len());
            assert(data@[i as int] == r.1 as u8) by {
                assert(runs_plain(row, completed) =~= runs_plain(row, completed.drop_last())
                    + run_plain(row, r));
            }
            let b = data[i];
            assert(b <= 127 ==> b | 0x80 == b + 128) by (bit_vector);
            data.set(i, b | 0x80);
            assert(data@ =~= start + runs_bytes(row, completed));
            proof {
                if empty_row {
                    assert(completed =~= seq![(0int, 0int)]);
                    assert(completed.drop_first() =~= Seq::<(int, int)>::empty());
                    assert(runs_bytes(row, completed.drop_first()) =~= Seq::<u8>::empty());
                    assert(runs_bytes(row, completed) =~= seq![128u8, 0u8]);
                    assert(data@ =~= start + encode_row(row));
                } else {
                    assert(completed =~= row_runs(row, 0));
                    assert(data@ =~= start + encode_row(row));
                }
            }
        },
        None => {},
    }
}


/// The little-endian bytes of each value, one after the other.
pub open spec fn le_i16s(values: Seq<i16>) -> Seq<u8>
    decreases values.len(),
{
    if values.len() == 0 {
        seq![]
    } else {
        le_i16s(values.drop_last()) + u16_le_bytes(values.last() as u16)
    }
}

/// The pixels of a sprite as stored in an archive.
pub enum Pixels<'a> {
    Uncompressed(&'a [u8]),
    Compressed(Vec<u8>),
}

/// What a [`Pixels`] value holds.
pub ghost enum PixelsView {
    Uncompressed(Seq<u8>),
    Compressed(Seq<u8>),
}

impl<'a> View for Pixels<'a> {
    type V = PixelsView;

    open spec fn view(&self) -> PixelsView {
        match self {
            Pixels::Uncompressed(s) => PixelsView::Uncompressed(s@),
            Pixels::Compressed(v) => PixelsView::Compressed(v@),
        }
    }
}

/// A sprite archive: sprite entries and the data they point into.
pub struct Archive {
    entries: Vec<Entry>,
    data: Vec<u8>,
}

/// What an archive holds.
pub ghost struct ArchiveView {
    pub entries: Seq<Entry>,
    pub data: Seq<u8>,
}

impl View for Archive {
    type V = ArchiveView;

    closed spec fn view(&self) -> ArchiveView {
        ArchiveView { entries: self.entries@, data: self.data@ }
    }
}

/// The pixels of the sprite that `entry` describes, decoded from `data`.
pub open spec fn spec_decode_sprite(data: Seq<u8>, entry: Entry) -> Option<Seq<u8>> {
    decode_sprite_data(data, entry.data_offset as int, entry.width as int, entry.height as int)
}

/// What [`Archive::get_pixels`] gives for `entry`: decoded pixels for run-length encoded
/// sprites, the stored bytes for other transparent-flagged sprites, and `None` otherwise
/// or where the data does not hold them.
pub open spec fn spec_get_pixels(data: Seq<u8>, entry: Entry) -> Option<PixelsView> {
    if entry.is_rle() {
        match spec_decode_sprite(data, entry) {
            Some(p) => Some(PixelsView::Compressed(p)),
            None => None,
        }
    } else if entry.is_transparent() {
        let index = entry.data_offset as int;
        let size = entry.width as int * entry.height as int;
        if index + size > data.len() {
            None
        } else {
            Some(PixelsView::Uncompressed(data.subrange(index, index + size)))
        }
    } else {
        None
    }
}

/// The entry that [`Archive::add_sprite`] and [`Archive::add_encoded_sprite`] record.
pub open spec fn added_entry(data_offset: int, width: u16, height: u16, x: i32, y: i32, flags: u16) -> Entry {
    Entry {
        data_offset: data_offset as u32,
        width,
        height,
        offset_x: x as i16,
        offset_y: y as i16,
        flags,
        zoom_offset: 0,
    }
}

impl Archive {
    /// An empty archive.
    pub fn with_capacity(capacity: usize) -> (r: Self)
        ensures
            r@.entries == Seq::<Entry>::empty(),
            r@.data == Seq::<u8>::empty(),
    {
        Archive { entries: Vec::with_capacity(capacity), data: Vec::new() }
    }

    /// Adds an uncompressed sprite of `width * height` pixels drawn at offset `(x, y)`.
    pub fn add_sprite(&mut self, pixels: &[u8], width: u16, height: u16, x: i32, y: i32)
        requires
            pixels@.len() == width * height,
            old(self)@.data.len() <= u32::MAX,
            i16::MIN <= x <= i16::MAX,
            i16::MIN <= y <= i16::MAX,
        ensures
            final(self)@.entries == old(self)@.entries.push(
                added_entry(old(self)@.data.len() as int, width, height, x, y, ENTRY_FLAG_TRANSPARENT),
            ),
            final(self)@.data == old(self)@.data + pixels@,
    {
        self.entries.push(
            Entry {
                data_offset: self.data.len() as u32,
                width,
                height,
                offset_x: x as i16,
                offset_y: y as i16,
                flags: ENTRY_FLAG_TRANSPARENT,
                zoom_offset: 0,
            },
        );
        let ghost before = self.data@;
        let ghost entries_after = self.entries@;
        let mut i: usize = 0;
        while i < pixels.len()
            invariant
                i <= pixels@.len(),
                self.entries@ == entries_after,
                self.data@ == before + pixels@.take(i as int),
            decreases pixels@.len() - i,
        {
            self.data.push(pixels[i]);
            i = i + 1;
            assert(self.data@ =~= before + pixels@.take(i as int));
        }
        assert(pixels@.take(pixels@.len() as int) =~= pixels@);
    }

    /// Adds a run-length encoded sprite drawn at offset `(x, y)`: its row offset table
    /// (little-endian), then its run data.
    pub fn add_encoded_sprite(&mut self, encoded_sprite: &EncodedSprite, x: i32, y: i32)
        requires
            old(self)@.data.len() <= u32::MAX,
            i16::MIN <= x <= i16::MAX,
            i16::MIN <= y <= i16::MAX,
        ensures
            final(self)@.entries == old(self)@.entries.push(
                added_entry(
                    old(self)@.data.len() as int,
                    encoded_sprite.spec_width(),
                    encoded_sprite.spec_height(),
                    x,
                    y,
                    ENTRY_FLAG_TRANSPARENT | ENTRY_FLAG_RLE,
                ),
            ),
            final(self)@.data == old(self)@.data + le_i16s(encoded_sprite.spec_row_offsets())
                + encoded_sprite.spec_data(),
    {
        self.entries.push(
            Entry {
                data_offset: self.data.len() as u32,
                width: encoded_sprite.width,
                height: encoded_sprite.height,
                offset_x: x as i16,
                offset_y: y as i16,
                flags: ENTRY_FLAG_TRANSPARENT | ENTRY_FLAG_RLE,
                zoom_offset: 0,
            },
        );
        let ghost before = self.data@;
        let ghost entries_after = self.entries@;
        let offsets = &encoded_sprite.row_offsets;
        let mut i: usize = 0;
        while i < offsets.len()
            invariant
                i <= offsets@.len(),
                self.entries@ == entries_after,
                self.data@ == before + le_i16s(offsets@.take(i as int)),
            decreases offsets@.len() - i,
        {
            push_u16_le(&mut self.data, offsets[i] as u16);
            i = i + 1;
            assert(offsets@.take(i as int).drop_last() =~= offsets@.take(i - 1));
            assert(self.data@ =~= before + le_i16s(offsets@.take(i as int)));
        }
        assert(offsets@.take(offsets@.len() as int) =~= offsets@);
        let ghost middle = self.data@;
        let bytes = &encoded_sprite.data;
        let mut j: usize = 0;
        while j < bytes.len()
            invariant
                j <= bytes@.len(),
                self.entries@ == entries_after,
                self.data@ == middle + bytes@.take(j as int),
            decreases bytes@.len() - j,
        {
            self.data.push(bytes[j]);
            j = j + 1;
            assert(self.data@ =~= middle + bytes@.take(j as int));
        }
        assert(bytes@.take(bytes@.len() as int) =~= bytes@);
    }

    /// Decodes a run-length encoded sprite; `None` when its data does not fit the archive
    /// or the sprite.
    pub fn decode_sprite(&self, entry: &Entry) -> (r: Option<Vec<u8>>)
        requires
            entry.is_rle(),
        ensures
            r is Some <==> spec_decode_sprite(self@.data, *entry) is Some,
            r matches Some(v) ==> spec_decode_sprite(self@.data, *entry) == Some(v@),
    {
        let data = self.data.as_slice();
        let ghost d = data@;
        let width = entry.width as usize;
        let height = entry.height as usize;
        let data_index = entry.data_offset as usize;
        let size = height * 2;
        if data_index > data.len() || size > data.len() - data_index {
            return None;
        }
        let dlen = data.len();
        let ghost w = width as int;
        let ghost h = height as int;
        let ghost off = data_index as int;
        assert(w * h <= 4294836225) by (nonlinear_arith)
            requires
                0 <= w <= 0xffff,
                0 <= h <= 0xffff,
        ;
        let total = width * height;
        assert(spec_decode_sprite(self@.data, *entry) == decode_rows(d, off, w, h, 0, blank(total as int)));
        let mut pixels: Vec<u8> = Vec::with_capacity(total);
        let mut k: usize = 0;
        while k < total
            invariant
                k <= total,
                pixels@ == blank(k as int),
            decreases total - k,
        {
            pixels.push(0);
            k = k + 1;
            assert(pixels@ =~= blank(k as int));
        }
        let mut y: usize = 0;
        while y < height
            invariant
                d == data@,
                dlen == d.len(),
                w == width,
                h == height,
                off == data_index,
                total == w * h,
                w * h <= 4294836225,
                off + 2 * h <= d.len(),
                y <= h,
                pixels@.len() == total,
                decode_rows(d, off, w, h, 0, blank(total as int)) == decode_rows(d, off, w, h, y as int, pixels@),
                spec_decode_sprite(self@.data, *entry) == decode_rows(d, off, w, h, 0, blank(total as int)),
            decreases h - y,
        {
            let row_offset = read_u16_le(data, data_index + 2 * y) as usize;
            assert(row_offset == stored_row_offset(d, off, y as int));
            if row_offset > data.len() - data_index {
                assert(decode_rows(d, off, w, h, y as int, pixels@) is None);
                return None;
            }
            assert(y * w <= h * w - w) by (nonlinear_arith)
                requires
                    0 <= y < h,
                    0 <= w,
            ;
            assert(h * w == w * h) by (nonlinear_arith);
            let base = y * width;
            let mut pos = data_index + row_offset;
            let ghost row_start = pos as int;
            let ghost start_pixels = pixels@;
            loop
                invariant_except_break
                    decode_runs(d, row_start, start_pixels, base as int) == decode_runs(d, pos as int, pixels@, base as int),
                invariant
                    d == data@,
                    dlen == d.len(),
                    total <= 4294836225,
                    row_start == off + stored_row_offset(d, off, y as int),
                    decode_rows(d, off, w, h, 0, blank(total as int)) == decode_rows(d, off, w, h, y as int, start_pixels),
                    spec_decode_sprite(self@.data, *entry) == decode_rows(d, off, w, h, 0, blank(total as int)),
                    y < h,
                    pos <= d.len(),
                    pixels@.len() == total,
                    base + w <= total,
                    w == width,
                    base == y * w,
                ensures
                    decode_runs(d, row_start, start_pixels, base as int) == Some(pixels@),
                decreases d.len() - pos,
            {
                if data.len() - pos < 2 {
                    return None;
                }
                let b = data[pos];
                let count = (b & 0x7f) as usize;
                let end = (b & 0x80) != 0;
                assert(b & 0x7f == b % 128 && ((b & 0x80) != 0) == (b >= 128)) by (bit_vector);
                let x = data[pos + 1] as usize;
                assert(x <= 255);
                assert(base + x <= 4294836225 + 255);
                let index = base + x;
                if index > pixels.len() || count > pixels.len() - index {
                    return None;
                }
                if count > data.len() - (pos + 2) {
                    return None;
                }
                let ghost before = pixels@;
                let mut i: usize = 0;
                while i < count
                    invariant
                        d == data@,
                        dlen == d.len(),
                        before.len() == total,
                        total <= 4294836225,
                        i <= count,
                        index + count <= before.len(),
                        pos + 2 + count <= d.len(),
                        pixels@ == before.take(index as int) + d.subrange(pos + 2, pos + 2 + i)
                            + before.skip(index + i),
                    decreases count - i,
                {
                    pixels.set(index + i, data[pos + 2 + i]);
                    i = i + 1;
                    assert(pixels@ =~= before.take(index as int) + d.subrange(pos + 2, pos + 2 + i)
                        + before.skip(index + i));
                }
                pos = pos + 2 + count;
                if end {
                    break;
                }
            }
            y = y + 1;
        }
        Some(pixels)
    }

    /// The pixels of the sprite that `entry` describes.
    pub fn get_pixels(&self, entry: &Entry) -> (r: Option<Pixels<'_>>)
        requires
            entry.is_rle() || !entry.is_transparent() || entry.width * entry.height <= u16::MAX,
        ensures
            r is Some <==> spec_get_pixels(self@.data, *entry) is Some,
            r matches Some(p) ==> spec_get_pixels(self@.data, *entry) == Some(p@),
    {
        if entry.flags & ENTRY_FLAG_RLE != 0 {
            match self.decode_sprite(entry) {
                Some(pixels) => Some(Pixels::Compressed(pixels)),
                None => None,
            }
        } else if entry.flags & ENTRY_FLAG_TRANSPARENT != 0 {
            let index = entry.data_offset as usize;
            let data_size = (entry.width * entry.height) as usize;
            if index > self.data.len() || data_size > self.data.len() - index {
                None
            } else {
                Some(Pixels::Uncompressed(slice_subrange(self.data.as_slice(), index, index + data_size)))
            }
        } else {
            None
        }
    }

    /// The archive's entries.
    pub fn entries(&self) -> (r: &[Entry])
        ensures
            r@ == self@.entries,
    {
        self.entries.as_slice()
    }

    /// The number of sprites.
    pub fn len(&self) -> (r: usize)
        ensures
            r == self@.entries.len(),
    {
        self.entries.len()
    }

    /// Whether the archive holds no sprite.
    pub fn is_empty(&self) -> (r: bool)
        ensures
            r == (self@.entries.len() == 0),
    {
        self.entries.len() == 0
    }
}


/// Each value takes two bytes.
pub proof fn lemma_le_i16s_len(values: Seq<i16>)
    ensures
        le_i16s(values).len() == 2 * values.len(),
    decreases values.len(),
{
    if values.len() > 0 {
        lemma_le_i16s_len(values.drop_last());
    }
}

/// Bytes `2k` and `2k + 1` hold value `k`.
pub proof fn lemma_le_i16s_index(values: Seq<i16>, k: int)
    requires
        0 <= k < values.len(),
    ensures
        le_i16s(values)[2 * k] == u16_le_bytes(values[k] as u16)[0],
        le_i16s(values)[2 * k + 1] == u16_le_bytes(values[k] as u16)[1],
    decreases values.len(),
{
    lemma_le_i16s_len(values.drop_last());
    if k < values.len() - 1 {
        lemma_le_i16s_index(values.drop_last(), k);
    }
}

/// Run-length encoding loses nothing: the sprite that `add_encoded_sprite` stores for
/// `EncodedSprite::new(pixels, width, height)`, after any archive data, decodes to `pixels`.
pub proof fn lemma_encoded_sprite_roundtrip(
    prefix: Seq<u8>,
    pixels: Seq<u8>,
    width: u16,
    height: u16,
    x: i32,
    y: i32,
)
    requires
        sprite_encodable(pixels, width as int, height as int),
        pixels.len() == width * height,
        prefix.len() <= u32::MAX,
    ensures
        spec_get_pixels(
            prefix + le_i16s(encoded_row_offsets(pixels, width as int, height as int)) + encode_rows(
                pixels,
                width as int,
                height as int,
            ),
            added_entry(prefix.len() as int, width, height, x, y, ENTRY_FLAG_TRANSPARENT | ENTRY_FLAG_RLE),
        ) == Some(PixelsView::Compressed(pixels)),
{
    let w = width as int;
    let h = height as int;
    let offsets = encoded_row_offsets(pixels, w, h);
    let table = le_i16s(offsets);
    let enc = encode_rows(pixels, w, h);
    let data = prefix + table + enc;
    let off = prefix.len() as int;
    let entry = added_entry(off, width, height, x, y, ENTRY_FLAG_TRANSPARENT | ENTRY_FLAG_RLE);
    assert((1u16 | 4u16) & 4u16 != 0) by (bit_vector);
    assert(entry.is_rle());
    lemma_le_i16s_len(offsets);
    assert(entry.data_offset as int == off);
    assert forall|k: int| 0 <= k < h implies #[trigger] stored_row_offset(data, off, k) == row_offset(
        pixels,
        w,
        h,
        k,
    ) by {
        lemma_le_i16s_index(offsets, k);
        let ro = row_offset(pixels, w, h, k);
        assert(0 <= ro <= 0x7fff);
        assert(offsets[k] == ro as i16);
        assert((ro as i16) as u16 == ro);
        lemma_u16_le_roundtrip(ro as u16);
        assert(data[off + 2 * k] == table[2 * k]);
        assert(data[off + 2 * k + 1] == table[2 * k + 1]);
    }
    assert(data.subrange(off + 2 * h, off + 2 * h + enc.len()) =~= enc);
    assert(pixels.take(0 * w) + blank(w * h - 0 * w) =~= blank(w * h));
    lemma_decode_rows(data, off, pixels, w, h, 0);
}

/// A sprite added with `add_sprite`, after any archive data, reads back as its pixels.
pub proof fn lemma_sprite_roundtrip(prefix: Seq<u8>, pixels: Seq<u8>, width: u16, height: u16, x: i32, y: i32)
    requires
        pixels.len() == width * height,
        prefix.len() <= u32::MAX,
    ensures
        spec_get_pixels(
            prefix + pixels,
            added_entry(prefix.len() as int, width, height, x, y, ENTRY_FLAG_TRANSPARENT),
        ) == Some(PixelsView::Uncompressed(pixels)),
{
    assert(1u16 & 4u16 == 0 && 1u16 & 1u16 != 0) by (bit_vector);
    assert((prefix + pixels).subrange(prefix.len() as int, (prefix.len() + pixels.len()) as int) =~= pixels);
}


// ----------------------------------------------------------------------------------------------
// The archive file format: entry count and data size (little-endian `u32`), the entries
// (16 bytes each), then the data.

/// The 16 bytes of an entry.
pub open spec fn entry_bytes(e: Entry) -> Seq<u8> {
    u32_le_bytes(e.data_offset) + u16_le_bytes(e.width) + u16_le_bytes(e.height) + u16_le_bytes(
        e.offset_x as u16,
    ) + u16_le_bytes(e.offset_y as u16) + u16_le_bytes(e.flags) + u16_le_bytes(e.zoom_offset)
}

/// The bytes of the entries, one after the other.
pub open spec fn entries_bytes(es: Seq<Entry>) -> Seq<u8>
    decreases es.len(),
{
    if es.len() == 0 {
        seq![]
    } else {
        entries_bytes(es.drop_last()) + entry_bytes(es.last())
    }
}

/// The bytes of an archive file.
pub open spec fn archive_bytes(a: ArchiveView) -> Seq<u8> {
    u32_le_bytes(a.entries.len() as u32) + u32_le_bytes(a.data.len() as u32) + entries_bytes(a.entries)
        + a.data
}

/// The entry stored in the 16 bytes at `at`.
pub open spec fn parse_entry(b: Seq<u8>, at: int) -> Entry {
    Entry {
        data_offset: le_u32(b[at], b[at + 1], b[at + 2], b[at + 3]) as u32,
        width: le_u16(b[at + 4], b[at + 5]) as u16,
        height: le_u16(b[at + 6], b[at + 7]) as u16,
        offset_x: (le_u16(b[at + 8], b[at + 9]) as u16) as i16,
        offset_y: (le_u16(b[at + 10], b[at + 11]) as u16) as i16,
        flags: le_u16(b[at + 12], b[at + 13]) as u16,
        zoom_offset: le_u16(b[at + 14], b[at + 15]) as u16,
    }
}

/// The number of bytes an archive file with `count` entries and `size` data bytes takes.
pub open spec fn archive_file_len(count: int, size: int) -> int {
    8 + 16 * count + size
}

/// The archive that the bytes `b` begin with; `None` when they are too short for it.
/// Bytes after the archive are ignored.
pub open spec fn spec_parse_archive(b: Seq<u8>) -> Option<ArchiveView> {
    if b.len() < 8 {
        None
    } else {
        let count = le_u32(b[0], b[1], b[2], b[3]);
        let size = le_u32(b[4], b[5], b[6], b[7]);
        if archive_file_len(count, size) > b.len() {
            None
        } else {
            Some(
                ArchiveView {
                    entries: Seq::new(count as nat, |i: int| parse_entry(b, 8 + 16 * i)),
                    data: b.subrange(8 + 16 * count, archive_file_len(count, size)),
                },
            )
        }
    }
}

/// Reads the entry stored at `at`.
fn read_entry(bytes: &[u8], at: usize) -> (r: Entry)
    requires
        at + 16 <= bytes@.len(),
    ensures
        r == parse_entry(bytes@, at as int),
{
    let n = bytes.len();
    assert(n == bytes@.len());
    Entry {
        data_offset: read_u32_le(bytes, at),
        width: read_u16_le(bytes, at + 4),
        height: read_u16_le(bytes, at + 6),
        offset_x: #[verifier::truncate] (read_u16_le(bytes, at + 8) as i16),
        offset_y: #[verifier::truncate] (read_u16_le(bytes, at + 10) as i16),
        flags: read_u16_le(bytes, at + 12),
        zoom_offset: read_u16_le(bytes, at + 14),
    }
}

/// Appends the 16 bytes of an entry.
fn push_entry(out: &mut Vec<u8>, e: &Entry)
    ensures
        final(out)@ == old(out)@ + entry_bytes(*e),
{
    push_u32_le(out, e.data_offset);
    push_u16_le(out, e.width);
    push_u16_le(out, e.height);
    push_u16_le(out, e.offset_x as u16);
    push_u16_le(out, e.offset_y as u16);
    push_u16_le(out, e.flags);
    push_u16_le(out, e.zoom_offset);
    assert(final(out)@ =~= old(out)@ + entry_bytes(*e));
}

impl Archive {
    /// Reads an archive from the bytes of an archive file.
    pub fn from_bytes(bytes: &[u8]) -> (r: Option<Archive>)
        ensures
            r is Some <==> spec_parse_archive(bytes@) is Some,
            r matches Some(a) ==> spec_parse_archive(bytes@) == Some(a@),
    {
        let len = bytes.len();
        if len < 8 {
            return None;
        }
        let count = read_u32_le(bytes, 0);
        let size = read_u32_le(bytes, 4);
        let need: u64 = 8 + 16 * (count as u64) + (size as u64);
        if need > len as u64 {
            return None;
        }
        let count = count as usize;
        let size = size as usize;
        let mut entries: Vec<Entry> = Vec::with_capacity(count);
        let mut i: usize = 0;
        while i < count
            invariant
                len == bytes@.len(),
                8 + 16 * count + size <= len,
                i <= count,
                entries@ =~= Seq::new(i as nat, |k: int| parse_entry(bytes@, 8 + 16 * k)),
            decreases count - i,
        {
            let e = read_entry(bytes, 8 + 16 * i);
            entries.push(e);
            i = i + 1;
        }
        let start = 8 + 16 * count;
        let mut data: Vec<u8> = Vec::with_capacity(size);
        let mut j: usize = 0;
        while j < size
            invariant
                len == bytes@.len(),
                start + size <= len,
                j <= size,
                data@ =~= bytes@.subrange(start as int, start + j),
            decreases size - j,
        {
            data.push(bytes[start + j]);
            j = j + 1;
        }
        Some(Archive { entries, data })
    }

    /// The bytes of the archive file; `None` when the entry count or the data size does not
    /// fit a `u32`.
    pub fn to_bytes(&self) -> (r: Option<Vec<u8>>)
        ensures
            r is Some <==> (self@.entries.len() <= u32::MAX && self@.data.len() <= u32::MAX),
            r matches Some(v) ==> v@ == archive_bytes(self@),
    {
        if self.entries.len() > u32::MAX as usize || self.data.len() > u32::MAX as usize {
            return None;
        }
        let mut out: Vec<u8> = Vec::new();
        push_u32_le(&mut out, self.entries.len() as u32);
        push_u32_le(&mut out, self.data.len() as u32);
        let ghost header = out@;
        let mut i: usize = 0;
        while i < self.entries.len()
            invariant
                i <= self.entries@.len(),
                out@ == header + entries_bytes(self.entries@.take(i as int)),
            decreases self.entries@.len() - i,
        {
            push_entry(&mut out, &self.entries[i]);
            i = i + 1;
            assert(self.entries@.take(i as int).drop_last() =~= self.entries@.take(i - 1));
        }
        assert(self.entries@.take(self.entries@.len() as int) =~= self.entries@);
        let ghost middle = out@;
        let mut j: usize = 0;
        while j < self.data.len()
            invariant
                j <= self.data@.len(),
                out@ == middle + self.data@.take(j as int),
            decreases self.data@.len() - j,
        {
            out.push(self.data[j]);
            j = j + 1;
            assert(out@ =~= middle + self.data@.take(j as int));
        }
        assert(self.data@.take(self.data@.len() as int) =~= self.data@);
        Some(out)
    }
}

/// Each entry takes sixteen bytes.
pub proof fn lemma_entries_bytes_len(es: Seq<Entry>)
    ensures
        entries_bytes(es).len() == 16 * es.len(),
    decreases es.len(),
{
    if es.len() > 0 {
        lemma_entries_bytes_len(es.drop_last());
    }
}

/// Entry `k` is stored at bytes `16k..16k + 16`.
pub proof fn lemma_entries_bytes_index(es: Seq<Entry>, k: int)
    requires
        0 <= k < es.len(),
    ensures
        entries_bytes(es).subrange(16 * k, 16 * k + 16) == entry_bytes(es[k]),
    decreases es.len(),
{
    lemma_entries_bytes_len(es.drop_last());
    if k < es.len() - 1 {
        lemma_entries_bytes_index(es.drop_last(), k);
        assert(entries_bytes(es).subrange(16 * k, 16 * k + 16) =~= entries_bytes(es.drop_last()).subrange(
            16 * k,
            16 * k + 16,
        ));
    } else {
        assert(entries_bytes(es).subrange(16 * k, 16 * k + 16) =~= entry_bytes(es[k]));
    }
}

/// The 16 bytes of an entry, one by one.
pub proof fn lemma_entry_bytes_unfold(e: Entry)
    ensures
        entry_bytes(e) == seq![
            u32_le_bytes(e.data_offset)[0], u32_le_bytes(e.data_offset)[1],
            u32_le_bytes(e.data_offset)[2], u32_le_bytes(e.data_offset)[3],
            u16_le_bytes(e.width)[0], u16_le_bytes(e.width)[1],
            u16_le_bytes(e.height)[0], u16_le_bytes(e.height)[1],
            u16_le_bytes(e.offset_x as u16)[0], u16_le_bytes(e.offset_x as u16)[1],
            u16_le_bytes(e.offset_y as u16)[0], u16_le_bytes(e.offset_y as u16)[1],
            u16_le_bytes(e.flags)[0], u16_le_bytes(e.flags)[1],
            u16_le_bytes(e.zoom_offset)[0], u16_le_bytes(e.zoom_offset)[1],
        ],
{
    assert(entry_bytes(e) =~= seq![
        u32_le_bytes(e.data_offset)[0], u32_le_bytes(e.data_offset)[1],
        u32_le_bytes(e.data_offset)[2], u32_le_bytes(e.data_offset)[3],
        u16_le_bytes(e.width)[0], u16_le_bytes(e.width)[1],
        u16_le_bytes(e.height)[0], u16_le_bytes(e.height)[1],
        u16_le_bytes(e.offset_x as u16)[0], u16_le_bytes(e.offset_x as u16)[1],
        u16_le_bytes(e.offset_y as u16)[0], u16_le_bytes(e.offset_y as u16)[1],
        u16_le_bytes(e.flags)[0], u16_le_bytes(e.flags)[1],
        u16_le_bytes(e.zoom_offset)[0], u16_le_bytes(e.zoom_offset)[1],
    ]);
}

/// Reading back the bytes of an entry gives the entry.
pub proof fn lemma_parse_entry_bytes(b: Seq<u8>, at: int, e: Entry)
    requires
        0 <= at,
        at + 16 <= b.len(),
        b.subrange(at, at + 16) == entry_bytes(e),
    ensures
        parse_entry(b, at) == e,
{
    let eb = entry_bytes(e);
    lemma_entry_bytes_unfold(e);
    assert forall|i: int| 0 <= i < 16 implies b[at + i] == #[trigger] eb[i] by {
        assert(b.subrange(at, at + 16)[i] == eb[i]);
    }
    let ox = e.offset_x;
    let oy = e.offset_y;
    let uox = #[verifier::truncate] (ox as u16);
    let uoy = #[verifier::truncate] (oy as u16);
    lemma_u32_le_roundtrip(e.data_offset);
    lemma_u16_le_roundtrip(e.width);
    lemma_u16_le_roundtrip(e.height);
    lemma_u16_le_roundtrip(uox);
    lemma_u16_le_roundtrip(uoy);
    lemma_u16_le_roundtrip(e.flags);
    lemma_u16_le_roundtrip(e.zoom_offset);
    assert((ox as u16) as i16 == ox) by (bit_vector);
    assert((oy as u16) as i16 == oy) by (bit_vector);
    assert(b[at + 8] == u16_le_bytes(uox)[0] && b[at + 9] == u16_le_bytes(uox)[1]);
    assert(b[at + 10] == u16_le_bytes(uoy)[0] && b[at + 11] == u16_le_bytes(uoy)[1]);
}

/// Writing the entry read from 16 bytes gives those bytes.
pub proof fn lemma_entry_bytes_parse(b: Seq<u8>, at: int)
    requires
        0 <= at,
        at + 16 <= b.len(),
    ensures
        entry_bytes(parse_entry(b, at)) == b.subrange(at, at + 16),
{
    let e = parse_entry(b, at);
    lemma_entry_bytes_unfold(e);
    lemma_le_u32_bytes(b[at], b[at + 1], b[at + 2], b[at + 3]);
    lemma_le_u16_bytes(b[at + 4], b[at + 5]);
    lemma_le_u16_bytes(b[at + 6], b[at + 7]);
    lemma_le_u16_bytes(b[at + 8], b[at + 9]);
    lemma_le_u16_bytes(b[at + 10], b[at + 11]);
    lemma_le_u16_bytes(b[at + 12], b[at + 13]);
    lemma_le_u16_bytes(b[at + 14], b[at + 15]);
    let v8 = le_u16(b[at + 8], b[at + 9]) as u16;
    let v10 = le_u16(b[at + 10], b[at + 11]) as u16;
    assert((v8 as i16) as u16 == v8) by (bit_vector);
    assert((v10 as i16) as u16 == v10) by (bit_vector);
    assert(entry_bytes(e) =~= b.subrange(at, at + 16));
}

/// Writing the entries read from bytes `8..8 + 16n` gives those bytes.
pub proof fn lemma_entries_bytes_parse(b: Seq<u8>, n: int)
    requires
        0 <= n,
        8 + 16 * n <= b.len(),
    ensures
        entries_bytes(Seq::new(n as nat, |i: int| parse_entry(b, 8 + 16 * i))) == b.subrange(8, 8 + 16 * n),
    decreases n,
{
    let es = Seq::new(n as nat, |i: int| parse_entry(b, 8 + 16 * i));
    if n == 0 {
        assert(b.subrange(8, 8) =~= Seq::<u8>::empty());
    } else {
        lemma_entries_bytes_parse(b, n - 1);
        assert(es.drop_last() =~= Seq::new((n - 1) as nat, |i: int| parse_entry(b, 8 + 16 * i)));
        lemma_entry_bytes_parse(b, 8 + 16 * (n - 1));
        assert(entries_bytes(es) =~= b.subrange(8, 8 + 16 * n));
    }
}

/// Writing an archive file and reading it back gives the same archive.
pub proof fn lemma_archive_bytes_roundtrip(a: ArchiveView)
    requires
        a.entries.len() <= u32::MAX,
        a.data.len() <= u32::MAX,
    ensures
        spec_parse_archive(archive_bytes(a)) == Some(a),
{
    let b = archive_bytes(a);
    let count = a.entries.len();
    let size = a.data.len();
    let eb = entries_bytes(a.entries);
    lemma_entries_bytes_len(a.entries);
    lemma_u32_le_roundtrip(count as u32);
    lemma_u32_le_roundtrip(size as u32);
    let h0 = u32_le_bytes(count as u32);
    let h1 = u32_le_bytes(size as u32);
    assert(b[0] == h0[0] && b[1] == h0[1] && b[2] == h0[2] && b[3] == h0[3]);
    assert(b[4] == h1[0] && b[5] == h1[1] && b[6] == h1[2] && b[7] == h1[3]);
    let parsed = spec_parse_archive(b).unwrap();
    assert forall|k: int| 0 <= k < count implies #[trigger] parsed.entries[k] == a.entries[k] by {
        lemma_entries_bytes_index(a.entries, k);
        assert(b.subrange(8 + 16 * k, 8 + 16 * k + 16) =~= eb.subrange(16 * k, 16 * k + 16));
        lemma_parse_entry_bytes(b, 8 + 16 * k, a.entries[k]);
    }
    assert(parsed.entries =~= a.entries);
    assert(parsed.data =~= a.data);
}

/// Reading an archive from bytes and writing it again gives back the bytes it was read from.
pub proof fn lemma_parse_archive_bytes(b: Seq<u8>)
    requires
        spec_parse_archive(b) is Some,
    ensures
        ({
            let a = spec_parse_archive(b).unwrap();
            archive_bytes(a) == b.take(archive_file_len(a.entries.len() as int, a.data.len() as int))
        }),
{
    let a = spec_parse_archive(b).unwrap();
    let count = le_u32(b[0], b[1], b[2], b[3]);
    let size = le_u32(b[4], b[5], b[6], b[7]);
    lemma_le_u32_bytes(b[0], b[1], b[2], b[3]);
    lemma_le_u32_bytes(b[4], b[5], b[6], b[7]);
    lemma_entries_bytes_parse(b, count);
    assert(a.entries =~= Seq::new(count as nat, |i: int| parse_entry(b, 8 + 16 * i)));
    assert(archive_bytes(a) =~= b.take(archive_file_len(count, size)));
}

} // verus!
