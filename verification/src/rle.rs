//! The run-length encoding of palette sprites used by RCT2 image archives.
//!
//! Each row of a sprite is stored as a list of runs of non-transparent pixels.
//! A run is a count byte (bit 7 set on the last run of the row), an x offset
//! byte, and the run's pixels. Runs hold at most 127 pixels. A row with no
//! opaque pixel is stored as one empty run.
use vstd::prelude::*;

use crate::le_bytes::le_u16;

verus! {

/// Pixel value 0 is transparent.
pub open spec fn transparent(p: u8) -> bool {
    p == 0
}

/// How many opaque pixels follow from `x` on (including `x`).
pub open spec fn opaque_len(row: Seq<u8>, x: int) -> nat
    decreases row.len() - x,
{
    if 0 <= x < row.len() && row[x] != 0 {
        1 + opaque_len(row, x + 1)
    } else {
        0
    }
}

/// The length of a run starting at an opaque pixel: the opaque stretch, cut at 127.
pub open spec fn run_len(row: Seq<u8>, x: int) -> int {
    if opaque_len(row, x) < 127 {
        opaque_len(row, x) as int
    } else {
        127
    }
}

/// The runs `(start, count)` of a row from `x` on: the maximal stretches of opaque
/// pixels, left to right, each cut into pieces of at most 127 pixels.
pub open spec fn row_runs(row: Seq<u8>, x: int) -> Seq<(int, int)>
    decreases row.len() - x,
{
    if x < 0 || x >= row.len() {
        seq![]
    } else if row[x] == 0 {
        row_runs(row, x + 1)
    } else {
        proof {
            assert(opaque_len(row, x) == 1 + opaque_len(row, x + 1));
            lemma_opaque_len_bound(row, x);
        }
        seq![(x, run_len(row, x))] + row_runs(row, x + run_len(row, x))
    }
}

/// The bytes of a list of runs, the last one carrying the end-of-row bit.
pub open spec fn runs_bytes(row: Seq<u8>, runs: Seq<(int, int)>) -> Seq<u8>
    decreases runs.len(),
{
    if runs.len() == 0 {
        seq![]
    } else {
        let r = runs[0];
        let count = if runs.len() == 1 { r.1 + 128 } else { r.1 };
        seq![count as u8, r.0 as u8] + row.subrange(r.0, r.0 + r.1) + runs_bytes(row, runs.drop_first())
    }
}

/// The encoding of one row of pixels.
pub open spec fn encode_row(row: Seq<u8>) -> Seq<u8> {
    if row_runs(row, 0).len() == 0 {
        seq![128u8, 0u8]
    } else {
        runs_bytes(row, row_runs(row, 0))
    }
}

/// Every run of the row starts within the first 256 pixels, so that its x offset fits a byte.
pub open spec fn row_encodable(row: Seq<u8>) -> bool {
    forall|i: int| 0 <= i < row_runs(row, 0).len() ==> #[trigger] row_runs(row, 0)[i].0 <= 255
}

/// Row `y` of a sprite `width` pixels wide.
pub open spec fn sprite_row(pixels: Seq<u8>, width: int, y: int) -> Seq<u8> {
    pixels.subrange(y * width, y * width + width)
}

/// The encodings of the first `k` rows, one after the other.
pub open spec fn encode_rows(pixels: Seq<u8>, width: int, k: int) -> Seq<u8>
    decreases k,
{
    if k <= 0 {
        seq![]
    } else {
        encode_rows(pixels, width, k - 1) + encode_row(sprite_row(pixels, width, k - 1))
    }
}

/// The offset stored for row `y`: past the row offset table and the rows before it.
pub open spec fn row_offset(pixels: Seq<u8>, width: int, height: int, y: int) -> int {
    2 * height + encode_rows(pixels, width, y).len()
}

/// A sprite the encoder accepts: enough pixels, every run's x offset fits a byte,
/// and every row offset fits an `i16`.
pub open spec fn sprite_encodable(pixels: Seq<u8>, width: int, height: int) -> bool {
    &&& pixels.len() >= width * height
    &&& forall|y: int| 0 <= y < height ==> row_encodable(#[trigger] sprite_row(pixels, width, y))
    &&& forall|y: int| 0 <= y < height ==> #[trigger] row_offset(pixels, width, height, y) <= 0x7fff
}

// ----------------------------------------------------------------------------------------------
// Facts about runs.

/// The opaque run from `s` on passes through the opaque pixels `s..x` and goes on as the run
/// from `x`.
pub proof fn lemma_opaque_len_split(row: Seq<u8>, s: int, x: int)
    requires
        0 <= s <= x <= row.len(),
        forall|i: int| s <= i < x ==> row[i] != 0,
    ensures
        opaque_len(row, s) == (x - s) + opaque_len(row, x),
    decreases x - s,
{
    if s < x {
        lemma_opaque_len_split(row, s + 1, x);
    }
}

/// The opaque run from `x` on ends within the row, and every pixel in it is opaque.
pub proof fn lemma_opaque_len_bound(row: Seq<u8>, x: int)
    requires
        0 <= x,
    ensures
        x + opaque_len(row, x) <= (if x <= row.len() { row.len() as int } else { x }),
        forall|i: int| x <= i < x + opaque_len(row, x) ==> row[i] != 0,
    decreases row.len() - x,
{
    if 0 <= x < row.len() && row[x] != 0 {
        lemma_opaque_len_bound(row, x + 1);
    }
}

/// The first run from `x` on starts at the first opaque pixel, the pixels before it are
/// transparent, and the rest of the runs follow its end.
pub proof fn lemma_row_runs_first(row: Seq<u8>, x: int)
    requires
        0 <= x,
        row_runs(row, x).len() > 0,
    ensures
        ({
            let (s, n) = row_runs(row, x)[0];
            &&& x <= s < row.len()
            &&& row[s] != 0
            &&& n == run_len(row, s)
            &&& 1 <= n <= 127
            &&& s + n <= row.len()
            &&& forall|i: int| x <= i < s ==> row[i] == 0
            &&& forall|i: int| s <= i < s + n ==> row[i] != 0
            &&& row_runs(row, x) == seq![(s, n)] + row_runs(row, s + n)
        }),
    decreases row.len() - x,
{
    if x < row.len() && row[x] == 0 {
        lemma_row_runs_first(row, x + 1);
    } else {
        lemma_opaque_len_bound(row, x);
        assert(row_runs(row, x)[0] == (x, run_len(row, x)));
        assert(row_runs(row, x).drop_first() =~= row_runs(row, x + run_len(row, x)));
    }
}

/// No run from `x` on means every pixel from `x` on is transparent.
pub proof fn lemma_row_runs_empty(row: Seq<u8>, x: int)
    requires
        0 <= x,
        row_runs(row, x).len() == 0,
    ensures
        forall|i: int| x <= i < row.len() ==> row[i] == 0,
    decreases row.len() - x,
{
    if x < row.len() {
        if row[x] == 0 {
            lemma_row_runs_empty(row, x + 1);
        } else {
            assert(row_runs(row, x)[0] == (x, run_len(row, x)));
        }
    }
}


/// The bytes of one run, without the end-of-row bit.
pub open spec fn run_plain(row: Seq<u8>, r: (int, int)) -> Seq<u8> {
    seq![r.1 as u8, r.0 as u8] + row.subrange(r.0, r.0 + r.1)
}

/// The bytes of a list of runs, none carrying the end-of-row bit (built from the right).
pub open spec fn runs_plain(row: Seq<u8>, runs: Seq<(int, int)>) -> Seq<u8>
    decreases runs.len(),
{
    if runs.len() == 0 {
        seq![]
    } else {
        runs_plain(row, runs.drop_last()) + run_plain(row, runs.last())
    }
}

/// The plain bytes of a list of runs start with those of its first run.
pub proof fn lemma_runs_plain_first(row: Seq<u8>, runs: Seq<(int, int)>)
    requires
        runs.len() > 0,
    ensures
        runs_plain(row, runs) == run_plain(row, runs[0]) + runs_plain(row, runs.drop_first()),
    decreases runs.len(),
{
    if runs.len() == 1 {
        assert(runs.drop_last() =~= seq![]);
        assert(runs.drop_first() =~= seq![]);
        assert(runs_plain(row, runs) =~= run_plain(row, runs[0]) + runs_plain(row, runs.drop_first()));
    } else {
        lemma_runs_plain_first(row, runs.drop_last());
        assert(runs.drop_last().drop_first() =~= runs.drop_first().drop_last());
        assert(runs.drop_first().last() == runs.last());
        assert(runs.drop_last()[0] == runs[0]);
        assert(runs_plain(row, runs) =~= run_plain(row, runs[0]) + runs_plain(row, runs.drop_first()));
    }
}

/// Setting the end-of-row bit on the count of the last run turns the plain bytes into the row bytes.
pub proof fn lemma_runs_bytes_flag_last(row: Seq<u8>, runs: Seq<(int, int)>)
    requires
        runs.len() > 0,
        0 <= runs.last().1 <= 127,
    ensures
        runs_bytes(row, runs) == runs_plain(row, runs).update(
            runs_plain(row, runs.drop_last()).len() as int,
            (runs.last().1 + 128) as u8,
        ),
    decreases runs.len(),
{
    lemma_runs_plain_first(row, runs);
    if runs.len() == 1 {
        assert(runs.drop_first() =~= seq![]);
        assert(runs.drop_last() =~= seq![]);
        assert(runs_bytes(row, runs.drop_first()) =~= Seq::<u8>::empty());
        assert(runs_plain(row, runs.drop_last()) =~= Seq::<u8>::empty());
        assert(runs[0] == runs.last());
        assert(runs_bytes(row, runs) =~= runs_plain(row, runs).update(0, (runs.last().1 + 128) as u8));
    } else {
        let rest = runs.drop_first();
        lemma_runs_bytes_flag_last(row, rest);
        lemma_runs_plain_first(row, runs.drop_last());
        assert(runs.drop_last().drop_first() =~= rest.drop_last());
        assert(runs.drop_last()[0] == runs[0]);
        assert(rest.last() == runs.last());
        assert(runs_bytes(row, runs) =~= runs_plain(row, runs).update(
            runs_plain(row, runs.drop_last()).len() as int,
            (runs.last().1 + 128) as u8,
        ));
    }
}


// ----------------------------------------------------------------------------------------------
// Decoding.

/// Decodes the runs of one row starting at `pos` of `data` into `pixels`, row starting at `base`.
/// `None` when the data ends early or a run leaves the pixel buffer.
pub open spec fn decode_runs(data: Seq<u8>, pos: int, pixels: Seq<u8>, base: int) -> Option<Seq<u8>>
    decreases data.len() - pos,
{
    if pos < 0 || pos + 2 > data.len() {
        None
    } else {
        let count = (data[pos] % 128) as int;
        let end = data[pos] >= 128;
        let index = base + data[pos + 1] as int;
        if index + count > pixels.len() || pos + 2 + count > data.len() {
            None
        } else {
            let written = pixels.take(index) + data.subrange(pos + 2, pos + 2 + count) + pixels.skip(
                index + count,
            );
            if end {
                Some(written)
            } else {
                decode_runs(data, pos + 2 + count, written, base)
            }
        }
    }
}

/// The row offset stored for row `y` in the table at `offset`.
pub open spec fn stored_row_offset(data: Seq<u8>, offset: int, y: int) -> int {
    le_u16(data[offset + 2 * y], data[offset + 2 * y + 1])
}

/// Decodes rows `y..height` into `pixels`.
pub open spec fn decode_rows(
    data: Seq<u8>,
    offset: int,
    width: int,
    height: int,
    y: int,
    pixels: Seq<u8>,
) -> Option<Seq<u8>>
    decreases height - y,
{
    if y >= height {
        Some(pixels)
    } else {
        match decode_runs(data, offset + stored_row_offset(data, offset, y), pixels, y * width) {
            None => None,
            Some(next) => decode_rows(data, offset, width, height, y + 1, next),
        }
    }
}

/// Decoding the runs of a row keeps the size of the pixel buffer.
pub proof fn lemma_decode_runs_len(data: Seq<u8>, pos: int, pixels: Seq<u8>, base: int)
    requires
        0 <= base,
        decode_runs(data, pos, pixels, base) is Some,
    ensures
        decode_runs(data, pos, pixels, base)->0.len() == pixels.len(),
    decreases data.len() - pos,
{
    let count = (data[pos] % 128) as int;
    let index = base + data[pos + 1] as int;
    let written = pixels.take(index) + data.subrange(pos + 2, pos + 2 + count) + pixels.skip(index + count);
    assert(written.len() == pixels.len());
    if data[pos] < 128 {
        lemma_decode_runs_len(data, pos + 2 + count, written, base);
    }
}

/// Decoding rows keeps the size of the pixel buffer.
pub proof fn lemma_decode_rows_len(data: Seq<u8>, offset: int, width: int, height: int, y: int, pixels: Seq<u8>)
    requires
        0 <= y,
        0 <= width,
        decode_rows(data, offset, width, height, y, pixels) is Some,
    ensures
        decode_rows(data, offset, width, height, y, pixels)->0.len() == pixels.len(),
    decreases height - y,
{
    if y < height {
        assert(0 <= y * width) by (nonlinear_arith)
            requires
                0 <= y,
                0 <= width,
        ;
        let next = decode_runs(data, offset + stored_row_offset(data, offset, y), pixels, y * width);
        lemma_decode_runs_len(data, offset + stored_row_offset(data, offset, y), pixels, y * width);
        lemma_decode_rows_len(data, offset, width, height, y + 1, next->0);
    }
}

/// `n` transparent pixels.
pub open spec fn blank(n: int) -> Seq<u8> {
    Seq::new(n as nat, |i: int| 0u8)
}

/// Decodes the sprite whose row offset table starts at `offset` of `data`: `None` when the
/// table or any row does not fit.
pub open spec fn decode_sprite_data(data: Seq<u8>, offset: int, width: int, height: int) -> Option<Seq<u8>> {
    if offset + 2 * height > data.len() {
        None
    } else {
        decode_rows(data, offset, width, height, 0, blank(width * height))
    }
}

/// A decoded sprite holds `width * height` pixels.
pub proof fn lemma_decode_sprite_data_len(data: Seq<u8>, offset: int, width: int, height: int)
    requires
        0 <= width,
        0 <= height,
        decode_sprite_data(data, offset, width, height) is Some,
    ensures
        decode_sprite_data(data, offset, width, height)->0.len() == width * height,
{
    assert(0 <= width * height) by (nonlinear_arith)
        requires
            0 <= width,
            0 <= height,
    ;
    lemma_decode_rows_len(data, offset, width, height, 0, blank(width * height));
}


// ----------------------------------------------------------------------------------------------
// Decoding what was encoded.

/// Decoding the runs of a row from `x` on writes the row's pixels from `x` on into a buffer
/// that is transparent there.
#[verifier::rlimit(30)]
pub proof fn lemma_decode_row_runs(data: Seq<u8>, pos: int, buf: Seq<u8>, base: int, row: Seq<u8>, x: int)
    requires
        0 <= x <= row.len(),
        row_runs(row, x).len() > 0,
        forall|k: int| 0 <= k < row_runs(row, x).len() ==> #[trigger] row_runs(row, x)[k].0 <= 255,
        0 <= base,
        base + row.len() <= buf.len(),
        forall|i: int| base + x <= i < base + row.len() ==> buf[i] == 0,
        0 <= pos,
        pos + runs_bytes(row, row_runs(row, x)).len() <= data.len(),
        data.subrange(pos, pos + runs_bytes(row, row_runs(row, x)).len()) == runs_bytes(row, row_runs(row, x)),
    ensures
        decode_runs(data, pos, buf, base) == Some(
            buf.take(base + x) + row.subrange(x, row.len() as int) + buf.skip(base + row.len()),
        ),
    decreases row.len() - x,
{
    lemma_row_runs_first(row, x);
    let runs = row_runs(row, x);
    let s = runs[0].0;
    let n = runs[0].1;
    let tail = row_runs(row, s + n);
    assert(runs.drop_first() =~= tail);
    assert(runs[0].0 <= 255);
    let bytes = runs_bytes(row, runs);
    let count_byte: u8 = if runs.len() == 1 { (n + 128) as u8 } else { n as u8 };
    assert(bytes =~= seq![count_byte, s as u8] + row.subrange(s, s + n) + runs_bytes(row, tail));
    assert(data[pos] == bytes[0]);
    assert(data[pos + 1] == bytes[1]);
    assert((data[pos] % 128) as int == n);
    assert((data[pos] >= 128) == (runs.len() == 1));
    assert(data[pos + 1] as int == s);
    assert(data.subrange(pos + 2, pos + 2 + n) =~= row.subrange(s, s + n)) by {
        assert forall|i: int| 0 <= i < n implies #[trigger] data.subrange(pos + 2, pos + 2 + n)[i]
            == row.subrange(s, s + n)[i] by {
            assert(data.subrange(pos, pos + bytes.len())[2 + i] == bytes[2 + i]);
        }
    }
    let written = buf.take(base + s) + data.subrange(pos + 2, pos + 2 + n) + buf.skip(base + s + n);
    if runs.len() == 1 {
        assert(tail.len() == 0);
        lemma_row_runs_empty(row, s + n);
        assert(decode_runs(data, pos, buf, base) == Some(written));
        assert(written =~= buf.take(base + x) + row.subrange(x, row.len() as int) + buf.skip(
            base + row.len(),
        ));
    } else {
        assert(tail.len() > 0);
        assert forall|k: int| 0 <= k < tail.len() implies #[trigger] tail[k].0 <= 255 by {
            assert(tail[k] == runs[k + 1]);
        }
        let rest = runs_bytes(row, tail);
        assert(data.subrange(pos + 2 + n, pos + 2 + n + rest.len()) =~= rest) by {
            assert forall|i: int| 0 <= i < rest.len() implies #[trigger] data.subrange(
                pos + 2 + n,
                pos + 2 + n + rest.len(),
            )[i] == rest[i] by {
                assert(data.subrange(pos, pos + bytes.len())[2 + n + i] == bytes[2 + n + i]);
            }
        }
        lemma_decode_row_runs(data, pos + 2 + n, written, base, row, s + n);
        assert(decode_runs(data, pos, buf, base) == decode_runs(data, pos + 2 + n, written, base));
        assert(written.take(base + s + n) + row.subrange(s + n, row.len() as int) + written.skip(
            base + row.len(),
        ) =~= buf.take(base + x) + row.subrange(x, row.len() as int) + buf.skip(base + row.len()));
    }
}

/// Decoding the encoding of a row writes the row into a buffer that is transparent there.
pub proof fn lemma_decode_row(data: Seq<u8>, pos: int, buf: Seq<u8>, base: int, row: Seq<u8>)
    requires
        row_encodable(row),
        0 <= base,
        base + row.len() <= buf.len(),
        forall|i: int| base <= i < base + row.len() ==> buf[i] == 0,
        0 <= pos,
        pos + encode_row(row).len() <= data.len(),
        data.subrange(pos, pos + encode_row(row).len()) == encode_row(row),
    ensures
        decode_runs(data, pos, buf, base) == Some(buf.take(base) + row + buf.skip(base + row.len())),
{
    if row_runs(row, 0).len() == 0 {
        lemma_row_runs_empty(row, 0);
        assert(data[pos] == encode_row(row)[0]);
        assert(data[pos + 1] == encode_row(row)[1]);
        assert(data.subrange(pos + 2, pos + 2) =~= Seq::<u8>::empty());
        assert(buf.take(base) + Seq::<u8>::empty() + buf.skip(base) =~= buf);
        assert(buf.take(base) + row + buf.skip(base + row.len()) =~= buf);
    } else {
        lemma_decode_row_runs(data, pos, buf, base, row, 0);
        assert(row.subrange(0, row.len() as int) =~= row);
        assert(buf.take(base + 0) =~= buf.take(base));
    }
}

/// The rows before `k` are encoded at the start of the rows before `m`.
pub proof fn lemma_encode_rows_prefix(pixels: Seq<u8>, width: int, k: int, m: int)
    requires
        0 <= k <= m,
    ensures
        encode_rows(pixels, width, k).len() <= encode_rows(pixels, width, m).len(),
        encode_rows(pixels, width, m).subrange(0, encode_rows(pixels, width, k).len() as int)
            == encode_rows(pixels, width, k),
    decreases m - k,
{
    if k < m {
        lemma_encode_rows_prefix(pixels, width, k, m - 1);
        assert(encode_rows(pixels, width, m).subrange(0, encode_rows(pixels, width, k).len() as int)
            =~= encode_rows(pixels, width, k));
    } else {
        assert(encode_rows(pixels, width, m).subrange(0, encode_rows(pixels, width, k).len() as int)
            =~= encode_rows(pixels, width, k));
    }
}

/// Decoding rows `y..height` of an encoded sprite into a buffer holding the rows before `y`
/// gives back the whole sprite.
pub proof fn lemma_decode_rows(data: Seq<u8>, offset: int, pixels: Seq<u8>, width: int, height: int, y: int)
    requires
        0 <= width,
        0 <= y <= height,
        pixels.len() == width * height,
        sprite_encodable(pixels, width, height),
        0 <= offset,
        offset + 2 * height + encode_rows(pixels, width, height).len() <= data.len(),
        forall|k: int| 0 <= k < height ==> #[trigger] stored_row_offset(data, offset, k) == row_offset(
            pixels,
            width,
            height,
            k,
        ),
        data.subrange(offset + 2 * height, offset + 2 * height + encode_rows(pixels, width, height).len())
            == encode_rows(pixels, width, height),
    ensures
        decode_rows(data, offset, width, height, y, pixels.take(y * width) + blank(width * height - y * width))
            == Some(pixels),
    decreases height - y,
{
    let buf = pixels.take(y * width) + blank(width * height - y * width);
    if y == height {
        assert(y * width == width * height) by (nonlinear_arith)
            requires
                y == height,
        ;
        assert(buf =~= pixels);
    } else {
        assert(y * width + width <= width * height) by (nonlinear_arith)
            requires
                y < height,
                0 <= width,
        ;
        assert((y + 1) * width == y * width + width) by (nonlinear_arith);
        assert(0 <= y * width) by (nonlinear_arith)
            requires
                0 <= y,
                0 <= width,
        ;
        let base = y * width;
        let row = sprite_row(pixels, width, y);
        let enc_all = encode_rows(pixels, width, height);
        let start = encode_rows(pixels, width, y).len() as int;
        let enc = encode_row(row);
        lemma_encode_rows_prefix(pixels, width, y + 1, height);
        assert(encode_rows(pixels, width, y + 1) == encode_rows(pixels, width, y) + enc);
        let pos = offset + 2 * height + start;
        assert(pos == offset + stored_row_offset(data, offset, y));
        assert(data.subrange(pos, pos + enc.len()) =~= enc) by {
            assert forall|i: int| 0 <= i < enc.len() implies #[trigger] data.subrange(
                pos,
                pos + enc.len(),
            )[i] == enc[i] by {
                assert(data.subrange(offset + 2 * height, offset + 2 * height + enc_all.len())[start
                    + i] == enc_all[start + i]);
                assert(enc_all.subrange(0, encode_rows(pixels, width, y + 1).len() as int)[start + i]
                    == encode_rows(pixels, width, y + 1)[start + i]);
            }
        }
        assert(row_encodable(row));
        lemma_decode_row(data, pos, buf, base, row);
        let next = buf.take(base) + row + buf.skip(base + row.len());
        assert(next =~= pixels.take((y + 1) * width) + blank(width * height - (y + 1) * width));
        lemma_decode_rows(data, offset, pixels, width, height, y + 1);
    }
}

} // verus!
