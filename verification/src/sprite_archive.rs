//! The game's own sprites, as the editor draws them next to the edited piece.
use vstd::prelude::*;
use vstd::view::View as _;

use std::collections::HashMap;

use crate::csg::{spec_decode_sprite, spec_get_pixels, spec_parse_archive, Archive, ArchiveView, Entry, Pixels, PixelsView};
use crate::indexed_image::{ImageView, IndexedImage};
use crate::rle::lemma_decode_sprite_data_len;

verus! {

/// The sprites of the game's sprite archive.
pub struct Sprites {
    pub archive: Archive,
}

/// The pixels of a sprite, whether stored plain or decoded.
pub open spec fn pixels_of(p: PixelsView) -> Seq<u8> {
    match p {
        PixelsView::Uncompressed(s) => s,
        PixelsView::Compressed(s) => s,
    }
}

impl Sprites {
    /// The sprites of the archive file whose bytes are `bytes`; `None` where they hold no
    /// archive.
    pub fn try_new(bytes: &[u8]) -> (r: Option<Sprites>)
        ensures
            r is Some <==> spec_parse_archive(bytes@) is Some,
            r matches Some(s) ==> spec_parse_archive(bytes@) == Some(s.archive@),
    {
        match Archive::from_bytes(bytes) {
            Some(archive) => Some(Sprites { archive }),
            None => None,
        }
    }

    /// Sprite `index`: its entry and its pixels, row by row; `None` where the archive has no
    /// such sprite or cannot give its pixels.
    pub fn sprite_pixels(&self, index: u32) -> (r: Option<(Entry, Vec<u8>)>)
        requires
            sprite_size_fits(self.archive@, index as int),
        ensures
            ({
                let a: ArchiveView = self.archive@;
                match r {
                    Some((e, p)) => {
                        &&& index < a.entries.len()
                        &&& e == a.entries[index as int]
                        &&& spec_get_pixels(a.data, e) matches Some(v) && pixels_of(v) == p@
                    },
                    None => index >= a.entries.len() || spec_get_pixels(a.data, a.entries[index as int]) is None,
                }
            }),
    {
        let entries = self.archive.entries();
        let i = index as usize;
        if i >= entries.len() {
            return None;
        }
        let entry = entries[i];
        match self.archive.get_pixels(&entry) {
            Some(Pixels::Uncompressed(p)) => {
                let mut v: Vec<u8> = Vec::new();
                let mut k: usize = 0;
                while k < p.len()
                    invariant
                        k <= p@.len(),
                        v@ == p@.take(k as int),
                    decreases p@.len() - k,
                {
                    v.push(p[k]);
                    k = k + 1;
                    assert(v@ =~= p@.take(k as int));
                }
                assert(p@.take(p@.len() as int) =~= p@);
                Some((entry, v))
            },
            Some(Pixels::Compressed(p)) => Some((entry, p)),
            None => None,
        }
    }
}

/// Sprite `index`, if the archive has it, can be read without its size overflowing: plain
/// sprites hold at most `u16::MAX` pixels.
pub open spec fn sprite_size_fits(a: ArchiveView, index: int) -> bool {
    0 <= index < a.entries.len() ==> {
        let e = a.entries[index];
        e.is_rle() || !e.is_transparent() || e.width * e.height <= u16::MAX
    }
}

/// Sprite `index` of an archive as an image placed by the sprite's offset; `None` where the
/// archive has no such sprite or cannot give its pixels.
pub open spec fn spec_load_sprite(a: ArchiveView, index: int) -> Option<ImageView> {
    if 0 <= index < a.entries.len() {
        let e = a.entries[index];
        match spec_get_pixels(a.data, e) {
            Some(p) => Some(
                ImageView {
                    width: e.width as int,
                    height: e.height as int,
                    pixels: pixels_of(p),
                    offset_x: e.offset_x as int,
                    offset_y: e.offset_y as int,
                },
            ),
            None => None,
        }
    } else {
        None
    }
}

/// The pixels the archive gives for an entry number `width * height`.
proof fn lemma_pixels_len(data: Seq<u8>, e: Entry)
    requires
        spec_get_pixels(data, e) is Some,
    ensures
        pixels_of(spec_get_pixels(data, e)->0).len() == e.width * e.height,
{
    if e.is_rle() {
        lemma_decode_sprite_data_len(data, e.data_offset as int, e.width as int, e.height as int);
        assert(spec_decode_sprite(data, e) is Some);
    }
}

/// Loads sprite `index` of the archive as an image.
fn load_sprite(archive: &Archive, index: usize) -> (r: Option<IndexedImage>)
    requires
        sprite_size_fits(archive@, index as int),
    ensures
        match r {
            Some(img) => img.wf() && spec_load_sprite(archive@, index as int) == Some(img@),
            None => spec_load_sprite(archive@, index as int) is None,
        },
{
    let entries = archive.entries();
    if index >= entries.len() {
        return None;
    }
    let entry = entries[index];
    let pixels: Vec<u8> = match archive.get_pixels(&entry) {
        Some(Pixels::Uncompressed(p)) => {
            let mut v: Vec<u8> = Vec::new();
            let mut k: usize = 0;
            while k < p.len()
                invariant
                    k <= p@.len(),
                    v@ == p@.take(k as int),
                decreases p@.len() - k,
            {
                v.push(p[k]);
                k = k + 1;
                assert(v@ =~= p@.take(k as int));
            }
            assert(p@.take(p@.len() as int) =~= p@);
            v
        },
        Some(Pixels::Compressed(p)) => p,
        None => {
            return None;
        },
    };
    proof {
        lemma_pixels_len(archive@.data, entry);
    }
    let mut image = IndexedImage::with_buffer(pixels, entry.width, entry.height);
    image.set_offset(entry.offset_x as i32, entry.offset_y as i32);
    Some(image)
}

/// The game's sprites, each decoded the first time it is asked for and kept for later.
pub struct SpriteCache {
    archive: Archive,
    sprites: HashMap<u32, IndexedImage>,
}

impl SpriteCache {
    /// The archive the sprites come from.
    pub closed spec fn archive_view(&self) -> ArchiveView {
        self.archive@
    }

    /// The sprites decoded so far, by number.
    pub closed spec fn cached(&self) -> Map<u32, ImageView> {
        self.sprites@.map_values(|img: IndexedImage| img@)
    }

    /// Every kept sprite is the one the archive gives for its number.
    pub open spec fn keeps_loaded(&self) -> bool {
        forall|k: u32|
            #[trigger] self.cached().contains_key(k) ==> spec_load_sprite(self.archive_view(), k as int) == Some(
                self.cached()[k],
            )
    }

    /// The kept sprites are the archive's and are well formed.
    pub closed spec fn wf(&self) -> bool {
        forall|k: u32|
            #[trigger] self.sprites@.contains_key(k) ==> self.sprites@[k].wf() && spec_load_sprite(
                self.archive@,
                k as int,
            ) == Some(self.sprites@[k]@)
    }

    proof fn lemma_wf_keeps_loaded(&self)
        requires
            self.wf(),
        ensures
            self.keeps_loaded(),
    {
        assert forall|k: u32| #[trigger] self.cached().contains_key(k) implies spec_load_sprite(
            self.archive_view(),
            k as int,
        ) == Some(self.cached()[k]) by {
            assert(self.sprites@.contains_key(k));
        }
    }

    /// A cache over the archive file whose bytes are `bytes`, with nothing decoded yet; `None`
    /// where they hold no archive.
    pub fn try_new(bytes: &[u8]) -> (r: Option<SpriteCache>)
        ensures
            r is Some <==> spec_parse_archive(bytes@) is Some,
            r matches Some(c) ==> {
                &&& c.wf()
                &&& spec_parse_archive(bytes@) == Some(c.archive_view())
                &&& c.cached() == Map::<u32, ImageView>::empty()
            },
    {
        broadcast use vstd::std_specs::hash::group_hash_axioms;

        match Archive::from_bytes(bytes) {
            Some(archive) => {
                let sprites: HashMap<u32, IndexedImage> = HashMap::new();
                let r = SpriteCache { archive, sprites };
                assert(r.cached() =~= Map::<u32, ImageView>::empty());
                Some(r)
            },
            None => None,
        }
    }

    /// Sprite `index` as an image: the same as a fresh load from the archive gives, whether it
    /// was decoded before or not; `None` where the archive has no such sprite or cannot give
    /// its pixels. A kept sprite is returned as kept, with nothing decoded; otherwise a sprite
    /// that loads is kept for later, and one that does not leaves the cache as it was, so a
    /// later call tries again.
    pub fn get(&mut self, index: u32) -> (r: Option<&IndexedImage>)
        requires
            old(self).wf(),
            sprite_size_fits(old(self).archive_view(), index as int),
        ensures
            final(self).wf(),
            final(self).keeps_loaded(),
            final(self).archive_view() == old(self).archive_view(),
            match r {
                Some(img) => img.wf() && spec_load_sprite(old(self).archive_view(), index as int) == Some(img@),
                None => spec_load_sprite(old(self).archive_view(), index as int) is None,
            },
            old(self).cached().contains_key(index) ==> {
                &&& final(self).cached() == old(self).cached()
                &&& r matches Some(img) && img@ == old(self).cached()[index]
            },
            !old(self).cached().contains_key(index) ==> final(self).cached() == match spec_load_sprite(
                old(self).archive_view(),
                index as int,
            ) {
                Some(v) => old(self).cached().insert(index, v),
                None => old(self).cached(),
            },
    {
        broadcast use vstd::std_specs::hash::group_hash_axioms;

        let ghost before = self.cached();
        if !self.sprites.contains_key(&index) {
            match load_sprite(&self.archive, index as usize) {
                Some(sprite) => {
                    let ghost v = sprite@;
                    self.sprites.insert(index, sprite);
                    assert(self.cached() =~= before.insert(index, v));
                },
                None => {
                    proof {
                        self.lemma_wf_keeps_loaded();
                    }
                    return None;
                },
            }
        } else {
            assert(self.sprites@.contains_key(index));
        }
        proof {
            self.lemma_wf_keeps_loaded();
        }
        self.sprites.get(&index)
    }
}

} // verus!
