//! The list of sprite files a track's object is built from, and how freshly rendered track
//! pieces replace their older sprites in it.
use vstd::prelude::*;
use vstd::string::StringExecFns;
use vstd::utf8::encode_utf8;

use crate::image_file::ImageFile;

verus! {

/// The sprite list of a track object.
pub struct Sprites {
    pub sprites: Vec<ImageFile>,
}

/// The sprites rendered for one track piece of one track.
pub struct TrackSectionSprites {
    pub track_name: String,
    pub track_section_name: String,
    pub sprites: Vec<ImageFile>,
}

/// Whether `s` begins with `p`.
pub open spec fn begins_with(s: Seq<u8>, p: Seq<u8>) -> bool {
    p.len() <= s.len() && s.take(p.len() as int) == p
}

/// Whether `b` is an ASCII digit.
pub open spec fn is_digit(b: u8) -> bool {
    48 <= b <= 57
}

/// Whether the path `path` names a sprite of the piece `name` under `prefix`: after the prefix
/// comes the piece's name, one separating character, and a digit.
pub open spec fn names_section_sprite(path: Seq<u8>, prefix: Seq<u8>, name: Seq<u8>) -> bool {
    let rest = path.skip(prefix.len() as int);
    &&& begins_with(path, prefix)
    &&& begins_with(rest, name)
    &&& name.len() + 2 <= rest.len()
    &&& is_digit(rest[name.len() as int + 1])
}

/// Whether `s` begins with `p`.
fn bytes_begin_with(s: &[u8], start: usize, p: &[u8]) -> (r: bool)
    requires
        start <= s@.len(),
    ensures
        r == begins_with(s@.skip(start as int), p@),
{
    let n = s.len();
    if p.len() > n - start {
        return false;
    }
    let mut i: usize = 0;
    while i < p.len()
        invariant
            i <= p@.len(),
            n == s@.len(),
            start <= s@.len(),
            p@.len() <= s@.len() - start,
            forall|j: int| 0 <= j < i ==> s@[start + j] == p@[j],
        decreases p@.len() - i,
    {
        if s[start + i] != p[i] {
            assert(s@.skip(start as int).take(p@.len() as int)[i as int] != p@[i as int]);
            return false;
        }
        i = i + 1;
    }
    assert(s@.skip(start as int).take(p@.len() as int) =~= p@);
    true
}

/// Whether the path `sprite_path` names a sprite of the piece `track_section_name` under
/// `path_prefix`: after the prefix come the piece's name, one separating character, and a digit.
pub fn is_track_section_sprite(sprite_path: &str, path_prefix: &str, track_section_name: &str) -> (r: bool)
    ensures
        r == names_section_sprite(
            encode_utf8(sprite_path@),
            encode_utf8(path_prefix@),
            encode_utf8(track_section_name@),
        ),
{
    let path = sprite_path.as_bytes();
    let prefix = path_prefix.as_bytes();
    let name = track_section_name.as_bytes();
    if !bytes_begin_with(path, 0, prefix) {
        proof {
            assert(path@.skip(0) =~= path@);
        }
        return false;
    }
    proof {
        assert(path@.skip(0) =~= path@);
    }
    let start = prefix.len();
    if !bytes_begin_with(path, start, name) {
        return false;
    }
    if path.len() - start < 2 || name.len() > path.len() - start - 2 {
        return false;
    }
    let b = path[start + name.len() + 1];
    48 <= b && b <= 57
}


/// The directory prefix of a track's sprite paths.
pub open spec fn track_prefix(track_name: Seq<char>) -> Seq<u8> {
    encode_utf8("track/"@ + track_name + "/"@)
}

/// Whether `f` is a sprite of the piece `name` under `prefix`.
pub open spec fn is_section_entry(f: ImageFile, prefix: Seq<u8>, name: Seq<u8>) -> bool {
    names_section_sprite(encode_utf8(f.path@), prefix, name)
}

/// Whether `f` lies under `prefix`.
pub open spec fn is_under(f: ImageFile, prefix: Seq<u8>) -> bool {
    begins_with(encode_utf8(f.path@), prefix)
}

/// `list` without the sprites of the piece `name` under `prefix`.
pub open spec fn drop_section(list: Seq<ImageFile>, prefix: Seq<u8>, name: Seq<u8>) -> Seq<ImageFile>
    decreases list.len(),
{
    if list.len() == 0 {
        list
    } else if is_section_entry(list.last(), prefix, name) {
        drop_section(list.drop_last(), prefix, name)
    } else {
        drop_section(list.drop_last(), prefix, name).push(list.last())
    }
}

/// `i` is the first sprite of the piece `name` under `prefix`.
pub open spec fn first_section_entry(list: Seq<ImageFile>, prefix: Seq<u8>, name: Seq<u8>, i: int) -> bool {
    &&& 0 <= i < list.len()
    &&& is_section_entry(list[i], prefix, name)
    &&& forall|j: int| 0 <= j < i ==> !is_section_entry(#[trigger] list[j], prefix, name)
}

/// `i` is the last sprite under `prefix`.
pub open spec fn last_entry_under(list: Seq<ImageFile>, prefix: Seq<u8>, i: int) -> bool {
    &&& 0 <= i < list.len()
    &&& is_under(list[i], prefix)
    &&& forall|j: int| i < j < list.len() ==> !is_under(#[trigger] list[j], prefix)
}

/// `list` with the new sprites `new` of the piece `name` under `prefix`: they take the place of
/// the piece's older sprites; without older ones they follow the last sprite under the prefix,
/// and without that they go last. No new sprite leaves the list unchanged.
pub open spec fn merge_section(list: Seq<ImageFile>, prefix: Seq<u8>, name: Seq<u8>, new: Seq<ImageFile>) -> Seq<ImageFile> {
    if new.len() == 0 {
        list
    } else if exists|i: int| first_section_entry(list, prefix, name, i) {
        let i = choose|i: int| first_section_entry(list, prefix, name, i);
        list.take(i) + new + drop_section(list.skip(i), prefix, name)
    } else if exists|i: int| last_entry_under(list, prefix, i) {
        let i = choose|i: int| last_entry_under(list, prefix, i);
        list.take(i + 1) + new + list.skip(i + 1)
    } else {
        list + new
    }
}

/// `list` with the sprites of each rendered piece merged in, in order.
pub open spec fn merge_sections(list: Seq<ImageFile>, sections: Seq<TrackSectionSprites>) -> Seq<ImageFile>
    decreases sections.len(),
{
    if sections.len() == 0 {
        list
    } else {
        let s = sections.last();
        merge_section(
            merge_sections(list, sections.drop_last()),
            track_prefix(s.track_name@),
            encode_utf8(s.track_section_name@),
            s.sprites@,
        )
    }
}

/// All rendered sprites, piece after piece.
pub open spec fn all_sprites(sections: Seq<TrackSectionSprites>) -> Seq<ImageFile>
    decreases sections.len(),
{
    if sections.len() == 0 {
        Seq::empty()
    } else {
        all_sprites(sections.drop_last()) + sections.last().sprites@
    }
}

/// Appends copies of `list[from..to]` to `out`.
fn push_copies(out: &mut Vec<ImageFile>, list: &Vec<ImageFile>, from: usize, to: usize)
    requires
        from <= to <= list@.len(),
    ensures
        final(out)@ == old(out)@ + list@.subrange(from as int, to as int),
{
    let mut i = from;
    while i < to
        invariant
            from <= i <= to <= list@.len(),
            out@ == old(out)@ + list@.subrange(from as int, i as int),
        decreases to - i,
    {
        out.push(list[i].duplicate());
        i = i + 1;
        assert(out@ =~= old(out)@ + list@.subrange(from as int, i as int));
    }
}

/// The prefix of a track's sprite paths.
fn track_prefix_string(track_name: &String) -> (r: String)
    ensures
        r@ == "track/"@ + track_name@ + "/"@,
{
    let mut prefix = String::from_str("track/");
    prefix.append(track_name.as_str());
    prefix.append("/");
    prefix
}

proof fn lemma_drop_section_skip(list: Seq<ImageFile>, prefix: Seq<u8>, name: Seq<u8>, i: int, k: int)
    requires
        0 <= i <= k < list.len(),
    ensures
        list.subrange(i, k + 1).drop_last() == list.subrange(i, k),
        list.subrange(i, k + 1).last() == list[k],
{
    assert(list.subrange(i, k + 1).drop_last() =~= list.subrange(i, k));
}

/// The first sprite of the piece `name` under `prefix`.
fn find_first_section_entry(list: &Vec<ImageFile>, prefix: &str, name: &str) -> (r: Option<usize>)
    ensures
        match r {
            Some(i) => first_section_entry(list@, encode_utf8(prefix@), encode_utf8(name@), i as int),
            None => forall|j: int|
                0 <= j < list@.len() ==> !is_section_entry(#[trigger] list@[j], encode_utf8(prefix@), encode_utf8(name@)),
        },
{
    let mut i: usize = 0;
    while i < list.len()
        invariant
            i <= list@.len(),
            forall|j: int|
                0 <= j < i ==> !is_section_entry(#[trigger] list@[j], encode_utf8(prefix@), encode_utf8(name@)),
        decreases list@.len() - i,
    {
        if is_track_section_sprite(list[i].path.as_str(), prefix, name) {
            return Some(i);
        }
        i = i + 1;
    }
    None
}

/// The last sprite under `prefix`.
fn find_last_entry_under(list: &Vec<ImageFile>, prefix: &str) -> (r: Option<usize>)
    ensures
        match r {
            Some(i) => last_entry_under(list@, encode_utf8(prefix@), i as int),
            None => forall|j: int| 0 <= j < list@.len() ==> !is_under(#[trigger] list@[j], encode_utf8(prefix@)),
        },
{
    let mut i: usize = list.len();
    while i > 0
        invariant
            i <= list@.len(),
            forall|j: int| i <= j < list@.len() ==> !is_under(#[trigger] list@[j], encode_utf8(prefix@)),
        decreases i,
    {
        let path = list[i - 1].path.as_str().as_bytes();
        let under = bytes_begin_with(path, 0, prefix.as_bytes());
        proof {
            assert(path@.skip(0) =~= path@);
        }
        if under {
            return Some(i - 1);
        }
        i = i - 1;
    }
    None
}

/// Merges the sprites of one rendered piece into `list`.
fn merge_one(list: &Vec<ImageFile>, section: &TrackSectionSprites) -> (r: Vec<ImageFile>)
    ensures
        r@ == merge_section(
            list@,
            track_prefix(section.track_name@),
            encode_utf8(section.track_section_name@),
            section.sprites@,
        ),
{
    let ghost prefix = track_prefix(section.track_name@);
    let ghost name = encode_utf8(section.track_section_name@);
    let n = list.len();
    let mut out: Vec<ImageFile> = Vec::new();
    if section.sprites.len() == 0 {
        push_copies(&mut out, list, 0, n);
        assert(list@.subrange(0, n as int) =~= list@);
        return out;
    }
    let prefix_string = track_prefix_string(&section.track_name);
    let prefix_str = prefix_string.as_str();
    let name_str = section.track_section_name.as_str();
    let new_count = section.sprites.len();
    assert(section.sprites@.subrange(0, new_count as int) =~= section.sprites@);
    match find_first_section_entry(list, prefix_str, name_str) {
        Some(first) => {
            proof {
                let c = choose|i: int| first_section_entry(list@, prefix, name, i);
                assert(c == first) by {
                    if c < first {
                        assert(!is_section_entry(list@[c], prefix, name));
                    } else if c > first {
                        assert(!is_section_entry(list@[first as int], prefix, name));
                    }
                }
            }
            push_copies(&mut out, list, 0, first);
            push_copies(&mut out, &section.sprites, 0, new_count);
            let ghost head = out@;
            let mut k: usize = first;
            while k < n
                invariant
                    first <= k <= n == list@.len(),
                    prefix_str@ == "track/"@ + section.track_name@ + "/"@,
                    name_str@ == section.track_section_name@,
                    prefix == track_prefix(section.track_name@),
                    name == encode_utf8(section.track_section_name@),
                    out@ == head + drop_section(list@.subrange(first as int, k as int), prefix, name),
                decreases n - k,
            {
                proof {
                    lemma_drop_section_skip(list@, prefix, name, first as int, k as int);
                }
                if !is_track_section_sprite(list[k].path.as_str(), prefix_str, name_str) {
                    out.push(list[k].duplicate());
                }
                k = k + 1;
            }
            assert(list@.subrange(0, first as int) =~= list@.take(first as int));
            assert(list@.subrange(first as int, n as int) =~= list@.skip(first as int));
            out
        },
        None => {
            assert(!exists|i: int| first_section_entry(list@, prefix, name, i));
            match find_last_entry_under(list, prefix_str) {
                Some(last) => {
                    proof {
                        let c = choose|i: int| last_entry_under(list@, prefix, i);
                        assert(c == last) by {
                            if c < last {
                                assert(!is_under(list@[last as int], prefix));
                            } else if c > last {
                                assert(!is_under(list@[c], prefix));
                            }
                        }
                    }
                    push_copies(&mut out, list, 0, last + 1);
                    push_copies(&mut out, &section.sprites, 0, new_count);
                    push_copies(&mut out, list, last + 1, n);
                    assert(list@.subrange(0, last + 1) =~= list@.take(last + 1));
                    assert(list@.subrange(last + 1, n as int) =~= list@.skip(last + 1));
                    out
                },
                None => {
                    assert(!exists|i: int| last_entry_under(list@, prefix, i));
                    push_copies(&mut out, list, 0, n);
                    push_copies(&mut out, &section.sprites, 0, new_count);
                    assert(list@.subrange(0, n as int) =~= list@);
                    out
                },
            }
        },
    }
}

/// `existing` with the sprites of each rendered piece merged in, in order: a piece's new
/// sprites take the place of its older ones.
pub fn merge_sprites(existing: Vec<ImageFile>, sections: &Vec<TrackSectionSprites>) -> (r: Vec<ImageFile>)
    ensures
        r@ == merge_sections(existing@, sections@),
{
    let mut list = existing;
    let mut i: usize = 0;
    while i < sections.len()
        invariant
            i <= sections@.len(),
            list@ == merge_sections(existing@, sections@.take(i as int)),
        decreases sections@.len() - i,
    {
        assert(sections@.take(i + 1).drop_last() =~= sections@.take(i as int));
        list = merge_one(&list, &sections[i]);
        i = i + 1;
    }
    assert(sections@.take(sections@.len() as int) =~= sections@);
    list
}

/// All rendered sprites, piece after piece: the list of a track without an older one.
pub fn collect_sprites(sections: &Vec<TrackSectionSprites>) -> (r: Vec<ImageFile>)
    ensures
        r@ == all_sprites(sections@),
{
    let mut out: Vec<ImageFile> = Vec::new();
    let mut i: usize = 0;
    while i < sections.len()
        invariant
            i <= sections@.len(),
            out@ == all_sprites(sections@.take(i as int)),
        decreases sections@.len() - i,
    {
        assert(sections@.take(i + 1).drop_last() =~= sections@.take(i as int));
        let count = sections[i].sprites.len();
        push_copies(&mut out, &sections[i].sprites, 0, count);
        assert(sections[i as int].sprites@.subrange(0, count as int) =~= sections[i as int].sprites@);
        i = i + 1;
    }
    assert(sections@.take(sections@.len() as int) =~= sections@);
    out
}


proof fn lemma_drop_section_concat(a: Seq<ImageFile>, b: Seq<ImageFile>, prefix: Seq<u8>, name: Seq<u8>)
    ensures
        drop_section(a + b, prefix, name) == drop_section(a, prefix, name) + drop_section(b, prefix, name),
    decreases b.len(),
{
    if b.len() == 0 {
        assert(a + b =~= a);
        assert(drop_section(a, prefix, name) + drop_section(b, prefix, name) =~= drop_section(a, prefix, name));
    } else {
        lemma_drop_section_concat(a, b.drop_last(), prefix, name);
        assert((a + b).drop_last() =~= a + b.drop_last());
        assert((a + b).last() == b.last());
        if !is_section_entry(b.last(), prefix, name) {
            assert(drop_section(a, prefix, name) + drop_section(b.drop_last(), prefix, name).push(b.last())
                =~= (drop_section(a, prefix, name) + drop_section(b.drop_last(), prefix, name)).push(b.last()));
        }
    }
}

proof fn lemma_drop_section_none(a: Seq<ImageFile>, prefix: Seq<u8>, name: Seq<u8>)
    requires
        forall|k: int| 0 <= k < a.len() ==> !is_section_entry(#[trigger] a[k], prefix, name),
    ensures
        drop_section(a, prefix, name) == a,
    decreases a.len(),
{
    if a.len() > 0 {
        assert forall|k: int| 0 <= k < a.drop_last().len() implies !is_section_entry(#[trigger] a.drop_last()[k], prefix, name) by {
            assert(a.drop_last()[k] == a[k]);
        }
        lemma_drop_section_none(a.drop_last(), prefix, name);
        assert(a.last() == a[a.len() - 1]);
        assert(a.drop_last().push(a.last()) =~= a);
    }
}

proof fn lemma_drop_section_all(a: Seq<ImageFile>, prefix: Seq<u8>, name: Seq<u8>)
    requires
        forall|k: int| 0 <= k < a.len() ==> is_section_entry(#[trigger] a[k], prefix, name),
    ensures
        drop_section(a, prefix, name) == Seq::<ImageFile>::empty(),
    decreases a.len(),
{
    if a.len() > 0 {
        assert forall|k: int| 0 <= k < a.drop_last().len() implies is_section_entry(#[trigger] a.drop_last()[k], prefix, name) by {
            assert(a.drop_last()[k] == a[k]);
        }
        lemma_drop_section_all(a.drop_last(), prefix, name);
        assert(a.last() == a[a.len() - 1]);
    }
}

proof fn lemma_drop_section_clean(a: Seq<ImageFile>, prefix: Seq<u8>, name: Seq<u8>)
    ensures
        forall|k: int|
            0 <= k < drop_section(a, prefix, name).len() ==> !is_section_entry(
                #[trigger] drop_section(a, prefix, name)[k],
                prefix,
                name,
            ),
    decreases a.len(),
{
    if a.len() > 0 {
        lemma_drop_section_clean(a.drop_last(), prefix, name);
        let d = drop_section(a.drop_last(), prefix, name);
        if !is_section_entry(a.last(), prefix, name) {
            assert forall|k: int| 0 <= k < d.push(a.last()).len() implies !is_section_entry(
                #[trigger] d.push(a.last())[k],
                prefix,
                name,
            ) by {
                if k < d.len() {
                    assert(d.push(a.last())[k] == d[k]);
                }
            }
        }
    }
}

/// Merging the same new sprites of a piece twice gives what merging them once gives, so
/// writing a track's sprites again leaves the list as it is. The new sprites must all be
/// sprites of the piece.
pub proof fn lemma_merge_section_idempotent(list: Seq<ImageFile>, prefix: Seq<u8>, name: Seq<u8>, new: Seq<ImageFile>)
    requires
        new.len() > 0,
        forall|k: int| 0 <= k < new.len() ==> is_section_entry(#[trigger] new[k], prefix, name),
    ensures
        merge_section(merge_section(list, prefix, name, new), prefix, name, new) == merge_section(list, prefix, name, new),
{
    let m = merge_section(list, prefix, name, new);
    lemma_drop_section_all(new, prefix, name);
    if exists|i: int| first_section_entry(list, prefix, name, i) {
        let i = choose|i: int| first_section_entry(list, prefix, name, i);
        let rest = drop_section(list.skip(i), prefix, name);
        assert(m == list.take(i) + new + rest);
        assert(first_section_entry(m, prefix, name, i)) by {
            assert(m[i] == new[0]);
            assert forall|j: int| 0 <= j < i implies !is_section_entry(#[trigger] m[j], prefix, name) by {
                assert(m[j] == list[j]);
            }
        }
        let c = choose|c: int| first_section_entry(m, prefix, name, c);
        assert(c == i) by {
            if c < i {
                assert(m[c] == list[c]);
            } else if c > i {
            }
        }
        assert(m.take(i) =~= list.take(i));
        assert(m.skip(i) =~= new + rest);
        lemma_drop_section_concat(new, rest, prefix, name);
        lemma_drop_section_clean(list.skip(i), prefix, name);
        lemma_drop_section_none(rest, prefix, name);
        assert(drop_section(m.skip(i), prefix, name) =~= rest);
    } else {
        assert forall|k: int| 0 <= k < list.len() implies !is_section_entry(#[trigger] list[k], prefix, name) by {
            if is_section_entry(list[k], prefix, name) {
                lemma_first_exists(list, prefix, name, k);
            }
        }
        let (head, tail) = if exists|i: int| last_entry_under(list, prefix, i) {
            let j = choose|j: int| last_entry_under(list, prefix, j);
            (list.take(j + 1), list.skip(j + 1))
        } else {
            (list, Seq::<ImageFile>::empty())
        };
        assert(m =~= head + new + tail);
        let p = head.len() as int;
        assert forall|k: int| 0 <= k < head.len() implies !is_section_entry(#[trigger] head[k], prefix, name) by {
            assert(head[k] == list[k]);
        }
        assert forall|k: int| 0 <= k < tail.len() implies !is_section_entry(#[trigger] tail[k], prefix, name) by {
            assert(tail[k] == list[k + p]);
        }
        assert(first_section_entry(m, prefix, name, p)) by {
            assert(m[p] == new[0]);
            assert forall|j: int| 0 <= j < p implies !is_section_entry(#[trigger] m[j], prefix, name) by {
                assert(m[j] == head[j]);
            }
        }
        let c = choose|c: int| first_section_entry(m, prefix, name, c);
        assert(c == p) by {
            if c < p {
                assert(m[c] == head[c]);
            }
        }
        assert(m.take(p) =~= head);
        assert(m.skip(p) =~= new + tail);
        lemma_drop_section_concat(new, tail, prefix, name);
        lemma_drop_section_none(tail, prefix, name);
        assert(drop_section(m.skip(p), prefix, name) =~= tail);
    }
}

proof fn lemma_first_exists(list: Seq<ImageFile>, prefix: Seq<u8>, name: Seq<u8>, k: int)
    requires
        0 <= k < list.len(),
        is_section_entry(list[k], prefix, name),
    ensures
        exists|i: int| first_section_entry(list, prefix, name, i),
    decreases k,
{
    if forall|j: int| 0 <= j < k ==> !is_section_entry(#[trigger] list[j], prefix, name) {
        assert(first_section_entry(list, prefix, name, k));
    } else {
        let j = choose|j: int| 0 <= j < k && is_section_entry(#[trigger] list[j], prefix, name);
        lemma_first_exists(list, prefix, name, j);
    }
}

} // verus!
