//! The track pieces drawn next to the edited one, so its joins can be checked.
use vstd::prelude::*;
use vstd::view::View as _;

use crate::track_drawing::TileSprites;

verus! {

/// A piece drawn next to another: its name, where it stands relative to that piece, and its
/// quarter turns.
pub struct AdjacentTrackSection {
    pub track_section: String,
    pub coords: [i16; 3],
    pub rotation: u8,
}

/// An adjacent piece with the sprites it is drawn with, given as their place in the sprite
/// table.
pub struct TrackSectionWithSprites {
    pub track_section: String,
    pub coords: [i16; 3],
    pub rotation: u8,
    pub sprites: usize,
}

#[verifier::external_type_specification]
#[verifier::external_body]
#[verifier::reject_recursive_types(K)]
#[verifier::reject_recursive_types(V)]
#[verifier::reject_recursive_types(S)]
pub struct ExIndexMap<K, V, S>(indexmap::IndexMap<K, V, S>);

#[verifier::external_type_specification]
#[verifier::external_body]
#[verifier::reject_recursive_types(T)]
pub struct ExHeaplessVec<T, const N: usize>(heapless::Vec<T, N>);

/// The names of the pieces that have pieces next to them, in the table's order.
pub uninterp spec fn adjacent_keys(m: indexmap::IndexMap<String, heapless::Vec<AdjacentTrackSection, 2>>) -> Seq<
    Seq<char>,
>;

/// For each piece of the table, in the same order, the pieces next to it.
pub uninterp spec fn adjacent_values(
    m: indexmap::IndexMap<String, heapless::Vec<AdjacentTrackSection, 2>>,
) -> Seq<Seq<AdjacentTrackSection>>;

/// The pieces held by a list of at most two adjacent pieces.
pub uninterp spec fn adjacent_items(v: heapless::Vec<AdjacentTrackSection, 2>) -> Seq<AdjacentTrackSection>;

/// The names of the pieces of a sprite table, in the table's order.
pub uninterp spec fn sprite_keys(m: indexmap::IndexMap<String, Vec<TileSprites>>) -> Seq<Seq<char>>;

/// For each piece of a sprite table, in the same order, its sprites, tile by tile.
pub uninterp spec fn sprite_values(m: indexmap::IndexMap<String, Vec<TileSprites>>) -> Seq<Seq<TileSprites>>;

/// The pieces held by a list of at most two listed pieces.
pub uninterp spec fn listed_items(v: heapless::Vec<TrackSectionWithSprites, 2>) -> Seq<TrackSectionWithSprites>;

/// Looks up the pieces next to the piece `name`.
/// Calls `indexmap::IndexMap::get`, which gives the value of the entry whose key equals `name`
/// (the map holds at most one such entry), or `None` where there is none.
#[verifier::external_body]
fn adjacent_get<'a>(
    m: &'a indexmap::IndexMap<String, heapless::Vec<AdjacentTrackSection, 2>>,
    name: &str,
) -> (r: Option<&'a heapless::Vec<AdjacentTrackSection, 2>>)
    ensures
        match r {
            Some(v) => {
                &&& exists|i: int| 0 <= i < adjacent_keys(*m).len() && adjacent_keys(*m)[i] == name@
                &&& forall|i: int|
                    0 <= i < adjacent_keys(*m).len() && adjacent_keys(*m)[i] == name@ ==> adjacent_values(*m)[i]
                        == adjacent_items(*v)
            },
            None => forall|i: int| 0 <= i < adjacent_keys(*m).len() ==> adjacent_keys(*m)[i] != name@,
        },
{
    m.get(name)
}

/// The adjacent pieces of a list, as a slice.
/// Calls `heapless::Vec::as_slice`, which gives the list's items in order.
#[verifier::external_body]
fn adjacent_slice(v: &heapless::Vec<AdjacentTrackSection, 2>) -> (r: &[AdjacentTrackSection])
    ensures
        r@ == adjacent_items(*v),
{
    v.as_slice()
}

/// Where the sprites of the piece `name` stand in the sprite table.
/// Calls `indexmap::IndexMap::get_index_of`, which gives the place of the entry whose key
/// equals `name` (the map holds at most one such entry), or `None` where there is none.
#[verifier::external_body]
fn sprite_index_of(m: &indexmap::IndexMap<String, Vec<TileSprites>>, name: &str) -> (r: Option<usize>)
    ensures
        match r {
            Some(j) => {
                &&& j < sprite_keys(*m).len()
                &&& sprite_keys(*m)[j as int] == name@
                &&& forall|k: int| 0 <= k < sprite_keys(*m).len() && sprite_keys(*m)[k] == name@ ==> k == j
            },
            None => forall|k: int| 0 <= k < sprite_keys(*m).len() ==> sprite_keys(*m)[k] != name@,
        },
{
    m.get_index_of(name)
}

/// Looks up the sprites of the piece `name` in a sprite table.
/// Calls `indexmap::IndexMap::get`, which gives the value of the entry whose key equals `name`
/// (the map holds at most one such entry), or `None` where there is none.
#[verifier::external_body]
pub(crate) fn sprite_table_get<'a>(m: &'a indexmap::IndexMap<String, Vec<TileSprites>>, name: &str) -> (r: Option<
    &'a Vec<TileSprites>,
>)
    ensures
        match r {
            Some(v) => {
                &&& exists|i: int| 0 <= i < sprite_keys(*m).len() && sprite_keys(*m)[i] == name@
                &&& forall|i: int|
                    0 <= i < sprite_keys(*m).len() && sprite_keys(*m)[i] == name@ ==> sprite_values(*m)[i] == v@
            },
            None => forall|i: int| 0 <= i < sprite_keys(*m).len() ==> sprite_keys(*m)[i] != name@,
        },
{
    m.get(name)
}

/// An empty list of listed pieces.
/// Calls `heapless::Vec::new`, which holds nothing.
#[verifier::external_body]
fn listed_new() -> (r: heapless::Vec<TrackSectionWithSprites, 2>)
    ensures
        listed_items(r) == Seq::<TrackSectionWithSprites>::empty(),
{
    heapless::Vec::new()
}

/// Adds a listed piece where there is room for it.
/// Calls `heapless::Vec::push`, which appends the item when the list holds fewer than two
/// items and otherwise leaves the list as it is.
#[verifier::external_body]
fn listed_push(v: &mut heapless::Vec<TrackSectionWithSprites, 2>, item: TrackSectionWithSprites)
    ensures
        listed_items(*final(v)) == if listed_items(*old(v)).len() < 2 {
            listed_items(*old(v)).push(item)
        } else {
            listed_items(*old(v))
        },
{
    let _ignore_full = v.push(item);
}

/// The pieces next to the piece `name`: none where the table has no entry for it.
pub open spec fn adjacent_of(
    m: indexmap::IndexMap<String, heapless::Vec<AdjacentTrackSection, 2>>,
    name: Seq<char>,
) -> Seq<AdjacentTrackSection> {
    let keys = adjacent_keys(m);
    if exists|i: int| 0 <= i < keys.len() && keys[i] == name {
        adjacent_values(m)[choose|i: int| 0 <= i < keys.len() && keys[i] == name]
    } else {
        Seq::empty()
    }
}

/// The place of the piece `name` in a list of names that holds it.
pub open spec fn place_of(keys: Seq<Seq<char>>, name: Seq<char>) -> int {
    choose|j: int| 0 <= j < keys.len() && keys[j] == name
}

/// The entry for `a` in the result: `a` with the place of its sprites, if the table has any.
pub open spec fn adjacent_entry(a: AdjacentTrackSection, keys: Seq<Seq<char>>) -> Seq<(Seq<char>, Seq<i16>, u8, int)> {
    if keys.contains(a.track_section@) {
        seq![(a.track_section@, a.coords@, a.rotation, place_of(keys, a.track_section@))]
    } else {
        Seq::empty()
    }
}

/// The entries for the first `n` pieces of `adjacent`.
pub open spec fn adjacent_entries(adjacent: Seq<AdjacentTrackSection>, keys: Seq<Seq<char>>, n: int) -> Seq<
    (Seq<char>, Seq<i16>, u8, int),
>
    decreases n,
{
    if n <= 0 {
        Seq::empty()
    } else {
        adjacent_entries(adjacent, keys, n - 1) + adjacent_entry(adjacent[n - 1], keys)
    }
}

/// At most the first two of `s`.
pub open spec fn first_two<A>(s: Seq<A>) -> Seq<A> {
    if s.len() <= 2 {
        s
    } else {
        s.take(2)
    }
}

/// What an entry of the result holds.
pub open spec fn entry_view(e: TrackSectionWithSprites) -> (Seq<char>, Seq<i16>, u8, int) {
    (e.track_section@, e.coords@, e.rotation, e.sprites as int)
}

proof fn lemma_first_two_push<A>(s: Seq<A>, t: Seq<A>)
    requires
        t.len() <= 1,
    ensures
        first_two(s + t) == if s.len() < 2 {
            s + t
        } else {
            first_two(s)
        },
{
    if s.len() >= 2 {
        assert((s + t).take(2) =~= s.take(2));
    }
}

/// The pieces drawn next to the piece `track_section_name`, in order, each with the place of
/// its sprites in `sprites`; pieces without sprites are left out, and at most two are listed.
pub fn list_track_sections(
    track_section_name: &str,
    adjacent_sections: &indexmap::IndexMap<String, heapless::Vec<AdjacentTrackSection, 2>>,
    sprites: &indexmap::IndexMap<String, Vec<TileSprites>>,
) -> (r: heapless::Vec<TrackSectionWithSprites, 2>)
    ensures
        ({
            let adjacent = adjacent_of(*adjacent_sections, track_section_name@);
            listed_items(r).map_values(|e: TrackSectionWithSprites| entry_view(e)) == first_two(
                adjacent_entries(adjacent, sprite_keys(*sprites), adjacent.len() as int),
            )
        }),
{
    let ghost keys = sprite_keys(*sprites);
    let mut out = listed_new();
    match adjacent_get(adjacent_sections, track_section_name) {
        Some(list) => {
            let adjacent = adjacent_slice(list);
            proof {
                let ks = adjacent_keys(*adjacent_sections);
                let c = choose|i: int| 0 <= i < ks.len() && ks[i] == track_section_name@;
                assert(adjacent_of(*adjacent_sections, track_section_name@) == adjacent@);
            }
            assert(listed_items(out).map_values(|e: TrackSectionWithSprites| entry_view(e)) =~= first_two(
                adjacent_entries(adjacent@, keys, 0),
            ));
            let mut i: usize = 0;
            while i < adjacent.len()
                invariant
                    i <= adjacent@.len(),
                    keys == sprite_keys(*sprites),
                    listed_items(out).map_values(|e: TrackSectionWithSprites| entry_view(e)) == first_two(
                        adjacent_entries(adjacent@, keys, i as int),
                    ),
                decreases adjacent@.len() - i,
            {
                let ghost before = adjacent_entries(adjacent@, keys, i as int);
                let ghost old_items = listed_items(out);
                let a = &adjacent[i];
                let ghost entry = adjacent_entry(adjacent@[i as int], keys);
                proof {
                    lemma_first_two_push(before, entry);
                }
                match sprite_index_of(sprites, a.track_section.as_str()) {
                    Some(j) => {
                        proof {
                            assert(keys.contains(a.track_section@));
                            let c = place_of(keys, a.track_section@);
                            assert(c == j);
                        }
                        let item = TrackSectionWithSprites {
                            track_section: a.track_section.clone(),
                            coords: a.coords,
                            rotation: a.rotation,
                            sprites: j,
                        };
                        proof {
                            assert(item.track_section@ == a.track_section@);
                        }
                        listed_push(&mut out, item);
                        proof {
                            let mv = |e: TrackSectionWithSprites| entry_view(e);
                            assert(old_items.map_values(mv).len() == old_items.len());
                            if old_items.len() < 2 {
                                assert(listed_items(out).map_values(mv) =~= old_items.map_values(mv).push(
                                    entry_view(item),
                                ));
                                assert(before.len() < 2);
                                assert(before + entry =~= before.push(entry_view(item)));
                            }
                        }
                    },
                    None => {
                        proof {
                            assert(!keys.contains(a.track_section@));
                            assert(entry =~= Seq::empty());
                            assert(before + entry =~= before);
                        }
                    },
                }
                assert(adjacent_entries(adjacent@, keys, i + 1) == before + entry);
                i = i + 1;
            }
        },
        None => {
            proof {
                let ks = adjacent_keys(*adjacent_sections);
                assert(!(exists|i: int| 0 <= i < ks.len() && ks[i] == track_section_name@));
            }
            assert(listed_items(out).map_values(|e: TrackSectionWithSprites| entry_view(e)) =~= first_two(
                adjacent_entries(Seq::empty(), keys, 0),
            ));
        },
    }
    out
}

} // verus!
