//! What the editor draws for a track piece, and in which order: the game's sprites of the
//! pieces next to it behind it, the piece itself, then the sprites in front of it.
use vstd::prelude::*;

use crate::adjacent::{sprite_keys, sprite_table_get, sprite_values};
use crate::drawing::{
    add_coords, addable, compare_coords, coords_rotatable, drawn_in, rotate_coords, spec_rotate_coords, DrawOrder,
    Options,
};

verus! {

/// A sprite drawn on a tile: its place in the sprite table and its offset from the tile.
#[derive(Clone, Copy, Debug)]
pub struct TrackSprite {
    pub index: usize,
    pub offset: [i16; 3],
}

/// The sprites of one tile of a piece, in each of the four views.
pub struct TileSprites {
    pub views: [Vec<TrackSprite>; 4],
}

/// A piece's tiles, relative to its first, with their sprites.
pub struct PieceSprites {
    pub tiles: Vec<[i16; 3]>,
    pub sprites: Vec<TileSprites>,
}

/// A piece placed next to the edited one: where it stands and its quarter turns.
pub struct PlacedPiece {
    pub piece: PieceSprites,
    pub coords: [i16; 3],
    pub rotation: u8,
}

/// One step of drawing a piece.
#[derive(Clone, Copy, Debug, PartialEq, Eq)]
pub enum DrawStep {
    /// A sprite of the sprite table, at coordinates relative to the piece.
    Sprite { index: usize, coords: [i16; 3] },
    /// The rendered piece, palette-indexed.
    IndexedImage,
    /// The rendered piece, in full colour.
    FullColourImage,
}

/// What a drawing step does, for contracts.
pub ghost enum StepView {
    Sprite(int, Seq<i16>),
    IndexedImage,
    FullColourImage,
}

pub open spec fn step_view(s: DrawStep) -> StepView {
    match s {
        DrawStep::Sprite { index, coords } => StepView::Sprite(index as int, coords@),
        DrawStep::IndexedImage => StepView::IndexedImage,
        DrawStep::FullColourImage => StepView::FullColourImage,
    }
}

pub open spec fn steps_of(s: Seq<DrawStep>) -> Seq<StepView> {
    s.map_values(|d: DrawStep| step_view(d))
}

/// The sum of two positions, each coordinate kept to `i16`.
pub open spec fn sum_coords(a: Seq<i16>, b: Seq<i16>) -> Seq<i16> {
    seq![(a[0] + b[0]) as i16, (a[1] + b[1]) as i16, (a[2] + b[2]) as i16]
}

/// Where tile `tile` of a piece standing at `coords`, turned `rotation` quarter turns, lies in
/// a view turned `view_rotation` quarter turns.
pub open spec fn tile_origin(tile: Seq<i16>, coords: Seq<i16>, rotation: int, view_rotation: int) -> Seq<i16> {
    spec_rotate_coords(sum_coords(coords, spec_rotate_coords(tile, rotation)), view_rotation)
}

/// Whether a sprite at `c` is drawn in the pass `pass`; outside the two passes every sprite is.
pub open spec fn shown_in(c: Seq<i16>, pass: Option<DrawOrder>) -> bool {
    match pass {
        Some(o) => drawn_in(c, o),
        None => true,
    }
}

/// The steps that draw the first `n` sprites of `sprites` on a tile at `origin` in the pass
/// `pass`.
pub open spec fn sprite_steps(origin: Seq<i16>, sprites: Seq<TrackSprite>, pass: Option<DrawOrder>, n: int) -> Seq<StepView>
    decreases n,
{
    if n <= 0 {
        Seq::empty()
    } else {
        let rest = sprite_steps(origin, sprites, pass, n - 1);
        let c = sum_coords(origin, sprites[n - 1].offset@);
        if shown_in(c, pass) {
            rest.push(StepView::Sprite(sprites[n - 1].index as int, c))
        } else {
            rest
        }
    }
}

/// What a piece's tiles and sprites hold, for contracts.
pub ghost struct PieceView {
    pub tiles: Seq<[i16; 3]>,
    pub sprites: Seq<TileSprites>,
}

/// What `p` holds.
pub open spec fn piece_view(p: PieceSprites) -> PieceView {
    PieceView { tiles: p.tiles@, sprites: p.sprites@ }
}

/// The number of tiles of a piece that have sprites.
pub open spec fn tile_count(p: PieceView) -> int {
    if p.tiles.len() <= p.sprites.len() {
        p.tiles.len() as int
    } else {
        p.sprites.len() as int
    }
}

/// The sprites of tile `t` of `p` in view `sprite_view`.
pub open spec fn tile_sprites(p: PieceView, t: int, sprite_view: int) -> Seq<TrackSprite> {
    p.sprites[t].views@[sprite_view]@
}

/// The steps that draw the sprites of the first `n` tiles of `p`, placed at `coords` and turned
/// `rotation` quarter turns, in a view turned `view_rotation` quarter turns, with the sprites
/// of view `sprite_view`.
pub open spec fn piece_steps(
    p: PieceView,
    coords: Seq<i16>,
    rotation: int,
    view_rotation: int,
    sprite_view: int,
    pass: Option<DrawOrder>,
    n: int,
) -> Seq<StepView>
    decreases n,
{
    if n <= 0 {
        Seq::empty()
    } else {
        let s = tile_sprites(p, n - 1, sprite_view);
        piece_steps(p, coords, rotation, view_rotation, sprite_view, pass, n - 1) + sprite_steps(
            tile_origin(p.tiles[n - 1]@, coords, rotation, view_rotation),
            s,
            pass,
            s.len() as int,
        )
    }
}

/// The view of a placed piece's sprites seen in a view turned `view_rotation` quarter turns.
pub open spec fn placed_sprite_view(p: PlacedPiece, view_rotation: int) -> int {
    (view_rotation + p.rotation) % 4
}

/// The steps that draw the first `n` placed pieces in the pass `pass`.
pub open spec fn adjacent_steps(pieces: Seq<PlacedPiece>, view_rotation: int, pass: DrawOrder, n: int) -> Seq<StepView>
    decreases n,
{
    if n <= 0 {
        Seq::empty()
    } else {
        let p = pieces[n - 1];
        adjacent_steps(pieces, view_rotation, pass, n - 1) + piece_steps(
            piece_view(p.piece),
            p.coords@,
            p.rotation as int,
            view_rotation,
            placed_sprite_view(p, view_rotation),
            Some(pass),
            tile_count(piece_view(p.piece)),
        )
    }
}

/// The steps that draw the edited piece's own sprites in a view turned `view_rotation`
/// quarter turns.
pub open spec fn original_steps(p: PieceView, view_rotation: int) -> Seq<StepView> {
    piece_steps(p, seq![0i16, 0i16, 0i16], 0, view_rotation, view_rotation, None, tile_count(p))
}

/// The step that draws the rendered piece.
pub open spec fn image_step(options: Options) -> StepView {
    if options.indexed {
        StepView::IndexedImage
    } else {
        StepView::FullColourImage
    }
}

/// What the editor draws for the piece: with adjacent pieces shown (and the sprite table
/// loaded), their sprites behind the piece, the piece, then their sprites in front of it; the
/// piece is its own sprites where those are asked for and known, else its rendered image.
pub open spec fn spec_draw_plan(
    options: Options,
    has_sprites: bool,
    view_rotation: int,
    adjacent: Seq<PlacedPiece>,
    original: Option<PieceView>,
) -> Seq<StepView> {
    let piece = if options.original_track && original is Some {
        original_steps(original->0, view_rotation)
    } else {
        seq![image_step(options)]
    };
    if options.adjacent_track && has_sprites {
        adjacent_steps(adjacent, view_rotation, DrawOrder::Before, adjacent.len() as int) + piece + adjacent_steps(
            adjacent,
            view_rotation,
            DrawOrder::After,
            adjacent.len() as int,
        )
    } else if options.original_track && has_sprites && original is Some {
        piece
    } else {
        seq![image_step(options)]
    }
}

/// A sprite on a tile at `origin` can be placed, and its pass decided, within `i16`.
pub open spec fn sprite_fits(origin: Seq<i16>, s: TrackSprite, pass: Option<DrawOrder>) -> bool {
    &&& addable(origin, s.offset@)
    &&& pass is Some ==> i16::MIN <= sum_coords(origin, s.offset@)[0] + sum_coords(origin, s.offset@)[1] <= i16::MAX
}

/// Every tile of `p` with sprites, and every sprite of it in view `sprite_view`, can be placed
/// within `i16`.
pub open spec fn piece_fits(
    p: PieceView,
    coords: Seq<i16>,
    rotation: int,
    view_rotation: int,
    sprite_view: int,
    pass: Option<DrawOrder>,
) -> bool {
    forall|t: int|
        0 <= t < tile_count(p) ==> {
            let tile = #[trigger] p.tiles[t]@;
            &&& coords_rotatable(tile, rotation)
            &&& addable(coords, spec_rotate_coords(tile, rotation))
            &&& coords_rotatable(sum_coords(coords, spec_rotate_coords(tile, rotation)), view_rotation)
            &&& forall|k: int|
                0 <= k < tile_sprites(p, t, sprite_view).len() ==> sprite_fits(
                    tile_origin(tile, coords, rotation, view_rotation),
                    #[trigger] tile_sprites(p, t, sprite_view)[k],
                    pass,
                )
        }
}

proof fn lemma_sum_coords(a: [i16; 3], b: [i16; 3], r: [i16; 3])
    requires
        addable(a@, b@),
        forall|k: int| 0 <= k < 3 ==> #[trigger] r@[k] == a@[k] + b@[k],
    ensures
        r@ == sum_coords(a@, b@),
{
    assert(r@ =~= sum_coords(a@, b@));
}

/// Appends the steps that draw `sprites` on a tile at `origin` in the pass `pass`.
fn push_sprite_steps(out: &mut Vec<DrawStep>, origin: &[i16; 3], sprites: &Vec<TrackSprite>, pass: Option<DrawOrder>)
    requires
        forall|k: int| 0 <= k < sprites@.len() ==> sprite_fits(origin@, #[trigger] sprites@[k], pass),
    ensures
        steps_of(final(out)@) == steps_of(old(out)@) + sprite_steps(origin@, sprites@, pass, sprites@.len() as int),
{
    let ghost start = steps_of(out@);
    let mut k: usize = 0;
    while k < sprites.len()
        invariant
            k <= sprites@.len(),
            forall|j: int| 0 <= j < sprites@.len() ==> sprite_fits(origin@, #[trigger] sprites@[j], pass),
            steps_of(out@) == start + sprite_steps(origin@, sprites@, pass, k as int),
        decreases sprites@.len() - k,
    {
        let sprite = sprites[k];
        assert(sprite_fits(origin@, sprites@[k as int], pass));
        let coords = add_coords(origin, &sprite.offset);
        proof {
            lemma_sum_coords(*origin, sprite.offset, coords);
        }
        let shown = match pass {
            Some(o) => compare_coords(&coords, o),
            None => true,
        };
        if shown {
            let ghost before = out@;
            out.push(DrawStep::Sprite { index: sprite.index, coords });
            assert(steps_of(out@) =~= steps_of(before).push(StepView::Sprite(sprite.index as int, coords@)));
        }
        k = k + 1;
    }
}

/// Appends the steps that draw the sprites of a piece with tiles `tiles` and sprites `sprites`,
/// placed at `coords` and turned `rotation` quarter turns, in a view turned `view_rotation`
/// quarter turns, with its sprites of view `sprite_view`, in the pass `pass`.
fn push_piece_steps(
    out: &mut Vec<DrawStep>,
    tiles: &[[i16; 3]],
    sprites: &[TileSprites],
    coords: &[i16; 3],
    rotation: usize,
    view_rotation: usize,
    sprite_view: usize,
    pass: Option<DrawOrder>,
)
    requires
        sprite_view < 4,
        piece_fits(
            PieceView { tiles: tiles@, sprites: sprites@ },
            coords@,
            rotation as int,
            view_rotation as int,
            sprite_view as int,
            pass,
        ),
    ensures
        steps_of(final(out)@) == steps_of(old(out)@) + piece_steps(
            PieceView { tiles: tiles@, sprites: sprites@ },
            coords@,
            rotation as int,
            view_rotation as int,
            sprite_view as int,
            pass,
            tile_count(PieceView { tiles: tiles@, sprites: sprites@ }),
        ),
{
    let ghost pv = PieceView { tiles: tiles@, sprites: sprites@ };
    let ghost start = steps_of(out@);
    let n = if tiles.len() <= sprites.len() {
        tiles.len()
    } else {
        sprites.len()
    };
    let mut t: usize = 0;
    while t < n
        invariant
            t <= n,
            pv == (PieceView { tiles: tiles@, sprites: sprites@ }),
            n == tile_count(pv),
            sprite_view < 4,
            piece_fits(pv, coords@, rotation as int, view_rotation as int, sprite_view as int, pass),
            steps_of(out@) == start + piece_steps(
                pv,
                coords@,
                rotation as int,
                view_rotation as int,
                sprite_view as int,
                pass,
                t as int,
            ),
        decreases n - t,
    {
        let tile = &tiles[t];
        assert(coords_rotatable(pv.tiles[t as int]@, rotation as int));
        let turned = rotate_coords(tile, rotation);
        let placed = add_coords(coords, &turned);
        proof {
            lemma_sum_coords(*coords, turned, placed);
        }
        let origin = rotate_coords(&placed, view_rotation);
        let tile_sprite_list = &sprites[t].views[sprite_view];
        assert(tile_sprite_list@ == tile_sprites(pv, t as int, sprite_view as int));
        assert forall|k: int| 0 <= k < tile_sprite_list@.len() implies sprite_fits(
            origin@,
            #[trigger] tile_sprite_list@[k],
            pass,
        ) by {
            assert(sprite_fits(
                tile_origin(pv.tiles[t as int]@, coords@, rotation as int, view_rotation as int),
                tile_sprites(pv, t as int, sprite_view as int)[k],
                pass,
            ));
        }
        push_sprite_steps(out, &origin, tile_sprite_list, pass);
        assert(steps_of(out@) =~= start + piece_steps(
            pv,
            coords@,
            rotation as int,
            view_rotation as int,
            sprite_view as int,
            pass,
            t + 1,
        ));
        t = t + 1;
    }
}


/// Every adjacent piece can be drawn within `i16` in the pass `pass`.
pub open spec fn adjacent_fit(pieces: Seq<PlacedPiece>, view_rotation: int, pass: DrawOrder) -> bool {
    forall|i: int|
        0 <= i < pieces.len() ==> piece_fits(
            piece_view((#[trigger] pieces[i]).piece),
            pieces[i].coords@,
            pieces[i].rotation as int,
            view_rotation,
            placed_sprite_view(pieces[i], view_rotation),
            Some(pass),
        )
}

/// Appends the steps that draw the adjacent pieces in the pass `pass`.
fn push_adjacent_steps(out: &mut Vec<DrawStep>, pieces: &Vec<PlacedPiece>, view_rotation: usize, pass: DrawOrder)
    requires
        adjacent_fit(pieces@, view_rotation as int, pass),
    ensures
        steps_of(final(out)@) == steps_of(old(out)@) + adjacent_steps(
            pieces@,
            view_rotation as int,
            pass,
            pieces@.len() as int,
        ),
{
    let ghost start = steps_of(out@);
    let mut i: usize = 0;
    while i < pieces.len()
        invariant
            i <= pieces@.len(),
            adjacent_fit(pieces@, view_rotation as int, pass),
            steps_of(out@) == start + adjacent_steps(pieces@, view_rotation as int, pass, i as int),
        decreases pieces@.len() - i,
    {
        let p = &pieces[i];
        let sprite_view = (p.rotation as usize + view_rotation % 4) % 4;
        proof {
            vstd::arithmetic::div_mod::lemma_add_mod_noop_right(p.rotation as int, view_rotation as int, 4);
        }
        assert(piece_fits(
            piece_view(p.piece),
            p.coords@,
            p.rotation as int,
            view_rotation as int,
            placed_sprite_view(pieces@[i as int], view_rotation as int),
            Some(pass),
        ));
        push_piece_steps(
            out,
            p.piece.tiles.as_slice(),
            p.piece.sprites.as_slice(),
            &p.coords,
            p.rotation as usize,
            view_rotation,
            sprite_view,
            Some(pass),
        );
        assert(steps_of(out@) =~= start + adjacent_steps(pieces@, view_rotation as int, pass, i + 1));
        i = i + 1;
    }
}

/// The own sprites of the piece `name`, with tiles `tiles`, where the sprite table `table` has
/// an entry for it.
pub open spec fn original_piece(
    table: indexmap::IndexMap<String, Vec<TileSprites>>,
    name: Seq<char>,
    tiles: Seq<[i16; 3]>,
) -> Option<PieceView> {
    let keys = sprite_keys(table);
    if exists|i: int| 0 <= i < keys.len() && keys[i] == name {
        Some(
            PieceView {
                tiles,
                sprites: sprite_values(table)[choose|i: int| 0 <= i < keys.len() && keys[i] == name],
            },
        )
    } else {
        None
    }
}

/// The steps that draw the piece `name`, with tiles `tiles`, in a view turned `view_rotation`
/// quarter turns: the pieces next to it come from `adjacent`, its own sprites, where known, from
/// the sprite table `original_sprites`, and `has_sprites` tells whether the game's sprites are
/// loaded.
pub fn draw_plan(
    options: &Options,
    has_sprites: bool,
    view_rotation: usize,
    adjacent: &Vec<PlacedPiece>,
    name: &str,
    tiles: &Vec<[i16; 3]>,
    original_sprites: &indexmap::IndexMap<String, Vec<TileSprites>>,
) -> (r: Vec<DrawStep>)
    requires
        options.adjacent_track && has_sprites ==> adjacent_fit(
            adjacent@,
            view_rotation as int,
            DrawOrder::Before,
        ) && adjacent_fit(adjacent@, view_rotation as int, DrawOrder::After),
        options.original_track && has_sprites && original_piece(*original_sprites, name@, tiles@) is Some
            ==> view_rotation < 4 && piece_fits(
            original_piece(*original_sprites, name@, tiles@)->0,
            seq![0i16, 0i16, 0i16],
            0,
            view_rotation as int,
            view_rotation as int,
            None,
        ),
    ensures
        steps_of(r@) == spec_draw_plan(
            *options,
            has_sprites,
            view_rotation as int,
            adjacent@,
            original_piece(*original_sprites, name@, tiles@),
        ),
{
    let ghost orig = original_piece(*original_sprites, name@, tiles@);
    let mut out: Vec<DrawStep> = Vec::new();
    let image = if options.indexed {
        DrawStep::IndexedImage
    } else {
        DrawStep::FullColourImage
    };
    let origin: [i16; 3] = [0, 0, 0];
    assert(origin@ =~= seq![0i16, 0i16, 0i16]);
    let original = sprite_table_get(original_sprites, name);
    proof {
        let keys = sprite_keys(*original_sprites);
        match original {
            Some(v) => {
                let c = choose|i: int| 0 <= i < keys.len() && keys[i] == name@;
                assert(orig == Some(PieceView { tiles: tiles@, sprites: v@ }));
            },
            None => {
                assert(!(exists|i: int| 0 <= i < keys.len() && keys[i] == name@));
                assert(orig is None);
            },
        }
    }
    if options.adjacent_track && has_sprites {
        assert(steps_of(out@) =~= Seq::<StepView>::empty());
        push_adjacent_steps(&mut out, adjacent, view_rotation, DrawOrder::Before);
        match original {
            Some(p) if options.original_track => {
                push_piece_steps(&mut out, tiles.as_slice(), p.as_slice(), &origin, 0, view_rotation, view_rotation, None);
            },
            _ => {
                let ghost prev = out@;
                out.push(image);
                assert(steps_of(out@) =~= steps_of(prev).push(step_view(image)));
            },
        }
        push_adjacent_steps(&mut out, adjacent, view_rotation, DrawOrder::After);
    } else {
        match original {
            Some(p) if options.original_track && has_sprites => {
                assert(steps_of(out@) =~= Seq::<StepView>::empty());
                push_piece_steps(&mut out, tiles.as_slice(), p.as_slice(), &origin, 0, view_rotation, view_rotation, None);
            },
            _ => {
                out.push(image);
                assert(steps_of(out@) =~= seq![step_view(image)]);
            },
        }
    }
    out
}

} // verus!
