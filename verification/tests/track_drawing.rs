use indexmap::IndexMap;
use rctgen::colour::Colour;
use rctgen::drawing::Options;
use rctgen::track_drawing::{draw_plan, DrawStep, PieceSprites, PlacedPiece, TileSprites, TrackSprite};

fn options(indexed: bool, adjacent_track: bool, original_track: bool) -> Options {
    Options { indexed, adjacent_track, original_track, colour_1: Colour::LightBlue, colour_2: Colour::BrightPink }
}

/// One tile at the piece's origin whose view 0 holds sprite `index`.
fn single_tile(index: usize) -> PieceSprites {
    PieceSprites {
        tiles: vec![[0, 0, 0]],
        sprites: vec![TileSprites {
            views: [vec![TrackSprite { index, offset: [0, 0, 0] }], Vec::new(), Vec::new(), Vec::new()],
        }],
    }
}

#[test]
fn plain_drawing_shows_the_rendered_image() {
    let plan = draw_plan(&Options::default(), true, 0, &Vec::new(), "flat", &Vec::new(), &IndexMap::new());
    assert_eq!(plan, vec![DrawStep::IndexedImage]);
    let plan = draw_plan(&options(false, false, false), false, 2, &Vec::new(), "flat", &Vec::new(), &IndexMap::new());
    assert_eq!(plan, vec![DrawStep::FullColourImage]);
}

#[test]
fn original_sprites_need_the_sprite_table() {
    let tiles = vec![[0, 0, 0], [32, 0, 0]];
    let mut table = IndexMap::new();
    table.insert(
        String::from("flat"),
        vec![
            TileSprites { views: [Vec::new(), vec![TrackSprite { index: 5, offset: [0, 0, 0] }], Vec::new(), Vec::new()] },
            TileSprites { views: [Vec::new(), vec![TrackSprite { index: 7, offset: [0, 0, 8] }], Vec::new(), Vec::new()] },
        ],
    );
    let plan = draw_plan(&options(true, false, true), true, 1, &Vec::new(), "flat", &tiles, &table);
    // The second tile turns a quarter: (32, 0) becomes (0, -32).
    assert_eq!(
        plan,
        vec![
            DrawStep::Sprite { index: 5, coords: [0, 0, 0] },
            DrawStep::Sprite { index: 7, coords: [0, -32, 8] },
        ]
    );
    let plan = draw_plan(&options(true, false, true), false, 1, &Vec::new(), "flat", &tiles, &table);
    assert_eq!(plan, vec![DrawStep::IndexedImage]);
    let plan = draw_plan(&options(true, false, true), true, 1, &Vec::new(), "gentle", &tiles, &table);
    assert_eq!(plan, vec![DrawStep::IndexedImage]);
}

#[test]
fn adjacent_pieces_are_drawn_around_the_piece() {
    let adjacent = vec![
        PlacedPiece { piece: single_tile(3), coords: [32, 0, 0], rotation: 0 },
        PlacedPiece { piece: single_tile(4), coords: [-32, 0, 0], rotation: 0 },
        PlacedPiece { piece: single_tile(6), coords: [0, 0, 0], rotation: 0 },
    ];
    let plan = draw_plan(&options(false, true, false), true, 0, &adjacent, "flat", &Vec::new(), &IndexMap::new());
    assert_eq!(
        plan,
        vec![
            DrawStep::Sprite { index: 4, coords: [-32, 0, 0] },
            DrawStep::Sprite { index: 6, coords: [0, 0, 0] },
            DrawStep::FullColourImage,
            DrawStep::Sprite { index: 3, coords: [32, 0, 0] },
            DrawStep::Sprite { index: 6, coords: [0, 0, 0] },
        ]
    );
    // Without the sprite table nothing adjacent is drawn.
    let plan = draw_plan(&options(false, true, false), false, 0, &adjacent, "flat", &Vec::new(), &IndexMap::new());
    assert_eq!(plan, vec![DrawStep::FullColourImage]);
}

#[test]
fn adjacent_pieces_turn_with_the_view() {
    // Turned once, a piece in view 1 shows its sprites of view (1 + 3) % 4 = 0.
    let adjacent = vec![PlacedPiece { piece: single_tile(9), coords: [32, 0, 0], rotation: 3 }];
    let plan = draw_plan(&options(true, true, false), true, 1, &adjacent, "flat", &Vec::new(), &IndexMap::new());
    // (32, 0) turned once in the view lies at (0, -32): behind the piece.
    assert_eq!(plan, vec![DrawStep::Sprite { index: 9, coords: [0, -32, 0] }, DrawStep::IndexedImage]);
}
