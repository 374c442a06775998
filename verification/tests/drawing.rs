use rctgen::colour::{Colour, COLOUR_RAMPS};
use rctgen::coords::{Coords, ScreenCoords};
use rctgen::drawing::{
    add_coords, clip_image_to_buffer, compare_coords, draw_sprite, remap_pixel, rotate_coords, DrawOrder, PixelWrite,
};
use rctgen::supports::{
    draw_support, rotate_support_type, MetalSupport, MetalSupportType, SupportDraw, SupportGraphicType,
    SupportPosition,
};

#[test]
fn coordinates_add_and_turn() {
    assert_eq!(add_coords(&[1, 2, 3], &[10, -20, 30]), [11, -18, 33]);
    assert_eq!(rotate_coords(&[1, 2, 3], 0), [1, 2, 3]);
    assert_eq!(rotate_coords(&[1, 2, 3], 1), [2, -1, 3]);
    assert_eq!(rotate_coords(&[1, 2, 3], 2), [-1, -2, 3]);
    assert_eq!(rotate_coords(&[1, 2, 3], 3), [-2, 1, 3]);
    assert_eq!(rotate_coords(&[1, 2, 3], 4), [1, 2, 3]);
    let mut c = [5, -7, 9];
    for _ in 0..4 {
        c = rotate_coords(&c, 1);
    }
    assert_eq!(c, [5, -7, 9]);
}

#[test]
fn draw_order_splits_around_the_piece() {
    assert!(compare_coords(&[-32, 0, 0], DrawOrder::Before));
    assert!(!compare_coords(&[-32, 0, 0], DrawOrder::After));
    assert!(compare_coords(&[32, 0, 0], DrawOrder::After));
    assert!(compare_coords(&[16, -16, 0], DrawOrder::Before));
    assert!(compare_coords(&[16, -16, 0], DrawOrder::After));
    assert!(!compare_coords(&[16, -16, 8], DrawOrder::Before));
}

#[test]
fn world_coordinates_turn_and_project() {
    let c = Coords::new(1, 2, 3);
    assert_eq!(c.rotate(1), Coords::new(2, -1, 3));
    assert_eq!(c.rotate(3), Coords::new(-2, 1, 3));
    assert_eq!(c.rotate(5), c);
    let s = ScreenCoords::from_coords(&Coords::new(32, 0, 0));
    assert_eq!((s.x, s.y), (-32, 16));
    let s = ScreenCoords::from_coords(&Coords::new(1, 0, 4));
    assert_eq!((s.x, s.y), (-1, -4));
}

#[test]
fn clipping_keeps_the_part_on_the_canvas() {
    let clip = clip_image_to_buffer(&ScreenCoords { x: 5, y: 5 }, 8, 8, (0, 0), 4, 4, (0, 0));
    assert_eq!((clip.dest_x, clip.dest_y, clip.src_x, clip.src_y, clip.width, clip.height), (5, 5, 0, 0, 3, 3));
    let clip = clip_image_to_buffer(&ScreenCoords { x: -2, y: 0 }, 8, 8, (0, 1), 4, 4, (0, 0));
    assert_eq!((clip.dest_x, clip.dest_y, clip.src_x, clip.src_y, clip.width, clip.height), (0, 1, 2, 0, 2, 4));
    // Far off the canvas, close to the end of i32: nothing is left to copy.
    let clip = clip_image_to_buffer(&ScreenCoords { x: i32::MAX - 100, y: 0 }, 8, 8, (0, 0), 4, 4, (0, 0));
    assert_eq!((clip.dest_x, clip.src_x, clip.width), (i32::MAX - 100, 0, 108 - i32::MAX));
}

#[test]
fn remapping_paints_the_two_ramps() {
    assert_eq!(remap_pixel(100, Colour::Black, Colour::Grey), 100);
    assert_eq!(remap_pixel(0, Colour::Black, Colour::Grey), 0);
    assert_eq!(remap_pixel(243, Colour::LightBlue, Colour::Grey), 130);
    assert_eq!(remap_pixel(254, Colour::Black, Colour::Grey), 17);
    assert_eq!(remap_pixel(202, Colour::Black, Colour::BrightPink), 202);
    assert_eq!(remap_pixel(213, Colour::Black, Colour::White), 21);
    assert_eq!(COLOUR_RAMPS[Colour::Void.index()], [10; 12]);
}

#[test]
fn drawing_a_sprite_skips_transparent_pixels() {
    let pixels = [0, 243, 202, 7];
    let writes = draw_sprite(4, 4, (0, 0), 2, 2, (0, 0), &pixels, &Coords::new(0, 0, 0), Colour::LightBlue, Colour::BrightPink);
    assert_eq!(
        writes,
        vec![
            PixelWrite { x: 1, y: 0, pixel: 130 },
            PixelWrite { x: 0, y: 1, pixel: 202 },
            PixelWrite { x: 1, y: 1, pixel: 7 },
        ]
    );
    // One column left of the canvas: only the sprite's right column lands.
    let writes = draw_sprite(4, 4, (0, 0), 2, 2, (0, 0), &pixels, &Coords::new(1, 0, 0), Colour::LightBlue, Colour::BrightPink);
    assert_eq!(writes, vec![PixelWrite { x: 0, y: 0, pixel: 130 }, PixelWrite { x: 0, y: 1, pixel: 7 }]);
    // Entirely off the canvas.
    let writes = draw_sprite(4, 4, (0, 0), 2, 2, (0, 0), &pixels, &Coords::new(-100, 0, 0), Colour::LightBlue, Colour::BrightPink);
    assert!(writes.is_empty());
}

#[test]
fn support_positions_turn_with_the_view() {
    assert_eq!(SupportPosition::TopCorner.rotate(1), SupportPosition::RightCorner);
    assert_eq!(SupportPosition::TopCorner.rotate(5), SupportPosition::RightCorner);
    assert_eq!(SupportPosition::TopLeftSide.rotate(2), SupportPosition::BottomRightSide);
    assert_eq!(SupportPosition::Centre.rotate(3), SupportPosition::Centre);
    assert_eq!(rotate_support_type(MetalSupportType::Thick, 2), SupportGraphicType::ThickCentred);
    assert_eq!(rotate_support_type(MetalSupportType::Fork, 3), SupportGraphicType::ForkAlt);
    assert_eq!(rotate_support_type(MetalSupportType::Truss, 1), SupportGraphicType::Truss);
}

#[test]
fn supports_are_drawn_bottom_up() {
    let support = MetalSupport { position: SupportPosition::Centre, height: 10, rotation: 0, extra_heights: [0, 0, 0, 0] };
    let draws = draw_support(&[0, 0, 0], &support, 0, MetalSupportType::Tubes);
    assert_eq!(
        draws,
        vec![
            SupportDraw { index: 3243, coords: [16, 16, -32] },
            SupportDraw { index: 3224, coords: [16, 16, -26] },
            SupportDraw { index: 3224, coords: [16, 16, -10] },
            SupportDraw { index: 3212, coords: [16, 16, 6] },
        ]
    );
    let support = MetalSupport { extra_heights: [-5, 0, 0, 0], ..support };
    let draws = draw_support(&[0, 0, 0], &support, 0, MetalSupportType::Tubes);
    assert_eq!(draws.last(), Some(&SupportDraw { index: 3230, coords: [16, 16, 9] }));
    let support = MetalSupport { position: SupportPosition::TopCorner, height: 0, rotation: 0, extra_heights: [0, 3, 0, 0] };
    let draws = draw_support(&[0, 32, 0], &support, 1, MetalSupportType::Stick);
    assert_eq!(
        draws,
        vec![SupportDraw { index: 3658 + 15, coords: [36, 28, -32] }, SupportDraw { index: 3658 + 15, coords: [36, 28, -16] }, SupportDraw { index: 3658 + 2, coords: [36, 28, 0] }]
    );
}
