use rctgen::colour::Colour;
use rctgen::image_file::{Image, ImageFile};
use rctgen::ride::{Category, ObjectType, RideType, SpriteGroups};
use rctgen::vehicle::{
    create_ride_object, create_sprite_groups, Configuration, Flag, Ride, RunningSound, SecondarySound, SpriteGroup,
    Vehicle, VehicleFlag,
};

fn vehicle(model_count: usize, capacity: Option<i32>, riders: Option<Vec<i32>>) -> Vehicle {
    Vehicle {
        spacing: 123456,
        mass: 400,
        draw_order: 5,
        flags: Some(vec![VehicleFlag::SecondaryRemap, VehicleFlag::RestraintAnimation]),
        model_count,
        capacity,
        rider_positions: riders,
    }
}

fn ride(sprites: Vec<SpriteGroup>, vehicles: Vec<Vehicle>) -> Ride {
    Ride {
        id: String::from("rct2.ride.test"),
        original_id: None,
        name: String::from("Test"),
        description: String::from("A test ride"),
        capacity: String::from("4 riders"),
        author: String::from("someone"),
        version: None,
        ride_type: RideType::LoopingRc,
        flags: Some(vec![Flag::RiderControlsSpeed]),
        sprites,
        zero_cars: 1,
        preview_tab_car: 2,
        build_menu_priority: 3,
        running_sound: RunningSound::SteelSmooth,
        secondary_sound: SecondarySound::Whistle,
        min_cars_per_train: 2,
        max_cars_per_train: 8,
        limit_air_time_bonus: true,
        rating_multipliers: None,
        max_height: Some(50),
        configuration: Configuration { default: 1, front: Some(0), second: None, rear: Some(2) },
        default_colors: vec![[Colour::Black, Colour::White, Colour::LightBlue]],
        vehicles,
    }
}

#[test]
fn sprite_groups_follow_the_ride_sprites() {
    let r = ride(vec![SpriteGroup::Flat, SpriteGroup::GentleSlopes, SpriteGroup::ZeroGRolls], vec![]);
    let v = vehicle(1, Some(2), None);
    let g = create_sprite_groups(&r, &v);
    assert_eq!(g.slope_flat, Some(32));
    assert_eq!(g.slopes12, Some(4));
    assert_eq!(g.slopes25, Some(32));
    assert_eq!(g.slopes42, None);
    assert_eq!(g.slopes60_banked22, Some(4));
    assert_eq!(g.slopes25_banked67, Some(4));
    assert_eq!(g.slopes50_banked45, None);
    assert_eq!(g.restraint_animation, Some(4));
    let r = ride(vec![SpriteGroup::ZeroGRolls, SpriteGroup::DiveLoops], vec![]);
    let g = create_sprite_groups(&r, &v);
    assert_eq!(g.slopes60_banked22, Some(8));
    assert_eq!(g.slopes50_banked90, Some(8));
    assert_eq!(g.slope_flat, None);
}

#[test]
fn ride_object_describes_the_ride() {
    let cars = vec![
        vehicle(1, Some(2), Some(vec![10, 20])),
        vehicle(0, None, None),
        vehicle(1, Some(1), Some(vec![7])),
    ];
    let r = ride(vec![SpriteGroup::Flat], cars);
    let images = vec![Image::String(String::from("$LGX:images.dat[0..2]"))];
    let object = create_ride_object(&r, images);
    assert_eq!(object.id, "rct2.ride.test");
    assert_eq!(object.version, "1.0");
    assert_eq!(object.authors, vec![String::from("someone")]);
    assert_eq!(object.object_type, ObjectType::Ride);
    assert_eq!(object.strings.name.en_gb, "Test");
    assert_eq!(object.strings.capacity.en_gb, "4 riders");
    assert_eq!(object.images, vec![Image::String(String::from("$LGX:images.dat[0..2]"))]);
    let p = &object.properties;
    assert_eq!(p.ride_type, RideType::LoopingRc);
    assert_eq!(p.category, Category::Rollercoaster);
    assert!(p.limit_air_time_bonus);
    assert_eq!(p.num_empty_cars, 1);
    assert_eq!(p.tab_car, 2);
    assert_eq!(p.default_car, 1);
    assert_eq!(p.head_cars, Some(vec![0]));
    assert_eq!(p.tail_cars, Some(vec![2]));
    assert!(!p.no_collision_crashes);
    assert!(p.rider_controls_speed);
    assert_eq!(p.max_height, Some(50));
    assert_eq!(p.car_colours, vec![vec![[Colour::Black, Colour::White, Colour::LightBlue]]]);
    assert_eq!(p.cars.len(), 3);

    let visible = &p.cars[0];
    assert_eq!(visible.rotation_frame_mask, 31);
    assert_eq!(visible.spacing, 123456);
    assert_eq!(visible.num_seats, 2);
    assert_eq!(visible.num_seat_rows, 2);
    assert_eq!(visible.friction_sound_id, 57);
    assert_eq!(visible.sound_range, 3);
    assert_eq!(visible.car_visual, None);
    assert!(visible.has_additional_colour1 && !visible.has_additional_colour2 && !visible.has_screaming_riders);
    assert_eq!(visible.loading_positions, vec![9, 11, 19, 21]);
    assert_eq!(visible.sprite_groups.slope_flat, Some(32));

    let invisible = &p.cars[1];
    assert_eq!(invisible.rotation_frame_mask, 0);
    assert_eq!(invisible.car_visual, Some(1));
    assert_eq!(invisible.num_seats, 0);
    assert_eq!(invisible.num_seat_rows, 0);
    assert_eq!(invisible.sprite_groups, SpriteGroups { slope_flat: Some(1), ..SpriteGroups::default() });
    assert!(invisible.loading_positions.is_empty());

    assert_eq!(p.cars[2].loading_positions, vec![7]);
}

#[test]
fn versions_and_head_cars_are_kept() {
    let mut r = ride(vec![], vec![]);
    r.version = Some(String::from("2.1"));
    r.configuration = Configuration { default: 0, front: None, second: None, rear: None };
    r.original_id = Some(String::from("orig"));
    let object = create_ride_object(&r, vec![Image::ImageFile(ImageFile::new(String::from("a.png")))]);
    assert_eq!(object.version, "2.1");
    assert_eq!(object.original_id, Some(String::from("orig")));
    assert_eq!(object.properties.head_cars, None);
    assert_eq!(object.properties.tail_cars, None);
}
