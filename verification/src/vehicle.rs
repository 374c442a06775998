//! The description of a ride and its vehicles, and the ride object made from it.
use vstd::prelude::*;

use crate::colour::Colour;
use crate::image_file::Image;
use crate::ride::{
    Car, Category, ObjectString, ObjectStrings, ObjectType, Properties, RatingMultipliers,
    RideObject, RideType, SpriteGroups,
};

verus! {

/// How a vehicle's sprites are packed: in a sprite archive, or on sprite sheets.
#[derive(Clone, Copy, Debug, PartialEq, Eq, Structural)]
pub enum ImageOutputType {
    Dat,
    Atlas,
}

/// A flag of the ride.
#[derive(Clone, Copy, Debug, PartialEq, Eq, Hash, Structural)]
pub enum Flag {
    NoCollisionCrashes,
    RiderControlsSpeed,
}

/// A group of car orientations the ride's cars are drawn in.
#[derive(Clone, Copy, Debug, PartialEq, Eq, Hash, Structural)]
pub enum SpriteGroup {
    Flat,
    GentleSlopes,
    SteepSlopes,
    VerticalSlopes,
    Diagonals,
    BankedTurns,
    InlineTwists,
    SlopeBankTransition,
    DiagonalBankTransition,
    SlopedBankTransition,
    BankedSlopedTurns,
    BankedSlopeTransition,
    Corkscrews,
    ZeroGRolls,
    DiagonalSlopedBankTransition,
    DiveLoops,
}

/// The sound a running train makes.
#[derive(Clone, Copy, Debug, PartialEq, Eq, Structural)]
pub enum RunningSound {
    WoodenOld,
    Wooden,
    Steel,
    SteelSmooth,
    Train,
    Engine,
}

impl RunningSound {
    pub open spec fn spec_id(self) -> i32 {
        match self {
            RunningSound::WoodenOld => 1,
            RunningSound::Wooden => 54,
            RunningSound::Steel => 2,
            RunningSound::SteelSmooth => 57,
            RunningSound::Train => 31,
            RunningSound::Engine => 21,
        }
    }

    /// The game's number for the sound.
    pub fn id(self) -> (r: i32)
        ensures
            r == self.spec_id(),
    {
        match self {
            RunningSound::WoodenOld => 1,
            RunningSound::Wooden => 54,
            RunningSound::Steel => 2,
            RunningSound::SteelSmooth => 57,
            RunningSound::Train => 31,
            RunningSound::Engine => 21,
        }
    }
}

/// The sound the riders or the train make now and then.
#[derive(Clone, Copy, Debug, PartialEq, Eq, Structural)]
pub enum SecondarySound {
    Scream1,
    Scream2,
    Scream3,
    Whistle,
    Bell,
}

impl SecondarySound {
    pub open spec fn spec_id(self) -> i32 {
        match self {
            SecondarySound::Scream1 => 0,
            SecondarySound::Scream2 => 1,
            SecondarySound::Scream3 => 2,
            SecondarySound::Whistle => 3,
            SecondarySound::Bell => 4,
        }
    }

    /// The game's number for the sound.
    pub fn id(self) -> (r: i32)
        ensures
            r == self.spec_id(),
    {
        match self {
            SecondarySound::Scream1 => 0,
            SecondarySound::Scream2 => 1,
            SecondarySound::Scream3 => 2,
            SecondarySound::Whistle => 3,
            SecondarySound::Bell => 4,
        }
    }
}

/// Which cars a train is made of: the default one, and those at its front and rear.
#[derive(Clone, Copy, Debug, PartialEq, Eq, Structural)]
pub struct Configuration {
    pub default: i32,
    pub front: Option<i32>,
    pub second: Option<i32>,
    pub rear: Option<i32>,
}

/// A flag of a vehicle.
#[derive(Clone, Copy, Debug, PartialEq, Eq, Hash, Structural)]
pub enum VehicleFlag {
    SecondaryRemap,
    TertiaryRemap,
    RidersScream,
    RestraintAnimation,
}

/// The kind of a light of the scene.
#[derive(Clone, Copy, Debug, PartialEq, Eq, Structural)]
pub enum LightType {
    Diffuse,
    Specular,
}

/// A vehicle of the ride, as far as the ride object needs it. Its spacing is given in the
/// game's units and each rider's position along the car in 32nds of a tile, rounded.
#[derive(Debug)]
pub struct Vehicle {
    pub spacing: i32,
    pub mass: i32,
    pub draw_order: i32,
    pub flags: Option<Vec<VehicleFlag>>,
    /// How many models the car is drawn with; a car without one is invisible.
    pub model_count: usize,
    pub capacity: Option<i32>,
    pub rider_positions: Option<Vec<i32>>,
}

/// The description of a ride, as far as the ride object needs it.
#[derive(Debug)]
pub struct Ride {
    pub id: String,
    pub original_id: Option<String>,
    pub name: String,
    pub description: String,
    pub capacity: String,
    pub author: String,
    pub version: Option<String>,
    pub ride_type: RideType,
    pub flags: Option<Vec<Flag>>,
    pub sprites: Vec<SpriteGroup>,
    pub zero_cars: i32,
    pub preview_tab_car: i32,
    pub build_menu_priority: i32,
    pub running_sound: RunningSound,
    pub secondary_sound: SecondarySound,
    pub min_cars_per_train: i32,
    pub max_cars_per_train: i32,
    pub limit_air_time_bonus: bool,
    pub rating_multipliers: Option<RatingMultipliers>,
    pub max_height: Option<i32>,
    pub configuration: Configuration,
    pub default_colors: Vec<[Colour; 3]>,
    pub vehicles: Vec<Vehicle>,
}

/// Whether a vehicle's flags hold `flag`.
pub open spec fn has_vehicle_flag(flags: Option<Vec<VehicleFlag>>, flag: VehicleFlag) -> bool {
    match flags {
        Some(f) => f@.contains(flag),
        None => false,
    }
}

/// Whether a ride's flags hold `flag`.
pub open spec fn has_ride_flag(flags: Option<Vec<Flag>>, flag: Flag) -> bool {
    match flags {
        Some(f) => f@.contains(flag),
        None => false,
    }
}

/// The sprite groups of a visible car of a ride drawn in `sprites`.
pub open spec fn sprite_groups_for(sprites: Seq<SpriteGroup>, flags: Option<Vec<VehicleFlag>>) -> SpriteGroups {
    SpriteGroups {
            slope_flat: if sprites.contains(SpriteGroup::Flat) { Some(32) } else { None },
            slopes12: if sprites.contains(SpriteGroup::GentleSlopes) { Some(4) } else { None },
            slopes25: if sprites.contains(SpriteGroup::GentleSlopes) { Some(32) } else { None },
            slopes42: if sprites.contains(SpriteGroup::SteepSlopes) { Some(8) } else { None },
            slopes60: if sprites.contains(SpriteGroup::SteepSlopes) { Some(32) } else { None },
            slopes75: if sprites.contains(SpriteGroup::VerticalSlopes) { Some(4) } else { None },
            slopes90: if sprites.contains(SpriteGroup::VerticalSlopes) { Some(32) } else { None },
            slopes_loop: if sprites.contains(SpriteGroup::VerticalSlopes) { Some(4) } else { None },
            slope_inverted: if sprites.contains(SpriteGroup::VerticalSlopes) { Some(4) } else { None },
            slopes8: if sprites.contains(SpriteGroup::Diagonals) { Some(4) } else { None },
            slopes16: if sprites.contains(SpriteGroup::Diagonals) { Some(4) } else { None },
            slopes50: if sprites.contains(SpriteGroup::Diagonals) { Some(4) } else { None },
            flat_banked22: if sprites.contains(SpriteGroup::BankedTurns) { Some(8) } else { None },
            flat_banked45: if sprites.contains(SpriteGroup::BankedTurns) { Some(32) } else { None },
            flat_banked67: if sprites.contains(SpriteGroup::InlineTwists) { Some(4) } else { None },
            flat_banked90: if sprites.contains(SpriteGroup::InlineTwists) { Some(4) } else { None },
            inline_twists: if sprites.contains(SpriteGroup::InlineTwists) { Some(4) } else { None },
            slopes12_banked22: if sprites.contains(SpriteGroup::SlopeBankTransition) { Some(32) } else { None },
            slopes8_banked22: if sprites.contains(SpriteGroup::DiagonalBankTransition) { Some(4) } else { None },
            slopes25_banked22: if sprites.contains(SpriteGroup::SlopedBankTransition) { Some(4) } else { None },
            slopes8_banked45: if sprites.contains(SpriteGroup::DiagonalSlopedBankTransition) { Some(4) } else { None },
            slopes16_banked22: if sprites.contains(SpriteGroup::DiagonalSlopedBankTransition) { Some(4) } else { None },
            slopes16_banked45: if sprites.contains(SpriteGroup::DiagonalSlopedBankTransition) { Some(4) } else { None },
            slopes25_banked45: if sprites.contains(SpriteGroup::BankedSlopedTurns) { Some(32) } else { None },
            slopes12_banked45: if sprites.contains(SpriteGroup::BankedSlopeTransition) { Some(4) } else { None },
            slopes25_banked67: if sprites.contains(SpriteGroup::ZeroGRolls) { Some(4) } else { None },
            slopes25_banked90: if sprites.contains(SpriteGroup::ZeroGRolls) { Some(4) } else { None },
            slopes25_inline_twists: if sprites.contains(SpriteGroup::ZeroGRolls) { Some(4) } else { None },
            slopes42_banked22: if sprites.contains(SpriteGroup::ZeroGRolls) { Some(4) } else { None },
            slopes42_banked45: if sprites.contains(SpriteGroup::ZeroGRolls) { Some(4) } else { None },
            slopes42_banked67: if sprites.contains(SpriteGroup::ZeroGRolls) { Some(4) } else { None },
            slopes42_banked90: if sprites.contains(SpriteGroup::ZeroGRolls) { Some(4) } else { None },
            slopes60_banked22: if sprites.contains(SpriteGroup::ZeroGRolls) { if sprites.contains(SpriteGroup::DiveLoops) { Some(8) } else { Some(4) } } else { None },
            slopes50_banked45: if sprites.contains(SpriteGroup::DiveLoops) { Some(8) } else { None },
            slopes50_banked67: if sprites.contains(SpriteGroup::DiveLoops) { Some(8) } else { None },
            slopes50_banked90: if sprites.contains(SpriteGroup::DiveLoops) { Some(8) } else { None },
            corkscrews: if sprites.contains(SpriteGroup::Corkscrews) { Some(4) } else { None },
            restraint_animation: if has_vehicle_flag(flags, VehicleFlag::RestraintAnimation) { Some(4) } else { None },
    }
}

fn has_sprite_group(sprites: &Vec<SpriteGroup>, group: SpriteGroup) -> (r: bool)
    ensures
        r == sprites@.contains(group),
{
    let mut i: usize = 0;
    while i < sprites.len()
        invariant
            i <= sprites.len(),
            forall|j: int| 0 <= j < i ==> sprites@[j] != group,
        decreases sprites.len() - i,
    {
        if sprites[i] == group {
            return true;
        }
        i = i + 1;
    }
    false
}

fn flag_in(flags: &Vec<VehicleFlag>, flag: VehicleFlag) -> (r: bool)
    ensures
        r == flags@.contains(flag),
{
    let mut i: usize = 0;
    while i < flags.len()
        invariant
            i <= flags.len(),
            forall|j: int| 0 <= j < i ==> flags@[j] != flag,
        decreases flags.len() - i,
    {
        if flags[i] == flag {
            return true;
        }
        i = i + 1;
    }
    false
}

fn vehicle_has_flag(flags: &Option<Vec<VehicleFlag>>, flag: VehicleFlag) -> (r: bool)
    ensures
        r == has_vehicle_flag(*flags, flag),
{
    match flags {
        Some(f) => flag_in(f, flag),
        None => false,
    }
}

fn ride_flag_in(flags: &Vec<Flag>, flag: Flag) -> (r: bool)
    ensures
        r == flags@.contains(flag),
{
    let mut i: usize = 0;
    while i < flags.len()
        invariant
            i <= flags.len(),
            forall|j: int| 0 <= j < i ==> flags@[j] != flag,
        decreases flags.len() - i,
    {
        if flags[i] == flag {
            return true;
        }
        i = i + 1;
    }
    false
}

fn ride_has_flag(flags: &Option<Vec<Flag>>, flag: Flag) -> (r: bool)
    ensures
        r == has_ride_flag(*flags, flag),
{
    match flags {
        Some(f) => ride_flag_in(f, flag),
        None => false,
    }
}

/// `Some(count)` when `present`.
fn count_if(present: bool, count: i32) -> (r: Option<i32>)
    ensures
        r == (if present { Some(count) } else { None }),
{
    if present {
        Some(count)
    } else {
        None
    }
}

/// The sprite groups a visible car of the ride is drawn in.
pub fn create_sprite_groups(ride_desc: &Ride, vehicle: &Vehicle) -> (r: SpriteGroups)
    ensures
        r == sprite_groups_for(ride_desc.sprites@, vehicle.flags),
{
    let restraint_animation = count_if(
        vehicle_has_flag(&vehicle.flags, VehicleFlag::RestraintAnimation),
        4,
    );
    let slopes60_banked22 = if has_sprite_group(&ride_desc.sprites, SpriteGroup::ZeroGRolls) {
        if has_sprite_group(&ride_desc.sprites, SpriteGroup::DiveLoops) {
            Some(8)
        } else {
            Some(4)
        }
    } else {
        None
    };
    SpriteGroups {
        slope_flat: count_if(has_sprite_group(&ride_desc.sprites, SpriteGroup::Flat), 32),
        slopes12: count_if(has_sprite_group(&ride_desc.sprites, SpriteGroup::GentleSlopes), 4),
        slopes25: count_if(has_sprite_group(&ride_desc.sprites, SpriteGroup::GentleSlopes), 32),
        slopes42: count_if(has_sprite_group(&ride_desc.sprites, SpriteGroup::SteepSlopes), 8),
        slopes60: count_if(has_sprite_group(&ride_desc.sprites, SpriteGroup::SteepSlopes), 32),
        slopes75: count_if(has_sprite_group(&ride_desc.sprites, SpriteGroup::VerticalSlopes), 4),
        slopes90: count_if(has_sprite_group(&ride_desc.sprites, SpriteGroup::VerticalSlopes), 32),
        slopes_loop: count_if(has_sprite_group(&ride_desc.sprites, SpriteGroup::VerticalSlopes), 4),
        slope_inverted: count_if(has_sprite_group(&ride_desc.sprites, SpriteGroup::VerticalSlopes), 4),
        slopes8: count_if(has_sprite_group(&ride_desc.sprites, SpriteGroup::Diagonals), 4),
        slopes16: count_if(has_sprite_group(&ride_desc.sprites, SpriteGroup::Diagonals), 4),
        slopes50: count_if(has_sprite_group(&ride_desc.sprites, SpriteGroup::Diagonals), 4),
        flat_banked22: count_if(has_sprite_group(&ride_desc.sprites, SpriteGroup::BankedTurns), 8),
        flat_banked45: count_if(has_sprite_group(&ride_desc.sprites, SpriteGroup::BankedTurns), 32),
        flat_banked67: count_if(has_sprite_group(&ride_desc.sprites, SpriteGroup::InlineTwists), 4),
        flat_banked90: count_if(has_sprite_group(&ride_desc.sprites, SpriteGroup::InlineTwists), 4),
        inline_twists: count_if(has_sprite_group(&ride_desc.sprites, SpriteGroup::InlineTwists), 4),
        slopes12_banked22: count_if(has_sprite_group(&ride_desc.sprites, SpriteGroup::SlopeBankTransition), 32),
        slopes8_banked22: count_if(has_sprite_group(&ride_desc.sprites, SpriteGroup::DiagonalBankTransition), 4),
        slopes25_banked22: count_if(has_sprite_group(&ride_desc.sprites, SpriteGroup::SlopedBankTransition), 4),
        slopes8_banked45: count_if(has_sprite_group(&ride_desc.sprites, SpriteGroup::DiagonalSlopedBankTransition), 4),
        slopes16_banked22: count_if(has_sprite_group(&ride_desc.sprites, SpriteGroup::DiagonalSlopedBankTransition), 4),
        slopes16_banked45: count_if(has_sprite_group(&ride_desc.sprites, SpriteGroup::DiagonalSlopedBankTransition), 4),
        slopes25_banked45: count_if(has_sprite_group(&ride_desc.sprites, SpriteGroup::BankedSlopedTurns), 32),
        slopes12_banked45: count_if(has_sprite_group(&ride_desc.sprites, SpriteGroup::BankedSlopeTransition), 4),
        slopes25_banked67: count_if(has_sprite_group(&ride_desc.sprites, SpriteGroup::ZeroGRolls), 4),
        slopes25_banked90: count_if(has_sprite_group(&ride_desc.sprites, SpriteGroup::ZeroGRolls), 4),
        slopes25_inline_twists: count_if(has_sprite_group(&ride_desc.sprites, SpriteGroup::ZeroGRolls), 4),
        slopes42_banked22: count_if(has_sprite_group(&ride_desc.sprites, SpriteGroup::ZeroGRolls), 4),
        slopes42_banked45: count_if(has_sprite_group(&ride_desc.sprites, SpriteGroup::ZeroGRolls), 4),
        slopes42_banked67: count_if(has_sprite_group(&ride_desc.sprites, SpriteGroup::ZeroGRolls), 4),
        slopes42_banked90: count_if(has_sprite_group(&ride_desc.sprites, SpriteGroup::ZeroGRolls), 4),
        slopes60_banked22: slopes60_banked22,
        slopes50_banked45: count_if(has_sprite_group(&ride_desc.sprites, SpriteGroup::DiveLoops), 8),
        slopes50_banked67: count_if(has_sprite_group(&ride_desc.sprites, SpriteGroup::DiveLoops), 8),
        slopes50_banked90: count_if(has_sprite_group(&ride_desc.sprites, SpriteGroup::DiveLoops), 8),
        corkscrews: count_if(has_sprite_group(&ride_desc.sprites, SpriteGroup::Corkscrews), 4),
        restraint_animation: restraint_animation,
    }
}

/// A car is drawn in four corkscrew orientations exactly when the ride's sprites hold the
/// corkscrews group, and in none otherwise: adding the corkscrews group to a ride's sprites
/// gives its cars the corkscrew orientations and changes no other group, and adding any other
/// group leaves the corkscrew orientations as they were.
pub proof fn lemma_corkscrews_group(sprites: Seq<SpriteGroup>, flags: Option<Vec<VehicleFlag>>, other: SpriteGroup)
    requires
        other != SpriteGroup::Corkscrews,
    ensures
        sprite_groups_for(sprites, flags).corkscrews == if sprites.contains(SpriteGroup::Corkscrews) {
            Some(4i32)
        } else {
            None
        },
        sprite_groups_for(sprites.push(SpriteGroup::Corkscrews), flags) == (SpriteGroups {
            corkscrews: Some(4i32),
            ..sprite_groups_for(sprites, flags)
        }),
        sprite_groups_for(sprites.push(other), flags).corkscrews == sprite_groups_for(sprites, flags).corkscrews,
{
    assert forall|g: SpriteGroup| g != SpriteGroup::Corkscrews implies sprites.push(SpriteGroup::Corkscrews).contains(g)
        == sprites.contains(g) by {
        if sprites.push(SpriteGroup::Corkscrews).contains(g) {
            let i = choose|i: int| 0 <= i < sprites.len() + 1 && sprites.push(SpriteGroup::Corkscrews)[i] == g;
            assert(i < sprites.len());
            assert(sprites[i] == g);
        }
        if sprites.contains(g) {
            let i = choose|i: int| 0 <= i < sprites.len() && sprites[i] == g;
            assert(sprites.push(SpriteGroup::Corkscrews)[i] == g);
        }
    }
    assert(sprites.push(SpriteGroup::Corkscrews).contains(SpriteGroup::Corkscrews)) by {
        assert(sprites.push(SpriteGroup::Corkscrews)[sprites.len() as int] == SpriteGroup::Corkscrews);
    }
    if sprites.push(other).contains(SpriteGroup::Corkscrews) {
        let i = choose|i: int| 0 <= i < sprites.len() + 1 && sprites.push(other)[i] == SpriteGroup::Corkscrews;
        assert(i < sprites.len());
        assert(sprites[i] == SpriteGroup::Corkscrews);
    }
    if sprites.contains(SpriteGroup::Corkscrews) {
        let i = choose|i: int| 0 <= i < sprites.len() && sprites[i] == SpriteGroup::Corkscrews;
        assert(sprites.push(other)[i] == SpriteGroup::Corkscrews);
    }
}


/// Where riders board a car with `seats` seats whose riders sit at `positions`: one place per
/// rider, or the places just before and after it when the car seats more than one.
pub open spec fn loading_positions(positions: Seq<i32>, seats: i32) -> Seq<i32>
    decreases positions.len(),
{
    if positions.len() == 0 {
        Seq::empty()
    } else {
        let p = positions.last();
        loading_positions(positions.drop_last(), seats) + if seats > 1 {
            seq![(p - 1) as i32, (p + 1) as i32]
        } else {
            seq![p]
        }
    }
}

/// The rider positions have room for the places around them.
pub open spec fn positions_fit(vehicle: Vehicle) -> bool {
    match vehicle.rider_positions {
        Some(ps) => vehicle.capacity.unwrap_or(0) > 1 ==> forall|i: int|
            0 <= i < ps.len() ==> i32::MIN < #[trigger] ps@[i] < i32::MAX,
        None => true,
    }
}

/// The car made for `vehicle` of the ride `ride`.
pub open spec fn car_matches(car: Car, ride: Ride, vehicle: Vehicle) -> bool {
    let visible = vehicle.model_count != 0;
    &&& car.rotation_frame_mask == if visible {
        31i32
    } else {
        0i32
    }
    &&& car.spacing == vehicle.spacing
    &&& car.mass == vehicle.mass
    &&& car.num_seats == vehicle.capacity.unwrap_or(0)
    &&& car.num_seat_rows == match vehicle.rider_positions {
        Some(ps) => ps.len() as i32,
        None => 0i32,
    }
    &&& car.friction_sound_id == ride.running_sound.spec_id()
    &&& car.sound_range == ride.secondary_sound.spec_id()
    &&& car.car_visual == if visible {
        None
    } else {
        Some(1i32)
    }
    &&& car.draw_order == vehicle.draw_order
    &&& car.sprite_groups == if visible {
        sprite_groups_for(ride.sprites@, vehicle.flags)
    } else {
        SpriteGroups { slope_flat: Some(1), ..SpriteGroups::none() }
    }
    &&& car.has_additional_colour1 == has_vehicle_flag(vehicle.flags, VehicleFlag::SecondaryRemap)
    &&& car.has_additional_colour2 == has_vehicle_flag(vehicle.flags, VehicleFlag::TertiaryRemap)
    &&& car.has_screaming_riders == has_vehicle_flag(vehicle.flags, VehicleFlag::RidersScream)
    &&& car.loading_positions@ == match vehicle.rider_positions {
        Some(ps) => loading_positions(ps@, vehicle.capacity.unwrap_or(0)),
        None => Seq::empty(),
    }
}

fn create_loading_positions(positions: &Vec<i32>, seats: i32) -> (r: Vec<i32>)
    requires
        seats > 1 ==> forall|i: int| 0 <= i < positions.len() ==> i32::MIN < #[trigger] positions@[i] < i32::MAX,
    ensures
        r@ == loading_positions(positions@, seats),
{
    let mut r: Vec<i32> = Vec::new();
    let mut i: usize = 0;
    while i < positions.len()
        invariant
            i <= positions.len(),
            seats > 1 ==> forall|k: int| 0 <= k < positions.len() ==> i32::MIN < #[trigger] positions@[k] < i32::MAX,
            r@ == loading_positions(positions@.take(i as int), seats),
        decreases positions.len() - i,
    {
        let p = positions[i];
        assert(positions@.take(i + 1).drop_last() =~= positions@.take(i as int));
        if seats > 1 {
            r.push(p - 1);
            r.push(p + 1);
        } else {
            r.push(p);
        }
        i = i + 1;
        assert(r@ =~= loading_positions(positions@.take(i as int), seats));
    }
    assert(positions@.take(positions.len() as int) =~= positions@);
    r
}

fn create_car(ride_desc: &Ride, vehicle: &Vehicle) -> (r: Car)
    requires
        positions_fit(*vehicle),
    ensures
        car_matches(r, *ride_desc, *vehicle),
{
    let visible = vehicle.model_count != 0;
    let rotation_frame_mask: i32 = if visible {
        31
    } else {
        0
    };
    let num_seats = match vehicle.capacity {
        Some(c) => c,
        None => 0,
    };
    let num_seat_rows: i32 = match &vehicle.rider_positions {
        Some(ps) => #[verifier::truncate] (ps.len() as i32),
        None => 0,
    };
    let car_visual = if visible {
        None
    } else {
        Some(1)
    };
    let sprite_groups = if visible {
        create_sprite_groups(ride_desc, vehicle)
    } else {
        SpriteGroups { slope_flat: Some(1), ..SpriteGroups::default() }
    };
    let loading_positions = match &vehicle.rider_positions {
        Some(ps) => create_loading_positions(ps, num_seats),
        None => Vec::new(),
    };
    Car {
        rotation_frame_mask,
        spacing: vehicle.spacing,
        mass: vehicle.mass,
        num_seats,
        num_seat_rows,
        friction_sound_id: ride_desc.running_sound.id(),
        sound_range: ride_desc.secondary_sound.id(),
        car_visual,
        draw_order: vehicle.draw_order,
        sprite_groups,
        has_additional_colour1: vehicle_has_flag(&vehicle.flags, VehicleFlag::SecondaryRemap),
        has_additional_colour2: vehicle_has_flag(&vehicle.flags, VehicleFlag::TertiaryRemap),
        has_screaming_riders: vehicle_has_flag(&vehicle.flags, VehicleFlag::RidersScream),
        loading_positions,
    }
}

/// The cars at the head of a train: the front car, then the second, where given.
pub open spec fn head_cars(c: Configuration) -> Seq<i32> {
    (match c.front {
        Some(f) => seq![f],
        None => Seq::empty(),
    }) + (match c.second {
        Some(s) => seq![s],
        None => Seq::empty(),
    })
}

/// The object of a rollercoaster ride made from its description and its image list.
pub fn create_ride_object(ride_desc: &Ride, images: Vec<Image>) -> (r: RideObject)
    requires
        forall|i: int| 0 <= i < ride_desc.vehicles.len() ==> positions_fit(#[trigger] ride_desc.vehicles@[i]),
    ensures
        r.id == ride_desc.id,
        r.original_id == ride_desc.original_id,
        r.version@ == match ride_desc.version {
            Some(v) => v@,
            None => "1.0"@,
        },
        r.authors@ == seq![ride_desc.author],
        r.object_type == ObjectType::Ride,
        r.properties.ride_type == ride_desc.ride_type,
        r.properties.category == Category::Rollercoaster,
        r.properties.limit_air_time_bonus == ride_desc.limit_air_time_bonus,
        r.properties.min_cars_per_train == ride_desc.min_cars_per_train,
        r.properties.max_cars_per_train == ride_desc.max_cars_per_train,
        r.properties.num_empty_cars == ride_desc.zero_cars,
        r.properties.tab_car == ride_desc.preview_tab_car,
        r.properties.default_car == ride_desc.configuration.default,
        match r.properties.head_cars {
            Some(h) => head_cars(ride_desc.configuration).len() > 0 && h@ == head_cars(ride_desc.configuration),
            None => head_cars(ride_desc.configuration).len() == 0,
        },
        match r.properties.tail_cars {
            Some(t) => ride_desc.configuration.rear == Some(t@[0]) && t@.len() == 1,
            None => ride_desc.configuration.rear is None,
        },
        r.properties.build_menu_priority == ride_desc.build_menu_priority,
        r.properties.no_collision_crashes == has_ride_flag(ride_desc.flags, Flag::NoCollisionCrashes),
        r.properties.rider_controls_speed == has_ride_flag(ride_desc.flags, Flag::RiderControlsSpeed),
        r.properties.max_height == ride_desc.max_height,
        r.properties.rating_multipliers == ride_desc.rating_multipliers,
        r.properties.car_colours@.len() == ride_desc.default_colors@.len(),
        forall|i: int|
            0 <= i < ride_desc.default_colors@.len() ==> #[trigger] r.properties.car_colours@[i]@ == seq![
                ride_desc.default_colors@[i],
            ],
        r.properties.cars@.len() == ride_desc.vehicles@.len(),
        forall|i: int|
            0 <= i < ride_desc.vehicles@.len() ==> car_matches(
                #[trigger] r.properties.cars@[i],
                *ride_desc,
                ride_desc.vehicles@[i],
            ),
        r.strings.name.en_gb == ride_desc.name,
        r.strings.description.en_gb == ride_desc.description,
        r.strings.capacity.en_gb == ride_desc.capacity,
        r.images == images,
{
    let mut head: Vec<i32> = Vec::new();
    if let Some(f) = ride_desc.configuration.front {
        head.push(f);
    }
    if let Some(s) = ride_desc.configuration.second {
        head.push(s);
    }
    assert(head@ =~= head_cars(ride_desc.configuration));
    let head_cars = if head.len() != 0 {
        Some(head)
    } else {
        None
    };
    let tail_cars = match ride_desc.configuration.rear {
        Some(x) => Some(vec![x]),
        None => None,
    };
    let mut cars: Vec<Car> = Vec::new();
    let mut i: usize = 0;
    while i < ride_desc.vehicles.len()
        invariant
            i <= ride_desc.vehicles.len(),
            cars@.len() == i,
            forall|k: int| 0 <= k < ride_desc.vehicles.len() ==> positions_fit(#[trigger] ride_desc.vehicles@[k]),
            forall|k: int| 0 <= k < i ==> car_matches(#[trigger] cars@[k], *ride_desc, ride_desc.vehicles@[k]),
        decreases ride_desc.vehicles.len() - i,
    {
        let car = create_car(ride_desc, &ride_desc.vehicles[i]);
        cars.push(car);
        i = i + 1;
    }
    let mut car_colours: Vec<Vec<[Colour; 3]>> = Vec::new();
    let mut i: usize = 0;
    while i < ride_desc.default_colors.len()
        invariant
            i <= ride_desc.default_colors.len(),
            car_colours@.len() == i,
            forall|k: int| 0 <= k < i ==> #[trigger] car_colours@[k]@ == seq![ride_desc.default_colors@[k]],
        decreases ride_desc.default_colors.len() - i,
    {
        let colours = vec![ride_desc.default_colors[i]];
        car_colours.push(colours);
        i = i + 1;
    }
    let version = match &ride_desc.version {
        Some(v) => v.clone(),
        None => String::from_str("1.0"),
    };
    let properties = Properties {
        ride_type: ride_desc.ride_type,
        category: Category::Rollercoaster,
        limit_air_time_bonus: ride_desc.limit_air_time_bonus,
        min_cars_per_train: ride_desc.min_cars_per_train,
        max_cars_per_train: ride_desc.max_cars_per_train,
        num_empty_cars: ride_desc.zero_cars,
        tab_car: ride_desc.preview_tab_car,
        default_car: ride_desc.configuration.default,
        head_cars,
        tail_cars,
        build_menu_priority: ride_desc.build_menu_priority,
        no_collision_crashes: ride_has_flag(&ride_desc.flags, Flag::NoCollisionCrashes),
        rider_controls_speed: ride_has_flag(&ride_desc.flags, Flag::RiderControlsSpeed),
        max_height: ride_desc.max_height,
        rating_multipliers: ride_desc.rating_multipliers,
        car_colours,
        cars,
    };
    let strings = ObjectStrings {
        name: ObjectString { en_gb: ride_desc.name.clone() },
        description: ObjectString { en_gb: ride_desc.description.clone() },
        capacity: ObjectString { en_gb: ride_desc.capacity.clone() },
    };
    RideObject {
        id: ride_desc.id.clone(),
        original_id: match &ride_desc.original_id {
            Some(o) => Some(o.clone()),
            None => None,
        },
        version,
        authors: vec![ride_desc.author.clone()],
        object_type: ObjectType::Ride,
        properties,
        strings,
        images,
    }
}

} // verus!
