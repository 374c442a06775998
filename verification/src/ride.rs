//! The ride object that the game reads: its properties, its cars and their sprites.
use vstd::prelude::*;

use crate::colour::Colour;
use crate::image_file::Image;

verus! {

/// The kind of object.
#[derive(Clone, Copy, Debug, PartialEq, Eq, Structural)]
pub enum ObjectType {
    Ride,
}

/// The game's ride types.
#[derive(Clone, Copy, Debug, PartialEq, Eq, Structural)]
pub enum RideType {
    AirPoweredVerticalRc,
    AlpineRc,
    BoatHire,
    BobsleighRc,
    CarRide,
    CashMachine,
    Chairlift,
    Circus,
    ClassicMiniRc,
    ClassicStandUpRc,
    ClassicWoodenRc,
    ClassicWoodenTwisterRc,
    CompactInvertedRc,
    CorkscrewRc,
    CrookedHouse,
    DinghySlide,
    Dodgems,
    DrinkStall,
    Enterprise,
    FerrisWheel,
    FirstAid,
    FlyingRc,
    FlyingRcAlt,
    FlyingSaucers,
    FoodStall,
    GhostTrain,
    GigaRc,
    GoKarts,
    HauntedHouse,
    HeartlineTwisterRc,
    HybridRc,
    Hypercoaster,
    HyperTwister,
    InformationKiosk,
    InvertedHairpinRc,
    InvertedImpulseRc,
    InvertedRc,
    JuniorRc,
    LaunchedFreefall,
    LayDownRc,
    LayDownRcAlt,
    Lift,
    LimLaunchedRc,
    LogFlume,
    LoopingRc,
    LsmRc,
    MagicCarpet,
    Maze,
    MerryGoRound,
    MineRide,
    MineTrainRc,
    MiniatureRailway,
    MiniGolf,
    MiniHelicopters,
    MiniRc,
    MiniSuspendedRc,
    Monorail,
    MonorailCycles,
    MonsterTrucks,
    MotionSimulator,
    MultiDimensionRc,
    MultiDimensionRcAlt,
    ObservationTower,
    ReverseFreefallRc,
    ReverserRc,
    RiverRafts,
    RiverRapids,
    RotoDrop,
    Shop,
    SideFrictionRc,
    SingleRailRc,
    SpaceRings,
    SpinningWildMouse,
    SpiralRc,
    SpiralSlide,
    SplashBoats,
    StandUpRc,
    SteelWildMouse,
    Steeplechase,
    SubmarineRide,
    SuspendedMonorail,
    SuspendedSwingingRc,
    SwingingInverterShip,
    SwingingShip,
    Toilets,
    TopSpin,
    Twist,
    TwisterRc,
    VerticalDropRc,
    VirginiaReel,
    WaterCoaster,
    WoodenRc,
    WoodenWildMouse,
}

/// Where a ride is listed in the build menu.
#[derive(Clone, Copy, Debug, PartialEq, Eq, Structural)]
pub enum Category {
    Transport,
    Gentle,
    Rollercoaster,
    Thrill,
    Water,
    Stall,
}

/// How the ride's ratings are scaled.
#[derive(Clone, Copy, Debug, PartialEq, Eq, Structural)]
pub struct RatingMultipliers {
    pub excitement: Option<i32>,
    pub intensity: Option<i32>,
    pub nausea: Option<i32>,
}

/// For each group of car orientations, how many sprites it has, if the car has it.
#[derive(Clone, Copy, Debug, PartialEq, Eq, Structural)]
pub struct SpriteGroups {
    pub slope_flat: Option<i32>,
    pub slopes12: Option<i32>,
    pub slopes25: Option<i32>,
    pub slopes42: Option<i32>,
    pub slopes60: Option<i32>,
    pub slopes75: Option<i32>,
    pub slopes90: Option<i32>,
    pub slopes_loop: Option<i32>,
    pub slope_inverted: Option<i32>,
    pub slopes8: Option<i32>,
    pub slopes16: Option<i32>,
    pub slopes50: Option<i32>,
    pub flat_banked22: Option<i32>,
    pub flat_banked45: Option<i32>,
    pub flat_banked67: Option<i32>,
    pub flat_banked90: Option<i32>,
    pub inline_twists: Option<i32>,
    pub slopes12_banked22: Option<i32>,
    pub slopes8_banked22: Option<i32>,
    pub slopes25_banked22: Option<i32>,
    pub slopes8_banked45: Option<i32>,
    pub slopes16_banked22: Option<i32>,
    pub slopes16_banked45: Option<i32>,
    pub slopes25_banked45: Option<i32>,
    pub slopes12_banked45: Option<i32>,
    pub slopes25_banked67: Option<i32>,
    pub slopes25_banked90: Option<i32>,
    pub slopes25_inline_twists: Option<i32>,
    pub slopes42_banked22: Option<i32>,
    pub slopes42_banked45: Option<i32>,
    pub slopes42_banked67: Option<i32>,
    pub slopes42_banked90: Option<i32>,
    pub slopes60_banked22: Option<i32>,
    pub slopes50_banked45: Option<i32>,
    pub slopes50_banked67: Option<i32>,
    pub slopes50_banked90: Option<i32>,
    pub corkscrews: Option<i32>,
    pub restraint_animation: Option<i32>,
}

impl Default for SpriteGroups {
    /// No group of sprites.
    fn default() -> (r: SpriteGroups)
        ensures
            r == SpriteGroups::none(),
    {
        SpriteGroups {
            slope_flat: None,
            slopes12: None,
            slopes25: None,
            slopes42: None,
            slopes60: None,
            slopes75: None,
            slopes90: None,
            slopes_loop: None,
            slope_inverted: None,
            slopes8: None,
            slopes16: None,
            slopes50: None,
            flat_banked22: None,
            flat_banked45: None,
            flat_banked67: None,
            flat_banked90: None,
            inline_twists: None,
            slopes12_banked22: None,
            slopes8_banked22: None,
            slopes25_banked22: None,
            slopes8_banked45: None,
            slopes16_banked22: None,
            slopes16_banked45: None,
            slopes25_banked45: None,
            slopes12_banked45: None,
            slopes25_banked67: None,
            slopes25_banked90: None,
            slopes25_inline_twists: None,
            slopes42_banked22: None,
            slopes42_banked45: None,
            slopes42_banked67: None,
            slopes42_banked90: None,
            slopes60_banked22: None,
            slopes50_banked45: None,
            slopes50_banked67: None,
            slopes50_banked90: None,
            corkscrews: None,
            restraint_animation: None,
        }
    }
}

impl SpriteGroups {
    /// No group of sprites.
    pub open spec fn none() -> SpriteGroups {
        SpriteGroups {
            slope_flat: None,
            slopes12: None,
            slopes25: None,
            slopes42: None,
            slopes60: None,
            slopes75: None,
            slopes90: None,
            slopes_loop: None,
            slope_inverted: None,
            slopes8: None,
            slopes16: None,
            slopes50: None,
            flat_banked22: None,
            flat_banked45: None,
            flat_banked67: None,
            flat_banked90: None,
            inline_twists: None,
            slopes12_banked22: None,
            slopes8_banked22: None,
            slopes25_banked22: None,
            slopes8_banked45: None,
            slopes16_banked22: None,
            slopes16_banked45: None,
            slopes25_banked45: None,
            slopes12_banked45: None,
            slopes25_banked67: None,
            slopes25_banked90: None,
            slopes25_inline_twists: None,
            slopes42_banked22: None,
            slopes42_banked45: None,
            slopes42_banked67: None,
            slopes42_banked90: None,
            slopes60_banked22: None,
            slopes50_banked45: None,
            slopes50_banked67: None,
            slopes50_banked90: None,
            corkscrews: None,
            restraint_animation: None,
        }
    }
}

/// One car of a train.
#[derive(Debug)]
pub struct Car {
    pub rotation_frame_mask: i32,
    pub spacing: i32,
    pub mass: i32,
    pub num_seats: i32,
    pub num_seat_rows: i32,
    pub friction_sound_id: i32,
    pub sound_range: i32,
    pub car_visual: Option<i32>,
    pub draw_order: i32,
    pub sprite_groups: SpriteGroups,
    pub has_additional_colour1: bool,
    pub has_additional_colour2: bool,
    pub has_screaming_riders: bool,
    pub loading_positions: Vec<i32>,
}

/// The properties of a ride object.
#[derive(Debug)]
pub struct Properties {
    pub ride_type: RideType,
    pub category: Category,
    pub limit_air_time_bonus: bool,
    pub min_cars_per_train: i32,
    pub max_cars_per_train: i32,
    pub num_empty_cars: i32,
    pub tab_car: i32,
    pub default_car: i32,
    pub head_cars: Option<Vec<i32>>,
    pub tail_cars: Option<Vec<i32>>,
    pub build_menu_priority: i32,
    pub no_collision_crashes: bool,
    pub rider_controls_speed: bool,
    pub max_height: Option<i32>,
    pub rating_multipliers: Option<RatingMultipliers>,
    pub car_colours: Vec<Vec<[Colour; 3]>>,
    pub cars: Vec<Car>,
}

/// A string of the object, in British English.
#[derive(Debug)]
pub struct ObjectString {
    pub en_gb: String,
}

/// The strings of the object.
#[derive(Debug)]
pub struct ObjectStrings {
    pub name: ObjectString,
    pub description: ObjectString,
    pub capacity: ObjectString,
}

/// A ride object.
#[derive(Debug)]
pub struct RideObject {
    pub id: String,
    pub original_id: Option<String>,
    pub version: String,
    pub authors: Vec<String>,
    pub object_type: ObjectType,
    pub properties: Properties,
    pub strings: ObjectStrings,
    pub images: Vec<Image>,
}

} // verus!
