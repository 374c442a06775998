//! The game's colour schemes and the palette ramps they paint with.
use vstd::prelude::*;

verus! {

/// A colour scheme of the game.
#[derive(Clone, Copy, Debug, PartialEq, Eq, Structural)]
pub enum Colour {
    Black,
    Grey,
    White,
    DarkPurple,
    LightPurple,
    BrightPurple,
    DarkBlue,
    LightBlue,
    IcyBlue,
    Teal,
    Aquamarine,
    SaturatedGreen,
    DarkGreen,
    MossGreen,
    BrightGreen,
    OliveGreen,
    DarkOliveGreen,
    BrightYellow,
    Yellow,
    DarkYellow,
    LightOrange,
    DarkOrange,
    LightBrown,
    SaturatedBrown,
    DarkBrown,
    SalmonPink,
    BordeauxRed,
    SaturatedRed,
    BrightRed,
    DarkPink,
    BrightPink,
    LightPink,
    DarkOliveDark,
    DarkOliveLight,
    SaturatedBrownLight,
    BordeauxRedDark,
    BordeauxRedLight,
    GrassGreenDark,
    GrassGreenLight,
    OliveDark,
    OliveLight,
    SaturatedGreenLight,
    TanDark,
    TanLight,
    DullPurpleLight,
    DullGreenDark,
    DullGreenLight,
    SaturatedPurpleDark,
    SaturatedPurpleLight,
    OrangeLight,
    AquaDark,
    MagentaLight,
    DullBrownDark,
    DullBrownLight,
    Invisible,
    Void,
}

/// How many colour schemes there are.
pub const COLOUR_COUNT: usize = 56;

/// For each colour scheme, in the order of [`Colour`], the twelve palette entries of its ramp,
/// darkest first.
pub const COLOUR_RAMPS: [[u8; 12]; 56] = [
    [10, 10, 10, 10, 10, 11, 12, 13, 14, 15, 16, 17],
    [10, 11, 12, 13, 14, 15, 16, 17, 18, 19, 20, 21],
    [13, 14, 15, 16, 17, 18, 19, 20, 21, 21, 21, 21],
    [118, 118, 118, 119, 119, 120, 121, 122, 122, 123, 124, 124],
    [118, 119, 120, 121, 122, 123, 124, 125, 126, 127, 128, 129],
    [154, 155, 156, 157, 158, 159, 160, 161, 162, 163, 164, 165],
    [130, 130, 130, 131, 131, 132, 133, 134, 134, 135, 136, 136],
    [130, 131, 132, 133, 134, 135, 136, 137, 138, 139, 140, 141],
    [133, 134, 135, 136, 137, 138, 139, 140, 140, 141, 141, 141],
    [190, 191, 192, 193, 194, 195, 196, 197, 198, 199, 200, 201],
    [191, 193, 195, 196, 197, 198, 199, 200, 200, 201, 201, 201],
    [94, 94, 94, 95, 95, 96, 97, 98, 98, 99, 100, 100],
    [142, 143, 144, 145, 146, 147, 148, 149, 150, 151, 152, 153],
    [70, 71, 72, 73, 74, 75, 76, 77, 78, 79, 80, 81],
    [94, 95, 96, 97, 98, 99, 100, 101, 102, 103, 104, 105],
    [82, 83, 84, 85, 86, 87, 88, 89, 90, 91, 92, 93],
    [22, 23, 24, 25, 26, 27, 28, 29, 30, 31, 32, 33],
    [48, 49, 50, 51, 52, 53, 54, 55, 56, 56, 57, 57],
    [46, 47, 48, 49, 50, 51, 52, 53, 54, 55, 56, 57],
    [46, 46, 46, 47, 47, 48, 49, 50, 51, 52, 53, 53],
    [178, 179, 180, 181, 182, 183, 184, 185, 186, 187, 188, 189],
    [178, 178, 178, 179, 179, 180, 181, 182, 182, 183, 184, 184],
    [34, 35, 36, 37, 38, 39, 40, 41, 42, 43, 44, 45],
    [34, 34, 34, 34, 35, 36, 37, 38, 39, 40, 41, 42],
    [214, 214, 215, 216, 217, 218, 219, 220, 221, 222, 223, 224],
    [106, 107, 108, 109, 110, 111, 112, 113, 114, 115, 116, 117],
    [58, 59, 60, 61, 62, 63, 64, 65, 66, 67, 68, 69],
    [166, 166, 166, 167, 167, 168, 169, 170, 170, 171, 172, 172],
    [166, 167, 168, 169, 170, 171, 172, 173, 174, 175, 176, 177],
    [202, 202, 202, 203, 203, 204, 205, 206, 206, 207, 208, 208],
    [202, 203, 204, 205, 206, 207, 208, 209, 210, 211, 212, 213],
    [63, 64, 65, 66, 67, 68, 68, 176, 69, 177, 177, 177],
    [22, 22, 22, 23, 23, 24, 25, 26, 26, 27, 28, 28],
    [24, 25, 26, 27, 28, 29, 30, 31, 32, 32, 33, 33],
    [36, 37, 38, 39, 40, 41, 42, 43, 44, 44, 45, 45],
    [58, 58, 58, 59, 59, 60, 61, 62, 62, 63, 64, 64],
    [60, 61, 62, 63, 64, 65, 66, 67, 68, 68, 69, 69],
    [70, 70, 70, 70, 71, 72, 73, 74, 75, 76, 77, 78],
    [72, 73, 74, 75, 76, 77, 78, 79, 80, 80, 81, 81],
    [82, 82, 82, 83, 84, 85, 86, 87, 88, 89, 90, 91],
    [84, 85, 86, 87, 88, 89, 90, 91, 92, 92, 93, 93],
    [96, 97, 98, 99, 100, 101, 102, 103, 104, 104, 105, 105],
    [106, 106, 106, 106, 107, 108, 109, 110, 111, 112, 113, 114],
    [108, 109, 110, 111, 112, 113, 114, 115, 116, 116, 117, 117],
    [120, 121, 122, 123, 124, 125, 126, 127, 128, 128, 129, 129],
    [142, 142, 142, 143, 143, 144, 145, 146, 146, 147, 148, 148],
    [144, 145, 146, 147, 148, 149, 150, 151, 152, 152, 153, 153],
    [154, 154, 154, 155, 156, 157, 158, 159, 160, 161, 162, 163],
    [156, 157, 158, 159, 160, 161, 162, 163, 164, 164, 165, 165],
    [180, 181, 182, 183, 184, 185, 186, 187, 188, 188, 189, 189],
    [190, 190, 190, 190, 191, 192, 193, 194, 195, 196, 197, 198],
    [204, 205, 206, 207, 208, 209, 210, 211, 212, 212, 213, 213],
    [214, 214, 214, 215, 215, 216, 217, 218, 218, 219, 220, 220],
    [216, 217, 218, 219, 220, 221, 222, 223, 224, 224, 225, 225],
    [0, 0, 0, 0, 0, 0, 0, 0, 0, 0, 0, 0],
    [10, 10, 10, 10, 10, 10, 10, 10, 10, 10, 10, 10],
];

impl Colour {
    /// The scheme's position in [`Colour`].
    pub open spec fn spec_index(self) -> int {
        match self {
            Colour::Black => 0,
            Colour::Grey => 1,
            Colour::White => 2,
            Colour::DarkPurple => 3,
            Colour::LightPurple => 4,
            Colour::BrightPurple => 5,
            Colour::DarkBlue => 6,
            Colour::LightBlue => 7,
            Colour::IcyBlue => 8,
            Colour::Teal => 9,
            Colour::Aquamarine => 10,
            Colour::SaturatedGreen => 11,
            Colour::DarkGreen => 12,
            Colour::MossGreen => 13,
            Colour::BrightGreen => 14,
            Colour::OliveGreen => 15,
            Colour::DarkOliveGreen => 16,
            Colour::BrightYellow => 17,
            Colour::Yellow => 18,
            Colour::DarkYellow => 19,
            Colour::LightOrange => 20,
            Colour::DarkOrange => 21,
            Colour::LightBrown => 22,
            Colour::SaturatedBrown => 23,
            Colour::DarkBrown => 24,
            Colour::SalmonPink => 25,
            Colour::BordeauxRed => 26,
            Colour::SaturatedRed => 27,
            Colour::BrightRed => 28,
            Colour::DarkPink => 29,
            Colour::BrightPink => 30,
            Colour::LightPink => 31,
            Colour::DarkOliveDark => 32,
            Colour::DarkOliveLight => 33,
            Colour::SaturatedBrownLight => 34,
            Colour::BordeauxRedDark => 35,
            Colour::BordeauxRedLight => 36,
            Colour::GrassGreenDark => 37,
            Colour::GrassGreenLight => 38,
            Colour::OliveDark => 39,
            Colour::OliveLight => 40,
            Colour::SaturatedGreenLight => 41,
            Colour::TanDark => 42,
            Colour::TanLight => 43,
            Colour::DullPurpleLight => 44,
            Colour::DullGreenDark => 45,
            Colour::DullGreenLight => 46,
            Colour::SaturatedPurpleDark => 47,
            Colour::SaturatedPurpleLight => 48,
            Colour::OrangeLight => 49,
            Colour::AquaDark => 50,
            Colour::MagentaLight => 51,
            Colour::DullBrownDark => 52,
            Colour::DullBrownLight => 53,
            Colour::Invisible => 54,
            Colour::Void => 55,
        }
    }

    /// The scheme's position in [`Colour`].
    pub fn index(self) -> (r: usize)
        ensures
            r == self.spec_index(),
            r < COLOUR_COUNT,
    {
        match self {
            Colour::Black => 0,
            Colour::Grey => 1,
            Colour::White => 2,
            Colour::DarkPurple => 3,
            Colour::LightPurple => 4,
            Colour::BrightPurple => 5,
            Colour::DarkBlue => 6,
            Colour::LightBlue => 7,
            Colour::IcyBlue => 8,
            Colour::Teal => 9,
            Colour::Aquamarine => 10,
            Colour::SaturatedGreen => 11,
            Colour::DarkGreen => 12,
            Colour::MossGreen => 13,
            Colour::BrightGreen => 14,
            Colour::OliveGreen => 15,
            Colour::DarkOliveGreen => 16,
            Colour::BrightYellow => 17,
            Colour::Yellow => 18,
            Colour::DarkYellow => 19,
            Colour::LightOrange => 20,
            Colour::DarkOrange => 21,
            Colour::LightBrown => 22,
            Colour::SaturatedBrown => 23,
            Colour::DarkBrown => 24,
            Colour::SalmonPink => 25,
            Colour::BordeauxRed => 26,
            Colour::SaturatedRed => 27,
            Colour::BrightRed => 28,
            Colour::DarkPink => 29,
            Colour::BrightPink => 30,
            Colour::LightPink => 31,
            Colour::DarkOliveDark => 32,
            Colour::DarkOliveLight => 33,
            Colour::SaturatedBrownLight => 34,
            Colour::BordeauxRedDark => 35,
            Colour::BordeauxRedLight => 36,
            Colour::GrassGreenDark => 37,
            Colour::GrassGreenLight => 38,
            Colour::OliveDark => 39,
            Colour::OliveLight => 40,
            Colour::SaturatedGreenLight => 41,
            Colour::TanDark => 42,
            Colour::TanLight => 43,
            Colour::DullPurpleLight => 44,
            Colour::DullGreenDark => 45,
            Colour::DullGreenLight => 46,
            Colour::SaturatedPurpleDark => 47,
            Colour::SaturatedPurpleLight => 48,
            Colour::OrangeLight => 49,
            Colour::AquaDark => 50,
            Colour::MagentaLight => 51,
            Colour::DullBrownDark => 52,
            Colour::DullBrownLight => 53,
            Colour::Invisible => 54,
            Colour::Void => 55,
        }
    }
}

} // verus!
