//! The names the exported sprite files are given, and the references to them in objects.
use vstd::prelude::*;
use vstd::string::StringExecFns;

use crate::csg::Archive;
use crate::image_file::{Image, ImageFile, PaletteType};

verus! {

/// The decimal digit for `d` (below ten).
pub open spec fn digit(d: int) -> char {
    (48 + d) as char
}

/// `n` written in decimal.
pub open spec fn decimal(n: nat) -> Seq<char>
    decreases n,
{
    if n < 10 {
        seq![digit(n as int)]
    } else {
        decimal(n / 10).push(digit((n % 10) as int))
    }
}

fn digit_str(d: usize) -> (r: &'static str)
    requires
        d < 10,
    ensures
        r@ == seq![digit(d as int)],
{
    proof {
        reveal_strlit("0");
        reveal_strlit("1");
        reveal_strlit("2");
        reveal_strlit("3");
        reveal_strlit("4");
        reveal_strlit("5");
        reveal_strlit("6");
        reveal_strlit("7");
        reveal_strlit("8");
        reveal_strlit("9");
    }
    match d {
        0 => "0",
        1 => "1",
        2 => "2",
        3 => "3",
        4 => "4",
        5 => "5",
        6 => "6",
        7 => "7",
        8 => "8",
        _ => "9",
    }
}

/// Appends `n` in decimal to `s`.
pub fn push_decimal(s: &mut String, n: usize)
    ensures
        final(s)@ == old(s)@ + decimal(n as nat),
    decreases n,
{
    if n >= 10 {
        push_decimal(s, n / 10);
    }
    s.append(digit_str(n % 10));
    assert(s@ =~= old(s)@ + decimal(n as nat));
}


/// The name of a sprite file cut from a rendered piece: the piece's name, the track's suffix if
/// it has one, the view, and the sprite's place in the view where the view has several.
pub open spec fn image_name(section: Seq<char>, suffix: Option<Seq<char>>, view_index: nat, sprite_index: Option<nat>) -> Seq<char> {
    let base = match suffix {
        Some(x) => section + "_"@ + x + "_"@ + decimal(view_index),
        None => section + "_"@ + decimal(view_index),
    };
    match sprite_index {
        Some(i) => base + "_"@ + decimal(i),
        None => base,
    }
}

/// The name of a sprite file cut from a rendered piece.
pub fn sprite_image_name(section: &str, suffix: Option<&str>, view_index: usize, sprite_index: Option<usize>) -> (r: String)
    ensures
        r@ == image_name(
            section@,
            match suffix {
                Some(x) => Some(x@),
                None => None,
            },
            view_index as nat,
            match sprite_index {
                Some(i) => Some(i as nat),
                None => None,
            },
        ),
{
    let mut name = String::from_str(section);
    name.append("_");
    match suffix {
        Some(x) => {
            name.append(x);
            name.append("_");
        },
        None => {},
    }
    push_decimal(&mut name, view_index);
    match sprite_index {
        Some(i) => {
            name.append("_");
            push_decimal(&mut name, i);
        },
        None => {},
    }
    name
}

/// The path of a track's sprite file, relative to the object.
pub open spec fn track_sprite_path(track_name: Seq<char>, image_name: Seq<char>) -> Seq<char> {
    "track/"@ + track_name + "/"@ + image_name + ".png"@
}

/// The entry of a track's sprite list for a sprite file drawn at offset `(x, y)`: its colours
/// are kept as they are.
pub fn track_sprite_entry(track_name: &str, image_name: &str, x: i32, y: i32) -> (r: ImageFile)
    ensures
        r.path@ == track_sprite_path(track_name@, image_name@),
        r.x == Some(x) && r.y == Some(y),
        r.src_x is None && r.src_y is None && r.src_width is None && r.src_height is None,
        r.format is None,
        r.palette == Some(PaletteType::Keep),
{
    let mut path = String::from_str("track/");
    path.append(track_name);
    path.append("/");
    path.append(image_name);
    path.append(".png");
    ImageFile {
        path,
        x: Some(x),
        y: Some(y),
        src_x: None,
        src_y: None,
        src_width: None,
        src_height: None,
        format: None,
        palette: Some(PaletteType::Keep),
    }
}

/// The reference to the sprites `0..=last` of an object's `images.dat`.
pub fn lgx_reference(last: usize) -> (r: String)
    ensures
        r@ == "$LGX:images.dat[0.."@ + decimal(last as nat) + "]"@,
{
    let mut r = String::from_str("$LGX:images.dat[0..");
    push_decimal(&mut r, last);
    r.append("]");
    r
}

/// The path of the sprite sheet of car `index`.
pub fn car_sheet_path(index: usize) -> (r: String)
    ensures
        r@ == "images/car_"@ + decimal(index as nat) + ".png"@,
{
    let mut r = String::from_str("images/car_");
    push_decimal(&mut r, index);
    r.append(".png");
    r
}

/// The images of a vehicle object whose sprites are those of `archive`, stored as its
/// `images.dat`: one reference to all of them, from the first to the last.
pub fn dat_object_images(archive: &Archive) -> (r: Vec<Image>)
    requires
        archive@.entries.len() >= 1,
    ensures
        r@.len() == 1,
        r@[0] matches Image::String(s) && s@ == "$LGX:images.dat[0.."@ + decimal(
            (archive@.entries.len() - 1) as nat,
        ) + "]"@,
{
    let reference = lgx_reference(archive.len() - 1);
    let mut images: Vec<Image> = Vec::new();
    images.push(Image::String(reference));
    images
}

} // verus!
