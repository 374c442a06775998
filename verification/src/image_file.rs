//! How an object lists its images.
use vstd::prelude::*;

verus! {

/// How an image file's pixels are read.
#[derive(Clone, Copy, Debug, PartialEq, Eq, Structural)]
pub enum Format {
    Raw,
}

/// How an image file's colours are matched to the palette.
#[derive(Clone, Copy, Debug, PartialEq, Eq, Structural)]
pub enum PaletteType {
    Keep,
}

/// An image taken from a file, or from a part of it.
#[derive(Debug, PartialEq, Eq)]
pub struct ImageFile {
    pub path: String,
    pub x: Option<i32>,
    pub y: Option<i32>,
    pub src_x: Option<i32>,
    pub src_y: Option<i32>,
    pub src_width: Option<i32>,
    pub src_height: Option<i32>,
    pub format: Option<Format>,
    pub palette: Option<PaletteType>,
}

/// An entry of an object's image list: a reference in the game's own notation, or an image
/// file.
#[derive(Debug, PartialEq, Eq)]
pub enum Image {
    String(String),
    ImageFile(ImageFile),
}

impl ImageFile {
    /// A copy of the entry.
    pub fn duplicate(&self) -> (r: ImageFile)
        ensures
            r == *self,
    {
        ImageFile {
            path: self.path.clone(),
            x: self.x,
            y: self.y,
            src_x: self.src_x,
            src_y: self.src_y,
            src_width: self.src_width,
            src_height: self.src_height,
            format: self.format,
            palette: self.palette,
        }
    }

    /// An image of the whole file at `path`, with nothing else set.
    pub fn new(path: String) -> (r: ImageFile)
        ensures
            r.path == path,
            r.x is None && r.y is None,
            r.src_x is None && r.src_y is None && r.src_width is None && r.src_height is None,
            r.format is None && r.palette is None,
    {
        ImageFile {
            path,
            x: None,
            y: None,
            src_x: None,
            src_y: None,
            src_width: None,
            src_height: None,
            format: None,
            palette: None,
        }
    }
}

} // verus!
