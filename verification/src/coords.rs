use vstd::prelude::*;

verus! {

/// A position in the game world: `x` and `y` on the ground plane, `z` up.
#[derive(Clone, Copy, Debug, PartialEq, Eq, Structural)]
pub struct Coords {
    pub x: i32,
    pub y: i32,
    pub z: i32,
}

/// The world coordinates after `rotation` quarter turns.
pub open spec fn spec_rotate(c: Coords, rotation: int) -> Coords {
    if rotation == 1 {
        Coords { x: c.y, y: -c.x as i32, z: c.z }
    } else if rotation == 2 {
        Coords { x: -c.x as i32, y: -c.y as i32, z: c.z }
    } else if rotation == 3 {
        Coords { x: -c.y as i32, y: c.x, z: c.z }
    } else {
        c
    }
}

impl Coords {
    pub fn new(x: i32, y: i32, z: i32) -> (r: Self)
        ensures
            r == (Coords { x, y, z }),
    {
        Coords { x, y, z }
    }

    /// No coordinate that a turn by `rotation` negates is `i32::MIN`.
    pub open spec fn rotatable(self, rotation: int) -> bool {
        &&& (rotation == 1 || rotation == 2) ==> self.x != i32::MIN
        &&& (rotation == 2 || rotation == 3) ==> self.y != i32::MIN
    }

    /// The coordinates after `rotation` quarter turns; other values of `rotation` leave them
    /// as they are.
    pub fn rotate(self, rotation: usize) -> (r: Self)
        requires
            self.rotatable(rotation as int),
        ensures
            r == spec_rotate(self, rotation as int),
    {
        match rotation {
            1 => Coords::new(self.y, -self.x, self.z),
            2 => Coords::new(-self.x, -self.y, self.z),
            3 => Coords::new(-self.y, self.x, self.z),
            _ => Coords::new(self.x, self.y, self.z),
        }
    }
}


/// A quarter turn and three more bring a position back, as do two half turns.
pub proof fn lemma_rotate_full_turn(c: Coords)
    requires
        c.x != i32::MIN,
        c.y != i32::MIN,
    ensures
        spec_rotate(spec_rotate(c, 1), 3) == c,
        spec_rotate(spec_rotate(c, 3), 1) == c,
        spec_rotate(spec_rotate(c, 2), 2) == c,
        spec_rotate(spec_rotate(spec_rotate(spec_rotate(c, 1), 1), 1), 1) == c,
{
}

/// Turning by one quarter turn takes `(x, y, z)` to `(y, -x, z)`, and turning by `n` quarter
/// turns is turning by one quarter turn `n` times: a half turn is `(-x, -y, z)`, three quarter
/// turns `(-y, x, z)`, and no turn leaves the position where it is.
pub proof fn lemma_rotate_is_repeated_quarter_turn(c: Coords)
    requires
        c.x != i32::MIN,
        c.y != i32::MIN,
    ensures
        spec_rotate(c, 0) == c,
        spec_rotate(c, 1) == (Coords { x: c.y, y: -c.x as i32, z: c.z }),
        spec_rotate(c, 2) == spec_rotate(spec_rotate(c, 1), 1),
        spec_rotate(c, 3) == spec_rotate(spec_rotate(c, 2), 1),
        spec_rotate(c, 2) == (Coords { x: -c.x as i32, y: -c.y as i32, z: c.z }),
        spec_rotate(c, 3) == (Coords { x: -c.y as i32, y: c.x, z: c.z }),
{
}

impl Coords {
    /// The world coordinates of a tile-relative position.
    pub fn from_tile(coords: &[i16; 3]) -> (r: Coords)
        ensures
            r.x == coords@[0] && r.y == coords@[1] && r.z == coords@[2],
    {
        Coords { x: coords[0] as i32, y: coords[1] as i32, z: coords[2] as i32 }
    }

    /// The sum of two positions, coordinate by coordinate.
    pub fn add(self, other: Coords) -> (r: Coords)
        requires
            i32::MIN <= self.x + other.x <= i32::MAX,
            i32::MIN <= self.y + other.y <= i32::MAX,
            i32::MIN <= self.z + other.z <= i32::MAX,
        ensures
            r.x == self.x + other.x && r.y == self.y + other.y && r.z == self.z + other.z,
    {
        Coords { x: self.x + other.x, y: self.y + other.y, z: self.z + other.z }
    }
}

/// Integer division by two, rounding toward zero.
pub open spec fn half_toward_zero(v: int) -> int {
    if v >= 0 {
        v / 2
    } else {
        -((-v) / 2)
    }
}

/// A position on screen, in pixels.
#[derive(Clone, Copy, Debug, PartialEq, Eq, Structural)]
pub struct ScreenCoords {
    pub x: i32,
    pub y: i32,
}

/// The screen position of a world position.
pub open spec fn screen_of(c: Coords) -> (int, int) {
    (-(c.x - c.y), -(half_toward_zero(-(c.x + c.y)) + c.z))
}

/// Every step of [`screen_of`] fits `i32`.
pub open spec fn screen_fits(c: Coords) -> bool {
    let fits = |v: int| i32::MIN <= v <= i32::MAX;
    &&& fits(c.x - c.y) && fits(-(c.x - c.y))
    &&& fits(c.x + c.y) && fits(-(c.x + c.y))
    &&& fits(half_toward_zero(-(c.x + c.y)) + c.z)
    &&& fits(-(half_toward_zero(-(c.x + c.y)) + c.z))
}

impl ScreenCoords {
    /// The screen position of a world position.
    pub fn from_coords(coords: &Coords) -> (r: ScreenCoords)
        requires
            screen_fits(*coords),
        ensures
            r.x == screen_of(*coords).0,
            r.y == screen_of(*coords).1,
    {
        let x = -(coords.x - coords.y);
        let y = -((-(coords.x + coords.y) / 2) + coords.z);
        ScreenCoords { x, y }
    }
}

} // verus!
