//! A block position packed into one 64-bit value: 26 bits of x, 26 bits of
//! z and 12 bits of y.

use vstd::prelude::*;

verus! {

/// A block position with signed coordinates.
#[derive(Debug, Clone, Copy, PartialEq, Eq, Structural)]
pub struct Position {
    x: i64,
    y: i64,
    z: i64,
}

impl Position {
    /// The x coordinate.
    pub closed spec fn spec_x(&self) -> i64 {
        self.x
    }

    /// The y coordinate.
    pub closed spec fn spec_y(&self) -> i64 {
        self.y
    }

    /// The z coordinate.
    pub closed spec fn spec_z(&self) -> i64 {
        self.z
    }

    /// A position from its coordinates.
    pub fn new(x: i64, y: i64, z: i64) -> (r: Position)
        ensures
            r.spec_x() == x,
            r.spec_y() == y,
            r.spec_z() == z,
    {
        Position { x, y, z }
    }

    /// Pack the coordinates into one value: x in the top 26 bits, z in the
    /// middle 26, y in the low 12.
    pub fn encode(&self) -> (r: i64)
        ensures
            r == ((self.spec_x() & 0x3FFFFFF) << 38) | ((self.spec_z() & 0x3FFFFFF) << 12) | (
            self.spec_y() & 0xFFF),
    {
        ((self.x & 0x3FFFFFF) << 38u64) | ((self.z & 0x3FFFFFF) << 12u64) | (self.y & 0xFFF)
    }

    /// Unpack a value into coordinates, sign-extending each field.
    pub fn decode(val: i64) -> (r: Position)
        ensures
            r.spec_x() == val >> 38,
            r.spec_y() == (val << 52) >> 52,
            r.spec_z() == (val << 26) >> 38,
    {
        let x: i64 = val >> 38u64;
        let y: i64 = (val << 52u64) >> 52u64;
        let z: i64 = (val << 26u64) >> 38u64;
        Position { x, y, z }
    }

    /// The x coordinate.
    pub fn x(&self) -> (r: i64)
        ensures
            r == self.spec_x(),
    {
        self.x
    }

    /// The y coordinate.
    pub fn y(&self) -> (r: i64)
        ensures
            r == self.spec_y(),
    {
        self.y
    }

    /// The z coordinate.
    pub fn z(&self) -> (r: i64)
        ensures
            r == self.spec_z(),
    {
        self.z
    }
}

} // verus!
