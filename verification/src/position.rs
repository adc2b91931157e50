//! A block position packed into 64 bits: 26 bits of `x`, then 12 bits of
//! `y`, then 26 bits of `z`, each in two's complement.

use crate::varint::to_unsigned;
use vstd::prelude::*;

verus! {

/// A block position in the world.
#[derive(Clone, Copy, Debug, PartialEq, Eq, Structural)]
pub struct Position {
    pub x: i32,
    pub y: i32,
    pub z: i32,
}

/// The signed reading of the low `modulus` values: the upper half stands for
/// the negative numbers.
pub open spec fn centered(n: int, modulus: int) -> int {
    if 2 * n < modulus {
        n
    } else {
        n - modulus
    }
}

impl Position {
    /// Whether each coordinate fits the bits the packed form gives it.
    pub open spec fn in_range(self) -> bool {
        &&& -0x200_0000 <= self.x < 0x200_0000
        &&& -0x800 <= self.y < 0x800
        &&& -0x200_0000 <= self.z < 0x200_0000
    }

    /// The packed form. Coordinates out of range keep their low bits.
    pub open spec fn packed(self) -> u64 {
        (((self.x as int) % 0x400_0000) * 0x40_0000_0000 + ((self.y as int) % 0x1000) * 0x400_0000
            + ((self.z as int) % 0x400_0000)) as u64
    }

    /// The position a packed value stands for.
    pub open spec fn unpacked(v: u64) -> Position {
        Position {
            x: centered((v as int) / 0x40_0000_0000, 0x400_0000) as i32,
            y: centered(((v as int) / 0x400_0000) % 0x1000, 0x1000) as i32,
            z: centered((v as int) % 0x400_0000, 0x400_0000) as i32,
        }
    }

    /// Packs the position into 64 bits.
    pub fn pack(&self) -> (v: u64)
        ensures
            v == self.packed(),
    {
        let x: u64 = (to_unsigned(self.x) % 0x400_0000u32) as u64;
        let y: u64 = (to_unsigned(self.y) % 0x1000u32) as u64;
        let z: u64 = (to_unsigned(self.z) % 0x400_0000u32) as u64;
        assert(x == (self.x as int) % 0x400_0000);
        assert(y == (self.y as int) % 0x1000);
        assert(z == (self.z as int) % 0x400_0000);
        x * 0x40_0000_0000u64 + y * 0x400_0000u64 + z
    }

    /// Reads a position out of its packed form.
    pub fn unpack(v: u64) -> (p: Position)
        ensures
            p == Position::unpacked(v),
            p.in_range(),
    {
        let x: i64 = (v / 0x40_0000_0000u64) as i64;
        let y: i64 = ((v / 0x400_0000u64) % 0x1000u64) as i64;
        let z: i64 = (v % 0x400_0000u64) as i64;
        Position {
            x: (if x < 0x200_0000 {
                x
            } else {
                x - 0x400_0000
            }) as i32,
            y: (if y < 0x800 {
                y
            } else {
                y - 0x1000
            }) as i32,
            z: (if z < 0x200_0000 {
                z
            } else {
                z - 0x400_0000
            }) as i32,
        }
    }
}

/// Round trip: a position whose coordinates are in range comes back from its
/// packed form unchanged.
pub proof fn position_round_trip(p: Position)
    requires
        p.in_range(),
    ensures
        Position::unpacked(p.packed()) == p,
{
    let x = (p.x as int) % 0x400_0000;
    let y = (p.y as int) % 0x1000;
    let z = (p.z as int) % 0x400_0000;
    let v = x * 0x40_0000_0000 + y * 0x400_0000 + z;
    assert(v / 0x40_0000_0000 == x);
    assert((v / 0x400_0000) % 0x1000 == y);
    assert(v % 0x400_0000 == z);
}

} // verus!
