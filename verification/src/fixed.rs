//! Fixed-point scalars with sixteen fractional bits.
//!
//! A value is stored as its raw count of 1/65536 units in an `i64`; contracts
//! speak of that raw count as a mathematical integer. Map coordinates use
//! whole units for cells, so the cell that contains a coordinate is the floor
//! of its value and the position inside the cell is its fractional part.

use vstd::prelude::*;

verus! {

/// Raw count that represents 1.
pub const ONE: i64 = 65536;

/// Raw count that represents one half.
pub const HALF: i64 = 32768;

/// A signed fixed-point number; `raw` counts units of 1/65536.
#[derive(Clone, Copy, Debug, PartialEq, Eq, Structural)]
pub struct Fixed {
    pub raw: i64,
}

/// Whole part of a raw count, rounded toward negative infinity: the index of
/// the map cell that contains the coordinate.
pub open spec fn cell_of(raw: int) -> int {
    raw / 65536
}

/// Fractional part of a raw count, in `0..65536`.
pub open spec fn frac_of(raw: int) -> int {
    raw % 65536
}

/// Product of two raw counts as a raw count, rounded to the nearest unit
/// (halves toward positive infinity).
pub open spec fn fixed_mul(a: int, b: int) -> int {
    (a * b + 32768) / 65536
}

/// Magnitude of an integer.
pub open spec fn magnitude(a: int) -> int {
    if a < 0 {
        -a
    } else {
        a
    }
}

/// Exact quotient of a wide raw count by `ONE`, rounded toward negative
/// infinity.
pub fn floor_units(a: i128) -> (q: i128)
    ensures
        q == a / 65536,
{
    assert(a >> 16 == a / 65536) by (bit_vector);
    a >> 16
}

/// Bounds the product of two bounded integers.
pub proof fn lemma_product_bound(a: int, b: int, la: int, lb: int)
    by (nonlinear_arith)
    requires
        -la <= a <= la,
        -lb <= b <= lb,
    ensures
        -(la * lb) <= a * b <= la * lb,
{
}

/// Rounded fixed-point product of two raw counts, computed without overflow.
pub fn mul_wide(a: i64, b: i64) -> (p: i128)
    ensures
        p == fixed_mul(a as int, b as int),
{
    let x: i128 = a as i128;
    let y: i128 = b as i128;
    proof {
        lemma_product_bound(x as int, y as int, 0x8000_0000_0000_0000, 0x8000_0000_0000_0000);
    }
    floor_units(x * y + 32768)
}

impl Fixed {
    /// The fixed-point number equal to the integer `n`.
    pub fn from_int(n: i32) -> (f: Fixed)
        ensures
            f.raw == n * 65536,
    {
        Fixed { raw: (n as i64) * ONE }
    }

    /// The cell index of this coordinate: its floor.
    pub fn floor(self) -> (c: i64)
        ensures
            c == cell_of(self.raw as int),
    {
        let raw = self.raw;
        assert(raw >> 16 == raw / 65536) by (bit_vector);
        raw >> 16
    }

    /// The position of this coordinate inside its cell, in `[0, 1)`.
    pub fn fract(self) -> (f: Fixed)
        ensures
            f.raw == frac_of(self.raw as int),
            0 <= f.raw < 65536,
    {
        let raw = self.raw;
        assert(raw & 0xffff == raw % 65536) by (bit_vector);
        assert(0 <= raw & 0xffff < 65536) by (bit_vector);
        Fixed { raw: raw & 0xffff }
    }
}

} // verus!
