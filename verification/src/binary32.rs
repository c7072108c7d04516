//! Single-precision numbers held by their bit pattern.
//!
//! Confidence scores and signal levels reach the library as IEEE 754 binary32 values.
//! The library never calculates with them; it only carries them and compares them, and
//! the order of such numbers can be read off their bits.

use vstd::prelude::*;

verus! {

/// The sign bit.
pub const SIGN_BIT: u32 = 0x8000_0000;

/// The bit pattern of positive infinity; every larger magnitude is a NaN.
pub const INFINITY_BITS: u32 = 0x7f80_0000;

/// An IEEE 754 binary32 number, by its bits.
#[derive(Clone, Copy, Debug)]
pub struct Binary32 {
    pub bits: u32,
}

impl Binary32 {
    /// The bits without the sign: how far the number is from zero, on a scale that
    /// grows with the number.
    pub open spec fn magnitude(self) -> int {
        self.bits as int % SIGN_BIT as int
    }

    /// Neither a finite number nor an infinity.
    pub open spec fn nan(self) -> bool {
        self.magnitude() > INFINITY_BITS
    }

    /// The number's place in the order of all numbers. The two zeros share one place.
    pub open spec fn rank(self) -> int {
        if self.bits >= SIGN_BIT {
            -self.magnitude()
        } else {
            self.magnitude()
        }
    }

    /// `self <= other`; false as soon as one of them is a NaN.
    pub open spec fn le(self, other: Binary32) -> bool {
        !self.nan() && !other.nan() && self.rank() <= other.rank()
    }

    /// `self < other`; false as soon as one of them is a NaN.
    pub open spec fn lt(self, other: Binary32) -> bool {
        !self.nan() && !other.nan() && self.rank() < other.rank()
    }

    /// The larger of two numbers; a NaN gives way to the other operand.
    pub open spec fn larger(self, other: Binary32) -> Binary32 {
        if self.nan() || self.lt(other) {
            other
        } else {
            self
        }
    }

    /// The number with the given bit pattern.
    pub fn from_bits(bits: u32) -> (number: Self)
        ensures
            number.bits == bits,
    {
        Binary32 { bits }
    }

    /// The number's bit pattern.
    pub fn to_bits(self) -> (bits: u32)
        ensures
            bits == self.bits,
    {
        self.bits
    }

    /// Is this a NaN?
    pub fn is_nan(self) -> (answer: bool)
        ensures
            answer == self.nan(),
    {
        self.bits % SIGN_BIT > INFINITY_BITS
    }

    fn place(self) -> (place: i64)
        ensures
            place == self.rank(),
    {
        if self.bits >= SIGN_BIT {
            -((self.bits - SIGN_BIT) as i64)
        } else {
            self.bits as i64
        }
    }

    /// Is `self <= other`?
    pub fn at_most(self, other: Binary32) -> (answer: bool)
        ensures
            answer == self.le(other),
    {
        !self.is_nan() && !other.is_nan() && self.place() <= other.place()
    }

    /// Is `self < other`?
    pub fn below(self, other: Binary32) -> (answer: bool)
        ensures
            answer == self.lt(other),
    {
        !self.is_nan() && !other.is_nan() && self.place() < other.place()
    }

    /// The larger of two numbers; a NaN gives way to the other operand.
    pub fn max_of(self, other: Binary32) -> (max: Binary32)
        ensures
            max == self.larger(other),
    {
        if self.is_nan() || self.below(other) {
            other
        } else {
            self
        }
    }
}

impl PartialEq for Binary32 {
    fn eq(&self, other: &Self) -> (same: bool) {
        !self.is_nan() && !other.is_nan() && self.place() == other.place()
    }
}

impl vstd::std_specs::cmp::PartialEqSpecImpl for Binary32 {
    open spec fn obeys_eq_spec() -> bool {
        true
    }

    open spec fn eq_spec(&self, other: &Self) -> bool {
        self.le(*other) && other.le(*self)
    }
}

/// The numbers that are no NaN are totally preordered by `le`, and `lt` is its strict part.
pub proof fn law_order(a: Binary32, b: Binary32, c: Binary32)
    requires
        !a.nan(),
        !b.nan(),
        !c.nan(),
    ensures
        a.le(a),
        a.le(b) || b.le(a),
        a.le(b) && b.le(c) ==> a.le(c),
        a.lt(b) <==> !b.le(a),
{
}

/// The larger of two numbers is one of them and is below neither; it is a NaN only if both are.
pub proof fn law_larger(a: Binary32, b: Binary32)
    ensures
        a.larger(b) == a || a.larger(b) == b,
        !a.larger(b).lt(a),
        !a.larger(b).lt(b),
        !b.nan() ==> !a.larger(b).nan() && b.le(a.larger(b)),
        !a.nan() && !b.nan() ==> a.le(a.larger(b)),
        a.larger(b).nan() <==> a.nan() && b.nan(),
{
}

/// The order is that of the numbers: of two without a sign the bits decide, of two with one the
/// bits the other way round, one with a sign is at most one without, the two zeros are equal,
/// and what is no number is neither at most nor below anything.
pub proof fn law_order_is_by_bits(a: u32, b: u32)
    ensures
        ({
            let x = Binary32 { bits: a };
            let y = Binary32 { bits: b };
            &&& x.nan() <==> 0x7f80_0000 < a < 0x8000_0000 || a > 0xff80_0000
            &&& x.nan() || y.nan() ==> !x.le(y) && !x.lt(y)
            &&& !x.nan() && !y.nan() && a < 0x8000_0000 && b < 0x8000_0000 ==> (x.le(y) <==> a
                <= b) && (x.lt(y) <==> a < b)
            &&& !x.nan() && !y.nan() && a >= 0x8000_0000 && b >= 0x8000_0000 ==> (x.le(y) <==> a
                >= b) && (x.lt(y) <==> a > b)
            &&& !x.nan() && !y.nan() && a >= 0x8000_0000 && b < 0x8000_0000 ==> x.le(y) && (x.lt(y)
                <==> a > 0x8000_0000 || b > 0)
            &&& !x.nan() && !y.nan() && a < 0x8000_0000 && b >= 0x8000_0000 ==> !x.lt(y) && (x.le(y)
                <==> a == 0 && b == 0x8000_0000)
            &&& x.larger(y) == if x.nan() || x.lt(y) {
                y
            } else {
                x
            }
        }),
{
}

} // verus!
