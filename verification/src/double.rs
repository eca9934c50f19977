//! Double-precision numbers as bit patterns, with the tests and
//! comparisons that can be read off the pattern.

use vstd::prelude::*;
use vstd::std_specs::cmp::PartialEqSpecImpl;

verus! {

/// Mask of the sign bit of a double-precision value.
pub const SIGN_BIT: u64 = 0x8000_0000_0000_0000;

/// Bit pattern of positive infinity; every larger magnitude is a NaN.
pub const INFINITY_BITS: u64 = 0x7FF0_0000_0000_0000;

/// Bit pattern of `1.0`.
pub const ONE_BITS: u64 = 0x3FF0_0000_0000_0000;

/// Bit pattern of `2.0`.
pub const TWO_BITS: u64 = 0x4000_0000_0000_0000;

/// A double-precision number carried as its IEEE-754 bit pattern.
///
/// The grid never does arithmetic on coordinates; it stores them, hands them
/// back and classifies them. All of that can be read off the bit pattern, so
/// the pattern is what the library holds.
#[derive(Clone, Copy, Debug)]
pub struct Double {
    pub bits: u64,
}

impl Double {
    /// The pattern with the sign bit cleared.
    pub open spec fn magnitude(self) -> int {
        if self.bits >= SIGN_BIT {
            self.bits - SIGN_BIT
        } else {
            self.bits as int
        }
    }

    /// The sign bit is set (true of `-0.0` and of negative NaNs too).
    pub open spec fn sign_negative_spec(self) -> bool {
        self.bits >= SIGN_BIT
    }

    /// No number at all: the magnitude lies above that of infinity.
    pub open spec fn is_nan_spec(self) -> bool {
        self.magnitude() > INFINITY_BITS
    }

    /// Neither infinite nor NaN.
    pub open spec fn is_finite_spec(self) -> bool {
        self.magnitude() < INFINITY_BITS
    }

    /// `+0.0` or `-0.0`.
    pub open spec fn is_zero_spec(self) -> bool {
        self.magnitude() == 0
    }

    /// Strictly greater than zero in the IEEE order (so not a NaN).
    pub open spec fn is_positive_spec(self) -> bool {
        !self.sign_negative_spec() && 0 < self.magnitude() <= INFINITY_BITS
    }

    /// Strictly less than zero in the IEEE order (so not a NaN).
    pub open spec fn is_negative_spec(self) -> bool {
        self.sign_negative_spec() && 0 < self.magnitude() <= INFINITY_BITS
    }

    /// IEEE equality: a NaN equals nothing, the two zeros equal each other,
    /// and any other two values are equal when their patterns are.
    pub open spec fn ieee_eq(self, other: Double) -> bool {
        &&& !self.is_nan_spec()
        &&& !other.is_nan_spec()
        &&& (self.bits == other.bits || (self.is_zero_spec() && other.is_zero_spec()))
    }

    /// The place of a value on the number line, for a value that is no NaN:
    /// an integer that is smaller exactly when the value is. Both zeros have
    /// the place zero.
    pub open spec fn rank(self) -> int {
        if self.sign_negative_spec() {
            -self.magnitude()
        } else {
            self.magnitude()
        }
    }

    /// IEEE less-than: false as soon as a NaN is involved.
    pub open spec fn ieee_lt(self, other: Double) -> bool {
        !self.is_nan_spec() && !other.is_nan_spec() && self.rank() < other.rank()
    }

    /// The number with the given bit pattern.
    pub fn from_bits(bits: u64) -> (r: Double)
        ensures
            r.bits == bits,
    {
        Double { bits }
    }

    /// The bit pattern of the number.
    pub fn to_bits(&self) -> (bits: u64)
        ensures
            bits == self.bits,
    {
        self.bits
    }

    /// `+0.0`.
    pub fn zero() -> (r: Double)
        ensures
            r.bits == 0,
    {
        Double { bits: 0 }
    }

    /// `1.0`.
    pub fn one() -> (r: Double)
        ensures
            r.bits == ONE_BITS,
    {
        Double { bits: ONE_BITS }
    }

    fn magnitude_bits(&self) -> (m: u64)
        ensures
            m == self.magnitude(),
    {
        if self.bits >= SIGN_BIT {
            self.bits - SIGN_BIT
        } else {
            self.bits
        }
    }

    /// Whether the sign bit is set.
    pub fn is_sign_negative(&self) -> (r: bool)
        ensures
            r == self.sign_negative_spec(),
    {
        self.bits >= SIGN_BIT
    }

    /// Whether the value is no number at all.
    pub fn is_nan(&self) -> (r: bool)
        ensures
            r == self.is_nan_spec(),
    {
        self.magnitude_bits() > INFINITY_BITS
    }

    /// Whether the value is neither infinite nor a NaN.
    pub fn is_finite(&self) -> (r: bool)
        ensures
            r == self.is_finite_spec(),
    {
        self.magnitude_bits() < INFINITY_BITS
    }

    /// Whether the value is `+0.0` or `-0.0`.
    pub fn is_zero(&self) -> (r: bool)
        ensures
            r == self.is_zero_spec(),
    {
        self.magnitude_bits() == 0
    }

    /// Whether the value is greater than zero.
    pub fn is_positive(&self) -> (r: bool)
        ensures
            r == self.is_positive_spec(),
    {
        let m: u64 = self.magnitude_bits();
        self.bits < SIGN_BIT && 0 < m && m <= INFINITY_BITS
    }

    /// Whether the value is less than zero.
    pub fn is_negative(&self) -> (r: bool)
        ensures
            r == self.is_negative_spec(),
    {
        let m: u64 = self.magnitude_bits();
        self.bits >= SIGN_BIT && 0 < m && m <= INFINITY_BITS
    }

    /// Whether `self < other` as numbers.
    pub fn lt(&self, other: &Double) -> (r: bool)
        ensures
            r == self.ieee_lt(*other),
    {
        let a: u64 = self.magnitude_bits();
        let b: u64 = other.magnitude_bits();
        if a > INFINITY_BITS || b > INFINITY_BITS {
            return false;
        }
        if self.is_sign_negative() {
            if other.is_sign_negative() {
                a > b
            } else {
                a > 0 || b > 0
            }
        } else {
            !other.is_sign_negative() && a < b
        }
    }

    /// Whether `self > other` as numbers.
    pub fn gt(&self, other: &Double) -> (r: bool)
        ensures
            r == other.ieee_lt(*self),
    {
        other.lt(self)
    }

    /// Whether the value is exactly `1.0`.
    pub fn is_one(&self) -> (r: bool)
        ensures
            r == self.ieee_eq(Double { bits: ONE_BITS }),
            r == (self.bits == ONE_BITS),
    {
        self.bits == ONE_BITS
    }
}

impl PartialEq for Double {
    /// Equality of the numbers, not of the patterns.
    fn eq(&self, other: &Double) -> (r: bool) {
        let a: u64 = self.magnitude_bits();
        let b: u64 = other.magnitude_bits();
        a <= INFINITY_BITS && b <= INFINITY_BITS && (self.bits == other.bits || (a == 0 && b == 0))
    }
}

impl PartialEqSpecImpl for Double {
    open spec fn obeys_eq_spec() -> bool {
        true
    }

    open spec fn eq_spec(&self, other: &Double) -> bool {
        self.ieee_eq(*other)
    }
}

/// Only the pattern of `1.0` compares equal to `1.0`.
pub proof fn lemma_one_has_one_pattern(r: Double)
    ensures
        r.ieee_eq(Double { bits: ONE_BITS }) <==> r.bits == ONE_BITS,
{
}

/// IEEE equality is symmetric, and reflexive on everything but NaN.
pub proof fn lemma_ieee_eq_symmetric(a: Double, b: Double)
    ensures
        a.ieee_eq(b) == b.ieee_eq(a),
        a.ieee_eq(a) == !a.is_nan_spec(),
{
}

/// Less-than is a strict order on the numbers: nothing is below itself, and
/// what is below something that is below a third is below the third. Of two
/// numbers that are not equal, one is below the other.
pub proof fn lemma_ieee_lt_is_strict_order(a: Double, b: Double, c: Double)
    ensures
        !a.ieee_lt(a),
        a.ieee_lt(b) && b.ieee_lt(c) ==> a.ieee_lt(c),
        !a.is_nan_spec() && !b.is_nan_spec() ==> a.ieee_lt(b) || b.ieee_lt(a) || a.ieee_eq(b),
        !(a.ieee_lt(b) && a.ieee_eq(b)),
        a.is_positive_spec() == (Double { bits: 0 }).ieee_lt(a),
        a.is_negative_spec() == a.ieee_lt(Double { bits: 0 }),
{
}

} // verus!
