//! The machine numbers that generic points and matrices are made of.

use vstd::prelude::*;

verus! {

/// The quotient of `a` by `b` rounded towards zero, for `b` other than zero.
pub open spec fn truncated_quotient(a: int, b: int) -> int {
    if a >= 0 {
        a / b
    } else {
        -((-a) / b)
    }
}

/// A machine number that coordinates and matrix entries can be made of:
/// it has a zero and a one, and sums, differences, products and quotients
/// as far as they fit the type.
///
/// Every value stands for one integer, and arithmetic is stated over those
/// integers. Nothing here wraps or saturates: an operation whose exact result
/// the type cannot hold is outside its contract.
pub trait Numeric: Copy + Sized {
    /// The integer that the value stands for.
    spec fn value(self) -> int;

    /// Whether the type holds a value that stands for `v`.
    spec fn representable(v: int) -> bool;

    /// A value stands for an integer that its type holds.
    proof fn lemma_value_representable(self)
        ensures
            Self::representable(self.value()),
    ;

    /// Two values that stand for one integer are one value.
    proof fn lemma_value_injective(a: Self, b: Self)
        requires
            a.value() == b.value(),
        ensures
            a == b,
    ;

    fn zero() -> (r: Self)
        ensures
            r.value() == 0,
    ;

    fn one() -> (r: Self)
        ensures
            r.value() == 1,
    ;

    /// The sum, where the type holds it.
    fn plus(self, rhs: Self) -> (r: Self)
        requires
            Self::representable(self.value() + rhs.value()),
        ensures
            r.value() == self.value() + rhs.value(),
    ;

    /// The difference, where the type holds it.
    fn minus(self, rhs: Self) -> (r: Self)
        requires
            Self::representable(self.value() - rhs.value()),
        ensures
            r.value() == self.value() - rhs.value(),
    ;

    /// The product, where the type holds it.
    fn times(self, rhs: Self) -> (r: Self)
        requires
            Self::representable(self.value() * rhs.value()),
        ensures
            r.value() == self.value() * rhs.value(),
    ;

    /// The quotient rounded towards zero, where the divisor is not zero and
    /// the type holds the quotient.
    fn divided_by(self, rhs: Self) -> (r: Self)
        requires
            rhs.value() != 0,
            Self::representable(truncated_quotient(self.value(), rhs.value())),
        ensures
            r.value() == truncated_quotient(self.value(), rhs.value()),
    ;
}

impl Numeric for i8 {
    open spec fn value(self) -> int {
        self as int
    }

    open spec fn representable(v: int) -> bool {
        i8::MIN <= v <= i8::MAX
    }

    proof fn lemma_value_representable(self) {
    }

    proof fn lemma_value_injective(a: i8, b: i8) {
    }

    fn zero() -> (r: i8) {
        0
    }

    fn one() -> (r: i8) {
        1
    }

    fn plus(self, rhs: i8) -> (r: i8) {
        self + rhs
    }

    fn minus(self, rhs: i8) -> (r: i8) {
        self - rhs
    }

    fn times(self, rhs: i8) -> (r: i8) {
        self * rhs
    }

    fn divided_by(self, rhs: i8) -> (r: i8) {
        proof {
            if self == i8::MIN && rhs == -1 {
                let m = -(i8::MIN as int);
                assert(m / (-1int) == -m) by (nonlinear_arith);
            }
        }
        self / rhs
    }
}

impl Numeric for i16 {
    open spec fn value(self) -> int {
        self as int
    }

    open spec fn representable(v: int) -> bool {
        i16::MIN <= v <= i16::MAX
    }

    proof fn lemma_value_representable(self) {
    }

    proof fn lemma_value_injective(a: i16, b: i16) {
    }

    fn zero() -> (r: i16) {
        0
    }

    fn one() -> (r: i16) {
        1
    }

    fn plus(self, rhs: i16) -> (r: i16) {
        self + rhs
    }

    fn minus(self, rhs: i16) -> (r: i16) {
        self - rhs
    }

    fn times(self, rhs: i16) -> (r: i16) {
        self * rhs
    }

    fn divided_by(self, rhs: i16) -> (r: i16) {
        proof {
            if self == i16::MIN && rhs == -1 {
                let m = -(i16::MIN as int);
                assert(m / (-1int) == -m) by (nonlinear_arith);
            }
        }
        self / rhs
    }
}

impl Numeric for i32 {
    open spec fn value(self) -> int {
        self as int
    }

    open spec fn representable(v: int) -> bool {
        i32::MIN <= v <= i32::MAX
    }

    proof fn lemma_value_representable(self) {
    }

    proof fn lemma_value_injective(a: i32, b: i32) {
    }

    fn zero() -> (r: i32) {
        0
    }

    fn one() -> (r: i32) {
        1
    }

    fn plus(self, rhs: i32) -> (r: i32) {
        self + rhs
    }

    fn minus(self, rhs: i32) -> (r: i32) {
        self - rhs
    }

    fn times(self, rhs: i32) -> (r: i32) {
        self * rhs
    }

    fn divided_by(self, rhs: i32) -> (r: i32) {
        proof {
            if self == i32::MIN && rhs == -1 {
                let m = -(i32::MIN as int);
                assert(m / (-1int) == -m) by (nonlinear_arith);
            }
        }
        self / rhs
    }
}

impl Numeric for i64 {
    open spec fn value(self) -> int {
        self as int
    }

    open spec fn representable(v: int) -> bool {
        i64::MIN <= v <= i64::MAX
    }

    proof fn lemma_value_representable(self) {
    }

    proof fn lemma_value_injective(a: i64, b: i64) {
    }

    fn zero() -> (r: i64) {
        0
    }

    fn one() -> (r: i64) {
        1
    }

    fn plus(self, rhs: i64) -> (r: i64) {
        self + rhs
    }

    fn minus(self, rhs: i64) -> (r: i64) {
        self - rhs
    }

    fn times(self, rhs: i64) -> (r: i64) {
        self * rhs
    }

    fn divided_by(self, rhs: i64) -> (r: i64) {
        proof {
            if self == i64::MIN && rhs == -1 {
                let m = -(i64::MIN as int);
                assert(m / (-1int) == -m) by (nonlinear_arith);
            }
        }
        self / rhs
    }
}

impl Numeric for i128 {
    open spec fn value(self) -> int {
        self as int
    }

    open spec fn representable(v: int) -> bool {
        i128::MIN <= v <= i128::MAX
    }

    proof fn lemma_value_representable(self) {
    }

    proof fn lemma_value_injective(a: i128, b: i128) {
    }

    fn zero() -> (r: i128) {
        0
    }

    fn one() -> (r: i128) {
        1
    }

    fn plus(self, rhs: i128) -> (r: i128) {
        self + rhs
    }

    fn minus(self, rhs: i128) -> (r: i128) {
        self - rhs
    }

    fn times(self, rhs: i128) -> (r: i128) {
        self * rhs
    }

    fn divided_by(self, rhs: i128) -> (r: i128) {
        proof {
            if self == i128::MIN && rhs == -1 {
                let m = -(i128::MIN as int);
                assert(m / (-1int) == -m) by (nonlinear_arith);
            }
        }
        self / rhs
    }
}

impl Numeric for u8 {
    open spec fn value(self) -> int {
        self as int
    }

    open spec fn representable(v: int) -> bool {
        u8::MIN <= v <= u8::MAX
    }

    proof fn lemma_value_representable(self) {
    }

    proof fn lemma_value_injective(a: u8, b: u8) {
    }

    fn zero() -> (r: u8) {
        0
    }

    fn one() -> (r: u8) {
        1
    }

    fn plus(self, rhs: u8) -> (r: u8) {
        self + rhs
    }

    fn minus(self, rhs: u8) -> (r: u8) {
        self - rhs
    }

    fn times(self, rhs: u8) -> (r: u8) {
        self * rhs
    }

    fn divided_by(self, rhs: u8) -> (r: u8) {
        self / rhs
    }
}

impl Numeric for u16 {
    open spec fn value(self) -> int {
        self as int
    }

    open spec fn representable(v: int) -> bool {
        u16::MIN <= v <= u16::MAX
    }

    proof fn lemma_value_representable(self) {
    }

    proof fn lemma_value_injective(a: u16, b: u16) {
    }

    fn zero() -> (r: u16) {
        0
    }

    fn one() -> (r: u16) {
        1
    }

    fn plus(self, rhs: u16) -> (r: u16) {
        self + rhs
    }

    fn minus(self, rhs: u16) -> (r: u16) {
        self - rhs
    }

    fn times(self, rhs: u16) -> (r: u16) {
        self * rhs
    }

    fn divided_by(self, rhs: u16) -> (r: u16) {
        self / rhs
    }
}

impl Numeric for u32 {
    open spec fn value(self) -> int {
        self as int
    }

    open spec fn representable(v: int) -> bool {
        u32::MIN <= v <= u32::MAX
    }

    proof fn lemma_value_representable(self) {
    }

    proof fn lemma_value_injective(a: u32, b: u32) {
    }

    fn zero() -> (r: u32) {
        0
    }

    fn one() -> (r: u32) {
        1
    }

    fn plus(self, rhs: u32) -> (r: u32) {
        self + rhs
    }

    fn minus(self, rhs: u32) -> (r: u32) {
        self - rhs
    }

    fn times(self, rhs: u32) -> (r: u32) {
        self * rhs
    }

    fn divided_by(self, rhs: u32) -> (r: u32) {
        self / rhs
    }
}

impl Numeric for u64 {
    open spec fn value(self) -> int {
        self as int
    }

    open spec fn representable(v: int) -> bool {
        u64::MIN <= v <= u64::MAX
    }

    proof fn lemma_value_representable(self) {
    }

    proof fn lemma_value_injective(a: u64, b: u64) {
    }

    fn zero() -> (r: u64) {
        0
    }

    fn one() -> (r: u64) {
        1
    }

    fn plus(self, rhs: u64) -> (r: u64) {
        self + rhs
    }

    fn minus(self, rhs: u64) -> (r: u64) {
        self - rhs
    }

    fn times(self, rhs: u64) -> (r: u64) {
        self * rhs
    }

    fn divided_by(self, rhs: u64) -> (r: u64) {
        self / rhs
    }
}

impl Numeric for u128 {
    open spec fn value(self) -> int {
        self as int
    }

    open spec fn representable(v: int) -> bool {
        u128::MIN <= v <= u128::MAX
    }

    proof fn lemma_value_representable(self) {
    }

    proof fn lemma_value_injective(a: u128, b: u128) {
    }

    fn zero() -> (r: u128) {
        0
    }

    fn one() -> (r: u128) {
        1
    }

    fn plus(self, rhs: u128) -> (r: u128) {
        self + rhs
    }

    fn minus(self, rhs: u128) -> (r: u128) {
        self - rhs
    }

    fn times(self, rhs: u128) -> (r: u128) {
        self * rhs
    }

    fn divided_by(self, rhs: u128) -> (r: u128) {
        self / rhs
    }
}

impl Numeric for usize {
    open spec fn value(self) -> int {
        self as int
    }

    open spec fn representable(v: int) -> bool {
        usize::MIN <= v <= usize::MAX
    }

    proof fn lemma_value_representable(self) {
    }

    proof fn lemma_value_injective(a: usize, b: usize) {
    }

    fn zero() -> (r: usize) {
        0
    }

    fn one() -> (r: usize) {
        1
    }

    fn plus(self, rhs: usize) -> (r: usize) {
        self + rhs
    }

    fn minus(self, rhs: usize) -> (r: usize) {
        self - rhs
    }

    fn times(self, rhs: usize) -> (r: usize) {
        self * rhs
    }

    fn divided_by(self, rhs: usize) -> (r: usize) {
        self / rhs
    }
}

/// A vector of `n` copies of `value`.
pub fn filled<T: Copy>(value: T, n: usize) -> (v: Vec<T>)
    ensures
        v@.len() == n,
        forall|i: int| 0 <= i < n ==> #[trigger] v@[i] == value,
{
    let mut v: Vec<T> = Vec::new();
    let mut i: usize = 0;
    while i < n
        invariant
            i <= n,
            v@.len() == i,
            forall|k: int| 0 <= k < i ==> #[trigger] v@[k] == value,
        decreases n - i,
    {
        v.push(value);
        i = i + 1;
    }
    v
}

} // verus!
