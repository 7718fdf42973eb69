//! Integer vector and matrix helpers.
use vstd::prelude::*;

pub mod matrix;
pub mod vector;

verus! {

/// Integer 2D vector.
pub type IVec2D = vector::Vector2D<i32>;

/// A point on a canvas.
pub type Point2D = vector::Vector2D<i32>;

/// Integer 3D vector.
pub type IVec3D = vector::Vector3D<i32>;

pub open spec fn abs(a: int) -> int {
    if a < 0 { -a } else { a }
}

/// Integer division rounded toward zero, as Rust's `/` does it.
pub open spec fn trunc_div(a: int, b: int) -> int {
    let q = abs(a) / abs(b);
    if (a < 0) != (b < 0) { -q } else { q }
}

/// `a / b` rounded toward zero.
pub fn div_toward_zero(a: i32, b: i32) -> (r: i32)
    requires
        b != 0,
        !(a == i32::MIN && b == -1),
    ensures
        r as int == trunc_div(a as int, b as int),
{
    let ua: u64 = if a < 0 { (-(a as i64)) as u64 } else { a as u64 };
    let ub: u64 = if b < 0 { (-(b as i64)) as u64 } else { b as u64 };
    let q: u64 = ua / ub;
    proof {
        assert(q <= ua) by {
            vstd::arithmetic::div_mod::lemma_div_is_ordered_by_denominator(ua as int, 1, ub as int);
        }
        if ub == 1 {
            vstd::arithmetic::div_mod::lemma_div_basics(ua as int);
        } else {
            assert(ub >= 2 || ub == 1);
            if ub >= 2 {
                vstd::arithmetic::div_mod::lemma_div_is_ordered_by_denominator(ua as int, 2, ub as int);
            }
        }
    }
    if (a < 0) != (b < 0) { -(q as i64) as i32 } else { q as i32 }
}

pub open spec fn spec_min(a: i32, b: i32) -> i32 {
    if a > b { b } else { a }
}

pub open spec fn spec_max(a: i32, b: i32) -> i32 {
    if a > b { a } else { b }
}

/// `a * b`, exactly, in a wider type.
pub fn mul_wide(a: i32, b: i32) -> (r: i128)
    ensures
        r as int == a as int * b as int,
        -0x4000_0000_0000_0000 <= r <= 0x4000_0000_0000_0000,
{
    proof {
        assert(-0x4000_0000_0000_0000 <= a as int * b as int <= 0x4000_0000_0000_0000) by (nonlinear_arith)
            requires i32::MIN <= a <= i32::MAX, i32::MIN <= b <= i32::MAX;
    }
    a as i128 * b as i128
}

/// The smaller of two values (the first on a tie).
pub fn min(a: i32, b: i32) -> (r: i32)
    ensures
        r == spec_min(a, b),
{
    if a > b { b } else { a }
}

/// The larger of two values (the second on a tie).
pub fn max(a: i32, b: i32) -> (r: i32)
    ensures
        r == spec_max(a, b),
{
    if a > b { a } else { b }
}

/// The integer types the vector and matrix types are meant for.
pub trait SimpleMathTrait {}

impl SimpleMathTrait for i8 {}

impl SimpleMathTrait for i16 {}

impl SimpleMathTrait for i32 {}

/// Integer square root, rounded down; negative values have root 0.
pub trait SquareRoot {
    fn sqrt(self) -> Self;
}

impl SquareRoot for i32 {
    fn sqrt(self) -> i32 {
        if self < 0 { 0 } else { vector::isqrt(self) }
    }
}

/// Conversion that may lose information.
pub trait LossyCast<U> {
    fn cast(self) -> U;
}

impl LossyCast<i32> for i32 {
    fn cast(self) -> i32 {
        self
    }
}

impl LossyCast<i32> for u32 {
    fn cast(self) -> i32 {
        #[verifier::truncate]
        (self as i32)
    }
}

impl LossyCast<i32> for i64 {
    fn cast(self) -> i32 {
        #[verifier::truncate]
        (self as i32)
    }
}

/// The additive identity.
pub trait Zero {
    type Type;

    fn zero() -> Self::Type;
}

impl Zero for i32 {
    type Type = i32;

    fn zero() -> i32 {
        0
    }
}

impl Zero for u32 {
    type Type = u32;

    fn zero() -> u32 {
        0
    }
}

impl Zero for i64 {
    type Type = i64;

    fn zero() -> i64 {
        0
    }
}

impl Zero for u64 {
    type Type = u64;

    fn zero() -> u64 {
        0
    }
}

/// The multiplicative identity.
pub trait Unit {
    type Type;

    fn one() -> Self::Type;
}

impl Unit for i32 {
    type Type = i32;

    fn one() -> i32 {
        1
    }
}

impl Unit for u32 {
    type Type = u32;

    fn one() -> u32 {
        1
    }
}

impl Unit for i64 {
    type Type = i64;

    fn one() -> i64 {
        1
    }
}

impl Unit for u64 {
    type Type = u64;

    fn one() -> u64 {
        1
    }
}

} // verus!
