//! Two- and three-component integer vectors.
use vstd::prelude::*;
use crate::math::{trunc_div, div_toward_zero, mul_wide};

verus! {

/// The largest `r >= 0` with `r * r <= n`.
pub open spec fn is_floor_sqrt(r: int, n: int) -> bool {
    0 <= r && r * r <= n < (r + 1) * (r + 1)
}

/// The integer square root of `n`, rounded down.
pub open spec fn floor_sqrt(n: int) -> int {
    choose|r: int| is_floor_sqrt(r, n)
}

/// The rounded-down square root is unique.
pub proof fn lemma_floor_sqrt_unique(r: int, n: int)
    requires
        is_floor_sqrt(r, n),
    ensures
        floor_sqrt(n) == r,
{
    let q = floor_sqrt(n);
    assert(is_floor_sqrt(q, n));
    if q < r {
        assert((q + 1) * (q + 1) <= r * r) by (nonlinear_arith)
            requires 0 <= q, q + 1 <= r;
    } else if r < q {
        assert((r + 1) * (r + 1) <= q * q) by (nonlinear_arith)
            requires 0 <= r, r + 1 <= q;
    }
}

/// Integer square root, rounded down.
pub fn isqrt(n: i32) -> (r: i32)
    requires
        n >= 0,
    ensures
        is_floor_sqrt(r as int, n as int),
{
    let mut lo: i64 = 0;
    let mut hi: i64 = 46341;
    assert(46341 * 46341 > i32::MAX) by (nonlinear_arith);
    while hi - lo > 1
        invariant
            0 <= lo < hi <= 46341,
            lo * lo <= n as int,
            (n as int) < hi * hi,
        decreases hi - lo,
    {
        let mid: i64 = lo + (hi - lo) / 2;
        assert(0 <= mid * mid <= 46341 * 46341) by (nonlinear_arith)
            requires 0 <= mid <= 46341;
        if mid * mid <= n as i64 {
            lo = mid;
        } else {
            hi = mid;
        }
    }
    assert(hi == lo + 1);
    lo as i32
}

/// A 2-component vector.
#[derive(Debug, Default, Clone, Copy, PartialEq, Eq, Structural)]
pub struct Vector2D<T> {
    pub x: T,
    pub y: T,
}

/// Squared length of a vector.
pub open spec fn vector2d_sq(v: Vector2D<i32>) -> int {
    v.x as int * v.x as int + v.y as int * v.y as int
}

/// The vector divided component-wise by its length rounded down.
pub open spec fn vector2d_unit(v: Vector2D<i32>) -> Vector2D<i32> {
    (Vector2D { x: trunc_div(v.x as int, floor_sqrt(vector2d_sq(v))) as i32, y: trunc_div(v.y as int, floor_sqrt(vector2d_sq(v))) as i32 })
}

/// Dot product.
pub open spec fn vector2d_dot(a: Vector2D<i32>, b: Vector2D<i32>) -> int {
    a.x as int * b.x as int + a.y as int * b.y as int
}

impl Vector2D<i32> {
    /// A vector from its components.
    pub fn new(x: i32, y: i32) -> (v: Self)
        ensures
            v == (Vector2D { x: x, y: y }),
    {
        (Vector2D { x: x, y: y })
    }

    /// The x component.
    pub fn x(&self) -> (r: i32)
        ensures
            r == self.x,
    {
        self.x
    }

    /// The y component.
    pub fn y(&self) -> (r: i32)
        ensures
            r == self.y,
    {
        self.y
    }

    /// Squared length; it must fit the component type.
    pub fn squared_length(&self) -> (r: i32)
        requires
            vector2d_sq(*self) <= i32::MAX,
        ensures
            r as int == vector2d_sq(*self),
    {
        proof { assert(0 <= self.x as int * self.x as int <= 0x4000_0000_0000_0000) by (nonlinear_arith) requires i32::MIN <= self.x <= i32::MAX; }
        proof { assert(0 <= self.y as int * self.y as int <= 0x4000_0000_0000_0000) by (nonlinear_arith) requires i32::MIN <= self.y <= i32::MAX; }
        let s: i128 = self.x as i128 * self.x as i128 + self.y as i128 * self.y as i128;
        s as i32
    }

    /// Length, rounded down to an integer.
    pub fn length(&self) -> (r: i32)
        requires
            vector2d_sq(*self) <= i32::MAX,
        ensures
            is_floor_sqrt(r as int, vector2d_sq(*self)),
    {
        let sq = self.squared_length();
        proof {
            assert(0 <= self.x as int * self.x as int) by (nonlinear_arith);
            assert(0 <= self.y as int * self.y as int) by (nonlinear_arith);
        }
        isqrt(sq)
    }

    /// This vector divided component-wise by its (integer) length.
    pub fn unit_vector(&self) -> (r: Self)
        requires
            0 < vector2d_sq(*self) <= i32::MAX,
        ensures
            r == vector2d_unit(*self),
    {
        let l = self.length();
        proof {
            if l == 0 {
                assert(vector2d_sq(*self) < 1);
            }
            lemma_floor_sqrt_unique(l as int, vector2d_sq(*self));
        }
        (Vector2D { x: div_toward_zero(self.x, l), y: div_toward_zero(self.y, l) })
    }

    /// Turns this vector into its unit vector, in place.
    pub fn make_unit(&mut self)
        requires
            0 < vector2d_sq(*old(self)) <= i32::MAX,
        ensures
            *final(self) == vector2d_unit(*old(self)),
    {
        *self = self.unit_vector();
    }

    /// Dot product; it must fit the component type.
    pub fn dot(left: Self, right: Self) -> (r: i32)
        requires
            i32::MIN <= vector2d_dot(left, right) <= i32::MAX,
        ensures
            r as int == vector2d_dot(left, right),
    {
        proof { assert(-0x4000_0000_0000_0000 <= left.x as int * right.x as int <= 0x4000_0000_0000_0000) by (nonlinear_arith) requires i32::MIN <= left.x <= i32::MAX, i32::MIN <= right.x <= i32::MAX; }
        proof { assert(-0x4000_0000_0000_0000 <= left.y as int * right.y as int <= 0x4000_0000_0000_0000) by (nonlinear_arith) requires i32::MIN <= left.y <= i32::MAX, i32::MIN <= right.y <= i32::MAX; }
        let s: i128 = left.x as i128 * right.x as i128 + left.y as i128 * right.y as i128;
        s as i32
    }

    /// The same vector; the components already are `i32`.
    pub fn to_i32(self) -> (r: Self)
        ensures
            r == self,
    {
        self
    }

    /// The 2D cross product `left.x * right.y - right.x * left.y`; it must fit.
    pub fn cross(left: Self, right: Self) -> (r: i32)
        requires
            i32::MIN <= left.x as int * right.y as int - right.x as int * left.y as int <= i32::MAX,
        ensures
            r as int == left.x as int * right.y as int - right.x as int * left.y as int,
    {
        let s: i128 = mul_wide(left.x, right.y) - mul_wide(right.x, left.y);
        s as i32
    }

    /// The vector turned a quarter: `(-y, x)`.
    pub fn perpendicular(&self) -> (r: Self)
        requires
            self.y != i32::MIN,
        ensures
            r == (Vector2D { x: -self.y as i32, y: self.x }),
    {
        Vector2D { x: -self.y, y: self.x }
    }

    /// Lowers each component to at most the given bound.
    pub fn clamp(&mut self, x: i32, y: i32)
        ensures
            final(self).x == if old(self).x > x { x } else { old(self).x },
            final(self).y == if old(self).y > y { y } else { old(self).y },
    {
        self.y = crate::math::min(self.y, y);
        self.x = crate::math::min(self.x, x);
    }

    /// Lowers each component to at most the upper bound, then raises it to at
    /// least the lower bound.
    pub fn clamp_between(&mut self, x_min: i32, y_min: i32, x_max: i32, y_max: i32)
        ensures
            final(self).x == crate::math::spec_max(crate::math::spec_min(old(self).x, x_max), x_min),
            final(self).y == crate::math::spec_max(crate::math::spec_min(old(self).y, y_max), y_min),
    {
        self.y = crate::math::min(self.y, y_max);
        self.x = crate::math::min(self.x, x_max);
        self.y = crate::math::max(self.y, y_min);
        self.x = crate::math::max(self.x, x_min);
    }
}

impl std::ops::Add for Vector2D<i32> {
    type Output = Vector2D<i32>;

    fn add(self, rhs: Vector2D<i32>) -> Vector2D<i32> {
        Vector2D { x: self.x + rhs.x, y: self.y + rhs.y }
    }
}

impl vstd::std_specs::ops::AddSpecImpl for Vector2D<i32> {
    open spec fn obeys_add_spec() -> bool {
        true
    }

    open spec fn add_req(self, rhs: Vector2D<i32>) -> bool {
        &&& i32::MIN <= self.x as int + rhs.x as int <= i32::MAX
        &&& i32::MIN <= self.y as int + rhs.y as int <= i32::MAX
    }

    open spec fn add_spec(self, rhs: Vector2D<i32>) -> Vector2D<i32> {
        Vector2D { x: (self.x + rhs.x) as i32, y: (self.y + rhs.y) as i32 }
    }
}

impl std::ops::Sub for Vector2D<i32> {
    type Output = Vector2D<i32>;

    fn sub(self, rhs: Vector2D<i32>) -> Vector2D<i32> {
        Vector2D { x: self.x - rhs.x, y: self.y - rhs.y }
    }
}

impl vstd::std_specs::ops::SubSpecImpl for Vector2D<i32> {
    open spec fn obeys_sub_spec() -> bool {
        true
    }

    open spec fn sub_req(self, rhs: Vector2D<i32>) -> bool {
        &&& i32::MIN <= self.x as int - rhs.x as int <= i32::MAX
        &&& i32::MIN <= self.y as int - rhs.y as int <= i32::MAX
    }

    open spec fn sub_spec(self, rhs: Vector2D<i32>) -> Vector2D<i32> {
        Vector2D { x: (self.x - rhs.x) as i32, y: (self.y - rhs.y) as i32 }
    }
}

impl std::ops::Mul<i32> for Vector2D<i32> {
    type Output = Vector2D<i32>;

    fn mul(self, rhs: i32) -> Vector2D<i32> {
        Vector2D { x: self.x * rhs, y: self.y * rhs }
    }
}

impl vstd::std_specs::ops::MulSpecImpl<i32> for Vector2D<i32> {
    open spec fn obeys_mul_spec() -> bool {
        true
    }

    open spec fn mul_req(self, rhs: i32) -> bool {
        &&& i32::MIN <= self.x as int * rhs as int <= i32::MAX
        &&& i32::MIN <= self.y as int * rhs as int <= i32::MAX
    }

    open spec fn mul_spec(self, rhs: i32) -> Vector2D<i32> {
        Vector2D { x: (self.x * rhs) as i32, y: (self.y * rhs) as i32 }
    }
}

impl std::ops::Div<i32> for Vector2D<i32> {
    type Output = Vector2D<i32>;

    fn div(self, rhs: i32) -> Vector2D<i32> {
        Vector2D { x: div_toward_zero(self.x, rhs), y: div_toward_zero(self.y, rhs) }
    }
}

impl vstd::std_specs::ops::DivSpecImpl<i32> for Vector2D<i32> {
    open spec fn obeys_div_spec() -> bool {
        true
    }

    open spec fn div_req(self, rhs: i32) -> bool {
        &&& rhs != 0
        &&& !(self.x == i32::MIN && rhs == -1)
        &&& !(self.y == i32::MIN && rhs == -1)
    }

    open spec fn div_spec(self, rhs: i32) -> Vector2D<i32> {
        Vector2D { x: trunc_div(self.x as int, rhs as int) as i32, y: trunc_div(self.y as int, rhs as int) as i32 }
    }
}

impl std::ops::Neg for Vector2D<i32> {
    type Output = Vector2D<i32>;

    fn neg(self) -> Vector2D<i32> {
        Vector2D { x: -self.x, y: -self.y }
    }
}

impl vstd::std_specs::ops::NegSpecImpl for Vector2D<i32> {
    open spec fn obeys_neg_spec() -> bool {
        true
    }

    open spec fn neg_req(self) -> bool {
        &&& self.x != i32::MIN
        &&& self.y != i32::MIN
    }

    open spec fn neg_spec(self) -> Vector2D<i32> {
        Vector2D { x: (-self.x) as i32, y: (-self.y) as i32 }
    }
}

/// A 3-component vector.
#[derive(Debug, Default, Clone, Copy, PartialEq, Eq, Structural)]
pub struct Vector3D<T> {
    pub x: T,
    pub y: T,
    pub z: T,
}

/// Squared length of a vector.
pub open spec fn vector3d_sq(v: Vector3D<i32>) -> int {
    v.x as int * v.x as int + v.y as int * v.y as int + v.z as int * v.z as int
}

/// The vector divided component-wise by its length rounded down.
pub open spec fn vector3d_unit(v: Vector3D<i32>) -> Vector3D<i32> {
    (Vector3D { x: trunc_div(v.x as int, floor_sqrt(vector3d_sq(v))) as i32, y: trunc_div(v.y as int, floor_sqrt(vector3d_sq(v))) as i32, z: trunc_div(v.z as int, floor_sqrt(vector3d_sq(v))) as i32 })
}

/// Dot product.
pub open spec fn vector3d_dot(a: Vector3D<i32>, b: Vector3D<i32>) -> int {
    a.x as int * b.x as int + a.y as int * b.y as int + a.z as int * b.z as int
}

impl Vector3D<i32> {
    /// A vector from its components.
    pub fn new(x: i32, y: i32, z: i32) -> (v: Self)
        ensures
            v == (Vector3D { x: x, y: y, z: z }),
    {
        (Vector3D { x: x, y: y, z: z })
    }

    /// The x component.
    pub fn x(&self) -> (r: i32)
        ensures
            r == self.x,
    {
        self.x
    }

    /// The y component.
    pub fn y(&self) -> (r: i32)
        ensures
            r == self.y,
    {
        self.y
    }

    /// The z component.
    pub fn z(&self) -> (r: i32)
        ensures
            r == self.z,
    {
        self.z
    }

    /// Squared length; it must fit the component type.
    pub fn squared_length(&self) -> (r: i32)
        requires
            vector3d_sq(*self) <= i32::MAX,
        ensures
            r as int == vector3d_sq(*self),
    {
        proof { assert(0 <= self.x as int * self.x as int <= 0x4000_0000_0000_0000) by (nonlinear_arith) requires i32::MIN <= self.x <= i32::MAX; }
        proof { assert(0 <= self.y as int * self.y as int <= 0x4000_0000_0000_0000) by (nonlinear_arith) requires i32::MIN <= self.y <= i32::MAX; }
        proof { assert(0 <= self.z as int * self.z as int <= 0x4000_0000_0000_0000) by (nonlinear_arith) requires i32::MIN <= self.z <= i32::MAX; }
        let s: i128 = self.x as i128 * self.x as i128 + self.y as i128 * self.y as i128 + self.z as i128 * self.z as i128;
        s as i32
    }

    /// Length, rounded down to an integer.
    pub fn length(&self) -> (r: i32)
        requires
            vector3d_sq(*self) <= i32::MAX,
        ensures
            is_floor_sqrt(r as int, vector3d_sq(*self)),
    {
        let sq = self.squared_length();
        proof {
            assert(0 <= self.x as int * self.x as int) by (nonlinear_arith);
            assert(0 <= self.y as int * self.y as int) by (nonlinear_arith);
            assert(0 <= self.z as int * self.z as int) by (nonlinear_arith);
        }
        isqrt(sq)
    }

    /// This vector divided component-wise by its (integer) length.
    pub fn unit_vector(&self) -> (r: Self)
        requires
            0 < vector3d_sq(*self) <= i32::MAX,
        ensures
            r == vector3d_unit(*self),
    {
        let l = self.length();
        proof {
            if l == 0 {
                assert(vector3d_sq(*self) < 1);
            }
            lemma_floor_sqrt_unique(l as int, vector3d_sq(*self));
        }
        (Vector3D { x: div_toward_zero(self.x, l), y: div_toward_zero(self.y, l), z: div_toward_zero(self.z, l) })
    }

    /// Turns this vector into its unit vector, in place.
    pub fn make_unit(&mut self)
        requires
            0 < vector3d_sq(*old(self)) <= i32::MAX,
        ensures
            *final(self) == vector3d_unit(*old(self)),
    {
        *self = self.unit_vector();
    }

    /// Dot product; it must fit the component type.
    pub fn dot(left: Self, right: Self) -> (r: i32)
        requires
            i32::MIN <= vector3d_dot(left, right) <= i32::MAX,
        ensures
            r as int == vector3d_dot(left, right),
    {
        proof { assert(-0x4000_0000_0000_0000 <= left.x as int * right.x as int <= 0x4000_0000_0000_0000) by (nonlinear_arith) requires i32::MIN <= left.x <= i32::MAX, i32::MIN <= right.x <= i32::MAX; }
        proof { assert(-0x4000_0000_0000_0000 <= left.y as int * right.y as int <= 0x4000_0000_0000_0000) by (nonlinear_arith) requires i32::MIN <= left.y <= i32::MAX, i32::MIN <= right.y <= i32::MAX; }
        proof { assert(-0x4000_0000_0000_0000 <= left.z as int * right.z as int <= 0x4000_0000_0000_0000) by (nonlinear_arith) requires i32::MIN <= left.z <= i32::MAX, i32::MIN <= right.z <= i32::MAX; }
        let s: i128 = left.x as i128 * right.x as i128 + left.y as i128 * right.y as i128 + left.z as i128 * right.z as i128;
        s as i32
    }

    /// The same vector; the components already are `i32`.
    pub fn to_i32(self) -> (r: Self)
        ensures
            r == self,
    {
        self
    }

    /// Cross product; every component must fit.
    pub fn cross(left: Self, right: Self) -> (r: Self)
        requires
            i32::MIN <= left.y as int * right.z as int - left.z as int * right.y as int <= i32::MAX,
            i32::MIN <= -(left.x as int * right.z as int - left.z as int * right.x as int) <= i32::MAX,
            i32::MIN <= left.x as int * right.y as int - left.y as int * right.x as int <= i32::MAX,
        ensures
            r.x as int == left.y as int * right.z as int - left.z as int * right.y as int,
            r.y as int == -(left.x as int * right.z as int - left.z as int * right.x as int),
            r.z as int == left.x as int * right.y as int - left.y as int * right.x as int,
    {
        let x: i128 = mul_wide(left.y, right.z) - mul_wide(left.z, right.y);
        let y: i128 = -(mul_wide(left.x, right.z) - mul_wide(left.z, right.x));
        let z: i128 = mul_wide(left.x, right.y) - mul_wide(left.y, right.x);
        Vector3D { x: x as i32, y: y as i32, z: z as i32 }
    }
}

impl std::ops::Add for Vector3D<i32> {
    type Output = Vector3D<i32>;

    fn add(self, rhs: Vector3D<i32>) -> Vector3D<i32> {
        Vector3D { x: self.x + rhs.x, y: self.y + rhs.y, z: self.z + rhs.z }
    }
}

impl vstd::std_specs::ops::AddSpecImpl for Vector3D<i32> {
    open spec fn obeys_add_spec() -> bool {
        true
    }

    open spec fn add_req(self, rhs: Vector3D<i32>) -> bool {
        &&& i32::MIN <= self.x as int + rhs.x as int <= i32::MAX
        &&& i32::MIN <= self.y as int + rhs.y as int <= i32::MAX
        &&& i32::MIN <= self.z as int + rhs.z as int <= i32::MAX
    }

    open spec fn add_spec(self, rhs: Vector3D<i32>) -> Vector3D<i32> {
        Vector3D { x: (self.x + rhs.x) as i32, y: (self.y + rhs.y) as i32, z: (self.z + rhs.z) as i32 }
    }
}

impl std::ops::Sub for Vector3D<i32> {
    type Output = Vector3D<i32>;

    fn sub(self, rhs: Vector3D<i32>) -> Vector3D<i32> {
        Vector3D { x: self.x - rhs.x, y: self.y - rhs.y, z: self.z - rhs.z }
    }
}

impl vstd::std_specs::ops::SubSpecImpl for Vector3D<i32> {
    open spec fn obeys_sub_spec() -> bool {
        true
    }

    open spec fn sub_req(self, rhs: Vector3D<i32>) -> bool {
        &&& i32::MIN <= self.x as int - rhs.x as int <= i32::MAX
        &&& i32::MIN <= self.y as int - rhs.y as int <= i32::MAX
        &&& i32::MIN <= self.z as int - rhs.z as int <= i32::MAX
    }

    open spec fn sub_spec(self, rhs: Vector3D<i32>) -> Vector3D<i32> {
        Vector3D { x: (self.x - rhs.x) as i32, y: (self.y - rhs.y) as i32, z: (self.z - rhs.z) as i32 }
    }
}

impl std::ops::Mul<i32> for Vector3D<i32> {
    type Output = Vector3D<i32>;

    fn mul(self, rhs: i32) -> Vector3D<i32> {
        Vector3D { x: self.x * rhs, y: self.y * rhs, z: self.z * rhs }
    }
}

impl vstd::std_specs::ops::MulSpecImpl<i32> for Vector3D<i32> {
    open spec fn obeys_mul_spec() -> bool {
        true
    }

    open spec fn mul_req(self, rhs: i32) -> bool {
        &&& i32::MIN <= self.x as int * rhs as int <= i32::MAX
        &&& i32::MIN <= self.y as int * rhs as int <= i32::MAX
        &&& i32::MIN <= self.z as int * rhs as int <= i32::MAX
    }

    open spec fn mul_spec(self, rhs: i32) -> Vector3D<i32> {
        Vector3D { x: (self.x * rhs) as i32, y: (self.y * rhs) as i32, z: (self.z * rhs) as i32 }
    }
}

impl std::ops::Div<i32> for Vector3D<i32> {
    type Output = Vector3D<i32>;

    fn div(self, rhs: i32) -> Vector3D<i32> {
        Vector3D { x: div_toward_zero(self.x, rhs), y: div_toward_zero(self.y, rhs), z: div_toward_zero(self.z, rhs) }
    }
}

impl vstd::std_specs::ops::DivSpecImpl<i32> for Vector3D<i32> {
    open spec fn obeys_div_spec() -> bool {
        true
    }

    open spec fn div_req(self, rhs: i32) -> bool {
        &&& rhs != 0
        &&& !(self.x == i32::MIN && rhs == -1)
        &&& !(self.y == i32::MIN && rhs == -1)
        &&& !(self.z == i32::MIN && rhs == -1)
    }

    open spec fn div_spec(self, rhs: i32) -> Vector3D<i32> {
        Vector3D { x: trunc_div(self.x as int, rhs as int) as i32, y: trunc_div(self.y as int, rhs as int) as i32, z: trunc_div(self.z as int, rhs as int) as i32 }
    }
}

impl std::ops::Neg for Vector3D<i32> {
    type Output = Vector3D<i32>;

    fn neg(self) -> Vector3D<i32> {
        Vector3D { x: -self.x, y: -self.y, z: -self.z }
    }
}

impl vstd::std_specs::ops::NegSpecImpl for Vector3D<i32> {
    open spec fn obeys_neg_spec() -> bool {
        true
    }

    open spec fn neg_req(self) -> bool {
        &&& self.x != i32::MIN
        &&& self.y != i32::MIN
        &&& self.z != i32::MIN
    }

    open spec fn neg_spec(self) -> Vector3D<i32> {
        Vector3D { x: (-self.x) as i32, y: (-self.y) as i32, z: (-self.z) as i32 }
    }
}

impl From<(i32, i32)> for Vector2D<i32> {
    fn from(pair: (i32, i32)) -> Vector2D<i32> {
        Vector2D { x: pair.0, y: pair.1 }
    }
}

impl vstd::std_specs::convert::FromSpecImpl<(i32, i32)> for Vector2D<i32> {
    open spec fn obeys_from_spec() -> bool {
        true
    }

    open spec fn from_spec(v: (i32, i32)) -> Vector2D<i32> {
        Vector2D { x: v.0, y: v.1 }
    }
}

impl From<Vector3D<i32>> for Vector2D<i32> {
    fn from(v: Vector3D<i32>) -> Vector2D<i32> {
        Vector2D { x: v.x, y: v.y }
    }
}

impl vstd::std_specs::convert::FromSpecImpl<Vector3D<i32>> for Vector2D<i32> {
    open spec fn obeys_from_spec() -> bool {
        true
    }

    open spec fn from_spec(v: Vector3D<i32>) -> Vector2D<i32> {
        Vector2D { x: v.x, y: v.y }
    }
}

impl From<(i32, i32, i32)> for Vector3D<i32> {
    fn from(triple: (i32, i32, i32)) -> Vector3D<i32> {
        Vector3D { x: triple.0, y: triple.1, z: triple.2 }
    }
}

impl vstd::std_specs::convert::FromSpecImpl<(i32, i32, i32)> for Vector3D<i32> {
    open spec fn obeys_from_spec() -> bool {
        true
    }

    open spec fn from_spec(v: (i32, i32, i32)) -> Vector3D<i32> {
        Vector3D { x: v.0, y: v.1, z: v.2 }
    }
}

} // verus!
