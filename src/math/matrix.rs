//! 3x3 and 4x4 integer matrices.
use vstd::prelude::*;
use crate::math::{trunc_div, div_toward_zero, mul_wide};
use crate::math::vector::{Vector3D, vector3d_dot, vector3d_sq, vector3d_unit};

verus! {

/// `a * b` for a factor of at most 2^63 in size.
fn mul_big(a: i32, b: i128) -> (r: i128)
    requires
        -0x8000_0000_0000_0000 <= b <= 0x8000_0000_0000_0000,
    ensures
        r as int == a as int * b as int,
        -0x4000_0000_0000_0000_0000_0000 <= r <= 0x4000_0000_0000_0000_0000_0000,
{
    proof {
        assert(-0x4000_0000_0000_0000_0000_0000 <= a as int * b as int <= 0x4000_0000_0000_0000_0000_0000) by (nonlinear_arith)
            requires i32::MIN <= a <= i32::MAX, -0x8000_0000_0000_0000 <= b <= 0x8000_0000_0000_0000;
    }
    a as i128 * b
}

/// `a * b` for a factor of at most 3 * 2^94 in size.
fn mul_huge(a: i32, b: i128) -> (r: i128)
    requires
        -0xC000_0000_0000_0000_0000_0000 <= b <= 0xC000_0000_0000_0000_0000_0000,
    ensures
        r as int == a as int * b as int,
        -0x6000_0000_0000_0000_0000_0000_0000_0000 <= r <= 0x6000_0000_0000_0000_0000_0000_0000_0000,
{
    proof {
        assert(-0x6000_0000_0000_0000_0000_0000_0000_0000 <= a as int * b as int <= 0x6000_0000_0000_0000_0000_0000_0000_0000) by (nonlinear_arith)
            requires i32::MIN <= a <= i32::MAX, -0xC000_0000_0000_0000_0000_0000 <= b <= 0xC000_0000_0000_0000_0000_0000;
    }
    a as i128 * b
}

/// Determinant of the 3x3 matrix with the given entries, row by row.
pub open spec fn det3(a: int, b: int, c: int, d: int, e: int, f: int, g: int, h: int, i: int) -> int {
    a * (e * i - f * h) - b * (d * i - f * g) + c * (d * h - e * g)
}

/// The same determinant, computed without overflow.
fn det3_wide(a: i32, b: i32, c: i32, d: i32, e: i32, f: i32, g: i32, h: i32, i: i32) -> (r: i128)
    ensures
        r as int == det3(a as int, b as int, c as int, d as int, e as int, f as int, g as int, h as int, i as int),
        -0xC000_0000_0000_0000_0000_0000 <= r <= 0xC000_0000_0000_0000_0000_0000,
{
    let t0 = mul_big(a, mul_wide(e, i) - mul_wide(f, h));
    let t1 = mul_big(b, mul_wide(d, i) - mul_wide(f, g));
    let t2 = mul_big(c, mul_wide(d, h) - mul_wide(e, g));
    t0 - t1 + t2
}

/// A 3x3 matrix, row-major.
#[derive(Debug, Clone, Copy, PartialEq, Eq, Structural)]
pub struct Mat3x3<T> {
    pub inner: [[T; 3]; 3],
}

impl From<[[i32; 3]; 3]> for Mat3x3<i32> {
    fn from(inner: [[i32; 3]; 3]) -> (m: Mat3x3<i32>) {
        Mat3x3 { inner }
    }
}

impl vstd::std_specs::convert::FromSpecImpl<[[i32; 3]; 3]> for Mat3x3<i32> {
    open spec fn obeys_from_spec() -> bool {
        true
    }

    open spec fn from_spec(v: [[i32; 3]; 3]) -> Mat3x3<i32> {
        Mat3x3 { inner: v }
    }
}

impl std::ops::Add for Mat3x3<i32> {
    type Output = Mat3x3<i32>;

    fn add(self, other: Mat3x3<i32>) -> Mat3x3<i32> {
        (Mat3x3 { inner: [[self.inner[0][0] + other.inner[0][0], self.inner[0][1] + other.inner[0][1], self.inner[0][2] + other.inner[0][2]], [self.inner[1][0] + other.inner[1][0], self.inner[1][1] + other.inner[1][1], self.inner[1][2] + other.inner[1][2]], [self.inner[2][0] + other.inner[2][0], self.inner[2][1] + other.inner[2][1], self.inner[2][2] + other.inner[2][2]]] })
    }
}

impl vstd::std_specs::ops::AddSpecImpl for Mat3x3<i32> {
    open spec fn obeys_add_spec() -> bool {
        true
    }

    open spec fn add_req(self, other: Mat3x3<i32>) -> bool {
        i32::MIN <= self.inner[0][0] as int + other.inner[0][0] as int <= i32::MAX && i32::MIN <= self.inner[0][1] as int + other.inner[0][1] as int <= i32::MAX && i32::MIN <= self.inner[0][2] as int + other.inner[0][2] as int <= i32::MAX && i32::MIN <= self.inner[1][0] as int + other.inner[1][0] as int <= i32::MAX && i32::MIN <= self.inner[1][1] as int + other.inner[1][1] as int <= i32::MAX && i32::MIN <= self.inner[1][2] as int + other.inner[1][2] as int <= i32::MAX && i32::MIN <= self.inner[2][0] as int + other.inner[2][0] as int <= i32::MAX && i32::MIN <= self.inner[2][1] as int + other.inner[2][1] as int <= i32::MAX && i32::MIN <= self.inner[2][2] as int + other.inner[2][2] as int <= i32::MAX
    }

    open spec fn add_spec(self, other: Mat3x3<i32>) -> Mat3x3<i32> {
        (Mat3x3 { inner: [[(self.inner[0][0] + other.inner[0][0]) as i32, (self.inner[0][1] + other.inner[0][1]) as i32, (self.inner[0][2] + other.inner[0][2]) as i32], [(self.inner[1][0] + other.inner[1][0]) as i32, (self.inner[1][1] + other.inner[1][1]) as i32, (self.inner[1][2] + other.inner[1][2]) as i32], [(self.inner[2][0] + other.inner[2][0]) as i32, (self.inner[2][1] + other.inner[2][1]) as i32, (self.inner[2][2] + other.inner[2][2]) as i32]] })
    }
}

impl std::ops::Sub for Mat3x3<i32> {
    type Output = Mat3x3<i32>;

    fn sub(self, other: Mat3x3<i32>) -> Mat3x3<i32> {
        (Mat3x3 { inner: [[self.inner[0][0] - other.inner[0][0], self.inner[0][1] - other.inner[0][1], self.inner[0][2] - other.inner[0][2]], [self.inner[1][0] - other.inner[1][0], self.inner[1][1] - other.inner[1][1], self.inner[1][2] - other.inner[1][2]], [self.inner[2][0] - other.inner[2][0], self.inner[2][1] - other.inner[2][1], self.inner[2][2] - other.inner[2][2]]] })
    }
}

impl vstd::std_specs::ops::SubSpecImpl for Mat3x3<i32> {
    open spec fn obeys_sub_spec() -> bool {
        true
    }

    open spec fn sub_req(self, other: Mat3x3<i32>) -> bool {
        i32::MIN <= self.inner[0][0] as int - other.inner[0][0] as int <= i32::MAX && i32::MIN <= self.inner[0][1] as int - other.inner[0][1] as int <= i32::MAX && i32::MIN <= self.inner[0][2] as int - other.inner[0][2] as int <= i32::MAX && i32::MIN <= self.inner[1][0] as int - other.inner[1][0] as int <= i32::MAX && i32::MIN <= self.inner[1][1] as int - other.inner[1][1] as int <= i32::MAX && i32::MIN <= self.inner[1][2] as int - other.inner[1][2] as int <= i32::MAX && i32::MIN <= self.inner[2][0] as int - other.inner[2][0] as int <= i32::MAX && i32::MIN <= self.inner[2][1] as int - other.inner[2][1] as int <= i32::MAX && i32::MIN <= self.inner[2][2] as int - other.inner[2][2] as int <= i32::MAX
    }

    open spec fn sub_spec(self, other: Mat3x3<i32>) -> Mat3x3<i32> {
        (Mat3x3 { inner: [[(self.inner[0][0] - other.inner[0][0]) as i32, (self.inner[0][1] - other.inner[0][1]) as i32, (self.inner[0][2] - other.inner[0][2]) as i32], [(self.inner[1][0] - other.inner[1][0]) as i32, (self.inner[1][1] - other.inner[1][1]) as i32, (self.inner[1][2] - other.inner[1][2]) as i32], [(self.inner[2][0] - other.inner[2][0]) as i32, (self.inner[2][1] - other.inner[2][1]) as i32, (self.inner[2][2] - other.inner[2][2]) as i32]] })
    }
}

impl std::ops::Mul<i32> for Mat3x3<i32> {
    type Output = Mat3x3<i32>;

    fn mul(self, other: i32) -> Mat3x3<i32> {
        (Mat3x3 { inner: [[self.inner[0][0] * other, self.inner[0][1] * other, self.inner[0][2] * other], [self.inner[1][0] * other, self.inner[1][1] * other, self.inner[1][2] * other], [self.inner[2][0] * other, self.inner[2][1] * other, self.inner[2][2] * other]] })
    }
}

impl vstd::std_specs::ops::MulSpecImpl<i32> for Mat3x3<i32> {
    open spec fn obeys_mul_spec() -> bool {
        true
    }

    open spec fn mul_req(self, other: i32) -> bool {
        i32::MIN <= self.inner[0][0] as int * other as int <= i32::MAX && i32::MIN <= self.inner[0][1] as int * other as int <= i32::MAX && i32::MIN <= self.inner[0][2] as int * other as int <= i32::MAX && i32::MIN <= self.inner[1][0] as int * other as int <= i32::MAX && i32::MIN <= self.inner[1][1] as int * other as int <= i32::MAX && i32::MIN <= self.inner[1][2] as int * other as int <= i32::MAX && i32::MIN <= self.inner[2][0] as int * other as int <= i32::MAX && i32::MIN <= self.inner[2][1] as int * other as int <= i32::MAX && i32::MIN <= self.inner[2][2] as int * other as int <= i32::MAX
    }

    open spec fn mul_spec(self, other: i32) -> Mat3x3<i32> {
        (Mat3x3 { inner: [[(self.inner[0][0] * other) as i32, (self.inner[0][1] * other) as i32, (self.inner[0][2] * other) as i32], [(self.inner[1][0] * other) as i32, (self.inner[1][1] * other) as i32, (self.inner[1][2] * other) as i32], [(self.inner[2][0] * other) as i32, (self.inner[2][1] * other) as i32, (self.inner[2][2] * other) as i32]] })
    }
}

impl std::ops::Div<i32> for Mat3x3<i32> {
    type Output = Mat3x3<i32>;

    fn div(self, other: i32) -> Mat3x3<i32> {
        (Mat3x3 { inner: [[div_toward_zero(self.inner[0][0], other), div_toward_zero(self.inner[0][1], other), div_toward_zero(self.inner[0][2], other)], [div_toward_zero(self.inner[1][0], other), div_toward_zero(self.inner[1][1], other), div_toward_zero(self.inner[1][2], other)], [div_toward_zero(self.inner[2][0], other), div_toward_zero(self.inner[2][1], other), div_toward_zero(self.inner[2][2], other)]] })
    }
}

impl vstd::std_specs::ops::DivSpecImpl<i32> for Mat3x3<i32> {
    open spec fn obeys_div_spec() -> bool {
        true
    }

    open spec fn div_req(self, other: i32) -> bool {
        other != 0 && (other == -1 ==> self.inner[0][0] != i32::MIN && self.inner[0][1] != i32::MIN && self.inner[0][2] != i32::MIN && self.inner[1][0] != i32::MIN && self.inner[1][1] != i32::MIN && self.inner[1][2] != i32::MIN && self.inner[2][0] != i32::MIN && self.inner[2][1] != i32::MIN && self.inner[2][2] != i32::MIN)
    }

    open spec fn div_spec(self, other: i32) -> Mat3x3<i32> {
        (Mat3x3 { inner: [[trunc_div(self.inner[0][0] as int, other as int) as i32, trunc_div(self.inner[0][1] as int, other as int) as i32, trunc_div(self.inner[0][2] as int, other as int) as i32], [trunc_div(self.inner[1][0] as int, other as int) as i32, trunc_div(self.inner[1][1] as int, other as int) as i32, trunc_div(self.inner[1][2] as int, other as int) as i32], [trunc_div(self.inner[2][0] as int, other as int) as i32, trunc_div(self.inner[2][1] as int, other as int) as i32, trunc_div(self.inner[2][2] as int, other as int) as i32]] })
    }
}

/// Entry (i, j) of the product of two 3x3 matrices.
pub open spec fn mat3x3_product(a: Mat3x3<i32>, b: Mat3x3<i32>, i: int, j: int) -> int {
    a.inner[i][0] as int * b.inner[0][j] as int + a.inner[i][1] as int * b.inner[1][j] as int + a.inner[i][2] as int * b.inner[2][j] as int
}

impl std::ops::Mul for Mat3x3<i32> {
    type Output = Mat3x3<i32>;

    fn mul(self, other: Mat3x3<i32>) -> Mat3x3<i32> {
        let p00: i128 = mul_wide(self.inner[0][0], other.inner[0][0]) + mul_wide(self.inner[0][1], other.inner[1][0]) + mul_wide(self.inner[0][2], other.inner[2][0]);
        let p01: i128 = mul_wide(self.inner[0][0], other.inner[0][1]) + mul_wide(self.inner[0][1], other.inner[1][1]) + mul_wide(self.inner[0][2], other.inner[2][1]);
        let p02: i128 = mul_wide(self.inner[0][0], other.inner[0][2]) + mul_wide(self.inner[0][1], other.inner[1][2]) + mul_wide(self.inner[0][2], other.inner[2][2]);
        let p10: i128 = mul_wide(self.inner[1][0], other.inner[0][0]) + mul_wide(self.inner[1][1], other.inner[1][0]) + mul_wide(self.inner[1][2], other.inner[2][0]);
        let p11: i128 = mul_wide(self.inner[1][0], other.inner[0][1]) + mul_wide(self.inner[1][1], other.inner[1][1]) + mul_wide(self.inner[1][2], other.inner[2][1]);
        let p12: i128 = mul_wide(self.inner[1][0], other.inner[0][2]) + mul_wide(self.inner[1][1], other.inner[1][2]) + mul_wide(self.inner[1][2], other.inner[2][2]);
        let p20: i128 = mul_wide(self.inner[2][0], other.inner[0][0]) + mul_wide(self.inner[2][1], other.inner[1][0]) + mul_wide(self.inner[2][2], other.inner[2][0]);
        let p21: i128 = mul_wide(self.inner[2][0], other.inner[0][1]) + mul_wide(self.inner[2][1], other.inner[1][1]) + mul_wide(self.inner[2][2], other.inner[2][1]);
        let p22: i128 = mul_wide(self.inner[2][0], other.inner[0][2]) + mul_wide(self.inner[2][1], other.inner[1][2]) + mul_wide(self.inner[2][2], other.inner[2][2]);
        (Mat3x3 { inner: [[p00 as i32, p01 as i32, p02 as i32], [p10 as i32, p11 as i32, p12 as i32], [p20 as i32, p21 as i32, p22 as i32]] })
    }
}

impl vstd::std_specs::ops::MulSpecImpl for Mat3x3<i32> {
    open spec fn obeys_mul_spec() -> bool {
        true
    }

    open spec fn mul_req(self, other: Mat3x3<i32>) -> bool {
        i32::MIN <= mat3x3_product(self, other, 0, 0) <= i32::MAX && i32::MIN <= mat3x3_product(self, other, 0, 1) <= i32::MAX && i32::MIN <= mat3x3_product(self, other, 0, 2) <= i32::MAX && i32::MIN <= mat3x3_product(self, other, 1, 0) <= i32::MAX && i32::MIN <= mat3x3_product(self, other, 1, 1) <= i32::MAX && i32::MIN <= mat3x3_product(self, other, 1, 2) <= i32::MAX && i32::MIN <= mat3x3_product(self, other, 2, 0) <= i32::MAX && i32::MIN <= mat3x3_product(self, other, 2, 1) <= i32::MAX && i32::MIN <= mat3x3_product(self, other, 2, 2) <= i32::MAX
    }

    open spec fn mul_spec(self, other: Mat3x3<i32>) -> Mat3x3<i32> {
        (Mat3x3 { inner: [[mat3x3_product(self, other, 0, 0) as i32, mat3x3_product(self, other, 0, 1) as i32, mat3x3_product(self, other, 0, 2) as i32], [mat3x3_product(self, other, 1, 0) as i32, mat3x3_product(self, other, 1, 1) as i32, mat3x3_product(self, other, 1, 2) as i32], [mat3x3_product(self, other, 2, 0) as i32, mat3x3_product(self, other, 2, 1) as i32, mat3x3_product(self, other, 2, 2) as i32]] })
    }
}

/// A 4x4 matrix, row-major.
#[derive(Debug, Clone, Copy, PartialEq, Eq, Structural)]
pub struct Mat4x4<T> {
    pub inner: [[T; 4]; 4],
}

impl From<[[i32; 4]; 4]> for Mat4x4<i32> {
    fn from(inner: [[i32; 4]; 4]) -> (m: Mat4x4<i32>) {
        Mat4x4 { inner }
    }
}

impl vstd::std_specs::convert::FromSpecImpl<[[i32; 4]; 4]> for Mat4x4<i32> {
    open spec fn obeys_from_spec() -> bool {
        true
    }

    open spec fn from_spec(v: [[i32; 4]; 4]) -> Mat4x4<i32> {
        Mat4x4 { inner: v }
    }
}

impl std::ops::Add for Mat4x4<i32> {
    type Output = Mat4x4<i32>;

    fn add(self, other: Mat4x4<i32>) -> Mat4x4<i32> {
        (Mat4x4 { inner: [[self.inner[0][0] + other.inner[0][0], self.inner[0][1] + other.inner[0][1], self.inner[0][2] + other.inner[0][2], self.inner[0][3] + other.inner[0][3]], [self.inner[1][0] + other.inner[1][0], self.inner[1][1] + other.inner[1][1], self.inner[1][2] + other.inner[1][2], self.inner[1][3] + other.inner[1][3]], [self.inner[2][0] + other.inner[2][0], self.inner[2][1] + other.inner[2][1], self.inner[2][2] + other.inner[2][2], self.inner[2][3] + other.inner[2][3]], [self.inner[3][0] + other.inner[3][0], self.inner[3][1] + other.inner[3][1], self.inner[3][2] + other.inner[3][2], self.inner[3][3] + other.inner[3][3]]] })
    }
}

impl vstd::std_specs::ops::AddSpecImpl for Mat4x4<i32> {
    open spec fn obeys_add_spec() -> bool {
        true
    }

    open spec fn add_req(self, other: Mat4x4<i32>) -> bool {
        i32::MIN <= self.inner[0][0] as int + other.inner[0][0] as int <= i32::MAX && i32::MIN <= self.inner[0][1] as int + other.inner[0][1] as int <= i32::MAX && i32::MIN <= self.inner[0][2] as int + other.inner[0][2] as int <= i32::MAX && i32::MIN <= self.inner[0][3] as int + other.inner[0][3] as int <= i32::MAX && i32::MIN <= self.inner[1][0] as int + other.inner[1][0] as int <= i32::MAX && i32::MIN <= self.inner[1][1] as int + other.inner[1][1] as int <= i32::MAX && i32::MIN <= self.inner[1][2] as int + other.inner[1][2] as int <= i32::MAX && i32::MIN <= self.inner[1][3] as int + other.inner[1][3] as int <= i32::MAX && i32::MIN <= self.inner[2][0] as int + other.inner[2][0] as int <= i32::MAX && i32::MIN <= self.inner[2][1] as int + other.inner[2][1] as int <= i32::MAX && i32::MIN <= self.inner[2][2] as int + other.inner[2][2] as int <= i32::MAX && i32::MIN <= self.inner[2][3] as int + other.inner[2][3] as int <= i32::MAX && i32::MIN <= self.inner[3][0] as int + other.inner[3][0] as int <= i32::MAX && i32::MIN <= self.inner[3][1] as int + other.inner[3][1] as int <= i32::MAX && i32::MIN <= self.inner[3][2] as int + other.inner[3][2] as int <= i32::MAX && i32::MIN <= self.inner[3][3] as int + other.inner[3][3] as int <= i32::MAX
    }

    open spec fn add_spec(self, other: Mat4x4<i32>) -> Mat4x4<i32> {
        (Mat4x4 { inner: [[(self.inner[0][0] + other.inner[0][0]) as i32, (self.inner[0][1] + other.inner[0][1]) as i32, (self.inner[0][2] + other.inner[0][2]) as i32, (self.inner[0][3] + other.inner[0][3]) as i32], [(self.inner[1][0] + other.inner[1][0]) as i32, (self.inner[1][1] + other.inner[1][1]) as i32, (self.inner[1][2] + other.inner[1][2]) as i32, (self.inner[1][3] + other.inner[1][3]) as i32], [(self.inner[2][0] + other.inner[2][0]) as i32, (self.inner[2][1] + other.inner[2][1]) as i32, (self.inner[2][2] + other.inner[2][2]) as i32, (self.inner[2][3] + other.inner[2][3]) as i32], [(self.inner[3][0] + other.inner[3][0]) as i32, (self.inner[3][1] + other.inner[3][1]) as i32, (self.inner[3][2] + other.inner[3][2]) as i32, (self.inner[3][3] + other.inner[3][3]) as i32]] })
    }
}

impl std::ops::Sub for Mat4x4<i32> {
    type Output = Mat4x4<i32>;

    fn sub(self, other: Mat4x4<i32>) -> Mat4x4<i32> {
        (Mat4x4 { inner: [[self.inner[0][0] - other.inner[0][0], self.inner[0][1] - other.inner[0][1], self.inner[0][2] - other.inner[0][2], self.inner[0][3] - other.inner[0][3]], [self.inner[1][0] - other.inner[1][0], self.inner[1][1] - other.inner[1][1], self.inner[1][2] - other.inner[1][2], self.inner[1][3] - other.inner[1][3]], [self.inner[2][0] - other.inner[2][0], self.inner[2][1] - other.inner[2][1], self.inner[2][2] - other.inner[2][2], self.inner[2][3] - other.inner[2][3]], [self.inner[3][0] - other.inner[3][0], self.inner[3][1] - other.inner[3][1], self.inner[3][2] - other.inner[3][2], self.inner[3][3] - other.inner[3][3]]] })
    }
}

impl vstd::std_specs::ops::SubSpecImpl for Mat4x4<i32> {
    open spec fn obeys_sub_spec() -> bool {
        true
    }

    open spec fn sub_req(self, other: Mat4x4<i32>) -> bool {
        i32::MIN <= self.inner[0][0] as int - other.inner[0][0] as int <= i32::MAX && i32::MIN <= self.inner[0][1] as int - other.inner[0][1] as int <= i32::MAX && i32::MIN <= self.inner[0][2] as int - other.inner[0][2] as int <= i32::MAX && i32::MIN <= self.inner[0][3] as int - other.inner[0][3] as int <= i32::MAX && i32::MIN <= self.inner[1][0] as int - other.inner[1][0] as int <= i32::MAX && i32::MIN <= self.inner[1][1] as int - other.inner[1][1] as int <= i32::MAX && i32::MIN <= self.inner[1][2] as int - other.inner[1][2] as int <= i32::MAX && i32::MIN <= self.inner[1][3] as int - other.inner[1][3] as int <= i32::MAX && i32::MIN <= self.inner[2][0] as int - other.inner[2][0] as int <= i32::MAX && i32::MIN <= self.inner[2][1] as int - other.inner[2][1] as int <= i32::MAX && i32::MIN <= self.inner[2][2] as int - other.inner[2][2] as int <= i32::MAX && i32::MIN <= self.inner[2][3] as int - other.inner[2][3] as int <= i32::MAX && i32::MIN <= self.inner[3][0] as int - other.inner[3][0] as int <= i32::MAX && i32::MIN <= self.inner[3][1] as int - other.inner[3][1] as int <= i32::MAX && i32::MIN <= self.inner[3][2] as int - other.inner[3][2] as int <= i32::MAX && i32::MIN <= self.inner[3][3] as int - other.inner[3][3] as int <= i32::MAX
    }

    open spec fn sub_spec(self, other: Mat4x4<i32>) -> Mat4x4<i32> {
        (Mat4x4 { inner: [[(self.inner[0][0] - other.inner[0][0]) as i32, (self.inner[0][1] - other.inner[0][1]) as i32, (self.inner[0][2] - other.inner[0][2]) as i32, (self.inner[0][3] - other.inner[0][3]) as i32], [(self.inner[1][0] - other.inner[1][0]) as i32, (self.inner[1][1] - other.inner[1][1]) as i32, (self.inner[1][2] - other.inner[1][2]) as i32, (self.inner[1][3] - other.inner[1][3]) as i32], [(self.inner[2][0] - other.inner[2][0]) as i32, (self.inner[2][1] - other.inner[2][1]) as i32, (self.inner[2][2] - other.inner[2][2]) as i32, (self.inner[2][3] - other.inner[2][3]) as i32], [(self.inner[3][0] - other.inner[3][0]) as i32, (self.inner[3][1] - other.inner[3][1]) as i32, (self.inner[3][2] - other.inner[3][2]) as i32, (self.inner[3][3] - other.inner[3][3]) as i32]] })
    }
}

impl std::ops::Mul<i32> for Mat4x4<i32> {
    type Output = Mat4x4<i32>;

    fn mul(self, other: i32) -> Mat4x4<i32> {
        (Mat4x4 { inner: [[self.inner[0][0] * other, self.inner[0][1] * other, self.inner[0][2] * other, self.inner[0][3] * other], [self.inner[1][0] * other, self.inner[1][1] * other, self.inner[1][2] * other, self.inner[1][3] * other], [self.inner[2][0] * other, self.inner[2][1] * other, self.inner[2][2] * other, self.inner[2][3] * other], [self.inner[3][0] * other, self.inner[3][1] * other, self.inner[3][2] * other, self.inner[3][3] * other]] })
    }
}

impl vstd::std_specs::ops::MulSpecImpl<i32> for Mat4x4<i32> {
    open spec fn obeys_mul_spec() -> bool {
        true
    }

    open spec fn mul_req(self, other: i32) -> bool {
        i32::MIN <= self.inner[0][0] as int * other as int <= i32::MAX && i32::MIN <= self.inner[0][1] as int * other as int <= i32::MAX && i32::MIN <= self.inner[0][2] as int * other as int <= i32::MAX && i32::MIN <= self.inner[0][3] as int * other as int <= i32::MAX && i32::MIN <= self.inner[1][0] as int * other as int <= i32::MAX && i32::MIN <= self.inner[1][1] as int * other as int <= i32::MAX && i32::MIN <= self.inner[1][2] as int * other as int <= i32::MAX && i32::MIN <= self.inner[1][3] as int * other as int <= i32::MAX && i32::MIN <= self.inner[2][0] as int * other as int <= i32::MAX && i32::MIN <= self.inner[2][1] as int * other as int <= i32::MAX && i32::MIN <= self.inner[2][2] as int * other as int <= i32::MAX && i32::MIN <= self.inner[2][3] as int * other as int <= i32::MAX && i32::MIN <= self.inner[3][0] as int * other as int <= i32::MAX && i32::MIN <= self.inner[3][1] as int * other as int <= i32::MAX && i32::MIN <= self.inner[3][2] as int * other as int <= i32::MAX && i32::MIN <= self.inner[3][3] as int * other as int <= i32::MAX
    }

    open spec fn mul_spec(self, other: i32) -> Mat4x4<i32> {
        (Mat4x4 { inner: [[(self.inner[0][0] * other) as i32, (self.inner[0][1] * other) as i32, (self.inner[0][2] * other) as i32, (self.inner[0][3] * other) as i32], [(self.inner[1][0] * other) as i32, (self.inner[1][1] * other) as i32, (self.inner[1][2] * other) as i32, (self.inner[1][3] * other) as i32], [(self.inner[2][0] * other) as i32, (self.inner[2][1] * other) as i32, (self.inner[2][2] * other) as i32, (self.inner[2][3] * other) as i32], [(self.inner[3][0] * other) as i32, (self.inner[3][1] * other) as i32, (self.inner[3][2] * other) as i32, (self.inner[3][3] * other) as i32]] })
    }
}

impl std::ops::Div<i32> for Mat4x4<i32> {
    type Output = Mat4x4<i32>;

    fn div(self, other: i32) -> Mat4x4<i32> {
        (Mat4x4 { inner: [[div_toward_zero(self.inner[0][0], other), div_toward_zero(self.inner[0][1], other), div_toward_zero(self.inner[0][2], other), div_toward_zero(self.inner[0][3], other)], [div_toward_zero(self.inner[1][0], other), div_toward_zero(self.inner[1][1], other), div_toward_zero(self.inner[1][2], other), div_toward_zero(self.inner[1][3], other)], [div_toward_zero(self.inner[2][0], other), div_toward_zero(self.inner[2][1], other), div_toward_zero(self.inner[2][2], other), div_toward_zero(self.inner[2][3], other)], [div_toward_zero(self.inner[3][0], other), div_toward_zero(self.inner[3][1], other), div_toward_zero(self.inner[3][2], other), div_toward_zero(self.inner[3][3], other)]] })
    }
}

impl vstd::std_specs::ops::DivSpecImpl<i32> for Mat4x4<i32> {
    open spec fn obeys_div_spec() -> bool {
        true
    }

    open spec fn div_req(self, other: i32) -> bool {
        other != 0 && (other == -1 ==> self.inner[0][0] != i32::MIN && self.inner[0][1] != i32::MIN && self.inner[0][2] != i32::MIN && self.inner[0][3] != i32::MIN && self.inner[1][0] != i32::MIN && self.inner[1][1] != i32::MIN && self.inner[1][2] != i32::MIN && self.inner[1][3] != i32::MIN && self.inner[2][0] != i32::MIN && self.inner[2][1] != i32::MIN && self.inner[2][2] != i32::MIN && self.inner[2][3] != i32::MIN && self.inner[3][0] != i32::MIN && self.inner[3][1] != i32::MIN && self.inner[3][2] != i32::MIN && self.inner[3][3] != i32::MIN)
    }

    open spec fn div_spec(self, other: i32) -> Mat4x4<i32> {
        (Mat4x4 { inner: [[trunc_div(self.inner[0][0] as int, other as int) as i32, trunc_div(self.inner[0][1] as int, other as int) as i32, trunc_div(self.inner[0][2] as int, other as int) as i32, trunc_div(self.inner[0][3] as int, other as int) as i32], [trunc_div(self.inner[1][0] as int, other as int) as i32, trunc_div(self.inner[1][1] as int, other as int) as i32, trunc_div(self.inner[1][2] as int, other as int) as i32, trunc_div(self.inner[1][3] as int, other as int) as i32], [trunc_div(self.inner[2][0] as int, other as int) as i32, trunc_div(self.inner[2][1] as int, other as int) as i32, trunc_div(self.inner[2][2] as int, other as int) as i32, trunc_div(self.inner[2][3] as int, other as int) as i32], [trunc_div(self.inner[3][0] as int, other as int) as i32, trunc_div(self.inner[3][1] as int, other as int) as i32, trunc_div(self.inner[3][2] as int, other as int) as i32, trunc_div(self.inner[3][3] as int, other as int) as i32]] })
    }
}

/// Entry (i, j) of the product of two 4x4 matrices.
pub open spec fn mat4x4_product(a: Mat4x4<i32>, b: Mat4x4<i32>, i: int, j: int) -> int {
    a.inner[i][0] as int * b.inner[0][j] as int + a.inner[i][1] as int * b.inner[1][j] as int + a.inner[i][2] as int * b.inner[2][j] as int + a.inner[i][3] as int * b.inner[3][j] as int
}

impl std::ops::Mul for Mat4x4<i32> {
    type Output = Mat4x4<i32>;

    fn mul(self, other: Mat4x4<i32>) -> Mat4x4<i32> {
        let p00: i128 = mul_wide(self.inner[0][0], other.inner[0][0]) + mul_wide(self.inner[0][1], other.inner[1][0]) + mul_wide(self.inner[0][2], other.inner[2][0]) + mul_wide(self.inner[0][3], other.inner[3][0]);
        let p01: i128 = mul_wide(self.inner[0][0], other.inner[0][1]) + mul_wide(self.inner[0][1], other.inner[1][1]) + mul_wide(self.inner[0][2], other.inner[2][1]) + mul_wide(self.inner[0][3], other.inner[3][1]);
        let p02: i128 = mul_wide(self.inner[0][0], other.inner[0][2]) + mul_wide(self.inner[0][1], other.inner[1][2]) + mul_wide(self.inner[0][2], other.inner[2][2]) + mul_wide(self.inner[0][3], other.inner[3][2]);
        let p03: i128 = mul_wide(self.inner[0][0], other.inner[0][3]) + mul_wide(self.inner[0][1], other.inner[1][3]) + mul_wide(self.inner[0][2], other.inner[2][3]) + mul_wide(self.inner[0][3], other.inner[3][3]);
        let p10: i128 = mul_wide(self.inner[1][0], other.inner[0][0]) + mul_wide(self.inner[1][1], other.inner[1][0]) + mul_wide(self.inner[1][2], other.inner[2][0]) + mul_wide(self.inner[1][3], other.inner[3][0]);
        let p11: i128 = mul_wide(self.inner[1][0], other.inner[0][1]) + mul_wide(self.inner[1][1], other.inner[1][1]) + mul_wide(self.inner[1][2], other.inner[2][1]) + mul_wide(self.inner[1][3], other.inner[3][1]);
        let p12: i128 = mul_wide(self.inner[1][0], other.inner[0][2]) + mul_wide(self.inner[1][1], other.inner[1][2]) + mul_wide(self.inner[1][2], other.inner[2][2]) + mul_wide(self.inner[1][3], other.inner[3][2]);
        let p13: i128 = mul_wide(self.inner[1][0], other.inner[0][3]) + mul_wide(self.inner[1][1], other.inner[1][3]) + mul_wide(self.inner[1][2], other.inner[2][3]) + mul_wide(self.inner[1][3], other.inner[3][3]);
        let p20: i128 = mul_wide(self.inner[2][0], other.inner[0][0]) + mul_wide(self.inner[2][1], other.inner[1][0]) + mul_wide(self.inner[2][2], other.inner[2][0]) + mul_wide(self.inner[2][3], other.inner[3][0]);
        let p21: i128 = mul_wide(self.inner[2][0], other.inner[0][1]) + mul_wide(self.inner[2][1], other.inner[1][1]) + mul_wide(self.inner[2][2], other.inner[2][1]) + mul_wide(self.inner[2][3], other.inner[3][1]);
        let p22: i128 = mul_wide(self.inner[2][0], other.inner[0][2]) + mul_wide(self.inner[2][1], other.inner[1][2]) + mul_wide(self.inner[2][2], other.inner[2][2]) + mul_wide(self.inner[2][3], other.inner[3][2]);
        let p23: i128 = mul_wide(self.inner[2][0], other.inner[0][3]) + mul_wide(self.inner[2][1], other.inner[1][3]) + mul_wide(self.inner[2][2], other.inner[2][3]) + mul_wide(self.inner[2][3], other.inner[3][3]);
        let p30: i128 = mul_wide(self.inner[3][0], other.inner[0][0]) + mul_wide(self.inner[3][1], other.inner[1][0]) + mul_wide(self.inner[3][2], other.inner[2][0]) + mul_wide(self.inner[3][3], other.inner[3][0]);
        let p31: i128 = mul_wide(self.inner[3][0], other.inner[0][1]) + mul_wide(self.inner[3][1], other.inner[1][1]) + mul_wide(self.inner[3][2], other.inner[2][1]) + mul_wide(self.inner[3][3], other.inner[3][1]);
        let p32: i128 = mul_wide(self.inner[3][0], other.inner[0][2]) + mul_wide(self.inner[3][1], other.inner[1][2]) + mul_wide(self.inner[3][2], other.inner[2][2]) + mul_wide(self.inner[3][3], other.inner[3][2]);
        let p33: i128 = mul_wide(self.inner[3][0], other.inner[0][3]) + mul_wide(self.inner[3][1], other.inner[1][3]) + mul_wide(self.inner[3][2], other.inner[2][3]) + mul_wide(self.inner[3][3], other.inner[3][3]);
        (Mat4x4 { inner: [[p00 as i32, p01 as i32, p02 as i32, p03 as i32], [p10 as i32, p11 as i32, p12 as i32, p13 as i32], [p20 as i32, p21 as i32, p22 as i32, p23 as i32], [p30 as i32, p31 as i32, p32 as i32, p33 as i32]] })
    }
}

impl vstd::std_specs::ops::MulSpecImpl for Mat4x4<i32> {
    open spec fn obeys_mul_spec() -> bool {
        true
    }

    open spec fn mul_req(self, other: Mat4x4<i32>) -> bool {
        i32::MIN <= mat4x4_product(self, other, 0, 0) <= i32::MAX && i32::MIN <= mat4x4_product(self, other, 0, 1) <= i32::MAX && i32::MIN <= mat4x4_product(self, other, 0, 2) <= i32::MAX && i32::MIN <= mat4x4_product(self, other, 0, 3) <= i32::MAX && i32::MIN <= mat4x4_product(self, other, 1, 0) <= i32::MAX && i32::MIN <= mat4x4_product(self, other, 1, 1) <= i32::MAX && i32::MIN <= mat4x4_product(self, other, 1, 2) <= i32::MAX && i32::MIN <= mat4x4_product(self, other, 1, 3) <= i32::MAX && i32::MIN <= mat4x4_product(self, other, 2, 0) <= i32::MAX && i32::MIN <= mat4x4_product(self, other, 2, 1) <= i32::MAX && i32::MIN <= mat4x4_product(self, other, 2, 2) <= i32::MAX && i32::MIN <= mat4x4_product(self, other, 2, 3) <= i32::MAX && i32::MIN <= mat4x4_product(self, other, 3, 0) <= i32::MAX && i32::MIN <= mat4x4_product(self, other, 3, 1) <= i32::MAX && i32::MIN <= mat4x4_product(self, other, 3, 2) <= i32::MAX && i32::MIN <= mat4x4_product(self, other, 3, 3) <= i32::MAX
    }

    open spec fn mul_spec(self, other: Mat4x4<i32>) -> Mat4x4<i32> {
        (Mat4x4 { inner: [[mat4x4_product(self, other, 0, 0) as i32, mat4x4_product(self, other, 0, 1) as i32, mat4x4_product(self, other, 0, 2) as i32, mat4x4_product(self, other, 0, 3) as i32], [mat4x4_product(self, other, 1, 0) as i32, mat4x4_product(self, other, 1, 1) as i32, mat4x4_product(self, other, 1, 2) as i32, mat4x4_product(self, other, 1, 3) as i32], [mat4x4_product(self, other, 2, 0) as i32, mat4x4_product(self, other, 2, 1) as i32, mat4x4_product(self, other, 2, 2) as i32, mat4x4_product(self, other, 2, 3) as i32], [mat4x4_product(self, other, 3, 0) as i32, mat4x4_product(self, other, 3, 1) as i32, mat4x4_product(self, other, 3, 2) as i32, mat4x4_product(self, other, 3, 3) as i32]] })
    }
}

/// Determinant of a 3x3 matrix.
pub open spec fn mat3_det(m: Mat3x3<i32>) -> int {
    det3(m.inner[0][0] as int, m.inner[0][1] as int, m.inner[0][2] as int, m.inner[1][0] as int, m.inner[1][1] as int, m.inner[1][2] as int, m.inner[2][0] as int, m.inner[2][1] as int, m.inner[2][2] as int)
}

/// Entry (i, j) of the adjugate of a 3x3 matrix, as written out by cofactors.
pub open spec fn mat3_adj(m: Mat3x3<i32>, i: int, j: int) -> int {
    let a = m.inner;
    if i == 0 && j == 0 { a[1][1] * a[2][2] - a[1][2] * a[2][1] }
    else if i == 0 && j == 1 { a[0][2] * a[2][1] - a[2][2] * a[0][1] }
    else if i == 0 && j == 2 { a[0][1] * a[1][2] - a[1][1] * a[0][2] }
    else if i == 1 && j == 0 { a[1][2] * a[2][0] - a[1][0] * a[2][2] }
    else if i == 1 && j == 1 { a[0][0] * a[2][2] - a[0][2] * a[2][0] }
    else if i == 1 && j == 2 { a[0][2] * a[1][0] - a[1][2] * a[0][0] }
    else if i == 2 && j == 0 { a[1][0] * a[2][1] - a[2][0] * a[1][1] }
    else if i == 2 && j == 1 { a[0][1] * a[2][0] - a[2][1] * a[0][0] }
    else { a[0][0] * a[1][1] - a[1][0] * a[0][1] }
}

impl Mat3x3<i32> {
    /// The zero matrix.
    pub fn default() -> (m: Self)
        ensures
            m == (Mat3x3 { inner: [[0i32, 0i32, 0i32], [0i32, 0i32, 0i32], [0i32, 0i32, 0i32]] }),
    {
        (Mat3x3 { inner: [[0, 0, 0], [0, 0, 0], [0, 0, 0]] })
    }

    /// The identity matrix.
    pub fn identity() -> (m: Self)
        ensures
            m == (Mat3x3 { inner: [[1i32, 0i32, 0i32], [0i32, 1i32, 0i32], [0i32, 0i32, 1i32]] }),
    {
        (Mat3x3 { inner: [[1, 0, 0], [0, 1, 0], [0, 0, 1]] })
    }

    /// The affine translation by (vx, vy).
    pub fn translate(vx: i32, vy: i32) -> (m: Self)
        ensures
            m == (Mat3x3 { inner: [[1i32, 0, vx], [0, 1, vy], [0, 0, 1]] }),
    {
        Mat3x3 { inner: [[1, 0, vx], [0, 1, vy], [0, 0, 1]] }
    }

    /// The scaling by (cx, cy).
    pub fn scale(cx: i32, cy: i32) -> (m: Self)
        ensures
            m == (Mat3x3 { inner: [[cx, 0i32, 0], [0, cy, 0], [0, 0, 1]] }),
    {
        Mat3x3 { inner: [[cx, 0, 0], [0, cy, 0], [0, 0, 1]] }
    }

    /// The determinant; it must fit the entry type.
    pub fn det(&self) -> (r: i32)
        requires
            i32::MIN <= mat3_det(*self) <= i32::MAX,
        ensures
            r as int == mat3_det(*self),
    {
        let m = self.inner;
        let d = det3_wide(m[0][0], m[0][1], m[0][2], m[1][0], m[1][1], m[1][2], m[2][0], m[2][1], m[2][2]);
        d as i32
    }

    /// The inverse for integer entries: the adjugate divided by the
    /// determinant, each entry rounded toward zero. The determinant must be
    /// nonzero and every adjugate entry must fit.
    pub fn inverse(&self) -> (r: Self)
        requires
            mat3_det(*self) != 0,
            i32::MIN <= mat3_det(*self) <= i32::MAX,
            forall|i: int, j: int| 0 <= i < 3 && 0 <= j < 3 ==> i32::MIN <= #[trigger] mat3_adj(*self, i, j) <= i32::MAX,
            forall|i: int, j: int| 0 <= i < 3 && 0 <= j < 3 ==> !(#[trigger] mat3_adj(*self, i, j) == i32::MIN && mat3_det(*self) == -1),
        ensures
            r.inner[0][0] as int == trunc_div(mat3_adj(*self, 0, 0), mat3_det(*self)),
            r.inner[0][1] as int == trunc_div(mat3_adj(*self, 0, 1), mat3_det(*self)),
            r.inner[0][2] as int == trunc_div(mat3_adj(*self, 0, 2), mat3_det(*self)),
            r.inner[1][0] as int == trunc_div(mat3_adj(*self, 1, 0), mat3_det(*self)),
            r.inner[1][1] as int == trunc_div(mat3_adj(*self, 1, 1), mat3_det(*self)),
            r.inner[1][2] as int == trunc_div(mat3_adj(*self, 1, 2), mat3_det(*self)),
            r.inner[2][0] as int == trunc_div(mat3_adj(*self, 2, 0), mat3_det(*self)),
            r.inner[2][1] as int == trunc_div(mat3_adj(*self, 2, 1), mat3_det(*self)),
            r.inner[2][2] as int == trunc_div(mat3_adj(*self, 2, 2), mat3_det(*self)),
    {
        let m = self.inner;
        let d = self.det();
        let c00 = (mul_wide(m[1][1], m[2][2]) - mul_wide(m[1][2], m[2][1])) as i32;
        let c01 = (mul_wide(m[0][2], m[2][1]) - mul_wide(m[2][2], m[0][1])) as i32;
        let c02 = (mul_wide(m[0][1], m[1][2]) - mul_wide(m[1][1], m[0][2])) as i32;
        let c10 = (mul_wide(m[1][2], m[2][0]) - mul_wide(m[1][0], m[2][2])) as i32;
        let c11 = (mul_wide(m[0][0], m[2][2]) - mul_wide(m[0][2], m[2][0])) as i32;
        let c12 = (mul_wide(m[0][2], m[1][0]) - mul_wide(m[1][2], m[0][0])) as i32;
        let c20 = (mul_wide(m[1][0], m[2][1]) - mul_wide(m[2][0], m[1][1])) as i32;
        let c21 = (mul_wide(m[0][1], m[2][0]) - mul_wide(m[2][1], m[0][0])) as i32;
        let c22 = (mul_wide(m[0][0], m[1][1]) - mul_wide(m[1][0], m[0][1])) as i32;
        proof {
            assert(mat3_adj(*self, 0, 0) == c00 && mat3_adj(*self, 0, 1) == c01 && mat3_adj(*self, 0, 2) == c02);
            assert(mat3_adj(*self, 1, 0) == c10 && mat3_adj(*self, 1, 1) == c11 && mat3_adj(*self, 1, 2) == c12);
            assert(mat3_adj(*self, 2, 0) == c20 && mat3_adj(*self, 2, 1) == c21 && mat3_adj(*self, 2, 2) == c22);
        }
        let r = (Mat3x3 { inner: [[div_toward_zero(c00, d), div_toward_zero(c01, d), div_toward_zero(c02, d)], [div_toward_zero(c10, d), div_toward_zero(c11, d), div_toward_zero(c12, d)], [div_toward_zero(c20, d), div_toward_zero(c21, d), div_toward_zero(c22, d)]] });
        r
    }

    /// Applies the matrix to a point; every component must fit.
    pub fn transform_point(&self, point: Vector3D<i32>) -> (r: Vector3D<i32>)
        requires
            i32::MIN <= self.inner[0][0] as int * point.x as int + self.inner[0][1] as int * point.y as int + self.inner[0][2] as int * point.z as int <= i32::MAX,
            i32::MIN <= self.inner[1][0] as int * point.x as int + self.inner[1][1] as int * point.y as int + self.inner[1][2] as int * point.z as int <= i32::MAX,
            i32::MIN <= self.inner[2][0] as int * point.x as int + self.inner[2][1] as int * point.y as int + self.inner[2][2] as int * point.z as int <= i32::MAX,
        ensures
            r.x as int == self.inner[0][0] as int * point.x as int + self.inner[0][1] as int * point.y as int + self.inner[0][2] as int * point.z as int,
            r.y as int == self.inner[1][0] as int * point.x as int + self.inner[1][1] as int * point.y as int + self.inner[1][2] as int * point.z as int,
            r.z as int == self.inner[2][0] as int * point.x as int + self.inner[2][1] as int * point.y as int + self.inner[2][2] as int * point.z as int,
    {
        let m = self.inner;
        let x = mul_wide(m[0][0], point.x) + mul_wide(m[0][1], point.y) + mul_wide(m[0][2], point.z);
        let y = mul_wide(m[1][0], point.x) + mul_wide(m[1][1], point.y) + mul_wide(m[1][2], point.z);
        let z = mul_wide(m[2][0], point.x) + mul_wide(m[2][1], point.y) + mul_wide(m[2][2], point.z);
        Vector3D { x: x as i32, y: y as i32, z: z as i32 }
    }

    /// The same matrix; the entries already are `i32`.
    pub fn to_i32(&self) -> (r: Self)
        ensures
            r == *self,
    {
        *self
    }
}

/// Determinant of the 3x3 minor of a 4x4 matrix without row `r` and column `c`.
pub open spec fn mat4_minor(m: Mat4x4<i32>, r: int, c: int) -> int {
    if r == 0 && c == 0 { det3(m.inner[1][1] as int, m.inner[1][2] as int, m.inner[1][3] as int, m.inner[2][1] as int, m.inner[2][2] as int, m.inner[2][3] as int, m.inner[3][1] as int, m.inner[3][2] as int, m.inner[3][3] as int) }
    else if r == 0 && c == 1 { det3(m.inner[1][0] as int, m.inner[1][2] as int, m.inner[1][3] as int, m.inner[2][0] as int, m.inner[2][2] as int, m.inner[2][3] as int, m.inner[3][0] as int, m.inner[3][2] as int, m.inner[3][3] as int) }
    else if r == 0 && c == 2 { det3(m.inner[1][0] as int, m.inner[1][1] as int, m.inner[1][3] as int, m.inner[2][0] as int, m.inner[2][1] as int, m.inner[2][3] as int, m.inner[3][0] as int, m.inner[3][1] as int, m.inner[3][3] as int) }
    else if r == 0 && c == 3 { det3(m.inner[1][0] as int, m.inner[1][1] as int, m.inner[1][2] as int, m.inner[2][0] as int, m.inner[2][1] as int, m.inner[2][2] as int, m.inner[3][0] as int, m.inner[3][1] as int, m.inner[3][2] as int) }
    else if r == 1 && c == 0 { det3(m.inner[0][1] as int, m.inner[0][2] as int, m.inner[0][3] as int, m.inner[2][1] as int, m.inner[2][2] as int, m.inner[2][3] as int, m.inner[3][1] as int, m.inner[3][2] as int, m.inner[3][3] as int) }
    else if r == 1 && c == 1 { det3(m.inner[0][0] as int, m.inner[0][2] as int, m.inner[0][3] as int, m.inner[2][0] as int, m.inner[2][2] as int, m.inner[2][3] as int, m.inner[3][0] as int, m.inner[3][2] as int, m.inner[3][3] as int) }
    else if r == 1 && c == 2 { det3(m.inner[0][0] as int, m.inner[0][1] as int, m.inner[0][3] as int, m.inner[2][0] as int, m.inner[2][1] as int, m.inner[2][3] as int, m.inner[3][0] as int, m.inner[3][1] as int, m.inner[3][3] as int) }
    else if r == 1 && c == 3 { det3(m.inner[0][0] as int, m.inner[0][1] as int, m.inner[0][2] as int, m.inner[2][0] as int, m.inner[2][1] as int, m.inner[2][2] as int, m.inner[3][0] as int, m.inner[3][1] as int, m.inner[3][2] as int) }
    else if r == 2 && c == 0 { det3(m.inner[0][1] as int, m.inner[0][2] as int, m.inner[0][3] as int, m.inner[1][1] as int, m.inner[1][2] as int, m.inner[1][3] as int, m.inner[3][1] as int, m.inner[3][2] as int, m.inner[3][3] as int) }
    else if r == 2 && c == 1 { det3(m.inner[0][0] as int, m.inner[0][2] as int, m.inner[0][3] as int, m.inner[1][0] as int, m.inner[1][2] as int, m.inner[1][3] as int, m.inner[3][0] as int, m.inner[3][2] as int, m.inner[3][3] as int) }
    else if r == 2 && c == 2 { det3(m.inner[0][0] as int, m.inner[0][1] as int, m.inner[0][3] as int, m.inner[1][0] as int, m.inner[1][1] as int, m.inner[1][3] as int, m.inner[3][0] as int, m.inner[3][1] as int, m.inner[3][3] as int) }
    else if r == 2 && c == 3 { det3(m.inner[0][0] as int, m.inner[0][1] as int, m.inner[0][2] as int, m.inner[1][0] as int, m.inner[1][1] as int, m.inner[1][2] as int, m.inner[3][0] as int, m.inner[3][1] as int, m.inner[3][2] as int) }
    else if r == 3 && c == 0 { det3(m.inner[0][1] as int, m.inner[0][2] as int, m.inner[0][3] as int, m.inner[1][1] as int, m.inner[1][2] as int, m.inner[1][3] as int, m.inner[2][1] as int, m.inner[2][2] as int, m.inner[2][3] as int) }
    else if r == 3 && c == 1 { det3(m.inner[0][0] as int, m.inner[0][2] as int, m.inner[0][3] as int, m.inner[1][0] as int, m.inner[1][2] as int, m.inner[1][3] as int, m.inner[2][0] as int, m.inner[2][2] as int, m.inner[2][3] as int) }
    else if r == 3 && c == 2 { det3(m.inner[0][0] as int, m.inner[0][1] as int, m.inner[0][3] as int, m.inner[1][0] as int, m.inner[1][1] as int, m.inner[1][3] as int, m.inner[2][0] as int, m.inner[2][1] as int, m.inner[2][3] as int) }
    else { det3(m.inner[0][0] as int, m.inner[0][1] as int, m.inner[0][2] as int, m.inner[1][0] as int, m.inner[1][1] as int, m.inner[1][2] as int, m.inner[2][0] as int, m.inner[2][1] as int, m.inner[2][2] as int) }
}

/// Term `j` of the expansion of the determinant along the first row.
pub open spec fn mat4_term(m: Mat4x4<i32>, j: int) -> int {
    m.inner[0][j] as int * mat4_minor(m, 0, j)
}

/// Determinant of a 4x4 matrix.
pub open spec fn mat4_det(m: Mat4x4<i32>) -> int {
    mat4_term(m, 0) - mat4_term(m, 1) + mat4_term(m, 2) - mat4_term(m, 3)
}

/// Whether the expansion of the determinant can be summed in 128 bits and
/// the determinant fits the entry type.
pub open spec fn mat4_det_fits(m: Mat4x4<i32>) -> bool {
    &&& i128::MIN <= mat4_term(m, 0) - mat4_term(m, 1) <= i128::MAX
    &&& i128::MIN <= mat4_term(m, 0) - mat4_term(m, 1) + mat4_term(m, 2) <= i128::MAX
    &&& i32::MIN <= mat4_det(m) <= i32::MAX
}

/// Entry (i, j) of the adjugate of a 4x4 matrix: the signed minor without
/// row `j` and column `i`.
pub open spec fn mat4_adj(m: Mat4x4<i32>, i: int, j: int) -> int {
    if (i + j) % 2 == 0 { mat4_minor(m, j, i) } else { -mat4_minor(m, j, i) }
}

/// The affine part of `m` applied to a point, as a row vector: component `c`
/// (3 is the homogeneous weight).
pub open spec fn mat4_apply(m: Mat4x4<i32>, p: Vector3D<i32>, c: int) -> int {
    m.inner[0][c] as int * p.x as int + m.inner[1][c] as int * p.y as int + m.inner[2][c] as int * p.z as int
        + m.inner[3][c] as int
}

/// `a - b`, component-wise.
pub open spec fn vsub3(a: Vector3D<i32>, b: Vector3D<i32>) -> Vector3D<i32> {
    Vector3D { x: (a.x - b.x) as i32, y: (a.y - b.y) as i32, z: (a.z - b.z) as i32 }
}

/// Whether `a - b` fits, component-wise.
pub open spec fn vsub3_fits(a: Vector3D<i32>, b: Vector3D<i32>) -> bool {
    i32::MIN <= a.x - b.x <= i32::MAX && i32::MIN <= a.y - b.y <= i32::MAX && i32::MIN <= a.z - b.z <= i32::MAX
}

/// `v * k`, component-wise.
pub open spec fn vscale3(v: Vector3D<i32>, k: int) -> Vector3D<i32> {
    Vector3D { x: (v.x * k) as i32, y: (v.y * k) as i32, z: (v.z * k) as i32 }
}

/// The cross product of `a` and `b`.
pub open spec fn vcross3(a: Vector3D<i32>, b: Vector3D<i32>) -> Vector3D<i32> {
    Vector3D {
        x: (a.y * b.z - a.z * b.y) as i32,
        y: (-(a.x * b.z - a.z * b.x)) as i32,
        z: (a.x * b.y - a.y * b.x) as i32,
    }
}

/// The viewing direction from `pos` to `target`, as an integer unit vector.
pub open spec fn look_forward(pos: Vector3D<i32>, target: Vector3D<i32>) -> Vector3D<i32> {
    vector3d_unit(vsub3(target, pos))
}

/// `up` with its component along the viewing direction removed, as an integer unit vector.
pub open spec fn look_up(pos: Vector3D<i32>, target: Vector3D<i32>, up: Vector3D<i32>) -> Vector3D<i32> {
    let f = look_forward(pos, target);
    vector3d_unit(vsub3(up, vscale3(f, vector3d_dot(up, f))))
}

/// Whether every step of `point_at` stays within `i32` and both directions are nonzero.
pub open spec fn point_at_fits(pos: Vector3D<i32>, target: Vector3D<i32>, up: Vector3D<i32>) -> bool {
    let d = vsub3(target, pos);
    let f = look_forward(pos, target);
    let k = vector3d_dot(up, f);
    let a = vscale3(f, k);
    let e = vsub3(up, a);
    let n = look_up(pos, target, up);
    &&& vsub3_fits(target, pos)
    &&& 0 < vector3d_sq(d) <= i32::MAX
    &&& i32::MIN <= k <= i32::MAX
    &&& i32::MIN <= f.x * k <= i32::MAX && i32::MIN <= f.y * k <= i32::MAX && i32::MIN <= f.z * k <= i32::MAX
    &&& vsub3_fits(up, a)
    &&& 0 < vector3d_sq(e) <= i32::MAX
    &&& i32::MIN <= n.y * f.z - n.z * f.y <= i32::MAX
    &&& i32::MIN <= -(n.x * f.z - n.z * f.x) <= i32::MAX
    &&& i32::MIN <= n.x * f.y - n.y * f.x <= i32::MAX
}

impl Mat4x4<i32> {
    /// The zero matrix.
    pub fn default() -> (m: Self)
        ensures
            m == (Mat4x4 { inner: [[0i32, 0i32, 0i32, 0i32], [0i32, 0i32, 0i32, 0i32], [0i32, 0i32, 0i32, 0i32], [0i32, 0i32, 0i32, 0i32]] }),
    {
        (Mat4x4 { inner: [[0, 0, 0, 0], [0, 0, 0, 0], [0, 0, 0, 0], [0, 0, 0, 0]] })
    }

    /// The identity matrix.
    pub fn identity() -> (m: Self)
        ensures
            m == (Mat4x4 { inner: [[1i32, 0i32, 0i32, 0i32], [0i32, 1i32, 0i32, 0i32], [0i32, 0i32, 1i32, 0i32], [0i32, 0i32, 0i32, 1i32]] }),
    {
        (Mat4x4 { inner: [[1, 0, 0, 0], [0, 1, 0, 0], [0, 0, 1, 0], [0, 0, 0, 1]] })
    }

    /// The translation by (vx, vy, vz), in the last row.
    pub fn translate(vx: i32, vy: i32, vz: i32) -> (m: Self)
        ensures
            m == (Mat4x4 { inner: [[1i32, 0, 0, 0], [0, 1, 0, 0], [0, 0, 1, 0], [vx, vy, vz, 1]] }),
    {
        Mat4x4 { inner: [[1, 0, 0, 0], [0, 1, 0, 0], [0, 0, 1, 0], [vx, vy, vz, 1]] }
    }

    /// The scaling by (cx, cy, cz).
    pub fn scale(cx: i32, cy: i32, cz: i32) -> (m: Self)
        ensures
            m == (Mat4x4 { inner: [[cx, 0i32, 0, 0], [0, cy, 0, 0], [0, 0, cz, 0], [0, 0, 0, 1]] }),
    {
        Mat4x4 { inner: [[cx, 0, 0, 0], [0, cy, 0, 0], [0, 0, cz, 0], [0, 0, 0, 1]] }
    }

    /// The determinant, by expansion along the first row.
    pub fn det(&self) -> (r: i32)
        requires
            mat4_det_fits(*self),
        ensures
            r as int == mat4_det(*self),
    {
        let m = self.inner;
        let d0 = det3_wide(m[1][1], m[1][2], m[1][3], m[2][1], m[2][2], m[2][3], m[3][1], m[3][2], m[3][3]);
        let t0 = mul_huge(m[0][0], d0);
        let d1 = det3_wide(m[1][0], m[1][2], m[1][3], m[2][0], m[2][2], m[2][3], m[3][0], m[3][2], m[3][3]);
        let t1 = mul_huge(m[0][1], d1);
        let d2 = det3_wide(m[1][0], m[1][1], m[1][3], m[2][0], m[2][1], m[2][3], m[3][0], m[3][1], m[3][3]);
        let t2 = mul_huge(m[0][2], d2);
        let d3 = det3_wide(m[1][0], m[1][1], m[1][2], m[2][0], m[2][1], m[2][2], m[3][0], m[3][1], m[3][2]);
        let t3 = mul_huge(m[0][3], d3);
        let s = t0 - t1;
        let s = s + t2;
        let s = s - t3;
        s as i32
    }

    /// Applies the matrix to a point (a row vector with weight 1) and, when
    /// the resulting weight is not zero, divides by it, rounding toward zero.
    pub fn vector_multiply(&self, point: Vector3D<i32>) -> (r: Vector3D<i32>)
        requires
            forall|c: int| 0 <= c < 4 ==> i32::MIN <= #[trigger] mat4_apply(*self, point, c) <= i32::MAX,
            mat4_apply(*self, point, 3) == -1 ==> mat4_apply(*self, point, 0) != i32::MIN
                && mat4_apply(*self, point, 1) != i32::MIN && mat4_apply(*self, point, 2) != i32::MIN,
        ensures
            mat4_apply(*self, point, 3) != 0 ==> r.x as int == trunc_div(mat4_apply(*self, point, 0), mat4_apply(*self, point, 3))
                && r.y as int == trunc_div(mat4_apply(*self, point, 1), mat4_apply(*self, point, 3))
                && r.z as int == trunc_div(mat4_apply(*self, point, 2), mat4_apply(*self, point, 3)),
            mat4_apply(*self, point, 3) == 0 ==> r.x as int == mat4_apply(*self, point, 0)
                && r.y as int == mat4_apply(*self, point, 1) && r.z as int == mat4_apply(*self, point, 2),
    {
        let m = self.inner;
        let v0: i128 = mul_wide(m[0][0], point.x) + mul_wide(m[1][0], point.y) + mul_wide(m[2][0], point.z) + m[3][0] as i128;
        let v1: i128 = mul_wide(m[0][1], point.x) + mul_wide(m[1][1], point.y) + mul_wide(m[2][1], point.z) + m[3][1] as i128;
        let v2: i128 = mul_wide(m[0][2], point.x) + mul_wide(m[1][2], point.y) + mul_wide(m[2][2], point.z) + m[3][2] as i128;
        let v3: i128 = mul_wide(m[0][3], point.x) + mul_wide(m[1][3], point.y) + mul_wide(m[2][3], point.z) + m[3][3] as i128;
        proof {
            assert(v0 as int == mat4_apply(*self, point, 0));
            assert(v1 as int == mat4_apply(*self, point, 1));
            assert(v2 as int == mat4_apply(*self, point, 2));
            assert(v3 as int == mat4_apply(*self, point, 3));
        }
        let x = v0 as i32;
        let y = v1 as i32;
        let z = v2 as i32;
        let w = v3 as i32;
        if w != 0 {
            Vector3D { x: div_toward_zero(x, w), y: div_toward_zero(y, w), z: div_toward_zero(z, w) }
        } else {
            Vector3D { x, y, z }
        }
    }

    /// The projection matrix for integer parameters: `aspect * fov` and
    /// `fov` on the diagonal, depth scaled by `far / (far - near)` and
    /// offset by `-far * near / (far - near)`, weight taken from depth.
    pub fn projected(aspect: i32, fov: i32, far: i32, near: i32) -> (m: Self)
        requires
            far != near,
            i32::MIN <= aspect as int * fov as int <= i32::MAX,
            i32::MIN <= far as int - near as int <= i32::MAX,
            i32::MIN <= -far as int * near as int <= i32::MAX,
            far != i32::MIN,
            far as int - near as int == -1 ==> -far as int * near as int != i32::MIN,
        ensures
            m.inner[0][0] as int == aspect as int * fov as int,
            m.inner[1][1] == fov,
            m.inner[2][2] as int == trunc_div(far as int, far as int - near as int),
            m.inner[3][2] as int == trunc_div(-far as int * near as int, far as int - near as int),
            m.inner[2][3] == 1,
            m.inner[3][3] == 0,
            m.inner[0][1] == 0 && m.inner[0][2] == 0 && m.inner[0][3] == 0,
            m.inner[1][0] == 0 && m.inner[1][2] == 0 && m.inner[1][3] == 0,
            m.inner[2][0] == 0 && m.inner[2][1] == 0,
            m.inner[3][0] == 0 && m.inner[3][1] == 0,
    {
        let af = mul_wide(aspect, fov) as i32;
        let depth = far - near;
        let fn_ = mul_wide(-far, near) as i32;
        Mat4x4 { inner: [[af, 0, 0, 0], [0, fov, 0, 0], [0, 0, div_toward_zero(far, depth), 1], [0, 0, div_toward_zero(fn_, depth), 0]] }
    }

    /// The inverse for integer entries: the adjugate divided by the
    /// determinant, each entry rounded toward zero.
    pub fn inverse(&self) -> (r: Self)
        requires
            mat4_det_fits(*self),
            mat4_det(*self) != 0,
            forall|i: int, j: int| 0 <= i < 4 && 0 <= j < 4 ==> i32::MIN <= #[trigger] mat4_adj(*self, i, j) <= i32::MAX,
            mat4_det(*self) == -1 ==> forall|i: int, j: int| 0 <= i < 4 && 0 <= j < 4 ==> #[trigger] mat4_adj(*self, i, j) != i32::MIN,
        ensures
            r.inner[0][0] as int == trunc_div(mat4_adj(*self, 0, 0), mat4_det(*self)),
            r.inner[0][1] as int == trunc_div(mat4_adj(*self, 0, 1), mat4_det(*self)),
            r.inner[0][2] as int == trunc_div(mat4_adj(*self, 0, 2), mat4_det(*self)),
            r.inner[0][3] as int == trunc_div(mat4_adj(*self, 0, 3), mat4_det(*self)),
            r.inner[1][0] as int == trunc_div(mat4_adj(*self, 1, 0), mat4_det(*self)),
            r.inner[1][1] as int == trunc_div(mat4_adj(*self, 1, 1), mat4_det(*self)),
            r.inner[1][2] as int == trunc_div(mat4_adj(*self, 1, 2), mat4_det(*self)),
            r.inner[1][3] as int == trunc_div(mat4_adj(*self, 1, 3), mat4_det(*self)),
            r.inner[2][0] as int == trunc_div(mat4_adj(*self, 2, 0), mat4_det(*self)),
            r.inner[2][1] as int == trunc_div(mat4_adj(*self, 2, 1), mat4_det(*self)),
            r.inner[2][2] as int == trunc_div(mat4_adj(*self, 2, 2), mat4_det(*self)),
            r.inner[2][3] as int == trunc_div(mat4_adj(*self, 2, 3), mat4_det(*self)),
            r.inner[3][0] as int == trunc_div(mat4_adj(*self, 3, 0), mat4_det(*self)),
            r.inner[3][1] as int == trunc_div(mat4_adj(*self, 3, 1), mat4_det(*self)),
            r.inner[3][2] as int == trunc_div(mat4_adj(*self, 3, 2), mat4_det(*self)),
            r.inner[3][3] as int == trunc_div(mat4_adj(*self, 3, 3), mat4_det(*self)),
    {
        let det = self.det();
        let m = self.inner;
        let a00: i128 = det3_wide(m[1][1], m[1][2], m[1][3], m[2][1], m[2][2], m[2][3], m[3][1], m[3][2], m[3][3]);
        let a01: i128 = -det3_wide(m[0][1], m[0][2], m[0][3], m[2][1], m[2][2], m[2][3], m[3][1], m[3][2], m[3][3]);
        let a02: i128 = det3_wide(m[0][1], m[0][2], m[0][3], m[1][1], m[1][2], m[1][3], m[3][1], m[3][2], m[3][3]);
        let a03: i128 = -det3_wide(m[0][1], m[0][2], m[0][3], m[1][1], m[1][2], m[1][3], m[2][1], m[2][2], m[2][3]);
        let a10: i128 = -det3_wide(m[1][0], m[1][2], m[1][3], m[2][0], m[2][2], m[2][3], m[3][0], m[3][2], m[3][3]);
        let a11: i128 = det3_wide(m[0][0], m[0][2], m[0][3], m[2][0], m[2][2], m[2][3], m[3][0], m[3][2], m[3][3]);
        let a12: i128 = -det3_wide(m[0][0], m[0][2], m[0][3], m[1][0], m[1][2], m[1][3], m[3][0], m[3][2], m[3][3]);
        let a13: i128 = det3_wide(m[0][0], m[0][2], m[0][3], m[1][0], m[1][2], m[1][3], m[2][0], m[2][2], m[2][3]);
        let a20: i128 = det3_wide(m[1][0], m[1][1], m[1][3], m[2][0], m[2][1], m[2][3], m[3][0], m[3][1], m[3][3]);
        let a21: i128 = -det3_wide(m[0][0], m[0][1], m[0][3], m[2][0], m[2][1], m[2][3], m[3][0], m[3][1], m[3][3]);
        let a22: i128 = det3_wide(m[0][0], m[0][1], m[0][3], m[1][0], m[1][1], m[1][3], m[3][0], m[3][1], m[3][3]);
        let a23: i128 = -det3_wide(m[0][0], m[0][1], m[0][3], m[1][0], m[1][1], m[1][3], m[2][0], m[2][1], m[2][3]);
        let a30: i128 = -det3_wide(m[1][0], m[1][1], m[1][2], m[2][0], m[2][1], m[2][2], m[3][0], m[3][1], m[3][2]);
        let a31: i128 = det3_wide(m[0][0], m[0][1], m[0][2], m[2][0], m[2][1], m[2][2], m[3][0], m[3][1], m[3][2]);
        let a32: i128 = -det3_wide(m[0][0], m[0][1], m[0][2], m[1][0], m[1][1], m[1][2], m[3][0], m[3][1], m[3][2]);
        let a33: i128 = det3_wide(m[0][0], m[0][1], m[0][2], m[1][0], m[1][1], m[1][2], m[2][0], m[2][1], m[2][2]);
        proof {
            assert(a00 as int == mat4_adj(*self, 0, 0));
            assert(a01 as int == mat4_adj(*self, 0, 1));
            assert(a02 as int == mat4_adj(*self, 0, 2));
            assert(a03 as int == mat4_adj(*self, 0, 3));
            assert(a10 as int == mat4_adj(*self, 1, 0));
            assert(a11 as int == mat4_adj(*self, 1, 1));
            assert(a12 as int == mat4_adj(*self, 1, 2));
            assert(a13 as int == mat4_adj(*self, 1, 3));
            assert(a20 as int == mat4_adj(*self, 2, 0));
            assert(a21 as int == mat4_adj(*self, 2, 1));
            assert(a22 as int == mat4_adj(*self, 2, 2));
            assert(a23 as int == mat4_adj(*self, 2, 3));
            assert(a30 as int == mat4_adj(*self, 3, 0));
            assert(a31 as int == mat4_adj(*self, 3, 1));
            assert(a32 as int == mat4_adj(*self, 3, 2));
            assert(a33 as int == mat4_adj(*self, 3, 3));
        }
        (Mat4x4 { inner: [[div_toward_zero(a00 as i32, det), div_toward_zero(a01 as i32, det), div_toward_zero(a02 as i32, det), div_toward_zero(a03 as i32, det)], [div_toward_zero(a10 as i32, det), div_toward_zero(a11 as i32, det), div_toward_zero(a12 as i32, det), div_toward_zero(a13 as i32, det)], [div_toward_zero(a20 as i32, det), div_toward_zero(a21 as i32, det), div_toward_zero(a22 as i32, det), div_toward_zero(a23 as i32, det)], [div_toward_zero(a30 as i32, det), div_toward_zero(a31 as i32, det), div_toward_zero(a32 as i32, det), div_toward_zero(a33 as i32, det)]] })
    }

    /// The camera matrix at `pos` looking at `target`: rows are the right,
    /// up and forward directions (integer unit vectors) and the position.
    pub fn point_at(pos: Vector3D<i32>, target: Vector3D<i32>, up: Vector3D<i32>) -> (m: Self)
        requires
            point_at_fits(pos, target, up),
        ensures
            ({
                let f = look_forward(pos, target);
                let n = look_up(pos, target, up);
                let r = vcross3(n, f);
                m == (Mat4x4 { inner: [[r.x, r.y, r.z, 0], [n.x, n.y, n.z, 0], [f.x, f.y, f.z, 0], [pos.x, pos.y, pos.z, 1]] })
            }),
    {
        let forward = (target - pos).unit_vector();
        let a = forward * Vector3D::dot(up, forward);
        let new_up = (up - a).unit_vector();
        let right = Vector3D::cross(new_up, forward);
        Mat4x4 {
            inner: [
                [right.x, right.y, right.z, 0],
                [new_up.x, new_up.y, new_up.z, 0],
                [forward.x, forward.y, forward.z, 0],
                [pos.x, pos.y, pos.z, 1],
            ],
        }
    }

    /// The same matrix; the entries already are `i32`.
    pub fn to_i32(&self) -> (r: Self)
        ensures
            r == *self,
    {
        *self
    }
}

} // verus!
