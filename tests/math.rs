use graphics::math::matrix::{Mat3x3, Mat4x4};
use graphics::math::vector::{isqrt, Vector3D};
use graphics::math::{div_toward_zero, IVec2D};

#[test]
fn vec2d_crossed() {
    let lhs = IVec2D::new(1, 2);
    let rhs = IVec2D::new(3, 4);
    assert_eq!(IVec2D::cross(lhs, rhs), -2);
}

#[test]
fn vec2d_dotted() {
    let lhs = IVec2D::new(1, 2);
    let rhs = IVec2D::new(3, 4);
    assert_eq!(IVec2D::dot(lhs, rhs), 11);
}

#[test]
fn vec2d_unit() {
    let lhs = IVec2D::new(3, 4);
    assert_eq!(lhs.unit_vector(), IVec2D::new(3 / 5, 4 / 5));
}

#[test]
fn vec2d_neg() {
    let lhs = IVec2D::new(1, 4);
    assert_eq!(-lhs, lhs * -1);
    assert_eq!(-lhs, IVec2D::new(-1, -4));
}

#[test]
fn matrix_3x3_addition() {
    let a: Mat3x3<i32> = [[10, 20, 10], [4, 5, 6], [2, 3, 5]].into();
    let b: Mat3x3<i32> = [[3, 2, 4], [3, 3, 9], [4, 4, 2]].into();
    let c: Mat3x3<i32> = [[13, 22, 14], [7, 8, 15], [6, 7, 7]].into();

    assert_eq!(a + b, c);
}

#[test]
fn matrix_3x3_subtraction() {
    let a: Mat3x3<i32> = [[10, 20, 10], [4, 5, 6], [2, 3, 5]].into();
    let b: Mat3x3<i32> = [[3, 2, 4], [3, 3, 9], [4, 4, 2]].into();
    let c: Mat3x3<i32> = [[13, 22, 14], [7, 8, 15], [6, 7, 7]].into();

    assert_eq!(c - a, b);
}

#[test]
fn matrix_3x3_multiplication() {
    let a: Mat3x3<i32> = [[10, 20, 10], [4, 5, 6], [2, 3, 5]].into();
    let b: Mat3x3<i32> = [[3, 2, 4], [3, 3, 9], [4, 4, 2]].into();
    let c: Mat3x3<i32> = [[130, 120, 240], [51, 47, 73], [35, 33, 45]].into();
    let d: Mat3x3<i32> = [[6, 4, 8], [6, 6, 18], [8, 8, 4]].into();

    assert_eq!(a * b, c);
    assert_eq!(b * 2, d);
}

#[test]
fn matrix_3x3_division() {
    let a: Mat3x3<i32> = [[3, 2, 4], [3, 3, 9], [4, 4, 2]].into();
    let b: Mat3x3<i32> = [[6, 4, 8], [6, 6, 18], [8, 8, 4]].into();

    assert_eq!(b / 2, a);
}

#[test]
fn matrix_4x4_determinant() {
    let a: Mat4x4<i32> = [[1, 3, 5, 9], [1, 3, 1, 7], [4, 3, 9, 7], [5, 2, 0, 9]].into();
    assert_eq!(a.det(), -376);
}

#[test]
fn matrix_4x4_multiplication() {
    let a: Mat4x4<i32> = [[5, 7, 9, 10], [2, 3, 3, 8], [8, 10, 2, 3], [3, 3, 4, 8]].into();
    let b: Mat4x4<i32> = [
        [3, 10, 12, 18],
        [12, 1, 4, 9],
        [9, 10, 12, 2],
        [3, 12, 4, 10],
    ]
    .into();
    let c: Mat4x4<i32> = [
        [210, 267, 236, 271],
        [93, 149, 104, 149],
        [171, 146, 172, 268],
        [105, 169, 128, 169],
    ]
    .into();

    let d = [
        [10, 14, 18, 20],
        [4, 6, 6, 16],
        [16, 20, 4, 6],
        [6, 6, 8, 16],
    ]
    .into();
    assert_eq!(a * b, c);
    assert_eq!(a * 2, d);
}

#[test]
fn matrix_4x4_division() {
    let a: Mat4x4<i32> = [[5, 7, 9, 10], [2, 3, 3, 8], [8, 10, 2, 3], [3, 3, 4, 8]].into();

    let b: Mat4x4<i32> = [
        [10, 14, 18, 20],
        [4, 6, 6, 16],
        [16, 20, 4, 6],
        [6, 6, 8, 16],
    ]
    .into();
    assert_eq!(b / 2, a);
}

#[test]
fn matrix_4x4_addition() {
    let a: Mat4x4<i32> = [[5, 7, 9, 10], [2, 3, 3, 8], [8, 10, 2, 3], [3, 3, 4, 8]].into();

    let b: Mat4x4<i32> = [
        [10, 14, 18, 20],
        [4, 6, 6, 16],
        [16, 20, 4, 6],
        [6, 6, 8, 16],
    ]
    .into();
    assert_eq!(a + a, b);
}

#[test]
fn matrix_4x4_subtraction() {
    let a: Mat4x4<i32> = [[5, 7, 9, 10], [2, 3, 3, 8], [8, 10, 2, 3], [3, 3, 4, 8]].into();

    let b: Mat4x4<i32> = [
        [10, 14, 18, 20],
        [4, 6, 6, 16],
        [16, 20, 4, 6],
        [6, 6, 8, 16],
    ]
    .into();
    assert_eq!(b - a, a);
}

#[test]
fn matrix_3x3_determinant_and_integer_inverse() {
    let a: Mat3x3<i32> = [[10, 20, 10], [4, 5, 6], [2, 3, 5]].into();
    assert_eq!(a.det(), -70);
    // A unimodular matrix has an exact integer inverse.
    let u: Mat3x3<i32> = [[2, 3, 1], [1, 2, 1], [1, 1, 1]].into();
    assert_eq!(u.det(), 1);
    let inv = u.inverse();
    assert_eq!(u * inv, Mat3x3::<i32>::identity());
    // Entries of the adjugate are divided by the determinant toward zero.
    let b = a.inverse();
    assert_eq!(b, [[0, 1, -1], [0, 0, 0], [0, 0, 0]].into());
}

#[test]
fn matrix_4x4_integer_inverse() {
    let u: Mat4x4<i32> = [[1, 2, 0, 0], [0, 1, 0, 0], [0, 0, 1, 3], [0, 0, 0, 1]].into();
    assert_eq!(u.det(), 1);
    let inv = u.inverse();
    assert_eq!(inv, [[1, -2, 0, 0], [0, 1, 0, 0], [0, 0, 1, -3], [0, 0, 0, 1]].into());
    assert_eq!(u * inv, Mat4x4::<i32>::identity());
}

#[test]
fn matrix_transforms() {
    let t = Mat3x3::<i32>::translate(5, -2);
    let p = t.transform_point(Vector3D::new(1, 1, 1));
    assert_eq!(p, Vector3D::new(6, -1, 1));
    let s = Mat3x3::<i32>::scale(3, 4);
    assert_eq!(s.transform_point(Vector3D::new(2, 5, 1)), Vector3D::new(6, 20, 1));
    let t4 = Mat4x4::<i32>::translate(1, 2, 3);
    assert_eq!(t4.vector_multiply(Vector3D::new(10, 20, 30)), Vector3D::new(11, 22, 33));
    let s4 = Mat4x4::<i32>::scale(2, 3, 4);
    assert_eq!(s4.vector_multiply(Vector3D::new(1, 1, 1)), Vector3D::new(2, 3, 4));
    assert_eq!(Mat4x4::<i32>::default().det(), 0);
}

#[test]
fn projection_matrix() {
    let m = Mat4x4::<i32>::projected(2, 3, 10, 5);
    assert_eq!(m.inner[0][0], 6);
    assert_eq!(m.inner[1][1], 3);
    assert_eq!(m.inner[2][2], 2);
    assert_eq!(m.inner[3][2], -10);
    assert_eq!(m.inner[2][3], 1);
    assert_eq!(m.inner[3][3], 0);
}

#[test]
fn vector_helpers() {
    let v = Vector3D::new(1, 2, 3);
    let w = Vector3D::new(4, 5, 6);
    assert_eq!(Vector3D::dot(v, w), 32);
    assert_eq!(Vector3D::cross(v, w), Vector3D::new(-3, 6, -3));
    assert_eq!(v.squared_length(), 14);
    assert_eq!(v.length(), 3);
    assert_eq!(v + w, Vector3D::new(5, 7, 9));
    assert_eq!(w - v, Vector3D::new(3, 3, 3));
    assert_eq!(w / 2, Vector3D::new(2, 2, 3));
    assert_eq!(IVec2D::new(3, 4).length(), 5);
    assert_eq!(IVec2D::new(2, 5).perpendicular(), IVec2D::new(-5, 2));
    let mut c = IVec2D::new(10, -10);
    c.clamp_between(0, 0, 5, 5);
    assert_eq!(c, IVec2D::new(5, 0));
    let mut u = IVec2D::new(0, 7);
    u.make_unit();
    assert_eq!(u, IVec2D::new(0, 1));
}

#[test]
fn integer_helpers() {
    assert_eq!(isqrt(0), 0);
    assert_eq!(isqrt(15), 3);
    assert_eq!(isqrt(16), 4);
    assert_eq!(isqrt(i32::MAX), 46340);
    assert_eq!(div_toward_zero(-7, 2), -3);
    assert_eq!(div_toward_zero(7, -2), -3);
    assert_eq!(div_toward_zero(-7, -2), 3);
    assert_eq!(graphics::math::min(3, -1), -1);
    assert_eq!(graphics::math::max(3, -1), 3);
}

#[test]
fn vector_conversions() {
    let v: IVec2D = (3, -4).into();
    assert_eq!(v, IVec2D::new(3, -4));
    let w: Vector3D<i32> = (1, 2, 3).into();
    let flat: IVec2D = w.into();
    assert_eq!(flat, IVec2D::new(1, 2));
}

#[test]
fn camera_matrix() {
    let m = Mat4x4::<i32>::point_at(Vector3D::new(0, 0, 0), Vector3D::new(0, 0, 5), Vector3D::new(0, 1, 0));
    assert_eq!(m, Mat4x4::<i32>::identity());
    let m = Mat4x4::<i32>::point_at(Vector3D::new(1, 2, 3), Vector3D::new(1, 2, -7), Vector3D::new(0, 3, 0));
    assert_eq!(m, [[-1, 0, 0, 0], [0, 1, 0, 0], [0, 0, -1, 0], [1, 2, 3, 1]].into());
}
