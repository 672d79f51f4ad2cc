use rusterizer::primitives::{Float3, Quaternion, QuaternionParts, VectorOps};
use rusterizer::scalar::Scalar;
use std::f64::consts::FRAC_PI_2;

fn fx(v: f64) -> Scalar {
    Scalar::from_raw((v * 4294967296.0).round() as i64)
}

fn fl(s: Scalar) -> f64 {
    s.raw() as f64 / 4294967296.0
}

fn f3(x: f64, y: f64, z: f64) -> Float3 {
    Float3::new(fx(x), fx(y), fx(z))
}

fn x_angle(angle: f64) -> Quaternion {
    Quaternion::from_x_angle(fx((angle * 0.5).sin()), fx((angle * 0.5).cos()))
}

fn y_angle(angle: f64) -> Quaternion {
    Quaternion::from_y_angle(fx((angle * 0.5).sin()), fx((angle * 0.5).cos()))
}

fn z_angle(angle: f64) -> Quaternion {
    Quaternion::from_z_angle(fx((angle * 0.5).sin()), fx((angle * 0.5).cos()))
}

fn slerp(a: Quaternion, b: Quaternion, t: f64) -> Quaternion {
    let arc = a.slerp_arc(b);
    let theta = fl(arc.cos_theta).min(1.0).acos();
    let (w1, w2) = if arc.linear {
        (0.0, 0.0)
    } else {
        (((1.0 - t) * theta).sin() / theta.sin(), (t * theta).sin() / theta.sin())
    };
    a.slerp(b, fx(t), fx(w1), fx(w2))
}

#[test]
fn test_identity() {
    let q = Quaternion::identity();
    let v = f3(1.0, 2.0, 3.0);
    let rotated = q * v;
    assert!(VectorOps::approx_eq(rotated, v, fx(1e-5)));
}

#[test]
fn test_inverse() {
    let q = y_angle(FRAC_PI_2);
    let q_inv = q.inverse();
    let identity = (q * q_inv).normalized();
    assert!(
        VectorOps::approx_eq(identity.parts().to_float3(), Float3::zero(), fx(1e-5))
            || (fl(identity.parts().w) - 1.0).abs() < 1e-5
    );
}

#[test]
fn test_associativity() {
    let qx = x_angle(FRAC_PI_2);
    let qy = y_angle(FRAC_PI_2);
    let v = f3(0.0, 1.0, 0.0);

    let r1 = (qy * qx) * v;
    let r2 = qy * (qx * v);
    assert!(VectorOps::approx_eq(r1, r2, fx(1e-5)));
}

#[test]
fn test_composition() {
    let p = f3(2.0, 0.0, 0.0);
    let qz = z_angle(FRAC_PI_2);
    let rotated = qz * p;
    assert!(VectorOps::approx_eq(rotated, f3(0.0, 2.0, 0.0), fx(1e-5)));

    let qx = x_angle(FRAC_PI_2);
    let rotated = qx * rotated;
    assert!(VectorOps::approx_eq(rotated, f3(0.0, 0.0, 2.0), fx(1e-5)));

    let qy = y_angle(-FRAC_PI_2);
    let rotated = qy * rotated;
    assert!(VectorOps::approx_eq(rotated, f3(-2.0, 0.0, 0.0), fx(1e-5)));
}

#[test]
fn test_normalization() {
    let q = QuaternionParts { w: fx(2.0), i: fx(0.0), j: fx(0.0), k: fx(0.0) };
    let normalized = q.normalized();
    assert!((fl(normalized.length()) - 1.0).abs() < 1e-6);
    assert!((fl(Quaternion::from_parts(q).length()) - 1.0).abs() < 1e-6);
}

#[test]
fn test_from_and_to_float3() {
    let v = f3(1.0, 2.0, 3.0);
    let q = QuaternionParts::from_float3(v);
    assert_eq!(q.w, fx(0.0));
    let v_back = q.to_float3();
    assert_eq!(v, v_back);
}

#[test]
fn test_slerp_endpoints() {
    let q1 = z_angle(0.0);
    let q2 = z_angle(FRAC_PI_2);

    let p = f3(1.0, 0.0, 0.0);

    let r0 = slerp(q1, q2, 0.0) * p;
    let r1 = slerp(q1, q2, 1.0) * p;

    assert!(VectorOps::approx_eq(r0, q1 * p, fx(1e-5)));
    assert!(VectorOps::approx_eq(r1, q2 * p, fx(1e-5)));
}

#[test]
fn test_slerp_halfway() {
    let q1 = z_angle(0.0);
    let q2 = z_angle(FRAC_PI_2);

    let p = f3(1.0, 0.0, 0.0);
    let rotated = slerp(q1, q2, 0.5) * p;

    let sqrt2_over_2 = (2.0f64).sqrt() / 2.0;
    let expected = f3(sqrt2_over_2, sqrt2_over_2, 0.0);

    assert!(VectorOps::approx_eq(rotated, expected, fx(1e-5)));
}

#[test]
fn test_slerp_unit_length() {
    let q1 = z_angle(0.0);
    let q2 = z_angle(FRAC_PI_2);

    let interp = slerp(q1, q2, 0.3);
    assert!((fl(interp.length()) - 1.0).abs() < 1e-5);
}

#[test]
fn slerp_stays_unit_for_many_t() {
    let q1 = x_angle(0.3);
    let q2 = y_angle(2.1);
    for step in 0..=20 {
        let t = step as f64 / 20.0;
        let q = slerp(q1, q2, t);
        assert!((fl(q.length()) - 1.0).abs() < 1e-5);
    }
}

#[test]
fn slerp_takes_the_shorter_arc() {
    let q1 = z_angle(0.0);
    let q2 = z_angle(3.0 * FRAC_PI_2);
    let arc = q1.slerp_arc(q2);
    assert!(arc.cos_theta.raw() >= 0);
    assert_eq!(arc.target.parts(), q2.parts().neg());
    assert!(!arc.linear);
}

#[test]
fn slerp_of_nearly_parallel_rotations_is_linear() {
    let q1 = z_angle(0.0);
    let q2 = z_angle(0.01);
    let arc = q1.slerp_arc(q2);
    assert!(arc.linear);
    let half = q1.slerp(q2, fx(0.5), fx(123.0), fx(-7.0));
    assert_eq!(half.parts(), q1.lerp(q2, fx(0.5)).parts());
    let expected = z_angle(0.005).rotate(f3(1.0, 0.0, 0.0));
    assert!(VectorOps::approx_eq(half.rotate(f3(1.0, 0.0, 0.0)), expected, fx(1e-5)));
}

#[test]
fn product_with_inverse_has_no_imaginary_part() {
    let q = Quaternion::from_axis_angle(f3(1.0, 2.0, -0.5), fx(0.6), fx(0.8));
    let p = q.parts().mul(q.parts().conjugate());
    assert_eq!(p.i.raw(), 0);
    assert_eq!(p.j.raw(), 0);
    assert_eq!(p.k.raw(), 0);
    assert!((fl(p.w) - 1.0).abs() < 1e-8);
}

#[test]
fn zero_axis_gives_a_rotation_about_nothing() {
    let q = Quaternion::from_axis_angle(Float3::zero(), fx(1.0), fx(0.0));
    assert_eq!(q.parts(), QuaternionParts::identity());
    let q = Quaternion::from_axis_angle(Float3::zero(), fx(0.6), fx(0.8));
    assert_eq!(q.parts(), QuaternionParts::identity());
}

#[test]
fn hamilton_product_of_units() {
    let i = QuaternionParts { w: fx(0.0), i: fx(1.0), j: fx(0.0), k: fx(0.0) };
    let j = QuaternionParts { w: fx(0.0), i: fx(0.0), j: fx(1.0), k: fx(0.0) };
    let k = QuaternionParts { w: fx(0.0), i: fx(0.0), j: fx(0.0), k: fx(1.0) };
    assert_eq!(i.mul(j), k);
    assert_eq!(j.mul(i), k.neg());
    assert_eq!(i.mul(i), QuaternionParts::identity().neg());
}
