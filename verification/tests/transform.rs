use rusterizer::primitives::{Float3, Quaternion, Transform, Tri, VectorOps};
use rusterizer::scalar::Scalar;
use std::f64::consts::FRAC_PI_2;

fn fx(v: f64) -> Scalar {
    Scalar::from_raw((v * 4294967296.0).round() as i64)
}

fn f3(x: f64, y: f64, z: f64) -> Float3 {
    Float3::new(fx(x), fx(y), fx(z))
}

fn z_angle(angle: f64) -> Quaternion {
    Quaternion::from_z_angle(fx((angle * 0.5).sin()), fx((angle * 0.5).cos()))
}

#[test]
fn it_works() {
    let _ = Transform::default();
}

#[test]
fn test_scale_translation() {
    let t = Transform {
        position: f3(1.0, -2.0, 0.0),
        scale: f3(1.0, 3.0, 0.5),
        rotation: Quaternion::identity(),
    };

    let p_local = f3(1.0, 1.0, 1.0);
    let p_world = t.apply(p_local);

    assert!(VectorOps::approx_eq(p_world, f3(2.0, 1.0, 0.5), fx(1e-5)));
}

#[test]
fn test_inverse_transform() {
    let t = Transform {
        position: f3(1.0, 2.0, 3.0),
        scale: f3(2.0, 2.0, 2.0),
        rotation: z_angle(FRAC_PI_2),
    };

    let p = f3(1.0, 0.0, 0.0);
    let transformed = t.apply(p);
    let recovered = t.inverse().unwrap().apply(transformed);

    assert!(VectorOps::approx_eq(p, recovered, fx(1e-5)));
}

#[test]
fn test_compose_transform() {
    let parent = Transform {
        position: f3(0.0, 1.0, 0.0),
        scale: f3(2.0, 2.0, 2.0),
        rotation: z_angle(FRAC_PI_2),
    };

    let local = Transform {
        position: f3(1.0, 0.0, 0.0),
        scale: f3(1.0, 1.0, 1.0),
        rotation: Quaternion::identity(),
    };

    let composed = parent.compose(&local);
    let p = f3(0.0, 0.0, 0.0);

    let expected = f3(0.0, 3.0, 0.0);
    let result = composed.apply(p);

    assert!(VectorOps::approx_eq(result, expected, fx(1e-5)));
}

#[test]
fn identity_transform_changes_nothing() {
    let t = Transform::default();
    let p = f3(5.5, -2.25, 1e-6);
    assert_eq!(t.apply(p), p);
    assert_eq!(t.apply_inv(p), Ok(p));
}

#[test]
fn zero_scale_has_no_inverse() {
    let t = Transform {
        position: f3(1.0, 2.0, 3.0),
        scale: f3(2.0, 0.0, 2.0),
        rotation: Quaternion::identity(),
    };
    assert!(t.inverse().is_err());
    assert!(t.apply_inv(f3(1.0, 1.0, 1.0)).is_err());
    let tri = Tri::new(f3(0.0, 0.0, 0.0), f3(1.0, 0.0, 0.0), f3(0.0, 1.0, 0.0));
    assert!(t.apply_tri_inv(&tri).is_err());
}

#[test]
fn apply_inv_undoes_apply_with_uneven_scale() {
    let t = Transform {
        position: f3(1.0, 2.0, 3.0),
        scale: f3(1.0, 3.0, 0.5),
        rotation: z_angle(0.7),
    };
    let p = f3(5.5, 2.0, -1.7);
    let back = t.apply_inv(t.apply(p)).unwrap();
    assert!(VectorOps::approx_eq(p, back, fx(1e-5)));
}

#[test]
fn inverse_round_trip_for_uniform_scales() {
    for (s, angle) in [(0.5, 0.3), (2.0, 1.1), (3.0, -2.0), (1.0, 3.0)] {
        let t = Transform {
            position: f3(-1.0, 0.25, 4.0),
            scale: f3(s, s, s),
            rotation: z_angle(angle),
        };
        let inv = t.inverse().unwrap();
        for p in [f3(1.0, 0.0, 0.0), f3(-3.0, 2.0, 0.5), f3(0.0, 0.0, 0.0)] {
            assert!(VectorOps::approx_eq(inv.apply(t.apply(p)), p, fx(1e-5)));
        }
    }
}

#[test]
fn compose_applies_local_first_for_uniform_parent_scale() {
    let parent = Transform {
        position: f3(0.5, 1.0, -2.0),
        scale: f3(2.0, 2.0, 2.0),
        rotation: z_angle(0.4),
    };
    let local = Transform {
        position: f3(1.0, -1.0, 0.0),
        scale: f3(1.0, 3.0, 0.5),
        rotation: z_angle(-1.2),
    };
    let p = f3(0.3, 0.6, 0.9);
    let composed = parent.compose(&local).apply(p);
    let stepwise = parent.apply(local.apply(p));
    assert!(VectorOps::approx_eq(composed, stepwise, fx(1e-5)));
}

#[test]
fn apply_tri_applies_to_each_corner() {
    let t = Transform {
        position: f3(1.0, 0.0, 0.0),
        scale: f3(2.0, 2.0, 2.0),
        rotation: Quaternion::identity(),
    };
    let tri = Tri::new(f3(0.0, 0.0, 0.0), f3(1.0, 0.0, 0.0), f3(0.0, 1.0, 0.0));
    let out = t.apply_tri(&tri);
    assert_eq!(*out.get(0), f3(1.0, 0.0, 0.0));
    assert_eq!(*out.get(1), f3(3.0, 0.0, 0.0));
    assert_eq!(*out.get(2), f3(1.0, 2.0, 0.0));
    let back = t.apply_tri_inv(&out).unwrap();
    assert_eq!(*back.get(1), f3(1.0, 0.0, 0.0));
}
