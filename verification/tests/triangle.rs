use rusterizer::primitives::{Float2, Float3, Tri, VectorOps};
use rusterizer::scalar::Scalar;

fn fx(v: f64) -> Scalar {
    Scalar::from_raw((v * 4294967296.0).round() as i64)
}

fn fl(s: Scalar) -> f64 {
    s.raw() as f64 / 4294967296.0
}

fn f2(x: f64, y: f64) -> Float2 {
    Float2::new(fx(x), fx(y))
}

fn f3(x: f64, y: f64, z: f64) -> Float3 {
    Float3::new(fx(x), fx(y), fx(z))
}

fn unit<V: VectorOps>(v: V) -> V {
    v.normalized()
}

#[test]
fn corners_keep_their_order() {
    let mut t = Tri::new(1u8, 2u8, 3u8);
    assert_eq!(t.vertices, [1, 2, 3]);
    assert_eq!(*t.get(2), 3);
    t.set(1, 9);
    assert_eq!(t.vertices, [1, 9, 3]);
}

#[test]
fn sums_add_the_three_corners() {
    assert_eq!(Tri::new(fx(1.0), fx(2.0), fx(3.5)).sum(), fx(6.5));
    assert_eq!(Tri::new(f2(1.0, 2.0), f2(3.0, 4.0), f2(5.0, 6.0)).sum(), f2(9.0, 12.0));
    assert_eq!(
        Tri::new(f3(1.0, 0.0, 0.0), f3(0.0, 1.0, 0.0), f3(0.0, 0.0, 1.0)).sum(),
        f3(1.0, 1.0, 1.0)
    );
}

#[test]
fn corner_wise_arithmetic() {
    let a = Tri::new(fx(1.0), fx(2.0), fx(3.0));
    let b = Tri::new(fx(4.0), fx(0.5), fx(-2.0));
    assert_eq!(a.add(&b).vertices, [fx(5.0), fx(2.5), fx(1.0)]);
    assert_eq!(a.sub(&b).vertices, [fx(-3.0), fx(1.5), fx(5.0)]);
    assert_eq!(a.mul(&b).vertices, [fx(4.0), fx(1.0), fx(-6.0)]);
    assert_eq!(a.div(&b).vertices, [fx(0.25), fx(4.0), fx(-1.5)]);
    let uv = Tri::new(f2(1.0, 2.0), f2(3.0, 4.0), f2(5.0, 6.0));
    assert_eq!(uv.scale(&a).vertices, [f2(1.0, 2.0), f2(6.0, 8.0), f2(15.0, 18.0)]);
    let n = Tri::new(f3(1.0, 0.0, 0.0), f3(0.0, 1.0, 0.0), f3(0.0, 0.0, 1.0));
    assert_eq!(n.scale(&a).vertices, [f3(1.0, 0.0, 0.0), f3(0.0, 2.0, 0.0), f3(0.0, 0.0, 3.0)]);
}

#[test]
fn bbox_is_limited_to_the_viewport() {
    let t = Tri::new(f2(10.7, 20.2), f2(30.9, 5.5), f2(15.0, 40.0));
    assert_eq!(t.bbox::<640, 480>(), (10, 5, 30, 40));
    let t = Tri::new(f2(-10.0, -3.0), f2(700.0, 5.5), f2(15.0, 900.0));
    assert_eq!(t.bbox::<640, 480>(), (0, 0, 639, 479));
    let t = Tri::new(f2(-10.0, -3.0), f2(-7.0, -5.5), f2(-15.0, -9.0));
    assert_eq!(t.bbox::<640, 480>(), (0, 0, 0, 0));
    let t = Tri::new(f2(1000.0, 1000.0), f2(2000.0, 1000.0), f2(1000.0, 2000.0));
    assert_eq!(t.bbox::<640, 480>(), (639, 479, 639, 479));
    assert_eq!(t.bbox::<1, 1>(), (0, 0, 0, 0));
}

#[test]
fn signed_area_follows_the_winding() {
    let a = f2(0.0, 0.0);
    let b = f2(0.0, 4.0);
    let c = f2(3.0, 0.0);
    assert_eq!(Float2::signed_area(a, b, c), fx(12.0));
    assert_eq!(Float2::signed_area(a, c, b), fx(-12.0));
    assert_eq!(Float2::signed_area(a, a, a), fx(0.0));
}

#[test]
fn culls_back_faces_and_slivers() {
    let front = Tri::new(f2(0.0, 0.0), f2(0.0, 4.0), f2(3.0, 0.0));
    let back = Tri::new(f2(0.0, 0.0), f2(3.0, 0.0), f2(0.0, 4.0));
    let flat = Tri::new(f2(0.0, 0.0), f2(1.0, 1.0), f2(2.0, 2.0));
    let tiny = Tri::new(f2(0.0, 0.0), f2(0.0, 0.0005), f2(0.0005, 0.0));
    let small = Tri::new(f2(0.0, 0.0), f2(0.0, 0.002), f2(0.002, 0.0));
    assert!(!front.should_cull());
    assert!(back.should_cull());
    assert!(flat.should_cull());
    assert!(tiny.should_cull());
    assert!(!small.should_cull());
}

#[test]
fn weights_at_a_corner_are_one_hot() {
    let t = Tri::new(f2(10.25, 20.5), f2(13.0, 90.125), f2(75.5, 31.0));
    assert!(!t.should_cull());
    let turned = Tri::new(f2(10.25, 20.5), f2(75.5, 31.0), f2(13.0, 90.125));
    assert!(turned.should_cull());
    let small = Tri::new(f2(0.0, 0.0), f2(4.0, 0.0), f2(0.0, 4.0));
    for tri in [t, turned, small] {
        for i in 0..3 {
            let w = tri.to_barycentric(*tri.get(i)).unwrap();
            for j in 0..3 {
                let expected = if i == j { Scalar::one() } else { Scalar::zero() };
                assert_eq!(*w.get(j), expected);
            }
        }
    }
}

#[test]
fn edges_are_inside_whichever_way_the_triangle_is_wound() {
    let one_way = Tri::new(f2(0.0, 0.0), f2(0.0, 4.0), f2(4.0, 0.0));
    let other_way = Tri::new(f2(0.0, 0.0), f2(4.0, 0.0), f2(0.0, 4.0));
    for tri in [one_way, other_way] {
        for p in [f2(2.0, 0.0), f2(0.0, 2.0), f2(2.0, 2.0), f2(1.0, 1.0)] {
            assert!(tri.to_barycentric(p).is_some());
        }
        for p in [f2(-1.0, 0.0), f2(3.0, 3.0), f2(0.0, 5.0), f2(2.0, -0.5)] {
            assert!(tri.to_barycentric(p).is_none());
        }
    }
}

#[test]
fn weights_inside_sum_to_one_and_rebuild_the_point() {
    let t = Tri::new(f2(10.0, 20.0), f2(13.0, 90.0), f2(75.0, 31.0));
    let p = f2(30.0, 45.0);
    let w = t.to_barycentric(p).unwrap();
    assert!((fl(w.sum()) - 1.0).abs() < 1e-8);
    let rebuilt = t.scale(&w).sum();
    assert!(Float2::approx_eq(rebuilt, p, fx(1e-5)));
    for j in 0..3 {
        assert!(w.get(j).raw() >= 0);
    }
}

#[test]
fn points_outside_have_no_weights() {
    let t = Tri::new(f2(10.0, 20.0), f2(13.0, 90.0), f2(75.0, 31.0));
    assert!(t.to_barycentric(f2(0.0, 0.0)).is_none());
    assert!(t.to_barycentric(f2(80.0, 80.0)).is_none());
    assert!(t.to_barycentric(f2(11.0, 19.0)).is_none());
}

#[test]
fn inside_test_ignores_the_winding() {
    let t = Tri::new(f2(10.0, 20.0), f2(75.0, 31.0), f2(13.0, 90.0));
    assert!(t.should_cull());
    let p = f2(30.0, 45.0);
    let w = t.to_barycentric(p).unwrap();
    assert!((fl(w.sum()) - 1.0).abs() < 1e-8);
    assert!(t.to_barycentric(f2(0.0, 0.0)).is_none());
}

#[test]
fn vectors_in_the_plane() {
    assert_eq!(f2(1.0, 2.0).add(f2(3.0, 4.0)), f2(4.0, 6.0));
    assert_eq!(f2(1.0, 2.0).sub(f2(3.0, 4.0)), f2(-2.0, -2.0));
    assert_eq!(f2(1.0, 2.0).mul(f2(3.0, 4.0)), f2(3.0, 8.0));
    assert_eq!(f2(1.0, 2.0).div(f2(4.0, 4.0)), f2(0.25, 0.5));
    assert_eq!(f2(1.0, 2.0).scale(fx(3.0)), f2(3.0, 6.0));
    assert_eq!(f2(1.0, 2.0).shrink(fx(4.0)), f2(0.25, 0.5));
    assert_eq!(f2(1.0, 2.0).dot(f2(3.0, 4.0)), fx(11.0));
    assert_eq!(f2(3.0, 4.0).sqr_magnitude(), fx(25.0));
    assert_eq!(f2(3.0, 4.0).length(), fx(5.0));
    assert_eq!(f2(0.0, 4.0).normalized(), f2(0.0, 1.0));
    assert_eq!(Float2::zero().normalized(), Float2::zero());
    assert_eq!(f2(1.0, 2.0).lerp(f2(3.0, 6.0), fx(0.5)), f2(2.0, 4.0));
    assert_eq!(f2(1.0, 2.0).lerp(f2(3.0, 6.0), fx(2.0)), f2(3.0, 6.0));
    assert_eq!(f2(1.5, -2.5).floor(), f2(1.0, -3.0));
    assert_eq!(f2(1.5, -2.5).get(1), fx(-2.5));
    assert_eq!(Float2::from_float3(f3(1.0, 2.0, 3.0)), f2(1.0, 2.0));
    assert_eq!(Float2::one(), f2(1.0, 1.0));
    assert_eq!(Float2::right(), f2(1.0, 0.0));
    assert_eq!(Float2::up(), f2(0.0, 1.0));
    let mut v = f2(1.0, 2.0);
    v.set(0, fx(7.0));
    assert_eq!(v, f2(7.0, 2.0));
}

#[test]
fn vectors_in_space() {
    assert_eq!(f3(1.0, 2.0, 3.0).add(f3(3.0, 4.0, 5.0)), f3(4.0, 6.0, 8.0));
    assert_eq!(f3(1.0, 2.0, 3.0).sub(f3(3.0, 4.0, 5.0)), f3(-2.0, -2.0, -2.0));
    assert_eq!(f3(1.0, 2.0, 3.0).mul(f3(3.0, 4.0, 5.0)), f3(3.0, 8.0, 15.0));
    assert_eq!(f3(1.0, 2.0, 3.0).div(f3(4.0, 4.0, 4.0)), f3(0.25, 0.5, 0.75));
    assert_eq!(f3(1.0, 2.0, 3.0).scale(fx(2.0)), f3(2.0, 4.0, 6.0));
    assert_eq!(f3(1.0, 2.0, 3.0).neg(), f3(-1.0, -2.0, -3.0));
    assert_eq!(f3(1.0, 2.0, 3.0).dot(f3(3.0, 4.0, 5.0)), fx(26.0));
    assert_eq!(Float3::right().cross(Float3::up()), Float3::forward());
    assert_eq!(Float3::up().cross(Float3::right()), Float3::forward().neg());
    assert_eq!(f3(2.0, 3.0, 6.0).length(), fx(7.0));
    assert_eq!(f3(0.0, 0.0, -4.0).normalized(), f3(0.0, 0.0, -1.0));
    assert_eq!(Float3::zero().normalized(), Float3::zero());
    assert_eq!(f3(1e-7, 0.0, 0.0).normalized().x.raw(), Scalar::one().raw());
    assert_eq!(f3(1.0, 2.0, 3.0).lerp(f3(3.0, 6.0, 9.0), fx(0.5)), f3(2.0, 4.0, 6.0));
    assert_eq!(f3(1.0, 2.0, 3.0).get(2), fx(3.0));
    assert_eq!(Float3::from_float2(f2(1.0, 2.0)), f3(1.0, 2.0, 0.0));
    assert!(Float3::approx_eq(f3(1.0, 2.0, 3.0), f3(1.0, 2.0, 3.000001), fx(1e-5)));
    assert!(!Float3::approx_eq(f3(1.0, 2.0, 3.0), f3(1.0, 2.0, 3.00002), fx(1e-5)));
    let mut v = f3(1.0, 2.0, 3.0);
    v.set(2, fx(7.0));
    assert_eq!(v, f3(1.0, 2.0, 7.0));
}

#[test]
fn colours_as_bytes() {
    assert_eq!(f3(1.0, 0.5, 0.0).to_rgba_bytes(), (255, 127, 0, 255));
    assert_eq!(f3(2.0, -1.0, 0.2).to_rgba_bytes(), (255, 0, 50, 255));
    assert_eq!(f3(1.0, 0.5, 0.0).to_minifb_rgb(), 0x00ff7f00);
    assert_eq!(f3(0.0, 0.0, 1.0).to_minifb_rgb(), 0x000000ff);
}

#[test]
fn vector_operations_through_the_trait() {
    assert_eq!(unit(f2(0.0, -3.0)), f2(0.0, -1.0));
    assert_eq!(unit(f3(0.0, 0.0, 5.0)), f3(0.0, 0.0, 1.0));
    assert_eq!(<Float3 as VectorOps>::zero(), Float3::zero());
    assert_eq!(VectorOps::dot(f2(1.0, 2.0), f2(3.0, 4.0)), fx(11.0));
    assert_eq!(VectorOps::sqr_magnitude(f3(1.0, 2.0, 2.0)), fx(9.0));
    assert_eq!(VectorOps::length(f3(1.0, 2.0, 2.0)), fx(3.0));
    assert_eq!(VectorOps::lerp(f2(0.0, 0.0), f2(4.0, 2.0), fx(0.25)), f2(1.0, 0.5));
    assert!(VectorOps::approx_eq(f2(1.0, 1.0), f2(1.0, 1.000001), fx(1e-5)));
}

#[test]
fn operators_are_the_methods() {
    let a = f3(1.0, -2.0, 3.5);
    let b = f3(0.5, 4.0, -2.0);
    let k = fx(2.5);
    assert_eq!(a + b, a.add(b));
    assert_eq!(a - b, a.sub(b));
    assert_eq!(a * b, a.mul(b));
    assert_eq!(a / b, a.div(b));
    assert_eq!(a * k, a.scale(k));
    assert_eq!(a / k, a.shrink(k));
    let u = f2(1.0, -2.0);
    let v = f2(0.5, 4.0);
    assert_eq!(u + v, u.add(v));
    assert_eq!(u - v, u.sub(v));
    assert_eq!(u * v, u.mul(v));
    assert_eq!(u / v, u.div(v));
    assert_eq!(u * k, u.scale(k));
    assert_eq!(u / k, u.shrink(k));
    assert_eq!(k + k, fx(5.0));
    assert_eq!(k - fx(1.0), fx(1.5));
    assert_eq!(k * k, fx(6.25));
    assert_eq!(k / fx(2.0), fx(1.25));
    assert_eq!(k % fx(2.0), fx(0.5));
    assert_eq!(-k, fx(-2.5));
}

#[test]
fn sides_of_a_line_and_of_a_triangle() {
    assert_eq!(f2(3.0, 4.0).perpendicular(), f2(-4.0, 3.0));
    assert_eq!(f2(1.0, 2.0).cross(f2(3.0, 4.0)), f2(-2.0, 2.0));
    assert_eq!(VectorOps::cross(f2(1.0, 2.0), f2(3.0, 4.0)), f2(-2.0, 2.0));
    assert_eq!(VectorOps::cross(Float3::right(), Float3::up()), Float3::forward());
    let a = f2(0.0, 0.0);
    let b = f2(4.0, 0.0);
    let c = f2(0.0, 4.0);
    assert!(f2(1.0, 1.0).right_side(a, b));
    assert!(!f2(1.0, -1.0).right_side(a, b));
    assert!(f2(2.0, 0.0).right_side(a, b));
    assert!(f2(1.0, 1.0).in_triangle(a, b, c));
    assert!(f2(1.0, 1.0).in_triangle(a, c, b));
    assert!(!f2(3.0, 3.0).in_triangle(a, b, c));
    assert!(!f2(-1.0, 1.0).in_triangle(a, b, c));
}
