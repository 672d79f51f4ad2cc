use rusterizer::pose_graph::{PoseError, PoseGraph};
use rusterizer::primitives::{Float3, Quaternion, VectorOps};
use rusterizer::scalar::Scalar;
use std::f64::consts::FRAC_PI_2;

fn fx(v: f64) -> Scalar {
    Scalar::from_raw((v * 4294967296.0).round() as i64)
}

fn f3(x: f64, y: f64, z: f64) -> Float3 {
    Float3::new(fx(x), fx(y), fx(z))
}

fn x_angle(angle: f64) -> Quaternion {
    Quaternion::from_x_angle(fx((angle * 0.5).sin()), fx((angle * 0.5).cos()))
}

fn y_angle(angle: f64) -> Quaternion {
    Quaternion::from_y_angle(fx((angle * 0.5).sin()), fx((angle * 0.5).cos()))
}

fn z_angle(angle: f64) -> Quaternion {
    Quaternion::from_z_angle(fx((angle * 0.5).sin()), fx((angle * 0.5).cos()))
}

#[test]
fn test_round_trip() {
    let mut graph = PoseGraph::root();
    let root = 0;

    let t1 = graph.new("t1", root);
    graph.apply_scale(t1, f3(1.0, 3.0, 0.5));
    graph.apply_rotation(t1, x_angle(FRAC_PI_2));

    let t2 = graph.new("t2", t1);
    graph.apply_translation(t2, f3(-2.0, 0.0, 3.2));
    graph.apply_rotation(t2, z_angle(-FRAC_PI_2));

    let p_local = f3(5.5, 2.0, -1.7);
    let t2_to_world = graph.relative_transform(t2, root).unwrap();
    let p_world = t2_to_world.apply(p_local);
    let p_local_back = t2_to_world.apply_inv(p_world).unwrap();

    assert!(VectorOps::approx_eq(p_local, p_local_back, fx(1e-5)))
}

#[test]
fn test_deep_hierarchy() {
    let mut graph = PoseGraph::root();
    let root = 0;

    let parent = graph.new("parent", root);
    graph.apply_rotation(parent, y_angle(FRAC_PI_2));

    let child = graph.new("child", parent);
    graph.apply_translation(child, f3(1.0, 0.0, 0.0));

    let p_local = Float3::zero();
    let expected_world_pos = f3(0.0, 0.0, -1.0);

    let child_to_world = graph.relative_transform(child, root).unwrap();
    let actual_world_pos = child_to_world.apply(p_local);

    assert!(
        VectorOps::approx_eq(actual_world_pos, expected_world_pos, fx(1e-5)),
        "Deep hierarchy transform failed. Expected {:?}, but got {:?}",
        expected_world_pos,
        actual_world_pos
    );
}

#[test]
fn test_mesh_to_cam() {
    let mut graph = PoseGraph::root();
    let root = 0;

    let mesh = graph.new("mesh", root);
    graph.apply_scale(mesh, f3(2.0, 2.0, 2.0));
    graph.apply_translation(mesh, f3(1.0, 0.0, 0.0));
    graph.apply_rotation(mesh, y_angle(FRAC_PI_2));

    let cam = graph.new("cam", root);
    graph.apply_translation(cam, f3(-1.0, 0.0, 0.0));

    let p_mesh = f3(0.1, 0.0, 0.0);
    let mesh_to_cam = graph.relative_transform(mesh, cam).unwrap();
    let p_cam = mesh_to_cam.apply(p_mesh);

    assert!(VectorOps::approx_eq(p_cam, f3(2.0, 0.0, -0.2), fx(1e-5)))
}

#[test]
fn root_is_named_and_placed_at_the_origin() {
    let graph = PoseGraph::root();
    assert_eq!(graph.len(), 1);
    assert_eq!(graph.name(0).as_str(), "root");
    assert_eq!(graph.parent(0), None);
    let p = f3(1.0, 2.0, 3.0);
    assert_eq!(graph.world_transform(0).unwrap().apply(p), p);
}

#[test]
fn new_nodes_get_the_next_index_and_their_parent() {
    let mut graph = PoseGraph::root();
    let a = graph.new("a", 0);
    let b = graph.new("b", a);
    assert_eq!((a, b), (1, 2));
    assert_eq!(graph.parent(b), Some(a));
    assert_eq!(graph.name(b).as_str(), "b");
    graph.set_parent(b, 0);
    assert_eq!(graph.parent(b), Some(0));
}

#[test]
fn world_transform_composes_from_the_root_down() {
    let mut graph = PoseGraph::root();
    let a = graph.new("a", 0);
    graph.apply_translation(a, f3(1.0, 0.0, 0.0));
    graph.apply_rotation(a, z_angle(FRAC_PI_2));
    let b = graph.new("b", a);
    graph.apply_translation(b, f3(0.0, 2.0, 0.0));
    graph.apply_rotation(b, x_angle(FRAC_PI_2));
    let c = graph.new("c", b);
    graph.apply_translation(c, f3(0.0, 0.0, 3.0));

    let p = f3(0.5, 0.25, -1.0);
    let world = graph.world_transform(c).unwrap().apply(p);
    let stepwise = graph
        .transform(a)
        .apply(graph.transform(b).apply(graph.transform(c).apply(p)));
    assert!(VectorOps::approx_eq(world, stepwise, fx(1e-5)));
}

#[test]
fn a_cycle_is_reported() {
    let mut graph = PoseGraph::root();
    let a = graph.new("a", 0);
    let b = graph.new("b", a);
    let c = graph.new("c", 0);
    graph.set_parent(a, b);
    assert!(graph.world_transform(a).is_err());
    assert!(graph.world_transform(b).is_err());
    assert!(graph.world_transform(c).is_ok());
    assert_eq!(graph.relative_transform(a, c).err(), Some(PoseError::CyclicGraph));
    assert_eq!(graph.relative_transform(c, a).err(), Some(PoseError::CyclicGraph));
    graph.set_parent(0, 0);
    assert!(graph.world_transform(c).is_err());
}

#[test]
fn a_chain_as_long_as_the_graph_is_no_cycle() {
    let mut graph = PoseGraph::root();
    let mut last = 0;
    for _ in 0..50 {
        last = graph.new("link", last);
        graph.apply_translation(last, f3(1.0, 0.0, 0.0));
    }
    let world = graph.world_transform(last).unwrap();
    assert_eq!(world.apply(Float3::zero()), f3(50.0, 0.0, 0.0));
}

#[test]
fn zero_scale_target_is_reported() {
    let mut graph = PoseGraph::root();
    let a = graph.new("a", 0);
    graph.apply_scale(a, f3(1.0, 0.0, 1.0));
    let b = graph.new("b", 0);
    assert_eq!(graph.relative_transform(b, a).err(), Some(PoseError::NonInvertible));
    assert!(graph.relative_transform(a, b).is_ok());
}

#[test]
fn relative_transform_to_itself_is_the_identity() {
    let mut graph = PoseGraph::root();
    let a = graph.new("a", 0);
    graph.apply_scale(a, f3(2.0, 2.0, 2.0));
    graph.apply_translation(a, f3(1.0, -4.0, 0.5));
    graph.apply_rotation(a, y_angle(0.8));
    let t = graph.relative_transform(a, a).unwrap();
    for p in [f3(1.0, 0.0, 0.0), f3(-3.0, 2.0, 0.5), f3(0.0, 0.0, 0.0)] {
        assert!(VectorOps::approx_eq(t.apply(p), p, fx(1e-5)));
    }
}

#[test]
fn relative_transforms_in_both_directions_are_inverse() {
    let mut graph = PoseGraph::root();
    let a = graph.new("a", 0);
    graph.apply_scale(a, f3(2.0, 2.0, 2.0));
    graph.apply_translation(a, f3(1.0, -4.0, 0.5));
    graph.apply_rotation(a, y_angle(0.8));
    let b = graph.new("b", 0);
    graph.apply_translation(b, f3(0.0, 1.0, 2.0));
    graph.apply_rotation(b, z_angle(-0.3));
    let a_to_b = graph.relative_transform(a, b).unwrap();
    let b_to_a = graph.relative_transform(b, a).unwrap();
    let inv = a_to_b.inverse().unwrap();
    for p in [f3(1.0, 0.0, 0.0), f3(-3.0, 2.0, 0.5), f3(0.0, 0.0, 0.0)] {
        assert!(VectorOps::approx_eq(inv.apply(p), b_to_a.apply(p), fx(1e-5)));
        assert!(VectorOps::approx_eq(b_to_a.apply(a_to_b.apply(p)), p, fx(1e-5)));
    }
}
