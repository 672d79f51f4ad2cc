use rusterizer::camera::CameraModel;
use rusterizer::pose_graph::PoseGraph;
use rusterizer::primitives::{Float2, Float3, Tri};
use rusterizer::scalar::Scalar;

const WIDTH: usize = 800;
const HEIGHT: usize = 600;

fn fx(v: f64) -> Scalar {
    Scalar::from_raw((v * 4294967296.0).round() as i64)
}

fn fl(s: Scalar) -> f64 {
    s.raw() as f64 / 4294967296.0
}

fn f3(x: f64, y: f64, z: f64) -> Float3 {
    Float3::new(fx(x), fx(y), fx(z))
}

fn camera(fov_deg: f64, perspective: bool) -> CameraModel<WIDTH, HEIGHT> {
    CameraModel::new(fx((fov_deg.to_radians() / 2.0).tan()), perspective)
}

fn setup_pg() -> (PoseGraph, usize, usize) {
    let mut graph = PoseGraph::root();
    let cam = graph.new("cam", 0);
    let mesh = graph.new("mesh", 0);
    graph.apply_translation(cam, f3(0.0, 0.0, 1.0));
    graph.apply_translation(mesh, f3(0.2, 0.0, 0.0));
    (graph, cam, mesh)
}

#[test]
fn perspective_cam_project_center() {
    let cam = camera(45.0, true);
    let graph = PoseGraph::root();
    let world_to_cam = graph.transform(0);

    let p = f3(0.0, 0.0, -1.0);
    let screen = cam.point_to_screen(world_to_cam.apply(p));
    assert_eq!(screen, Float2::new(fx(WIDTH as f64 / 2.0), fx(HEIGHT as f64 / 2.0)));
}

#[test]
fn orthographic_cam_project_center() {
    let cam = camera(45.0, false);
    let graph = PoseGraph::root();
    let world_to_cam = graph.transform(0);

    let p = f3(0.0, 0.0, 0.0);
    let screen = cam.point_to_screen(world_to_cam.apply(p));
    assert_eq!(screen, Float2::new(fx(WIDTH as f64 / 2.0), fx(HEIGHT as f64 / 2.0)));
}

#[test]
fn perspective_cam_project_offset() {
    let cam = camera(45.0, true);
    let (graph, cam_pose, mesh) = setup_pg();
    let mesh_to_cam = graph.relative_transform(mesh, cam_pose).unwrap();

    let p = f3(1.0, 1.0, -1.0);
    let screen = cam.point_to_screen(mesh_to_cam.apply(p));

    assert!(fl(screen.x) > WIDTH as f64 / 2.0);
    assert!(fl(screen.y) < HEIGHT as f64 / 2.0);
}

#[test]
fn orthographic_cam_project_offset() {
    let (graph, cam_pose, mesh) = setup_pg();
    let cam = camera(45.0, false);
    let mesh_to_cam = graph.relative_transform(mesh, cam_pose).unwrap();

    let p = f3(1.0, 1.0, 0.0);
    let screen = cam.point_to_screen(mesh_to_cam.apply(p));

    assert!(fl(screen.x) > WIDTH as f64 / 2.0);
    assert!(fl(screen.y) < HEIGHT as f64 / 2.0);
}

#[test]
fn axis_projects_to_center_at_every_distance() {
    for perspective in [true, false] {
        let cam = camera(60.0, perspective);
        for z in [-0.02, -1.0, -7.5, -1000.0, 0.0, 3.0] {
            assert_eq!(cam.point_to_screen(f3(0.0, 0.0, z)), CameraModel::<WIDTH, HEIGHT>::center());
        }
    }
}

#[test]
fn perspective_density_follows_the_formula() {
    let cam = camera(90.0, true);
    let screen = cam.point_to_screen(f3(1.0, -0.5, -2.0));
    assert!((fl(screen.x) - (400.0 + 150.0)).abs() < 1e-4);
    assert!((fl(screen.y) - (300.0 + 75.0)).abs() < 1e-4);
}

#[test]
fn orthographic_density_ignores_depth() {
    let cam = camera(90.0, false);
    let near = cam.point_to_screen(f3(0.5, 0.25, -1.0));
    let far = cam.point_to_screen(f3(0.5, 0.25, -50.0));
    assert_eq!(near, far);
    assert!((fl(near.x) - (400.0 + 150.0)).abs() < 1e-4);
    assert!((fl(near.y) - (300.0 - 75.0)).abs() < 1e-4);
}

#[test]
fn tri_to_screen_projects_each_corner() {
    let cam = camera(60.0, true);
    let tri = Tri::new(f3(0.0, 0.0, -1.0), f3(1.0, 0.0, -2.0), f3(0.0, 1.0, -3.0));
    let out = cam.tri_to_screen(&tri);
    for i in 0..3 {
        assert_eq!(*out.get(i), cam.point_to_screen(*tri.get(i)));
    }
}
