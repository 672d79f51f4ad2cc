use rusterizer::camera::CameraModel;
use rusterizer::entity::Entity;
use rusterizer::mesh::Mesh;
use rusterizer::pose_graph::{PoseError, PoseGraph};
use rusterizer::primitives::{FaceData2D, FaceData3D, Float2, Float3, Quaternion, Transform, Tri};
use rusterizer::raster::{project_face, rasterize_face, rasterize_pixel, rasterize_scene, shade_if_nearer, to_screen_space};
use rusterizer::render_buffer::RenderBuffer;
use rusterizer::scalar::Scalar;
use rusterizer::scene::SceneData;
use rusterizer::shader::{DepthShader, NormalShader, PixelShader, ShaderGlobals};
use std::sync::Arc;

const W: usize = 64;
const H: usize = 48;

fn fx(v: f64) -> Scalar {
    Scalar::from_raw((v * 4294967296.0).round() as i64)
}

fn fl(s: Scalar) -> f64 {
    s.raw() as f64 / 4294967296.0
}

fn f2(x: f64, y: f64) -> Float2 {
    Float2::new(fx(x), fx(y))
}

fn f3(x: f64, y: f64, z: f64) -> Float3 {
    Float3::new(fx(x), fx(y), fx(z))
}

struct Flat(Float3);

impl PixelShader for Flat {
    fn pixel_color(
        &self,
        _pixel: Float2,
        _uv: Float2,
        _normal: Float3,
        _depth: Scalar,
        _globals: &ShaderGlobals,
    ) -> Float3 {
        self.0
    }
}

fn camera() -> CameraModel<W, H> {
    CameraModel::new(fx(1.0), true)
}

fn facing_triangle(z: f64, size: f64) -> FaceData3D {
    let n = f3(0.0, 0.0, 1.0);
    FaceData3D {
        vertices: Tri::new(f3(-size, size, z), f3(-size, -size, z), f3(size, -size, z)),
        normals: Tri::new(n, n, n),
        uvs: Tri::new(f2(0.0, 1.0), f2(0.0, 0.0), f2(1.0, 0.0)),
    }
}

fn screen_triangle(depth: f64) -> FaceData2D {
    let n = f3(0.0, 0.0, 1.0);
    FaceData2D {
        vertices: Tri::new(f2(10.0, 10.0), f2(10.0, 40.0), f2(50.0, 10.0)),
        depths: Tri::new(fx(depth), fx(depth), fx(depth)),
        normals: Tri::new(n, n, n),
        uvs: Tri::new(f2(0.0, 1.0), f2(0.0, 0.0), f2(1.0, 0.0)),
    }
}

fn inside(face: &FaceData2D, x: usize, y: usize) -> bool {
    face.vertices.to_barycentric(f2(x as f64, y as f64)).is_some()
}

#[test]
fn a_facing_triangle_is_filled_with_the_shader_colour() {
    let mut buffer = RenderBuffer::<W, H>::new();
    let red = f3(1.0, 0.0, 0.0);
    let face = project_face(&facing_triangle(-2.0, 1.0), &Transform::default(), &camera()).unwrap();
    rasterize_face(&face, &mut buffer, &Flat(red), &ShaderGlobals::default());
    let mut drawn = 0;
    for y in 0..H {
        for x in 0..W {
            let pixel = buffer.read(y * W + x);
            if inside(&face, x, y) {
                assert_eq!(pixel.0, red);
                assert!((fl(pixel.1) - 2.0).abs() < 1e-6);
                drawn += 1;
            } else {
                assert_eq!(pixel, (Float3::zero(), Scalar::infinity()));
            }
        }
    }
    assert!(drawn > 100);
}

#[test]
fn the_nearer_triangle_wins_in_either_order() {
    let near = screen_triangle(2.0);
    let mut far = screen_triangle(5.0);
    far.vertices = Tri::new(f2(5.0, 5.0), f2(5.0, 45.0), f2(60.0, 5.0));
    let red = Flat(f3(1.0, 0.0, 0.0));
    let blue = Flat(f3(0.0, 0.0, 1.0));
    let globals = ShaderGlobals::default();

    let mut first = RenderBuffer::<W, H>::new();
    rasterize_face(&near, &mut first, &red, &globals);
    rasterize_face(&far, &mut first, &blue, &globals);

    let mut second = RenderBuffer::<W, H>::new();
    rasterize_face(&far, &mut second, &blue, &globals);
    rasterize_face(&near, &mut second, &red, &globals);

    let mut overlap = 0;
    for y in 0..H {
        for x in 0..W {
            let a = first.read(y * W + x);
            assert_eq!(a, second.read(y * W + x));
            if inside(&near, x, y) && inside(&far, x, y) {
                assert_eq!(a.0, red.0);
                overlap += 1;
            } else if inside(&far, x, y) {
                assert_eq!(a.0, blue.0);
            }
        }
    }
    assert!(overlap > 100);
}

#[test]
fn many_orders_and_threads_give_the_same_picture() {
    let globals = ShaderGlobals::default();
    let mut graph = PoseGraph::root();
    let cam = graph.new("cam", 0);
    let mut scene: SceneData<Flat, W, H> = SceneData::new(graph, camera());
    scene.cam_pose = cam;
    scene.globals = globals;
    let mut faces = Vec::new();
    for i in 0..40 {
        let z = -2.0 - (i as f64) * 0.25;
        let mut face = facing_triangle(z, 1.0 + (i % 5) as f64 * 0.3);
        let shift = f3((i % 7) as f64 * 0.1 - 0.3, (i % 3) as f64 * 0.1, 0.0);
        face.vertices = Tri::new(
            face.vertices.get(0).add(shift),
            face.vertices.get(1).add(shift),
            face.vertices.get(2).add(shift),
        );
        faces.push((face, f3(i as f64 / 40.0, 1.0 - i as f64 / 40.0, 0.5)));
    }
    let mut reference: Option<Vec<(Float3, Scalar)>> = None;
    for round in 0..8 {
        let mut order: Vec<usize> = (0..faces.len()).collect();
        let mut seed = 12345u64 + round;
        for i in (1..order.len()).rev() {
            seed = seed.wrapping_mul(6364136223846793005).wrapping_add(1442695040888963407);
            order.swap(i, (seed >> 33) as usize % (i + 1));
        }
        scene.entities.clear();
        for &i in &order {
            let node = scene.graph.new("face", 0);
            let mesh = Arc::new(Mesh { data: vec![faces[i].0] });
            scene.entities.push((format!("e{}", i), Entity::new(node, mesh, Arc::new(Flat(faces[i].1)))));
        }
        let mut buffer = RenderBuffer::<W, H>::new();
        assert!(rasterize_scene(&scene, &mut buffer).is_empty());
        let picture: Vec<(Float3, Scalar)> = (0..W * H).map(|i| buffer.read(i)).collect();
        match &reference {
            None => reference = Some(picture),
            Some(first) => assert_eq!(first, &picture),
        }
    }
    let picture = reference.unwrap();
    assert_eq!(picture[(H / 2 + 6) * W + W / 2 - 2].0, faces[0].1);
}

#[test]
fn depth_ties_keep_one_of_the_two() {
    let face = screen_triangle(2.0);
    let globals = ShaderGlobals::default();
    let mut buffer = RenderBuffer::<W, H>::new();
    let red = Flat(f3(1.0, 0.0, 0.0));
    let blue = Flat(f3(0.0, 0.0, 1.0));
    rasterize_face(&face, &mut buffer, &red, &globals);
    rasterize_face(&face, &mut buffer, &blue, &globals);
    let pixel = buffer.read(20 * W + 20);
    assert_eq!(pixel.0, red.0);
}

#[test]
fn stage_a_drops_what_is_too_near_or_turned_away() {
    let cam = camera();
    let id = Transform::default();
    assert!(project_face(&facing_triangle(-2.0, 1.0), &id, &cam).is_some());
    assert!(project_face(&facing_triangle(-0.005, 1.0), &id, &cam).is_none());
    assert!(project_face(&facing_triangle(2.0, 1.0), &id, &cam).is_none());
    let mut straddling = facing_triangle(-2.0, 1.0);
    straddling.vertices.set(0, f3(-1.0, 1.0, 0.5));
    assert!(project_face(&straddling, &id, &cam).is_none());
    let mut turned = facing_triangle(-2.0, 1.0);
    turned.vertices = Tri::new(
        *turned.vertices.get(0),
        *turned.vertices.get(2),
        *turned.vertices.get(1),
    );
    assert!(project_face(&turned, &id, &cam).is_none());
    let mut flat = facing_triangle(-2.0, 1.0);
    flat.vertices.set(2, *flat.vertices.get(1));
    assert!(project_face(&flat, &id, &cam).is_none());
}

#[test]
fn stage_a_stores_screen_corners_depths_normals_and_uvs() {
    let cam = camera();
    let quarter = (std::f64::consts::FRAC_PI_4).sin();
    let turn = Transform {
        position: f3(0.0, 0.0, -3.0),
        scale: f3(2.0, 2.0, 2.0),
        rotation: Quaternion::from_z_angle(fx(quarter), fx(quarter)),
    };
    let mesh_face = facing_triangle(0.0, 1.0);
    let face = project_face(&mesh_face, &turn, &cam).unwrap();
    for i in 0..3 {
        let in_cam = turn.apply(*mesh_face.vertices.get(i));
        assert_eq!(*face.vertices.get(i), cam.point_to_screen(in_cam));
        assert_eq!(*face.depths.get(i), in_cam.z.neg());
        assert!((fl(*face.depths.get(i)) - 3.0).abs() < 1e-6);
        assert_eq!(*face.normals.get(i), turn.rotation.rotate(*mesh_face.normals.get(i)));
        assert_eq!(face.uvs.get(i), mesh_face.uvs.get(i));
    }
    assert!(Float2::approx_eq(*face.vertices.get(0), f2(32.0 - 16.0, 24.0 + 16.0), fx(1e-4)));
}

#[test]
fn interpolation_is_perspective_correct() {
    let mut face = screen_triangle(1.0);
    face.depths = Tri::new(fx(1.0), fx(1.0), fx(4.0));
    let at_a = face.fragment_at(f2(10.0, 10.0)).unwrap();
    assert_eq!(at_a.depth, fx(1.0));
    assert_eq!(at_a.uv, f2(0.0, 1.0));
    let midway = face.fragment_at(f2(30.0, 10.0)).unwrap();
    assert!((fl(midway.depth) - 1.6).abs() < 1e-6);
    assert!((fl(midway.uv.x) - 0.2).abs() < 1e-6);
    assert!((fl(midway.uv.y) - 0.8).abs() < 1e-6);
    assert!(Float3::approx_eq(midway.normal, f3(0.0, 0.0, 1.0), fx(1e-5)));
    assert!(face.fragment_at(f2(0.0, 0.0)).is_none());
}

#[test]
fn shading_happens_only_for_nearer_fragments() {
    let face = screen_triangle(2.0);
    let p = f2(20.0, 20.0);
    let w = face.vertices.to_barycentric(p).unwrap();
    let globals = ShaderGlobals::default();
    let shader = Flat(f3(0.0, 1.0, 0.0));
    let far = (f3(1.0, 1.0, 1.0), fx(3.0));
    let near = (f3(1.0, 1.0, 1.0), fx(1.0));
    let same = (f3(1.0, 1.0, 1.0), fx(2.0));
    assert_eq!(
        shade_if_nearer(&face, p, &w, fx(2.0), far, &shader, &globals),
        Some((f3(0.0, 1.0, 0.0), fx(2.0)))
    );
    assert_eq!(shade_if_nearer(&face, p, &w, fx(2.0), near, &shader, &globals), None);
    assert_eq!(shade_if_nearer(&face, p, &w, fx(2.0), same, &shader, &globals), None);
}

#[test]
fn one_pixel_is_drawn_under_its_lock() {
    let face = screen_triangle(2.0);
    let mut buffer = RenderBuffer::<W, H>::new();
    let globals = ShaderGlobals::default();
    rasterize_pixel(&face, 20, 20, &mut buffer, &DepthShader(), &globals);
    rasterize_pixel(&face, 0, 0, &mut buffer, &DepthShader(), &globals);
    let drawn = buffer.read(20 * W + 20);
    assert!((fl(drawn.1) - 2.0).abs() < 1e-6);
    let grey = drawn.1.div(fx(5.0));
    assert_eq!(drawn.0, Float3::new(grey, grey, grey));
    assert_eq!(Some(drawn.1), face.fragment_at(f2(20.0, 20.0)).map(|f| f.depth));
    assert_eq!(buffer.read(0), (Float3::zero(), Scalar::infinity()));
    rasterize_pixel(&face, 21, 20, &mut buffer, &NormalShader(), &globals);
    assert!(Float3::approx_eq(buffer.read(20 * W + 21).0, f3(0.0, 0.0, 1.0), fx(1e-5)));
}

#[test]
fn entities_that_cannot_be_placed_are_reported_and_the_rest_drawn() {
    let mut graph = PoseGraph::root();
    let cam = graph.new("cam", 0);
    let good = graph.new("good", 0);
    let a = graph.new("a", 0);
    let b = graph.new("b", a);
    graph.set_parent(a, b);
    let mut scene: SceneData<Flat, W, H> = SceneData::new(graph, camera());
    scene.cam_pose = cam;
    let mesh = Arc::new(Mesh { data: vec![facing_triangle(-2.0, 1.0)] });
    let red = Arc::new(Flat(f3(1.0, 0.0, 0.0)));
    scene.entities.push(("lost".to_string(), Entity::new(b, mesh.clone(), red.clone())));
    scene.entities.push(("good".to_string(), Entity::new(good, mesh.clone(), red.clone())));
    let mut buffer = RenderBuffer::<W, H>::new();
    assert_eq!(rasterize_scene(&scene, &mut buffer), vec![(0, PoseError::CyclicGraph)]);
    assert_eq!(buffer.read((H / 2 + 2) * W + W / 2 - 2).0, red.0);

    scene.graph.apply_scale(cam, f3(1.0, 0.0, 1.0));
    let mut buffer = RenderBuffer::<W, H>::new();
    assert_eq!(
        rasterize_scene(&scene, &mut buffer),
        vec![(0, PoseError::CyclicGraph), (1, PoseError::NonInvertible)]
    );
    assert_eq!(buffer.read((H / 2 + 2) * W + W / 2 - 2), (Float3::zero(), Scalar::infinity()));
    assert_eq!(
        to_screen_space(&scene.graph, &scene.entities[1].1, &scene.cam_model, cam).err(),
        Some(PoseError::NonInvertible)
    );
}

#[test]
fn stage_a_on_a_mesh_keeps_the_survivors() {
    let mut graph = PoseGraph::root();
    let cam = graph.new("cam", 0);
    graph.apply_translation(cam, f3(0.0, 0.0, 1.0));
    let node = graph.new("mesh", 0);
    let mut data = Vec::new();
    for i in 0..200 {
        let z = if i % 3 == 0 { 5.0 } else { -1.0 - i as f64 * 0.01 };
        data.push(facing_triangle(z, 1.0));
    }
    let entity = Entity::new(node, Arc::new(Mesh { data }), Arc::new(NormalShader()));
    let faces = to_screen_space(&graph, &entity, &camera(), cam).unwrap();
    assert_eq!(faces.len(), 133);
    let vert_to_cam = graph.relative_transform(node, cam).unwrap();
    let mut expected = Vec::new();
    for face in entity.mesh.data.iter() {
        if let Some(f) = project_face(face, &vert_to_cam, &camera()) {
            expected.push(f.depths.vertices);
        }
    }
    let mut got: Vec<[Scalar; 3]> = faces.iter().map(|f| f.depths.vertices).collect();
    got.sort_by_key(|d| d[0].raw());
    expected.sort_by_key(|d| d[0].raw());
    assert_eq!(got, expected);
}

#[test]
fn drawing_never_moves_a_pixel_farther() {
    let globals = ShaderGlobals::default();
    let mut buffer = RenderBuffer::<W, H>::new();
    let red = Flat(f3(1.0, 0.0, 0.0));
    let blue = Flat(f3(0.0, 0.0, 1.0));
    rasterize_face(&screen_triangle(3.0), &mut buffer, &red, &globals);
    let before: Vec<(Float3, Scalar)> = (0..W * H).map(|i| buffer.read(i)).collect();
    rasterize_face(&screen_triangle(5.0), &mut buffer, &blue, &globals);
    for i in 0..W * H {
        assert_eq!(buffer.read(i), before[i]);
    }
    rasterize_face(&screen_triangle(2.0), &mut buffer, &blue, &globals);
    for i in 0..W * H {
        let now = buffer.read(i);
        assert!(now.1 <= before[i].1);
        assert!(now == before[i] || now.0 == blue.0);
    }
}

#[test]
fn written_pixels_are_read_back() {
    let mut buffer = RenderBuffer::<W, H>::new();
    buffer.write(17, (f3(0.25, 0.5, 0.75), fx(2.0)));
    assert_eq!(buffer.read(17), (f3(0.25, 0.5, 0.75), fx(2.0)));
    assert_eq!(buffer.read(16), (Float3::zero(), Scalar::infinity()));
    assert_eq!(buffer.read(18), (Float3::zero(), Scalar::infinity()));
    buffer.clear(f3(1.0, 1.0, 1.0));
    assert_eq!(buffer.read(17), (f3(1.0, 1.0, 1.0), Scalar::infinity()));
}
