//! The two stages that turn the triangles of a scene into pixels.
//!
//! Stage A takes each triangle of a mesh to camera space, drops it where it
//! comes too near the camera or faces away, and projects it.  Stage B walks
//! the pixels of each projected triangle, interpolates depth, texture
//! coordinate and normal with perspective correction, and offers the shaded
//! fragment to the pixel.  Within a stage every triangle is handled on its
//! own, by whichever thread is free.
use vstd::prelude::*;
use rayon::iter::{IntoParallelRefIterator, ParallelIterator};
use crate::scalar::Scalar;
use crate::camera::CameraModel;
use crate::entity::Entity;
use crate::pose_graph::{PoseError, PoseGraph, relative_of};
use crate::primitives::face::{FaceData2D, FaceData3D};
use crate::primitives::float2::Float2;
use crate::primitives::float3::Float3;
use crate::primitives::transform::{Transform, TransformParts};
use crate::primitives::triangle::Tri;
use crate::render_buffer::{
    held, lock_pixel, read_pixel, write_pixel, PixelGuard, RenderBuffer, SharedPixels,
};
use crate::scene::SceneData;
use crate::shader::{PixelShader, ShaderGlobals};

verus! {

/// Raw value of -0.01: a triangle is drawn only where all its corners lie
/// beyond this coordinate on the axis the camera looks along.
pub const NEAR_CLIP_RAW: i64 = -42_949_672;

/// What a fragment carries to the shader.
#[derive(Clone, Copy, Debug, PartialEq, Eq, Structural)]
pub struct Fragment {
    pub depth: Scalar,
    pub uv: Float2,
    pub normal: Float3,
}

/// Whether a camera-space point lies far enough in front of the camera.
pub open spec fn beyond_near_plane(p: Float3) -> bool {
    p.z.raw < NEAR_CLIP_RAW
}

/// The transform for normals that goes with a transform for positions: its
/// rotation alone.
pub open spec fn rotation_only(t: TransformParts) -> TransformParts {
    TransformParts { position: Float3::zero(), scale: Float3::one(), rotation: t.rotation }
}

/// Stage A on one triangle: `None` where a corner is not beyond the near
/// plane or where the projected triangle is culled.
pub open spec fn project_face_spec<const WIDTH: usize, const HEIGHT: usize>(
    face: FaceData3D,
    vert_to_cam: TransformParts,
    cam: CameraModel<WIDTH, HEIGHT>,
) -> Option<FaceData2D> {
    let v0 = vert_to_cam.apply(face.vertices.vertices[0]);
    let v1 = vert_to_cam.apply(face.vertices.vertices[1]);
    let v2 = vert_to_cam.apply(face.vertices.vertices[2]);
    let screen = Tri::new(
        cam.point_to_screen_spec(v0),
        cam.point_to_screen_spec(v1),
        cam.point_to_screen_spec(v2),
    );
    let norm_to_cam = rotation_only(vert_to_cam);
    if !beyond_near_plane(v0) || !beyond_near_plane(v1) || !beyond_near_plane(v2) {
        None
    } else if screen.should_cull_spec() {
        None
    } else {
        Some(
            FaceData2D {
                vertices: screen,
                depths: Tri::new(v0.z.neg(), v1.z.neg(), v2.z.neg()),
                normals: Tri::new(
                    norm_to_cam.apply(face.normals.vertices[0]),
                    norm_to_cam.apply(face.normals.vertices[1]),
                    norm_to_cam.apply(face.normals.vertices[2]),
                ),
                uvs: face.uvs,
            },
        )
    }
}

/// Stage A on a mesh, one triangle after the other: the triangles that
/// survive, in the order of the mesh.
pub open spec fn project_mesh_spec<const WIDTH: usize, const HEIGHT: usize>(
    faces: Seq<FaceData3D>,
    vert_to_cam: TransformParts,
    cam: CameraModel<WIDTH, HEIGHT>,
) -> Seq<FaceData2D> {
    faces.map_values(|f: FaceData3D| project_face_spec(f, vert_to_cam, cam)).filter(
        |o: Option<FaceData2D>| o.is_some(),
    ).map_values(|o: Option<FaceData2D>| o.unwrap())
}

impl FaceData2D {
    /// The reciprocal of the depth at each corner.
    pub open spec fn inv_depths(self) -> Tri<Scalar> {
        Tri::new(Scalar::one(), Scalar::one(), Scalar::one()).div_spec(self.depths)
    }

    /// The depth at the point with the given weights: the reciprocal of
    /// the interpolated reciprocal depth, which is what is linear on the
    /// screen.
    pub open spec fn depth_at(self, weights: Tri<Scalar>) -> Scalar {
        Scalar::one().div(weights.mul_spec(self.inv_depths()).sum_spec())
    }

    /// The texture coordinate at the point with the given weights and
    /// depth: each corner's coordinate is divided by its depth, the three
    /// are blended, and the blend is multiplied by the depth.
    pub open spec fn uv_at(self, weights: Tri<Scalar>, depth: Scalar) -> Float2 {
        self.uvs.scale_spec(self.inv_depths()).scale_spec(weights).sum_spec().scale(depth)
    }

    /// The normal at the point with the given weights and depth,
    /// interpolated like the texture coordinate.
    pub open spec fn normal_at(self, weights: Tri<Scalar>, depth: Scalar) -> Float3 {
        self.normals.scale_spec(self.inv_depths()).scale_spec(weights).sum_spec().scale(depth)
    }

    /// The fragment of this triangle at the screen point `p`, if `p` lies
    /// inside.
    pub open spec fn fragment_spec(self, p: Float2) -> Option<Fragment> {
        if self.vertices.covers(p) {
            let weights = self.vertices.weights_at(p);
            let depth = self.depth_at(weights);
            Some(
                Fragment {
                    depth,
                    uv: self.uv_at(weights, depth),
                    normal: self.normal_at(weights, depth),
                },
            )
        } else {
            None
        }
    }

    /// The fragment of this triangle at the screen point `p`, or `None`
    /// where `p` lies outside.
    pub fn fragment_at(&self, p: Float2) -> (r: Option<Fragment>)
        ensures
            r == self.fragment_spec(p),
    {
        match self.vertices.to_barycentric(p) {
            None => None,
            Some(weights) => {
                let inv_depth = Tri::new(Scalar::one(), Scalar::one(), Scalar::one()).div(
                    &self.depths,
                );
                let depth = Scalar::one().div(weights.mul(&inv_depth).sum());
                let uv = self.uvs.scale(&inv_depth).scale(&weights).sum().scale(depth);
                let normal = self.normals.scale(&inv_depth).scale(&weights).sum().scale(depth);
                Some(Fragment { depth, uv, normal })
            },
        }
    }
}

/// The screen point that stands for the pixel in column `x` of row `y`.
pub open spec fn pixel_point(x: int, y: int) -> Float2 {
    Float2::new(Scalar::from_index_spec(x), Scalar::from_index_spec(y))
}

/// What a pixel holds after the triangle `face` has been drawn over it:
/// unchanged where the pixel lies outside the triangle or the fragment is
/// not strictly nearer than what the pixel held, else the colour that the
/// shader gives the fragment, with the fragment's depth.
pub open spec fn pixel_after<S: PixelShader + ?Sized>(
    face: FaceData2D,
    x: int,
    y: int,
    current: (Float3, Scalar),
    shader: &S,
    globals: ShaderGlobals,
) -> (Float3, Scalar) {
    let p = pixel_point(x, y);
    match face.fragment_spec(p) {
        None => current,
        Some(f) => crate::render_buffer::offer(
            current,
            shader.color_spec(p, f.uv, f.normal, f.depth, globals),
            f.depth,
        ),
    }
}

/// Stage A on one triangle of a mesh: takes positions to camera space with
/// `vert_to_cam` and normals with its rotation alone, drops the triangle
/// where a corner is not strictly beyond the near plane, projects it, and
/// drops it where its signed area on the screen is below the cull limit.
pub fn project_face<const WIDTH: usize, const HEIGHT: usize>(
    face: &FaceData3D,
    vert_to_cam: &Transform,
    cam_model: &CameraModel<WIDTH, HEIGHT>,
) -> (r: Option<FaceData2D>)
    ensures
        r == project_face_spec(*face, vert_to_cam@, *cam_model),
{
    let norm_to_cam = Transform::from_rotation(vert_to_cam.rotation);
    let vert_cam = vert_to_cam.apply_tri(&face.vertices);
    if vert_cam.vertices[0].z.raw >= NEAR_CLIP_RAW || vert_cam.vertices[1].z.raw >= NEAR_CLIP_RAW
        || vert_cam.vertices[2].z.raw >= NEAR_CLIP_RAW {
        return None;
    }
    let vert_screen = cam_model.tri_to_screen(&vert_cam);
    assert(vert_screen == Tri::new_spec(
        cam_model.point_to_screen_spec(vert_cam.vertices[0]),
        cam_model.point_to_screen_spec(vert_cam.vertices[1]),
        cam_model.point_to_screen_spec(vert_cam.vertices[2]),
    )) by {
        assert(vert_screen.vertices =~= Tri::new_spec(
            cam_model.point_to_screen_spec(vert_cam.vertices[0]),
            cam_model.point_to_screen_spec(vert_cam.vertices[1]),
            cam_model.point_to_screen_spec(vert_cam.vertices[2]),
        ).vertices);
    }
    if vert_screen.should_cull() {
        return None;
    }
    let normals = norm_to_cam.apply_tri(&face.normals);
    assert(normals.vertices =~= Tri::new_spec(
        norm_to_cam@.apply(face.normals.vertices[0]),
        norm_to_cam@.apply(face.normals.vertices[1]),
        norm_to_cam@.apply(face.normals.vertices[2]),
    ).vertices);
    Some(
        FaceData2D {
            vertices: vert_screen,
            depths: Tri::new(
                vert_cam.vertices[0].z.neg(),
                vert_cam.vertices[1].z.neg(),
                vert_cam.vertices[2].z.neg(),
            ),
            normals,
            uvs: face.uvs,
        },
    )
}

/// What a triangle needs at every pixel, computed once: the reciprocal
/// depth of each corner, and each corner's texture coordinate and normal
/// divided by its depth.
fn prepare(face: &FaceData2D) -> (r: (Tri<Scalar>, Tri<Float2>, Tri<Float3>))
    ensures
        r.0 == face.inv_depths(),
        r.1 == face.uvs.scale_spec(face.inv_depths()),
        r.2 == face.normals.scale_spec(face.inv_depths()),
{
    let inv_depth = Tri::new(Scalar::one(), Scalar::one(), Scalar::one()).div(&face.depths);
    let scaled_uv = face.uvs.scale(&inv_depth);
    let scaled_norms = face.normals.scale(&inv_depth);
    (inv_depth, scaled_uv, scaled_norms)
}

/// Whether `prepared` is what [`prepare`] gives for `face`.
spec fn is_prepared(face: FaceData2D, prepared: (Tri<Scalar>, Tri<Float2>, Tri<Float3>)) -> bool {
    &&& prepared.0 == face.inv_depths()
    &&& prepared.1 == face.uvs.scale_spec(face.inv_depths())
    &&& prepared.2 == face.normals.scale_spec(face.inv_depths())
}

fn shade_prepared<S: PixelShader + ?Sized>(
    face: &FaceData2D,
    prepared: &(Tri<Scalar>, Tri<Float2>, Tri<Float3>),
    p: Float2,
    weights: &Tri<Scalar>,
    depth: Scalar,
    current: (Float3, Scalar),
    shader: &S,
    globals: &ShaderGlobals,
) -> (r: Option<(Float3, Scalar)>)
    requires
        is_prepared(*face, *prepared),
    ensures
        r.is_some() == (depth.raw < current.1.raw),
        r matches Some(pixel) ==> pixel == (
            shader.color_spec(
                p,
                face.uv_at(*weights, depth),
                face.normal_at(*weights, depth),
                depth,
                *globals,
            ),
            depth,
        ),
{
    if depth.raw < current.1.raw {
        let uv = prepared.1.scale(weights).sum().scale(depth);
        let norm = prepared.2.scale(weights).sum().scale(depth);
        Some((shader.pixel_color(p, uv, norm, depth, globals), depth))
    } else {
        None
    }
}

/// Whether the pixel in column `x` of row `y` lies in the box of pixels
/// that is walked for `face`.
pub open spec fn in_box<const WIDTH: usize, const HEIGHT: usize>(
    face: FaceData2D,
    x: int,
    y: int,
) -> bool {
    let b = face.vertices.bbox_spec::<WIDTH, HEIGHT>();
    b.0 <= x <= b.2 && b.1 <= y <= b.3
}

/// What the pixel `index` of a buffer holds after `face` has been drawn:
/// what [`pixel_after`] gives where the pixel lies in the box of the
/// triangle, and what it held elsewhere.
pub open spec fn drawn_over<S: PixelShader + ?Sized, const WIDTH: usize, const HEIGHT: usize>(
    face: FaceData2D,
    index: int,
    current: (Float3, Scalar),
    shader: &S,
    globals: ShaderGlobals,
) -> (Float3, Scalar) {
    let x = index % (WIDTH as int);
    let y = index / (WIDTH as int);
    if in_box::<WIDTH, HEIGHT>(face, x, y) {
        pixel_after(face, x, y, current, shader, globals)
    } else {
        current
    }
}

/// What the pixel `index` holds after the triangles `faces` have been
/// drawn one after the other, in the order of the sequence: each offers
/// its shaded fragment, where it has one, to what the pixel holds then.
pub open spec fn offered<S: PixelShader + ?Sized, const WIDTH: usize, const HEIGHT: usize>(
    faces: Seq<FaceData2D>,
    index: int,
    start: (Float3, Scalar),
    shader: &S,
    globals: ShaderGlobals,
) -> (Float3, Scalar)
    decreases faces.len(),
{
    if faces.len() == 0 {
        start
    } else {
        let so_far = offered::<S, WIDTH, HEIGHT>(faces.drop_last(), index, start, shader, globals);
        match shaded::<S, WIDTH, HEIGHT>(faces.last(), index, shader, globals) {
            Some(fragment) => crate::render_buffer::offer(so_far, fragment.0, fragment.1),
            None => so_far,
        }
    }
}

/// Whether `after` is what the pixel `index` holds once the triangles
/// `faces` have been drawn over `before`, one after the other in some
/// order.  Threads that draw at once take turns at a pixel, in an order
/// that nothing fixes.
pub open spec fn drawn_by<S: PixelShader + ?Sized, const WIDTH: usize, const HEIGHT: usize>(
    faces: Seq<FaceData2D>,
    index: int,
    before: (Float3, Scalar),
    after: (Float3, Scalar),
    shader: &S,
    globals: ShaderGlobals,
) -> bool {
    exists|order: Seq<FaceData2D>|
        #[trigger] order.to_multiset() == faces.to_multiset() && after == offered::<
            S,
            WIDTH,
            HEIGHT,
        >(order, index, before, shader, globals)
}

/// The shaded fragment that `face` has for the pixel `index`: colour and
/// depth, where the pixel lies in the box of the triangle and inside the
/// triangle.
#[verifier::opaque]
pub open spec fn shaded<S: PixelShader + ?Sized, const WIDTH: usize, const HEIGHT: usize>(
    face: FaceData2D,
    index: int,
    shader: &S,
    globals: ShaderGlobals,
) -> Option<(Float3, Scalar)> {
    let x = index % (WIDTH as int);
    let y = index / (WIDTH as int);
    let p = pixel_point(x, y);
    if in_box::<WIDTH, HEIGHT>(face, x, y) {
        match face.fragment_spec(p) {
            Some(f) => Some((shader.color_spec(p, f.uv, f.normal, f.depth, globals), f.depth)),
            None => None,
        }
    } else {
        None
    }
}

/// Drawing one triangle over a pixel offers its shaded fragment to the
/// pixel, where it has one.
pub proof fn lemma_drawn_over_offers<
    S: PixelShader + ?Sized,
    const WIDTH: usize,
    const HEIGHT: usize,
>(face: FaceData2D, index: int, current: (Float3, Scalar), shader: &S, globals: ShaderGlobals)
    ensures
        drawn_over::<S, WIDTH, HEIGHT>(face, index, current, shader, globals) == match shaded::<
            S,
            WIDTH,
            HEIGHT,
        >(face, index, shader, globals) {
            Some(fragment) => crate::render_buffer::offer(current, fragment.0, fragment.1),
            None => current,
        },
{
    reveal(shaded);
}

/// Drawing triangles over a pixel one after the other never moves it
/// farther, leaves it as it was or as the shaded fragment of one of the
/// triangles, colour and depth together, and leaves it no farther than
/// any of their fragments.
pub proof fn lemma_offered<S: PixelShader + ?Sized, const WIDTH: usize, const HEIGHT: usize>(
    faces: Seq<FaceData2D>,
    index: int,
    start: (Float3, Scalar),
    shader: &S,
    globals: ShaderGlobals,
)
    ensures
        ({
            let after = offered::<S, WIDTH, HEIGHT>(faces, index, start, shader, globals);
            &&& after.1.raw <= start.1.raw
            &&& after == start || (after.1.raw < start.1.raw && exists|k: int|
                0 <= k < faces.len() && #[trigger] shaded::<S, WIDTH, HEIGHT>(
                    faces[k],
                    index,
                    shader,
                    globals,
                ) == Some(after))
            &&& forall|k: int|
                0 <= k < faces.len() ==> (#[trigger] shaded::<S, WIDTH, HEIGHT>(
                    faces[k],
                    index,
                    shader,
                    globals,
                ) matches Some(fragment) ==> after.1.raw <= fragment.1.raw)
        }),
    decreases faces.len(),
{
    if faces.len() > 0 {
        let rest = faces.drop_last();
        let mid = offered::<S, WIDTH, HEIGHT>(rest, index, start, shader, globals);
        let after = offered::<S, WIDTH, HEIGHT>(faces, index, start, shader, globals);
        lemma_offered::<S, WIDTH, HEIGHT>(rest, index, start, shader, globals);
        assert forall|k: int| 0 <= k < rest.len() implies rest[k] == faces[k] by {}
        if after != start {
            if after == mid {
                let k = choose|k: int|
                    0 <= k < rest.len() && #[trigger] shaded::<S, WIDTH, HEIGHT>(
                        rest[k],
                        index,
                        shader,
                        globals,
                    ) == Some(mid);
                assert(shaded::<S, WIDTH, HEIGHT>(faces[k], index, shader, globals) == Some(
                    after,
                ));
            } else {
                assert(shaded::<S, WIDTH, HEIGHT>(
                    faces[faces.len() - 1],
                    index,
                    shader,
                    globals,
                ) == Some(after));
            }
        }
        assert forall|k: int| 0 <= k < faces.len() implies (#[trigger] shaded::<
            S,
            WIDTH,
            HEIGHT,
        >(faces[k], index, shader, globals) matches Some(fragment) ==> after.1.raw
            <= fragment.1.raw) by {
            if k < rest.len() {
                assert(rest[k] == faces[k]);
            }
        }
    }
}

/// What holds of a pixel over which triangles have been drawn in some
/// order, whatever the order was:
/// its depth has not grown;
/// it is as it was, or it is the shaded fragment of one of the triangles,
/// colour and depth together, and that fragment is strictly nearer than what
/// the pixel held;
/// it is no farther than the fragment of any of the triangles.
pub proof fn lemma_drawn_by<S: PixelShader + ?Sized, const WIDTH: usize, const HEIGHT: usize>(
    faces: Seq<FaceData2D>,
    index: int,
    before: (Float3, Scalar),
    after: (Float3, Scalar),
    shader: &S,
    globals: ShaderGlobals,
)
    requires
        drawn_by::<S, WIDTH, HEIGHT>(faces, index, before, after, shader, globals),
    ensures
        after.1.raw <= before.1.raw,
        after == before || (after.1.raw < before.1.raw && exists|k: int|
            0 <= k < faces.len() && #[trigger] shaded::<S, WIDTH, HEIGHT>(
                faces[k],
                index,
                shader,
                globals,
            ) == Some(after)),
        forall|k: int|
            0 <= k < faces.len() ==> (#[trigger] shaded::<S, WIDTH, HEIGHT>(
                faces[k],
                index,
                shader,
                globals,
            ) matches Some(fragment) ==> after.1.raw <= fragment.1.raw),
{
    let order = choose|order: Seq<FaceData2D>|
        #[trigger] order.to_multiset() == faces.to_multiset() && after == offered::<
            S,
            WIDTH,
            HEIGHT,
        >(order, index, before, shader, globals);
    lemma_offered::<S, WIDTH, HEIGHT>(order, index, before, shader, globals);
    order.to_multiset_ensures();
    faces.to_multiset_ensures();
    if after != before {
        let j = choose|j: int|
            0 <= j < order.len() && #[trigger] shaded::<S, WIDTH, HEIGHT>(
                order[j],
                index,
                shader,
                globals,
            ) == Some(after);
        assert(order.contains(order[j]));
        assert(order.to_multiset().count(order[j]) > 0);
        assert(faces.to_multiset().count(order[j]) > 0);
        assert(faces.contains(order[j]));
        let k = choose|k: int| 0 <= k < faces.len() && faces[k] == order[j];
        assert(shaded::<S, WIDTH, HEIGHT>(faces[k], index, shader, globals) == Some(after));
    }
    assert forall|k: int| 0 <= k < faces.len() implies (#[trigger] shaded::<S, WIDTH, HEIGHT>(
        faces[k],
        index,
        shader,
        globals,
    ) matches Some(fragment) ==> after.1.raw <= fragment.1.raw) by {
        assert(faces.contains(faces[k]));
        assert(faces.to_multiset().count(faces[k]) > 0);
        assert(order.to_multiset().count(faces[k]) > 0);
        assert(order.contains(faces[k]));
        let j = choose|j: int| 0 <= j < order.len() && order[j] == faces[k];
        assert(shaded::<S, WIDTH, HEIGHT>(order[j], index, shader, globals) == shaded::<
            S,
            WIDTH,
            HEIGHT,
        >(faces[k], index, shader, globals));
    }
}

/// A single triangle drawn over a pixel leaves what [`drawn_over`] says:
/// the shaded fragment inside the triangle where it is nearer, and what
/// the pixel held everywhere else.
pub proof fn lemma_drawn_by_one<S: PixelShader + ?Sized, const WIDTH: usize, const HEIGHT: usize>(
    face: FaceData2D,
    index: int,
    before: (Float3, Scalar),
    after: (Float3, Scalar),
    shader: &S,
    globals: ShaderGlobals,
)
    requires
        drawn_by::<S, WIDTH, HEIGHT>(seq![face], index, before, after, shader, globals),
    ensures
        after == drawn_over::<S, WIDTH, HEIGHT>(face, index, before, shader, globals),
{
    let faces = seq![face];
    let order = choose|order: Seq<FaceData2D>|
        #[trigger] order.to_multiset() == faces.to_multiset() && after == offered::<
            S,
            WIDTH,
            HEIGHT,
        >(order, index, before, shader, globals);
    order.to_multiset_ensures();
    faces.to_multiset_ensures();
    assert(order.len() == 1);
    assert(order.contains(order[0]));
    assert(order.to_multiset().count(order[0]) > 0);
    assert(faces.to_multiset().count(order[0]) > 0);
    assert(faces.contains(order[0]));
    assert(order[0] == face);
    assert(order.last() == face);
    assert(order.drop_last().len() == 0);
    assert(offered::<S, WIDTH, HEIGHT>(order.drop_last(), index, before, shader, globals)
        == before);
    lemma_drawn_over_offers::<S, WIDTH, HEIGHT>(face, index, before, shader, globals);
}

/// The nearest fragment wins, in whatever order the triangles are drawn:
/// where a triangle has a fragment for a pixel that is strictly nearer
/// than what the pixel held, and every triangle's fragment for the pixel
/// is that fragment or is strictly farther, the pixel ends as that
/// fragment.
pub proof fn lemma_nearest_wins<S: PixelShader + ?Sized, const WIDTH: usize, const HEIGHT: usize>(
    faces: Seq<FaceData2D>,
    winner: int,
    index: int,
    before: (Float3, Scalar),
    after: (Float3, Scalar),
    shader: &S,
    globals: ShaderGlobals,
)
    requires
        drawn_by::<S, WIDTH, HEIGHT>(faces, index, before, after, shader, globals),
        0 <= winner < faces.len(),
        shaded::<S, WIDTH, HEIGHT>(faces[winner], index, shader, globals) matches Some(nearest)
            && nearest.1.raw < before.1.raw && forall|k: int|
            0 <= k < faces.len() ==> (#[trigger] shaded::<S, WIDTH, HEIGHT>(
                faces[k],
                index,
                shader,
                globals,
            ) matches Some(other) ==> other == nearest || other.1.raw > nearest.1.raw),
    ensures
        Some(after) == shaded::<S, WIDTH, HEIGHT>(faces[winner], index, shader, globals),
{
    lemma_drawn_by::<S, WIDTH, HEIGHT>(faces, index, before, after, shader, globals);
}

/// Whether the buffer `after` is the buffer `before` with `face` drawn over
/// every pixel.
pub open spec fn face_drawn<S: PixelShader + ?Sized, const WIDTH: usize, const HEIGHT: usize>(
    face: FaceData2D,
    before: RenderBuffer<WIDTH, HEIGHT>,
    after: RenderBuffer<WIDTH, HEIGHT>,
    shader: &S,
    globals: ShaderGlobals,
) -> bool {
    forall|i: int|
        0 <= i < WIDTH * HEIGHT ==> #[trigger] after.pixel(i) == drawn_over::<S, WIDTH, HEIGHT>(
            face,
            i,
            before.pixel(i),
            shader,
            globals,
        )
}

/// Whether every pixel of the buffer `after` is what drawing the triangles
/// `faces` over the same pixel of `before` leaves, in some order.
pub open spec fn faces_drawn<S: PixelShader + ?Sized, const WIDTH: usize, const HEIGHT: usize>(
    faces: Seq<FaceData2D>,
    before: RenderBuffer<WIDTH, HEIGHT>,
    after: RenderBuffer<WIDTH, HEIGHT>,
    shader: &S,
    globals: ShaderGlobals,
) -> bool {
    forall|i: int|
        0 <= i < WIDTH * HEIGHT ==> drawn_by::<S, WIDTH, HEIGHT>(
            faces,
            i,
            before.pixel(i),
            #[trigger] after.pixel(i),
            shader,
            globals,
        )
}

fn draw_prepared<S: PixelShader + ?Sized, const WIDTH: usize, const HEIGHT: usize>(
    face: &FaceData2D,
    prepared: &(Tri<Scalar>, Tri<Float2>, Tri<Float3>),
    x: usize,
    y: usize,
    buffer: &mut RenderBuffer<WIDTH, HEIGHT>,
    shader: &S,
    globals: &ShaderGlobals,
)
    requires
        is_prepared(*face, *prepared),
        old(buffer).wf(),
        x < WIDTH,
        y < HEIGHT,
    ensures
        final(buffer).wf(),
        final(buffer).pixel(y * WIDTH + x) == pixel_after(
            *face,
            x as int,
            y as int,
            old(buffer).pixel(y * WIDTH + x),
            shader,
            *globals,
        ),
        forall|j: int|
            0 <= j < WIDTH * HEIGHT && j != y * WIDTH + x ==> #[trigger] final(buffer).pixel(j)
                == old(buffer).pixel(j),
{
    let p = Float2::new(Scalar::from_index(x), Scalar::from_index(y));
    match face.vertices.to_barycentric(p) {
        None => {},
        Some(weights) => {
            let depth = Scalar::one().div(weights.mul(&prepared.0).sum());
            let cells: usize = buffer.pixels.len();
            proof {
                crate::grid::lemma_row_major_bound(
                    y as int,
                    x as int,
                    WIDTH as int,
                    HEIGHT as int,
                );
                assert(y * WIDTH + x < cells);
            }
            let idx: usize = y * WIDTH + x;
            let current = buffer.read(idx);
            match shade_prepared(face, prepared, p, &weights, depth, current, shader, globals) {
                Some(pixel) => {
                    buffer.write(idx, pixel);
                },
                None => {},
            }
        },
    }
}

/// What happens to a pixel under its lock: the fragment is offered to what
/// the pixel holds.
fn offer_held<S: PixelShader + ?Sized>(
    guard: &mut PixelGuard<'_>,
    face: &FaceData2D,
    prepared: &(Tri<Scalar>, Tri<Float2>, Tri<Float3>),
    p: Float2,
    weights: &Tri<Scalar>,
    depth: Scalar,
    shader: &S,
    globals: &ShaderGlobals,
)
    requires
        is_prepared(*face, *prepared),
    ensures
        held(*final(guard)) == crate::render_buffer::offer(
            held(*old(guard)),
            shader.color_spec(
                p,
                face.uv_at(*weights, depth),
                face.normal_at(*weights, depth),
                depth,
                *globals,
            ),
            depth,
        ),
{
    let current = read_pixel(guard);
    match shade_prepared(face, prepared, p, weights, depth, current, shader, globals) {
        Some(pixel) => {
            write_pixel(guard, pixel);
        },
        None => {},
    }
}

/// One pixel of one triangle, drawn by one of several threads: where the
/// pixel lies inside the triangle, takes the pixel's lock, tests the depth,
/// and writes colour and depth together where the fragment is strictly
/// nearer.
fn draw_shared<S: PixelShader + ?Sized, const WIDTH: usize, const HEIGHT: usize>(
    face: &FaceData2D,
    prepared: &(Tri<Scalar>, Tri<Float2>, Tri<Float3>),
    x: usize,
    y: usize,
    shared: &SharedPixels<'_, WIDTH, HEIGHT>,
    shader: &S,
    globals: &ShaderGlobals,
)
    requires
        is_prepared(*face, *prepared),
        WIDTH * HEIGHT <= usize::MAX,
        x < WIDTH,
        y < HEIGHT,
{
    let p = Float2::new(Scalar::from_index(x), Scalar::from_index(y));
    match face.vertices.to_barycentric(p) {
        None => {},
        Some(weights) => {
            let depth = Scalar::one().div(weights.mul(&prepared.0).sum());
            proof {
                crate::grid::lemma_row_major_bound(
                    y as int,
                    x as int,
                    WIDTH as int,
                    HEIGHT as int,
                );
            }
            let idx: usize = y * WIDTH + x;
            let mut guard = lock_pixel(shared, idx);
            offer_held(&mut guard, face, prepared, p, &weights, depth, shader, globals);
        },
    }
}

/// One triangle, drawn by one of several threads: walks the pixels of its
/// box row by row and draws each under its lock.
fn rasterize_face_shared<S: PixelShader + ?Sized, const WIDTH: usize, const HEIGHT: usize>(
    face: &FaceData2D,
    shared: &SharedPixels<'_, WIDTH, HEIGHT>,
    shader: &S,
    globals: &ShaderGlobals,
)
    requires
        WIDTH * HEIGHT <= usize::MAX,
        WIDTH > 0,
        HEIGHT > 0,
{
    let (start_x, start_y, end_x, end_y) = face.vertices.bbox::<WIDTH, HEIGHT>();
    let prepared = prepare(face);
    let mut y: usize = start_y;
    while y <= end_y
        invariant
            is_prepared(*face, prepared),
            WIDTH * HEIGHT <= usize::MAX,
            start_x <= end_x < WIDTH,
            end_y < HEIGHT,
            y <= end_y + 1,
        decreases end_y + 1 - y,
    {
        let mut x: usize = start_x;
        while x <= end_x
            invariant
                is_prepared(*face, prepared),
                WIDTH * HEIGHT <= usize::MAX,
                end_x < WIDTH,
                y <= end_y < HEIGHT,
                x <= end_x + 1,
            decreases end_x + 1 - x,
        {
            draw_shared(face, &prepared, x, y, shared, shader, globals);
            x += 1;
        }
        y += 1;
    }
}

/// The depth test and, where it passes, the shading of one fragment.
///
/// `current` is what the pixel holds, `weights` and `depth` are those of
/// the triangle at the pixel.  Returns what the pixel is to hold instead,
/// or `None` where the fragment is not strictly nearer: then the shader is
/// not called and the pixel stays as it is.
pub fn shade_if_nearer<S: PixelShader + ?Sized>(
    face: &FaceData2D,
    p: Float2,
    weights: &Tri<Scalar>,
    depth: Scalar,
    current: (Float3, Scalar),
    shader: &S,
    globals: &ShaderGlobals,
) -> (r: Option<(Float3, Scalar)>)
    ensures
        r.is_some() == (depth.raw < current.1.raw),
        r matches Some(pixel) ==> pixel == (
            shader.color_spec(
                p,
                face.uv_at(*weights, depth),
                face.normal_at(*weights, depth),
                depth,
                *globals,
            ),
            depth,
        ),
{
    let prepared = prepare(face);
    shade_prepared(face, &prepared, p, weights, depth, current, shader, globals)
}

/// Stage B on one pixel of one triangle: where the pixel lies inside the
/// triangle and the fragment is strictly nearer than what the pixel
/// holds, the pixel gets the shaded colour and the depth of the fragment.
/// Every other pixel stays as it is.
pub fn rasterize_pixel<S: PixelShader + ?Sized, const WIDTH: usize, const HEIGHT: usize>(
    face: &FaceData2D,
    x: usize,
    y: usize,
    buffer: &mut RenderBuffer<WIDTH, HEIGHT>,
    shader: &S,
    globals: &ShaderGlobals,
)
    requires
        old(buffer).wf(),
        x < WIDTH,
        y < HEIGHT,
    ensures
        final(buffer).wf(),
        final(buffer).pixel(y * WIDTH + x) == pixel_after(
            *face,
            x as int,
            y as int,
            old(buffer).pixel(y * WIDTH + x),
            shader,
            *globals,
        ),
        forall|j: int|
            0 <= j < WIDTH * HEIGHT && j != y * WIDTH + x ==> #[trigger] final(buffer).pixel(j)
                == old(buffer).pixel(j),
{
    let prepared = prepare(face);
    draw_prepared(face, &prepared, x, y, buffer, shader, globals);
}

/// Whether the pixel `index` has been drawn when the walk over the box of
/// `face` stands at column `x` of row `y`.
spec fn visited<const WIDTH: usize, const HEIGHT: usize>(
    face: FaceData2D,
    index: int,
    x: int,
    y: int,
) -> bool {
    let col = index % (WIDTH as int);
    let row = index / (WIDTH as int);
    in_box::<WIDTH, HEIGHT>(face, col, row) && (row < y || (row == y && col < x))
}

/// Stage B on one triangle: walks the pixels of its bounding box, limited
/// to the viewport, row by row, and draws each as [`rasterize_pixel`]
/// does.  Pixels outside the box stay as they are.
pub fn rasterize_face<S: PixelShader + ?Sized, const WIDTH: usize, const HEIGHT: usize>(
    face: &FaceData2D,
    buffer: &mut RenderBuffer<WIDTH, HEIGHT>,
    shader: &S,
    globals: &ShaderGlobals,
)
    requires
        old(buffer).wf(),
        WIDTH > 0,
        HEIGHT > 0,
    ensures
        final(buffer).wf(),
        face_drawn(*face, *old(buffer), *final(buffer), shader, *globals),
{
    let (start_x, start_y, end_x, end_y) = face.vertices.bbox::<WIDTH, HEIGHT>();
    let prepared = prepare(face);
    let mut y: usize = start_y;
    while y <= end_y
        invariant
            is_prepared(*face, prepared),
            buffer.wf(),
            WIDTH > 0,
            HEIGHT > 0,
            (start_x as int, start_y as int, end_x as int, end_y as int)
                == face.vertices.bbox_spec::<WIDTH, HEIGHT>(),
            start_x <= end_x < WIDTH,
            start_y <= y <= end_y + 1,
            end_y < HEIGHT,
            forall|i: int|
                0 <= i < WIDTH * HEIGHT ==> #[trigger] buffer.pixel(i) == if visited::<
                    WIDTH,
                    HEIGHT,
                >(*face, i, start_x as int, y as int) {
                    pixel_after(
                        *face,
                        i % (WIDTH as int),
                        i / (WIDTH as int),
                        old(buffer).pixel(i),
                        shader,
                        *globals,
                    )
                } else {
                    old(buffer).pixel(i)
                },
        decreases end_y + 1 - y,
    {
        let mut x: usize = start_x;
        while x <= end_x
            invariant
                is_prepared(*face, prepared),
                buffer.wf(),
                WIDTH > 0,
                HEIGHT > 0,
                (start_x as int, start_y as int, end_x as int, end_y as int)
                    == face.vertices.bbox_spec::<WIDTH, HEIGHT>(),
                start_x <= x <= end_x + 1,
                end_x < WIDTH,
                start_y <= y <= end_y < HEIGHT,
                forall|i: int|
                    0 <= i < WIDTH * HEIGHT ==> #[trigger] buffer.pixel(i) == if visited::<
                        WIDTH,
                        HEIGHT,
                    >(*face, i, x as int, y as int) {
                        pixel_after(
                            *face,
                            i % (WIDTH as int),
                            i / (WIDTH as int),
                            old(buffer).pixel(i),
                            shader,
                            *globals,
                        )
                    } else {
                        old(buffer).pixel(i)
                    },
            decreases end_x + 1 - x,
        {
            let ghost before = *buffer;
            proof {
                crate::grid::lemma_row_major(y as int, x as int, WIDTH as int);
                crate::grid::lemma_row_major_bound(
                    y as int,
                    x as int,
                    WIDTH as int,
                    HEIGHT as int,
                );
            }
            draw_prepared(face, &prepared, x, y, buffer, shader, globals);
            proof {
                assert forall|i: int| 0 <= i < WIDTH * HEIGHT implies #[trigger] buffer.pixel(i)
                    == if visited::<WIDTH, HEIGHT>(*face, i, x + 1, y as int) {
                    pixel_after(
                        *face,
                        i % (WIDTH as int),
                        i / (WIDTH as int),
                        old(buffer).pixel(i),
                        shader,
                        *globals,
                    )
                } else {
                    old(buffer).pixel(i)
                } by {
                    if i == y * WIDTH + x {
                        assert(!visited::<WIDTH, HEIGHT>(*face, i, x as int, y as int));
                        assert(before.pixel(i) == old(buffer).pixel(i));
                    } else {
                        assert(buffer.pixel(i) == before.pixel(i));
                        if i / (WIDTH as int) == y && i % (WIDTH as int) == x {
                            vstd::arithmetic::div_mod::lemma_fundamental_div_mod(i, WIDTH as int);
                        }
                    }
                }
            }
            x += 1;
        }
        proof {
            assert forall|i: int| 0 <= i < WIDTH * HEIGHT implies (visited::<WIDTH, HEIGHT>(
                *face,
                i,
                x as int,
                y as int,
            ) == visited::<WIDTH, HEIGHT>(*face, i, start_x as int, y + 1)) by {}
        }
        y += 1;
    }
}

/// Stage A on a whole mesh with `rayon`: `par_iter`, `filter_map` with
/// [`project_face`] and `collect` into a vector.  `rayon` hands each
/// triangle to the closure once and collects every result, so the vector
/// holds what [`project_mesh_spec`] lists; the contract claims this as
/// multisets and claims no order.
#[verifier::external_body]
fn project_faces<const WIDTH: usize, const HEIGHT: usize>(
    faces: &Vec<FaceData3D>,
    vert_to_cam: &Transform,
    cam_model: &CameraModel<WIDTH, HEIGHT>,
) -> (r: Vec<FaceData2D>)
    ensures
        r@.to_multiset() == project_mesh_spec(faces@, vert_to_cam@, *cam_model).to_multiset(),
{
    faces.par_iter().filter_map(|face| project_face(face, vert_to_cam, cam_model)).collect()
}

/// Stage B on a list of triangles with `rayon`: `par_iter` and `for_each`
/// with [`rasterize_face_shared`], on the cells of the buffer, which is
/// borrowed exclusively for as long as the threads run.
///
/// `rayon` hands each triangle to the closure once and returns when every
/// call has returned.  A pixel is read and written under its lock, so the
/// triangles take turns at it; each leaves what `offer_held` says, which
/// is what [`drawn_over`] says.  So every pixel ends as if the triangles had
/// been drawn over it one after the other, in an order that the contract
/// leaves open.
#[verifier::external_body]
fn rasterize_faces<S: PixelShader + ?Sized, const WIDTH: usize, const HEIGHT: usize>(
    faces: &Vec<FaceData2D>,
    buffer: &mut RenderBuffer<WIDTH, HEIGHT>,
    shader: &S,
    globals: &ShaderGlobals,
)
    requires
        old(buffer).wf(),
        WIDTH > 0,
        HEIGHT > 0,
    ensures
        final(buffer).wf(),
        faces_drawn(faces@, *old(buffer), *final(buffer), shader, *globals),
{
    let shared = SharedPixels::<WIDTH, HEIGHT> { cells: &buffer.pixels };
    faces.par_iter().for_each(|face| rasterize_face_shared(face, &shared, shader, globals));
}

/// Stage A on an entity: the triangles of its mesh that survive, on the
/// screen of a camera at the node `cam_pose`.  An error where the pose of
/// the entity or of the camera has a cycle among its ancestors, or where
/// the camera's world transform cannot be inverted.
pub fn to_screen_space<S: PixelShader + ?Sized, const WIDTH: usize, const HEIGHT: usize>(
    graph: &PoseGraph,
    entity: &Entity<S>,
    cam_model: &CameraModel<WIDTH, HEIGHT>,
    cam_pose: usize,
) -> (r: Result<Vec<FaceData2D>, PoseError>)
    requires
        graph.wf(),
        entity.pose < graph@.len(),
        cam_pose < graph@.len(),
    ensures
        match relative_of(graph@, entity.pose as int, cam_pose as int) {
            Ok(vert_to_cam) => r matches Ok(faces) && faces@.to_multiset() == project_mesh_spec(
                entity.mesh.data@,
                vert_to_cam,
                *cam_model,
            ).to_multiset(),
            Err(e) => r == Err::<Vec<FaceData2D>, PoseError>(e),
        },
{
    match graph.relative_transform(entity.pose, cam_pose) {
        Ok(vert_to_cam) => Ok(project_faces(&entity.mesh.data, &vert_to_cam, cam_model)),
        Err(e) => Err(e),
    }
}

/// The entities of `scene`, by index, that cannot be placed in front of
/// its camera, each with the reason, in the order of the scene.
pub open spec fn unplaced<S: PixelShader + ?Sized, const WIDTH: usize, const HEIGHT: usize>(
    scene: &SceneData<S, WIDTH, HEIGHT>,
    upto: int,
) -> Seq<(usize, PoseError)>
    decreases upto,
{
    if upto <= 0 {
        Seq::empty()
    } else {
        let rest = unplaced(scene, upto - 1);
        match relative_of(
            scene.graph@,
            scene.entities@[upto - 1].1.pose as int,
            scene.cam_pose as int,
        ) {
            Ok(_) => rest,
            Err(e) => rest.push(((upto - 1) as usize, e)),
        }
    }
}

/// Whether `after` is what the pixel `index` holds once the entity `k` of
/// the scene has been drawn over `before`: the triangles of its mesh that
/// survive Stage A, drawn in some order, or nothing where the entity
/// cannot be placed.
pub open spec fn entity_drawn<S: PixelShader + ?Sized, const WIDTH: usize, const HEIGHT: usize>(
    scene: &SceneData<S, WIDTH, HEIGHT>,
    k: int,
    index: int,
    before: (Float3, Scalar),
    after: (Float3, Scalar),
) -> bool {
    let entity = scene.entities@[k].1;
    match relative_of(scene.graph@, entity.pose as int, scene.cam_pose as int) {
        Err(_) => after == before,
        Ok(vert_to_cam) => drawn_by::<S, WIDTH, HEIGHT>(
            project_mesh_spec(entity.mesh.data@, vert_to_cam, scene.cam_model),
            index,
            before,
            after,
            &*entity.shader,
            scene.globals,
        ),
    }
}

/// Whether `after` is what the pixel `index` holds once the first `upto`
/// entities of the scene have been drawn over `before`, one entity after
/// the other.
pub open spec fn scene_drawn<S: PixelShader + ?Sized, const WIDTH: usize, const HEIGHT: usize>(
    scene: &SceneData<S, WIDTH, HEIGHT>,
    upto: int,
    index: int,
    before: (Float3, Scalar),
    after: (Float3, Scalar),
) -> bool
    decreases upto,
{
    if upto <= 0 {
        after == before
    } else {
        exists|mid: (Float3, Scalar)|
            scene_drawn(scene, upto - 1, index, before, mid) && #[trigger] entity_drawn(
                scene,
                upto - 1,
                index,
                mid,
                after,
            )
    }
}

/// Whether `fragment` is the shaded fragment that a surviving triangle of
/// one of the first `upto` entities of the scene has for the pixel
/// `index`.
pub open spec fn scene_shades<S: PixelShader + ?Sized, const WIDTH: usize, const HEIGHT: usize>(
    scene: &SceneData<S, WIDTH, HEIGHT>,
    upto: int,
    index: int,
    fragment: (Float3, Scalar),
) -> bool {
    exists|k: int, j: int|
        0 <= k < upto && 0 <= j && #[trigger] entity_shades(scene, k, j, index, fragment)
}

/// Whether `fragment` is the shaded fragment that the surviving triangle
/// `j` of the entity `k` has for the pixel `index`.
pub open spec fn entity_shades<S: PixelShader + ?Sized, const WIDTH: usize, const HEIGHT: usize>(
    scene: &SceneData<S, WIDTH, HEIGHT>,
    k: int,
    j: int,
    index: int,
    fragment: (Float3, Scalar),
) -> bool {
    let entity = scene.entities@[k].1;
    match relative_of(scene.graph@, entity.pose as int, scene.cam_pose as int) {
        Err(_) => false,
        Ok(vert_to_cam) => {
            let survivors = project_mesh_spec(entity.mesh.data@, vert_to_cam, scene.cam_model);
            j < survivors.len() && shaded::<S, WIDTH, HEIGHT>(
                survivors[j],
                index,
                &*entity.shader,
                scene.globals,
            ) == Some(fragment)
        },
    }
}

/// What holds of a pixel after a scene has been drawn, whatever the
/// threads did in which order: its depth has not grown, and it is as it
/// was or it is the shaded fragment of a surviving triangle of the scene,
/// colour and depth together, strictly nearer than what the pixel held.
pub proof fn lemma_scene_drawn<S: PixelShader + ?Sized, const WIDTH: usize, const HEIGHT: usize>(
    scene: &SceneData<S, WIDTH, HEIGHT>,
    upto: int,
    index: int,
    before: (Float3, Scalar),
    after: (Float3, Scalar),
)
    requires
        scene_drawn(scene, upto, index, before, after),
    ensures
        after.1.raw <= before.1.raw,
        after == before || (after.1.raw < before.1.raw && scene_shades(
            scene,
            upto,
            index,
            after,
        )),
    decreases upto,
{
    if upto > 0 {
        let mid = choose|mid: (Float3, Scalar)|
            scene_drawn(scene, upto - 1, index, before, mid) && #[trigger] entity_drawn(
                scene,
                upto - 1,
                index,
                mid,
                after,
            );
        lemma_scene_drawn(scene, upto - 1, index, before, mid);
        let entity = scene.entities@[upto - 1].1;
        match relative_of(scene.graph@, entity.pose as int, scene.cam_pose as int) {
            Err(_) => {},
            Ok(vert_to_cam) => {
                let survivors = project_mesh_spec(
                    entity.mesh.data@,
                    vert_to_cam,
                    scene.cam_model,
                );
                lemma_drawn_by::<S, WIDTH, HEIGHT>(
                    survivors,
                    index,
                    mid,
                    after,
                    &*entity.shader,
                    scene.globals,
                );
                if after != mid {
                    let j = choose|j: int|
                        0 <= j < survivors.len() && #[trigger] shaded::<S, WIDTH, HEIGHT>(
                            survivors[j],
                            index,
                            &*entity.shader,
                            scene.globals,
                        ) == Some(after);
                    assert(entity_shades(scene, upto - 1, j, index, after));
                }
            },
        }
        if after == mid && mid != before {
            let (k, j) = choose|k: int, j: int|
                0 <= k < upto - 1 && 0 <= j && #[trigger] entity_shades(scene, k, j, index, mid);
            assert(entity_shades(scene, k, j, index, after));
        }
    }
}

/// A scene of one entity is drawn as that entity is.
pub proof fn lemma_scene_of_one<S: PixelShader + ?Sized, const WIDTH: usize, const HEIGHT: usize>(
    scene: &SceneData<S, WIDTH, HEIGHT>,
    index: int,
    before: (Float3, Scalar),
    after: (Float3, Scalar),
)
    requires
        scene_drawn(scene, 1, index, before, after),
    ensures
        entity_drawn(scene, 0, index, before, after),
{
    let mid = choose|mid: (Float3, Scalar)|
        scene_drawn(scene, 0, index, before, mid) && #[trigger] entity_drawn(
            scene,
            0,
            index,
            mid,
            after,
        );
    assert(mid == before);
}

/// Whether every pixel of the buffer `after` is what drawing the first
/// `upto` entities of the scene over the same pixel of `before` leaves.
pub open spec fn scene_rendered<S: PixelShader + ?Sized, const WIDTH: usize, const HEIGHT: usize>(
    scene: &SceneData<S, WIDTH, HEIGHT>,
    upto: int,
    before: RenderBuffer<WIDTH, HEIGHT>,
    after: RenderBuffer<WIDTH, HEIGHT>,
) -> bool {
    forall|i: int|
        0 <= i < WIDTH * HEIGHT ==> scene_drawn(
            scene,
            upto,
            i,
            before.pixel(i),
            #[trigger] after.pixel(i),
        )
}

/// Draws every entity of the scene into the buffer: Stage A, then Stage B
/// with the entity's shader.  An entity whose transform to the camera
/// cannot be computed is left out and reported; the others are drawn all
/// the same.  The buffer is not cleared first: every pixel ends as what
/// drawing the surviving triangles over what it held leaves, entity by
/// entity.
pub fn rasterize_scene<S: PixelShader + ?Sized, const WIDTH: usize, const HEIGHT: usize>(
    data: &SceneData<S, WIDTH, HEIGHT>,
    buffer: &mut RenderBuffer<WIDTH, HEIGHT>,
) -> (r: Vec<(usize, PoseError)>)
    requires
        data.wf(),
        old(buffer).wf(),
        WIDTH > 0,
        HEIGHT > 0,
    ensures
        r@ == unplaced(data, data.entities@.len() as int),
        final(buffer).wf(),
        scene_rendered(data, data.entities@.len() as int, *old(buffer), *final(buffer)),
{
    let mut failed: Vec<(usize, PoseError)> = Vec::new();
    let count: usize = data.entities.len();
    let mut i: usize = 0;
    while i < count
        invariant
            data.wf(),
            buffer.wf(),
            WIDTH > 0,
            HEIGHT > 0,
            count == data.entities@.len(),
            i <= count,
            failed@ == unplaced(data, i as int),
            scene_rendered(data, i as int, *old(buffer), *buffer),
        decreases count - i,
    {
        let entity = &data.entities[i].1;
        let ghost before = *buffer;
        match to_screen_space(&data.graph, entity, &data.cam_model, data.cam_pose) {
            Ok(screen_tris) => {
                rasterize_faces(&screen_tris, buffer, &*entity.shader, &data.globals);
                proof {
                    let placed = relative_of(
                        data.graph@,
                        entity.pose as int,
                        data.cam_pose as int,
                    );
                    let survivors = project_mesh_spec(
                        entity.mesh.data@,
                        placed->Ok_0,
                        data.cam_model,
                    );
                    assert forall|k: int| 0 <= k < WIDTH * HEIGHT implies entity_drawn(
                        data,
                        i as int,
                        k,
                        before.pixel(k),
                        #[trigger] buffer.pixel(k),
                    ) by {
                        assert(drawn_by::<S, WIDTH, HEIGHT>(
                            screen_tris@,
                            k,
                            before.pixel(k),
                            buffer.pixel(k),
                            &*entity.shader,
                            data.globals,
                        ));
                        let order = choose|order: Seq<FaceData2D>|
                            #[trigger] order.to_multiset() == screen_tris@.to_multiset()
                                && buffer.pixel(k) == offered::<S, WIDTH, HEIGHT>(
                                order,
                                k,
                                before.pixel(k),
                                &*entity.shader,
                                data.globals,
                            );
                        assert(order.to_multiset() == survivors.to_multiset());
                    }
                }
            },
            Err(e) => {
                failed.push((i, e));
                proof {
                    assert forall|k: int| 0 <= k < WIDTH * HEIGHT implies entity_drawn(
                        data,
                        i as int,
                        k,
                        before.pixel(k),
                        #[trigger] buffer.pixel(k),
                    ) by {}
                }
            },
        }
        proof {
            assert forall|k: int| 0 <= k < WIDTH * HEIGHT implies scene_drawn(
                data,
                i + 1,
                k,
                old(buffer).pixel(k),
                #[trigger] buffer.pixel(k),
            ) by {
                let upto = i + 1;
                let prev = upto - 1;
                assert(scene_drawn(data, prev, k, old(buffer).pixel(k), before.pixel(k)));
                assert(entity_drawn(data, prev, k, before.pixel(k), buffer.pixel(k)));
                assert(scene_drawn(data, upto, k, old(buffer).pixel(k), buffer.pixel(k)));
            }
        }
        i += 1;
    }
    failed
}

} // verus!
