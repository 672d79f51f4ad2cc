//! Projection from camera space to the screen.
use vstd::prelude::*;
use crate::scalar::Scalar;
use crate::primitives::float2::Float2;
use crate::primitives::float3::Float3;
use crate::primitives::triangle::Tri;

verus! {

/// A right-handed camera that looks down its negative third axis onto a
/// viewport of `WIDTH` by `HEIGHT` pixels.
///
/// `screen_height` is the height of the view in world units: at distance
/// one for a perspective camera, at every distance for an orthographic one.
#[derive(Clone, Copy, Debug)]
pub struct CameraModel<const WIDTH: usize, const HEIGHT: usize> {
    pub screen_height: Scalar,
    pub perspective: bool,
}

impl<const WIDTH: usize, const HEIGHT: usize> CameraModel<WIDTH, HEIGHT> {
    /// The middle of the viewport.
    pub open spec fn center_spec() -> Float2 {
        Float2::new(Scalar::from_index_spec(WIDTH as int), Scalar::from_index_spec(HEIGHT as int))
            .shrink(Scalar::from_int_spec(2))
    }

    /// Pixels per world unit at the depth of `p`: the viewport height
    /// divided by the height of the view, and for a perspective camera by
    /// the distance of `p` in front of it.
    pub open spec fn density_spec(self, p: Float3) -> Scalar {
        let flat = Scalar::from_index_spec(HEIGHT as int).div(self.screen_height);
        if self.perspective {
            flat.div(p.z.neg())
        } else {
            flat
        }
    }

    /// Where the camera-space point `p` lands on the screen.  Row 0 is the
    /// top row, so the second axis is flipped.
    pub open spec fn point_to_screen_spec(self, p: Float3) -> Float2 {
        Self::center_spec().add(Float2::new(p.x, p.y.neg()).scale(self.density_spec(p)))
    }

    /// A camera whose view is `2 · half_height` world units high: for a
    /// perspective camera `half_height` is the tangent of half the field of
    /// view, for an orthographic one half the height of the visible slab.
    pub fn new(half_height: Scalar, perspective: bool) -> (r: Self)
        ensures
            r.screen_height == Scalar::from_int_spec(2).mul(half_height),
            r.perspective == perspective,
    {
        CameraModel { screen_height: Scalar::from_int(2).mul(half_height), perspective }
    }

    /// The middle of the viewport.
    pub fn center() -> (r: Float2)
        ensures
            r == Self::center_spec(),
    {
        Float2::new(Scalar::from_index(WIDTH), Scalar::from_index(HEIGHT)).shrink(
            Scalar::from_int(2),
        )
    }

    /// Where the camera-space point `p` lands on the screen.
    pub fn point_to_screen(&self, p: Float3) -> (r: Float2)
        ensures
            r == self.point_to_screen_spec(p),
    {
        let center = Self::center();
        let mut pixels_per_world_unit = Scalar::from_index(HEIGHT).div(self.screen_height);
        if self.perspective {
            pixels_per_world_unit = pixels_per_world_unit.div(p.z.neg());
        }
        center.add(Float2::new(p.x, p.y.neg()).scale(pixels_per_world_unit))
    }

    /// [`CameraModel::point_to_screen`] on each corner.  Nothing is clipped.
    pub fn tri_to_screen(&self, tri: &Tri<Float3>) -> (r: Tri<Float2>)
        ensures
            r.vertices[0] == self.point_to_screen_spec(tri.vertices[0]),
            r.vertices[1] == self.point_to_screen_spec(tri.vertices[1]),
            r.vertices[2] == self.point_to_screen_spec(tri.vertices[2]),
    {
        Tri::new(
            self.point_to_screen(tri.vertices[0]),
            self.point_to_screen(tri.vertices[1]),
            self.point_to_screen(tri.vertices[2]),
        )
    }

    /// A point on the axis that the camera looks along lands exactly on the
    /// middle of the viewport, at every distance, for a perspective and for
    /// an orthographic camera.
    pub proof fn lemma_axis_projects_to_center(self, z: Scalar)
        ensures
            self.point_to_screen_spec(Float3::new(Scalar::zero(), Scalar::zero(), z))
                == Self::center_spec(),
    {
        let p = Float3::new(Scalar::zero(), Scalar::zero(), z);
        let k = self.density_spec(p);
        assert(0int * k.raw == 0) by (nonlinear_arith);
        assert(Scalar::zero().mul(k) == Scalar::zero());
        assert(Scalar::zero().neg() == Scalar::zero());
    }
}

} // verus!
