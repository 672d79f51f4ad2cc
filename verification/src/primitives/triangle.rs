//! Three vertices of one attribute.
use vstd::prelude::*;
use crate::scalar::{
    lemma_div_self, lemma_mul_small, lemma_mul_zero, lemma_trunc_div_error, within_limit, Scalar,
    ONE_RAW,
};
use crate::primitives::float2::Float2;
use crate::primitives::float3::Float3;

verus! {

/// Raw value of one millionth, the signed area below which a screen
/// triangle is dropped.
pub const CULL_EPSILON_RAW: i64 = 4295;

/// Exactly three values of an attribute: positions, normals, texture
/// coordinates, depths or weights, one for each corner of a triangle.
#[derive(Clone, Copy, Debug)]
pub struct Tri<T> {
    pub vertices: [T; 3],
}

/// An index limited to the last valid one of a row of `len` cells.
pub open spec fn clamp_index(i: int, len: int) -> int {
    if i > len - 1 {
        len - 1
    } else {
        i
    }
}

/// Whether three signed areas lie on the same side of zero: none of them
/// is negative, or none of them is positive.  Zero sides with either, so
/// a point on an edge or a corner is inside whichever way the triangle is
/// wound.
pub open spec fn signs_agree(abp: Scalar, bcp: Scalar, cap: Scalar) -> bool {
    (abp.raw >= 0 && bcp.raw >= 0 && cap.raw >= 0) || (abp.raw <= 0 && bcp.raw <= 0 && cap.raw
        <= 0)
}

impl<T> Tri<T> {
    /// The triangle with the corners `v0`, `v1`, `v2`, in that order.
    #[verifier::when_used_as_spec(new_spec)]
    pub fn new(v0: T, v1: T, v2: T) -> (r: Self)
        ensures
            r == Self::new_spec(v0, v1, v2),
            r.vertices[0] == v0,
            r.vertices[1] == v1,
            r.vertices[2] == v2,
    {
        Tri { vertices: [v0, v1, v2] }
    }

    pub open spec fn new_spec(v0: T, v1: T, v2: T) -> Self {
        Tri { vertices: [v0, v1, v2] }
    }

    /// Corner `i`.
    pub fn get(&self, i: usize) -> (r: &T)
        requires
            i < 3,
        ensures
            *r == self.vertices[i as int],
    {
        &self.vertices[i]
    }

    /// Replaces corner `i`.
    pub fn set(&mut self, i: usize, v: T)
        requires
            i < 3,
        ensures
            final(self).vertices[i as int] == v,
            forall|j: int| 0 <= j < 3 && j != i ==> final(self).vertices[j] == old(self).vertices[j],
    {
        self.vertices[i] = v;
    }
}

impl Tri<Scalar> {
    pub open spec fn sum_spec(self) -> Scalar {
        self.vertices[0].add(self.vertices[1]).add(self.vertices[2])
    }

    /// Corner-wise product.
    pub open spec fn mul_spec(self, rhs: Tri<Scalar>) -> Tri<Scalar> {
        Tri {
            vertices: [
                self.vertices[0].mul(rhs.vertices[0]),
                self.vertices[1].mul(rhs.vertices[1]),
                self.vertices[2].mul(rhs.vertices[2]),
            ],
        }
    }

    /// Corner-wise quotient.
    pub open spec fn div_spec(self, rhs: Tri<Scalar>) -> Tri<Scalar> {
        Tri {
            vertices: [
                self.vertices[0].div(rhs.vertices[0]),
                self.vertices[1].div(rhs.vertices[1]),
                self.vertices[2].div(rhs.vertices[2]),
            ],
        }
    }

    /// Sum of the three corners, added in order.
    pub fn sum(&self) -> (r: Scalar)
        ensures
            r == self.sum_spec(),
    {
        self.vertices[0].add(self.vertices[1]).add(self.vertices[2])
    }

    /// Corner-wise sum.
    pub fn add(&self, rhs: &Tri<Scalar>) -> (r: Tri<Scalar>)
        ensures
            r.vertices[0] == self.vertices[0].add(rhs.vertices[0]),
            r.vertices[1] == self.vertices[1].add(rhs.vertices[1]),
            r.vertices[2] == self.vertices[2].add(rhs.vertices[2]),
    {
        Tri {
            vertices: [
                self.vertices[0].add(rhs.vertices[0]),
                self.vertices[1].add(rhs.vertices[1]),
                self.vertices[2].add(rhs.vertices[2]),
            ],
        }
    }

    /// Corner-wise difference.
    pub fn sub(&self, rhs: &Tri<Scalar>) -> (r: Tri<Scalar>)
        ensures
            r.vertices[0] == self.vertices[0].sub(rhs.vertices[0]),
            r.vertices[1] == self.vertices[1].sub(rhs.vertices[1]),
            r.vertices[2] == self.vertices[2].sub(rhs.vertices[2]),
    {
        Tri {
            vertices: [
                self.vertices[0].sub(rhs.vertices[0]),
                self.vertices[1].sub(rhs.vertices[1]),
                self.vertices[2].sub(rhs.vertices[2]),
            ],
        }
    }

    /// Corner-wise product.
    pub fn mul(&self, rhs: &Tri<Scalar>) -> (r: Tri<Scalar>)
        ensures
            r == self.mul_spec(*rhs),
    {
        Tri {
            vertices: [
                self.vertices[0].mul(rhs.vertices[0]),
                self.vertices[1].mul(rhs.vertices[1]),
                self.vertices[2].mul(rhs.vertices[2]),
            ],
        }
    }

    /// Corner-wise quotient.
    pub fn div(&self, rhs: &Tri<Scalar>) -> (r: Tri<Scalar>)
        ensures
            r == self.div_spec(*rhs),
    {
        Tri {
            vertices: [
                self.vertices[0].div(rhs.vertices[0]),
                self.vertices[1].div(rhs.vertices[1]),
                self.vertices[2].div(rhs.vertices[2]),
            ],
        }
    }
}

impl Tri<Float3> {
    pub open spec fn sum_spec(self) -> Float3 {
        self.vertices[0].add(self.vertices[1]).add(self.vertices[2])
    }

    /// Every corner multiplied by the scalar at the same corner of `k`.
    pub open spec fn scale_spec(self, k: Tri<Scalar>) -> Tri<Float3> {
        Tri {
            vertices: [
                self.vertices[0].scale(k.vertices[0]),
                self.vertices[1].scale(k.vertices[1]),
                self.vertices[2].scale(k.vertices[2]),
            ],
        }
    }

    /// Sum of the three corners, added in order.
    pub fn sum(&self) -> (r: Float3)
        ensures
            r == self.sum_spec(),
    {
        self.vertices[0].add(self.vertices[1]).add(self.vertices[2])
    }

    /// Every corner multiplied by the scalar at the same corner of `k`.
    pub fn scale(&self, k: &Tri<Scalar>) -> (r: Tri<Float3>)
        ensures
            r == self.scale_spec(*k),
    {
        Tri {
            vertices: [
                self.vertices[0].scale(k.vertices[0]),
                self.vertices[1].scale(k.vertices[1]),
                self.vertices[2].scale(k.vertices[2]),
            ],
        }
    }
}

impl Tri<Float2> {
    pub open spec fn sum_spec(self) -> Float2 {
        self.vertices[0].add(self.vertices[1]).add(self.vertices[2])
    }

    /// Every corner multiplied by the scalar at the same corner of `k`.
    pub open spec fn scale_spec(self, k: Tri<Scalar>) -> Tri<Float2> {
        Tri {
            vertices: [
                self.vertices[0].scale(k.vertices[0]),
                self.vertices[1].scale(k.vertices[1]),
                self.vertices[2].scale(k.vertices[2]),
            ],
        }
    }

    /// Twice the signed area of the triangle.
    pub open spec fn area_spec(self) -> Scalar {
        Float2::signed_area(self.vertices[0], self.vertices[1], self.vertices[2])
    }

    pub open spec fn should_cull_spec(self) -> bool {
        self.area_spec().raw < CULL_EPSILON_RAW
    }

    /// The three areas that `p` spans with the edges `ab`, `bc` and `ca`.
    pub open spec fn edge_areas(self, p: Float2) -> (Scalar, Scalar, Scalar) {
        let a = self.vertices[0];
        let b = self.vertices[1];
        let c = self.vertices[2];
        (Float2::signed_area(a, b, p), Float2::signed_area(b, c, p), Float2::signed_area(c, a, p))
    }

    /// Whether `p` counts as inside: the three edge areas lie on one side of
    /// zero.
    pub open spec fn covers(self, p: Float2) -> bool {
        let (abp, bcp, cap) = self.edge_areas(p);
        signs_agree(abp, bcp, cap)
    }

    /// The weights of the corners at `p`: each corner's opposite edge area
    /// divided by the sum of the three.
    pub open spec fn weights_at(self, p: Float2) -> Tri<Scalar> {
        let (abp, bcp, cap) = self.edge_areas(p);
        let total = abp.add(bcp).add(cap);
        Tri { vertices: [bcp.div(total), cap.div(total), abp.div(total)] }
    }

    /// Sum of the three corners, added in order.
    pub fn sum(&self) -> (r: Float2)
        ensures
            r == self.sum_spec(),
    {
        self.vertices[0].add(self.vertices[1]).add(self.vertices[2])
    }

    /// Every corner multiplied by the scalar at the same corner of `k`.
    pub fn scale(&self, k: &Tri<Scalar>) -> (r: Tri<Float2>)
        ensures
            r == self.scale_spec(*k),
    {
        Tri {
            vertices: [
                self.vertices[0].scale(k.vertices[0]),
                self.vertices[1].scale(k.vertices[1]),
                self.vertices[2].scale(k.vertices[2]),
            ],
        }
    }

    /// The pixel box `(min_x, min_y, max_x, max_y)` around the triangle,
    /// limited to a viewport of `WIDTH` by `HEIGHT` pixels.  Coordinates are
    /// rounded toward zero; negative ones give zero.
    pub open spec fn bbox_spec<const WIDTH: usize, const HEIGHT: usize>(self) -> (
        int,
        int,
        int,
        int,
    ) {
        (
            clamp_index(
                self.vertices[0].x.min(self.vertices[1].x).min(self.vertices[2].x).index_spec(),
                WIDTH as int,
            ),
            clamp_index(
                self.vertices[0].y.min(self.vertices[1].y).min(self.vertices[2].y).index_spec(),
                HEIGHT as int,
            ),
            clamp_index(
                self.vertices[0].x.max(self.vertices[1].x).max(self.vertices[2].x).index_spec(),
                WIDTH as int,
            ),
            clamp_index(
                self.vertices[0].y.max(self.vertices[1].y).max(self.vertices[2].y).index_spec(),
                HEIGHT as int,
            ),
        )
    }

    /// The pixel box `(min_x, min_y, max_x, max_y)` around the triangle,
    /// limited to a viewport of `WIDTH` by `HEIGHT` pixels.
    pub fn bbox<const WIDTH: usize, const HEIGHT: usize>(&self) -> (r: (usize, usize, usize, usize))
        requires
            WIDTH > 0,
            HEIGHT > 0,
        ensures
            (r.0 as int, r.1 as int, r.2 as int, r.3 as int) == self.bbox_spec::<WIDTH, HEIGHT>(),
            r.0 <= r.2 < WIDTH,
            r.1 <= r.3 < HEIGHT,
    {
        let a = self.vertices[0];
        let b = self.vertices[1];
        let c = self.vertices[2];
        let min_x = limit_index(a.x.min(b.x).min(c.x).to_index(), WIDTH);
        let min_y = limit_index(a.y.min(b.y).min(c.y).to_index(), HEIGHT);
        let max_x = limit_index(a.x.max(b.x).max(c.x).to_index(), WIDTH);
        let max_y = limit_index(a.y.max(b.y).max(c.y).to_index(), HEIGHT);
        (min_x, min_y, max_x, max_y)
    }

    /// Whether the triangle is dropped before rasterization: its signed area
    /// is below one millionth, so it is degenerate or wound the wrong way.
    pub fn should_cull(&self) -> (r: bool)
        ensures
            r == self.should_cull_spec(),
    {
        let area = Float2::signed_area(self.vertices[0], self.vertices[1], self.vertices[2]);
        area.raw < CULL_EPSILON_RAW
    }

    /// The barycentric weights of the corners at the point `p`, or `None`
    /// where `p` lies outside the triangle.  Does not depend on the winding:
    /// edges and corners are inside either way.
    pub fn to_barycentric(&self, p: Float2) -> (r: Option<Tri<Scalar>>)
        ensures
            r.is_some() == self.covers(p),
            r matches Some(w) ==> w == self.weights_at(p),
    {
        let a = self.vertices[0];
        let b = self.vertices[1];
        let c = self.vertices[2];
        let area_abp = Float2::signed_area(a, b, p);
        let area_bcp = Float2::signed_area(b, c, p);
        let area_cap = Float2::signed_area(c, a, p);
        let none_negative = area_abp.raw >= 0 && area_bcp.raw >= 0 && area_cap.raw >= 0;
        let none_positive = area_abp.raw <= 0 && area_bcp.raw <= 0 && area_cap.raw <= 0;
        if !none_negative && !none_positive {
            return None;
        }
        let total = area_abp.add(area_bcp).add(area_cap);
        Some(Tri { vertices: [area_bcp.div(total), area_cap.div(total), area_abp.div(total)] })
    }
}

fn limit_index(i: usize, len: usize) -> (r: usize)
    requires
        len > 0,
    ensures
        r == clamp_index(i as int, len as int),
{
    if i > len - 1 {
        len - 1
    } else {
        i
    }
}

/// Whether both coordinates of a screen point are within the limit under
/// which areas are computed without saturation.
pub open spec fn on_screen(p: Float2) -> bool {
    within_limit(p.x) && within_limit(p.y)
}

/// The weights that single out corner `i`.
pub open spec fn one_hot(i: int) -> Tri<Scalar> {
    Tri {
        vertices: [
            if i == 0 { Scalar::one() } else { Scalar::zero() },
            if i == 1 { Scalar::one() } else { Scalar::zero() },
            if i == 2 { Scalar::one() } else { Scalar::zero() },
        ],
    }
}

/// A triangle whose third corner is its first has no area.
pub proof fn lemma_area_back_to_start(p: Float2, q: Float2)
    ensures
        Float2::signed_area(p, q, p) == Scalar::zero(),
{
    lemma_mul_zero(q.y.sub(p.y));
    lemma_mul_zero(p.x.sub(q.x));
}

/// A triangle whose third corner is its second has no area.
pub proof fn lemma_area_repeated_corner(p: Float2, q: Float2)
    requires
        on_screen(p),
        on_screen(q),
    ensures
        Float2::signed_area(p, q, q) == Scalar::zero(),
{
    let u = q.x.sub(p.x);
    let v = q.y.sub(p.y);
    assert(p.x.sub(q.x) == u.neg());
    lemma_mul_small(u, v);
    lemma_mul_small(v, u);
}

/// The area of a triangle changes by less than four raw units when its
/// corners are taken in turn from the next one on.
pub proof fn lemma_area_turn(a: Float2, b: Float2, c: Float2)
    requires
        on_screen(a),
        on_screen(b),
        on_screen(c),
    ensures
        Float2::signed_area(a, b, c).raw - 4 < Float2::signed_area(b, c, a).raw
            < Float2::signed_area(a, b, c).raw + 4,
{
    let u1 = c.x.sub(a.x);
    let v1 = b.y.sub(a.y);
    let u2 = c.y.sub(a.y);
    let v2 = a.x.sub(b.x);
    let s1 = a.x.sub(b.x);
    let t1 = c.y.sub(b.y);
    let s2 = a.y.sub(b.y);
    let t2 = b.x.sub(c.x);
    lemma_mul_small(u1, v1);
    lemma_mul_small(u2, v2);
    lemma_mul_small(s1, t1);
    lemma_mul_small(s2, t2);
    let one = ONE_RAW as int;
    lemma_trunc_div_error(u1.raw * v1.raw, one);
    lemma_trunc_div_error(u2.raw * v2.raw, one);
    lemma_trunc_div_error(s1.raw * t1.raw, one);
    lemma_trunc_div_error(s2.raw * t2.raw, one);
    assert(u1.raw * v1.raw + u2.raw * v2.raw == s1.raw * t1.raw + s2.raw * t2.raw)
        by (nonlinear_arith)
        requires
            u1.raw == c.x.raw - a.x.raw,
            v1.raw == b.y.raw - a.y.raw,
            u2.raw == c.y.raw - a.y.raw,
            v2.raw == a.x.raw - b.x.raw,
            s1.raw == a.x.raw - b.x.raw,
            t1.raw == c.y.raw - b.y.raw,
            s2.raw == a.y.raw - b.y.raw,
            t2.raw == b.x.raw - c.x.raw,
    ;
    let first = Float2::signed_area(a, b, c).raw;
    let next = Float2::signed_area(b, c, a).raw;
    assert(first == u1.mul(v1).raw + u2.mul(v2).raw);
    assert(next == s1.mul(t1).raw + s2.mul(t2).raw);
    assert((first - next) * one < 4 * one && (next - first) * one < 4 * one) by (nonlinear_arith)
        requires
            first == u1.mul(v1).raw + u2.mul(v2).raw,
            next == s1.mul(t1).raw + s2.mul(t2).raw,
            u1.raw * v1.raw - one < u1.mul(v1).raw * one < u1.raw * v1.raw + one,
            u2.raw * v2.raw - one < u2.mul(v2).raw * one < u2.raw * v2.raw + one,
            s1.raw * t1.raw - one < s1.mul(t1).raw * one < s1.raw * t1.raw + one,
            s2.raw * t2.raw - one < s2.mul(t2).raw * one < s2.raw * t2.raw + one,
            u1.raw * v1.raw + u2.raw * v2.raw == s1.raw * t1.raw + s2.raw * t2.raw,
    ;
    assert(first - next < 4 && next - first < 4) by (nonlinear_arith)
        requires
            (first - next) * one < 4 * one,
            (next - first) * one < 4 * one,
            one > 0,
    ;
}

impl Tri<Float2> {
    /// Whether the area of the triangle is at least the cull limit in
    /// magnitude, whichever way it is wound.
    pub open spec fn has_area(self) -> bool {
        self.area_spec().raw >= CULL_EPSILON_RAW || self.area_spec().raw <= -CULL_EPSILON_RAW
    }

    /// At each of its corners, a triangle with area gives that corner the
    /// weight one and the other two the weight zero, exactly, whichever way
    /// it is wound.
    ///
    /// A triangle without area has no weights to give: the three areas at
    /// a corner are all zero.
    pub proof fn lemma_corner_weights_are_one_hot(self, i: int)
        requires
            0 <= i < 3,
            on_screen(self.vertices[0]),
            on_screen(self.vertices[1]),
            on_screen(self.vertices[2]),
            self.has_area(),
        ensures
            self.covers(self.vertices[i]),
            self.weights_at(self.vertices[i]) == one_hot(i),
    {
        let a = self.vertices[0];
        let b = self.vertices[1];
        let c = self.vertices[2];
        let p = self.vertices[i];
        let (abp, bcp, cap) = self.edge_areas(p);
        lemma_area_turn(a, b, c);
        lemma_area_turn(b, c, a);
        if i == 0 {
            lemma_area_back_to_start(a, b);
            lemma_area_repeated_corner(c, a);
            assert(abp.raw == 0 && cap.raw == 0 && bcp.raw != 0);
        } else if i == 1 {
            lemma_area_repeated_corner(a, b);
            lemma_area_back_to_start(b, c);
            assert(abp.raw == 0 && bcp.raw == 0 && cap.raw != 0);
        } else {
            lemma_area_repeated_corner(b, c);
            lemma_area_back_to_start(c, a);
            assert(bcp.raw == 0 && cap.raw == 0 && abp.raw != 0);
        }
        let total = abp.add(bcp).add(cap);
        lemma_div_self(total);
        assert(self.weights_at(p).vertices =~= one_hot(i).vertices);
    }
}

} // verus!
