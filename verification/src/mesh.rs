//! Triangle meshes and their assembly from indexed face lists.
use vstd::prelude::*;
use crate::primitives::face::FaceData3D;
use crate::primitives::float2::Float2;
use crate::primitives::float3::Float3;
use crate::primitives::triangle::Tri;

verus! {

/// An ordered list of triangles in the space of the mesh.
#[derive(Clone, Debug)]
pub struct Mesh {
    pub data: Vec<FaceData3D>,
}

impl Default for Mesh {
    /// The mesh without triangles.
    fn default() -> (r: Mesh)
        ensures
            r.data@.len() == 0,
    {
        Mesh { data: Vec::new() }
    }
}

/// One corner of a face of an indexed face list: which position, texture
/// coordinate and normal it refers to, counted from zero.  A part that the
/// list leaves out is `None` and stands for zero.
#[derive(Clone, Copy, Debug, PartialEq, Eq, Structural)]
pub struct ObjCorner {
    pub vertex: Option<usize>,
    pub uv: Option<usize>,
    pub normal: Option<usize>,
}

/// Why a face could not be added.
#[derive(Clone, Copy, Debug, PartialEq, Eq, Structural)]
pub enum MeshError {
    /// A corner refers to a position, texture coordinate or normal that
    /// has not been listed yet.
    IndexOutOfRange,
    /// A corner has fewer than three slash-separated fields, or one of its
    /// fields is the number zero.
    MalformedCorner,
    /// A position or normal with fewer than three numbers, or a texture
    /// coordinate with fewer than two.
    MalformedVertex,
}

/// Position, normal and texture coordinate of one corner.
pub struct CornerData {
    pub position: Float3,
    pub normal: Float3,
    pub uv: Float2,
}

/// Whether every index of `corner` refers to something listed.
pub open spec fn corner_in_range(corner: ObjCorner, vertices: int, normals: int, uvs: int) -> bool {
    &&& corner.vertex matches Some(i) ==> i < vertices
    &&& corner.normal matches Some(i) ==> i < normals
    &&& corner.uv matches Some(i) ==> i < uvs
}

/// What `corner` refers to.
pub open spec fn resolve(
    corner: ObjCorner,
    vertices: Seq<Float3>,
    normals: Seq<Float3>,
    uvs: Seq<Float2>,
) -> CornerData {
    CornerData {
        position: match corner.vertex {
            Some(i) => vertices[i as int],
            None => Float3::zero(),
        },
        normal: match corner.normal {
            Some(i) => normals[i as int],
            None => Float3::zero(),
        },
        uv: match corner.uv {
            Some(i) => uvs[i as int],
            None => Float2::zero(),
        },
    }
}

/// The triangle with the corners `a`, `b`, `c`.
pub open spec fn face_of(a: CornerData, b: CornerData, c: CornerData) -> FaceData3D {
    FaceData3D {
        vertices: Tri::new(a.position, b.position, c.position),
        normals: Tri::new(a.normal, b.normal, c.normal),
        uvs: Tri::new(a.uv, b.uv, c.uv),
    }
}

/// The triangles that a face of `corners` is cut into: a fan around the
/// first corner.  A face of fewer than three corners gives none.
pub open spec fn fan(corners: Seq<CornerData>) -> Seq<FaceData3D> {
    Seq::new(
        if corners.len() >= 2 {
            (corners.len() - 2) as nat
        } else {
            0
        },
        |i: int| face_of(corners[0], corners[i + 1], corners[i + 2]),
    )
}

/// The lists of an indexed face list as plain values.
pub struct ObjLists {
    pub vertices: Seq<Float3>,
    pub normals: Seq<Float3>,
    pub uvs: Seq<Float2>,
    pub faces: Seq<FaceData3D>,
}

impl ObjLists {
    /// The lists before anything is read.
    pub open spec fn empty() -> ObjLists {
        ObjLists {
            vertices: Seq::empty(),
            normals: Seq::empty(),
            uvs: Seq::empty(),
            faces: Seq::empty(),
        }
    }

    /// Whether every corner refers to something listed.
    pub open spec fn in_range(self, corners: Seq<ObjCorner>) -> bool {
        forall|k: int|
            0 <= k < corners.len() ==> corner_in_range(
                #[trigger] corners[k],
                self.vertices.len() as int,
                self.normals.len() as int,
                self.uvs.len() as int,
            )
    }

    /// The lists with the triangles of one more face.
    pub open spec fn with_face(self, corners: Seq<ObjCorner>) -> ObjLists {
        ObjLists {
            faces: self.faces + fan(
                corners.map_values(
                    |c: ObjCorner| resolve(c, self.vertices, self.normals, self.uvs),
                ),
            ),
            ..self
        }
    }
}

/// Collects the lists of an indexed face list in the order in which they
/// are read, and cuts each face into triangles as it arrives.
#[derive(Debug)]
pub struct ObjBuilder {
    pub vertices: Vec<Float3>,
    pub normals: Vec<Float3>,
    pub uvs: Vec<Float2>,
    pub faces: Vec<FaceData3D>,
}

impl View for ObjBuilder {
    type V = ObjLists;

    open spec fn view(&self) -> ObjLists {
        ObjLists {
            vertices: self.vertices@,
            normals: self.normals@,
            uvs: self.uvs@,
            faces: self.faces@,
        }
    }
}

impl ObjBuilder {
    /// A builder that has read nothing.
    pub fn new() -> (r: ObjBuilder)
        ensures
            r.vertices@.len() == 0,
            r.normals@.len() == 0,
            r.uvs@.len() == 0,
            r.faces@.len() == 0,
    {
        ObjBuilder { vertices: Vec::new(), normals: Vec::new(), uvs: Vec::new(), faces: Vec::new() }
    }

    /// Adds a position.
    pub fn push_vertex(&mut self, v: Float3)
        ensures
            final(self).vertices@ == old(self).vertices@.push(v),
            final(self).normals@ == old(self).normals@,
            final(self).uvs@ == old(self).uvs@,
            final(self).faces@ == old(self).faces@,
    {
        self.vertices.push(v);
    }

    /// Adds a normal, brought to unit length.
    pub fn push_normal(&mut self, n: Float3)
        ensures
            final(self).normals@ == old(self).normals@.push(n.normalized()),
            final(self).vertices@ == old(self).vertices@,
            final(self).uvs@ == old(self).uvs@,
            final(self).faces@ == old(self).faces@,
    {
        self.normals.push(n.normalized());
    }

    /// Adds a texture coordinate.
    pub fn push_uv(&mut self, uv: Float2)
        ensures
            final(self).uvs@ == old(self).uvs@.push(uv),
            final(self).vertices@ == old(self).vertices@,
            final(self).normals@ == old(self).normals@,
            final(self).faces@ == old(self).faces@,
    {
        self.uvs.push(uv);
    }

    fn corner(&self, corner: &ObjCorner) -> (r: (Float3, Float3, Float2))
        requires
            corner_in_range(
                *corner,
                self.vertices@.len() as int,
                self.normals@.len() as int,
                self.uvs@.len() as int,
            ),
        ensures
            (CornerData { position: r.0, normal: r.1, uv: r.2 }) == resolve(
                *corner,
                self.vertices@,
                self.normals@,
                self.uvs@,
            ),
    {
        let position = match corner.vertex {
            Some(i) => self.vertices[i],
            None => Float3::zero(),
        };
        let normal = match corner.normal {
            Some(i) => self.normals[i],
            None => Float3::zero(),
        };
        let uv = match corner.uv {
            Some(i) => self.uvs[i],
            None => Float2::zero(),
        };
        (position, normal, uv)
    }

    fn in_range(&self, corner: &ObjCorner) -> (r: bool)
        ensures
            r == corner_in_range(
                *corner,
                self.vertices@.len() as int,
                self.normals@.len() as int,
                self.uvs@.len() as int,
            ),
    {
        let vertex_ok = match corner.vertex {
            Some(i) => i < self.vertices.len(),
            None => true,
        };
        let normal_ok = match corner.normal {
            Some(i) => i < self.normals.len(),
            None => true,
        };
        let uv_ok = match corner.uv {
            Some(i) => i < self.uvs.len(),
            None => true,
        };
        vertex_ok && normal_ok && uv_ok
    }

    /// Adds a face with the given corners, cut into a fan of triangles
    /// around the first corner.  Nothing is added where a corner refers to
    /// something that has not been listed.
    pub fn push_face(&mut self, corners: &[ObjCorner]) -> (r: Result<(), MeshError>)
        ensures
            final(self).vertices@ == old(self).vertices@,
            final(self).normals@ == old(self).normals@,
            final(self).uvs@ == old(self).uvs@,
            r.is_ok() == (forall|k: int|
                0 <= k < corners@.len() ==> corner_in_range(
                    #[trigger] corners@[k],
                    old(self).vertices@.len() as int,
                    old(self).normals@.len() as int,
                    old(self).uvs@.len() as int,
                )),
            r matches Err(e) ==> e == MeshError::IndexOutOfRange && final(self).faces@ == old(
                self,
            ).faces@,
            r is Ok ==> final(self).faces@ == old(self).faces@ + fan(
                corners@.map_values(
                    |c: ObjCorner|
                        resolve(c, old(self).vertices@, old(self).normals@, old(self).uvs@),
                ),
            ),
    {
        let n: usize = corners.len();
        let mut k: usize = 0;
        while k < n
            invariant
                n == corners@.len(),
                k <= n,
                *self == *old(self),
                forall|j: int|
                    0 <= j < k ==> corner_in_range(
                        #[trigger] corners@[j],
                        self.vertices@.len() as int,
                        self.normals@.len() as int,
                        self.uvs@.len() as int,
                    ),
            decreases n - k,
        {
            if !self.in_range(&corners[k]) {
                return Err(MeshError::IndexOutOfRange);
            }
            k += 1;
        }
        let ghost resolved = corners@.map_values(
            |c: ObjCorner| resolve(c, old(self).vertices@, old(self).normals@, old(self).uvs@),
        );
        let mut i: usize = 2;
        assert(self.faces@ =~= old(self).faces@ + fan(resolved).subrange(0, 0));
        while i < n
            invariant
                n == corners@.len(),
                2 <= i,
                n >= 2 ==> i <= n,
                self.vertices@ == old(self).vertices@,
                self.normals@ == old(self).normals@,
                self.uvs@ == old(self).uvs@,
                resolved == corners@.map_values(
                    |c: ObjCorner|
                        resolve(c, old(self).vertices@, old(self).normals@, old(self).uvs@),
                ),
                forall|j: int|
                    0 <= j < n ==> corner_in_range(
                        #[trigger] corners@[j],
                        self.vertices@.len() as int,
                        self.normals@.len() as int,
                        self.uvs@.len() as int,
                    ),
                n >= 2 ==> self.faces@ == old(self).faces@ + fan(resolved).subrange(0, i - 2),
                n < 2 ==> self.faces@ == old(self).faces@,
            decreases n - i,
        {
            let ghost before = self.faces@;
            let v1 = self.corner(&corners[0]);
            let v2 = self.corner(&corners[i - 1]);
            let v3 = self.corner(&corners[i]);
            self.faces.push(
                FaceData3D {
                    vertices: Tri::new(v1.0, v2.0, v3.0),
                    normals: Tri::new(v1.1, v2.1, v3.1),
                    uvs: Tri::new(v1.2, v2.2, v3.2),
                },
            );
            assert(self.faces@ =~= old(self).faces@ + fan(resolved).subrange(0, i - 1)) by {
                assert(self.faces@ == before.push(fan(resolved)[i - 2]));
            }
            i += 1;
        }
        assert(self.faces@ =~= old(self).faces@ + fan(resolved));
        Ok(())
    }

    /// The mesh of the triangles added so far.
    pub fn finish(self) -> (r: Mesh)
        ensures
            r.data@ == self.faces@,
    {
        Mesh { data: self.faces }
    }
}

} // verus!
