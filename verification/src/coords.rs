//! Conventions for which axis points up and which way the axes turn.
use vstd::prelude::*;
use crate::primitives::float3::Float3;

verus! {

/// The convention of this crate.
pub const ENGINE: CoordinateSystem = CoordinateSystem::RightHandedYUp;

/// The convention of Blender.
pub const BLENDER: CoordinateSystem = CoordinateSystem::RightHandedZUp;

/// The convention that a set of coordinates was written in.
#[derive(Clone, Copy, Debug, PartialEq, Eq, Structural)]
pub enum CoordinateSystem {
    RightHandedYUp,
    RightHandedZUp,
    LeftHandedYUp,
    LeftHandedZUp,
}

impl CoordinateSystem {
    pub open spec fn to_engine_coords_spec(self, v: Float3) -> Float3 {
        match self {
            CoordinateSystem::RightHandedYUp => v,
            CoordinateSystem::RightHandedZUp => Float3::new(v.x, v.z, v.y.neg()),
            CoordinateSystem::LeftHandedYUp => Float3::new(v.x, v.y, v.z.neg()),
            CoordinateSystem::LeftHandedZUp => Float3::new(v.x, v.z, v.y),
        }
    }

    /// The point `v`, written in this convention, in the convention of the
    /// crate: right-handed with the second axis up.
    #[verifier::when_used_as_spec(to_engine_coords_spec)]
    pub fn to_engine_coords(self, v: Float3) -> (r: Float3)
        ensures
            r == self.to_engine_coords_spec(v),
    {
        match self {
            CoordinateSystem::RightHandedYUp => v,
            CoordinateSystem::RightHandedZUp => Float3::new(v.x, v.z, v.y.neg()),
            CoordinateSystem::LeftHandedYUp => Float3::new(v.x, v.y, v.z.neg()),
            CoordinateSystem::LeftHandedZUp => Float3::new(v.x, v.z, v.y),
        }
    }
}

} // verus!
