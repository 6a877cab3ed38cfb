//! Sample values, carried as IEEE 754 single-precision bit patterns.
use vstd::prelude::*;

verus! {

/// Three single-precision numbers, each held as its bit pattern.
#[derive(Clone, Copy, Debug, PartialEq, Eq, Structural)]
pub struct Vec3 {
    pub x: u32,
    pub y: u32,
    pub z: u32,
}

/// A quaternion of single-precision numbers, each held as its bit pattern:
/// the vector part `x`, `y`, `z` and the real part `w`.
#[derive(Clone, Copy, Debug, PartialEq, Eq, Structural)]
pub struct Quat {
    pub x: u32,
    pub y: u32,
    pub z: u32,
    pub w: u32,
}

impl Vec3 {
    pub fn new(x: u32, y: u32, z: u32) -> (v: Vec3)
        ensures
            v == (Vec3 { x, y, z }),
    {
        Vec3 { x, y, z }
    }

    /// Component `k` of the vector: `x`, `y`, `z` for 0, 1, 2.
    pub open spec fn component(self, k: int) -> u32 {
        if k == 0 {
            self.x
        } else if k == 1 {
            self.y
        } else {
            self.z
        }
    }
}

impl Quat {
    pub fn from_xyzw(x: u32, y: u32, z: u32, w: u32) -> (q: Quat)
        ensures
            q == (Quat { x, y, z, w }),
    {
        Quat { x, y, z, w }
    }

    /// The vector part of the quaternion.
    pub open spec fn spec_vector(self) -> Vec3 {
        Vec3 { x: self.x, y: self.y, z: self.z }
    }

    /// The quaternion with the given vector part and a real part of positive zero.
    pub open spec fn spec_pure(v: Vec3) -> Quat {
        Quat { x: v.x, y: v.y, z: v.z, w: 0 }
    }

    #[verifier::when_used_as_spec(spec_vector)]
    pub fn vector(self) -> (v: Vec3)
        ensures
            v == self.spec_vector(),
    {
        Vec3 { x: self.x, y: self.y, z: self.z }
    }

    #[verifier::when_used_as_spec(spec_pure)]
    pub fn pure(v: Vec3) -> (q: Quat)
        ensures
            q == Quat::spec_pure(v),
    {
        Quat { x: v.x, y: v.y, z: v.z, w: 0 }
    }
}

} // verus!
