//! The hit record produced by every ray/primitive intersection query, and
//! the capability trait the primitives implement.

use vstd::prelude::*;
use crate::fixed::ONE;
use crate::vec3::{Vec3, Vec2};
use crate::material::Material;

verus! {

/// Magnitude limit (4 units) for ray directions handed to intersection.
pub const DIR_LIM: i64 = 0x4_0000i64;

/// Magnitude limit (2^36) for ray origins handed to intersection: scene
/// positions with room for hit points offset along their normals.
pub const ORIGIN_LIM: i64 = 0x10_0000_0000i64;

/// Magnitude limit (2^32) for accepted hit distances; anything farther
/// counts as a miss.
pub const DIST_LIM: i64 = 0x1_0000_0000i64;

/// Magnitude limit (2^37) satisfied by the hit points intersection returns.
pub const POINT_LIM: i64 = 0x20_0000_0000i64;

/// The result of one intersection query: a hit flag, the distance along
/// the ray, the world-space hit point, the outward unit normal, a copy of
/// the surface material, and optional UV coordinates in `[0, ONE]²`.
#[derive(Clone, Copy, Debug)]
pub struct Intersect {
    pub material: Material,
    pub distance: i64,
    pub is_intersecting: bool,
    pub normal: Vec3,
    pub point: Vec3,
    pub uv: Option<Vec2>,
}

impl Intersect {
    /// Bounds every intersection result satisfies, keeping the shading
    /// arithmetic on it overflow-free.
    pub open spec fn wf(self) -> bool {
        &&& 0 <= self.distance <= DIST_LIM
        &&& self.normal.in_range(2 * ONE as int)
        &&& self.point.in_range(POINT_LIM as int)
        &&& self.material.wf()
        &&& match self.uv {
            Some(uv) => 0 <= uv.x <= ONE as int && 0 <= uv.y <= ONE as int,
            None => true,
        }
    }

    /// A fresh hit record; the flag is always set.
    pub fn new(material: Material, distance: i64, normal: Vec3, point: Vec3, uv: Option<
        Vec2,
    >) -> (r: Intersect)
        ensures
            r == (Intersect { material, distance, is_intersecting: true, normal, point, uv }),
    {
        Intersect { material, distance, is_intersecting: true, normal, point, uv }
    }

    /// The miss sentinel: no hit, zero distance, zero vectors, black
    /// material, no UV.
    pub open spec fn empty_spec() -> Intersect {
        Intersect {
            material: Material::black_spec(),
            distance: 0i64,
            is_intersecting: false,
            normal: Vec3 { x: 0i64, y: 0i64, z: 0i64 },
            point: Vec3 { x: 0i64, y: 0i64, z: 0i64 },
            uv: None,
        }
    }

    pub fn empty() -> (r: Intersect)
        ensures
            r == Intersect::empty_spec(),
    {
        Intersect {
            material: Material::black(),
            distance: 0,
            is_intersecting: false,
            normal: Vec3 { x: 0, y: 0, z: 0 },
            point: Vec3 { x: 0, y: 0, z: 0 },
            uv: None,
        }
    }
}

/// The one capability a scene primitive exposes: answering a ray query
/// with a hit record, exactly as its spec-level hit model says.
pub trait RayIntersect {
    /// The primitive's geometry is within the scene bounds.
    spec fn shape_wf(&self) -> bool;

    /// The exact hit record this primitive returns for the given ray.
    spec fn hit_spec(&self, ray_origin: Vec3, ray_direction: Vec3) -> Intersect;

    /// Intersects the ray with the primitive. The distance is a scale
    /// factor on the exact direction vector passed in, which the contract
    /// does not require to be unit length.
    fn ray_intersect(&self, ray_origin: &Vec3, ray_direction: &Vec3) -> (r: Intersect)
        requires
            self.shape_wf(),
            ray_origin.in_range(ORIGIN_LIM as int),
            ray_direction.in_range(DIR_LIM as int),
        ensures
            r == self.hit_spec(*ray_origin, *ray_direction),
            r.wf(),
            !r.is_intersecting ==> r == Intersect::empty_spec(),
            r.is_intersecting ==> crate::fixed::abs_spec(r.point.x as int)
                <= crate::fixed::abs_spec(ray_origin.x as int) + 0x4_0000_0000,
            r.is_intersecting ==> crate::fixed::abs_spec(r.point.y as int)
                <= crate::fixed::abs_spec(ray_origin.y as int) + 0x4_0000_0000,
            r.is_intersecting ==> crate::fixed::abs_spec(r.point.z as int)
                <= crate::fixed::abs_spec(ray_origin.z as int) + 0x4_0000_0000,
    ;
}

} // verus!
