//! The record of a ray striking a surface.
use crate::fixed::{lemma_fx_mul_neg, Fx};
use crate::material::Material;
use crate::ray::Ray;
use crate::vec3::{bounded, dot_bits, neg_bits, Point3, Vec3, VEC_ADD_SAFE, VEC_FACTOR_SAFE};
use vstd::prelude::*;

verus! {

/// Where a ray met a surface: the point, the normal bent to face the ray,
/// the surface's material, the ray parameter, and whether the ray arrived
/// from outside.
#[derive(Clone, Copy, Debug, PartialEq, Eq, Structural)]
pub struct HitRecord {
    pub point: Point3,
    pub normal: Vec3,
    pub material: Material,
    pub t: Fx,
    pub front_face: bool,
}

/// Negating one factor of every truncating product negates their sum.
pub proof fn lemma_dot_neg(u: Vec3, v: Vec3)
    requires
        bounded(v, VEC_ADD_SAFE as int),
    ensures
        dot_bits(u, neg_bits(v)) == -dot_bits(u, v),
{
    lemma_fx_mul_neg(u.x.bits as int, v.x.bits as int);
    lemma_fx_mul_neg(u.y.bits as int, v.y.bits as int);
    lemma_fx_mul_neg(u.z.bits as int, v.z.bits as int);
}

impl HitRecord {
    /// Stores the normal oriented against the incoming ray: the outward
    /// normal as given when the ray arrives from outside, its mirror
    /// otherwise, so the stored normal never points along the ray.
    pub fn set_face_normal(&mut self, r: &Ray, outward_normal: Vec3)
        requires
            bounded(outward_normal, VEC_FACTOR_SAFE as int),
            bounded(r.dir, VEC_FACTOR_SAFE as int),
        ensures
            final(self).front_face == (dot_bits(r.dir, outward_normal) < 0),
            final(self).normal == if dot_bits(r.dir, outward_normal) < 0 {
                outward_normal
            } else {
                neg_bits(outward_normal)
            },
            final(self).point == old(self).point,
            final(self).t == old(self).t,
            final(self).material == old(self).material,
            dot_bits(r.dir, final(self).normal) <= 0,
    {
        let d = crate::vec3::dot(r.dir, outward_normal);
        self.front_face = d.bits < 0;
        if self.front_face {
            self.normal = outward_normal;
        } else {
            proof {
                lemma_dot_neg(r.dir, outward_normal);
            }
            self.normal = outward_normal.neg();
        }
    }
}

impl Default for HitRecord {
    /// The sentinel record: everything zero, the absorbing material, and
    /// the back face.
    fn default() -> (r: HitRecord)
        ensures
            r.point == (Vec3 { x: Fx { bits: 0 }, y: Fx { bits: 0 }, z: Fx { bits: 0 } }),
            r.normal == (Vec3 { x: Fx { bits: 0 }, y: Fx { bits: 0 }, z: Fx { bits: 0 } }),
            r.material == Material::DefaultMaterial,
            r.t.bits == 0,
            r.front_face == false,
    {
        HitRecord {
            point: Vec3::zero(),
            normal: Vec3::zero(),
            material: Material::DefaultMaterial,
            t: Fx { bits: 0 },
            front_face: false,
        }
    }
}

} // verus!
