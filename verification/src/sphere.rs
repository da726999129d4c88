//! The one geometric primitive: a sphere, and its intersection test.
//!
//! `hit` reports the nearest root of the sphere quadratic strictly inside
//! `(t_min, t_max)`, trying the smaller root first. The whole computation is
//! mirrored by specification functions, so the result is pinned down
//! exactly; the shrink lemma at the bottom says how the answer changes when
//! the upper bound tightens, which is what the scene-wide scan relies on.
use crate::fixed::{
    absi, fx_div_bits, fx_mul_bits, fx_sqrt_bits, lemma_abs_mul_le, lemma_fx_mul_mag,
    lemma_sqrt_bounds, Fx, FX_SCALE,
};
use crate::hittable::HitRecord;
use crate::material::{valid_material, Material};
use crate::ray::{at_bits, Ray, BOUNCE_STEP, DIR_MAX, ORIGIN_SAFE, T_MAX_BITS};
use crate::vec3::{
    bounded, dot, dot_bits, lemma_dot_mag, len_sq_bits, neg_bits, sub_bits, unit_bits,
    unit_vector, Point3, Vec3,
};
use vstd::prelude::*;

verus! {

/// Componentwise cap on sphere centers, and cap on radius magnitudes.
pub const SCENE_MAX: i128 = 1073741824;

/// Smallest radius magnitude the intersection arithmetic accepts.
pub const RADIUS_MIN: i128 = 256;

/// A sphere with its surface material. A negative radius flips the outward
/// normal, modelling an inward-facing shell; the intersection geometry is
/// unchanged.
#[derive(Clone, Copy, Debug, PartialEq, Eq, Structural)]
pub struct Sphere {
    pub center: Point3,
    pub radius: Fx,
    pub material: Material,
}

/// Center, radius and material sit in the ranges the renderer's arithmetic
/// is proved for.
pub open spec fn valid_sphere(s: Sphere) -> bool {
    bounded(s.center, SCENE_MAX as int) && RADIUS_MIN <= absi(s.radius.bits as int) <= SCENE_MAX
        && valid_material(s.material)
}

/// The ray origin relative to the center.
pub open spec fn oc_bits(s: Sphere, r: Ray) -> Vec3 {
    sub_bits(r.origin, s.center)
}

/// Quadratic coefficient `a`: the squared length of the direction.
pub open spec fn hit_a(r: Ray) -> int {
    len_sq_bits(r.dir)
}

/// Quadratic coefficient `b/2`.
pub open spec fn hit_half_b(s: Sphere, r: Ray) -> int {
    dot_bits(oc_bits(s, r), r.dir)
}

/// Quadratic coefficient `c`: squared center distance less squared radius.
pub open spec fn hit_c(s: Sphere, r: Ray) -> int {
    len_sq_bits(oc_bits(s, r)) - fx_mul_bits(s.radius.bits as int, s.radius.bits as int)
}

/// The quarter discriminant `(b/2)^2 - a c`.
pub open spec fn hit_disc(s: Sphere, r: Ray) -> int {
    fx_mul_bits(hit_half_b(s, r), hit_half_b(s, r)) - fx_mul_bits(hit_a(r), hit_c(s, r))
}

/// The smaller quadratic root.
pub open spec fn hit_root1(s: Sphere, r: Ray) -> int {
    fx_div_bits(-hit_half_b(s, r) - fx_sqrt_bits(hit_disc(s, r)), hit_a(r))
}

/// The larger quadratic root.
pub open spec fn hit_root2(s: Sphere, r: Ray) -> int {
    fx_div_bits(-hit_half_b(s, r) + fx_sqrt_bits(hit_disc(s, r)), hit_a(r))
}

/// The parameter of the nearest intersection strictly inside
/// `(t_min, t_max)`: the smaller root when it qualifies, else the larger,
/// else nothing. Degenerate directions and nonpositive discriminants miss.
pub open spec fn sphere_hit_t(s: Sphere, r: Ray, t_min: int, t_max: int) -> Option<int> {
    if hit_a(r) > 0 && hit_disc(s, r) > 0 {
        if t_min < hit_root1(s, r) < t_max {
            Some(hit_root1(s, r))
        } else if t_min < hit_root2(s, r) < t_max {
            Some(hit_root2(s, r))
        } else {
            None
        }
    } else {
        None
    }
}

/// The outward unit normal at parameter `t`: from center to hit point,
/// flipped for inward shells.
pub open spec fn hit_outward(s: Sphere, r: Ray, t: int) -> Vec3 {
    let u0 = unit_bits(sub_bits(at_bits(r, t), s.center));
    if s.radius.bits < 0 {
        neg_bits(u0)
    } else {
        u0
    }
}

/// The full record of the intersection, if any: the hit point, the normal
/// bent against the ray, the sphere's material, and which face was struck.
pub open spec fn sphere_hit_rec(s: Sphere, r: Ray, t_min: int, t_max: int) -> Option<HitRecord> {
    match sphere_hit_t(s, r, t_min, t_max) {
        Some(t) => {
            let outward = hit_outward(s, r, t);
            Some(
                HitRecord {
                    point: at_bits(r, t),
                    normal: if dot_bits(r.dir, outward) < 0 {
                        outward
                    } else {
                        neg_bits(outward)
                    },
                    material: s.material,
                    t: Fx { bits: t as i128 },
                    front_face: dot_bits(r.dir, outward) < 0,
                },
            )
        },
        None => None,
    }
}

impl Sphere {
    /// Builds a sphere.
    pub fn new(c: Point3, r: Fx, m: Material) -> (s: Sphere)
        ensures
            s.center == c,
            s.radius == r,
            s.material == m,
    {
        Sphere { center: c, radius: r, material: m }
    }

    /// Builds the hit record for an accepted root.
    fn record_at(&self, r: &Ray, root: Fx) -> (rec: HitRecord)
        requires
            valid_sphere(*self),
            bounded(r.origin, ORIGIN_SAFE as int),
            bounded(r.dir, DIR_MAX as int),
            -T_MAX_BITS <= root.bits <= T_MAX_BITS,
        ensures
            Some(rec) == sphere_hit_rec_at(*self, *r, root.bits as int),
            rec.material == self.material,
            rec.t == root,
            bounded(rec.normal, 2 * FX_SCALE as int),
            dot_bits(r.dir, rec.normal) <= 0,
            absi(rec.point.x.bits as int) <= absi(r.origin.x.bits as int) + BOUNCE_STEP,
            absi(rec.point.y.bits as int) <= absi(r.origin.y.bits as int) + BOUNCE_STEP,
            absi(rec.point.z.bits as int) <= absi(r.origin.z.bits as int) + BOUNCE_STEP,
    {
        let p = r.at(root);
        let pc = p.sub(self.center);
        let u0 = unit_vector(pc);
        let outward = if self.radius.bits < 0 {
            u0.neg()
        } else {
            u0
        };
        let mut rec = HitRecord {
            point: p,
            normal: Vec3::zero(),
            material: self.material,
            t: root,
            front_face: false,
        };
        rec.set_face_normal(r, outward);
        rec
    }

    /// The nearest intersection of the ray with this sphere strictly inside
    /// `(t_min, t_max)`, trying the smaller quadratic root first. The
    /// stored normal always faces against the incoming ray, and the hit
    /// point sits within one bounce step of the ray origin.
    pub fn hit(&self, r: &Ray, t_min: Fx, t_max: Fx) -> (res: Option<HitRecord>)
        requires
            valid_sphere(*self),
            bounded(r.origin, ORIGIN_SAFE as int),
            bounded(r.dir, DIR_MAX as int),
            -T_MAX_BITS <= t_min.bits,
            t_max.bits <= T_MAX_BITS,
        ensures
            res == sphere_hit_rec(*self, *r, t_min.bits as int, t_max.bits as int),
            match res {
                Some(h) => t_min.bits < h.t.bits < t_max.bits && h.material == self.material
                    && bounded(h.normal, 2 * FX_SCALE as int) && dot_bits(r.dir, h.normal) <= 0
                    && absi(h.point.x.bits as int) <= absi(r.origin.x.bits as int) + BOUNCE_STEP
                    && absi(h.point.y.bits as int) <= absi(r.origin.y.bits as int) + BOUNCE_STEP
                    && absi(h.point.z.bits as int) <= absi(r.origin.z.bits as int) + BOUNCE_STEP,
                None => true,
            },
    {
        let oc = r.origin().sub(self.center);
        let a = dot(r.direction(), r.direction());
        let half_b = dot(oc, r.direction());
        proof {
            lemma_dot_mag(r.dir, r.dir, DIR_MAX as int, DIR_MAX as int);
            lemma_dot_mag(oc, r.dir, 140738562097152, DIR_MAX as int);
            lemma_dot_mag(oc, oc, 140738562097152, 140738562097152);
            lemma_abs_mul_le(
                self.radius.bits as int,
                self.radius.bits as int,
                SCENE_MAX as int,
                SCENE_MAX as int,
            );
            lemma_fx_mul_mag(
                self.radius.bits as int,
                self.radius.bits as int,
                SCENE_MAX as int,
                SCENE_MAX as int,
            );
        }
        let oc_len = oc.length_squared();
        let r2 = self.radius.mul(self.radius);
        let c = oc_len.sub(r2);
        proof {
            lemma_abs_mul_le(
                half_b.bits as int,
                half_b.bits as int,
                1729395451049803776,
                1729395451049803776,
            );
            lemma_fx_mul_mag(
                half_b.bits as int,
                half_b.bits as int,
                1729395451049803776,
                1729395451049803776,
            );
            lemma_abs_mul_le(a.bits as int, c.bits as int, 3298534883328, 906708199839395907371008);
            lemma_fx_mul_mag(a.bits as int, c.bits as int, 3298534883328, 906708199839395907371008);
        }
        let hb2 = half_b.mul(half_b);
        let ac = a.mul(c);
        let disc = hb2.sub(ac);
        if a.bits > 0 && disc.bits > 0 {
            let sqrtd = disc.sqrt();
            proof {
                lemma_sqrt_bounds(
                    disc.bits * FX_SCALE,
                    sqrtd.bits as int,
                    0,
                    2445734501592831712,
                );
            }
            let num1 = half_b.neg().sub(sqrtd);
            let root1 = num1.div(a);
            if t_min.bits < root1.bits && root1.bits < t_max.bits {
                let rec = self.record_at(r, root1);
                return Some(rec);
            }
            let num2 = half_b.neg().add(sqrtd);
            let root2 = num2.div(a);
            if t_min.bits < root2.bits && root2.bits < t_max.bits {
                let rec = self.record_at(r, root2);
                return Some(rec);
            }
            return None;
        }
        None
    }
}

/// The record a sphere reports once a root `t` is accepted; shared between
/// the two root branches.
pub open spec fn sphere_hit_rec_at(s: Sphere, r: Ray, t: int) -> Option<HitRecord> {
    let outward = hit_outward(s, r, t);
    Some(
        HitRecord {
            point: at_bits(r, t),
            normal: if dot_bits(r.dir, outward) < 0 {
                outward
            } else {
                neg_bits(outward)
            },
            material: s.material,
            t: Fx { bits: t as i128 },
            front_face: dot_bits(r.dir, outward) < 0,
        },
    )
}

} // verus!
