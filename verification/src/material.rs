//! Surface materials and their scattering models.
//!
//! A closed sum type covers the four behaviors: the absorbing sentinel,
//! diffuse, fuzzy-specular, and refractive. `scatter` consumes a hit record
//! and yields the attenuated scattered ray, or nothing when the ray is
//! absorbed. The contract pins the attenuation, the scattered origin, and
//! the scattered direction as a function of the random draws: which draw
//! came is open, what was made of it is not.
use crate::fixed::{
    absi, fx_div_bits, fx_mul_bits, lemma_abs_mul_le, lemma_fx_div_mag, lemma_fx_div_nonneg,
    lemma_fx_mul_mag, lemma_sqrt_bounds, Fx, FX_SCALE,
};
use crate::hittable::HitRecord;
use crate::ray::{Ray, DIR_MAX};
use crate::rng::Prng;
use crate::vec3::{
    bounded, color_unit, dot, dot_bits, is_lambert_sample, lemma_dot_mag, lemma_square_nonneg,
    len_sq_bits, reflect, reflect_bits, refract, refract_bits, refract_cos_bits, unit_bits,
    unit_vector, Color, Vec3,
};
use vstd::prelude::*;

verus! {

/// How a surface answers an incoming ray.
#[derive(Clone, Copy, Debug, PartialEq, Eq, Structural)]
pub enum Material {
    /// Absorbs every ray; the sentinel for records not yet filled.
    DefaultMaterial,
    /// Diffuse: scatters around the normal, attenuated by the albedo.
    Lambertian { albedo: Color },
    /// Specular with a blur radius; absorbs grazing results.
    Metal { albedo: Color, fuzz: Fx },
    /// Clear refractive shell with the given refractive index.
    Directric { ref_idx: Fx },
}

/// The parameters under which scattering arithmetic stays in range:
/// albedos are unit colors, fuzz sits in the unit interval, and the
/// refractive index lies within a factor four of vacuum.
pub open spec fn valid_material(m: Material) -> bool {
    match m {
        Material::DefaultMaterial => true,
        Material::Lambertian { albedo } => color_unit(albedo),
        Material::Metal { albedo, fuzz } => color_unit(albedo) && 0 <= fuzz.bits <= FX_SCALE,
        Material::Directric { ref_idx } => FX_SCALE / 4 <= ref_idx.bits <= 4 * FX_SCALE,
    }
}

/// The color multiplier a material applies to whatever its scattered ray
/// later gathers: the albedo for diffuse and metal surfaces, clear white
/// for glass, black for the absorber.
pub open spec fn material_attenuation(m: Material) -> Color {
    match m {
        Material::DefaultMaterial => Vec3 {
            x: Fx { bits: 0 },
            y: Fx { bits: 0 },
            z: Fx { bits: 0 },
        },
        Material::Lambertian { albedo } => albedo,
        Material::Metal { albedo, fuzz } => albedo,
        Material::Directric { ref_idx } => Vec3 {
            x: Fx { bits: FX_SCALE },
            y: Fx { bits: FX_SCALE },
            z: Fx { bits: FX_SCALE },
        },
    }
}

/// The Schlick reflectance estimate at the fixed-point grid:
/// `r0 + (1 - r0) (1 - cos)^5` with `r0 = ((1 - ratio) / (1 + ratio))^2`.
pub open spec fn schlick_bits(cos: int, ratio: int) -> int {
    let q = fx_div_bits(FX_SCALE - ratio, FX_SCALE + ratio);
    let r0 = fx_mul_bits(q, q);
    let omc = FX_SCALE - cos;
    let p2 = fx_mul_bits(omc, omc);
    let p4 = fx_mul_bits(p2, p2);
    let p5 = fx_mul_bits(p4, omc);
    r0 + fx_mul_bits(FX_SCALE - r0, p5)
}

/// Probability of reflection at a dielectric boundary, by Schlick's
/// approximation.
fn schlick(cosine: Fx, ratio: Fx) -> (r: Fx)
    requires
        absi(cosine.bits as int) <= 786432,
        0 <= ratio.bits <= 262144,
    ensures
        r.bits == schlick_bits(cosine.bits as int, ratio.bits as int),
{
    let one = Fx { bits: FX_SCALE };
    let num = one.sub(ratio);
    let den = one.add(ratio);
    let q = num.div(den);
    proof {
        lemma_fx_div_mag(num.bits as int, den.bits as int, 196608, 65536);
        lemma_abs_mul_le(q.bits as int, q.bits as int, 196608, 196608);
        lemma_fx_mul_mag(q.bits as int, q.bits as int, 196608, 196608);
        lemma_square_nonneg(q.bits as int);
    }
    let r0 = q.mul(q);
    let omc = one.sub(cosine);
    proof {
        lemma_abs_mul_le(omc.bits as int, omc.bits as int, 851968, 851968);
        lemma_fx_mul_mag(omc.bits as int, omc.bits as int, 851968, 851968);
    }
    let p2 = omc.mul(omc);
    proof {
        lemma_abs_mul_le(p2.bits as int, p2.bits as int, 11075584, 11075584);
        lemma_fx_mul_mag(p2.bits as int, p2.bits as int, 11075584, 11075584);
    }
    let p4 = p2.mul(p2);
    proof {
        lemma_abs_mul_le(p4.bits as int, omc.bits as int, 1871773697, 851968);
        lemma_fx_mul_mag(p4.bits as int, omc.bits as int, 1871773697, 851968);
    }
    let p5 = p4.mul(omc);
    let omr = one.sub(r0);
    proof {
        lemma_abs_mul_le(omr.bits as int, p5.bits as int, 655360, 24333058062
        );
        lemma_fx_mul_mag(omr.bits as int, p5.bits as int, 655360, 24333058062);
    }
    r0.add(omr.mul(p5))
}

/// The direction a metal scatters for a given blur sample `s`: the mirror
/// reflection of the incoming unit direction, perturbed by `fuzz` times the
/// sample.
pub open spec fn metal_dir_bits(r_in: Ray, normal: Vec3, fuzz: Fx, s: Vec3) -> Vec3 {
    let refl = reflect_bits(unit_bits(r_in.dir), normal);
    Vec3 {
        x: Fx { bits: (refl.x.bits + fx_mul_bits(s.x.bits as int, fuzz.bits as int)) as i128 },
        y: Fx { bits: (refl.y.bits + fx_mul_bits(s.y.bits as int, fuzz.bits as int)) as i128 },
        z: Fx { bits: (refl.z.bits + fx_mul_bits(s.z.bits as int, fuzz.bits as int)) as i128 },
    }
}

impl Material {
    /// A metal with the blur parameter clamped into the unit interval at
    /// construction.
    pub fn metal(albedo: Color, fuzz: Fx) -> (r: Material)
        ensures
            r == (Material::Metal {
                albedo,
                fuzz: Fx {
                    bits: if fuzz.bits < 0 {
                        0
                    } else if fuzz.bits > FX_SCALE {
                        FX_SCALE
                    } else {
                        fuzz.bits
                    },
                },
            }),
    {
        let f = if fuzz.bits < 0 {
            Fx { bits: 0 }
        } else if fuzz.bits > 65536 {
            Fx { bits: FX_SCALE }
        } else {
            fuzz
        };
        Material::Metal { albedo, fuzz: f }
    }

    /// Answers an incoming ray at a hit. `None` means the ray was absorbed.
    /// Whatever the random draws, a scattered ray leaves the hit point with
    /// a bounded direction and this material's attenuation, and the
    /// direction is the one the model prescribes for the draws: the normal
    /// plus a sphere sample for diffuse; the mirror reflection plus `fuzz`
    /// times a ball sample for metal, kept only while it leaves the surface
    /// (so an unblurred metal is a deterministic mirror); reflection under
    /// total internal reflection and otherwise reflection-or-refraction for
    /// glass. Only the absorber and grazing metal reflections decline.
    pub fn scatter(&self, r_in: &Ray, rec: &HitRecord, rng: &mut Prng) -> (res: Option<
        (Color, Ray),
    >)
        requires
            valid_material(*self),
            bounded(r_in.dir, DIR_MAX as int),
            bounded(rec.normal, 2 * FX_SCALE as int),
        ensures
            match res {
                Some(pair) => color_unit(pair.0) && pair.0 == material_attenuation(*self)
                    && pair.1.origin == rec.point && bounded(pair.1.dir, DIR_MAX as int) && !(
                *self is DefaultMaterial) && ((*self is Metal) ==> dot_bits(
                    pair.1.dir,
                    rec.normal,
                ) > 0),
                None => (*self is DefaultMaterial || *self is Metal),
            },
            (*self is Lambertian || *self is Directric) ==> res is Some,
            (*self is DefaultMaterial) ==> res is None,
            (*self is Lambertian) ==> match res {
                Some(pair) => exists|s: Vec3|
                    #[trigger] is_lambert_sample(s) && pair.1.dir == (Vec3 {
                        x: Fx { bits: (rec.normal.x.bits + s.x.bits) as i128 },
                        y: Fx { bits: (rec.normal.y.bits + s.y.bits) as i128 },
                        z: Fx { bits: (rec.normal.z.bits + s.z.bits) as i128 },
                    }),
                None => false,
            },
            *self matches Material::Metal { albedo, fuzz } ==> (exists|s: Vec3|
                {
                    &&& 0 <= #[trigger] len_sq_bits(s) < FX_SCALE
                    &&& bounded(s, FX_SCALE as int)
                    &&& match res {
                        Some(pair) => pair.1.dir == metal_dir_bits(*r_in, rec.normal, fuzz, s)
                            && dot_bits(metal_dir_bits(*r_in, rec.normal, fuzz, s), rec.normal)
                            > 0,
                        None => dot_bits(
                            metal_dir_bits(*r_in, rec.normal, fuzz, s),
                            rec.normal,
                        ) <= 0,
                    }
                }),
            *self matches Material::Metal { albedo, fuzz } && fuzz.bits == 0 ==> {
                let refl = reflect_bits(unit_bits(r_in.dir), rec.normal);
                &&& (res is Some <==> dot_bits(refl, rec.normal) > 0)
                &&& match res {
                    Some(pair) => pair.1.dir == refl,
                    None => true,
                }
            },
            *self matches Material::Directric { ref_idx } ==> match res {
                Some(pair) => {
                    let ratio = if rec.front_face {
                        fx_div_bits(FX_SCALE as int, ref_idx.bits as int)
                    } else {
                        ref_idx.bits as int
                    };
                    let ud = unit_bits(r_in.dir);
                    let cos = refract_cos_bits(ud, rec.normal);
                    let cc = fx_mul_bits(cos, cos);
                    let sin2 = if FX_SCALE - cc >= 0 {
                        FX_SCALE - cc
                    } else {
                        0
                    };
                    let tir = fx_mul_bits(ratio, crate::fixed::fx_sqrt_bits(sin2));
                    &&& (tir > FX_SCALE ==> pair.1.dir == reflect_bits(ud, rec.normal))
                    &&& (pair.1.dir == reflect_bits(ud, rec.normal) || pair.1.dir == refract_bits(
                        ud,
                        rec.normal,
                        ratio,
                    ))
                },
                None => false,
            },
    {
        match self {
            Material::DefaultMaterial => None,
            Material::Lambertian { albedo } => {
                let sample = Vec3::random_unit_vector_lambert(rng);
                let dir = rec.normal.add(sample);
                Some((*albedo, Ray::new(rec.point, dir)))
            },
            Material::Metal { albedo, fuzz } => {
                let u = unit_vector(r_in.dir);
                let reflected = reflect(u, rec.normal);
                let sample = Vec3::random_in_unit_sphere(rng);
                proof {
                    lemma_fx_mul_mag(sample.x.bits as int, fuzz.bits as int, 65536, 65536);
                    lemma_fx_mul_mag(sample.y.bits as int, fuzz.bits as int, 65536, 65536);
                    lemma_fx_mul_mag(sample.z.bits as int, fuzz.bits as int, 65536, 65536);
                }
                let blur = sample.scale(*fuzz);
                let dir = reflected.add(blur);
                let scattered = Ray::new(rec.point, dir);
                let d = dot(dir, rec.normal);
                if d.bits > 0 {
                    Some((*albedo, scattered))
                } else {
                    None
                }
            },
            Material::Directric { ref_idx } => {
                let one = Fx { bits: FX_SCALE };
                let zero = Fx { bits: 0 };
                let white = Vec3::new(one, one, one);
                let ratio = if rec.front_face {
                    proof {
                        lemma_fx_div_mag(FX_SCALE as int, ref_idx.bits as int, 65536, 16384);
                        lemma_fx_div_nonneg(FX_SCALE as int, ref_idx.bits as int);
                    }
                    one.div(*ref_idx)
                } else {
                    *ref_idx
                };
                let ud = unit_vector(r_in.dir);
                let nud = ud.neg();
                proof {
                    lemma_dot_mag(nud, rec.normal, 2 * FX_SCALE as int, 2 * FX_SCALE as int);
                }
                let d0 = dot(nud, rec.normal);
                proof {
                    assert(absi(d0.bits as int) * FX_SCALE <= 3 * (131072 * 131072int));
                }
                let cos = d0.min(one);
                proof {
                    lemma_abs_mul_le(cos.bits as int, cos.bits as int, 786432, 786432);
                    lemma_fx_mul_mag(cos.bits as int, cos.bits as int, 786432, 786432);
                    lemma_square_nonneg(cos.bits as int);
                }
                let cc = cos.mul(cos);
                let sin2 = one.sub(cc).max(zero);
                let sin_theta = sin2.sqrt();
                proof {
                    lemma_sqrt_bounds(sin2.bits * FX_SCALE, sin_theta.bits as int, 0, 65537);
                    lemma_abs_mul_le(ratio.bits as int, sin_theta.bits as int, 262144, 65536);
                }
                let tir = ratio.mul(sin_theta);
                if tir.bits > one.bits {
                    let reflected = reflect(ud, rec.normal);
                    return Some((white, Ray::new(rec.point, reflected)));
                }
                let prob = schlick(cos, ratio);
                let draw = rng.next_bits(0, 65536);
                if (draw as i128) < prob.bits {
                    let reflected = reflect(ud, rec.normal);
                    return Some((white, Ray::new(rec.point, reflected)));
                }
                let refracted = refract(ud, rec.normal, ratio);
                Some((white, Ray::new(rec.point, refracted)))
            },
        }
    }
}

} // verus!
