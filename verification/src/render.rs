//! The recursive light-transport integrator and the render driver.
//!
//! `ray_color` follows one ray through the scene: at the bounce budget it
//! answers black, on a miss the vertical sky gradient, and on a hit the
//! material's attenuation times whatever the scattered ray gathers, one
//! bounce deeper. Radiance never leaves the unit interval per channel —
//! attenuation cannot create energy.
use crate::camera::{cam_wf, Camera};
use crate::fixed::{absi, fx_div_bits, fx_mul_bits, lemma_fx_mul_one, lemma_fx_mul_unit, Fx,
    FX_SCALE};

use crate::hittable_list::{list_hit_rec, valid_list, HittableList};
use crate::material::{material_attenuation, Material};
use crate::ray::{Ray, BOUNCE_STEP, DIR_MAX, ORIGIN_SAFE, T_MAX_BITS};
use crate::rng::Prng;
use crate::sphere::{sphere_hit_rec, valid_sphere};
use crate::vec3::{bounded, color_unit, unit_bits, unit_vector, Color, Vec3};
use vstd::prelude::*;

verus! {

/// Lower bound on accepted intersection parameters: a little above zero,
/// so a scattered ray cannot immediately re-strike the surface it left.
pub const SHADOW_EPS: i128 = 65;

/// The gradient key: half of one plus the vertical component of the unit
/// direction, clamped into the unit interval.
pub open spec fn background_t_bits(r: Ray) -> int {
    let u = unit_bits(r.dir);
    let t0 = fx_mul_bits(u.y.bits + FX_SCALE, 32768);
    if t0 < 0 {
        0
    } else if t0 > FX_SCALE {
        FX_SCALE as int
    } else {
        t0
    }
}

/// The sky: white at the horizon blending to sky blue straight up.
pub open spec fn background_bits(r: Ray) -> Color {
    let t = background_t_bits(r);
    Vec3 {
        x: Fx {
            bits: (fx_mul_bits(FX_SCALE as int, FX_SCALE - t) + fx_mul_bits(32768, t)) as i128,
        },
        y: Fx {
            bits: (fx_mul_bits(FX_SCALE as int, FX_SCALE - t) + fx_mul_bits(45875, t)) as i128,
        },
        z: Fx {
            bits: (fx_mul_bits(FX_SCALE as int, FX_SCALE - t) + fx_mul_bits(FX_SCALE as int,
                t,
            )) as i128,
        },
    }
}

/// The background gradient a ray sees when it misses everything.
pub fn background(r: &Ray) -> (c: Color)
    requires
        bounded(r.dir, DIR_MAX as int),
    ensures
        c == background_bits(*r),
        color_unit(c),
{
    let one = Fx { bits: FX_SCALE };
    let zero = Fx { bits: 0 };
    let half = Fx { bits: 32768 };
    let u = unit_vector(r.direction());
    proof {
        crate::fixed::lemma_fx_mul_mag(u.y.bits as int + FX_SCALE, 32768, 196608, 32768);
    }
    let t = u.y().add(one).mul(half).max(zero).min(one);
    let omt = one.sub(t);
    proof {
        lemma_fx_mul_one(omt.bits as int);
        lemma_fx_mul_one(t.bits as int);
        lemma_fx_mul_unit(32768, t.bits as int);
        lemma_fx_mul_unit(45875, t.bits as int);
        lemma_fx_mul_unit(FX_SCALE as int, t.bits as int);
    }
    let white = Vec3::new(one, one, one);
    let sky = Vec3::new(half, Fx { bits: 45875 }, one);
    white.scale(omt).add(sky.scale(t))
}

/// Energy non-creation: multiplying two unit-interval colors channel by
/// channel never exceeds either factor, so attenuation cannot brighten
/// what the scattered ray gathered.
pub fn attenuate(attenuation: Color, inner: Color) -> (r: Color)
    requires
        color_unit(attenuation),
        color_unit(inner),
    ensures
        color_unit(r),
        r.x.bits == fx_mul_bits(attenuation.x.bits as int, inner.x.bits as int),
        r.y.bits == fx_mul_bits(attenuation.y.bits as int, inner.y.bits as int),
        r.z.bits == fx_mul_bits(attenuation.z.bits as int, inner.z.bits as int),
        r.x.bits <= attenuation.x.bits && r.x.bits <= inner.x.bits,
        r.y.bits <= attenuation.y.bits && r.y.bits <= inner.y.bits,
        r.z.bits <= attenuation.z.bits && r.z.bits <= inner.z.bits,
{
    proof {
        lemma_fx_mul_unit(attenuation.x.bits as int, inner.x.bits as int);
        lemma_fx_mul_unit(attenuation.y.bits as int, inner.y.bits as int);
        lemma_fx_mul_unit(attenuation.z.bits as int, inner.z.bits as int);
    }
    attenuation.mul_elem(inner)
}

/// `c` is the channelwise truncating product of the attenuation `att` and
/// some unit-interval radiance `inner` gathered by the scattered ray.
pub open spec fn attenuated_by(c: Color, att: Color, inner: Color) -> bool {
    &&& color_unit(inner)
    &&& c.x.bits == fx_mul_bits(att.x.bits as int, inner.x.bits as int)
    &&& c.y.bits == fx_mul_bits(att.y.bits as int, inner.y.bits as int)
    &&& c.z.bits == fx_mul_bits(att.z.bits as int, inner.z.bits as int)
}

/// The integrator's full inductive account of one traced ray: black at the
/// bounce budget; the sky gradient when the scene's nearest-hit function
/// reports nothing; and on a hit, either black under an absorbing material
/// (the sentinel, or a grazing metal reflection) or the hit material's
/// attenuation times a radiance that some ray leaving the hit point
/// gathered under this same account, one bounce deeper.
pub open spec fn ray_color_post(c: Color, r: Ray, objs: Seq<crate::sphere::Sphere>, depth: nat) -> bool
    decreases depth,
{
    &&& color_unit(c)
    &&& (depth == 0 ==> c == (Vec3 { x: Fx { bits: 0 }, y: Fx { bits: 0 }, z: Fx { bits: 0 } }))
    &&& (depth > 0 ==> match list_hit_rec(objs, r, SHADOW_EPS as int, T_MAX_BITS as int) {
        None => c == background_bits(r),
        Some(h) => {
            &&& (h.material is DefaultMaterial ==> c == (Vec3 {
                x: Fx { bits: 0 },
                y: Fx { bits: 0 },
                z: Fx { bits: 0 },
            }))
            &&& ((c == (Vec3 { x: Fx { bits: 0 }, y: Fx { bits: 0 }, z: Fx { bits: 0 } }) && (
            h.material is DefaultMaterial || h.material is Metal)) || (exists|sr: Ray, inner: Color|
                {
                    &&& sr.origin == h.point
                    &&& bounded(sr.dir, DIR_MAX as int)
                    &&& attenuated_by(c, material_attenuation(h.material), inner)
                    &&& ray_color_post(inner, sr, objs, (depth - 1) as nat)
                }))
        },
    })
}

/// Radiance gathered along one ray. Black at the bounce budget and on
/// absorption, the sky gradient on a miss, and attenuated recursion on a
/// scattering hit: the result of a hit is the hit material's attenuation
/// times some unit-interval gathered radiance (or black where the material
/// may absorb), so no channel ever exceeds the attenuation's — energy is
/// never created — and the absorbing sentinel yields black exactly.
#[verifier::rlimit(100)]
pub fn ray_color(r: &Ray, world: &HittableList, depth: u32, rng: &mut Prng) -> (c: Color)
    requires
        valid_list(*world),
        bounded(r.dir, DIR_MAX as int),
        bounded(r.origin, ORIGIN_SAFE - depth * BOUNCE_STEP),
        depth * BOUNCE_STEP <= ORIGIN_SAFE,
    ensures
        color_unit(c),
        depth == 0 ==> c == (Vec3 { x: Fx { bits: 0 }, y: Fx { bits: 0 }, z: Fx { bits: 0 } }),
        (depth > 0 && (forall|i: int|
            0 <= i < world.objects@.len() ==> sphere_hit_rec(
                #[trigger] world.objects@[i],
                *r,
                SHADOW_EPS as int,
                T_MAX_BITS as int,
            ) is None)) ==> c == background_bits(*r),
        depth > 0 ==> match list_hit_rec(
            world.objects@,
            *r,
            SHADOW_EPS as int,
            T_MAX_BITS as int,
        ) {
            None => c == background_bits(*r),
            Some(h) => {
                &&& (h.material is DefaultMaterial ==> c == (Vec3 {
                    x: Fx { bits: 0 },
                    y: Fx { bits: 0 },
                    z: Fx { bits: 0 },
                }))
                &&& c.x.bits <= material_attenuation(h.material).x.bits
                &&& c.y.bits <= material_attenuation(h.material).y.bits
                &&& c.z.bits <= material_attenuation(h.material).z.bits
                &&& (c == (Vec3 { x: Fx { bits: 0 }, y: Fx { bits: 0 }, z: Fx { bits: 0 } })
                    || (exists|inner: Color| #[trigger] attenuated_by(
                    c,
                    material_attenuation(h.material),
                    inner,
                )))
                &&& ((h.material is Lambertian || h.material is Directric) ==> (exists|
                    inner: Color,
                | #[trigger] attenuated_by(c, material_attenuation(h.material), inner)))
            },
        },
        ray_color_post(c, *r, world.objects@, depth as nat),
    decreases depth,
{
    if depth == 0 {
        let black = Vec3::zero();
        proof {
            assert(ray_color_post(black, *r, world.objects@, depth as nat));
        }
        return black;
    }
    let t_min = Fx { bits: SHADOW_EPS };
    let t_max = Fx { bits: T_MAX_BITS };
    match world.hit(r, t_min, t_max) {
        Some(rec) => {
            proof {
                let i = choose|i: int|
                    0 <= i < world.objects@.len() && sphere_hit_rec(
                        #[trigger] world.objects@[i],
                        *r,
                        SHADOW_EPS as int,
                        T_MAX_BITS as int,
                    ) == Some(rec);
                assert(valid_sphere(world.objects@[i]));
                assert(rec.material == world.objects@[i].material);
                assert(0 <= material_attenuation(rec.material).x.bits);
                assert(0 <= material_attenuation(rec.material).y.bits);
                assert(0 <= material_attenuation(rec.material).z.bits);
            }
            match rec.material.scatter(r, &rec, rng) {
                Some((attenuation, scattered)) => {
                    let inner = ray_color(&scattered, world, depth - 1, rng);
                    let out = attenuate(attenuation, inner);
                    proof {
                        assert(attenuated_by(out, material_attenuation(rec.material), inner));
                        assert((depth - 1) as nat == (depth as nat - 1) as nat);
                        assert(ray_color_post(
                            inner,
                            scattered,
                            world.objects@,
                            (depth as nat - 1) as nat,
                        ));
                        assert(ray_color_post(out, *r, world.objects@, depth as nat));
                    }
                    out
                },
                None => {
                    let black = Vec3::zero();
                    proof {
                        assert(ray_color_post(black, *r, world.objects@, depth as nat));
                    }
                    black
                },
            }
        },
        None => {
            let bg = background(r);
            proof {
                assert(ray_color_post(bg, *r, world.objects@, depth as nat));
            }
            bg
        },
    }
}

/// The parameter of the nearer quadratic root, or minus one when the ray
/// misses the sphere or its direction is degenerate.
pub open spec fn hit_sphere_t_bits(center: Vec3, radius: Fx, r: Ray) -> int {
    let s = crate::sphere::Sphere { center, radius, material: Material::DefaultMaterial };
    if crate::sphere::hit_a(r) > 0 && crate::sphere::hit_disc(s, r) >= 0 {
        crate::sphere::hit_root1(s, r)
    } else {
        -(FX_SCALE as int)
    }
}

/// A standalone nearest-root probe against one sphere: the smaller root of
/// the quadratic, or minus one on a miss.
pub fn hit_sphere(center: Vec3, radius: Fx, r: &Ray) -> (t: Fx)
    requires
        bounded(center, crate::sphere::SCENE_MAX as int),
        crate::sphere::RADIUS_MIN <= absi(radius.bits as int) <= crate::sphere::SCENE_MAX,
        bounded(r.origin, ORIGIN_SAFE as int),
        bounded(r.dir, DIR_MAX as int),
    ensures
        t.bits == hit_sphere_t_bits(center, radius, *r),
{
    let oc = r.origin().sub(center);
    let a = crate::vec3::dot(r.direction(), r.direction());
    let half_b = crate::vec3::dot(oc, r.direction());
    proof {
        crate::vec3::lemma_dot_mag(r.dir, r.dir, DIR_MAX as int, DIR_MAX as int);
        crate::vec3::lemma_dot_mag(oc, r.dir, 140738562097152, DIR_MAX as int);
        crate::vec3::lemma_dot_mag(oc, oc, 140738562097152, 140738562097152);
        crate::fixed::lemma_abs_mul_le(
            radius.bits as int,
            radius.bits as int,
            crate::sphere::SCENE_MAX as int,
            crate::sphere::SCENE_MAX as int,
        );
        crate::fixed::lemma_fx_mul_mag(
            radius.bits as int,
            radius.bits as int,
            crate::sphere::SCENE_MAX as int,
            crate::sphere::SCENE_MAX as int,
        );
    }
    let oc_len = oc.length_squared();
    let r2 = radius.mul(radius);
    let c = oc_len.sub(r2);
    proof {
        crate::fixed::lemma_abs_mul_le(
            half_b.bits as int,
            half_b.bits as int,
            1729395451049803776,
            1729395451049803776,
        );
        crate::fixed::lemma_fx_mul_mag(
            half_b.bits as int,
            half_b.bits as int,
            1729395451049803776,
            1729395451049803776,
        );
        crate::fixed::lemma_abs_mul_le(
            a.bits as int,
            c.bits as int,
            3298534883328,
            906708199839395907371008,
        );
        crate::fixed::lemma_fx_mul_mag(
            a.bits as int,
            c.bits as int,
            3298534883328,
            906708199839395907371008,
        );
    }
    let hb2 = half_b.mul(half_b);
    let ac = a.mul(c);
    let disc = hb2.sub(ac);
    if a.bits > 0 && disc.bits >= 0 {
        let sqrtd = disc.sqrt();
        proof {
            crate::fixed::lemma_sqrt_bounds(
                disc.bits * FX_SCALE,
                sqrtd.bits as int,
                0,
                2445734501592831712,
            );
        }
        let num = half_b.neg().sub(sqrtd);
        num.div(a)
    } else {
        Fx { bits: -FX_SCALE }
    }
}

/// The showcase scene's ground: a huge diffuse sphere below the origin.
pub open spec fn scene_ground() -> crate::sphere::Sphere {
    crate::sphere::Sphere {
        center: Vec3 { x: Fx { bits: 0 }, y: Fx { bits: -65536000i128 }, z: Fx { bits: 0 } },
        radius: Fx { bits: 65536000 },
        material: Material::Lambertian {
            albedo: Vec3 {
                x: Fx { bits: FX_SCALE },
                y: Fx { bits: FX_SCALE },
                z: Fx { bits: FX_SCALE },
            },
        },
    }
}

/// The showcase scene's three feature spheres: glass, diffuse and metal,
/// one unit above the ground.
pub open spec fn scene_feature(k: int) -> crate::sphere::Sphere {
    if k == 0 {
        crate::sphere::Sphere {
            center: Vec3 { x: Fx { bits: 0 }, y: Fx { bits: FX_SCALE }, z: Fx { bits: 0 } },
            radius: Fx { bits: FX_SCALE },
            material: Material::Directric { ref_idx: Fx { bits: 98304 } },
        }
    } else if k == 1 {
        crate::sphere::Sphere {
            center: Vec3 { x: Fx { bits: -262144i128 }, y: Fx { bits: FX_SCALE }, z: Fx { bits: 0 } },
            radius: Fx { bits: FX_SCALE },
            material: Material::Lambertian {
                albedo: Vec3 {
                    x: Fx { bits: 26214 },
                    y: Fx { bits: 13107 },
                    z: Fx { bits: 6554 },
                },
            },
        }
    } else {
        crate::sphere::Sphere {
            center: Vec3 { x: Fx { bits: 262144 }, y: Fx { bits: FX_SCALE }, z: Fx { bits: 0 } },
            radius: Fx { bits: FX_SCALE },
            material: Material::Metal {
                albedo: Vec3 {
                    x: Fx { bits: 45875 },
                    y: Fx { bits: 39322 },
                    z: Fx { bits: 32768 },
                },
                fuzz: Fx { bits: 0 },
            },
        }
    }
}

/// The shape every small grid sphere shares: a fifth of a unit in radius,
/// resting at that height, and clear of the metal feature sphere's spot by
/// more than nine tenths of a unit.
pub open spec fn small_scene_sphere(s: crate::sphere::Sphere) -> bool {
    &&& s.radius.bits == 13107
    &&& s.center.y.bits == 13107
    &&& crate::vec3::len_bits(
        crate::vec3::sub_bits(
            s.center,
            Vec3 { x: Fx { bits: 262144 }, y: Fx { bits: 13107 }, z: Fx { bits: 0 } },
        ),
    ) > 58982
}

/// Builds the showcase scene: a huge diffuse ground sphere, a grid of small
/// randomized spheres where a die picks diffuse, metal or glass, and three
/// large spheres — glass, diffuse and metal. Every member is valid for the
/// intersection arithmetic; the ground stands first, the three feature
/// spheres last, and every sphere in between has the small grid shape.
#[verifier::loop_isolation(false)]
pub fn random_scene(rng: &mut Prng) -> (world: HittableList)
    ensures
        valid_list(world),
        4 <= world.objects@.len() <= 488,
        world.objects@[0] == scene_ground(),
        world.objects@[world.objects@.len() - 3] == scene_feature(0),
        world.objects@[world.objects@.len() - 2] == scene_feature(1),
        world.objects@[world.objects@.len() - 1] == scene_feature(2),
        forall|i: int|
            1 <= i < world.objects@.len() - 3 ==> small_scene_sphere(#[trigger] world.objects@[i]),
{
    let mut world = HittableList::default();
    let one = Fx { bits: FX_SCALE };
    let ground_material = Material::Lambertian { albedo: Vec3::new(one, one, one) };
    let ground = crate::sphere::Sphere::new(
        Vec3::new(Fx::zero(), Fx::from_int(-1000), Fx::zero()),
        Fx::from_int(1000),
        ground_material,
    );
    world.add(ground);
    let nine_tenths = Fx { bits: 58982 };
    let small_radius = Fx { bits: 13107 };
    let mut ai: u32 = 0;
    while ai < 22
        invariant
            valid_list(world),
            1 <= world.objects@.len() <= 1 + ai * 22,
            world.objects@[0] == scene_ground(),
            forall|i: int|
                1 <= i < world.objects@.len() ==> small_scene_sphere(#[trigger] world.objects@[i]),
            ai <= 22,
        decreases 22 - ai,
    {
        let mut bi: u32 = 0;
        while bi < 22
            invariant
                valid_list(world),
                1 <= world.objects@.len() <= 1 + ai * 22 + bi,
                world.objects@[0] == scene_ground(),
                forall|i: int|
                    1 <= i < world.objects@.len() ==> small_scene_sphere(
                        #[trigger] world.objects@[i],
                    ),
                ai < 22,
                bi <= 22,
            decreases 22 - bi,
        {
            let a: i32 = ai as i32 - 11;
            let b: i32 = bi as i32 - 11;
            let choose_mat = rng.next_bits(0, 65536);
            let j1 = Fx { bits: rng.next_bits(0, 65536) as i128 };
            let j2 = Fx { bits: rng.next_bits(0, 65536) as i128 };
            proof {
                crate::fixed::lemma_abs_mul_le(j1.bits as int, 58982, 65536, 58982);
                crate::fixed::lemma_abs_mul_le(j2.bits as int, 58982, 65536, 58982);
                lemma_fx_mul_unit(j1.bits as int, 58982);
                lemma_fx_mul_unit(j2.bits as int, 58982);
            }
            let center = Vec3::new(
                Fx::from_int(a).add(j1.mul(nine_tenths)),
                small_radius,
                Fx::from_int(b).add(j2.mul(nine_tenths)),
            );
            let anchor = Vec3::new(Fx::from_int(4), small_radius, Fx::zero());
            let d = center.sub(anchor);
            let dist = d.length();
            if dist.bits > nine_tenths.bits {
                let sphere_material: Material = if choose_mat < 52429 {
                    let c1 = Vec3::random(rng);
                    let c2 = Vec3::random(rng);
                    proof {
                        crate::fixed::lemma_abs_mul_le(c1.x.bits as int, c2.x.bits as int, 65536, 65536);
                        crate::fixed::lemma_abs_mul_le(c1.y.bits as int, c2.y.bits as int, 65536, 65536);
                        crate::fixed::lemma_abs_mul_le(c1.z.bits as int, c2.z.bits as int, 65536, 65536);
                        lemma_fx_mul_unit(c1.x.bits as int, c2.x.bits as int);
                        lemma_fx_mul_unit(c1.y.bits as int, c2.y.bits as int);
                        lemma_fx_mul_unit(c1.z.bits as int, c2.z.bits as int);
                    }
                    let albedo = c1.mul_elem(c2);
                    Material::Lambertian { albedo }
                } else if choose_mat < 62260 {
                    let albedo = Vec3::random(rng);
                    let fuzz = Fx { bits: rng.next_bits(0, 32768) as i128 };
                    Material::metal(albedo, fuzz)
                } else {
                    Material::Directric { ref_idx: Fx { bits: 98304 } }
                };
                world.add(crate::sphere::Sphere::new(center, small_radius, sphere_material));
            }
            bi = bi + 1;
        }
        ai = ai + 1;
    }
    let material1 = Material::Directric { ref_idx: Fx { bits: 98304 } };
    let material2 = Material::Lambertian {
        albedo: Vec3::new(Fx { bits: 26214 }, Fx { bits: 13107 }, Fx { bits: 6554 }),
    };
    let material3 = Material::metal(
        Vec3::new(Fx { bits: 45875 }, Fx { bits: 39322 }, Fx { bits: 32768 }),
        Fx::zero(),
    );
    world.add(crate::sphere::Sphere::new(Vec3::new(Fx::zero(), one, Fx::zero()), one, material1));
    world.add(
        crate::sphere::Sphere::new(Vec3::new(Fx::from_int(-4), one, Fx::zero()), one, material2),
    );
    world.add(crate::sphere::Sphere::new(Vec3::new(Fx::from_int(4), one, Fx::zero()), one, material3));
    world
}

/// A jittered image-plane coordinate: the pixel index plus a uniform draw
/// from `[0, 1)`, over the axis length, so the result lies in the pixel's
/// own window `[idx/limit, (idx+1)/limit]` and within twice the unit
/// interval even at the last pixel.
fn sample_coord(idx: u32, limit: u32, rng: &mut Prng) -> (u: Fx)
    requires
        1 <= limit <= 8192,
        idx <= limit,
    ensures
        0 <= u.bits <= 2 * FX_SCALE,
        fx_div_bits(idx * FX_SCALE, limit * FX_SCALE) <= u.bits,
        u.bits <= fx_div_bits((idx + 1) * FX_SCALE, limit * FX_SCALE),
{
    let jitter = rng.next_bits(0, 65536);
    let num = Fx { bits: (idx as i128) * FX_SCALE + (jitter as i128) };
    let den = Fx { bits: (limit as i128) * FX_SCALE };
    let u = num.div(den);
    proof {
        crate::fixed::lemma_fx_div_nonneg(num.bits as int, den.bits as int);
        crate::fixed::lemma_fx_div_mono(idx * FX_SCALE, num.bits as int, den.bits as int);
        crate::fixed::lemma_fx_div_mono(num.bits as int, (idx + 1) * FX_SCALE, den.bits as int);
        assert(num.bits * FX_SCALE <= 2 * FX_SCALE * den.bits) by (nonlinear_arith)
            requires
                1 <= limit <= 8192,
                idx <= limit,
                num.bits <= (idx + 1) * FX_SCALE,
                den.bits == limit * FX_SCALE,
                FX_SCALE == 65536,
        ;
        vstd::arithmetic::mul::lemma_mul_inequality_converse(
            absi(u.bits as int),
            2 * FX_SCALE as int,
            den.bits as int,
        );
    }
    u
}

/// The pixel is the encoding of some accumulation of at most `samples`
/// unit-interval radiance samples.
pub open spec fn encoded_pixel(p: (u8, u8, u8), samples: int) -> bool {
    exists|sum: Color|
        {
            &&& 0 <= sum.x.bits <= samples * FX_SCALE
            &&& 0 <= sum.y.bits <= samples * FX_SCALE
            &&& 0 <= sum.z.bits <= samples * FX_SCALE
            &&& p.0 == #[trigger] crate::color::encode_channel_bits(sum.x.bits as int, samples)
            &&& p.1 == crate::color::encode_channel_bits(sum.y.bits as int, samples)
            &&& p.2 == crate::color::encode_channel_bits(sum.z.bits as int, samples)
        }
}

/// Renders the scene: rows from the top of the image down, columns left to
/// right, each pixel averaged over jittered samples through the integrator
/// and encoded to 8-bit channels. Each emitted pixel is the encoding of its
/// accumulated sum; with no bounce budget at all, the whole image is black.
pub fn render(
    world: &HittableList,
    cam: &Camera,
    image_width: u32,
    image_height: u32,
    samples_per_pixel: u32,
    max_depth: u32,
    rng: &mut Prng,
) -> (pixels: Vec<(u8, u8, u8)>)
    requires
        valid_list(*world),
        cam_wf(*cam),
        2 <= image_width <= 4096,
        2 <= image_height <= 4096,
        1 <= samples_per_pixel <= 10000,
        max_depth <= 63,
    ensures
        pixels@.len() == image_width * image_height,
        forall|k: int|
            0 <= k < pixels@.len() ==> encoded_pixel(
                #[trigger] pixels@[k],
                samples_per_pixel as int,
            ),
        max_depth == 0 ==> forall|k: int|
            0 <= k < pixels@.len() ==> #[trigger] pixels@[k] == ((0u8, 0u8, 0u8)),
{
    let mut pixels: Vec<(u8, u8, u8)> = Vec::new();
    let mut row: u32 = 0;
    while row < image_height
        invariant
            valid_list(*world),
            cam_wf(*cam),
            2 <= image_width <= 4096,
            2 <= image_height <= 4096,
            1 <= samples_per_pixel <= 10000,
            max_depth <= 63,
            row <= image_height,
            pixels@.len() == row * image_width,
            forall|k: int|
                0 <= k < pixels@.len() ==> encoded_pixel(
                    #[trigger] pixels@[k],
                    samples_per_pixel as int,
                ),
            max_depth == 0 ==> forall|k: int|
                0 <= k < pixels@.len() ==> #[trigger] pixels@[k] == ((0u8, 0u8, 0u8)),
        decreases image_height - row,
    {
        let j = image_height - 1 - row;
        let mut i: u32 = 0;
        while i < image_width
            invariant
                valid_list(*world),
                cam_wf(*cam),
                2 <= image_width <= 4096,
                2 <= image_height <= 4096,
                1 <= samples_per_pixel <= 10000,
                max_depth <= 63,
                row < image_height,
                j == image_height - 1 - row,
                i <= image_width,
                pixels@.len() == row * image_width + i,
                forall|k: int|
                    0 <= k < pixels@.len() ==> encoded_pixel(
                        #[trigger] pixels@[k],
                        samples_per_pixel as int,
                    ),
                max_depth == 0 ==> forall|k: int|
                    0 <= k < pixels@.len() ==> #[trigger] pixels@[k] == ((0u8, 0u8, 0u8)),
            decreases image_width - i,
        {
            let mut pixel_color = Vec3::zero();
            let mut s: u32 = 0;
            while s < samples_per_pixel
                invariant
                    valid_list(*world),
                    cam_wf(*cam),
                    2 <= image_width <= 4096,
                    2 <= image_height <= 4096,
                    1 <= samples_per_pixel <= 10000,
                    max_depth <= 63,
                    row < image_height,
                    j == image_height - 1 - row,
                    i < image_width,
                    s <= samples_per_pixel,
                    0 <= pixel_color.x.bits <= s * FX_SCALE,
                    0 <= pixel_color.y.bits <= s * FX_SCALE,
                    0 <= pixel_color.z.bits <= s * FX_SCALE,
                    max_depth == 0 ==> pixel_color == (Vec3 {
                        x: Fx { bits: 0 },
                        y: Fx { bits: 0 },
                        z: Fx { bits: 0 },
                    }),
                decreases samples_per_pixel - s,
            {
                let u = sample_coord(i, image_width - 1, rng);
                let v = sample_coord(j, image_height - 1, rng);
                let r = cam.get_ray(u, v);
                let sample = ray_color(&r, world, max_depth, rng);
                pixel_color = pixel_color.add(sample);
                s = s + 1;
            }
            let rgb = crate::color::encode_color(pixel_color, samples_per_pixel);
            proof {
                assert(encoded_pixel(rgb, samples_per_pixel as int));
                if max_depth == 0 {
                    crate::color::lemma_encode_zero(samples_per_pixel as int);
                    assert(rgb == ((0u8, 0u8, 0u8)));
                }
            }
            pixels.push(rgb);
            i = i + 1;
        }
        proof {
            assert((row + 1) * image_width == row * image_width + image_width)
                by (nonlinear_arith);
        }
        row = row + 1;
    }
    proof {
        assert(image_height * image_width == image_width * image_height) by (nonlinear_arith);
    }
    pixels
}

} // verus!
