//! Materials, the integrator, the encoder, and an end-to-end render.
use ray_tracing::camera::Camera;
use ray_tracing::color::encode_color;
use ray_tracing::fixed::Fx;
use ray_tracing::hittable::HitRecord;
use ray_tracing::hittable_list::HittableList;
use ray_tracing::material::Material;
use ray_tracing::ray::Ray;
use ray_tracing::render::{hit_sphere, random_scene, ray_color, render};
use ray_tracing::rng::Prng;
use ray_tracing::sphere::Sphere;
use ray_tracing::vec3::{Vec3};

fn v(x: i128, y: i128, z: i128) -> Vec3 {
    Vec3::new(Fx::from_bits(x), Fx::from_bits(y), Fx::from_bits(z))
}

const ONE: i128 = 65536;

fn record_at_origin_facing_z(material: Material) -> HitRecord {
    HitRecord {
        point: v(0, 0, -ONE),
        normal: v(0, 0, ONE),
        material,
        t: Fx::from_bits(ONE),
        front_face: true,
    }
}

#[test]
fn default_material_absorbs() {
    let m = Material::DefaultMaterial;
    let rec = record_at_origin_facing_z(m);
    let r = Ray::new(v(0, 0, 0), v(0, 0, -ONE));
    let mut rng = Prng::from_seed(7);
    assert!(m.scatter(&r, &rec, &mut rng).is_none());
}

#[test]
fn lambertian_scatters_with_albedo() {
    let albedo = v(45875, 19661, 19661);
    let m = Material::Lambertian { albedo };
    let rec = record_at_origin_facing_z(m);
    let r = Ray::new(v(0, 0, 0), v(0, 0, -ONE));
    let mut rng = Prng::from_seed(7);
    let (attenuation, scattered) = m.scatter(&r, &rec, &mut rng).unwrap();
    assert_eq!(attenuation, albedo);
    assert_eq!(scattered.origin(), rec.point);
    // energy non-creation: every channel within the unit interval
    assert!(0 <= attenuation.x.bits && attenuation.x.bits <= ONE);
    assert!(0 <= attenuation.y.bits && attenuation.y.bits <= ONE);
    assert!(0 <= attenuation.z.bits && attenuation.z.bits <= ONE);
}

#[test]
fn metal_reflects_off_the_surface() {
    let albedo = v(45875, 39322, 32768);
    let m = Material::metal(albedo, Fx::from_bits(0));
    let rec = record_at_origin_facing_z(m);
    // grazing in at 45 degrees
    let r = Ray::new(v(-ONE, 0, 0), v(ONE, 0, -ONE));
    let mut rng = Prng::from_seed(7);
    let (attenuation, scattered) = m.scatter(&r, &rec, &mut rng).unwrap();
    assert_eq!(attenuation, albedo);
    // an unblurred metal is a deterministic mirror: the exact grid value
    assert_eq!(scattered.direction(), v(46341, 0, 46341));
    // and the reflected direction points away from the surface
    let d = ray_tracing::vec3::dot(scattered.direction(), rec.normal);
    assert!(d.bits > 0);
}

#[test]
fn dielectric_total_internal_reflection_mirrors() {
    // A ray leaving glass (back face) at a grazing angle: the critical
    // condition forces reflection, deterministically.
    let m = Material::Directric { ref_idx: Fx::from_bits(98304) };
    let rec = HitRecord {
        point: v(0, 0, -ONE),
        normal: v(0, 0, ONE),
        material: m,
        t: Fx::from_bits(ONE),
        front_face: false,
    };
    let r = Ray::new(v(-ONE, 0, 0), v(ONE, 0, -22937)); // (1, 0, -0.35)
    let mut rng = Prng::from_seed(7);
    let (attenuation, scattered) = m.scatter(&r, &rec, &mut rng).unwrap();
    assert_eq!(attenuation, v(ONE, ONE, ONE));
    assert_eq!(scattered.direction(), v(61857, 0, 21649));
}

#[test]
fn metal_fuzz_clamped_at_construction() {
    let albedo = v(ONE, ONE, ONE);
    match Material::metal(albedo, Fx::from_bits(3 * ONE)) {
        Material::Metal { fuzz, .. } => assert_eq!(fuzz.bits, ONE),
        _ => panic!("metal constructor must yield a metal"),
    }
    match Material::metal(albedo, Fx::from_bits(-5)) {
        Material::Metal { fuzz, .. } => assert_eq!(fuzz.bits, 0),
        _ => panic!("metal constructor must yield a metal"),
    }
}

#[test]
fn dielectric_always_scatters_white() {
    let m = Material::Directric { ref_idx: Fx::from_bits(98304) };
    let rec = record_at_origin_facing_z(m);
    let r = Ray::new(v(0, 0, 0), v(0, 0, -ONE));
    let mut rng = Prng::from_seed(7);
    let (attenuation, scattered) = m.scatter(&r, &rec, &mut rng).unwrap();
    assert_eq!(attenuation, v(ONE, ONE, ONE));
    assert_eq!(scattered.origin(), rec.point);
}

#[test]
fn depth_zero_is_black() {
    let mut world = HittableList::default();
    world.add(Sphere::new(v(0, 0, -2 * ONE), Fx::from_bits(32768), Material::Lambertian {
        albedo: v(ONE, ONE, ONE),
    }));
    let r = Ray::new(v(0, 0, 0), v(0, 0, -ONE));
    let mut rng = Prng::from_seed(1);
    let c = ray_color(&r, &world, 0, &mut rng);
    assert_eq!(c, v(0, 0, 0));
}

#[test]
fn background_straight_up_is_sky_blue() {
    let world = HittableList::default();
    let r = Ray::new(v(0, 0, 0), v(0, ONE, 0));
    let mut rng = Prng::from_seed(1);
    let c = ray_color(&r, &world, 8, &mut rng);
    assert_eq!(c, v(32768, 45875, ONE));
}

#[test]
fn background_straight_down_is_white() {
    let world = HittableList::default();
    let r = Ray::new(v(0, 0, 0), v(0, -ONE, 0));
    let mut rng = Prng::from_seed(1);
    let c = ray_color(&r, &world, 8, &mut rng);
    assert_eq!(c, v(ONE, ONE, ONE));
}

#[test]
fn radiance_never_exceeds_one() {
    let mut world = HittableList::default();
    world.add(Sphere::new(v(0, 0, -2 * ONE), Fx::from_bits(32768), Material::Lambertian {
        albedo: v(ONE, ONE, ONE),
    }));
    world.add(Sphere::new(v(0, -6586368, -ONE), Fx::from_bits(6553600), Material::metal(
        v(52428, 52428, 52428),
        Fx::from_bits(13107),
    )));
    let mut rng = Prng::from_seed(11);
    for k in 0..32i128 {
        let r = Ray::new(v(0, 0, 0), v((k - 16) * 4096, -8192, -ONE));
        let c = ray_color(&r, &world, 16, &mut rng);
        assert!(0 <= c.x.bits && c.x.bits <= ONE);
        assert!(0 <= c.y.bits && c.y.bits <= ONE);
        assert!(0 <= c.z.bits && c.z.bits <= ONE);
    }
}

#[test]
fn encoder_full_white_and_black() {
    let samples: u32 = 16;
    let full = v(16 * ONE, 16 * ONE, 16 * ONE);
    assert_eq!(encode_color(full, samples), (255, 255, 255));
    assert_eq!(encode_color(v(0, 0, 0), samples), (0, 0, 0));
}

#[test]
fn encoder_gamma_curve() {
    // an averaged channel of 0.25 gamma-encodes to 0.5, quantized to 128
    let samples: u32 = 4;
    let quarter = v(4 * 16384, 4 * 16384, 4 * 16384);
    assert_eq!(encode_color(quarter, samples), (128, 128, 128));
}

#[test]
fn hit_sphere_probe_matches_quadratic() {
    let r = Ray::new(v(0, 0, 0), v(0, 0, -ONE));
    let t = hit_sphere(v(0, 0, -2 * ONE), Fx::from_bits(32768), &r);
    assert_eq!(t.bits, 98304); // t = 1.5
    // a ray pointing away still reports the (negative) root behind it
    let away = Ray::new(v(0, 0, 0), v(0, 0, ONE));
    let behind = hit_sphere(v(0, 0, -2 * ONE), Fx::from_bits(32768), &away);
    assert_eq!(behind.bits, -163840); // t = -2.5
    // a sideways ray misses outright: negative discriminant
    let sideways = Ray::new(v(0, 0, 0), v(0, ONE, 0));
    let miss = hit_sphere(v(0, 0, -2 * ONE), Fx::from_bits(32768), &sideways);
    assert_eq!(miss.bits, -ONE);
}

#[test]
fn render_scene_reproducible_and_plausible() {
    // One diffuse ground sphere and one red-ish foreground sphere, camera at
    // the origin looking down the negative z axis.
    let mut world = HittableList::default();
    world.add(Sphere::new(v(0, -6586368, -ONE), Fx::from_bits(6553600), Material::Lambertian {
        albedo: v(52428, 52428, 0),
    }));
    world.add(Sphere::new(v(0, 0, -ONE), Fx::from_bits(32768), Material::Lambertian {
        albedo: v(45875, 19661, 19661),
    }));
    let cam = Camera::new(
        v(0, 0, 0),
        v(0, 0, -ONE),
        v(0, ONE, 0),
        Fx::from_bits(ONE),     // 90 degree vertical field of view
        Fx::from_bits(116508),  // 16:9
    );
    let width: u32 = 16;
    let height: u32 = 9;
    let mut rng1 = Prng::from_seed(42);
    let first = render(&world, &cam, width, height, 8, 12, &mut rng1);
    let mut rng2 = Prng::from_seed(42);
    let second = render(&world, &cam, width, height, 8, 12, &mut rng2);
    // byte-for-byte identical under the same seed
    assert_eq!(first, second);
    assert_eq!(first.len(), (width * height) as usize);
    // center pixel is tinted toward the red-ish foreground albedo
    let (cr, cg, cb) = first[(4 * width + 8) as usize];
    assert!(cr > cg && cr > cb);
    // a top-row pixel shows the sky gradient, blue ahead of red
    let (tr, _tg, tb) = first[2];
    assert!(tb > tr);
    // a different seed gives a different image
    let mut rng3 = Prng::from_seed(43);
    let third = render(&world, &cam, width, height, 8, 12, &mut rng3);
    assert_ne!(first, third);
}

#[test]
fn render_with_no_bounce_budget_is_black() {
    let mut world = HittableList::default();
    world.add(Sphere::new(v(0, 0, -ONE), Fx::from_bits(32768), Material::Lambertian {
        albedo: v(ONE, ONE, ONE),
    }));
    let cam = Camera::new(
        v(0, 0, 0),
        v(0, 0, -ONE),
        v(0, ONE, 0),
        Fx::from_bits(ONE),
        Fx::from_bits(116508),
    );
    let mut rng = Prng::from_seed(9);
    let pixels = render(&world, &cam, 4, 3, 2, 0, &mut rng);
    assert_eq!(pixels.len(), 12);
    for p in pixels {
        assert_eq!(p, (0, 0, 0));
    }
}

#[test]
fn random_scene_builds_and_renders() {
    let mut rng = Prng::from_seed(5);
    let world = random_scene(&mut rng);
    let cam = Camera::new(
        v(13 * ONE, 2 * ONE, 3 * ONE),
        v(0, 0, 0),
        v(0, ONE, 0),
        Fx::from_bits(11556),   // tan of half of 20 degrees
        Fx::from_bits(116508),  // 16:9
    );
    let pixels = render(&world, &cam, 8, 4, 2, 6, &mut rng);
    assert_eq!(pixels.len(), 32);
    for (r, g, b) in pixels {
        let _ = (r, g, b);
    }
}
