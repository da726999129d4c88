//! Vectors, rays, spheres and the scene aggregate on exact inputs.
use ray_tracing::fixed::Fx;
use ray_tracing::hittable_list::HittableList;
use ray_tracing::material::Material;
use ray_tracing::ray::Ray;
use ray_tracing::sphere::Sphere;
use ray_tracing::vec3::{cross, dot, reflect, unit_vector, Vec3};

fn v(x: i128, y: i128, z: i128) -> Vec3 {
    Vec3::new(Fx::from_bits(x), Fx::from_bits(y), Fx::from_bits(z))
}

const ONE: i128 = 65536;

fn gray() -> Material {
    Material::Lambertian { albedo: v(32768, 32768, 32768) }
}

#[test]
fn dot_and_cross_axes() {
    let ex = v(ONE, 0, 0);
    let ey = v(0, ONE, 0);
    let ez = v(0, 0, ONE);
    assert_eq!(dot(ex, ey).bits, 0);
    assert_eq!(dot(ex, ex).bits, ONE);
    assert_eq!(cross(ex, ey), ez);
    assert_eq!(cross(ey, ez), ex);
}

#[test]
fn unit_vector_normalizes() {
    // (3, 4, 0) has length 5
    let u = unit_vector(v(3 * ONE, 4 * ONE, 0));
    assert_eq!(u.x.bits, 39321); // 0.6 rounded down
    assert_eq!(u.y.bits, 52428); // 0.8 rounded down
    assert_eq!(u.z.bits, 0);
    // the zero vector maps to itself
    assert_eq!(unit_vector(v(0, 0, 0)), v(0, 0, 0));
}

#[test]
fn ray_at_walks_the_line() {
    let r = Ray::new(v(ONE, 0, 0), v(0, 0, -ONE));
    let p = r.at(Fx::from_bits(98304)); // t = 1.5
    assert_eq!(p, v(ONE, 0, -98304));
}

#[test]
fn reflect_about_axis_negates_projection() {
    // All values exact: n along -z, v = (1, 2, 3).
    let vin = v(ONE, 2 * ONE, 3 * ONE);
    let n = v(0, 0, -ONE);
    let r = reflect(vin, n);
    assert_eq!(r, v(ONE, 2 * ONE, -3 * ONE));
    // the reflection law at these exact values
    assert_eq!(dot(r, n).bits, -dot(vin, n).bits);
}

#[test]
fn sphere_hit_from_outside() {
    // Ray from the origin straight at a sphere of radius 0.5 at z = -2.
    let s = Sphere::new(v(0, 0, -2 * ONE), Fx::from_bits(32768), gray());
    let r = Ray::new(v(0, 0, 0), v(0, 0, -ONE));
    let h = s.hit(&r, Fx::from_bits(65), Fx::from_bits(1 << 29)).unwrap();
    // nearest root t = 1.5, exactly on the grid
    assert_eq!(h.t.bits, 98304);
    assert!(h.t.bits > 0);
    assert_eq!(h.point, v(0, 0, -98304));
    // |hit point - center| equals the radius exactly here
    let d = h.point.sub(s.center);
    assert_eq!(d.length().bits, 32768);
    // the ray arrives from outside, against the outward normal
    assert!(h.front_face);
    assert_eq!(h.normal, v(0, 0, ONE));
    assert!(dot(r.direction(), h.normal).bits <= 0);
}

#[test]
fn sphere_hit_from_inside_flips_normal() {
    let s = Sphere::new(v(0, 0, 0), Fx::from_bits(ONE), gray());
    let r = Ray::new(v(0, 0, 0), v(0, 0, -ONE));
    let h = s.hit(&r, Fx::from_bits(65), Fx::from_bits(1 << 29)).unwrap();
    assert_eq!(h.t.bits, ONE);
    // origin inside: not a front face, and the normal still opposes the ray
    assert!(!h.front_face);
    assert_eq!(h.normal, v(0, 0, ONE));
    assert!(dot(r.direction(), h.normal).bits <= 0);
}

#[test]
fn sphere_miss_and_window() {
    let s = Sphere::new(v(0, 0, -2 * ONE), Fx::from_bits(32768), gray());
    // pointing away
    let r = Ray::new(v(0, 0, 0), v(0, 0, ONE));
    assert!(s.hit(&r, Fx::from_bits(65), Fx::from_bits(1 << 29)).is_none());
    // window excludes both roots
    let toward = Ray::new(v(0, 0, 0), v(0, 0, -ONE));
    assert!(s.hit(&toward, Fx::from_bits(65), Fx::from_bits(ONE)).is_none());
    // window between the roots picks the larger one
    let h = s.hit(&toward, Fx::from_bits(2 * ONE), Fx::from_bits(1 << 29)).unwrap();
    assert_eq!(h.t.bits, 163840); // t = 2.5, the far side
    assert!(!h.front_face);
}

#[test]
fn nearest_hit_wins_regardless_of_order() {
    let near = Sphere::new(v(0, 0, -2 * ONE), Fx::from_bits(32768), gray());
    let far = Sphere::new(v(0, 0, -3 * ONE), Fx::from_bits(32768), gray());
    let r = Ray::new(v(0, 0, 0), v(0, 0, -ONE));
    let t_min = Fx::from_bits(65);
    let t_max = Fx::from_bits(1 << 29);

    let mut world_a = HittableList::default();
    world_a.add(near);
    world_a.add(far);
    let ha = world_a.hit(&r, t_min, t_max).unwrap();

    let mut world_b = HittableList::default();
    world_b.add(far);
    world_b.add(near);
    let hb = world_b.hit(&r, t_min, t_max).unwrap();

    assert_eq!(ha.t.bits, 98304);
    assert_eq!(hb.t.bits, 98304);
    assert_eq!(ha.point, hb.point);
}

#[test]
fn empty_scene_misses() {
    let world = HittableList::default();
    let r = Ray::new(v(0, 0, 0), v(0, 0, -ONE));
    assert!(world.hit(&r, Fx::from_bits(65), Fx::from_bits(1 << 29)).is_none());
}

#[test]
fn clear_empties_the_scene() {
    let mut world = HittableList::default();
    world.add(Sphere::new(v(0, 0, -2 * ONE), Fx::from_bits(32768), gray()));
    world.clear();
    let r = Ray::new(v(0, 0, 0), v(0, 0, -ONE));
    assert!(world.hit(&r, Fx::from_bits(65), Fx::from_bits(1 << 29)).is_none());
}

#[test]
fn negative_radius_flips_outward_normal() {
    // A hollow shell: same geometry, outward normal points inward.
    let s = Sphere::new(v(0, 0, -2 * ONE), Fx::from_bits(-32768), gray());
    let r = Ray::new(v(0, 0, 0), v(0, 0, -ONE));
    let h = s.hit(&r, Fx::from_bits(65), Fx::from_bits(1 << 29)).unwrap();
    assert_eq!(h.t.bits, 98304);
    // outward normal flipped by the sign, so the ray strikes a back face
    assert!(!h.front_face);
    // and the stored normal is bent against the ray all the same
    assert!(dot(r.direction(), h.normal).bits <= 0);
}
