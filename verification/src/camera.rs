//! The camera: image-plane coordinates to world-space rays.
//!
//! Construction builds an orthonormal-by-intent basis from look-from,
//! look-at and up, and derives the viewport spans and the lower-left corner
//! of the image plane. The vertical field of view enters as the tangent of
//! its half angle — the viewport's half height at unit distance — since
//! trigonometry has no place on the fixed-point grid.
use crate::fixed::{fx_div_bits, fx_mul_bits, lemma_fx_mul_mag, Fx, FX_SCALE};
use crate::ray::{Ray, DIR_MAX};
use crate::vec3::{
    bounded, cross, cross_x_bits, cross_y_bits, cross_z_bits, sub_bits, unit_bits, unit_vector,
    Point3, Vec3,
};
use vstd::prelude::*;

verus! {

/// Componentwise cap on the camera's input points and vectors.
pub const CAM_IN_MAX: i128 = 67108864;

/// The camera basis at the specification level: `w` looks backward,
/// `u` spans the image plane to the right, `v` spans it upward.
pub open spec fn cam_w(lookfrom: Point3, lookat: Point3) -> Vec3 {
    unit_bits(sub_bits(lookfrom, lookat))
}

/// The rightward basis vector.
pub open spec fn cam_u(lookfrom: Point3, lookat: Point3, vup: Vec3) -> Vec3 {
    unit_bits(cross_v_bits(vup, cam_w(lookfrom, lookat)))
}

/// The upward basis vector.
pub open spec fn cam_v(lookfrom: Point3, lookat: Point3, vup: Vec3) -> Vec3 {
    cross_v_bits(cam_w(lookfrom, lookat), cam_u(lookfrom, lookat, vup))
}

/// The cross product assembled into a vector, at the specification level.
pub open spec fn cross_v_bits(u: Vec3, v: Vec3) -> Vec3 {
    Vec3 {
        x: Fx { bits: cross_x_bits(u, v) as i128 },
        y: Fx { bits: cross_y_bits(u, v) as i128 },
        z: Fx { bits: cross_z_bits(u, v) as i128 },
    }
}

/// A vector scaled by a scalar, at the specification level.
pub open spec fn scale_bits(v: Vec3, t: int) -> Vec3 {
    Vec3 {
        x: Fx { bits: fx_mul_bits(v.x.bits as int, t) as i128 },
        y: Fx { bits: fx_mul_bits(v.y.bits as int, t) as i128 },
        z: Fx { bits: fx_mul_bits(v.z.bits as int, t) as i128 },
    }
}

/// Maps image-plane coordinates to world-space rays.
#[derive(Clone, Copy, Debug, PartialEq, Eq, Structural)]
pub struct Camera {
    pub origin: Point3,
    pub right: Vec3,
    pub up: Vec3,
    pub lower_left_corner: Point3,
}

/// The derived fields sit in the ranges `get_ray`'s arithmetic needs.
pub open spec fn cam_wf(c: Camera) -> bool {
    bounded(c.origin, CAM_IN_MAX as int) && bounded(c.right, 8388608) && bounded(c.up, 8388608)
        && bounded(c.lower_left_corner, 134217728)
}

impl Camera {
    /// Builds the camera from look-from, look-at, the up direction, the
    /// tangent of half the vertical field of view, and the aspect ratio.
    #[verifier::rlimit(60)]
    pub fn new(lookfrom: Point3, lookat: Point3, vup: Vec3, half_height: Fx, aspect_ratio: Fx) -> (c: Camera)
        requires
            bounded(lookfrom, CAM_IN_MAX as int),
            bounded(lookat, CAM_IN_MAX as int),
            bounded(vup, CAM_IN_MAX as int),
            0 <= half_height.bits <= 8 * FX_SCALE,
            0 <= aspect_ratio.bits <= 4 * FX_SCALE,
        ensures
            cam_wf(c),
            c.origin == lookfrom,
            ({
                let w = cam_w(lookfrom, lookat);
                let u = cam_u(lookfrom, lookat, vup);
                let v = cam_v(lookfrom, lookat, vup);
                let vh = 2 * half_height.bits;
                let vw = fx_mul_bits(aspect_ratio.bits as int, vh);
                c.right == scale_bits(u, vw) && c.up == scale_bits(v, vh)
                    && c.lower_left_corner == (Vec3 {
                    x: Fx {
                        bits: (lookfrom.x.bits - fx_div_bits(c.right.x.bits as int, 2 * FX_SCALE)
                            - fx_div_bits(c.up.x.bits as int, 2 * FX_SCALE) - w.x.bits) as i128,
                    },
                    y: Fx {
                        bits: (lookfrom.y.bits - fx_div_bits(c.right.y.bits as int, 2 * FX_SCALE)
                            - fx_div_bits(c.up.y.bits as int, 2 * FX_SCALE) - w.y.bits) as i128,
                    },
                    z: Fx {
                        bits: (lookfrom.z.bits - fx_div_bits(c.right.z.bits as int, 2 * FX_SCALE)
                            - fx_div_bits(c.up.z.bits as int, 2 * FX_SCALE) - w.z.bits) as i128,
                    },
                })
            }),
    {
        let w = unit_vector(lookfrom.sub(lookat));
        let cw = cross(vup, w);
        proof {
            lemma_fx_mul_mag(vup.y.bits as int, w.z.bits as int, CAM_IN_MAX as int, 131072);
            lemma_fx_mul_mag(vup.z.bits as int, w.y.bits as int, CAM_IN_MAX as int, 131072);
            lemma_fx_mul_mag(vup.z.bits as int, w.x.bits as int, CAM_IN_MAX as int, 131072);
            lemma_fx_mul_mag(vup.x.bits as int, w.z.bits as int, CAM_IN_MAX as int, 131072);
            lemma_fx_mul_mag(vup.x.bits as int, w.y.bits as int, CAM_IN_MAX as int, 131072);
            lemma_fx_mul_mag(vup.y.bits as int, w.x.bits as int, CAM_IN_MAX as int, 131072);
        }
        proof {
            assert(w == cam_w(lookfrom, lookat));
            assert(cw == cross_v_bits(vup, w));
        }
        let u = unit_vector(cw);
        let v = cross(w, u);
        proof {
            assert(u == cam_u(lookfrom, lookat, vup));
            lemma_fx_mul_mag(w.y.bits as int, u.z.bits as int, 131072, 131072);
            lemma_fx_mul_mag(w.z.bits as int, u.y.bits as int, 131072, 131072);
            lemma_fx_mul_mag(w.z.bits as int, u.x.bits as int, 131072, 131072);
            lemma_fx_mul_mag(w.x.bits as int, u.z.bits as int, 131072, 131072);
            lemma_fx_mul_mag(w.x.bits as int, u.y.bits as int, 131072, 131072);
            lemma_fx_mul_mag(w.y.bits as int, u.x.bits as int, 131072, 131072);
        }
        let viewport_height = half_height.add(half_height);
        proof {
            crate::fixed::lemma_abs_mul_le(
                aspect_ratio.bits as int,
                viewport_height.bits as int,
                262144,
                1048576,
            );
            lemma_fx_mul_mag(aspect_ratio.bits as int, viewport_height.bits as int, 262144, 1048576);
        }
        let viewport_width = aspect_ratio.mul(viewport_height);
        proof {
            lemma_fx_mul_mag(u.x.bits as int, viewport_width.bits as int, 131072, 4194304);
            lemma_fx_mul_mag(u.y.bits as int, viewport_width.bits as int, 131072, 4194304);
            lemma_fx_mul_mag(u.z.bits as int, viewport_width.bits as int, 131072, 4194304);
            lemma_fx_mul_mag(v.x.bits as int, viewport_height.bits as int, 524288, 1048576);
            lemma_fx_mul_mag(v.y.bits as int, viewport_height.bits as int, 524288, 1048576);
            lemma_fx_mul_mag(v.z.bits as int, viewport_height.bits as int, 524288, 1048576);
        }
        let right = u.scale(viewport_width);
        let up = v.scale(viewport_height);
        proof {
            assert(v == cam_v(lookfrom, lookat, vup));
            assert(viewport_height.bits == 2 * half_height.bits);
            assert(right == scale_bits(u, viewport_width.bits as int));
            assert(up == scale_bits(v, viewport_height.bits as int));
        }
        let two = Fx { bits: 2 * FX_SCALE };
        let half_right = right.div_scalar(two);
        let half_up = up.div_scalar(two);
        let lower_left_corner = lookfrom.sub(half_right).sub(half_up).sub(w);
        Camera { origin: lookfrom, right, up, lower_left_corner }
    }

    /// The ray from the camera origin toward the image-plane point at
    /// horizontal fraction `s` and vertical fraction `t`.
    pub fn get_ray(&self, s: Fx, t: Fx) -> (r: Ray)
        requires
            cam_wf(*self),
            0 <= s.bits <= 2 * FX_SCALE,
            0 <= t.bits <= 2 * FX_SCALE,
        ensures
            r.origin == self.origin,
            r.dir == (Vec3 {
                x: Fx {
                    bits: (self.lower_left_corner.x.bits + fx_mul_bits(
                        self.right.x.bits as int,
                        s.bits as int,
                    ) + fx_mul_bits(self.up.x.bits as int, t.bits as int)
                        - self.origin.x.bits) as i128,
                },
                y: Fx {
                    bits: (self.lower_left_corner.y.bits + fx_mul_bits(
                        self.right.y.bits as int,
                        s.bits as int,
                    ) + fx_mul_bits(self.up.y.bits as int, t.bits as int)
                        - self.origin.y.bits) as i128,
                },
                z: Fx {
                    bits: (self.lower_left_corner.z.bits + fx_mul_bits(
                        self.right.z.bits as int,
                        s.bits as int,
                    ) + fx_mul_bits(self.up.z.bits as int, t.bits as int)
                        - self.origin.z.bits) as i128,
                },
            }),
            bounded(r.dir, DIR_MAX as int),
    {
        proof {
            lemma_fx_mul_mag(self.right.x.bits as int, s.bits as int, 8388608, 131072);
            lemma_fx_mul_mag(self.right.y.bits as int, s.bits as int, 8388608, 131072);
            lemma_fx_mul_mag(self.right.z.bits as int, s.bits as int, 8388608, 131072);
            lemma_fx_mul_mag(self.up.x.bits as int, t.bits as int, 8388608, 131072);
            lemma_fx_mul_mag(self.up.y.bits as int, t.bits as int, 8388608, 131072);
            lemma_fx_mul_mag(self.up.z.bits as int, t.bits as int, 8388608, 131072);
        }
        let dir = self.lower_left_corner.add(self.right.scale(s)).add(self.up.scale(t)).sub(
            self.origin,
        );
        Ray::new(self.origin, dir)
    }
}

} // verus!
