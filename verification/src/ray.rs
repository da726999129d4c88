//! Rays: an origin and a direction.
use crate::fixed::{absi, fx_mul_bits, lemma_fx_mul_mag, Fx, FX_SCALE};
use crate::vec3::{bounded, Point3, Vec3, VEC_ADD_SAFE, VEC_FACTOR_SAFE};
use vstd::prelude::*;

verus! {

/// Componentwise cap on ray directions. Camera rays and every scattered
/// direction stay well under it.
pub const DIR_MAX: i128 = 268435456;

/// Componentwise cap on ray origins at full bounce budget.
pub const ORIGIN_SAFE: i128 = 140737488355328;

/// Far clip for intersection parameters, standing in for infinity.
pub const T_MAX_BITS: i128 = 536870912;

/// How far a hit point can drift from the ray origin per component: the far
/// clip times the direction cap, at scale.
pub const BOUNCE_STEP: i128 = 2199023255552;

/// An origin with a direction of travel.
#[derive(Clone, Copy, Debug, PartialEq, Eq, Structural)]
pub struct Ray {
    pub origin: Point3,
    pub dir: Vec3,
}

/// The point the ray reaches at parameter `t`, at the fixed-point grid,
/// per component.
pub open spec fn at_bits(r: Ray, t: int) -> Vec3 {
    Vec3 {
        x: Fx { bits: (r.origin.x.bits + fx_mul_bits(r.dir.x.bits as int, t)) as i128 },
        y: Fx { bits: (r.origin.y.bits + fx_mul_bits(r.dir.y.bits as int, t)) as i128 },
        z: Fx { bits: (r.origin.z.bits + fx_mul_bits(r.dir.z.bits as int, t)) as i128 },
    }
}

impl Ray {
    /// The ray at the origin pointing nowhere.
    pub fn default() -> (r: Ray)
        ensures
            r.origin == (Vec3 { x: Fx { bits: 0 }, y: Fx { bits: 0 }, z: Fx { bits: 0 } }),
            r.dir == (Vec3 { x: Fx { bits: 0 }, y: Fx { bits: 0 }, z: Fx { bits: 0 } }),
    {
        Ray { origin: Vec3::zero(), dir: Vec3::zero() }
    }

    /// Builds a ray from origin and direction.
    pub fn new(o: Point3, d: Vec3) -> (r: Ray)
        ensures
            r.origin == o,
            r.dir == d,
    {
        Ray { origin: o, dir: d }
    }

    /// The origin.
    pub fn origin(self) -> (r: Point3)
        ensures
            r == self.origin,
    {
        self.origin
    }

    /// The direction.
    pub fn direction(self) -> (r: Vec3)
        ensures
            r == self.dir,
    {
        self.dir
    }

    /// Evaluates the ray at parameter `t`. The result stays within a bounce
    /// step of the origin whenever direction and parameter are in range.
    pub fn at(self, t: Fx) -> (p: Point3)
        requires
            bounded(self.origin, VEC_ADD_SAFE as int),
            bounded(self.dir, VEC_FACTOR_SAFE as int),
            absi(t.bits as int) <= VEC_FACTOR_SAFE,
        ensures
            p == at_bits(self, t.bits as int),
            bounded(self.dir, DIR_MAX as int) && absi(t.bits as int) <= T_MAX_BITS ==> (absi(
                p.x.bits as int,
            ) <= absi(self.origin.x.bits as int) + BOUNCE_STEP && absi(p.y.bits as int) <= absi(
                self.origin.y.bits as int,
            ) + BOUNCE_STEP && absi(p.z.bits as int) <= absi(self.origin.z.bits as int)
                + BOUNCE_STEP),
    {
        proof {
            lemma_fx_mul_mag(
                self.dir.x.bits as int,
                t.bits as int,
                VEC_FACTOR_SAFE as int,
                VEC_FACTOR_SAFE as int,
            );
            lemma_fx_mul_mag(
                self.dir.y.bits as int,
                t.bits as int,
                VEC_FACTOR_SAFE as int,
                VEC_FACTOR_SAFE as int,
            );
            lemma_fx_mul_mag(
                self.dir.z.bits as int,
                t.bits as int,
                VEC_FACTOR_SAFE as int,
                VEC_FACTOR_SAFE as int,
            );
            if bounded(self.dir, DIR_MAX as int) && absi(t.bits as int) <= T_MAX_BITS {
                lemma_fx_mul_mag(self.dir.x.bits as int, t.bits as int, DIR_MAX as int, T_MAX_BITS as int);
                lemma_fx_mul_mag(self.dir.y.bits as int, t.bits as int, DIR_MAX as int, T_MAX_BITS as int);
                lemma_fx_mul_mag(self.dir.z.bits as int, t.bits as int, DIR_MAX as int, T_MAX_BITS as int);
            }
        }
        self.origin.add(self.dir.scale(t))
    }
}

} // verus!
