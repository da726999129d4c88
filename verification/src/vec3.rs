//! Three-component fixed-point vectors.
//!
//! `Vec3` serves as point, direction and color alike, as the aliases say.
//! Every operation's result is pinned down exactly over the components'
//! bit counts; the magnitude lemmas at the bottom let callers discharge the
//! range preconditions of chained arithmetic.
use crate::fixed::{
    absi, fx_div_bits, fx_mul_bits, fx_sqrt_bits, is_sqrt_of, lemma_abs_mul_le, lemma_fx_div_mag,
    lemma_fx_mul_mag, Fx, FX_DIV_SAFE, FX_MUL_SAFE, FX_SCALE,
};
use vstd::prelude::*;

verus! {

/// Componentwise magnitudes below which two factors multiply safely.
pub const VEC_FACTOR_SAFE: i128 = 9223372036854775807;

/// Componentwise magnitude cap for vectors whose length is taken: three
/// squared components summed must stay below the square-root domain.
pub const VEC_LEN_SAFE: i128 = 1152921504606846976;

/// Componentwise magnitude cap for sums and differences.
pub const VEC_ADD_SAFE: i128 = 42535295865117307932921825928971026432;

/// A vector of three fixed-point components.
#[derive(Clone, Copy, Debug, PartialEq, Eq, Structural)]
pub struct Vec3 {
    pub x: Fx,
    pub y: Fx,
    pub z: Fx,
}

/// A location in space.
pub type Point3 = Vec3;

/// Radiance or reflectance per red, green and blue channel.
pub type Color = Vec3;

/// Every component's magnitude is at most `m`.
pub open spec fn bounded(v: Vec3, m: int) -> bool {
    absi(v.x.bits as int) <= m && absi(v.y.bits as int) <= m && absi(v.z.bits as int) <= m
}

/// Bit counts of the truncating fixed-point dot product.
pub open spec fn dot_bits(u: Vec3, v: Vec3) -> int {
    fx_mul_bits(u.x.bits as int, v.x.bits as int) + fx_mul_bits(u.y.bits as int, v.y.bits as int)
        + fx_mul_bits(u.z.bits as int, v.z.bits as int)
}

/// Bit counts of the squared length.
pub open spec fn len_sq_bits(v: Vec3) -> int {
    dot_bits(v, v)
}

/// Bit counts of the length: the fixed-point root of the squared length.
pub open spec fn len_bits(v: Vec3) -> int {
    fx_sqrt_bits(len_sq_bits(v))
}

/// The normalized vector: each component divided by the length, and the
/// zero vector when the squared length truncates to zero.
pub open spec fn unit_bits(v: Vec3) -> Vec3 {
    if len_sq_bits(v) == 0 {
        Vec3 { x: Fx { bits: 0 }, y: Fx { bits: 0 }, z: Fx { bits: 0 } }
    } else {
        let l = len_bits(v);
        Vec3 {
            x: Fx { bits: fx_div_bits(v.x.bits as int, l) as i128 },
            y: Fx { bits: fx_div_bits(v.y.bits as int, l) as i128 },
            z: Fx { bits: fx_div_bits(v.z.bits as int, l) as i128 },
        }
    }
}

impl Default for Vec3 {
    /// The zero vector.
    fn default() -> (r: Vec3)
        ensures
            r.x.bits == 0 && r.y.bits == 0 && r.z.bits == 0,
    {
        Vec3 { x: Fx { bits: 0 }, y: Fx { bits: 0 }, z: Fx { bits: 0 } }
    }
}

impl Vec3 {
    /// Builds a vector from its components.
    pub fn new(e0: Fx, e1: Fx, e2: Fx) -> (r: Vec3)
        ensures
            r.x == e0 && r.y == e1 && r.z == e2,
    {
        Vec3 { x: e0, y: e1, z: e2 }
    }

    /// The zero vector.
    pub fn zero() -> (r: Vec3)
        ensures
            r.x.bits == 0 && r.y.bits == 0 && r.z.bits == 0,
    {
        Vec3 { x: Fx { bits: 0 }, y: Fx { bits: 0 }, z: Fx { bits: 0 } }
    }

    /// First component.
    pub fn x(&self) -> (r: Fx)
        ensures
            r == self.x,
    {
        self.x
    }

    /// Second component.
    pub fn y(&self) -> (r: Fx)
        ensures
            r == self.y,
    {
        self.y
    }

    /// Third component.
    pub fn z(&self) -> (r: Fx)
        ensures
            r == self.z,
    {
        self.z
    }

    /// Componentwise sum.
    pub fn add(self, v: Vec3) -> (r: Vec3)
        requires
            bounded(self, VEC_ADD_SAFE as int),
            bounded(v, VEC_ADD_SAFE as int),
        ensures
            r.x.bits == self.x.bits + v.x.bits,
            r.y.bits == self.y.bits + v.y.bits,
            r.z.bits == self.z.bits + v.z.bits,
    {
        Vec3 { x: self.x.add(v.x), y: self.y.add(v.y), z: self.z.add(v.z) }
    }

    /// Componentwise difference.
    pub fn sub(self, v: Vec3) -> (r: Vec3)
        requires
            bounded(self, VEC_ADD_SAFE as int),
            bounded(v, VEC_ADD_SAFE as int),
        ensures
            r.x.bits == self.x.bits - v.x.bits,
            r.y.bits == self.y.bits - v.y.bits,
            r.z.bits == self.z.bits - v.z.bits,
    {
        Vec3 { x: self.x.sub(v.x), y: self.y.sub(v.y), z: self.z.sub(v.z) }
    }

    /// Componentwise negation.
    pub fn neg(self) -> (r: Vec3)
        requires
            bounded(self, VEC_ADD_SAFE as int),
        ensures
            r.x.bits == -self.x.bits,
            r.y.bits == -self.y.bits,
            r.z.bits == -self.z.bits,
    {
        Vec3 { x: self.x.neg(), y: self.y.neg(), z: self.z.neg() }
    }

    /// Scaling by a scalar, truncating per component.
    pub fn scale(self, t: Fx) -> (r: Vec3)
        requires
            bounded(self, VEC_FACTOR_SAFE as int),
            absi(t.bits as int) <= VEC_FACTOR_SAFE,
        ensures
            r.x.bits == fx_mul_bits(self.x.bits as int, t.bits as int),
            r.y.bits == fx_mul_bits(self.y.bits as int, t.bits as int),
            r.z.bits == fx_mul_bits(self.z.bits as int, t.bits as int),
    {
        proof {
            lemma_abs_mul_le(self.x.bits as int, t.bits as int, VEC_FACTOR_SAFE as int, VEC_FACTOR_SAFE as int);
            lemma_abs_mul_le(self.y.bits as int, t.bits as int, VEC_FACTOR_SAFE as int, VEC_FACTOR_SAFE as int);
            lemma_abs_mul_le(self.z.bits as int, t.bits as int, VEC_FACTOR_SAFE as int, VEC_FACTOR_SAFE as int);
        }
        Vec3 { x: self.x.mul(t), y: self.y.mul(t), z: self.z.mul(t) }
    }

    /// Componentwise product, as used for color attenuation.
    pub fn mul_elem(self, v: Vec3) -> (r: Vec3)
        requires
            bounded(self, VEC_FACTOR_SAFE as int),
            bounded(v, VEC_FACTOR_SAFE as int),
        ensures
            r.x.bits == fx_mul_bits(self.x.bits as int, v.x.bits as int),
            r.y.bits == fx_mul_bits(self.y.bits as int, v.y.bits as int),
            r.z.bits == fx_mul_bits(self.z.bits as int, v.z.bits as int),
    {
        proof {
            lemma_abs_mul_le(self.x.bits as int, v.x.bits as int, VEC_FACTOR_SAFE as int, VEC_FACTOR_SAFE as int);
            lemma_abs_mul_le(self.y.bits as int, v.y.bits as int, VEC_FACTOR_SAFE as int, VEC_FACTOR_SAFE as int);
            lemma_abs_mul_le(self.z.bits as int, v.z.bits as int, VEC_FACTOR_SAFE as int, VEC_FACTOR_SAFE as int);
        }
        Vec3 { x: self.x.mul(v.x), y: self.y.mul(v.y), z: self.z.mul(v.z) }
    }

    /// Scaling by the reciprocal of a scalar, truncating per component.
    pub fn div_scalar(self, t: Fx) -> (r: Vec3)
        requires
            t.bits != 0,
            bounded(self, FX_DIV_SAFE as int),
            absi(t.bits as int) <= FX_MUL_SAFE,
        ensures
            r.x.bits == fx_div_bits(self.x.bits as int, t.bits as int),
            r.y.bits == fx_div_bits(self.y.bits as int, t.bits as int),
            r.z.bits == fx_div_bits(self.z.bits as int, t.bits as int),
    {
        Vec3 { x: self.x.div(t), y: self.y.div(t), z: self.z.div(t) }
    }

    /// Squared length; a sum of squares, hence nonnegative.
    pub fn length_squared(&self) -> (r: Fx)
        requires
            bounded(*self, VEC_LEN_SAFE as int),
        ensures
            r.bits == len_sq_bits(*self),
            0 <= r.bits,
            r.bits * FX_SCALE <= 3 * VEC_LEN_SAFE * VEC_LEN_SAFE,
    {
        proof {
            lemma_self_dot_bounds(*self, VEC_LEN_SAFE as int);
        }
        let mx = self.x.mul(self.x);
        let my = self.y.mul(self.y);
        let mz = self.z.mul(self.z);
        mx.add(my).add(mz)
    }

    /// Length, rounded down to the fixed-point grid.
    pub fn length(&self) -> (r: Fx)
        requires
            bounded(*self, VEC_LEN_SAFE as int),
        ensures
            r.bits == len_bits(*self),
            0 <= r.bits,
            is_sqrt_of(len_sq_bits(*self) * FX_SCALE, r.bits as int),
    {
        let ls = self.length_squared();
        assert(ls.bits <= FX_DIV_SAFE);
        ls.sqrt()
    }
}

/// Truncating dot product.
pub fn dot(u: Vec3, v: Vec3) -> (r: Fx)
    requires
        bounded(u, VEC_FACTOR_SAFE as int),
        bounded(v, VEC_FACTOR_SAFE as int),
    ensures
        r.bits == dot_bits(u, v),
{
    proof {
        lemma_abs_mul_le(u.x.bits as int, v.x.bits as int, VEC_FACTOR_SAFE as int, VEC_FACTOR_SAFE as int);
        lemma_abs_mul_le(u.y.bits as int, v.y.bits as int, VEC_FACTOR_SAFE as int, VEC_FACTOR_SAFE as int);
        lemma_abs_mul_le(u.z.bits as int, v.z.bits as int, VEC_FACTOR_SAFE as int, VEC_FACTOR_SAFE as int);
    }
    let mx = u.x.mul(v.x);
    let my = u.y.mul(v.y);
    let mz = u.z.mul(v.z);
    mx.add(my).add(mz)
}

/// Bit counts of the truncating cross product, per component.
pub open spec fn cross_x_bits(u: Vec3, v: Vec3) -> int {
    fx_mul_bits(u.y.bits as int, v.z.bits as int) - fx_mul_bits(u.z.bits as int, v.y.bits as int)
}

/// Second component of the truncating cross product.
pub open spec fn cross_y_bits(u: Vec3, v: Vec3) -> int {
    fx_mul_bits(u.z.bits as int, v.x.bits as int) - fx_mul_bits(u.x.bits as int, v.z.bits as int)
}

/// Third component of the truncating cross product.
pub open spec fn cross_z_bits(u: Vec3, v: Vec3) -> int {
    fx_mul_bits(u.x.bits as int, v.y.bits as int) - fx_mul_bits(u.y.bits as int, v.x.bits as int)
}

/// Truncating cross product.
pub fn cross(u: Vec3, v: Vec3) -> (r: Vec3)
    requires
        bounded(u, VEC_FACTOR_SAFE as int),
        bounded(v, VEC_FACTOR_SAFE as int),
    ensures
        r.x.bits == cross_x_bits(u, v),
        r.y.bits == cross_y_bits(u, v),
        r.z.bits == cross_z_bits(u, v),
{
    proof {
        lemma_abs_mul_le(u.y.bits as int, v.z.bits as int, VEC_FACTOR_SAFE as int, VEC_FACTOR_SAFE as int);
        lemma_abs_mul_le(u.z.bits as int, v.y.bits as int, VEC_FACTOR_SAFE as int, VEC_FACTOR_SAFE as int);
        lemma_abs_mul_le(u.z.bits as int, v.x.bits as int, VEC_FACTOR_SAFE as int, VEC_FACTOR_SAFE as int);
        lemma_abs_mul_le(u.x.bits as int, v.z.bits as int, VEC_FACTOR_SAFE as int, VEC_FACTOR_SAFE as int);
        lemma_abs_mul_le(u.x.bits as int, v.y.bits as int, VEC_FACTOR_SAFE as int, VEC_FACTOR_SAFE as int);
        lemma_abs_mul_le(u.y.bits as int, v.x.bits as int, VEC_FACTOR_SAFE as int, VEC_FACTOR_SAFE as int);
    }
    Vec3 {
        x: u.y.mul(v.z).sub(u.z.mul(v.y)),
        y: u.z.mul(v.x).sub(u.x.mul(v.z)),
        z: u.x.mul(v.y).sub(u.y.mul(v.x)),
    }
}

/// Normalization. A vector whose squared length truncates to zero maps to
/// the zero vector; any other result has components of magnitude at most 2.
pub fn unit_vector(v: Vec3) -> (r: Vec3)
    requires
        bounded(v, VEC_LEN_SAFE as int),
    ensures
        r == unit_bits(v),
        bounded(r, 2 * FX_SCALE),
{
    let ls = v.length_squared();
    if ls.bits == 0 {
        let z = Vec3::zero();
        assert(z == unit_bits(v));
        z
    } else {
        let len = ls.sqrt();
        proof {
            lemma_sqrt_scaled_at_least_one(ls.bits as int, len.bits as int);
            lemma_unit_component_cap(v.x.bits as int, ls.bits as int, len.bits as int);
            lemma_unit_component_cap(v.y.bits as int, ls.bits as int, len.bits as int);
            lemma_unit_component_cap(v.z.bits as int, ls.bits as int, len.bits as int);
        }
        let r = v.div_scalar(len);
        proof {
            lemma_div_quarter(v.x.bits as int, len.bits as int);
            lemma_div_quarter(v.y.bits as int, len.bits as int);
            lemma_div_quarter(v.z.bits as int, len.bits as int);
        }
        r
    }
}

/// A square truncated down to the fixed-point grid is nonnegative and keeps
/// its size, so the squared length of a bounded vector is bounded.
proof fn lemma_self_dot_bounds(v: Vec3, m: int) by (nonlinear_arith)
    requires
        0 <= m,
        bounded(v, m),
    ensures
        0 <= fx_mul_bits(v.x.bits as int, v.x.bits as int),
        0 <= fx_mul_bits(v.y.bits as int, v.y.bits as int),
        0 <= fx_mul_bits(v.z.bits as int, v.z.bits as int),
        absi(v.x.bits as int) * absi(v.x.bits as int) <= m * m,
        absi(v.y.bits as int) * absi(v.y.bits as int) <= m * m,
        absi(v.z.bits as int) * absi(v.z.bits as int) <= m * m,
        len_sq_bits(v) * FX_SCALE <= 3 * m * m,
{
}

/// A positive squared length puts the fixed-point length at or above the
/// smallest representable positive magnitude's root.
proof fn lemma_sqrt_scaled_at_least_one(ls: int, len: int) by (nonlinear_arith)
    requires
        1 <= ls,
        ls * FX_SCALE <= FX_MUL_SAFE,
        is_sqrt_of(ls * FX_SCALE, len),
    ensures
        256 <= len,
        len <= FX_MUL_SAFE,
{
}

/// No component of a vector exceeds twice its fixed-point length.
proof fn lemma_unit_component_cap(c: int, ls: int, len: int) by (nonlinear_arith)
    requires
        1 <= ls,
        fx_mul_bits(c, c) <= ls,
        is_sqrt_of(ls * FX_SCALE, len),
        256 <= len,
    ensures
        absi(c) <= 2 * len,
{
}

/// Dividing a component by a length at least half its magnitude keeps the
/// quotient within twice the unit scale.
proof fn lemma_div_quarter(c: int, len: int)
    requires
        1 <= len,
        absi(c) <= 2 * len,
    ensures
        absi(fx_div_bits(c, len)) <= 2 * FX_SCALE,
{
    let a = absi(c);
    vstd::arithmetic::mul::lemma_mul_inequality(a, 2 * len, FX_SCALE as int);
    assert((2 * len) * FX_SCALE == len * (2 * FX_SCALE))
        by (nonlinear_arith);
    vstd::arithmetic::div_mod::lemma_div_is_ordered(
        a * FX_SCALE,
        len * (2 * FX_SCALE),
        len,
    );
    vstd::arithmetic::div_mod::lemma_div_multiples_vanish(2 * FX_SCALE, len);
    vstd::arithmetic::div_mod::lemma_div_pos_is_pos(a * FX_SCALE, len);
}

/// The direction the polar sampler builds from its accepted draws `a`, `b`
/// (the disk point) and `z` (the height): the disk point is normalized and
/// scaled to the planar radius `sqrt(1 - z^2)`, all at the fixed-point grid.
pub open spec fn lambert_dir_bits(a: int, b: int, z: int) -> Vec3 {
    let planar = fx_sqrt_bits(FX_SCALE - fx_mul_bits(z, z));
    let sq = fx_sqrt_bits(fx_mul_bits(a, a) + fx_mul_bits(b, b));
    let t = fx_div_bits(planar, sq);
    Vec3 {
        x: Fx { bits: fx_mul_bits(a, t) as i128 },
        y: Fx { bits: fx_mul_bits(b, t) as i128 },
        z: Fx { bits: z as i128 },
    }
}

/// What every outcome of the polar unit-sphere sampler looks like: a height
/// in `[-1, 1]`, components within 4 units, and either the fallback along
/// the third axis or exactly the vector the accepted draws determine.
pub open spec fn is_lambert_sample(s: Vec3) -> bool {
    &&& bounded(s, 4 * FX_SCALE as int)
    &&& -FX_SCALE <= s.z.bits <= FX_SCALE
    &&& (s == (Vec3 { x: Fx { bits: 0 }, y: Fx { bits: 0 }, z: Fx { bits: FX_SCALE } }) || (exists|
        a: int,
        b: int,
        z: int,
    |
        {
            &&& -FX_SCALE <= a < FX_SCALE
            &&& -FX_SCALE <= b < FX_SCALE
            &&& -FX_SCALE <= z < FX_SCALE
            &&& 4096 <= fx_mul_bits(a, a) + fx_mul_bits(b, b) < FX_SCALE
            &&& s == #[trigger] lambert_dir_bits(a, b, z)
        }))
}

impl Vec3 {
    /// A vector with components drawn uniformly from `[0, 1)`.
    pub fn random(rng: &mut crate::rng::Prng) -> (r: Vec3)
        ensures
            0 <= r.x.bits < FX_SCALE,
            0 <= r.y.bits < FX_SCALE,
            0 <= r.z.bits < FX_SCALE,
    {
        let e0 = Fx { bits: rng.next_bits(0, 65536) as i128 };
        let e1 = Fx { bits: rng.next_bits(0, 65536) as i128 };
        let e2 = Fx { bits: rng.next_bits(0, 65536) as i128 };
        Vec3 { x: e0, y: e1, z: e2 }
    }

    /// A vector with components drawn uniformly from `[min, max)`.
    pub fn random_range(rng: &mut crate::rng::Prng, min: Fx, max: Fx) -> (r: Vec3)
        requires
            min.bits < max.bits,
            i64::MIN <= min.bits,
            max.bits <= i64::MAX,
        ensures
            min.bits <= r.x.bits < max.bits,
            min.bits <= r.y.bits < max.bits,
            min.bits <= r.z.bits < max.bits,
    {
        let lo = min.bits as i64;
        let hi = max.bits as i64;
        let e0 = Fx { bits: rng.next_bits(lo, hi) as i128 };
        let e1 = Fx { bits: rng.next_bits(lo, hi) as i128 };
        let e2 = Fx { bits: rng.next_bits(lo, hi) as i128 };
        Vec3 { x: e0, y: e1, z: e2 }
    }

    /// Rejection sampling inside the unit ball: draws from the enclosing
    /// cube until the squared length falls below one. A bounded number of
    /// attempts keeps the sampler terminating; the (astronomically
    /// unlikely) exhaustion case yields the ball's center.
    #[verifier::loop_isolation(false)]
    pub fn random_in_unit_sphere(rng: &mut crate::rng::Prng) -> (r: Vec3)
        ensures
            0 <= len_sq_bits(r) < FX_SCALE,
            bounded(r, FX_SCALE as int),
    {
        let min = Fx { bits: -65536 };
        let max = Fx { bits: 65536 };
        let mut tries: u32 = 0;
        while tries < 64
            decreases 64 - tries,
        {
            let p = Vec3::random_range(rng, min, max);
            let ls = p.length_squared();
            if ls.bits < FX_SCALE {
                return p;
            }
            tries = tries + 1;
        }
        let z = Vec3::zero();
        proof {
            lemma_self_dot_bounds(z, 0);
        }
        z
    }

    /// A direction spread uniformly over the unit sphere, by the polar
    /// method: a point drawn in the unit disk fixes the azimuth without
    /// trigonometry, an independent draw fixes the height. Draws whose disk
    /// point is too close to the center for a stable division are rejected
    /// like points outside the disk; if no draw is accepted the fallback is
    /// the unit vector along the third axis.
    #[verifier::loop_isolation(false)]
    pub fn random_unit_vector_lambert(rng: &mut crate::rng::Prng) -> (r: Vec3)
        ensures
            is_lambert_sample(r),
            bounded(r, 4 * FX_SCALE as int),
            -FX_SCALE <= r.z.bits <= FX_SCALE,
    {
        let one = Fx { bits: FX_SCALE };
        let mut tries: u32 = 0;
        while tries < 64
            decreases 64 - tries,
        {
            let a = Fx { bits: rng.next_bits(-65536, 65536) as i128 };
            let b = Fx { bits: rng.next_bits(-65536, 65536) as i128 };
            proof {
                lemma_abs_mul_le(a.bits as int, a.bits as int, 65536, 65536);
                lemma_abs_mul_le(b.bits as int, b.bits as int, 65536, 65536);
                lemma_fx_mul_mag(a.bits as int, a.bits as int, 65536, 65536);
                lemma_fx_mul_mag(b.bits as int, b.bits as int, 65536, 65536);
                lemma_square_nonneg(a.bits as int);
                lemma_square_nonneg(b.bits as int);
            }
            let s = a.mul(a).add(b.mul(b));
            if 4096 <= s.bits && s.bits < 65536 {
                let z = Fx { bits: rng.next_bits(-65536, 65536) as i128 };
                proof {
                    lemma_abs_mul_le(z.bits as int, z.bits as int, 65536, 65536);
                    lemma_fx_mul_mag(z.bits as int, z.bits as int, 65536, 65536);
                    lemma_square_nonneg(z.bits as int);
                }
                let zz = z.mul(z);
                let planar = one.sub(zz).sqrt();
                let sq = s.sqrt();
                proof {
                    crate::fixed::lemma_sqrt_bounds(
                        (one.bits - zz.bits) * FX_SCALE,
                        planar.bits as int,
                        0,
                        65537,
                    );
                    crate::fixed::lemma_sqrt_bounds(
                        s.bits * FX_SCALE,
                        sq.bits as int,
                        16384,
                        65536,
                    );
                }
                let t = planar.div(sq);
                proof {
                    lemma_fx_div_mag(planar.bits as int, sq.bits as int, 65536, 16384);
                    lemma_abs_mul_le(a.bits as int, t.bits as int, 65536, 262144);
                    lemma_abs_mul_le(b.bits as int, t.bits as int, 65536, 262144);
                }
                let x = a.mul(t);
                let y = b.mul(t);
                let out = Vec3 { x, y, z };
                proof {
                    assert(out == lambert_dir_bits(a.bits as int, b.bits as int, z.bits as int));
                    assert(is_lambert_sample(out));
                }
                return out;
            }
            tries = tries + 1;
        }
        Vec3 { x: Fx { bits: 0 }, y: Fx { bits: 0 }, z: one }
    }
}

/// The fixed-point square of any scalar is nonnegative.
pub proof fn lemma_square_nonneg(a: int) by (nonlinear_arith)
    ensures
        0 <= fx_mul_bits(a, a),
{
}

/// A dot product of componentwise bounded vectors is bounded: three
/// truncating products, each below the product of the component caps.
pub proof fn lemma_dot_mag(u: Vec3, v: Vec3, mu: int, mv: int)
    requires
        bounded(u, mu),
        bounded(v, mv),
        0 <= mu,
        0 <= mv,
    ensures
        absi(dot_bits(u, v)) * FX_SCALE <= 3 * (mu * mv),
{
    lemma_fx_mul_mag(u.x.bits as int, v.x.bits as int, mu, mv);
    lemma_fx_mul_mag(u.y.bits as int, v.y.bits as int, mu, mv);
    lemma_fx_mul_mag(u.z.bits as int, v.z.bits as int, mu, mv);
}

/// Every channel lies in the unit interval `[0, 1]`.
pub open spec fn color_unit(c: Color) -> bool {
    0 <= c.x.bits <= FX_SCALE && 0 <= c.y.bits <= FX_SCALE && 0 <= c.z.bits <= FX_SCALE
}

/// Componentwise difference, at the specification level.
pub open spec fn sub_bits(u: Vec3, v: Vec3) -> Vec3 {
    Vec3 {
        x: Fx { bits: (u.x.bits - v.x.bits) as i128 },
        y: Fx { bits: (u.y.bits - v.y.bits) as i128 },
        z: Fx { bits: (u.z.bits - v.z.bits) as i128 },
    }
}

/// Componentwise negation, at the specification level.
pub open spec fn neg_bits(v: Vec3) -> Vec3 {
    Vec3 {
        x: Fx { bits: (-v.x.bits) as i128 },
        y: Fx { bits: (-v.y.bits) as i128 },
        z: Fx { bits: (-v.z.bits) as i128 },
    }
}

/// Componentwise magnitude cap under which a mirror reflection's chain of
/// products stays in range.
pub const REFLECT_SAFE: i128 = 274877906944;

/// The mirror image `v - 2 dot(v, n) n`, at the fixed-point grid.
pub open spec fn reflect_bits(v: Vec3, n: Vec3) -> Vec3 {
    let d2 = 2 * dot_bits(v, n);
    Vec3 {
        x: Fx { bits: (v.x.bits - fx_mul_bits(n.x.bits as int, d2)) as i128 },
        y: Fx { bits: (v.y.bits - fx_mul_bits(n.y.bits as int, d2)) as i128 },
        z: Fx { bits: (v.z.bits - fx_mul_bits(n.z.bits as int, d2)) as i128 },
    }
}

/// Mirror reflection about a surface normal. Near-unit inputs give a
/// near-unit result, as the conditional bound states.
pub fn reflect(v: Vec3, n: Vec3) -> (r: Vec3)
    requires
        bounded(v, REFLECT_SAFE as int),
        bounded(n, REFLECT_SAFE as int),
    ensures
        r == reflect_bits(v, n),
        bounded(v, 2 * FX_SCALE as int) && bounded(n, 2 * FX_SCALE as int) ==> bounded(
            r,
            3276800,
        ),
{
    proof {
        lemma_dot_mag(v, n, REFLECT_SAFE as int, REFLECT_SAFE as int);
    }
    let d = dot(v, n);
    let two_d = d.add(d);
    proof {
        lemma_fx_mul_mag(n.x.bits as int, two_d.bits as int, REFLECT_SAFE as int, 6917529027641081856);
        lemma_fx_mul_mag(n.y.bits as int, two_d.bits as int, REFLECT_SAFE as int, 6917529027641081856);
        lemma_fx_mul_mag(n.z.bits as int, two_d.bits as int, REFLECT_SAFE as int, 6917529027641081856);
        if bounded(v, 2 * FX_SCALE as int) && bounded(n, 2 * FX_SCALE as int) {
            lemma_dot_mag(v, n, 2 * FX_SCALE as int, 2 * FX_SCALE as int);
            lemma_fx_mul_mag(n.x.bits as int, two_d.bits as int, 131072, 1572864);
            lemma_fx_mul_mag(n.y.bits as int, two_d.bits as int, 131072, 1572864);
            lemma_fx_mul_mag(n.z.bits as int, two_d.bits as int, 131072, 1572864);
        }
    }
    let s = n.scale(two_d);
    v.sub(s)
}

/// The hit-side cosine fed to refraction: the incoming unit direction
/// reversed against the normal, capped at one.
pub open spec fn refract_cos_bits(uv: Vec3, n: Vec3) -> int {
    let d = dot_bits(neg_bits(uv), n);
    if d > FX_SCALE {
        FX_SCALE as int
    } else {
        d
    }
}

/// Snell refraction at the fixed-point grid: the transmitted direction
/// `ratio (uv + cos n) - n sqrt(1 - ratio^2 sin^2)`, with the two radicands
/// clamped to zero where truncation would push them below it.
pub open spec fn refract_bits(uv: Vec3, n: Vec3, ratio: int) -> Vec3 {
    let cos = refract_cos_bits(uv, n);
    let cc = fx_mul_bits(cos, cos);
    let ss = if FX_SCALE - cc >= 0 {
        FX_SCALE - cc
    } else {
        0
    };
    let r2 = fx_mul_bits(ratio, ratio);
    let k0 = FX_SCALE - fx_mul_bits(r2, ss);
    let k = if k0 >= 0 {
        k0
    } else {
        0
    };
    let sq = fx_sqrt_bits(k);
    Vec3 {
        x: Fx {
            bits: (fx_mul_bits(uv.x.bits + fx_mul_bits(n.x.bits as int, cos), ratio) - fx_mul_bits(
                n.x.bits as int,
                sq,
            )) as i128,
        },
        y: Fx {
            bits: (fx_mul_bits(uv.y.bits + fx_mul_bits(n.y.bits as int, cos), ratio) - fx_mul_bits(
                n.y.bits as int,
                sq,
            )) as i128,
        },
        z: Fx {
            bits: (fx_mul_bits(uv.z.bits + fx_mul_bits(n.z.bits as int, cos), ratio) - fx_mul_bits(
                n.z.bits as int,
                sq,
            )) as i128,
        },
    }
}

/// Refraction of a near-unit incoming direction about a near-unit normal.
pub fn refract(uv: Vec3, n: Vec3, etai_over_etat: Fx) -> (r: Vec3)
    requires
        bounded(uv, 2 * FX_SCALE as int),
        bounded(n, 2 * FX_SCALE as int),
        0 <= etai_over_etat.bits <= 4 * FX_SCALE,
    ensures
        r == refract_bits(uv, n, etai_over_etat.bits as int),
        bounded(r, 6946816),
{
    let one = Fx { bits: FX_SCALE };
    let zero = Fx { bits: 0 };
    let nuv = uv.neg();
    proof {
        lemma_dot_mag(nuv, n, 2 * FX_SCALE as int, 2 * FX_SCALE as int);
    }
    let cos = dot(nuv, n).min(one);
    proof {
        lemma_abs_mul_le(cos.bits as int, cos.bits as int, 786432, 786432);
        lemma_square_nonneg(cos.bits as int);
        lemma_fx_mul_mag(cos.bits as int, cos.bits as int, 786432, 786432);
        lemma_abs_mul_le(
            etai_over_etat.bits as int,
            etai_over_etat.bits as int,
            262144,
            262144,
        );
        lemma_square_nonneg(etai_over_etat.bits as int);
        lemma_fx_mul_mag(etai_over_etat.bits as int, etai_over_etat.bits as int, 262144, 262144);
    }
    let cc = cos.mul(cos);
    let ss = one.sub(cc).max(zero);
    let r2 = etai_over_etat.mul(etai_over_etat);
    proof {
        lemma_abs_mul_le(r2.bits as int, ss.bits as int, 1048576, 65536);
        lemma_fx_mul_mag(r2.bits as int, ss.bits as int, 1048576, 65536);
        lemma_mul_sign_nonneg(r2.bits as int, ss.bits as int);
    }
    let k = one.sub(r2.mul(ss)).max(zero);
    let sq = k.sqrt();
    proof {
        assert(0 * 0 <= k.bits * FX_SCALE);
        assert(k.bits * FX_SCALE < 65537 * 65537);
        crate::fixed::lemma_sqrt_bounds(k.bits * FX_SCALE, sq.bits as int, 0, 65537);
        lemma_fx_mul_mag(n.x.bits as int, cos.bits as int, 131072, 786432);
        lemma_fx_mul_mag(n.y.bits as int, cos.bits as int, 131072, 786432);
        lemma_fx_mul_mag(n.z.bits as int, cos.bits as int, 131072, 786432);
    }
    let inner = uv.add(n.scale(cos));
    proof {
        lemma_fx_mul_mag(inner.x.bits as int, etai_over_etat.bits as int, 1703936, 262144);
        lemma_fx_mul_mag(inner.y.bits as int, etai_over_etat.bits as int, 1703936, 262144);
        lemma_fx_mul_mag(inner.z.bits as int, etai_over_etat.bits as int, 1703936, 262144);
        lemma_fx_mul_mag(n.x.bits as int, sq.bits as int, 131072, 65536);
        lemma_fx_mul_mag(n.y.bits as int, sq.bits as int, 131072, 65536);
        lemma_fx_mul_mag(n.z.bits as int, sq.bits as int, 131072, 65536);
    }
    let par = inner.scale(etai_over_etat);
    let perp = n.scale(sq);
    par.sub(perp)
}

/// The exact (unscaled, untruncated) dot product of the raw bit counts.
pub open spec fn dot_exact(u: Vec3, v: Vec3) -> int {
    u.x.bits * v.x.bits + u.y.bits * v.y.bits + u.z.bits * v.z.bits
}

/// The reflection law: mirroring about a unit normal exactly negates the
/// projection onto it, `dot(reflect(v, n), n) == -dot(v, n)`. Stated over
/// exact products for any `n`, with the unit condition `dot(n, n) == 1`
/// absorbed by scaling the reflection's first term by `dot(n, n)`: for unit
/// `n` the left side reads `dot(v - 2 dot(v, n) n, n)`.
pub proof fn lemma_reflect_law(v: Vec3, n: Vec3)
    ensures
        ({
            let c = dot_exact(n, n);
            let d = dot_exact(v, n);
            (c * v.x.bits - 2 * d * n.x.bits) * n.x.bits + (c * v.y.bits - 2 * d * n.y.bits)
                * n.y.bits + (c * v.z.bits - 2 * d * n.z.bits) * n.z.bits == -(c * d)
        }),
{
    let c = dot_exact(n, n);
    let d = dot_exact(v, n);
    let vx = v.x.bits as int;
    let vy = v.y.bits as int;
    let vz = v.z.bits as int;
    let nx = n.x.bits as int;
    let ny = n.y.bits as int;
    let nz = n.z.bits as int;
    assert((c * vx - 2 * d * nx) * nx == c * (vx * nx) - 2 * d * (nx * nx)) by (nonlinear_arith);
    assert((c * vy - 2 * d * ny) * ny == c * (vy * ny) - 2 * d * (ny * ny)) by (nonlinear_arith);
    assert((c * vz - 2 * d * nz) * nz == c * (vz * nz) - 2 * d * (nz * nz)) by (nonlinear_arith);
    assert(c * (vx * nx) + c * (vy * ny) + c * (vz * nz) == c * d) by (nonlinear_arith)
        requires
            d == vx * nx + vy * ny + vz * nz,
    ;
    assert(2 * d * (nx * nx) + 2 * d * (ny * ny) + 2 * d * (nz * nz) == 2 * (d * c))
        by (nonlinear_arith)
        requires
            c == nx * nx + ny * ny + nz * nz,
    ;
    assert(c * d - 2 * (d * c) == -(c * d)) by (nonlinear_arith);
}

/// A truncating product of nonnegative factors is nonnegative.
pub proof fn lemma_mul_sign_nonneg(a: int, b: int) by (nonlinear_arith)
    requires
        0 <= a,
        0 <= b,
    ensures
        0 <= fx_mul_bits(a, b),
{
}

} // verus!
