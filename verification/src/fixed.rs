//! Signed binary fixed-point scalar.
//!
//! An `Fx` stores a real quantity as `bits / FX_SCALE` with `FX_SCALE = 2^16`.
//! Multiplication and division truncate toward zero, as the specification
//! functions below state exactly; square roots round down. Every operation
//! carries the precondition that keeps its 128-bit intermediate computation
//! in range.
use vstd::prelude::*;

verus! {

/// Number of fractional steps per unit: an `Fx` with `bits == FX_SCALE` is 1.
pub const FX_SCALE: i128 = 65536;

/// Largest magnitude allowed for the product of two bit counts: the product
/// of two operand magnitudes must stay below `2^126` so it fits in 128 bits.
pub const FX_MUL_SAFE: i128 = 85070591730234615865843651857942052864;

/// Largest dividend magnitude accepted by `div`, `2^110`, so that the
/// dividend times `FX_SCALE` stays below `2^126`.
pub const FX_DIV_SAFE: i128 = 1298074214633706907132624082305024;

/// Magnitude of a mathematical integer.
pub open spec fn absi(x: int) -> int {
    if x < 0 {
        -x
    } else {
        x
    }
}

/// Bit count of the fixed-point product: magnitudes multiply, scale divides
/// out, and the result is truncated toward zero with the usual sign rule.
pub open spec fn fx_mul_bits(a: int, b: int) -> int {
    let m = (absi(a) * absi(b)) / (FX_SCALE as int);
    if (a < 0) != (b < 0) {
        -m
    } else {
        m
    }
}

/// Bit count of the fixed-point quotient, truncated toward zero.
pub open spec fn fx_div_bits(a: int, b: int) -> int {
    let m = (absi(a) * (FX_SCALE as int)) / absi(b);
    if (a < 0) != (b < 0) {
        -m
    } else {
        m
    }
}

/// `r` is the integer square root of `x`, rounded down.
pub open spec fn is_sqrt_of(x: int, r: int) -> bool {
    0 <= r && r * r <= x && x < (r + 1) * (r + 1)
}

/// The integer square root, rounded down.
pub open spec fn sqrt_floor(x: int) -> int {
    choose|r: int| is_sqrt_of(x, r)
}

/// Bit count of the fixed-point square root: the root of `bits / FX_SCALE`
/// at scale `FX_SCALE` is the integer root of `bits * FX_SCALE`.
pub open spec fn fx_sqrt_bits(a: int) -> int {
    sqrt_floor(a * (FX_SCALE as int))
}

/// Two integer square roots of the same number agree.
pub proof fn lemma_sqrt_unique(x: int, r1: int, r2: int) by (nonlinear_arith)
    requires
        is_sqrt_of(x, r1),
        is_sqrt_of(x, r2),
    ensures
        r1 == r2,
{
}

/// A fixed-point scalar: the real value `bits / FX_SCALE`.
#[derive(Clone, Copy, Debug, PartialEq, Eq, Structural)]
pub struct Fx {
    pub bits: i128,
}

impl Fx {
    /// Wraps a raw bit count.
    pub fn from_bits(bits: i128) -> (r: Fx)
        ensures
            r.bits == bits,
    {
        Fx { bits }
    }

    /// The fixed-point image of a small integer.
    pub fn from_int(n: i32) -> (r: Fx)
        ensures
            r.bits == n * FX_SCALE,
    {
        Fx { bits: (n as i128) * FX_SCALE }
    }

    /// Zero.
    pub fn zero() -> (r: Fx)
        ensures
            r.bits == 0,
    {
        Fx { bits: 0 }
    }

    /// One.
    pub fn one() -> (r: Fx)
        ensures
            r.bits == FX_SCALE,
    {
        Fx { bits: FX_SCALE }
    }

    /// Exact sum.
    pub fn add(self, o: Fx) -> (r: Fx)
        requires
            i128::MIN <= self.bits + o.bits <= i128::MAX,
        ensures
            r.bits == self.bits + o.bits,
    {
        Fx { bits: self.bits + o.bits }
    }

    /// Exact difference.
    pub fn sub(self, o: Fx) -> (r: Fx)
        requires
            i128::MIN <= self.bits - o.bits <= i128::MAX,
        ensures
            r.bits == self.bits - o.bits,
    {
        Fx { bits: self.bits - o.bits }
    }

    /// Exact negation.
    pub fn neg(self) -> (r: Fx)
        requires
            self.bits != i128::MIN,
        ensures
            r.bits == -self.bits,
    {
        Fx { bits: -self.bits }
    }

    /// Truncating fixed-point product.
    pub fn mul(self, o: Fx) -> (r: Fx)
        requires
            absi(self.bits as int) <= FX_MUL_SAFE,
            absi(o.bits as int) <= FX_MUL_SAFE,
            absi(self.bits as int) * absi(o.bits as int) <= FX_MUL_SAFE,
        ensures
            r.bits == fx_mul_bits(self.bits as int, o.bits as int),
            absi(r.bits as int) * FX_SCALE <= absi(self.bits as int) * absi(o.bits as int),
    {
        let neg = (self.bits < 0) != (o.bits < 0);
        let ua: u128 = if self.bits < 0 {
            (-self.bits) as u128
        } else {
            self.bits as u128
        };
        let ub: u128 = if o.bits < 0 {
            (-o.bits) as u128
        } else {
            o.bits as u128
        };
        assert(ua == absi(self.bits as int));
        assert(ub == absi(o.bits as int));
        let q: u128 = (ua * ub) / (FX_SCALE as u128);
        assert(q == (absi(self.bits as int) * absi(o.bits as int)) / (FX_SCALE as int));
        assert(q * FX_SCALE <= absi(self.bits as int) * absi(o.bits as int)) by {
            vstd::arithmetic::div_mod::lemma_fundamental_div_mod(
                absi(self.bits as int) * absi(o.bits as int),
                FX_SCALE as int,
            );
        }
        if neg {
            Fx { bits: -(q as i128) }
        } else {
            Fx { bits: q as i128 }
        }
    }

    /// Truncating fixed-point quotient.
    pub fn div(self, o: Fx) -> (r: Fx)
        requires
            o.bits != 0,
            absi(self.bits as int) <= FX_DIV_SAFE,
            absi(o.bits as int) <= FX_MUL_SAFE,
        ensures
            r.bits == fx_div_bits(self.bits as int, o.bits as int),
            absi(r.bits as int) * absi(o.bits as int) <= absi(self.bits as int) * FX_SCALE,
    {
        let neg = (self.bits < 0) != (o.bits < 0);
        let ua: u128 = if self.bits < 0 {
            (-self.bits) as u128
        } else {
            self.bits as u128
        };
        let ub: u128 = if o.bits < 0 {
            (-o.bits) as u128
        } else {
            o.bits as u128
        };
        assert(ua == absi(self.bits as int));
        assert(ub == absi(o.bits as int) && ub >= 1);
        let x: u128 = ua * (FX_SCALE as u128);
        let q: u128 = x / ub;
        proof {
            vstd::arithmetic::div_mod::lemma_fundamental_div_mod(x as int, ub as int);
            assert((x as int) / (ub as int) * (ub as int) <= x as int);
            vstd::arithmetic::div_mod::lemma_div_nonincreasing(x as int, ub as int);
        }
        assert(q == (absi(self.bits as int) * FX_SCALE) / (absi(o.bits as int) as int));
        if neg {
            Fx { bits: -(q as i128) }
        } else {
            Fx { bits: q as i128 }
        }
    }

    /// Fixed-point square root, rounded down. Defined for nonnegative inputs.
    pub fn sqrt(self) -> (r: Fx)
        requires
            0 <= self.bits <= FX_DIV_SAFE,
        ensures
            r.bits == fx_sqrt_bits(self.bits as int),
            is_sqrt_of(self.bits * FX_SCALE, r.bits as int),
            0 <= r.bits,
    {
        let x: u128 = (self.bits as u128) * (FX_SCALE as u128);
        let ghost xi: int = x as int;
        let mut lo: u128 = 0;
        // 2^63 + 1, whose square exceeds every allowed input
        let mut hi: u128 = 9223372036854775809;
        proof {
            assert(xi < (hi as int) * (hi as int)) by (nonlinear_arith)
                requires
                    xi <= 85070591730234615865843651857942052864int,
                    hi == 9223372036854775809;
        }
        while lo + 1 < hi
            invariant
                (lo as int) * (lo as int) <= xi,
                xi < (hi as int) * (hi as int),
                lo < hi,
                hi <= 9223372036854775809,
                xi == x as int,
            decreases hi - lo,
        {
            let mid: u128 = lo + (hi - lo) / 2;
            assert(lo < mid < hi);
            let q: u128 = x / mid;
            proof {
                vstd::arithmetic::div_mod::lemma_fundamental_div_mod(x as int, mid as int);
            }
            if mid <= q {
                proof {
                    vstd::arithmetic::mul::lemma_mul_inequality(mid as int, q as int, mid as int);
                    assert((q as int) * (mid as int) <= xi);
                }
                lo = mid;
            } else {
                proof {
                    vstd::arithmetic::mul::lemma_mul_inequality(
                        q as int + 1,
                        mid as int,
                        mid as int,
                    );
                    vstd::arithmetic::div_mod::lemma_mod_division_less_than_divisor(
                        x as int,
                        mid as int,
                    );
                    vstd::arithmetic::mul::lemma_mul_is_distributive_add_other_way(
                        mid as int,
                        q as int,
                        1,
                    );
                    assert(xi < (q as int + 1) * (mid as int));
                }
                hi = mid;
            }
        }
        assert(hi == lo + 1);
        assert(is_sqrt_of(xi, lo as int));
        proof {
            lemma_sqrt_unique(xi, lo as int, sqrt_floor(xi));
        }
        Fx { bits: lo as i128 }
    }

    /// Smaller of two scalars.
    pub fn min(self, o: Fx) -> (r: Fx)
        ensures
            r.bits == if self.bits <= o.bits {
                self.bits
            } else {
                o.bits
            },
    {
        if self.bits <= o.bits {
            self
        } else {
            o
        }
    }

    /// Larger of two scalars.
    pub fn max(self, o: Fx) -> (r: Fx)
        ensures
            r.bits == if self.bits >= o.bits {
                self.bits
            } else {
                o.bits
            },
    {
        if self.bits >= o.bits {
            self
        } else {
            o
        }
    }
}

/// Every nonnegative integer has an integer square root, so `sqrt_floor`
/// denotes a genuine root there.
pub proof fn lemma_sqrt_floor_is_sqrt(x: int)
    requires
        0 <= x,
    ensures
        is_sqrt_of(x, sqrt_floor(x)),
    decreases x,
{
    if x == 0 {
        assert(is_sqrt_of(0, 0));
    } else {
        lemma_sqrt_floor_is_sqrt(x - 1);
        let r0 = sqrt_floor(x - 1);
        if (r0 + 1) * (r0 + 1) <= x {
            assert(is_sqrt_of(x, r0 + 1)) by (nonlinear_arith)
                requires
                    is_sqrt_of(x - 1, r0),
                    (r0 + 1) * (r0 + 1) <= x,
            ;
        } else {
            assert(is_sqrt_of(x, r0));
        }
    }
}

/// An integer square root lies between any witness roots of its bounds.
pub proof fn lemma_sqrt_bounds(x: int, r: int, lo: int, hi: int) by (nonlinear_arith)
    requires
        is_sqrt_of(x, r),
        0 <= lo,
        0 < hi,
        lo * lo <= x,
        x < hi * hi,
    ensures
        lo <= r < hi,
{
}

/// A truncating product is odd in each factor.
pub proof fn lemma_fx_mul_neg(a: int, b: int) by (nonlinear_arith)
    ensures
        fx_mul_bits(a, -b) == -fx_mul_bits(a, b),
        fx_mul_bits(-a, b) == -fx_mul_bits(a, b),
{
}

/// A truncating product of factors from the unit interval stays inside it
/// and below either factor: attenuation never amplifies.
pub proof fn lemma_fx_mul_unit(a: int, b: int) by (nonlinear_arith)
    requires
        0 <= a <= FX_SCALE,
        0 <= b <= FX_SCALE,
    ensures
        0 <= fx_mul_bits(a, b) <= a,
        fx_mul_bits(a, b) <= b,
{
}

/// Multiplying by one at fixed-point scale is the identity on nonnegative
/// scalars.
pub proof fn lemma_fx_mul_one(b: int) by (nonlinear_arith)
    requires
        0 <= b,
    ensures
        fx_mul_bits(FX_SCALE as int, b) == b,
        fx_mul_bits(b, FX_SCALE as int) == b,
{
}

/// Truncating division is monotone in the dividend for a positive divisor.
pub proof fn lemma_fx_div_mono(a1: int, a2: int, b: int)
    requires
        a1 <= a2,
        0 < b,
    ensures
        fx_div_bits(a1, b) <= fx_div_bits(a2, b),
{
    if 0 <= a1 {
        vstd::arithmetic::mul::lemma_mul_inequality(a1, a2, FX_SCALE as int);
        vstd::arithmetic::div_mod::lemma_div_is_ordered(a1 * FX_SCALE, a2 * FX_SCALE, b);
    } else if a2 < 0 {
        vstd::arithmetic::mul::lemma_mul_inequality(-a2, -a1, FX_SCALE as int);
        vstd::arithmetic::div_mod::lemma_div_is_ordered(-a2 * FX_SCALE, -a1 * FX_SCALE, b);
        assert(absi(a1) * FX_SCALE == -a1 * FX_SCALE);
        assert(absi(a2) * FX_SCALE == -a2 * FX_SCALE);
    } else {
        vstd::arithmetic::mul::lemma_mul_inequality(0, -a1, FX_SCALE as int);
        vstd::arithmetic::mul::lemma_mul_inequality(0, a2, FX_SCALE as int);
        vstd::arithmetic::div_mod::lemma_div_pos_is_pos(-a1 * FX_SCALE, b);
        vstd::arithmetic::div_mod::lemma_div_pos_is_pos(a2 * FX_SCALE, b);
    }
}

/// A truncating quotient of nonnegative by positive is nonnegative.
pub proof fn lemma_fx_div_nonneg(a: int, b: int) by (nonlinear_arith)
    requires
        0 <= a,
        0 < b,
    ensures
        0 <= fx_div_bits(a, b),
{
}

/// Magnitudes multiply monotonically: componentwise bounds on two factors
/// bound the magnitude of their mathematical product.
pub proof fn lemma_abs_mul_le(a: int, b: int, aa: int, bb: int) by (nonlinear_arith)
    requires
        absi(a) <= aa,
        absi(b) <= bb,
    ensures
        absi(a) * absi(b) <= aa * bb,
{
}

/// Bound on a truncating fixed-point product from bounds on its factors.
pub proof fn lemma_fx_mul_mag(a: int, b: int, aa: int, bb: int) by (nonlinear_arith)
    requires
        absi(a) <= aa,
        absi(b) <= bb,
    ensures
        absi(fx_mul_bits(a, b)) * FX_SCALE <= aa * bb,
        0 <= absi(fx_mul_bits(a, b)),
{
}

/// Bound on a truncating fixed-point quotient from a bound on the dividend
/// and a lower bound on the divisor's magnitude.
pub proof fn lemma_fx_div_mag(a: int, b: int, aa: int, bl: int) by (nonlinear_arith)
    requires
        absi(a) <= aa,
        bl >= 1,
        absi(b) >= bl,
    ensures
        absi(fx_div_bits(a, b)) * bl <= aa * FX_SCALE,
        0 <= absi(fx_div_bits(a, b)),
{
}

} // verus!
