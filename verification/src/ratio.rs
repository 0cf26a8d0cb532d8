use vstd::prelude::*;

use vstd::arithmetic::div_mod::lemma_div_nonincreasing;
use vstd::arithmetic::div_mod::lemma_div_pos_is_pos;

verus! {

/// An exact rational value `num / den` with a positive denominator. The
/// engine keeps tensor elements integer; rationals carry hyperparameters
/// (learning rate, momentum, decay) and reported loss values. Values are not
/// normalised: `3/2` and `6/4` stand for the same number, which `same_value`
/// decides exactly.
#[derive(Clone, Copy, Debug, PartialEq, Eq, Structural)]
pub struct Ratio {
    pub num: i64,
    pub den: i64,
}

impl Ratio {
    pub open spec fn wf(self) -> bool {
        self.den >= 1
    }

    /// The rational `num / den`.
    pub fn new(num: i64, den: i64) -> (r: Ratio)
        requires
            den >= 1,
        ensures
            r == (Ratio { num, den }),
    {
        Ratio { num, den }
    }

    /// The rational equal to the integer `v`.
    pub fn from_int(v: i64) -> (r: Ratio)
        ensures
            r == (Ratio { num: v, den: 1 }),
    {
        Ratio { num: v, den: 1 }
    }

    /// Whether this rational is exactly the integer `v`.
    pub fn represents_int(&self, v: i64) -> (r: bool)
        requires
            self.wf(),
        ensures
            r == (self.num == v * self.den),
    {
        proof {
            lemma_i64_product_fits(v as int, self.den as int);
        }
        (self.num as i128) == (v as i128) * (self.den as i128)
    }

    /// Whether two rationals stand for the same number, by cross
    /// multiplication.
    pub fn same_value(&self, o: &Ratio) -> (r: bool)
        requires
            self.wf(),
            o.wf(),
        ensures
            r == (self.num * o.den == o.num * self.den),
    {
        proof {
            lemma_i64_product_fits(self.num as int, o.den as int);
            lemma_i64_product_fits(o.num as int, self.den as int);
        }
        (self.num as i128) * (o.den as i128) == (o.num as i128) * (self.den as i128)
    }
}

/// The product of two 64-bit values fits comfortably in 128 bits.
pub proof fn lemma_i64_product_fits(x: int, y: int)
    by (nonlinear_arith)
    requires
        -0x8000_0000_0000_0000 <= x <= 0x7fff_ffff_ffff_ffff,
        -0x8000_0000_0000_0000 <= y <= 0x7fff_ffff_ffff_ffff,
    ensures
        -0x4000_0000_0000_0000_0000_0000_0000_0000 <= x * y
            <= 0x4000_0000_0000_0000_0000_0000_0000_0000,
{
}

/// Division truncated toward zero, the rounding the engine uses when a
/// rational scale is applied to an integer element. The divisor is positive.
pub open spec fn tdiv(a: int, b: int) -> int
    recommends
        b >= 1,
{
    if a >= 0 {
        a / b
    } else {
        -((-a) / b)
    }
}

/// The magnitude of a truncated quotient never exceeds the dividend's.
pub proof fn lemma_tdiv_bound(a: int, b: int)
    requires
        b >= 1,
    ensures
        a >= 0 ==> 0 <= tdiv(a, b) <= a,
        a < 0 ==> a <= tdiv(a, b) <= 0,
{
    if a >= 0 {
        lemma_div_nonincreasing(a, b);
        lemma_div_pos_is_pos(a, b);
    } else {
        lemma_div_nonincreasing(-a, b);
        lemma_div_pos_is_pos(-a, b);
    }
}

/// Scaling by zero truncates to zero.
pub proof fn lemma_tdiv_zero(b: int)
    requires
        b >= 1,
    ensures
        tdiv(0, b) == 0,
{
    lemma_div_nonincreasing(0, b);
    lemma_div_pos_is_pos(0, b);
}

/// A common positive factor of dividend and divisor cancels out of a
/// truncating division.
pub proof fn lemma_tdiv_cancel(c: int, a: int, b: int)
    requires
        c >= 1,
        b >= 1,
    ensures
        tdiv(c * a, c * b) == tdiv(a, b),
{
    vstd::arithmetic::mul::lemma_mul_strictly_positive(c, b);
    if a >= 0 {
        vstd::arithmetic::mul::lemma_mul_nonnegative(c, a);
        vstd::arithmetic::div_mod::lemma_div_denominator(c * a, c, b);
        vstd::arithmetic::div_mod::lemma_div_multiples_vanish(a, c);
        assert((c * a) / c == a);
        assert((c * a) / (c * b) == a / b);
    } else {
        assert(c * a < 0) by (nonlinear_arith)
            requires
                c >= 1,
                a < 0,
        ;
        assert(-(c * a) == c * (-a)) by (nonlinear_arith);
        vstd::arithmetic::mul::lemma_mul_nonnegative(c, -a);
        vstd::arithmetic::div_mod::lemma_div_denominator(c * (-a), c, b);
        vstd::arithmetic::div_mod::lemma_div_multiples_vanish(-a, c);
        assert((c * (-a)) / c == -a);
        assert((c * (-a)) / (c * b) == (-a) / b);
    }
}

/// Truncating division on 128-bit intermediates.
pub fn tdiv_i128(a: i128, b: i128) -> (q: i128)
    requires
        b >= 1,
        -0x4000_0000_0000_0000_0000_0000_0000_0000 <= a
            <= 0x4000_0000_0000_0000_0000_0000_0000_0000,
    ensures
        q == tdiv(a as int, b as int),
        a >= 0 ==> 0 <= q <= a,
        a < 0 ==> a <= q <= 0,
{
    proof {
        lemma_tdiv_bound(a as int, b as int);
    }
    if a >= 0 {
        ((a as u128) / (b as u128)) as i128
    } else {
        let m = (-a) as u128;
        -((m / (b as u128)) as i128)
    }
}

} // verus!
