//! Fixed-point scalars: signed 48.16 numbers stored as a raw `i64`.
//!
//! A value `x` stands for the real number `x.raw / 65536`. All geometry and
//! shading arithmetic in this crate is expressed over these scalars, so every
//! contract can state the computed result exactly, as integer arithmetic on
//! the raw representations.

use vstd::prelude::*;

verus! {

/// Raw representation of 1.0.
pub const FX_ONE: i64 = 65536;

/// Magnitude bound accepted by `Fx::mul`: products of two such raws
/// divided by the scale stay within `i64`.
pub const FX_MUL_BOUND: i64 = 0x80_0000_0000;

/// Magnitude bound accepted by `Fx::div`: the raw times the scale
/// stays within `i64`.
pub const FX_DIV_BOUND: i64 = 0x4000_0000_0000;

/// A value forced into a closed interval.
pub open spec fn clamp_i(a: int, lo: int, hi: int) -> int {
    if a < lo {
        lo
    } else if a > hi {
        hi
    } else {
        a
    }
}

/// Absolute value of a mathematical integer.
pub open spec fn abs_i(a: int) -> int {
    if a >= 0 {
        a
    } else {
        -a
    }
}

/// Truncating (round-toward-zero) integer division, the semantics of
/// Rust's `/` on signed integers.
pub open spec fn div_t(a: int, b: int) -> int {
    if a == 0 {
        0
    } else if a > 0 && b > 0 {
        a / b
    } else if a < 0 && b < 0 {
        (a * -1) / (b * -1)
    } else if a < 0 {
        ((a * -1) / b) * -1
    } else {
        (a / (b * -1)) * -1
    }
}

/// Product of two fixed-point raws, rescaled back: the raw of `a * b`.
pub open spec fn mul_fx(a: int, b: int) -> int {
    div_t(a * b, FX_ONE as int)
}

/// Quotient of two fixed-point raws, rescaled: the raw of `a / b`.
pub open spec fn div_fx(a: int, b: int) -> int {
    div_t(a * (FX_ONE as int), b)
}

pub proof fn lemma_div_t_abs(a: int, b: int)
    requires
        b != 0,
    ensures
        abs_i(div_t(a, b)) == abs_i(a) / abs_i(b),
        abs_i(a) / abs_i(b) <= abs_i(a),
{
    let aa = abs_i(a);
    let ab = abs_i(b);
    assert(aa >= 0 && ab >= 1);
    assert(aa / ab >= 0) by (nonlinear_arith)
        requires aa >= 0 && ab >= 1;
    assert(aa / ab <= aa) by (nonlinear_arith)
        requires aa >= 0 && ab >= 1;
    if a == 0 {
        assert(aa / ab == 0) by (nonlinear_arith)
            requires aa == 0 && ab >= 1;
    }
}


/// Truncating division of a nonnegative value by a positive one is
/// nonnegative.
pub proof fn lemma_div_t_nonneg(a: int, b: int)
    requires
        0 <= a,
        0 < b,
    ensures
        0 <= div_t(a, b),
{
    if a > 0 {
        vstd::arithmetic::div_mod::lemma_div_pos_is_pos(a, b);
    }
}

/// A rescaled product of two values in `[0, 1]` stays in `[0, 1]`.
pub proof fn lemma_mul_fx_unit(a: int, b: int)
    requires
        0 <= a <= FX_ONE,
        0 <= b <= FX_ONE,
    ensures
        0 <= mul_fx(a, b) <= FX_ONE,
        b == FX_ONE ==> mul_fx(a, b) == a,
{
    assert(0 <= a * b <= FX_ONE * FX_ONE) by (nonlinear_arith)
        requires
            0 <= a <= FX_ONE,
            0 <= b <= FX_ONE;
    assert(mul_fx(a, b) == a * b / (FX_ONE as int));
    vstd::arithmetic::div_mod::lemma_div_is_ordered(a * b, FX_ONE * FX_ONE, FX_ONE as int);
    vstd::arithmetic::div_mod::lemma_div_multiples_vanish(FX_ONE as int, FX_ONE as int);
    assert(a * b >= 0) by (nonlinear_arith)
        requires
            0 <= a,
            0 <= b;
    vstd::arithmetic::div_mod::lemma_div_is_ordered(0, a * b, FX_ONE as int);
    if b == FX_ONE {
        assert(a * b == a * FX_ONE) by (nonlinear_arith)
            requires b == FX_ONE;
        vstd::arithmetic::div_mod::lemma_div_multiples_vanish(a, FX_ONE as int);
    }
}

/// Fixed-point exponentiation by a whole number.
pub open spec fn pow_fx_s(b: int, k: nat) -> int
    decreases k,
{
    if k == 0 {
        FX_ONE as int
    } else {
        mul_fx(b, pow_fx_s(b, (k - 1) as nat))
    }
}

/// A base within `[0, 1]` keeps every power within `[0, 1]`.
pub proof fn lemma_pow_fx_unit(b: int, k: nat)
    requires
        0 <= b <= FX_ONE,
    ensures
        0 <= pow_fx_s(b, k) <= FX_ONE,
    decreases k,
{
    if k > 0 {
        lemma_pow_fx_unit(b, (k - 1) as nat);
        lemma_mul_fx_unit(b, pow_fx_s(b, (k - 1) as nat));
    }
}

/// The product of two `i64` values always fits in an `i128`.
pub proof fn lemma_i64_prod_fits(a: int, b: int)
    requires
        i64::MIN <= a <= i64::MAX,
        i64::MIN <= b <= i64::MAX,
    ensures
        i128::MIN <= a * b <= i128::MAX,
{
    assert(i128::MIN <= a * b <= i128::MAX) by (nonlinear_arith)
        requires
            i64::MIN <= a <= i64::MAX,
            i64::MIN <= b <= i64::MAX;
}

/// A fixed-point scalar.
#[derive(Clone, Copy, Debug, PartialEq, Eq, Structural)]
pub struct Fx {
    pub raw: i64,
}

impl View for Fx {
    type V = int;

    open spec fn view(&self) -> int {
        self.raw as int
    }
}

impl Fx {
    /// The scalar with the given raw representation.
    pub fn from_raw(raw: i64) -> (r: Fx)
        ensures
            r@ == raw as int,
    {
        Fx { raw }
    }

    /// The scalar standing for the whole number `units`.
    pub fn of(units: i32) -> (r: Fx)
        ensures
            r@ == units as int * FX_ONE,
    {
        Fx { raw: (units as i64) * FX_ONE }
    }

    /// The scalar standing for `num / den`, rounded toward zero.
    pub fn ratio(num: i32, den: i32) -> (r: Fx)
        requires
            den != 0,
        ensures
            r@ == div_t(num as int * FX_ONE, den as int),
    {
        let n: i64 = (num as i64) * FX_ONE;
        let q: i64 = n.checked_div(den as i64).unwrap();
        proof {
            lemma_div_t_abs(n as int, den as int);
        }
        Fx { raw: q }
    }

    pub fn zero() -> (r: Fx)
        ensures
            r@ == 0,
    {
        Fx { raw: 0 }
    }

    pub fn one() -> (r: Fx)
        ensures
            r@ == FX_ONE as int,
    {
        Fx { raw: FX_ONE }
    }

    pub fn add(self, o: Fx) -> (r: Fx)
        requires
            i64::MIN <= self@ + o@ <= i64::MAX,
        ensures
            r@ == self@ + o@,
    {
        Fx { raw: self.raw + o.raw }
    }

    pub fn sub(self, o: Fx) -> (r: Fx)
        requires
            i64::MIN <= self@ - o@ <= i64::MAX,
        ensures
            r@ == self@ - o@,
    {
        Fx { raw: self.raw - o.raw }
    }

    pub fn neg(self) -> (r: Fx)
        requires
            self@ != i64::MIN,
        ensures
            r@ == -self@,
    {
        Fx { raw: -self.raw }
    }

    pub fn abs(self) -> (r: Fx)
        requires
            self@ != i64::MIN,
        ensures
            r@ == abs_i(self@),
    {
        if self.raw < 0 {
            Fx { raw: -self.raw }
        } else {
            self
        }
    }

    pub fn lt(self, o: Fx) -> (r: bool)
        ensures
            r == (self@ < o@),
    {
        self.raw < o.raw
    }

    /// The scalar forced into `[lo, hi]`.
    pub fn clamp(self, lo: Fx, hi: Fx) -> (r: Fx)
        requires
            lo@ <= hi@,
        ensures
            r@ == clamp_i(self@, lo@, hi@),
    {
        if self.raw < lo.raw {
            lo
        } else if self.raw > hi.raw {
            hi
        } else {
            self
        }
    }

    pub fn le(self, o: Fx) -> (r: bool)
        ensures
            r == (self@ <= o@),
    {
        self.raw <= o.raw
    }

    /// Fixed-point product. The extra clauses bound the result so that
    /// callers can chain operations without re-deriving magnitudes.
    pub fn mul(self, o: Fx) -> (r: Fx)
        requires
            abs_i(self@) <= FX_MUL_BOUND,
            abs_i(o@) <= FX_MUL_BOUND,
        ensures
            r@ == mul_fx(self@, o@),
            abs_i(r@) == abs_i(self@) * abs_i(o@) / (FX_ONE as int),
            abs_i(self@) <= FX_ONE && abs_i(o@) <= FX_ONE ==> abs_i(r@) <= FX_ONE,
            abs_i(self@) <= 2 * FX_ONE && abs_i(o@) <= 2 * FX_ONE ==> abs_i(r@) <= 4 * FX_ONE,
    {
        proof {
            lemma_i64_prod_fits(self@, o@);
        }
        let p: i128 = (self.raw as i128) * (o.raw as i128);
        proof {
            assert(abs_i(p as int) == abs_i(self@) * abs_i(o@)) by (nonlinear_arith)
                requires p == self@ * o@;
            lemma_div_t_abs(p as int, FX_ONE as int);
            assert(abs_i(self@) * abs_i(o@) / (FX_ONE as int) <= FX_MUL_BOUND * FX_MUL_BOUND / (FX_ONE as int))
                by (nonlinear_arith)
                requires
                    0 <= abs_i(self@) <= FX_MUL_BOUND,
                    0 <= abs_i(o@) <= FX_MUL_BOUND;
            assert(abs_i(self@) <= FX_ONE && abs_i(o@) <= FX_ONE
                ==> abs_i(self@) * abs_i(o@) / (FX_ONE as int) <= FX_ONE) by (nonlinear_arith)
                requires
                    0 <= abs_i(self@),
                    0 <= abs_i(o@);
            assert(abs_i(self@) <= 2 * FX_ONE && abs_i(o@) <= 2 * FX_ONE
                ==> abs_i(self@) * abs_i(o@) / (FX_ONE as int) <= 4 * FX_ONE) by (nonlinear_arith)
                requires
                    0 <= abs_i(self@),
                    0 <= abs_i(o@);
        }
        let q: i128 = p.checked_div(FX_ONE as i128).unwrap();
        Fx { raw: q as i64 }
    }

    /// Fixed-point quotient, truncated toward zero.
    pub fn div(self, o: Fx) -> (r: Fx)
        requires
            o@ != 0,
            abs_i(self@) <= FX_DIV_BOUND,
        ensures
            r@ == div_fx(self@, o@),
            abs_i(r@) <= abs_i(self@) * (FX_ONE as int),
            abs_i(o@) >= FX_ONE ==> abs_i(r@) <= abs_i(self@),
    {
        proof {
            lemma_i64_prod_fits(self@, FX_ONE as int);
        }
        let n: i128 = (self.raw as i128) * (FX_ONE as i128);
        proof {
            assert(abs_i(n as int) == abs_i(self@) * (FX_ONE as int)) by (nonlinear_arith)
                requires n == self@ * (FX_ONE as int);
            lemma_div_t_abs(n as int, o@);
            assert(abs_i(n as int) / abs_i(o@) <= abs_i(n as int)) by (nonlinear_arith)
                requires abs_i(n as int) >= 0 && abs_i(o@) >= 1;
            assert(abs_i(o@) >= FX_ONE ==> abs_i(n as int) / abs_i(o@) <= abs_i(self@))
                by (nonlinear_arith)
                requires
                    abs_i(n as int) == abs_i(self@) * (FX_ONE as int),
                    abs_i(self@) >= 0,
                    abs_i(o@) >= 1;
        }
        let q: i128 = n.checked_div(o.raw as i128).unwrap();
        Fx { raw: q as i64 }
    }
}

/// Floor of the square root of `x`.
pub fn isqrt_u128(x: u128) -> (r: u64)
    ensures
        (r as int) * (r as int) <= x,
        x < (r + 1) * (r + 1),
{
    if x == 0 {
        return 0;
    }
    let mut lo: u128 = 0;
    let mut hi: u128 = 0x1_0000_0000_0000_0000;
    proof {
        assert((hi as int) * (hi as int) > x) by (nonlinear_arith)
            requires hi == 0x1_0000_0000_0000_0000u128 && x <= u128::MAX;
    }
    while hi - lo > 1
        invariant
            (lo as int) * (lo as int) <= x,
            x < (hi as int) * (hi as int),
            lo < hi <= 0x1_0000_0000_0000_0000u128,
        decreases hi - lo,
    {
        let mid: u128 = lo + (hi - lo) / 2;
        proof {
            assert(lo < mid < hi);
            assert((mid as int) * (mid as int) < 0x1_0000_0000_0000_0000_0000_0000_0000_0000)
                by (nonlinear_arith)
                requires mid < 0x1_0000_0000_0000_0000u128;
        }
        if mid * mid <= x {
            lo = mid;
        } else {
            hi = mid;
        }
    }
    lo as u64
}

/// `base` in `[0, 1]` raised to the `exp`-th power.
pub fn pow_fx(base: Fx, exp: u32) -> (r: Fx)
    requires
        0 <= base@ <= FX_ONE,
    ensures
        r@ == pow_fx_s(base@, exp as nat),
        0 <= r@ <= FX_ONE,
{
    let mut acc: Fx = Fx::one();
    let mut i: u32 = 0;
    proof {
        lemma_pow_fx_unit(base@, exp as nat);
    }
    while i < exp
        invariant
            0 <= base@ <= FX_ONE,
            i <= exp,
            0 <= acc@ <= FX_ONE,
            acc@ == pow_fx_s(base@, i as nat),
        decreases exp - i,
    {
        proof {
            lemma_mul_fx_unit(base@, acc@);
            assert(pow_fx_s(base@, (i + 1) as nat) == mul_fx(base@, pow_fx_s(base@, i as nat)));
        }
        acc = base.mul(acc);
        i = i + 1;
    }
    acc
}

} // verus!
