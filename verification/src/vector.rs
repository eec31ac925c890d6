//! Three-component fixed-point vectors and points, with exact integer
//! specifications for every operation.

use vstd::prelude::*;
use crate::fixed::{Fx, FX_ONE, abs_i, div_t, mul_fx, lemma_div_t_abs, lemma_i64_prod_fits, isqrt_u128};

verus! {

/// Largest pairwise raw product accepted by `Vec3::dot`: each rescaled term
/// stays under a third of the `i64` range, so the three-term sum fits.
pub const DOT_PROD_BOUND: i128 = 0x1000_0000_0000_0000_0000;

/// Component magnitude accepted by `Vec3::norm`: the sum of three squares
/// stays within `u128` and the root within `i64`.
pub const NORM_BOUND: i64 = 0x1000_0000_0000_0000;

/// The mathematical value of a vector: its three raw components.
pub ghost struct V3 {
    pub x: int,
    pub y: int,
    pub z: int,
}

impl V3 {
    pub open spec fn bounded(self, b: int) -> bool {
        abs_i(self.x) <= b && abs_i(self.y) <= b && abs_i(self.z) <= b
    }
}

/// The raw of the dot product of two vectors.
pub open spec fn dot_s(a: V3, b: V3) -> int {
    mul_fx(a.x, b.x) + mul_fx(a.y, b.y) + mul_fx(a.z, b.z)
}

pub open spec fn add_s(a: V3, b: V3) -> V3 {
    V3 { x: a.x + b.x, y: a.y + b.y, z: a.z + b.z }
}

pub open spec fn sub_s(a: V3, b: V3) -> V3 {
    V3 { x: a.x - b.x, y: a.y - b.y, z: a.z - b.z }
}

pub open spec fn neg_s(a: V3) -> V3 {
    V3 { x: -a.x, y: -a.y, z: -a.z }
}

/// Componentwise scaling by a fixed-point factor.
pub open spec fn scale_s(a: V3, k: int) -> V3 {
    V3 { x: mul_fx(a.x, k), y: mul_fx(a.y, k), z: mul_fx(a.z, k) }
}

pub open spec fn cross_s(a: V3, b: V3) -> V3 {
    V3 {
        x: mul_fx(a.y, b.z) - mul_fx(a.z, b.y),
        y: mul_fx(a.z, b.x) - mul_fx(a.x, b.z),
        z: mul_fx(a.x, b.y) - mul_fx(a.y, b.x),
    }
}

/// Sum of the squared raw components.
pub open spec fn sq_sum_s(a: V3) -> int {
    a.x * a.x + a.y * a.y + a.z * a.z
}

/// Floor of the square root of a nonnegative integer.
pub open spec fn sqrt_floor(x: int) -> int {
    choose|r: int| 0 <= r && #[trigger] (r * r) <= x && x < (r + 1) * (r + 1)
}

pub proof fn lemma_sqrt_floor_is(x: int, r: int)
    requires
        0 <= r,
        r * r <= x,
        x < (r + 1) * (r + 1),
    ensures
        sqrt_floor(x) == r,
{
    assert(0 <= r && r * r <= x && x < (r + 1) * (r + 1));
    let q = sqrt_floor(x);
    assert(0 <= q && q * q <= x && x < (q + 1) * (q + 1)) by {
        assert(exists|c: int| 0 <= c && #[trigger] (c * c) <= x && x < (c + 1) * (c + 1)) by {
            assert(0 <= r && #[trigger] (r * r) <= x && x < (r + 1) * (r + 1));
        }
    }
    assert(q == r) by (nonlinear_arith)
        requires
            0 <= r,
            r * r <= x,
            x < (r + 1) * (r + 1),
            0 <= q,
            q * q <= x,
            x < (q + 1) * (q + 1);
}

/// Every nonnegative integer has a floor square root.
pub proof fn lemma_sqrt_floor_exists(x: int)
    requires
        x >= 0,
    ensures
        exists|r: int| 0 <= r && #[trigger] (r * r) <= x && x < (r + 1) * (r + 1),
    decreases x,
{
    if x == 0 {
        assert(0 * 0 <= x && x < (0 + 1) * (0 + 1)) by (nonlinear_arith)
            requires x == 0;
        assert(0 <= 0 && 0 * 0 <= x && x < (0 + 1) * (0 + 1));
    } else {
        lemma_sqrt_floor_exists(x - 1);
        let r0 = choose|r: int| 0 <= r && #[trigger] (r * r) <= x - 1 && x - 1 < (r + 1) * (r + 1);
        if (r0 + 1) * (r0 + 1) <= x {
            assert(0 <= r0 + 1 && (r0 + 1) * (r0 + 1) <= x && x < ((r0 + 1) + 1) * ((r0 + 1) + 1))
                by (nonlinear_arith)
                requires
                    0 <= r0,
                    (r0 + 1) * (r0 + 1) <= x,
                    x - 1 < (r0 + 1) * (r0 + 1),
            ;
        } else {
            assert(0 <= r0 && r0 * r0 <= x && x < (r0 + 1) * (r0 + 1));
        }
    }
}

/// The raw of the Euclidean norm: floor square root of the squared sum.
pub open spec fn norm_s(a: V3) -> int {
    sqrt_floor(sq_sum_s(a))
}

/// The norm is nonnegative and its square brackets the squared sum.
pub proof fn lemma_norm_s_nonneg(a: V3)
    ensures
        norm_s(a) >= 0,
        norm_s(a) * norm_s(a) <= sq_sum_s(a),
        sq_sum_s(a) < (norm_s(a) + 1) * (norm_s(a) + 1),
{
    assert(a.x * a.x >= 0) by (nonlinear_arith);
    assert(a.y * a.y >= 0) by (nonlinear_arith);
    assert(a.z * a.z >= 0) by (nonlinear_arith);
    lemma_sqrt_floor_exists(sq_sum_s(a));
    let q = sqrt_floor(sq_sum_s(a));
    assert(0 <= q && q * q <= sq_sum_s(a) && sq_sum_s(a) < (q + 1) * (q + 1));
}

/// The vector rescaled to unit length (the zero vector stays zero).
pub open spec fn normalize_s(a: V3) -> V3 {
    let n = norm_s(a);
    if n == 0 {
        V3 { x: 0, y: 0, z: 0 }
    } else {
        V3 { x: div_t(a.x * FX_ONE, n), y: div_t(a.y * FX_ONE, n), z: div_t(a.z * FX_ONE, n) }
    }
}

/// A vector (or point) with three fixed-point components.
#[derive(Clone, Copy, Debug, PartialEq, Eq, Structural)]
pub struct Vec3 {
    pub x: Fx,
    pub y: Fx,
    pub z: Fx,
}

impl View for Vec3 {
    type V = V3;

    open spec fn view(&self) -> V3 {
        V3 { x: self.x@, y: self.y@, z: self.z@ }
    }
}

impl Vec3 {
    pub fn new(x: Fx, y: Fx, z: Fx) -> (r: Vec3)
        ensures
            r@ == (V3 { x: x@, y: y@, z: z@ }),
    {
        Vec3 { x, y, z }
    }

    /// The vector with the given whole-number components.
    pub fn of(x: i32, y: i32, z: i32) -> (r: Vec3)
        ensures
            r@ == (V3 { x: x as int * FX_ONE, y: y as int * FX_ONE, z: z as int * FX_ONE }),
    {
        Vec3 { x: Fx::of(x), y: Fx::of(y), z: Fx::of(z) }
    }

    pub fn zero() -> (r: Vec3)
        ensures
            r@ == (V3 { x: 0, y: 0, z: 0 }),
    {
        Vec3 { x: Fx::zero(), y: Fx::zero(), z: Fx::zero() }
    }

    pub fn add(self, o: Vec3) -> (r: Vec3)
        requires
            i64::MIN <= self@.x + o@.x <= i64::MAX,
            i64::MIN <= self@.y + o@.y <= i64::MAX,
            i64::MIN <= self@.z + o@.z <= i64::MAX,
        ensures
            r@ == add_s(self@, o@),
    {
        Vec3 { x: self.x.add(o.x), y: self.y.add(o.y), z: self.z.add(o.z) }
    }

    pub fn sub(self, o: Vec3) -> (r: Vec3)
        requires
            i64::MIN <= self@.x - o@.x <= i64::MAX,
            i64::MIN <= self@.y - o@.y <= i64::MAX,
            i64::MIN <= self@.z - o@.z <= i64::MAX,
        ensures
            r@ == sub_s(self@, o@),
    {
        Vec3 { x: self.x.sub(o.x), y: self.y.sub(o.y), z: self.z.sub(o.z) }
    }

    pub fn neg(self) -> (r: Vec3)
        requires
            self@.bounded(i64::MAX as int),
        ensures
            r@ == neg_s(self@),
    {
        Vec3 { x: self.x.neg(), y: self.y.neg(), z: self.z.neg() }
    }

    pub fn scale(self, k: Fx) -> (r: Vec3)
        requires
            abs_i(self@.x) * abs_i(k@) <= DOT_PROD_BOUND,
            abs_i(self@.y) * abs_i(k@) <= DOT_PROD_BOUND,
            abs_i(self@.z) * abs_i(k@) <= DOT_PROD_BOUND,
        ensures
            r@ == scale_s(self@, k@),
    {
        Vec3 { x: mul_wide(self.x, k), y: mul_wide(self.y, k), z: mul_wide(self.z, k) }
    }

    /// Dot product; each pairwise product must stay under `DOT_PROD_BOUND`.
    pub fn dot(self, o: Vec3) -> (r: Fx)
        requires
            abs_i(self@.x) * abs_i(o@.x) <= DOT_PROD_BOUND,
            abs_i(self@.y) * abs_i(o@.y) <= DOT_PROD_BOUND,
            abs_i(self@.z) * abs_i(o@.z) <= DOT_PROD_BOUND,
        ensures
            r@ == dot_s(self@, o@),
    {
        let xs: Fx = mul_wide(self.x, o.x);
        let ys: Fx = mul_wide(self.y, o.y);
        let zs: Fx = mul_wide(self.z, o.z);
        xs.add(ys).add(zs)
    }

    pub fn cross(self, o: Vec3) -> (r: Vec3)
        requires
            self@.bounded(0x1_0000_0000),
            o@.bounded(0x1_0000_0000),
        ensures
            r@ == cross_s(self@, o@),
    {
        proof {
            lemma_pairwise_prods(self@, o@, 0x1_0000_0000);
        }
        Vec3 {
            x: mul_wide(self.y, o.z).sub(mul_wide(self.z, o.y)),
            y: mul_wide(self.z, o.x).sub(mul_wide(self.x, o.z)),
            z: mul_wide(self.x, o.y).sub(mul_wide(self.y, o.x)),
        }
    }

    /// Euclidean length of the vector, as a fixed-point scalar.
    pub fn norm(self) -> (r: Fx)
        requires
            self@.bounded(NORM_BOUND as int),
        ensures
            r@ == norm_s(self@),
            r@ >= 0,
            r@ * r@ <= sq_sum_s(self@) < (r@ + 1) * (r@ + 1),
            abs_i(self@.x) <= r@ && abs_i(self@.y) <= r@ && abs_i(self@.z) <= r@,
    {
        proof {
            lemma_i64_prod_fits(self@.x, self@.x);
            lemma_i64_prod_fits(self@.y, self@.y);
            lemma_i64_prod_fits(self@.z, self@.z);
            assert(self@.x * self@.x <= NORM_BOUND * NORM_BOUND) by (nonlinear_arith)
                requires abs_i(self@.x) <= NORM_BOUND;
            assert(self@.y * self@.y <= NORM_BOUND * NORM_BOUND) by (nonlinear_arith)
                requires abs_i(self@.y) <= NORM_BOUND;
            assert(self@.z * self@.z <= NORM_BOUND * NORM_BOUND) by (nonlinear_arith)
                requires abs_i(self@.z) <= NORM_BOUND;
            assert(self@.x * self@.x >= 0) by (nonlinear_arith);
            assert(self@.y * self@.y >= 0) by (nonlinear_arith);
            assert(self@.z * self@.z >= 0) by (nonlinear_arith);
        }
        let xx: i128 = (self.x.raw as i128) * (self.x.raw as i128);
        let yy: i128 = (self.y.raw as i128) * (self.y.raw as i128);
        let zz: i128 = (self.z.raw as i128) * (self.z.raw as i128);
        let sum: u128 = (xx + yy + zz) as u128;
        proof {
            assert(sum as int == sq_sum_s(self@));
        }
        let root: u64 = isqrt_u128(sum);
        proof {
            lemma_sqrt_floor_is(sq_sum_s(self@), root as int);
            assert(root as int <= 0x2000_0000_0000_0000) by (nonlinear_arith)
                requires
                    0 <= root as int,
                    (root as int) * (root as int) <= 3 * (NORM_BOUND as int) * (NORM_BOUND as int);
            lemma_component_below_root(self@, root as int);
        }
        Fx { raw: root as i64 }
    }

    /// The vector rescaled to unit length; the zero vector is returned
    /// unchanged. Every component of the result is at most one in magnitude.
    pub fn normalize(self) -> (r: Vec3)
        requires
            self@.bounded(NORM_BOUND as int),
        ensures
            r@ == normalize_s(self@),
            r@.bounded(FX_ONE as int),
    {
        let n: Fx = self.norm();
        if n.raw == 0 {
            Vec3::zero()
        } else {
            proof {
                lemma_i64_prod_fits(self@.x, FX_ONE as int);
                lemma_i64_prod_fits(self@.y, FX_ONE as int);
                lemma_i64_prod_fits(self@.z, FX_ONE as int);
                lemma_div_t_abs(self@.x * FX_ONE, n@);
                lemma_div_t_abs(self@.y * FX_ONE, n@);
                lemma_div_t_abs(self@.z * FX_ONE, n@);
                lemma_normalize_component(self@.x, n@);
                lemma_normalize_component(self@.y, n@);
                lemma_normalize_component(self@.z, n@);
            }
            let nx: i128 = ((self.x.raw as i128) * (FX_ONE as i128)).checked_div(n.raw as i128).unwrap();
            let ny: i128 = ((self.y.raw as i128) * (FX_ONE as i128)).checked_div(n.raw as i128).unwrap();
            let nz: i128 = ((self.z.raw as i128) * (FX_ONE as i128)).checked_div(n.raw as i128).unwrap();
            Vec3 {
                x: Fx { raw: nx as i64 },
                y: Fx { raw: ny as i64 },
                z: Fx { raw: nz as i64 },
            }
        }
    }
}

/// A component divided by a norm that dominates it stays within one unit.
proof fn lemma_normalize_component(c: int, n: int)
    requires
        n >= 1,
        abs_i(c) <= n,
    ensures
        abs_i(div_t(c * FX_ONE, n)) <= FX_ONE,
{
    lemma_i64_prod_fits_gen(c, FX_ONE as int);
    lemma_div_t_abs(c * FX_ONE, n);
    assert(abs_i(c * FX_ONE) == abs_i(c) * FX_ONE) by (nonlinear_arith);
    assert(abs_i(c) * FX_ONE / n <= FX_ONE) by (nonlinear_arith)
        requires
            n >= 1,
            0 <= abs_i(c) <= n;
}

proof fn lemma_i64_prod_fits_gen(a: int, b: int)
    ensures
        abs_i(a * b) == abs_i(a) * abs_i(b),
{
    assert(abs_i(a * b) == abs_i(a) * abs_i(b)) by (nonlinear_arith);
}

/// Each squared component is below the squared sum, so each component
/// magnitude is bounded by the floor square root of the sum.
proof fn lemma_component_below_root(v: V3, r: int)
    requires
        r >= 0,
        r * r <= sq_sum_s(v),
        sq_sum_s(v) < (r + 1) * (r + 1),
    ensures
        abs_i(v.x) <= r && abs_i(v.y) <= r && abs_i(v.z) <= r,
{
    assert(abs_i(v.x) <= r) by (nonlinear_arith)
        requires
            r >= 0,
            v.x * v.x + v.y * v.y + v.z * v.z < (r + 1) * (r + 1);
    assert(abs_i(v.y) <= r) by (nonlinear_arith)
        requires
            r >= 0,
            v.x * v.x + v.y * v.y + v.z * v.z < (r + 1) * (r + 1);
    assert(abs_i(v.z) <= r) by (nonlinear_arith)
        requires
            r >= 0,
            v.x * v.x + v.y * v.y + v.z * v.z < (r + 1) * (r + 1);
}

/// Componentwise bounds give the pairwise product bounds `cross` needs.
proof fn lemma_pairwise_prods(a: V3, b: V3, c: int)
    requires
        0 <= c,
        c * c <= DOT_PROD_BOUND,
        a.bounded(c),
        b.bounded(c),
    ensures
        abs_i(a.x) * abs_i(b.x) <= DOT_PROD_BOUND,
        abs_i(a.x) * abs_i(b.y) <= DOT_PROD_BOUND,
        abs_i(a.x) * abs_i(b.z) <= DOT_PROD_BOUND,
        abs_i(a.y) * abs_i(b.x) <= DOT_PROD_BOUND,
        abs_i(a.y) * abs_i(b.y) <= DOT_PROD_BOUND,
        abs_i(a.y) * abs_i(b.z) <= DOT_PROD_BOUND,
        abs_i(a.z) * abs_i(b.x) <= DOT_PROD_BOUND,
        abs_i(a.z) * abs_i(b.y) <= DOT_PROD_BOUND,
        abs_i(a.z) * abs_i(b.z) <= DOT_PROD_BOUND,
{
    assert forall|p: int, q: int|
        0 <= p <= c && 0 <= q <= c implies #[trigger] (p * q) <= DOT_PROD_BOUND by {
        assert(p * q <= c * c) by (nonlinear_arith)
            requires 0 <= p <= c && 0 <= q <= c;
    }
}

/// Fixed-point product computed with a wide intermediate; the callers
/// guarantee only that the pairwise raw product is bounded.
fn mul_wide(a: Fx, b: Fx) -> (r: Fx)
    requires
        abs_i(a@) * abs_i(b@) <= DOT_PROD_BOUND,
    ensures
        r@ == mul_fx(a@, b@),
        abs_i(r@) <= abs_i(a@) * abs_i(b@) / (FX_ONE as int),
{
    proof {
        lemma_i64_prod_fits(a@, b@);
        lemma_i64_prod_fits_gen(a@, b@);
        lemma_div_t_abs(a@ * b@, FX_ONE as int);
        assert(abs_i(a@) * abs_i(b@) / (FX_ONE as int) <= DOT_PROD_BOUND) by (nonlinear_arith)
            requires 0 <= abs_i(a@) * abs_i(b@) <= DOT_PROD_BOUND;
    }
    let p: i128 = (a.raw as i128) * (b.raw as i128);
    let q: i128 = p.checked_div(FX_ONE as i128).unwrap();
    Fx { raw: q as i64 }
}

} // verus!
