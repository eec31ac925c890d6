//! Sub-pixel samplers: each produces the n-squared sample coordinates for a
//! pixel, every one inside the pixel's half-open unit square.

use vstd::prelude::*;
use crate::fixed::{Fx, FX_ONE};
use crate::util::random_below;

verus! {

/// A pure random sampler: independent uniform samples over the square.
pub struct Random;

/// A jittered sampler: one random sample in each cell of an n-by-n grid.
pub struct Jittered;

/// A uniform sampler: the centers of an n-by-n grid.
pub struct Uniform;

/// The sample lies in `[px, px+1) x [py, py+1)`.
pub open spec fn sample_in_pixel(s: (Fx, Fx), px: int, py: int) -> bool {
    px * FX_ONE <= s.0@ < (px + 1) * FX_ONE && py * FX_ONE <= s.1@ < (py + 1) * FX_ONE
}

/// A sub-pixel sampling strategy.
pub trait PixelSampler {
    /// Exactly n-squared sample coordinates, each inside the pixel.
    fn samples(&self, pixel: (u32, u32), n: u32) -> (v: Vec<(Fx, Fx)>)
        requires
            1 <= n <= 0x400,
            pixel.0 <= 0x10000,
            pixel.1 <= 0x10000,
        ensures
            v@.len() == n * n,
            forall|k: int|
                0 <= k < v@.len() ==> sample_in_pixel(
                    #[trigger] v@[k],
                    pixel.0 as int,
                    pixel.1 as int,
                ),
    ;
}

/// The center of grid cell `i` of `n`, as an offset within the pixel.
pub open spec fn uniform_off_s(i: int, n: int) -> int {
    (2 * i + 1) * FX_ONE / (2 * n)
}

/// The offset of the cell center, shown to lie inside the pixel.
fn uniform_off(i: u32, n: u32) -> (r: Fx)
    requires
        1 <= n <= 0x400,
        i < n,
    ensures
        r@ == uniform_off_s(i as int, n as int),
        0 <= r@ < FX_ONE,
{
    let num: u64 = (2 * (i as u64) + 1) * 65536;
    let den: u64 = 2 * (n as u64);
    let off: u64 = num / den;
    proof {
        vstd::arithmetic::div_mod::lemma_multiply_divide_lt(
            num as int,
            den as int,
            FX_ONE as int,
        );
        assert((2 * (i as int) + 1) * 65536 < (2 * (n as int)) * 65536) by (nonlinear_arith)
            requires i < n;
    }
    Fx { raw: off as i64 }
}

/// A pixel coordinate plus an in-pixel offset.
fn pixel_coord(p: u32, off: Fx) -> (r: Fx)
    requires
        p <= 0x10000,
        0 <= off@ < FX_ONE,
    ensures
        r@ == p as int * FX_ONE + off@,
{
    Fx { raw: (p as i64) * 65536 + off.raw }
}

impl PixelSampler for Uniform {
    /// The regular grid: sample `(i, j)` sits at the center of cell
    /// `(i, j)`, at `(px + (2i+1)/2n, py + (2j+1)/2n)`.
    fn samples(&self, pixel: (u32, u32), n: u32) -> (v: Vec<(Fx, Fx)>)
        ensures
            forall|k: int|
                0 <= k < v@.len() ==> (#[trigger] v@[k]).0@ == pixel.0 as int * FX_ONE
                    + uniform_off_s(k / (n as int), n as int) && v@[k].1@ == pixel.1 as int
                    * FX_ONE + uniform_off_s(k % (n as int), n as int),
    {
        let (px, py) = pixel;
        let mut v: Vec<(Fx, Fx)> = Vec::new();
        let mut i: u32 = 0;
        while i < n
            invariant
                1 <= n <= 0x400,
                px <= 0x10000,
                py <= 0x10000,
                i <= n,
                v@.len() == i * n,
                forall|k: int|
                    0 <= k < v@.len() ==> sample_in_pixel(#[trigger] v@[k], px as int, py as int),
                forall|k: int|
                    0 <= k < v@.len() ==> (#[trigger] v@[k]).0@ == px as int * FX_ONE
                        + uniform_off_s(k / (n as int), n as int) && v@[k].1@ == py as int
                        * FX_ONE + uniform_off_s(k % (n as int), n as int),
            decreases n - i,
        {
            let mut j: u32 = 0;
            while j < n
                invariant
                    1 <= n <= 0x400,
                    px <= 0x10000,
                    py <= 0x10000,
                    i < n,
                    j <= n,
                    v@.len() == i * n + j,
                    forall|k: int|
                        0 <= k < v@.len() ==> sample_in_pixel(
                            #[trigger] v@[k],
                            px as int,
                            py as int,
                        ),
                    forall|k: int|
                        0 <= k < v@.len() ==> (#[trigger] v@[k]).0@ == px as int * FX_ONE
                            + uniform_off_s(k / (n as int), n as int) && v@[k].1@ == py as int
                            * FX_ONE + uniform_off_s(k % (n as int), n as int),
                decreases n - j,
            {
                let x: Fx = pixel_coord(px, uniform_off(i, n));
                let y: Fx = pixel_coord(py, uniform_off(j, n));
                proof {
                    vstd::arithmetic::div_mod::lemma_fundamental_div_mod_converse(
                        i as int * n as int + j as int,
                        n as int,
                        i as int,
                        j as int,
                    );
                    assert(i * n + j + 1 <= n * n) by (nonlinear_arith)
                        requires i < n && j < n;
                }
                v.push((x, y));
                j = j + 1;
            }
            proof {
                assert((i + 1) * n == i * n + n) by (nonlinear_arith);
            }
            i = i + 1;
        }
        v
    }
}

impl PixelSampler for Random {
    /// Independent uniform samples over the pixel square.
    fn samples(&self, pixel: (u32, u32), n: u32) -> (v: Vec<(Fx, Fx)>) {
        let (px, py) = pixel;
        proof {
            assert(n * n <= 0x10_0000) by (nonlinear_arith)
                requires n <= 0x400;
        }
        let total: u32 = n * n;
        let mut v: Vec<(Fx, Fx)> = Vec::new();
        let mut k: u32 = 0;
        while k < total
            invariant
                px <= 0x10000,
                py <= 0x10000,
                k <= total,
                v@.len() == k,
                forall|q: int|
                    0 <= q < v@.len() ==> sample_in_pixel(#[trigger] v@[q], px as int, py as int),
            decreases total - k,
        {
            let ox: u64 = random_below(65536);
            let oy: u64 = random_below(65536);
            let x: Fx = pixel_coord(px, Fx { raw: ox as i64 });
            let y: Fx = pixel_coord(py, Fx { raw: oy as i64 });
            v.push((x, y));
            k = k + 1;
        }
        v
    }
}

/// The offset lies inside grid cell `i` of `n`: at or above the cell's
/// floor and at most the last offset below the next cell's floor.
pub open spec fn in_cell_s(off: int, i: int, n: int) -> bool {
    (i * FX_ONE) / n <= off <= ((i + 1) * FX_ONE - 1) / n
}

impl PixelSampler for Jittered {
    /// One uniform sample inside each cell of the n-by-n grid: sample
    /// `k` lies in cell `(k / n, k % n)` — stratified sampling.
    fn samples(&self, pixel: (u32, u32), n: u32) -> (v: Vec<(Fx, Fx)>)
        ensures
            forall|k: int|
                0 <= k < v@.len() ==> in_cell_s(
                    (#[trigger] v@[k]).0@ - pixel.0 as int * FX_ONE,
                    k / (n as int),
                    n as int,
                ) && in_cell_s(
                    v@[k].1@ - pixel.1 as int * FX_ONE,
                    k % (n as int),
                    n as int,
                ),
    {
        let (px, py) = pixel;
        let mut v: Vec<(Fx, Fx)> = Vec::new();
        let mut i: u32 = 0;
        while i < n
            invariant
                1 <= n <= 0x400,
                px <= 0x10000,
                py <= 0x10000,
                i <= n,
                v@.len() == i * n,
                forall|k: int|
                    0 <= k < v@.len() ==> sample_in_pixel(#[trigger] v@[k], px as int, py as int),
                forall|k: int|
                    0 <= k < v@.len() ==> in_cell_s(
                        (#[trigger] v@[k]).0@ - px as int * FX_ONE,
                        k / (n as int),
                        n as int,
                    ) && in_cell_s(v@[k].1@ - py as int * FX_ONE, k % (n as int), n as int),
            decreases n - i,
        {
            let mut j: u32 = 0;
            while j < n
                invariant
                    1 <= n <= 0x400,
                    px <= 0x10000,
                    py <= 0x10000,
                    i < n,
                    j <= n,
                    v@.len() == i * n + j,
                    forall|k: int|
                        0 <= k < v@.len() ==> sample_in_pixel(
                            #[trigger] v@[k],
                            px as int,
                            py as int,
                        ),
                    forall|k: int|
                        0 <= k < v@.len() ==> in_cell_s(
                            (#[trigger] v@[k]).0@ - px as int * FX_ONE,
                            k / (n as int),
                            n as int,
                        ) && in_cell_s(v@[k].1@ - py as int * FX_ONE, k % (n as int), n as int),
                decreases n - j,
            {
                let x: Fx = pixel_coord(px, jitter_off(i, n));
                let y: Fx = pixel_coord(py, jitter_off(j, n));
                proof {
                    vstd::arithmetic::div_mod::lemma_fundamental_div_mod_converse(
                        i as int * n as int + j as int,
                        n as int,
                        i as int,
                        j as int,
                    );
                    assert(i * n + j + 1 <= n * n) by (nonlinear_arith)
                        requires i < n && j < n;
                }
                v.push((x, y));
                j = j + 1;
            }
            proof {
                assert((i + 1) * n == i * n + n) by (nonlinear_arith);
            }
            i = i + 1;
        }
        v
    }
}

/// A uniformly sampled offset within grid cell `i` of `n`.
fn jitter_off(i: u32, n: u32) -> (r: Fx)
    requires
        1 <= n <= 0x400,
        i < n,
    ensures
        0 <= r@ < FX_ONE,
        in_cell_s(r@, i as int, n as int),
{
    let u: u64 = random_below(65536);
    let num: u64 = (i as u64) * 65536 + u;
    let off: u64 = num / (n as u64);
    proof {
        vstd::arithmetic::div_mod::lemma_multiply_divide_lt(
            num as int,
            n as int,
            FX_ONE as int,
        );
        assert((i as int) * 65536 + u < (n as int) * 65536) by (nonlinear_arith)
            requires i < n && u < 65536;
        vstd::arithmetic::div_mod::lemma_div_is_ordered(
            i as int * FX_ONE,
            num as int,
            n as int,
        );
        vstd::arithmetic::div_mod::lemma_div_is_ordered(
            num as int,
            (i as int + 1) * FX_ONE - 1,
            n as int,
        );
    }
    Fx { raw: off as i64 }
}

} // verus!
