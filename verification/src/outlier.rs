//! The outlier test on the energy values of a window.
//!
//! A value `x` is an outlier where it lies further from the mean `m` of all
//! values than `k` population standard deviations `d`: `|x - m| > k * d`, a
//! value at exactly that distance being none. With `n` values of sum `s` and
//! sum of squares `q`, `m = s / n` and `d * d = q / n - m * m`, so that the
//! test is `(n * x - s)^2 > k^2 * (n * q - s^2)`, which holds integers only.
//! The multiplier `k` is given in thousandths.

use vstd::prelude::*;
use crate::wide::{pow128, U256};

verus! {

/// Thousandths in one: a multiplier of 2 is given as 2000.
pub const MULTIPLIER_SCALE: u32 = 1000;

/// The sum of the values.
pub open spec fn sum(values: Seq<i32>) -> int
    decreases values.len(),
{
    if values.len() == 0 {
        0
    } else {
        sum(values.drop_last()) + values.last()
    }
}

/// The sum of the squares of the values.
pub open spec fn sum_squares(values: Seq<i32>) -> int
    decreases values.len(),
{
    if values.len() == 0 {
        0
    } else {
        sum_squares(values.drop_last()) + values.last() * values.last()
    }
}

/// Whether the value at `i` lies further from the mean of `values` than
/// `multiplier` thousandths of their population standard deviation.
pub open spec fn is_outlier(values: Seq<i32>, multiplier: u32, i: int) -> bool {
    let n = values.len() as int;
    let s = sum(values);
    let q = sum_squares(values);
    let distance = n * values[i] - s;
    (1000 * distance) * (1000 * distance) > (multiplier * multiplier) * (n * q - s * s)
}

/// The mask of the outliers among `values`: nothing is an outlier among fewer
/// than three values.
pub open spec fn outlier_mask(values: Seq<i32>, multiplier: u32) -> Seq<bool> {
    Seq::new(values.len(), |i: int| values.len() >= 3 && is_outlier(values, multiplier, i))
}

/// Among fewer than three values nothing is an outlier.
pub proof fn lemma_few_values_no_outlier(values: Seq<i32>, multiplier: u32)
    requires
        values.len() < 3,
    ensures
        outlier_mask(values, multiplier).len() == values.len(),
        forall|i: int| 0 <= i < values.len() ==> !(#[trigger] outlier_mask(values, multiplier)[i]),
{
}

/// The sums of the values and of their squares.
fn sums(values: &[i32]) -> (r: (i128, u128))
    ensures
        r.0 == sum(values@),
        r.1 == sum_squares(values@),
        -(values.len() * 0x8000_0000) <= r.0 <= values.len() * 0x8000_0000,
        r.1 <= values.len() * 0x4000_0000_0000_0000,
{
    let mut s: i128 = 0;
    let mut q: u128 = 0;
    let mut i: usize = 0;
    proof {
        assert(values@.take(0) =~= Seq::<i32>::empty());
    }
    while i < values.len()
        invariant
            i <= values.len(),
            s == sum(values@.take(i as int)),
            q == sum_squares(values@.take(i as int)),
            -(i * 0x8000_0000) <= s <= i * 0x8000_0000,
            q <= i * 0x4000_0000_0000_0000,
        decreases values.len() - i,
    {
        let x: i128 = values[i] as i128;
        proof {
            assert(values@.take(i + 1).drop_last() =~= values@.take(i as int));
            assert(values@.take(i + 1).last() == values@[i as int]);
            assert(0 <= x * x <= 0x4000_0000_0000_0000) by (nonlinear_arith)
                requires
                    -0x8000_0000 <= x <= 0x8000_0000,
            ;
        }
        s = s + x;
        q = q + (x * x) as u128;
        i += 1;
    }
    proof {
        assert(values@.take(i as int) =~= values@);
    }
    (s, q)
}

/// The absolute value of a number that is not the least of its type.
fn magnitude(x: i128) -> (m: u128)
    requires
        x > i128::MIN,
    ensures
        m == if x < 0 {
            -x
        } else {
            x as int
        },
{
    if x < 0 {
        (-x) as u128
    } else {
        x as u128
    }
}

/// The mask of the outliers among `values`, for a multiplier given in
/// thousandths.
pub fn detect(values: &[i32], multiplier: u32) -> (mask: Vec<bool>)
    ensures
        mask@ == outlier_mask(values@, multiplier),
{
    let n = values.len();
    let mut mask: Vec<bool> = Vec::new();
    if n < 3 {
        let mut i: usize = 0;
        while i < n
            invariant
                i <= n,
                n < 3,
                n == values.len(),
                mask.len() == i,
                forall|j: int| 0 <= j < i ==> !(#[trigger] mask@[j]),
            decreases n - i,
        {
            mask.push(false);
            i += 1;
        }
        assert(mask@ =~= outlier_mask(values@, multiplier));
        return mask;
    }
    let (s, q) = sums(values);
    let count: u128 = n as u128;
    let k: u128 = multiplier as u128;
    let abs_s = magnitude(s);
    proof {
        assert(k * abs_s <= 0xffff_ffff * (0xffff_ffff_ffff_ffff * 0x8000_0000)) by (nonlinear_arith)
            requires
                0 <= k <= 0xffff_ffff,
                0 <= abs_s <= 0xffff_ffff_ffff_ffff * 0x8000_0000,
        ;
        assert(k * k <= 0xffff_ffff * 0xffff_ffff) by (nonlinear_arith)
            requires
                0 <= k <= 0xffff_ffff,
        ;
        assert((k * k) * count <= (0xffff_ffff * 0xffff_ffff) * 0xffff_ffff_ffff_ffff) by (nonlinear_arith)
            requires
                0 <= k * k <= 0xffff_ffff * 0xffff_ffff,
                0 <= count <= 0xffff_ffff_ffff_ffff,
        ;
    }
    let b: u128 = k * abs_s;
    let b_squared = U256::mul(b, b);
    let spread = U256::mul(k * k * count, q);
    let mut i: usize = 0;
    while i < n
        invariant
            i <= n,
            n >= 3,
            n == values.len(),
            count == n,
            k == multiplier,
            s == sum(values@),
            q == sum_squares(values@),
            -(n * 0x8000_0000) <= s <= n * 0x8000_0000,
            abs_s == if s < 0 {
                -s
            } else {
                s as int
            },
            b == k * abs_s,
            b <= 0xffff_ffff * (0xffff_ffff_ffff_ffff * 0x8000_0000),
            b_squared.value() == b as nat * b as nat,
            spread.value() == (k * k * count) as nat * q as nat,
            mask.len() == i,
            forall|j: int| 0 <= j < i ==> #[trigger] mask@[j] == is_outlier(values@, multiplier, j),
        decreases n - i,
    {
        let x: i128 = values[i] as i128;
        proof {
            assert(-(0xffff_ffff_ffff_ffff * 0x8000_0000) <= count * x <= 0xffff_ffff_ffff_ffff * 0x8000_0000)
                by (nonlinear_arith)
                requires
                    0 <= count <= 0xffff_ffff_ffff_ffff,
                    -0x8000_0000 <= x <= 0x8000_0000,
            ;
        }
        let distance: i128 = (count as i128) * x - s;
        let a: u128 = 1000 * magnitude(distance);
        let a_squared = U256::mul(a, a);
        proof {
            assert(a <= 0x400_0000_0000_0000_0000_0000_0000u128);
            assert(b <= 0x8000_0000_0000_0000_0000_0000_0000_0000u128);
            assert(a as nat * a as nat <= 0x10_0000_0000_0000_0000_0000_0000_0000_0000_0000_0000_0000_0000_0000nat)
                by (nonlinear_arith)
                requires
                    a <= 0x400_0000_0000_0000_0000_0000_0000u128,
            ;
            assert(b as nat * b as nat
                <= 0x4000_0000_0000_0000_0000_0000_0000_0000_0000_0000_0000_0000_0000_0000_0000_0000nat)
                by (nonlinear_arith)
                requires
                    b <= 0x8000_0000_0000_0000_0000_0000_0000_0000u128,
            ;
            assert(pow128() * pow128()
                == 0x1_0000_0000_0000_0000_0000_0000_0000_0000_0000_0000_0000_0000_0000_0000_0000_0000nat);
        }
        let lhs = a_squared.add(b_squared);
        let flag = lhs.gt(spread);
        proof {
            let d: int = distance as int;
            let kk: int = k as int;
            let si: int = s as int;
            let qi: int = q as int;
            let ni: int = n as int;
            assert(a as int * a as int == (1000 * d) * (1000 * d)) by (nonlinear_arith)
                requires
                    a as int == 1000 * d || a as int == -(1000 * d),
            ;
            assert(k * abs_s == kk * si || k * abs_s == -(kk * si)) by (nonlinear_arith)
                requires
                    abs_s as int == si || abs_s as int == -si,
                    k as int == kk,
            ;
            assert(b as int * b as int == (kk * kk) * (si * si)) by (nonlinear_arith)
                requires
                    b as int == kk * si || b as int == -(kk * si),
            ;
            assert((kk * kk * ni) * qi == (kk * kk) * (ni * qi)) by (nonlinear_arith);
            assert((kk * kk) * (ni * qi - si * si) == (kk * kk) * (ni * qi) - (kk * kk) * (si * si))
                by (nonlinear_arith);
            assert(flag == is_outlier(values@, multiplier, i as int));
        }
        mask.push(flag);
        i += 1;
    }
    assert(mask@ =~= outlier_mask(values@, multiplier));
    mask
}

} // verus!
