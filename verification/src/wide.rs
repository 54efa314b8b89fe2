//! Unsigned integers of 256 bits, as far as the outlier test needs them: the
//! exact product of two 128-bit numbers, sums and comparison.

use vstd::prelude::*;

verus! {

/// Two to the power 64.
pub open spec fn pow64() -> nat {
    0x1_0000_0000_0000_0000nat
}

/// Two to the power 128.
pub open spec fn pow128() -> nat {
    0x1_0000_0000_0000_0000_0000_0000_0000_0000nat
}

/// An unsigned integer of 256 bits: `hi * 2^128 + lo`.
#[derive(Debug, Clone, Copy, PartialEq, Eq, Structural)]
pub struct U256 {
    pub hi: u128,
    pub lo: u128,
}

/// The product of two numbers below `2^64` is below `2^128`, with room to
/// spare.
proof fn lemma_half_product(x: nat, y: nat)
    requires
        x < pow64(),
        y < pow64(),
    ensures
        x * y <= (pow64() - 1) * (pow64() - 1),
        (pow64() - 1) * (pow64() - 1) == pow128() - 2 * pow64() + 1,
{
    assert(x * y <= (pow64() - 1) * (pow64() - 1)) by (nonlinear_arith)
        requires
            x <= pow64() - 1,
            y <= pow64() - 1,
    ;
    assert((pow64() - 1) * (pow64() - 1) == pow128() - 2 * pow64() + 1);
}

/// A number written in halves times a number written in halves.
proof fn lemma_split_product(a1: nat, a0: nat, b1: nat, b0: nat, base: nat)
    ensures
        (a1 * base + a0) * (b1 * base + b0) == (a1 * b1) * (base * base) + (a0 * b1 + a1 * b0) * base + a0 * b0,
{
    assert((a1 * base + a0) * (b1 * base + b0) == (a1 * b1) * (base * base) + (a0 * b1 + a1 * b0) * base + a0
        * b0) by (nonlinear_arith);
}

impl U256 {
    /// The number that the two halves stand for.
    pub open spec fn value(self) -> nat {
        self.hi as nat * pow128() + self.lo as nat
    }

    /// The exact product of `a` and `b`.
    pub fn mul(a: u128, b: u128) -> (p: U256)
        ensures
            p.value() == a as nat * b as nat,
    {
        let base: u128 = 0x1_0000_0000_0000_0000;
        let a1: u128 = a / base;
        let a0: u128 = a % base;
        let b1: u128 = b / base;
        let b0: u128 = b % base;
        proof {
            lemma_half_product(a0 as nat, b0 as nat);
            lemma_half_product(a0 as nat, b1 as nat);
            lemma_half_product(a1 as nat, b0 as nat);
            lemma_half_product(a1 as nat, b1 as nat);
            lemma_split_product(a1 as nat, a0 as nat, b1 as nat, b0 as nat, pow64());
            assert(pow64() * pow64() == pow128());
        }
        let low_low: u128 = a0 * b0;
        let low_high: u128 = a0 * b1;
        let high_low: u128 = a1 * b0;
        let high_high: u128 = a1 * b1;
        let mid: u128 = low_low / base + low_high % base + high_low % base;
        let lo: u128 = (mid % base) * base + low_low % base;
        let hi: u128 = high_high + low_high / base + high_low / base + mid / base;
        proof {
            assert(a as nat == a1 as nat * pow64() + a0 as nat);
            assert(b as nat == b1 as nat * pow64() + b0 as nat);
            assert(a as nat * b as nat == (a1 as nat * b1 as nat) * (pow64() * pow64()) + (a0 as nat * b1 as nat + a1 as nat
                * b0 as nat) * pow64() + a0 as nat * b0 as nat);
            assert(a as nat * b as nat == high_high as nat * pow128() + (low_high as nat + high_low as nat) * pow64() + low_low as nat);
            let low_high_top: nat = (low_high / base) as nat;
            let low_high_rest: nat = (low_high % base) as nat;
            let high_low_top: nat = (high_low / base) as nat;
            let high_low_rest: nat = (high_low % base) as nat;
            let low_low_top: nat = (low_low / base) as nat;
            let low_low_rest: nat = (low_low % base) as nat;
            let mid_top: nat = (mid / base) as nat;
            let mid_rest: nat = (mid % base) as nat;
            assert(low_high as nat == low_high_top * pow64() + low_high_rest);
            assert(high_low as nat == high_low_top * pow64() + high_low_rest);
            assert(low_low as nat == low_low_top * pow64() + low_low_rest);
            assert(mid as nat == mid_top * pow64() + mid_rest);
            assert(mid as nat == low_low_top + low_high_rest + high_low_rest);
            assert((low_high_top * pow64() + low_high_rest + high_low_top * pow64() + high_low_rest) * pow64() == (low_high_top + high_low_top) * pow128() + (low_high_rest + high_low_rest)
                * pow64()) by (nonlinear_arith)
                requires
                    pow64() * pow64() == pow128(),
            ;
            assert((mid_top * pow64() + mid_rest) * pow64() == mid_top * pow128() + mid_rest * pow64()) by (nonlinear_arith)
                requires
                    pow64() * pow64() == pow128(),
            ;
            assert((high_high as nat + low_high_top + high_low_top + mid_top) * pow128() == high_high as nat * pow128() + (low_high_top + high_low_top) * pow128() + mid_top
                * pow128()) by (nonlinear_arith);
            assert(lo as nat == mid_rest * pow64() + low_low_rest);
            assert(hi as nat == high_high as nat + low_high_top + high_low_top + mid_top);
        }
        U256 { hi, lo }
    }

    /// The sum of two numbers, where it fits.
    pub fn add(self, other: U256) -> (s: U256)
        requires
            self.value() + other.value() < pow128() * pow128(),
        ensures
            s.value() == self.value() + other.value(),
    {
        let max: u128 = u128::MAX;
        proof {
            assert(self.hi as nat * pow128() + other.hi as nat * pow128() == (self.hi as nat + other.hi as nat) * pow128())
                by (nonlinear_arith);
            assert((self.hi as nat + other.hi as nat) < pow128() ==> (self.hi as nat + other.hi as nat + 1) * pow128()
                <= pow128() * pow128()) by (nonlinear_arith);
            assert((self.hi as nat + other.hi as nat) >= pow128() ==> (self.hi as nat + other.hi as nat) * pow128()
                >= pow128() * pow128()) by (nonlinear_arith);
        }
        if self.lo <= max - other.lo {
            U256 { hi: self.hi + other.hi, lo: self.lo + other.lo }
        } else {
            let lo: u128 = self.lo - (max - other.lo) - 1;
            proof {
                assert((self.hi as nat + other.hi as nat + 1) * pow128() == (self.hi as nat + other.hi as nat) * pow128()
                    + pow128()) by (nonlinear_arith);
                assert((self.hi as nat + other.hi as nat + 1) >= pow128() ==> (self.hi as nat + other.hi as nat + 1)
                    * pow128() >= pow128() * pow128()) by (nonlinear_arith);
            }
            U256 { hi: self.hi + other.hi + 1, lo }
        }
    }

    /// Whether `self` is greater than `other`.
    pub fn gt(self, other: U256) -> (r: bool)
        ensures
            r == (self.value() > other.value()),
    {
        proof {
            assert(self.hi > other.hi ==> self.hi as nat * pow128() >= other.hi as nat * pow128() + pow128())
                by (nonlinear_arith);
            assert(self.hi < other.hi ==> other.hi as nat * pow128() >= self.hi as nat * pow128() + pow128())
                by (nonlinear_arith);
        }
        self.hi > other.hi || (self.hi == other.hi && self.lo > other.lo)
    }
}

} // verus!
