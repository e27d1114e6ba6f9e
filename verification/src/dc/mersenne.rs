//! Arithmetic facts about the Mersenne prime 2^127 - 1.
//!
//! Since 2^127 is congruent to 1 modulo `P`, an integer can be reduced by
//! adding what lies above bit 127 back onto the low 127 bits. This module
//! names that step, `fold`, and proves what the field arithmetic needs of it.

use vstd::arithmetic::div_mod::{
    lemma_fundamental_div_mod, lemma_hoist_over_denominator, lemma_mod_multiples_vanish,
    lemma_small_mod,
};
use vstd::prelude::*;

verus! {

/// The modulus, 2^127 - 1.
pub const P: u128 = 0x7fff_ffff_ffff_ffff_ffff_ffff_ffff_ffff;

/// 2^64, the weight of the high limb of a 128-bit word.
pub open spec fn two_64() -> nat {
    0x1_0000_0000_0000_0000
}

/// 2^127, which is `P + 1`.
pub open spec fn two_127() -> nat {
    0x8000_0000_0000_0000_0000_0000_0000_0000
}

/// 2^128, the weight of the high word of a double-width product.
pub open spec fn two_128() -> nat {
    2 * two_127()
}

/// One step of Mersenne reduction: what lies above bit 127 of `n` is added
/// back onto the low 127 bits.
pub open spec fn fold(n: nat) -> nat {
    (n % two_127()) + (n / two_127())
}

/// The canonical representative in `0..P` of a stored value in `0..=P`.
pub open spec fn canonical(x: nat) -> nat {
    if x == P {
        0
    } else {
        x
    }
}

/// The integer held by a double-width word pair.
pub open spec fn pair_value(high: u128, low: u128) -> nat {
    high as nat * two_128() + low as nat
}

/// Folding leaves the residue modulo `P` as it was.
pub proof fn lemma_fold_congruent(n: nat)
    ensures
        fold(n) % (P as nat) == n % (P as nat),
{
    let q = n / two_127();
    let r = n % two_127();
    assert(n == two_127() * q + r) by {
        lemma_fundamental_div_mod(n as int, two_127() as int);
    }
    assert(two_127() * q == (P as nat) * q + q) by (nonlinear_arith)
        requires
            two_127() == P + 1,
    ;
    lemma_mod_multiples_vanish(q as int, (q + r) as int, P as int);
}

/// On stored values, the canonical representative is the residue modulo `P`.
pub proof fn lemma_canonical_is_residue(x: nat)
    requires
        x <= P,
    ensures
        canonical(x) == x % (P as nat),
        canonical(x) < P,
{
    if x < P {
        lemma_small_mod(x, P as nat);
    }
}

/// One fold brings a sum of two stored values back into `0..=P`.
pub proof fn lemma_fold_sum_bound(n: nat)
    requires
        n <= 2 * P,
    ensures
        fold(n) <= P,
{
}

/// Two folds bring a product of two stored values back into `0..=P`, and
/// the first of them fits in 128 bits.
pub proof fn lemma_fold_product_bound(n: nat)
    requires
        n <= P * P,
    ensures
        fold(n) <= 2 * P - 1,
        fold(fold(n)) <= P,
{
    // The quotient of the first fold cannot reach `P`.
    assert(P * P == two_127() * (two_127() - 2) + 1);
    assert(n / two_127() <= two_127() - 2);
}

/// A fold of a word pair in terms of its two words.
pub proof fn lemma_fold_pair(high: u128, low: u128)
    ensures
        fold(pair_value(high, low)) == (low as nat % two_127()) + 2 * high + (low as nat
            / two_127()),
{
    let t = two_127() as int;
    assert(pair_value(high, low) == t * (2 * high) + low) by (nonlinear_arith)
        requires
            pair_value(high, low) == high * two_128() + low,
            two_128() == 2 * t,
    ;
    lemma_mod_multiples_vanish(2 * high, low as int, t);
    lemma_hoist_over_denominator(low as int, 2 * high, t as nat);
}

/// The schoolbook product of two 128-bit values from their 64-bit limbs:
/// with the cross terms summed into `mid = mid_high * 2^64 + mid_low` and the
/// low word formed with a carry, the pair `(high, low)` holds `x * y`.
pub proof fn lemma_limb_product(
    x: nat,
    y: nat,
    xh: nat,
    xl: nat,
    yh: nat,
    yl: nat,
    mid_high: nat,
    mid_low: nat,
    carry: nat,
    high: nat,
    low: nat,
)
    requires
        x == xh * two_64() + xl,
        y == yh * two_64() + yl,
        xh * yl + yh * xl == mid_high * two_64() + mid_low,
        xl * yl + mid_low * two_64() == low + carry * two_128(),
        high == xh * yh + mid_high + carry,
    ensures
        x * y == high * two_128() + low,
{
    let b = two_64();
    assert(x * y == (xh * yh) * (b * b) + (xh * yl + yh * xl) * b + xl * yl) by (nonlinear_arith)
        requires
            x == xh * b + xl,
            y == yh * b + yl,
    ;
    assert((mid_high * b + mid_low) * b == mid_high * (b * b) + mid_low * b)
        by (nonlinear_arith);
    assert(high * (b * b) == (xh * yh) * (b * b) + mid_high * (b * b) + carry * (b * b))
        by (nonlinear_arith)
        requires
            high == xh * yh + mid_high + carry,
    ;
}

} // verus!
