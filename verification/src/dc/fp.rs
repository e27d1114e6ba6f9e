//! The prime field of order 2^127 - 1.

use super::mersenne::{
    canonical, fold, lemma_canonical_is_residue, lemma_fold_congruent, lemma_fold_pair,
    lemma_fold_product_bound, lemma_fold_sum_bound, lemma_limb_product, pair_value, two_127,
    two_128, two_64, P,
};
use super::{gen_u128, Randomize};
use rand::rngs::StdRng;
use std::cmp::Ordering;
use std::ops::{Add, AddAssign, Mul, MulAssign, Neg, Sub, SubAssign};
use vstd::arithmetic::div_mod::{
    lemma_add_mod_noop, lemma_add_mod_noop_right, lemma_fundamental_div_mod,
    lemma_mod_multiples_vanish, lemma_mul_mod_noop_general, lemma_small_mod,
};
use vstd::prelude::*;

verus! {

/// An element of the field of integers modulo `P`.
///
/// The stored representative lies in `0..=P`, so zero has two
/// representations, `0` and `P`. Keeping both is what lets a single fold
/// finish an addition. Whatever depends on the value of an element (equality,
/// order, the wire encoding) goes through the view, which sends both to `0`.
#[derive(Clone, Copy, Debug)]
pub struct Fp(u128);

impl View for Fp {
    type V = nat;

    /// The integer in `0..P` that the element denotes.
    open spec fn view(&self) -> nat {
        canonical(self.raw() as nat)
    }
}

impl Fp {
    /// The stored representative.
    pub closed spec fn raw(self) -> u128 {
        self.0
    }

    /// The element whose stored representative is `x`.
    pub closed spec fn of_raw(x: u128) -> Fp {
        Fp(x)
    }

    /// The stored representative does not exceed the modulus.
    #[verifier::type_invariant]
    pub open spec fn wf(self) -> bool {
        self.raw() <= P
    }

    /// The additive inverse: `P` minus the representative.
    pub open spec fn spec_neg(self) -> Fp {
        Fp::of_raw((P - self.raw()) as u128)
    }

    /// The sum: one fold of the sum of the representatives.
    pub open spec fn spec_add(self, rhs: Fp) -> Fp {
        Fp::of_raw(fold(self.raw() as nat + rhs.raw() as nat) as u128)
    }

    /// The difference: the sum with the additive inverse of `rhs`.
    pub open spec fn spec_sub(self, rhs: Fp) -> Fp {
        self.spec_add(rhs.spec_neg())
    }

    /// The product: two folds of the product of the representatives.
    pub open spec fn spec_mul(self, rhs: Fp) -> Fp {
        Fp::of_raw(fold(fold(self.raw() as nat * rhs.raw() as nat)) as u128)
    }

    /// The order of two elements: that of the integers they denote.
    pub open spec fn compare_spec(self, other: Fp) -> Ordering {
        if self@ < other@ {
            Ordering::Less
        } else if self@ > other@ {
            Ordering::Greater
        } else {
            Ordering::Equal
        }
    }

    /// An element is known by its stored representative.
    pub proof fn lemma_raw(x: u128, a: Fp)
        ensures
            Fp::of_raw(x).raw() == x,
            Fp::of_raw(a.raw()) == a,
    {
    }

    /// Negation stays in range and negates the value modulo `P`.
    pub proof fn lemma_neg(a: Fp)
        requires
            a.wf(),
        ensures
            a.spec_neg().wf(),
            a.spec_neg().raw() == P - a.raw(),
            a.spec_neg()@ == (P - a@) % (P as int),
    {
        let x = a.raw() as nat;
        lemma_canonical_is_residue(x);
        lemma_canonical_is_residue((P - x) as nat);
        if 0 < x < P {
            lemma_small_mod((P - x) as nat, P as nat);
        }
    }

    /// Addition stays in range and adds the values modulo `P`.
    pub proof fn lemma_add(a: Fp, b: Fp)
        requires
            a.wf(),
            b.wf(),
        ensures
            a.spec_add(b).wf(),
            a.spec_add(b).raw() == fold(a.raw() as nat + b.raw() as nat),
            a.spec_add(b)@ == (a@ + b@) % (P as nat),
    {
        let x = a.raw() as nat;
        let y = b.raw() as nat;
        lemma_fold_sum_bound(x + y);
        lemma_fold_congruent(x + y);
        lemma_canonical_is_residue(x);
        lemma_canonical_is_residue(y);
        lemma_canonical_is_residue(fold(x + y));
        lemma_add_mod_noop(x as int, y as int, P as int);
    }

    /// Subtraction stays in range and subtracts the values modulo `P`.
    pub proof fn lemma_sub(a: Fp, b: Fp)
        requires
            a.wf(),
            b.wf(),
        ensures
            a.spec_sub(b).wf(),
            a.spec_sub(b)@ == (a@ - b@) % (P as int),
    {
        let p = P as int;
        Fp::lemma_neg(b);
        Fp::lemma_add(a, b.spec_neg());
        lemma_add_mod_noop_right(a@ as int, p - b@, p);
        lemma_mod_multiples_vanish(1, a@ - b@, p);
    }

    /// Multiplication stays in range and multiplies the values modulo `P`.
    pub proof fn lemma_mul(a: Fp, b: Fp)
        requires
            a.wf(),
            b.wf(),
        ensures
            a.spec_mul(b).wf(),
            a.spec_mul(b).raw() == fold(fold(a.raw() as nat * b.raw() as nat)),
            a.spec_mul(b)@ == (a@ * b@) % (P as nat),
    {
        let x = a.raw() as nat;
        let y = b.raw() as nat;
        assert(x * y <= P * P) by (nonlinear_arith)
            requires
                x <= P,
                y <= P,
        ;
        lemma_fold_product_bound(x * y);
        lemma_fold_congruent(x * y);
        lemma_fold_congruent(fold(x * y));
        lemma_canonical_is_residue(x);
        lemma_canonical_is_residue(y);
        lemma_canonical_is_residue(fold(fold(x * y)));
        lemma_mul_mod_noop_general(x as int, y as int, P as int);
    }

    /// Negating twice gives the element back, representative and all.
    pub proof fn lemma_neg_involution(a: Fp)
        requires
            a.wf(),
        ensures
            a.spec_neg().spec_neg() == a,
    {
    }

    /// An element and its negation add up to zero.
    pub proof fn lemma_add_neg_is_zero(a: Fp)
        requires
            a.wf(),
        ensures
            a.spec_add(a.spec_neg())@ == 0,
    {
    }

    /// An element minus itself is zero.
    pub proof fn lemma_sub_self_is_zero(a: Fp)
        requires
            a.wf(),
        ensures
            a.spec_sub(a)@ == 0,
    {
    }

    /// The modulus, taken as a representative, is zero: its product with
    /// any element is zero, on either side.
    pub proof fn lemma_mul_by_modulus(x: Fp)
        requires
            x.wf(),
        ensures
            Fp::of_raw(P).spec_mul(x)@ == 0,
            x.spec_mul(Fp::of_raw(P))@ == 0,
    {
        Fp::lemma_mul(Fp::of_raw(P), x);
        Fp::lemma_mul(x, Fp::of_raw(P));
        assert(0 * x@ == 0 && x@ * 0 == 0) by (nonlinear_arith);
    }
}

/// Splits a 128-bit word into its high and low 64-bit limbs.
pub fn as_limbs(x: u128) -> (limbs: (u64, u64))
    ensures
        limbs.0 == x as nat / two_64(),
        limbs.1 == x as nat % two_64(),
        x == limbs.0 * two_64() + limbs.1,
{
    assert((x >> 64) <= 0xffff_ffff_ffff_ffffu128 && (x >> 64) == x / 0x1_0000_0000_0000_0000u128)
        by (bit_vector);
    assert((x as u64) == x % 0x1_0000_0000_0000_0000u128) by (bit_vector);
    proof {
        lemma_fundamental_div_mod(x as int, two_64() as int);
    }
    ((x >> 64) as u64, #[verifier::truncate] (x as u64))
}

/// Adds two words modulo 2^128 and tells whether the true sum did not fit.
fn overflowing_add(a: u128, b: u128) -> (r: (u128, bool))
    ensures
        r.0 + (if r.1 {
            two_128()
        } else {
            0
        }) == a + b,
{
    let sum = a.wrapping_add(b);
    (sum, sum < a)
}

/// A value that one Mersenne fold turns into a single word.
trait Reduce: Sized {
    /// The integer that the value holds.
    spec fn value(self) -> nat;

    /// One fold: the bits from 127 upwards are added onto the low 127 bits.
    fn reduce_once(self) -> (r: u128)
        requires
            fold(self.value()) <= u128::MAX,
        ensures
            r == fold(self.value()),
    ;

    /// One fold that is known to land in `0..=P`.
    fn reduce_once_assert(self) -> (r: u128)
        requires
            fold(self.value()) <= P,
        ensures
            r == fold(self.value()),
            r <= P,
    {
        let red: u128 = self.reduce_once();
        red
    }
}

impl Reduce for u128 {
    spec fn value(self) -> nat {
        self as nat
    }

    fn reduce_once(self) -> (r: u128) {
        assert((self & P) == self % 0x8000_0000_0000_0000_0000_0000_0000_0000u128 && (self >> 127)
            == self / 0x8000_0000_0000_0000_0000_0000_0000_0000u128) by (bit_vector)
            requires
                P == 0x7fff_ffff_ffff_ffff_ffff_ffff_ffff_ffffu128,
        ;
        (self & P) + (self >> 127)
    }
}

impl Reduce for (u128, u128) {
    spec fn value(self) -> nat {
        pair_value(self.0, self.1)
    }

    fn reduce_once(self) -> (r: u128) {
        let (h, l) = self;
        proof {
            lemma_fold_pair(h, l);
        }
        assert((l & P) == l % 0x8000_0000_0000_0000_0000_0000_0000_0000u128 && (l >> 127) == l
            / 0x8000_0000_0000_0000_0000_0000_0000_0000u128) by (bit_vector)
            requires
                P == 0x7fff_ffff_ffff_ffff_ffff_ffff_ffff_ffffu128,
        ;
        assert(((h << 1) | (l >> 127)) == 2 * h + (l >> 127)) by (bit_vector)
            requires
                h < 0x8000_0000_0000_0000_0000_0000_0000_0000u128,
        ;
        // shift = (h, l) >> 127
        let shift = (h << 1) | (l >> 127);
        (l & P) + shift
    }
}

impl Fp {
    /// The element with the given representative. `x == P` is allowed and
    /// denotes zero.
    pub fn from_u127(x: u128) -> (r: Fp)
        requires
            x <= P,
        ensures
            r == Fp::of_raw(x),
            r.raw() == x,
    {
        Fp(x)
    }

    /// The element whose representative is the low 127 bits of `x`.
    ///
    /// For uniform `x` every nonzero element comes out with probability
    /// 2^-127 and zero with probability 2^-126, since both `0` and `P`
    /// denote it.
    pub fn from_u128_discard_msb(x: u128) -> (r: Fp)
        ensures
            r == Fp::of_raw((x as nat % two_127()) as u128),
            r.raw() == x as nat % two_127(),
    {
        assert((x & P) == x % 0x8000_0000_0000_0000_0000_0000_0000_0000u128 && (x & P) <= P)
            by (bit_vector)
            requires
                P == 0x7fff_ffff_ffff_ffff_ffff_ffff_ffff_ffffu128,
        ;
        Self::from_u127(x & P)
    }

    /// The order of the field.
    pub fn prime() -> (p: u128)
        ensures
            p == P,
    {
        P
    }

    /// An element drawn from `rng`: the low 127 bits of a uniform 128-bit
    /// integer. Whatever is drawn, the element is in range.
    pub fn sample(rng: &mut StdRng) -> (r: Fp)
        ensures
            r.wf(),
    {
        Fp::from_u128_discard_msb(gen_u128(rng))
    }

    /// The order of `self` and `other` by the integers they denote.
    pub fn cmp(&self, other: &Fp) -> (r: Ordering)
        ensures
            r == self.compare_spec(*other),
    {
        self.partial_cmp(other).unwrap()
    }
}

impl Default for Fp {
    /// Zero, stored as `0`.
    fn default() -> (r: Fp)
        ensures
            r == Fp::of_raw(0),
            r.raw() == 0,
    {
        Fp(0)
    }
}

impl vstd::std_specs::convert::FromSpecImpl<Fp> for u128 {
    open spec fn obeys_from_spec() -> bool {
        true
    }

    open spec fn from_spec(x: Fp) -> u128 {
        x@ as u128
    }
}

impl From<Fp> for u128 {
    /// The canonical integer of the element, in `0..P`.
    fn from(x: Fp) -> (r: u128)
        ensures
            r == x@,
            r < P,
    {
        proof {
            use_type_invariant(&x);
        }
        if x.0 == P {
            0
        } else {
            x.0
        }
    }
}

impl Randomize for Fp {
    open spec fn same_shape(&self, other: &Fp) -> bool {
        true
    }

    fn randomize(&mut self, rng: &mut StdRng)
        ensures
            final(self).wf(),
    {
        *self = Fp::sample(rng);
    }
}

impl vstd::std_specs::ops::NegSpecImpl for Fp {
    open spec fn obeys_neg_spec() -> bool {
        true
    }

    open spec fn neg_req(self) -> bool {
        true
    }

    open spec fn neg_spec(self) -> Fp {
        self.spec_neg()
    }
}

impl Neg for Fp {
    type Output = Fp;

    fn neg(self) -> (r: Fp)
        ensures
            r == self.spec_neg(),
            r.raw() == P - self.raw(),
            r@ == (P - self@) % (P as int),
    {
        proof {
            use_type_invariant(&self);
            Fp::lemma_neg(self);
        }
        Fp(P - self.0)
    }
}

impl vstd::std_specs::ops::AddSpecImpl for Fp {
    open spec fn obeys_add_spec() -> bool {
        true
    }

    open spec fn add_req(self, rhs: Fp) -> bool {
        true
    }

    open spec fn add_spec(self, rhs: Fp) -> Fp {
        self.spec_add(rhs)
    }
}

impl Add for Fp {
    type Output = Fp;

    fn add(self, other: Fp) -> (r: Fp)
        ensures
            r == self.spec_add(other),
            r.raw() == fold(self.raw() as nat + other.raw() as nat),
            r@ == (self@ + other@) % (P as nat),
    {
        proof {
            use_type_invariant(&self);
            use_type_invariant(&other);
            Fp::lemma_add(self, other);
        }
        Fp((self.0 + other.0).reduce_once_assert())
    }
}

impl AddAssign for Fp {
    fn add_assign(&mut self, other: Fp)
        ensures
            *final(self) == old(self).spec_add(other),
            final(self)@ == (old(self)@ + other@) % (P as nat),
    {
        *self = *self + other
    }
}

impl vstd::std_specs::ops::SubSpecImpl for Fp {
    open spec fn obeys_sub_spec() -> bool {
        true
    }

    open spec fn sub_req(self, rhs: Fp) -> bool {
        true
    }

    open spec fn sub_spec(self, rhs: Fp) -> Fp {
        self.spec_sub(rhs)
    }
}

impl Sub for Fp {
    type Output = Fp;

    fn sub(self, other: Fp) -> (r: Fp)
        ensures
            r == self.spec_sub(other),
            r.raw() == fold(self.raw() as nat + (P - other.raw()) as nat),
            r@ == (self@ - other@) % (P as int),
    {
        proof {
            use_type_invariant(&self);
            use_type_invariant(&other);
            Fp::lemma_sub(self, other);
        }
        self + other.neg()
    }
}

impl SubAssign for Fp {
    fn sub_assign(&mut self, other: Fp)
        ensures
            *final(self) == old(self).spec_sub(other),
            final(self)@ == (old(self)@ - other@) % (P as int),
    {
        *self = *self - other
    }
}

impl vstd::std_specs::ops::MulSpecImpl for Fp {
    open spec fn obeys_mul_spec() -> bool {
        true
    }

    open spec fn mul_req(self, rhs: Fp) -> bool {
        true
    }

    open spec fn mul_spec(self, rhs: Fp) -> Fp {
        self.spec_mul(rhs)
    }
}

impl Mul for Fp {
    type Output = Fp;

    /// The product, from 64-bit limbs: the four partial products are summed
    /// into a 256-bit pair of words, which is folded twice.
    fn mul(self, other: Fp) -> (r: Fp)
        ensures
            r == self.spec_mul(other),
            r.raw() == fold(fold(self.raw() as nat * other.raw() as nat)),
            r@ == (self@ * other@) % (P as nat),
    {
        proof {
            use_type_invariant(&self);
            use_type_invariant(&other);
            Fp::lemma_mul(self, other);
        }
        let (sh, sl) = as_limbs(self.0);
        let (oh, ol) = as_limbs(other.0);

        // (64 bits * 63 bits) + (64 bits * 63 bits) = 128 bits
        assert(sh * ol <= 0x7fff_ffff_ffff_ffff * 0xffff_ffff_ffff_ffff) by (nonlinear_arith)
            requires
                sh <= 0x7fff_ffff_ffff_ffff,
                ol <= 0xffff_ffff_ffff_ffff,
        ;
        assert(oh * sl <= 0x7fff_ffff_ffff_ffff * 0xffff_ffff_ffff_ffff) by (nonlinear_arith)
            requires
                oh <= 0x7fff_ffff_ffff_ffff,
                sl <= 0xffff_ffff_ffff_ffff,
        ;
        let m: u128 = (sh as u128 * ol as u128) + (oh as u128 * sl as u128);
        let (mh, ml) = as_limbs(m);

        // (64 bits * 64 bits) + 128 bits = 129 bits
        assert(sl * ol <= 0xffff_ffff_ffff_ffff * 0xffff_ffff_ffff_ffff) by (nonlinear_arith)
            requires
                sl <= 0xffff_ffff_ffff_ffff,
                ol <= 0xffff_ffff_ffff_ffff,
        ;
        assert((ml as u128) << 64 == ml * 0x1_0000_0000_0000_0000) by (bit_vector);
        let (rl, carry) = overflowing_add(sl as u128 * ol as u128, (ml as u128) << 64);

        // (63 bits * 63 bits) + 64 bits + 1 bit = 127 bits
        assert(sh * oh <= 0x7fff_ffff_ffff_ffff * 0x7fff_ffff_ffff_ffff) by (nonlinear_arith)
            requires
                sh <= 0x7fff_ffff_ffff_ffff,
                oh <= 0x7fff_ffff_ffff_ffff,
        ;
        let c: u128 = if carry {
            1
        } else {
            0
        };
        let rh: u128 = (sh as u128 * oh as u128) + (mh as u128) + c;

        proof {
            lemma_limb_product(
                self.0 as nat,
                other.0 as nat,
                sh as nat,
                sl as nat,
                oh as nat,
                ol as nat,
                mh as nat,
                ml as nat,
                c as nat,
                rh as nat,
                rl as nat,
            );
            assert(self.0 * other.0 <= P * P) by (nonlinear_arith)
                requires
                    self.0 <= P,
                    other.0 <= P,
            ;
            lemma_fold_product_bound(self.0 as nat * other.0 as nat);
        }
        Fp((rh, rl).reduce_once().reduce_once_assert())
    }
}

impl MulAssign for Fp {
    fn mul_assign(&mut self, other: Fp)
        ensures
            *final(self) == old(self).spec_mul(other),
            final(self)@ == (old(self)@ * other@) % (P as nat),
    {
        *self = *self * other
    }
}

impl vstd::std_specs::cmp::PartialEqSpecImpl for Fp {
    open spec fn obeys_eq_spec() -> bool {
        true
    }

    open spec fn eq_spec(&self, other: &Fp) -> bool {
        self@ == other@
    }
}

impl PartialEq for Fp {
    /// Elements are equal when they denote the same integer.
    fn eq(&self, other: &Fp) -> (r: bool)
        ensures
            r == (self@ == other@),
    {
        u128::from(*self) == u128::from(*other)
    }
}

impl Eq for Fp {

}

impl vstd::std_specs::cmp::PartialOrdSpecImpl for Fp {
    open spec fn obeys_partial_cmp_spec() -> bool {
        true
    }

    open spec fn partial_cmp_spec(&self, other: &Fp) -> Option<Ordering> {
        Some(self.compare_spec(*other))
    }
}

impl PartialOrd for Fp {
    /// Elements are ordered by the integers they denote.
    fn partial_cmp(&self, other: &Fp) -> (r: Option<Ordering>)
        ensures
            r == Some(self.compare_spec(*other)),
    {
        u128::from(*self).partial_cmp(&u128::from(*other))
    }
}

} // verus!
