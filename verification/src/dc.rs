//! The algebraic domains and what they share.

pub mod fp;
pub mod hex;
pub mod mersenne;
pub mod wire;
pub mod xor;

use rand::rngs::StdRng;
use rand::Rng;
use vstd::prelude::*;

verus! {

/// The standard generator of the `rand` crate. Its state is not modelled.
#[verifier::external_type_specification]
#[verifier::external_body]
pub struct ExStdRng(StdRng);

/// A value that can be overwritten in place with a fresh sample of its domain.
pub trait Randomize: Sized {
    /// What a value keeps when it is sampled afresh: nothing for a scalar,
    /// the lengths at every level of nesting for a sequence.
    spec fn same_shape(&self, other: &Self) -> bool;

    /// Overwrites `self` with a sample drawn from `rng`.
    fn randomize(&mut self, rng: &mut StdRng)
        ensures
            final(self).same_shape(old(self)),
    ;
}

/// Draws 128 bits with `rand::Rng::gen`. Every value of the type can come
/// back, so nothing is claimed of the result.
#[verifier::external_body]
pub(crate) fn gen_u128(rng: &mut StdRng) -> (x: u128) {
    rng.gen::<u128>()
}

/// Draws one byte with `rand::Rng::gen`. Every value of the type can come
/// back, so nothing is claimed of the result.
#[verifier::external_body]
pub(crate) fn gen_u8(rng: &mut StdRng) -> (x: u8) {
    rng.gen::<u8>()
}

} // verus!
