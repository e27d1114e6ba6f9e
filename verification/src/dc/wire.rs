//! The wire encoding of field elements.
//!
//! An element travels as its canonical integer, a `u128` below `P`. Since
//! `P` itself is left out, every element has one encoding.

use super::fp::Fp;
use super::hex::{hex_digits, lower_hex};
use super::mersenne::P;
use vstd::prelude::*;
use vstd::string::StringExecFns;

verus! {

/// A wire integer that encodes no element: it is `P` or more.
#[derive(Clone, Copy, Debug, PartialEq, Eq, Structural)]
pub struct OutOfRange {
    /// The integer that was refused.
    pub value: u128,
}

impl OutOfRange {
    /// What was found: the refused integer, in hexadecimal, and the bound
    /// that it reaches.
    pub fn unexpected(&self) -> (s: String)
        ensures
            s@ == "the u128 with value "@ + hex_digits(self.value as nat) + " >= 2**127 - 1"@,
    {
        let mut s = String::from_str("the u128 with value ");
        s.append(lower_hex(self.value).as_str());
        s.append(" >= 2**127 - 1");
        s
    }

    /// What is accepted.
    pub fn expecting() -> (s: &'static str)
        ensures
            s@ == "a u128 x such that 0 <= x < p where p = 2**127 - 1"@,
    {
        "a u128 x such that 0 <= x < p where p = 2**127 - 1"
    }
}

impl Fp {
    /// The wire encoding of an element: its canonical integer.
    pub open spec fn spec_serialize(self) -> u128 {
        self@ as u128
    }

    /// The element that a wire integer encodes, if it is canonical.
    pub open spec fn spec_deserialize(x: u128) -> Result<Fp, OutOfRange> {
        if x >= P {
            Err(OutOfRange { value: x })
        } else {
            Ok(Fp::of_raw(x))
        }
    }

    /// Encodes the element for the wire.
    pub fn serialize(&self) -> (x: u128)
        ensures
            x == self.spec_serialize(),
            x == self@,
            x < P,
    {
        u128::from(*self)
    }

    /// Decodes a wire integer. Only the canonical integers `0..P` are
    /// accepted: `P` itself would be a second encoding of zero.
    pub fn deserialize(x: u128) -> (r: Result<Fp, OutOfRange>)
        ensures
            r == Fp::spec_deserialize(x),
            x < P ==> r is Ok && r->Ok_0.raw() == x,
            x >= P ==> r is Err && r->Err_0.value == x,
    {
        if x >= P {
            return Err(OutOfRange { value: x });
        }
        Ok(Fp::from_u127(x))
    }

    /// A canonical integer survives decoding and encoding; any other
    /// integer is refused, and the refusal carries it.
    pub proof fn lemma_wire_round_trip(x: u128)
        ensures
            x < P ==> Fp::spec_deserialize(x) is Ok && Fp::spec_deserialize(x)->Ok_0.wf()
                && Fp::spec_deserialize(x)->Ok_0.spec_serialize() == x,
            x >= P ==> Fp::spec_deserialize(x) is Err && Fp::spec_deserialize(x)->Err_0.value
                == x,
    {
        Fp::lemma_raw(x, Fp::of_raw(x));
    }

    /// An element survives encoding and decoding, up to the choice of
    /// representative for zero.
    pub proof fn lemma_value_round_trip(a: Fp)
        requires
            a.wf(),
        ensures
            Fp::spec_deserialize(a.spec_serialize()) is Ok,
            Fp::spec_deserialize(a.spec_serialize())->Ok_0@ == a@,
    {
        Fp::lemma_raw(a.spec_serialize(), a);
    }
}

} // verus!
