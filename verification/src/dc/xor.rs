//! The element-wise XOR group over sequences.

use super::{gen_u8, Randomize};
use rand::rngs::StdRng;
use std::ops::{Add, AddAssign, BitXor, BitXorAssign, Neg, Sub, SubAssign};
use vstd::prelude::*;

verus! {

/// A fixed-length sequence combined position by position with XOR.
///
/// Two elements can be combined only when their lengths agree. Every
/// element is its own inverse, so addition and subtraction are both XOR and
/// negation is the identity.
pub struct DcXorElem<T>(Vec<T>);

/// A message: a sequence of bytes.
pub type DcXorMsg = DcXorElem<u8>;

/// A batch of messages, one per slot.
pub type DcXorMsgVec = DcXorElem<DcXorMsg>;

impl<T> View for DcXorElem<T> {
    type V = Seq<T>;

    closed spec fn view(&self) -> Seq<T> {
        self.0@
    }
}

/// Whether `a` and `b` can be combined: they have one length, and XOR is
/// defined on each pair of items at the same position.
pub open spec fn xor_defined<T: BitXor<Output = T>>(a: Seq<T>, b: Seq<T>) -> bool {
    &&& a.len() == b.len()
    &&& forall|i: int|
        0 <= i < a.len() ==> call_requires(<T as BitXor>::bitxor, (#[trigger] a[i], b[i]))
}

/// Whether `r` is a position-by-position XOR of `a` and `b`: it has their
/// length, and each of its items is what XOR of the item type gives on the
/// two items at that position. For bytes that is `r[i] == a[i] ^ b[i]`
/// (`lemma_msg_xor`); for messages it is this same relation one level down
/// (`lemma_batch_xor`).
pub open spec fn is_xor<T: BitXor<Output = T>>(a: Seq<T>, b: Seq<T>, r: Seq<T>) -> bool {
    &&& r.len() == a.len()
    &&& forall|i: int|
        0 <= i < r.len() ==> call_ensures(<T as BitXor>::bitxor, (a[i], b[i]), #[trigger] r[i])
}

impl<T> DcXorElem<T> {
    /// Wraps a sequence of items.
    pub fn new(items: Vec<T>) -> (r: Self)
        ensures
            r@ == items@,
    {
        DcXorElem(items)
    }

    /// The number of items.
    pub fn len(&self) -> (n: usize)
        ensures
            n == self@.len(),
    {
        self.0.len()
    }

    /// Hands the items back.
    pub fn into_vec(self) -> (items: Vec<T>)
        ensures
            items@ == self@,
    {
        self.0
    }
}

/// Combines two vectors of one length position by position.
fn xor_vecs<T: BitXor<Output = T>>(a: Vec<T>, b: Vec<T>) -> (r: Vec<T>)
    requires
        xor_defined(a@, b@),
    ensures
        is_xor(a@, b@, r@),
{
    let ghost a0 = a@;
    let ghost b0 = b@;
    let ghost n = a0.len() as int;
    let mut a = a;
    let mut b = b;
    // The items can only be moved out from the back, so the results come out
    // in reverse and are turned round afterwards.
    let mut rev: Vec<T> = Vec::new();
    while a.len() > 0
        invariant
            n == a0.len(),
            xor_defined(a0, b0),
            a@.len() <= n,
            a@ == a0.subrange(0, a@.len() as int),
            b@ == b0.subrange(0, a@.len() as int),
            rev@.len() == n - a@.len(),
            forall|j: int|
                0 <= j < rev@.len() ==> call_ensures(
                    <T as BitXor>::bitxor,
                    (a0[n - 1 - j], b0[n - 1 - j]),
                    #[trigger] rev@[j],
                ),
        decreases a@.len(),
    {
        let x = a.pop().unwrap();
        let y = b.pop().unwrap();
        rev.push(x ^ y);
    }
    let ghost rev0 = rev@;
    let mut out: Vec<T> = Vec::new();
    while rev.len() > 0
        invariant
            rev0.len() == n,
            rev@ == rev0.subrange(0, rev@.len() as int),
            out@.len() == n - rev@.len(),
            forall|j: int| 0 <= j < out@.len() ==> #[trigger] out@[j] == rev0[n - 1 - j],
        decreases rev@.len(),
    {
        let x = rev.pop().unwrap();
        out.push(x);
    }
    out
}

impl<T: BitXor<Output = T>> vstd::std_specs::ops::BitXorSpecImpl for DcXorElem<T> {
    /// The result is fixed by its items only, not as a value, so the
    /// functional form of the operator's contract is not claimed; `is_xor`
    /// states the result.
    open spec fn obeys_bitxor_spec() -> bool {
        false
    }

    open spec fn bitxor_req(self, rhs: Self) -> bool {
        xor_defined(self@, rhs@)
    }

    open spec fn bitxor_spec(self, rhs: Self) -> Self {
        choose|r: Self| is_xor(self@, rhs@, r@)
    }
}

impl<T: BitXor<Output = T>> BitXor for DcXorElem<T> {
    type Output = Self;

    fn bitxor(self, rhs: Self) -> (r: Self)
        ensures
            is_xor(self@, rhs@, r@),
    {
        DcXorElem(xor_vecs(self.0, rhs.0))
    }
}

impl<T: BitXor<Output = T>> BitXorAssign for DcXorElem<T> {
    fn bitxor_assign(&mut self, rhs: Self)
        requires
            xor_defined(old(self)@, rhs@),
        ensures
            is_xor(old(self)@, rhs@, final(self)@),
    {
        let mut lhs: Vec<T> = Vec::new();
        std::mem::swap(&mut self.0, &mut lhs);
        self.0 = xor_vecs(lhs, rhs.0);
    }
}

impl<T: BitXor<Output = T>> vstd::std_specs::ops::AddSpecImpl for DcXorElem<T> {
    /// Not claimed, for the reason given at `obeys_bitxor_spec`.
    open spec fn obeys_add_spec() -> bool {
        false
    }

    open spec fn add_req(self, rhs: Self) -> bool {
        xor_defined(self@, rhs@)
    }

    open spec fn add_spec(self, rhs: Self) -> Self {
        choose|r: Self| is_xor(self@, rhs@, r@)
    }
}

impl<T: BitXor<Output = T>> Add for DcXorElem<T> {
    type Output = Self;

    /// Addition in the group is XOR.
    fn add(self, rhs: Self) -> (r: Self)
        ensures
            is_xor(self@, rhs@, r@),
    {
        Self::bitxor(self, rhs)
    }
}

impl<T: BitXor<Output = T>> AddAssign for DcXorElem<T> {
    fn add_assign(&mut self, rhs: Self)
        requires
            xor_defined(old(self)@, rhs@),
        ensures
            is_xor(old(self)@, rhs@, final(self)@),
    {
        Self::bitxor_assign(self, rhs)
    }
}

impl<T: BitXor<Output = T>> vstd::std_specs::ops::SubSpecImpl for DcXorElem<T> {
    /// Not claimed, for the reason given at `obeys_bitxor_spec`.
    open spec fn obeys_sub_spec() -> bool {
        false
    }

    open spec fn sub_req(self, rhs: Self) -> bool {
        xor_defined(self@, rhs@)
    }

    open spec fn sub_spec(self, rhs: Self) -> Self {
        choose|r: Self| is_xor(self@, rhs@, r@)
    }
}

impl<T: BitXor<Output = T>> Sub for DcXorElem<T> {
    type Output = Self;

    /// Subtraction in the group is XOR too.
    fn sub(self, rhs: Self) -> (r: Self)
        ensures
            is_xor(self@, rhs@, r@),
    {
        Self::bitxor(self, rhs)
    }
}

impl<T: BitXor<Output = T>> SubAssign for DcXorElem<T> {
    fn sub_assign(&mut self, rhs: Self)
        requires
            xor_defined(old(self)@, rhs@),
        ensures
            is_xor(old(self)@, rhs@, final(self)@),
    {
        Self::bitxor_assign(self, rhs)
    }
}

impl<T> vstd::std_specs::ops::NegSpecImpl for DcXorElem<T> {
    open spec fn obeys_neg_spec() -> bool {
        true
    }

    open spec fn neg_req(self) -> bool {
        true
    }

    open spec fn neg_spec(self) -> Self {
        self
    }
}

impl<T> Neg for DcXorElem<T> {
    type Output = Self;

    /// Every element is its own inverse.
    fn neg(self) -> (r: Self)
        ensures
            r == self,
    {
        self
    }
}

impl Randomize for u8 {
    open spec fn same_shape(&self, other: &u8) -> bool {
        true
    }

    fn randomize(&mut self, rng: &mut StdRng) {
        *self = gen_u8(rng);
    }
}

impl<T: Randomize> Randomize for Vec<T> {
    open spec fn same_shape(&self, other: &Vec<T>) -> bool {
        &&& self@.len() == other@.len()
        &&& forall|i: int| 0 <= i < self@.len() ==> (#[trigger] self@[i]).same_shape(&other@[i])
    }

    fn randomize(&mut self, rng: &mut StdRng) {
        let n = self.len();
        let mut i: usize = 0;
        while i < n
            invariant
                i <= n,
                self@.len() == n,
                old(self)@.len() == n,
                forall|j: int| 0 <= j < i ==> (#[trigger] self@[j]).same_shape(&old(self)@[j]),
                forall|j: int| i <= j < n ==> #[trigger] self@[j] == old(self)@[j],
            decreases n - i,
        {
            self[i].randomize(rng);
            i += 1;
        }
    }
}

impl<T: Randomize> Randomize for DcXorElem<T> {
    open spec fn same_shape(&self, other: &DcXorElem<T>) -> bool {
        &&& self@.len() == other@.len()
        &&& forall|i: int| 0 <= i < self@.len() ==> (#[trigger] self@[i]).same_shape(&other@[i])
    }

    fn randomize(&mut self, rng: &mut StdRng) {
        self.0.randomize(rng);
    }
}

/// The XOR of two byte strings, position by position.
pub open spec fn xor_bytes(a: Seq<u8>, b: Seq<u8>) -> Seq<u8> {
    Seq::new(a.len(), |i: int| a[i] ^ b[i])
}

/// The byte strings held by a batch of messages.
pub open spec fn payloads(batch: Seq<DcXorMsg>) -> Seq<Seq<u8>> {
    Seq::new(batch.len(), |i: int| batch[i]@)
}

/// The XOR of two batches of byte strings, slot by slot.
pub open spec fn xor_payloads(a: Seq<Seq<u8>>, b: Seq<Seq<u8>>) -> Seq<Seq<u8>> {
    Seq::new(a.len(), |i: int| xor_bytes(a[i], b[i]))
}

/// Whether two batches have as many slots and, slot by slot, as many bytes.
pub open spec fn same_lengths(a: Seq<Seq<u8>>, b: Seq<Seq<u8>>) -> bool {
    &&& a.len() == b.len()
    &&& forall|i: int| 0 <= i < a.len() ==> (#[trigger] a[i]).len() == b[i].len()
}

/// Two messages of one length can be combined, and what comes out is
/// `xor_bytes` of them.
pub proof fn lemma_msg_xor(a: Seq<u8>, b: Seq<u8>, r: Seq<u8>)
    ensures
        a.len() == b.len() ==> xor_defined(a, b),
        is_xor(a, b, r) ==> r == xor_bytes(a, b),
{
    if is_xor(a, b, r) {
        assert forall|i: int| 0 <= i < r.len() implies r[i] == a[i] ^ b[i] by {
            assert(call_ensures(<u8 as BitXor>::bitxor, (a[i], b[i]), r[i]));
        }
        assert(r =~= xor_bytes(a, b));
    }
}

/// Two batches of the same lengths can be combined, and what comes out
/// holds `xor_payloads` of what they hold.
pub proof fn lemma_batch_xor(a: Seq<DcXorMsg>, b: Seq<DcXorMsg>, r: Seq<DcXorMsg>)
    ensures
        same_lengths(payloads(a), payloads(b)) ==> xor_defined(a, b),
        a.len() == b.len() && is_xor(a, b, r) ==> payloads(r) == xor_payloads(
            payloads(a),
            payloads(b),
        ),
{
    if same_lengths(payloads(a), payloads(b)) {
        assert forall|i: int| 0 <= i < a.len() implies call_requires(
            <DcXorMsg as BitXor>::bitxor,
            (#[trigger] a[i], b[i]),
        ) by {
            assert(payloads(a)[i].len() == payloads(b)[i].len());
            lemma_msg_xor(a[i]@, b[i]@, a[i]@);
        }
    }
    if a.len() == b.len() && is_xor(a, b, r) {
        assert forall|i: int| 0 <= i < r.len() implies payloads(r)[i] == xor_bytes(
            payloads(a)[i],
            payloads(b)[i],
        ) by {
            assert(call_ensures(<DcXorMsg as BitXor>::bitxor, (a[i], b[i]), r[i]));
            lemma_msg_xor(a[i]@, b[i]@, r[i]@);
        }
        assert(payloads(r) =~= xor_payloads(payloads(a), payloads(b)));
    }
}

/// A byte string XORed with itself is all zero, at the same length.
pub proof fn lemma_xor_bytes_self(a: Seq<u8>)
    ensures
        xor_bytes(a, a) == Seq::new(a.len(), |i: int| 0u8),
{
    assert forall|i: int| 0 <= i < a.len() implies a[i] ^ a[i] == 0u8 by {
        let x = a[i];
        assert(x ^ x == 0u8) by (bit_vector);
    }
    assert(xor_bytes(a, a) =~= Seq::new(a.len(), |i: int| 0u8));
}

/// XOR of byte strings of one length does not depend on their order.
pub proof fn lemma_xor_bytes_commutative(a: Seq<u8>, b: Seq<u8>)
    requires
        a.len() == b.len(),
    ensures
        xor_bytes(a, b) == xor_bytes(b, a),
{
    assert forall|i: int| 0 <= i < a.len() implies a[i] ^ b[i] == b[i] ^ a[i] by {
        let x = a[i];
        let y = b[i];
        assert(x ^ y == y ^ x) by (bit_vector);
    }
    assert(xor_bytes(a, b) =~= xor_bytes(b, a));
}

/// XOR of byte strings of one length does not depend on the grouping.
pub proof fn lemma_xor_bytes_associative(a: Seq<u8>, b: Seq<u8>, c: Seq<u8>)
    requires
        a.len() == b.len(),
        b.len() == c.len(),
    ensures
        xor_bytes(xor_bytes(a, b), c) == xor_bytes(a, xor_bytes(b, c)),
{
    assert forall|i: int| 0 <= i < a.len() implies (a[i] ^ b[i]) ^ c[i] == a[i] ^ (b[i] ^ c[i]) by {
        let x = a[i];
        let y = b[i];
        let z = c[i];
        assert((x ^ y) ^ z == x ^ (y ^ z)) by (bit_vector);
    }
    assert(xor_bytes(xor_bytes(a, b), c) =~= xor_bytes(a, xor_bytes(b, c)));
}

/// A batch XORed with itself is all zero, slot by slot at the same lengths.
pub proof fn lemma_xor_payloads_self(a: Seq<Seq<u8>>)
    ensures
        xor_payloads(a, a) == Seq::new(a.len(), |i: int| Seq::new(a[i].len(), |j: int| 0u8)),
{
    assert forall|i: int| 0 <= i < a.len() implies xor_bytes(a[i], a[i]) == Seq::new(
        a[i].len(),
        |j: int| 0u8,
    ) by {
        lemma_xor_bytes_self(a[i]);
    }
    assert(xor_payloads(a, a) =~= Seq::new(a.len(), |i: int| Seq::new(a[i].len(), |j: int| 0u8)));
}

/// XOR of batches of the same lengths does not depend on their order.
pub proof fn lemma_xor_payloads_commutative(a: Seq<Seq<u8>>, b: Seq<Seq<u8>>)
    requires
        same_lengths(a, b),
    ensures
        xor_payloads(a, b) == xor_payloads(b, a),
{
    assert forall|i: int| 0 <= i < a.len() implies xor_bytes(a[i], b[i]) == xor_bytes(
        b[i],
        a[i],
    ) by {
        lemma_xor_bytes_commutative(a[i], b[i]);
    }
    assert(xor_payloads(a, b) =~= xor_payloads(b, a));
}

/// XOR of batches of the same lengths does not depend on the grouping.
pub proof fn lemma_xor_payloads_associative(a: Seq<Seq<u8>>, b: Seq<Seq<u8>>, c: Seq<Seq<u8>>)
    requires
        same_lengths(a, b),
        same_lengths(b, c),
    ensures
        xor_payloads(xor_payloads(a, b), c) == xor_payloads(a, xor_payloads(b, c)),
{
    assert forall|i: int| 0 <= i < a.len() implies xor_bytes(xor_bytes(a[i], b[i]), c[i])
        == xor_bytes(a[i], xor_bytes(b[i], c[i])) by {
        lemma_xor_bytes_associative(a[i], b[i], c[i]);
    }
    assert(xor_payloads(xor_payloads(a, b), c) =~= xor_payloads(a, xor_payloads(b, c)));
}

} // verus!
