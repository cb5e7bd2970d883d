//! The three groups of BLS12-381 and the pairing between them.
//!
//! G1, G2 and GT are cyclic of the same prime order, each with a fixed
//! generator, and the generator of GT is the pairing of the other two. An
//! element is therefore known by the one scalar below the group order that
//! takes the generator to it, and that scalar is the element's view here.
//! What is stored is the element's canonical compressed encoding.

use vstd::prelude::*;
use ark_bls12_381::{Bls12_381, Fr, G1Affine, G1Projective, G2Affine, G2Projective};
use ark_ec::pairing::{Pairing, PairingOutput};
use ark_ec::{CurveGroup, Group};
use ark_ff::{BigInt, PrimeField};
use ark_serialize::{CanonicalDeserialize, CanonicalSerialize};
use crate::bytes::same_bytes;
use crate::error::AAKAError;
use crate::field::{scalar_modulus, ScalarField};

verus! {

/// Bytes in the compressed encoding of an element of G1.
pub const G1_COMPRESSED_LEN: usize = 48;

/// The canonical compressed encoding of `k` times the generator of G1.
pub uninterp spec fn g1_compressed(k: nat) -> Seq<u8>;

/// The canonical compressed encoding of `k` times the generator of G2.
pub uninterp spec fn g2_compressed(k: nat) -> Seq<u8>;

/// The canonical compressed encoding of the `k`-th power of the generator of GT.
pub uninterp spec fn gt_compressed(k: nat) -> Seq<u8>;

/// What the G1 decoder makes of bytes that are no canonical encoding: the
/// scalar of the element it reads, or nothing where it rejects them.
pub uninterp spec fn g1_decoded(bytes: Seq<u8>) -> Option<nat>;

/// What the G2 decoder makes of bytes that are no canonical encoding.
pub uninterp spec fn g2_decoded(bytes: Seq<u8>) -> Option<nat>;

/// What the GT decoder makes of bytes that are no canonical encoding.
pub uninterp spec fn gt_decoded(bytes: Seq<u8>) -> Option<nat>;

/// `e` encodes `k` times the generator of G1.
pub open spec fn g1_encodes(e: Seq<u8>, k: nat) -> bool {
    k < scalar_modulus() && g1_compressed(k) == e
}

/// `e` is the canonical encoding of an element of G1.
pub open spec fn is_g1_encoding(e: Seq<u8>) -> bool {
    e.len() == G1_COMPRESSED_LEN && exists|k: nat| g1_encodes(e, k)
}

/// The scalar of the element of G1 that `e` encodes.
pub open spec fn g1_log(e: Seq<u8>) -> nat {
    choose|k: nat| g1_encodes(e, k)
}

/// `e` encodes `k` times the generator of G2.
pub open spec fn g2_encodes(e: Seq<u8>, k: nat) -> bool {
    k < scalar_modulus() && g2_compressed(k) == e
}

/// `e` is the canonical encoding of an element of G2.
pub open spec fn is_g2_encoding(e: Seq<u8>) -> bool {
    exists|k: nat| g2_encodes(e, k)
}

/// The scalar of the element of G2 that `e` encodes.
pub open spec fn g2_log(e: Seq<u8>) -> nat {
    choose|k: nat| g2_encodes(e, k)
}

/// `e` encodes the `k`-th power of the generator of GT.
pub open spec fn gt_encodes(e: Seq<u8>, k: nat) -> bool {
    k < scalar_modulus() && gt_compressed(k) == e
}

/// `e` is the canonical encoding of an element of GT.
pub open spec fn is_gt_encoding(e: Seq<u8>) -> bool {
    exists|k: nat| gt_encodes(e, k)
}

/// The scalar of the element of GT that `e` encodes.
pub open spec fn gt_log(e: Seq<u8>) -> nat {
    choose|k: nat| gt_encodes(e, k)
}

/// The scalar of `k` times the element with scalar `p`.
pub open spec fn group_scale(p: nat, k: nat) -> nat {
    (p * k) % scalar_modulus()
}

/// The scalar of the sum of the elements with scalars `a` and `b`.
pub open spec fn group_add(a: nat, b: nat) -> nat {
    (a + b) % scalar_modulus()
}

/// The scalar in GT of the pairing of the elements with scalars `a` in G1
/// and `b` in G2: the pairing is bilinear.
pub open spec fn pairing_log(a: nat, b: nat) -> nat {
    (a * b) % scalar_modulus()
}

/// What decoding `bytes` as an element of G1 gives: the scalar of the
/// element read, or nothing where the bytes are rejected. A canonical
/// encoding decodes to the element it encodes.
pub open spec fn g1_decode(bytes: Seq<u8>) -> Option<nat> {
    if is_g1_encoding(bytes) {
        Some(g1_log(bytes))
    } else {
        g1_decoded(bytes)
    }
}

/// What decoding `bytes` as an element of G2 gives.
pub open spec fn g2_decode(bytes: Seq<u8>) -> Option<nat> {
    if is_g2_encoding(bytes) {
        Some(g2_log(bytes))
    } else {
        g2_decoded(bytes)
    }
}

/// What decoding `bytes` as an element of GT gives.
pub open spec fn gt_decode(bytes: Seq<u8>) -> Option<nat> {
    if is_gt_encoding(bytes) {
        Some(gt_log(bytes))
    } else {
        gt_decoded(bytes)
    }
}

/// An element of G1.
#[derive(Debug)]
pub struct G1Point {
    pub(crate) bytes: Vec<u8>,
}

/// An element of G2.
#[derive(Debug)]
pub struct G2Point {
    pub(crate) bytes: Vec<u8>,
}

/// An element of the target group GT.
#[derive(Debug)]
pub struct GtPoint {
    pub(crate) bytes: Vec<u8>,
}

impl Clone for G1Point {
    fn clone(&self) -> (r: Self)
        ensures
            r.encoding() == self.encoding(),
    {
        proof {
            use_type_invariant(self);
        }
        G1Point { bytes: self.bytes.clone() }
    }
}

impl Default for G1Point {
    /// The neutral element of G1.
    fn default() -> (r: Self)
        ensures
            r@ == 0,
    {
        let r = G1Point::generator().mul(&ScalarField::zero());
        assert(1 * 0 == 0);
        r
    }
}

impl PartialEq for G1Point {
    /// Whether the two are the same element.
    fn eq(&self, other: &Self) -> (r: bool) {
        proof {
            use_type_invariant(self);
            use_type_invariant(other);
        }
        same_bytes(&self.bytes, &other.bytes)
    }
}

impl Eq for G1Point {

}

impl vstd::std_specs::cmp::PartialEqSpecImpl for G1Point {
    open spec fn obeys_eq_spec() -> bool {
        true
    }

    open spec fn eq_spec(&self, other: &Self) -> bool {
        self@ == other@
    }
}

impl View for G1Point {
    type V = nat;

    open spec fn view(&self) -> nat {
        g1_log(self.encoding())
    }
}

impl Clone for G2Point {
    fn clone(&self) -> (r: Self)
        ensures
            r.encoding() == self.encoding(),
    {
        proof {
            use_type_invariant(self);
        }
        G2Point { bytes: self.bytes.clone() }
    }
}

impl PartialEq for G2Point {
    /// Whether the two are the same element.
    fn eq(&self, other: &Self) -> (r: bool) {
        proof {
            use_type_invariant(self);
            use_type_invariant(other);
        }
        same_bytes(&self.bytes, &other.bytes)
    }
}

impl Eq for G2Point {

}

impl vstd::std_specs::cmp::PartialEqSpecImpl for G2Point {
    open spec fn obeys_eq_spec() -> bool {
        true
    }

    open spec fn eq_spec(&self, other: &Self) -> bool {
        self@ == other@
    }
}

impl View for G2Point {
    type V = nat;

    open spec fn view(&self) -> nat {
        g2_log(self.encoding())
    }
}

impl Clone for GtPoint {
    fn clone(&self) -> (r: Self)
        ensures
            r.encoding() == self.encoding(),
    {
        proof {
            use_type_invariant(self);
        }
        GtPoint { bytes: self.bytes.clone() }
    }
}

impl PartialEq for GtPoint {
    /// Whether the two are the same element.
    fn eq(&self, other: &Self) -> (r: bool) {
        proof {
            use_type_invariant(self);
            use_type_invariant(other);
        }
        same_bytes(&self.bytes, &other.bytes)
    }
}

impl Eq for GtPoint {

}

impl vstd::std_specs::cmp::PartialEqSpecImpl for GtPoint {
    open spec fn obeys_eq_spec() -> bool {
        true
    }

    open spec fn eq_spec(&self, other: &Self) -> bool {
        self@ == other@
    }
}

impl View for GtPoint {
    type V = nat;

    open spec fn view(&self) -> nat {
        gt_log(self.encoding())
    }
}

impl G1Point {
    /// The canonical compressed encoding of the element.
    pub closed spec fn encoding(&self) -> Seq<u8> {
        self.bytes@
    }

    /// What is stored is the canonical encoding of an element of the group.
    #[verifier::type_invariant]
    pub open spec fn inv(&self) -> bool {
        is_g1_encoding(self.encoding())
    }

    /// A valid element's encoding is that of its scalar, which lies below
    /// the group order.
    pub proof fn lemma_encoding(&self)
        requires
            self.inv(),
        ensures
            self@ < scalar_modulus(),
            self.encoding() == g1_compressed(self@),
            self.encoding().len() == G1_COMPRESSED_LEN,
    {
    }

    /// The fixed generator of G1.
    pub fn generator() -> (r: G1Point)
        ensures
            r@ == 1,
    {
        g1_fixed_generator()
    }

    /// `k` times the element.
    pub fn mul(&self, k: &ScalarField) -> (r: G1Point)
        ensures
            r@ == group_scale(self@, k@),
    {
        proof {
            use_type_invariant(self);
            use_type_invariant(k);
        }
        g1_scalar_mul(self, k)
    }

    /// The sum of the two elements.
    pub fn add(&self, other: &G1Point) -> (r: G1Point)
        ensures
            r@ == group_add(self@, other@),
    {
        proof {
            use_type_invariant(self);
            use_type_invariant(other);
        }
        g1_sum(self, other)
    }

    /// The canonical compressed encoding of the element.
    pub fn to_compressed(&self) -> (r: Vec<u8>)
        ensures
            r@ == self.encoding(),
            r@ == g1_compressed(self@),
            r@.len() == G1_COMPRESSED_LEN,
    {
        proof {
            use_type_invariant(self);
        }
        self.bytes.clone()
    }

    /// Reads an element from its compressed encoding, and fails with
    /// `Deserialization` where the decoder rejects the bytes.
    pub fn from_compressed(bytes: &[u8]) -> (r: Result<G1Point, AAKAError>)
        ensures
            match r {
                Ok(p) => g1_decode(bytes@) == Some(p@),
                Err(e) => g1_decode(bytes@) is None && e is Deserialization,
            },
            is_g1_encoding(bytes@) ==> r is Ok && r->Ok_0.encoding() == bytes@,
    {
        match g1_read(bytes) {
            Some(p) => Ok(p),
            None => Err(AAKAError::Deserialization("not an element of G1".to_owned())),
        }
    }
}

/// `G1Projective::generator`: the fixed generator of G1, whose scalar is one.
#[verifier::external_body]
fn g1_fixed_generator() -> (r: G1Point)
    ensures
        r.inv(),
        r@ == 1,
        r.encoding() == g1_compressed(1),
{
    let mut bytes = Vec::new();
    G1Projective::generator().into_affine().serialize_compressed(&mut bytes).unwrap();
    G1Point { bytes }
}

/// `G1Projective`'s `*` by an `Fr`: scalar multiplication in G1, which
/// multiplies the element's scalar by `k` modulo the group order.
#[verifier::external_body]
fn g1_scalar_mul(p: &G1Point, k: &ScalarField) -> (r: G1Point)
    requires
        p.inv(),
        k.inv(),
    ensures
        r.inv(),
        r@ == (p@ * k@) % scalar_modulus(),
        r.encoding() == g1_compressed(r@),
{
    let point = G1Affine::deserialize_compressed_unchecked(p.bytes.as_slice()).unwrap();
    let scalar = Fr::from(BigInt::new([k.l0, k.l1, k.l2, k.l3]));
    let mut bytes = Vec::new();
    (point * scalar).into_affine().serialize_compressed(&mut bytes).unwrap();
    G1Point { bytes }
}

/// `G1Projective`'s `+`: the group operation of G1, which adds the scalars
/// of the two elements modulo the group order.
#[verifier::external_body]
fn g1_sum(a: &G1Point, b: &G1Point) -> (r: G1Point)
    requires
        a.inv(),
        b.inv(),
    ensures
        r.inv(),
        r@ == (a@ + b@) % scalar_modulus(),
        r.encoding() == g1_compressed(r@),
{
    let x = G1Affine::deserialize_compressed_unchecked(a.bytes.as_slice()).unwrap();
    let y = G1Affine::deserialize_compressed_unchecked(b.bytes.as_slice()).unwrap();
    let mut bytes = Vec::new();
    (x + y).into_affine().serialize_compressed(&mut bytes).unwrap();
    G1Point { bytes }
}

/// `G1Affine::deserialize_compressed`, followed by `serialize_compressed`:
/// reads an element of G1, checking that it lies in the group, and stores
/// its canonical encoding. A canonical encoding is read as the element it
/// encodes and so comes back unchanged; of other bytes the result is the
/// decoder's.
#[verifier::external_body]
fn g1_read(bytes: &[u8]) -> (r: Option<G1Point>)
    ensures
        r is Some ==> r->Some_0.inv(),
        is_g1_encoding(bytes@) ==> r is Some && r->Some_0.encoding() == bytes@,
        !is_g1_encoding(bytes@) ==> match r {
            Some(p) => g1_decoded(bytes@) == Some(p@),
            None => g1_decoded(bytes@) is None,
        },
{
    let point = G1Affine::deserialize_compressed(bytes).ok()?;
    let mut out = Vec::new();
    point.serialize_compressed(&mut out).unwrap();
    Some(G1Point { bytes: out })
}

impl G2Point {
    /// The canonical compressed encoding of the element.
    pub closed spec fn encoding(&self) -> Seq<u8> {
        self.bytes@
    }

    /// What is stored is the canonical encoding of an element of the group.
    #[verifier::type_invariant]
    pub open spec fn inv(&self) -> bool {
        is_g2_encoding(self.encoding())
    }

    /// A valid element's encoding is that of its scalar, which lies below
    /// the group order.
    pub proof fn lemma_encoding(&self)
        requires
            self.inv(),
        ensures
            self@ < scalar_modulus(),
            self.encoding() == g2_compressed(self@),
    {
    }

    /// The fixed generator of G2.
    pub fn generator() -> (r: G2Point)
        ensures
            r@ == 1,
    {
        g2_fixed_generator()
    }

    /// `k` times the element.
    pub fn mul(&self, k: &ScalarField) -> (r: G2Point)
        ensures
            r@ == group_scale(self@, k@),
    {
        proof {
            use_type_invariant(self);
            use_type_invariant(k);
        }
        g2_scalar_mul(self, k)
    }

    /// The canonical compressed encoding of the element.
    pub fn to_compressed(&self) -> (r: Vec<u8>)
        ensures
            r@ == self.encoding(),
            r@ == g2_compressed(self@),
    {
        proof {
            use_type_invariant(self);
        }
        self.bytes.clone()
    }

    /// Reads an element from its compressed encoding, and fails with
    /// `Deserialization` where the decoder rejects the bytes.
    pub fn from_compressed(bytes: &[u8]) -> (r: Result<G2Point, AAKAError>)
        ensures
            match r {
                Ok(p) => g2_decode(bytes@) == Some(p@),
                Err(e) => g2_decode(bytes@) is None && e is Deserialization,
            },
            is_g2_encoding(bytes@) ==> r is Ok && r->Ok_0.encoding() == bytes@,
    {
        match g2_read(bytes) {
            Some(p) => Ok(p),
            None => Err(AAKAError::Deserialization("not an element of G2".to_owned())),
        }
    }
}

/// `G2Projective::generator`: the fixed generator of G2, whose scalar is one.
#[verifier::external_body]
fn g2_fixed_generator() -> (r: G2Point)
    ensures
        r.inv(),
        r@ == 1,
        r.encoding() == g2_compressed(1),
{
    let mut bytes = Vec::new();
    G2Projective::generator().into_affine().serialize_compressed(&mut bytes).unwrap();
    G2Point { bytes }
}

/// `G2Projective`'s `*` by an `Fr`: scalar multiplication in G2, which
/// multiplies the element's scalar by `k` modulo the group order.
#[verifier::external_body]
fn g2_scalar_mul(p: &G2Point, k: &ScalarField) -> (r: G2Point)
    requires
        p.inv(),
        k.inv(),
    ensures
        r.inv(),
        r@ == (p@ * k@) % scalar_modulus(),
        r.encoding() == g2_compressed(r@),
{
    let point = G2Affine::deserialize_compressed_unchecked(p.bytes.as_slice()).unwrap();
    let scalar = Fr::from(BigInt::new([k.l0, k.l1, k.l2, k.l3]));
    let mut bytes = Vec::new();
    (point * scalar).into_affine().serialize_compressed(&mut bytes).unwrap();
    G2Point { bytes }
}

/// `G2Affine::deserialize_compressed`, followed by `serialize_compressed`:
/// reads an element of G2, checking that it lies in the group, and stores
/// its canonical encoding. A canonical encoding is read as the element it
/// encodes and so comes back unchanged; of other bytes the result is the
/// decoder's.
#[verifier::external_body]
fn g2_read(bytes: &[u8]) -> (r: Option<G2Point>)
    ensures
        r is Some ==> r->Some_0.inv(),
        is_g2_encoding(bytes@) ==> r is Some && r->Some_0.encoding() == bytes@,
        !is_g2_encoding(bytes@) ==> match r {
            Some(p) => g2_decoded(bytes@) == Some(p@),
            None => g2_decoded(bytes@) is None,
        },
{
    let point = G2Affine::deserialize_compressed(bytes).ok()?;
    let mut out = Vec::new();
    point.serialize_compressed(&mut out).unwrap();
    Some(G2Point { bytes: out })
}

impl GtPoint {
    /// The canonical compressed encoding of the element.
    pub closed spec fn encoding(&self) -> Seq<u8> {
        self.bytes@
    }

    /// What is stored is the canonical encoding of an element of the group.
    #[verifier::type_invariant]
    pub open spec fn inv(&self) -> bool {
        is_gt_encoding(self.encoding())
    }

    /// A valid element's encoding is that of its scalar, which lies below
    /// the group order.
    pub proof fn lemma_encoding(&self)
        requires
            self.inv(),
        ensures
            self@ < scalar_modulus(),
            self.encoding() == gt_compressed(self@),
    {
    }

    /// The `k`-th power of the element: GT is written multiplicatively.
    pub fn pow(&self, k: &ScalarField) -> (r: GtPoint)
        ensures
            r@ == group_scale(self@, k@),
    {
        proof {
            use_type_invariant(self);
            use_type_invariant(k);
        }
        gt_power(self, k)
    }

    /// The canonical compressed encoding of the element.
    pub fn to_compressed(&self) -> (r: Vec<u8>)
        ensures
            r@ == self.encoding(),
            r@ == gt_compressed(self@),
    {
        proof {
            use_type_invariant(self);
        }
        self.bytes.clone()
    }

    /// Reads an element from its compressed encoding, and fails with
    /// `Deserialization` where the decoder rejects the bytes.
    pub fn from_compressed(bytes: &[u8]) -> (r: Result<GtPoint, AAKAError>)
        ensures
            match r {
                Ok(p) => gt_decode(bytes@) == Some(p@),
                Err(e) => gt_decode(bytes@) is None && e is Deserialization,
            },
            is_gt_encoding(bytes@) ==> r is Ok && r->Ok_0.encoding() == bytes@,
    {
        match gt_read(bytes) {
            Some(p) => Ok(p),
            None => Err(AAKAError::Deserialization("not an element of GT".to_owned())),
        }
    }
}

/// The pairing of an element of G1 with one of G2.
pub fn pairing(a: &G1Point, b: &G2Point) -> (r: GtPoint)
    ensures
        r@ == pairing_log(a@, b@),
{
    proof {
        use_type_invariant(a);
        use_type_invariant(b);
    }
    bls_pairing(a, b)
}

/// `Bls12_381::pairing`: the bilinear map from G1 and G2 to GT. It takes
/// the two generators to the generator of GT, so the scalar of the result
/// is the product of the two scalars modulo the group order.
#[verifier::external_body]
fn bls_pairing(a: &G1Point, b: &G2Point) -> (r: GtPoint)
    requires
        a.inv(),
        b.inv(),
    ensures
        r.inv(),
        r@ == (a@ * b@) % scalar_modulus(),
        r.encoding() == gt_compressed(r@),
{
    let p = G1Affine::deserialize_compressed_unchecked(a.bytes.as_slice()).unwrap();
    let q = G2Affine::deserialize_compressed_unchecked(b.bytes.as_slice()).unwrap();
    let mut bytes = Vec::new();
    Bls12_381::pairing(p, q).serialize_compressed(&mut bytes).unwrap();
    GtPoint { bytes }
}

/// `PairingOutput::mul_bigint`: exponentiation in GT, which multiplies the
/// element's scalar by `k` modulo the group order.
#[verifier::external_body]
fn gt_power(g: &GtPoint, k: &ScalarField) -> (r: GtPoint)
    requires
        g.inv(),
        k.inv(),
    ensures
        r.inv(),
        r@ == (g@ * k@) % scalar_modulus(),
        r.encoding() == gt_compressed(r@),
{
    let base =
        PairingOutput::<Bls12_381>::deserialize_compressed_unchecked(g.bytes.as_slice()).unwrap();
    let mut bytes = Vec::new();
    base.mul_bigint(BigInt::new([k.l0, k.l1, k.l2, k.l3])).serialize_compressed(&mut bytes).unwrap();
    GtPoint { bytes }
}

/// `PairingOutput::deserialize_compressed`, followed by
/// `serialize_compressed`: reads an element of GT, checking that it lies in
/// the group, and stores its canonical encoding. A canonical encoding is
/// read as the element it encodes and so comes back unchanged; of other
/// bytes the result is the decoder's.
#[verifier::external_body]
fn gt_read(bytes: &[u8]) -> (r: Option<GtPoint>)
    ensures
        r is Some ==> r->Some_0.inv(),
        is_gt_encoding(bytes@) ==> r is Some && r->Some_0.encoding() == bytes@,
        !is_gt_encoding(bytes@) ==> match r {
            Some(p) => gt_decoded(bytes@) == Some(p@),
            None => gt_decoded(bytes@) is None,
        },
{
    let element = PairingOutput::<Bls12_381>::deserialize_compressed(bytes).ok()?;
    let mut out = Vec::new();
    element.serialize_compressed(&mut out).unwrap();
    Some(GtPoint { bytes: out })
}

} // verus!
