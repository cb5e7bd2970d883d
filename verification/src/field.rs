//! The scalar field of BLS12-381: integers modulo the prime group order.

use vstd::prelude::*;
use ark_bls12_381::Fr;
use ark_ff::{BigInt, Field, PrimeField, UniformRand};
use rand::rngs::StdRng;
use crate::bytes::{
    append_bytes, be_value, le_bytes, le_value, lemma_le_bytes_concat, lemma_le_value_concat,
    lemma_pow256_8, pow256, u64_from_le_bytes, u64_le_bytes,
};

verus! {

/// The order of the groups G1, G2 and GT, which is the modulus of the scalar field.
pub open spec fn scalar_modulus() -> nat {
    0x73eda753299d7d483339d80809a1d80553bda402fffe5bfeffffffff00000001nat
}

/// The number that four 64-bit limbs stand for, least significant limb first.
pub open spec fn limbs_value(l0: u64, l1: u64, l2: u64, l3: u64) -> nat {
    (l0 as nat) + (l1 as nat) * 0x1_0000_0000_0000_0000nat
        + (l2 as nat) * 0x1_0000_0000_0000_0000_0000_0000_0000_0000nat
        + (l3 as nat) * 0x1_0000_0000_0000_0000_0000_0000_0000_0000_0000_0000_0000_0000nat
}

/// Bytes in the encoding of a scalar.
pub const SCALAR_LEN: usize = 32;

/// Sum in the scalar field.
pub open spec fn fr_add(a: nat, b: nat) -> nat {
    (a + b) % scalar_modulus()
}

/// Product in the scalar field.
pub open spec fn fr_mul(a: nat, b: nat) -> nat {
    (a * b) % scalar_modulus()
}

/// Whether `r` is the reduced multiplicative inverse of `a`.
pub open spec fn fr_is_inverse(a: nat, r: nat) -> bool {
    r < scalar_modulus() && (a * r) % scalar_modulus() == 1
}

/// The inverse of `a` in the scalar field, where it has one.
pub open spec fn fr_inverse(a: nat) -> nat {
    choose|r: nat| fr_is_inverse(a, r)
}

/// `rand::rngs::StdRng`: the random number generator that the scheme
/// draws its scalars from. Nothing is known of its state.
#[verifier::external_type_specification]
#[verifier::external_body]
pub struct ExStdRng(rand::rngs::StdRng);

/// An element of the scalar field, held as the four little-endian limbs of
/// its reduced representative.
#[derive(Clone, Copy, Debug, PartialEq, Eq, Structural)]
pub struct ScalarField {
    pub(crate) l0: u64,
    pub(crate) l1: u64,
    pub(crate) l2: u64,
    pub(crate) l3: u64,
}

impl View for ScalarField {
    type V = nat;

    closed spec fn view(&self) -> nat {
        limbs_value(self.l0, self.l1, self.l2, self.l3)
    }
}

impl ScalarField {
    /// Every scalar is reduced: its value lies below the modulus.
    #[verifier::type_invariant]
    pub open spec fn inv(self) -> bool {
        self@ < scalar_modulus()
    }

    /// Two scalars with the same value are the same scalar.
    pub proof fn lemma_view_injective(self, other: ScalarField)
        ensures
            (self@ == other@) <==> (self == other),
    {
        if self@ == other@ {
            let b: int = 0x1_0000_0000_0000_0000;
            let hi1: int = self.l1 + b * (self.l2 + b * self.l3);
            let hi2: int = other.l1 + b * (other.l2 + b * other.l3);
            assert(self@ == self.l0 + b * hi1);
            assert(other@ == other.l0 + b * hi2);
            assert(hi1 == hi2 && self.l0 == other.l0);
            let top1: int = self.l2 + b * self.l3;
            let top2: int = other.l2 + b * other.l3;
            assert(hi1 == self.l1 + b * top1);
            assert(hi2 == other.l1 + b * top2);
            assert(top1 == top2 && self.l1 == other.l1);
            assert(self.l2 == other.l2 && self.l3 == other.l3);
        }
    }

    /// The scalar zero.
    pub fn zero() -> (r: ScalarField)
        ensures
            r@ == 0,
    {
        ScalarField { l0: 0, l1: 0, l2: 0, l3: 0 }
    }

    /// The scalar one.
    pub fn one() -> (r: ScalarField)
        ensures
            r@ == 1,
    {
        ScalarField { l0: 1, l1: 0, l2: 0, l3: 0 }
    }

    /// Whether the scalar is zero.
    pub fn is_zero(&self) -> (r: bool)
        ensures
            r == (self@ == 0),
    {
        self.l0 == 0 && self.l1 == 0 && self.l2 == 0 && self.l3 == 0
    }

    /// Field addition.
    pub fn add(&self, other: &ScalarField) -> (r: ScalarField)
        ensures
            r@ == fr_add(self@, other@),
    {
        proof {
            use_type_invariant(self);
            use_type_invariant(other);
        }
        fr_sum(self, other)
    }

    /// Field multiplication.
    pub fn mul(&self, other: &ScalarField) -> (r: ScalarField)
        ensures
            r@ == fr_mul(self@, other@),
    {
        proof {
            use_type_invariant(self);
            use_type_invariant(other);
        }
        fr_product(self, other)
    }

    /// The multiplicative inverse, which every scalar but zero has.
    pub fn inverse(&self) -> (r: Option<ScalarField>)
        ensures
            self@ == 0 ==> r is None,
            self@ != 0 ==> r is Some && r->Some_0@ == fr_inverse(self@) && fr_is_inverse(
                self@,
                r->Some_0@,
            ),
    {
        proof {
            use_type_invariant(self);
        }
        let r = fr_reciprocal(self);
        proof {
            if let Some(x) = r {
                lemma_inverse_unique(self@, x@, fr_inverse(self@));
            }
        }
        r
    }

    /// The scalar that a byte string stands for, read as a number with the
    /// most significant byte first and reduced modulo the group order.
    pub fn from_be_bytes_mod_order(bytes: &[u8]) -> (r: ScalarField)
        ensures
            r@ == be_value(bytes@) % scalar_modulus(),
    {
        fr_from_be_bytes(bytes)
    }

    /// The scalar's encoding: the 32 bytes of its value, least significant
    /// first.
    pub fn to_le_bytes(&self) -> (r: Vec<u8>)
        ensures
            r@ == le_bytes(self@, 32),
    {
        let mut out = u64_le_bytes(self.l0);
        append_bytes(&mut out, u64_le_bytes(self.l1).as_slice());
        append_bytes(&mut out, u64_le_bytes(self.l2).as_slice());
        append_bytes(&mut out, u64_le_bytes(self.l3).as_slice());
        proof {
            lemma_pow256_8();
            let top = self.l2 as nat + pow256(8) * (self.l3 as nat);
            let mid = self.l1 as nat + pow256(8) * top;
            lemma_le_bytes_concat(self.l2 as nat, self.l3 as nat, 8, 8);
            lemma_le_bytes_concat(self.l1 as nat, top, 8, 16);
            lemma_le_bytes_concat(self.l0 as nat, mid, 8, 24);
            assert(self@ == self.l0 as nat + pow256(8) * mid);
            assert(out@ =~= le_bytes(self.l0 as nat, 8) + (le_bytes(self.l1 as nat, 8) + (le_bytes(
                self.l2 as nat,
                8,
            ) + le_bytes(self.l3 as nat, 8))));
        }
        out
    }

    /// Reads a scalar from its encoding. There is none where the bytes are
    /// not 32, or stand for a number that is not below the group order.
    pub fn from_le_bytes(bytes: &[u8]) -> (r: Option<ScalarField>)
        ensures
            r is Some <==> bytes@.len() == SCALAR_LEN && le_value(bytes@) < scalar_modulus(),
            r is Some ==> r->Some_0@ == le_value(bytes@),
    {
        if bytes.len() != SCALAR_LEN {
            return None;
        }
        let l0 = u64_from_le_bytes(bytes, 0);
        let l1 = u64_from_le_bytes(bytes, 8);
        let l2 = u64_from_le_bytes(bytes, 16);
        let l3 = u64_from_le_bytes(bytes, 24);
        proof {
            lemma_pow256_8();
            let b0 = bytes@.subrange(0, 8);
            let b1 = bytes@.subrange(8, 16);
            let b2 = bytes@.subrange(16, 24);
            let b3 = bytes@.subrange(24, 32);
            assert(bytes@ =~= b0 + (b1 + (b2 + b3)));
            lemma_le_value_concat(b2, b3);
            lemma_le_value_concat(b1, b2 + b3);
            lemma_le_value_concat(b0, b1 + (b2 + b3));
            assert(le_value(bytes@) == limbs_value(l0, l1, l2, l3));
        }
        if !limbs_below_modulus(l0, l1, l2, l3) {
            return None;
        }
        Some(ScalarField { l0, l1, l2, l3 })
    }

    /// A scalar drawn uniformly from the field. It may be zero.
    pub fn random(rng: &mut StdRng) -> (r: ScalarField)
        ensures
            r@ < scalar_modulus(),
    {
        fr_random(rng)
    }
}

/// Whether the number that the four limbs stand for lies below the group order.
fn limbs_below_modulus(l0: u64, l1: u64, l2: u64, l3: u64) -> (r: bool)
    ensures
        r == (limbs_value(l0, l1, l2, l3) < scalar_modulus()),
{
    assert(scalar_modulus() == limbs_value(
        0xffff_ffff_0000_0001,
        0x53bd_a402_fffe_5bfe,
        0x3339_d808_09a1_d805,
        0x73ed_a753_299d_7d48,
    ));
    if l3 != 0x73ed_a753_299d_7d48 {
        l3 < 0x73ed_a753_299d_7d48
    } else if l2 != 0x3339_d808_09a1_d805 {
        l2 < 0x3339_d808_09a1_d805
    } else if l1 != 0x53bd_a402_fffe_5bfe {
        l1 < 0x53bd_a402_fffe_5bfe
    } else {
        l0 < 0xffff_ffff_0000_0001
    }
}

/// `a` and `b` leave the same remainder modulo the group order.
pub open spec fn congruent(a: int, b: int) -> bool {
    a % (scalar_modulus() as int) == b % (scalar_modulus() as int)
}

/// A number is congruent to its remainder.
pub proof fn lemma_congruent_reduced(a: int)
    ensures
        congruent(a % (scalar_modulus() as int), a),
{
    vstd::arithmetic::div_mod::lemma_mod_twice(a, scalar_modulus() as int);
}

/// Congruent numbers have congruent sums.
pub proof fn lemma_congruent_sum(a: int, b: int, c: int, d: int)
    requires
        congruent(a, b),
        congruent(c, d),
    ensures
        congruent(a + c, b + d),
{
    let q = scalar_modulus() as int;
    vstd::arithmetic::div_mod::lemma_add_mod_noop(a, c, q);
    vstd::arithmetic::div_mod::lemma_add_mod_noop(b, d, q);
}

/// Congruent numbers have congruent products.
pub proof fn lemma_congruent_product(a: int, b: int, c: int, d: int)
    requires
        congruent(a, b),
        congruent(c, d),
    ensures
        congruent(a * c, b * d),
{
    let q = scalar_modulus() as int;
    vstd::arithmetic::div_mod::lemma_mul_mod_noop(a, c, q);
    vstd::arithmetic::div_mod::lemma_mul_mod_noop(b, d, q);
}

/// A scalar has at most one reduced inverse.
pub proof fn lemma_inverse_unique(a: nat, r1: nat, r2: nat)
    requires
        fr_is_inverse(a, r1),
        fr_is_inverse(a, r2),
    ensures
        r1 == r2,
{
    let q = scalar_modulus() as int;
    // r1 = r1 * (a * r2) = (r1 * a) * r2 = r2, all modulo q.
    vstd::arithmetic::div_mod::lemma_mul_mod_noop_right(r1 as int, (a * r2) as int, q);
    vstd::arithmetic::div_mod::lemma_mul_mod_noop_right(r2 as int, (a * r1) as int, q);
    assert(r1 * (a * r2) == r2 * (a * r1)) by (nonlinear_arith);
    vstd::arithmetic::div_mod::lemma_small_mod(r1, scalar_modulus());
    vstd::arithmetic::div_mod::lemma_small_mod(r2, scalar_modulus());
}

/// `Fr`'s `+`: the reduced sum of the two elements.
#[verifier::external_body]
fn fr_sum(a: &ScalarField, b: &ScalarField) -> (r: ScalarField)
    requires
        a.inv(),
        b.inv(),
    ensures
        r.inv(),
        r@ == (a@ + b@) % scalar_modulus(),
{
    let x = Fr::from(BigInt::new([a.l0, a.l1, a.l2, a.l3]));
    let y = Fr::from(BigInt::new([b.l0, b.l1, b.l2, b.l3]));
    let l = (x + y).into_bigint().0;
    ScalarField { l0: l[0], l1: l[1], l2: l[2], l3: l[3] }
}

/// `Fr`'s `*`: the reduced product of the two elements.
#[verifier::external_body]
fn fr_product(a: &ScalarField, b: &ScalarField) -> (r: ScalarField)
    requires
        a.inv(),
        b.inv(),
    ensures
        r.inv(),
        r@ == (a@ * b@) % scalar_modulus(),
{
    let x = Fr::from(BigInt::new([a.l0, a.l1, a.l2, a.l3]));
    let y = Fr::from(BigInt::new([b.l0, b.l1, b.l2, b.l3]));
    let l = (x * y).into_bigint().0;
    ScalarField { l0: l[0], l1: l[1], l2: l[2], l3: l[3] }
}

/// `Field::inverse` on `Fr`: nothing for zero; for any other element the
/// one whose product with it is one. The modulus is prime, so there is one.
#[verifier::external_body]
fn fr_reciprocal(a: &ScalarField) -> (r: Option<ScalarField>)
    requires
        a.inv(),
    ensures
        a@ == 0 <==> r is None,
        r is Some ==> r->Some_0.inv() && (a@ * r->Some_0@) % scalar_modulus() == 1,
{
    let l = Fr::from(BigInt::new([a.l0, a.l1, a.l2, a.l3])).inverse()?.into_bigint().0;
    Some(ScalarField { l0: l[0], l1: l[1], l2: l[2], l3: l[3] })
}

/// `PrimeField::from_be_bytes_mod_order` on `Fr`: the bytes are read as a
/// number, most significant byte first, and reduced modulo the group order.
#[verifier::external_body]
fn fr_from_be_bytes(bytes: &[u8]) -> (r: ScalarField)
    ensures
        r.inv(),
        r@ == be_value(bytes@) % scalar_modulus(),
{
    let l = Fr::from_be_bytes_mod_order(bytes).into_bigint().0;
    ScalarField { l0: l[0], l1: l[1], l2: l[2], l3: l[3] }
}

/// `UniformRand::rand` on `Fr`: an element drawn from the generator's
/// stream. Nothing is promised of it but that it is a reduced scalar.
#[verifier::external_body]
fn fr_random(rng: &mut StdRng) -> (r: ScalarField)
    ensures
        r.inv(),
{
    let l = Fr::rand(rng).into_bigint().0;
    ScalarField { l0: l[0], l1: l[1], l2: l[2], l3: l[3] }
}

} // verus!
