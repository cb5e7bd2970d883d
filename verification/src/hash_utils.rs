//! The six hash functions of the scheme.
//!
//! Each prepends its own tag to what it hashes, so that no input of one is
//! an input of another, and each rests on SHA3-256. Four of them map to the
//! scalar field; the other two derive byte strings of a wanted length by
//! hashing the same input again and again with a running counter appended.

use vstd::prelude::*;
use sha3::{Digest, Sha3_256};
use crate::bytes::{append_bytes, be_bytes, be_value, u32_be_bytes, u64_be_bytes};
use crate::curve::{G1Point, GtPoint};
use crate::error::AAKAError;
use crate::field::{scalar_modulus, ScalarField};

verus! {

/// Bytes in a SHA3-256 digest.
pub const DIGEST_LEN: usize = 32;

/// How many counter blocks a derived byte string may take beyond its first block.
pub const KDF_MAX_EXTENSIONS: u32 = 100;

/// The longest byte string that can be derived: the first block and the
/// counter blocks after it.
pub const KDF_MAX_LEN: usize = 3232;

/// The SHA3-256 digest of `input`.
pub uninterp spec fn sha3_256(input: Seq<u8>) -> Seq<u8>;

/// The tag of the hash function with the given number: the ASCII text
/// `IBC_AAKA_H` and the digit.
pub open spec fn domain_tag(n: u8) -> Seq<u8> {
    seq![73u8, 66u8, 67u8, 95u8, 65u8, 65u8, 75u8, 65u8, 95u8, 72u8, (48 + n) as u8]
}

/// The scalar that `input` hashes to: its digest, read as a big-endian
/// number and reduced modulo the group order.
pub open spec fn hash_to_scalar(input: Seq<u8>) -> nat {
    be_value(sha3_256(input)) % scalar_modulus()
}

/// Block `j` of the byte stream derived from `base`: the digest of `base`
/// alone for the first block, and of `base` with the four big-endian bytes of
/// `j - 1` appended for each block after it.
pub open spec fn kdf_block(base: Seq<u8>, j: nat) -> Seq<u8> {
    if j == 0 {
        sha3_256(base)
    } else {
        sha3_256(base + be_bytes((j - 1) as nat, 4))
    }
}

/// The first `len` bytes of the stream derived from `base`.
pub open spec fn kdf_output(base: Seq<u8>, len: nat) -> Seq<u8> {
    Seq::new(len, |i: int| kdf_block(base, (i / 32) as nat)[i % 32])
}

/// What H0 hashes: the tag, the user's identity, and the encoding of `R_u`.
pub open spec fn h0_input(id_u: Seq<u8>, r_u: Seq<u8>) -> Seq<u8> {
    domain_tag(0) + id_u + r_u
}

/// What H1 hashes: the tag and the server's identity.
pub open spec fn h1_input(id_ms: Seq<u8>) -> Seq<u8> {
    domain_tag(1) + id_ms
}

/// What H2 hashes: the tag and the encoding of the element of GT.
pub open spec fn h2_input(g_x: Seq<u8>) -> Seq<u8> {
    domain_tag(2) + g_x
}

/// What H3 hashes: the tag, the user's identity, the encodings of `R_u` and
/// `X`, and the eight big-endian bytes of the user's timestamp.
pub open spec fn h3_input(id_u: Seq<u8>, r_u: Seq<u8>, x_pub: Seq<u8>, timestamp: u64) -> Seq<u8> {
    domain_tag(3) + id_u + r_u + x_pub + be_bytes(timestamp as nat, 8)
}

/// What H4 hashes: the tag, the two identities, the encodings of `X` and
/// `Y`, and the eight big-endian bytes of the server's timestamp.
pub open spec fn h4_input(
    id_u: Seq<u8>,
    id_ms: Seq<u8>,
    x_pub: Seq<u8>,
    y_pub: Seq<u8>,
    timestamp: u64,
) -> Seq<u8> {
    domain_tag(4) + id_u + id_ms + x_pub + y_pub + be_bytes(timestamp as nat, 8)
}

/// What H5 hashes: the tag, the encoding of the shared element `K`, the two
/// identities, and the encodings of `X` and `Y`.
pub open spec fn h5_input(
    k: Seq<u8>,
    id_u: Seq<u8>,
    id_ms: Seq<u8>,
    x_pub: Seq<u8>,
    y_pub: Seq<u8>,
) -> Seq<u8> {
    domain_tag(5) + k + id_u + id_ms + x_pub + y_pub
}

/// The tags keep the hash functions apart: what one of them hashes, none
/// of the others does.
pub proof fn lemma_tags_separate(m: u8, n: u8, a: Seq<u8>, b: Seq<u8>)
    requires
        m <= 5,
        n <= 5,
        m != n,
    ensures
        domain_tag(m) + a != domain_tag(n) + b,
{
    assert((domain_tag(m) + a)[10] == (48 + m) as u8);
    assert((domain_tag(n) + b)[10] == (48 + n) as u8);
}

/// A shorter derived string is the beginning of a longer one.
pub proof fn lemma_kdf_prefix(base: Seq<u8>, shorter: nat, longer: nat)
    requires
        shorter <= longer,
    ensures
        kdf_output(base, shorter) == kdf_output(base, longer).subrange(0, shorter as int),
{
    assert(kdf_output(base, shorter) =~= kdf_output(base, longer).subrange(0, shorter as int));
}

/// `Sha3_256::digest`: the SHA3-256 digest of the input, which is 32 bytes long.
#[verifier::external_body]
fn sha3_256_digest(input: &[u8]) -> (r: Vec<u8>)
    ensures
        r@ == sha3_256(input@),
        r@.len() == DIGEST_LEN,
{
    Sha3_256::digest(input).to_vec()
}

/// The tag of the hash function with the given number.
fn domain_tag_bytes(n: u8) -> (r: Vec<u8>)
    requires
        n <= 5,
    ensures
        r@ == domain_tag(n),
{
    let mut tag: Vec<u8> = Vec::new();
    tag.push(73u8);
    tag.push(66u8);
    tag.push(67u8);
    tag.push(95u8);
    tag.push(65u8);
    tag.push(65u8);
    tag.push(75u8);
    tag.push(65u8);
    tag.push(95u8);
    tag.push(72u8);
    tag.push(48u8 + n);
    assert(tag@ =~= domain_tag(n));
    tag
}

/// Hashes `input` to a scalar.
fn scalar_from_hash(input: &Vec<u8>) -> (r: ScalarField)
    ensures
        r@ == hash_to_scalar(input@),
{
    let digest = sha3_256_digest(input.as_slice());
    ScalarField::from_be_bytes_mod_order(digest.as_slice())
}

/// Derives `len` bytes from `base`: the digest of `base`, then as many
/// digests of `base` with a counter appended as it takes, cut to length.
/// Fails with `HashError` where more than the allowed number of counter
/// blocks would be needed, that is where `len` exceeds `KDF_MAX_LEN`.
pub fn derive_bytes(base: &Vec<u8>, len: usize) -> (r: Result<Vec<u8>, AAKAError>)
    ensures
        len <= KDF_MAX_LEN ==> r is Ok && r->Ok_0@ == kdf_output(base@, len as nat),
        len > KDF_MAX_LEN ==> r is Err && r->Err_0 is HashError,
{
    let mut result = sha3_256_digest(base.as_slice());
    let mut counter: u32 = 0;
    while result.len() < len
        invariant
            counter <= KDF_MAX_EXTENSIONS,
            result@.len() == 32 * (counter + 1),
            forall|i: int|
                0 <= i < result@.len() ==> result@[i] == #[trigger] kdf_block(
                    base@,
                    (i / 32) as nat,
                )[i % 32],
        decreases KDF_MAX_EXTENSIONS + 1 - counter,
    {
        let mut input = base.clone();
        let suffix = u32_be_bytes(counter);
        append_bytes(&mut input, suffix.as_slice());
        let next = sha3_256_digest(input.as_slice());
        let ghost before = result@;
        append_bytes(&mut result, next.as_slice());
        counter += 1;
        assert forall|i: int| 0 <= i < result@.len() implies result@[i] == #[trigger] kdf_block(
            base@,
            (i / 32) as nat,
        )[i % 32] by {
            if i >= before.len() {
                assert(i / 32 == counter as int);
                assert(i % 32 == i - before.len());
                assert(next@ == kdf_block(base@, counter as nat));
            }
        }
        if counter > KDF_MAX_EXTENSIONS {
            return Err(AAKAError::HashError("output generation loop limit reached".to_owned()));
        }
    }
    result.truncate(len);
    assert(result@ =~= kdf_output(base@, len as nat));
    Ok(result)
}

/// H0: hashes a user's identity and the element `R_u` of the user's key to a scalar.
pub fn h0(id_u: &[u8], r_u: &G1Point) -> (r: Result<ScalarField, AAKAError>)
    ensures
        r is Ok,
        r->Ok_0@ == hash_to_scalar(h0_input(id_u@, r_u.encoding())),
{
    let mut input = domain_tag_bytes(0);
    append_bytes(&mut input, id_u);
    append_bytes(&mut input, r_u.to_compressed().as_slice());
    Ok(scalar_from_hash(&input))
}

/// H1: hashes a server's identity to a scalar.
pub fn h1(id_ms: &[u8]) -> (r: Result<ScalarField, AAKAError>)
    ensures
        r is Ok,
        r->Ok_0@ == hash_to_scalar(h1_input(id_ms@)),
{
    let mut input = domain_tag_bytes(1);
    append_bytes(&mut input, id_ms);
    Ok(scalar_from_hash(&input))
}

/// H2: derives from an element of GT the mask that hides the user's
/// identity, `output_len` bytes long. Fails with `HashError` where
/// `output_len` exceeds `KDF_MAX_LEN`.
pub fn h2(g_x: &GtPoint, output_len: usize) -> (r: Result<Vec<u8>, AAKAError>)
    ensures
        output_len <= KDF_MAX_LEN ==> r is Ok && r->Ok_0@ == kdf_output(
            h2_input(g_x.encoding()),
            output_len as nat,
        ),
        output_len > KDF_MAX_LEN ==> r is Err && r->Err_0 is HashError,
{
    let mut input = domain_tag_bytes(2);
    append_bytes(&mut input, g_x.to_compressed().as_slice());
    derive_bytes(&input, output_len)
}

/// H3: hashes what the user signs to a scalar.
pub fn h3(id_u: &[u8], r_u: &G1Point, x_pub: &G1Point, timestamp: u64) -> (r: Result<
    ScalarField,
    AAKAError,
>)
    ensures
        r is Ok,
        r->Ok_0@ == hash_to_scalar(
            h3_input(id_u@, r_u.encoding(), x_pub.encoding(), timestamp),
        ),
{
    let mut input = domain_tag_bytes(3);
    append_bytes(&mut input, id_u);
    append_bytes(&mut input, r_u.to_compressed().as_slice());
    append_bytes(&mut input, x_pub.to_compressed().as_slice());
    append_bytes(&mut input, u64_be_bytes(timestamp).as_slice());
    Ok(scalar_from_hash(&input))
}

/// H4: hashes what the server authenticates to a scalar.
pub fn h4(id_u: &[u8], id_ms: &[u8], x_pub: &G1Point, y_pub: &G1Point, timestamp: u64) -> (r:
    Result<ScalarField, AAKAError>)
    ensures
        r is Ok,
        r->Ok_0@ == hash_to_scalar(
            h4_input(id_u@, id_ms@, x_pub.encoding(), y_pub.encoding(), timestamp),
        ),
{
    let mut input = domain_tag_bytes(4);
    append_bytes(&mut input, id_u);
    append_bytes(&mut input, id_ms);
    append_bytes(&mut input, x_pub.to_compressed().as_slice());
    append_bytes(&mut input, y_pub.to_compressed().as_slice());
    append_bytes(&mut input, u64_be_bytes(timestamp).as_slice());
    Ok(scalar_from_hash(&input))
}

/// H5: derives the session key, `key_len_bytes` bytes long, from the shared
/// element `K`, the two identities and the two ephemeral elements. Fails
/// with `HashError` where `key_len_bytes` exceeds `KDF_MAX_LEN`.
pub fn h5(
    k: &G1Point,
    id_u: &[u8],
    id_ms: &[u8],
    x_pub: &G1Point,
    y_pub: &G1Point,
    key_len_bytes: usize,
) -> (r: Result<Vec<u8>, AAKAError>)
    ensures
        key_len_bytes <= KDF_MAX_LEN ==> r is Ok && r->Ok_0@ == kdf_output(
            h5_input(k.encoding(), id_u@, id_ms@, x_pub.encoding(), y_pub.encoding()),
            key_len_bytes as nat,
        ),
        key_len_bytes > KDF_MAX_LEN ==> r is Err && r->Err_0 is HashError,
{
    let mut input = domain_tag_bytes(5);
    append_bytes(&mut input, k.to_compressed().as_slice());
    append_bytes(&mut input, id_u);
    append_bytes(&mut input, id_ms);
    append_bytes(&mut input, x_pub.to_compressed().as_slice());
    append_bytes(&mut input, y_pub.to_compressed().as_slice());
    derive_bytes(&input, key_len_bytes)
}

} // verus!
