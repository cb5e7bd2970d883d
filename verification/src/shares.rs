//! The master secret in shares: the registration center splits it among its
//! nodes, so that no node holds it whole, and puts it together again from
//! as many shares as the threshold asks for.
//!
//! The sharing is Shamir's, byte by byte, over the field of 256 elements.

use vstd::prelude::*;
use blahaj::Sharks;
use crate::bytes::{
    append_bytes, le_bytes, le_value, lemma_le_bytes_len, lemma_le_bytes_of_value,
    lemma_le_value_of_bytes, pow256, slice_bytes,
};
use crate::error::AAKAError;
use crate::field::{scalar_modulus, ScalarField, SCALAR_LEN};
use crate::types::MasterSecretKey;

verus! {

/// Bytes in the encoding of a master secret: two scalars.
pub const MASTER_KEY_LEN: usize = 64;

/// The most shares that one secret can be split into: one for each
/// element of the field but zero.
pub const MAX_SHARES: usize = 255;

/// One share of a secret: the point `x` of the field at which the sharing
/// polynomials were evaluated, and in `y` their values there, one for each
/// byte of the secret.
#[derive(Debug, Clone, PartialEq, Eq)]
pub struct Share {
    pub x: u8,
    pub y: Vec<u8>,
}

impl View for Share {
    type V = (u8, Seq<u8>);

    open spec fn view(&self) -> (u8, Seq<u8>) {
        (self.x, self.y@)
    }
}

/// The shares of a list, each as its point and its values.
pub open spec fn share_views(shares: Seq<Share>) -> Seq<(u8, Seq<u8>)> {
    shares.map_values(|s: Share| s@)
}

/// The points of the shares of a list.
pub open spec fn share_points(shares: Seq<(u8, Seq<u8>)>) -> Seq<u8> {
    shares.map_values(|s: (u8, Seq<u8>)| s.0)
}

/// What interpolating the shares at zero gives, byte by byte.
pub uninterp spec fn shamir_interpolation(shares: Seq<(u8, Seq<u8>)>) -> Seq<u8>;

/// All shares of the list hold as many values as the first.
pub open spec fn uniform_length(shares: Seq<(u8, Seq<u8>)>) -> bool {
    forall|i: int| 0 <= i < shares.len() ==> (#[trigger] shares[i]).1.len() == shares[0].1.len()
}

/// The list is one that a secret can be recovered from: it is not empty,
/// its shares are of one length, and they lie at no fewer distinct points
/// than the threshold.
pub open spec fn recoverable(shares: Seq<(u8, Seq<u8>)>, threshold: u8) -> bool {
    &&& shares.len() > 0
    &&& uniform_length(shares)
    &&& share_points(shares).to_set().len() >= threshold
}

/// Every share of `picked` is one of `dealt`.
pub open spec fn picked_from(picked: Seq<(u8, Seq<u8>)>, dealt: Seq<(u8, Seq<u8>)>) -> bool {
    forall|i: int| 0 <= i < picked.len() ==> dealt.contains(#[trigger] picked[i])
}

/// `shares` is a dealing of `secret` with the given threshold: the shares
/// lie at the points 1, 2, 3 and so on, each holds one value for each byte
/// of the secret, and any selection of them without repetition that is not
/// empty and no smaller than the threshold interpolates to the secret.
pub open spec fn is_dealing(shares: Seq<(u8, Seq<u8>)>, threshold: u8, secret: Seq<u8>) -> bool {
    &&& forall|i: int|
        0 <= i < shares.len() ==> (#[trigger] shares[i]).0 == i + 1 && shares[i].1.len()
            == secret.len()
    &&& forall|picked: Seq<(u8, Seq<u8>)>|
        picked.len() >= 1 && picked.len() >= threshold && share_points(picked).no_duplicates()
            && picked_from(picked, shares) ==> #[trigger] shamir_interpolation(picked) == secret
}

/// `bytes` is the encoding of a master secret: two scalars of 32 bytes,
/// each below the group order.
pub open spec fn is_master_key_encoding(bytes: Seq<u8>) -> bool {
    &&& bytes.len() == MASTER_KEY_LEN
    &&& le_value(bytes.subrange(0, 32)) < scalar_modulus()
    &&& le_value(bytes.subrange(32, 64)) < scalar_modulus()
}

/// The list is one that a master secret can be put together from with the
/// given threshold: its shares hold 64 values each, it can be recovered
/// from, and what it interpolates to is the encoding of a master secret.
pub open spec fn reconstructs(shares: Seq<(u8, Seq<u8>)>, threshold: u8) -> bool {
    &&& forall|i: int| 0 <= i < shares.len() ==> (#[trigger] shares[i]).1.len() == MASTER_KEY_LEN
    &&& recoverable(shares, threshold)
    &&& is_master_key_encoding(shamir_interpolation(shares))
}

/// What a peer gave when it was asked for its share.
#[derive(Debug, Clone)]
pub enum PeerAnswer {
    /// The peer could not be reached.
    Unreachable,
    /// The peer answered, but with no share.
    Refused,
    /// The peer answered with these bytes.
    Body(Vec<u8>),
}

/// Takes one peer's answer into the shares gathered so far, and tells
/// whether to go on to the next peer. A peer that cannot be reached ends
/// the gathering. A peer that refuses, or whose bytes are no share, is
/// passed over. A share is added behind those gathered before it.
pub fn take_peer_answer(gathered: &mut Vec<Share>, answer: &PeerAnswer) -> (go_on: bool)
    ensures
        answer is Unreachable ==> !go_on && final(gathered)@ == old(gathered)@,
        answer is Refused ==> go_on && final(gathered)@ == old(gathered)@,
        answer is Body ==> go_on && share_views(final(gathered)@) == (if answer->Body_0@.len()
            >= 2 {
            share_views(old(gathered)@).push(
                (answer->Body_0@[0], answer->Body_0@.subrange(1, answer->Body_0@.len() as int)),
            )
        } else {
            share_views(old(gathered)@)
        }),
        answer is Body && answer->Body_0@.len() < 2 ==> final(gathered)@ == old(gathered)@,
{
    match answer {
        PeerAnswer::Unreachable => false,
        PeerAnswer::Refused => true,
        PeerAnswer::Body(bytes) => {
            match Share::from_bytes(bytes.as_slice()) {
                Ok(share) => {
                    gathered.push(share);
                    assert(share_views(gathered@) =~= share_views(old(gathered)@).push(share@));
                },
                Err(_) => {},
            }
            true
        },
    }
}

impl Share {
    /// The share as bytes: its point, then its values.
    pub fn to_bytes(&self) -> (r: Vec<u8>)
        ensures
            r@ == seq![self.x] + self.y@,
    {
        let mut out: Vec<u8> = Vec::new();
        out.push(self.x);
        append_bytes(&mut out, self.y.as_slice());
        out
    }

    /// Reads a share from bytes: its point, then its values, of which
    /// there is at least one. Fails with `InvalidInput` on fewer than two bytes.
    pub fn from_bytes(bytes: &[u8]) -> (r: Result<Share, AAKAError>)
        ensures
            bytes@.len() >= 2 ==> r is Ok && r->Ok_0.x == bytes@[0] && r->Ok_0.y@
                == bytes@.subrange(1, bytes@.len() as int),
            bytes@.len() < 2 ==> r is Err && r->Err_0 is InvalidInput,
    {
        if bytes.len() < 2 {
            return Err(
                AAKAError::InvalidInput("A Share must be at least 2 bytes long".to_owned()),
            );
        }
        Ok(Share { x: bytes[0], y: slice_bytes(bytes, 1, bytes.len()) })
    }
}

impl MasterSecretKey {
    /// The encoding of the master secret: the 32 little-endian bytes of `s`,
    /// then those of `ŝ`.
    pub open spec fn encoding(self) -> Seq<u8> {
        le_bytes(self.s@, 32) + le_bytes(self.s_hat@, 32)
    }

    /// The encoding of the master secret.
    pub fn to_bytes(&self) -> (r: Vec<u8>)
        ensures
            r@ == self.encoding(),
            r@.len() == MASTER_KEY_LEN,
    {
        let mut out = self.s.to_le_bytes();
        append_bytes(&mut out, self.s_hat.to_le_bytes().as_slice());
        proof {
            lemma_le_bytes_len(self.s@, 32);
            lemma_le_bytes_len(self.s_hat@, 32);
        }
        out
    }

    /// Reads a master secret from its encoding. There is none where the
    /// bytes are not 64, or one of the halves stands for a number that is
    /// not below the group order.
    pub fn from_bytes(bytes: &[u8]) -> (r: Option<MasterSecretKey>)
        ensures
            r is Some <==> is_master_key_encoding(bytes@),
            r is Some ==> r->Some_0.encoding() == bytes@,
    {
        if bytes.len() != MASTER_KEY_LEN {
            return None;
        }
        let low = slice_bytes(bytes, 0, SCALAR_LEN);
        let high = slice_bytes(bytes, SCALAR_LEN, MASTER_KEY_LEN);
        let s = match ScalarField::from_le_bytes(low.as_slice()) {
            Some(s) => s,
            None => { return None; },
        };
        let s_hat = match ScalarField::from_le_bytes(high.as_slice()) {
            Some(s) => s,
            None => { return None; },
        };
        proof {
            lemma_le_bytes_of_value(low@);
            lemma_le_bytes_of_value(high@);
            assert(bytes@ =~= low@ + high@);
        }
        Some(MasterSecretKey { s, s_hat })
    }

    /// A master secret is known by its encoding.
    pub proof fn lemma_encoding_injective(self, other: MasterSecretKey)
        requires
            self.s.inv(),
            self.s_hat.inv(),
            other.s.inv(),
            other.s_hat.inv(),
            self.encoding() == other.encoding(),
        ensures
            self == other,
    {
        self.lemma_halves();
        other.lemma_halves();
        self.s.lemma_view_injective(other.s);
        self.s_hat.lemma_view_injective(other.s_hat);
    }

    /// The two halves of the encoding stand for the two scalars.
    pub proof fn lemma_halves(self)
        requires
            self.s.inv(),
            self.s_hat.inv(),
        ensures
            self.encoding().len() == MASTER_KEY_LEN,
            le_value(self.encoding().subrange(0, 32)) == self.s@,
            le_value(self.encoding().subrange(32, 64)) == self.s_hat@,
            is_master_key_encoding(self.encoding()),
    {
        lemma_le_bytes_len(self.s@, 32);
        lemma_le_bytes_len(self.s_hat@, 32);
        assert(self.encoding().subrange(0, 32) =~= le_bytes(self.s@, 32));
        assert(self.encoding().subrange(32, 64) =~= le_bytes(self.s_hat@, 32));
        lemma_modulus_fits();
        lemma_le_value_of_bytes(self.s@, 32);
        lemma_le_value_of_bytes(self.s_hat@, 32);
    }

    /// Splits the master secret into shares, `n` of them and at most
    /// `MAX_SHARES`, of which it takes `threshold` to put it together again.
    /// Of `threshold` only the lowest eight bits count.
    pub fn into_shares(self, threshold: usize, n: usize) -> (r: Vec<Share>)
        ensures
            r@.len() == if n <= MAX_SHARES { n } else { MAX_SHARES },
            is_dealing(share_views(r@), (threshold % 256) as u8, self.encoding()),
    {
        let count = if n <= MAX_SHARES { n } else { MAX_SHARES };
        let msk_bytes = self.to_bytes();
        sharks_deal((threshold % 256) as u8, msk_bytes.as_slice(), count)
    }

    /// Puts the master secret together from shares. Fails with
    /// `InvalidInput` unless every share holds 64 values, the shares lie at
    /// no fewer distinct points than the threshold, and what they
    /// interpolate to is the encoding of a master secret. Of `threshold`
    /// only the lowest eight bits count.
    pub fn from_shares(shares: Vec<Share>, threshold: usize) -> (r: Result<
        MasterSecretKey,
        AAKAError,
    >)
        ensures
            r is Ok <==> reconstructs(share_views(shares@), (threshold % 256) as u8),
            r is Ok ==> r->Ok_0.encoding() == shamir_interpolation(share_views(shares@)),
            r is Err ==> r->Err_0 is InvalidInput,
    {
        let ghost views = share_views(shares@);
        let mut i: usize = 0;
        while i < shares.len()
            invariant
                i <= shares.len(),
                views == share_views(shares@),
                forall|j: int| 0 <= j < i ==> (#[trigger] views[j]).1.len() == MASTER_KEY_LEN,
            decreases shares.len() - i,
        {
            if shares[i].y.len() != MASTER_KEY_LEN {
                assert(views[i as int].1.len() != MASTER_KEY_LEN);
                return Err(
                    AAKAError::InvalidInput("a share of a master key holds 64 values".to_owned()),
                );
            }
            i += 1;
        }
        assert forall|j: int| 0 <= j < shares.len() implies (#[trigger] shares[j]).y.len()
            >= 1 by {
            assert(views[j].1.len() == MASTER_KEY_LEN);
        }
        let recovered = match sharks_recover((threshold % 256) as u8, &shares) {
            Some(bytes) => bytes,
            None => {
                return Err(
                    AAKAError::InvalidInput(
                        "Not enough shares to recover the secret".to_owned(),
                    ),
                );
            },
        };
        match MasterSecretKey::from_bytes(recovered.as_slice()) {
            Some(msk) => Ok(msk),
            None => Err(
                AAKAError::InvalidInput("MasterSecretKey should be [u8; 64]".to_owned()),
            ),
        }
    }
}

/// The group order has no more than 32 bytes.
pub proof fn lemma_modulus_fits()
    ensures
        scalar_modulus() < pow256(32),
{
    crate::bytes::lemma_pow256_8();
    crate::bytes::lemma_pow256_add(8, 8);
    crate::bytes::lemma_pow256_add(16, 16);
    let b: nat = 0x1_0000_0000_0000_0000nat;
    assert(pow256(16) == b * b);
    assert(b * b == 0x1_0000_0000_0000_0000_0000_0000_0000_0000nat) by (nonlinear_arith)
        requires
            b == 0x1_0000_0000_0000_0000nat,
    ;
    let c: nat = 0x1_0000_0000_0000_0000_0000_0000_0000_0000nat;
    assert(pow256(32) == c * c);
    assert(c * c
        == 0x1_0000_0000_0000_0000_0000_0000_0000_0000_0000_0000_0000_0000_0000_0000_0000_0000nat)
        by (nonlinear_arith)
        requires
            c == 0x1_0000_0000_0000_0000_0000_0000_0000_0000nat,
    ;
}

/// `Sharks::dealer`, and `take` on what it returns: deals the first
/// `count` shares of `secret`, at the points 1, 2, 3 and so on, from
/// polynomials whose other coefficients are drawn at random. Whatever is
/// drawn, the shares at any `threshold` distinct points, or more,
/// interpolate to the secret; nothing else is promised of their values.
#[verifier::external_body]
fn sharks_deal(threshold: u8, secret: &[u8], count: usize) -> (r: Vec<Share>)
    requires
        count <= MAX_SHARES,
    ensures
        r@.len() == count,
        is_dealing(share_views(r@), threshold, secret@),
{
    Sharks(threshold).dealer(secret).take(count).map(
        |s| {
            let bytes = Vec::from(&s);
            Share { x: bytes[0], y: bytes[1..].to_vec() }
        },
    ).collect()
}

/// `Sharks::recover`: nothing unless the list is not empty, its shares are
/// of one length, and they lie at no fewer distinct points than the
/// threshold; else the interpolation of the shares at zero, which has one
/// byte for each value of the first share.
#[verifier::external_body]
fn sharks_recover(threshold: u8, shares: &Vec<Share>) -> (r: Option<Vec<u8>>)
    requires
        forall|i: int| 0 <= i < shares@.len() ==> (#[trigger] shares@[i]).y@.len() >= 1,
    ensures
        r is Some <==> recoverable(share_views(shares@), threshold),
        r is Some ==> r->Some_0@ == shamir_interpolation(share_views(shares@)),
        r is Some ==> r->Some_0@.len() == shares@[0].y@.len(),
{
    let list: Vec<blahaj::Share> = shares.iter().map(
        |s| {
            let mut bytes = vec![s.x];
            bytes.extend_from_slice(s.y.as_slice());
            blahaj::Share::try_from(bytes.as_slice()).unwrap()
        },
    ).collect();
    Sharks(threshold).recover(&list).ok()
}

} // verus!
