//! The registration center: it mints the public parameters and the master
//! secret, and from the master secret the keys of users and servers.

use vstd::prelude::*;
use rand::rngs::StdRng;
use crate::curve::{group_add, group_scale, pairing, pairing_log, G1Point, G2Point};
use crate::error::AAKAError;
use crate::field::{fr_add, fr_is_inverse, fr_mul, scalar_modulus, ScalarField};
use crate::hash_utils::{h0, h0_input, h1, h1_input, hash_to_scalar};
use crate::types::{MasterSecretKey, ServerSecretKey, SystemParameters, UserSecretKey};

verus! {

/// The parameters are those of the master secret: `P` is the generator of
/// G1, `P_pub = s·P`, `P_pub_hat = ŝ·P`, and `g` is the pairing of the
/// generators of G1 and G2.
pub open spec fn params_of(params: SystemParameters, msk: MasterSecretKey) -> bool {
    &&& params.p@ == 1
    &&& params.p_pub@ == group_scale(params.p@, msk.s@)
    &&& params.p_pub_hat@ == group_scale(params.p@, msk.s_hat@)
    &&& params.g@ == pairing_log(1, 1)
}

/// The scalar that H0 gives for a user's identity and the element `R_u`.
pub open spec fn user_hash(id_u: Seq<u8>, r_u: G1Point) -> nat {
    hash_to_scalar(h0_input(id_u, r_u.encoding()))
}

/// The key is the one that the master secret gives the user `id_u` when
/// the random scalar is `r`: `R_u = r·P` and `SID_u = r + s·H0(id_u ‖ R_u)`.
pub open spec fn user_key_of(usk: UserSecretKey, msk: MasterSecretKey, id_u: Seq<u8>, r: nat) -> bool {
    &&& usk.r_u@ == group_scale(1, r)
    &&& usk.sid_u@ == fr_add(r, fr_mul(msk.s@, user_hash(id_u, usk.r_u)))
}

/// The scalar `ŝ + H1(id_ms)` whose inverse makes the key of the server `id_ms`.
pub open spec fn server_denominator(msk: MasterSecretKey, id_ms: Seq<u8>) -> nat {
    fr_add(msk.s_hat@, hash_to_scalar(h1_input(id_ms)))
}

/// The key is the one that the master secret gives the server `id_ms`:
/// `SID_ms = (ŝ + H1(id_ms))⁻¹·P₂`.
pub open spec fn server_key_of(ssk: ServerSecretKey, msk: MasterSecretKey, id_ms: Seq<u8>) -> bool {
    fr_is_inverse(server_denominator(msk, id_ms), ssk.sid_ms@)
}

/// Sets the system up from the two scalars of the master secret. Fails with
/// `CryptoError` where one of them is zero.
pub fn setup_from(s: ScalarField, s_hat: ScalarField) -> (r: Result<
    (SystemParameters, MasterSecretKey),
    AAKAError,
>)
    ensures
        (s@ == 0 || s_hat@ == 0) ==> r is Err && r->Err_0 is CryptoError,
        (s@ != 0 && s_hat@ != 0) ==> r is Ok && r->Ok_0.1 == (MasterSecretKey { s, s_hat })
            && params_of(r->Ok_0.0, r->Ok_0.1),
{
    if s.is_zero() || s_hat.is_zero() {
        return Err(
            AAKAError::CryptoError("Master secret key generation resulted in zero".to_owned()),
        );
    }
    let msk = MasterSecretKey { s, s_hat };
    let p1_gen = G1Point::generator();
    let p_pub = p1_gen.mul(&s);
    let p_pub_hat = p1_gen.mul(&s_hat);
    let p2_gen = G2Point::generator();
    let g = pairing(&p1_gen, &p2_gen);
    let params = SystemParameters { p: p1_gen, p_pub, p_pub_hat, g };
    Ok((params, msk))
}

/// Sets the system up: draws the two scalars of the master secret and
/// derives the public parameters from them. Fails with `CryptoError` where
/// a scalar drawn is zero.
pub fn setup(rng: &mut StdRng) -> (r: Result<(SystemParameters, MasterSecretKey), AAKAError>)
    ensures
        match r {
            Ok((params, msk)) => msk.s@ != 0 && msk.s_hat@ != 0 && params_of(params, msk),
            Err(e) => e is CryptoError,
        },
{
    let s = ScalarField::random(rng);
    let s_hat = ScalarField::random(rng);
    setup_from(s, s_hat)
}

/// Makes the key of the user `id_u` from the random scalar `r`. Fails with
/// `CryptoError` where `r` is zero.
pub fn register_user_from(msk: &MasterSecretKey, id_u: &[u8], r: ScalarField) -> (res: Result<
    UserSecretKey,
    AAKAError,
>)
    ensures
        r@ == 0 ==> res is Err && res->Err_0 is CryptoError,
        r@ != 0 ==> res is Ok && user_key_of(res->Ok_0, *msk, id_u@, r@),
{
    if r.is_zero() {
        return Err(
            AAKAError::CryptoError("User registration random scalar ru is zero".to_owned()),
        );
    }
    let generator_p = G1Point::generator();
    let r_u_point = generator_p.mul(&r);
    let h_u = match h0(id_u, &r_u_point) {
        Ok(h) => h,
        Err(e) => { return Err(e); },
    };
    let s_mul_h_u = msk.s.mul(&h_u);
    let sid_u = r.add(&s_mul_h_u);
    Ok(UserSecretKey { r_u: r_u_point, sid_u })
}

/// Registers the user `id_u`: draws a random scalar and makes the user's
/// key from it. Fails with `CryptoError` where the scalar drawn is zero.
pub fn register_user(msk: &MasterSecretKey, id_u: &[u8], rng: &mut StdRng) -> (res: Result<
    UserSecretKey,
    AAKAError,
>)
    ensures
        match res {
            Ok(usk) => exists|r: nat| 0 < r < scalar_modulus() && user_key_of(usk, *msk, id_u@, r),
            Err(e) => e is CryptoError,
        },
{
    let r = ScalarField::random(rng);
    register_user_from(msk, id_u, r)
}

/// Registers the server `id_ms`: its key is the generator of G2 times the
/// inverse of `ŝ + H1(id_ms)`. Fails with `CryptoError` where that sum is zero.
pub fn register_server(msk: &MasterSecretKey, id_ms: &[u8]) -> (res: Result<
    ServerSecretKey,
    AAKAError,
>)
    ensures
        server_denominator(*msk, id_ms@) == 0 ==> res is Err && res->Err_0 is CryptoError,
        server_denominator(*msk, id_ms@) != 0 ==> res is Ok && server_key_of(
            res->Ok_0,
            *msk,
            id_ms@,
        ),
{
    let h_ms = match h1(id_ms) {
        Ok(h) => h,
        Err(e) => { return Err(e); },
    };
    let denominator = msk.s_hat.add(&h_ms);
    if denominator.is_zero() {
        return Err(
            AAKAError::CryptoError(
                "Denominator (s_hat + h_ms) is zero during server registration".to_owned(),
            ),
        );
    }
    let inv_denominator = match denominator.inverse() {
        Some(inv) => inv,
        None => {
            return Err(
                AAKAError::CryptoError(
                    "Failed to compute modular inverse for server key".to_owned(),
                ),
            );
        },
    };
    let generator_p2 = G2Point::generator();
    let sid_ms_point = generator_p2.mul(&inv_denominator);
    proof {
        use_type_invariant(&inv_denominator);
        vstd::arithmetic::div_mod::lemma_small_mod(inv_denominator@, scalar_modulus());
        assert(1 * inv_denominator@ == inv_denominator@);
    }
    Ok(ServerSecretKey { sid_ms: sid_ms_point })
}

} // verus!
