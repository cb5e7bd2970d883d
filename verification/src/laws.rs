//! What holds of the scheme as a whole: the equations that tie the keys to
//! the master secret, and the agreement of the two sides of an honest
//! exchange.

use vstd::prelude::*;
use crate::bytes::{lemma_xor_twice, xor_seq};
use crate::curve::{
    g1_compressed, g1_decode, group_add, group_scale, gt_compressed, pairing_log,
    G1_COMPRESSED_LEN,
};
use crate::field::{
    congruent, fr_add, fr_is_inverse, fr_mul, lemma_congruent_product,
    lemma_congruent_reduced, lemma_congruent_sum, scalar_modulus,
};
use crate::hash_utils::{h1_input, h3_input, hash_to_scalar, KDF_MAX_LEN};
use crate::rc::{params_of, server_denominator, server_key_of, user_hash, user_key_of};
use crate::server::{
    claimed_id, claimed_r_u, claimed_x, request_signed, responded, server_shared_point,
    signature_holds, unmasked, unmasked_payload, verification_point, AuthenticatedUser,
};
use crate::shares::{
    is_dealing, picked_from, reconstructs, shamir_interpolation, share_points, MASTER_KEY_LEN,
};
use crate::types::{
    MasterSecretKey, ServerAuthResponse, ServerSecretKey, SessionKey, SystemParameters,
    UserAuthRequest, UserSecretKey, UserState,
};
use crate::user::{
    carrier_of, expected_authenticator, initiated, mask_of, payload_of, user_session_key,
    user_shared_point,
};

verus! {

/// A user's key verifies against the public parameters:
/// `SID_u·P = R_u + H0(id_u ‖ R_u)·P_pub`.
pub proof fn lemma_user_key_equation(
    params: SystemParameters,
    msk: MasterSecretKey,
    usk: UserSecretKey,
    id_u: Seq<u8>,
    r: nat,
)
    requires
        params_of(params, msk),
        user_key_of(usk, msk, id_u, r),
    ensures
        group_scale(params.p@, usk.sid_u@) == group_add(
            usk.r_u@,
            group_scale(params.p_pub@, user_hash(id_u, usk.r_u)),
        ),
{
    let q = scalar_modulus() as int;
    let r = r as int;
    let s = msk.s@ as int;
    let h = user_hash(id_u, usk.r_u) as int;
    let sid = usk.sid_u@ as int;
    let big_r = usk.r_u@ as int;
    let p_pub = params.p_pub@ as int;
    // SID_u = r + s·h
    lemma_congruent_reduced(s * h);
    lemma_congruent_sum(r, r, (s * h) % q, s * h);
    lemma_congruent_reduced(r + (s * h) % q);
    assert(congruent(sid, r + s * h));
    // R_u = r and P_pub = s
    lemma_congruent_reduced(1 * r);
    lemma_congruent_reduced(1 * s);
    assert(congruent(big_r, r));
    assert(congruent(p_pub, s));
    lemma_congruent_product(p_pub, s, h, h);
    lemma_congruent_reduced(p_pub * h);
    lemma_congruent_sum(big_r, r, (p_pub * h) % q, s * h);
    assert(congruent(big_r + (p_pub * h) % q, sid));
    assert(1 * sid == sid);
}

/// A server's key verifies against the master secret:
/// `(ŝ + H1(id_ms))·SID_ms = P₂`, the generator of G2.
pub proof fn lemma_server_key_equation(
    msk: MasterSecretKey,
    ssk: ServerSecretKey,
    id_ms: Seq<u8>,
)
    requires
        server_key_of(ssk, msk, id_ms),
    ensures
        group_scale(ssk.sid_ms@, server_denominator(msk, id_ms)) == 1,
{
    let d = server_denominator(msk, id_ms);
    assert(ssk.sid_ms@ * d == d * ssk.sid_ms@) by (nonlinear_arith);
}

/// The honest run of the scheme up to the user's request: the parameters
/// and both keys come from one master secret, and the request is the one
/// that the user makes for this server from the ephemeral secret `x`.
pub open spec fn honest_request(
    params: SystemParameters,
    msk: MasterSecretKey,
    usk: UserSecretKey,
    ssk: ServerSecretKey,
    id_u: Seq<u8>,
    id_ms: Seq<u8>,
    r: nat,
    x: nat,
    t_u: u64,
    request: UserAuthRequest,
    state: UserState,
) -> bool {
    &&& usk.r_u.inv()
    &&& state.temp_x_pub.inv()
    &&& x < scalar_modulus()
    &&& params_of(params, msk)
    &&& user_key_of(usk, msk, id_u, r)
    &&& server_key_of(ssk, msk, id_ms)
    &&& initiated(request, state, usk, id_u, id_ms, params, x, t_u)
}

/// The server recovers from `M` the element of GT that the user masked
/// with: `e(M, SID_ms) = g^x`.
pub proof fn lemma_mask_recovered(
    params: SystemParameters,
    msk: MasterSecretKey,
    ssk: ServerSecretKey,
    id_ms: Seq<u8>,
    x: nat,
)
    requires
        x < scalar_modulus(),
        params_of(params, msk),
        server_key_of(ssk, msk, id_ms),
    ensures
        pairing_log(carrier_of(params, id_ms, x), ssk.sid_ms@) == group_scale(params.g@, x),
{
    let q = scalar_modulus() as int;
    let x = x as int;
    let s_hat = msk.s_hat@ as int;
    let h = hash_to_scalar(h1_input(id_ms)) as int;
    let d = server_denominator(msk, id_ms) as int;
    let sid = ssk.sid_ms@ as int;
    let p_hat = params.p_pub_hat@ as int;
    let hp = group_scale(params.p@, h as nat) as int;
    let inner = group_add(p_hat as nat, hp as nat) as int;
    let m = carrier_of(params, id_ms, x as nat) as int;
    // P_pub_hat + H1·P = (ŝ + H1)·P
    lemma_congruent_reduced(1 * s_hat);
    lemma_congruent_reduced(1 * h);
    lemma_congruent_sum(p_hat, s_hat, hp, h);
    lemma_congruent_reduced(p_hat + hp);
    lemma_congruent_reduced(s_hat + h);
    assert(congruent(inner, d));
    // M = x·(ŝ + H1)·P
    lemma_congruent_product(inner, d, x, x);
    lemma_congruent_reduced(inner * x);
    assert(congruent(m, d * x));
    // e(M, SID_ms) = g^(x·d·d⁻¹) = g^x
    lemma_congruent_product(m, d * x, sid, sid);
    assert((d * x) * sid == x * (d * sid)) by (nonlinear_arith);
    lemma_congruent_product(x, x, d * sid, 1);
    assert(x * 1 == 1 * x);
    assert(params.g@ == 1) by {
        vstd::arithmetic::div_mod::lemma_small_mod(1, scalar_modulus());
    }
}

/// Where a request is made for the server `other_id`, what the server
/// `id_ms` recovers from `M` is the generator of GT to the power
/// `x·(ŝ + H1(other_id))·(ŝ + H1(id_ms))⁻¹`.
pub proof fn lemma_mask_for_another_server(
    params: SystemParameters,
    msk: MasterSecretKey,
    ssk: ServerSecretKey,
    id_ms: Seq<u8>,
    other_id: Seq<u8>,
    x: nat,
)
    requires
        params_of(params, msk),
        server_key_of(ssk, msk, id_ms),
    ensures
        pairing_log(carrier_of(params, other_id, x), ssk.sid_ms@) == fr_mul(
            fr_mul(x, server_denominator(msk, other_id)),
            ssk.sid_ms@,
        ),
{
    let q = scalar_modulus() as int;
    let x = x as int;
    let s_hat = msk.s_hat@ as int;
    let h = hash_to_scalar(h1_input(other_id)) as int;
    let d = server_denominator(msk, other_id) as int;
    let sid = ssk.sid_ms@ as int;
    let p_hat = params.p_pub_hat@ as int;
    let hp = group_scale(params.p@, h as nat) as int;
    let inner = group_add(p_hat as nat, hp as nat) as int;
    let m = carrier_of(params, other_id, x as nat) as int;
    lemma_congruent_reduced(1 * s_hat);
    lemma_congruent_reduced(1 * h);
    lemma_congruent_sum(p_hat, s_hat, hp, h);
    lemma_congruent_reduced(p_hat + hp);
    lemma_congruent_reduced(s_hat + h);
    assert(congruent(inner, d));
    lemma_congruent_product(inner, d, x, x);
    lemma_congruent_reduced(inner * x);
    assert(d * x == x * d) by (nonlinear_arith);
    lemma_congruent_reduced(x * d);
    assert(congruent(m, (x * d) % q));
    lemma_congruent_product(m, (x * d) % q, sid, sid);
}

/// The server finds under the mask of an honest request what the user put
/// there, and the signature of the request fits it.
pub proof fn lemma_honest_request_verifies(
    params: SystemParameters,
    msk: MasterSecretKey,
    usk: UserSecretKey,
    ssk: ServerSecretKey,
    id_u: Seq<u8>,
    id_ms: Seq<u8>,
    r: nat,
    x: nat,
    t_u: u64,
    request: UserAuthRequest,
    state: UserState,
)
    requires
        honest_request(params, msk, usk, ssk, id_u, id_ms, r, x, t_u, request, state),
    ensures
        unmasked_payload(ssk, request) == payload_of(
            id_u,
            usk.r_u.encoding(),
            state.temp_x_pub.encoding(),
        ),
        claimed_id(unmasked_payload(ssk, request)) == id_u,
        claimed_r_u(unmasked_payload(ssk, request)) == Some(usk.r_u@),
        claimed_x(unmasked_payload(ssk, request)) == Some(state.temp_x_pub@),
        request_signed(ssk, request, params),
{
    let q = scalar_modulus() as int;
    let r_enc = usk.r_u.encoding();
    let x_enc = state.temp_x_pub.encoding();
    let payload = payload_of(id_u, r_enc, x_enc);
    usk.r_u.lemma_encoding();
    state.temp_x_pub.lemma_encoding();

    // The mask is the user's, so taking it off gives the payload back.
    lemma_mask_recovered(params, msk, ssk, id_ms, x);
    let mask = mask_of(gt_compressed(group_scale(params.g@, x)), payload.len());
    assert(request.n@.len() == payload.len());
    lemma_xor_twice(mask, payload);
    let found = unmasked_payload(ssk, request);
    assert(found == payload);

    // The payload falls apart into the identity and the two encodings.
    assert(claimed_id(found) =~= id_u);
    assert(found.subrange(found.len() - 2 * G1_COMPRESSED_LEN, found.len() - G1_COMPRESSED_LEN)
        =~= r_enc);
    assert(found.subrange(found.len() - G1_COMPRESSED_LEN, found.len() as int) =~= x_enc);

    // The signature: σ·P = (SID_u + x·h3)·P = W + h3·X.
    lemma_user_key_equation(params, msk, usk, id_u, r);
    let big_x = state.temp_x_pub@ as int;
    let c = hash_to_scalar(h3_input(id_u, r_enc, x_enc, t_u)) as int;
    let sid = usk.sid_u@ as int;
    let w = verification_point(params, id_u, usk.r_u@) as int;
    let sigma = request.sigma@ as int;
    let xi = x as int;
    assert(1 * sid == sid);
    lemma_congruent_reduced(sid);
    assert(congruent(w, sid));
    lemma_congruent_reduced(1 * xi);
    assert(congruent(big_x, xi));
    lemma_congruent_product(big_x, xi, c, c);
    lemma_congruent_reduced(big_x * c);
    lemma_congruent_reduced(xi * c);
    lemma_congruent_sum(w, sid, (big_x * c) % q, (xi * c) % q);
    lemma_congruent_reduced(sid + (xi * c) % q);
    assert(congruent(w + (big_x * c) % q, sigma));
    assert(1 * sigma == sigma);
    assert(signature_holds(params, request.sigma@, id_u, usk.r_u@, state.temp_x_pub@, t_u));
}

/// A request whose `σ` differs from the honest one is not signed: the
/// server rejects it.
pub proof fn lemma_tampered_signature_fails(
    params: SystemParameters,
    msk: MasterSecretKey,
    usk: UserSecretKey,
    ssk: ServerSecretKey,
    id_u: Seq<u8>,
    id_ms: Seq<u8>,
    r: nat,
    x: nat,
    t_u: u64,
    request: UserAuthRequest,
    state: UserState,
    forged: UserAuthRequest,
)
    requires
        honest_request(params, msk, usk, ssk, id_u, id_ms, r, x, t_u, request, state),
        request.sigma.inv(),
        forged.sigma.inv(),
        forged.m@ == request.m@,
        forged.n@ == request.n@,
        forged.timestamp == request.timestamp,
        forged.sigma@ != request.sigma@,
    ensures
        !request_signed(ssk, forged, params),
{
    lemma_honest_request_verifies(params, msk, usk, ssk, id_u, id_ms, r, x, t_u, request, state);
    assert(unmasked_payload(ssk, forged) == unmasked_payload(ssk, request));
    assert(1 * request.sigma@ == request.sigma@);
    assert(1 * forged.sigma@ == forged.sigma@);
    vstd::arithmetic::div_mod::lemma_small_mod(request.sigma@, scalar_modulus());
    vstd::arithmetic::div_mod::lemma_small_mod(forged.sigma@, scalar_modulus());
}

/// Both sides of an honest exchange hold the same session key: where the
/// server has verified the user's request and answered it, the response
/// passes the user's check, and the key that the user derives from it is
/// the server's.
pub proof fn lemma_session_keys_agree(
    params: SystemParameters,
    msk: MasterSecretKey,
    usk: UserSecretKey,
    ssk: ServerSecretKey,
    id_u: Seq<u8>,
    id_ms: Seq<u8>,
    r: nat,
    x: nat,
    y: nat,
    t_u: u64,
    t_ms: u64,
    request: UserAuthRequest,
    state: UserState,
    user: AuthenticatedUser,
    response: ServerAuthResponse,
    server_key: SessionKey,
    key_len: nat,
)
    requires
        honest_request(params, msk, usk, ssk, id_u, id_ms, r, x, t_u, request, state),
        user.r_u.inv(),
        user.x_pub.inv(),
        unmasked(user, ssk, request, params),
        responded(response, server_key, user, id_ms, params, y, t_ms, key_len),
    ensures
        response.t@ == expected_authenticator(state, response, id_ms),
        user_session_key(usk, state, response, id_ms, key_len) == server_key.0@,
{
    let q = scalar_modulus() as int;
    lemma_honest_request_verifies(params, msk, usk, ssk, id_u, id_ms, r, x, t_u, request, state);
    usk.r_u.lemma_encoding();
    state.temp_x_pub.lemma_encoding();
    user.r_u.lemma_encoding();
    user.x_pub.lemma_encoding();
    assert(user.x_pub.encoding() == state.temp_x_pub.encoding());
    assert(user.user_id@ == state.user_id@);

    // K: the user's (SID_u + x·t)·Y is the server's y·(t·X + W).
    lemma_user_key_equation(params, msk, usk, id_u, r);
    let sid = usk.sid_u@ as int;
    let t = response.t@ as int;
    let xi = x as int;
    let yi = y as int;
    let big_x = user.x_pub@ as int;
    let big_y = response.y@ as int;
    let w = user.w@ as int;
    assert(1 * sid == sid);
    lemma_congruent_reduced(sid);
    assert(congruent(w, sid));
    lemma_congruent_reduced(1 * xi);
    lemma_congruent_reduced(1 * yi);
    assert(congruent(big_x, xi));
    assert(congruent(big_y, yi));
    // the server's side
    lemma_congruent_product(big_x, xi, t, t);
    lemma_congruent_reduced(big_x * t);
    lemma_congruent_sum((big_x * t) % q, xi * t, w, sid);
    lemma_congruent_reduced((big_x * t) % q + w);
    let inner = group_add(group_scale(user.x_pub@, response.t@), user.w@) as int;
    assert(congruent(inner, xi * t + sid));
    lemma_congruent_product(inner, xi * t + sid, yi, yi);
    // the user's side
    lemma_congruent_reduced(xi * t);
    lemma_congruent_sum(sid, sid, (xi * t) % q, xi * t);
    lemma_congruent_reduced(sid + (xi * t) % q);
    let factor = fr_add(usk.sid_u@, fr_mul(state.x@, response.t@)) as int;
    assert(congruent(factor, sid + xi * t));
    lemma_congruent_product(big_y, yi, factor, sid + xi * t);
    assert(yi * (sid + xi * t) == (xi * t + sid) * yi) by (nonlinear_arith);
    assert(user_shared_point(usk, state, response) == server_shared_point(
        user,
        response.t@,
        y,
    ));
}

/// Shares of a dealing of the master secret that lie at distinct points,
/// as many as the threshold or more, put the master secret together again:
/// they interpolate to its encoding, which is the encoding of no other.
pub proof fn lemma_shares_reconstruct(
    msk: MasterSecretKey,
    threshold: u8,
    shares: Seq<(u8, Seq<u8>)>,
    picked: Seq<(u8, Seq<u8>)>,
)
    requires
        msk.s.inv(),
        msk.s_hat.inv(),
        is_dealing(shares, threshold, msk.encoding()),
        picked.len() >= 1,
        picked.len() >= threshold,
        share_points(picked).no_duplicates(),
        picked_from(picked, shares),
    ensures
        reconstructs(picked, threshold),
        shamir_interpolation(picked) == msk.encoding(),
{
    msk.lemma_halves();
    assert forall|i: int| 0 <= i < picked.len() implies (#[trigger] picked[i]).1.len()
        == MASTER_KEY_LEN by {
        assert(shares.contains(picked[i]));
        let j = choose|j: int| 0 <= j < shares.len() && shares[j] == picked[i];
        assert(shares[j].1.len() == msk.encoding().len());
    }
    share_points(picked).unique_seq_to_set();
}

/// Any selection of shares from a dealing of the master secret, each taken
/// once and as many as the threshold or more, puts the master secret
/// together again.
pub proof fn lemma_any_subset_reconstructs(
    msk: MasterSecretKey,
    threshold: u8,
    shares: Seq<(u8, Seq<u8>)>,
    selection: Seq<int>,
)
    requires
        msk.s.inv(),
        msk.s_hat.inv(),
        is_dealing(shares, threshold, msk.encoding()),
        selection.len() >= 1,
        selection.len() >= threshold,
        selection.no_duplicates(),
        forall|k: int| 0 <= k < selection.len() ==> 0 <= #[trigger] selection[k] < shares.len(),
    ensures
        reconstructs(selection.map_values(|i: int| shares[i]), threshold),
        shamir_interpolation(selection.map_values(|i: int| shares[i])) == msk.encoding(),
{
    let picked = selection.map_values(|i: int| shares[i]);
    assert forall|a: int, b: int|
        0 <= a < picked.len() && 0 <= b < picked.len() && a != b implies share_points(picked)[a]
        != share_points(picked)[b] by {
        assert(picked[a] == shares[selection[a]]);
        assert(picked[b] == shares[selection[b]]);
        assert(selection[a] != selection[b]);
    }
    assert forall|k: int| 0 <= k < picked.len() implies shares.contains(#[trigger] picked[k]) by {
        assert(shares[selection[k]] == picked[k]);
    }
    lemma_shares_reconstruct(msk, threshold, shares, picked);
}

/// What is put together from such a selection is the master secret that
/// was dealt, and no other.
pub proof fn lemma_rebuilt_key_is_the_secret(
    msk: MasterSecretKey,
    rebuilt: MasterSecretKey,
    threshold: u8,
    shares: Seq<(u8, Seq<u8>)>,
    selection: Seq<int>,
)
    requires
        msk.s.inv(),
        msk.s_hat.inv(),
        rebuilt.s.inv(),
        rebuilt.s_hat.inv(),
        is_dealing(shares, threshold, msk.encoding()),
        selection.len() >= 1,
        selection.len() >= threshold,
        selection.no_duplicates(),
        forall|k: int| 0 <= k < selection.len() ==> 0 <= #[trigger] selection[k] < shares.len(),
        rebuilt.encoding() == shamir_interpolation(selection.map_values(|i: int| shares[i])),
    ensures
        rebuilt == msk,
{
    lemma_any_subset_reconstructs(msk, threshold, shares, selection);
    rebuilt.lemma_encoding_injective(msk);
}

/// With fewer shares than the threshold nothing is put together.
pub proof fn lemma_too_few_shares_fail(picked: Seq<(u8, Seq<u8>)>, threshold: u8)
    requires
        picked.len() < threshold,
    ensures
        !reconstructs(picked, threshold),
{
    share_points(picked).lemma_cardinality_of_set();
}

} // verus!
