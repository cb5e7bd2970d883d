//! The user's half of the exchange.

use vstd::prelude::*;
use rand::rngs::StdRng;
use crate::bytes::{append_bytes, xor_mask, xor_seq};
use crate::clock::{is_fresh_at, within_skew};
pub use crate::clock::{get_current_timestamp, is_timestamp_fresh};
use crate::curve::{g1_compressed, group_add, group_scale, gt_compressed, G1_COMPRESSED_LEN};
use crate::error::AAKAError;
use crate::field::{fr_add, fr_mul, scalar_modulus, ScalarField};
use crate::hash_utils::{
    h1, h1_input, h2, h2_input, h3, h3_input, h4, h4_input, h5, h5_input, hash_to_scalar,
    kdf_output, KDF_MAX_LEN,
};
use crate::types::{
    ServerAuthResponse, SessionKey, SystemParameters, UserAuthRequest, UserSecretKey, UserState,
};

verus! {

/// The longest identity whose masked payload can still be derived.
pub const MAX_USER_ID_LEN: usize = 3136;

/// What the user hides from eavesdroppers: the identity, then the
/// encodings of `R_u` and of `X`.
pub open spec fn payload_of(user_id: Seq<u8>, r_u: Seq<u8>, x_pub: Seq<u8>) -> Seq<u8> {
    user_id + r_u + x_pub
}

/// The mask of `len` bytes that belongs to the element of GT with
/// encoding `g_x`.
pub open spec fn mask_of(g_x: Seq<u8>, len: nat) -> Seq<u8> {
    kdf_output(h2_input(g_x), len)
}

/// The scalar of the element `M` that carries the user's ephemeral secret
/// `x` to the server `server_id`: `M = x·(P_pub_hat + H1(server_id)·P)`.
pub open spec fn carrier_of(params: SystemParameters, server_id: Seq<u8>, x: nat) -> nat {
    group_scale(
        group_add(
            params.p_pub_hat@,
            group_scale(params.p@, hash_to_scalar(h1_input(server_id))),
        ),
        x,
    )
}

/// The request and the state are those that the user `user_id` with key
/// `usk` makes for the server `server_id` from the ephemeral secret `x` at
/// the time `timestamp`.
pub open spec fn initiated(
    request: UserAuthRequest,
    state: UserState,
    usk: UserSecretKey,
    user_id: Seq<u8>,
    server_id: Seq<u8>,
    params: SystemParameters,
    x: nat,
    timestamp: u64,
) -> bool {
    let payload = payload_of(user_id, usk.r_u.encoding(), state.temp_x_pub.encoding());
    let challenge = hash_to_scalar(
        h3_input(user_id, usk.r_u.encoding(), state.temp_x_pub.encoding(), timestamp),
    );
    &&& state.x@ == x
    &&& state.temp_x_pub@ == group_scale(params.p@, x)
    &&& state.user_id@ == user_id
    &&& state.r_u.encoding() == usk.r_u.encoding()
    &&& request.m@ == carrier_of(params, server_id, x)
    &&& request.n@ == xor_seq(
        mask_of(gt_compressed(group_scale(params.g@, x)), payload.len()),
        payload,
    )
    &&& request.sigma@ == fr_add(usk.sid_u@, fr_mul(x, challenge))
    &&& request.timestamp == timestamp
}

/// The scalar that the server's response must carry as `t`.
pub open spec fn expected_authenticator(
    state: UserState,
    response: ServerAuthResponse,
    server_id: Seq<u8>,
) -> nat {
    hash_to_scalar(
        h4_input(
            state.user_id@,
            server_id,
            state.temp_x_pub.encoding(),
            response.y.encoding(),
            response.timestamp,
        ),
    )
}

/// The scalar of the element that the user shares with the server:
/// `K = (SID_u + x·t)·Y`.
pub open spec fn user_shared_point(
    usk: UserSecretKey,
    state: UserState,
    response: ServerAuthResponse,
) -> nat {
    group_scale(response.y@, fr_add(usk.sid_u@, fr_mul(state.x@, response.t@)))
}

/// The session key that the user derives from a response.
pub open spec fn user_session_key(
    usk: UserSecretKey,
    state: UserState,
    response: ServerAuthResponse,
    server_id: Seq<u8>,
    key_len: nat,
) -> Seq<u8> {
    kdf_output(
        h5_input(
            g1_compressed(user_shared_point(usk, state, response)),
            state.user_id@,
            server_id,
            state.temp_x_pub.encoding(),
            response.y.encoding(),
        ),
        key_len,
    )
}

/// Makes the request for the server `server_id` from the ephemeral secret
/// `x` and the timestamp. Fails with `CryptoError` where `x` is zero, and
/// with `HashError` where the identity is longer than `MAX_USER_ID_LEN`.
pub fn initiate_authentication_from(
    usk: &UserSecretKey,
    user_id: &[u8],
    server_id: &[u8],
    params: &SystemParameters,
    x: ScalarField,
    timestamp_u: u64,
) -> (r: Result<(UserAuthRequest, UserState), AAKAError>)
    ensures
        x@ == 0 ==> r is Err && r->Err_0 is CryptoError,
        x@ != 0 && user_id@.len() > MAX_USER_ID_LEN ==> r is Err && r->Err_0 is HashError,
        x@ != 0 && user_id@.len() <= MAX_USER_ID_LEN ==> r is Ok && initiated(
            r->Ok_0.0,
            r->Ok_0.1,
            *usk,
            user_id@,
            server_id@,
            *params,
            x@,
            timestamp_u,
        ),
{
    if x.is_zero() {
        return Err(AAKAError::CryptoError("User random scalar x is zero".to_owned()));
    }
    let temp_x_pub = params.p.mul(&x);
    let g_x = params.g.pow(&x);

    let h_ms = match h1(server_id) {
        Ok(h) => h,
        Err(e) => { return Err(e); },
    };
    let h_ms_p = params.p.mul(&h_ms);
    let inner_m = params.p_pub_hat.add(&h_ms_p);
    let m = inner_m.mul(&x);

    let r_u_bytes = usk.r_u.to_compressed();
    let x_pub_bytes = temp_x_pub.to_compressed();
    let mut n_payload: Vec<u8> = Vec::new();
    append_bytes(&mut n_payload, user_id);
    append_bytes(&mut n_payload, r_u_bytes.as_slice());
    append_bytes(&mut n_payload, x_pub_bytes.as_slice());

    let h2_output = match h2(&g_x, n_payload.len()) {
        Ok(mask) => mask,
        Err(e) => { return Err(e); },
    };
    let n = match xor_mask(h2_output.as_slice(), n_payload.as_slice()) {
        Ok(masked) => masked,
        Err(e) => { return Err(e); },
    };

    let h_3 = match h3(user_id, &usk.r_u, &temp_x_pub, timestamp_u) {
        Ok(h) => h,
        Err(e) => { return Err(e); },
    };
    let sigma = usk.sid_u.add(&x.mul(&h_3));

    proof {
        use_type_invariant(&g_x);
        g_x.lemma_encoding();
    }
    let request = UserAuthRequest { m, n, sigma, timestamp: timestamp_u };
    let state = UserState {
        x,
        temp_x_pub,
        user_id: crate::bytes::slice_bytes(user_id, 0, user_id.len()),
        r_u: usk.r_u.clone(),
    };
    assert(state.user_id@ =~= user_id@);
    Ok((request, state))
}

/// Starts the exchange with the server `server_id`: draws the ephemeral
/// secret, reads the clock, and makes the request and the state to keep.
/// Fails with `CryptoError` where the scalar drawn is zero or the clock
/// stands before the epoch, and with `HashError` where the identity is
/// longer than `MAX_USER_ID_LEN`.
pub fn initiate_authentication(
    usk: &UserSecretKey,
    user_id: &[u8],
    server_id: &[u8],
    params: &SystemParameters,
    rng: &mut StdRng,
) -> (r: Result<(UserAuthRequest, UserState), AAKAError>)
    ensures
        match r {
            Ok((request, state)) => user_id@.len() <= MAX_USER_ID_LEN && exists|x: nat|
                0 < x < scalar_modulus() && initiated(
                    request,
                    state,
                    *usk,
                    user_id@,
                    server_id@,
                    *params,
                    x,
                    request.timestamp,
                ),
            Err(e) => e is CryptoError || (e is HashError && user_id@.len() > MAX_USER_ID_LEN),
        },
{
    let x = ScalarField::random(rng);
    if x.is_zero() {
        return Err(AAKAError::CryptoError("User random scalar x is zero".to_owned()));
    }
    if user_id.len() > MAX_USER_ID_LEN {
        return Err(AAKAError::HashError("H2 output generation loop limit reached".to_owned()));
    }
    let timestamp_u = match get_current_timestamp() {
        Ok(now) => now,
        Err(e) => { return Err(e); },
    };
    initiate_authentication_from(usk, user_id, server_id, params, x, timestamp_u)
}

/// Reads the server's response with the clock at `now`. Fails with
/// `InvalidTimestamp` where the response is not fresh; else with
/// `ServerResponseVerificationFailed` where its `t` is not the expected
/// one; else with `HashError` where the key length exceeds `KDF_MAX_LEN`.
/// Otherwise the result is the session key.
pub fn process_server_response_at(
    usk: &UserSecretKey,
    state: &UserState,
    response: &ServerAuthResponse,
    server_id: &[u8],
    key_len_bytes: usize,
    now: u64,
) -> (r: Result<SessionKey, AAKAError>)
    ensures
        !within_skew(now, response.timestamp) ==> r is Err && r->Err_0 is InvalidTimestamp,
        within_skew(now, response.timestamp) && response.t@ != expected_authenticator(
            *state,
            *response,
            server_id@,
        ) ==> r is Err && r->Err_0 is ServerResponseVerificationFailed,
        within_skew(now, response.timestamp) && response.t@ == expected_authenticator(
            *state,
            *response,
            server_id@,
        ) && key_len_bytes > KDF_MAX_LEN ==> r is Err && r->Err_0 is HashError,
        within_skew(now, response.timestamp) && response.t@ == expected_authenticator(
            *state,
            *response,
            server_id@,
        ) && key_len_bytes <= KDF_MAX_LEN ==> r is Ok && r->Ok_0.0@ == user_session_key(
            *usk,
            *state,
            *response,
            server_id@,
            key_len_bytes as nat,
        ),
{
    if !is_fresh_at(now, response.timestamp) {
        return Err(AAKAError::InvalidTimestamp);
    }
    let computed_t = match h4(
        state.user_id.as_slice(),
        server_id,
        &state.temp_x_pub,
        &response.y,
        response.timestamp,
    ) {
        Ok(t) => t,
        Err(e) => { return Err(e); },
    };
    proof {
        computed_t.lemma_view_injective(response.t);
    }
    if computed_t != response.t {
        return Err(AAKAError::ServerResponseVerificationFailed);
    }
    let xt = state.x.mul(&response.t);
    let sidu_plus_xt = usk.sid_u.add(&xt);
    let k_u_ms_point = response.y.mul(&sidu_plus_xt);
    proof {
        use_type_invariant(&k_u_ms_point);
        k_u_ms_point.lemma_encoding();
    }
    let session_key_bytes = match h5(
        &k_u_ms_point,
        state.user_id.as_slice(),
        server_id,
        &state.temp_x_pub,
        &response.y,
        key_len_bytes,
    ) {
        Ok(key) => key,
        Err(e) => { return Err(e); },
    };
    Ok(SessionKey(session_key_bytes))
}

/// Reads the server's response: checks that it is fresh by the system
/// clock and that it comes from the server, and derives the session key.
pub fn process_server_response(
    usk: &UserSecretKey,
    state: &UserState,
    response: &ServerAuthResponse,
    server_id: &[u8],
    _params: &SystemParameters,
    key_len_bytes: usize,
) -> (r: Result<SessionKey, AAKAError>)
    ensures
        match r {
            Ok(key) => response.t@ == expected_authenticator(*state, *response, server_id@)
                && key_len_bytes <= KDF_MAX_LEN && key.0@ == user_session_key(
                *usk,
                *state,
                *response,
                server_id@,
                key_len_bytes as nat,
            ),
            Err(e) => e is CryptoError || e is InvalidTimestamp || (e is HashError
                && key_len_bytes > KDF_MAX_LEN) || (e is ServerResponseVerificationFailed
                && response.t@ != expected_authenticator(*state, *response, server_id@)),
        },
{
    let now = match get_current_timestamp() {
        Ok(now) => now,
        Err(e) => { return Err(e); },
    };
    process_server_response_at(usk, state, response, server_id, key_len_bytes, now)
}

} // verus!
