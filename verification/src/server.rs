//! The server's half of the exchange.

use vstd::prelude::*;
use rand::rngs::StdRng;
use crate::bytes::{slice_bytes, xor_mask, xor_seq};
use crate::clock::{get_current_timestamp, is_fresh_at, within_skew};
use crate::curve::{
    g1_compressed, g1_decode, group_add, group_scale, gt_compressed, pairing, pairing_log,
    G1Point, G1_COMPRESSED_LEN,
};
use crate::error::AAKAError;
use crate::field::{scalar_modulus, ScalarField};
use crate::hash_utils::{
    h0, h0_input, h3, h3_input, h4, h4_input, h5, h5_input, h2, hash_to_scalar, kdf_output,
    KDF_MAX_LEN,
};
use crate::types::{
    ServerAuthResponse, ServerSecretKey, SessionKey, SystemParameters, UserAuthRequest,
};
use crate::user::mask_of;
use crate::wire::{
    hex_encoding, request_readable, request_reads, response_written, to_hex, AuthRequestPayload,
    AuthSuccessResponse,
};

verus! {

/// What a server knows of a user whose request it has verified: the
/// identity, the elements `R_u` and `X` of the request, and the element
/// `W = R_u + H0(id ‖ R_u)·P_pub` against which the signature was checked.
#[derive(Debug, Clone)]
pub struct AuthenticatedUser {
    pub user_id: Vec<u8>,
    pub r_u: G1Point,
    pub x_pub: G1Point,
    pub w: G1Point,
}

/// What the server reads under the mask of a request: the mask belongs to
/// the pairing of `M` with the server's key.
pub open spec fn unmasked_payload(ssk: ServerSecretKey, request: UserAuthRequest) -> Seq<u8> {
    xor_seq(
        mask_of(gt_compressed(pairing_log(request.m@, ssk.sid_ms@)), request.n@.len()),
        request.n@,
    )
}

/// The identity in a payload: all but its last two encodings.
pub open spec fn claimed_id(payload: Seq<u8>) -> Seq<u8> {
    payload.subrange(0, payload.len() - 2 * G1_COMPRESSED_LEN)
}

/// The scalar of the element `R_u` in a payload, where its bytes decode.
pub open spec fn claimed_r_u(payload: Seq<u8>) -> Option<nat> {
    g1_decode(
        payload.subrange(
            payload.len() - 2 * G1_COMPRESSED_LEN,
            payload.len() - G1_COMPRESSED_LEN,
        ),
    )
}

/// The scalar of the element `X` in a payload, where its bytes decode.
pub open spec fn claimed_x(payload: Seq<u8>) -> Option<nat> {
    g1_decode(payload.subrange(payload.len() - G1_COMPRESSED_LEN, payload.len() as int))
}

/// The scalar of `W = R_u + H0(id_u ‖ R_u)·P_pub`.
pub open spec fn verification_point(params: SystemParameters, id_u: Seq<u8>, r_u: nat) -> nat {
    group_add(
        r_u,
        group_scale(params.p_pub@, hash_to_scalar(h0_input(id_u, g1_compressed(r_u)))),
    )
}

/// The signature equation: `σ·P = W + H3(id_u, R_u, X, T_u)·X`.
pub open spec fn signature_holds(
    params: SystemParameters,
    sigma: nat,
    id_u: Seq<u8>,
    r_u: nat,
    x_pub: nat,
    timestamp: u64,
) -> bool {
    group_scale(params.p@, sigma) == group_add(
        verification_point(params, id_u, r_u),
        group_scale(
            x_pub,
            hash_to_scalar(h3_input(id_u, g1_compressed(r_u), g1_compressed(x_pub), timestamp)),
        ),
    )
}

/// `user` is what the request holds under its mask.
pub open spec fn unmasked(
    user: AuthenticatedUser,
    ssk: ServerSecretKey,
    request: UserAuthRequest,
    params: SystemParameters,
) -> bool {
    let payload = unmasked_payload(ssk, request);
    &&& user.user_id@ == claimed_id(payload)
    &&& claimed_r_u(payload) == Some(user.r_u@)
    &&& claimed_x(payload) == Some(user.x_pub@)
    &&& user.w@ == verification_point(params, user.user_id@, user.r_u@)
}

/// The signature of the request fits what the request holds under its mask.
pub open spec fn request_signed(
    ssk: ServerSecretKey,
    request: UserAuthRequest,
    params: SystemParameters,
) -> bool {
    let payload = unmasked_payload(ssk, request);
    signature_holds(
        params,
        request.sigma@,
        claimed_id(payload),
        claimed_r_u(payload)->Some_0,
        claimed_x(payload)->Some_0,
        request.timestamp,
    )
}

/// The scalar of the element that the server shares with the user:
/// `K = y·(t·X + W)`.
pub open spec fn server_shared_point(user: AuthenticatedUser, t: nat, y: nat) -> nat {
    group_scale(group_add(group_scale(user.x_pub@, t), user.w@), y)
}

/// The response and the session key are those that the server `own_id`
/// makes for the verified user from the ephemeral secret `y` at the time
/// `timestamp`.
pub open spec fn responded(
    response: ServerAuthResponse,
    key: SessionKey,
    user: AuthenticatedUser,
    own_id: Seq<u8>,
    params: SystemParameters,
    y: nat,
    timestamp: u64,
    key_len: nat,
) -> bool {
    &&& response.y@ == group_scale(params.p@, y)
    &&& response.t@ == hash_to_scalar(
        h4_input(
            user.user_id@,
            own_id,
            user.x_pub.encoding(),
            response.y.encoding(),
            timestamp,
        ),
    )
    &&& response.timestamp == timestamp
    &&& key.0@ == kdf_output(
        h5_input(
            g1_compressed(server_shared_point(user, response.t@, y)),
            user.user_id@,
            own_id,
            user.x_pub.encoding(),
            response.y.encoding(),
        ),
        key_len,
    )
}

/// Verifies a user's request with the clock at `now`. The checks come in
/// this order, and the first that fails decides the error:
/// the timestamp is fresh (`InvalidTimestamp`); the masked payload is
/// longer than two encodings (`InvalidInput`) and no longer than
/// `KDF_MAX_LEN` (`HashError`); the bytes of `R_u` and of `X` decode
/// (`Deserialization`); the signature equation holds
/// (`SignatureVerificationFailed`).
pub fn verify_user_request(
    ssk: &ServerSecretKey,
    request: &UserAuthRequest,
    params: &SystemParameters,
    now: u64,
) -> (r: Result<AuthenticatedUser, AAKAError>)
    ensures
        !within_skew(now, request.timestamp) ==> r is Err && r->Err_0 is InvalidTimestamp,
        within_skew(now, request.timestamp) && request.n@.len() <= 2 * G1_COMPRESSED_LEN ==> r is Err
            && r->Err_0 is InvalidInput,
        within_skew(now, request.timestamp) && request.n@.len() > KDF_MAX_LEN ==> r is Err
            && r->Err_0 is HashError,
        within_skew(now, request.timestamp) && 2 * G1_COMPRESSED_LEN < request.n@.len()
            <= KDF_MAX_LEN ==> {
            let payload = unmasked_payload(*ssk, *request);
            if claimed_r_u(payload) is None || claimed_x(payload) is None {
                r is Err && r->Err_0 is Deserialization
            } else if !request_signed(*ssk, *request, *params) {
                r is Err && r->Err_0 is SignatureVerificationFailed
            } else {
                r is Ok && unmasked(r->Ok_0, *ssk, *request, *params)
            }
        },
{
    if !is_fresh_at(now, request.timestamp) {
        return Err(AAKAError::InvalidTimestamp);
    }
    let g_x = pairing(&request.m, &ssk.sid_ms);
    let n_len = request.n.len();
    if n_len <= 2 * G1_COMPRESSED_LEN {
        return Err(
            AAKAError::InvalidInput("N parameter too short to contain Ru and X".to_owned()),
        );
    }
    let id_len = n_len - 2 * G1_COMPRESSED_LEN;
    let ru_offset = id_len;
    let x_offset = id_len + G1_COMPRESSED_LEN;

    let h2_output = match h2(&g_x, n_len) {
        Ok(mask) => mask,
        Err(e) => { return Err(e); },
    };
    let n_payload = match xor_mask(h2_output.as_slice(), request.n.as_slice()) {
        Ok(payload) => payload,
        Err(e) => { return Err(e); },
    };
    proof {
        use_type_invariant(&g_x);
        g_x.lemma_encoding();
        assert(n_payload@ == unmasked_payload(*ssk, *request));
    }
    let id_u_prime = slice_bytes(n_payload.as_slice(), 0, id_len);
    let r_u_prime_bytes = slice_bytes(n_payload.as_slice(), ru_offset, x_offset);
    let x_prime_bytes = slice_bytes(n_payload.as_slice(), x_offset, n_len);

    let r_u_prime = match G1Point::from_compressed(r_u_prime_bytes.as_slice()) {
        Ok(point) => point,
        Err(e) => { return Err(e); },
    };
    let x_prime = match G1Point::from_compressed(x_prime_bytes.as_slice()) {
        Ok(point) => point,
        Err(e) => { return Err(e); },
    };
    proof {
        use_type_invariant(&r_u_prime);
        use_type_invariant(&x_prime);
        r_u_prime.lemma_encoding();
        x_prime.lemma_encoding();
    }

    let h_0 = match h0(id_u_prime.as_slice(), &r_u_prime) {
        Ok(h) => h,
        Err(e) => { return Err(e); },
    };
    let h0_ppub = params.p_pub.mul(&h_0);
    let w = r_u_prime.add(&h0_ppub);

    let h_3 = match h3(id_u_prime.as_slice(), &r_u_prime, &x_prime, request.timestamp) {
        Ok(h) => h,
        Err(e) => { return Err(e); },
    };
    let h3_x_prime = x_prime.mul(&h_3);
    let rhs = w.add(&h3_x_prime);
    let sigma_p = params.p.mul(&request.sigma);

    if !sigma_p.eq(&rhs) {
        return Err(AAKAError::SignatureVerificationFailed);
    }
    Ok(AuthenticatedUser { user_id: id_u_prime, r_u: r_u_prime, x_pub: x_prime, w })
}

/// Answers a verified user from the ephemeral secret `y` at the time
/// `timestamp_ms`. Fails with `CryptoError` where `y` is zero, else with
/// `HashError` where the key length exceeds `KDF_MAX_LEN`.
pub fn respond_to_user(
    user: &AuthenticatedUser,
    own_id: &[u8],
    params: &SystemParameters,
    y: ScalarField,
    timestamp_ms: u64,
    key_len_bytes: usize,
) -> (r: Result<(ServerAuthResponse, SessionKey), AAKAError>)
    ensures
        y@ == 0 ==> r is Err && r->Err_0 is CryptoError,
        y@ != 0 && key_len_bytes > KDF_MAX_LEN ==> r is Err && r->Err_0 is HashError,
        y@ != 0 && key_len_bytes <= KDF_MAX_LEN ==> r is Ok && responded(
            r->Ok_0.0,
            r->Ok_0.1,
            *user,
            own_id@,
            *params,
            y@,
            timestamp_ms,
            key_len_bytes as nat,
        ),
{
    if y.is_zero() {
        return Err(AAKAError::CryptoError("Server random scalar y is zero".to_owned()));
    }
    let y_pub = params.p.mul(&y);
    let t = match h4(user.user_id.as_slice(), own_id, &user.x_pub, &y_pub, timestamp_ms) {
        Ok(t) => t,
        Err(e) => { return Err(e); },
    };
    let tx_prime = user.x_pub.mul(&t);
    let inner_k = tx_prime.add(&user.w);
    let k_ms_u_point = inner_k.mul(&y);
    proof {
        use_type_invariant(&k_ms_u_point);
        k_ms_u_point.lemma_encoding();
    }
    let session_key_bytes = match h5(
        &k_ms_u_point,
        user.user_id.as_slice(),
        own_id,
        &user.x_pub,
        &y_pub,
        key_len_bytes,
    ) {
        Ok(key) => key,
        Err(e) => { return Err(e); },
    };
    let response = ServerAuthResponse { t, y: y_pub, timestamp: timestamp_ms };
    Ok((response, SessionKey(session_key_bytes)))
}

/// The response and the key are an answer of the server `own_id` to the
/// request: the request is well formed and signed, and the response and the
/// key are made from what it holds and some ephemeral secret.
pub open spec fn answered(
    ssk: ServerSecretKey,
    request: UserAuthRequest,
    own_id: Seq<u8>,
    params: SystemParameters,
    key_len: nat,
    response: ServerAuthResponse,
    key: SessionKey,
) -> bool {
    &&& 2 * G1_COMPRESSED_LEN < request.n@.len() <= KDF_MAX_LEN
    &&& key_len <= KDF_MAX_LEN
    &&& request_signed(ssk, request, params)
    &&& exists|user: AuthenticatedUser, y: nat|
        0 < y < scalar_modulus() && user.r_u.inv() && user.x_pub.inv() && user.w.inv()
            && unmasked(user, ssk, request, params) && responded(
            response,
            key,
            user,
            own_id,
            params,
            y,
            response.timestamp,
            key_len,
        )
}

/// The failure is one that the request can meet with the server: each
/// kind but those of the clock and of the random draw tells what is wrong
/// with the request.
pub open spec fn refused(
    ssk: ServerSecretKey,
    request: UserAuthRequest,
    params: SystemParameters,
    key_len: nat,
    e: AAKAError,
) -> bool {
    let payload = unmasked_payload(ssk, request);
    ||| e is InvalidTimestamp
    ||| e is CryptoError
    ||| e is InvalidInput && request.n@.len() <= 2 * G1_COMPRESSED_LEN
    ||| e is HashError && (request.n@.len() > KDF_MAX_LEN || key_len > KDF_MAX_LEN)
    ||| e is Deserialization && (claimed_r_u(payload) is None || claimed_x(payload) is None)
    ||| e is SignatureVerificationFailed && !request_signed(ssk, request, params)
}

/// Processes a user's request: verifies it by the system clock, draws the
/// server's ephemeral secret, and makes the response and the session key.
/// The secret is drawn only once the request is verified: a request that
/// is refused leaves the generator as it was.
pub fn process_user_request(
    ssk: &ServerSecretKey,
    request: &UserAuthRequest,
    own_id: &[u8],
    params: &SystemParameters,
    rng: &mut StdRng,
    key_len_bytes: usize,
) -> (r: Result<(ServerAuthResponse, SessionKey), AAKAError>)
    ensures
        match r {
            Ok((response, key)) => answered(
                *ssk,
                *request,
                own_id@,
                *params,
                key_len_bytes as nat,
                response,
                key,
            ),
            Err(e) => refused(*ssk, *request, *params, key_len_bytes as nat, e),
        },
        r is Err && (r->Err_0 is InvalidTimestamp || r->Err_0 is InvalidInput
            || r->Err_0 is Deserialization || r->Err_0 is SignatureVerificationFailed
            || (r->Err_0 is HashError && key_len_bytes <= KDF_MAX_LEN)) ==> *final(rng) == *old(
            rng,
        ),
{
    let now = match get_current_timestamp() {
        Ok(now) => now,
        Err(e) => { return Err(e); },
    };
    let user = match verify_user_request(ssk, request, params, now) {
        Ok(user) => user,
        Err(e) => { return Err(e); },
    };
    proof {
        use_type_invariant(&user.r_u);
        use_type_invariant(&user.x_pub);
        use_type_invariant(&user.w);
    }
    let y = ScalarField::random(rng);
    if y.is_zero() {
        return Err(AAKAError::CryptoError("Server random scalar y is zero".to_owned()));
    }
    let timestamp_ms = match get_current_timestamp() {
        Ok(now) => now,
        Err(e) => { return Err(e); },
    };
    respond_to_user(&user, own_id, params, y, timestamp_ms, key_len_bytes)
}

/// The length of the session keys that a server hands out.
pub const SERVER_KEY_LEN: usize = 32;

/// Answers a request as it came over the wire: reads it, processes it, and
/// puts the response and the key in their wire form. Fails with
/// `Deserialization` where the request does not read, and else as
/// `process_user_request` does.
pub fn handle_auth_request(
    ssk: &ServerSecretKey,
    own_id: &[u8],
    params: &SystemParameters,
    rng: &mut StdRng,
    payload: &AuthRequestPayload,
) -> (r: Result<AuthSuccessResponse, AAKAError>)
    ensures
        match r {
            Ok(success) => exists|
                request: UserAuthRequest,
                response: ServerAuthResponse,
                key: SessionKey,
            |
                {
                    &&& request.m.inv()
                    &&& request.sigma.inv()
                    &&& response.t.inv()
                    &&& response.y.inv()
                    &&& request_reads(*payload, request)
                    &&& answered(
                        *ssk,
                        request,
                        own_id@,
                        *params,
                        SERVER_KEY_LEN as nat,
                        response,
                        key,
                    )
                    &&& response_written(response, success.response)
                    &&& success.session_key_hex@ == hex_encoding(key.0@)
                    &&& success.message@ == "Authentication successful"@
                },
            Err(e) => {
                ||| e is Deserialization && !request_readable(*payload)
                ||| exists|request: UserAuthRequest|
                    request.m.inv() && request.sigma.inv() && request_reads(*payload, request)
                        && refused(
                        *ssk,
                        request,
                        *params,
                        SERVER_KEY_LEN as nat,
                        e,
                    )
            },
        },
        r is Err && (r->Err_0 is InvalidTimestamp || r->Err_0 is InvalidInput
            || r->Err_0 is Deserialization || r->Err_0 is SignatureVerificationFailed)
            ==> *final(rng) == *old(rng),
{
    let request = match UserAuthRequest::from_wire(payload) {
        Ok(request) => request,
        Err(e) => { return Err(e); },
    };
    proof {
        use_type_invariant(&request.m);
        use_type_invariant(&request.sigma);
    }
    match process_user_request(ssk, &request, own_id, params, rng, SERVER_KEY_LEN) {
        Ok((response, session_key)) => {
            let success = AuthSuccessResponse {
                message: "Authentication successful".to_owned(),
                response: response.to_wire(),
                session_key_hex: to_hex(session_key.0.as_slice()),
            };
            proof {
                use_type_invariant(&response.t);
                use_type_invariant(&response.y);
            }
            assert(request_reads(*payload, request));
            assert(response_written(response, success.response));
            Ok(success)
        },
        Err(e) => {
            assert(request_reads(*payload, request));
            Err(e)
        },
    }
}

} // verus!
