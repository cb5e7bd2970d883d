use ibc_aaka_scheme::clock::{is_fresh_at, timestamp_from_elapsed, ALLOWED_SKEW_SECONDS};
use ibc_aaka_scheme::curve::pairing;
use ibc_aaka_scheme::hash_utils::{h0, h1};
use ibc_aaka_scheme::rc;
use ibc_aaka_scheme::server;
use ibc_aaka_scheme::user;
use ibc_aaka_scheme::{
    get_current_timestamp, is_timestamp_fresh, AAKAError, G1Point, G2Point, MasterSecretKey,
    RcConfig, ScalarField, ServerSecretKey, SessionKey, SystemParameters, UserSecretKey,
};
use rand::rngs::StdRng;
use rand::SeedableRng;

const USER_ID: &[u8] = b"alice@example.com";
const SERVER_ID: &[u8] = b"mec-server-1.edge";

fn small(n: u8) -> ScalarField {
    let mut bytes = [0u8; 32];
    bytes[0] = n;
    ScalarField::from_le_bytes(&bytes).unwrap()
}

fn registered(
    rng: &mut StdRng,
) -> (SystemParameters, MasterSecretKey, UserSecretKey, ServerSecretKey) {
    let (params, msk) = rc::setup(rng).unwrap();
    let usk = rc::register_user(&msk, USER_ID, rng).unwrap();
    let ssk = rc::register_server(&msk, SERVER_ID).unwrap();
    (params, msk, usk, ssk)
}

// A full run from one seed with the clocks of both sides held still, so
// that nothing in it depends on when it runs.
fn full_run(seed: u64, key_len: usize) -> (Vec<u8>, Vec<u8>, SessionKey, SessionKey) {
    let mut rng = StdRng::seed_from_u64(seed);
    let (params, _msk, usk, ssk) = registered(&mut rng);
    let x = ScalarField::random(&mut rng);
    let (request, state) =
        user::initiate_authentication_from(&usk, USER_ID, SERVER_ID, &params, x, 1_000).unwrap();
    let verified = server::verify_user_request(&ssk, &request, &params, 1_001).unwrap();
    let y = ScalarField::random(&mut rng);
    let (response, server_key) =
        server::respond_to_user(&verified, SERVER_ID, &params, y, 1_002, key_len).unwrap();
    let user_key =
        user::process_server_response_at(&usk, &state, &response, SERVER_ID, key_len, 1_003)
            .unwrap();
    (request.n.clone(), response.y.to_compressed(), user_key, server_key)
}

#[test]
fn setup_publishes_the_keys_of_the_master_secret() {
    let mut rng = StdRng::seed_from_u64(0);
    let (params, msk) = rc::setup(&mut rng).unwrap();
    let p = G1Point::generator();
    assert!(params.p.eq(&p));
    assert!(params.p_pub.eq(&p.mul(&msk.s)));
    assert!(params.p_pub_hat.eq(&p.mul(&msk.s_hat)));
    assert!(params.g.eq(&pairing(&p, &G2Point::generator())));
    assert!(!msk.s.is_zero());
    assert!(!msk.s_hat.is_zero());
}

#[test]
fn setup_from_given_scalars() {
    let (params, msk) = rc::setup_from(small(2), small(3)).unwrap();
    assert_eq!(msk, MasterSecretKey { s: small(2), s_hat: small(3) });
    let p = G1Point::generator();
    assert!(params.p_pub.eq(&p.add(&p)));
    assert!(params.p_pub_hat.eq(&p.add(&p).add(&p)));
}

#[test]
fn setup_refuses_a_zero_scalar() {
    assert!(matches!(
        rc::setup_from(ScalarField::zero(), small(3)),
        Err(AAKAError::CryptoError(_))
    ));
    assert!(matches!(
        rc::setup_from(small(3), ScalarField::zero()),
        Err(AAKAError::CryptoError(_))
    ));
}

#[test]
fn a_user_key_verifies_against_the_parameters() {
    let mut rng = StdRng::seed_from_u64(1);
    let (params, _msk, usk, _ssk) = registered(&mut rng);
    let h = h0(USER_ID, &usk.r_u).unwrap();
    let left = params.p.mul(&usk.sid_u);
    let right = usk.r_u.add(&params.p_pub.mul(&h));
    assert!(left.eq(&right));
}

#[test]
fn a_user_key_from_a_given_scalar() {
    let msk = MasterSecretKey { s: small(2), s_hat: small(3) };
    let usk = rc::register_user_from(&msk, USER_ID, small(5)).unwrap();
    assert!(usk.r_u.eq(&G1Point::generator().mul(&small(5))));
    let h = h0(USER_ID, &usk.r_u).unwrap();
    assert_eq!(usk.sid_u, small(5).add(&small(2).mul(&h)));
    assert!(matches!(
        rc::register_user_from(&msk, USER_ID, ScalarField::zero()),
        Err(AAKAError::CryptoError(_))
    ));
}

#[test]
fn a_server_key_verifies_against_the_master_secret() {
    let mut rng = StdRng::seed_from_u64(2);
    let (_params, msk, _usk, ssk) = registered(&mut rng);
    let d = msk.s_hat.add(&h1(SERVER_ID).unwrap());
    assert!(ssk.sid_ms.mul(&d).eq(&G2Point::generator()));
    assert!(!ssk.sid_ms.eq(&G2Point::generator()));
}

#[test]
fn the_seeded_run_gives_equal_keys_of_the_wanted_length() {
    let (_m, _y, user_key, server_key) = full_run(0, 32);
    assert_eq!(user_key, server_key);
    assert_eq!(user_key.0.len(), 32);
}

#[test]
fn the_seeded_run_repeats() {
    let (m1, y1, user1, server1) = full_run(0, 32);
    let (m2, y2, user2, server2) = full_run(0, 32);
    assert_eq!(m1, m2);
    assert_eq!(y1, y2);
    assert_eq!(user1, user2);
    assert_eq!(server1, server2);
}

#[test]
fn a_longer_key_begins_with_the_shorter() {
    let (_m, _y, short, _s) = full_run(0, 32);
    let (_m, _y, long, long_server) = full_run(0, 64);
    assert_eq!(long.0.len(), 64);
    assert_eq!(long, long_server);
    assert_eq!(&long.0[..32], &short.0[..]);
}

#[test]
fn the_request_hides_the_identity() {
    let mut rng = StdRng::seed_from_u64(4);
    let (params, _msk, usk, _ssk) = registered(&mut rng);
    let (request, state) =
        user::initiate_authentication(&usk, USER_ID, SERVER_ID, &params, &mut rng).unwrap();
    assert_eq!(request.n.len(), USER_ID.len() + 96);
    assert_ne!(&request.n[..USER_ID.len()], USER_ID);
    assert_eq!(state.user_id, USER_ID.to_vec());
    assert!(state.r_u.eq(&usk.r_u));
    assert!(state.temp_x_pub.eq(&params.p.mul(&state.x)));
}

#[test]
fn a_request_from_a_given_secret() {
    let mut rng = StdRng::seed_from_u64(4);
    let (params, msk, usk, ssk) = registered(&mut rng);
    let x = small(11);
    let (request, state) =
        user::initiate_authentication_from(&usk, USER_ID, SERVER_ID, &params, x, 1_000).unwrap();
    assert_eq!(request.timestamp, 1_000);
    assert_eq!(state.x, x);
    let d = msk.s_hat.add(&h1(SERVER_ID).unwrap());
    assert!(request.m.eq(&params.p.mul(&d).mul(&x)));
    let verified = server::verify_user_request(&ssk, &request, &params, 1_200).unwrap();
    assert_eq!(verified.user_id, USER_ID.to_vec());
    assert!(verified.r_u.eq(&usk.r_u));
    assert!(verified.x_pub.eq(&state.temp_x_pub));
    assert!(verified.w.eq(&params.p.mul(&usk.sid_u)));

    let (response, server_key) =
        server::respond_to_user(&verified, SERVER_ID, &params, small(13), 1_250, 48).unwrap();
    assert_eq!(response.timestamp, 1_250);
    assert!(response.y.eq(&params.p.mul(&small(13))));
    let user_key =
        user::process_server_response_at(&usk, &state, &response, SERVER_ID, 48, 1_300).unwrap();
    assert_eq!(user_key, server_key);
    assert_eq!(user_key.0.len(), 48);
}

#[test]
fn a_zero_secret_is_refused() {
    let mut rng = StdRng::seed_from_u64(4);
    let (params, _msk, usk, ssk) = registered(&mut rng);
    assert!(matches!(
        user::initiate_authentication_from(&usk, USER_ID, SERVER_ID, &params, ScalarField::zero(), 5),
        Err(AAKAError::CryptoError(_))
    ));
    let (request, _state) =
        user::initiate_authentication_from(&usk, USER_ID, SERVER_ID, &params, small(3), 5)
            .unwrap();
    let verified = server::verify_user_request(&ssk, &request, &params, 5).unwrap();
    assert!(matches!(
        server::respond_to_user(&verified, SERVER_ID, &params, ScalarField::zero(), 5, 32),
        Err(AAKAError::CryptoError(_))
    ));
}

#[test]
fn an_identity_too_long_to_mask_is_refused() {
    let mut rng = StdRng::seed_from_u64(4);
    let (params, _msk, usk, _ssk) = registered(&mut rng);
    let long_id = vec![b'a'; 3137];
    assert!(matches!(
        user::initiate_authentication_from(&usk, &long_id, SERVER_ID, &params, small(3), 5),
        Err(AAKAError::HashError(_))
    ));
    assert!(matches!(
        user::initiate_authentication(&usk, &long_id, SERVER_ID, &params, &mut rng),
        Err(AAKAError::HashError(_))
    ));
    let longest = vec![b'a'; 3136];
    let usk = rc::register_user_from(
        &MasterSecretKey { s: small(2), s_hat: small(3) },
        &longest,
        small(5),
    )
    .unwrap();
    assert!(
        user::initiate_authentication_from(&usk, &longest, SERVER_ID, &params, small(3), 5)
            .is_ok()
    );
}

#[test]
fn a_stale_request_is_refused() {
    let mut rng = StdRng::seed_from_u64(5);
    let (params, _msk, usk, ssk) = registered(&mut rng);
    let (mut request, _state) =
        user::initiate_authentication(&usk, USER_ID, SERVER_ID, &params, &mut rng).unwrap();
    request.timestamp = get_current_timestamp().unwrap() - 361;
    let result =
        server::process_user_request(&ssk, &request, SERVER_ID, &params, &mut rng, 32);
    assert!(matches!(result, Err(AAKAError::InvalidTimestamp)));
}

#[test]
fn a_response_from_the_future_is_refused() {
    let mut rng = StdRng::seed_from_u64(6);
    let (params, _msk, usk, ssk) = registered(&mut rng);
    let (request, state) =
        user::initiate_authentication(&usk, USER_ID, SERVER_ID, &params, &mut rng).unwrap();
    let (mut response, _key) =
        server::process_user_request(&ssk, &request, SERVER_ID, &params, &mut rng, 32).unwrap();
    response.timestamp = get_current_timestamp().unwrap() + 361;
    let result =
        user::process_server_response(&usk, &state, &response, SERVER_ID, &params, 32);
    assert!(matches!(result, Err(AAKAError::InvalidTimestamp)));
}

#[test]
fn a_request_for_another_server_is_refused() {
    let mut rng = StdRng::seed_from_u64(7);
    let (params, _msk, usk, ssk) = registered(&mut rng);
    let (request, _state) =
        user::initiate_authentication(&usk, USER_ID, b"mec-server-2.edge", &params, &mut rng)
            .unwrap();
    let result =
        server::process_user_request(&ssk, &request, SERVER_ID, &params, &mut rng, 32);
    assert!(matches!(
        result,
        Err(AAKAError::Deserialization(_)) | Err(AAKAError::SignatureVerificationFailed)
    ));
}

#[test]
fn a_request_too_short_for_two_points_is_refused() {
    let mut rng = StdRng::seed_from_u64(8);
    let (params, _msk, usk, ssk) = registered(&mut rng);
    let (mut request, _state) =
        user::initiate_authentication_from(&usk, USER_ID, SERVER_ID, &params, small(3), 100)
            .unwrap();
    request.n.truncate(96);
    assert!(matches!(
        server::verify_user_request(&ssk, &request, &params, 100),
        Err(AAKAError::InvalidInput(_))
    ));
    request.n.clear();
    assert!(matches!(
        server::verify_user_request(&ssk, &request, &params, 100),
        Err(AAKAError::InvalidInput(_))
    ));
}

#[test]
fn a_request_too_long_to_unmask_is_refused() {
    let mut rng = StdRng::seed_from_u64(8);
    let (params, _msk, usk, ssk) = registered(&mut rng);
    let (mut request, _state) =
        user::initiate_authentication_from(&usk, USER_ID, SERVER_ID, &params, small(3), 100)
            .unwrap();
    request.n = vec![0u8; 3233];
    assert!(matches!(
        server::verify_user_request(&ssk, &request, &params, 100),
        Err(AAKAError::HashError(_))
    ));
}

#[test]
fn a_key_too_long_to_derive_is_refused() {
    let mut rng = StdRng::seed_from_u64(9);
    let (params, _msk, usk, ssk) = registered(&mut rng);
    let (request, state) =
        user::initiate_authentication(&usk, USER_ID, SERVER_ID, &params, &mut rng).unwrap();
    assert!(matches!(
        server::process_user_request(&ssk, &request, SERVER_ID, &params, &mut rng, 3233),
        Err(AAKAError::HashError(_))
    ));
    let (response, _key) =
        server::process_user_request(&ssk, &request, SERVER_ID, &params, &mut rng, 3232).unwrap();
    assert!(matches!(
        user::process_server_response(&usk, &state, &response, SERVER_ID, &params, 3233),
        Err(AAKAError::HashError(_))
    ));
}

#[test]
fn timestamps_are_fresh_within_the_skew() {
    assert_eq!(ALLOWED_SKEW_SECONDS, 300);
    assert!(is_fresh_at(1_000, 1_000));
    assert!(is_fresh_at(1_000, 700));
    assert!(!is_fresh_at(1_000, 699));
    assert!(is_fresh_at(1_000, 1_300));
    assert!(!is_fresh_at(1_000, 1_301));
    assert!(!is_fresh_at(1_000, 639));
    assert!(!is_fresh_at(1_000, 1_361));
    assert!(is_fresh_at(0, 300));
    assert!(!is_fresh_at(u64::MAX, 0));
    assert!(!is_fresh_at(0, u64::MAX));
}

#[test]
fn a_reading_before_the_epoch_is_no_timestamp() {
    assert_eq!(timestamp_from_elapsed(Some(1_700_000_000)).unwrap(), 1_700_000_000);
    assert_eq!(timestamp_from_elapsed(Some(0)).unwrap(), 0);
    assert!(matches!(timestamp_from_elapsed(None), Err(AAKAError::CryptoError(_))));
}

#[test]
fn the_clock_reads_now() {
    let now = get_current_timestamp().unwrap();
    assert!(now > 1_600_000_000);
    assert!(is_timestamp_fresh(now).unwrap());
    assert!(!is_timestamp_fresh(now - 1_000).unwrap());
    assert!(!is_timestamp_fresh(now + 1_000).unwrap());
}

#[test]
fn failures_read_as_text() {
    assert_eq!(AAKAError::InvalidTimestamp.message(), "Invalid timestamp");
    assert_eq!(
        AAKAError::SignatureVerificationFailed.message(),
        "Signature verification failed"
    );
    assert_eq!(
        AAKAError::ServerResponseVerificationFailed.message(),
        "Server response verification failed"
    );
    assert_eq!(
        AAKAError::CryptoError("zero".to_string()).message(),
        "Cryptographic operation failed: zero"
    );
    assert_eq!(
        AAKAError::Serialization("x".to_string()).message(),
        "Serialization error: x"
    );
    assert_eq!(
        AAKAError::Deserialization("x".to_string()).message(),
        "Deserialization error: x"
    );
    assert_eq!(
        AAKAError::InvalidInput("x".to_string()).message(),
        "Input data invalid: x"
    );
    assert_eq!(
        AAKAError::HashError("x".to_string()).message(),
        "Hash function error: x"
    );
    assert_eq!(AAKAError::Other("x".to_string()).message(), "other error: x");
}

#[test]
fn peers_are_the_other_nodes() {
    let config = RcConfig {
        addr: "10.0.0.2:3001".to_string(),
        nodes: vec![
            "10.0.0.1:3001".to_string(),
            "10.0.0.2:3001".to_string(),
            "10.0.0.3:3001".to_string(),
        ],
        threshold: 2,
    };
    assert_eq!(
        config.peers(),
        vec!["10.0.0.1:3001".to_string(), "10.0.0.3:3001".to_string()]
    );
    let alone = RcConfig { addr: "a".to_string(), nodes: vec!["a".to_string()], threshold: 1 };
    assert!(alone.peers().is_empty());
    let absent = RcConfig { addr: "z".to_string(), nodes: vec!["a".to_string()], threshold: 1 };
    assert_eq!(absent.peers(), vec!["a".to_string()]);
}
