use ark_bls12_381::Fr;
use ark_ff::PrimeField;
use ark_serialize::{CanonicalDeserialize, CanonicalSerialize};
use ibc_aaka_scheme::rc;
use ibc_aaka_scheme::user;
use ibc_aaka_scheme::wire::{
    from_hex, g1_from_hex, g1_to_hex, g2_from_hex, g2_to_hex, gt_from_hex, gt_to_hex,
    scalar_from_compressed, scalar_from_hex, scalar_to_hex, to_hex,
};
use ibc_aaka_scheme::{
    AAKAError, G1Point, G2Point, ScalarField, ServerAuthResponse, ServerSecretKey, SystemParameters,
    UserAuthRequest, UserSecretKey,
};
use rand::rngs::StdRng;
use rand::SeedableRng;

#[test]
fn hex_text_is_lower_case() {
    assert_eq!(to_hex(&[0x00, 0x01, 0x0f, 0x10, 0xab, 0xff]), "00010f10abff");
    assert_eq!(to_hex(&[]), "");
}

#[test]
fn hex_text_reads_in_either_case() {
    assert_eq!(from_hex("00010f10abff").unwrap(), vec![0x00, 0x01, 0x0f, 0x10, 0xab, 0xff]);
    assert_eq!(from_hex("ABff").unwrap(), vec![0xab, 0xff]);
    assert_eq!(from_hex("").unwrap(), Vec::<u8>::new());
}

#[test]
fn text_that_is_not_hex_is_refused() {
    assert!(matches!(from_hex("abc"), Err(AAKAError::Deserialization(_))));
    assert!(matches!(from_hex("zz"), Err(AAKAError::Deserialization(_))));
    assert!(matches!(from_hex("0g"), Err(AAKAError::Deserialization(_))));
    assert!(matches!(from_hex("é0"), Err(AAKAError::Deserialization(_))));
    assert!(matches!(from_hex(" 00"), Err(AAKAError::Deserialization(_))));
}

#[test]
fn scalars_travel_as_their_canonical_encoding() {
    let mut rng = StdRng::seed_from_u64(21);
    let a = ScalarField::random(&mut rng);
    let fr = Fr::from_le_bytes_mod_order(&a.to_le_bytes());
    let mut canonical = Vec::new();
    fr.serialize_compressed(&mut canonical).unwrap();
    assert_eq!(a.to_le_bytes(), canonical);
    assert_eq!(scalar_to_hex(&a), hex::encode(&canonical));
    assert_eq!(scalar_from_hex(&scalar_to_hex(&a)).unwrap(), a);
}

#[test]
fn a_scalar_is_read_from_its_first_bytes() {
    let mut bytes = ScalarField::one().to_le_bytes();
    bytes.push(0xee);
    assert_eq!(scalar_from_compressed(&bytes).unwrap(), ScalarField::one());
    assert!(Fr::deserialize_compressed(&bytes[..]).is_ok());
    assert!(matches!(
        scalar_from_compressed(&bytes[..31]),
        Err(AAKAError::Deserialization(_))
    ));
    assert!(matches!(
        scalar_from_compressed(&[0xff; 32]),
        Err(AAKAError::Deserialization(_))
    ));
    assert!(Fr::deserialize_compressed(&[0xffu8; 32][..]).is_err());
}

#[test]
fn elements_travel_as_their_canonical_encoding() {
    let p = G1Point::generator();
    let text = g1_to_hex(&p);
    assert_eq!(
        text,
        "97f1d3a73197d7942695638c4fa9ac0fc3688c4f9774b905a14e3a3f171bac586c55e83ff97a1aeffb3af00adb22c6bb"
    );
    assert!(g1_from_hex(&text).unwrap().eq(&p));
    let q = G2Point::generator();
    assert_eq!(g2_to_hex(&q).len(), 192);
    assert!(g2_from_hex(&g2_to_hex(&q)).unwrap().eq(&q));
    let g = ibc_aaka_scheme::curve::pairing(&p, &q);
    assert_eq!(gt_to_hex(&g).len(), 1152);
    assert!(gt_from_hex(&gt_to_hex(&g)).unwrap().eq(&g));
    assert!(matches!(g1_from_hex("00"), Err(AAKAError::Deserialization(_))));
    assert!(matches!(g1_from_hex("xy"), Err(AAKAError::Deserialization(_))));
    assert!(matches!(g2_from_hex("00"), Err(AAKAError::Deserialization(_))));
    assert!(matches!(gt_from_hex("00"), Err(AAKAError::Deserialization(_))));
}

#[test]
fn parameters_and_keys_round_trip() {
    let mut rng = StdRng::seed_from_u64(22);
    let (params, msk) = rc::setup(&mut rng).unwrap();
    let usk = rc::register_user(&msk, b"alice", &mut rng).unwrap();
    let ssk = rc::register_server(&msk, b"server").unwrap();

    let read = SystemParameters::from_wire(&params.to_wire()).unwrap();
    assert_eq!(read, params);
    assert!(read.p.eq(&params.p));
    assert!(read.p_pub.eq(&params.p_pub));
    assert!(read.p_pub_hat.eq(&params.p_pub_hat));
    assert!(read.g.eq(&params.g));

    let read = UserSecretKey::from_wire(&usk.to_wire()).unwrap();
    assert_eq!(read, usk);
    assert!(read.r_u.eq(&usk.r_u));
    assert_eq!(read.sid_u, usk.sid_u);

    let read = ServerSecretKey::from_wire(&ssk.to_wire()).unwrap();
    assert!(read.sid_ms.eq(&ssk.sid_ms));

    let mut broken = params.to_wire();
    broken.g_hex.push('0');
    assert!(matches!(
        SystemParameters::from_wire(&broken),
        Err(AAKAError::Deserialization(_))
    ));
    let mut broken = usk.to_wire();
    broken.sid_u_hex = "ff".repeat(32);
    assert!(matches!(
        UserSecretKey::from_wire(&broken),
        Err(AAKAError::Deserialization(_))
    ));
    let mut broken = ssk.to_wire();
    broken.sid_ms_hex.truncate(20);
    assert!(matches!(
        ServerSecretKey::from_wire(&broken),
        Err(AAKAError::Deserialization(_))
    ));
}

#[test]
fn messages_round_trip() {
    let mut rng = StdRng::seed_from_u64(23);
    let (params, msk) = rc::setup(&mut rng).unwrap();
    let usk = rc::register_user(&msk, b"alice", &mut rng).unwrap();
    let (request, _state) =
        user::initiate_authentication_from(&usk, b"alice", b"server", &params, ScalarField::one(), 77)
            .unwrap();
    let wire = request.to_wire();
    assert_eq!(wire.timestamp, 77);
    assert_eq!(wire.n, hex::encode(&request.n));
    let read = UserAuthRequest::from_wire(&wire).unwrap();
    assert_eq!(read, request);
    assert!(read.m.eq(&request.m));
    assert_eq!(read.n, request.n);
    assert_eq!(read.sigma, request.sigma);
    assert_eq!(read.timestamp, 77);

    let mut broken = wire.clone();
    broken.n.push('a');
    assert!(matches!(
        UserAuthRequest::from_wire(&broken),
        Err(AAKAError::Deserialization(_))
    ));

    let response = ServerAuthResponse {
        t: ScalarField::one().add(&ScalarField::one()),
        y: G1Point::generator().mul(&ScalarField::one().add(&ScalarField::one())),
        timestamp: 78,
    };
    let wire = response.to_wire();
    let read = ServerAuthResponse::from_wire(&wire).unwrap();
    assert_eq!(read.t, response.t);
    assert!(read.y.eq(&response.y));
    assert_eq!(read.timestamp, 78);
    let mut broken = wire;
    broken.y_hex = "c0".to_string();
    assert!(matches!(
        ServerAuthResponse::from_wire(&broken),
        Err(AAKAError::Deserialization(_))
    ));
}
