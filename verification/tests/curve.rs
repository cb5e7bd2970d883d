use ark_bls12_381::{Bls12_381, G1Projective, G2Projective};
use ark_ec::pairing::Pairing;
use ark_ec::{CurveGroup, Group};
use ark_serialize::CanonicalSerialize;
use ibc_aaka_scheme::curve::pairing;
use ibc_aaka_scheme::{AAKAError, G1Point, G2Point, GtPoint, ScalarField};

fn small(n: u8) -> ScalarField {
    let mut bytes = [0u8; 32];
    bytes[0] = n;
    ScalarField::from_le_bytes(&bytes).unwrap()
}

#[test]
fn generators_are_those_of_the_curve() {
    let mut g1 = Vec::new();
    G1Projective::generator()
        .into_affine()
        .serialize_compressed(&mut g1)
        .unwrap();
    assert_eq!(G1Point::generator().to_compressed(), g1);
    assert_eq!(g1.len(), 48);

    let mut g2 = Vec::new();
    G2Projective::generator()
        .into_affine()
        .serialize_compressed(&mut g2)
        .unwrap();
    assert_eq!(G2Point::generator().to_compressed(), g2);
    assert_eq!(g2.len(), 96);
}

#[test]
fn multiples_add_up() {
    let p = G1Point::generator();
    let two_p = p.mul(&small(2));
    let three_p = p.mul(&small(3));
    assert!(!two_p.eq(&p));
    assert!(p.add(&p).eq(&two_p));
    assert!(two_p.add(&p).eq(&three_p));
    assert!(two_p.mul(&small(3)).eq(&p.mul(&small(6))));
    assert!(p.mul(&ScalarField::one()).eq(&p));
}

#[test]
fn the_zero_multiple_is_the_neutral_element() {
    let p = G1Point::generator();
    let zero = p.mul(&ScalarField::zero());
    assert!(zero.add(&p).eq(&p));
    assert!(!zero.eq(&p));
    let mut expected = vec![0u8; 48];
    expected[0] = 0xc0;
    assert_eq!(zero.to_compressed(), expected);
}

#[test]
fn multiples_in_the_second_group() {
    let q = G2Point::generator();
    let two_q = q.mul(&small(2));
    assert!(!two_q.eq(&q));
    assert!(two_q.mul(&small(2)).eq(&q.mul(&small(4))));
    assert!(two_q.mul(&small(2).inverse().unwrap()).eq(&q));
}

#[test]
fn the_pairing_is_bilinear() {
    let p = G1Point::generator();
    let q = G2Point::generator();
    let g = pairing(&p, &q);
    let left = pairing(&p.mul(&small(2)), &q.mul(&small(3)));
    assert!(left.eq(&g.pow(&small(6))));
    assert!(!left.eq(&g));
    assert!(g.pow(&ScalarField::one()).eq(&g));
    assert!(g.pow(&small(2)).pow(&small(3)).eq(&g.pow(&small(6))));
}

#[test]
fn the_pairing_is_that_of_the_curve() {
    let g = pairing(&G1Point::generator(), &G2Point::generator());
    let mut expected = Vec::new();
    Bls12_381::pairing(G1Projective::generator(), G2Projective::generator())
        .serialize_compressed(&mut expected)
        .unwrap();
    assert_eq!(g.to_compressed(), expected);
}

#[test]
fn encodings_round_trip() {
    let p = G1Point::generator().mul(&small(5));
    let read = G1Point::from_compressed(&p.to_compressed()).unwrap();
    assert!(read.eq(&p));
    assert_eq!(read.to_compressed(), p.to_compressed());

    let q = G2Point::generator().mul(&small(5));
    let read = G2Point::from_compressed(&q.to_compressed()).unwrap();
    assert!(read.eq(&q));

    let g = pairing(&p, &q);
    let read = GtPoint::from_compressed(&g.to_compressed()).unwrap();
    assert!(read.eq(&g));
}

#[test]
fn bytes_that_encode_nothing_are_refused() {
    assert!(matches!(
        G1Point::from_compressed(&[0u8; 48]),
        Err(AAKAError::Deserialization(_))
    ));
    let mut beyond_the_field = [0xffu8; 48];
    beyond_the_field[0] = 0x9f;
    assert!(matches!(
        G1Point::from_compressed(&beyond_the_field),
        Err(AAKAError::Deserialization(_))
    ));
    assert!(matches!(
        G1Point::from_compressed(&[0xc0u8; 10]),
        Err(AAKAError::Deserialization(_))
    ));
    assert!(matches!(
        G2Point::from_compressed(&[0u8; 96]),
        Err(AAKAError::Deserialization(_))
    ));
    assert!(matches!(
        GtPoint::from_compressed(&[0u8; 10]),
        Err(AAKAError::Deserialization(_))
    ));
}

#[test]
fn another_encoding_of_the_neutral_element_is_read_as_it() {
    let mut bytes = vec![0u8; 48];
    bytes[0] = 0xc0;
    bytes[47] = 0x01;
    let read = G1Point::from_compressed(&bytes).unwrap();
    let zero = G1Point::generator().mul(&ScalarField::zero());
    assert!(read.eq(&zero));
    assert_eq!(read.to_compressed(), zero.to_compressed());
}

#[test]
fn clones_are_equal() {
    let p = G1Point::generator().mul(&small(9));
    assert!(p.clone().eq(&p));
}

#[test]
fn test_serde() {
    let p = G1Point::default();

    let buf = p.to_compressed();
    let deserialized: G1Point = G1Point::from_compressed(&buf[..]).unwrap();
    assert!(deserialized.eq(&p));
}

#[test]
fn the_default_element_is_neutral() {
    let zero = G1Point::default();
    let p = G1Point::generator();
    assert!(zero.add(&p).eq(&p));
    assert!(zero.eq(&p.mul(&ScalarField::zero())));
}
