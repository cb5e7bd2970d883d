use ark_bls12_381::Fr;
use ark_ff::{BigInteger, PrimeField};
use ibc_aaka_scheme::ScalarField;
use rand::rngs::StdRng;
use rand::SeedableRng;

// The group order, least significant byte first.
const MODULUS_LE: [u8; 32] = [
    0x01, 0x00, 0x00, 0x00, 0xff, 0xff, 0xff, 0xff, 0xfe, 0x5b, 0xfe, 0xff, 0x02, 0xa4, 0xbd, 0x53,
    0x05, 0xd8, 0xa1, 0x09, 0x08, 0xd8, 0x39, 0x33, 0x48, 0x7d, 0x9d, 0x29, 0x53, 0xa7, 0xed, 0x73,
];

fn small(n: u8) -> ScalarField {
    let mut bytes = [0u8; 32];
    bytes[0] = n;
    ScalarField::from_le_bytes(&bytes).unwrap()
}

#[test]
fn the_modulus_is_that_of_the_curve() {
    assert_eq!(Fr::MODULUS.to_bytes_le(), MODULUS_LE.to_vec());
}

#[test]
fn zero_and_one() {
    assert!(ScalarField::zero().is_zero());
    assert!(!ScalarField::one().is_zero());
    assert_eq!(ScalarField::zero().to_le_bytes(), vec![0u8; 32]);
    assert_eq!(ScalarField::one(), small(1));
}

#[test]
fn sums_and_products_of_small_scalars() {
    assert_eq!(small(2).add(&small(3)), small(5));
    assert_eq!(small(2).mul(&small(3)), small(6));
    assert_eq!(small(7).add(&ScalarField::zero()), small(7));
    assert_eq!(small(7).mul(&ScalarField::one()), small(7));
    assert_eq!(small(7).mul(&ScalarField::zero()), ScalarField::zero());
}

#[test]
fn sums_wrap_at_the_modulus() {
    let mut top = MODULUS_LE;
    top[0] = 0x00;
    let largest = ScalarField::from_le_bytes(&top).unwrap();
    assert_eq!(largest.add(&ScalarField::one()), ScalarField::zero());
    assert_eq!(largest.add(&small(3)), small(2));
    assert_eq!(largest.mul(&largest), ScalarField::one());
}

#[test]
fn inverse_of_zero_is_none() {
    assert_eq!(ScalarField::zero().inverse(), None);
}

#[test]
fn inverse_times_scalar_is_one() {
    let two = small(2);
    let half = two.inverse().unwrap();
    assert_ne!(half, two);
    assert_eq!(half.mul(&two), ScalarField::one());
    assert_eq!(ScalarField::one().inverse(), Some(ScalarField::one()));
    let mut rng = StdRng::seed_from_u64(3);
    let a = ScalarField::random(&mut rng);
    assert_eq!(a.inverse().unwrap().mul(&a), ScalarField::one());
}

#[test]
fn bytes_round_trip() {
    let mut rng = StdRng::seed_from_u64(5);
    let a = ScalarField::random(&mut rng);
    let bytes = a.to_le_bytes();
    assert_eq!(bytes.len(), 32);
    assert_eq!(ScalarField::from_le_bytes(&bytes), Some(a));
}

#[test]
fn bytes_are_those_of_the_field_element() {
    let mut bytes = [0u8; 32];
    bytes[0] = 0x34;
    bytes[1] = 0x12;
    bytes[9] = 0x01;
    let a = ScalarField::from_le_bytes(&bytes).unwrap();
    let b = Fr::from_le_bytes_mod_order(&bytes);
    assert_eq!(a.to_le_bytes(), b.into_bigint().to_bytes_le());
    assert_eq!(a.to_le_bytes(), bytes.to_vec());
}

#[test]
fn numbers_from_the_modulus_up_are_no_scalars() {
    assert_eq!(ScalarField::from_le_bytes(&MODULUS_LE), None);
    assert_eq!(ScalarField::from_le_bytes(&[0xff; 32]), None);
    let mut above = MODULUS_LE;
    above[0] = 0x02;
    assert_eq!(ScalarField::from_le_bytes(&above), None);
    let mut below = MODULUS_LE;
    below[0] = 0x00;
    assert!(ScalarField::from_le_bytes(&below).is_some());
    let mut high_limb = MODULUS_LE;
    high_limb[31] = 0x74;
    assert_eq!(ScalarField::from_le_bytes(&high_limb), None);
    let mut lower_limb = [0xffu8; 32];
    lower_limb[31] = 0x72;
    assert!(ScalarField::from_le_bytes(&lower_limb).is_some());
}

#[test]
fn scalars_have_thirty_two_bytes() {
    assert_eq!(ScalarField::from_le_bytes(&[0u8; 31]), None);
    assert_eq!(ScalarField::from_le_bytes(&[0u8; 33]), None);
    assert_eq!(ScalarField::from_le_bytes(&[]), None);
}

#[test]
fn big_endian_bytes_are_reduced() {
    assert_eq!(ScalarField::from_be_bytes_mod_order(&[0x01, 0x00]), {
        let mut bytes = [0u8; 32];
        bytes[1] = 1;
        ScalarField::from_le_bytes(&bytes).unwrap()
    });
    let mut modulus_be = MODULUS_LE;
    modulus_be.reverse();
    assert_eq!(ScalarField::from_be_bytes_mod_order(&modulus_be), ScalarField::zero());
    assert_eq!(ScalarField::from_be_bytes_mod_order(&[]), ScalarField::zero());
    let long = [0xabu8; 48];
    assert_eq!(
        ScalarField::from_be_bytes_mod_order(&long).to_le_bytes(),
        Fr::from_be_bytes_mod_order(&long).into_bigint().to_bytes_le()
    );
}

#[test]
fn random_scalars_follow_the_seed() {
    let mut first = StdRng::seed_from_u64(0);
    let mut second = StdRng::seed_from_u64(0);
    let a = ScalarField::random(&mut first);
    let b = ScalarField::random(&mut second);
    let c = ScalarField::random(&mut first);
    assert_eq!(a, b);
    assert_ne!(a, c);
}
