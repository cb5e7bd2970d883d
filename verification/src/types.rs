//! The keys, the messages and the state of the scheme.

use vstd::prelude::*;
use crate::curve::{G1Point, G2Point, GtPoint};
use crate::field::ScalarField;

verus! {

/// The public parameters that the registration center publishes: the
/// generator `P` of G1, the two public keys `s·P` and `ŝ·P`, and the
/// pairing `g` of the generators of G1 and G2.
#[derive(Debug, Clone, PartialEq)]
pub struct SystemParameters {
    pub p: G1Point,
    pub p_pub: G1Point,
    pub p_pub_hat: G1Point,
    pub g: GtPoint,
}

/// The master secret of the registration center: the scalars `s` and `ŝ`.
#[derive(Debug, Clone, PartialEq, Eq, Structural)]
pub struct MasterSecretKey {
    pub s: ScalarField,
    pub s_hat: ScalarField,
}

/// A user's secret key: the element `R_u` and the scalar `SID_u`.
#[derive(Debug, Clone, PartialEq)]
pub struct UserSecretKey {
    pub r_u: G1Point,
    pub sid_u: ScalarField,
}

/// A server's secret key: the element `SID_ms` of G2.
#[derive(Debug, Clone, PartialEq)]
pub struct ServerSecretKey {
    pub sid_ms: G2Point,
}

/// The first message of the exchange, from user to server.
#[derive(Debug, Clone, PartialEq)]
pub struct UserAuthRequest {
    pub m: G1Point,
    /// The user's identity, `R_u` and `X`, masked.
    pub n: Vec<u8>,
    pub sigma: ScalarField,
    pub timestamp: u64,
}

/// The second message of the exchange, from server to user.
#[derive(Debug, Clone, PartialEq)]
pub struct ServerAuthResponse {
    pub t: ScalarField,
    pub y: G1Point,
    pub timestamp: u64,
}

/// The key that both sides hold after the exchange.
#[derive(Debug, Clone, PartialEq, Eq)]
pub struct SessionKey(pub Vec<u8>);

/// What a user keeps between sending the request and reading the response.
#[derive(Debug, Clone)]
pub struct UserState {
    pub x: ScalarField,
    pub temp_x_pub: G1Point,
    pub user_id: Vec<u8>,
    pub r_u: G1Point,
}

} // verus!
