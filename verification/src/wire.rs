//! The scheme on the wire: every group element and scalar travels as the
//! lower-case hexadecimal text of its canonical encoding, byte strings as
//! hexadecimal text, timestamps as numbers.

use vstd::prelude::*;
use crate::bytes::{le_bytes, le_value, slice_bytes};
use crate::curve::{
    g1_decode, g2_decode, gt_decode, is_g1_encoding, is_g2_encoding, is_gt_encoding, G1Point,
    G2Point, GtPoint,
};
use crate::error::AAKAError;
use crate::field::{scalar_modulus, ScalarField, SCALAR_LEN};
use crate::types::{
    ServerAuthResponse, ServerSecretKey, SystemParameters, UserAuthRequest, UserSecretKey,
};

verus! {

/// The public parameters as the registration center sends them.
#[derive(Debug, Clone)]
pub struct SystemParametersResponse {
    pub p_hex: String,
    pub p_pub_hex: String,
    pub p_pub_hat_hex: String,
    pub g_hex: String,
}

/// A user's key as the registration center sends it.
#[derive(Debug, Clone)]
pub struct UserRegistrationResponse {
    pub r_u_hex: String,
    pub sid_u_hex: String,
}

/// A server's key as the registration center sends it.
#[derive(Debug, Clone)]
pub struct ServerRegistrationResponse {
    pub sid_ms_hex: String,
}

/// A user's request as it is sent to the server.
#[derive(Debug, Clone)]
pub struct AuthRequestPayload {
    pub m_hex: String,
    pub n: String,
    pub sigma_hex: String,
    pub timestamp: u64,
}

/// A server's response as it is sent to the user.
#[derive(Debug, Clone)]
pub struct AuthResponsePayload {
    pub t_hex: String,
    pub y_hex: String,
    pub timestamp: u64,
}

/// What a server answers a request that it accepts.
#[derive(Debug, Clone)]
pub struct AuthSuccessResponse {
    pub message: String,
    pub response: AuthResponsePayload,
    /// The session key, sent back for demonstration only: a server in
    /// earnest keeps it to itself.
    pub session_key_hex: String,
}

/// The lower-case hexadecimal digit for a number below sixteen.
pub open spec fn hex_digit(n: int) -> char {
    if n < 10 {
        (48 + n) as char
    } else {
        (87 + n) as char
    }
}

/// The number that a hexadecimal digit stands for, in either case.
pub open spec fn hex_value(c: char) -> Option<int> {
    let n = c as int;
    if 48 <= n <= 57 {
        Some(n - 48)
    } else if 97 <= n <= 102 {
        Some(n - 87)
    } else if 65 <= n <= 70 {
        Some(n - 55)
    } else {
        None
    }
}

/// The hexadecimal text of a byte string: two lower-case digits for each
/// byte, the high one first.
pub open spec fn hex_encoding(bytes: Seq<u8>) -> Seq<char> {
    Seq::new(
        2 * bytes.len(),
        |i: int|
            if i % 2 == 0 {
                hex_digit(bytes[i / 2] as int / 16)
            } else {
                hex_digit(bytes[i / 2] as int % 16)
            },
    )
}

/// The text is hexadecimal: an even number of hexadecimal digits.
pub open spec fn is_hex(text: Seq<char>) -> bool {
    text.len() % 2 == 0 && forall|i: int| 0 <= i < text.len() ==> hex_value(#[trigger] text[i]) is Some
}

/// The byte string that a hexadecimal text stands for, where it is one.
pub open spec fn hex_decoding(text: Seq<char>) -> Option<Seq<u8>> {
    if is_hex(text) {
        Some(
            Seq::new(
                text.len() / 2,
                |i: int| (hex_value(text[2 * i])->Some_0 * 16 + hex_value(text[2 * i + 1])->Some_0) as u8,
            ),
        )
    } else {
        None
    }
}

/// The scalar that an encoding stands for: its first 32 bytes, least
/// significant first, where they stand for a number below the group order.
pub open spec fn scalar_decode(bytes: Seq<u8>) -> Option<nat> {
    if bytes.len() >= SCALAR_LEN && le_value(bytes.subrange(0, 32)) < scalar_modulus() {
        Some(le_value(bytes.subrange(0, 32)))
    } else {
        None
    }
}

/// Reading the hexadecimal text of a byte string gives the byte string back.
pub proof fn lemma_hex_round_trip(bytes: Seq<u8>)
    ensures
        hex_decoding(hex_encoding(bytes)) == Some(bytes),
{
    let text = hex_encoding(bytes);
    assert forall|i: int| 0 <= i < text.len() implies hex_value(#[trigger] text[i]) is Some by {
        let b = bytes[i / 2] as int;
        assert(0 <= b / 16 < 16 && 0 <= b % 16 < 16);
    }
    assert(is_hex(text));
    let back = hex_decoding(text)->Some_0;
    assert forall|k: int| 0 <= k < bytes.len() implies back[k] == bytes[k] by {
        let b = bytes[k] as int;
        assert((2 * k) % 2 == 0 && (2 * k) / 2 == k);
        assert((2 * k + 1) % 2 == 1 && (2 * k + 1) / 2 == k);
        assert(text[2 * k] == hex_digit(b / 16));
        assert(text[2 * k + 1] == hex_digit(b % 16));
        assert(hex_value(hex_digit(b / 16)) == Some(b / 16));
        assert(hex_value(hex_digit(b % 16)) == Some(b % 16));
        assert((b / 16) * 16 + b % 16 == b);
    }
    assert(back =~= bytes);
}

/// The hexadecimal text of a byte string.
pub fn to_hex(bytes: &[u8]) -> (r: String)
    ensures
        r@ == hex_encoding(bytes@),
{
    hex_encode(bytes)
}

/// The byte string that a hexadecimal text stands for. Fails with
/// `Deserialization` where the text is not hexadecimal.
pub fn from_hex(text: &str) -> (r: Result<Vec<u8>, AAKAError>)
    ensures
        match r {
            Ok(bytes) => hex_decoding(text@) == Some(bytes@),
            Err(e) => hex_decoding(text@) is None && e is Deserialization,
        },
{
    match hex_decode(text) {
        Some(bytes) => Ok(bytes),
        None => Err(AAKAError::Deserialization("Hex decoding failed".to_owned())),
    }
}

/// `hex::encode`: two lower-case hexadecimal digits for each byte, the high
/// one first.
#[verifier::external_body]
fn hex_encode(bytes: &[u8]) -> (r: String)
    ensures
        r@ == hex_encoding(bytes@),
{
    hex::encode(bytes)
}

/// `hex::decode`: the bytes that the text stands for, two digits of either
/// case to a byte; nothing where the text has an odd number of bytes or
/// holds anything but hexadecimal digits.
#[verifier::external_body]
fn hex_decode(text: &str) -> (r: Option<Vec<u8>>)
    ensures
        match r {
            Some(bytes) => hex_decoding(text@) == Some(bytes@),
            None => hex_decoding(text@) is None,
        },
{
    hex::decode(text).ok()
}

/// Reads a scalar from its canonical encoding: 32 bytes, least significant
/// first; what follows them is not read. Fails with `Deserialization`.
pub fn scalar_from_compressed(bytes: &[u8]) -> (r: Result<ScalarField, AAKAError>)
    ensures
        match r {
            Ok(s) => scalar_decode(bytes@) == Some(s@),
            Err(e) => scalar_decode(bytes@) is None && e is Deserialization,
        },
{
    if bytes.len() < SCALAR_LEN {
        return Err(AAKAError::Deserialization("a scalar has 32 bytes".to_owned()));
    }
    let head = slice_bytes(bytes, 0, SCALAR_LEN);
    match ScalarField::from_le_bytes(head.as_slice()) {
        Some(s) => Ok(s),
        None => Err(AAKAError::Deserialization("not a reduced scalar".to_owned())),
    }
}

/// What a text stands for as an element of G1.
pub open spec fn g1_from_text(text: Seq<char>) -> Option<nat> {
    match hex_decoding(text) {
        Some(bytes) => g1_decode(bytes),
        None => None,
    }
}

/// What a text stands for as an element of G2.
pub open spec fn g2_from_text(text: Seq<char>) -> Option<nat> {
    match hex_decoding(text) {
        Some(bytes) => g2_decode(bytes),
        None => None,
    }
}

/// What a text stands for as an element of GT.
pub open spec fn gt_from_text(text: Seq<char>) -> Option<nat> {
    match hex_decoding(text) {
        Some(bytes) => gt_decode(bytes),
        None => None,
    }
}

/// What a text stands for as a scalar.
pub open spec fn scalar_from_text(text: Seq<char>) -> Option<nat> {
    match hex_decoding(text) {
        Some(bytes) => scalar_decode(bytes),
        None => None,
    }
}

/// The text of an element of G1.
pub fn g1_to_hex(point: &G1Point) -> (r: String)
    ensures
        r@ == hex_encoding(point.encoding()),
{
    to_hex(point.to_compressed().as_slice())
}

/// Reads an element of G1 from its text. Fails with `Deserialization`.
pub fn g1_from_hex(text: &str) -> (r: Result<G1Point, AAKAError>)
    ensures
        match r {
            Ok(p) => g1_from_text(text@) == Some(p@),
            Err(e) => g1_from_text(text@) is None && e is Deserialization,
        },
{
    match from_hex(text) {
        Ok(bytes) => G1Point::from_compressed(bytes.as_slice()),
        Err(e) => Err(e),
    }
}

/// The text of an element of G2.
pub fn g2_to_hex(point: &G2Point) -> (r: String)
    ensures
        r@ == hex_encoding(point.encoding()),
{
    to_hex(point.to_compressed().as_slice())
}

/// Reads an element of G2 from its text. Fails with `Deserialization`.
pub fn g2_from_hex(text: &str) -> (r: Result<G2Point, AAKAError>)
    ensures
        match r {
            Ok(p) => g2_from_text(text@) == Some(p@),
            Err(e) => g2_from_text(text@) is None && e is Deserialization,
        },
{
    match from_hex(text) {
        Ok(bytes) => G2Point::from_compressed(bytes.as_slice()),
        Err(e) => Err(e),
    }
}

/// The text of an element of GT.
pub fn gt_to_hex(element: &GtPoint) -> (r: String)
    ensures
        r@ == hex_encoding(element.encoding()),
{
    to_hex(element.to_compressed().as_slice())
}

/// Reads an element of GT from its text. Fails with `Deserialization`.
pub fn gt_from_hex(text: &str) -> (r: Result<GtPoint, AAKAError>)
    ensures
        match r {
            Ok(p) => gt_from_text(text@) == Some(p@),
            Err(e) => gt_from_text(text@) is None && e is Deserialization,
        },
{
    match from_hex(text) {
        Ok(bytes) => GtPoint::from_compressed(bytes.as_slice()),
        Err(e) => Err(e),
    }
}

/// The text of a scalar.
pub fn scalar_to_hex(scalar: &ScalarField) -> (r: String)
    ensures
        r@ == hex_encoding(le_bytes(scalar@, 32)),
{
    to_hex(scalar.to_le_bytes().as_slice())
}

/// Reads a scalar from its text. Fails with `Deserialization`.
pub fn scalar_from_hex(text: &str) -> (r: Result<ScalarField, AAKAError>)
    ensures
        match r {
            Ok(s) => scalar_from_text(text@) == Some(s@),
            Err(e) => scalar_from_text(text@) is None && e is Deserialization,
        },
{
    match from_hex(text) {
        Ok(bytes) => scalar_from_compressed(bytes.as_slice()),
        Err(e) => Err(e),
    }
}

/// The text of an element of G1 reads as that element.
pub proof fn lemma_g1_text_round_trip(point: G1Point)
    requires
        point.inv(),
    ensures
        g1_from_text(hex_encoding(point.encoding())) == Some(point@),
{
    lemma_hex_round_trip(point.encoding());
}

/// The text of an element of G2 reads as that element.
pub proof fn lemma_g2_text_round_trip(point: G2Point)
    requires
        point.inv(),
    ensures
        g2_from_text(hex_encoding(point.encoding())) == Some(point@),
{
    lemma_hex_round_trip(point.encoding());
}

/// The text of an element of GT reads as that element.
pub proof fn lemma_gt_text_round_trip(element: GtPoint)
    requires
        element.inv(),
    ensures
        gt_from_text(hex_encoding(element.encoding())) == Some(element@),
{
    lemma_hex_round_trip(element.encoding());
}

/// The text of a scalar reads as that scalar.
pub proof fn lemma_scalar_text_round_trip(scalar: ScalarField)
    requires
        scalar.inv(),
    ensures
        scalar_from_text(hex_encoding(le_bytes(scalar@, 32))) == Some(scalar@),
{
    let bytes = le_bytes(scalar@, 32);
    lemma_hex_round_trip(bytes);
    crate::bytes::lemma_le_bytes_len(scalar@, 32);
    assert(bytes.subrange(0, 32) =~= bytes);
    crate::shares::lemma_modulus_fits();
    crate::bytes::lemma_le_value_of_bytes(scalar@, 32);
}

impl SystemParameters {
    /// The parameters as they are sent.
    pub fn to_wire(&self) -> (r: SystemParametersResponse)
        ensures
            r.p_hex@ == hex_encoding(self.p.encoding()),
            r.p_pub_hex@ == hex_encoding(self.p_pub.encoding()),
            r.p_pub_hat_hex@ == hex_encoding(self.p_pub_hat.encoding()),
            r.g_hex@ == hex_encoding(self.g.encoding()),
    {
        SystemParametersResponse {
            p_hex: g1_to_hex(&self.p),
            p_pub_hex: g1_to_hex(&self.p_pub),
            p_pub_hat_hex: g1_to_hex(&self.p_pub_hat),
            g_hex: gt_to_hex(&self.g),
        }
    }

    /// Reads the parameters as they were sent. Fails with
    /// `Deserialization` where one of the four does not read.
    pub fn from_wire(wire: &SystemParametersResponse) -> (r: Result<SystemParameters, AAKAError>)
        ensures
            match r {
                Ok(params) => {
                    &&& g1_from_text(wire.p_hex@) == Some(params.p@)
                    &&& g1_from_text(wire.p_pub_hex@) == Some(params.p_pub@)
                    &&& g1_from_text(wire.p_pub_hat_hex@) == Some(params.p_pub_hat@)
                    &&& gt_from_text(wire.g_hex@) == Some(params.g@)
                },
                Err(e) => {
                    &&& e is Deserialization
                    &&& (g1_from_text(wire.p_hex@) is None || g1_from_text(wire.p_pub_hex@) is None
                        || g1_from_text(wire.p_pub_hat_hex@) is None || gt_from_text(wire.g_hex@)
                        is None)
                },
            },
    {
        let p = match g1_from_hex(wire.p_hex.as_str()) {
            Ok(p) => p,
            Err(e) => { return Err(e); },
        };
        let p_pub = match g1_from_hex(wire.p_pub_hex.as_str()) {
            Ok(p) => p,
            Err(e) => { return Err(e); },
        };
        let p_pub_hat = match g1_from_hex(wire.p_pub_hat_hex.as_str()) {
            Ok(p) => p,
            Err(e) => { return Err(e); },
        };
        let g = match gt_from_hex(wire.g_hex.as_str()) {
            Ok(g) => g,
            Err(e) => { return Err(e); },
        };
        Ok(SystemParameters { p, p_pub, p_pub_hat, g })
    }
}

impl UserSecretKey {
    /// The key as it is sent.
    pub fn to_wire(&self) -> (r: UserRegistrationResponse)
        ensures
            r.r_u_hex@ == hex_encoding(self.r_u.encoding()),
            r.sid_u_hex@ == hex_encoding(le_bytes(self.sid_u@, 32)),
    {
        UserRegistrationResponse {
            r_u_hex: g1_to_hex(&self.r_u),
            sid_u_hex: scalar_to_hex(&self.sid_u),
        }
    }

    /// Reads the key as it was sent. Fails with `Deserialization` where
    /// one of the two does not read.
    pub fn from_wire(wire: &UserRegistrationResponse) -> (r: Result<UserSecretKey, AAKAError>)
        ensures
            match r {
                Ok(usk) => {
                    &&& g1_from_text(wire.r_u_hex@) == Some(usk.r_u@)
                    &&& scalar_from_text(wire.sid_u_hex@) == Some(usk.sid_u@)
                },
                Err(e) => {
                    &&& e is Deserialization
                    &&& (g1_from_text(wire.r_u_hex@) is None || scalar_from_text(wire.sid_u_hex@)
                        is None)
                },
            },
    {
        let r_u = match g1_from_hex(wire.r_u_hex.as_str()) {
            Ok(p) => p,
            Err(e) => { return Err(e); },
        };
        let sid_u = match scalar_from_hex(wire.sid_u_hex.as_str()) {
            Ok(s) => s,
            Err(e) => { return Err(e); },
        };
        Ok(UserSecretKey { r_u, sid_u })
    }
}

impl ServerSecretKey {
    /// The key as it is sent.
    pub fn to_wire(&self) -> (r: ServerRegistrationResponse)
        ensures
            r.sid_ms_hex@ == hex_encoding(self.sid_ms.encoding()),
    {
        ServerRegistrationResponse { sid_ms_hex: g2_to_hex(&self.sid_ms) }
    }

    /// Reads the key as it was sent. Fails with `Deserialization` where
    /// it does not read.
    pub fn from_wire(wire: &ServerRegistrationResponse) -> (r: Result<ServerSecretKey, AAKAError>)
        ensures
            match r {
                Ok(ssk) => g2_from_text(wire.sid_ms_hex@) == Some(ssk.sid_ms@),
                Err(e) => e is Deserialization && g2_from_text(wire.sid_ms_hex@) is None,
            },
    {
        match g2_from_hex(wire.sid_ms_hex.as_str()) {
            Ok(sid_ms) => Ok(ServerSecretKey { sid_ms }),
            Err(e) => Err(e),
        }
    }
}

/// The texts of a request as sent all read.
pub open spec fn request_readable(wire: AuthRequestPayload) -> bool {
    &&& g1_from_text(wire.m_hex@) is Some
    &&& hex_decoding(wire.n@) is Some
    &&& scalar_from_text(wire.sigma_hex@) is Some
}

/// `request` is what the request as sent reads as.
pub open spec fn request_reads(wire: AuthRequestPayload, request: UserAuthRequest) -> bool {
    &&& g1_from_text(wire.m_hex@) == Some(request.m@)
    &&& hex_decoding(wire.n@) == Some(request.n@)
    &&& scalar_from_text(wire.sigma_hex@) == Some(request.sigma@)
    &&& request.timestamp == wire.timestamp
}

/// `wire` is the response as it is sent.
pub open spec fn response_written(response: ServerAuthResponse, wire: AuthResponsePayload) -> bool {
    &&& wire.t_hex@ == hex_encoding(le_bytes(response.t@, 32))
    &&& wire.y_hex@ == hex_encoding(response.y.encoding())
    &&& wire.timestamp == response.timestamp
}

impl UserAuthRequest {
    /// The request as it is sent.
    pub fn to_wire(&self) -> (r: AuthRequestPayload)
        ensures
            r.m_hex@ == hex_encoding(self.m.encoding()),
            r.n@ == hex_encoding(self.n@),
            r.sigma_hex@ == hex_encoding(le_bytes(self.sigma@, 32)),
            r.timestamp == self.timestamp,
    {
        AuthRequestPayload {
            m_hex: g1_to_hex(&self.m),
            n: to_hex(self.n.as_slice()),
            sigma_hex: scalar_to_hex(&self.sigma),
            timestamp: self.timestamp,
        }
    }

    /// Reads the request as it was sent. Fails with `Deserialization`
    /// where one of its texts does not read.
    pub fn from_wire(wire: &AuthRequestPayload) -> (r: Result<UserAuthRequest, AAKAError>)
        ensures
            match r {
                Ok(request) => request_reads(*wire, request),
                Err(e) => e is Deserialization && !request_readable(*wire),
            },
    {
        let m = match g1_from_hex(wire.m_hex.as_str()) {
            Ok(p) => p,
            Err(e) => { return Err(e); },
        };
        let n = match from_hex(wire.n.as_str()) {
            Ok(bytes) => bytes,
            Err(e) => { return Err(e); },
        };
        let sigma = match scalar_from_hex(wire.sigma_hex.as_str()) {
            Ok(s) => s,
            Err(e) => { return Err(e); },
        };
        Ok(UserAuthRequest { m, n, sigma, timestamp: wire.timestamp })
    }
}

impl ServerAuthResponse {
    /// The response as it is sent.
    pub fn to_wire(&self) -> (r: AuthResponsePayload)
        ensures
            response_written(*self, r),
    {
        AuthResponsePayload {
            t_hex: scalar_to_hex(&self.t),
            y_hex: g1_to_hex(&self.y),
            timestamp: self.timestamp,
        }
    }

    /// Reads the response as it was sent. Fails with `Deserialization`
    /// where one of its texts does not read.
    pub fn from_wire(wire: &AuthResponsePayload) -> (r: Result<ServerAuthResponse, AAKAError>)
        ensures
            match r {
                Ok(response) => {
                    &&& scalar_from_text(wire.t_hex@) == Some(response.t@)
                    &&& g1_from_text(wire.y_hex@) == Some(response.y@)
                    &&& response.timestamp == wire.timestamp
                },
                Err(e) => {
                    &&& e is Deserialization
                    &&& (scalar_from_text(wire.t_hex@) is None || g1_from_text(wire.y_hex@)
                        is None)
                },
            },
    {
        let t = match scalar_from_hex(wire.t_hex.as_str()) {
            Ok(s) => s,
            Err(e) => { return Err(e); },
        };
        let y = match g1_from_hex(wire.y_hex.as_str()) {
            Ok(p) => p,
            Err(e) => { return Err(e); },
        };
        Ok(ServerAuthResponse { t, y, timestamp: wire.timestamp })
    }
}

} // verus!
