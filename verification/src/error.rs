//! The failures that the scheme reports.

use vstd::prelude::*;
use vstd::string::StringExecFns;

verus! {

/// Why an operation of the scheme failed. Every failure ends the call that
/// met it; nothing is retried.
#[derive(Debug, Clone)]
pub enum AAKAError {
    /// A group element or scalar could not be encoded.
    Serialization(String),
    /// Bytes that should hold a compressed group element do not.
    Deserialization(String),
    /// A random scalar was zero, an inverse does not exist, or the clock
    /// stands before the epoch.
    CryptoError(String),
    /// A timestamp lies outside the freshness window.
    InvalidTimestamp,
    /// The user's signature does not fit the request.
    SignatureVerificationFailed,
    /// The server's authenticator does not fit the response.
    ServerResponseVerificationFailed,
    /// An argument is malformed: too few shares, a share of the wrong
    /// length, a masked payload too short to hold two points.
    InvalidInput(String),
    /// A derived byte string of the wanted length cannot be produced.
    HashError(String),
    /// A failure of no other kind. No operation of the scheme reports it;
    /// it is there for the programs around the scheme.
    Other(String),
}

impl AAKAError {
    /// The fixed text that introduces each kind of failure.
    pub open spec fn prefix(self) -> Seq<char> {
        match self {
            AAKAError::Serialization(_) => "Serialization error: "@,
            AAKAError::Deserialization(_) => "Deserialization error: "@,
            AAKAError::CryptoError(_) => "Cryptographic operation failed: "@,
            AAKAError::InvalidTimestamp => "Invalid timestamp"@,
            AAKAError::SignatureVerificationFailed => "Signature verification failed"@,
            AAKAError::ServerResponseVerificationFailed => "Server response verification failed"@,
            AAKAError::InvalidInput(_) => "Input data invalid: "@,
            AAKAError::HashError(_) => "Hash function error: "@,
            AAKAError::Other(_) => "other error: "@,
        }
    }

    /// The detail that a failure carries, empty where it carries none.
    pub open spec fn detail(self) -> Seq<char> {
        match self {
            AAKAError::Serialization(m) => m@,
            AAKAError::Deserialization(m) => m@,
            AAKAError::CryptoError(m) => m@,
            AAKAError::InvalidInput(m) => m@,
            AAKAError::HashError(m) => m@,
            AAKAError::Other(m) => m@,
            _ => Seq::<char>::empty(),
        }
    }

    /// The failure as one line of text: its prefix, then its detail.
    pub fn message(&self) -> (r: String)
        ensures
            r@ == self.prefix() + self.detail(),
    {
        match self {
            AAKAError::Serialization(m) => "Serialization error: ".to_owned().concat(m.as_str()),
            AAKAError::Deserialization(m) => "Deserialization error: ".to_owned().concat(
                m.as_str(),
            ),
            AAKAError::CryptoError(m) => "Cryptographic operation failed: ".to_owned().concat(
                m.as_str(),
            ),
            AAKAError::InvalidTimestamp => "Invalid timestamp".to_owned(),
            AAKAError::SignatureVerificationFailed => "Signature verification failed".to_owned(),
            AAKAError::ServerResponseVerificationFailed => {
                "Server response verification failed".to_owned()
            },
            AAKAError::InvalidInput(m) => "Input data invalid: ".to_owned().concat(m.as_str()),
            AAKAError::HashError(m) => "Hash function error: ".to_owned().concat(m.as_str()),
            AAKAError::Other(m) => "other error: ".to_owned().concat(m.as_str()),
        }
    }
}

} // verus!
