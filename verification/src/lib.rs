//! Identity-based anonymous authenticated key agreement over BLS12-381.
//!
//! A registration center mints the public parameters and the secret keys of
//! users and servers; a user and a server then run a two-message exchange that
//! authenticates both sides and leaves each with the same session key.

pub mod bytes;
pub mod clock;
pub mod config;
pub mod curve;
pub mod error;
pub mod field;
pub mod hash_utils;
pub mod laws;
pub mod node;
pub mod rc;
pub mod server;
pub mod shares;
pub mod types;
pub mod user;
pub mod wire;

pub use clock::{get_current_timestamp, is_timestamp_fresh};
pub use config::RcConfig;
pub use curve::{G1Point, G2Point, GtPoint};
pub use error::AAKAError;
pub use field::ScalarField;
pub use node::RcNode;
pub use shares::{PeerAnswer, Share};
pub use types::{
    MasterSecretKey, ServerAuthResponse, ServerSecretKey, SessionKey, SystemParameters,
    UserAuthRequest, UserSecretKey, UserState,
};
