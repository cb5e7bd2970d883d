//! A node of the registration center.
//!
//! The node that sets the system up deals the master secret out in shares,
//! keeps one, and hands the others over for its peers; it does not keep the
//! secret. To register a user or a server, a node puts the secret together
//! from the shares it has gathered, makes the key, and lets the secret go.

use vstd::prelude::*;
use rand::rngs::StdRng;
use crate::bytes::le_bytes;
use crate::config::RcConfig;
use crate::error::AAKAError;
use crate::field::scalar_modulus;
use crate::rc::{
    params_of, register_server, register_user, server_denominator, server_key_of, setup,
    user_key_of,
};
use crate::shares::{
    is_dealing, reconstructs, shamir_interpolation, share_views, Share, MAX_SHARES,
};
use crate::types::{MasterSecretKey, ServerSecretKey, SystemParameters, UserSecretKey};
use crate::wire::{
    hex_encoding, ServerRegistrationResponse, SystemParametersResponse, UserRegistrationResponse,
};

verus! {

/// What a node holds: its configuration and, once the system is set up,
/// the public parameters and its share of the master secret.
#[derive(Debug)]
pub struct RcNode {
    pub params: Option<SystemParameters>,
    pub share: Option<Share>,
    pub config: RcConfig,
}

/// `wire` is the text of the parameters.
pub open spec fn params_written(params: SystemParameters, wire: SystemParametersResponse) -> bool {
    &&& wire.p_hex@ == hex_encoding(params.p.encoding())
    &&& wire.p_pub_hex@ == hex_encoding(params.p_pub.encoding())
    &&& wire.p_pub_hat_hex@ == hex_encoding(params.p_pub_hat.encoding())
    &&& wire.g_hex@ == hex_encoding(params.g.encoding())
}

/// The threshold of a node as the sharing takes it: its lowest eight bits.
pub open spec fn sharing_threshold(config: RcConfig) -> u8 {
    (config.threshold % 256) as u8
}

impl RcNode {
    /// A node that has not been set up yet.
    pub fn new(config: RcConfig) -> (r: RcNode)
        ensures
            r.params is None,
            r.share is None,
            r.config == config,
    {
        RcNode { params: None, share: None, config }
    }

    /// The public parameters in their wire form. Fails with `InvalidInput`
    /// before the system is set up.
    pub fn get_params(&self) -> (r: Result<SystemParametersResponse, AAKAError>)
        ensures
            match r {
                Ok(wire) => self.params is Some && params_written(self.params->Some_0, wire),
                Err(e) => self.params is None && e is InvalidInput,
            },
    {
        match &self.params {
            Some(params) => Ok(params.to_wire()),
            None => Err(
                AAKAError::InvalidInput(
                    "RC should be initialized first by calling /setup endpoint before /get_params."
                        .to_owned(),
                ),
            ),
        }
    }

    /// Sets the system up, once: mints the parameters and the master
    /// secret, deals the secret out in as many shares as there are nodes,
    /// keeps the parameters and the last share, and returns the parameters
    /// in their wire form with the shares for the peers. The master secret
    /// is not kept. Fails with `InvalidInput`, and changes nothing, where
    /// the node is set up already or knows of no nodes; fails with
    /// `CryptoError` where a scalar drawn is zero.
    pub fn setup_system(&mut self, rng: &mut StdRng) -> (r: Result<
        (SystemParametersResponse, Vec<Share>),
        AAKAError,
    >)
        ensures
            final(self).config == old(self).config,
            (old(self).params is Some || old(self).config.nodes@.len() == 0) <==> (r is Err
                && r->Err_0 is InvalidInput),
            r is Err && r->Err_0 is InvalidInput ==> *final(rng) == *old(rng),
            match r {
                Ok((wire, for_peers)) => {
                    &&& old(self).params is None
                    &&& final(self).params is Some
                    &&& final(self).share is Some
                    &&& params_written(final(self).params->Some_0, wire)
                    &&& for_peers@.len() + 1 == if old(self).config.nodes@.len() <= MAX_SHARES {
                        old(self).config.nodes@.len()
                    } else {
                        MAX_SHARES as nat
                    }
                    &&& exists|msk: MasterSecretKey|
                        {
                            &&& msk.s.inv()
                            &&& msk.s_hat.inv()
                            &&& msk.s@ != 0
                            &&& msk.s_hat@ != 0
                            &&& params_of(final(self).params->Some_0, msk)
                            &&& is_dealing(
                                share_views(for_peers@.push(final(self).share->Some_0)),
                                sharing_threshold(old(self).config),
                                msk.encoding(),
                            )
                        }
                },
                Err(e) => {
                    &&& final(self).params == old(self).params
                    &&& final(self).share == old(self).share
                    &&& e is InvalidInput || e is CryptoError
                },
            },
    {
        if self.params.is_some() {
            return Err(AAKAError::InvalidInput("the system is set up already".to_owned()));
        }
        let nodes_count = self.config.nodes.len();
        if nodes_count == 0 {
            return Err(AAKAError::InvalidInput("the node knows of no nodes".to_owned()));
        }
        let (params, msk) = match setup(rng) {
            Ok(pair) => pair,
            Err(e) => { return Err(e); },
        };
        proof {
            use_type_invariant(&msk.s);
            use_type_invariant(&msk.s_hat);
        }
        let mut shares = msk.into_shares(self.config.threshold, nodes_count);
        let ghost dealt = shares@;
        let own = match shares.pop() {
            Some(share) => share,
            None => {
                return Err(AAKAError::InvalidInput("the node knows of no nodes".to_owned()));
            },
        };
        assert(shares@.push(own) =~= dealt);
        let response = params.to_wire();
        self.params = Some(params);
        self.share = Some(own);
        Ok((response, shares))
    }

    /// Registers a user with the shares that the node has gathered: puts
    /// the master secret together, makes the user's key, and returns it in
    /// its wire form. Fails with `InvalidInput` where the shares do not
    /// give a master secret, and with `CryptoError` where the scalar drawn
    /// is zero.
    pub fn register_user(&self, gathered: Vec<Share>, id: &[u8], rng: &mut StdRng) -> (r: Result<
        UserRegistrationResponse,
        AAKAError,
    >)
        ensures
            !reconstructs(share_views(gathered@), sharing_threshold(self.config)) <==> (r is Err
                && r->Err_0 is InvalidInput),
            r is Err && r->Err_0 is InvalidInput ==> *final(rng) == *old(rng),
            match r {
                Ok(wire) => exists|msk: MasterSecretKey, usk: UserSecretKey, r0: nat|
                    {
                        &&& msk.s.inv()
                        &&& msk.s_hat.inv()
                        &&& usk.r_u.inv()
                        &&& usk.sid_u.inv()
                        &&& msk.encoding() == shamir_interpolation(share_views(gathered@))
                        &&& 0 < r0 < scalar_modulus()
                        &&& user_key_of(usk, msk, id@, r0)
                        &&& wire.r_u_hex@ == hex_encoding(usk.r_u.encoding())
                        &&& wire.sid_u_hex@ == hex_encoding(le_bytes(usk.sid_u@, 32))
                    },
                Err(e) => e is InvalidInput || e is CryptoError,
            },
    {
        let msk = match MasterSecretKey::from_shares(gathered, self.config.threshold) {
            Ok(msk) => msk,
            Err(e) => { return Err(e); },
        };
        let usk = match register_user(&msk, id, rng) {
            Ok(usk) => usk,
            Err(e) => { return Err(e); },
        };
        proof {
            use_type_invariant(&msk.s);
            use_type_invariant(&msk.s_hat);
            use_type_invariant(&usk.r_u);
            use_type_invariant(&usk.sid_u);
        }
        Ok(usk.to_wire())
    }

    /// Registers a server with the shares that the node has gathered: puts
    /// the master secret together, makes the server's key, and returns it
    /// in its wire form. Fails with `InvalidInput` where the shares do not
    /// give a master secret, and with `CryptoError` where the server's
    /// identity has no key under it.
    pub fn register_server(&self, gathered: Vec<Share>, id: &[u8]) -> (r: Result<
        ServerRegistrationResponse,
        AAKAError,
    >)
        ensures
            !reconstructs(share_views(gathered@), sharing_threshold(self.config)) ==> r is Err
                && r->Err_0 is InvalidInput,
            reconstructs(share_views(gathered@), sharing_threshold(self.config)) ==> exists|
                msk: MasterSecretKey,
            |
                {
                    &&& msk.s.inv()
                    &&& msk.s_hat.inv()
                    &&& msk.encoding() == shamir_interpolation(share_views(gathered@))
                    &&& if server_denominator(msk, id@) == 0 {
                        r is Err && r->Err_0 is CryptoError
                    } else {
                        r is Ok && exists|ssk: ServerSecretKey|
                            ssk.sid_ms.inv() && server_key_of(ssk, msk, id@)
                                && r->Ok_0.sid_ms_hex@ == hex_encoding(ssk.sid_ms.encoding())
                    }
                },
    {
        let msk = match MasterSecretKey::from_shares(gathered, self.config.threshold) {
            Ok(msk) => msk,
            Err(e) => { return Err(e); },
        };
        proof {
            use_type_invariant(&msk.s);
            use_type_invariant(&msk.s_hat);
        }
        match register_server(&msk, id) {
            Ok(ssk) => {
                proof {
                    use_type_invariant(&ssk.sid_ms);
                }
                Ok(ssk.to_wire())
            },
            Err(e) => Err(e),
        }
    }

    /// Takes the share that a peer has dealt to this node. Fails with
    /// `InvalidInput`, and changes nothing, where the bytes are no share.
    pub fn set_share(&mut self, bytes: &[u8]) -> (r: Result<(), AAKAError>)
        ensures
            final(self).config == old(self).config,
            final(self).params == old(self).params,
            bytes@.len() >= 2 ==> r is Ok && final(self).share is Some && final(self).share->Some_0@
                == (bytes@[0], bytes@.subrange(1, bytes@.len() as int)),
            bytes@.len() < 2 ==> r is Err && r->Err_0 is InvalidInput && final(self).share == old(
                self,
            ).share,
    {
        match Share::from_bytes(bytes) {
            Ok(share) => {
                self.share = Some(share);
                Ok(())
            },
            Err(e) => Err(e),
        }
    }

    /// The node's share as bytes. Fails with `InvalidInput` where the node
    /// holds none.
    pub fn get_share(&self) -> (r: Result<Vec<u8>, AAKAError>)
        ensures
            match r {
                Ok(bytes) => self.share is Some && bytes@ == seq![self.share->Some_0.x]
                    + self.share->Some_0.y@,
                Err(e) => self.share is None && e is InvalidInput,
            },
    {
        match &self.share {
            Some(share) => Ok(share.to_bytes()),
            None => Err(
                AAKAError::InvalidInput(
                    "No share available. Ensure /set_share was called first.".to_owned(),
                ),
            ),
        }
    }
}

} // verus!
