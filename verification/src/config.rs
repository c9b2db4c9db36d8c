//! The configuration of a single-validator exchange node.

use vstd::prelude::*;
use crate::crypto::{ed25519_public_key, KeyPair};

verus! {

/// Port of the node's public HTTP interface.
pub const API_PORT: u16 = 8080;

/// Port on which the node listens to its peers.
pub const PEER_PORT: u16 = 2000;

/// An IPv4 socket address.
pub struct SocketAddress {
    pub ip: [u8; 4],
    pub port: u16,
}

/// The address `0.0.0.0:port`: every interface of the machine.
pub open spec fn any_interface(a: SocketAddress, port: u16) -> bool {
    a.ip@ == seq![0u8, 0u8, 0u8, 0u8] && a.port == port
}

/// The public keys of a validator.
pub struct ValidatorKeys {
    pub consensus_key: [u8; 32],
    pub service_key: [u8; 32],
}

/// The validators that the blockchain starts with.
pub struct GenesisConfig {
    pub validator_keys: Vec<ValidatorKeys>,
}

/// Which web origins may call the HTTP interface.
pub enum AllowOrigin {
    Any,
    Whitelist(Vec<String>),
}

/// The node's HTTP interface.
pub struct NodeApiConfig {
    pub public_api_address: Option<SocketAddress>,
    pub allow_origin: Option<AllowOrigin>,
}

/// A node's configuration: its addresses, its key pairs and the genesis
/// validators.
pub struct NodeConfig {
    pub listen_address: SocketAddress,
    pub peers: Vec<SocketAddress>,
    pub service_keypair: KeyPair,
    pub consensus_keypair: KeyPair,
    pub genesis: GenesisConfig,
    pub external_address: Option<SocketAddress>,
    pub api: NodeApiConfig,
}

/// The configuration of a node that is the only validator, with the given
/// consensus and service key pairs: the genesis names their public keys, the
/// HTTP interface is on every interface at port 8080 open to any origin, and
/// peer traffic is on every interface at port 2000 with no known peers.
pub fn node_config_with(consensus_keypair: KeyPair, service_keypair: KeyPair) -> (r: NodeConfig)
    ensures
        r.consensus_keypair == consensus_keypair,
        r.service_keypair == service_keypair,
        any_interface(r.listen_address, PEER_PORT),
        r.peers@.len() == 0,
        r.external_address is None,
        r.api.public_api_address matches Some(a) && any_interface(a, API_PORT),
        r.api.allow_origin matches Some(AllowOrigin::Any),
        r.genesis.validator_keys@.len() == 1,
        r.genesis.validator_keys@[0].consensus_key@ == consensus_keypair.public_key(),
        r.genesis.validator_keys@[0].service_key@ == service_keypair.public_key(),
{
    let validator_keys = ValidatorKeys {
        consensus_key: consensus_keypair.public_bytes(),
        service_key: service_keypair.public_bytes(),
    };
    let mut validators: Vec<ValidatorKeys> = Vec::new();
    validators.push(validator_keys);
    let genesis = GenesisConfig { validator_keys: validators };
    let api_address = SocketAddress { ip: [0u8; 4], port: API_PORT };
    let api_cfg = NodeApiConfig { public_api_address: Some(api_address), allow_origin: Some(AllowOrigin::Any) };
    let peer_address = SocketAddress { ip: [0u8; 4], port: PEER_PORT };
    let r = NodeConfig {
        listen_address: peer_address,
        peers: Vec::new(),
        service_keypair,
        consensus_keypair,
        genesis,
        external_address: None,
        api: api_cfg,
    };
    assert(r.listen_address.ip@ =~= seq![0u8, 0u8, 0u8, 0u8]);
    assert(api_address.ip@ =~= seq![0u8, 0u8, 0u8, 0u8]);
    r
}

/// The configuration of a node that is the only validator, with a fresh
/// consensus key pair and then a fresh service key pair, each drawn on its
/// own (see `node_config_with` for the rest).
pub fn node_config() -> (r: NodeConfig)
    ensures
        any_interface(r.listen_address, PEER_PORT),
        r.peers@.len() == 0,
        r.external_address is None,
        r.api.public_api_address matches Some(a) && any_interface(a, API_PORT),
        r.api.allow_origin matches Some(AllowOrigin::Any),
        r.genesis.validator_keys@.len() == 1,
        r.genesis.validator_keys@[0].consensus_key@ == r.consensus_keypair.public_key(),
        r.genesis.validator_keys@[0].service_key@ == r.service_keypair.public_key(),
        r.consensus_keypair.public_key() == ed25519_public_key(r.consensus_keypair.secret_key()),
        r.service_keypair.public_key() == ed25519_public_key(r.service_keypair.secret_key()),
{
    let consensus_keypair = KeyPair::generate();
    let service_keypair = KeyPair::generate();
    node_config_with(consensus_keypair, service_keypair)
}

} // verus!
