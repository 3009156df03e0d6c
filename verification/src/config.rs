//! The options with which the transport is configured.

use vstd::prelude::*;

verus! {

/// What the transport is told before it starts. Addresses and node URLs are
/// text here; the transport parses them.
#[derive(Clone, Debug, PartialEq, Eq)]
pub struct NetworkConfig {
    /// The version string advertised in the handshake.
    pub client_version: String,
    /// The socket address announced to peers.
    pub public_address: Option<String>,
    /// The local address to bind.
    pub listen_address: Option<String>,
    /// The enode URLs contacted at startup, in this order.
    pub boot_nodes: Vec<String>,
    /// Whether to attempt NAT traversal.
    pub nat_enabled: bool,
    /// The upper bound on the number of sessions.
    pub max_peers: u32,
    /// The lower bound on the number of sessions.
    pub min_peers: u32,
}

/// The boot nodes of the stock configuration.
pub open spec fn stock_boot_nodes() -> Seq<Seq<char>> {
    seq![
        "enode://d860a01f9722d78051619d1e2351aba3f43f943f6f00718d1b9baa4101932a1f5011f16bb2b1bb35db20d6fe28fa0bf09636d26a87d31de9ec6203eeedb1f666@18.138.108.67:30303"@,
        "enode://22a8232c3abc76a16ae9d6c3b164f98775fe226f0917b0ca871128a74a8e9630b458460865bab457221f1d448dd9791d24c4e5d88786180ac185df813a68d4de@3.209.45.79:30303"@,
        "enode://ca6de62fce278f96aea6ec5a2daadb877e51651247cb96ee310a318def462913b653963c155a0ef6c7d50048bba6e6cea881130857413d9f50a621546b590758@34.255.23.113:30303"@,
        "enode://5f7d0794c464b2fcd514d41e16e4b535a98ac792a71ca9667c7cef35595dc34c9a1b793c0622554cf87f34006942abb526af7d2e37d715ac32ed02170556cce2@51.161.101.207:30303"@,
    ]
}

impl NetworkConfig {
    /// The texts of the boot nodes, in their order.
    pub open spec fn boot_node_texts(&self) -> Seq<Seq<char>> {
        Seq::new(self.boot_nodes@.len(), |i: int| self.boot_nodes@[i]@)
    }

    /// A configuration with the given client version and peer bounds, no
    /// addresses, no boot nodes and no NAT traversal.
    pub fn new(client_version: String, min_peers: u32, max_peers: u32) -> (config: NetworkConfig)
        ensures
            config.client_version == client_version,
            config.public_address is None,
            config.listen_address is None,
            config.boot_nodes@.len() == 0,
            !config.nat_enabled,
            config.min_peers == min_peers,
            config.max_peers == max_peers,
    {
        NetworkConfig {
            client_version,
            public_address: None,
            listen_address: None,
            boot_nodes: Vec::new(),
            nat_enabled: false,
            max_peers,
            min_peers,
        }
    }

    /// The stock configuration: four boot nodes of the main network, NAT
    /// traversal on, between 30 and 100 peers.
    pub fn stock() -> (config: NetworkConfig)
        ensures
            config.client_version@ == "reth-scheduler-0.1.0"@,
            config.public_address matches Some(address) && address@ == "178.222.150.180:30303"@,
            config.listen_address is None,
            config.boot_node_texts() == stock_boot_nodes(),
            config.nat_enabled,
            config.max_peers == 100,
            config.min_peers == 30,
    {
        let mut boot_nodes: Vec<String> = Vec::new();
        boot_nodes.push(
            "enode://d860a01f9722d78051619d1e2351aba3f43f943f6f00718d1b9baa4101932a1f5011f16bb2b1bb35db20d6fe28fa0bf09636d26a87d31de9ec6203eeedb1f666@18.138.108.67:30303".to_owned(),
        );
        boot_nodes.push(
            "enode://22a8232c3abc76a16ae9d6c3b164f98775fe226f0917b0ca871128a74a8e9630b458460865bab457221f1d448dd9791d24c4e5d88786180ac185df813a68d4de@3.209.45.79:30303".to_owned(),
        );
        boot_nodes.push(
            "enode://ca6de62fce278f96aea6ec5a2daadb877e51651247cb96ee310a318def462913b653963c155a0ef6c7d50048bba6e6cea881130857413d9f50a621546b590758@34.255.23.113:30303".to_owned(),
        );
        boot_nodes.push(
            "enode://5f7d0794c464b2fcd514d41e16e4b535a98ac792a71ca9667c7cef35595dc34c9a1b793c0622554cf87f34006942abb526af7d2e37d715ac32ed02170556cce2@51.161.101.207:30303".to_owned(),
        );
        let config = NetworkConfig {
            client_version: "reth-scheduler-0.1.0".to_owned(),
            public_address: Some("178.222.150.180:30303".to_owned()),
            listen_address: None,
            boot_nodes,
            nat_enabled: true,
            max_peers: 100,
            min_peers: 30,
        };
        proof {
            assert(config.boot_node_texts() =~= stock_boot_nodes());
        }
        config
    }
}

} // verus!
