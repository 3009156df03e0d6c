use devp2p_adapter::adapter::{OeDevp2p, PeerPenal, RegistrationError, TransportAction};
use devp2p_adapter::collaborators::{DummyImporter, DummySnapshot};
use devp2p_adapter::config::NetworkConfig;
use devp2p_adapter::protocol::{ProtocolId, ProtocolVersion};

#[test]
fn stock_configuration() {
    let config = NetworkConfig::stock();
    assert_eq!(config.client_version, "reth-scheduler-0.1.0");
    assert_eq!(config.public_address, Some("178.222.150.180:30303".to_string()));
    assert_eq!(config.listen_address, None);
    assert_eq!(config.boot_nodes.len(), 4);
    assert!(config.boot_nodes.iter().all(|n| n.starts_with("enode://") && n.ends_with(":30303")));
    assert!(config.boot_nodes[0].ends_with("@18.138.108.67:30303"));
    assert!(config.boot_nodes[3].ends_with("@51.161.101.207:30303"));
    assert!(config.nat_enabled);
    assert_eq!(config.max_peers, 100);
    assert_eq!(config.min_peers, 30);
}

#[test]
fn plain_configuration() {
    let config = NetworkConfig::new("client/1".to_string(), 2, 25);
    assert_eq!(config.client_version, "client/1");
    assert_eq!(config.public_address, None);
    assert_eq!(config.listen_address, None);
    assert!(config.boot_nodes.is_empty());
    assert!(!config.nat_enabled);
    assert_eq!(config.min_peers, 2);
    assert_eq!(config.max_peers, 25);
}

#[test]
fn adapter_keeps_its_configuration() {
    let adapter = OeDevp2p::new(NetworkConfig::stock());
    assert_eq!(*adapter.config(), NetworkConfig::stock());
    assert!(adapter.is_running());
}

#[test]
fn register_handler_registers_each_protocol_once() {
    let mut adapter = OeDevp2p::new(NetworkConfig::stock());
    let registrations = adapter.register_handler();
    assert_eq!(registrations.len(), 2);
    assert_eq!(registrations[0].handler.protocol, ProtocolId::Eth);
    assert_eq!(registrations[0].tag, *b"eth");
    assert_eq!(registrations[0].versions, vec![ProtocolVersion { number: 64, message_count: 17 }]);
    assert_eq!(registrations[1].handler.protocol, ProtocolId::Parity);
    assert_eq!(registrations[1].tag, *b"par");
    assert_eq!(
        registrations[1].versions,
        vec![
            ProtocolVersion { number: 1, message_count: 21 },
            ProtocolVersion { number: 2, message_count: 22 },
        ]
    );
    assert_eq!(adapter.register_handler(), vec![]);
}

#[test]
fn register_handler_after_stop_registers_nothing() {
    let mut adapter = OeDevp2p::new(NetworkConfig::stock());
    adapter.stop();
    assert_eq!(adapter.register_handler(), vec![]);
    assert_eq!(adapter.send_mesage(ProtocolId::Eth, &1, 1, &[1]), None);
}

#[test]
fn send_asks_the_transport_in_the_protocol_context() {
    let mut adapter = OeDevp2p::new(NetworkConfig::stock());
    adapter.register_handler();
    assert_eq!(
        adapter.send_mesage(ProtocolId::Eth, &3, 0x10, &[0xc0, 0x01]),
        Some(TransportAction::Send {
            protocol: *b"eth",
            peer: 3,
            message_id: 0x10,
            data: vec![0xc0, 0x01],
        })
    );
    assert_eq!(
        adapter.send_mesage(ProtocolId::Parity, &4, 0, &[]),
        Some(TransportAction::Send { protocol: *b"par", peer: 4, message_id: 0, data: vec![] })
    );
}

#[test]
fn send_for_unregistered_protocol_is_dropped() {
    let adapter = OeDevp2p::new(NetworkConfig::stock());
    assert_eq!(adapter.send_mesage(ProtocolId::Eth, &3, 1, &[1, 2]), None);
    assert_eq!(adapter.send_mesage(ProtocolId::Parity, &3, 1, &[1, 2]), None);
}

#[test]
fn send_to_unknown_peer() {
    let mut adapter = OeDevp2p::new(NetworkConfig::stock());
    adapter.register_handler();
    let unknown: usize = 9_999;
    let action = adapter.send_mesage(ProtocolId::Eth, &unknown, 1, &[0xde, 0xad]);
    match action {
        Some(TransportAction::Send { protocol, peer, message_id, data }) => {
            assert_eq!(protocol, *b"eth");
            assert_eq!(peer, unknown);
            assert_eq!(message_id, 1);
            assert_eq!(data, vec![0xde, 0xad]);
        }
        other => panic!("unexpected action {:?}", other),
    }
    assert!(adapter.is_running());
    assert_eq!(adapter.register_handler(), vec![]);
}

#[test]
fn send_after_stop_is_dropped() {
    let mut adapter = OeDevp2p::new(NetworkConfig::stock());
    adapter.register_handler();
    adapter.stop();
    assert!(!adapter.is_running());
    assert_eq!(adapter.send_mesage(ProtocolId::Eth, &3, 1, &[1, 2]), None);
    assert_eq!(adapter.penalize_peer(&3, PeerPenal::Kick), None);
    assert_eq!(adapter.penalize_peer(&3, PeerPenal::Ban), None);
}

#[test]
fn kick_disconnects_and_ban_disables() {
    let adapter = OeDevp2p::new(NetworkConfig::stock());
    assert_eq!(
        adapter.penalize_peer(&11, PeerPenal::Kick),
        Some(TransportAction::DisconnectPeer { peer: 11 })
    );
    assert_eq!(
        adapter.penalize_peer(&11, PeerPenal::Ban),
        Some(TransportAction::DisablePeer { peer: 11 })
    );
}

#[test]
fn penalties_repeat_unchanged() {
    let adapter = OeDevp2p::new(NetworkConfig::stock());
    let first = adapter.penalize_peer(&2, PeerPenal::Ban);
    let second = adapter.penalize_peer(&2, PeerPenal::Ban);
    assert_eq!(first, second);
    let first = adapter.penalize_peer(&2, PeerPenal::Kick);
    let second = adapter.penalize_peer(&2, PeerPenal::Kick);
    assert_eq!(first, second);
}

#[test]
fn collaborators_are_plain_values() {
    assert_eq!(DummyImporter(), DummyImporter::default());
    assert_eq!(DummySnapshot(), DummySnapshot::default());
}

#[test]
fn second_registration_is_an_error() {
    let mut adapter = OeDevp2p::new(NetworkConfig::stock());
    let first = adapter.register_protocol(ProtocolId::Parity);
    match first {
        Ok(registration) => {
            assert_eq!(registration.handler.protocol, ProtocolId::Parity);
            assert_eq!(registration.tag, *b"par");
        }
        Err(e) => panic!("unexpected error {:?}", e),
    }
    assert_eq!(
        adapter.register_protocol(ProtocolId::Parity),
        Err(RegistrationError::AlreadyRegistered)
    );
    let rest = adapter.register_handler();
    assert_eq!(rest.len(), 1);
    assert_eq!(rest[0].handler.protocol, ProtocolId::Eth);
    assert_eq!(
        adapter.register_protocol(ProtocolId::Eth),
        Err(RegistrationError::AlreadyRegistered)
    );
}

#[test]
fn registration_after_stop_is_an_error() {
    let mut adapter = OeDevp2p::new(NetworkConfig::stock());
    adapter.stop();
    assert_eq!(adapter.register_protocol(ProtocolId::Eth), Err(RegistrationError::NotRunning));
    assert_eq!(adapter.register_protocol(ProtocolId::Parity), Err(RegistrationError::NotRunning));
}
