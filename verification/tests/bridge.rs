use devp2p_adapter::bridge::{HandleWrapper, InboundEvent};
use devp2p_adapter::capability::{CapabilityMap, PeerCapability};
use devp2p_adapter::protocol::{ProtocolId, ProtocolVersion};

fn cap(tag: &[u8; 3], version: u8) -> PeerCapability {
    PeerCapability { protocol: *tag, version }
}

#[test]
fn wire_tags_are_three_ascii_bytes() {
    assert_eq!(ProtocolId::Eth.to_protocol_type(), *b"eth");
    assert_eq!(ProtocolId::Parity.to_protocol_type(), *b"par");
}

#[test]
fn tags_name_their_protocols() {
    assert_eq!(ProtocolId::from_protocol_type(b"eth"), Some(ProtocolId::Eth));
    assert_eq!(ProtocolId::from_protocol_type(b"par"), Some(ProtocolId::Parity));
    for p in [ProtocolId::Eth, ProtocolId::Parity] {
        assert_eq!(ProtocolId::from_protocol_type(&p.to_protocol_type()), Some(p));
    }
}

#[test]
fn unknown_tags_name_nothing() {
    assert_eq!(ProtocolId::from_protocol_type(b"les"), None);
    assert_eq!(ProtocolId::from_protocol_type(b"ETH"), None);
    assert_eq!(ProtocolId::from_protocol_type(b"etx"), None);
    assert_eq!(ProtocolId::from_protocol_type(b"pat"), None);
    assert_eq!(ProtocolId::from_protocol_type(b"   "), None);
}

#[test]
fn supported_versions_per_protocol() {
    assert_eq!(
        ProtocolId::Eth.supported_versions(),
        vec![ProtocolVersion { number: 64, message_count: 17 }]
    );
    assert_eq!(
        ProtocolId::Parity.supported_versions(),
        vec![
            ProtocolVersion { number: 1, message_count: 21 },
            ProtocolVersion { number: 2, message_count: 22 },
        ]
    );
}

#[test]
fn projection_keeps_only_known_protocols() {
    let reported = vec![cap(b"eth", 63), cap(b"les", 2), cap(b"par", 1), cap(b"eth", 64), cap(b"shh", 6)];
    let caps = CapabilityMap::project(&reported);
    assert_eq!(caps.versions(ProtocolId::Eth), vec![63, 64]);
    assert_eq!(caps.versions(ProtocolId::Parity), vec![1]);
    assert!(caps.supports(ProtocolId::Eth, 63));
    assert!(caps.supports(ProtocolId::Eth, 64));
    assert!(caps.supports(ProtocolId::Parity, 1));
    assert!(!caps.supports(ProtocolId::Parity, 2));
    assert!(!caps.supports(ProtocolId::Eth, 2));
    assert!(!caps.supports(ProtocolId::Eth, 6));
}

#[test]
fn projection_lists_each_version_once() {
    let reported = vec![cap(b"eth", 64), cap(b"eth", 64), cap(b"eth", 63), cap(b"eth", 64)];
    let caps = CapabilityMap::project(&reported);
    assert_eq!(caps.versions(ProtocolId::Eth), vec![64, 63]);
    assert_eq!(caps.versions(ProtocolId::Parity), Vec::<u8>::new());
}

#[test]
fn projection_of_unknown_only_is_empty() {
    let caps = CapabilityMap::project(&vec![cap(b"les", 1), cap(b"bzz", 0)]);
    assert_eq!(caps, CapabilityMap::new());
    assert_eq!(CapabilityMap::project(&vec![]), CapabilityMap::new());
}

#[test]
fn insert_adds_a_version_once() {
    let mut caps = CapabilityMap::new();
    assert!(!caps.supports(ProtocolId::Parity, 2));
    caps.insert(ProtocolId::Parity, 2);
    caps.insert(ProtocolId::Parity, 2);
    caps.insert(ProtocolId::Eth, 64);
    assert_eq!(caps.versions(ProtocolId::Parity), vec![2]);
    assert_eq!(caps.versions(ProtocolId::Eth), vec![64]);
}

#[test]
fn read_forwards_the_packet_unchanged() {
    let bridge = HandleWrapper::new(ProtocolId::Parity);
    let event = bridge.read(&7, 0x13, &[1, 2, 3, 255]);
    assert_eq!(
        event,
        InboundEvent::Message {
            peer: 7,
            protocol: ProtocolId::Parity,
            message_id: 0x13,
            data: vec![1, 2, 3, 255],
        }
    );
    let event = HandleWrapper::new(ProtocolId::Eth).read(&0, 0, &[]);
    assert_eq!(
        event,
        InboundEvent::Message { peer: 0, protocol: ProtocolId::Eth, message_id: 0, data: vec![] }
    );
}

#[test]
fn messages_keep_the_order_of_delivery() {
    let bridge = HandleWrapper::new(ProtocolId::Eth);
    let deliveries: Vec<(usize, u8, Vec<u8>)> =
        vec![(1, 3, vec![9]), (1, 4, vec![8, 8]), (1, 3, vec![]), (1, 5, vec![7])];
    let events: Vec<InboundEvent> =
        deliveries.iter().map(|(p, id, d)| bridge.read(p, *id, d)).collect();
    assert_eq!(events.len(), deliveries.len());
    for (event, (peer, id, data)) in events.iter().zip(deliveries.iter()) {
        assert_eq!(
            *event,
            InboundEvent::Message {
                peer: *peer,
                protocol: ProtocolId::Eth,
                message_id: *id,
                data: data.clone(),
            }
        );
    }
}

#[test]
fn duplicate_connect_suppression() {
    let session = vec![cap(b"eth", 64), cap(b"par", 2)];
    let bridges = [HandleWrapper::new(ProtocolId::Eth), HandleWrapper::new(ProtocolId::Parity)];
    let mut seen = Vec::new();
    for bridge in bridges.iter() {
        if let Some(event) = bridge.connected(&42, Some(&session)) {
            seen.push(event);
        }
    }
    assert_eq!(seen.len(), 1);
    match &seen[0] {
        InboundEvent::Connected { peer, capabilities } => {
            assert_eq!(*peer, 42);
            assert_eq!(capabilities.versions(ProtocolId::Eth), vec![64]);
            assert_eq!(capabilities.versions(ProtocolId::Parity), vec![2]);
        }
        other => panic!("unexpected event {:?}", other),
    }
}

#[test]
fn one_disconnect_per_session() {
    let bridges = [HandleWrapper::new(ProtocolId::Parity), HandleWrapper::new(ProtocolId::Eth)];
    let seen: Vec<InboundEvent> = bridges.iter().filter_map(|b| b.disconnected(&42)).collect();
    assert_eq!(seen, vec![InboundEvent::Disconnected { peer: 42 }]);
}

#[test]
fn parity_bridge_reports_no_session() {
    let bridge = HandleWrapper::new(ProtocolId::Parity);
    assert_eq!(bridge.connected(&1, Some(&vec![cap(b"par", 1)])), None);
    assert_eq!(bridge.connected(&1, None), None);
    assert_eq!(bridge.disconnected(&1), None);
}

#[test]
fn missing_session_gives_empty_capabilities() {
    let bridge = HandleWrapper::new(ProtocolId::Eth);
    assert_eq!(
        bridge.connected(&5, None),
        Some(InboundEvent::Connected { peer: 5, capabilities: CapabilityMap::new() })
    );
}
