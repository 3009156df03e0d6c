//! The inbound bridge: one per registered sub-protocol. It turns what the
//! transport reports into the calls that the scheduler's sink receives.

use vstd::prelude::*;
use vstd::slice::slice_to_vec;
use crate::capability::{projection, CapabilityMap, PeerCapability};
use crate::protocol::ProtocolId;

verus! {

/// The token by which the transport names a peer for the time of a session.
pub type PeerId = usize;

/// An event for the sink, as the bridge hands it over.
#[derive(Clone, Debug, PartialEq, Eq)]
pub enum InboundEvent {
    Message { peer: PeerId, protocol: ProtocolId, message_id: u8, data: Vec<u8> },
    Connected { peer: PeerId, capabilities: CapabilityMap },
    Disconnected { peer: PeerId },
}

/// A call on the sink, as a mathematical value.
pub enum SinkCall {
    ReceiveMessage { peer: PeerId, protocol: ProtocolId, message_id: u8, data: Seq<u8> },
    Connected { peer: PeerId, capabilities: Map<ProtocolId, Set<u8>> },
    Disconnected { peer: PeerId },
}

/// A packet as the transport delivers it: the peer, the message id, the bytes.
pub struct Delivery {
    pub peer: PeerId,
    pub message_id: u8,
    pub data: Seq<u8>,
}

impl View for InboundEvent {
    type V = SinkCall;

    open spec fn view(&self) -> SinkCall {
        match *self {
            InboundEvent::Message { peer, protocol, message_id, data } => SinkCall::ReceiveMessage {
                peer,
                protocol,
                message_id,
                data: data@,
            },
            InboundEvent::Connected { peer, capabilities } => SinkCall::Connected {
                peer,
                capabilities: capabilities@,
            },
            InboundEvent::Disconnected { peer } => SinkCall::Disconnected { peer },
        }
    }
}

/// Only the bridge of `Eth` reports the start and the end of a session, so that
/// the sink hears of each once however many sub-protocols are served.
pub open spec fn reports_sessions(protocol: ProtocolId) -> bool {
    protocol == ProtocolId::Eth
}

/// The call that the bridge of `protocol` makes for a delivered packet.
pub open spec fn message_call(protocol: ProtocolId, delivery: Delivery) -> SinkCall {
    SinkCall::ReceiveMessage {
        peer: delivery.peer,
        protocol,
        message_id: delivery.message_id,
        data: delivery.data,
    }
}

/// The capability map handed to the sink: the projection of the session's
/// capabilities, and the empty map where the transport has no session record.
pub open spec fn session_capabilities(session: Option<Seq<PeerCapability>>) -> Map<
    ProtocolId,
    Set<u8>,
> {
    match session {
        Some(reported) => projection(reported),
        None => Map::empty(),
    }
}

/// The call, if any, that the bridge of `protocol` makes when `peer` connects.
pub open spec fn connect_call(
    protocol: ProtocolId,
    peer: PeerId,
    session: Option<Seq<PeerCapability>>,
) -> Option<SinkCall> {
    if reports_sessions(protocol) {
        Some(SinkCall::Connected { peer, capabilities: session_capabilities(session) })
    } else {
        None
    }
}

/// The call, if any, that the bridge of `protocol` makes when `peer` disconnects.
pub open spec fn disconnect_call(protocol: ProtocolId, peer: PeerId) -> Option<SinkCall> {
    if reports_sessions(protocol) {
        Some(SinkCall::Disconnected { peer })
    } else {
        None
    }
}

/// The calls that the sink receives when the transport delivers `deliveries`,
/// in this order, to the bridge of `protocol`.
pub open spec fn message_calls(protocol: ProtocolId, deliveries: Seq<Delivery>) -> Seq<SinkCall> {
    Seq::new(deliveries.len(), |i: int| message_call(protocol, deliveries[i]))
}

/// One optional call as a sequence of calls.
pub open spec fn calls_of(call: Option<SinkCall>) -> Seq<SinkCall> {
    match call {
        Some(c) => seq![c],
        None => Seq::empty(),
    }
}

/// The calls that the sink receives when the transport reports the connection
/// of `peer` to the bridge of each of `bridges` in turn.
pub open spec fn connect_calls(
    bridges: Seq<ProtocolId>,
    peer: PeerId,
    session: Option<Seq<PeerCapability>>,
) -> Seq<SinkCall>
    decreases bridges.len(),
{
    if bridges.len() == 0 {
        Seq::empty()
    } else {
        connect_calls(bridges.drop_last(), peer, session) + calls_of(
            connect_call(bridges.last(), peer, session),
        )
    }
}

/// The calls that the sink receives when the transport reports the
/// disconnection of `peer` to the bridge of each of `bridges` in turn.
pub open spec fn disconnect_calls(bridges: Seq<ProtocolId>, peer: PeerId) -> Seq<SinkCall>
    decreases bridges.len(),
{
    if bridges.len() == 0 {
        Seq::empty()
    } else {
        disconnect_calls(bridges.drop_last(), peer) + calls_of(
            disconnect_call(bridges.last(), peer),
        )
    }
}

/// Bridges other than that of `Eth` report no session to the sink.
pub proof fn lemma_silent_bridges(
    bridges: Seq<ProtocolId>,
    peer: PeerId,
    session: Option<Seq<PeerCapability>>,
)
    requires
        !bridges.contains(ProtocolId::Eth),
    ensures
        connect_calls(bridges, peer, session) == Seq::<SinkCall>::empty(),
        disconnect_calls(bridges, peer) == Seq::<SinkCall>::empty(),
    decreases bridges.len(),
{
    if bridges.len() > 0 {
        let front = bridges.drop_last();
        assert forall|i: int| 0 <= i < front.len() implies front[i] != ProtocolId::Eth by {
            assert(front[i] == bridges[i]);
        }
        assert(bridges.last() == bridges[bridges.len() - 1]);
        lemma_silent_bridges(front, peer, session);
        assert(connect_calls(bridges, peer, session) =~= Seq::<SinkCall>::empty());
        assert(disconnect_calls(bridges, peer) =~= Seq::<SinkCall>::empty());
    }
}

/// Where each sub-protocol has one bridge and `Eth` is among them, the sink
/// hears exactly once that a peer connected, with the capabilities of the
/// session, and exactly once that it disconnected.
pub proof fn lemma_one_report_per_session(
    bridges: Seq<ProtocolId>,
    peer: PeerId,
    session: Option<Seq<PeerCapability>>,
)
    requires
        bridges.no_duplicates(),
        bridges.contains(ProtocolId::Eth),
    ensures
        connect_calls(bridges, peer, session) == seq![
            SinkCall::Connected { peer, capabilities: session_capabilities(session) },
        ],
        disconnect_calls(bridges, peer) == seq![SinkCall::Disconnected { peer }],
    decreases bridges.len(),
{
    let front = bridges.drop_last();
    let last = bridges.len() - 1;
    assert(bridges.last() == bridges[last]);
    assert forall|i: int, j: int| 0 <= i < front.len() && 0 <= j < front.len() && i != j implies
        front[i] != front[j] by {
        assert(front[i] == bridges[i] && front[j] == bridges[j]);
    }
    if bridges[last] == ProtocolId::Eth {
        assert forall|i: int| 0 <= i < front.len() implies front[i] != ProtocolId::Eth by {
            assert(front[i] == bridges[i]);
        }
        lemma_silent_bridges(front, peer, session);
    } else {
        let i = choose|i: int| 0 <= i < bridges.len() && bridges[i] == ProtocolId::Eth;
        assert(front[i] == ProtocolId::Eth);
        lemma_one_report_per_session(front, peer, session);
    }
    assert(connect_calls(bridges, peer, session) =~= seq![
        SinkCall::Connected { peer, capabilities: session_capabilities(session) },
    ]);
    assert(disconnect_calls(bridges, peer) =~= seq![SinkCall::Disconnected { peer }]);
}

/// The sink receives one call for each delivered packet, in the order of
/// delivery and with the packet unchanged; what it has received after the first
/// `k` deliveries is the beginning of what it receives in the end.
pub proof fn lemma_messages_in_order(protocol: ProtocolId, deliveries: Seq<Delivery>, k: int)
    requires
        0 <= k <= deliveries.len(),
    ensures
        message_calls(protocol, deliveries).len() == deliveries.len(),
        forall|i: int|
            0 <= i < deliveries.len() ==> (#[trigger] message_calls(protocol, deliveries)[i])
                == message_call(protocol, deliveries[i]),
        message_calls(protocol, deliveries.take(k)) == message_calls(protocol, deliveries).take(k),
{
    assert(message_calls(protocol, deliveries.take(k)) =~= message_calls(
        protocol,
        deliveries,
    ).take(k));
}

/// Whether `delivery` came from `peer`.
pub open spec fn delivered_by(peer: PeerId, delivery: Delivery) -> bool {
    delivery.peer == peer
}

/// Whether `call` hands the sink a message of `peer`.
pub open spec fn message_of(peer: PeerId, call: SinkCall) -> bool {
    call matches SinkCall::ReceiveMessage { peer: p, .. } && p == peer
}

/// The messages of one peer reach the sink in the order in which the transport
/// delivered them: picking the calls for `peer` out of all calls gives the calls
/// for the deliveries of `peer`, one for one.
pub proof fn lemma_messages_per_peer(protocol: ProtocolId, deliveries: Seq<Delivery>, peer: PeerId)
    ensures
        message_calls(protocol, deliveries).filter(|call: SinkCall| message_of(peer, call))
            == message_calls(
            protocol,
            deliveries.filter(|delivery: Delivery| delivered_by(peer, delivery)),
        ),
    decreases deliveries.len(),
{
    let from_peer = |delivery: Delivery| delivered_by(peer, delivery);
    let for_peer = |call: SinkCall| message_of(peer, call);
    let calls = message_calls(protocol, deliveries);
    reveal_with_fuel(Seq::filter, 2);
    if deliveries.len() == 0 {
        assert(calls.filter(for_peer) =~= message_calls(protocol, deliveries.filter(from_peer)));
    } else {
        let front = deliveries.drop_last();
        let last = deliveries.last();
        lemma_messages_per_peer(protocol, front, peer);
        assert(calls.drop_last() =~= message_calls(protocol, front));
        assert(calls.last() == message_call(protocol, last));
        assert(for_peer(calls.last()) == from_peer(last));
        if from_peer(last) {
            assert(message_calls(protocol, front.filter(from_peer).push(last)) =~= message_calls(
                protocol,
                front.filter(from_peer),
            ).push(message_call(protocol, last)));
        }
    }
}

/// The bridge of one sub-protocol.
#[derive(Clone, Copy, Debug, PartialEq, Eq, Structural)]
pub struct HandleWrapper {
    pub protocol: ProtocolId,
}

impl HandleWrapper {
    /// The bridge of `protocol`.
    pub fn new(protocol: ProtocolId) -> (bridge: HandleWrapper)
        ensures
            bridge.protocol == protocol,
    {
        HandleWrapper { protocol }
    }

    /// A packet has come in: it goes to the sink unchanged, with the bridge's
    /// sub-protocol beside it.
    pub fn read(&self, peer: &PeerId, message_id: u8, data: &[u8]) -> (event: InboundEvent)
        ensures
            event@ == message_call(self.protocol, Delivery { peer: *peer, message_id, data: data@ }),
    {
        InboundEvent::Message {
            peer: *peer,
            protocol: self.protocol,
            message_id,
            data: slice_to_vec(data),
        }
    }

    /// A peer has connected. `session` holds the capabilities of the transport's
    /// session record, or `None` where the transport has no record of the peer.
    pub fn connected(&self, peer: &PeerId, session: Option<&Vec<PeerCapability>>) -> (event: Option<
        InboundEvent,
    >)
        ensures
            event.is_some() == reports_sessions(self.protocol),
            match event {
                Some(e) => Some(e@),
                None => None,
            } == connect_call(
                self.protocol,
                *peer,
                match session {
                    Some(reported) => Some(reported@),
                    None => None,
                },
            ),
            event matches Some(InboundEvent::Connected { capabilities, .. })
                ==> capabilities.well_formed(),
    {
        match self.protocol {
            ProtocolId::Eth => {
                let capabilities = match session {
                    Some(reported) => CapabilityMap::project(reported),
                    None => CapabilityMap::new(),
                };
                Some(InboundEvent::Connected { peer: *peer, capabilities })
            },
            ProtocolId::Parity => None,
        }
    }

    /// A peer has disconnected.
    pub fn disconnected(&self, peer: &PeerId) -> (event: Option<InboundEvent>)
        ensures
            match event {
                Some(e) => Some(e@),
                None => None,
            } == disconnect_call(self.protocol, *peer),
    {
        match self.protocol {
            ProtocolId::Eth => Some(InboundEvent::Disconnected { peer: *peer }),
            ProtocolId::Parity => None,
        }
    }
}

} // verus!
