//! The adapter's own state and the outbound facade: which sub-protocols are
//! registered, whether the adapter runs, and what the transport is asked to do
//! for each call of the scheduler.

use vstd::prelude::*;
use vstd::slice::slice_to_vec;
use crate::bridge::{HandleWrapper, PeerId};
use crate::config::NetworkConfig;
use crate::protocol::{ProtocolId, ProtocolTag, ProtocolVersion};

verus! {

/// How a peer is penalised.
#[derive(Clone, Copy, Debug, PartialEq, Eq, Structural)]
pub enum PeerPenal {
    /// The session ends; the peer may come back.
    Kick,
    /// The session ends and the peer is not connected to again.
    Ban,
}

/// What the transport is asked to do.
#[derive(Clone, Debug, PartialEq, Eq)]
pub enum TransportAction {
    /// Send a packet to `peer`, in the context of the sub-protocol `protocol`.
    Send { protocol: ProtocolTag, peer: PeerId, message_id: u8, data: Vec<u8> },
    /// End the session of `peer`.
    DisconnectPeer { peer: PeerId },
    /// End the session of `peer` and do not connect to it again.
    DisablePeer { peer: PeerId },
}

/// A request to the transport, as a mathematical value.
pub enum Request {
    Send { protocol: Seq<u8>, peer: PeerId, message_id: u8, data: Seq<u8> },
    DisconnectPeer { peer: PeerId },
    DisablePeer { peer: PeerId },
}

impl View for TransportAction {
    type V = Request;

    open spec fn view(&self) -> Request {
        match *self {
            TransportAction::Send { protocol, peer, message_id, data } => Request::Send {
                protocol: protocol@,
                peer,
                message_id,
                data: data@,
            },
            TransportAction::DisconnectPeer { peer } => Request::DisconnectPeer { peer },
            TransportAction::DisablePeer { peer } => Request::DisablePeer { peer },
        }
    }
}

/// Why a sub-protocol was not registered.
#[derive(Clone, Copy, Debug, PartialEq, Eq, Structural)]
pub enum RegistrationError {
    /// The adapter has stopped.
    NotRunning,
    /// The sub-protocol is registered already.
    AlreadyRegistered,
}

/// One sub-protocol as it is registered at the transport: its bridge, its wire
/// tag and the versions that this node speaks.
#[derive(Clone, Debug, PartialEq, Eq)]
pub struct Registration {
    pub handler: HandleWrapper,
    pub tag: ProtocolTag,
    pub versions: Vec<ProtocolVersion>,
}

impl Registration {
    /// Whether this is the registration of `protocol`.
    pub open spec fn registers(&self, protocol: ProtocolId) -> bool {
        &&& self.handler.protocol == protocol
        &&& self.tag@ == protocol.tag()
        &&& self.versions@ == protocol.versions()
    }
}

/// The sub-protocols that the adapter serves, in the order of registration.
pub open spec fn served() -> Seq<ProtocolId> {
    seq![ProtocolId::Eth, ProtocolId::Parity]
}

/// The sub-protocols still to be registered by an adapter that has registered
/// `registered` already: none once it has stopped, else those of `served()`
/// that are not among `registered`, in their order.
pub open spec fn pending(registered: Seq<ProtocolId>, running: bool) -> Seq<ProtocolId> {
    if running {
        served().filter(|protocol: ProtocolId| !registered.contains(protocol))
    } else {
        Seq::empty()
    }
}

/// The request for a send: none once the adapter has stopped or for a
/// sub-protocol that is not registered.
pub open spec fn send_request(
    registered: Seq<ProtocolId>,
    running: bool,
    protocol: ProtocolId,
    peer: PeerId,
    message_id: u8,
    data: Seq<u8>,
) -> Option<Request> {
    if running && registered.contains(protocol) {
        Some(Request::Send { protocol: protocol.tag(), peer, message_id, data })
    } else {
        None
    }
}

/// The request for a penalty: none once the adapter has stopped.
pub open spec fn penalty_request(running: bool, peer: PeerId, penal: PeerPenal) -> Option<Request> {
    if !running {
        None
    } else {
        match penal {
            PeerPenal::Kick => Some(Request::DisconnectPeer { peer }),
            PeerPenal::Ban => Some(Request::DisablePeer { peer }),
        }
    }
}

/// The view of an optional action.
pub open spec fn requested_of(action: Option<TransportAction>) -> Option<Request> {
    match action {
        Some(a) => Some(a@),
        None => None,
    }
}

/// The adapter between the scheduler and the transport.
pub struct OeDevp2p {
    config: NetworkConfig,
    registered: Vec<ProtocolId>,
    running: bool,
}

fn holds(protocols: &Vec<ProtocolId>, protocol: ProtocolId) -> (found: bool)
    ensures
        found == protocols@.contains(protocol),
{
    let mut i: usize = 0;
    while i < protocols.len()
        invariant
            i <= protocols.len(),
            forall|j: int| 0 <= j < i ==> protocols@[j] != protocol,
        decreases protocols.len() - i,
    {
        if protocols[i] == protocol {
            return true;
        }
        i = i + 1;
    }
    false
}

impl OeDevp2p {
    /// The sub-protocols registered so far, in the order of registration.
    pub closed spec fn registered(&self) -> Seq<ProtocolId> {
        self.registered@
    }

    /// Whether the adapter has not been stopped.
    pub closed spec fn running(&self) -> bool {
        self.running
    }

    /// The configuration that the adapter was made with.
    pub closed spec fn configuration(&self) -> NetworkConfig {
        self.config
    }

    /// No sub-protocol is registered twice.
    pub open spec fn well_formed(&self) -> bool {
        self.registered().no_duplicates()
    }

    /// An adapter over a transport started with `config`: it runs and has no
    /// sub-protocol registered yet.
    pub fn new(config: NetworkConfig) -> (adapter: OeDevp2p)
        ensures
            adapter.well_formed(),
            adapter.running(),
            adapter.registered() == Seq::<ProtocolId>::empty(),
            adapter.configuration() == config,
    {
        OeDevp2p { config, registered: Vec::new(), running: true }
    }

    /// The configuration to start the transport with.
    pub fn config(&self) -> (config: &NetworkConfig)
        ensures
            *config == self.configuration(),
    {
        &self.config
    }

    /// Whether the adapter has not been stopped.
    pub fn is_running(&self) -> (running: bool)
        ensures
            running == self.running(),
    {
        self.running
    }

    /// Stops the adapter: every later call of the facade asks nothing of the
    /// transport.
    pub fn stop(&mut self)
        ensures
            !final(self).running(),
            final(self).registered() == old(self).registered(),
            final(self).configuration() == old(self).configuration(),
    {
        self.running = false;
    }

    /// Registers `protocol` and returns what to hand to the transport for it.
    /// A sub-protocol is registered once: a second registration is an error, and
    /// so is any registration once the adapter has stopped.
    pub fn register_protocol(&mut self, protocol: ProtocolId) -> (result: Result<
        Registration,
        RegistrationError,
    >)
        requires
            old(self).well_formed(),
        ensures
            final(self).well_formed(),
            final(self).running() == old(self).running(),
            final(self).configuration() == old(self).configuration(),
            match result {
                Ok(registration) => {
                    &&& old(self).running()
                    &&& !old(self).registered().contains(protocol)
                    &&& registration.registers(protocol)
                    &&& final(self).registered() == old(self).registered().push(protocol)
                },
                Err(RegistrationError::NotRunning) => {
                    &&& !old(self).running()
                    &&& final(self).registered() == old(self).registered()
                },
                Err(RegistrationError::AlreadyRegistered) => {
                    &&& old(self).running()
                    &&& old(self).registered().contains(protocol)
                    &&& final(self).registered() == old(self).registered()
                },
            },
    {
        if !self.running {
            return Err(RegistrationError::NotRunning);
        }
        if holds(&self.registered, protocol) {
            return Err(RegistrationError::AlreadyRegistered);
        }
        proof {
            lemma_push_fresh(self.registered@, protocol);
        }
        self.registered.push(protocol);
        Ok(Self::registration(protocol))
    }

    /// Registers the sub-protocols that are not registered yet and returns what
    /// to hand to the transport for each: one registration per sub-protocol, in
    /// the order of `served()`. A second call returns nothing, and so does a
    /// call once the adapter has stopped.
    pub fn register_handler(&mut self) -> (registrations: Vec<Registration>)
        requires
            old(self).well_formed(),
        ensures
            final(self).well_formed(),
            final(self).running() == old(self).running(),
            final(self).configuration() == old(self).configuration(),
            registrations@.len() == pending(old(self).registered(), old(self).running()).len(),
            forall|i: int|
                0 <= i < registrations@.len() ==> (#[trigger] registrations@[i]).registers(
                    pending(old(self).registered(), old(self).running())[i],
                ),
            final(self).registered() == old(self).registered() + pending(
                old(self).registered(),
                old(self).running(),
            ),
            pending(final(self).registered(), final(self).running()) == Seq::<ProtocolId>::empty(),
            final(self).running() ==> forall|protocol: ProtocolId|
                final(self).registered().contains(protocol),
    {
        broadcast use vstd::seq_lib::lemma_seq_contains_after_push;

        let mut registrations: Vec<Registration> = Vec::new();
        let ghost before = self.registered@;
        proof {
            lemma_pending(before, self.running);
        }
        match self.register_protocol(ProtocolId::Eth) {
            Ok(registration) => {
                registrations.push(registration);
            },
            Err(_) => {},
        }
        match self.register_protocol(ProtocolId::Parity) {
            Ok(registration) => {
                registrations.push(registration);
            },
            Err(_) => {},
        }
        proof {
            assert(self.registered@ =~= before + pending(before, self.running));
            lemma_pending(self.registered@, self.running);
            if self.running {
                assert forall|protocol: ProtocolId| self.registered@.contains(protocol) by {
                    assert(protocol == ProtocolId::Eth || protocol == ProtocolId::Parity);
                }
            }
        }
        registrations
    }

    /// What is handed to the transport to register `protocol`.
    pub fn registration(protocol: ProtocolId) -> (registration: Registration)
        ensures
            registration.registers(protocol),
    {
        Registration {
            handler: HandleWrapper::new(protocol),
            tag: protocol.to_protocol_type(),
            versions: protocol.supported_versions(),
        }
    }

    /// Sends `data` to `peer` as message `mesage_id` of `protocol`: the request
    /// for the transport, or `None` where the send is dropped.
    pub fn send_mesage(
        &self,
        protocol: ProtocolId,
        peer: &PeerId,
        mesage_id: u8,
        data: &[u8],
    ) -> (action: Option<TransportAction>)
        ensures
            requested_of(action) == send_request(
                self.registered(),
                self.running(),
                protocol,
                *peer,
                mesage_id,
                data@,
            ),
    {
        if self.running && holds(&self.registered, protocol) {
            Some(
                TransportAction::Send {
                    protocol: protocol.to_protocol_type(),
                    peer: *peer,
                    message_id: mesage_id,
                    data: slice_to_vec(data),
                },
            )
        } else {
            None
        }
    }

    /// Penalises `peer`: the request for the transport, or `None` once the
    /// adapter has stopped. The adapter itself does not change, so a penalty
    /// given twice asks the same of the transport both times.
    pub fn penalize_peer(&self, peer: &PeerId, penal: PeerPenal) -> (action: Option<
        TransportAction,
    >)
        ensures
            requested_of(action) == penalty_request(self.running(), *peer, penal),
    {
        if !self.running {
            return None;
        }
        match penal {
            PeerPenal::Kick => Some(TransportAction::DisconnectPeer { peer: *peer }),
            PeerPenal::Ban => Some(TransportAction::DisablePeer { peer: *peer }),
        }
    }
}

/// A sequence that holds nothing twice still does so with a new item at its
/// end.
proof fn lemma_push_fresh(protocols: Seq<ProtocolId>, added: ProtocolId)
    requires
        protocols.no_duplicates(),
        !protocols.contains(added),
    ensures
        protocols.push(added).no_duplicates(),
{
    let longer = protocols.push(added);
    assert forall|i: int, j: int|
        0 <= i < longer.len() && 0 <= j < longer.len() && i != j implies longer[i]
        != longer[j] by {
        if i < protocols.len() {
            assert(protocols.contains(longer[i]));
        }
        if j < protocols.len() {
            assert(protocols.contains(longer[j]));
        }
    }
}

/// What is pending, case by case: `Eth` before `Parity`, each only where it is
/// not registered, and nothing once the adapter has stopped.
pub proof fn lemma_pending(registered: Seq<ProtocolId>, running: bool)
    ensures
        pending(registered, running) == if !running {
            Seq::<ProtocolId>::empty()
        } else if registered.contains(ProtocolId::Eth) {
            if registered.contains(ProtocolId::Parity) {
                Seq::<ProtocolId>::empty()
            } else {
                seq![ProtocolId::Parity]
            }
        } else {
            if registered.contains(ProtocolId::Parity) {
                seq![ProtocolId::Eth]
            } else {
                seq![ProtocolId::Eth, ProtocolId::Parity]
            }
        },
{
    if running {
        let keep = |protocol: ProtocolId| !registered.contains(protocol);
        let none = Seq::<ProtocolId>::empty();
        let one = seq![ProtocolId::Eth];
        reveal_with_fuel(Seq::filter, 3);
        assert(one.drop_last() =~= none);
        assert(served().drop_last() =~= one);
        assert(none.filter(keep) =~= none);
        assert(one.filter(keep) =~= if keep(ProtocolId::Eth) {
            one
        } else {
            none
        });
        assert(served().filter(keep) =~= one.filter(keep) + if keep(ProtocolId::Parity) {
            seq![ProtocolId::Parity]
        } else {
            none
        });
    }
}

} // verus!
