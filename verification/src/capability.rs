//! What a peer advertises at the handshake, and its projection onto the
//! sub-protocols that the adapter recognises.

use vstd::prelude::*;
use crate::protocol::{lemma_tags_distinct, recognized, ProtocolId, ProtocolTag};

verus! {

/// One capability as the transport reports it: a wire tag and a version.
#[derive(Clone, Copy, Debug, PartialEq, Eq)]
pub struct PeerCapability {
    pub protocol: ProtocolTag,
    pub version: u8,
}

/// Whether one of the first `upto` reported capabilities is `version` of
/// `protocol`.
pub open spec fn advertised(
    reported: Seq<PeerCapability>,
    upto: int,
    protocol: ProtocolId,
    version: u8,
) -> bool {
    exists|i: int|
        0 <= i < upto && i < reported.len() && (#[trigger] reported[i]).version == version
            && recognized(reported[i].protocol@) == Some(protocol)
}

/// The versions of `protocol` among the reported capabilities.
pub open spec fn advertised_versions(
    reported: Seq<PeerCapability>,
    protocol: ProtocolId,
) -> Set<u8> {
    Set::new(|version: u8| advertised(reported, reported.len() as int, protocol, version))
}

/// Whether `capabilities` lists `version` under `protocol`.
pub open spec fn speaks(
    capabilities: Map<ProtocolId, Set<u8>>,
    protocol: ProtocolId,
    version: u8,
) -> bool {
    capabilities.contains_key(protocol) && capabilities[protocol].contains(version)
}

/// The capability map of a peer that reported `reported`: each recognised
/// sub-protocol that occurs, with the set of its reported versions.
pub open spec fn projection(reported: Seq<PeerCapability>) -> Map<ProtocolId, Set<u8>> {
    Map::new(
        |protocol: ProtocolId|
            exists|version: u8|
                advertised(reported, reported.len() as int, protocol, version),
        |protocol: ProtocolId| advertised_versions(reported, protocol),
    )
}

/// The projection holds nothing that the transport did not report, and all that
/// it reported under a recognised tag: `version` stands under `protocol` exactly
/// if some reported capability carries the tag of `protocol` and `version`.
pub proof fn lemma_projection_filters(
    reported: Seq<PeerCapability>,
    protocol: ProtocolId,
    version: u8,
)
    ensures
        speaks(projection(reported), protocol, version) <==> exists|i: int|
            0 <= i < reported.len() && (#[trigger] reported[i]).version == version
                && reported[i].protocol@ == protocol.tag(),
        projection(reported).contains_key(protocol) ==> exists|i: int|
            0 <= i < reported.len() && (#[trigger] reported[i]).protocol@ == protocol.tag(),
{
    lemma_tags_distinct(protocol, protocol);
    let all = reported.len() as int;
    if speaks(projection(reported), protocol, version) {
        assert(advertised(reported, all, protocol, version));
        let i = choose|i: int|
            0 <= i < all && i < reported.len() && (#[trigger] reported[i]).version == version
                && recognized(reported[i].protocol@) == Some(protocol);
        assert(reported[i].protocol@ == protocol.tag());
    }
    if exists|i: int|
        0 <= i < reported.len() && (#[trigger] reported[i]).version == version
            && reported[i].protocol@ == protocol.tag() {
        let i = choose|i: int|
            0 <= i < reported.len() && (#[trigger] reported[i]).version == version
                && reported[i].protocol@ == protocol.tag();
        assert(recognized(reported[i].protocol@) == Some(protocol));
        assert(advertised(reported, all, protocol, version));
    }
    if projection(reported).contains_key(protocol) {
        let v = choose|v: u8| advertised(reported, all, protocol, v);
        let i = choose|i: int|
            0 <= i < all && i < reported.len() && (#[trigger] reported[i]).version == v
                && recognized(reported[i].protocol@) == Some(protocol);
        assert(reported[i].protocol@ == protocol.tag());
    }
}

/// The sub-protocols of a peer, each with the versions that the peer speaks.
#[derive(Clone, Debug, PartialEq, Eq)]
pub struct CapabilityMap {
    eth: Vec<u8>,
    parity: Vec<u8>,
}

impl View for CapabilityMap {
    type V = Map<ProtocolId, Set<u8>>;

    closed spec fn view(&self) -> Map<ProtocolId, Set<u8>> {
        Map::new(
            |protocol: ProtocolId| self.listed(protocol).len() > 0,
            |protocol: ProtocolId| self.listed(protocol).to_set(),
        )
    }
}

fn listed_in(versions: &Vec<u8>, version: u8) -> (found: bool)
    ensures
        found == versions@.contains(version),
{
    let mut i: usize = 0;
    while i < versions.len()
        invariant
            i <= versions.len(),
            forall|j: int| 0 <= j < i ==> versions@[j] != version,
        decreases versions.len() - i,
    {
        if versions[i] == version {
            return true;
        }
        i = i + 1;
    }
    false
}

impl CapabilityMap {
    closed spec fn listed(&self, protocol: ProtocolId) -> Seq<u8> {
        match protocol {
            ProtocolId::Eth => self.eth@,
            ProtocolId::Parity => self.parity@,
        }
    }

    /// No version is listed twice under a sub-protocol.
    pub closed spec fn well_formed(&self) -> bool {
        self.eth@.no_duplicates() && self.parity@.no_duplicates()
    }

    /// The map of a peer that advertises nothing.
    pub fn new() -> (capabilities: CapabilityMap)
        ensures
            capabilities.well_formed(),
            capabilities@ == Map::<ProtocolId, Set<u8>>::empty(),
    {
        let capabilities = CapabilityMap { eth: Vec::new(), parity: Vec::new() };
        proof {
            assert(capabilities@ =~= Map::<ProtocolId, Set<u8>>::empty());
        }
        capabilities
    }

    /// Adds `version` to the versions of `protocol`.
    pub fn insert(&mut self, protocol: ProtocolId, version: u8)
        requires
            old(self).well_formed(),
        ensures
            final(self).well_formed(),
            final(self)@ == old(self)@.insert(
                protocol,
                if old(self)@.contains_key(protocol) {
                    old(self)@[protocol].insert(version)
                } else {
                    set![version]
                },
            ),
    {
        broadcast use vstd::seq_lib::group_seq_properties;

        let ghost before = *self;
        match protocol {
            ProtocolId::Eth => {
                if !listed_in(&self.eth, version) {
                    self.eth.push(version);
                }
            },
            ProtocolId::Parity => {
                if !listed_in(&self.parity, version) {
                    self.parity.push(version);
                }
            },
        }
        proof {
            let other = match protocol {
                ProtocolId::Eth => ProtocolId::Parity,
                ProtocolId::Parity => ProtocolId::Eth,
            };
            assert(self.listed(other) == before.listed(other));
            assert(self.listed(protocol).to_set() =~= before.listed(protocol).to_set().insert(
                version,
            ));
            assert(self.listed(protocol).contains(version));
            if before.listed(protocol).len() == 0 {
                assert(before.listed(protocol).to_set() =~= Set::<u8>::empty());
            }
            assert(self@ =~= before@.insert(
                protocol,
                if before@.contains_key(protocol) {
                    before@[protocol].insert(version)
                } else {
                    set![version]
                },
            ));
        }
    }

    /// Whether the peer speaks `version` of `protocol`.
    pub fn supports(&self, protocol: ProtocolId, version: u8) -> (found: bool)
        ensures
            found == speaks(self@, protocol, version),
    {
        match protocol {
            ProtocolId::Eth => listed_in(&self.eth, version),
            ProtocolId::Parity => listed_in(&self.parity, version),
        }
    }

    /// The versions that the peer speaks of `protocol`, each once; empty for a
    /// sub-protocol that the peer does not speak.
    pub fn versions(&self, protocol: ProtocolId) -> (versions: Vec<u8>)
        requires
            self.well_formed(),
        ensures
            versions@.no_duplicates(),
            self@.contains_key(protocol) <==> versions@.len() > 0,
            self@.contains_key(protocol) ==> versions@.to_set() == self@[protocol],
    {
        match protocol {
            ProtocolId::Eth => self.eth.clone(),
            ProtocolId::Parity => self.parity.clone(),
        }
    }

    /// Projects what the transport reported of a peer onto the recognised
    /// sub-protocols: capabilities with an unknown tag are passed over.
    pub fn project(reported: &Vec<PeerCapability>) -> (capabilities: CapabilityMap)
        ensures
            capabilities.well_formed(),
            capabilities@ == projection(reported@),
    {
        let mut capabilities = CapabilityMap::new();
        let ghost mut witness: Map<ProtocolId, u8> = Map::empty();
        let mut i: usize = 0;
        while i < reported.len()
            invariant
                i <= reported.len(),
                capabilities.well_formed(),
                forall|protocol: ProtocolId, version: u8|
                    #[trigger] speaks(capabilities@, protocol, version) <==> advertised(
                        reported@,
                        i as int,
                        protocol,
                        version,
                    ),
                forall|protocol: ProtocolId| #[trigger]
                    capabilities@.contains_key(protocol) ==> speaks(
                        capabilities@,
                        protocol,
                        witness[protocol],
                    ),
            decreases reported.len() - i,
        {
            let capability = reported[i];
            let ghost before = capabilities@;
            match ProtocolId::from_protocol_type(&capability.protocol) {
                Some(protocol) => {
                    capabilities.insert(protocol, capability.version);
                    proof {
                        witness = witness.insert(protocol, capability.version);
                    }
                },
                None => {},
            }
            proof {
                let named = recognized(capability.protocol@);
                assert forall|protocol: ProtocolId, version: u8|
                    #[trigger] speaks(capabilities@, protocol, version) <==> advertised(
                        reported@,
                        i + 1,
                        protocol,
                        version,
                    ) by {
                    let fresh = named == Some(protocol) && capability.version == version;
                    assert(speaks(capabilities@, protocol, version) <==> speaks(
                        before,
                        protocol,
                        version,
                    ) || fresh);
                    if advertised(reported@, i as int, protocol, version) {
                        let j = choose|j: int|
                            0 <= j < i && j < reported@.len() && (#[trigger] reported@[j]).version
                                == version && recognized(reported@[j].protocol@) == Some(protocol);
                        assert(0 <= j < i + 1 && reported@[j].version == version);
                    }
                    if fresh {
                        assert(reported@[i as int].version == version);
                    }
                    if advertised(reported@, i + 1, protocol, version) {
                        let j = choose|j: int|
                            0 <= j < i + 1 && j < reported@.len() && (
                            #[trigger] reported@[j]).version == version && recognized(
                                reported@[j].protocol@,
                            ) == Some(protocol);
                        if j < i {
                            assert(reported@[j].version == version);
                        }
                    }
                }
            }
            i = i + 1;
        }
        proof {
            let target = projection(reported@);
            assert forall|protocol: ProtocolId| capabilities@.contains_key(protocol)
                <==> target.contains_key(protocol) by {
                if capabilities@.contains_key(protocol) {
                    assert(speaks(capabilities@, protocol, witness[protocol]));
                }
                if target.contains_key(protocol) {
                    let version = choose|version: u8|
                        advertised(reported@, reported@.len() as int, protocol, version);
                    assert(speaks(capabilities@, protocol, version));
                }
            }
            assert forall|protocol: ProtocolId| capabilities@.contains_key(protocol) implies (
            #[trigger] capabilities@[protocol]) =~= target[protocol] by {
                assert forall|version: u8|
                    capabilities@[protocol].contains(version) <==> target[protocol].contains(
                        version,
                    ) by {
                    assert(speaks(capabilities@, protocol, version) <==> advertised(
                        reported@,
                        i as int,
                        protocol,
                        version,
                    ));
                }
            }
            assert(capabilities@ =~= target);
        }
        capabilities
    }
}

} // verus!
