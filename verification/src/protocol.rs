//! The sub-protocols that the adapter knows: their wire tags and the versions
//! with which each is registered at the transport.

use vstd::prelude::*;

verus! {

/// The three bytes that name a sub-protocol on the wire.
pub type ProtocolTag = [u8; 3];

/// The sub-protocols that the adapter recognises.
#[derive(Clone, Copy, Debug, PartialEq, Eq, Hash, Structural)]
pub enum ProtocolId {
    Eth,
    Parity,
}

/// A wire version of a sub-protocol and the number of message ids it uses.
#[derive(Clone, Copy, Debug, PartialEq, Eq, Structural)]
pub struct ProtocolVersion {
    pub number: u8,
    pub message_count: u8,
}

/// The ASCII bytes `eth`.
pub open spec fn eth_tag() -> Seq<u8> {
    seq![0x65u8, 0x74u8, 0x68u8]
}

/// The ASCII bytes `par`.
pub open spec fn parity_tag() -> Seq<u8> {
    seq![0x70u8, 0x61u8, 0x72u8]
}

/// The sub-protocol that a wire tag names, if it names one.
pub open spec fn recognized(tag: Seq<u8>) -> Option<ProtocolId> {
    if tag == eth_tag() {
        Some(ProtocolId::Eth)
    } else if tag == parity_tag() {
        Some(ProtocolId::Parity)
    } else {
        None
    }
}

impl ProtocolId {
    /// The wire tag of this sub-protocol.
    pub open spec fn tag(self) -> Seq<u8> {
        match self {
            ProtocolId::Eth => eth_tag(),
            ProtocolId::Parity => parity_tag(),
        }
    }

    /// The versions that this node speaks of the sub-protocol, the oldest first.
    pub open spec fn versions(self) -> Seq<ProtocolVersion> {
        match self {
            ProtocolId::Eth => seq![ProtocolVersion { number: 64, message_count: 0x11 }],
            ProtocolId::Parity => seq![
                ProtocolVersion { number: 1, message_count: 0x15 },
                ProtocolVersion { number: 2, message_count: 0x16 },
            ],
        }
    }

    /// The three bytes that name this sub-protocol on the wire.
    pub fn to_protocol_type(&self) -> (tag: ProtocolTag)
        ensures
            tag@ == self.tag(),
            recognized(tag@) == Some(*self),
    {
        let tag: ProtocolTag = match self {
            ProtocolId::Eth => [0x65u8, 0x74u8, 0x68u8],
            ProtocolId::Parity => [0x70u8, 0x61u8, 0x72u8],
        };
        proof {
            assert(tag@ =~= self.tag());
            assert(eth_tag()[0] != parity_tag()[0]);
        }
        tag
    }

    /// The sub-protocol that `tag` names, or `None` for a tag that names none.
    pub fn from_protocol_type(tag: &ProtocolTag) -> (protocol: Option<ProtocolId>)
        ensures
            protocol == recognized(tag@),
    {
        if tag[0] == 0x65u8 && tag[1] == 0x74u8 && tag[2] == 0x68u8 {
            assert(tag@ =~= eth_tag());
            Some(ProtocolId::Eth)
        } else if tag[0] == 0x70u8 && tag[1] == 0x61u8 && tag[2] == 0x72u8 {
            assert(tag@ =~= parity_tag());
            assert(eth_tag()[0] != parity_tag()[0]);
            Some(ProtocolId::Parity)
        } else {
            assert(tag@ != eth_tag()) by {
                if tag@ == eth_tag() {
                    assert(tag@[0] == eth_tag()[0] && tag@[1] == eth_tag()[1] && tag@[2]
                        == eth_tag()[2]);
                }
            }
            assert(tag@ != parity_tag()) by {
                if tag@ == parity_tag() {
                    assert(tag@[0] == parity_tag()[0] && tag@[1] == parity_tag()[1] && tag@[2]
                        == parity_tag()[2]);
                }
            }
            None
        }
    }

    /// The versions with which this sub-protocol is registered at the transport.
    pub fn supported_versions(&self) -> (versions: Vec<ProtocolVersion>)
        ensures
            versions@ == self.versions(),
    {
        let mut versions: Vec<ProtocolVersion> = Vec::new();
        match self {
            ProtocolId::Eth => {
                versions.push(ProtocolVersion { number: 64, message_count: 0x11 });
            },
            ProtocolId::Parity => {
                versions.push(ProtocolVersion { number: 1, message_count: 0x15 });
                versions.push(ProtocolVersion { number: 2, message_count: 0x16 });
            },
        }
        proof {
            assert(versions@ =~= self.versions());
        }
        versions
    }
}

/// No tag names two sub-protocols, and each sub-protocol is named by its own tag.
pub proof fn lemma_tags_distinct(a: ProtocolId, b: ProtocolId)
    ensures
        recognized(a.tag()) == Some(a),
        a.tag() == b.tag() <==> a == b,
        a.tag().len() == 3,
{
    assert(eth_tag()[0] != parity_tag()[0]);
}

} // verus!
