//! Protocol detection and state of a DMX receiver that accepts both
//! Art-Net and sACN, and of a sender for either protocol.
use vstd::prelude::*;
use vstd::string::StringSliceAdditionalSpecFns;

use crate::artnet::{self, artnet_id, spec_parse_artnet, ArtNetPacket, ArtNetPacketSpec};
use crate::dmx::{spec_set_channels, DmxUniverse};
use crate::error::ControlError;
use crate::sacn::{self, acn_identifier, spec_data_packet, spec_parse_sacn, Cid};
use crate::universe::UniverseManager;
use crate::wire::{bytes_match_at, repeat_byte};

verus! {

/// Which wire protocol a received universe arrived on.
#[derive(Debug, Clone, Copy, PartialEq, Eq, Structural)]
pub enum DmxProtocol {
    /// Art-Net (ArtDmx).
    ArtNet,
    /// sACN / E1.31.
    Sacn,
}

/// Whether `d` begins with the Art-Net identifier.
pub open spec fn looks_artnet(d: Seq<u8>) -> bool {
    d.len() >= 8 && d.take(8) == artnet_id()
}

/// Whether `d` carries the ACN identifier at bytes 4..16.
pub open spec fn looks_sacn(d: Seq<u8>) -> bool {
    d.len() > 16 && d.subrange(4, 16) == acn_identifier()
}

/// The universe a datagram's slots fill from channel 0, the rest black.
pub open spec fn universe_from_slots(universe: u16, slots: Seq<u8>) -> (u16, Seq<u8>) {
    (universe, spec_set_channels(repeat_byte(0, 512), 0, slots))
}

/// What a datagram gives: `None` when it is rejected as invalid data,
/// `Some(None)` when it carries no universe, else the protocol with the
/// universe number and channels.
pub open spec fn spec_classify(d: Seq<u8>) -> Option<Option<(DmxProtocol, (u16, Seq<u8>))>> {
    if looks_artnet(d) {
        match spec_parse_artnet(d) {
            None => None,
            Some(ArtNetPacketSpec::Dmx { universe, slots }) => Some(
                Some((DmxProtocol::ArtNet, universe_from_slots(universe, slots))),
            ),
            Some(_) => Some(None),
        }
    } else if looks_sacn(d) {
        match spec_parse_sacn(d) {
            None => None,
            Some(Some(p)) => Some(Some((DmxProtocol::Sacn, universe_from_slots(p.universe, p.slots)))),
            Some(None) => Some(None),
        }
    } else {
        Some(None)
    }
}

/// Auto-detects Art-Net vs sACN in one datagram and decodes the universe
/// it carries, if any; unrelated UDP chatter gives `Ok(None)`.
pub fn classify_datagram(data: &[u8]) -> (r: Result<Option<(DmxProtocol, DmxUniverse)>, ControlError>)
    ensures
        spec_classify(data@) is None <==> r is Err,
        r matches Err(e) ==> e is InvalidData,
        r matches Ok(None) ==> spec_classify(data@) == Some(None::<(DmxProtocol, (u16, Seq<u8>))>),
        r matches Ok(Some((p, u))) ==> spec_classify(data@) == Some(Some((p, (u.universe, u.channels@)))),
{
    let id: [u8; 8] = [0x41, 0x72, 0x74, 0x2D, 0x4E, 0x65, 0x74, 0x00];
    proof {
        assert(id@ =~= artnet_id());
        assert(data@.len() >= 8 ==> data@.subrange(0, 8) =~= data@.take(8));
    }
    if data.len() >= 8 && bytes_match_at(data, 0, &id) {
        match artnet::parse_packet(data) {
            Err(e) => Err(e),
            Ok(ArtNetPacket::Dmx { universe, slots }) => {
                let mut u = DmxUniverse::new(universe);
                proof {
                    assert(u.channels@ =~= repeat_byte(0, 512));
                }
                u.set_channels(0, slots.as_slice());
                Ok(Some((DmxProtocol::ArtNet, u)))
            },
            Ok(_) => Ok(None),
        }
    } else {
        let acn = sacn::acn_identifier_bytes();
        if data.len() > 16 && bytes_match_at(data, 4, &acn) {
            match sacn::parse_packet(data) {
                Err(e) => Err(e),
                Ok(Some(packet)) => {
                    let mut u = DmxUniverse::new(packet.universe);
                    proof {
                        assert(u.channels@ =~= repeat_byte(0, 512));
                    }
                    u.set_channels(0, packet.slots.as_slice());
                    Ok(Some((DmxProtocol::Sacn, u)))
                },
                Ok(None) => Ok(None),
            }
        } else {
            Ok(None)
        }
    }
}

/// The state of a DMX server: the latest data per universe and the
/// protocol of the last universe received.
#[derive(Debug, Clone)]
pub struct DmxServerState {
    manager: UniverseManager,
    last_protocol: Option<DmxProtocol>,
}

impl DmxServerState {
    /// The managed universes.
    pub closed spec fn spec_manager(&self) -> UniverseManager {
        self.manager
    }

    /// The protocol of the last universe received.
    pub closed spec fn spec_last_protocol(&self) -> Option<DmxProtocol> {
        self.last_protocol
    }

    /// The manager's entries stay sorted.
    pub closed spec fn wf(&self) -> bool {
        self.manager.wf()
    }

    /// A server state with no universes yet.
    pub fn new() -> (s: DmxServerState)
        ensures
            s.wf(),
            s.spec_manager().spec_map() == Map::<u16, DmxUniverse>::empty(),
            s.spec_last_protocol() is None,
    {
        DmxServerState { manager: UniverseManager::new(), last_protocol: None }
    }

    /// Read-only view of the managed universes.
    pub fn manager(&self) -> (m: &UniverseManager)
        requires
            self.wf(),
        ensures
            *m == self.spec_manager(),
            m.wf(),
    {
        &self.manager
    }

    /// The protocol of the most recently received universe.
    pub fn last_protocol(&self) -> (p: Option<DmxProtocol>)
        ensures
            p == self.spec_last_protocol(),
    {
        self.last_protocol
    }

    /// Takes in one datagram: a universe it carries is merged into the
    /// manager, its protocol recorded, and the universe returned. Anything
    /// else leaves the state unchanged.
    pub fn receive(&mut self, data: &[u8]) -> (r: Result<Option<DmxUniverse>, ControlError>)
        requires
            old(self).wf(),
        ensures
            final(self).wf(),
            spec_classify(data@) is None <==> r is Err,
            r matches Err(e) ==> e is InvalidData,
            !(r matches Ok(Some(_))) ==> *final(self) == *old(self),
            r matches Ok(Some(u)) ==> (spec_classify(data@) matches Some(Some((p, v))) && v == (
                u.universe,
                u.channels@,
            ) && final(self).spec_last_protocol() == Some(p) && final(self).spec_manager().spec_map()
                == old(self).spec_manager().spec_map().insert(
                u.universe,
                DmxUniverse {
                    universe: if old(self).spec_manager().spec_map().contains_key(u.universe) {
                        old(self).spec_manager().spec_map()[u.universe].universe
                    } else {
                        u.universe
                    },
                    channels: u.channels,
                },
            )),
            spec_classify(data@) matches Some(Some(_)) ==> (r matches Ok(Some(_))),
    {
        match classify_datagram(data) {
            Err(e) => Err(e),
            Ok(None) => Ok(None),
            Ok(Some((protocol, universe))) => {
                self.manager.merge(&universe);
                self.last_protocol = Some(protocol);
                Ok(Some(universe))
            },
        }
    }
}

/// A sender's state: its protocol, per-protocol sequence numbers and sACN
/// source identity.
#[derive(Debug, Clone)]
pub struct DmxSender {
    protocol: DmxProtocol,
    artnet_sequence: u8,
    sacn_cid: Cid,
    sacn_name: String,
    sacn_sequence: u8,
}

/// The sACN source name a sender starts with, "tpt-av-control".
pub open spec fn default_source_name() -> Seq<char> {
    seq!['t', 'p', 't', '-', 'a', 'v', '-', 'c', 'o', 'n', 't', 'r', 'o', 'l']
}

impl DmxSender {
    /// The selected protocol.
    pub closed spec fn spec_protocol(&self) -> DmxProtocol {
        self.protocol
    }

    /// The last Art-Net sequence number sent (0 before the first).
    pub closed spec fn spec_artnet_sequence(&self) -> u8 {
        self.artnet_sequence
    }

    /// The last sACN sequence number sent (0 before the first).
    pub closed spec fn spec_sacn_sequence(&self) -> u8 {
        self.sacn_sequence
    }

    /// The sACN source CID.
    pub closed spec fn spec_sacn_cid(&self) -> Cid {
        self.sacn_cid
    }

    /// The sACN source name.
    pub closed spec fn spec_sacn_name(&self) -> Seq<char> {
        self.sacn_name@
    }

    /// A sender for `protocol` with both sequence numbers at 0, identified
    /// to sACN receivers by `cid` and "tpt-av-control".
    pub fn new(protocol: DmxProtocol, cid: Cid) -> (s: DmxSender)
        ensures
            s.spec_protocol() == protocol,
            s.spec_artnet_sequence() == 0,
            s.spec_sacn_sequence() == 0,
            s.spec_sacn_cid() == cid,
            s.spec_sacn_name() == default_source_name(),
    {
        let name = "tpt-av-control";
        proof {
            reveal_strlit("tpt-av-control");
        }
        DmxSender {
            protocol,
            artnet_sequence: 0,
            sacn_cid: cid,
            sacn_name: name.to_string(),
            sacn_sequence: 0,
        }
    }

    /// Overrides the sACN source identity (ignored for Art-Net).
    pub fn set_sacn_source(&mut self, cid: Cid, name: &str)
        ensures
            final(self).spec_protocol() == old(self).spec_protocol(),
            final(self).spec_artnet_sequence() == old(self).spec_artnet_sequence(),
            final(self).spec_sacn_sequence() == old(self).spec_sacn_sequence(),
            final(self).spec_sacn_cid() == cid,
            final(self).spec_sacn_name() == name@,
    {
        self.sacn_cid = cid;
        self.sacn_name = name.to_string();
    }

    /// The selected protocol.
    pub fn protocol(&self) -> (p: DmxProtocol)
        ensures
            p == self.spec_protocol(),
    {
        self.protocol
    }

    /// Advances the selected protocol's sequence number (wrapping) and
    /// encodes one universe as that protocol's data packet.
    pub fn encode(&mut self, universe: &DmxUniverse) -> (packet: Vec<u8>)
        ensures
            final(self).spec_protocol() == old(self).spec_protocol(),
            final(self).spec_sacn_cid() == old(self).spec_sacn_cid(),
            final(self).spec_sacn_name() == old(self).spec_sacn_name(),
            old(self).spec_protocol() == DmxProtocol::ArtNet ==> {
                &&& final(self).spec_artnet_sequence() == (old(self).spec_artnet_sequence() + 1) % 256
                &&& final(self).spec_sacn_sequence() == old(self).spec_sacn_sequence()
                &&& packet@ == artnet::spec_artdmx(
                    universe.universe,
                    final(self).spec_artnet_sequence(),
                    universe.channels@,
                )
            },
            old(self).spec_protocol() == DmxProtocol::Sacn ==> {
                &&& final(self).spec_sacn_sequence() == (old(self).spec_sacn_sequence() + 1) % 256
                &&& final(self).spec_artnet_sequence() == old(self).spec_artnet_sequence()
                &&& packet@ == spec_data_packet(
                    old(self).spec_sacn_cid().0@,
                    vstd::utf8::encode_utf8(old(self).spec_sacn_name()),
                    universe.universe,
                    sacn::DEFAULT_PRIORITY,
                    final(self).spec_sacn_sequence(),
                    universe.channels@,
                )
            },
    {
        match self.protocol {
            DmxProtocol::ArtNet => {
                self.artnet_sequence = self.artnet_sequence.wrapping_add(1);
                artnet::build_artdmx(universe.universe, self.artnet_sequence, &universe.channels)
            },
            DmxProtocol::Sacn => {
                self.sacn_sequence = self.sacn_sequence.wrapping_add(1);
                sacn::build_data_packet(
                    &self.sacn_cid,
                    self.sacn_name.as_str(),
                    universe.universe,
                    sacn::DEFAULT_PRIORITY,
                    self.sacn_sequence,
                    &universe.channels,
                )
            },
        }
    }
}

} // verus!
