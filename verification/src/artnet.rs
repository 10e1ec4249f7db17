//! Art-Net 4 protocol (UDP port 6454): ArtDmx data packets plus a minimal
//! ArtPoll / ArtPollReply implementation.
use vstd::prelude::*;

use vstd::string::StringSliceAdditionalSpecFns;

use crate::dmx::{spec_set_channels, DmxUniverse};
use crate::error::{invalid_data, ControlError};
use crate::wire::{
    bytes_match_at, fixed_width, push_fixed_bytes, push_repeat, push_slice, repeat_byte,
    slice_to_vec,
};

verus! {

/// The default Art-Net UDP port.
pub const ARTNET_PORT: u16 = 6454;

/// ArtDmx opcode (OpOutput / OpDmx).
pub const OP_DMX: u16 = 0x5000;

/// ArtPoll opcode.
pub const OP_POLL: u16 = 0x2000;

/// ArtPollReply opcode.
pub const OP_POLL_REPLY: u16 = 0x2100;

/// Art-Net protocol version 14.
pub const PROTOCOL_VERSION: u8 = 14;

/// The 8-byte packet identifier "Art-Net\0".
pub open spec fn artnet_id() -> Seq<u8> {
    seq![0x41u8, 0x72u8, 0x74u8, 0x2Du8, 0x4Eu8, 0x65u8, 0x74u8, 0x00u8]
}

/// The node report text announced in poll replies.
pub open spec fn node_report() -> Seq<u8> {
    // "#0000 [0000] tpt-av-control ready"
    seq![
        0x23u8, 0x30u8, 0x30u8, 0x30u8, 0x30u8, 0x20u8, 0x5Bu8, 0x30u8, 0x30u8, 0x30u8, 0x30u8,
        0x5Du8, 0x20u8, 0x74u8, 0x70u8, 0x74u8, 0x2Du8, 0x61u8, 0x76u8, 0x2Du8, 0x63u8, 0x6Fu8,
        0x6Eu8, 0x74u8, 0x72u8, 0x6Fu8, 0x6Cu8, 0x20u8, 0x72u8, 0x65u8, 0x61u8, 0x64u8, 0x79u8,
    ]
}

/// The short name this node announces, "tpt-av-control".
pub open spec fn node_name() -> Seq<u8> {
    seq![
        0x74u8, 0x70u8, 0x74u8, 0x2Du8, 0x61u8, 0x76u8, 0x2Du8, 0x63u8, 0x6Fu8, 0x6Eu8, 0x74u8,
        0x72u8, 0x6Fu8, 0x6Cu8,
    ]
}

/// The low 8 bits of a universe number (SubUni / NetSwitch byte).
pub open spec fn uni_lo(universe: u16) -> u8 {
    (universe & 0xFF) as u8
}

/// Bits 8..15 of a universe number, without the top bit (Net byte).
pub open spec fn uni_hi(universe: u16) -> u8 {
    ((universe >> 8u16) & 0x7F) as u8
}

/// The bytes of an ArtDmx packet carrying `data`.
pub open spec fn spec_artdmx(universe: u16, sequence: u8, data: Seq<u8>) -> Seq<u8> {
    artnet_id() + seq![
        0x00u8,
        0x50u8,
        0x00u8,
        PROTOCOL_VERSION,
        sequence,
        0x00u8,
        uni_lo(universe),
        uni_hi(universe),
        0x02u8,
        0x00u8,
    ] + data
}

/// The bytes of the poll reply announcing `name` with one port on
/// `universe`.
pub open spec fn spec_poll_reply(ip: Seq<u8>, name: Seq<u8>, universe: u16) -> Seq<u8> {
    let sub = (universe & 0x0F) as u8;
    artnet_id() + seq![0x00u8, 0x21u8] + ip + seq![
        0x19u8,
        0x36u8,
        1u8,
        0u8,
        uni_lo(universe),
        uni_hi(universe),
        0xFFu8,
        0xFFu8,
        0u8,
        0u8,
        0u8,
        0u8,
    ] + fixed_width(name, 18) + fixed_width(name, 64) + fixed_width(node_report(), 64) + seq![
        0x00u8,
        0x01u8,
        0x80u8,
        0x00u8,
        0x00u8,
        0x00u8,
        0x80u8,
        0x00u8,
        0x00u8,
        0x00u8,
        0x80u8,
        0x00u8,
        0x00u8,
        0x00u8,
        sub,
        sub,
    ] + repeat_byte(0, 9) + repeat_byte(0x80, 23)
}

/// The poll reply announces this node's one port on `universe`: it is 220
/// bytes long, opens with the Art-Net ID and the ArtPollReply opcode
/// (0x2100, low byte first), carries the node's IP address at bytes
/// 10..14, gives the universe's low byte and bits 8..14 in the NetSwitch
/// and SubSwitch bytes (18, 19), and the universe's low nibble in the
/// SwIn and SwOut bytes of its port (186, 187).
pub proof fn lemma_poll_reply_fields(ip: Seq<u8>, name: Seq<u8>, universe: u16)
    requires
        ip.len() == 4,
    ensures
        ({
            let r = spec_poll_reply(ip, name, universe);
            &&& r.len() == 220
            &&& r.subrange(0, 8) == seq![0x41u8, 0x72u8, 0x74u8, 0x2Du8, 0x4Eu8, 0x65u8, 0x74u8, 0x00u8]
            &&& r[8] == 0x00 && r[9] == 0x21
            &&& r.subrange(10, 14) == ip
            &&& r[18] == (universe % 256) as u8
            &&& r[19] == (universe / 256 % 128) as u8
            &&& r[186] == (universe % 16) as u8
            &&& r[187] == (universe % 16) as u8
        }),
{
    let r = spec_poll_reply(ip, name, universe);
    let sub = (universe & 0x0F) as u8;
    assert((universe & 0x0F) as u8 == (universe % 16) as u8 && (universe & 0xFF) as u8 == (universe % 256) as u8
        && ((universe >> 8u16) & 0x7F) as u8 == (universe / 256 % 128) as u8) by (bit_vector);
    let head = artnet_id() + seq![0x00u8, 0x21u8] + ip + seq![
        0x19u8,
        0x36u8,
        1u8,
        0u8,
        uni_lo(universe),
        uni_hi(universe),
        0xFFu8,
        0xFFu8,
        0u8,
        0u8,
        0u8,
        0u8,
    ];
    let names = fixed_width(name, 18) + fixed_width(name, 64) + fixed_width(node_report(), 64);
    let ports = seq![
        0x00u8,
        0x01u8,
        0x80u8,
        0x00u8,
        0x00u8,
        0x00u8,
        0x80u8,
        0x00u8,
        0x00u8,
        0x00u8,
        0x80u8,
        0x00u8,
        0x00u8,
        0x00u8,
        sub,
        sub,
    ];
    let tail = repeat_byte(0, 9) + repeat_byte(0x80, 23);
    assert(repeat_byte(0, 9).len() == 9 && repeat_byte(0x80, 23).len() == 23);
    assert(r == head + names + ports + tail);
    assert(head.len() == 26);
    assert(fixed_width(name, 18).len() == 18);
    assert(fixed_width(name, 64).len() == 64);
    assert(fixed_width(node_report(), 64).len() == 64);
    assert(names.len() == 146);
    assert(r[186] == ports[14]);
    assert(r[187] == ports[15]);
    assert(r[18] == head[18]);
    assert(r[19] == head[19]);
    assert(r.subrange(0, 8) =~= artnet_id());
    assert(r.subrange(10, 14) =~= ip);
}

/// An incoming Art-Net packet.
#[derive(Debug, Clone, PartialEq, Eq)]
pub enum ArtNetPacket {
    /// An ArtDmx data packet.
    Dmx {
        /// The DMX universe number.
        universe: u16,
        /// The slot data (1-512 entries as sent).
        slots: Vec<u8>,
    },
    /// An ArtPoll requesting node discovery.
    Poll,
    /// Anything else (opcode preserved).
    Other {
        /// The Art-Net opcode.
        opcode: u16,
    },
}

/// The abstract value of an [`ArtNetPacket`].
pub enum ArtNetPacketSpec {
    Dmx { universe: u16, slots: Seq<u8> },
    Poll,
    Other { opcode: u16 },
}

impl View for ArtNetPacket {
    type V = ArtNetPacketSpec;

    open spec fn view(&self) -> ArtNetPacketSpec {
        match self {
            ArtNetPacket::Dmx { universe, slots } => ArtNetPacketSpec::Dmx { universe: *universe, slots: slots@ },
            ArtNetPacket::Poll => ArtNetPacketSpec::Poll,
            ArtNetPacket::Other { opcode } => ArtNetPacketSpec::Other { opcode: *opcode },
        }
    }
}

/// What a datagram parses to; `None` when it is rejected as invalid data.
pub open spec fn spec_parse_artnet(d: Seq<u8>) -> Option<ArtNetPacketSpec> {
    if d.len() < 12 || d.take(8) != artnet_id() {
        None
    } else {
        let opcode = d[8] + d[9] * 256;
        if opcode == OP_DMX {
            if d.len() < 18 {
                None
            } else {
                let len = d[16] * 256 + d[17];
                if 18 + len > d.len() {
                    None
                } else {
                    Some(
                        ArtNetPacketSpec::Dmx {
                            universe: (d[14] + (d[15] & 0x7F) * 256) as u16,
                            slots: d.subrange(18, 18 + len),
                        },
                    )
                }
            }
        } else if opcode == OP_POLL {
            Some(ArtNetPacketSpec::Poll)
        } else {
            Some(ArtNetPacketSpec::Other { opcode: opcode as u16 })
        }
    }
}

/// Appends the "Art-Net\0" identifier.
fn push_artnet_id(buf: &mut Vec<u8>)
    ensures
        final(buf)@ == old(buf)@ + artnet_id(),
{
    let id: [u8; 8] = [0x41, 0x72, 0x74, 0x2D, 0x4E, 0x65, 0x74, 0x00];
    push_slice(buf, &id);
    proof {
        assert(id@ =~= artnet_id());
    }
}

/// Builds an ArtDmx packet: header + 512-slot data.
pub fn build_artdmx(universe: u16, sequence: u8, data: &[u8; 512]) -> (packet: Vec<u8>)
    ensures
        packet@ == spec_artdmx(universe, sequence, data@),
{
    let mut packet: Vec<u8> = Vec::new();
    push_artnet_id(&mut packet);
    packet.push(0x00);  // opcode low byte first
    packet.push(0x50);
    packet.push(0x00);  // ProtVer hi
    packet.push(PROTOCOL_VERSION);
    packet.push(sequence);
    packet.push(0x00);  // physical
    packet.push((universe & 0xFF) as u8);  // SubUni
    packet.push(((universe >> 8u16) & 0x7F) as u8);  // Net
    packet.push(0x02);  // length 512, big-endian
    packet.push(0x00);
    push_slice(&mut packet, data);
    proof {
        assert(packet@ =~= spec_artdmx(universe, sequence, data@));
    }
    packet
}

/// Builds the poll reply from the name's bytes.
fn poll_reply_bytes(source_ip: [u8; 4], name: &[u8], universe: u16) -> (r: Vec<u8>)
    ensures
        r@ == spec_poll_reply(source_ip@, name@, universe),
{
    let mut r: Vec<u8> = Vec::new();
    push_artnet_id(&mut r);
    r.push(0x00);
    r.push(0x21);
    push_slice(&mut r, &source_ip);
    r.push(0x19);  // port 6454, big-endian
    r.push(0x36);
    r.push(1);  // VersInfo
    r.push(0);  // VersInfo (sub)
    r.push((universe & 0xFF) as u8);  // NetSwitch
    r.push(((universe >> 8u16) & 0x7F) as u8);  // SubSwitch
    r.push(0xFF);  // OEM
    r.push(0xFF);
    r.push(0x00);  // Ubea
    r.push(0x00);  // Status1
    r.push(0x00);  // ESTA manufacturer
    r.push(0x00);
    let ghost head = r@;
    push_fixed_bytes(&mut r, name, 18);
    push_fixed_bytes(&mut r, name, 64);
    let report: [u8; 33] = [
        0x23, 0x30, 0x30, 0x30, 0x30, 0x20, 0x5B, 0x30, 0x30, 0x30, 0x30, 0x5D, 0x20, 0x74, 0x70,
        0x74, 0x2D, 0x61, 0x76, 0x2D, 0x63, 0x6F, 0x6E, 0x74, 0x72, 0x6F, 0x6C, 0x20, 0x72, 0x65,
        0x61, 0x64, 0x79,
    ];
    proof {
        assert(report@ =~= node_report());
    }
    push_fixed_bytes(&mut r, &report, 64);
    let ghost mid = r@;
    r.push(0x00);  // NumPortsHi
    r.push(0x01);  // NumPorts: 1
    r.push(0x80);  // PortTypes: port 1 output DMX
    r.push(0x00);
    r.push(0x00);
    r.push(0x00);
    r.push(0x80);  // GoodInput
    r.push(0x00);
    r.push(0x00);
    r.push(0x00);
    r.push(0x80);  // GoodOutput
    r.push(0x00);
    r.push(0x00);
    r.push(0x00);
    let sub = (universe & 0x0F) as u8;
    r.push(sub);  // SwIn
    r.push(sub);  // SwOut
    push_repeat(&mut r, 0x00, 9);  // SwIn video, SwOut video, AcnPriority
    push_repeat(&mut r, 0x80, 23);
    proof {
        assert(r@ =~= spec_poll_reply(source_ip@, name@, universe));
    }
    r
}

/// Builds a minimal ArtPollReply announcing one input port on `universe`.
pub fn build_art_poll_reply(source_ip: [u8; 4], short_name: &str, universe: u16) -> (r: Vec<u8>)
    ensures
        r@ == spec_poll_reply(source_ip@, short_name.spec_bytes(), universe),
{
    poll_reply_bytes(source_ip, short_name.as_bytes(), universe)
}

/// Parses an Art-Net packet.
pub fn parse_packet(data: &[u8]) -> (r: Result<ArtNetPacket, ControlError>)
    ensures
        spec_parse_artnet(data@) is None <==> r is Err,
        r matches Err(e) ==> e is InvalidData,
        r matches Ok(p) ==> spec_parse_artnet(data@) == Some(p@),
{
    if data.len() < 12 {
        return Err(invalid_data("not an Art-Net packet (missing 'Art-Net\\0' header)"));
    }
    let id: [u8; 8] = [0x41, 0x72, 0x74, 0x2D, 0x4E, 0x65, 0x74, 0x00];
    proof {
        assert(id@ =~= artnet_id());
        assert(data@.subrange(0, 8) =~= data@.take(8));
    }
    if !bytes_match_at(data, 0, &id) {
        return Err(invalid_data("not an Art-Net packet (missing 'Art-Net\\0' header)"));
    }
    let opcode: u16 = data[8] as u16 + (data[9] as u16) * 256;
    if opcode == OP_DMX {
        if data.len() < 18 {
            return Err(invalid_data("ArtDmx packet truncated"));
        }
        let len: usize = (data[16] as usize) * 256 + data[17] as usize;
        if len > data.len() - 18 {
            return Err(invalid_data("ArtDmx length overruns packet"));
        }
        let universe: u16 = data[14] as u16 + ((data[15] & 0x7F) as u16) * 256;
        let slots = slice_to_vec(data, 18, 18 + len);
        let p = ArtNetPacket::Dmx { universe, slots };
        proof {
            assert(p@ == ArtNetPacketSpec::Dmx { universe, slots: data@.subrange(18, 18 + len) });
        }
        Ok(p)
    } else if opcode == OP_POLL {
        Ok(ArtNetPacket::Poll)
    } else {
        Ok(ArtNetPacket::Other { opcode })
    }
}

/// What receiving one datagram leads to.
#[derive(Debug, Clone, PartialEq, Eq)]
pub enum ArtNetReceive {
    /// An ArtDmx packet's data, as a universe.
    Universe(DmxUniverse),
    /// A poll, to be answered with these reply bytes.
    Reply(Vec<u8>),
    /// Anything else, to be skipped.
    Skip,
}

/// Decides what to do with one received datagram from `source_ip`: an
/// ArtDmx packet becomes a universe (its slots from channel 0, the rest
/// black), a poll is answered with a poll reply naming this node on
/// universe 0, and other packets are skipped. Invalid data is an error.
pub fn receive_datagram(data: &[u8], source_ip: [u8; 4]) -> (r: Result<ArtNetReceive, ControlError>)
    ensures
        spec_parse_artnet(data@) is None <==> r is Err,
        r matches Err(e) ==> e is InvalidData,
        spec_parse_artnet(data@) matches Some(ArtNetPacketSpec::Dmx { universe, slots }) ==> (r matches Ok(
            ArtNetReceive::Universe(u),
        ) && u.universe == universe && u.channels@ == spec_set_channels(repeat_byte(0, 512), 0, slots)),
        spec_parse_artnet(data@) matches Some(ArtNetPacketSpec::Poll) ==> (r matches Ok(ArtNetReceive::Reply(bytes))
            && bytes@ == spec_poll_reply(source_ip@, node_name(), 0)),
        spec_parse_artnet(data@) matches Some(ArtNetPacketSpec::Other { .. }) ==> r == Ok::<
            ArtNetReceive,
            ControlError,
        >(ArtNetReceive::Skip),
{
    match parse_packet(data) {
        Err(e) => Err(e),
        Ok(ArtNetPacket::Dmx { universe, slots }) => {
            let mut u = DmxUniverse::new(universe);
            proof {
                assert(u.channels@ =~= repeat_byte(0, 512));
            }
            u.set_channels(0, slots.as_slice());
            Ok(ArtNetReceive::Universe(u))
        },
        Ok(ArtNetPacket::Poll) => {
            let name: [u8; 14] = [
                0x74, 0x70, 0x74, 0x2D, 0x61, 0x76, 0x2D, 0x63, 0x6F, 0x6E, 0x74, 0x72, 0x6F, 0x6C,
            ];
            proof {
                assert(name@ =~= node_name());
            }
            Ok(ArtNetReceive::Reply(poll_reply_bytes(source_ip, &name, 0)))
        },
        Ok(ArtNetPacket::Other { .. }) => Ok(ArtNetReceive::Skip),
    }
}

/// An ArtDmx packet that is built parses back to its universe (without the
/// top bit, which the Net byte does not carry) and its 512 slots.
pub proof fn lemma_artdmx_roundtrip(universe: u16, sequence: u8, data: Seq<u8>)
    requires
        data.len() == 512,
    ensures
        spec_parse_artnet(spec_artdmx(universe, sequence, data)) == Some(
            ArtNetPacketSpec::Dmx { universe: universe & 0x7FFF, slots: data },
        ),
{
    let p = spec_artdmx(universe, sequence, data);
    assert(p.take(8) =~= artnet_id());
    assert(p[8] == 0 && p[9] == 0x50);
    assert(p[16] == 2 && p[17] == 0);
    assert(p.subrange(18, 530) =~= data);
    let lo = uni_lo(universe);
    let hi = uni_hi(universe);
    assert(p[14] == lo && p[15] == hi);
    assert(lo + (hi & 0x7F) * 256 == universe & 0x7FFF) by (bit_vector)
        requires
            lo == (universe & 0xFF) as u8,
            hi == ((universe >> 8u16) & 0x7F) as u8,
    ;
}

} // verus!
