//! OSC bundles: timestamped collections of messages and nested bundles.
use vstd::prelude::*;

use crate::error::{invalid_data, ControlError};
use crate::message::{
    message_encodable, parse_osc_message, spec_bad_address, spec_encode_message,
    spec_parse_osc,
    OscMessage, OscMessageSpec,
};
use crate::types::{be_u32_at, be_u64_at, padded_into, spec_padded, spec_read_cstr};
use crate::wire::{be32, be64, push_be32, push_be64, push_slice};

verus! {

/// Maximum nesting depth accepted when parsing bundles (defends against
/// stack exhaustion from hostile packets).
pub const MAX_BUNDLE_DEPTH: u8 = 32;

/// The `#bundle` marker that begins every bundle.
pub open spec fn bundle_marker() -> Seq<u8> {
    seq![0x23u8, 0x62u8, 0x75u8, 0x6Eu8, 0x64u8, 0x6Cu8, 0x65u8]
}

/// An element of an OSC bundle: either a message or a nested bundle.
#[derive(Debug, PartialEq)]
pub enum OscPacket {
    /// A complete OSC message.
    Message(OscMessage),
    /// A nested OSC bundle.
    Bundle(OscBundle),
}

/// An OSC bundle (collection of packets with a timestamp).
///
/// `timestamp` is the 64-bit NTP time tag; `None` means "immediate"
/// (wire value `1`).
#[derive(Debug, PartialEq)]
pub struct OscBundle {
    /// NTP timestamp; `None` = immediate.
    pub timestamp: Option<u64>,
    /// The packets carried by the bundle, in wire order.
    pub elements: Vec<OscPacket>,
}

/// The abstract value of a packet: a message, or a bundle's timestamp and
/// elements.
pub enum OscPacketSpec {
    Message(OscMessageSpec),
    Bundle(Option<u64>, Seq<OscPacketSpec>),
}

/// The abstract value of a packet.
pub open spec fn packet_view(p: OscPacket) -> OscPacketSpec
    decreases p,
{
    match p {
        OscPacket::Message(m) => OscPacketSpec::Message(m@),
        OscPacket::Bundle(b) => OscPacketSpec::Bundle(
            b.timestamp,
            Seq::new(
                b.elements@.len(),
                |i: int|
                    {
                        if 0 <= i < b.elements@.len() {
                            proof {
                                assert(decreases_to!(p => b));
                            }
                            packet_view(b.elements@[i])
                        } else {
                            OscPacketSpec::Bundle(None, Seq::empty())
                        }
                    },
            ),
        ),
    }
}

/// The abstract value of a bundle.
pub open spec fn bundle_view(b: OscBundle) -> OscPacketSpec {
    packet_view(OscPacket::Bundle(b))
}

/// The wire bytes of a packet: a message's encoding, or for a bundle the
/// padded `#bundle` marker, the time tag (1 for immediate), then each
/// element as a 32-bit size and its bytes.
pub open spec fn spec_encode_packet(p: OscPacketSpec) -> Seq<u8>
    decreases p, 0int,
{
    match p {
        OscPacketSpec::Message(m) => spec_encode_message(m.address, m.arguments),
        OscPacketSpec::Bundle(ts, elems) => spec_padded(bundle_marker()) + be64(
            match ts {
                Some(t) => t,
                None => 1,
            },
        ) + spec_encode_elements(elems, 0),
    }
}

/// The wire bytes of the elements `elems[i..]`.
pub open spec fn spec_encode_elements(elems: Seq<OscPacketSpec>, i: int) -> Seq<u8>
    decreases elems, elems.len() - i,
{
    if i < 0 || i >= elems.len() {
        Seq::empty()
    } else {
        let e = spec_encode_packet(elems[i]);
        be32(e.len() as u32) + e + spec_encode_elements(elems, i + 1)
    }
}

/// Every message in the packet is small enough to encode.
pub open spec fn packet_encodable(p: OscPacketSpec) -> bool
    decreases p, 0int,
{
    match p {
        OscPacketSpec::Message(m) => message_encodable(m.address, m.arguments),
        OscPacketSpec::Bundle(_, elems) => elements_encodable(elems, 0),
    }
}

/// Every message in `elems[i..]` is small enough to encode.
pub open spec fn elements_encodable(elems: Seq<OscPacketSpec>, i: int) -> bool
    decreases elems, elems.len() - i,
{
    if i < 0 || i >= elems.len() {
        true
    } else {
        packet_encodable(elems[i]) && elements_encodable(elems, i + 1)
    }
}

/// Appends the encoding of a packet.
fn encode_packet_into(p: &OscPacket, buf: &mut Vec<u8>)
    requires
        packet_encodable(packet_view(*p)),
    ensures
        final(buf)@ == old(buf)@ + spec_encode_packet(packet_view(*p)),
    decreases *p,
{
    match p {
        OscPacket::Message(m) => m.encode_into(buf),
        OscPacket::Bundle(b) => b.encode_into(buf),
    }
}

impl OscBundle {
    /// Creates a bundle with the given NTP timestamp (`None` = immediate).
    pub fn new(timestamp: Option<u64>, elements: Vec<OscPacket>) -> (b: OscBundle)
        ensures
            b.timestamp == timestamp,
            b.elements == elements,
    {
        OscBundle { timestamp, elements }
    }

    /// Encodes the bundle into a new byte buffer.
    pub fn encode(&self) -> (buf: Vec<u8>)
        requires
            packet_encodable(bundle_view(*self)),
        ensures
            buf@ == spec_encode_packet(bundle_view(*self)),
    {
        let mut buf: Vec<u8> = Vec::new();
        self.encode_into(&mut buf);
        proof {
            assert(buf@ =~= spec_encode_packet(bundle_view(*self)));
        }
        buf
    }

    /// Encodes the bundle, appending to `buf`.
    pub fn encode_into(&self, buf: &mut Vec<u8>)
        requires
            packet_encodable(bundle_view(*self)),
        ensures
            final(buf)@ == old(buf)@ + spec_encode_packet(bundle_view(*self)),
        decreases *self,
    {
        let ghost v = bundle_view(*self);
        let ghost elems = match v {
            OscPacketSpec::Bundle(_, e) => e,
            _ => Seq::empty(),
        };
        let marker: [u8; 7] = [0x23, 0x62, 0x75, 0x6E, 0x64, 0x6C, 0x65];
        proof {
            assert(marker@ =~= bundle_marker());
        }
        padded_into(buf, &marker);
        // OSC's "immediate" time tag is the wire value 1.
        let tag: u64 = match self.timestamp {
            Some(t) => t,
            None => 1,
        };
        push_be64(buf, tag);
        let ghost head = buf@;
        let mut i: usize = 0;
        while i < self.elements.len()
            invariant
                i <= self.elements@.len(),
                v == bundle_view(*self),
                elems.len() == self.elements@.len(),
                forall|j: int| 0 <= j < elems.len() ==> #[trigger] elems[j] == packet_view(self.elements@[j]),
                elements_encodable(elems, i as int),
                head + spec_encode_elements(elems, 0) == head + spec_encode_elements(elems, 0),
                buf@ + spec_encode_elements(elems, i as int) == head + spec_encode_elements(elems, 0),
            decreases self.elements@.len() - i,
        {
            let element = &self.elements[i];
            proof {
                assert(decreases_to!(*self => self.elements));
            }
            let mut bytes: Vec<u8> = Vec::new();
            encode_packet_into(element, &mut bytes);
            proof {
                assert(bytes@ =~= spec_encode_packet(elems[i as int]));
            }
            push_be32(buf, bytes.len() as u32);
            push_slice(buf, bytes.as_slice());
            proof {
                assert(spec_encode_elements(elems, i as int) =~= be32(bytes@.len() as u32) + bytes@
                    + spec_encode_elements(elems, i + 1));
            }
            i += 1;
        }
        proof {
            assert(spec_encode_elements(elems, i as int) =~= Seq::<u8>::empty());
            assert(final(buf)@ =~= old(buf)@ + spec_encode_packet(v));
        }
    }
}

/// The abstract values of a list of packets.
pub open spec fn packets_view(ps: Seq<OscPacket>) -> Seq<OscPacketSpec> {
    Seq::new(ps.len(), |i: int| packet_view(ps[i]))
}

/// What parsing `d` as a bundle element at nesting `depth` gives: a
/// bundle when it starts with `#`, else a message; `None` when it fails.
pub open spec fn spec_parse_packet_at(d: Seq<u8>, depth: int) -> Option<OscPacketSpec>
    decreases 32 - depth, 2int, 0int,
{
    if depth < 0 || depth > 32 {
        None
    } else if d.len() > 0 && d[0] == 0x23 {
        spec_parse_bundle_at(d, depth)
    } else {
        match spec_parse_osc(d) {
            None => None,
            Some(m) => Some(
                OscPacketSpec::Message(OscMessageSpec { address: m.address, arguments: m.arguments }),
            ),
        }
    }
}

/// What parsing `d` as a bundle at nesting `depth` gives: the `#bundle`
/// marker, the time tag (1 meaning immediate), then size-prefixed
/// elements up to the end; `None` when it fails or nests 32 deep.
pub open spec fn spec_parse_bundle_at(d: Seq<u8>, depth: int) -> Option<OscPacketSpec>
    decreases 32 - depth, 1int, 0int,
{
    if depth < 0 || depth >= 32 {
        None
    } else {
        match spec_read_cstr(d, 0) {
            None => None,
            Some((marker, off)) => if marker != bundle_marker() || off + 8 > d.len() {
                None
            } else {
                let tt = be_u64_at(d, off);
                let ts = if tt != 1 {
                    Some(tt)
                } else {
                    None
                };
                match spec_parse_elements(d, off + 8, depth, Seq::empty()) {
                    None => None,
                    Some(elems) => Some(OscPacketSpec::Bundle(ts, elems)),
                }
            },
        }
    }
}

/// Parses the size-prefixed elements of a bundle from `off` to the end,
/// after the elements `acc` already parsed.
pub open spec fn spec_parse_elements(d: Seq<u8>, off: int, depth: int, acc: Seq<OscPacketSpec>) -> Option<
    Seq<OscPacketSpec>,
>
    decreases 32 - depth, 0int, d.len() - off,
{
    if depth < 0 || depth >= 32 || off < 0 {
        None
    } else if off >= d.len() {
        Some(acc)
    } else if off + 4 > d.len() {
        None
    } else {
        let start = off + 4;
        let end = start + be_u32_at(d, off);
        if end > d.len() {
            None
        } else {
            match spec_parse_packet_at(d.subrange(start, end), depth + 1) {
                None => None,
                Some(p) => spec_parse_elements(d, end, depth, acc.push(p)),
            }
        }
    }
}

/// Whether parsing `d` as a bundle element at nesting `depth` first fails
/// on a message whose address is not a valid OSC address.
pub open spec fn spec_packet_bad_address_at(d: Seq<u8>, depth: int) -> bool
    decreases 32 - depth, 2int, 0int,
{
    if depth < 0 || depth > 32 {
        false
    } else if d.len() > 0 && d[0] == 0x23 {
        spec_bundle_bad_address_at(d, depth)
    } else {
        spec_bad_address(d)
    }
}

/// Whether parsing `d` as a bundle at nesting `depth` first fails on a
/// message whose address is not a valid OSC address.
pub open spec fn spec_bundle_bad_address_at(d: Seq<u8>, depth: int) -> bool
    decreases 32 - depth, 1int, 0int,
{
    if depth < 0 || depth >= 32 {
        false
    } else {
        match spec_read_cstr(d, 0) {
            None => false,
            Some((marker, off)) => if marker != bundle_marker() || off + 8 > d.len() {
                false
            } else {
                spec_elements_bad_address(d, off + 8, depth)
            },
        }
    }
}

/// Whether parsing the elements of a bundle from `off` first fails on a
/// message whose address is not a valid OSC address.
pub open spec fn spec_elements_bad_address(d: Seq<u8>, off: int, depth: int) -> bool
    decreases 32 - depth, 0int, d.len() - off,
{
    if depth < 0 || depth >= 32 || off < 0 || off >= d.len() || off + 4 > d.len() {
        false
    } else {
        let start = off + 4;
        let end = start + be_u32_at(d, off);
        if end > d.len() {
            false
        } else {
            let element = d.subrange(start, end);
            match spec_parse_packet_at(element, depth + 1) {
                None => spec_packet_bad_address_at(element, depth + 1),
                Some(_) => spec_elements_bad_address(d, end, depth),
            }
        }
    }
}

fn parse_bundle_at(data: &[u8], depth: u8) -> (r: Result<OscBundle, ControlError>)
    requires
        depth <= 32,
    ensures
        spec_parse_bundle_at(data@, depth as int) is None <==> r is Err,
        r matches Ok(b) ==> spec_parse_bundle_at(data@, depth as int) == Some(bundle_view(b)),
        r matches Err(e) ==> (if spec_bundle_bad_address_at(data@, depth as int) {
            e is InvalidAddress
        } else {
            e is InvalidData
        }),
    decreases 32 - depth, 1int,
{
    if depth >= MAX_BUNDLE_DEPTH {
        return Err(invalid_data("bundle nesting too deep"));
    }
    let (marker, offset) = match crate::types::read_null_terminated(data, 0) {
        Ok(x) => x,
        Err(e) => {
            return Err(e);
        },
    };
    let expected: [u8; 7] = [0x23, 0x62, 0x75, 0x6E, 0x64, 0x6C, 0x65];
    proof {
        assert(expected@ =~= bundle_marker());
        crate::types::lemma_find_nul(data@, 0);
    }
    if marker.len() != 7 || !crate::wire::bytes_match_at(marker, 0, &expected) {
        proof {
            if marker@ == bundle_marker() {
                assert(marker@.subrange(0, 7) =~= marker@);
            }
        }
        return Err(invalid_data("bundle must begin with '#bundle'"));
    }
    proof {
        assert(marker@.subrange(0, 7) =~= marker@);
    }
    let timetag = match crate::types::read_u64(data, offset) {
        Ok(t) => t,
        Err(e) => {
            return Err(e);
        },
    };
    let timestamp = if timetag != 1 {
        Some(timetag)
    } else {
        None
    };
    let mut off: usize = offset + 8;
    let mut elements: Vec<OscPacket> = Vec::new();
    proof {
        assert(packets_view(elements@) =~= Seq::<OscPacketSpec>::empty());
    }
    while off < data.len()
        invariant
            depth < 32,
            off <= data@.len() || off == offset + 8,
            offset + 8 <= data@.len(),
            spec_parse_bundle_at(data@, depth as int) == (match spec_parse_elements(
                data@,
                offset + 8,
                depth as int,
                Seq::empty(),
            ) {
                None => None,
                Some(e) => Some(OscPacketSpec::Bundle(timestamp, e)),
            }),
            spec_parse_elements(data@, offset + 8, depth as int, Seq::empty()) == spec_parse_elements(
                data@,
                off as int,
                depth as int,
                packets_view(elements@),
            ),
            spec_bundle_bad_address_at(data@, depth as int) == spec_elements_bad_address(
                data@,
                off as int,
                depth as int,
            ),
        decreases data@.len() - off,
    {
        let size = match crate::types::read_u32(data, off) {
            Ok(v) => v as usize,
            Err(e) => {
                return Err(e);
            },
        };
        let start = off + 4;
        if size > data.len() - start {
            return Err(invalid_data("bundle element overruns packet"));
        }
        let end = start + size;
        let element = vstd::slice::slice_subrange(data, start, end);
        let p = match parse_packet_at(element, depth + 1) {
            Ok(p) => p,
            Err(e) => {
                return Err(e);
            },
        };
        let ghost prev = elements@;
        elements.push(p);
        proof {
            assert(packets_view(elements@) =~= packets_view(prev).push(packet_view(p)));
        }
        off = end;
    }
    let b = OscBundle { timestamp, elements };
    proof {
        assert(packets_view(b.elements@) =~= match bundle_view(b) {
            OscPacketSpec::Bundle(_, e) => e,
            _ => Seq::empty(),
        });
    }
    Ok(b)
}

fn parse_packet_at(data: &[u8], depth: u8) -> (r: Result<OscPacket, ControlError>)
    requires
        depth <= 32,
    ensures
        spec_parse_packet_at(data@, depth as int) is None <==> r is Err,
        r matches Ok(p) ==> spec_parse_packet_at(data@, depth as int) == Some(packet_view(p)),
        r matches Err(e) ==> (if spec_packet_bad_address_at(data@, depth as int) {
            e is InvalidAddress
        } else {
            e is InvalidData
        }),
    decreases 32 - depth, 2int,
{
    if data.len() > 0 && data[0] == 0x23 {
        match parse_bundle_at(data, depth) {
            Ok(b) => Ok(OscPacket::Bundle(b)),
            Err(e) => Err(e),
        }
    } else {
        match parse_osc_message(data) {
            Ok(m) => Ok(OscPacket::Message(m.to_owned())),
            Err(e) => Err(e),
        }
    }
}

/// Parses a bundle from raw bytes.
pub fn parse_bundle(data: &[u8]) -> (r: Result<OscBundle, ControlError>)
    requires
    ensures
        spec_parse_bundle_at(data@, 0) is None <==> r is Err,
        r matches Ok(b) ==> spec_parse_bundle_at(data@, 0) == Some(bundle_view(b)),
        r matches Err(e) ==> (if spec_bundle_bad_address_at(data@, 0) {
            e is InvalidAddress
        } else {
            e is InvalidData
        }),
{
    parse_bundle_at(data, 0)
}

/// Parses a bundle element (message or nested bundle).
pub fn parse_packet(data: &[u8]) -> (r: Result<OscPacket, ControlError>)
    requires
    ensures
        spec_parse_packet_at(data@, 0) is None <==> r is Err,
        r matches Ok(p) ==> spec_parse_packet_at(data@, 0) == Some(packet_view(p)),
        r matches Err(e) ==> (if spec_packet_bad_address_at(data@, 0) {
            e is InvalidAddress
        } else {
            e is InvalidData
        }),
{
    parse_packet_at(data, 0)
}

impl OscBundle {
    /// Decodes a bundle from bytes.
    pub fn decode(data: &[u8]) -> (r: Result<OscBundle, ControlError>)
        requires
        ensures
            spec_parse_bundle_at(data@, 0) is None <==> r is Err,
            r matches Ok(b) ==> spec_parse_bundle_at(data@, 0) == Some(bundle_view(b)),
            r matches Err(e) ==> (if spec_bundle_bad_address_at(data@, 0) {
                e is InvalidAddress
            } else {
                e is InvalidData
            }),
    {
        parse_bundle(data)
    }
}

/// The messages of a packet in order, bundles expanded depth-first.
pub open spec fn spec_messages(p: OscPacketSpec) -> Seq<OscMessageSpec>
    decreases p, 0int,
{
    match p {
        OscPacketSpec::Message(m) => seq![m],
        OscPacketSpec::Bundle(_, elems) => spec_messages_of(elems, 0),
    }
}

/// The messages of `elems[i..]` in order.
pub open spec fn spec_messages_of(elems: Seq<OscPacketSpec>, i: int) -> Seq<OscMessageSpec>
    decreases elems, elems.len() - i,
{
    if i < 0 || i >= elems.len() {
        Seq::empty()
    } else {
        spec_messages(elems[i]) + spec_messages_of(elems, i + 1)
    }
}

/// The abstract values of messages.
pub open spec fn messages_view(ms: Seq<OscMessage>) -> Seq<OscMessageSpec> {
    ms.map_values(|m: OscMessage| m@)
}

/// Appends copies of the packet's messages, bundles expanded in order.
pub fn collect_messages(packet: &OscPacket, out: &mut Vec<OscMessage>)
    ensures
        messages_view(final(out)@) == messages_view(old(out)@) + spec_messages(packet_view(*packet)),
    decreases *packet,
{
    match packet {
        OscPacket::Message(m) => {
            let ghost before = out@;
            out.push(m.duplicate());
            proof {
                assert(messages_view(out@) =~= messages_view(before) + spec_messages(packet_view(*packet)));
            }
        },
        OscPacket::Bundle(b) => {
            let ghost v = packet_view(*packet);
            let ghost elems = match v {
                OscPacketSpec::Bundle(_, e) => e,
                _ => Seq::empty(),
            };
            let ghost start = messages_view(out@);
            let mut i: usize = 0;
            while i < b.elements.len()
                invariant
                    i <= b.elements@.len(),
                    v == packet_view(*packet),
                    *packet == OscPacket::Bundle(*b),
                    elems.len() == b.elements@.len(),
                    forall|j: int| 0 <= j < elems.len() ==> #[trigger] elems[j] == packet_view(b.elements@[j]),
                    messages_view(out@) + spec_messages_of(elems, i as int) == start + spec_messages_of(elems, 0),
                decreases b.elements@.len() - i,
            {
                proof {
                    assert(decreases_to!(*packet => b.elements));
                }
                let ghost before = messages_view(out@);
                collect_messages(&b.elements[i], out);
                proof {
                    assert(spec_messages_of(elems, i as int) == spec_messages(elems[i as int]) + spec_messages_of(
                        elems,
                        i + 1,
                    ));
                    assert(messages_view(out@) + spec_messages_of(elems, i + 1) =~= before + spec_messages_of(
                        elems,
                        i as int,
                    ));
                }
                i += 1;
            }
            proof {
                assert(spec_messages_of(elems, i as int) =~= Seq::<OscMessageSpec>::empty());
                assert(messages_view(out@) =~= start + spec_messages(v));
            }
        },
    }
}

/// Parses a datagram (message or bundle) and returns its messages in
/// order, bundles expanded.
pub fn parse_messages(data: &[u8]) -> (r: Result<Vec<OscMessage>, ControlError>)
    requires
    ensures
        spec_parse_packet_at(data@, 0) is None <==> r is Err,
        r matches Ok(ms) ==> (spec_parse_packet_at(data@, 0) matches Some(p) && messages_view(ms@)
            == spec_messages(p)),
        r matches Err(e) ==> (if spec_packet_bad_address_at(data@, 0) {
            e is InvalidAddress
        } else {
            e is InvalidData
        }),
{
    match parse_packet(data) {
        Err(e) => Err(e),
        Ok(p) => {
            let mut out: Vec<OscMessage> = Vec::new();
            collect_messages(&p, &mut out);
            proof {
                assert(messages_view(out@) =~= spec_messages(packet_view(p)));
            }
            Ok(out)
        },
    }
}

} // verus!
