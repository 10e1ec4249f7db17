//! MIDI-CI (Capability Inquiry): discovery and capability negotiation
//! message layer (per MIDI-CI 1.2 / M2-115).
//!
//! MIDI-CI travels in Universal System Exclusive messages:
//! `F0 7E <device> 0D <sub_id2> <version> [payload] F7` where sub-ID 1
//! `0x0D` selects MIDI-CI.
use vstd::prelude::*;

use crate::error::{invalid_data, ControlError};
use crate::midi1::{Midi1Message, Midi1Spec};
use crate::midi1::all_7bit;
use crate::sysex::{
    is_bare_sysex, lemma_low7, lemma_mask7_id, lemma_universal_view, mask7, parse_sysex, spec_parse_sysex,
    spec_universal_bytes, sysex_universal, UNIVERSAL_NON_REALTIME,
};

verus! {

/// Universal System Exclusive sub-ID 1 for MIDI-CI.
pub const MIDI_CI_SUB_ID1: u8 = 0x0D;

/// MIDI-CI message type (sub-ID 2): Discovery.
pub const DISCOVERY: u8 = 0x70;
/// MIDI-CI message type: Discovery Reply.
pub const DISCOVERY_REPLY: u8 = 0x71;
/// MIDI-CI message type: Invalid MIDI-CI Message / NAK.
pub const INVALID_MESSAGE_NAK: u8 = 0x7E;
/// MIDI-CI message type: Acknowledgement / End of Data Set.
pub const ACK: u8 = 0x7F;
/// MIDI-CI message type: Endpoint Inquiry.
pub const ENDPOINT_INQUIRY: u8 = 0x60;
/// MIDI-CI message type: Endpoint Info Notification.
pub const ENDPOINT_INFO: u8 = 0x61;

/// The protocol version implemented here: MIDI-CI 1.2.
pub const CI_VERSION: u8 = 0x01;

/// A parsed MIDI-CI message.
#[derive(Debug, Clone, PartialEq, Eq)]
pub enum CiMessage {
    /// Discovery (0x70): asks peers to identify themselves.
    Discovery { device_id: u8, version: u8, source_muid: u32, profiles: Vec<u8>, protocol_type: u8, extensions: u8 },
    /// Discovery Reply (0x71).
    DiscoveryReply {
        device_id: u8,
        version: u8,
        source_muid: u32,
        destination_muid: u32,
        profiles: Vec<u8>,
        protocol_type: u8,
        extensions: u8,
    },
    /// Endpoint Inquiry (0x60).
    EndpointInquiry { device_id: u8, version: u8, source_muid: u32, filter_bitmap: u8 },
    /// Endpoint Info Notification (0x61).
    EndpointInfo {
        device_id: u8,
        version: u8,
        source_muid: u32,
        protocol_major: u8,
        protocol_minor: u8,
        function_blocks: u8,
        midi2_protocol: bool,
    },
    /// NAK (0x7E): the request is not understood or declined.
    Nak { device_id: u8, version: u8, source_muid: u32, destination_muid: u32 },
    /// ACK (0x7F).
    Ack { device_id: u8, version: u8, source_muid: u32, destination_muid: u32 },
}

/// The abstract value of a [`CiMessage`].
pub enum CiSpec {
    Discovery { device_id: u8, version: u8, source_muid: u32, profiles: Seq<u8>, protocol_type: u8, extensions: u8 },
    DiscoveryReply {
        device_id: u8,
        version: u8,
        source_muid: u32,
        destination_muid: u32,
        profiles: Seq<u8>,
        protocol_type: u8,
        extensions: u8,
    },
    EndpointInquiry { device_id: u8, version: u8, source_muid: u32, filter_bitmap: u8 },
    EndpointInfo {
        device_id: u8,
        version: u8,
        source_muid: u32,
        protocol_major: u8,
        protocol_minor: u8,
        function_blocks: u8,
        midi2_protocol: bool,
    },
    Nak { device_id: u8, version: u8, source_muid: u32, destination_muid: u32 },
    Ack { device_id: u8, version: u8, source_muid: u32, destination_muid: u32 },
}

impl View for CiMessage {
    type V = CiSpec;

    open spec fn view(&self) -> CiSpec {
        match *self {
            CiMessage::Discovery { device_id, version, source_muid, profiles, protocol_type, extensions } =>
                CiSpec::Discovery { device_id, version, source_muid, profiles: profiles@, protocol_type, extensions },
            CiMessage::DiscoveryReply { device_id, version, source_muid, destination_muid, profiles, protocol_type, extensions } =>
                CiSpec::DiscoveryReply { device_id, version, source_muid, destination_muid, profiles: profiles@, protocol_type, extensions },
            CiMessage::EndpointInquiry { device_id, version, source_muid, filter_bitmap } =>
                CiSpec::EndpointInquiry { device_id, version, source_muid, filter_bitmap },
            CiMessage::EndpointInfo { device_id, version, source_muid, protocol_major, protocol_minor, function_blocks, midi2_protocol } =>
                CiSpec::EndpointInfo { device_id, version, source_muid, protocol_major, protocol_minor, function_blocks, midi2_protocol },
            CiMessage::Nak { device_id, version, source_muid, destination_muid } =>
                CiSpec::Nak { device_id, version, source_muid, destination_muid },
            CiMessage::Ack { device_id, version, source_muid, destination_muid } =>
                CiSpec::Ack { device_id, version, source_muid, destination_muid },
        }
    }
}

/// The four 7-bit bytes of a 28-bit MUID, least significant first.
pub open spec fn spec_muid_bytes(muid: u32) -> Seq<u8> {
    let m = muid & 0x0FFF_FFFF;
    seq![(m & 0x7F) as u8, ((m >> 7u32) & 0x7F) as u8, ((m >> 14u32) & 0x7F) as u8, ((m >> 21u32) & 0x7F) as u8]
}

/// The MUID four bytes encode, least significant group first.
pub open spec fn spec_muid_value(b: Seq<u8>) -> u32 {
    (b[0] as u32) | ((b[1] as u32) << 7u32) | ((b[2] as u32) << 14u32) | ((b[3] as u32) << 21u32)
}

/// The message body (after the sub-ID 2) of a MIDI-CI message.
pub open spec fn spec_ci_body(m: CiSpec) -> Seq<u8> {
    match m {
        CiSpec::Discovery { version, source_muid, profiles, protocol_type, extensions, .. } =>
            seq![version & 0x7F] + spec_muid_bytes(source_muid) + crate::sysex::mask7(profiles)
                + seq![protocol_type & 0x7F, extensions & 0x7F],
        CiSpec::DiscoveryReply { version, source_muid, destination_muid, profiles, protocol_type, extensions, .. } =>
            seq![version & 0x7F] + spec_muid_bytes(source_muid) + spec_muid_bytes(destination_muid)
                + crate::sysex::mask7(profiles) + seq![protocol_type & 0x7F, extensions & 0x7F],
        CiSpec::EndpointInquiry { version, source_muid, filter_bitmap, .. } =>
            seq![version & 0x7F] + spec_muid_bytes(source_muid) + seq![filter_bitmap & 0x7F],
        CiSpec::EndpointInfo { version, source_muid, protocol_major, protocol_minor, function_blocks, midi2_protocol, .. } => {
            let fb: u8 = if function_blocks < 0x7F { function_blocks } else { 0x7F };
            seq![version & 0x7F] + spec_muid_bytes(source_muid) + seq![
                protocol_major & 0x7F,
                protocol_minor & 0x7F,
                if midi2_protocol { (fb & 0x3F) | 0x40 } else { fb & 0x7F },
            ]
        },
        CiSpec::Nak { version, source_muid, destination_muid, .. } =>
            seq![version & 0x7F] + spec_muid_bytes(source_muid) + spec_muid_bytes(destination_muid),
        CiSpec::Ack { version, source_muid, destination_muid, .. } =>
            seq![version & 0x7F] + spec_muid_bytes(source_muid) + spec_muid_bytes(destination_muid),
    }
}

/// The sub-ID 2 of a MIDI-CI message.
pub open spec fn spec_ci_sub_id2(m: CiSpec) -> u8 {
    match m {
        CiSpec::Discovery { .. } => DISCOVERY,
        CiSpec::DiscoveryReply { .. } => DISCOVERY_REPLY,
        CiSpec::EndpointInquiry { .. } => ENDPOINT_INQUIRY,
        CiSpec::EndpointInfo { .. } => ENDPOINT_INFO,
        CiSpec::Nak { .. } => INVALID_MESSAGE_NAK,
        CiSpec::Ack { .. } => ACK,
    }
}

/// The target device ID of a MIDI-CI message.
pub open spec fn spec_ci_device(m: CiSpec) -> u8 {
    match m {
        CiSpec::Discovery { device_id, .. } => device_id,
        CiSpec::DiscoveryReply { device_id, .. } => device_id,
        CiSpec::EndpointInquiry { device_id, .. } => device_id,
        CiSpec::EndpointInfo { device_id, .. } => device_id,
        CiSpec::Nak { device_id, .. } => device_id,
        CiSpec::Ack { device_id, .. } => device_id,
    }
}

/// The SysEx bytes of a MIDI-CI message.
pub open spec fn spec_ci_bytes(m: CiSpec) -> Seq<u8> {
    spec_universal_bytes(UNIVERSAL_NON_REALTIME, spec_ci_device(m), MIDI_CI_SUB_ID1, spec_ci_sub_id2(m), spec_ci_body(m))
}

/// Appends the four 7-bit bytes of a 28-bit MUID, least significant first.
pub(crate) fn push_muid(buf: &mut Vec<u8>, muid: u32)
    ensures
        final(buf)@ == old(buf)@ + spec_muid_bytes(muid),
{
    let m = muid & 0x0FFF_FFFF;
    buf.push((m & 0x7F) as u8);
    buf.push(((m >> 7u32) & 0x7F) as u8);
    buf.push(((m >> 14u32) & 0x7F) as u8);
    buf.push(((m >> 21u32) & 0x7F) as u8);
    proof {
        assert(final(buf)@ =~= old(buf)@ + spec_muid_bytes(muid));
    }
}

/// Appends the low seven bits of every byte of `bytes`.
fn push_masked(buf: &mut Vec<u8>, bytes: &[u8])
    ensures
        final(buf)@ == old(buf)@ + crate::sysex::mask7(bytes@),
{
    let ghost start = buf@;
    let mut i: usize = 0;
    while i < bytes.len()
        invariant
            i <= bytes@.len(),
            buf@ == start + crate::sysex::mask7(bytes@.take(i as int)),
        decreases bytes@.len() - i,
    {
        buf.push(bytes[i] & 0x7F);
        i += 1;
        proof {
            assert(buf@ =~= start + crate::sysex::mask7(bytes@.take(i as int)));
        }
    }
    proof {
        assert(bytes@.take(bytes@.len() as int) =~= bytes@);
    }
}

/// What a cursor holds after reading a MUID: the MUID and the rest, or 0
/// and nothing when fewer than four bytes remain.
pub open spec fn spec_take_muid(c: Seq<u8>) -> (u32, Seq<u8>) {
    if c.len() < 4 {
        (0u32, Seq::<u8>::empty())
    } else {
        (spec_muid_value(c), c.skip(4))
    }
}

/// A byte of a cursor, or 0 past its end.
pub open spec fn byte_or_zero(c: Seq<u8>, i: int) -> u8 {
    if 0 <= i < c.len() {
        c[i]
    } else {
        0u8
    }
}

/// The protocol type read from what follows the MUIDs of a discovery
/// message: the next-to-last byte (the only byte when there is one).
pub open spec fn spec_protocol_of(c: Seq<u8>) -> u8 {
    if c.len() >= 2 {
        c[c.len() - 2]
    } else {
        byte_or_zero(c, c.len() - 1)
    }
}

/// The extensions bitmap read from what follows the MUIDs of a discovery
/// message: the last byte, when there are at least two.
pub open spec fn spec_extensions_of(c: Seq<u8>) -> u8 {
    if c.len() >= 2 {
        c[c.len() - 1]
    } else {
        0u8
    }
}

/// The profile bytes read from what follows the MUIDs of a discovery
/// message: all but the last two bytes.
pub open spec fn spec_profiles_of(c: Seq<u8>) -> Seq<u8> {
    if c.len() < 2 {
        Seq::<u8>::empty()
    } else {
        c.take(c.len() - 2)
    }
}

/// The MIDI-CI message a SysEx holds; `Err(true)` when it is not a MIDI-CI
/// message or its body is empty, `Err(false)` for an unsupported sub-ID 2.
pub open spec fn spec_ci_parse(m: Midi1Spec) -> Result<CiSpec, bool> {
    match spec_parse_sysex(m) {
        None => Err(true),
        Some(view) => if view.manufacturer != UNIVERSAL_NON_REALTIME || view.sub_id1 != Some(MIDI_CI_SUB_ID1) {
            Err(true)
        } else if view.payload.len() == 0 {
            Err(true)
        } else {
            let device_id = match view.device_id { Some(d) => d, None => 0x7Fu8 };
            let sub_id2 = match view.sub_id2 { Some(s) => s, None => 0u8 };
            let version = view.payload[0] & 0x7F;
            let c0 = view.payload.skip(1);
            let (source_muid, c1) = spec_take_muid(c0);
            let (destination_muid, c2) = spec_take_muid(c1);
            if sub_id2 == DISCOVERY {
                Ok(CiSpec::Discovery {
                    device_id, version, source_muid,
                    profiles: spec_profiles_of(c1),
                    protocol_type: spec_protocol_of(c1),
                    extensions: spec_extensions_of(c1),
                })
            } else if sub_id2 == DISCOVERY_REPLY {
                Ok(CiSpec::DiscoveryReply {
                    device_id, version, source_muid, destination_muid,
                    profiles: spec_profiles_of(c2),
                    protocol_type: spec_protocol_of(c2),
                    extensions: spec_extensions_of(c2),
                })
            } else if sub_id2 == ENDPOINT_INQUIRY {
                Ok(CiSpec::EndpointInquiry { device_id, version, source_muid, filter_bitmap: byte_or_zero(c1, 0) })
            } else if sub_id2 == ENDPOINT_INFO {
                let fb = byte_or_zero(c1, 2);
                Ok(CiSpec::EndpointInfo {
                    device_id, version, source_muid,
                    protocol_major: byte_or_zero(c1, 0),
                    protocol_minor: byte_or_zero(c1, 1),
                    function_blocks: fb & 0x3F,
                    midi2_protocol: fb & 0x40 != 0,
                })
            } else if sub_id2 == INVALID_MESSAGE_NAK {
                Ok(CiSpec::Nak { device_id, version, source_muid, destination_muid })
            } else if sub_id2 == ACK {
                Ok(CiSpec::Ack { device_id, version, source_muid, destination_muid })
            } else {
                Err(false)
            }
        },
    }
}

/// Reads a MUID from the front of `c`.
pub(crate) fn take_muid(c: &[u8]) -> (r: (u32, &[u8]))
    ensures
        r.0 == spec_take_muid(c@).0,
        r.1@ == spec_take_muid(c@).1,
{
    if c.len() < 4 {
        let empty: &[u8] = &[];
        proof {
            assert(empty@ =~= Seq::<u8>::empty());
        }
        return (0u32, empty);
    }
    let muid = (c[0] as u32) | ((c[1] as u32) << 7u32) | ((c[2] as u32) << 14u32) | ((c[3] as u32) << 21u32);
    let rest = vstd::slice::slice_subrange(c, 4, c.len());
    proof {
        assert(rest@ =~= c@.skip(4));
    }
    (muid, rest)
}

fn byte_at_or_zero(c: &[u8], i: usize) -> (b: u8)
    ensures
        b == byte_or_zero(c@, i as int),
{
    if i < c.len() {
        c[i]
    } else {
        0u8
    }
}

fn profiles_of(c: &[u8]) -> (p: Vec<u8>)
    ensures
        p@ == spec_profiles_of(c@),
{
    let mut p: Vec<u8> = Vec::new();
    if c.len() < 2 {
        return p;
    }
    let n = c.len() - 2;
    let mut i: usize = 0;
    while i < n
        invariant
            n == c@.len() - 2,
            i <= n,
            p@ == c@.take(i as int),
        decreases n - i,
    {
        p.push(c[i]);
        i += 1;
        proof {
            assert(p@ =~= c@.take(i as int));
        }
    }
    p
}

fn protocol_of(c: &[u8]) -> (b: u8)
    ensures
        b == spec_protocol_of(c@),
{
    if c.len() >= 2 {
        c[c.len() - 2]
    } else if c.len() == 1 {
        c[0]
    } else {
        0u8
    }
}

fn extensions_of(c: &[u8]) -> (b: u8)
    ensures
        b == spec_extensions_of(c@),
{
    if c.len() >= 2 {
        c[c.len() - 1]
    } else {
        0u8
    }
}

impl CiMessage {
    /// Encodes to a MIDI 1.0 SysEx message.
    pub fn to_midi1(&self) -> (r: Result<Midi1Message, ControlError>)
        ensures
            r matches Ok(m) && m@ == Midi1Spec::SystemExclusive(spec_ci_bytes(self@)),
    {
        let mut body: Vec<u8> = Vec::new();
        let device_id: u8;
        match self {
            CiMessage::Discovery { device_id: dev, version, source_muid, profiles, protocol_type, extensions } => {
                device_id = *dev;
                body.push(*version & 0x7F);
                push_muid(&mut body, *source_muid);
                push_masked(&mut body, profiles.as_slice());
                body.push(*protocol_type & 0x7F);
                body.push(*extensions & 0x7F);
            },
            CiMessage::DiscoveryReply { device_id: dev, version, source_muid, destination_muid, profiles, protocol_type, extensions } => {
                device_id = *dev;
                body.push(*version & 0x7F);
                push_muid(&mut body, *source_muid);
                push_muid(&mut body, *destination_muid);
                push_masked(&mut body, profiles.as_slice());
                body.push(*protocol_type & 0x7F);
                body.push(*extensions & 0x7F);
            },
            CiMessage::Nak { device_id: dev, version, source_muid, destination_muid } => {
                device_id = *dev;
                body.push(*version & 0x7F);
                push_muid(&mut body, *source_muid);
                push_muid(&mut body, *destination_muid);
            },
            CiMessage::Ack { device_id: dev, version, source_muid, destination_muid } => {
                device_id = *dev;
                body.push(*version & 0x7F);
                push_muid(&mut body, *source_muid);
                push_muid(&mut body, *destination_muid);
            },
            CiMessage::EndpointInquiry { device_id: dev, version, source_muid, filter_bitmap } => {
                device_id = *dev;
                body.push(*version & 0x7F);
                push_muid(&mut body, *source_muid);
                body.push(*filter_bitmap & 0x7F);
            },
            CiMessage::EndpointInfo { device_id: dev, version, source_muid, protocol_major, protocol_minor, function_blocks, midi2_protocol } => {
                device_id = *dev;
                body.push(*version & 0x7F);
                push_muid(&mut body, *source_muid);
                body.push(*protocol_major & 0x7F);
                body.push(*protocol_minor & 0x7F);
                let fb: u8 = if *function_blocks < 0x7F { *function_blocks } else { 0x7F };
                body.push(if *midi2_protocol { (fb & 0x3F) | 0x40 } else { fb & 0x7F });
            },
        }
        proof {
            assert(body@ =~= spec_ci_body(self@));
        }
        let sub_id2: u8 = match self {
            CiMessage::Discovery { .. } => DISCOVERY,
            CiMessage::DiscoveryReply { .. } => DISCOVERY_REPLY,
            CiMessage::EndpointInquiry { .. } => ENDPOINT_INQUIRY,
            CiMessage::EndpointInfo { .. } => ENDPOINT_INFO,
            CiMessage::Nak { .. } => INVALID_MESSAGE_NAK,
            CiMessage::Ack { .. } => ACK,
        };
        Ok(sysex_universal(UNIVERSAL_NON_REALTIME, device_id, MIDI_CI_SUB_ID1, sub_id2, body.as_slice()))
    }

    /// Parses a MIDI-CI message from a MIDI 1.0 SysEx. Messages that are
    /// not MIDI-CI (or have an empty body) fail with `InvalidData`;
    /// MIDI-CI messages of another type fail with `Unsupported`.
    pub fn from_midi1(message: &Midi1Message) -> (r: Result<CiMessage, ControlError>)
        requires
            !is_bare_sysex(message@),
        ensures
            r is Ok <==> spec_ci_parse(message@) is Ok,
            r matches Ok(c) ==> Ok::<CiSpec, bool>(c@) == spec_ci_parse(message@),
            r matches Err(e) ==> (spec_ci_parse(message@) == Err::<CiSpec, bool>(true) ==> e is InvalidData)
                && (spec_ci_parse(message@) == Err::<CiSpec, bool>(false) ==> e is Unsupported),
    {
        let view = parse_sysex(message)?;
        if view.manufacturer != UNIVERSAL_NON_REALTIME || view.sub_id1 != Some(MIDI_CI_SUB_ID1) {
            return Err(invalid_data("not a MIDI-CI message"));
        }
        let device_id = match view.device_id {
            Some(d) => d,
            None => 0x7F,
        };
        let sub_id2 = match view.sub_id2 {
            Some(s) => s,
            None => 0,
        };
        let payload = view.payload;
        if payload.len() == 0 {
            return Err(invalid_data("MIDI-CI body too short"));
        }
        let version = payload[0] & 0x7F;
        let c0 = vstd::slice::slice_subrange(payload, 1, payload.len());
        proof {
            assert(c0@ =~= payload@.skip(1));
        }
        let (source_muid, c1) = take_muid(c0);
        let (destination_muid, c2) = take_muid(c1);
        if sub_id2 == DISCOVERY {
            Ok(CiMessage::Discovery {
                device_id,
                version,
                source_muid,
                profiles: profiles_of(c1),
                protocol_type: protocol_of(c1),
                extensions: extensions_of(c1),
            })
        } else if sub_id2 == DISCOVERY_REPLY {
            Ok(CiMessage::DiscoveryReply {
                device_id,
                version,
                source_muid,
                destination_muid,
                profiles: profiles_of(c2),
                protocol_type: protocol_of(c2),
                extensions: extensions_of(c2),
            })
        } else if sub_id2 == ENDPOINT_INQUIRY {
            Ok(CiMessage::EndpointInquiry { device_id, version, source_muid, filter_bitmap: byte_at_or_zero(c1, 0) })
        } else if sub_id2 == ENDPOINT_INFO {
            let fb = byte_at_or_zero(c1, 2);
            Ok(CiMessage::EndpointInfo {
                device_id,
                version,
                source_muid,
                protocol_major: byte_at_or_zero(c1, 0),
                protocol_minor: byte_at_or_zero(c1, 1),
                function_blocks: fb & 0x3F,
                midi2_protocol: fb & 0x40 != 0,
            })
        } else if sub_id2 == INVALID_MESSAGE_NAK {
            Ok(CiMessage::Nak { device_id, version, source_muid, destination_muid })
        } else if sub_id2 == ACK {
            Ok(CiMessage::Ack { device_id, version, source_muid, destination_muid })
        } else {
            Err(ControlError::Unsupported("MIDI-CI sub-id2 not implemented".to_string()))
        }
    }
}

/// A helper state machine that runs the discovery handshake: send
/// Discovery, collect peers from Discovery Replies, then interrogate
/// peers with Endpoint Inquiries.
#[derive(Debug)]
pub struct CiDiscoverySession {
    /// Peers that answered our discovery, with their reported MUIDs.
    pub peers: Vec<u32>,
    /// Our own MUID (assigned once per session).
    pub local_muid: u32,
}

impl Default for CiDiscoverySession {
    fn default() -> (s: CiDiscoverySession)
        ensures
            s.peers@ == Seq::<u32>::empty(),
            s.local_muid == 0,
    {
        CiDiscoverySession { peers: Vec::new(), local_muid: 0 }
    }
}

/// Whether `v` holds `x`.
fn contains_u32(v: &Vec<u32>, x: u32) -> (b: bool)
    ensures
        b == v@.contains(x),
{
    let mut i: usize = 0;
    while i < v.len()
        invariant
            i <= v@.len(),
            forall|k: int| 0 <= k < i ==> v@[k] != x,
        decreases v@.len() - i,
    {
        if v[i] == x {
            proof {
                assert(v@[i as int] == x);
            }
            return true;
        }
        i += 1;
    }
    false
}

/// The Discovery message a session with MUID `muid` broadcasts.
pub open spec fn spec_discovery_request(muid: u32) -> CiSpec {
    CiSpec::Discovery {
        device_id: 0x7F,
        version: CI_VERSION,
        source_muid: muid,
        profiles: Seq::<u8>::empty(),
        protocol_type: 0x00,
        extensions: 0x7F,
    }
}

impl CiDiscoverySession {
    /// Starts a session with a locally-chosen MUID (kept to 28 bits).
    pub fn new(local_muid: u32) -> (s: CiDiscoverySession)
        ensures
            s.local_muid == local_muid & 0x0FFF_FFFF,
            s.peers@ == Seq::<u32>::empty(),
    {
        CiDiscoverySession { local_muid: local_muid & 0x0FFF_FFFF, peers: Vec::new() }
    }

    /// The Discovery message to broadcast (device 0x7F = all), preferring
    /// the MIDI 2.0 protocol.
    pub fn discovery_request(&self) -> (r: Result<Midi1Message, ControlError>)
        ensures
            r matches Ok(m) && m@ == Midi1Spec::SystemExclusive(spec_ci_bytes(spec_discovery_request(self.local_muid))),
    {
        let message = CiMessage::Discovery {
            device_id: 0x7F,
            version: CI_VERSION,
            source_muid: self.local_muid,
            profiles: Vec::new(),
            protocol_type: 0x00,
            extensions: 0x7F,
        };
        proof {
            assert(message@ == spec_discovery_request(self.local_muid));
        }
        message.to_midi1()
    }

    /// Feeds an inbound message; returns `true` when it was a Discovery
    /// Reply from a peer not seen before, which is then recorded.
    pub fn observe(&mut self, message: &Midi1Message) -> (r: Result<bool, ControlError>)
        requires
            !is_bare_sysex(message@),
        ensures
            final(self).local_muid == old(self).local_muid,
            ({
                let new_peer = match spec_ci_parse(message@) {
                    Ok(CiSpec::DiscoveryReply { source_muid, .. }) => if old(self).peers@.contains(source_muid) {
                        None
                    } else {
                        Some(source_muid)
                    },
                    _ => None,
                };
                &&& r == Ok::<bool, ControlError>(new_peer is Some)
                &&& match new_peer {
                    Some(p) => final(self).peers@ == old(self).peers@.push(p),
                    None => final(self).peers@ == old(self).peers@,
                }
            }),
    {
        match CiMessage::from_midi1(message) {
            Ok(CiMessage::DiscoveryReply { source_muid, .. }) => {
                if contains_u32(&self.peers, source_muid) {
                    Ok(false)
                } else {
                    self.peers.push(source_muid);
                    Ok(true)
                }
            },
            _ => Ok(false),
        }
    }

    /// Builds an Endpoint Inquiry aimed at a specific peer: the broadcast
    /// inquiry with its device-id byte replaced by the peer MUID's low
    /// seven bits.
    pub fn endpoint_inquiry(&self, peer_muid: u32) -> (r: Result<Midi1Message, ControlError>)
        ensures
            r matches Ok(m) && m@ == Midi1Spec::SystemExclusive(
                spec_ci_bytes(CiSpec::EndpointInquiry {
                    device_id: 0x7F,
                    version: CI_VERSION,
                    source_muid: self.local_muid,
                    filter_bitmap: 0x7F,
                }).update(2, (peer_muid as u8) & 0x7F),
            ),
    {
        let message = CiMessage::EndpointInquiry {
            device_id: 0x7F,
            version: CI_VERSION,
            source_muid: self.local_muid,
            filter_bitmap: 0x7F,
        };
        let encoded = message.to_midi1()?;
        match encoded {
            Midi1Message::SystemExclusive(mut bytes) => {
                bytes.set(2, (peer_muid as u8) & 0x7F);
                Ok(Midi1Message::SystemExclusive(bytes))
            },
            other => Ok(other),
        }
    }
}

/// A MUID of 28 bits survives its four 7-bit bytes.
pub proof fn lemma_muid_roundtrip(m: u32, rest: Seq<u8>)
    requires
        m < 0x1000_0000,
    ensures
        all_7bit(spec_muid_bytes(m), 0, 4),
        spec_take_muid(spec_muid_bytes(m) + rest) == (m, rest),
{
    let b = spec_muid_bytes(m);
    assert((((m & 0x0FFF_FFFF) & 0x7F) as u8) < 0x80 && ((((m & 0x0FFF_FFFF) >> 7u32) & 0x7F) as u8) < 0x80
        && ((((m & 0x0FFF_FFFF) >> 14u32) & 0x7F) as u8) < 0x80 && ((((m & 0x0FFF_FFFF) >> 21u32) & 0x7F) as u8) < 0x80)
        by (bit_vector);
    assert((((m & 0x0FFF_FFFF) & 0x7F) as u8 as u32) | (((((m & 0x0FFF_FFFF) >> 7u32) & 0x7F) as u8 as u32) << 7u32)
        | (((((m & 0x0FFF_FFFF) >> 14u32) & 0x7F) as u8 as u32) << 14u32)
        | (((((m & 0x0FFF_FFFF) >> 21u32) & 0x7F) as u8 as u32) << 21u32) == m) by (bit_vector)
        requires
            m < 0x1000_0000,
    ;
    let c = b + rest;
    assert(c[0] == b[0] && c[1] == b[1] && c[2] == b[2] && c[3] == b[3]);
    assert(c.skip(4) =~= rest);
}

/// The fields of a MIDI-CI message that survive encoding and parsing: a
/// 7-bit device ID, version and body bytes, 28-bit MUIDs, fewer than 64
/// function blocks.
pub open spec fn ci_fields_in_range(m: CiSpec) -> bool {
    match m {
        CiSpec::Discovery { device_id, version, source_muid, profiles, protocol_type, extensions } =>
            device_id < 0x80 && version < 0x80 && source_muid < 0x1000_0000 && all_7bit(profiles, 0, profiles.len() as int)
                && protocol_type < 0x80 && extensions < 0x80,
        CiSpec::DiscoveryReply { device_id, version, source_muid, destination_muid, profiles, protocol_type, extensions } =>
            device_id < 0x80 && version < 0x80 && source_muid < 0x1000_0000 && destination_muid < 0x1000_0000
                && all_7bit(profiles, 0, profiles.len() as int) && protocol_type < 0x80 && extensions < 0x80,
        CiSpec::EndpointInquiry { device_id, version, source_muid, filter_bitmap } =>
            device_id < 0x80 && version < 0x80 && source_muid < 0x1000_0000 && filter_bitmap < 0x80,
        CiSpec::EndpointInfo { device_id, version, source_muid, protocol_major, protocol_minor, function_blocks, .. } =>
            device_id < 0x80 && version < 0x80 && source_muid < 0x1000_0000 && protocol_major < 0x80
                && protocol_minor < 0x80 && function_blocks < 0x40,
        CiSpec::Nak { device_id, version, source_muid, destination_muid } =>
            device_id < 0x80 && version < 0x80 && source_muid < 0x1000_0000 && destination_muid < 0x1000_0000,
        CiSpec::Ack { device_id, version, source_muid, destination_muid } =>
            device_id < 0x80 && version < 0x80 && source_muid < 0x1000_0000 && destination_muid < 0x1000_0000,
    }
}

/// What `to_midi1` encodes, `from_midi1` parses back to the same message,
/// for every message whose fields are in range.
#[verifier::rlimit(40)]
#[verifier::spinoff_prover]
pub proof fn lemma_ci_roundtrip(m: CiSpec)
    requires
        ci_fields_in_range(m),
    ensures
        !is_bare_sysex(Midi1Spec::SystemExclusive(spec_ci_bytes(m))),
        spec_ci_parse(Midi1Spec::SystemExclusive(spec_ci_bytes(m))) == Ok::<CiSpec, bool>(m),
{
    let body = spec_ci_body(m);
    lemma_universal_view(UNIVERSAL_NON_REALTIME, spec_ci_device(m), MIDI_CI_SUB_ID1, spec_ci_sub_id2(m), body);
    lemma_low7(MIDI_CI_SUB_ID1);
    lemma_low7(spec_ci_sub_id2(m));
    lemma_low7(spec_ci_device(m));
    match m {
        CiSpec::Discovery { device_id, version, source_muid, profiles, protocol_type, extensions } => {
            lemma_low7(version);
            lemma_low7(protocol_type);
            lemma_low7(extensions);
            lemma_mask7_id(profiles);
            let tail = profiles + seq![protocol_type, extensions];
            lemma_muid_roundtrip(source_muid, tail);
            assert(body =~= seq![version] + (spec_muid_bytes(source_muid) + tail));
            assert(all_7bit(body, 0, body.len() as int));
            lemma_mask7_id(body);
            assert(body.skip(1) =~= spec_muid_bytes(source_muid) + tail);
            assert(tail.take(tail.len() - 2) =~= profiles);
        },
        CiSpec::DiscoveryReply { device_id, version, source_muid, destination_muid, profiles, protocol_type, extensions } => {
            lemma_low7(version);
            lemma_low7(protocol_type);
            lemma_low7(extensions);
            lemma_mask7_id(profiles);
            let tail = profiles + seq![protocol_type, extensions];
            lemma_muid_roundtrip(destination_muid, tail);
            lemma_muid_roundtrip(source_muid, spec_muid_bytes(destination_muid) + tail);
            assert(body =~= seq![version] + (spec_muid_bytes(source_muid) + (spec_muid_bytes(destination_muid) + tail)));
            assert(all_7bit(body, 0, body.len() as int));
            lemma_mask7_id(body);
            assert(body.skip(1) =~= spec_muid_bytes(source_muid) + (spec_muid_bytes(destination_muid) + tail));
            assert(tail.take(tail.len() - 2) =~= profiles);
        },
        CiSpec::EndpointInquiry { device_id, version, source_muid, filter_bitmap } => {
            lemma_low7(version);
            lemma_low7(filter_bitmap);
            let tail = seq![filter_bitmap];
            lemma_muid_roundtrip(source_muid, tail);
            assert(body =~= seq![version] + (spec_muid_bytes(source_muid) + tail));
            assert(all_7bit(body, 0, body.len() as int));
            lemma_mask7_id(body);
            assert(body.skip(1) =~= spec_muid_bytes(source_muid) + tail);
        },
        CiSpec::EndpointInfo { device_id, version, source_muid, protocol_major, protocol_minor, function_blocks, midi2_protocol } => {
            lemma_low7(version);
            lemma_low7(protocol_major);
            lemma_low7(protocol_minor);
            let fb = function_blocks;
            assert(fb < 0x40 ==> ((fb & 0x3F) | 0x40) & 0x3F == fb && ((fb & 0x3F) | 0x40) & 0x40 != 0
                && ((fb & 0x3F) | 0x40) < 0x80 && (fb & 0x7F) & 0x3F == fb && (fb & 0x7F) & 0x40 == 0
                && fb & 0x7F < 0x80) by (bit_vector);
            let fbyte: u8 = if midi2_protocol { (fb & 0x3F) | 0x40 } else { fb & 0x7F };
            let tail = seq![protocol_major, protocol_minor, fbyte];
            lemma_muid_roundtrip(source_muid, tail);
            assert(body =~= seq![version] + (spec_muid_bytes(source_muid) + tail));
            assert(all_7bit(body, 0, body.len() as int));
            lemma_mask7_id(body);
            assert(body.skip(1) =~= spec_muid_bytes(source_muid) + tail);
        },
        CiSpec::Nak { device_id, version, source_muid, destination_muid } => {
            lemma_low7(version);
            let tail = Seq::<u8>::empty();
            lemma_muid_roundtrip(destination_muid, tail);
            lemma_muid_roundtrip(source_muid, spec_muid_bytes(destination_muid) + tail);
            assert(body =~= seq![version] + (spec_muid_bytes(source_muid) + (spec_muid_bytes(destination_muid) + tail)));
            assert(all_7bit(body, 0, body.len() as int));
            lemma_mask7_id(body);
            assert(body.skip(1) =~= spec_muid_bytes(source_muid) + (spec_muid_bytes(destination_muid) + tail));
        },
        CiSpec::Ack { device_id, version, source_muid, destination_muid } => {
            lemma_low7(version);
            let tail = Seq::<u8>::empty();
            lemma_muid_roundtrip(destination_muid, tail);
            lemma_muid_roundtrip(source_muid, spec_muid_bytes(destination_muid) + tail);
            assert(body =~= seq![version] + (spec_muid_bytes(source_muid) + (spec_muid_bytes(destination_muid) + tail)));
            assert(all_7bit(body, 0, body.len() as int));
            lemma_mask7_id(body);
            assert(body.skip(1) =~= spec_muid_bytes(source_muid) + (spec_muid_bytes(destination_muid) + tail));
        },
    }
}

} // verus!
