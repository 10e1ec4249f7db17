//! sACN / ANSI E1.31 protocol (UDP port 5568): streaming DMX512 over ACN.
use vstd::prelude::*;
use vstd::string::StringSliceAdditionalSpecFns;

use crate::dmx::{spec_set_channels, DmxUniverse};
use crate::error::{invalid_data, ControlError};
use crate::text::{from_utf8_lossy, lemma_trim_nul, lossy_text, trim_nul, trim_trailing_nul};
use crate::wire::{
    be16, be32, bytes_match_at, fixed_width, push_be16, push_be32, push_fixed_bytes, push_slice,
    repeat_byte, slice_to_vec,
};

verus! {

/// The default sACN UDP port.
pub const SACN_PORT: u16 = 5568;

/// Root layer vector for E1.31 data packets.
pub const VECTOR_ROOT_E131_DATA: u32 = 0x0000_0004;

/// Framing layer vector for data packets.
pub const VECTOR_E131_DATA_PACKET: u32 = 0x0000_0002;

/// DMP vector for set-property packets.
pub const VECTOR_DMP_SET_PROPERTY: u8 = 0x02;

/// Default sACN priority (0-200; 100 per the E1.31 recommendation).
pub const DEFAULT_PRIORITY: u8 = 100;

/// The 12-byte ACN packet identifier "ASC-E1.17\0\0\0".
pub open spec fn acn_identifier() -> Seq<u8> {
    seq![
        0x41u8, 0x53u8, 0x43u8, 0x2Du8, 0x45u8, 0x31u8, 0x2Eu8, 0x31u8, 0x37u8, 0x00u8, 0x00u8,
        0x00u8,
    ]
}

/// The ACN packet identifier, as bytes.
pub fn acn_identifier_bytes() -> (id: [u8; 12])
    ensures
        id@ == acn_identifier(),
{
    let id: [u8; 12] = [0x41, 0x53, 0x43, 0x2D, 0x45, 0x31, 0x2E, 0x31, 0x37, 0x00, 0x00, 0x00];
    proof {
        assert(id@ =~= acn_identifier());
    }
    id
}

/// A PDU's flags-and-length field: the flags in the top 4 bits, then the
/// low 12 bits of the length.
pub open spec fn spec_flglen(flags: u8, length: u16) -> Seq<u8> {
    seq![((flags << 4u8) | ((length >> 8u16) & 0x0F) as u8) as u8, (length & 0xFF) as u8]
}

fn flglen(flags: u8, length: u16) -> (r: [u8; 2])
    ensures
        r@ == spec_flglen(flags, length),
{
    let r: [u8; 2] = [(flags << 4u8) | ((length >> 8u16) & 0x0F) as u8, (length & 0xFF) as u8];
    proof {
        assert(r@ =~= spec_flglen(flags, length));
    }
    r
}

/// A 16-byte Component Identifier (CID) for sACN sources.
#[derive(Debug, Clone, Copy, PartialEq, Eq, Hash)]
pub struct Cid(pub [u8; 16]);

/// Byte `i` of the CID derived from `seed`: the seed repeated, each byte
/// XORed with the low 8 bits of `i * 0x2B`; all zero for an empty seed.
pub open spec fn cid_byte(seed: Seq<u8>, i: int) -> u8 {
    if seed.len() == 0 {
        0
    } else {
        seed[i % seed.len() as int] ^ (((i * 0x2B) as u32 & 0xFF) as u8)
    }
}

impl Cid {
    /// A deterministic CID derived from an arbitrary byte string (test and
    /// quick-start helper; real deployments should use a UUID).
    pub fn from_bytes(seed: &[u8]) -> (c: Cid)
        ensures
            forall|i: int| 0 <= i < 16 ==> #[trigger] c.0@[i] == cid_byte(seed@, i),
    {
        let mut cid = [0u8; 16];
        if seed.len() > 0 {
            let mut i: usize = 0;
            while i < 16
                invariant
                    i <= 16,
                    seed@.len() > 0,
                    cid@.len() == 16,
                    forall|j: int| 0 <= j < i ==> #[trigger] cid@[j] == cid_byte(seed@, j),
                decreases 16 - i,
            {
                let k: u32 = (i as u32) * 0x2B;
                cid[i] = seed[i % seed.len()] ^ ((k & 0xFF) as u8);
                i += 1;
            }
        }
        Cid(cid)
    }
}

/// The bytes of an E1.31 data packet.
pub open spec fn spec_data_packet(
    cid: Seq<u8>,
    name: Seq<u8>,
    universe: u16,
    priority: u8,
    sequence: u8,
    slots: Seq<u8>,
) -> Seq<u8> {
    be16(0x0010) + be16(0) + acn_identifier() + spec_flglen(0x7, 638) + be32(VECTOR_ROOT_E131_DATA)
        + cid + spec_flglen(0x7, 622) + be32(VECTOR_E131_DATA_PACKET) + fixed_width(name, 64) + seq![
        priority,
        0x00u8,
        0x00u8,
        sequence,
        0x00u8,
    ] + be16(universe) + spec_flglen(0x7, 523) + seq![
        VECTOR_DMP_SET_PROPERTY,
        0xA1u8,
        0x00u8,
        0x00u8,
        0x00u8,
        0x01u8,
    ] + be16(513) + seq![0x00u8] + slots
}

/// Builds an E1.31 data packet for one universe (start code 0x00).
pub fn build_data_packet(
    cid: &Cid,
    source_name: &str,
    universe: u16,
    priority: u8,
    sequence: u8,
    slots: &[u8; 512],
) -> (p: Vec<u8>)
    ensures
        p@ == spec_data_packet(cid.0@, source_name.spec_bytes(), universe, priority, sequence, slots@),
{
    let mut p: Vec<u8> = Vec::new();
    // Root layer.
    push_be16(&mut p, 0x0010);  // preamble size
    push_be16(&mut p, 0x0000);  // post-amble
    let id = acn_identifier_bytes();
    push_slice(&mut p, &id);
    push_slice(&mut p, &flglen(0x7, 638));
    push_be32(&mut p, VECTOR_ROOT_E131_DATA);
    push_slice(&mut p, &cid.0);
    // Framing layer.
    push_slice(&mut p, &flglen(0x7, 622));
    push_be32(&mut p, VECTOR_E131_DATA_PACKET);
    push_fixed_bytes(&mut p, source_name.as_bytes(), 64);
    p.push(priority);
    p.push(0x00);  // sync address
    p.push(0x00);
    p.push(sequence);
    p.push(0x00);  // options
    push_be16(&mut p, universe);
    // DMP layer.
    push_slice(&mut p, &flglen(0x7, 523));
    p.push(VECTOR_DMP_SET_PROPERTY);
    p.push(0xA1);  // address & data type
    p.push(0x00);  // first property address
    p.push(0x00);
    p.push(0x00);  // address increment
    p.push(0x01);
    push_be16(&mut p, 513);  // start code + 512 slots
    p.push(0x00);  // DMX512-A start code
    push_slice(&mut p, slots);
    proof {
        assert(p@ =~= spec_data_packet(
            cid.0@,
            source_name.spec_bytes(),
            universe,
            priority,
            sequence,
            slots@,
        ));
    }
    p
}

/// A parsed E1.31 data packet.
#[derive(Debug, Clone, PartialEq, Eq)]
pub struct SacnDataPacket {
    /// Source name from the framing layer.
    pub source_name: String,
    /// Source priority (0-200).
    pub priority: u8,
    /// Per-universe sequence number.
    pub sequence: u8,
    /// The DMX universe number.
    pub universe: u16,
    /// Slot data (after the start code).
    pub slots: Vec<u8>,
}

/// The abstract value of a [`SacnDataPacket`].
pub struct SacnDataPacketSpec {
    pub source_name: Seq<char>,
    pub priority: u8,
    pub sequence: u8,
    pub universe: u16,
    pub slots: Seq<u8>,
}

impl View for SacnDataPacket {
    type V = SacnDataPacketSpec;

    open spec fn view(&self) -> SacnDataPacketSpec {
        SacnDataPacketSpec {
            source_name: self.source_name@,
            priority: self.priority,
            sequence: self.sequence,
            universe: self.universe,
            slots: self.slots@,
        }
    }
}

/// The big-endian 32-bit number at `d[at..at + 4]`.
pub open spec fn be32_at(d: Seq<u8>, at: int) -> int {
    d[at] * 0x1000000 + d[at + 1] * 0x10000 + d[at + 2] * 0x100 + d[at + 3]
}

/// What a datagram parses to: `None` when rejected as invalid data,
/// `Some(None)` for a packet that is not E1.31 data.
pub open spec fn spec_parse_sacn(d: Seq<u8>) -> Option<Option<SacnDataPacketSpec>> {
    if d.len() < 38 || d.subrange(4, 16) != acn_identifier() {
        None
    } else if be32_at(d, 18) != VECTOR_ROOT_E131_DATA {
        Some(None)
    } else if d.len() < 126 {
        None
    } else if be32_at(d, 40) != VECTOR_E131_DATA_PACKET {
        Some(None)
    } else {
        let count = d[123] * 256 + d[124];
        let end = if 125 + count < d.len() {
            125 + count
        } else {
            d.len() as int
        };
        if end < 126 {
            None
        } else {
            Some(
                Some(
                    SacnDataPacketSpec {
                        source_name: trim_nul(lossy_text(d.subrange(44, 108))),
                        priority: d[108],
                        sequence: d[111],
                        universe: (d[113] * 256 + d[114]) as u16,
                        slots: d.subrange(126, end),
                    },
                ),
            )
        }
    }
}

fn be32_from(data: &[u8], at: usize) -> (v: u32)
    requires
        at + 4 <= data@.len(),
    ensures
        v == be32_at(data@, at as int),
{
    (data[at] as u32) * 0x1000000 + (data[at + 1] as u32) * 0x10000 + (data[at + 2] as u32) * 0x100
        + data[at + 3] as u32
}

/// Parses an E1.31 data packet; non-data packets return `Ok(None)`.
pub fn parse_packet(data: &[u8]) -> (r: Result<Option<SacnDataPacket>, ControlError>)
    ensures
        spec_parse_sacn(data@) is None <==> r is Err,
        r matches Err(e) ==> e is InvalidData,
        r matches Ok(None) ==> spec_parse_sacn(data@) == Some(None::<SacnDataPacketSpec>),
        r matches Ok(Some(p)) ==> spec_parse_sacn(data@) == Some(Some(p@)),
{
    if data.len() < 38 {
        return Err(invalid_data("not an sACN packet (missing ACN identifier)"));
    }
    let id = acn_identifier_bytes();
    if !bytes_match_at(data, 4, &id) {
        return Err(invalid_data("not an sACN packet (missing ACN identifier)"));
    }
    let root_vector = be32_from(data, 18);
    if root_vector != VECTOR_ROOT_E131_DATA {
        return Ok(None);  // discovery/_sync packets are ignored
    }
    if data.len() < 126 {
        return Err(invalid_data("sACN packet truncated"));
    }
    let framing_vector = be32_from(data, 40);
    if framing_vector != VECTOR_E131_DATA_PACKET {
        return Ok(None);
    }
    let name_field = slice_to_vec(data, 44, 108);
    let decoded = from_utf8_lossy(name_field.as_slice());
    let source_name = trim_trailing_nul(decoded.as_str());
    // Framing layer: priority at 108, sync 109..111, sequence 111, options
    // 112, universe 113..115. DMP layer: flglen 115..117, vector 117, type
    // 118, first 119..121, increment 121..123, count 123..125, start code
    // 125, slots from 126.
    let priority = data[108];
    let sequence = data[111];
    let universe: u16 = (data[113] as u16) * 256 + data[114] as u16;
    let count: usize = (data[123] as usize) * 256 + data[124] as usize;
    let end: usize = if count < data.len() - 125 {
        125 + count
    } else {
        data.len()
    };
    if end < 126 {
        return Err(invalid_data("sACN slot data missing"));
    }
    let slots = slice_to_vec(data, 126, end);
    let p = SacnDataPacket { source_name, priority, sequence, universe, slots };
    Ok(Some(p))
}

/// What receiving one datagram leads to: the universe an E1.31 data packet
/// carries (its slots from channel 0, the rest black), or `None` for a
/// packet to skip. Invalid data is an error.
pub fn receive_datagram(data: &[u8]) -> (r: Result<Option<DmxUniverse>, ControlError>)
    ensures
        spec_parse_sacn(data@) is None <==> r is Err,
        r matches Err(e) ==> e is InvalidData,
        spec_parse_sacn(data@) == Some(None::<SacnDataPacketSpec>) ==> r == Ok::<
            Option<DmxUniverse>,
            ControlError,
        >(None),
        spec_parse_sacn(data@) matches Some(Some(p)) ==> (r matches Ok(Some(u)) && u.universe
            == p.universe && u.channels@ == spec_set_channels(repeat_byte(0, 512), 0, p.slots)),
{
    match parse_packet(data) {
        Err(e) => Err(e),
        Ok(None) => Ok(None),
        Ok(Some(packet)) => {
            let mut u = DmxUniverse::new(packet.universe);
            proof {
                assert(u.channels@ =~= repeat_byte(0, 512));
            }
            u.set_channels(0, packet.slots.as_slice());
            Ok(Some(u))
        },
    }
}

/// A data packet that is built parses back to its priority, sequence,
/// universe and 512 slots; its source name comes back as the decoding of
/// the 64-byte name field, without trailing NULs.
pub proof fn lemma_data_packet_roundtrip(
    cid: Seq<u8>,
    name: Seq<u8>,
    universe: u16,
    priority: u8,
    sequence: u8,
    slots: Seq<u8>,
)
    requires
        cid.len() == 16,
        slots.len() == 512,
    ensures
        spec_parse_sacn(spec_data_packet(cid, name, universe, priority, sequence, slots)) == Some(
            Some(
                SacnDataPacketSpec {
                    source_name: trim_nul(lossy_text(fixed_width(name, 64))),
                    priority,
                    sequence,
                    universe,
                    slots,
                },
            ),
        ),
{
    let p = spec_data_packet(cid, name, universe, priority, sequence, slots);
    assert(fixed_width(name, 64).len() == 64);
    assert(p.len() == 638);
    assert(p.subrange(4, 16) =~= acn_identifier());
    assert(p.subrange(44, 108) =~= fixed_width(name, 64));
    assert(p.subrange(126, 638) =~= slots);
    assert(p[113] == (universe / 256) as u8 && p[114] == (universe % 256) as u8);
    assert(p[123] == 2 && p[124] == 1);
}

/// A source name of at most 64 ASCII characters, none of them NUL, comes
/// back from the 64-byte name field as itself.
pub proof fn lemma_source_name_roundtrip(name: Seq<char>)
    requires
        vstd::utf8::is_ascii_chars(name),
        forall|i: int| 0 <= i < name.len() ==> #[trigger] name[i] != '\0',
        name.len() <= 64,
    ensures
        trim_nul(lossy_text(fixed_width(vstd::utf8::encode_utf8(name), 64))) == name,
{
    let padded = name + Seq::new((64 - name.len()) as nat, |i: int| '\0');
    assert(vstd::utf8::is_ascii_chars(padded));
    vstd::utf8::is_ascii_chars_encode_utf8(name);
    vstd::utf8::is_ascii_chars_encode_utf8(padded);
    let b = vstd::utf8::encode_utf8(name);
    assert forall|i: int| 0 <= i < 64 implies fixed_width(b, 64)[i] == vstd::utf8::encode_utf8(padded)[i] by {
        if i < name.len() {
            assert(padded[i] == name[i]);
        } else {
            assert(padded[i] == '\0');
        }
    }
    assert(fixed_width(b, 64) =~= vstd::utf8::encode_utf8(padded));
    vstd::utf8::encode_utf8_valid_utf8(padded);
    vstd::utf8::encode_utf8_decode_utf8(padded);
    lemma_trim_nul(padded, name.len() as int);
    assert(padded.take(name.len() as int) =~= name);
}

} // verus!
