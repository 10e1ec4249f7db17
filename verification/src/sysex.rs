//! System Exclusive helpers: universal message builders, header parsing
//! and chunking.
use vstd::prelude::*;

use crate::error::{invalid_data, ControlError};
use crate::midi1::{all_7bit, Midi1Message, Midi1Spec};

verus! {

/// Universal System Exclusive sub-ID 1: Sample Dump.
pub const SAMPLE_DUMP: u8 = 0x01;
/// Universal System Exclusive sub-ID 1: Sample Dump Request.
pub const SAMPLE_DUMP_REQUEST: u8 = 0x02;
/// Universal System Exclusive sub-ID 1: MIDI Time Code.
pub const MIDI_TIME_CODE: u8 = 0x04;
/// Universal System Exclusive sub-ID 1: Show Control (MSC).
pub const SHOW_CONTROL: u8 = 0x02;
/// Universal System Exclusive sub-ID 1: Notation Information.
pub const NOTATION_INFORMATION: u8 = 0x03;
/// Universal System Exclusive sub-ID 1: Device Control.
pub const DEVICE_CONTROL: u8 = 0x04;
/// Universal System Exclusive sub-ID 1: Real-Time MTC Cueing.
pub const REALTIME_MTC_CUEING: u8 = 0x05;
/// Universal System Exclusive sub-ID 1: MIDI Machine Control.
pub const MMC_COMMAND: u8 = 0x06;
/// Universal System Exclusive sub-ID 1: MIDI Machine Control reply.
pub const MMC_RESPONSE: u8 = 0x07;
/// Universal System Exclusive sub-ID 1: MIDI Tuning Standard.
pub const MIDI_TUNING_STANDARD: u8 = 0x08;
/// Universal System Exclusive sub-ID 1: Controller Destination Setting.
pub const CONTROLLER_DESTINATION: u8 = 0x09;
/// Universal System Exclusive sub-ID 1: Key-Based Instrument Control.
pub const KEY_BASED_INSTRUMENT_CONTROL: u8 = 0x0A;
/// Universal System Exclusive sub-ID 1: Scale/Octave Tuning.
pub const SCALE_OCTAVE_TUNING: u8 = 0x0B;

/// Manufacturer ID for Universal Non-Real-Time messages.
pub const UNIVERSAL_NON_REALTIME: u8 = 0x7E;
/// Manufacturer ID for Universal Real-Time messages.
pub const UNIVERSAL_REALTIME: u8 = 0x7F;
/// Non-commercial (educational) manufacturer ID.
pub const NON_COMMERCIAL: u8 = 0x7D;

/// The low seven bits of every byte of `s`.
pub open spec fn mask7(s: Seq<u8>) -> Seq<u8> {
    Seq::new(s.len(), |i: int| s[i] & 0x7F)
}

/// The bytes of a Universal System Exclusive message:
/// `F0 <manufacturer> <device> <sub-id1> <sub-id2> <payload> F7`, every
/// byte after the manufacturer masked to seven bits.
pub open spec fn spec_universal_bytes(manufacturer: u8, device_id: u8, sub_id1: u8, sub_id2: u8, payload: Seq<u8>) -> Seq<u8> {
    seq![0xF0u8, manufacturer, device_id & 0x7F, sub_id1 & 0x7F, sub_id2 & 0x7F] + mask7(payload) + seq![0xF7u8]
}

/// Builds a Universal System Exclusive message.
pub fn sysex_universal(manufacturer: u8, device_id: u8, sub_id1: u8, sub_id2: u8, payload: &[u8]) -> (m: Midi1Message)
    ensures
        m@ == Midi1Spec::SystemExclusive(spec_universal_bytes(manufacturer, device_id, sub_id1, sub_id2, payload@)),
{
    let mut bytes: Vec<u8> = Vec::new();
    bytes.push(0xF0);
    bytes.push(manufacturer);
    bytes.push(device_id & 0x7F);
    bytes.push(sub_id1 & 0x7F);
    bytes.push(sub_id2 & 0x7F);
    let ghost head = bytes@;
    let mut i: usize = 0;
    while i < payload.len()
        invariant
            i <= payload@.len(),
            bytes@ == head + mask7(payload@.take(i as int)),
        decreases payload@.len() - i,
    {
        bytes.push(payload[i] & 0x7F);
        i += 1;
        proof {
            assert(bytes@ =~= head + mask7(payload@.take(i as int)));
        }
    }
    bytes.push(0xF7);
    proof {
        assert(payload@.take(payload@.len() as int) =~= payload@);
        assert(bytes@ =~= spec_universal_bytes(manufacturer, device_id, sub_id1, sub_id2, payload@));
    }
    Midi1Message::SystemExclusive(bytes)
}

/// General MIDI System On (turn on GM mode).
pub fn gm_system_on(device_id: u8) -> (m: Midi1Message)
    ensures
        m@ == Midi1Spec::SystemExclusive(spec_universal_bytes(UNIVERSAL_NON_REALTIME, device_id, 0x09, 0x01, Seq::empty())),
{
    sysex_universal(UNIVERSAL_NON_REALTIME, device_id, 0x09, 0x01, &[])
}

/// General MIDI System Off.
pub fn gm_system_off(device_id: u8) -> (m: Midi1Message)
    ensures
        m@ == Midi1Spec::SystemExclusive(spec_universal_bytes(UNIVERSAL_NON_REALTIME, device_id, 0x09, 0x02, Seq::empty())),
{
    sysex_universal(UNIVERSAL_NON_REALTIME, device_id, 0x09, 0x02, &[])
}

/// MIDI Identity Request (asks the device for its Identity Reply).
pub fn identity_request(device_id: u8) -> (m: Midi1Message)
    ensures
        m@ == Midi1Spec::SystemExclusive(spec_universal_bytes(UNIVERSAL_NON_REALTIME, device_id, 0x06, 0x01, Seq::empty())),
{
    sysex_universal(UNIVERSAL_NON_REALTIME, device_id, 0x06, 0x01, &[])
}

/// Parsed view of a System Exclusive message.
#[derive(Debug, Clone, PartialEq, Eq)]
pub struct SysExView<'a> {
    /// Manufacturer ID (first byte after `F0`).
    pub manufacturer: u8,
    /// For universal messages: device ID.
    pub device_id: Option<u8>,
    /// For universal messages: sub-ID 1.
    pub sub_id1: Option<u8>,
    /// For universal messages: sub-ID 2.
    pub sub_id2: Option<u8>,
    /// Remaining payload bytes.
    pub payload: &'a [u8],
    /// Whether this is a universal message (0x7E / 0x7F manufacturer).
    pub universal: bool,
}

/// The abstract value of a [`SysExView`].
pub struct SysExViewSpec {
    pub manufacturer: u8,
    pub device_id: Option<u8>,
    pub sub_id1: Option<u8>,
    pub sub_id2: Option<u8>,
    pub payload: Seq<u8>,
    pub universal: bool,
}

impl<'a> View for SysExView<'a> {
    type V = SysExViewSpec;

    open spec fn view(&self) -> SysExViewSpec {
        SysExViewSpec {
            manufacturer: self.manufacturer,
            device_id: self.device_id,
            sub_id1: self.sub_id1,
            sub_id2: self.sub_id2,
            payload: self.payload@,
            universal: self.universal,
        }
    }
}

/// The bare `F0 F7` message, whose header is shorter than a manufacturer
/// byte and which [`parse_sysex`] is not given.
pub open spec fn is_bare_sysex(m: Midi1Spec) -> bool {
    m matches Midi1Spec::SystemExclusive(b) && b.len() == 2 && b[0] == 0xF0 && b[1] == 0xF7
}

/// The header fields and payload of a System Exclusive message, if it is
/// one framed by `F0 .. F7`.
pub open spec fn spec_parse_sysex(m: Midi1Spec) -> Option<SysExViewSpec> {
    match m {
        Midi1Spec::SystemExclusive(b) => if b.len() < 2 || b[0] != 0xF0 || b[b.len() - 1] != 0xF7 {
            None
        } else {
            let manufacturer = b[1];
            let universal = manufacturer == UNIVERSAL_NON_REALTIME || manufacturer == UNIVERSAL_REALTIME;
            let body = b.subrange(2, b.len() - 1);
            if universal && body.len() >= 3 {
                Some(SysExViewSpec {
                    manufacturer,
                    device_id: Some(body[0]),
                    sub_id1: Some(body[1]),
                    sub_id2: Some(body[2]),
                    payload: body.skip(3),
                    universal,
                })
            } else {
                Some(SysExViewSpec {
                    manufacturer,
                    device_id: None,
                    sub_id1: None,
                    sub_id2: None,
                    payload: body,
                    universal,
                })
            }
        },
        _ => None,
    }
}

/// Splits a `SystemExclusive` message into its header fields and payload.
pub fn parse_sysex(message: &Midi1Message) -> (r: Result<SysExView<'_>, ControlError>)
    requires
        !is_bare_sysex(message@),
    ensures
        r is Ok <==> spec_parse_sysex(message@) is Some,
        r matches Ok(v) ==> Some(v@) == spec_parse_sysex(message@),
        r matches Err(e) ==> e is InvalidData,
{
    let bytes = match message {
        Midi1Message::SystemExclusive(bytes) => bytes,
        _ => {
            return Err(invalid_data("not a SysEx message"));
        },
    };
    if bytes.len() < 2 || bytes[0] != 0xF0 || bytes[bytes.len() - 1] != 0xF7 {
        return Err(invalid_data("SysEx must start with F0 and end with F7"));
    }
    let manufacturer = bytes[1];
    let universal = manufacturer == UNIVERSAL_NON_REALTIME || manufacturer == UNIVERSAL_REALTIME;
    let body = vstd::slice::slice_subrange(bytes.as_slice(), 2, bytes.len() - 1);
    if universal && body.len() >= 3 {
        let payload = vstd::slice::slice_subrange(body, 3, body.len());
        proof {
            assert(payload@ =~= body@.skip(3));
        }
        Ok(SysExView {
            manufacturer,
            device_id: Some(body[0]),
            sub_id1: Some(body[1]),
            sub_id2: Some(body[2]),
            payload,
            universal,
        })
    } else {
        Ok(SysExView {
            manufacturer,
            device_id: None,
            sub_id1: None,
            sub_id2: None,
            payload: body,
            universal,
        })
    }
}

/// The messages `chunk_sysex` splits `data` into: consecutive chunks of
/// `size` bytes (the last possibly shorter), each framed by `F0 .. F7`.
pub open spec fn spec_chunk_sysex(data: Seq<u8>, size: nat) -> Seq<Seq<u8>> {
    Seq::new(
        ((data.len() + size - 1) / (size as int)) as nat,
        |j: int| {
            let end = if (j + 1) * size <= data.len() {
                (j + 1) * size
            } else {
                data.len() as int
            };
            seq![0xF0u8] + data.subrange(j * size, end) + seq![0xF7u8]
        },
    )
}

/// Splits `data` into consecutive chunks of `chunk_size` bytes (at least
/// one byte each), each wrapped as a complete `F0 .. F7` message.
pub fn chunk_sysex(data: &[u8], chunk_size: usize) -> (out: Vec<Midi1Message>)
    ensures
        ({
            let size: nat = if chunk_size == 0 { 1 } else { chunk_size as nat };
            &&& out@.len() == spec_chunk_sysex(data@, size).len()
            &&& forall|j: int| 0 <= j < out@.len() ==> (#[trigger] out@[j])@ == Midi1Spec::SystemExclusive(spec_chunk_sysex(data@, size)[j])
        }),
{
    let size: usize = if chunk_size == 0 {
        1
    } else {
        chunk_size
    };
    let ghost chunks = spec_chunk_sysex(data@, size as nat);
    let mut out: Vec<Midi1Message> = Vec::new();
    let mut start: usize = 0;
    let mut j: usize = 0;
    proof {
        let len = data@.len() as int;
        if len > 0 {
            assert((len + size - 1) / (size as int) >= 1) by (nonlinear_arith)
                requires len >= 1, size >= 1;
        } else {
            assert((size - 1) / (size as int) == 0) by (nonlinear_arith)
                requires size >= 1;
        }
        assert((len + size - 1) / (size as int) <= len) by (nonlinear_arith)
            requires size >= 1, len >= 0;
    }
    while start < data.len()
        invariant
            chunks.len() <= data@.len(),
            size >= 1,
            chunks == spec_chunk_sysex(data@, size as nat),
            start == j * size || start == data@.len(),
            start <= data@.len(),
            start < data@.len() ==> j < chunks.len(),
            start == data@.len() ==> j == chunks.len(),
            out@.len() == j,
            forall|k: int| 0 <= k < j ==> (#[trigger] out@[k])@ == Midi1Spec::SystemExclusive(chunks[k]),
        decreases data@.len() - start,
    {
        let end = if data.len() - start >= size {
            start + size
        } else {
            data.len()
        };
        let mut bytes: Vec<u8> = Vec::new();
        bytes.push(0xF0);
        let mut i = start;
        while i < end
            invariant
                start <= i <= end <= data@.len(),
                bytes@ == seq![0xF0u8] + data@.subrange(start as int, i as int),
            decreases end - i,
        {
            bytes.push(data[i]);
            i += 1;
            proof {
                assert(bytes@ =~= seq![0xF0u8] + data@.subrange(start as int, i as int));
            }
        }
        bytes.push(0xF7);
        proof {
            assert((j + 1) * size == j * size + size) by (nonlinear_arith);
            assert(bytes@ =~= chunks[j as int]);
        }
        out.push(Midi1Message::SystemExclusive(bytes));
        j += 1;
        proof {
            if end < data@.len() {
                assert(j * size == end) by (nonlinear_arith)
                    requires j * size == (j - 1) * size + size, end == (j - 1) * size + size;
                assert(j * size < data@.len());
                assert(j < (data@.len() + size - 1) / (size as int)) by (nonlinear_arith)
                    requires j * size < data@.len(), size >= 1;
            } else {
                assert(j == (data@.len() + size - 1) / (size as int)) by (nonlinear_arith)
                    requires (j - 1) * size < data@.len(), data@.len() <= j * size, size >= 1;
            }
        }
        start = end;
    }
    out
}

/// Validates that every byte is a legal 7-bit data byte.
pub fn validate_7bit(data: &[u8]) -> (r: Result<(), ControlError>)
    ensures
        r is Ok <==> all_7bit(data@, 0, data@.len() as int),
        r matches Err(e) ==> e is InvalidData,
{
    let mut i: usize = 0;
    while i < data.len()
        invariant
            i <= data@.len(),
            all_7bit(data@, 0, i as int),
        decreases data@.len() - i,
    {
        if data[i] >= 0x80 {
            return Err(invalid_data("byte is not a 7-bit data byte"));
        }
        i += 1;
    }
    Ok(())
}

/// Masking a 7-bit byte to seven bits leaves it unchanged.
pub proof fn lemma_low7(x: u8)
    requires
        x < 0x80,
    ensures
        x & 0x7F == x,
{
    assert(x < 0x80 ==> x & 0x7F == x) by (bit_vector);
}

/// Masking 7-bit bytes leaves them unchanged.
pub proof fn lemma_mask7_id(s: Seq<u8>)
    requires
        all_7bit(s, 0, s.len() as int),
    ensures
        mask7(s) == s,
{
    assert forall|i: int| 0 <= i < s.len() implies #[trigger] mask7(s)[i] == s[i] by {
        lemma_low7(s[i]);
    }
    assert(mask7(s) =~= s);
}

/// A Universal System Exclusive message reads back, through
/// [`parse_sysex`], as its header fields (masked to seven bits) and its
/// masked payload.
pub proof fn lemma_universal_view(manufacturer: u8, device_id: u8, sub_id1: u8, sub_id2: u8, payload: Seq<u8>)
    requires
        manufacturer == UNIVERSAL_NON_REALTIME || manufacturer == UNIVERSAL_REALTIME,
    ensures
        !is_bare_sysex(Midi1Spec::SystemExclusive(spec_universal_bytes(manufacturer, device_id, sub_id1, sub_id2, payload))),
        spec_parse_sysex(Midi1Spec::SystemExclusive(spec_universal_bytes(manufacturer, device_id, sub_id1, sub_id2, payload)))
            == Some(SysExViewSpec {
                manufacturer,
                device_id: Some(device_id & 0x7F),
                sub_id1: Some(sub_id1 & 0x7F),
                sub_id2: Some(sub_id2 & 0x7F),
                payload: mask7(payload),
                universal: true,
            }),
{
    let b = spec_universal_bytes(manufacturer, device_id, sub_id1, sub_id2, payload);
    let body = b.subrange(2, b.len() - 1);
    assert(body =~= seq![device_id & 0x7F, sub_id1 & 0x7F, sub_id2 & 0x7F] + mask7(payload));
    assert(body.skip(3) =~= mask7(payload));
}

} // verus!
