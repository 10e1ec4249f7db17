//! MIDI 1.0 messages: parsing and encoding.
//!
//! [`parse_midi1`] parses a single message from the front of a byte slice;
//! [`encode_midi1`] and [`Midi1Message::write_bytes`] encode back to the
//! wire format. The abstract meaning of a message is its view
//! ([`Midi1Spec`]); `spec_encode` gives its wire bytes and `spec_parse`
//! the message that a byte stream starts with.
use vstd::prelude::*;

use crate::error::{invalid_data, ControlError};

verus! {

/// A MIDI 1.0 message.
#[derive(Debug, Clone, PartialEq, Eq)]
pub enum Midi1Message {
    /// `8n` — note off.
    NoteOff { channel: u8, note: u8, velocity: u8 },
    /// `9n` — note on (velocity 0 is conventionally a note off).
    NoteOn { channel: u8, note: u8, velocity: u8 },
    /// `An` — polyphonic key pressure.
    PolyphonicKeyPressure { channel: u8, note: u8, pressure: u8 },
    /// `Bn` — control change.
    ControlChange { channel: u8, controller: u8, value: u8 },
    /// `Cn` — program change.
    ProgramChange { channel: u8, program: u8 },
    /// `Dn` — channel pressure.
    ChannelPressure { channel: u8, pressure: u8 },
    /// `En` — pitch bend; `value` is the 14-bit centered value (center 8192).
    PitchBendChange { channel: u8, value: u16 },
    /// `F0 .. F7` — system exclusive (bytes include F0 and F7).
    SystemExclusive(Vec<u8>),
    /// `F1` — MIDI time code quarter frame.
    TimeCodeQuarterFrame(u8),
    /// `F2` — song position pointer (14-bit).
    SongPositionPointer(u16),
    /// `F3` — song select.
    SongSelect(u8),
    /// `F6` — tune request.
    TuneRequest,
    /// `F8` — timing clock.
    TimingClock,
    /// `FA` — start.
    Start,
    /// `FB` — continue.
    Continue,
    /// `FC` — stop.
    Stop,
    /// `FE` — active sensing.
    ActiveSensing,
    /// `FF` — system reset.
    SystemReset,
}

/// The abstract value of a [`Midi1Message`]: the same variants, with the
/// System Exclusive bytes as a sequence.
pub enum Midi1Spec {
    NoteOff { channel: u8, note: u8, velocity: u8 },
    NoteOn { channel: u8, note: u8, velocity: u8 },
    PolyphonicKeyPressure { channel: u8, note: u8, pressure: u8 },
    ControlChange { channel: u8, controller: u8, value: u8 },
    ProgramChange { channel: u8, program: u8 },
    ChannelPressure { channel: u8, pressure: u8 },
    PitchBendChange { channel: u8, value: u16 },
    SystemExclusive(Seq<u8>),
    TimeCodeQuarterFrame(u8),
    SongPositionPointer(u16),
    SongSelect(u8),
    TuneRequest,
    TimingClock,
    Start,
    Continue,
    Stop,
    ActiveSensing,
    SystemReset,
}

impl View for Midi1Message {
    type V = Midi1Spec;

    open spec fn view(&self) -> Midi1Spec {
        match *self {
            Midi1Message::NoteOff { channel, note, velocity } => Midi1Spec::NoteOff { channel, note, velocity },
            Midi1Message::NoteOn { channel, note, velocity } => Midi1Spec::NoteOn { channel, note, velocity },
            Midi1Message::PolyphonicKeyPressure { channel, note, pressure } => Midi1Spec::PolyphonicKeyPressure { channel, note, pressure },
            Midi1Message::ControlChange { channel, controller, value } => Midi1Spec::ControlChange { channel, controller, value },
            Midi1Message::ProgramChange { channel, program } => Midi1Spec::ProgramChange { channel, program },
            Midi1Message::ChannelPressure { channel, pressure } => Midi1Spec::ChannelPressure { channel, pressure },
            Midi1Message::PitchBendChange { channel, value } => Midi1Spec::PitchBendChange { channel, value },
            Midi1Message::SystemExclusive(bytes) => Midi1Spec::SystemExclusive(bytes@),
            Midi1Message::TimeCodeQuarterFrame(q) => Midi1Spec::TimeCodeQuarterFrame(q),
            Midi1Message::SongPositionPointer(p) => Midi1Spec::SongPositionPointer(p),
            Midi1Message::SongSelect(s) => Midi1Spec::SongSelect(s),
            Midi1Message::TuneRequest => Midi1Spec::TuneRequest,
            Midi1Message::TimingClock => Midi1Spec::TimingClock,
            Midi1Message::Start => Midi1Spec::Start,
            Midi1Message::Continue => Midi1Spec::Continue,
            Midi1Message::Stop => Midi1Spec::Stop,
            Midi1Message::ActiveSensing => Midi1Spec::ActiveSensing,
            Midi1Message::SystemReset => Midi1Spec::SystemReset,
        }
    }
}

/// The status byte of a message (`None` for System Exclusive, whose status
/// is part of its bytes).
pub open spec fn spec_status(m: Midi1Spec) -> Option<u8> {
    match m {
        Midi1Spec::NoteOff { channel, .. } => Some(0x80u8 | channel),
        Midi1Spec::NoteOn { channel, .. } => Some(0x90u8 | channel),
        Midi1Spec::PolyphonicKeyPressure { channel, .. } => Some(0xA0u8 | channel),
        Midi1Spec::ControlChange { channel, .. } => Some(0xB0u8 | channel),
        Midi1Spec::ProgramChange { channel, .. } => Some(0xC0u8 | channel),
        Midi1Spec::ChannelPressure { channel, .. } => Some(0xD0u8 | channel),
        Midi1Spec::PitchBendChange { channel, .. } => Some(0xE0u8 | channel),
        Midi1Spec::SystemExclusive(_) => None,
        Midi1Spec::TimeCodeQuarterFrame(_) => Some(0xF1u8),
        Midi1Spec::SongPositionPointer(_) => Some(0xF2u8),
        Midi1Spec::SongSelect(_) => Some(0xF3u8),
        Midi1Spec::TuneRequest => Some(0xF6u8),
        Midi1Spec::TimingClock => Some(0xF8u8),
        Midi1Spec::Start => Some(0xFAu8),
        Midi1Spec::Continue => Some(0xFBu8),
        Midi1Spec::Stop => Some(0xFCu8),
        Midi1Spec::ActiveSensing => Some(0xFEu8),
        Midi1Spec::SystemReset => Some(0xFFu8),
    }
}

/// The channel of a channel-voice message.
pub open spec fn spec_channel(m: Midi1Spec) -> Option<u8> {
    match m {
        Midi1Spec::NoteOff { channel, .. } => Some(channel),
        Midi1Spec::NoteOn { channel, .. } => Some(channel),
        Midi1Spec::PolyphonicKeyPressure { channel, .. } => Some(channel),
        Midi1Spec::ControlChange { channel, .. } => Some(channel),
        Midi1Spec::ProgramChange { channel, .. } => Some(channel),
        Midi1Spec::ChannelPressure { channel, .. } => Some(channel),
        Midi1Spec::PitchBendChange { channel, .. } => Some(channel),
        _ => None,
    }
}

/// The number of bytes a message occupies on the wire.
pub open spec fn spec_encoded_len(m: Midi1Spec) -> nat {
    match m {
        Midi1Spec::SystemExclusive(bytes) => bytes.len(),
        Midi1Spec::NoteOff { .. } => 3,
        Midi1Spec::NoteOn { .. } => 3,
        Midi1Spec::PolyphonicKeyPressure { .. } => 3,
        Midi1Spec::ControlChange { .. } => 3,
        Midi1Spec::PitchBendChange { .. } => 3,
        Midi1Spec::SongPositionPointer(_) => 3,
        Midi1Spec::ProgramChange { .. } => 2,
        Midi1Spec::ChannelPressure { .. } => 2,
        Midi1Spec::TimeCodeQuarterFrame(_) => 2,
        Midi1Spec::SongSelect(_) => 2,
        _ => 1,
    }
}

/// Low seven bits of a 14-bit value.
pub open spec fn lsb7(v: u16) -> u8 {
    (v & 0x7F) as u8
}

/// Bits 7..13 of a 14-bit value.
pub open spec fn msb7(v: u16) -> u8 {
    ((v >> 7u16) & 0x7F) as u8
}

/// Joins two 7-bit bytes into a 14-bit value.
pub open spec fn join14(lsb: u8, msb: u8) -> u16 {
    ((msb as u16) << 7u16) | (lsb as u16)
}

/// The wire bytes of a message.
pub open spec fn spec_encode(m: Midi1Spec) -> Seq<u8> {
    match m {
        Midi1Spec::NoteOff { channel, note, velocity } => seq![0x80u8 | channel, note, velocity],
        Midi1Spec::NoteOn { channel, note, velocity } => seq![0x90u8 | channel, note, velocity],
        Midi1Spec::PolyphonicKeyPressure { channel, note, pressure } => seq![0xA0u8 | channel, note, pressure],
        Midi1Spec::ControlChange { channel, controller, value } => seq![0xB0u8 | channel, controller, value],
        Midi1Spec::ProgramChange { channel, program } => seq![0xC0u8 | channel, program],
        Midi1Spec::ChannelPressure { channel, pressure } => seq![0xD0u8 | channel, pressure],
        Midi1Spec::PitchBendChange { channel, value } => seq![0xE0u8 | channel, lsb7(value), msb7(value)],
        Midi1Spec::SystemExclusive(bytes) => bytes,
        Midi1Spec::TimeCodeQuarterFrame(q) => seq![0xF1u8, q & 0x7F],
        Midi1Spec::SongPositionPointer(v) => seq![0xF2u8, lsb7(v), msb7(v)],
        Midi1Spec::SongSelect(s) => seq![0xF3u8, s & 0x7F],
        Midi1Spec::TuneRequest => seq![0xF6u8],
        Midi1Spec::TimingClock => seq![0xF8u8],
        Midi1Spec::Start => seq![0xFAu8],
        Midi1Spec::Continue => seq![0xFBu8],
        Midi1Spec::Stop => seq![0xFCu8],
        Midi1Spec::ActiveSensing => seq![0xFEu8],
        Midi1Spec::SystemReset => seq![0xFFu8],
    }
}

/// Whether every byte of `s` in `[lo, hi)` is a 7-bit data byte.
pub open spec fn all_7bit(s: Seq<u8>, lo: int, hi: int) -> bool {
    forall|i: int| lo <= i < hi ==> #[trigger] s[i] < 0x80
}

/// A well-formed System Exclusive byte string: `F0`, 7-bit data, `F7`.
pub open spec fn sysex_wf(bytes: Seq<u8>) -> bool {
    &&& bytes.len() >= 2
    &&& bytes[0] == 0xF0
    &&& bytes[bytes.len() - 1] == 0xF7
    &&& all_7bit(bytes, 1, bytes.len() - 1)
}

/// A well-formed message: channels below 16, data bytes 7-bit, 14-bit
/// values below `0x4000`, and System Exclusive framed by `F0`/`F7`.
pub open spec fn spec_wf(m: Midi1Spec) -> bool {
    match m {
        Midi1Spec::NoteOff { channel, note, velocity } => channel < 16 && note < 0x80 && velocity < 0x80,
        Midi1Spec::NoteOn { channel, note, velocity } => channel < 16 && note < 0x80 && velocity < 0x80,
        Midi1Spec::PolyphonicKeyPressure { channel, note, pressure } => channel < 16 && note < 0x80 && pressure < 0x80,
        Midi1Spec::ControlChange { channel, controller, value } => channel < 16 && controller < 0x80 && value < 0x80,
        Midi1Spec::ProgramChange { channel, program } => channel < 16 && program < 0x80,
        Midi1Spec::ChannelPressure { channel, pressure } => channel < 16 && pressure < 0x80,
        Midi1Spec::PitchBendChange { channel, value } => channel < 16 && value < 0x4000,
        Midi1Spec::SystemExclusive(bytes) => sysex_wf(bytes),
        Midi1Spec::TimeCodeQuarterFrame(q) => q < 0x80,
        Midi1Spec::SongPositionPointer(v) => v < 0x4000,
        Midi1Spec::SongSelect(s) => s < 0x80,
        _ => true,
    }
}

/// Whether `data` starts with a complete System Exclusive message: the
/// first byte after `F0` that has its high bit set is an `F7`.
pub open spec fn sysex_terminated(data: Seq<u8>) -> bool {
    exists|end: int| 1 <= end < data.len() && data[end] == 0xF7 && all_7bit(data, 1, end)
}

/// The index of the `F7` that ends the System Exclusive at the front of
/// `data`.
pub open spec fn sysex_end(data: Seq<u8>) -> int {
    choose|end: int| 1 <= end < data.len() && data[end] == 0xF7 && all_7bit(data, 1, end)
}

/// The message at the front of `data`, if `data` starts with one.
pub open spec fn spec_parse(data: Seq<u8>) -> Option<Midi1Spec> {
    if data.len() == 0 || data[0] < 0x80 {
        None
    } else {
        let s = data[0];
        let channel = s & 0x0F;
        if 0x80 <= s <= 0xEF && !(0xC0 <= s <= 0xDF) {
            if data.len() < 3 || data[1] >= 0x80 || data[2] >= 0x80 {
                None
            } else if s <= 0x8F {
                Some(Midi1Spec::NoteOff { channel, note: data[1], velocity: data[2] })
            } else if s <= 0x9F {
                Some(Midi1Spec::NoteOn { channel, note: data[1], velocity: data[2] })
            } else if s <= 0xAF {
                Some(Midi1Spec::PolyphonicKeyPressure { channel, note: data[1], pressure: data[2] })
            } else if s <= 0xBF {
                Some(Midi1Spec::ControlChange { channel, controller: data[1], value: data[2] })
            } else {
                Some(Midi1Spec::PitchBendChange { channel, value: join14(data[1], data[2]) })
            }
        } else if 0xC0 <= s <= 0xDF {
            if data.len() < 2 || data[1] >= 0x80 {
                None
            } else if s <= 0xCF {
                Some(Midi1Spec::ProgramChange { channel, program: data[1] })
            } else {
                Some(Midi1Spec::ChannelPressure { channel, pressure: data[1] })
            }
        } else if s == 0xF0 {
            if sysex_terminated(data) {
                Some(Midi1Spec::SystemExclusive(data.take(sysex_end(data) + 1)))
            } else {
                None
            }
        } else if s == 0xF1 || s == 0xF3 {
            if data.len() < 2 || data[1] >= 0x80 {
                None
            } else if s == 0xF1 {
                Some(Midi1Spec::TimeCodeQuarterFrame(data[1]))
            } else {
                Some(Midi1Spec::SongSelect(data[1]))
            }
        } else if s == 0xF2 {
            if data.len() < 3 || data[1] >= 0x80 || data[2] >= 0x80 {
                None
            } else {
                Some(Midi1Spec::SongPositionPointer(join14(data[1], data[2])))
            }
        } else if s == 0xF6 {
            Some(Midi1Spec::TuneRequest)
        } else if s == 0xF8 {
            Some(Midi1Spec::TimingClock)
        } else if s == 0xFA {
            Some(Midi1Spec::Start)
        } else if s == 0xFB {
            Some(Midi1Spec::Continue)
        } else if s == 0xFC {
            Some(Midi1Spec::Stop)
        } else if s == 0xFE {
            Some(Midi1Spec::ActiveSensing)
        } else if s == 0xFF {
            Some(Midi1Spec::SystemReset)
        } else {
            None
        }
    }
}

/// Copies a byte vector, keeping its contents.
pub fn copy_bytes(bytes: &Vec<u8>) -> (out: Vec<u8>)
    ensures
        out@ == bytes@,
{
    let mut out: Vec<u8> = Vec::with_capacity(bytes.len());
    let mut i: usize = 0;
    while i < bytes.len()
        invariant
            i <= bytes.len(),
            out@ == bytes@.take(i as int),
        decreases bytes.len() - i,
    {
        out.push(bytes[i]);
        i += 1;
        proof {
            assert(out@ =~= bytes@.take(i as int));
        }
    }
    proof {
        assert(bytes@.take(bytes.len() as int) =~= bytes@);
    }
    out
}

impl Midi1Message {
    /// A copy of this message with the same value.
    pub fn duplicate(&self) -> (out: Midi1Message)
        ensures
            out@ == self@,
    {
        match self {
            Midi1Message::NoteOff { channel, note, velocity } => Midi1Message::NoteOff { channel: *channel, note: *note, velocity: *velocity },
            Midi1Message::NoteOn { channel, note, velocity } => Midi1Message::NoteOn { channel: *channel, note: *note, velocity: *velocity },
            Midi1Message::PolyphonicKeyPressure { channel, note, pressure } => Midi1Message::PolyphonicKeyPressure { channel: *channel, note: *note, pressure: *pressure },
            Midi1Message::ControlChange { channel, controller, value } => Midi1Message::ControlChange { channel: *channel, controller: *controller, value: *value },
            Midi1Message::ProgramChange { channel, program } => Midi1Message::ProgramChange { channel: *channel, program: *program },
            Midi1Message::ChannelPressure { channel, pressure } => Midi1Message::ChannelPressure { channel: *channel, pressure: *pressure },
            Midi1Message::PitchBendChange { channel, value } => Midi1Message::PitchBendChange { channel: *channel, value: *value },
            Midi1Message::SystemExclusive(bytes) => Midi1Message::SystemExclusive(copy_bytes(bytes)),
            Midi1Message::TimeCodeQuarterFrame(q) => Midi1Message::TimeCodeQuarterFrame(*q),
            Midi1Message::SongPositionPointer(p) => Midi1Message::SongPositionPointer(*p),
            Midi1Message::SongSelect(s) => Midi1Message::SongSelect(*s),
            Midi1Message::TuneRequest => Midi1Message::TuneRequest,
            Midi1Message::TimingClock => Midi1Message::TimingClock,
            Midi1Message::Start => Midi1Message::Start,
            Midi1Message::Continue => Midi1Message::Continue,
            Midi1Message::Stop => Midi1Message::Stop,
            Midi1Message::ActiveSensing => Midi1Message::ActiveSensing,
            Midi1Message::SystemReset => Midi1Message::SystemReset,
        }
    }

    /// The status byte for this message, or `None` for SysEx (whose
    /// status is part of the payload).
    pub fn status(&self) -> (r: Option<u8>)
        ensures
            r == spec_status(self@),
    {
        match self {
            Midi1Message::NoteOff { channel, .. } => Some(0x80u8 | *channel),
            Midi1Message::NoteOn { channel, .. } => Some(0x90u8 | *channel),
            Midi1Message::PolyphonicKeyPressure { channel, .. } => Some(0xA0u8 | *channel),
            Midi1Message::ControlChange { channel, .. } => Some(0xB0u8 | *channel),
            Midi1Message::ProgramChange { channel, .. } => Some(0xC0u8 | *channel),
            Midi1Message::ChannelPressure { channel, .. } => Some(0xD0u8 | *channel),
            Midi1Message::PitchBendChange { channel, .. } => Some(0xE0u8 | *channel),
            Midi1Message::TimeCodeQuarterFrame(_) => Some(0xF1u8),
            Midi1Message::SongPositionPointer(_) => Some(0xF2u8),
            Midi1Message::SongSelect(_) => Some(0xF3u8),
            Midi1Message::TuneRequest => Some(0xF6u8),
            Midi1Message::TimingClock => Some(0xF8u8),
            Midi1Message::Start => Some(0xFAu8),
            Midi1Message::Continue => Some(0xFBu8),
            Midi1Message::Stop => Some(0xFCu8),
            Midi1Message::ActiveSensing => Some(0xFEu8),
            Midi1Message::SystemReset => Some(0xFFu8),
            Midi1Message::SystemExclusive(_) => None,
        }
    }

    /// For channel messages, the channel (0-15).
    pub fn channel(&self) -> (r: Option<u8>)
        ensures
            r == spec_channel(self@),
    {
        match self {
            Midi1Message::NoteOff { channel, .. } => Some(*channel),
            Midi1Message::NoteOn { channel, .. } => Some(*channel),
            Midi1Message::PolyphonicKeyPressure { channel, .. } => Some(*channel),
            Midi1Message::ControlChange { channel, .. } => Some(*channel),
            Midi1Message::ProgramChange { channel, .. } => Some(*channel),
            Midi1Message::ChannelPressure { channel, .. } => Some(*channel),
            Midi1Message::PitchBendChange { channel, .. } => Some(*channel),
            _ => None,
        }
    }

    /// Encoded length in bytes.
    pub fn encoded_len(&self) -> (n: usize)
        ensures
            n == spec_encoded_len(self@),
    {
        match self {
            Midi1Message::SystemExclusive(bytes) => bytes.len(),
            Midi1Message::NoteOff { .. } => 3,
            Midi1Message::NoteOn { .. } => 3,
            Midi1Message::PolyphonicKeyPressure { .. } => 3,
            Midi1Message::ControlChange { .. } => 3,
            Midi1Message::PitchBendChange { .. } => 3,
            Midi1Message::SongPositionPointer(_) => 3,
            Midi1Message::ProgramChange { .. } => 2,
            Midi1Message::ChannelPressure { .. } => 2,
            Midi1Message::TimeCodeQuarterFrame(_) => 2,
            Midi1Message::SongSelect(_) => 2,
            _ => 1,
        }
    }

    /// Encodes into `buf`, returning the number of bytes written. Does not
    /// allocate — safe for real-time threads.
    pub fn write_bytes(&self, buf: &mut [u8]) -> (r: Result<usize, ControlError>)
        ensures
            old(buf)@.len() < spec_encoded_len(self@) ==> r == Err::<usize, ControlError>(
                ControlError::BufferTooSmall {
                    needed: spec_encoded_len(self@) as usize,
                    available: old(buf)@.len() as usize,
                },
            ) && final(buf)@ == old(buf)@,
            old(buf)@.len() >= spec_encoded_len(self@) ==> r == Ok::<usize, ControlError>(
                spec_encoded_len(self@) as usize,
            ) && final(buf)@ == spec_encode(self@) + old(buf)@.skip(
                spec_encoded_len(self@) as int,
            ),
    {
        let needed = self.encoded_len();
        if buf.len() < needed {
            return Err(ControlError::BufferTooSmall { needed, available: buf.len() });
        }
        let ghost old_buf = buf@;
        let n: usize = match self {
            Midi1Message::NoteOff { channel, note, velocity } => {
                buf[0] = 0x80u8 | *channel;
                buf[1] = *note;
                buf[2] = *velocity;
                3
            },
            Midi1Message::NoteOn { channel, note, velocity } => {
                buf[0] = 0x90u8 | *channel;
                buf[1] = *note;
                buf[2] = *velocity;
                3
            },
            Midi1Message::PolyphonicKeyPressure { channel, note, pressure } => {
                buf[0] = 0xA0u8 | *channel;
                buf[1] = *note;
                buf[2] = *pressure;
                3
            },
            Midi1Message::ControlChange { channel, controller, value } => {
                buf[0] = 0xB0u8 | *channel;
                buf[1] = *controller;
                buf[2] = *value;
                3
            },
            Midi1Message::ProgramChange { channel, program } => {
                buf[0] = 0xC0u8 | *channel;
                buf[1] = *program;
                2
            },
            Midi1Message::ChannelPressure { channel, pressure } => {
                buf[0] = 0xD0u8 | *channel;
                buf[1] = *pressure;
                2
            },
            Midi1Message::PitchBendChange { channel, value } => {
                buf[0] = 0xE0u8 | *channel;
                buf[1] = (*value & 0x7F) as u8;
                buf[2] = ((*value >> 7u16) & 0x7F) as u8;
                3
            },
            Midi1Message::SystemExclusive(bytes) => {
                let mut i: usize = 0;
                while i < bytes.len()
                    invariant
                        i <= bytes.len(),
                        bytes.len() <= buf@.len(),
                        buf@.len() == old_buf.len(),
                        forall|k: int| 0 <= k < i ==> buf@[k] == bytes@[k],
                        forall|k: int| bytes.len() <= k < buf@.len() ==> buf@[k] == old_buf[k],
                    decreases bytes.len() - i,
                {
                    buf[i] = bytes[i];
                    i += 1;
                }
                bytes.len()
            },
            Midi1Message::TimeCodeQuarterFrame(q) => {
                buf[0] = 0xF1;
                buf[1] = *q & 0x7F;
                2
            },
            Midi1Message::SongPositionPointer(v) => {
                buf[0] = 0xF2;
                buf[1] = (*v & 0x7F) as u8;
                buf[2] = ((*v >> 7u16) & 0x7F) as u8;
                3
            },
            Midi1Message::SongSelect(s) => {
                buf[0] = 0xF3;
                buf[1] = *s & 0x7F;
                2
            },
            Midi1Message::TuneRequest => {
                buf[0] = 0xF6;
                1
            },
            Midi1Message::TimingClock => {
                buf[0] = 0xF8;
                1
            },
            Midi1Message::Start => {
                buf[0] = 0xFA;
                1
            },
            Midi1Message::Continue => {
                buf[0] = 0xFB;
                1
            },
            Midi1Message::Stop => {
                buf[0] = 0xFC;
                1
            },
            Midi1Message::ActiveSensing => {
                buf[0] = 0xFE;
                1
            },
            Midi1Message::SystemReset => {
                buf[0] = 0xFF;
                1
            },
        };
        proof {
            assert(buf@ =~= spec_encode(self@) + old_buf.skip(spec_encoded_len(self@) as int));
        }
        Ok(n)
    }

    /// Encodes into a new buffer (allocates).
    pub fn to_bytes(&self) -> (out: Vec<u8>)
        ensures
            out@ == spec_encode(self@),
    {
        let len = self.encoded_len();
        let mut buf: Vec<u8> = Vec::with_capacity(len);
        let mut i: usize = 0;
        while i < len
            invariant
                i <= len,
                buf@.len() == i,
            decreases len - i,
        {
            buf.push(0u8);
            i += 1;
        }
        let r = self.write_bytes(buf.as_mut_slice());
        proof {
            assert(buf@ =~= spec_encode(self@));
        }
        buf
    }
}

/// Checks the `index`-th byte of `data` is a 7-bit data byte.
fn data_byte(data: &[u8], index: usize) -> (r: Result<u8, ControlError>)
    requires
        index < data@.len(),
    ensures
        data@[index as int] < 0x80 ==> r == Ok::<u8, ControlError>(data@[index as int]),
        data@[index as int] >= 0x80 ==> r is Err && r->Err_0 is InvalidData,
{
    let b = data[index];
    if b >= 0x80 {
        return Err(invalid_data("data byte has the high bit set"));
    }
    Ok(b)
}

/// Parses one MIDI 1.0 message from the front of `data`.
///
/// Extra trailing bytes are ignored. Fails with `InvalidData` exactly when
/// `data` does not start with a message.
pub fn parse_midi1(data: &[u8]) -> (r: Result<Midi1Message, ControlError>)
    ensures
        r is Ok <==> spec_parse(data@) is Some,
        r matches Ok(m) ==> Some(m@) == spec_parse(data@),
        r matches Err(e) ==> e is InvalidData,
{
    if data.len() == 0 {
        return Err(invalid_data("empty MIDI data"));
    }
    let status = data[0];
    if status < 0x80 {
        return Err(invalid_data("MIDI message must start with a status byte"));
    }
    let channel = status & 0x0F;
    if 0x80 <= status && status <= 0xEF && !(0xC0 <= status && status <= 0xDF) {
        if data.len() < 3 {
            return Err(invalid_data("truncated MIDI message"));
        }
        let d1 = data_byte(data, 1)?;
        let d2 = data_byte(data, 2)?;
        if status <= 0x8F {
            Ok(Midi1Message::NoteOff { channel, note: d1, velocity: d2 })
        } else if status <= 0x9F {
            Ok(Midi1Message::NoteOn { channel, note: d1, velocity: d2 })
        } else if status <= 0xAF {
            Ok(Midi1Message::PolyphonicKeyPressure { channel, note: d1, pressure: d2 })
        } else if status <= 0xBF {
            Ok(Midi1Message::ControlChange { channel, controller: d1, value: d2 })
        } else {
            Ok(Midi1Message::PitchBendChange { channel, value: ((d2 as u16) << 7u16) | (d1 as u16) })
        }
    } else if 0xC0 <= status && status <= 0xDF {
        if data.len() < 2 {
            return Err(invalid_data("truncated MIDI message"));
        }
        let d1 = data_byte(data, 1)?;
        if status <= 0xCF {
            Ok(Midi1Message::ProgramChange { channel, program: d1 })
        } else {
            Ok(Midi1Message::ChannelPressure { channel, pressure: d1 })
        }
    } else if status == 0xF0 {
        // Scan for the first byte with its high bit set; it must be F7.
        let mut i: usize = 1;
        while i < data.len() && data[i] < 0x80
            invariant
                1 <= i <= data@.len(),
                all_7bit(data@, 1, i as int),
            decreases data@.len() - i,
        {
            i += 1;
        }
        if i == data.len() || data[i] != 0xF7 {
            proof {
                if sysex_terminated(data@) {
                    let end = choose|end: int|
                        1 <= end < data@.len() && data@[end] == 0xF7 && all_7bit(data@, 1, end);
                    if end < i {
                        assert(data@[end] < 0x80);
                    } else if end > i {
                        assert(data@[i as int] < 0x80);
                    }
                }
            }
            return Err(invalid_data("SysEx missing F7 terminator"));
        }
        let mut bytes: Vec<u8> = Vec::with_capacity(i + 1);
        let mut k: usize = 0;
        while k <= i
            invariant
                i < data@.len(),
                k <= i + 1,
                bytes@ == data@.take(k as int),
            decreases i + 1 - k,
        {
            bytes.push(data[k]);
            k += 1;
            proof {
                assert(bytes@ =~= data@.take(k as int));
            }
        }
        proof {
            assert(sysex_terminated(data@));
            let end = sysex_end(data@);
            if end < i {
                assert(data@[end] < 0x80);
            } else if end > i {
                assert(data@[i as int] < 0x80);
            }
        }
        Ok(Midi1Message::SystemExclusive(bytes))
    } else if status == 0xF1 || status == 0xF3 {
        if data.len() < 2 {
            return Err(invalid_data("truncated MIDI message"));
        }
        let d = data_byte(data, 1)?;
        if status == 0xF1 {
            Ok(Midi1Message::TimeCodeQuarterFrame(d))
        } else {
            Ok(Midi1Message::SongSelect(d))
        }
    } else if status == 0xF2 {
        if data.len() < 3 {
            return Err(invalid_data("truncated MIDI message"));
        }
        let lsb = data_byte(data, 1)?;
        let msb = data_byte(data, 2)?;
        Ok(Midi1Message::SongPositionPointer(((msb as u16) << 7u16) | (lsb as u16)))
    } else if status == 0xF6 {
        Ok(Midi1Message::TuneRequest)
    } else if status == 0xF8 {
        Ok(Midi1Message::TimingClock)
    } else if status == 0xFA {
        Ok(Midi1Message::Start)
    } else if status == 0xFB {
        Ok(Midi1Message::Continue)
    } else if status == 0xFC {
        Ok(Midi1Message::Stop)
    } else if status == 0xFE {
        Ok(Midi1Message::ActiveSensing)
    } else if status == 0xFF {
        Ok(Midi1Message::SystemReset)
    } else {
        Err(invalid_data("undefined MIDI status"))
    }
}

/// Parses one MIDI 1.0 message and returns it with the number of bytes
/// consumed, suitable for walking a byte stream.
pub fn parse_midi1_prefix(data: &[u8]) -> (r: Result<(Midi1Message, usize), ControlError>)
    ensures
        r is Ok <==> spec_parse(data@) is Some,
        r matches Ok(p) ==> Some(p.0@) == spec_parse(data@) && p.1 == spec_encoded_len(p.0@)
            && p.1 <= data@.len() && spec_encode(p.0@) == data@.take(p.1 as int),
        r matches Err(e) ==> e is InvalidData,
{
    let message = parse_midi1(data)?;
    proof {
        lemma_parse_prefix(data@);
    }
    let len = message.encoded_len();
    Ok((message, len))
}

/// Encodes a message into a fresh buffer (allocates).
pub fn encode_midi1(message: &Midi1Message) -> (out: Vec<u8>)
    ensures
        out@ == spec_encode(message@),
{
    message.to_bytes()
}

/// Splitting a 14-bit value into two 7-bit bytes and joining them again
/// gives the value back; joining two 7-bit bytes gives a 14-bit value
/// whose halves are those bytes.
pub proof fn lemma_split_join14(v: u16, lsb: u8, msb: u8)
    ensures
        v < 0x4000 ==> join14(lsb7(v), msb7(v)) == v,
        lsb < 0x80 && msb < 0x80 ==> join14(lsb, msb) < 0x4000 && lsb7(join14(lsb, msb)) == lsb
            && msb7(join14(lsb, msb)) == msb,
        lsb7(v) < 0x80 && msb7(v) < 0x80,
{
    assert(v < 0x4000 ==> (((((v >> 7u16) & 0x7F) as u8) as u16) << 7u16) | (((v & 0x7F) as u8) as u16) == v) by (bit_vector);
    assert(lsb < 0x80 && msb < 0x80 ==> (((msb as u16) << 7u16) | (lsb as u16)) < 0x4000
        && (((((msb as u16) << 7u16) | (lsb as u16)) & 0x7F) as u8) == lsb
        && ((((((msb as u16) << 7u16) | (lsb as u16)) >> 7u16) & 0x7F) as u8) == msb) by (bit_vector);
    assert((((v & 0x7F) as u8) < 0x80) && ((((v >> 7u16) & 0x7F) as u8) < 0x80)) by (bit_vector);
}

/// Facts about status bytes of channel messages.
pub proof fn lemma_status_bits(channel: u8)
    requires
        channel < 16,
    ensures
        0x80u8 | channel == 0x80 + channel,
        0x90u8 | channel == 0x90 + channel,
        0xA0u8 | channel == 0xA0 + channel,
        0xB0u8 | channel == 0xB0 + channel,
        0xC0u8 | channel == 0xC0 + channel,
        0xD0u8 | channel == 0xD0 + channel,
        0xE0u8 | channel == 0xE0 + channel,
        (0x80u8 | channel) & 0x0F == channel,
        (0x90u8 | channel) & 0x0F == channel,
        (0xA0u8 | channel) & 0x0F == channel,
        (0xB0u8 | channel) & 0x0F == channel,
        (0xC0u8 | channel) & 0x0F == channel,
        (0xD0u8 | channel) & 0x0F == channel,
        (0xE0u8 | channel) & 0x0F == channel,
        forall|q: u8| q < 0x80 ==> #[trigger] (q & 0x7F) == q,
{
    assert(channel < 16 ==> {
        &&& 0x80u8 | channel == 0x80 + channel
        &&& 0x90u8 | channel == 0x90 + channel
        &&& 0xA0u8 | channel == 0xA0 + channel
        &&& 0xB0u8 | channel == 0xB0 + channel
        &&& 0xC0u8 | channel == 0xC0 + channel
        &&& 0xD0u8 | channel == 0xD0 + channel
        &&& 0xE0u8 | channel == 0xE0 + channel
        &&& (0x80u8 | channel) & 0x0F == channel
        &&& (0x90u8 | channel) & 0x0F == channel
        &&& (0xA0u8 | channel) & 0x0F == channel
        &&& (0xB0u8 | channel) & 0x0F == channel
        &&& (0xC0u8 | channel) & 0x0F == channel
        &&& (0xD0u8 | channel) & 0x0F == channel
        &&& (0xE0u8 | channel) & 0x0F == channel
    }) by (bit_vector);
    assert forall|q: u8| q < 0x80 implies #[trigger] (q & 0x7F) == q by {
        assert(q < 0x80 ==> q & 0x7F == q) by (bit_vector);
    }
}

/// What the parser returns is well formed, and its encoding is exactly
/// the bytes it was parsed from.
pub proof fn lemma_parse_prefix(data: Seq<u8>)
    ensures
        spec_parse(data) matches Some(m) ==> spec_wf(m) && spec_encoded_len(m) <= data.len()
            && spec_encode(m) == data.take(spec_encoded_len(m) as int),
{
    if let Some(m) = spec_parse(data) {
        let s = data[0];
        let c = s & 0x0F;
        assert(c < 16) by (bit_vector)
            requires c == s & 0x0F;
        assert(0x80 <= s <= 0xEF ==> (s & 0xF0) | c == s) by (bit_vector)
            requires c == s & 0x0F;
        if s < 0xF0 {
            lemma_status_bits(c);
            assert(0x80 <= s <= 0x8F ==> s == 0x80 + c) by (bit_vector)
                requires c == s & 0x0F;
            assert(0x90 <= s <= 0x9F ==> s == 0x90 + c) by (bit_vector)
                requires c == s & 0x0F;
            assert(0xA0 <= s <= 0xAF ==> s == 0xA0 + c) by (bit_vector)
                requires c == s & 0x0F;
            assert(0xB0 <= s <= 0xBF ==> s == 0xB0 + c) by (bit_vector)
                requires c == s & 0x0F;
            assert(0xC0 <= s <= 0xCF ==> s == 0xC0 + c) by (bit_vector)
                requires c == s & 0x0F;
            assert(0xD0 <= s <= 0xDF ==> s == 0xD0 + c) by (bit_vector)
                requires c == s & 0x0F;
            assert(0xE0 <= s <= 0xEF ==> s == 0xE0 + c) by (bit_vector)
                requires c == s & 0x0F;
        }
        if data.len() >= 3 {
            lemma_split_join14(0, data[1], data[2]);
        }
        if data.len() >= 2 {
            lemma_status_bits(0);
        }
        if s == 0xF0 {
            let end = sysex_end(data);
            let b = data.take(end + 1);
            assert(all_7bit(b, 1, b.len() - 1));
        }
        assert(spec_encode(m) =~= data.take(spec_encoded_len(m) as int));
    }
}

/// Parsing the encoding of a well-formed message gives the message back.
pub proof fn lemma_encode_parse_roundtrip(m: Midi1Spec)
    requires
        spec_wf(m),
    ensures
        spec_parse(spec_encode(m)) == Some(m),
{
    let e = spec_encode(m);
    match m {
        Midi1Spec::SystemExclusive(bytes) => {
            let end = (bytes.len() - 1) as int;
            assert(1 <= end < e.len() && e[end] == 0xF7 && all_7bit(e, 1, end));
            let chosen = sysex_end(e);
            if chosen < end {
                assert(e[chosen] < 0x80);
            } else if chosen > end {
                assert(false);
            }
            assert(e.take(end + 1) =~= bytes);
        },
        Midi1Spec::PitchBendChange { channel, value } => {
            lemma_status_bits(channel);
            lemma_split_join14(value, 0, 0);
        },
        Midi1Spec::SongPositionPointer(v) => {
            lemma_split_join14(v, 0, 0);
        },
        Midi1Spec::NoteOff { channel, .. } => { lemma_status_bits(channel); },
        Midi1Spec::NoteOn { channel, .. } => { lemma_status_bits(channel); },
        Midi1Spec::PolyphonicKeyPressure { channel, .. } => { lemma_status_bits(channel); },
        Midi1Spec::ControlChange { channel, .. } => { lemma_status_bits(channel); },
        Midi1Spec::ProgramChange { channel, .. } => { lemma_status_bits(channel); },
        Midi1Spec::ChannelPressure { channel, .. } => { lemma_status_bits(channel); },
        _ => { lemma_status_bits(0); },
    }
}


/// The parser reads a well-formed message from the front of a stream:
/// parsing its encoding followed by any bytes gives the message, and the
/// encoding is as long as the message's encoded length, which is what the
/// parser consumes.
pub proof fn lemma_prefix_roundtrip(m: Midi1Spec, extra: Seq<u8>)
    requires
        spec_wf(m),
    ensures
        spec_parse(spec_encode(m) + extra) == Some(m),
        spec_encode(m).len() == spec_encoded_len(m),
{
    let e = spec_encode(m);
    let d = e + extra;
    lemma_encode_parse_roundtrip(m);
    lemma_parse_prefix(e);
    match m {
        Midi1Spec::SystemExclusive(bytes) => {
            let end = (bytes.len() - 1) as int;
            assert(e[end] == 0xF7 && all_7bit(e, 1, end));
            assert(1 <= end < d.len() && d[end] == 0xF7 && all_7bit(d, 1, end));
            let chosen = sysex_end(d);
            if chosen < end {
                assert(d[chosen] < 0x80);
            } else if chosen > end {
                assert(d[end] < 0x80);
            }
            assert(d.take(end + 1) =~= bytes);
        },
        _ => {
            assert(d[0] == e[0]);
            if e.len() > 1 {
                assert(d[1] == e[1]);
            }
            if e.len() > 2 {
                assert(d[2] == e[2]);
            }
        },
    }
}

/// The MIDI 2.0 recommended scaling of a 7-bit value to 16 bits.
pub open spec fn spec_scale_7_to_16(v: int) -> int {
    (v * 0xFFFF + 63) / 0x7F
}

/// Scaling of a 16-bit value to 7 bits, rounded.
pub open spec fn spec_scale_16_to_7(v: int) -> int {
    (v * 0x7F + 0x7FFF) / 0xFFFF
}

/// Scaling of a 7-bit value to 32 bits.
pub open spec fn spec_scale_7_to_32(v: int) -> int {
    (v * 0xFFFF_FFFF + 63) / 0x7F
}

/// Scaling of a 32-bit value to 7 bits, rounded.
pub open spec fn spec_scale_32_to_7(v: int) -> int {
    (v * 0x7F + 0x7FFF_FFFF) / 0xFFFF_FFFF
}

/// Scaling of a 16-bit value to 32 bits.
pub open spec fn spec_scale_16_to_32(v: int) -> int {
    (v * 0xFFFF_FFFF + 0x7FFF) / 0xFFFF
}

/// Scaling of a 32-bit value to 16 bits, rounded.
pub open spec fn spec_scale_32_to_16(v: int) -> int {
    (v * 0xFFFF + 0x7FFF_FFFF) / 0xFFFF_FFFF
}

/// Scales a 7-bit value to 16 bits per the MIDI 2.0 recommended mapping
/// (full scale 0x7F maps to 0xFFFF). Values above 0x7F are out of the
/// mapping's domain; their result is the formula truncated to 16 bits.
pub fn scale_7_to_16(v: u8) -> (r: u16)
    ensures
        r == spec_scale_7_to_16(v as int) as u16,
        v < 0x80 ==> r == spec_scale_7_to_16(v as int),
{
    proof {
        assert((v as int) * 0xFFFF + 63 <= 255 * 0xFFFF + 63) by (nonlinear_arith)
            requires v <= 0xFF;
        assert(v < 0x80 ==> ((v as int) * 0xFFFF + 63) / 0x7F <= 0xFFFF) by (nonlinear_arith);
    }
    (((v as u32) * 0xFFFF + 63) / 0x7F) as u16
}

/// Scales a 16-bit value to 7 bits (rounded).
pub fn scale_16_to_7(v: u16) -> (r: u8)
    ensures
        r == spec_scale_16_to_7(v as int),
        r < 0x80,
{
    proof {
        assert(((v as int) * 0x7F + 0x7FFF) / 0xFFFF <= 0x7F) by (nonlinear_arith)
            requires v <= 0xFFFF;
    }
    (((v as u32) * 0x7F + 0x7FFF) / 0xFFFF) as u8
}

/// Scales a 7-bit value to 32 bits (full scale). Values above 0x7F are
/// out of the mapping's domain; their result is the formula truncated to
/// 32 bits.
pub fn scale_7_to_32(v: u8) -> (r: u32)
    ensures
        r == spec_scale_7_to_32(v as int) as u32,
        v < 0x80 ==> r == spec_scale_7_to_32(v as int),
{
    proof {
        assert(v < 0x80 ==> ((v as int) * 0xFFFF_FFFF + 63) / 0x7F <= 0xFFFF_FFFF) by (nonlinear_arith);
        assert((v as int) * 0xFFFF_FFFF + 63 < 0x1_0000_0000_0000_0000) by (nonlinear_arith)
            requires v <= 0xFF;
    }
    (((v as u64) * 0xFFFF_FFFF + 63) / 0x7F) as u32
}

/// Scales a 32-bit value to 7 bits (rounded).
pub fn scale_32_to_7(v: u32) -> (r: u8)
    ensures
        r == spec_scale_32_to_7(v as int),
        r < 0x80,
{
    proof {
        assert(((v as int) * 0x7F + 0x7FFF_FFFF) / 0xFFFF_FFFF <= 0x7F) by (nonlinear_arith)
            requires v <= 0xFFFF_FFFF;
    }
    (((v as u64) * 0x7F + 0x7FFF_FFFF) / 0xFFFF_FFFF) as u8
}

/// Scales a 16-bit value to 32 bits (full scale).
pub fn scale_16_to_32(v: u16) -> (r: u32)
    ensures
        r == spec_scale_16_to_32(v as int),
{
    proof {
        assert(((v as int) * 0xFFFF_FFFF + 0x7FFF) / 0xFFFF <= 0xFFFF_FFFF) by (nonlinear_arith)
            requires v <= 0xFFFF;
        assert((v as int) * 0xFFFF_FFFF + 0x7FFF < 0x1_0000_0000_0000_0000) by (nonlinear_arith)
            requires v <= 0xFFFF;
    }
    (((v as u64) * 0xFFFF_FFFF + 0x7FFF) / 0xFFFF) as u32
}

/// Scales a 32-bit value to 16 bits (rounded).
pub fn scale_32_to_16(v: u32) -> (r: u16)
    ensures
        r == spec_scale_32_to_16(v as int),
{
    proof {
        assert(((v as int) * 0xFFFF + 0x7FFF_FFFF) / 0xFFFF_FFFF <= 0xFFFF) by (nonlinear_arith)
            requires v <= 0xFFFF_FFFF;
    }
    (((v as u64) * 0xFFFF + 0x7FFF_FFFF) / 0xFFFF_FFFF) as u16
}

/// Min-centre-max upscaling of a 14-bit pitch bend value to 32 bits: values
/// up to the center (0x2000) move to the top 14 bits, so the center lands
/// on `0x8000_0000`; above it, the 13 bits below the top one are repeated
/// into the low bits, so 0x3FFF becomes `0xFFFF_FFFF`.
pub open spec fn spec_scale_14_to_32(v: int) -> int {
    if v <= 0x2000 {
        v * 0x4_0000
    } else {
        let r = v - 0x2000;
        v * 0x4_0000 + r * 0x20 + r / 0x100
    }
}

/// Scales a 14-bit pitch bend value to 32 bits (min-centre-max); bits
/// above the low 14 are ignored.
pub fn scale_14_to_32(v: u16) -> (r: u32)
    ensures
        r == spec_scale_14_to_32((v % 0x4000) as int),
{
    let w: u32 = (v % 0x4000) as u32;
    if w <= 0x2000 {
        w * 0x4_0000
    } else {
        let low: u32 = w - 0x2000;
        w * 0x4_0000 + low * 0x20 + low / 0x100
    }
}

/// The 14-bit upscaling runs from 0 to `0xFFFF_FFFF`, keeps the center at
/// `0x8000_0000`, and truncating back to 14 bits gives the value back.
pub proof fn lemma_scale_14_32_roundtrip(v: int)
    requires
        0 <= v < 0x4000,
    ensures
        0 <= spec_scale_14_to_32(v) <= 0xFFFF_FFFF,
        spec_scale_14_to_32(v) / 0x4_0000 == v,
        spec_scale_14_to_32(0) == 0,
        spec_scale_14_to_32(0x2000) == 0x8000_0000,
        spec_scale_14_to_32(0x3FFF) == 0xFFFF_FFFF,
{
    if v > 0x2000 {
        let r = v - 0x2000;
        assert(0 <= r * 0x20 + r / 0x100 < 0x4_0000);
    }
}

/// Scales a 32-bit pitch bend value to 14 bits (truncating the low bits).
pub fn scale_32_to_14(v: u32) -> (r: u16)
    ensures
        r == (v as int) / 0x4_0000,
{
    proof {
        assert(v >> 18u32 == v / 0x4_0000 && v >> 18u32 < 0x4000) by (bit_vector);
    }
    (v >> 18u32) as u16
}

/// Scaling a 7-bit value up to 16 bits and back down gives it back.
pub proof fn lemma_scale_7_16_roundtrip(v: int)
    requires
        0 <= v < 0x80,
    ensures
        spec_scale_16_to_7(spec_scale_7_to_16(v)) == v,
{
    let w = spec_scale_7_to_16(v);
    let k = (3 * v + 63) / 127;
    assert(w == 516 * v + k) by (nonlinear_arith)
        requires w == (v * 0xFFFF + 63) / 0x7F, k == (3 * v + 63) / 127, 0 <= v;
    assert(127 * k <= 3 * v + 63 && 3 * v + 63 < 127 * k + 127) by (nonlinear_arith)
        requires k == (3 * v + 63) / 127, 0 <= v;
    assert((w * 0x7F + 0x7FFF) / 0xFFFF == v) by (nonlinear_arith)
        requires w == 516 * v + k, 127 * k <= 3 * v + 63, 3 * v + 63 < 127 * k + 127, 0 <= v < 0x80;
}

/// Scaling a 7-bit value up to 32 bits and back down gives it back.
pub proof fn lemma_scale_7_32_roundtrip(v: int)
    requires
        0 <= v < 0x80,
    ensures
        spec_scale_32_to_7(spec_scale_7_to_32(v)) == v,
{
    let w = spec_scale_7_to_32(v);
    let k = (15 * v + 63) / 127;
    assert(w == 33818640 * v + k) by (nonlinear_arith)
        requires w == (v * 0xFFFF_FFFF + 63) / 0x7F, k == (15 * v + 63) / 127, 0 <= v;
    assert(127 * k <= 15 * v + 63 && 15 * v + 63 < 127 * k + 127) by (nonlinear_arith)
        requires k == (15 * v + 63) / 127, 0 <= v;
    assert((w * 0x7F + 0x7FFF_FFFF) / 0xFFFF_FFFF == v) by (nonlinear_arith)
        requires w == 33818640 * v + k, 127 * k <= 15 * v + 63, 15 * v + 63 < 127 * k + 127, 0 <= v < 0x80;
}

} // verus!
