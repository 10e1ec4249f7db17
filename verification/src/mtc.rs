//! MIDI Time Code: quarter-frame messages, their decoder, and full-frame
//! SysEx.
use vstd::prelude::*;

use crate::midi1::{Midi1Message, Midi1Spec};
use crate::sysex::{
    is_bare_sysex, lemma_low7, lemma_mask7_id, lemma_universal_view, parse_sysex, spec_parse_sysex,
    spec_universal_bytes, sysex_universal, MIDI_TIME_CODE, UNIVERSAL_REALTIME,
};
use crate::timecode::{spec_timecode_valid, FrameRate, Timecode};

verus! {

/// Sub-ID 2 of a full-frame MTC message.
pub const MTC_FULL_FRAME: u8 = 0x01;

/// Sub-ID 2 of an MTC user-bits message.
pub const MTC_USER_BITS: u8 = 0x02;

/// The rate code carried in MTC's hour byte.
#[derive(Debug, Clone, Copy, PartialEq, Eq, Structural)]
pub enum MtcFrameRate {
    /// 24 fps.
    Fps24,
    /// 25 fps.
    Fps25,
    /// 29.97 fps drop-frame.
    Fps2997Df,
    /// 30 fps non-drop.
    Fps30Ndf,
}

/// The rate code of two bits.
pub open spec fn spec_rate_from_bits(bits: u8) -> MtcFrameRate {
    let b = bits % 4;
    if b == 0 {
        MtcFrameRate::Fps24
    } else if b == 1 {
        MtcFrameRate::Fps25
    } else if b == 2 {
        MtcFrameRate::Fps2997Df
    } else {
        MtcFrameRate::Fps30Ndf
    }
}

/// The two bits of a rate code.
pub open spec fn spec_rate_bits(r: MtcFrameRate) -> u8 {
    match r {
        MtcFrameRate::Fps24 => 0,
        MtcFrameRate::Fps25 => 1,
        MtcFrameRate::Fps2997Df => 2,
        MtcFrameRate::Fps30Ndf => 3,
    }
}

/// The timecode frame rate of a rate code.
pub open spec fn spec_frame_rate(r: MtcFrameRate) -> FrameRate {
    match r {
        MtcFrameRate::Fps24 => FrameRate::Fps24,
        MtcFrameRate::Fps25 => FrameRate::Fps25,
        MtcFrameRate::Fps2997Df => FrameRate::Fps2997Df,
        MtcFrameRate::Fps30Ndf => FrameRate::Fps30Ndf,
    }
}

/// The two rate bits of a timecode frame rate.
pub open spec fn spec_bits_of_rate(r: FrameRate) -> u8 {
    match r {
        FrameRate::Fps24 => 0,
        FrameRate::Fps25 => 1,
        FrameRate::Fps2997Df => 2,
        FrameRate::Fps30Ndf => 3,
    }
}

impl MtcFrameRate {
    /// Decodes the low two bits of `bits`.
    pub fn from_bits(bits: u8) -> (r: MtcFrameRate)
        ensures
            r == spec_rate_from_bits(bits),
    {
        let b = bits % 4;
        if b == 0 {
            MtcFrameRate::Fps24
        } else if b == 1 {
            MtcFrameRate::Fps25
        } else if b == 2 {
            MtcFrameRate::Fps2997Df
        } else {
            MtcFrameRate::Fps30Ndf
        }
    }

    /// The two-bit code.
    pub fn to_bits(self) -> (b: u8)
        ensures
            b == spec_rate_bits(self),
    {
        match self {
            MtcFrameRate::Fps24 => 0,
            MtcFrameRate::Fps25 => 1,
            MtcFrameRate::Fps2997Df => 2,
            MtcFrameRate::Fps30Ndf => 3,
        }
    }

    /// The corresponding timecode frame rate.
    pub fn frame_rate(self) -> (r: FrameRate)
        ensures
            r == spec_frame_rate(self),
    {
        match self {
            MtcFrameRate::Fps24 => FrameRate::Fps24,
            MtcFrameRate::Fps25 => FrameRate::Fps25,
            MtcFrameRate::Fps2997Df => FrameRate::Fps2997Df,
            MtcFrameRate::Fps30Ndf => FrameRate::Fps30Ndf,
        }
    }
}

/// The eight nibbles a timecode is sent as: frames, seconds and minutes
/// low then high, the hour's low nibble, and its high bit with the rate
/// bits above it.
pub open spec fn spec_nibbles(tc: Timecode) -> Seq<u8> {
    seq![
        tc.frames % 16,
        tc.frames / 16 % 16,
        tc.seconds % 16,
        tc.seconds / 16 % 16,
        tc.minutes % 16,
        tc.minutes / 16 % 16,
        tc.hours % 16,
        (tc.hours / 16 % 2 + spec_bits_of_rate(tc.rate) * 2) as u8,
    ]
}

fn bits_of_rate(r: FrameRate) -> (b: u8)
    ensures
        b == spec_bits_of_rate(r),
{
    match r {
        FrameRate::Fps24 => 0,
        FrameRate::Fps25 => 1,
        FrameRate::Fps2997Df => 2,
        FrameRate::Fps30Ndf => 3,
    }
}

/// Splits a timecode into its eight quarter-frame messages, piece `i`
/// carrying `i` in its high nibble and nibble `i` of the timecode.
pub fn quarter_frames(timecode: &Timecode) -> (v: Vec<Midi1Message>)
    ensures
        v@.len() == 8,
        forall|i: int| 0 <= i < 8 ==> #[trigger] v@[i]@ == Midi1Spec::TimeCodeQuarterFrame(
            (i * 16 + spec_nibbles(*timecode)[i] % 16) as u8,
        ),
{
    let rate_bits = bits_of_rate(timecode.rate);
    let nibbles: [u8; 8] = [
        timecode.frames % 16,
        timecode.frames / 16 % 16,
        timecode.seconds % 16,
        timecode.seconds / 16 % 16,
        timecode.minutes % 16,
        timecode.minutes / 16 % 16,
        timecode.hours % 16,
        timecode.hours / 16 % 2 + rate_bits * 2,
    ];
    proof {
        assert(nibbles@ =~= spec_nibbles(*timecode));
    }
    let mut v: Vec<Midi1Message> = Vec::new();
    let mut i: usize = 0;
    while i < 8
        invariant
            i <= 8,
            nibbles@ == spec_nibbles(*timecode),
            v@.len() == i,
            forall|j: int| 0 <= j < i ==> #[trigger] v@[j]@ == Midi1Spec::TimeCodeQuarterFrame(
                (j * 16 + spec_nibbles(*timecode)[j] % 16) as u8,
            ),
        decreases 8 - i,
    {
        let piece = (i as u8) * 16 + nibbles[i] % 16;
        v.push(Midi1Message::TimeCodeQuarterFrame(piece));
        i += 1;
    }
    v
}

/// Reassembles quarter-frame messages into a timecode.
#[derive(Debug, Clone, PartialEq)]
pub struct MtcDecoder {
    nibbles: [Option<u8>; 8],
    /// The last complete, valid timecode received.
    pub timecode: Option<Timecode>,
}

/// Whether every nibble has arrived.
pub open spec fn all_some(n: Seq<Option<u8>>) -> bool {
    forall|i: int| 0 <= i < n.len() ==> #[trigger] n[i] is Some
}

/// The value of an arrived nibble.
pub open spec fn nib(n: Seq<Option<u8>>, i: int) -> u8 {
    match n[i] {
        Some(v) => v,
        None => 0,
    }
}

/// The timecode eight nibbles hold, if it is valid.
pub open spec fn spec_timecode_of(n: Seq<Option<u8>>) -> Option<Timecode> {
    let frames = (nib(n, 0) + nib(n, 1) * 16) as u8;
    let seconds = (nib(n, 2) + nib(n, 3) * 16) as u8;
    let minutes = (nib(n, 4) + nib(n, 5) * 16) as u8;
    let hours = (nib(n, 6) + (nib(n, 7) % 2) * 16) as u8;
    let rate = spec_frame_rate(spec_rate_from_bits(nib(n, 7) / 2));
    if spec_timecode_valid(hours, minutes, seconds, frames, rate) {
        Some(Timecode { hours, minutes, seconds, frames, rate })
    } else {
        None
    }
}

/// The decoder's pending nibbles and last timecode after one quarter
/// frame: the piece's nibble is stored at the index in its high bits; once
/// all eight are in, a valid timecode they make replaces the last one and
/// the nibbles are cleared.
pub open spec fn spec_feed_piece(n: Seq<Option<u8>>, tc: Option<Timecode>, piece: u8) -> (Seq<Option<u8>>, Option<Timecode>) {
    let n2 = n.update((piece / 16 % 8) as int, Some(piece % 16));
    if all_some(n2) {
        (
            Seq::new(8, |i: int| None::<u8>),
            match spec_timecode_of(n2) {
                Some(t) => Some(t),
                None => tc,
            },
        )
    } else {
        (n2, tc)
    }
}

impl MtcDecoder {
    /// The nibbles received since the last complete timecode.
    pub closed spec fn spec_nibbles(&self) -> Seq<Option<u8>> {
        self.nibbles@
    }

    /// The last complete, valid timecode received.
    pub closed spec fn spec_timecode(&self) -> Option<Timecode> {
        self.timecode
    }

    /// A decoder with no nibbles and no timecode.
    pub fn new() -> (d: MtcDecoder)
        ensures
            d.spec_nibbles() == Seq::new(8, |i: int| None::<u8>),
            d.spec_timecode() is None,
    {
        let d = MtcDecoder { nibbles: [None; 8], timecode: None };
        proof {
            assert(d.nibbles@ =~= Seq::new(8, |i: int| None::<u8>));
        }
        d
    }

    /// Whether no nibble is pending.
    pub fn is_idle(&self) -> (b: bool)
        ensures
            b == (forall|i: int| 0 <= i < 8 ==> #[trigger] self.spec_nibbles()[i] is None),
    {
        let mut i: usize = 0;
        while i < 8
            invariant
                i <= 8,
                self.nibbles@.len() == 8,
                forall|j: int| 0 <= j < i ==> #[trigger] self.nibbles@[j] is None,
            decreases 8 - i,
        {
            if self.nibbles[i].is_some() {
                return false;
            }
            i += 1;
        }
        true
    }

    /// Feeds one quarter-frame data byte.
    pub fn feed_quarter_frame(&mut self, piece: u8)
        requires
            old(self).spec_nibbles().len() == 8,
        ensures
            (final(self).spec_nibbles(), final(self).spec_timecode()) == spec_feed_piece(
                old(self).spec_nibbles(),
                old(self).spec_timecode(),
                piece,
            ),
            final(self).spec_nibbles().len() == 8,
    {
        let index = (piece / 16 % 8) as usize;
        let data = piece % 16;
        self.nibbles[index] = Some(data);
        let mut complete = true;
        let mut i: usize = 0;
        while i < 8
            invariant
                i <= 8,
                self.nibbles@.len() == 8,
                complete == (forall|j: int| 0 <= j < i ==> #[trigger] self.nibbles@[j] is Some),
            decreases 8 - i,
        {
            if self.nibbles[i].is_none() {
                complete = false;
            }
            i += 1;
        }
        if complete {
            let n0 = unwrap_nibble(self.nibbles[0]);
            let n1 = unwrap_nibble(self.nibbles[1]);
            let n2 = unwrap_nibble(self.nibbles[2]);
            let n3 = unwrap_nibble(self.nibbles[3]);
            let n4 = unwrap_nibble(self.nibbles[4]);
            let n5 = unwrap_nibble(self.nibbles[5]);
            let n6 = unwrap_nibble(self.nibbles[6]);
            let n7 = unwrap_nibble(self.nibbles[7]);
            let ghost n = self.nibbles@;
            proof {
                assert(n0 == nib(n, 0) && n1 == nib(n, 1) && n2 == nib(n, 2) && n3 == nib(n, 3));
                assert(n4 == nib(n, 4) && n5 == nib(n, 5) && n6 == nib(n, 6) && n7 == nib(n, 7));
            }
            let frames = ((n0 as u32 + (n1 as u32) * 16) % 256) as u8;
            let seconds = ((n2 as u32 + (n3 as u32) * 16) % 256) as u8;
            let minutes = ((n4 as u32 + (n5 as u32) * 16) % 256) as u8;
            let hours = ((n6 as u32 + (n7 as u32 % 2) * 16) % 256) as u8;
            proof {
                assert(frames == (n0 + n1 * 16) as u8 && seconds == (n2 + n3 * 16) as u8 && minutes == (n4
                    + n5 * 16) as u8 && hours == (n6 + (n7 % 2) * 16) as u8) by (bit_vector)
                    requires
                        frames == ((n0 as u32 + (n1 as u32) * 16) % 256) as u8,
                        seconds == ((n2 as u32 + (n3 as u32) * 16) % 256) as u8,
                        minutes == ((n4 as u32 + (n5 as u32) * 16) % 256) as u8,
                        hours == ((n6 as u32 + (n7 as u32 % 2) * 16) % 256) as u8,
                ;
            }
            let rate = MtcFrameRate::from_bits(n7 / 2);
            if let Some(tc) = Timecode::new(hours, minutes, seconds, frames, rate.frame_rate()) {
                self.timecode = Some(tc);
            }
            self.nibbles = [None; 8];
            proof {
                assert(self.nibbles@ =~= Seq::new(8, |i: int| None::<u8>));
            }
        }
    }

    /// Feeds a message; only quarter frames affect the decoder.
    pub fn feed(&mut self, message: &Midi1Message)
        requires
            old(self).spec_nibbles().len() == 8,
        ensures
            final(self).spec_nibbles().len() == 8,
            message@ matches Midi1Spec::TimeCodeQuarterFrame(piece) ==> (final(self).spec_nibbles(),
                final(self).spec_timecode()) == spec_feed_piece(old(self).spec_nibbles(), old(self).spec_timecode(), piece),
            !(message@ is TimeCodeQuarterFrame) ==> final(self).spec_nibbles() == old(self).spec_nibbles()
                && final(self).spec_timecode() == old(self).spec_timecode(),
    {
        if let Midi1Message::TimeCodeQuarterFrame(piece) = message {
            self.feed_quarter_frame(*piece);
        }
    }
}

fn unwrap_nibble(n: Option<u8>) -> (v: u8)
    ensures
        v == match n {
            Some(x) => x,
            None => 0u8,
        },
{
    match n {
        Some(x) => x,
        None => 0,
    }
}

/// The payload of a full-frame message: rate bits above the hour, then
/// minutes, seconds, frames.
pub open spec fn spec_full_frame_payload(tc: Timecode) -> Seq<u8> {
    seq![(spec_bits_of_rate(tc.rate) * 32 + tc.hours % 32) as u8, tc.minutes, tc.seconds, tc.frames]
}

/// Builds a full-frame MTC SysEx (`F0 7F <dev> 01 01 hr mn sc fr F7`).
pub fn full_frame_sysex(timecode: &Timecode, device_id: u8) -> (m: Midi1Message)
    ensures
        m@ == Midi1Spec::SystemExclusive(
            spec_universal_bytes(UNIVERSAL_REALTIME, device_id, MIDI_TIME_CODE, MTC_FULL_FRAME, spec_full_frame_payload(*timecode)),
        ),
{
    let rate_bits = bits_of_rate(timecode.rate);
    let payload: [u8; 4] = [rate_bits * 32 + timecode.hours % 32, timecode.minutes, timecode.seconds, timecode.frames];
    proof {
        assert(payload@ =~= spec_full_frame_payload(*timecode));
    }
    sysex_universal(UNIVERSAL_REALTIME, device_id, MIDI_TIME_CODE, MTC_FULL_FRAME, &payload)
}

/// The timecode a full-frame SysEx holds, if it is one and valid.
pub open spec fn spec_parse_full_frame(m: Midi1Spec) -> Option<Timecode> {
    match spec_parse_sysex(m) {
        None => None,
        Some(v) => if v.manufacturer != UNIVERSAL_REALTIME || v.sub_id1 != Some(MIDI_TIME_CODE) || v.sub_id2
            != Some(MTC_FULL_FRAME) || v.payload.len() < 4 {
            None
        } else {
            let p = v.payload;
            let rate = spec_frame_rate(spec_rate_from_bits(p[0] / 32));
            if spec_timecode_valid(p[0] % 32, p[1], p[2], p[3], rate) {
                Some(Timecode { hours: p[0] % 32, minutes: p[1], seconds: p[2], frames: p[3], rate })
            } else {
                None
            }
        },
    }
}

/// Parses a full-frame MTC SysEx.
pub fn parse_full_frame_sysex(message: &Midi1Message) -> (r: Option<Timecode>)
    requires
        !is_bare_sysex(message@),
    ensures
        r == spec_parse_full_frame(message@),
{
    let view = match parse_sysex(message) {
        Ok(v) => v,
        Err(_) => {
            return None;
        },
    };
    if view.manufacturer != UNIVERSAL_REALTIME || view.sub_id1 != Some(MIDI_TIME_CODE) || view.sub_id2 != Some(
        MTC_FULL_FRAME,
    ) || view.payload.len() < 4 {
        return None;
    }
    let rate = MtcFrameRate::from_bits(view.payload[0] / 32);
    Timecode::new(view.payload[0] % 32, view.payload[1], view.payload[2], view.payload[3], rate.frame_rate())
}

/// The decoder state after feeding the pieces in order.
pub open spec fn spec_feed_all(n: Seq<Option<u8>>, tc: Option<Timecode>, pieces: Seq<u8>) -> (Seq<Option<u8>>, Option<Timecode>)
    decreases pieces.len(),
{
    if pieces.len() == 0 {
        (n, tc)
    } else {
        let (n1, tc1) = spec_feed_all(n, tc, pieces.drop_last());
        spec_feed_piece(n1, tc1, pieces.last())
    }
}

/// The data bytes of a timecode's quarter frames.
pub open spec fn spec_pieces(t: Timecode) -> Seq<u8> {
    Seq::new(8, |i: int| (i * 16 + spec_nibbles(t)[i] % 16) as u8)
}

/// Feeding a valid timecode's eight quarter frames, in order, to a decoder
/// with no pending nibbles yields that timecode and leaves no nibble
/// pending.
pub proof fn lemma_quarter_frames_roundtrip(t: Timecode, last: Option<Timecode>)
    requires
        spec_timecode_valid(t.hours, t.minutes, t.seconds, t.frames, t.rate),
    ensures
        spec_feed_all(Seq::new(8, |i: int| None::<u8>), last, spec_pieces(t)) == (
            Seq::new(8, |i: int| None::<u8>),
            Some(t),
        ),
{
    let empty = Seq::new(8, |i: int| None::<u8>);
    let ps = spec_pieces(t);
    let nb = spec_nibbles(t);
    assert forall|i: int| 0 <= i < 8 implies #[trigger] nb[i] < 16 by {
        assert(t.hours < 24);
    }
    assert forall|i: int| 0 <= i < 8 implies (#[trigger] ps[i]) / 16 % 8 == i && ps[i] % 16 == nb[i] by {
        assert(nb[i] < 16);
    }
    // After k pieces, nibbles 0..k hold their values and the rest are empty.
    let st = |k: int| Seq::new(8, |i: int| if i < k { Some(nb[i]) } else { None::<u8> });
    assert forall|k: int| 0 <= k <= 7 implies spec_feed_all(empty, last, #[trigger] ps.take(k)) == (st(k), last) by {
        lemma_feed_prefix(t, last, k);
    }
    assert(ps.take(8) =~= ps);
    assert(ps.take(8).drop_last() =~= ps.take(7));
    let n7 = st(7).update(7, Some(ps[7] % 16));
    assert(n7 =~= st(8));
    assert(all_some(n7));
    let n = n7;
    assert(nib(n, 0) == t.frames % 16 && nib(n, 1) == t.frames / 16 % 16);
    assert(nib(n, 2) == t.seconds % 16 && nib(n, 3) == t.seconds / 16 % 16);
    assert(nib(n, 4) == t.minutes % 16 && nib(n, 5) == t.minutes / 16 % 16);
    assert(nib(n, 6) == t.hours % 16);
    assert(nib(n, 7) == t.hours / 16 % 2 + spec_bits_of_rate(t.rate) * 2);
    assert(spec_frame_rate(spec_rate_from_bits(nib(n, 7) / 2)) == t.rate);
    assert(spec_timecode_of(n) == Some(t));
}

/// Feeding the first `k` of seven pieces fills exactly nibbles `0..k`.
proof fn lemma_feed_prefix(t: Timecode, last: Option<Timecode>, k: int)
    requires
        0 <= k <= 7,
        spec_timecode_valid(t.hours, t.minutes, t.seconds, t.frames, t.rate),
    ensures
        spec_feed_all(Seq::new(8, |i: int| None::<u8>), last, spec_pieces(t).take(k)) == (
            Seq::new(8, |i: int| if i < k { Some(spec_nibbles(t)[i]) } else { None::<u8> }),
            last,
        ),
    decreases k,
{
    let empty = Seq::new(8, |i: int| None::<u8>);
    let ps = spec_pieces(t);
    let nb = spec_nibbles(t);
    if k == 0 {
        assert(ps.take(0) =~= Seq::<u8>::empty());
        assert(empty =~= Seq::new(8, |i: int| if i < 0 { Some(nb[i]) } else { None::<u8> }));
    } else {
        lemma_feed_prefix(t, last, k - 1);
        assert(ps.take(k).drop_last() =~= ps.take(k - 1));
        let prev = Seq::new(8, |i: int| if i < k - 1 { Some(nb[i]) } else { None::<u8> });
        assert(nb[k - 1] < 16);
        let p = ps[k - 1];
        assert(p / 16 % 8 == k - 1 && p % 16 == nb[k - 1]);
        let next = prev.update(k - 1, Some(p % 16));
        assert(next =~= Seq::new(8, |i: int| if i < k { Some(nb[i]) } else { None::<u8> }));
        assert(!(next[7] is Some));
    }
}

/// A full-frame SysEx built from a valid timecode parses back to that
/// timecode, whatever the device ID.
pub proof fn lemma_full_frame_roundtrip(t: Timecode, device_id: u8)
    requires
        spec_timecode_valid(t.hours, t.minutes, t.seconds, t.frames, t.rate),
    ensures
        !is_bare_sysex(
            Midi1Spec::SystemExclusive(
                spec_universal_bytes(UNIVERSAL_REALTIME, device_id, MIDI_TIME_CODE, MTC_FULL_FRAME, spec_full_frame_payload(t)),
            ),
        ),
        spec_parse_full_frame(
            Midi1Spec::SystemExclusive(
                spec_universal_bytes(UNIVERSAL_REALTIME, device_id, MIDI_TIME_CODE, MTC_FULL_FRAME, spec_full_frame_payload(t)),
            ),
        ) == Some(t),
{
    let p = spec_full_frame_payload(t);
    lemma_universal_view(UNIVERSAL_REALTIME, device_id, MIDI_TIME_CODE, MTC_FULL_FRAME, p);
    assert(p[0] < 0x80 && p[1] < 0x80 && p[2] < 0x80 && p[3] < 0x80);
    lemma_mask7_id(p);
    lemma_low7(MIDI_TIME_CODE);
    lemma_low7(MTC_FULL_FRAME);
    assert(p[0] / 32 == spec_bits_of_rate(t.rate) && p[0] % 32 == t.hours);
    assert(spec_frame_rate(spec_rate_from_bits(spec_bits_of_rate(t.rate))) == t.rate);
}

} // verus!
