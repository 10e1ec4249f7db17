//! MIDI clock transport: the state a receiver tracks from Start, Continue,
//! Stop and timing clock messages, and the messages a sender emits.
use vstd::prelude::*;

use crate::midi1::{Midi1Message, Midi1Spec};

verus! {

/// MIDI clock ticks per quarter note.
pub const TICKS_PER_QUARTER_NOTE: u32 = 24;

/// Transport state as observed from received messages.
#[derive(Debug, Clone, Copy, PartialEq, Eq, Structural)]
pub enum TransportState {
    /// No transport message seen yet.
    Unknown,
    /// Start received.
    Playing,
    /// Continue received.
    Continuing,
    /// Stop received.
    Stopped,
}

impl Default for TransportState {
    fn default() -> (s: TransportState)
        ensures
            s == TransportState::Unknown,
    {
        TransportState::Unknown
    }
}

/// The transport state and tick count a receiver has seen.
#[derive(Debug, Clone, Copy, PartialEq, Eq)]
pub struct TransportTracker {
    /// The transport state.
    pub state: TransportState,
    /// Timing clock messages seen.
    pub ticks_seen: u64,
}

/// The state after a message: Start plays, Continue continues, Stop
/// stops, a timing clock counts a tick (saturating), anything else changes
/// nothing.
pub open spec fn spec_observe(t: TransportTracker, m: Midi1Spec) -> TransportTracker {
    match m {
        Midi1Spec::Start => TransportTracker { state: TransportState::Playing, ..t },
        Midi1Spec::Continue => TransportTracker { state: TransportState::Continuing, ..t },
        Midi1Spec::Stop => TransportTracker { state: TransportState::Stopped, ..t },
        Midi1Spec::TimingClock => TransportTracker {
            ticks_seen: if t.ticks_seen < u64::MAX {
                (t.ticks_seen + 1) as u64
            } else {
                t.ticks_seen
            },
            ..t
        },
        _ => t,
    }
}

impl TransportTracker {
    /// Nothing seen yet.
    pub fn new() -> (t: TransportTracker)
        ensures
            t.state == TransportState::Unknown,
            t.ticks_seen == 0,
    {
        TransportTracker { state: TransportState::Unknown, ticks_seen: 0 }
    }

    /// Observes one message; returns whether it was a timing clock tick
    /// (the moment a tempo estimate is updated).
    pub fn observe(&mut self, message: &Midi1Message) -> (tick: bool)
        ensures
            *final(self) == spec_observe(*old(self), message@),
            tick == (message@ is TimingClock),
    {
        match message {
            Midi1Message::Start => {
                self.state = TransportState::Playing;
                false
            },
            Midi1Message::Continue => {
                self.state = TransportState::Continuing;
                false
            },
            Midi1Message::Stop => {
                self.state = TransportState::Stopped;
                false
            },
            Midi1Message::TimingClock => {
                if self.ticks_seen < u64::MAX {
                    self.ticks_seen += 1;
                }
                true
            },
            _ => false,
        }
    }
}

/// A timing clock counts one tick whatever the transport state, until the
/// count is at its maximum, and leaves the state alone; Start, Continue
/// and Stop set the state to playing, continuing and stopped without
/// touching the count; every other message changes nothing.
pub proof fn lemma_observe_law(t: TransportTracker, m: Midi1Spec)
    ensures
        m is TimingClock ==> spec_observe(t, m).state == t.state && spec_observe(t, m).ticks_seen as int == (
        if t.ticks_seen < u64::MAX {
            t.ticks_seen + 1
        } else {
            t.ticks_seen as int
        }),
        !(m is TimingClock) ==> spec_observe(t, m).ticks_seen == t.ticks_seen,
        m is Start ==> spec_observe(t, m).state == TransportState::Playing,
        m is Continue ==> spec_observe(t, m).state == TransportState::Continuing,
        m is Stop ==> spec_observe(t, m).state == TransportState::Stopped,
        !(m is TimingClock || m is Start || m is Continue || m is Stop) ==> spec_observe(t, m) == t,
{
}

/// The number of timing clock messages in `ms`.
pub open spec fn clock_count(ms: Seq<Midi1Spec>) -> nat
    decreases ms.len(),
{
    if ms.len() == 0 {
        0
    } else {
        clock_count(ms.drop_last()) + if ms.last() is TimingClock {
            1nat
        } else {
            0nat
        }
    }
}

/// The tracker after observing `ms` in order.
pub open spec fn spec_observe_all(t: TransportTracker, ms: Seq<Midi1Spec>) -> TransportTracker
    decreases ms.len(),
{
    if ms.len() == 0 {
        t
    } else {
        spec_observe(spec_observe_all(t, ms.drop_last()), ms.last())
    }
}

/// Over any stream of messages, from any state, the tick count grows by
/// exactly the number of timing clocks seen (until it saturates at its
/// maximum), however the transport messages in between move the state.
pub proof fn lemma_ticks_count_all_clocks(t: TransportTracker, ms: Seq<Midi1Spec>)
    ensures
        spec_observe_all(t, ms).ticks_seen as int == if t.ticks_seen + clock_count(ms) <= u64::MAX {
            t.ticks_seen + clock_count(ms)
        } else {
            u64::MAX as int
        },
    decreases ms.len(),
{
    if ms.len() > 0 {
        lemma_ticks_count_all_clocks(t, ms.drop_last());
        lemma_observe_law(spec_observe_all(t, ms.drop_last()), ms.last());
    }
}

/// The Song Position Pointer a sender emits for a position in sixteenth
/// notes, capped at 0x3FFF.
pub fn song_position(sixteenth_notes: u16) -> (m: Midi1Message)
    ensures
        m@ == Midi1Spec::SongPositionPointer(
            if sixteenth_notes < 0x3FFF {
                sixteenth_notes
            } else {
                0x3FFF
            },
        ),
{
    let v = if sixteenth_notes < 0x3FFF {
        sixteenth_notes
    } else {
        0x3FFF
    };
    Midi1Message::SongPositionPointer(v)
}

} // verus!
