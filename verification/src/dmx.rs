//! DMX512 universe data.
use vstd::prelude::*;

use crate::error::ControlError;

verus! {

/// Number of channels in a DMX512 universe.
pub const DMX_CHANNELS: usize = 512;

/// A DMX512 universe (512 channels, values 0-255).
///
/// Channels are addressed zero-based (`0..512`); the on-wire slot number
/// is the channel plus one (slots are 1-based in the DMX512 standard).
#[derive(Debug, Clone, PartialEq, Eq)]
pub struct DmxUniverse {
    /// Universe number (protocol-dependent range).
    pub universe: u16,
    /// Channel values (0-255), indexed by channel.
    pub channels: [u8; 512],
}

/// A universe whose every channel is zero.
pub open spec fn all_zero(s: Seq<u8>) -> bool {
    forall|i: int| 0 <= i < s.len() ==> #[trigger] s[i] == 0
}

/// The channels after copying `values` from `start`, truncated at the end
/// of the universe.
pub open spec fn spec_set_channels(chans: Seq<u8>, start: int, values: Seq<u8>) -> Seq<u8> {
    Seq::new(
        chans.len(),
        |i: int|
            if start <= i < start + values.len() {
                values[i - start]
            } else {
                chans[i]
            },
    )
}

impl DmxUniverse {
    /// The value of a channel, zero out of range.
    pub open spec fn spec_get(&self, channel: int) -> u8 {
        if 0 <= channel < 512 {
            self.channels@[channel]
        } else {
            0
        }
    }

    /// Creates a new all-black universe.
    pub fn new(universe: u16) -> (u: DmxUniverse)
        ensures
            u.universe == universe,
            u.channels@.len() == 512,
            all_zero(u.channels@),
    {
        DmxUniverse { universe, channels: [0u8; 512] }
    }

    /// Sets a channel value (zero-based index); the channel must be below
    /// 512.
    pub fn set_channel(&mut self, channel: u16, value: u8)
        requires
            channel < 512,
        ensures
            final(self).universe == old(self).universe,
            final(self).channels@ == old(self).channels@.update(channel as int, value),
    {
        self.channels[channel as usize] = value;
    }

    /// Sets a channel value, returning `OutOfRange` if the channel is not
    /// below 512.
    pub fn try_set_channel(&mut self, channel: u16, value: u8) -> (r: Result<(), ControlError>)
        ensures
            final(self).universe == old(self).universe,
            channel < 512 ==> r is Ok && final(self).channels@ == old(self).channels@.update(channel as int, value),
            channel >= 512 ==> r == Err::<(), ControlError>(
                ControlError::OutOfRange { value: channel as i64, min: 0, max: 511 },
            ) && final(self).channels@ == old(self).channels@,
    {
        if channel >= 512 {
            return Err(ControlError::OutOfRange { value: channel as i64, min: 0, max: 511 });
        }
        self.channels[channel as usize] = value;
        Ok(())
    }

    /// Gets a channel value (zero-based index). Out-of-range reads 0.
    pub fn get_channel(&self, channel: u16) -> (v: u8)
        ensures
            v == self.spec_get(channel as int),
    {
        if (channel as usize) < DMX_CHANNELS {
            self.channels[channel as usize]
        } else {
            0
        }
    }

    /// Copies `values` into consecutive channels starting at `start`.
    /// Truncates at the end of the universe; a start past the end changes
    /// nothing.
    pub fn set_channels(&mut self, start: u16, values: &[u8])
        ensures
            final(self).universe == old(self).universe,
            final(self).channels@ == spec_set_channels(old(self).channels@, start as int, values@),
    {
        let start = start as usize;
        if start >= DMX_CHANNELS {
            proof {
                assert(self.channels@ =~= spec_set_channels(old(self).channels@, start as int, values@));
            }
            return;
        }
        let ghost old_chans = self.channels@;
        let mut i: usize = start;
        while i < DMX_CHANNELS && i - start < values.len()
            invariant
                start <= i <= 512,
                i - start <= values@.len(),
                self.universe == old(self).universe,
                self.channels@.len() == 512,
                old_chans == old(self).channels@,
                forall|k: int| start <= k < i ==> self.channels@[k] == values@[k - start],
                forall|k: int| 0 <= k < 512 && !(start <= k < i) ==> self.channels@[k] == old_chans[k],
            decreases 512 - i,
        {
            self.channels[i] = values[i - start];
            i += 1;
        }
        proof {
            assert(self.channels@ =~= spec_set_channels(old(self).channels@, start as int, values@));
        }
    }

    /// Whether every channel is at zero.
    pub fn is_blackout(&self) -> (b: bool)
        ensures
            b == all_zero(self.channels@),
    {
        let mut i: usize = 0;
        while i < DMX_CHANNELS
            invariant
                i <= 512,
                self.channels@.len() == 512,
                forall|k: int| 0 <= k < i ==> self.channels@[k] == 0,
            decreases 512 - i,
        {
            if self.channels[i] != 0 {
                return false;
            }
            i += 1;
        }
        true
    }

    /// Sets every channel to zero.
    pub fn clear(&mut self)
        ensures
            final(self).universe == old(self).universe,
            final(self).channels@.len() == 512,
            all_zero(final(self).channels@),
    {
        self.channels = [0u8; 512];
    }
}

impl Default for DmxUniverse {
    fn default() -> (u: DmxUniverse)
        ensures
            u.universe == 0,
            all_zero(u.channels@),
    {
        DmxUniverse::new(0)
    }
}

/// Reading a channel after setting it gives the value set; other channels
/// keep their values.
pub proof fn lemma_set_get(u: DmxUniverse, after: DmxUniverse, channel: int, value: u8, other: int)
    requires
        0 <= channel < 512,
        after.channels@ == u.channels@.update(channel, value),
        other != channel,
    ensures
        after.spec_get(channel) == value,
        after.spec_get(other) == u.spec_get(other),
{
}

} // verus!
