//! Lighting fixture definitions and addressing.
use vstd::prelude::*;

use crate::dmx::DmxUniverse;
use crate::error::ControlError;

verus! {

/// The functional role of one fixture channel.
#[derive(Debug, Clone, Copy, PartialEq, Eq, Structural, Hash)]
pub enum FixtureChannel {
    /// Master dimmer.
    Dimmer,
    /// Red component.
    Red,
    /// Green component.
    Green,
    /// Blue component.
    Blue,
    /// White component.
    White,
    /// Pan (coarse).
    Pan,
    /// Tilt (coarse).
    Tilt,
    /// Color wheel / generic function slot.
    Generic,
}

/// The offset of the first `c` in `s`, if any.
pub open spec fn offset_in(s: Seq<FixtureChannel>, c: FixtureChannel) -> Option<int>
    decreases s.len(),
{
    if s.len() == 0 {
        None
    } else if s[0] == c {
        Some(0)
    } else {
        match offset_in(s.drop_first(), c) {
            Some(o) => Some(o + 1),
            None => None,
        }
    }
}

/// `offset_in` finds the first occurrence, and finds none only when there
/// is none.
pub proof fn lemma_offset_in(s: Seq<FixtureChannel>, c: FixtureChannel)
    ensures
        offset_in(s, c) matches Some(o) ==> 0 <= o < s.len() && s[o] == c && forall|j: int|
            0 <= j < o ==> s[j] != c,
        offset_in(s, c) is None ==> forall|j: int| 0 <= j < s.len() ==> s[j] != c,
    decreases s.len(),
{
    if s.len() > 0 && s[0] != c {
        lemma_offset_in(s.drop_first(), c);
        let t = s.drop_first();
        assert forall|j: int| 1 <= j < s.len() implies s[j] == t[j - 1] by {}
    }
}

/// The channels after writing `v` at the address `addr`, if there is one.
pub open spec fn write_at(chans: Seq<u8>, addr: Option<int>, v: u8) -> Seq<u8> {
    match addr {
        Some(a) => chans.update(a, v),
        None => chans,
    }
}

/// A fixture profile: which channels the fixture exposes, in the order
/// they occupy its DMX footprint.
#[derive(Debug, Clone, PartialEq, Eq)]
pub struct FixtureDefinition {
    /// Profile name (e.g. "Generic RGBW PAR").
    pub name: String,
    /// Channels in DMX-offset order (offset = index).
    pub channels: Vec<FixtureChannel>,
}

impl FixtureDefinition {
    /// The offset of a channel kind, if the profile has it.
    pub open spec fn spec_offset(&self, channel: FixtureChannel) -> Option<int> {
        offset_in(self.channels@, channel)
    }

    /// Creates a profile, validating the channel count (1 to 512).
    pub fn new(name: &str, channels: Vec<FixtureChannel>) -> (r: Result<FixtureDefinition, ControlError>)
        ensures
            1 <= channels@.len() <= 512 ==> (r matches Ok(d) && d.name@ == name@ && d.channels@ == channels@),
            !(1 <= channels@.len() <= 512) ==> r == Err::<FixtureDefinition, ControlError>(
                ControlError::OutOfRange { value: channels@.len() as i64, min: 1, max: 512 },
            ),
    {
        if channels.len() == 0 || channels.len() > crate::dmx::DMX_CHANNELS {
            return Err(ControlError::OutOfRange { value: channels.len() as i64, min: 1, max: 512 });
        }
        Ok(FixtureDefinition { name: name.to_string(), channels })
    }

    /// A 1-channel dimmer profile.
    pub fn dimmer() -> (d: FixtureDefinition)
        ensures
            d.channels@ == seq![FixtureChannel::Dimmer],
    {
        FixtureDefinition { name: "Dimmer".to_string(), channels: vec![FixtureChannel::Dimmer] }
    }

    /// A 3-channel RGB profile.
    pub fn rgb() -> (d: FixtureDefinition)
        ensures
            d.channels@ == seq![FixtureChannel::Red, FixtureChannel::Green, FixtureChannel::Blue],
    {
        FixtureDefinition {
            name: "RGB".to_string(),
            channels: vec![FixtureChannel::Red, FixtureChannel::Green, FixtureChannel::Blue],
        }
    }

    /// A 4-channel RGBW profile.
    pub fn rgbw() -> (d: FixtureDefinition)
        ensures
            d.channels@ == seq![
                FixtureChannel::Red,
                FixtureChannel::Green,
                FixtureChannel::Blue,
                FixtureChannel::White,
            ],
    {
        FixtureDefinition {
            name: "RGBW".to_string(),
            channels: vec![
                FixtureChannel::Red,
                FixtureChannel::Green,
                FixtureChannel::Blue,
                FixtureChannel::White,
            ],
        }
    }

    /// Offset of a channel type within the fixture, if present.
    pub fn offset(&self, channel: FixtureChannel) -> (r: Option<usize>)
        ensures
            r matches Some(o) ==> self.spec_offset(channel) == Some(o as int),
            r is None ==> self.spec_offset(channel) is None,
    {
        proof {
            lemma_offset_in(self.channels@, channel);
        }
        let mut i: usize = 0;
        while i < self.channels.len()
            invariant
                i <= self.channels@.len(),
                forall|j: int| 0 <= j < i ==> self.channels@[j] != channel,
                offset_in(self.channels@, channel) matches Some(o) ==> 0 <= o < self.channels@.len()
                    && self.channels@[o] == channel && forall|j: int| 0 <= j < o ==> self.channels@[j] != channel,
                offset_in(self.channels@, channel) is None ==> forall|j: int|
                    0 <= j < self.channels@.len() ==> self.channels@[j] != channel,
            decreases self.channels@.len() - i,
        {
            if self.channels[i] == channel {
                proof {
                    if let Some(o) = offset_in(self.channels@, channel) {
                        assert(!(o < i));
                        assert(!(i < o));
                    }
                }
                return Some(i);
            }
            i += 1;
        }
        None
    }

    /// DMX footprint size in channels.
    pub fn footprint(&self) -> (n: usize)
        ensures
            n == self.channels@.len(),
    {
        self.channels.len()
    }
}

/// One addressed fixture instance: a profile patched onto a universe at a
/// (zero-based) start address.
#[derive(Debug, Clone, PartialEq, Eq)]
pub struct Fixture {
    /// The fixture profile.
    pub definition: FixtureDefinition,
    /// Human label (e.g. "upstage wash 2").
    pub label: String,
    /// Universe the fixture lives on.
    pub universe: u16,
    /// Zero-based start address within the universe.
    pub start_address: u16,
}

impl Fixture {
    /// The universe address of a channel kind, if the fixture has it.
    pub open spec fn spec_address(&self, channel: FixtureChannel) -> Option<int> {
        match self.definition.spec_offset(channel) {
            Some(o) => Some(self.start_address + o),
            None => None,
        }
    }

    /// The channel kind, when present, lies inside the universe.
    pub open spec fn writable(&self, channel: FixtureChannel) -> bool {
        self.spec_address(channel) matches Some(a) ==> a < 512
    }

    /// The first channel address after the footprint.
    pub open spec fn spec_footprint_end(&self) -> int {
        self.start_address + self.definition.channels@.len()
    }

    /// Patches a fixture, validating that the footprint fits the universe.
    pub fn patch(definition: FixtureDefinition, label: &str, universe: u16, start_address: u16) -> (r: Result<
        Fixture,
        ControlError,
    >)
        ensures
            start_address + definition.channels@.len() <= 512 ==> (r matches Ok(f) && f.definition
                == definition && f.label@ == label@ && f.universe == universe && f.start_address
                == start_address),
            start_address + definition.channels@.len() > 512 ==> r == Err::<Fixture, ControlError>(
                ControlError::OutOfRange {
                    value: (start_address + definition.channels@.len()) as i64,
                    min: 1,
                    max: 512,
                },
            ),
    {
        let fp = definition.footprint();
        if fp > crate::dmx::DMX_CHANNELS || start_address as usize + fp > crate::dmx::DMX_CHANNELS {
            let end: u128 = start_address as u128 + fp as u128;
            return Err(ControlError::OutOfRange { value: end as i64, min: 1, max: 512 });
        }
        Ok(Fixture { definition, label: label.to_string(), universe, start_address })
    }

    /// The first channel address AFTER this fixture's footprint.
    pub fn footprint_end(&self) -> (n: usize)
        requires
            self.spec_footprint_end() <= usize::MAX,
        ensures
            n == self.spec_footprint_end(),
    {
        self.start_address as usize + self.definition.footprint()
    }

    /// Writes `value` at the fixture's `channel` slot, if it has one.
    fn write_channel(&self, universe: &mut DmxUniverse, channel: FixtureChannel, value: u8)
        requires
            self.writable(channel),
        ensures
            final(universe).universe == old(universe).universe,
            final(universe).channels@ == write_at(old(universe).channels@, self.spec_address(channel), value),
    {
        if let Some(o) = self.definition.offset(channel) {
            proof {
                lemma_offset_in(self.definition.channels@, channel);
            }
            let addr: u16 = self.start_address + o as u16;
            universe.set_channel(addr, value);
        }
    }

    /// Sets master intensity (0-255); a no-op without a Dimmer channel.
    pub fn set_intensity(&self, universe: &mut DmxUniverse, intensity: u8)
        requires
            self.writable(FixtureChannel::Dimmer),
        ensures
            final(universe).universe == old(universe).universe,
            final(universe).channels@ == write_at(
                old(universe).channels@,
                self.spec_address(FixtureChannel::Dimmer),
                intensity,
            ),
    {
        self.write_channel(universe, FixtureChannel::Dimmer, intensity);
    }

    /// Sets RGB(W) color at full intensity for present components;
    /// components the fixture lacks are skipped.
    pub fn set_color(&self, universe: &mut DmxUniverse, r: u8, g: u8, b: u8, w: u8)
        requires
            self.writable(FixtureChannel::Red),
            self.writable(FixtureChannel::Green),
            self.writable(FixtureChannel::Blue),
            self.writable(FixtureChannel::White),
        ensures
            final(universe).universe == old(universe).universe,
            final(universe).channels@ == write_at(
                write_at(
                    write_at(
                        write_at(old(universe).channels@, self.spec_address(FixtureChannel::Red), r),
                        self.spec_address(FixtureChannel::Green),
                        g,
                    ),
                    self.spec_address(FixtureChannel::Blue),
                    b,
                ),
                self.spec_address(FixtureChannel::White),
                w,
            ),
    {
        self.write_channel(universe, FixtureChannel::Red, r);
        self.write_channel(universe, FixtureChannel::Green, g);
        self.write_channel(universe, FixtureChannel::Blue, b);
        self.write_channel(universe, FixtureChannel::White, w);
    }

    /// Sets pan/tilt (coarse, 0-255, 128 = center); channels the fixture
    /// lacks are skipped.
    pub fn set_position(&self, universe: &mut DmxUniverse, pan: u8, tilt: u8)
        requires
            self.writable(FixtureChannel::Pan),
            self.writable(FixtureChannel::Tilt),
        ensures
            final(universe).universe == old(universe).universe,
            final(universe).channels@ == write_at(
                write_at(old(universe).channels@, self.spec_address(FixtureChannel::Pan), pan),
                self.spec_address(FixtureChannel::Tilt),
                tilt,
            ),
    {
        self.write_channel(universe, FixtureChannel::Pan, pan);
        self.write_channel(universe, FixtureChannel::Tilt, tilt);
    }

    /// Reads a channel value back from the universe.
    pub fn get_channel(&self, universe: &DmxUniverse, channel: FixtureChannel) -> (r: Option<u8>)
        requires
            self.spec_address(channel) matches Some(a) ==> a <= u16::MAX,
        ensures
            r is Some <==> self.spec_address(channel) is Some,
            r matches Some(v) ==> v == universe.spec_get(self.spec_address(channel)->0),
    {
        match self.definition.offset(channel) {
            Some(o) => {
                proof {
                    lemma_offset_in(self.definition.channels@, channel);
                }
                let addr: u16 = self.start_address + o as u16;
                Some(universe.get_channel(addr))
            },
            None => None,
        }
    }
}

/// What a fixture writes is what it reads back: after setting its dimmer,
/// the fixture reports that intensity.
pub proof fn lemma_intensity_read_back(f: Fixture, before: DmxUniverse, after: DmxUniverse, intensity: u8)
    requires
        f.spec_address(FixtureChannel::Dimmer) matches Some(a) && a < 512,
        after.channels@ == write_at(before.channels@, f.spec_address(FixtureChannel::Dimmer), intensity),
        before.channels@.len() == 512,
    ensures
        after.spec_get(f.spec_address(FixtureChannel::Dimmer)->0) == intensity,
{
    lemma_offset_in(f.definition.channels@, FixtureChannel::Dimmer);
}

/// Different channel kinds of a fixture sit at different addresses.
proof fn lemma_addresses_distinct(f: Fixture, c1: FixtureChannel, c2: FixtureChannel)
    requires
        c1 != c2,
    ensures
        f.spec_address(c1) matches Some(a1) ==> (f.spec_address(c2) matches Some(a2) ==> a1 != a2),
{
    lemma_offset_in(f.definition.channels@, c1);
    lemma_offset_in(f.definition.channels@, c2);
}

/// After setting a color, every color component the fixture has reads back
/// the value it was given.
pub proof fn lemma_color_read_back(f: Fixture, before: DmxUniverse, after: DmxUniverse, r: u8, g: u8, b: u8, w: u8)
    requires
        f.writable(FixtureChannel::Red),
        f.writable(FixtureChannel::Green),
        f.writable(FixtureChannel::Blue),
        f.writable(FixtureChannel::White),
        before.channels@.len() == 512,
        after.channels@ == write_at(
            write_at(
                write_at(write_at(before.channels@, f.spec_address(FixtureChannel::Red), r), f.spec_address(FixtureChannel::Green), g),
                f.spec_address(FixtureChannel::Blue),
                b,
            ),
            f.spec_address(FixtureChannel::White),
            w,
        ),
    ensures
        f.spec_address(FixtureChannel::Red) matches Some(a) ==> after.spec_get(a) == r,
        f.spec_address(FixtureChannel::Green) matches Some(a) ==> after.spec_get(a) == g,
        f.spec_address(FixtureChannel::Blue) matches Some(a) ==> after.spec_get(a) == b,
        f.spec_address(FixtureChannel::White) matches Some(a) ==> after.spec_get(a) == w,
{
    lemma_offset_in(f.definition.channels@, FixtureChannel::Red);
    lemma_offset_in(f.definition.channels@, FixtureChannel::Green);
    lemma_offset_in(f.definition.channels@, FixtureChannel::Blue);
    lemma_offset_in(f.definition.channels@, FixtureChannel::White);
    lemma_addresses_distinct(f, FixtureChannel::Red, FixtureChannel::Green);
    lemma_addresses_distinct(f, FixtureChannel::Red, FixtureChannel::Blue);
    lemma_addresses_distinct(f, FixtureChannel::Red, FixtureChannel::White);
    lemma_addresses_distinct(f, FixtureChannel::Green, FixtureChannel::Blue);
    lemma_addresses_distinct(f, FixtureChannel::Green, FixtureChannel::White);
    lemma_addresses_distinct(f, FixtureChannel::Blue, FixtureChannel::White);
}

} // verus!
