use vstd::prelude::*;

pub mod error;
pub mod midi1;
pub mod messages;
pub mod text;
pub mod ump;
pub mod ump_roundtrip;
pub mod sysex;
pub mod ci;
pub mod wire;
pub mod dmx;
pub mod universe;
pub mod fixture;
pub mod artnet;
pub mod sacn;
pub mod server;
pub mod address;
pub mod types;
pub mod message;
pub mod osc_roundtrip;
pub mod bundle;
pub mod bundle_roundtrip;
pub mod dispatch;
pub mod property;
pub mod msc;
pub mod timecode;
pub mod mtc;
pub mod port;
pub mod device;
pub mod clock;

verus! {

} // verus!
