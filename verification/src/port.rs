//! MIDI port identities.
use vstd::prelude::*;

verus! {

/// A port's index in its backend's enumeration order.
#[derive(Debug, Clone, Copy, PartialEq, Eq, Structural, Hash, PartialOrd, Ord)]
pub struct PortId {
    /// Index in the enumeration.
    pub index: usize,
}

impl PortId {
    /// Wraps an enumeration index.
    pub fn new(index: usize) -> (p: PortId)
        ensures
            p.index == index,
    {
        PortId { index }
    }
}

/// Whether a port receives or sends.
#[derive(Debug, Clone, Copy, PartialEq, Eq, Structural, Hash)]
pub enum PortDirection {
    /// Messages come in.
    Input,
    /// Messages go out.
    Output,
}

/// A named MIDI port.
#[derive(Debug, Clone, PartialEq, Eq, Hash)]
pub struct MidiPort {
    /// Port identity.
    pub id: PortId,
    /// Human-readable port name.
    pub name: String,
    /// Input or output.
    pub direction: PortDirection,
}

impl MidiPort {
    /// Builds a port description.
    pub fn new(id: PortId, name: &str, direction: PortDirection) -> (p: MidiPort)
        ensures
            p.id == id,
            p.name@ == name@,
            p.direction == direction,
    {
        MidiPort { id, name: name.to_string(), direction }
    }
}

} // verus!
