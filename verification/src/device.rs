//! Inbound MIDI records and the grouping of enumerated ports into devices.
use vstd::prelude::*;

use crate::midi1::{parse_midi1, spec_encode, spec_parse, Midi1Message, Midi1Spec};
use crate::port::{MidiPort, PortDirection, PortId};
use crate::ump::{spec_num_words, spec_type_of, spec_words_to_bytes, Ump};
use crate::wire::slice_to_vec;

verus! {

/// One received MIDI message: the raw bytes, when they arrived, and the
/// parsed message if the bytes form one.
#[derive(Debug, Clone, PartialEq, Eq)]
pub struct InboundMidi {
    /// Backend timestamp in microseconds.
    pub timestamp_us: u64,
    /// The bytes as received.
    pub raw: Vec<u8>,
    /// The parsed MIDI 1.0 message, when `raw` is one.
    pub message: Option<Midi1Message>,
}

/// The abstract value of an optional message.
pub open spec fn opt_message(m: Option<Midi1Message>) -> Option<Midi1Spec> {
    match m {
        Some(x) => Some(x@),
        None => None,
    }
}

impl InboundMidi {
    /// Records raw bytes received at `timestamp_us`, parsing them.
    pub fn from_raw(timestamp_us: u64, raw: &[u8]) -> (r: InboundMidi)
        ensures
            r.timestamp_us == timestamp_us,
            r.raw@ == raw@,
            opt_message(r.message) == spec_parse(raw@),
    {
        let message = match parse_midi1(raw) {
            Ok(m) => Some(m),
            Err(_) => None,
        };
        InboundMidi { timestamp_us, raw: slice_to_vec(raw, 0, raw.len()), message }
    }

    /// What a loopback sink delivers for a MIDI 1.0 message: its bytes,
    /// the message itself, timestamp 0.
    pub fn from_message(message: &Midi1Message) -> (r: InboundMidi)
        ensures
            r.timestamp_us == 0,
            r.raw@ == spec_encode(message@),
            opt_message(r.message) == Some(message@),
    {
        InboundMidi { timestamp_us: 0, raw: message.to_bytes(), message: Some(message.duplicate()) }
    }

    /// What a loopback sink delivers for a UMP: its bytes, no MIDI 1.0
    /// message, timestamp 0.
    pub fn from_ump(ump: &Ump) -> (r: InboundMidi)
        ensures
            r.timestamp_us == 0,
            r.raw@ == spec_words_to_bytes(ump.words@, spec_num_words(spec_type_of(ump.words@[0]))),
            r.message is None,
    {
        InboundMidi { timestamp_us: 0, raw: ump.to_bytes(), message: None }
    }
}

/// A MIDI device: a name with its input and output ports.
#[derive(Debug, Clone, PartialEq, Eq)]
pub struct MidiDevice {
    /// Device (port) name.
    pub name: String,
    /// Input ports.
    pub inputs: Vec<MidiPort>,
    /// Output ports.
    pub outputs: Vec<MidiPort>,
}

/// A device's abstract value: its name and its ports as (id, name) pairs.
pub struct DeviceSpec {
    pub name: Seq<char>,
    pub inputs: Seq<(usize, Seq<char>)>,
    pub outputs: Seq<(usize, Seq<char>)>,
}

/// The (id, name) pairs of ports of a direction.
pub open spec fn ports_view(ps: Seq<MidiPort>) -> Seq<(usize, Seq<char>)> {
    ps.map_values(|p: MidiPort| (p.id.index, p.name@))
}

/// Every port of `ps` has direction `d`.
pub open spec fn all_direction(ps: Seq<MidiPort>, d: PortDirection) -> bool {
    forall|i: int| 0 <= i < ps.len() ==> #[trigger] ps[i].direction == d
}

impl View for MidiDevice {
    type V = DeviceSpec;

    open spec fn view(&self) -> DeviceSpec {
        DeviceSpec { name: self.name@, inputs: ports_view(self.inputs@), outputs: ports_view(self.outputs@) }
    }
}

/// The devices the input ports make: one per input, in order, named after
/// it, port ids counting from 0.
pub open spec fn spec_input_devices(inputs: Seq<Seq<char>>) -> Seq<DeviceSpec> {
    Seq::new(
        inputs.len(),
        |i: int| DeviceSpec { name: inputs[i], inputs: seq![(i as usize, inputs[i])], outputs: Seq::empty() },
    )
}

/// The first device named `name` with no output yet.
pub open spec fn find_open_device(ds: Seq<DeviceSpec>, name: Seq<char>, i: int) -> Option<int>
    decreases ds.len() - i,
{
    if i < 0 || i >= ds.len() {
        None
    } else if ds[i].name == name && ds[i].outputs.len() == 0 {
        Some(i)
    } else {
        find_open_device(ds, name, i + 1)
    }
}

/// Adds the output ports in turn, output `j` getting id `first_id + j`: an
/// output joins the first device of the same name that has no output yet,
/// else becomes a device of its own.
pub open spec fn spec_add_outputs(ds: Seq<DeviceSpec>, outputs: Seq<Seq<char>>, first_id: int) -> Seq<DeviceSpec>
    decreases outputs.len(),
{
    if outputs.len() == 0 {
        ds
    } else {
        let before = spec_add_outputs(ds, outputs.drop_last(), first_id);
        let name = outputs.last();
        let id = (first_id + outputs.len() - 1) as usize;
        match find_open_device(before, name, 0) {
            Some(k) => before.update(
                k,
                DeviceSpec { outputs: before[k].outputs.push((id, name)), ..before[k] },
            ),
            None => before.push(DeviceSpec { name, inputs: Seq::empty(), outputs: seq![(id, name)] }),
        }
    }
}

/// The devices that enumerated port names make.
pub open spec fn spec_group_devices(inputs: Seq<Seq<char>>, outputs: Seq<Seq<char>>) -> Seq<DeviceSpec> {
    spec_add_outputs(spec_input_devices(inputs), outputs, inputs.len() as int)
}

/// The abstract values of devices.
pub open spec fn devices_view(ds: Seq<MidiDevice>) -> Seq<DeviceSpec> {
    ds.map_values(|d: MidiDevice| d@)
}

/// The names of a list of strings.
pub open spec fn names_view(ns: Seq<String>) -> Seq<Seq<char>> {
    ns.map_values(|s: String| s@)
}

/// Groups enumerated port names into devices: each input port becomes a
/// device; each output port joins the first same-named device that has no
/// output yet, or becomes a device of its own. Port ids count inputs
/// first, then outputs.
pub fn group_devices(input_names: &Vec<String>, output_names: &Vec<String>) -> (devices: Vec<MidiDevice>)
    requires
        input_names@.len() + output_names@.len() <= usize::MAX,
    ensures
        devices_view(devices@) == spec_group_devices(names_view(input_names@), names_view(output_names@)),
        forall|i: int| 0 <= i < devices@.len() ==> all_direction(#[trigger] devices@[i].inputs@, PortDirection::Input)
            && all_direction(devices@[i].outputs@, PortDirection::Output),
{
    let ghost ins = names_view(input_names@);
    let ghost outs = names_view(output_names@);
    let mut devices: Vec<MidiDevice> = Vec::new();
    let mut next_id: usize = 0;
    let mut i: usize = 0;
    while i < input_names.len()
        invariant
            i <= input_names@.len(),
            ins == names_view(input_names@),
            input_names@.len() + output_names@.len() <= usize::MAX,
            next_id == i,
            ins.len() == input_names@.len(),
            devices@.len() == i,
            forall|k: int| 0 <= k < i ==> #[trigger] devices@[k]@ == spec_input_devices(ins)[k],
            forall|k: int| 0 <= k < devices@.len() ==> all_direction(#[trigger] devices@[k].inputs@, PortDirection::Input)
                && all_direction(devices@[k].outputs@, PortDirection::Output),
        decreases input_names@.len() - i,
    {
        let name = input_names[i].clone();
        let port = MidiPort::new(PortId::new(next_id), name.as_str(), PortDirection::Input);
        let ghost prev = devices@;
        let mut inputs: Vec<MidiPort> = Vec::new();
        inputs.push(port);
        let dev = MidiDevice { name, inputs, outputs: Vec::new() };
        proof {
            assert(ports_view(dev.inputs@) =~= seq![(i as usize, ins[i as int])]);
            assert(ports_view(dev.outputs@) =~= Seq::<(usize, Seq<char>)>::empty());
        }
        devices.push(dev);
        next_id += 1;
        i += 1;
        proof {
            assert(devices@ == prev.push(dev));
            assert(dev@ == spec_input_devices(ins)[i - 1]) by {
                assert(ins[i - 1] == input_names@[i - 1]@);
            }
            assert forall|k: int| 0 <= k < i implies #[trigger] devices@[k]@ == spec_input_devices(ins)[k] by {
                if k < i - 1 {
                    assert(devices@[k] == prev[k]);
                }
            }
            assert forall|q: int| 0 <= q < devices@.len() implies all_direction(#[trigger] devices@[q].inputs@, PortDirection::Input)
                && all_direction(devices@[q].outputs@, PortDirection::Output) by {
                if q < i - 1 {
                    assert(devices@[q] == prev[q]);
                } else {
                    assert(devices@[q] == dev);
                }
            }
        }
    }
    proof {
        assert(devices_view(devices@) =~= spec_input_devices(ins));
    }
    let ghost base = devices_view(devices@);
    let mut j: usize = 0;
    while j < output_names.len()
        invariant
            j <= output_names@.len(),
            outs == names_view(output_names@),
            input_names@.len() + output_names@.len() <= usize::MAX,
            next_id == input_names@.len() + j,
            base == spec_input_devices(ins),
            ins.len() == input_names@.len(),
            devices_view(devices@) == spec_add_outputs(base, outs.take(j as int), ins.len() as int),
            forall|k: int| 0 <= k < devices@.len() ==> all_direction(#[trigger] devices@[k].inputs@, PortDirection::Input)
                && all_direction(devices@[k].outputs@, PortDirection::Output),
        decreases output_names@.len() - j,
    {
        let name = output_names[j].clone();
        let port = MidiPort::new(PortId::new(next_id), name.as_str(), PortDirection::Output);
        let ghost before = devices_view(devices@);
        proof {
            assert(outs.take(j + 1).drop_last() =~= outs.take(j as int));
        }
        let mut k: usize = 0;
        while k < devices.len() && !(str_eq(devices[k].name.as_str(), name.as_str()) && devices[k].outputs.len()
            == 0)
            invariant
                k <= devices@.len(),
                before == devices_view(devices@),
                find_open_device(before, name@, 0) == find_open_device(before, name@, k as int),
            decreases devices@.len() - k,
        {
            k += 1;
        }
        if k < devices.len() {
            let ghost old_devs = devices@;
            devices[k].outputs.push(port);
            proof {
                assert(devices@[k as int].outputs@ == old_devs[k as int].outputs@.push(port));
                assert(ports_view(devices@[k as int].outputs@) =~= ports_view(old_devs[k as int].outputs@).push(
                    (next_id, name@),
                ));
                assert(devices_view(devices@) =~= before.update(
                    k as int,
                    DeviceSpec { outputs: before[k as int].outputs.push((next_id, name@)), ..before[k as int] },
                ));
                assert forall|q: int| 0 <= q < devices@.len() implies all_direction(#[trigger] devices@[q].inputs@, PortDirection::Input)
                    && all_direction(devices@[q].outputs@, PortDirection::Output) by {
                    if q != k {
                        assert(devices@[q] == old_devs[q]);
                    } else {
                        assert(devices@[q].inputs == old_devs[q].inputs);
                        assert(all_direction(old_devs[q].outputs@, PortDirection::Output));
                        assert forall|r: int| 0 <= r < devices@[q].outputs@.len() implies #[trigger] devices@[q].outputs@[r].direction
                            == PortDirection::Output by {
                            if r < old_devs[q].outputs@.len() {
                                assert(devices@[q].outputs@[r] == old_devs[q].outputs@[r]);
                            }
                        }
                    }
                }
            }
        } else {
            let mut outputs: Vec<MidiPort> = Vec::new();
            outputs.push(port);
            let dev = MidiDevice { name: name.clone(), inputs: Vec::new(), outputs };
            proof {
                assert(ports_view(dev.outputs@) =~= seq![(next_id, name@)]);
                assert(ports_view(dev.inputs@) =~= Seq::<(usize, Seq<char>)>::empty());
            }
            let ghost old_devs = devices@;
            devices.push(dev);
            proof {
                assert forall|q: int| 0 <= q < devices@.len() implies all_direction(#[trigger] devices@[q].inputs@, PortDirection::Input)
                    && all_direction(devices@[q].outputs@, PortDirection::Output) by {
                    if q < old_devs.len() {
                        assert(devices@[q] == old_devs[q]);
                    } else {
                        assert(devices@[q] == dev);
                    }
                }
                assert(devices_view(devices@) =~= before.push(
                    DeviceSpec { name: name@, inputs: Seq::empty(), outputs: seq![(next_id, name@)] },
                ));
            }
        }
        next_id += 1;
        j += 1;
    }
    proof {
        assert(outs.take(outs.len() as int) =~= outs);
    }
    devices
}

/// Whether two strings are equal.
fn str_eq(a: &str, b: &str) -> (r: bool)
    ensures
        r == (a@ == b@),
{
    let x = crate::text::chars_of(a);
    let y = crate::text::chars_of(b);
    if x.len() != y.len() {
        return false;
    }
    let mut i: usize = 0;
    while i < x.len()
        invariant
            x@ == a@,
            y@ == b@,
            x@.len() == y@.len(),
            i <= x@.len(),
            forall|k: int| 0 <= k < i ==> x@[k] == y@[k],
        decreases x@.len() - i,
    {
        if x[i] != y[i] {
            return false;
        }
        i += 1;
    }
    proof {
        assert(x@ =~= y@);
    }
    true
}

} // verus!
