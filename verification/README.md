# tpt_av_control

Protocol layers for audio-visual show control — MIDI 1.0, MIDI 2.0
(Universal MIDI Packets), MIDI-CI, MIDI Show Control, MIDI Time Code, OSC,
DMX512, Art-Net and sACN — written in Verus. Every encoder, parser and state
machine in `src/` carries a contract over a mathematical model of its wire
format, and Verus proves the code against it.

## Layout

- `src/` — the verified library.
  - MIDI: `midi1`, `messages`, `ump`, `ump_roundtrip`, `sysex`, `ci`,
    `property` (Property Exchange and Profile Configuration), `msc`, `mtc`,
    `timecode`, `clock` (transport state), `device` (inbound messages and
    device grouping), `port`.
  - OSC: `address` (pattern matching), `types`, `message`, `osc_roundtrip`,
    `bundle`, `bundle_roundtrip`, `dispatch` (routing by pattern).
  - DMX: `dmx`, `universe`, `fixture`, `artnet`, `sacn`, `server`
    (protocol detection, receive state, sequence-numbered sending).
  - Shared: `error`, `text`, `wire`.
- `tests/` — executable tests of the library.
- `app/` — the parts that touch the outside world: UDP sockets for Art-Net,
  sACN and OSC (blocking and tokio), MIDI device I/O through `midir`, an
  in-memory MIDI loopback, and the floating-point parts (tempo, OSC float
  values).

MIDI parameter mapping (`MidiParameterMapper` with its `CcBinding`,
`NoteBinding` and `MappedParameter` types) is not part of this crate: it
maps onto the parameter types of `tpt_av_control_utils`, which is not
available here, and computes in floating point.

## Laws

Beyond the contract of each function, the library proves round-trip laws:
what an encoder writes, the matching parser reads back (MIDI 1.0 bytes, UMP
packets and bytes, MIDI 1.0 → 2.0 → 1.0 conversion, sysex chunking and
reassembly, MIDI-CI, Property Exchange, Profile Configuration, MSC, MTC
quarter and full frames, OSC messages and nested bundles, ArtDmx and sACN
data packets), along with DMX channel and fixture read-back and literal OSC
pattern matching. Each law states the inputs it holds for.

## Trusted code

Four small wrappers around std (`String::push`, `String::from_utf8_lossy`,
`std::str::from_utf8`, `char::from_u32`) carry contracts that Verus takes on
trust; each states only what std documents.
