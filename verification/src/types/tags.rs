//! OSC type tag characters.
use vstd::prelude::*;

verus! {

/// `i` — 32-bit integer.
pub const INT: u8 = 0x69;

/// `f` — 32-bit float.
pub const FLOAT: u8 = 0x66;

/// `s` — OSC-string.
pub const STRING: u8 = 0x73;

/// `b` — OSC-blob.
pub const BLOB: u8 = 0x62;

/// `h` — 64-bit integer.
pub const LONG: u8 = 0x68;

/// `t` — OSC-timetag.
pub const TIME: u8 = 0x74;

/// `d` — 64-bit float.
pub const DOUBLE: u8 = 0x64;

/// `S` — symbol (alternate string).
pub const SYMBOL: u8 = 0x53;

/// `c` — ASCII character.
pub const CHAR: u8 = 0x63;

/// `r` — 32-bit RGBA color.
pub const COLOR: u8 = 0x72;

/// `m` — 4-byte MIDI message.
pub const MIDI: u8 = 0x6D;

/// `T` — boolean true.
pub const TRUE: u8 = 0x54;

/// `F` — boolean false.
pub const FALSE: u8 = 0x46;

/// `N` — nil.
pub const NIL: u8 = 0x4E;

/// `I` — infinitum.
pub const INFINITUM: u8 = 0x49;

} // verus!
