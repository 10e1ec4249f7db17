//! OSC messages: owned representation, encoding, and the real-time-safe
//! zero-copy parser.
//!
//! Floating-point arguments are held as their IEEE-754 bit patterns
//! (`f32::to_bits` / `f64::to_bits`), which is exactly what goes on the
//! wire.
use vstd::prelude::*;
use vstd::string::StringSliceAdditionalSpecFns;

use crate::error::{invalid_data, ControlError};
use crate::text::str_from_utf8;
use crate::types::tags;
use crate::types::{
    be_u32_at, be_u64_at, padded_into, spec_padded, spec_padded_len, spec_read_cstr,
};
use crate::wire::{be32, be64, push_be32, push_be64, push_repeat, push_slice, repeat_byte, slice_to_vec};

verus! {

/// An OSC argument value.
#[derive(Debug, Clone, PartialEq)]
pub enum OscArg {
    /// `i` — 32-bit integer.
    Int(i32),
    /// `f` — 32-bit float, as its IEEE-754 bit pattern.
    Float(u32),
    /// `s` — OSC-string.
    String(String),
    /// `b` — OSC-blob.
    Blob(Vec<u8>),
    /// `h` — 64-bit integer.
    Long(i64),
    /// `t` — OSC-timetag (64-bit fixed point NTP).
    Time(u64),
    /// `d` — 64-bit float, as its IEEE-754 bit pattern.
    Double(u64),
    /// `S` — symbol; kept as a string.
    Symbol(String),
    /// `c` — ASCII character.
    Char(char),
    /// `r` — 32-bit RGBA color (as `0xRRGGBBAA`).
    Color(u32),
    /// `m` — 4-byte MIDI message (port id, status byte, data1, data2).
    Midi(u32),
    /// `T` / `F` — boolean.
    Bool(bool),
    /// `N` — nil.
    Nil,
    /// `I` — infinitum.
    Inf,
}

/// The abstract value of an OSC argument, owned or borrowed.
pub enum OscArgSpec {
    Int(i32),
    Float(u32),
    Str(Seq<char>),
    Blob(Seq<u8>),
    Long(i64),
    Time(u64),
    Double(u64),
    Symbol(Seq<char>),
    Char(char),
    Color(u32),
    Midi(u32),
    Bool(bool),
    Nil,
    Inf,
}

impl View for OscArg {
    type V = OscArgSpec;

    open spec fn view(&self) -> OscArgSpec {
        match self {
            OscArg::Int(v) => OscArgSpec::Int(*v),
            OscArg::Float(v) => OscArgSpec::Float(*v),
            OscArg::String(s) => OscArgSpec::Str(s@),
            OscArg::Blob(b) => OscArgSpec::Blob(b@),
            OscArg::Long(v) => OscArgSpec::Long(*v),
            OscArg::Time(v) => OscArgSpec::Time(*v),
            OscArg::Double(v) => OscArgSpec::Double(*v),
            OscArg::Symbol(s) => OscArgSpec::Symbol(s@),
            OscArg::Char(c) => OscArgSpec::Char(*c),
            OscArg::Color(v) => OscArgSpec::Color(*v),
            OscArg::Midi(v) => OscArgSpec::Midi(*v),
            OscArg::Bool(b) => OscArgSpec::Bool(*b),
            OscArg::Nil => OscArgSpec::Nil,
            OscArg::Inf => OscArgSpec::Inf,
        }
    }
}

/// The type tag byte of an argument.
pub open spec fn spec_type_tag(a: OscArgSpec) -> u8 {
    match a {
        OscArgSpec::Int(_) => tags::INT,
        OscArgSpec::Float(_) => tags::FLOAT,
        OscArgSpec::Str(_) => tags::STRING,
        OscArgSpec::Blob(_) => tags::BLOB,
        OscArgSpec::Long(_) => tags::LONG,
        OscArgSpec::Time(_) => tags::TIME,
        OscArgSpec::Double(_) => tags::DOUBLE,
        OscArgSpec::Symbol(_) => tags::SYMBOL,
        OscArgSpec::Char(_) => tags::CHAR,
        OscArgSpec::Color(_) => tags::COLOR,
        OscArgSpec::Midi(_) => tags::MIDI,
        OscArgSpec::Bool(true) => tags::TRUE,
        OscArgSpec::Bool(false) => tags::FALSE,
        OscArgSpec::Nil => tags::NIL,
        OscArgSpec::Inf => tags::INFINITUM,
    }
}

/// The type tag bytes of the arguments, in order.
pub open spec fn spec_tag_bytes(args: Seq<OscArgSpec>) -> Seq<u8> {
    args.map_values(|a: OscArgSpec| spec_type_tag(a))
}

/// The wire bytes of one argument.
pub open spec fn spec_encode_arg(a: OscArgSpec) -> Seq<u8> {
    match a {
        OscArgSpec::Int(v) => be32(v as u32),
        OscArgSpec::Float(bits) => be32(bits),
        OscArgSpec::Str(s) => spec_padded(vstd::utf8::encode_utf8(s)),
        OscArgSpec::Symbol(s) => spec_padded(vstd::utf8::encode_utf8(s)),
        OscArgSpec::Blob(b) => be32(b.len() as u32) + b + repeat_byte(
            0,
            (spec_padded_len(b.len() as int) - b.len()) as nat,
        ),
        OscArgSpec::Long(v) => be64(v as u64),
        OscArgSpec::Time(v) => be64(v),
        OscArgSpec::Double(bits) => be64(bits),
        OscArgSpec::Char(c) => be32(c as u32),
        OscArgSpec::Color(v) => be32(v),
        OscArgSpec::Midi(v) => be32(v),
        OscArgSpec::Bool(_) => Seq::empty(),
        OscArgSpec::Nil => Seq::empty(),
        OscArgSpec::Inf => Seq::empty(),
    }
}

/// The wire bytes of the arguments, in order.
pub open spec fn spec_encode_args(args: Seq<OscArgSpec>) -> Seq<u8>
    decreases args.len(),
{
    if args.len() == 0 {
        Seq::empty()
    } else {
        spec_encode_args(args.drop_last()) + spec_encode_arg(args.last())
    }
}

/// The wire bytes of a message: its padded address, its padded type tag
/// string (`,` then one tag per argument), then the arguments.
pub open spec fn spec_encode_message(address: Seq<char>, args: Seq<OscArgSpec>) -> Seq<u8> {
    spec_padded(vstd::utf8::encode_utf8(address)) + spec_padded(seq![0x2Cu8] + spec_tag_bytes(args))
        + spec_encode_args(args)
}

/// An argument whose strings and blobs are small enough to encode.
pub open spec fn arg_encodable(a: OscArgSpec) -> bool {
    match a {
        OscArgSpec::Str(s) => vstd::utf8::encode_utf8(s).len() <= usize::MAX - 4,
        OscArgSpec::Symbol(s) => vstd::utf8::encode_utf8(s).len() <= usize::MAX - 4,
        OscArgSpec::Blob(b) => b.len() <= usize::MAX - 4,
        _ => true,
    }
}

/// A message small enough to encode: its address, its type tags and each
/// argument fit the machine's sizes.
pub open spec fn message_encodable(address: Seq<char>, args: Seq<OscArgSpec>) -> bool {
    &&& vstd::utf8::encode_utf8(address).len() <= usize::MAX - 4
    &&& args.len() <= usize::MAX - 5
    &&& forall|i: int| 0 <= i < args.len() ==> #[trigger] arg_encodable(args[i])
}

impl OscArg {
    /// The OSC type tag character for this value.
    pub fn type_tag(&self) -> (c: char)
        ensures
            c as u8 == spec_type_tag(self@),
            (c as u32) < 0x80,
    {
        match self {
            OscArg::Int(_) => 'i',
            OscArg::Float(_) => 'f',
            OscArg::String(_) => 's',
            OscArg::Blob(_) => 'b',
            OscArg::Long(_) => 'h',
            OscArg::Time(_) => 't',
            OscArg::Double(_) => 'd',
            OscArg::Symbol(_) => 'S',
            OscArg::Char(_) => 'c',
            OscArg::Color(_) => 'r',
            OscArg::Midi(_) => 'm',
            OscArg::Bool(true) => 'T',
            OscArg::Bool(false) => 'F',
            OscArg::Nil => 'N',
            OscArg::Inf => 'I',
        }
    }

    /// The type tag byte.
    fn tag_byte(&self) -> (b: u8)
        ensures
            b == spec_type_tag(self@),
    {
        match self {
            OscArg::Int(_) => tags::INT,
            OscArg::Float(_) => tags::FLOAT,
            OscArg::String(_) => tags::STRING,
            OscArg::Blob(_) => tags::BLOB,
            OscArg::Long(_) => tags::LONG,
            OscArg::Time(_) => tags::TIME,
            OscArg::Double(_) => tags::DOUBLE,
            OscArg::Symbol(_) => tags::SYMBOL,
            OscArg::Char(_) => tags::CHAR,
            OscArg::Color(_) => tags::COLOR,
            OscArg::Midi(_) => tags::MIDI,
            OscArg::Bool(true) => tags::TRUE,
            OscArg::Bool(false) => tags::FALSE,
            OscArg::Nil => tags::NIL,
            OscArg::Inf => tags::INFINITUM,
        }
    }

    /// A copy of the argument.
    pub fn duplicate(&self) -> (r: OscArg)
        ensures
            r@ == self@,
    {
        match self {
            OscArg::Int(v) => OscArg::Int(*v),
            OscArg::Float(v) => OscArg::Float(*v),
            OscArg::String(s) => OscArg::String(s.clone()),
            OscArg::Blob(b) => {
                let c = slice_to_vec(b.as_slice(), 0, b.len());
                proof {
                    assert(c@ =~= b@);
                }
                OscArg::Blob(c)
            },
            OscArg::Long(v) => OscArg::Long(*v),
            OscArg::Time(v) => OscArg::Time(*v),
            OscArg::Double(v) => OscArg::Double(*v),
            OscArg::Symbol(s) => OscArg::Symbol(s.clone()),
            OscArg::Char(c) => OscArg::Char(*c),
            OscArg::Color(v) => OscArg::Color(*v),
            OscArg::Midi(v) => OscArg::Midi(*v),
            OscArg::Bool(b) => OscArg::Bool(*b),
            OscArg::Nil => OscArg::Nil,
            OscArg::Inf => OscArg::Inf,
        }
    }
}

/// The views of a list of arguments.
pub open spec fn args_view(args: Seq<OscArg>) -> Seq<OscArgSpec> {
    args.map_values(|a: OscArg| a@)
}

/// Appends the wire bytes of one argument.
fn encode_arg(buf: &mut Vec<u8>, arg: &OscArg)
    requires
        arg_encodable(arg@),
    ensures
        final(buf)@ == old(buf)@ + spec_encode_arg(arg@),
{
    match arg {
        OscArg::Int(v) => push_be32(buf, *v as u32),
        OscArg::Float(bits) => push_be32(buf, *bits),
        OscArg::String(s) => padded_into(buf, s.as_str().as_bytes()),
        OscArg::Symbol(s) => padded_into(buf, s.as_str().as_bytes()),
        OscArg::Blob(b) => {
            push_be32(buf, b.len() as u32);
            let pad = crate::types::padded_len(b.len()) - b.len();
            push_slice(buf, b.as_slice());
            push_repeat(buf, 0, pad);
            proof {
                assert(final(buf)@ =~= old(buf)@ + spec_encode_arg(arg@));
            }
        },
        OscArg::Long(v) => push_be64(buf, *v as u64),
        OscArg::Time(v) => push_be64(buf, *v),
        OscArg::Double(bits) => push_be64(buf, *bits),
        OscArg::Char(c) => push_be32(buf, *c as u32),
        OscArg::Color(v) => push_be32(buf, *v),
        OscArg::Midi(v) => push_be32(buf, *v),
        OscArg::Bool(_) => {
            proof {
                assert(final(buf)@ =~= old(buf)@ + spec_encode_arg(arg@));
            }
        },
        OscArg::Nil => {
            proof {
                assert(final(buf)@ =~= old(buf)@ + spec_encode_arg(arg@));
            }
        },
        OscArg::Inf => {
            proof {
                assert(final(buf)@ =~= old(buf)@ + spec_encode_arg(arg@));
            }
        },
    }
}

/// Whether `address` is a valid outgoing address: it starts with `/` and
/// is printable ASCII (0x21..=0x7E) throughout, so it has no spaces.
pub open spec fn spec_valid_address(bytes: Seq<u8>) -> bool {
    bytes.len() > 0 && bytes[0] == 0x2F && forall|i: int| 0 <= i < bytes.len() ==> 0x21 <= #[trigger] bytes[i]
        <= 0x7E
}

/// Validates an outgoing OSC address: starts with `/`, printable ASCII,
/// no spaces.
pub fn validate_address(address: &str) -> (r: Result<(), ControlError>)
    ensures
        spec_valid_address(address.spec_bytes()) <==> r is Ok,
        r matches Err(ControlError::InvalidAddress(s)) ==> s@ == address@,
            r matches Err(e) ==> e is InvalidAddress,
{
    let bytes = address.as_bytes();
    let mut ok = bytes.len() > 0 && bytes[0] == 0x2F;
    let mut i: usize = 0;
    while i < bytes.len()
        invariant
            i <= bytes@.len(),
            ok == (bytes@.len() > 0 && bytes@[0] == 0x2F && forall|j: int| 0 <= j < i ==> 0x21 <= #[trigger] bytes@[j]
                <= 0x7E),
        decreases bytes@.len() - i,
    {
        if !(0x21 <= bytes[i] && bytes[i] <= 0x7E) {
            ok = false;
        }
        i += 1;
    }
    if !ok {
        return Err(ControlError::InvalidAddress(address.to_string()));
    }
    Ok(())
}

/// An OSC message.
///
/// The type tag string (the leading `,` plus one tag per argument) is
/// derived from the arguments; access it with [`OscMessage::type_tags`].
#[derive(Debug, Clone, PartialEq)]
pub struct OscMessage {
    /// OSC address (e.g. `/track/1/volume`).
    pub address: String,
    /// Arguments in wire order.
    pub arguments: Vec<OscArg>,
}

/// The abstract value of an [`OscMessage`].
pub struct OscMessageSpec {
    pub address: Seq<char>,
    pub arguments: Seq<OscArgSpec>,
}

impl View for OscMessage {
    type V = OscMessageSpec;

    open spec fn view(&self) -> OscMessageSpec {
        OscMessageSpec { address: self.address@, arguments: args_view(self.arguments@) }
    }
}

/// Copies the arguments of a slice.
fn copy_args(arguments: &[OscArg]) -> (v: Vec<OscArg>)
    ensures
        args_view(v@) == args_view(arguments@),
{
    let mut v: Vec<OscArg> = Vec::new();
    let mut i: usize = 0;
    while i < arguments.len()
        invariant
            i <= arguments@.len(),
            v@.len() == i,
            forall|j: int| 0 <= j < i ==> #[trigger] v@[j]@ == arguments@[j]@,
        decreases arguments@.len() - i,
    {
        let a = arguments[i].duplicate();
        v.push(a);
        i += 1;
    }
    proof {
        assert(args_view(v@) =~= args_view(arguments@));
    }
    v
}

impl OscMessage {
    /// Creates a message, validating the address.
    pub fn new(address: &str, arguments: &[OscArg]) -> (r: Result<OscMessage, ControlError>)
        ensures
            spec_valid_address(address.spec_bytes()) <==> r is Ok,
            r matches Ok(m) ==> m@ == (OscMessageSpec { address: address@, arguments: args_view(arguments@) }),
            r matches Err(ControlError::InvalidAddress(s)) ==> s@ == address@,
            r matches Err(e) ==> e is InvalidAddress,
    {
        match validate_address(address) {
            Err(e) => Err(e),
            Ok(()) => Ok(OscMessage { address: address.to_string(), arguments: copy_args(arguments) }),
        }
    }

    /// A copy of the message.
    pub fn duplicate(&self) -> (m: OscMessage)
        ensures
            m@ == self@,
    {
        OscMessage { address: self.address.clone(), arguments: copy_args(self.arguments.as_slice()) }
    }

    /// Creates a message without address validation (for internal use where
    /// the address is already known good).
    pub fn new_unchecked(address: &str, arguments: Vec<OscArg>) -> (m: OscMessage)
        ensures
            m.address@ == address@,
            m.arguments == arguments,
    {
        OscMessage { address: address.to_string(), arguments }
    }

    /// The type tag string including the leading comma, e.g. `,iff`.
    pub fn type_tags(&self) -> (s: String)
        ensures
            s@.len() == self.arguments@.len() + 1,
            s@[0] == ',',
            forall|i: int| 0 <= i < self.arguments@.len() ==> #[trigger] s@[i + 1] as u8 == spec_type_tag(
                self.arguments@[i]@,
            ),
    {
        let mut tags = String::new();
        crate::text::push_char(&mut tags, ',');
        let mut i: usize = 0;
        while i < self.arguments.len()
            invariant
                i <= self.arguments@.len(),
                tags@.len() == i + 1,
                tags@[0] == ',',
                forall|j: int| 0 <= j < i ==> #[trigger] tags@[j + 1] as u8 == spec_type_tag(self.arguments@[j]@),
            decreases self.arguments@.len() - i,
        {
            let c = self.arguments[i].type_tag();
            crate::text::push_char(&mut tags, c);
            i += 1;
        }
        tags
    }

    /// Encodes the message into a new byte buffer.
    pub fn encode(&self) -> (buf: Vec<u8>)
        requires
            message_encodable(self@.address, self@.arguments),
        ensures
            buf@ == spec_encode_message(self@.address, self@.arguments),
    {
        let mut buf: Vec<u8> = Vec::new();
        self.encode_into(&mut buf);
        proof {
            assert(buf@ =~= spec_encode_message(self@.address, self@.arguments));
        }
        buf
    }

    /// Encodes the message, appending to `buf`.
    pub fn encode_into(&self, buf: &mut Vec<u8>)
        requires
            message_encodable(self@.address, self@.arguments),
        ensures
            final(buf)@ == old(buf)@ + spec_encode_message(self@.address, self@.arguments),
    {
        let ghost args = self@.arguments;
        padded_into(buf, self.address.as_str().as_bytes());
        let mut tag_bytes: Vec<u8> = Vec::new();
        tag_bytes.push(0x2C);
        let mut i: usize = 0;
        while i < self.arguments.len()
            invariant
                i <= self.arguments@.len(),
                args == args_view(self.arguments@),
                tag_bytes@ == seq![0x2Cu8] + spec_tag_bytes(args.take(i as int)),
            decreases self.arguments@.len() - i,
        {
            let t = self.arguments[i].tag_byte();
            tag_bytes.push(t);
            i += 1;
            proof {
                assert(tag_bytes@ =~= seq![0x2Cu8] + spec_tag_bytes(args.take(i as int)));
            }
        }
        proof {
            assert(args.take(args.len() as int) =~= args);
        }
        padded_into(buf, tag_bytes.as_slice());
        let ghost head = buf@;
        let mut k: usize = 0;
        while k < self.arguments.len()
            invariant
                k <= self.arguments@.len(),
                args == args_view(self.arguments@),
                message_encodable(self@.address, self@.arguments),
                buf@ == head + spec_encode_args(args.take(k as int)),
            decreases self.arguments@.len() - k,
        {
            proof {
                assert(arg_encodable(args[k as int]));
            }
            encode_arg(buf, &self.arguments[k]);
            k += 1;
            proof {
                assert(args.take(k as int).drop_last() =~= args.take(k - 1));
                assert(buf@ =~= head + spec_encode_args(args.take(k as int)));
            }
        }
        proof {
            assert(final(buf)@ =~= old(buf)@ + spec_encode_message(self@.address, self@.arguments));
        }
    }
}

/// Whether `v` is a Unicode scalar value, i.e. a `char`.
pub open spec fn is_scalar(v: u32) -> bool {
    v <= 0xD7FF || (0xE000 <= v && v <= 0x10FFFF)
}

/// Reading one argument of type `tag` at `off`: its value and the offset
/// after it, or `None` when it is truncated, malformed or of an unknown
/// type. The data-free types `T`, `F`, `N` and `I` carry no bytes, so they
/// leave the offset where it is.
pub open spec fn spec_read_arg(d: Seq<u8>, off: int, tag: u8) -> Option<(OscArgSpec, int)> {
    if tag == tags::INT || tag == tags::FLOAT || tag == tags::COLOR || tag == tags::MIDI || tag
        == tags::CHAR {
        if off + 4 > d.len() {
            None
        } else {
            let v = be_u32_at(d, off);
            if tag == tags::INT {
                Some((OscArgSpec::Int(v as i32), off + 4))
            } else if tag == tags::FLOAT {
                Some((OscArgSpec::Float(v), off + 4))
            } else if tag == tags::COLOR {
                Some((OscArgSpec::Color(v), off + 4))
            } else if tag == tags::MIDI {
                Some((OscArgSpec::Midi(v), off + 4))
            } else if is_scalar(v) {
                Some((OscArgSpec::Char(v as char), off + 4))
            } else {
                None
            }
        }
    } else if tag == tags::LONG || tag == tags::TIME || tag == tags::DOUBLE {
        if off + 8 > d.len() {
            None
        } else {
            let v = be_u64_at(d, off);
            if tag == tags::LONG {
                Some((OscArgSpec::Long(v as i64), off + 8))
            } else if tag == tags::TIME {
                Some((OscArgSpec::Time(v), off + 8))
            } else {
                Some((OscArgSpec::Double(v), off + 8))
            }
        }
    } else if tag == tags::STRING || tag == tags::SYMBOL {
        if off > d.len() {
            None
        } else {
            match spec_read_cstr(d, off) {
                None => None,
                Some((bytes, next)) => {
                    if !vstd::utf8::valid_utf8(bytes) {
                        None
                    } else if tag == tags::STRING {
                        Some((OscArgSpec::Str(vstd::utf8::decode_utf8(bytes)), next))
                    } else {
                        Some((OscArgSpec::Symbol(vstd::utf8::decode_utf8(bytes)), next))
                    }
                },
            }
        }
    } else if tag == tags::BLOB {
        if off + 4 > d.len() {
            None
        } else {
            let size = be_u32_at(d, off) as int;
            let start = off + 4;
            if start + size > d.len() || start + spec_padded_len(size) > d.len() {
                None
            } else {
                Some((OscArgSpec::Blob(d.subrange(start, start + size)), start + spec_padded_len(size)))
            }
        }
    } else if tag == tags::TRUE {
        Some((OscArgSpec::Bool(true), off))
    } else if tag == tags::FALSE {
        Some((OscArgSpec::Bool(false), off))
    } else if tag == tags::NIL {
        Some((OscArgSpec::Nil, off))
    } else if tag == tags::INFINITUM {
        Some((OscArgSpec::Inf, off))
    } else {
        None
    }
}

/// Reading the arguments of types `tag_bytes` in turn from `off`: their
/// values and the offset after the last, or `None` when one fails.
pub open spec fn spec_read_args(d: Seq<u8>, off: int, tag_bytes: Seq<u8>) -> Option<(Seq<OscArgSpec>, int)>
    decreases tag_bytes.len(),
{
    if tag_bytes.len() == 0 {
        Some((Seq::empty(), off))
    } else {
        match spec_read_args(d, off, tag_bytes.drop_last()) {
            None => None,
            Some((args, o)) => match spec_read_arg(d, o, tag_bytes.last()) {
                None => None,
                Some((a, o2)) => Some((args.push(a), o2)),
            },
        }
    }
}

/// If all the arguments read, every prefix reads to the same values.
pub proof fn lemma_read_args_prefix(d: Seq<u8>, off: int, tag_bytes: Seq<u8>, i: int)
    requires
        spec_read_args(d, off, tag_bytes) is Some,
        0 <= i <= tag_bytes.len(),
    ensures
        spec_read_args(d, off, tag_bytes.take(i)) is Some,
        spec_read_args(d, off, tag_bytes.take(i)).unwrap().0 == spec_read_args(d, off, tag_bytes).unwrap().0.take(i),
        spec_read_args(d, off, tag_bytes).unwrap().0.len() == tag_bytes.len(),
    decreases tag_bytes.len(),
{
    if tag_bytes.len() > 0 {
        let rest = tag_bytes.drop_last();
        if i == tag_bytes.len() {
            lemma_read_args_prefix(d, off, rest, rest.len() as int);
            assert(tag_bytes.take(i) =~= tag_bytes);
            assert(spec_read_args(d, off, tag_bytes).unwrap().0.take(i) =~= spec_read_args(d, off, tag_bytes).unwrap().0);
        } else {
            lemma_read_args_prefix(d, off, rest, i);
            lemma_read_args_prefix(d, off, rest, rest.len() as int);
            assert(rest.take(i) =~= tag_bytes.take(i));
            assert(spec_read_args(d, off, tag_bytes).unwrap().0.take(i) =~= spec_read_args(d, off, rest).unwrap().0.take(i));
        }
    } else {
        assert(tag_bytes.take(i) =~= tag_bytes);
    }
}

/// A borrowed OSC argument produced by the zero-copy parser.
#[derive(Debug, Clone, PartialEq)]
pub enum OscArgRef<'a> {
    /// `i` — 32-bit integer.
    Int(i32),
    /// `f` — 32-bit float, as its IEEE-754 bit pattern.
    Float(u32),
    /// `s` — OSC-string, borrowed.
    Str(&'a str),
    /// `b` — OSC-blob, borrowed (length prefix already consumed).
    Blob(&'a [u8]),
    /// `h` — 64-bit integer.
    Long(i64),
    /// `t` — OSC-timetag.
    Time(u64),
    /// `d` — 64-bit float, as its IEEE-754 bit pattern.
    Double(u64),
    /// `S` — symbol, borrowed.
    Symbol(&'a str),
    /// `c` — ASCII character.
    Char(char),
    /// `r` — 32-bit RGBA color.
    Color(u32),
    /// `m` — 4-byte MIDI message.
    Midi(u32),
    /// `T` / `F` — boolean.
    Bool(bool),
    /// `N` — nil.
    Nil,
    /// `I` — infinitum.
    Inf,
}

impl<'a> View for OscArgRef<'a> {
    type V = OscArgSpec;

    open spec fn view(&self) -> OscArgSpec {
        match self {
            OscArgRef::Int(v) => OscArgSpec::Int(*v),
            OscArgRef::Float(v) => OscArgSpec::Float(*v),
            OscArgRef::Str(s) => OscArgSpec::Str(s@),
            OscArgRef::Blob(b) => OscArgSpec::Blob(b@),
            OscArgRef::Long(v) => OscArgSpec::Long(*v),
            OscArgRef::Time(v) => OscArgSpec::Time(*v),
            OscArgRef::Double(v) => OscArgSpec::Double(*v),
            OscArgRef::Symbol(s) => OscArgSpec::Symbol(s@),
            OscArgRef::Char(c) => OscArgSpec::Char(*c),
            OscArgRef::Color(v) => OscArgSpec::Color(*v),
            OscArgRef::Midi(v) => OscArgSpec::Midi(*v),
            OscArgRef::Bool(b) => OscArgSpec::Bool(*b),
            OscArgRef::Nil => OscArgSpec::Nil,
            OscArgRef::Inf => OscArgSpec::Inf,
        }
    }
}

impl<'a> OscArgRef<'a> {
    /// The OSC type tag character for this value.
    pub fn type_tag(&self) -> (c: char)
        ensures
            c as u8 == spec_type_tag(self@),
            (c as u32) < 0x80,
    {
        match self {
            OscArgRef::Int(_) => 'i',
            OscArgRef::Float(_) => 'f',
            OscArgRef::Str(_) => 's',
            OscArgRef::Blob(_) => 'b',
            OscArgRef::Long(_) => 'h',
            OscArgRef::Time(_) => 't',
            OscArgRef::Double(_) => 'd',
            OscArgRef::Symbol(_) => 'S',
            OscArgRef::Char(_) => 'c',
            OscArgRef::Color(_) => 'r',
            OscArgRef::Midi(_) => 'm',
            OscArgRef::Bool(true) => 'T',
            OscArgRef::Bool(false) => 'F',
            OscArgRef::Nil => 'N',
            OscArgRef::Inf => 'I',
        }
    }

    /// Converts to an owned argument (allocates).
    pub fn to_owned_arg(&self) -> (a: OscArg)
        ensures
            a@ == self@,
    {
        match self {
            OscArgRef::Int(v) => OscArg::Int(*v),
            OscArgRef::Float(v) => OscArg::Float(*v),
            OscArgRef::Str(s) => OscArg::String((*s).to_string()),
            OscArgRef::Blob(b) => {
                let c = slice_to_vec(b, 0, b.len());
                proof {
                    assert(c@ =~= b@);
                }
                OscArg::Blob(c)
            },
            OscArgRef::Long(v) => OscArg::Long(*v),
            OscArgRef::Time(v) => OscArg::Time(*v),
            OscArgRef::Double(v) => OscArg::Double(*v),
            OscArgRef::Symbol(s) => OscArg::Symbol((*s).to_string()),
            OscArgRef::Char(c) => OscArg::Char(*c),
            OscArgRef::Color(v) => OscArg::Color(*v),
            OscArgRef::Midi(v) => OscArg::Midi(*v),
            OscArgRef::Bool(v) => OscArg::Bool(*v),
            OscArgRef::Nil => OscArg::Nil,
            OscArgRef::Inf => OscArg::Inf,
        }
    }
}

/// The character with scalar value `v`, if `v` is one.
///
/// Calls `char::from_u32`, which std documents as returning `None` exactly
/// for surrogates (0xD800..=0xDFFF) and values above 0x10FFFF.
#[verifier::external_body]
fn char_from_u32(v: u32) -> (r: Option<char>)
    ensures
        r is Some <==> is_scalar(v),
        r matches Some(c) ==> c as u32 == v,
{
    char::from_u32(v)
}

/// A string argument's bytes read at `offset`, as a `str`.
fn read_str_arg<'a>(data: &'a [u8], offset: usize) -> (r: Result<(&'a str, usize), ControlError>)
    ensures
        ({
            let s = if offset > data@.len() {
                None
            } else {
                spec_read_cstr(data@, offset as int)
            };
            match s {
                None => r is Err,
                Some((bytes, next)) => if vstd::utf8::valid_utf8(bytes) {
                    r matches Ok((t, n)) && t@ == vstd::utf8::decode_utf8(bytes) && n == next
                } else {
                    r is Err
                },
            }
        }),
        r matches Err(e) ==> e is InvalidData,
{
    if offset > data.len() {
        return Err(invalid_data("string argument past the end of the packet"));
    }
    match crate::types::read_null_terminated(data, offset) {
        Err(e) => Err(e),
        Ok((bytes, next)) => match str_from_utf8(bytes) {
            None => Err(invalid_data("string argument is not UTF-8")),
            Some(s) => Ok((s, next)),
        },
    }
}

/// Reads one argument of type `tag` at `*offset`, advancing `*offset`.
fn read_arg<'a>(data: &'a [u8], offset: &mut usize, tag: u8) -> (r: Result<OscArgRef<'a>, ControlError>)
    requires
        *old(offset) <= data@.len(),
    ensures
        spec_read_arg(data@, *old(offset) as int, tag) is None <==> r is Err,
        r matches Err(e) ==> e is InvalidData,
        r matches Ok(a) ==> spec_read_arg(data@, *old(offset) as int, tag) == Some(
            (a@, *final(offset) as int),
        ),
{
    let off = *offset;
    let len: usize = data.len();
    assert(data@.len() == len as int);
    if tag == tags::INT || tag == tags::FLOAT || tag == tags::COLOR || tag == tags::MIDI || tag
        == tags::CHAR {
        let v = match crate::types::read_u32(data, off) {
            Ok(v) => v,
            Err(e) => {
                return Err(e);
            },
        };
        let a = if tag == tags::INT {
            OscArgRef::Int(v as i32)
        } else if tag == tags::FLOAT {
            OscArgRef::Float(v)
        } else if tag == tags::COLOR {
            OscArgRef::Color(v)
        } else if tag == tags::MIDI {
            OscArgRef::Midi(v)
        } else {
            match char_from_u32(v) {
                Some(c) => {
                    proof {
                        vstd::utf8::char_u32_cast(c, v);
                    }
                    OscArgRef::Char(c)
                },
                None => {
                    return Err(invalid_data("invalid character argument"));
                },
            }
        };
        assert(off + 4 <= data@.len());
        *offset = off + 4;
        Ok(a)
    } else if tag == tags::LONG || tag == tags::TIME || tag == tags::DOUBLE {
        let v = match crate::types::read_u64(data, off) {
            Ok(v) => v,
            Err(e) => {
                return Err(e);
            },
        };
        let a = if tag == tags::LONG {
            OscArgRef::Long(v as i64)
        } else if tag == tags::TIME {
            OscArgRef::Time(v)
        } else {
            OscArgRef::Double(v)
        };
        assert(off + 8 <= data@.len());
        *offset = off + 8;
        Ok(a)
    } else if tag == tags::STRING || tag == tags::SYMBOL {
        match read_str_arg(data, off) {
            Err(e) => Err(e),
            Ok((s, next)) => {
                *offset = next;
                if tag == tags::STRING {
                    Ok(OscArgRef::Str(s))
                } else {
                    Ok(OscArgRef::Symbol(s))
                }
            },
        }
    } else if tag == tags::BLOB {
        let size = match crate::types::read_u32(data, off) {
            Ok(v) => v as usize,
            Err(e) => {
                return Err(e);
            },
        };
        assert(off + 4 <= data@.len());
        let start = off + 4;
        if size > data.len() - start {
            return Err(invalid_data("blob length overruns packet"));
        }
        let end = start + size;
        let padded: u128 = (size as u128 + 3) / 4 * 4;
        if padded > (data.len() - start) as u128 {
            return Err(invalid_data("blob padding overruns packet"));
        }
        *offset = start + padded as usize;
        Ok(OscArgRef::Blob(vstd::slice::slice_subrange(data, start, end)))
    } else if tag == tags::TRUE {
        Ok(OscArgRef::Bool(true))
    } else if tag == tags::FALSE {
        Ok(OscArgRef::Bool(false))
    } else if tag == tags::NIL {
        Ok(OscArgRef::Nil)
    } else if tag == tags::INFINITUM {
        Ok(OscArgRef::Inf)
    } else {
        Err(invalid_data("unknown OSC type tag"))
    }
}

/// The abstract value of a parsed message: its address, its type tags
/// (without the comma) and its arguments.
pub struct OscMessageRefSpec {
    pub address: Seq<char>,
    pub tags: Seq<u8>,
    pub arguments: Seq<OscArgSpec>,
}

/// The address part of a datagram: its bytes and the offset after them,
/// when it starts with `/` and is NUL-terminated within the data.
pub open spec fn spec_address_part(d: Seq<u8>) -> Option<(Seq<u8>, int)> {
    if d.len() == 0 || d[0] != 0x2F {
        None
    } else {
        spec_read_cstr(d, 0)
    }
}

/// Whether parsing `d` fails at address validation: the address is read
/// and is UTF-8, but is not a valid address.
pub open spec fn spec_bad_address(d: Seq<u8>) -> bool {
    match spec_address_part(d) {
        None => false,
        Some((ab, _)) => vstd::utf8::valid_utf8(ab) && !spec_valid_address(ab),
    }
}

/// What parsing a datagram as a message gives, or `None` when it fails.
pub open spec fn spec_parse_osc(d: Seq<u8>) -> Option<OscMessageRefSpec> {
    match spec_address_part(d) {
        None => None,
        Some((ab, off)) => if !vstd::utf8::valid_utf8(ab) || !spec_valid_address(ab) {
            None
        } else {
            match spec_read_cstr(d, off) {
                None => None,
                Some((tb, after)) => if !vstd::utf8::valid_utf8(tb) || tb.len() == 0 || tb[0] != 0x2C {
                    None
                } else {
                    match spec_read_args(d, after, tb.subrange(1, tb.len() as int)) {
                        None => None,
                        Some((args, _)) => Some(
                            OscMessageRefSpec {
                                address: vstd::utf8::decode_utf8(ab),
                                tags: tb.subrange(1, tb.len() as int),
                                arguments: args,
                            },
                        ),
                    }
                },
            }
        },
    }
}

/// Dropping a leading ASCII byte from valid UTF-8 leaves valid UTF-8 that
/// decodes to the rest of the characters.
proof fn lemma_utf8_drop_ascii(b: Seq<u8>)
    requires
        vstd::utf8::valid_utf8(b),
        b.len() > 0,
        b[0] < 0x80,
    ensures
        vstd::utf8::valid_utf8(b.subrange(1, b.len() as int)),
{
    assert(vstd::utf8::pop_first_scalar(b) =~= b.subrange(1, b.len() as int));
}

/// A parsed OSC message that borrows directly from the packet buffer.
///
/// Produced by [`parse_osc_message`]; performs no allocation, so it is safe
/// to construct and read from real-time audio threads.
#[derive(Debug, Clone, PartialEq)]
pub struct OscMessageRef<'a> {
    data: &'a [u8],
    address: &'a str,
    tags: &'a str,
    args_offset: usize,
}

impl<'a> View for OscMessageRef<'a> {
    type V = OscMessageRefSpec;

    closed spec fn view(&self) -> OscMessageRefSpec {
        OscMessageRefSpec {
            address: self.address@,
            tags: self.tags.spec_bytes(),
            arguments: spec_read_args(self.data@, self.args_offset as int, self.tags.spec_bytes()).unwrap().0,
        }
    }
}

impl<'a> OscMessageRef<'a> {
    /// All arguments read from the borrowed bytes.
    pub closed spec fn wf(&self) -> bool {
        &&& self.args_offset <= self.data@.len()
        &&& self.tags.spec_bytes().len() <= self.data@.len()
        &&& spec_read_args(self.data@, self.args_offset as int, self.tags.spec_bytes()) is Some
    }

    /// There is one argument per type tag.
    pub proof fn lemma_arg_count(&self)
        requires
            self.wf(),
        ensures
            self@.arguments.len() == self@.tags.len(),
    {
        lemma_read_args_prefix(self.data@, self.args_offset as int, self.tags.spec_bytes(), 0);
    }

    /// The message address.
    pub fn address(&self) -> (s: &'a str)
        ensures
            s@ == self@.address,
    {
        self.address
    }

    /// The type tags without the leading comma (e.g. `iff`).
    pub fn type_tags(&self) -> (s: &'a str)
        ensures
            s.spec_bytes() == self@.tags,
    {
        self.tags
    }

    /// The number of arguments.
    pub fn arg_count(&self) -> (n: usize)
        ensures
            n == self@.tags.len(),
    {
        self.tags.as_bytes().len()
    }

    /// Returns the `index`-th argument, parsed on demand from the borrowed
    /// bytes.
    pub fn arg(&self, index: usize) -> (r: Option<OscArgRef<'a>>)
        requires
            self.wf(),
        ensures
            index < self@.tags.len() ==> (r matches Some(a) && a@ == self@.arguments[index as int]),
            index >= self@.tags.len() ==> r is None,
    {
        let tag_bytes = self.tags.as_bytes();
        if index >= tag_bytes.len() {
            return None;
        }
        let ghost tb = self.tags.spec_bytes();
        let ghost d = self.data@;
        proof {
            lemma_read_args_prefix(d, self.args_offset as int, tb, tb.len() as int);
        }
        let mut offset: usize = self.args_offset;
        let mut i: usize = 0;
        while i < tag_bytes.len()
            invariant
                tag_bytes@ == tb,
                self.wf(),
                d == self.data@,
                tb == self.tags.spec_bytes(),
                i <= index < tb.len(),
                spec_read_args(d, self.args_offset as int, tb.take(i as int)) == Some(
                    (self@.arguments.take(i as int), offset as int),
                ),
                offset <= d.len(),
            decreases tb.len() - i,
        {
            proof {
                lemma_read_args_prefix(d, self.args_offset as int, tb, i + 1);
                assert(tb.take(i + 1).drop_last() =~= tb.take(i as int));
                assert(tb.take(i + 1).last() == tb[i as int]);
                lemma_read_arg_advance(d, offset as int, tb[i as int]);
            }
            let ghost before = offset;
            let arg = match read_arg(self.data, &mut offset, tag_bytes[i]) {
                Ok(a) => a,
                Err(_) => {
                    return None;
                },
            };
            proof {
                assert(spec_read_args(d, self.args_offset as int, tb.take(i + 1)) == Some(
                    (self@.arguments.take(i as int).push(arg@), offset as int),
                ));
                assert(self@.arguments.take(i + 1) == self@.arguments.take(i as int).push(arg@));
                assert(self@.arguments.take(i + 1)[i as int] == self@.arguments[i as int]);
            }
            if i == index {
                return Some(arg);
            }
            i += 1;
        }
        None
    }

    /// All arguments, parsed from the borrowed bytes.
    pub fn args(&self) -> (v: Vec<OscArgRef<'a>>)
        requires
            self.wf(),
        ensures
            v@.len() == self@.arguments.len(),
            forall|i: int| 0 <= i < v@.len() ==> #[trigger] v@[i]@ == self@.arguments[i],
    {
        proof {
            self.lemma_arg_count();
        }
        let mut v: Vec<OscArgRef<'a>> = Vec::new();
        let n = self.arg_count();
        let mut i: usize = 0;
        while i < n
            invariant
                self.wf(),
                n == self@.tags.len(),
                self@.arguments.len() == n,
                i <= n,
                v@.len() == i,
                forall|j: int| 0 <= j < i ==> #[trigger] v@[j]@ == self@.arguments[j],
            decreases n - i,
        {
            match self.arg(i) {
                Some(a) => v.push(a),
                None => {
                    return v;
                },
            }
            i += 1;
        }
        v
    }

    /// Converts to an owned [`OscMessage`] (allocates).
    pub fn to_owned(&self) -> (m: OscMessage)
        requires
            self.wf(),
        ensures
            m@.address == self@.address,
            m@.arguments == self@.arguments,
    {
        let refs = self.args();
        let mut arguments: Vec<OscArg> = Vec::new();
        let mut i: usize = 0;
        while i < refs.len()
            invariant
                i <= refs@.len(),
                refs@.len() == self@.arguments.len(),
                forall|j: int| 0 <= j < refs@.len() ==> #[trigger] refs@[j]@ == self@.arguments[j],
                arguments@.len() == i,
                forall|j: int| 0 <= j < i ==> #[trigger] arguments@[j]@ == self@.arguments[j],
            decreases refs@.len() - i,
        {
            arguments.push(refs[i].to_owned_arg());
            i += 1;
        }
        proof {
            assert(args_view(arguments@) =~= self@.arguments);
        }
        OscMessage { address: self.address.to_string(), arguments }
    }
}

/// Reading one argument never moves the offset back, nor past the end of
/// the data (data-free arguments do not move it).
proof fn lemma_read_arg_advance(d: Seq<u8>, off: int, tag: u8)
    requires
        0 <= off,
    ensures
        spec_read_arg(d, off, tag) matches Some((_, next)) ==> off <= next && (off <= d.len() ==> next <= d.len()),
{
    if tag == tags::STRING || tag == tags::SYMBOL {
        if off <= d.len() {
            crate::types::lemma_find_nul(d, off);
        }
    }
}

/// Parses an OSC message from raw bytes without allocating.
///
/// Real-time safe: the returned [`OscMessageRef`] borrows address, type
/// tags, string, and blob data directly from `data`.
pub fn parse_osc_message(data: &[u8]) -> (r: Result<OscMessageRef<'_>, ControlError>)
    requires
    ensures
        spec_parse_osc(data@) is None <==> r is Err,
        r matches Ok(m) ==> m.wf() && spec_parse_osc(data@) == Some(m@),
        r matches Err(e) ==> (if spec_bad_address(data@) {
            e is InvalidAddress
        } else {
            e is InvalidData
        }),
{
    if data.len() == 0 || data[0] != 0x2F {
        return Err(invalid_data("OSC message must start with '/'"));
    }
    let (address_bytes, offset) = match crate::types::read_null_terminated(data, 0) {
        Ok(x) => x,
        Err(e) => {
            return Err(e);
        },
    };
    let address = match str_from_utf8(address_bytes) {
        Some(a) => a,
        None => {
            return Err(invalid_data("address is not UTF-8"));
        },
    };
    proof {
        vstd::utf8::decode_utf8_encode_utf8(address_bytes@);
    }
    match validate_address(address) {
        Ok(()) => {},
        Err(e) => {
            return Err(e);
        },
    }
    let (tag_bytes, after_tags) = match crate::types::read_null_terminated(data, offset) {
        Ok(x) => x,
        Err(e) => {
            return Err(e);
        },
    };
    match str_from_utf8(tag_bytes) {
        Some(_) => {},
        None => {
            return Err(invalid_data("type tags are not ASCII"));
        },
    }
    if tag_bytes.len() == 0 || tag_bytes[0] != 0x2C {
        return Err(invalid_data("type tag string must start with ','"));
    }
    proof {
        lemma_utf8_drop_ascii(tag_bytes@);
    }
    let rest = vstd::slice::slice_subrange(tag_bytes, 1, tag_bytes.len());
    let tags_str = match str_from_utf8(rest) {
        Some(t) => t,
        None => {
            return Err(invalid_data("type tags are not ASCII"));
        },
    };
    proof {
        vstd::utf8::decode_utf8_encode_utf8(rest@);
    }
    let tb = tags_str.as_bytes();
    let ghost d = data@;
    proof {
        crate::types::lemma_find_nul(d, offset as int);
        assert(tag_bytes@.len() <= d.len());
        assert(tb@ == rest@);
        assert(spec_valid_address(address_bytes@));
    }
    let mut check: usize = after_tags;
    let mut i: usize = 0;
    while i < tb.len()
        invariant
            tb@ == rest@,
            tag_bytes@.len() > 0,
            rest@ == tag_bytes@.subrange(1, tag_bytes@.len() as int),
            d == data@,
            spec_address_part(d) == Some((address_bytes@, offset as int)),
            vstd::utf8::valid_utf8(address_bytes@),
            spec_valid_address(address_bytes@),
            spec_read_cstr(d, offset as int) == Some((tag_bytes@, after_tags as int)),
            vstd::utf8::valid_utf8(tag_bytes@),
            tag_bytes@[0] == 0x2C,
            after_tags <= d.len(),
            tb@.len() <= d.len(),
            i <= tb@.len(),
            spec_read_args(d, after_tags as int, tb@.take(i as int)) matches Some((_, o)) && o == check,
            check <= d.len(),
        decreases tb@.len() - i,
    {
        let ghost before = check;
        proof {
            lemma_read_arg_advance(d, check as int, tb@[i as int]);
            assert(tb@.take(i + 1).drop_last() =~= tb@.take(i as int));
        }
        match read_arg(data, &mut check, tb[i]) {
            Ok(_) => {},
            Err(e) => {
                proof {
                    assert(spec_read_arg(d, before as int, tb@[i as int]) is None);
                    assert(spec_read_args(d, after_tags as int, tb@.take(i + 1)) is None);
                    lemma_read_args_none(d, after_tags as int, tb@, i as int);
                    assert(!spec_bad_address(d));
                }
                return Err(e);
            },
        }
        i += 1;
    }
    proof {
        assert(tb@.take(tb@.len() as int) =~= tb@);
    }
    Ok(OscMessageRef { data, address, tags: tags_str, args_offset: after_tags })
}

/// If a prefix of the tags fails to read, so do all of them.
proof fn lemma_read_args_none(d: Seq<u8>, off: int, tag_bytes: Seq<u8>, i: int)
    requires
        0 <= i < tag_bytes.len(),
        spec_read_args(d, off, tag_bytes.take(i + 1)) is None,
    ensures
        spec_read_args(d, off, tag_bytes) is None,
{
    if spec_read_args(d, off, tag_bytes) is Some {
        lemma_read_args_prefix(d, off, tag_bytes, i + 1);
    }
}

impl OscMessage {
    /// Decodes an owned message from bytes (allocates). For the
    /// real-time-safe path, use [`parse_osc_message`] instead.
    pub fn decode(data: &[u8]) -> (r: Result<OscMessage, ControlError>)
        requires
        ensures
            spec_parse_osc(data@) is None <==> r is Err,
            r matches Ok(m) ==> (spec_parse_osc(data@) matches Some(p) && m@.address == p.address
                && m@.arguments == p.arguments),
            r matches Err(e) ==> (if spec_bad_address(data@) {
                e is InvalidAddress
            } else {
                e is InvalidData
            }),
    {
        match parse_osc_message(data) {
            Ok(m) => Ok(m.to_owned()),
            Err(e) => Err(e),
        }
    }
}

} // verus!
