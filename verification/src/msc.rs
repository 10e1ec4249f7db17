//! MIDI Show Control (MSC): cue commands carried in Universal Real Time
//! SysEx (`F0 7F <device> 02 <format> <command> <data> F7`).
use vstd::prelude::*;

use crate::error::{invalid_data, ControlError};
use crate::midi1::{Midi1Message, Midi1Spec};
use crate::midi1::all_7bit;
use crate::sysex::{
    is_bare_sysex, lemma_low7, lemma_mask7_id, lemma_universal_view, parse_sysex, spec_parse_sysex,
    spec_universal_bytes, sysex_universal, SHOW_CONTROL, UNIVERSAL_REALTIME,
};
use crate::types::{find_nul, lemma_find_nul, lemma_find_nul_at};
use crate::text::{from_utf8_lossy, lossy_text};

verus! {

/// MSC command format: General.
pub const FORMAT_GENERAL: u8 = 0x00;

/// MSC command format: Lighting.
pub const FORMAT_LIGHTING: u8 = 0x01;

/// MSC command format: Sound.
pub const FORMAT_SOUND: u8 = 0x02;

/// MSC command format: Machinery.
pub const FORMAT_MACHINERY: u8 = 0x03;

/// MSC command format: Video.
pub const FORMAT_VIDEO: u8 = 0x04;

/// MSC command format: Projection.
pub const FORMAT_PROJECTION: u8 = 0x05;

/// MSC command format: Pyro.
pub const FORMAT_PYRO: u8 = 0x06;

/// An MSC command.
#[derive(Debug, Clone, PartialEq, Eq)]
pub enum MscCommand {
    /// GO — run the (optional) cue number, optionally in a list.
    Go {
        /// Cue number text (optional).
        cue: Option<String>,
        /// Cue list number text (optional).
        cue_list: Option<String>,
    },
    /// STOP — stop the (optional) cue.
    Stop {
        /// Cue number text (optional).
        cue: Option<String>,
    },
    /// FIRE a macro.
    Fire {
        /// Macro number (0-127).
        macro_number: u8,
    },
    /// GO OFF (reverse of GO for "blackout" style cues).
    GoOff {
        /// Cue number text (optional).
        cue: Option<String>,
        /// Cue list number text (optional).
        cue_list: Option<String>,
    },
    /// RESET.
    Reset,
    /// GO JAM — jump to a cue with all channels cancelled.
    GoJam {
        /// Cue number text (optional).
        cue: Option<String>,
    },
}

/// The abstract value of an [`MscCommand`].
pub enum MscCommandSpec {
    Go { cue: Option<Seq<char>>, cue_list: Option<Seq<char>> },
    Stop { cue: Option<Seq<char>> },
    Fire { macro_number: u8 },
    GoOff { cue: Option<Seq<char>>, cue_list: Option<Seq<char>> },
    Reset,
    GoJam { cue: Option<Seq<char>> },
}

/// The characters of an optional string.
pub open spec fn opt_view(s: Option<String>) -> Option<Seq<char>> {
    match s {
        Some(t) => Some(t@),
        None => None,
    }
}

impl View for MscCommand {
    type V = MscCommandSpec;

    open spec fn view(&self) -> MscCommandSpec {
        match self {
            MscCommand::Go { cue, cue_list } => MscCommandSpec::Go {
                cue: opt_view(*cue),
                cue_list: opt_view(*cue_list),
            },
            MscCommand::Stop { cue } => MscCommandSpec::Stop { cue: opt_view(*cue) },
            MscCommand::Fire { macro_number } => MscCommandSpec::Fire { macro_number: *macro_number },
            MscCommand::GoOff { cue, cue_list } => MscCommandSpec::GoOff {
                cue: opt_view(*cue),
                cue_list: opt_view(*cue_list),
            },
            MscCommand::Reset => MscCommandSpec::Reset,
            MscCommand::GoJam { cue } => MscCommandSpec::GoJam { cue: opt_view(*cue) },
        }
    }
}

/// A complete MSC message.
#[derive(Debug, Clone, PartialEq, Eq)]
pub struct MscMessage {
    /// Target device ID (0x00-0x7E; 0x7F = all devices).
    pub device_id: u8,
    /// Command format (see the `FORMAT_*` constants).
    pub command_format: u8,
    /// The command.
    pub command: MscCommand,
}

/// The abstract value of an [`MscMessage`].
pub struct MscSpec {
    pub device_id: u8,
    pub command_format: u8,
    pub command: MscCommandSpec,
}

impl View for MscMessage {
    type V = MscSpec;

    open spec fn view(&self) -> MscSpec {
        MscSpec { device_id: self.device_id, command_format: self.command_format, command: self.command@ }
    }
}

/// Whether every byte is printable ASCII (0x20..=0x7E).
pub open spec fn printable(b: Seq<u8>) -> bool {
    forall|i: int| 0 <= i < b.len() ==> 0x20 <= #[trigger] b[i] <= 0x7E
}

/// Cue text may only hold printable ASCII (0x20..=0x7E).
pub open spec fn cue_ok(c: Option<Seq<char>>) -> bool {
    match c {
        None => true,
        Some(s) => printable(vstd::utf8::encode_utf8(s)),
    }
}

/// The bytes of an optional cue (none when absent).
pub open spec fn cue_bytes(c: Option<Seq<char>>) -> Seq<u8> {
    match c {
        None => Seq::empty(),
        Some(s) => vstd::utf8::encode_utf8(s),
    }
}

/// Whether every cue of the command may be encoded.
pub open spec fn command_cues_ok(c: MscCommandSpec) -> bool {
    match c {
        MscCommandSpec::Go { cue, cue_list } => cue_ok(cue) && cue_ok(cue_list),
        MscCommandSpec::GoOff { cue, cue_list } => cue_ok(cue) && cue_ok(cue_list),
        MscCommandSpec::Stop { cue } => cue_ok(cue),
        MscCommandSpec::GoJam { cue } => cue_ok(cue),
        _ => true,
    }
}

/// A cue and an optional list, a NUL between them when the list is there.
pub open spec fn cue_pair_bytes(cue: Option<Seq<char>>, cue_list: Option<Seq<char>>) -> Seq<u8> {
    cue_bytes(cue) + (if cue_list is Some {
        seq![0x00u8] + cue_bytes(cue_list)
    } else {
        Seq::empty()
    })
}

/// The command bytes of an MSC message: the command letter(s), then its
/// cue data.
pub open spec fn spec_command_bytes(c: MscCommandSpec) -> Seq<u8> {
    match c {
        MscCommandSpec::Go { cue, cue_list } => seq![0x47u8] + cue_pair_bytes(cue, cue_list),
        MscCommandSpec::GoOff { cue, cue_list } => seq![0x47u8, 0x2Bu8] + cue_pair_bytes(cue, cue_list),
        MscCommandSpec::Stop { cue } => seq![0x53u8] + cue_bytes(cue),
        MscCommandSpec::Fire { macro_number } => seq![0x46u8, macro_number & 0x7F],
        MscCommandSpec::Reset => seq![0x52u8],
        MscCommandSpec::GoJam { cue } => seq![0x4Au8] + cue_bytes(cue),
    }
}

/// The cue up to the first NUL, `None` when that is empty.
pub open spec fn spec_parse_cue(b: Seq<u8>) -> Option<Seq<char>> {
    let end = match crate::types::find_nul(b, 0) {
        Some(z) => z,
        None => b.len() as int,
    };
    if end == 0 {
        None
    } else {
        Some(lossy_text(b.take(end)))
    }
}

/// A non-empty field as text.
pub open spec fn nonempty_text(b: Seq<u8>) -> Option<Seq<char>> {
    if b.len() == 0 {
        None
    } else {
        Some(lossy_text(b))
    }
}

/// A cue and cue list split at the first NUL; `None` when a second NUL
/// makes a third field.
pub open spec fn spec_split_cue_pair(b: Seq<u8>) -> Option<(Option<Seq<char>>, Option<Seq<char>>)> {
    match crate::types::find_nul(b, 0) {
        None => Some((nonempty_text(b), None)),
        Some(z) => {
            let rest = b.skip(z + 1);
            if crate::types::find_nul(rest, 0) is Some {
                None
            } else {
                Some((nonempty_text(b.take(z)), nonempty_text(rest)))
            }
        },
    }
}

/// The command that the bytes after the format byte hold.
pub open spec fn spec_parse_command(rest: Seq<u8>) -> Option<MscCommandSpec> {
    if rest.len() >= 2 && rest[0] == 0x47 && rest[1] == 0x2B {
        match spec_split_cue_pair(rest.skip(2)) {
            None => None,
            Some((cue, cue_list)) => Some(MscCommandSpec::GoOff { cue, cue_list }),
        }
    } else if rest.len() >= 1 && rest[0] == 0x47 {
        match spec_split_cue_pair(rest.skip(1)) {
            None => None,
            Some((cue, cue_list)) => Some(MscCommandSpec::Go { cue, cue_list }),
        }
    } else if rest.len() >= 1 && rest[0] == 0x53 {
        Some(MscCommandSpec::Stop { cue: spec_parse_cue(rest.skip(1)) })
    } else if rest.len() >= 2 && rest[0] == 0x46 {
        Some(MscCommandSpec::Fire { macro_number: rest[1] & 0x7F })
    } else if rest.len() >= 1 && rest[0] == 0x52 {
        Some(MscCommandSpec::Reset)
    } else if rest.len() >= 1 && rest[0] == 0x4A {
        Some(MscCommandSpec::GoJam { cue: spec_parse_cue(rest.skip(1)) })
    } else {
        None
    }
}

/// The wire code that names each command: `G` for GO (with `+` after it
/// for GO OFF), `S` for STOP, `F` for FIRE, `R` for RESET and `J` for
/// GO JAM.
pub open spec fn command_letter(c: MscCommandSpec) -> u8 {
    match c {
        MscCommandSpec::Go { .. } => 0x47,
        MscCommandSpec::GoOff { .. } => 0x47,
        MscCommandSpec::Stop { .. } => 0x53,
        MscCommandSpec::Fire { .. } => 0x46,
        MscCommandSpec::Reset => 0x52,
        MscCommandSpec::GoJam { .. } => 0x4A,
    }
}

/// Each command is written under its own code letter (GO OFF with `+`
/// after the `G`, FIRE with its macro number after the `F`), and reading
/// command bytes that start with `S`, `R` or `J` (or `F` and a macro
/// number) gives the command of that letter: STOP, RESET, GO JAM, FIRE.
pub proof fn lemma_command_letters(c: MscCommandSpec, rest: Seq<u8>)
    ensures
        spec_command_bytes(c).len() >= 1,
        spec_command_bytes(c)[0] == command_letter(c),
        c is GoOff ==> spec_command_bytes(c).len() >= 2 && spec_command_bytes(c)[1] == 0x2B,
        c matches MscCommandSpec::Fire { macro_number } ==> spec_command_bytes(c) == seq![0x46u8, macro_number & 0x7F],
        rest.len() >= 1 && rest[0] == 0x53 ==> (spec_parse_command(rest) matches Some(p) && p is Stop),
        rest.len() >= 1 && rest[0] == 0x52 ==> spec_parse_command(rest) == Some(MscCommandSpec::Reset),
        rest.len() >= 1 && rest[0] == 0x4A ==> (spec_parse_command(rest) matches Some(p) && p is GoJam),
        rest.len() >= 2 && rest[0] == 0x46 ==> spec_parse_command(rest) == Some(
            MscCommandSpec::Fire { macro_number: rest[1] & 0x7F },
        ),
        spec_parse_command(rest) matches Some(p) ==> rest.len() >= 1 && rest[0] == command_letter(p),
{
}

/// The MSC message a SysEx holds, `None` when it is not one.
pub open spec fn spec_msc_parse(m: Midi1Spec) -> Option<MscSpec> {
    match spec_parse_sysex(m) {
        None => None,
        Some(view) => if view.manufacturer != UNIVERSAL_REALTIME || view.sub_id1 != Some(SHOW_CONTROL) {
            None
        } else if view.payload.len() < 2 {
            None
        } else {
            match spec_parse_command(view.payload.skip(1)) {
                None => None,
                Some(command) => Some(
                    MscSpec {
                        device_id: match view.device_id {
                            Some(d) => d,
                            None => 0x7Fu8,
                        },
                        command_format: view.payload[0],
                        command,
                    },
                ),
            }
        },
    }
}

/// Appends a cue's bytes, failing on a byte outside 0x20..=0x7E.
fn encode_cue(out: &mut Vec<u8>, cue: &Option<String>) -> (r: Result<(), ControlError>)
    ensures
        cue_ok(opt_view(*cue)) <==> r is Ok,
        r matches Err(e) ==> e is InvalidData,
        r is Ok ==> final(out)@ == old(out)@ + cue_bytes(opt_view(*cue)),
{
    match cue {
        None => {
            proof {
                assert(final(out)@ =~= old(out)@ + cue_bytes(opt_view(*cue)));
            }
            Ok(())
        },
        Some(c) => {
            let bytes = c.as_str().as_bytes();
            proof {
                assert(bytes@ == vstd::utf8::encode_utf8(c@));
            }
            let mut i: usize = 0;
            while i < bytes.len()
                invariant
                    i <= bytes@.len(),
                    bytes@ == vstd::utf8::encode_utf8(c@),
                    opt_view(*cue) == Some(c@),
                    forall|j: int| 0 <= j < i ==> 0x20 <= #[trigger] bytes@[j] <= 0x7E,
                decreases bytes@.len() - i,
            {
                if !(0x20 <= bytes[i] && bytes[i] <= 0x7E) {
                    proof {
                        assert(bytes@ == vstd::utf8::encode_utf8(c@));
                        assert(!(0x20 <= vstd::utf8::encode_utf8(c@)[i as int] <= 0x7E));
                        assert(!printable(bytes@));
                    }
                    return Err(invalid_data("illegal cue character"));
                }
                i += 1;
            }
            crate::wire::push_slice(out, bytes);
            Ok(())
        },
    }
}

/// Text of a non-empty field.
fn text_of(b: &[u8]) -> (r: Option<String>)
    ensures
        opt_view(r) == nonempty_text(b@),
{
    if b.len() == 0 {
        None
    } else {
        Some(from_utf8_lossy(b))
    }
}

/// The first zero byte of `b`, if any.
fn first_nul(b: &[u8]) -> (r: Option<usize>)
    ensures
        r matches Some(z) ==> crate::types::find_nul(b@, 0) == Some(z as int),
        r is None ==> crate::types::find_nul(b@, 0) is None,
{
    let mut i: usize = 0;
    while i < b.len()
        invariant
            i <= b@.len(),
            crate::types::find_nul(b@, 0) == crate::types::find_nul(b@, i as int),
        decreases b@.len() - i,
    {
        if b[i] == 0 {
            return Some(i);
        }
        i += 1;
    }
    None
}

fn parse_cue(bytes: &[u8]) -> (r: Option<String>)
    ensures
        opt_view(r) == spec_parse_cue(bytes@),
{
    let end = match first_nul(bytes) {
        Some(z) => z,
        None => bytes.len(),
    };
    proof {
        crate::types::lemma_find_nul(bytes@, 0);
    }
    if end == 0 {
        return None;
    }
    let part = vstd::slice::slice_subrange(bytes, 0, end);
    proof {
        assert(part@ =~= bytes@.take(end as int));
    }
    Some(from_utf8_lossy(part))
}

fn split_cue_pair(bytes: &[u8]) -> (r: Result<(Option<String>, Option<String>), ControlError>)
    ensures
        spec_split_cue_pair(bytes@) is None <==> r is Err,
        r matches Err(e) ==> e is InvalidData,
        r matches Ok((c, l)) ==> spec_split_cue_pair(bytes@) == Some((opt_view(c), opt_view(l))),
{
    let blen = bytes.len();
    proof {
        crate::types::lemma_find_nul(bytes@, 0);
    }
    match first_nul(bytes) {
        None => Ok((text_of(bytes), None)),
        Some(z) => {
            let first = vstd::slice::slice_subrange(bytes, 0, z);
            let rest = vstd::slice::slice_subrange(bytes, z + 1, bytes.len());
            proof {
                assert(first@ =~= bytes@.take(z as int));
                assert(rest@ =~= bytes@.skip(z + 1));
            }
            if first_nul(rest).is_some() {
                return Err(invalid_data("too many MSC cue fields"));
            }
            Ok((text_of(first), text_of(rest)))
        },
    }
}

impl MscMessage {
    /// Encodes to a MIDI 1.0 SysEx message; a cue with a byte outside
    /// 0x20..=0x7E is `InvalidData`.
    pub fn to_midi1(&self) -> (r: Result<Midi1Message, ControlError>)
        ensures
            command_cues_ok(self.command@) <==> r is Ok,
            r matches Err(e) ==> e is InvalidData,
            r matches Ok(m) ==> m@ == Midi1Spec::SystemExclusive(
                spec_universal_bytes(
                    UNIVERSAL_REALTIME,
                    self.device_id & 0x7F,
                    SHOW_CONTROL,
                    0x01,
                    seq![self.command_format & 0x7F] + spec_command_bytes(self.command@),
                ),
            ),
    {
        let mut payload: Vec<u8> = Vec::new();
        payload.push(self.command_format & 0x7F);
        let ghost head = payload@;
        match &self.command {
            MscCommand::Go { cue, cue_list } => {
                payload.push(0x47);
                encode_cue(&mut payload, cue)?;
                if cue_list.is_some() {
                    payload.push(0x00);  // control separator
                    encode_cue(&mut payload, cue_list)?;
                } else {
                    proof {
                        assert(cue_ok(opt_view(*cue_list)));
                    }
                }
            },
            MscCommand::GoOff { cue, cue_list } => {
                payload.push(0x47);
                payload.push(0x2B);
                encode_cue(&mut payload, cue)?;
                if cue_list.is_some() {
                    payload.push(0x00);
                    encode_cue(&mut payload, cue_list)?;
                } else {
                    proof {
                        assert(cue_ok(opt_view(*cue_list)));
                    }
                }
            },
            MscCommand::Stop { cue } => {
                payload.push(0x53);
                encode_cue(&mut payload, cue)?;
            },
            MscCommand::Fire { macro_number } => {
                payload.push(0x46);
                payload.push(*macro_number & 0x7F);
            },
            MscCommand::Reset => payload.push(0x52),
            MscCommand::GoJam { cue } => {
                payload.push(0x4A);
                encode_cue(&mut payload, cue)?;
            },
        }
        proof {
            assert(payload@ =~= seq![self.command_format & 0x7F] + spec_command_bytes(self.command@));
        }
        Ok(sysex_universal(UNIVERSAL_REALTIME, self.device_id & 0x7F, SHOW_CONTROL, 0x01, payload.as_slice()))
    }

    /// Parses an MSC message from a MIDI 1.0 SysEx.
    pub fn from_midi1(message: &Midi1Message) -> (r: Result<MscMessage, ControlError>)
        requires
            !is_bare_sysex(message@),
        ensures
            spec_msc_parse(message@) is None <==> r is Err,
            r matches Ok(m) ==> spec_msc_parse(message@) == Some(m@),
            r matches Err(e) ==> e is InvalidData,
    {
        let view = parse_sysex(message)?;
        if view.manufacturer != UNIVERSAL_REALTIME || view.sub_id1 != Some(SHOW_CONTROL) {
            return Err(invalid_data("not a MIDI Show Control message"));
        }
        let device_id = match view.device_id {
            Some(d) => d,
            None => 0x7F,
        };
        let payload = view.payload;
        if payload.len() < 2 {
            return Err(invalid_data("MSC payload too short"));
        }
        let command_format = payload[0];
        let rest = vstd::slice::slice_subrange(payload, 1, payload.len());
        proof {
            assert(rest@ =~= payload@.skip(1));
        }
        let command = if rest.len() >= 2 && rest[0] == 0x47 && rest[1] == 0x2B {
            let tail = vstd::slice::slice_subrange(rest, 2, rest.len());
            proof {
                assert(tail@ =~= rest@.skip(2));
            }
            let (cue, cue_list) = split_cue_pair(tail)?;
            MscCommand::GoOff { cue, cue_list }
        } else if rest.len() >= 1 && rest[0] == 0x47 {
            let tail = vstd::slice::slice_subrange(rest, 1, rest.len());
            proof {
                assert(tail@ =~= rest@.skip(1));
            }
            let (cue, cue_list) = split_cue_pair(tail)?;
            MscCommand::Go { cue, cue_list }
        } else if rest.len() >= 1 && rest[0] == 0x53 {
            let tail = vstd::slice::slice_subrange(rest, 1, rest.len());
            proof {
                assert(tail@ =~= rest@.skip(1));
            }
            MscCommand::Stop { cue: parse_cue(tail) }
        } else if rest.len() >= 2 && rest[0] == 0x46 {
            MscCommand::Fire { macro_number: rest[1] & 0x7F }
        } else if rest.len() >= 1 && rest[0] == 0x52 {
            MscCommand::Reset
        } else if rest.len() >= 1 && rest[0] == 0x4A {
            let tail = vstd::slice::slice_subrange(rest, 1, rest.len());
            proof {
                assert(tail@ =~= rest@.skip(1));
            }
            MscCommand::GoJam { cue: parse_cue(tail) }
        } else {
            return Err(invalid_data("unknown MSC command byte"));
        };
        Ok(MscMessage { device_id, command_format, command })
    }
}

/// A cue that reads back as itself: absent, or non-empty printable ASCII.
pub open spec fn cue_roundtrips(c: Option<Seq<char>>) -> bool {
    match c {
        None => true,
        Some(s) => s.len() > 0 && printable(vstd::utf8::encode_utf8(s)),
    }
}

/// The fields of an MSC message that survive encoding and parsing: a
/// 7-bit device ID, command format and macro number, cues that read back
/// as themselves, and no GO cue that begins with `+` (which would read as
/// GO OFF).
pub open spec fn msc_fields_in_range(m: MscSpec) -> bool {
    &&& m.device_id < 0x80
    &&& m.command_format < 0x80
    &&& match m.command {
        MscCommandSpec::Go { cue, cue_list } => cue_roundtrips(cue) && cue_roundtrips(cue_list) && !(cue_bytes(cue).len()
            > 0 && cue_bytes(cue)[0] == 0x2B),
        MscCommandSpec::GoOff { cue, cue_list } => cue_roundtrips(cue) && cue_roundtrips(cue_list),
        MscCommandSpec::Stop { cue } => cue_roundtrips(cue),
        MscCommandSpec::GoJam { cue } => cue_roundtrips(cue),
        MscCommandSpec::Fire { macro_number } => macro_number < 0x80,
        MscCommandSpec::Reset => true,
    }
}

/// The bytes of a cue that reads back as itself are printable, hold no
/// NUL, and read back as the cue.
proof fn lemma_cue_bytes(c: Option<Seq<char>>)
    requires
        cue_roundtrips(c),
    ensures
        printable(cue_bytes(c)),
        all_7bit(cue_bytes(c), 0, cue_bytes(c).len() as int),
        find_nul(cue_bytes(c), 0) is None,
        c is Some ==> cue_bytes(c).len() > 0,
        nonempty_text(cue_bytes(c)) == c,
        spec_parse_cue(cue_bytes(c)) == c,
{
    let b = cue_bytes(c);
    lemma_find_nul(b, 0);
    if let Some(s) = c {
        vstd::utf8::encode_utf8_valid_utf8(s);
        vstd::utf8::encode_utf8_decode_utf8(s);
        if b.len() == 0 {
            assert(vstd::utf8::decode_utf8(b) =~= Seq::<char>::empty());
        }
        assert(b.take(b.len() as int) =~= b);
    }
}

/// A cue and list encoded as a pair split back into the two.
proof fn lemma_cue_pair(cue: Option<Seq<char>>, cue_list: Option<Seq<char>>)
    requires
        cue_roundtrips(cue),
        cue_roundtrips(cue_list),
    ensures
        all_7bit(cue_pair_bytes(cue, cue_list), 0, cue_pair_bytes(cue, cue_list).len() as int),
        spec_split_cue_pair(cue_pair_bytes(cue, cue_list)) == Some((cue, cue_list)),
{
    lemma_cue_bytes(cue);
    lemma_cue_bytes(cue_list);
    let a = cue_bytes(cue);
    let b = cue_pair_bytes(cue, cue_list);
    lemma_find_nul(a, 0);
    if cue_list is Some {
        let l = cue_bytes(cue_list);
        assert(b =~= a + seq![0x00u8] + l);
        lemma_find_nul_at(b, 0, a.len() as int);
        assert(b.skip(a.len() as int + 1) =~= l);
        assert(b.take(a.len() as int) =~= a);
    } else {
        assert(b =~= a);
    }
}

/// What `to_midi1` encodes, `from_midi1` parses back to the same message,
/// for every message whose fields are in range.
#[verifier::rlimit(40)]
#[verifier::spinoff_prover]
pub proof fn lemma_msc_roundtrip(m: MscSpec)
    requires
        msc_fields_in_range(m),
    ensures
        !is_bare_sysex(
            Midi1Spec::SystemExclusive(
                spec_universal_bytes(
                    UNIVERSAL_REALTIME,
                    m.device_id & 0x7F,
                    SHOW_CONTROL,
                    0x01,
                    seq![m.command_format & 0x7F] + spec_command_bytes(m.command),
                ),
            ),
        ),
        spec_msc_parse(
            Midi1Spec::SystemExclusive(
                spec_universal_bytes(
                    UNIVERSAL_REALTIME,
                    m.device_id & 0x7F,
                    SHOW_CONTROL,
                    0x01,
                    seq![m.command_format & 0x7F] + spec_command_bytes(m.command),
                ),
            ),
        ) == Some(m),
{
    lemma_low7(m.device_id);
    lemma_low7(m.command_format);
    lemma_low7(SHOW_CONTROL);
    let cmd = spec_command_bytes(m.command);
    match m.command {
        MscCommandSpec::Go { cue, cue_list } => {
            lemma_cue_pair(cue, cue_list);
            let pb = cue_pair_bytes(cue, cue_list);
            assert(cmd.skip(1) =~= pb);
            if pb.len() > 0 && pb[0] == 0x2B {
                lemma_cue_bytes(cue);
                assert(cue_bytes(cue).len() == 0);
                assert(pb[0] == 0x00);
            }
        },
        MscCommandSpec::GoOff { cue, cue_list } => {
            lemma_cue_pair(cue, cue_list);
            assert(cmd.skip(2) =~= cue_pair_bytes(cue, cue_list));
        },
        MscCommandSpec::Stop { cue } => {
            lemma_cue_bytes(cue);
            assert(cmd.skip(1) =~= cue_bytes(cue));
        },
        MscCommandSpec::GoJam { cue } => {
            lemma_cue_bytes(cue);
            assert(cmd.skip(1) =~= cue_bytes(cue));
        },
        MscCommandSpec::Fire { macro_number } => {
            lemma_low7(macro_number);
        },
        MscCommandSpec::Reset => {},
    }
    let payload = seq![m.command_format & 0x7F] + cmd;
    assert(all_7bit(payload, 0, payload.len() as int));
    lemma_mask7_id(payload);
    lemma_universal_view(UNIVERSAL_REALTIME, m.device_id & 0x7F, SHOW_CONTROL, 0x01, payload);
    lemma_low7(0x01);
    assert(payload.skip(1) =~= cmd);
}

} // verus!
