//! MIDI-CI Property Exchange and Profile Configuration (M2-115 message
//! layer).
//!
//! Property Exchange travels inside MIDI-CI Universal SysEx messages
//! (`F0 7E <device> 0D <sub-id2> <version> <source MUID> <dest MUID> …`).
//! Payload layout after the two MUIDs:
//!
//! ```text
//! request-id (1 byte, 7-bit)
//! header-size (2 bytes, 14-bit little 7-bit groups: LSB then MSB)
//! header      (JSON text, 7-bit ASCII)
//! data        (7-bit bytes; present on data-carrying messages)
//! ```
//!
//! Long data sets are split across successive messages sharing the same
//! request id; the JSON header carries `chunkCount`/`chunkNumber`. Use
//! [`PropertyDataSetAssembler`] to reassemble, and [`header_field`] for
//! dependency-free header field extraction.
use vstd::prelude::*;
use vstd::string::StringSliceAdditionalSpecFns;

use crate::ci::{lemma_muid_roundtrip, push_muid, spec_muid_bytes, spec_take_muid, take_muid, MIDI_CI_SUB_ID1};
use crate::error::{invalid_data, ControlError};
use crate::midi1::{Midi1Message, Midi1Spec};
use crate::midi1::all_7bit;
use crate::sysex::{
    is_bare_sysex, lemma_low7, lemma_mask7_id, lemma_universal_view, parse_sysex, spec_parse_sysex,
    spec_universal_bytes, sysex_universal, UNIVERSAL_NON_REALTIME,
};
use crate::text::{from_utf8_lossy, lossy_text};
use crate::wire::slice_to_vec;

pub mod profile;
pub mod status;

verus! {

/// Get Property Data (initiator asks for a resource).
pub const PE_GET_PROPERTY_DATA: u8 = 0x30;

/// Get Property Data Reply (resource data).
pub const PE_GET_PROPERTY_DATA_REPLY: u8 = 0x31;

/// Set Property Data (initiator writes a resource).
pub const PE_SET_PROPERTY_DATA: u8 = 0x32;

/// Set Property Data Reply (status only).
pub const PE_SET_PROPERTY_DATA_REPLY: u8 = 0x33;

/// Subscribe Property Data (requests change notifications).
pub const PE_SUBSCRIBE_PROPERTY_DATA: u8 = 0x34;

/// Subscription Data (pushed data for an active subscription).
pub const PE_SUBSCRIPTION_DATA: u8 = 0x35;

/// Subscribe Property Data Reply (accepts/declines a subscription).
pub const PE_SUBSCRIBE_PROPERTY_DATA_REPLY: u8 = 0x36;

/// Notify Property Data Changed (header-only hint to re-fetch).
pub const PE_NOTIFY_PROPERTY_DATA_CHANGED: u8 = 0x37;

/// Whether a PE message of this sub-ID 2 carries a `data` section.
pub open spec fn spec_carries_data(sub_id2: u8) -> bool {
    sub_id2 == PE_GET_PROPERTY_DATA_REPLY || sub_id2 == PE_SET_PROPERTY_DATA || sub_id2
        == PE_SUBSCRIPTION_DATA || sub_id2 == PE_NOTIFY_PROPERTY_DATA_CHANGED
}

/// Whether a PE message carries a `data` section.
fn carries_data(sub_id2: u8) -> (b: bool)
    ensures
        b == spec_carries_data(sub_id2),
{
    sub_id2 == PE_GET_PROPERTY_DATA_REPLY || sub_id2 == PE_SET_PROPERTY_DATA || sub_id2
        == PE_SUBSCRIPTION_DATA || sub_id2 == PE_NOTIFY_PROPERTY_DATA_CHANGED
}

/// A MIDI-CI Property Exchange message.
#[derive(Debug, Clone, PartialEq, Eq)]
pub struct PropertyExchangeMessage {
    /// Target device ID (0x7F = broadcast).
    pub device_id: u8,
    /// CI version.
    pub version: u8,
    /// MUID of the sender.
    pub source_muid: u32,
    /// MUID of the peer.
    pub destination_muid: u32,
    /// The PE sub-ID 2 (see the `PE_*` constants).
    pub sub_id2: u8,
    /// Correlates replies with requests; also keys chunked data sets.
    pub request_id: u8,
    /// Status code (only meaningful on Set Property Data Reply).
    pub status: u8,
    /// The JSON header text (7-bit ASCII).
    pub header: String,
    /// The data section, when this message carries one.
    pub data: Vec<u8>,
}

/// The abstract value of a [`PropertyExchangeMessage`].
pub struct PeSpec {
    pub device_id: u8,
    pub version: u8,
    pub source_muid: u32,
    pub destination_muid: u32,
    pub sub_id2: u8,
    pub request_id: u8,
    pub status: u8,
    pub header: Seq<char>,
    pub data: Seq<u8>,
}

impl View for PropertyExchangeMessage {
    type V = PeSpec;

    open spec fn view(&self) -> PeSpec {
        PeSpec {
            device_id: self.device_id,
            version: self.version,
            source_muid: self.source_muid,
            destination_muid: self.destination_muid,
            sub_id2: self.sub_id2,
            request_id: self.request_id,
            status: self.status,
            header: self.header@,
            data: self.data@,
        }
    }
}

/// Whether every byte of `s` is below `bound`.
pub open spec fn all_below(s: Seq<u8>, bound: u8) -> bool {
    forall|i: int| 0 <= i < s.len() ==> #[trigger] s[i] < bound
}

/// The body of a PE message after its sub-ID 2, given the header bytes:
/// version, the two MUIDs, request id, status (Set Property Data Reply
/// only), the 14-bit header size, the header, and the data section when
/// the message carries one.
pub open spec fn spec_pe_body(m: PeSpec, header: Seq<u8>) -> Seq<u8> {
    let hl = header.len();
    seq![m.version & 0x7F] + spec_muid_bytes(m.source_muid) + spec_muid_bytes(m.destination_muid) + seq![
        m.request_id & 0x7F,
    ] + (if m.sub_id2 == PE_SET_PROPERTY_DATA_REPLY {
        seq![m.status & 0x7F]
    } else {
        Seq::empty()
    }) + seq![(hl % 128) as u8, (hl / 128 % 128) as u8] + header + (if spec_carries_data(m.sub_id2) {
        m.data
    } else {
        Seq::empty()
    })
}

/// What a PE message's payload after the sub-ID 2 parses to, `None` when
/// it is too short or its header overruns it.
pub open spec fn spec_pe_payload(p: Seq<u8>, device_id: u8, sub_id2: u8) -> Option<PeSpec> {
    if p.len() < 11 {
        None
    } else {
        let cursor: int = if sub_id2 == PE_SET_PROPERTY_DATA_REPLY {
            11
        } else {
            10
        };
        if p.len() < cursor + 2 {
            None
        } else {
            let hl = (p[cursor] & 0x7F) + (p[cursor + 1] & 0x7F) * 128;
            let header_end = cursor + 2 + hl;
            if header_end > p.len() {
                None
            } else {
                Some(
                    PeSpec {
                        device_id,
                        version: p[0] & 0x7F,
                        source_muid: spec_take_muid(p.subrange(1, p.len() as int)).0,
                        destination_muid: spec_take_muid(p.subrange(5, p.len() as int)).0,
                        sub_id2,
                        request_id: p[9] & 0x7F,
                        status: if sub_id2 == PE_SET_PROPERTY_DATA_REPLY {
                            p[10] & 0x7F
                        } else {
                            0
                        },
                        header: lossy_text(p.subrange(cursor + 2, header_end)),
                        data: if spec_carries_data(sub_id2) {
                            p.subrange(header_end, p.len() as int)
                        } else {
                            Seq::empty()
                        },
                    },
                )
            }
        }
    }
}

/// The PE message a SysEx holds, `None` when it is not one.
pub open spec fn spec_pe_parse(m: Midi1Spec) -> Option<PeSpec> {
    match spec_parse_sysex(m) {
        None => None,
        Some(view) => {
            let sub_id2 = match view.sub_id2 {
                Some(s) => s,
                None => 0xFFu8,
            };
            if view.manufacturer != UNIVERSAL_NON_REALTIME || view.sub_id1 != Some(MIDI_CI_SUB_ID1) {
                None
            } else if !(PE_GET_PROPERTY_DATA <= sub_id2 <= PE_NOTIFY_PROPERTY_DATA_CHANGED) {
                None
            } else {
                spec_pe_payload(
                    view.payload,
                    match view.device_id {
                        Some(d) => d,
                        None => 0x7Fu8,
                    },
                    sub_id2,
                )
            }
        },
    }
}

/// Whether every byte of `bytes` is below `bound`.
fn check_below(bytes: &[u8], bound: u8) -> (b: bool)
    ensures
        b == all_below(bytes@, bound),
{
    let mut i: usize = 0;
    while i < bytes.len()
        invariant
            i <= bytes@.len(),
            forall|j: int| 0 <= j < i ==> #[trigger] bytes@[j] < bound,
        decreases bytes@.len() - i,
    {
        if bytes[i] >= bound {
            return false;
        }
        i += 1;
    }
    true
}

impl PropertyExchangeMessage {
    /// Encodes to a MIDI 1.0 SysEx message. The header must be 7-bit ASCII
    /// below 0x7F and the data 7-bit, else `InvalidData`; a header over
    /// 0x3FFF bytes is `OutOfRange`.
    pub fn to_midi1(&self) -> (r: Result<Midi1Message, ControlError>)
        ensures
            ({
                let hb = self.header@;
                let bytes = vstd::utf8::encode_utf8(hb);
                if !all_below(bytes, 0x7F) || !all_below(self.data@, 0x80) {
                    r matches Err(e) && e is InvalidData
                } else if bytes.len() > 0x3FFF {
                    r == Err::<Midi1Message, ControlError>(
                        ControlError::OutOfRange { value: bytes.len() as i64, min: 0, max: 0x3FFF },
                    )
                } else {
                    r matches Ok(msg) && msg@ == Midi1Spec::SystemExclusive(
                        spec_universal_bytes(
                            UNIVERSAL_NON_REALTIME,
                            self.device_id & 0x7F,
                            MIDI_CI_SUB_ID1,
                            self.sub_id2,
                            spec_pe_body(self@, bytes),
                        ),
                    )
                }
            }),
    {
        let header = self.header.as_str().as_bytes();
        if !check_below(header, 0x7F) {
            return Err(invalid_data("PE header must be 7-bit ASCII"));
        }
        if !check_below(self.data.as_slice(), 0x80) {
            return Err(invalid_data("PE data must be 7-bit bytes"));
        }
        let header_len = header.len();
        if header_len > 0x3FFF {
            return Err(ControlError::OutOfRange { value: header_len as i64, min: 0, max: 0x3FFF });
        }
        let mut body: Vec<u8> = Vec::new();
        body.push(self.version & 0x7F);
        push_muid(&mut body, self.source_muid);
        push_muid(&mut body, self.destination_muid);
        body.push(self.request_id & 0x7F);
        if self.sub_id2 == PE_SET_PROPERTY_DATA_REPLY {
            body.push(self.status & 0x7F);
        }
        body.push((header_len % 128) as u8);
        body.push((header_len / 128 % 128) as u8);
        crate::wire::push_slice(&mut body, header);
        if carries_data(self.sub_id2) {
            crate::wire::push_slice(&mut body, self.data.as_slice());
        }
        proof {
            assert(body@ =~= spec_pe_body(self@, header@));
        }
        Ok(sysex_universal(UNIVERSAL_NON_REALTIME, self.device_id & 0x7F, MIDI_CI_SUB_ID1, self.sub_id2, body.as_slice()))
    }

    /// Parses a PE message from a MIDI 1.0 SysEx. Non-PE messages fail
    /// with [`ControlError::InvalidData`].
    pub fn from_midi1(message: &Midi1Message) -> (r: Result<PropertyExchangeMessage, ControlError>)
        requires
            !is_bare_sysex(message@),
        ensures
            spec_pe_parse(message@) is None <==> r is Err,
            r matches Ok(m) ==> spec_pe_parse(message@) == Some(m@),
            r matches Err(e) ==> e is InvalidData,
    {
        let view = parse_sysex(message)?;
        if view.manufacturer != UNIVERSAL_NON_REALTIME || view.sub_id1 != Some(MIDI_CI_SUB_ID1) {
            return Err(invalid_data("not a MIDI-CI message"));
        }
        let sub_id2 = match view.sub_id2 {
            Some(s) => s,
            None => 0xFF,
        };
        if !(PE_GET_PROPERTY_DATA <= sub_id2 && sub_id2 <= PE_NOTIFY_PROPERTY_DATA_CHANGED) {
            return Err(invalid_data("not a Property Exchange sub-id2"));
        }
        let payload = view.payload;
        if payload.len() < 11 {
            return Err(invalid_data("PE body too short"));
        }
        let version = payload[0] & 0x7F;
        let (source_muid, _) = take_muid(vstd::slice::slice_subrange(payload, 1, payload.len()));
        let (destination_muid, _) = take_muid(vstd::slice::slice_subrange(payload, 5, payload.len()));
        let mut cursor: usize = 9;
        let request_id = payload[cursor] & 0x7F;
        cursor += 1;
        let mut status: u8 = 0;
        if sub_id2 == PE_SET_PROPERTY_DATA_REPLY {
            status = payload[cursor] & 0x7F;
            cursor += 1;
        }
        if payload.len() < cursor + 2 {
            return Err(invalid_data("PE header size missing"));
        }
        let header_len: usize = (payload[cursor] & 0x7F) as usize + ((payload[cursor + 1] & 0x7F) as usize) * 128;
        cursor += 2;
        if header_len > payload.len() - cursor {
            return Err(invalid_data("PE header overruns message"));
        }
        let header_end = cursor + header_len;
        let header = from_utf8_lossy(vstd::slice::slice_subrange(payload, cursor, header_end));
        let data = if carries_data(sub_id2) {
            slice_to_vec(payload, header_end, payload.len())
        } else {
            Vec::new()
        };
        let device_id = match view.device_id {
            Some(d) => d,
            None => 0x7F,
        };
        let m = PropertyExchangeMessage {
            device_id,
            version,
            source_muid,
            destination_muid,
            sub_id2,
            request_id,
            status,
            header,
            data,
        };
        proof {
            assert(m.data@ =~= (if spec_carries_data(sub_id2) {
                payload@.subrange(header_end as int, payload@.len() as int)
            } else {
                Seq::empty()
            }));
        }
        Ok(m)
    }
}

/// Whether `c` has the Unicode `White_Space` property, as
/// `char::is_whitespace` decides.
pub open spec fn is_white_space(c: char) -> bool {
    ('\u{9}' <= c && c <= '\u{D}') || c == ' ' || c == '\u{85}' || c == '\u{A0}' || c == '\u{1680}' || (
    '\u{2000}' <= c && c <= '\u{200A}') || c == '\u{2028}' || c == '\u{2029}' || c == '\u{202F}' || c
        == '\u{205F}' || c == '\u{3000}'
}

fn white_space(c: char) -> (b: bool)
    ensures
        b == is_white_space(c),
{
    ('\u{9}' <= c && c <= '\u{D}') || c == ' ' || c == '\u{85}' || c == '\u{A0}' || c == '\u{1680}' || (
    '\u{2000}' <= c && c <= '\u{200A}') || c == '\u{2028}' || c == '\u{2029}' || c == '\u{202F}' || c
        == '\u{205F}' || c == '\u{3000}'
}

/// The first position at or after `i` where `n` occurs in `h`.
pub open spec fn find_from(h: Seq<char>, n: Seq<char>, i: int) -> Option<int>
    decreases h.len() + 1 - i,
{
    if i < 0 || i + n.len() > h.len() {
        None
    } else if h.subrange(i, i + n.len()) == n {
        Some(i)
    } else {
        find_from(h, n, i + 1)
    }
}

/// What `find_from` finds is an occurrence at or after `i`, within `h`.
pub proof fn lemma_find_from(h: Seq<char>, n: Seq<char>, i: int)
    requires
        0 <= i,
    ensures
        find_from(h, n, i) matches Some(p) ==> i <= p && p + n.len() <= h.len() && h.subrange(p, p + n.len()) == n,
    decreases h.len() + 1 - i,
{
    if i + n.len() <= h.len() && h.subrange(i, i + n.len()) != n {
        lemma_find_from(h, n, i + 1);
    }
}

/// `s` without its leading white space.
pub open spec fn trim_start(s: Seq<char>) -> Seq<char>
    decreases s.len(),
{
    if s.len() > 0 && is_white_space(s[0]) {
        trim_start(s.drop_first())
    } else {
        s
    }
}

/// The first position at or after `i` holding `,`, `}` or white space, or
/// the length of `s`.
pub open spec fn token_end(s: Seq<char>, i: int) -> int
    decreases s.len() - i,
{
    if i < 0 || i >= s.len() {
        s.len() as int
    } else if s[i] == ',' || s[i] == '}' || is_white_space(s[i]) {
        i
    } else {
        token_end(s, i + 1)
    }
}

/// The value of `key` in a flat JSON header: the text between quotes
/// after `"key":` and optional white space, or else the token there up to
/// `,`, `}` or white space; `None` when the key, the colon or a closing
/// quote is missing, or the token is empty.
pub open spec fn spec_header_field(h: Seq<char>, key: Seq<char>) -> Option<Seq<char>> {
    let needle = seq!['"'] + key + seq!['"'];
    match find_from(h, needle, 0) {
        None => None,
        Some(p) => {
            let after = h.skip(p + needle.len());
            match find_from(after, seq![':'], 0) {
                None => None,
                Some(c) => {
                    let value = trim_start(after.skip(c + 1));
                    if value.len() > 0 && value[0] == '"' {
                        let rest = value.skip(1);
                        match find_from(rest, seq!['"'], 0) {
                            None => None,
                            Some(e) => Some(rest.take(e)),
                        }
                    } else {
                        let token = value.take(token_end(value, 0));
                        if token.len() == 0 {
                            None
                        } else {
                            Some(token)
                        }
                    }
                },
            }
        },
    }
}

/// Searches `n` in `h` from position 0.
fn find_chars(h: &Vec<char>, n: &Vec<char>) -> (r: Option<usize>)
    ensures
        r matches Some(p) ==> find_from(h@, n@, 0) == Some(p as int),
        r is None ==> find_from(h@, n@, 0) is None,
{
    if n.len() > h.len() {
        return None;
    }
    let last = h.len() - n.len();
    let mut i: usize = 0;
    while i <= last
        invariant
            last == h@.len() - n@.len(),
            i <= last,
            h@.len() == h.len(),
            n@.len() == n.len(),
            find_from(h@, n@, 0) == find_from(h@, n@, i as int),
        decreases last + 1 - i,
    {
        let mut j: usize = 0;
        let mut same = true;
        while j < n.len()
            invariant
                i <= last,
                last == h@.len() - n@.len(),
                h@.len() == h.len(),
                n@.len() == n.len(),
                j <= n@.len(),
                same == (forall|k: int| 0 <= k < j ==> h@[i + k] == n@[k]),
            decreases n@.len() - j,
        {
            if h[i + j] != n[j] {
                same = false;
            }
            j += 1;
        }
        proof {
            if same {
                assert(h@.subrange(i as int, i + n@.len()) =~= n@);
            } else {
                assert(h@.subrange(i as int, i + n@.len()) != n@) by {
                    let k = choose|k: int| 0 <= k < n@.len() && h@[i + k] != n@[k];
                    assert(h@.subrange(i as int, i + n@.len())[k] != n@[k]);
                }
            }
        }
        if same {
            return Some(i);
        }
        if i == last {
            proof {
                assert(find_from(h@, n@, i + 1) is None);
            }
            return None;
        }
        i += 1;
    }
    None
}

/// The characters `s[from..to]` as a string.
fn string_of(s: &Vec<char>, from: usize, to: usize) -> (r: String)
    requires
        from <= to <= s@.len(),
    ensures
        r@ == s@.subrange(from as int, to as int),
{
    let mut r = String::new();
    let mut i: usize = from;
    while i < to
        invariant
            from <= i <= to <= s@.len(),
            r@ == s@.subrange(from as int, i as int),
        decreases to - i,
    {
        crate::text::push_char(&mut r, s[i]);
        i += 1;
        proof {
            assert(r@ =~= s@.subrange(from as int, i as int));
        }
    }
    r
}

/// `v[from..]` as a new vector.
fn chars_from(v: &Vec<char>, from: usize) -> (r: Vec<char>)
    requires
        from <= v@.len(),
    ensures
        r@ == v@.skip(from as int),
{
    let mut r: Vec<char> = Vec::new();
    let mut i: usize = from;
    while i < v.len()
        invariant
            from <= i <= v@.len(),
            r@ == v@.subrange(from as int, i as int),
        decreases v@.len() - i,
    {
        r.push(v[i]);
        i += 1;
        proof {
            assert(r@ =~= v@.subrange(from as int, i as int));
        }
    }
    r
}

/// Extracts a field from a flat JSON header without a JSON dependency:
/// `header_field(r#"{"resource":"/cap/device"}"#, "resource")` returns
/// `Some("/cap/device")`. Handles string and numeric values; nested
/// objects and escape sequences are out of scope.
pub fn header_field(header: &str, key: &str) -> (r: Option<String>)
    ensures
        r is Some <==> spec_header_field(header@, key@) is Some,
        r matches Some(v) ==> spec_header_field(header@, key@) == Some(v@),
{
    let h = crate::text::chars_of(header);
    let k = crate::text::chars_of(key);
    let mut needle: Vec<char> = Vec::new();
    needle.push('"');
    let mut i: usize = 0;
    while i < k.len()
        invariant
            i <= k@.len(),
            needle@ == seq!['"'] + k@.take(i as int),
        decreases k@.len() - i,
    {
        needle.push(k[i]);
        i += 1;
        proof {
            assert(needle@ =~= seq!['"'] + k@.take(i as int));
        }
    }
    needle.push('"');
    proof {
        assert(k@.take(k@.len() as int) =~= k@);
        assert(needle@ =~= seq!['"'] + key@ + seq!['"']);
    }
    let key_pos = match find_chars(&h, &needle) {
        Some(p) => p,
        None => {
            return None;
        },
    };
    let hl = h.len();
    let nl = needle.len();
    proof {
        lemma_find_from(h@, needle@, 0);
        assert(key_pos + nl <= hl);
    }
    let after = chars_from(&h, key_pos + nl);
    let mut colon_needle: Vec<char> = Vec::new();
    colon_needle.push(':');
    proof {
        assert(colon_needle@ =~= seq![':']);
    }
    let colon = match find_chars(&after, &colon_needle) {
        Some(c) => c,
        None => {
            return None;
        },
    };
    proof {
        lemma_find_from(after@, colon_needle@, 0);
        assert(colon + 1 <= after@.len());
    }
    let mut start: usize = colon + 1;
    proof {
        assert(after@.skip(colon + 1) == after@.skip(start as int));
    }
    while start < after.len() && white_space(after[start])
        invariant
            colon + 1 <= start <= after@.len(),
            trim_start(after@.skip(colon + 1)) == trim_start(after@.skip(start as int)),
        decreases after@.len() - start,
    {
        proof {
            assert(after@.skip(start as int).drop_first() =~= after@.skip(start + 1));
        }
        start += 1;
    }
    let value = chars_from(&after, start);
    proof {
        assert(trim_start(value@) == value@);
        assert(trim_start(after@.skip(colon + 1)) == value@);
    }
    if value.len() > 0 && value[0] == '"' {
        let rest = chars_from(&value, 1);
        let mut quote: Vec<char> = Vec::new();
        quote.push('"');
        proof {
            assert(quote@ =~= seq!['"']);
        }
        match find_chars(&rest, &quote) {
            Some(e) => {
                proof {
                    lemma_find_from(rest@, quote@, 0);
                }
                proof {
                    assert(rest@.take(e as int) =~= rest@.subrange(0, e as int));
                }
                Some(string_of(&rest, 0, e))
            },
            None => None,
        }
    } else {
        let mut end: usize = 0;
        while end < value.len() && !(value[end] == ',' || value[end] == '}' || white_space(value[end]))
            invariant
                end <= value@.len(),
                token_end(value@, 0) == token_end(value@, end as int),
            decreases value@.len() - end,
        {
            end += 1;
        }
        if end == 0 {
            None
        } else {
            proof {
                assert(value@.take(end as int) =~= value@.subrange(0, end as int));
            }
            Some(string_of(&value, 0, end))
        }
    }
}

/// The decimal value of the digit characters `d`.
pub open spec fn decimal_value(d: Seq<char>) -> int
    decreases d.len(),
{
    if d.len() == 0 {
        0
    } else {
        decimal_value(d.drop_last()) * 10 + (d.last() as int - '0' as int)
    }
}

/// What `str::parse::<usize>` gives: an optional `+`, then one or more
/// decimal digits whose value fits a `usize`.
pub open spec fn spec_parse_usize(s: Seq<char>) -> Option<usize> {
    spec_parse_usize_digits(
        if s.len() > 0 && s[0] == '+' {
            s.skip(1)
        } else {
            s
        },
    )
}

/// Appending a digit never makes a decimal value smaller.
proof fn lemma_decimal_grows(d: Seq<char>, i: int)
    requires
        0 <= i <= d.len(),
        forall|j: int| 0 <= j < d.len() ==> '0' <= #[trigger] d[j] <= '9',
    ensures
        decimal_value(d.take(i)) <= decimal_value(d),
        decimal_value(d) >= 0,
    decreases d.len() - i,
{
    if i < d.len() {
        lemma_decimal_grows(d, i + 1);
        assert(d.take(i + 1).drop_last() =~= d.take(i));
        lemma_decimal_nonneg(d.take(i));
    } else {
        assert(d.take(i) =~= d);
    }
    lemma_decimal_nonneg(d);
}

proof fn lemma_decimal_nonneg(d: Seq<char>)
    requires
        forall|j: int| 0 <= j < d.len() ==> '0' <= #[trigger] d[j] <= '9',
    ensures
        decimal_value(d) >= 0,
    decreases d.len(),
{
    if d.len() > 0 {
        lemma_decimal_nonneg(d.drop_last());
    }
}

/// Parses a decimal `usize` as `str::parse` does.
fn parse_usize(s: &Vec<char>) -> (r: Option<usize>)
    ensures
        r == spec_parse_usize(s@),
{
    let start: usize = if s.len() > 0 && s[0] == '+' {
        1
    } else {
        0
    };
    let ghost digits = s@.skip(start as int);
    proof {
        if start == 0 {
            assert(s@.skip(0) =~= s@);
        }
        assert(spec_parse_usize(s@) == spec_parse_usize_digits(digits));
    }
    if start >= s.len() {
        proof {
            assert(digits.len() == 0);
        }
        return None;
    }
    let mut acc: usize = 0;
    let mut i: usize = start;
    while i < s.len()
        invariant
            start <= i <= s@.len(),
            digits == s@.skip(start as int),
            spec_parse_usize(s@) == spec_parse_usize_digits(digits),
            forall|j: int| 0 <= j < i - start ==> '0' <= #[trigger] digits[j] <= '9',
            acc == decimal_value(digits.take(i - start)),
        decreases s@.len() - i,
    {
        let c = s[i];
        proof {
            assert(digits[i - start] == c);
        }
        if !('0' <= c && c <= '9') {
            proof {
                assert(!('0' <= digits[i - start] <= '9'));
            }
            return None;
        }
        let d = (c as u32 - '0' as u32) as usize;
        proof {
            assert(digits.take(i - start + 1).drop_last() =~= digits.take(i - start));
        }
        match acc.checked_mul(10) {
            None => {
                proof {
                    assert(forall|j: int| 0 <= j < i - start + 1 ==> '0' <= #[trigger] digits[j] <= '9');
                    assert(decimal_value(digits.take(i - start + 1)) > usize::MAX);
                    lemma_overflow_stays(digits, i - start + 1);
                }
                return None;
            },
            Some(m) => match m.checked_add(d) {
                None => {
                    proof {
                        assert(decimal_value(digits.take(i - start + 1)) > usize::MAX);
                        lemma_overflow_stays(digits, i - start + 1);
                    }
                    return None;
                },
                Some(v) => {
                    acc = v;
                },
            },
        }
        i += 1;
    }
    proof {
        assert(digits.take(digits.len() as int) =~= digits);
        assert(!(exists|j: int| 0 <= j < digits.len() && !('0' <= #[trigger] digits[j] <= '9')));
    }
    Some(acc)
}

/// Once a prefix of digits overflows, either a later character is not a
/// digit or the whole value overflows.
proof fn lemma_overflow_stays(digits: Seq<char>, n: int)
    requires
        0 < n <= digits.len(),
        forall|j: int| 0 <= j < n ==> '0' <= #[trigger] digits[j] <= '9',
        decimal_value(digits.take(n)) > usize::MAX,
    ensures
        spec_parse_usize_digits(digits) is None,
{
    if forall|j: int| 0 <= j < digits.len() ==> '0' <= #[trigger] digits[j] <= '9' {
        lemma_decimal_grows(digits, n);
    }
}

/// `spec_parse_usize` on what follows an optional `+`.
pub open spec fn spec_parse_usize_digits(digits: Seq<char>) -> Option<usize> {
    if digits.len() == 0 || exists|i: int| 0 <= i < digits.len() && !('0' <= #[trigger] digits[i] <= '9') {
        None
    } else if decimal_value(digits) > usize::MAX {
        None
    } else {
        Some(decimal_value(digits) as usize)
    }
}

/// Extracts a numeric header field.
pub fn header_field_num(header: &str, key: &str) -> (r: Option<usize>)
    ensures
        r == (match spec_header_field(header@, key@) {
            None => None,
            Some(v) => spec_parse_usize(v),
        }),
{
    match header_field(header, key) {
        None => None,
        Some(v) => {
            let chars = crate::text::chars_of(v.as_str());
            parse_usize(&chars)
        },
    }
}

/// The key "chunkNumber".
pub open spec fn chunk_number_key() -> Seq<char> {
    seq!['c', 'h', 'u', 'n', 'k', 'N', 'u', 'm', 'b', 'e', 'r']
}

/// The key "chunkCount".
pub open spec fn chunk_count_key() -> Seq<char> {
    seq!['c', 'h', 'u', 'n', 'k', 'C', 'o', 'u', 'n', 't']
}

/// The numeric value of `key` in a header, if present and numeric.
pub open spec fn spec_header_num(h: Seq<char>, key: Seq<char>) -> Option<usize> {
    match spec_header_field(h, key) {
        None => None,
        Some(v) => spec_parse_usize(v),
    }
}

/// A chunk: its number and its data.
pub type ChunkSpec = (usize, Seq<u8>);

/// `s` with `x` inserted before the first chunk numbered above it (after
/// every chunk numbered at most as it).
pub open spec fn insert_by_number(s: Seq<ChunkSpec>, x: ChunkSpec) -> Seq<ChunkSpec>
    decreases s.len(),
{
    if s.len() == 0 {
        seq![x]
    } else if s[0].0 > x.0 {
        seq![x] + s
    } else {
        seq![s[0]] + insert_by_number(s.drop_first(), x)
    }
}

/// The chunks of `s` sorted by number, chunks with equal numbers kept in
/// arrival order.
pub open spec fn sort_by_number(s: Seq<ChunkSpec>) -> Seq<ChunkSpec>
    decreases s.len(),
{
    if s.len() == 0 {
        Seq::empty()
    } else {
        insert_by_number(sort_by_number(s.drop_last()), s.last())
    }
}

/// The data of the chunks, concatenated in order.
pub open spec fn concat_chunks(s: Seq<ChunkSpec>) -> Seq<u8>
    decreases s.len(),
{
    if s.len() == 0 {
        Seq::empty()
    } else {
        concat_chunks(s.drop_last()) + s.last().1
    }
}

/// The total data length of the chunks.
pub open spec fn total_chunk_len(s: Seq<ChunkSpec>) -> int
    decreases s.len(),
{
    if s.len() == 0 {
        0
    } else {
        total_chunk_len(s.drop_last()) + s.last().1.len()
    }
}

/// The abstract state of a [`PropertyDataSetAssembler`]: the stream key,
/// the chunks in arrival order, and the announced chunk count.
pub struct AssemblerSpec {
    pub key: Option<(u32, u8)>,
    pub chunks: Seq<ChunkSpec>,
    pub count: Option<usize>,
}

/// The state after feeding a data-carrying message, and the result: the
/// header and the whole data when the set is complete, `Err(())` when a
/// cap is hit (the stream is then reset).
pub open spec fn spec_assembler_feed(s: AssemblerSpec, m: PeSpec) -> (AssemblerSpec, Result<
    Option<(Seq<char>, Seq<u8>)>,
    (),
>) {
    if !spec_carries_data(m.sub_id2) {
        (s, Ok(None))
    } else {
        let this_key = (m.source_muid, m.request_id);
        let s1 = if s.key == Some(this_key) {
            s
        } else {
            AssemblerSpec { key: Some(this_key), chunks: Seq::empty(), count: None }
        };
        let chunk_number = match spec_header_num(m.header, chunk_number_key()) {
            Some(n) => n,
            None => 0,
        };
        let chunk_count = spec_header_num(m.header, chunk_count_key());
        let reset = AssemblerSpec { key: Some(this_key), chunks: Seq::empty(), count: None };
        if chunk_count is None && s1.chunks.len() == 0 && chunk_number == 0 {
            (s1, Ok(Some((m.header, m.data))))
        } else {
            let count = if chunk_count is Some {
                chunk_count
            } else {
                s1.count
            };
            if s1.chunks.len() >= 128 {
                (reset, Err(()))
            } else if total_chunk_len(s1.chunks) + m.data.len() > 1048576 {
                (reset, Err(()))
            } else {
                let chunks = s1.chunks.push((chunk_number, m.data));
                match count {
                    Some(c) => if chunks.len() >= c && c > 0 {
                        (
                            AssemblerSpec { key: None, chunks: Seq::empty(), count: None },
                            Ok(Some((m.header, concat_chunks(sort_by_number(chunks))))),
                        )
                    } else {
                        (AssemblerSpec { key: s1.key, chunks, count }, Ok(None))
                    },
                    None => (AssemblerSpec { key: s1.key, chunks, count }, Ok(None)),
                }
            }
        }
    }
}

/// Inserting before the first chunk numbered above `x` is inserting at
/// that position.
proof fn lemma_insert_at(s: Seq<ChunkSpec>, x: ChunkSpec, p: int)
    requires
        0 <= p <= s.len(),
        forall|i: int| 0 <= i < p ==> #[trigger] s[i].0 <= x.0,
        p < s.len() ==> s[p].0 > x.0,
    ensures
        insert_by_number(s, x) == s.insert(p, x),
    decreases s.len(),
{
    if s.len() == 0 {
        assert(s.insert(p, x) =~= seq![x]);
    } else if p == 0 {
        assert(s.insert(p, x) =~= seq![x] + s);
    } else {
        let t = s.drop_first();
        assert(forall|i: int| 0 <= i < p - 1 ==> #[trigger] t[i] == s[i + 1]);
        lemma_insert_at(t, x, p - 1);
        assert(s.insert(p, x) =~= seq![s[0]] + t.insert(p - 1, x));
    }
}

/// A reassembler for chunked PE data sets (Get Property Data Reply,
/// Subscription Data, Set Property Data) that share a request id.
///
/// Streams are capped at [`PropertyDataSetAssembler::MAX_CHUNKS`] chunks
/// and [`PropertyDataSetAssembler::MAX_BYTES`] total bytes.
#[derive(Debug)]
pub struct PropertyDataSetAssembler {
    /// `(source muid, request id)` of the in-flight stream, if any.
    key: Option<(u32, u8)>,
    /// Chunk number and bytes, in arrival order.
    chunks: Vec<(usize, Vec<u8>)>,
    /// Expected total chunk count (from `chunkCount`), when announced.
    count: Option<usize>,
}

/// The abstract values of the chunks held.
pub open spec fn chunks_view(c: Seq<(usize, Vec<u8>)>) -> Seq<ChunkSpec> {
    c.map_values(|x: (usize, Vec<u8>)| (x.0, x.1@))
}

impl Default for PropertyDataSetAssembler {
    fn default() -> (a: PropertyDataSetAssembler)
        ensures
            a.wf(),
            a@ == (AssemblerSpec { key: None, chunks: Seq::empty(), count: None }),
    {
        let a = PropertyDataSetAssembler { key: None, chunks: Vec::new(), count: None };
        proof {
            assert(chunks_view(a.chunks@) =~= Seq::<ChunkSpec>::empty());
        }
        a
    }
}

impl View for PropertyDataSetAssembler {
    type V = AssemblerSpec;

    closed spec fn view(&self) -> AssemblerSpec {
        AssemblerSpec { key: self.key, chunks: chunks_view(self.chunks@), count: self.count }
    }
}

impl PropertyDataSetAssembler {
    /// Maximum chunks accepted per stream.
    pub const MAX_CHUNKS: usize = 128;

    /// Maximum total bytes accepted per stream (1 MiB).
    pub const MAX_BYTES: usize = 1048576;

    /// The chunks held stay within both caps.
    pub closed spec fn wf(&self) -> bool {
        self.chunks@.len() <= 128 && total_chunk_len(chunks_view(self.chunks@)) <= 1048576
    }

    /// Feeds one PE message. Returns `(header, full data)` when the data
    /// set is complete — including the trivial single-message case with
    /// no chunk fields.
    pub fn feed(&mut self, message: &PropertyExchangeMessage) -> (r: Result<
        Option<(String, Vec<u8>)>,
        ControlError,
    >)
        requires
            old(self).wf(),
        ensures
            final(self).wf(),
            final(self)@ == spec_assembler_feed(old(self)@, message@).0,
            spec_assembler_feed(old(self)@, message@).1 is Err <==> r is Err,
            r matches Err(e) ==> e is InvalidData,
            r matches Ok(None) ==> spec_assembler_feed(old(self)@, message@).1 == Ok::<
                Option<(Seq<char>, Seq<u8>)>,
                (),
            >(None),
            r matches Ok(Some((h, d))) ==> spec_assembler_feed(old(self)@, message@).1 == Ok::<
                Option<(Seq<char>, Seq<u8>)>,
                (),
            >(Some((h@, d@))),
    {
        if !carries_data(message.sub_id2) {
            return Ok(None);
        }
        let this_key = (message.source_muid, message.request_id);
        let same = match self.key {
            Some(k) => k.0 == this_key.0 && k.1 == this_key.1,
            None => false,
        };
        if !same {
            self.key = Some(this_key);
            self.chunks = Vec::new();
            self.count = None;
            proof {
                assert(chunks_view(self.chunks@) =~= Seq::<ChunkSpec>::empty());
            }
        }
        let number_key = "chunkNumber";
        let count_key = "chunkCount";
        proof {
            reveal_strlit("chunkNumber");
            reveal_strlit("chunkCount");
            assert(number_key@ =~= chunk_number_key());
            assert(count_key@ =~= chunk_count_key());
        }
        let chunk_number = match header_field_num(message.header.as_str(), number_key) {
            Some(n) => n,
            None => 0,
        };
        let chunk_count = header_field_num(message.header.as_str(), count_key);
        if chunk_count.is_none() && self.chunks.len() == 0 && chunk_number == 0 {
            let data = slice_to_vec(message.data.as_slice(), 0, message.data.len());
            proof {
                assert(data@ =~= message.data@);
            }
            return Ok(Some((message.header.clone(), data)));
        }
        if let Some(c) = chunk_count {
            self.count = Some(c);
        }
        let total = self.total_len();
        let over_chunks = self.chunks.len() >= Self::MAX_CHUNKS;
        if over_chunks || message.data.len() > Self::MAX_BYTES - total {
            self.key = Some(this_key);
            self.chunks = Vec::new();
            self.count = None;
            proof {
                assert(chunks_view(self.chunks@) =~= Seq::<ChunkSpec>::empty());
            }
            if over_chunks {
                return Err(invalid_data("PE data set exceeded chunk limit"));
            }
            return Err(invalid_data("PE data set exceeded byte limit"));
        }
        let data = slice_to_vec(message.data.as_slice(), 0, message.data.len());
        proof {
            assert(data@ =~= message.data@);
        }
        let ghost before = self.chunks@;
        self.chunks.push((chunk_number, data));
        proof {
            assert(chunks_view(self.chunks@) =~= chunks_view(before).push((chunk_number, message.data@)));
            assert(chunks_view(self.chunks@).drop_last() =~= chunks_view(before));
        }
        // Complete when every announced chunk has arrived.
        if let Some(count) = self.count {
            if self.chunks.len() >= count && count > 0 {
                let assembled = self.take_sorted_data();
                self.key = None;
                self.count = None;
                proof {
                    assert(chunks_view(self.chunks@) =~= Seq::<ChunkSpec>::empty());
                }
                return Ok(Some((message.header.clone(), assembled)));
            }
        }
        Ok(None)
    }

    /// The total data length of the chunks held.
    fn total_len(&self) -> (n: usize)
        requires
            self.wf(),
        ensures
            n == total_chunk_len(chunks_view(self.chunks@)),
    {
        let mut n: usize = 0;
        let mut i: usize = 0;
        while i < self.chunks.len()
            invariant
                self.wf(),
                i <= self.chunks@.len(),
                n == total_chunk_len(chunks_view(self.chunks@).take(i as int)),
                n <= 1048576,
            decreases self.chunks@.len() - i,
        {
            proof {
                assert(chunks_view(self.chunks@).take(i + 1).drop_last() =~= chunks_view(self.chunks@).take(i as int));
                lemma_total_prefix(chunks_view(self.chunks@), i + 1);
            }
            n = n + self.chunks[i].1.len();
            i += 1;
        }
        proof {
            assert(chunks_view(self.chunks@).take(i as int) =~= chunks_view(self.chunks@));
        }
        n
    }

    /// Empties the chunk list, returning the data of the chunks sorted by
    /// number (stable), concatenated.
    fn take_sorted_data(&mut self) -> (d: Vec<u8>)
        ensures
            final(self).chunks@.len() == 0,
            final(self).key == old(self).key,
            final(self).count == old(self).count,
            d@ == concat_chunks(sort_by_number(chunks_view(old(self).chunks@))),
    {
        let mut arrivals: Vec<(usize, Vec<u8>)> = Vec::new();
        std::mem::swap(&mut arrivals, &mut self.chunks);
        let ghost all = chunks_view(arrivals@);
        let n = arrivals.len();
        let mut sorted: Vec<(usize, Vec<u8>)> = Vec::new();
        let mut k: usize = 0;
        while k < n
            invariant
                k <= n,
                arrivals@.len() == n - k,
                all.len() == n,
                forall|j: int| 0 <= j < n - k ==> #[trigger] chunks_view(arrivals@)[j] == all[k + j],
                chunks_view(sorted@) == sort_by_number(all.take(k as int)),
                self.chunks@.len() == 0,
                self.key == old(self).key,
                self.count == old(self).count,
            decreases n - k,
        {
            let ghost old_arr = arrivals@;
            let x = arrivals.remove(0);
            let ghost xs = (x.0, x.1@);
            proof {
                assert(chunks_view(old_arr)[0] == (old_arr[0].0, old_arr[0].1@));
                assert(chunks_view(old_arr)[0] == all[k + 0]);
                assert(xs == all[k as int]);
            }
            let mut p: usize = 0;
            while p < sorted.len() && sorted[p].0 <= x.0
                invariant
                    p <= sorted@.len(),
                    forall|i: int| 0 <= i < p ==> #[trigger] sorted@[i].0 <= x.0,
                decreases sorted@.len() - p,
            {
                p += 1;
            }
            let ghost before = chunks_view(sorted@);
            proof {
                lemma_insert_at(before, xs, p as int);
                assert(all.take(k + 1).drop_last() =~= all.take(k as int));
            }
            sorted.insert(p, x);
            proof {
                assert(chunks_view(sorted@) =~= before.insert(p as int, xs));
                assert forall|j: int| 0 <= j < n - k - 1 implies #[trigger] chunks_view(arrivals@)[j] == all[k + 1 + j] by {
                    assert(arrivals@[j] == old_arr[j + 1]);
                    assert(chunks_view(arrivals@)[j] == (arrivals@[j].0, arrivals@[j].1@));
                    assert(chunks_view(old_arr)[j + 1] == (old_arr[j + 1].0, old_arr[j + 1].1@));
                    assert(chunks_view(old_arr)[j + 1] == all[k + (j + 1)]);
                }
            }
            k += 1;
        }
        proof {
            assert(all.take(n as int) =~= all);
        }
        let ghost sv = chunks_view(sorted@);
        let mut out: Vec<u8> = Vec::new();
        let mut i: usize = 0;
        while i < sorted.len()
            invariant
                i <= sorted@.len(),
                sv == chunks_view(sorted@),
                out@ == concat_chunks(sv.take(i as int)),
            decreases sorted@.len() - i,
        {
            crate::wire::push_slice(&mut out, sorted[i].1.as_slice());
            i += 1;
            proof {
                assert(sv.take(i as int).drop_last() =~= sv.take(i - 1));
            }
        }
        proof {
            assert(sv.take(sv.len() as int) =~= sv);
        }
        out
    }
}

/// The total length of a prefix is at most the total.
proof fn lemma_total_prefix(s: Seq<ChunkSpec>, i: int)
    requires
        0 <= i <= s.len(),
    ensures
        total_chunk_len(s.take(i)) <= total_chunk_len(s),
        total_chunk_len(s.take(i)) >= 0,
    decreases s.len() - i,
{
    if i < s.len() {
        lemma_total_prefix(s, i + 1);
        assert(s.take(i + 1).drop_last() =~= s.take(i));
        lemma_total_nonneg(s.take(i));
    } else {
        assert(s.take(i) =~= s);
        lemma_total_nonneg(s);
    }
}

proof fn lemma_total_nonneg(s: Seq<ChunkSpec>)
    ensures
        total_chunk_len(s) >= 0,
    decreases s.len(),
{
    if s.len() > 0 {
        lemma_total_nonneg(s.drop_last());
    }
}

/// A MIDI-CI Profile Configuration message (M2-115).
#[derive(Debug, Clone, PartialEq, Eq)]
pub struct ProfileConfigMessage {
    /// Target device ID (0x7F = broadcast).
    pub device_id: u8,
    /// CI version.
    pub version: u8,
    /// MUID of the sender.
    pub source_muid: u32,
    /// MUID of the peer.
    pub destination_muid: u32,
    /// The profile sub-ID 2 (see [`profile`] constants).
    pub sub_id2: u8,
    /// Profiles listed by inquiries: `[id MSB, id LSB, bank]` triplets.
    pub profiles: Vec<[u8; 3]>,
    /// The single profile targeted by on/off switches: `[id MSB, id LSB]`.
    pub profile: [u8; 2],
    /// Target addresses (function block / channel) for on/off switches.
    pub addresses: Vec<u16>,
}

/// The abstract value of a [`ProfileConfigMessage`]: each profile triplet
/// and the switched profile as byte sequences.
pub struct ProfileSpec {
    pub device_id: u8,
    pub version: u8,
    pub source_muid: u32,
    pub destination_muid: u32,
    pub sub_id2: u8,
    pub profiles: Seq<Seq<u8>>,
    pub profile: Seq<u8>,
    pub addresses: Seq<u16>,
}

impl View for ProfileConfigMessage {
    type V = ProfileSpec;

    open spec fn view(&self) -> ProfileSpec {
        ProfileSpec {
            device_id: self.device_id,
            version: self.version,
            source_muid: self.source_muid,
            destination_muid: self.destination_muid,
            sub_id2: self.sub_id2,
            profiles: self.profiles@.map_values(|p: [u8; 3]| p@),
            profile: self.profile@,
            addresses: self.addresses@,
        }
    }
}

/// Whether `sub_id2` lists profiles (an inquiry or its reply).
pub open spec fn is_profile_inquiry(sub_id2: u8) -> bool {
    sub_id2 == profile::INQUIRY || sub_id2 == profile::INQUIRY_REPLY
}

/// Whether `sub_id2` switches a profile on or off (or replies to that).
pub open spec fn is_profile_switch(sub_id2: u8) -> bool {
    profile::SET_ON <= sub_id2 <= profile::SET_OFF_REPLY
}

/// The profile triplets, each byte masked to seven bits, concatenated.
pub open spec fn spec_triplet_bytes(ps: Seq<Seq<u8>>) -> Seq<u8>
    decreases ps.len(),
{
    if ps.len() == 0 {
        Seq::empty()
    } else {
        spec_triplet_bytes(ps.drop_last()) + crate::sysex::mask7(ps.last())
    }
}

/// The addresses as two 7-bit groups each, low group first.
pub open spec fn spec_address_bytes(addrs: Seq<u16>) -> Seq<u8>
    decreases addrs.len(),
{
    if addrs.len() == 0 {
        Seq::empty()
    } else {
        let a = addrs.last();
        spec_address_bytes(addrs.drop_last()) + seq![(a % 128) as u8, (a / 128 % 128) as u8]
    }
}

/// The body after the sub-ID 2 of a profile message that encodes.
pub open spec fn spec_profile_body(m: ProfileSpec) -> Seq<u8> {
    let head = seq![m.version & 0x7F] + spec_muid_bytes(m.source_muid) + spec_muid_bytes(m.destination_muid);
    if is_profile_inquiry(m.sub_id2) {
        let n = m.profiles.len();
        head + seq![(n % 128) as u8, (n / 128 % 128) as u8] + spec_triplet_bytes(m.profiles)
    } else {
        head + seq![m.profile[0] & 0x7F, m.profile[1] & 0x7F, 0u8, m.addresses.len() as u8]
            + spec_address_bytes(m.addresses)
    }
}

/// What a profile message's payload after the sub-ID 2 parses to.
pub open spec fn spec_profile_payload(p: Seq<u8>, device_id: u8, sub_id2: u8) -> Option<ProfileSpec> {
    if p.len() < 9 {
        None
    } else {
        let rest = p.skip(9);
        let base = ProfileSpec {
            device_id,
            version: p[0] & 0x7F,
            source_muid: spec_take_muid(p.subrange(1, p.len() as int)).0,
            destination_muid: spec_take_muid(p.subrange(5, p.len() as int)).0,
            sub_id2,
            profiles: Seq::empty(),
            profile: seq![0u8, 0u8],
            addresses: Seq::empty(),
        };
        if is_profile_inquiry(sub_id2) {
            if rest.len() < 2 {
                None
            } else {
                let count = (rest[0] & 0x7F) + (rest[1] & 0x7F) * 128;
                let bytes = rest.skip(2);
                if bytes.len() < count * 3 {
                    None
                } else {
                    Some(
                        ProfileSpec {
                            profiles: Seq::new(
                                count as nat,
                                |i: int| crate::sysex::mask7(bytes.subrange(3 * i, 3 * i + 3)),
                            ),
                            ..base
                        },
                    )
                }
            }
        } else {
            if rest.len() < 4 {
                None
            } else {
                let count = rest[3] & 0x7F;
                let bytes = rest.skip(4);
                if bytes.len() < count * 2 {
                    None
                } else {
                    Some(
                        ProfileSpec {
                            profile: seq![rest[0] & 0x7F, rest[1] & 0x7F],
                            addresses: Seq::new(
                                count as nat,
                                |i: int| ((bytes[2 * i] & 0x7F) + (bytes[2 * i + 1] & 0x7F) * 128) as u16,
                            ),
                            ..base
                        },
                    )
                }
            }
        }
    }
}

/// The profile message a SysEx holds, `None` when it is not one.
pub open spec fn spec_profile_parse(m: Midi1Spec) -> Option<ProfileSpec> {
    match spec_parse_sysex(m) {
        None => None,
        Some(view) => {
            let sub_id2 = match view.sub_id2 {
                Some(s) => s,
                None => 0xFFu8,
            };
            if view.manufacturer != UNIVERSAL_NON_REALTIME || view.sub_id1 != Some(MIDI_CI_SUB_ID1) {
                None
            } else if !(profile::INQUIRY <= sub_id2 <= profile::SET_OFF_REPLY) {
                None
            } else {
                spec_profile_payload(
                    view.payload,
                    match view.device_id {
                        Some(d) => d,
                        None => 0x7Fu8,
                    },
                    sub_id2,
                )
            }
        },
    }
}

impl ProfileConfigMessage {
    /// Encodes to a MIDI 1.0 SysEx message. Inquiries list at most 0x3FFF
    /// profiles and switches at most 127 addresses (else `OutOfRange`);
    /// other sub-ID 2 values are `InvalidData`.
    pub fn to_midi1(&self) -> (r: Result<Midi1Message, ControlError>)
        ensures
            !is_profile_inquiry(self.sub_id2) && !is_profile_switch(self.sub_id2) ==> (r matches Err(e)
                && e is InvalidData),
            is_profile_inquiry(self.sub_id2) && self.profiles@.len() > 0x3FFF ==> r == Err::<
                Midi1Message,
                ControlError,
            >(ControlError::OutOfRange { value: self.profiles@.len() as i64, min: 0, max: 0x3FFF }),
            is_profile_switch(self.sub_id2) && self.addresses@.len() > 127 ==> r == Err::<
                Midi1Message,
                ControlError,
            >(ControlError::OutOfRange { value: self.addresses@.len() as i64, min: 0, max: 127 }),
            (is_profile_inquiry(self.sub_id2) && self.profiles@.len() <= 0x3FFF) || (is_profile_switch(
                self.sub_id2,
            ) && self.addresses@.len() <= 127) ==> (r matches Ok(msg) && msg@ == Midi1Spec::SystemExclusive(
                spec_universal_bytes(
                    UNIVERSAL_NON_REALTIME,
                    self.device_id & 0x7F,
                    MIDI_CI_SUB_ID1,
                    self.sub_id2,
                    spec_profile_body(self@),
                ),
            )),
    {
        let mut body: Vec<u8> = Vec::new();
        body.push(self.version & 0x7F);
        push_muid(&mut body, self.source_muid);
        push_muid(&mut body, self.destination_muid);
        let ghost head = body@;
        let ghost v = self@;
        if self.sub_id2 == profile::INQUIRY || self.sub_id2 == profile::INQUIRY_REPLY {
            let count = self.profiles.len();
            if count > 0x3FFF {
                return Err(ControlError::OutOfRange { value: count as i64, min: 0, max: 0x3FFF });
            }
            body.push((count % 128) as u8);
            body.push((count / 128 % 128) as u8);
            let ghost mid = body@;
            let mut i: usize = 0;
            while i < count
                invariant
                    count == self.profiles@.len(),
                    v == self@,
                    i <= count,
                    body@ == mid + spec_triplet_bytes(v.profiles.take(i as int)),
                decreases count - i,
            {
                let p = self.profiles[i];
                body.push(p[0] & 0x7F);
                body.push(p[1] & 0x7F);
                body.push(p[2] & 0x7F);
                i += 1;
                proof {
                    assert(v.profiles.take(i as int).drop_last() =~= v.profiles.take(i - 1));
                    assert(v.profiles[i - 1] == p@);
                    assert(body@ =~= mid + spec_triplet_bytes(v.profiles.take(i as int)));
                }
            }
            proof {
                assert(v.profiles.take(count as int) =~= v.profiles);
                assert(body@ =~= spec_profile_body(v));
            }
        } else if profile::SET_ON <= self.sub_id2 && self.sub_id2 <= profile::SET_OFF_REPLY {
            body.push(self.profile[0] & 0x7F);
            body.push(self.profile[1] & 0x7F);
            let count = self.addresses.len();
            if count > 127 {
                return Err(ControlError::OutOfRange { value: count as i64, min: 0, max: 127 });
            }
            body.push(0x00);  // address type: 7-bit channel/block ids
            body.push(count as u8);
            let ghost mid = body@;
            let mut i: usize = 0;
            while i < count
                invariant
                    count == self.addresses@.len(),
                    v == self@,
                    i <= count,
                    body@ == mid + spec_address_bytes(v.addresses.take(i as int)),
                decreases count - i,
            {
                let a = self.addresses[i];
                body.push((a % 128) as u8);
                body.push((a / 128 % 128) as u8);
                i += 1;
                proof {
                    assert(v.addresses.take(i as int).drop_last() =~= v.addresses.take(i - 1));
                    assert(body@ =~= mid + spec_address_bytes(v.addresses.take(i as int)));
                }
            }
            proof {
                assert(v.addresses.take(count as int) =~= v.addresses);
                assert(body@ =~= spec_profile_body(v));
            }
        } else {
            return Err(invalid_data("not a profile sub-id2"));
        }
        Ok(sysex_universal(UNIVERSAL_NON_REALTIME, self.device_id & 0x7F, MIDI_CI_SUB_ID1, self.sub_id2, body.as_slice()))
    }

    /// Parses a Profile Configuration message from a MIDI 1.0 SysEx.
    pub fn from_midi1(message: &Midi1Message) -> (r: Result<ProfileConfigMessage, ControlError>)
        requires
            !is_bare_sysex(message@),
        ensures
            spec_profile_parse(message@) is None <==> r is Err,
            r matches Ok(m) ==> spec_profile_parse(message@) == Some(m@),
            r matches Err(e) ==> e is InvalidData,
    {
        let view = parse_sysex(message)?;
        if view.manufacturer != UNIVERSAL_NON_REALTIME || view.sub_id1 != Some(MIDI_CI_SUB_ID1) {
            return Err(invalid_data("not a MIDI-CI message"));
        }
        let sub_id2 = match view.sub_id2 {
            Some(s) => s,
            None => 0xFF,
        };
        if !(profile::INQUIRY <= sub_id2 && sub_id2 <= profile::SET_OFF_REPLY) {
            return Err(invalid_data("not a profile sub-id2"));
        }
        let payload = view.payload;
        if payload.len() < 9 {
            return Err(invalid_data("profile body too short"));
        }
        let version = payload[0] & 0x7F;
        let (source_muid, _) = take_muid(vstd::slice::slice_subrange(payload, 1, payload.len()));
        let (destination_muid, _) = take_muid(vstd::slice::slice_subrange(payload, 5, payload.len()));
        let device_id = match view.device_id {
            Some(d) => d,
            None => 0x7F,
        };
        let rest = vstd::slice::slice_subrange(payload, 9, payload.len());
        proof {
            assert(rest@ =~= payload@.skip(9));
        }
        let mut out = ProfileConfigMessage {
            device_id,
            version,
            source_muid,
            destination_muid,
            sub_id2,
            profiles: Vec::new(),
            profile: [0, 0],
            addresses: Vec::new(),
        };
        if sub_id2 == profile::INQUIRY || sub_id2 == profile::INQUIRY_REPLY {
            if rest.len() < 2 {
                return Err(invalid_data("profile count missing"));
            }
            let count: usize = (rest[0] & 0x7F) as usize + ((rest[1] & 0x7F) as usize) * 128;
            let bytes = vstd::slice::slice_subrange(rest, 2, rest.len());
            proof {
                assert(bytes@ =~= rest@.skip(2));
            }
            if bytes.len() / 3 < count {
                return Err(invalid_data("profile list truncated"));
            }
            let mut profiles: Vec<[u8; 3]> = Vec::new();
            let mut i: usize = 0;
            while i < count
                invariant
                    i <= count,
                    count * 3 <= bytes@.len(),
                    bytes@.len() == bytes.len(),
                    profiles@.len() == i,
                    forall|j: int| 0 <= j < i ==> #[trigger] profiles@[j]@ == crate::sysex::mask7(
                        bytes@.subrange(3 * j, 3 * j + 3),
                    ),
                decreases count - i,
            {
                assert(3 * i + 2 < bytes@.len()) by (nonlinear_arith)
                    requires
                        i < count,
                        count * 3 <= bytes@.len(),
                ;
                let t: [u8; 3] = [bytes[3 * i] & 0x7F, bytes[3 * i + 1] & 0x7F, bytes[3 * i + 2] & 0x7F];
                proof {
                    assert(t@ =~= crate::sysex::mask7(bytes@.subrange(3 * i, 3 * i + 3)));
                }
                profiles.push(t);
                i += 1;
            }
            out.profiles = profiles;
            proof {
                assert(out@.profiles =~= Seq::new(
                    count as nat,
                    |i: int| crate::sysex::mask7(bytes@.subrange(3 * i, 3 * i + 3)),
                ));
            }
        } else {
            if rest.len() < 4 {
                return Err(invalid_data("profile switch truncated"));
            }
            out.profile = [rest[0] & 0x7F, rest[1] & 0x7F];
            let count: usize = (rest[3] & 0x7F) as usize;
            let bytes = vstd::slice::slice_subrange(rest, 4, rest.len());
            proof {
                assert(bytes@ =~= rest@.skip(4));
                assert(out.profile@ =~= seq![rest@[0] & 0x7F, rest@[1] & 0x7F]);
            }
            if bytes.len() / 2 < count {
                return Err(invalid_data("address list truncated"));
            }
            let mut addresses: Vec<u16> = Vec::new();
            let mut i: usize = 0;
            while i < count
                invariant
                    i <= count,
                    count * 2 <= bytes@.len(),
                    bytes@.len() == bytes.len(),
                    addresses@.len() == i,
                    forall|j: int| 0 <= j < i ==> #[trigger] addresses@[j] == ((bytes@[2 * j] & 0x7F) + (bytes@[2 * j
                        + 1] & 0x7F) * 128) as u16,
                decreases count - i,
            {
                assert(2 * i + 1 < bytes@.len()) by (nonlinear_arith)
                    requires
                        i < count,
                        count * 2 <= bytes@.len(),
                ;
                let a: u16 = (bytes[2 * i] & 0x7F) as u16 + ((bytes[2 * i + 1] & 0x7F) as u16) * 128;
                addresses.push(a);
                i += 1;
            }
            out.addresses = addresses;
            proof {
                assert(out@.addresses =~= Seq::new(
                    count as nat,
                    |i: int| ((bytes@[2 * i] & 0x7F) + (bytes@[2 * i + 1] & 0x7F) * 128) as u16,
                ));
                assert(out@.profiles =~= Seq::<Seq<u8>>::empty());
            }
        }
        Ok(out)
    }
}

/// The fields of a PE message that survive encoding and parsing: a PE
/// sub-ID 2, 7-bit device ID, version, request ID and status, 28-bit MUIDs,
/// a status of 0 unless the message is a Set Property Data Reply, an ASCII
/// header below 0x7F of at most 0x3FFF bytes, and 7-bit data that is empty
/// unless the message carries data.
pub open spec fn pe_fields_in_range(m: PeSpec) -> bool {
    let hb = vstd::utf8::encode_utf8(m.header);
    &&& PE_GET_PROPERTY_DATA <= m.sub_id2 <= PE_NOTIFY_PROPERTY_DATA_CHANGED
    &&& m.device_id < 0x80
    &&& m.version < 0x80
    &&& m.request_id < 0x80
    &&& m.source_muid < 0x1000_0000
    &&& m.destination_muid < 0x1000_0000
    &&& (if m.sub_id2 == PE_SET_PROPERTY_DATA_REPLY { m.status < 0x80 } else { m.status == 0 })
    &&& all_below(hb, 0x7F)
    &&& hb.len() <= 0x3FFF
    &&& all_below(m.data, 0x80)
    &&& (!spec_carries_data(m.sub_id2) ==> m.data.len() == 0)
}

/// What `to_midi1` encodes, `from_midi1` parses back to the same message,
/// for every message whose fields are in range.
#[verifier::rlimit(40)]
#[verifier::spinoff_prover]
pub proof fn lemma_pe_roundtrip(m: PeSpec)
    requires
        pe_fields_in_range(m),
    ensures
        !is_bare_sysex(
            Midi1Spec::SystemExclusive(
                spec_universal_bytes(
                    UNIVERSAL_NON_REALTIME,
                    m.device_id & 0x7F,
                    MIDI_CI_SUB_ID1,
                    m.sub_id2,
                    spec_pe_body(m, vstd::utf8::encode_utf8(m.header)),
                ),
            ),
        ),
        spec_pe_parse(
            Midi1Spec::SystemExclusive(
                spec_universal_bytes(
                    UNIVERSAL_NON_REALTIME,
                    m.device_id & 0x7F,
                    MIDI_CI_SUB_ID1,
                    m.sub_id2,
                    spec_pe_body(m, vstd::utf8::encode_utf8(m.header)),
                ),
            ),
        ) == Some(m),
{
    let hb = vstd::utf8::encode_utf8(m.header);
    let hl = hb.len();
    let body = spec_pe_body(m, hb);
    lemma_low7(m.device_id);
    lemma_low7(m.version);
    lemma_low7(m.request_id);
    lemma_low7(m.status);
    lemma_low7(MIDI_CI_SUB_ID1);
    lemma_low7(m.sub_id2);
    let st = if m.sub_id2 == PE_SET_PROPERTY_DATA_REPLY { seq![m.status] } else { Seq::<u8>::empty() };
    let dt = if spec_carries_data(m.sub_id2) { m.data } else { Seq::<u8>::empty() };
    let lens = seq![(hl % 128) as u8, (hl / 128 % 128) as u8];
    let after = seq![m.request_id] + st + lens + hb + dt;
    lemma_muid_roundtrip(m.destination_muid, after);
    lemma_muid_roundtrip(m.source_muid, spec_muid_bytes(m.destination_muid) + after);
    assert(body =~= seq![m.version] + (spec_muid_bytes(m.source_muid) + (spec_muid_bytes(m.destination_muid) + after)));
    assert(all_7bit(body, 0, body.len() as int));
    lemma_mask7_id(body);
    lemma_universal_view(UNIVERSAL_NON_REALTIME, m.device_id & 0x7F, MIDI_CI_SUB_ID1, m.sub_id2, body);
    assert(body.subrange(1, body.len() as int) =~= spec_muid_bytes(m.source_muid) + (spec_muid_bytes(m.destination_muid) + after));
    assert(body.subrange(5, body.len() as int) =~= spec_muid_bytes(m.destination_muid) + after);
    let cursor: int = if m.sub_id2 == PE_SET_PROPERTY_DATA_REPLY { 11 } else { 10 };
    lemma_low7((hl % 128) as u8);
    lemma_low7((hl / 128 % 128) as u8);
    assert(body[cursor] == (hl % 128) as u8 && body[cursor + 1] == (hl / 128 % 128) as u8);
    assert(((hl % 128) as u8) + ((hl / 128 % 128) as u8) * 128 == hl);
    assert(body.subrange(cursor + 2, cursor + 2 + hl) =~= hb);
    assert(body.subrange(cursor + 2 + hl, body.len() as int) =~= dt);
    vstd::utf8::encode_utf8_valid_utf8(m.header);
    vstd::utf8::encode_utf8_decode_utf8(m.header);
    assert(lossy_text(hb) == m.header);
    if !spec_carries_data(m.sub_id2) {
        assert(m.data =~= Seq::<u8>::empty());
    }
    assert(body.len() >= 11);
    assert(spec_take_muid(body.subrange(1, body.len() as int)).0 == m.source_muid);
    assert(spec_pe_payload(body, m.device_id, m.sub_id2) == Some(m));
}

/// The address bytes hold each address as its low and high 7-bit groups.
proof fn lemma_address_bytes(addrs: Seq<u16>)
    ensures
        spec_address_bytes(addrs).len() == 2 * addrs.len(),
        forall|i: int|
            0 <= i < addrs.len() ==> spec_address_bytes(addrs)[2 * i] == (#[trigger] addrs[i] % 128) as u8
                && spec_address_bytes(addrs)[2 * i + 1] == (addrs[i] / 128 % 128) as u8,
    decreases addrs.len(),
{
    if addrs.len() > 0 {
        let front = addrs.drop_last();
        lemma_address_bytes(front);
        assert forall|i: int| 0 <= i < addrs.len() implies spec_address_bytes(addrs)[2 * i] == (#[trigger] addrs[i]
            % 128) as u8 && spec_address_bytes(addrs)[2 * i + 1] == (addrs[i] / 128 % 128) as u8 by {
            if i < front.len() {
                assert(front[i] == addrs[i]);
            }
        }
    }
}

/// The triplet bytes hold each profile, masked, three bytes apiece.
proof fn lemma_triplet_bytes(ps: Seq<Seq<u8>>)
    requires
        forall|i: int| 0 <= i < ps.len() ==> (#[trigger] ps[i]).len() == 3,
    ensures
        spec_triplet_bytes(ps).len() == 3 * ps.len(),
        forall|i: int|
            0 <= i < ps.len() ==> spec_triplet_bytes(ps).subrange(3 * i, 3 * i + 3) == crate::sysex::mask7(
                #[trigger] ps[i],
            ),
    decreases ps.len(),
{
    if ps.len() > 0 {
        let front = ps.drop_last();
        assert forall|i: int| 0 <= i < front.len() implies (#[trigger] front[i]).len() == 3 by {
            assert(front[i] == ps[i]);
        }
        lemma_triplet_bytes(front);
        let t = spec_triplet_bytes(ps);
        assert forall|i: int| 0 <= i < ps.len() implies t.subrange(3 * i, 3 * i + 3) == crate::sysex::mask7(
            #[trigger] ps[i],
        ) by {
            if i < front.len() {
                assert(front[i] == ps[i]);
                assert(t.subrange(3 * i, 3 * i + 3) =~= spec_triplet_bytes(front).subrange(3 * i, 3 * i + 3));
            } else {
                assert(t.subrange(3 * i, 3 * i + 3) =~= crate::sysex::mask7(ps.last()));
            }
        }
    }
}

/// The fields of a profile message that survive encoding and parsing: a
/// profile sub-ID 2, 7-bit device ID and version, 28-bit MUIDs; for an
/// inquiry, at most 0x3FFF profiles of three 7-bit bytes, no addresses and
/// the switched profile left at zero; for a switch, no listed profiles, a
/// 7-bit two-byte profile and at most 127 addresses below 0x4000.
pub open spec fn profile_fields_in_range(m: ProfileSpec) -> bool {
    &&& profile::INQUIRY <= m.sub_id2 <= profile::SET_OFF_REPLY
    &&& m.device_id < 0x80
    &&& m.version < 0x80
    &&& m.source_muid < 0x1000_0000
    &&& m.destination_muid < 0x1000_0000
    &&& if is_profile_inquiry(m.sub_id2) {
        &&& m.profiles.len() <= 0x3FFF
        &&& forall|i: int| 0 <= i < m.profiles.len() ==> (#[trigger] m.profiles[i]).len() == 3 && all_7bit(m.profiles[i], 0, 3)
        &&& m.profile == seq![0u8, 0u8]
        &&& m.addresses.len() == 0
    } else {
        &&& m.profiles.len() == 0
        &&& m.profile.len() == 2
        &&& m.profile[0] < 0x80
        &&& m.profile[1] < 0x80
        &&& m.addresses.len() <= 127
        &&& forall|i: int| 0 <= i < m.addresses.len() ==> #[trigger] m.addresses[i] < 0x4000
    }
}

/// What `to_midi1` encodes, `from_midi1` parses back to the same message,
/// for every message whose fields are in range.
#[verifier::rlimit(40)]
#[verifier::spinoff_prover]
pub proof fn lemma_profile_roundtrip(m: ProfileSpec)
    requires
        profile_fields_in_range(m),
    ensures
        !is_bare_sysex(
            Midi1Spec::SystemExclusive(
                spec_universal_bytes(UNIVERSAL_NON_REALTIME, m.device_id & 0x7F, MIDI_CI_SUB_ID1, m.sub_id2, spec_profile_body(m)),
            ),
        ),
        spec_profile_parse(
            Midi1Spec::SystemExclusive(
                spec_universal_bytes(UNIVERSAL_NON_REALTIME, m.device_id & 0x7F, MIDI_CI_SUB_ID1, m.sub_id2, spec_profile_body(m)),
            ),
        ) == Some(m),
{
    let body = spec_profile_body(m);
    lemma_low7(m.device_id);
    lemma_low7(m.version);
    lemma_low7(MIDI_CI_SUB_ID1);
    lemma_low7(m.sub_id2);
    let tail = body.skip(9);
    if is_profile_inquiry(m.sub_id2) {
        let n = m.profiles.len();
        lemma_triplet_bytes(m.profiles);
        let tb = spec_triplet_bytes(m.profiles);
        assert(tail =~= seq![(n % 128) as u8, (n / 128 % 128) as u8] + tb);
        lemma_low7((n % 128) as u8);
        lemma_low7((n / 128 % 128) as u8);
        assert forall|k: int| 0 <= k < tb.len() implies #[trigger] tb[k] < 0x80 by {
            let i = k / 3;
            assert(0 <= i < n);
            assert(tb.subrange(3 * i, 3 * i + 3)[k - 3 * i] == tb[k]);
            lemma_mask7_id(m.profiles[i]);
        }
        assert(tb.len() == 3 * n);
        assert forall|i: int| 0 <= i < n implies crate::sysex::mask7(tb.subrange(3 * i, 3 * i + 3)) == #[trigger] m.profiles[i] by {
            lemma_mask7_id(m.profiles[i]);
        }
        assert(tail.skip(2) =~= tb);
        assert((tail[0] & 0x7F) + (tail[1] & 0x7F) * 128 == n);
        assert(Seq::new(n as nat, |i: int| crate::sysex::mask7(tb.subrange(3 * i, 3 * i + 3))) =~= m.profiles);
        assert(m.addresses =~= Seq::<u16>::empty());
    } else {
        let a = m.addresses;
        lemma_address_bytes(a);
        let ab = spec_address_bytes(a);
        lemma_low7(m.profile[0]);
        lemma_low7(m.profile[1]);
        lemma_low7(a.len() as u8);
        assert(tail =~= seq![m.profile[0], m.profile[1], 0u8, a.len() as u8] + ab);
        assert forall|k: int| 0 <= k < ab.len() implies #[trigger] ab[k] < 0x80 by {
            let i = k / 2;
            assert(0 <= i < a.len());
            assert(a[i] < 0x4000);
            if k % 2 == 0 {
                assert(k == 2 * i);
            } else {
                assert(k == 2 * i + 1);
            }
        }
        assert forall|i: int| 0 <= i < a.len() implies ((ab[2 * i] & 0x7F) + (ab[2 * i + 1] & 0x7F) * 128) as u16
            == #[trigger] a[i] by {
            lemma_low7(ab[2 * i]);
            lemma_low7(ab[2 * i + 1]);
        }
        assert(tail.skip(4) =~= ab);
        assert(seq![m.profile[0], m.profile[1]] =~= m.profile);
        assert(tail[3] & 0x7F == a.len());
        assert(Seq::new(a.len(), |i: int| ((ab[2 * i] & 0x7F) + (ab[2 * i + 1] & 0x7F) * 128) as u16) =~= a);
        assert(m.profiles =~= Seq::<Seq<u8>>::empty());
    }
    lemma_muid_roundtrip(m.destination_muid, tail);
    lemma_muid_roundtrip(m.source_muid, spec_muid_bytes(m.destination_muid) + tail);
    assert(body =~= seq![m.version] + (spec_muid_bytes(m.source_muid) + (spec_muid_bytes(m.destination_muid) + tail)));
    assert(all_7bit(body, 0, body.len() as int));
    lemma_mask7_id(body);
    lemma_universal_view(UNIVERSAL_NON_REALTIME, m.device_id & 0x7F, MIDI_CI_SUB_ID1, m.sub_id2, body);
    assert(body.subrange(1, body.len() as int) =~= spec_muid_bytes(m.source_muid) + (spec_muid_bytes(m.destination_muid) + tail));
    assert(body.subrange(5, body.len() as int) =~= spec_muid_bytes(m.destination_muid) + tail);
    assert(spec_profile_payload(body, m.device_id, m.sub_id2) == Some(m));
}

} // verus!
