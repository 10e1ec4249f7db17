//! Low-level OSC wire-format primitives: big-endian scalar reads/writes and
//! 4-byte-aligned padding. All readers borrow; none allocate.
use vstd::prelude::*;
use vstd::string::StringSliceAdditionalSpecFns;

use crate::error::{invalid_data, ControlError};
use crate::wire::{push_repeat, push_slice, repeat_byte};

pub mod tags;

verus! {

/// `n` rounded up to the next multiple of 4.
pub open spec fn spec_padded_len(n: int) -> int {
    (n + 3) / 4 * 4
}

/// `payload`, a NUL terminator and zeros up to a 4-byte boundary.
pub open spec fn spec_padded(payload: Seq<u8>) -> Seq<u8> {
    payload + repeat_byte(0, (spec_padded_len(payload.len() + 1 as int) - payload.len()) as nat)
}

/// The big-endian number in `d[at..at + 4]`.
pub open spec fn be_u32_at(d: Seq<u8>, at: int) -> u32 {
    (d[at] * 0x100_0000 + d[at + 1] * 0x1_0000 + d[at + 2] * 0x100 + d[at + 3]) as u32
}

/// The big-endian number in `d[at..at + 8]`.
pub open spec fn be_u64_at(d: Seq<u8>, at: int) -> u64 {
    (be_u32_at(d, at) * 0x1_0000_0000 + be_u32_at(d, at + 4)) as u64
}

/// The first index at or after `from` holding a zero byte.
pub open spec fn find_nul(d: Seq<u8>, from: int) -> Option<int>
    decreases d.len() - from,
{
    if from < 0 || from >= d.len() {
        None
    } else if d[from] == 0 {
        Some(from)
    } else {
        find_nul(d, from + 1)
    }
}

/// `find_nul` from `from` finds `n` when `d[n]` is the first zero byte.
pub proof fn lemma_find_nul_at(d: Seq<u8>, from: int, n: int)
    requires
        0 <= from <= n < d.len(),
        d[n] == 0,
        forall|j: int| from <= j < n ==> d[j] != 0,
    ensures
        find_nul(d, from) == Some(n),
    decreases n - from,
{
    if from < n {
        lemma_find_nul_at(d, from + 1, n);
    }
}

/// Reading a NUL-terminated string at `off`: its bytes and the offset after
/// its padding, or `None` when there is no NUL or the padding overruns.
pub open spec fn spec_read_cstr(d: Seq<u8>, off: int) -> Option<(Seq<u8>, int)> {
    match find_nul(d, off) {
        None => None,
        Some(nul) => {
            let after = off + spec_padded_len(nul - off + 1);
            if after > d.len() {
                None
            } else {
                Some((d.subrange(off, nul), after))
            }
        },
    }
}

/// `find_nul` finds the first zero byte.
pub proof fn lemma_find_nul(d: Seq<u8>, from: int)
    requires
        0 <= from,
    ensures
        find_nul(d, from) matches Some(n) ==> from <= n < d.len() && d[n] == 0 && forall|j: int|
            from <= j < n ==> d[j] != 0,
        find_nul(d, from) is None ==> forall|j: int| from <= j < d.len() ==> d[j] != 0,
    decreases d.len() - from,
{
    if from < d.len() && d[from] != 0 {
        lemma_find_nul(d, from + 1);
    }
}

/// Rounds `len` up to the next multiple of 4 (OSC's alignment rule).
pub fn padded_len(len: usize) -> (r: usize)
    requires
        len <= usize::MAX - 3,
    ensures
        r == spec_padded_len(len as int),
{
    (len + 3) / 4 * 4
}

/// Encodes `s` (with its terminating NUL) padded to a 4-byte boundary.
pub fn string_to_padded_bytes(s: &str) -> (out: Vec<u8>)
    requires
        s.spec_bytes().len() <= usize::MAX - 4,
    ensures
        out@ == spec_padded(s.spec_bytes()),
{
    let mut out: Vec<u8> = Vec::new();
    padded_into(&mut out, s.as_bytes());
    out
}

/// Appends `payload` plus a NUL terminator, padded to a 4-byte boundary.
pub fn padded_into(buf: &mut Vec<u8>, payload: &[u8])
    requires
        payload@.len() <= usize::MAX - 4,
    ensures
        final(buf)@ == old(buf)@ + spec_padded(payload@),
{
    push_slice(buf, payload);
    let pad = padded_len(payload.len() + 1) - payload.len();
    push_repeat(buf, 0, pad);
    proof {
        assert(final(buf)@ =~= old(buf)@ + spec_padded(payload@));
    }
}

/// Reads a `u32` at `offset`.
pub fn read_u32(data: &[u8], offset: usize) -> (r: Result<u32, ControlError>)
    ensures
        offset + 4 <= data@.len() ==> r == Ok::<u32, ControlError>(be_u32_at(data@, offset as int)),
        offset + 4 > data@.len() ==> (r matches Err(e) && e is InvalidData),
{
    if offset > data.len() || data.len() - offset < 4 {
        return Err(invalid_data("truncated OSC data"));
    }
    let v: u32 = (data[offset] as u32) * 0x100_0000 + (data[offset + 1] as u32) * 0x1_0000 + (data[offset
        + 2] as u32) * 0x100 + data[offset + 3] as u32;
    Ok(v)
}

/// Reads an `i32` at `offset`.
pub fn read_i32(data: &[u8], offset: usize) -> (r: Result<i32, ControlError>)
    ensures
        offset + 4 <= data@.len() ==> r == Ok::<i32, ControlError>(be_u32_at(data@, offset as int) as i32),
        offset + 4 > data@.len() ==> (r matches Err(e) && e is InvalidData),
{
    match read_u32(data, offset) {
        Ok(v) => Ok(v as i32),
        Err(e) => Err(e),
    }
}

/// Reads a `u64` at `offset`.
pub fn read_u64(data: &[u8], offset: usize) -> (r: Result<u64, ControlError>)
    ensures
        offset + 8 <= data@.len() ==> r == Ok::<u64, ControlError>(be_u64_at(data@, offset as int)),
        offset + 8 > data@.len() ==> (r matches Err(e) && e is InvalidData),
{
    if offset > data.len() || data.len() - offset < 8 {
        return Err(invalid_data("truncated OSC data"));
    }
    let hi: u64 = (data[offset] as u64) * 0x100_0000 + (data[offset + 1] as u64) * 0x1_0000 + (data[offset
        + 2] as u64) * 0x100 + data[offset + 3] as u64;
    let lo: u64 = (data[offset + 4] as u64) * 0x100_0000 + (data[offset + 5] as u64) * 0x1_0000 + (data[offset
        + 6] as u64) * 0x100 + data[offset + 7] as u64;
    Ok(hi * 0x1_0000_0000 + lo)
}

/// Reads an `i64` at `offset`.
pub fn read_i64(data: &[u8], offset: usize) -> (r: Result<i64, ControlError>)
    ensures
        offset + 8 <= data@.len() ==> r == Ok::<i64, ControlError>(be_u64_at(data@, offset as int) as i64),
        offset + 8 > data@.len() ==> (r matches Err(e) && e is InvalidData),
{
    match read_u64(data, offset) {
        Ok(v) => Ok(v as i64),
        Err(e) => Err(e),
    }
}

/// Reads a NUL-terminated byte string starting at `offset`. Returns the
/// payload and the offset *after* its 4-byte-aligned padding.
pub fn read_null_terminated(data: &[u8], offset: usize) -> (r: Result<(&[u8], usize), ControlError>)
    requires
        offset <= data@.len(),
    ensures
        spec_read_cstr(data@, offset as int) is None <==> r is Err,
        r matches Err(e) ==> e is InvalidData,
        r matches Ok((payload, next)) ==> spec_read_cstr(data@, offset as int) == Some(
            (payload@, next as int),
        ),
{
    let mut nul: usize = offset;
    while nul < data.len() && data[nul] != 0
        invariant
            offset <= nul <= data@.len(),
            find_nul(data@, offset as int) == find_nul(data@, nul as int),
        decreases data@.len() - nul,
    {
        nul += 1;
    }
    if nul >= data.len() {
        return Err(invalid_data("unterminated OSC string"));
    }
    let span = nul - offset + 1;
    let after_pad_len: u128 = (span as u128 + 3) / 4 * 4;
    if after_pad_len > (data.len() - offset) as u128 {
        return Err(invalid_data("string padding overruns packet"));
    }
    let after_pad = offset + after_pad_len as usize;
    let payload = vstd::slice::slice_subrange(data, offset, nul);
    Ok((payload, after_pad))
}

} // verus!
