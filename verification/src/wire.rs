//! Byte-buffer building blocks shared by the packet encoders.
use vstd::prelude::*;

verus! {

/// `n` copies of the byte `b`.
pub open spec fn repeat_byte(b: u8, n: nat) -> Seq<u8> {
    Seq::new(n, |i: int| b)
}

/// `text` cut or zero-padded to exactly `width` bytes.
pub open spec fn fixed_width(text: Seq<u8>, width: nat) -> Seq<u8> {
    if text.len() >= width {
        text.take(width as int)
    } else {
        text + repeat_byte(0, (width - text.len()) as nat)
    }
}

/// The two bytes of `v`, most significant first.
pub open spec fn be16(v: u16) -> Seq<u8> {
    seq![(v / 256) as u8, (v % 256) as u8]
}

/// The four bytes of `v`, most significant first.
pub open spec fn be32(v: u32) -> Seq<u8> {
    seq![(v / 0x100_0000) as u8, (v / 0x1_0000 % 256) as u8, (v / 256 % 256) as u8, (v % 256) as u8]
}

/// The eight bytes of `v`, most significant first.
pub open spec fn be64(v: u64) -> Seq<u8> {
    be32((v / 0x1_0000_0000) as u32) + be32((v % 0x1_0000_0000) as u32)
}

/// Appends all of `bytes`.
pub fn push_slice(buf: &mut Vec<u8>, bytes: &[u8])
    ensures
        final(buf)@ == old(buf)@ + bytes@,
{
    let ghost start = buf@;
    let mut i: usize = 0;
    while i < bytes.len()
        invariant
            i <= bytes@.len(),
            buf@ == start + bytes@.take(i as int),
        decreases bytes@.len() - i,
    {
        buf.push(bytes[i]);
        i += 1;
        proof {
            assert(buf@ =~= start + bytes@.take(i as int));
        }
    }
    proof {
        assert(bytes@.take(bytes@.len() as int) =~= bytes@);
    }
}

/// Appends `n` copies of `b`.
pub fn push_repeat(buf: &mut Vec<u8>, b: u8, n: usize)
    ensures
        final(buf)@ == old(buf)@ + repeat_byte(b, n as nat),
{
    let ghost start = buf@;
    let mut i: usize = 0;
    while i < n
        invariant
            i <= n,
            buf@ == start + repeat_byte(b, i as nat),
        decreases n - i,
    {
        buf.push(b);
        i += 1;
        proof {
            assert(buf@ =~= start + repeat_byte(b, i as nat));
        }
    }
}

/// Appends `text`, cut or zero-padded to exactly `width` bytes.
pub fn push_fixed_bytes(buf: &mut Vec<u8>, text: &[u8], width: usize)
    ensures
        final(buf)@ == old(buf)@ + fixed_width(text@, width as nat),
{
    let ghost start = buf@;
    let n = if text.len() < width { text.len() } else { width };
    let mut i: usize = 0;
    while i < n
        invariant
            n <= text@.len(),
            n <= width,
            i <= n,
            buf@ == start + text@.take(i as int),
        decreases n - i,
    {
        buf.push(text[i]);
        i += 1;
        proof {
            assert(buf@ =~= start + text@.take(i as int));
        }
    }
    push_repeat(buf, 0, width - n);
    proof {
        if text@.len() >= width {
            assert(buf@ =~= start + fixed_width(text@, width as nat));
        } else {
            assert(text@.take(n as int) =~= text@);
            assert(buf@ =~= start + fixed_width(text@, width as nat));
        }
    }
}

/// Appends the big-endian bytes of `v`.
pub fn push_be16(buf: &mut Vec<u8>, v: u16)
    ensures
        final(buf)@ == old(buf)@ + be16(v),
{
    buf.push((v / 256) as u8);
    buf.push((v % 256) as u8);
    proof {
        assert(final(buf)@ =~= old(buf)@ + be16(v));
    }
}

/// Appends the big-endian bytes of `v`.
pub fn push_be32(buf: &mut Vec<u8>, v: u32)
    ensures
        final(buf)@ == old(buf)@ + be32(v),
{
    buf.push((v / 0x100_0000) as u8);
    buf.push((v / 0x1_0000 % 256) as u8);
    buf.push((v / 256 % 256) as u8);
    buf.push((v % 256) as u8);
    proof {
        assert(final(buf)@ =~= old(buf)@ + be32(v));
    }
}

/// Appends the big-endian bytes of `v`.
pub fn push_be64(buf: &mut Vec<u8>, v: u64)
    ensures
        final(buf)@ == old(buf)@ + be64(v),
{
    push_be32(buf, (v / 0x1_0000_0000) as u32);
    push_be32(buf, (v % 0x1_0000_0000) as u32);
    proof {
        assert(final(buf)@ =~= old(buf)@ + be64(v));
    }
}

/// Copies `data[start..end]` into a new vector.
pub fn slice_to_vec(data: &[u8], start: usize, end: usize) -> (out: Vec<u8>)
    requires
        start <= end <= data@.len(),
    ensures
        out@ == data@.subrange(start as int, end as int),
{
    let mut out: Vec<u8> = Vec::new();
    let mut i: usize = start;
    while i < end
        invariant
            start <= i <= end,
            end <= data@.len(),
            out@ == data@.subrange(start as int, i as int),
        decreases end - i,
    {
        out.push(data[i]);
        i += 1;
        proof {
            assert(out@ =~= data@.subrange(start as int, i as int));
        }
    }
    out
}

/// Whether `data[start..start + expected.len()]` equals `expected`.
pub fn bytes_match_at(data: &[u8], start: usize, expected: &[u8]) -> (b: bool)
    requires
        start + expected@.len() <= data@.len(),
    ensures
        b == (data@.subrange(start as int, start + expected@.len()) == expected@),
{
    let mut i: usize = 0;
    while i < expected.len()
        invariant
            i <= expected@.len(),
            start + expected@.len() <= data@.len(),
            data@.len() == data.len(),
            forall|j: int| 0 <= j < i ==> data@[start + j] == expected@[j],
        decreases expected@.len() - i,
    {
        if data[start + i] != expected[i] {
            proof {
                assert(data@.subrange(start as int, start + expected@.len())[i as int] != expected@[i as int]);
            }
            return false;
        }
        i += 1;
    }
    proof {
        assert(data@.subrange(start as int, start + expected@.len()) =~= expected@);
    }
    true
}

} // verus!
