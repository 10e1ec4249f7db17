//! What a parse of an encoded OSC message gives back.
use vstd::prelude::*;

use crate::message::{
    spec_encode_arg, spec_encode_args, spec_encode_message, spec_parse_osc, spec_read_arg,
    spec_read_args, spec_tag_bytes, spec_type_tag, spec_valid_address, OscArgSpec,
    OscMessageRefSpec,
};
use crate::types::tags;
use crate::types::{be_u32_at, be_u64_at, find_nul, lemma_find_nul, lemma_find_nul_at, spec_padded, spec_padded_len, spec_read_cstr};
use crate::wire::{be32, be64, repeat_byte};

verus! {

/// The four bytes of `be32(x)` read back as a number give `x`.
pub proof fn lemma_be32_read(x: u32)
    ensures
        be_u32_at(be32(x), 0) == x,
{
    let b = be32(x);
    let q3 = x / 0x100_0000;
    let q2 = x / 0x1_0000 % 256;
    let q1 = x / 256 % 256;
    let q0 = x % 256;
    assert(q3 * 0x100_0000 + q2 * 0x1_0000 + q1 * 0x100 + q0 == x) by (nonlinear_arith)
        requires
            q3 == x / 0x100_0000,
            q2 == x / 0x1_0000 % 256,
            q1 == x / 256 % 256,
            q0 == x % 256,
    ;
    assert(b[0] == q3 && b[1] == q2 && b[2] == q1 && b[3] == q0);
}

/// The eight bytes of `be64(x)` read back as a number give `x`.
pub proof fn lemma_be64_read(x: u64)
    ensures
        be_u64_at(be64(x), 0) == x,
{
    let hi = (x / 0x1_0000_0000) as u32;
    let lo = (x % 0x1_0000_0000) as u32;
    lemma_be32_read(hi);
    lemma_be32_read(lo);
    let b = be64(x);
    assert(b.subrange(0, 4) =~= be32(hi));
    assert(b.subrange(4, 8) =~= be32(lo));
    lemma_be32_window(b, 0, be32(hi));
    lemma_be32_window(b, 4, be32(lo));
    assert(hi * 0x1_0000_0000 + lo == x) by (nonlinear_arith)
        requires
            hi == x / 0x1_0000_0000,
            lo == x % 0x1_0000_0000,
    ;
}

/// A 4-byte read depends only on the four bytes read.
pub proof fn lemma_be32_window(d: Seq<u8>, off: int, w: Seq<u8>)
    requires
        0 <= off,
        off + 4 <= d.len(),
        w.len() == 4,
        d.subrange(off, off + 4) == w,
    ensures
        be_u32_at(d, off) == be_u32_at(w, 0),
{
    assert(d[off] == w[0] && d[off + 1] == w[1] && d[off + 2] == w[2] && d[off + 3] == w[3]) by {
        assert(d.subrange(off, off + 4)[0] == d[off]);
        assert(d.subrange(off, off + 4)[1] == d[off + 1]);
        assert(d.subrange(off, off + 4)[2] == d[off + 2]);
        assert(d.subrange(off, off + 4)[3] == d[off + 3]);
    }
}

/// An 8-byte read depends only on the eight bytes read.
pub proof fn lemma_be64_window(d: Seq<u8>, off: int, w: Seq<u8>)
    requires
        0 <= off,
        off + 8 <= d.len(),
        w.len() == 8,
        d.subrange(off, off + 8) == w,
    ensures
        be_u64_at(d, off) == be_u64_at(w, 0),
{
    assert(d.subrange(off, off + 4) =~= w.subrange(0, 4));
    assert(d.subrange(off + 4, off + 8) =~= w.subrange(4, 8));
    lemma_be32_window(d, off, w.subrange(0, 4));
    lemma_be32_window(w, 0, w.subrange(0, 4));
    lemma_be32_window(d, off + 4, w.subrange(4, 8));
    lemma_be32_window(w, 4, w.subrange(4, 8));
}

/// Reading a NUL-terminated string at the start of `spec_padded(bytes)`
/// gives `bytes` back and the offset after the padding, when `bytes` has
/// no zero byte.
pub proof fn lemma_read_padded(d: Seq<u8>, off: int, bytes: Seq<u8>)
    requires
        0 <= off,
        off + spec_padded(bytes).len() <= d.len(),
        d.subrange(off, off + spec_padded(bytes).len()) == spec_padded(bytes),
        forall|i: int| 0 <= i < bytes.len() ==> #[trigger] bytes[i] != 0,
    ensures
        spec_read_cstr(d, off) == Some((bytes, off + spec_padded(bytes).len())),
        spec_padded(bytes).len() == spec_padded_len(bytes.len() + 1int),
{
    let p = spec_padded(bytes);
    assert forall|j: int| off <= j < off + bytes.len() implies #[trigger] d[j] != 0 by {
        assert(d.subrange(off, off + p.len())[j - off] == d[j]);
        assert(p[j - off] == bytes[j - off]);
    }
    assert(d[off + bytes.len()] == 0) by {
        assert(d.subrange(off, off + p.len())[bytes.len() as int] == d[off + bytes.len()]);
    }
    lemma_find_nul_at(d, off, off + bytes.len());
    assert(d.subrange(off, off + bytes.len()) =~= bytes) by {
        assert forall|j: int| 0 <= j < bytes.len() implies d.subrange(off, off + bytes.len())[j] == bytes[j] by {
            assert(d.subrange(off, off + p.len())[j] == d[off + j]);
        }
    }
}

/// An argument that encodes and reads back as itself: its string has no
/// zero byte and its blob fits a 32-bit size.
pub open spec fn arg_roundtrips(a: OscArgSpec) -> bool {
    match a {
        OscArgSpec::Str(s) => forall|i: int|
            0 <= i < vstd::utf8::encode_utf8(s).len() ==> #[trigger] vstd::utf8::encode_utf8(s)[i] != 0,
        OscArgSpec::Symbol(s) => forall|i: int|
            0 <= i < vstd::utf8::encode_utf8(s).len() ==> #[trigger] vstd::utf8::encode_utf8(s)[i] != 0,
        OscArgSpec::Blob(b) => b.len() < 0x1_0000_0000,
        _ => true,
    }
}

/// One argument encoded at `off` reads back as itself, ending where its
/// encoding ends.
pub proof fn lemma_read_encoded_arg(d: Seq<u8>, off: int, a: OscArgSpec)
    requires
        0 <= off,
        off + spec_encode_arg(a).len() <= d.len(),
        d.subrange(off, off + spec_encode_arg(a).len()) == spec_encode_arg(a),
        arg_roundtrips(a),
    ensures
        spec_read_arg(d, off, spec_type_tag(a)) == Some((a, off + spec_encode_arg(a).len())),
{
    let e = spec_encode_arg(a);
    match a {
        OscArgSpec::Int(v) => {
            lemma_be32_read(v as u32);
            lemma_be32_window(d, off, e);
            assert((v as u32) as i32 == v) by (bit_vector);
        },
        OscArgSpec::Float(x) => {
            lemma_be32_read(x);
            lemma_be32_window(d, off, e);
        },
        OscArgSpec::Color(x) => {
            lemma_be32_read(x);
            lemma_be32_window(d, off, e);
        },
        OscArgSpec::Midi(x) => {
            lemma_be32_read(x);
            lemma_be32_window(d, off, e);
        },
        OscArgSpec::Char(c) => {
            lemma_be32_read(c as u32);
            lemma_be32_window(d, off, e);
            vstd::utf8::char_is_scalar(c);
            vstd::utf8::char_u32_cast(c, c as u32);
        },
        OscArgSpec::Long(v) => {
            lemma_be64_read(v as u64);
            lemma_be64_window(d, off, e);
            assert((v as u64) as i64 == v) by (bit_vector);
        },
        OscArgSpec::Time(x) => {
            lemma_be64_read(x);
            lemma_be64_window(d, off, e);
        },
        OscArgSpec::Double(x) => {
            lemma_be64_read(x);
            lemma_be64_window(d, off, e);
        },
        OscArgSpec::Str(s) => {
            let bytes = vstd::utf8::encode_utf8(s);
            lemma_read_padded(d, off, bytes);
            vstd::utf8::encode_utf8_valid_utf8(s);
            vstd::utf8::encode_utf8_decode_utf8(s);
        },
        OscArgSpec::Symbol(s) => {
            let bytes = vstd::utf8::encode_utf8(s);
            lemma_read_padded(d, off, bytes);
            vstd::utf8::encode_utf8_valid_utf8(s);
            vstd::utf8::encode_utf8_decode_utf8(s);
        },
        OscArgSpec::Blob(b) => {
            let size = b.len() as u32;
            lemma_be32_read(size);
            assert(d.subrange(off, off + 4) =~= be32(size)) by {
                assert forall|j: int| 0 <= j < 4 implies d.subrange(off, off + 4)[j] == be32(size)[j] by {
                    assert(d.subrange(off, off + e.len())[j] == d[off + j]);
                    assert(e[j] == be32(size)[j]);
                }
            }
            lemma_be32_window(d, off, be32(size));
            assert(d.subrange(off + 4, off + 4 + b.len()) =~= b) by {
                assert forall|j: int| 0 <= j < b.len() implies d.subrange(off + 4, off + 4 + b.len())[j] == b[j] by {
                    assert(d.subrange(off, off + e.len())[4 + j] == d[off + 4 + j]);
                    assert(e[4 + j] == b[j]);
                }
            }
        },
        _ => {},
    }
}

/// Bytes below 0x80 are valid UTF-8.
pub proof fn lemma_ascii_valid_utf8(b: Seq<u8>)
    requires
        forall|i: int| 0 <= i < b.len() ==> #[trigger] b[i] < 0x80,
    ensures
        vstd::utf8::valid_utf8(b),
{
    let tc = Seq::new(b.len(), |i: int| b[i] as char);
    assert(vstd::utf8::is_ascii_chars(tc));
    vstd::utf8::is_ascii_chars_encode_utf8(tc);
    assert(vstd::utf8::encode_utf8(tc) =~= b);
    vstd::utf8::encode_utf8_valid_utf8(tc);
}

/// The encodings of the arguments encoded at `off` read back as those
/// arguments, ending where the encoding ends.
pub proof fn lemma_read_encoded_args(d: Seq<u8>, off: int, args: Seq<OscArgSpec>)
    requires
        0 <= off,
        off + spec_encode_args(args).len() <= d.len(),
        d.subrange(off, off + spec_encode_args(args).len()) == spec_encode_args(args),
        forall|i: int| 0 <= i < args.len() ==> arg_roundtrips(#[trigger] args[i]),
    ensures
        spec_read_args(d, off, spec_tag_bytes(args)) == Some((args, off + spec_encode_args(args).len())),
    decreases args.len(),
{
    if args.len() > 0 {
        let init = args.drop_last();
        let a = args.last();
        let ei = spec_encode_args(init);
        let ea = spec_encode_arg(a);
        let all = spec_encode_args(args);
        assert(all == ei + ea);
        assert(d.subrange(off, off + ei.len()) =~= ei) by {
            assert forall|j: int| 0 <= j < ei.len() implies d.subrange(off, off + ei.len())[j] == ei[j] by {
                assert(d.subrange(off, off + all.len())[j] == d[off + j]);
            }
        }
        assert(forall|i: int| 0 <= i < init.len() ==> init[i] == args[i]);
        lemma_read_encoded_args(d, off, init);
        assert(d.subrange(off + ei.len(), off + ei.len() + ea.len()) =~= ea) by {
            assert forall|j: int| 0 <= j < ea.len() implies d.subrange(off + ei.len(), off + ei.len() + ea.len())[j]
                == ea[j] by {
                assert(d.subrange(off, off + all.len())[ei.len() + j] == d[off + ei.len() + j]);
                assert(all[ei.len() + j] == ea[j]);
            }
        }
        assert(arg_roundtrips(args[args.len() - 1]));
        lemma_read_encoded_arg(d, off + ei.len(), a);
        assert(spec_tag_bytes(args).drop_last() =~= spec_tag_bytes(init));
        assert(init.push(a) =~= args);
    } else {
        assert(spec_tag_bytes(args) =~= Seq::<u8>::empty());
        assert(args =~= Seq::<OscArgSpec>::empty());
    }
}

/// The type tag string of a message's encoding: a comma, then one tag
/// per argument.
pub open spec fn tag_string(args: Seq<OscArgSpec>) -> Seq<u8> {
    seq![0x2Cu8] + spec_tag_bytes(args)
}

/// Where the parts of a message's encoding lie: its address read at 0
/// ends at `a`, its type tag string read at `a` ends at `t`, and its
/// arguments read at `t` end at the end of the encoding.
proof fn lemma_message_reads(address: Seq<char>, args: Seq<OscArgSpec>) -> (at: (int, int))
    requires
        spec_valid_address(vstd::utf8::encode_utf8(address)),
        forall|i: int| 0 <= i < args.len() ==> arg_roundtrips(#[trigger] args[i]),
    ensures
        ({
            let d = spec_encode_message(address, args);
            let ab = vstd::utf8::encode_utf8(address);
            &&& 0 < at.0 <= at.1 <= d.len()
            &&& d[0] == 0x2F
            &&& spec_read_cstr(d, 0) == Some((ab, at.0))
            &&& vstd::utf8::valid_utf8(ab)
            &&& vstd::utf8::decode_utf8(ab) == address
            &&& spec_read_cstr(d, at.0) == Some((tag_string(args), at.1))
            &&& vstd::utf8::valid_utf8(tag_string(args))
            &&& tag_string(args).subrange(1, tag_string(args).len() as int) == spec_tag_bytes(args)
            &&& spec_read_args(d, at.1, spec_tag_bytes(args)) == Some((args, d.len() as int))
        }),
{
    let ab = vstd::utf8::encode_utf8(address);
    let tb = tag_string(args);
    let pa = spec_padded(ab);
    let pt = spec_padded(tb);
    let e = spec_encode_args(args);
    let d = spec_encode_message(address, args);
    assert(d == pa + pt + e);
    // the address
    assert(d.subrange(0, pa.len() as int) =~= pa);
    lemma_read_padded(d, 0, ab);
    vstd::utf8::encode_utf8_valid_utf8(address);
    vstd::utf8::encode_utf8_decode_utf8(address);
    assert(d[0] == ab[0]);
    // the type tags
    assert forall|i: int| 0 <= i < tb.len() implies #[trigger] tb[i] != 0 && tb[i] < 0x80 by {
        if i > 0 {
            assert(tb[i] == spec_type_tag(args[i - 1]));
        }
    }
    assert(d.subrange(pa.len() as int, (pa.len() + pt.len()) as int) =~= pt);
    lemma_read_padded(d, pa.len() as int, tb);
    lemma_ascii_valid_utf8(tb);
    assert(tb.subrange(1, tb.len() as int) =~= spec_tag_bytes(args));
    // the arguments
    let off: int = (pa.len() + pt.len()) as int;
    assert(d.subrange(off, off + e.len() as int) =~= e);
    lemma_read_encoded_args(d, off, args);
    (pa.len() as int, off)
}

/// A message with a valid address whose arguments each read back as
/// themselves (strings without NUL, blobs with a 32-bit size) parses back
/// from its encoding to the same address, type tags and arguments, in
/// any argument order.
pub proof fn lemma_message_roundtrip(address: Seq<char>, args: Seq<OscArgSpec>)
    requires
        spec_valid_address(vstd::utf8::encode_utf8(address)),
        forall|i: int| 0 <= i < args.len() ==> arg_roundtrips(#[trigger] args[i]),
    ensures
        spec_parse_osc(spec_encode_message(address, args)) == Some(
            OscMessageRefSpec { address, tags: spec_tag_bytes(args), arguments: args },
        ),
{
    let _ = lemma_message_reads(address, args);
}

/// Reading a NUL-terminated string from a prefix of `d` that holds the
/// whole read (padding included) gives the same result; from a shorter
/// prefix it fails.
proof fn lemma_read_cstr_prefix(d: Seq<u8>, off: int, k: int)
    requires
        0 <= off <= k <= d.len(),
        spec_read_cstr(d, off) is Some,
    ensures
        spec_read_cstr(d, off).unwrap().1 <= k ==> spec_read_cstr(d.take(k), off) == spec_read_cstr(d, off),
        spec_read_cstr(d, off).unwrap().1 > k ==> spec_read_cstr(d.take(k), off) is None,
        off < spec_read_cstr(d, off).unwrap().1,
{
    let p = d.take(k);
    lemma_find_nul(d, off);
    lemma_find_nul(p, off);
    let n = find_nul(d, off).unwrap();
    let x = n - off + 1;
    assert(spec_padded_len(x) >= x) by (nonlinear_arith)
        requires x >= 1;
    if n < k {
        assert forall|j: int| off <= j < n implies p[j] != 0 by {}
        lemma_find_nul_at(p, off, n);
        assert(p.subrange(off, n) =~= d.subrange(off, n));
    } else {
        if find_nul(p, off) is Some {
            let m = find_nul(p, off).unwrap();
            assert(p[m] == d[m]);
        }
    }
}

/// Reading one argument from a prefix of `d` that holds the whole read
/// gives the same result; from a shorter prefix it fails.
proof fn lemma_read_arg_prefix(d: Seq<u8>, off: int, tag: u8, k: int)
    requires
        0 <= off <= k <= d.len(),
        spec_read_arg(d, off, tag) is Some,
    ensures
        spec_read_arg(d, off, tag).unwrap().1 <= k ==> spec_read_arg(d.take(k), off, tag) == spec_read_arg(d, off, tag),
        spec_read_arg(d, off, tag).unwrap().1 > k ==> spec_read_arg(d.take(k), off, tag) is None,
        off <= spec_read_arg(d, off, tag).unwrap().1,
{
    let p = d.take(k);
    if tag == tags::INT || tag == tags::FLOAT || tag == tags::COLOR || tag == tags::MIDI || tag == tags::CHAR {
        if off + 4 <= k {
            assert(be_u32_at(p, off) == be_u32_at(d, off));
        }
    } else if tag == tags::LONG || tag == tags::TIME || tag == tags::DOUBLE {
        if off + 8 <= k {
            assert(be_u32_at(p, off) == be_u32_at(d, off));
            assert(be_u32_at(p, off + 4) == be_u32_at(d, off + 4));
        }
    } else if tag == tags::STRING || tag == tags::SYMBOL {
        lemma_read_cstr_prefix(d, off, k);
    } else if tag == tags::BLOB {
        let size = be_u32_at(d, off) as int;
        assert(spec_padded_len(size) >= size) by (nonlinear_arith)
            requires size >= 0;
        if off + 4 <= k {
            assert(be_u32_at(p, off) == be_u32_at(d, off));
            let start = off + 4;
            if start + spec_padded_len(size) <= k {
                assert(p.subrange(start, start + size) =~= d.subrange(start, start + size));
            }
        }
    }
}

/// Reading arguments from a prefix of `d` that holds all the reads gives
/// the same result; from a shorter prefix it fails.
proof fn lemma_read_args_prefix_data(d: Seq<u8>, off: int, tb: Seq<u8>, k: int)
    requires
        0 <= off <= k <= d.len(),
        spec_read_args(d, off, tb) is Some,
    ensures
        spec_read_args(d, off, tb).unwrap().1 <= k ==> spec_read_args(d.take(k), off, tb) == spec_read_args(d, off, tb),
        spec_read_args(d, off, tb).unwrap().1 > k ==> spec_read_args(d.take(k), off, tb) is None,
        off <= spec_read_args(d, off, tb).unwrap().1,
    decreases tb.len(),
{
    if tb.len() > 0 {
        let init = tb.drop_last();
        lemma_read_args_prefix_data(d, off, init, k);
        let o = spec_read_args(d, off, init).unwrap().1;
        if o <= k {
            lemma_read_arg_prefix(d, o, tb.last(), k);
        } else {
            lemma_read_arg_advance_any(d, o, tb.last());
        }
    }
}

/// Reading an argument never moves the offset back.
proof fn lemma_read_arg_advance_any(d: Seq<u8>, off: int, tag: u8)
    requires
        0 <= off,
    ensures
        spec_read_arg(d, off, tag) matches Some((_, next)) ==> off <= next,
{
    if tag == tags::STRING || tag == tags::SYMBOL {
        lemma_find_nul(d, off);
        if let Some(n) = find_nul(d, off) {
            let x = n - off + 1;
            assert(spec_padded_len(x) >= x) by (nonlinear_arith)
                requires x >= 1;
        }
    } else if tag == tags::BLOB && off + 4 <= d.len() {
        let size = be_u32_at(d, off) as int;
        assert(spec_padded_len(size) >= size) by (nonlinear_arith)
            requires size >= 0;
    }
}

/// Every truncation of an encoded message is rejected: no proper prefix
/// of the encoding of a message that reads back as itself parses.
pub proof fn lemma_message_truncation(address: Seq<char>, args: Seq<OscArgSpec>, k: int)
    requires
        spec_valid_address(vstd::utf8::encode_utf8(address)),
        forall|i: int| 0 <= i < args.len() ==> arg_roundtrips(#[trigger] args[i]),
        0 <= k < spec_encode_message(address, args).len(),
    ensures
        spec_parse_osc(spec_encode_message(address, args).take(k)) is None,
{
    let d = spec_encode_message(address, args);
    let p = d.take(k);
    let (a, t) = lemma_message_reads(address, args);
    if k > 0 {
        assert(p[0] == d[0]);
        lemma_read_cstr_prefix(d, 0, k);
        if a <= k {
            lemma_read_cstr_prefix(d, a, k);
            if t <= k {
                lemma_read_args_prefix_data(d, t, spec_tag_bytes(args), k);
            }
        }
    }
}

} // verus!
