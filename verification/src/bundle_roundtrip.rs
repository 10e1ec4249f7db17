//! What a parse of an encoded OSC bundle gives back.
use vstd::prelude::*;

use crate::bundle::{
    bundle_marker, spec_encode_elements, spec_encode_packet, spec_parse_bundle_at, spec_parse_elements,
    spec_parse_packet_at, OscPacketSpec,
};
use crate::message::{spec_encode_message, spec_valid_address, OscArgSpec, OscMessageSpec};
use crate::osc_roundtrip::{
    arg_roundtrips, lemma_be32_read, lemma_be32_window, lemma_be64_read, lemma_be64_window,
    lemma_message_roundtrip, lemma_read_padded,
};
use crate::types::spec_padded;
use crate::wire::{be32, be64};

verus! {

/// A message that reads back as itself: a valid address, and arguments
/// that each read back as themselves.
pub open spec fn message_roundtrips(m: OscMessageSpec) -> bool {
    &&& spec_valid_address(vstd::utf8::encode_utf8(m.address))
    &&& forall|i: int| 0 <= i < m.arguments.len() ==> arg_roundtrips(#[trigger] m.arguments[i])
}

/// A packet at nesting `depth` that reads back as itself: a message that
/// does, or a bundle nested less than 32 deep whose time tag is not the
/// wire value 1 (which reads back as immediate) and whose elements each
/// encode to less than 2^32 bytes and read back as themselves.
pub open spec fn packet_roundtrips(p: OscPacketSpec, depth: int) -> bool
    decreases p,
{
    match p {
        OscPacketSpec::Message(m) => message_roundtrips(m),
        OscPacketSpec::Bundle(ts, elems) => {
            &&& depth < 32
            &&& ts != Some(1u64)
            &&& forall|i: int|
                0 <= i < elems.len() ==> spec_encode_packet(#[trigger] elems[i]).len() < 0x1_0000_0000
                    && packet_roundtrips(elems[i], depth + 1)
        },
    }
}

/// A packet that reads back as itself parses, at its nesting depth, from
/// its encoding to itself.
pub proof fn lemma_packet_roundtrip(p: OscPacketSpec, depth: int)
    requires
        0 <= depth <= 32,
        packet_roundtrips(p, depth),
    ensures
        spec_parse_packet_at(spec_encode_packet(p), depth) == Some(p),
    decreases p, 2int, 0int,
{
    match p {
        OscPacketSpec::Message(m) => {
            lemma_message_packet(m, depth);
        },
        OscPacketSpec::Bundle(ts, elems) => {
            lemma_bundle_parse(p, depth);
        },
    }
}

/// A message that reads back as itself parses, as a bundle element, from
/// its encoding to itself.
proof fn lemma_message_packet(m: OscMessageSpec, depth: int)
    requires
        0 <= depth <= 32,
        message_roundtrips(m),
    ensures
        spec_parse_packet_at(spec_encode_packet(OscPacketSpec::Message(m)), depth) == Some(OscPacketSpec::Message(m)),
{
    lemma_message_roundtrip(m.address, m.arguments);
    let d = spec_encode_message(m.address, m.arguments);
    assert(spec_encode_packet(OscPacketSpec::Message(m)) == d);
    let ab = vstd::utf8::encode_utf8(m.address);
    assert(d[0] == spec_padded(ab)[0]);
    assert(d[0] != 0x23);
}

/// A bundle that reads back as itself parses from its encoding to itself.
proof fn lemma_bundle_parse(p: OscPacketSpec, depth: int)
    requires
        0 <= depth,
        p is Bundle,
        packet_roundtrips(p, depth),
    ensures
        spec_encode_packet(p).len() > 0,
        spec_encode_packet(p)[0] == 0x23,
        spec_parse_bundle_at(spec_encode_packet(p), depth) == Some(p),
    decreases p, 1int, 0int,
{
    if let OscPacketSpec::Bundle(ts, elems) = p {
        let t: u64 = match ts {
            Some(x) => x,
            None => 1,
        };
        let marker = bundle_marker();
        let pm = spec_padded(marker);
        let d = spec_encode_packet(p);
        assert(pm.len() == 8);
        assert(d =~= pm + be64(t) + spec_encode_elements(elems, 0));
        assert(d.subrange(0, 8) =~= pm);
        lemma_read_padded(d, 0, marker);
        assert(d.subrange(8, 16) =~= be64(t));
        lemma_be64_window(d, 8, be64(t));
        lemma_be64_read(t);
        assert(d.subrange(16, d.len() as int) =~= spec_encode_elements(elems, 0));
        lemma_parse_elements(p, depth, d, 16, 0);
        assert(elems.take(0) =~= Seq::<OscPacketSpec>::empty());
    }
}

/// The elements `elems[i..]` of a bundle that reads back as itself, encoded
/// at `off`, parse to the rest of the elements.
#[verifier::rlimit(80)]
#[verifier::spinoff_prover]
proof fn lemma_parse_elements(p: OscPacketSpec, depth: int, d: Seq<u8>, off: int, i: int)
    requires
        0 <= depth,
        p is Bundle,
        packet_roundtrips(p, depth),
        0 <= i <= p->Bundle_1.len(),
        0 <= off <= d.len(),
        d.subrange(off, d.len() as int) == spec_encode_elements(p->Bundle_1, i),
    ensures
        spec_parse_elements(d, off, depth, p->Bundle_1.take(i)) == Some(p->Bundle_1),
    decreases p, 0int, p->Bundle_1.len() - i,
{
    let elems = p->Bundle_1;
    if i == elems.len() {
        assert(elems.take(i) =~= elems);
    } else {
        let e = spec_encode_packet(elems[i]);
        let rest = spec_encode_elements(elems, i + 1);
        assert(spec_encode_elements(elems, i) == be32(e.len() as u32) + e + rest);
        assert(e.len() < 0x1_0000_0000 && packet_roundtrips(elems[i], depth + 1));
        let start = off + 4;
        let end = start + e.len();
        assert(d.subrange(off, off + 4) =~= be32(e.len() as u32)) by {
            assert(d.subrange(off, off + 4) =~= d.subrange(off, d.len() as int).subrange(0, 4));
        }
        lemma_be32_window(d, off, be32(e.len() as u32));
        lemma_be32_read(e.len() as u32);
        assert(d.subrange(start, end) =~= e) by {
            assert(d.subrange(start, end) =~= d.subrange(off, d.len() as int).subrange(4, 4 + e.len() as int));
        }
        assert(decreases_to!(p => elems[i]));
        lemma_packet_roundtrip(elems[i], depth + 1);
        assert(d.subrange(end, d.len() as int) =~= rest) by {
            assert(d.subrange(end, d.len() as int) =~= d.subrange(off, d.len() as int).subrange(
                4 + e.len() as int,
                d.len() - off,
            ));
        }
        lemma_parse_elements(p, depth, d, end, i + 1);
        assert(elems.take(i).push(elems[i]) =~= elems.take(i + 1));
    }
}

/// A bundle whose elements read back as themselves, nested less than 32
/// deep and with a time tag other than the wire value 1, parses from its
/// encoding to the same time tag and elements.
pub proof fn lemma_bundle_roundtrip(ts: Option<u64>, elems: Seq<OscPacketSpec>)
    requires
        packet_roundtrips(OscPacketSpec::Bundle(ts, elems), 0),
    ensures
        spec_parse_bundle_at(spec_encode_packet(OscPacketSpec::Bundle(ts, elems)), 0) == Some(
            OscPacketSpec::Bundle(ts, elems),
        ),
{
    lemma_bundle_parse(OscPacketSpec::Bundle(ts, elems), 0);
}

} // verus!
