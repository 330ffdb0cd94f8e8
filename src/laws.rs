//! Properties that relate the decoded tree back to the bytes it came from.
use vstd::prelude::*;

use crate::chunk::LeafModel;
use crate::decoder::{children_from, decode_spec, frame_spec, le_u32, padded};
use crate::fourcc::{lemma_resolve_tag_inverse, resolve_tag, tag_bytes};

verus! {

/// The four little-endian bytes of `n`.
pub open spec fn le_bytes(n: nat) -> Seq<u8> {
    seq![
        (n % 0x100) as u8,
        (n / 0x100 % 0x100) as u8,
        (n / 0x1_0000 % 0x100) as u8,
        (n / 0x100_0000 % 0x100) as u8,
    ]
}

/// A leaf written back as a chunk: its tag, its length and its payload.
pub open spec fn encode_leaf(m: LeafModel) -> Seq<u8> {
    tag_bytes(m.0) + le_bytes(m.1.len()) + m.1
}

/// Starting at `cursor`, `p` holds each of `kids` written back as a chunk,
/// the next one starting after the previous one's padded payload.
pub open spec fn reproduces(p: Seq<u8>, cursor: nat, kids: Seq<LeafModel>) -> bool
    decreases kids.len(),
{
    if kids.len() == 0 {
        true
    } else {
        let e = encode_leaf(kids[0]);
        &&& cursor + e.len() <= p.len()
        &&& p.subrange(cursor as int, cursor + e.len() as int) == e
        &&& reproduces(p, cursor + 8 + padded(kids[0].1.len()), kids.drop_first())
    }
}

/// Each byte of a shifted and or-ed word comes back out by division and remainder.
proof fn lemma_le_bytes_bits(b0: u8, b1: u8, b2: u8, b3: u8)
    ensures
        ({
            let v = (b3 as u32) << 24u32 | (b2 as u32) << 16u32 | (b1 as u32) << 8u32 | b0 as u32;
            &&& (v % 0x100) as u8 == b0
            &&& (v / 0x100 % 0x100) as u8 == b1
            &&& (v / 0x1_0000 % 0x100) as u8 == b2
            &&& (v / 0x100_0000 % 0x100) as u8 == b3
        }),
{
    assert(((((b3 as u32) << 24u32 | (b2 as u32) << 16u32 | (b1 as u32) << 8u32 | b0 as u32) % 0x100u32) as u8 == b0)
        && (((((b3 as u32) << 24u32 | (b2 as u32) << 16u32 | (b1 as u32) << 8u32 | b0 as u32) / 0x100u32) % 0x100u32) as u8 == b1)
        && (((((b3 as u32) << 24u32 | (b2 as u32) << 16u32 | (b1 as u32) << 8u32 | b0 as u32) / 0x1_0000u32) % 0x100u32) as u8 == b2)
        && (((((b3 as u32) << 24u32 | (b2 as u32) << 16u32 | (b1 as u32) << 8u32 | b0 as u32) / 0x100_0000u32) % 0x100u32) as u8 == b3))
        by (bit_vector);
}

/// Writing back a decoded length gives the four bytes it was read from.
pub proof fn lemma_le_round_trip(b: Seq<u8>)
    requires
        b.len() == 4,
    ensures
        le_bytes(le_u32(b)) == b,
{
    crate::decoder::lemma_le_u32_bits(b[0], b[1], b[2], b[3]);
    lemma_le_bytes_bits(b[0], b[1], b[2], b[3]);
    assert(le_bytes(le_u32(b)) =~= b);
}

/// The children decoded from `p` at `cursor`, each written back from its tag,
/// its length and its payload, give the bytes of `p` they were read from.
pub proof fn lemma_children_round_trip(p: Seq<u8>, cursor: nat)
    requires
        children_from(p, cursor) is Ok,
    ensures
        reproduces(p, cursor, children_from(p, cursor)->Ok_0),
    decreases (if cursor < p.len() { p.len() - cursor } else { 0 }),
{
    let kids = children_from(p, cursor)->Ok_0;
    if cursor < p.len() {
        let h = p.subrange(cursor as int, p.len() as int);
        let (id, len) = frame_spec(h)->Ok_0;
        let next = cursor + 8 + padded(len);
        lemma_children_round_trip(p, next);
        lemma_resolve_tag_inverse(h.subrange(0, 4));
        lemma_le_round_trip(h.subrange(4, 8));
        let m = kids[0];
        assert(m == (id, p.subrange(cursor + 8 as int, cursor + 8 + len as int)));
        assert(kids.drop_first() =~= children_from(p, next)->Ok_0);
        assert(p.subrange(cursor as int, cursor + encode_leaf(m).len() as int) =~= encode_leaf(m));
    }
}

/// Each child of a decoded buffer's root container, written back from its tag,
/// its length and its payload, gives the bytes it was read from; the first
/// child starts right after the form signature.
pub proof fn lemma_decode_round_trip(b: Seq<u8>)
    requires
        decode_spec(b) is Ok,
    ensures
        reproduces(b.subrange(8, b.len() as int), 4, decode_spec(b)->Ok_0),
{
    lemma_children_round_trip(b.subrange(8, b.len() as int), 4);
}

} // verus!
